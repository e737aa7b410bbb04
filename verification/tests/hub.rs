//! The hub's dispatch decisions: planning, event replies, suppression
//! and batch assembly.

use aci_server::hub::{assemble_batch, event_outcome, execute_outcome, plan_individual, Plan};
use aci_server::json::{Entry, JsonValue, Number};
use aci_server::json_text::parse_json_text;

fn s(x: &str) -> JsonValue {
    JsonValue::Str(x.to_string())
}

fn n(u: u64) -> JsonValue {
    JsonValue::Num(Number::Unsigned(u))
}

fn arr(items: Vec<JsonValue>) -> JsonValue {
    JsonValue::Array(items)
}

fn obj(pairs: Vec<(&str, JsonValue)>) -> JsonValue {
    JsonValue::Object(
        pairs.into_iter().map(|(key, value)| Entry { key: key.to_string(), value }).collect(),
    )
}

fn event_value() -> JsonValue {
    parse_json_text(
        "{\"cmd\":\"event\",\"event_id\":\"e1\",\"destination\":\"bob\",\"origin\":\"alice\",\"data\":42}",
    )
    .unwrap()
}

#[test]
pub fn test_parse_json_text_structure() {
    let v = parse_json_text("{\"a\":[1,true,null],\"b\":\"x\"}").unwrap();
    assert_eq!(
        v,
        obj(vec![
            ("a", arr(vec![n(1), JsonValue::Bool(true), JsonValue::Null])),
            ("b", s("x")),
        ])
    );
    assert!(parse_json_text("{\"a\": nope}").is_none());
}

#[test]
pub fn test_plan_event() {
    let val = event_value();
    match plan_individual(&val) {
        Plan::Event { destination, no_ack } => {
            assert_eq!(destination.as_str(), "bob");
            assert!(!no_ack);
        },
        other => panic!("unexpected plan {:?}", other),
    }
}

#[test]
pub fn test_plan_execute_and_ignore() {
    let val = parse_json_text("{\"cmd\":\"get_value\",\"db_key\":\"d\",\"key\":\"k\",\"no_ack\":true}")
        .unwrap();
    match plan_individual(&val) {
        Plan::Execute { no_ack } => assert!(no_ack),
        other => panic!("unexpected plan {:?}", other),
    }

    let bad = parse_json_text("{\"cmd\":\"no_such_tag\"}").unwrap();
    match plan_individual(&bad) {
        Plan::Ignore => {},
        other => panic!("unexpected plan {:?}", other),
    }
}

#[test]
pub fn test_event_ack() {
    let val = event_value();
    let reply = event_outcome(&val, "bob", true, false).unwrap();
    assert_eq!(
        reply,
        obj(vec![
            ("cmd", s("event")),
            ("mode", s("ack")),
            ("event_id", s("e1")),
            ("origin", s("alice")),
        ])
    );
}

#[test]
pub fn test_event_unreachable_user() {
    let val = event_value();
    let reply = event_outcome(&val, "bob", false, false).unwrap();
    assert_eq!(
        reply,
        obj(vec![
            ("cmd", s("event")),
            ("mode", s("error")),
            ("msg", s("Unable to connect to user bob")),
            ("event_id", s("e1")),
            ("origin", s("alice")),
        ])
    );
}

#[test]
pub fn test_event_no_ack_suppresses() {
    let val = event_value();
    assert!(event_outcome(&val, "bob", true, true).is_none());
    assert!(event_outcome(&val, "bob", false, true).is_none());
}

#[test]
pub fn test_execute_outcome_suppression() {
    assert!(execute_outcome(Ok(Some(s("reply"))), true).is_none());
    assert!(execute_outcome(Err("boom".to_string()), true).is_none());
    assert_eq!(execute_outcome(Ok(Some(s("reply"))), false), Some(s("reply")));
    assert!(execute_outcome(Ok(None), false).is_none());
    assert_eq!(
        execute_outcome(Err("boom".to_string()), false),
        Some(obj(vec![
            ("cmd", s("UNKNOWN")),
            ("mode", s("error")),
            ("msg", s("Error from server process: boom")),
        ]))
    );
}

#[test]
pub fn test_batch_assembly() {
    assert!(assemble_batch(vec![]).is_none());
    assert!(assemble_batch(vec![None, None, None]).is_none());
    assert_eq!(
        assemble_batch(vec![Some(s("a")), None, Some(n(2))]),
        Some(arr(vec![s("a"), n(2)]))
    );
}
