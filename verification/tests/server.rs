//! End-to-end command execution: bootstrap config, authentication, data
//! commands and reply shapes.

use aci_server::commands::Command;
use aci_server::database::Database;
use aci_server::interface::DatabaseInterface;
use aci_server::json::{Entry, JsonValue, Number};
use aci_server::parsing::build_database;
use aci_server::permissions::UserAuthentication;
use aci_server::server::Server;
use aci_server::session::ServerInterface;

fn s(x: &str) -> JsonValue {
    JsonValue::Str(x.to_string())
}

fn n(u: u64) -> JsonValue {
    JsonValue::Num(Number::Unsigned(u))
}

fn arr(items: Vec<JsonValue>) -> JsonValue {
    JsonValue::Array(items)
}

fn obj(pairs: Vec<(&str, JsonValue)>) -> JsonValue {
    JsonValue::Object(
        pairs.into_iter().map(|(key, value)| Entry { key: key.to_string(), value }).collect(),
    )
}

fn admin() -> UserAuthentication {
    UserAuthentication { is_authed: true, name: String::new(), domain: String::new() }
}

/// A server whose config database holds the bootstrap fields.
fn bootstrap_server() -> Server {
    let mut cfg = DatabaseInterface::new(Database::new("config"), chashmap::CHashMap::new());
    let a = admin();
    cfg.write_to_key("ip", s("127.0.0.1"), &a).unwrap();
    cfg.write_to_key("port", n(8765), &a).unwrap();
    cfg.write_to_key(
        "a_users",
        obj(vec![("alice", obj(vec![("tokens", arr(vec![s("tok")]))]))]),
        &a,
    )
    .unwrap();
    Server::new(cfg)
}

fn perm_any() -> JsonValue {
    obj(vec![
        ("read", arr(vec![arr(vec![s("a_user"), s("any")])])),
        ("write", arr(vec![arr(vec![s("a_user"), s("any")])])),
    ])
}

/// A server that also holds the database `test` with `list0` loaded from
/// item values, as the disk codec would deliver them.
fn loaded_server() -> Server {
    let mut server = bootstrap_server();
    let list0 = arr(vec![
        n(0),
        n(1),
        s("2"),
        s("3"),
        JsonValue::Bool(true),
        JsonValue::Num(Number::FloatBits(4.0f64.to_bits())),
        JsonValue::Bool(false),
    ]);
    let item = obj(vec![("key", s("list0")), ("value", list0), ("permissions", perm_any())]);
    let di = build_database("test", vec![item]).unwrap();
    server.install_database("test".to_string(), di);
    server
}

fn run(server: &mut Server, session: &mut ServerInterface, text: &str) -> JsonValue {
    let cmd = Command::from_string(text).unwrap();
    session.execute_command(server, cmd, Ok(None)).unwrap().unwrap()
}

#[test]
pub fn test_config_fields() {
    let server = bootstrap_server();
    assert_eq!(server.config_get_ip(), Ok("127.0.0.1".to_string()));
    assert_eq!(server.config_get_port(), Ok(8765));
}

#[test]
pub fn test_a_auth_success_and_failure() {
    let mut server = bootstrap_server();

    let mut session = ServerInterface::new();
    let reply = run(&mut server, &mut session, "{\"cmd\":\"a_auth\",\"id\":\"alice\",\"token\":\"tok\"}");
    assert_eq!(reply, obj(vec![("cmd", s("a_auth")), ("mode", s("ok")), ("msg", s("success"))]));
    assert!(session.user_profile.is_authed);
    assert_eq!(session.user_profile.name.as_str(), "alice");
    assert_eq!(session.user_profile.domain.as_str(), "a_auth");

    let mut fresh = ServerInterface::new();
    let reply = run(&mut server, &mut fresh, "{\"cmd\":\"a_auth\",\"id\":\"alice\",\"token\":\"wrong\"}");
    assert_eq!(
        reply,
        obj(vec![("cmd", s("a_auth")), ("mode", s("ok")), ("msg", s("Failed, token incorrect"))])
    );
    assert!(!fresh.user_profile.is_authed);

    let mut other = ServerInterface::new();
    let reply = run(&mut server, &mut other, "{\"cmd\":\"a_auth\",\"id\":\"carol\",\"token\":\"tok\"}");
    assert_eq!(
        reply,
        obj(vec![("cmd", s("a_auth")), ("mode", s("ok")), ("msg", s("Failed, a_user not found"))])
    );
}

#[test]
pub fn test_unauthenticated_commands_fail() {
    let mut server = loaded_server();
    let mut session = ServerInterface::new();
    let cmd = Command::from_string("{\"cmd\":\"get_value\",\"db_key\":\"test\",\"key\":\"list0\"}")
        .unwrap();
    assert!(session.execute_command(&mut server, cmd, Ok(None)).is_err());
}

#[test]
pub fn test_get_recent_after_load() {
    let mut server = loaded_server();
    let mut session = ServerInterface::new();
    session.fake_auth();

    let reply = run(
        &mut server,
        &mut session,
        "{\"cmd\":\"get_recent\",\"db_key\":\"test\",\"key\":\"list0\",\"num\":3}",
    );
    assert_eq!(
        reply,
        obj(vec![
            ("cmd", s("get_recent")),
            ("mode", s("ok")),
            ("msg", s("")),
            ("key", s("list0")),
            ("db_key", s("test")),
            (
                "val",
                arr(vec![
                    JsonValue::Bool(true),
                    JsonValue::Num(Number::FloatBits(4.0f64.to_bits())),
                    JsonValue::Bool(false),
                ]),
            ),
        ])
    );
}

#[test]
pub fn test_append_then_length() {
    let mut server = loaded_server();
    let mut session = ServerInterface::new();
    session.fake_auth();

    let reply = run(
        &mut server,
        &mut session,
        "{\"cmd\":\"append_list\",\"db_key\":\"test\",\"key\":\"list0\",\"val\":1}",
    );
    assert_eq!(
        reply,
        obj(vec![
            ("cmd", s("append_list")),
            ("mode", s("ok")),
            ("msg", s("")),
            ("key", s("list0")),
            ("db_key", s("test")),
            ("next", n(7)),
        ])
    );

    let reply = run(
        &mut server,
        &mut session,
        "{\"cmd\":\"get_list_length\",\"db_key\":\"test\",\"key\":\"list0\"}",
    );
    assert_eq!(
        reply,
        obj(vec![
            ("cmd", s("get_list_length")),
            ("mode", s("ok")),
            ("msg", s("")),
            ("key", s("list0")),
            ("db_key", s("test")),
            ("length", n(8)),
        ])
    );
}

#[test]
pub fn test_set_index_pads_with_null() {
    let mut server = loaded_server();
    let mut session = ServerInterface::new();
    session.fake_auth();

    run(
        &mut server,
        &mut session,
        "{\"cmd\":\"set_value\",\"db_key\":\"test\",\"key\":\"list1\",\"val\":[]}",
    );
    let reply = run(
        &mut server,
        &mut session,
        "{\"cmd\":\"set_index\",\"db_key\":\"test\",\"key\":\"list1\",\"index\":5,\"val\":\"x\"}",
    );
    assert_eq!(
        reply,
        obj(vec![
            ("cmd", s("set_index")),
            ("mode", s("ok")),
            ("msg", s("")),
            ("key", s("list1")),
            ("db_key", s("test")),
            ("index", n(5)),
        ])
    );

    let reply = run(
        &mut server,
        &mut session,
        "{\"cmd\":\"get_list_length\",\"db_key\":\"test\",\"key\":\"list1\"}",
    );
    assert_eq!(
        reply,
        obj(vec![
            ("cmd", s("get_list_length")),
            ("mode", s("ok")),
            ("msg", s("")),
            ("key", s("list1")),
            ("db_key", s("test")),
            ("length", n(6)),
        ])
    );

    let reply = run(
        &mut server,
        &mut session,
        "{\"cmd\":\"get_index\",\"db_key\":\"test\",\"key\":\"list1\",\"index\":2}",
    );
    assert_eq!(
        reply,
        obj(vec![
            ("cmd", s("get_index")),
            ("mode", s("ok")),
            ("msg", s("")),
            ("key", s("list1")),
            ("db_key", s("test")),
            ("index", n(2)),
            ("val", JsonValue::Null),
        ])
    );

    let reply = run(
        &mut server,
        &mut session,
        "{\"cmd\":\"get_index\",\"db_key\":\"test\",\"key\":\"list1\",\"index\":5}",
    );
    assert_eq!(
        reply,
        obj(vec![
            ("cmd", s("get_index")),
            ("mode", s("ok")),
            ("msg", s("")),
            ("key", s("list1")),
            ("db_key", s("test")),
            ("index", n(5)),
            ("val", s("x")),
        ])
    );
}

#[test]
pub fn test_unique_id_echoed() {
    let mut server = loaded_server();
    let mut session = ServerInterface::new();
    session.fake_auth();

    let reply = run(
        &mut server,
        &mut session,
        "{\"cmd\":\"get_value\",\"db_key\":\"test\",\"key\":\"list0\",\"unique_id\":12783465}",
    );
    match &reply {
        JsonValue::Object(entries) => {
            let last = entries.last().unwrap();
            assert_eq!(last.key.as_str(), "unique_id");
            assert_eq!(last.value, n(12783465));
        },
        _ => panic!("reply is not an object"),
    }
}

#[test]
pub fn test_set_then_get_round_trip() {
    let mut server = loaded_server();
    let mut session = ServerInterface::new();
    session.fake_auth();

    run(
        &mut server,
        &mut session,
        "{\"cmd\":\"set_value\",\"db_key\":\"test\",\"key\":\"fresh\",\"val\":{\"deep\":[1,null,true]}}",
    );
    let reply = run(
        &mut server,
        &mut session,
        "{\"cmd\":\"get_value\",\"db_key\":\"test\",\"key\":\"fresh\"}",
    );
    assert_eq!(
        reply,
        obj(vec![
            ("cmd", s("get_value")),
            ("mode", s("ok")),
            ("msg", s("")),
            ("key", s("fresh")),
            ("db_key", s("test")),
            ("val", obj(vec![("deep", arr(vec![n(1), JsonValue::Null, JsonValue::Bool(true)]))])),
        ])
    );
}

#[test]
pub fn test_list_keys_sorted() {
    let mut server = loaded_server();
    let mut session = ServerInterface::new();
    session.fake_auth();

    run(&mut server, &mut session, "{\"cmd\":\"set_value\",\"db_key\":\"test\",\"key\":\"aaa\",\"val\":0}");
    let reply = run(&mut server, &mut session, "{\"cmd\":\"list_keys\",\"db_key\":\"test\"}");
    assert_eq!(
        reply,
        obj(vec![
            ("cmd", s("list_keys")),
            ("mode", s("ok")),
            ("msg", s("")),
            ("db_key", s("test")),
            ("val", arr(vec![s("aaa"), s("list0")])),
        ])
    );
}

#[test]
pub fn test_create_database_and_write() {
    let mut server = bootstrap_server();
    let mut session = ServerInterface::new();
    session.fake_auth();

    let reply = run(&mut server, &mut session, "{\"cmd\":\"create_database\",\"db_key\":\"fresh\",\"unique_id\":512}");
    assert_eq!(
        reply,
        obj(vec![
            ("cmd", s("create_database")),
            ("mode", s("ok")),
            ("msg", s("")),
            ("db_key", s("fresh")),
            ("unique_id", n(512)),
        ])
    );

    let reply = run(&mut server, &mut session, "{\"cmd\":\"set_value\",\"db_key\":\"fresh\",\"key\":\"k\",\"val\":7}");
    assert_eq!(
        reply,
        obj(vec![
            ("cmd", s("set_value")),
            ("mode", s("ok")),
            ("msg", s("")),
            ("key", s("k")),
            ("db_key", s("fresh")),
        ])
    );
}

#[test]
pub fn test_codec_round_trip() {
    let mut server = loaded_server();
    let mut session = ServerInterface::new();
    session.fake_auth();
    run(&mut server, &mut session, "{\"cmd\":\"set_value\",\"db_key\":\"test\",\"key\":\"plain\",\"val\":\"word\"}");

    let di = server.take_database("test").unwrap();
    let (manifest, items) = aci_server::parsing::database_to_values(&di).unwrap();
    server.install_database("test".to_string(), di);

    match &manifest {
        JsonValue::Object(entries) => {
            assert_eq!(entries[0].key.as_str(), "dbKey");
            assert_eq!(entries[0].value, s("test"));
            assert_eq!(entries[1].key.as_str(), "ver");
            assert_eq!(entries[2].key.as_str(), "keys");
            assert_eq!(entries[2].value, arr(vec![s("list0"), s("plain")]));
        },
        _ => panic!("manifest is not an object"),
    }

    let item_values: Vec<JsonValue> = items.into_iter().map(|p| p.1).collect();
    let reloaded = build_database("test", item_values).unwrap();
    let user = admin();
    assert_eq!(reloaded.read_from_key("plain", &user), Ok(s("word")));
    assert_eq!(reloaded.get_length_from_key("list0", &user), Ok(7));
}

#[test]
pub fn test_g_auth_outcomes() {
    let mut server = bootstrap_server();

    let mut session = ServerInterface::new();
    let cmd = Command::from_string("{\"cmd\":\"g_auth\",\"id_token\":\"tkn\"}").unwrap();
    let reply = session
        .execute_command(&mut server, cmd, Ok(Some("bob".to_string())))
        .unwrap()
        .unwrap();
    assert_eq!(reply, obj(vec![("cmd", s("g_auth")), ("mode", s("ok")), ("msg", s("success"))]));
    assert!(session.user_profile.is_authed);
    assert_eq!(session.user_profile.name.as_str(), "bob");
    assert_eq!(session.user_profile.domain.as_str(), "g_auth");

    let mut fresh = ServerInterface::new();
    let cmd = Command::from_string("{\"cmd\":\"g_auth\",\"id_token\":\"tkn\"}").unwrap();
    let reply = fresh.execute_command(&mut server, cmd, Ok(None)).unwrap().unwrap();
    assert_eq!(reply, obj(vec![("cmd", s("g_auth")), ("mode", s("ok")), ("msg", s("error"))]));
    assert!(!fresh.user_profile.is_authed);
}
