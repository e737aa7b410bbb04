//! The connection hub's decisions: how one inbound JSON value is planned
//! for dispatch, what reply an event produces, and how a batch's replies
//! are assembled.  The transport, the directory of connected users and
//! the sends themselves live with the host; the host performs each plan
//! and hands outcomes back.

use vstd::prelude::*;

use crate::commands::{spec_from_json, Command, Commands, ParseKind};
use crate::json::{pairs_view, Entry, JsonData, JsonValue};
use crate::session::{push_field, sfield, s_str};

verus! {

/// Whether a payload asks for its reply to be suppressed.
pub open spec fn spec_no_ack(d: JsonData) -> bool {
    sfield(d, "no_ack"@) == Some(JsonData::Bool(true))
}

/// What the hub does with one inbound value: run it as a command, route
/// it as an event to a destination, or drop it.
#[derive(Debug)]
pub enum Plan {
    Execute { no_ack: bool },
    Event { destination: String, no_ack: bool },
    Ignore,
}

/// Decide what to do with one inbound value.  A value that does not parse
/// as a command is dropped; an event is routed to its destination; any
/// other command is executed.
pub fn plan_individual(val: &JsonValue) -> (r: Plan)
    ensures
        match r {
            Plan::Execute { no_ack } => {
                &&& spec_from_json(val@) matches ParseKind::Parsed(c) && !(c is Event)
                &&& no_ack == spec_no_ack(val@)
            },
            Plan::Event { destination, no_ack } => {
                &&& spec_from_json(val@) matches ParseKind::Parsed(c) && c is Event
                &&& s_str(val@, "destination"@) == Some(destination@)
                &&& no_ack == spec_no_ack(val@)
            },
            Plan::Ignore => !(spec_from_json(val@) matches ParseKind::Parsed(c) && (!(c is Event)
                || s_str(val@, "destination"@) is Some)),
        },
{
    let no_ack = match val {
        JsonValue::Object(entries) => {
            match crate::json::obj_get(entries, "no_ack") {
                Some(JsonValue::Bool(true)) => true,
                _ => false,
            }
        },
        _ => false,
    };
    let parsed = match Command::from_json(crate::json::deep_copy(val)) {
        Ok(c) => c,
        Err(_) => {
            return Plan::Ignore;
        },
    };
    match parsed.cmd {
        Commands::Event => {
            let entries = match &parsed.data {
                JsonValue::Object(entries) => entries,
                _ => {
                    return Plan::Ignore;
                },
            };
            match crate::json::obj_get(entries, "destination") {
                Some(JsonValue::Str(dest)) => Plan::Event {
                    destination: dest.clone(),
                    no_ack,
                },
                _ => Plan::Ignore,
            }
        },
        _ => Plan::Execute { no_ack },
    }
}

/// The reply an event produces for its sender: an acknowledgement when it
/// was delivered, an error naming the unreachable user when it was not;
/// nothing under `no_ack`, and nothing when the event names no
/// `event_id` or `origin`.
pub fn event_outcome(val: &JsonValue, destination: &str, delivered: bool, no_ack: bool) -> (r:
    Option<JsonValue>)
    ensures
        no_ack ==> r is None,
        !no_ack ==> match (sfield(val@, "event_id"@), sfield(val@, "origin"@)) {
            (Some(ev), Some(og)) => r matches Some(v) && v@ == JsonData::Obj(
                if delivered {
                    seq![
                        ("cmd"@, JsonData::Str("event"@)),
                        ("mode"@, JsonData::Str("ack"@)),
                        ("event_id"@, ev),
                        ("origin"@, og),
                    ]
                } else {
                    seq![
                        ("cmd"@, JsonData::Str("event"@)),
                        ("mode"@, JsonData::Str("error"@)),
                        (
                            "msg"@,
                            JsonData::Str("Unable to connect to user "@ + destination@),
                        ),
                        ("event_id"@, ev),
                        ("origin"@, og),
                    ]
                },
            ),
            _ => r is None,
        },
{
    if no_ack {
        return None;
    }
    let entries = match val {
        JsonValue::Object(entries) => entries,
        _ => {
            return None;
        },
    };
    let ev = match crate::json::obj_get(entries, "event_id") {
        Some(v) => v.clone(),
        None => {
            return None;
        },
    };
    let og = match crate::json::obj_get(entries, "origin") {
        Some(v) => v.clone(),
        None => {
            return None;
        },
    };
    let mut reply: Vec<Entry> = Vec::new();
    proof {
        assert(pairs_view(reply@) =~= Seq::<(Seq<char>, JsonData)>::empty());
    }
    push_field(&mut reply, "cmd", JsonValue::Str("event".to_owned()));
    if delivered {
        push_field(&mut reply, "mode", JsonValue::Str("ack".to_owned()));
    } else {
        push_field(&mut reply, "mode", JsonValue::Str("error".to_owned()));
        let msg: String = "Unable to connect to user ".to_owned().concat(destination);
        push_field(&mut reply, "msg", JsonValue::Str(msg));
    }
    push_field(&mut reply, "event_id", ev);
    push_field(&mut reply, "origin", og);
    proof {
        if delivered {
            assert(pairs_view(reply@) =~= seq![
                ("cmd"@, JsonData::Str("event"@)),
                ("mode"@, JsonData::Str("ack"@)),
                ("event_id"@, sfield(val@, "event_id"@)->0),
                ("origin"@, sfield(val@, "origin"@)->0),
            ]);
        } else {
            assert(pairs_view(reply@) =~= seq![
                ("cmd"@, JsonData::Str("event"@)),
                ("mode"@, JsonData::Str("error"@)),
                ("msg"@, JsonData::Str("Unable to connect to user "@ + destination@)),
                ("event_id"@, sfield(val@, "event_id"@)->0),
                ("origin"@, sfield(val@, "origin"@)->0),
            ]);
        }
    }
    Some(JsonValue::Object(reply))
}

/// The error reply the hub sends when executing a command fails: the
/// session's error message, behind a fixed prefix.
pub fn process_error_reply(e: &str) -> (r: JsonValue)
    ensures
        r@ == JsonData::Obj(
            seq![
                ("cmd"@, JsonData::Str("UNKNOWN"@)),
                ("mode"@, JsonData::Str("error"@)),
                ("msg"@, JsonData::Str("Error from server process: "@ + e@)),
            ],
        ),
{
    let mut reply: Vec<Entry> = Vec::new();
    proof {
        assert(pairs_view(reply@) =~= Seq::<(Seq<char>, JsonData)>::empty());
    }
    push_field(&mut reply, "cmd", JsonValue::Str("UNKNOWN".to_owned()));
    push_field(&mut reply, "mode", JsonValue::Str("error".to_owned()));
    let msg: String = "Error from server process: ".to_owned().concat(e);
    push_field(&mut reply, "msg", JsonValue::Str(msg));
    proof {
        assert(pairs_view(reply@) =~= seq![
            ("cmd"@, JsonData::Str("UNKNOWN"@)),
            ("mode"@, JsonData::Str("error"@)),
            ("msg"@, JsonData::Str("Error from server process: "@ + e@)),
        ]);
    }
    JsonValue::Object(reply)
}

/// The reply that goes out for one executed command: nothing under
/// `no_ack`; otherwise the session's reply as it stands, with a failure
/// wrapped into the hub's error reply.
pub fn execute_outcome(result: Result<Option<JsonValue>, String>, no_ack: bool) -> (r: Option<
    JsonValue,
>)
    ensures
        no_ack ==> r is None,
        !no_ack ==> match result {
            Ok(o) => r == o,
            Err(e) => r matches Some(v) && v@ == JsonData::Obj(
                seq![
                    ("cmd"@, JsonData::Str("UNKNOWN"@)),
                    ("mode"@, JsonData::Str("error"@)),
                    ("msg"@, JsonData::Str("Error from server process: "@ + e@)),
                ],
            ),
        },
{
    match result {
        Ok(o) => {
            if no_ack {
                None
            } else {
                o
            }
        },
        Err(e) => {
            if no_ack {
                None
            } else {
                Some(process_error_reply(e.as_str()))
            }
        },
    }
}

/// The non-suppressed replies of a batch, in order.
pub open spec fn compacted(s: Seq<Option<JsonValue>>) -> Seq<JsonData>
    decreases s.len(),
{
    if s.len() == 0 {
        Seq::empty()
    } else {
        match s.last() {
            Some(v) => compacted(s.drop_last()).push(v@),
            None => compacted(s.drop_last()),
        }
    }
}

/// Assemble a batch's replies into one outbound array; an all-suppressed
/// batch emits nothing.
pub fn assemble_batch(results: Vec<Option<JsonValue>>) -> (r: Option<JsonValue>)
    ensures
        match r {
            Some(v) => compacted(results@).len() > 0 && v@ == JsonData::Arr(compacted(results@)),
            None => compacted(results@).len() == 0,
        },
{
    let mut out: Vec<JsonValue> = Vec::new();
    let mut i: usize = 0;
    let ghost rs = results@;
    let mut results = results;
    proof {
        assert(compacted(rs.subrange(0, 0)) =~= Seq::<JsonData>::empty());
    }
    let n = results.len();
    let mut taken: usize = 0;
    while taken < n
        invariant
            taken <= n,
            n == rs.len(),
            results@ == rs.skip(taken as int),
            crate::json::seq_view(out@) == compacted(rs.subrange(0, taken as int)),
        decreases n - taken,
    {
        proof {
            assert(rs.subrange(0, taken + 1).drop_last() =~= rs.subrange(0, taken as int));
            assert(rs.subrange(0, taken + 1).last() == rs[taken as int]);
        }
        let ghost out_prev = out@;
        let head = results.remove(0);
        proof {
            assert(results@ =~= rs.skip(taken + 1));
        }
        match head {
            Some(v) => {
                out.push(v);
                proof {
                    crate::json::lemma_seq_view_push(out_prev, out@.last());
                    assert(out@ == out_prev.push(out@.last()));
                }
            },
            None => {},
        }
        taken += 1;
    }
    proof {
        assert(rs.subrange(0, rs.len() as int) =~= rs);
    }
    if out.len() > 0 {
        proof {
            crate::json::lemma_seq_view_len(out@);
        }
        Some(JsonValue::Array(out))
    } else {
        proof {
            crate::json::lemma_seq_view_len(out@);
        }
        None
    }
}

} // verus!
