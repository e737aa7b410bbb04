//! The client command model: a tag naming one of the protocol's commands,
//! together with the command's JSON payload, parsed and validated from a
//! JSON object.

use vstd::prelude::*;

use crate::json::{obj_get, obj_lookup, pairs_view, str_eq, JsonData, JsonValue};
use crate::json_text::{json_parse, parse_json_text};

verus! {

/// Commands available to a client.
#[derive(Debug, Clone, Copy, Eq, PartialEq, Structural)]
pub enum Commands {
    WriteToDisk,
    ReadFromDisk,
    ListKeys,
    GetValue,
    SetValue,
    GetIndex,
    SetIndex,
    AppendIndex,
    GetLengthIndex,
    GetRecentIndex,
    CreateDatabase,
    AcronymAuth,
    GoogleAuth,
    Event,
}

/// Errors from parsing a command.
#[derive(Debug, Clone, PartialEq)]
pub enum CommandParsingError {
    BadJSON(String),
    BadPacket(String),
    ArgumentsNotPresent(String),
}

/// Holds a command's tag and its full payload.
#[derive(Debug)]
pub struct Command {
    pub cmd: Commands,
    pub data: JsonValue,
}

/// The command named by a tag string, if any.
pub open spec fn tag_of(s: Seq<char>) -> Option<Commands> {
    if s == "write_to_disk"@ {
        Some(Commands::WriteToDisk)
    } else if s == "read_from_disk"@ {
        Some(Commands::ReadFromDisk)
    } else if s == "list_keys"@ {
        Some(Commands::ListKeys)
    } else if s == "get_value"@ {
        Some(Commands::GetValue)
    } else if s == "set_value"@ {
        Some(Commands::SetValue)
    } else if s == "get_index"@ {
        Some(Commands::GetIndex)
    } else if s == "set_index"@ {
        Some(Commands::SetIndex)
    } else if s == "append_list"@ {
        Some(Commands::AppendIndex)
    } else if s == "get_list_length"@ {
        Some(Commands::GetLengthIndex)
    } else if s == "get_recent"@ {
        Some(Commands::GetRecentIndex)
    } else if s == "create_database"@ {
        Some(Commands::CreateDatabase)
    } else if s == "a_auth"@ {
        Some(Commands::AcronymAuth)
    } else if s == "g_auth"@ {
        Some(Commands::GoogleAuth)
    } else if s == "event"@ {
        Some(Commands::Event)
    } else {
        None
    }
}

/// Whether a command object holds every field its tag requires.
pub open spec fn spec_has_required(entries: Seq<(Seq<char>, JsonData)>, c: Commands) -> bool {
    match c {
        Commands::WriteToDisk => obj_lookup(entries, "db_key"@) is Some,
        Commands::ReadFromDisk => obj_lookup(entries, "db_key"@) is Some,
        Commands::ListKeys => obj_lookup(entries, "db_key"@) is Some,
        Commands::GetValue => obj_lookup(entries, "db_key"@) is Some && obj_lookup(
            entries,
            "key"@,
        ) is Some,
        Commands::SetValue => obj_lookup(entries, "db_key"@) is Some && obj_lookup(entries, "key"@)
            is Some && obj_lookup(entries, "val"@) is Some,
        Commands::GetIndex => obj_lookup(entries, "db_key"@) is Some && obj_lookup(entries, "key"@)
            is Some && obj_lookup(entries, "index"@) is Some,
        Commands::SetIndex => obj_lookup(entries, "db_key"@) is Some && obj_lookup(entries, "key"@)
            is Some && obj_lookup(entries, "val"@) is Some && obj_lookup(entries, "index"@)
            is Some,
        Commands::AppendIndex => obj_lookup(entries, "db_key"@) is Some && obj_lookup(
            entries,
            "key"@,
        ) is Some && obj_lookup(entries, "val"@) is Some,
        Commands::GetLengthIndex => obj_lookup(entries, "db_key"@) is Some && obj_lookup(
            entries,
            "key"@,
        ) is Some,
        Commands::GetRecentIndex => obj_lookup(entries, "db_key"@) is Some && obj_lookup(
            entries,
            "key"@,
        ) is Some && obj_lookup(entries, "num"@) is Some,
        Commands::CreateDatabase => obj_lookup(entries, "db_key"@) is Some,
        Commands::AcronymAuth => obj_lookup(entries, "id"@) is Some && obj_lookup(
            entries,
            "token"@,
        ) is Some,
        Commands::GoogleAuth => obj_lookup(entries, "id_token"@) is Some,
        Commands::Event => obj_lookup(entries, "event_id"@) is Some && obj_lookup(
            entries,
            "destination"@,
        ) is Some && obj_lookup(entries, "origin"@) is Some && obj_lookup(entries, "data"@)
            is Some,
    }
}

/// How a JSON value parses as a command.
pub enum ParseKind {
    Parsed(Commands),
    Packet,
    Arguments,
}

/// Parse a JSON value as a command: it must be an object whose `cmd`
/// field is a known tag string, carrying the tag's required fields.
pub open spec fn spec_from_json(v: JsonData) -> ParseKind {
    match v {
        JsonData::Obj(entries) => match obj_lookup(entries, "cmd"@) {
            Some(JsonData::Str(tag)) => match tag_of(tag) {
                Some(c) => if spec_has_required(entries, c) {
                    ParseKind::Parsed(c)
                } else {
                    ParseKind::Arguments
                },
                None => ParseKind::Packet,
            },
            Some(_) => ParseKind::Packet,
            None => ParseKind::Packet,
        },
        _ => ParseKind::Packet,
    }
}

/// Verify that a command's payload holds every field its tag requires.
pub fn verify_command(command: &Command) -> (r: Result<(), CommandParsingError>)
    ensures
        match command.data@ {
            JsonData::Obj(entries) => {
                &&& r is Ok <==> spec_has_required(entries, command.cmd)
                &&& r matches Err(e) ==> e is ArgumentsNotPresent
            },
            _ => r is Ok,
        },
{
    let entries = match &command.data {
        JsonValue::Object(entries) => entries,
        _ => {
            return Ok(());
        },
    };
    let present = match command.cmd {
        Commands::WriteToDisk => obj_get(entries, "db_key").is_some(),
        Commands::ReadFromDisk => obj_get(entries, "db_key").is_some(),
        Commands::ListKeys => obj_get(entries, "db_key").is_some(),
        Commands::GetValue => obj_get(entries, "db_key").is_some() && obj_get(
            entries,
            "key",
        ).is_some(),
        Commands::SetValue => obj_get(entries, "db_key").is_some() && obj_get(entries, "key")
            .is_some() && obj_get(entries, "val").is_some(),
        Commands::GetIndex => obj_get(entries, "db_key").is_some() && obj_get(entries, "key")
            .is_some() && obj_get(entries, "index").is_some(),
        Commands::SetIndex => obj_get(entries, "db_key").is_some() && obj_get(entries, "key")
            .is_some() && obj_get(entries, "val").is_some() && obj_get(entries, "index").is_some(),
        Commands::AppendIndex => obj_get(entries, "db_key").is_some() && obj_get(entries, "key")
            .is_some() && obj_get(entries, "val").is_some(),
        Commands::GetLengthIndex => obj_get(entries, "db_key").is_some() && obj_get(
            entries,
            "key",
        ).is_some(),
        Commands::GetRecentIndex => obj_get(entries, "db_key").is_some() && obj_get(entries, "key")
            .is_some() && obj_get(entries, "num").is_some(),
        Commands::CreateDatabase => obj_get(entries, "db_key").is_some(),
        Commands::AcronymAuth => obj_get(entries, "id").is_some() && obj_get(
            entries,
            "token",
        ).is_some(),
        Commands::GoogleAuth => obj_get(entries, "id_token").is_some(),
        Commands::Event => obj_get(entries, "event_id").is_some() && obj_get(entries, "destination")
            .is_some() && obj_get(entries, "origin").is_some() && obj_get(entries, "data")
            .is_some(),
    };
    if present {
        Ok(())
    } else {
        Err(CommandParsingError::ArgumentsNotPresent("a required field is missing".to_owned()))
    }
}

impl Command {
    /// Generate a command from a string of JSON text.
    pub fn from_string(data: &str) -> (r: Result<Command, CommandParsingError>)
        ensures
            match json_parse(data@) {
                Some(jd) => match spec_from_json(jd) {
                    ParseKind::Parsed(c) => r matches Ok(cmd) && cmd.cmd == c && cmd.data@ == jd,
                    ParseKind::Packet => r matches Err(e) && e is BadPacket,
                    ParseKind::Arguments => r matches Err(e) && e is ArgumentsNotPresent,
                },
                None => r matches Err(e) && e is BadJSON,
            },
    {
        match parse_json_text(data) {
            Some(value) => Command::from_json(value),
            None => Err(CommandParsingError::BadJSON("bad json packet".to_owned())),
        }
    }

    /// Generate a command from a JSON value.
    pub fn from_json(value: JsonValue) -> (r: Result<Command, CommandParsingError>)
        ensures
            match spec_from_json(value@) {
                ParseKind::Parsed(c) => r matches Ok(cmd) && cmd.cmd == c && cmd.data@ == value@,
                ParseKind::Packet => r matches Err(e) && e is BadPacket,
                ParseKind::Arguments => r matches Err(e) && e is ArgumentsNotPresent,
            },
    {
        let tag = {
            let entries = match &value {
                JsonValue::Object(entries) => entries,
                _ => {
                    return Err(CommandParsingError::BadPacket(
                        "parsed data is not an object".to_owned(),
                    ));
                },
            };
            match obj_get(entries, "cmd") {
                Some(JsonValue::Str(tag)) => tag.clone(),
                Some(_) => {
                    return Err(CommandParsingError::BadPacket("cmd field is not a string".to_owned()));
                },
                None => {
                    return Err(CommandParsingError::BadPacket("no cmd field given".to_owned()));
                },
            }
        };
        let cmd_type = if str_eq(tag.as_str(), "write_to_disk") {
            Commands::WriteToDisk
        } else if str_eq(tag.as_str(), "read_from_disk") {
            Commands::ReadFromDisk
        } else if str_eq(tag.as_str(), "list_keys") {
            Commands::ListKeys
        } else if str_eq(tag.as_str(), "get_value") {
            Commands::GetValue
        } else if str_eq(tag.as_str(), "set_value") {
            Commands::SetValue
        } else if str_eq(tag.as_str(), "get_index") {
            Commands::GetIndex
        } else if str_eq(tag.as_str(), "set_index") {
            Commands::SetIndex
        } else if str_eq(tag.as_str(), "append_list") {
            Commands::AppendIndex
        } else if str_eq(tag.as_str(), "get_list_length") {
            Commands::GetLengthIndex
        } else if str_eq(tag.as_str(), "get_recent") {
            Commands::GetRecentIndex
        } else if str_eq(tag.as_str(), "create_database") {
            Commands::CreateDatabase
        } else if str_eq(tag.as_str(), "a_auth") {
            Commands::AcronymAuth
        } else if str_eq(tag.as_str(), "g_auth") {
            Commands::GoogleAuth
        } else if str_eq(tag.as_str(), "event") {
            Commands::Event
        } else {
            return Err(CommandParsingError::BadPacket("cmd field of an unknown tag".to_owned()));
        };
        let command = Command { cmd: cmd_type, data: value };
        match verify_command(&command) {
            Ok(_) => Ok(command),
            Err(e) => Err(e),
        }
    }
}

} // verus!
