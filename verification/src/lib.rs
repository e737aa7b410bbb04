//! A small in-memory JSON key-value database ("ACI server") with a
//! command protocol, per-key permissions, session authentication and
//! user-to-user event routing.  The transport layer (sockets, files)
//! lives outside this library; the logic here is verified.

pub mod json;
pub mod permissions;
pub mod shared_map;
pub mod strings;
pub mod json_text;
pub mod commands;
pub mod server;
pub mod session;
pub mod hub;
pub mod parsing;
pub mod laws;
pub mod database;
pub mod interface;
