//! The server registry: the named map of databases, the config database
//! read at startup, and the local-credential check against it.  Loading
//! and persisting databases against files happens outside the library;
//! the registry only installs and hands out database values.

use vstd::prelude::*;

use chashmap::CHashMap;

use crate::interface::{spec_read_allowed, DatabaseInterface};
use crate::json::{obj_lookup, str_eq, JsonData, JsonValue, Number};
use crate::permissions::UserAuthentication;
use crate::shared_map::{db_map_insert, db_map_new, db_map_remove, db_map_view};
use crate::strings::strictly_sorted;

verus! {

/// How a local credential pair fares against the `a_users` table.
pub enum AuthOutcome {
    Granted,
    NoUser,
    BadToken,
    Malformed,
}

/// Whether `t` occurs among the string values of `items`.
pub open spec fn contains_str_value(items: Seq<JsonData>, t: Seq<char>) -> bool {
    exists|i: int| 0 <= i < items.len() && items[i] == JsonData::Str(t)
}

/// Evaluate a credential pair against the `a_users` value: the user entry
/// must exist and its `tokens` list must hold the token.
pub open spec fn spec_local_auth(users: JsonData, id: Seq<char>, token: Seq<char>) -> AuthOutcome {
    match users {
        JsonData::Obj(entries) => match obj_lookup(entries, id) {
            None => AuthOutcome::NoUser,
            Some(JsonData::Obj(user_entries)) => match obj_lookup(user_entries, "tokens"@) {
                Some(JsonData::Arr(tokens)) => if contains_str_value(tokens, token) {
                    AuthOutcome::Granted
                } else {
                    AuthOutcome::BadToken
                },
                _ => AuthOutcome::Malformed,
            },
            Some(_) => AuthOutcome::Malformed,
        },
        _ => AuthOutcome::Malformed,
    }
}

/// The server: the shared databases, the config database and the admin
/// principal the server itself uses to read the config.
#[derive(Debug)]
pub struct Server {
    /// Database interfaces, by database key.
    pub databases: CHashMap<String, DatabaseInterface>,
    config_database: DatabaseInterface,
    config_admin: UserAuthentication,
}

impl Server {
    /// The registry's contents.
    pub closed spec fn registry(&self) -> Map<Seq<char>, DatabaseInterface> {
        db_map_view(self.databases)
    }

    /// The config database.
    pub closed spec fn config(&self) -> DatabaseInterface {
        self.config_database
    }

    /// The principal the server reads its own config with.
    pub closed spec fn admin(&self) -> UserAuthentication {
        self.config_admin
    }

    /// Create a new server around a loaded config database; the registry
    /// starts empty.
    pub fn new(config: DatabaseInterface) -> (r: Self)
        ensures
            r.registry() == Map::<Seq<char>, DatabaseInterface>::empty(),
            r.config() == config,
            r.admin().is_authed,
    {
        let mut admin = UserAuthentication::new();
        admin.is_authed = true;
        Self { databases: db_map_new(), config_database: config, config_admin: admin }
    }

    /// Install a database under a key, replacing any database held there.
    pub fn install_database(&mut self, name: String, db: DatabaseInterface)
        ensures
            final(self).registry() == old(self).registry().insert(name@, db),
            final(self).config() == old(self).config(),
            final(self).admin() == old(self).admin(),
    {
        db_map_insert(&mut self.databases, name, db);
    }

    /// Take a database out of the registry, to operate on it; the caller
    /// puts it back with `install_database`.
    pub fn take_database(&mut self, name: &str) -> (r: Option<DatabaseInterface>)
        ensures
            final(self).registry() == old(self).registry().remove(name@),
            final(self).config() == old(self).config(),
            final(self).admin() == old(self).admin(),
            r == if old(self).registry().contains_key(name@) {
                Some(old(self).registry()[name@])
            } else {
                None::<DatabaseInterface>
            },
    {
        db_map_remove(&mut self.databases, name)
    }

    /// The ip address of the server, from the config database's `ip` key.
    pub fn config_get_ip(&self) -> (r: Result<String, String>)
        ensures
            match r {
                Ok(ip) => {
                    &&& spec_read_allowed(self.config().perms(), "ip"@, self.admin())
                    &&& self.config().database@.contains_key("ip"@)
                    &&& self.config().database@["ip"@] == JsonData::Str(ip@)
                },
                Err(_) => !(spec_read_allowed(self.config().perms(), "ip"@, self.admin())
                    && self.config().database@.contains_key("ip"@)
                    && self.config().database@["ip"@] is Str),
            },
    {
        match self.config_database.read_from_key("ip", &self.config_admin) {
            Ok(JsonValue::Str(ip)) => Ok(ip),
            Ok(_) => Err("ip address field in the config database is not a string".to_owned()),
            Err(_) => Err("no ip address given in the config database".to_owned()),
        }
    }

    /// The port of the server, from the config database's `port` key: an
    /// unsigned integer.
    pub fn config_get_port(&self) -> (r: Result<usize, String>)
        ensures
            match r {
                Ok(port) => {
                    &&& spec_read_allowed(self.config().perms(), "port"@, self.admin())
                    &&& self.config().database@.contains_key("port"@)
                    &&& self.config().database@["port"@] == JsonData::Num(
                        Number::Unsigned(port as u64),
                    )
                },
                Err(_) => !(spec_read_allowed(self.config().perms(), "port"@, self.admin())
                    && self.config().database@.contains_key("port"@)
                    && (self.config().database@["port"@] matches JsonData::Num(
                        Number::Unsigned(u),
                    ) && u <= usize::MAX)),
            },
    {
        match self.config_database.read_from_key("port", &self.config_admin) {
            Ok(JsonValue::Num(Number::Unsigned(u))) => {
                if u <= usize::MAX as u64 {
                    Ok(u as usize)
                } else {
                    Err("port field in the config database is out of range".to_owned())
                }
            },
            Ok(_) => Err("port field in the config database is not an unsigned integer".to_owned()),
            Err(_) => Err("no port given in the config database".to_owned()),
        }
    }

    /// The sorted keys of the named database.
    pub fn get_keys(&mut self, name: &str) -> (r: Result<Vec<String>, String>)
        ensures
            final(self).registry() == old(self).registry(),
            final(self).config() == old(self).config(),
            final(self).admin() == old(self).admin(),
            match r {
                Ok(keys) => {
                    &&& old(self).registry().contains_key(name@)
                    &&& keys@.len() == old(self).registry()[name@].database@.dom().len()
                    &&& strictly_sorted(keys@.map_values(|s: String| s@))
                    &&& forall|i: int| #![trigger keys@[i]@] 0 <= i < keys@.len() ==> old(
                        self,
                    ).registry()[name@].database@.dom().contains(keys@[i]@)
                },
                Err(_) => !old(self).registry().contains_key(name@),
            },
    {
        let ghost reg0 = self.registry();
        match self.take_database(name) {
            Some(db) => {
                let keys = db.database.get_all_keys();
                self.install_database(name.to_owned(), db);
                proof {
                    assert(self.registry() =~= reg0);
                }
                keys
            },
            None => {
                proof {
                    assert(self.registry() =~= reg0);
                }
                Err("no database with the key initialized".to_owned())
            },
        }
    }

    /// Check a local credential pair against the `a_users` table of the
    /// config database.  A miss on the user or the token is a graceful
    /// failure with a message; a malformed table is a hard error.
    #[verifier::loop_isolation(false)]
    pub fn check_a_auth(&self, id: &str, token: &str) -> (r: Result<(bool, String), String>)
        ensures
            match r {
                Ok(p) => {
                    &&& spec_read_allowed(self.config().perms(), "a_users"@, self.admin())
                    &&& self.config().database@.contains_key("a_users"@)
                    &&& match spec_local_auth(self.config().database@["a_users"@], id@, token@) {
                        AuthOutcome::Granted => p.0 && p.1@ == "success"@,
                        AuthOutcome::NoUser => !p.0 && p.1@ == "Failed, a_user not found"@,
                        AuthOutcome::BadToken => !p.0 && p.1@ == "Failed, token incorrect"@,
                        AuthOutcome::Malformed => false,
                    }
                },
                Err(_) => !(spec_read_allowed(self.config().perms(), "a_users"@, self.admin())
                    && self.config().database@.contains_key("a_users"@)) || spec_local_auth(
                    self.config().database@["a_users"@],
                    id@,
                    token@,
                ) is Malformed,
            },
    {
        let users = match self.config_database.read_from_key("a_users", &self.config_admin) {
            Ok(v) => v,
            Err(e) => {
                return Err(e);
            },
        };
        let entries = match &users {
            JsonValue::Object(entries) => entries,
            _ => {
                return Err("general user data is not an object".to_owned());
            },
        };
        let user_entries = match crate::json::obj_get(entries, id) {
            Some(JsonValue::Object(user_entries)) => user_entries,
            Some(_) => {
                return Err("specific user data is not an object".to_owned());
            },
            None => {
                return Ok((false, "Failed, a_user not found".to_owned()));
            },
        };
        let tokens = match crate::json::obj_get(user_entries, "tokens") {
            Some(JsonValue::Array(tokens)) => tokens,
            Some(_) => {
                return Err("tokens for specific user data is not an array".to_owned());
            },
            None => {
                return Err("specific user data does not contain a tokens key".to_owned());
            },
        };
        let ghost tv = crate::json::seq_view(tokens@);
        proof {
            crate::json::lemma_seq_view_len(tokens@);
        }
        let mut i: usize = 0;
        while i < tokens.len()
            invariant
                i <= tokens@.len(),
                tv == crate::json::seq_view(tokens@),
                tv.len() == tokens@.len(),
                forall|j: int| 0 <= j < i ==> tv[j] != JsonData::Str(token@),
            decreases tokens@.len() - i,
        {
            proof {
                crate::json::lemma_seq_view_index(tokens@, i as int);
            }
            let hit = match &tokens[i] {
                JsonValue::Str(s) => str_eq(s.as_str(), token),
                _ => false,
            };
            if hit {
                proof {
                    assert(tv[i as int] == JsonData::Str(token@));
                    assert(contains_str_value(tv, token@));
                }
                return Ok((true, "success".to_owned()));
            }
            i += 1;
        }
        Ok((false, "Failed, token incorrect".to_owned()))
    }
}

} // verus!
