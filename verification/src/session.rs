//! The per-connection session: the authentication state of one client and
//! the dispatch of a parsed command against the server.  Every command but
//! the two authentication commands and `event` requires an authenticated
//! principal; replies are JSON objects that echo the command's
//! `unique_id` when one was given.

use vstd::prelude::*;

use crate::commands::{Command, Commands};
use crate::database::Database;
use crate::database::{array_at, has_array, last_n_of, padded_update};
use crate::interface::{
    is_default_perm, spec_read_allowed, spec_write_allowed, DatabaseInterface,
};
use crate::json::{
    lemma_pairs_view_push, obj_get, obj_lookup, pairs_view, Entry, JsonData, JsonValue, Number,
};
use crate::permissions::{Permission, UserAuthentication};
use crate::server::{spec_local_auth, AuthOutcome, Server};
use crate::shared_map::perm_map_new;
use crate::strings::strictly_sorted;

verus! {

/// The entries of a command's payload object; empty for other payloads.
pub open spec fn cmd_entries(d: JsonData) -> Seq<(Seq<char>, JsonData)> {
    match d {
        JsonData::Obj(e) => e,
        _ => Seq::empty(),
    }
}

/// A field of the command's payload.
pub open spec fn sfield(d: JsonData, k: Seq<char>) -> Option<JsonData> {
    obj_lookup(cmd_entries(d), k)
}

/// A string field of the command's payload.
pub open spec fn s_str(d: JsonData, k: Seq<char>) -> Option<Seq<char>> {
    match sfield(d, k) {
        Some(JsonData::Str(s)) => Some(s),
        _ => None,
    }
}

/// An unsigned number field of the command's payload.
pub open spec fn s_num(d: JsonData, k: Seq<char>) -> Option<u64> {
    match sfield(d, k) {
        Some(JsonData::Num(Number::Unsigned(u))) => Some(u),
        _ => None,
    }
}

/// The three fields every reply opens with.
pub open spec fn ok_reply(tag: Seq<char>, msg: Seq<char>) -> Seq<(Seq<char>, JsonData)> {
    seq![
        ("cmd"@, JsonData::Str(tag)),
        ("mode"@, JsonData::Str("ok"@)),
        ("msg"@, JsonData::Str(msg)),
    ]
}

/// A reply with the command's `unique_id` appended, when one was given.
pub open spec fn with_uid(d: JsonData, base: Seq<(Seq<char>, JsonData)>) -> Seq<(
    Seq<char>,
    JsonData,
)> {
    match sfield(d, "unique_id"@) {
        Some(u) => base.push(("unique_id"@, u)),
        None => base,
    }
}

/// How a key's permission record may change across a first write: an
/// existing record stays; a missing one is filled with the default.
pub open spec fn perms_after_write(
    pre: Map<Seq<char>, Permission>,
    post: Map<Seq<char>, Permission>,
    key: Seq<char>,
) -> bool {
    if pre.contains_key(key) {
        post == pre
    } else {
        post == pre.insert(key, post[key]) && is_default_perm(post[key])
    }
}

/// Success of `get_value`: the named database holds the key, the user may
/// read it, nothing changes, and the reply carries the value.
pub open spec fn get_value_ok(
    pre: Server,
    post: Server,
    user: UserAuthentication,
    d: JsonData,
    v: JsonData,
) -> bool {
    &&& s_str(d, "db_key"@) matches Some(dbk)
    &&& s_str(d, "key"@) matches Some(key)
    &&& pre.registry().contains_key(dbk)
    &&& spec_read_allowed(pre.registry()[dbk].perms(), key, user)
    &&& pre.registry()[dbk].database@.contains_key(key)
    &&& post.registry() == pre.registry()
    &&& v == JsonData::Obj(
        with_uid(
            d,
            ok_reply("get_value"@, ""@) + seq![
                ("key"@, JsonData::Str(key)),
                ("db_key"@, JsonData::Str(dbk)),
                ("val"@, pre.registry()[dbk].database@[key]),
            ],
        ),
    )
}

/// What `get_value` needs to succeed.
pub open spec fn get_value_can(pre: Server, user: UserAuthentication, d: JsonData) -> bool {
    &&& s_str(d, "db_key"@) matches Some(dbk)
    &&& s_str(d, "key"@) matches Some(key)
    &&& pre.registry().contains_key(dbk)
    &&& spec_read_allowed(pre.registry()[dbk].perms(), key, user)
    &&& pre.registry()[dbk].database@.contains_key(key)
}

/// Success of `set_value`: the value is written under the key, with the
/// default permission record registered on a first write.
pub open spec fn set_value_ok(
    pre: Server,
    post: Server,
    user: UserAuthentication,
    d: JsonData,
    v: JsonData,
) -> bool {
    &&& s_str(d, "db_key"@) matches Some(dbk)
    &&& s_str(d, "key"@) matches Some(key)
    &&& sfield(d, "val"@) matches Some(data)
    &&& pre.registry().contains_key(dbk)
    &&& spec_write_allowed(pre.registry()[dbk].perms(), key, user, true)
    &&& post.registry().contains_key(dbk)
    &&& post.registry() == pre.registry().insert(dbk, post.registry()[dbk])
    &&& post.registry()[dbk].database@ == pre.registry()[dbk].database@.insert(key, data)
    &&& perms_after_write(pre.registry()[dbk].perms(), post.registry()[dbk].perms(), key)
    &&& v == JsonData::Obj(
        with_uid(
            d,
            ok_reply("set_value"@, ""@) + seq![
                ("key"@, JsonData::Str(key)),
                ("db_key"@, JsonData::Str(dbk)),
            ],
        ),
    )
}

/// What `set_value` needs to succeed.
pub open spec fn set_value_can(pre: Server, user: UserAuthentication, d: JsonData) -> bool {
    &&& s_str(d, "db_key"@) matches Some(dbk)
    &&& s_str(d, "key"@) is Some
    &&& sfield(d, "val"@) is Some
    &&& pre.registry().contains_key(dbk)
    &&& spec_write_allowed(
        pre.registry()[dbk].perms(),
        s_str(d, "key"@)->0,
        user,
        true,
    )
}

/// Success of `get_index`: the key holds an array and the index is within
/// it; the reply carries the element.
pub open spec fn get_index_ok(
    pre: Server,
    post: Server,
    user: UserAuthentication,
    d: JsonData,
    v: JsonData,
) -> bool {
    &&& s_str(d, "db_key"@) matches Some(dbk)
    &&& s_str(d, "key"@) matches Some(key)
    &&& s_num(d, "index"@) matches Some(index)
    &&& pre.registry().contains_key(dbk)
    &&& spec_read_allowed(pre.registry()[dbk].perms(), key, user)
    &&& has_array(pre.registry()[dbk].database@, key)
    &&& index < array_at(pre.registry()[dbk].database@, key).len()
    &&& post.registry() == pre.registry()
    &&& v == JsonData::Obj(
        with_uid(
            d,
            ok_reply("get_index"@, ""@) + seq![
                ("key"@, JsonData::Str(key)),
                ("db_key"@, JsonData::Str(dbk)),
                ("index"@, JsonData::Num(Number::Unsigned(index))),
                ("val"@, array_at(pre.registry()[dbk].database@, key)[index as int]),
            ],
        ),
    )
}

/// What `get_index` needs to succeed.
pub open spec fn get_index_can(pre: Server, user: UserAuthentication, d: JsonData) -> bool {
    &&& s_str(d, "db_key"@) matches Some(dbk)
    &&& s_str(d, "key"@) matches Some(key)
    &&& s_num(d, "index"@) matches Some(index)
    &&& index <= usize::MAX
    &&& pre.registry().contains_key(dbk)
    &&& spec_read_allowed(pre.registry()[dbk].perms(), key, user)
    &&& has_array(pre.registry()[dbk].database@, key)
    &&& index < array_at(pre.registry()[dbk].database@, key).len()
}

/// Success of `set_index`: the element at the index is set, with null
/// padding up to the index when the array was shorter.
pub open spec fn set_index_ok(
    pre: Server,
    post: Server,
    user: UserAuthentication,
    d: JsonData,
    v: JsonData,
) -> bool {
    &&& s_str(d, "db_key"@) matches Some(dbk)
    &&& s_str(d, "key"@) matches Some(key)
    &&& s_num(d, "index"@) matches Some(index)
    &&& sfield(d, "val"@) matches Some(data)
    &&& pre.registry().contains_key(dbk)
    &&& spec_write_allowed(pre.registry()[dbk].perms(), key, user, false)
    &&& has_array(pre.registry()[dbk].database@, key)
    &&& post.registry().contains_key(dbk)
    &&& post.registry() == pre.registry().insert(dbk, post.registry()[dbk])
    &&& post.registry()[dbk].database@ == pre.registry()[dbk].database@.insert(
        key,
        JsonData::Arr(
            padded_update(array_at(pre.registry()[dbk].database@, key), index as int, data),
        ),
    )
    &&& post.registry()[dbk].perms() == pre.registry()[dbk].perms()
    &&& v == JsonData::Obj(
        with_uid(
            d,
            ok_reply("set_index"@, ""@) + seq![
                ("key"@, JsonData::Str(key)),
                ("db_key"@, JsonData::Str(dbk)),
                ("index"@, JsonData::Num(Number::Unsigned(index))),
            ],
        ),
    )
}

/// What `set_index` needs to succeed.
pub open spec fn set_index_can(pre: Server, user: UserAuthentication, d: JsonData) -> bool {
    &&& s_str(d, "db_key"@) matches Some(dbk)
    &&& s_str(d, "key"@) matches Some(key)
    &&& s_num(d, "index"@) matches Some(index)
    &&& index <= usize::MAX
    &&& sfield(d, "val"@) is Some
    &&& pre.registry().contains_key(dbk)
    &&& spec_write_allowed(pre.registry()[dbk].perms(), key, user, false)
    &&& has_array(pre.registry()[dbk].database@, key)
}

/// Success of `append_list`: the value lands at the array's old length,
/// which the reply reports under `next`.
pub open spec fn append_ok(
    pre: Server,
    post: Server,
    user: UserAuthentication,
    d: JsonData,
    v: JsonData,
) -> bool {
    &&& s_str(d, "db_key"@) matches Some(dbk)
    &&& s_str(d, "key"@) matches Some(key)
    &&& sfield(d, "val"@) matches Some(data)
    &&& pre.registry().contains_key(dbk)
    &&& spec_write_allowed(pre.registry()[dbk].perms(), key, user, false)
    &&& has_array(pre.registry()[dbk].database@, key)
    &&& post.registry().contains_key(dbk)
    &&& post.registry() == pre.registry().insert(dbk, post.registry()[dbk])
    &&& post.registry()[dbk].database@ == pre.registry()[dbk].database@.insert(
        key,
        JsonData::Arr(array_at(pre.registry()[dbk].database@, key).push(data)),
    )
    &&& post.registry()[dbk].perms() == pre.registry()[dbk].perms()
    &&& v == JsonData::Obj(
        with_uid(
            d,
            ok_reply("append_list"@, ""@) + seq![
                ("key"@, JsonData::Str(key)),
                ("db_key"@, JsonData::Str(dbk)),
                (
                    "next"@,
                    JsonData::Num(
                        Number::Unsigned(
                            array_at(pre.registry()[dbk].database@, key).len() as u64,
                        ),
                    ),
                ),
            ],
        ),
    )
}

/// What `append_list` needs to succeed.
pub open spec fn append_can(pre: Server, user: UserAuthentication, d: JsonData) -> bool {
    &&& s_str(d, "db_key"@) matches Some(dbk)
    &&& s_str(d, "key"@) matches Some(key)
    &&& sfield(d, "val"@) is Some
    &&& pre.registry().contains_key(dbk)
    &&& spec_write_allowed(pre.registry()[dbk].perms(), key, user, false)
    &&& has_array(pre.registry()[dbk].database@, key)
}

/// Success of `get_list_length`.
pub open spec fn get_length_ok(
    pre: Server,
    post: Server,
    user: UserAuthentication,
    d: JsonData,
    v: JsonData,
) -> bool {
    &&& s_str(d, "db_key"@) matches Some(dbk)
    &&& s_str(d, "key"@) matches Some(key)
    &&& pre.registry().contains_key(dbk)
    &&& spec_read_allowed(pre.registry()[dbk].perms(), key, user)
    &&& has_array(pre.registry()[dbk].database@, key)
    &&& post.registry() == pre.registry()
    &&& v == JsonData::Obj(
        with_uid(
            d,
            ok_reply("get_list_length"@, ""@) + seq![
                ("key"@, JsonData::Str(key)),
                ("db_key"@, JsonData::Str(dbk)),
                (
                    "length"@,
                    JsonData::Num(
                        Number::Unsigned(
                            array_at(pre.registry()[dbk].database@, key).len() as u64,
                        ),
                    ),
                ),
            ],
        ),
    )
}

/// What `get_list_length` needs to succeed.
pub open spec fn get_length_can(pre: Server, user: UserAuthentication, d: JsonData) -> bool {
    &&& s_str(d, "db_key"@) matches Some(dbk)
    &&& s_str(d, "key"@) matches Some(key)
    &&& pre.registry().contains_key(dbk)
    &&& spec_read_allowed(pre.registry()[dbk].perms(), key, user)
    &&& has_array(pre.registry()[dbk].database@, key)
}

/// Success of `get_recent`: the reply carries the last `num` elements of
/// the array, in array order.
pub open spec fn get_recent_ok(
    pre: Server,
    post: Server,
    user: UserAuthentication,
    d: JsonData,
    v: JsonData,
) -> bool {
    &&& s_str(d, "db_key"@) matches Some(dbk)
    &&& s_str(d, "key"@) matches Some(key)
    &&& s_num(d, "num"@) matches Some(num)
    &&& pre.registry().contains_key(dbk)
    &&& spec_read_allowed(pre.registry()[dbk].perms(), key, user)
    &&& has_array(pre.registry()[dbk].database@, key)
    &&& post.registry() == pre.registry()
    &&& v == JsonData::Obj(
        with_uid(
            d,
            ok_reply("get_recent"@, ""@) + seq![
                ("key"@, JsonData::Str(key)),
                ("db_key"@, JsonData::Str(dbk)),
                (
                    "val"@,
                    JsonData::Arr(
                        last_n_of(array_at(pre.registry()[dbk].database@, key), num as int),
                    ),
                ),
            ],
        ),
    )
}

/// What `get_recent` needs to succeed.
pub open spec fn get_recent_can(pre: Server, user: UserAuthentication, d: JsonData) -> bool {
    &&& s_str(d, "db_key"@) matches Some(dbk)
    &&& s_str(d, "key"@) matches Some(key)
    &&& s_num(d, "num"@) matches Some(num)
    &&& num <= usize::MAX
    &&& pre.registry().contains_key(dbk)
    &&& spec_read_allowed(pre.registry()[dbk].perms(), key, user)
    &&& has_array(pre.registry()[dbk].database@, key)
}

/// The reply value of `list_keys` carries the database's keys, sorted
/// ascending by code point.
pub open spec fn keys_json_ok(val: JsonData, dom: Set<Seq<char>>) -> bool {
    &&& val matches JsonData::Arr(items)
    &&& items.len() == dom.len()
    &&& forall|i: int| #![trigger items[i]] 0 <= i < items.len() ==> items[i] is Str
        && dom.contains(items[i]->Str_0)
    &&& strictly_sorted(Seq::new(items.len(), |i: int| items[i]->Str_0))
}

/// Success of `list_keys`.
pub open spec fn list_keys_ok(
    pre: Server,
    post: Server,
    d: JsonData,
    v: JsonData,
) -> bool {
    &&& s_str(d, "db_key"@) matches Some(dbk)
    &&& pre.registry().contains_key(dbk)
    &&& post.registry() == pre.registry()
    &&& v matches JsonData::Obj(entries)
    &&& obj_lookup(entries, "val"@) matches Some(val) && keys_json_ok(
        val,
        pre.registry()[dbk].database@.dom(),
    )
    &&& entries == with_uid(
        d,
        ok_reply("list_keys"@, ""@) + seq![
            ("db_key"@, JsonData::Str(dbk)),
            ("val"@, obj_lookup(entries, "val"@)->0),
        ],
    )
}

/// What `list_keys` needs to succeed.
pub open spec fn list_keys_can(pre: Server, d: JsonData) -> bool {
    &&& s_str(d, "db_key"@) matches Some(dbk)
    &&& pre.registry().contains_key(dbk)
}

/// Success of `create_database`: a fresh empty database stands under the
/// key, replacing any previous one.
pub open spec fn create_database_ok(
    pre: Server,
    post: Server,
    d: JsonData,
    v: JsonData,
) -> bool {
    &&& s_str(d, "db_key"@) matches Some(dbk)
    &&& post.registry().contains_key(dbk)
    &&& post.registry() == pre.registry().insert(dbk, post.registry()[dbk])
    &&& post.registry()[dbk].database@ == Map::<Seq<char>, JsonData>::empty()
    &&& post.registry()[dbk].database.spec_name() == dbk
    &&& post.registry()[dbk].perms() == Map::<Seq<char>, Permission>::empty()
    &&& v == JsonData::Obj(
        with_uid(d, ok_reply("create_database"@, ""@) + seq![("db_key"@, JsonData::Str(dbk))]),
    )
}

/// Server Interface: the authentication state of one connection, which
/// commands are executed through.
#[derive(Debug, Clone)]
pub struct ServerInterface {
    /// The connection's principal.
    pub user_profile: UserAuthentication,
}

impl ServerInterface {
    /// A fresh, unauthenticated connection.
    pub fn new() -> (r: Self)
        ensures
            !r.user_profile.is_authed,
            r.user_profile.name@ == Seq::<char>::empty(),
            r.user_profile.domain@ == Seq::<char>::empty(),
    {
        Self { user_profile: UserAuthentication::new() }
    }

    /// Ensure the user is authenticated.
    pub fn is_auth(&self, operation: &str) -> (r: Result<(), String>)
        ensures
            r is Ok <==> self.user_profile.is_authed,
    {
        let _ = operation;
        if !self.user_profile.is_authed {
            return Err("cannot perform operation, user is not yet authenticated".to_owned());
        }
        Ok(())
    }

    /// Authenticate without credentials; for tests.
    pub fn fake_auth(&mut self)
        ensures
            final(self).user_profile.is_authed,
            final(self).user_profile.name == old(self).user_profile.name,
            final(self).user_profile.domain == old(self).user_profile.domain,
    {
        self.user_profile.is_authed = true;
    }
}

impl ServerInterface {
    /// Execute `get_value` on an authenticated session.
    fn do_get_value(&self, server: &mut Server, entries: &Vec<Entry>) -> (r: Result<
        Option<JsonValue>,
        String,
    >)
        requires
            self.user_profile.is_authed,
        ensures
            final(server).config() == old(server).config(),
            final(server).admin() == old(server).admin(),
            match r {
                Ok(o) => o matches Some(v) && get_value_ok(
                    *old(server),
                    *final(server),
                    self.user_profile,
                    JsonData::Obj(pairs_view(entries@)),
                    v@,
                ),
                Err(_) => final(server).registry() == old(server).registry() && !get_value_can(
                    *old(server),
                    self.user_profile,
                    JsonData::Obj(pairs_view(entries@)),
                ),
            },
    {
        let ghost d = JsonData::Obj(pairs_view(entries@));
        let db_key = match extract_string(entries, "db_key") {
            Ok(s) => s,
            Err(e) => {
                return Err(e);
            },
        };
        let key = match extract_string(entries, "key") {
            Ok(s) => s,
            Err(e) => {
                return Err(e);
            },
        };
        let ghost reg0 = server.registry();
        let db = match server.take_database(db_key.as_str()) {
            Some(db) => db,
            None => {
                proof {
                    assert(server.registry() =~= reg0);
                }
                return Err("no database with the key initialized".to_owned());
            },
        };
        let result = db.read_from_key(key.as_str(), &self.user_profile);
        server.install_database(db_key.clone(), db);
        proof {
            assert(server.registry() =~= reg0);
        }
        let data = match result {
            Ok(v) => v,
            Err(e) => {
                return Err(e);
            },
        };
        let mut reply = base_reply("get_value", "");
        push_field(&mut reply, "key", JsonValue::Str(key));
        push_field(&mut reply, "db_key", JsonValue::Str(db_key));
        push_field(&mut reply, "val", data);
        add_unique_id(&mut reply, entries);
        proof {
            assert(pairs_view(reply@) == with_uid(
                d,
                ok_reply("get_value"@, ""@).push(
                    ("key"@, JsonData::Str(s_str(d, "key"@)->0)),
                ).push(("db_key"@, JsonData::Str(s_str(d, "db_key"@)->0))).push(
                    ("val"@, reg0[s_str(d, "db_key"@)->0].database@[s_str(d, "key"@)->0]),
                ),
            ));
            assert(ok_reply("get_value"@, ""@) + seq![
                ("key"@, JsonData::Str(s_str(d, "key"@)->0)),
                ("db_key"@, JsonData::Str(s_str(d, "db_key"@)->0)),
                ("val"@, reg0[s_str(d, "db_key"@)->0].database@[s_str(d, "key"@)->0]),
            ] =~= ok_reply("get_value"@, ""@).push(
                ("key"@, JsonData::Str(s_str(d, "key"@)->0)),
            ).push(("db_key"@, JsonData::Str(s_str(d, "db_key"@)->0))).push(
                ("val"@, reg0[s_str(d, "db_key"@)->0].database@[s_str(d, "key"@)->0]),
            ));
        }
        Ok(Some(JsonValue::Object(reply)))
    }

    /// Execute `set_value` on an authenticated session.
    fn do_set_value(&self, server: &mut Server, entries: &Vec<Entry>) -> (r: Result<
        Option<JsonValue>,
        String,
    >)
        requires
            self.user_profile.is_authed,
        ensures
            final(server).config() == old(server).config(),
            final(server).admin() == old(server).admin(),
            match r {
                Ok(o) => o matches Some(v) && set_value_ok(
                    *old(server),
                    *final(server),
                    self.user_profile,
                    JsonData::Obj(pairs_view(entries@)),
                    v@,
                ),
                Err(_) => final(server).registry() == old(server).registry() && !set_value_can(
                    *old(server),
                    self.user_profile,
                    JsonData::Obj(pairs_view(entries@)),
                ),
            },
    {
        let ghost d = JsonData::Obj(pairs_view(entries@));
        let db_key = match extract_string(entries, "db_key") {
            Ok(s) => s,
            Err(e) => {
                return Err(e);
            },
        };
        let key = match extract_string(entries, "key") {
            Ok(s) => s,
            Err(e) => {
                return Err(e);
            },
        };
        let data = match obj_get(entries, "val") {
            Some(v) => v.clone(),
            None => {
                return Err("no value field given".to_owned());
            },
        };
        let ghost reg0 = server.registry();
        let mut db = match server.take_database(db_key.as_str()) {
            Some(db) => db,
            None => {
                proof {
                    assert(server.registry() =~= reg0);
                }
                return Err("no database with the key initialized".to_owned());
            },
        };
        let result = db.write_to_key(key.as_str(), data, &self.user_profile);
        server.install_database(db_key.clone(), db);
        match result {
            Ok(_) => {},
            Err(e) => {
                proof {
                    assert(server.registry() =~= reg0);
                }
                return Err(e);
            },
        };
        proof {
            assert(server.registry() =~= reg0.insert(
                s_str(d, "db_key"@)->0,
                server.registry()[s_str(d, "db_key"@)->0],
            ));
        }
        let mut reply = base_reply("set_value", "");
        push_field(&mut reply, "key", JsonValue::Str(key));
        push_field(&mut reply, "db_key", JsonValue::Str(db_key));
        add_unique_id(&mut reply, entries);
        proof {
            assert(ok_reply("set_value"@, ""@) + seq![
                ("key"@, JsonData::Str(s_str(d, "key"@)->0)),
                ("db_key"@, JsonData::Str(s_str(d, "db_key"@)->0)),
            ] =~= ok_reply("set_value"@, ""@).push(
                ("key"@, JsonData::Str(s_str(d, "key"@)->0)),
            ).push(("db_key"@, JsonData::Str(s_str(d, "db_key"@)->0))));
        }
        Ok(Some(JsonValue::Object(reply)))
    }

    /// Execute `get_index` on an authenticated session.
    fn do_get_index(&self, server: &mut Server, entries: &Vec<Entry>) -> (r: Result<
        Option<JsonValue>,
        String,
    >)
        requires
            self.user_profile.is_authed,
        ensures
            final(server).config() == old(server).config(),
            final(server).admin() == old(server).admin(),
            match r {
                Ok(o) => o matches Some(v) && get_index_ok(
                    *old(server),
                    *final(server),
                    self.user_profile,
                    JsonData::Obj(pairs_view(entries@)),
                    v@,
                ),
                Err(_) => final(server).registry() == old(server).registry() && !get_index_can(
                    *old(server),
                    self.user_profile,
                    JsonData::Obj(pairs_view(entries@)),
                ),
            },
    {
        let ghost d = JsonData::Obj(pairs_view(entries@));
        let db_key = match extract_string(entries, "db_key") {
            Ok(s) => s,
            Err(e) => {
                return Err(e);
            },
        };
        let key = match extract_string(entries, "key") {
            Ok(s) => s,
            Err(e) => {
                return Err(e);
            },
        };
        let index = match extract_number(entries, "index") {
            Ok(n) => n,
            Err(e) => {
                return Err(e);
            },
        };
        let ghost reg0 = server.registry();
        let db = match server.take_database(db_key.as_str()) {
            Some(db) => db,
            None => {
                proof {
                    assert(server.registry() =~= reg0);
                }
                return Err("no database with the key initialized".to_owned());
            },
        };
        let result = db.read_from_key_index(key.as_str(), index, &self.user_profile);
        server.install_database(db_key.clone(), db);
        proof {
            assert(server.registry() =~= reg0);
        }
        let data = match result {
            Ok(v) => v,
            Err(e) => {
                return Err(e);
            },
        };
        let mut reply = base_reply("get_index", "");
        push_field(&mut reply, "key", JsonValue::Str(key));
        push_field(&mut reply, "db_key", JsonValue::Str(db_key));
        push_field(&mut reply, "index", JsonValue::Num(Number::Unsigned(index as u64)));
        push_field(&mut reply, "val", data);
        add_unique_id(&mut reply, entries);
        proof {
            assert(ok_reply("get_index"@, ""@) + seq![
                ("key"@, JsonData::Str(s_str(d, "key"@)->0)),
                ("db_key"@, JsonData::Str(s_str(d, "db_key"@)->0)),
                ("index"@, JsonData::Num(Number::Unsigned(s_num(d, "index"@)->0))),
                (
                    "val"@,
                    array_at(reg0[s_str(d, "db_key"@)->0].database@, s_str(d, "key"@)->0)[s_num(
                        d,
                        "index"@,
                    )->0 as int],
                ),
            ] =~= ok_reply("get_index"@, ""@).push(
                ("key"@, JsonData::Str(s_str(d, "key"@)->0)),
            ).push(("db_key"@, JsonData::Str(s_str(d, "db_key"@)->0))).push(
                ("index"@, JsonData::Num(Number::Unsigned(s_num(d, "index"@)->0))),
            ).push(
                (
                    "val"@,
                    array_at(reg0[s_str(d, "db_key"@)->0].database@, s_str(d, "key"@)->0)[s_num(
                        d,
                        "index"@,
                    )->0 as int],
                ),
            ));
        }
        Ok(Some(JsonValue::Object(reply)))
    }

    /// Execute `set_index` on an authenticated session.
    fn do_set_index(&self, server: &mut Server, entries: &Vec<Entry>) -> (r: Result<
        Option<JsonValue>,
        String,
    >)
        requires
            self.user_profile.is_authed,
        ensures
            final(server).config() == old(server).config(),
            final(server).admin() == old(server).admin(),
            match r {
                Ok(o) => o matches Some(v) && set_index_ok(
                    *old(server),
                    *final(server),
                    self.user_profile,
                    JsonData::Obj(pairs_view(entries@)),
                    v@,
                ),
                Err(_) => final(server).registry() == old(server).registry() && !set_index_can(
                    *old(server),
                    self.user_profile,
                    JsonData::Obj(pairs_view(entries@)),
                ),
            },
    {
        let ghost d = JsonData::Obj(pairs_view(entries@));
        let db_key = match extract_string(entries, "db_key") {
            Ok(s) => s,
            Err(e) => {
                return Err(e);
            },
        };
        let key = match extract_string(entries, "key") {
            Ok(s) => s,
            Err(e) => {
                return Err(e);
            },
        };
        let index = match extract_number(entries, "index") {
            Ok(n) => n,
            Err(e) => {
                return Err(e);
            },
        };
        let data = match obj_get(entries, "val") {
            Some(v) => v.clone(),
            None => {
                return Err("no value field given".to_owned());
            },
        };
        let ghost reg0 = server.registry();
        let mut db = match server.take_database(db_key.as_str()) {
            Some(db) => db,
            None => {
                proof {
                    assert(server.registry() =~= reg0);
                }
                return Err("no database with the key initialized".to_owned());
            },
        };
        let result = db.write_to_key_index(key.as_str(), index, data, &self.user_profile);
        server.install_database(db_key.clone(), db);
        match result {
            Ok(_) => {},
            Err(e) => {
                proof {
                    assert(server.registry() =~= reg0);
                }
                return Err(e);
            },
        };
        proof {
            assert(server.registry() =~= reg0.insert(
                s_str(d, "db_key"@)->0,
                server.registry()[s_str(d, "db_key"@)->0],
            ));
        }
        let mut reply = base_reply("set_index", "");
        push_field(&mut reply, "key", JsonValue::Str(key));
        push_field(&mut reply, "db_key", JsonValue::Str(db_key));
        push_field(&mut reply, "index", JsonValue::Num(Number::Unsigned(index as u64)));
        add_unique_id(&mut reply, entries);
        proof {
            assert(ok_reply("set_index"@, ""@) + seq![
                ("key"@, JsonData::Str(s_str(d, "key"@)->0)),
                ("db_key"@, JsonData::Str(s_str(d, "db_key"@)->0)),
                ("index"@, JsonData::Num(Number::Unsigned(s_num(d, "index"@)->0))),
            ] =~= ok_reply("set_index"@, ""@).push(
                ("key"@, JsonData::Str(s_str(d, "key"@)->0)),
            ).push(("db_key"@, JsonData::Str(s_str(d, "db_key"@)->0))).push(
                ("index"@, JsonData::Num(Number::Unsigned(s_num(d, "index"@)->0))),
            ));
        }
        Ok(Some(JsonValue::Object(reply)))
    }

    /// Execute `append_list` on an authenticated session.
    fn do_append(&self, server: &mut Server, entries: &Vec<Entry>) -> (r: Result<
        Option<JsonValue>,
        String,
    >)
        requires
            self.user_profile.is_authed,
        ensures
            final(server).config() == old(server).config(),
            final(server).admin() == old(server).admin(),
            match r {
                Ok(o) => o matches Some(v) && append_ok(
                    *old(server),
                    *final(server),
                    self.user_profile,
                    JsonData::Obj(pairs_view(entries@)),
                    v@,
                ),
                Err(_) => final(server).registry() == old(server).registry() && !append_can(
                    *old(server),
                    self.user_profile,
                    JsonData::Obj(pairs_view(entries@)),
                ),
            },
    {
        let ghost d = JsonData::Obj(pairs_view(entries@));
        let db_key = match extract_string(entries, "db_key") {
            Ok(s) => s,
            Err(e) => {
                return Err(e);
            },
        };
        let key = match extract_string(entries, "key") {
            Ok(s) => s,
            Err(e) => {
                return Err(e);
            },
        };
        let data = match obj_get(entries, "val") {
            Some(v) => v.clone(),
            None => {
                return Err("no value field given".to_owned());
            },
        };
        let ghost reg0 = server.registry();
        let mut db = match server.take_database(db_key.as_str()) {
            Some(db) => db,
            None => {
                proof {
                    assert(server.registry() =~= reg0);
                }
                return Err("no database with the key initialized".to_owned());
            },
        };
        let result = db.append_to_key(key.as_str(), data, &self.user_profile);
        server.install_database(db_key.clone(), db);
        let next = match result {
            Ok(n) => n,
            Err(e) => {
                proof {
                    assert(server.registry() =~= reg0);
                }
                return Err(e);
            },
        };
        proof {
            assert(server.registry() =~= reg0.insert(
                s_str(d, "db_key"@)->0,
                server.registry()[s_str(d, "db_key"@)->0],
            ));
        }
        let mut reply = base_reply("append_list", "");
        push_field(&mut reply, "key", JsonValue::Str(key));
        push_field(&mut reply, "db_key", JsonValue::Str(db_key));
        push_field(&mut reply, "next", JsonValue::Num(Number::Unsigned(next as u64)));
        add_unique_id(&mut reply, entries);
        proof {
            assert(ok_reply("append_list"@, ""@) + seq![
                ("key"@, JsonData::Str(s_str(d, "key"@)->0)),
                ("db_key"@, JsonData::Str(s_str(d, "db_key"@)->0)),
                (
                    "next"@,
                    JsonData::Num(
                        Number::Unsigned(
                            array_at(
                                reg0[s_str(d, "db_key"@)->0].database@,
                                s_str(d, "key"@)->0,
                            ).len() as u64,
                        ),
                    ),
                ),
            ] =~= ok_reply("append_list"@, ""@).push(
                ("key"@, JsonData::Str(s_str(d, "key"@)->0)),
            ).push(("db_key"@, JsonData::Str(s_str(d, "db_key"@)->0))).push(
                (
                    "next"@,
                    JsonData::Num(
                        Number::Unsigned(
                            array_at(
                                reg0[s_str(d, "db_key"@)->0].database@,
                                s_str(d, "key"@)->0,
                            ).len() as u64,
                        ),
                    ),
                ),
            ));
        }
        Ok(Some(JsonValue::Object(reply)))
    }

    /// Execute `get_list_length` on an authenticated session.
    fn do_get_length(&self, server: &mut Server, entries: &Vec<Entry>) -> (r: Result<
        Option<JsonValue>,
        String,
    >)
        requires
            self.user_profile.is_authed,
        ensures
            final(server).config() == old(server).config(),
            final(server).admin() == old(server).admin(),
            match r {
                Ok(o) => o matches Some(v) && get_length_ok(
                    *old(server),
                    *final(server),
                    self.user_profile,
                    JsonData::Obj(pairs_view(entries@)),
                    v@,
                ),
                Err(_) => final(server).registry() == old(server).registry() && !get_length_can(
                    *old(server),
                    self.user_profile,
                    JsonData::Obj(pairs_view(entries@)),
                ),
            },
    {
        let ghost d = JsonData::Obj(pairs_view(entries@));
        let db_key = match extract_string(entries, "db_key") {
            Ok(s) => s,
            Err(e) => {
                return Err(e);
            },
        };
        let key = match extract_string(entries, "key") {
            Ok(s) => s,
            Err(e) => {
                return Err(e);
            },
        };
        let ghost reg0 = server.registry();
        let db = match server.take_database(db_key.as_str()) {
            Some(db) => db,
            None => {
                proof {
                    assert(server.registry() =~= reg0);
                }
                return Err("no database with the key initialized".to_owned());
            },
        };
        let result = db.get_length_from_key(key.as_str(), &self.user_profile);
        server.install_database(db_key.clone(), db);
        proof {
            assert(server.registry() =~= reg0);
        }
        let length = match result {
            Ok(n) => n,
            Err(e) => {
                return Err(e);
            },
        };
        let mut reply = base_reply("get_list_length", "");
        push_field(&mut reply, "key", JsonValue::Str(key));
        push_field(&mut reply, "db_key", JsonValue::Str(db_key));
        push_field(&mut reply, "length", JsonValue::Num(Number::Unsigned(length as u64)));
        add_unique_id(&mut reply, entries);
        proof {
            assert(ok_reply("get_list_length"@, ""@) + seq![
                ("key"@, JsonData::Str(s_str(d, "key"@)->0)),
                ("db_key"@, JsonData::Str(s_str(d, "db_key"@)->0)),
                (
                    "length"@,
                    JsonData::Num(
                        Number::Unsigned(
                            array_at(
                                reg0[s_str(d, "db_key"@)->0].database@,
                                s_str(d, "key"@)->0,
                            ).len() as u64,
                        ),
                    ),
                ),
            ] =~= ok_reply("get_list_length"@, ""@).push(
                ("key"@, JsonData::Str(s_str(d, "key"@)->0)),
            ).push(("db_key"@, JsonData::Str(s_str(d, "db_key"@)->0))).push(
                (
                    "length"@,
                    JsonData::Num(
                        Number::Unsigned(
                            array_at(
                                reg0[s_str(d, "db_key"@)->0].database@,
                                s_str(d, "key"@)->0,
                            ).len() as u64,
                        ),
                    ),
                ),
            ));
        }
        Ok(Some(JsonValue::Object(reply)))
    }

    /// Execute `get_recent` on an authenticated session.
    fn do_get_recent(&self, server: &mut Server, entries: &Vec<Entry>) -> (r: Result<
        Option<JsonValue>,
        String,
    >)
        requires
            self.user_profile.is_authed,
        ensures
            final(server).config() == old(server).config(),
            final(server).admin() == old(server).admin(),
            match r {
                Ok(o) => o matches Some(v) && get_recent_ok(
                    *old(server),
                    *final(server),
                    self.user_profile,
                    JsonData::Obj(pairs_view(entries@)),
                    v@,
                ),
                Err(_) => final(server).registry() == old(server).registry() && !get_recent_can(
                    *old(server),
                    self.user_profile,
                    JsonData::Obj(pairs_view(entries@)),
                ),
            },
    {
        let ghost d = JsonData::Obj(pairs_view(entries@));
        let db_key = match extract_string(entries, "db_key") {
            Ok(s) => s,
            Err(e) => {
                return Err(e);
            },
        };
        let key = match extract_string(entries, "key") {
            Ok(s) => s,
            Err(e) => {
                return Err(e);
            },
        };
        let num = match extract_number(entries, "num") {
            Ok(n) => n,
            Err(e) => {
                return Err(e);
            },
        };
        let ghost reg0 = server.registry();
        let db = match server.take_database(db_key.as_str()) {
            Some(db) => db,
            None => {
                proof {
                    assert(server.registry() =~= reg0);
                }
                return Err("no database with the key initialized".to_owned());
            },
        };
        let result = db.read_last_n_from_key(key.as_str(), num, &self.user_profile);
        server.install_database(db_key.clone(), db);
        proof {
            assert(server.registry() =~= reg0);
        }
        let data = match result {
            Ok(v) => v,
            Err(e) => {
                return Err(e);
            },
        };
        let mut reply = base_reply("get_recent", "");
        push_field(&mut reply, "key", JsonValue::Str(key));
        push_field(&mut reply, "db_key", JsonValue::Str(db_key));
        push_field(&mut reply, "val", data);
        add_unique_id(&mut reply, entries);
        proof {
            assert(ok_reply("get_recent"@, ""@) + seq![
                ("key"@, JsonData::Str(s_str(d, "key"@)->0)),
                ("db_key"@, JsonData::Str(s_str(d, "db_key"@)->0)),
                (
                    "val"@,
                    JsonData::Arr(
                        last_n_of(
                            array_at(
                                reg0[s_str(d, "db_key"@)->0].database@,
                                s_str(d, "key"@)->0,
                            ),
                            s_num(d, "num"@)->0 as int,
                        ),
                    ),
                ),
            ] =~= ok_reply("get_recent"@, ""@).push(
                ("key"@, JsonData::Str(s_str(d, "key"@)->0)),
            ).push(("db_key"@, JsonData::Str(s_str(d, "db_key"@)->0))).push(
                (
                    "val"@,
                    JsonData::Arr(
                        last_n_of(
                            array_at(
                                reg0[s_str(d, "db_key"@)->0].database@,
                                s_str(d, "key"@)->0,
                            ),
                            s_num(d, "num"@)->0 as int,
                        ),
                    ),
                ),
            ));
        }
        Ok(Some(JsonValue::Object(reply)))
    }

    /// Execute `create_database` on an authenticated session.
    fn do_create_database(&self, server: &mut Server, entries: &Vec<Entry>) -> (r: Result<
        Option<JsonValue>,
        String,
    >)
        requires
            self.user_profile.is_authed,
        ensures
            final(server).config() == old(server).config(),
            final(server).admin() == old(server).admin(),
            match r {
                Ok(o) => o matches Some(v) && create_database_ok(
                    *old(server),
                    *final(server),
                    JsonData::Obj(pairs_view(entries@)),
                    v@,
                ),
                Err(_) => final(server).registry() == old(server).registry() && s_str(
                    JsonData::Obj(pairs_view(entries@)),
                    "db_key"@,
                ) is None,
            },
    {
        let ghost d = JsonData::Obj(pairs_view(entries@));
        let name = match extract_string(entries, "db_key") {
            Ok(s) => s,
            Err(e) => {
                return Err(e);
            },
        };
        let fresh = DatabaseInterface::new(Database::new(name.as_str()), perm_map_new());
        proof {
            assert(fresh.perms() =~= Map::<Seq<char>, Permission>::empty());
        }
        server.install_database(name.clone(), fresh);
        let mut reply = base_reply("create_database", "");
        push_field(&mut reply, "db_key", JsonValue::Str(name));
        add_unique_id(&mut reply, entries);
        proof {
            assert(ok_reply("create_database"@, ""@) + seq![
                ("db_key"@, JsonData::Str(s_str(d, "db_key"@)->0)),
            ] =~= ok_reply("create_database"@, ""@).push(
                ("db_key"@, JsonData::Str(s_str(d, "db_key"@)->0)),
            ));
        }
        Ok(Some(JsonValue::Object(reply)))
    }

    /// Execute `list_keys` on an authenticated session.
    fn do_list_keys(&self, server: &mut Server, entries: &Vec<Entry>) -> (r: Result<
        Option<JsonValue>,
        String,
    >)
        requires
            self.user_profile.is_authed,
        ensures
            final(server).config() == old(server).config(),
            final(server).admin() == old(server).admin(),
            final(server).registry() == old(server).registry(),
            match r {
                Ok(o) => o matches Some(v) && list_keys_ok(
                    *old(server),
                    *final(server),
                    JsonData::Obj(pairs_view(entries@)),
                    v@,
                ),
                Err(_) => !list_keys_can(*old(server), JsonData::Obj(pairs_view(entries@))),
            },
    {
        let ghost d = JsonData::Obj(pairs_view(entries@));
        let db_key = match extract_string(entries, "db_key") {
            Ok(s) => s,
            Err(e) => {
                return Err(e);
            },
        };
        let keys = match server.get_keys(db_key.as_str()) {
            Ok(keys) => keys,
            Err(e) => {
                return Err(e);
            },
        };
        let ghost dom = server.registry()[s_str(d, "db_key"@)->0].database@.dom();
        let mut items: Vec<JsonValue> = Vec::new();
        let mut i: usize = 0;
        while i < keys.len()
            invariant
                i <= keys.len(),
                items@.len() == i,
                forall|j: int| #![trigger items@[j]] 0 <= j < i ==> (items@[j] matches
                    JsonValue::Str(s) && s@ == keys@[j]@),
            decreases keys.len() - i,
        {
            items.push(JsonValue::Str(keys[i].clone()));
            i += 1;
        }
        let val = JsonValue::Array(items);
        proof {
            crate::json::lemma_seq_view_len(items@);
            assert forall|j: int| 0 <= j < items@.len() implies #[trigger] crate::json::seq_view(
                items@,
            )[j] == JsonData::Str(keys@[j]@) by {
                crate::json::lemma_seq_view_index(items@, j);
            }
            let iv = crate::json::seq_view(items@);
            assert(keys_json_ok(JsonData::Arr(iv), dom)) by {
                assert forall|j: int| #![trigger iv[j]] 0 <= j < iv.len() implies iv[j] is Str
                    && dom.contains(iv[j]->Str_0) by {
                    assert(iv[j] == JsonData::Str(keys@[j]@));
                }
                let strs = Seq::new(iv.len(), |j: int| iv[j]->Str_0);
                assert(strs =~= keys@.map_values(|s: String| s@));
                assert(strictly_sorted(strs));
            }
        }
        let mut reply = base_reply("list_keys", "");
        push_field(&mut reply, "db_key", JsonValue::Str(db_key));
        push_field(&mut reply, "val", val);
        add_unique_id(&mut reply, entries);
        proof {
            let vv = JsonData::Arr(crate::json::seq_view(items@));
            assert(ok_reply("list_keys"@, ""@) + seq![
                ("db_key"@, JsonData::Str(s_str(d, "db_key"@)->0)),
                ("val"@, vv),
            ] =~= ok_reply("list_keys"@, ""@).push(
                ("db_key"@, JsonData::Str(s_str(d, "db_key"@)->0)),
            ).push(("val"@, vv)));
            let re = pairs_view(reply@);
            assert(obj_lookup(re, "val"@) == Some(vv)) by {
                lemma_reply_val_lookup(re);
            }
        }
        Ok(Some(JsonValue::Object(reply)))
    }

    /// Execute a parsed command against the server.  The outcome of the
    /// external identity verifier is handed in by the host; it matters
    /// only to `g_auth`.  Disk-backed commands and `event` never execute
    /// here: the host runs them around the registry and the directory.
    pub fn execute_command(
        &mut self,
        server: &mut Server,
        command: Command,
        external_identity: Result<Option<String>, String>,
    ) -> (r: Result<Option<JsonValue>, String>)
        ensures
            final(server).config() == old(server).config(),
            final(server).admin() == old(server).admin(),
            !old(self).user_profile.is_authed && !(command.cmd is AcronymAuth) && !(command.cmd
                is GoogleAuth) ==> r is Err && *final(self) == *old(self) && final(server).registry()
                == old(server).registry(),
            match r {
                Ok(o) => match o {
                    Some(v) => echoes_unique_id(command.data@, v@),
                    None => true,
                },
                Err(_) => true,
            },
            command.cmd is AcronymAuth || command.cmd is GoogleAuth || *final(self) == *old(self),
            match command.cmd {
                Commands::WriteToDisk => r is Err && final(server).registry() == old(
                    server,
                ).registry(),
                Commands::ReadFromDisk => r is Err && final(server).registry() == old(
                    server,
                ).registry(),
                Commands::Event => r is Err && final(server).registry() == old(server).registry(),
                Commands::GetValue => match r {
                    Ok(o) => o matches Some(v) && get_value_ok(
                        *old(server),
                        *final(server),
                        old(self).user_profile,
                        command.data@,
                        v@,
                    ),
                    Err(_) => final(server).registry() == old(server).registry() && !(old(
                        self,
                    ).user_profile.is_authed && get_value_can(
                        *old(server),
                        old(self).user_profile,
                        command.data@,
                    )),
                },
                Commands::SetValue => match r {
                    Ok(o) => o matches Some(v) && set_value_ok(
                        *old(server),
                        *final(server),
                        old(self).user_profile,
                        command.data@,
                        v@,
                    ),
                    Err(_) => final(server).registry() == old(server).registry() && !(old(
                        self,
                    ).user_profile.is_authed && set_value_can(
                        *old(server),
                        old(self).user_profile,
                        command.data@,
                    )),
                },
                Commands::GetIndex => match r {
                    Ok(o) => o matches Some(v) && get_index_ok(
                        *old(server),
                        *final(server),
                        old(self).user_profile,
                        command.data@,
                        v@,
                    ),
                    Err(_) => final(server).registry() == old(server).registry() && !(old(
                        self,
                    ).user_profile.is_authed && get_index_can(
                        *old(server),
                        old(self).user_profile,
                        command.data@,
                    )),
                },
                Commands::SetIndex => match r {
                    Ok(o) => o matches Some(v) && set_index_ok(
                        *old(server),
                        *final(server),
                        old(self).user_profile,
                        command.data@,
                        v@,
                    ),
                    Err(_) => final(server).registry() == old(server).registry() && !(old(
                        self,
                    ).user_profile.is_authed && set_index_can(
                        *old(server),
                        old(self).user_profile,
                        command.data@,
                    )),
                },
                Commands::AppendIndex => match r {
                    Ok(o) => o matches Some(v) && append_ok(
                        *old(server),
                        *final(server),
                        old(self).user_profile,
                        command.data@,
                        v@,
                    ),
                    Err(_) => final(server).registry() == old(server).registry() && !(old(
                        self,
                    ).user_profile.is_authed && append_can(
                        *old(server),
                        old(self).user_profile,
                        command.data@,
                    )),
                },
                Commands::GetLengthIndex => match r {
                    Ok(o) => o matches Some(v) && get_length_ok(
                        *old(server),
                        *final(server),
                        old(self).user_profile,
                        command.data@,
                        v@,
                    ),
                    Err(_) => final(server).registry() == old(server).registry() && !(old(
                        self,
                    ).user_profile.is_authed && get_length_can(
                        *old(server),
                        old(self).user_profile,
                        command.data@,
                    )),
                },
                Commands::GetRecentIndex => match r {
                    Ok(o) => o matches Some(v) && get_recent_ok(
                        *old(server),
                        *final(server),
                        old(self).user_profile,
                        command.data@,
                        v@,
                    ),
                    Err(_) => final(server).registry() == old(server).registry() && !(old(
                        self,
                    ).user_profile.is_authed && get_recent_can(
                        *old(server),
                        old(self).user_profile,
                        command.data@,
                    )),
                },
                Commands::ListKeys => match r {
                    Ok(o) => o matches Some(v) && list_keys_ok(
                        *old(server),
                        *final(server),
                        command.data@,
                        v@,
                    ),
                    Err(_) => final(server).registry() == old(server).registry() && !(old(
                        self,
                    ).user_profile.is_authed && list_keys_can(*old(server), command.data@)),
                },
                Commands::CreateDatabase => match r {
                    Ok(o) => old(self).user_profile.is_authed && (o matches Some(v)
                        && create_database_ok(*old(server), *final(server), command.data@, v@)),
                    Err(_) => final(server).registry() == old(server).registry() && !(old(
                        self,
                    ).user_profile.is_authed && s_str(command.data@, "db_key"@) is Some),
                },
                Commands::AcronymAuth => final(server).registry() == old(server).registry()
                    && match r {
                    Ok(o) => {
                        &&& command.data@ is Obj
                        &&& s_str(command.data@, "id"@) matches Some(id)
                        &&& s_str(command.data@, "token"@) is Some
                        &&& spec_read_allowed(
                            old(server).config().perms(),
                            "a_users"@,
                            old(server).admin(),
                        )
                        &&& old(server).config().database@.contains_key("a_users"@)
                        &&& o matches Some(v)
                        &&& match spec_local_auth(
                            old(server).config().database@["a_users"@],
                            id,
                            s_str(command.data@, "token"@)->0,
                        ) {
                            AuthOutcome::Granted => {
                                &&& final(self).user_profile.is_authed
                                &&& final(self).user_profile.name@ == id
                                &&& final(self).user_profile.domain@ == "a_auth"@
                                &&& v@ == JsonData::Obj(
                                    with_uid(command.data@, ok_reply("a_auth"@, "success"@)),
                                )
                            },
                            AuthOutcome::NoUser => *final(self) == *old(self) && v@
                                == JsonData::Obj(
                                with_uid(
                                    command.data@,
                                    ok_reply("a_auth"@, "Failed, a_user not found"@),
                                ),
                            ),
                            AuthOutcome::BadToken => *final(self) == *old(self) && v@
                                == JsonData::Obj(
                                with_uid(
                                    command.data@,
                                    ok_reply("a_auth"@, "Failed, token incorrect"@),
                                ),
                            ),
                            AuthOutcome::Malformed => false,
                        }
                    },
                    Err(_) => *final(self) == *old(self) && {
                        ||| s_str(command.data@, "id"@) is None
                        ||| s_str(command.data@, "token"@) is None
                        ||| !(spec_read_allowed(
                            old(server).config().perms(),
                            "a_users"@,
                            old(server).admin(),
                        ) && old(server).config().database@.contains_key("a_users"@))
                        ||| spec_local_auth(
                            old(server).config().database@["a_users"@],
                            s_str(command.data@, "id"@)->0,
                            s_str(command.data@, "token"@)->0,
                        ) is Malformed
                    },
                },
                Commands::GoogleAuth => final(server).registry() == old(server).registry()
                    && match r {
                    Ok(o) => {
                        &&& command.data@ is Obj
                        &&& s_str(command.data@, "id_token"@) is Some
                        &&& o matches Some(v)
                        &&& match external_identity {
                            Ok(Some(subject)) => {
                                &&& final(self).user_profile.is_authed
                                &&& final(self).user_profile.name@ == subject@
                                &&& final(self).user_profile.domain@ == "g_auth"@
                                &&& v@ == JsonData::Obj(
                                    with_uid(command.data@, ok_reply("g_auth"@, "success"@)),
                                )
                            },
                            Ok(None) => *final(self) == *old(self) && v@ == JsonData::Obj(
                                with_uid(command.data@, ok_reply("g_auth"@, "error"@)),
                            ),
                            Err(_) => false,
                        }
                    },
                    Err(_) => *final(self) == *old(self) && (s_str(command.data@, "id_token"@)
                        is None || external_identity is Err),
                },
            },
    {
        let entries = match &command.data {
            JsonValue::Object(entries) => entries,
            _ => {
                return Err("command data is not an object".to_owned());
            },
        };
        let ghost d = command.data@;
        let r = match command.cmd {
            Commands::WriteToDisk => Err(
                "disk operations are performed by the host process".to_owned(),
            ),
            Commands::ReadFromDisk => Err(
                "disk operations are performed by the host process".to_owned(),
            ),
            Commands::Event => Err(
                "event command should never make it to the server interface".to_owned(),
            ),
            Commands::GetValue => {
                match self.is_auth("GetValue") {
                    Ok(_) => self.do_get_value(server, entries),
                    Err(e) => Err(e),
                }
            },
            Commands::SetValue => {
                match self.is_auth("SetValue") {
                    Ok(_) => self.do_set_value(server, entries),
                    Err(e) => Err(e),
                }
            },
            Commands::GetIndex => {
                match self.is_auth("GetIndex") {
                    Ok(_) => self.do_get_index(server, entries),
                    Err(e) => Err(e),
                }
            },
            Commands::SetIndex => {
                match self.is_auth("SetIndex") {
                    Ok(_) => self.do_set_index(server, entries),
                    Err(e) => Err(e),
                }
            },
            Commands::AppendIndex => {
                match self.is_auth("AppendIndex") {
                    Ok(_) => self.do_append(server, entries),
                    Err(e) => Err(e),
                }
            },
            Commands::GetLengthIndex => {
                match self.is_auth("GetLengthIndex") {
                    Ok(_) => self.do_get_length(server, entries),
                    Err(e) => Err(e),
                }
            },
            Commands::GetRecentIndex => {
                match self.is_auth("GetRecentIndex") {
                    Ok(_) => self.do_get_recent(server, entries),
                    Err(e) => Err(e),
                }
            },
            Commands::ListKeys => {
                match self.is_auth("ListKeys") {
                    Ok(_) => self.do_list_keys(server, entries),
                    Err(e) => Err(e),
                }
            },
            Commands::CreateDatabase => {
                match self.is_auth("CreateDatabase") {
                    Ok(_) => self.do_create_database(server, entries),
                    Err(e) => Err(e),
                }
            },
            Commands::AcronymAuth => self.do_a_auth(server, entries),
            Commands::GoogleAuth => self.do_g_auth(entries, external_identity),
        };
        proof {
            lemma_reply_keys_not_uid();
            if r is Ok && r->Ok_0 is Some {
                let v = (r->Ok_0)->0@;
                let dbk_o = s_str(d, "db_key"@);
                let key_o = s_str(d, "key"@);
                match command.cmd {
                    Commands::GetValue => {
                        let dbk = dbk_o->0;
                        let key = key_o->0;
                        lemma_echo_with_fields(
                            d,
                            "get_value"@,
                            ""@,
                            seq![
                                ("key"@, JsonData::Str(key)),
                                ("db_key"@, JsonData::Str(dbk)),
                                ("val"@, old(server).registry()[dbk].database@[key]),
                            ],
                        );
                    },
                    Commands::SetValue => {
                        lemma_echo_with_fields(
                            d,
                            "set_value"@,
                            ""@,
                            seq![
                                ("key"@, JsonData::Str(key_o->0)),
                                ("db_key"@, JsonData::Str(dbk_o->0)),
                            ],
                        );
                    },
                    Commands::GetIndex => {
                        let dbk = dbk_o->0;
                        let key = key_o->0;
                        let index = s_num(d, "index"@)->0;
                        lemma_echo_with_fields(
                            d,
                            "get_index"@,
                            ""@,
                            seq![
                                ("key"@, JsonData::Str(key)),
                                ("db_key"@, JsonData::Str(dbk)),
                                ("index"@, JsonData::Num(Number::Unsigned(index))),
                                (
                                    "val"@,
                                    array_at(old(server).registry()[dbk].database@, key)[index as int],
                                ),
                            ],
                        );
                    },
                    Commands::SetIndex => {
                        lemma_echo_with_fields(
                            d,
                            "set_index"@,
                            ""@,
                            seq![
                                ("key"@, JsonData::Str(key_o->0)),
                                ("db_key"@, JsonData::Str(dbk_o->0)),
                                (
                                    "index"@,
                                    JsonData::Num(Number::Unsigned(s_num(d, "index"@)->0)),
                                ),
                            ],
                        );
                    },
                    Commands::AppendIndex => {
                        let dbk = dbk_o->0;
                        let key = key_o->0;
                        lemma_echo_with_fields(
                            d,
                            "append_list"@,
                            ""@,
                            seq![
                                ("key"@, JsonData::Str(key)),
                                ("db_key"@, JsonData::Str(dbk)),
                                (
                                    "next"@,
                                    JsonData::Num(
                                        Number::Unsigned(
                                            array_at(
                                                old(server).registry()[dbk].database@,
                                                key,
                                            ).len() as u64,
                                        ),
                                    ),
                                ),
                            ],
                        );
                    },
                    Commands::GetLengthIndex => {
                        let dbk = dbk_o->0;
                        let key = key_o->0;
                        lemma_echo_with_fields(
                            d,
                            "get_list_length"@,
                            ""@,
                            seq![
                                ("key"@, JsonData::Str(key)),
                                ("db_key"@, JsonData::Str(dbk)),
                                (
                                    "length"@,
                                    JsonData::Num(
                                        Number::Unsigned(
                                            array_at(
                                                old(server).registry()[dbk].database@,
                                                key,
                                            ).len() as u64,
                                        ),
                                    ),
                                ),
                            ],
                        );
                    },
                    Commands::GetRecentIndex => {
                        let dbk = dbk_o->0;
                        let key = key_o->0;
                        lemma_echo_with_fields(
                            d,
                            "get_recent"@,
                            ""@,
                            seq![
                                ("key"@, JsonData::Str(key)),
                                ("db_key"@, JsonData::Str(dbk)),
                                (
                                    "val"@,
                                    JsonData::Arr(
                                        last_n_of(
                                            array_at(
                                                old(server).registry()[dbk].database@,
                                                key,
                                            ),
                                            s_num(d, "num"@)->0 as int,
                                        ),
                                    ),
                                ),
                            ],
                        );
                    },
                    Commands::ListKeys => {
                        match v {
                            JsonData::Obj(re) => {
                                lemma_echo_with_fields(
                                    d,
                                    "list_keys"@,
                                    ""@,
                                    seq![
                                        ("db_key"@, JsonData::Str(dbk_o->0)),
                                        ("val"@, obj_lookup(re, "val"@)->0),
                                    ],
                                );
                            },
                            _ => {},
                        }
                    },
                    Commands::CreateDatabase => {
                        lemma_echo_with_fields(
                            d,
                            "create_database"@,
                            ""@,
                            seq![("db_key"@, JsonData::Str(dbk_o->0))],
                        );
                    },
                    Commands::AcronymAuth => {
                        lemma_echo_with_fields(d, "a_auth"@, "success"@, Seq::empty());
                        lemma_echo_with_fields(
                            d,
                            "a_auth"@,
                            "Failed, a_user not found"@,
                            Seq::empty(),
                        );
                        lemma_echo_with_fields(
                            d,
                            "a_auth"@,
                            "Failed, token incorrect"@,
                            Seq::empty(),
                        );
                    },
                    Commands::GoogleAuth => {
                        lemma_echo_with_fields(d, "g_auth"@, "success"@, Seq::empty());
                        lemma_echo_with_fields(d, "g_auth"@, "error"@, Seq::empty());
                    },
                    _ => {},
                }
            }
        }
        r
    }

    /// The database key a disk-backed command names, on an authenticated
    /// session; the host loads or stores the files for it.
    pub fn disk_target(&self, entries: &Vec<Entry>) -> (r: Result<String, String>)
        ensures
            match r {
                Ok(s) => self.user_profile.is_authed && s_str(
                    JsonData::Obj(pairs_view(entries@)),
                    "db_key"@,
                ) == Some(s@),
                Err(_) => !self.user_profile.is_authed || s_str(
                    JsonData::Obj(pairs_view(entries@)),
                    "db_key"@,
                ) is None,
            },
    {
        match self.is_auth("disk operation") {
            Ok(_) => extract_string(entries, "db_key"),
            Err(e) => Err(e),
        }
    }

    /// Conclude `read_from_disk`: install what the host loaded for the
    /// key and reply.
    pub fn finish_read_from_disk(
        &self,
        server: &mut Server,
        entries: &Vec<Entry>,
        db_key: String,
        loaded: Result<DatabaseInterface, String>,
    ) -> (r: Result<Option<JsonValue>, String>)
        requires
            self.user_profile.is_authed,
        ensures
            final(server).config() == old(server).config(),
            final(server).admin() == old(server).admin(),
            match r {
                Ok(o) => {
                    &&& loaded matches Ok(db)
                    &&& final(server).registry() == old(server).registry().insert(db_key@, db)
                    &&& o matches Some(v)
                    &&& v@ == JsonData::Obj(
                        with_uid(
                            JsonData::Obj(pairs_view(entries@)),
                            ok_reply("read_from_disk"@, ""@) + seq![
                                ("db_key"@, JsonData::Str(db_key@)),
                            ],
                        ),
                    )
                },
                Err(_) => loaded is Err && final(server).registry() == old(server).registry(),
            },
    {
        let ghost d = JsonData::Obj(pairs_view(entries@));
        let db = match loaded {
            Ok(db) => db,
            Err(e) => {
                return Err(e);
            },
        };
        server.install_database(db_key.clone(), db);
        let mut reply = base_reply("read_from_disk", "");
        push_field(&mut reply, "db_key", JsonValue::Str(db_key));
        add_unique_id(&mut reply, entries);
        proof {
            assert(ok_reply("read_from_disk"@, ""@) + seq![
                ("db_key"@, JsonData::Str(db_key@)),
            ] =~= ok_reply("read_from_disk"@, ""@).push(("db_key"@, JsonData::Str(db_key@))));
        }
        Ok(Some(JsonValue::Object(reply)))
    }

    /// Conclude `write_to_disk`: the host has written the files; reply.
    pub fn finish_write_to_disk(
        &self,
        entries: &Vec<Entry>,
        db_key: String,
        written: Result<(), String>,
    ) -> (r: Result<Option<JsonValue>, String>)
        requires
            self.user_profile.is_authed,
        ensures
            match r {
                Ok(o) => {
                    &&& written is Ok
                    &&& o matches Some(v)
                    &&& v@ == JsonData::Obj(
                        with_uid(
                            JsonData::Obj(pairs_view(entries@)),
                            ok_reply("write_to_disk"@, ""@) + seq![
                                ("db_key"@, JsonData::Str(db_key@)),
                            ],
                        ),
                    )
                },
                Err(_) => written is Err,
            },
    {
        let ghost d = JsonData::Obj(pairs_view(entries@));
        match written {
            Ok(_) => {},
            Err(e) => {
                return Err(e);
            },
        };
        let mut reply = base_reply("write_to_disk", "");
        push_field(&mut reply, "db_key", JsonValue::Str(db_key));
        add_unique_id(&mut reply, entries);
        proof {
            assert(ok_reply("write_to_disk"@, ""@) + seq![
                ("db_key"@, JsonData::Str(db_key@)),
            ] =~= ok_reply("write_to_disk"@, ""@).push(("db_key"@, JsonData::Str(db_key@))));
        }
        Ok(Some(JsonValue::Object(reply)))
    }

    /// Execute `a_auth`: check the credential pair against the config
    /// database, and on success become that local principal.
    fn do_a_auth(&mut self, server: &Server, entries: &Vec<Entry>) -> (r: Result<
        Option<JsonValue>,
        String,
    >)
        ensures
            match r {
                Ok(o) => {
                    &&& s_str(JsonData::Obj(pairs_view(entries@)), "id"@) matches Some(id)
                    &&& s_str(JsonData::Obj(pairs_view(entries@)), "token"@) is Some
                    &&& spec_read_allowed(server.config().perms(), "a_users"@, server.admin())
                    &&& server.config().database@.contains_key("a_users"@)
                    &&& o matches Some(v)
                    &&& match spec_local_auth(
                        server.config().database@["a_users"@],
                        id,
                        s_str(JsonData::Obj(pairs_view(entries@)), "token"@)->0,
                    ) {
                        AuthOutcome::Granted => {
                            &&& final(self).user_profile.is_authed
                            &&& final(self).user_profile.name@ == id
                            &&& final(self).user_profile.domain@ == "a_auth"@
                            &&& v@ == JsonData::Obj(
                                with_uid(
                                    JsonData::Obj(pairs_view(entries@)),
                                    ok_reply("a_auth"@, "success"@),
                                ),
                            )
                        },
                        AuthOutcome::NoUser => *final(self) == *old(self) && v@ == JsonData::Obj(
                            with_uid(
                                JsonData::Obj(pairs_view(entries@)),
                                ok_reply("a_auth"@, "Failed, a_user not found"@),
                            ),
                        ),
                        AuthOutcome::BadToken => *final(self) == *old(self) && v@ == JsonData::Obj(
                            with_uid(
                                JsonData::Obj(pairs_view(entries@)),
                                ok_reply("a_auth"@, "Failed, token incorrect"@),
                            ),
                        ),
                        AuthOutcome::Malformed => false,
                    }
                },
                Err(_) => *final(self) == *old(self) && {
                    ||| s_str(JsonData::Obj(pairs_view(entries@)), "id"@) is None
                    ||| s_str(JsonData::Obj(pairs_view(entries@)), "token"@) is None
                    ||| !(spec_read_allowed(server.config().perms(), "a_users"@, server.admin())
                        && server.config().database@.contains_key("a_users"@))
                    ||| spec_local_auth(
                        server.config().database@["a_users"@],
                        s_str(JsonData::Obj(pairs_view(entries@)), "id"@)->0,
                        s_str(JsonData::Obj(pairs_view(entries@)), "token"@)->0,
                    ) is Malformed
                },
            },
    {
        let id = match extract_string(entries, "id") {
            Ok(s) => s,
            Err(e) => {
                return Err(e);
            },
        };
        let token = match extract_string(entries, "token") {
            Ok(s) => s,
            Err(e) => {
                return Err(e);
            },
        };
        let outcome = match server.check_a_auth(id.as_str(), token.as_str()) {
            Ok(p) => p,
            Err(e) => {
                return Err(e);
            },
        };
        if outcome.0 {
            self.user_profile.is_authed = true;
            self.user_profile.domain = "a_auth".to_owned();
            self.user_profile.name = id;
        }
        let mut reply = base_reply("a_auth", outcome.1.as_str());
        add_unique_id(&mut reply, entries);
        Ok(Some(JsonValue::Object(reply)))
    }

    /// Execute `g_auth`: the external identity verifier's outcome is
    /// handed in by the host; on a verified subject, become that external
    /// principal.  A rejected token still replies with mode `ok` and
    /// message `error`.
    fn do_g_auth(
        &mut self,
        entries: &Vec<Entry>,
        external_identity: Result<Option<String>, String>,
    ) -> (r: Result<Option<JsonValue>, String>)
        ensures
            match r {
                Ok(o) => {
                    &&& s_str(JsonData::Obj(pairs_view(entries@)), "id_token"@) is Some
                    &&& o matches Some(v)
                    &&& match external_identity {
                        Ok(Some(subject)) => {
                            &&& final(self).user_profile.is_authed
                            &&& final(self).user_profile.name@ == subject@
                            &&& final(self).user_profile.domain@ == "g_auth"@
                            &&& v@ == JsonData::Obj(
                                with_uid(
                                    JsonData::Obj(pairs_view(entries@)),
                                    ok_reply("g_auth"@, "success"@),
                                ),
                            )
                        },
                        Ok(None) => *final(self) == *old(self) && v@ == JsonData::Obj(
                            with_uid(
                                JsonData::Obj(pairs_view(entries@)),
                                ok_reply("g_auth"@, "error"@),
                            ),
                        ),
                        Err(_) => false,
                    }
                },
                Err(_) => *final(self) == *old(self) && (s_str(
                    JsonData::Obj(pairs_view(entries@)),
                    "id_token"@,
                ) is None || external_identity is Err),
            },
    {
        let _ = match extract_string(entries, "id_token") {
            Ok(s) => s,
            Err(e) => {
                return Err(e);
            },
        };
        match external_identity {
            Ok(Some(subject)) => {
                self.user_profile.is_authed = true;
                self.user_profile.domain = "g_auth".to_owned();
                self.user_profile.name = subject;
                let mut reply = base_reply("g_auth", "success");
                add_unique_id(&mut reply, entries);
                Ok(Some(JsonValue::Object(reply)))
            },
            Ok(None) => {
                let mut reply = base_reply("g_auth", "error");
                add_unique_id(&mut reply, entries);
                Ok(Some(JsonValue::Object(reply)))
            },
            Err(e) => Err(e),
        }
    }
}

/// A reply value carries the command's `unique_id`: when the command
/// names one, the reply is an object and looking the key up in it finds
/// exactly the command's value.
pub open spec fn echoes_unique_id(d: JsonData, v: JsonData) -> bool {
    match sfield(d, "unique_id"@) {
        Some(u) => v matches JsonData::Obj(re) && obj_lookup(re, "unique_id"@) == Some(u),
        None => true,
    }
}

/// None of the fields a reply opens with is named `unique_id`.
proof fn lemma_reply_keys_not_uid()
    ensures
        "cmd"@ != "unique_id"@,
        "mode"@ != "unique_id"@,
        "msg"@ != "unique_id"@,
        "key"@ != "unique_id"@,
        "db_key"@ != "unique_id"@,
        "index"@ != "unique_id"@,
        "val"@ != "unique_id"@,
        "next"@ != "unique_id"@,
        "length"@ != "unique_id"@,
{
    reveal_strlit("cmd");
    reveal_strlit("mode");
    reveal_strlit("msg");
    reveal_strlit("key");
    reveal_strlit("db_key");
    reveal_strlit("index");
    reveal_strlit("val");
    reveal_strlit("next");
    reveal_strlit("length");
    reveal_strlit("unique_id");
    assert("unique_id"@.len() == 9);
    assert("cmd"@.len() == 3);
    assert("mode"@.len() == 4);
    assert("msg"@.len() == 3);
    assert("key"@.len() == 3);
    assert("db_key"@.len() == 6);
    assert("index"@.len() == 5);
    assert("val"@.len() == 3);
    assert("next"@.len() == 4);
    assert("length"@.len() == 6);
}

/// A reply built of the standard opening fields and further fields none
/// of which is named `unique_id` echoes the command's `unique_id`.
proof fn lemma_echo_with_fields(
    d: JsonData,
    tag: Seq<char>,
    msg: Seq<char>,
    fields: Seq<(Seq<char>, JsonData)>,
)
    requires
        forall|i: int| 0 <= i < fields.len() ==> #[trigger] fields[i].0 != "unique_id"@,
    ensures
        echoes_unique_id(d, JsonData::Obj(with_uid(d, ok_reply(tag, msg) + fields))),
{
    lemma_reply_keys_not_uid();
    let base = ok_reply(tag, msg) + fields;
    assert forall|i: int| 0 <= i < base.len() implies #[trigger] base[i].0 != "unique_id"@ by {
        if i < 3 {
            assert(base[i] == ok_reply(tag, msg)[i]);
            if i == 0 {
            } else if i == 1 {
            } else {
            }
        } else {
            assert(base[i] == fields[i - 3]);
        }
    }
    lemma_unique_id_echo(d, base);
}

/// Every non-suppressed reply echoes the command's `unique_id`: when the
/// command carries one and the reply's base fields do not bind the key
/// themselves, looking the key up in the finished reply finds exactly the
/// command's value.
pub proof fn lemma_unique_id_echo(d: JsonData, base: Seq<(Seq<char>, JsonData)>)
    requires
        forall|i: int| 0 <= i < base.len() ==> #[trigger] base[i].0 != "unique_id"@,
    ensures
        match sfield(d, "unique_id"@) {
            Some(u) => obj_lookup(with_uid(d, base), "unique_id"@) == Some(u),
            None => with_uid(d, base) == base,
        },
{
    match sfield(d, "unique_id"@) {
        Some(u) => {
            lemma_lookup_pushed(base, "unique_id"@, u);
        },
        None => {},
    }
}

/// Looking up a key that a list does not bind, after pushing a binding
/// for it, finds the pushed value.
proof fn lemma_lookup_pushed(base: Seq<(Seq<char>, JsonData)>, k: Seq<char>, u: JsonData)
    requires
        forall|i: int| 0 <= i < base.len() ==> #[trigger] base[i].0 != k,
    ensures
        obj_lookup(base.push((k, u)), k) == Some(u),
    decreases base.len(),
{
    if base.len() == 0 {
        assert(base.push((k, u))[0] == (k, u));
    } else {
        assert(base.push((k, u))[0] == base[0]);
        lemma_lookup_pushed(base.drop_first(), k, u);
        assert(base.push((k, u)).drop_first() =~= base.drop_first().push((k, u)));
    }
}

/// Looking up `val` in a reply whose first five fields are the standard
/// ones finds the fifth field's value.
proof fn lemma_reply_val_lookup(re: Seq<(Seq<char>, JsonData)>)
    requires
        re.len() >= 5,
        re[0].0 == "cmd"@,
        re[1].0 == "mode"@,
        re[2].0 == "msg"@,
        re[3].0 == "db_key"@,
        re[4].0 == "val"@,
    ensures
        obj_lookup(re, "val"@) == Some(re[4].1),
{
    broadcast use vstd::string::group_string_axioms;

    reveal_strlit("cmd");
    reveal_strlit("mode");
    reveal_strlit("msg");
    reveal_strlit("db_key");
    reveal_strlit("val");
    assert("cmd"@ != "val"@) by {
        assert("cmd"@[0] == 'c');
        assert("val"@[0] == 'v');
    }
    assert("mode"@ != "val"@) by {
        assert("mode"@[0] == 'm');
        assert("val"@[0] == 'v');
    }
    assert("msg"@ != "val"@) by {
        assert("msg"@.len() == 3);
        assert("val"@[0] == 'v');
        assert("msg"@[0] == 'm');
    }
    assert("db_key"@ != "val"@) by {
        assert("db_key"@[0] == 'd');
        assert("val"@[0] == 'v');
    }
    let r1 = re.drop_first();
    let r2 = r1.drop_first();
    let r3 = r2.drop_first();
    let r4 = r3.drop_first();
    assert(r4[0] == re[4]);
    assert(obj_lookup(re, "val"@) == obj_lookup(r1, "val"@));
    assert(obj_lookup(r1, "val"@) == obj_lookup(r2, "val"@));
    assert(obj_lookup(r2, "val"@) == obj_lookup(r3, "val"@));
    assert(obj_lookup(r3, "val"@) == obj_lookup(r4, "val"@));
    assert(obj_lookup(r4, "val"@) == Some(r4[0].1));
}

/// Extract a string field from a command payload.
fn extract_string(entries: &Vec<Entry>, key: &str) -> (r: Result<String, String>)
    ensures
        match r {
            Ok(s) => s_str(JsonData::Obj(pairs_view(entries@)), key@) == Some(s@),
            Err(_) => s_str(JsonData::Obj(pairs_view(entries@)), key@) is None,
        },
{
    match obj_get(entries, key) {
        Some(JsonValue::Str(s)) => Ok(s.clone()),
        Some(_) => Err("field is not a string".to_owned()),
        None => Err("field is not present".to_owned()),
    }
}

/// Extract an unsigned number field from a command payload; it must fit
/// the machine's word.
fn extract_number(entries: &Vec<Entry>, key: &str) -> (r: Result<usize, String>)
    ensures
        match r {
            Ok(n) => s_num(JsonData::Obj(pairs_view(entries@)), key@) == Some(n as u64),
            Err(_) => match s_num(JsonData::Obj(pairs_view(entries@)), key@) {
                Some(u) => u > usize::MAX,
                None => true,
            },
        },
{
    match obj_get(entries, key) {
        Some(JsonValue::Num(Number::Unsigned(u))) => {
            let u = *u;
            if u <= usize::MAX as u64 {
                Ok(u as usize)
            } else {
                Err("field is out of range".to_owned())
            }
        },
        Some(_) => Err("field is not an unsigned number".to_owned()),
        None => Err("field is not present".to_owned()),
    }
}

/// Append one field to a reply object under construction.
pub(crate) fn push_field(entries: &mut Vec<Entry>, key: &str, value: JsonValue)
    ensures
        pairs_view(final(entries)@) == pairs_view(old(entries)@).push((key@, value@)),
{
    let ghost prev = entries@;
    let ghost gv = value@;
    entries.push(Entry { key: key.to_owned(), value });
    proof {
        lemma_pairs_view_push(prev, entries@.last());
        assert(entries@ == prev.push(entries@.last()));
        assert(entries@.last().key@ == key@);
        assert(entries@.last().value@ == gv);
    }
}

/// The three fields every reply opens with: the command's tag, `ok`, and
/// a message.
fn base_reply(tag: &str, msg: &str) -> (r: Vec<Entry>)
    ensures
        pairs_view(r@) == ok_reply(tag@, msg@),
{
    let mut v: Vec<Entry> = Vec::new();
    proof {
        assert(pairs_view(v@) =~= Seq::<(Seq<char>, JsonData)>::empty());
    }
    push_field(&mut v, "cmd", JsonValue::Str(tag.to_owned()));
    push_field(&mut v, "mode", JsonValue::Str("ok".to_owned()));
    push_field(&mut v, "msg", JsonValue::Str(msg.to_owned()));
    proof {
        assert(pairs_view(v@) =~= ok_reply(tag@, msg@));
    }
    v
}

/// Echo the command's `unique_id` into the reply, when one was given.
fn add_unique_id(reply: &mut Vec<Entry>, data: &Vec<Entry>)
    ensures
        pairs_view(final(reply)@) == with_uid(
            JsonData::Obj(pairs_view(data@)),
            pairs_view(old(reply)@),
        ),
{
    match obj_get(data, "unique_id") {
        Some(u) => {
            let uc = u.clone();
            push_field(reply, "unique_id", uc);
        },
        None => {},
    }
}

} // verus!
