//! The gated face of a database: every operation checks the per-key
//! permission record against the calling principal before it touches the
//! store.  A write to a key that has no permission record yet registers
//! the default record (`any` everywhere) and proceeds; no other operation
//! creates records.

use vstd::prelude::*;

use chashmap::CHashMap;

use crate::database::Database;
use crate::json::{JsonData, JsonValue};
use crate::permissions::{spec_check, Permission, UserAuthentication};
use crate::shared_map::{perm_map_get, perm_map_insert, perm_map_new, perm_map_view};

verus! {

/// The default permission record: `any` in all four sets.
pub open spec fn is_default_perm(p: Permission) -> bool {
    &&& p.read_a_users@.len() == 1 && p.read_a_users@[0]@ == "any"@
    &&& p.read_g_users@.len() == 1 && p.read_g_users@[0]@ == "any"@
    &&& p.write_a_users@.len() == 1 && p.write_a_users@[0]@ == "any"@
    &&& p.write_g_users@.len() == 1 && p.write_g_users@[0]@ == "any"@
}

/// Whether `user` may read the key, under the permission table `perms`:
/// the key must have a record, and the record must admit the user.
pub open spec fn spec_read_allowed(
    perms: Map<Seq<char>, Permission>,
    key: Seq<char>,
    user: UserAuthentication,
) -> bool {
    perms.contains_key(key) && spec_check(
        perms[key].read_a_users@,
        perms[key].read_g_users@,
        user.is_authed,
        user.name@,
        user.domain@,
    ) == Some(true)
}

/// Whether `user` may write to the key: with `add_new`, a key without a
/// record is admitted (the default record is registered on the way).
pub open spec fn spec_write_allowed(
    perms: Map<Seq<char>, Permission>,
    key: Seq<char>,
    user: UserAuthentication,
    add_new: bool,
) -> bool {
    if perms.contains_key(key) {
        spec_check(
            perms[key].write_a_users@,
            perms[key].write_g_users@,
            user.is_authed,
            user.name@,
            user.domain@,
        ) == Some(true)
    } else {
        add_new
    }
}

/// Database interface: a store together with its permission table.
#[derive(Debug)]
pub struct DatabaseInterface {
    pub database: Database,
    pub permissions: CHashMap<String, Permission>,
}

impl DatabaseInterface {
    /// The permission table's contents.
    pub open spec fn perms(&self) -> Map<Seq<char>, Permission> {
        perm_map_view(self.permissions)
    }

    /// Generate a new database interface from a database and a set of
    /// permissions.
    pub fn new(database: Database, permissions: CHashMap<String, Permission>) -> (r: Self)
        ensures
            r.database == database,
            r.perms() == perm_map_view(permissions),
    {
        Self { database, permissions }
    }

    /// Verify that a user can read from a key.
    fn check_read(&self, key: &str, user: &UserAuthentication) -> (r: Result<(), String>)
        ensures
            r is Ok <==> spec_read_allowed(self.perms(), key@, *user),
    {
        match perm_map_get(&self.permissions, key) {
            Some(p) => {
                match p.check_user_read(user) {
                    Ok(true) => Ok(()),
                    Ok(false) => Err("user not authenticated".to_owned()),
                    Err(e) => Err(e),
                }
            },
            None => Err("key does not have permissions".to_owned()),
        }
    }

    /// Verify that a user can write to a key, registering the default
    /// record when the key has none and `add_new_permission` is set.
    fn check_write(&mut self, key: &str, user: &UserAuthentication, add_new_permission: bool) -> (r:
        Result<(), String>)
        ensures
            final(self).database == old(self).database,
            r is Ok <==> spec_write_allowed(old(self).perms(), key@, *user, add_new_permission),
            r is Err ==> *final(self) == *old(self),
            old(self).perms().contains_key(key@) ==> *final(self) == *old(self),
            r is Ok ==> {
                &&& old(self).perms().contains_key(key@) ==> final(self).perms() == old(
                    self,
                ).perms()
                &&& !old(self).perms().contains_key(key@) ==> final(self).perms() == old(
                    self,
                ).perms().insert(key@, final(self).perms()[key@]) && is_default_perm(
                    final(self).perms()[key@],
                )
            },
    {
        match perm_map_get(&self.permissions, key) {
            Some(p) => {
                match p.check_user_write(user) {
                    Ok(true) => Ok(()),
                    Ok(false) => Err("user not authenticated".to_owned()),
                    Err(e) => Err(e),
                }
            },
            None => {
                if !add_new_permission {
                    Err("key does not have permissions".to_owned())
                } else {
                    self.register_new_permission(key)
                }
            },
        }
    }

    /// Register the default permission record for a key.
    fn register_new_permission(&mut self, name: &str) -> (r: Result<(), String>)
        ensures
            final(self).database == old(self).database,
            r is Ok,
            final(self).perms() == old(self).perms().insert(name@, final(self).perms()[name@]),
            is_default_perm(final(self).perms()[name@]),
    {
        perm_map_insert(&mut self.permissions, name.to_owned(), Permission::default());
        Ok(())
    }

    /// Write to a key in the database.
    pub fn write_to_key(&mut self, key: &str, data: JsonValue, user: &UserAuthentication) -> (r: Result<
        (),
        String,
    >)
        ensures
            final(self).database.spec_name() == old(self).database.spec_name(),
            match r {
                Ok(_) => {
                    &&& spec_write_allowed(old(self).perms(), key@, *user, true)
                    &&& final(self).database@ == old(self).database@.insert(key@, data@)
                    &&& old(self).perms().contains_key(key@) ==> final(self).perms() == old(
                        self,
                    ).perms()
                    &&& !old(self).perms().contains_key(key@) ==> final(self).perms() == old(
                        self,
                    ).perms().insert(key@, final(self).perms()[key@]) && is_default_perm(
                        final(self).perms()[key@],
                    )
                },
                Err(_) => {
                    &&& !spec_write_allowed(old(self).perms(), key@, *user, true)
                    &&& *final(self) == *old(self)
                },
            },
    {
        match self.check_write(key, user, true) {
            Ok(_) => {
                match self.database.write(key, data) {
                    Ok(_) => Ok(()),
                    Err(e) => Err(e),
                }
            },
            Err(e) => Err(e),
        }
    }

    /// Read from a key in the database.
    pub fn read_from_key(&self, key: &str, user: &UserAuthentication) -> (r: Result<JsonValue, String>)
        ensures
            match r {
                Ok(v) => {
                    &&& spec_read_allowed(self.perms(), key@, *user)
                    &&& self.database@.contains_key(key@)
                    &&& v@ == self.database@[key@]
                },
                Err(_) => !spec_read_allowed(self.perms(), key@, *user)
                    || !self.database@.contains_key(key@),
            },
    {
        match self.check_read(key, user) {
            Ok(_) => self.database.read(key),
            Err(e) => Err(e),
        }
    }

    /// Write to an index in an array under a key in the database.
    pub fn write_to_key_index(
        &mut self,
        key: &str,
        index: usize,
        data: JsonValue,
        user: &UserAuthentication,
    ) -> (r: Result<(), String>)
        ensures
            final(self).database.spec_name() == old(self).database.spec_name(),
            final(self).perms() == old(self).perms(),
            match r {
                Ok(_) => {
                    &&& spec_write_allowed(old(self).perms(), key@, *user, false)
                    &&& crate::database::has_array(old(self).database@, key@)
                    &&& final(self).database@ == old(self).database@.insert(
                        key@,
                        JsonData::Arr(
                            crate::database::padded_update(
                                crate::database::array_at(old(self).database@, key@),
                                index as int,
                                data@,
                            ),
                        ),
                    )
                },
                Err(_) => {
                    &&& *final(self) == *old(self)
                    &&& !(spec_write_allowed(old(self).perms(), key@, *user, false)
                        && crate::database::has_array(old(self).database@, key@))
                },
            },
    {
        match self.check_write(key, user, false) {
            Ok(_) => self.database.write_index(key, index, data),
            Err(e) => Err(e),
        }
    }

    /// Read from an index in an array under a key in the database.
    pub fn read_from_key_index(&self, key: &str, index: usize, user: &UserAuthentication) -> (r:
        Result<JsonValue, String>)
        ensures
            match r {
                Ok(v) => {
                    &&& spec_read_allowed(self.perms(), key@, *user)
                    &&& crate::database::has_array(self.database@, key@)
                    &&& index < crate::database::array_at(self.database@, key@).len()
                    &&& v@ == crate::database::array_at(self.database@, key@)[index as int]
                },
                Err(_) => !(spec_read_allowed(self.perms(), key@, *user)
                    && crate::database::has_array(self.database@, key@) && index
                    < crate::database::array_at(self.database@, key@).len()),
            },
    {
        match self.check_read(key, user) {
            Ok(_) => self.database.read_index(key, index),
            Err(e) => Err(e),
        }
    }

    /// Append to an array under a key in the database; returns the new
    /// value's index, the array's old length.
    pub fn append_to_key(&mut self, key: &str, data: JsonValue, user: &UserAuthentication) -> (r:
        Result<usize, String>)
        ensures
            final(self).database.spec_name() == old(self).database.spec_name(),
            final(self).perms() == old(self).perms(),
            match r {
                Ok(n) => {
                    &&& spec_write_allowed(old(self).perms(), key@, *user, false)
                    &&& crate::database::has_array(old(self).database@, key@)
                    &&& n == crate::database::array_at(old(self).database@, key@).len()
                    &&& final(self).database@ == old(self).database@.insert(
                        key@,
                        JsonData::Arr(
                            crate::database::array_at(old(self).database@, key@).push(data@),
                        ),
                    )
                },
                Err(_) => {
                    &&& *final(self) == *old(self)
                    &&& !(spec_write_allowed(old(self).perms(), key@, *user, false)
                        && crate::database::has_array(old(self).database@, key@))
                },
            },
    {
        match self.check_write(key, user, false) {
            Ok(_) => self.database.append(key, data),
            Err(e) => Err(e),
        }
    }

    /// The length of an array under a key in the database.
    pub fn get_length_from_key(&self, key: &str, user: &UserAuthentication) -> (r: Result<
        usize,
        String,
    >)
        ensures
            match r {
                Ok(n) => {
                    &&& spec_read_allowed(self.perms(), key@, *user)
                    &&& crate::database::has_array(self.database@, key@)
                    &&& n == crate::database::array_at(self.database@, key@).len()
                },
                Err(_) => !(spec_read_allowed(self.perms(), key@, *user)
                    && crate::database::has_array(self.database@, key@)),
            },
    {
        match self.check_read(key, user) {
            Ok(_) => self.database.get_length(key),
            Err(e) => Err(e),
        }
    }

    /// The last `n` values of an array under a key, in array order.
    pub fn read_last_n_from_key(&self, key: &str, n: usize, user: &UserAuthentication) -> (r:
        Result<JsonValue, String>)
        ensures
            match r {
                Ok(v) => {
                    &&& spec_read_allowed(self.perms(), key@, *user)
                    &&& crate::database::has_array(self.database@, key@)
                    &&& v@ == JsonData::Arr(
                        crate::database::last_n_of(
                            crate::database::array_at(self.database@, key@),
                            n as int,
                        ),
                    )
                },
                Err(_) => !(spec_read_allowed(self.perms(), key@, *user)
                    && crate::database::has_array(self.database@, key@)),
            },
    {
        match self.check_read(key, user) {
            Ok(_) => self.database.get_last_n(key, n),
            Err(e) => Err(e),
        }
    }
}

} // verus!
