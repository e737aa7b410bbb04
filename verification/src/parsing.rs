//! The disk codec's logic: a persisted database is a manifest value
//! naming its key, its version and its item keys, plus one item value per
//! key.  The host reads and writes the files; this module checks and
//! builds the values.

use vstd::prelude::*;

use crate::database::Database;
use crate::interface::DatabaseInterface;
use crate::json::{obj_get, pairs_view, seq_view, str_eq, Entry, JsonData, JsonValue};
use crate::permissions::{spec_parse_permission, strings_view, Permission};
use crate::session::{push_field, s_str, sfield};
use crate::shared_map::{
    perm_map_insert, perm_map_new, perm_map_view, value_map_insert, value_map_new, value_map_view,
};

verus! {

/// The version string this build stamps into manifests.
pub open spec fn spec_build_version() -> Seq<char> {
    "0.1.0"@
}

/// The version string this build stamps into manifests.
pub fn build_version() -> (r: String)
    ensures
        r@ == spec_build_version(),
{
    "0.1.0".to_owned()
}

/// Whether a stored version may be loaded alongside this build: only this
/// build's own version is in the compatibility set.
pub open spec fn spec_version_compatible(v: Seq<char>) -> bool {
    v == spec_build_version()
}

/// Whether the version gate admits a manifest: a different version passes
/// only when it is in the compatibility set or everything is allowed, and
/// never under the strict flag.
pub open spec fn spec_version_admitted(ver: Seq<char>, mismatch: bool, allow_all: bool) -> bool {
    if ver != spec_build_version() {
        !((!allow_all && !spec_version_compatible(ver)) || mismatch)
    } else {
        true
    }
}

/// A well-formed manifest: `dbKey` and `ver` strings and a `keys` array
/// of strings.
pub open spec fn spec_manifest_ok(d: JsonData) -> bool {
    &&& s_str(d, "dbKey"@) is Some
    &&& s_str(d, "ver"@) is Some
    &&& sfield(d, "keys"@) matches Some(JsonData::Arr(items))
    &&& forall|i: int| 0 <= i < items.len() ==> #[trigger] items[i] is Str
}

/// The item keys of a manifest.
pub open spec fn spec_manifest_keys(d: JsonData) -> Seq<Seq<char>>
    recommends
        spec_manifest_ok(d),
{
    match sfield(d, "keys"@) {
        Some(JsonData::Arr(items)) => Seq::new(items.len(), |i: int| items[i]->Str_0),
        _ => Seq::empty(),
    }
}

/// Parse a database manifest.  The key stored in the file wins over the
/// requested name; a version outside the admitted set fails the load.
#[verifier::loop_isolation(false)]
pub fn parse_manifest(v: &JsonValue, name: &str, mismatch: bool, allow_all: bool) -> (r: Result<
    (String, Vec<String>),
    String,
>)
    ensures
        match r {
            Ok(p) => {
                &&& spec_manifest_ok(v@)
                &&& spec_version_admitted(s_str(v@, "ver"@)->0, mismatch, allow_all)
                &&& Some(p.0@) == s_str(v@, "dbKey"@)
                &&& strings_view(p.1@) == spec_manifest_keys(v@)
            },
            Err(_) => !(spec_manifest_ok(v@) && spec_version_admitted(
                s_str(v@, "ver"@)->0,
                mismatch,
                allow_all,
            )),
        },
{
    let _ = name;
    let entries = match v {
        JsonValue::Object(entries) => entries,
        _ => {
            return Err("database file data is not an object".to_owned());
        },
    };
    let db_key = match obj_get(entries, "dbKey") {
        Some(JsonValue::Str(s)) => s.clone(),
        _ => {
            return Err("database file does not hold a dbKey string".to_owned());
        },
    };
    let ver = match obj_get(entries, "ver") {
        Some(JsonValue::Str(s)) => s.clone(),
        _ => {
            return Err("database file does not hold a ver string".to_owned());
        },
    };
    let items = match obj_get(entries, "keys") {
        Some(JsonValue::Array(items)) => items,
        _ => {
            return Err("keys entry in database file is not an array".to_owned());
        },
    };
    if !str_eq(ver.as_str(), build_version().as_str()) {
        let compatible = str_eq(ver.as_str(), build_version().as_str());
        if (!allow_all && !compatible) || mismatch {
            return Err("database version is not compatible with the current version".to_owned());
        }
    }
    let ghost iv = seq_view(items@);
    proof {
        crate::json::lemma_seq_view_len(items@);
    }
    let mut keys: Vec<String> = Vec::new();
    let mut i: usize = 0;
    while i < items.len()
        invariant
            i <= items@.len(),
            iv == seq_view(items@),
            iv.len() == items@.len(),
            keys@.len() == i,
            forall|j: int| 0 <= j < i ==> #[trigger] iv[j] is Str,
            forall|j: int| #![trigger keys@[j]] 0 <= j < i ==> keys@[j]@ == iv[j]->Str_0,
        decreases items@.len() - i,
    {
        proof {
            crate::json::lemma_seq_view_index(items@, i as int);
        }
        match &items[i] {
            JsonValue::Str(s) => {
                keys.push(s.clone());
            },
            _ => {
                proof {
                    assert(!(iv[i as int] is Str));
                    assert(!spec_manifest_ok(v@));
                }
                return Err("key entry in database file is not a string".to_owned());
            },
        }
        i += 1;
    }
    proof {
        assert(strings_view(keys@) =~= spec_manifest_keys(JsonData::Obj(pairs_view(entries@))));
    }
    Ok((db_key, keys))
}

/// A well-formed item value: an object holding a string `key`, a `value`
/// and a parseable `permissions` object.
pub open spec fn spec_item_ok(d: JsonData) -> bool {
    &&& s_str(d, "key"@) is Some
    &&& sfield(d, "value"@) is Some
    &&& sfield(d, "permissions"@) matches Some(p) && spec_parse_permission(p) is Some
}

/// Build a database interface from its name and its parsed item values.
/// The key stored inside each item wins over the key the item file was
/// named by.  A malformed item fails the load.
#[verifier::loop_isolation(false)]
#[verifier::rlimit(80)]
pub fn build_database(db_key: &str, items: Vec<JsonValue>) -> (r: Result<DatabaseInterface, String>)
    ensures
        match r {
            Ok(di) => {
                &&& forall|i: int| 0 <= i < items@.len() ==> #[trigger] spec_item_ok(items@[i]@)
                &&& di.database.spec_name() == db_key@
                &&& forall|i: int| #![trigger items@[i]] 0 <= i < items@.len()
                    ==> di.database@.contains_key(s_str(items@[i]@, "key"@)->0)
                    && di.perms().contains_key(s_str(items@[i]@, "key"@)->0)
                &&& forall|i: int|
                    #![trigger items@[i]]
                    0 <= i < items@.len() && (forall|j: int|
                        i < j < items@.len() ==> s_str(#[trigger] items@[j]@, "key"@) != s_str(
                            items@[i]@,
                            "key"@,
                        )) ==> {
                        &&& di.database@[s_str(items@[i]@, "key"@)->0] == sfield(
                            items@[i]@,
                            "value"@,
                        )->0
                        &&& di.perms()[s_str(items@[i]@, "key"@)->0].spec_lists()
                            == spec_parse_permission(sfield(items@[i]@, "permissions"@)->0)->0
                    }
            },
            Err(_) => exists|i: int| 0 <= i < items@.len() && !#[trigger] spec_item_ok(
                items@[i]@,
            ),
        },
{
    let mut data = value_map_new();
    let mut perms = perm_map_new();
    let n = items.len();
    let mut i: usize = 0;
    while i < n
        invariant
            i <= n,
            value_map_view(data).dom().finite(),
            forall|j: int| 0 <= j < i ==> #[trigger] spec_item_ok(items@[j]@),
            forall|j: int| #![trigger items@[j]] 0 <= j < i ==> value_map_view(data).contains_key(
                s_str(items@[j]@, "key"@)->0,
            ) && perm_map_view(perms).contains_key(s_str(items@[j]@, "key"@)->0),
            forall|j: int|
                #![trigger items@[j]]
                0 <= j < i && (forall|k: int|
                    j < k < i ==> s_str(#[trigger] items@[k]@, "key"@) != s_str(
                        items@[j]@,
                        "key"@,
                    )) ==> {
                    &&& value_map_view(data)[s_str(items@[j]@, "key"@)->0]@ == sfield(
                        items@[j]@,
                        "value"@,
                    )->0
                    &&& perm_map_view(perms)[s_str(items@[j]@, "key"@)->0].spec_lists()
                        == spec_parse_permission(sfield(items@[j]@, "permissions"@)->0)->0
                },
        decreases n - i,
    {
        let entries = match &items[i] {
            JsonValue::Object(entries) => entries,
            _ => {
                proof {
                    assert(!spec_item_ok(items@[i as int]@));
                }
                return Err("key entry data is not an object".to_owned());
            },
        };
        let found_key = match obj_get(entries, "key") {
            Some(JsonValue::Str(s)) => s.clone(),
            _ => {
                proof {
                    assert(!spec_item_ok(items@[i as int]@));
                }
                return Err("item does not hold a key string".to_owned());
            },
        };
        let value = match obj_get(entries, "value") {
            Some(v) => v.clone(),
            None => {
                proof {
                    assert(!spec_item_ok(items@[i as int]@));
                }
                return Err("item does not hold a value".to_owned());
            },
        };
        let perm_value = match obj_get(entries, "permissions") {
            Some(v) => v,
            None => {
                proof {
                    assert(!spec_item_ok(items@[i as int]@));
                }
                return Err("item does not hold permissions".to_owned());
            },
        };
        let perm = match Permission::new(perm_value, found_key.as_str()) {
            Ok(p) => p,
            Err(e) => {
                proof {
                    assert(!spec_item_ok(items@[i as int]@));
                }
                return Err(e);
            },
        };
        let ghost ki = found_key@;
        let ghost vmap0 = value_map_view(data);
        let ghost pmap0 = perm_map_view(perms);
        value_map_insert(&mut data, found_key.clone(), value);
        perm_map_insert(&mut perms, found_key, perm);
        proof {
            let di = i as int;
            assert(spec_item_ok(items@[di]@));
            assert(s_str(items@[di]@, "key"@) == Some(ki));
            assert forall|j: int|
                #![trigger items@[j]]
                0 <= j < di + 1 && (forall|k: int|
                    j < k < di + 1 ==> s_str(#[trigger] items@[k]@, "key"@) != s_str(
                        items@[j]@,
                        "key"@,
                    )) implies {
                &&& value_map_view(data)[s_str(items@[j]@, "key"@)->0]@ == sfield(
                    items@[j]@,
                    "value"@,
                )->0
                &&& perm_map_view(perms)[s_str(items@[j]@, "key"@)->0].spec_lists()
                    == spec_parse_permission(sfield(items@[j]@, "permissions"@)->0)->0
            } by {
                if j == di {
                } else {
                    assert(s_str(items@[di]@, "key"@) != s_str(items@[j]@, "key"@));
                    assert(spec_item_ok(items@[j]@));
                    assert(s_str(items@[j]@, "key"@) matches Some(kj) && kj != ki);
                    assert(value_map_view(data)[s_str(items@[j]@, "key"@)->0] == vmap0[s_str(
                        items@[j]@,
                        "key"@,
                    )->0]);
                    assert(perm_map_view(perms)[s_str(items@[j]@, "key"@)->0] == pmap0[s_str(
                        items@[j]@,
                        "key"@,
                    )->0]);
                }
            }
        }
        i += 1;
    }
    let db = Database::create(db_key, data);
    proof {
        assert forall|j: int| #![trigger items@[j]] 0 <= j < n implies db@.contains_key(
            s_str(items@[j]@, "key"@)->0,
        ) by {
            assert(value_map_view(data).contains_key(s_str(items@[j]@, "key"@)->0));
        }
        assert forall|j: int|
            #![trigger items@[j]]
            0 <= j < n && (forall|k: int|
                j < k < n ==> s_str(#[trigger] items@[k]@, "key"@) != s_str(
                    items@[j]@,
                    "key"@,
                )) implies db@[s_str(items@[j]@, "key"@)->0] == sfield(
            items@[j]@,
            "value"@,
        )->0 by {
            assert(value_map_view(data)[s_str(items@[j]@, "key"@)->0]@ == sfield(
                items@[j]@,
                "value"@,
            )->0);
        }
    }
    Ok(DatabaseInterface::new(db, perms))
}

/// The `type` label an item file carries: a hint, not a type system.
pub open spec fn spec_type_label(v: JsonData) -> Seq<char> {
    match v {
        JsonData::Arr(_) => "table"@,
        JsonData::Obj(_) => "obj"@,
        _ => "string"@,
    }
}

/// The JSON form of one item file.
pub open spec fn spec_item_json(key: Seq<char>, value: JsonData, perm: Permission) -> JsonData {
    JsonData::Obj(
        seq![
            ("key"@, JsonData::Str(key)),
            ("value"@, value),
            ("owner"@, JsonData::Str("self"@)),
            ("permissions"@, crate::permissions::spec_perm_json(perm)),
            ("subs"@, JsonData::Arr(Seq::empty())),
            ("type"@, JsonData::Str(spec_type_label(value))),
        ],
    )
}

/// Round trip of one item through its persisted form: the value built by
/// `spec_item_json` is a well-formed item, and parsing it back yields the
/// stored key, the stored value, and the stored permission lists.  With
/// `build_database`'s contract this closes the store's write-then-read
/// round trip at the level of the persisted values.
pub proof fn lemma_item_json_round_trip(key: Seq<char>, value: JsonData, perm: Permission)
    ensures
        spec_item_ok(spec_item_json(key, value, perm)),
        s_str(spec_item_json(key, value, perm), "key"@) == Some(key),
        sfield(spec_item_json(key, value, perm), "value"@) == Some(value),
        spec_parse_permission(sfield(spec_item_json(key, value, perm), "permissions"@)->0)
            == Some(perm.spec_lists()),
{
    reveal_strlit("key");
    reveal_strlit("value");
    reveal_strlit("owner");
    reveal_strlit("permissions");
    assert("key"@.len() == 3);
    assert("value"@.len() == 5);
    assert("owner"@.len() == 5);
    assert("owner"@[0] == 'o');
    assert("value"@[0] == 'v');
    assert("permissions"@.len() == 11);
    let entries = spec_item_json(key, value, perm)->Obj_0;
    assert(crate::json::obj_lookup(entries, "key"@) == Some(entries[0].1));
    let r1 = entries.drop_first();
    assert(r1[0] == entries[1]);
    assert(crate::json::obj_lookup(entries, "value"@) == crate::json::obj_lookup(r1, "value"@));
    assert(crate::json::obj_lookup(r1, "value"@) == Some(entries[1].1));
    let r2 = r1.drop_first();
    assert(r2[0] == entries[2]);
    let r3 = r2.drop_first();
    assert(r3[0] == entries[3]);
    assert(crate::json::obj_lookup(entries, "permissions"@) == crate::json::obj_lookup(
        r1,
        "permissions"@,
    ));
    assert(crate::json::obj_lookup(r1, "permissions"@) == crate::json::obj_lookup(
        r2,
        "permissions"@,
    ));
    assert(crate::json::obj_lookup(r2, "permissions"@) == crate::json::obj_lookup(
        r3,
        "permissions"@,
    ));
    assert(crate::json::obj_lookup(r3, "permissions"@) == Some(entries[3].1));
    crate::permissions::lemma_perm_json_round_trip(perm);
}

/// Produce the values the host persists for a database: the manifest and
/// one item value per key, keyed ascending.  A key without a permission
/// record fails the export.
#[verifier::loop_isolation(false)]
pub fn database_to_values(di: &DatabaseInterface) -> (r: Result<
    (JsonValue, Vec<(String, JsonValue)>),
    String,
>)
    ensures
        match r {
            Ok(p) => {
                &&& p.0@ matches JsonData::Obj(me)
                &&& me.len() == 3
                &&& me[0] == ("dbKey"@, JsonData::Str(di.database.spec_name()))
                &&& me[1] == ("ver"@, JsonData::Str(spec_build_version()))
                &&& me[2].0 == "keys"@ && crate::session::keys_json_ok(
                    me[2].1,
                    di.database@.dom(),
                )
                &&& p.1@.len() == di.database@.dom().len()
                &&& forall|i: int|
                    #![trigger p.1@[i]]
                    0 <= i < p.1@.len() ==> {
                        &&& di.database@.contains_key(p.1@[i].0@)
                        &&& di.perms().contains_key(p.1@[i].0@)
                        &&& p.1@[i].1@ == spec_item_json(
                            p.1@[i].0@,
                            di.database@[p.1@[i].0@],
                            di.perms()[p.1@[i].0@],
                        )
                    }
            },
            Err(_) => exists|k: Seq<char>|
                di.database@.dom().contains(k) && !#[trigger] di.perms().contains_key(k),
        },
{
    let keys = match di.database.get_all_keys() {
        Ok(keys) => keys,
        Err(e) => {
            return Err(e);
        },
    };
    let mut key_items: Vec<JsonValue> = Vec::new();
    let mut i: usize = 0;
    while i < keys.len()
        invariant
            i <= keys.len(),
            key_items@.len() == i,
            forall|j: int| #![trigger key_items@[j]] 0 <= j < i ==> (key_items@[j] matches
                JsonValue::Str(s) && s@ == keys@[j]@),
        decreases keys.len() - i,
    {
        key_items.push(JsonValue::Str(keys[i].clone()));
        i += 1;
    }
    let ghost dom = di.database@.dom();
    proof {
        crate::json::lemma_seq_view_len(key_items@);
        assert forall|j: int| 0 <= j < key_items@.len() implies #[trigger] seq_view(
            key_items@,
        )[j] == JsonData::Str(keys@[j]@) by {
            crate::json::lemma_seq_view_index(key_items@, j);
        }
        let iv = seq_view(key_items@);
        assert(crate::session::keys_json_ok(JsonData::Arr(iv), dom)) by {
            assert forall|j: int| #![trigger iv[j]] 0 <= j < iv.len() implies iv[j] is Str
                && dom.contains(iv[j]->Str_0) by {
                assert(iv[j] == JsonData::Str(keys@[j]@));
            }
            let strs = Seq::new(iv.len(), |j: int| iv[j]->Str_0);
            assert(strs =~= keys@.map_values(|s: String| s@));
            assert(crate::strings::strictly_sorted(strs));
        }
    }
    let mut manifest: Vec<Entry> = Vec::new();
    proof {
        assert(pairs_view(manifest@) =~= Seq::<(Seq<char>, JsonData)>::empty());
    }
    push_field(&mut manifest, "dbKey", JsonValue::Str(di.database.get_name()));
    push_field(&mut manifest, "ver", JsonValue::Str(build_version()));
    push_field(&mut manifest, "keys", JsonValue::Array(key_items));
    let mut items: Vec<(String, JsonValue)> = Vec::new();
    let mut k: usize = 0;
    while k < keys.len()
        invariant
            k <= keys.len(),
            items@.len() == k,
            forall|j: int|
                #![trigger items@[j]]
                0 <= j < k ==> {
                    &&& items@[j].0@ == keys@[j]@
                    &&& di.database@.contains_key(items@[j].0@)
                    &&& di.perms().contains_key(items@[j].0@)
                    &&& items@[j].1@ == spec_item_json(
                        items@[j].0@,
                        di.database@[items@[j].0@],
                        di.perms()[items@[j].0@],
                    )
                },
        decreases keys.len() - k,
    {
        let key = keys[k].clone();
        let perm = match crate::shared_map::perm_map_get(&di.permissions, key.as_str()) {
            Some(p) => p,
            None => {
                return Err("a key in the database has no permissions set".to_owned());
            },
        };
        let value = match di.database.read(key.as_str()) {
            Ok(v) => v,
            Err(_) => {
                proof {
                    assert(false);
                }
                return Err("a key in the database could not be read".to_owned());
            },
        };
        let type_label = match &value {
            JsonValue::Array(_) => "table",
            JsonValue::Object(_) => "obj",
            _ => "string",
        };
        let perm_json = perm.create_json();
        let mut item: Vec<Entry> = Vec::new();
        proof {
            assert(pairs_view(item@) =~= Seq::<(Seq<char>, JsonData)>::empty());
        }
        push_field(&mut item, "key", JsonValue::Str(key.clone()));
        push_field(&mut item, "value", value);
        push_field(&mut item, "owner", JsonValue::Str("self".to_owned()));
        push_field(&mut item, "permissions", perm_json);
        push_field(&mut item, "subs", JsonValue::Array(Vec::new()));
        push_field(&mut item, "type", JsonValue::Str(type_label.to_owned()));
        proof {
            assert(seq_view(Seq::<JsonValue>::empty()) =~= Seq::<JsonData>::empty());
            assert(pairs_view(item@) =~= spec_item_json(
                key@,
                di.database@[key@],
                di.perms()[key@],
            )->Obj_0);
        }
        items.push((key, JsonValue::Object(item)));
        k += 1;
    }
    proof {
        assert(pairs_view(manifest@) =~= seq![
            ("dbKey"@, JsonData::Str(di.database.spec_name())),
            ("ver"@, JsonData::Str(spec_build_version())),
            ("keys"@, JsonData::Arr(seq_view(key_items@))),
        ]);
    }
    Ok((JsonValue::Object(manifest), items))
}

} // verus!
