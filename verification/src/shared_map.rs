//! Trusted boundary around `chashmap::CHashMap`, the concurrent hash map
//! that backs the value stores, the per-key permission tables and the
//! registry of databases.  Each instantiation gets an uninterpreted
//! contents function and a small set of wrappers whose contracts state,
//! over that function, what the crate's source shows of each method.

use vstd::prelude::*;

use chashmap::CHashMap;

use crate::interface::DatabaseInterface;
use crate::json::JsonValue;
use crate::permissions::Permission;

verus! {

#[verifier::external_type_specification]
#[verifier::external_body]
#[verifier::reject_recursive_types(K)]
#[verifier::reject_recursive_types(V)]
pub struct ExCHashMap<K, V>(CHashMap<K, V>);

/// The contents of a value store, keyed by the key's characters.
pub uninterp spec fn value_map_view(m: CHashMap<String, JsonValue>) -> Map<Seq<char>, JsonValue>;

/// The contents of a permission table.
pub uninterp spec fn perm_map_view(m: CHashMap<String, Permission>) -> Map<Seq<char>, Permission>;

/// The contents of the database registry.
pub uninterp spec fn db_map_view(m: CHashMap<String, DatabaseInterface>) -> Map<
    Seq<char>,
    DatabaseInterface,
>;

/// Relies on CHashMap::new; what the fresh map holds is stated by
/// `value_map_reset`, which every caller runs on it.
#[verifier::external_body]
pub fn value_map_raw() -> CHashMap<String, JsonValue> {
    CHashMap::new()
}

/// Relies on CHashMap::new: the fresh map put in place is empty.
#[verifier::external_body]
pub fn value_map_reset(m: &mut CHashMap<String, JsonValue>)
    ensures
        value_map_view(*final(m)).dom() =~= Set::<Seq<char>>::empty(),
{
    *m = CHashMap::new();
}

/// An empty value store.
pub fn value_map_new() -> (r: CHashMap<String, JsonValue>)
    ensures
        value_map_view(r) == Map::<Seq<char>, JsonValue>::empty(),
{
    let mut m = value_map_raw();
    value_map_reset(&mut m);
    proof {
        assert(value_map_view(m) =~= Map::<Seq<char>, JsonValue>::empty());
    }
    m
}

/// Relies on CHashMap::insert: it replaces or adds the entry for the key.
#[verifier::external_body]
pub fn value_map_insert(m: &mut CHashMap<String, JsonValue>, key: String, value: JsonValue)
    ensures
        value_map_view(*final(m)) == value_map_view(*old(m)).insert(key@, value),
        value_map_view(*final(m)).dom().finite(),
{
    (*m).insert(key, value);
}

/// Relies on CHashMap::get: it returns the entry under the key, if any;
/// the guard is released after the value is copied out.
#[verifier::external_body]
pub fn value_map_get(m: &CHashMap<String, JsonValue>, key: &str) -> (r: Option<JsonValue>)
    ensures
        r == if value_map_view(*m).dom().contains(key@) {
            Some(value_map_view(*m)[key@])
        } else {
            None::<JsonValue>
        },
{
    m.get(key).map(|g| crate::json::deep_copy(&*g))
}

/// Relies on CHashMap::len: it counts the entries held at this moment.
#[verifier::external_body]
pub fn value_map_len(m: &CHashMap<String, JsonValue>) -> (r: usize)
    ensures
        r == value_map_view(*m).dom().len(),
{
    m.len()
}

/// Relies on CHashMap::clone and its IntoIterator: together they hand out
/// every entry exactly once, in an unspecified order.
#[verifier::external_body]
pub fn value_map_entries(m: &CHashMap<String, JsonValue>) -> (r: Vec<(String, JsonValue)>)
    ensures
        r@.len() == value_map_view(*m).dom().len(),
        forall|i: int| #![trigger r@[i]] 0 <= i < r@.len() ==> value_map_view(*m).contains_pair(
            r@[i].0@,
            r@[i].1,
        ),
        forall|i: int, j: int| 0 <= i < j < r@.len() ==> r@[i].0@ != r@[j].0@,
        forall|k: Seq<char>| #[trigger] value_map_view(*m).dom().contains(k) ==> exists|i: int|
            0 <= i < r@.len() && r@[i].0@ == k,
{
    m.clone().into_iter().collect()
}

/// Relies on CHashMap::new; what the fresh map holds is stated by
/// `perm_map_reset`, which every caller runs on it.
#[verifier::external_body]
pub fn perm_map_raw() -> CHashMap<String, Permission> {
    CHashMap::new()
}

/// Relies on CHashMap::new: the fresh map put in place is empty.
#[verifier::external_body]
pub fn perm_map_reset(m: &mut CHashMap<String, Permission>)
    ensures
        perm_map_view(*final(m)).dom() =~= Set::<Seq<char>>::empty(),
{
    *m = CHashMap::new();
}

/// An empty permission table.
pub fn perm_map_new() -> (r: CHashMap<String, Permission>)
    ensures
        perm_map_view(r) == Map::<Seq<char>, Permission>::empty(),
{
    let mut m = perm_map_raw();
    perm_map_reset(&mut m);
    proof {
        assert(perm_map_view(m) =~= Map::<Seq<char>, Permission>::empty());
    }
    m
}

/// Relies on CHashMap::insert: it replaces or adds the entry for the key.
#[verifier::external_body]
pub fn perm_map_insert(m: &mut CHashMap<String, Permission>, key: String, value: Permission)
    ensures
        perm_map_view(*final(m)) == perm_map_view(*old(m)).insert(key@, value),
        perm_map_view(*final(m)).dom().finite(),
{
    (*m).insert(key, value);
}

/// Relies on CHashMap::get: it returns the entry under the key, if any;
/// the guard is released after the record is copied out.
#[verifier::external_body]
pub fn perm_map_get(m: &CHashMap<String, Permission>, key: &str) -> (r: Option<Permission>)
    ensures
        r == if perm_map_view(*m).dom().contains(key@) {
            Some(perm_map_view(*m)[key@])
        } else {
            None::<Permission>
        },
{
    m.get(key).map(|g| g.clone())
}

/// Relies on CHashMap::new; what the fresh map holds is stated by
/// `db_map_reset`, which every caller runs on it.
#[verifier::external_body]
pub fn db_map_raw() -> CHashMap<String, DatabaseInterface> {
    CHashMap::new()
}

/// Relies on CHashMap::new: the fresh map put in place is empty.
#[verifier::external_body]
pub fn db_map_reset(m: &mut CHashMap<String, DatabaseInterface>)
    ensures
        db_map_view(*final(m)).dom() =~= Set::<Seq<char>>::empty(),
{
    *m = CHashMap::new();
}

/// An empty database registry.
pub fn db_map_new() -> (r: CHashMap<String, DatabaseInterface>)
    ensures
        db_map_view(r) == Map::<Seq<char>, DatabaseInterface>::empty(),
{
    let mut m = db_map_raw();
    db_map_reset(&mut m);
    proof {
        assert(db_map_view(m) =~= Map::<Seq<char>, DatabaseInterface>::empty());
    }
    m
}

/// Relies on CHashMap::insert: it replaces or adds the entry for the key.
#[verifier::external_body]
pub fn db_map_insert(m: &mut CHashMap<String, DatabaseInterface>, key: String, value: DatabaseInterface)
    ensures
        db_map_view(*final(m)) == db_map_view(*old(m)).insert(key@, value),
        db_map_view(*final(m)).dom().finite(),
{
    (*m).insert(key, value);
}

/// Relies on CHashMap::remove: it takes the entry under the key out of the
/// map and returns it, if any.
#[verifier::external_body]
pub fn db_map_remove(m: &mut CHashMap<String, DatabaseInterface>, key: &str) -> (r: Option<
    DatabaseInterface,
>)
    ensures
        db_map_view(*final(m)) == db_map_view(*old(m)).remove(key@),
        db_map_view(*final(m)).dom().finite(),
        r == if db_map_view(*old(m)).dom().contains(key@) {
            Some(db_map_view(*old(m))[key@])
        } else {
            None::<DatabaseInterface>
        },
{
    m.remove(key)
}

} // verus!
