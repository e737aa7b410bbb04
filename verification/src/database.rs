//! The value store: a named mapping from string keys to JSON values, with
//! typed operations on list-valued entries.  Its view is the mathematical
//! map from key characters to `JsonData`.

use vstd::prelude::*;

use chashmap::CHashMap;

use crate::json::{seq_view, value_view, JsonData, JsonValue};
use crate::json::{lemma_seq_view_index, lemma_seq_view_len, lemma_seq_view_push};
use crate::shared_map::{
    value_map_entries, value_map_get, value_map_insert, value_map_len, value_map_new,
    value_map_view,
};

verus! {

/// Lift a store of JSON values to a map of their views.
pub open spec fn lifted(m: Map<Seq<char>, JsonValue>) -> Map<Seq<char>, JsonData> {
    m.map_values(|v: JsonValue| value_view(v))
}

pub proof fn lemma_lifted_insert(m: Map<Seq<char>, JsonValue>, k: Seq<char>, v: JsonValue)
    ensures
        lifted(m.insert(k, v)) == lifted(m).insert(k, value_view(v)),
{
    assert(lifted(m.insert(k, v)) =~= lifted(m).insert(k, value_view(v)));
}

/// Whether the store holds an array under `key`.
pub open spec fn has_array(m: Map<Seq<char>, JsonData>, key: Seq<char>) -> bool {
    m.contains_key(key) && m[key] is Arr
}

/// The elements of the array stored under `key`.
pub open spec fn array_at(m: Map<Seq<char>, JsonData>, key: Seq<char>) -> Seq<JsonData>
    recommends
        has_array(m, key),
{
    m[key]->Arr_0
}

/// An array value grown so that position `i` holds `x`: positions past the
/// old length are padded with null, and the old length is never shrunk.
pub open spec fn padded_update(a: Seq<JsonData>, i: int, x: JsonData) -> Seq<JsonData> {
    if i < a.len() {
        a.update(i, x)
    } else {
        a + Seq::new((i - a.len()) as nat, |j: int| JsonData::Null) + seq![x]
    }
}

/// The last `n` elements of `a`, in order; all of `a` when it is shorter.
pub open spec fn last_n_of(a: Seq<JsonData>, n: int) -> Seq<JsonData> {
    a.subrange(a.len() - (if n <= a.len() { n } else { a.len() as int }), a.len() as int)
}

/// Database object: an in-memory key/value store.
#[derive(Debug)]
pub struct Database {
    name: String,
    data: CHashMap<String, JsonValue>,
}

impl View for Database {
    type V = Map<Seq<char>, JsonData>;

    closed spec fn view(&self) -> Map<Seq<char>, JsonData> {
        lifted(value_map_view(self.data))
    }
}

impl Database {
    /// The database's own name.
    pub closed spec fn spec_name(&self) -> Seq<char> {
        self.name@
    }

    /// Create a new empty database.
    pub fn new(name: &str) -> (r: Self)
        ensures
            r@ == Map::<Seq<char>, JsonData>::empty(),
            r@.dom().finite(),
            r.spec_name() == name@,
    {
        let r = Self { name: name.to_owned(), data: value_map_new() };
        proof {
            assert(r@ =~= Map::<Seq<char>, JsonData>::empty());
        }
        r
    }

    /// Create a new database from an existing map.
    pub fn create(name: &str, data: CHashMap<String, JsonValue>) -> (r: Self)
        requires
            value_map_view(data).dom().finite(),
        ensures
            r@ == lifted(value_map_view(data)),
            r@.dom().finite(),
            r.spec_name() == name@,
    {
        let r = Self { name: name.to_owned(), data };
        proof {
            assert(r@.dom() =~= value_map_view(r.data).dom());
        }
        r
    }

    /// Write a value to a key; an idempotent upsert that always succeeds.
    pub fn write(&mut self, key: &str, data: JsonValue) -> (r: Result<(), String>)
        ensures
            r == Ok::<(), String>(()),
            final(self)@ == old(self)@.insert(key@, data@),
            final(self)@.dom().finite(),
            final(self).spec_name() == old(self).spec_name(),
    {
        let ghost m = value_map_view(self.data);
        value_map_insert(&mut self.data, key.to_owned(), data);
        proof {
            lemma_lifted_insert(m, key@, data);
            assert(self@.dom() =~= value_map_view(self.data).dom());
        }
        Ok(())
    }

    /// Read the value under a key.
    pub fn read(&self, key: &str) -> (r: Result<JsonValue, String>)
        ensures
            match r {
                Ok(v) => self@.contains_key(key@) && v@ == self@[key@],
                Err(_) => !self@.contains_key(key@),
            },
    {
        match value_map_get(&self.data, key) {
            Some(v) => Ok(v),
            None => Err("key not found in database".to_owned()),
        }
    }

    /// Read one position of an array stored under a key.
    pub fn read_index(&self, key: &str, index: usize) -> (r: Result<JsonValue, String>)
        ensures
            match r {
                Ok(v) => has_array(self@, key@) && index < array_at(self@, key@).len() && v@
                    == array_at(self@, key@)[index as int],
                Err(_) => !(has_array(self@, key@) && index < array_at(self@, key@).len()),
            },
    {
        match value_map_get(&self.data, key) {
            Some(JsonValue::Array(mut arr)) => {
                proof {
                    lemma_seq_view_len(arr@);
                }
                if index < arr.len() {
                    proof {
                        lemma_seq_view_index(arr@, index as int);
                    }
                    Ok(arr.remove(index))
                } else {
                    Err("the array for the key does not contain the index".to_owned())
                }
            },
            Some(_) => Err("the value for the key is not an array".to_owned()),
            None => Err("key not found in database".to_owned()),
        }
    }

    /// Set one position of an array stored under a key, padding with nulls
    /// up to the position when the array is shorter.
    pub fn write_index(&mut self, key: &str, index: usize, data: JsonValue) -> (r: Result<(), String>)
        ensures
            final(self).spec_name() == old(self).spec_name(),
            match r {
                Ok(_) => has_array(old(self)@, key@) && final(self)@ == old(self)@.insert(
                    key@,
                    JsonData::Arr(padded_update(array_at(old(self)@, key@), index as int, data@)),
                ),
                Err(_) => !has_array(old(self)@, key@) && *final(self) == *old(self),
            },
    {
        let ghost m = value_map_view(self.data);
        match value_map_get(&self.data, key) {
            Some(JsonValue::Array(mut arr)) => {
                let ghost a0 = arr@;
                if index >= arr.len() {
                    while index >= arr.len()
                        invariant
                            a0.len() <= arr@.len() <= index + 1,
                            arr@ == a0 + Seq::new((arr@.len() - a0.len()) as nat, |j: int| JsonValue::Null),
                        decreases index + 1 - arr@.len(),
                    {
                        arr.push(JsonValue::Null);
                        proof {
                            assert(arr@ =~= a0 + Seq::new(
                                (arr@.len() - a0.len()) as nat,
                                |j: int| JsonValue::Null,
                            ));
                        }
                    }
                }
                let ghost apad = arr@;
                arr[index] = data;
                proof {
                    lemma_write_index_view(a0, apad, arr@[index as int], index as int);
                    assert(arr@ == apad.update(index as int, arr@[index as int]));
                }
                value_map_insert(&mut self.data, key.to_owned(), JsonValue::Array(arr));
                proof {
                    lemma_lifted_insert(m, key@, JsonValue::Array(arr));
                }
                Ok(())
            },
            Some(_) => Err("the value for the key is not an array".to_owned()),
            None => Err("key not found in database".to_owned()),
        }
    }

    /// Append a value to an array stored under a key; returns the index the
    /// value was placed at, which is the array's old length.
    pub fn append(&mut self, key: &str, data: JsonValue) -> (r: Result<usize, String>)
        ensures
            final(self).spec_name() == old(self).spec_name(),
            match r {
                Ok(n) => has_array(old(self)@, key@) && n == array_at(old(self)@, key@).len()
                    && final(self)@ == old(self)@.insert(
                    key@,
                    JsonData::Arr(array_at(old(self)@, key@).push(data@)),
                ),
                Err(_) => !has_array(old(self)@, key@) && *final(self) == *old(self),
            },
    {
        let ghost m = value_map_view(self.data);
        match value_map_get(&self.data, key) {
            Some(JsonValue::Array(mut arr)) => {
                let ghost a0 = arr@;
                let l = arr.len();
                proof {
                    lemma_seq_view_len(a0);
                }
                arr.push(data);
                proof {
                    lemma_seq_view_push(a0, data);
                }
                value_map_insert(&mut self.data, key.to_owned(), JsonValue::Array(arr));
                proof {
                    lemma_lifted_insert(m, key@, JsonValue::Array(arr));
                }
                Ok(l)
            },
            Some(_) => Err("the value for the key is not an array".to_owned()),
            None => Err("key not found in database".to_owned()),
        }
    }

    /// The length of an array stored under a key.
    pub fn get_length(&self, key: &str) -> (r: Result<usize, String>)
        ensures
            match r {
                Ok(n) => has_array(self@, key@) && n == array_at(self@, key@).len(),
                Err(_) => !has_array(self@, key@),
            },
    {
        match value_map_get(&self.data, key) {
            Some(JsonValue::Array(arr)) => {
                proof {
                    lemma_seq_view_len(arr@);
                }
                Ok(arr.len())
            },
            Some(_) => Err("the value for the key is not an array".to_owned()),
            None => Err("key not found in database".to_owned()),
        }
    }

    /// The last `n` items of an array stored under a key, in array order
    /// (oldest of the tail first); the whole array when it has fewer than
    /// `n` items.
    pub fn get_last_n(&self, key: &str, n: usize) -> (r: Result<JsonValue, String>)
        ensures
            match r {
                Ok(v) => has_array(self@, key@) && v@ == JsonData::Arr(last_n_of(array_at(self@, key@), n as int)),
                Err(_) => !has_array(self@, key@),
            },
    {
        match value_map_get(&self.data, key) {
            Some(JsonValue::Array(mut arr)) => {
                proof {
                    lemma_seq_view_len(arr@);
                }
                let len = arr.len();
                let keep = if n <= len {
                    n
                } else {
                    len
                };
                let start = len - keep;
                let ghost a0 = arr@;
                let mut out: Vec<JsonValue> = Vec::new();
                while out.len() < keep
                    invariant
                        keep <= len == a0.len(),
                        start == len - keep,
                        out@.len() <= keep,
                        out@ == a0.subrange(start as int, start + out@.len()),
                        arr@ == a0.subrange(0, start as int) + a0.subrange(
                            start + out@.len(),
                            len as int,
                        ),
                    decreases keep - out@.len(),
                {
                    let ghost out0 = out@;
                    let moved = arr.remove(start);
                    out.push(moved);
                    proof {
                        assert(out@ =~= a0.subrange(start as int, start + out@.len()));
                        assert(arr@ =~= a0.subrange(0, start as int) + a0.subrange(
                            start + out@.len(),
                            len as int,
                        ));
                    }
                }
                proof {
                    assert(out@ =~= a0.subrange(start as int, a0.len() as int));
                    lemma_last_n_view(a0, start as int);
                }
                Ok(JsonValue::Array(out))
            },
            Some(_) => Err("the value for the key is not an array".to_owned()),
            None => Err("key not found in database".to_owned()),
        }
    }

    /// The database's name.
    pub fn get_name(&self) -> (r: String)
        ensures
            r@ == self.spec_name(),
    {
        self.name.clone()
    }

    /// All keys stored in the database, ascending by code point.
    pub fn get_all_keys(&self) -> (r: Result<Vec<String>, String>)
        ensures
            match r {
                Ok(keys) => {
                    &&& keys@.len() == self@.dom().len()
                    &&& crate::strings::strictly_sorted(keys@.map_values(|s: String| s@))
                    &&& forall|i: int| #![trigger keys@[i]@] 0 <= i < keys@.len()
                        ==> self@.dom().contains(keys@[i]@)
                },
                Err(_) => false,
            },
    {
        proof {
            assert(self@.dom() =~= value_map_view(self.data).dom());
        }
        let entries = value_map_entries(&self.data);
        let mut keys: Vec<String> = Vec::new();
        let mut i: usize = 0;
        while i < entries.len()
            invariant
                i <= entries.len(),
                keys@.len() == i,
                forall|j: int| #![trigger keys@[j]@] 0 <= j < i ==> keys@[j]@ == entries@[j].0@,
            decreases entries.len() - i,
        {
            keys.push(entries[i].0.clone());
            i += 1;
        }
        proof {
            assert forall|a: int, b: int| 0 <= a < b < keys@.len() implies keys@[a]@ != keys@[b]@
                by {
                assert(keys@[a]@ == entries@[a].0@);
                assert(keys@[b]@ == entries@[b].0@);
            }
        }
        let sorted = crate::strings::sort_distinct_strings(keys);
        proof {
            assert forall|p: int| #![trigger sorted@[p]@] 0 <= p < sorted@.len() implies
                self@.dom().contains(sorted@[p]@) by {
                let j = choose|j: int| #![trigger keys@[j]] 0 <= j < keys@.len() && keys@[j]@
                    == sorted@[p]@;
                assert(keys@[j]@ == entries@[j].0@);
                assert(value_map_view(self.data).contains_pair(entries@[j].0@, entries@[j].1));
            }
        }
        Ok(sorted)
    }

    /// The number of keys stored in the database.
    pub fn get_number_of_keys(&self) -> (r: usize)
        ensures
            r == self@.dom().len(),
    {
        proof {
            assert(self@.dom() =~= value_map_view(self.data).dom());
        }
        value_map_len(&self.data)
    }
}

/// Setting position `i` of the padded array yields exactly `padded_update`
/// of the array's view from before the padding.
proof fn lemma_write_index_view(a0: Seq<JsonValue>, apad: Seq<JsonValue>, x: JsonValue, i: int)
    requires
        0 <= i < apad.len(),
        a0.len() <= apad.len(),
        i < a0.len() ==> apad == a0,
        i >= a0.len() ==> apad.len() == i + 1 && apad == a0 + Seq::new(
            (apad.len() - a0.len()) as nat,
            |j: int| JsonValue::Null,
        ),
    ensures
        seq_view(apad.update(i, x)) == padded_update(seq_view(a0), i, value_view(x)),
{
    lemma_seq_view_len(a0);
    lemma_seq_view_len(apad);
    let afin = apad.update(i, x);
    lemma_seq_view_len(afin);
    let lhs = seq_view(afin);
    let rhs = padded_update(seq_view(a0), i, value_view(x));
    assert forall|j: int| 0 <= j < lhs.len() implies lhs[j] == rhs[j] by {
        lemma_seq_view_index(afin, j);
        if j < a0.len() {
            lemma_seq_view_index(a0, j);
        }
    }
    assert(lhs =~= rhs);
}

/// The view of a suffix copy equals the subrange of the view.
proof fn lemma_last_n_view(a: Seq<JsonValue>, start: int)
    requires
        0 <= start <= a.len(),
    ensures
        seq_view(a.subrange(start, a.len() as int)) == seq_view(a).subrange(
            start,
            a.len() as int,
        ),
{
    lemma_seq_view_len(a);
    let sub = a.subrange(start, a.len() as int);
    lemma_seq_view_len(sub);
    assert forall|j: int| 0 <= j < sub.len() implies seq_view(sub)[j] == seq_view(a).subrange(
        start,
        a.len() as int,
    )[j] by {
        lemma_seq_view_index(sub, j);
        lemma_seq_view_index(a, start + j);
    }
    assert(seq_view(sub) =~= seq_view(a).subrange(start, a.len() as int));
}

} // verus!
