//! The JSON value model: the universal payload of the database and of the
//! wire protocol.  `JsonValue` is the executable tree; `JsonData` is its
//! mathematical view, used by every contract.  Floating point numbers are
//! carried as their IEEE-754 bit patterns and never interpreted here.

use vstd::prelude::*;

verus! {

/// A JSON number: a non-negative integer, a negative integer, or a
/// double carried as its bit pattern.
#[derive(Debug, Clone, Copy, PartialEq, Eq, Structural)]
pub enum Number {
    Unsigned(u64),
    Signed(i64),
    FloatBits(u64),
}

/// One key/value entry of a JSON object.
#[derive(Debug, PartialEq, Eq)]
pub struct Entry {
    pub key: String,
    pub value: JsonValue,
}

/// A JSON value: null, boolean, number, string, array or object.
/// Objects keep their entries as a sequence of key/value pairs.
#[derive(Debug, PartialEq, Eq)]
pub enum JsonValue {
    Null,
    Bool(bool),
    Num(Number),
    Str(String),
    Array(Vec<JsonValue>),
    Object(Vec<Entry>),
}

/// The mathematical shape of a `JsonValue`.
pub enum JsonData {
    Null,
    Bool(bool),
    Num(Number),
    Str(Seq<char>),
    Arr(Seq<JsonData>),
    Obj(Seq<(Seq<char>, JsonData)>),
}

/// View of a sequence of values, element by element.
pub open spec fn seq_view(s: Seq<JsonValue>) -> Seq<JsonData>
    decreases s,
{
    if s.len() == 0 {
        Seq::empty()
    } else {
        seq_view(s.drop_last()).push(value_view(s.last()))
    }
}

/// View of a sequence of object entries, entry by entry.
pub open spec fn pairs_view(s: Seq<Entry>) -> Seq<(Seq<char>, JsonData)>
    decreases s,
{
    if s.len() == 0 {
        Seq::empty()
    } else {
        pairs_view(s.drop_last()).push((s.last().key@, value_view(s.last().value)))
    }
}

/// View of a single value.
pub open spec fn value_view(v: JsonValue) -> JsonData
    decreases v,
{
    match v {
        JsonValue::Null => JsonData::Null,
        JsonValue::Bool(b) => JsonData::Bool(b),
        JsonValue::Num(n) => JsonData::Num(n),
        JsonValue::Str(s) => JsonData::Str(s@),
        JsonValue::Array(a) => JsonData::Arr(seq_view(a@)),
        JsonValue::Object(o) => JsonData::Obj(pairs_view(o@)),
    }
}

impl View for JsonValue {
    type V = JsonData;

    open spec fn view(&self) -> JsonData {
        value_view(*self)
    }
}

pub broadcast proof fn lemma_seq_view_len(s: Seq<JsonValue>)
    ensures
        #[trigger] seq_view(s).len() == s.len(),
    decreases s,
{
    if s.len() > 0 {
        lemma_seq_view_len(s.drop_last());
    }
}

pub broadcast proof fn lemma_seq_view_index(s: Seq<JsonValue>, i: int)
    requires
        0 <= i < s.len(),
    ensures
        #[trigger] seq_view(s)[i] == value_view(s[i]),
    decreases s,
{
    lemma_seq_view_len(s);
    if i < s.len() - 1 {
        lemma_seq_view_index(s.drop_last(), i);
    }
}

pub broadcast proof fn lemma_pairs_view_len(s: Seq<Entry>)
    ensures
        #[trigger] pairs_view(s).len() == s.len(),
    decreases s,
{
    if s.len() > 0 {
        lemma_pairs_view_len(s.drop_last());
    }
}

pub broadcast proof fn lemma_pairs_view_index(s: Seq<Entry>, i: int)
    requires
        0 <= i < s.len(),
    ensures
        #[trigger] pairs_view(s)[i] == (s[i].key@, value_view(s[i].value)),
    decreases s,
{
    lemma_pairs_view_len(s);
    if i < s.len() - 1 {
        lemma_pairs_view_index(s.drop_last(), i);
    }
}

pub broadcast proof fn lemma_seq_view_push(s: Seq<JsonValue>, v: JsonValue)
    ensures
        #[trigger] seq_view(s.push(v)) == seq_view(s).push(value_view(v)),
{
    assert(s.push(v).drop_last() =~= s);
    assert(s.push(v).last() == v);
}

pub broadcast proof fn lemma_pairs_view_push(s: Seq<Entry>, p: Entry)
    ensures
        #[trigger] pairs_view(s.push(p)) == pairs_view(s).push((p.key@, value_view(p.value))),
{
    assert(s.push(p).drop_last() =~= s);
    assert(s.push(p).last() == p);
}

/// True when `t` occurs among the views of the strings in `s`.
pub open spec fn seq_contains_string(s: Seq<String>, t: Seq<char>) -> bool {
    exists|i: int| 0 <= i < s.len() && s[i]@ == t
}

/// String equality, decided on the character sequences.
pub fn str_eq(a: &str, b: &str) -> (r: bool)
    ensures
        r == (a@ == b@),
{
    let x: String = a.to_owned();
    let y: String = b.to_owned();
    x == y
}

/// Whether a list of strings holds `x`.
pub fn contains_string(list: &Vec<String>, x: &str) -> (r: bool)
    ensures
        r == seq_contains_string(list@, x@),
{
    let mut i: usize = 0;
    while i < list.len()
        invariant
            i <= list.len(),
            forall|j: int| 0 <= j < i ==> list@[j]@ != x@,
        decreases list.len() - i,
    {
        if str_eq(list[i].as_str(), x) {
            return true;
        }
        i += 1;
    }
    false
}

/// A structurally equal copy of a JSON value.
#[verifier::loop_isolation(false)]
pub fn deep_copy(v: &JsonValue) -> (r: JsonValue)
    ensures
        r@ == v@,
    decreases *v,
{
    broadcast use vstd::std_specs::vec::axiom_vec_decreases_to_view;
    broadcast use vstd::seq::axiom_seq_index_decreases;

    match v {
        JsonValue::Null => JsonValue::Null,
        JsonValue::Bool(b) => JsonValue::Bool(*b),
        JsonValue::Num(n) => JsonValue::Num(*n),
        JsonValue::Str(s) => JsonValue::Str(s.clone()),
        JsonValue::Array(a) => {
            let mut out: Vec<JsonValue> = Vec::new();
            let mut i: usize = 0;
            while i < a.len()
                invariant
                    i <= a.len(),
                    out@.len() == i,
                    forall|j: int| #![trigger out@[j]] 0 <= j < i ==> out@[j]@ == a@[j]@,
                decreases a.len() - i,
            {
                out.push(deep_copy(&a[i]));
                i += 1;
            }
            proof {
                lemma_seq_views_equal(out@, a@);
            }
            JsonValue::Array(out)
        },
        JsonValue::Object(o) => {
            let mut out: Vec<Entry> = Vec::new();
            let mut i: usize = 0;
            while i < o.len()
                invariant
                    i <= o.len(),
                    out@.len() == i,
                    forall|j: int| #![trigger out@[j]] 0 <= j < i ==> out@[j].key@ == o@[j].key@
                        && out@[j].value@ == o@[j].value@,
                decreases o.len() - i,
            {
                out.push(Entry { key: o[i].key.clone(), value: deep_copy(&o[i].value) });
                i += 1;
            }
            proof {
                lemma_pairs_views_equal(out@, o@);
            }
            JsonValue::Object(out)
        },
    }
}

impl Clone for JsonValue {
    /// Cloning preserves the value's view.
    fn clone(&self) -> (r: Self)
        ensures
            r@ == self@,
    {
        deep_copy(self)
    }
}

impl Clone for Entry {
    /// Cloning preserves the entry's key and value views.
    fn clone(&self) -> (r: Self)
        ensures
            r.key@ == self.key@,
            r.value@ == self.value@,
    {
        Entry { key: self.key.clone(), value: deep_copy(&self.value) }
    }
}

/// Two value sequences whose elements agree in view have the same view.
pub proof fn lemma_seq_views_equal(a: Seq<JsonValue>, b: Seq<JsonValue>)
    requires
        a.len() == b.len(),
        forall|j: int| #![trigger a[j]] 0 <= j < a.len() ==> a[j]@ == b[j]@,
    ensures
        seq_view(a) == seq_view(b),
{
    lemma_seq_view_len(a);
    lemma_seq_view_len(b);
    assert forall|j: int| 0 <= j < a.len() implies seq_view(a)[j] == seq_view(b)[j] by {
        lemma_seq_view_index(a, j);
        lemma_seq_view_index(b, j);
    }
    assert(seq_view(a) =~= seq_view(b));
}

/// Two entry sequences whose entries agree in view have the same view.
pub proof fn lemma_pairs_views_equal(a: Seq<Entry>, b: Seq<Entry>)
    requires
        a.len() == b.len(),
        forall|j: int| #![trigger a[j]] 0 <= j < a.len() ==> a[j].key@ == b[j].key@
            && a[j].value@ == b[j].value@,
    ensures
        pairs_view(a) == pairs_view(b),
{
    lemma_pairs_view_len(a);
    lemma_pairs_view_len(b);
    assert forall|j: int| 0 <= j < a.len() implies pairs_view(a)[j] == pairs_view(b)[j] by {
        lemma_pairs_view_index(a, j);
        lemma_pairs_view_index(b, j);
    }
    assert(pairs_view(a) =~= pairs_view(b));
}

/// The value under the first entry of `entries` whose key is `k`, if any.
pub open spec fn obj_lookup(entries: Seq<(Seq<char>, JsonData)>, k: Seq<char>) -> Option<JsonData>
    decreases entries.len(),
{
    if entries.len() == 0 {
        None
    } else if entries[0].0 == k {
        Some(entries[0].1)
    } else {
        obj_lookup(entries.drop_first(), k)
    }
}

/// A reference to the value under key `k` of an object's entry list.
pub fn obj_get<'a>(entries: &'a Vec<Entry>, k: &str) -> (r: Option<&'a JsonValue>)
    ensures
        match r {
            Some(v) => obj_lookup(pairs_view(entries@), k@) == Some(v@),
            None => obj_lookup(pairs_view(entries@), k@) is None,
        },
{
    proof {
        lemma_pairs_view_len(entries@);
    }
    let ghost pv = pairs_view(entries@);
    proof {
        assert(pv.skip(0) =~= pv);
    }
    let mut i: usize = 0;
    while i < entries.len()
        invariant
            i <= entries.len(),
            pv == pairs_view(entries@),
            pv.len() == entries@.len(),
            obj_lookup(pv, k@) == obj_lookup(pv.skip(i as int), k@),
        decreases entries.len() - i,
    {
        proof {
            lemma_pairs_view_index(entries@, i as int);
        }
        if str_eq(entries[i].key.as_str(), k) {
            proof {
                assert(pv.skip(i as int)[0] == pv[i as int]);
            }
            return Some(&entries[i].value);
        }
        proof {
            assert(pv.skip(i as int)[0] == pv[i as int]);
            assert(pv.skip(i as int).drop_first() =~= pv.skip(i + 1));
        }
        i += 1;
    }
    proof {
        assert(pv.skip(entries@.len() as int).len() == 0);
    }
    None
}

} // verus!

