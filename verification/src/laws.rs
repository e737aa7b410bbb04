//! The store's universal laws, stated over the same view functions the
//! operations' contracts use, so that each follows from what the
//! operations ensure.

use vstd::prelude::*;

use crate::database::{array_at, has_array, last_n_of, padded_update};
use crate::json::JsonData;

verus! {

/// Round trip: writing a value under a key and then reading the key
/// yields exactly that value.  `write` ensures the store becomes
/// `m.insert(k, v)`; `read` ensures it returns the store's value at `k`.
pub proof fn lemma_set_then_get(m: Map<Seq<char>, JsonData>, k: Seq<char>, v: JsonData)
    ensures
        m.insert(k, v).contains_key(k),
        m.insert(k, v)[k] == v,
{
}

/// Append monotonicity: `append` places the value at the array's old
/// length, and the array's length afterwards is the old length plus one,
/// with the old elements unchanged.
pub proof fn lemma_append_monotonic(m: Map<Seq<char>, JsonData>, k: Seq<char>, x: JsonData)
    requires
        has_array(m, k),
    ensures
        has_array(m.insert(k, JsonData::Arr(array_at(m, k).push(x))), k),
        array_at(m.insert(k, JsonData::Arr(array_at(m, k).push(x))), k).len() == array_at(
            m,
            k,
        ).len() + 1,
        array_at(m.insert(k, JsonData::Arr(array_at(m, k).push(x))), k)[array_at(
            m,
            k,
        ).len() as int] == x,
        forall|j: int| 0 <= j < array_at(m, k).len() ==> #[trigger] array_at(
            m.insert(k, JsonData::Arr(array_at(m, k).push(x))),
            k,
        )[j] == array_at(m, k)[j],
{
}

/// Padding: setting position `i` of an array of length `n` grows it to
/// `max(n, i + 1)`; positions from `n` up to `i` read as null, position
/// `i` reads as the value, and every other old position is unchanged.
pub proof fn lemma_padding(a: Seq<JsonData>, i: int, x: JsonData)
    requires
        0 <= i,
    ensures
        padded_update(a, i, x).len() == if i < a.len() {
            a.len() as int
        } else {
            i + 1
        },
        forall|j: int| a.len() <= j < i ==> #[trigger] padded_update(a, i, x)[j]
            == JsonData::Null,
        padded_update(a, i, x)[i] == x,
        forall|j: int| 0 <= j < a.len() && j != i ==> #[trigger] padded_update(a, i, x)[j] == a[j],
{
}

/// Key count: a write to a fresh key raises the number of stored keys by
/// exactly one, and a write to an existing key leaves it unchanged.
/// `write` ensures the store becomes `m.insert(k, v)` with a finite key
/// set; `get_number_of_keys` returns that set's size.
pub proof fn lemma_write_key_count(m: Map<Seq<char>, JsonData>, k: Seq<char>, v: JsonData)
    requires
        m.dom().finite(),
    ensures
        !m.contains_key(k) ==> m.insert(k, v).dom().len() == m.dom().len() + 1,
        m.contains_key(k) ==> m.insert(k, v).dom().len() == m.dom().len(),
{
    assert(m.insert(k, v).dom() =~= m.dom().insert(k));
    broadcast use vstd::set::axiom_set_insert_len;

    if m.contains_key(k) {
        assert(m.dom().insert(k) =~= m.dom());
    }
}

/// Tail order: the last `n` of an array `[a_0, ..., a_(m-1)]` are
/// `[a_(m-k), ..., a_(m-1)]` with `k = min(n, m)`, preserving array
/// order.
pub proof fn lemma_last_n_order(a: Seq<JsonData>, n: int)
    requires
        0 <= n,
    ensures
        last_n_of(a, n).len() == if n <= a.len() {
            n
        } else {
            a.len() as int
        },
        forall|j: int| 0 <= j < last_n_of(a, n).len() ==> #[trigger] last_n_of(a, n)[j] == a[a.len()
            - last_n_of(a, n).len() + j],
{
}

} // verus!
