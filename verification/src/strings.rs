//! Ordering of strings by code point, used for the sorted key listings.

use vstd::prelude::*;

verus! {

/// Strict lexicographic order on character sequences, by code point.
pub open spec fn lex_lt(a: Seq<char>, b: Seq<char>) -> bool
    decreases a.len(),
{
    if b.len() == 0 {
        false
    } else if a.len() == 0 {
        true
    } else if a[0] == b[0] {
        lex_lt(a.drop_first(), b.drop_first())
    } else {
        (a[0] as int) < (b[0] as int)
    }
}

/// Relies on str's `<` operator: strings compare lexicographically by
/// byte, which for UTF-8 text equals comparison by code point.
#[verifier::external_body]
pub fn str_lt(a: &str, b: &str) -> (r: bool)
    ensures
        r == lex_lt(a@, b@),
{
    a < b
}

/// The order is connected: two mutually unordered strings are equal.
pub proof fn lemma_lex_connected(a: Seq<char>, b: Seq<char>)
    requires
        !lex_lt(a, b),
        !lex_lt(b, a),
    ensures
        a == b,
    decreases a.len(),
{
    if a.len() == 0 || b.len() == 0 {
        assert(a =~= b);
    } else if a[0] == b[0] {
        lemma_lex_connected(a.drop_first(), b.drop_first());
        assert(a =~= b) by {
            assert(a.drop_first() =~= b.drop_first());
            assert(forall|i: int| 1 <= i < a.len() ==> a[i] == a.drop_first()[i - 1]);
        }
    } else {
        assert(!((a[0] as int) < (b[0] as int)));
        assert(!((b[0] as u32) < (a[0] as u32)));
        assert(a[0] as u32 == b[0] as u32);
        assert(a[0] == b[0]);
    }
}

/// The order is transitive.
pub proof fn lemma_lex_trans(a: Seq<char>, b: Seq<char>, c: Seq<char>)
    requires
        lex_lt(a, b),
        lex_lt(b, c),
    ensures
        lex_lt(a, c),
    decreases a.len(),
{
    if a.len() > 0 && b.len() > 0 && c.len() > 0 {
        if a[0] == b[0] && b[0] == c[0] {
            lemma_lex_trans(a.drop_first(), b.drop_first(), c.drop_first());
        }
    }
}

/// Every string of `out` occurs, by view, somewhere in `input`.
pub open spec fn elems_from(out: Seq<String>, input: Seq<String>) -> bool {
    forall|p: int| #![trigger out[p]@] 0 <= p < out.len() ==> exists|j: int|
        #![trigger input[j]]
        0 <= j < input.len() && input[j]@ == out[p]@
}

/// Ascending by code point, strictly.
pub open spec fn strictly_sorted(s: Seq<Seq<char>>) -> bool {
    forall|i: int, j: int| 0 <= i < j < s.len() ==> lex_lt(s[i], s[j])
}

/// Insert a string into a strictly sorted list that does not hold it yet,
/// keeping the list strictly sorted.  The result holds the old strings and
/// the new one, nothing else.
#[verifier::loop_isolation(false)]
fn insert_sorted(out: &mut Vec<String>, x: String)
    requires
        forall|p: int, q: int| 0 <= p < q < old(out)@.len() ==> lex_lt(
            old(out)@[p]@,
            old(out)@[q]@,
        ),
        forall|p: int| 0 <= p < old(out)@.len() ==> old(out)@[p]@ != x@,
    ensures
        final(out)@.len() == old(out)@.len() + 1,
        forall|p: int, q: int| 0 <= p < q < final(out)@.len() ==> lex_lt(
            final(out)@[p]@,
            final(out)@[q]@,
        ),
        forall|p: int| #![trigger final(out)@[p]] 0 <= p < final(out)@.len() ==> final(out)@[p]@
            == x@ || exists|q: int| #![trigger old(out)@[q]] 0 <= q < old(out)@.len()
            && old(out)@[q]@ == final(out)@[p]@,
{
    let ghost xs = x@;
    let ghost out0 = out@;
    let mut pos: usize = 0;
    while pos < out.len() && !str_lt(x.as_str(), out[pos].as_str())
        invariant
            pos <= out@.len(),
            out@ == out0,
            forall|k: int| 0 <= k < pos ==> !lex_lt(xs, out@[k]@),
        decreases out@.len() - pos,
    {
        pos += 1;
    }
    proof {
        assert forall|k: int| 0 <= k < pos implies lex_lt(out@[k]@, xs) by {
            if !lex_lt(out@[k]@, xs) {
                lemma_lex_connected(out@[k]@, xs);
            }
        }
        if pos < out@.len() {
            assert forall|k: int| pos <= k < out@.len() implies lex_lt(xs, out@[k]@) by {
                if k > pos {
                    lemma_lex_trans(xs, out@[pos as int]@, out@[k]@);
                }
            }
        }
    }
    out.insert(pos, x);
    proof {
        assert(out@ == out0.insert(pos as int, x));
        assert(out@[pos as int]@ == xs);
        assert forall|p: int, q: int| 0 <= p < q < out@.len() implies lex_lt(
            out@[p]@,
            out@[q]@,
        ) by {
            if q < pos {
            } else if p < pos && q == pos {
                assert(out@[q]@ == xs);
            } else if p < pos && q > pos {
                assert(out@[q]@ == out0[q - 1]@);
            } else if p == pos {
                assert(out@[p]@ == xs);
                assert(out@[q]@ == out0[q - 1]@);
            } else {
                assert(out@[p]@ == out0[p - 1]@);
                assert(out@[q]@ == out0[q - 1]@);
            }
        }
        assert forall|p: int| #![trigger out@[p]] 0 <= p < out@.len() && out@[p]@ != xs implies exists|q: int|
            #![trigger out0[q]]
            0 <= q < out0.len() && out0[q]@ == out@[p]@ by {
            if p < pos {
                assert(out0[p]@ == out@[p]@);
            } else if p > pos {
                assert(out0[p - 1]@ == out@[p]@);
            }
        }
    }
}

/// Sort a list of pairwise distinct strings into ascending code point
/// order.  The result is a permutation of the input: same length, strictly
/// sorted, with exactly the input's strings.
#[verifier::rlimit(100)]
pub fn sort_distinct_strings(input: Vec<String>) -> (r: Vec<String>)
    requires
        forall|i: int, j: int| 0 <= i < j < input@.len() ==> input@[i]@ != input@[j]@,
    ensures
        r@.len() == input@.len(),
        strictly_sorted(r@.map_values(|s: String| s@)),
        elems_from(r@, input@),
{
    let mut out: Vec<String> = Vec::new();
    let mut i: usize = 0;
    while i < input.len()
        invariant
            i <= input.len(),
            out@.len() == i,
            forall|a: int, b: int| 0 <= a < b < input@.len() ==> input@[a]@ != input@[b]@,
            forall|p: int, q: int| 0 <= p < q < out@.len() ==> lex_lt(out@[p]@, out@[q]@),
            forall|p: int| #![trigger out@[p]] 0 <= p < out@.len() ==> exists|j: int|
                #![trigger input@[j]]
                0 <= j < i && input@[j]@ == out@[p]@,
            elems_from(out@, input@),
        decreases input.len() - i,
    {
        let x = input[i].clone();
        let ghost xs = x@;
        proof {
            assert forall|p: int| 0 <= p < out@.len() implies out@[p]@ != xs by {
                let j = choose|j: int| #![trigger input@[j]] 0 <= j < i && input@[j]@ == out@[p]@;
                assert(input@[j]@ != input@[i as int]@);
            }
        }
        let ghost out_before = out@;
        insert_sorted(&mut out, x);
        proof {
            assert forall|p: int| #![trigger out@[p]] 0 <= p < out@.len() implies exists|j: int|
                #![trigger input@[j]]
                0 <= j < i + 1 && input@[j]@ == out@[p]@ by {
                if out@[p]@ == xs {
                    assert(input@[i as int]@ == out@[p]@);
                } else {
                    let q = choose|q: int| #![trigger out_before[q]] 0 <= q < out_before.len()
                        && out_before[q]@ == out@[p]@;
                    let j = choose|j: int| #![trigger input@[j]] 0 <= j < i && input@[j]@
                        == out_before[q]@;
                    assert(input@[j]@ == out@[p]@);
                }
            }
            assert(elems_from(out@, input@)) by {
                assert forall|p: int| #![trigger out@[p]@] 0 <= p < out@.len() implies exists|
                    j: int,
                |
                    #![trigger input@[j]]
                    0 <= j < input@.len() && input@[j]@ == out@[p]@ by {
                    let j = choose|j: int| #![trigger input@[j]] 0 <= j < i + 1 && input@[j]@
                        == out@[p]@;
                    assert(input@[j]@ == out@[p]@);
                }
            }
        }
        i += 1;
    }
    proof {
        let sv = out@.map_values(|s: String| s@);
        assert forall|p: int, q: int| 0 <= p < q < sv.len() implies #[trigger] lex_lt(
            sv[p],
            sv[q],
        ) by {
            assert(sv[p] == out@[p]@);
            assert(sv[q] == out@[q]@);
        }
    }
    out
}

} // verus!

