//! Arranging numbers in ascending order.

use crate::number::rank;
use vstd::prelude::*;
use vstd::relations::{sorted_by, total_ordering};
use vstd::seq_lib::{lemma_multiset_commutative, lemma_sorted_unique, to_multiset_build, to_multiset_len};

verus! {

/// The relation "comes no later in the total order".
pub open spec fn at_most() -> spec_fn(u64, u64) -> bool {
    |a: u64, b: u64| rank(a) <= rank(b)
}

/// Whether a sequence never steps down in the total order.
pub open spec fn is_ascending(s: Seq<u64>) -> bool {
    forall|i: int, j: int| #![trigger s[i], s[j]] 0 <= i < j < s.len() ==> rank(s[i]) <= rank(s[j])
}

/// The patterns of `s`, each as often as in `s`, in ascending order.
pub open spec fn ascending(s: Seq<u64>) -> Seq<u64> {
    s.sort_by(at_most())
}

/// `at_most` orders all patterns totally.
pub proof fn at_most_is_total()
    ensures
        total_ordering(at_most()),
{
    let r = at_most();
    assert forall|x: u64, y: u64| #[trigger] r(x, y) && #[trigger] r(y, x) implies x == y by {
        assert(rank(x) == rank(y));
    }
}

/// The ascending arrangement is ascending, and holds exactly the patterns of
/// the sequence it was made from.
pub proof fn ascending_is_sorted_permutation(s: Seq<u64>)
    ensures
        is_ascending(ascending(s)),
        ascending(s).to_multiset() == s.to_multiset(),
        ascending(s).len() == s.len(),
{
    at_most_is_total();
    s.lemma_sort_by_ensures(at_most());
    let t = ascending(s);
    assert(sorted_by(t, at_most()));
    assert forall|i: int, j: int| #![trigger t[i], t[j]] 0 <= i < j < t.len() implies rank(t[i])
        <= rank(t[j]) by {
        assert(at_most()(t[i], t[j]));
    }
    to_multiset_len(s);
    to_multiset_len(t);
}

/// There is one ascending arrangement only: an ascending sequence with the
/// patterns of `s` is `ascending(s)`.
pub proof fn ascending_is_unique(s: Seq<u64>, t: Seq<u64>)
    requires
        is_ascending(t),
        t.to_multiset() == s.to_multiset(),
    ensures
        t == ascending(s),
{
    at_most_is_total();
    s.lemma_sort_by_ensures(at_most());
    assert(sorted_by(t, at_most())) by {
        assert forall|i: int, j: int| 0 <= i < j < t.len() implies #[trigger] at_most()(
            t[i],
            t[j],
        ) by {
            assert(rank(t[i]) <= rank(t[j]));
        }
    }
    lemma_sorted_unique(t, ascending(s), at_most());
}

/// Merges two ascending sequences into one.
fn merge(left: &Vec<u64>, right: &Vec<u64>) -> (out: Vec<u64>)
    requires
        is_ascending(left@),
        is_ascending(right@),
    ensures
        is_ascending(out@),
        out@.to_multiset() == left@.to_multiset().add(right@.to_multiset()),
        out@.len() == left@.len() + right@.len(),
{
    let mut out: Vec<u64> = Vec::new();
    let mut i: usize = 0;
    let mut j: usize = 0;
    proof {
        let nothing = Seq::<u64>::empty();
        assert(left@.take(0) =~= nothing);
        assert(right@.take(0) =~= nothing);
        assert(out@ =~= nothing);
        assert(nothing + nothing =~= nothing);
        lemma_multiset_commutative(nothing, nothing);
    }
    while i < left.len() || j < right.len()
        invariant
            i <= left.len(),
            j <= right.len(),
            is_ascending(left@),
            is_ascending(right@),
            is_ascending(out@),
            out@.len() == i + j,
            out@.to_multiset() == left@.take(i as int).to_multiset().add(
                right@.take(j as int).to_multiset(),
            ),
            forall|k: int, l: int|
                #![trigger out@[k], left@[l]]
                0 <= k < out@.len() && i <= l < left@.len() ==> rank(out@[k]) <= rank(left@[l]),
            forall|k: int, l: int|
                #![trigger out@[k], right@[l]]
                0 <= k < out@.len() && j <= l < right@.len() ==> rank(out@[k]) <= rank(right@[l]),
        decreases left.len() - i + right.len() - j,
    {
        let take_left: bool = if i >= left.len() {
            false
        } else if j >= right.len() {
            true
        } else {
            !crate::number::precedes(right[j], left[i])
        };
        let ghost before = out@;
        if take_left {
            let x: u64 = left[i];
            out.push(x);
            proof {
                to_multiset_build(before, x);
                to_multiset_build(left@.take(i as int), x);
                assert(left@.take(i as int).push(x) =~= left@.take(i as int + 1));
                assert(out@.to_multiset() =~= left@.take(i as int + 1).to_multiset().add(
                    right@.take(j as int).to_multiset(),
                ));
                assert forall|k: int, l: int|
                    #![trigger out@[k], out@[l]]
                    0 <= k < l < out@.len() implies rank(out@[k]) <= rank(out@[l]) by {
                    if l < before.len() {
                        assert(out@[k] == before[k] && out@[l] == before[l]);
                    } else {
                        assert(out@[k] == before[k]);
                        assert(rank(before[k]) <= rank(left@[i as int]));
                    }
                }
            }
            i = i + 1;
        } else {
            let x: u64 = right[j];
            out.push(x);
            proof {
                to_multiset_build(before, x);
                to_multiset_build(right@.take(j as int), x);
                assert(right@.take(j as int).push(x) =~= right@.take(j as int + 1));
                assert(out@.to_multiset() =~= left@.take(i as int).to_multiset().add(
                    right@.take(j as int + 1).to_multiset(),
                ));
                assert forall|k: int, l: int|
                    #![trigger out@[k], out@[l]]
                    0 <= k < l < out@.len() implies rank(out@[k]) <= rank(out@[l]) by {
                    if l < before.len() {
                        assert(out@[k] == before[k] && out@[l] == before[l]);
                    } else {
                        assert(out@[k] == before[k]);
                        assert(rank(before[k]) <= rank(right@[j as int]));
                    }
                }
            }
            j = j + 1;
        }
    }
    proof {
        assert(left@.take(i as int) =~= left@);
        assert(right@.take(j as int) =~= right@);
    }
    out
}

/// Sorts the part of `values` from `from` up to, not including, `to`.
fn sort_range(values: &Vec<u64>, from: usize, to: usize) -> (out: Vec<u64>)
    requires
        from <= to <= values.len(),
    ensures
        is_ascending(out@),
        out@.to_multiset() == values@.subrange(from as int, to as int).to_multiset(),
        out@.len() == to - from,
    decreases to - from,
{
    let mut out: Vec<u64> = Vec::new();
    if to - from == 0 {
        assert(values@.subrange(from as int, to as int) =~= out@);
        out
    } else if to - from == 1 {
        out.push(values[from]);
        assert(values@.subrange(from as int, to as int) =~= out@);
        out
    } else {
        let middle: usize = from + (to - from) / 2;
        let left = sort_range(values, from, middle);
        let right = sort_range(values, middle, to);
        proof {
            let a = values@.subrange(from as int, middle as int);
            let b = values@.subrange(middle as int, to as int);
            assert(a + b =~= values@.subrange(from as int, to as int));
            lemma_multiset_commutative(a, b);
        }
        merge(&left, &right)
    }
}

/// Returns the values in ascending order. The argument is left as it was.
pub fn sort_values(values: &Vec<u64>) -> (sorted: Vec<u64>)
    ensures
        sorted@ == ascending(values@),
        is_ascending(sorted@),
        sorted@.to_multiset() == values@.to_multiset(),
        sorted@.len() == values@.len(),
{
    let sorted = sort_range(values, 0, values.len());
    proof {
        assert(values@.subrange(0, values.len() as int) =~= values@);
        ascending_is_unique(values@, sorted@);
    }
    sorted
}

} // verus!
