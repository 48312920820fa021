//! General laws of the matcher, stated and proved over the result contract
//! that both execution strategies ensure.

use vstd::prelude::*;
use crate::key::Key;
use crate::matcher::{strictly_ascending, valid_match};
use crate::search::occurs;

verus! {

/// The set of (matched value, probe position) pairs that a result
/// represents.
pub open spec fn pair_set<T: Key>(a: Seq<T>, ia: Seq<usize>, ib: Seq<usize>) -> Set<(int, int)> {
    Set::new(
        |pr: (int, int)|
            exists|k: int|
                0 <= k < ib.len() && pr.0 == a[ia[k] as int].key() && pr.1 == (#[trigger] ib[k]) as int,
    )
}

/// The matched values of `b`, in emission order.
pub open spec fn matched_values<T: Key>(b: Seq<T>, ib: Seq<usize>) -> Seq<int> {
    Seq::new(ib.len(), |k: int| b[ib[k] as int].key())
}

/// Membership: every emitted pair holds equal values, and a position of
/// `b` that was not emitted holds a value that occurs nowhere in `a`.
pub proof fn lemma_membership<T: Key>(a: Seq<T>, b: Seq<T>, ia: Seq<usize>, ib: Seq<usize>)
    requires
        valid_match(a, b, ia, ib),
    ensures
        forall|k: int| 0 <= k < ib.len() ==> a[ia[k] as int].key() == b[#[trigger] ib[k] as int].key(),
        forall|j: int| 0 <= j < b.len() && !ib.contains(j as usize) ==> !occurs(a, (#[trigger] b[j]).key()),
{
}

/// Completeness: a position of `b` whose value occurs in `a` appears in
/// `ib`, and at exactly one place — not once per duplicate in `a`.
pub proof fn lemma_completeness<T: Key>(a: Seq<T>, b: Seq<T>, ia: Seq<usize>, ib: Seq<usize>, j: int)
    requires
        valid_match(a, b, ia, ib),
        0 <= j < b.len(),
        b.len() <= usize::MAX as int,
        occurs(a, b[j].key()),
    ensures
        exists|k: int| 0 <= k < ib.len() && (#[trigger] ib[k] as int) == j,
        forall|k1: int, k2: int|
            0 <= k1 < ib.len() && 0 <= k2 < ib.len() && (ib[k1] as int) == j && (ib[k2] as int) == j
                ==> k1 == k2,
{
    assert(ib.contains(j as usize));
    let k0 = choose|k: int| 0 <= k < ib.len() && ib[k] == j as usize;
    assert((ib[k0] as int) == j);
    assert forall|k1: int, k2: int|
        0 <= k1 < ib.len() && 0 <= k2 < ib.len() && (ib[k1] as int) == j && (ib[k2] as int) == j
            implies k1 == k2
    by {
        if k1 < k2 {
            assert((ib[k1] as int) < (ib[k2] as int));
        }
        if k2 < k1 {
            assert((ib[k2] as int) < (ib[k1] as int));
        }
    }
}

/// Empty inputs: with no reference values or no probe values, nothing is
/// emitted.
pub proof fn lemma_empty_inputs<T: Key>(a: Seq<T>, b: Seq<T>, ia: Seq<usize>, ib: Seq<usize>)
    requires
        valid_match(a, b, ia, ib),
        a.len() == 0 || b.len() == 0,
    ensures
        ia.len() == 0,
        ib.len() == 0,
{
    if ib.len() > 0 {
        assert((ia[0] as int) < a.len());
        assert((ib[0] as int) < b.len());
        assert(false);
    }
}

/// Two strictly ascending position sequences with the same members are
/// equal.
proof fn lemma_ascending_unique(s1: Seq<usize>, s2: Seq<usize>)
    requires
        strictly_ascending(s1),
        strictly_ascending(s2),
        forall|x: usize| s1.contains(x) <==> s2.contains(x),
    ensures
        s1 =~= s2,
    decreases s1.len(),
{
    if s1.len() == 0 {
        if s2.len() > 0 {
            assert(s2.contains(s2[0]));
            assert(s1.contains(s2[0]));
            assert(false);
        }
    } else if s2.len() == 0 {
        assert(s1.contains(s1[0]));
        assert(s2.contains(s1[0]));
        assert(false);
    } else {
        assert(s1.contains(s1[0]));
        assert(s2.contains(s2[0]));
        assert(s2.contains(s1[0]));
        assert(s1.contains(s2[0]));
        let k1 = choose|k: int| 0 <= k < s2.len() && s2[k] == s1[0];
        let k2 = choose|k: int| 0 <= k < s1.len() && s1[k] == s2[0];
        if k1 > 0 {
            assert((s2[0] as int) < (s2[k1] as int));
        }
        if k2 > 0 {
            assert((s1[0] as int) < (s1[k2] as int));
        }
        assert(s1[0] == s2[0]);
        let t1 = s1.subrange(1, s1.len() as int);
        let t2 = s2.subrange(1, s2.len() as int);
        assert(strictly_ascending(t1)) by {
            assert forall|p: int, q: int| 0 <= p < q < t1.len()
                implies (#[trigger] t1[p] as int) < (#[trigger] t1[q] as int)
            by {
                assert(t1[p] == s1[p + 1]);
                assert(t1[q] == s1[q + 1]);
            }
        }
        assert(strictly_ascending(t2)) by {
            assert forall|p: int, q: int| 0 <= p < q < t2.len()
                implies (#[trigger] t2[p] as int) < (#[trigger] t2[q] as int)
            by {
                assert(t2[p] == s2[p + 1]);
                assert(t2[q] == s2[q + 1]);
            }
        }
        assert forall|x: usize| t1.contains(x) implies t2.contains(x) by {
            let k = choose|k: int| 0 <= k < t1.len() && t1[k] == x;
            assert(s1[k + 1] == x);
            assert((s1[0] as int) < (s1[k + 1] as int));
            assert(s1.contains(x));
            assert(s2.contains(x));
            let m = choose|m: int| 0 <= m < s2.len() && s2[m] == x;
            if m > 0 {
                assert(t2[m - 1] == x);
            }
        }
        assert forall|x: usize| t2.contains(x) implies t1.contains(x) by {
            let k = choose|k: int| 0 <= k < t2.len() && t2[k] == x;
            assert(s2[k + 1] == x);
            assert((s2[0] as int) < (s2[k + 1] as int));
            assert(s2.contains(x));
            assert(s1.contains(x));
            let m = choose|m: int| 0 <= m < s1.len() && s1[m] == x;
            if m > 0 {
                assert(t1[m - 1] == x);
            }
        }
        lemma_ascending_unique(t1, t2);
        assert(s1.len() == s2.len());
        assert forall|i: int| 0 <= i < s1.len() implies s1[i] == s2[i] by {
            if i > 0 {
                assert(t1[i - 1] == t2[i - 1]);
                assert(t1[i - 1] == s1[i]);
                assert(t2[i - 1] == s2[i]);
            }
        }
    }
}

/// Two results meeting the contract, against reference arrays holding the
/// same values, emit the same probe positions.
proof fn lemma_same_positions<T: Key>(
    a1: Seq<T>,
    a2: Seq<T>,
    b: Seq<T>,
    ia1: Seq<usize>,
    ib1: Seq<usize>,
    ia2: Seq<usize>,
    ib2: Seq<usize>,
)
    requires
        valid_match(a1, b, ia1, ib1),
        valid_match(a2, b, ia2, ib2),
        forall|v: int| #[trigger] occurs(a1, v) <==> occurs(a2, v),
    ensures
        ib1 == ib2,
{
    assert forall|x: usize| ib1.contains(x) implies ib2.contains(x) by {
        let k = choose|k: int| 0 <= k < ib1.len() && ib1[k] == x;
        let j = ib1[k] as int;
        assert((ib1[k] as int) < b.len());
        assert(a1[ia1[k] as int].key() == b[j].key());
        assert(occurs(a1, b[j].key()));
        assert(occurs(a2, b[j].key()));
        assert(ib2.contains(j as usize));
    }
    assert forall|x: usize| ib2.contains(x) implies ib1.contains(x) by {
        let k = choose|k: int| 0 <= k < ib2.len() && ib2[k] == x;
        let j = ib2[k] as int;
        assert((ib2[k] as int) < b.len());
        assert(a2[ia2[k] as int].key() == b[j].key());
        assert(occurs(a2, b[j].key()));
        assert(occurs(a1, b[j].key()));
        assert(ib1.contains(j as usize));
    }
    lemma_ascending_unique(ib1, ib2);
    assert(ib1 =~= ib2);
}

/// Strategy equivalence: any two results meeting the contract for the same
/// inputs — in particular one from the sequential and one from the parallel
/// strategy — emit the same probe positions and represent the same set of
/// (matched value, probe position) pairs, whichever positions of `a` their
/// duplicate tie-breaks chose.
pub proof fn lemma_strategy_equivalence<T: Key>(
    a: Seq<T>,
    b: Seq<T>,
    ia1: Seq<usize>,
    ib1: Seq<usize>,
    ia2: Seq<usize>,
    ib2: Seq<usize>,
)
    requires
        valid_match(a, b, ia1, ib1),
        valid_match(a, b, ia2, ib2),
    ensures
        ib1 == ib2,
        pair_set(a, ia1, ib1) == pair_set(a, ia2, ib2),
{
    lemma_same_positions(a, a, b, ia1, ib1, ia2, ib2);
    assert forall|pr: (int, int)| pair_set(a, ia1, ib1).contains(pr)
        implies pair_set(a, ia2, ib2).contains(pr)
    by {
        let k = choose|k: int|
            0 <= k < ib1.len() && pr.0 == a[ia1[k] as int].key() && pr.1 == (ib1[k] as int);
        assert(a[ia1[k] as int].key() == b[ib1[k] as int].key());
        assert(a[ia2[k] as int].key() == b[ib2[k] as int].key());
        assert(pr.0 == a[ia2[k] as int].key() && pr.1 == (ib2[k] as int));
    }
    assert forall|pr: (int, int)| pair_set(a, ia2, ib2).contains(pr)
        implies pair_set(a, ia1, ib1).contains(pr)
    by {
        let k = choose|k: int|
            0 <= k < ib2.len() && pr.0 == a[ia2[k] as int].key() && pr.1 == (ib2[k] as int);
        assert(a[ia2[k] as int].key() == b[ib2[k] as int].key());
        assert(a[ia1[k] as int].key() == b[ib1[k] as int].key());
        assert(pr.0 == a[ia1[k] as int].key() && pr.1 == (ib1[k] as int));
    }
    assert(pair_set(a, ia1, ib1) =~= pair_set(a, ia2, ib2));
}

/// Rearranging the values of `a` changes which of its positions are
/// reported, but not which positions of `b` match, how many, nor the
/// matched values.
pub proof fn lemma_permutation_of_a<T: Key>(
    a1: Seq<T>,
    a2: Seq<T>,
    b: Seq<T>,
    ia1: Seq<usize>,
    ib1: Seq<usize>,
    ia2: Seq<usize>,
    ib2: Seq<usize>,
)
    requires
        a1.to_multiset() == a2.to_multiset(),
        valid_match(a1, b, ia1, ib1),
        valid_match(a2, b, ia2, ib2),
    ensures
        ib1 == ib2,
        ib1.len() == ib2.len(),
        matched_values(b, ib1) == matched_values(b, ib2),
{
    broadcast use vstd::seq_lib::group_to_multiset_ensures;

    assert forall|v: int| #[trigger] occurs(a1, v) implies occurs(a2, v) by {
        let q = choose|q: int| 0 <= q < a1.len() && a1[q].key() == v;
        let x = a1[q];
        assert(a1.contains(x));
        assert(a2.to_multiset().count(x) > 0);
        assert(a2.contains(x));
        let m = choose|m: int| 0 <= m < a2.len() && a2[m] == x;
        assert(a2[m].key() == v);
    }
    assert forall|v: int| occurs(a2, v) implies #[trigger] occurs(a1, v) by {
        let q = choose|q: int| 0 <= q < a2.len() && a2[q].key() == v;
        let x = a2[q];
        assert(a2.contains(x));
        assert(a1.to_multiset().count(x) > 0);
        assert(a1.contains(x));
        let m = choose|m: int| 0 <= m < a1.len() && a1[m] == x;
        assert(a1[m].key() == v);
    }
    lemma_same_positions(a1, a2, b, ia1, ib1, ia2, ib2);
}

} // verus!
