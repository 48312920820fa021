//! Sorted-index construction: an argsort that returns, for the reference
//! array, the permutation of positions that reads its values in ascending
//! key order.

use vstd::prelude::*;
use crate::key::Key;

verus! {

/// Every entry of `perm` is a valid position of a sequence of length `n`.
pub open spec fn in_range(perm: Seq<usize>, n: int) -> bool {
    forall|p: int| 0 <= p < perm.len() ==> (#[trigger] perm[p] as int) < n
}

/// Every position of a sequence of length `n` appears somewhere in `perm`.
pub open spec fn covers(perm: Seq<usize>, n: int) -> bool {
    forall|q: usize| (q as int) < n ==> #[trigger] perm.contains(q)
}

/// Reading `data` through `perm` gives ascending keys.
pub open spec fn ascending_through<T: Key>(data: Seq<T>, perm: Seq<usize>) -> bool {
    forall|p: int, q: int| 0 <= p <= q < perm.len()
        ==> data[#[trigger] perm[p] as int].key() <= data[#[trigger] perm[q] as int].key()
}

/// The positions `0, 1, …, data.len() - 1`, rearranged so that the values
/// of `data` read through the result are ascending by key. Ties between
/// equal keys may land in any order.
pub fn argsort<T: Key>(data: &Vec<T>) -> (perm: Vec<usize>)
    ensures
        perm@.len() == data@.len(),
        data@.len() <= usize::MAX as int,
        in_range(perm@, data@.len() as int),
        covers(perm@, data@.len() as int),
        ascending_through(data@, perm@),
{
    let n = data.len();
    let mut perm: Vec<usize> = Vec::new();
    let mut i: usize = 0;
    while i < n
        invariant
            i <= n,
            perm@.len() == i,
            forall|p: int| 0 <= p < i ==> (#[trigger] perm@[p] as int) == p,
        decreases n - i,
    {
        perm.push(i);
        i += 1;
    }
    assert(covers(perm@, n as int)) by {
        assert forall|q: usize| (q as int) < n implies #[trigger] perm@.contains(q) by {
            assert(perm@[q as int] == q);
        }
    }
    let mut i: usize = 0;
    while i < n
        invariant
            i <= n,
            n == data@.len(),
            perm@.len() == n,
            in_range(perm@, n as int),
            covers(perm@, n as int),
            forall|p: int, q: int| 0 <= p <= q < i
                ==> data@[#[trigger] perm@[p] as int].key() <= data@[#[trigger] perm@[q] as int].key(),
        decreases n - i,
    {
        let mut j: usize = i;
        while j > 0 && !data[perm[j - 1]].le(data[perm[j]])
            invariant
                j <= i < n,
                n == data@.len(),
                perm@.len() == n,
                in_range(perm@, n as int),
                covers(perm@, n as int),
                forall|p: int, q: int| 0 <= p < q <= i && q != j
                    ==> data@[#[trigger] perm@[p] as int].key() <= data@[#[trigger] perm@[q] as int].key(),
            decreases j,
        {
            let hi_pos = perm[j - 1];
            let lo_pos = perm[j];
            let ghost perm0 = perm@;
            perm[j - 1] = lo_pos;
            perm[j] = hi_pos;
            proof {
                assert forall|q: usize| (q as int) < n implies #[trigger] perm@.contains(q) by {
                    assert(perm0.contains(q));
                    let p0 = choose|p: int| 0 <= p < perm0.len() && perm0[p] == q;
                    if p0 == j - 1 {
                        assert(perm@[j as int] == q);
                    } else if p0 == j {
                        assert(perm@[j - 1] == q);
                    } else {
                        assert(perm@[p0] == q);
                    }
                }
            }
            j -= 1;
        }
        proof {
            assert forall|p: int, q: int| 0 <= p <= q < i + 1
                implies data@[#[trigger] perm@[p] as int].key() <= data@[#[trigger] perm@[q] as int].key()
            by {
                if p < q && q == j {
                    assert(data@[perm@[j - 1] as int].key() <= data@[perm@[j as int] as int].key());
                    if p < j - 1 {
                        assert(data@[perm@[p] as int].key() <= data@[perm@[j - 1] as int].key());
                    }
                }
            }
        }
        i += 1;
    }
    perm
}

} // verus!
