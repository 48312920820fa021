//! The matcher: probe every position of `b` in a sorted copy of `a`, and
//! collect the pairs of positions holding equal values. The sequential
//! strategy scans `b` itself; the parallel strategy hands the scan to a
//! thread pool and assembles the same per-position reports.

use vstd::prelude::*;
use crate::key::Key;
use crate::search::{binary_search, occurs, search_ok, sorted_by_key};
use crate::sorting::{argsort, ascending_through, covers, in_range};
use rayon::iter::IntoParallelRefIterator;
use rayon::iter::ParallelIterator;

verus! {

broadcast use vstd::seq_lib::lemma_seq_contains_after_push;

/// `s` is strictly ascending.
pub open spec fn strictly_ascending(s: Seq<usize>) -> bool {
    forall|k1: int, k2: int| 0 <= k1 < k2 < s.len() ==> (#[trigger] s[k1] as int) < (#[trigger] s[k2] as int)
}

/// What one probe reports, read back through the permutation: either a
/// position of `a` holding the value, or the guarantee that no position
/// of `a` does.
pub open spec fn probe_ok<T: Key>(a: Seq<T>, perm: Seq<usize>, v: int, res: Option<usize>) -> bool {
    match res {
        Some(p) => 0 <= (p as int) < perm.len() && (perm[p as int] as int) < a.len()
            && a[perm[p as int] as int].key() == v,
        None => !occurs(a, v),
    }
}

/// The matcher's result contract: `ia` and `ib` pair positions of `a` and
/// `b` holding equal values, `ib` is strictly ascending, and `ib` holds
/// exactly the positions of `b` whose value occurs somewhere in `a`. Which
/// position of `a` stands in `ia` when the value occurs there more than
/// once is the search's choice.
pub open spec fn valid_match<T: Key>(a: Seq<T>, b: Seq<T>, ia: Seq<usize>, ib: Seq<usize>) -> bool {
    &&& ia.len() == ib.len()
    &&& forall|k: int| 0 <= k < ib.len() ==> (#[trigger] ia[k] as int) < a.len()
    &&& forall|k: int| 0 <= k < ib.len() ==> (#[trigger] ib[k] as int) < b.len()
    &&& forall|k: int| 0 <= k < ib.len() ==> a[ia[k] as int].key() == b[#[trigger] ib[k] as int].key()
    &&& strictly_ascending(ib)
    &&& forall|j: int| 0 <= j < b.len() ==> (occurs(a, (#[trigger] b[j]).key()) <==> ib.contains(j as usize))
}

/// The values of `data` read through `perm`: the ascending copy that the
/// probes search.
fn apply_perm<T: Key>(data: &Vec<T>, perm: &Vec<usize>) -> (r: Vec<T>)
    requires
        perm@.len() == data@.len(),
        in_range(perm@, data@.len() as int),
    ensures
        r@.len() == data@.len(),
        forall|p: int| 0 <= p < perm@.len() ==> r@[p] == data@[#[trigger] perm@[p] as int],
{
    let mut r: Vec<T> = Vec::new();
    let mut p: usize = 0;
    while p < perm.len()
        invariant
            p <= perm@.len(),
            perm@.len() == data@.len(),
            in_range(perm@, data@.len() as int),
            r@.len() == p,
            forall|q: int| 0 <= q < p ==> r@[q] == data@[#[trigger] perm@[q] as int],
        decreases perm@.len() - p,
    {
        r.push(data[perm[p]]);
        p += 1;
    }
    r
}

/// Probe every position of `b` in the ascending copy, one after the other
/// in position order.
fn probe_all<T: Key>(sorted: &Vec<T>, b: &Vec<T>) -> (r: Vec<Option<usize>>)
    requires
        sorted_by_key(sorted@),
    ensures
        r@.len() == b@.len(),
        forall|j: int| 0 <= j < b@.len() ==> search_ok(sorted@, b@[j].key(), #[trigger] r@[j]),
{
    let mut r: Vec<Option<usize>> = Vec::new();
    let mut j: usize = 0;
    while j < b.len()
        invariant
            j <= b@.len(),
            sorted_by_key(sorted@),
            r@.len() == j,
            forall|jj: int| 0 <= jj < j ==> search_ok(sorted@, b@[jj].key(), #[trigger] r@[jj]),
        decreases b@.len() - j,
    {
        let res = binary_search(sorted, b[j]);
        r.push(res);
        j += 1;
    }
    r
}

/// Probe every position of `b` on rayon's thread pool.
///
/// Relies on rayon 1.12: `par_iter().map(f).collect::<Vec<_>>()` applies
/// `f` to every element and stores each result at the position its input
/// had, so the collected vector equals the sequential map of `f` over `b`.
/// The closure only calls the verified `binary_search`, whose contract
/// gives each stored report.
#[verifier::external_body]
fn par_probe_all<T: Key + Sync>(sorted: &Vec<T>, b: &Vec<T>) -> (r: Vec<Option<usize>>)
    requires
        sorted_by_key(sorted@),
    ensures
        r@.len() == b@.len(),
        forall|j: int| 0 <= j < b@.len() ==> search_ok(sorted@, b@[j].key(), #[trigger] r@[j]),
{
    b.par_iter().map(|x| binary_search(sorted, *x)).collect()
}

/// A probe report on the ascending copy is a probe report on `a` itself,
/// read back through the permutation.
proof fn lemma_probe_transfer<T: Key>(
    a: Seq<T>,
    perm: Seq<usize>,
    sorted: Seq<T>,
    v: int,
    res: Option<usize>,
)
    requires
        perm.len() == a.len(),
        sorted.len() == a.len(),
        a.len() <= usize::MAX as int,
        in_range(perm, a.len() as int),
        covers(perm, a.len() as int),
        forall|p: int| 0 <= p < perm.len() ==> sorted[p] == a[#[trigger] perm[p] as int],
        search_ok(sorted, v, res),
    ensures
        probe_ok(a, perm, v, res),
{
    match res {
        Some(p) => {
            assert(sorted[p as int] == a[perm[p as int] as int]);
        }
        None => {
            if occurs(a, v) {
                let q = choose|q: int| 0 <= q < a.len() && a[q].key() == v;
                assert(perm.contains(q as usize));
                let p = choose|p: int| 0 <= p < perm.len() && perm[p] == q as usize;
                assert(sorted[p] == a[q]);
                assert(occurs(sorted, v));
                assert(false);
            }
        }
    }
}

/// Turn the per-position probe reports into the two index sequences,
/// scanning the reports in ascending position order.
fn assemble<T: Key>(
    a: &Vec<T>,
    b: &Vec<T>,
    perm: &Vec<usize>,
    probes: &Vec<Option<usize>>,
) -> (r: (Vec<usize>, Vec<usize>))
    requires
        probes@.len() == b@.len(),
        perm@.len() == a@.len(),
        forall|j: int| 0 <= j < b@.len() ==> probe_ok(a@, perm@, b@[j].key(), #[trigger] probes@[j]),
    ensures
        valid_match(a@, b@, r.0@, r.1@),
{
    let mut ia: Vec<usize> = Vec::new();
    let mut ib: Vec<usize> = Vec::new();
    let mut j: usize = 0;
    while j < probes.len()
        invariant
            j <= b@.len(),
            probes@.len() == b@.len(),
            perm@.len() == a@.len(),
            forall|jj: int| 0 <= jj < b@.len() ==> probe_ok(a@, perm@, b@[jj].key(), #[trigger] probes@[jj]),
            ia@.len() == ib@.len(),
            forall|k: int| 0 <= k < ib@.len() ==> (#[trigger] ia@[k] as int) < a@.len(),
            forall|k: int| 0 <= k < ib@.len() ==> (#[trigger] ib@[k] as int) < j,
            forall|k: int| 0 <= k < ib@.len() ==> a@[ia@[k] as int].key() == b@[#[trigger] ib@[k] as int].key(),
            strictly_ascending(ib@),
            forall|jj: int| 0 <= jj < j ==> (occurs(a@, (#[trigger] b@[jj]).key()) <==> ib@.contains(jj as usize)),
        decreases b@.len() - j,
    {
        match probes[j] {
            Some(p) => {
                proof {
                    assert(probe_ok(a@, perm@, b@[j as int].key(), probes@[j as int]));
                    assert(a@[perm@[p as int] as int].key() == b@[j as int].key());
                }
                ia.push(perm[p]);
                ib.push(j);
            }
            None => {
                proof {
                    assert(probe_ok(a@, perm@, b@[j as int].key(), probes@[j as int]));
                    if ib@.contains(j as usize) {
                        let k = choose|k: int| 0 <= k < ib@.len() && ib@[k] == j as usize;
                        assert((ib@[k] as int) < j);
                        assert(false);
                    }
                }
            }
        }
        j += 1;
    }
    (ia, ib)
}

/// Sequential matcher: one scan of `b` in ascending position order.
pub fn i1d<T: Key>(a: &Vec<T>, b: &Vec<T>) -> (r: (Vec<usize>, Vec<usize>))
    ensures
        valid_match(a@, b@, r.0@, r.1@),
{
    let perm = argsort(a);
    let sorted = apply_perm(a, &perm);
    proof {
        lemma_sorted_copy(a@, perm@, sorted@);
    }
    let probes = probe_all(&sorted, b);
    proof {
        assert forall|j: int| 0 <= j < b@.len()
            implies probe_ok(a@, perm@, b@[j].key(), #[trigger] probes@[j])
        by {
            lemma_probe_transfer(a@, perm@, sorted@, b@[j].key(), probes@[j]);
        }
    }
    assemble(a, b, &perm, &probes)
}

/// Parallel matcher: the probes of `b` run on rayon's thread pool over the
/// shared, read-only sorted copy; the reports are assembled afterwards.
pub fn par_i1d<T: Key + Sync>(a: &Vec<T>, b: &Vec<T>) -> (r: (Vec<usize>, Vec<usize>))
    ensures
        valid_match(a@, b@, r.0@, r.1@),
{
    let perm = argsort(a);
    let sorted = apply_perm(a, &perm);
    proof {
        lemma_sorted_copy(a@, perm@, sorted@);
    }
    let probes = par_probe_all(&sorted, b);
    proof {
        assert forall|j: int| 0 <= j < b@.len()
            implies probe_ok(a@, perm@, b@[j].key(), #[trigger] probes@[j])
        by {
            lemma_probe_transfer(a@, perm@, sorted@, b@[j].key(), probes@[j]);
        }
    }
    assemble(a, b, &perm, &probes)
}

/// Reading `data` through an ascending permutation gives a sorted copy.
proof fn lemma_sorted_copy<T: Key>(a: Seq<T>, perm: Seq<usize>, sorted: Seq<T>)
    requires
        perm.len() == a.len(),
        sorted.len() == a.len(),
        in_range(perm, a.len() as int),
        ascending_through(a, perm),
        forall|p: int| 0 <= p < perm.len() ==> sorted[p] == a[#[trigger] perm[p] as int],
    ensures
        sorted_by_key(sorted),
{
    assert forall|p: int, q: int| 0 <= p <= q < sorted.len()
        implies sorted[p].key() <= sorted[q].key()
    by {
        assert(sorted[p] == a[perm[p] as int]);
        assert(sorted[q] == a[perm[q] as int]);
    }
}

} // verus!
