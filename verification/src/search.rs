//! The sorted-search primitive shared by both execution strategies: a
//! verified binary search over a sequence that is ascending by key.

use vstd::prelude::*;
use crate::key::Key;

verus! {

/// `s` is ascending by key.
pub open spec fn sorted_by_key<T: Key>(s: Seq<T>) -> bool {
    forall|p: int, q: int| 0 <= p <= q < s.len() ==> s[p].key() <= s[q].key()
}

/// Some position of `s` holds the mathematical value `v`.
pub open spec fn occurs<T: Key>(s: Seq<T>, v: int) -> bool {
    exists|p: int| 0 <= p < s.len() && s[p].key() == v
}

/// What one probe of the sorted copy reports: either a position of `s`
/// holding the value, or the guarantee that no position does.
pub open spec fn search_ok<T: Key>(s: Seq<T>, v: int, res: Option<usize>) -> bool {
    match res {
        Some(p) => 0 <= (p as int) < s.len() && s[p as int].key() == v,
        None => !occurs(s, v),
    }
}

/// Binary search for the value of `v` in the ascending `s`. When duplicates
/// of the value exist, which position comes back is the search's choice.
pub fn binary_search<T: Key>(s: &Vec<T>, v: T) -> (r: Option<usize>)
    requires
        sorted_by_key(s@),
    ensures
        search_ok(s@, v.key(), r),
{
    let mut lo: usize = 0;
    let mut hi: usize = s.len();
    while lo < hi
        invariant
            lo <= hi <= s@.len(),
            sorted_by_key(s@),
            forall|p: int| 0 <= p < lo ==> s@[p].key() < v.key(),
            forall|p: int| hi <= p < s@.len() ==> v.key() < s@[p].key(),
        decreases hi - lo,
    {
        let mid = lo + (hi - lo) / 2;
        let x = s[mid];
        if x.le(v) {
            if v.le(x) {
                return Some(mid);
            } else {
                lo = mid + 1;
            }
        } else {
            hi = mid;
        }
    }
    None
}

} // verus!
