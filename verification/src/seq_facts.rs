//! A fact about sequences that the loops over set members use.

use vstd::prelude::*;

verus! {

/// The first `n + 1` entries of a sequence hold what the first `n` hold, and entry `n`.
pub(crate) proof fn lemma_one_more_seen<T>(all: Seq<T>, n: int, x: T)
    requires
        0 <= n < all.len(),
    ensures
        all.take(n + 1).contains(x) <==> (all.take(n).contains(x) || all[n] == x),
{
    let seen = all.take(n);
    let next = all.take(n + 1);
    if seen.contains(x) {
        let k = choose|k: int| 0 <= k < seen.len() && seen[k] == x;
        assert(next[k] == x);
    }
    if next.contains(x) {
        let k = choose|k: int| 0 <= k < next.len() && next[k] == x;
        if k < n {
            assert(seen[k] == x);
        }
    }
    if all[n] == x {
        assert(next[n] == x);
    }
}

} // verus!
