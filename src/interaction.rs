//! Which bodies act on which, and in what order their forces are summed.
//!
//! The net force on body `i` is the sum, in increasing index order, of the
//! forces exerted on it by every other body; the term of `i` on itself is
//! never formed.
use vstd::prelude::*;

verus! {

/// The index of the `k`-th body other than body `i`, counting from zero.
pub open spec fn partner(i: int, k: int) -> int {
    if k < i {
        k
    } else {
        k + 1
    }
}

/// The number of bodies among `n` that act on body `i`.
pub open spec fn partner_count(i: int, n: int) -> int {
    if 0 <= i < n {
        n - 1
    } else {
        n
    }
}

/// The indices of the bodies among `0..n` that act on body `i`, in
/// increasing order: every index below `n` but `i`.
pub fn partners(i: usize, n: usize) -> (r: Vec<usize>)
    ensures
        r.len() == partner_count(i as int, n as int),
        forall|k: int| 0 <= k < r.len() ==> #[trigger] r[k] as int == partner(i as int, k),
        !r@.contains(i),
        forall|j: usize| j < n && j != i ==> r@.contains(j),
        forall|k: int| 0 <= k < r.len() ==> #[trigger] r[k] < n,
        forall|k1: int, k2: int| 0 <= k1 < k2 < r.len() ==> r[k1] < r[k2],
{
    let mut r: Vec<usize> = Vec::new();
    let mut j: usize = 0;
    while j < n
        invariant
            j <= n,
            r.len() == if j <= i { j as int } else { j - 1 },
            forall|k: int| 0 <= k < r.len() ==> #[trigger] r[k] as int == partner(i as int, k),
        decreases n - j,
    {
        if j != i {
            r.push(j);
        }
        j = j + 1;
    }
    assert forall|j: usize| j < n && j != i implies r@.contains(j) by {
        let k: int = if j < i { j as int } else { j - 1 };
        assert(r[k] == j);
    }
    r
}

} // verus!
