//! Collatz stopping times.
//!
//! For `n >= 1` let `f(n) = n / 2` when `n` is even and `3n + 1` when `n` is
//! odd. The stopping time of `n` is the least `i` with `f^i(n) == 1`.

use vstd::prelude::*;

verus! {

/// One application of the Collatz map.
pub open spec fn collatz_next(n: nat) -> nat {
    if n % 2 == 0 {
        n / 2
    } else {
        3 * n + 1
    }
}

/// `f^k(n)`: the Collatz map applied `k` times to `n`.
pub open spec fn collatz_iter(n: nat, k: nat) -> nat
    decreases k,
{
    if k == 0 {
        n
    } else {
        collatz_iter(collatz_next(n), (k - 1) as nat)
    }
}

/// `k` is the stopping time of `n`: `f^k(n) == 1` and no earlier iterate is 1.
pub open spec fn is_stopping_time(n: nat, k: nat) -> bool {
    &&& collatz_iter(n, k) == 1
    &&& forall|j: nat| j < k ==> #[trigger] collatz_iter(n, j) != 1
}

/// `n` reaches 1 after `k` steps, and `k` and every value on the way fit in a `usize`.
pub open spec fn fits_with_stopping_time(n: nat, k: nat) -> bool {
    &&& is_stopping_time(n, k)
    &&& k <= usize::MAX
    &&& forall|j: nat| j <= k ==> #[trigger] collatz_iter(n, j) <= usize::MAX
}

/// The computation on `n` stays within `usize`.
pub open spec fn collatz_fits(n: nat) -> bool {
    exists|k: nat| fits_with_stopping_time(n, k)
}

/// The stopping time of `n` (meaningful where `collatz_fits(n)`).
pub open spec fn stopping_time(n: nat) -> nat {
    choose|k: nat| fits_with_stopping_time(n, k)
}

/// A stopping time is unique.
pub proof fn lemma_stopping_time_unique(n: nat, k1: nat, k2: nat)
    requires
        is_stopping_time(n, k1),
        is_stopping_time(n, k2),
    ensures
        k1 == k2,
{
    if k1 < k2 {
        assert(collatz_iter(n, k1) != 1);
    } else if k2 < k1 {
        assert(collatz_iter(n, k2) != 1);
    }
}

/// `f^(k+1)(n) == f(f^k(n))`.
proof fn lemma_iter_succ(n: nat, k: nat)
    ensures
        collatz_iter(n, k + 1) == collatz_next(collatz_iter(n, k)),
    decreases k,
{
    if k > 0 {
        lemma_iter_succ(collatz_next(n), (k - 1) as nat);
    } else {
        assert(collatz_iter(collatz_next(n), 0) == collatz_next(n));
    }
}

/// Away from 1, the bound passes on to `f(n)` with one step less.
proof fn lemma_fits_next(n: nat, k: nat)
    requires
        fits_with_stopping_time(n, k),
        n != 1,
    ensures
        k > 0,
        collatz_next(n) <= usize::MAX,
        fits_with_stopping_time(collatz_next(n), (k - 1) as nat),
        collatz_fits(collatz_next(n)),
        stopping_time(collatz_next(n)) == k - 1,
{
    assert(collatz_iter(n, 0) == n);
    assert(k > 0);
    let m = collatz_next(n);
    let k1 = (k - 1) as nat;
    assert(collatz_iter(m, 0) == m);
    assert(collatz_iter(n, 1) == m);
    assert forall|j: nat| j < k1 implies #[trigger] collatz_iter(m, j) != 1 by {
        assert(collatz_iter(n, j + 1) == collatz_iter(m, j));
    }
    assert forall|j: nat| j <= k1 implies #[trigger] collatz_iter(m, j) <= usize::MAX by {
        assert(collatz_iter(n, j + 1) == collatz_iter(m, j));
    }
    assert(collatz_iter(n, k) == collatz_iter(m, k1));
    assert(fits_with_stopping_time(m, k1));
    let c = stopping_time(m);
    lemma_stopping_time_unique(m, c, k1);
}

/// The stopping time of `n`, computed by recursion.
pub fn collatz_recursive(n: usize) -> (r: usize)
    requires
        collatz_fits(n as nat),
    ensures
        is_stopping_time(n as nat, r as nat),
        r == stopping_time(n as nat),
    decreases stopping_time(n as nat),
{
    let ghost k = stopping_time(n as nat);
    assert(fits_with_stopping_time(n as nat, k));
    if n == 1 {
        proof {
            assert(collatz_iter(1, 0) == 1);
            lemma_stopping_time_unique(1, k, 0);
        }
        0
    } else {
        proof {
            lemma_fits_next(n as nat, k);
        }
        let next: usize = if n % 2 == 0 { n / 2 } else { 3 * n + 1 };
        let r = collatz_recursive(next);
        proof {
            assert(collatz_iter(n as nat, k) == collatz_iter(next as nat, (k - 1) as nat));
        }
        1 + r
    }
}

/// The stopping time of `n`, computed by a loop.
pub fn collatz_iterative(n: usize) -> (r: usize)
    requires
        collatz_fits(n as nat),
    ensures
        is_stopping_time(n as nat, r as nat),
        r == stopping_time(n as nat),
{
    let ghost k = stopping_time(n as nat);
    assert(fits_with_stopping_time(n as nat, k));
    let mut i: usize = 0;
    let mut v: usize = n;
    while v != 1
        invariant
            fits_with_stopping_time(n as nat, k),
            k == stopping_time(n as nat),
            i <= k,
            v as nat == collatz_iter(n as nat, i as nat),
            forall|j: nat| j < i ==> #[trigger] collatz_iter(n as nat, j) != 1,
        decreases k - i,
    {
        proof {
            lemma_iter_succ(n as nat, i as nat);
            assert(collatz_iter(n as nat, (i + 1) as nat) <= usize::MAX);
        }
        v = if v % 2 == 0 { v / 2 } else { 3 * v + 1 };
        i = i + 1;
    }
    i
}

} // verus!
