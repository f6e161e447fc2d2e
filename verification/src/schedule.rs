//! When a progress line is due.
//!
//! The benchmark runs a fixed number of epochs and reports progress every
//! `interval`-th epoch (epochs are counted from 1). These functions decide
//! that schedule, so the numeric loop itself holds no display logic.

use vstd::prelude::*;

verus! {

/// True exactly when a progress line is due at the given epoch
/// (1-indexed): at epochs `interval`, `2 * interval`, and so on.
pub fn is_progress_epoch(epoch: u64, interval: u64) -> (r: bool)
    requires
        interval > 0,
    ensures
        r == (epoch % interval == 0),
{
    epoch % interval == 0
}

/// All epochs of a run of `epochs` epochs at which a progress line is due,
/// in ascending order: the multiples of `interval` up to `epochs`, and no
/// others.
pub fn progress_epochs(epochs: u64, interval: u64) -> (r: Vec<u64>)
    requires
        interval > 0,
    ensures
        r@.len() == epochs / interval,
        forall|i: int| 0 <= i < r@.len() ==> r@[i] == (i + 1) * interval,
        forall|e: u64| #[trigger] r@.contains(e) <==> 1 <= e <= epochs && e % interval == 0,
{
    let n: u64 = epochs / interval;
    proof {
        vstd::arithmetic::div_mod::lemma_fundamental_div_mod(epochs as int, interval as int);
    }
    let mut r: Vec<u64> = Vec::new();
    let mut k: u64 = 0;
    let mut cur: u64 = 0;
    while k < n
        invariant
            interval > 0,
            n == epochs as int / interval as int,
            n * interval <= epochs,
            k <= n,
            cur == k * interval,
            r@.len() == k,
            forall|i: int| 0 <= i < r@.len() ==> r@[i] == (i + 1) * interval,
        decreases n - k,
    {
        proof {
            vstd::arithmetic::mul::lemma_mul_inequality(k as int + 1, n as int, interval as int);
            assert((k + 1) * interval == k * interval + interval)
                by (nonlinear_arith);
        }
        let next: u64 = cur + interval;
        r.push(next);
        cur = next;
        k = k + 1;
    }
    proof {
        assert forall|e: u64| 1 <= e <= epochs && e % interval == 0 implies #[trigger] r@.contains(e) by {
            let q = e as int / interval as int;
            vstd::arithmetic::div_mod::lemma_fundamental_div_mod(e as int, interval as int);
            assert(e == interval * q);
            assert(q >= 1) by (nonlinear_arith)
                requires e >= 1 && interval >= 1 && e == interval * q;
            vstd::arithmetic::div_mod::lemma_div_is_ordered(e as int, epochs as int, interval as int);
            assert(r@[q - 1] == q * interval);
            assert(q * interval == interval * q) by (nonlinear_arith);
            assert(r@[q - 1] == e);
        }
        assert forall|e: u64| #[trigger] r@.contains(e) implies 1 <= e <= epochs && e % interval == 0 by {
            let i = choose|i: int| 0 <= i < r@.len() && r@[i] == e;
            assert(e == (i + 1) * interval);
            vstd::arithmetic::div_mod::lemma_mod_multiples_basic(i + 1, interval as int);
            vstd::arithmetic::mul::lemma_mul_inequality(1, i + 1, interval as int);
            vstd::arithmetic::mul::lemma_mul_inequality(i + 1, n as int, interval as int);
        }
    }
    r
}

} // verus!
