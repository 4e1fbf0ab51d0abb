use vstd::prelude::*;

use crate::temp_mat::{split_channels, sample_count, slopes_of, uniform};
use crate::timed::timed_slopes_of;

verus! {

/// A channel of `c.len()` samples has `max(c.len() - 1, 0)` slopes.
pub proof fn lemma_slope_count<T, F: Fn(T, T) -> T>(slope: F, c: Seq<T>, d: Seq<T>)
    requires
        slopes_of(slope, c, d),
    ensures
        d.len() == if c.len() >= 1 {
            c.len() - 1
        } else {
            0
        },
{
}

/// A channel of `c.len()` timed samples has `max(c.len() - 1, 0)` slopes.
pub proof fn lemma_timed_slope_count<T, F: Fn(T, T, u64) -> T>(
    slope: F,
    t: Seq<u64>,
    c: Seq<T>,
    d: Seq<T>,
)
    requires
        timed_slopes_of(slope, t, c, d),
    ensures
        d.len() == if c.len() >= 1 {
            c.len() - 1
        } else {
            0
        },
{
}

/// When a matrix has samples, each of its channels is one sample longer than
/// the same channel of its slopes.
pub proof fn lemma_one_more_than_slopes<T, F: Fn(T, T) -> T>(
    orig: Seq<Seq<T>>,
    slope: F,
    interp: Seq<Seq<T>>,
)
    requires
        uniform(orig),
        sample_count(orig) > 0,
        interp.len() == orig.len(),
        forall|k: int| 0 <= k < orig.len() ==> slopes_of(slope, orig[k], #[trigger] interp[k]),
    ensures
        forall|k: int| 0 <= k < orig.len() ==> (#[trigger] orig[k]).len() == interp[k].len() + 1,
        uniform(interp),
        sample_count(orig) == sample_count(interp) + 1,
{
    assert forall|k: int| 0 <= k < orig.len() implies (#[trigger] orig[k]).len() == interp[k].len()
        + 1 by {
        assert(orig[k].len() == orig[0].len());
        assert(slopes_of(slope, orig[k], interp[k]));
    }
    assert(slopes_of(slope, orig[0], interp[0]));
}

/// A flat series of `k * n` values, dealt into `n` channels, is accepted,
/// and each channel reads back `k` values.
pub proof fn lemma_reshape_lengths<T>(values: Seq<T>, n: nat, k: nat)
    requires
        n > 0,
        values.len() == k * n,
    ensures
        values.len() % n == 0,
        forall|c: int| 0 <= c < n ==> (#[trigger] split_channels(values, n)[c]).len() == k,
{
    vstd::arithmetic::div_mod::lemma_mod_multiples_basic(k as int, n as int);
    vstd::arithmetic::div_mod::lemma_div_multiples_vanish(k as int, n as int);
    assert((n * k) as int == (k * n) as int) by (nonlinear_arith);
}

} // verus!
