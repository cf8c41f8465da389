//! Output throttling: when a block of samples makes the meter publish.
//!
//! The meter accumulates a sample counter across blocks and publishes fresh
//! loudness values whenever the counter reaches the output interval, then
//! resets the counter to zero.  A block that overshoots the boundary still
//! resets the counter all the way to zero, discarding the overshoot, so the
//! publishing cadence is exactly periodic only when no block crosses a
//! boundary mid-block.  The lemmas below pin that down: for blocks of one
//! common length that divides the interval, the meter publishes exactly once
//! every `interval` accumulated samples, no matter how the stream is chunked.

use vstd::prelude::*;

verus! {

/// Whether a block of `n` samples makes the counter, currently at `count`,
/// reach the interval and publish.
pub open spec fn throttle_fires(interval: nat, count: nat, n: nat) -> bool {
    count + n >= interval
}

/// Counter value after a block of `n` samples: zero when the block
/// published (any overshoot is discarded), the running total otherwise.
pub open spec fn throttle_next(interval: nat, count: nat, n: nat) -> nat {
    if throttle_fires(interval, count, n) {
        0
    } else {
        count + n
    }
}

/// Total number of samples in a sequence of block lengths.
pub open spec fn total_samples(blocks: Seq<nat>) -> nat
    decreases blocks.len(),
{
    if blocks.len() == 0 {
        0
    } else {
        total_samples(blocks.drop_last()) + blocks.last()
    }
}

/// Counter value after feeding the whole sequence of blocks to a fresh
/// throttle.
pub open spec fn residual_after(interval: nat, blocks: Seq<nat>) -> nat
    decreases blocks.len(),
{
    if blocks.len() == 0 {
        0
    } else {
        throttle_next(interval, residual_after(interval, blocks.drop_last()), blocks.last())
    }
}

/// How many of the blocks made a fresh throttle publish.
pub open spec fn fire_count(interval: nat, blocks: Seq<nat>) -> nat
    decreases blocks.len(),
{
    if blocks.len() == 0 {
        0
    } else {
        fire_count(interval, blocks.drop_last()) + if throttle_fires(
            interval,
            residual_after(interval, blocks.drop_last()),
            blocks.last(),
        ) {
            1nat
        } else {
            0nat
        }
    }
}

/// The counter never reaches the interval between blocks.
pub proof fn lemma_residual_below_interval(interval: nat, blocks: Seq<nat>)
    requires
        interval > 0,
    ensures
        residual_after(interval, blocks) < interval,
    decreases blocks.len(),
{
    if blocks.len() > 0 {
        lemma_residual_below_interval(interval, blocks.drop_last());
    }
}

/// Exact periodic cadence for uniform chunking: when every block has the
/// same length `n` and `n` divides the interval, a fresh throttle publishes
/// exactly once per `interval` accumulated samples -- after any sequence of
/// blocks it has published `total / interval` times and its counter holds
/// `total % interval`.
pub proof fn lemma_uniform_chunking(interval: nat, n: nat, blocks: Seq<nat>)
    requires
        interval > 0,
        n > 0,
        interval % n == 0,
        forall|i: int| 0 <= i < blocks.len() ==> blocks[i] == n,
    ensures
        total_samples(blocks) == blocks.len() * n,
        residual_after(interval, blocks) == total_samples(blocks) % interval,
        residual_after(interval, blocks) % n == 0,
        fire_count(interval, blocks) == total_samples(blocks) / interval,
    decreases blocks.len(),
{
    let ii = interval as int;
    let nn = n as int;
    if blocks.len() == 0 {
        assert(0int % ii == 0 && 0int / ii == 0) by {
            vstd::arithmetic::div_mod::lemma_fundamental_div_mod_converse(0, ii, 0, 0);
        }
        assert(0int % nn == 0) by {
            vstd::arithmetic::div_mod::lemma_fundamental_div_mod_converse(0, nn, 0, 0);
        }
    } else {
        let prev = blocks.drop_last();
        assert(forall|i: int| 0 <= i < prev.len() ==> prev[i] == n);
        lemma_uniform_chunking(interval, n, prev);
        let t0 = total_samples(prev) as int;
        let r0 = residual_after(interval, prev) as int;
        let f0 = fire_count(interval, prev) as int;
        assert(blocks.last() == n);
        let t1 = t0 + nn;

        // The previous residue is a multiple of n strictly below the
        // interval, so one more block of n lands on or below the boundary.
        vstd::arithmetic::div_mod::lemma_fundamental_div_mod(r0, nn);
        let a = r0 / nn;
        assert(r0 == nn * a);
        vstd::arithmetic::div_mod::lemma_fundamental_div_mod(ii, nn);
        let k = ii / nn;
        assert(ii == nn * k);
        vstd::arithmetic::div_mod::lemma_mod_division_less_than_divisor(t0, ii);
        assert(r0 < ii);
        assert(r0 + nn <= ii) by (nonlinear_arith)
            requires
                r0 == nn * a,
                ii == nn * k,
                r0 < ii,
                nn > 0,
        ;

        // Totals distribute over appending one more block of n.
        assert(t0 == (blocks.len() - 1) * nn);
        assert(t1 == blocks.len() * nn) by (nonlinear_arith)
            requires
                t0 == (blocks.len() - 1) * nn,
                t1 == t0 + nn,
        ;

        vstd::arithmetic::div_mod::lemma_fundamental_div_mod(t0, ii);
        assert(t0 == ii * f0 + r0);

        if r0 + nn >= ii {
            // This block lands exactly on the boundary and publishes.
            assert(r0 + nn == ii);
            assert(t1 == (f0 + 1) * ii) by (nonlinear_arith)
                requires
                    t1 == ii * f0 + r0 + nn,
                    r0 + nn == ii,
            ;
            vstd::arithmetic::div_mod::lemma_fundamental_div_mod_converse(t1, ii, f0 + 1, 0);
            assert(0int % nn == 0) by {
                vstd::arithmetic::div_mod::lemma_fundamental_div_mod_converse(0, nn, 0, 0);
            }
        } else {
            // Still short of the boundary: the counter keeps accumulating.
            vstd::arithmetic::div_mod::lemma_fundamental_div_mod_converse(t1, ii, f0, r0 + nn);
            assert((r0 + nn) == nn * (a + 1)) by (nonlinear_arith)
                requires
                    r0 == nn * a,
            ;
            assert((nn * (a + 1)) % nn == 0) by {
                vstd::arithmetic::div_mod::lemma_mod_multiples_basic(a + 1, nn);
            }
        }
    }
}

/// Chunking does not matter: two uniform chunkings of the same stream whose
/// block lengths both divide the interval publish the same number of times
/// and leave the same counter behind.
pub proof fn lemma_chunking_independent(
    interval: nat,
    n1: nat,
    n2: nat,
    blocks1: Seq<nat>,
    blocks2: Seq<nat>,
)
    requires
        interval > 0,
        n1 > 0,
        n2 > 0,
        interval % n1 == 0,
        interval % n2 == 0,
        forall|i: int| 0 <= i < blocks1.len() ==> blocks1[i] == n1,
        forall|i: int| 0 <= i < blocks2.len() ==> blocks2[i] == n2,
        total_samples(blocks1) == total_samples(blocks2),
    ensures
        fire_count(interval, blocks1) == fire_count(interval, blocks2),
        residual_after(interval, blocks1) == residual_after(interval, blocks2),
{
    lemma_uniform_chunking(interval, n1, blocks1);
    lemma_uniform_chunking(interval, n2, blocks2);
}

} // verus!
