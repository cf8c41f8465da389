//! The meter's structural state machine.
//!
//! A `LufsMeter` owns four ring buffers -- the momentary (400 ms) and
//! short-term (3000 ms) windows, one of each per channel -- plus the sample
//! counter that throttles output.  The host drives it with one call per
//! audio block: it K-weights and squares each raw sample itself, hands the
//! squared values over as opaque 64-bit words, and gets back which word each
//! window evicted (to keep its compensated sums exact) and whether enough
//! samples have accumulated to publish fresh loudness values.
//!
//! The meter has no terminal state: it warms up while the windows fill,
//! then runs steadily for the stream's lifetime, and `reset_all` returns it
//! to exactly the freshly constructed state.

use vstd::prelude::*;

verus! {

use crate::params::{momentary_window_spec, short_window_spec, update_interval_spec};
use crate::params::{momentary_window_len, short_window_len, update_interval_len};
use crate::ring::{RingBuffer, eviction_of, recent_window};
use crate::throttle::{throttle_fires, throttle_next};

/// Abstract state of a meter: the window capacities and output interval
/// fixed at construction, the running sample counter, and per channel the
/// full sequence of squared-sample words pushed since construction or the
/// last reset.  Both windows of a channel see the same history; a window of
/// capacity `c` currently holds the last `c` words of it.
#[verifier::ext_equal]
pub struct MeterView {
    pub momentary_capacity: nat,
    pub short_capacity: nat,
    pub output_interval: nat,
    pub sample_count: nat,
    pub left_history: Seq<u64>,
    pub right_history: Seq<u64>,
}

impl MeterView {
    /// State of a freshly constructed meter with the given parameters.
    pub open spec fn init(m_cap: nat, s_cap: nat, interval: nat) -> MeterView {
        MeterView {
            momentary_capacity: m_cap,
            short_capacity: s_cap,
            output_interval: interval,
            sample_count: 0,
            left_history: Seq::empty(),
            right_history: Seq::empty(),
        }
    }

    /// The state `reset_all` moves to: parameters kept, everything that
    /// accumulates cleared.
    pub open spec fn reset(self) -> MeterView {
        MeterView {
            sample_count: 0,
            left_history: Seq::empty(),
            right_history: Seq::empty(),
            ..self
        }
    }

    /// Number of occupied slots in the momentary window.
    pub open spec fn momentary_fill(self) -> nat {
        if self.left_history.len() <= self.momentary_capacity {
            self.left_history.len()
        } else {
            self.momentary_capacity
        }
    }

    /// Number of occupied slots in the short-term window.
    pub open spec fn short_fill(self) -> nat {
        if self.left_history.len() <= self.short_capacity {
            self.left_history.len()
        } else {
            self.short_capacity
        }
    }
}

/// Resetting a meter reproduces exactly the state of a freshly constructed
/// meter with the same parameters.
pub proof fn lemma_reset_is_fresh(v: MeterView)
    ensures
        v.reset() == MeterView::init(v.momentary_capacity, v.short_capacity, v.output_interval),
{
    assert(v.reset() =~= MeterView::init(
        v.momentary_capacity,
        v.short_capacity,
        v.output_interval,
    ));
}

/// Warm-up progress is monotone: as more samples are pushed the momentary
/// fill never decreases, never exceeds the window capacity, and reaches the
/// capacity exactly when the cumulative number of pushed samples has.
pub proof fn lemma_warmup_monotone(pre: MeterView, post: MeterView)
    requires
        post.momentary_capacity == pre.momentary_capacity,
        pre.left_history.len() <= post.left_history.len(),
    ensures
        pre.momentary_fill() <= post.momentary_fill(),
        post.momentary_fill() <= post.momentary_capacity,
        post.momentary_fill() == post.momentary_capacity <==> post.left_history.len()
            >= post.momentary_capacity,
{
}

/// The words the four windows evicted for one pushed sample pair, in the
/// order the host must replay them against its running sums.
#[derive(Clone, Copy)]
pub struct SampleEvictions {
    pub momentary_left: Option<u64>,
    pub momentary_right: Option<u64>,
    pub short_left: Option<u64>,
    pub short_right: Option<u64>,
}

/// What one processed block produced: whether fresh loudness values are due,
/// and the evictions of every pushed sample, in push order.
pub struct BlockOutcome {
    pub updated: bool,
    pub evictions: Vec<SampleEvictions>,
}

/// Number of sample pairs a block contributes: the two channel slices are
/// silently truncated to the shorter one.
pub open spec fn block_len(left: Seq<u64>, right: Seq<u64>) -> nat {
    if left.len() <= right.len() {
        left.len()
    } else {
        right.len()
    }
}

/// Structural core of the loudness meter: two sliding windows per channel
/// and an output throttle, advancing in lockstep.
pub struct LufsMeter {
    moment_l: RingBuffer,
    moment_r: RingBuffer,
    short_l: RingBuffer,
    short_r: RingBuffer,
    sample_count: u32,
    output_interval: u32,
}

impl View for LufsMeter {
    type V = MeterView;

    closed spec fn view(&self) -> MeterView {
        MeterView {
            momentary_capacity: self.moment_l.cap(),
            short_capacity: self.short_l.cap(),
            output_interval: self.output_interval as nat,
            sample_count: self.sample_count as nat,
            left_history: self.moment_l.history(),
            right_history: self.moment_r.history(),
        }
    }
}

impl LufsMeter {
    pub closed spec fn wf(&self) -> bool {
        &&& self.moment_l.wf()
        &&& self.moment_r.wf()
        &&& self.short_l.wf()
        &&& self.short_r.wf()
        &&& self.moment_l.cap() == self.moment_r.cap()
        &&& self.short_l.cap() == self.short_r.cap()
        &&& self.moment_l.cap() >= 1
        &&& self.short_l.cap() >= 1
        &&& self.moment_l.history() == self.short_l.history()
        &&& self.moment_r.history() == self.short_r.history()
        &&& self.moment_l.history().len() == self.moment_r.history().len()
        &&& (self.output_interval > 0 ==> self.sample_count < self.output_interval)
        &&& (self.output_interval == 0 ==> self.sample_count == 0)
    }

    /// Between blocks the sample counter always sits strictly below the
    /// output interval (and at zero when the interval is zero), so adding a
    /// block of at most `u32::MAX - interval` samples cannot overflow it.
    pub proof fn lemma_counter_below_interval(&self)
        requires
            self.wf(),
        ensures
            self@.output_interval > 0 ==> self@.sample_count < self@.output_interval,
            self@.output_interval == 0 ==> self@.sample_count == 0,
    {
    }

    /// A meter with explicitly chosen window lengths and output interval,
    /// for rates at which the lengths are not whole-number arithmetic.
    /// Windows must hold at least one sample each.
    pub fn with_window_sizes(momentary_len: usize, short_len: usize, interval: u32) -> (m:
        LufsMeter)
        requires
            momentary_len >= 1,
            short_len >= 1,
        ensures
            m.wf(),
            m@ == MeterView::init(momentary_len as nat, short_len as nat, interval as nat),
    {
        let m = LufsMeter {
            moment_l: RingBuffer::new(momentary_len),
            moment_r: RingBuffer::new(momentary_len),
            short_l: RingBuffer::new(short_len),
            short_r: RingBuffer::new(short_len),
            sample_count: 0,
            output_interval: interval,
        };
        proof {
            assert(m@ =~= MeterView::init(momentary_len as nat, short_len as nat, interval as nat));
        }
        m
    }

    /// A meter for a whole-number sample rate in Hz: a 400 ms momentary
    /// window, a 3000 ms short-term window, and a 50 ms output interval,
    /// each rounded to the nearest sample.  Rates below 2 Hz would round the
    /// momentary window down to no samples at all, on which no sample could
    /// ever be accepted, so they are excluded.
    pub fn new(sample_rate_hz: u32) -> (m: LufsMeter)
        requires
            2 <= sample_rate_hz <= 100_000_000,
        ensures
            m.wf(),
            m@ == MeterView::init(
                momentary_window_spec(sample_rate_hz as nat),
                short_window_spec(sample_rate_hz as nat),
                update_interval_spec(sample_rate_hz as nat),
            ),
    {
        let m_len = momentary_window_len(sample_rate_hz);
        let s_len = short_window_len(sample_rate_hz);
        let interval = update_interval_len(sample_rate_hz);
        proof {
            crate::params::lemma_windows_nonempty(sample_rate_hz as nat);
        }
        Self::with_window_sizes(m_len, s_len, interval)
    }

    /// Pushes one squared-sample word per channel into that channel's
    /// momentary and short-term windows, and reports what each window
    /// evicted.  The sample counter is not advanced; `advance` is.
    pub fn push_sample(&mut self, sq_left: u64, sq_right: u64) -> (ev: SampleEvictions)
        requires
            old(self).wf(),
        ensures
            final(self).wf(),
            final(self)@ == (MeterView {
                left_history: old(self)@.left_history.push(sq_left),
                right_history: old(self)@.right_history.push(sq_right),
                ..old(self)@
            }),
            ev.momentary_left == eviction_of(old(self)@.left_history, old(self)@.momentary_capacity),
            ev.momentary_right == eviction_of(
                old(self)@.right_history,
                old(self)@.momentary_capacity,
            ),
            ev.short_left == eviction_of(old(self)@.left_history, old(self)@.short_capacity),
            ev.short_right == eviction_of(old(self)@.right_history, old(self)@.short_capacity),
    {
        let momentary_left = self.moment_l.push(sq_left);
        let momentary_right = self.moment_r.push(sq_right);
        let short_left = self.short_l.push(sq_left);
        let short_right = self.short_r.push(sq_right);
        proof {
            assert(self@ =~= (MeterView {
                left_history: old(self)@.left_history.push(sq_left),
                right_history: old(self)@.right_history.push(sq_right),
                ..old(self)@
            }));
        }
        SampleEvictions { momentary_left, momentary_right, short_left, short_right }
    }

    /// Counts `n` freshly accumulated samples against the output interval.
    /// Reports whether the interval was reached, in which case the counter
    /// restarts from zero, discarding any overshoot.
    pub fn advance(&mut self, n: u32) -> (updated: bool)
        requires
            old(self).wf(),
            old(self)@.sample_count + n <= u32::MAX,
        ensures
            final(self).wf(),
            updated == throttle_fires(old(self)@.output_interval, old(self)@.sample_count, n as nat),
            final(self)@ == (MeterView {
                sample_count: throttle_next(
                    old(self)@.output_interval,
                    old(self)@.sample_count,
                    n as nat,
                ),
                ..old(self)@
            }),
    {
        self.sample_count = self.sample_count + n;
        let updated: bool;
        if self.sample_count >= self.output_interval {
            self.sample_count = 0;
            updated = true;
        } else {
            updated = false;
        }
        proof {
            assert(self@ =~= (MeterView {
                sample_count: throttle_next(
                    old(self)@.output_interval,
                    old(self)@.sample_count,
                    n as nat,
                ),
                ..old(self)@
            }));
        }
        updated
    }

    /// Processes one block: pushes the squared-sample words pairwise --
    /// truncating to the shorter channel slice -- and advances the output
    /// throttle by the number of pairs pushed.  The outcome lists every
    /// eviction in push order and says whether fresh loudness values are
    /// due.
    pub fn process_block(&mut self, sq_left: &[u64], sq_right: &[u64]) -> (out: BlockOutcome)
        requires
            old(self).wf(),
            old(self)@.sample_count + block_len(sq_left@, sq_right@) <= u32::MAX,
        ensures
            final(self).wf(),
            ({
                let n = block_len(sq_left@, sq_right@) as int;
                let v0 = old(self)@;
                &&& final(self)@.momentary_capacity == v0.momentary_capacity
                &&& final(self)@.short_capacity == v0.short_capacity
                &&& final(self)@.output_interval == v0.output_interval
                &&& final(self)@.left_history == v0.left_history + sq_left@.subrange(0, n)
                &&& final(self)@.right_history == v0.right_history + sq_right@.subrange(0, n)
                &&& out.updated == throttle_fires(v0.output_interval, v0.sample_count, n as nat)
                &&& final(self)@.sample_count == throttle_next(
                    v0.output_interval,
                    v0.sample_count,
                    n as nat,
                )
                &&& out.evictions@.len() == n
                &&& forall|j: int|
                    0 <= j < n ==> {
                        let ev = #[trigger] out.evictions@[j];
                        &&& ev.momentary_left == eviction_of(
                            v0.left_history + sq_left@.subrange(0, j),
                            v0.momentary_capacity,
                        )
                        &&& ev.momentary_right == eviction_of(
                            v0.right_history + sq_right@.subrange(0, j),
                            v0.momentary_capacity,
                        )
                        &&& ev.short_left == eviction_of(
                            v0.left_history + sq_left@.subrange(0, j),
                            v0.short_capacity,
                        )
                        &&& ev.short_right == eviction_of(
                            v0.right_history + sq_right@.subrange(0, j),
                            v0.short_capacity,
                        )
                    }
            }),
    {
        let n = if sq_left.len() < sq_right.len() {
            sq_left.len()
        } else {
            sq_right.len()
        };
        let mut evictions: Vec<SampleEvictions> = Vec::new();
        let mut i: usize = 0;
        proof {
            assert(old(self)@.left_history + sq_left@.subrange(0, 0) =~= old(self)@.left_history);
            assert(old(self)@.right_history + sq_right@.subrange(0, 0) =~= old(self)@.right_history);
        }
        while i < n
            invariant
                self.wf(),
                i <= n,
                n == block_len(sq_left@, sq_right@),
                n <= sq_left@.len(),
                n <= sq_right@.len(),
                self@.momentary_capacity == old(self)@.momentary_capacity,
                self@.short_capacity == old(self)@.short_capacity,
                self@.output_interval == old(self)@.output_interval,
                self@.sample_count == old(self)@.sample_count,
                self@.left_history == old(self)@.left_history + sq_left@.subrange(0, i as int),
                self@.right_history == old(self)@.right_history + sq_right@.subrange(0, i as int),
                evictions@.len() == i,
                forall|j: int|
                    0 <= j < i ==> {
                        let ev = #[trigger] evictions@[j];
                        &&& ev.momentary_left == eviction_of(
                            old(self)@.left_history + sq_left@.subrange(0, j),
                            old(self)@.momentary_capacity,
                        )
                        &&& ev.momentary_right == eviction_of(
                            old(self)@.right_history + sq_right@.subrange(0, j),
                            old(self)@.momentary_capacity,
                        )
                        &&& ev.short_left == eviction_of(
                            old(self)@.left_history + sq_left@.subrange(0, j),
                            old(self)@.short_capacity,
                        )
                        &&& ev.short_right == eviction_of(
                            old(self)@.right_history + sq_right@.subrange(0, j),
                            old(self)@.short_capacity,
                        )
                    },
            decreases n - i,
        {
            let ev = self.push_sample(sq_left[i], sq_right[i]);
            evictions.push(ev);
            proof {
                assert(old(self)@.left_history + sq_left@.subrange(0, i as int + 1) =~= (old(
                    self,
                )@.left_history + sq_left@.subrange(0, i as int)).push(sq_left@[i as int]));
                assert(old(self)@.right_history + sq_right@.subrange(0, i as int + 1) =~= (old(
                    self,
                )@.right_history + sq_right@.subrange(0, i as int)).push(sq_right@[i as int]));
            }
            i = i + 1;
        }
        let updated = self.advance(n as u32);
        BlockOutcome { updated, evictions }
    }

    /// Fill state of the momentary window: occupied slots and capacity.
    /// The host divides the two for its warm-up progress fraction; the fill
    /// never exceeds the capacity.
    pub fn warmup_progress(&self) -> (r: (usize, usize))
        requires
            self.wf(),
        ensures
            r.0 == self@.momentary_fill(),
            r.1 == self@.momentary_capacity,
            r.0 <= r.1,
    {
        proof {
            self.moment_l.lemma_contents_are_recent_history();
            self.moment_r.lemma_contents_are_recent_history();
        }
        let fill_left = self.moment_l.len();
        let fill_right = self.moment_r.len();
        let filled = if fill_left < fill_right {
            fill_left
        } else {
            fill_right
        };
        (filled, self.moment_l.capacity())
    }

    /// Occupied slots of the momentary window (equal on both channels).
    pub fn momentary_fill(&self) -> (n: usize)
        requires
            self.wf(),
        ensures
            n == self@.momentary_fill(),
    {
        proof {
            self.moment_l.lemma_contents_are_recent_history();
        }
        self.moment_l.len()
    }

    /// Occupied slots of the short-term window (equal on both channels).
    pub fn short_fill(&self) -> (n: usize)
        requires
            self.wf(),
        ensures
            n == self@.short_fill(),
    {
        proof {
            self.short_l.lemma_contents_are_recent_history();
        }
        self.short_l.len()
    }

    /// Capacity of the momentary window, fixed at construction.
    pub fn momentary_capacity(&self) -> (n: usize)
        ensures
            n == self@.momentary_capacity,
    {
        self.moment_l.capacity()
    }

    /// Capacity of the short-term window, fixed at construction.
    pub fn short_capacity(&self) -> (n: usize)
        ensures
            n == self@.short_capacity,
    {
        self.short_l.capacity()
    }

    /// The output interval, fixed at construction.
    pub fn output_interval(&self) -> (n: u32)
        ensures
            n == self@.output_interval,
    {
        self.output_interval
    }

    /// Samples accumulated towards the next output since the last one.
    pub fn sample_count(&self) -> (n: u32)
        ensures
            n == self@.sample_count,
    {
        self.sample_count
    }

    /// Clears the windows, the sample counter, and the window slots
    /// themselves (without releasing their storage), returning the meter to
    /// exactly the freshly constructed state for its parameters.
    pub fn reset_all(&mut self)
        requires
            old(self).wf(),
        ensures
            final(self).wf(),
            final(self)@ == old(self)@.reset(),
    {
        self.moment_l.reset();
        self.moment_r.reset();
        self.short_l.reset();
        self.short_r.reset();
        self.sample_count = 0;
        proof {
            assert(self@ =~= old(self)@.reset());
        }
    }
}

} // verus!
