//! Fixed-capacity ring buffer backing each sliding loudness window.
//!
//! The meter keeps one of these per window and channel.  Each push stores a
//! sample word, overwriting the oldest one once the buffer is full, and hands
//! the evicted word back to the caller so the host can subtract it from its
//! compensated running sum.  The buffer's capacity is fixed at construction;
//! a push never reallocates.
//!
//! Sample words are opaque `u64` values: the host stores the bit pattern of
//! each squared, K-weighted sample and interprets the words it gets back.
//! The contracts therefore pin down the one thing the windowed mean depends
//! on structurally: at every moment the buffer holds exactly the most recent
//! `capacity` words pushed, in order, and eviction returns exactly the word
//! that left the window.

use vstd::prelude::*;

verus! {

/// The suffix of `h` that a window of capacity `cap` still holds: all of `h`
/// while `h` is short, and the last `cap` words of `h` once it is longer.
pub open spec fn recent_window(h: Seq<u64>, cap: nat) -> Seq<u64> {
    if h.len() <= cap {
        h
    } else {
        h.subrange(h.len() - cap, h.len() as int)
    }
}

/// The word a window of capacity `cap` evicts when one more word is pushed
/// after the history `h`: the oldest resident word if the window is full,
/// and nothing otherwise.
pub open spec fn eviction_of(h: Seq<u64>, cap: nat) -> Option<u64> {
    if cap > 0 && h.len() >= cap {
        Some(h[h.len() - cap])
    } else {
        None
    }
}

/// Wraps a position `j` in `0 .. 2 * cap` back into `0 .. cap`.
spec fn wrap_index(j: int, cap: int) -> int {
    if j < cap {
        j
    } else {
        j - cap
    }
}

/// Circular accumulator with a write cursor and a fill counter.  `buf` never
/// changes length after construction; `history` records every word ever
/// pushed since the last reset.
pub struct RingBuffer {
    buf: Vec<u64>,
    head: usize,
    len: usize,
    history: Ghost<Seq<u64>>,
}

impl View for RingBuffer {
    type V = Seq<u64>;

    /// The resident window, oldest word first.
    closed spec fn view(&self) -> Seq<u64> {
        Seq::new(
            self.len as nat,
            |i: int|
                self.buf@[wrap_index(
                    self.head + self.buf@.len() - self.len + i,
                    self.buf@.len() as int,
                )],
        )
    }
}

impl RingBuffer {
    /// Fixed capacity chosen at construction.
    pub closed spec fn cap(&self) -> nat {
        self.buf@.len()
    }

    /// Every word pushed since construction or the last reset, in order.
    pub closed spec fn history(&self) -> Seq<u64> {
        self.history@
    }

    pub closed spec fn wf(&self) -> bool {
        &&& self.len <= self.buf@.len()
        &&& (self.buf@.len() > 0 ==> self.head < self.buf@.len())
        &&& (self.buf@.len() == 0 ==> self.head == 0)
        &&& self@ == recent_window(self.history@, self.cap())
    }

    /// The structural heart of the windowed mean: a well-formed buffer holds
    /// exactly the most recent `cap` pushed words (all of them while fewer
    /// have been pushed), so any sum over its contents is a sum over
    /// precisely those words.
    pub proof fn lemma_contents_are_recent_history(&self)
        requires
            self.wf(),
        ensures
            self@ == recent_window(self.history(), self.cap()),
            self@.len() == if self.history().len() <= self.cap() {
                self.history().len()
            } else {
                self.cap()
            },
    {
    }

    /// A buffer of the given capacity, empty, with all slots zeroed.
    pub fn new(capacity: usize) -> (r: RingBuffer)
        ensures
            r.wf(),
            r.cap() == capacity,
            r.history() == Seq::<u64>::empty(),
            r@ == Seq::<u64>::empty(),
    {
        let mut buf: Vec<u64> = Vec::new();
        let mut i: usize = 0;
        while i < capacity
            invariant
                i <= capacity,
                buf@.len() == i,
            decreases capacity - i,
        {
            buf.push(0);
            i = i + 1;
        }
        let r = RingBuffer { buf, head: 0, len: 0, history: Ghost(Seq::empty()) };
        proof {
            assert(r@ =~= Seq::<u64>::empty());
        }
        r
    }

    /// Current number of resident words.
    pub fn len(&self) -> (n: usize)
        requires
            self.wf(),
        ensures
            n == self@.len(),
    {
        self.len
    }

    /// The capacity fixed at construction.
    pub fn capacity(&self) -> (n: usize)
        ensures
            n == self.cap(),
    {
        self.buf.len()
    }

    /// Stores `value`, evicting and returning the oldest resident word when
    /// the buffer is already full.
    pub fn push(&mut self, value: u64) -> (evicted: Option<u64>)
        requires
            old(self).wf(),
            old(self).cap() > 0,
        ensures
            final(self).wf(),
            final(self).cap() == old(self).cap(),
            final(self).history() == old(self).history().push(value),
            final(self)@ == recent_window(old(self).history().push(value), old(self).cap()),
            evicted == eviction_of(old(self).history(), old(self).cap()),
    {
        let ghost h0 = self.history@;
        let cap = self.buf.len();
        let evicted: Option<u64>;
        if self.len == cap {
            evicted = Some(self.buf[self.head]);
        } else {
            self.len = self.len + 1;
            evicted = None;
        }
        self.buf.set(self.head, value);
        self.head = if self.head + 1 == cap {
            0
        } else {
            self.head + 1
        };
        self.history = Ghost(h0.push(value));
        proof {
            let c = cap as int;
            let w0 = old(self)@;
            if w0.len() == c {
                // Full before the push: the oldest word leaves, the rest
                // shift down one place, and `value` becomes the newest.
                assert(h0.len() >= c);
                assert(w0[0] == old(self).buf@[wrap_index(
                    old(self).head + c - old(self).len + 0,
                    c,
                )]);
                assert(w0[0] == old(self).buf@[old(self).head as int]);
                assert(w0[0] == h0[h0.len() - c]);
                assert(evicted == eviction_of(h0, old(self).cap()));
                assert forall|i: int| 0 <= i < self.len as int implies self@[i]
                    == recent_window(h0.push(value), self.cap())[i] by {
                    if i < c - 1 {
                        assert(self@[i] == w0[i + 1]);
                        assert(recent_window(h0.push(value), self.cap())[i] == h0[h0.len() - c + i
                            + 1]);
                        assert(w0[i + 1] == h0[h0.len() - c + i + 1]);
                    } else {
                        assert(self@[i] == value);
                    }
                }
                assert(self@ =~= recent_window(h0.push(value), self.cap()));
            } else {
                // Not yet full: everything stays put and `value` is appended.
                assert(h0.len() < c);
                assert(recent_window(h0, old(self).cap()) == h0);
                assert forall|i: int| 0 <= i < self.len as int implies self@[i] == h0.push(value)[i]
                    by {
                    if i < self.len as int - 1 {
                        assert(self@[i] == w0[i]);
                    } else {
                        assert(self@[i] == value);
                    }
                }
                assert(self@ =~= recent_window(h0.push(value), self.cap()));
            }
        }
        evicted
    }

    /// Empties the buffer and zeroes its slots without changing its
    /// capacity; no memory is released.
    pub fn reset(&mut self)
        requires
            old(self).wf(),
        ensures
            final(self).wf(),
            final(self).cap() == old(self).cap(),
            final(self).history() == Seq::<u64>::empty(),
            final(self)@ == Seq::<u64>::empty(),
    {
        let cap = self.buf.len();
        let mut i: usize = 0;
        while i < cap
            invariant
                i <= cap,
                self.buf@.len() == cap,
            decreases cap - i,
        {
            self.buf.set(i, 0);
            i = i + 1;
        }
        self.head = 0;
        self.len = 0;
        self.history = Ghost(Seq::empty());
        proof {
            assert(self@ =~= Seq::<u64>::empty());
        }
    }
}

} // verus!
