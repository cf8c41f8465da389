//! Derivation of the meter's window lengths from the sample rate.
//!
//! Construction takes a sample rate in Hz and sizes three things from it:
//! the momentary window (400 ms of samples), the short-term window (3000 ms
//! of samples), and the output interval (50 ms of samples, about a 20 Hz
//! update rate).  Each length is the sample rate scaled by the duration and
//! rounded to the nearest whole sample, halves rounded up.  For whole-number
//! rates the scaling is exact rational arithmetic, so the lengths are defined
//! and computed here as integer divisions.

use vstd::prelude::*;

verus! {

/// `num / den` rounded to the nearest integer, halves rounded up.
pub open spec fn round_nearest_div(num: nat, den: nat) -> nat
    recommends
        den > 0,
{
    (2 * num + den) / (2 * den)
}

/// Number of samples in the momentary window: the sample rate times
/// two fifths (400 ms), rounded to the nearest sample.
pub open spec fn momentary_window_spec(rate: nat) -> nat {
    (4 * rate + 5) / 10
}

/// Number of samples in the short-term window: three times the sample
/// rate (3000 ms); a whole number, so no rounding occurs.
pub open spec fn short_window_spec(rate: nat) -> nat {
    3 * rate
}

/// Number of samples between throttled output updates: a twentieth of the
/// sample rate (50 ms), rounded to the nearest sample.
pub open spec fn update_interval_spec(rate: nat) -> nat {
    (rate + 10) / 20
}

/// The three window parameters are exactly the rounded scalings they are
/// meant to be: each equals `round_nearest_div` of the rate times the
/// window duration expressed as a fraction.
pub proof fn lemma_window_lengths_are_rounded(rate: nat)
    ensures
        momentary_window_spec(rate) == round_nearest_div(2 * rate, 5),
        short_window_spec(rate) == round_nearest_div(3 * rate, 1),
        update_interval_spec(rate) == round_nearest_div(rate, 20),
{
    assert((2 * (2 * rate) + 5) / 10 == (4 * rate + 5) / 10);
    assert((2 * (3 * rate) + 1) / 2 == 3 * rate) by {
        vstd::arithmetic::div_mod::lemma_fundamental_div_mod_converse(
            (2 * (3 * rate) + 1) as int,
            2,
            (3 * rate) as int,
            1,
        );
    }
    assert((2 * rate + 20) / 40 == (rate + 10) / 20) by {
        vstd::arithmetic::div_mod::lemma_div_denominator((2 * rate + 20) as int, 2, 20);
        assert((2 * rate + 20) / 2 == rate + 10) by {
            vstd::arithmetic::div_mod::lemma_fundamental_div_mod_converse(
                (2 * rate + 20) as int,
                2,
                (rate + 10) as int,
                0,
            );
        }
    }
}

/// Any rate of at least 2 Hz yields windows of at least one sample each.
pub proof fn lemma_windows_nonempty(rate: nat)
    requires
        rate >= 2,
    ensures
        momentary_window_spec(rate) >= 1,
        short_window_spec(rate) >= 1,
{
    assert((4 * rate + 5) / 10 >= 13int / 10) by {
        vstd::arithmetic::div_mod::lemma_div_is_ordered(13, (4 * rate + 5) as int, 10);
    }
}

/// Momentary window length, computed from a whole-number sample rate.
pub fn momentary_window_len(rate_hz: u32) -> (n: usize)
    requires
        rate_hz <= 100_000_000,
    ensures
        n == momentary_window_spec(rate_hz as nat),
{
    let wide: u64 = (4 * (rate_hz as u64) + 5) / 10;
    assert(wide <= 400_000_005int / 10) by {
        vstd::arithmetic::div_mod::lemma_div_is_ordered(
            (4 * (rate_hz as u64) + 5) as int,
            400_000_005,
            10,
        );
    }
    wide as usize
}

/// Short-term window length, computed from a whole-number sample rate.
pub fn short_window_len(rate_hz: u32) -> (n: usize)
    requires
        rate_hz <= 100_000_000,
    ensures
        n == short_window_spec(rate_hz as nat),
{
    let wide: u64 = 3 * (rate_hz as u64);
    wide as usize
}

/// Output interval in samples, computed from a whole-number sample rate.
pub fn update_interval_len(rate_hz: u32) -> (n: u32)
    requires
        rate_hz <= 100_000_000,
    ensures
        n == update_interval_spec(rate_hz as nat),
{
    (rate_hz + 10) / 20
}

} // verus!
