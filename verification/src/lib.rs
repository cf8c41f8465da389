//! Structural core of an ITU-R BS.1770 loudness meter.
//!
//! A loudness meter feeds fixed-size blocks of audio samples through a
//! K-weighting filter, accumulates the squared, weighted samples in sliding
//! windows (400 ms for momentary loudness, 3000 ms for short-term loudness),
//! and converts the window averages to a logarithmic scale at a throttled
//! output rate.  The filter arithmetic and the logarithm act on real-valued
//! samples and live with the host; everything structural about the meter is
//! here, verified:
//!
//! - how the window lengths and the output interval are derived from the
//!   sample rate ([`params`]);
//! - the fixed-capacity ring buffer that holds each sliding window, which
//!   slot each stored word occupies, and which word is evicted on every
//!   push ([`ring`]);
//! - the meter state machine: the four windows advancing in lockstep, the
//!   sample counter that throttles output, warm-up progress, and reset
//!   ([`meter`]);
//! - when the throttled output fires over a whole sequence of blocks
//!   ([`throttle`]);
//! - the pure path and label decisions of the launcher that embeds the
//!   engine ([`host`]).
//!
//! Samples are carried through as opaque 64-bit words (the host stores the
//! bit pattern of each squared sample); the meter never interprets them, so
//! every claim here holds for arbitrary sample values.

pub mod host;
pub mod meter;
pub mod params;
pub mod ring;
pub mod throttle;
