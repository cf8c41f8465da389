use lufs_meter::meter::LufsMeter;
use lufs_meter::params::{momentary_window_len, short_window_len, update_interval_len};

#[test]
fn window_parameters_at_48k() {
    assert_eq!(momentary_window_len(48000), 19200);
    assert_eq!(short_window_len(48000), 144000);
    assert_eq!(update_interval_len(48000), 2400);
}

#[test]
fn window_parameters_at_44_1k() {
    assert_eq!(momentary_window_len(44100), 17640);
    assert_eq!(short_window_len(44100), 132300);
    assert_eq!(update_interval_len(44100), 2205);
}

#[test]
fn interval_rounds_half_up() {
    // 44110 / 20 = 2205.5: rounds away from zero, matching the host's
    // nearest-sample rounding of the scaled rate
    assert_eq!(update_interval_len(44110), 2206);
    assert_eq!(momentary_window_len(44110), 17644);
}

#[test]
fn constructed_meter_matches_parameters() {
    let m = LufsMeter::new(48000);
    assert_eq!(m.momentary_capacity(), 19200);
    assert_eq!(m.short_capacity(), 144000);
    assert_eq!(m.output_interval(), 2400);
    assert_eq!(m.sample_count(), 0);
    assert_eq!(m.momentary_fill(), 0);
    assert_eq!(m.short_fill(), 0);
    assert_eq!(m.warmup_progress(), (0, 19200));
}

#[test]
fn block_truncates_to_shorter_channel() {
    let mut m = LufsMeter::with_window_sizes(8, 16, 100);
    let left: Vec<u64> = vec![1, 2, 3, 4, 5];
    let right: Vec<u64> = vec![6, 7, 8];
    let out = m.process_block(&left, &right);
    assert_eq!(out.evictions.len(), 3);
    assert_eq!(m.sample_count(), 3);
    assert_eq!(m.momentary_fill(), 3);
    assert_eq!(m.short_fill(), 3);
}

#[test]
fn publishes_once_per_interval_with_dividing_blocks() {
    // output interval 6, uniform blocks of 3 and of 2: both publish exactly
    // at cumulative multiples of 6
    let block3: Vec<u64> = vec![0; 3];
    let mut m = LufsMeter::with_window_sizes(4, 8, 6);
    let mut fired_at: Vec<usize> = Vec::new();
    for call in 1..=8 {
        if m.process_block(&block3, &block3).updated {
            fired_at.push(call * 3);
        }
    }
    assert_eq!(fired_at, vec![6, 12, 18, 24]);

    let block2: Vec<u64> = vec![0; 2];
    let mut m2 = LufsMeter::with_window_sizes(4, 8, 6);
    let mut fired_at2: Vec<usize> = Vec::new();
    for call in 1..=12 {
        if m2.process_block(&block2, &block2).updated {
            fired_at2.push(call * 2);
        }
    }
    assert_eq!(fired_at2, vec![6, 12, 18, 24]);
}

#[test]
fn overshooting_block_discards_the_excess() {
    // blocks of 4 against an interval of 6: the second block overshoots,
    // publishes, and resets the counter to zero, so the next publication
    // comes a full 8 samples later rather than at the next multiple of 6
    let block: Vec<u64> = vec![0; 4];
    let mut m = LufsMeter::with_window_sizes(4, 8, 6);
    assert!(!m.process_block(&block, &block).updated);
    assert_eq!(m.sample_count(), 4);
    assert!(m.process_block(&block, &block).updated);
    assert_eq!(m.sample_count(), 0);
    assert!(!m.process_block(&block, &block).updated);
    assert!(m.process_block(&block, &block).updated);
}

#[test]
fn zero_interval_publishes_every_block() {
    // a rate below 20 Hz rounds the output interval down to zero; the
    // counter condition is then met by every block, even an empty one
    let mut m = LufsMeter::with_window_sizes(1, 3, 0);
    let empty: Vec<u64> = Vec::new();
    assert!(m.process_block(&empty, &empty).updated);
    let one: Vec<u64> = vec![5];
    assert!(m.process_block(&one, &one).updated);
    assert_eq!(m.sample_count(), 0);
}

#[test]
fn warmup_fills_then_saturates() {
    let block: Vec<u64> = vec![0; 4];
    let mut m = LufsMeter::with_window_sizes(10, 20, 100);
    let mut previous_fill: usize = 0;
    for _ in 0..5 {
        m.process_block(&block, &block);
        let (fill, cap) = m.warmup_progress();
        assert_eq!(cap, 10);
        assert!(fill >= previous_fill);
        assert!(fill <= cap);
        previous_fill = fill;
    }
    // cumulative 20 samples against a 10-sample window: exactly full
    assert_eq!(m.warmup_progress(), (10, 10));
    assert_eq!(m.momentary_fill(), 10);
    assert_eq!(m.short_fill(), 20);
}

#[test]
fn reset_all_reproduces_a_fresh_meter() {
    let block: Vec<u64> = vec![9, 8, 7, 6, 5, 4, 3];
    let mut used = LufsMeter::new(4800);
    for _ in 0..40 {
        used.process_block(&block, &block);
    }
    used.reset_all();

    let fresh = LufsMeter::new(4800);
    assert_eq!(used.momentary_capacity(), fresh.momentary_capacity());
    assert_eq!(used.short_capacity(), fresh.short_capacity());
    assert_eq!(used.output_interval(), fresh.output_interval());
    assert_eq!(used.sample_count(), fresh.sample_count());
    assert_eq!(used.momentary_fill(), 0);
    assert_eq!(used.short_fill(), 0);
    assert_eq!(used.warmup_progress(), fresh.warmup_progress());
}

#[test]
fn reset_meter_behaves_like_fresh_on_same_input() {
    let noise: Vec<u64> = (0..11u64).map(|i| i * 31 + 5).collect();
    let mut used = LufsMeter::with_window_sizes(6, 9, 7);
    for _ in 0..9 {
        used.process_block(&noise, &noise);
    }
    used.reset_all();
    let mut fresh = LufsMeter::with_window_sizes(6, 9, 7);
    for _ in 0..5 {
        let a = used.process_block(&noise, &noise);
        let b = fresh.process_block(&noise, &noise);
        assert_eq!(a.updated, b.updated);
        assert_eq!(a.evictions.len(), b.evictions.len());
        for (x, y) in a.evictions.iter().zip(b.evictions.iter()) {
            assert_eq!(x.momentary_left, y.momentary_left);
            assert_eq!(x.momentary_right, y.momentary_right);
            assert_eq!(x.short_left, y.short_left);
            assert_eq!(x.short_right, y.short_right);
        }
        assert_eq!(used.sample_count(), fresh.sample_count());
    }
}

#[test]
fn evictions_replay_the_pushed_words() {
    // momentary window of 2, short window of 4: once both are full, each
    // push evicts the word pushed 2 (resp. 4) samples earlier, per channel
    let left: Vec<u64> = vec![100, 101, 102, 103, 104, 105];
    let right: Vec<u64> = vec![200, 201, 202, 203, 204, 205];
    let mut m = LufsMeter::with_window_sizes(2, 4, 50);
    let out = m.process_block(&left, &right);
    assert!(!out.updated);
    let ev = &out.evictions;
    assert_eq!(ev[0].momentary_left, None);
    assert_eq!(ev[1].momentary_left, None);
    assert_eq!(ev[2].momentary_left, Some(100));
    assert_eq!(ev[5].momentary_left, Some(103));
    assert_eq!(ev[5].momentary_right, Some(203));
    assert_eq!(ev[3].short_left, None);
    assert_eq!(ev[4].short_left, Some(100));
    assert_eq!(ev[5].short_left, Some(101));
    assert_eq!(ev[5].short_right, Some(201));
}
