use lufs_meter::ring::RingBuffer;

#[test]
fn fresh_buffer_is_empty() {
    let r = RingBuffer::new(5);
    assert_eq!(r.len(), 0);
    assert_eq!(r.capacity(), 5);
}

#[test]
fn fills_before_evicting() {
    let mut r = RingBuffer::new(3);
    assert_eq!(r.push(10), None);
    assert_eq!(r.push(20), None);
    assert_eq!(r.push(30), None);
    assert_eq!(r.len(), 3);
    assert_eq!(r.capacity(), 3);
}

#[test]
fn evicts_oldest_in_push_order() {
    let mut r = RingBuffer::new(3);
    r.push(1);
    r.push(2);
    r.push(3);
    assert_eq!(r.push(4), Some(1));
    assert_eq!(r.push(5), Some(2));
    assert_eq!(r.push(6), Some(3));
    assert_eq!(r.push(7), Some(4));
    assert_eq!(r.len(), 3);
}

#[test]
fn capacity_one_always_evicts_previous() {
    let mut r = RingBuffer::new(1);
    assert_eq!(r.push(11), None);
    assert_eq!(r.push(22), Some(11));
    assert_eq!(r.push(33), Some(22));
}

#[test]
fn zero_capacity_buffer_constructs() {
    let r = RingBuffer::new(0);
    assert_eq!(r.len(), 0);
    assert_eq!(r.capacity(), 0);
}

#[test]
fn reset_empties_but_keeps_capacity() {
    let mut r = RingBuffer::new(3);
    r.push(1);
    r.push(2);
    r.push(3);
    r.push(4);
    r.reset();
    assert_eq!(r.len(), 0);
    assert_eq!(r.capacity(), 3);
    // behaves like a fresh buffer again
    assert_eq!(r.push(9), None);
    assert_eq!(r.len(), 1);
}

#[test]
fn running_sum_over_window_matches_mean_of_last_n() {
    // The host stores each squared sample's bit pattern and keeps a running
    // sum, adding each pushed value and subtracting each evicted one.  With
    // eviction reporting the exact word that left, the sum always covers
    // exactly the resident window.  The values are exact binary fractions,
    // so the arithmetic below is exact.
    let values: [f64; 6] = [0.5, -1.25, 2.0, 3.5, 10.0, 0.125];
    let capacity: usize = 4;
    let mut r = RingBuffer::new(capacity);
    let mut sum: f64 = 0.0;
    for v in values {
        if let Some(bits) = r.push(v.to_bits()) {
            sum -= f64::from_bits(bits);
        }
        sum += v;
    }
    assert_eq!(r.len(), capacity);
    let mean = sum / capacity as f64;
    let expected = (2.0 + 3.5 + 10.0 + 0.125) / 4.0;
    assert_eq!(mean, expected);
}
