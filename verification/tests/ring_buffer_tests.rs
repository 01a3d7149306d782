use double_buffered_io::ring_buffer::RingBuffer;

#[test]
fn test_ring_buffer() {
    let mut buffer = RingBuffer::new(10);

    // Test write
    let written = buffer.write(&[1, 2, 3, 4, 5]);
    assert_eq!(written, 5);
    assert_eq!(buffer.available_data(), 10); // 5 new + 5 zeros

    // Test read
    let data = buffer.read(3);
    assert_eq!(data, vec![0, 0, 0]); // Should read zeros first
    assert_eq!(buffer.available_data(), 7);

    // Test wrap-around
    buffer.write(&[6, 7, 8]);
    assert_eq!(buffer.available_data(), 10);
}

#[test]
fn ring_buffer_reads_in_write_order_after_wrap() {
    let mut buffer = RingBuffer::new(10);
    buffer.write(&[1, 2, 3, 4, 5]);
    buffer.read(3);
    buffer.write(&[6, 7, 8]);
    assert_eq!(buffer.read(10), vec![0, 0, 1, 2, 3, 4, 5, 6, 7, 8]);
    assert_eq!(buffer.available_data(), 0);
}

#[test]
fn ring_buffer_starts_full_of_zeros() {
    let mut buffer = RingBuffer::new(4);
    assert_eq!(buffer.available_data(), 4);
    assert_eq!(buffer.peek(10), vec![0, 0, 0, 0]);
    assert_eq!(buffer.read(2), vec![0, 0]);
}

#[test]
fn ring_buffer_never_overwrites_written_bytes() {
    let mut buffer = RingBuffer::new(4);
    assert_eq!(buffer.write(&[1, 2, 3]), 3);
    // Only one slot is not taken by written bytes: the rest is dropped.
    assert_eq!(buffer.write(&[4, 5, 6]), 1);
    assert_eq!(buffer.write(&[7]), 0);
    assert_eq!(buffer.read(4), vec![1, 2, 3, 4]);
}

#[test]
fn ring_buffer_peek_does_not_consume() {
    let mut buffer = RingBuffer::new(5);
    buffer.write(&[9, 8, 7, 6, 5]);
    assert_eq!(buffer.peek(3), vec![9, 8, 7]);
    assert_eq!(buffer.available_data(), 5);
    assert_eq!(buffer.read(3), vec![9, 8, 7]);
    assert_eq!(buffer.peek(10), vec![6, 5]);
}

#[test]
fn ring_buffer_reads_concatenate() {
    let mut a = RingBuffer::new(6);
    let mut b = RingBuffer::new(6);
    a.write(&[1, 2, 3, 4]);
    b.write(&[1, 2, 3, 4]);
    let mut split = a.read(2);
    split.extend(a.read(3));
    assert_eq!(split, b.read(5));
}

#[test]
fn ring_buffer_read_more_than_available() {
    let mut buffer = RingBuffer::new(3);
    buffer.read(3);
    buffer.write(&[42]);
    assert_eq!(buffer.read(8), vec![42]);
    assert_eq!(buffer.read(8), Vec::<u8>::new());
}

#[test]
fn ring_buffer_zero_capacity() {
    let mut buffer = RingBuffer::new(0);
    assert_eq!(buffer.available_data(), 0);
    assert_eq!(buffer.write(&[1, 2]), 0);
    assert_eq!(buffer.peek(1), Vec::<u8>::new());
}

#[test]
fn ring_buffer_long_run_wraps_many_times() {
    let mut buffer = RingBuffer::new(7);
    buffer.read(7);
    let mut expected = Vec::new();
    let mut got = Vec::new();
    for round in 0..20u8 {
        let chunk = [round, round.wrapping_mul(3), round.wrapping_add(100)];
        assert_eq!(buffer.write(&chunk), 3);
        expected.extend_from_slice(&chunk);
        got.extend(buffer.read(2 + 2 * (round as usize % 2)));
    }
    got.extend(buffer.read(100));
    assert_eq!(got, expected);
}
