use shared_bitmap::bitmap::SharedBitmap;
use shared_bitmap::log::Record;

#[test]
fn fresh_board_shape() {
    let b = SharedBitmap::new(16384);
    assert_eq!(b.num_chunks(), 16);
    assert_eq!(b.count(), 0);
    assert_eq!(b.sum(), 0);
    let snap = b.snapshot(0, 16);
    assert_eq!(snap.len(), 16 * 128);
    assert!(snap.iter().all(|&x| x == 0));
}

#[test]
fn toggle_bit_zero_sets_counters() {
    // Fresh 16-chunk board; toggle bit 0.
    let mut b = SharedBitmap::new(16384);
    let r = b.toggle(0, 11);
    assert_eq!(r, Record::Toggle { time: 11, offset: 0 });
    let snap = b.snapshot(0, 1);
    assert_eq!(snap.len(), 128);
    assert_eq!(snap[0], 0x01);
    assert!(snap[1..].iter().all(|&x| x == 0));
    assert_eq!(b.count(), 1);
    assert_eq!(b.sum(), 1);
}

#[test]
fn set_byte_after_toggle_updates_aggregates() {
    // bit 0 set, then byte 0 overwritten with 0xFF: popcount goes to 8.
    let mut b = SharedBitmap::new(16384);
    b.toggle(0, 0);
    let r = b.set_byte(0, 255, 17);
    assert_eq!(r, Record::SetByte { time: 17, offset: 0, value: 255 });
    assert_eq!(b.count(), 8);
    assert_eq!(b.sum(), 255);
}

#[test]
fn set_byte_twice_is_idempotent_on_aggregates() {
    let mut b = SharedBitmap::new(16384);
    b.toggle(5, 0);
    b.set_byte(100, 0xA5, 0);
    let bits = b.count();
    let sum = b.sum();
    let snap = b.snapshot(0, b.num_chunks());
    b.set_byte(100, 0xA5, 1);
    assert_eq!(b.count(), bits);
    assert_eq!(b.sum(), sum);
    assert_eq!(b.snapshot(0, b.num_chunks()), snap);
}

#[test]
fn toggle_bit_three_sets_byte_eight() {
    let mut b = SharedBitmap::new(16384);
    b.toggle(3, 0);
    let snap = b.snapshot(0, 1);
    assert_eq!(snap[0], 0x08);
    assert_eq!(b.count(), 1);
}

#[test]
fn rapid_toggles_leave_parity() {
    let mut b = SharedBitmap::new(16384);
    for i in 0..10_000u128 {
        b.toggle(7, i);
    }
    // Even count: bit 7 clear again.
    assert_eq!(b.count(), 0);
    assert_eq!(b.sum(), 0);
    assert_eq!(b.snapshot(0, 1)[0], 0);
    b.toggle(7, 10_000);
    assert_eq!(b.count(), 1);
    assert_eq!(b.sum(), 0x80);
    assert_eq!(b.snapshot(0, 1)[0], 0x80);
}

#[test]
fn restart_from_same_bytes_reconstructs_counters() {
    let mut b = SharedBitmap::new(16384);
    b.toggle(3, 0);
    b.toggle(4000, 0);
    b.set_byte(1000, 77, 0);
    let bytes = b.snapshot(0, b.num_chunks());
    let reopened = SharedBitmap::from_bytes(&bytes, 16384);
    assert_eq!(reopened.count(), b.count());
    assert_eq!(reopened.sum(), b.sum());
    assert_eq!(reopened.snapshot(0, reopened.num_chunks()), bytes);
    // A reopened board starts with every broadcaster latched to its chunk.
    assert_eq!(reopened.watch(3), bytes[3 * 128..4 * 128].to_vec());
}

#[test]
fn snapshot_length_is_chunks_times_128() {
    let mut b = SharedBitmap::new(8_000_000);
    b.toggle(1024, 0);
    assert_eq!(b.snapshot(0, 1).len(), 128);
    assert_eq!(b.snapshot(2, 7).len(), 5 * 128);
    assert_eq!(b.snapshot(0, b.num_chunks()).len(), b.num_chunks() * 128);
    assert_eq!(b.snapshot(3, 3).len(), 0);
    // The snapshot is the concatenation of the chunks in order.
    assert_eq!(b.snapshot(1, 2)[0], 0x01);
}

#[test]
fn toggle_all_applies_batch() {
    let mut b = SharedBitmap::new(16384);
    b.toggle_all(&vec![0, 1, 8, 1024, 1024]);
    assert_eq!(b.count(), 3);
    let snap = b.snapshot(0, 2);
    assert_eq!(snap[0], 0x03);
    assert_eq!(snap[1], 0x01);
    assert_eq!(snap[128], 0x00);
    assert_eq!(b.sum(), 4);
}

#[test]
fn mixed_sequence_keeps_aggregates_consistent() {
    let mut b = SharedBitmap::new(16384);
    b.set_byte(0, 0b1010_1010, 0);
    b.toggle(1, 0);
    b.toggle(2, 0);
    b.set_byte(2047, 1, 0);
    b.toggle(16383, 0);
    let snap = b.snapshot(0, b.num_chunks());
    let bits: u64 = snap.iter().map(|&x| x.count_ones() as u64).sum();
    let sum: u64 = snap.iter().map(|&x| x as u64).sum();
    assert_eq!(b.count(), bits);
    assert_eq!(b.sum(), sum);
}
