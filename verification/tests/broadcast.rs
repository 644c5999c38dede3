use shared_bitmap::bitmap::SharedBitmap;
use shared_bitmap::segment::Segment;

#[test]
fn fresh_watch_yields_current_chunk() {
    let mut b = SharedBitmap::new(16384);
    b.toggle(5, 0);
    b.coalesce(0, 0);
    // A fresh subscriber immediately observes the latched snapshot, which
    // after the coalescer ran equals the current chunk bytes.
    let snap = b.watch(0);
    assert_eq!(snap, b.snapshot(0, 1));
    assert_eq!(snap[0], 0x20);
}

#[test]
fn coalesce_publishes_only_on_change() {
    let mut b = SharedBitmap::new(16384);
    assert!(!b.coalesce(0, 0), "nothing changed yet");
    b.toggle(0, 0);
    assert!(b.coalesce(0, 100), "first change must publish");
    assert!(!b.coalesce(0, 200), "no change since last publish");
    b.toggle(0, 0);
    b.toggle(0, 0);
    assert!(!b.coalesce(0, 300), "the two toggles cancelled out");
}

#[test]
fn coalesce_rate_limit_bookkeeping() {
    let mut b = SharedBitmap::new(16384);
    assert_eq!(b.next_publish_at(0), 0);
    b.toggle(0, 0);
    assert!(b.coalesce(0, 1_000));
    assert_eq!(b.next_publish_at(0), 1_100);
    b.toggle(1, 0);
    // The coalescer sleeps until the deadline; the next admissible wake is
    // at 1_100 or later, 100 ms after the previous publish.
    assert!(b.coalesce(0, 1_100));
    assert_eq!(b.next_publish_at(0), 1_200);
}

#[test]
fn flood_of_toggles_coalesces_to_one_publish() {
    let mut b = SharedBitmap::new(16384);
    for i in 0..10_001u128 {
        b.toggle(7, i);
    }
    // One wake publishes once, with the final state: bit 7 at odd parity.
    assert!(b.coalesce(0, 0));
    assert_eq!(b.watch(0)[0], 0x80);
    assert!(!b.coalesce(0, 100));
}

#[test]
fn segment_poll_latches_and_skips() {
    let zeros = vec![0u8; 128];
    let mut s = Segment::from_bytes(&zeros);
    assert!(!s.changed);
    assert_eq!(s.next_publish_at, 0);
    s.notify();
    assert!(s.changed);
    assert!(!s.poll(50, &zeros), "equal bytes are not republished");
    assert!(!s.changed);
    assert_eq!(s.next_publish_at, 0, "a skipped publish leaves the deadline");
    let mut other = vec![0u8; 128];
    other[3] = 9;
    assert!(s.poll(50, &other));
    assert_eq!(s.latched, other);
    assert_eq!(s.next_publish_at, 150);
}

#[test]
fn separate_chunks_have_separate_broadcasters() {
    let mut b = SharedBitmap::new(16384);
    b.toggle(1024, 0);
    assert!(!b.coalesce(0, 0), "chunk 0 unchanged");
    assert!(b.coalesce(1, 0), "chunk 1 changed");
    assert_eq!(b.watch(1)[0], 0x01);
    assert_eq!(b.watch(0), vec![0u8; 128]);
}
