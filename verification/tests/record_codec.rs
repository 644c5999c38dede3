use shared_bitmap::log::Record;
use shared_bitmap::log::WriterEvent;
use shared_bitmap::log::WriterState;
use shared_bitmap::log::writer_step;

#[test]
fn toggle_record_layout() {
    // A toggle of bit 0 at wall time 2_000_000_000 ns since the epoch.
    let r = Record::Toggle { time: 2_000_000_000u128, offset: 0 };
    let bytes = r.to_record();
    assert_eq!(bytes.len(), 21);
    let mut expected_time = [0u8; 16];
    expected_time[0] = 0x00;
    expected_time[1] = 0x94;
    expected_time[2] = 0x35;
    expected_time[3] = 0x77;
    assert_eq!(&bytes[0..16], &expected_time);
    // Offset 0 with the type bit set: 0x80000000 little-endian.
    assert_eq!(&bytes[16..20], &[0x00, 0x00, 0x00, 0x80]);
    assert_eq!(bytes[20], 0);
}

#[test]
fn set_byte_record_layout() {
    let r = Record::SetByte { time: 1, offset: 3, value: 0xAB };
    let bytes = r.to_record();
    assert_eq!(bytes.len(), 21);
    assert_eq!(bytes[0], 1);
    assert_eq!(&bytes[1..16], &[0u8; 15]);
    assert_eq!(&bytes[16..20], &[0x03, 0x00, 0x00, 0x00]);
    assert_eq!(bytes[20], 0xAB);
}

#[test]
fn records_round_trip() {
    let samples = vec![
        Record::Toggle { time: 0, offset: 0 },
        Record::Toggle { time: 2_000_000_000, offset: 7_999_999 },
        Record::Toggle { time: u128::MAX, offset: 0x7fff_ffff },
        Record::SetByte { time: 0, offset: 0, value: 0 },
        Record::SetByte { time: 123_456_789_000, offset: 999_999, value: 255 },
        Record::SetByte { time: 1, offset: 0x7fff_ffff, value: 1 },
    ];
    for r in samples {
        let bytes = r.to_record();
        assert_eq!(bytes.len(), 21);
        let back = Record::parse(&bytes);
        assert_eq!(back, r);
    }
}

#[test]
fn parse_distinguishes_kinds_by_high_bit() {
    let toggle = Record::Toggle { time: 5, offset: 1024 }.to_record();
    assert!(matches!(Record::parse(&toggle), Record::Toggle { offset: 1024, .. }));
    let set = Record::SetByte { time: 5, offset: 1024, value: 9 }.to_record();
    assert!(matches!(Record::parse(&set), Record::SetByte { offset: 1024, value: 9, .. }));
}

#[test]
fn writer_idle_record_schedules_flush() {
    let r = Record::Toggle { time: 7, offset: 2 };
    let step = writer_step(WriterState::Idle, WriterEvent::Incoming { record: r }, 5_000);
    assert_eq!(step.next, WriterState::Buffered { deadline_ms: 6_000 });
    assert_eq!(step.write_bytes, Some(r.to_record()));
    assert!(!step.flush && !step.ack_flush && !step.reopen && !step.exit);
}

#[test]
fn writer_buffered_record_keeps_deadline() {
    let r = Record::SetByte { time: 7, offset: 2, value: 1 };
    let state = WriterState::Buffered { deadline_ms: 6_000 };
    let step = writer_step(state, WriterEvent::Incoming { record: r }, 5_900);
    assert_eq!(step.next, WriterState::Buffered { deadline_ms: 6_000 });
    assert_eq!(step.write_bytes, Some(r.to_record()));
    assert!(!step.flush && !step.exit);
}

#[test]
fn writer_deadline_flushes_and_goes_idle() {
    let state = WriterState::Buffered { deadline_ms: 6_000 };
    let step = writer_step(state, WriterEvent::DeadlineElapsed, 6_000);
    assert_eq!(step.next, WriterState::Idle);
    assert_eq!(step.write_bytes, None);
    assert!(step.flush && !step.ack_flush && !step.reopen && !step.exit);
}

#[test]
fn writer_flush_request_acks() {
    let step = writer_step(WriterState::Idle, WriterEvent::FlushRequested, 0);
    assert_eq!(step.next, WriterState::Idle);
    assert!(step.flush && step.ack_flush && !step.reopen && !step.exit);
}

#[test]
fn writer_close_flushes_and_exits() {
    let state = WriterState::Buffered { deadline_ms: 1 };
    let step = writer_step(state, WriterEvent::Closed, 0);
    assert!(step.flush && step.exit);
}

#[test]
fn writer_reopen_retains_state() {
    let state = WriterState::Buffered { deadline_ms: 42 };
    let step = writer_step(state, WriterEvent::ReopenRequested, 10);
    assert_eq!(step.next, state);
    assert!(step.flush && step.reopen && !step.exit);
}
