use shared_bitmap::bitmap::SharedBitmap;
use shared_bitmap::comm::ChunkDecodeError;
use shared_bitmap::comm::ClientState;
use shared_bitmap::png::render_board_png;
use shared_bitmap::range::encode_snapshot;
use shared_bitmap::range::range_snapshot;
use shared_bitmap::range::range_validate;
use shared_bitmap::range::sum_event;
use shared_bitmap::range::sum_tick;
use shared_bitmap::range::update_event;
use shared_bitmap::range::RangeError;

#[test]
fn base64_nopad_of_one_byte() {
    assert_eq!(encode_snapshot(&vec![0x01]), "AQ");
    assert_eq!(encode_snapshot(&vec![]), "");
    assert_eq!(encode_snapshot(&b"some bytes".to_vec()), "c29tZSBieXRlcw");
}

#[test]
fn snapshot_of_toggled_bit_zero() {
    let mut b = SharedBitmap::new(16384);
    b.toggle(0, 0);
    let bits = range_snapshot(&b, 0, 1024).unwrap();
    let expected = format!("AQ{}", "A".repeat(169));
    assert_eq!(bits, expected);
    assert_eq!(bits.len(), 171);
}

#[test]
fn range_validation_errors() {
    assert_eq!(range_validate(5, 4, 16384), Err(RangeError::Inverted));
    assert_eq!(range_validate(0, 16385, 16384), Err(RangeError::EndTooLarge));
    assert_eq!(range_validate(0, 1024, 16384), Ok((0, 1)));
    assert_eq!(range_validate(0, 1025, 16384), Ok((0, 2)));
    assert_eq!(range_validate(1023, 1024, 16384), Ok((0, 1)));
    assert_eq!(range_validate(1024, 1024, 16384), Ok((1, 1)));
    assert_eq!(range_validate(0, 16384, 16384), Ok((0, 16)));
    assert_eq!(range_validate(0, 8_000_000, 8_000_000), Ok((0, 7813)));
}

#[test]
fn range_error_messages() {
    assert_eq!(RangeError::Inverted.message(), "start must be less than end");
    assert_eq!(RangeError::EndTooLarge.message(), "end too large");
    assert_eq!(RangeError::TooWide.message(), "Cannot listen to such a large range");
}

#[test]
fn update_event_payload() {
    let mut bytes = vec![0u8; 128];
    bytes[0] = 0x20;  // bit 5 set
    let (id, data) = update_event(0, &bytes);
    assert_eq!(id, "0");
    assert_eq!(data, format!("IA{}", "A".repeat(169)));
    let (id2, _) = update_event(3, &bytes);
    assert_eq!(id2, "3072");
}

#[test]
fn sum_events_and_dedup() {
    assert_eq!(sum_event(0), "0");
    assert_eq!(sum_event(12345), "12345");
    assert_eq!(sum_event(u64::MAX), "18446744073709551615");
    assert_eq!(sum_tick(u64::MAX, 1), Some("1".to_string()));
    assert_eq!(sum_tick(1, 1), None);
    assert_eq!(sum_tick(0, 255), Some("255".to_string()));
}

#[test]
fn client_state_decodes_into_chunk() {
    let ok = ClientState { b64: "AQ".to_string() };
    let chunk = ok.to_raw_chunk().unwrap();
    assert_eq!(chunk.bytes.len(), 128);
    assert_eq!(chunk.bytes[0], 1);
    assert!(chunk.bytes[1..].iter().all(|&x| x == 0));

    let empty = ClientState { b64: String::new() };
    assert_eq!(empty.to_raw_chunk().unwrap().bytes, vec![0u8; 128]);

    let bad = ClientState { b64: "#!".to_string() };
    assert_eq!(bad.to_raw_chunk().unwrap_err(), ChunkDecodeError::Invalid);

    let padded = ClientState { b64: "AQ==".to_string() };
    assert_eq!(padded.to_raw_chunk().unwrap_err(), ChunkDecodeError::Invalid);

    let long = ClientState { b64: encode_snapshot(&vec![7u8; 129]) };
    assert_eq!(long.to_raw_chunk().unwrap_err(), ChunkDecodeError::TooLong);

    let full = ClientState { b64: encode_snapshot(&vec![7u8; 128]) };
    assert_eq!(full.to_raw_chunk().unwrap().bytes, vec![7u8; 128]);
}

#[test]
fn board_renders_as_png() {
    let mut b = SharedBitmap::new(8_000_000);
    b.set_byte(0, 200, 0);
    let png = render_board_png(&b).unwrap();
    assert_eq!(&png[0..8], &[0x89, 0x50, 0x4E, 0x47, 0x0D, 0x0A, 0x1A, 0x0A]);
    assert_ne!(png.len(), 1_000_000);
}
