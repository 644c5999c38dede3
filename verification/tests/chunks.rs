use shared_bitmap::bitmap::load_chunks_into;
use shared_bitmap::chunk::bytes_equal;
use shared_bitmap::chunk::Chunk;
use shared_bitmap::counts::popcount_byte;

#[test]
fn chunk_toggle_reports_previous_bit() {
    let mut c = Chunk::new();
    assert!(!c.toggle(0), "bit was clear before the first toggle");
    assert_eq!(c.bytes[0], 0x01);
    assert!(c.toggle(0), "bit was set before the second toggle");
    assert_eq!(c.bytes[0], 0x00);
    assert!(!c.toggle(1023));
    assert_eq!(c.bytes[127], 0x80);
}

#[test]
fn chunk_set_byte_returns_previous() {
    let mut c = Chunk::new();
    assert_eq!(c.set_byte(9, 0xFF), 0);
    assert_eq!(c.set_byte(9, 0x0F), 0xFF);
    assert_eq!(c.bytes[9], 0x0F);
}

#[test]
fn chunk_load_copies_all_bytes() {
    let mut c = Chunk::new();
    c.set_byte(0, 1);
    c.set_byte(127, 2);
    let mut dst = Vec::new();
    c.load(&mut dst);
    assert_eq!(dst, c.bytes);
    assert_eq!(dst.len(), 128);
}

#[test]
fn chunk_toggle_all_xors_and_counts() {
    let mut a = Chunk::new();
    a.set_byte(0, 0b1111_0000);
    let mut mask = Chunk::new();
    mask.set_byte(0, 0b1010_1010);
    mask.set_byte(1, 0b0000_0001);
    let diff = a.toggle_all(&mask);
    assert_eq!(a.bytes[0], 0b0101_1010);
    assert_eq!(a.bytes[1], 0b0000_0001);
    // 4 bits before, 5 after.
    assert_eq!(diff, 1);
    let diff_back = a.toggle_all(&mask);
    assert_eq!(diff_back, -1);
    assert_eq!(a.bytes[0], 0b1111_0000);
    assert_eq!(a.bytes[1], 0);
}

#[test]
fn popcount_of_bytes() {
    assert_eq!(popcount_byte(0), 0);
    assert_eq!(popcount_byte(0xFF), 8);
    assert_eq!(popcount_byte(0b1010_1010), 4);
    for b in 0..=255u8 {
        assert_eq!(popcount_byte(b), b.count_ones() as u8);
    }
}

#[test]
fn bulk_load_reports_bitexact_change() {
    let mut chunks = vec![Chunk::new(), Chunk::new()];
    let mut dst = vec![0u8; 256];
    assert!(!load_chunks_into(&chunks, &mut dst), "destination already matches");
    chunks[1].set_byte(5, 42);
    assert!(load_chunks_into(&chunks, &mut dst));
    assert_eq!(dst[128 + 5], 42);
    assert!(dst[..128].iter().all(|&x| x == 0));
    assert!(!load_chunks_into(&chunks, &mut dst), "second load changes nothing");
}

#[test]
fn byte_vector_equality() {
    assert!(bytes_equal(&vec![1, 2, 3], &vec![1, 2, 3]));
    assert!(!bytes_equal(&vec![1, 2, 3], &vec![1, 2, 4]));
    assert!(!bytes_equal(&vec![1, 2], &vec![1, 2, 3]));
    assert!(bytes_equal(&vec![], &vec![]));
}
