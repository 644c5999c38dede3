//! The shared board: an array of 128-byte chunks with two running
//! aggregates, one broadcaster per chunk, and the mutation primitives.
//!
//! Invariant: `bits_set` equals the popcount of all stored bytes and
//! `bytes_sum` their arithmetic sum, after every mutation. The counters are
//! maintained with sign-extended wrapping 64-bit adds, the two's-complement
//! trick of the storage layer, and proved to stay exact.

use vstd::arithmetic::div_mod::lemma_fundamental_div_mod;
use vstd::arithmetic::div_mod::lemma_mod_mod;
use vstd::arithmetic::div_mod::lemma_multiply_divide_lt;
use vstd::prelude::*;

use crate::chunk::copy_bytes;
use crate::chunk::zero_bytes;
use crate::chunk::Chunk;
use crate::counts::bit_set;
use crate::counts::byte_sum_bytes;
use crate::counts::byte_total;
use crate::counts::lemma_byte_sum_bounds;
use crate::counts::lemma_byte_sum_update;
use crate::counts::lemma_byte_total_update;
use crate::counts::lemma_pop8_range;
use crate::counts::lemma_pop8_toggle;
use crate::counts::lemma_pop_sum_bounds;
use crate::counts::lemma_pop_sum_update;
use crate::counts::lemma_pop_total_update;
use crate::counts::lemma_totals_bounds;
use crate::counts::lemma_totals_push;
use crate::counts::lemma_zero_sums;
use crate::counts::pop_total;
use crate::log::Record;
use crate::counts::pop_sum_bytes;
use crate::counts::popcount_byte;
use crate::segment::poll_next;
use crate::segment::poll_publishes;
use crate::segment::Segment;
use crate::segment::SegmentView;
use crate::CHUNK_BITS;
use crate::CHUNK_BYTES;
use crate::MAX_TOTAL_BITS;
use crate::PUBLISH_INTERVAL_MS;

verus! {

/// Mutable element access with an explicit contract.
fn at_mut<T>(v: &mut Vec<T>, i: usize) -> (r: &mut T)
    requires
        i < old(v)@.len(),
    ensures
        *r == old(v)@[i as int],
        final(v)@ == old(v)@.update(i as int, *final(r)),
{
    &mut v[i]
}

/// `ceil(total_bits / 1024)`, the number of chunks of a board.
pub open spec fn num_chunks_of(total_bits: int) -> int {
    (total_bits + 1023) / 1024
}

/// A board of `total_bits` bits holds at most `1024 * num_chunks` of them.
proof fn lemma_total_bits_le_chunks(total_bits: int)
    requires
        0 <= total_bits,
    ensures
        total_bits <= 1024 * num_chunks_of(total_bits),
        0 <= num_chunks_of(total_bits),
{
    lemma_fundamental_div_mod(total_bits + 1023, 1024);
}

/// The chunk index of a valid bit index is a valid chunk index.
proof fn lemma_bit_chunk_bound(total_bits: int, bit: int)
    requires
        0 <= bit < total_bits,
    ensures
        0 <= bit / 1024 < num_chunks_of(total_bits),
{
    lemma_total_bits_le_chunks(total_bits);
    lemma_multiply_divide_lt(bit, 1024, num_chunks_of(total_bits));
}

/// The chunk index of a valid byte index is a valid chunk index.
proof fn lemma_byte_chunk_bound(total_bits: int, byte: int)
    requires
        0 <= byte,
        byte < (total_bits + 7) / 8,
    ensures
        0 <= byte / 128 < num_chunks_of(total_bits),
{
    let nc = num_chunks_of(total_bits);
    lemma_total_bits_le_chunks(total_bits);
    lemma_fundamental_div_mod(total_bits + 7, 8);
    assert((total_bits + 7) / 8 <= 128 * nc) by {
        lemma_fundamental_div_mod(1024 * nc + 7, 8);
        vstd::arithmetic::div_mod::lemma_div_is_ordered(total_bits + 7, 1024 * nc + 7, 8);
    };
    lemma_multiply_divide_lt(byte, 128, nc);
}

/// Splits a bit index into its chunk index and the bit's offset within
/// the chunk.
pub fn split_idx(index: u64) -> (r: (u32, u16))
    requires
        index < MAX_TOTAL_BITS as u64,
    ensures
        r.0 == index as int / 1024,
        r.1 == index as int % 1024,
{
    ((index / CHUNK_BITS as u64) as u32, (index % CHUNK_BITS as u64) as u16)
}

/// The board after flipping bit `bit`: bit `i` lives in chunk `i / 1024`,
/// byte `(i % 1024) / 8`, under mask `1 << (i % 8)`.
pub open spec fn board_toggle(cs: Seq<Seq<u8>>, bit: int) -> Seq<Seq<u8>> {
    let ci = bit / 1024;
    let bi = (bit % 1024) / 8;
    let mask = 1u8 << ((bit % 8) as u8);
    cs.update(ci, cs[ci].update(bi, cs[ci][bi] ^ mask))
}

/// The value of bit `bit` of the board.
pub open spec fn board_bit(cs: Seq<Seq<u8>>, bit: int) -> bool {
    bit_set(cs[bit / 1024][(bit % 1024) / 8], (bit % 8) as u8)
}

/// The board after overwriting byte `byte_index`: byte `i` lives in chunk
/// `i / 128` at offset `i % 128`.
pub open spec fn board_set_byte(cs: Seq<Seq<u8>>, byte_index: int, value: u8) -> Seq<Seq<u8>> {
    cs.update(byte_index / 128, cs[byte_index / 128].update(byte_index % 128, value))
}

/// The shared board: `num_chunks` 128-byte chunks, one broadcaster per
/// chunk, and the two running aggregates.
pub struct SharedBitmap {
    pub chunks: Vec<Chunk>,
    pub segments: Vec<Segment>,
    pub bits_set: u64,
    pub bytes_sum: u64,
    pub total_bits: usize,
}

impl SharedBitmap {
    /// The stored bytes, chunk by chunk.
    pub open spec fn board(self) -> Seq<Seq<u8>> {
        self.chunks@.map(|i: int, c: Chunk| c@)
    }

    /// The broadcaster states, chunk by chunk.
    pub open spec fn segs(self) -> Seq<SegmentView> {
        self.segments@.map(|i: int, s: Segment| s@)
    }

    /// Number of addressable bytes.
    pub open spec fn bytes_capacity(self) -> int {
        (self.total_bits as int + 7) / 8
    }

    /// Well-formed: the chunk count fits the bit count, every chunk and
    /// broadcaster holds 128 bytes, and both aggregates equal what the
    /// stored bytes say.
    pub open spec fn wf(self) -> bool {
        &&& self.total_bits <= MAX_TOTAL_BITS
        &&& self.chunks@.len() == num_chunks_of(self.total_bits as int)
        &&& self.segments@.len() == self.chunks@.len()
        &&& forall|i: int| 0 <= i < self.chunks@.len() ==> (#[trigger] self.chunks@[i]).wf()
        &&& forall|i: int| 0 <= i < self.segments@.len() ==> (#[trigger] self.segments@[i]).wf()
        &&& self.bits_set as int == pop_total(self.board())
        &&& self.bytes_sum as int == byte_total(self.board())
    }

    /// The broadcaster of chunk `k` has published that chunk's current
    /// bytes.
    pub open spec fn chunk_published(self, k: int) -> bool {
        self.segs()[k].latched == self.board()[k]
    }

    /// A fresh, all-zero board of `total_bits` bits.
    pub fn new(total_bits: usize) -> (b: SharedBitmap)
        requires
            total_bits <= MAX_TOTAL_BITS,
        ensures
            b.wf(),
            b.total_bits == total_bits,
            forall|i: int|
                0 <= i < b.board().len() ==> #[trigger] b.board()[i] == Seq::new(
                    CHUNK_BYTES as nat,
                    |j: int| 0u8,
                ),
            forall|i: int|
                0 <= i < b.segs().len() ==> #[trigger] b.segs()[i] == (SegmentView {
                    changed: false,
                    latched: Seq::new(CHUNK_BYTES as nat, |j: int| 0u8),
                    next_publish_at: 0u64,
                }),
            b.bits_set == 0,
            b.bytes_sum == 0,
    {
        let num_chunks = (total_bits + (CHUNK_BITS - 1)) / CHUNK_BITS;
        let zeros = zero_bytes(CHUNK_BYTES);
        let mut chunks: Vec<Chunk> = Vec::new();
        let mut segments: Vec<Segment> = Vec::new();
        let mut i: usize = 0;
        while i < num_chunks
            invariant
                i <= num_chunks,
                chunks@.len() == i,
                segments@.len() == i,
                zeros@ == Seq::new(CHUNK_BYTES as nat, |j: int| 0u8),
                forall|k: int| 0 <= k < i ==> (#[trigger] chunks@[k])@ == zeros@,
                forall|k: int|
                    0 <= k < i ==> (#[trigger] segments@[k])@ == (SegmentView {
                        changed: false,
                        latched: zeros@,
                        next_publish_at: 0u64,
                    }),
                pop_total(chunks@.map(|k: int, c: Chunk| c@)) == 0,
                byte_total(chunks@.map(|k: int, c: Chunk| c@)) == 0,
            decreases num_chunks - i,
        {
            let ghost prev_board = chunks@.map(|k: int, c: Chunk| c@);
            let c = Chunk::new();
            proof {
                lemma_zero_sums(c@);
                lemma_totals_push(prev_board, c@);
            }
            chunks.push(c);
            segments.push(Segment::from_bytes(&zeros));
            proof {
                assert(chunks@.map(|k: int, c: Chunk| c@) =~= prev_board.push(
                    Seq::new(CHUNK_BYTES as nat, |j: int| 0u8),
                ));
            }
            i = i + 1;
        }
        SharedBitmap { chunks, segments, bits_set: 0, bytes_sum: 0, total_bits }
    }

    /// A board reconstructed from the raw bytes of a bitmap file: the
    /// stored bytes are exactly `bytes`, both aggregates are recomputed
    /// from them, and every broadcaster starts out latched to its chunk's
    /// current bytes.
    pub fn from_bytes(bytes: &Vec<u8>, total_bits: usize) -> (b: SharedBitmap)
        requires
            total_bits <= MAX_TOTAL_BITS,
            bytes@.len() == num_chunks_of(total_bits as int) * CHUNK_BYTES,
        ensures
            b.wf(),
            b.total_bits == total_bits,
            forall|i: int|
                0 <= i < b.board().len() ==> #[trigger] b.board()[i] == bytes@.subrange(
                    i * CHUNK_BYTES,
                    i * CHUNK_BYTES + CHUNK_BYTES,
                ),
            forall|i: int|
                0 <= i < b.segs().len() ==> #[trigger] b.segs()[i] == (SegmentView {
                    changed: false,
                    latched: b.board()[i],
                    next_publish_at: 0u64,
                }),
    {
        let num_chunks = (total_bits + (CHUNK_BITS - 1)) / CHUNK_BITS;
        let mut chunks: Vec<Chunk> = Vec::new();
        let mut segments: Vec<Segment> = Vec::new();
        let mut bits_set: u64 = 0;
        let mut bytes_sum: u64 = 0;
        let mut i: usize = 0;
        proof {
            lemma_total_bits_le_chunks(total_bits as int);
        }
        while i < num_chunks
            invariant
                i <= num_chunks,
                num_chunks == num_chunks_of(total_bits as int),
                num_chunks <= 7813,
                bytes@.len() == num_chunks * CHUNK_BYTES,
                chunks@.len() == i,
                segments@.len() == i,
                forall|k: int| 0 <= k < i ==> (#[trigger] chunks@[k])@ == bytes@.subrange(
                    k * CHUNK_BYTES,
                    k * CHUNK_BYTES + CHUNK_BYTES,
                ),
                forall|k: int|
                    0 <= k < i ==> (#[trigger] segments@[k])@ == (SegmentView {
                        changed: false,
                        latched: chunks@[k]@,
                        next_publish_at: 0u64,
                    }),
                bits_set as int == pop_total(chunks@.map(|k: int, c: Chunk| c@)),
                bytes_sum as int == byte_total(chunks@.map(|k: int, c: Chunk| c@)),
                bits_set <= 1024 * i,
                bytes_sum <= 32640 * i,
            decreases num_chunks - i,
        {
            let base: usize = i * CHUNK_BYTES;
            let mut cb: Vec<u8> = Vec::new();
            let mut j: usize = 0;
            while j < CHUNK_BYTES
                invariant
                    j <= CHUNK_BYTES,
                    base == i * CHUNK_BYTES,
                    i < num_chunks,
                    bytes@.len() == num_chunks * CHUNK_BYTES,
                    num_chunks <= 7813,
                    cb@ =~= bytes@.subrange(base as int, base as int + j as int),
                decreases CHUNK_BYTES - j,
            {
                proof {
                    assert(base + CHUNK_BYTES <= num_chunks * CHUNK_BYTES) by (nonlinear_arith)
                        requires
                            base == i * CHUNK_BYTES,
                            i < num_chunks,
                            CHUNK_BYTES == 128,
                    ;
                }
                cb.push(bytes[base + j]);
                j = j + 1;
                proof {
                    assert(cb@ =~= bytes@.subrange(base as int, base as int + j as int));
                }
            }
            let chunk_pop: u64 = pop_sum_bytes(&cb);
            let chunk_sum: u64 = byte_sum_bytes(&cb);
            let ghost prev_board = chunks@.map(|k: int, c: Chunk| c@);
            proof {
                lemma_totals_push(prev_board, cb@);
                lemma_pop_sum_bounds(cb@);
                lemma_byte_sum_bounds(cb@);
            }
            let seg = Segment::from_bytes(&cb);
            let c = Chunk { bytes: cb };
            chunks.push(c);
            segments.push(seg);
            bits_set = bits_set + chunk_pop;
            bytes_sum = bytes_sum + chunk_sum;
            proof {
                assert(chunks@.map(|k: int, c: Chunk| c@) =~= prev_board.push(c@));
            }
            i = i + 1;
        }
        let b = SharedBitmap { chunks, segments, bits_set, bytes_sum, total_bits };
        proof {
            assert(b.board() =~= chunks@.map(|k: int, c: Chunk| c@));
        }
        b
    }

    /// Flips one bit and raises the owning broadcaster's change flag,
    /// keeping both aggregates exact.
    fn apply_toggle(&mut self, bit_index: usize) -> (was_set: bool)
        requires
            old(self).wf(),
            bit_index < old(self).total_bits,
        ensures
            final(self).wf(),
            final(self).total_bits == old(self).total_bits,
            final(self).board() == board_toggle(old(self).board(), bit_index as int),
            final(self).segs() == old(self).segs().update(
                bit_index as int / 1024,
                SegmentView { changed: true, ..old(self).segs()[bit_index as int / 1024] },
            ),
            was_set == board_bit(old(self).board(), bit_index as int),
            board_bit(final(self).board(), bit_index as int) == !was_set,
    {
        proof {
            lemma_bit_chunk_bound(old(self).total_bits as int, bit_index as int);
        }
        let chunk_index: usize = bit_index / CHUNK_BITS;
        let inner: u16 = (bit_index % CHUNK_BITS) as u16;
        let k_exec: u8 = (inner % 8) as u8;
        let mask: u8 = 1u8 << k_exec;
        let ghost old_board = self.board();
        let ghost old_segs = self.segs();
        let ghost ci = bit_index as int / 1024;
        let ghost bi = inner as int / 8;
        let ghost old_chunk = old_board[ci];
        let c = at_mut(&mut self.chunks, chunk_index);
        let was_set = c.toggle(inner);
        proof {
            lemma_mod_mod(bit_index as int, 8, 128);
            let newb = (old_chunk[bi] ^ mask) as u8;
            let new_chunk = old_chunk.update(bi, newb);
            assert(self.board() =~= board_toggle(old_board, bit_index as int));
            assert(self.board() =~= old_board.update(ci, new_chunk));
            lemma_pop8_toggle(old_chunk[bi], k_exec);
            lemma_pop_sum_update(old_chunk, bi, newb);
            lemma_byte_sum_update(old_chunk, bi, newb);
            lemma_pop_total_update(old_board, ci, new_chunk);
            lemma_byte_total_update(old_board, ci, new_chunk);
            assert(forall|j: int|
                0 <= j < self.board().len() ==> (#[trigger] self.board()[j]).len() == 128);
            lemma_totals_bounds(self.board());
            lemma_totals_bounds(old_board);
        }
        let delta_bits: i64 = if was_set {
            -1
        } else {
            1
        };
        let delta_bytes: i64 = if was_set {
            -(mask as i64)
        } else {
            mask as i64
        };
        self.bits_set = self.bits_set.wrapping_add_signed(delta_bits);
        self.bytes_sum = self.bytes_sum.wrapping_add_signed(delta_bytes);
        let s = at_mut(&mut self.segments, chunk_index);
        s.notify();
        proof {
            assert(self.segs() =~= old_segs.update(
                ci,
                SegmentView { changed: true, ..old_segs[ci] },
            ));
        }
        was_set
    }

    /// Toggles bit `bit_index`: flips the stored bit, keeps `bits_set` and
    /// `bytes_sum` exact, signals the owning chunk's broadcaster, and
    /// returns the toggle record to append to the mutation log, stamped
    /// `now_nanos`.
    pub fn toggle(&mut self, bit_index: usize, now_nanos: u128) -> (r: Record)
        requires
            old(self).wf(),
            bit_index < old(self).total_bits,
        ensures
            final(self).wf(),
            final(self).total_bits == old(self).total_bits,
            final(self).board() == board_toggle(old(self).board(), bit_index as int),
            final(self).segs() == old(self).segs().update(
                bit_index as int / 1024,
                SegmentView { changed: true, ..old(self).segs()[bit_index as int / 1024] },
            ),
            board_bit(final(self).board(), bit_index as int) == !board_bit(
                old(self).board(),
                bit_index as int,
            ),
            r == (Record::Toggle { time: now_nanos, offset: bit_index as u32 }),
            r.wf(),
    {
        self.apply_toggle(bit_index);
        Record::Toggle { time: now_nanos, offset: bit_index as u32 }
    }

    /// Overwrites byte `byte_index` with `value`: swaps the stored byte,
    /// moves `bits_set` by the popcount difference and `bytes_sum` by the
    /// arithmetic difference, signals the owning chunk's broadcaster, and
    /// returns the set-byte record to append to the mutation log, stamped
    /// `now_nanos`.
    pub fn set_byte(&mut self, byte_index: usize, value: u8, now_nanos: u128) -> (r: Record)
        requires
            old(self).wf(),
            byte_index < old(self).bytes_capacity(),
        ensures
            final(self).wf(),
            final(self).total_bits == old(self).total_bits,
            final(self).board() == board_set_byte(old(self).board(), byte_index as int, value),
            final(self).segs() == old(self).segs().update(
                byte_index as int / 128,
                SegmentView { changed: true, ..old(self).segs()[byte_index as int / 128] },
            ),
            r == (Record::SetByte { time: now_nanos, offset: byte_index as u32, value }),
            r.wf(),
    {
        proof {
            lemma_byte_chunk_bound(old(self).total_bits as int, byte_index as int);
        }
        let chunk_index: usize = byte_index / CHUNK_BYTES;
        let inner: usize = byte_index % CHUNK_BYTES;
        let ghost old_board = self.board();
        let ghost old_segs = self.segs();
        let ghost ci = byte_index as int / 128;
        let ghost old_chunk = old_board[ci];
        let c = at_mut(&mut self.chunks, chunk_index);
        let prev = c.set_byte(inner, value);
        proof {
            let new_chunk = old_chunk.update(inner as int, value);
            assert(self.board() =~= board_set_byte(old_board, byte_index as int, value));
            assert(self.board() =~= old_board.update(ci, new_chunk));
            lemma_pop_sum_update(old_chunk, inner as int, value);
            lemma_byte_sum_update(old_chunk, inner as int, value);
            lemma_pop_total_update(old_board, ci, new_chunk);
            lemma_byte_total_update(old_board, ci, new_chunk);
            assert(forall|j: int|
                0 <= j < self.board().len() ==> (#[trigger] self.board()[j]).len() == 128);
            lemma_totals_bounds(self.board());
            lemma_totals_bounds(old_board);
            lemma_pop8_range(prev);
            lemma_pop8_range(value);
        }
        let delta_bits: i64 = popcount_byte(value) as i64 - popcount_byte(prev) as i64;
        let delta_bytes: i64 = value as i64 - prev as i64;
        self.bits_set = self.bits_set.wrapping_add_signed(delta_bits);
        self.bytes_sum = self.bytes_sum.wrapping_add_signed(delta_bytes);
        let s = at_mut(&mut self.segments, chunk_index);
        s.notify();
        proof {
            assert(self.segs() =~= old_segs.update(
                ci,
                SegmentView { changed: true, ..old_segs[ci] },
            ));
        }
        Record::SetByte { time: now_nanos, offset: byte_index as u32, value }
    }

    /// Subscribes to chunk `chunk_index`: a fresh subscriber immediately
    /// observes the broadcaster's current latched snapshot.
    pub fn watch(&self, chunk_index: usize) -> (snap: Vec<u8>)
        requires
            chunk_index < self.segs().len(),
        ensures
            snap@ == self.segs()[chunk_index as int].latched,
    {
        copy_bytes(&self.segments[chunk_index].latched)
    }

    /// One wake of chunk `chunk_index`'s coalescer task, called once the
    /// rate-limit deadline has passed: reads the chunk's current bytes and
    /// publishes them iff they differ from the last published snapshot.
    /// Either way the latched snapshot afterwards equals the current chunk
    /// bytes: no final state is dropped.
    pub fn coalesce(&mut self, chunk_index: usize, now_ms: u64) -> (published: bool)
        requires
            old(self).wf(),
            chunk_index < old(self).segs().len(),
            now_ms >= old(self).segs()[chunk_index as int].next_publish_at,
            now_ms + PUBLISH_INTERVAL_MS <= u64::MAX,
        ensures
            final(self).wf(),
            final(self).total_bits == old(self).total_bits,
            final(self).board() == old(self).board(),
            final(self).bits_set == old(self).bits_set,
            final(self).bytes_sum == old(self).bytes_sum,
            published == poll_publishes(
                old(self).segs()[chunk_index as int],
                old(self).board()[chunk_index as int],
            ),
            final(self).segs() == old(self).segs().update(
                chunk_index as int,
                poll_next(
                    old(self).segs()[chunk_index as int],
                    now_ms,
                    old(self).board()[chunk_index as int],
                ),
            ),
            final(self).chunk_published(chunk_index as int),
    {
        let ghost old_segs = self.segs();
        let ghost old_board = self.board();
        let mut current: Vec<u8> = Vec::new();
        self.chunks[chunk_index].load(&mut current);
        let s = at_mut(&mut self.segments, chunk_index);
        let published = s.poll(now_ms, &current);
        proof {
            assert(self.segs() =~= old_segs.update(
                chunk_index as int,
                poll_next(old_segs[chunk_index as int], now_ms, old_board[chunk_index as int]),
            ));
            assert(self.board() =~= old_board);
        }
        published
    }

    /// The rate-limit deadline of chunk `chunk_index`'s coalescer: the
    /// earliest instant at which it may publish again.
    pub fn next_publish_at(&self, chunk_index: usize) -> (t: u64)
        requires
            chunk_index < self.segs().len(),
        ensures
            t == self.segs()[chunk_index as int].next_publish_at,
    {
        self.segments[chunk_index].next_publish_at
    }

    /// The running popcount aggregate. On a well-formed board it equals
    /// the popcount of the stored bytes.
    pub fn count(&self) -> (n: u64)
        ensures
            n == self.bits_set,
            self.wf() ==> n as int == pop_total(self.board()),
    {
        self.bits_set
    }

    /// The running byte-sum aggregate. On a well-formed board it equals
    /// the arithmetic sum of the stored bytes.
    pub fn sum(&self) -> (n: u64)
        ensures
            n == self.bytes_sum,
            self.wf() ==> n as int == byte_total(self.board()),
    {
        self.bytes_sum
    }

    /// Borrow of the underlying chunk array, for read-side bulk
    /// snapshotting.
    pub fn raw_chunks(&self) -> (r: &Vec<Chunk>)
        ensures
            r@ == self.chunks@,
    {
        &self.chunks
    }

    /// The number of chunks of the board.
    pub fn num_chunks(&self) -> (n: usize)
        ensures
            n == self.board().len(),
    {
        self.chunks.len()
    }

    /// The concatenated bytes of chunks `start_chunk..end_chunk`, read
    /// chunk by chunk: exactly `(end_chunk - start_chunk) * 128` bytes.
    pub fn snapshot(&self, start_chunk: usize, end_chunk: usize) -> (out: Vec<u8>)
        requires
            self.wf(),
            start_chunk <= end_chunk,
            end_chunk <= self.board().len(),
        ensures
            out@ == concat_chunks(self.board(), start_chunk as int, end_chunk as int),
            out@.len() == (end_chunk - start_chunk) * CHUNK_BYTES,
    {
        let mut out: Vec<u8> = Vec::new();
        let mut i: usize = start_chunk;
        while i < end_chunk
            invariant
                start_chunk <= i <= end_chunk,
                end_chunk <= self.board().len(),
                self.wf(),
                out@ == concat_chunks(self.board(), start_chunk as int, i as int),
                out@.len() == (i - start_chunk) * CHUNK_BYTES,
            decreases end_chunk - i,
        {
            let mut tmp: Vec<u8> = Vec::new();
            self.chunks[i].load(&mut tmp);
            out.append(&mut tmp);
            i = i + 1;
        }
        out
    }
}

/// The bytes of chunks `start..end` of a board, concatenated in order.
pub open spec fn concat_chunks(cs: Seq<Seq<u8>>, start: int, end: int) -> Seq<u8>
    decreases end - start,
{
    if start < end {
        concat_chunks(cs, start, end - 1) + cs[end - 1]
    } else {
        Seq::empty()
    }
}

pub proof fn lemma_concat_chunks_len(cs: Seq<Seq<u8>>, start: int, end: int)
    requires
        0 <= start <= end <= cs.len(),
        forall|i: int| 0 <= i < cs.len() ==> (#[trigger] cs[i]).len() == 128,
    ensures
        concat_chunks(cs, start, end).len() == (end - start) * 128,
    decreases end - start,
{
    if start < end {
        lemma_concat_chunks_len(cs, start, end - 1);
    }
}

/// Reads every byte of `chunks` into `dst`, in chunk order, and reports
/// whether any destination byte changed versus its prior value; the
/// change detection is bit-exact.
pub fn load_chunks_into(chunks: &Vec<Chunk>, dst: &mut Vec<u8>) -> (changed: bool)
    requires
        forall|i: int| 0 <= i < chunks@.len() ==> (#[trigger] chunks@[i]).wf(),
        old(dst)@.len() == chunks@.len() * 128,
    ensures
        final(dst)@ == concat_chunks(chunks@.map(|i: int, c: Chunk| c@), 0, chunks@.len() as int),
        changed == (final(dst)@ != old(dst)@),
{
    let ghost views = chunks@.map(|i: int, c: Chunk| c@);
    let ghost orig = old(dst)@;
    let dlen: usize = dst.len();
    let mut changed = false;
    let mut i: usize = 0;
    while i < chunks.len()
        invariant
            i <= chunks@.len(),
            forall|k: int| 0 <= k < chunks@.len() ==> (#[trigger] chunks@[k]).wf(),
            views == chunks@.map(|k: int, c: Chunk| c@),
            orig.len() == chunks@.len() * 128,
            orig.len() == dlen,
            dst@.len() == orig.len(),
            dst@.take(i as int * 128) == concat_chunks(views, 0, i as int),
            dst@.skip(i as int * 128) == orig.skip(i as int * 128),
            changed == (dst@.take(i as int * 128) != orig.take(i as int * 128)),
        decreases chunks@.len() - i,
    {
        proof {
            lemma_concat_chunks_len(views, 0, i as int);
            let ii = i as int;
            let n = chunks@.len() as int;
            assert(ii * 128 + 128 <= n * 128) by (nonlinear_arith)
                requires
                    0 <= ii,
                    ii < n,
            ;
        }
        let base: usize = i * 128;
        let mut j: usize = 0;
        while j < 128
            invariant
                j <= 128,
                i < chunks@.len(),
                base == i as int * 128,
                base + 128 <= orig.len(),
                forall|k: int| 0 <= k < chunks@.len() ==> (#[trigger] chunks@[k]).wf(),
                views == chunks@.map(|k: int, c: Chunk| c@),
                orig.len() == chunks@.len() * 128,
                dst@.len() == orig.len(),
                dst@.take(base as int) == concat_chunks(views, 0, i as int),
                dst@.subrange(base as int, base as int + j as int) == views[i as int].take(
                    j as int,
                ),
                dst@.skip(base as int + j as int) == orig.skip(base as int + j as int),
                changed == (dst@.take(base as int + j as int) != orig.take(
                    base as int + j as int,
                )),
            decreases 128 - j,
        {
            let b: u8 = chunks[i].bytes[j];
            let ghost pos = base as int + j as int;
            let ghost before = dst@;
            proof {
                assert(before.skip(pos)[0] == orig.skip(pos)[0]);
                assert(before[pos] == orig[pos]);
            }
            if dst[base + j] != b {
                dst[base + j] = b;
                changed = true;
                proof {
                    assert(dst@.take(pos + 1)[pos] == b);
                    assert(orig.take(pos + 1)[pos] == orig[pos]);
                    assert(dst@.take(pos + 1) != orig.take(pos + 1));
                }
            } else {
                proof {
                    assert(dst@ == before);
                    if before.take(pos) == orig.take(pos) {
                        assert(dst@.take(pos + 1) =~= orig.take(pos + 1));
                    } else {
                        assert(dst@.take(pos + 1).take(pos) =~= dst@.take(pos));
                        assert(orig.take(pos + 1).take(pos) =~= orig.take(pos));
                        assert(dst@.take(pos + 1) != orig.take(pos + 1));
                    }
                }
            }
            proof {
                assert(dst@.take(base as int) =~= before.take(base as int));
                assert(dst@.subrange(base as int, pos + 1) =~= views[i as int].take(j as int + 1));
                assert forall|m: int|
                    0 <= m < dst@.len() - (pos + 1) implies #[trigger] dst@.skip(pos + 1)[m]
                    == orig.skip(pos + 1)[m] by {
                    assert(before.skip(pos)[m + 1] == orig.skip(pos)[m + 1]);
                };
                assert(dst@.skip(pos + 1) =~= orig.skip(pos + 1));
            }
            j = j + 1;
        }
        proof {
            assert(views[i as int].take(128) =~= views[i as int]);
            assert(dst@.take(base as int + 128) =~= dst@.take(base as int) + dst@.subrange(
                base as int,
                base as int + 128,
            ));
            assert(dst@.take((i as int + 1) * 128) == concat_chunks(views, 0, i as int + 1));
        }
        i = i + 1;
    }
    proof {
        assert(dst@.take(chunks@.len() as int * 128) =~= dst@);
        assert(orig.take(chunks@.len() as int * 128) =~= orig);
    }
    changed
}

/// The board after applying the toggles `idxs`, in order.
pub open spec fn board_after_toggles(cs: Seq<Seq<u8>>, idxs: Seq<u64>) -> Seq<Seq<u8>>
    decreases idxs.len(),
{
    if idxs.len() == 0 {
        cs
    } else {
        board_toggle(board_after_toggles(cs, idxs.drop_last()), idxs.last() as int)
    }
}

/// The broadcaster states after the toggles `idxs`: each toggle raises the
/// change flag of the chunk it falls in.
pub open spec fn segs_after_toggles(ss: Seq<SegmentView>, idxs: Seq<u64>) -> Seq<SegmentView>
    decreases idxs.len(),
{
    if idxs.len() == 0 {
        ss
    } else {
        let prev = segs_after_toggles(ss, idxs.drop_last());
        let ci = idxs.last() as int / 1024;
        prev.update(ci, SegmentView { changed: true, ..prev[ci] })
    }
}

impl SharedBitmap {
    /// Applies a batch of bit toggles, in order, keeping both aggregates
    /// exact and signalling every touched chunk's broadcaster. Batch
    /// toggles are not logged.
    pub fn toggle_all(&mut self, indices: &Vec<u64>)
        requires
            old(self).wf(),
            forall|j: int|
                0 <= j < indices@.len() ==> (#[trigger] indices@[j]) < old(self).total_bits,
        ensures
            final(self).wf(),
            final(self).total_bits == old(self).total_bits,
            final(self).board() == board_after_toggles(old(self).board(), indices@),
            final(self).segs() == segs_after_toggles(old(self).segs(), indices@),
    {
        let ghost orig_board = self.board();
        let ghost orig_segs = self.segs();
        let mut j: usize = 0;
        while j < indices.len()
            invariant
                j <= indices@.len(),
                self.wf(),
                self.total_bits == old(self).total_bits,
                forall|k: int|
                    0 <= k < indices@.len() ==> (#[trigger] indices@[k]) < self.total_bits,
                self.board() == board_after_toggles(orig_board, indices@.take(j as int)),
                self.segs() == segs_after_toggles(orig_segs, indices@.take(j as int)),
            decreases indices@.len() - j,
        {
            let idx: usize = indices[j] as usize;
            self.apply_toggle(idx);
            proof {
                assert(indices@.take(j as int + 1).drop_last() =~= indices@.take(j as int));
                assert(indices@.take(j as int + 1).last() == indices@[j as int]);
            }
            j = j + 1;
        }
        proof {
            assert(indices@.take(indices@.len() as int) =~= indices@);
        }
    }
}

/// Once quiescent, the aggregates agree with the stored bytes: `bits_set`
/// is the popcount of the whole board and `bytes_sum` the arithmetic sum
/// of its bytes, after any sequence of toggles and set-bytes.
pub proof fn lemma_quiescent_aggregates(b: SharedBitmap)
    requires
        b.wf(),
    ensures
        b.bits_set as int == pop_total(b.board()),
        b.bytes_sum as int == byte_total(b.board()),
{
}

/// Two well-formed boards over the same bytes carry the same aggregates:
/// reconstructing a board from a bitmap file's bytes yields the
/// `bits_set` and `bytes_sum` the writing process had.
pub proof fn lemma_restart_counters(a: SharedBitmap, b: SharedBitmap)
    requires
        a.wf(),
        b.wf(),
        a.board() == b.board(),
    ensures
        a.bits_set == b.bits_set,
        a.bytes_sum == b.bytes_sum,
{
}

/// Writing the same byte twice is idempotent: the second write changes
/// neither the board nor either aggregate.
pub proof fn lemma_set_byte_idempotent(cs: Seq<Seq<u8>>, byte_index: int, v: u8)
    requires
        0 <= byte_index,
        byte_index / 128 < cs.len(),
        cs[byte_index / 128].len() == 128,
    ensures
        board_set_byte(board_set_byte(cs, byte_index, v), byte_index, v) == board_set_byte(
            cs,
            byte_index,
            v,
        ),
        pop_total(board_set_byte(board_set_byte(cs, byte_index, v), byte_index, v)) == pop_total(
            board_set_byte(cs, byte_index, v),
        ),
        byte_total(board_set_byte(board_set_byte(cs, byte_index, v), byte_index, v)) == byte_total(
            board_set_byte(cs, byte_index, v),
        ),
{
    let ci = byte_index / 128;
    let bi = byte_index % 128;
    let once = board_set_byte(cs, byte_index, v);
    assert(once[ci].update(bi, v) =~= cs[ci].update(bi, v));
    assert(board_set_byte(once, byte_index, v) =~= once);
}

/// Toggling one bit twice restores the board.
pub proof fn lemma_toggle_involution(cs: Seq<Seq<u8>>, bit: int)
    requires
        0 <= bit,
        bit / 1024 < cs.len(),
        cs[bit / 1024].len() == 128,
    ensures
        board_toggle(board_toggle(cs, bit), bit) == cs,
{
    let ci = bit / 1024;
    let bi = (bit % 1024) / 8;
    let k = (bit % 8) as u8;
    lemma_multiply_divide_lt(bit % 1024, 8, 128);
    let b0 = cs[ci][bi];
    lemma_pop8_toggle(b0, k);
    let once = board_toggle(cs, bit);
    assert(once[ci].update(bi, (once[ci][bi] ^ (1u8 << k)) as u8) =~= cs[ci]);
    assert(board_toggle(once, bit) =~= cs);
}

/// Toggling one bit `n` times in a row leaves the bit at the parity of
/// `n`: an even count restores the board, an odd count equals one toggle.
pub proof fn lemma_toggle_parity(cs: Seq<Seq<u8>>, bit: u64, n: nat)
    requires
        bit as int / 1024 < cs.len(),
        cs[bit as int / 1024].len() == 128,
    ensures
        board_after_toggles(cs, Seq::new(n, |i: int| bit)) == if n % 2 == 0 {
            cs
        } else {
            board_toggle(cs, bit as int)
        },
    decreases n,
{
    let s = Seq::new(n, |i: int| bit);
    if n > 0 {
        assert(s.drop_last() =~= Seq::new((n - 1) as nat, |i: int| bit));
        lemma_toggle_parity(cs, bit, (n - 1) as nat);
        if n % 2 == 0 {
            lemma_toggle_involution(cs, bit as int);
        }
    }
}

/// After a mutation of bit `i`, the next wake of chunk `i / 1024`'s
/// coalescer latches a snapshot in which bit `i` has its post-mutation
/// value, whatever the broadcaster state and the wake time: no mutation's
/// final state is dropped. The 200 ms delivery bound is the runtime's
/// share: one rate-limit interval plus the sleep granularity.
pub proof fn lemma_mutation_observed(cs: Seq<Seq<u8>>, bit: int, s: SegmentView, now_ms: u64)
    requires
        0 <= bit,
        bit / 1024 < cs.len(),
        cs[bit / 1024].len() == 128,
    ensures
        poll_next(s, now_ms, board_toggle(cs, bit)[bit / 1024]).latched == board_toggle(cs, bit)[
            bit / 1024
        ],
        board_bit(board_toggle(cs, bit), bit) == !board_bit(cs, bit),
{
    let ci = bit / 1024;
    let bi = (bit % 1024) / 8;
    let k = (bit % 8) as u8;
    lemma_multiply_divide_lt(bit % 1024, 8, 128);
    lemma_pop8_toggle(cs[ci][bi], k);
}

/// A fresh subscriber to a chunk whose broadcaster is caught up observes
/// a snapshot equal to the chunk's current bytes: `watch` returns the
/// latched snapshot, and a caught-up latched snapshot is the chunk.
pub proof fn lemma_fresh_watch(b: SharedBitmap, k: int)
    requires
        b.wf(),
        0 <= k < b.segs().len(),
        b.chunk_published(k),
    ensures
        b.segs()[k].latched == b.board()[k],
{
}

} // verus!
