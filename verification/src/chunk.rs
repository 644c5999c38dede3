//! One chunk of the board: a 128-byte (1024-bit) array of independently
//! mutable bytes, the unit of both storage and broadcast.

use vstd::prelude::*;

use crate::counts::bit_set;
use crate::counts::lemma_pop_sum_bounds;
use crate::counts::lemma_pop_sum_take_snoc;
use crate::counts::pop_sum;
use crate::counts::popcount_byte;
use crate::CHUNK_BITS;
use crate::CHUNK_BYTES;

verus! {

/// A vector of `n` zero bytes.
pub fn zero_bytes(n: usize) -> (out: Vec<u8>)
    ensures
        out@ == Seq::new(n as nat, |i: int| 0u8),
{
    let mut out: Vec<u8> = Vec::new();
    let mut i: usize = 0;
    while i < n
        invariant
            i <= n,
            out@ =~= Seq::new(i as nat, |j: int| 0u8),
        decreases n - i,
    {
        out.push(0u8);
        i = i + 1;
    }
    proof {
        assert(out@ =~= Seq::new(n as nat, |i: int| 0u8));
    }
    out
}

/// A fresh vector with the same bytes as `src`.
pub fn copy_bytes(src: &Vec<u8>) -> (out: Vec<u8>)
    ensures
        out@ == src@,
{
    let mut out: Vec<u8> = Vec::new();
    let mut i: usize = 0;
    while i < src.len()
        invariant
            i <= src@.len(),
            out@ =~= src@.take(i as int),
        decreases src@.len() - i,
    {
        out.push(src[i]);
        i = i + 1;
    }
    proof {
        assert(out@ =~= src@);
    }
    out
}

/// Whether two byte vectors hold the same bytes.
pub fn bytes_equal(a: &Vec<u8>, b: &Vec<u8>) -> (r: bool)
    ensures
        r == (a@ == b@),
{
    if a.len() != b.len() {
        return false;
    }
    let mut i: usize = 0;
    while i < a.len()
        invariant
            i <= a@.len(),
            a@.len() == b@.len(),
            forall|j: int| 0 <= j < i ==> a@[j] == b@[j],
        decreases a@.len() - i,
    {
        if a[i] != b[i] {
            return false;
        }
        i = i + 1;
    }
    proof {
        assert(a@ =~= b@);
    }
    true
}

/// Bytewise XOR of two equally long sequences.
pub open spec fn xor_bytes(a: Seq<u8>, b: Seq<u8>) -> Seq<u8> {
    Seq::new(a.len(), |i: int| a[i] ^ b[i])
}

/// A contiguous 128-byte region of the board holding 1024 bits. Bit `i` of
/// the chunk lives in byte `i / 8` under mask `1 << (i % 8)`; bytes are
/// independent units of mutation.
#[derive(Debug)]
pub struct Chunk {
    pub bytes: Vec<u8>,
}

impl View for Chunk {
    type V = Seq<u8>;

    open spec fn view(&self) -> Seq<u8> {
        self.bytes@
    }
}

impl Default for Chunk {
    /// An all-zero chunk.
    fn default() -> (c: Chunk)
        ensures
            c.wf(),
            c@ == Seq::new(CHUNK_BYTES as nat, |i: int| 0u8),
    {
        Chunk::new()
    }
}

impl Chunk {
    pub open spec fn wf(self) -> bool {
        self@.len() == CHUNK_BYTES
    }

    /// An all-zero chunk.
    pub fn new() -> (c: Chunk)
        ensures
            c.wf(),
            c@ == Seq::new(CHUNK_BYTES as nat, |i: int| 0u8),
    {
        Chunk { bytes: zero_bytes(CHUNK_BYTES) }
    }

    /// The byte index and bit mask addressing bit `index` of the chunk.
    fn index_mask(index: u16) -> (r: (usize, u8))
        requires
            index < CHUNK_BITS,
        ensures
            r.0 == index as int / 8,
            r.0 < CHUNK_BYTES,
            r.1 == 1u8 << ((index % 8) as u8),
    {
        let byte_index: usize = (index / 8) as usize;
        let bit: u8 = (index % 8) as u8;
        (byte_index, 1u8 << bit)
    }

    /// Flips bit `index`. Returns true iff the bit was set before the
    /// toggle, i.e. iff the toggle cleared it.
    pub fn toggle(&mut self, index: u16) -> (was_set: bool)
        requires
            old(self).wf(),
            index < CHUNK_BITS,
        ensures
            final(self).wf(),
            final(self)@ == old(self)@.update(
                index as int / 8,
                old(self)@[index as int / 8] ^ (1u8 << ((index % 8) as u8)),
            ),
            was_set == bit_set(old(self)@[index as int / 8], (index % 8) as u8),
    {
        let (byte_index, mask) = Self::index_mask(index);
        let prev: u8 = self.bytes[byte_index];
        self.bytes[byte_index] = prev ^ mask;
        proof {
            let bit = (index % 8) as u8;
            assert((prev & (1u8 << bit) != 0) == ((prev >> bit) & 1u8 == 1u8)) by (bit_vector)
                requires
                    bit < 8,
            ;
        }
        (prev & mask) != 0
    }

    /// Overwrites byte `index`, returning the previous value.
    pub fn set_byte(&mut self, index: usize, byte: u8) -> (prev: u8)
        requires
            old(self).wf(),
            index < CHUNK_BYTES,
        ensures
            final(self).wf(),
            final(self)@ == old(self)@.update(index as int, byte),
            prev == old(self)@[index as int],
    {
        let prev: u8 = self.bytes[index];
        self.bytes[index] = byte;
        prev
    }

    /// Reads every byte of the chunk into `dst`.
    pub fn load(&self, dst: &mut Vec<u8>)
        ensures
            final(dst)@ == self@,
    {
        dst.clear();
        let mut i: usize = 0;
        while i < self.bytes.len()
            invariant
                i <= self@.len(),
                dst@ =~= self@.take(i as int),
            decreases self@.len() - i,
        {
            dst.push(self.bytes[i]);
            i = i + 1;
        }
        proof {
            assert(dst@ =~= self@);
        }
    }

    /// XORs `rhs` into the chunk and returns the change in the number of
    /// set bits (new popcount minus old popcount).
    pub fn toggle_all(&mut self, rhs: &Chunk) -> (diff: i16)
        requires
            old(self).wf(),
            rhs.wf(),
        ensures
            final(self).wf(),
            final(self)@ == xor_bytes(old(self)@, rhs@),
            diff as int == pop_sum(final(self)@) - pop_sum(old(self)@),
    {
        let ghost orig = self@;
        let mut diff: i16 = 0;
        let mut i: usize = 0;
        while i < CHUNK_BYTES
            invariant
                i <= CHUNK_BYTES,
                self@.len() == CHUNK_BYTES,
                rhs.wf(),
                orig.len() == CHUNK_BYTES,
                forall|j: int| 0 <= j < i ==> self@[j] == (orig[j] ^ rhs@[j]),
                forall|j: int| i <= j < CHUNK_BYTES ==> self@[j] == orig[j],
                diff as int == pop_sum(self@.take(i as int)) - pop_sum(orig.take(i as int)),
            decreases CHUNK_BYTES - i,
        {
            let prev: u8 = self.bytes[i];
            let next: u8 = prev ^ rhs.bytes[i];
            proof {
                lemma_pop_sum_bounds(self@.take(i as int));
                lemma_pop_sum_bounds(orig.take(i as int));
            }
            let step: i16 = popcount_byte(next) as i16 - popcount_byte(prev) as i16;
            let ghost pre = self@;
            self.bytes[i] = next;
            proof {
                assert(self@.take(i as int) =~= pre.take(i as int));
                lemma_pop_sum_take_snoc(self@, i as int);
                lemma_pop_sum_take_snoc(orig, i as int);
            }
            diff = diff + step;
            i = i + 1;
        }
        proof {
            assert(self@ =~= xor_bytes(orig, rhs@));
            assert(self@.take(CHUNK_BYTES as int) =~= self@);
            assert(orig.take(CHUNK_BYTES as int) =~= orig);
        }
        diff
    }
}

} // verus!
