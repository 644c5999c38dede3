//! Popcount and byte-sum arithmetic for the aggregate counters.
//!
//! The board keeps two running aggregates: `bits_set`, the popcount over all
//! stored bytes, and `bytes_sum`, their arithmetic sum. The spec functions
//! here define both, per byte, per chunk and per board, and the lemmas say
//! how a single-byte update moves them.

use vstd::prelude::*;

verus! {

/// Bit `k` of byte `b`.
pub open spec fn bit_set(b: u8, k: u8) -> bool {
    (b >> k) & 1u8 == 1u8
}

/// Number of set bits in one byte.
pub open spec fn pop8(b: u8) -> int {
    ((b & 1u8) as int) + (((b >> 1u8) & 1u8) as int) + (((b >> 2u8) & 1u8) as int)
        + (((b >> 3u8) & 1u8) as int) + (((b >> 4u8) & 1u8) as int) + (((b >> 5u8) & 1u8) as int)
        + (((b >> 6u8) & 1u8) as int) + (((b >> 7u8) & 1u8) as int)
}

pub proof fn lemma_pop8_range(b: u8)
    ensures
        0 <= pop8(b) <= 8,
{
    assert(0 <= pop8(b) <= 8) by (bit_vector);
}

/// Flipping bit `k` moves the popcount by one and the byte value by the
/// bit's weight, in the direction given by the bit's previous value.
pub proof fn lemma_pop8_toggle(b: u8, k: u8)
    requires
        k < 8,
    ensures
        bit_set(b, k) ==> pop8(b ^ (1u8 << k)) == pop8(b) - 1,
        !bit_set(b, k) ==> pop8(b ^ (1u8 << k)) == pop8(b) + 1,
        bit_set(b, k) ==> (b ^ (1u8 << k)) as int == b - (1u8 << k),
        !bit_set(b, k) ==> (b ^ (1u8 << k)) as int == b + (1u8 << k),
        bit_set(b ^ (1u8 << k), k) == !bit_set(b, k),
        (b ^ (1u8 << k)) ^ (1u8 << k) == b,
{
    assert((bit_set(b, k) ==> pop8(b ^ (1u8 << k)) == pop8(b) - 1) && (!bit_set(b, k)
        ==> pop8(b ^ (1u8 << k)) == pop8(b) + 1) && (bit_set(b, k) ==> (b ^ (1u8 << k)) as int == b
        - (1u8 << k)) && (!bit_set(b, k) ==> (b ^ (1u8 << k)) as int == b + (1u8 << k)) && (bit_set(
        b ^ (1u8 << k),
        k,
    ) == !bit_set(b, k)) && ((b ^ (1u8 << k)) ^ (1u8 << k) == b)) by (bit_vector)
        requires
            k < 8,
    ;
}

/// Executable popcount of one byte.
pub fn popcount_byte(b: u8) -> (c: u8)
    ensures
        c as int == pop8(b),
        c <= 8,
{
    let t0: u8 = b & 1u8;
    let t1: u8 = (b >> 1u8) & 1u8;
    let t2: u8 = (b >> 2u8) & 1u8;
    let t3: u8 = (b >> 3u8) & 1u8;
    let t4: u8 = (b >> 4u8) & 1u8;
    let t5: u8 = (b >> 5u8) & 1u8;
    let t6: u8 = (b >> 6u8) & 1u8;
    let t7: u8 = (b >> 7u8) & 1u8;
    assert((b & 1u8) <= 1 && ((b >> 1u8) & 1u8) <= 1 && ((b >> 2u8) & 1u8) <= 1 && ((b >> 3u8)
        & 1u8) <= 1 && ((b >> 4u8) & 1u8) <= 1 && ((b >> 5u8) & 1u8) <= 1 && ((b >> 6u8) & 1u8) <= 1
        && ((b >> 7u8) & 1u8) <= 1) by (bit_vector);
    t0 + t1 + t2 + t3 + t4 + t5 + t6 + t7
}

/// Popcount of a byte sequence.
pub open spec fn pop_sum(s: Seq<u8>) -> int
    decreases s.len(),
{
    if s.len() == 0 {
        0
    } else {
        pop_sum(s.drop_last()) + pop8(s.last())
    }
}

/// Arithmetic sum of a byte sequence.
pub open spec fn byte_sum(s: Seq<u8>) -> int
    decreases s.len(),
{
    if s.len() == 0 {
        0
    } else {
        byte_sum(s.drop_last()) + s.last()
    }
}

pub proof fn lemma_pop_sum_bounds(s: Seq<u8>)
    ensures
        0 <= pop_sum(s) <= 8 * s.len(),
    decreases s.len(),
{
    if s.len() > 0 {
        lemma_pop_sum_bounds(s.drop_last());
        lemma_pop8_range(s.last());
    }
}

pub proof fn lemma_byte_sum_bounds(s: Seq<u8>)
    ensures
        0 <= byte_sum(s) <= 255 * s.len(),
    decreases s.len(),
{
    if s.len() > 0 {
        lemma_byte_sum_bounds(s.drop_last());
    }
}

pub proof fn lemma_pop_sum_update(s: Seq<u8>, i: int, v: u8)
    requires
        0 <= i < s.len(),
    ensures
        pop_sum(s.update(i, v)) == pop_sum(s) - pop8(s[i]) + pop8(v),
    decreases s.len(),
{
    if i == s.len() - 1 {
        assert(s.update(i, v).drop_last() =~= s.drop_last());
    } else {
        lemma_pop_sum_update(s.drop_last(), i, v);
        assert(s.update(i, v).drop_last() =~= s.drop_last().update(i, v));
    }
}

pub proof fn lemma_byte_sum_update(s: Seq<u8>, i: int, v: u8)
    requires
        0 <= i < s.len(),
    ensures
        byte_sum(s.update(i, v)) == byte_sum(s) - s[i] + v,
    decreases s.len(),
{
    if i == s.len() - 1 {
        assert(s.update(i, v).drop_last() =~= s.drop_last());
    } else {
        lemma_byte_sum_update(s.drop_last(), i, v);
        assert(s.update(i, v).drop_last() =~= s.drop_last().update(i, v));
    }
}

pub proof fn lemma_pop_sum_take_snoc(s: Seq<u8>, i: int)
    requires
        0 <= i < s.len(),
    ensures
        pop_sum(s.take(i + 1)) == pop_sum(s.take(i)) + pop8(s[i]),
{
    assert(s.take(i + 1).drop_last() =~= s.take(i));
}

pub proof fn lemma_byte_sum_take_snoc(s: Seq<u8>, i: int)
    requires
        0 <= i < s.len(),
    ensures
        byte_sum(s.take(i + 1)) == byte_sum(s.take(i)) + s[i],
{
    assert(s.take(i + 1).drop_last() =~= s.take(i));
}

/// Popcount of a whole board, chunk by chunk.
pub open spec fn pop_total(cs: Seq<Seq<u8>>) -> int
    decreases cs.len(),
{
    if cs.len() == 0 {
        0
    } else {
        pop_total(cs.drop_last()) + pop_sum(cs.last())
    }
}

/// Byte sum of a whole board, chunk by chunk.
pub open spec fn byte_total(cs: Seq<Seq<u8>>) -> int
    decreases cs.len(),
{
    if cs.len() == 0 {
        0
    } else {
        byte_total(cs.drop_last()) + byte_sum(cs.last())
    }
}

pub proof fn lemma_pop_total_update(cs: Seq<Seq<u8>>, i: int, c: Seq<u8>)
    requires
        0 <= i < cs.len(),
    ensures
        pop_total(cs.update(i, c)) == pop_total(cs) - pop_sum(cs[i]) + pop_sum(c),
    decreases cs.len(),
{
    if i == cs.len() - 1 {
        assert(cs.update(i, c).drop_last() =~= cs.drop_last());
    } else {
        lemma_pop_total_update(cs.drop_last(), i, c);
        assert(cs.update(i, c).drop_last() =~= cs.drop_last().update(i, c));
    }
}

pub proof fn lemma_byte_total_update(cs: Seq<Seq<u8>>, i: int, c: Seq<u8>)
    requires
        0 <= i < cs.len(),
    ensures
        byte_total(cs.update(i, c)) == byte_total(cs) - byte_sum(cs[i]) + byte_sum(c),
    decreases cs.len(),
{
    if i == cs.len() - 1 {
        assert(cs.update(i, c).drop_last() =~= cs.drop_last());
    } else {
        lemma_byte_total_update(cs.drop_last(), i, c);
        assert(cs.update(i, c).drop_last() =~= cs.drop_last().update(i, c));
    }
}

pub proof fn lemma_totals_push(cs: Seq<Seq<u8>>, c: Seq<u8>)
    ensures
        pop_total(cs.push(c)) == pop_total(cs) + pop_sum(c),
        byte_total(cs.push(c)) == byte_total(cs) + byte_sum(c),
{
    assert(cs.push(c).drop_last() =~= cs);
}

pub proof fn lemma_zero_sums(s: Seq<u8>)
    requires
        forall|i: int| 0 <= i < s.len() ==> s[i] == 0u8,
    ensures
        pop_sum(s) == 0,
        byte_sum(s) == 0,
    decreases s.len(),
{
    assert(pop8(0u8) == 0) by (bit_vector);
    if s.len() > 0 {
        lemma_zero_sums(s.drop_last());
    }
}

/// Executable popcount of a byte vector.
pub fn pop_sum_bytes(v: &Vec<u8>) -> (s: u64)
    requires
        v@.len() <= 1_000_000,
    ensures
        s as int == pop_sum(v@),
{
    let mut s: u64 = 0;
    let mut i: usize = 0;
    while i < v.len()
        invariant
            i <= v@.len(),
            v@.len() <= 1_000_000,
            s as int == pop_sum(v@.take(i as int)),
            s <= 8 * i,
        decreases v@.len() - i,
    {
        proof {
            lemma_pop_sum_take_snoc(v@, i as int);
            lemma_pop8_range(v@[i as int]);
        }
        s = s + popcount_byte(v[i]) as u64;
        i = i + 1;
    }
    proof {
        assert(v@.take(v@.len() as int) =~= v@);
    }
    s
}

/// Executable arithmetic sum of a byte vector.
pub fn byte_sum_bytes(v: &Vec<u8>) -> (s: u64)
    requires
        v@.len() <= 1_000_000,
    ensures
        s as int == byte_sum(v@),
{
    let mut s: u64 = 0;
    let mut i: usize = 0;
    while i < v.len()
        invariant
            i <= v@.len(),
            v@.len() <= 1_000_000,
            s as int == byte_sum(v@.take(i as int)),
            s <= 255 * i,
        decreases v@.len() - i,
    {
        proof {
            lemma_byte_sum_take_snoc(v@, i as int);
        }
        s = s + v[i] as u64;
        i = i + 1;
    }
    proof {
        assert(v@.take(v@.len() as int) =~= v@);
    }
    s
}

pub proof fn lemma_totals_bounds(cs: Seq<Seq<u8>>)
    requires
        forall|i: int| 0 <= i < cs.len() ==> (#[trigger] cs[i]).len() == 128,
    ensures
        0 <= pop_total(cs) <= 1024 * cs.len(),
        0 <= byte_total(cs) <= 32640 * cs.len(),
    decreases cs.len(),
{
    if cs.len() > 0 {
        lemma_totals_bounds(cs.drop_last());
        lemma_pop_sum_bounds(cs.last());
        lemma_byte_sum_bounds(cs.last());
    }
}

} // verus!
