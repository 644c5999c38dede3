//! Range handling for the read side: validating a half-open bit range,
//! snapshotting the enclosing chunk range as base64, and assembling the
//! payloads of the two event kinds of an update stream.

use vstd::arithmetic::div_mod::lemma_div_is_ordered;
use vstd::prelude::*;

use crate::bitmap::concat_chunks;
use crate::bitmap::num_chunks_of;
use crate::bitmap::SharedBitmap;
use crate::decimal::itoa_u64;
use crate::decimal::u64_dec;
use crate::encoding::b64_encode;
use crate::encoding::b64_of;
use crate::CHUNK_BITS;
use crate::MAX_TOTAL_BITS;

verus! {

/// Why a requested bit range was rejected.
#[derive(Clone, Copy, Debug, PartialEq, Eq, Structural)]
pub enum RangeError {
    /// `start > end`.
    Inverted,
    /// `end` exceeds the board's bit count.
    EndTooLarge,
    /// The enclosing chunk range exceeds the per-request cap.
    TooWide,
}

impl RangeError {
    /// The client-facing message of the rejection.
    pub fn message(&self) -> (m: &str)
        ensures
            *self is Inverted ==> m@ == "start must be less than end"@,
            *self is EndTooLarge ==> m@ == "end too large"@,
            *self is TooWide ==> m@ == "Cannot listen to such a large range"@,
    {
        match self {
            RangeError::Inverted => "start must be less than end",
            RangeError::EndTooLarge => "end too large",
            RangeError::TooWide => "Cannot listen to such a large range",
        }
    }
}

/// The first chunk of the range: the chunk of bit `start`.
pub open spec fn start_chunk_of(start: int) -> int {
    start / 1024
}

/// One past the last chunk of the range: bit `end` rounded up to chunks.
pub open spec fn end_chunk_of(end: int) -> int {
    (end + 1023) / 1024
}

/// The per-request cap on a watched range: the whole board, rounded up to
/// a chunk multiple.
pub open spec fn max_range_bits(total_bits: int) -> int {
    num_chunks_of(total_bits) * 1024
}

/// Validates the half-open bit range `[start, end)` against a board of
/// `total_bits` bits and resolves it to the enclosing chunk range.
/// Succeeds exactly on ranges that are not inverted, end on the board and
/// fit the cap, and reports the first violated condition otherwise.
pub fn range_validate(start: u64, end: u64, total_bits: u64) -> (r: Result<
    (usize, usize),
    RangeError,
>)
    requires
        total_bits <= MAX_TOTAL_BITS as u64,
    ensures
        r is Ok <==> start <= end && end <= total_bits && (end_chunk_of(end as int)
            - start_chunk_of(start as int)) * 1024 <= max_range_bits(total_bits as int),
        r matches Ok(p) ==> {
            &&& p.0 == start_chunk_of(start as int)
            &&& p.1 == end_chunk_of(end as int)
            &&& p.0 <= p.1
            &&& p.1 <= num_chunks_of(total_bits as int)
        },
        r == Err::<(usize, usize), RangeError>(RangeError::Inverted) <==> start > end,
        r == Err::<(usize, usize), RangeError>(RangeError::EndTooLarge) <==> start <= end && end
            > total_bits,
        r == Err::<(usize, usize), RangeError>(RangeError::TooWide) <==> start <= end && end
            <= total_bits && (end_chunk_of(end as int) - start_chunk_of(start as int)) * 1024
            > max_range_bits(total_bits as int),
{
    if start > end {
        return Err(RangeError::Inverted);
    }
    if end > total_bits {
        return Err(RangeError::EndTooLarge);
    }
    let start_chunk: u64 = start / CHUNK_BITS as u64;
    let end_chunk: u64 = (end + (CHUNK_BITS as u64 - 1)) / CHUNK_BITS as u64;
    let max_chunks: u64 = (total_bits + (CHUNK_BITS as u64 - 1)) / CHUNK_BITS as u64;
    proof {
        lemma_div_is_ordered(start as int, end as int + 1023, 1024);
        lemma_div_is_ordered(end as int + 1023, total_bits as int + 1023, 1024);
    }
    if (end_chunk - start_chunk) * CHUNK_BITS as u64 > max_chunks * CHUNK_BITS as u64 {
        return Err(RangeError::TooWide);
    }
    Ok((start_chunk as usize, end_chunk as usize))
}

/// The JSON snapshot payload of the enclosing chunk range of `[start,
/// end)`: the concatenated chunk bytes, base64-encoded without padding.
/// The pre-encoding span holds exactly 128 bytes per chunk of the range.
pub fn range_snapshot(b: &SharedBitmap, start: u64, end: u64) -> (r: Result<String, RangeError>)
    requires
        b.wf(),
    ensures
        r matches Ok(bits) ==> bits@ == b64_of(
            concat_chunks(
                b.board(),
                start_chunk_of(start as int),
                end_chunk_of(end as int),
            ),
        ),
        r is Ok <==> start <= end && end <= b.total_bits && (end_chunk_of(end as int)
            - start_chunk_of(start as int)) * 1024 <= max_range_bits(b.total_bits as int),
{
    let total_bits: u64 = b.total_bits as u64;
    let (start_chunk, end_chunk) = match range_validate(start, end, total_bits) {
        Ok(p) => p,
        Err(e) => {
            return Err(e);
        },
    };
    let span = b.snapshot(start_chunk, end_chunk);
    Ok(b64_encode(&span))
}

/// The payload of one `update` event for chunk `chunk_index`: the id is
/// the chunk's starting bit index in decimal, the data the chunk's 128
/// bytes in unpadded base64.
pub fn update_event(chunk_index: u64, bytes: &Vec<u8>) -> (ev: (String, String))
    requires
        chunk_index <= MAX_TOTAL_BITS as u64,
    ensures
        ev.0@ == u64_dec((chunk_index * CHUNK_BITS) as int),
        ev.1@ == b64_of(bytes@),
{
    (itoa_u64(chunk_index * CHUNK_BITS as u64), b64_encode(bytes))
}

/// The payload of one `sum` event: the aggregate in decimal.
pub fn sum_event(sum: u64) -> (data: String)
    ensures
        data@ == u64_dec(sum as int),
{
    itoa_u64(sum)
}

/// One tick of the aggregate ticker: emits the aggregate exactly when it
/// changed since the last emission, and suppresses duplicates.
pub fn sum_tick(last_sum: u64, sum: u64) -> (r: Option<String>)
    ensures
        r is Some <==> sum != last_sum,
        r matches Some(data) ==> data@ == u64_dec(sum as int),
{
    if sum != last_sum {
        Some(itoa_u64(sum))
    } else {
        None
    }
}

/// The base64-nopad encoding of an already concatenated snapshot span.
pub fn encode_snapshot(bytes: &Vec<u8>) -> (r: String)
    ensures
        r@ == b64_of(bytes@),
{
    b64_encode(bytes)
}

} // verus!
