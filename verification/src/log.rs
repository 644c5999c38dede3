//! The mutation log: 21-byte little-endian records of every toggle and
//! set-byte, and the state machine of the single-writer background worker.
//!
//! Record layout: bytes 0..16 hold the mutation's wall time in nanoseconds
//! since the Unix epoch (0 if the time query failed); bytes 16..20 hold the
//! 32-bit offset whose high bit is the type tag (set for toggle-bit, clear
//! for set-byte), with the offset itself restricted to the low 31 bits;
//! byte 20 holds the written value (0 for a toggle).

use vstd::bytes::lemma_auto_spec_u128_to_from_le_bytes;
use vstd::bytes::lemma_auto_spec_u32_to_from_le_bytes;
use vstd::bytes::spec_u128_from_le_bytes;
use vstd::bytes::spec_u128_to_le_bytes;
use vstd::bytes::spec_u32_from_le_bytes;
use vstd::bytes::spec_u32_to_le_bytes;
use vstd::bytes::u128_from_le_bytes;
use vstd::bytes::u128_to_le_bytes;
use vstd::bytes::u32_from_le_bytes;
use vstd::bytes::u32_to_le_bytes;
use vstd::prelude::*;
use vstd::slice::slice_subrange;

use crate::FLUSH_DELAY_MS;
use crate::RECORD_BYTES;

verus! {

/// High bit of the 32-bit offset field: set for a toggle record.
pub const TYPE_MASK: u32 = 0x8000_0000;

/// Low 31 bits of the offset field: the offset itself.
pub const OFFSET_MASK: u32 = 0x7fff_ffff;

/// One logged mutation. Offsets are restricted to 31 bits so that the type
/// tag fits in the high bit of the offset field.
#[derive(Clone, Copy, Debug, PartialEq, Eq, Structural)]
pub enum Record {
    SetByte { time: u128, offset: u32, value: u8 },
    Toggle { time: u128, offset: u32 },
}

impl Record {
    pub open spec fn wf(self) -> bool {
        match self {
            Record::SetByte { offset, .. } => offset < TYPE_MASK,
            Record::Toggle { offset, .. } => offset < TYPE_MASK,
        }
    }

    pub open spec fn time(self) -> u128 {
        match self {
            Record::SetByte { time, .. } => time,
            Record::Toggle { time, .. } => time,
        }
    }

    /// The offset field as encoded: the type tag or-ed onto the offset.
    pub open spec fn tagged_offset(self) -> u32 {
        match self {
            Record::SetByte { offset, .. } => offset,
            Record::Toggle { offset, .. } => offset | TYPE_MASK,
        }
    }

    /// The value byte as encoded: 0 for a toggle.
    pub open spec fn value_byte(self) -> u8 {
        match self {
            Record::SetByte { value, .. } => value,
            Record::Toggle { .. } => 0u8,
        }
    }

    /// Encodes the record as its 21 bytes.
    pub fn to_record(self) -> (out: Vec<u8>)
        requires
            self.wf(),
        ensures
            out@ == record_bytes(self),
            out@.len() == RECORD_BYTES,
    {
        let (time, tagged, value): (u128, u32, u8) = match self {
            Record::SetByte { time, offset, value } => (time, offset, value),
            Record::Toggle { time, offset } => (time, offset | TYPE_MASK, 0u8),
        };
        let mut out = u128_to_le_bytes(time);
        let mut tail = u32_to_le_bytes(tagged);
        out.append(&mut tail);
        out.push(value);
        proof {
            lemma_auto_spec_u128_to_from_le_bytes();
            lemma_auto_spec_u32_to_from_le_bytes();
            assert(out@ =~= record_bytes(self));
        }
        out
    }

    /// Decodes 21 bytes into the record they spell.
    pub fn parse(bytes: &Vec<u8>) -> (r: Record)
        requires
            bytes@.len() == RECORD_BYTES,
        ensures
            r == record_of(bytes@),
    {
        let time = u128_from_le_bytes(slice_subrange(bytes.as_slice(), 0, 16));
        let tagged = u32_from_le_bytes(slice_subrange(bytes.as_slice(), 16, 20));
        if tagged & TYPE_MASK != 0 {
            Record::Toggle { time, offset: tagged & OFFSET_MASK }
        } else {
            Record::SetByte { time, offset: tagged, value: bytes[20] }
        }
    }
}

/// The 21-byte encoding of a record.
pub open spec fn record_bytes(r: Record) -> Seq<u8> {
    spec_u128_to_le_bytes(r.time()) + spec_u32_to_le_bytes(r.tagged_offset()) + seq![
        r.value_byte(),
    ]
}

/// The record spelled by 21 bytes.
pub open spec fn record_of(b: Seq<u8>) -> Record
    recommends
        b.len() == RECORD_BYTES,
{
    let time = spec_u128_from_le_bytes(b.subrange(0, 16));
    let tagged = spec_u32_from_le_bytes(b.subrange(16, 20));
    if tagged & TYPE_MASK != 0 {
        Record::Toggle { time, offset: tagged & OFFSET_MASK }
    } else {
        Record::SetByte { time, offset: tagged, value: b[20] }
    }
}

/// Records round-trip: decoding the 21-byte encoding of any well-formed
/// record recovers the record, time, kind, offset and value alike.
pub proof fn lemma_record_round_trip(r: Record)
    requires
        r.wf(),
    ensures
        record_of(record_bytes(r)) == r,
{
    lemma_auto_spec_u128_to_from_le_bytes();
    lemma_auto_spec_u32_to_from_le_bytes();
    let b = record_bytes(r);
    assert(b.subrange(0, 16) =~= spec_u128_to_le_bytes(r.time()));
    assert(b.subrange(16, 20) =~= spec_u32_to_le_bytes(r.tagged_offset()));
    match r {
        Record::Toggle { time, offset } => {
            assert((offset | 0x8000_0000u32) & 0x8000_0000u32 != 0 && (offset | 0x8000_0000u32) & 0x7fff_ffffu32 == offset) by (bit_vector)
                requires
                    offset < 0x8000_0000u32,
            ;
        },
        Record::SetByte { time, offset, value } => {
            assert(offset & 0x8000_0000u32 == 0) by (bit_vector)
                requires
                    offset < 0x8000_0000u32,
            ;
            assert(b[20] == value);
        },
    }
}

/// State of the log writer between messages: either nothing is buffered, or
/// at least one record has been written since the last flush and a flush is
/// scheduled for `deadline_ms`.
#[derive(Clone, Copy, Debug, PartialEq, Eq, Structural)]
pub enum WriterState {
    Idle,
    Buffered { deadline_ms: u64 },
}

/// What the writer worker observes: a record to append, an explicit flush
/// request, its flush deadline elapsing, the queue closing, or a request to
/// reopen the log file.
#[derive(Clone, Copy, Debug, PartialEq, Eq, Structural)]
pub enum WriterEvent {
    Incoming { record: Record },
    FlushRequested,
    DeadlineElapsed,
    Closed,
    ReopenRequested,
}

/// What the writer worker must do after a step: append `write_bytes` to the
/// file as one write, flush the OS buffer, acknowledge a completed flush,
/// reopen the file, or exit the loop.
pub struct WriterStep {
    pub next: WriterState,
    pub write_bytes: Option<Vec<u8>>,
    pub flush: bool,
    pub ack_flush: bool,
    pub reopen: bool,
    pub exit: bool,
}

/// One transition of the log writer:
/// - idle + record: write it, schedule a flush `FLUSH_DELAY_MS` ahead;
/// - buffered + record: write it, deadline unchanged;
/// - deadline elapsed: flush, go idle;
/// - flush request: flush, acknowledge, go idle;
/// - queue closed: flush, exit;
/// - reopen request: flush, reopen the file, retain the state.
pub fn writer_step(state: WriterState, event: WriterEvent, now_ms: u64) -> (step: WriterStep)
    requires
        event matches WriterEvent::Incoming { record } ==> record.wf(),
        now_ms + FLUSH_DELAY_MS <= u64::MAX,
    ensures
        (event matches WriterEvent::Incoming { record } ==> {
            &&& step.write_bytes matches Some(b) && b@ == record_bytes(record)
            &&& !step.flush
            &&& !step.ack_flush
            &&& !step.reopen
            &&& !step.exit
            &&& step.next == (match state {
                WriterState::Idle => WriterState::Buffered {
                    deadline_ms: (now_ms + FLUSH_DELAY_MS) as u64,
                },
                WriterState::Buffered { deadline_ms } => WriterState::Buffered { deadline_ms },
            })
        }),
        (event is FlushRequested ==> {
            &&& step.write_bytes is None
            &&& step.flush
            &&& step.ack_flush
            &&& !step.reopen
            &&& !step.exit
            &&& step.next == WriterState::Idle
        }),
        (event is DeadlineElapsed ==> {
            &&& step.write_bytes is None
            &&& step.flush
            &&& !step.ack_flush
            &&& !step.reopen
            &&& !step.exit
            &&& step.next == WriterState::Idle
        }),
        (event is Closed ==> {
            &&& step.write_bytes is None
            &&& step.flush
            &&& !step.ack_flush
            &&& !step.reopen
            &&& step.exit
            &&& step.next == WriterState::Idle
        }),
        (event is ReopenRequested ==> {
            &&& step.write_bytes is None
            &&& step.flush
            &&& !step.ack_flush
            &&& step.reopen
            &&& !step.exit
            &&& step.next == state
        }),
{
    match event {
        WriterEvent::Incoming { record } => {
            let next = match state {
                WriterState::Idle => WriterState::Buffered { deadline_ms: now_ms + FLUSH_DELAY_MS },
                WriterState::Buffered { deadline_ms } => WriterState::Buffered { deadline_ms },
            };
            WriterStep {
                next,
                write_bytes: Some(record.to_record()),
                flush: false,
                ack_flush: false,
                reopen: false,
                exit: false,
            }
        },
        WriterEvent::FlushRequested => WriterStep {
            next: WriterState::Idle,
            write_bytes: None,
            flush: true,
            ack_flush: true,
            reopen: false,
            exit: false,
        },
        WriterEvent::DeadlineElapsed => WriterStep {
            next: WriterState::Idle,
            write_bytes: None,
            flush: true,
            ack_flush: false,
            reopen: false,
            exit: false,
        },
        WriterEvent::Closed => WriterStep {
            next: WriterState::Idle,
            write_bytes: None,
            flush: true,
            ack_flush: false,
            reopen: false,
            exit: true,
        },
        WriterEvent::ReopenRequested => WriterStep {
            next: state,
            write_bytes: None,
            flush: true,
            ack_flush: false,
            reopen: true,
            exit: false,
        },
    }
}

} // verus!
