//! A shared, persistent bitmap ("board") mutated one bit or one byte at a
//! time and observed through per-chunk snapshot broadcasts.
//!
//! The board is a fixed array of 128-byte chunks. Every mutation keeps two
//! running aggregates (the popcount of the whole board and the arithmetic sum
//! of its bytes) consistent with the stored bytes, appends a 21-byte record to
//! a mutation log, and marks the owning chunk's broadcaster as changed. A
//! per-chunk coalescer turns a flood of point mutations into rate-limited
//! snapshot publishes.

use vstd::prelude::*;

pub mod bitmap;
pub mod chunk;
pub mod comm;
pub mod counts;
pub mod decimal;
pub mod encoding;
pub mod log;
pub mod png;
pub mod range;
pub mod segment;

verus! {

/// Bytes per chunk: the unit of storage and of broadcast.
pub const CHUNK_BYTES: usize = 128;

/// Bits per chunk.
pub const CHUNK_BITS: usize = 1024;

/// Capacity cap of the board in bits (1,000,000 bytes).
pub const MAX_TOTAL_BITS: usize = 8_000_000;

/// Minimum interval between two snapshot publishes of one chunk.
pub const PUBLISH_INTERVAL_MS: u64 = 100;

/// Delay after the last buffered record before the log writer flushes.
pub const FLUSH_DELAY_MS: u64 = 1000;

/// Interval of the aggregate-sum ticker on an update stream.
pub const SUM_TICK_MS: u64 = 250;

/// Capacity of the bounded queue in front of the log writer.
pub const LOG_QUEUE_CAPACITY: usize = 100;

/// Size of one encoded mutation record.
pub const RECORD_BYTES: usize = 21;

} // verus!
