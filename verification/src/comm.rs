//! Client-submitted chunk state: an unpadded-base64 payload decoded into
//! one chunk, zero-filled on the right when shorter than a chunk.

use vstd::prelude::*;

use crate::chunk::copy_bytes;
use crate::chunk::Chunk;
use crate::encoding::b64_decode;
use crate::encoding::b64_of;
use crate::CHUNK_BYTES;

verus! {

/// Why a client payload was rejected.
#[derive(Clone, Copy, Debug, PartialEq, Eq, Structural)]
pub enum ChunkDecodeError {
    /// Not a canonical unpadded base64 string.
    Invalid,
    /// Decodes to more than one chunk of bytes.
    TooLong,
}

/// One client-submitted chunk payload.
pub struct ClientState {
    pub b64: String,
}

impl ClientState {
    /// Decodes the payload into a chunk: the decoded bytes, zero-filled
    /// up to 128. Succeeds exactly on canonical unpadded base64 of at
    /// most 128 bytes.
    pub fn to_raw_chunk(&self) -> (r: Result<Chunk, ChunkDecodeError>)
        ensures
            r matches Ok(c) ==> c.wf(),
            r matches Ok(c) ==> exists|d: Seq<u8>|
                {
                    &&& self.b64@ == b64_of(d)
                    &&& d.len() <= CHUNK_BYTES
                    &&& c@ == d + Seq::new((CHUNK_BYTES - d.len()) as nat, |i: int| 0u8)
                },
            r == Err::<Chunk, ChunkDecodeError>(ChunkDecodeError::Invalid) <==> !(exists|
                d: Seq<u8>,
            |
                self.b64@ == b64_of(d)),
            r == Err::<Chunk, ChunkDecodeError>(ChunkDecodeError::TooLong) <==> exists|d: Seq<u8>|
                self.b64@ == b64_of(d) && d.len() > CHUNK_BYTES,
    {
        let decoded = match b64_decode(self.b64.as_str()) {
            Ok(v) => v,
            Err(_) => {
                return Err(ChunkDecodeError::Invalid);
            },
        };
        if decoded.len() > CHUNK_BYTES {
            return Err(ChunkDecodeError::TooLong);
        }
        let mut bytes = copy_bytes(&decoded);
        while bytes.len() < CHUNK_BYTES
            invariant
                decoded@.len() <= CHUNK_BYTES,
                decoded@.len() <= bytes@.len() <= CHUNK_BYTES,
                bytes@ =~= decoded@ + Seq::new(
                    (bytes@.len() - decoded@.len()) as nat,
                    |i: int| 0u8,
                ),
            decreases CHUNK_BYTES - bytes@.len(),
        {
            bytes.push(0u8);
            proof {
                assert(bytes@ =~= decoded@ + Seq::new(
                    (bytes@.len() - decoded@.len()) as nat,
                    |i: int| 0u8,
                ));
            }
        }
        let c = Chunk { bytes };
        proof {
            assert(self.b64@ == b64_of(decoded@));
        }
        Ok(c)
    }
}

} // verus!
