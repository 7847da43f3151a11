//! DFU (Device Firmware Update) requests.

use vstd::prelude::*;
use crate::protocol::wire::{
    encode_u32, law_number_round_trip, law_size_round_trip, lemma_varint_len, pow128, take_number,
    take_size, take_u32, take_usize, varint,
};

verus! {

/// Largest payload of one frame.
pub const RYNK_MAX_PAYLOAD_SIZE: usize = 2048;

/// Most bytes that a 32-bit number takes on the wire.
pub const NUMBER_MAX_SIZE: usize = 5;

/// Maximum firmware data bytes per [`DfuWriteRequest`]: what a payload leaves
/// after the `offset` field (a 32-bit number, 5 bytes) and the data length (2
/// bytes).
pub const DFU_DATA_MAX: usize = 2041;

/// Firmware data chunk for DFU download.
///
/// The host sends firmware data in chunks whose size it derives from the
/// device's payload size; at most [`DFU_DATA_MAX`] bytes are accepted.
#[derive(Debug, PartialEq, Eq)]
pub struct DfuWriteRequest {
    /// Byte offset within the DFU partition.
    pub offset: u32,
    /// Firmware data bytes.
    pub data: DfuData,
}

/// At most [`DFU_DATA_MAX`] bytes of firmware, held in a `heapless::Vec`.
#[verifier::external_body]
#[derive(Debug, PartialEq, Eq)]
pub struct DfuData {
    inner: heapless::Vec<u8, DFU_DATA_MAX>,
}

/// The bytes of a chunk.
pub uninterp spec fn data_bytes(data: DfuData) -> Seq<u8>;

impl View for DfuData {
    type V = Seq<u8>;

    open spec fn view(&self) -> Seq<u8> {
        data_bytes(*self)
    }
}

/// `heapless::Vec::from_slice`: a chunk with the given bytes, or an error where they are
/// more than it can hold.
#[verifier::external_body]
fn data_from_slice(bytes: &[u8]) -> (r: Result<DfuData, ()>)
    ensures
        match r {
            Ok(data) => bytes@.len() <= DFU_DATA_MAX && data_bytes(data) == bytes@,
            Err(()) => bytes@.len() > DFU_DATA_MAX,
        },
{
    match heapless::Vec::from_slice(bytes) {
        Ok(inner) => Ok(DfuData { inner }),
        Err(_) => Err(()),
    }
}

/// `heapless::Vec::as_slice`: the bytes of the chunk, never more than its capacity.
#[verifier::external_body]
fn data_as_slice(data: &DfuData) -> (r: &[u8])
    ensures
        r@ == data_bytes(*data),
        r@.len() <= DFU_DATA_MAX,
{
    data.inner.as_slice()
}

impl DfuData {
    /// A chunk with the given bytes, or an error where they are more than it can hold.
    pub fn from_slice(bytes: &[u8]) -> (r: Result<DfuData, ()>)
        ensures
            match r {
                Ok(data) => bytes@.len() <= DFU_DATA_MAX && data@ == bytes@,
                Err(()) => bytes@.len() > DFU_DATA_MAX,
            },
    {
        data_from_slice(bytes)
    }

    /// The bytes of the chunk.
    pub fn as_slice(&self) -> (r: &[u8])
        ensures
            r@ == self@,
            r@.len() <= DFU_DATA_MAX,
    {
        data_as_slice(self)
    }
}

/// CRC synchronization request: the host sends its running CRC-32 and the
/// firmware compares it against its own accumulated value.
#[derive(Debug, Clone, Copy, PartialEq, Eq, Structural)]
pub struct DfuCrcSyncRequest {
    /// CRC-32 the host computed over all data that stands in the download so far.
    pub expected_crc: u32,
}

/// Roll the firmware's DFU state back to a previous checkpoint.
///
/// After a CRC mismatch the host re-sends data starting from the last known good
/// offset. This command resets the firmware's running CRC and write offset so
/// the retransmitted data accumulates correctly.
#[derive(Debug, Clone, Copy, PartialEq, Eq, Structural)]
pub struct DfuCrcRewindRequest {
    /// Byte offset to rewind to (the checkpoint offset).
    pub offset: u32,
    /// CRC-32 value at the checkpoint (the finalized value to restore).
    pub crc: u32,
}

/// End-of-transfer verification: the host sends the CRC-32 of the entire
/// firmware image. The firmware compares against its accumulated value.
#[derive(Debug, Clone, Copy, PartialEq, Eq, Structural)]
pub struct DfuVerifyRequest {
    /// CRC-32 of the complete firmware image.
    pub crc32: u32,
}

/// Most bytes of an encoded [`DfuCrcSyncRequest`].
pub const DFU_CRC_SYNC_MAX_SIZE: usize = NUMBER_MAX_SIZE;

/// Most bytes of an encoded [`DfuCrcRewindRequest`].
pub const DFU_CRC_REWIND_MAX_SIZE: usize = NUMBER_MAX_SIZE + NUMBER_MAX_SIZE;

/// Most bytes of an encoded [`DfuVerifyRequest`].
pub const DFU_VERIFY_MAX_SIZE: usize = NUMBER_MAX_SIZE;

/// Most bytes of an encoded [`DfuWriteRequest`].
pub const DFU_WRITE_MAX_SIZE: usize = NUMBER_MAX_SIZE + 2 + DFU_DATA_MAX;

/// The number that a payload starts with.
pub open spec fn one_number(payload: Seq<u8>) -> Option<u32> {
    match take_number(payload) {
        Some((n, _)) => Some(n),
        None => None,
    }
}

/// The two numbers that a payload starts with.
pub open spec fn two_numbers(payload: Seq<u8>) -> Option<(u32, u32)> {
    match take_number(payload) {
        Some((a, rest)) => match take_number(rest) {
            Some((b, _)) => Some((a, b)),
            None => None,
        },
        None => None,
    }
}

fn append(to: &mut Vec<u8>, more: &[u8])
    ensures
        final(to)@ == old(to)@ + more@,
{
    let mut i: usize = 0;
    while i < more.len()
        invariant
            i <= more@.len(),
            to@ == old(to)@ + more@.subrange(0, i as int),
        decreases more@.len() - i,
    {
        to.push(more[i]);
        i = i + 1;
        assert(to@ =~= old(to)@ + more@.subrange(0, i as int));
    }
    assert(more@.subrange(0, i as int) =~= more@);
}

impl DfuCrcSyncRequest {
    pub fn encode(&self) -> (r: Vec<u8>)
        ensures
            r@ == varint(self.expected_crc as nat),
            r@.len() <= DFU_CRC_SYNC_MAX_SIZE,
    {
        proof {
            law_number_round_trip(self.expected_crc, Seq::empty());
        }
        encode_u32(self.expected_crc)
    }

    /// Reads a request from the start of a payload.
    pub fn decode(payload: &[u8]) -> (r: Option<Self>)
        ensures
            match r {
                Some(req) => one_number(payload@) == Some(req.expected_crc),
                None => one_number(payload@) is None,
            },
    {
        match take_u32(payload) {
            Some((expected_crc, _)) => Some(DfuCrcSyncRequest { expected_crc }),
            None => None,
        }
    }
}

impl DfuVerifyRequest {
    pub fn encode(&self) -> (r: Vec<u8>)
        ensures
            r@ == varint(self.crc32 as nat),
            r@.len() <= DFU_VERIFY_MAX_SIZE,
    {
        proof {
            law_number_round_trip(self.crc32, Seq::empty());
        }
        encode_u32(self.crc32)
    }

    /// Reads a request from the start of a payload.
    pub fn decode(payload: &[u8]) -> (r: Option<Self>)
        ensures
            match r {
                Some(req) => one_number(payload@) == Some(req.crc32),
                None => one_number(payload@) is None,
            },
    {
        match take_u32(payload) {
            Some((crc32, _)) => Some(DfuVerifyRequest { crc32 }),
            None => None,
        }
    }
}

impl DfuCrcRewindRequest {
    pub fn encode(&self) -> (r: Vec<u8>)
        ensures
            r@ == varint(self.offset as nat) + varint(self.crc as nat),
            r@.len() <= DFU_CRC_REWIND_MAX_SIZE,
    {
        proof {
            law_number_round_trip(self.offset, Seq::empty());
            law_number_round_trip(self.crc, Seq::empty());
        }
        let mut out = encode_u32(self.offset);
        append(&mut out, encode_u32(self.crc).as_slice());
        out
    }

    /// Reads a request from the start of a payload.
    pub fn decode(payload: &[u8]) -> (r: Option<Self>)
        ensures
            match r {
                Some(req) => two_numbers(payload@) == Some((req.offset, req.crc)),
                None => two_numbers(payload@) is None,
            },
    {
        match take_u32(payload) {
            Some((offset, rest)) => match take_u32(rest) {
                Some((crc, _)) => Some(DfuCrcRewindRequest { offset, crc }),
                None => None,
            },
            None => None,
        }
    }
}

/// Offset and data that a payload starts with: the offset, the number of bytes,
/// the bytes. More than [`DFU_DATA_MAX`] bytes are refused.
pub open spec fn offset_and_data(payload: Seq<u8>) -> Option<(u32, Seq<u8>)> {
    match take_number(payload) {
        Some((offset, rest)) => match take_size(rest) {
            Some((len, data)) => if len <= data.len() && len <= DFU_DATA_MAX {
                Some((offset, data.subrange(0, len as int)))
            } else {
                None
            },
            None => None,
        },
        None => None,
    }
}

impl DfuWriteRequest {
    pub fn encode(&self) -> (r: Vec<u8>)
        ensures
            r@ == varint(self.offset as nat) + (varint(self.data@.len()) + self.data@),
            r@.len() <= DFU_WRITE_MAX_SIZE,
    {
        let data = self.data.as_slice();
        let n: u32 = data.len() as u32;
        proof {
            law_number_round_trip(self.offset, Seq::empty());
            reveal_with_fuel(pow128, 3);
            lemma_varint_len(n as nat, 2);
        }
        let mut out = encode_u32(self.offset);
        append(&mut out, encode_u32(n).as_slice());
        append(&mut out, data);
        assert(out@ =~= varint(self.offset as nat) + (varint(self.data@.len()) + self.data@));
        out
    }

    /// Reads a request from the start of a payload.
    pub fn decode(payload: &[u8]) -> (r: Option<Self>)
        ensures
            match r {
                Some(req) => offset_and_data(payload@) == Some((req.offset, req.data@)),
                None => offset_and_data(payload@) is None,
            },
    {
        match take_u32(payload) {
            Some((offset, rest)) => match take_usize(rest) {
                Some((len, data)) => {
                    if len > data.len() {
                        return None;
                    }
                    let bytes = vstd::slice::slice_subrange(data, 0, len);
                    match DfuData::from_slice(bytes) {
                        Ok(data) => Some(DfuWriteRequest { offset, data }),
                        Err(()) => None,
                    }
                },
                None => None,
            },
            None => None,
        }
    }
}

// ---------------------------------------------------------------------------
// Laws: what is decoded is what was encoded
// ---------------------------------------------------------------------------

/// A request of one number reads back as it was written.
pub proof fn law_one_number_round_trip(n: u32)
    ensures
        one_number(varint(n as nat)) == Some(n),
{
    law_number_round_trip(n, Seq::empty());
    assert(varint(n as nat) + Seq::<u8>::empty() =~= varint(n as nat));
}

/// A rewind request reads back as it was written.
pub proof fn law_rewind_round_trip(offset: u32, crc: u32)
    ensures
        two_numbers(varint(offset as nat) + varint(crc as nat)) == Some((offset, crc)),
{
    law_number_round_trip(offset, varint(crc as nat));
    law_number_round_trip(crc, Seq::empty());
    assert(varint(crc as nat) + Seq::<u8>::empty() =~= varint(crc as nat));
}

/// A write request reads back as it was written.
pub proof fn law_write_round_trip(offset: u32, data: Seq<u8>)
    requires
        data.len() <= DFU_DATA_MAX,
    ensures
        offset_and_data(varint(offset as nat) + (varint(data.len()) + data)) == Some(
            (offset, data),
        ),
{
    law_number_round_trip(offset, varint(data.len()) + data);
    law_size_round_trip(data.len() as u32, data);
    assert(data.subrange(0, data.len() as int) =~= data);
}

/// A write request always fits in one payload.
pub proof fn law_write_request_fits_payload()
    ensures
        DFU_WRITE_MAX_SIZE <= RYNK_MAX_PAYLOAD_SIZE,
{
}

} // verus!
