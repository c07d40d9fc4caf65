use vstd::prelude::*;

use crate::decode::{offset_at, offset_width, Decoder};
use crate::error::{DecodeError, Field, RecordKind};
use crate::record::collection::{
    first_error, read_record_header, read_reserved, rfu_error, tag_error, Decodable,
};
use crate::repr::Encoding;

verus! {

/// Stores the contents of a Compressed Variable Values Record: one block of
/// variable values, compressed.
#[derive(Debug)]
pub struct CompressedVariableValuesRecord {
    /// The size of this record in bytes.
    pub record_size: i64,
    /// The type of record as defined in the CDF specification as an integer.
    pub record_type: i32,
    /// Value reserved for future use.
    pub rfu_a: i32,
    /// Size in bytes of the compressed data.
    pub compressed_size: i64,
    /// The compressed data, as it stands in the file.
    pub data: Vec<u8>,
}

impl CompressedVariableValuesRecord {
    /// Decodes the CVVR at the cursor; the context is left as it is.
    pub fn decode_block(d: &mut Decoder) -> (r: Result<Self, DecodeError>)
        ensures
            final(d).same_input(*old(d)),
            final(d).context == old(d).context,
            r matches Ok(x) ==> old(d).fits(Self::fixed_len(old(d).v3())) && Self::fixed_error(
                old(d).data@,
                old(d).pos as int,
                old(d).v3(),
            ) is None && Self::decoded(old(d).data@, old(d).pos as int, old(d).v3(), old(d).context.encoding, x),
            old(d).fits(Self::fixed_len(old(d).v3())) && Self::fixed_error(
                old(d).data@,
                old(d).pos as int,
                old(d).v3(),
            ) is Some ==> r == Err::<Self, DecodeError>(
                Self::fixed_error(old(d).data@, old(d).pos as int, old(d).v3()).unwrap(),
            ),
            !old(d).fits(Self::fixed_len(old(d).v3())) ==> r is Err,
            old(d).fits(Self::fixed_len(old(d).v3())) && Self::fixed_error(
                old(d).data@,
                old(d).pos as int,
                old(d).v3(),
            ) is None && Self::complete(old(d).data@, old(d).pos as int, old(d).v3(), old(d).context.encoding, None)
                ==> r is Ok,
            old(d).fits(Self::fixed_len(old(d).v3())) && Self::fixed_error(
                old(d).data@,
                old(d).pos as int,
                old(d).v3(),
            ) is None && offset_at(old(d).data@, old(d).pos + old(d).ow() + 8, old(d).v3()) < 0 ==> r == Err::<
                Self,
                DecodeError,
            >(DecodeError::IntegerOutOfRange(Field::CompressedSize)),
    {
        let record_size = read_record_header(d, RecordKind::Cvvr, 13)?;
        let rfu_a = read_reserved(d, Field::RfuA, 0)?;
        let compressed_size = d.read_offset()?;
        if compressed_size < 0 {
            return Err(DecodeError::IntegerOutOfRange(Field::CompressedSize));
        }
        if compressed_size as u64 > d.data.len() as u64 {
            return Err(DecodeError::UnexpectedEof { offset: d.pos as u64, needed: compressed_size as u64 });
        }
        let data = d.read_bytes(compressed_size as usize)?;
        Ok(CompressedVariableValuesRecord { record_size, record_type: 13, rfu_a, compressed_size, data })
    }
}

impl Decodable for CompressedVariableValuesRecord {
    open spec fn fixed_len(v3: bool) -> int {
        2 * offset_width(v3) + 8
    }

    open spec fn fixed_error(s: Seq<u8>, p: int, v3: bool) -> Option<DecodeError> {
        first_error(
            tag_error(s, p, v3, RecordKind::Cvvr, 13i32),
            rfu_error(s, p + offset_width(v3) + 4, Field::RfuA, 0i32),
        )
    }

    open spec fn decoded(s: Seq<u8>, p: int, v3: bool, enc: Option<Encoding>, r: Self) -> bool {
        let w = offset_width(v3);
        &&& r.record_size == offset_at(s, p, v3)
        &&& r.record_type == 13
        &&& r.rfu_a == 0
        &&& r.compressed_size == offset_at(s, p + w + 8, v3)
        &&& r.compressed_size >= 0
        &&& r.data@ == s.subrange(p + 2 * w + 8, p + 2 * w + 8 + r.compressed_size)
    }

    open spec fn complete(s: Seq<u8>, p: int, v3: bool, enc: Option<Encoding>, rdims: Option<Seq<i32>>) -> bool {
        let w = offset_width(v3);
        let n = offset_at(s, p + w + 8, v3);
        n >= 0 && p + 2 * w + 8 + n <= s.len()
    }

    fn decode_be(d: &mut Decoder) -> (r: Result<Self, DecodeError>)
        ensures
            old(d).fits(Self::fixed_len(old(d).v3())) && Self::fixed_error(
                old(d).data@,
                old(d).pos as int,
                old(d).v3(),
            ) is None && offset_at(old(d).data@, old(d).pos + old(d).ow() + 8, old(d).v3()) < 0 ==> r == Err::<
                Self,
                DecodeError,
            >(DecodeError::IntegerOutOfRange(Field::CompressedSize)),
    {
        Self::decode_block(d)
    }
}

} // verus!
