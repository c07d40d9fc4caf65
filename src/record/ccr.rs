use vstd::prelude::*;

use crate::decode::{offset_at, offset_width, Decoder};
use crate::error::{DecodeError, Field, RecordKind};
use crate::record::collection::{
    first_error, read_record_header, read_reserved, rfu_error, tag_error, Decodable,
};
use crate::record::uir::read_remainder;
use crate::repr::Encoding;

verus! {

/// Stores the compressed body of a CDF whose whole file is compressed.
#[derive(Debug)]
pub struct CompressedCdfRecord {
    /// Size of this record in bytes.
    pub record_size: i64,
    /// The type of record as defined in the CDF specification as an integer.
    pub record_type: i32,
    /// File offset of the compressed parameters record.
    pub cpr_offset: i64,
    /// Size of the CDF in its uncompressed form.
    pub uncompressed_size: i64,
    /// Reserved for future use.
    pub rfu_a: i32,
    /// The compressed CDF, as it stands in the file.
    pub data: Vec<u8>,
}

impl Decodable for CompressedCdfRecord {
    open spec fn fixed_len(v3: bool) -> int {
        3 * offset_width(v3) + 8
    }

    open spec fn fixed_error(s: Seq<u8>, p: int, v3: bool) -> Option<DecodeError> {
        first_error(
            tag_error(s, p, v3, RecordKind::Ccr, 10i32),
            rfu_error(s, p + 3 * offset_width(v3) + 4, Field::RfuA, 0i32),
        )
    }

    open spec fn decoded(s: Seq<u8>, p: int, v3: bool, enc: Option<Encoding>, r: Self) -> bool {
        let w = offset_width(v3);
        &&& r.record_size == offset_at(s, p, v3)
        &&& r.record_type == 10
        &&& r.cpr_offset == offset_at(s, p + w + 4, v3)
        &&& r.uncompressed_size == offset_at(s, p + 2 * w + 4, v3)
        &&& r.rfu_a == 0
        &&& r.record_size >= 3 * w + 8
        &&& r.data@ == s.subrange(p + 3 * w + 8, p + r.record_size)
    }

    open spec fn complete(s: Seq<u8>, p: int, v3: bool, enc: Option<Encoding>, rdims: Option<Seq<i32>>) -> bool {
        offset_at(s, p, v3) >= 3 * offset_width(v3) + 8 && p + offset_at(s, p, v3) <= s.len()
    }

    fn decode_be(d: &mut Decoder) -> (r: Result<Self, DecodeError>)
        ensures
            old(d).fits(Self::fixed_len(old(d).v3())) && Self::fixed_error(
                old(d).data@,
                old(d).pos as int,
                old(d).v3(),
            ) is None && offset_at(old(d).data@, old(d).pos as int, old(d).v3()) < 3 * old(d).ow() + 8 ==> r == Err::<
                Self,
                DecodeError,
            >(DecodeError::IntegerOutOfRange(Field::RecordSize)),
    {
        let v3 = d.version.major >= 3;
        let record_size = read_record_header(d, RecordKind::Ccr, 10)?;
        let cpr_offset = d.read_offset()?;
        let uncompressed_size = d.read_offset()?;
        let rfu_a = read_reserved(d, Field::RfuA, 0)?;
        let used: i64 = if v3 { 32 } else { 20 };
        let data = read_remainder(d, record_size, used)?;
        Ok(CompressedCdfRecord { record_size, record_type: 10, cpr_offset, uncompressed_size, rfu_a, data })
    }
}

} // verus!
