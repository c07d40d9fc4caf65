use vstd::prelude::*;

use crate::decode::{offset_at, offset_width, Decoder};
use crate::error::{DecodeError, Field, RecordKind};
use crate::record::collection::{nonzero, tag_error, Decodable, RecordList};
use crate::repr::Encoding;

verus! {

/// Stores the contents of an Unused Internal Record.
#[derive(Debug)]
pub struct UnusedInternalRecord {
    /// The size of this record in bytes.
    pub record_size: i64,
    /// The type of record as defined in the CDF specification as an integer.
    pub record_type: i32,
    /// Next UIR
    pub uir_next: Option<i64>,
    /// Previous UIR
    pub uir_prev: Option<i64>,
    /// The rest of the record.
    pub remainder: Vec<u8>,
}

/// Reads the bytes left of a record of `record_size` bytes after `used`
/// bytes of it.
pub fn read_remainder(d: &mut Decoder, record_size: i64, used: i64) -> (r: Result<Vec<u8>, DecodeError>)
    requires
        0 <= used,
    ensures
        final(d).same_input(*old(d)),
        final(d).context == old(d).context,
        record_size < used ==> r == Err::<Vec<u8>, DecodeError>(
            DecodeError::IntegerOutOfRange(Field::RecordSize),
        ),
        record_size >= used && old(d).fits(record_size - used) ==> (r matches Ok(b) && b@
            == old(d).data@.subrange(old(d).pos as int, old(d).pos + record_size - used)),
        record_size >= used && !old(d).fits(record_size - used) ==> r is Err,
{
    if record_size < used {
        return Err(DecodeError::IntegerOutOfRange(Field::RecordSize));
    }
    let n = record_size - used;
    if n as u64 > d.data.len() as u64 {
        return Err(DecodeError::UnexpectedEof { offset: d.pos as u64, needed: n as u64 });
    }
    d.read_bytes(n as usize)
}

/// Bytes of a UIR before its remainder.
pub open spec fn uir_head_len(v3: bool) -> int {
    3 * offset_width(v3) + 4
}

impl Decodable for UnusedInternalRecord {
    open spec fn fixed_len(v3: bool) -> int {
        uir_head_len(v3)
    }

    open spec fn fixed_error(s: Seq<u8>, p: int, v3: bool) -> Option<DecodeError> {
        tag_error(s, p, v3, RecordKind::Uir, -1i32)
    }

    open spec fn decoded(s: Seq<u8>, p: int, v3: bool, enc: Option<Encoding>, r: Self) -> bool {
        let w = offset_width(v3);
        &&& r.record_size == offset_at(s, p, v3)
        &&& r.record_type == -1
        &&& r.uir_next == nonzero(offset_at(s, p + w + 4, v3))
        &&& r.uir_prev == nonzero(offset_at(s, p + 2 * w + 4, v3))
        &&& r.record_size >= uir_head_len(v3)
        &&& r.remainder@ == s.subrange(p + uir_head_len(v3), p + r.record_size)
    }

    open spec fn complete(s: Seq<u8>, p: int, v3: bool, enc: Option<Encoding>, rdims: Option<Seq<i32>>) -> bool {
        offset_at(s, p, v3) >= uir_head_len(v3) && p + offset_at(s, p, v3) <= s.len()
    }

    fn decode_be(d: &mut Decoder) -> (r: Result<Self, DecodeError>)
        ensures
            old(d).fits(Self::fixed_len(old(d).v3())) && Self::fixed_error(
                old(d).data@,
                old(d).pos as int,
                old(d).v3(),
            ) is None && offset_at(old(d).data@, old(d).pos as int, old(d).v3()) < uir_head_len(old(d).v3()) ==> r == Err::<
                Self,
                DecodeError,
            >(DecodeError::IntegerOutOfRange(Field::RecordSize)),
    {
        let ghost d0 = *d;
        let v3 = d.version.major >= 3;
        let record_size = d.read_offset()?;
        let record_type = d.read_i32_be()?;
        if record_type != -1 {
            return Err(DecodeError::BadRecordType { record: RecordKind::Uir, expected: -1, actual: record_type });
        }
        let next = d.read_offset()?;
        let prev = d.read_offset()?;
        let used: i64 = if v3 { 28 } else { 16 };
        let remainder = read_remainder(d, record_size, used)?;
        Ok(UnusedInternalRecord {
            record_size,
            record_type,
            uir_next: if next != 0 { Some(next) } else { None },
            uir_prev: if prev != 0 { Some(prev) } else { None },
            remainder,
        })
    }
}

impl RecordList for UnusedInternalRecord {
    open spec fn spec_next(&self) -> Option<i64> {
        self.uir_next
    }

    proof fn lemma_next(s: Seq<u8>, p: int, v3: bool, enc: Option<Encoding>, x: Self) {
    }

    fn next_record(&self) -> (r: Option<i64>) {
        self.uir_next
    }
}

/// Stores the contents of an Unsociable Unused Internal Record: an isolated
/// unused record that is not on the list of unused records.
#[derive(Debug)]
pub struct UnsociableUnusedInternalRecord {
    /// The size of this record in bytes.
    pub record_size: i64,
    /// The type of record as defined in the CDF specification as an integer.
    pub record_type: i32,
    /// The rest of the record.
    pub remainder: Vec<u8>,
}

impl Decodable for UnsociableUnusedInternalRecord {
    open spec fn fixed_len(v3: bool) -> int {
        offset_width(v3) + 4
    }

    open spec fn fixed_error(s: Seq<u8>, p: int, v3: bool) -> Option<DecodeError> {
        tag_error(s, p, v3, RecordKind::Uir, -1i32)
    }

    open spec fn decoded(s: Seq<u8>, p: int, v3: bool, enc: Option<Encoding>, r: Self) -> bool {
        let h = offset_width(v3) + 4;
        &&& r.record_size == offset_at(s, p, v3)
        &&& r.record_type == -1
        &&& r.record_size >= h
        &&& r.remainder@ == s.subrange(p + h, p + r.record_size)
    }

    open spec fn complete(s: Seq<u8>, p: int, v3: bool, enc: Option<Encoding>, rdims: Option<Seq<i32>>) -> bool {
        offset_at(s, p, v3) >= offset_width(v3) + 4 && p + offset_at(s, p, v3) <= s.len()
    }

    fn decode_be(d: &mut Decoder) -> (r: Result<Self, DecodeError>)
        ensures
            old(d).fits(Self::fixed_len(old(d).v3())) && Self::fixed_error(
                old(d).data@,
                old(d).pos as int,
                old(d).v3(),
            ) is None && offset_at(old(d).data@, old(d).pos as int, old(d).v3()) < old(d).ow() + 4 ==> r == Err::<
                Self,
                DecodeError,
            >(DecodeError::IntegerOutOfRange(Field::RecordSize)),
    {
        let v3 = d.version.major >= 3;
        let record_size = d.read_offset()?;
        let record_type = d.read_i32_be()?;
        if record_type != -1 {
            return Err(DecodeError::BadRecordType { record: RecordKind::Uir, expected: -1, actual: record_type });
        }
        let used: i64 = if v3 { 12 } else { 8 };
        let remainder = read_remainder(d, record_size, used)?;
        Ok(UnsociableUnusedInternalRecord { record_size, record_type, remainder })
    }
}

} // verus!
