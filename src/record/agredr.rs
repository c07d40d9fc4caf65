use vstd::prelude::*;

use crate::bytes::i4_at;
use crate::decode::{offset_at, offset_width, Decoder};
use crate::error::{DecodeError, Field, RecordKind};
use crate::record::collection::{
    first_error, is_little, nonzero, read_record_header, read_reserved, rfu_error, tag_error,
    Decodable, RecordList,
};
use crate::repr::Encoding;
use crate::types::{decode_payload, has_byte_order, payload_error, is_char_type, known_type, text_of, type_size, vec_matches, CdfType};

verus! {

/// Stores an attribute entry of a global attribute or of an rVariable.
#[derive(Debug)]
pub struct AttributeGREntryDescriptorRecord {
    /// The size of this record in bytes.
    pub record_size: i64,
    /// The type of record as defined in the CDF specification as an integer.
    pub record_type: i32,
    /// The file offset of the next AGREDR.
    pub agredr_next: Option<i64>,
    /// The number of the attribute this entry belongs to.
    pub attr_num: i32,
    /// The data type tag of the values.
    pub data_type: i32,
    /// The number of this entry.
    pub num: i32,
    /// The number of values stored.
    pub num_elements: i32,
    /// The number of strings stored.
    pub num_strings: i32,
    /// Reserved for future use.
    pub rfu_b: i32,
    /// Reserved for future use.
    pub rfu_c: i32,
    /// Reserved for future use.
    pub rfu_d: i32,
    /// Reserved for future use.
    pub rfu_e: i32,
    /// The values of this entry; Char values come as one string.
    pub value: Vec<CdfType>,
}

/// Bytes of an attribute entry before its values.
pub open spec fn entry_head_len(v3: bool) -> int {
    2 * offset_width(v3) + 40
}

/// The error that the leading part of an attribute entry at `p` calls for.
pub open spec fn entry_error(s: Seq<u8>, p: int, v3: bool, kind: RecordKind, tag: i32) -> Option<DecodeError> {
    let q = p + 2 * offset_width(v3) + 4;
    first_error(
        tag_error(s, p, v3, kind, tag),
        first_error(
            rfu_error(s, q + 20, Field::RfuB, 0i32),
            first_error(
                rfu_error(s, q + 24, Field::RfuC, 0i32),
                first_error(rfu_error(s, q + 28, Field::RfuD, -1i32), rfu_error(s, q + 32, Field::RfuE, -1i32)),
            ),
        ),
    )
}

/// `r` holds the fields of the attribute entry at `p`, its type tag being `tag`.
pub open spec fn entry_at(s: Seq<u8>, p: int, v3: bool, enc: Option<Encoding>, tag: i32, r: AttributeGREntryDescriptorRecord) -> bool {
    let w = offset_width(v3);
    let q = p + 2 * w + 4;
    &&& r.record_size == offset_at(s, p, v3)
    &&& r.record_type == tag
    &&& r.agredr_next == nonzero(offset_at(s, p + w + 4, v3))
    &&& r.attr_num == i4_at(s, q)
    &&& r.data_type == i4_at(s, q + 4)
    &&& r.num == i4_at(s, q + 8)
    &&& r.num_elements == i4_at(s, q + 12)
    &&& r.num_strings == i4_at(s, q + 16)
    &&& r.rfu_b == 0 && r.rfu_c == 0 && r.rfu_d == -1 && r.rfu_e == -1
    &&& r.num_elements >= 0
    &&& has_byte_order(enc)
    &&& known_type(r.data_type)
    &&& vec_matches(s, q + 36, r.data_type, r.num_elements as nat, is_little(enc), r.value@)
}

/// The values at `p` can be read: the encoding gives a byte order, the
/// type is known, the count is not negative, the bytes are there, and
/// Char text is UTF-8.
pub open spec fn payload_ok(s: Seq<u8>, p: int, enc: Option<Encoding>, t: i32, n: int) -> bool {
    &&& enc matches Some(e) && e.spec_endian() is Some
    &&& known_type(t)
    &&& n >= 0
    &&& p + n * type_size(t) <= s.len()
    &&& is_char_type(t) ==> text_of(s.subrange(p, p + n)) is Some
}

/// The values of the attribute entry at `p` can be read.
pub open spec fn entry_complete(s: Seq<u8>, p: int, v3: bool, enc: Option<Encoding>) -> bool {
    let q = p + 2 * offset_width(v3) + 4;
    payload_ok(s, q + 36, enc, i4_at(s, q + 4) as i32, i4_at(s, q + 12))
}

/// Decodes an attribute entry of either kind at the cursor.
pub fn decode_entry(d: &mut Decoder, kind: RecordKind, tag: i32) -> (r: Result<AttributeGREntryDescriptorRecord, DecodeError>)
    ensures
        final(d).same_input(*old(d)),
        final(d).context == old(d).context,
        r matches Ok(x) ==> old(d).fits(entry_head_len(old(d).v3())) && entry_error(
            old(d).data@,
            old(d).pos as int,
            old(d).v3(),
            kind,
            tag,
        ) is None && entry_at(old(d).data@, old(d).pos as int, old(d).v3(), old(d).context.encoding, tag, x),
        old(d).fits(entry_head_len(old(d).v3())) && entry_error(old(d).data@, old(d).pos as int, old(d).v3(), kind, tag) is Some
            ==> r == Err::<AttributeGREntryDescriptorRecord, DecodeError>(
            entry_error(old(d).data@, old(d).pos as int, old(d).v3(), kind, tag).unwrap(),
        ),
        !old(d).fits(entry_head_len(old(d).v3())) ==> r is Err,
        old(d).fits(entry_head_len(old(d).v3())) && entry_error(old(d).data@, old(d).pos as int, old(d).v3(), kind, tag) is None
            && entry_complete(old(d).data@, old(d).pos as int, old(d).v3(), old(d).context.encoding) ==> r is Ok,
        old(d).fits(entry_head_len(old(d).v3())) && entry_error(old(d).data@, old(d).pos as int, old(d).v3(), kind, tag) is None
            && payload_error(
            old(d).data@,
            old(d).pos + entry_head_len(old(d).v3()),
            old(d).context.encoding,
            i4_at(old(d).data@, old(d).pos + 2 * old(d).ow() + 8) as i32,
            i4_at(old(d).data@, old(d).pos + 2 * old(d).ow() + 16),
        ) is Some ==> r == Err::<AttributeGREntryDescriptorRecord, DecodeError>(
            payload_error(
                old(d).data@,
                old(d).pos + entry_head_len(old(d).v3()),
                old(d).context.encoding,
                i4_at(old(d).data@, old(d).pos + 2 * old(d).ow() + 8) as i32,
                i4_at(old(d).data@, old(d).pos + 2 * old(d).ow() + 16),
            ).unwrap(),
        ),
{
    let record_size = read_record_header(d, kind, tag)?;
    let next = d.read_offset()?;
    let attr_num = d.read_i32_be()?;
    let data_type = d.read_i32_be()?;
    let num = d.read_i32_be()?;
    let num_elements = d.read_i32_be()?;
    let num_strings = d.read_i32_be()?;
    let rfu_b = read_reserved(d, Field::RfuB, 0)?;
    let rfu_c = read_reserved(d, Field::RfuC, 0)?;
    let rfu_d = read_reserved(d, Field::RfuD, -1)?;
    let rfu_e = read_reserved(d, Field::RfuE, -1)?;
    let value = decode_payload(d, data_type, num_elements)?;
    Ok(AttributeGREntryDescriptorRecord {
        record_size,
        record_type: tag,
        agredr_next: if next != 0 { Some(next) } else { None },
        attr_num,
        data_type,
        num,
        num_elements,
        num_strings,
        rfu_b,
        rfu_c,
        rfu_d,
        rfu_e,
        value,
    })
}

impl Decodable for AttributeGREntryDescriptorRecord {
    open spec fn fixed_len(v3: bool) -> int {
        entry_head_len(v3)
    }

    open spec fn fixed_error(s: Seq<u8>, p: int, v3: bool) -> Option<DecodeError> {
        entry_error(s, p, v3, RecordKind::Agredr, 5i32)
    }

    open spec fn decoded(s: Seq<u8>, p: int, v3: bool, enc: Option<Encoding>, r: Self) -> bool {
        entry_at(s, p, v3, enc, 5i32, r)
    }

    open spec fn complete(s: Seq<u8>, p: int, v3: bool, enc: Option<Encoding>, rdims: Option<Seq<i32>>) -> bool {
        entry_complete(s, p, v3, enc)
    }

    fn decode_be(d: &mut Decoder) -> (r: Result<Self, DecodeError>)
        ensures
            old(d).fits(entry_head_len(old(d).v3())) && entry_error(
                old(d).data@,
                old(d).pos as int,
                old(d).v3(),
                RecordKind::Agredr,
                5i32,
            ) is None && payload_error(
                old(d).data@,
                old(d).pos + entry_head_len(old(d).v3()),
                old(d).context.encoding,
                i4_at(old(d).data@, old(d).pos + 2 * old(d).ow() + 8) as i32,
                i4_at(old(d).data@, old(d).pos + 2 * old(d).ow() + 16),
            ) is Some ==> r == Err::<Self, DecodeError>(
                payload_error(
                    old(d).data@,
                    old(d).pos + entry_head_len(old(d).v3()),
                    old(d).context.encoding,
                    i4_at(old(d).data@, old(d).pos + 2 * old(d).ow() + 8) as i32,
                    i4_at(old(d).data@, old(d).pos + 2 * old(d).ow() + 16),
                ).unwrap(),
            ),
    {
        decode_entry(d, RecordKind::Agredr, 5)
    }
}

impl RecordList for AttributeGREntryDescriptorRecord {
    open spec fn spec_next(&self) -> Option<i64> {
        self.agredr_next
    }

    proof fn lemma_next(s: Seq<u8>, p: int, v3: bool, enc: Option<Encoding>, x: Self) {
    }

    fn next_record(&self) -> (r: Option<i64>) {
        self.agredr_next
    }
}

} // verus!
