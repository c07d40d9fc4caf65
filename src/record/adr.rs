use vstd::prelude::*;

use crate::bytes::i4_at;
use crate::decode::{offset_at, offset_width, Decoder};
use crate::error::{DecodeError, Field, RecordKind};
use crate::record::agredr::AttributeGREntryDescriptorRecord;
use crate::record::azedr::AttributeZEntryDescriptorRecord;
use crate::record::collection::{
    chain_from, chain_len, chain_ok, first_error, get_record_vec, nonzero, read_record_header, read_reserved,
    rfu_error, tag_error, Decodable, RecordList,
};
use crate::repr::Encoding;
use crate::types::{decode_string_from_numbytes, text_of};

verus! {

/// Stores an attribute and its entries.
#[derive(Debug)]
pub struct AttributeDescriptorRecord {
    /// The size in bytes of this record.
    pub record_size: i64,
    /// The type of record as defined in the CDF specification as an integer.
    pub record_type: i32,
    /// The file offset of the next ADR.
    pub adr_next: Option<i64>,
    /// The file offset of the first AGREDR of this attribute.
    pub agredr_head: Option<i64>,
    /// Scope.
    pub scope: i32,
    /// The number of this attribute.
    pub num: i32,
    /// The number of global or rVariable entries.
    pub num_gr_entries: i32,
    /// The largest global or rVariable entry number.
    pub max_gr_entry: i32,
    /// Reserved for future use.
    pub rfu_a: i32,
    /// The file offset of the first AZEDR of this attribute.
    pub azedr_head: Option<i64>,
    /// The number of zVariable entries.
    pub num_z_entries: i32,
    /// The largest zVariable entry number.
    pub max_z_entry: i32,
    /// Reserved for future use.
    pub rfu_e: i32,
    /// Name of this attribute.
    pub name: String,
    /// The global and rVariable entries.
    pub agredr_vec: Vec<AttributeGREntryDescriptorRecord>,
    /// The zVariable entries.
    pub azedr_vec: Vec<AttributeZEntryDescriptorRecord>,
}

/// Width of an attribute's or a variable's name: 256 bytes from version 3 on, else 64.
pub open spec fn name_width(v3: bool) -> int {
    if v3 {
        256
    } else {
        64
    }
}

/// The name field at `p` is there and its text is UTF-8.
pub open spec fn name_ok(s: Seq<u8>, p: int, v3: bool) -> bool {
    p + name_width(v3) <= s.len() && text_of(s.subrange(p, p + name_width(v3))) is Some
}

/// `v` is the list of records that `head` starts, or empty where there is none.
pub open spec fn list_at<T: Decodable + RecordList>(
    s: Seq<u8>,
    v3: bool,
    enc: Option<Encoding>,
    head: Option<i64>,
    v: Seq<T>,
) -> bool {
    match head {
        Some(h) => chain_from(s, v3, enc, h, v),
        None => v.len() == 0,
    }
}

/// The list that `head` starts is well formed and holds `count` records;
/// with no head, `count` is 0.
pub open spec fn list_ok<T: RecordList>(
    s: Seq<u8>,
    v3: bool,
    enc: Option<Encoding>,
    rdims: Option<Seq<i32>>,
    head: Option<i64>,
    count: int,
) -> bool {
    match head {
        Some(h) => chain_ok::<T>(s, v3, enc, rdims, h, s.len()) && chain_len(s, v3, h, s.len()) == count,
        None => count == 0,
    }
}

/// Decodes the list of records that `head` starts; none where there is no head.
pub fn decode_list<T: Decodable + RecordList>(d: &mut Decoder, head: Option<i64>) -> (r: Result<Vec<T>, DecodeError>)
    ensures
        final(d).same_input(*old(d)),
        final(d).context.encoding == old(d).context.encoding,
        final(d).context.size_r_dims == old(d).context.size_r_dims,
        head is None ==> (r matches Ok(v) && v@.len() == 0) && *final(d) == *old(d),
        r matches Ok(v) ==> list_at(old(d).data@, old(d).v3(), old(d).context.encoding, head, v@),
        head is Some && chain_ok::<T>(old(d).data@, old(d).v3(), old(d).context.encoding, old(d).context.r_dims(), head.unwrap(), old(d).data@.len())
            ==> (r matches Ok(v) && v@.len() == chain_len(old(d).data@, old(d).v3(), head.unwrap(), old(d).data@.len())),
{
    match head {
        Some(h) => get_record_vec::<T>(d, h),
        None => Ok(Vec::new()),
    }
}

impl Decodable for AttributeDescriptorRecord {
    open spec fn fixed_len(v3: bool) -> int {
        4 * offset_width(v3) + 36
    }

    open spec fn fixed_error(s: Seq<u8>, p: int, v3: bool) -> Option<DecodeError> {
        let w = offset_width(v3);
        first_error(
            tag_error(s, p, v3, RecordKind::Adr, 4i32),
            first_error(
                rfu_error(s, p + 3 * w + 20, Field::RfuA, 0i32),
                rfu_error(s, p + 4 * w + 32, Field::RfuE, -1i32),
            ),
        )
    }

    open spec fn complete(s: Seq<u8>, p: int, v3: bool, enc: Option<Encoding>, rdims: Option<Seq<i32>>) -> bool {
        let w = offset_width(v3);
        let q = p + 3 * w + 4;
        &&& name_ok(s, p + 4 * w + 36, v3)
        &&& list_ok::<AttributeGREntryDescriptorRecord>(
            s,
            v3,
            enc,
            rdims,
            nonzero(offset_at(s, p + 2 * w + 4, v3)),
            i4_at(s, q + 8),
        )
        &&& list_ok::<AttributeZEntryDescriptorRecord>(
            s,
            v3,
            enc,
            rdims,
            nonzero(offset_at(s, q + 20, v3)),
            i4_at(s, q + 20 + w),
        )
    }

    open spec fn decoded(s: Seq<u8>, p: int, v3: bool, enc: Option<Encoding>, r: Self) -> bool {
        &&& adr_fields(s, p, v3, r)
        &&& list_at(s, v3, enc, r.agredr_head, r.agredr_vec@)
        &&& list_at(s, v3, enc, r.azedr_head, r.azedr_vec@)
        &&& r.agredr_vec@.len() == r.num_gr_entries
        &&& r.azedr_vec@.len() == r.num_z_entries
    }

    fn decode_be(d: &mut Decoder) -> (r: Result<Self, DecodeError>) {
        let mut adr = Self::decode_fields(d)?;
        let agredr_vec = decode_list::<AttributeGREntryDescriptorRecord>(d, adr.agredr_head)?;
        let azedr_vec = decode_list::<AttributeZEntryDescriptorRecord>(d, adr.azedr_head)?;
        if adr.num_gr_entries < 0 || agredr_vec.len() as u64 != adr.num_gr_entries as u64 {
            return Err(DecodeError::CountMismatch {
                field: Field::NumGrEntries,
                declared: adr.num_gr_entries,
                found: agredr_vec.len() as u64,
            });
        }
        if adr.num_z_entries < 0 || azedr_vec.len() as u64 != adr.num_z_entries as u64 {
            return Err(DecodeError::CountMismatch {
                field: Field::NumZEntries,
                declared: adr.num_z_entries,
                found: azedr_vec.len() as u64,
            });
        }
        adr.agredr_vec = agredr_vec;
        adr.azedr_vec = azedr_vec;
        Ok(adr)
    }
}

/// The fields of `r` before its entries are those of the ADR at `p`.
pub open spec fn adr_fields(s: Seq<u8>, p: int, v3: bool, r: AttributeDescriptorRecord) -> bool {
    let w = offset_width(v3);
    let q = p + 3 * w + 4;
    let q2 = q + 20 + w;
    &&& r.record_size == offset_at(s, p, v3)
    &&& r.record_type == 4
    &&& r.adr_next == nonzero(offset_at(s, p + w + 4, v3))
    &&& r.agredr_head == nonzero(offset_at(s, p + 2 * w + 4, v3))
    &&& r.scope == i4_at(s, q)
    &&& r.num == i4_at(s, q + 4)
    &&& r.num_gr_entries == i4_at(s, q + 8)
    &&& r.max_gr_entry == i4_at(s, q + 12)
    &&& r.rfu_a == 0
    &&& r.azedr_head == nonzero(offset_at(s, q + 20, v3))
    &&& r.num_z_entries == i4_at(s, q2)
    &&& r.max_z_entry == i4_at(s, q2 + 4)
    &&& r.rfu_e == -1
    &&& p + 4 * w + 36 + name_width(v3) <= s.len()
    &&& text_of(s.subrange(p + 4 * w + 36, p + 4 * w + 36 + name_width(v3))) == Some(r.name@)
}

impl AttributeDescriptorRecord {
    /// Decodes the fields of the ADR at the cursor, leaving its entries empty.
    fn decode_fields(d: &mut Decoder) -> (r: Result<Self, DecodeError>)
        ensures
            final(d).same_input(*old(d)),
            final(d).context == old(d).context,
            r matches Ok(x) ==> old(d).fits(Self::fixed_len(old(d).v3())) && Self::fixed_error(
                old(d).data@,
                old(d).pos as int,
                old(d).v3(),
            ) is None && adr_fields(old(d).data@, old(d).pos as int, old(d).v3(), x),
            old(d).fits(Self::fixed_len(old(d).v3())) && Self::fixed_error(
                old(d).data@,
                old(d).pos as int,
                old(d).v3(),
            ) is Some ==> r == Err::<Self, DecodeError>(
                Self::fixed_error(old(d).data@, old(d).pos as int, old(d).v3()).unwrap(),
            ),
            !old(d).fits(Self::fixed_len(old(d).v3())) ==> r is Err,
            old(d).fits(Self::fixed_len(old(d).v3())) && Self::fixed_error(
                old(d).data@,
                old(d).pos as int,
                old(d).v3(),
            ) is None && name_ok(old(d).data@, old(d).pos + 4 * old(d).ow() + 36, old(d).v3()) ==> r is Ok,
    {
        let v3 = d.version.major >= 3;
        let record_size = read_record_header(d, RecordKind::Adr, 4)?;
        let next = d.read_offset()?;
        let agredr = d.read_offset()?;
        let scope = d.read_i32_be()?;
        let num = d.read_i32_be()?;
        let num_gr_entries = d.read_i32_be()?;
        let max_gr_entry = d.read_i32_be()?;
        let rfu_a = read_reserved(d, Field::RfuA, 0)?;
        let azedr = d.read_offset()?;
        let num_z_entries = d.read_i32_be()?;
        let max_z_entry = d.read_i32_be()?;
        let rfu_e = read_reserved(d, Field::RfuE, -1)?;
        let width: usize = if v3 { 256 } else { 64 };
        let name = decode_string_from_numbytes(d, width, Field::Name)?;
        let agredr_head = if agredr != 0 { Some(agredr) } else { None };
        let azedr_head = if azedr != 0 { Some(azedr) } else { None };
        Ok(AttributeDescriptorRecord {
            record_size,
            record_type: 4,
            adr_next: if next != 0 { Some(next) } else { None },
            agredr_head,
            scope,
            num,
            num_gr_entries,
            max_gr_entry,
            rfu_a,
            azedr_head,
            num_z_entries,
            max_z_entry,
            rfu_e,
            name,
            agredr_vec: Vec::new(),
            azedr_vec: Vec::new(),
        })
    }
}

impl RecordList for AttributeDescriptorRecord {
    open spec fn spec_next(&self) -> Option<i64> {
        self.adr_next
    }

    proof fn lemma_next(s: Seq<u8>, p: int, v3: bool, enc: Option<Encoding>, x: Self) {
    }

    fn next_record(&self) -> (r: Option<i64>) {
        self.adr_next
    }
}

/// An attribute holds as many entries of each kind as it declares: the
/// global and rVariable entries, and the zVariable entries.
pub proof fn lemma_chain_lengths(s: Seq<u8>, p: int, v3: bool, enc: Option<Encoding>, adr: AttributeDescriptorRecord)
    requires
        AttributeDescriptorRecord::decoded(s, p, v3, enc, adr),
    ensures
        adr.agredr_vec@.len() == adr.num_gr_entries,
        adr.azedr_vec@.len() == adr.num_z_entries,
{
}

} // verus!
