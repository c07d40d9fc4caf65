use vstd::prelude::*;

use crate::bytes::i4_at;
use crate::decode::Decoder;
use crate::error::{DecodeError, RecordKind};
use crate::record::agredr::{
    decode_entry, entry_at, entry_complete, entry_error, entry_head_len,
    AttributeGREntryDescriptorRecord,
};
use crate::record::collection::{Decodable, RecordList};
use crate::repr::Encoding;
use crate::types::{payload_error, CdfType};

verus! {

/// Stores an attribute entry of a zVariable.
#[derive(Debug)]
pub struct AttributeZEntryDescriptorRecord {
    /// The size of this record in bytes.
    pub record_size: i64,
    /// The type of record as defined in the CDF specification as an integer.
    pub record_type: i32,
    /// The file offset of the next AZEDR.
    pub azedr_next: Option<i64>,
    /// The number of the attribute this entry belongs to.
    pub attr_num: i32,
    /// The data type tag of the values.
    pub data_type: i32,
    /// The number of this entry.
    pub num: i32,
    /// The number of values stored.
    pub num_elements: i32,
    /// The number of strings stored.
    pub num_strings: i32,
    /// Reserved for future use.
    pub rfu_b: i32,
    /// Reserved for future use.
    pub rfu_c: i32,
    /// Reserved for future use.
    pub rfu_d: i32,
    /// Reserved for future use.
    pub rfu_e: i32,
    /// The values of this entry; Char values come as one string.
    pub value: Vec<CdfType>,
}

impl AttributeZEntryDescriptorRecord {
    /// The same entry, seen with the fields of a global entry.
    pub open spec fn as_entry(self) -> AttributeGREntryDescriptorRecord {
        AttributeGREntryDescriptorRecord {
            record_size: self.record_size,
            record_type: self.record_type,
            agredr_next: self.azedr_next,
            attr_num: self.attr_num,
            data_type: self.data_type,
            num: self.num,
            num_elements: self.num_elements,
            num_strings: self.num_strings,
            rfu_b: self.rfu_b,
            rfu_c: self.rfu_c,
            rfu_d: self.rfu_d,
            rfu_e: self.rfu_e,
            value: self.value,
        }
    }
}

impl Decodable for AttributeZEntryDescriptorRecord {
    open spec fn fixed_len(v3: bool) -> int {
        entry_head_len(v3)
    }

    open spec fn fixed_error(s: Seq<u8>, p: int, v3: bool) -> Option<DecodeError> {
        entry_error(s, p, v3, RecordKind::Azedr, 9i32)
    }

    open spec fn decoded(s: Seq<u8>, p: int, v3: bool, enc: Option<Encoding>, r: Self) -> bool {
        entry_at(s, p, v3, enc, 9i32, r.as_entry())
    }

    open spec fn complete(s: Seq<u8>, p: int, v3: bool, enc: Option<Encoding>, rdims: Option<Seq<i32>>) -> bool {
        entry_complete(s, p, v3, enc)
    }

    fn decode_be(d: &mut Decoder) -> (r: Result<Self, DecodeError>)
        ensures
            old(d).fits(entry_head_len(old(d).v3())) && entry_error(
                old(d).data@,
                old(d).pos as int,
                old(d).v3(),
                RecordKind::Azedr,
                9i32,
            ) is None && payload_error(
                old(d).data@,
                old(d).pos + entry_head_len(old(d).v3()),
                old(d).context.encoding,
                i4_at(old(d).data@, old(d).pos + 2 * old(d).ow() + 8) as i32,
                i4_at(old(d).data@, old(d).pos + 2 * old(d).ow() + 16),
            ) is Some ==> r == Err::<Self, DecodeError>(
                payload_error(
                    old(d).data@,
                    old(d).pos + entry_head_len(old(d).v3()),
                    old(d).context.encoding,
                    i4_at(old(d).data@, old(d).pos + 2 * old(d).ow() + 8) as i32,
                    i4_at(old(d).data@, old(d).pos + 2 * old(d).ow() + 16),
                ).unwrap(),
            ),
    {
        let e = decode_entry(d, RecordKind::Azedr, 9)?;
        Ok(AttributeZEntryDescriptorRecord {
            record_size: e.record_size,
            record_type: e.record_type,
            azedr_next: e.agredr_next,
            attr_num: e.attr_num,
            data_type: e.data_type,
            num: e.num,
            num_elements: e.num_elements,
            num_strings: e.num_strings,
            rfu_b: e.rfu_b,
            rfu_c: e.rfu_c,
            rfu_d: e.rfu_d,
            rfu_e: e.rfu_e,
            value: e.value,
        })
    }
}

impl RecordList for AttributeZEntryDescriptorRecord {
    open spec fn spec_next(&self) -> Option<i64> {
        self.azedr_next
    }

    proof fn lemma_next(s: Seq<u8>, p: int, v3: bool, enc: Option<Encoding>, x: Self) {
    }

    fn next_record(&self) -> (r: Option<i64>) {
        self.azedr_next
    }
}

} // verus!
