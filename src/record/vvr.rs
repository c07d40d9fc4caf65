use vstd::prelude::*;

use crate::decode::{offset_at, offset_width, Decoder};
use crate::error::{ContextField, DecodeError, RecordKind};
use crate::record::collection::{is_little, read_record_header, tag_error, Decodable};
use crate::repr::Encoding;
use crate::record::agredr::payload_ok;
use crate::types::{decode_payload, has_byte_order, payload_error, type_size, vec_matches, CdfType};

verus! {

/// One record of a variable: `data_len` values of type `data_type`. Both
/// come from the descriptor of the variable, not from the file at this place.
#[derive(Debug)]
pub struct VariableRecord {
    /// Data type tag of the values.
    pub data_type: i32,
    /// Number of values of that type in this record.
    pub data_len: i32,
    /// The values, in the file's byte order.
    pub data: Vec<CdfType>,
}

/// Bytes taken by one record of `n` values of type `t`.
pub open spec fn record_bytes(t: i32, n: i32) -> int {
    n * type_size(t)
}

/// `r` holds the record of values found at `p`.
pub open spec fn record_at(s: Seq<u8>, p: int, enc: Option<Encoding>, r: VariableRecord) -> bool {
    &&& r.data_len >= 0
    &&& has_byte_order(enc)
    &&& p + record_bytes(r.data_type, r.data_len) <= s.len()
    &&& vec_matches(s, p, r.data_type, r.data_len as nat, is_little(enc), r.data@)
}

/// The VVR at `p` is whole and well formed, holding `nrec` records of `n`
/// values of type `t` each.
pub open spec fn vvr_ok(s: Seq<u8>, p: int, v3: bool, enc: Option<Encoding>, t: Option<i32>, n: Option<i32>, nrec: int) -> bool {
    let h = p + offset_width(v3) + 4;
    &&& h <= s.len()
    &&& tag_error(s, p, v3, RecordKind::Vvr, 7i32) is None
    &&& nrec == 0 || (t is Some && n is Some && forall|j: int|
        0 <= j < nrec ==> #[trigger] payload_ok(
            s,
            h + j * record_bytes(t.unwrap(), n.unwrap()),
            enc,
            t.unwrap(),
            n.unwrap() as int,
        ))
}

impl VariableRecord {
    /// Reads one record of the variable that the context describes.
    pub fn decode_be(d: &mut Decoder) -> (r: Result<VariableRecord, DecodeError>)
        ensures
            final(d).same_input(*old(d)),
            final(d).context == old(d).context,
            r matches Ok(x) ==> old(d).context.var_data_type == Some(x.data_type)
                && old(d).context.var_data_len == Some(x.data_len)
                && record_at(old(d).data@, old(d).pos as int, old(d).context.encoding, x)
                && final(d).pos == old(d).pos + record_bytes(x.data_type, x.data_len),
            old(d).context.var_data_type is None ==> r is Err,
            old(d).context.var_data_type is None ==> r == Err::<VariableRecord, DecodeError>(
                DecodeError::MissingContext(ContextField::VarDataType),
            ),
            old(d).context.var_data_type is Some && old(d).context.var_data_len is None ==> r == Err::<
                VariableRecord,
                DecodeError,
            >(DecodeError::MissingContext(ContextField::VarDataLen)),
            old(d).context.var_data_type is Some && old(d).context.var_data_len is Some && payload_error(
                old(d).data@,
                old(d).pos as int,
                old(d).context.encoding,
                old(d).context.var_data_type.unwrap(),
                old(d).context.var_data_len.unwrap() as int,
            ) is Some ==> r == Err::<VariableRecord, DecodeError>(
                payload_error(
                    old(d).data@,
                    old(d).pos as int,
                    old(d).context.encoding,
                    old(d).context.var_data_type.unwrap(),
                    old(d).context.var_data_len.unwrap() as int,
                ).unwrap(),
            ),
            old(d).context.var_data_type matches Some(t) && old(d).context.var_data_len matches Some(n)
                && payload_ok(old(d).data@, old(d).pos as int, old(d).context.encoding, t, n as int) ==> r is Ok,
    {
        let data_type = d.get_var_data_type()?;
        let data_len = d.get_var_data_len()?;
        let data = decode_payload(d, data_type, data_len)?;
        Ok(VariableRecord { data_type, data_len, data })
    }
}

/// Stores the contents of a Variable Values Record: a block of records of
/// one variable.
#[derive(Debug)]
pub struct VariableValuesRecord {
    /// The size of this record in bytes.
    pub record_size: i64,
    /// The type of record as defined in the CDF specification as an integer.
    pub record_type: i32,
    /// The records of the variable stored in this block.
    pub records: Vec<VariableRecord>,
}

/// The records `v` follow one another from `p`, all of type `t` and length `n`.
pub open spec fn records_from(s: Seq<u8>, p: int, enc: Option<Encoding>, t: i32, n: i32, v: Seq<VariableRecord>) -> bool {
    forall|i: int|
        0 <= i < v.len() ==> (#[trigger] v[i]).data_type == t && v[i].data_len == n && record_at(
            s,
            p + i * record_bytes(t, n),
            enc,
            v[i],
        )
}

impl VariableValuesRecord {
    /// Reads a VVR holding as many records as the context says, each of the
    /// type and length that the context says.
    pub fn decode_records(d: &mut Decoder) -> (r: Result<VariableValuesRecord, DecodeError>)
        ensures
            final(d).same_input(*old(d)),
            final(d).context == old(d).context,
            r matches Ok(x) ==> Self::decoded(old(d).data@, old(d).pos as int, old(d).v3(), old(d).context.encoding, x)
                && (old(d).context.num_records matches Some(k) && x.records@.len() == k)
                && forall|j: int|
                0 <= j < x.records@.len() ==> old(d).context.var_data_type == Some(
                    #[trigger] x.records@[j].data_type,
                ) && old(d).context.var_data_len == Some(x.records@[j].data_len),
            old(d).fits(old(d).ow() + 4) && tag_error(old(d).data@, old(d).pos as int, old(d).v3(), RecordKind::Vvr, 7i32) is Some
                ==> r == Err::<VariableValuesRecord, DecodeError>(
                tag_error(old(d).data@, old(d).pos as int, old(d).v3(), RecordKind::Vvr, 7i32).unwrap(),
            ),
            !old(d).fits(old(d).ow() + 4) ==> r is Err,
            old(d).fits(old(d).ow() + 4) && tag_error(old(d).data@, old(d).pos as int, old(d).v3(), RecordKind::Vvr, 7i32) is None
                && old(d).context.num_records is None ==> r == Err::<VariableValuesRecord, DecodeError>(
                DecodeError::MissingContext(ContextField::NumRecords),
            ),
            old(d).context.num_records is Some && vvr_ok(
                old(d).data@,
                old(d).pos as int,
                old(d).v3(),
                old(d).context.encoding,
                old(d).context.var_data_type,
                old(d).context.var_data_len,
                old(d).context.num_records.unwrap() as int,
            ) ==> r is Ok,
    {
        let ghost d0 = *d;
        let record_size = read_record_header(d, RecordKind::Vvr, 7)?;
        let num_records = d.get_num_records()?;
        let ghost start = d.pos as int;
        let mut records: Vec<VariableRecord> = Vec::new();
        let mut i: u64 = 0;
        while i < num_records
            invariant
                d0 == *old(d),
                d.same_input(d0),
                d.context == d0.context,
                start == d0.pos + d0.ow() + 4,
                d0.fits(d0.ow() + 4),
                tag_error(d0.data@, d0.pos as int, d0.v3(), RecordKind::Vvr, 7i32) is None,
                record_size == offset_at(d0.data@, d0.pos as int, d0.v3()),
                records@.len() == i,
                i <= num_records,
                d0.context.num_records == Some(num_records),
                i > 0 ==> d.pos == start + i * record_bytes(records@[0].data_type, records@[0].data_len),
                i == 0 ==> d.pos == start,
                i > 0 ==> d0.context.var_data_type == Some(records@[0].data_type)
                    && d0.context.var_data_len == Some(records@[0].data_len),
                i > 0 ==> records_from(d0.data@, start, d0.context.encoding, records@[0].data_type, records@[0].data_len, records@),
                vvr_ok(d0.data@, d0.pos as int, d0.v3(), d0.context.encoding, d0.context.var_data_type, d0.context.var_data_len, num_records as int)
                    && i < num_records ==> d0.context.var_data_type is Some && d0.context.var_data_len is Some
                    && d.pos == start + i * record_bytes(d0.context.var_data_type.unwrap(), d0.context.var_data_len.unwrap()),
            decreases num_records - i,
        {
            proof {
                if vvr_ok(d0.data@, d0.pos as int, d0.v3(), d0.context.encoding, d0.context.var_data_type, d0.context.var_data_len, num_records as int) {
                    let t = d0.context.var_data_type.unwrap();
                    let n = d0.context.var_data_len.unwrap();
                    assert(payload_ok(d0.data@, start + i * record_bytes(t, n), d0.context.encoding, t, n as int));
                }
            }
            let rec = VariableRecord::decode_be(d)?;
            records.push(rec);
            proof {
                let t = records@[0].data_type;
                let n = records@[0].data_len;
                assert(d.pos == start + (i + 1) * record_bytes(t, n)) by (nonlinear_arith)
                    requires
                        d.pos == start + i * record_bytes(t, n) + record_bytes(t, n),
                ;
            }
            i = i + 1;
        }
        Ok(VariableValuesRecord { record_size, record_type: 7, records })
    }
}

impl Decodable for VariableValuesRecord {
    open spec fn fixed_len(v3: bool) -> int {
        offset_width(v3) + 4
    }

    open spec fn fixed_error(s: Seq<u8>, p: int, v3: bool) -> Option<DecodeError> {
        tag_error(s, p, v3, RecordKind::Vvr, 7i32)
    }

    /// How many records a VVR holds, and of what, comes from the context
    /// that its index entry and variable descriptor set, which this does not
    /// see; `decode_be` and `decode_records` state when decoding succeeds.
    open spec fn complete(s: Seq<u8>, p: int, v3: bool, enc: Option<Encoding>, rdims: Option<Seq<i32>>) -> bool {
        false
    }

    open spec fn decoded(s: Seq<u8>, p: int, v3: bool, enc: Option<Encoding>, r: Self) -> bool {
        &&& r.record_size == offset_at(s, p, v3)
        &&& r.record_type == 7
        &&& r.records@.len() > 0 ==> records_from(
            s,
            p + offset_width(v3) + 4,
            enc,
            r.records@[0].data_type,
            r.records@[0].data_len,
            r.records@,
        )
    }

    fn decode_be(d: &mut Decoder) -> (r: Result<Self, DecodeError>)
        ensures
            old(d).fits(old(d).ow() + 4) && tag_error(old(d).data@, old(d).pos as int, old(d).v3(), RecordKind::Vvr, 7i32) is Some
                ==> r == Err::<Self, DecodeError>(
                tag_error(old(d).data@, old(d).pos as int, old(d).v3(), RecordKind::Vvr, 7i32).unwrap(),
            ),
            old(d).fits(old(d).ow() + 4) && tag_error(old(d).data@, old(d).pos as int, old(d).v3(), RecordKind::Vvr, 7i32) is None
                && old(d).context.num_records is None ==> r == Err::<Self, DecodeError>(
                DecodeError::MissingContext(ContextField::NumRecords),
            ),
            old(d).context.num_records is Some && vvr_ok(
                old(d).data@,
                old(d).pos as int,
                old(d).v3(),
                old(d).context.encoding,
                old(d).context.var_data_type,
                old(d).context.var_data_len,
                old(d).context.num_records.unwrap() as int,
            ) ==> r is Ok,
            r matches Ok(x) ==> (old(d).context.num_records matches Some(k) && x.records@.len() == k)
                && forall|j: int|
                0 <= j < x.records@.len() ==> old(d).context.var_data_type == Some(
                    #[trigger] x.records@[j].data_type,
                ) && old(d).context.var_data_len == Some(x.records@[j].data_len),
    {
        Self::decode_records(d)
    }
}

} // verus!
