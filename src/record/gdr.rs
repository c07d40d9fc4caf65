use vstd::prelude::*;

use crate::bytes::i4_at;
use crate::decode::{offset_at, offset_width, Decoder};
use crate::error::{DecodeError, Field, RecordKind};
use crate::record::adr::{decode_list, list_at, AttributeDescriptorRecord};
use crate::record::collection::{
    chain_ok, first_error, nonzero, read_record_header, read_reserved, rfu_error, tag_error,
    RecordList,
};
use crate::record::rvdr::{copy_sizes, decode_sizes, RVariableDescriptorRecord};
use crate::record::uir::UnusedInternalRecord;
use crate::record::zvdr::ZVariableDescriptorRecord;
use crate::repr::{CdfVersion, Encoding};

verus! {

/// The Global Descriptor Record: the catalog of the file, at the offset
/// that the CDR gives.
#[derive(Debug)]
pub struct GlobalDescriptorRecord {
    pub record_size: i64,
    pub record_type: i32,
    /// Offset of the first rVariable descriptor.
    pub rvdr_head: Option<i64>,
    /// Offset of the first zVariable descriptor; none before version 2.2.
    pub zvdr_head: Option<i64>,
    /// Offset of the first attribute descriptor.
    pub adr_head: Option<i64>,
    /// End of the file; none before version 2.1.
    pub eof: Option<i64>,
    pub num_rvars: i32,
    pub num_attributes: i32,
    pub max_rvar: i32,
    /// Number of rVariable dimensions.
    pub dim_rvar: i32,
    pub num_zvars: i32,
    /// Offset of the first unused internal record; 0 for none.
    pub uir_head: i64,
    pub rfu_c: i32,
    pub date_last_leapsecond_update: i32,
    pub rfu_e: i32,
    /// Sizes of the rVariable dimensions.
    pub sizes_rvar: Vec<i32>,
    pub adr_vec: Vec<AttributeDescriptorRecord>,
    pub rvdr_vec: Vec<RVariableDescriptorRecord>,
    pub zvdr_vec: Vec<ZVariableDescriptorRecord>,
    pub uir_vec: Vec<UnusedInternalRecord>,
}

/// Bytes of a GDR before its dimension sizes.
pub open spec fn gdr_head_len(v3: bool) -> int {
    6 * offset_width(v3) + 36
}

/// The error that the leading part of the GDR at `p` calls for.
pub open spec fn gdr_error(s: Seq<u8>, p: int, v3: bool) -> Option<DecodeError> {
    let q2 = p + 6 * offset_width(v3) + 24;
    first_error(
        tag_error(s, p, v3, RecordKind::Gdr, 2i32),
        first_error(rfu_error(s, q2, Field::RfuC, 0i32), rfu_error(s, q2 + 8, Field::RfuE, -1i32)),
    )
}

/// The fields of `r` before its lists are those of the GDR at `p` of a file of version `ver`.
pub open spec fn gdr_fields(s: Seq<u8>, p: int, ver: CdfVersion, r: GlobalDescriptorRecord) -> bool {
    let v3 = ver.major >= 3;
    let w = offset_width(v3);
    let q = p + 5 * w + 4;
    let q2 = q + 20 + w;
    let n = r.dim_rvar as int;
    &&& r.record_size == offset_at(s, p, v3)
    &&& r.record_type == 2
    &&& r.rvdr_head == nonzero(offset_at(s, p + w + 4, v3))
    &&& r.zvdr_head == (if ver.spec_lt(CdfVersion { major: 2, minor: 2, patch: 0 }) {
        None
    } else {
        nonzero(offset_at(s, p + 2 * w + 4, v3))
    })
    &&& r.adr_head == nonzero(offset_at(s, p + 3 * w + 4, v3))
    &&& r.eof == (if ver.spec_lt(CdfVersion { major: 2, minor: 1, patch: 0 }) {
        None
    } else {
        Some(offset_at(s, p + 4 * w + 4, v3) as i64)
    })
    &&& r.num_rvars == i4_at(s, q)
    &&& r.num_attributes == i4_at(s, q + 4)
    &&& r.max_rvar == i4_at(s, q + 8)
    &&& r.dim_rvar == i4_at(s, q + 12)
    &&& r.num_zvars == i4_at(s, q + 16)
    &&& r.uir_head == offset_at(s, q + 20, v3)
    &&& r.rfu_c == 0
    &&& r.date_last_leapsecond_update == i4_at(s, q2 + 4)
    &&& r.rfu_e == -1
    &&& n >= 0 && r.sizes_rvar@.len() == n
    &&& forall|i: int| 0 <= i < n ==> #[trigger] r.sizes_rvar@[i] == i4_at(s, q2 + 12 + 4 * i)
}

/// The list that `head` starts is well formed, where there is one.
pub open spec fn opt_chain_ok<T: RecordList>(
    s: Seq<u8>,
    v3: bool,
    enc: Option<Encoding>,
    rdims: Option<Seq<i32>>,
    head: Option<i64>,
) -> bool {
    match head {
        Some(h) => chain_ok::<T>(s, v3, enc, rdims, h, s.len()),
        None => true,
    }
}

/// The sizes of the rVariable dimensions in the GDR at `p`.
pub open spec fn gdr_sizes(s: Seq<u8>, p: int, v3: bool) -> Seq<i32> {
    let w = offset_width(v3);
    let q = p + 5 * w + 4;
    Seq::new(i4_at(s, q + 12) as nat, |i: int| i4_at(s, q + 20 + w + 12 + 4 * i) as i32)
}

/// The GDR at `p` of a file of version `ver` is there in full, and each
/// list it starts is well formed.
pub open spec fn gdr_complete(s: Seq<u8>, p: int, ver: CdfVersion, enc: Option<Encoding>) -> bool {
    let v3 = ver.major >= 3;
    let w = offset_width(v3);
    let q = p + 5 * w + 4;
    let k = i4_at(s, q + 12);
    let rdims = Some(gdr_sizes(s, p, v3));
    &&& k >= 0 && p + gdr_head_len(v3) + 4 * k <= s.len()
    &&& opt_chain_ok::<AttributeDescriptorRecord>(s, v3, enc, rdims, nonzero(offset_at(s, p + 3 * w + 4, v3)))
    &&& opt_chain_ok::<RVariableDescriptorRecord>(s, v3, enc, rdims, nonzero(offset_at(s, p + w + 4, v3)))
    &&& !ver.spec_lt(CdfVersion { major: 2, minor: 2, patch: 0 }) ==> opt_chain_ok::<ZVariableDescriptorRecord>(
        s,
        v3,
        enc,
        rdims,
        nonzero(offset_at(s, p + 2 * w + 4, v3)),
    )
    &&& opt_chain_ok::<UnusedInternalRecord>(s, v3, enc, rdims, nonzero(offset_at(s, q + 20, v3)))
}

impl GlobalDescriptorRecord {
    /// A GDR with every count 0 and every list empty, to be filled in.
    pub(crate) fn empty() -> GlobalDescriptorRecord {
        GlobalDescriptorRecord {
            record_size: 0,
            record_type: 2,
            rvdr_head: None,
            zvdr_head: None,
            adr_head: None,
            eof: None,
            num_rvars: 0,
            num_attributes: 0,
            max_rvar: 0,
            dim_rvar: 0,
            num_zvars: 0,
            uir_head: 0,
            rfu_c: 0,
            date_last_leapsecond_update: 0,
            rfu_e: -1,
            sizes_rvar: Vec::new(),
            adr_vec: Vec::new(),
            rvdr_vec: Vec::new(),
            zvdr_vec: Vec::new(),
            uir_vec: Vec::new(),
        }
    }

    /// Decodes the fields of the GDR at the cursor, leaving its lists empty.
    fn decode_fields(d: &mut Decoder) -> (r: Result<GlobalDescriptorRecord, DecodeError>)
        ensures
            final(d).same_input(*old(d)),
            final(d).context == old(d).context,
            r matches Ok(x) ==> old(d).fits(gdr_head_len(old(d).v3())) && gdr_error(
                old(d).data@,
                old(d).pos as int,
                old(d).v3(),
            ) is None && gdr_fields(old(d).data@, old(d).pos as int, old(d).version, x),
            old(d).fits(gdr_head_len(old(d).v3())) && gdr_error(old(d).data@, old(d).pos as int, old(d).v3()) is Some
                ==> r == Err::<GlobalDescriptorRecord, DecodeError>(
                gdr_error(old(d).data@, old(d).pos as int, old(d).v3()).unwrap(),
            ),
            !old(d).fits(gdr_head_len(old(d).v3())) ==> r is Err,
            old(d).fits(gdr_head_len(old(d).v3())) && gdr_error(old(d).data@, old(d).pos as int, old(d).v3()) is None
                && i4_at(old(d).data@, old(d).pos + 5 * old(d).ow() + 16) < 0 ==> r == Err::<
                GlobalDescriptorRecord,
                DecodeError,
            >(DecodeError::IntegerOutOfRange(Field::NumDims)),
            old(d).fits(gdr_head_len(old(d).v3())) && gdr_error(old(d).data@, old(d).pos as int, old(d).v3()) is None
                && gdr_complete(old(d).data@, old(d).pos as int, old(d).version, old(d).context.encoding) ==> r is Ok,
    {
        let record_size = read_record_header(d, RecordKind::Gdr, 2)?;
        let rvdr = d.read_offset()?;
        let zvdr = d.read_offset()?;
        let adr = d.read_offset()?;
        let eof = d.read_offset()?;
        let num_rvars = d.read_i32_be()?;
        let num_attributes = d.read_i32_be()?;
        let max_rvar = d.read_i32_be()?;
        let dim_rvar = d.read_i32_be()?;
        let num_zvars = d.read_i32_be()?;
        let uir_head = d.read_offset()?;
        let rfu_c = read_reserved(d, Field::RfuC, 0)?;
        let date_last_leapsecond_update = d.read_i32_be()?;
        let rfu_e = read_reserved(d, Field::RfuE, -1)?;
        let sizes_rvar = decode_sizes(d, dim_rvar)?;
        let before_zvars = d.version.lt(&CdfVersion::new(2, 2, 0));
        let before_eof = d.version.lt(&CdfVersion::new(2, 1, 0));
        Ok(GlobalDescriptorRecord {
            record_size,
            record_type: 2,
            rvdr_head: if rvdr != 0 { Some(rvdr) } else { None },
            zvdr_head: if zvdr == 0 || before_zvars { None } else { Some(zvdr) },
            adr_head: if adr != 0 { Some(adr) } else { None },
            eof: if before_eof { None } else { Some(eof) },
            num_rvars,
            num_attributes,
            max_rvar,
            dim_rvar,
            num_zvars,
            uir_head,
            rfu_c,
            date_last_leapsecond_update,
            rfu_e,
            sizes_rvar,
            adr_vec: Vec::new(),
            rvdr_vec: Vec::new(),
            zvdr_vec: Vec::new(),
            uir_vec: Vec::new(),
        })
    }

    /// Decodes the GDR at the cursor, then the lists of attributes, r- and
    /// zVariables and unused records that it starts. The sizes of the
    /// rVariable dimensions go into the context first.
    pub fn decode(d: &mut Decoder) -> (r: Result<GlobalDescriptorRecord, DecodeError>)
        ensures
            final(d).same_input(*old(d)),
            final(d).context.encoding == old(d).context.encoding,
            r matches Ok(x) ==> {
                let s = old(d).data@;
                let v3 = old(d).v3();
                let enc = old(d).context.encoding;
                &&& gdr_error(s, old(d).pos as int, v3) is None
                &&& gdr_fields(s, old(d).pos as int, old(d).version, x)
                &&& list_at(s, v3, enc, x.adr_head, x.adr_vec@)
                &&& list_at(s, v3, enc, x.rvdr_head, x.rvdr_vec@)
                &&& list_at(s, v3, enc, x.zvdr_head, x.zvdr_vec@)
                &&& list_at(s, v3, enc, nonzero(x.uir_head as int), x.uir_vec@)
            },
            old(d).fits(gdr_head_len(old(d).v3())) && gdr_error(old(d).data@, old(d).pos as int, old(d).v3()) is Some
                ==> r == Err::<GlobalDescriptorRecord, DecodeError>(
                gdr_error(old(d).data@, old(d).pos as int, old(d).v3()).unwrap(),
            ),
            !old(d).fits(gdr_head_len(old(d).v3())) ==> r is Err,
            old(d).fits(gdr_head_len(old(d).v3())) && gdr_error(old(d).data@, old(d).pos as int, old(d).v3()) is None
                && i4_at(old(d).data@, old(d).pos + 5 * old(d).ow() + 16) < 0 ==> r == Err::<
                GlobalDescriptorRecord,
                DecodeError,
            >(DecodeError::IntegerOutOfRange(Field::NumDims)),
            old(d).fits(gdr_head_len(old(d).v3())) && gdr_error(old(d).data@, old(d).pos as int, old(d).v3()) is None
                && gdr_complete(old(d).data@, old(d).pos as int, old(d).version, old(d).context.encoding) ==> r is Ok,
    {
        let mut gdr = Self::decode_fields(d)?;
        d.context.size_r_dims = Some(copy_sizes(&gdr.sizes_rvar));
        assert(gdr.sizes_rvar@ =~= gdr_sizes(d.data@, old(d).pos as int, old(d).v3()));
        gdr.adr_vec = decode_list::<AttributeDescriptorRecord>(d, gdr.adr_head)?;
        gdr.rvdr_vec = decode_list::<RVariableDescriptorRecord>(d, gdr.rvdr_head)?;
        gdr.zvdr_vec = decode_list::<ZVariableDescriptorRecord>(d, gdr.zvdr_head)?;
        let uir_head = if gdr.uir_head != 0 { Some(gdr.uir_head) } else { None };
        gdr.uir_vec = decode_list::<UnusedInternalRecord>(d, uir_head)?;
        Ok(gdr)
    }
}

} // verus!
