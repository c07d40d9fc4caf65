use vstd::prelude::*;

use crate::bytes::i4_at;
use crate::decode::{offset_at, offset_width, Decoder};
use crate::error::{DecodeError, Field, RecordKind};
use crate::record::adr::{list_at, name_ok};
use crate::record::agredr::payload_ok;
use crate::record::collection::{nonzero, Decodable, RecordList};
use crate::record::rvdr::{
    active_size, data_len, decode_pad, sizes_nonneg, MAX_DATA_LEN, decode_sizes, decode_variances, decode_vdr_head, pad_at, rflags_of,
    variances_at, variances_valid, vdr_error, vdr_head_at, vdr_head_len, VdrHead,
};
use crate::record::vxr::{decode_vxr_list, tree_at, vxr_chain_ok, VariableIndexRecord};
use crate::repr::Encoding;
use crate::types::CdfType;

verus! {

/// Various options for zVariables.
#[derive(Debug, Clone, Copy, PartialEq, Eq, Structural)]
pub struct ZVariableFlags {
    /// Whether this zVariable varies from record to record.
    pub variance: bool,
    /// Whether this zVariable has a pad value.
    pub has_padding: bool,
    /// Whether this zVariable is compressed.
    pub is_compressed: bool,
}

/// Describes one zVariable.
#[derive(Debug)]
pub struct ZVariableDescriptorRecord {
    /// Size of this record in bytes.
    pub record_size: i64,
    /// The type of record as defined in the CDF specification as an integer.
    pub record_type: i32,
    /// File offset of the next ZVDR.
    pub zvdr_next: Option<i64>,
    /// Type of data stored in this zVariable.
    pub data_type: i32,
    /// Largest record number stored for this zVariable.
    pub max_record: i32,
    /// File offset of the first Variable Index Record.
    pub vxr_head: Option<i64>,
    /// File offset of the last Variable Index Record.
    pub vxr_tail: Option<i64>,
    /// Boolean flags.
    pub flags: ZVariableFlags,
    /// Type of sparse records.
    pub sparse_records: i32,
    /// Reserved for future use.
    pub rfu_b: i32,
    /// Reserved for future use.
    pub rfu_c: i32,
    /// Reserved for future use.
    pub rfu_f: i32,
    /// Number of elements of the data type in each value.
    pub num_elements: i32,
    /// Number of this zVariable.
    pub num: i32,
    /// Offset of the compression or sparseness parameters.
    pub cpr_spr_offset: Option<i64>,
    /// Blocking factor.
    pub blocking_factor: i32,
    /// Name of this variable.
    pub name: String,
    /// Number of dimensions of this zVariable.
    pub num_z_dims: i32,
    /// Sizes of its dimensions.
    pub size_z_dims: Vec<i32>,
    /// Whether each dimension varies.
    pub dim_variances: Vec<bool>,
    /// Pad value of this variable.
    pub pad_value: Vec<CdfType>,
    /// Variable Index Records.
    pub vxr_vec: Vec<VariableIndexRecord>,
}

impl ZVariableDescriptorRecord {
    /// The shared descriptor fields of this record, with `flags` as they stand in the file.
    pub open spec fn head(self, flags: i32) -> VdrHead {
        VdrHead {
            record_size: self.record_size,
            next: self.zvdr_next,
            data_type: self.data_type,
            max_record: self.max_record,
            vxr_head: self.vxr_head,
            vxr_tail: self.vxr_tail,
            flags,
            sparse_records: self.sparse_records,
            num_elements: self.num_elements,
            num: self.num,
            cpr_spr_offset: self.cpr_spr_offset,
            blocking_factor: self.blocking_factor,
            name: self.name,
        }
    }
}

/// Reads the number of dimensions of a zVariable, their sizes and their variances.
fn decode_dims(d: &mut Decoder) -> (r: Result<(i32, Vec<i32>, Vec<bool>), DecodeError>)
    ensures
        final(d).same_input(*old(d)),
        final(d).context == old(d).context,
        old(d).fits(4) && i4_at(old(d).data@, old(d).pos as int) < 0 ==> r == Err::<(i32, Vec<i32>, Vec<bool>), DecodeError>(
            DecodeError::IntegerOutOfRange(Field::NumDims),
        ),
        r matches Ok((k, sizes, varys)) ==> {
            let s = old(d).data@;
            let e = old(d).pos as int;
            &&& k == i4_at(s, e)
            &&& k >= 0 && sizes@.len() == k && varys@.len() == k
            &&& forall|i: int| 0 <= i < k ==> #[trigger] sizes@[i] == i4_at(s, e + 4 + 4 * i)
            &&& variances_at(s, e + 4 + 4 * k, varys@)
            &&& final(d).pos == e + 4 + 8 * k
        },
        i4_at(old(d).data@, old(d).pos as int) >= 0 && old(d).fits(4 + 8 * i4_at(old(d).data@, old(d).pos as int))
            && variances_valid(
            old(d).data@,
            old(d).pos + 4 + 4 * i4_at(old(d).data@, old(d).pos as int),
            i4_at(old(d).data@, old(d).pos as int),
        ) ==> r is Ok,
{
    let num_z_dims = d.read_i32_be()?;
    let size_z_dims = decode_sizes(d, num_z_dims)?;
    let dim_variances = decode_variances(d, size_z_dims.len())?;
    Ok((num_z_dims, size_z_dims, dim_variances))
}

/// Sizes of the dimensions of the ZVDR at `p`.
pub open spec fn zdim_sizes(s: Seq<u8>, p: int, v3: bool) -> Seq<i32> {
    let e = p + vdr_head_len(v3);
    Seq::new(i4_at(s, e) as nat, |i: int| i4_at(s, e + 4 + 4 * i) as i32)
}

/// Variances of the dimensions of the ZVDR at `p`.
pub open spec fn zdim_varys(s: Seq<u8>, p: int, v3: bool) -> Seq<bool> {
    let e = p + vdr_head_len(v3);
    let k = i4_at(s, e);
    Seq::new(k as nat, |i: int| i4_at(s, e + 4 + 4 * k + 4 * i) == -1)
}

/// The name, dimensions and pad value of the ZVDR at `p` are there and well formed.
pub open spec fn zvdr_front_ok(s: Seq<u8>, p: int, v3: bool, enc: Option<Encoding>) -> bool {
    let w = offset_width(v3);
    let q = p + 4 * w + 12;
    let e = p + vdr_head_len(v3);
    let k = i4_at(s, e);
    &&& name_ok(s, p + 5 * w + 44, v3)
    &&& k >= 0 && e + 4 + 8 * k <= s.len()
    &&& variances_valid(s, e + 4 + 4 * k, k)
    &&& (i4_at(s, q) as i32) & 2 != 0 ==> payload_ok(
        s,
        e + 4 + 8 * k,
        enc,
        i4_at(s, p + 2 * w + 4) as i32,
        i4_at(s, q + 20),
    )
}

/// The length of one record of the ZVDR at `p` is a count that fits: not
/// negative and at most `2^31 - 1`.
pub open spec fn zvdr_len_ok(s: Seq<u8>, p: int, v3: bool) -> bool {
    let ne = i4_at(s, p + 4 * offset_width(v3) + 32) as i32;
    &&& ne >= 0 && sizes_nonneg(zdim_sizes(s, p, v3), zdim_varys(s, p, v3))
    &&& ne * active_size(zdim_sizes(s, p, v3), zdim_varys(s, p, v3)) <= MAX_DATA_LEN
}

/// The ZVDR at `p` is whole and well formed: name, dimensions, pad value,
/// record length, and the trees of VXRs that hold its records.
pub open spec fn zvdr_complete(s: Seq<u8>, p: int, v3: bool, enc: Option<Encoding>) -> bool {
    let w = offset_width(v3);
    let q = p + 4 * w + 12;
    let e = p + vdr_head_len(v3);
    let k = i4_at(s, e);
    let t = i4_at(s, p + 2 * w + 4) as i32;
    let ne = i4_at(s, q + 20) as i32;
    let f = i4_at(s, q) as i32;
    let len = ne * active_size(zdim_sizes(s, p, v3), zdim_varys(s, p, v3));
    &&& zvdr_front_ok(s, p, v3, enc)
    &&& zvdr_len_ok(s, p, v3)
    &&& match nonzero(offset_at(s, p + 2 * w + 12, v3)) {
        None => true,
        Some(h) => vxr_chain_ok(s, v3, enc, Some(t), Some(len as i32), h, s.len()),
    }
}

impl Decodable for ZVariableDescriptorRecord {
    open spec fn fixed_len(v3: bool) -> int {
        vdr_head_len(v3)
    }

    open spec fn fixed_error(s: Seq<u8>, p: int, v3: bool) -> Option<DecodeError> {
        vdr_error(s, p, v3, RecordKind::Zvdr, 8i32)
    }

    open spec fn complete(s: Seq<u8>, p: int, v3: bool, enc: Option<Encoding>, rdims: Option<Seq<i32>>) -> bool {
        zvdr_complete(s, p, v3, enc)
    }

    open spec fn decoded(s: Seq<u8>, p: int, v3: bool, enc: Option<Encoding>, r: Self) -> bool {
        let f = i4_at(s, p + 4 * offset_width(v3) + 12) as i32;
        let e = p + vdr_head_len(v3);
        let k = r.num_z_dims as int;
        &&& vdr_head_at(s, p, v3, r.head(f))
        &&& r.record_type == 8 && r.rfu_b == 0 && r.rfu_c == -1 && r.rfu_f == -1
        &&& r.flags.variance == rflags_of(f).variance
        &&& r.flags.has_padding == rflags_of(f).has_padding
        &&& r.flags.is_compressed == rflags_of(f).is_compressed
        &&& r.num_z_dims == i4_at(s, e)
        &&& k >= 0 && r.size_z_dims@.len() == k && r.dim_variances@.len() == k
        &&& forall|i: int| 0 <= i < k ==> #[trigger] r.size_z_dims@[i] == i4_at(s, e + 4 + 4 * i)
        &&& variances_at(s, e + 4 + 4 * k, r.dim_variances@)
        &&& pad_at(s, e + 4 + 8 * k, enc, r.flags.has_padding, r.data_type, r.num_elements, r.pad_value@)
        &&& list_at(s, v3, enc, r.vxr_head, r.vxr_vec@)
        &&& r.num_elements >= 0 && sizes_nonneg(r.size_z_dims@, r.dim_variances@)
        &&& r.num_elements * active_size(r.size_z_dims@, r.dim_variances@) <= MAX_DATA_LEN
        &&& forall|j: int|
            0 <= j < r.vxr_vec@.len() ==> tree_at(
                s,
                v3,
                enc,
                Some(r.data_type),
                Some((r.num_elements * active_size(r.size_z_dims@, r.dim_variances@)) as i32),
                #[trigger] r.vxr_vec@[j],
                s.len(),
            )
    }

    fn decode_be(d: &mut Decoder) -> (r: Result<Self, DecodeError>)
        ensures
            old(d).fits(vdr_head_len(old(d).v3()) + 4) && vdr_error(
                old(d).data@,
                old(d).pos as int,
                old(d).v3(),
                RecordKind::Zvdr,
                8i32,
            ) is None && name_ok(old(d).data@, old(d).pos + 5 * old(d).ow() + 44, old(d).v3()) && i4_at(
                old(d).data@,
                old(d).pos + vdr_head_len(old(d).v3()),
            ) < 0 ==> r == Err::<Self, DecodeError>(DecodeError::IntegerOutOfRange(Field::NumDims)),
            old(d).fits(vdr_head_len(old(d).v3())) && vdr_error(
                old(d).data@,
                old(d).pos as int,
                old(d).v3(),
                RecordKind::Zvdr,
                8i32,
            ) is None && zvdr_front_ok(old(d).data@, old(d).pos as int, old(d).v3(), old(d).context.encoding)
                && !zvdr_len_ok(old(d).data@, old(d).pos as int, old(d).v3()) ==> r == Err::<Self, DecodeError>(
                DecodeError::IntegerOutOfRange(Field::VarDataLen),
            ),
    {
        let h = decode_vdr_head(d, RecordKind::Zvdr, 8)?;
        let ghost s = d.data@;
        let ghost p = old(d).pos as int;
        let (num_z_dims, size_z_dims, dim_variances) = decode_dims(d)?;
        proof {
            assert(size_z_dims@ =~= zdim_sizes(s, p, old(d).v3()));
            assert(dim_variances@ =~= zdim_varys(s, p, old(d).v3()));
        }
        let flags = ZVariableFlags {
            variance: (h.flags & 1) != 0,
            has_padding: (h.flags & 2) != 0,
            is_compressed: (h.flags & 4) != 0,
        };
        let pad_value = decode_pad(d, flags.has_padding, h.data_type, h.num_elements)?;
        let len = data_len(h.num_elements, &size_z_dims, &dim_variances)?;
        d.context.var_data_type = Some(h.data_type);
        d.context.var_data_len = Some(len);
        let vxr_vec = decode_vxr_list(d, h.vxr_head)?;
        Ok(ZVariableDescriptorRecord {
            record_size: h.record_size,
            record_type: 8,
            zvdr_next: h.next,
            data_type: h.data_type,
            max_record: h.max_record,
            vxr_head: h.vxr_head,
            vxr_tail: h.vxr_tail,
            flags,
            sparse_records: h.sparse_records,
            rfu_b: 0,
            rfu_c: -1,
            rfu_f: -1,
            num_elements: h.num_elements,
            num: h.num,
            cpr_spr_offset: h.cpr_spr_offset,
            blocking_factor: h.blocking_factor,
            name: h.name,
            num_z_dims,
            size_z_dims,
            dim_variances,
            pad_value,
            vxr_vec,
        })
    }
}

impl RecordList for ZVariableDescriptorRecord {
    open spec fn spec_next(&self) -> Option<i64> {
        self.zvdr_next
    }

    proof fn lemma_next(s: Seq<u8>, p: int, v3: bool, enc: Option<Encoding>, x: Self) {
    }

    fn next_record(&self) -> (r: Option<i64>) {
        self.zvdr_next
    }
}

} // verus!
