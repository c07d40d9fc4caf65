use vstd::prelude::*;

use crate::bytes::i4_at;
use crate::decode::{offset_at, offset_width, Decoder};
use crate::error::{ContextField, DecodeError, Field, RecordKind};
use crate::record::adr::{list_at, name_ok, name_width};
use crate::record::agredr::payload_ok;
use crate::record::collection::{
    first_error, is_little, nonzero, not_minus_one, read_record_header, read_reserved, rfu_error,
    tag_error, Decodable, RecordList,
};
use crate::record::vxr::{decode_vxr_list, tree_at, vxr_chain_ok, VariableIndexRecord};
use crate::repr::Encoding;
use crate::types::{decode_payload, has_byte_order, decode_string_from_numbytes, text_of, vec_matches, CdfType};

verus! {

/// Various options for rVariables.
#[derive(Debug, Clone, Copy, PartialEq, Eq, Structural)]
pub struct RVariableFlags {
    /// Whether this rVariable varies from record to record.
    pub variance: bool,
    /// Whether this rVariable has a pad value.
    pub has_padding: bool,
    /// Whether this rVariable is compressed.
    pub is_compressed: bool,
}

/// The fields that the descriptors of r- and zVariables share, up to the name.
#[derive(Debug)]
pub struct VdrHead {
    pub record_size: i64,
    pub next: Option<i64>,
    pub data_type: i32,
    pub max_record: i32,
    pub vxr_head: Option<i64>,
    pub vxr_tail: Option<i64>,
    pub flags: i32,
    pub sparse_records: i32,
    pub num_elements: i32,
    pub num: i32,
    pub cpr_spr_offset: Option<i64>,
    pub blocking_factor: i32,
    pub name: String,
}

/// Bytes of a variable descriptor up to the end of its name.
pub open spec fn vdr_head_len(v3: bool) -> int {
    5 * offset_width(v3) + 44 + name_width(v3)
}

/// The error that the leading part of a variable descriptor at `p` calls for.
pub open spec fn vdr_error(s: Seq<u8>, p: int, v3: bool, kind: RecordKind, tag: i32) -> Option<DecodeError> {
    let q = p + 4 * offset_width(v3) + 12;
    first_error(
        tag_error(s, p, v3, kind, tag),
        first_error(
            rfu_error(s, q + 8, Field::RfuB, 0i32),
            first_error(rfu_error(s, q + 12, Field::RfuC, -1i32), rfu_error(s, q + 16, Field::RfuF, -1i32)),
        ),
    )
}

/// `h` holds the shared fields of the variable descriptor at `p`.
pub open spec fn vdr_head_at(s: Seq<u8>, p: int, v3: bool, h: VdrHead) -> bool {
    let w = offset_width(v3);
    let q = p + 4 * w + 12;
    &&& h.record_size == offset_at(s, p, v3)
    &&& h.next == nonzero(offset_at(s, p + w + 4, v3))
    &&& h.data_type == i4_at(s, p + 2 * w + 4)
    &&& h.max_record == i4_at(s, p + 2 * w + 8)
    &&& h.vxr_head == nonzero(offset_at(s, p + 2 * w + 12, v3))
    &&& h.vxr_tail == nonzero(offset_at(s, p + 3 * w + 12, v3))
    &&& h.flags == i4_at(s, q)
    &&& h.sparse_records == i4_at(s, q + 4)
    &&& h.num_elements == i4_at(s, q + 20)
    &&& h.num == i4_at(s, q + 24)
    &&& h.cpr_spr_offset == not_minus_one(offset_at(s, q + 28, v3))
    &&& h.blocking_factor == i4_at(s, q + 28 + w)
    &&& p + vdr_head_len(v3) <= s.len()
    &&& text_of(s.subrange(q + 32 + w, q + 32 + w + name_width(v3))) == Some(h.name@)
}

/// Decodes the fields that the descriptors of r- and zVariables share.
pub fn decode_vdr_head(d: &mut Decoder, kind: RecordKind, tag: i32) -> (r: Result<VdrHead, DecodeError>)
    ensures
        final(d).same_input(*old(d)),
        final(d).context == old(d).context,
        r matches Ok(h) ==> old(d).fits(vdr_head_len(old(d).v3())) && vdr_error(
            old(d).data@,
            old(d).pos as int,
            old(d).v3(),
            kind,
            tag,
        ) is None && vdr_head_at(old(d).data@, old(d).pos as int, old(d).v3(), h)
            && final(d).pos == old(d).pos + vdr_head_len(old(d).v3()),
        old(d).fits(vdr_head_len(old(d).v3())) && vdr_error(old(d).data@, old(d).pos as int, old(d).v3(), kind, tag) is Some
            ==> r == Err::<VdrHead, DecodeError>(vdr_error(old(d).data@, old(d).pos as int, old(d).v3(), kind, tag).unwrap()),
        !old(d).fits(vdr_head_len(old(d).v3())) ==> r is Err,
        old(d).fits(vdr_head_len(old(d).v3())) && vdr_error(old(d).data@, old(d).pos as int, old(d).v3(), kind, tag) is None
            && name_ok(old(d).data@, old(d).pos + 5 * old(d).ow() + 44, old(d).v3()) ==> r is Ok,
{
    let v3 = d.version.major >= 3;
    let record_size = read_record_header(d, kind, tag)?;
    let next = d.read_offset()?;
    let data_type = d.read_i32_be()?;
    let max_record = d.read_i32_be()?;
    let vxr_head = d.read_offset()?;
    let vxr_tail = d.read_offset()?;
    let flags = d.read_i32_be()?;
    let sparse_records = d.read_i32_be()?;
    let _ = read_reserved(d, Field::RfuB, 0)?;
    let _ = read_reserved(d, Field::RfuC, -1)?;
    let _ = read_reserved(d, Field::RfuF, -1)?;
    let num_elements = d.read_i32_be()?;
    let num = d.read_i32_be()?;
    let cpr_spr_offset = d.read_offset()?;
    let blocking_factor = d.read_i32_be()?;
    let width: usize = if v3 { 256 } else { 64 };
    let name = decode_string_from_numbytes(d, width, Field::Name)?;
    Ok(VdrHead {
        record_size,
        next: if next != 0 { Some(next) } else { None },
        data_type,
        max_record,
        vxr_head: if vxr_head != 0 { Some(vxr_head) } else { None },
        vxr_tail: if vxr_tail != 0 { Some(vxr_tail) } else { None },
        flags,
        sparse_records,
        num_elements,
        num,
        cpr_spr_offset: if cpr_spr_offset != -1 { Some(cpr_spr_offset) } else { None },
        blocking_factor,
        name,
    })
}

/// `x` is a dimension variance that reads as `b`.
pub open spec fn variance_ok(x: int, b: bool) -> bool {
    (x == -1 || x == 0) && b == (x == -1)
}

/// The dimension variances at `p`: -1 for a dimension that varies, 0 for one that does not.
pub open spec fn variances_at(s: Seq<u8>, p: int, v: Seq<bool>) -> bool {
    forall|i: int|
        #![trigger v[i]]
        0 <= i < v.len() ==> variance_ok(i4_at(s, p + 4 * i), v[i])
}

/// The `n` dimension variances at `p` are each -1 or 0.
pub open spec fn variances_valid(s: Seq<u8>, p: int, n: int) -> bool {
    forall|i: int| 0 <= i < n ==> #[trigger] i4_at(s, p + 4 * i) == -1 || i4_at(s, p + 4 * i) == 0
}

/// Reads `n` dimension variances.
pub fn decode_variances(d: &mut Decoder, n: usize) -> (r: Result<Vec<bool>, DecodeError>)
    ensures
        final(d).same_input(*old(d)),
        final(d).context == old(d).context,
        r matches Ok(v) ==> v@.len() == n && variances_at(old(d).data@, old(d).pos as int, v@)
            && final(d).pos == old(d).pos + 4 * n,
        old(d).fits(4 * n) && variances_valid(old(d).data@, old(d).pos as int, n as int) ==> r is Ok,
{
    let ghost d0 = *d;
    let mut v: Vec<bool> = Vec::new();
    let mut i: usize = 0;
    while i < n
        invariant
            d0 == *old(d),
            d.same_input(d0),
            d.context == d0.context,
            i <= n,
            v@.len() == i,
            d.pos == d0.pos + 4 * i,
            variances_at(d0.data@, d0.pos as int, v@),
            d0.fits(4 * n) ==> d.fits(4 * (n - i)),
        decreases n - i,
    {
        let ghost v0 = v@;
        let x = d.read_i32_be()?;
        if x != -1 && x != 0 {
            return Err(DecodeError::BadDimVariance(x));
        }
        assert(x == i4_at(d0.data@, d0.pos + 4 * i));
        v.push(x == -1);
        proof {
            let p0 = d0.pos as int;
            assert forall|j: int| 0 <= j < v@.len() implies variance_ok(i4_at(d0.data@, p0 + 4 * j), #[trigger] v@[j]) by {
                if j < i {
                    assert(v0[j] == v@[j]);
                } else {
                    assert(j == i);
                    assert(v@[j] == (x == -1));
                }
            }
            assert(variances_at(d0.data@, d0.pos as int, v@));
        }
        i = i + 1;
    }
    Ok(v)
}

/// Reads `n` dimension sizes.
pub fn decode_sizes(d: &mut Decoder, n: i32) -> (r: Result<Vec<i32>, DecodeError>)
    ensures
        final(d).same_input(*old(d)),
        final(d).context == old(d).context,
        n < 0 ==> r == Err::<Vec<i32>, DecodeError>(DecodeError::IntegerOutOfRange(Field::NumDims)),
        r matches Ok(v) ==> n >= 0 && v@.len() == n && final(d).pos == old(d).pos + 4 * n && forall|i: int|
            0 <= i < n ==> #[trigger] v@[i] == i4_at(old(d).data@, old(d).pos + 4 * i),
        n >= 0 && old(d).fits(4 * n) ==> r is Ok,
{
    if n < 0 {
        return Err(DecodeError::IntegerOutOfRange(Field::NumDims));
    }
    let ghost d0 = *d;
    let mut v: Vec<i32> = Vec::new();
    let mut i: i32 = 0;
    while i < n
        invariant
            d0 == *old(d),
            d.same_input(d0),
            d.context == d0.context,
            0 <= i <= n,
            v@.len() == i,
            d.pos == d0.pos + 4 * i,
            forall|j: int| 0 <= j < i ==> #[trigger] v@[j] == i4_at(d0.data@, d0.pos + 4 * j),
            d0.fits(4 * n) ==> d.fits(4 * (n - i)),
        decreases n - i,
    {
        let x = d.read_i32_be()?;
        v.push(x);
        i = i + 1;
    }
    Ok(v)
}

/// Largest count of values in one variable record.
pub const MAX_DATA_LEN: u64 = 0x7fff_ffff;

/// The product of the sizes of the dimensions that vary.
pub open spec fn active_size(sizes: Seq<i32>, varys: Seq<bool>) -> int
    decreases sizes.len(),
{
    if sizes.len() == 0 || varys.len() == 0 {
        1
    } else {
        active_size(sizes.drop_last(), varys.drop_last()) * (if varys.last() {
            sizes.last() as int
        } else {
            1
        })
    }
}

/// The product of the sizes of the dimensions that vary, held at `2^31`
/// once it gets there.
pub open spec fn capped_size(sizes: Seq<i32>, varys: Seq<bool>) -> int
    decreases sizes.len(),
{
    if sizes.len() == 0 || varys.len() == 0 {
        1
    } else {
        let x = capped_size(sizes.drop_last(), varys.drop_last()) * (if varys.last() {
            sizes.last() as int
        } else {
            1
        });
        if x > MAX_DATA_LEN + 1 {
            MAX_DATA_LEN + 1
        } else {
            x
        }
    }
}

/// No dimension that varies has a negative size.
pub open spec fn sizes_nonneg(sizes: Seq<i32>, varys: Seq<bool>) -> bool {
    forall|i: int| 0 <= i < sizes.len() && i < varys.len() && #[trigger] varys[i] ==> sizes[i] >= 0
}

pub proof fn lemma_capped_size(sizes: Seq<i32>, varys: Seq<bool>)
    requires
        sizes.len() == varys.len(),
        sizes_nonneg(sizes, varys),
    ensures
        active_size(sizes, varys) >= 0,
        capped_size(sizes, varys) == if active_size(sizes, varys) > MAX_DATA_LEN + 1 {
            MAX_DATA_LEN + 1
        } else {
            active_size(sizes, varys)
        },
    decreases sizes.len(),
{
    if sizes.len() > 0 {
        let s0 = sizes.drop_last();
        let v0 = varys.drop_last();
        assert(sizes_nonneg(s0, v0)) by {
            assert forall|i: int| 0 <= i < s0.len() && i < v0.len() && #[trigger] v0[i] implies s0[i] >= 0 by {
                assert(varys[i] == v0[i]);
            }
        }
        lemma_capped_size(s0, v0);
        let t = active_size(s0, v0);
        let c = capped_size(s0, v0);
        let f: int = if varys.last() {
            sizes.last() as int
        } else {
            1
        };
        assert(f >= 0) by {
            if varys.last() {
                assert(varys[varys.len() - 1]);
            }
        }
        let m = MAX_DATA_LEN + 1;
        assert(t * f >= 0) by (nonlinear_arith)
            requires
                t >= 0,
                f >= 0,
        ;
        if t > m {
            if f == 0 {
                assert(t * f == 0 && c * f == 0) by (nonlinear_arith)
                    requires
                        f == 0,
                ;
            } else {
                assert(t * f > m) by (nonlinear_arith)
                    requires
                        t > m,
                        m > 0,
                        f >= 1,
                ;
                assert(c * f >= m) by (nonlinear_arith)
                    requires
                        c == m,
                        m > 0,
                        f >= 1,
                ;
            }
        }
    }
}

/// Values in one record of a variable: `num_elements` times the product of
/// the sizes of the dimensions that vary. Fails when a count is negative or
/// the result is over `2^31 - 1`.
pub fn data_len(num_elements: i32, sizes: &Vec<i32>, varys: &Vec<bool>) -> (r: Result<i32, DecodeError>)
    requires
        sizes@.len() == varys@.len(),
    ensures
        num_elements >= 0 && sizes_nonneg(sizes@, varys@) && num_elements * active_size(sizes@, varys@)
            <= MAX_DATA_LEN ==> r == Ok::<i32, DecodeError>((num_elements * active_size(sizes@, varys@)) as i32),
        !(num_elements >= 0 && sizes_nonneg(sizes@, varys@) && num_elements * active_size(sizes@, varys@)
            <= MAX_DATA_LEN) ==> r == Err::<i32, DecodeError>(DecodeError::IntegerOutOfRange(Field::VarDataLen)),
{
    let mut i: usize = 0;
    while i < sizes.len()
        invariant
            sizes@.len() == varys@.len(),
            i <= sizes@.len(),
            forall|j: int| 0 <= j < i && #[trigger] varys@[j] ==> sizes@[j] >= 0,
        decreases sizes@.len() - i,
    {
        if varys[i] && sizes[i] < 0 {
            return Err(DecodeError::IntegerOutOfRange(Field::VarDataLen));
        }
        i = i + 1;
    }
    if num_elements < 0 {
        return Err(DecodeError::IntegerOutOfRange(Field::VarDataLen));
    }
    let mut acc: u64 = 1;
    let mut k: usize = 0;
    while k < sizes.len()
        invariant
            sizes@.len() == varys@.len(),
            sizes_nonneg(sizes@, varys@),
            k <= sizes@.len(),
            acc == capped_size(sizes@.take(k as int), varys@.take(k as int)),
            acc <= MAX_DATA_LEN + 1,
        decreases sizes@.len() - k,
    {
        let f: u64 = if varys[k] { sizes[k] as u64 } else { 1 };
        proof {
            assert(sizes@.take(k + 1).drop_last() =~= sizes@.take(k as int));
            assert(varys@.take(k + 1).drop_last() =~= varys@.take(k as int));
            assert(acc * f <= (MAX_DATA_LEN + 1) * 0x8000_0000) by (nonlinear_arith)
                requires
                    acc <= MAX_DATA_LEN + 1,
                    f <= 0x8000_0000,
            ;
        }
        acc = acc * f;
        if acc > MAX_DATA_LEN + 1 {
            acc = MAX_DATA_LEN + 1;
        }
        k = k + 1;
    }
    proof {
        assert(sizes@.take(sizes@.len() as int) =~= sizes@);
        assert(varys@.take(varys@.len() as int) =~= varys@);
        lemma_capped_size(sizes@, varys@);
        let a = active_size(sizes@, varys@);
        let n = num_elements as int;
        if n >= 1 && n * a <= MAX_DATA_LEN {
            assert(a <= n * a) by (nonlinear_arith)
                requires
                    n >= 1,
                    a >= 0,
            ;
        }
        if n == 0 {
            assert(n * a == 0 && n * acc == 0) by (nonlinear_arith)
                requires
                    n == 0,
            ;
        }
        if n >= 1 && a > MAX_DATA_LEN + 1 {
            assert(n * acc > MAX_DATA_LEN) by (nonlinear_arith)
                requires
                    n >= 1,
                    acc == 0x8000_0000,
                    MAX_DATA_LEN == 0x7fff_ffff,
            ;
        }
    }
    let t = checked_data_len(acc, num_elements);
    match t {
        Some(v) => Ok(v),
        None => Err(DecodeError::IntegerOutOfRange(Field::VarDataLen)),
    }
}

/// `n * acc` where it is at most `2^31 - 1`.
fn checked_data_len(acc: u64, n: i32) -> (r: Option<i32>)
    requires
        acc <= MAX_DATA_LEN + 1,
        n >= 0,
    ensures
        n * acc <= MAX_DATA_LEN ==> r == Some((n * acc) as i32),
        n * acc > MAX_DATA_LEN ==> r is None,
{
    assert(n as u64 * acc <= 0x8000_0000u64 * 0x8000_0000u64) by (nonlinear_arith)
        requires
            acc <= MAX_DATA_LEN + 1,
            0 <= n <= 0x7fff_ffff,
    ;
    let x = n as u64 * acc;
    if x > MAX_DATA_LEN {
        None
    } else {
        Some(x as i32)
    }
}

/// The flags of a variable descriptor.
pub open spec fn rflags_of(f: i32) -> RVariableFlags {
    RVariableFlags { variance: f & 1 != 0, has_padding: f & 2 != 0, is_compressed: f & 4 != 0 }
}

/// The pad value at `p`: there only when the flags say so.
pub open spec fn pad_at(s: Seq<u8>, p: int, enc: Option<Encoding>, has_padding: bool, t: i32, n: i32, pad: Seq<CdfType>) -> bool {
    if has_padding {
        n >= 0 && has_byte_order(enc) && vec_matches(s, p, t, n as nat, is_little(enc), pad)
    } else {
        pad.len() == 0
    }
}

/// Reads the pad value where the flags say there is one.
pub fn decode_pad(d: &mut Decoder, has_padding: bool, t: i32, n: i32) -> (r: Result<Vec<CdfType>, DecodeError>)
    ensures
        final(d).same_input(*old(d)),
        final(d).context == old(d).context,
        r matches Ok(v) ==> pad_at(old(d).data@, old(d).pos as int, old(d).context.encoding, has_padding, t, n, v@),
        !has_padding ==> r is Ok,
        has_padding && payload_ok(old(d).data@, old(d).pos as int, old(d).context.encoding, t, n as int) ==> r is Ok,
{
    if has_padding {
        decode_payload(d, t, n)
    } else {
        Ok(Vec::new())
    }
}

/// Copies a list of dimension sizes.
pub fn copy_sizes(v: &Vec<i32>) -> (r: Vec<i32>)
    ensures
        r@ == v@,
{
    let mut out: Vec<i32> = Vec::new();
    let mut i: usize = 0;
    while i < v.len()
        invariant
            i <= v@.len(),
            out@ == v@.take(i as int),
        decreases v@.len() - i,
    {
        out.push(v[i]);
        i = i + 1;
        assert(out@ =~= v@.take(i as int));
    }
    assert(v@.take(v@.len() as int) =~= v@);
    out
}

/// Describes one rVariable.
#[derive(Debug)]
pub struct RVariableDescriptorRecord {
    /// Size of this record in bytes.
    pub record_size: i64,
    /// The type of record as defined in the CDF specification as an integer.
    pub record_type: i32,
    /// File offset of the next RVDR.
    pub rvdr_next: Option<i64>,
    /// Type of data stored in this rVariable.
    pub data_type: i32,
    /// Largest record number stored for this rVariable.
    pub max_record: i32,
    /// File offset of the first Variable Index Record.
    pub vxr_head: Option<i64>,
    /// File offset of the last Variable Index Record.
    pub vxr_tail: Option<i64>,
    /// Boolean flags.
    pub flags: RVariableFlags,
    /// Type of sparse records.
    pub sparse_records: i32,
    /// Reserved for future use.
    pub rfu_b: i32,
    /// Reserved for future use.
    pub rfu_c: i32,
    /// Reserved for future use.
    pub rfu_f: i32,
    /// Number of elements of the data type in each value; for Chars the
    /// length of the string.
    pub num_elements: i32,
    /// Number of this rVariable.
    pub num: i32,
    /// Offset of the compression or sparseness parameters.
    pub cpr_spr_offset: Option<i64>,
    /// Blocking factor.
    pub blocking_factor: i32,
    /// Name of this variable.
    pub name: String,
    /// Whether each dimension varies.
    pub dim_variances: Vec<bool>,
    /// Pad value of this variable.
    pub pad_value: Vec<CdfType>,
    /// Variable Index Records.
    pub vxr_vec: Vec<VariableIndexRecord>,
}

impl RVariableDescriptorRecord {
    /// The shared descriptor fields of this record, with `flags` as they stand in the file.
    pub open spec fn head(self, flags: i32) -> VdrHead {
        VdrHead {
            record_size: self.record_size,
            next: self.rvdr_next,
            data_type: self.data_type,
            max_record: self.max_record,
            vxr_head: self.vxr_head,
            vxr_tail: self.vxr_tail,
            flags,
            sparse_records: self.sparse_records,
            num_elements: self.num_elements,
            num: self.num,
            cpr_spr_offset: self.cpr_spr_offset,
            blocking_factor: self.blocking_factor,
            name: self.name,
        }
    }
}

/// Variances of the `k` dimensions of the RVDR at `p`.
pub open spec fn rdim_varys(s: Seq<u8>, p: int, v3: bool, k: int) -> Seq<bool> {
    let e = p + vdr_head_len(v3);
    Seq::new(k as nat, |i: int| i4_at(s, e + 4 * i) == -1)
}

/// The RVDR at `p` is whole and well formed under the rVariable dimension
/// sizes `rdims`: name, variances, pad value, record length, and the trees
/// of VXRs that hold its records.
pub open spec fn rvdr_complete(s: Seq<u8>, p: int, v3: bool, enc: Option<Encoding>, rdims: Option<Seq<i32>>) -> bool {
    let w = offset_width(v3);
    let q = p + 4 * w + 12;
    let e = p + vdr_head_len(v3);
    let sizes = rdims.unwrap();
    let k = sizes.len() as int;
    let t = i4_at(s, p + 2 * w + 4) as i32;
    let ne = i4_at(s, q + 20) as i32;
    let f = i4_at(s, q) as i32;
    let len = ne * active_size(sizes, rdim_varys(s, p, v3, k));
    &&& rdims is Some
    &&& name_ok(s, p + 5 * w + 44, v3)
    &&& e + 4 * k <= s.len()
    &&& variances_valid(s, e, k)
    &&& f & 2 != 0 ==> payload_ok(s, e + 4 * k, enc, t, ne as int)
    &&& ne >= 0 && sizes_nonneg(sizes, rdim_varys(s, p, v3, k)) && len <= MAX_DATA_LEN
    &&& match nonzero(offset_at(s, p + 2 * w + 12, v3)) {
        None => true,
        Some(h) => vxr_chain_ok(s, v3, enc, Some(t), Some(len as i32), h, s.len()),
    }
}

impl Decodable for RVariableDescriptorRecord {
    open spec fn fixed_len(v3: bool) -> int {
        vdr_head_len(v3)
    }

    open spec fn fixed_error(s: Seq<u8>, p: int, v3: bool) -> Option<DecodeError> {
        vdr_error(s, p, v3, RecordKind::Rvdr, 3i32)
    }

    open spec fn complete(s: Seq<u8>, p: int, v3: bool, enc: Option<Encoding>, rdims: Option<Seq<i32>>) -> bool {
        rvdr_complete(s, p, v3, enc, rdims)
    }

    open spec fn decoded(s: Seq<u8>, p: int, v3: bool, enc: Option<Encoding>, r: Self) -> bool {
        let f = i4_at(s, p + 4 * offset_width(v3) + 12) as i32;
        let e = p + vdr_head_len(v3);
        &&& vdr_head_at(s, p, v3, r.head(f))
        &&& r.record_type == 3 && r.rfu_b == 0 && r.rfu_c == -1 && r.rfu_f == -1
        &&& r.flags == rflags_of(f)
        &&& variances_at(s, e, r.dim_variances@)
        &&& pad_at(s, e + 4 * r.dim_variances@.len(), enc, r.flags.has_padding, r.data_type, r.num_elements, r.pad_value@)
        &&& list_at(s, v3, enc, r.vxr_head, r.vxr_vec@)
    }

    fn decode_be(d: &mut Decoder) -> (r: Result<Self, DecodeError>)
        ensures
            old(d).fits(vdr_head_len(old(d).v3())) && vdr_error(
                old(d).data@,
                old(d).pos as int,
                old(d).v3(),
                RecordKind::Rvdr,
                3i32,
            ) is None && name_ok(old(d).data@, old(d).pos + 5 * old(d).ow() + 44, old(d).v3())
                && old(d).context.size_r_dims is None ==> r == Err::<Self, DecodeError>(
                DecodeError::MissingContext(ContextField::RDims),
            ),
            r matches Ok(x) ==> {
                let sz = old(d).context.r_dims().unwrap();
                let len = x.num_elements * active_size(sz, x.dim_variances@);
                &&& old(d).context.r_dims() is Some
                &&& x.dim_variances@.len() == sz.len()
                &&& x.num_elements >= 0 && sizes_nonneg(sz, x.dim_variances@) && len <= MAX_DATA_LEN
                &&& forall|j: int|
                    0 <= j < x.vxr_vec@.len() ==> tree_at(
                        old(d).data@,
                        old(d).v3(),
                        old(d).context.encoding,
                        Some(x.data_type),
                        Some(len as i32),
                        #[trigger] x.vxr_vec@[j],
                        old(d).data@.len(),
                    )
            },
    {
        let h = decode_vdr_head(d, RecordKind::Rvdr, 3)?;
        let sizes = match &d.context.size_r_dims {
            Some(v) => copy_sizes(v),
            None => {
                return Err(DecodeError::MissingContext(ContextField::RDims));
            },
        };
        let dim_variances = decode_variances(d, sizes.len())?;
        proof {
            assert(dim_variances@ =~= rdim_varys(d.data@, old(d).pos as int, old(d).v3(), sizes@.len() as int));
        }
        let flags = RVariableFlags {
            variance: (h.flags & 1) != 0,
            has_padding: (h.flags & 2) != 0,
            is_compressed: (h.flags & 4) != 0,
        };
        let pad_value = decode_pad(d, flags.has_padding, h.data_type, h.num_elements)?;
        let len = data_len(h.num_elements, &sizes, &dim_variances)?;
        d.context.var_data_type = Some(h.data_type);
        d.context.var_data_len = Some(len);
        let vxr_vec = decode_vxr_list(d, h.vxr_head)?;
        Ok(RVariableDescriptorRecord {
            record_size: h.record_size,
            record_type: 3,
            rvdr_next: h.next,
            data_type: h.data_type,
            max_record: h.max_record,
            vxr_head: h.vxr_head,
            vxr_tail: h.vxr_tail,
            flags,
            sparse_records: h.sparse_records,
            rfu_b: 0,
            rfu_c: -1,
            rfu_f: -1,
            num_elements: h.num_elements,
            num: h.num,
            cpr_spr_offset: h.cpr_spr_offset,
            blocking_factor: h.blocking_factor,
            name: h.name,
            dim_variances,
            pad_value,
            vxr_vec,
        })
    }
}

impl RecordList for RVariableDescriptorRecord {
    open spec fn spec_next(&self) -> Option<i64> {
        self.rvdr_next
    }

    proof fn lemma_next(s: Seq<u8>, p: int, v3: bool, enc: Option<Encoding>, x: Self) {
    }

    fn next_record(&self) -> (r: Option<i64>) {
        self.rvdr_next
    }
}

} // verus!
