use vstd::prelude::*;

use crate::bytes::i4_at;
use crate::decode::{offset_at, offset_width, Decoder};
use crate::error::{DecodeError, Field, RecordKind};
use crate::record::adr::list_at;
use crate::record::collection::{
    link_at, nonzero, not_minus_one, read_record_header, tag_error, Decodable, RecordList,
};
use crate::record::cvvr::CompressedVariableValuesRecord;
use crate::record::vvr::{vvr_ok, VariableValuesRecord};
use crate::repr::Encoding;

verus! {

/// A record-number field where -1 means "none".
pub open spec fn opt_i32(x: int) -> Option<i32> {
    if x == -1 {
        None
    } else {
        Some(x as i32)
    }
}

/// How many entries of `v` are there.
pub open spec fn count_present(v: Seq<Option<i64>>) -> nat
    decreases v.len(),
{
    if v.len() == 0 {
        0
    } else {
        count_present(v.drop_last()) + if v.last() is Some {
            1nat
        } else {
            0nat
        }
    }
}

/// Stores the contents of a Variable Index Record, which gives the file
/// offsets of lower-level VXRs, VVRs or CVVRs.
#[derive(Debug)]
pub struct VariableIndexRecord {
    /// Size of this record in bytes.
    pub record_size: i64,
    /// The type of record as defined in the CDF specification as an integer.
    pub record_type: i32,
    /// File offset of the next VXR.
    pub vxr_next: Option<i64>,
    /// Number of entries in this VXR.
    pub num_entries: i32,
    /// Number of entries in use.
    pub num_used_entries: i32,
    /// Number of the first variable record under each entry.
    pub first_vec: Vec<Option<i32>>,
    /// Number of the last variable record under each entry.
    pub last_vec: Vec<Option<i32>>,
    /// File offset of the record under each entry.
    pub offset_vec: Vec<Option<i64>>,
    /// The records under the entries.
    pub children: Vec<Option<VariableIndexRecordChild>>,
}

/// The record that an index entry points to.
#[derive(Debug)]
pub enum VariableIndexRecordChild {
    /// A Variable Values Record.
    VVR(VariableValuesRecord),
    /// A Compressed Variable Values Record.
    CVVR(CompressedVariableValuesRecord),
    /// A lower-level Variable Index Record.
    VXR(VariableIndexRecord),
}

/// Where the entry arrays of a VXR at `p` begin.
pub open spec fn entries_start(p: int, v3: bool) -> int {
    p + 2 * offset_width(v3) + 12
}

/// The fields of `r` are those of the VXR at `p`, and its entries agree
/// with one another: first, last and offset are there together, and as many
/// offsets are there as the VXR says it uses.
pub open spec fn vxr_fields(s: Seq<u8>, p: int, v3: bool, r: VariableIndexRecord) -> bool {
    let w = offset_width(v3);
    let q = entries_start(p, v3);
    let n = r.num_entries as int;
    &&& r.record_size == offset_at(s, p, v3)
    &&& r.record_type == 6
    &&& r.vxr_next == nonzero(offset_at(s, p + w + 4, v3))
    &&& r.num_entries == i4_at(s, p + 2 * w + 4)
    &&& r.num_used_entries == i4_at(s, p + 2 * w + 8)
    &&& n >= 0
    &&& r.first_vec@.len() == n && r.last_vec@.len() == n && r.offset_vec@.len() == n
    &&& r.children@.len() == n
    &&& forall|i: int| 0 <= i < n ==> #[trigger] r.first_vec@[i] == opt_i32(i4_at(s, q + 4 * i))
    &&& forall|i: int| 0 <= i < n ==> #[trigger] r.last_vec@[i] == opt_i32(i4_at(s, q + 4 * n + 4 * i))
    &&& forall|i: int|
        0 <= i < n ==> #[trigger] r.offset_vec@[i] == not_minus_one(offset_at(s, q + 8 * n + w * i, v3))
    &&& forall|i: int|
        0 <= i < n ==> (#[trigger] r.offset_vec@[i] is Some) == (r.first_vec@[i] is Some) && (
        r.offset_vec@[i] is Some) == (r.last_vec@[i] is Some)
    &&& count_present(r.offset_vec@) == r.num_used_entries
    &&& used_first(r.offset_vec@, r.num_used_entries as int)
}

/// `c` is the record at `p`, under an entry that covers `nrec` variable records.
pub open spec fn child_at(s: Seq<u8>, p: int, v3: bool, enc: Option<Encoding>, nrec: int, c: VariableIndexRecordChild) -> bool {
    let tag = i4_at(s, p + offset_width(v3));
    match c {
        VariableIndexRecordChild::VXR(x) => tag == 6 && vxr_fields(s, p, v3, x),
        VariableIndexRecordChild::VVR(x) => tag == 7 && VariableValuesRecord::decoded(s, p, v3, enc, x)
            && x.records@.len() == nrec,
        VariableIndexRecordChild::CVVR(x) => tag == 13 && CompressedVariableValuesRecord::decoded(
            s,
            p,
            v3,
            enc,
            x,
        ),
    }
}

/// `c` is the record at `p` under an entry covering `nrec` records, and,
/// down to `depth` levels of VXR, every record of values under it holds
/// `n` values of type `t`.
pub open spec fn node_at(
    s: Seq<u8>,
    p: int,
    v3: bool,
    enc: Option<Encoding>,
    t: Option<i32>,
    n: Option<i32>,
    nrec: int,
    c: VariableIndexRecordChild,
    depth: nat,
) -> bool
    decreases depth, 0nat,
{
    &&& child_at(s, p, v3, enc, nrec, c)
    &&& values_typed(c, t, n)
    &&& c matches VariableIndexRecordChild::VXR(x) ==> depth > 0 && tree_at(s, v3, enc, t, n, x, (depth - 1) as nat)
}

/// The records under the entries of `x` are those its offsets point to,
/// each described by `node_at`.
pub open spec fn tree_at(
    s: Seq<u8>,
    v3: bool,
    enc: Option<Encoding>,
    t: Option<i32>,
    n: Option<i32>,
    x: VariableIndexRecord,
    depth: nat,
) -> bool
    decreases depth, 1nat,
{
    forall|i: int|
        0 <= i < x.children@.len() && (#[trigger] x.children@[i]) is Some ==> node_at(
            s,
            x.offset_vec@[i].unwrap() as int,
            v3,
            enc,
            t,
            n,
            x.last_vec@[i].unwrap() - x.first_vec@[i].unwrap() + 1,
            x.children@[i].unwrap(),
            depth,
        )
}

/// Every record of values in `c` has the data type and length `t` and `n`.
pub open spec fn values_typed(c: VariableIndexRecordChild, t: Option<i32>, n: Option<i32>) -> bool {
    c matches VariableIndexRecordChild::VVR(x) ==> forall|j: int|
        0 <= j < x.records@.len() ==> t == Some(#[trigger] x.records@[j].data_type) && n == Some(
            x.records@[j].data_len,
        )
}

/// The children of `r` are the records its entries point to.
pub open spec fn children_at(s: Seq<u8>, v3: bool, enc: Option<Encoding>, r: VariableIndexRecord) -> bool {
    forall|i: int|
        0 <= i < r.children@.len() ==> (#[trigger] r.children@[i] is Some) == (r.offset_vec@[i] is Some)
            && (r.children@[i] is Some ==> child_at(
            s,
            r.offset_vec@[i].unwrap() as int,
            v3,
            enc,
            r.last_vec@[i].unwrap() - r.first_vec@[i].unwrap() + 1,
            r.children@[i].unwrap(),
        ))
}

/// Number of entries of the VXR at `p`.
pub open spec fn entry_count(s: Seq<u8>, p: int, v3: bool) -> int {
    i4_at(s, p + 2 * offset_width(v3) + 4)
}

/// First record number of entry `i` of the VXR at `p`.
pub open spec fn entry_first(s: Seq<u8>, p: int, v3: bool, i: int) -> Option<i32> {
    opt_i32(i4_at(s, entries_start(p, v3) + 4 * i))
}

/// Last record number of entry `i` of the VXR at `p`.
pub open spec fn entry_last(s: Seq<u8>, p: int, v3: bool, i: int) -> Option<i32> {
    opt_i32(i4_at(s, entries_start(p, v3) + 4 * entry_count(s, p, v3) + 4 * i))
}

/// File offset of entry `i` of the VXR at `p`.
pub open spec fn entry_offset(s: Seq<u8>, p: int, v3: bool, i: int) -> Option<i64> {
    not_minus_one(
        offset_at(s, entries_start(p, v3) + 8 * entry_count(s, p, v3) + offset_width(v3) * i, v3),
    )
}

/// The offsets of all entries of the VXR at `p`.
pub open spec fn entry_offsets(s: Seq<u8>, p: int, v3: bool) -> Seq<Option<i64>> {
    Seq::new(entry_count(s, p, v3) as nat, |i: int| entry_offset(s, p, v3, i))
}

/// The record at `off`, under an entry covering `nrec` records of `n`
/// values of type `t`, is whole and well formed; a VXR there may go
/// `depth` levels further down.
pub open spec fn child_ok(
    s: Seq<u8>,
    off: int,
    v3: bool,
    enc: Option<Encoding>,
    t: Option<i32>,
    n: Option<i32>,
    nrec: int,
    depth: nat,
) -> bool
    decreases depth, 0nat,
{
    let tag = i4_at(s, off + offset_width(v3));
    &&& nrec >= 0
    &&& 0 <= off && off + offset_width(v3) + 4 <= s.len()
    &&& (tag == 6 && depth > 0 && vxr_ok(s, off, v3, enc, t, n, (depth - 1) as nat)) || (tag == 7
        && vvr_ok(s, off, v3, enc, t, n, nrec)) || (tag == 13 && off
        + CompressedVariableValuesRecord::fixed_len(v3) <= s.len()
        && CompressedVariableValuesRecord::fixed_error(s, off, v3) is None
        && CompressedVariableValuesRecord::complete(s, off, v3, enc, None))
}

/// The entries of the VXR at `p` are there and agree with one another, and
/// each record they point to is whole and well formed.
pub open spec fn entries_ok(s: Seq<u8>, p: int, v3: bool, enc: Option<Encoding>, t: Option<i32>, n: Option<i32>, depth: nat) -> bool
    decreases depth, 1nat,
{
    let w = offset_width(v3);
    let ne = entry_count(s, p, v3);
    &&& ne >= 0 && entries_start(p, v3) + ne * (8 + w) <= s.len()
    &&& forall|i: int|
        0 <= i < ne ==> (#[trigger] entry_offset(s, p, v3, i) is Some) == (entry_first(s, p, v3, i) is Some)
            && (entry_offset(s, p, v3, i) is Some) == (entry_last(s, p, v3, i) is Some)
    &&& count_present(entry_offsets(s, p, v3)) == i4_at(s, p + 2 * w + 8)
    &&& forall|i: int| 0 <= i < i4_at(s, p + 2 * w + 8) && i < ne ==> (#[trigger] entry_offset(s, p, v3, i)) is Some
    &&& forall|i: int|
        0 <= i < ne && (#[trigger] entry_offset(s, p, v3, i)) is Some ==> child_ok(
            s,
            entry_offset(s, p, v3, i).unwrap() as int,
            v3,
            enc,
            t,
            n,
            entry_last(s, p, v3, i).unwrap() - entry_first(s, p, v3, i).unwrap() + 1,
            depth,
        )
}

/// The VXR at `p` is whole and well formed, and so is the tree of records
/// under it, at most `depth` levels of VXR further down.
pub open spec fn vxr_ok(s: Seq<u8>, p: int, v3: bool, enc: Option<Encoding>, t: Option<i32>, n: Option<i32>, depth: nat) -> bool
    decreases depth, 2nat,
{
    &&& p + 2 * offset_width(v3) + 12 <= s.len()
    &&& tag_error(s, p, v3, RecordKind::Vxr, 6i32) is None
    &&& entries_ok(s, p, v3, enc, t, n, depth)
}

/// A tree that is well formed without knowing the variable's data type and
/// length (its entries cover no records) is well formed whatever they are.
pub proof fn lemma_vxr_ok_any(s: Seq<u8>, p: int, v3: bool, enc: Option<Encoding>, t: Option<i32>, n: Option<i32>, depth: nat)
    requires
        vxr_ok(s, p, v3, enc, None, None, depth),
    ensures
        vxr_ok(s, p, v3, enc, t, n, depth),
    decreases depth, 2nat,
{
    let ne = entry_count(s, p, v3);
    assert forall|i: int| 0 <= i < ne && (#[trigger] entry_offset(s, p, v3, i)) is Some implies child_ok(
        s,
        entry_offset(s, p, v3, i).unwrap() as int,
        v3,
        enc,
        t,
        n,
        entry_last(s, p, v3, i).unwrap() - entry_first(s, p, v3, i).unwrap() + 1,
        depth,
    ) by {
        lemma_child_ok_any(
            s,
            entry_offset(s, p, v3, i).unwrap() as int,
            v3,
            enc,
            t,
            n,
            entry_last(s, p, v3, i).unwrap() - entry_first(s, p, v3, i).unwrap() + 1,
            depth,
        );
    }
}

/// The record under one entry, as `lemma_vxr_ok_any`.
pub proof fn lemma_child_ok_any(
    s: Seq<u8>,
    off: int,
    v3: bool,
    enc: Option<Encoding>,
    t: Option<i32>,
    n: Option<i32>,
    nrec: int,
    depth: nat,
)
    requires
        child_ok(s, off, v3, enc, None, None, nrec, depth),
    ensures
        child_ok(s, off, v3, enc, t, n, nrec, depth),
    decreases depth, 0nat,
{
    let tag = i4_at(s, off + offset_width(v3));
    if tag == 6 && depth > 0 && vxr_ok(s, off, v3, enc, None, None, (depth - 1) as nat) {
        lemma_vxr_ok_any(s, off, v3, enc, t, n, (depth - 1) as nat);
    }
}

/// The VXR at `p` passes every check on its entries but the one on record
/// counts: its header and entries are there, first, last and offset come
/// together, and exactly the first `num_used_entries` entries are used.
pub open spec fn entries_shaped(s: Seq<u8>, p: int, v3: bool) -> bool {
    let w = offset_width(v3);
    let ne = entry_count(s, p, v3);
    let nu = i4_at(s, p + 2 * w + 8);
    &&& p + 2 * w + 12 <= s.len()
    &&& tag_error(s, p, v3, RecordKind::Vxr, 6i32) is None
    &&& ne >= 0 && entries_start(p, v3) + ne * (8 + w) <= s.len()
    &&& forall|i: int|
        0 <= i < ne ==> (#[trigger] entry_offset(s, p, v3, i) is Some) == (entry_first(s, p, v3, i) is Some)
            && (entry_offset(s, p, v3, i) is Some) == (entry_last(s, p, v3, i) is Some)
    &&& count_present(entry_offsets(s, p, v3)) == nu
    &&& forall|i: int| 0 <= i < nu && i < ne ==> (#[trigger] entry_offset(s, p, v3, i)) is Some
}

/// Some used entry of the VXR at `p` covers a negative number of records.
pub open spec fn count_negative(s: Seq<u8>, p: int, v3: bool) -> bool {
    exists|i: int|
        0 <= i < entry_count(s, p, v3) && (#[trigger] entry_offset(s, p, v3, i)) is Some && entry_last(
            s,
            p,
            v3,
            i,
        ).unwrap() - entry_first(s, p, v3, i).unwrap() + 1 < 0
}

/// Reads `n` record numbers, -1 standing for none.
fn read_record_numbers(d: &mut Decoder, n: i32) -> (r: Result<Vec<Option<i32>>, DecodeError>)
    requires
        n >= 0,
    ensures
        final(d).same_input(*old(d)),
        final(d).context == old(d).context,
        r matches Ok(v) ==> v@.len() == n && final(d).pos == old(d).pos + 4 * n
            && forall|i: int| 0 <= i < n ==> #[trigger] v@[i] == opt_i32(i4_at(old(d).data@, old(d).pos + 4 * i)),
        old(d).fits(4 * n) ==> r is Ok,
{
    let ghost d0 = *d;
    let mut v: Vec<Option<i32>> = Vec::new();
    let mut i: i32 = 0;
    while i < n
        invariant
            d0 == *old(d),
            d.same_input(d0),
            d.context == d0.context,
            0 <= i <= n,
            v@.len() == i,
            d.pos == d0.pos + 4 * i,
            forall|j: int| 0 <= j < i ==> #[trigger] v@[j] == opt_i32(i4_at(d0.data@, d0.pos + 4 * j)),
            d0.fits(4 * n) ==> d.fits(4 * (n - i)),
        decreases n - i,
    {
        let x = d.read_i32_be()?;
        v.push(if x == -1 { None } else { Some(x) });
        i = i + 1;
    }
    Ok(v)
}

/// Reads `n` file offsets, -1 standing for none.
fn read_entry_offsets(d: &mut Decoder, n: i32) -> (r: Result<Vec<Option<i64>>, DecodeError>)
    requires
        n >= 0,
    ensures
        final(d).same_input(*old(d)),
        final(d).context == old(d).context,
        r matches Ok(v) ==> v@.len() == n && final(d).pos == old(d).pos + old(d).ow() * n
            && forall|i: int|
            0 <= i < n ==> #[trigger] v@[i] == not_minus_one(
                offset_at(old(d).data@, old(d).pos + old(d).ow() * i, old(d).v3()),
            ),
        old(d).fits(old(d).ow() * n) ==> r is Ok,
{
    let ghost d0 = *d;
    let mut v: Vec<Option<i64>> = Vec::new();
    let mut i: i32 = 0;
    while i < n
        invariant
            d0 == *old(d),
            d.same_input(d0),
            d.context == d0.context,
            0 <= i <= n,
            v@.len() == i,
            d.pos == d0.pos + d0.ow() * i,
            forall|j: int|
                0 <= j < i ==> #[trigger] v@[j] == not_minus_one(
                    offset_at(d0.data@, d0.pos + d0.ow() * j, d0.v3()),
                ),
            d0.fits(d0.ow() * n) ==> d.fits(d0.ow() * (n - i)),
        decreases n - i,
    {
        proof {
            if d0.fits(d0.ow() * n) {
                assert(d0.ow() * (n - i) == d0.ow() + d0.ow() * (n - i - 1)) by (nonlinear_arith);
                assert(d0.ow() * (n - i - 1) >= 0) by (nonlinear_arith)
                    requires
                        d0.ow() >= 0,
                        n - i - 1 >= 0,
                ;
            }
        }
        let x = d.read_offset()?;
        v.push(if x == -1 { None } else { Some(x) });
        proof {
            assert(d.pos == d0.pos + d0.ow() * (i + 1)) by (nonlinear_arith)
                requires
                    d.pos == d0.pos + d0.ow() * i + d0.ow(),
            ;
            if d0.fits(d0.ow() * n) {
                assert(d0.ow() * (n - i) == d0.ow() + d0.ow() * (n - (i + 1))) by (nonlinear_arith);
            }
        }
        i = i + 1;
    }
    Ok(v)
}

/// First, last and offset of each entry are there together.
pub open spec fn entries_matched(first: Seq<Option<i32>>, last: Seq<Option<i32>>, offset: Seq<Option<i64>>) -> bool {
    forall|i: int|
        0 <= i < offset.len() ==> (#[trigger] offset[i] is Some) == (first[i] is Some) && (offset[i] is Some)
            == (last[i] is Some)
}

/// The first `used` entries all have an offset.
pub open spec fn used_first(offset: Seq<Option<i64>>, used: int) -> bool {
    forall|i: int| 0 <= i < used && i < offset.len() ==> (#[trigger] offset[i]) is Some
}

/// Every entry with an offset covers a number of records that is not negative.
pub open spec fn counts_nonneg(first: Seq<Option<i32>>, last: Seq<Option<i32>>, offset: Seq<Option<i64>>) -> bool {
    forall|i: int|
        0 <= i < offset.len() && (#[trigger] offset[i]) is Some ==> last[i].unwrap() - first[i].unwrap()
            + 1 >= 0
}

/// Checks that first, last and offset of each entry are there together,
/// that exactly the first `num_used` entries have an offset, and that each
/// entry covers a number of records that is not negative.
fn check_entries(
    first: &Vec<Option<i32>>,
    last: &Vec<Option<i32>>,
    offset: &Vec<Option<i64>>,
    num_used: i32,
) -> (r: Result<(), DecodeError>)
    requires
        first@.len() == offset@.len(),
        last@.len() == offset@.len(),
    ensures
        r is Ok <==> entries_matched(first@, last@, offset@) && count_present(offset@) == num_used
            && used_first(offset@, num_used as int) && counts_nonneg(first@, last@, offset@),
        entries_matched(first@, last@, offset@) && count_present(offset@) == num_used && !used_first(
            offset@,
            num_used as int,
        ) ==> r == Err::<(), DecodeError>(
            DecodeError::CountMismatch { field: Field::NumUsedEntries, declared: num_used, found: num_used as u64 },
        ),
        entries_matched(first@, last@, offset@) && count_present(offset@) == num_used && used_first(
            offset@,
            num_used as int,
        ) && !counts_nonneg(first@, last@, offset@) ==> r == Err::<(), DecodeError>(
            DecodeError::IntegerOutOfRange(Field::NumRecords),
        ),
{
    let mut count: u64 = 0;
    let mut i: usize = 0;
    while i < offset.len()
        invariant
            first@.len() == offset@.len(),
            last@.len() == offset@.len(),
            i <= offset@.len(),
            count == count_present(offset@.take(i as int)),
            count <= i,
            forall|j: int|
                0 <= j < i ==> (#[trigger] offset@[j] is Some) == (first@[j] is Some) && (
                offset@[j] is Some) == (last@[j] is Some),
        decreases offset@.len() - i,
    {
        if offset[i].is_some() != first[i].is_some() || offset[i].is_some() != last[i].is_some() {
            return Err(DecodeError::UnmatchedIndexEntry(i as u64));
        }
        if offset[i].is_some() {
            count = count + 1;
        }
        i = i + 1;
        assert(offset@.take(i as int).drop_last() =~= offset@.take(i - 1));
    }
    assert(offset@.take(i as int) =~= offset@);
    if num_used < 0 || count != num_used as u64 {
        return Err(DecodeError::CountMismatch { field: Field::NumUsedEntries, declared: num_used, found: count });
    }
    let mut k: usize = 0;
    while k < num_used as usize
        invariant
            0 <= num_used,
            num_used as int <= offset@.len(),
            count == num_used as u64,
            count_present(offset@) == num_used,
            k <= num_used,
            forall|j: int| 0 <= j < k ==> (#[trigger] offset@[j]) is Some,
        decreases num_used - k,
    {
        if offset[k].is_none() {
            return Err(
                DecodeError::CountMismatch { field: Field::NumUsedEntries, declared: num_used, found: count },
            );
        }
        k = k + 1;
    }
    let mut m: usize = 0;
    while m < offset.len()
        invariant
            first@.len() == offset@.len(),
            last@.len() == offset@.len(),
            entries_matched(first@, last@, offset@),
            count_present(offset@) == num_used,
            used_first(offset@, num_used as int),
            m <= offset@.len(),
            forall|j: int|
                0 <= j < m && (#[trigger] offset@[j]) is Some ==> last@[j].unwrap() - first@[j].unwrap() + 1 >= 0,
        decreases offset@.len() - m,
    {
        match (offset[m], first[m], last[m]) {
            (Some(_), Some(f), Some(l)) => {
                if (l as i64) - (f as i64) + 1 < 0 {
                    return Err(DecodeError::IntegerOutOfRange(Field::NumRecords));
                }
            },
            _ => {},
        }
        m = m + 1;
    }
    Ok(())
}

impl VariableIndexRecord {
    /// Decodes the VXR at the cursor and the records under it, going at most
    /// `depth` levels of VXR further down.
    pub fn decode_at_depth(d: &mut Decoder, depth: usize) -> (r: Result<VariableIndexRecord, DecodeError>)
        ensures
            final(d).same_input(*old(d)),
            final(d).context.encoding == old(d).context.encoding,
            final(d).context.var_data_type == old(d).context.var_data_type,
            final(d).context.var_data_len == old(d).context.var_data_len,
            final(d).context.size_r_dims == old(d).context.size_r_dims,
            r matches Ok(x) ==> vxr_fields(old(d).data@, old(d).pos as int, old(d).v3(), x)
                && children_at(old(d).data@, old(d).v3(), old(d).context.encoding, x)
                && forall|i: int| 0 <= i < x.children@.len() && (#[trigger] x.children@[i]) is Some
                    ==> values_typed(x.children@[i].unwrap(), old(d).context.var_data_type, old(d).context.var_data_len),
            old(d).fits(old(d).ow() + 4) && tag_error(old(d).data@, old(d).pos as int, old(d).v3(), RecordKind::Vxr, 6i32) is Some
                ==> r == Err::<VariableIndexRecord, DecodeError>(
                tag_error(old(d).data@, old(d).pos as int, old(d).v3(), RecordKind::Vxr, 6i32).unwrap(),
            ),
            !old(d).fits(2 * old(d).ow() + 12) ==> r is Err,
            vxr_ok(
                old(d).data@,
                old(d).pos as int,
                old(d).v3(),
                old(d).context.encoding,
                old(d).context.var_data_type,
                old(d).context.var_data_len,
                depth as nat,
            ) ==> r is Ok,
            r matches Ok(x) ==> tree_at(
                old(d).data@,
                old(d).v3(),
                old(d).context.encoding,
                old(d).context.var_data_type,
                old(d).context.var_data_len,
                x,
                depth as nat,
            ),
            old(d).fits(2 * old(d).ow() + 12) && tag_error(old(d).data@, old(d).pos as int, old(d).v3(), RecordKind::Vxr, 6i32) is None
                && entry_count(old(d).data@, old(d).pos as int, old(d).v3()) < 0 ==> r == Err::<
                VariableIndexRecord,
                DecodeError,
            >(DecodeError::IntegerOutOfRange(Field::NumEntries)),
            entries_shaped(old(d).data@, old(d).pos as int, old(d).v3()) && count_negative(
                old(d).data@,
                old(d).pos as int,
                old(d).v3(),
            ) ==> r == Err::<VariableIndexRecord, DecodeError>(DecodeError::IntegerOutOfRange(Field::NumRecords)),
        decreases depth, 2usize,
    {
        let ghost d0 = *d;
        let record_size = read_record_header(d, RecordKind::Vxr, 6)?;
        let next = d.read_offset()?;
        let num_entries = d.read_i32_be()?;
        let num_used_entries = d.read_i32_be()?;
        if num_entries < 0 {
            return Err(DecodeError::IntegerOutOfRange(Field::NumEntries));
        }
        let ghost s = d0.data@;
        let ghost p = d0.pos as int;
        let ghost v3 = d0.v3();
        let ghost ok = vxr_ok(s, p, v3, d0.context.encoding, d0.context.var_data_type, d0.context.var_data_len, depth as nat);
        assert(d.pos == entries_start(p, v3));
        assert(num_entries == entry_count(s, p, v3));
        let ghost sh = entries_shaped(s, p, v3) && count_negative(s, p, v3);
        proof {
            if ok {
                assert(entries_ok(s, p, v3, d0.context.encoding, d0.context.var_data_type, d0.context.var_data_len, depth as nat));
            }
            if ok || sh {
                assert(4 * num_entries <= num_entries * (8 + d0.ow())) by (nonlinear_arith)
                    requires
                        num_entries >= 0,
                        d0.ow() >= 0,
                ;
            }
        }
        let first_vec = read_record_numbers(d, num_entries)?;
        let last_vec = read_record_numbers(d, num_entries)?;
        proof {
            if ok || sh {
                assert(8 * num_entries + d0.ow() * num_entries == num_entries * (8 + d0.ow())) by (nonlinear_arith);
            }
        }
        let offset_vec = read_entry_offsets(d, num_entries)?;
        proof {
            assert forall|j: int| 0 <= j < num_entries implies #[trigger] offset_vec@[j] == entry_offset(s, p, v3, j)
                && first_vec@[j] == entry_first(s, p, v3, j) && last_vec@[j] == entry_last(s, p, v3, j) by {}
            if ok {
                assert(offset_vec@ =~= entry_offsets(s, p, v3));
                assert(used_first(offset_vec@, num_used_entries as int));
                assert(counts_nonneg(first_vec@, last_vec@, offset_vec@));
                assert forall|j: int| 0 <= j < offset_vec@.len() && (#[trigger] offset_vec@[j]) is Some
                    implies first_vec@[j] is Some && last_vec@[j] is Some && child_ok(
                    s,
                    offset_vec@[j].unwrap() as int,
                    v3,
                    d0.context.encoding,
                    d0.context.var_data_type,
                    d0.context.var_data_len,
                    last_vec@[j].unwrap() - first_vec@[j].unwrap() + 1,
                    depth as nat,
                ) by {
                    assert(entry_offset(s, p, v3, j) is Some);
                }
            }
            if sh {
                assert(offset_vec@ =~= entry_offsets(s, p, v3));
                assert(entries_matched(first_vec@, last_vec@, offset_vec@));
                assert(used_first(offset_vec@, num_used_entries as int));
                let i = choose|i: int|
                    0 <= i < entry_count(s, p, v3) && (#[trigger] entry_offset(s, p, v3, i)) is Some && entry_last(
                        s,
                        p,
                        v3,
                        i,
                    ).unwrap() - entry_first(s, p, v3, i).unwrap() + 1 < 0;
                assert(offset_vec@[i] is Some);
                assert(!counts_nonneg(first_vec@, last_vec@, offset_vec@));
            }
        }
        check_entries(&first_vec, &last_vec, &offset_vec, num_used_entries)?;
        assert(count_present(offset_vec@) == num_used_entries);
        let children = Self::decode_children(d, &first_vec, &last_vec, &offset_vec, depth)?;
        Ok(VariableIndexRecord {
            record_size,
            record_type: 6,
            vxr_next: if next != 0 { Some(next) } else { None },
            num_entries,
            num_used_entries,
            first_vec,
            last_vec,
            offset_vec,
            children,
        })
    }
}

impl VariableIndexRecord {
    /// Decodes the records that the entries point to, in order; none for an
    /// entry without an offset.
    fn decode_children(
        d: &mut Decoder,
        first_vec: &Vec<Option<i32>>,
        last_vec: &Vec<Option<i32>>,
        offset_vec: &Vec<Option<i64>>,
        depth: usize,
    ) -> (r: Result<Vec<Option<VariableIndexRecordChild>>, DecodeError>)
        requires
            first_vec@.len() == offset_vec@.len(),
            last_vec@.len() == offset_vec@.len(),
        ensures
            final(d).same_input(*old(d)),
            final(d).context.encoding == old(d).context.encoding,
            final(d).context.var_data_type == old(d).context.var_data_type,
            final(d).context.var_data_len == old(d).context.var_data_len,
            final(d).context.size_r_dims == old(d).context.size_r_dims,
            r matches Ok(children) ==> children@.len() == offset_vec@.len() && forall|j: int|
                0 <= j < children@.len() ==> (#[trigger] children@[j] is Some) == (offset_vec@[j] is Some)
                    && (children@[j] is Some ==> child_at(
                    old(d).data@,
                    offset_vec@[j].unwrap() as int,
                    old(d).v3(),
                    old(d).context.encoding,
                    last_vec@[j].unwrap() - first_vec@[j].unwrap() + 1,
                    children@[j].unwrap(),
                ) && values_typed(children@[j].unwrap(), old(d).context.var_data_type, old(d).context.var_data_len)
                    && node_at(
                    old(d).data@,
                    offset_vec@[j].unwrap() as int,
                    old(d).v3(),
                    old(d).context.encoding,
                    old(d).context.var_data_type,
                    old(d).context.var_data_len,
                    last_vec@[j].unwrap() - first_vec@[j].unwrap() + 1,
                    children@[j].unwrap(),
                    depth as nat,
                )),
            (forall|j: int|
                0 <= j < offset_vec@.len() && (#[trigger] offset_vec@[j]) is Some ==> first_vec@[j] is Some
                    && last_vec@[j] is Some && child_ok(
                    old(d).data@,
                    offset_vec@[j].unwrap() as int,
                    old(d).v3(),
                    old(d).context.encoding,
                    old(d).context.var_data_type,
                    old(d).context.var_data_len,
                    last_vec@[j].unwrap() - first_vec@[j].unwrap() + 1,
                    depth as nat,
                )) ==> r is Ok,
        decreases depth, 1usize,
    {
        let ghost d0 = *d;
        let ghost ok = forall|j: int|
            0 <= j < offset_vec@.len() && (#[trigger] offset_vec@[j]) is Some ==> first_vec@[j] is Some
                && last_vec@[j] is Some && child_ok(
                d0.data@,
                offset_vec@[j].unwrap() as int,
                d0.v3(),
                d0.context.encoding,
                d0.context.var_data_type,
                d0.context.var_data_len,
                last_vec@[j].unwrap() - first_vec@[j].unwrap() + 1,
                depth as nat,
            );
        let mut children: Vec<Option<VariableIndexRecordChild>> = Vec::new();
        let mut i: usize = 0;
        let n = offset_vec.len();
        while i < n
            invariant
                d0 == *old(d),
                d.same_input(d0),
                d.context.encoding == d0.context.encoding,
                d.context.var_data_type == d0.context.var_data_type,
                d.context.var_data_len == d0.context.var_data_len,
                d.context.size_r_dims == d0.context.size_r_dims,
                n == offset_vec@.len(),
                first_vec@.len() == n,
                last_vec@.len() == n,
                i <= n,
                children@.len() == i,
                ok ==> forall|j: int|
                    0 <= j < n && (#[trigger] offset_vec@[j]) is Some ==> first_vec@[j] is Some
                        && last_vec@[j] is Some && child_ok(
                        d0.data@,
                        offset_vec@[j].unwrap() as int,
                        d0.v3(),
                        d0.context.encoding,
                        d0.context.var_data_type,
                        d0.context.var_data_len,
                        last_vec@[j].unwrap() - first_vec@[j].unwrap() + 1,
                        depth as nat,
                    ),
                forall|j: int|
                    0 <= j < i ==> (#[trigger] children@[j] is Some) == (offset_vec@[j] is Some)
                        && (children@[j] is Some ==> child_at(
                        d0.data@,
                        offset_vec@[j].unwrap() as int,
                        d0.v3(),
                        d0.context.encoding,
                        last_vec@[j].unwrap() - first_vec@[j].unwrap() + 1,
                        children@[j].unwrap(),
                    ) && values_typed(children@[j].unwrap(), d0.context.var_data_type, d0.context.var_data_len)
                        && node_at(
                        d0.data@,
                        offset_vec@[j].unwrap() as int,
                        d0.v3(),
                        d0.context.encoding,
                        d0.context.var_data_type,
                        d0.context.var_data_len,
                        last_vec@[j].unwrap() - first_vec@[j].unwrap() + 1,
                        children@[j].unwrap(),
                        depth as nat,
                    )),
            decreases n - i,
        {
            match offset_vec[i] {
                Some(off) => {
                    let first = match first_vec[i] {
                        Some(f) => f,
                        None => {
                            return Err(DecodeError::UnmatchedIndexEntry(i as u64));
                        },
                    };
                    let last = match last_vec[i] {
                        Some(l) => l,
                        None => {
                            return Err(DecodeError::UnmatchedIndexEntry(i as u64));
                        },
                    };
                    let num_records = last as i64 - first as i64 + 1;
                    if num_records < 0 {
                        return Err(DecodeError::IntegerOutOfRange(Field::NumRecords));
                    }
                    d.context.num_records = Some(num_records as u64);
                    proof {
                        if ok {
                            assert(offset_vec@[i as int] is Some);
                            assert(child_ok(d0.data@, off as int, d0.v3(), d0.context.encoding,
                                d0.context.var_data_type, d0.context.var_data_len, last - first + 1, depth as nat));
                            assert(d.context.num_records.unwrap() as int == last - first + 1);
                        }
                    }
                    d.seek(off)?;
                    let child = VariableIndexRecordChild::decode_at_depth(d, depth)?;
                    children.push(Some(child));
                },
                None => {
                    children.push(None);
                },
            }
            i = i + 1;
        }
        Ok(children)
    }
}

impl VariableIndexRecordChild {
    /// Decodes the record at the cursor, which a VXR entry points to: a VXR,
    /// a VVR or a CVVR, told apart by its type tag. A VXR is read only while
    /// `depth` allows one more level.
    pub fn decode_at_depth(d: &mut Decoder, depth: usize) -> (r: Result<VariableIndexRecordChild, DecodeError>)
        ensures
            final(d).same_input(*old(d)),
            final(d).context.encoding == old(d).context.encoding,
            final(d).context.var_data_type == old(d).context.var_data_type,
            final(d).context.var_data_len == old(d).context.var_data_len,
            final(d).context.size_r_dims == old(d).context.size_r_dims,
            r matches Ok(c) ==> child_at(
                old(d).data@,
                old(d).pos as int,
                old(d).v3(),
                old(d).context.encoding,
                old(d).context.num_records.unwrap() as int,
                c,
            ) && values_typed(c, old(d).context.var_data_type, old(d).context.var_data_len) && node_at(
                old(d).data@,
                old(d).pos as int,
                old(d).v3(),
                old(d).context.encoding,
                old(d).context.var_data_type,
                old(d).context.var_data_len,
                old(d).context.num_records.unwrap() as int,
                c,
                depth as nat,
            ),
            old(d).fits(old(d).ow() + 4) && !(i4_at(old(d).data@, old(d).pos + old(d).ow()) == 6
                || i4_at(old(d).data@, old(d).pos + old(d).ow()) == 7
                || i4_at(old(d).data@, old(d).pos + old(d).ow()) == 13) ==> r == Err::<VariableIndexRecordChild, DecodeError>(
                DecodeError::BadRecordType {
                    record: RecordKind::Vvr,
                    expected: 7,
                    actual: i4_at(old(d).data@, old(d).pos + old(d).ow()) as i32,
                },
            ),
            old(d).context.num_records is Some && child_ok(
                old(d).data@,
                old(d).pos as int,
                old(d).v3(),
                old(d).context.encoding,
                old(d).context.var_data_type,
                old(d).context.var_data_len,
                old(d).context.num_records.unwrap() as int,
                depth as nat,
            ) ==> r is Ok,
        decreases depth, 0usize,
    {
        let start = d.pos;
        let _ = d.read_offset()?;
        let tag = d.read_i32_be()?;
        d.pos = start;
        if tag == 6 {
            if depth == 0 {
                return Err(DecodeError::OffsetCycle);
            }
            let x = VariableIndexRecord::decode_at_depth(d, depth - 1)?;
            assert(((depth as nat) - 1) as nat == (depth - 1) as nat);
            Ok(VariableIndexRecordChild::VXR(x))
        } else if tag == 7 {
            let x = VariableValuesRecord::decode_records(d)?;
            Ok(VariableIndexRecordChild::VVR(x))
        } else if tag == 13 {
            let x = CompressedVariableValuesRecord::decode_block(d)?;
            Ok(VariableIndexRecordChild::CVVR(x))
        } else {
            Err(DecodeError::BadRecordType { record: RecordKind::Vvr, expected: 7, actual: tag })
        }
    }
}

impl Decodable for VariableIndexRecord {
    open spec fn fixed_len(v3: bool) -> int {
        2 * offset_width(v3) + 12
    }

    open spec fn fixed_error(s: Seq<u8>, p: int, v3: bool) -> Option<DecodeError> {
        tag_error(s, p, v3, RecordKind::Vxr, 6i32)
    }

    open spec fn complete(s: Seq<u8>, p: int, v3: bool, enc: Option<Encoding>, rdims: Option<Seq<i32>>) -> bool {
        vxr_ok(s, p, v3, enc, None, None, s.len())
    }

    open spec fn decoded(s: Seq<u8>, p: int, v3: bool, enc: Option<Encoding>, r: Self) -> bool {
        vxr_fields(s, p, v3, r) && children_at(s, v3, enc, r)
    }

    fn decode_be(d: &mut Decoder) -> (r: Result<Self, DecodeError>)
        ensures
            vxr_ok(
                old(d).data@,
                old(d).pos as int,
                old(d).v3(),
                old(d).context.encoding,
                old(d).context.var_data_type,
                old(d).context.var_data_len,
                old(d).data@.len(),
            ) ==> r is Ok,
            r matches Ok(x) ==> forall|i: int|
                0 <= i < x.children@.len() && (#[trigger] x.children@[i]) is Some ==> values_typed(
                    x.children@[i].unwrap(),
                    old(d).context.var_data_type,
                    old(d).context.var_data_len,
                ),
            r matches Ok(x) ==> tree_at(
                old(d).data@,
                old(d).v3(),
                old(d).context.encoding,
                old(d).context.var_data_type,
                old(d).context.var_data_len,
                x,
                old(d).data@.len(),
            ),
            old(d).fits(2 * old(d).ow() + 12) && tag_error(old(d).data@, old(d).pos as int, old(d).v3(), RecordKind::Vxr, 6i32) is None
                && entry_count(old(d).data@, old(d).pos as int, old(d).v3()) < 0 ==> r == Err::<Self, DecodeError>(
                DecodeError::IntegerOutOfRange(Field::NumEntries),
            ),
            entries_shaped(old(d).data@, old(d).pos as int, old(d).v3()) && count_negative(
                old(d).data@,
                old(d).pos as int,
                old(d).v3(),
            ) ==> r == Err::<Self, DecodeError>(DecodeError::IntegerOutOfRange(Field::NumRecords)),
    {
        let depth = d.data.len();
        proof {
            if vxr_ok(d.data@, d.pos as int, d.v3(), d.context.encoding, None, None, d.data@.len()) {
                lemma_vxr_ok_any(
                    d.data@,
                    d.pos as int,
                    d.v3(),
                    d.context.encoding,
                    d.context.var_data_type,
                    d.context.var_data_len,
                    d.data@.len(),
                );
            }
        }
        Self::decode_at_depth(d, depth)
    }
}

impl RecordList for VariableIndexRecord {
    open spec fn spec_next(&self) -> Option<i64> {
        self.vxr_next
    }

    proof fn lemma_next(s: Seq<u8>, p: int, v3: bool, enc: Option<Encoding>, x: Self) {
    }

    fn next_record(&self) -> (r: Option<i64>) {
        self.vxr_next
    }
}

/// A VXR holds as many present offsets as it says it uses, and each present
/// offset comes with its first and last record numbers.
pub proof fn lemma_used_entries(s: Seq<u8>, p: int, v3: bool, x: VariableIndexRecord)
    requires
        vxr_fields(s, p, v3, x),
    ensures
        count_present(x.offset_vec@) == x.num_used_entries,
        forall|i: int|
            0 <= i < x.offset_vec@.len() && (#[trigger] x.offset_vec@[i]) is Some ==> x.first_vec@[i] is Some
                && x.last_vec@[i] is Some,
{
}

/// The list of VXRs that starts at `head` ends within `fuel` records, and
/// each VXR there heads a well-formed tree.
pub open spec fn vxr_chain_ok(
    s: Seq<u8>,
    v3: bool,
    enc: Option<Encoding>,
    t: Option<i32>,
    n: Option<i32>,
    head: i64,
    fuel: nat,
) -> bool
    decreases fuel,
{
    if fuel == 0 {
        false
    } else {
        &&& 0 <= head <= s.len()
        &&& vxr_ok(s, head as int, v3, enc, t, n, s.len())
        &&& match link_at(s, head as int, v3) {
            None => true,
            Some(x) => vxr_chain_ok(s, v3, enc, t, n, x, (fuel - 1) as nat),
        }
    }
}

/// Decodes the list of VXRs that `head` starts, none where there is no
/// head, leaving the variable's data type and length in the context.
#[verifier::rlimit(40)]
pub fn decode_vxr_list(d: &mut Decoder, head: Option<i64>) -> (r: Result<Vec<VariableIndexRecord>, DecodeError>)
    ensures
        final(d).same_input(*old(d)),
        final(d).context.encoding == old(d).context.encoding,
        final(d).context.var_data_type == old(d).context.var_data_type,
        final(d).context.var_data_len == old(d).context.var_data_len,
        final(d).context.size_r_dims == old(d).context.size_r_dims,
        r matches Ok(v) ==> list_at(old(d).data@, old(d).v3(), old(d).context.encoding, head, v@),
        r matches Ok(v) ==> forall|j: int|
            0 <= j < v@.len() ==> tree_at(
                old(d).data@,
                old(d).v3(),
                old(d).context.encoding,
                old(d).context.var_data_type,
                old(d).context.var_data_len,
                #[trigger] v@[j],
                old(d).data@.len(),
            ),
        head is None ==> r is Ok,
        head is Some && vxr_chain_ok(
            old(d).data@,
            old(d).v3(),
            old(d).context.encoding,
            old(d).context.var_data_type,
            old(d).context.var_data_len,
            head.unwrap(),
            old(d).data@.len(),
        ) ==> r is Ok,
{
    let h = match head {
        Some(h) => h,
        None => {
            return Ok(Vec::new());
        },
    };
    let ghost d0 = *d;
    let mut out: Vec<VariableIndexRecord> = Vec::new();
    let mut next = h;
    let limit = d.data.len();
    let mut count: usize = 0;
    loop
        invariant
            d0 == *old(d),
            head == Some(h),
            d.same_input(d0),
            d.context.encoding == d0.context.encoding,
            d.context.var_data_type == d0.context.var_data_type,
            d.context.var_data_len == d0.context.var_data_len,
            d.context.size_r_dims == d0.context.size_r_dims,
            limit == d0.data@.len(),
            count == out@.len(),
            count <= limit,
            forall|i: int|
                0 <= i < out@.len() ==> VariableIndexRecord::decoded(
                    d0.data@,
                    (if i == 0 {
                        h
                    } else {
                        out@[i - 1].spec_next().unwrap()
                    }) as int,
                    d0.v3(),
                    d0.context.encoding,
                    #[trigger] out@[i],
                ),
            forall|i: int| 0 <= i < out@.len() ==> (#[trigger] out@[i]).spec_next() is Some,
            forall|j: int|
                0 <= j < out@.len() ==> tree_at(
                    d0.data@,
                    d0.v3(),
                    d0.context.encoding,
                    d0.context.var_data_type,
                    d0.context.var_data_len,
                    #[trigger] out@[j],
                    d0.data@.len(),
                ),
            out@.len() > 0 ==> next == out@[out@.len() - 1].spec_next().unwrap(),
            out@.len() == 0 ==> next == h,
            vxr_chain_ok(d0.data@, d0.v3(), d0.context.encoding, d0.context.var_data_type, d0.context.var_data_len, h, limit as nat)
                ==> vxr_chain_ok(
                d0.data@,
                d0.v3(),
                d0.context.encoding,
                d0.context.var_data_type,
                d0.context.var_data_len,
                next,
                (limit - count) as nat,
            ),
        decreases limit - count,
    {
        if count == limit {
            return Err(DecodeError::OffsetCycle);
        }
        let ghost at = next;
        d.seek(next)?;
        let rec = VariableIndexRecord::decode_at_depth(d, limit)?;
        let n = rec.next_record();
        proof {
            VariableIndexRecord::lemma_next(d0.data@, at as int, d0.v3(), d0.context.encoding, rec);
        }
        out.push(rec);
        count = count + 1;
        match n {
            Some(p) => {
                next = p;
            },
            None => {
                return Ok(out);
            },
        }
    }
}

} // verus!
