use vstd::prelude::*;

use crate::bytes::i4_at;
use crate::decode::{i32_at, offset_at, offset_width, Decoder};
use crate::error::{DecodeError, Field, RecordKind};
use crate::record::collection::{first_error, read_record_header, rfu_error, tag_error};
use crate::record::adr::{list_at, name_width};
use crate::record::collection::nonzero;
use crate::record::gdr::{gdr_complete, gdr_error, gdr_fields, gdr_head_len, GlobalDescriptorRecord};
use crate::repr::{encoding_of, CdfVersion, Encoding};
use crate::types::{decode_string_from_numbytes, text_of};

verus! {

/// Flags of a CDF file.
#[derive(Debug, Clone, Copy, PartialEq, Eq, Structural)]
pub struct CdrFlags {
    pub row_major: bool,
    pub single_file: bool,
    pub has_checksum: bool,
    pub md5_checksum: bool,
}

/// The flags that the bits of `f` stand for.
pub open spec fn cdr_flags_of(f: i32) -> CdrFlags {
    CdrFlags {
        row_major: f & 1 != 0,
        single_file: f & 2 != 0,
        has_checksum: f & 4 != 0,
        md5_checksum: f & 8 != 0,
    }
}

/// The CDF Descriptor Record, at offset 8 of every CDF file, and the GDR it points to.
#[derive(Debug)]
pub struct CdfDescriptorRecord {
    pub record_size: i64,
    pub record_type: i32,
    pub gdr_offset: i64,
    /// (version, release, increment).
    pub cdf_version: CdfVersion,
    pub encoding: Encoding,
    pub flags: CdrFlags,
    pub rfu_a: i32,
    pub rfu_b: i32,
    pub identifier: i32,
    pub rfu_e: i32,
    /// The copyright notice, cut at its first NUL.
    pub copyright: String,
    /// The Global Descriptor Record.
    pub gdr: GlobalDescriptorRecord,
}

/// Width of the copyright notice: 1945 bytes before version 2.5, 256 from then on.
pub open spec fn copyright_width(v: CdfVersion) -> int {
    if v.spec_lt(CdfVersion { major: 2, minor: 5, patch: 0 }) {
        1945
    } else {
        256
    }
}

/// Bytes of a CDR before its copyright notice.
pub open spec fn cdr_head_len(v3: bool) -> int {
    2 * offset_width(v3) + 40
}

/// The 36 bytes of a CDR after its GDR offset.
pub open spec fn cdr_block(s: Seq<u8>, p: int, v3: bool) -> Seq<u8> {
    let q = p + 2 * offset_width(v3) + 4;
    s.subrange(q, q + 36)
}

/// The version that a CDR block gives, where its parts are not negative.
pub open spec fn block_version(b: Seq<u8>) -> CdfVersion {
    CdfVersion { major: i4_at(b, 0) as u64, minor: i4_at(b, 4) as u64, patch: i4_at(b, 24) as u64 }
}

/// The error that a CDR block calls for, if any.
pub open spec fn block_error(b: Seq<u8>) -> Option<DecodeError> {
    if encoding_of(i4_at(b, 8) as i32) is None {
        Some(DecodeError::UnsupportedEncoding(i4_at(b, 8) as i32))
    } else {
        first_error(
            rfu_error(b, 16, Field::RfuA, 0i32),
            first_error(
                rfu_error(b, 20, Field::RfuB, 0i32),
                if i4_at(b, 0) < 0 || i4_at(b, 4) < 0 || i4_at(b, 24) < 0 {
                    Some(DecodeError::IntegerOutOfRange(Field::Version))
                } else {
                    None
                },
            ),
        )
    }
}

/// The error that the leading part of the CDR at `p` calls for.
pub open spec fn cdr_error(s: Seq<u8>, p: int, v3: bool) -> Option<DecodeError> {
    first_error(tag_error(s, p, v3, RecordKind::Cdr, 1i32), block_error(cdr_block(s, p, v3)))
}

/// The fields of `r` other than its GDR are those of the CDR at `p`.
pub open spec fn cdr_fields(s: Seq<u8>, p: int, v3: bool, r: CdfDescriptorRecord) -> bool {
    let w = offset_width(v3);
    let b = cdr_block(s, p, v3);
    let c = p + 2 * w + 40;
    &&& r.record_size == offset_at(s, p, v3)
    &&& r.record_type == 1
    &&& r.gdr_offset == offset_at(s, p + w + 4, v3)
    &&& r.cdf_version == block_version(b)
    &&& encoding_of(i4_at(b, 8) as i32) == Some(r.encoding)
    &&& r.flags == cdr_flags_of(i4_at(b, 12) as i32)
    &&& r.rfu_a == 0 && r.rfu_b == 0
    &&& r.identifier == i4_at(b, 28)
    &&& r.rfu_e == i4_at(b, 32)
    &&& c + copyright_width(r.cdf_version) <= s.len()
    &&& text_of(s.subrange(c, c + copyright_width(r.cdf_version))) == Some(r.copyright@)
}

/// Width of the copyright notice of the CDR at `p`, by the version it gives.
pub open spec fn notice_width(s: Seq<u8>, p: int, v3: bool) -> int {
    copyright_width(block_version(cdr_block(s, p, v3)))
}

/// The copyright notice of the CDR at `p` is there and is UTF-8.
pub open spec fn notice_ok(s: Seq<u8>, p: int, v3: bool) -> bool {
    let c = p + 2 * offset_width(v3) + 40;
    let cw = copyright_width(block_version(cdr_block(s, p, v3)));
    c + cw <= s.len() && text_of(s.subrange(c, c + cw)) is Some
}

/// The CDR at `p` is whole and well formed, and so is the GDR it points to,
/// read with the CDR's version and encoding.
pub open spec fn cdr_complete(s: Seq<u8>, p: int, v3: bool) -> bool {
    let b = cdr_block(s, p, v3);
    let v = block_version(b);
    let g = offset_at(s, p + offset_width(v3) + 4, v3);
    &&& notice_ok(s, p, v3)
    &&& 0 <= g && g + gdr_head_len(v.major >= 3) <= s.len()
    &&& gdr_error(s, g, v.major >= 3) is None
    &&& gdr_complete(s, g, v, encoding_of(i4_at(b, 8) as i32))
}

/// What a CDR block holds, checked.
struct CdrBlock {
    version: CdfVersion,
    encoding: Encoding,
    flags: CdrFlags,
    identifier: i32,
    rfu_e: i32,
}

/// Reads the fields of a CDR block and checks them.
fn parse_block(b: &Vec<u8>) -> (r: Result<CdrBlock, DecodeError>)
    requires
        b@.len() == 36,
    ensures
        block_error(b@) is Some ==> r == Err::<CdrBlock, DecodeError>(block_error(b@).unwrap()),
        block_error(b@) is None ==> (r matches Ok(x) && x.version == block_version(b@) && encoding_of(
            i4_at(b@, 8) as i32,
        ) == Some(x.encoding) && x.flags == cdr_flags_of(i4_at(b@, 12) as i32) && x.identifier
            == i4_at(b@, 28) && x.rfu_e == i4_at(b@, 32)),
{
    let version = i32_at(b, 0);
    let release = i32_at(b, 4);
    let enc = i32_at(b, 8);
    let encoding = Encoding::from_tag(enc)?;
    let flags = i32_at(b, 12);
    let rfu_a = i32_at(b, 16);
    if rfu_a != 0 {
        return Err(DecodeError::BadReservedValue { field: Field::RfuA, expected: 0, actual: rfu_a });
    }
    let rfu_b = i32_at(b, 20);
    if rfu_b != 0 {
        return Err(DecodeError::BadReservedValue { field: Field::RfuB, expected: 0, actual: rfu_b });
    }
    let increment = i32_at(b, 24);
    let major = version_part(version)?;
    let minor = version_part(release)?;
    let patch = version_part(increment)?;
    Ok(CdrBlock {
        version: CdfVersion::new(major, minor, patch),
        encoding,
        flags: CdrFlags {
            row_major: (flags & 1) != 0,
            single_file: (flags & 2) != 0,
            has_checksum: (flags & 4) != 0,
            md5_checksum: (flags & 8) != 0,
        },
        identifier: i32_at(b, 28),
        rfu_e: i32_at(b, 32),
    })
}

/// Reads a non-negative 4-byte part of a version.
fn version_part(x: i32) -> (r: Result<u64, DecodeError>)
    ensures
        x >= 0 ==> r == Ok::<u64, DecodeError>(x as u64),
        x < 0 ==> r == Err::<u64, DecodeError>(DecodeError::IntegerOutOfRange(Field::Version)),
{
    if x < 0 {
        Err(DecodeError::IntegerOutOfRange(Field::Version))
    } else {
        Ok(x as u64)
    }
}

impl CdfDescriptorRecord {
    /// Decodes the fields of the CDR at the cursor, leaving the cursor right
    /// after its copyright notice and the GDR empty.
    pub fn decode_fields(d: &mut Decoder) -> (r: Result<CdfDescriptorRecord, DecodeError>)
        ensures
            final(d).same_input(*old(d)),
            final(d).context == old(d).context,
            r is Ok ==> final(d).pos == old(d).pos + cdr_head_len(old(d).v3()) + notice_width(
                old(d).data@,
                old(d).pos as int,
                old(d).v3(),
            ),
            old(d).fits(cdr_head_len(old(d).v3())) && cdr_error(old(d).data@, old(d).pos as int, old(d).v3()) is None
                && !old(d).fits(cdr_head_len(old(d).v3()) + notice_width(old(d).data@, old(d).pos as int, old(d).v3()))
                ==> r == Err::<CdfDescriptorRecord, DecodeError>(
                DecodeError::UnexpectedEof {
                    offset: (old(d).pos + cdr_head_len(old(d).v3())) as u64,
                    needed: notice_width(old(d).data@, old(d).pos as int, old(d).v3()) as u64,
                },
            ),
            old(d).fits(cdr_head_len(old(d).v3())) && cdr_error(old(d).data@, old(d).pos as int, old(d).v3()) is None
                && old(d).fits(cdr_head_len(old(d).v3()) + notice_width(old(d).data@, old(d).pos as int, old(d).v3()))
                && !notice_ok(old(d).data@, old(d).pos as int, old(d).v3()) ==> r == Err::<CdfDescriptorRecord, DecodeError>(
                DecodeError::InvalidUtf8(Field::Copyright),
            ),

            r matches Ok(x) ==> old(d).fits(cdr_head_len(old(d).v3())) && cdr_error(
                old(d).data@,
                old(d).pos as int,
                old(d).v3(),
            ) is None && cdr_fields(old(d).data@, old(d).pos as int, old(d).v3(), x),
            old(d).fits(cdr_head_len(old(d).v3())) && cdr_error(old(d).data@, old(d).pos as int, old(d).v3()) is Some
                ==> r is Err && r == Err::<CdfDescriptorRecord, DecodeError>(
                cdr_error(old(d).data@, old(d).pos as int, old(d).v3()).unwrap(),
            ),
            !old(d).fits(cdr_head_len(old(d).v3())) ==> r is Err,
            old(d).fits(cdr_head_len(old(d).v3())) && cdr_error(old(d).data@, old(d).pos as int, old(d).v3()) is None
                && notice_ok(old(d).data@, old(d).pos as int, old(d).v3()) ==> r is Ok,
    {
        let record_size = read_record_header(d, RecordKind::Cdr, 1)?;
        let gdr_offset = d.read_offset()?;
        let b = d.read_bytes(36)?;
        let blk = parse_block(&b)?;
        let cdf_version = blk.version;
        let width: usize = if cdf_version.lt(&CdfVersion::new(2, 5, 0)) { 1945 } else { 256 };
        let copyright = decode_string_from_numbytes(d, width, Field::Copyright)?;
        Ok(CdfDescriptorRecord {
            record_size,
            record_type: 1,
            gdr_offset,
            cdf_version,
            encoding: blk.encoding,
            flags: blk.flags,
            rfu_a: 0,
            rfu_b: 0,
            identifier: blk.identifier,
            rfu_e: blk.rfu_e,
            copyright,
            gdr: GlobalDescriptorRecord::empty(),
        })
    }

    /// Decodes the CDR at the cursor, then the GDR at the offset it gives.
    /// The CDR's version replaces the decoder's, and its encoding and
    /// majority go into the context, before the GDR is read.
    pub fn decode(d: &mut Decoder) -> (r: Result<CdfDescriptorRecord, DecodeError>)
        ensures
            final(d).data@ == old(d).data@,
            old(d).fits(cdr_head_len(old(d).v3())) && cdr_error(old(d).data@, old(d).pos as int, old(d).v3()) is None
                && !old(d).fits(cdr_head_len(old(d).v3()) + notice_width(old(d).data@, old(d).pos as int, old(d).v3()))
                ==> r == Err::<CdfDescriptorRecord, DecodeError>(
                DecodeError::UnexpectedEof {
                    offset: (old(d).pos + cdr_head_len(old(d).v3())) as u64,
                    needed: notice_width(old(d).data@, old(d).pos as int, old(d).v3()) as u64,
                },
            ),
            old(d).fits(cdr_head_len(old(d).v3())) && cdr_error(old(d).data@, old(d).pos as int, old(d).v3()) is None
                && old(d).fits(cdr_head_len(old(d).v3()) + notice_width(old(d).data@, old(d).pos as int, old(d).v3()))
                && !notice_ok(old(d).data@, old(d).pos as int, old(d).v3()) ==> r == Err::<CdfDescriptorRecord, DecodeError>(
                DecodeError::InvalidUtf8(Field::Copyright),
            ),

            r matches Ok(x) ==> {
                let s = old(d).data@;
                let v = x.cdf_version;
                let v3 = v.major >= 3;
                let enc = Some(x.encoding);
                &&& cdr_error(s, old(d).pos as int, old(d).v3()) is None
                &&& cdr_fields(s, old(d).pos as int, old(d).v3(), x)
                &&& final(d).version == v
                &&& final(d).context.encoding == enc
                &&& gdr_error(s, x.gdr_offset as int, v3) is None
                &&& gdr_fields(s, x.gdr_offset as int, v, x.gdr)
                &&& list_at(s, v3, enc, x.gdr.adr_head, x.gdr.adr_vec@)
                &&& list_at(s, v3, enc, x.gdr.rvdr_head, x.gdr.rvdr_vec@)
                &&& list_at(s, v3, enc, x.gdr.zvdr_head, x.gdr.zvdr_vec@)
                &&& list_at(s, v3, enc, nonzero(x.gdr.uir_head as int), x.gdr.uir_vec@)
            },
            old(d).fits(cdr_head_len(old(d).v3())) && cdr_error(old(d).data@, old(d).pos as int, old(d).v3()) is Some
                ==> r == Err::<CdfDescriptorRecord, DecodeError>(
                cdr_error(old(d).data@, old(d).pos as int, old(d).v3()).unwrap(),
            ),
            !old(d).fits(cdr_head_len(old(d).v3())) ==> r is Err,
            old(d).fits(cdr_head_len(old(d).v3())) && cdr_error(old(d).data@, old(d).pos as int, old(d).v3()) is None
                && cdr_complete(old(d).data@, old(d).pos as int, old(d).v3()) ==> r is Ok,
    {
        let mut cdr = Self::decode_fields(d)?;
        d.set_version(cdr.cdf_version);
        d.context.encoding = Some(cdr.encoding);
        d.context.row_major = Some(cdr.flags.row_major);
        d.seek(cdr.gdr_offset)?;
        cdr.gdr = GlobalDescriptorRecord::decode(d)?;
        Ok(cdr)
    }
}

/// Before version 3, offsets take 4 bytes and names 64, and the copyright
/// notice takes 1945 bytes before version 2.5 and 256 after; from version 3
/// on, offsets take 8 bytes and names and the notice 256.
pub proof fn lemma_version_gating(v: CdfVersion)
    ensures
        v.major < 3 ==> offset_width(v.major >= 3) == 4 && name_width(v.major >= 3) == 64
            && copyright_width(v) == (if v.major < 2 || (v.major == 2 && v.minor < 5) {
            1945int
        } else {
            256int
        }),
        v.major >= 3 ==> offset_width(v.major >= 3) == 8 && name_width(v.major >= 3) == 256
            && copyright_width(v) == 256,
{
}

} // verus!
