use vstd::prelude::*;

use crate::bytes::uint_at;
use crate::decode::{offset_at, offset_width, Decoder};
use crate::error::DecodeError;
use crate::record::ccr::CompressedCdfRecord;
use crate::record::cdr::{cdr_complete, cdr_error, cdr_fields, cdr_head_len, CdfDescriptorRecord};
use crate::record::adr::list_at;
use crate::record::collection::{nonzero, Decodable};
use crate::record::gdr::{gdr_error, gdr_fields};
use crate::record::cpr::CompressedParametersRecord;
use crate::repr::{CdfVersion, Encoding};

verus! {

/// The contents of a CDF file.
#[derive(Debug)]
pub struct Cdf {
    /// The file is a compressed wrapper around a CDF.
    pub is_compressed: bool,
    /// The CDF Descriptor Record, which owns the rest; none when compressed.
    pub cdr: Option<CdfDescriptorRecord>,
    /// The Compressed CDF Record of a compressed file.
    pub ccr: Option<CompressedCdfRecord>,
    /// The Compressed Parameters Record of a compressed file.
    pub cpr: Option<CompressedParametersRecord>,
}

/// The version that the first magic word hints at; none for an unknown word.
pub open spec fn magic_version(m1: int) -> Option<CdfVersion> {
    if m1 == 0xcdf3_0001 {
        Some(CdfVersion { major: 3, minor: 0, patch: 0 })
    } else if m1 == 0xcdf2_6002 {
        Some(CdfVersion { major: 2, minor: 6, patch: 0 })
    } else if m1 == 0x0000_ffff {
        Some(CdfVersion { major: 2, minor: 0, patch: 0 })
    } else {
        None
    }
}

/// Whether the second magic word marks a compressed file; none for an unknown word.
pub open spec fn magic_compressed(m2: int) -> Option<bool> {
    if m2 == 0x0000_ffff {
        Some(false)
    } else if m2 == 0xcccc_0001 {
        Some(true)
    } else {
        None
    }
}

/// What reading the two magic words at `p` gives.
pub open spec fn magic_result(s: Seq<u8>, p: int, r: Result<(CdfVersion, bool), DecodeError>) -> bool {
    let m1 = uint_at(s, p, 4, false);
    let m2 = uint_at(s, p + 4, 4, false);
    if p + 4 > s.len() {
        r is Err
    } else if magic_version(m1 as int) is None {
        r == Err::<(CdfVersion, bool), DecodeError>(DecodeError::InvalidMagicNumber(m1 as u32))
    } else if p + 8 > s.len() {
        r is Err
    } else if magic_compressed(m2 as int) is None {
        r == Err::<(CdfVersion, bool), DecodeError>(DecodeError::InvalidMagicNumber(m2 as u32))
    } else {
        r == Ok::<(CdfVersion, bool), DecodeError>(
            (magic_version(m1 as int).unwrap(), magic_compressed(m2 as int).unwrap()),
        )
    }
}

/// Reads the two magic words at the cursor: the first gives a hint of the
/// version, the second tells whether the file is compressed. An unknown
/// first word fails before the second is read.
pub fn read_magic(d: &mut Decoder) -> (r: Result<(CdfVersion, bool), DecodeError>)
    ensures
        final(d).same_input(*old(d)),
        final(d).context == old(d).context,
        magic_result(old(d).data@, old(d).pos as int, r),
        r is Ok ==> final(d).pos == old(d).pos + 8,
{
    let m1 = d.read_u32_be()?;
    let version = if m1 == 0xcdf3_0001 {
        CdfVersion::new(3, 0, 0)
    } else if m1 == 0xcdf2_6002 {
        CdfVersion::new(2, 6, 0)
    } else if m1 == 0x0000_ffff {
        CdfVersion::new(2, 0, 0)
    } else {
        return Err(DecodeError::InvalidMagicNumber(m1));
    };
    let m2 = d.read_u32_be()?;
    let compressed = if m2 == 0x0000_ffff {
        false
    } else if m2 == 0xcccc_0001 {
        true
    } else {
        return Err(DecodeError::InvalidMagicNumber(m2));
    };
    Ok((version, compressed))
}

/// Both magic words at `p` are known ones.
pub open spec fn magic_ok(s: Seq<u8>, p: int) -> bool {
    &&& p + 8 <= s.len()
    &&& magic_version(uint_at(s, p, 4, false) as int) is Some
    &&& magic_compressed(uint_at(s, p + 4, 4, false) as int) is Some
}

/// The version hint of a file whose magic words are known.
pub open spec fn hint_of(s: Seq<u8>) -> CdfVersion {
    magic_version(uint_at(s, 0, 4, false) as int).unwrap()
}

/// Whether a file whose magic words are known is compressed.
pub open spec fn compressed_of(s: Seq<u8>) -> bool {
    magic_compressed(uint_at(s, 4, 4, false) as int).unwrap()
}

/// `c` is the file `s`, given that its magic words are known.
pub open spec fn cdf_at(s: Seq<u8>, enc: Option<Encoding>, c: Cdf) -> bool {
    let v3 = hint_of(s).major >= 3;
    &&& c.is_compressed == compressed_of(s)
    &&& c.is_compressed ==> c.cdr is None && (c.ccr matches Some(x) && CompressedCdfRecord::decoded(
        s,
        8,
        v3,
        enc,
        x,
    ) && (c.cpr matches Some(y) && CompressedParametersRecord::decoded(s, x.cpr_offset as int, v3, enc, y)))
    &&& !c.is_compressed ==> c.ccr is None && c.cpr is None && (c.cdr matches Some(x) && cdr_fields(s, 8, v3, x)
        && cdr_tree(s, x))
}

/// The GDR of `x` and the lists it starts are those at the offsets that the
/// file gives, read with the version and encoding of `x`.
pub open spec fn cdr_tree(s: Seq<u8>, x: CdfDescriptorRecord) -> bool {
    let v = x.cdf_version;
    let v3 = v.major >= 3;
    let enc = Some(x.encoding);
    &&& gdr_error(s, x.gdr_offset as int, v3) is None
    &&& gdr_fields(s, x.gdr_offset as int, v, x.gdr)
    &&& list_at(s, v3, enc, x.gdr.adr_head, x.gdr.adr_vec@)
    &&& list_at(s, v3, enc, x.gdr.rvdr_head, x.gdr.rvdr_vec@)
    &&& list_at(s, v3, enc, x.gdr.zvdr_head, x.gdr.zvdr_vec@)
    &&& list_at(s, v3, enc, nonzero(x.gdr.uir_head as int), x.gdr.uir_vec@)
}

/// The file `s` is whole and well formed: its magic words are known, and
/// the records that decoding reads are there and well formed.
pub open spec fn cdf_complete(s: Seq<u8>, enc: Option<Encoding>) -> bool {
    let v3 = hint_of(s).major >= 3;
    let w = offset_width(v3);
    let cpr = offset_at(s, 8 + w + 4, v3);
    &&& magic_ok(s, 0)
    &&& compressed_of(s) ==> {
        &&& 8 + CompressedCdfRecord::fixed_len(v3) <= s.len()
        &&& CompressedCdfRecord::fixed_error(s, 8, v3) is None
        &&& CompressedCdfRecord::complete(s, 8, v3, enc, None)
        &&& 0 <= cpr && cpr + CompressedParametersRecord::fixed_len(v3) <= s.len()
        &&& CompressedParametersRecord::fixed_error(s, cpr, v3) is None
    }
    &&& !compressed_of(s) ==> {
        &&& 8 + cdr_head_len(v3) <= s.len()
        &&& cdr_error(s, 8, v3) is None
        &&& cdr_complete(s, 8, v3)
    }
}

impl Cdf {
    /// Decodes a whole file from its first byte. A compressed file yields
    /// its CCR and CPR; another yields its CDR and all that it owns.
    pub fn decode(d: &mut Decoder) -> (r: Result<Cdf, DecodeError>)
        ensures
            final(d).data@ == old(d).data@,
            !magic_ok(old(d).data@, 0) ==> r is Err && magic_result(
                old(d).data@,
                0,
                Err::<(CdfVersion, bool), DecodeError>(r->Err_0),
            ),
            r matches Ok(c) ==> magic_ok(old(d).data@, 0) && cdf_at(old(d).data@, old(d).context.encoding, c),
            magic_ok(old(d).data@, 0) && !compressed_of(old(d).data@) && 8 + cdr_head_len(hint_of(old(d).data@).major >= 3)
                <= old(d).data@.len() && cdr_error(old(d).data@, 8, hint_of(old(d).data@).major >= 3) is Some
                ==> r == Err::<Cdf, DecodeError>(cdr_error(old(d).data@, 8, hint_of(old(d).data@).major >= 3).unwrap()),
            cdf_complete(old(d).data@, old(d).context.encoding) ==> r is Ok,
    {
        d.pos = 0;
        let (hint, is_compressed) = read_magic(d)?;
        d.set_version(hint);
        if is_compressed {
            let ccr = CompressedCdfRecord::decode_be(d)?;
            d.seek(ccr.cpr_offset)?;
            let cpr = CompressedParametersRecord::decode_be(d)?;
            return Ok(Cdf { is_compressed, cdr: None, ccr: Some(ccr), cpr: Some(cpr) });
        }
        let cdr = CdfDescriptorRecord::decode(d)?;
        Ok(Cdf { is_compressed, cdr: Some(cdr), ccr: None, cpr: None })
    }

    /// Decodes the file whose bytes are `data`.
    pub fn from_bytes(data: Vec<u8>) -> (r: Result<Cdf, DecodeError>)
        ensures
            !magic_ok(data@, 0) ==> r is Err && magic_result(
                data@,
                0,
                Err::<(CdfVersion, bool), DecodeError>(r->Err_0),
            ),
            r matches Ok(c) ==> magic_ok(data@, 0) && cdf_at(data@, None, c),
            magic_ok(data@, 0) && !compressed_of(data@) && 8 + cdr_head_len(hint_of(data@).major >= 3)
                <= data@.len() && cdr_error(data@, 8, hint_of(data@).major >= 3) is Some
                ==> r == Err::<Cdf, DecodeError>(cdr_error(data@, 8, hint_of(data@).major >= 3).unwrap()),
            cdf_complete(data@, None) ==> r is Ok,
    {
        let mut d = Decoder::new(data);
        Cdf::decode(&mut d)
    }
}

} // verus!
