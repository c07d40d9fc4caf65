use vstd::prelude::*;

use crate::bytes::i4_at;
use crate::decode::{offset_at, offset_width, Decoder};
use crate::error::{DecodeError, Field, RecordKind};
use crate::record::collection::{
    first_error, read_record_header, read_reserved, rfu_error, tag_error, Decodable,
};
use crate::repr::Encoding;

verus! {

/// The compressions that a CDF may use.
#[derive(Debug, Clone, Copy, PartialEq, Eq, Structural)]
pub enum CdfCompressionKind {
    /// No compression
    Uncompressed,
    /// RLE compression
    Rle,
    /// Huffman coding
    Huff,
    /// Adaptive Huffman coding
    Ahuff,
    /// Gzip compression
    Gzip,
}

/// The compression kind that a tag names.
pub open spec fn compression_of(t: int) -> Option<CdfCompressionKind> {
    if t == 0 {
        Some(CdfCompressionKind::Uncompressed)
    } else if t == 1 {
        Some(CdfCompressionKind::Rle)
    } else if t == 2 {
        Some(CdfCompressionKind::Huff)
    } else if t == 3 {
        Some(CdfCompressionKind::Ahuff)
    } else if t == 5 {
        Some(CdfCompressionKind::Gzip)
    } else {
        None
    }
}

/// Levels allowed for a compression kind: 1 to 9 for Gzip, 0 for the others.
pub open spec fn level_allowed(k: CdfCompressionKind, level: int) -> bool {
    if k == CdfCompressionKind::Gzip {
        1 <= level <= 9
    } else {
        level == 0
    }
}

impl CdfCompressionKind {
    /// The compression kind named by a tag.
    pub fn try_from(value: i32) -> (r: Result<CdfCompressionKind, DecodeError>)
        ensures
            r == (match compression_of(value as int) {
                Some(k) => Ok(k),
                None => Err(DecodeError::BadCompressionKind(value)),
            }),
    {
        match value {
            0 => Ok(CdfCompressionKind::Uncompressed),
            1 => Ok(CdfCompressionKind::Rle),
            2 => Ok(CdfCompressionKind::Huff),
            3 => Ok(CdfCompressionKind::Ahuff),
            5 => Ok(CdfCompressionKind::Gzip),
            _ => Err(DecodeError::BadCompressionKind(value)),
        }
    }
}

/// Stores the contents of a Compressed Parameters Record, pointed to by the
/// CCR of a compressed file or by the descriptor of a compressed variable.
#[derive(Debug)]
pub struct CompressedParametersRecord {
    /// Size of this record in bytes.
    pub record_size: i64,
    /// The type of record as defined in the CDF specification as an integer.
    pub record_type: i32,
    /// The type of compression used.
    pub compression_type: CdfCompressionKind,
    /// Value reserved for future use.
    pub rfu_a: i32,
    /// Compression parameter count.
    pub compressed_parameter_count: i32,
    /// Compression level.
    pub compression_level: i32,
}

impl Decodable for CompressedParametersRecord {
    open spec fn fixed_len(v3: bool) -> int {
        offset_width(v3) + 20
    }

    open spec fn fixed_error(s: Seq<u8>, p: int, v3: bool) -> Option<DecodeError> {
        let q = p + offset_width(v3) + 4;
        let kind = compression_of(i4_at(s, q));
        let level = i4_at(s, q + 12);
        first_error(
            tag_error(s, p, v3, RecordKind::Cpr, 11i32),
            if kind is None {
                Some(DecodeError::BadCompressionKind(i4_at(s, q) as i32))
            } else {
                first_error(
                    rfu_error(s, q + 4, Field::RfuA, 0i32),
                    if !level_allowed(kind.unwrap(), level) {
                        Some(DecodeError::BadCompressionLevel(level as i32))
                    } else {
                        None
                    },
                )
            },
        )
    }

    open spec fn decoded(s: Seq<u8>, p: int, v3: bool, enc: Option<Encoding>, r: Self) -> bool {
        let q = p + offset_width(v3) + 4;
        &&& r.record_size == offset_at(s, p, v3)
        &&& r.record_type == 11
        &&& compression_of(i4_at(s, q)) == Some(r.compression_type)
        &&& r.rfu_a == 0
        &&& r.compressed_parameter_count == i4_at(s, q + 8)
        &&& r.compression_level == i4_at(s, q + 12)
    }

    open spec fn complete(s: Seq<u8>, p: int, v3: bool, enc: Option<Encoding>, rdims: Option<Seq<i32>>) -> bool {
        true
    }

    fn decode_be(d: &mut Decoder) -> (r: Result<Self, DecodeError>) {
        let record_size = read_record_header(d, RecordKind::Cpr, 11)?;
        let ct = d.read_i32_be()?;
        let compression_type = CdfCompressionKind::try_from(ct)?;
        let rfu_a = read_reserved(d, Field::RfuA, 0)?;
        let compressed_parameter_count = d.read_i32_be()?;
        let compression_level = d.read_i32_be()?;
        let allowed = match compression_type {
            CdfCompressionKind::Gzip => 1 <= compression_level && compression_level <= 9,
            _ => compression_level == 0,
        };
        if !allowed {
            return Err(DecodeError::BadCompressionLevel(compression_level));
        }
        Ok(CompressedParametersRecord {
            record_size,
            record_type: 11,
            compression_type,
            rfu_a,
            compressed_parameter_count,
            compression_level,
        })
    }
}

} // verus!
