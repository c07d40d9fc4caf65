use vstd::prelude::*;

verus! {

/// The kinds of record found in a CDF file.
#[derive(Debug, Clone, Copy, PartialEq, Eq, Structural)]
pub enum RecordKind {
    Cdr,
    Gdr,
    Rvdr,
    Adr,
    Agredr,
    Vxr,
    Vvr,
    Zvdr,
    Azedr,
    Ccr,
    Cpr,
    Cvvr,
    Uir,
}

/// Fields named by decoding errors.
#[derive(Debug, Clone, Copy, PartialEq, Eq, Structural)]
pub enum Field {
    RfuA,
    RfuB,
    RfuC,
    RfuD,
    RfuE,
    RfuF,
    NumElements,
    NumDims,
    NumEntries,
    NumUsedEntries,
    NumGrEntries,
    NumZEntries,
    RecordSize,
    CompressedSize,
    Offset,
    NumRecords,
    VarDataLen,
    Copyright,
    Version,
    Name,
    Value,
}

impl Field {
    /// The field's name as it is written in the CDF record layouts.
    pub fn name(&self) -> &'static str {
        match self {
            Field::RfuA => "rfu_a",
            Field::RfuB => "rfu_b",
            Field::RfuC => "rfu_c",
            Field::RfuD => "rfu_d",
            Field::RfuE => "rfu_e",
            Field::RfuF => "rfu_f",
            Field::NumElements => "num_elements",
            Field::NumDims => "num_dims",
            Field::NumEntries => "num_entries",
            Field::NumUsedEntries => "num_used_entries",
            Field::NumGrEntries => "num_gr_entries",
            Field::NumZEntries => "num_z_entries",
            Field::RecordSize => "record_size",
            Field::CompressedSize => "compressed_size",
            Field::Offset => "offset",
            Field::NumRecords => "num_records",
            Field::VarDataLen => "var_data_len",
            Field::Copyright => "copyright",
            Field::Version => "version",
            Field::Name => "name",
            Field::Value => "value",
        }
    }
}

/// Parts of the decoding context that a record may need before it is set.
#[derive(Debug, Clone, Copy, PartialEq, Eq, Structural)]
pub enum ContextField {
    Encoding,
    RDims,
    VarDataType,
    VarDataLen,
    NumRecords,
}

/// Errors raised while decoding.
#[derive(Debug, Clone, Copy, PartialEq, Eq, Structural)]
pub enum DecodeError {
    /// The data ended before `needed` bytes could be read at `offset`.
    UnexpectedEof { offset: u64, needed: u64 },
    /// A magic word at the start of the file is not one of the known ones.
    InvalidMagicNumber(u32),
    /// A record does not carry the type tag its position calls for.
    BadRecordType { record: RecordKind, expected: i32, actual: i32 },
    /// A field reserved for future use does not hold its fixed value.
    BadReservedValue { field: Field, expected: i32, actual: i32 },
    /// The file's encoding is unknown, unspecified or not IEEE 754.
    UnsupportedEncoding(i32),
    /// A data type tag that the value decoders do not know.
    BadDataTypeTag(i32),
    /// Bytes of a string are not UTF-8 once cut at the first NUL.
    InvalidUtf8(Field),
    /// A signed count or offset is negative or too large for its use.
    IntegerOutOfRange(Field),
    /// A record needs a part of the context that no earlier record has set.
    MissingContext(ContextField),
    /// A dimension variance other than -1 (varies) or 0 (does not).
    BadDimVariance(i32),
    /// A count declared by a record differs from what was found.
    CountMismatch { field: Field, declared: i32, found: u64 },
    /// An index entry has some but not all of first, last and offset.
    UnmatchedIndexEntry(u64),
    /// A compression kind that CDF does not define.
    BadCompressionKind(i32),
    /// A compression level that the compression kind does not allow.
    BadCompressionLevel(i32),
    /// The offsets loop back: a chain or a tree visits a record again.
    OffsetCycle,
}

/// Errors raised while encoding.
#[derive(Debug, Clone, Copy, PartialEq, Eq, Structural)]
pub enum EncodeError {
    /// The value has no fixed-width byte form.
    NotFixedWidth,
}

/// Errors of the library as a whole.
#[derive(Debug, Clone, Copy, PartialEq, Eq, Structural)]
pub enum CdfError {
    Decode(DecodeError),
    Encode(EncodeError),
}

impl From<DecodeError> for CdfError {
    fn from(e: DecodeError) -> (r: CdfError)
        ensures
            r == CdfError::Decode(e),
    {
        CdfError::Decode(e)
    }
}

impl vstd::std_specs::convert::FromSpecImpl<DecodeError> for CdfError {
    open spec fn obeys_from_spec() -> bool {
        true
    }

    open spec fn from_spec(e: DecodeError) -> CdfError {
        CdfError::Decode(e)
    }
}

} // verus!
