use vstd::prelude::*;

use crate::bytes::{
    i4_at, i8_at, lemma_be_uint_bound, lemma_le_uint_bound, lemma_pow256_mono, lemma_pow256_values,
    read_uint, signed, uint_at,
};
use crate::error::{ContextField, DecodeError, Field};
use crate::repr::{CdfVersion, Encoding};

verus! {

/// The file offset stored at `p`: 8 bytes from version 3 on, else 4 bytes
/// widened with their sign.
pub open spec fn offset_at(s: Seq<u8>, p: int, v3: bool) -> int {
    if v3 {
        i8_at(s, p)
    } else {
        i4_at(s, p)
    }
}

/// Width of an offset field.
pub open spec fn offset_width(v3: bool) -> int {
    if v3 {
        8
    } else {
        4
    }
}

/// State that earlier records leave for later ones.
#[derive(Debug)]
pub struct Context {
    /// Set by the CDR.
    pub encoding: Option<Encoding>,
    /// Set by the CDR.
    pub row_major: Option<bool>,
    /// Sizes of the rVariable dimensions, set by the GDR.
    pub size_r_dims: Option<Vec<i32>>,
    /// Data type of the variable whose values are being read, set by its VDR.
    pub var_data_type: Option<i32>,
    /// Values in one record of that variable, set by its VDR.
    pub var_data_len: Option<i32>,
    /// Records stored in the block being read, set by the index entry that points there.
    pub num_records: Option<u64>,
}

impl Context {
    /// The sizes of the rVariable dimensions, once the GDR has set them.
    pub open spec fn r_dims(self) -> Option<Seq<i32>> {
        match self.size_r_dims {
            Some(v) => Some(v@),
            None => None,
        }
    }
}

/// The bytes of a file, a cursor into them and the state gathered on the way.
#[derive(Debug)]
pub struct Decoder {
    pub data: Vec<u8>,
    pub pos: usize,
    /// The CDF version: a hint from the magic number, then the CDR's.
    pub version: CdfVersion,
    pub context: Context,
}

impl Decoder {
    /// Offsets are 8 bytes wide.
    pub open spec fn v3(self) -> bool {
        self.version.major >= 3
    }

    /// Width of an offset field.
    pub open spec fn ow(self) -> int {
        offset_width(self.v3())
    }

    /// `n` more bytes can be read.
    pub open spec fn fits(self, n: int) -> bool {
        self.pos + n <= self.data@.len()
    }

    /// The error for reading `n` bytes past the end.
    pub open spec fn eof(self, n: int) -> DecodeError {
        DecodeError::UnexpectedEof { offset: self.pos as u64, needed: n as u64 }
    }

    /// Only the cursor has changed, and it stands at `p`.
    pub open spec fn moved(self, o: Decoder, p: int) -> bool {
        &&& self.data@ == o.data@
        &&& self.version == o.version
        &&& self.context == o.context
        &&& self.pos == p
    }

    /// The bytes and the version are those of `o`.
    pub open spec fn same_input(self, o: Decoder) -> bool {
        self.data@ == o.data@ && self.version == o.version
    }

    /// A decoder at the start of `data`, with version 0.0.0 and an empty context.
    pub fn new(data: Vec<u8>) -> (r: Decoder)
        ensures
            r.data@ == data@,
            r.pos == 0,
            r.version == (CdfVersion { major: 0, minor: 0, patch: 0 }),
            r.context.encoding is None,
            r.context.size_r_dims is None,
            r.context.var_data_type is None,
            r.context.var_data_len is None,
            r.context.num_records is None,
    {
        Decoder {
            data,
            pos: 0,
            version: CdfVersion::new(0, 0, 0),
            context: Context {
                encoding: None,
                row_major: None,
                size_r_dims: None,
                var_data_type: None,
                var_data_len: None,
                num_records: None,
            },
        }
    }

    /// Change or set the CDF version of the decoder.
    pub fn set_version(&mut self, version: CdfVersion)
        ensures
            final(self).version == version,
            final(self).data@ == old(self).data@,
            final(self).pos == old(self).pos,
            final(self).context == old(self).context,
    {
        self.version = version;
    }

    /// Reads `n` bytes as an unsigned integer in the given byte order.
    pub fn read_uint(&mut self, n: usize, little: bool) -> (r: Result<u64, DecodeError>)
        requires
            n <= 8,
        ensures
            old(self).fits(n as int) ==> (r matches Ok(v) && v == uint_at(old(self).data@, old(self).pos as int, n as nat, little))
                && final(self).moved(*old(self), old(self).pos + n),
            !old(self).fits(n as int) ==> r == Err::<u64, DecodeError>(old(self).eof(n as int))
                && final(self).moved(*old(self), old(self).pos as int),
    {
        if self.pos > self.data.len() || n > self.data.len() - self.pos {
            return Err(DecodeError::UnexpectedEof { offset: self.pos as u64, needed: n as u64 });
        }
        let v = read_uint(self.data.as_slice(), self.pos, n, little);
        proof {
            lemma_be_uint_bound(self.data@, self.pos as int, n as nat);
            lemma_le_uint_bound(self.data@, self.pos as int, n as nat);
            lemma_pow256_values();
            lemma_pow256_mono(n as nat, 8);
        }
        self.pos = self.pos + n;
        Ok(v)
    }

    /// Reads a big-endian 4-byte unsigned integer.
    pub fn read_u32_be(&mut self) -> (r: Result<u32, DecodeError>)
        ensures
            old(self).fits(4) ==> (r matches Ok(v) && v == uint_at(old(self).data@, old(self).pos as int, 4, false))
                && final(self).moved(*old(self), old(self).pos + 4),
            !old(self).fits(4) ==> r == Err::<u32, DecodeError>(old(self).eof(4))
                && final(self).moved(*old(self), old(self).pos as int),
    {
        let v = self.read_uint(4, false)?;
        proof {
            lemma_be_uint_bound(self.data@, self.pos - 4, 4);
            lemma_pow256_values();
        }
        Ok(v as u32)
    }

    /// Reads a big-endian 4-byte signed integer.
    pub fn read_i32_be(&mut self) -> (r: Result<i32, DecodeError>)
        ensures
            old(self).fits(4) ==> (r matches Ok(v) && v == i4_at(old(self).data@, old(self).pos as int))
                && final(self).moved(*old(self), old(self).pos + 4),
            !old(self).fits(4) ==> r == Err::<i32, DecodeError>(old(self).eof(4))
                && final(self).moved(*old(self), old(self).pos as int),
    {
        let v = self.read_uint(4, false)?;
        proof {
            lemma_be_uint_bound(self.data@, self.pos - 4, 4);
            lemma_pow256_values();
        }
        Ok(to_i32(v))
    }

    /// Reads a big-endian 8-byte signed integer.
    pub fn read_i64_be(&mut self) -> (r: Result<i64, DecodeError>)
        ensures
            old(self).fits(8) ==> (r matches Ok(v) && v == i8_at(old(self).data@, old(self).pos as int))
                && final(self).moved(*old(self), old(self).pos + 8),
            !old(self).fits(8) ==> r == Err::<i64, DecodeError>(old(self).eof(8))
                && final(self).moved(*old(self), old(self).pos as int),
    {
        let v = self.read_uint(8, false)?;
        proof {
            lemma_be_uint_bound(self.data@, self.pos - 8, 8);
            lemma_pow256_values();
        }
        Ok(to_i64(v))
    }

    /// The data type of the variable being read, once its VDR has set it.
    pub fn get_var_data_type(&self) -> (r: Result<i32, DecodeError>)
        ensures
            r == (match self.context.var_data_type {
                Some(t) => Ok(t),
                None => Err(DecodeError::MissingContext(ContextField::VarDataType)),
            }),
    {
        match self.context.var_data_type {
            Some(t) => Ok(t),
            None => Err(DecodeError::MissingContext(ContextField::VarDataType)),
        }
    }

    /// Values in one record of the variable being read, once its VDR has set it.
    pub fn get_var_data_len(&self) -> (r: Result<i32, DecodeError>)
        ensures
            r == (match self.context.var_data_len {
                Some(n) => Ok(n),
                None => Err(DecodeError::MissingContext(ContextField::VarDataLen)),
            }),
    {
        match self.context.var_data_len {
            Some(n) => Ok(n),
            None => Err(DecodeError::MissingContext(ContextField::VarDataLen)),
        }
    }

    /// Records in the block being read, once an index entry has set it.
    pub fn get_num_records(&self) -> (r: Result<u64, DecodeError>)
        ensures
            r == (match self.context.num_records {
                Some(n) => Ok(n),
                None => Err(DecodeError::MissingContext(ContextField::NumRecords)),
            }),
    {
        match self.context.num_records {
            Some(n) => Ok(n),
            None => Err(DecodeError::MissingContext(ContextField::NumRecords)),
        }
    }

    /// Reads a file offset or size: an 8-byte integer from version 3 on, else
    /// a 4-byte one widened with its sign.
    pub fn read_offset(&mut self) -> (r: Result<i64, DecodeError>)
        ensures
            old(self).fits(old(self).ow()) ==> (r matches Ok(v) && v == offset_at(old(self).data@, old(self).pos as int, old(self).v3()))
                && final(self).moved(*old(self), old(self).pos + old(self).ow()),
            !old(self).fits(old(self).ow()) ==> r == Err::<i64, DecodeError>(old(self).eof(old(self).ow()))
                && final(self).moved(*old(self), old(self).pos as int),
    {
        if self.version.major >= 3 {
            self.read_i64_be()
        } else {
            let v = self.read_i32_be()?;
            Ok(v as i64)
        }
    }

    /// Reads `n` bytes as they stand.
    pub fn read_bytes(&mut self, n: usize) -> (r: Result<Vec<u8>, DecodeError>)
        ensures
            old(self).fits(n as int) ==> (r matches Ok(b) && b@ == old(self).data@.subrange(
                old(self).pos as int,
                old(self).pos + n,
            )) && final(self).moved(*old(self), old(self).pos + n),
            !old(self).fits(n as int) ==> r == Err::<Vec<u8>, DecodeError>(old(self).eof(n as int))
                && final(self).moved(*old(self), old(self).pos as int),
    {
        if self.pos > self.data.len() || n > self.data.len() - self.pos {
            return Err(DecodeError::UnexpectedEof { offset: self.pos as u64, needed: n as u64 });
        }
        let start = self.pos;
        let len = self.data.len();
        let mut out: Vec<u8> = Vec::new();
        let mut i: usize = 0;
        while i < n
            invariant
                start + n <= self.data@.len(),
                len == self.data@.len(),
                i <= n,
                out@ == self.data@.subrange(start as int, start + i),
            decreases n - i,
        {
            out.push(self.data[start + i]);
            i = i + 1;
            assert(out@ =~= self.data@.subrange(start as int, start + i));
        }
        self.pos = start + n;
        Ok(out)
    }

    /// Moves the cursor to an absolute file offset.
    pub fn seek(&mut self, offset: i64) -> (r: Result<(), DecodeError>)
        ensures
            0 <= offset <= old(self).data@.len() ==> r is Ok && final(self).moved(*old(self), offset as int),
            offset < 0 ==> r == Err::<(), DecodeError>(DecodeError::IntegerOutOfRange(Field::Offset))
                && final(self).moved(*old(self), old(self).pos as int),
            offset > old(self).data@.len() ==> r == Err::<(), DecodeError>(DecodeError::UnexpectedEof { offset: offset as u64, needed: 0 })
                && final(self).moved(*old(self), old(self).pos as int),
    {
        if offset < 0 {
            return Err(DecodeError::IntegerOutOfRange(Field::Offset));
        }
        if offset as u64 > self.data.len() as u64 {
            return Err(DecodeError::UnexpectedEof { offset: offset as u64, needed: 0 });
        }
        self.pos = offset as usize;
        Ok(())
    }

    /// The file's encoding, once the CDR has set it.
    pub fn get_encoding(&self) -> (r: Result<Encoding, DecodeError>)
        ensures
            r == (match self.context.encoding {
                Some(e) => Ok(e),
                None => Err(DecodeError::MissingContext(ContextField::Encoding)),
            }),
    {
        match self.context.encoding {
            Some(e) => Ok(e),
            None => Err(DecodeError::MissingContext(ContextField::Encoding)),
        }
    }
}

/// The big-endian 4-byte signed integer at `k` in `b`.
pub fn i32_at(b: &Vec<u8>, k: usize) -> (r: i32)
    requires
        k + 4 <= b@.len(),
    ensures
        r == i4_at(b@, k as int),
{
    let u = read_uint(b.as_slice(), k, 4, false);
    proof {
        lemma_be_uint_bound(b@, k as int, 4);
        lemma_pow256_values();
    }
    to_i32(u)
}

/// A 1-byte unsigned integer read as two's complement.
pub fn to_i8(u: u64) -> (r: i8)
    requires
        u < 0x100,
    ensures
        r == signed(u as nat, 1),
{
    proof {
        lemma_pow256_values();
    }
    if u >= 0x80 {
        (u as i16 - 0x100) as i8
    } else {
        u as i8
    }
}

/// A 2-byte unsigned integer read as two's complement.
pub fn to_i16(u: u64) -> (r: i16)
    requires
        u < 0x1_0000,
    ensures
        r == signed(u as nat, 2),
{
    proof {
        lemma_pow256_values();
    }
    if u >= 0x8000 {
        (u as i32 - 0x1_0000) as i16
    } else {
        u as i16
    }
}

/// A 4-byte unsigned integer read as two's complement.
pub fn to_i32(u: u64) -> (r: i32)
    requires
        u < 0x1_0000_0000,
    ensures
        r == signed(u as nat, 4),
{
    proof {
        lemma_pow256_values();
    }
    if u >= 0x8000_0000 {
        (u as i64 - 0x1_0000_0000) as i32
    } else {
        u as i32
    }
}

/// An 8-byte unsigned integer read as two's complement.
pub fn to_i64(u: u64) -> (r: i64)
    ensures
        r == signed(u as nat, 8),
{
    proof {
        lemma_pow256_values();
    }
    if u >= 0x8000_0000_0000_0000 {
        let h = (u - 0x8000_0000_0000_0000) as i64;
        h - 0x7fff_ffff_ffff_ffff - 1
    } else {
        u as i64
    }
}

} // verus!
