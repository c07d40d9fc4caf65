use vstd::prelude::*;
use vstd::utf8::{decode_utf8, valid_utf8};

use crate::bytes::{
    lemma_be_uint_bound, lemma_le_uint_bound, lemma_pow256_values, lemma_uint_bytes_round_trip,
    lemma_uint_local, pow256, signed, uint_at, uint_bytes,
};
use crate::decode::{to_i16, to_i32, to_i64, to_i8, Decoder};
use crate::error::{ContextField, DecodeError, EncodeError, Field};
use crate::repr::{Encoding, Endian};

verus! {

/// A value of one of the CDF primitive types. Floating-point values are
/// held as their IEEE 754 bit patterns.
#[derive(Debug, PartialEq)]
pub enum CdfType {
    Int1(i8),
    Int2(i16),
    Int4(i32),
    Int8(i64),
    Uint1(u8),
    Uint2(u16),
    Uint4(u32),
    Real4(u32),
    Real8(u64),
    Epoch(u64),
    /// Two Real8 halves.
    Epoch16(u64, u64),
    TimeTt2000(i64),
    Byte(i8),
    Char(u8),
    Uchar(u8),
    String(String),
}

/// Bytes taken by one value of a data type tag; 0 for an unknown tag.
pub open spec fn type_size(t: i32) -> nat {
    match t {
        1 | 11 | 41 | 51 | 52 => 1,
        2 | 12 => 2,
        4 | 14 | 21 | 44 => 4,
        8 | 22 | 31 | 33 | 45 => 8,
        32 => 16,
        _ => 0,
    }
}

/// The tag names a data type.
pub open spec fn known_type(t: i32) -> bool {
    type_size(t) > 0
}

/// Char and Uchar values are gathered into one string.
pub open spec fn is_char_type(t: i32) -> bool {
    t == 51 || t == 52
}

/// The value of data type `t` held by the bytes at `p`.
pub open spec fn value_at(s: Seq<u8>, p: int, t: i32, little: bool) -> CdfType {
    let u = uint_at(s, p, type_size(t), little);
    match t {
        1 => CdfType::Int1(signed(u, 1) as i8),
        2 => CdfType::Int2(signed(u, 2) as i16),
        4 => CdfType::Int4(signed(u, 4) as i32),
        8 => CdfType::Int8(signed(u, 8) as i64),
        11 => CdfType::Uint1(u as u8),
        12 => CdfType::Uint2(u as u16),
        14 => CdfType::Uint4(u as u32),
        21 | 44 => CdfType::Real4(u as u32),
        22 | 45 => CdfType::Real8(u as u64),
        31 => CdfType::Epoch(u as u64),
        32 => CdfType::Epoch16(
            uint_at(s, p, 8, little) as u64,
            uint_at(s, p + 8, 8, little) as u64,
        ),
        33 => CdfType::TimeTt2000(signed(u, 8) as i64),
        41 => CdfType::Byte(signed(u, 1) as i8),
        51 => CdfType::Char(u as u8),
        _ => CdfType::Uchar(u as u8),
    }
}

/// `n` values of data type `t`, one after the other from `p`.
pub open spec fn values_at(s: Seq<u8>, p: int, t: i32, n: nat, little: bool) -> Seq<CdfType> {
    Seq::new(n, |i: int| value_at(s, p + i * type_size(t), t, little))
}

/// `k` is where `b` is cut: the first NUL, or the end.
pub open spec fn nul_cut(b: Seq<u8>, k: int) -> bool {
    &&& 0 <= k <= b.len()
    &&& forall|j: int| 0 <= j < k ==> b[j] != 0
    &&& k == b.len() || b[k] == 0
}

/// The bytes of `b` before its first NUL.
pub open spec fn until_nul(b: Seq<u8>) -> Seq<u8> {
    b.take(choose|k: int| nul_cut(b, k))
}

/// The text that the fixed-width, NUL-padded field `b` holds, where it is
/// UTF-8.
pub open spec fn text_of(b: Seq<u8>) -> Option<Seq<char>> {
    if valid_utf8(until_nul(b)) {
        Some(decode_utf8(until_nul(b)))
    } else {
        None
    }
}

/// What decoding `n` values of type `t` at `p` gives once the bytes are known
/// to be there: the values, or, for Char and Uchar, one string.
pub open spec fn vec_matches(s: Seq<u8>, p: int, t: i32, n: nat, little: bool, v: Seq<CdfType>) -> bool {
    if is_char_type(t) {
        let b = s.subrange(p, p + n);
        text_of(b) is Some && v.len() == 1 && (v[0] matches CdfType::String(st) && st@ == text_of(
            b,
        ).unwrap())
    } else {
        v == values_at(s, p, t, n, little)
    }
}

pub proof fn lemma_until_nul(b: Seq<u8>, k: int)
    requires
        nul_cut(b, k),
    ensures
        until_nul(b) == b.take(k),
{
    let c = choose|c: int| nul_cut(b, c);
    assert(nul_cut(b, c));
    if c < k {
        assert(b[c] != 0);
    }
    if k < c {
        assert(b[k] != 0);
    }
}

/// Index of the first NUL in `b`, or its length.
pub fn find_nul(b: &Vec<u8>) -> (k: usize)
    ensures
        nul_cut(b@, k as int),
{
    let mut i: usize = 0;
    while i < b.len()
        invariant
            i <= b@.len(),
            forall|j: int| 0 <= j < i ==> b@[j] != 0,
        decreases b@.len() - i,
    {
        if b[i] == 0 {
            return i;
        }
        i = i + 1;
    }
    i
}

/// Relies on `String::from_utf8`: it succeeds exactly on valid UTF-8, with
/// the characters that the bytes encode.
#[verifier::external_body]
fn string_from_utf8(b: Vec<u8>) -> (r: Option<String>)
    ensures
        r is Some <==> valid_utf8(b@),
        r matches Some(s) ==> s@ == decode_utf8(b@),
{
    String::from_utf8(b).ok()
}

/// The text of a fixed-width field: the bytes before the first NUL, as UTF-8.
pub fn text_from_bytes(b: &Vec<u8>, field: Field) -> (r: Result<String, DecodeError>)
    ensures
        match text_of(b@) {
            Some(t) => r matches Ok(s) && s@ == t,
            None => r == Err::<String, DecodeError>(DecodeError::InvalidUtf8(field)),
        },
{
    let k = find_nul(b);
    let mut head: Vec<u8> = Vec::new();
    let mut i: usize = 0;
    while i < k
        invariant
            k <= b@.len(),
            i <= k,
            head@ == b@.take(i as int),
        decreases k - i,
    {
        head.push(b[i]);
        i = i + 1;
        assert(head@ =~= b@.take(i as int));
    }
    proof {
        lemma_until_nul(b@, k as int);
    }
    match string_from_utf8(head) {
        Some(s) => Ok(s),
        None => Err(DecodeError::InvalidUtf8(field)),
    }
}

/// Reads a fixed-width string of `n` bytes, cut at the first NUL.
pub fn decode_string_from_numbytes(d: &mut Decoder, n: usize, field: Field) -> (r: Result<String, DecodeError>)
    ensures
        final(d).same_input(*old(d)),
        final(d).context == old(d).context,
        old(d).fits(n as int) ==> match text_of(old(d).data@.subrange(old(d).pos as int, old(d).pos + n)) {
            Some(t) => r matches Ok(s) && s@ == t && final(d).pos == old(d).pos + n,
            None => r == Err::<String, DecodeError>(DecodeError::InvalidUtf8(field)),
        },
        !old(d).fits(n as int) ==> r == Err::<String, DecodeError>(old(d).eof(n as int)),
{
    let b = d.read_bytes(n)?;
    text_from_bytes(&b, field)
}

/// Reads one value of data type `t` in the given byte order.
pub fn decode_value(d: &mut Decoder, t: i32, little: bool) -> (r: Result<CdfType, DecodeError>)
    requires
        known_type(t),
    ensures
        old(d).fits(type_size(t) as int) ==> r == Ok::<CdfType, DecodeError>(value_at(old(d).data@, old(d).pos as int, t, little))
            && final(d).moved(*old(d), old(d).pos + type_size(t)),
        !old(d).fits(type_size(t) as int) ==> r == Err::<CdfType, DecodeError>(old(d).eof(type_size(t) as int))
            && final(d).moved(*old(d), old(d).pos as int),
{
    let ghost s = d.data@;
    let ghost p = d.pos as int;
    proof {
        lemma_pow256_values();
        lemma_be_uint_bound(s, p, type_size(t));
        lemma_le_uint_bound(s, p, type_size(t));
        lemma_be_uint_bound(s, p, 8);
        lemma_le_uint_bound(s, p, 8);
        lemma_be_uint_bound(s, p + 8, 8);
        lemma_le_uint_bound(s, p + 8, 8);
    }
    if t == 32 {
        if d.pos > d.data.len() || 16 > d.data.len() - d.pos {
            return Err(DecodeError::UnexpectedEof { offset: d.pos as u64, needed: 16 });
        }
        let a = d.read_uint(8, little)?;
        let b = d.read_uint(8, little)?;
        return Ok(CdfType::Epoch16(a, b));
    }
    match t {
        1 => {
            let u = d.read_uint(1, little)?;
            Ok(CdfType::Int1(to_i8(u)))
        },
        2 => {
            let u = d.read_uint(2, little)?;
            Ok(CdfType::Int2(to_i16(u)))
        },
        4 => {
            let u = d.read_uint(4, little)?;
            Ok(CdfType::Int4(to_i32(u)))
        },
        8 => {
            let u = d.read_uint(8, little)?;
            Ok(CdfType::Int8(to_i64(u)))
        },
        11 => {
            let u = d.read_uint(1, little)?;
            Ok(CdfType::Uint1(u as u8))
        },
        12 => {
            let u = d.read_uint(2, little)?;
            Ok(CdfType::Uint2(u as u16))
        },
        14 => {
            let u = d.read_uint(4, little)?;
            Ok(CdfType::Uint4(u as u32))
        },
        21 | 44 => {
            let u = d.read_uint(4, little)?;
            Ok(CdfType::Real4(u as u32))
        },
        22 | 45 => {
            let u = d.read_uint(8, little)?;
            Ok(CdfType::Real8(u))
        },
        31 => {
            let u = d.read_uint(8, little)?;
            Ok(CdfType::Epoch(u))
        },
        33 => {
            let u = d.read_uint(8, little)?;
            Ok(CdfType::TimeTt2000(to_i64(u)))
        },
        41 => {
            let u = d.read_uint(1, little)?;
            Ok(CdfType::Byte(to_i8(u)))
        },
        51 => {
            let u = d.read_uint(1, little)?;
            Ok(CdfType::Char(u as u8))
        },
        _ => {
            let u = d.read_uint(1, little)?;
            Ok(CdfType::Uchar(u as u8))
        },
    }
}

/// The outcome of reading `n` values of type `t` from `d0`, leaving `d1`.
pub open spec fn vec_result(
    d0: Decoder,
    d1: Decoder,
    t: i32,
    n: i32,
    little: bool,
    r: Result<Vec<CdfType>, DecodeError>,
) -> bool {
    if !known_type(t) {
        r == Err::<Vec<CdfType>, DecodeError>(DecodeError::BadDataTypeTag(t))
    } else if n < 0 {
        r == Err::<Vec<CdfType>, DecodeError>(DecodeError::IntegerOutOfRange(Field::NumElements))
    } else if !d0.fits(n * type_size(t)) {
        r == Err::<Vec<CdfType>, DecodeError>(d0.eof(n * type_size(t)))
    } else if is_char_type(t) && text_of(d0.data@.subrange(d0.pos as int, d0.pos + n)) is None {
        r == Err::<Vec<CdfType>, DecodeError>(DecodeError::InvalidUtf8(Field::Value))
    } else {
        r matches Ok(v) && vec_matches(d0.data@, d0.pos as int, t, n as nat, little, v@) && d1.pos
            == d0.pos + n * type_size(t)
    }
}

/// Reads `n` values of data type `t` in the given byte order. Char and
/// Uchar values come back as one string, cut at the first NUL.
pub fn decode_vec(d: &mut Decoder, t: i32, n: i32, little: bool) -> (r: Result<Vec<CdfType>, DecodeError>)
    ensures
        final(d).same_input(*old(d)),
        final(d).context == old(d).context,
        vec_result(*old(d), *final(d), t, n, little, r),
{
    let size: usize = if t == 1 || t == 11 || t == 41 || t == 51 || t == 52 {
        1
    } else if t == 2 || t == 12 {
        2
    } else if t == 4 || t == 14 || t == 21 || t == 44 {
        4
    } else if t == 8 || t == 22 || t == 31 || t == 33 || t == 45 {
        8
    } else if t == 32 {
        16
    } else {
        return Err(DecodeError::BadDataTypeTag(t));
    };
    assert(size == type_size(t));
    if n < 0 {
        return Err(DecodeError::IntegerOutOfRange(Field::NumElements));
    }
    assert(n as u64 * size as u64 <= 0x8000_0000u64 * 16) by (nonlinear_arith)
        requires
            0 <= n <= 0x7fff_ffff,
            size <= 16,
    ;
    let total: u64 = n as u64 * size as u64;
    if d.pos > d.data.len() || total > (d.data.len() - d.pos) as u64 {
        return Err(DecodeError::UnexpectedEof { offset: d.pos as u64, needed: total });
    }
    if t == 51 || t == 52 {
        let b = d.read_bytes(n as usize)?;
        let st = text_from_bytes(&b, Field::Value)?;
        let mut v: Vec<CdfType> = Vec::new();
        v.push(CdfType::String(st));
        return Ok(v);
    }
    let ghost s = d.data@;
    let ghost start = d.pos as int;
    let mut v: Vec<CdfType> = Vec::new();
    let mut i: i32 = 0;
    while i < n
        invariant
            known_type(t),
            !is_char_type(t),
            size == type_size(t),
            0 <= i <= n,
            start + n * size <= s.len(),
            d.data@ == s,
            d.version == old(d).version,
            d.context == old(d).context,
            d.pos == start + i * size,
            v@ == values_at(s, start, t, i as nat, little),
        decreases n - i,
    {
        proof {
            assert(i * size + size <= n * size) by (nonlinear_arith)
                requires
                    i < n,
                    size >= 0,
            ;
        }
        let x = decode_value(d, t, little)?;
        v.push(x);
        i = i + 1;
        proof {
            assert(d.pos == start + i * size) by (nonlinear_arith)
                requires
                    d.pos == start + (i - 1) * size + size,
            ;
            assert(v@ =~= values_at(s, start, t, i as nat, little));
        }
    }
    Ok(v)
}

/// Reads `n` values of data type `t`, most significant byte first.
pub fn decode_vec_be(d: &mut Decoder, t: i32, n: i32) -> (r: Result<Vec<CdfType>, DecodeError>)
    ensures
        final(d).same_input(*old(d)),
        final(d).context == old(d).context,
        vec_result(*old(d), *final(d), t, n, false, r),
{
    decode_vec(d, t, n, false)
}

/// Reads `n` values of data type `t`, least significant byte first.
pub fn decode_vec_le(d: &mut Decoder, t: i32, n: i32) -> (r: Result<Vec<CdfType>, DecodeError>)
    ensures
        final(d).same_input(*old(d)),
        final(d).context == old(d).context,
        vec_result(*old(d), *final(d), t, n, true, r),
{
    decode_vec(d, t, n, true)
}

/// The encoding gives values a byte order.
pub open spec fn has_byte_order(enc: Option<Encoding>) -> bool {
    enc matches Some(e) && e.spec_endian() is Some
}

/// The error that reading `n` values of type `t` at `p` under `enc` runs
/// into, if any, in the order the checks are made.
pub open spec fn payload_error(s: Seq<u8>, p: int, enc: Option<Encoding>, t: i32, n: int) -> Option<DecodeError> {
    match enc {
        None => Some(DecodeError::MissingContext(ContextField::Encoding)),
        Some(e) => if e.spec_endian() is None {
            Some(DecodeError::UnsupportedEncoding(e.spec_tag()))
        } else if !known_type(t) {
            Some(DecodeError::BadDataTypeTag(t))
        } else if n < 0 {
            Some(DecodeError::IntegerOutOfRange(Field::NumElements))
        } else if p + n * type_size(t) > s.len() {
            Some(DecodeError::UnexpectedEof { offset: p as u64, needed: (n * type_size(t)) as u64 })
        } else if is_char_type(t) && text_of(s.subrange(p, p + n)) is None {
            Some(DecodeError::InvalidUtf8(Field::Value))
        } else {
            None
        },
    }
}

/// Reads `n` values of data type `t` in the byte order of the file's
/// encoding; files whose encoding is not IEEE 754 are refused.
pub fn decode_payload(d: &mut Decoder, t: i32, n: i32) -> (r: Result<Vec<CdfType>, DecodeError>)
    ensures
        final(d).same_input(*old(d)),
        final(d).context == old(d).context,
        match old(d).context.encoding {
            None => r == Err::<Vec<CdfType>, DecodeError>(
                DecodeError::MissingContext(ContextField::Encoding),
            ),
            Some(e) => match e.spec_endian() {
                None => r == Err::<Vec<CdfType>, DecodeError>(
                    DecodeError::UnsupportedEncoding(e.spec_tag()),
                ),
                Some(en) => vec_result(*old(d), *final(d), t, n, en == Endian::Little, r),
            },
        },
        payload_error(old(d).data@, old(d).pos as int, old(d).context.encoding, t, n as int) matches Some(e)
            ==> r == Err::<Vec<CdfType>, DecodeError>(e),
        r is Ok ==> has_byte_order(old(d).context.encoding),
{
    let e = d.get_encoding()?;
    match e.get_endian()? {
        Endian::Big => decode_vec_be(d, t, n),
        Endian::Little => decode_vec_le(d, t, n),
    }
}

/// The `n`-byte two's complement form of `x`, as an unsigned integer.
pub open spec fn unsigned_of(x: int, n: nat) -> nat {
    if x < 0 {
        (x + pow256(n)) as nat
    } else {
        x as nat
    }
}

impl CdfType {
    /// The data type tag of this value; 0 for a string, which has none.
    pub open spec fn spec_tag(self) -> i32 {
        match self {
            CdfType::Int1(_) => 1,
            CdfType::Int2(_) => 2,
            CdfType::Int4(_) => 4,
            CdfType::Int8(_) => 8,
            CdfType::Uint1(_) => 11,
            CdfType::Uint2(_) => 12,
            CdfType::Uint4(_) => 14,
            CdfType::Real4(_) => 21,
            CdfType::Real8(_) => 22,
            CdfType::Epoch(_) => 31,
            CdfType::Epoch16(_, _) => 32,
            CdfType::TimeTt2000(_) => 33,
            CdfType::Byte(_) => 41,
            CdfType::Char(_) => 51,
            CdfType::Uchar(_) => 52,
            CdfType::String(_) => 0,
        }
    }

    /// The bytes of a fixed-width value in the given byte order; Epoch16 is
    /// two Real8 halves, each in that order.
    pub open spec fn spec_bytes(self, little: bool) -> Seq<u8> {
        match self {
            CdfType::Int1(x) => uint_bytes(unsigned_of(x as int, 1), 1, little),
            CdfType::Int2(x) => uint_bytes(unsigned_of(x as int, 2), 2, little),
            CdfType::Int4(x) => uint_bytes(unsigned_of(x as int, 4), 4, little),
            CdfType::Int8(x) => uint_bytes(unsigned_of(x as int, 8), 8, little),
            CdfType::Uint1(x) => uint_bytes(x as nat, 1, little),
            CdfType::Uint2(x) => uint_bytes(x as nat, 2, little),
            CdfType::Uint4(x) => uint_bytes(x as nat, 4, little),
            CdfType::Real4(x) => uint_bytes(x as nat, 4, little),
            CdfType::Real8(x) => uint_bytes(x as nat, 8, little),
            CdfType::Epoch(x) => uint_bytes(x as nat, 8, little),
            CdfType::Epoch16(a, b) => uint_bytes(a as nat, 8, little) + uint_bytes(b as nat, 8, little),
            CdfType::TimeTt2000(x) => uint_bytes(unsigned_of(x as int, 8), 8, little),
            CdfType::Byte(x) => uint_bytes(unsigned_of(x as int, 1), 1, little),
            CdfType::Char(x) => uint_bytes(x as nat, 1, little),
            CdfType::Uchar(x) => uint_bytes(x as nat, 1, little),
            CdfType::String(_) => Seq::empty(),
        }
    }

    /// The data type tag of a fixed-width value; `NotFixedWidth` for a string.
    pub fn tag(&self) -> (r: Result<i32, EncodeError>)
        ensures
            self is String ==> r == Err::<i32, EncodeError>(EncodeError::NotFixedWidth),
            !(self is String) ==> r == Ok::<i32, EncodeError>(self.spec_tag()),
    {
        match self {
            CdfType::Int1(_) => Ok(1),
            CdfType::Int2(_) => Ok(2),
            CdfType::Int4(_) => Ok(4),
            CdfType::Int8(_) => Ok(8),
            CdfType::Uint1(_) => Ok(11),
            CdfType::Uint2(_) => Ok(12),
            CdfType::Uint4(_) => Ok(14),
            CdfType::Real4(_) => Ok(21),
            CdfType::Real8(_) => Ok(22),
            CdfType::Epoch(_) => Ok(31),
            CdfType::Epoch16(_, _) => Ok(32),
            CdfType::TimeTt2000(_) => Ok(33),
            CdfType::Byte(_) => Ok(41),
            CdfType::Char(_) => Ok(51),
            CdfType::Uchar(_) => Ok(52),
            CdfType::String(_) => Err(EncodeError::NotFixedWidth),
        }
    }

    fn to_bytes(&self, little: bool) -> (r: Result<Vec<u8>, EncodeError>)
        ensures
            self is String ==> r == Err::<Vec<u8>, EncodeError>(EncodeError::NotFixedWidth),
            !(self is String) ==> (r matches Ok(b) && b@ == self.spec_bytes(little)),
    {
        match self {
            CdfType::Int1(x) => Ok(uint_to_bytes(unsigned_i64(*x as i64, 1), 1, little)),
            CdfType::Int2(x) => Ok(uint_to_bytes(unsigned_i64(*x as i64, 2), 2, little)),
            CdfType::Int4(x) => Ok(uint_to_bytes(unsigned_i64(*x as i64, 4), 4, little)),
            CdfType::Int8(x) => Ok(uint_to_bytes(unsigned_i64(*x, 8), 8, little)),
            CdfType::Uint1(x) => Ok(uint_to_bytes(*x as u64, 1, little)),
            CdfType::Uint2(x) => Ok(uint_to_bytes(*x as u64, 2, little)),
            CdfType::Uint4(x) => Ok(uint_to_bytes(*x as u64, 4, little)),
            CdfType::Real4(x) => Ok(uint_to_bytes(*x as u64, 4, little)),
            CdfType::Real8(x) => Ok(uint_to_bytes(*x, 8, little)),
            CdfType::Epoch(x) => Ok(uint_to_bytes(*x, 8, little)),
            CdfType::Epoch16(a, b) => {
                let mut v = uint_to_bytes(*a, 8, little);
                let w = uint_to_bytes(*b, 8, little);
                let mut i: usize = 0;
                let ghost v0 = v@;
                while i < w.len()
                    invariant
                        i <= w@.len(),
                        v@ == v0 + w@.take(i as int),
                    decreases w@.len() - i,
                {
                    v.push(w[i]);
                    i = i + 1;
                    assert(v@ =~= v0 + w@.take(i as int));
                }
                assert(w@.take(w@.len() as int) =~= w@);
                Ok(v)
            },
            CdfType::TimeTt2000(x) => Ok(uint_to_bytes(unsigned_i64(*x, 8), 8, little)),
            CdfType::Byte(x) => Ok(uint_to_bytes(unsigned_i64(*x as i64, 1), 1, little)),
            CdfType::Char(x) => Ok(uint_to_bytes(*x as u64, 1, little)),
            CdfType::Uchar(x) => Ok(uint_to_bytes(*x as u64, 1, little)),
            CdfType::String(_) => Err(EncodeError::NotFixedWidth),
        }
    }

    /// The bytes of a fixed-width value, most significant first.
    pub fn to_be_bytes(&self) -> (r: Result<Vec<u8>, EncodeError>)
        ensures
            self is String ==> r == Err::<Vec<u8>, EncodeError>(EncodeError::NotFixedWidth),
            !(self is String) ==> (r matches Ok(b) && b@ == self.spec_bytes(false)),
    {
        self.to_bytes(false)
    }

    /// The bytes of a fixed-width value, least significant first.
    pub fn to_le_bytes(&self) -> (r: Result<Vec<u8>, EncodeError>)
        ensures
            self is String ==> r == Err::<Vec<u8>, EncodeError>(EncodeError::NotFixedWidth),
            !(self is String) ==> (r matches Ok(b) && b@ == self.spec_bytes(true)),
    {
        self.to_bytes(true)
    }
}

/// The `n`-byte two's complement form of `x`.
fn unsigned_i64(x: i64, n: usize) -> (r: u64)
    requires
        1 <= n <= 8,
        n == 1 ==> -0x80 <= x < 0x80,
        n == 2 ==> -0x8000 <= x < 0x8000,
        n == 4 ==> -0x8000_0000 <= x < 0x8000_0000,
        n == 1 || n == 2 || n == 4 || n == 8,
    ensures
        r == unsigned_of(x as int, n as nat),
{
    proof {
        lemma_pow256_values();
    }
    if x >= 0 {
        x as u64
    } else if n == 8 {
        let y = x + 0x7fff_ffff_ffff_ffff + 1;
        y as u64 + 0x8000_0000_0000_0000
    } else if n == 4 {
        (x + 0x1_0000_0000) as u64
    } else if n == 2 {
        (x + 0x1_0000) as u64
    } else {
        (x + 0x100) as u64
    }
}

/// The `n` bytes of `x` in the given byte order.
fn uint_to_bytes(x: u64, n: usize, little: bool) -> (r: Vec<u8>)
    ensures
        r@ == uint_bytes(x as nat, n as nat, little),
    decreases n,
{
    if n == 0 {
        return Vec::new();
    }
    let rest = uint_to_bytes(x / 256, n - 1, little);
    let low = (x % 256) as u8;
    if little {
        let mut v: Vec<u8> = Vec::new();
        v.push(low);
        let mut i: usize = 0;
        while i < rest.len()
            invariant
                i <= rest@.len(),
                v@ == seq![low] + rest@.take(i as int),
            decreases rest@.len() - i,
        {
            v.push(rest[i]);
            i = i + 1;
            assert(v@ =~= seq![low] + rest@.take(i as int));
        }
        assert(rest@.take(rest@.len() as int) =~= rest@);
        v
    } else {
        let mut v = rest;
        v.push(low);
        v
    }
}

/// A fixed-width value read back from its own bytes is the value itself; an
/// Epoch16 comes back half by half.
pub proof fn lemma_value_round_trip(v: CdfType, little: bool)
    requires
        !(v is String),
    ensures
        v.spec_bytes(little).len() == type_size(v.spec_tag()),
        value_at(v.spec_bytes(little), 0, v.spec_tag(), little) == v,
{
    lemma_pow256_values();
    match v {
        CdfType::Epoch16(a, b) => {
            let x = uint_bytes(a as nat, 8, little);
            let y = uint_bytes(b as nat, 8, little);
            lemma_uint_bytes_round_trip(a as nat, 8, little);
            lemma_uint_bytes_round_trip(b as nat, 8, little);
            let s = x + y;
            assert(s.subrange(0, 8) =~= x.subrange(0, 8));
            assert(s.subrange(8, 16) =~= y.subrange(0, 8));
            lemma_uint_local(s, x, 0, 0, 8, little);
            lemma_uint_local(s, y, 8, 0, 8, little);
        },
        CdfType::Int1(x) => lemma_uint_bytes_round_trip(unsigned_of(x as int, 1), 1, little),
        CdfType::Int2(x) => lemma_uint_bytes_round_trip(unsigned_of(x as int, 2), 2, little),
        CdfType::Int4(x) => lemma_uint_bytes_round_trip(unsigned_of(x as int, 4), 4, little),
        CdfType::Int8(x) => lemma_uint_bytes_round_trip(unsigned_of(x as int, 8), 8, little),
        CdfType::Uint1(x) => lemma_uint_bytes_round_trip(x as nat, 1, little),
        CdfType::Uint2(x) => lemma_uint_bytes_round_trip(x as nat, 2, little),
        CdfType::Uint4(x) => lemma_uint_bytes_round_trip(x as nat, 4, little),
        CdfType::Real4(x) => lemma_uint_bytes_round_trip(x as nat, 4, little),
        CdfType::Real8(x) => lemma_uint_bytes_round_trip(x as nat, 8, little),
        CdfType::Epoch(x) => lemma_uint_bytes_round_trip(x as nat, 8, little),
        CdfType::TimeTt2000(x) => lemma_uint_bytes_round_trip(unsigned_of(x as int, 8), 8, little),
        CdfType::Byte(x) => lemma_uint_bytes_round_trip(unsigned_of(x as int, 1), 1, little),
        CdfType::Char(x) => lemma_uint_bytes_round_trip(x as nat, 1, little),
        CdfType::Uchar(x) => lemma_uint_bytes_round_trip(x as nat, 1, little),
        CdfType::String(_) => {},
    }
}

/// The bytes of the fixed-width values `vs`, one after the other.
pub open spec fn values_bytes(vs: Seq<CdfType>, little: bool) -> Seq<u8>
    decreases vs.len(),
{
    if vs.len() == 0 {
        Seq::empty()
    } else {
        values_bytes(vs.drop_last(), little) + vs.last().spec_bytes(little)
    }
}

/// Only the bytes of one value matter to what is read there.
pub proof fn lemma_value_local(s: Seq<u8>, p: int, u: Seq<u8>, q: int, t: i32, little: bool)
    requires
        known_type(t),
        0 <= p,
        p + type_size(t) <= s.len(),
        0 <= q,
        q + type_size(t) <= u.len(),
        s.subrange(p, p + type_size(t)) == u.subrange(q, q + type_size(t)),
    ensures
        value_at(s, p, t, little) == value_at(u, q, t, little),
{
    let n = type_size(t);
    lemma_uint_local(s, u, p, q, n, little);
    if t == 32 {
        assert(s.subrange(p, p + 8) =~= s.subrange(p, p + n).subrange(0, 8));
        assert(u.subrange(q, q + 8) =~= u.subrange(q, q + n).subrange(0, 8));
        assert(s.subrange(p + 8, p + 16) =~= s.subrange(p, p + n).subrange(8, 16));
        assert(u.subrange(q + 8, q + 16) =~= u.subrange(q, q + n).subrange(8, 16));
        lemma_uint_local(s, u, p, q, 8, little);
        lemma_uint_local(s, u, p + 8, q + 8, 8, little);
    }
}

/// Values of one fixed-width type, written one after the other in a byte
/// order and read back in that order, are the values themselves.
pub proof fn lemma_values_round_trip(vs: Seq<CdfType>, t: i32, little: bool)
    requires
        known_type(t),
        forall|i: int| 0 <= i < vs.len() ==> !(#[trigger] vs[i] is String) && vs[i].spec_tag() == t,
    ensures
        values_bytes(vs, little).len() == vs.len() * type_size(t),
        values_at(values_bytes(vs, little), 0, t, vs.len(), little) == vs,
    decreases vs.len(),
{
    if vs.len() > 0 {
        let k: int = vs.len() - 1;
        let size: int = type_size(t) as int;
        let front = vs.drop_last();
        assert forall|i: int| 0 <= i < front.len() implies !(#[trigger] front[i] is String) && front[i].spec_tag() == t by {
            assert(front[i] == vs[i]);
        }
        lemma_values_round_trip(front, t, little);
        let b = values_bytes(front, little);
        let last = vs.last();
        assert(!(vs[vs.len() - 1] is String));
        lemma_value_round_trip(last, little);
        let c = last.spec_bytes(little);
        let all = values_bytes(vs, little);
        assert(all == b + c);
        assert(b.len() == k * size);
        assert(all.len() == vs.len() * size) by (nonlinear_arith)
            requires
                all.len() == k * size + size,
                vs.len() == k + 1,
        ;
        assert forall|i: int| 0 <= i < vs.len() implies #[trigger] values_at(all, 0, t, vs.len(), little)[i] == vs[i] by {
            if i < k {
                assert(i * size + size <= k * size) by (nonlinear_arith)
                    requires
                        0 <= i < k,
                        size >= 0,
                ;
                assert(0 <= i * size) by (nonlinear_arith)
                    requires
                        0 <= i,
                        size >= 0,
                ;
                assert(all.subrange(i * size, i * size + size) =~= b.subrange(i * size, i * size + size));
                lemma_value_local(all, i * size, b, i * size, t, little);
                assert(values_at(b, 0, t, k as nat, little)[i] == front[i]);
            } else {
                assert(i == k);
                assert(all.subrange(k * size, k * size + size) =~= c.subrange(0, size));
                lemma_value_local(all, k * size, c, 0, t, little);
            }
        }
        assert(values_at(all, 0, t, vs.len(), little) =~= vs);
    }
}

/// Wherever in a file the bytes of values `vs` of type `t` stand, reading
/// `vs.len()` values of that type there gives `vs` back; so a decoder whose
/// result is `values_at` of its bytes returns the values that were written.
pub proof fn lemma_values_in_file(s: Seq<u8>, p: int, vs: Seq<CdfType>, t: i32, little: bool)
    requires
        known_type(t),
        forall|i: int| 0 <= i < vs.len() ==> !(#[trigger] vs[i] is String) && vs[i].spec_tag() == t,
        0 <= p,
        p + vs.len() * type_size(t) <= s.len(),
        s.subrange(p, p + vs.len() * type_size(t)) == values_bytes(vs, little),
    ensures
        values_at(s, p, t, vs.len(), little) == vs,
{
    lemma_values_round_trip(vs, t, little);
    let b = values_bytes(vs, little);
    let size: int = type_size(t) as int;
    let n: int = vs.len() as int;
    assert forall|i: int| 0 <= i < vs.len() implies #[trigger] values_at(s, p, t, vs.len(), little)[i] == vs[i] by {
        assert(i * size + size <= n * size) by (nonlinear_arith)
            requires
                0 <= i < n,
                size >= 0,
        ;
        assert(0 <= i * size) by (nonlinear_arith)
            requires
                0 <= i,
                size >= 0,
        ;
        assert(s.subrange(p + i * size, p + i * size + size) =~= b.subrange(i * size, i * size + size));
        lemma_value_local(s, p + i * size, b, i * size, t, little);
        assert(values_at(b, 0, t, vs.len(), little)[i] == vs[i]);
    }
    assert(values_at(s, p, t, vs.len(), little) =~= vs);
}

} // verus!
