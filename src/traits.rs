use vstd::prelude::*;

use crate::bytes::{le_uint, lemma_le_uint_bound, lemma_pow256_values, read_uint, signed};
use crate::decode::{to_i16, to_i32, to_i64, to_i8};
use crate::error::DecodeError;

verus! {

/// A fixed-width integer read from the start of a byte slice, least
/// significant byte first.
pub trait Decode: Sized {
    /// Bytes taken by one value.
    spec fn width() -> nat;

    /// The value that the first `width()` bytes of `b` hold.
    spec fn spec_decode(b: Seq<u8>) -> Self;

    /// Decodes a value from the first bytes of `b`.
    fn decode(b: &[u8]) -> (r: Result<Self, DecodeError>)
        ensures
            b@.len() >= Self::width() ==> r == Ok::<Self, DecodeError>(Self::spec_decode(b@)),
            b@.len() < Self::width() ==> r == Err::<Self, DecodeError>(
                DecodeError::UnexpectedEof { offset: 0, needed: Self::width() as u64 },
            ),
    ;
}

impl Decode for u8 {
    open spec fn width() -> nat {
        1
    }

    open spec fn spec_decode(b: Seq<u8>) -> u8 {
        le_uint(b, 0, 1) as u8
    }

    fn decode(b: &[u8]) -> (r: Result<u8, DecodeError>) {
        if b.len() < 1 {
            return Err(DecodeError::UnexpectedEof { offset: 0, needed: 1 });
        }
        let u = read_uint(b, 0, 1, true);
        proof {
            lemma_le_uint_bound(b@, 0, 1);
            lemma_pow256_values();
        }
        Ok(u as u8)
    }
}

impl Decode for u16 {
    open spec fn width() -> nat {
        2
    }

    open spec fn spec_decode(b: Seq<u8>) -> u16 {
        le_uint(b, 0, 2) as u16
    }

    fn decode(b: &[u8]) -> (r: Result<u16, DecodeError>) {
        if b.len() < 2 {
            return Err(DecodeError::UnexpectedEof { offset: 0, needed: 2 });
        }
        let u = read_uint(b, 0, 2, true);
        proof {
            lemma_le_uint_bound(b@, 0, 2);
            lemma_pow256_values();
        }
        Ok(u as u16)
    }
}

impl Decode for u32 {
    open spec fn width() -> nat {
        4
    }

    open spec fn spec_decode(b: Seq<u8>) -> u32 {
        le_uint(b, 0, 4) as u32
    }

    fn decode(b: &[u8]) -> (r: Result<u32, DecodeError>) {
        if b.len() < 4 {
            return Err(DecodeError::UnexpectedEof { offset: 0, needed: 4 });
        }
        let u = read_uint(b, 0, 4, true);
        proof {
            lemma_le_uint_bound(b@, 0, 4);
            lemma_pow256_values();
        }
        Ok(u as u32)
    }
}

impl Decode for u64 {
    open spec fn width() -> nat {
        8
    }

    open spec fn spec_decode(b: Seq<u8>) -> u64 {
        le_uint(b, 0, 8) as u64
    }

    fn decode(b: &[u8]) -> (r: Result<u64, DecodeError>) {
        if b.len() < 8 {
            return Err(DecodeError::UnexpectedEof { offset: 0, needed: 8 });
        }
        let u = read_uint(b, 0, 8, true);
        proof {
            lemma_le_uint_bound(b@, 0, 8);
            lemma_pow256_values();
        }
        Ok(u as u64)
    }
}

impl Decode for i8 {
    open spec fn width() -> nat {
        1
    }

    open spec fn spec_decode(b: Seq<u8>) -> i8 {
        signed(le_uint(b, 0, 1), 1) as i8
    }

    fn decode(b: &[u8]) -> (r: Result<i8, DecodeError>) {
        if b.len() < 1 {
            return Err(DecodeError::UnexpectedEof { offset: 0, needed: 1 });
        }
        let u = read_uint(b, 0, 1, true);
        proof {
            lemma_le_uint_bound(b@, 0, 1);
            lemma_pow256_values();
        }
        Ok(to_i8(u))
    }
}

impl Decode for i16 {
    open spec fn width() -> nat {
        2
    }

    open spec fn spec_decode(b: Seq<u8>) -> i16 {
        signed(le_uint(b, 0, 2), 2) as i16
    }

    fn decode(b: &[u8]) -> (r: Result<i16, DecodeError>) {
        if b.len() < 2 {
            return Err(DecodeError::UnexpectedEof { offset: 0, needed: 2 });
        }
        let u = read_uint(b, 0, 2, true);
        proof {
            lemma_le_uint_bound(b@, 0, 2);
            lemma_pow256_values();
        }
        Ok(to_i16(u))
    }
}

impl Decode for i32 {
    open spec fn width() -> nat {
        4
    }

    open spec fn spec_decode(b: Seq<u8>) -> i32 {
        signed(le_uint(b, 0, 4), 4) as i32
    }

    fn decode(b: &[u8]) -> (r: Result<i32, DecodeError>) {
        if b.len() < 4 {
            return Err(DecodeError::UnexpectedEof { offset: 0, needed: 4 });
        }
        let u = read_uint(b, 0, 4, true);
        proof {
            lemma_le_uint_bound(b@, 0, 4);
            lemma_pow256_values();
        }
        Ok(to_i32(u))
    }
}

impl Decode for i64 {
    open spec fn width() -> nat {
        8
    }

    open spec fn spec_decode(b: Seq<u8>) -> i64 {
        signed(le_uint(b, 0, 8), 8) as i64
    }

    fn decode(b: &[u8]) -> (r: Result<i64, DecodeError>) {
        if b.len() < 8 {
            return Err(DecodeError::UnexpectedEof { offset: 0, needed: 8 });
        }
        let u = read_uint(b, 0, 8, true);
        proof {
            lemma_le_uint_bound(b@, 0, 8);
            lemma_pow256_values();
        }
        Ok(to_i64(u))
    }
}

} // verus!
