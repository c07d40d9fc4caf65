use cdf::decode::Decoder;
use cdf::error::{ContextField, DecodeError, EncodeError, Field};
use cdf::repr::{Encoding, Endian};
use cdf::traits::Decode;
use cdf::types::{decode_payload, decode_vec_be, decode_vec_le, CdfType};

#[test]
fn test_decode_primitives() -> Result<(), DecodeError> {
    assert_eq!(243u8, u8::decode(243u8.to_le_bytes().as_slice())?);
    assert_eq!(243u16, u16::decode(243u16.to_le_bytes().as_slice())?);
    assert_eq!(243u32, u32::decode(243u32.to_le_bytes().as_slice())?);
    assert_eq!(243u64, u64::decode(243u64.to_le_bytes().as_slice())?);

    assert_eq!(-4i8, i8::decode((-4i8).to_le_bytes().as_slice())?);
    assert_eq!(-4i16, i16::decode((-4i16).to_le_bytes().as_slice())?);
    assert_eq!(-4i32, i32::decode((-4i32).to_le_bytes().as_slice())?);
    assert_eq!(-4i64, i64::decode((-4i64).to_le_bytes().as_slice())?);
    Ok(())
}

#[test]
fn decode_primitive_too_short() {
    assert_eq!(
        u32::decode(&[1, 2, 3]),
        Err(DecodeError::UnexpectedEof { offset: 0, needed: 4 })
    );
}

fn samples() -> Vec<CdfType> {
    vec![
        CdfType::Int1(-7),
        CdfType::Int2(-7),
        CdfType::Int4(-7),
        CdfType::Int8(-7),
        CdfType::Uint1(7),
        CdfType::Uint2(0xfffe),
        CdfType::Uint4(7),
        CdfType::Real4((-7.0f32).to_bits()),
        CdfType::Real8((-7.0f64).to_bits()),
        CdfType::Epoch(63_000_000_000_000f64.to_bits()),
        CdfType::Epoch16(1.5f64.to_bits(), 2.25f64.to_bits()),
        CdfType::TimeTt2000(-7),
        CdfType::Byte(-7),
        CdfType::Char(b'x'),
        CdfType::Uchar(b'y'),
    ]
}

#[test]
fn value_round_trip_big_endian() {
    for v in samples() {
        let bytes = v.to_be_bytes().unwrap();
        let tag = v.tag().unwrap();
        let len = bytes.len();
        let mut d = Decoder::new(bytes);
        let out = decode_vec_be(&mut d, tag, 1).unwrap();
        if tag == 51 || tag == 52 {
            assert_eq!(out.len(), 1);
            assert!(matches!(out[0], CdfType::String(_)));
        } else {
            assert_eq!(out.len(), 1);
            assert_eq!(out[0], v);
        }
        assert_eq!(d.pos, len);
    }
}

#[test]
fn value_round_trip_little_endian() {
    for v in samples() {
        let bytes = v.to_le_bytes().unwrap();
        let tag = v.tag().unwrap();
        if tag == 51 || tag == 52 {
            continue;
        }
        let mut d = Decoder::new(bytes);
        let out = decode_vec_le(&mut d, tag, 1).unwrap();
        assert_eq!(out.len(), 1);
        assert_eq!(out[0], v);
    }
}

#[test]
fn value_bytes_exact() {
    assert_eq!(CdfType::Int4(-7).to_be_bytes().unwrap(), vec![0xff, 0xff, 0xff, 0xf9]);
    assert_eq!(CdfType::Int4(-7).to_le_bytes().unwrap(), vec![0xf9, 0xff, 0xff, 0xff]);
    assert_eq!(CdfType::Uint2(0x1234).to_be_bytes().unwrap(), vec![0x12, 0x34]);
    assert_eq!(CdfType::Uint2(0x1234).to_le_bytes().unwrap(), vec![0x34, 0x12]);
    assert_eq!(
        CdfType::String("a".to_string()).to_be_bytes(),
        Err(EncodeError::NotFixedWidth)
    );
}

#[test]
fn epoch16_halves_swapped_independently() {
    let a = 1.5f64.to_bits();
    let b = 2.25f64.to_bits();
    let mut bytes = a.to_le_bytes().to_vec();
    bytes.extend_from_slice(&b.to_le_bytes());
    assert_eq!(CdfType::Epoch16(a, b).to_le_bytes().unwrap(), bytes);
    let mut d = Decoder::new(bytes);
    assert_eq!(decode_vec_le(&mut d, 32, 1).unwrap(), vec![CdfType::Epoch16(a, b)]);
}

#[test]
fn float_aliases_decode_alike() {
    let bits = 2.5f32.to_bits();
    let mut d = Decoder::new(bits.to_be_bytes().to_vec());
    assert_eq!(decode_vec_be(&mut d, 44, 1).unwrap(), vec![CdfType::Real4(bits)]);
    let bits = 2.5f64.to_bits();
    let mut d = Decoder::new(bits.to_be_bytes().to_vec());
    assert_eq!(decode_vec_be(&mut d, 45, 1).unwrap(), vec![CdfType::Real8(bits)]);
}

#[test]
fn vector_keeps_order() {
    let mut d = Decoder::new(vec![0, 1, 0, 2, 0xff, 0xfd]);
    assert_eq!(
        decode_vec_be(&mut d, 2, 3).unwrap(),
        vec![CdfType::Int2(1), CdfType::Int2(2), CdfType::Int2(-3)]
    );
    assert_eq!(d.pos, 6);
}

#[test]
fn chars_collapse_to_string_cut_at_nul() {
    let mut d = Decoder::new(b"ab\0cd".to_vec());
    assert_eq!(
        decode_vec_be(&mut d, 51, 5).unwrap(),
        vec![CdfType::String("ab".to_string())]
    );
    assert_eq!(d.pos, 5);
    let mut d = Decoder::new(b"hello".to_vec());
    assert_eq!(
        decode_vec_le(&mut d, 52, 5).unwrap(),
        vec![CdfType::String("hello".to_string())]
    );
    let mut d = Decoder::new(Vec::new());
    assert_eq!(
        decode_vec_be(&mut d, 51, 0).unwrap(),
        vec![CdfType::String(String::new())]
    );
}

#[test]
fn chars_invalid_utf8() {
    let mut d = Decoder::new(vec![b'a', 0xff, 0xfe, 0]);
    assert_eq!(
        decode_vec_be(&mut d, 51, 4),
        Err(DecodeError::InvalidUtf8(Field::Value))
    );
    // Bytes after the first NUL are not looked at.
    let mut d = Decoder::new(vec![b'a', 0, 0xff, 0xfe]);
    assert_eq!(
        decode_vec_be(&mut d, 51, 4).unwrap(),
        vec![CdfType::String("a".to_string())]
    );
}

#[test]
fn bad_tag_and_bad_count() {
    let mut d = Decoder::new(vec![0; 8]);
    assert_eq!(decode_vec_be(&mut d, 3, 1), Err(DecodeError::BadDataTypeTag(3)));
    assert_eq!(
        decode_vec_be(&mut d, 4, -1),
        Err(DecodeError::IntegerOutOfRange(Field::NumElements))
    );
    assert_eq!(
        decode_vec_be(&mut d, 8, 2),
        Err(DecodeError::UnexpectedEof { offset: 0, needed: 16 })
    );
}

#[test]
fn payload_follows_file_encoding() {
    let mut d = Decoder::new(vec![1, 0, 0, 0]);
    d.context.encoding = Some(Encoding::IbmPc);
    assert_eq!(decode_payload(&mut d, 4, 1).unwrap(), vec![CdfType::Int4(1)]);
    let mut d = Decoder::new(vec![1, 0, 0, 0]);
    d.context.encoding = Some(Encoding::Network);
    assert_eq!(decode_payload(&mut d, 4, 1).unwrap(), vec![CdfType::Int4(0x0100_0000)]);
    let mut d = Decoder::new(vec![1, 0, 0, 0]);
    assert_eq!(
        decode_payload(&mut d, 4, 1),
        Err(DecodeError::MissingContext(ContextField::Encoding))
    );
}

#[test]
fn rejected_encodings() {
    let rejected = [
        (3, Encoding::Vax),
        (11, Encoding::Hp),
        (14, Encoding::AlphaVmsD),
        (15, Encoding::AlphaVmsG),
        (20, Encoding::Ia64VmsD),
        (21, Encoding::Ia64VmsG),
    ];
    for (tag, enc) in rejected {
        assert_eq!(Encoding::from_tag(tag), Ok(enc));
        let mut d = Decoder::new(vec![0; 16]);
        d.context.encoding = Some(enc);
        assert_eq!(decode_payload(&mut d, 4, 2), Err(DecodeError::UnsupportedEncoding(tag)));
    }
    assert_eq!(Encoding::from_tag(0), Err(DecodeError::UnsupportedEncoding(0)));
    assert_eq!(Encoding::from_tag(8), Err(DecodeError::UnsupportedEncoding(8)));
}

#[test]
fn endianness_table() {
    for t in [1, 2, 5, 7, 9, 12, 18] {
        assert_eq!(Encoding::from_tag(t).unwrap().get_endian(), Ok(Endian::Big));
    }
    for t in [4, 6, 13, 16, 17, 19] {
        assert_eq!(Encoding::from_tag(t).unwrap().get_endian(), Ok(Endian::Little));
    }
}

#[test]
fn many_values_round_trip() {
    let vs = vec![CdfType::Int4(1), CdfType::Int4(-2), CdfType::Int4(i32::MAX), CdfType::Int4(i32::MIN)];
    let mut be = Vec::new();
    let mut le = Vec::new();
    for v in vs.iter() {
        be.extend(v.to_be_bytes().unwrap());
        le.extend(v.to_le_bytes().unwrap());
    }
    let mut d = Decoder::new(be);
    assert_eq!(decode_vec_be(&mut d, 4, 4).unwrap(), vs);
    let mut d = Decoder::new(le);
    assert_eq!(decode_vec_le(&mut d, 4, 4).unwrap(), vs);
}
