use cdf::cdf::Cdf;
use cdf::decode::Decoder;
use cdf::record::adr::AttributeDescriptorRecord;
use cdf::record::collection::Decodable;
use cdf::record::vxr::VariableIndexRecord;
use cdf::error::{DecodeError, Field, RecordKind};
use cdf::record::cdr::CdrFlags;
use cdf::record::cpr::CdfCompressionKind;
use cdf::record::rvdr::data_len;
use cdf::record::vxr::VariableIndexRecordChild;
use cdf::repr::{CdfVersion, Encoding};
use cdf::types::CdfType;

/// Writes records into a zero-filled file image.
struct Image {
    buf: Vec<u8>,
    v3: bool,
}

impl Image {
    fn new(len: usize, v3: bool) -> Image {
        Image { buf: vec![0; len], v3 }
    }

    fn w(&self) -> usize {
        if self.v3 {
            8
        } else {
            4
        }
    }

    fn name_width(&self) -> usize {
        if self.v3 {
            256
        } else {
            64
        }
    }

    fn u32(&mut self, at: usize, v: u32) -> usize {
        self.buf[at..at + 4].copy_from_slice(&v.to_be_bytes());
        at + 4
    }

    fn i32(&mut self, at: usize, v: i32) -> usize {
        self.buf[at..at + 4].copy_from_slice(&v.to_be_bytes());
        at + 4
    }

    fn off(&mut self, at: usize, v: i64) -> usize {
        if self.v3 {
            self.buf[at..at + 8].copy_from_slice(&v.to_be_bytes());
            at + 8
        } else {
            self.i32(at, v as i32)
        }
    }

    fn bytes(&mut self, at: usize, b: &[u8]) -> usize {
        self.buf[at..at + b.len()].copy_from_slice(b);
        at + b.len()
    }

    fn text(&mut self, at: usize, s: &str, width: usize) -> usize {
        self.bytes(at, s.as_bytes());
        at + width
    }

    fn header(&mut self, at: usize, size: usize, tag: i32) -> usize {
        let p = self.off(at, size as i64);
        self.i32(p, tag)
    }

    fn cdr(&mut self, at: usize, gdr: usize, ver: (i32, i32, i32), enc: i32, flags: i32, copyright: &str) -> usize {
        let cw = if ver.0 < 2 || (ver.0 == 2 && ver.1 < 5) { 1945 } else { 256 };
        let size = 2 * self.w() + 40 + cw;
        let mut p = self.header(at, size, 1);
        p = self.off(p, gdr as i64);
        p = self.i32(p, ver.0);
        p = self.i32(p, ver.1);
        p = self.i32(p, enc);
        p = self.i32(p, flags);
        p = self.i32(p, 0);
        p = self.i32(p, 0);
        p = self.i32(p, ver.2);
        p = self.i32(p, -1);
        p = self.i32(p, -1);
        self.text(p, copyright, cw)
    }

    #[allow(clippy::too_many_arguments)]
    fn gdr(
        &mut self,
        at: usize,
        heads: (i64, i64, i64),
        eof: i64,
        counts: (i32, i32, i32, i32),
        sizes: &[i32],
        uir: i64,
        leap: i32,
    ) -> usize {
        let size = 6 * self.w() + 36 + 4 * sizes.len();
        let mut p = self.header(at, size, 2);
        p = self.off(p, heads.0);
        p = self.off(p, heads.1);
        p = self.off(p, heads.2);
        p = self.off(p, eof);
        p = self.i32(p, counts.0);
        p = self.i32(p, counts.1);
        p = self.i32(p, counts.2);
        p = self.i32(p, sizes.len() as i32);
        p = self.i32(p, counts.3);
        p = self.off(p, uir);
        p = self.i32(p, 0);
        p = self.i32(p, leap);
        p = self.i32(p, -1);
        for s in sizes {
            p = self.i32(p, *s);
        }
        p
    }

    fn adr_size(&self) -> usize {
        4 * self.w() + 36 + self.name_width()
    }

    #[allow(clippy::too_many_arguments)]
    fn adr(&mut self, at: usize, next: i64, agr: i64, azr: i64, num: i32, ngr: i32, nz: i32, rfu_a: i32, name: &str) -> usize {
        let size = self.adr_size();
        let nw = self.name_width();
        let mut p = self.header(at, size, 4);
        p = self.off(p, next);
        p = self.off(p, agr);
        p = self.i32(p, 1);
        p = self.i32(p, num);
        p = self.i32(p, ngr);
        p = self.i32(p, ngr - 1);
        p = self.i32(p, rfu_a);
        p = self.off(p, azr);
        p = self.i32(p, nz);
        p = self.i32(p, nz - 1);
        p = self.i32(p, -1);
        self.text(p, name, nw)
    }

    #[allow(clippy::too_many_arguments)]
    fn entry(&mut self, at: usize, tag: i32, next: i64, attr: i32, data_type: i32, num: i32, n: i32, value: &[u8]) -> usize {
        let size = 2 * self.w() + 40 + value.len();
        let mut p = self.header(at, size, tag);
        p = self.off(p, next);
        p = self.i32(p, attr);
        p = self.i32(p, data_type);
        p = self.i32(p, num);
        p = self.i32(p, n);
        p = self.i32(p, 0);
        p = self.i32(p, 0);
        p = self.i32(p, 0);
        p = self.i32(p, -1);
        p = self.i32(p, -1);
        self.bytes(p, value)
    }

    /// A variable descriptor; `dims` is `None` for an rVariable.
    #[allow(clippy::too_many_arguments)]
    fn vdr(
        &mut self,
        at: usize,
        tag: i32,
        next: i64,
        vxr: i64,
        data_type: i32,
        num_elements: i32,
        flags: i32,
        name: &str,
        dims: Option<&[i32]>,
        varys: &[i32],
        pad: &[u8],
    ) -> usize {
        let nw = self.name_width();
        let mut p = self.header(at, 0, tag);
        p = self.off(p, next);
        p = self.i32(p, data_type);
        p = self.i32(p, 0);
        p = self.off(p, vxr);
        p = self.off(p, vxr);
        p = self.i32(p, flags);
        p = self.i32(p, 0);
        p = self.i32(p, 0);
        p = self.i32(p, -1);
        p = self.i32(p, -1);
        p = self.i32(p, num_elements);
        p = self.i32(p, 0);
        p = self.off(p, -1);
        p = self.i32(p, 1);
        p = self.text(p, name, nw);
        if let Some(sizes) = dims {
            p = self.i32(p, sizes.len() as i32);
            for s in sizes {
                p = self.i32(p, *s);
            }
        }
        for v in varys {
            p = self.i32(p, *v);
        }
        p = self.bytes(p, pad);
        self.off(at, (p - at) as i64);
        p
    }

    fn vxr(&mut self, at: usize, next: i64, entries: &[(i32, i32, i64)], num_used: i32) -> usize {
        let size = 2 * self.w() + 12 + entries.len() * (8 + self.w());
        let mut p = self.header(at, size, 6);
        p = self.off(p, next);
        p = self.i32(p, entries.len() as i32);
        p = self.i32(p, num_used);
        for e in entries {
            p = self.i32(p, e.0);
        }
        for e in entries {
            p = self.i32(p, e.1);
        }
        for e in entries {
            p = self.off(p, e.2);
        }
        p
    }

    fn vvr(&mut self, at: usize, payload: &[u8]) -> usize {
        let size = self.w() + 4 + payload.len();
        let p = self.header(at, size, 7);
        self.bytes(p, payload)
    }

    fn uir(&mut self, at: usize, next: i64, prev: i64, size: usize) -> usize {
        let mut p = self.header(at, size, -1);
        p = self.off(p, next);
        self.off(p, prev);
        at + size
    }
}

/// A version 3.8.1 little-endian file: 11 attributes,
/// 21 zVariables, no rVariables, three unused records from 10964.
fn v3_sample() -> Vec<u8> {
    let mut f = Image::new(24000, true);
    f.u32(0, 0xcdf3_0001);
    f.u32(4, 0x0000_ffff);
    f.cdr(8, 320, (3, 8, 1), 6, 0b1111, &"c".repeat(143));
    f.gdr(320, (0, 11_100, 404), 117_050, (0, 11, -1, 21), &[], 10_964, 20_170_101);
    let entries_at = 19_000;
    for i in 0..11usize {
        let at = 404 + i * f.adr_size();
        let next = if i == 10 { 0 } else { (at + f.adr_size()) as i64 };
        let (agr, ngr, azr, nz) = match i {
            0 => (entries_at as i64, 1, 0, 0),
            1 => (0, 0, (entries_at + 200) as i64, 2),
            _ => (0, 0, 0, 0),
        };
        f.adr(at, next, agr, azr, i as i32, ngr, nz, 0, &format!("attr{i}"));
    }
    f.entry(entries_at, 5, 0, 0, 51, 0, 16, b"Global title\0\0\0\0");
    let second = entries_at + 300;
    f.entry(entries_at + 200, 9, second as i64, 1, 4, 0, 2, &[7, 0, 0, 0, 0xf9, 0xff, 0xff, 0xff]);
    f.entry(second, 9, 0, 1, 4, 1, 1, &[1, 0, 0, 0]);
    f.uir(10_964, 10_964 + 28, 0, 28);
    f.uir(10_964 + 28, 10_964 + 56, 10_964, 28);
    f.uir(10_964 + 56, 0, 10_964 + 28, 28);
    let vxr_at = 21_000;
    let mut at = 11_100;
    for i in 0..21usize {
        let start = at;
        let vxr = if i == 0 { vxr_at as i64 } else { 0 };
        let end = f.vdr(start, 8, 0, vxr, 2, 1, 1, &format!("var{i}"), Some(&[2]), &[-1], &[]);
        let next = if i == 20 { 0 } else { end as i64 };
        f.off(start + 12, next);
        at = end;
    }
    let vvr_at = 22_000;
    f.vxr(vxr_at, 0, &[(0, 4, vvr_at as i64), (-1, -1, -1)], 1);
    let payload: Vec<u8> = (0..10i16).flat_map(|k| (k * 100).to_le_bytes()).collect();
    f.vvr(vvr_at, &payload);
    f.buf
}

/// A version 2.5.22 big-endian file: 27 attributes, 15
/// rVariables of one dimension of size 3, no zVariables.
fn v2_sample() -> Vec<u8> {
    let mut f = Image::new(6000, false);
    f.u32(0, 0xcdf2_6002);
    f.u32(4, 0x0000_ffff);
    f.cdr(8, 312, (2, 5, 22), 1, 0b0011, &"x".repeat(240));
    f.gdr(312, (3508, 0, 376), 8_420_394, (15, 27, 134_639, 0), &[3], 0, -1);
    for i in 0..27usize {
        let at = 376 + i * f.adr_size();
        let next = if i == 26 { 0 } else { (at + f.adr_size()) as i64 };
        f.adr(at, next, 0, 0, i as i32, 0, 0, 0, &format!("attribute {i}"));
    }
    let mut at = 3508;
    for i in 0..15usize {
        let start = at;
        let end = f.vdr(start, 3, 0, 0, 21, 1, 3, &format!("rvar{i}"), None, &[-1], &[0x3f, 0x80, 0, 0]);
        let next = if i == 14 { 0 } else { end as i64 };
        f.off(start + 8, next);
        at = end;
    }
    f.buf
}

#[test]
fn read_magic_numbers() -> Result<(), DecodeError> {
    let cdf = Cdf::from_bytes(v3_sample())?;
    assert!(!cdf.is_compressed);
    Ok(())
}

#[test]
fn test_cdr_examples() -> Result<(), DecodeError> {
    let cdf = Cdf::from_bytes(v3_sample())?;
    let cdr = cdf.cdr.unwrap();
    assert_eq!(cdr.record_size, 312);
    assert_eq!(cdr.record_type, 1);
    assert_eq!(cdr.gdr_offset, 320);
    assert_eq!(cdr.cdf_version, CdfVersion::new(3, 8, 1));
    assert_eq!(cdr.encoding, Encoding::IbmPc);
    assert_eq!(
        cdr.flags,
        CdrFlags { row_major: true, single_file: true, has_checksum: true, md5_checksum: true }
    );
    assert_eq!(cdr.rfu_a, 0);
    assert_eq!(cdr.rfu_b, 0);
    assert_eq!(cdr.identifier, -1);
    assert_eq!(cdr.rfu_e, -1);
    assert_eq!(cdr.copyright.len(), 143);

    let cdf = Cdf::from_bytes(v2_sample())?;
    let cdr = cdf.cdr.unwrap();
    assert_eq!(cdr.record_size, 304);
    assert_eq!(cdr.gdr_offset, 312);
    assert_eq!(cdr.cdf_version, CdfVersion::new(2, 5, 22));
    assert_eq!(cdr.encoding, Encoding::Network);
    assert_eq!(
        cdr.flags,
        CdrFlags { row_major: true, single_file: true, has_checksum: false, md5_checksum: false }
    );
    assert_eq!(cdr.copyright.len(), 240);
    Ok(())
}

#[test]
fn test_gdr_examples() -> Result<(), DecodeError> {
    let gdr = Cdf::from_bytes(v3_sample())?.cdr.unwrap().gdr;
    assert_eq!(gdr.record_size, 84);
    assert_eq!(gdr.record_type, 2);
    assert_eq!(gdr.rvdr_head, None);
    assert_eq!(gdr.zvdr_head, Some(11_100));
    assert_eq!(gdr.adr_head, Some(404));
    assert_eq!(gdr.eof, Some(117_050));
    assert_eq!(gdr.num_rvars, 0);
    assert_eq!(gdr.num_attributes, 11);
    assert_eq!(gdr.max_rvar, -1);
    assert_eq!(gdr.dim_rvar, 0);
    assert_eq!(gdr.num_zvars, 21);
    assert_eq!(gdr.uir_head, 10_964);
    assert_eq!(gdr.rfu_c, 0);
    assert_eq!(gdr.date_last_leapsecond_update, 20_170_101);
    assert_eq!(gdr.rfu_e, -1);
    assert!(gdr.sizes_rvar.is_empty());

    let gdr = Cdf::from_bytes(v2_sample())?.cdr.unwrap().gdr;
    assert_eq!(gdr.record_size, 64);
    assert_eq!(gdr.rvdr_head, Some(3508));
    assert_eq!(gdr.zvdr_head, None);
    assert_eq!(gdr.adr_head, Some(376));
    assert_eq!(gdr.eof, Some(8_420_394));
    assert_eq!(gdr.num_rvars, 15);
    assert_eq!(gdr.num_attributes, 27);
    assert_eq!(gdr.max_rvar, 134_639);
    assert_eq!(gdr.dim_rvar, 1);
    assert_eq!(gdr.num_zvars, 0);
    assert_eq!(gdr.uir_head, 0);
    assert_eq!(gdr.date_last_leapsecond_update, -1);
    assert_eq!(gdr.sizes_rvar, vec![3]);
    Ok(())
}

#[test]
fn test_adr_examples() -> Result<(), DecodeError> {
    let gdr = Cdf::from_bytes(v3_sample())?.cdr.unwrap().gdr;
    assert_eq!(gdr.adr_vec.len(), 11);
    assert_eq!(gdr.adr_vec[3].name, "attr3");
    let gdr = Cdf::from_bytes(v2_sample())?.cdr.unwrap().gdr;
    assert_eq!(gdr.adr_vec.len(), 27);
    assert_eq!(gdr.adr_vec[26].name, "attribute 26");
    Ok(())
}

#[test]
fn test_agredr_examples() -> Result<(), DecodeError> {
    let gdr = Cdf::from_bytes(v3_sample())?.cdr.unwrap().gdr;
    for adr in gdr.adr_vec.iter() {
        assert_eq!(adr.num_gr_entries as usize, adr.agredr_vec.len());
    }
    let entry = &gdr.adr_vec[0].agredr_vec[0];
    assert_eq!(entry.data_type, 51);
    assert_eq!(entry.num_elements, 16);
    assert_eq!(entry.value, vec![CdfType::String("Global title".to_string())]);
    Ok(())
}

#[test]
fn test_azedr_examples() -> Result<(), DecodeError> {
    let gdr = Cdf::from_bytes(v3_sample())?.cdr.unwrap().gdr;
    for adr in gdr.adr_vec.iter() {
        assert_eq!(adr.num_z_entries as usize, adr.azedr_vec.len());
    }
    let entries = &gdr.adr_vec[1].azedr_vec;
    assert_eq!(entries.len(), 2);
    assert_eq!(entries[0].value, vec![CdfType::Int4(7), CdfType::Int4(-7)]);
    assert_eq!(entries[1].value, vec![CdfType::Int4(1)]);
    Ok(())
}

#[test]
fn test_zvdr_examples() -> Result<(), DecodeError> {
    let gdr = Cdf::from_bytes(v3_sample())?.cdr.unwrap().gdr;
    assert_eq!(gdr.zvdr_vec.len(), 21);
    let z = &gdr.zvdr_vec[0];
    assert_eq!(z.name, "var0");
    assert_eq!(z.num_z_dims, 1);
    assert_eq!(z.size_z_dims, vec![2]);
    assert_eq!(z.dim_variances, vec![true]);
    assert!(z.flags.variance && !z.flags.has_padding);
    assert_eq!(z.cpr_spr_offset, None);
    assert!(z.pad_value.is_empty());
    let gdr = Cdf::from_bytes(v2_sample())?.cdr.unwrap().gdr;
    assert_eq!(gdr.zvdr_vec.len(), 0);
    Ok(())
}

#[test]
fn test_rvdr_examples() -> Result<(), DecodeError> {
    let gdr = Cdf::from_bytes(v3_sample())?.cdr.unwrap().gdr;
    assert_eq!(gdr.rvdr_vec.len(), 0);
    let gdr = Cdf::from_bytes(v2_sample())?.cdr.unwrap().gdr;
    assert_eq!(gdr.rvdr_vec.len(), 15);
    let r = &gdr.rvdr_vec[14];
    assert_eq!(r.name, "rvar14");
    assert_eq!(r.dim_variances, vec![true]);
    assert!(r.flags.has_padding);
    assert_eq!(r.pad_value, vec![CdfType::Real4(1.0f32.to_bits())]);
    Ok(())
}

#[test]
fn test_uir_examples() -> Result<(), DecodeError> {
    let gdr = Cdf::from_bytes(v3_sample())?.cdr.unwrap().gdr;
    assert_eq!(gdr.uir_vec.len(), 3);
    assert_eq!(gdr.uir_vec[1].uir_prev, Some(10_964));
    assert_eq!(gdr.uir_vec[2].uir_next, None);
    assert!(gdr.uir_vec[0].remainder.is_empty());
    Ok(())
}

#[test]
fn test_vxr_examples() -> Result<(), DecodeError> {
    let gdr = Cdf::from_bytes(v3_sample())?.cdr.unwrap().gdr;
    let vxrs = &gdr.zvdr_vec[0].vxr_vec;
    assert_eq!(vxrs.len(), 1);
    let vxr = &vxrs[0];
    assert_eq!(vxr.num_entries, 2);
    assert_eq!(vxr.num_used_entries, 1);
    assert_eq!(vxr.offset_vec, vec![Some(22_000), None]);
    assert_eq!(vxr.first_vec, vec![Some(0), None]);
    assert_eq!(vxr.last_vec, vec![Some(4), None]);
    assert!(vxr.children[1].is_none());
    match vxr.children[0].as_ref().unwrap() {
        VariableIndexRecordChild::VVR(vvr) => {
            assert_eq!(vvr.records.len(), 5);
            for (k, rec) in vvr.records.iter().enumerate() {
                assert_eq!(rec.data_type, 2);
                assert_eq!(rec.data_len, 2);
                let k = k as i16;
                assert_eq!(rec.data, vec![CdfType::Int2(200 * k), CdfType::Int2(200 * k + 100)]);
            }
        }
        other => panic!("expected a VVR, found {other:?}"),
    }
    for z in gdr.zvdr_vec.iter().skip(1) {
        assert!(z.vxr_vec.is_empty());
    }
    Ok(())
}

#[test]
fn compressed_file_reports_compression() -> Result<(), DecodeError> {
    let mut f = Image::new(200, false);
    f.u32(0, 0x0000_ffff);
    f.u32(4, 0xcccc_0001);
    let p = f.header(8, 20 + 10, 10);
    let p = f.off(p, 100);
    let p = f.off(p, 5000);
    let p = f.i32(p, 0);
    f.bytes(p, b"compressed");
    let p = f.header(100, 24, 11);
    let p = f.i32(p, 5);
    let p = f.i32(p, 0);
    let p = f.i32(p, 1);
    f.i32(p, 6);
    let cdf = Cdf::from_bytes(f.buf)?;
    assert!(cdf.is_compressed);
    assert!(cdf.cdr.is_none());
    let ccr = cdf.ccr.unwrap();
    assert_eq!(ccr.cpr_offset, 100);
    assert_eq!(ccr.uncompressed_size, 5000);
    assert_eq!(ccr.data, b"compressed".to_vec());
    let cpr = cdf.cpr.unwrap();
    assert_eq!(cpr.compression_type, CdfCompressionKind::Gzip);
    assert_eq!(cpr.compressed_parameter_count, 1);
    assert_eq!(cpr.compression_level, 6);
    Ok(())
}

#[test]
fn unknown_first_magic_word() {
    let mut bytes = v3_sample();
    bytes[0..4].copy_from_slice(&0xdead_beefu32.to_be_bytes());
    assert_eq!(Cdf::from_bytes(bytes).err(), Some(DecodeError::InvalidMagicNumber(0xdead_beef)));
    // The second word is never read.
    assert_eq!(
        Cdf::from_bytes(vec![0xde, 0xad, 0xbe, 0xef]).err(),
        Some(DecodeError::InvalidMagicNumber(0xdead_beef))
    );
}

#[test]
fn unknown_second_magic_word() {
    let mut bytes = v3_sample();
    bytes[4..8].copy_from_slice(&0x1234_5678u32.to_be_bytes());
    assert_eq!(Cdf::from_bytes(bytes).err(), Some(DecodeError::InvalidMagicNumber(0x1234_5678)));
}

#[test]
fn every_magic_pair() {
    for (m1, v3) in [(0xcdf3_0001u32, true), (0xcdf2_6002, false), (0x0000_ffff, false)] {
        let mut f = Image::new(400, v3);
        f.u32(0, m1);
        f.u32(4, 0x0000_ffff);
        // A CDR whose tag is wrong shows which width the hint chose.
        f.header(8, 300, 9);
        assert_eq!(
            Cdf::from_bytes(f.buf).err(),
            Some(DecodeError::BadRecordType { record: RecordKind::Cdr, expected: 1, actual: 9 })
        );
    }
}

#[test]
fn truncated_file() {
    let bytes = v3_sample();
    let cut = bytes[..200].to_vec();
    assert!(matches!(Cdf::from_bytes(cut), Err(DecodeError::UnexpectedEof { .. })));
}

#[test]
fn adr_count_must_match_chain() {
    let mut bytes = v3_sample();
    // ADR 2 declares one global entry but has none.
    let at = 404 + 2 * (4 * 8 + 36 + 256) + 12 + 16 + 8;
    bytes[at..at + 4].copy_from_slice(&1i32.to_be_bytes());
    assert_eq!(
        Cdf::from_bytes(bytes).err(),
        Some(DecodeError::CountMismatch { field: Field::NumGrEntries, declared: 1, found: 0 })
    );
}

#[test]
fn adr_reserved_field() {
    let mut f = Image::new(400, true);
    f.adr(0, 0, 0, 0, 0, 0, 0, 1, "a");
    let mut d = Decoder::new(f.buf);
    d.set_version(CdfVersion::new(3, 0, 0));
    assert_eq!(
        AttributeDescriptorRecord::decode_be(&mut d).err(),
        Some(DecodeError::BadReservedValue { field: Field::RfuA, expected: 0, actual: 1 })
    );
    assert_eq!(Field::RfuA.name(), "rfu_a");
}

#[test]
fn vxr_entry_counts_records_inclusively() {
    let mut f = Image::new(200, true);
    f.vxr(0, 0, &[(0, 4, 100)], 1);
    let payload: Vec<u8> = (0..15i32).flat_map(|k| k.to_be_bytes()).collect();
    f.vvr(100, &payload[..60]);
    let mut d = Decoder::new(f.buf);
    d.set_version(CdfVersion::new(3, 0, 0));
    d.context.encoding = Some(Encoding::Network);
    d.context.var_data_type = Some(4);
    d.context.var_data_len = Some(3);
    let vxr = VariableIndexRecord::decode_be(&mut d).unwrap();
    match vxr.children[0].as_ref().unwrap() {
        VariableIndexRecordChild::VVR(vvr) => {
            assert_eq!(vvr.records.len(), 5);
            for (k, rec) in vvr.records.iter().enumerate() {
                let k = k as i32;
                assert_eq!(rec.data_type, 4);
                assert_eq!(rec.data_len, 3);
                assert_eq!(
                    rec.data,
                    vec![CdfType::Int4(3 * k), CdfType::Int4(3 * k + 1), CdfType::Int4(3 * k + 2)]
                );
            }
        }
        other => panic!("expected a VVR, found {other:?}"),
    }
}

#[test]
fn vxr_unmatched_entry_and_used_count() {
    let mut f = Image::new(200, true);
    f.vxr(0, 0, &[(0, -1, 100)], 1);
    let mut d = Decoder::new(f.buf);
    d.set_version(CdfVersion::new(3, 0, 0));
    assert_eq!(VariableIndexRecord::decode_be(&mut d).err(), Some(DecodeError::UnmatchedIndexEntry(0)));

    let mut f = Image::new(200, true);
    f.vxr(0, 0, &[(0, 4, 100), (-1, -1, -1)], 2);
    let mut d = Decoder::new(f.buf);
    d.set_version(CdfVersion::new(3, 0, 0));
    assert_eq!(
        VariableIndexRecord::decode_be(&mut d).err(),
        Some(DecodeError::CountMismatch { field: Field::NumUsedEntries, declared: 2, found: 1 })
    );
}

#[test]
fn vxr_child_with_unknown_tag() {
    let mut f = Image::new(200, true);
    f.vxr(0, 0, &[(0, 0, 100)], 1);
    f.header(100, 12, 4);
    let mut d = Decoder::new(f.buf);
    d.set_version(CdfVersion::new(3, 0, 0));
    assert_eq!(
        VariableIndexRecord::decode_be(&mut d).err(),
        Some(DecodeError::BadRecordType { record: RecordKind::Vvr, expected: 7, actual: 4 })
    );
}

#[test]
fn chain_that_loops_is_refused() {
    let mut f = Image::new(400, true);
    let size = f.adr_size();
    let mut bytes = {
        f.adr(0, 0, 0, 0, 0, 0, 0, 0, "a");
        f.buf
    };
    bytes.resize(size, 0);
    // The ADR points to itself.
    bytes[12..20].copy_from_slice(&0i64.to_be_bytes());
    let mut g = Image::new(8 + size, true);
    g.bytes(8, &bytes);
    g.off(8 + 12, 8);
    let mut d = Decoder::new(g.buf);
    d.set_version(CdfVersion::new(3, 0, 0));
    let r = cdf::record::collection::get_record_vec::<AttributeDescriptorRecord>(&mut d, 8);
    assert_eq!(r.err(), Some(DecodeError::OffsetCycle));
}

#[test]
fn cpr_levels() {
    for (kind, level, ok) in [(5, 0, false), (5, 9, true), (5, 10, false), (1, 0, true), (1, 3, false), (4, 0, false)] {
        let mut f = Image::new(100, true);
        let p = f.header(0, 28, 11);
        let p = f.i32(p, kind);
        let p = f.i32(p, 0);
        let p = f.i32(p, 1);
        f.i32(p, level);
        let mut d = Decoder::new(f.buf);
        d.set_version(CdfVersion::new(3, 0, 0));
        let r = cdf::record::cpr::CompressedParametersRecord::decode_be(&mut d);
        if kind == 4 {
            assert_eq!(r.err(), Some(DecodeError::BadCompressionKind(4)));
        } else if ok {
            assert_eq!(r.unwrap().compression_level, level);
        } else {
            assert_eq!(r.err(), Some(DecodeError::BadCompressionLevel(level)));
        }
    }
}

#[test]
fn cvvr_bytes_verbatim() {
    let mut f = Image::new(100, true);
    let p = f.header(0, 28 + 5, 13);
    let p = f.i32(p, 0);
    let p = f.off(p, 5);
    f.bytes(p, b"zzzzz");
    let mut d = Decoder::new(f.buf);
    d.set_version(CdfVersion::new(3, 0, 0));
    let r = cdf::record::cvvr::CompressedVariableValuesRecord::decode_be(&mut d).unwrap();
    assert_eq!(r.compressed_size, 5);
    assert_eq!(r.data, b"zzzzz".to_vec());
}

/// A file of the given version and encoding with a CDR and a GDR only; the
/// GDR sits right after the CDR and its zVariable head holds `zvdr`.
fn bare(m1: u32, ver: (i32, i32, i32), enc: i32, zvdr: i64, adr: i64) -> (Image, usize) {
    let v3 = ver.0 >= 3;
    let mut f = Image::new(4000, v3);
    f.u32(0, m1);
    f.u32(4, 0x0000_ffff);
    let cw = if ver.0 < 2 || (ver.0 == 2 && ver.1 < 5) { 1945 } else { 256 };
    let gdr_at = 8 + 2 * f.w() + 40 + cw;
    f.cdr(8, gdr_at, ver, enc, 0, "notice");
    let end = f.gdr(gdr_at, (0, zvdr, adr), 1234, (0, if adr != 0 { 1 } else { 0 }, -1, 0), &[], 0, -1);
    (f, end)
}

#[test]
fn legacy_copyright_width() -> Result<(), DecodeError> {
    let (f, _) = bare(0x0000_ffff, (2, 4, 0), 1, 0, 0);
    let cdr = Cdf::from_bytes(f.buf)?.cdr.unwrap();
    assert_eq!(cdr.record_size, 8 + 40 + 1945);
    assert_eq!(cdr.copyright, "notice");
    assert_eq!(cdr.gdr_offset, 8 + 8 + 40 + 1945);
    Ok(())
}

#[test]
fn zvariables_and_eof_by_version() -> Result<(), DecodeError> {
    let (f, _) = bare(0x0000_ffff, (2, 1, 5), 1, 999, 0);
    let gdr = Cdf::from_bytes(f.buf)?.cdr.unwrap().gdr;
    assert_eq!(gdr.zvdr_head, None);
    assert_eq!(gdr.eof, Some(1234));
    let (f, _) = bare(0x0000_ffff, (2, 0, 9), 1, 999, 0);
    let gdr = Cdf::from_bytes(f.buf)?.cdr.unwrap().gdr;
    assert_eq!(gdr.zvdr_head, None);
    assert_eq!(gdr.eof, None);
    Ok(())
}

#[test]
fn unknown_encoding_in_cdr() {
    let (f, _) = bare(0xcdf3_0001, (3, 0, 0), 8, 0, 0);
    assert_eq!(Cdf::from_bytes(f.buf).err(), Some(DecodeError::UnsupportedEncoding(8)));
}

#[test]
fn vax_file_refuses_attribute_values() {
    let (mut f, end) = bare(0x0000_ffff, (2, 7, 0), 3, 0, 0);
    let adr_at = end;
    let entry_at = adr_at + f.adr_size();
    f.adr(adr_at, 0, entry_at as i64, 0, 0, 1, 0, 0, "units");
    f.entry(entry_at, 5, 0, 0, 4, 0, 1, &[0, 0, 0, 1]);
    // Point the GDR at the attribute.
    let gdr_at = 8 + 8 + 40 + 256;
    f.off(gdr_at + 4 + 4 + 4 + 4, adr_at as i64);
    let r = Cdf::from_bytes(f.buf);
    assert_eq!(r.err(), Some(DecodeError::UnsupportedEncoding(3)));
}

#[test]
fn legacy_attribute_names_are_64_bytes() -> Result<(), DecodeError> {
    let (mut f, end) = bare(0x0000_ffff, (2, 7, 0), 1, 0, 0);
    f.adr(end, 0, 0, 0, 0, 0, 0, 0, "a name");
    let gdr_at = 8 + 8 + 40 + 256;
    f.off(gdr_at + 16, end as i64);
    let gdr = Cdf::from_bytes(f.buf)?.cdr.unwrap().gdr;
    assert_eq!(gdr.adr_vec.len(), 1);
    assert_eq!(gdr.adr_vec[0].name, "a name");
    assert_eq!(gdr.adr_vec[0].record_size, (4 * 4 + 36 + 64) as i64);
    Ok(())
}

#[test]
fn zvdr_dimension_variance_must_be_known() {
    let mut f = Image::new(800, true);
    f.vdr(0, 8, 0, 0, 4, 1, 0, "v", Some(&[4]), &[5], &[]);
    let mut d = Decoder::new(f.buf);
    d.set_version(CdfVersion::new(3, 0, 0));
    d.context.encoding = Some(Encoding::IbmPc);
    assert_eq!(
        cdf::record::zvdr::ZVariableDescriptorRecord::decode_be(&mut d).err(),
        Some(DecodeError::BadDimVariance(5))
    );
}

#[test]
fn zvdr_pad_value_and_record_length() {
    let mut f = Image::new(800, true);
    f.vdr(0, 8, 0, 0, 4, 2, 3, "v", Some(&[4, 5]), &[-1, 0], &[9, 0, 0, 0, 8, 0, 0, 0]);
    let mut d = Decoder::new(f.buf);
    d.set_version(CdfVersion::new(3, 0, 0));
    d.context.encoding = Some(Encoding::IbmPc);
    let z = cdf::record::zvdr::ZVariableDescriptorRecord::decode_be(&mut d).unwrap();
    assert_eq!(z.pad_value, vec![CdfType::Int4(9), CdfType::Int4(8)]);
    assert_eq!(z.dim_variances, vec![true, false]);
    assert_eq!(d.context.var_data_type, Some(4));
    assert_eq!(d.context.var_data_len, Some(8));
}

#[test]
fn record_length_out_of_range() {
    assert_eq!(data_len(3, &vec![4, 5], &vec![true, true]), Ok(60));
    assert_eq!(data_len(3, &vec![4, 5], &vec![false, false]), Ok(3));
    assert_eq!(data_len(0, &vec![1 << 30, 1 << 30], &vec![true, true]), Ok(0));
    assert_eq!(
        data_len(1, &vec![1 << 30, 4], &vec![true, true]),
        Err(DecodeError::IntegerOutOfRange(Field::VarDataLen))
    );
    assert_eq!(
        data_len(-1, &vec![], &vec![]),
        Err(DecodeError::IntegerOutOfRange(Field::VarDataLen))
    );
    assert_eq!(
        data_len(1, &vec![-2], &vec![true]),
        Err(DecodeError::IntegerOutOfRange(Field::VarDataLen))
    );
}

#[test]
fn vxr_used_slots_come_first() {
    let mut f = Image::new(200, true);
    f.vxr(0, 0, &[(-1, -1, -1), (0, 4, 100)], 1);
    let mut d = Decoder::new(f.buf);
    d.set_version(CdfVersion::new(3, 0, 0));
    assert_eq!(
        VariableIndexRecord::decode_be(&mut d).err(),
        Some(DecodeError::CountMismatch { field: Field::NumUsedEntries, declared: 1, found: 1 })
    );
}

#[test]
fn vxr_negative_counts() {
    let mut f = Image::new(200, true);
    let p = f.header(0, 28, 6);
    let p = f.off(p, 0);
    let p = f.i32(p, -1);
    f.i32(p, 0);
    let mut d = Decoder::new(f.buf);
    d.set_version(CdfVersion::new(3, 0, 0));
    assert_eq!(
        VariableIndexRecord::decode_be(&mut d).err(),
        Some(DecodeError::IntegerOutOfRange(Field::NumEntries))
    );

    let mut f = Image::new(200, true);
    f.vxr(0, 0, &[(5, 2, 100)], 1);
    let mut d = Decoder::new(f.buf);
    d.set_version(CdfVersion::new(3, 0, 0));
    assert_eq!(
        VariableIndexRecord::decode_be(&mut d).err(),
        Some(DecodeError::IntegerOutOfRange(Field::NumRecords))
    );
}

#[test]
fn vvr_needs_a_record_count() {
    let mut f = Image::new(100, true);
    f.vvr(0, &[1, 2, 3, 4]);
    let mut d = Decoder::new(f.buf);
    d.set_version(CdfVersion::new(3, 0, 0));
    assert_eq!(
        cdf::record::vvr::VariableValuesRecord::decode_be(&mut d).err(),
        Some(DecodeError::MissingContext(cdf::error::ContextField::NumRecords))
    );
}

#[test]
fn rvdr_needs_r_dimensions() {
    let mut f = Image::new(800, false);
    f.vdr(0, 3, 0, 0, 4, 1, 0, "r", None, &[], &[]);
    let mut d = Decoder::new(f.buf);
    d.set_version(CdfVersion::new(2, 7, 0));
    assert_eq!(
        cdf::record::rvdr::RVariableDescriptorRecord::decode_be(&mut d).err(),
        Some(DecodeError::MissingContext(cdf::error::ContextField::RDims))
    );
}

#[test]
fn zvdr_negative_dimension_count() {
    let mut f = Image::new(800, true);
    let end = f.vdr(0, 8, 0, 0, 4, 1, 0, "v", Some(&[]), &[], &[]);
    f.i32(end - 4, -2);
    let mut d = Decoder::new(f.buf);
    d.set_version(CdfVersion::new(3, 0, 0));
    assert_eq!(
        cdf::record::zvdr::ZVariableDescriptorRecord::decode_be(&mut d).err(),
        Some(DecodeError::IntegerOutOfRange(Field::NumDims))
    );
}

#[test]
fn cvvr_negative_size_and_short_uir() {
    let mut f = Image::new(100, true);
    let p = f.header(0, 28, 13);
    let p = f.i32(p, 0);
    f.off(p, -5);
    let mut d = Decoder::new(f.buf);
    d.set_version(CdfVersion::new(3, 0, 0));
    assert_eq!(
        cdf::record::cvvr::CompressedVariableValuesRecord::decode_be(&mut d).err(),
        Some(DecodeError::IntegerOutOfRange(Field::CompressedSize))
    );
    let mut f = Image::new(100, true);
    f.uir(0, 0, 0, 20);
    let mut d = Decoder::new(f.buf);
    d.set_version(CdfVersion::new(3, 0, 0));
    assert_eq!(
        cdf::record::uir::UnusedInternalRecord::decode_be(&mut d).err(),
        Some(DecodeError::IntegerOutOfRange(Field::RecordSize))
    );
}

#[test]
fn negative_list_head() {
    let mut d = Decoder::new(vec![0; 64]);
    d.set_version(CdfVersion::new(3, 0, 0));
    let r = cdf::record::collection::get_record_vec::<AttributeDescriptorRecord>(&mut d, -8);
    assert_eq!(r.err(), Some(DecodeError::IntegerOutOfRange(Field::Offset)));
}

#[test]
fn copyright_errors() {
    let (mut f, _) = bare(0xcdf3_0001, (3, 0, 0), 6, 0, 0);
    f.bytes(8 + 56, &[0xff, 0xfe]);
    assert_eq!(Cdf::from_bytes(f.buf).err(), Some(DecodeError::InvalidUtf8(Field::Copyright)));
    let (f, _) = bare(0xcdf3_0001, (3, 0, 0), 6, 0, 0);
    let short = f.buf[..8 + 56 + 100].to_vec();
    assert_eq!(
        Cdf::from_bytes(short).err(),
        Some(DecodeError::UnexpectedEof { offset: 64, needed: 256 })
    );
}

#[test]
fn entry_with_unknown_type_or_negative_count() {
    for (t, n, e) in [
        (3, 1, DecodeError::BadDataTypeTag(3)),
        (4, -1, DecodeError::IntegerOutOfRange(Field::NumElements)),
    ] {
        let mut f = Image::new(200, true);
        f.entry(0, 5, 0, 0, t, 0, n, &[0; 8]);
        let mut d = Decoder::new(f.buf);
        d.set_version(CdfVersion::new(3, 0, 0));
        d.context.encoding = Some(Encoding::Network);
        assert_eq!(
            cdf::record::agredr::AttributeGREntryDescriptorRecord::decode_be(&mut d).err(),
            Some(e)
        );
    }
}
