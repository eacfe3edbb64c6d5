use tfbd::decoder::{decode, decode_2x, decode_4x, decode_6x, decode_section, read_line, Family};
use tfbd::error::{DecodeError, Field};
use tfbd::pascal::{apple_to_ascii, read_pascal_string};
use tfbd::reader::ByteReader;
use tfbd::records::{Record2x, Record4x, Record6x};

fn rec2x(rtype: u8, var_len: u8, offset: u32, area_len: u16) -> Vec<u8> {
    let mut v = vec![rtype, var_len];
    v.extend_from_slice(&offset.to_le_bytes());
    v.extend_from_slice(&area_len.to_le_bytes());
    v
}

fn pstring(label: &[u8]) -> Vec<u8> {
    if label.is_empty() {
        return Vec::new();
    }
    let mut v = vec![label.len() as u8];
    v.extend_from_slice(label);
    v
}

fn rec4x(rtype: u8, address: u32, count: u16, label: &[u8]) -> Vec<u8> {
    let mut v = vec![rtype, label.len() as u8];
    v.extend_from_slice(&address.to_le_bytes());
    v.extend_from_slice(&count.to_le_bytes());
    v.extend(pstring(label));
    v
}

fn rec6x(rtype: u8, offset: u32, count: u32, arg: u32, label: &[u8]) -> Vec<u8> {
    let mut v = vec![rtype, label.len() as u8];
    v.extend_from_slice(&offset.to_le_bytes());
    v.extend_from_slice(&count.to_le_bytes());
    v.extend_from_slice(&arg.to_le_bytes());
    v.extend(pstring(label));
    v
}

fn section(records: &[Vec<u8>]) -> Vec<u8> {
    let mut v = (records.len() as u16).to_le_bytes().to_vec();
    for r in records {
        v.extend_from_slice(r);
    }
    v
}

fn sample_file() -> Vec<u8> {
    let mut v = 7u16.to_le_bytes().to_vec();
    v.extend(section(&[rec2x(0x20, 0, 0x10, 4), rec2x(0x2f, 0, 0x1234, 0x56)]));
    v.extend(section(&[rec4x(0x40, 0x300, 2, b"START"), rec4x(0x44, 0x1234, 1, b"FOO")]));
    v.extend(section(&[
        rec6x(0x60, 0x100, 0x50, 2, b""),
        rec6x(0x61, 0x20, 1, 3, b""),
        rec6x(0x66, 0x200, 1, 0, b"BAR"),
    ]));
    v
}

#[test]
fn pascal_empty_reads_nothing() {
    let mut r = ByteReader::new(vec![9, 9]);
    let s = read_pascal_string(&mut r, 0).unwrap();
    assert_eq!(s, "");
    assert_eq!(r.remaining(), 2);
}

#[test]
fn pascal_length_mismatch_reads_only_prefix() {
    let mut r = ByteReader::new(vec![2, b'A', b'B', b'C']);
    let e = read_pascal_string(&mut r, 3).unwrap_err();
    assert_eq!(e, DecodeError::LengthMismatch { expected: 3, got: 2 });
    assert_eq!(r.remaining(), 3);
}

#[test]
fn pascal_reads_stripped_text() {
    let mut r = ByteReader::new(vec![3, 0xC6, 0xCF, 0x4F, 0xFF]);
    let s = read_pascal_string(&mut r, 3).unwrap();
    assert_eq!(s, "FOO");
    assert_eq!(r.remaining(), 1);
}

#[test]
fn pascal_short_payload_is_end_of_input() {
    let mut r = ByteReader::new(vec![3, b'A']);
    assert_eq!(read_pascal_string(&mut r, 3).unwrap_err(), DecodeError::UnexpectedEndOfInput);
}

#[test]
fn high_bit_stripping() {
    assert_eq!(apple_to_ascii(&[0xC1]).unwrap(), "A");
    assert_eq!(apple_to_ascii(&[0x41]).unwrap(), "A");
    assert_eq!(apple_to_ascii(&[0xC8, 0xE9, 0xA0, 0x80]).unwrap(), "Hi \u{0}");
    assert_eq!(apple_to_ascii(&[]).unwrap(), "");
}

#[test]
fn reader_little_endian() {
    let mut r = ByteReader::new(vec![0x34, 0x12, 0x78, 0x56, 0x34, 0x12, 0xAB]);
    assert_eq!(r.read_u16_le().unwrap(), 0x1234);
    assert_eq!(r.read_u32_le().unwrap(), 0x12345678);
    assert_eq!(r.read_u16_le().unwrap_err(), DecodeError::UnexpectedEndOfInput);
    assert_eq!(r.remaining(), 1);
    assert_eq!(r.read_exact(2).unwrap_err(), DecodeError::UnexpectedEndOfInput);
    assert_eq!(r.read_exact(1).unwrap(), vec![0xAB]);
    assert_eq!(r.read_u8().unwrap_err(), DecodeError::UnexpectedEndOfInput);
}

#[test]
fn render_db() {
    let rec = Record2x { rtype: 0x20, var_len: 0, offset: 0x0010, area_len: 0x0004 };
    assert_eq!(rec.render(), "DB  +$0010, $04");
}

#[test]
fn render_2x_mnemonics() {
    let line = |t: u8| Record2x { rtype: t, var_len: 0, offset: 0xABC, area_len: 0x123 }.render();
    assert_eq!(line(0x21), "DW  +$0ABC, $123");
    assert_eq!(line(0x23), "DA  +$0ABC, $123");
    assert_eq!(line(0x27), "HEX +$0ABC, $123");
    assert_eq!(line(0x28), "DS  +$0ABC, $123");
    assert_eq!(line(0x29), "ASC +$0ABC, $123");
    assert_eq!(line(0x2f), "rtype 2F var_len 00 offset 00000ABC area_len 0123");
}

#[test]
fn render_wide_offset_is_not_cut() {
    let rec = Record2x { rtype: 0x20, var_len: 0, offset: 0x12345, area_len: 0 };
    assert_eq!(rec.render(), "DB  +$12345, $00");
}

#[test]
fn render_equ() {
    let rec = Record4x { rtype: 0x44, var_len: 3, address: 0x1234, count: 1, label: "FOO".to_string() };
    assert_eq!(rec.render(), "EQU  $1234, FOO");
}

#[test]
fn render_lab_and_generic_4x() {
    let lab = Record4x { rtype: 0x40, var_len: 5, address: 0x300, count: 2, label: "START".to_string() };
    assert_eq!(lab.render(), "LAB +$0300, START         # 0002");
    let other = Record4x { rtype: 0x4a, var_len: 1, address: 0x1, count: 0xff, label: "X".to_string() };
    assert_eq!(other.render(), "rtype 4A var_len 01 address 00000001 count 00FF X");
}

#[test]
fn render_org() {
    let rec = Record6x { rtype: 0x60, len: 0, offset: 0x0100, count: 0x0050, arg: 0x0002, label: String::new() };
    assert_eq!(rec.display_as_text(), "ORG +$0100, $0002, L$0050");
}

#[test]
fn render_com() {
    let rec = Record6x { rtype: 0x66, len: 3, offset: 0x0200, count: 1, arg: 0, label: "BAR".to_string() };
    assert_eq!(rec.display_as_text(), "COM +$0200, BAR");
}

#[test]
fn render_mx_and_generic_6x() {
    let mx = Record6x { rtype: 0x61, len: 0, offset: 0x20, count: 1, arg: 3, label: String::new() };
    assert_eq!(mx.display_as_text(), "MX  +$0020, %03");
    let other = Record6x { rtype: 0x6f, len: 1, offset: 1, count: 2, arg: 3, label: "Z".to_string() };
    assert_eq!(other.display_as_text(), "6F 01 00000001 00000002 00000003 Z");
}

#[test]
fn read_2x_rules() {
    let mut r = ByteReader::new(rec2x(0x20, 0, 0x10, 4));
    let rec = Record2x::read(&mut r).unwrap();
    assert_eq!(rec, Record2x { rtype: 0x20, var_len: 0, offset: 0x10, area_len: 4 });
    let mut r = ByteReader::new(rec2x(0x40, 0, 0x10, 4));
    assert_eq!(
        Record2x::read(&mut r).unwrap_err(),
        DecodeError::FamilyMismatch { expected: 0x20, got: 0x40 }
    );
    let mut r = ByteReader::new(rec2x(0x20, 2, 0x10, 4));
    assert_eq!(
        Record2x::read(&mut r).unwrap_err(),
        DecodeError::FieldInvariantViolation { rtype: 0x20, field: Field::VarLen, value: 2 }
    );
}

#[test]
fn read_4x_rules() {
    let mut r = ByteReader::new(rec4x(0x44, 0x1234, 1, b"FOO"));
    let rec = Record4x::read(&mut r).unwrap();
    assert_eq!(rec.render(), "EQU  $1234, FOO");
    let mut r = ByteReader::new(rec4x(0x44, 0x1234, 2, b"FOO"));
    assert_eq!(
        Record4x::read(&mut r).unwrap_err(),
        DecodeError::FieldInvariantViolation { rtype: 0x44, field: Field::Count, value: 2 }
    );
    let mut r = ByteReader::new(rec4x(0x40, 0x1234, 2, b""));
    assert_eq!(
        Record4x::read(&mut r).unwrap_err(),
        DecodeError::FieldInvariantViolation { rtype: 0x40, field: Field::VarLen, value: 0 }
    );
    let mut r = ByteReader::new(rec4x(0x60, 0x1234, 2, b"A"));
    assert_eq!(
        Record4x::read(&mut r).unwrap_err(),
        DecodeError::FamilyMismatch { expected: 0x40, got: 0x60 }
    );
    let mut bytes = rec4x(0x40, 0x1234, 2, b"AB");
    bytes[8] = 5;
    let mut r = ByteReader::new(bytes);
    assert_eq!(Record4x::read(&mut r).unwrap_err(), DecodeError::LengthMismatch { expected: 2, got: 5 });
}

#[test]
fn read_6x_rules() {
    let mut r = ByteReader::new(rec6x(0x66, 0x200, 1, 0, b"BAR"));
    assert_eq!(Record6x::read(&mut r).unwrap().display_as_text(), "COM +$0200, BAR");
    let mut r = ByteReader::new(rec6x(0x60, 0x100, 0x50, 2, b"X"));
    assert_eq!(
        Record6x::read(&mut r).unwrap_err(),
        DecodeError::FieldInvariantViolation { rtype: 0x60, field: Field::VarLen, value: 1 }
    );
    let mut r = ByteReader::new(rec6x(0x61, 0x100, 2, 2, b""));
    assert_eq!(
        Record6x::read(&mut r).unwrap_err(),
        DecodeError::FieldInvariantViolation { rtype: 0x61, field: Field::Count, value: 2 }
    );
    let mut r = ByteReader::new(rec6x(0x61, 0x100, 1, 2, b"Q"));
    assert_eq!(
        Record6x::read(&mut r).unwrap_err(),
        DecodeError::FieldInvariantViolation { rtype: 0x61, field: Field::VarLen, value: 1 }
    );
    let mut r = ByteReader::new(rec6x(0x66, 0x100, 3, 2, b"Q"));
    assert_eq!(
        Record6x::read(&mut r).unwrap_err(),
        DecodeError::FieldInvariantViolation { rtype: 0x66, field: Field::Count, value: 3 }
    );
    let mut r = ByteReader::new(rec6x(0x20, 0, 0, 0, b""));
    assert_eq!(
        Record6x::read(&mut r).unwrap_err(),
        DecodeError::FamilyMismatch { expected: 0x60, got: 0x20 }
    );
}

#[test]
fn decode_whole_file() {
    let mut r = ByteReader::new(sample_file());
    let mut out = Vec::new();
    decode(&mut r, &mut out).unwrap();
    assert_eq!(
        out,
        vec![
            "# TFBD (7 records total)",
            "# 2x section (2 records)",
            "DB  +$0010, $04",
            "rtype 2F var_len 00 offset 00001234 area_len 0056",
            "# 4x section (2 records)",
            "LAB +$0300, START         # 0002",
            "EQU  $1234, FOO",
            "# 6x section (3 records)",
            "ORG +$0100, $0002, L$0050",
            "MX  +$0020, %03",
            "COM +$0200, BAR",
        ]
    );
    assert_eq!(r.remaining(), 0);
}

#[test]
fn truncated_file_is_end_of_input() {
    let bytes = sample_file();
    for cut in 0..bytes.len() {
        let mut r = ByteReader::new(bytes[..cut].to_vec());
        let mut out = Vec::new();
        assert_eq!(decode(&mut r, &mut out), Err(DecodeError::UnexpectedEndOfInput), "cut at {}", cut);
    }
}

#[test]
fn section_stops_at_first_bad_record() {
    let bytes = section(&[rec2x(0x20, 0, 1, 1), rec2x(0x21, 1, 2, 2), rec2x(0x23, 0, 3, 3)]);
    let mut r = ByteReader::new(bytes);
    let mut out = Vec::new();
    let e = decode_2x(&mut r, &mut out).unwrap_err();
    assert_eq!(e, DecodeError::FieldInvariantViolation { rtype: 0x21, field: Field::VarLen, value: 1 });
    assert_eq!(out, vec!["# 2x section (3 records)", "DB  +$0001, $01"]);
}

#[test]
fn section_line_count_matches_declared() {
    let bytes = section(&[rec4x(0x40, 1, 1, b"A"), rec4x(0x40, 2, 1, b"B"), rec4x(0x41, 3, 1, b"C")]);
    let mut r = ByteReader::new(bytes);
    let mut out = Vec::new();
    decode_4x(&mut r, &mut out).unwrap();
    assert_eq!(out.len(), 1 + 3);
    assert_eq!(out[3], "rtype 41 var_len 01 address 00000003 count 0001 C");
}

#[test]
fn empty_sections() {
    let mut bytes = 0u16.to_le_bytes().to_vec();
    bytes.extend([0, 0, 0, 0, 0, 0]);
    let mut r = ByteReader::new(bytes);
    let mut out = Vec::new();
    decode(&mut r, &mut out).unwrap();
    assert_eq!(
        out,
        vec!["# TFBD (0 records total)", "# 2x section (0 records)", "# 4x section (0 records)", "# 6x section (0 records)"]
    );
}

#[test]
fn section_in_wrong_family_fails() {
    let mut r = ByteReader::new(section(&[rec2x(0x20, 0, 1, 1)]));
    let mut out = Vec::new();
    assert_eq!(
        decode_6x(&mut r, &mut out).unwrap_err(),
        DecodeError::FamilyMismatch { expected: 0x60, got: 0x20 }
    );
    assert_eq!(out, vec!["# 6x section (1 records)"]);
}

#[test]
fn large_counts_in_banners() {
    let mut r = ByteReader::new(vec![0xff, 0xff]);
    let mut out = Vec::new();
    assert_eq!(decode(&mut r, &mut out), Err(DecodeError::UnexpectedEndOfInput));
    assert_eq!(out, vec!["# TFBD (65535 records total)"]);
    let mut r = ByteReader::new(vec![0x10, 0x27]);
    let mut out = Vec::new();
    assert_eq!(decode_section(&mut r, &mut out, Family::Label4x), Err(DecodeError::UnexpectedEndOfInput));
    assert_eq!(out, vec!["# 4x section (10000 records)"]);
}

#[test]
fn read_line_by_family() {
    let mut r = ByteReader::new(rec6x(0x60, 0x100, 0x50, 2, b""));
    assert_eq!(read_line(&mut r, Family::Directive6x).unwrap(), "ORG +$0100, $0002, L$0050");
    assert_eq!(r.remaining(), 0);
}
