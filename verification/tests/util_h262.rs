use arib_ts::error::ParseError;
use arib_ts::h262::{index_pattern, is_i_picture};
use arib_ts::text::{language_code, push_chars};
use arib_ts::util::{bcd, be16, be24, be32, be_bytes, bits, flag, length12, pid, read_u32};

#[test]
fn read_u32_is_big_endian() {
    assert_eq!(read_u32(&[0x12, 0x34, 0x56, 0x78]), Ok(0x1234_5678));
    assert_eq!(read_u32(&[0xff, 0xff, 0xff, 0xff, 0x00]), Ok(0xffff_ffff));
    assert_eq!(read_u32(&[1, 2, 3]), Err(ParseError::TooShort));
    assert_eq!(read_u32(&[]), Err(ParseError::TooShort));
}

#[test]
fn bit_fields() {
    assert_eq!(bits(0b1011_0110, 0, 4), 0b0110);
    assert_eq!(bits(0b1011_0110, 4, 4), 0b1011);
    assert_eq!(bits(0b1011_0110, 1, 5), 0b11011);
    assert_eq!(bits(0b1011_0110, 7, 1), 1);
    assert_eq!(bits(0b1011_0110, 6, 1), 0);
    assert_eq!(bits(0xa5, 0, 8), 0xa5);
    assert!(flag(0x80, 7));
    assert!(!flag(0x7f, 7));
    assert!(flag(0x01, 0));
}

#[test]
fn big_endian_fields() {
    assert_eq!(be16(0x12, 0x34), 0x1234);
    assert_eq!(be24(0x12, 0x34, 0x56), 0x12_3456);
    assert_eq!(be32(0x12, 0x34, 0x56, 0x78), 0x1234_5678);
    assert_eq!(be_bytes(0x1234_5678), [0x12, 0x34, 0x56, 0x78]);
    assert_eq!(be_bytes(0xffff_ffff), [0xff, 0xff, 0xff, 0xff]);
    assert_eq!(pid(0xff, 0xff), 0x1fff);
    assert_eq!(pid(0xe1, 0x23), 0x0123);
    assert_eq!(length12(0xff, 0xff), 0xfff);
    assert_eq!(length12(0xb0, 0x0d), 13);
}

#[test]
fn binary_coded_decimals() {
    assert_eq!(bcd(0x00), 0);
    assert_eq!(bcd(0x59), 59);
    assert_eq!(bcd(0x99), 99);
    // digits beyond nine count as they stand
    assert_eq!(bcd(0xff), 165);
}

#[test]
fn index_pattern_finds_the_first_place() {
    assert_eq!(index_pattern(&[1, 2], &[0, 1, 2, 1, 2]), Some(1));
    assert_eq!(index_pattern(&[1, 2], &[1, 2]), Some(0));
    // also at the very end
    assert_eq!(index_pattern(&[1, 2], &[0, 0, 1, 2]), Some(2));
    assert_eq!(index_pattern(&[1, 2], &[0, 1, 0, 2]), None);
    assert_eq!(index_pattern(&[1, 2, 3], &[1, 2]), None);
    assert_eq!(index_pattern(&[1], &[]), None);
}

#[test]
fn i_picture_is_told_by_the_first_picture_header() {
    assert!(is_i_picture(&[0, 0, 1, 0, 0x00, 0x08]));
    assert!(is_i_picture(&[0, 0, 1, 0, 0xff, 0xcf, 0xff]));
    assert!(is_i_picture(&[0, 0, 1, 0xb3, 9, 9, 0, 0, 1, 0, 0x00, 0x0f, 0xff]));
    // a P-picture and a B-picture
    assert!(!is_i_picture(&[0, 0, 1, 0, 0x00, 0x10]));
    assert!(!is_i_picture(&[0, 0, 1, 0, 0x00, 0x18]));
    // no picture header
    assert!(!is_i_picture(&[0, 0, 1, 0xb3, 0x00, 0x08]));
    assert!(!is_i_picture(&[]));
    // a picture header cut short
    assert!(!is_i_picture(&[0, 0, 1, 0, 0x00]));
    assert!(!is_i_picture(&[0, 0, 1, 0]));
    // only the first picture header counts
    assert!(!is_i_picture(&[0, 0, 1, 0, 0x00, 0x10, 0, 0, 1, 0, 0x00, 0x08]));
}

#[test]
fn language_codes_are_read_as_text() {
    assert_eq!(language_code(b"xjpn", 1), Some(String::from("jpn")));
    assert_eq!(language_code(&[0xe3, 0x81, 0x82], 0), Some(String::from("\u{3042}")));
    assert_eq!(language_code(&[b'j', 0xff, b'n'], 0), None);
    assert_eq!(language_code(&[0xe3, 0x81, b'n'], 0), None);
    let mut s = String::from("a");
    push_chars(&mut s, &['b', '\u{3042}']);
    assert_eq!(s, "ab\u{3042}");
}
