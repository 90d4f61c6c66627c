//! The byte cursor primitives and field parsers, exercised directly.

use tftp_packet::parsing::parse_block_number;
use tftp_packet::parsing::parse_error_code;
use tftp_packet::parsing::parse_error_message;
use tftp_packet::parsing::parse_filename;
use tftp_packet::parsing::parse_mode;
use tftp_packet::parsing::take_till_null;
use tftp_packet::parsing::take_u16;
use tftp_packet::ErrorCode;
use tftp_packet::Mode;

#[test]
fn take_u16_reads_big_endian() {
    let input = &[1u8, 2, 3];
    let (v, rest) = take_u16(input).unwrap();
    assert_eq!(v, 258);
    assert_eq!(rest, &[3]);
}

#[test]
fn take_u16_needs_two_bytes() {
    assert!(take_u16(&[5u8]).is_none());
    assert!(take_u16(&[]).is_none());
}

#[test]
fn take_till_null_splits_at_the_first_zero() {
    let input = &[67u8, 68, 0, 1, 0];
    let (field, rest) = take_till_null(input).unwrap();
    assert_eq!(field, &[67, 68]);
    assert_eq!(rest, &[1, 0]);
}

#[test]
fn take_till_null_needs_a_terminator() {
    assert!(take_till_null(&[67u8, 68]).is_none());
}

#[test]
fn parse_filename_decodes_utf8() {
    let input = &[67u8, 68, 69, 0, 9];
    let (name, rest) = parse_filename(input).unwrap();
    assert_eq!(name, "CDE");
    assert_eq!(rest, &[9]);
    assert!(parse_filename(&[0xffu8, 0]).is_err());
    assert!(parse_filename(&[67u8]).is_err());
}

#[test]
fn parse_mode_matches_the_canonical_strings() {
    let input = &[0x6eu8, 0x65, 0x74, 0x61, 0x73, 0x63, 0x69, 0x69, 0];
    let (mode, rest) = parse_mode(input).unwrap();
    assert_eq!(mode, Mode::Netascii);
    assert!(rest.is_empty());
    assert!(parse_mode(&[67u8, 0]).is_err());
    assert!(parse_mode(&[0x6fu8, 0x63, 0x74, 0x65, 0x74]).is_err());
}

#[test]
fn parse_block_number_reads_two_bytes() {
    let (n, rest) = parse_block_number(&[1u8, 0, 7]).unwrap();
    assert_eq!(n, 256);
    assert_eq!(rest, &[7]);
    assert!(parse_block_number(&[1u8]).is_err());
}

#[test]
fn parse_error_code_validates_the_range() {
    let (code, rest) = parse_error_code(&[0u8, 3, 1]).unwrap();
    assert_eq!(code, ErrorCode::DiskFull);
    assert_eq!(rest, &[1]);
    assert!(parse_error_code(&[0u8, 8]).is_err());
    assert!(parse_error_code(&[0u8]).is_err());
}

#[test]
fn parse_error_message_decodes_utf8() {
    let (msg, rest) = parse_error_message(&[111u8, 111, 112, 115, 0]).unwrap();
    assert_eq!(msg, "oops");
    assert!(rest.is_empty());
    assert!(parse_error_message(&[111u8]).is_err());
}
