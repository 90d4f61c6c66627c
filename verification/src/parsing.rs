//! Byte cursor primitives and field parsers.
//!
//! The cursor primitives consume a big-endian `u16` or a null-terminated run
//! of bytes from the front of the input; the field parsers build on them to
//! read the protocol's filename, mode, block-number, error-code and
//! error-message fields. Each comes with a spec model (`..._model`) that the
//! executable function is proved to match.

use vstd::prelude::*;

use crate::ErrorCode;
use crate::Mode;
use crate::PacketError;

verus! {

use vstd::utf8::decode_utf8;
use vstd::utf8::valid_utf8;

/// The value of two bytes read as a big-endian 16-bit integer.
pub open spec fn u16_from_be(hi: u8, lo: u8) -> u16 {
    ((hi as int) * 256 + (lo as int)) as u16
}

/// What consuming a big-endian `u16` from the front of `b` yields: the value
/// and the remaining bytes, or nothing when fewer than 2 bytes remain.
pub open spec fn take_u16_model(b: Seq<u8>) -> Option<(u16, Seq<u8>)> {
    if b.len() < 2 {
        None
    } else {
        Some((u16_from_be(b[0], b[1]), b.skip(2)))
    }
}

/// Index of the first zero byte in `b`, if any.
pub open spec fn null_pos(b: Seq<u8>) -> Option<int>
    decreases b.len(),
{
    if b.len() == 0 {
        None
    } else if b[0] == 0 {
        Some(0)
    } else {
        match null_pos(b.drop_first()) {
            None => None,
            Some(i) => Some(i + 1),
        }
    }
}

/// `null_pos` finds the first zero byte: everything before it is non-zero,
/// and when there is no result the whole sequence is free of zero bytes.
pub proof fn lemma_null_pos_spec(b: Seq<u8>)
    ensures
        match null_pos(b) {
            Some(i) => 0 <= i < b.len() && b[i] == 0 && forall|j: int| 0 <= j < i ==> b[j] != 0,
            None => forall|j: int| 0 <= j < b.len() ==> b[j] != 0,
        },
    decreases b.len(),
{
    if b.len() == 0 {
    } else if b[0] == 0 {
    } else {
        lemma_null_pos_spec(b.drop_first());
        match null_pos(b.drop_first()) {
            None => {
                assert forall|j: int| 0 <= j < b.len() implies b[j] != 0 by {
                    if j > 0 {
                        assert(b[j] == b.drop_first()[j - 1]);
                    }
                }
            },
            Some(i) => {
                assert(b[i + 1] == b.drop_first()[i]);
                assert forall|j: int| 0 <= j < i + 1 implies b[j] != 0 by {
                    if j > 0 {
                        assert(b[j] == b.drop_first()[j - 1]);
                    }
                }
            },
        }
    }
}

/// In `prefix + [0] + rest`, where `prefix` holds no zero byte, the first
/// zero byte is the one that was appended after `prefix`.
pub proof fn lemma_null_pos_terminated(prefix: Seq<u8>, rest: Seq<u8>)
    requires
        forall|j: int| 0 <= j < prefix.len() ==> prefix[j] != 0,
    ensures
        null_pos(prefix + seq![0u8] + rest) == Some(prefix.len() as int),
        (prefix + seq![0u8] + rest).take(prefix.len() as int) == prefix,
        (prefix + seq![0u8] + rest).skip(prefix.len() as int + 1) == rest,
{
    let b = prefix + seq![0u8] + rest;
    let n = prefix.len() as int;
    assert(b[n] == 0);
    assert(forall|j: int| 0 <= j < n ==> b[j] == prefix[j] && b[j] != 0);
    lemma_null_pos_spec(b);
    match null_pos(b) {
        None => {
            assert(false);
        },
        Some(i) => {
            if i < n {
                assert(b[i] != 0);
            }
            if i > n {
                assert(b[n] != 0);
            }
        },
    }
    assert(b.take(n) =~= prefix);
    assert(b.skip(n + 1) =~= rest);
}

/// Scans `input` for the first zero byte; yields the bytes before it and the
/// bytes after it (the terminator itself is consumed), or nothing when no
/// zero byte exists.
pub fn take_till_null(input: &[u8]) -> (r: Option<(&[u8], &[u8])>)
    ensures
        r is Some <==> null_pos(input@) is Some,
        r is Some ==> {
            let i = null_pos(input@)->Some_0;
            r->Some_0.0@ == input@.take(i) && r->Some_0.1@ == input@.skip(i + 1)
        },
{
    let n = input.len();
    let mut i: usize = 0;
    while i < n
        invariant
            0 <= i <= n,
            n == input@.len(),
            forall|j: int| 0 <= j < i ==> input@[j] != 0,
        decreases n - i,
    {
        if *vstd::slice::slice_index_get(input, i) == 0 {
            proof {
                lemma_null_pos_spec(input@);
                match null_pos(input@) {
                    None => {
                        assert(input@[i as int] != 0);
                    },
                    Some(p) => {
                        if p < i {
                            assert(input@[p] != 0);
                        }
                        if p > i {
                            assert(input@[i as int] != 0);
                        }
                    },
                }
            }
            let before = vstd::slice::slice_subrange(input, 0, i);
            let after = vstd::slice::slice_subrange(input, i + 1, n);
            assert(before@ =~= input@.take(i as int));
            assert(after@ =~= input@.skip(i + 1));
            return Some((before, after));
        }
        i = i + 1;
    }
    proof {
        lemma_null_pos_spec(input@);
        match null_pos(input@) {
            None => {},
            Some(p) => {
                assert(input@[p] != 0);
            },
        }
    }
    None
}

/// Consumes exactly 2 bytes from the front of `input` as a big-endian `u16`.
pub fn take_u16(input: &[u8]) -> (r: Option<(u16, &[u8])>)
    ensures
        r is Some <==> take_u16_model(input@) is Some,
        r is Some ==> {
            let (v, rest) = take_u16_model(input@)->Some_0;
            r->Some_0.0 == v && r->Some_0.1@ == rest
        },
{
    if input.len() < 2 {
        None
    } else {
        let hi = *vstd::slice::slice_index_get(input, 0);
        let lo = *vstd::slice::slice_index_get(input, 1);
        let v: u16 = (hi as u16) * 256 + (lo as u16);
        let rest = vstd::slice::slice_subrange(input, 2, input.len());
        assert(rest@ =~= input@.skip(2));
        Some((v, rest))
    }
}

/// Relies on `String::from_utf8`: it succeeds exactly on bytes that are a
/// valid UTF-8 encoding, and then returns the character sequence those bytes
/// encode.
#[verifier::external_body]
fn utf8_to_string(bytes: &[u8]) -> (r: Option<String>)
    ensures
        r is Some <==> valid_utf8(bytes@),
        r is Some ==> r->Some_0@ == decode_utf8(bytes@),
{
    String::from_utf8(bytes.to_vec()).ok()
}

/// What parsing a null-terminated text field from the front of `b` yields:
/// the decoded characters and the bytes after the terminator, or nothing when
/// no terminator exists or the field is not valid UTF-8.
pub open spec fn parse_text_model(b: Seq<u8>) -> Option<(Seq<char>, Seq<u8>)> {
    match null_pos(b) {
        None => None,
        Some(i) => {
            let field = b.take(i);
            if valid_utf8(field) {
                Some((decode_utf8(field), b.skip(i + 1)))
            } else {
                None
            }
        },
    }
}

/// What parsing a null-terminated mode field from the front of `b` yields:
/// the mode and the bytes after the terminator, or nothing when no terminator
/// exists or the field is not a canonical mode string.
pub open spec fn parse_mode_model(b: Seq<u8>) -> Option<(Mode, Seq<u8>)> {
    match null_pos(b) {
        None => None,
        Some(i) => {
            match crate::mode_of_bytes(b.take(i)) {
                None => None,
                Some(m) => Some((m, b.skip(i + 1))),
            }
        },
    }
}

/// What parsing an error-code field from the front of `b` yields: the code
/// and the remaining bytes, or nothing when fewer than 2 bytes remain or the
/// value is outside 0..=7.
pub open spec fn parse_error_code_model(b: Seq<u8>) -> Option<(ErrorCode, Seq<u8>)> {
    match take_u16_model(b) {
        None => None,
        Some((v, rest)) => {
            if v <= 7 {
                Some((crate::error_code_of(v), rest))
            } else {
                None
            }
        },
    }
}

/// Parses a filename: the bytes before the first null terminator, decoded as
/// UTF-8.
pub fn parse_filename(bytes: &[u8]) -> (r: Result<(String, &[u8]), PacketError>)
    ensures
        r is Ok <==> parse_text_model(bytes@) is Some,
        r is Ok ==> {
            let (s, rest) = parse_text_model(bytes@)->Some_0;
            r->Ok_0.0@ == s && r->Ok_0.1@ == rest
        },
        r is Err ==> r->Err_0 is InvalidPacket,
{
    match take_till_null(bytes) {
        None => Err(
            PacketError::InvalidPacket("Error while parsing filename".to_string()),
        ),
        Some((field, rest)) => {
            match utf8_to_string(field) {
                None => Err(
                    PacketError::InvalidPacket(
                        "Error while parsing filename. Not a valid UTF-8 string.".to_string(),
                    ),
                ),
                Some(s) => Ok((s, rest)),
            }
        },
    }
}

/// Parses a transfer mode: the bytes before the first null terminator,
/// matched case-sensitively against the canonical mode strings.
pub fn parse_mode(bytes: &[u8]) -> (r: Result<(Mode, &[u8]), PacketError>)
    ensures
        r is Ok <==> parse_mode_model(bytes@) is Some,
        r is Ok ==> {
            let (m, rest) = parse_mode_model(bytes@)->Some_0;
            r->Ok_0.0 == m && r->Ok_0.1@ == rest
        },
        r is Err ==> r->Err_0 is InvalidPacket,
{
    match take_till_null(bytes) {
        None => Err(PacketError::InvalidPacket("Error while parsing mode".to_string())),
        Some((field, rest)) => {
            match mode_from_field(field) {
                None => Err(
                    PacketError::InvalidPacket(
                        "Error while parsing mode. Not a valid mode string.".to_string(),
                    ),
                ),
                Some(m) => Ok((m, rest)),
            }
        },
    }
}

/// Parses a block number: 2 bytes, big-endian.
pub fn parse_block_number(bytes: &[u8]) -> (r: Result<(u16, &[u8]), PacketError>)
    ensures
        r is Ok <==> take_u16_model(bytes@) is Some,
        r is Ok ==> {
            let (v, rest) = take_u16_model(bytes@)->Some_0;
            r->Ok_0.0 == v && r->Ok_0.1@ == rest
        },
        r is Err ==> r->Err_0 is InvalidPacket,
{
    match take_u16(bytes) {
        None => Err(
            PacketError::InvalidPacket(
                "Error while parsing block number. Block number not a u16.".to_string(),
            ),
        ),
        Some((v, rest)) => Ok((v, rest)),
    }
}

/// Parses an error code: 2 bytes, big-endian, validated against the eight
/// codes of the protocol.
pub fn parse_error_code(bytes: &[u8]) -> (r: Result<(ErrorCode, &[u8]), PacketError>)
    ensures
        r is Ok <==> parse_error_code_model(bytes@) is Some,
        r is Ok ==> {
            let (c, rest) = parse_error_code_model(bytes@)->Some_0;
            r->Ok_0.0 == c && r->Ok_0.1@ == rest
        },
        r is Err ==> r->Err_0 is InvalidPacket,
{
    match take_u16(bytes) {
        None => Err(
            PacketError::InvalidPacket(
                "Error while parsing error code. Error code not a u16.".to_string(),
            ),
        ),
        Some((v, rest)) => {
            match ErrorCode::try_from(v) {
                Err(_) => Err(
                    PacketError::InvalidPacket(
                        "Error while parsing error code. Error code not a valid error code."
                            .to_string(),
                    ),
                ),
                Ok(c) => Ok((c, rest)),
            }
        },
    }
}

/// Parses an error message: the bytes before the first null terminator,
/// decoded as UTF-8.
pub fn parse_error_message(bytes: &[u8]) -> (r: Result<(String, &[u8]), PacketError>)
    ensures
        r is Ok <==> parse_text_model(bytes@) is Some,
        r is Ok ==> {
            let (s, rest) = parse_text_model(bytes@)->Some_0;
            r->Ok_0.0@ == s && r->Ok_0.1@ == rest
        },
        r is Err ==> r->Err_0 is InvalidPacket,
{
    match take_till_null(bytes) {
        None => Err(
            PacketError::InvalidPacket("Error while parsing error message".to_string()),
        ),
        Some((field, rest)) => {
            match utf8_to_string(field) {
                None => Err(
                    PacketError::InvalidPacket(
                        "Error while parsing error msg. Invalid UTF-8 string.".to_string(),
                    ),
                ),
                Some(s) => Ok((s, rest)),
            }
        },
    }
}

/// The UTF-8 encoding of a single non-null scalar holds no zero byte.
proof fn lemma_encode_scalar_no_null(v: u32)
    requires
        v != 0,
        vstd::utf8::is_scalar(v),
    ensures
        forall|j: int|
            0 <= j < vstd::utf8::encode_scalar(v).len() ==> vstd::utf8::encode_scalar(v)[j] != 0,
{
    let e = vstd::utf8::encode_scalar(v);
    if vstd::utf8::has_width_1_encoding(v) {
        assert((v & 0x7F) as u8 != 0) by (bit_vector)
            requires
                1 <= v <= 0x7F,
        ;
        assert(e[0] != 0);
    } else if vstd::utf8::has_width_2_encoding(v) {
        let y1 = ((v >> 6) & 0x1F) as u8;
        let y2 = (v & 0x3F) as u8;
        assert(0xC0u8 | y1 != 0) by (bit_vector);
        assert(0x80u8 | y2 != 0) by (bit_vector);
        assert(e[0] != 0 && e[1] != 0);
    } else if vstd::utf8::has_width_3_encoding(v) {
        let y1 = ((v >> 12) & 0x0F) as u8;
        let y2 = ((v >> 6) & 0x3F) as u8;
        let y3 = (v & 0x3F) as u8;
        assert(0xE0u8 | y1 != 0) by (bit_vector);
        assert(0x80u8 | y2 != 0) by (bit_vector);
        assert(0x80u8 | y3 != 0) by (bit_vector);
        assert(e[0] != 0 && e[1] != 0 && e[2] != 0);
    } else {
        let y1 = ((v >> 18) & 0x7) as u8;
        let y2 = ((v >> 12) & 0x3F) as u8;
        let y3 = ((v >> 6) & 0x3F) as u8;
        let y4 = (v & 0x3F) as u8;
        assert(0xF0u8 | y1 != 0) by (bit_vector);
        assert(0x80u8 | y2 != 0) by (bit_vector);
        assert(0x80u8 | y3 != 0) by (bit_vector);
        assert(0x80u8 | y4 != 0) by (bit_vector);
        assert(e[0] != 0 && e[1] != 0 && e[2] != 0 && e[3] != 0);
    }
}

/// Text without the null character encodes to bytes without the zero byte:
/// the null terminator on the wire can never be mistaken for field content.
pub proof fn lemma_encode_utf8_no_null(s: Seq<char>)
    requires
        crate::text_ok(s),
    ensures
        forall|j: int|
            0 <= j < vstd::utf8::encode_utf8(s).len() ==> vstd::utf8::encode_utf8(s)[j] != 0,
    decreases s.len(),
{
    if s.len() == 0 {
    } else {
        let c = s[0];
        let v = c as u32;
        assert(v != 0) by {
            if v == 0 {
                vstd::utf8::char_u32_cast(c, v);
                vstd::utf8::char_u32_cast('\0', '\0' as u32);
                assert(('\0' as u32) == 0);
            }
        }
        vstd::utf8::char_is_scalar(c);
        lemma_encode_scalar_no_null(v);
        let e = vstd::utf8::encode_scalar(v);
        assert(crate::text_ok(s.drop_first())) by {
            assert forall|i: int| 0 <= i < s.drop_first().len() implies s.drop_first()[i] != '\0' by {
                assert(s.drop_first()[i] == s[i + 1]);
            }
        }
        lemma_encode_utf8_no_null(s.drop_first());
        let tail = vstd::utf8::encode_utf8(s.drop_first());
        assert(vstd::utf8::encode_utf8(s) == e + tail);
        assert forall|j: int|
            0 <= j < vstd::utf8::encode_utf8(s).len() implies vstd::utf8::encode_utf8(s)[j]
            != 0 by {
            if j < e.len() {
                assert((e + tail)[j] == e[j]);
            } else {
                assert((e + tail)[j] == tail[j - e.len()]);
            }
        }
    }
}

/// A mode's wire bytes hold no zero byte.
proof fn lemma_mode_wire_no_null(m: Mode)
    ensures
        forall|j: int|
            0 <= j < crate::mode_wire_bytes(m).len() ==> crate::mode_wire_bytes(m)[j] != 0,
{
}

/// Parsing a text field from its own encoding, a terminator, and whatever
/// follows yields the text back and leaves exactly what followed.
pub proof fn lemma_parse_text_of_encoded(s: Seq<char>, rest: Seq<u8>)
    requires
        crate::text_ok(s),
    ensures
        parse_text_model(vstd::utf8::encode_utf8(s) + seq![0u8] + rest) == Some((s, rest)),
{
    let f = vstd::utf8::encode_utf8(s);
    lemma_encode_utf8_no_null(s);
    lemma_null_pos_terminated(f, rest);
    vstd::utf8::encode_utf8_valid_utf8(s);
    vstd::utf8::encode_utf8_decode_utf8(s);
}

/// Parsing a mode field from a mode's wire bytes, a terminator, and whatever
/// follows yields the mode back and leaves exactly what followed.
pub proof fn lemma_parse_mode_of_wire(m: Mode, rest: Seq<u8>)
    ensures
        parse_mode_model(crate::mode_wire_bytes(m) + seq![0u8] + rest) == Some((m, rest)),
{
    let mb = crate::mode_wire_bytes(m);
    lemma_mode_wire_no_null(m);
    lemma_null_pos_terminated(mb, rest);
    assert(crate::mode_wire_bytes(Mode::Netascii).len() == 8);
    assert(crate::mode_wire_bytes(Mode::Octet).len() == 5);
    assert(crate::mode_wire_bytes(Mode::Mail).len() == 4);
    assert(crate::mode_of_bytes(mb) == Some(m));
}

/// Whether two byte slices hold the same bytes.
pub(crate) fn bytes_eq(a: &[u8], b: &[u8]) -> (r: bool)
    ensures
        r <==> a@ == b@,
{
    if a.len() != b.len() {
        assert(a@ != b@);
        return false;
    }
    let n = a.len();
    let mut i: usize = 0;
    while i < n
        invariant
            0 <= i <= n,
            n == a@.len() && n == b@.len(),
            forall|j: int| 0 <= j < i ==> a@[j] == b@[j],
        decreases n - i,
    {
        if *vstd::slice::slice_index_get(a, i) != *vstd::slice::slice_index_get(b, i) {
            assert(a@[i as int] != b@[i as int]);
            return false;
        }
        i = i + 1;
    }
    assert(a@ =~= b@);
    true
}

/// The mode spelled by a mode field's bytes, by exact comparison with the
/// three canonical strings.
fn mode_from_field(field: &[u8]) -> (r: Option<Mode>)
    ensures
        r == crate::mode_of_bytes(field@),
{
    let netascii: [u8; 8] = [110, 101, 116, 97, 115, 99, 105, 105];
    let octet: [u8; 5] = [111, 99, 116, 101, 116];
    let mail: [u8; 4] = [109, 97, 105, 108];
    if bytes_eq(field, netascii.as_slice()) {
        assert(netascii@ =~= crate::mode_wire_bytes(Mode::Netascii));
        Some(Mode::Netascii)
    } else if bytes_eq(field, octet.as_slice()) {
        assert(octet@ =~= crate::mode_wire_bytes(Mode::Octet));
        Some(Mode::Octet)
    } else if bytes_eq(field, mail.as_slice()) {
        assert(mail@ =~= crate::mode_wire_bytes(Mode::Mail));
        Some(Mode::Mail)
    } else {
        None
    }
}

} // verus!
