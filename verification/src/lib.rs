//! Codec for the TFTP (RFC 1350) wire packet format.
//!
//! The library converts a typed representation of a TFTP message into its
//! exact byte encoding and back. `decode_model` and `encode_model` are the
//! mathematical description of the wire format; `Packet::from_bytes` and
//! `Packet::to_bytes` are the executable codec, proved to match it.

pub mod parsing;

use vstd::prelude::*;

verus! {

use vstd::string::StrSliceExecFns;

/// The error type for the tftp packet
#[derive(Debug, PartialEq)]
pub enum PacketError {
    /// General errors with an error message
    InvalidPacket(String),
    /// Invalid packet length with the expected length as field
    InvalidPacketLength(u16),
    /// Invalid Opcode with an error message
    InvalidOpcode(String),
}

/// What a `PacketError` means on the wire: the variant, and for a length
/// mismatch the expected length. The message strings carry no protocol
/// content, so the abstraction drops them.
pub enum ErrorKind {
    InvalidPacket,
    InvalidPacketLength(u16),
    InvalidOpcode,
}

impl View for PacketError {
    type V = ErrorKind;

    open spec fn view(&self) -> ErrorKind {
        match self {
            PacketError::InvalidPacket(_) => ErrorKind::InvalidPacket,
            PacketError::InvalidPacketLength(n) => ErrorKind::InvalidPacketLength(*n),
            PacketError::InvalidOpcode(_) => ErrorKind::InvalidOpcode,
        }
    }
}

/// All tftp opcodes defined in rfc1350
#[derive(Debug, PartialEq, Clone)]
pub enum Opcode {
    RRQ,
    WRQ,
    DATA,
    ACK,
    ERROR,
}

/// The 16-bit value that identifies `op` on the wire.
pub open spec fn opcode_value(op: Opcode) -> u16 {
    match op {
        Opcode::RRQ => 1,
        Opcode::WRQ => 2,
        Opcode::DATA => 3,
        Opcode::ACK => 4,
        Opcode::ERROR => 5,
    }
}

impl Opcode {
    /// The opcode named by a 16-bit wire value; values outside 1..=5 are invalid.
    pub fn try_from(value: u16) -> (r: Result<Self, &'static str>)
        ensures
            r is Ok <==> 1 <= value <= 5,
            r is Ok ==> opcode_value(r->Ok_0) == value,
    {
        match value {
            1 => Ok(Opcode::RRQ),
            2 => Ok(Opcode::WRQ),
            3 => Ok(Opcode::DATA),
            4 => Ok(Opcode::ACK),
            5 => Ok(Opcode::ERROR),
            _ => Err("Invalid opcode"),
        }
    }
}

/// All modes defined in rfc1350
#[derive(Debug, PartialEq, Clone)]
pub enum Mode {
    Netascii,
    Octet,
    Mail,
}

/// The canonical (lowercase ASCII) string of a transfer mode.
pub open spec fn mode_str(m: Mode) -> Seq<char> {
    match m {
        Mode::Netascii => "netascii"@,
        Mode::Octet => "octet"@,
        Mode::Mail => "mail"@,
    }
}

/// The bytes of a transfer mode's canonical string, as they stand on the wire.
pub open spec fn mode_wire_bytes(m: Mode) -> Seq<u8> {
    match m {
        Mode::Netascii => seq![110u8, 101u8, 116u8, 97u8, 115u8, 99u8, 105u8, 105u8],
        Mode::Octet => seq![111u8, 99u8, 116u8, 101u8, 116u8],
        Mode::Mail => seq![109u8, 97u8, 105u8, 108u8],
    }
}

/// The transfer mode whose canonical string a mode field's bytes spell,
/// if any; the match is case-sensitive and exact.
pub open spec fn mode_of_bytes(b: Seq<u8>) -> Option<Mode> {
    if b == mode_wire_bytes(Mode::Netascii) {
        Some(Mode::Netascii)
    } else if b == mode_wire_bytes(Mode::Octet) {
        Some(Mode::Octet)
    } else if b == mode_wire_bytes(Mode::Mail) {
        Some(Mode::Mail)
    } else {
        None
    }
}

/// A mode's canonical string encodes (in UTF-8, here plain ASCII) to exactly
/// its wire bytes.
proof fn lemma_mode_str_wire(m: Mode)
    ensures
        vstd::utf8::encode_utf8(mode_str(m)) == mode_wire_bytes(m),
{
    match m {
        Mode::Netascii => {
            reveal_strlit("netascii");
            let s = "netascii"@;
            assert(vstd::utf8::is_ascii_chars(s)) by {
                assert forall|i: int| 0 <= i < s.len() implies '\0' <= #[trigger] s[i]
                    <= '\u{7f}' by {
                    assert(s[0] == 'n' && s[1] == 'e' && s[2] == 't' && s[3] == 'a' && s[4] == 's'
                        && s[5] == 'c' && s[6] == 'i' && s[7] == 'i');
                }
            }
            vstd::utf8::is_ascii_chars_encode_utf8(s);
            assert(vstd::utf8::encode_utf8(s) =~= mode_wire_bytes(m));
        },
        Mode::Octet => {
            reveal_strlit("octet");
            let s = "octet"@;
            assert(vstd::utf8::is_ascii_chars(s)) by {
                assert forall|i: int| 0 <= i < s.len() implies '\0' <= #[trigger] s[i]
                    <= '\u{7f}' by {
                    assert(s[0] == 'o' && s[1] == 'c' && s[2] == 't' && s[3] == 'e' && s[4] == 't');
                }
            }
            vstd::utf8::is_ascii_chars_encode_utf8(s);
            assert(vstd::utf8::encode_utf8(s) =~= mode_wire_bytes(m));
        },
        Mode::Mail => {
            reveal_strlit("mail");
            let s = "mail"@;
            assert(vstd::utf8::is_ascii_chars(s)) by {
                assert forall|i: int| 0 <= i < s.len() implies '\0' <= #[trigger] s[i]
                    <= '\u{7f}' by {
                    assert(s[0] == 'm' && s[1] == 'a' && s[2] == 'i' && s[3] == 'l');
                }
            }
            vstd::utf8::is_ascii_chars_encode_utf8(s);
            assert(vstd::utf8::encode_utf8(s) =~= mode_wire_bytes(m));
        },
    }
}

impl Mode {
    /// The mode whose canonical string `value` is; the match is
    /// case-sensitive and exact.
    pub fn try_from(value: &str) -> (r: Result<Self, &'static str>)
        ensures
            r is Ok <==> (value@ == mode_str(Mode::Netascii) || value@ == mode_str(Mode::Octet)
                || value@ == mode_str(Mode::Mail)),
            r is Ok ==> mode_str(r->Ok_0) == value@,
    {
        proof {
            lemma_mode_str_wire(Mode::Netascii);
            lemma_mode_str_wire(Mode::Octet);
            lemma_mode_str_wire(Mode::Mail);
            vstd::utf8::encode_utf8_decode_utf8(value@);
            vstd::utf8::encode_utf8_decode_utf8(mode_str(Mode::Netascii));
            vstd::utf8::encode_utf8_decode_utf8(mode_str(Mode::Octet));
            vstd::utf8::encode_utf8_decode_utf8(mode_str(Mode::Mail));
        }
        let b = value.as_bytes();
        let netascii: [u8; 8] = [110, 101, 116, 97, 115, 99, 105, 105];
        let octet: [u8; 5] = [111, 99, 116, 101, 116];
        let mail: [u8; 4] = [109, 97, 105, 108];
        if parsing::bytes_eq(b, netascii.as_slice()) {
            assert(netascii@ =~= mode_wire_bytes(Mode::Netascii));
            Ok(Mode::Netascii)
        } else if parsing::bytes_eq(b, octet.as_slice()) {
            assert(octet@ =~= mode_wire_bytes(Mode::Octet));
            Ok(Mode::Octet)
        } else if parsing::bytes_eq(b, mail.as_slice()) {
            assert(mail@ =~= mode_wire_bytes(Mode::Mail));
            Ok(Mode::Mail)
        } else {
            assert(netascii@ =~= mode_wire_bytes(Mode::Netascii));
            assert(octet@ =~= mode_wire_bytes(Mode::Octet));
            assert(mail@ =~= mode_wire_bytes(Mode::Mail));
            Err("Invalid mode")
        }
    }

    /// The canonical string of this mode.
    pub fn as_str(&self) -> (r: &'static str)
        ensures
            r@ == mode_str(*self),
    {
        match self {
            Mode::Netascii => "netascii",
            Mode::Octet => "octet",
            Mode::Mail => "mail",
        }
    }
}

/// All error codes defined in rfc1350 for an ERROR packet
#[derive(Debug, PartialEq, Clone)]
pub enum ErrorCode {
    NotDefined,
    FileNotFound,
    AccessViolation,
    DiskFull,
    IllegalOperation,
    UnknownTransferId,
    FileAlreadyExists,
    NoSuchUser,
}

/// The 16-bit value that identifies `e` on the wire.
pub open spec fn error_code_value(e: ErrorCode) -> u16 {
    match e {
        ErrorCode::NotDefined => 0,
        ErrorCode::FileNotFound => 1,
        ErrorCode::AccessViolation => 2,
        ErrorCode::DiskFull => 3,
        ErrorCode::IllegalOperation => 4,
        ErrorCode::UnknownTransferId => 5,
        ErrorCode::FileAlreadyExists => 6,
        ErrorCode::NoSuchUser => 7,
    }
}

/// The error code named by a 16-bit wire value in 0..=7.
pub open spec fn error_code_of(v: u16) -> ErrorCode
    recommends
        v <= 7,
{
    if v == 0 {
        ErrorCode::NotDefined
    } else if v == 1 {
        ErrorCode::FileNotFound
    } else if v == 2 {
        ErrorCode::AccessViolation
    } else if v == 3 {
        ErrorCode::DiskFull
    } else if v == 4 {
        ErrorCode::IllegalOperation
    } else if v == 5 {
        ErrorCode::UnknownTransferId
    } else if v == 6 {
        ErrorCode::FileAlreadyExists
    } else {
        ErrorCode::NoSuchUser
    }
}

impl ErrorCode {
    /// The error code named by a 16-bit wire value; values above 7 are invalid.
    pub fn try_from(value: u16) -> (r: Result<Self, &'static str>)
        ensures
            r is Ok <==> value <= 7,
            r is Ok ==> r->Ok_0 == error_code_of(value),
    {
        match value {
            0 => Ok(ErrorCode::NotDefined),
            1 => Ok(ErrorCode::FileNotFound),
            2 => Ok(ErrorCode::AccessViolation),
            3 => Ok(ErrorCode::DiskFull),
            4 => Ok(ErrorCode::IllegalOperation),
            5 => Ok(ErrorCode::UnknownTransferId),
            6 => Ok(ErrorCode::FileAlreadyExists),
            7 => Ok(ErrorCode::NoSuchUser),
            _ => Err("Invalid error code"),
        }
    }

    /// The 16-bit wire value of this error code.
    pub fn value(&self) -> (r: u16)
        ensures
            r == error_code_value(*self),
    {
        match self {
            ErrorCode::NotDefined => 0,
            ErrorCode::FileNotFound => 1,
            ErrorCode::AccessViolation => 2,
            ErrorCode::DiskFull => 3,
            ErrorCode::IllegalOperation => 4,
            ErrorCode::UnknownTransferId => 5,
            ErrorCode::FileAlreadyExists => 6,
            ErrorCode::NoSuchUser => 7,
        }
    }
}

/// The tftp packet
#[derive(Debug, PartialEq, Clone)]
pub enum Packet {
    RRQ { filename: String, mode: Mode },
    WRQ { filename: String, mode: Mode },
    DATA { block_number: u16, data: Vec<u8> },
    ACK { block_number: u16 },
    ERROR { error_code: ErrorCode, error_msg: String },
}

/// The mathematical value of a packet: text fields as character sequences,
/// the payload as a byte sequence.
pub enum PacketModel {
    RRQ { filename: Seq<char>, mode: Mode },
    WRQ { filename: Seq<char>, mode: Mode },
    DATA { block_number: u16, data: Seq<u8> },
    ACK { block_number: u16 },
    ERROR { error_code: ErrorCode, error_msg: Seq<char> },
}

impl View for Packet {
    type V = PacketModel;

    open spec fn view(&self) -> PacketModel {
        match self {
            Packet::RRQ { filename, mode } => PacketModel::RRQ {
                filename: filename@,
                mode: *mode,
            },
            Packet::WRQ { filename, mode } => PacketModel::WRQ {
                filename: filename@,
                mode: *mode,
            },
            Packet::DATA { block_number, data } => PacketModel::DATA {
                block_number: *block_number,
                data: data@,
            },
            Packet::ACK { block_number } => PacketModel::ACK { block_number: *block_number },
            Packet::ERROR { error_code, error_msg } => PacketModel::ERROR {
                error_code: *error_code,
                error_msg: error_msg@,
            },
        }
    }
}

/// The two bytes of a 16-bit value in big-endian order.
pub open spec fn be_bytes(v: u16) -> Seq<u8> {
    seq![(v / 256) as u8, (v % 256) as u8]
}

/// The exact byte encoding of a packet: opcode first, then the fields in the
/// order fixed by the protocol, text fields and the mode each followed by a
/// null terminator.
pub open spec fn encode_model(m: PacketModel) -> Seq<u8> {
    match m {
        PacketModel::RRQ { filename, mode } => seq![0u8, 1u8] + vstd::utf8::encode_utf8(filename)
            + seq![0u8] + mode_wire_bytes(mode) + seq![0u8],
        PacketModel::WRQ { filename, mode } => seq![0u8, 2u8] + vstd::utf8::encode_utf8(filename)
            + seq![0u8] + mode_wire_bytes(mode) + seq![0u8],
        PacketModel::DATA { block_number, data } => seq![0u8, 3u8] + be_bytes(block_number) + data,
        PacketModel::ACK { block_number } => seq![0u8, 4u8] + be_bytes(block_number),
        PacketModel::ERROR { error_code, error_msg } => seq![0u8, 5u8] + be_bytes(
            error_code_value(error_code),
        ) + vstd::utf8::encode_utf8(error_msg) + seq![0u8],
    }
}

/// What decoding a byte sequence yields: the packet it encodes, or the kind
/// of error with which decoding fails.
///
/// The opcode is read first; fewer than 2 bytes, or a value outside 1..=5, is
/// an invalid opcode. The opcode then selects the field sequence. Trailing
/// bytes after the mode or the error message are ignored; trailing bytes
/// after an ACK's block number, or a DATA payload over 512 bytes, violate the
/// packet's fixed size.
pub open spec fn decode_model(b: Seq<u8>) -> Result<PacketModel, ErrorKind> {
    match parsing::take_u16_model(b) {
        None => Err(ErrorKind::InvalidOpcode),
        Some((op, rest)) => {
            if op == 1 || op == 2 {
                match parsing::parse_text_model(rest) {
                    None => Err(ErrorKind::InvalidPacket),
                    Some((filename, rest2)) => match parsing::parse_mode_model(rest2) {
                        None => Err(ErrorKind::InvalidPacket),
                        Some((mode, _)) => Ok(
                            if op == 1 {
                                PacketModel::RRQ { filename, mode }
                            } else {
                                PacketModel::WRQ { filename, mode }
                            },
                        ),
                    },
                }
            } else if op == 3 {
                match parsing::take_u16_model(rest) {
                    None => Err(ErrorKind::InvalidPacket),
                    Some((block_number, data)) => {
                        if data.len() > 512 {
                            Err(ErrorKind::InvalidPacketLength(512))
                        } else {
                            Ok(PacketModel::DATA { block_number, data })
                        }
                    },
                }
            } else if op == 4 {
                match parsing::take_u16_model(rest) {
                    None => Err(ErrorKind::InvalidPacket),
                    Some((block_number, tail)) => {
                        if tail.len() == 0 {
                            Ok(PacketModel::ACK { block_number })
                        } else {
                            Err(ErrorKind::InvalidPacketLength(4))
                        }
                    },
                }
            } else if op == 5 {
                match parsing::parse_error_code_model(rest) {
                    None => Err(ErrorKind::InvalidPacket),
                    Some((error_code, rest2)) => match parsing::parse_text_model(rest2) {
                        None => Err(ErrorKind::InvalidPacket),
                        Some((error_msg, _)) => Ok(PacketModel::ERROR { error_code, error_msg }),
                    },
                }
            } else {
                Err(ErrorKind::InvalidOpcode)
            }
        },
    }
}

impl Packet {
    /// Parse a packet from a byte array.
    pub fn from_bytes(bytes: &[u8]) -> (r: Result<Self, PacketError>)
        ensures
            r is Ok <==> decode_model(bytes@) is Ok,
            r is Ok ==> r->Ok_0@ == decode_model(bytes@)->Ok_0,
            r is Err ==> r->Err_0@ == decode_model(bytes@)->Err_0,
    {
        let (op, rest) = match parsing::take_u16(bytes) {
            None => {
                return Err(
                    PacketError::InvalidOpcode(
                        "Error while parsing opcode. Opcode not a u16.".to_string(),
                    ),
                );
            },
            Some(p) => p,
        };
        let opcode = match Opcode::try_from(op) {
            Err(_) => {
                return Err(
                    PacketError::InvalidOpcode(
                        "Error while parsing opcode: Invalid opcode".to_string(),
                    ),
                );
            },
            Ok(o) => o,
        };
        match opcode {
            Opcode::RRQ => {
                let (filename, rest) = parsing::parse_filename(rest)?;
                let (mode, _rest) = parsing::parse_mode(rest)?;
                Ok(Packet::RRQ { filename, mode })
            },
            Opcode::WRQ => {
                let (filename, rest) = parsing::parse_filename(rest)?;
                let (mode, _rest) = parsing::parse_mode(rest)?;
                Ok(Packet::WRQ { filename, mode })
            },
            Opcode::DATA => {
                let (block_number, rest) = parsing::parse_block_number(rest)?;
                let data = vstd::slice::slice_to_vec(rest);
                if data.len() > 512 {
                    Err(PacketError::InvalidPacketLength(512))
                } else {
                    Ok(Packet::DATA { block_number, data })
                }
            },
            Opcode::ACK => {
                let (block_number, rest) = parsing::parse_block_number(rest)?;
                if rest.is_empty() {
                    Ok(Packet::ACK { block_number })
                } else {
                    Err(PacketError::InvalidPacketLength(4))
                }
            },
            Opcode::ERROR => {
                let (error_code, rest) = parsing::parse_error_code(rest)?;
                let (error_msg, _rest) = parsing::parse_error_message(rest)?;
                Ok(Packet::ERROR { error_code, error_msg })
            },
        }
    }

    /// Serialize a packet into a byte array.
    ///
    /// For a packet that satisfies the data-model invariants, the bytes
    /// decode back to the packet itself.
    pub fn to_bytes(self) -> (r: Vec<u8>)
        ensures
            r@ == encode_model(self@),
            wf_packet(self@) ==> decode_model(r@) == Ok::<PacketModel, ErrorKind>(self@),
    {
        let ghost m = self@;
        proof {
            if wf_packet(m) {
                lemma_round_trip(m);
            }
        }
        match self {
            Packet::RRQ { filename, mode } => {
                let mut bytes: Vec<u8> = Vec::new();
                bytes.push(0);
                bytes.push(1);
                let mut fb = filename.as_str().as_bytes_vec();
                bytes.append(&mut fb);
                bytes.push(0);
                let mut mb = mode_wire(&mode);
                bytes.append(&mut mb);
                bytes.push(0);
                assert(bytes@ =~= encode_model(m));
                bytes
            },
            Packet::WRQ { filename, mode } => {
                let mut bytes: Vec<u8> = Vec::new();
                bytes.push(0);
                bytes.push(2);
                let mut fb = filename.as_str().as_bytes_vec();
                bytes.append(&mut fb);
                bytes.push(0);
                let mut mb = mode_wire(&mode);
                bytes.append(&mut mb);
                bytes.push(0);
                assert(bytes@ =~= encode_model(m));
                bytes
            },
            Packet::DATA { block_number, data } => {
                let mut bytes: Vec<u8> = Vec::new();
                bytes.push(0);
                bytes.push(3);
                push_be_u16(&mut bytes, block_number);
                let mut payload = data;
                bytes.append(&mut payload);
                assert(bytes@ =~= encode_model(m));
                bytes
            },
            Packet::ACK { block_number } => {
                let mut bytes: Vec<u8> = Vec::new();
                bytes.push(0);
                bytes.push(4);
                push_be_u16(&mut bytes, block_number);
                assert(bytes@ =~= encode_model(m));
                bytes
            },
            Packet::ERROR { error_code, error_msg } => {
                let mut bytes: Vec<u8> = Vec::new();
                bytes.push(0);
                bytes.push(5);
                push_be_u16(&mut bytes, error_code.value());
                let mut sb = error_msg.as_str().as_bytes_vec();
                bytes.append(&mut sb);
                bytes.push(0);
                assert(bytes@ =~= encode_model(m));
                bytes
            },
        }
    }
}

/// Whether a text field's characters satisfy the data-model invariant: no
/// embedded null character (on the wire, the null byte is the field
/// terminator, never part of the value).
pub open spec fn text_ok(s: Seq<char>) -> bool {
    forall|i: int| 0 <= i < s.len() ==> s[i] != '\0'
}

/// The data-model invariants of a packet: text fields hold no null
/// character, and a DATA payload holds at most 512 bytes.
pub open spec fn wf_packet(m: PacketModel) -> bool {
    match m {
        PacketModel::RRQ { filename, .. } => text_ok(filename),
        PacketModel::WRQ { filename, .. } => text_ok(filename),
        PacketModel::DATA { data, .. } => data.len() <= 512,
        PacketModel::ACK { .. } => true,
        PacketModel::ERROR { error_msg, .. } => text_ok(error_msg),
    }
}

/// Splitting a 16-bit value into its big-endian bytes and reading them back
/// yields the value.
proof fn lemma_u16_be_round(v: u16)
    ensures
        parsing::u16_from_be((v / 256) as u8, (v % 256) as u8) == v,
{
    assert(v / 256 < 256);
    assert((v / 256) * 256 + v % 256 == v) by (nonlinear_arith);
}

/// Round trip: every packet that satisfies the data-model invariants decodes
/// from its own encoding back to itself.
pub proof fn lemma_round_trip(m: PacketModel)
    requires
        wf_packet(m),
    ensures
        decode_model(encode_model(m)) == Ok::<PacketModel, ErrorKind>(m),
{
    let b = encode_model(m);
    match m {
        PacketModel::RRQ { filename, mode } => {
            let f = vstd::utf8::encode_utf8(filename);
            let mb = mode_wire_bytes(mode);
            let rest2 = mb + seq![0u8];
            let rest = f + seq![0u8] + rest2;
            assert(b[0] == 0 && b[1] == 1);
            assert(b.skip(2) =~= rest);
            assert(parsing::u16_from_be(0u8, 1u8) == 1);
            parsing::lemma_parse_text_of_encoded(filename, rest2);
            assert(rest2 =~= mb + seq![0u8] + Seq::<u8>::empty());
            parsing::lemma_parse_mode_of_wire(mode, Seq::<u8>::empty());
        },
        PacketModel::WRQ { filename, mode } => {
            let f = vstd::utf8::encode_utf8(filename);
            let mb = mode_wire_bytes(mode);
            let rest2 = mb + seq![0u8];
            let rest = f + seq![0u8] + rest2;
            assert(b[0] == 0 && b[1] == 2);
            assert(b.skip(2) =~= rest);
            assert(parsing::u16_from_be(0u8, 2u8) == 2);
            parsing::lemma_parse_text_of_encoded(filename, rest2);
            assert(rest2 =~= mb + seq![0u8] + Seq::<u8>::empty());
            parsing::lemma_parse_mode_of_wire(mode, Seq::<u8>::empty());
        },
        PacketModel::DATA { block_number, data } => {
            let rest = be_bytes(block_number) + data;
            assert(b[0] == 0 && b[1] == 3);
            assert(b.skip(2) =~= rest);
            assert(parsing::u16_from_be(0u8, 3u8) == 3);
            assert(rest[0] == (block_number / 256) as u8);
            assert(rest[1] == (block_number % 256) as u8);
            lemma_u16_be_round(block_number);
            assert(rest.skip(2) =~= data);
        },
        PacketModel::ACK { block_number } => {
            let rest = be_bytes(block_number);
            assert(b[0] == 0 && b[1] == 4);
            assert(b.skip(2) =~= rest);
            assert(parsing::u16_from_be(0u8, 4u8) == 4);
            assert(rest[0] == (block_number / 256) as u8);
            assert(rest[1] == (block_number % 256) as u8);
            lemma_u16_be_round(block_number);
            assert(rest.skip(2).len() == 0);
        },
        PacketModel::ERROR { error_code, error_msg } => {
            let cv = error_code_value(error_code);
            let tail = vstd::utf8::encode_utf8(error_msg) + seq![0u8];
            let rest = be_bytes(cv) + tail;
            assert(b[0] == 0 && b[1] == 5);
            assert(b.skip(2) =~= rest);
            assert(parsing::u16_from_be(0u8, 5u8) == 5);
            assert(rest[0] == (cv / 256) as u8);
            assert(rest[1] == (cv % 256) as u8);
            lemma_u16_be_round(cv);
            assert(cv <= 7);
            assert(error_code_of(cv) == error_code);
            assert(rest.skip(2) =~= tail);
            assert(tail =~= vstd::utf8::encode_utf8(error_msg) + seq![0u8] + Seq::<u8>::empty());
            parsing::lemma_parse_text_of_encoded(error_msg, Seq::<u8>::empty());
        },
    }
}

/// Determinism: what a byte sequence decodes to is a function of the bytes
/// alone; two identical inputs yield the same result.
pub proof fn lemma_decode_deterministic(b1: Seq<u8>, b2: Seq<u8>)
    requires
        b1 == b2,
    ensures
        decode_model(b1) == decode_model(b2),
{
}

/// Appends the two big-endian bytes of `v`.
fn push_be_u16(bytes: &mut Vec<u8>, v: u16)
    ensures
        final(bytes)@ == old(bytes)@ + be_bytes(v),
{
    bytes.push((v / 256) as u8);
    bytes.push((v % 256) as u8);
    assert(bytes@ =~= old(bytes)@ + be_bytes(v));
}

/// The canonical mode string of `m` as owned wire bytes.
fn mode_wire(m: &Mode) -> (r: Vec<u8>)
    ensures
        r@ == mode_wire_bytes(*m),
{
    match m {
        Mode::Netascii => {
            let a: [u8; 8] = [110, 101, 116, 97, 115, 99, 105, 105];
            let v = vstd::slice::slice_to_vec(a.as_slice());
            assert(v@ =~= mode_wire_bytes(Mode::Netascii));
            v
        },
        Mode::Octet => {
            let a: [u8; 5] = [111, 99, 116, 101, 116];
            let v = vstd::slice::slice_to_vec(a.as_slice());
            assert(v@ =~= mode_wire_bytes(Mode::Octet));
            v
        },
        Mode::Mail => {
            let a: [u8; 4] = [109, 97, 105, 108];
            let v = vstd::slice::slice_to_vec(a.as_slice());
            assert(v@ =~= mode_wire_bytes(Mode::Mail));
            v
        },
    }
}

} // verus!
