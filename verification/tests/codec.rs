//! Decoding and encoding of the five packet shapes, and the failure cases.

use tftp_packet::ErrorCode;
use tftp_packet::Mode;
use tftp_packet::Opcode;
use tftp_packet::Packet;
use tftp_packet::PacketError;

#[test]
fn test_opcode() {
    assert_eq!(Ok(Opcode::RRQ), Opcode::try_from(1));
    assert_eq!(Ok(Opcode::WRQ), Opcode::try_from(2));
    assert_eq!(Ok(Opcode::DATA), Opcode::try_from(3));
    assert_eq!(Ok(Opcode::ACK), Opcode::try_from(4));
    assert_eq!(Ok(Opcode::ERROR), Opcode::try_from(5));
}

#[test]
fn test_rrq_parser() {
    let packet = &[0u8, 1, 67, 68, 69, 0, 0x6f, 0x63, 0x74, 0x65, 0x74, 0];
    let packet = Packet::from_bytes(packet).unwrap();
    assert_eq!(
        packet,
        Packet::RRQ {
            filename: "CDE".to_string(),
            mode: Mode::Octet,
        }
    );
}

#[test]
fn test_wrq_parser() {
    let packet = &[0u8, 2, 67, 68, 69, 0, 0x6f, 0x63, 0x74, 0x65, 0x74, 0];
    let packet = Packet::from_bytes(packet).unwrap();
    assert_eq!(
        packet,
        Packet::WRQ {
            filename: "CDE".to_string(),
            mode: Mode::Octet,
        }
    );
}

#[test]
fn test_data_parser() {
    let packet = &[0u8, 3, 0, 42, 67, 68, 69];
    let packet = Packet::from_bytes(packet).unwrap();
    assert_eq!(
        packet,
        Packet::DATA {
            block_number: 42,
            data: vec![67, 68, 69],
        }
    );
}

#[test]
fn test_ack_parser() {
    let packet = &[0u8, 4, 0, 42];
    let packet = Packet::from_bytes(packet).unwrap();
    assert_eq!(packet, Packet::ACK { block_number: 42 });
}

#[test]
fn test_error_parser() {
    let packet = &[0u8, 5, 0, 2, 67, 68, 69, 0];
    let packet = Packet::from_bytes(packet).unwrap();
    assert_eq!(
        packet,
        Packet::ERROR {
            error_code: ErrorCode::AccessViolation,
            error_msg: "CDE".to_string()
        }
    );
}

#[test]
fn test_invalid_opcode() {
    let packet = &[0u8, 6, 67, 68, 69, 0, 0x6f, 0x63, 0x74, 0x65, 0x74, 0];
    assert!(matches!(
        Packet::from_bytes(packet),
        Err(PacketError::InvalidOpcode(..))
    ))
}

#[test]
fn test_invalid_data_length() {
    let mut packet = vec![0u8, 3, 0, 42];
    packet.extend([69; 513].iter());
    assert!(matches!(
        Packet::from_bytes(&packet),
        Err(PacketError::InvalidPacketLength(..))
    ))
}

#[test]
fn test_invalid_mode() {
    let packet = &[0u8, 1, 67, 68, 69, 0, 67, 0];
    assert!(matches!(
        Packet::from_bytes(packet),
        Err(PacketError::InvalidPacket(..))
    ))
}

#[test]
fn test_rrq_to_bytes() {
    let packet = Packet::RRQ {
        filename: "CDE".to_string(),
        mode: Mode::Octet,
    };
    assert_eq!(
        packet.to_bytes(),
        vec![0u8, 1, 67, 68, 69, 0, 0x6f, 0x63, 0x74, 0x65, 0x74, 0]
    );
}

#[test]
fn test_wrq_to_bytes() {
    let packet = Packet::WRQ {
        filename: "CDE".to_string(),
        mode: Mode::Octet,
    };
    assert_eq!(
        packet.to_bytes(),
        vec![0u8, 2, 67, 68, 69, 0, 0x6f, 0x63, 0x74, 0x65, 0x74, 0]
    );
}

#[test]
fn test_data_to_bytes() {
    let packet = Packet::DATA {
        block_number: 42,
        data: vec![67, 68, 69],
    };
    assert_eq!(packet.to_bytes(), vec![0u8, 3, 0, 42, 67, 68, 69]);
}

#[test]
fn test_ack_to_bytes() {
    let packet = Packet::ACK { block_number: 42 };
    assert_eq!(packet.to_bytes(), vec![0u8, 4, 0, 42]);
}

#[test]
fn test_error_to_bytes() {
    let packet = Packet::ERROR {
        error_code: ErrorCode::AccessViolation,
        error_msg: "CDE".to_string(),
    };
    assert_eq!(packet.to_bytes(), vec![0u8, 5, 0, 2, 67, 68, 69, 0]);
}
