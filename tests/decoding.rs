use chipr::decode::{byte_to_bit_array, bytes_to_word, decode, split_into_4bits, Instruction};

#[test]
fn test_byte_to_bit_array() {
    assert_eq!(
        byte_to_bit_array(0b1100_0001),
        [true, true, false, false, false, false, false, true]
    );
}

#[test]
fn bit_array_of_extremes() {
    assert_eq!(byte_to_bit_array(0x00), [false; 8]);
    assert_eq!(byte_to_bit_array(0xFF), [true; 8]);
    assert_eq!(
        byte_to_bit_array(0x80),
        [true, false, false, false, false, false, false, false]
    );
}

#[test]
fn word_is_big_endian() {
    assert_eq!(bytes_to_word(0x12, 0x34), 0x1234);
    assert_eq!(bytes_to_word(0x00, 0xE0), 0x00E0);
    assert_eq!(bytes_to_word(0xFF, 0xFF), 0xFFFF);
}

#[test]
fn nibbles_most_significant_first() {
    assert_eq!(split_into_4bits(0xABCD), (0xA, 0xB, 0xC, 0xD));
    assert_eq!(split_into_4bits(0x0000), (0, 0, 0, 0));
    assert_eq!(split_into_4bits(0xF00F), (0xF, 0, 0, 0xF));
}

#[test]
fn decode_system_and_flow() {
    assert_eq!(decode(0x00E0), Some(Instruction::Cls));
    assert_eq!(decode(0x00EE), Some(Instruction::Ret));
    assert_eq!(decode(0x0123), Some(Instruction::Sys { addr: 0x123 }));
    assert_eq!(decode(0x1ABC), Some(Instruction::Jp { addr: 0xABC }));
    assert_eq!(decode(0x2ABC), Some(Instruction::Call { addr: 0xABC }));
    assert_eq!(decode(0xB123), Some(Instruction::JpV0Addr { addr: 0x123 }));
}

#[test]
fn decode_register_families() {
    assert_eq!(decode(0x3A42), Some(Instruction::SeVxKk { x: 0xA, kk: 0x42 }));
    assert_eq!(decode(0x4A42), Some(Instruction::SneVxKk { x: 0xA, kk: 0x42 }));
    assert_eq!(decode(0x5120), Some(Instruction::SeVxVy { x: 1, y: 2 }));
    assert_eq!(decode(0x6A42), Some(Instruction::LdVxKk { x: 0xA, kk: 0x42 }));
    assert_eq!(decode(0x7A42), Some(Instruction::AddVxKk { x: 0xA, kk: 0x42 }));
    assert_eq!(decode(0x8120), Some(Instruction::LdVxVy { x: 1, y: 2 }));
    assert_eq!(decode(0x8121), Some(Instruction::OrVxVy { x: 1, y: 2 }));
    assert_eq!(decode(0x8122), Some(Instruction::AndVxVy { x: 1, y: 2 }));
    assert_eq!(decode(0x8123), Some(Instruction::XorVxVy { x: 1, y: 2 }));
    assert_eq!(decode(0x8124), Some(Instruction::AddVxVy { x: 1, y: 2 }));
    assert_eq!(decode(0x8125), Some(Instruction::SubVxVy { x: 1, y: 2 }));
    assert_eq!(decode(0x8126), Some(Instruction::ShrVxVy { x: 1, y: 2 }));
    assert_eq!(decode(0x8127), Some(Instruction::SubnVxVy { x: 1, y: 2 }));
    assert_eq!(decode(0x812E), Some(Instruction::ShlVxVy { x: 1, y: 2 }));
    assert_eq!(decode(0x9120), Some(Instruction::SneVxVy { x: 1, y: 2 }));
    assert_eq!(decode(0xA123), Some(Instruction::LdIAddr { addr: 0x123 }));
    assert_eq!(decode(0xC1FF), Some(Instruction::RndVxKk { x: 1, kk: 0xFF }));
    assert_eq!(decode(0xD125), Some(Instruction::Drw { x: 1, y: 2, n: 5 }));
}

#[test]
fn decode_key_and_misc_families() {
    assert_eq!(decode(0xE39E), Some(Instruction::SkpVx { x: 3 }));
    assert_eq!(decode(0xE3A1), Some(Instruction::SknpVx { x: 3 }));
    assert_eq!(decode(0xF307), Some(Instruction::LdVxDt { x: 3 }));
    assert_eq!(decode(0xF30A), Some(Instruction::LdVxK { x: 3 }));
    assert_eq!(decode(0xF315), Some(Instruction::LdDtVx { x: 3 }));
    assert_eq!(decode(0xF318), Some(Instruction::LdStVx { x: 3 }));
    assert_eq!(decode(0xF31E), Some(Instruction::AddIVx { x: 3 }));
    assert_eq!(decode(0xF329), Some(Instruction::LdFVx { x: 3 }));
    assert_eq!(decode(0xF333), Some(Instruction::LdBVx { x: 3 }));
    assert_eq!(decode(0xF355), Some(Instruction::LdAddrIVx { x: 3 }));
    assert_eq!(decode(0xF365), Some(Instruction::LdVxAddrI { x: 3 }));
}

#[test]
fn decode_rejects_unknown_words() {
    assert_eq!(decode(0x5121), None);
    assert_eq!(decode(0x8128), None);
    assert_eq!(decode(0x812F), None);
    assert_eq!(decode(0x9121), None);
    assert_eq!(decode(0xE300), None);
    assert_eq!(decode(0xF300), None);
    assert_eq!(decode(0xFFFF), None);
}
