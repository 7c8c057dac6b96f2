use pible::instruction::decode_program;
use pible::{BpfInstruction, Compiler, Operation};

#[test]
fn encoding_follows_the_layout_bit_for_bit() {
    let instruction = BpfInstruction::new(0x6b, 0x0a, 0x03, -2, -0x1234_5678);
    let bytes = instruction.to_bytes();
    // -2 is 0xfffe, and -0x12345678 is 0xedcba988.
    assert_eq!(bytes, [0x6b, 0x3a, 0xfe, 0xff, 0x88, 0xa9, 0xcb, 0xed]);
}

#[test]
fn encoding_keeps_only_four_bits_of_each_register() {
    let instruction = BpfInstruction::new(0xb7, 0x1f, 0x27, 0, 0);
    assert_eq!(instruction.to_bytes()[1], 0x7f);
}

#[test]
fn encoding_takes_the_extreme_values() {
    let low = BpfInstruction::new(0, 0, 0, i16::MIN, i32::MIN).to_bytes();
    assert_eq!(low, [0, 0, 0x00, 0x80, 0x00, 0x00, 0x00, 0x80]);
    let high = BpfInstruction::new(0xff, 15, 15, i16::MAX, i32::MAX).to_bytes();
    assert_eq!(high, [0xff, 0xff, 0xff, 0x7f, 0xff, 0xff, 0xff, 0x7f]);
}

#[test]
fn decoding_reads_the_layout() {
    let bytes = [0x6b, 0x3a, 0xfe, 0xff, 0x88, 0xa9, 0xcb, 0xed];
    let instruction = BpfInstruction::from_bytes(&bytes);
    assert_eq!(instruction, BpfInstruction::new(0x6b, 0x0a, 0x03, -2, -0x1234_5678));
}

#[test]
fn decoding_an_encoding_gives_the_instruction_back() {
    let offsets = [i16::MIN, -300, -1, 0, 1, 255, 256, i16::MAX];
    let immediates = [i32::MIN, -70000, -1, 0, 1, 65535, 65536, 0x1234_5678, i32::MAX];
    for opcode in [0x00u8, 0x05, 0x61, 0x85, 0x95, 0xb7, 0xff] {
        for dst in 0..=10u8 {
            for src in 0..=10u8 {
                for offset in offsets {
                    for immediate in immediates {
                        let instruction = BpfInstruction::new(opcode, dst, src, offset, immediate);
                        let bytes = instruction.to_bytes();
                        assert_eq!(BpfInstruction::from_bytes(&bytes), instruction);
                    }
                }
            }
        }
    }
}

#[test]
fn encoding_a_decoding_gives_the_bytes_back() {
    let records = [
        [0u8; 8],
        [0xff; 8],
        [0x12, 0x34, 0x56, 0x78, 0x9a, 0xbc, 0xde, 0xf0],
        [0x95, 0xa0, 0x00, 0x80, 0xff, 0xff, 0xff, 0x7f],
    ];
    for record in records {
        assert_eq!(BpfInstruction::from_bytes(&record).to_bytes(), record);
    }
}

#[test]
fn a_program_is_encoded_record_after_record() {
    let program = [
        BpfInstruction::new(0xb7, 1, 0, 0, 7),
        BpfInstruction::new(0x85, 0, 0, 0, 6),
        BpfInstruction::new(0x95, 0, 0, 0, 0),
    ];
    let bytes = Compiler::new().instructions_to_bytes(&program);
    assert_eq!(
        bytes,
        vec![
            0xb7, 0x01, 0, 0, 7, 0, 0, 0, //
            0x85, 0x00, 0, 0, 6, 0, 0, 0, //
            0x95, 0x00, 0, 0, 0, 0, 0, 0,
        ]
    );
    assert_eq!(decode_program(&bytes), program.to_vec());
}

#[test]
fn decoding_a_program_ignores_a_broken_last_record() {
    let mut bytes = Compiler::new().instructions_to_bytes(&[BpfInstruction::new(0x95, 0, 0, 0, 0)]);
    bytes.extend_from_slice(&[0xb7, 0x01, 0x00]);
    assert_eq!(decode_program(&bytes), vec![BpfInstruction::new(0x95, 0, 0, 0, 0)]);
    assert_eq!(decode_program(&[]), Vec::<BpfInstruction>::new());
}

#[test]
fn the_class_is_the_low_three_bits() {
    assert_eq!(BpfInstruction::new(0x95, 0, 0, 0, 0).class(), 0x05);
    assert_eq!(BpfInstruction::new(0xb7, 0, 0, 0, 0).class(), 0x07);
    assert_eq!(BpfInstruction::new(0x61, 0, 0, 0, 0).class(), 0x01);
    assert!(BpfInstruction::new(0x04, 0, 0, 0, 0).has_valid_class());
    assert!(!BpfInstruction::new(0x06, 0, 0, 0, 0).has_valid_class());
    assert!(!BpfInstruction::new(0xfe, 0, 0, 0, 0).has_valid_class());
}

#[test]
fn the_catalog_maps_opcodes_both_ways() {
    let mut known = 0;
    for opcode in 0..=255u8 {
        if let Some(operation) = Operation::from_opcode(opcode) {
            known += 1;
            assert_eq!(operation.opcode(), opcode);
        }
    }
    assert_eq!(known, 29);
    assert_eq!(Operation::from_opcode(0x95), Some(Operation::Exit));
    assert_eq!(Operation::from_opcode(0x85), Some(Operation::Call));
    assert_eq!(Operation::from_opcode(0xcf), Some(Operation::ArshImm));
    assert_eq!(Operation::from_opcode(0x62), Some(Operation::StoreImmWord));
    assert_eq!(Operation::from_opcode(0x05), None);
    assert_eq!(Operation::from_opcode(0x00), None);
}
