use pible::{BpfInstruction, CodeGen, SolanaBpf};

#[test]
fn test_solana_load_register_instruction() {
    let mut codegen = CodeGen::new();
    let mut solana_bpf = SolanaBpf::new(&mut codegen);

    // Test internal method via entrypoint generation
    solana_bpf.generate_entrypoint("test").unwrap();
    let instructions = solana_bpf.get_instructions();

    // Find LDX instruction
    let ldx_instr = instructions
        .iter()
        .find(|inst| (inst.opcode & 0xf8) == 0x78);
    assert!(ldx_instr.is_some());

    let instr = ldx_instr.unwrap();
    assert_eq!(instr.opcode, 0x79); // BPF_LDX | BPF_MEM | BPF_DW
}

#[test]
fn test_solana_move_immediate_instruction() {
    let mut codegen = CodeGen::new();
    let mut solana_bpf = SolanaBpf::new(&mut codegen);

    solana_bpf.generate_entrypoint("test").unwrap();
    let instructions = solana_bpf.get_instructions();

    // Find MOV immediate instruction
    let mov_instr = instructions.iter().find(|inst| inst.opcode == 0xb7);
    assert!(mov_instr.is_some());

    let instr = mov_instr.unwrap();
    assert_eq!(instr.src_reg, 0); // Source should be 0 for immediate
}

#[test]
fn test_solana_call_instruction() {
    let mut codegen = CodeGen::new();
    let mut solana_bpf = SolanaBpf::new(&mut codegen);

    solana_bpf.generate_entrypoint("test").unwrap();
    let instructions = solana_bpf.get_instructions();

    // Find CALL instruction
    let call_instr = instructions.iter().find(|inst| inst.opcode == 0x85);
    assert!(call_instr.is_some());

    let instr = call_instr.unwrap();
    assert_eq!(instr.immediate, 1); // Function index
}

#[test]
fn test_solana_exit_instruction() {
    let mut codegen = CodeGen::new();
    let mut solana_bpf = SolanaBpf::new(&mut codegen);

    solana_bpf.generate_entrypoint("test").unwrap();
    let instructions = solana_bpf.get_instructions();

    // Last instruction should be exit
    let last_instr = &instructions[instructions.len() - 1];
    assert_eq!(last_instr.opcode, 0x95); // BPF_EXIT
    assert_eq!(last_instr.dst_reg, 0);
    assert_eq!(last_instr.src_reg, 0);
    assert_eq!(last_instr.offset, 0);
    assert_eq!(last_instr.immediate, 0);
}

#[test]
fn test_instruction_byte_encoding() {
    let instr = BpfInstruction::new(0x95, 0, 0, 0, 0);
    let bytes = instr.to_bytes();

    assert_eq!(bytes.len(), 8);
    assert_eq!(bytes[0], 0x95); // Opcode
    assert_eq!(bytes[1], 0x00); // Registers (dst_reg:4, src_reg:4)
    assert_eq!(bytes[2], 0x00); // Offset low byte
    assert_eq!(bytes[3], 0x00); // Offset high byte
    assert_eq!(bytes[4], 0x00); // Immediate bytes
    assert_eq!(bytes[5], 0x00);
    assert_eq!(bytes[6], 0x00);
    assert_eq!(bytes[7], 0x00);
}

#[test]
fn test_instruction_with_registers() {
    let instr = BpfInstruction::new(0x79, 6, 2, 0, 0);
    let bytes = instr.to_bytes();

    assert_eq!(bytes[0], 0x79); // LDX opcode
    assert_eq!(bytes[1], 0x26); // dst_reg=6 (lower 4 bits), src_reg=2 (upper 4 bits)
}

#[test]
fn test_instruction_with_offset() {
    let instr = BpfInstruction::new(0x79, 6, 2, 8, 0);
    let bytes = instr.to_bytes();

    assert_eq!(bytes[2], 0x08); // Offset low byte
    assert_eq!(bytes[3], 0x00); // Offset high byte
}

#[test]
fn test_instruction_with_immediate() {
    let instr = BpfInstruction::new(0xb7, 10, 0, 0, 512);
    let bytes = instr.to_bytes();

    assert_eq!(bytes[4], 0x00); // 512 = 0x0200, little endian low byte
    assert_eq!(bytes[5], 0x02); // 512 = 0x0200, little endian second byte
    assert_eq!(bytes[6], 0x00);
    assert_eq!(bytes[7], 0x00);
}

#[test]
fn test_instruction_negative_offset() {
    let instr = BpfInstruction::new(0x55, 1, 2, -4, 0);
    let bytes = instr.to_bytes();

    // -4 as 16-bit two's complement = 0xFFFC
    assert_eq!(bytes[2], 0xFC);
    assert_eq!(bytes[3], 0xFF);
}

#[test]
fn test_instruction_large_immediate() {
    let instr = BpfInstruction::new(0xb7, 0, 0, 0, 0x12345678);
    let bytes = instr.to_bytes();

    // Little endian encoding of 0x12345678
    assert_eq!(bytes[4], 0x78);
    assert_eq!(bytes[5], 0x56);
    assert_eq!(bytes[6], 0x34);
    assert_eq!(bytes[7], 0x12);
}

#[test]
fn test_multiple_instruction_sequence() {
    let instructions = [
        BpfInstruction::new(0x79, 6, 2, 0, 0),    // ldx r6, [r2+0]
        BpfInstruction::new(0x79, 7, 3, 0, 0),    // ldx r7, [r3+0]
        BpfInstruction::new(0xb7, 10, 0, 0, 512), // mov r10, 512
        BpfInstruction::new(0x85, 0, 0, 0, 1),    // call 1
        BpfInstruction::new(0xb7, 0, 0, 0, 0),    // mov r0, 0
        BpfInstruction::new(0x95, 0, 0, 0, 0),    // exit
    ];

    assert_eq!(instructions.len(), 6);

    // Verify each instruction type
    assert_eq!(instructions[0].opcode, 0x79); // LDX
    assert_eq!(instructions[1].opcode, 0x79); // LDX
    assert_eq!(instructions[2].opcode, 0xb7); // MOV
    assert_eq!(instructions[3].opcode, 0x85); // CALL
    assert_eq!(instructions[4].opcode, 0xb7); // MOV
    assert_eq!(instructions[5].opcode, 0x95); // EXIT
}
