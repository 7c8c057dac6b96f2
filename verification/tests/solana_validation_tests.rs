use pible::{BpfInstruction, CodeGen, SolanaBpf};

#[test]
fn test_validate_empty_program() {
    let mut codegen = CodeGen::new();
    let solana_bpf = SolanaBpf::new(&mut codegen);

    let empty_instructions = vec![];
    assert!(!solana_bpf.validate_solana_program(&empty_instructions));
}

#[test]
fn test_validate_program_without_exit() {
    let mut codegen = CodeGen::new();
    let solana_bpf = SolanaBpf::new(&mut codegen);

    let instructions = vec![
        BpfInstruction::new(0xb7, 0, 0, 0, 42), // mov r0, 42
    ];
    assert!(!solana_bpf.validate_solana_program(&instructions));
}

#[test]
fn test_validate_program_with_exit() {
    let mut codegen = CodeGen::new();
    let solana_bpf = SolanaBpf::new(&mut codegen);

    let instructions = vec![
        BpfInstruction::new(0xb7, 0, 0, 0, 42), // mov r0, 42
        BpfInstruction::new(0x95, 0, 0, 0, 0),  // exit
    ];
    assert!(solana_bpf.validate_solana_program(&instructions));
}

#[test]
fn test_validate_invalid_register() {
    let mut codegen = CodeGen::new();
    let solana_bpf = SolanaBpf::new(&mut codegen);

    let instructions = vec![
        BpfInstruction::new(0xb7, 15, 0, 0, 42), // mov r15, 42 (invalid register)
        BpfInstruction::new(0x95, 0, 0, 0, 0),   // exit
    ];
    assert!(!solana_bpf.validate_solana_program(&instructions));
}

#[test]
fn test_validate_invalid_src_register() {
    let mut codegen = CodeGen::new();
    let solana_bpf = SolanaBpf::new(&mut codegen);

    let instructions = vec![
        BpfInstruction::new(0x79, 1, 12, 0, 0), // ldx r1, [r12+0] (invalid src register)
        BpfInstruction::new(0x95, 0, 0, 0, 0),  // exit
    ];
    assert!(!solana_bpf.validate_solana_program(&instructions));
}

#[test]
fn test_validate_valid_registers() {
    let mut codegen = CodeGen::new();
    let solana_bpf = SolanaBpf::new(&mut codegen);

    let instructions = vec![
        BpfInstruction::new(0xb7, 10, 0, 0, 512), // mov r10, 512 (valid)
        BpfInstruction::new(0x79, 6, 2, 0, 0),    // ldx r6, [r2+0] (valid)
        BpfInstruction::new(0x95, 0, 0, 0, 0),    // exit
    ];
    assert!(solana_bpf.validate_solana_program(&instructions));
}

#[test]
fn test_validate_jump_forward() {
    let mut codegen = CodeGen::new();
    let solana_bpf = SolanaBpf::new(&mut codegen);

    let instructions = vec![
        BpfInstruction::new(0x55, 1, 2, 1, 0), // jeq r1, r2, +1
        BpfInstruction::new(0xb7, 0, 0, 0, 1), // mov r0, 1
        BpfInstruction::new(0x95, 0, 0, 0, 0), // exit
    ];
    assert!(solana_bpf.validate_solana_program(&instructions));
}

#[test]
fn test_validate_jump_backward() {
    let mut codegen = CodeGen::new();
    let solana_bpf = SolanaBpf::new(&mut codegen);

    let instructions = vec![
        BpfInstruction::new(0xb7, 0, 0, 0, 1),  // mov r0, 1
        BpfInstruction::new(0x55, 1, 2, -1, 0), // jeq r1, r2, -1
        BpfInstruction::new(0x95, 0, 0, 0, 0),  // exit
    ];
    assert!(solana_bpf.validate_solana_program(&instructions));
}

#[test]
fn test_validate_invalid_jump_target() {
    let mut codegen = CodeGen::new();
    let solana_bpf = SolanaBpf::new(&mut codegen);

    let instructions = vec![
        BpfInstruction::new(0x55, 1, 2, 10, 0), // jeq r1, r2, +10 (out of bounds)
        BpfInstruction::new(0x95, 0, 0, 0, 0),  // exit
    ];
    assert!(!solana_bpf.validate_solana_program(&instructions));
}

#[test]
fn test_validate_invalid_negative_jump() {
    let mut codegen = CodeGen::new();
    let solana_bpf = SolanaBpf::new(&mut codegen);

    let instructions = vec![
        BpfInstruction::new(0x55, 1, 2, -10, 0), // jeq r1, r2, -10 (out of bounds)
        BpfInstruction::new(0x95, 0, 0, 0, 0),   // exit
    ];
    assert!(!solana_bpf.validate_solana_program(&instructions));
}

#[test]
fn test_validate_program_size_limit() {
    let mut codegen = CodeGen::new();
    let solana_bpf = SolanaBpf::new(&mut codegen);

    // Create a program that's too large (> 16384 instructions)
    let mut large_instructions = Vec::new();
    for _ in 0..16385 {
        large_instructions.push(BpfInstruction::new(0xb7, 0, 0, 0, 0));
    }
    large_instructions.push(BpfInstruction::new(0x95, 0, 0, 0, 0)); // exit

    assert!(!solana_bpf.validate_solana_program(&large_instructions));
}

#[test]
fn test_validate_maximum_valid_size() {
    let mut codegen = CodeGen::new();
    let solana_bpf = SolanaBpf::new(&mut codegen);

    // Create a program at the size limit (16384 instructions)
    let mut max_instructions = Vec::new();
    for _ in 0..16383 {
        max_instructions.push(BpfInstruction::new(0xb7, 0, 0, 0, 0));
    }
    max_instructions.push(BpfInstruction::new(0x95, 0, 0, 0, 0)); // exit

    assert!(solana_bpf.validate_solana_program(&max_instructions));
}

#[test]
fn test_validate_instruction_classes() {
    let mut codegen = CodeGen::new();
    let solana_bpf = SolanaBpf::new(&mut codegen);

    // Test all valid instruction classes
    let valid_classes = vec![
        0x00, // LD
        0x01, // LDX
        0x02, // ST
        0x03, // STX
        0x04, // ALU
        0x05, // JMP
        0x07, // ALU64
    ];

    for class in valid_classes {
        let instructions = vec![
            BpfInstruction::new(class, 0, 0, 0, 0),
            BpfInstruction::new(0x95, 0, 0, 0, 0), // exit
        ];
        assert!(solana_bpf.validate_solana_program(&instructions));
    }
}

#[test]
fn test_validate_invalid_instruction_class() {
    let mut codegen = CodeGen::new();
    let solana_bpf = SolanaBpf::new(&mut codegen);

    let instructions = vec![
        BpfInstruction::new(0x06, 0, 0, 0, 0), // Invalid class
        BpfInstruction::new(0x95, 0, 0, 0, 0), // exit
    ];
    assert!(!solana_bpf.validate_solana_program(&instructions));
}
