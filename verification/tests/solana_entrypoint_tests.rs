use pible::{CodeGen, SolanaBpf};

#[test]
fn test_solana_entrypoint_generation() {
    let mut codegen = CodeGen::new();
    let mut solana_bpf = SolanaBpf::new(&mut codegen);

    let result = solana_bpf.generate_entrypoint("main");
    assert!(result.is_ok());

    let instructions = solana_bpf.get_instructions();
    assert!(!instructions.is_empty());

    // Should have account loading, stack setup, function call, and exit
    assert!(instructions.len() >= 4);

    // Last instruction should be exit
    let last_instr = &instructions[instructions.len() - 1];
    assert_eq!(last_instr.opcode, 0x95); // BPF_EXIT
}

#[test]
fn test_solana_account_loading() {
    let mut codegen = CodeGen::new();
    let mut solana_bpf = SolanaBpf::new(&mut codegen);

    solana_bpf
        .generate_entrypoint("process_instruction")
        .unwrap();
    let instructions = solana_bpf.get_instructions();

    // Should contain account loading instructions (LDX)
    assert!(instructions.iter().any(|inst| (inst.opcode & 0xf8) == 0x78));
}

#[test]
fn test_solana_stack_setup() {
    let mut codegen = CodeGen::new();
    let mut solana_bpf = SolanaBpf::new(&mut codegen);

    solana_bpf.generate_entrypoint("main").unwrap();
    let instructions = solana_bpf.get_instructions();

    // Should contain immediate move to register 10 (stack pointer)
    assert!(instructions
        .iter()
        .any(|inst| inst.opcode == 0xb7 && inst.dst_reg == 10));
}

#[test]
fn test_solana_function_call() {
    let mut codegen = CodeGen::new();
    let mut solana_bpf = SolanaBpf::new(&mut codegen);

    solana_bpf
        .generate_entrypoint("process_instruction")
        .unwrap();
    let instructions = solana_bpf.get_instructions();

    // Should contain function call instruction
    assert!(instructions.iter().any(|inst| inst.opcode == 0x85));
}

#[test]
fn test_solana_program_success_return() {
    let mut codegen = CodeGen::new();
    let mut solana_bpf = SolanaBpf::new(&mut codegen);

    solana_bpf.generate_entrypoint("main").unwrap();
    let instructions = solana_bpf.get_instructions();

    // Should set r0 to 0 (success) before exit
    let has_success_return = instructions.windows(2).any(|window| {
        window[0].opcode == 0xb7
            && window[0].dst_reg == 0
            && window[0].immediate == 0
            && window[1].opcode == 0x95
    });
    assert!(has_success_return);
}

#[test]
fn test_multiple_entrypoint_generations() {
    let mut codegen = CodeGen::new();
    let mut solana_bpf = SolanaBpf::new(&mut codegen);

    solana_bpf.generate_entrypoint("entrypoint1").unwrap();
    let count1 = solana_bpf.get_instructions().len();

    solana_bpf.generate_entrypoint("entrypoint2").unwrap();
    let count2 = solana_bpf.get_instructions().len();

    // Second generation should add more instructions
    assert!(count2 > count1);
}

#[test]
fn test_entrypoint_register_usage() {
    let mut codegen = CodeGen::new();
    let mut solana_bpf = SolanaBpf::new(&mut codegen);

    solana_bpf.generate_entrypoint("main").unwrap();
    let instructions = solana_bpf.get_instructions();

    // Should use specific registers for Solana conventions
    // R1 = program_id, R2 = accounts, R3 = instruction_data
    assert!(instructions.iter().any(|inst| inst.src_reg == 2)); // accounts
    assert!(instructions.iter().any(|inst| inst.src_reg == 3)); // instruction_data
    assert!(instructions.iter().any(|inst| inst.dst_reg == 6)); // accounts target
    assert!(instructions.iter().any(|inst| inst.dst_reg == 7)); // instruction_data target
}

#[test]
fn test_entrypoint_with_empty_name() {
    let mut codegen = CodeGen::new();
    let mut solana_bpf = SolanaBpf::new(&mut codegen);

    let result = solana_bpf.generate_entrypoint("");
    assert!(result.is_ok());

    let instructions = solana_bpf.get_instructions();
    assert!(!instructions.is_empty());
}

#[test]
fn test_entrypoint_with_special_characters() {
    let mut codegen = CodeGen::new();
    let mut solana_bpf = SolanaBpf::new(&mut codegen);

    let result = solana_bpf.generate_entrypoint("main_function_123");
    assert!(result.is_ok());
}

#[test]
fn test_entrypoint_instruction_ordering() {
    let mut codegen = CodeGen::new();
    let mut solana_bpf = SolanaBpf::new(&mut codegen);

    solana_bpf.generate_entrypoint("main").unwrap();
    let instructions = solana_bpf.get_instructions();

    // Should have proper ordering: loads, moves, calls, exit
    let mut has_load = false;
    let mut has_move = false;
    let mut has_call = false;

    for inst in instructions {
        if (inst.opcode & 0xf8) == 0x78 {
            has_load = true;
        }
        if inst.opcode == 0xb7 {
            has_move = true;
        }
        if inst.opcode == 0x85 {
            has_call = true;
        }
    }

    assert!(has_load && has_move && has_call);
}
