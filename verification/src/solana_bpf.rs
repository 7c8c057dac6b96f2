//! The Solana adapter: the entry-point scaffolding that a Solana program
//! needs, and the structural validation that its bytecode must pass.
//!
//! [`is_valid_program`] defines which instruction sequences are accepted;
//! [`SolanaBpf::validate_solana_program`] decides it. The check is stricter
//! than the generator's own, which looks at instruction classes only: it
//! asks for an exit, for registers that exist, for jumps that lead into the
//! program, and for a length within bounds.

use crate::codegen::{all_generated, is_generated, CodeGen};
use crate::instruction::{
    class_of, has_valid_class, BpfInstruction, BPF_JMP, MAX_REGISTER, OP_CALL, OP_EXIT, OP_LDX_DW,
    OP_MOV_IMM,
};
use vstd::prelude::*;

verus! {

/// The longest program that is accepted, in instructions.
pub const MAX_PROGRAM_LENGTH: usize = 16384;

/// Where the stack pointer, `R10`, starts.
pub const STACK_SIZE: i32 = 512;

/// The function index that the entry point calls: a placeholder, the same
/// for every name.
pub const ENTRY_FUNCTION_INDEX: i32 = 1;

/// Why the adapter refused something.
#[derive(Debug)]
pub enum SolanaError {
    /// The interface description could not be generated.
    IdlGenerationFailed(String),
    /// The program is not a valid Solana program.
    InvalidProgram(String),
}

/// An instruction that counts as the program's exit: its opcode is that of
/// `exit`, bit 3 aside.
pub open spec fn is_exit(ins: BpfInstruction) -> bool {
    ins.opcode & 0xf7 == OP_EXIT
}

/// An instruction whose offset leads somewhere: one of the jump class
/// that is neither a call nor an exit, which belong to that class and use
/// no offset.
pub open spec fn is_jump(ins: BpfInstruction) -> bool {
    class_of(ins.opcode) == BPF_JMP && ins.opcode != OP_CALL && !is_exit(ins)
}

/// Where the jump at `index` leads: `offset` instructions past the
/// instruction after it.
pub open spec fn jump_target(index: int, ins: BpfInstruction) -> int {
    index + ins.offset + 1
}

/// The instruction at `index` is acceptable: its class is valid, both its
/// registers exist, and, if it is a jump, it leads into the program.
pub open spec fn valid_at(program: Seq<BpfInstruction>, index: int) -> bool {
    let ins = program[index];
    &&& has_valid_class(ins.opcode)
    &&& ins.dst_reg <= MAX_REGISTER
    &&& ins.src_reg <= MAX_REGISTER
    &&& is_jump(ins) ==> 0 <= jump_target(index, ins) < program.len()
}

/// The program holds an exit.
pub open spec fn has_exit(program: Seq<BpfInstruction>) -> bool {
    exists|i: int| 0 <= i < program.len() && is_exit(#[trigger] program[i])
}

/// The program is accepted: it is not empty and no longer than
/// [`MAX_PROGRAM_LENGTH`], it holds an exit, and each of its instructions
/// is acceptable.
pub open spec fn is_valid_program(program: Seq<BpfInstruction>) -> bool {
    &&& 0 < program.len() <= MAX_PROGRAM_LENGTH
    &&& has_exit(program)
    &&& forall|i: int| 0 <= i < program.len() ==> #[trigger] valid_at(program, i)
}

/// The entry-point scaffolding: the accounts pointer, `R2`, is loaded into
/// `R6` and the instruction-data pointer, `R3`, into `R7`; the stack
/// pointer, `R10`, is set; the program's function is called; zero is
/// returned.
pub open spec fn entrypoint() -> Seq<BpfInstruction> {
    seq![
        BpfInstruction { opcode: OP_LDX_DW, dst_reg: 6, src_reg: 2, offset: 0, immediate: 0 },
        BpfInstruction { opcode: OP_LDX_DW, dst_reg: 7, src_reg: 3, offset: 0, immediate: 0 },
        BpfInstruction {
            opcode: OP_MOV_IMM,
            dst_reg: 10,
            src_reg: 0,
            offset: 0,
            immediate: STACK_SIZE,
        },
        BpfInstruction {
            opcode: OP_CALL,
            dst_reg: 0,
            src_reg: 0,
            offset: 0,
            immediate: ENTRY_FUNCTION_INDEX,
        },
        BpfInstruction { opcode: OP_MOV_IMM, dst_reg: 0, src_reg: 0, offset: 0, immediate: 0 },
        BpfInstruction { opcode: OP_EXIT, dst_reg: 0, src_reg: 0, offset: 0, immediate: 0 },
    ]
}

/// The adapter. It keeps the scaffolding that it has generated so far.
pub struct SolanaBpf {
    codegen: Vec<BpfInstruction>,
}

impl View for SolanaBpf {
    type V = Seq<BpfInstruction>;

    closed spec fn view(&self) -> Seq<BpfInstruction> {
        self.codegen@
    }
}

impl SolanaBpf {
    /// Creates an adapter that holds no instruction. The generator is left
    /// as it is.
    pub fn new(_codegen: &mut CodeGen) -> (adapter: Self)
        ensures
            adapter@ == Seq::<BpfInstruction>::empty(),
            *final(_codegen) == *old(_codegen),
    {
        SolanaBpf { codegen: Vec::new() }
    }

    /// Appends the entry-point scaffolding to what the adapter holds; a
    /// second call appends it a second time. The name plays no part.
    pub fn generate_entrypoint(&mut self, name: &str) -> (result: Result<(), SolanaError>)
        ensures
            result is Ok,
            final(self)@ == old(self)@ + entrypoint(),
    {
        self.emit_load_reg(6, 2, 0);
        self.emit_load_reg(7, 3, 0);
        self.emit_move_immediate(10, STACK_SIZE);
        match self.emit_call_function(name) {
            Ok(()) => {},
            Err(e) => {
                return Err(e);
            },
        }
        self.emit_move_immediate(0, 0);
        self.emit_exit();
        assert(self@ =~= old(self)@ + entrypoint());
        Ok(())
    }

    /// Decides whether a program is accepted: see [`is_valid_program`]. The
    /// answer depends on the sequence alone, so that asking twice gives the
    /// same answer.
    pub fn validate_solana_program(&self, instructions: &[BpfInstruction]) -> (valid: bool)
        ensures
            valid == is_valid_program(instructions@),
    {
        let len = instructions.len();
        if len == 0 || len > MAX_PROGRAM_LENGTH {
            return false;
        }
        if !Self::holds_exit(instructions) {
            return false;
        }
        let mut i: usize = 0;
        while i < len
            invariant
                len == instructions@.len(),
                0 < len <= MAX_PROGRAM_LENGTH,
                i <= len,
                forall|j: int| 0 <= j < i ==> #[trigger] valid_at(instructions@, j),
            decreases len - i,
        {
            let instruction = instructions[i];
            if !instruction.has_valid_class() {
                assert(!valid_at(instructions@, i as int));
                return false;
            }
            if instruction.dst_reg > MAX_REGISTER || instruction.src_reg > MAX_REGISTER {
                assert(!valid_at(instructions@, i as int));
                return false;
            }
            if instruction.class() == BPF_JMP && instruction.opcode != OP_CALL
                && instruction.opcode & 0xf7 != OP_EXIT {
                let target = i as i32 + instruction.offset as i32 + 1;
                if target < 0 || target >= len as i32 {
                    assert(!valid_at(instructions@, i as int));
                    return false;
                }
            }
            i += 1;
        }
        true
    }

    /// Tells whether a program holds an exit.
    fn holds_exit(instructions: &[BpfInstruction]) -> (found: bool)
        ensures
            found == has_exit(instructions@),
    {
        let mut i: usize = 0;
        while i < instructions.len()
            invariant
                i <= instructions@.len(),
                forall|j: int| 0 <= j < i ==> !is_exit(#[trigger] instructions@[j]),
            decreases instructions.len() - i,
        {
            if instructions[i].opcode & 0xf7 == OP_EXIT {
                return true;
            }
            i += 1;
        }
        false
    }

    /// Appends a 64-bit load of `[src_reg + offset]` into `dst_reg`.
    fn emit_load_reg(&mut self, dst_reg: u8, src_reg: u8, offset: i16)
        ensures
            final(self)@ == old(self)@.push(
                BpfInstruction { opcode: OP_LDX_DW, dst_reg, src_reg, offset, immediate: 0 },
            ),
    {
        let instruction = BpfInstruction::new(OP_LDX_DW, dst_reg, src_reg, offset, 0);
        self.codegen.push(instruction);
    }

    /// Appends a move of `immediate` into `dst_reg`.
    fn emit_move_immediate(&mut self, dst_reg: u8, immediate: i32)
        ensures
            final(self)@ == old(self)@.push(
                BpfInstruction { opcode: OP_MOV_IMM, dst_reg, src_reg: 0, offset: 0, immediate },
            ),
    {
        let instruction = BpfInstruction::new(OP_MOV_IMM, dst_reg, 0, 0, immediate);
        self.codegen.push(instruction);
    }

    /// Appends the call of the program's function. No function is looked
    /// up: the index is [`ENTRY_FUNCTION_INDEX`] for every name.
    fn emit_call_function(&mut self, _name: &str) -> (result: Result<(), SolanaError>)
        ensures
            result is Ok,
            final(self)@ == old(self)@.push(
                BpfInstruction {
                    opcode: OP_CALL,
                    dst_reg: 0,
                    src_reg: 0,
                    offset: 0,
                    immediate: ENTRY_FUNCTION_INDEX,
                },
            ),
    {
        let instruction = BpfInstruction::new(OP_CALL, 0, 0, 0, ENTRY_FUNCTION_INDEX);
        self.codegen.push(instruction);
        Ok(())
    }

    /// Appends `exit`.
    fn emit_exit(&mut self)
        ensures
            final(self)@ == old(self)@.push(
                BpfInstruction { opcode: OP_EXIT, dst_reg: 0, src_reg: 0, offset: 0, immediate: 0 },
            ),
    {
        let instruction = BpfInstruction::new(OP_EXIT, 0, 0, 0, 0);
        self.codegen.push(instruction);
    }

    /// The scaffolding that the adapter holds.
    pub fn get_instructions(&self) -> (instructions: &[BpfInstruction])
        ensures
            instructions@ == self@,
    {
        self.codegen.as_slice()
    }
}

/// The program of `count` moves of zero into `R0` and one `exit` after
/// them.
pub open spec fn padded_program(count: nat) -> Seq<BpfInstruction> {
    Seq::new(
        count,
        |i: int|
            BpfInstruction { opcode: OP_MOV_IMM, dst_reg: 0, src_reg: 0, offset: 0, immediate: 0 },
    ).push(BpfInstruction { opcode: OP_EXIT, dst_reg: 0, src_reg: 0, offset: 0, immediate: 0 })
}

/// The length limit counts every instruction, the exit too. A program that
/// is longer than [`MAX_PROGRAM_LENGTH`] is refused whatever it holds, and
/// a program of moves and one exit is accepted exactly when it has no more
/// than [`MAX_PROGRAM_LENGTH`] instructions in all.
pub proof fn lemma_length_limit(program: Seq<BpfInstruction>, count: nat)
    ensures
        program.len() > MAX_PROGRAM_LENGTH ==> !is_valid_program(program),
        is_valid_program(padded_program(count)) <==> count + 1 <= MAX_PROGRAM_LENGTH,
{
    let padded = padded_program(count);
    assert(0xb7u8 & 0x07 == 0x07) by (bit_vector);
    assert(0x95u8 & 0x07 == 0x05) by (bit_vector);
    assert(0x95u8 & 0xf7 == 0x95) by (bit_vector);
    assert(is_exit(padded[count as int]));
    assert forall|i: int| 0 <= i < padded.len() implies #[trigger] valid_at(padded, i) by {
        if i < count {
            assert(padded[i].opcode == OP_MOV_IMM);
        } else {
            assert(padded[i].opcode == OP_EXIT);
        }
    }
}

/// Every jump that the interpreter knows is checked as a jump, the
/// unconditional one too; a call and an exit are not, and neither is
/// anything outside the jump class, such as a load.
pub proof fn lemma_which_are_jumps(ins: BpfInstruction)
    ensures
        ins.opcode == 0x05 || ins.opcode == 0x15 || ins.opcode == 0x1d || ins.opcode == 0x25
            || ins.opcode == 0x2d || ins.opcode == 0xa5 || ins.opcode == 0xad ==> is_jump(ins),
        ins.opcode == OP_CALL || ins.opcode == OP_EXIT ==> !is_jump(ins),
        class_of(ins.opcode) != BPF_JMP ==> !is_jump(ins),
{
    let opcode = ins.opcode;
    assert(opcode == 0x05 || opcode == 0x15 || opcode == 0x1d || opcode == 0x25 || opcode == 0x2d
        || opcode == 0xa5 || opcode == 0xad ==> opcode & 0x07 == 0x05 && opcode & 0xf7 != 0x95)
        by (bit_vector);
    assert(opcode == 0x95 ==> opcode & 0xf7 == 0x95) by (bit_vector);
}

/// A valid program holds no jump that leads out of it: a jump whose target
/// is negative, or the program's length or more, makes the program
/// invalid.
pub proof fn lemma_jump_must_lead_inside(program: Seq<BpfInstruction>, index: int)
    requires
        0 <= index < program.len(),
        is_jump(program[index]),
    ensures
        is_valid_program(program) ==> 0 <= jump_target(index, program[index]) < program.len(),
        jump_target(index, program[index]) < 0 || jump_target(index, program[index])
            >= program.len() ==> !is_valid_program(program),
{
    if is_valid_program(program) {
        assert(valid_at(program, index));
    }
}

/// A jump may lead to any instruction of the program, the last one too: in
/// a program that is acceptable but for the jump at `index`, whose class
/// and registers are in order, the jump is accepted exactly when its target
/// lies between zero and the last index.
pub proof fn lemma_jump_inside_passes(program: Seq<BpfInstruction>, index: int)
    requires
        0 <= index < program.len() <= MAX_PROGRAM_LENGTH,
        has_exit(program),
        forall|i: int| 0 <= i < program.len() && i != index ==> #[trigger] valid_at(program, i),
        has_valid_class(program[index].opcode),
        program[index].dst_reg <= MAX_REGISTER,
        program[index].src_reg <= MAX_REGISTER,
        is_jump(program[index]),
    ensures
        is_valid_program(program) <==> 0 <= jump_target(index, program[index]) <= program.len()
            - 1,
{
    if 0 <= jump_target(index, program[index]) <= program.len() - 1 {
        assert forall|i: int| 0 <= i < program.len() implies #[trigger] valid_at(program, i) by {
            if i == index {
            }
        }
    } else {
        if is_valid_program(program) {
            assert(valid_at(program, index));
        }
    }
}

/// A program that the generator has made is accepted exactly when it is no
/// longer than [`MAX_PROGRAM_LENGTH`]: it ends with an exit, it holds no
/// jump, and its registers and classes are in order.
pub proof fn lemma_generated_program_valid(program: Seq<BpfInstruction>)
    requires
        all_generated(program),
        program.len() > 0,
        program.last().opcode == OP_EXIT,
    ensures
        is_valid_program(program) <==> program.len() <= MAX_PROGRAM_LENGTH,
{
    assert(0xb7u8 & 0x07 == 0x07) by (bit_vector);
    assert(0x85u8 & 0x07 == 0x05) by (bit_vector);
    assert(0x95u8 & 0x07 == 0x05) by (bit_vector);
    assert(0x95u8 & 0xf7 == 0x95) by (bit_vector);
    assert(is_exit(program[program.len() - 1]));
    assert forall|i: int| 0 <= i < program.len() implies #[trigger] valid_at(program, i) by {
        assert(is_generated(program[i]));
    }
}

} // verus!
