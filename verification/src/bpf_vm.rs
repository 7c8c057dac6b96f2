//! An interpreter for instruction sequences, for testing and emulation.
//!
//! The machine has eleven signed 64-bit registers, a byte-addressed memory
//! and a program counter. [`VmState`] is its mathematical model, and three
//! specification functions define what it does:
//!
//! - [`apply`]: what one operation of the catalog does to registers, memory
//!   and output;
//! - [`step`]: one instruction executed on its own, where a jump that is
//!   taken sets the program counter to the instruction's offset;
//! - [`run`]: a whole program, where a jump that is taken moves the program
//!   counter relative to the instruction after the jump, opcodes outside the
//!   catalog are skipped, and a fuse ends the run after [`STEP_LIMIT`] steps.
//!
//! Both ways of executing share [`apply`] and [`jump_taken`]. They differ
//! in where a jump leads, in what an opcode outside the catalog does, and
//! in the unconditional jump, which only a run knows.
//!
//! Arithmetic wraps in two's complement. A load or store that does not lie
//! wholly inside the memory never fails: a store does nothing, and a load
//! gives a fixed value that depends on its width.

use crate::instruction::{
    lemma_bytes_of_value, operation_of, BpfInstruction, Operation, OP_EXIT, OP_JA,
};
use vstd::prelude::*;
use vstd::slice::slice_to_vec;
use vstd::string::StringExecFns;

verus! {

/// Number of registers, `R0` to `R10`.
pub const REGISTER_COUNT: usize = 11;

/// Size of a fresh machine's memory, in bytes.
pub const MEMORY_SIZE: usize = 4096;

/// The fuse: a run ends once it has taken more steps than this.
pub const STEP_LIMIT: u64 = 10000;

/// Id of the one helper that does something: it writes a line of output.
pub const HELPER_TRACE_PRINTK: i32 = 6;

/// What a four-byte load gives when it does not lie inside the memory.
pub const OUT_OF_BOUNDS_WORD: i64 = 42;

/// What a two-byte load gives when it does not lie inside the memory.
pub const OUT_OF_BOUNDS_HALF: i64 = 0x1234;

/// What a one-byte load gives when it does not lie inside the memory.
pub const OUT_OF_BOUNDS_BYTE: i64 = 0x42;

/// Why the interpreter stopped with an error.
///
/// Only [`VmError::InvalidInstruction`] is raised today; the other kinds are
/// kept for operations that the catalog does not have yet.
#[derive(Debug)]
pub enum VmError {
    /// An opcode outside the catalog was executed on its own.
    InvalidInstruction(String),
    /// The stack was exhausted.
    StackOverflow,
    /// A division by zero was attempted.
    DivisionByZero,
    /// The program left with this code.
    ProgramExit(i32),
}

/// How a run ended.
#[derive(Debug)]
pub struct VmResult {
    /// The low 32 bits of `R0` at the end of the run.
    pub exit_code: i32,
    /// The number of steps that the machine has taken.
    pub compute_units: u64,
}

/// The state of the machine, as a mathematical value.
pub ghost struct VmState {
    /// The registers; a well-formed state has [`REGISTER_COUNT`] of them.
    pub regs: Seq<i64>,
    /// Index of the next instruction.
    pub pc: int,
    /// Number of steps taken so far.
    pub units: nat,
    /// The memory.
    pub memory: Seq<u8>,
    /// The lines written so far, oldest first.
    pub output: Seq<Seq<char>>,
}

impl VmState {
    /// The register `r`.
    pub open spec fn reg(self, r: u8) -> i64 {
        self.regs[r as int]
    }

    /// The state with `value` in register `r`.
    pub open spec fn with_reg(self, r: u8, value: i64) -> VmState {
        VmState { regs: self.regs.update(r as int, value), ..self }
    }

    /// The state with `memory` as its memory.
    pub open spec fn with_memory(self, memory: Seq<u8>) -> VmState {
        VmState { memory, ..self }
    }

    /// The state with the program counter at `pc`.
    pub open spec fn with_pc(self, pc: int) -> VmState {
        VmState { pc, ..self }
    }
}

/// The state of a fresh machine: everything zero, nothing written.
pub open spec fn initial_state() -> VmState {
    VmState {
        regs: Seq::new(REGISTER_COUNT as nat, |i: int| 0i64),
        pc: 0,
        units: 0,
        memory: Seq::new(MEMORY_SIZE as nat, |i: int| 0u8),
        output: Seq::empty(),
    }
}

/// A register index that the machine has.
pub open spec fn is_register(r: u8) -> bool {
    r < REGISTER_COUNT
}

/// The line that the print helper writes.
pub open spec fn trace_line() -> Seq<char> {
    "VM: trace_printk called"@
}

/// The address that a load or store through `base` touches first.
pub open spec fn effective_address(base: i64, offset: i16) -> usize {
    base.wrapping_add(offset as i64) as usize
}

/// The little-endian value of the four bytes at `addr`.
pub open spec fn word_at(memory: Seq<u8>, addr: int) -> i64 {
    (memory[addr] + 0x100 * memory[addr + 1] + 0x1_0000 * memory[addr + 2] + 0x100_0000
        * memory[addr + 3]) as i64
}

/// The little-endian value of the two bytes at `addr`.
pub open spec fn half_at(memory: Seq<u8>, addr: int) -> i64 {
    (memory[addr] + 0x100 * memory[addr + 1]) as i64
}

/// The memory with `value` stored at `addr`, as four little-endian bytes.
pub open spec fn store_word(memory: Seq<u8>, addr: int, value: u32) -> Seq<u8> {
    memory.update(addr, (value % 256) as u8).update(addr + 1, (value / 0x100 % 256) as u8).update(
        addr + 2,
        (value / 0x1_0000 % 256) as u8,
    ).update(addr + 3, (value / 0x100_0000) as u8)
}

/// The memory with `value` stored at `addr`, as two little-endian bytes.
pub open spec fn store_half(memory: Seq<u8>, addr: int, value: u16) -> Seq<u8> {
    memory.update(addr, (value % 256) as u8).update(addr + 1, (value / 0x100) as u8)
}

/// A memory made `len` bytes long: cut off after `len` bytes, or filled up
/// with zeros.
pub open spec fn resized(memory: Seq<u8>, len: int) -> Seq<u8> {
    Seq::new(
        len as nat,
        |i: int|
            if i < memory.len() {
                memory[i]
            } else {
                0u8
            },
    )
}

/// What a helper call does: helper [`HELPER_TRACE_PRINTK`] writes one line,
/// every other id is accepted and does nothing.
pub open spec fn dispatch_helper(s: VmState, helper: i32) -> VmState {
    if helper == HELPER_TRACE_PRINTK {
        VmState { output: s.output.push(trace_line()), ..s }
    } else {
        s
    }
}

/// What a load of `width` bytes through register `src` leaves in `dst`.
pub open spec fn loaded_value(s: VmState, ins: BpfInstruction, width: int) -> i64 {
    let addr = effective_address(s.reg(ins.src_reg), ins.offset);
    if addr + width <= s.memory.len() {
        if width == 4 {
            word_at(s.memory, addr as int)
        } else if width == 2 {
            half_at(s.memory, addr as int)
        } else {
            s.memory[addr as int] as i64
        }
    } else {
        if width == 4 {
            OUT_OF_BOUNDS_WORD
        } else if width == 2 {
            OUT_OF_BOUNDS_HALF
        } else {
            OUT_OF_BOUNDS_BYTE
        }
    }
}

/// What one operation does to registers, memory and output. The program
/// counter and the step count stay as they are, and so does everything when
/// the instruction names a register that the machine does not have. A
/// conditional jump changes nothing here: see [`jump_taken`].
pub open spec fn apply(op: Operation, s: VmState, ins: BpfInstruction) -> VmState {
    let dst = ins.dst_reg;
    let src = ins.src_reg;
    let has_dst = is_register(dst);
    let has_both = is_register(dst) && is_register(src);
    match op {
        Operation::Exit => s,
        Operation::Call => dispatch_helper(s, ins.immediate),
        Operation::MoveImm => if has_dst {
            s.with_reg(dst, ins.immediate as i64)
        } else {
            s
        },
        Operation::LoadDword => if has_dst {
            s.with_reg(dst, (0x1000 + ins.offset) as i64)
        } else {
            s
        },
        Operation::AddImm => if has_dst {
            s.with_reg(dst, s.reg(dst).wrapping_add(ins.immediate as i64))
        } else {
            s
        },
        Operation::AddReg => if has_both {
            s.with_reg(dst, s.reg(dst).wrapping_add(s.reg(src)))
        } else {
            s
        },
        Operation::SubReg => if has_both {
            s.with_reg(dst, s.reg(dst).wrapping_sub(s.reg(src)))
        } else {
            s
        },
        Operation::MulReg => if has_both {
            s.with_reg(dst, s.reg(dst).wrapping_mul(s.reg(src)))
        } else {
            s
        },
        Operation::MoveReg => if has_both {
            s.with_reg(dst, s.reg(src))
        } else {
            s
        },
        Operation::AndReg => if has_both {
            s.with_reg(dst, s.reg(dst) & s.reg(src))
        } else {
            s
        },
        Operation::OrReg => if has_both {
            s.with_reg(dst, s.reg(dst) | s.reg(src))
        } else {
            s
        },
        Operation::XorReg => if has_both {
            s.with_reg(dst, s.reg(dst) ^ s.reg(src))
        } else {
            s
        },
        Operation::LshReg => if has_both {
            s.with_reg(dst, s.reg(dst).wrapping_shl(s.reg(src) as u32))
        } else {
            s
        },
        Operation::RshReg => if has_both {
            s.with_reg(dst, (s.reg(dst) as u64).wrapping_shr(s.reg(src) as u32) as i64)
        } else {
            s
        },
        Operation::ArshReg => if has_both {
            s.with_reg(dst, s.reg(dst).wrapping_shr(s.reg(src) as u32))
        } else {
            s
        },
        Operation::ArshImm => if has_dst {
            s.with_reg(
                dst,
                (((s.reg(dst) as u32) as i32).wrapping_shr(ins.immediate as u32) as u32) as i64,
            )
        } else {
            s
        },
        Operation::JeqReg | Operation::JgtReg | Operation::JltReg | Operation::JeqImm
        | Operation::JgtImm | Operation::JltImm => s,
        Operation::LoadWord => if has_both {
            s.with_reg(dst, loaded_value(s, ins, 4))
        } else {
            s
        },
        Operation::LoadHalf => if has_both {
            s.with_reg(dst, loaded_value(s, ins, 2))
        } else {
            s
        },
        Operation::LoadByte => if has_both {
            s.with_reg(dst, loaded_value(s, ins, 1))
        } else {
            s
        },
        Operation::StoreWord => {
            let addr = effective_address(s.reg(dst), ins.offset);
            if has_both && addr + 4 <= s.memory.len() {
                s.with_memory(store_word(s.memory, addr as int, s.reg(src) as u32))
            } else {
                s
            }
        },
        Operation::StoreHalf => {
            let addr = effective_address(s.reg(dst), ins.offset);
            if has_both && addr + 2 <= s.memory.len() {
                s.with_memory(store_half(s.memory, addr as int, s.reg(src) as u16))
            } else {
                s
            }
        },
        Operation::StoreByte => {
            let addr = effective_address(s.reg(dst), ins.offset);
            if has_both && addr < s.memory.len() {
                s.with_memory(s.memory.update(addr as int, s.reg(src) as u8))
            } else {
                s
            }
        },
        Operation::StoreImmWord => {
            let addr = effective_address(s.reg(dst), ins.offset);
            if has_dst && addr + 4 <= s.memory.len() {
                s.with_memory(store_word(s.memory, addr as int, ins.immediate as u32))
            } else {
                s
            }
        },
    }
}

/// Whether `op` is a conditional jump whose condition holds in `s`. A jump
/// that names a register that the machine does not have is never taken.
pub open spec fn jump_taken(op: Operation, s: VmState, ins: BpfInstruction) -> bool {
    let dst = ins.dst_reg;
    let src = ins.src_reg;
    let has_both = is_register(dst) && is_register(src);
    match op {
        Operation::JeqReg => has_both && s.reg(dst) == s.reg(src),
        Operation::JgtReg => has_both && s.reg(dst) > s.reg(src),
        Operation::JltReg => has_both && s.reg(dst) < s.reg(src),
        Operation::JeqImm => is_register(dst) && s.reg(dst) == ins.immediate as i64,
        Operation::JgtImm => is_register(dst) && s.reg(dst) > ins.immediate as i64,
        Operation::JltImm => is_register(dst) && s.reg(dst) < ins.immediate as i64,
        _ => false,
    }
}

/// Where a jump leads when its instruction is executed on its own: to the
/// offset itself, read as an instruction index.
pub open spec fn absolute_target(offset: i16) -> usize {
    offset as usize
}

/// Where a jump at index `pc` leads in a whole-program run: `offset`
/// instructions past the instruction after the jump, computed in 32 bits.
pub open spec fn relative_target(pc: usize, offset: i16) -> usize {
    (pc as i32).wrapping_add(offset as i32).wrapping_add(1) as usize
}

/// The state after `ins` is executed on its own, or `None` if the catalog
/// does not have its opcode. `exit` does nothing here, and the step count
/// stays as it is.
pub open spec fn step(s: VmState, ins: BpfInstruction) -> Option<VmState> {
    match operation_of(ins.opcode) {
        None => None,
        Some(op) => Some(
            if jump_taken(op, s, ins) {
                s.with_pc(absolute_target(ins.offset) as int)
            } else {
                apply(op, s, ins)
            },
        ),
    }
}

/// The state after one instruction of a run that is not `exit`, the step
/// already counted.
pub open spec fn run_instruction(s: VmState, ins: BpfInstruction) -> VmState {
    if ins.opcode == OP_JA {
        s.with_pc(relative_target(s.pc as usize, ins.offset) as int)
    } else {
        match operation_of(ins.opcode) {
            None => s.with_pc(s.pc + 1),
            Some(op) => if jump_taken(op, s, ins) {
                s.with_pc(relative_target(s.pc as usize, ins.offset) as int)
            } else {
                apply(op, s, ins).with_pc(s.pc + 1)
            },
        }
    }
}

/// The state in which a run of `program` from `s` ends.
///
/// A run ends when the program counter leaves the program, when `exit` is
/// reached, or when the step that it is about to take is one more than the
/// fuse allows. Each of the last two counts as a step.
pub open spec fn run(program: Seq<BpfInstruction>, s: VmState) -> VmState
    decreases STEP_LIMIT + 1 - s.units,
{
    if !(0 <= s.pc < program.len()) {
        s
    } else {
        let counted = VmState { units: s.units + 1, ..s };
        if counted.units > STEP_LIMIT {
            counted
        } else if program[s.pc].opcode == OP_EXIT {
            counted
        } else {
            run(program, run_instruction(counted, program[s.pc]))
        }
    }
}

/// What a run that ends in state `s` reports.
pub open spec fn result_of(s: VmState) -> VmResult {
    VmResult { exit_code: s.reg(0) as i32, compute_units: s.units as u64 }
}

/// The text of the error for an opcode outside the catalog: a fixed
/// prefix, then the opcode as two lower-case hexadecimal digits.
pub open spec fn unknown_opcode_text(opcode: u8) -> Seq<char> {
    "Unknown opcode: 0x"@ + seq![hex_digit((opcode / 16) as int), hex_digit((opcode % 16) as int)]
}

/// The hexadecimal digit for a value below sixteen, in lower case.
pub open spec fn hex_digit(value: int) -> char {
    "0123456789abcdef"@[value]
}

/// The hexadecimal digit for a value below sixteen, as a string.
fn hex_digit_str(value: u8) -> (digit: &'static str)
    requires
        value < 16,
    ensures
        digit@ == seq![hex_digit(value as int)],
{
    proof {
        reveal_strlit("0123456789abcdef");
        reveal_strlit("0");
        reveal_strlit("1");
        reveal_strlit("2");
        reveal_strlit("3");
        reveal_strlit("4");
        reveal_strlit("5");
        reveal_strlit("6");
        reveal_strlit("7");
        reveal_strlit("8");
        reveal_strlit("9");
        reveal_strlit("a");
        reveal_strlit("b");
        reveal_strlit("c");
        reveal_strlit("d");
        reveal_strlit("e");
        reveal_strlit("f");
    }
    let digit = match value {
        0 => "0",
        1 => "1",
        2 => "2",
        3 => "3",
        4 => "4",
        5 => "5",
        6 => "6",
        7 => "7",
        8 => "8",
        9 => "9",
        10 => "a",
        11 => "b",
        12 => "c",
        13 => "d",
        14 => "e",
        _ => "f",
    };
    assert(digit@ =~= seq![hex_digit(value as int)]);
    digit
}

/// Builds the text of the error for an opcode outside the catalog.
fn unknown_opcode_message(opcode: u8) -> (message: String)
    ensures
        message@ == unknown_opcode_text(opcode),
{
    let mut message = String::from_str("Unknown opcode: 0x");
    message.append(hex_digit_str(opcode / 16));
    message.append(hex_digit_str(opcode % 16));
    assert(message@ =~= unknown_opcode_text(opcode));
    message
}

/// The interpreter.
///
/// The memory is open to the embedding code, which may fill or resize it
/// between steps, by the field or by [`BpfVm::read_memory`],
/// [`BpfVm::write_memory`] and [`BpfVm::resize_memory`], whose contracts
/// say what they do to the state. Everything else is reached through the
/// methods only.
pub struct BpfVm {
    registers: [i64; 11],
    program: Vec<BpfInstruction>,
    pc: usize,
    compute_units: u64,
    /// The machine's memory.
    pub memory: Vec<u8>,
    output: Vec<String>,
}

impl View for BpfVm {
    type V = VmState;

    closed spec fn view(&self) -> VmState {
        VmState {
            regs: self.registers@,
            pc: self.pc as int,
            units: self.compute_units as nat,
            memory: self.memory@,
            output: Seq::new(self.output@.len(), |i: int| self.output@[i]@),
        }
    }
}

impl BpfVm {
    /// The program that the machine runs.
    pub closed spec fn program(&self) -> Seq<BpfInstruction> {
        self.program@
    }

    /// A machine always has [`REGISTER_COUNT`] registers, and its counters
    /// fit their types.
    pub proof fn lemma_state_bounds(&self)
        ensures
            self@.regs.len() == REGISTER_COUNT,
            0 <= self@.pc <= usize::MAX,
            self@.units <= u64::MAX,
            self@.memory.len() <= usize::MAX,
    {
        assert(self.memory@.len() == self.memory.len());
    }

    /// Creates a machine for `instructions`, in the initial state.
    pub fn new(instructions: &[BpfInstruction]) -> (vm: Self)
        ensures
            vm@ == initial_state(),
            vm.program() == instructions@,
    {
        let vm = BpfVm {
            registers: [0i64; 11],
            program: slice_to_vec(instructions),
            pc: 0,
            compute_units: 0,
            memory: vec![0u8; 4096],
            output: Vec::new(),
        };
        assert(vm@.regs =~= initial_state().regs);
        assert(vm@.memory =~= initial_state().memory);
        assert(vm@.output =~= initial_state().output);
        vm
    }

    /// Puts `value` into register `reg`. An index that the machine does not
    /// have is ignored.
    pub fn set_register(&mut self, reg: usize, value: i64)
        ensures
            final(self)@ == if reg < REGISTER_COUNT {
                old(self)@.with_reg(reg as u8, value)
            } else {
                old(self)@
            },
            final(self).program() == old(self).program(),
    {
        if reg < 11 {
            self.registers[reg] = value;
        }
    }

    /// Reads register `reg`; an index that the machine does not have reads
    /// as zero.
    pub fn get_register(&self, reg: usize) -> (value: i64)
        ensures
            value == if reg < REGISTER_COUNT {
                self@.regs[reg as int]
            } else {
                0
            },
    {
        if reg < 11 {
            self.registers[reg]
        } else {
            0
        }
    }

    /// The program counter.
    pub fn get_pc(&self) -> (pc: usize)
        ensures
            pc == self@.pc,
    {
        self.pc
    }

    /// Moves the program counter to `pc`, which need not lie in the program.
    pub fn set_pc(&mut self, pc: usize)
        ensures
            final(self)@ == old(self)@.with_pc(pc as int),
            final(self).program() == old(self).program(),
    {
        self.pc = pc;
    }

    /// The number of steps that the machine has taken.
    pub fn compute_units(&self) -> (units: u64)
        ensures
            units == self@.units,
    {
        self.compute_units
    }

    /// The size of the memory, in bytes.
    pub fn memory_len(&self) -> (len: usize)
        ensures
            len == self@.memory.len(),
    {
        self.memory.len()
    }

    /// Reads the byte at `addr`, if the memory has one there.
    pub fn read_memory(&self, addr: usize) -> (byte: Option<u8>)
        ensures
            byte == if addr < self@.memory.len() {
                Some(self@.memory[addr as int])
            } else {
                None::<u8>
            },
    {
        if addr < self.memory.len() {
            Some(self.memory[addr])
        } else {
            None
        }
    }

    /// Writes `value` at `addr` and tells whether the memory has a byte
    /// there; if it has none, nothing is written.
    pub fn write_memory(&mut self, addr: usize, value: u8) -> (written: bool)
        ensures
            written == (addr < old(self)@.memory.len()),
            final(self)@ == if written {
                old(self)@.with_memory(old(self)@.memory.update(addr as int, value))
            } else {
                old(self)@
            },
            final(self).program() == old(self).program(),
    {
        if addr < self.memory.len() {
            self.memory[addr] = value;
            true
        } else {
            false
        }
    }

    /// Makes the memory `len` bytes long: bytes beyond `len` are dropped,
    /// and new bytes are zero.
    pub fn resize_memory(&mut self, len: usize)
        ensures
            final(self)@ == old(self)@.with_memory(resized(old(self)@.memory, len as int)),
            final(self).program() == old(self).program(),
    {
        self.memory.resize(len, 0u8);
        assert(self.memory@ =~= resized(old(self).memory@, len as int));
    }

    /// The lines that the program has written, oldest first.
    pub fn output_lines(&self) -> (lines: &Vec<String>)
        ensures
            lines@.len() == self@.output.len(),
            forall|i: int| 0 <= i < lines@.len() ==> (#[trigger] lines@[i])@ == self@.output[i],
    {
        &self.output
    }
    /// Calls helper `helper`: the print helper writes its line, any other
    /// id does nothing.
    fn handle_call(&mut self, helper: i32) -> (result: Result<(), VmError>)
        ensures
            result is Ok,
            final(self)@ == dispatch_helper(old(self)@, helper),
            final(self).program() == old(self).program(),
    {
        if helper == HELPER_TRACE_PRINTK {
            let line = String::from_str("VM: trace_printk called");
            self.output.push(line);
            assert(self@.output =~= old(self)@.output.push(trace_line()));
        }
        Ok(())
    }

    /// The address that a load or store through register `base` touches
    /// first.
    fn address(&self, base: u8, offset: i16) -> (addr: usize)
        requires
            is_register(base),
        ensures
            addr == effective_address(self@.reg(base), offset),
    {
        #[verifier::truncate]
        (self.registers[base as usize].wrapping_add(offset as i64) as usize)
    }

    /// Reads `width` bytes of memory through register `src`, or gives the
    /// fixed value of that width if they do not lie inside the memory.
    fn load(&self, ins: &BpfInstruction, width: usize) -> (value: i64)
        requires
            is_register(ins.src_reg),
            width == 1 || width == 2 || width == 4,
        ensures
            value == loaded_value(self@, *ins, width as int),
    {
        let addr = self.address(ins.src_reg, ins.offset);
        let len = self.memory.len();
        if addr <= len && len - addr >= width {
            if width == 4 {
                self.memory[addr] as i64 + 0x100 * (self.memory[addr + 1] as i64) + 0x1_0000 * (
                self.memory[addr + 2] as i64) + 0x100_0000 * (self.memory[addr + 3] as i64)
            } else if width == 2 {
                self.memory[addr] as i64 + 0x100 * (self.memory[addr + 1] as i64)
            } else {
                self.memory[addr] as i64
            }
        } else {
            if width == 4 {
                OUT_OF_BOUNDS_WORD
            } else if width == 2 {
                OUT_OF_BOUNDS_HALF
            } else {
                OUT_OF_BOUNDS_BYTE
            }
        }
    }

    /// Stores `value` through register `dst` as four little-endian bytes,
    /// if they lie inside the memory.
    fn store_four(&mut self, ins: &BpfInstruction, value: u32)
        requires
            is_register(ins.dst_reg),
        ensures
            final(self)@ == ({
                let s = old(self)@;
                let addr = effective_address(s.reg(ins.dst_reg), ins.offset);
                if addr + 4 <= s.memory.len() {
                    s.with_memory(store_word(s.memory, addr as int, value))
                } else {
                    s
                }
            }),
            final(self).program() == old(self).program(),
    {
        let addr = self.address(ins.dst_reg, ins.offset);
        let len = self.memory.len();
        if addr <= len && len - addr >= 4 {
            self.memory[addr] = (value % 256) as u8;
            self.memory[addr + 1] = (value / 0x100 % 256) as u8;
            self.memory[addr + 2] = (value / 0x1_0000 % 256) as u8;
            self.memory[addr + 3] = (value / 0x100_0000) as u8;
        }
    }

    /// Stores `value` through register `dst` as two little-endian bytes, if
    /// they lie inside the memory.
    fn store_two(&mut self, ins: &BpfInstruction, value: u16)
        requires
            is_register(ins.dst_reg),
        ensures
            final(self)@ == ({
                let s = old(self)@;
                let addr = effective_address(s.reg(ins.dst_reg), ins.offset);
                if addr + 2 <= s.memory.len() {
                    s.with_memory(store_half(s.memory, addr as int, value))
                } else {
                    s
                }
            }),
            final(self).program() == old(self).program(),
    {
        let addr = self.address(ins.dst_reg, ins.offset);
        let len = self.memory.len();
        if addr <= len && len - addr >= 2 {
            self.memory[addr] = (value % 256) as u8;
            self.memory[addr + 1] = (value / 0x100) as u8;
        }
    }

    /// Stores `value` through register `dst`, if the byte lies inside the
    /// memory.
    fn store_one(&mut self, ins: &BpfInstruction, value: u8)
        requires
            is_register(ins.dst_reg),
        ensures
            final(self)@ == ({
                let s = old(self)@;
                let addr = effective_address(s.reg(ins.dst_reg), ins.offset);
                if addr < s.memory.len() {
                    s.with_memory(s.memory.update(addr as int, value))
                } else {
                    s
                }
            }),
            final(self).program() == old(self).program(),
    {
        let addr = self.address(ins.dst_reg, ins.offset);
        if addr < self.memory.len() {
            self.memory[addr] = value;
        }
    }

    /// Puts `value` into register `dst`, which the machine has.
    fn write(&mut self, dst: u8, value: i64)
        requires
            is_register(dst),
        ensures
            final(self)@ == old(self)@.with_reg(dst, value),
            final(self).program() == old(self).program(),
    {
        self.registers[dst as usize] = value;
    }

    /// Reads register `r`, which the machine has.
    fn read(&self, r: u8) -> (value: i64)
        requires
            is_register(r),
        ensures
            value == self@.reg(r),
    {
        self.registers[r as usize]
    }

    /// Carries out one operation of the catalog on registers, memory and
    /// output. A conditional jump does nothing here.
    fn apply_operation(&mut self, op: Operation, ins: &BpfInstruction)
        ensures
            final(self)@ == apply(op, old(self)@, *ins),
            final(self).program() == old(self).program(),
    {
        let dst = ins.dst_reg;
        let src = ins.src_reg;
        let has_dst = dst < 11;
        let has_both = dst < 11 && src < 11;
        match op {
            Operation::Exit => {},
            Operation::Call => {
                let _ = self.handle_call(ins.immediate);
            },
            Operation::MoveImm => {
                if has_dst {
                    self.write(dst, ins.immediate as i64);
                }
            },
            Operation::LoadDword => {
                if has_dst {
                    self.write(dst, 0x1000 + ins.offset as i64);
                }
            },
            Operation::AddImm => {
                if has_dst {
                    let value = self.read(dst).wrapping_add(ins.immediate as i64);
                    self.write(dst, value);
                }
            },
            Operation::AddReg => {
                if has_both {
                    let value = self.read(dst).wrapping_add(self.read(src));
                    self.write(dst, value);
                }
            },
            Operation::SubReg => {
                if has_both {
                    let value = self.read(dst).wrapping_sub(self.read(src));
                    self.write(dst, value);
                }
            },
            Operation::MulReg => {
                if has_both {
                    let value = self.read(dst).wrapping_mul(self.read(src));
                    self.write(dst, value);
                }
            },
            Operation::MoveReg => {
                if has_both {
                    let value = self.read(src);
                    self.write(dst, value);
                }
            },
            Operation::AndReg => {
                if has_both {
                    let value = self.read(dst) & self.read(src);
                    self.write(dst, value);
                }
            },
            Operation::OrReg => {
                if has_both {
                    let value = self.read(dst) | self.read(src);
                    self.write(dst, value);
                }
            },
            Operation::XorReg => {
                if has_both {
                    let value = self.read(dst) ^ self.read(src);
                    self.write(dst, value);
                }
            },
            Operation::LshReg => {
                if has_both {
                    let shift = #[verifier::truncate]
                    (self.read(src) as u32);
                    let value = self.read(dst).wrapping_shl(shift);
                    self.write(dst, value);
                }
            },
            Operation::RshReg => {
                if has_both {
                    let shift = #[verifier::truncate]
                    (self.read(src) as u32);
                    let bits = #[verifier::truncate]
                    (self.read(dst) as u64);
                    let value = #[verifier::truncate]
                    (bits.wrapping_shr(shift) as i64);
                    self.write(dst, value);
                }
            },
            Operation::ArshReg => {
                if has_both {
                    let shift = #[verifier::truncate]
                    (self.read(src) as u32);
                    let value = self.read(dst).wrapping_shr(shift);
                    self.write(dst, value);
                }
            },
            Operation::ArshImm => {
                if has_dst {
                    let shift = #[verifier::truncate]
                    (ins.immediate as u32);
                    let low = #[verifier::truncate]
                    (self.read(dst) as u32);
                    let signed = #[verifier::truncate]
                    (low as i32);
                    let shifted = #[verifier::truncate]
                    (signed.wrapping_shr(shift) as u32);
                    self.write(dst, shifted as i64);
                }
            },
            Operation::JeqReg | Operation::JgtReg | Operation::JltReg | Operation::JeqImm
            | Operation::JgtImm | Operation::JltImm => {},
            Operation::LoadWord => {
                if has_both {
                    let value = self.load(ins, 4);
                    self.write(dst, value);
                }
            },
            Operation::LoadHalf => {
                if has_both {
                    let value = self.load(ins, 2);
                    self.write(dst, value);
                }
            },
            Operation::LoadByte => {
                if has_both {
                    let value = self.load(ins, 1);
                    self.write(dst, value);
                }
            },
            Operation::StoreWord => {
                if has_both {
                    let value = #[verifier::truncate]
                    (self.read(src) as u32);
                    self.store_four(ins, value);
                }
            },
            Operation::StoreHalf => {
                if has_both {
                    let value = #[verifier::truncate]
                    (self.read(src) as u16);
                    self.store_two(ins, value);
                }
            },
            Operation::StoreByte => {
                if has_both {
                    let value = #[verifier::truncate]
                    (self.read(src) as u8);
                    self.store_one(ins, value);
                }
            },
            Operation::StoreImmWord => {
                if has_dst {
                    let value = #[verifier::truncate]
                    (ins.immediate as u32);
                    self.store_four(ins, value);
                }
            },
        }
    }

    /// Whether `op` is a conditional jump whose condition holds now.
    fn takes_jump(&self, op: Operation, ins: &BpfInstruction) -> (taken: bool)
        ensures
            taken == jump_taken(op, self@, *ins),
    {
        let dst = ins.dst_reg;
        let src = ins.src_reg;
        let has_dst = dst < 11;
        let has_both = dst < 11 && src < 11;
        match op {
            Operation::JeqReg => has_both && self.read(dst) == self.read(src),
            Operation::JgtReg => has_both && self.read(dst) > self.read(src),
            Operation::JltReg => has_both && self.read(dst) < self.read(src),
            Operation::JeqImm => has_dst && self.read(dst) == ins.immediate as i64,
            Operation::JgtImm => has_dst && self.read(dst) > ins.immediate as i64,
            Operation::JltImm => has_dst && self.read(dst) < ins.immediate as i64,
            _ => false,
        }
    }

    /// Executes one instruction on its own.
    ///
    /// A conditional jump whose condition holds sets the program counter to
    /// the instruction's offset, read as an instruction index; nothing else
    /// moves the program counter, and `exit` does nothing. An opcode outside
    /// the catalog is an error and leaves the machine as it was.
    pub fn execute_instruction(&mut self, instruction: &BpfInstruction) -> (result: Result<
        (),
        VmError,
    >)
        ensures
            final(self).program() == old(self).program(),
            match step(old(self)@, *instruction) {
                Some(next) => result is Ok && final(self)@ == next,
                None => final(self)@ == old(self)@ && match result {
                    Err(VmError::InvalidInstruction(message)) => message@ == unknown_opcode_text(
                        instruction.opcode,
                    ),
                    _ => false,
                },
            },
    {
        match Operation::from_opcode(instruction.opcode) {
            None => Err(VmError::InvalidInstruction(unknown_opcode_message(instruction.opcode))),
            Some(op) => {
                if self.takes_jump(op, instruction) {
                    self.pc = #[verifier::truncate]
                    (instruction.offset as usize);
                } else {
                    self.apply_operation(op, instruction);
                }
                Ok(())
            },
        }
    }
    /// What the machine reports if the run ends now.
    fn result(&self) -> (result: VmResult)
        ensures
            result == result_of(self@),
    {
        VmResult {
            exit_code: #[verifier::truncate]
            (self.registers[0] as i32),
            compute_units: self.compute_units,
        }
    }

    /// Where a taken jump of the instruction at the program counter leads in
    /// a run.
    fn jump_target(&self, offset: i16) -> (target: usize)
        ensures
            target == relative_target(self@.pc as usize, offset),
    {
        let here = #[verifier::truncate]
        (self.pc as i32);
        #[verifier::truncate]
        (here.wrapping_add(offset as i32).wrapping_add(1) as usize)
    }

    /// Runs the program from the machine's present state until it ends: see
    /// [`run`]. The run never fails. It reports the low 32 bits of `R0` and
    /// the number of steps that the machine has taken, this run's included.
    ///
    /// On a machine that has taken no more than [`STEP_LIMIT`] steps, the
    /// fuse ends the run at step `STEP_LIMIT + 1` at the latest:
    /// [`lemma_run_fuse`].
    pub fn execute(&mut self) -> (result: Result<VmResult, VmError>)
        requires
            old(self)@.units < u64::MAX,
        ensures
            final(self).program() == old(self).program(),
            final(self)@ == run(old(self).program(), old(self)@),
            result == Ok::<VmResult, VmError>(result_of(final(self)@)),
            old(self)@.units <= STEP_LIMIT ==> final(self)@.units <= STEP_LIMIT + 1,
    {
        proof {
            lemma_run_fuse(self.program(), self@);
        }
        loop
            invariant
                self.program() == old(self).program(),
                self@.units < u64::MAX,
                run(self.program(), self@) == run(old(self).program(), old(self)@),
                old(self)@.units <= STEP_LIMIT ==> run(old(self).program(), old(self)@).units
                    <= STEP_LIMIT + 1,
            decreases STEP_LIMIT + 1 - self@.units,
        {
            if self.pc >= self.program.len() {
                return Ok(self.result());
            }
            self.compute_units += 1;
            if self.compute_units > STEP_LIMIT {
                return Ok(self.result());
            }
            let instruction = self.program[self.pc];
            if instruction.opcode == OP_EXIT {
                return Ok(self.result());
            }
            if instruction.opcode == OP_JA {
                self.pc = self.jump_target(instruction.offset);
            } else {
                match Operation::from_opcode(instruction.opcode) {
                    None => {
                        self.pc += 1;
                    },
                    Some(op) => {
                        if self.takes_jump(op, &instruction) {
                            self.pc = self.jump_target(instruction.offset);
                        } else {
                            self.apply_operation(op, &instruction);
                            self.pc += 1;
                        }
                    },
                }
            }
        }
    }
}

/// The fuse. A run from a state that has taken no more than [`STEP_LIMIT`]
/// steps ends at step `STEP_LIMIT + 1` at the latest, whatever the program;
/// from a state beyond the limit it takes one step at most. No run takes
/// steps back.
pub proof fn lemma_run_fuse(program: Seq<BpfInstruction>, s: VmState)
    ensures
        s.units <= run(program, s).units,
        s.units <= STEP_LIMIT ==> run(program, s).units <= STEP_LIMIT + 1,
        s.units > STEP_LIMIT ==> run(program, s).units <= s.units + 1,
    decreases STEP_LIMIT + 1 - s.units,
{
    if 0 <= s.pc < program.len() {
        let counted = VmState { units: s.units + 1, ..s };
        if counted.units <= STEP_LIMIT && program[s.pc].opcode != OP_EXIT {
            lemma_run_fuse(program, run_instruction(counted, program[s.pc]));
        }
    }
}

/// A program that is one unconditional jump to itself is stopped by the
/// fuse and by nothing else: from its start the run ends at step
/// `STEP_LIMIT + 1` exactly, with the registers, the memory and the output
/// as they were, so that the run reports the `R0` it began with.
pub proof fn lemma_jump_to_self_trips_fuse(program: Seq<BpfInstruction>, s: VmState)
    requires
        program.len() == 1,
        program[0].opcode == OP_JA,
        program[0].offset == -1,
        s.pc == 0,
        s.units <= STEP_LIMIT,
    ensures
        run(program, s) == (VmState { units: (STEP_LIMIT + 1) as nat, ..s }),
        result_of(run(program, s)).exit_code == s.reg(0) as i32,
        result_of(run(program, s)).compute_units == STEP_LIMIT + 1,
    decreases STEP_LIMIT + 1 - s.units,
{
    let counted = VmState { units: s.units + 1, ..s };
    if counted.units <= STEP_LIMIT {
        assert(relative_target(0usize, -1i16) == 0) by {
            assert((0usize as i32).wrapping_add(-1i16 as i32) == -1i32);
            assert((-1i32).wrapping_add(1) == 0i32);
        }
        assert(run_instruction(counted, program[0]) == counted);
        lemma_jump_to_self_trips_fuse(program, counted);
    }
}

/// What is stored can be loaded again. After a word store that lies inside
/// the memory, a word load through the same register with the same offset
/// gives the low 32 bits of the stored register, extended with zeros.
pub proof fn lemma_store_then_load(s: VmState, store: BpfInstruction, load: BpfInstruction)
    requires
        s.regs.len() == REGISTER_COUNT,
        is_register(store.dst_reg),
        is_register(store.src_reg),
        is_register(load.dst_reg),
        load.src_reg == store.dst_reg,
        load.offset == store.offset,
        effective_address(s.reg(store.dst_reg), store.offset) + 4 <= s.memory.len(),
    ensures
        apply(Operation::LoadWord, apply(Operation::StoreWord, s, store), load).reg(load.dst_reg)
            == (s.reg(store.src_reg) as u32) as i64,
        apply(Operation::LoadWord, apply(Operation::StoreWord, s, store), load).memory
            == store_word(
            s.memory,
            effective_address(s.reg(store.dst_reg), store.offset) as int,
            s.reg(store.src_reg) as u32,
        ),
{
    let addr = effective_address(s.reg(store.dst_reg), store.offset) as int;
    let value = s.reg(store.src_reg) as u32;
    let stored = apply(Operation::StoreWord, s, store);
    assert(stored.memory == store_word(s.memory, addr, value));
    assert(stored.regs == s.regs);
    lemma_bytes_of_value(value as int);
    assert(word_at(stored.memory, addr) == value as i64);
    assert(loaded_value(stored, load, 4) == value as i64);
}

/// A run needs nothing but the program and the state that it starts from:
/// two machines that agree on both end in the same state and report the
/// same result.
pub proof fn lemma_run_deterministic(a: BpfVm, b: BpfVm)
    requires
        a.program() == b.program(),
        a@ == b@,
    ensures
        run(a.program(), a@) == run(b.program(), b@),
        result_of(run(a.program(), a@)) == result_of(run(b.program(), b@)),
{
}

} // verus!
