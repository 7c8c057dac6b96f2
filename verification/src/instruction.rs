//! The instruction record and its wire format.
//!
//! An instruction is a fixed record of five fields. On the wire it takes
//! exactly eight bytes, little-endian:
//!
//! ```text
//! [opcode] [dst | src << 4] [offset lo] [offset hi] [immediate, 4 bytes]
//! ```
//!
//! [`encoded`] and [`decoded`] give the two directions of that layout as
//! specification functions; [`BpfInstruction::to_bytes`] and
//! [`BpfInstruction::from_bytes`] compute them. [`Operation`] is the closed
//! catalog of the opcodes that the interpreter knows.

use vstd::prelude::*;

verus! {

/// Highest register index that a well-formed instruction may name.
pub const MAX_REGISTER: u8 = 10;

/// Mask that selects the instruction class, the low three bits of an opcode.
pub const CLASS_MASK: u8 = 0x07;

/// Class of immediate loads.
pub const BPF_LD: u8 = 0x00;

/// Class of loads through a register.
pub const BPF_LDX: u8 = 0x01;

/// Class of immediate stores.
pub const BPF_ST: u8 = 0x02;

/// Class of stores from a register.
pub const BPF_STX: u8 = 0x03;

/// Class of 32-bit arithmetic.
pub const BPF_ALU: u8 = 0x04;

/// Class of jumps, calls and exit.
pub const BPF_JMP: u8 = 0x05;

/// The one reserved class: no valid instruction belongs to it.
pub const BPF_RESERVED: u8 = 0x06;

/// Class of 64-bit arithmetic.
pub const BPF_ALU64: u8 = 0x07;

/// Opcode of `exit`.
pub const OP_EXIT: u8 = 0x95;

/// Opcode of a helper call; the immediate holds the helper's id.
pub const OP_CALL: u8 = 0x85;

/// Opcode of the unconditional jump.
pub const OP_JA: u8 = 0x05;

/// Opcode that moves an immediate into a register.
pub const OP_MOV_IMM: u8 = 0xb7;

/// Opcode of the 64-bit load through a register.
pub const OP_LDX_DW: u8 = 0x79;

/// One instruction of the register machine.
///
/// Construction checks nothing: registers above [`MAX_REGISTER`] can be
/// built and are encoded by their low four bits. Only the validators reject
/// them.
#[derive(Debug, Clone, Copy, PartialEq, Eq, Structural)]
pub struct BpfInstruction {
    pub opcode: u8,
    pub dst_reg: u8,
    pub src_reg: u8,
    pub offset: i16,
    pub immediate: i32,
}

/// The class of an opcode: its low three bits.
pub open spec fn class_of(opcode: u8) -> u8 {
    opcode & CLASS_MASK
}

/// An opcode belongs to one of the seven valid classes.
pub open spec fn has_valid_class(opcode: u8) -> bool {
    let class = class_of(opcode);
    class == BPF_LD || class == BPF_LDX || class == BPF_ST || class == BPF_STX || class == BPF_ALU
        || class == BPF_JMP || class == BPF_ALU64
}

/// The byte that packs both registers: `dst` in the low nibble, `src` in the
/// high one, each cut to four bits.
pub open spec fn register_byte(dst: u8, src: u8) -> u8 {
    (dst & 0x0f) | ((src & 0x0f) << 4)
}

/// A 16-bit signed value read as unsigned, in two's complement.
pub open spec fn unsigned16(value: i16) -> int {
    if value < 0 {
        value + 0x1_0000
    } else {
        value as int
    }
}

/// A 32-bit signed value read as unsigned, in two's complement.
pub open spec fn unsigned32(value: i32) -> int {
    if value < 0 {
        value + 0x1_0000_0000
    } else {
        value as int
    }
}

/// The signed 16-bit value whose two's complement is `value`, for
/// `0 <= value < 0x1_0000`.
pub open spec fn signed16(value: int) -> i16 {
    if value >= 0x8000 {
        (value - 0x1_0000) as i16
    } else {
        value as i16
    }
}

/// The signed 32-bit value whose two's complement is `value`, for
/// `0 <= value < 0x1_0000_0000`.
pub open spec fn signed32(value: int) -> i32 {
    if value >= 0x8000_0000 {
        (value - 0x1_0000_0000) as i32
    } else {
        value as i32
    }
}

/// The eight bytes of an instruction on the wire.
pub open spec fn encoded(ins: BpfInstruction) -> Seq<u8> {
    let off = unsigned16(ins.offset);
    let imm = unsigned32(ins.immediate);
    seq![
        ins.opcode,
        register_byte(ins.dst_reg, ins.src_reg),
        (off % 256) as u8,
        (off / 256) as u8,
        (imm % 256) as u8,
        (imm / 0x100 % 256) as u8,
        (imm / 0x1_0000 % 256) as u8,
        (imm / 0x100_0000) as u8,
    ]
}

/// The instruction that eight bytes on the wire stand for.
pub open spec fn decoded(bytes: Seq<u8>) -> BpfInstruction
    recommends
        bytes.len() == 8,
{
    BpfInstruction {
        opcode: bytes[0],
        dst_reg: bytes[1] & 0x0f,
        src_reg: bytes[1] >> 4,
        offset: signed16(bytes[2] + 0x100 * bytes[3]),
        immediate: signed32(
            bytes[4] + 0x100 * bytes[5] + 0x1_0000 * bytes[6] + 0x100_0000 * bytes[7],
        ),
    }
}

/// The byte stream of a whole instruction sequence: the encodings of its
/// instructions, one after the other.
pub open spec fn encoded_program(program: Seq<BpfInstruction>) -> Seq<u8> {
    Seq::new(8 * program.len(), |i: int| encoded(program[i / 8])[i % 8])
}

/// The instruction sequence that a byte stream stands for; bytes after the
/// last whole record are ignored.
pub open spec fn decoded_program(bytes: Seq<u8>) -> Seq<BpfInstruction> {
    Seq::new((bytes.len() / 8) as nat, |i: int| decoded(bytes.subrange(8 * i, 8 * i + 8)))
}

/// The operations that the interpreter knows, one for each opcode of the
/// catalog.
///
/// The unconditional jump, [`OP_JA`], is not among them: only a whole-program
/// run follows it, and single-stepping it is an error like any other opcode
/// outside the catalog.
#[derive(Debug, Clone, Copy, PartialEq, Eq, Structural)]
pub enum Operation {
    /// `0x95`. Leaves the program.
    Exit,
    /// `0x85`. Calls the helper whose id the immediate holds.
    Call,
    /// `0xb7`. Moves the immediate into `dst`.
    MoveImm,
    /// `0x79`. The 64-bit load. No memory is read: `dst` becomes `0x1000 + offset`.
    LoadDword,
    /// `0x07`. Adds the immediate to `dst`.
    AddImm,
    /// `0x0f`. Adds `src` to `dst`.
    AddReg,
    /// `0x1f`. Subtracts `src` from `dst`.
    SubReg,
    /// `0x2f`. Multiplies `dst` by `src`.
    MulReg,
    /// `0xbf`. Moves `src` into `dst`.
    MoveReg,
    /// `0x5f`. Bitwise and of `dst` with `src`.
    AndReg,
    /// `0x4f`. Bitwise or of `dst` with `src`.
    OrReg,
    /// `0xaf`. Bitwise exclusive or of `dst` with `src`.
    XorReg,
    /// `0x6f`. Shifts `dst` left by `src`.
    LshReg,
    /// `0x7f`. Shifts `dst` right by `src`, filling with zeros.
    RshReg,
    /// `0xc7`. Shifts `dst` right by `src`, keeping the sign.
    ArshReg,
    /// `0xcf`. Shifts the low 32 bits of `dst` right by the immediate,
    /// keeping their sign, and extends the result with zeros.
    ArshImm,
    /// `0x1d`. Jumps if `dst` equals `src`.
    JeqReg,
    /// `0x2d`. Jumps if `dst` is greater than `src`.
    JgtReg,
    /// `0xad`. Jumps if `dst` is less than `src`.
    JltReg,
    /// `0x15`. Jumps if `dst` equals the immediate.
    JeqImm,
    /// `0x25`. Jumps if `dst` is greater than the immediate.
    JgtImm,
    /// `0xa5`. Jumps if `dst` is less than the immediate.
    JltImm,
    /// `0x61`. Loads four bytes from `[src + offset]` into `dst`.
    LoadWord,
    /// `0x69`. Loads two bytes from `[src + offset]` into `dst`.
    LoadHalf,
    /// `0x71`. Loads one byte from `[src + offset]` into `dst`.
    LoadByte,
    /// `0x63`. Stores the low four bytes of `src` to `[dst + offset]`.
    StoreWord,
    /// `0x6b`. Stores the low two bytes of `src` to `[dst + offset]`.
    StoreHalf,
    /// `0x73`. Stores the low byte of `src` to `[dst + offset]`.
    StoreByte,
    /// `0x62`. Stores the immediate, as four bytes, to `[dst + offset]`.
    StoreImmWord,
}

/// The operation that an opcode stands for, if the catalog has it.
pub open spec fn operation_of(opcode: u8) -> Option<Operation> {
    if opcode == 0x95 {
        Some(Operation::Exit)
    } else if opcode == 0x85 {
        Some(Operation::Call)
    } else if opcode == 0xb7 {
        Some(Operation::MoveImm)
    } else if opcode == 0x79 {
        Some(Operation::LoadDword)
    } else if opcode == 0x07 {
        Some(Operation::AddImm)
    } else if opcode == 0x0f {
        Some(Operation::AddReg)
    } else if opcode == 0x1f {
        Some(Operation::SubReg)
    } else if opcode == 0x2f {
        Some(Operation::MulReg)
    } else if opcode == 0xbf {
        Some(Operation::MoveReg)
    } else if opcode == 0x5f {
        Some(Operation::AndReg)
    } else if opcode == 0x4f {
        Some(Operation::OrReg)
    } else if opcode == 0xaf {
        Some(Operation::XorReg)
    } else if opcode == 0x6f {
        Some(Operation::LshReg)
    } else if opcode == 0x7f {
        Some(Operation::RshReg)
    } else if opcode == 0xc7 {
        Some(Operation::ArshReg)
    } else if opcode == 0xcf {
        Some(Operation::ArshImm)
    } else if opcode == 0x1d {
        Some(Operation::JeqReg)
    } else if opcode == 0x2d {
        Some(Operation::JgtReg)
    } else if opcode == 0xad {
        Some(Operation::JltReg)
    } else if opcode == 0x15 {
        Some(Operation::JeqImm)
    } else if opcode == 0x25 {
        Some(Operation::JgtImm)
    } else if opcode == 0xa5 {
        Some(Operation::JltImm)
    } else if opcode == 0x61 {
        Some(Operation::LoadWord)
    } else if opcode == 0x69 {
        Some(Operation::LoadHalf)
    } else if opcode == 0x71 {
        Some(Operation::LoadByte)
    } else if opcode == 0x63 {
        Some(Operation::StoreWord)
    } else if opcode == 0x6b {
        Some(Operation::StoreHalf)
    } else if opcode == 0x73 {
        Some(Operation::StoreByte)
    } else if opcode == 0x62 {
        Some(Operation::StoreImmWord)
    } else {
        None
    }
}

/// The opcode of an operation.
pub open spec fn opcode_of(op: Operation) -> u8 {
    match op {
        Operation::Exit => 0x95,
        Operation::Call => 0x85,
        Operation::MoveImm => 0xb7,
        Operation::LoadDword => 0x79,
        Operation::AddImm => 0x07,
        Operation::AddReg => 0x0f,
        Operation::SubReg => 0x1f,
        Operation::MulReg => 0x2f,
        Operation::MoveReg => 0xbf,
        Operation::AndReg => 0x5f,
        Operation::OrReg => 0x4f,
        Operation::XorReg => 0xaf,
        Operation::LshReg => 0x6f,
        Operation::RshReg => 0x7f,
        Operation::ArshReg => 0xc7,
        Operation::ArshImm => 0xcf,
        Operation::JeqReg => 0x1d,
        Operation::JgtReg => 0x2d,
        Operation::JltReg => 0xad,
        Operation::JeqImm => 0x15,
        Operation::JgtImm => 0x25,
        Operation::JltImm => 0xa5,
        Operation::LoadWord => 0x61,
        Operation::LoadHalf => 0x69,
        Operation::LoadByte => 0x71,
        Operation::StoreWord => 0x63,
        Operation::StoreHalf => 0x6b,
        Operation::StoreByte => 0x73,
        Operation::StoreImmWord => 0x62,
    }
}

impl Operation {
    /// Looks an opcode up in the catalog.
    pub fn from_opcode(opcode: u8) -> (op: Option<Operation>)
        ensures
            op == operation_of(opcode),
    {
        match opcode {
            0x95 => Some(Operation::Exit),
            0x85 => Some(Operation::Call),
            0xb7 => Some(Operation::MoveImm),
            0x79 => Some(Operation::LoadDword),
            0x07 => Some(Operation::AddImm),
            0x0f => Some(Operation::AddReg),
            0x1f => Some(Operation::SubReg),
            0x2f => Some(Operation::MulReg),
            0xbf => Some(Operation::MoveReg),
            0x5f => Some(Operation::AndReg),
            0x4f => Some(Operation::OrReg),
            0xaf => Some(Operation::XorReg),
            0x6f => Some(Operation::LshReg),
            0x7f => Some(Operation::RshReg),
            0xc7 => Some(Operation::ArshReg),
            0xcf => Some(Operation::ArshImm),
            0x1d => Some(Operation::JeqReg),
            0x2d => Some(Operation::JgtReg),
            0xad => Some(Operation::JltReg),
            0x15 => Some(Operation::JeqImm),
            0x25 => Some(Operation::JgtImm),
            0xa5 => Some(Operation::JltImm),
            0x61 => Some(Operation::LoadWord),
            0x69 => Some(Operation::LoadHalf),
            0x71 => Some(Operation::LoadByte),
            0x63 => Some(Operation::StoreWord),
            0x6b => Some(Operation::StoreHalf),
            0x73 => Some(Operation::StoreByte),
            0x62 => Some(Operation::StoreImmWord),
            _ => None,
        }
    }

    /// The opcode that stands for this operation.
    pub fn opcode(&self) -> (opcode: u8)
        ensures
            opcode == opcode_of(*self),
            operation_of(opcode) == Some(*self),
    {
        match self {
            Operation::Exit => 0x95,
            Operation::Call => 0x85,
            Operation::MoveImm => 0xb7,
            Operation::LoadDword => 0x79,
            Operation::AddImm => 0x07,
            Operation::AddReg => 0x0f,
            Operation::SubReg => 0x1f,
            Operation::MulReg => 0x2f,
            Operation::MoveReg => 0xbf,
            Operation::AndReg => 0x5f,
            Operation::OrReg => 0x4f,
            Operation::XorReg => 0xaf,
            Operation::LshReg => 0x6f,
            Operation::RshReg => 0x7f,
            Operation::ArshReg => 0xc7,
            Operation::ArshImm => 0xcf,
            Operation::JeqReg => 0x1d,
            Operation::JgtReg => 0x2d,
            Operation::JltReg => 0xad,
            Operation::JeqImm => 0x15,
            Operation::JgtImm => 0x25,
            Operation::JltImm => 0xa5,
            Operation::LoadWord => 0x61,
            Operation::LoadHalf => 0x69,
            Operation::LoadByte => 0x71,
            Operation::StoreWord => 0x63,
            Operation::StoreHalf => 0x6b,
            Operation::StoreByte => 0x73,
            Operation::StoreImmWord => 0x62,
        }
    }
}

/// The catalog assigns each operation an opcode of its own, and the two
/// directions of the lookup agree.
pub proof fn lemma_operation_opcode(op: Operation, opcode: u8)
    ensures
        operation_of(opcode_of(op)) == Some(op),
        operation_of(opcode) == Some(op) ==> opcode_of(op) == opcode,
{
}

impl BpfInstruction {
    /// Builds an instruction from its five fields, unchecked.
    pub fn new(opcode: u8, dst_reg: u8, src_reg: u8, offset: i16, immediate: i32) -> (ins: Self)
        ensures
            ins == (BpfInstruction { opcode, dst_reg, src_reg, offset, immediate }),
    {
        BpfInstruction { opcode, dst_reg, src_reg, offset, immediate }
    }

    /// Encodes the instruction into its eight bytes.
    pub fn to_bytes(&self) -> (bytes: [u8; 8])
        ensures
            bytes@ == encoded(*self),
    {
        let off: i32 = if self.offset < 0 {
            self.offset as i32 + 0x1_0000
        } else {
            self.offset as i32
        };
        let imm: i64 = if self.immediate < 0 {
            self.immediate as i64 + 0x1_0000_0000
        } else {
            self.immediate as i64
        };
        let bytes: [u8; 8] = [
            self.opcode,
            (self.dst_reg & 0x0f) | ((self.src_reg & 0x0f) << 4),
            (off % 256) as u8,
            (off / 256) as u8,
            (imm % 256) as u8,
            (imm / 0x100 % 256) as u8,
            (imm / 0x1_0000 % 256) as u8,
            (imm / 0x100_0000) as u8,
        ];
        assert(bytes@ =~= encoded(*self));
        bytes
    }

    /// Decodes eight bytes into the instruction that they stand for.
    pub fn from_bytes(bytes: &[u8; 8]) -> (ins: Self)
        ensures
            ins == decoded(bytes@),
    {
        let off: i32 = bytes[2] as i32 + 0x100 * (bytes[3] as i32);
        let imm: i64 = bytes[4] as i64 + 0x100 * (bytes[5] as i64) + 0x1_0000 * (bytes[6] as i64)
            + 0x100_0000 * (bytes[7] as i64);
        BpfInstruction {
            opcode: bytes[0],
            dst_reg: bytes[1] & 0x0f,
            src_reg: bytes[1] >> 4,
            offset: if off >= 0x8000 {
                (off - 0x1_0000) as i16
            } else {
                off as i16
            },
            immediate: if imm >= 0x8000_0000 {
                (imm - 0x1_0000_0000) as i32
            } else {
                imm as i32
            },
        }
    }

    /// Tells whether the instruction belongs to one of the seven valid
    /// classes, which is to say: not to the reserved one.
    pub fn has_valid_class(&self) -> (valid: bool)
        ensures
            valid == has_valid_class(self.opcode),
            valid == (class_of(self.opcode) != BPF_RESERVED),
    {
        let class = self.class();
        class == BPF_LD || class == BPF_LDX || class == BPF_ST || class == BPF_STX || class
            == BPF_ALU || class == BPF_JMP || class == BPF_ALU64
    }

    /// The instruction's class: the low three bits of its opcode.
    pub fn class(&self) -> (class: u8)
        ensures
            class == class_of(self.opcode),
            class <= 7,
    {
        let opcode = self.opcode;
        assert(opcode & 0x07 <= 7) by (bit_vector);
        opcode & CLASS_MASK
    }
}

/// Decodes a byte stream into the instructions that it stands for, eight
/// bytes for each; bytes after the last whole record are ignored.
pub fn decode_program(bytes: &[u8]) -> (program: Vec<BpfInstruction>)
    ensures
        program@ == decoded_program(bytes@),
{
    let len = bytes.len();
    let count = len / 8;
    let mut program: Vec<BpfInstruction> = Vec::new();
    let mut i: usize = 0;
    while i < count
        invariant
            len == bytes@.len(),
            count == len / 8,
            i <= count,
            program@.len() == i,
            forall|j: int| 0 <= j < i ==> #[trigger] program@[j] == decoded(
                bytes@.subrange(8 * j, 8 * j + 8),
            ),
        decreases count - i,
    {
        assert(8 * i + 8 <= bytes@.len()) by {
            assert(i + 1 <= bytes@.len() / 8);
        }
        let base = 8 * i;
        let record: [u8; 8] = [
            bytes[base],
            bytes[base + 1],
            bytes[base + 2],
            bytes[base + 3],
            bytes[base + 4],
            bytes[base + 5],
            bytes[base + 6],
            bytes[base + 7],
        ];
        assert(record@ =~= bytes@.subrange(8 * i, 8 * i + 8));
        program.push(BpfInstruction::from_bytes(&record));
        i += 1;
    }
    assert(program@ =~= decoded_program(bytes@));
    program
}

/// Decoding the byte stream of a program gives the program back, whenever
/// the registers of each instruction fit in four bits.
pub proof fn lemma_decode_encode_program(program: Seq<BpfInstruction>)
    requires
        forall|i: int|
            0 <= i < program.len() ==> (#[trigger] program[i]).dst_reg <= 15 && program[i].src_reg
                <= 15,
    ensures
        encoded_program(program).len() == 8 * program.len(),
        decoded_program(encoded_program(program)) == program,
{
    let bytes = encoded_program(program);
    assert forall|i: int| 0 <= i < program.len() implies decoded(
        #[trigger] bytes.subrange(8 * i, 8 * i + 8),
    ) == program[i] by {
        lemma_decode_encode(program[i]);
        assert forall|k: int| 0 <= k < 8 implies bytes.subrange(8 * i, 8 * i + 8)[k] == encoded(
            program[i],
        )[k] by {
            assert((8 * i + k) / 8 == i);
            assert((8 * i + k) % 8 == k);
        }
        assert(bytes.subrange(8 * i, 8 * i + 8) =~= encoded(program[i]));
    }
    assert(decoded_program(bytes) =~= program);
}

/// Unpacking the register byte gives back both registers, as far as each
/// fits in four bits.
pub proof fn lemma_register_byte_unpacks(dst: u8, src: u8)
    requires
        dst <= 15,
        src <= 15,
    ensures
        register_byte(dst, src) & 0x0f == dst,
        register_byte(dst, src) >> 4 == src,
{
    assert(((dst & 0x0f) | ((src & 0x0f) << 4)) & 0x0f == dst) by (bit_vector)
        requires
            dst <= 15,
            src <= 15,
    ;
    assert(((dst & 0x0f) | ((src & 0x0f) << 4)) >> 4 == src) by (bit_vector)
        requires
            dst <= 15,
            src <= 15,
    ;
}

/// The four bytes that a value below `2^32` comes apart into put the same
/// value together again.
pub proof fn lemma_bytes_of_value(v: int)
    requires
        0 <= v < 0x1_0000_0000,
    ensures
        0 <= v / 0x100_0000 < 256,
        v % 256 + 0x100 * (v / 0x100 % 256) + 0x1_0000 * (v / 0x1_0000 % 256) + 0x100_0000 * (v
            / 0x100_0000) == v,
{
    let w = v / 0x100;
    let x = w / 0x100;
    let y = x / 0x100;
    assert(v == 0x100 * w + v % 256);
    assert(w == 0x100 * x + w % 256);
    assert(x == 0x100 * y + x % 256);
    assert(x == v / 0x1_0000);
    assert(y == v / 0x100_0000);
}

/// Decoding an encoded instruction gives the instruction back, whenever both
/// registers fit in the four bits that the layout has for each.
pub proof fn lemma_decode_encode(ins: BpfInstruction)
    requires
        ins.dst_reg <= 15,
        ins.src_reg <= 15,
    ensures
        encoded(ins).len() == 8,
        decoded(encoded(ins)) == ins,
{
    lemma_register_byte_unpacks(ins.dst_reg, ins.src_reg);
    let bytes = encoded(ins);
    let off = unsigned16(ins.offset);
    let imm = unsigned32(ins.immediate);
    assert(bytes[2] + 0x100 * bytes[3] == off);
    assert(signed16(off) == ins.offset);
    lemma_bytes_of_value(imm);
    assert(bytes[4] + 0x100 * bytes[5] + 0x1_0000 * bytes[6] + 0x100_0000 * bytes[7] == imm);
    assert(signed32(imm) == ins.immediate);
}

/// A value put together from four bytes comes apart into the same bytes.
proof fn lemma_four_bytes(b0: u8, b1: u8, b2: u8, b3: u8)
    ensures
        ({
            let v = b0 + 0x100 * b1 + 0x1_0000 * b2 + 0x100_0000 * b3;
            &&& 0 <= v < 0x1_0000_0000
            &&& v % 256 == b0
            &&& v / 0x100 % 256 == b1
            &&& v / 0x1_0000 % 256 == b2
            &&& v / 0x100_0000 == b3
        }),
{
    let v = b0 + 0x100 * b1 + 0x1_0000 * b2 + 0x100_0000 * b3;
    let w = b1 + 0x100 * b2 + 0x1_0000 * b3;
    let x = b2 + 0x100 * b3;
    assert(v == b0 + 0x100 * w);
    assert(v / 0x100 == w);
    assert(w == b1 + 0x100 * x);
    assert(w / 0x100 == x);
    assert(v / 0x1_0000 == x);
    assert(v / 0x100_0000 == b3);
}

/// Encoding a decoded record gives the same eight bytes back: the layout
/// wastes no bit.
pub proof fn lemma_encode_decode(bytes: Seq<u8>)
    requires
        bytes.len() == 8,
    ensures
        encoded(decoded(bytes)) == bytes,
{
    let b = bytes[1];
    assert(((b & 0x0f) & 0x0f) | (((b >> 4) & 0x0f) << 4) == b) by (bit_vector);
    let ins = decoded(bytes);
    let off = bytes[2] + 0x100 * bytes[3];
    assert(unsigned16(ins.offset) == off);
    lemma_four_bytes(bytes[4], bytes[5], bytes[6], bytes[7]);
    let imm = bytes[4] + 0x100 * bytes[5] + 0x1_0000 * bytes[6] + 0x100_0000 * bytes[7];
    assert(unsigned32(ins.immediate) == imm);
    assert(encoded(ins) =~= bytes);
}

} // verus!
