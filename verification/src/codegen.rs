//! The code generator: from a syntax tree to an instruction sequence.
//!
//! The generator walks the tree depth first and appends instructions to a
//! list that it keeps. Its whole state is that list and one register
//! number, the register into which the next literal is moved.
//! [`generate_node`] defines what the walk of a tree appends, and
//! [`generate`] what a whole generation does: the walk, then the exit
//! sequence.
//!
//! Only part of the language is lowered: blocks, function bodies, return
//! statements, integer literals and calls. Everything else in a tree is
//! walked through or passed over, and nothing is an error.

use crate::instruction::{
    has_valid_class, BpfInstruction, OP_CALL, OP_EXIT, OP_MOV_IMM,
};
use crate::lexer::is_digit;
use crate::parser::{lemma_tree_kids, Node, NodeType, Tree};
use crate::text::{chars_of, str_eq};
use vstd::prelude::*;
use vstd::string::StringSliceAdditionalSpecFns;
use vstd::utf8::encode_utf8;

verus! {

/// Id of the helper that the print function is lowered to.
pub const PRINT_HELPER: i32 = 6;

/// Number of arguments of the print function that get a register, `R1` to
/// `R5`; further arguments are passed over.
pub const MAX_CALL_ARGS: usize = 5;

/// Why a tree could not be lowered. The part of the language that the
/// generator lowers raises none of these.
#[derive(Debug)]
pub enum CodeGenError {
    /// A node of a kind that the generator does not lower.
    UnsupportedNodeType(NodeType),
    /// A call of a function that does not exist.
    FunctionNotFound(String),
    /// An instruction that the generator must not emit.
    InvalidInstruction(String),
}

/// The state of a generator, as a mathematical value.
pub ghost struct Emitted {
    /// The instructions appended so far.
    pub code: Seq<BpfInstruction>,
    /// The register into which the next literal is moved.
    pub reg: u8,
}

impl Emitted {
    /// The state with one more instruction.
    pub open spec fn emit(self, ins: BpfInstruction) -> Emitted {
        Emitted { code: self.code.push(ins), ..self }
    }

    /// The state with the exit sequence appended.
    pub open spec fn emit_exit(self) -> Emitted {
        self.emit(move_immediate(0, 0)).emit(exit())
    }

    /// The state with `reg` as the register for the next literal.
    pub open spec fn with_reg(self, reg: u8) -> Emitted {
        Emitted { reg, ..self }
    }
}

/// The state of a new generator: no instruction, and `R1` for the next
/// literal, `R0` being kept for return values.
pub open spec fn initial_state() -> Emitted {
    Emitted { code: Seq::empty(), reg: 1 }
}

/// The instruction that moves `immediate` into register `dst`.
pub open spec fn move_immediate(dst: u8, immediate: i32) -> BpfInstruction {
    BpfInstruction { opcode: OP_MOV_IMM, dst_reg: dst, src_reg: 0, offset: 0, immediate }
}

/// The instruction that calls helper `id`.
pub open spec fn call(id: i32) -> BpfInstruction {
    BpfInstruction { opcode: OP_CALL, dst_reg: 0, src_reg: 0, offset: 0, immediate: id }
}

/// The exit instruction.
pub open spec fn exit() -> BpfInstruction {
    BpfInstruction { opcode: OP_EXIT, dst_reg: 0, src_reg: 0, offset: 0, immediate: 0 }
}

/// The value of a sequence of decimal digits.
pub open spec fn digits_value(digits: Seq<char>) -> int
    decreases digits.len(),
{
    if digits.len() == 0 {
        0
    } else {
        10 * digits_value(digits.drop_last()) + (digits.last() as int - '0' as int)
    }
}

/// Every character of the text is a decimal digit.
pub open spec fn all_digits(text: Seq<char>) -> bool {
    forall|i: int| 0 <= i < text.len() ==> is_digit(#[trigger] text[i])
}

/// The 32-bit integer that a text denotes, if it denotes one: an optional
/// sign, `+` or `-`, then one decimal digit or more and nothing else, with
/// a value that a signed 32-bit integer can hold.
pub open spec fn integer_of(text: Seq<char>) -> Option<i32> {
    let signed = text.len() > 0 && (text[0] == '-' || text[0] == '+');
    let digits = if signed {
        text.subrange(1, text.len() as int)
    } else {
        text
    };
    let value = if text.len() > 0 && text[0] == '-' {
        -digits_value(digits)
    } else {
        digits_value(digits)
    };
    if digits.len() > 0 && all_digits(digits) && i32::MIN <= value <= i32::MAX {
        Some(value as i32)
    } else {
        None
    }
}

/// The polynomial hash of a byte string: each byte is added to 31 times
/// the hash of the bytes before it, in wrapping 32-bit arithmetic.
pub open spec fn polynomial_hash(bytes: Seq<u8>) -> i32
    decreases bytes.len(),
{
    if bytes.len() == 0 {
        0
    } else {
        polynomial_hash(bytes.drop_last()).wrapping_mul(31).wrapping_add(bytes.last() as i32)
    }
}

/// The id that stands for a function that is no built-in: the absolute
/// value of the hash of its name's bytes, modulo 1000, plus 100. It lies
/// between 100 and 1099.
pub open spec fn function_id(name: Seq<char>) -> i32 {
    let hash = polynomial_hash(encode_utf8(name)) as int;
    let magnitude = if hash < 0 {
        -hash
    } else {
        hash
    };
    (magnitude % 1000 + 100) as i32
}

/// The name of the built-in print function.
pub open spec fn print_function() -> Seq<char> {
    "PrintF"@
}

/// What the walk of one tree appends, and the register that it leaves.
///
/// - A program or a block: its children, in order.
/// - A function declaration: its last child, the body; the parameters are
///   not lowered.
/// - A statement with the text `return`: its first child, if it has one,
///   then the exit sequence. The child's value is computed and left where
///   it is: the exit sequence returns zero.
/// - An expression with the text `call`: see [`generate_call`].
/// - Any other statement or expression: its children, in order.
/// - A literal whose text denotes a 32-bit integer: a move of that integer
///   into the current register. Any other literal: nothing.
/// - An identifier: nothing.
pub open spec fn generate_node(t: Tree, g: Emitted) -> Emitted
    decreases t, 1int,
{
    match t.kind {
        NodeType::Program | NodeType::Block => generate_nodes(t.kids, 0, g),
        NodeType::FunctionDecl => if t.kids.len() > 0 {
            generate_node(t.kids.last(), g)
        } else {
            g
        },
        NodeType::Statement => if t.text == Some("return"@) {
            if t.kids.len() > 0 {
                generate_node(t.kids[0], g).emit_exit()
            } else {
                g.emit_exit()
            }
        } else {
            generate_nodes(t.kids, 0, g)
        },
        NodeType::Expression => if t.text == Some("call"@) {
            generate_call(t, g)
        } else {
            generate_nodes(t.kids, 0, g)
        },
        NodeType::Identifier => g,
        NodeType::Literal => match t.text {
            Some(text) => match integer_of(text) {
                Some(value) => g.emit(move_immediate(g.reg, value)),
                None => g,
            },
            None => g,
        },
    }
}

/// What the walk of the trees from number `from` on appends.
pub open spec fn generate_nodes(trees: Seq<Tree>, from: int, g: Emitted) -> Emitted
    decreases trees, trees.len() - from,
{
    if 0 <= from < trees.len() {
        generate_nodes(trees, from + 1, generate_node(trees[from], g))
    } else {
        g
    }
}

/// What a call appends. The first child is the callee. A callee without
/// text, or none at all, gives nothing. For the print function, each of
/// the first [`MAX_CALL_ARGS`] arguments is walked with its register,
/// `R1` for the first, as the current one, the others are passed over, and
/// a call of [`PRINT_HELPER`] follows. For any other name, a call of the
/// name's [`function_id`] stands in for the function; the arguments are not
/// lowered.
pub open spec fn generate_call(t: Tree, g: Emitted) -> Emitted
    decreases t, 0int,
{
    if t.kids.len() == 0 {
        g
    } else {
        match t.kids[0].text {
            None => g,
            Some(name) => if name == print_function() {
                generate_arguments(t.kids, 1, g).emit(call(PRINT_HELPER))
            } else {
                g.emit(call(function_id(name)))
            },
        }
    }
}

/// What the arguments of the print function append, from child number
/// `from` on: argument number `n`, counted from zero, is child `n + 1` and
/// goes to register `n + 1`.
pub open spec fn generate_arguments(kids: Seq<Tree>, from: int, g: Emitted) -> Emitted
    decreases kids, kids.len() - from,
{
    if 1 <= from < kids.len() {
        if from <= MAX_CALL_ARGS {
            generate_arguments(kids, from + 1, generate_node(kids[from], g.with_reg(from as u8)))
        } else {
            generate_arguments(kids, from + 1, g)
        }
    } else {
        g
    }
}

/// What a whole generation does: the walk of the tree, then the exit
/// sequence.
pub open spec fn generate(t: Tree, g: Emitted) -> Emitted {
    generate_node(t, g).emit_exit()
}

/// Every instruction of the sequence belongs to one of the seven valid
/// classes.
pub open spec fn all_valid_classes(instructions: Seq<BpfInstruction>) -> bool {
    forall|i: int|
        0 <= i < instructions.len() ==> has_valid_class((#[trigger] instructions[i]).opcode)
}

/// The digits before any point of a digit sequence have a value no greater
/// than the whole.
proof fn lemma_digits_grow(digits: Seq<char>, count: int)
    requires
        all_digits(digits),
        0 <= count <= digits.len(),
    ensures
        0 <= digits_value(digits.subrange(0, count)) <= digits_value(digits),
    decreases digits.len() - count,
{
    if count == digits.len() {
        assert(digits.subrange(0, count) =~= digits);
        lemma_digits_value_nonnegative(digits);
    } else {
        lemma_digits_step(digits, count);
        lemma_digits_grow(digits, count + 1);
        lemma_digits_value_nonnegative(digits.subrange(0, count));
    }
}

/// The value of a digit sequence is not negative.
proof fn lemma_digits_value_nonnegative(digits: Seq<char>)
    requires
        all_digits(digits),
    ensures
        0 <= digits_value(digits),
    decreases digits.len(),
{
    if digits.len() > 0 {
        assert(is_digit(digits[digits.len() - 1]));
        lemma_digits_value_nonnegative(digits.drop_last());
    }
}

/// One more digit multiplies the value by ten and adds the digit.
proof fn lemma_digits_step(digits: Seq<char>, count: int)
    requires
        0 <= count < digits.len(),
    ensures
        digits_value(digits.subrange(0, count + 1)) == 10 * digits_value(
            digits.subrange(0, count),
        ) + (digits[count] as int - '0' as int),
{
    assert(digits.subrange(0, count + 1).drop_last() =~= digits.subrange(0, count));
}

/// Reads a text as a 32-bit integer in decimal notation.
pub fn parse_integer(text: &str) -> (value: Option<i32>)
    ensures
        value == integer_of(text@),
{
    let chars = chars_of(text);
    let n = chars.len();
    if n == 0 {
        return None;
    }
    let negative = chars[0] == '-';
    let start: usize = if chars[0] == '-' || chars[0] == '+' {
        1
    } else {
        0
    };
    let ghost digits = chars@.subrange(start as int, n as int);
    assert(text@.subrange(0, n as int) =~= text@);
    if start == n {
        return None;
    }
    let mut acc: i64 = 0;
    let mut i: usize = start;
    assert(digits.subrange(0, 0) =~= Seq::<char>::empty());
    while i < n
        invariant
            n == chars@.len(),
            chars@ == text@,
            digits == chars@.subrange(start as int, n as int),
            text@.subrange(0, n as int) == text@,
            n > 0,
            negative == (chars@[0] == '-'),
            start == if chars@[0] == '-' || chars@[0] == '+' {
                1int
            } else {
                0int
            },
            start < n,
            start <= i <= n,
            0 <= acc <= 0x8000_0000,
            acc == digits_value(digits.subrange(0, i - start)),
            all_digits(digits.subrange(0, i - start)),
        decreases n - i,
    {
        let c = chars[i];
        if !('0' <= c && c <= '9') {
            assert(!is_digit(digits[i - start]));
            return None;
        }
        let digit = (c as u32 - '0' as u32) as i64;
        proof {
            lemma_digits_step(digits, i - start);
        }
        acc = acc * 10 + digit;
        i += 1;
        assert(all_digits(digits.subrange(0, i - start))) by {
            assert forall|j: int| 0 <= j < i - start implies is_digit(
                #[trigger] digits.subrange(0, i - start)[j],
            ) by {
                if j < i - start - 1 {
                    assert(digits.subrange(0, i - start - 1)[j] == digits[j]);
                }
            }
        }
        if acc > 0x8000_0000 {
            proof {
                if all_digits(digits) {
                    lemma_digits_grow(digits, i - start);
                }
            }
            return None;
        }
    }
    assert(digits.subrange(0, i - start) =~= digits);
    if negative {
        Some((-acc) as i32)
    } else if acc > 0x7fff_ffff {
        None
    } else {
        Some(acc as i32)
    }
}

/// The generator.
pub struct CodeGen {
    instructions: Vec<BpfInstruction>,
    current_reg: u8,
}

impl View for CodeGen {
    type V = Emitted;

    closed spec fn view(&self) -> Emitted {
        Emitted { code: self.instructions@, reg: self.current_reg }
    }
}

impl CodeGen {
    /// Creates a generator in the initial state.
    pub fn new() -> (generator: Self)
        ensures
            generator@ == initial_state(),
    {
        CodeGen { instructions: Vec::new(), current_reg: 1 }
    }

    /// Lowers a tree: walks it, appends the exit sequence, and gives all
    /// the instructions that the generator holds, those of earlier
    /// generations first. See [`generate`].
    ///
    /// Generation never fails. Its result is never empty: it ends with a
    /// move of zero into `R0` and with `exit`.
    pub fn generate(&mut self, ast: &Node) -> (result: Result<Vec<BpfInstruction>, CodeGenError>)
        ensures
            final(self)@ == generate(ast@, old(self)@),
            match result {
                Ok(code) => {
                    &&& code@ == final(self)@.code
                    &&& code@.len() >= old(self)@.code.len() + 2
                    &&& code@[code@.len() - 2] == move_immediate(0, 0)
                    &&& code@.last() == exit()
                    &&& code@.last().opcode == OP_EXIT
                },
                Err(_) => false,
            },
    {
        match self.visit_node(ast) {
            Ok(()) => {},
            Err(e) => {
                return Err(e);
            },
        }
        proof {
            lemma_generate_node_extends(ast@, old(self)@);
        }
        self.emit_exit(0);
        let code = self.instructions.clone();
        assert(code@ =~= self.instructions@);
        Ok(code)
    }

    /// Walks one node.
    fn visit_node(&mut self, node: &Node) -> (result: Result<(), CodeGenError>)
        ensures
            result is Ok,
            final(self)@ == generate_node(node@, old(self)@),
        decreases node, 1int,
    {
        proof {
            lemma_tree_kids(*node);
        }
        match node.node_type {
            NodeType::Program | NodeType::Block => self.visit_children(node),
            NodeType::FunctionDecl => self.generate_function(node),
            NodeType::Statement => {
                if Self::has_text(node, "return") {
                    if node.children.len() > 0 {
                        match self.visit_node(&node.children[0]) {
                            Ok(()) => {},
                            Err(e) => {
                                return Err(e);
                            },
                        }
                    }
                    self.emit_exit(0);
                    Ok(())
                } else {
                    self.visit_children(node)
                }
            },
            NodeType::Expression => {
                if Self::has_text(node, "call") {
                    self.generate_call(node)
                } else {
                    self.visit_children(node)
                }
            },
            NodeType::Identifier => Ok(()),
            NodeType::Literal => {
                match &node.value {
                    Some(text) => match parse_integer(text.as_str()) {
                        Some(value) => {
                            self.emit_move_immediate(self.current_reg, value);
                        },
                        None => {},
                    },
                    None => {},
                }
                Ok(())
            },
        }
    }

    /// Tells whether a node has the text `text`.
    fn has_text(node: &Node, text: &str) -> (has: bool)
        ensures
            has == (node@.text == Some(text@)),
    {
        proof {
            lemma_tree_kids(*node);
        }
        match &node.value {
            Some(value) => str_eq(value.as_str(), text),
            None => false,
        }
    }

    /// Walks the children of a node, in order.
    fn visit_children(&mut self, node: &Node) -> (result: Result<(), CodeGenError>)
        ensures
            result is Ok,
            final(self)@ == generate_nodes(node@.kids, 0, old(self)@),
        decreases node, 0int,
    {
        proof {
            lemma_tree_kids(*node);
        }
        let mut i: usize = 0;
        while i < node.children.len()
            invariant
                i <= node.children.len(),
                node@.kids == crate::parser::trees_of(node.children@),
                generate_nodes(node@.kids, i as int, self@) == generate_nodes(
                    node@.kids,
                    0,
                    old(self)@,
                ),
            decreases node.children.len() - i,
        {
            match self.visit_node(&node.children[i]) {
                Ok(()) => {},
                Err(e) => {
                    return Err(e);
                },
            }
            i += 1;
        }
        Ok(())
    }

    /// Walks the body of a function, its last child.
    fn generate_function(&mut self, node: &Node) -> (result: Result<(), CodeGenError>)
        ensures
            result is Ok,
            final(self)@ == if node@.kids.len() > 0 {
                generate_node(node@.kids.last(), old(self)@)
            } else {
                old(self)@
            },
        decreases node, 0int,
    {
        proof {
            lemma_tree_kids(*node);
        }
        let n = node.children.len();
        if n > 0 {
            self.visit_node(&node.children[n - 1])
        } else {
            Ok(())
        }
    }

    /// Lowers a call.
    fn generate_call(&mut self, node: &Node) -> (result: Result<(), CodeGenError>)
        ensures
            result is Ok,
            final(self)@ == generate_call(node@, old(self)@),
        decreases node, 0int,
    {
        proof {
            lemma_tree_kids(*node);
        }
        if node.children.len() == 0 {
            return Ok(());
        }
        proof {
            lemma_tree_kids(node.children@[0]);
        }
        match &node.children[0].value {
            None => {},
            Some(name) => {
                if str_eq(name.as_str(), "PrintF") {
                    let mut i: usize = 1;
                    while i < node.children.len()
                        invariant
                            1 <= i <= node.children.len(),
                            node@.kids == crate::parser::trees_of(node.children@),
                            generate_arguments(node@.kids, i as int, self@) == generate_arguments(
                                node@.kids,
                                1,
                                old(self)@,
                            ),
                        decreases node.children.len() - i,
                    {
                        if i <= MAX_CALL_ARGS {
                            self.current_reg = i as u8;
                            match self.visit_node(&node.children[i]) {
                                Ok(()) => {},
                                Err(e) => {
                                    return Err(e);
                                },
                            }
                        }
                        i += 1;
                    }
                    self.emit_call(PRINT_HELPER);
                } else {
                    let id = self.hash_function_name(name.as_str());
                    self.emit_call(id);
                }
            },
        }
        Ok(())
    }

    /// Computes the id that stands for a function that is no built-in: see
    /// [`function_id`].
    pub fn hash_function_name(&self, name: &str) -> (id: i32)
        ensures
            id == function_id(name@),
            100 <= id <= 1099,
    {
        let bytes = name.as_bytes();
        let mut hash: i32 = 0;
        let mut i: usize = 0;
        assert(bytes@.subrange(0, 0) =~= Seq::<u8>::empty());
        while i < bytes.len()
            invariant
                i <= bytes@.len(),
                hash == polynomial_hash(bytes@.subrange(0, i as int)),
            decreases bytes.len() - i,
        {
            assert(bytes@.subrange(0, i + 1).drop_last() =~= bytes@.subrange(0, i as int));
            hash = hash.wrapping_mul(31).wrapping_add(bytes[i] as i32);
            i += 1;
        }
        assert(bytes@.subrange(0, i as int) =~= bytes@);
        let wide = hash as i64;
        let magnitude = if wide < 0 {
            -wide
        } else {
            wide
        };
        (magnitude % 1000 + 100) as i32
    }

    /// Appends one instruction.
    fn emit_instruction(
        &mut self,
        opcode: u8,
        dst_reg: u8,
        src_reg: u8,
        offset: i16,
        immediate: i32,
    )
        ensures
            final(self)@ == old(self)@.emit(
                BpfInstruction { opcode, dst_reg, src_reg, offset, immediate },
            ),
    {
        let instruction = BpfInstruction::new(opcode, dst_reg, src_reg, offset, immediate);
        self.instructions.push(instruction);
    }

    /// Appends a move of `immediate` into register `dst_reg`.
    fn emit_move_immediate(&mut self, dst_reg: u8, immediate: i32)
        ensures
            final(self)@ == old(self)@.emit(move_immediate(dst_reg, immediate)),
    {
        self.emit_instruction(OP_MOV_IMM, dst_reg, 0, 0, immediate);
    }

    /// Appends a call of helper `func_id`.
    fn emit_call(&mut self, func_id: i32)
        ensures
            final(self)@ == old(self)@.emit(call(func_id)),
    {
        self.emit_instruction(OP_CALL, 0, 0, 0, func_id);
    }

    /// Appends a move of `exit_code` into `R0`, then `exit`.
    fn emit_exit(&mut self, exit_code: i32)
        ensures
            final(self)@ == old(self)@.emit(move_immediate(0, exit_code)).emit(exit()),
    {
        self.emit_move_immediate(0, exit_code);
        self.emit_instruction(OP_EXIT, 0, 0, 0, 0);
    }

    /// Tells whether every instruction belongs to one of the seven valid
    /// classes. The answer depends on the sequence alone, so that asking
    /// twice gives the same answer.
    pub fn validate_instructions(&self, instructions: &[BpfInstruction]) -> (valid: bool)
        ensures
            valid == all_valid_classes(instructions@),
    {
        let mut i: usize = 0;
        while i < instructions.len()
            invariant
                i <= instructions@.len(),
                all_valid_classes(instructions@.subrange(0, i as int)),
            decreases instructions.len() - i,
        {
            if !instructions[i].has_valid_class() {
                return false;
            }
            i += 1;
            assert forall|j: int| 0 <= j < i implies has_valid_class(
                (#[trigger] instructions@.subrange(0, i as int)[j]).opcode,
            ) by {
                if j < i - 1 {
                    assert(instructions@.subrange(0, i - 1)[j] == instructions@[j]);
                }
            }
        }
        assert(instructions@.subrange(0, i as int) =~= instructions@);
        true
    }
}

/// A walk only appends: what the generator held before is still there, in
/// front.
pub proof fn lemma_generate_node_extends(t: Tree, g: Emitted)
    ensures
        generate_node(t, g).code.len() >= g.code.len(),
        generate_node(t, g).code.subrange(0, g.code.len() as int) == g.code,
    decreases t, 1int,
{
    let n = g.code.len() as int;
    assert(g.code.subrange(0, n) =~= g.code);
    if t.kind == NodeType::FunctionDecl {
        if t.kids.len() > 0 {
            lemma_generate_node_extends(t.kids.last(), g);
        }
    } else if t.kind == NodeType::Statement && t.text == Some("return"@) {
        if t.kids.len() > 0 {
            lemma_generate_node_extends(t.kids[0], g);
            let inner = generate_node(t.kids[0], g);
            assert(inner.emit_exit().code.subrange(0, n) =~= inner.code.subrange(0, n));
        } else {
            assert(g.emit_exit().code.subrange(0, n) =~= g.code);
        }
    } else if t.kind == NodeType::Expression && t.text == Some("call"@) {
        lemma_generate_call_extends(t, g);
    } else if t.kind == NodeType::Identifier {
    } else if t.kind == NodeType::Literal {
        match t.text {
            Some(text) => match integer_of(text) {
                Some(value) => {
                    assert(g.emit(move_immediate(g.reg, value)).code.subrange(0, n) =~= g.code);
                },
                None => {},
            },
            None => {},
        }
    } else {
        lemma_generate_nodes_extend(t.kids, 0, g);
    }
}

/// A call only appends.
pub proof fn lemma_generate_call_extends(t: Tree, g: Emitted)
    ensures
        generate_call(t, g).code.len() >= g.code.len(),
        generate_call(t, g).code.subrange(0, g.code.len() as int) == g.code,
    decreases t, 0int,
{
    let n = g.code.len() as int;
    assert(g.code.subrange(0, n) =~= g.code);
    if t.kids.len() > 0 {
        match t.kids[0].text {
            None => {},
            Some(name) => if name == print_function() {
                lemma_generate_arguments_extend(t.kids, 1, g);
                let inner = generate_arguments(t.kids, 1, g);
                assert(inner.emit(call(PRINT_HELPER)).code.subrange(0, n) =~= inner.code.subrange(
                    0,
                    n,
                ));
            } else {
                assert(g.emit(call(function_id(name))).code.subrange(0, n) =~= g.code);
            },
        }
    }
}

/// The walk of several trees only appends.
pub proof fn lemma_generate_nodes_extend(trees: Seq<Tree>, from: int, g: Emitted)
    ensures
        generate_nodes(trees, from, g).code.len() >= g.code.len(),
        generate_nodes(trees, from, g).code.subrange(0, g.code.len() as int) == g.code,
    decreases trees, trees.len() - from,
{
    if 0 <= from < trees.len() {
        let next = generate_node(trees[from], g);
        lemma_generate_node_extends(trees[from], g);
        lemma_generate_nodes_extend(trees, from + 1, next);
        assert(generate_nodes(trees, from, g).code.subrange(0, g.code.len() as int)
            =~= generate_nodes(trees, from + 1, next).code.subrange(
            0,
            next.code.len() as int,
        ).subrange(0, g.code.len() as int));
    } else {
        assert(g.code.subrange(0, g.code.len() as int) =~= g.code);
    }
}

/// The walk of the arguments of a call only appends.
pub proof fn lemma_generate_arguments_extend(kids: Seq<Tree>, from: int, g: Emitted)
    ensures
        generate_arguments(kids, from, g).code.len() >= g.code.len(),
        generate_arguments(kids, from, g).code.subrange(0, g.code.len() as int) == g.code,
    decreases kids, kids.len() - from,
{
    if 1 <= from < kids.len() {
        if from <= MAX_CALL_ARGS {
            let next = generate_node(kids[from], g.with_reg(from as u8));
            lemma_generate_node_extends(kids[from], g.with_reg(from as u8));
            lemma_generate_arguments_extend(kids, from + 1, next);
            assert(generate_arguments(kids, from, g).code.subrange(0, g.code.len() as int)
                =~= generate_arguments(kids, from + 1, next).code.subrange(
                0,
                next.code.len() as int,
            ).subrange(0, g.code.len() as int));
        } else {
            lemma_generate_arguments_extend(kids, from + 1, g);
        }
    } else {
        assert(g.code.subrange(0, g.code.len() as int) =~= g.code);
    }
}

/// An instruction of one of the three shapes that the generator emits: a
/// move of an immediate into one of `R0` to `R5`, a call, or `exit`.
pub open spec fn is_generated(ins: BpfInstruction) -> bool {
    &&& ins.src_reg == 0
    &&& ins.offset == 0
    &&& ins.dst_reg <= MAX_CALL_ARGS
    &&& ins.opcode == OP_MOV_IMM || ins.opcode == OP_CALL || ins.opcode == OP_EXIT
}

/// Every instruction of the sequence has one of the generator's shapes.
pub open spec fn all_generated(code: Seq<BpfInstruction>) -> bool {
    forall|i: int| 0 <= i < code.len() ==> is_generated(#[trigger] code[i])
}

/// A generator state that only generation has led to: its instructions
/// have the generator's shapes, and its register is one of `R0` to `R5`.
pub open spec fn is_generated_state(g: Emitted) -> bool {
    all_generated(g.code) && g.reg <= MAX_CALL_ARGS
}

/// One more instruction of the generator's shapes keeps a state generated.
proof fn lemma_emit_shape(g: Emitted, ins: BpfInstruction)
    requires
        is_generated_state(g),
        is_generated(ins),
    ensures
        is_generated_state(g.emit(ins)),
{
    assert forall|i: int| 0 <= i < g.emit(ins).code.len() implies is_generated(
        #[trigger] g.emit(ins).code[i],
    ) by {
        if i < g.code.len() {
            assert(g.emit(ins).code[i] == g.code[i]);
        }
    }
}

/// The exit sequence keeps a state generated.
proof fn lemma_emit_exit_shape(g: Emitted)
    requires
        is_generated_state(g),
    ensures
        is_generated_state(g.emit_exit()),
{
    lemma_emit_shape(g, move_immediate(0, 0));
    lemma_emit_shape(g.emit(move_immediate(0, 0)), exit());
}

/// A walk emits nothing but the generator's three shapes.
pub proof fn lemma_generate_node_shapes(t: Tree, g: Emitted)
    requires
        is_generated_state(g),
    ensures
        is_generated_state(generate_node(t, g)),
    decreases t, 1int,
{
    if t.kind == NodeType::FunctionDecl {
        if t.kids.len() > 0 {
            lemma_generate_node_shapes(t.kids.last(), g);
        }
    } else if t.kind == NodeType::Statement && t.text == Some("return"@) {
        if t.kids.len() > 0 {
            lemma_generate_node_shapes(t.kids[0], g);
            lemma_emit_exit_shape(generate_node(t.kids[0], g));
        } else {
            lemma_emit_exit_shape(g);
        }
    } else if t.kind == NodeType::Expression && t.text == Some("call"@) {
        if t.kids.len() > 0 {
            match t.kids[0].text {
                None => {},
                Some(name) => if name == print_function() {
                    lemma_generate_arguments_shapes(t.kids, 1, g);
                    lemma_emit_shape(generate_arguments(t.kids, 1, g), call(PRINT_HELPER));
                } else {
                    lemma_emit_shape(g, call(function_id(name)));
                },
            }
        }
        assert(is_generated_state(generate_call(t, g)));
    } else if t.kind == NodeType::Identifier {
    } else if t.kind == NodeType::Literal {
        match t.text {
            Some(text) => match integer_of(text) {
                Some(value) => lemma_emit_shape(g, move_immediate(g.reg, value)),
                None => {},
            },
            None => {},
        }
    } else {
        lemma_generate_nodes_shapes(t.kids, 0, g);
    }
}

/// The walk of several trees emits nothing but the generator's shapes.
pub proof fn lemma_generate_nodes_shapes(trees: Seq<Tree>, from: int, g: Emitted)
    requires
        is_generated_state(g),
    ensures
        is_generated_state(generate_nodes(trees, from, g)),
    decreases trees, trees.len() - from,
{
    if 0 <= from < trees.len() {
        lemma_generate_node_shapes(trees[from], g);
        lemma_generate_nodes_shapes(trees, from + 1, generate_node(trees[from], g));
    }
}

/// The walk of the arguments of a call emits nothing but the generator's
/// shapes.
pub proof fn lemma_generate_arguments_shapes(kids: Seq<Tree>, from: int, g: Emitted)
    requires
        is_generated_state(g),
    ensures
        is_generated_state(generate_arguments(kids, from, g)),
    decreases kids, kids.len() - from,
{
    if 1 <= from < kids.len() {
        if from <= MAX_CALL_ARGS {
            lemma_generate_node_shapes(kids[from], g.with_reg(from as u8));
            lemma_generate_arguments_shapes(
                kids,
                from + 1,
                generate_node(kids[from], g.with_reg(from as u8)),
            );
        } else {
            lemma_generate_arguments_shapes(kids, from + 1, g);
        }
    }
}

/// What a generation from the initial state gives, whatever the tree: a
/// sequence that ends with `exit`, of instructions that all have the
/// generator's shapes and so belong to valid classes.
pub proof fn lemma_generated_program(t: Tree)
    ensures
        generate(t, initial_state()).code.len() >= 2,
        generate(t, initial_state()).code.last() == exit(),
        all_generated(generate(t, initial_state()).code),
        all_valid_classes(generate(t, initial_state()).code),
{
    lemma_generate_node_shapes(t, initial_state());
    lemma_emit_exit_shape(generate_node(t, initial_state()));
    let code = generate(t, initial_state()).code;
    assert(0xb7u8 & 0x07 == 0x07) by (bit_vector);
    assert(0x85u8 & 0x07 == 0x05) by (bit_vector);
    assert(0x95u8 & 0x07 == 0x05) by (bit_vector);
    assert forall|i: int| 0 <= i < code.len() implies has_valid_class(
        (#[trigger] code[i]).opcode,
    ) by {
        assert(is_generated(code[i]));
    }
}

} // verus!
