//! A compiler from HolyC, a small C-like language, to eight-byte BPF
//! bytecode, with an interpreter for that bytecode and the scaffolding and
//! structural validation that Solana programs need.
//!
//! The functions of the crate carry contracts, and Verus proves them; the
//! few that call into `std` where Verus cannot follow say so. Each stage is
//! defined by specification functions over plain mathematical values, and
//! computed by executable functions that are proved to agree with them.
//! The stages are, in the order in which a source text passes through
//! them:
//!
//! - [`lexer`]: from the text to tokens;
//! - [`parser`]: from the tokens to a syntax tree;
//! - [`codegen`]: from the tree to instructions;
//! - [`solana_bpf`]: the validation and the entry point for Solana;
//! - [`bpf_vm`]: the interpreter;
//! - [`compiler`]: all of them in a row, down to the bytes.
//!
//! [`instruction`] defines the instruction record and its wire format, on
//! which the later stages rest, and [`text`] what the stages need to know of
//! strings.

pub mod bpf_vm;
pub mod codegen;
pub mod compiler;
pub mod instruction;
pub mod lexer;
pub mod parser;
pub mod solana_bpf;
pub mod text;

pub use bpf_vm::{BpfVm, VmError, VmResult};
pub use codegen::{CodeGen, CodeGenError};
pub use compiler::{CompileError, CompileOptions, CompileTarget, Compiler};
pub use instruction::{BpfInstruction, Operation};
pub use lexer::{LexError, Lexer, Token, TokenType};
pub use parser::{Node, NodeType, ParseError, Parser};
pub use solana_bpf::{SolanaBpf, SolanaError};
