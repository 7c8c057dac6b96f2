//! The compiler: from a source text to bytecode, for one of three targets.
//!
//! A compilation tokenizes the text, parses the tokens, generates the
//! instructions and encodes them. The targets differ in what the
//! instructions must pass before they are encoded: the generator's own
//! check for the kernel target, the Solana adapter's stricter one for
//! Solana, and, if asked for, a run in the interpreter for the interpreter
//! target. [`compiled`] defines the outcome.

use crate::bpf_vm::{result_of, run, BpfVm, VmResult};
use crate::codegen::{
    all_valid_classes, generate, initial_state, lemma_generated_program, CodeGen,
};
use crate::instruction::{encoded, encoded_program, BpfInstruction};
use crate::lexer::{
    lemma_scan_ends_with_eof, max_source_bytes, scan_from, start_cursor, token_views, LexError,
    Lexer, TokenType, TokenView,
};
use crate::parser::{ends_after, parse_program, Parser, Tree};
use crate::solana_bpf::{
    is_valid_program, lemma_generated_program_valid, SolanaBpf, MAX_PROGRAM_LENGTH,
};
use crate::text::byte_length;
use std::path::Path;
use vstd::pervasive::unreached;
use vstd::prelude::*;
use vstd::string::StringExecFns;

verus! {

/// What a compilation is for.
#[derive(Debug, Clone, Copy, PartialEq, Eq, Structural)]
pub enum CompileTarget {
    /// The Linux kernel.
    LinuxBpf,
    /// The Solana runtime.
    SolanaBpf,
    /// The built-in interpreter.
    BpfVm,
}

/// How to compile, and where to put what comes out.
#[derive(Debug, Clone)]
pub struct CompileOptions<'a> {
    /// What the compilation is for.
    pub target: CompileTarget,
    /// Whether an interface description is written beside a Solana program.
    pub generate_idl: bool,
    /// Whether a program for the interpreter is run once in it.
    pub enable_vm_testing: bool,
    /// The id of the Solana program, if it has one.
    pub solana_program_id: Option<[u8; 32]>,
    /// The directory for the output, if it is not that of the source.
    pub output_directory: Option<&'a str>,
    /// The path of the output, if it is not derived from that of the source.
    pub output_path: Option<String>,
}

impl<'a> Default for CompileOptions<'a> {
    /// The kernel target, nothing extra, every path derived.
    fn default() -> (options: Self)
        ensures
            options.target == CompileTarget::LinuxBpf,
            !options.generate_idl,
            !options.enable_vm_testing,
            options.solana_program_id is None,
            options.output_directory is None,
            options.output_path is None,
    {
        CompileOptions {
            target: CompileTarget::LinuxBpf,
            generate_idl: false,
            enable_vm_testing: false,
            solana_program_id: None,
            output_directory: None,
            output_path: None,
        }
    }
}

/// `std::io::Error`, the error type of input and output, which the library
/// carries through and never looks into.
#[verifier::external_type_specification]
#[verifier::external_body]
pub struct ExIoError(std::io::Error);

/// Why a compilation failed.
#[derive(Debug)]
pub enum CompileError {
    /// The text could not be tokenized.
    LexError(String),
    /// The tokens could not be parsed.
    ParseError(String),
    /// The instructions could not be generated, or did not pass the
    /// target's check.
    CodeGenError(String),
    /// The syntax is invalid.
    InvalidSyntax(String),
    /// A variable is used that was not declared.
    UndefinedVariable(String),
    /// A function is called that was not declared.
    UndefinedFunction(String),
    /// Two types do not go together.
    TypeMismatch(String),
    /// The target is not supported.
    UnsupportedTarget(CompileTarget),
    /// The interface description could not be generated.
    IdlGenerationError(String),
    /// The run in the interpreter failed.
    VmExecutionError(String),
    /// A file could not be read or written.
    IoError(std::io::Error),
}

/// The message of the error for instructions that do not pass the
/// generator's check.
pub open spec fn invalid_instructions_message() -> Seq<char> {
    "Generated invalid BPF instructions"@
}

/// The message of the error for a program that the Solana adapter refuses.
pub open spec fn invalid_solana_program_message() -> Seq<char> {
    "Generated program violates Solana BPF constraints"@
}

/// The text that describes a tokenizer error in a compilation error: what
/// the `Debug` formatting of `std::fmt` makes of the error, which is the
/// name of the variant, then its fields in parentheses.
pub uninterp spec fn lex_error_text(error: LexError) -> Seq<char>;

/// Describes a tokenizer error, by `format!` with the `Debug` formatting
/// of `std::fmt`. Taken on trust: the text depends on the error alone.
#[verifier::external_body]
fn describe_lex_error(error: &LexError) -> (text: String)
    ensures
        text@ == lex_error_text(*error),
{
    format!("{:?}", error)
}

/// The file name of a path without its extension, by `Path::file_stem` of
/// `std::path`; `None` where the path has no file name. Nothing is claimed
/// of the text, which goes by the platform's rules for paths.
#[verifier::external_body]
fn path_file_stem(path: &str) -> (stem: Option<String>) {
    match Path::new(path).file_stem() {
        Some(stem) => match stem.to_str() {
            Some(text) => Some(text.to_string()),
            None => None,
        },
        None => None,
    }
}

/// The directory of a path, by `Path::parent` of `std::path`; `None` where
/// the path ends in a root or is empty. Nothing is claimed of the text.
#[verifier::external_body]
fn path_parent(path: &str) -> (parent: Option<String>) {
    match Path::new(path).parent() {
        Some(parent) => match parent.to_str() {
            Some(text) => Some(text.to_string()),
            None => None,
        },
        None => None,
    }
}

/// The path of `file` in the directory `directory`, by `Path::join` of
/// `std::path`. Nothing is claimed of the text.
#[verifier::external_body]
fn path_join(directory: &str, file: &str) -> (joined: Option<String>) {
    match Path::new(directory).join(file).to_str() {
        Some(text) => Some(text.to_string()),
        None => None,
    }
}

/// The tokens of a source text, or the error that ends the scan.
pub open spec fn tokens_of(source: Seq<char>) -> Result<Seq<TokenView>, LexError> {
    scan_from(source, start_cursor(), Seq::empty()).result
}

/// The syntax tree of a stream of tokens.
pub open spec fn tree_of_tokens(tokens: Seq<TokenView>) -> Tree {
    parse_program(tokens, 0).result->Ok_0
}

/// The instructions that a stream of tokens is compiled to.
pub open spec fn program_of(tokens: Seq<TokenView>) -> Seq<BpfInstruction> {
    generate(tree_of_tokens(tokens), initial_state()).code
}

/// The instructions pass what the target asks of them.
pub open spec fn accepted(target: CompileTarget, program: Seq<BpfInstruction>) -> bool {
    match target {
        CompileTarget::LinuxBpf => all_valid_classes(program),
        CompileTarget::SolanaBpf => is_valid_program(program),
        CompileTarget::BpfVm => true,
    }
}

/// The message of the error for instructions that the target refuses.
pub open spec fn refusal_message(target: CompileTarget) -> Seq<char> {
    match target {
        CompileTarget::SolanaBpf => invalid_solana_program_message(),
        _ => invalid_instructions_message(),
    }
}

/// What a compilation gives: the bytes of the instructions, or the text of
/// the error and whether it arose in the tokenizer.
pub ghost enum Compiled {
    /// The bytecode.
    Bytes(Seq<u8>),
    /// The tokenizer failed with this error.
    LexFailure(LexError),
    /// The target refused the instructions.
    Refused,
}

/// The outcome of compiling `source` for `target`.
///
/// Tokenizing may fail. Parsing cannot: what it cannot parse it leaves out.
/// Generating cannot either. The instructions must then pass the target's
/// check, and are encoded one after the other.
pub open spec fn compiled(source: Seq<char>, target: CompileTarget) -> Compiled {
    match tokens_of(source) {
        Err(e) => Compiled::LexFailure(e),
        Ok(tokens) => if accepted(target, program_of(tokens)) {
            Compiled::Bytes(encoded_program(program_of(tokens)))
        } else {
            Compiled::Refused
        },
    }
}

/// An executed compilation agrees with `outcome`.
pub open spec fn compiled_as(
    outcome: Compiled,
    target: CompileTarget,
    result: Result<Vec<u8>, CompileError>,
) -> bool {
    match outcome {
        Compiled::Bytes(bytes) => match result {
            Ok(code) => code@ == bytes,
            Err(_) => false,
        },
        Compiled::LexFailure(e) => match result {
            Err(CompileError::LexError(text)) => text@ == lex_error_text(e),
            _ => false,
        },
        Compiled::Refused => match result {
            Err(CompileError::CodeGenError(text)) => text@ == refusal_message(target),
            _ => false,
        },
    }
}

/// The compiler.
pub struct Compiler {
    error_messages: Vec<String>,
}

impl Compiler {
    /// Creates a compiler.
    pub fn new() -> (compiler: Self)
        ensures
            compiler.errors().len() == 0,
    {
        Compiler { error_messages: Vec::new() }
    }

    /// The messages that the compiler has collected.
    pub closed spec fn errors(&self) -> Seq<String> {
        self.error_messages@
    }

    /// Compiles a source text for the target that the options name: see
    /// [`compiled`]. The other options play no part, but that a program for
    /// the interpreter is run once in it if they ask for that; the run
    /// changes nothing in what comes out.
    pub fn compile(&self, source: &str, options: &CompileOptions) -> (result: Result<
        Vec<u8>,
        CompileError,
    >)
        requires
            byte_length(source@) <= max_source_bytes(),
        ensures
            compiled_as(compiled(source@, options.target), options.target, result),
            result is Ok ==> result->Ok_0@.len() % 8 == 0,
    {
        let mut lexer = Lexer::new(source);
        let tokens = match lexer.scan_tokens() {
            Ok(tokens) => tokens,
            Err(e) => {
                return Err(CompileError::LexError(describe_lex_error(&e)));
            },
        };
        proof {
            lemma_scan_ends_with_eof(source@, start_cursor(), Seq::empty());
            let stream = token_views(tokens@);
            assert(stream[stream.len() - 1].kind == TokenType::Eof);
            assert(ends_after(stream, 0));
        }
        let mut parser = Parser::new(tokens);
        let ast = match parser.parse() {
            Ok(ast) => ast,
            Err(_) => unreached(),
        };
        match options.target {
            CompileTarget::LinuxBpf => self.compile_linux_bpf(&ast, options),
            CompileTarget::SolanaBpf => self.compile_solana_bpf(&ast, options),
            CompileTarget::BpfVm => self.compile_for_vm(&ast, options),
        }
    }

    /// Generates and encodes for the kernel target.
    fn compile_linux_bpf(&self, ast: &crate::parser::Node, _options: &CompileOptions) -> (result:
        Result<Vec<u8>, CompileError>)
        ensures
            lowered_as(ast@, CompileTarget::LinuxBpf, result),
    {
        let mut codegen = CodeGen::new();
        let instructions = match codegen.generate(ast) {
            Ok(instructions) => instructions,
            Err(_) => unreached(),
        };
        if !codegen.validate_instructions(instructions.as_slice()) {
            return Err(
                CompileError::CodeGenError(String::from_str("Generated invalid BPF instructions")),
            );
        }
        Ok(self.instructions_to_bytes(instructions.as_slice()))
    }

    /// Generates and encodes for Solana.
    fn compile_solana_bpf(&self, ast: &crate::parser::Node, _options: &CompileOptions) -> (result:
        Result<Vec<u8>, CompileError>)
        ensures
            lowered_as(ast@, CompileTarget::SolanaBpf, result),
    {
        let mut codegen = CodeGen::new();
        let instructions = match codegen.generate(ast) {
            Ok(instructions) => instructions,
            Err(_) => unreached(),
        };
        let solana_codegen = SolanaBpf::new(&mut codegen);
        if !solana_codegen.validate_solana_program(instructions.as_slice()) {
            return Err(
                CompileError::CodeGenError(
                    String::from_str("Generated program violates Solana BPF constraints"),
                ),
            );
        }
        Ok(self.instructions_to_bytes(instructions.as_slice()))
    }

    /// Generates and encodes for the interpreter, and runs the program once
    /// if the options ask for it.
    fn compile_for_vm(&self, ast: &crate::parser::Node, options: &CompileOptions) -> (result:
        Result<Vec<u8>, CompileError>)
        ensures
            lowered_as(ast@, CompileTarget::BpfVm, result),
    {
        let mut codegen = CodeGen::new();
        let instructions = match codegen.generate(ast) {
            Ok(instructions) => instructions,
            Err(_) => unreached(),
        };
        if options.enable_vm_testing {
            match self.test_in_vm(instructions.as_slice()) {
                Ok(_) => {},
                Err(_) => unreached(),
            }
        }
        Ok(self.instructions_to_bytes(instructions.as_slice()))
    }

    /// Runs a program in a fresh interpreter and gives what the run
    /// reports. The run never fails.
    pub fn test_in_vm(&self, instructions: &[BpfInstruction]) -> (result: Result<
        VmResult,
        CompileError,
    >)
        ensures
            result matches Ok(report) && report == result_of(
                run(instructions@, crate::bpf_vm::initial_state()),
            ),
    {
        let mut vm = BpfVm::new(instructions);
        match vm.execute() {
            Ok(report) => Ok(report),
            Err(_) => unreached(),
        }
    }

    /// Encodes a sequence of instructions, eight bytes for each.
    pub fn instructions_to_bytes(&self, instructions: &[BpfInstruction]) -> (output: Vec<u8>)
        ensures
            output@ == encoded_program(instructions@),
            output@.len() == 8 * instructions@.len(),
    {
        let mut output: Vec<u8> = Vec::new();
        let mut i: usize = 0;
        while i < instructions.len()
            invariant
                i <= instructions@.len(),
                output@ == encoded_program(instructions@.subrange(0, i as int)),
            decreases instructions.len() - i,
        {
            let bytes = instructions[i].to_bytes();
            let ghost before = output@;
            let mut k: usize = 0;
            while k < 8
                invariant
                    k <= 8,
                    bytes@ == encoded(instructions@[i as int]),
                    output@ == before + bytes@.subrange(0, k as int),
                decreases 8 - k,
            {
                output.push(bytes[k]);
                k += 1;
                assert(output@ =~= before + bytes@.subrange(0, k as int));
            }
            i += 1;
            assert(output@ =~= encoded_program(instructions@.subrange(0, i as int))) by {
                let prefix = instructions@.subrange(0, i - 1);
                let whole = instructions@.subrange(0, i as int);
                assert(bytes@.subrange(0, 8) =~= bytes@);
                assert forall|j: int| 0 <= j < 8 * i implies output@[j] == encoded_program(
                    whole,
                )[j] by {
                    if j < 8 * (i - 1) {
                        assert(prefix[j / 8] == whole[j / 8]);
                    } else {
                        assert(j / 8 == i - 1);
                        assert(j % 8 == j - 8 * (i - 1));
                    }
                }
            }
        }
        assert(instructions@.subrange(0, i as int) =~= instructions@);
        output
    }

    /// Decides where the output of a compilation goes. A path that the
    /// options give is taken as it is. Else the file of
    /// [`Compiler::output_file_name`] is put into the directory of
    /// [`Compiler::output_directory`], by the platform's rules for paths.
    /// There is no path for a source path without a file name.
    pub fn determine_output_path(&self, input_path: &str, options: &CompileOptions) -> (path:
        Option<String>)
        ensures
            options.output_path matches Some(given) ==> path matches Some(taken) && taken@
                == given@,
    {
        if let Some(output_path) = &options.output_path {
            return Some(output_path.clone());
        }
        let file = match path_file_stem(input_path) {
            Some(stem) => Self::output_file_name(stem.as_str()),
            None => {
                return None;
            },
        };
        let directory = Self::output_directory(options, path_parent(input_path));
        path_join(directory.as_str(), file.as_str())
    }

    /// The name of the output file for a source whose file name, without
    /// its extension, is `stem`: the same name with the extension `bpf`.
    pub fn output_file_name(stem: &str) -> (name: String)
        ensures
            name@ == stem@ + ".bpf"@,
    {
        let mut name = String::from_str(stem);
        name.append(".bpf");
        name
    }

    /// The directory that the output goes to: the one that the options
    /// give; without one, the directory of the source, which is `parent`;
    /// without that too, the current directory.
    pub fn output_directory(options: &CompileOptions, parent: Option<String>) -> (directory:
        String)
        ensures
            directory@ == match options.output_directory {
                Some(given) => given@,
                None => match parent {
                    Some(parent) => parent@,
                    None => "."@,
                },
            },
    {
        match options.output_directory {
            Some(given) => String::from_str(given),
            None => match parent {
                Some(parent) => parent,
                None => String::from_str("."),
            },
        }
    }

    /// The messages that the compiler has collected; it collects none.
    pub fn get_errors(&self) -> (errors: &[String])
        ensures
            errors@ == self.errors(),
    {
        self.error_messages.as_slice()
    }
}

/// An executed generation and encoding of a tree agrees with what the
/// target asks: the bytes of the tree's instructions if the target accepts
/// them, else the error that says that it does not.
pub open spec fn lowered_as(
    tree: Tree,
    target: CompileTarget,
    result: Result<Vec<u8>, CompileError>,
) -> bool {
    let program = generate(tree, initial_state()).code;
    if accepted(target, program) {
        match result {
            Ok(code) => code@ == encoded_program(program),
            Err(_) => false,
        }
    } else {
        match result {
            Err(CompileError::CodeGenError(text)) => text@ == refusal_message(target),
            _ => false,
        }
    }
}

/// When a compilation succeeds. Once the text is tokenized, a compilation
/// for the kernel or for the interpreter always gives bytecode; one for
/// Solana gives bytecode unless the program has more than
/// [`MAX_PROGRAM_LENGTH`] instructions. The bytecode is never empty and
/// ends with the encoding of `exit`.
pub proof fn lemma_compiled(source: Seq<char>, target: CompileTarget)
    ensures
        match tokens_of(source) {
            Err(e) => compiled(source, target) == Compiled::LexFailure(e),
            Ok(tokens) => {
                let program = program_of(tokens);
                &&& program.len() >= 2
                &&& program.last() == crate::codegen::exit()
                &&& if target == CompileTarget::SolanaBpf && program.len() > MAX_PROGRAM_LENGTH {
                    compiled(source, target) == Compiled::Refused
                } else {
                    compiled(source, target) == Compiled::Bytes(encoded_program(program))
                }
            },
        },
{
    match tokens_of(source) {
        Err(e) => {},
        Ok(tokens) => {
            lemma_generated_program(tree_of_tokens(tokens));
            lemma_generated_program_valid(program_of(tokens));
        },
    }
}

} // verus!
