//! The tokenizer: from a source text to a stream of tokens.
//!
//! [`scan_from`] defines, as a function of the text and of the place where
//! scanning starts, which tokens come out or which error ends the scan, and
//! where the scan stops. [`Lexer::scan_tokens`] computes it.
//!
//! The tokenizer keeps two counts of how far it has come: the number of
//! characters that it has consumed, and the number of bytes that these take
//! in UTF-8. It consumes by the first and looks ahead by the second, taken
//! as a character index. In a text of one-byte characters the two agree. In
//! any other text the look-ahead runs in front of the consumed characters
//! once a wider character has gone by; this is part of what the functions
//! here define, and the model keeps both counts for it.

use crate::text::{
    byte_length, byte_offset, char_width, chars_of, lemma_byte_offset_step, str_eq, utf8_width,
};
use vstd::prelude::*;
use vstd::string::StrSliceExecFns;

verus! {

/// The kinds of token.
#[derive(Debug, Clone, Copy, PartialEq, Eq, Structural)]
pub enum TokenType {
    /// `U0`, the type without a value.
    U0,
    /// `U8`.
    U8,
    /// `U16`.
    U16,
    /// `U32`.
    U32,
    /// `U64`.
    U64,
    /// `I8`.
    I8,
    /// `I16`.
    I16,
    /// `I32`.
    I32,
    /// `I64`.
    I64,
    /// `F64`.
    F64,
    /// `Bool`.
    Bool,
    /// `if`.
    If,
    /// `else`.
    Else,
    /// `while`.
    While,
    /// `for`.
    For,
    /// `return`.
    Return,
    /// `break`.
    Break,
    /// `continue`.
    Continue,
    /// `class`.
    Class,
    /// `public`.
    Public,
    /// `private`.
    Private,
    /// `export`.
    Export,
    /// `PrintF`, the print function.
    PrintF,
    /// `(`.
    LeftParen,
    /// `)`.
    RightParen,
    /// `{`.
    LeftBrace,
    /// `}`.
    RightBrace,
    /// `[`.
    LeftBracket,
    /// `]`.
    RightBracket,
    /// `;`.
    Semicolon,
    /// `,`.
    Comma,
    /// `.`.
    Dot,
    /// `+`.
    Plus,
    /// `-`.
    Minus,
    /// `*`.
    Star,
    /// `/`.
    Slash,
    /// `%`.
    Percent,
    /// `=`.
    Equal,
    /// `==`.
    EqualEqual,
    /// `!`.
    Bang,
    /// `!=`.
    BangEqual,
    /// `<`.
    Less,
    /// `<=`.
    LessEqual,
    /// `>`.
    Greater,
    /// `>=`.
    GreaterEqual,
    /// `&&`.
    And,
    /// `||`.
    Or,
    /// A name that is no keyword.
    Identifier,
    /// A string literal, quotes included.
    StringLiteral,
    /// A number literal.
    NumberLiteral,
    /// `true`.
    True,
    /// `false`.
    False,
    /// The end marker: the last token of every stream.
    Eof,
    /// A token that was not recognized; the tokenizer never makes one.
    Invalid,
}

/// One token: its kind, its text as a slice of the source, and the line and
/// column that the tokenizer had reached when it made the token.
#[derive(Debug, Clone)]
pub struct Token<'a> {
    pub token_type: TokenType,
    pub lexeme: &'a str,
    pub line: usize,
    pub column: usize,
}

/// A token as a mathematical value.
pub ghost struct TokenView {
    pub kind: TokenType,
    pub text: Seq<char>,
    pub line: int,
    pub column: int,
}

impl<'a> View for Token<'a> {
    type V = TokenView;

    open spec fn view(&self) -> TokenView {
        TokenView {
            kind: self.token_type,
            text: self.lexeme@,
            line: self.line as int,
            column: self.column as int,
        }
    }
}

/// The tokens of a vector as mathematical values.
pub open spec fn token_views(tokens: Seq<Token>) -> Seq<TokenView> {
    tokens.map_values(|t: Token| t@)
}

/// Why a text could not be tokenized.
#[derive(Debug)]
pub enum LexError {
    /// A string literal was still open at the end of the text; the line is
    /// the one that the scan had reached.
    UnterminatedString(usize),
    /// A character that starts no token, with the line and column that the
    /// scan had reached after consuming it.
    InvalidCharacter(char, usize, usize),
}

/// How far a scan has come.
pub ghost struct Cursor {
    /// Number of characters consumed.
    pub position: int,
    /// Number of bytes that the consumed characters take in UTF-8.
    pub offset: int,
    /// The line counter; it starts at 1.
    pub line: int,
    /// The column counter; it starts at 1.
    pub column: int,
}

/// Where every scan starts.
pub open spec fn start_cursor() -> Cursor {
    Cursor { position: 0, offset: 0, line: 1, column: 1 }
}

/// The longest source that the tokenizer takes, in bytes: with it, no
/// counter leaves its type.
pub open spec fn max_source_bytes() -> int {
    (usize::MAX / 2) as int
}

/// A decimal digit.
pub open spec fn is_digit(c: char) -> bool {
    '0' <= c <= '9'
}

/// A letter of the ASCII alphabet.
pub open spec fn is_alpha(c: char) -> bool {
    'a' <= c <= 'z' || 'A' <= c <= 'Z'
}

/// A character that may stand in a name after its first one.
pub open spec fn is_word_char(c: char) -> bool {
    is_alpha(c) || is_digit(c) || c == '_'
}

/// The kind of token that a character is all by itself, if it is one.
pub open spec fn punctuation(c: char) -> Option<TokenType> {
    if c == '(' {
        Some(TokenType::LeftParen)
    } else if c == ')' {
        Some(TokenType::RightParen)
    } else if c == '{' {
        Some(TokenType::LeftBrace)
    } else if c == '}' {
        Some(TokenType::RightBrace)
    } else if c == '[' {
        Some(TokenType::LeftBracket)
    } else if c == ']' {
        Some(TokenType::RightBracket)
    } else if c == ';' {
        Some(TokenType::Semicolon)
    } else if c == ',' {
        Some(TokenType::Comma)
    } else if c == '.' {
        Some(TokenType::Dot)
    } else if c == '+' {
        Some(TokenType::Plus)
    } else if c == '-' {
        Some(TokenType::Minus)
    } else if c == '*' {
        Some(TokenType::Star)
    } else if c == '%' {
        Some(TokenType::Percent)
    } else {
        None
    }
}

/// The keyword that a word is, if it is one.
pub open spec fn keyword(text: Seq<char>) -> Option<TokenType> {
    if text == "U0"@ {
        Some(TokenType::U0)
    } else if text == "U8"@ {
        Some(TokenType::U8)
    } else if text == "U16"@ {
        Some(TokenType::U16)
    } else if text == "U32"@ {
        Some(TokenType::U32)
    } else if text == "U64"@ {
        Some(TokenType::U64)
    } else if text == "I8"@ {
        Some(TokenType::I8)
    } else if text == "I16"@ {
        Some(TokenType::I16)
    } else if text == "I32"@ {
        Some(TokenType::I32)
    } else if text == "I64"@ {
        Some(TokenType::I64)
    } else if text == "F64"@ {
        Some(TokenType::F64)
    } else if text == "Bool"@ {
        Some(TokenType::Bool)
    } else if text == "if"@ {
        Some(TokenType::If)
    } else if text == "else"@ {
        Some(TokenType::Else)
    } else if text == "while"@ {
        Some(TokenType::While)
    } else if text == "for"@ {
        Some(TokenType::For)
    } else if text == "return"@ {
        Some(TokenType::Return)
    } else if text == "break"@ {
        Some(TokenType::Break)
    } else if text == "continue"@ {
        Some(TokenType::Continue)
    } else if text == "class"@ {
        Some(TokenType::Class)
    } else if text == "public"@ {
        Some(TokenType::Public)
    } else if text == "private"@ {
        Some(TokenType::Private)
    } else if text == "export"@ {
        Some(TokenType::Export)
    } else if text == "true"@ {
        Some(TokenType::True)
    } else if text == "false"@ {
        Some(TokenType::False)
    } else if text == "PrintF"@ {
        Some(TokenType::PrintF)
    } else {
        None
    }
}

/// The character at `index`, or the NUL character where the text has none.
pub open spec fn char_at(src: Seq<char>, index: int) -> char {
    if 0 <= index < src.len() {
        src[index]
    } else {
        '\0'
    }
}

/// The scan has used up the text.
pub open spec fn at_end(src: Seq<char>, cur: Cursor) -> bool {
    cur.offset >= byte_length(src)
}

/// The character that the scan looks at: the one whose index is the byte
/// offset.
pub open spec fn peek(src: Seq<char>, cur: Cursor) -> char {
    char_at(src, cur.offset)
}

/// The character after the one that the scan looks at.
pub open spec fn peek_next(src: Seq<char>, cur: Cursor) -> char {
    char_at(src, cur.offset + 1)
}

/// The character that the scan consumes next.
pub open spec fn next_char(src: Seq<char>, cur: Cursor) -> char {
    char_at(src, cur.position)
}

/// The cursor after one character is consumed.
pub open spec fn advance(src: Seq<char>, cur: Cursor) -> Cursor {
    Cursor {
        position: if cur.position < src.len() {
            cur.position + 1
        } else {
            cur.position
        },
        offset: cur.offset + utf8_width(next_char(src, cur)),
        line: cur.line,
        column: cur.column + 1,
    }
}

/// The number of bytes that the scan has still before it.
pub open spec fn remaining(src: Seq<char>, cur: Cursor) -> nat {
    if cur.offset < byte_length(src) {
        (byte_length(src) - cur.offset) as nat
    } else {
        0
    }
}

/// The scan is not at the end and looks at `expected`.
pub open spec fn looks_at(src: Seq<char>, cur: Cursor, expected: char) -> bool {
    !at_end(src, cur) && peek(src, cur) == expected
}

/// The runs of characters that the scan skips in one go.
#[derive(Debug, Clone, Copy, PartialEq, Eq, Structural)]
pub enum CharClass {
    /// Everything up to the end of the line.
    NotNewline,
    /// Decimal digits.
    Digit,
    /// Letters, digits and the underscore.
    Word,
}

impl CharClass {
    /// The class has the character.
    pub open spec fn has(self, c: char) -> bool {
        match self {
            CharClass::NotNewline => c != '\n',
            CharClass::Digit => is_digit(c),
            CharClass::Word => is_word_char(c),
        }
    }
}

/// The cursor after the scan has consumed characters for as long as it
/// looked at one of `class`.
pub open spec fn skip_while(src: Seq<char>, cur: Cursor, class: CharClass) -> Cursor
    decreases remaining(src, cur),
{
    if !at_end(src, cur) && class.has(peek(src, cur)) {
        skip_while(src, advance(src, cur), class)
    } else {
        cur
    }
}

/// The cursor after the scan has consumed the inside of a string literal:
/// it consumes until it looks at a quote or the text ends, and starts a new
/// line whenever it looks at a line break.
pub open spec fn skip_string(src: Seq<char>, cur: Cursor) -> Cursor
    decreases remaining(src, cur),
{
    if !at_end(src, cur) && peek(src, cur) != '"' {
        let next = advance(src, cur);
        if peek(src, cur) == '\n' {
            skip_string(src, Cursor { line: cur.line + 1, column: 2, ..next })
        } else {
            skip_string(src, next)
        }
    } else {
        cur
    }
}

/// What the scan of one token gives: where the scan stands afterwards, and
/// a token, nothing, or an error.
pub ghost struct Scanned {
    pub cursor: Cursor,
    pub outcome: Result<Option<TokenView>, LexError>,
}

/// The scan made a token of kind `kind` from the characters between `start`
/// and `end`. The token carries the line and column of `end`; after it the
/// column is moved on once more, by the token's length in bytes.
pub open spec fn emit(src: Seq<char>, start: Cursor, end: Cursor, kind: TokenType) -> Scanned {
    Scanned {
        cursor: Cursor { column: end.column + (end.offset - start.offset), ..end },
        outcome: Ok(
            Some(
                TokenView {
                    kind,
                    text: src.subrange(start.position, end.position),
                    line: end.line,
                    column: end.column,
                },
            ),
        ),
    }
}

/// The scan consumed characters up to `end` and made no token of them.
pub open spec fn silent(end: Cursor) -> Scanned {
    Scanned { cursor: end, outcome: Ok(None) }
}

/// A token of one character, or of two if the scan looks at `second`.
pub open spec fn one_or_two(
    src: Seq<char>,
    start: Cursor,
    cur: Cursor,
    second: char,
    single: TokenType,
    double: TokenType,
) -> Scanned {
    if looks_at(src, cur, second) {
        emit(src, start, advance(src, cur), double)
    } else {
        emit(src, start, cur, single)
    }
}

/// A token made of twice the same character; one alone is dropped without
/// a word.
pub open spec fn pair_only(
    src: Seq<char>,
    start: Cursor,
    cur: Cursor,
    second: char,
    double: TokenType,
) -> Scanned {
    if looks_at(src, cur, second) {
        emit(src, start, advance(src, cur), double)
    } else {
        silent(cur)
    }
}

/// A string literal whose opening quote has been consumed.
pub open spec fn scan_string(src: Seq<char>, start: Cursor, cur: Cursor) -> Scanned {
    let body_end = skip_string(src, cur);
    if at_end(src, body_end) {
        Scanned {
            cursor: body_end,
            outcome: Err(LexError::UnterminatedString(body_end.line as usize)),
        }
    } else {
        emit(src, start, advance(src, body_end), TokenType::StringLiteral)
    }
}

/// A number literal whose first digit has been consumed: digits, then, if
/// a dot and a digit follow, the dot and more digits.
pub open spec fn scan_number(src: Seq<char>, start: Cursor, cur: Cursor) -> Scanned {
    let whole_end = skip_while(src, cur, CharClass::Digit);
    if looks_at(src, whole_end, '.') && is_digit(peek_next(src, whole_end)) {
        emit(
            src,
            start,
            skip_while(src, advance(src, whole_end), CharClass::Digit),
            TokenType::NumberLiteral,
        )
    } else {
        emit(src, start, whole_end, TokenType::NumberLiteral)
    }
}

/// A word whose first character has been consumed: a keyword if it is one,
/// else an identifier.
pub open spec fn scan_identifier(src: Seq<char>, start: Cursor, cur: Cursor) -> Scanned {
    let end = skip_while(src, cur, CharClass::Word);
    let kind = match keyword(src.subrange(start.position, end.position)) {
        Some(kind) => kind,
        None => TokenType::Identifier,
    };
    emit(src, start, end, kind)
}

/// The scan of one token from `start`.
///
/// Blanks, line breaks, `//` comments, and a single `&` or `|` give no
/// token. A character that starts nothing is an error.
pub open spec fn scan_token(src: Seq<char>, start: Cursor) -> Scanned {
    let c = next_char(src, start);
    let cur = advance(src, start);
    match punctuation(c) {
        Some(kind) => emit(src, start, cur, kind),
        None => if c == '/' {
            if looks_at(src, cur, '/') {
                silent(skip_while(src, advance(src, cur), CharClass::NotNewline))
            } else {
                emit(src, start, cur, TokenType::Slash)
            }
        } else if c == '=' {
            one_or_two(src, start, cur, '=', TokenType::Equal, TokenType::EqualEqual)
        } else if c == '!' {
            one_or_two(src, start, cur, '=', TokenType::Bang, TokenType::BangEqual)
        } else if c == '<' {
            one_or_two(src, start, cur, '=', TokenType::Less, TokenType::LessEqual)
        } else if c == '>' {
            one_or_two(src, start, cur, '=', TokenType::Greater, TokenType::GreaterEqual)
        } else if c == '&' {
            pair_only(src, start, cur, '&', TokenType::And)
        } else if c == '|' {
            pair_only(src, start, cur, '|', TokenType::Or)
        } else if c == ' ' || c == '\r' || c == '\t' {
            silent(cur)
        } else if c == '\n' {
            silent(Cursor { line: cur.line + 1, column: 1, ..cur })
        } else if c == '"' {
            scan_string(src, start, cur)
        } else if is_digit(c) {
            scan_number(src, start, cur)
        } else if is_alpha(c) || c == '_' {
            scan_identifier(src, start, cur)
        } else {
            Scanned {
                cursor: cur,
                outcome: Err(
                    LexError::InvalidCharacter(c, cur.line as usize, cur.column as usize),
                ),
            }
        },
    }
}

/// An executed scan of one token agrees with `scanned`: it stopped where
/// `scanned` stops, failed with the same error if `scanned` has one, and
/// else appended the token of `scanned`, if it has one, and nothing more.
pub open spec fn scanned_as(
    scanned: Scanned,
    cursor: Cursor,
    result: Result<(), LexError>,
    before: Seq<TokenView>,
    after: Seq<TokenView>,
) -> bool {
    &&& cursor == scanned.cursor
    &&& match scanned.outcome {
        Err(e) => result == Err::<(), LexError>(e) && after == before,
        Ok(Some(token)) => result is Ok && after == before.push(token),
        Ok(None) => result is Ok && after == before,
    }
}

/// The end marker that closes a stream when the scan stands at `cur`.
pub open spec fn eof_token(cur: Cursor) -> TokenView {
    TokenView { kind: TokenType::Eof, text: Seq::empty(), line: cur.line, column: cur.column }
}

/// What a whole scan gives: where it stopped, and the tokens or the error.
pub ghost struct ScanOutcome {
    pub cursor: Cursor,
    pub result: Result<Seq<TokenView>, LexError>,
}

/// The scan of everything from `cur` on, with `tokens` made so far: token
/// after token until the text ends, then the end marker; or the first
/// error.
pub open spec fn scan_from(src: Seq<char>, cur: Cursor, tokens: Seq<TokenView>) -> ScanOutcome
    decreases remaining(src, cur),
    via scan_from_decreases
{
    if at_end(src, cur) {
        ScanOutcome { cursor: cur, result: Ok(tokens.push(eof_token(cur))) }
    } else {
        let scanned = scan_token(src, cur);
        match scanned.outcome {
            Err(e) => ScanOutcome { cursor: scanned.cursor, result: Err(e) },
            Ok(Some(token)) => scan_from(src, scanned.cursor, tokens.push(token)),
            Ok(None) => scan_from(src, scanned.cursor, tokens),
        }
    }
}

#[via_fn]
proof fn scan_from_decreases(src: Seq<char>, cur: Cursor, tokens: Seq<TokenView>) {
    lemma_scan_token_moves(src, cur);
}

/// Skipping never moves the scan back.
pub proof fn lemma_skip_while_moves(src: Seq<char>, cur: Cursor, class: CharClass)
    ensures
        skip_while(src, cur, class).offset >= cur.offset,
    decreases remaining(src, cur),
{
    if !at_end(src, cur) && class.has(peek(src, cur)) {
        lemma_skip_while_moves(src, advance(src, cur), class);
    }
}

/// The inside of a string literal never moves the scan back.
pub proof fn lemma_skip_string_moves(src: Seq<char>, cur: Cursor)
    ensures
        skip_string(src, cur).offset >= cur.offset,
    decreases remaining(src, cur),
{
    if !at_end(src, cur) && peek(src, cur) != '"' {
        let next = advance(src, cur);
        if peek(src, cur) == '\n' {
            lemma_skip_string_moves(src, Cursor { line: cur.line + 1, column: 2, ..next });
        } else {
            lemma_skip_string_moves(src, next);
        }
    }
}

/// The scan of a token always moves on by a byte at least.
pub proof fn lemma_scan_token_moves(src: Seq<char>, cur: Cursor)
    ensures
        scan_token(src, cur).cursor.offset > cur.offset,
{
    let first = advance(src, cur);
    lemma_skip_while_moves(src, advance(src, first), CharClass::NotNewline);
    lemma_skip_string_moves(src, first);
    lemma_skip_while_moves(src, first, CharClass::Word);
    let whole_end = skip_while(src, first, CharClass::Digit);
    lemma_skip_while_moves(src, first, CharClass::Digit);
    lemma_skip_while_moves(src, advance(src, whole_end), CharClass::Digit);
}

/// A scan that succeeds ends its stream with the end marker.
pub proof fn lemma_scan_ends_with_eof(src: Seq<char>, cur: Cursor, tokens: Seq<TokenView>)
    ensures
        match scan_from(src, cur, tokens).result {
            Ok(stream) => stream.len() > tokens.len() && stream.last().kind == TokenType::Eof,
            Err(_) => true,
        },
    decreases remaining(src, cur),
{
    if !at_end(src, cur) {
        lemma_scan_token_moves(src, cur);
        let scanned = scan_token(src, cur);
        match scanned.outcome {
            Err(e) => {},
            Ok(Some(token)) => lemma_scan_ends_with_eof(src, scanned.cursor, tokens.push(token)),
            Ok(None) => lemma_scan_ends_with_eof(src, scanned.cursor, tokens),
        }
    }
}

/// Looks a character up among the tokens of one character.
fn punctuation_type(c: char) -> (kind: Option<TokenType>)
    ensures
        kind == punctuation(c),
{
    if c == '(' {
        Some(TokenType::LeftParen)
    } else if c == ')' {
        Some(TokenType::RightParen)
    } else if c == '{' {
        Some(TokenType::LeftBrace)
    } else if c == '}' {
        Some(TokenType::RightBrace)
    } else if c == '[' {
        Some(TokenType::LeftBracket)
    } else if c == ']' {
        Some(TokenType::RightBracket)
    } else if c == ';' {
        Some(TokenType::Semicolon)
    } else if c == ',' {
        Some(TokenType::Comma)
    } else if c == '.' {
        Some(TokenType::Dot)
    } else if c == '+' {
        Some(TokenType::Plus)
    } else if c == '-' {
        Some(TokenType::Minus)
    } else if c == '*' {
        Some(TokenType::Star)
    } else if c == '%' {
        Some(TokenType::Percent)
    } else {
        None
    }
}

/// Looks a word up among the keywords.
fn keyword_type(text: &str) -> (kind: Option<TokenType>)
    ensures
        kind == keyword(text@),
{
    if str_eq(text, "U0") {
        Some(TokenType::U0)
    } else if str_eq(text, "U8") {
        Some(TokenType::U8)
    } else if str_eq(text, "U16") {
        Some(TokenType::U16)
    } else if str_eq(text, "U32") {
        Some(TokenType::U32)
    } else if str_eq(text, "U64") {
        Some(TokenType::U64)
    } else if str_eq(text, "I8") {
        Some(TokenType::I8)
    } else if str_eq(text, "I16") {
        Some(TokenType::I16)
    } else if str_eq(text, "I32") {
        Some(TokenType::I32)
    } else if str_eq(text, "I64") {
        Some(TokenType::I64)
    } else if str_eq(text, "F64") {
        Some(TokenType::F64)
    } else if str_eq(text, "Bool") {
        Some(TokenType::Bool)
    } else if str_eq(text, "if") {
        Some(TokenType::If)
    } else if str_eq(text, "else") {
        Some(TokenType::Else)
    } else if str_eq(text, "while") {
        Some(TokenType::While)
    } else if str_eq(text, "for") {
        Some(TokenType::For)
    } else if str_eq(text, "return") {
        Some(TokenType::Return)
    } else if str_eq(text, "break") {
        Some(TokenType::Break)
    } else if str_eq(text, "continue") {
        Some(TokenType::Continue)
    } else if str_eq(text, "class") {
        Some(TokenType::Class)
    } else if str_eq(text, "public") {
        Some(TokenType::Public)
    } else if str_eq(text, "private") {
        Some(TokenType::Private)
    } else if str_eq(text, "export") {
        Some(TokenType::Export)
    } else if str_eq(text, "true") {
        Some(TokenType::True)
    } else if str_eq(text, "false") {
        Some(TokenType::False)
    } else if str_eq(text, "PrintF") {
        Some(TokenType::PrintF)
    } else {
        None
    }
}

/// Tells whether a character is a decimal digit.
fn is_ascii_digit(c: char) -> (digit: bool)
    ensures
        digit == is_digit(c),
{
    '0' <= c && c <= '9'
}

/// Tells whether a character is a letter of the ASCII alphabet.
fn is_ascii_alphabetic(c: char) -> (alpha: bool)
    ensures
        alpha == is_alpha(c),
{
    ('a' <= c && c <= 'z') || ('A' <= c && c <= 'Z')
}

/// Tells whether a class of characters has a character.
fn class_has(class: CharClass, c: char) -> (has: bool)
    ensures
        has == class.has(c),
{
    match class {
        CharClass::NotNewline => c != '\n',
        CharClass::Digit => is_ascii_digit(c),
        CharClass::Word => is_ascii_alphabetic(c) || is_ascii_digit(c) || c == '_',
    }
}

/// The most characters that a source may have for [`source_fits`] to
/// accept it without looking at them.
pub open spec fn max_source_chars() -> int {
    (usize::MAX / 8) as int
}

/// A text of no more than [`max_source_chars`] characters is within
/// [`max_source_bytes`].
pub proof fn lemma_short_source_fits(src: Seq<char>)
    requires
        src.len() <= max_source_chars(),
    ensures
        byte_length(src) <= max_source_bytes(),
    decreases src.len(),
{
    lemma_byte_length_bound(src, src.len() as int);
    assert(src.subrange(0, src.len() as int) =~= src);
}

/// The first `count` characters of a text take four bytes each at most.
proof fn lemma_byte_length_bound(src: Seq<char>, count: int)
    requires
        0 <= count <= src.len(),
    ensures
        byte_offset(src, count) <= 4 * count,
    decreases count,
{
    lemma_byte_offset_step(src, count);
    if count > 0 {
        lemma_byte_length_bound(src, count - 1);
        lemma_byte_offset_step(src, count - 1);
    }
}

/// Tells whether a source is short enough for the tokenizer, by the number
/// of its characters. Whatever it accepts, [`Lexer::new`] takes.
pub fn source_fits(source: &str) -> (fits: bool)
    ensures
        fits == (source@.len() <= max_source_chars()),
        fits ==> byte_length(source@) <= max_source_bytes(),
{
    let fits = source.unicode_len() <= usize::MAX / 8;
    proof {
        if fits {
            lemma_short_source_fits(source@);
        }
    }
    fits
}

/// The tokenizer of one source text.
pub struct Lexer<'a> {
    source: &'a str,
    chars: Vec<char>,
    byte_len: usize,
    position: usize,
    current: usize,
    line: usize,
    column: usize,
    start: usize,
    start_position: usize,
}

impl<'a> Lexer<'a> {
    /// The text that the tokenizer scans.
    pub closed spec fn source(&self) -> Seq<char> {
        self.source@
    }

    /// How far the tokenizer has come.
    pub closed spec fn cursor(&self) -> Cursor {
        Cursor {
            position: self.position as int,
            offset: self.current as int,
            line: self.line as int,
            column: self.column as int,
        }
    }

    /// Where the token that is being scanned began.
    closed spec fn token_start(&self) -> Cursor {
        Cursor {
            position: self.start_position as int,
            offset: self.start as int,
            line: self.line as int,
            column: self.column as int,
        }
    }

    /// The tokenizer's invariant: its counts agree with each other and
    /// with the text, and none can leave its type.
    pub closed spec fn wf(&self) -> bool {
        &&& self.chars@ == self.source@
        &&& self.byte_len == byte_length(self.source@)
        &&& self.byte_len <= max_source_bytes()
        &&& self.position <= self.chars@.len()
        &&& self.current == byte_offset(self.source@, self.position as int)
        &&& self.start_position <= self.position
        &&& self.start <= self.current
        &&& 1 <= self.line <= 1 + self.position
        &&& 1 <= self.column <= 1 + self.position + self.start
    }

    /// What the invariant bounds.
    proof fn lemma_bounds(&self)
        requires
            self.wf(),
        ensures
            self.position <= self.current <= self.byte_len,
            self.current < self.byte_len ==> self.position < self.chars@.len(),
            self.position < self.chars@.len() ==> self.current + utf8_width(
                self.chars@[self.position as int],
            ) == byte_offset(self.source@, self.position + 1),
            self.position < self.chars@.len() ==> self.current + utf8_width(
                self.chars@[self.position as int],
            ) <= self.byte_len,
            2 * self.byte_len + 1 <= usize::MAX,
    {
        lemma_byte_offset_step(self.source@, self.position as int);
        if self.position < self.chars@.len() {
            lemma_byte_offset_step(self.source@, self.position + 1);
        }
    }

    /// Creates a tokenizer that stands at the start of `source`.
    pub fn new(source: &'a str) -> (lexer: Self)
        requires
            byte_length(source@) <= max_source_bytes(),
        ensures
            lexer.wf(),
            lexer.source() == source@,
            lexer.cursor() == start_cursor(),
    {
        let chars = chars_of(source);
        let byte_len = source.len();
        proof {
            lemma_byte_offset_step(source@, 0);
        }
        Lexer {
            source,
            chars,
            byte_len,
            position: 0,
            current: 0,
            line: 1,
            column: 1,
            start: 0,
            start_position: 0,
        }
    }

    /// Tells whether the text is used up.
    fn is_at_end(&self) -> (end: bool)
        requires
            self.wf(),
        ensures
            end == at_end(self.source(), self.cursor()),
    {
        self.current >= self.byte_len
    }

    /// The character that the scan looks at.
    fn peek(&self) -> (c: char)
        requires
            self.wf(),
        ensures
            c == peek(self.source(), self.cursor()),
    {
        if self.current < self.chars.len() {
            self.chars[self.current]
        } else {
            '\0'
        }
    }

    /// The character after the one that the scan looks at.
    fn peek_next(&self) -> (c: char)
        requires
            self.wf(),
        ensures
            c == peek_next(self.source(), self.cursor()),
    {
        proof {
            self.lemma_bounds();
        }
        if self.current + 1 < self.chars.len() {
            self.chars[self.current + 1]
        } else {
            '\0'
        }
    }

    /// Consumes one character.
    fn advance(&mut self) -> (c: char)
        requires
            old(self).wf(),
            !at_end(old(self).source(), old(self).cursor()),
        ensures
            final(self).wf(),
            final(self).source() == old(self).source(),
            final(self).cursor() == advance(old(self).source(), old(self).cursor()),
            final(self).start == old(self).start,
            final(self).start_position == old(self).start_position,
            c == next_char(old(self).source(), old(self).cursor()),
    {
        proof {
            self.lemma_bounds();
        }
        let c = self.chars[self.position];
        self.position += 1;
        self.current += char_width(c);
        self.column += 1;
        c
    }

    /// Consumes the character that the scan looks at if it is `expected`.
    fn match_char(&mut self, expected: char) -> (matched: bool)
        requires
            old(self).wf(),
        ensures
            final(self).wf(),
            final(self).source() == old(self).source(),
            final(self).start == old(self).start,
            final(self).start_position == old(self).start_position,
            matched == looks_at(old(self).source(), old(self).cursor(), expected),
            final(self).cursor() == if matched {
                advance(old(self).source(), old(self).cursor())
            } else {
                old(self).cursor()
            },
    {
        if self.is_at_end() || self.peek() != expected {
            return false;
        }
        self.advance();
        true
    }

    /// Consumes characters for as long as the scan looks at one of `class`.
    fn skip(&mut self, class: CharClass)
        requires
            old(self).wf(),
        ensures
            final(self).wf(),
            final(self).source() == old(self).source(),
            final(self).start == old(self).start,
            final(self).start_position == old(self).start_position,
            final(self).cursor() == skip_while(old(self).source(), old(self).cursor(), class),
    {
        while !self.is_at_end() && class_has(class, self.peek())
            invariant
                self.wf(),
                self.source() == old(self).source(),
                self.start == old(self).start,
                self.start_position == old(self).start_position,
                skip_while(self.source(), self.cursor(), class) == skip_while(
                    old(self).source(),
                    old(self).cursor(),
                    class,
                ),
            decreases remaining(self.source(), self.cursor()),
        {
            self.advance();
        }
    }

    /// Makes a token of the characters consumed since the token began.
    fn add_token(&mut self, tokens: &mut Vec<Token<'a>>, token_type: TokenType)
        requires
            old(self).wf(),
        ensures
            final(self).wf(),
            final(self).source() == old(self).source(),
            ({
                let emitted = emit(
                    old(self).source(),
                    old(self).token_start(),
                    old(self).cursor(),
                    token_type,
                );
                &&& final(self).cursor() == emitted.cursor
                &&& emitted.outcome == Ok::<Option<TokenView>, LexError>(
                    Some(token_views(final(tokens)@).last()),
                )
                &&& token_views(final(tokens)@) == token_views(old(tokens)@).push(
                    token_views(final(tokens)@).last(),
                )
            }),
    {
        proof {
            self.lemma_bounds();
        }
        let lexeme = self.source.substring_char(self.start_position, self.position);
        let token = Token { token_type, lexeme, line: self.line, column: self.column };
        tokens.push(token);
        assert(token_views(tokens@) =~= token_views(old(tokens)@).push(token@));
        self.column += self.current - self.start;
        self.start = self.current;
        self.start_position = self.position;
    }

    /// Scans a string literal whose opening quote has been consumed.
    fn string(&mut self, tokens: &mut Vec<Token<'a>>) -> (result: Result<(), LexError>)
        requires
            old(self).wf(),
        ensures
            final(self).wf(),
            final(self).source() == old(self).source(),
            scanned_as(
                scan_string(old(self).source(), old(self).token_start(), old(self).cursor()),
                final(self).cursor(),
                result,
                token_views(old(tokens)@),
                token_views(final(tokens)@),
            ),
    {
        while !self.is_at_end() && self.peek() != '"'
            invariant
                self.wf(),
                self.source() == old(self).source(),
                self.start == old(self).start,
                self.start_position == old(self).start_position,
                tokens == old(tokens),
                skip_string(self.source(), self.cursor()) == skip_string(
                    old(self).source(),
                    old(self).cursor(),
                ),
            decreases remaining(self.source(), self.cursor()),
        {
            let line_break = self.peek() == '\n';
            self.advance();
            if line_break {
                proof {
                    self.lemma_bounds();
                }
                self.line += 1;
                self.column = 2;
            }
        }
        if self.is_at_end() {
            return Err(LexError::UnterminatedString(self.line));
        }
        self.advance();
        self.add_token(tokens, TokenType::StringLiteral);
        Ok(())
    }

    /// Scans a number literal whose first digit has been consumed.
    fn number(&mut self, tokens: &mut Vec<Token<'a>>)
        requires
            old(self).wf(),
        ensures
            final(self).wf(),
            final(self).source() == old(self).source(),
            scanned_as(
                scan_number(old(self).source(), old(self).token_start(), old(self).cursor()),
                final(self).cursor(),
                Ok(()),
                token_views(old(tokens)@),
                token_views(final(tokens)@),
            ),
    {
        self.skip(CharClass::Digit);
        if !self.is_at_end() && self.peek() == '.' && is_ascii_digit(self.peek_next()) {
            self.advance();
            self.skip(CharClass::Digit);
        }
        self.add_token(tokens, TokenType::NumberLiteral);
    }

    /// Scans a word whose first character has been consumed.
    fn identifier(&mut self, tokens: &mut Vec<Token<'a>>)
        requires
            old(self).wf(),
        ensures
            final(self).wf(),
            final(self).source() == old(self).source(),
            scanned_as(
                scan_identifier(old(self).source(), old(self).token_start(), old(self).cursor()),
                final(self).cursor(),
                Ok(()),
                token_views(old(tokens)@),
                token_views(final(tokens)@),
            ),
    {
        self.skip(CharClass::Word);
        let text = self.source.substring_char(self.start_position, self.position);
        let token_type = match keyword_type(text) {
            Some(kind) => kind,
            None => TokenType::Identifier,
        };
        self.add_token(tokens, token_type);
    }

    /// Scans one token and appends it to `tokens`, if the scan makes one.
    fn scan_token(&mut self, tokens: &mut Vec<Token<'a>>) -> (result: Result<(), LexError>)
        requires
            old(self).wf(),
            !at_end(old(self).source(), old(self).cursor()),
            old(self).start == old(self).current,
            old(self).start_position == old(self).position,
        ensures
            final(self).wf(),
            final(self).source() == old(self).source(),
            scanned_as(
                scan_token(old(self).source(), old(self).cursor()),
                final(self).cursor(),
                result,
                token_views(old(tokens)@),
                token_views(final(tokens)@),
            ),
    {
        let c = self.advance();
        match punctuation_type(c) {
            Some(kind) => {
                self.add_token(tokens, kind);
            },
            None => {
                if c == '/' {
                    if self.match_char('/') {
                        self.skip(CharClass::NotNewline);
                    } else {
                        self.add_token(tokens, TokenType::Slash);
                    }
                } else if c == '=' {
                    let kind = if self.match_char('=') {
                        TokenType::EqualEqual
                    } else {
                        TokenType::Equal
                    };
                    self.add_token(tokens, kind);
                } else if c == '!' {
                    let kind = if self.match_char('=') {
                        TokenType::BangEqual
                    } else {
                        TokenType::Bang
                    };
                    self.add_token(tokens, kind);
                } else if c == '<' {
                    let kind = if self.match_char('=') {
                        TokenType::LessEqual
                    } else {
                        TokenType::Less
                    };
                    self.add_token(tokens, kind);
                } else if c == '>' {
                    let kind = if self.match_char('=') {
                        TokenType::GreaterEqual
                    } else {
                        TokenType::Greater
                    };
                    self.add_token(tokens, kind);
                } else if c == '&' {
                    if self.match_char('&') {
                        self.add_token(tokens, TokenType::And);
                    }
                } else if c == '|' {
                    if self.match_char('|') {
                        self.add_token(tokens, TokenType::Or);
                    }
                } else if c == ' ' || c == '\r' || c == '\t' {
                } else if c == '\n' {
                    proof {
                        self.lemma_bounds();
                    }
                    self.line += 1;
                    self.column = 1;
                } else if c == '"' {
                    return self.string(tokens);
                } else if is_ascii_digit(c) {
                    self.number(tokens);
                } else if is_ascii_alphabetic(c) || c == '_' {
                    self.identifier(tokens);
                } else {
                    return Err(LexError::InvalidCharacter(c, self.line, self.column));
                }
            },
        }
        Ok(())
    }

    /// Scans the text from where the tokenizer stands to its end.
    ///
    /// On success the stream holds every token in order and ends with the
    /// end marker, which carries the line and column that the scan reached.
    /// The first error ends the scan where it arose. [`scan_from`] says
    /// which of these happens, and with what.
    pub fn scan_tokens(&mut self) -> (result: Result<Vec<Token<'a>>, LexError>)
        requires
            old(self).wf(),
        ensures
            final(self).wf(),
            final(self).source() == old(self).source(),
            ({
                let outcome = scan_from(old(self).source(), old(self).cursor(), Seq::empty());
                &&& final(self).cursor() == outcome.cursor
                &&& match outcome.result {
                    Ok(stream) => match result {
                        Ok(tokens) => token_views(tokens@) == stream,
                        Err(_) => false,
                    },
                    Err(e) => result == Err::<Vec<Token<'a>>, LexError>(e),
                }
            }),
            match result {
                Ok(tokens) => tokens@.len() > 0 && tokens@.last().token_type == TokenType::Eof,
                Err(_) => true,
            },
    {
        let mut tokens: Vec<Token<'a>> = Vec::new();
        assert(token_views(tokens@) =~= Seq::empty());
        while !self.is_at_end()
            invariant
                self.wf(),
                self.source() == old(self).source(),
                scan_from(self.source(), self.cursor(), token_views(tokens@)) == scan_from(
                    old(self).source(),
                    old(self).cursor(),
                    Seq::empty(),
                ),
            decreases remaining(self.source(), self.cursor()),
        {
            proof {
                lemma_scan_token_moves(self.source(), self.cursor());
            }
            self.start = self.current;
            self.start_position = self.position;
            match self.scan_token(&mut tokens) {
                Ok(()) => {},
                Err(e) => {
                    return Err(e);
                },
            }
        }
        let eof = Token {
            token_type: TokenType::Eof,
            lexeme: "",
            line: self.line,
            column: self.column,
        };
        proof {
            reveal_strlit("");
            assert(eof@.text =~= Seq::<char>::empty());
        }
        tokens.push(eof);
        assert(token_views(tokens@) =~= token_views(tokens@.drop_last()).push(eof@));
        Ok(tokens)
    }
}

} // verus!
