//! The syntax analyzer: from a stream of tokens to a syntax tree.
//!
//! A tree is made of [`Node`]s; [`Tree`] is the same tree as a mathematical
//! value, and [`parse_program`] defines the tree that a stream of tokens
//! stands for. [`Parser::parse`] computes it.
//!
//! The definitions are recursive, and where one goes on from the place
//! that another has reached, it first tests that the analyzer has
//! [`moved`]. The test never fails, since no construct is parsed without a
//! token being consumed. It is what shows that the recursion ends.
//!
//! The analyzer is lenient. A declaration that cannot be parsed is left out
//! of the tree: the analyzer moves on to the next place where a statement
//! may start, and goes on from there. So [`Parser::parse`] never fails,
//! and a tree may miss declarations that the source has.

use crate::lexer::{token_views, Token, TokenType, TokenView};
use vstd::prelude::*;
use vstd::string::StringExecFns;

verus! {

/// Why a declaration could not be parsed.
#[derive(Debug)]
pub enum ParseError {
    /// No expression starts with this token; with the token's line.
    UnexpectedToken(TokenType, usize),
    /// The token `expected` had to come here, and `found` came, on `line`.
    ExpectedToken { expected: TokenType, found: TokenType, line: usize },
    /// The stream ended too early.
    UnexpectedEof,
}

/// The kinds of node.
#[derive(Debug, Clone, Copy, PartialEq, Eq, Structural)]
pub enum NodeType {
    Program,
    FunctionDecl,
    Block,
    Statement,
    Expression,
    Identifier,
    Literal,
}

/// A node of the syntax tree: its kind, an optional text, and its children
/// in order.
#[derive(Debug)]
pub struct Node {
    pub node_type: NodeType,
    pub value: Option<String>,
    pub children: Vec<Node>,
}

/// A syntax tree as a mathematical value.
pub ghost struct Tree {
    pub kind: NodeType,
    pub text: Option<Seq<char>>,
    pub kids: Seq<Tree>,
}

/// The tree that a node is the root of.
pub open spec fn tree_of(node: Node) -> Tree
    decreases node,
{
    Tree {
        kind: node.node_type,
        text: match node.value {
            Some(text) => Some(text@),
            None => None,
        },
        kids: Seq::new(
            node.children@.len(),
            |i: int|
                if 0 <= i < node.children@.len() {
                    tree_of(node.children@[i])
                } else {
                    arbitrary()
                },
        ),
    }
}

impl View for Node {
    type V = Tree;

    open spec fn view(&self) -> Tree {
        tree_of(*self)
    }
}

impl Tree {
    /// A node of kind `kind` without text or children.
    pub open spec fn leaf(kind: NodeType) -> Tree {
        Tree { kind, text: None, kids: Seq::empty() }
    }

    /// A node of kind `kind` with text `text` and without children.
    pub open spec fn labelled(kind: NodeType, text: Seq<char>) -> Tree {
        Tree { kind, text: Some(text), kids: Seq::empty() }
    }

    /// The tree with one more child, after those that it has.
    pub open spec fn with_child(self, child: Tree) -> Tree {
        Tree { kids: self.kids.push(child), ..self }
    }

    /// The tree with more children, after those that it has.
    pub open spec fn with_children(self, children: Seq<Tree>) -> Tree {
        Tree { kids: self.kids + children, ..self }
    }
}

/// The children of a node, as trees.
pub open spec fn trees_of(nodes: Seq<Node>) -> Seq<Tree> {
    nodes.map_values(|n: Node| n@)
}

/// The children of a tree are the trees of the node's children.
pub proof fn lemma_tree_kids(node: Node)
    ensures
        node@.kids == trees_of(node.children@),
        node@.kind == node.node_type,
        node.value is None ==> node@.text is None,
        node.value is Some ==> node@.text == Some(node.value->Some_0@),
{
    assert(node@.kids =~= trees_of(node.children@));
}

/// The kind of the token at `pos`; past the stream, the end marker.
pub open spec fn kind_at(ts: Seq<TokenView>, pos: int) -> TokenType {
    if 0 <= pos < ts.len() {
        ts[pos].kind
    } else {
        TokenType::Eof
    }
}

/// The text of the token at `pos`.
pub open spec fn text_at(ts: Seq<TokenView>, pos: int) -> Seq<char> {
    if 0 <= pos < ts.len() {
        ts[pos].text
    } else {
        Seq::empty()
    }
}

/// The line of the token at `pos`.
pub open spec fn line_at(ts: Seq<TokenView>, pos: int) -> usize {
    if 0 <= pos < ts.len() {
        ts[pos].line as usize
    } else {
        0
    }
}

/// The analyzer stands at the end marker.
pub open spec fn at_end(ts: Seq<TokenView>, pos: int) -> bool {
    kind_at(ts, pos) == TokenType::Eof
}

/// The analyzer stands at a token of kind `kind` that is not the end
/// marker.
pub open spec fn check(ts: Seq<TokenView>, pos: int, kind: TokenType) -> bool {
    !at_end(ts, pos) && kind_at(ts, pos) == kind
}

/// The position after one token is consumed; the end marker is never
/// consumed.
pub open spec fn step(ts: Seq<TokenView>, pos: int) -> int {
    if at_end(ts, pos) {
        pos
    } else {
        pos + 1
    }
}

/// The stream holds an end marker at `pos` or after it.
pub open spec fn ends_after(ts: Seq<TokenView>, pos: int) -> bool {
    exists|i: int| pos <= i < ts.len() && (#[trigger] ts[i]).kind == TokenType::Eof
}

/// The analyzer went forward from `from` to `to`, inside the stream.
pub open spec fn moved(ts: Seq<TokenView>, from: int, to: int) -> bool {
    0 <= from < to <= ts.len()
}

/// The number of tokens from `pos` to the end of the stream.
pub open spec fn span(ts: Seq<TokenView>, pos: int) -> nat {
    if 0 <= pos < ts.len() {
        (ts.len() - pos) as nat
    } else {
        0
    }
}

/// What parsing one construct gives: where the analyzer stands afterwards,
/// and the construct's tree or the error.
pub ghost struct Parsed {
    pub pos: int,
    pub result: Result<Tree, ParseError>,
}

/// The construct was parsed.
pub open spec fn parsed(pos: int, tree: Tree) -> Parsed {
    Parsed { pos, result: Ok(tree) }
}

/// The construct could not be parsed.
pub open spec fn failed(pos: int, error: ParseError) -> Parsed {
    Parsed { pos, result: Err(error) }
}

/// The error for a token of kind `kind` that is missing at `pos`.
pub open spec fn missing(ts: Seq<TokenView>, pos: int, kind: TokenType) -> ParseError {
    ParseError::ExpectedToken { expected: kind, found: kind_at(ts, pos), line: line_at(ts, pos) }
}

/// The error for a token at `pos` with which no expression starts.
pub open spec fn unexpected(ts: Seq<TokenView>, pos: int) -> ParseError {
    ParseError::UnexpectedToken(kind_at(ts, pos), line_at(ts, pos))
}

/// `tree` is complete once a token of kind `kind` is consumed at `pos`.
pub open spec fn expect(ts: Seq<TokenView>, pos: int, kind: TokenType, tree: Tree) -> Parsed {
    if check(ts, pos, kind) {
        parsed(pos + 1, tree)
    } else {
        failed(pos, missing(ts, pos, kind))
    }
}

/// A kind of token whose text makes a literal.
pub open spec fn is_literal(kind: TokenType) -> bool {
    kind == TokenType::True || kind == TokenType::False || kind == TokenType::NumberLiteral
        || kind == TokenType::StringLiteral
}

/// A kind of token that names something.
pub open spec fn is_name(kind: TokenType) -> bool {
    kind == TokenType::Identifier || kind == TokenType::PrintF
}

/// A kind of token with which a function declaration starts.
pub open spec fn is_return_type(kind: TokenType) -> bool {
    kind == TokenType::U0 || kind == TokenType::U8 || kind == TokenType::U16 || kind
        == TokenType::U32 || kind == TokenType::U64
}

/// A kind of token at which the analyzer takes up parsing again after an
/// error.
pub open spec fn is_restart(kind: TokenType) -> bool {
    kind == TokenType::Class || kind == TokenType::For || kind == TokenType::If || kind
        == TokenType::While || kind == TokenType::Return
}

/// A primary expression: a literal, a name, or an expression in
/// parentheses.
pub open spec fn parse_primary(ts: Seq<TokenView>, pos: int) -> Parsed
    decreases span(ts, pos), 1int,
{
    let kind = kind_at(ts, pos);
    if is_literal(kind) {
        parsed(pos + 1, Tree::labelled(NodeType::Literal, text_at(ts, pos)))
    } else if is_name(kind) {
        parsed(pos + 1, Tree::labelled(NodeType::Identifier, text_at(ts, pos)))
    } else if kind == TokenType::LeftParen {
        let inner = parse_expression(ts, pos + 1);
        match inner.result {
            Err(_) => inner,
            Ok(tree) => expect(ts, inner.pos, TokenType::RightParen, tree),
        }
    } else {
        failed(pos, unexpected(ts, pos))
    }
}

/// The calls that follow a callee: each `(` opens one more call, whose
/// callee is everything parsed so far.
pub open spec fn parse_call_rest(ts: Seq<TokenView>, pos: int, callee: Tree) -> Parsed
    decreases span(ts, pos), 2int,
{
    if check(ts, pos, TokenType::LeftParen) {
        let call = parse_finish_call(ts, pos + 1, callee);
        match call.result {
            Err(_) => call,
            Ok(tree) => if moved(ts, pos, call.pos) {
                parse_call_rest(ts, call.pos, tree)
            } else {
                call
            },
        }
    } else {
        parsed(pos, callee)
    }
}

/// A primary expression and the calls that follow it.
pub open spec fn parse_call(ts: Seq<TokenView>, pos: int) -> Parsed
    decreases span(ts, pos), 3int,
{
    let callee = parse_primary(ts, pos);
    match callee.result {
        Err(_) => callee,
        Ok(tree) => if moved(ts, pos, callee.pos) {
            parse_call_rest(ts, callee.pos, tree)
        } else {
            callee
        },
    }
}

/// An expression.
pub open spec fn parse_expression(ts: Seq<TokenView>, pos: int) -> Parsed
    decreases span(ts, pos), 4int,
{
    parse_call(ts, pos)
}

/// The arguments of a call, separated by commas, appended to `call`.
pub open spec fn parse_args(ts: Seq<TokenView>, pos: int, call: Tree) -> Parsed
    decreases span(ts, pos), 5int,
{
    let arg = parse_expression(ts, pos);
    match arg.result {
        Err(_) => arg,
        Ok(tree) => if check(ts, arg.pos, TokenType::Comma) && moved(ts, pos, arg.pos) {
            parse_args(ts, arg.pos + 1, call.with_child(tree))
        } else {
            parsed(arg.pos, call.with_child(tree))
        },
    }
}

/// A call whose `(` has been consumed: an expression node with the text
/// `call`, whose first child is the callee and whose other children are
/// the arguments.
pub open spec fn parse_finish_call(ts: Seq<TokenView>, pos: int, callee: Tree) -> Parsed
    decreases span(ts, pos), 6int,
{
    let call = Tree::labelled(NodeType::Expression, "call"@).with_child(callee);
    let filled = if check(ts, pos, TokenType::RightParen) {
        parsed(pos, call)
    } else {
        parse_args(ts, pos, call)
    };
    match filled.result {
        Err(_) => filled,
        Ok(tree) => expect(ts, filled.pos, TokenType::RightParen, tree),
    }
}

/// An expression followed by a semicolon.
pub open spec fn parse_expression_statement(ts: Seq<TokenView>, pos: int) -> Parsed
    decreases span(ts, pos), 7int,
{
    let expression = parse_expression(ts, pos);
    match expression.result {
        Err(_) => expression,
        Ok(tree) => expect(ts, expression.pos, TokenType::Semicolon, tree),
    }
}

/// A return statement whose keyword has been consumed: a statement node
/// with the text `return`, whose child, if it has one, is the value.
pub open spec fn parse_return(ts: Seq<TokenView>, pos: int) -> Parsed
    decreases span(ts, pos), 7int,
{
    let statement = Tree::labelled(NodeType::Statement, "return"@);
    if check(ts, pos, TokenType::Semicolon) {
        parsed(pos + 1, statement)
    } else {
        let value = parse_expression(ts, pos);
        match value.result {
            Err(_) => value,
            Ok(tree) => expect(ts, value.pos, TokenType::Semicolon, statement.with_child(tree)),
        }
    }
}

/// A statement: a return statement, a block, or an expression statement.
pub open spec fn parse_statement(ts: Seq<TokenView>, pos: int) -> Parsed
    decreases span(ts, pos), 8int,
{
    if check(ts, pos, TokenType::Return) {
        parse_return(ts, pos + 1)
    } else if check(ts, pos, TokenType::LeftBrace) {
        parse_block(ts, pos + 1)
    } else {
        parse_expression_statement(ts, pos)
    }
}

/// The parameters of a function and where their list ends.
pub ghost struct Params {
    pub pos: int,
    pub nodes: Seq<Tree>,
}

/// The parameters of a function, separated by commas, appended to
/// `nodes`. A parameter is one token for its type, one more if that token
/// is a `*`, and a name; it becomes an identifier node whose text is the
/// first token's. Without a name no node is made.
pub open spec fn parse_params(ts: Seq<TokenView>, pos: int, nodes: Seq<Tree>) -> Params
    decreases span(ts, pos),
{
    let typed = step(ts, pos);
    let type_text = text_at(ts, typed - 1);
    let based = if kind_at(ts, typed - 1) == TokenType::Star {
        step(ts, typed)
    } else {
        typed
    };
    let named = check(ts, based, TokenType::Identifier);
    let end = if named {
        based + 1
    } else {
        based
    };
    let all = if named {
        nodes.push(Tree::labelled(NodeType::Identifier, type_text))
    } else {
        nodes
    };
    if check(ts, end, TokenType::Comma) {
        parse_params(ts, end + 1, all)
    } else {
        Params { pos: end, nodes: all }
    }
}

/// A function declaration, from its return type on: a node whose text is
/// the return type, a colon and the name, and whose children are the
/// parameters and, last, the body, a block.
pub open spec fn parse_function(ts: Seq<TokenView>, pos: int) -> Parsed
    decreases span(ts, pos), 9int,
{
    let name_pos = step(ts, pos);
    let return_type = text_at(ts, name_pos - 1);
    if !check(ts, name_pos, TokenType::Identifier) {
        failed(name_pos, missing(ts, name_pos, TokenType::Identifier))
    } else if !check(ts, name_pos + 1, TokenType::LeftParen) {
        failed(name_pos + 1, missing(ts, name_pos + 1, TokenType::LeftParen))
    } else {
        let params = if check(ts, name_pos + 2, TokenType::RightParen) {
            Params { pos: name_pos + 2, nodes: Seq::empty() }
        } else {
            parse_params(ts, name_pos + 2, Seq::empty())
        };
        if !check(ts, params.pos, TokenType::RightParen) {
            failed(params.pos, missing(ts, params.pos, TokenType::RightParen))
        } else if !check(ts, params.pos + 1, TokenType::LeftBrace) {
            failed(params.pos + 1, missing(ts, params.pos + 1, TokenType::LeftBrace))
        } else if !moved(ts, pos, params.pos + 2) {
            failed(params.pos + 2, ParseError::UnexpectedEof)
        } else {
            let body = parse_block(ts, params.pos + 2);
            match body.result {
                Err(_) => body,
                Ok(tree) => parsed(
                    body.pos,
                    Tree::labelled(
                        NodeType::FunctionDecl,
                        return_type + ":"@ + text_at(ts, name_pos),
                    ).with_children(params.nodes).with_child(tree),
                ),
            }
        }
    }
}

/// A declaration: a function, with or without `export` before it, or a
/// statement.
pub open spec fn parse_declaration(ts: Seq<TokenView>, pos: int) -> Parsed
    decreases span(ts, pos), 10int,
{
    if check(ts, pos, TokenType::Export) {
        parse_function(ts, pos + 1)
    } else if !at_end(ts, pos) && is_return_type(kind_at(ts, pos)) {
        parse_function(ts, pos)
    } else {
        parse_statement(ts, pos)
    }
}

/// The declarations of a block up to its `}` or the end of the stream,
/// appended to `block`.
pub open spec fn parse_block_items(ts: Seq<TokenView>, pos: int, block: Tree) -> Parsed
    decreases span(ts, pos), 11int,
{
    if check(ts, pos, TokenType::RightBrace) || at_end(ts, pos) {
        parsed(pos, block)
    } else {
        let item = parse_declaration(ts, pos);
        match item.result {
            Err(_) => item,
            Ok(tree) => if moved(ts, pos, item.pos) {
                parse_block_items(ts, item.pos, block.with_child(tree))
            } else {
                item
            },
        }
    }
}

/// A block whose `{` has been consumed: a block node whose children are the
/// declarations up to the `}`.
pub open spec fn parse_block(ts: Seq<TokenView>, pos: int) -> Parsed
    decreases span(ts, pos), 12int,
{
    let items = parse_block_items(ts, pos, Tree::leaf(NodeType::Block));
    match items.result {
        Err(_) => items,
        Ok(tree) => expect(ts, items.pos, TokenType::RightBrace, tree),
    }
}

/// Where the analyzer takes up parsing again, from `pos` on: at the end of
/// the stream, after a semicolon, or before a token at which a statement
/// may start again.
pub open spec fn restart_from(ts: Seq<TokenView>, pos: int) -> int
    decreases span(ts, pos),
{
    if at_end(ts, pos) || kind_at(ts, pos - 1) == TokenType::Semicolon || is_restart(
        kind_at(ts, pos),
    ) {
        pos
    } else {
        restart_from(ts, pos + 1)
    }
}

/// Where the analyzer takes up parsing again after an error at `pos`: it
/// gives up one token, then looks for the next place to restart.
pub open spec fn synchronize(ts: Seq<TokenView>, pos: int) -> int {
    restart_from(ts, step(ts, pos))
}

/// The declarations from `pos` to the end of the stream, appended to
/// `program`. One that fails is left out, and the analyzer goes on from
/// where [`synchronize`] leads.
pub open spec fn parse_items(ts: Seq<TokenView>, pos: int, program: Tree) -> Parsed
    decreases span(ts, pos),
{
    if at_end(ts, pos) {
        parsed(pos, program)
    } else {
        let item = parse_declaration(ts, pos);
        let next = match item.result {
            Ok(_) => item.pos,
            Err(_) => synchronize(ts, item.pos),
        };
        let grown = match item.result {
            Ok(tree) => program.with_child(tree),
            Err(_) => program,
        };
        if moved(ts, pos, next) {
            parse_items(ts, next, grown)
        } else {
            parsed(next, grown)
        }
    }
}

/// The tree that the stream stands for from `pos` on: a program node whose
/// children are the declarations that could be parsed.
pub open spec fn parse_program(ts: Seq<TokenView>, pos: int) -> Parsed {
    parse_items(ts, pos, Tree::leaf(NodeType::Program))
}

/// Parsing a program always gives a tree: a declaration that fails is left
/// out, and nothing else can fail.
pub proof fn lemma_parse_program_succeeds(ts: Seq<TokenView>, pos: int)
    ensures
        parse_program(ts, pos).result is Ok,
{
    lemma_parse_items_succeed(ts, pos, Tree::leaf(NodeType::Program));
}

/// Parsing the declarations of a program always gives a tree.
proof fn lemma_parse_items_succeed(ts: Seq<TokenView>, pos: int, program: Tree)
    ensures
        parse_items(ts, pos, program).result is Ok,
    decreases span(ts, pos),
{
    if !at_end(ts, pos) {
        let item = parse_declaration(ts, pos);
        let next = match item.result {
            Ok(_) => item.pos,
            Err(_) => synchronize(ts, item.pos),
        };
        let grown = match item.result {
            Ok(tree) => program.with_child(tree),
            Err(_) => program,
        };
        if moved(ts, pos, next) {
            lemma_parse_items_succeed(ts, next, grown);
        }
    }
}

/// An executed parse of one construct from `from` agrees with `parsed`: the
/// analyzer stands where `parsed` stands, and gave the same tree or the
/// same error. It never went back, and went forward if it succeeded.
pub open spec fn parsed_as(
    ts: Seq<TokenView>,
    from: int,
    parsed: Parsed,
    to: int,
    result: Result<Node, ParseError>,
) -> bool {
    &&& to == parsed.pos
    &&& from <= to
    &&& match parsed.result {
        Ok(tree) => moved(ts, from, to) && match result {
            Ok(node) => node@ == tree,
            Err(_) => false,
        },
        Err(e) => result == Err::<Node, ParseError>(e),
    }
}

impl Node {
    /// Makes a node of kind `node_type` without text or children.
    pub fn new(node_type: NodeType) -> (node: Self)
        ensures
            node@ == Tree::leaf(node_type),
    {
        let node = Node { node_type, value: None, children: Vec::new() };
        assert(node@.kids =~= Seq::<Tree>::empty());
        node
    }

    /// Makes a node of kind `node_type` with text `value` and without
    /// children.
    pub fn with_value(node_type: NodeType, value: String) -> (node: Self)
        ensures
            node@ == Tree::labelled(node_type, value@),
    {
        let node = Node { node_type, value: Some(value), children: Vec::new() };
        assert(node@.kids =~= Seq::<Tree>::empty());
        node
    }

    /// Appends `child` to the node's children.
    pub fn add_child(&mut self, child: Node)
        ensures
            final(self)@ == old(self)@.with_child(child@),
    {
        let ghost before = *self;
        self.children.push(child);
        assert(self@.kids =~= before@.kids.push(child@));
    }
}

impl Clone for Node {
    /// Copies the node with everything below it.
    fn clone(&self) -> (copy: Node)
        ensures
            copy@ == self@,
        decreases *self,
    {
        let mut children: Vec<Node> = Vec::new();
        let mut i: usize = 0;
        while i < self.children.len()
            invariant
                i <= self.children.len(),
                trees_of(children@) == trees_of(self.children@.subrange(0, i as int)),
            decreases self.children.len() - i,
        {
            let child = self.children[i].clone();
            let ghost before = children@;
            children.push(child);
            i += 1;
            assert(trees_of(children@) =~= trees_of(self.children@.subrange(0, i as int))) by {
                let prefix = self.children@.subrange(0, i - 1);
                assert(self.children@.subrange(0, i as int) =~= prefix.push(
                    self.children@[i - 1],
                ));
                assert(trees_of(before.push(child)) =~= trees_of(before).push(child@));
                assert(trees_of(prefix.push(self.children@[i - 1])) =~= trees_of(prefix).push(
                    self.children@[i - 1]@,
                ));
            }
        }
        assert(self.children@.subrange(0, i as int) =~= self.children@);
        let value = match &self.value {
            Some(text) => Some(text.clone()),
            None => None,
        };
        let copy = Node { node_type: self.node_type, value, children };
        proof {
            lemma_tree_kids(copy);
            lemma_tree_kids(*self);
        }
        copy
    }
}

/// The analyzer of one stream of tokens.
pub struct Parser<'a> {
    tokens: Vec<Token<'a>>,
    current: usize,
}

impl<'a> Parser<'a> {
    /// The stream that the analyzer reads.
    pub closed spec fn stream(&self) -> Seq<TokenView> {
        token_views(self.tokens@)
    }

    /// The index of the token at which the analyzer stands.
    pub closed spec fn position(&self) -> int {
        self.current as int
    }

    /// The analyzer's invariant: an end marker stands at its position or
    /// after it, so that it never reads past the stream.
    pub closed spec fn wf(&self) -> bool {
        ends_after(self.stream(), self.position())
    }

    /// Creates an analyzer that stands at the start of `tokens`, which must
    /// hold an end marker.
    pub fn new(tokens: Vec<Token<'a>>) -> (parser: Self)
        requires
            ends_after(token_views(tokens@), 0),
        ensures
            parser.wf(),
            parser.stream() == token_views(tokens@),
            parser.position() == 0,
    {
        Parser { tokens, current: 0 }
    }

    /// The kind of the token at which the analyzer stands.
    fn peek_type(&self) -> (kind: TokenType)
        requires
            self.wf(),
        ensures
            kind == kind_at(self.stream(), self.position()),
            0 <= self.position() < self.stream().len(),
    {
        self.tokens[self.current].token_type
    }

    /// The line of the token at which the analyzer stands.
    fn peek_line(&self) -> (line: usize)
        requires
            self.wf(),
        ensures
            line == line_at(self.stream(), self.position()),
    {
        self.tokens[self.current].line
    }

    /// The kind of the token before the one at which the analyzer stands.
    fn previous_type(&self) -> (kind: TokenType)
        requires
            self.wf(),
            self.position() >= 1,
        ensures
            kind == kind_at(self.stream(), self.position() - 1),
    {
        self.tokens[self.current - 1].token_type
    }

    /// The text of the token before the one at which the analyzer stands.
    fn previous_text(&self) -> (text: String)
        requires
            self.wf(),
            self.position() >= 1,
        ensures
            text@ == text_at(self.stream(), self.position() - 1),
    {
        String::from_str(self.tokens[self.current - 1].lexeme)
    }

    /// Tells whether the analyzer stands at the end marker.
    fn is_at_end(&self) -> (end: bool)
        requires
            self.wf(),
        ensures
            end == at_end(self.stream(), self.position()),
            0 <= self.position() < self.stream().len(),
    {
        self.peek_type() == TokenType::Eof
    }

    /// Tells whether the analyzer stands at a token of kind `kind`.
    fn check(&self, kind: TokenType) -> (found: bool)
        requires
            self.wf(),
        ensures
            found == check(self.stream(), self.position(), kind),
            0 <= self.position() < self.stream().len(),
    {
        if self.is_at_end() {
            false
        } else {
            self.peek_type() == kind
        }
    }

    /// Consumes one token, unless it is the end marker.
    fn advance(&mut self)
        requires
            old(self).wf(),
        ensures
            final(self).wf(),
            final(self).stream() == old(self).stream(),
            final(self).position() == step(old(self).stream(), old(self).position()),
            0 <= old(self).position() < old(self).stream().len(),
            final(self).position() <= old(self).stream().len(),
    {
        if !self.is_at_end() {
            let ghost ts = self.stream();
            let ghost pos = self.position();
            let ghost witness = choose|i: int|
                pos <= i < ts.len() && (#[trigger] ts[i]).kind == TokenType::Eof;
            assert(self.tokens@.len() == self.tokens.len());
            self.current += 1;
            assert(pos + 1 <= witness < ts.len() && ts[witness].kind == TokenType::Eof);
        }
    }

    /// Consumes the token at which the analyzer stands if it is of kind
    /// `kind`.
    fn match_token(&mut self, kind: TokenType) -> (matched: bool)
        requires
            old(self).wf(),
        ensures
            final(self).wf(),
            final(self).stream() == old(self).stream(),
            matched == check(old(self).stream(), old(self).position(), kind),
            final(self).position() == if matched {
                old(self).position() + 1
            } else {
                old(self).position()
            },
            0 <= old(self).position() < old(self).stream().len(),
            final(self).position() <= old(self).stream().len(),
    {
        if self.check(kind) {
            self.advance();
            true
        } else {
            false
        }
    }

    /// Consumes a token of kind `kind`, which has to stand here.
    fn consume(&mut self, kind: TokenType) -> (result: Result<(), ParseError>)
        requires
            old(self).wf(),
        ensures
            final(self).wf(),
            final(self).stream() == old(self).stream(),
            0 <= old(self).position() < old(self).stream().len(),
            final(self).position() <= old(self).stream().len(),
            if check(old(self).stream(), old(self).position(), kind) {
                result is Ok && final(self).position() == old(self).position() + 1
            } else {
                result == Err::<(), ParseError>(
                    missing(old(self).stream(), old(self).position(), kind),
                ) && final(self).position() == old(self).position()
            },
    {
        if self.check(kind) {
            self.advance();
            Ok(())
        } else {
            Err(
                ParseError::ExpectedToken {
                    expected: kind,
                    found: self.peek_type(),
                    line: self.peek_line(),
                },
            )
        }
    }

    /// Parses a primary expression.
    fn primary(&mut self) -> (result: Result<Node, ParseError>)
        requires
            old(self).wf(),
        ensures
            final(self).wf(),
            final(self).stream() == old(self).stream(),
            parsed_as(
                old(self).stream(),
                old(self).position(),
                parse_primary(old(self).stream(), old(self).position()),
                final(self).position(),
                result,
            ),
        decreases span(old(self).stream(), old(self).position()), 1int,
    {
        let kind = self.peek_type();
        if kind == TokenType::True || kind == TokenType::False || kind == TokenType::NumberLiteral
            || kind == TokenType::StringLiteral {
            self.advance();
            Ok(Node::with_value(NodeType::Literal, self.previous_text()))
        } else if kind == TokenType::Identifier || kind == TokenType::PrintF {
            self.advance();
            Ok(Node::with_value(NodeType::Identifier, self.previous_text()))
        } else if kind == TokenType::LeftParen {
            self.advance();
            match self.expression() {
                Ok(expression) => match self.consume(TokenType::RightParen) {
                    Ok(()) => Ok(expression),
                    Err(e) => Err(e),
                },
                Err(e) => Err(e),
            }
        } else {
            Err(ParseError::UnexpectedToken(kind, self.peek_line()))
        }
    }

    /// Parses a primary expression and the calls that follow it.
    fn call(&mut self) -> (result: Result<Node, ParseError>)
        requires
            old(self).wf(),
        ensures
            final(self).wf(),
            final(self).stream() == old(self).stream(),
            parsed_as(
                old(self).stream(),
                old(self).position(),
                parse_call(old(self).stream(), old(self).position()),
                final(self).position(),
                result,
            ),
        decreases span(old(self).stream(), old(self).position()), 3int,
    {
        let mut expression = match self.primary() {
            Ok(callee) => callee,
            Err(e) => {
                return Err(e);
            },
        };
        loop
            invariant
                self.wf(),
                self.stream() == old(self).stream(),
                moved(self.stream(), old(self).position(), self.position()),
                parse_call_rest(self.stream(), self.position(), expression@) == parse_call(
                    old(self).stream(),
                    old(self).position(),
                ),
            decreases span(self.stream(), self.position()),
        {
            if !self.match_token(TokenType::LeftParen) {
                return Ok(expression);
            }
            match self.finish_call(expression) {
                Ok(call) => {
                    expression = call;
                },
                Err(e) => {
                    return Err(e);
                },
            }
        }
    }

    /// Parses an expression.
    fn expression(&mut self) -> (result: Result<Node, ParseError>)
        requires
            old(self).wf(),
        ensures
            final(self).wf(),
            final(self).stream() == old(self).stream(),
            parsed_as(
                old(self).stream(),
                old(self).position(),
                parse_expression(old(self).stream(), old(self).position()),
                final(self).position(),
                result,
            ),
        decreases span(old(self).stream(), old(self).position()), 4int,
    {
        self.call()
    }

    /// Parses a call whose `(` has been consumed.
    fn finish_call(&mut self, callee: Node) -> (result: Result<Node, ParseError>)
        requires
            old(self).wf(),
        ensures
            final(self).wf(),
            final(self).stream() == old(self).stream(),
            parsed_as(
                old(self).stream(),
                old(self).position(),
                parse_finish_call(old(self).stream(), old(self).position(), callee@),
                final(self).position(),
                result,
            ),
        decreases span(old(self).stream(), old(self).position()), 6int,
    {
        let mut call = Node::with_value(NodeType::Expression, String::from_str("call"));
        call.add_child(callee);
        if !self.check(TokenType::RightParen) {
            loop
                invariant
                    self.wf(),
                    self.stream() == old(self).stream(),
                    old(self).position() <= self.position(),
                    !check(old(self).stream(), old(self).position(), TokenType::RightParen),
                    parse_args(self.stream(), self.position(), call@) == parse_args(
                        old(self).stream(),
                        old(self).position(),
                        Tree::labelled(NodeType::Expression, "call"@).with_child(callee@),
                    ),
                decreases span(self.stream(), self.position()),
            {
                match self.expression() {
                    Ok(argument) => {
                        call.add_child(argument);
                    },
                    Err(e) => {
                        return Err(e);
                    },
                }
                if !self.match_token(TokenType::Comma) {
                    return match self.consume(TokenType::RightParen) {
                        Ok(()) => Ok(call),
                        Err(e) => Err(e),
                    };
                }
            }
        }
        match self.consume(TokenType::RightParen) {
            Ok(()) => Ok(call),
            Err(e) => Err(e),
        }
    }

    /// Parses an expression that a semicolon follows.
    fn expression_statement(&mut self) -> (result: Result<Node, ParseError>)
        requires
            old(self).wf(),
        ensures
            final(self).wf(),
            final(self).stream() == old(self).stream(),
            parsed_as(
                old(self).stream(),
                old(self).position(),
                parse_expression_statement(old(self).stream(), old(self).position()),
                final(self).position(),
                result,
            ),
        decreases span(old(self).stream(), old(self).position()), 7int,
    {
        match self.expression() {
            Ok(expression) => match self.consume(TokenType::Semicolon) {
                Ok(()) => Ok(expression),
                Err(e) => Err(e),
            },
            Err(e) => Err(e),
        }
    }

    /// Parses a return statement whose keyword has been consumed.
    fn return_statement(&mut self) -> (result: Result<Node, ParseError>)
        requires
            old(self).wf(),
        ensures
            final(self).wf(),
            final(self).stream() == old(self).stream(),
            parsed_as(
                old(self).stream(),
                old(self).position(),
                parse_return(old(self).stream(), old(self).position()),
                final(self).position(),
                result,
            ),
        decreases span(old(self).stream(), old(self).position()), 7int,
    {
        let mut statement = Node::with_value(NodeType::Statement, String::from_str("return"));
        if !self.check(TokenType::Semicolon) {
            match self.expression() {
                Ok(value) => {
                    statement.add_child(value);
                },
                Err(e) => {
                    return Err(e);
                },
            }
        }
        match self.consume(TokenType::Semicolon) {
            Ok(()) => Ok(statement),
            Err(e) => Err(e),
        }
    }

    /// Parses a statement.
    fn statement(&mut self) -> (result: Result<Node, ParseError>)
        requires
            old(self).wf(),
        ensures
            final(self).wf(),
            final(self).stream() == old(self).stream(),
            parsed_as(
                old(self).stream(),
                old(self).position(),
                parse_statement(old(self).stream(), old(self).position()),
                final(self).position(),
                result,
            ),
        decreases span(old(self).stream(), old(self).position()), 8int,
    {
        if self.match_token(TokenType::Return) {
            self.return_statement()
        } else if self.match_token(TokenType::LeftBrace) {
            self.block_statement()
        } else {
            self.expression_statement()
        }
    }

    /// Parses the parameters of a function and appends them to `function`.
    fn parameters(&mut self, function: &mut Node)
        requires
            old(self).wf(),
            old(self).position() >= 1,
        ensures
            final(self).wf(),
            final(self).stream() == old(self).stream(),
            old(self).position() <= final(self).position(),
            ({
                let params = parse_params(
                    old(self).stream(),
                    old(self).position(),
                    old(function)@.kids,
                );
                &&& final(self).position() == params.pos
                &&& final(function)@ == (Tree { kids: params.nodes, ..old(function)@ })
            }),
    {
        loop
            invariant
                self.wf(),
                self.stream() == old(self).stream(),
                1 <= old(self).position() <= self.position(),
                function@.kind == old(function)@.kind,
                function@.text == old(function)@.text,
                parse_params(self.stream(), self.position(), function@.kids) == parse_params(
                    old(self).stream(),
                    old(self).position(),
                    old(function)@.kids,
                ),
            decreases span(self.stream(), self.position()),
        {
            self.advance();
            let type_text = self.previous_text();
            if self.previous_type() == TokenType::Star {
                self.advance();
            }
            if self.match_token(TokenType::Identifier) {
                function.add_child(Node::with_value(NodeType::Identifier, type_text));
            }
            if !self.match_token(TokenType::Comma) {
                return ;
            }
        }
    }

    /// Parses a function declaration, from its return type on.
    fn function_declaration(&mut self) -> (result: Result<Node, ParseError>)
        requires
            old(self).wf(),
            old(self).position() >= 1 || !at_end(old(self).stream(), old(self).position()),
        ensures
            final(self).wf(),
            final(self).stream() == old(self).stream(),
            parsed_as(
                old(self).stream(),
                old(self).position(),
                parse_function(old(self).stream(), old(self).position()),
                final(self).position(),
                result,
            ),
        decreases span(old(self).stream(), old(self).position()), 9int,
    {
        self.advance();
        let mut label = self.previous_text();
        match self.consume(TokenType::Identifier) {
            Ok(()) => {},
            Err(e) => {
                return Err(e);
            },
        }
        let name = self.previous_text();
        match self.consume(TokenType::LeftParen) {
            Ok(()) => {},
            Err(e) => {
                return Err(e);
            },
        }
        label.append(":");
        label.append(name.as_str());
        let mut function = Node::with_value(NodeType::FunctionDecl, label);
        if !self.check(TokenType::RightParen) {
            self.parameters(&mut function);
        }
        match self.consume(TokenType::RightParen) {
            Ok(()) => {},
            Err(e) => {
                return Err(e);
            },
        }
        match self.consume(TokenType::LeftBrace) {
            Ok(()) => {},
            Err(e) => {
                return Err(e);
            },
        }
        match self.block_statement() {
            Ok(body) => {
                function.add_child(body);
                assert(function@.kids =~= (Seq::<Tree>::empty()
                    + function@.kids.drop_last()).push(body@));
                Ok(function)
            },
            Err(e) => Err(e),
        }
    }

    /// Parses a declaration.
    fn declaration(&mut self) -> (result: Result<Node, ParseError>)
        requires
            old(self).wf(),
        ensures
            final(self).wf(),
            final(self).stream() == old(self).stream(),
            parsed_as(
                old(self).stream(),
                old(self).position(),
                parse_declaration(old(self).stream(), old(self).position()),
                final(self).position(),
                result,
            ),
        decreases span(old(self).stream(), old(self).position()), 10int,
    {
        if self.match_token(TokenType::Export) {
            self.function_declaration()
        } else if self.check(TokenType::U0) || self.check(TokenType::U8) || self.check(
            TokenType::U16,
        ) || self.check(TokenType::U32) || self.check(TokenType::U64) {
            self.function_declaration()
        } else {
            self.statement()
        }
    }

    /// Parses a block whose `{` has been consumed.
    fn block_statement(&mut self) -> (result: Result<Node, ParseError>)
        requires
            old(self).wf(),
        ensures
            final(self).wf(),
            final(self).stream() == old(self).stream(),
            parsed_as(
                old(self).stream(),
                old(self).position(),
                parse_block(old(self).stream(), old(self).position()),
                final(self).position(),
                result,
            ),
        decreases span(old(self).stream(), old(self).position()), 12int,
    {
        let mut block = Node::new(NodeType::Block);
        loop
            invariant
                self.wf(),
                self.stream() == old(self).stream(),
                old(self).position() <= self.position(),
                parse_block_items(self.stream(), self.position(), block@) == parse_block_items(
                    old(self).stream(),
                    old(self).position(),
                    Tree::leaf(NodeType::Block),
                ),
            decreases span(self.stream(), self.position()),
        {
            if self.check(TokenType::RightBrace) || self.is_at_end() {
                return match self.consume(TokenType::RightBrace) {
                    Ok(()) => Ok(block),
                    Err(e) => Err(e),
                };
            }
            match self.declaration() {
                Ok(item) => {
                    block.add_child(item);
                },
                Err(e) => {
                    return Err(e);
                },
            }
        }
    }

    /// Gives up one token and moves on to the next place where parsing may
    /// be taken up again.
    fn synchronize(&mut self)
        requires
            old(self).wf(),
        ensures
            final(self).wf(),
            final(self).stream() == old(self).stream(),
            final(self).position() == synchronize(old(self).stream(), old(self).position()),
            old(self).position() <= final(self).position() <= old(self).stream().len(),
            at_end(old(self).stream(), old(self).position()) || final(self).position()
                > old(self).position(),
    {
        self.advance();
        loop
            invariant
                self.wf(),
                self.stream() == old(self).stream(),
                step(old(self).stream(), old(self).position()) <= self.position(),
                self.position() >= 1 || at_end(self.stream(), self.position()),
                restart_from(self.stream(), self.position()) == synchronize(
                    old(self).stream(),
                    old(self).position(),
                ),
            decreases span(self.stream(), self.position()),
        {
            if self.is_at_end() {
                return ;
            }
            if self.previous_type() == TokenType::Semicolon {
                return ;
            }
            let kind = self.peek_type();
            if kind == TokenType::Class || kind == TokenType::For || kind == TokenType::If || kind
                == TokenType::While || kind == TokenType::Return {
                return ;
            }
            self.advance();
        }
    }

    /// Parses the stream from where the analyzer stands to its end, and
    /// gives the program's tree: see [`parse_program`]. A declaration that
    /// cannot be parsed is left out, so the result is always a tree. The
    /// analyzer ends at the end marker.
    pub fn parse(&mut self) -> (result: Result<Node, ParseError>)
        requires
            old(self).wf(),
        ensures
            final(self).wf(),
            final(self).stream() == old(self).stream(),
            at_end(final(self).stream(), final(self).position()),
            ({
                let program = parse_program(old(self).stream(), old(self).position());
                &&& final(self).position() == program.pos
                &&& match result {
                    Ok(node) => program.result == Ok::<Tree, ParseError>(node@),
                    Err(_) => false,
                }
            }),
    {
        let mut program = Node::new(NodeType::Program);
        loop
            invariant
                self.wf(),
                self.stream() == old(self).stream(),
                parse_items(self.stream(), self.position(), program@) == parse_program(
                    old(self).stream(),
                    old(self).position(),
                ),
            decreases span(self.stream(), self.position()),
        {
            if self.is_at_end() {
                return Ok(program);
            }
            match self.declaration() {
                Ok(item) => {
                    program.add_child(item);
                },
                Err(_) => {
                    self.synchronize();
                },
            }
        }
    }
}

} // verus!
