//! The parser: from tokens to statements.
//!
//! The grammar that is read so far:
//!
//! ```text
//! <input>                       ::= <statement>*
//! <statement>                   ::= ';' | <module_instantiation>
//! <module_instantiation>        ::= <single_module_instantiation> <child_statement>
//! <single_module_instantiation> ::= <module_id> '(' <number>* ')'
//! <child_statement>             ::= ';'
//! <module_id>                   ::= "for" | <identifier>
//! ```
//!
//! What the parser returns is defined by [`program_from`], a function of the
//! tokens alone. Where the tokens leave the grammar, one error is recorded
//! and the parser goes on behind the next `;`.

use vstd::prelude::*;
use vstd::string::*;
use crate::openscad::{views, WithPosition};
use crate::openscad::tokenizer::{Token, TokenView, TokenWithPosition};
use crate::text::{debug_char, debug_str, debug_text_of_char, debug_text_of_str};

verus! {

/// `<statement>`
#[derive(Debug, PartialEq)]
pub enum Statement {
    /// `;`
    Empty,
    /// `<module_instantiation>`
    ModuleInstantiation { module_instantiation: ModuleInstantiationWithPosition },
}

pub type StatementWithPosition = WithPosition<Statement>;

/// `<module_instantiation>`
#[derive(Debug, PartialEq)]
pub enum ModuleInstantiation {
    /// `<single_module_instantiation> <child_statement>`
    SingleModuleInstantiation {
        single_module_instantiation: SingleModuleInstantiationWithPosition,
        child_statement: ChildStatementWithPosition,
    },
}

pub type ModuleInstantiationWithPosition = WithPosition<ModuleInstantiation>;

/// `<single_module_instantiation>`
#[derive(Debug, PartialEq)]
pub enum SingleModuleInstantiation {
    /// `<module_id> '(' <call_arguments> ')'`
    Module { module_id: ModuleIdWithPosition, call_arguments: Vec<CallArgumentWithPosition> },
}

pub type SingleModuleInstantiationWithPosition = WithPosition<SingleModuleInstantiation>;

/// `<child_statement>`
#[derive(Debug, PartialEq)]
pub enum ChildStatement {
    /// `;`
    Empty,
}

pub type ChildStatementWithPosition = WithPosition<ChildStatement>;

/// `<module_id>`
#[derive(Debug, PartialEq)]
pub enum ModuleId {
    /// `for`
    For,
    /// `<identifier>`
    Identifier(String),
}

pub type ModuleIdWithPosition = WithPosition<ModuleId>;

/// `<call_argument>`
#[derive(Debug, PartialEq)]
pub enum CallArgument {
    /// `<expr>`
    Expr { expr: ExprWithPosition },
}

pub type CallArgumentWithPosition = WithPosition<CallArgument>;

/// `<expr>`
#[derive(Debug, PartialEq)]
pub enum Expr {
    /// `<number>`, held as it is written in the text.
    Number(String),
}

pub type ExprWithPosition = WithPosition<Expr>;

/// A place where the tokens leave the grammar.
#[derive(Debug, PartialEq)]
pub struct ParseError {
    pub message: String,
    pub start: usize,
    pub end: usize,
}

/// What the parser returns: the statements it could read, and the errors.
#[derive(Debug)]
pub struct ParseResult {
    pub statements: Vec<StatementWithPosition>,
    pub errors: Vec<ParseError>,
}

pub enum ExprView {
    Number(Seq<char>),
}

pub enum CallArgumentView {
    Expr { expr: WithPosition<ExprView> },
}

pub enum ModuleIdView {
    For,
    Identifier(Seq<char>),
}

pub enum SingleModuleInstantiationView {
    Module {
        module_id: WithPosition<ModuleIdView>,
        call_arguments: Seq<WithPosition<CallArgumentView>>,
    },
}

pub enum ModuleInstantiationView {
    SingleModuleInstantiation {
        single_module_instantiation: WithPosition<SingleModuleInstantiationView>,
        child_statement: WithPosition<ChildStatement>,
    },
}

pub enum StatementView {
    Empty,
    ModuleInstantiation { module_instantiation: WithPosition<ModuleInstantiationView> },
}

pub struct ParseErrorView {
    pub message: Seq<char>,
    pub start: usize,
    pub end: usize,
}

impl View for Expr {
    type V = ExprView;

    open spec fn view(&self) -> ExprView {
        match self {
            Expr::Number(n) => ExprView::Number(n@),
        }
    }
}

impl View for CallArgument {
    type V = CallArgumentView;

    open spec fn view(&self) -> CallArgumentView {
        match self {
            CallArgument::Expr { expr } => CallArgumentView::Expr { expr: expr@ },
        }
    }
}

impl View for ModuleId {
    type V = ModuleIdView;

    open spec fn view(&self) -> ModuleIdView {
        match self {
            ModuleId::For => ModuleIdView::For,
            ModuleId::Identifier(name) => ModuleIdView::Identifier(name@),
        }
    }
}

impl View for ChildStatement {
    type V = ChildStatement;

    open spec fn view(&self) -> ChildStatement {
        *self
    }
}

impl View for SingleModuleInstantiation {
    type V = SingleModuleInstantiationView;

    open spec fn view(&self) -> SingleModuleInstantiationView {
        match self {
            SingleModuleInstantiation::Module { module_id, call_arguments } => {
                SingleModuleInstantiationView::Module {
                    module_id: module_id@,
                    call_arguments: views(call_arguments@),
                }
            },
        }
    }
}

impl View for ModuleInstantiation {
    type V = ModuleInstantiationView;

    open spec fn view(&self) -> ModuleInstantiationView {
        match self {
            ModuleInstantiation::SingleModuleInstantiation {
                single_module_instantiation,
                child_statement,
            } => ModuleInstantiationView::SingleModuleInstantiation {
                single_module_instantiation: single_module_instantiation@,
                child_statement: child_statement@,
            },
        }
    }
}

impl View for Statement {
    type V = StatementView;

    open spec fn view(&self) -> StatementView {
        match self {
            Statement::Empty => StatementView::Empty,
            Statement::ModuleInstantiation { module_instantiation } => {
                StatementView::ModuleInstantiation { module_instantiation: module_instantiation@ }
            },
        }
    }
}

impl View for ParseError {
    type V = ParseErrorView;

    open spec fn view(&self) -> ParseErrorView {
        ParseErrorView { message: self.message@, start: self.start, end: self.end }
    }
}

/// The name in messages of a token of the kind `kind` that carries
/// `payload`: the kind, and the payload in round brackets.
pub open spec fn carrying_text(kind: Seq<char>, payload: Seq<char>) -> Seq<char> {
    kind + "("@ + payload + ")"@
}

/// The name of a token in messages: its kind, and for a name, a number and
/// an unknown character what it carries; names and characters are quoted as
/// the standard library's `Debug` formatting quotes them.
pub open spec fn token_text(token: TokenView) -> Seq<char> {
    match token {
        TokenView::Identifier(name) => carrying_text("Identifier"@, debug_text_of_str(name)),
        TokenView::Number(number) => carrying_text("Number"@, number),
        TokenView::LeftParen => "LeftParen"@,
        TokenView::RightParen => "RightParen"@,
        TokenView::Semicolon => "Semicolon"@,
        TokenView::For => "For"@,
        TokenView::Equals => "Equals"@,
        TokenView::Eof => "Eof"@,
        TokenView::Unknown(c) => carrying_text("Unknown"@, debug_text_of_char(c)),
    }
}

/// What the parser expects at a place.
pub enum Expected {
    /// This token.
    Token(TokenView),
    /// The name of a module, or `for`.
    ModuleName,
}

/// The name in messages of what is expected.
pub open spec fn expected_text(expected: Expected) -> Seq<char> {
    match expected {
        Expected::Token(token) => token_text(token),
        Expected::ModuleName => "module name"@,
    }
}

/// The offset at which the token at `pos` starts; 0 behind the last token.
pub open spec fn start_at(tokens: Seq<WithPosition<TokenView>>, pos: int) -> usize {
    if 0 <= pos < tokens.len() {
        tokens[pos].start
    } else {
        0
    }
}

/// Whether the token at `pos` is `token`.
pub open spec fn token_is_at(
    tokens: Seq<WithPosition<TokenView>>,
    pos: int,
    token: TokenView,
) -> bool {
    0 <= pos < tokens.len() && tokens[pos].item == token
}

/// The error for finding, at `pos`, something else than what is called
/// `what`: its message names what was expected and what was found, and its
/// offsets are those of the token at `pos`, or 0 behind the last token.
pub open spec fn error_with_text(
    tokens: Seq<WithPosition<TokenView>>,
    pos: int,
    what: Seq<char>,
) -> ParseErrorView {
    if 0 <= pos < tokens.len() {
        ParseErrorView {
            message: "Expected "@ + what + ", found "@ + token_text(tokens[pos].item),
            start: tokens[pos].start,
            end: tokens[pos].end,
        }
    } else {
        ParseErrorView { message: "Expected "@ + what + ", found "@ + "EOF"@, start: 0, end: 0 }
    }
}

/// The error for finding, at `pos`, something else than `expected`.
pub open spec fn error_at(
    tokens: Seq<WithPosition<TokenView>>,
    pos: int,
    expected: Expected,
) -> ParseErrorView {
    error_with_text(tokens, pos, expected_text(expected))
}

/// Where the parser goes on after an error at `pos`: behind the first `;` at
/// or after `pos`, or behind the last token.
pub open spec fn resume_at(tokens: Seq<WithPosition<TokenView>>, pos: int) -> int
    decreases tokens.len() - pos,
{
    if pos < 0 || pos >= tokens.len() {
        pos
    } else if tokens[pos].item == TokenView::Semicolon {
        pos + 1
    } else {
        resume_at(tokens, pos + 1)
    }
}

/// What reading one item of the grammar gives: the item, or nothing where
/// the tokens leave the grammar; the place behind it; and the errors found.
pub struct Step<T> {
    pub value: Option<T>,
    pub pos: int,
    pub errors: Seq<ParseErrorView>,
}

/// The step that reads nothing at `pos` for want of `expected`.
pub open spec fn failed<T>(
    tokens: Seq<WithPosition<TokenView>>,
    pos: int,
    expected: Expected,
) -> Step<T> {
    Step {
        value: None,
        pos: resume_at(tokens, pos),
        errors: seq![error_at(tokens, pos, expected)],
    }
}

/// `<child_statement>` at `pos`.
pub open spec fn child_statement_at(
    tokens: Seq<WithPosition<TokenView>>,
    pos: int,
) -> Step<WithPosition<ChildStatement>> {
    if token_is_at(tokens, pos, TokenView::Semicolon) {
        Step {
            value: Some(
                WithPosition {
                    item: ChildStatement::Empty,
                    start: start_at(tokens, pos),
                    end: start_at(tokens, pos + 1),
                },
            ),
            pos: pos + 1,
            errors: seq![],
        }
    } else {
        failed(tokens, pos, Expected::Token(TokenView::Semicolon))
    }
}

/// `<module_id>` at `pos`.
pub open spec fn module_id_at(
    tokens: Seq<WithPosition<TokenView>>,
    pos: int,
) -> Step<WithPosition<ModuleIdView>> {
    if token_is_at(tokens, pos, TokenView::For) {
        Step {
            value: Some(
                WithPosition {
                    item: ModuleIdView::For,
                    start: start_at(tokens, pos),
                    end: start_at(tokens, pos + 1),
                },
            ),
            pos: pos + 1,
            errors: seq![],
        }
    } else if 0 <= pos < tokens.len() && tokens[pos].item is Identifier {
        Step {
            value: Some(
                WithPosition {
                    item: ModuleIdView::Identifier(tokens[pos].item->Identifier_0),
                    start: start_at(tokens, pos),
                    end: start_at(tokens, pos + 1),
                },
            ),
            pos: pos + 1,
            errors: seq![],
        }
    } else {
        failed(tokens, pos, Expected::ModuleName)
    }
}

/// Where the run of numbers that starts at `pos` ends.
pub open spec fn numbers_end(tokens: Seq<WithPosition<TokenView>>, pos: int) -> int
    decreases tokens.len() - pos,
{
    if 0 <= pos < tokens.len() && tokens[pos].item is Number {
        numbers_end(tokens, pos + 1)
    } else {
        pos
    }
}

/// The number at `pos` as `<expr>`.
pub open spec fn expr_at(
    tokens: Seq<WithPosition<TokenView>>,
    pos: int,
) -> WithPosition<ExprView> {
    WithPosition {
        item: ExprView::Number(tokens[pos].item->Number_0),
        start: start_at(tokens, pos),
        end: start_at(tokens, pos + 1),
    }
}

/// The number at `pos` as `<call_argument>`.
pub open spec fn argument_at(
    tokens: Seq<WithPosition<TokenView>>,
    pos: int,
) -> WithPosition<CallArgumentView> {
    WithPosition {
        item: CallArgumentView::Expr { expr: expr_at(tokens, pos) },
        start: start_at(tokens, pos),
        end: start_at(tokens, pos + 1),
    }
}

/// The numbers from `from` up to `to` as arguments.
pub open spec fn arguments_between(
    tokens: Seq<WithPosition<TokenView>>,
    from: int,
    to: int,
) -> Seq<WithPosition<CallArgumentView>> {
    Seq::new((to - from) as nat, |i: int| argument_at(tokens, from + i))
}

/// `'(' <number>* ')'` at `pos`.
pub open spec fn call_arguments_at(
    tokens: Seq<WithPosition<TokenView>>,
    pos: int,
) -> Step<Seq<WithPosition<CallArgumentView>>> {
    if !token_is_at(tokens, pos, TokenView::LeftParen) {
        failed(tokens, pos, Expected::Token(TokenView::LeftParen))
    } else {
        let e = numbers_end(tokens, pos + 1);
        if !token_is_at(tokens, e, TokenView::RightParen) {
            failed(tokens, e, Expected::Token(TokenView::RightParen))
        } else {
            Step { value: Some(arguments_between(tokens, pos + 1, e)), pos: e + 1, errors: seq![] }
        }
    }
}

/// `<single_module_instantiation>` at `pos`.
pub open spec fn single_module_instantiation_at(
    tokens: Seq<WithPosition<TokenView>>,
    pos: int,
) -> Step<WithPosition<SingleModuleInstantiationView>> {
    let id = module_id_at(tokens, pos);
    match id.value {
        None => Step { value: None, pos: id.pos, errors: id.errors },
        Some(module_id) => {
            let arguments = call_arguments_at(tokens, id.pos);
            match arguments.value {
                None => Step { value: None, pos: arguments.pos, errors: arguments.errors },
                Some(call_arguments) => Step {
                    value: Some(
                        WithPosition {
                            item: SingleModuleInstantiationView::Module {
                                module_id,
                                call_arguments,
                            },
                            start: start_at(tokens, pos),
                            end: start_at(tokens, arguments.pos),
                        },
                    ),
                    pos: arguments.pos,
                    errors: seq![],
                },
            }
        },
    }
}

/// `<module_instantiation>` at `pos`.
pub open spec fn module_instantiation_at(
    tokens: Seq<WithPosition<TokenView>>,
    pos: int,
) -> Step<WithPosition<ModuleInstantiationView>> {
    let single = single_module_instantiation_at(tokens, pos);
    match single.value {
        None => Step { value: None, pos: single.pos, errors: single.errors },
        Some(single_module_instantiation) => {
            let child = child_statement_at(tokens, single.pos);
            match child.value {
                None => Step { value: None, pos: child.pos, errors: child.errors },
                Some(child_statement) => Step {
                    value: Some(
                        WithPosition {
                            item: ModuleInstantiationView::SingleModuleInstantiation {
                                single_module_instantiation,
                                child_statement,
                            },
                            start: start_at(tokens, pos),
                            end: start_at(tokens, child.pos),
                        },
                    ),
                    pos: child.pos,
                    errors: seq![],
                },
            }
        },
    }
}

/// `<statement>` at `pos`.
pub open spec fn statement_at(
    tokens: Seq<WithPosition<TokenView>>,
    pos: int,
) -> Step<WithPosition<StatementView>> {
    if token_is_at(tokens, pos, TokenView::Semicolon) {
        Step {
            value: Some(
                WithPosition {
                    item: StatementView::Empty,
                    start: start_at(tokens, pos),
                    end: start_at(tokens, pos + 1),
                },
            ),
            pos: pos + 1,
            errors: seq![],
        }
    } else {
        let instantiation = module_instantiation_at(tokens, pos);
        match instantiation.value {
            None => Step { value: None, pos: instantiation.pos, errors: instantiation.errors },
            Some(module_instantiation) => Step {
                value: Some(
                    WithPosition {
                        item: StatementView::ModuleInstantiation { module_instantiation },
                        start: start_at(tokens, pos),
                        end: start_at(tokens, instantiation.pos),
                    },
                ),
                pos: instantiation.pos,
                errors: seq![],
            },
        }
    }
}

/// What a whole parse gives.
pub struct Program {
    pub statements: Seq<WithPosition<StatementView>>,
    pub errors: Seq<ParseErrorView>,
}

/// Whether the statements end at `pos`: behind the last token, or at the
/// token for the end of the text.
pub open spec fn at_end(tokens: Seq<WithPosition<TokenView>>, pos: int) -> bool {
    pos < 0 || pos >= tokens.len() || tokens[pos].item == TokenView::Eof
}

/// The statements and errors that the tokens from `pos` on give.
pub open spec fn program_from(tokens: Seq<WithPosition<TokenView>>, pos: int) -> Program
    decreases tokens.len() - pos,
{
    if at_end(tokens, pos) {
        Program { statements: seq![], errors: seq![] }
    } else {
        let step = statement_at(tokens, pos);
        if pos < step.pos <= tokens.len() {
            let rest = program_from(tokens, step.pos);
            Program {
                statements: match step.value {
                    Some(statement) => seq![statement] + rest.statements,
                    None => rest.statements,
                },
                errors: step.errors + rest.errors,
            }
        } else {
            Program { statements: seq![], errors: step.errors }
        }
    }
}

/// After an error the parser goes on inside the tokens, and behind the token
/// of the error where there is one.
pub proof fn lemma_resume_at(tokens: Seq<WithPosition<TokenView>>, pos: int)
    requires
        0 <= pos <= tokens.len(),
    ensures
        pos <= resume_at(tokens, pos) <= tokens.len(),
        pos < tokens.len() ==> pos < resume_at(tokens, pos),
    decreases tokens.len() - pos,
{
    if pos < tokens.len() && tokens[pos].item != TokenView::Semicolon {
        lemma_resume_at(tokens, pos + 1);
    }
}

/// A run of numbers stays inside the tokens, holds only numbers, and cannot
/// be extended.
pub proof fn lemma_numbers_end(tokens: Seq<WithPosition<TokenView>>, pos: int)
    requires
        0 <= pos <= tokens.len(),
    ensures
        pos <= numbers_end(tokens, pos) <= tokens.len(),
        forall|i: int| pos <= i < numbers_end(tokens, pos) ==> (#[trigger] tokens[i]).item is Number,
        numbers_end(tokens, pos) < tokens.len() ==> !(tokens[numbers_end(tokens, pos)].item is Number),
    decreases tokens.len() - pos,
{
    if pos < tokens.len() && tokens[pos].item is Number {
        lemma_numbers_end(tokens, pos + 1);
    }
}

/// Reading a statement ends inside the tokens; where a token stands at
/// `pos`, it ends behind that token.
pub proof fn lemma_statement_at(tokens: Seq<WithPosition<TokenView>>, pos: int)
    requires
        0 <= pos <= tokens.len(),
    ensures
        pos <= statement_at(tokens, pos).pos <= tokens.len(),
        pos < tokens.len() ==> pos < statement_at(tokens, pos).pos,
        statement_at(tokens, pos).value is None <==> statement_at(tokens, pos).errors.len() == 1,
        statement_at(tokens, pos).value is Some <==> statement_at(tokens, pos).errors.len() == 0,
{
    lemma_resume_at(tokens, pos);
    if !token_is_at(tokens, pos, TokenView::Semicolon) {
        let id = module_id_at(tokens, pos);
        if id.value is Some {
            lemma_resume_at(tokens, id.pos);
            if token_is_at(tokens, id.pos, TokenView::LeftParen) {
                let e = numbers_end(tokens, id.pos + 1);
                lemma_numbers_end(tokens, id.pos + 1);
                lemma_resume_at(tokens, e);
                if token_is_at(tokens, e, TokenView::RightParen) {
                    lemma_resume_at(tokens, e + 1);
                }
            }
        }
    }
}

/// The name in messages of a token of the kind `kind` that carries
/// `payload`.
pub fn carrying(kind: &str, payload: &str) -> (name: String)
    ensures
        name@ == carrying_text(kind@, payload@),
{
    let mut name = String::from_str(kind);
    name.append("(");
    name.append(payload);
    name.append(")");
    name
}

/// The name of `token` in messages.
pub fn token_name(token: &Token) -> (name: String)
    ensures
        name@ == token_text(token@),
{
    match token {
        Token::Identifier(text) => carrying("Identifier", debug_str(text.as_str()).as_str()),
        Token::Number(text) => carrying("Number", text.as_str()),
        Token::LeftParen => String::from_str("LeftParen"),
        Token::RightParen => String::from_str("RightParen"),
        Token::Semicolon => String::from_str("Semicolon"),
        Token::For => String::from_str("For"),
        Token::Equals => String::from_str("Equals"),
        Token::Eof => String::from_str("Eof"),
        Token::Unknown(c) => carrying("Unknown", debug_char(*c).as_str()),
    }
}

/// A parser over a list of tokens, with the place it has reached and the
/// errors it has found.
pub struct Parser {
    tokens: Vec<TokenWithPosition>,
    pos: usize,
    errors: Vec<ParseError>,
}

impl Parser {
    /// The tokens that are parsed.
    pub closed spec fn items(&self) -> Seq<TokenWithPosition> {
        self.tokens@
    }

    /// What the tokens are.
    pub open spec fn tokens(&self) -> Seq<WithPosition<TokenView>> {
        views(self.items())
    }

    /// The index of the token that the parser has reached.
    pub closed spec fn position(&self) -> int {
        self.pos as int
    }

    /// The errors found so far.
    pub closed spec fn errors(&self) -> Seq<ParseErrorView> {
        views(self.errors@)
    }

    /// The parser stands at a token or behind the last one.
    pub open spec fn wf(&self) -> bool {
        0 <= self.position() <= self.items().len()
    }

    /// Whether this parser is `before` after a step to `pos` that found
    /// `errors`.
    pub open spec fn follows(
        &self,
        before: &Parser,
        pos: int,
        errors: Seq<ParseErrorView>,
    ) -> bool {
        &&& self.wf()
        &&& self.items() == before.items()
        &&& self.position() == pos
        &&& self.errors() == before.errors() + errors
    }

    /// A parser at the first of `tokens`.
    pub fn new(tokens: Vec<TokenWithPosition>) -> (parser: Self)
        ensures
            parser.wf(),
            parser.items() == tokens@,
            parser.position() == 0,
            parser.errors() == Seq::<ParseErrorView>::empty(),
    {
        let parser = Self { tokens, pos: 0, errors: vec![] };
        assert(parser.errors() =~= Seq::<ParseErrorView>::empty());
        parser
    }

    /// The token that the parser has reached, if there is one.
    pub fn current(&self) -> (token: Option<&TokenWithPosition>)
        requires
            self.wf(),
        ensures
            token == if self.position() < self.items().len() {
                Some(&self.items()[self.position()])
            } else {
                None::<&TokenWithPosition>
            },
    {
        self.peek(0)
    }

    /// The token `n` places behind the one that the parser has reached, if
    /// there is one.
    pub fn peek(&self, n: usize) -> (token: Option<&TokenWithPosition>)
        requires
            self.wf(),
        ensures
            token == if self.position() + n < self.items().len() {
                Some(&self.items()[self.position() + n])
            } else {
                None::<&TokenWithPosition>
            },
    {
        if n < self.tokens.len() - self.pos {
            Some(&self.tokens[self.pos + n])
        } else {
            None
        }
    }

    /// The offset at which the current token starts; 0 behind the last
    /// token.
    pub fn current_token_start(&self) -> (start: usize)
        requires
            self.wf(),
        ensures
            start == start_at(self.tokens(), self.position()),
    {
        match self.current() {
            Some(token) => token.start,
            None => 0,
        }
    }

    /// Steps to the next token; behind the last token nothing changes.
    pub fn advance(&mut self)
        requires
            old(self).wf(),
        ensures
            final(self).follows(
                old(self),
                if old(self).position() < old(self).items().len() {
                    old(self).position() + 1
                } else {
                    old(self).position()
                },
                seq![],
            ),
    {
        if self.pos < self.tokens.len() {
            self.pos += 1;
        }
        assert(self.errors() =~= old(self).errors() + Seq::<ParseErrorView>::empty());
    }

    /// Whether the current token is `expected`.
    pub fn current_matches(&self, expected: Token) -> (matches: bool)
        requires
            self.wf(),
        ensures
            matches == token_is_at(self.tokens(), self.position(), expected@),
    {
        self.peek_matches(0, expected)
    }

    /// Whether the token `n` places behind the current one is `expected`.
    pub fn peek_matches(&self, n: usize, expected: Token) -> (matches: bool)
        requires
            self.wf(),
        ensures
            matches == token_is_at(self.tokens(), self.position() + n, expected@),
    {
        match self.peek(n) {
            None => false,
            Some(token) => token.item.same_as(&expected),
        }
    }

    /// Records that `what` was expected at the current token.
    fn report(&mut self, what: &str)
        requires
            old(self).wf(),
        ensures
            final(self).follows(
                old(self),
                old(self).position(),
                seq![error_with_text(old(self).tokens(), old(self).position(), what@)],
            ),
    {
        let mut message = String::from_str("Expected ");
        message.append(what);
        message.append(", found ");
        let error = match self.current() {
            None => {
                message.append("EOF");
                ParseError { message, start: 0, end: 0 }
            },
            Some(token) => {
                message.append(token_name(&token.item).as_str());
                ParseError { message, start: token.start, end: token.end }
            },
        };
        assert(error@ == error_with_text(self.tokens(), self.position(), what@)) by {
            assert(error@.message =~= error_with_text(
                self.tokens(),
                self.position(),
                what@,
            ).message);
        }
        self.errors.push(error);
        assert(self.errors() =~= old(self).errors() + seq![error@]);
    }

    /// Steps over the current token where it is `expected`; else records an
    /// error and stays.
    pub fn expect(&mut self, expected: Token) -> (found: bool)
        requires
            old(self).wf(),
        ensures
            found == token_is_at(old(self).tokens(), old(self).position(), expected@),
            found ==> final(self).follows(old(self), old(self).position() + 1, seq![]),
            !found ==> final(self).follows(
                old(self),
                old(self).position(),
                seq![
                    error_at(
                        old(self).tokens(),
                        old(self).position(),
                        Expected::Token(expected@),
                    ),
                ],
            ),
    {
        if self.current_matches_ref(&expected) {
            self.advance();
            true
        } else {
            self.report(token_name(&expected).as_str());
            false
        }
    }

    /// Whether the current token is `expected`.
    fn current_matches_ref(&self, expected: &Token) -> (matches: bool)
        requires
            self.wf(),
        ensures
            matches == token_is_at(self.tokens(), self.position(), expected@),
    {
        match self.current() {
            None => false,
            Some(token) => token.item.same_as(expected),
        }
    }

    /// Steps behind the next `;`, or behind the last token where none
    /// follows.
    pub fn synchronize(&mut self)
        requires
            old(self).wf(),
        ensures
            final(self).follows(
                old(self),
                resume_at(old(self).tokens(), old(self).position()),
                seq![],
            ),
    {
        loop
            invariant_except_break
                resume_at(self.tokens(), self.position()) == resume_at(
                    old(self).tokens(),
                    old(self).position(),
                ),
            invariant
                self.wf(),
                self.items() == old(self).items(),
                self.errors() == old(self).errors(),
            ensures
                self.wf(),
                self.items() == old(self).items(),
                self.errors() == old(self).errors(),
                self.position() == resume_at(old(self).tokens(), old(self).position()),
            decreases self.items().len() - self.position(),
        {
            if self.pos >= self.tokens.len() {
                break;
            }
            let is_semicolon = self.current_matches(Token::Semicolon);
            self.advance();
            if is_semicolon {
                break;
            }
        }
        assert(self.errors() =~= old(self).errors() + Seq::<ParseErrorView>::empty());
    }

    /// Records that `what` was expected at the current token, and steps
    /// behind the next `;`.
    fn fail(&mut self, what: &str)
        requires
            old(self).wf(),
        ensures
            final(self).follows(
                old(self),
                resume_at(old(self).tokens(), old(self).position()),
                seq![error_with_text(old(self).tokens(), old(self).position(), what@)],
            ),
    {
        self.report(what);
        let ghost reported = self.errors();
        self.synchronize();
        assert(self.errors() =~= reported);
    }

    /// Reads `<statement>`.
    pub fn parse_statement(&mut self) -> (statement: Option<StatementWithPosition>)
        requires
            old(self).wf(),
        ensures
            ({
                let step = statement_at(old(self).tokens(), old(self).position());
                &&& final(self).follows(old(self), step.pos, step.errors)
                &&& view_of(statement) == step.value
            }),
    {
        let start = self.current_token_start();

        if self.current_matches(Token::Semicolon) {
            self.advance();
            return Some(
                StatementWithPosition::new(Statement::Empty, start, self.current_token_start()),
            );
        }
        match self.parse_module_instantiation() {
            Some(module_instantiation) => Some(
                StatementWithPosition::new(
                    Statement::ModuleInstantiation { module_instantiation },
                    start,
                    self.current_token_start(),
                ),
            ),
            None => None,
        }
    }

    /// Reads `<module_instantiation>`.
    pub fn parse_module_instantiation(&mut self) -> (instantiation: Option<
        ModuleInstantiationWithPosition,
    >)
        requires
            old(self).wf(),
        ensures
            ({
                let step = module_instantiation_at(old(self).tokens(), old(self).position());
                &&& final(self).follows(old(self), step.pos, step.errors)
                &&& view_of(instantiation) == step.value
            }),
    {
        let start = self.current_token_start();

        match self.parse_single_module_instantiation() {
            Some(single_module_instantiation) => match self.parse_child_statement() {
                Some(child_statement) => {
                    assert(self.errors() =~= old(self).errors() + Seq::<ParseErrorView>::empty());
                    Some(
                        ModuleInstantiationWithPosition::new(
                            ModuleInstantiation::SingleModuleInstantiation {
                                single_module_instantiation,
                                child_statement,
                            },
                            start,
                            self.current_token_start(),
                        ),
                    )
                },
                None => {
                    assert(self.errors() =~= old(self).errors() + child_statement_at(
                        old(self).tokens(),
                        single_module_instantiation_at(
                            old(self).tokens(),
                            old(self).position(),
                        ).pos,
                    ).errors);
                    None
                },
            },
            None => None,
        }
    }

    /// Reads `<single_module_instantiation>`.
    pub fn parse_single_module_instantiation(&mut self) -> (instantiation: Option<
        SingleModuleInstantiationWithPosition,
    >)
        requires
            old(self).wf(),
        ensures
            ({
                let step = single_module_instantiation_at(
                    old(self).tokens(),
                    old(self).position(),
                );
                &&& final(self).follows(old(self), step.pos, step.errors)
                &&& view_of(instantiation) == step.value
            }),
    {
        let start = self.current_token_start();

        match self.parse_module_id() {
            Some(module_id) => match self.parse_call_arguments() {
                Some(call_arguments) => {
                    assert(self.errors() =~= old(self).errors() + Seq::<ParseErrorView>::empty());
                    Some(
                        SingleModuleInstantiationWithPosition::new(
                            SingleModuleInstantiation::Module { module_id, call_arguments },
                            start,
                            self.current_token_start(),
                        ),
                    )
                },
                None => {
                    assert(self.errors() =~= old(self).errors() + call_arguments_at(
                        old(self).tokens(),
                        module_id_at(old(self).tokens(), old(self).position()).pos,
                    ).errors);
                    None
                },
            },
            None => None,
        }
    }

    /// Reads `<child_statement>`.
    pub fn parse_child_statement(&mut self) -> (statement: Option<ChildStatementWithPosition>)
        requires
            old(self).wf(),
        ensures
            ({
                let step = child_statement_at(old(self).tokens(), old(self).position());
                &&& final(self).follows(old(self), step.pos, step.errors)
                &&& view_of(statement) == step.value
            }),
    {
        let start = self.current_token_start();

        if self.current_matches(Token::Semicolon) {
            self.advance();
            return Some(
                ChildStatementWithPosition::new(
                    ChildStatement::Empty,
                    start,
                    self.current_token_start(),
                ),
            );
        }
        self.fail(token_name(&Token::Semicolon).as_str());
        None
    }

    /// Reads `<module_id>`.
    pub fn parse_module_id(&mut self) -> (module_id: Option<ModuleIdWithPosition>)
        requires
            old(self).wf(),
        ensures
            ({
                let step = module_id_at(old(self).tokens(), old(self).position());
                &&& final(self).follows(old(self), step.pos, step.errors)
                &&& view_of(module_id) == step.value
            }),
    {
        let start = self.current_token_start();

        if self.current_matches(Token::For) {
            self.advance();
            return Some(ModuleIdWithPosition::new(ModuleId::For, start, self.current_token_start()));
        }
        let name: Option<String> = match self.current() {
            Some(token) => match &token.item {
                Token::Identifier(identifier) => Some(identifier.clone()),
                _ => None,
            },
            None => None,
        };
        match name {
            Some(identifier) => {
                self.advance();
                Some(
                    ModuleIdWithPosition::new(
                        ModuleId::Identifier(identifier),
                        start,
                        self.current_token_start(),
                    ),
                )
            },
            None => {
                self.fail("module name");
                None
            },
        }
    }

    /// Reads `'(' <number>* ')'`.
    pub fn parse_call_arguments(&mut self) -> (arguments: Option<Vec<CallArgumentWithPosition>>)
        requires
            old(self).wf(),
        ensures
            ({
                let step = call_arguments_at(old(self).tokens(), old(self).position());
                &&& final(self).follows(old(self), step.pos, step.errors)
                &&& match arguments {
                    Some(list) => step.value == Some(views(list@)),
                    None => step.value is None,
                }
            }),
    {
        if !self.expect(Token::LeftParen) {
            let ghost reported = self.errors();
            self.synchronize();
            assert(self.errors() =~= reported);
            return None;
        }
        let ghost first = self.position();
        let mut argument_calls: Vec<CallArgumentWithPosition> = vec![];
        loop
            invariant
                self.wf(),
                self.items() == old(self).items(),
                self.errors() == old(self).errors(),
                first == old(self).position() + 1,
                first <= self.position(),
                numbers_end(self.tokens(), first) == numbers_end(self.tokens(), self.position()),
                views(argument_calls@) =~= arguments_between(
                    self.tokens(),
                    first,
                    self.position(),
                ),
            ensures
                self.wf(),
                self.items() == old(self).items(),
                self.errors() == old(self).errors(),
                self.position() == numbers_end(self.tokens(), first),
                views(argument_calls@) =~= arguments_between(
                    self.tokens(),
                    first,
                    self.position(),
                ),
            decreases self.items().len() - self.position(),
        {
            let ghost before = self.errors();
            let ghost read = views(argument_calls@);
            let ghost at = self.position();
            match self.parse_argument_call() {
                Some(argument_call) => {
                    assert(self.errors() =~= before);
                    argument_calls.push(argument_call);
                    assert(views(argument_calls@) =~= read.push(argument_at(self.tokens(), at)));
                    assert(read.push(argument_at(self.tokens(), at)) =~= arguments_between(
                        self.tokens(),
                        first,
                        at + 1,
                    ));
                },
                None => {
                    assert(self.errors() =~= before);
                    break;
                },
            }
        }

        if !self.expect(Token::RightParen) {
            let ghost reported = self.errors();
            self.synchronize();
            assert(self.errors() =~= reported);
            return None;
        }
        assert(self.errors() =~= old(self).errors() + Seq::<ParseErrorView>::empty());
        Some(argument_calls)
    }

    /// Reads `<call_argument>` where a number stands; else stays.
    pub fn parse_argument_call(&mut self) -> (argument: Option<CallArgumentWithPosition>)
        requires
            old(self).wf(),
        ensures
            ({
                let tokens = old(self).tokens();
                let pos = old(self).position();
                if pos < tokens.len() && tokens[pos].item is Number {
                    &&& final(self).follows(old(self), pos + 1, seq![])
                    &&& view_of(argument) == Some(argument_at(tokens, pos))
                } else {
                    &&& final(self).follows(old(self), pos, seq![])
                    &&& argument is None
                }
            }),
    {
        let start = self.current_token_start();

        match self.parse_expr() {
            Some(expr) => Some(
                CallArgumentWithPosition::new(
                    CallArgument::Expr { expr },
                    start,
                    self.current_token_start(),
                ),
            ),
            None => None,
        }
    }

    /// Reads `<expr>` where a number stands; else stays.
    pub fn parse_expr(&mut self) -> (expr: Option<ExprWithPosition>)
        requires
            old(self).wf(),
        ensures
            ({
                let tokens = old(self).tokens();
                let pos = old(self).position();
                if pos < tokens.len() && tokens[pos].item is Number {
                    &&& final(self).follows(old(self), pos + 1, seq![])
                    &&& view_of(expr) == Some(expr_at(tokens, pos))
                } else {
                    &&& final(self).follows(old(self), pos, seq![])
                    &&& expr is None
                }
            }),
    {
        let start = self.current_token_start();

        let number: Option<String> = match self.current() {
            Some(token) => match &token.item {
                Token::Number(number) => Some(number.clone()),
                _ => None,
            },
            None => None,
        };
        match number {
            Some(number) => {
                self.advance();
                Some(ExprWithPosition::new(Expr::Number(number), start, self.current_token_start()))
            },
            None => {
                assert(self.errors() =~= old(self).errors() + Seq::<ParseErrorView>::empty());
                None
            },
        }
    }

    /// Reads statements up to the end of the tokens, or to the token for the
    /// end of the text.
    pub fn parse(self) -> (result: ParseResult)
        requires
            self.wf(),
        ensures
            views(result.statements@) == program_from(self.tokens(), self.position()).statements,
            views(result.errors@) == self.errors() + program_from(
                self.tokens(),
                self.position(),
            ).errors,
    {
        let mut parser = self;
        let mut statements: Vec<StatementWithPosition> = vec![];
        let ghost tokens = self.tokens();
        let ghost whole = program_from(tokens, self.position());

        loop
            invariant
                parser.wf(),
                parser.items() == self.items(),
                tokens == self.tokens(),
                whole == program_from(tokens, self.position()),
                views(statements@) + program_from(tokens, parser.position()).statements
                    =~= whole.statements,
                parser.errors() + program_from(tokens, parser.position()).errors
                    =~= self.errors() + whole.errors,
            ensures
                views(statements@) =~= whole.statements,
                parser.errors() =~= self.errors() + whole.errors,
            decreases parser.items().len() - parser.position(),
        {
            let at_eof = match parser.current() {
                Some(token) => token.item.same_as(&Token::Eof),
                None => true,
            };
            if at_eof {
                break;
            }
            proof {
                lemma_statement_at(tokens, parser.position());
            }
            let ghost step = statement_at(tokens, parser.position());
            let ghost rest = program_from(tokens, step.pos);
            let ghost read = views(statements@);
            let ghost found = parser.errors();
            match parser.parse_statement() {
                Some(statement) => {
                    statements.push(statement);
                    assert(views(statements@) =~= read.push(statement@));
                    assert(read.push(statement@) + rest.statements =~= read + (seq![statement@]
                        + rest.statements));
                    assert(parser.errors() + rest.errors =~= found + (step.errors + rest.errors));
                },
                None => {
                    assert(parser.errors() + rest.errors =~= found + (step.errors + rest.errors));
                },
            }
        }
        ParseResult { statements, errors: parser.errors }
    }
}

/// The view of a value that may be missing.
pub open spec fn view_of<T: View>(value: Option<T>) -> Option<T::V> {
    match value {
        Some(v) => Some(v@),
        None => None,
    }
}

/// The statements of a list of tokens, and the places where the tokens leave
/// the grammar.
pub fn openscad_parse(tokens: Vec<TokenWithPosition>) -> (result: ParseResult)
    ensures
        views(result.statements@) == program_from(views(tokens@), 0).statements,
        views(result.errors@) == program_from(views(tokens@), 0).errors,
{
    let parser = Parser::new(tokens);
    let result = parser.parse();
    assert(views(result.errors@) =~= program_from(views(tokens@), 0).errors);
    result
}

/// Every statement that is read and every error that is found uses up at
/// least one token: together they are no more than the tokens.
pub proof fn lemma_program_is_bounded(tokens: Seq<WithPosition<TokenView>>, pos: int)
    requires
        0 <= pos <= tokens.len(),
    ensures
        program_from(tokens, pos).statements.len() + program_from(tokens, pos).errors.len()
            <= tokens.len() - pos,
    decreases tokens.len() - pos,
{
    if !at_end(tokens, pos) {
        lemma_statement_at(tokens, pos);
        let step = statement_at(tokens, pos);
        lemma_program_is_bounded(tokens, step.pos);
    }
}

/// Where the tokens hold no error, every token up to the end of the text
/// belongs to a statement: reading goes from statement to statement without
/// skipping.
pub proof fn lemma_statements_follow_each_other(tokens: Seq<WithPosition<TokenView>>, pos: int)
    requires
        0 <= pos <= tokens.len(),
        !at_end(tokens, pos),
        program_from(tokens, pos).errors.len() == 0,
    ensures
        statement_at(tokens, pos).value is Some,
        program_from(tokens, pos).statements == seq![statement_at(tokens, pos).value->0]
            + program_from(tokens, statement_at(tokens, pos).pos).statements,
        program_from(tokens, statement_at(tokens, pos).pos).errors.len() == 0,
{
    lemma_statement_at(tokens, pos);
}

} // verus!
