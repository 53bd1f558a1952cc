//! Abstract syntax tree: typed nodes owning their children, with spans
//! computed from component token spans.
//!
//! Nodes that own vectors also have a ghost model (their `View`), so that
//! spec-level parsing functions can speak about whole parse results.

use vstd::prelude::*;

use crate::token::Span;
use crate::token::Token;
use crate::token::TokenKind;

verus! {

/// An ordered sequence of items together with the separator tokens that
/// stood between them. Every comma-separated list in the grammar uses it.
///
/// The intended invariant is `separators.len() == max(items.len() - 1, 0)`;
/// the error-tolerant sequence parser can additionally produce one trailing
/// separator (`separators.len() == items.len()`), see `wf_trailing`.
pub struct TokenSeparatedSequence<T> {
    pub items: Vec<T>,
    pub separators: Vec<Token>,
}

/// Ghost model of a `TokenSeparatedSequence`.
pub struct SeparatedView<T> {
    pub items: Seq<T>,
    pub separators: Seq<Token>,
}

impl<T> SeparatedView<T> {
    /// The empty sequence.
    pub open spec fn empty() -> SeparatedView<T> {
        SeparatedView { items: Seq::empty(), separators: Seq::empty() }
    }

    /// The data-model invariant: one separator between each pair of
    /// neighboring items, none elsewhere.
    pub open spec fn wf(self) -> bool {
        self.separators.len() == if self.items.len() == 0 {
            0int
        } else {
            self.items.len() - 1
        }
    }

    /// The shape left by a consumed trailing separator: as many separators
    /// as items (the last separator has no item on its right).
    pub open spec fn wf_trailing(self) -> bool {
        self.items.len() > 0 && self.separators.len() == self.items.len()
    }
}

impl<T> View for TokenSeparatedSequence<T> {
    type V = SeparatedView<T>;

    open spec fn view(&self) -> SeparatedView<T> {
        SeparatedView { items: self.items@, separators: self.separators@ }
    }
}

impl<T> TokenSeparatedSequence<T> {
    /// Packs items and the separators recorded between them.
    pub fn new(items: Vec<T>, separators: Vec<Token>) -> (r: TokenSeparatedSequence<T>)
        ensures
            r@.items == items@,
            r@.separators == separators@,
    {
        TokenSeparatedSequence { items, separators }
    }

    /// Number of items.
    pub fn len(&self) -> (r: usize)
        ensures
            r == self@.items.len(),
    {
        self.items.len()
    }
}

/// A `$name` variable occurrence.
#[derive(Clone, Copy, Debug, PartialEq, Eq, Structural)]
pub struct Variable {
    pub name: u32,
    pub span: Span,
}

/// What legally ended a top-level statement.
#[derive(Clone, Copy, Debug, PartialEq, Eq, Structural)]
pub enum Terminator {
    /// Statement-ending punctuation (`;`).
    Semicolon(Token),
    /// The end-of-embedded-code marker (`?>`).
    ClosingTag(Token),
    /// Implicit end of input.
    Implicit,
}

/// A `global $a, $b, ...;` declaration.
pub struct Global {
    /// The `global` keyword token.
    pub global: Token,
    /// The declared variables with the commas between them.
    pub variables: TokenSeparatedSequence<Variable>,
    /// What ended the statement.
    pub terminator: Terminator,
}

/// Ghost model of a `Global` node.
pub struct GlobalView {
    pub global: Token,
    pub variables: SeparatedView<Variable>,
    pub terminator: Terminator,
}

impl View for Global {
    type V = GlobalView;

    open spec fn view(&self) -> GlobalView {
        GlobalView { global: self.global, variables: self.variables@, terminator: self.terminator }
    }
}

/// An `extends Parent` clause of a class declaration.
#[derive(Clone, Copy, Debug, PartialEq, Eq, Structural)]
pub struct Extends {
    /// The `extends` keyword token.
    pub keyword: Token,
    /// The identifier token naming the parent class.
    pub parent: Token,
}

/// A `class Name [extends Parent] { }` declaration.
#[derive(Clone, Copy, Debug, PartialEq, Eq, Structural)]
pub struct ClassDecl {
    /// The `class` keyword token.
    pub class: Token,
    /// The identifier token naming the class.
    pub name: Token,
    /// The `extends` clause, when present.
    pub extends: Option<Extends>,
    /// The `{` token opening the (empty) body.
    pub left_brace: Token,
    /// The `}` token closing the body.
    pub right_brace: Token,
}

/// One top-level statement.
pub enum Statement {
    Global(Global),
    Class(ClassDecl),
}

/// Ghost model of a `Statement`.
pub enum StatementView {
    Global(GlobalView),
    Class(ClassDecl),
}

impl View for Statement {
    type V = StatementView;

    open spec fn view(&self) -> StatementView {
        match self {
            Statement::Global(g) => StatementView::Global(g@),
            Statement::Class(c) => StatementView::Class(*c),
        }
    }
}

/// The AST root: the top-level statements of one source file, in order.
pub struct Program {
    pub statements: Vec<Statement>,
}

impl View for Program {
    type V = Seq<StatementView>;

    open spec fn view(&self) -> Seq<StatementView> {
        Seq::new(self.statements@.len(), |i: int| self.statements@[i]@)
    }
}

/// The kinds a structural parse error can take. Every variant carries the
/// span of the offending position.
#[derive(Clone, Copy, Debug, PartialEq, Eq, Structural)]
pub enum ParseError {
    /// The stream held a token of the wrong kind.
    UnexpectedToken { expected: TokenKind, found: TokenKind, span: Span },
    /// The stream ran out of tokens while a construct was still open.
    UnexpectedEndOfInput { position: u32 },
}

} // verus!
