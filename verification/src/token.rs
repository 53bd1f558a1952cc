//! Lexical model: source spans, token kinds, and tokens.
//!
//! The lexer is an external collaborator: it hands the library a finished
//! vector of tokens, each with a kind, an interned name id (meaningful only
//! for variables and identifiers) and a source span. Nothing here re-scans
//! source text; every span a parser attaches is computed from token spans.

use vstd::prelude::*;

verus! {

/// A half-open range of byte offsets into one source file.
#[derive(Clone, Copy, Debug, PartialEq, Eq, Structural)]
pub struct Span {
    pub start: u32,
    pub end: u32,
}

impl Span {
    /// A span never runs backwards.
    pub open spec fn wf(self) -> bool {
        self.start <= self.end
    }
}

/// The kind of a lexical token.
///
/// `Variable` and `Identifier` tokens carry their interned name in the
/// token's `name` field; for every other kind that field is zero.
#[derive(Clone, Copy, Debug, PartialEq, Eq, Structural)]
pub enum TokenKind {
    /// The `global` keyword.
    Global,
    /// The `class` keyword.
    Class,
    /// The `extends` keyword.
    Extends,
    /// A `$name` variable.
    Variable,
    /// A bare identifier.
    Identifier,
    /// A `,` separator.
    Comma,
    /// A `;` statement terminator.
    Semicolon,
    /// A `?>` end-of-embedded-code marker.
    CloseTag,
    /// A `{` brace.
    LeftBrace,
    /// A `}` brace.
    RightBrace,
}

/// One lexical token: kind, interned name id, and source span.
#[derive(Clone, Copy, Debug, PartialEq, Eq, Structural)]
pub struct Token {
    pub kind: TokenKind,
    pub name: u32,
    pub span: Span,
}

/// Whether `kind` terminates the operand list of a statement: either the
/// statement-ending punctuation or the end-of-embedded-code marker.
pub open spec fn is_list_terminator(kind: TokenKind) -> bool {
    kind == TokenKind::Semicolon || kind == TokenKind::CloseTag
}

/// Tokens come from the lexer ordered by position: each token's span is
/// well formed and ends no later than the next token starts.
pub open spec fn spans_ordered(toks: Seq<Token>) -> bool {
    &&& forall|i: int| 0 <= i < toks.len() ==> (#[trigger] toks[i].span).wf()
    &&& forall|i: int| 0 < i < toks.len() ==> (#[trigger] toks[i].span).start >= toks[i - 1].span.end
}

} // verus!
