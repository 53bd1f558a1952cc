//! Recursive-descent, error-tolerant statement parsing.
//!
//! Every executable parser has a spec-level mirror (`spec_parse_*`) that
//! says, position by position, what the parser returns and where it leaves
//! the cursor, for every token stream. The executable functions are proved
//! to agree with their mirrors exactly, on success and on failure, so
//! parsing is deterministic by contract and downstream stages can reason
//! about parse results as pure functions of the input tokens.
//!
//! The grammar parsed here:
//!
//! ```text
//! program    := statement* end-of-input
//! statement  := global | class
//! global     := 'global' variable-list terminator
//! class      := 'class' IDENT ('extends' IDENT)? '{' '}'
//! ```
//!
//! `variable-list` follows the uniform sequence-parser pattern: items
//! separated by commas, bounded by the statement terminator kinds. A parse
//! error from an item aborts the whole sequence; recovery is the caller's
//! statement-level responsibility.

use vstd::prelude::*;

use crate::ast::Global;
use crate::ast::GlobalView;
use crate::ast::ClassDecl;
use crate::ast::Extends;
use crate::ast::ParseError;
use crate::ast::Program;
use crate::ast::SeparatedView;
use crate::ast::Statement;
use crate::ast::StatementView;
use crate::ast::Terminator;
use crate::ast::TokenSeparatedSequence;
use crate::ast::Variable;
use crate::stream::spec_peek;
use crate::stream::TokenStream;
use crate::token::is_list_terminator;
use crate::token::spans_ordered;
use crate::token::Token;
use crate::token::TokenKind;

verus! {

/// Outcome of one spec-level parse: a node plus the position just after
/// it, or the structured error the parser reports.
pub enum Parsed<T> {
    Node { node: T, next: int },
    Failed { error: ParseError },
}

/// Mirror of `TokenStream::expect`: the token at `p` when it has the
/// expected kind, advancing by one; a structured error otherwise.
pub open spec fn spec_expect(toks: Seq<Token>, p: int, expected: TokenKind) -> Parsed<Token> {
    match spec_peek(toks, p) {
        Ok(t) => if t.kind == expected {
            Parsed::Node { node: t, next: p + 1 }
        } else {
            Parsed::Failed {
                error: ParseError::UnexpectedToken { expected, found: t.kind, span: t.span },
            }
        },
        Err(e) => Parsed::Failed { error: e },
    }
}

/// What parsing one variable at `p` yields: the variable carried by a
/// variable token, or the structured error.
pub open spec fn spec_parse_variable(toks: Seq<Token>, p: int) -> Parsed<Variable> {
    match spec_expect(toks, p, TokenKind::Variable) {
        Parsed::Node { node, next } => Parsed::Node {
            node: Variable { name: node.name, span: node.span },
            next,
        },
        Parsed::Failed { error } => Parsed::Failed { error },
    }
}

/// One step of accumulation: an item appended.
pub open spec fn with_item(acc: SeparatedView<Variable>, v: Variable) -> SeparatedView<Variable> {
    SeparatedView { items: acc.items.push(v), separators: acc.separators }
}

/// One step of accumulation: an item and the separator after it appended.
pub open spec fn with_item_and_separator(
    acc: SeparatedView<Variable>,
    v: Variable,
    sep: Token,
) -> SeparatedView<Variable> {
    SeparatedView { items: acc.items.push(v), separators: acc.separators.push(sep) }
}

/// Mirror of the sequence parser on variables: starting at `p` with the
/// already-collected `acc`, stop before a terminator kind, otherwise parse
/// one item, then consume a comma and continue or stop. Peeking past the
/// end of input fails the whole sequence.
pub open spec fn spec_parse_variable_list(
    toks: Seq<Token>,
    p: int,
    acc: SeparatedView<Variable>,
) -> Parsed<SeparatedView<Variable>>
    decreases toks.len() - p,
{
    match spec_peek(toks, p) {
        Err(e) => Parsed::Failed { error: e },
        Ok(t) => if is_list_terminator(t.kind) {
            Parsed::Node { node: acc, next: p }
        } else {
            match spec_parse_variable(toks, p) {
                Parsed::Failed { error } => Parsed::Failed { error },
                Parsed::Node { node, next } => match spec_peek(toks, next) {
                    Err(e) => Parsed::Failed { error: e },
                    Ok(t2) => if t2.kind == TokenKind::Comma {
                        spec_parse_variable_list(toks, next + 1, with_item_and_separator(acc, node, t2))
                    } else {
                        Parsed::Node { node: with_item(acc, node), next }
                    },
                },
            }
        },
    }
}

/// Mirror of the terminator parser: implicit end of input, consumed
/// statement punctuation or close tag, or a structured error.
pub open spec fn spec_parse_terminator(toks: Seq<Token>, p: int) -> Parsed<Terminator> {
    match spec_peek(toks, p) {
        Err(_) => Parsed::Node { node: Terminator::Implicit, next: p },
        Ok(t) => if t.kind == TokenKind::Semicolon {
            Parsed::Node { node: Terminator::Semicolon(t), next: p + 1 }
        } else if t.kind == TokenKind::CloseTag {
            Parsed::Node { node: Terminator::ClosingTag(t), next: p + 1 }
        } else {
            Parsed::Failed {
                error: ParseError::UnexpectedToken {
                    expected: TokenKind::Semicolon,
                    found: t.kind,
                    span: t.span,
                },
            }
        },
    }
}

/// Mirror of the `global` statement parser: keyword, variable list,
/// terminator, composed exactly in that order.
pub open spec fn spec_parse_global(toks: Seq<Token>, p: int) -> Parsed<GlobalView> {
    match spec_expect(toks, p, TokenKind::Global) {
        Parsed::Failed { error } => Parsed::Failed { error },
        Parsed::Node { node: kw, next: p1 } => match spec_parse_variable_list(
            toks,
            p1,
            SeparatedView::empty(),
        ) {
            Parsed::Failed { error } => Parsed::Failed { error },
            Parsed::Node { node: list, next: p2 } => match spec_parse_terminator(toks, p2) {
                Parsed::Failed { error } => Parsed::Failed { error },
                Parsed::Node { node: term, next: p3 } => Parsed::Node {
                    node: GlobalView { global: kw, variables: list, terminator: term },
                    next: p3,
                },
            },
        },
    }
}

/// Mirror of the class declaration parser.
pub open spec fn spec_parse_class(toks: Seq<Token>, p: int) -> Parsed<ClassDecl> {
    match spec_expect(toks, p, TokenKind::Class) {
        Parsed::Failed { error } => Parsed::Failed { error },
        Parsed::Node { node: kw, next: p1 } => match spec_expect(toks, p1, TokenKind::Identifier) {
            Parsed::Failed { error } => Parsed::Failed { error },
            Parsed::Node { node: name, next: p2 } => {
                if 0 <= p2 < toks.len() && toks[p2].kind == TokenKind::Extends {
                    match spec_expect(toks, p2 + 1, TokenKind::Identifier) {
                        Parsed::Failed { error } => Parsed::Failed { error },
                        Parsed::Node { node: parent, next: p3 } => spec_parse_class_body(
                            toks,
                            p3,
                            kw,
                            name,
                            Some(Extends { keyword: toks[p2], parent }),
                        ),
                    }
                } else {
                    spec_parse_class_body(toks, p2, kw, name, None)
                }
            },
        },
    }
}

/// Tail of the class declaration parse: the braces of the (empty) body.
pub open spec fn spec_parse_class_body(
    toks: Seq<Token>,
    p: int,
    kw: Token,
    name: Token,
    extends: Option<Extends>,
) -> Parsed<ClassDecl> {
    match spec_expect(toks, p, TokenKind::LeftBrace) {
        Parsed::Failed { error } => Parsed::Failed { error },
        Parsed::Node { node: lb, next: p1 } => match spec_expect(toks, p1, TokenKind::RightBrace) {
            Parsed::Failed { error } => Parsed::Failed { error },
            Parsed::Node { node: rb, next: p2 } => Parsed::Node {
                node: ClassDecl { class: kw, name, extends, left_brace: lb, right_brace: rb },
                next: p2,
            },
        },
    }
}

/// Mirror of the statement dispatcher: LL(1) on the peeked token kind.
pub open spec fn spec_parse_statement(toks: Seq<Token>, p: int) -> Parsed<StatementView> {
    match spec_peek(toks, p) {
        Err(e) => Parsed::Failed { error: e },
        Ok(t) => if t.kind == TokenKind::Global {
            match spec_parse_global(toks, p) {
                Parsed::Failed { error } => Parsed::Failed { error },
                Parsed::Node { node, next } => Parsed::Node {
                    node: StatementView::Global(node),
                    next,
                },
            }
        } else if t.kind == TokenKind::Class {
            match spec_parse_class(toks, p) {
                Parsed::Failed { error } => Parsed::Failed { error },
                Parsed::Node { node, next } => Parsed::Node {
                    node: StatementView::Class(node),
                    next,
                },
            }
        } else {
            Parsed::Failed {
                error: ParseError::UnexpectedToken {
                    expected: TokenKind::Global,
                    found: t.kind,
                    span: t.span,
                },
            }
        },
    }
}

/// Outcome of a whole-file parse: the statements parsed before the first
/// error (all of them when there is none), and at most one parse error.
pub struct ProgramResult {
    pub statements: Seq<StatementView>,
    pub error: Option<ParseError>,
}

/// Mirror of the program parser: statements until end of input, stopping
/// at the first parse error and keeping the partial prefix.
pub open spec fn spec_parse_program(
    toks: Seq<Token>,
    p: int,
    acc: Seq<StatementView>,
) -> ProgramResult
    decreases toks.len() - p,
{
    if p >= toks.len() {
        ProgramResult { statements: acc, error: None }
    } else {
        match spec_parse_statement(toks, p) {
            Parsed::Failed { error } => ProgramResult { statements: acc, error: Some(error) },
            Parsed::Node { node, next } => if p < next <= toks.len() {
                spec_parse_program(toks, next, acc.push(node))
            } else {
                ProgramResult { statements: acc.push(node), error: None }
            },
        }
    }
}

/// What parsing one whole source file yields, from its first token.
pub open spec fn spec_program_of(toks: Seq<Token>) -> ProgramResult {
    spec_parse_program(toks, 0, Seq::empty())
}

/// Parses one `$variable`.
pub fn parse_variable(stream: &mut TokenStream) -> (r: Result<Variable, ParseError>)
    requires
        old(stream).wf(),
    ensures
        final(stream).tokens@ == old(stream).tokens@,
        final(stream).wf(),
        old(stream).position <= final(stream).position,
        (match spec_parse_variable(old(stream).tokens@, old(stream).position as int) {
            Parsed::Node { node, next } => r matches Ok(v) && v == node && final(stream).position
                == next,
            Parsed::Failed { error } => r matches Err(e) && e == error && final(stream).position
                == old(stream).position,
        }),
{
    let t = stream.expect(TokenKind::Variable)?;
    Ok(Variable { name: t.name, span: t.span })
}

/// The sequence parser: parses `item (separator item)*` bounded by the
/// statement-terminator kinds, recording the separators between items.
///
/// Besides agreeing with its mirror, the result satisfies the
/// `TokenSeparatedSequence` data-model invariant
/// `separators.len() == max(items.len() - 1, 0)` — except that a trailing
/// separator directly before a terminator is consumed and recorded, which
/// leaves `separators.len() == items.len()` — and, whenever the token
/// stream is ordered by position, every recorded separator lies between
/// the spans of its neighboring items.
pub fn parse_variable_sequence(stream: &mut TokenStream) -> (r: Result<
    TokenSeparatedSequence<Variable>,
    ParseError,
>)
    requires
        old(stream).wf(),
    ensures
        final(stream).tokens@ == old(stream).tokens@,
        final(stream).wf(),
        old(stream).position <= final(stream).position,
        (match spec_parse_variable_list(
            old(stream).tokens@,
            old(stream).position as int,
            SeparatedView::empty(),
        ) {
            Parsed::Node { node, next } => r matches Ok(s) && s@ == node && final(stream).position
                == next,
            Parsed::Failed { error } => r matches Err(e) && e == error,
        }),
        (r matches Ok(s) ==> s@.wf() || s@.wf_trailing()),
        (r matches Ok(s) ==> (spans_ordered(old(stream).tokens@) ==> separators_between(s@))),
{
    let ghost toks: Seq<Token> = stream.tokens@;
    let ghost p0: int = stream.position as int;
    let mut items: Vec<Variable> = Vec::new();
    let mut separators: Vec<Token> = Vec::new();
    loop
        invariant
            toks == old(stream).tokens@,
            p0 == old(stream).position as int,
            stream.wf(),
            stream.tokens@ == toks,
            p0 <= stream.position as int,
            items@.len() == separators@.len(),
            spec_parse_variable_list(toks, p0, SeparatedView::empty())
                == spec_parse_variable_list(
                toks,
                stream.position as int,
                SeparatedView { items: items@, separators: separators@ },
            ),
            spans_ordered(toks) ==> list_prefix_ordered(
                toks,
                stream.position as int,
                SeparatedView { items: items@, separators: separators@ },
            ),
        decreases toks.len() - stream.position,
    {
        let next = stream.peek()?;
        if next.kind == TokenKind::Semicolon || next.kind == TokenKind::CloseTag {
            return Ok(TokenSeparatedSequence::new(items, separators));
        }
        let v = parse_variable(stream)?;
        items.push(v);
        let after = stream.peek()?;
        if after.kind == TokenKind::Comma {
            let sep = stream.expect_any()?;
            separators.push(sep);
        } else {
            return Ok(TokenSeparatedSequence::new(items, separators));
        }
    }
}

/// Parses the terminator of a top-level statement: statement-ending
/// punctuation, the end-of-embedded-code marker, or the implicit end of
/// input. Exactly one terminates every top-level statement.
pub fn parse_terminator(stream: &mut TokenStream) -> (r: Result<Terminator, ParseError>)
    requires
        old(stream).wf(),
    ensures
        final(stream).tokens@ == old(stream).tokens@,
        final(stream).wf(),
        old(stream).position <= final(stream).position,
        (match spec_parse_terminator(old(stream).tokens@, old(stream).position as int) {
            Parsed::Node { node, next } => r matches Ok(t) && t == node && final(stream).position
                == next,
            Parsed::Failed { error } => r matches Err(e) && e == error && final(stream).position
                == old(stream).position,
        }),
{
    if stream.is_exhausted() {
        return Ok(Terminator::Implicit);
    }
    let t = stream.peek()?;
    if t.kind == TokenKind::Semicolon {
        let tok = stream.expect_any()?;
        Ok(Terminator::Semicolon(tok))
    } else if t.kind == TokenKind::CloseTag {
        let tok = stream.expect_any()?;
        Ok(Terminator::ClosingTag(tok))
    } else {
        Err(
            ParseError::UnexpectedToken {
                expected: TokenKind::Semicolon,
                found: t.kind,
                span: t.span,
            },
        )
    }
}

/// Parses a `global $a, $b, ...;` statement: the keyword, the
/// comma-separated variable list bounded by the terminator kinds, then the
/// terminator. This composition is the canonical shape for every
/// keyword-plus-list-plus-terminator statement of the grammar.
pub fn parse_global(stream: &mut TokenStream) -> (r: Result<Global, ParseError>)
    requires
        old(stream).wf(),
    ensures
        final(stream).tokens@ == old(stream).tokens@,
        final(stream).wf(),
        old(stream).position <= final(stream).position,
        (match spec_parse_global(old(stream).tokens@, old(stream).position as int) {
            Parsed::Node { node, next } => r matches Ok(g) && g@ == node && final(stream).position
                == next && old(stream).position < next,
            Parsed::Failed { error } => r matches Err(e) && e == error,
        }),
        (r matches Ok(g) ==> g@.variables.wf() || g@.variables.wf_trailing()),
        (r matches Ok(g) ==> (spans_ordered(old(stream).tokens@) ==> separators_between(
            g@.variables,
        ))),
{
    let global = stream.expect(TokenKind::Global)?;
    let variables = parse_variable_sequence(stream)?;
    let terminator = parse_terminator(stream)?;
    Ok(Global { global, variables, terminator })
}

/// Parses a `class Name [extends Parent] { }` declaration.
pub fn parse_class(stream: &mut TokenStream) -> (r: Result<ClassDecl, ParseError>)
    requires
        old(stream).wf(),
    ensures
        final(stream).tokens@ == old(stream).tokens@,
        final(stream).wf(),
        old(stream).position <= final(stream).position,
        (match spec_parse_class(old(stream).tokens@, old(stream).position as int) {
            Parsed::Node { node, next } => r matches Ok(c) && c == node && final(stream).position
                == next && old(stream).position < next,
            Parsed::Failed { error } => r matches Err(e) && e == error,
        }),
{
    let class = stream.expect(TokenKind::Class)?;
    let name = stream.expect(TokenKind::Identifier)?;
    let mut extends: Option<Extends> = None;
    if !stream.is_exhausted() {
        let t = stream.peek()?;
        if t.kind == TokenKind::Extends {
            let keyword = stream.expect_any()?;
            let parent = stream.expect(TokenKind::Identifier)?;
            extends = Some(Extends { keyword, parent });
        }
    }
    let left_brace = stream.expect(TokenKind::LeftBrace)?;
    let right_brace = stream.expect(TokenKind::RightBrace)?;
    Ok(ClassDecl { class, name, extends, left_brace, right_brace })
}

/// Parses one top-level statement, dispatching on the peeked token kind.
pub fn parse_statement(stream: &mut TokenStream) -> (r: Result<Statement, ParseError>)
    requires
        old(stream).wf(),
    ensures
        final(stream).tokens@ == old(stream).tokens@,
        final(stream).wf(),
        old(stream).position <= final(stream).position,
        (match spec_parse_statement(old(stream).tokens@, old(stream).position as int) {
            Parsed::Node { node, next } => r matches Ok(s) && s@ == node && final(stream).position
                == next && old(stream).position < next,
            Parsed::Failed { error } => r matches Err(e) && e == error,
        }),
{
    let t = stream.peek()?;
    if t.kind == TokenKind::Global {
        let g = parse_global(stream)?;
        Ok(Statement::Global(g))
    } else if t.kind == TokenKind::Class {
        let c = parse_class(stream)?;
        Ok(Statement::Class(c))
    } else {
        Err(
            ParseError::UnexpectedToken {
                expected: TokenKind::Global,
                found: t.kind,
                span: t.span,
            },
        )
    }
}

/// Parses one whole source file: statements until the end of input.
///
/// Error tolerance lives here: the first parse error stops the parse, is
/// returned as data beside the statements already parsed, and never
/// panics or poisons anything beyond this file.
pub fn parse_program(stream: &mut TokenStream) -> (r: (Program, Option<ParseError>))
    requires
        old(stream).wf(),
    ensures
        final(stream).tokens@ == old(stream).tokens@,
        final(stream).wf(),
        (spec_parse_program(old(stream).tokens@, old(stream).position as int, Seq::empty())
            == ProgramResult { statements: r.0@, error: r.1 }),
{
    let ghost toks: Seq<Token> = stream.tokens@;
    let ghost p0: int = stream.position as int;
    let mut statements: Vec<Statement> = Vec::new();
    proof {
        assert(Seq::new(statements@.len(), |i: int| statements@[i]@) =~= Seq::<
            StatementView,
        >::empty());
    }
    loop
        invariant
            toks == old(stream).tokens@,
            p0 == old(stream).position as int,
            stream.wf(),
            stream.tokens@ == toks,
            spec_parse_program(toks, p0, Seq::empty()) == spec_parse_program(
                toks,
                stream.position as int,
                Seq::new(statements@.len(), |i: int| statements@[i]@),
            ),
        decreases toks.len() - stream.position,
    {
        if stream.is_exhausted() {
            let program = Program { statements };
            return (program, None);
        }
        match parse_statement(stream) {
            Ok(s) => {
                let ghost before: Seq<StatementView> = Seq::new(
                    statements@.len(),
                    |i: int| statements@[i]@,
                );
                statements.push(s);
                proof {
                    assert(Seq::new(statements@.len(), |i: int| statements@[i]@) =~= before.push(
                        s@,
                    ));
                }
            },
            Err(e) => {
                let program = Program { statements };
                return (program, Some(e));
            },
        }
    }
}

/// Every recorded separator lies between the spans of its neighboring
/// items: it starts no earlier than the item on its left ends, and ends no
/// later than the item on its right starts.
pub open spec fn separators_between(s: SeparatedView<Variable>) -> bool {
    forall|i: int|
        0 <= i < s.separators.len() ==> {
            &&& i < s.items.len() ==> s.items[i].span.end <= (#[trigger] s.separators[i]).span.start
            &&& i + 1 < s.items.len() ==> s.separators[i].span.end <= s.items[i + 1].span.start
        }
}

/// Invariant of a partially collected sequence whose parse stands at `p`:
/// the separators already recorded lie between their neighbors, counts are
/// balanced (every item so far was followed by its separator), and the
/// last recorded token ends before the token at `p` starts.
pub open spec fn list_prefix_ordered(
    toks: Seq<Token>,
    p: int,
    acc: SeparatedView<Variable>,
) -> bool {
    &&& separators_between(acc)
    &&& (acc.separators.len() > 0 && p < toks.len() ==> acc.separators.last().span.end
        <= toks[p].span.start)
}

} // verus!
