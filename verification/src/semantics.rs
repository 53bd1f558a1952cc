//! The per-source pipeline stage: parse one file's tokens, run the
//! semantic checks, and pack the result into one immutable `Semantics`
//! unit.
//!
//! A parse error is captured as data here — at most one per file — and the
//! file still yields a unit with the statements parsed before the error,
//! so one malformed file never blocks the analysis of the rest.

use vstd::prelude::*;

use crate::ast::ParseError;
use crate::ast::Program;
use crate::ast::StatementView;
use crate::issue::Issue;
use crate::issue::IssueCode;
use crate::issue::Level;
use crate::parser::parse_program;
use crate::parser::spec_program_of;
use crate::parser::ProgramResult;
use crate::stream::TokenStream;
use crate::token::Token;

verus! {

/// The diagnostic for a `global` statement that declares no variables.
pub open spec fn spec_empty_global_issue(span: crate::token::Span, source: u32) -> Issue {
    Issue {
        level: Level::Warning,
        code: IssueCode::EmptyGlobal,
        rule: 0,
        source,
        span,
        related: None,
        fixable: false,
    }
}

/// The semantic-check findings for one statement.
pub open spec fn spec_statement_issues(s: StatementView, source: u32) -> Seq<Issue> {
    match s {
        StatementView::Global(g) => if g.variables.items.len() == 0 {
            seq![spec_empty_global_issue(g.global.span, source)]
        } else {
            Seq::empty()
        },
        StatementView::Class(_) => Seq::empty(),
    }
}

/// The semantic-check findings for a whole program, in statement order.
pub open spec fn spec_semantic_issues(stmts: Seq<StatementView>, source: u32) -> Seq<Issue>
    decreases stmts.len(),
{
    if stmts.len() == 0 {
        Seq::empty()
    } else {
        spec_semantic_issues(stmts.drop_last(), source) + spec_statement_issues(
            stmts.last(),
            source,
        )
    }
}

/// The names one statement binds or mentions, in source order: declared
/// variables for a `global`, the class name and any parent name for a
/// class declaration.
pub open spec fn spec_statement_names(s: StatementView) -> Seq<u32> {
    match s {
        StatementView::Global(g) => g.variables.items.map_values(|v: crate::ast::Variable| v.name),
        StatementView::Class(c) => match c.extends {
            Some(e) => seq![c.name.name, e.parent.name],
            None => seq![c.name.name],
        },
    }
}

/// The resolved-name table of a whole program, in statement order.
pub open spec fn spec_names(stmts: Seq<StatementView>) -> Seq<u32>
    decreases stmts.len(),
{
    if stmts.len() == 0 {
        Seq::empty()
    } else {
        spec_names(stmts.drop_last()) + spec_statement_names(stmts.last())
    }
}

/// One source file's analysis unit: source identity, the (possibly
/// partial) AST, the resolved-name table, at most one captured parse
/// error, and the semantic-check findings. Immutable after construction.
pub struct Semantics {
    pub source: u32,
    pub program: Program,
    pub names: Vec<u32>,
    pub parse_error: Option<ParseError>,
    pub issues: Vec<Issue>,
}

/// Ghost model of a `Semantics` unit.
pub struct SemanticsView {
    pub source: u32,
    pub program: Seq<StatementView>,
    pub names: Seq<u32>,
    pub parse_error: Option<ParseError>,
    pub issues: Seq<Issue>,
}

impl View for Semantics {
    type V = SemanticsView;

    open spec fn view(&self) -> SemanticsView {
        SemanticsView {
            source: self.source,
            program: self.program@,
            names: self.names@,
            parse_error: self.parse_error,
            issues: self.issues@,
        }
    }
}

/// What building semantics over `toks` yields for source `source`: the
/// parsed program prefix, its name table, the captured parse error if the
/// file is malformed, and the semantic findings of the parsed statements.
pub open spec fn spec_semantics(source: u32, toks: Seq<Token>) -> SemanticsView {
    let pr = spec_program_of(toks);
    SemanticsView {
        source,
        program: pr.statements,
        names: spec_names(pr.statements),
        parse_error: pr.error,
        issues: spec_semantic_issues(pr.statements, source),
    }
}

/// Builds the `Semantics` unit of one source file from its tokens:
/// parse, collect the name table, run the semantic checks. A pure
/// function of its arguments — re-running it on the same file yields the
/// same unit, whatever other files a run holds.
pub fn build_semantics(source: u32, tokens: Vec<Token>) -> (r: Semantics)
    ensures
        r@ == spec_semantics(source, tokens@),
{
    let ghost toks: Seq<Token> = tokens@;
    let mut stream = TokenStream::new(tokens);
    let (program, parse_error) = parse_program(&mut stream);
    proof {
        assert(spec_program_of(toks) == ProgramResult {
            statements: program@,
            error: parse_error,
        });
    }
    let mut names: Vec<u32> = Vec::new();
    let mut issues: Vec<Issue> = Vec::new();
    let n = program.statements.len();
    let mut k: usize = 0;
    proof {
        assert(program@.subrange(0, 0) =~= Seq::<StatementView>::empty());
    }
    while k < n
        invariant
            n == program.statements@.len(),
            n == program@.len(),
            k <= n,
            names@ == spec_names(program@.subrange(0, k as int)),
            issues@ == spec_semantic_issues(program@.subrange(0, k as int), source),
        decreases n - k,
    {
        let ghost prefix = program@.subrange(0, k as int);
        let ghost sv = program@[k as int];
        match &program.statements[k] {
            crate::ast::Statement::Global(g) => {
                let m = g.variables.items.len();
                let mut j: usize = 0;
                let ghost names_before = names@;
                while j < m
                    invariant
                        m == g.variables.items@.len(),
                        j <= m,
                        names@ == names_before + g.variables.items@.subrange(0, j as int)
                            .map_values(|v: crate::ast::Variable| v.name),
                    decreases m - j,
                {
                    let ghost vprefix = g.variables.items@.subrange(0, j as int);
                    names.push(g.variables.items[j].name);
                    proof {
                        let f = |v: crate::ast::Variable| v.name;
                        assert(g.variables.items@.subrange(0, j as int + 1) =~= vprefix.push(
                            g.variables.items@[j as int],
                        ));
                        assert(vprefix.push(g.variables.items@[j as int]).map_values(f)
                            =~= vprefix.map_values(f).push(f(g.variables.items@[j as int])));
                    }
                    j = j + 1;
                }
                proof {
                    assert(g.variables.items@.subrange(0, m as int) =~= g.variables.items@);
                    assert(sv == StatementView::Global(g@));
                    assert(names@ == names_before + spec_statement_names(sv));
                }
                if m == 0 {
                    issues.push(
                        Issue {
                            level: Level::Warning,
                            code: IssueCode::EmptyGlobal,
                            rule: 0,
                            source,
                            span: g.global.span,
                            related: None,
                            fixable: false,
                        },
                    );
                }
            },
            crate::ast::Statement::Class(c) => {
                names.push(c.name.name);
                match &c.extends {
                    Some(e) => {
                        names.push(e.parent.name);
                    },
                    None => {},
                }
                proof {
                    assert(sv == StatementView::Class(*c));
                }
            },
        }
        proof {
            let next = program@.subrange(0, k as int + 1);
            assert(next =~= prefix.push(sv));
            assert(next.drop_last() =~= prefix);
            assert(spec_names(next) == spec_names(prefix) + spec_statement_names(sv));
            assert(spec_semantic_issues(next, source) == spec_semantic_issues(prefix, source)
                + spec_statement_issues(sv, source));
        }
        k = k + 1;
    }
    proof {
        assert(program@.subrange(0, n as int) =~= program@);
    }
    Semantics { source, program, names, parse_error, issues }
}

} // verus!
