//! Diagnostics: severity levels, single issues, and the ordered issue
//! collection the pipeline reports.
//!
//! Issues are data, never control flow: parse errors, semantic findings,
//! reflection conflicts and rule findings all end up here, immutable once
//! created, collected in source-enumeration order and never deduplicated.

use vstd::prelude::*;

use crate::ast::ParseError;
use crate::token::Span;

verus! {

/// Severity of one diagnostic, lowest first.
#[derive(Clone, Copy, Debug, PartialEq, Eq, Structural)]
pub enum Level {
    Help,
    Note,
    Warning,
    Error,
}

/// Total order on levels, as a rank.
pub open spec fn spec_severity(level: Level) -> int {
    match level {
        Level::Help => 0,
        Level::Note => 1,
        Level::Warning => 2,
        Level::Error => 3,
    }
}

impl Level {
    /// The rank of this level in the severity order.
    pub fn severity(self) -> (r: u8)
        ensures
            r as int == spec_severity(self),
    {
        match self {
            Level::Help => 0,
            Level::Note => 1,
            Level::Warning => 2,
            Level::Error => 3,
        }
    }

    /// Whether this level is at least as severe as `other`.
    pub fn at_least(self, other: Level) -> (r: bool)
        ensures
            r == (spec_severity(self) >= spec_severity(other)),
    {
        self.severity() >= other.severity()
    }
}

/// What a diagnostic is about; reporters map the code to wording.
#[derive(Clone, Copy, Debug, PartialEq, Eq, Structural)]
pub enum IssueCode {
    /// A file failed to parse; the span points at the offending position.
    Parse,
    /// A `global` statement declaring no variables.
    EmptyGlobal,
    /// Two declarations of the same fully-qualified name; the related span
    /// points at the declaration that wins resolution.
    DuplicateDeclaration,
    /// A class naming itself as its own parent.
    SelfExtends,
}

/// One diagnostic: severity, what it is about, which rule raised it (zero
/// for the core stages), the source file, its span(s), and whether an
/// automatic fix exists.
#[derive(Clone, Copy, Debug, PartialEq, Eq, Structural)]
pub struct Issue {
    pub level: Level,
    pub code: IssueCode,
    pub rule: u32,
    pub source: u32,
    pub span: Span,
    pub related: Option<Span>,
    pub fixable: bool,
}

/// The issue a captured parse error turns into: an error-level, non-fixable
/// diagnostic at the error's span.
pub open spec fn spec_parse_error_issue(e: ParseError, source: u32) -> Issue {
    Issue {
        level: Level::Error,
        code: IssueCode::Parse,
        rule: 0,
        source,
        span: match e {
            ParseError::UnexpectedToken { span, .. } => span,
            ParseError::UnexpectedEndOfInput { position } => Span {
                start: position,
                end: position,
            },
        },
        related: None,
        fixable: false,
    }
}

impl Issue {
    /// Converts a captured parse error into its diagnostic.
    pub fn from_parse_error(e: &ParseError, source: u32) -> (r: Issue)
        ensures
            r == spec_parse_error_issue(*e, source),
    {
        let span = match e {
            ParseError::UnexpectedToken { span, .. } => *span,
            ParseError::UnexpectedEndOfInput { position } => Span {
                start: *position,
                end: *position,
            },
        };
        Issue {
            level: Level::Error,
            code: IssueCode::Parse,
            rule: 0,
            source,
            span,
            related: None,
            fixable: false,
        }
    }

    /// A short human wording for this issue's code.
    pub fn message(&self) -> (r: &'static str)
        ensures
            r@ == spec_message(self.code),
    {
        match self.code {
            IssueCode::Parse => "syntax error",
            IssueCode::EmptyGlobal => "global statement declares no variables",
            IssueCode::DuplicateDeclaration => "duplicate declaration of the same name",
            IssueCode::SelfExtends => "class extends itself",
        }
    }
}

/// The wording `Issue::message` answers for each code.
pub open spec fn spec_message(code: IssueCode) -> Seq<char> {
    match code {
        IssueCode::Parse => "syntax error"@,
        IssueCode::EmptyGlobal => "global statement declares no variables"@,
        IssueCode::DuplicateDeclaration => "duplicate declaration of the same name"@,
        IssueCode::SelfExtends => "class extends itself"@,
    }
}

/// Whether the issues hold one whose level reaches `level`.
pub open spec fn spec_reaches(issues: Seq<Issue>, level: Level) -> bool {
    exists|i: int|
        0 <= i < issues.len() && spec_severity((#[trigger] issues[i]).level) >= spec_severity(level)
}

/// An ordered sequence of issues; the order is the one in which the
/// pipeline collected them and is never changed by the collection.
pub struct IssueCollection {
    pub issues: Vec<Issue>,
}

impl View for IssueCollection {
    type V = Seq<Issue>;

    open spec fn view(&self) -> Seq<Issue> {
        self.issues@
    }
}

impl IssueCollection {
    /// The empty collection.
    pub fn new() -> (r: IssueCollection)
        ensures
            r@ == Seq::<Issue>::empty(),
    {
        let r = IssueCollection { issues: Vec::new() };
        proof {
            assert(r@ =~= Seq::<Issue>::empty());
        }
        r
    }

    /// Wraps already-collected issues, keeping their order.
    pub fn from_issues(issues: Vec<Issue>) -> (r: IssueCollection)
        ensures
            r@ == issues@,
    {
        IssueCollection { issues }
    }

    /// Number of issues collected.
    pub fn len(&self) -> (r: usize)
        ensures
            r == self@.len(),
    {
        self.issues.len()
    }

    /// The issue at `i`.
    pub fn get(&self, i: usize) -> (r: Issue)
        requires
            i < self@.len(),
        ensures
            r == self@[i as int],
    {
        self.issues[i]
    }

    /// Appends one issue at the end.
    pub fn push(&mut self, issue: Issue)
        ensures
            final(self)@ == old(self)@.push(issue),
    {
        self.issues.push(issue);
    }

    /// Appends a batch of issues at the end, keeping their order.
    pub fn extend_from_vec(&mut self, mut more: Vec<Issue>)
        ensures
            final(self)@ == old(self)@ + more@,
    {
        self.issues.append(&mut more);
    }

    /// The subset of issues that can be fixed automatically, in their
    /// original relative order.
    pub fn only_fixable(&self) -> (r: IssueCollection)
        ensures
            r@ == self@.filter(|i: Issue| i.fixable),
    {
        let ghost pred = |i: Issue| i.fixable;
        let mut fixable: Vec<Issue> = Vec::new();
        let n = self.issues.len();
        let mut k: usize = 0;
        proof {
            reveal(Seq::filter);
            assert(self@.subrange(0, 0) =~= Seq::<Issue>::empty());
            assert(Seq::<Issue>::empty().filter(pred) =~= Seq::<Issue>::empty());
        }
        while k < n
            invariant
                n == self@.len(),
                k <= n,
                fixable@ == self@.subrange(0, k as int).filter(pred),
                pred == (|i: Issue| i.fixable),
            decreases n - k,
        {
            let issue = self.issues[k];
            let ghost prefix = self@.subrange(0, k as int);
            if issue.fixable {
                fixable.push(issue);
            }
            proof {
                reveal(Seq::filter);
                assert(self@.subrange(0, k as int + 1) =~= prefix.push(issue));
                assert(prefix.push(issue).drop_last() =~= prefix);
                assert(prefix.push(issue).filter(pred) == if pred(issue) {
                    prefix.filter(pred).push(issue)
                } else {
                    prefix.filter(pred)
                });
            }
            k = k + 1;
        }
        proof {
            assert(self@.subrange(0, n as int) =~= self@);
        }
        IssueCollection { issues: fixable }
    }

    /// The most severe level present, or nothing for an empty collection.
    pub fn get_highest_level(&self) -> (r: Option<Level>)
        ensures
            (r matches Option::None) <==> self@.len() == 0,
            (r matches Some(l) ==> {
                &&& exists|i: int| 0 <= i < self@.len() && (#[trigger] self@[i]).level == l
                &&& forall|i: int|
                    0 <= i < self@.len() ==> spec_severity((#[trigger] self@[i]).level)
                        <= spec_severity(l)
            }),
    {
        let n = self.issues.len();
        if n == 0 {
            return None;
        }
        let mut best: Level = self.issues[0].level;
        let mut k: usize = 1;
        while k < n
            invariant
                n == self@.len(),
                1 <= k <= n,
                exists|i: int| 0 <= i < k && (#[trigger] self@[i]).level == best,
                forall|i: int|
                    0 <= i < k ==> spec_severity((#[trigger] self@[i]).level) <= spec_severity(
                        best,
                    ),
            decreases n - k,
        {
            let level = self.issues[k].level;
            if level.at_least(best) {
                best = level;
            }
            k = k + 1;
        }
        Some(best)
    }

    /// Whether some issue reaches `level`; deciding a run's exit status
    /// asks this with the error level.
    pub fn reaches(&self, level: Level) -> (r: bool)
        ensures
            r == spec_reaches(self@, level),
    {
        let n = self.issues.len();
        let mut k: usize = 0;
        while k < n
            invariant
                n == self@.len(),
                k <= n,
                forall|i: int|
                    0 <= i < k ==> spec_severity((#[trigger] self@[i]).level) < spec_severity(
                        level,
                    ),
            decreases n - k,
        {
            if self.issues[k].level.at_least(level) {
                return true;
            }
            k = k + 1;
        }
        false
    }
}

} // verus!
