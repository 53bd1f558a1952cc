//! Reflection: extracting one file's declared symbols, merging the
//! per-file fragments into one shared codebase model, and resolving
//! cross-file references over the complete table.
//!
//! `merge` is a pure fold: each step takes ownership of the accumulator
//! and one fragment and records every declaration, flagging duplicate
//! names as diagnostics; the first-seen declaration wins for resolution,
//! which ties resolution to the (stable) file-enumeration order.
//! `populate` resolves parent links by name lookup in the now-complete
//! table and must run only after all fragments are merged; its result is
//! proved idempotent.

use vstd::prelude::*;

use crate::issue::Issue;
use crate::issue::IssueCode;
use crate::issue::Level;
use crate::semantics::Semantics;
use crate::ast::StatementView;
use crate::token::Span;

verus! {

/// One declared symbol: its interned name, the file and span of its
/// declaration, the declared parent name, and — once populated — the
/// index of the symbol its parent name resolves to.
#[derive(Clone, Copy, Debug, PartialEq, Eq, Structural)]
pub struct Symbol {
    pub name: u32,
    pub source: u32,
    pub span: Span,
    pub parent: Option<u32>,
    pub parent_link: Option<usize>,
}

/// One file's unmerged reflection output: its declared symbols in source
/// order, links still unresolved.
pub struct Fragment {
    pub symbols: Vec<Symbol>,
}

impl View for Fragment {
    type V = Seq<Symbol>;

    open spec fn view(&self) -> Seq<Symbol> {
        self.symbols@
    }
}

/// The symbols one statement declares.
pub open spec fn spec_statement_symbols(s: StatementView, source: u32) -> Seq<Symbol> {
    match s {
        StatementView::Global(_) => Seq::empty(),
        StatementView::Class(c) => seq![
            Symbol {
                name: c.name.name,
                source,
                span: c.name.span,
                parent: match c.extends {
                    Some(e) => Some(e.parent.name),
                    None => None,
                },
                parent_link: None,
            },
        ],
    }
}

/// The reflection fragment of a whole program, in statement order.
pub open spec fn spec_reflect(stmts: Seq<StatementView>, source: u32) -> Seq<Symbol>
    decreases stmts.len(),
{
    if stmts.len() == 0 {
        Seq::empty()
    } else {
        spec_reflect(stmts.drop_last(), source) + spec_statement_symbols(stmts.last(), source)
    }
}

/// Extracts the declarations of one file's AST into a reflection
/// fragment; a stateless transform of the `Semantics` unit.
pub fn reflect(semantics: &Semantics) -> (r: Fragment)
    ensures
        r@ == spec_reflect(semantics@.program, semantics@.source),
{
    let mut symbols: Vec<Symbol> = Vec::new();
    let n = semantics.program.statements.len();
    let mut k: usize = 0;
    proof {
        assert(semantics.program@.subrange(0, 0) =~= Seq::<StatementView>::empty());
    }
    while k < n
        invariant
            n == semantics.program.statements@.len(),
            n == semantics.program@.len(),
            k <= n,
            symbols@ == spec_reflect(
                semantics.program@.subrange(0, k as int),
                semantics@.source,
            ),
        decreases n - k,
    {
        let ghost prefix = semantics.program@.subrange(0, k as int);
        let ghost sv = semantics.program@[k as int];
        match &semantics.program.statements[k] {
            crate::ast::Statement::Global(_) => {
                proof {
                    assert(sv is Global);
                }
            },
            crate::ast::Statement::Class(c) => {
                let parent: Option<u32> = match &c.extends {
                    Some(e) => Some(e.parent.name),
                    None => None,
                };
                symbols.push(
                    Symbol {
                        name: c.name.name,
                        source: semantics.source,
                        span: c.name.span,
                        parent,
                        parent_link: None,
                    },
                );
                proof {
                    assert(sv == StatementView::Class(*c));
                }
            },
        }
        proof {
            let next = semantics.program@.subrange(0, k as int + 1);
            assert(next =~= prefix.push(sv));
            assert(next.drop_last() =~= prefix);
        }
        k = k + 1;
    }
    proof {
        assert(semantics.program@.subrange(0, n as int) =~= semantics.program@);
    }
    Fragment { symbols }
}

/// The merged, cross-file reflection model: every declaration recorded in
/// merge order, and the conflict diagnostics the merging raised.
pub struct Codebase {
    pub symbols: Vec<Symbol>,
    pub issues: Vec<Issue>,
}

/// Ghost model of a `Codebase`.
pub struct CodebaseView {
    pub symbols: Seq<Symbol>,
    pub issues: Seq<Issue>,
}

impl View for Codebase {
    type V = CodebaseView;

    open spec fn view(&self) -> CodebaseView {
        CodebaseView { symbols: self.symbols@, issues: self.issues@ }
    }
}

/// The index of the first-merged symbol with the given name — the one
/// that wins resolution — or nothing when the name is undeclared.
pub open spec fn spec_find(syms: Seq<Symbol>, name: u32) -> Option<int>
    decreases syms.len(),
{
    if syms.len() == 0 {
        None
    } else if syms.first().name == name {
        Some(0)
    } else {
        match spec_find(syms.drop_first(), name) {
            Some(j) => Some(j + 1),
            None => None,
        }
    }
}

/// `spec_find` answers the first index carrying the name, when any does.
pub proof fn lemma_spec_find(syms: Seq<Symbol>, name: u32)
    ensures
        (match spec_find(syms, name) {
            Some(j) => {
                &&& 0 <= j < syms.len()
                &&& syms[j].name == name
                &&& forall|i: int| 0 <= i < j ==> (#[trigger] syms[i]).name != name
            },
            None => forall|i: int| 0 <= i < syms.len() ==> (#[trigger] syms[i]).name != name,
        }),
    decreases syms.len(),
{
    if syms.len() > 0 && syms.first().name != name {
        lemma_spec_find(syms.drop_first(), name);
        assert forall|i: int| 0 < i < syms.len() implies (#[trigger] syms[i]).name
            == syms.drop_first()[i - 1].name by {}
    }
}

/// Name lookup depends only on the names: two tables equal name for name
/// answer the same index.
pub proof fn lemma_find_names_equal(a: Seq<Symbol>, b: Seq<Symbol>, name: u32)
    requires
        a.len() == b.len(),
        forall|i: int| 0 <= i < a.len() ==> (#[trigger] a[i]).name == b[i].name,
    ensures
        spec_find(a, name) == spec_find(b, name),
    decreases a.len(),
{
    if a.len() > 0 {
        lemma_find_names_equal(a.drop_first(), b.drop_first(), name);
    }
}

/// The diagnostic recorded when `duplicate` re-declares the name that
/// `first` already declared: the new span, related to the winning one.
pub open spec fn spec_duplicate_issue(duplicate: Symbol, first: Symbol) -> Issue {
    Issue {
        level: Level::Error,
        code: IssueCode::DuplicateDeclaration,
        rule: 0,
        source: duplicate.source,
        span: duplicate.span,
        related: Some(first.span),
        fixable: false,
    }
}

/// One step of merging: the symbol is always recorded; a name clash
/// additionally records a duplicate-declaration diagnostic and leaves the
/// first-seen declaration in charge of resolution.
pub open spec fn spec_merge_symbol(cb: CodebaseView, s: Symbol) -> CodebaseView {
    match spec_find(cb.symbols, s.name) {
        Some(j) => CodebaseView {
            symbols: cb.symbols.push(s),
            issues: cb.issues.push(spec_duplicate_issue(s, cb.symbols[j])),
        },
        None => CodebaseView { symbols: cb.symbols.push(s), issues: cb.issues },
    }
}

/// Folding one fragment into the accumulated codebase, symbol by symbol
/// in fragment order.
pub open spec fn spec_merge(cb: CodebaseView, frag: Seq<Symbol>) -> CodebaseView
    decreases frag.len(),
{
    if frag.len() == 0 {
        cb
    } else {
        spec_merge_symbol(spec_merge(cb, frag.drop_last()), frag.last())
    }
}

impl Codebase {
    /// The codebase before any fragment was merged.
    pub fn new() -> (r: Codebase)
        ensures
            r@.symbols == Seq::<Symbol>::empty(),
            r@.issues == Seq::<Issue>::empty(),
    {
        let r = Codebase { symbols: Vec::new(), issues: Vec::new() };
        proof {
            assert(r@.symbols =~= Seq::<Symbol>::empty());
            assert(r@.issues =~= Seq::<Issue>::empty());
        }
        r
    }

    /// The index of the declaration that resolution uses for `name`: the
    /// first-merged symbol carrying it.
    pub fn find(&self, name: u32) -> (r: Option<usize>)
        ensures
            (match spec_find(self@.symbols, name) {
                Some(j) => r matches Some(k) && k as int == j,
                None => r matches Option::None,
            }),
    {
        let n = self.symbols.len();
        let mut k: usize = 0;
        proof {
            lemma_spec_find(self@.symbols, name);
        }
        while k < n
            invariant
                n == self@.symbols.len(),
                k <= n,
                forall|i: int| 0 <= i < k ==> (#[trigger] self@.symbols[i]).name != name,
                (match spec_find(self@.symbols, name) {
                    Some(j) => {
                        &&& 0 <= j < self@.symbols.len()
                        &&& self@.symbols[j].name == name
                        &&& forall|i: int|
                            0 <= i < j ==> (#[trigger] self@.symbols[i]).name != name
                    },
                    None => forall|i: int|
                        0 <= i < self@.symbols.len() ==> (#[trigger] self@.symbols[i]).name
                            != name,
                }),
            decreases n - k,
        {
            if self.symbols[k].name == name {
                return Some(k);
            }
            k = k + 1;
        }
        None
    }
}

/// Folds one fragment into the codebase. Takes ownership of the
/// accumulator: merging is a strictly sequential fold owned by the
/// orchestrator, never shared with concurrent writers.
pub fn merge(codebase: Codebase, fragment: Fragment) -> (r: Codebase)
    ensures
        r@ == spec_merge(codebase@, fragment@),
{
    let mut cb = codebase;
    let n = fragment.symbols.len();
    let mut k: usize = 0;
    proof {
        assert(fragment@.subrange(0, 0) =~= Seq::<Symbol>::empty());
    }
    while k < n
        invariant
            n == fragment@.len(),
            k <= n,
            cb@ == spec_merge(codebase@, fragment@.subrange(0, k as int)),
        decreases n - k,
    {
        let ghost prefix = fragment@.subrange(0, k as int);
        let s = fragment.symbols[k];
        let found = cb.find(s.name);
        proof {
            lemma_spec_find(cb@.symbols, s.name);
        }
        match found {
            Some(j) => {
                let first = cb.symbols[j];
                cb.issues.push(
                    Issue {
                        level: Level::Error,
                        code: IssueCode::DuplicateDeclaration,
                        rule: 0,
                        source: s.source,
                        span: s.span,
                        related: Some(first.span),
                        fixable: false,
                    },
                );
                cb.symbols.push(s);
            },
            None => {
                cb.symbols.push(s);
            },
        }
        proof {
            let next = fragment@.subrange(0, k as int + 1);
            assert(next =~= prefix.push(s));
            assert(next.drop_last() =~= prefix);
        }
        k = k + 1;
    }
    proof {
        assert(fragment@.subrange(0, n as int) =~= fragment@);
    }
    cb
}

/// A symbol with its parent link resolved against the complete table:
/// the first-merged declaration of the parent name, when one exists.
pub open spec fn spec_resolve(syms: Seq<Symbol>, s: Symbol) -> Symbol {
    Symbol {
        parent_link: match s.parent {
            Some(p) => match spec_find(syms, p) {
                Some(j) => Some(j as usize),
                None => None,
            },
            None => None,
        },
        ..s
    }
}

/// The populated codebase: every symbol's parent link resolved in place;
/// no symbol is ever removed, and the diagnostics stay as they are.
pub open spec fn spec_populate(cb: CodebaseView) -> CodebaseView {
    CodebaseView {
        symbols: Seq::new(cb.symbols.len(), |i: int| spec_resolve(cb.symbols, cb.symbols[i])),
        issues: cb.issues,
    }
}

/// Resolves every symbol's parent link by name lookup in the complete
/// table. Must run only after all fragments are merged; the orchestrator
/// enforces that by stage ordering.
pub fn populate(codebase: &mut Codebase)
    ensures
        final(codebase)@ == spec_populate(old(codebase)@),
{
    let ghost orig: Seq<Symbol> = codebase.symbols@;
    let n = codebase.symbols.len();
    let mut k: usize = 0;
    while k < n
        invariant
            n == codebase.symbols@.len(),
            n == orig.len(),
            k <= n,
            codebase.issues@ == old(codebase)@.issues,
            orig == old(codebase)@.symbols,
            forall|i: int| k <= i < n ==> codebase.symbols@[i] == orig[i],
            forall|i: int|
                0 <= i < k ==> codebase.symbols@[i] == spec_resolve(orig, #[trigger] orig[i]),
            forall|i: int|
                0 <= i < n ==> (#[trigger] codebase.symbols@[i]).name == orig[i].name,
        decreases n - k,
    {
        let s = codebase.symbols[k];
        proof {
            assert(s == orig[k as int]);
        }
        let link: Option<usize> = match s.parent {
            Some(p) => {
                proof {
                    lemma_find_names_equal(codebase.symbols@, orig, p);
                }
                match codebase.find(p) {
                    Some(j) => Some(j),
                    None => None,
                }
            },
            None => None,
        };
        let resolved = Symbol {
            name: s.name,
            source: s.source,
            span: s.span,
            parent: s.parent,
            parent_link: link,
        };
        codebase.symbols.set(k, resolved);
        k = k + 1;
    }
    proof {
        assert(codebase.symbols@ =~= spec_populate(old(codebase)@).symbols);
        assert(codebase@ == spec_populate(old(codebase)@));
    }
}

/// Merging records every declaration: the merged symbol table is exactly
/// the accumulator's followed by the fragment's, in order. Duplicate
/// names flag diagnostics but never drop a symbol.
pub proof fn lemma_merge_symbols(cb: CodebaseView, frag: Seq<Symbol>)
    ensures
        spec_merge(cb, frag).symbols == cb.symbols + frag,
    decreases frag.len(),
{
    if frag.len() == 0 {
        assert(cb.symbols + frag =~= cb.symbols);
    } else {
        lemma_merge_symbols(cb, frag.drop_last());
        assert((cb.symbols + frag.drop_last()).push(frag.last()) =~= cb.symbols + frag);
    }
}

/// Membership in the concatenation of two symbol tables is membership in
/// either: concatenating and then taking the set is the union of the sets.
pub proof fn lemma_to_set_concat(a: Seq<Symbol>, b: Seq<Symbol>)
    ensures
        (a + b).to_set() == a.to_set().union(b.to_set()),
{
    assert forall|x: Symbol| #[trigger] (a + b).contains(x) implies a.contains(x) || b.contains(
        x,
    ) by {
        let i = choose|i: int| 0 <= i < (a + b).len() && (a + b)[i] == x;
        if i < a.len() {
            assert(a[i] == x);
        } else {
            assert(b[i - a.len()] == x);
        }
    }
    assert forall|x: Symbol| #[trigger] a.contains(x) implies (a + b).contains(x) by {
        let i = choose|i: int| 0 <= i < a.len() && a[i] == x;
        assert((a + b)[i] == x);
    }
    assert forall|x: Symbol| #[trigger] b.contains(x) implies (a + b).contains(x) by {
        let i = choose|i: int| 0 <= i < b.len() && b[i] == x;
        assert((a + b)[a.len() + i] == x);
    }
    assert((a + b).to_set() =~= a.to_set().union(b.to_set()));
}

/// Merge is associative: folding two fragments one after the other is
/// folding their concatenation, diagnostics included.
pub proof fn lemma_merge_associative(cb: CodebaseView, f1: Seq<Symbol>, f2: Seq<Symbol>)
    ensures
        spec_merge(spec_merge(cb, f1), f2) == spec_merge(cb, f1 + f2),
    decreases f2.len(),
{
    if f2.len() == 0 {
        assert(f1 + f2 =~= f1);
    } else {
        lemma_merge_associative(cb, f1, f2.drop_last());
        assert((f1 + f2).drop_last() =~= f1 + f2.drop_last());
        assert((f1 + f2).last() == f2.last());
        assert((f1 + f2).len() > 0);
    }
}

/// Merge order does not change the final symbol set: two fragments folded
/// in either order yield the same set of declarations. (The conflict
/// diagnostics, by contrast, depend on which declaration came first.)
pub proof fn lemma_merge_order_independent(cb: CodebaseView, f1: Seq<Symbol>, f2: Seq<Symbol>)
    ensures
        spec_merge(spec_merge(cb, f1), f2).symbols.to_set() == spec_merge(
            spec_merge(cb, f2),
            f1,
        ).symbols.to_set(),
{
    lemma_merge_symbols(cb, f1);
    lemma_merge_symbols(spec_merge(cb, f1), f2);
    lemma_merge_symbols(cb, f2);
    lemma_merge_symbols(spec_merge(cb, f2), f1);
    lemma_to_set_concat(cb.symbols + f1, f2);
    lemma_to_set_concat(cb.symbols, f1);
    lemma_to_set_concat(cb.symbols + f2, f1);
    lemma_to_set_concat(cb.symbols, f2);
    assert((cb.symbols.to_set().union(f1.to_set())).union(f2.to_set()) =~= (cb.symbols
        .to_set().union(f2.to_set())).union(f1.to_set()));
}

/// Populate never removes or reorders symbols and never touches what a
/// declaration says: it only fills the resolution links, and the
/// diagnostics stay exactly as merged.
pub proof fn lemma_populate_preserves(cb: CodebaseView)
    ensures
        spec_populate(cb).symbols.len() == cb.symbols.len(),
        forall|i: int|
            0 <= i < cb.symbols.len() ==> {
                &&& (#[trigger] spec_populate(cb).symbols[i]).name == cb.symbols[i].name
                &&& spec_populate(cb).symbols[i].source == cb.symbols[i].source
                &&& spec_populate(cb).symbols[i].span == cb.symbols[i].span
                &&& spec_populate(cb).symbols[i].parent == cb.symbols[i].parent
            },
        spec_populate(cb).issues == cb.issues,
{
}

/// Populate is idempotent: populating an already-populated codebase
/// resolves every link to the same declaration again and changes nothing.
pub proof fn lemma_populate_idempotent(cb: CodebaseView)
    ensures
        spec_populate(spec_populate(cb)) == spec_populate(cb),
{
    let p1 = spec_populate(cb);
    let p2 = spec_populate(p1);
    assert forall|name: u32| #[trigger]
        spec_find(p1.symbols, name) == spec_find(cb.symbols, name) by {
        lemma_find_names_equal(p1.symbols, cb.symbols, name);
    }
    assert forall|i: int| 0 <= i < p2.symbols.len() implies #[trigger] p2.symbols[i]
        == p1.symbols[i] by {
        assert(p2.symbols[i] == spec_resolve(p1.symbols, p1.symbols[i]));
        assert(p1.symbols[i] == spec_resolve(cb.symbols, cb.symbols[i]));
        match p1.symbols[i].parent {
            Some(p) => {
                assert(spec_find(p1.symbols, p) == spec_find(cb.symbols, p));
            },
            None => {},
        }
    }
    assert(p2.symbols =~= p1.symbols);
    assert(p2 == p1);
}

} // verus!
