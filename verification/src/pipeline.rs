//! The pipeline orchestrator: from enumerated, pre-lexed sources to one
//! ordered issue collection.
//!
//! The stages and their hard barriers: build every file's semantics;
//! (full analysis only) reflect every file and fold the fragments into
//! one codebase — a strictly sequential fold owned by the orchestrator —
//! then populate it to completion before any rule reads it; lint every
//! file against the shared, read-only codebase; and flatten the per-file
//! collections in source-enumeration order, never completion order.
//!
//! Every stage is a pure function of the enumerated inputs, so the final
//! ordering and content are deterministic by contract: the caller that
//! fans the per-file work out over tasks must only reassemble results by
//! index to land on exactly the sequences stated here.

use vstd::prelude::*;

use crate::issue::Issue;
use crate::issue::IssueCollection;
use crate::issue::Level;
use crate::linter::spec_effective_level;
use crate::linter::spec_effective_for_name;
use crate::linter::spec_find_rule;
use crate::linter::spec_level_of;
use crate::linter::spec_lint_concat;
use crate::linter::spec_lint_shape;
use crate::linter::spec_stamped;
use crate::linter::resolve_settings;
use crate::linter::Linter;
use crate::linter::LinterConfiguration;
use crate::linter::LinterLevel;
use crate::linter::Rule;
use crate::linter::RuleConfiguration;
use crate::linter::RuleEntry;
use crate::reflect::merge;
use crate::reflect::populate;
use crate::reflect::reflect;
use crate::reflect::spec_merge;
use crate::reflect::spec_populate;
use crate::reflect::spec_reflect;
use crate::reflect::Codebase;
use crate::reflect::CodebaseView;
use crate::reflect::Symbol;
use crate::semantics::build_semantics;
use crate::semantics::spec_semantics;
use crate::semantics::Semantics;
use crate::semantics::SemanticsView;
use crate::token::Token;

verus! {

/// One enumerated source file, already lexed: its identity and tokens.
pub struct SourceUnit {
    pub source: u32,
    pub tokens: Vec<Token>,
}

/// Ghost model of a `SourceUnit`.
pub struct SourceUnitView {
    pub source: u32,
    pub tokens: Seq<Token>,
}

impl View for SourceUnit {
    type V = SourceUnitView;

    open spec fn view(&self) -> SourceUnitView {
        SourceUnitView { source: self.source, tokens: self.tokens@ }
    }
}

/// The models of an enumerated source list.
pub open spec fn views_of(units: Seq<SourceUnit>) -> Seq<SourceUnitView> {
    units.map_values(|u: SourceUnit| u@)
}

/// The semantics unit one enumerated source yields.
pub open spec fn spec_unit_semantics(u: SourceUnitView) -> SemanticsView {
    spec_semantics(u.source, u.tokens)
}

/// The issue a file's captured parse error contributes, when it has one.
pub open spec fn spec_parse_suffix(sv: SemanticsView) -> Seq<Issue> {
    match sv.parse_error {
        Some(e) => seq![crate::issue::spec_parse_error_issue(e, sv.source)],
        None => Seq::empty(),
    }
}

/// What the semantics-only mode reports for one file: the parse error (if
/// any) followed by the semantic-check findings.
pub open spec fn spec_check_file_issues(sv: SemanticsView) -> Seq<Issue> {
    spec_parse_suffix(sv) + sv.issues
}

/// What the semantics-only mode reports for a whole run, in enumeration
/// order.
pub open spec fn spec_check_issues(units: Seq<SourceUnitView>) -> Seq<Issue>
    decreases units.len(),
{
    if units.len() == 0 {
        Seq::empty()
    } else {
        spec_check_issues(units.drop_last()) + spec_check_file_issues(
            spec_unit_semantics(units.last()),
        )
    }
}

/// The codebase before population: every file's fragment folded in, in
/// enumeration order.
pub open spec fn spec_fold_codebase(units: Seq<SourceUnitView>) -> CodebaseView
    decreases units.len(),
{
    if units.len() == 0 {
        CodebaseView { symbols: Seq::empty(), issues: Seq::empty() }
    } else {
        let sv = spec_unit_semantics(units.last());
        spec_merge(spec_fold_codebase(units.drop_last()), spec_reflect(sv.program, sv.source))
    }
}

/// The shared codebase a full run lints against: all fragments merged,
/// then populated.
pub open spec fn spec_codebase_of(units: Seq<SourceUnitView>) -> CodebaseView {
    spec_populate(spec_fold_codebase(units))
}

/// Every file's declarations, concatenated in enumeration order.
pub open spec fn spec_all_symbols(units: Seq<SourceUnitView>) -> Seq<Symbol>
    decreases units.len(),
{
    if units.len() == 0 {
        Seq::empty()
    } else {
        let sv = spec_unit_semantics(units.last());
        spec_all_symbols(units.drop_last()) + spec_reflect(sv.program, sv.source)
    }
}

/// A whole run's merged symbol table is exactly the concatenation of
/// every file's declarations in enumeration order: merging records every
/// declaration, duplicate or not, and population never removes one.
pub proof fn lemma_run_symbols(units: Seq<SourceUnitView>)
    ensures
        spec_fold_codebase(units).symbols == spec_all_symbols(units),
        spec_codebase_of(units).symbols.len() == spec_all_symbols(units).len(),
    decreases units.len(),
{
    if units.len() == 0 {
    } else {
        lemma_run_symbols(units.drop_last());
        let sv = spec_unit_semantics(units.last());
        crate::reflect::lemma_merge_symbols(
            spec_fold_codebase(units.drop_last()),
            spec_reflect(sv.program, sv.source),
        );
    }
    crate::reflect::lemma_populate_preserves(spec_fold_codebase(units));
}

/// Copies a vector of copyable values.
fn copied<T: Copy>(v: &Vec<T>) -> (r: Vec<T>)
    ensures
        r@ == v@,
{
    let mut out: Vec<T> = Vec::new();
    let n = v.len();
    let mut k: usize = 0;
    while k < n
        invariant
            n == v@.len(),
            k <= n,
            out@ == v@.subrange(0, k as int),
        decreases n - k,
    {
        out.push(v[k]);
        proof {
            assert(v@.subrange(0, k as int + 1) =~= v@.subrange(0, k as int).push(v@[k as int]));
        }
        k = k + 1;
    }
    proof {
        assert(v@.subrange(0, n as int) =~= v@);
    }
    out
}

/// Semantics-only mode: parse and check every enumerated file, collect
/// the parse errors and semantic findings in enumeration order, and never
/// touch reflection or the rule engine — the collection equals exactly
/// the parse errors and semantic-check issues.
pub fn check_sources(units: &Vec<SourceUnit>) -> (r: IssueCollection)
    ensures
        r@ == spec_check_issues(views_of(units@)),
{
    let ghost views = views_of(units@);
    let mut out = IssueCollection::new();
    let n = units.len();
    let mut k: usize = 0;
    proof {
        assert(views.subrange(0, 0) =~= Seq::<SourceUnitView>::empty());
    }
    while k < n
        invariant
            n == units@.len(),
            views == views_of(units@),
            views.len() == n,
            k <= n,
            out@ == spec_check_issues(views.subrange(0, k as int)),
        decreases n - k,
    {
        let ghost prefix = views.subrange(0, k as int);
        let unit = &units[k];
        proof {
            assert(views[k as int] == unit@);
        }
        let semantics = build_semantics(unit.source, copied(&unit.tokens));
        match &semantics.parse_error {
            Some(e) => {
                out.push(Issue::from_parse_error(e, semantics.source));
            },
            None => {},
        }
        out.extend_from_vec(semantics.issues);
        proof {
            let next = views.subrange(0, k as int + 1);
            assert(next =~= prefix.push(views[k as int]));
            assert(next.drop_last() =~= prefix);
            assert(out@ =~= spec_check_issues(next));
        }
        k = k + 1;
    }
    proof {
        assert(views.subrange(0, n as int) =~= views);
    }
    out
}

/// Builds every file's semantics, in enumeration order. Each unit is a
/// pure function of its own file alone, so a malformed file changes
/// nothing in any other file's unit.
pub fn build_all_semantics(units: &Vec<SourceUnit>) -> (r: Vec<Semantics>)
    ensures
        r@.len() == units@.len(),
        forall|i: int|
            0 <= i < units@.len() ==> (#[trigger] r@[i])@ == spec_unit_semantics(views_of(units@)[i]),
{
    let ghost views = views_of(units@);
    let mut sems: Vec<Semantics> = Vec::new();
    let n = units.len();
    let mut k: usize = 0;
    while k < n
        invariant
            n == units@.len(),
            views == views_of(units@),
            views.len() == n,
            k <= n,
            sems@.len() == k,
            forall|i: int| 0 <= i < k ==> (#[trigger] sems@[i])@ == spec_unit_semantics(views[i]),
        decreases n - k,
    {
        let unit = &units[k];
        proof {
            assert(views[k as int] == unit@);
        }
        let semantics = build_semantics(unit.source, copied(&unit.tokens));
        sems.push(semantics);
        k = k + 1;
    }
    sems
}

/// The codebase before population, folded from already-built semantics
/// units in their order.
pub open spec fn spec_fold_fragments(sems: Seq<Semantics>) -> CodebaseView
    decreases sems.len(),
{
    if sems.len() == 0 {
        CodebaseView { symbols: Seq::empty(), issues: Seq::empty() }
    } else {
        let sv = sems.last()@;
        spec_merge(spec_fold_fragments(sems.drop_last()), spec_reflect(sv.program, sv.source))
    }
}

/// Folding fragments from built semantics units equals folding them from
/// the units the semantics were built over.
proof fn lemma_fold_matches(sems: Seq<Semantics>, views: Seq<SourceUnitView>)
    requires
        sems.len() == views.len(),
        forall|i: int| 0 <= i < views.len() ==> (#[trigger] sems[i])@ == spec_unit_semantics(views[i]),
    ensures
        spec_fold_fragments(sems) == spec_fold_codebase(views),
    decreases sems.len(),
{
    if sems.len() > 0 {
        lemma_fold_matches(sems.drop_last(), views.drop_last());
    }
}

/// Merges every file's reflection fragment into one codebase — a
/// strictly sequential fold in enumeration order — then populates it.
/// The hard barrier of the run: nothing lints before this returns.
pub fn build_codebase(semantics: &Vec<Semantics>) -> (r: Codebase)
    ensures
        r@ == spec_populate(spec_fold_fragments(semantics@)),
{
    let mut codebase = Codebase::new();
    let n = semantics.len();
    let mut k: usize = 0;
    proof {
        assert(semantics@.subrange(0, 0) =~= Seq::<Semantics>::empty());
        assert(codebase@.symbols =~= spec_fold_fragments(semantics@.subrange(0, 0)).symbols);
        assert(codebase@.issues =~= spec_fold_fragments(semantics@.subrange(0, 0)).issues);
        assert(codebase@ == spec_fold_fragments(semantics@.subrange(0, 0)));
    }
    while k < n
        invariant
            n == semantics@.len(),
            k <= n,
            codebase@ == spec_fold_fragments(semantics@.subrange(0, k as int)),
        decreases n - k,
    {
        let ghost prefix = semantics@.subrange(0, k as int);
        let fragment = reflect(&semantics[k]);
        codebase = merge(codebase, fragment);
        proof {
            let next = semantics@.subrange(0, k as int + 1);
            assert(next =~= prefix.push(semantics@[k as int]));
            assert(next.drop_last() =~= prefix);
        }
        k = k + 1;
    }
    proof {
        assert(semantics@.subrange(0, n as int) =~= semantics@);
    }
    populate(&mut codebase);
    codebase
}

/// Whether the run's configuration switches the whole engine off.
pub open spec fn spec_config_is_off(config: LinterConfiguration) -> bool {
    config.level matches Some(LinterLevel::Off)
}

/// The run-wide default level the configuration resolves to.
pub open spec fn spec_config_default_level(config: LinterConfiguration) -> Option<Level> {
    match config.level {
        Some(l) => spec_level_of(l),
        None => None,
    }
}

/// The index of the first configuration entry for `name`, when any.
pub open spec fn spec_find_rule_config(rules: Seq<RuleConfiguration>, name: u32) -> Option<int>
    decreases rules.len(),
{
    if rules.len() == 0 {
        None
    } else if rules.first().name == name {
        Some(0)
    } else {
        match spec_find_rule_config(rules.drop_first(), name) {
            Some(j) => Some(j + 1),
            None => None,
        }
    }
}

/// The effective reporting level the configuration gives the rule
/// registered under `name`.
pub open spec fn spec_config_effective(config: LinterConfiguration, name: u32) -> Option<Level> {
    match spec_find_rule_config(config.rules@, name) {
        Some(j) => spec_effective_level(
            spec_config_is_off(config),
            spec_config_default_level(config),
            !(config.rules@[j].level matches Some(LinterLevel::Off)),
            (match config.rules@[j].level {
                Some(l) => spec_level_of(l),
                None => None,
            }),
        ),
        None => spec_effective_level(
            spec_config_is_off(config),
            spec_config_default_level(config),
            true,
            None,
        ),
    }
}

/// Rule lookup agrees between resolved entries and the configuration they
/// were resolved from, name for name.
proof fn lemma_find_rule_matches(a: Seq<RuleEntry>, b: Seq<RuleConfiguration>, name: u32)
    requires
        a.len() == b.len(),
        forall|i: int| 0 <= i < a.len() ==> (#[trigger] a[i]).name == b[i].name,
    ensures
        spec_find_rule(a, name) == spec_find_rule_config(b, name),
    decreases a.len(),
{
    if a.len() > 0 {
        lemma_find_rule_matches(a.drop_first(), b.drop_first(), name);
    }
}

/// The merge-stage conflict diagnostics that belong to one file's report
/// segment: those whose duplicating declaration stands in that file.
pub open spec fn spec_conflicts_for(conflicts: Seq<Issue>, source: u32) -> Seq<Issue> {
    conflicts.filter(|i: Issue| i.source == source)
}

/// `spec_lint_concat`, resolved against the user configuration instead of
/// the engine's resolved entries.
pub open spec fn spec_config_lint_concat(
    names: Seq<u32>,
    found: Seq<Seq<Issue>>,
    config: LinterConfiguration,
    source: u32,
) -> Seq<Issue>
    decreases names.len(),
{
    if names.len() == 0 || found.len() == 0 {
        Seq::empty()
    } else {
        spec_config_lint_concat(names.drop_last(), found.drop_last(), config, source) + (
        match spec_config_effective(config, names.last()) {
            Some(l) => spec_stamped(found.last(), l, names.last(), source),
            None => Seq::empty(),
        })
    }
}

/// The engine's report shape, stated over the configuration: one name and
/// one finding sequence per registered rule, collected in registration
/// order, each enabled rule's findings stamped, a disabled rule's
/// dropped.
pub open spec fn spec_config_lint_shape(
    names: Seq<u32>,
    found: Seq<Seq<Issue>>,
    config: LinterConfiguration,
    rule_count: int,
    source: u32,
    result: Seq<Issue>,
) -> bool {
    &&& names.len() == rule_count
    &&& found.len() == rule_count
    &&& result == spec_config_lint_concat(names, found, config, source)
}

/// When resolved entries and configuration give every rule name the same
/// effective level, the two collection folds agree.
proof fn lemma_concat_config(
    names: Seq<u32>,
    found: Seq<Seq<Issue>>,
    off: bool,
    default_level: Option<Level>,
    entries: Seq<RuleEntry>,
    config: LinterConfiguration,
    source: u32,
)
    requires
        forall|nm: u32|
            #[trigger] spec_effective_for_name(off, default_level, entries, nm)
                == spec_config_effective(config, nm),
    ensures
        spec_lint_concat(names, found, off, default_level, entries, source)
            == spec_config_lint_concat(names, found, config, source),
    decreases names.len(),
{
    if names.len() > 0 && found.len() > 0 {
        lemma_concat_config(
            names.drop_last(),
            found.drop_last(),
            off,
            default_level,
            entries,
            config,
            source,
        );
    }
}

/// The conflict diagnostics whose duplicating declaration stands in the
/// given file, in merge order.
fn conflicts_for(conflicts: &Vec<Issue>, source: u32) -> (r: Vec<Issue>)
    ensures
        r@ == spec_conflicts_for(conflicts@, source),
{
    let ghost pred = |i: Issue| i.source == source;
    let mut out: Vec<Issue> = Vec::new();
    let n = conflicts.len();
    let mut k: usize = 0;
    proof {
        reveal(Seq::filter);
        assert(conflicts@.subrange(0, 0) =~= Seq::<Issue>::empty());
        assert(Seq::<Issue>::empty().filter(pred) =~= Seq::<Issue>::empty());
    }
    while k < n
        invariant
            n == conflicts@.len(),
            k <= n,
            out@ == conflicts@.subrange(0, k as int).filter(pred),
            pred == (|i: Issue| i.source == source),
        decreases n - k,
    {
        let issue = conflicts[k];
        let ghost prefix = conflicts@.subrange(0, k as int);
        if issue.source == source {
            out.push(issue);
        }
        proof {
            reveal(Seq::filter);
            assert(conflicts@.subrange(0, k as int + 1) =~= prefix.push(issue));
            assert(prefix.push(issue).drop_last() =~= prefix);
            assert(prefix.push(issue).filter(pred) == if pred(issue) {
                prefix.filter(pred).push(issue)
            } else {
                prefix.filter(pred)
            });
        }
        k = k + 1;
    }
    proof {
        assert(conflicts@.subrange(0, n as int) =~= conflicts@);
    }
    out
}

/// The shape of one file's report segment: the merge conflicts this file
/// raised, then what the rule engine found for it (of the engine's
/// collection shape, nothing when the engine is off or no rule is
/// registered, every finding stamped with this file and leveled by the
/// configuration), then the file's own semantic findings and its parse
/// error.
pub open spec fn spec_lint_part_shape(
    lint_part: Seq<Issue>,
    part: Seq<Issue>,
    sv: SemanticsView,
    conflicts: Seq<Issue>,
    config: LinterConfiguration,
    rule_count: int,
) -> bool {
    &&& part == conflicts + lint_part + sv.issues + spec_parse_suffix(sv)
    &&& exists|names: Seq<u32>, found: Seq<Seq<Issue>>|
        #[trigger] spec_config_lint_shape(names, found, config, rule_count, sv.source, lint_part)
    &&& (spec_config_is_off(config) ==> lint_part.len() == 0)
    &&& (rule_count == 0 ==> lint_part.len() == 0)
    &&& forall|i: int|
        0 <= i < lint_part.len() ==> {
            &&& (#[trigger] lint_part[i]).source == sv.source
            &&& Some(lint_part[i].level) == spec_config_effective(config, lint_part[i].rule)
        }
}

/// One file's segment has the stated shape for some engine finding.
pub open spec fn spec_file_part_ok(
    part: Seq<Issue>,
    sv: SemanticsView,
    conflicts: Seq<Issue>,
    config: LinterConfiguration,
    rule_count: int,
) -> bool {
    exists|lint_part: Seq<Issue>|
        #[trigger] spec_lint_part_shape(lint_part, part, sv, conflicts, config, rule_count)
}

/// Flattening of per-file contributions, in enumeration order.
pub open spec fn spec_concat(parts: Seq<Seq<Issue>>) -> Seq<Issue>
    decreases parts.len(),
{
    if parts.len() == 0 {
        Seq::empty()
    } else {
        spec_concat(parts.drop_last()) + parts.last()
    }
}

/// The shape of a full run's report: the flatten of one segment per
/// enumerated user file, in enumeration order — nothing stands outside
/// the per-file segments — each segment of the stated per-file shape,
/// with its conflicts drawn from the codebase that the external sources
/// and the user files together were merged into.
pub open spec fn spec_run_shape(
    parts: Seq<Seq<Issue>>,
    externals: Seq<SourceUnitView>,
    units: Seq<SourceUnitView>,
    config: LinterConfiguration,
    rule_count: int,
    issues: Seq<Issue>,
) -> bool {
    &&& parts.len() == units.len()
    &&& issues == spec_concat(parts)
    &&& forall|i: int|
        0 <= i < parts.len() ==> spec_file_part_ok(
            #[trigger] parts[i],
            spec_unit_semantics(units[i]),
            spec_conflicts_for(
                spec_codebase_of(externals + units).issues,
                spec_unit_semantics(units[i]).source,
            ),
            config,
            rule_count,
        )
}

/// Full-analysis mode: build every file's semantics, fold the reflection
/// fragments of the external sources and then of every user file into
/// one codebase and populate it, run the configured rule set over every
/// user file against the shared model — external sources contribute
/// symbols but are never linted — and report the flatten of the per-file
/// collections in enumeration order: for each file, the duplicate
/// declarations it introduced, the engine's findings, the semantic
/// findings, and the parse error.
pub fn lint_sources<R: Rule>(
    units: &Vec<SourceUnit>,
    externals: &Vec<SourceUnit>,
    configuration: &LinterConfiguration,
    plugins: Vec<R>,
) -> (r: IssueCollection)
    ensures
        exists|parts: Seq<Seq<Issue>>|
            spec_run_shape(
                parts,
                views_of(externals@),
                views_of(units@),
                *configuration,
                plugins@.len() as int,
                r@,
            ),
{
    let ghost views = views_of(units@);
    let ghost ext_views = views_of(externals@);
    let ghost all_views = ext_views + views;
    let ghost rule_count: int = plugins@.len() as int;
    let mut all_semantics = build_all_semantics(externals);
    let mut user_semantics = build_all_semantics(units);
    let base = externals.len();
    all_semantics.append(&mut user_semantics);
    proof {
        assert(all_semantics@.len() == all_views.len());
        assert forall|i: int|
            0 <= i < all_views.len() implies (#[trigger] all_semantics@[i])@
            == spec_unit_semantics(all_views[i]) by {
            if i < base as int {
                assert(all_views[i] == ext_views[i]);
            } else {
                assert(all_views[i] == views[i - base as int]);
            }
        }
    }
    let codebase = build_codebase(&all_semantics);
    proof {
        lemma_fold_matches(all_semantics@, all_views);
    }
    let conflict_pool = copied(&codebase.issues);
    let ghost cb_issues = spec_codebase_of(all_views).issues;
    let mut out = IssueCollection::new();
    let settings = resolve_settings(configuration);
    proof {
        assert forall|name: u32| #[trigger]
            spec_effective_for_name(
                settings.off,
                settings.default_level,
                settings.rules@,
                name,
            ) == spec_config_effective(*configuration, name) by {
            lemma_find_rule_matches(settings.rules@, configuration.rules@, name);
            crate::linter::lemma_spec_find_rule(settings.rules@, name);
        }
    }
    let ghost resolved_settings = settings;
    let mut linter: Linter<R> = Linter::new(settings, codebase);
    let mut remaining = plugins;
    while remaining.len() > 0
        invariant
            linter.rules@.len() + remaining@.len() == rule_count,
            linter.settings == resolved_settings,
        decreases remaining@.len(),
    {
        let plugin = remaining.remove(0);
        linter.add_plugin(plugin);
    }
    let n = units.len();
    let total = all_semantics.len();
    let mut k: usize = 0;
    let ghost mut parts: Seq<Seq<Issue>> = Seq::empty();
    proof {
        assert(out@ =~= spec_concat(parts));
    }
    while k < n
        invariant
            n == units@.len(),
            n == views.len(),
            base == externals@.len(),
            base == ext_views.len(),
            total == all_semantics@.len(),
            total == base + n,
            conflict_pool@ == cb_issues,
            cb_issues == spec_codebase_of(all_views).issues,
            all_views == ext_views + views,
            k <= n,
            parts.len() == k,
            forall|i: int|
                0 <= i < all_views.len() ==> (#[trigger] all_semantics@[i])@
                    == spec_unit_semantics(all_views[i]),
            out@ == spec_concat(parts),
            forall|i: int|
                0 <= i < k ==> spec_file_part_ok(
                    #[trigger] parts[i],
                    spec_unit_semantics(views[i]),
                    spec_conflicts_for(cb_issues, spec_unit_semantics(views[i]).source),
                    *configuration,
                    rule_count,
                ),
            linter.rules@.len() == rule_count,
            forall|name: u32| #[trigger]
                spec_effective_for_name(
                    linter.settings.off,
                    linter.settings.default_level,
                    linter.settings.rules@,
                    name,
                ) == spec_config_effective(*configuration, name),
            linter.settings.off == spec_config_is_off(*configuration),
        decreases n - k,
    {
        let semantics = &all_semantics[base + k];
        let ghost sv = spec_unit_semantics(views[k as int]);
        proof {
            assert(all_views[base + k as int] == views[k as int]);
            assert(semantics@ == sv);
            assert(semantics.source == sv.source);
        }
        let ghost out_before = out@;
        let file_conflicts = conflicts_for(&conflict_pool, semantics.source);
        let ghost conflict_part = file_conflicts@;
        out.extend_from_vec(file_conflicts);
        let lint_issues = linter.lint(semantics);
        let ghost lint_part = lint_issues@;
        out.extend_from_vec(lint_issues.issues);
        out.extend_from_vec(copied(&semantics.issues));
        match &semantics.parse_error {
            Some(e) => {
                out.push(Issue::from_parse_error(e, semantics.source));
            },
            None => {},
        }
        let ghost part = conflict_part + lint_part + sv.issues + spec_parse_suffix(sv);
        proof {
            assert(out@ =~= out_before + part);
            let (names, found) = choose|names: Seq<u32>, found: Seq<Seq<Issue>>|
                #[trigger] spec_lint_shape(
                    names,
                    found,
                    linter.settings.off,
                    linter.settings.default_level,
                    linter.settings.rules@,
                    linter.rules@.len() as int,
                    semantics.source,
                    lint_part,
                );
            lemma_concat_config(
                names,
                found,
                linter.settings.off,
                linter.settings.default_level,
                linter.settings.rules@,
                *configuration,
                sv.source,
            );
            assert(spec_config_lint_shape(
                names,
                found,
                *configuration,
                rule_count,
                sv.source,
                lint_part,
            ));
            assert forall|i: int| 0 <= i < lint_part.len() implies {
                &&& (#[trigger] lint_part[i]).source == sv.source
                &&& Some(lint_part[i].level) == spec_config_effective(
                    *configuration,
                    lint_part[i].rule,
                )
            } by {
                assert(spec_effective_for_name(
                    linter.settings.off,
                    linter.settings.default_level,
                    linter.settings.rules@,
                    lint_part[i].rule,
                ) == spec_config_effective(*configuration, lint_part[i].rule));
            }
            assert(spec_lint_part_shape(
                lint_part,
                part,
                sv,
                spec_conflicts_for(cb_issues, sv.source),
                *configuration,
                rule_count,
            ));
            assert(spec_file_part_ok(
                part,
                sv,
                spec_conflicts_for(cb_issues, sv.source),
                *configuration,
                rule_count,
            ));
            let next = parts.push(part);
            assert(next.drop_last() =~= parts);
            parts = next;
        }
        k = k + 1;
    }
    proof {
        assert(spec_run_shape(parts, ext_views, views, *configuration, rule_count, out@));
    }
    out
}

} // verus!
