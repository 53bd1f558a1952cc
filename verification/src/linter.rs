//! The rule engine: configuration resolution and the lint driver.
//!
//! Rules are external plugins behind the `Rule` trait; their bodies are
//! out of scope here, so the engine's contract states what holds whatever
//! a rule returns: a switched-off engine reports nothing, every reported
//! issue is stamped with the file it was checked against and the rule that
//! raised it, and the issue's level is the resolved effective level of
//! that rule. Settings resolution itself is exact.

use vstd::prelude::*;

use crate::issue::Issue;
use crate::issue::IssueCollection;
use crate::issue::Level;
use crate::reflect::Codebase;
use crate::semantics::Semantics;

verus! {

/// A configured severity for the whole run or one rule; `Off` disables
/// instead of grading.
#[derive(Clone, Copy, Debug, PartialEq, Eq, Structural)]
pub enum LinterLevel {
    Off,
    Help,
    Note,
    Warning,
    Error,
}

/// One rule-specific option, an opaque key/value pair handed through to
/// the rule.
#[derive(Clone, Copy, Debug, PartialEq, Eq, Structural)]
pub struct RuleOption {
    pub key: u32,
    pub value: i64,
}

/// The configuration of one rule as read from the user's configuration.
pub struct RuleConfiguration {
    pub name: u32,
    pub level: Option<LinterLevel>,
    pub options: Vec<RuleOption>,
}

/// The user-facing linter configuration.
pub struct LinterConfiguration {
    pub level: Option<LinterLevel>,
    pub default_plugins: Option<bool>,
    pub plugins: Vec<u32>,
    pub rules: Vec<RuleConfiguration>,
}

/// The resolved settings of one rule.
pub struct RuleSettings {
    pub enabled: bool,
    pub level: Option<Level>,
    pub options: Vec<RuleOption>,
}

impl RuleSettings {
    /// A rule switched off entirely.
    pub fn disabled() -> (r: RuleSettings)
        ensures
            !r.enabled,
            r.level matches Option::None,
            r.options@ == Seq::<RuleOption>::empty(),
    {
        let r = RuleSettings { enabled: false, level: None, options: Vec::new() };
        proof {
            assert(r.options@ =~= Seq::<RuleOption>::empty());
        }
        r
    }

    /// A rule enabled at the run's default level.
    pub fn enabled() -> (r: RuleSettings)
        ensures
            r.enabled,
            r.level matches Option::None,
            r.options@ == Seq::<RuleOption>::empty(),
    {
        let r = RuleSettings { enabled: true, level: None, options: Vec::new() };
        proof {
            assert(r.options@ =~= Seq::<RuleOption>::empty());
        }
        r
    }

    /// A rule enabled at an explicit level (or the default when none).
    pub fn from_level(level: Option<Level>) -> (r: RuleSettings)
        ensures
            r.enabled,
            r.level == level,
            r.options@ == Seq::<RuleOption>::empty(),
    {
        let r = RuleSettings { enabled: true, level, options: Vec::new() };
        proof {
            assert(r.options@ =~= Seq::<RuleOption>::empty());
        }
        r
    }

    /// The same settings carrying the given rule-specific options.
    pub fn with_options(self, options: Vec<RuleOption>) -> (r: RuleSettings)
        ensures
            r.enabled == self.enabled,
            r.level == self.level,
            r.options@ == options@,
    {
        RuleSettings { enabled: self.enabled, level: self.level, options }
    }
}

/// One rule's name with its resolved settings.
pub struct RuleEntry {
    pub name: u32,
    pub settings: RuleSettings,
}

/// The resolved engine settings for one run, immutable once resolved.
pub struct Settings {
    /// The whole engine switched off.
    pub off: bool,
    /// The run-wide minimum level for rules without their own.
    pub default_level: Option<Level>,
    /// Whether the default plugin set participates.
    pub default_plugins: bool,
    /// The explicitly enabled plugin set.
    pub plugins: Vec<u32>,
    /// Per-rule overrides, in configuration order.
    pub rules: Vec<RuleEntry>,
}

impl Settings {
    /// The untouched settings: engine on, default plugins on, no
    /// overrides.
    pub fn new() -> (r: Settings)
        ensures
            !r.off,
            r.default_level matches Option::None,
            r.default_plugins,
            r.plugins@ == Seq::<u32>::empty(),
            r.rules@ == Seq::<RuleEntry>::empty(),
    {
        let r = Settings {
            off: false,
            default_level: None,
            default_plugins: true,
            plugins: Vec::new(),
            rules: Vec::new(),
        };
        proof {
            assert(r.plugins@ =~= Seq::<u32>::empty());
            assert(r.rules@ =~= Seq::<RuleEntry>::empty());
        }
        r
    }

    /// The same settings with the whole engine switched off.
    pub fn off(self) -> (r: Settings)
        ensures
            r.off,
            r.default_level == self.default_level,
            r.default_plugins == self.default_plugins,
            r.plugins@ == self.plugins@,
            r.rules@ == self.rules@,
    {
        Settings {
            off: true,
            default_level: self.default_level,
            default_plugins: self.default_plugins,
            plugins: self.plugins,
            rules: self.rules,
        }
    }

    /// The same settings with the run-wide default level set.
    pub fn with_level(self, level: Level) -> (r: Settings)
        ensures
            r.off == self.off,
            r.default_level == Some(level),
            r.default_plugins == self.default_plugins,
            r.plugins@ == self.plugins@,
            r.rules@ == self.rules@,
    {
        Settings {
            off: self.off,
            default_level: Some(level),
            default_plugins: self.default_plugins,
            plugins: self.plugins,
            rules: self.rules,
        }
    }

    /// The same settings with the default plugin set toggled.
    pub fn with_default_plugins(self, default_plugins: bool) -> (r: Settings)
        ensures
            r.off == self.off,
            r.default_level == self.default_level,
            r.default_plugins == default_plugins,
            r.plugins@ == self.plugins@,
            r.rules@ == self.rules@,
    {
        Settings {
            off: self.off,
            default_level: self.default_level,
            default_plugins,
            plugins: self.plugins,
            rules: self.rules,
        }
    }

    /// The same settings with the enabled plugin set replaced.
    pub fn with_plugins(self, plugins: Vec<u32>) -> (r: Settings)
        ensures
            r.off == self.off,
            r.default_level == self.default_level,
            r.default_plugins == self.default_plugins,
            r.plugins@ == plugins@,
            r.rules@ == self.rules@,
    {
        Settings {
            off: self.off,
            default_level: self.default_level,
            default_plugins: self.default_plugins,
            plugins,
            rules: self.rules,
        }
    }

    /// The same settings with one more per-rule override appended.
    pub fn with_rule(self, name: u32, settings: RuleSettings) -> (r: Settings)
        ensures
            r.off == self.off,
            r.default_level == self.default_level,
            r.default_plugins == self.default_plugins,
            r.plugins@ == self.plugins@,
            r.rules@.len() == self.rules@.len() + 1,
            forall|i: int| 0 <= i < self.rules@.len() ==> r.rules@[i] == self.rules@[i],
            r.rules@.last().name == name,
            r.rules@.last().settings.enabled == settings.enabled,
            r.rules@.last().settings.level == settings.level,
            r.rules@.last().settings.options@ == settings.options@,
    {
        let mut rules = self.rules;
        rules.push(RuleEntry { name, settings });
        Settings {
            off: self.off,
            default_level: self.default_level,
            default_plugins: self.default_plugins,
            plugins: self.plugins,
            rules,
        }
    }
}

/// The index of the first override entry for `name`, when one exists.
pub open spec fn spec_find_rule(rules: Seq<RuleEntry>, name: u32) -> Option<int>
    decreases rules.len(),
{
    if rules.len() == 0 {
        None
    } else if rules.first().name == name {
        Some(0)
    } else {
        match spec_find_rule(rules.drop_first(), name) {
            Some(j) => Some(j + 1),
            None => None,
        }
    }
}

/// `spec_find_rule` answers the first entry carrying the name.
pub proof fn lemma_spec_find_rule(rules: Seq<RuleEntry>, name: u32)
    ensures
        (match spec_find_rule(rules, name) {
            Some(j) => {
                &&& 0 <= j < rules.len()
                &&& rules[j].name == name
                &&& forall|i: int| 0 <= i < j ==> (#[trigger] rules[i]).name != name
            },
            None => forall|i: int| 0 <= i < rules.len() ==> (#[trigger] rules[i]).name != name,
        }),
    decreases rules.len(),
{
    if rules.len() > 0 && rules.first().name != name {
        lemma_spec_find_rule(rules.drop_first(), name);
        assert forall|i: int| 0 < i < rules.len() implies (#[trigger] rules[i]).name
            == rules.drop_first()[i - 1].name by {}
    }
}

/// The level a configured `LinterLevel` grades at, when it grades at all.
pub open spec fn spec_level_of(level: LinterLevel) -> Option<Level> {
    match level {
        LinterLevel::Off => None,
        LinterLevel::Help => Some(Level::Help),
        LinterLevel::Note => Some(Level::Note),
        LinterLevel::Warning => Some(Level::Warning),
        LinterLevel::Error => Some(Level::Error),
    }
}

/// The level at which an enabled rule reports when neither it nor the run
/// sets one.
pub open spec fn spec_base_level() -> Level {
    Level::Warning
}

/// The effective reporting level of one rule under the run's settings:
/// nothing when the engine is off or the rule disabled; otherwise the
/// rule's own level, else the run's default level, else the base level.
pub open spec fn spec_effective_level(
    off: bool,
    default_level: Option<Level>,
    enabled: bool,
    rule_level: Option<Level>,
) -> Option<Level> {
    if off || !enabled {
        None
    } else {
        match rule_level {
            Some(l) => Some(l),
            None => match default_level {
                Some(l) => Some(l),
                None => Some(spec_base_level()),
            },
        }
    }
}

/// Resolves the user configuration into engine settings, exactly: `Off`
/// switches the engine off, any other run level becomes the default
/// level, plugin choices are carried over, and each configured rule
/// becomes one override entry in configuration order.
pub fn resolve_settings(configuration: &LinterConfiguration) -> (r: Settings)
    ensures
        r.off == (configuration.level matches Some(LinterLevel::Off)),
        r.default_level == (match configuration.level {
            Some(l) => spec_level_of(l),
            None => None::<Level>,
        }),
        r.default_plugins == (match configuration.default_plugins {
            Some(b) => b,
            None => true,
        }),
        r.plugins@ == configuration.plugins@,
        r.rules@.len() == configuration.rules@.len(),
        forall|i: int|
            0 <= i < configuration.rules@.len() ==> {
                &&& (#[trigger] r.rules@[i]).name == configuration.rules@[i].name
                &&& r.rules@[i].settings.enabled == !(configuration.rules@[i].level matches Some(
                    LinterLevel::Off,
                ))
                &&& r.rules@[i].settings.level == (match configuration.rules@[i].level {
                    Some(l) => spec_level_of(l),
                    None => None::<Level>,
                })
                &&& r.rules@[i].settings.options@ == configuration.rules@[i].options@
            },
{
    let mut settings = Settings::new();
    match configuration.level {
        Some(level) => {
            settings = match level {
                LinterLevel::Off => settings.off(),
                LinterLevel::Help => settings.with_level(Level::Help),
                LinterLevel::Note => settings.with_level(Level::Note),
                LinterLevel::Warning => settings.with_level(Level::Warning),
                LinterLevel::Error => settings.with_level(Level::Error),
            };
        },
        None => {},
    }
    match configuration.default_plugins {
        Some(default_plugins) => {
            settings = settings.with_default_plugins(default_plugins);
        },
        None => {},
    }
    settings = settings.with_plugins(clone_plugins(&configuration.plugins));
    let n = configuration.rules.len();
    let mut k: usize = 0;
    while k < n
        invariant
            n == configuration.rules@.len(),
            k <= n,
            settings.off == (configuration.level matches Some(LinterLevel::Off)),
            settings.default_level == (match configuration.level {
                Some(l) => spec_level_of(l),
                None => None::<Level>,
            }),
            settings.default_plugins == (match configuration.default_plugins {
                Some(b) => b,
                None => true,
            }),
            settings.plugins@ == configuration.plugins@,
            settings.rules@.len() == k,
            forall|i: int|
                0 <= i < k ==> {
                    &&& (#[trigger] settings.rules@[i]).name == configuration.rules@[i].name
                    &&& settings.rules@[i].settings.enabled == !(configuration.rules@[i].level
                        matches Some(LinterLevel::Off))
                    &&& settings.rules@[i].settings.level == (match configuration.rules@[i].level {
                        Some(l) => spec_level_of(l),
                        None => None::<Level>,
                    })
                    &&& settings.rules@[i].settings.options@ == configuration.rules@[i].options@
                },
        decreases n - k,
    {
        let rule = &configuration.rules[k];
        let rule_settings = match rule.level {
            Some(linter_level) => match linter_level {
                LinterLevel::Off => RuleSettings::disabled(),
                LinterLevel::Help => RuleSettings::from_level(Some(Level::Help)),
                LinterLevel::Note => RuleSettings::from_level(Some(Level::Note)),
                LinterLevel::Warning => RuleSettings::from_level(Some(Level::Warning)),
                LinterLevel::Error => RuleSettings::from_level(Some(Level::Error)),
            },
            None => RuleSettings::enabled(),
        };
        settings = settings.with_rule(rule.name, rule_settings.with_options(clone_options(&rule.options)));
        k = k + 1;
    }
    settings
}

/// Copies a plugin list.
fn clone_plugins(plugins: &Vec<u32>) -> (r: Vec<u32>)
    ensures
        r@ == plugins@,
{
    let mut out: Vec<u32> = Vec::new();
    let n = plugins.len();
    let mut k: usize = 0;
    while k < n
        invariant
            n == plugins@.len(),
            k <= n,
            out@ == plugins@.subrange(0, k as int),
        decreases n - k,
    {
        out.push(plugins[k]);
        proof {
            assert(plugins@.subrange(0, k as int + 1) =~= plugins@.subrange(0, k as int).push(
                plugins@[k as int],
            ));
        }
        k = k + 1;
    }
    proof {
        assert(plugins@.subrange(0, n as int) =~= plugins@);
    }
    out
}

/// Copies an option list.
fn clone_options(options: &Vec<RuleOption>) -> (r: Vec<RuleOption>)
    ensures
        r@ == options@,
{
    let mut out: Vec<RuleOption> = Vec::new();
    let n = options.len();
    let mut k: usize = 0;
    while k < n
        invariant
            n == options@.len(),
            k <= n,
            out@ == options@.subrange(0, k as int),
        decreases n - k,
    {
        out.push(options[k]);
        proof {
            assert(options@.subrange(0, k as int + 1) =~= options@.subrange(0, k as int).push(
                options@[k as int],
            ));
        }
        k = k + 1;
    }
    proof {
        assert(options@.subrange(0, n as int) =~= options@);
    }
    out
}

/// One lint rule. Rules are plugins implemented outside the engine: the
/// engine promises nothing about what a rule's check finds, only about
/// how the engine selects, levels and collects whatever comes back.
pub trait Rule {
    /// The rule's registered name.
    fn name(&self) -> u32;

    /// Checks one file against the populated codebase under the rule's
    /// resolved settings and reports its findings.
    fn check(
        &self,
        settings: &RuleSettings,
        semantics: &Semantics,
        codebase: &Codebase,
    ) -> Vec<Issue>;
}

/// The registered name of the self-extends rule.
pub const SELF_EXTENDS_RULE: u32 = 1;

/// A built-in rule: a class must not name itself as its own parent. Its
/// findings carry an automatic fix (dropping the extends clause).
pub struct SelfExtendsRule {
}

impl Rule for SelfExtendsRule {
    fn name(&self) -> u32 {
        SELF_EXTENDS_RULE
    }

    fn check(
        &self,
        settings: &RuleSettings,
        semantics: &Semantics,
        codebase: &Codebase,
    ) -> Vec<Issue> {
        let mut found: Vec<Issue> = Vec::new();
        let n = semantics.program.statements.len();
        let mut k: usize = 0;
        while k < n
            invariant
                n == semantics.program.statements@.len(),
                k <= n,
            decreases n - k,
        {
            match &semantics.program.statements[k] {
                crate::ast::Statement::Class(c) => {
                    match &c.extends {
                        Some(e) => {
                            if e.parent.name == c.name.name {
                                found.push(
                                    Issue {
                                        level: Level::Warning,
                                        code: crate::issue::IssueCode::SelfExtends,
                                        rule: SELF_EXTENDS_RULE,
                                        source: semantics.source,
                                        span: c.name.span,
                                        related: Some(e.parent.span),
                                        fixable: true,
                                    },
                                );
                            }
                        },
                        None => {},
                    }
                },
                crate::ast::Statement::Global(_) => {},
            }
            k = k + 1;
        }
        found
    }
}

/// The effective reporting level of the rule registered under `name`:
/// its first override entry's settings when the configuration mentions
/// it, the enabled defaults otherwise.
pub open spec fn spec_effective_for_name(
    off: bool,
    default_level: Option<Level>,
    rules: Seq<RuleEntry>,
    name: u32,
) -> Option<Level> {
    match spec_find_rule(rules, name) {
        Some(j) => spec_effective_level(
            off,
            default_level,
            rules[j].settings.enabled,
            rules[j].settings.level,
        ),
        None => spec_effective_level(off, default_level, true, None),
    }
}

/// One finding as the engine reports it: the rule's effective level, the
/// raising rule's name and the checked file stamped on; what the rule
/// said — code, span, related span, fixability — kept unchanged.
pub open spec fn spec_stamp(issue: Issue, level: Level, rule: u32, source: u32) -> Issue {
    Issue {
        level,
        code: issue.code,
        rule,
        source,
        span: issue.span,
        related: issue.related,
        fixable: issue.fixable,
    }
}

/// A rule's findings stamped one by one: every finding kept, in order.
pub open spec fn spec_stamped(found: Seq<Issue>, level: Level, rule: u32, source: u32) -> Seq<
    Issue,
> {
    found.map_values(|i: Issue| spec_stamp(i, level, rule, source))
}

/// Stamps what one enabled rule returned: the findings come back complete
/// and in order, each leveled at the rule's effective level and carrying
/// the rule's name and the checked file, with the finding's own code,
/// span, related span and fixability untouched.
pub fn stamp_findings(found: Vec<Issue>, level: Level, rule: u32, source: u32) -> (r: Vec<Issue>)
    ensures
        r@ == spec_stamped(found@, level, rule, source),
{
    let ghost f = |i: Issue| spec_stamp(i, level, rule, source);
    let mut out: Vec<Issue> = Vec::new();
    let n = found.len();
    let mut k: usize = 0;
    proof {
        assert(out@ =~= found@.subrange(0, 0).map_values(f));
    }
    while k < n
        invariant
            n == found@.len(),
            k <= n,
            f == (|i: Issue| spec_stamp(i, level, rule, source)),
            out@ == found@.subrange(0, k as int).map_values(f),
        decreases n - k,
    {
        let issue = found[k];
        out.push(
            Issue {
                level,
                code: issue.code,
                rule,
                source,
                span: issue.span,
                related: issue.related,
                fixable: issue.fixable,
            },
        );
        proof {
            let prefix = found@.subrange(0, k as int);
            assert(found@.subrange(0, k as int + 1) =~= prefix.push(issue));
            assert(prefix.push(issue).map_values(f) =~= prefix.map_values(f).push(f(issue)));
        }
        k = k + 1;
    }
    proof {
        assert(found@.subrange(0, n as int) =~= found@);
    }
    out
}

/// What the engine collects over the registered rules, in registration
/// order: for each rule its name and its returned findings; an enabled
/// rule contributes its findings stamped, a disabled one contributes
/// nothing.
pub open spec fn spec_lint_concat(
    names: Seq<u32>,
    found: Seq<Seq<Issue>>,
    off: bool,
    default_level: Option<Level>,
    entries: Seq<RuleEntry>,
    source: u32,
) -> Seq<Issue>
    decreases names.len(),
{
    if names.len() == 0 || found.len() == 0 {
        Seq::empty()
    } else {
        spec_lint_concat(names.drop_last(), found.drop_last(), off, default_level, entries, source)
            + (match spec_effective_for_name(off, default_level, entries, names.last()) {
            Some(l) => spec_stamped(found.last(), l, names.last(), source),
            None => Seq::empty(),
        })
    }
}

/// The engine's report shape: one rule name and one finding sequence per
/// registered rule, and the report is their collection in registration
/// order.
pub open spec fn spec_lint_shape(
    names: Seq<u32>,
    found: Seq<Seq<Issue>>,
    off: bool,
    default_level: Option<Level>,
    entries: Seq<RuleEntry>,
    rule_count: int,
    source: u32,
    result: Seq<Issue>,
) -> bool {
    &&& names.len() == rule_count
    &&& found.len() == rule_count
    &&& result == spec_lint_concat(names, found, off, default_level, entries, source)
}

/// With the engine switched off, the collection is empty whatever the
/// rules returned.
pub proof fn lemma_lint_concat_off(
    names: Seq<u32>,
    found: Seq<Seq<Issue>>,
    default_level: Option<Level>,
    entries: Seq<RuleEntry>,
    source: u32,
)
    ensures
        spec_lint_concat(names, found, true, default_level, entries, source) == Seq::<
            Issue,
        >::empty(),
    decreases names.len(),
{
    if names.len() > 0 && found.len() > 0 {
        lemma_lint_concat_off(names.drop_last(), found.drop_last(), default_level, entries, source);
        assert(spec_lint_concat(names, found, true, default_level, entries, source) =~= Seq::<
            Issue,
        >::empty());
    }
}

/// The rule engine: resolved settings, the populated codebase, and the
/// registered rules in registration order.
pub struct Linter<R> {
    pub settings: Settings,
    pub codebase: Codebase,
    pub rules: Vec<R>,
}

impl<R: Rule> Linter<R> {
    /// An engine over the given settings and populated codebase, with no
    /// rules registered yet.
    pub fn new(settings: Settings, codebase: Codebase) -> (r: Linter<R>)
        ensures
            r.settings == settings,
            r.codebase == codebase,
            r.rules@ == Seq::<R>::empty(),
    {
        let r = Linter { settings, codebase, rules: Vec::new() };
        proof {
            assert(r.rules@ =~= Seq::<R>::empty());
        }
        r
    }

    /// Registers one more rule; registration order is reporting order.
    pub fn add_plugin(&mut self, rule: R)
        ensures
            final(self).settings == old(self).settings,
            final(self).codebase == old(self).codebase,
            final(self).rules@ == old(self).rules@.push(rule),
    {
        self.rules.push(rule);
    }

    /// The resolved settings of the rule registered under `name`: its
    /// first override entry, or the enabled defaults when the
    /// configuration never mentions it.
    pub fn rule_settings_for(&self, name: u32) -> (r: RuleSettings)
        ensures
            (match spec_find_rule(self.settings.rules@, name) {
                Some(j) => {
                    &&& r.enabled == self.settings.rules@[j].settings.enabled
                    &&& r.level == self.settings.rules@[j].settings.level
                    &&& r.options@ == self.settings.rules@[j].settings.options@
                },
                None => {
                    &&& r.enabled
                    &&& r.level matches Option::None
                    &&& r.options@ == Seq::<RuleOption>::empty()
                },
            }),
    {
        let n = self.settings.rules.len();
        let mut k: usize = 0;
        proof {
            lemma_spec_find_rule(self.settings.rules@, name);
        }
        while k < n
            invariant
                n == self.settings.rules@.len(),
                k <= n,
                forall|i: int| 0 <= i < k ==> (#[trigger] self.settings.rules@[i]).name != name,
                (match spec_find_rule(self.settings.rules@, name) {
                    Some(j) => {
                        &&& 0 <= j < self.settings.rules@.len()
                        &&& self.settings.rules@[j].name == name
                        &&& forall|i: int|
                            0 <= i < j ==> (#[trigger] self.settings.rules@[i]).name != name
                    },
                    None => forall|i: int|
                        0 <= i < self.settings.rules@.len() ==> (#[trigger] self.settings
                            .rules@[i]).name != name,
                }),
            decreases n - k,
        {
            if self.settings.rules[k].name == name {
                let entry = &self.settings.rules[k];
                return RuleSettings {
                    enabled: entry.settings.enabled,
                    level: entry.settings.level,
                    options: clone_options(&entry.settings.options),
                };
            }
            k = k + 1;
        }
        RuleSettings::enabled()
    }

    /// The effective reporting level of one rule's resolved settings
    /// under this engine's run settings.
    pub fn effective_level(&self, rule_settings: &RuleSettings) -> (r: Option<Level>)
        ensures
            r == spec_effective_level(
                self.settings.off,
                self.settings.default_level,
                rule_settings.enabled,
                rule_settings.level,
            ),
    {
        if self.settings.off || !rule_settings.enabled {
            return None;
        }
        match rule_settings.level {
            Some(l) => Some(l),
            None => match self.settings.default_level {
                Some(l) => Some(l),
                None => Some(Level::Warning),
            },
        }
    }

    /// Runs every registered rule over one file's semantics against the
    /// shared, read-only codebase, in registration order.
    ///
    /// Rule bodies are unspecified plugins, so the contract states what
    /// holds of every outcome: the report is, per registered rule in
    /// registration order, the stamped findings of that rule when it is
    /// enabled and nothing when it is not (`spec_lint_shape`); a
    /// switched-off engine (and an engine with no rules) reports nothing;
    /// and every reported issue carries the checked file as its source,
    /// the raising rule's name, and exactly that rule's effective level —
    /// a disabled rule therefore never reports.
    pub fn lint(&self, semantics: &Semantics) -> (r: IssueCollection)
        ensures
            exists|names: Seq<u32>, found: Seq<Seq<Issue>>|
                #[trigger] spec_lint_shape(
                    names,
                    found,
                    self.settings.off,
                    self.settings.default_level,
                    self.settings.rules@,
                    self.rules@.len() as int,
                    semantics.source,
                    r@,
                ),
            self.settings.off ==> r@.len() == 0,
            self.rules@.len() == 0 ==> r@.len() == 0,
            forall|i: int|
                0 <= i < r@.len() ==> {
                    &&& (#[trigger] r@[i]).source == semantics.source
                    &&& Some(r@[i].level) == spec_effective_for_name(
                        self.settings.off,
                        self.settings.default_level,
                        self.settings.rules@,
                        r@[i].rule,
                    )
                },
    {
        let ghost entries = self.settings.rules@;
        let ghost rule_count: int = self.rules@.len() as int;
        let mut out = IssueCollection::new();
        if self.settings.off {
            proof {
                let names: Seq<u32> = Seq::new(rule_count as nat, |i: int| 0u32);
                let found: Seq<Seq<Issue>> = Seq::new(
                    rule_count as nat,
                    |i: int| Seq::<Issue>::empty(),
                );
                lemma_lint_concat_off(names, found, self.settings.default_level, entries, semantics.source);
                assert(spec_lint_shape(
                    names,
                    found,
                    self.settings.off,
                    self.settings.default_level,
                    entries,
                    rule_count,
                    semantics.source,
                    out@,
                ));
            }
            return out;
        }
        let n = self.rules.len();
        let mut k: usize = 0;
        let ghost mut names: Seq<u32> = Seq::empty();
        let ghost mut found_parts: Seq<Seq<Issue>> = Seq::empty();
        while k < n
            invariant
                n == self.rules@.len(),
                k <= n,
                !self.settings.off,
                entries == self.settings.rules@,
                names.len() == k,
                found_parts.len() == k,
                out@ == spec_lint_concat(
                    names,
                    found_parts,
                    self.settings.off,
                    self.settings.default_level,
                    entries,
                    semantics.source,
                ),
                forall|i: int|
                    0 <= i < out@.len() ==> {
                        &&& (#[trigger] out@[i]).source == semantics.source
                        &&& Some(out@[i].level) == spec_effective_for_name(
                            self.settings.off,
                            self.settings.default_level,
                            self.settings.rules@,
                            out@[i].rule,
                        )
                    },
            decreases n - k,
        {
            let rule = &self.rules[k];
            let name = rule.name();
            let rule_settings = self.rule_settings_for(name);
            let effective = self.effective_level(&rule_settings);
            match effective {
                Some(level) => {
                    proof {
                        assert(Some(level) == spec_effective_for_name(
                            self.settings.off,
                            self.settings.default_level,
                            self.settings.rules@,
                            name,
                        ));
                    }
                    let found = rule.check(&rule_settings, semantics, &self.codebase);
                    let ghost found_view = found@;
                    let stamped = stamp_findings(found, level, name, semantics.source);
                    proof {
                        assert forall|i: int| 0 <= i < stamped@.len() implies {
                            &&& (#[trigger] stamped@[i]).source == semantics.source
                            &&& Some(stamped@[i].level) == spec_effective_for_name(
                                self.settings.off,
                                self.settings.default_level,
                                self.settings.rules@,
                                stamped@[i].rule,
                            )
                        } by {
                            assert(stamped@[i] == spec_stamp(
                                found_view[i],
                                level,
                                name,
                                semantics.source,
                            ));
                        }
                    }
                    out.extend_from_vec(stamped);
                    proof {
                        let next_names = names.push(name);
                        let next_found = found_parts.push(found_view);
                        assert(next_names.drop_last() =~= names);
                        assert(next_found.drop_last() =~= found_parts);
                        names = next_names;
                        found_parts = next_found;
                    }
                },
                None => {
                    proof {
                        let next_names = names.push(name);
                        let next_found = found_parts.push(Seq::<Issue>::empty());
                        assert(next_names.drop_last() =~= names);
                        assert(next_found.drop_last() =~= found_parts);
                        names = next_names;
                        found_parts = next_found;
                        assert(out@ + Seq::<Issue>::empty() =~= out@);
                    }
                },
            }
            k = k + 1;
        }
        proof {
            assert(spec_lint_shape(
                names,
                found_parts,
                self.settings.off,
                self.settings.default_level,
                entries,
                rule_count,
                semantics.source,
                out@,
            ));
        }
        out
    }
}

} // verus!
