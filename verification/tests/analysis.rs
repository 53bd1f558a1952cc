use mago::ast::ParseError;
use mago::ast::Statement;
use mago::ast::Terminator;
use mago::issue::Issue;
use mago::issue::IssueCode;
use mago::issue::IssueCollection;
use mago::issue::Level;
use mago::linter::LinterConfiguration;
use mago::linter::LinterLevel;
use mago::linter::RuleConfiguration;
use mago::linter::SelfExtendsRule;
use mago::linter::SELF_EXTENDS_RULE;
use mago::linter::resolve_settings;
use mago::pipeline::build_all_semantics;
use mago::pipeline::build_codebase;
use mago::pipeline::check_sources;
use mago::pipeline::lint_sources;
use mago::pipeline::SourceUnit;
use mago::reflect::merge;
use mago::reflect::populate;
use mago::reflect::reflect;
use mago::reflect::Codebase;
use mago::semantics::build_semantics;
use mago::stream::TokenStream;
use mago::parser::parse_global;
use mago::parser::parse_program;
use mago::token::Span;
use mago::token::Token;
use mago::token::TokenKind;

fn tok(kind: TokenKind, name: u32, start: u32, end: u32) -> Token {
    Token { kind, name, span: Span { start, end } }
}

/// Tokens of `global $a, $b;` with ordered spans.
fn global_a_b_tokens() -> Vec<Token> {
    vec![
        tok(TokenKind::Global, 0, 0, 6),
        tok(TokenKind::Variable, 10, 7, 9),
        tok(TokenKind::Comma, 0, 9, 10),
        tok(TokenKind::Variable, 11, 11, 13),
        tok(TokenKind::Semicolon, 0, 13, 14),
    ]
}

/// Tokens of `class <name> { }`.
fn class_tokens(name: u32, base: u32) -> Vec<Token> {
    vec![
        tok(TokenKind::Class, 0, base, base + 5),
        tok(TokenKind::Identifier, name, base + 6, base + 9),
        tok(TokenKind::LeftBrace, 0, base + 10, base + 11),
        tok(TokenKind::RightBrace, 0, base + 12, base + 13),
    ]
}

/// Tokens of `class <name> extends <parent> { }`.
fn class_extends_tokens(name: u32, parent: u32, base: u32) -> Vec<Token> {
    vec![
        tok(TokenKind::Class, 0, base, base + 5),
        tok(TokenKind::Identifier, name, base + 6, base + 9),
        tok(TokenKind::Extends, 0, base + 10, base + 17),
        tok(TokenKind::Identifier, parent, base + 18, base + 21),
        tok(TokenKind::LeftBrace, 0, base + 22, base + 23),
        tok(TokenKind::RightBrace, 0, base + 24, base + 25),
    ]
}

#[test]
fn scenario_global_two_variables() {
    // `global $a, $b;` parses to a Global node with two variable items,
    // one separator, terminator = statement-ending punctuation; no error.
    let mut stream = TokenStream::new(global_a_b_tokens());
    let global = parse_global(&mut stream).expect("must parse");
    assert_eq!(global.variables.items.len(), 2);
    assert_eq!(global.variables.separators.len(), 1);
    assert_eq!(global.variables.items[0].name, 10);
    assert_eq!(global.variables.items[1].name, 11);
    match global.terminator {
        Terminator::Semicolon(t) => assert_eq!(t.span, Span { start: 13, end: 14 }),
        _ => panic!("expected statement-ending punctuation"),
    }
}

#[test]
fn scenario_trailing_separator_missing_operand() {
    // `global $a,` — the sequence parser attempts a second item parse,
    // which fails with UnexpectedEndOfInput and propagates as the file's
    // single parse error.
    let tokens = vec![
        tok(TokenKind::Global, 0, 0, 6),
        tok(TokenKind::Variable, 10, 7, 9),
        tok(TokenKind::Comma, 0, 9, 10),
    ];
    let semantics = build_semantics(1, tokens);
    match semantics.parse_error {
        Some(ParseError::UnexpectedEndOfInput { position }) => assert_eq!(position, 10),
        other => panic!("expected UnexpectedEndOfInput, got {:?}", other),
    }
    assert_eq!(semantics.program.statements.len(), 0);
}

#[test]
fn scenario_global_two_variables_has_zero_errors() {
    let semantics = build_semantics(7, global_a_b_tokens());
    assert!(semantics.parse_error.is_none());
    assert!(semantics.issues.is_empty());
    assert_eq!(semantics.program.statements.len(), 1);
    assert_eq!(semantics.names, vec![10, 11]);
}

#[test]
fn class_with_extends_parses_and_names_both_identifiers() {
    let semantics = build_semantics(1, class_extends_tokens(77, 88, 0));
    assert!(semantics.parse_error.is_none());
    assert_eq!(semantics.names, vec![77, 88]);
    match &semantics.program.statements[0] {
        Statement::Class(c) => {
            assert_eq!(c.name.name, 77);
            assert_eq!(c.extends.as_ref().map(|e| e.parent.name), Some(88));
        }
        _ => panic!("expected a class declaration"),
    }
}

#[test]
fn class_missing_brace_is_a_parse_error() {
    let mut tokens = class_tokens(77, 0);
    tokens.remove(3);
    let semantics = build_semantics(1, tokens);
    assert!(matches!(
        semantics.parse_error,
        Some(ParseError::UnexpectedEndOfInput { .. })
    ));
}

#[test]
fn exhausted_stream_terminates_implicitly() {
    let mut stream = TokenStream::new(Vec::new());
    let terminator = mago::parser::parse_terminator(&mut stream).expect("implicit end");
    assert!(matches!(terminator, Terminator::Implicit));
}

#[test]
fn separator_lies_between_items() {
    let mut stream = TokenStream::new(global_a_b_tokens());
    let global = parse_global(&mut stream).expect("must parse");
    let sep = global.variables.separators[0];
    assert!(global.variables.items[0].span.end <= sep.span.start);
    assert!(sep.span.end <= global.variables.items[1].span.start);
}

#[test]
fn separator_invariant_even_for_empty_list() {
    // `global ;` parses as an empty list: zero items, zero separators.
    let tokens = vec![
        tok(TokenKind::Global, 0, 0, 6),
        tok(TokenKind::Semicolon, 0, 7, 8),
    ];
    let mut stream = TokenStream::new(tokens);
    let global = parse_global(&mut stream).expect("must parse");
    assert_eq!(global.variables.items.len(), 0);
    assert_eq!(global.variables.separators.len(), 0);
}

#[test]
fn trailing_separator_before_terminator_is_recorded() {
    // `global $a, ;` consumes the trailing comma: one item, one separator.
    let tokens = vec![
        tok(TokenKind::Global, 0, 0, 6),
        tok(TokenKind::Variable, 10, 7, 9),
        tok(TokenKind::Comma, 0, 9, 10),
        tok(TokenKind::Semicolon, 0, 11, 12),
    ];
    let mut stream = TokenStream::new(tokens);
    let global = parse_global(&mut stream).expect("must parse");
    assert_eq!(global.variables.items.len(), 1);
    assert_eq!(global.variables.separators.len(), 1);
}

#[test]
fn close_tag_terminates_global() {
    let tokens = vec![
        tok(TokenKind::Global, 0, 0, 6),
        tok(TokenKind::Variable, 10, 7, 9),
        tok(TokenKind::CloseTag, 0, 10, 12),
    ];
    let mut stream = TokenStream::new(tokens);
    let global = parse_global(&mut stream).expect("must parse");
    assert_eq!(global.variables.items.len(), 1);
    assert!(matches!(global.terminator, Terminator::ClosingTag(_)));
}

#[test]
fn unexpected_token_carries_expected_and_found() {
    // `global class` — the item parser wants a variable.
    let tokens = vec![
        tok(TokenKind::Global, 0, 0, 6),
        tok(TokenKind::Class, 0, 7, 12),
    ];
    let mut stream = TokenStream::new(tokens);
    match parse_global(&mut stream) {
        Err(ParseError::UnexpectedToken { expected, found, span }) => {
            assert_eq!(expected, TokenKind::Variable);
            assert_eq!(found, TokenKind::Class);
            assert_eq!(span, Span { start: 7, end: 12 });
        }
        Err(other) => panic!("expected UnexpectedToken, got {:?}", other),
        Ok(_) => panic!("expected a parse error"),
    }
}

#[test]
fn program_keeps_statements_before_the_error() {
    // A good global statement, then a malformed one: the partial AST
    // keeps the first statement beside the single captured error.
    let mut tokens = global_a_b_tokens();
    tokens.push(tok(TokenKind::Global, 0, 20, 26));
    tokens.push(tok(TokenKind::Comma, 0, 27, 28));
    let mut stream = TokenStream::new(tokens);
    let (program, error) = parse_program(&mut stream);
    assert_eq!(program.statements.len(), 1);
    assert!(matches!(program.statements[0], Statement::Global(_)));
    assert!(matches!(error, Some(ParseError::UnexpectedToken { .. })));
}

#[test]
fn malformed_file_leaves_other_files_untouched() {
    // One malformed file yields exactly one parse error for that file; the
    // other file's unit is unaffected.
    let units = vec![
        SourceUnit { source: 1, tokens: vec![tok(TokenKind::Global, 0, 0, 6)] },
        SourceUnit { source: 2, tokens: global_a_b_tokens() },
    ];
    let sems = build_all_semantics(&units);
    assert!(sems[0].parse_error.is_some());
    assert!(sems[1].parse_error.is_none());
    assert_eq!(sems[1].program.statements.len(), 1);
    assert_eq!(sems[1].names, vec![10, 11]);
}

#[test]
fn duplicate_class_yields_one_conflict_with_both_spans() {
    // Two files each declaring class Foo (name id 77): the merged
    // codebase holds one duplicate-declaration issue referencing both
    // spans, and resolution uses the first-enumerated file's Foo.
    let units = vec![
        SourceUnit { source: 1, tokens: class_tokens(77, 0) },
        SourceUnit { source: 2, tokens: class_tokens(77, 100) },
        SourceUnit { source: 3, tokens: class_extends_tokens(88, 77, 200) },
    ];
    let sems = build_all_semantics(&units);
    let codebase = build_codebase(&sems);
    assert_eq!(codebase.symbols.len(), 3);
    assert_eq!(codebase.issues.len(), 1);
    let conflict = codebase.issues[0];
    assert_eq!(conflict.code, IssueCode::DuplicateDeclaration);
    assert_eq!(conflict.source, 2);
    assert_eq!(conflict.span, Span { start: 106, end: 109 });
    assert_eq!(conflict.related, Some(Span { start: 6, end: 9 }));
    // populate linked class 88 to the first-enumerated Foo, index 0.
    assert_eq!(codebase.symbols[2].name, 88);
    assert_eq!(codebase.symbols[2].parent_link, Some(0));
    assert_eq!(codebase.symbols[0].source, 1);
}

#[test]
fn merge_symbol_set_is_order_independent_but_conflicts_are_not() {
    let sem_a = build_semantics(1, class_tokens(77, 0));
    let sem_b = build_semantics(2, class_tokens(77, 100));
    let one_way = merge(merge(Codebase::new(), reflect(&sem_a)), reflect(&sem_b));
    let other_way = merge(merge(Codebase::new(), reflect(&sem_b)), reflect(&sem_a));
    // Same symbol set either way.
    assert_eq!(one_way.symbols.len(), 2);
    assert_eq!(other_way.symbols.len(), 2);
    for s in &one_way.symbols {
        assert!(other_way.symbols.contains(s));
    }
    // The conflict diagnostic depends on which declaration came first.
    assert_eq!(one_way.issues[0].source, 2);
    assert_eq!(other_way.issues[0].source, 1);
    assert_ne!(one_way.issues[0], other_way.issues[0]);
}

#[test]
fn merge_is_deterministic_for_one_enumeration_order() {
    let sem_a = build_semantics(1, class_tokens(77, 0));
    let sem_b = build_semantics(2, class_tokens(77, 100));
    let first = merge(merge(Codebase::new(), reflect(&sem_a)), reflect(&sem_b));
    let second = merge(merge(Codebase::new(), reflect(&sem_a)), reflect(&sem_b));
    assert_eq!(first.symbols, second.symbols);
    assert_eq!(first.issues, second.issues);
}

#[test]
fn populate_twice_resolves_the_same_links() {
    let units = vec![
        SourceUnit { source: 1, tokens: class_tokens(77, 0) },
        SourceUnit { source: 2, tokens: class_extends_tokens(88, 77, 100) },
    ];
    let sems = build_all_semantics(&units);
    let mut codebase = build_codebase(&sems);
    let once = codebase.symbols.clone();
    populate(&mut codebase);
    assert_eq!(codebase.symbols, once);
}

#[test]
fn semantics_only_mode_reports_parse_and_semantic_issues_only() {
    // Semantics-only mode never invokes the rule engine: a self-extending
    // class raises nothing, while the parse error and the empty global
    // statement do.
    let units = vec![
        SourceUnit { source: 1, tokens: vec![tok(TokenKind::Global, 0, 0, 6)] },
        SourceUnit {
            source: 2,
            tokens: vec![
                tok(TokenKind::Global, 0, 0, 6),
                tok(TokenKind::Semicolon, 0, 7, 8),
            ],
        },
        SourceUnit { source: 3, tokens: class_extends_tokens(77, 77, 0) },
    ];
    let issues = check_sources(&units);
    assert_eq!(issues.len(), 2);
    assert_eq!(issues.get(0).code, IssueCode::Parse);
    assert_eq!(issues.get(0).source, 1);
    assert_eq!(issues.get(1).code, IssueCode::EmptyGlobal);
    assert_eq!(issues.get(1).source, 2);
}

#[test]
fn full_run_reports_conflicts_rules_semantics_and_parse_errors() {
    let units = vec![
        SourceUnit { source: 1, tokens: class_tokens(77, 0) },
        SourceUnit { source: 2, tokens: class_tokens(77, 100) },
        SourceUnit { source: 3, tokens: class_extends_tokens(88, 88, 200) },
        SourceUnit { source: 4, tokens: vec![tok(TokenKind::Global, 0, 0, 6)] },
    ];
    let configuration = LinterConfiguration {
        level: None,
        default_plugins: None,
        plugins: vec![],
        rules: vec![],
    };
    let externals: Vec<SourceUnit> = Vec::new();
    let issues = lint_sources(&units, &externals, &configuration, vec![SelfExtendsRule {}]);
    // Merge conflict first, then per-file contributions in order.
    assert_eq!(issues.len(), 3);
    assert_eq!(issues.get(0).code, IssueCode::DuplicateDeclaration);
    assert_eq!(issues.get(1).code, IssueCode::SelfExtends);
    assert_eq!(issues.get(1).source, 3);
    assert_eq!(issues.get(1).rule, SELF_EXTENDS_RULE);
    assert_eq!(issues.get(1).level, Level::Warning);
    assert!(issues.get(1).fixable);
    assert_eq!(issues.get(2).code, IssueCode::Parse);
    assert_eq!(issues.get(2).source, 4);
}

#[test]
fn run_level_off_silences_the_rule_engine() {
    let units = vec![SourceUnit { source: 1, tokens: class_extends_tokens(88, 88, 0) }];
    let configuration = LinterConfiguration {
        level: Some(LinterLevel::Off),
        default_plugins: None,
        plugins: vec![],
        rules: vec![],
    };
    let externals: Vec<SourceUnit> = Vec::new();
    let issues = lint_sources(&units, &externals, &configuration, vec![SelfExtendsRule {}]);
    assert_eq!(issues.len(), 0);
}

#[test]
fn disabled_rule_reports_nothing() {
    let units = vec![SourceUnit { source: 1, tokens: class_extends_tokens(88, 88, 0) }];
    let configuration = LinterConfiguration {
        level: None,
        default_plugins: None,
        plugins: vec![],
        rules: vec![RuleConfiguration {
            name: SELF_EXTENDS_RULE,
            level: Some(LinterLevel::Off),
            options: vec![],
        }],
    };
    let externals: Vec<SourceUnit> = Vec::new();
    let issues = lint_sources(&units, &externals, &configuration, vec![SelfExtendsRule {}]);
    assert_eq!(issues.len(), 0);
}

#[test]
fn rule_level_override_wins_over_run_default() {
    let units = vec![SourceUnit { source: 1, tokens: class_extends_tokens(88, 88, 0) }];
    let configuration = LinterConfiguration {
        level: Some(LinterLevel::Note),
        default_plugins: None,
        plugins: vec![],
        rules: vec![RuleConfiguration {
            name: SELF_EXTENDS_RULE,
            level: Some(LinterLevel::Error),
            options: vec![],
        }],
    };
    let externals: Vec<SourceUnit> = Vec::new();
    let issues = lint_sources(&units, &externals, &configuration, vec![SelfExtendsRule {}]);
    assert_eq!(issues.len(), 1);
    assert_eq!(issues.get(0).level, Level::Error);
}

#[test]
fn resolve_settings_maps_the_configuration() {
    let configuration = LinterConfiguration {
        level: Some(LinterLevel::Error),
        default_plugins: Some(false),
        plugins: vec![5, 6],
        rules: vec![
            RuleConfiguration { name: 1, level: Some(LinterLevel::Help), options: vec![] },
            RuleConfiguration { name: 2, level: None, options: vec![] },
        ],
    };
    let settings = resolve_settings(&configuration);
    assert!(!settings.off);
    assert_eq!(settings.default_level, Some(Level::Error));
    assert!(!settings.default_plugins);
    assert_eq!(settings.plugins, vec![5, 6]);
    assert_eq!(settings.rules.len(), 2);
    assert_eq!(settings.rules[0].name, 1);
    assert!(settings.rules[0].settings.enabled);
    assert_eq!(settings.rules[0].settings.level, Some(Level::Help));
    assert_eq!(settings.rules[1].name, 2);
    assert!(settings.rules[1].settings.enabled);
    assert_eq!(settings.rules[1].settings.level, None);
}

#[test]
fn only_fixable_keeps_exactly_the_fixable_subset_in_order() {
    let base = Issue {
        level: Level::Warning,
        code: IssueCode::EmptyGlobal,
        rule: 0,
        source: 1,
        span: Span { start: 0, end: 1 },
        related: None,
        fixable: false,
    };
    let mut collection = IssueCollection::new();
    collection.push(Issue { fixable: true, source: 1, ..base });
    collection.push(Issue { fixable: false, source: 2, ..base });
    collection.push(Issue { fixable: true, source: 3, ..base });
    collection.push(Issue { fixable: false, source: 4, ..base });
    let fixable = collection.only_fixable();
    assert_eq!(fixable.len(), 2);
    assert_eq!(fixable.get(0).source, 1);
    assert_eq!(fixable.get(1).source, 3);
    assert!(fixable.get(0).fixable && fixable.get(1).fixable);
}

#[test]
fn fixable_only_filters_a_full_run_report() {
    let units = vec![
        SourceUnit { source: 0, tokens: class_tokens(77, 0) },
        SourceUnit { source: 1, tokens: class_tokens(77, 100) },
        SourceUnit { source: 2, tokens: class_extends_tokens(88, 88, 200) },
    ];
    let configuration = LinterConfiguration {
        level: None,
        default_plugins: None,
        plugins: vec![],
        rules: vec![],
    };
    let externals: Vec<SourceUnit> = Vec::new();
    let issues = lint_sources(&units, &externals, &configuration, vec![SelfExtendsRule {}]);
    assert_eq!(issues.len(), 2);
    let fixable = issues.only_fixable();
    assert_eq!(fixable.len(), 1);
    assert_eq!(fixable.get(0).code, IssueCode::SelfExtends);
}

#[test]
fn from_issues_keeps_the_given_order() {
    let base = Issue {
        level: Level::Help,
        code: IssueCode::EmptyGlobal,
        rule: 0,
        source: 1,
        span: Span { start: 0, end: 1 },
        related: None,
        fixable: false,
    };
    let collection = IssueCollection::from_issues(vec![
        Issue { source: 9, ..base },
        Issue { source: 4, ..base },
    ]);
    assert_eq!(collection.len(), 2);
    assert_eq!(collection.get(0).source, 9);
    assert_eq!(collection.get(1).source, 4);
}

#[test]
fn highest_level_and_error_threshold() {
    let base = Issue {
        level: Level::Note,
        code: IssueCode::EmptyGlobal,
        rule: 0,
        source: 1,
        span: Span { start: 0, end: 1 },
        related: None,
        fixable: false,
    };
    let mut collection = IssueCollection::new();
    assert_eq!(collection.get_highest_level(), None);
    collection.push(base);
    collection.push(Issue { level: Level::Warning, ..base });
    assert_eq!(collection.get_highest_level(), Some(Level::Warning));
    assert!(!collection.reaches(Level::Error));
    collection.push(Issue { level: Level::Error, ..base });
    assert_eq!(collection.get_highest_level(), Some(Level::Error));
    assert!(collection.reaches(Level::Error));
}

#[test]
fn issue_messages_name_their_codes() {
    let base = Issue {
        level: Level::Error,
        code: IssueCode::Parse,
        rule: 0,
        source: 1,
        span: Span { start: 0, end: 1 },
        related: None,
        fixable: false,
    };
    assert_eq!(base.message(), "syntax error");
    assert_eq!(
        Issue { code: IssueCode::DuplicateDeclaration, ..base }.message(),
        "duplicate declaration of the same name"
    );
}

#[test]
fn stream_peek_does_not_advance_and_expect_does() {
    let mut stream = TokenStream::new(global_a_b_tokens());
    let first = stream.peek().expect("token");
    let again = stream.peek().expect("token");
    assert_eq!(first, again);
    let consumed = stream.expect(TokenKind::Global).expect("keyword");
    assert_eq!(consumed, first);
    assert!(stream.expect(TokenKind::Global).is_err());
    let var = stream.peek().expect("token");
    assert_eq!(var.kind, TokenKind::Variable);
}

#[test]
fn conflicts_surface_within_their_files_segment() {
    // The report is the flatten of the per-file collections: the file
    // whose declaration duplicates an earlier one carries the conflict in
    // its own segment, after every earlier file's findings.
    let units = vec![
        SourceUnit {
            source: 1,
            tokens: vec![
                tok(TokenKind::Global, 0, 0, 6),
                tok(TokenKind::Semicolon, 0, 7, 8),
            ],
        },
        SourceUnit { source: 2, tokens: class_tokens(77, 0) },
        SourceUnit { source: 3, tokens: class_tokens(77, 100) },
    ];
    let configuration = LinterConfiguration {
        level: None,
        default_plugins: None,
        plugins: vec![],
        rules: vec![],
    };
    let externals: Vec<SourceUnit> = Vec::new();
    let issues = lint_sources(&units, &externals, &configuration, vec![SelfExtendsRule {}]);
    assert_eq!(issues.len(), 2);
    assert_eq!(issues.get(0).code, IssueCode::EmptyGlobal);
    assert_eq!(issues.get(0).source, 1);
    assert_eq!(issues.get(1).code, IssueCode::DuplicateDeclaration);
    assert_eq!(issues.get(1).source, 3);
}

#[test]
fn external_sources_reflect_but_are_not_linted() {
    // An external source contributes its declarations to the codebase but
    // is never linted: its self-extending class raises nothing, while a
    // user file duplicating its name gets the conflict in its segment.
    let externals = vec![SourceUnit { source: 100, tokens: class_extends_tokens(77, 77, 0) }];
    let units = vec![SourceUnit { source: 0, tokens: class_tokens(77, 0) }];
    let configuration = LinterConfiguration {
        level: None,
        default_plugins: None,
        plugins: vec![],
        rules: vec![],
    };
    let issues = lint_sources(&units, &externals, &configuration, vec![SelfExtendsRule {}]);
    assert_eq!(issues.len(), 1);
    assert_eq!(issues.get(0).code, IssueCode::DuplicateDeclaration);
    assert_eq!(issues.get(0).source, 0);
    // The external declaration was merged first and wins resolution.
    assert_eq!(issues.get(0).related, Some(Span { start: 6, end: 9 }));
}

#[test]
fn stamping_keeps_findings_and_sets_level_rule_and_source() {
    let raw = Issue {
        level: Level::Help,
        code: IssueCode::SelfExtends,
        rule: 0,
        source: 9,
        span: Span { start: 3, end: 5 },
        related: Some(Span { start: 7, end: 8 }),
        fixable: true,
    };
    let other = Issue { span: Span { start: 20, end: 21 }, fixable: false, ..raw };
    let stamped = mago::linter::stamp_findings(vec![raw, other], Level::Error, 6, 2);
    assert_eq!(stamped.len(), 2);
    assert_eq!(stamped[0].level, Level::Error);
    assert_eq!(stamped[0].rule, 6);
    assert_eq!(stamped[0].source, 2);
    assert_eq!(stamped[0].span, raw.span);
    assert_eq!(stamped[0].related, raw.related);
    assert!(stamped[0].fixable);
    assert_eq!(stamped[1].span, other.span);
    assert!(!stamped[1].fixable);
}
