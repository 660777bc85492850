//! Suppression pipeline scenarios over hand-built programs: directive
//! application, unknown-code and unused-ignore detection, final ordering,
//! and the text index.

use deno_lint::ast::{Expr, KeywordKind, MediaType, Pat, Program, Site, Span, TsType};
use deno_lint::diagnostic::LintDiagnostic;
use deno_lint::ignore_directives::{FileIgnoreDirective, LineIgnoreDirective};
use deno_lint::linter::{Linter, LinterBuilder, ParsedProgram};
use deno_lint::rules::ban_unknown_rule_code::BanUnknownRuleCode;
use deno_lint::rules::no_inferrable_types::NoInferrableTypes;
use deno_lint::rules::LintRule;
use deno_lint::text_index::TextIndex;

/// A binding site that violates `no-inferrable-types` at the given span.
fn violation_at(lo: usize, hi: usize) -> Site {
    Site::VarDeclarator {
        name: Pat::Ident {
            type_ann: Some(TsType::Keyword(KeywordKind::NumberKeyword)),
        },
        init: Some(Expr::NumLit),
        span: Span { lo, hi },
    }
}

/// Ten lines of four characters: line n starts at byte 5 * n.
fn ten_line_index() -> TextIndex {
    let text = "aaaa\n".repeat(10);
    TextIndex::build(text.as_bytes())
}

fn program(
    sites: Vec<Site>,
    file_ignore: Option<FileIgnoreDirective>,
    line_ignores: Vec<LineIgnoreDirective>,
) -> ParsedProgram {
    ParsedProgram {
        filename: "file:///suppression.ts".to_string(),
        media_type: MediaType::TypeScript,
        text_index: ten_line_index(),
        program: Program { sites },
        file_ignore,
        line_ignores,
    }
}

fn linter(with_unknown_check: bool) -> Linter {
    let mut rules = vec![LintRule::NoInferrableTypes(NoInferrableTypes::new())];
    if with_unknown_check {
        rules.push(LintRule::BanUnknownRuleCode(BanUnknownRuleCode::new()));
    }
    LinterBuilder::default().rules(rules).build()
}

fn count_code(diags: &[LintDiagnostic], code: &str) -> usize {
    diags.iter().filter(|d| d.code == code).count()
}

fn line_directive(line: usize, codes: &[&str]) -> LineIgnoreDirective {
    LineIgnoreDirective {
        line,
        span: Span {
            lo: 5 * line,
            hi: 5 * line + 4,
        },
        codes: codes.iter().map(|c| c.to_string()).collect(),
    }
}

#[test]
fn lint_is_idempotent() {
    let build = || {
        program(
            vec![violation_at(7, 9), violation_at(0, 4)],
            None,
            vec![line_directive(3, &["no-inferrable-types"])],
        )
    };
    let first = linter(true).lint_with_ast(build());
    let second = linter(true).lint_with_ast(build());
    assert_eq!(first, second);
    assert!(!first.is_empty());
}

#[test]
fn blanket_file_ignore_short_circuits() {
    let parsed = program(
        vec![violation_at(0, 4), violation_at(5, 9), violation_at(10, 14)],
        Some(FileIgnoreDirective {
            span: Span { lo: 0, hi: 4 },
            codes: Vec::new(),
        }),
        Vec::new(),
    );
    assert_eq!(linter(true).lint_with_ast(parsed), Vec::new());
}

#[test]
fn file_ignore_with_codes_suppresses_by_code() {
    let parsed = program(
        vec![violation_at(0, 4)],
        Some(FileIgnoreDirective {
            span: Span { lo: 0, hi: 4 },
            codes: vec!["no-inferrable-types".to_string()],
        }),
        Vec::new(),
    );
    let diags = linter(false).lint_with_ast(parsed);
    assert_eq!(count_code(&diags, "no-inferrable-types"), 0);
    assert_eq!(count_code(&diags, "ban-unused-ignore"), 0);
}

#[test]
fn line_ignore_is_exact() {
    // A directive naming {no-inferrable-types, other-code} on line 1
    // suppresses only covered diagnostics starting on line 1.
    let sites = vec![
        violation_at(5, 9),  // line 1: suppressed
        violation_at(10, 14), // line 2: retained
    ];
    let parsed = program(
        sites,
        None,
        vec![line_directive(1, &["no-inferrable-types", "other-code"])],
    );
    let diags = linter(false).lint_with_ast(parsed);
    assert_eq!(count_code(&diags, "no-inferrable-types"), 1);
    assert_eq!(diags[0].range.start.line_index, 2);
    assert_eq!(count_code(&diags, "ban-unused-ignore"), 0);
}

#[test]
fn line_ignore_with_other_code_retains_diagnostic() {
    // A directive naming only an unrelated code keeps the diagnostic and
    // is itself flagged as unused.
    let parsed = program(
        vec![violation_at(5, 9)],
        None,
        vec![line_directive(1, &["ban-unused-ignore"])],
    );
    let diags = linter(false).lint_with_ast(parsed);
    assert_eq!(count_code(&diags, "no-inferrable-types"), 1);
    assert_eq!(diags[0].range.start.line_index, 1);
    assert_eq!(count_code(&diags, "ban-unused-ignore"), 1);
}

#[test]
fn unused_ignore_round_trip() {
    // A directive on a line with no diagnostics yields exactly one
    // unused-ignore diagnostic ...
    let parsed = program(
        Vec::new(),
        None,
        vec![line_directive(5, &["no-inferrable-types"])],
    );
    let diags = linter(false).lint_with_ast(parsed);
    assert_eq!(count_code(&diags, "ban-unused-ignore"), 1);
    assert_eq!(diags.len(), 1);
    assert_eq!(diags[0].range.start.line_index, 5);
    assert_eq!(diags[0].message, "this suppression has no effect");

    // ... and adding a genuine violation on that line removes it.
    let parsed = program(
        vec![violation_at(25, 29)],
        None,
        vec![line_directive(5, &["no-inferrable-types"])],
    );
    let diags = linter(false).lint_with_ast(parsed);
    assert_eq!(count_code(&diags, "ban-unused-ignore"), 0);
    assert_eq!(diags.len(), 0);
}

#[test]
fn blanket_line_ignore_used_by_any_code() {
    // An empty code list ignores everything on its line, so one
    // diagnostic there marks it used.
    let parsed = program(vec![violation_at(5, 9)], None, vec![line_directive(1, &[])]);
    let diags = linter(false).lint_with_ast(parsed);
    assert_eq!(diags.len(), 0);
}

#[test]
fn unknown_code_detected_when_active() {
    let parsed = program(
        Vec::new(),
        None,
        vec![line_directive(2, &["definitely-not-a-rule"])],
    );
    let diags = linter(true).lint_with_ast(parsed);
    assert_eq!(count_code(&diags, "ban-unknown-rule-code"), 1);
    let unknown = diags
        .iter()
        .find(|d| d.code == "ban-unknown-rule-code")
        .unwrap();
    assert_eq!(unknown.message, "Unknown rule for code definitely-not-a-rule");
    assert_eq!(unknown.range.start.line_index, 2);
}

#[test]
fn unknown_code_silent_when_inactive() {
    let parsed = program(
        Vec::new(),
        None,
        vec![line_directive(2, &["definitely-not-a-rule"])],
    );
    let diags = linter(false).lint_with_ast(parsed);
    assert_eq!(count_code(&diags, "ban-unknown-rule-code"), 0);
}

#[test]
fn known_code_not_flagged_as_unknown() {
    let parsed = program(
        Vec::new(),
        None,
        vec![line_directive(2, &["no-inferrable-types"])],
    );
    let diags = linter(true).lint_with_ast(parsed);
    assert_eq!(count_code(&diags, "ban-unknown-rule-code"), 0);
}

#[test]
fn final_ordering_is_by_start_line() {
    let sites = vec![
        violation_at(45, 49), // line 9
        violation_at(10, 14), // line 2
        violation_at(30, 34), // line 6
        violation_at(0, 4),   // line 0
    ];
    let parsed = program(sites, None, Vec::new());
    let diags = linter(false).lint_with_ast(parsed);
    assert_eq!(diags.len(), 4);
    for pair in diags.windows(2) {
        assert!(pair[0].range.start.line_index <= pair[1].range.start.line_index);
    }
    let lines: Vec<usize> = diags.iter().map(|d| d.range.start.line_index).collect();
    assert_eq!(lines, vec![0, 2, 6, 9]);
}

#[test]
fn equal_lines_keep_discovery_order() {
    // Two diagnostics on the same line keep the order their sites were
    // discovered in.
    let sites = vec![violation_at(7, 9), violation_at(5, 6)];
    let parsed = program(sites, None, Vec::new());
    let diags = linter(false).lint_with_ast(parsed);
    assert_eq!(diags.len(), 2);
    assert_eq!(diags[0].range.start.byte_index, 7);
    assert_eq!(diags[1].range.start.byte_index, 5);
}

#[test]
fn text_index_build_and_lookup() {
    let ti = TextIndex::build("ab\ncd\n\nef".as_bytes());
    assert_eq!(ti.text_len, 9);
    assert_eq!(ti.line_starts, vec![0, 3, 6, 7]);
    let p = ti.position_of(4);
    assert_eq!(p.line_index, 1);
    assert_eq!(p.column_index, 1);
    assert_eq!(p.byte_index, 4);
    let p = ti.position_of(0);
    assert_eq!(p.line_index, 0);
    assert_eq!(p.column_index, 0);
    let p = ti.position_of(6);
    assert_eq!(p.line_index, 2);
    assert_eq!(p.column_index, 0);
    let p = ti.position_of(8);
    assert_eq!(p.line_index, 3);
    assert_eq!(p.column_index, 1);
}

#[test]
fn builder_configures_directive_names() {
    let linter = LinterBuilder::default()
        .ignore_file_directive("custom-ignore-file")
        .ignore_diagnostic_directive("custom-ignore")
        .media_type(MediaType::Tsx)
        .rules(Vec::new())
        .build();
    assert_eq!(linter.ignore_file_directive, "custom-ignore-file");
    assert_eq!(linter.ignore_diagnostic_directive, "custom-ignore");
    let diags = linter.lint_with_ast(program(Vec::new(), None, Vec::new()));
    assert!(diags.is_empty());
}
