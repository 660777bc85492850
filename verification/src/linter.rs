//! The orchestrator: composes directive handling, rule execution and
//! filtering into one deterministic lint operation per file.

use vstd::prelude::*;
use crate::ast::{MediaType, Program};
use crate::context::{
    keep_diags, spec_file_used, spec_used_seq, unknown_rule_diags, unused_diags, Context,
};
use crate::diagnostic::{
    count_code, diags_view, sorted_by_line, views_sorted_by_line, DiagView, LintDiagnostic,
};
use crate::ignore_directives::{
    codes_view, directives_ordered, file_ignores_all, FileIgnoreDirective, LineIgnoreDirective,
};
use crate::rules::{
    codes_view_of_rules, has_unknown_rule_code, rule_codes, rules_diags_spec,
    sort_rules_by_priority, sort_rules_spec, spec_checks_unknown, LintRule,
};
use crate::sort::{sort_diagnostics, sort_view_by_line};
use crate::text_index::TextIndex;

verus! {

/// Everything the linter needs to know about one parsed file: the
/// caller-supplied output of the parser and of the ignore-directive
/// collaborator, bundled as plain values.
pub struct ParsedProgram {
    pub filename: String,
    pub media_type: MediaType,
    pub text_index: TextIndex,
    pub program: Program,
    pub file_ignore: Option<FileIgnoreDirective>,
    pub line_ignores: Vec<LineIgnoreDirective>,
}

impl ParsedProgram {
    /// Well-formed: valid text index, line directives on strictly
    /// increasing lines.
    pub open spec fn wf(&self) -> bool {
        &&& self.text_index.wf()
        &&& directives_ordered(self.line_ignores@)
    }

    /// Whether a blanket file-level ignore directive is present.
    pub open spec fn ignores_whole_file(&self) -> bool {
        match self.file_ignore {
            Option::Some(fd) => file_ignores_all(fd),
            Option::None => false,
        }
    }
}

/// The filter pipeline over the rule diagnostics: directive application,
/// unknown-code detection, unused-ignore detection, then the stable
/// ordering by start line.
pub open spec fn filtered_spec(
    rdiags: Seq<DiagView>,
    f: Option<FileIgnoreDirective>,
    ls: Seq<LineIgnoreDirective>,
    known: Seq<Seq<char>>,
    check_unknown: bool,
    filename: Seq<char>,
    starts: Seq<usize>,
) -> Seq<DiagView> {
    let file_used = match f {
        Option::Some(fd) => spec_file_used(rdiags, fd),
        Option::None => false,
    };
    sort_view_by_line(
        keep_diags(rdiags, f, ls) + (if check_unknown {
            unknown_rule_diags(f, ls, known, filename, starts)
        } else {
            Seq::<DiagView>::empty()
        }) + unused_diags(
            f,
            file_used,
            ls,
            spec_used_seq(rdiags, f, ls),
            filename,
            starts,
        ),
    )
}

/// The complete lint pass over one parsed file: empty if a blanket
/// file-level ignore is present, otherwise the filtered output of the
/// rules run in priority order.
pub open spec fn lint_spec(rules: Seq<LintRule>, ps: ParsedProgram) -> Seq<DiagView> {
    if ps.ignores_whole_file() {
        Seq::empty()
    } else {
        let rdiags = rules_diags_spec(
            sort_rules_spec(rules),
            ps.program.sites@,
            ps.filename@,
            ps.text_index.line_starts@,
        );
        filtered_spec(
            rdiags,
            ps.file_ignore,
            ps.line_ignores@,
            codes_view_of_rules(rules),
            spec_checks_unknown(rules),
            ps.filename@,
            ps.text_index.line_starts@,
        )
    }
}

/// Builds a `Linter`.  Configuration is fixed at build time and immutable
/// during execution.
pub struct LinterBuilder {
    pub ignore_file_directive: String,
    pub ignore_diagnostic_directive: String,
    pub media_type: MediaType,
    pub rules: Vec<LintRule>,
}

impl Default for LinterBuilder {
    /// The default configuration: standard directive names, TypeScript
    /// sources, no rules.
    fn default() -> (r: Self)
        ensures
            r.ignore_file_directive@ == "deno-lint-ignore-file"@,
            r.ignore_diagnostic_directive@ == "deno-lint-ignore"@,
            r.media_type == MediaType::TypeScript,
            r.rules@ =~= Seq::<LintRule>::empty(),
    {
        LinterBuilder {
            ignore_file_directive: "deno-lint-ignore-file".to_owned(),
            ignore_diagnostic_directive: "deno-lint-ignore".to_owned(),
            media_type: MediaType::TypeScript,
            rules: Vec::new(),
        }
    }
}

impl LinterBuilder {
    /// Set the name of the directive that skips linting a whole file.
    pub fn ignore_file_directive(self, directive: &str) -> (r: Self)
        ensures
            r.ignore_file_directive@ == directive@,
            r.ignore_diagnostic_directive == self.ignore_diagnostic_directive,
            r.media_type == self.media_type,
            r.rules == self.rules,
    {
        LinterBuilder { ignore_file_directive: directive.to_owned(), ..self }
    }

    /// Set the name of the directive that ignores diagnostics on a line.
    pub fn ignore_diagnostic_directive(self, directive: &str) -> (r: Self)
        ensures
            r.ignore_diagnostic_directive@ == directive@,
            r.ignore_file_directive == self.ignore_file_directive,
            r.media_type == self.media_type,
            r.rules == self.rules,
    {
        LinterBuilder { ignore_diagnostic_directive: directive.to_owned(), ..self }
    }

    /// Set the media type of the files to be linted.
    pub fn media_type(self, media_type: MediaType) -> (r: Self)
        ensures
            r.media_type == media_type,
            r.ignore_file_directive == self.ignore_file_directive,
            r.ignore_diagnostic_directive == self.ignore_diagnostic_directive,
            r.rules == self.rules,
    {
        LinterBuilder { media_type, ..self }
    }

    /// Set the rules that will run during each pass.
    pub fn rules(self, rules: Vec<LintRule>) -> (r: Self)
        ensures
            r.rules == rules,
            r.ignore_file_directive == self.ignore_file_directive,
            r.ignore_diagnostic_directive == self.ignore_diagnostic_directive,
            r.media_type == self.media_type,
    {
        LinterBuilder { rules, ..self }
    }

    /// Finishes the configuration.
    pub fn build(self) -> (l: Linter)
        ensures
            l.ignore_file_directive == self.ignore_file_directive,
            l.ignore_diagnostic_directive == self.ignore_diagnostic_directive,
            l.media_type == self.media_type,
            l.rules == self.rules,
    {
        Linter {
            ignore_file_directive: self.ignore_file_directive,
            ignore_diagnostic_directive: self.ignore_diagnostic_directive,
            media_type: self.media_type,
            rules: self.rules,
        }
    }
}

/// One configured linter; its configuration never changes after build.
pub struct Linter {
    pub ignore_file_directive: String,
    pub ignore_diagnostic_directive: String,
    pub media_type: MediaType,
    pub rules: Vec<LintRule>,
}

impl Linter {
    /// Lints one parsed file: if a blanket file-level ignore directive is
    /// present no rule runs and the result is empty; otherwise the rules
    /// run in priority order and the filter stages produce the final,
    /// line-ordered report.
    pub fn lint_with_ast(&self, parsed_program: ParsedProgram) -> (diagnostics: Vec<
        LintDiagnostic,
    >)
        requires
            parsed_program.wf(),
        ensures
            diags_view(diagnostics@) == lint_spec(self.rules@, parsed_program),
            sorted_by_line(diagnostics@),
            parsed_program.ignores_whole_file() ==> diagnostics@.len() == 0,
    {
        self.lint_program(parsed_program)
    }

    /// One deterministic pass: directive short-circuit, rule execution in
    /// priority order, then the filter stages.
    fn lint_program(&self, parsed_program: ParsedProgram) -> (diagnostics: Vec<LintDiagnostic>)
        requires
            parsed_program.wf(),
        ensures
            diags_view(diagnostics@) == lint_spec(self.rules@, parsed_program),
            sorted_by_line(diagnostics@),
            parsed_program.ignores_whole_file() ==> diagnostics@.len() == 0,
    {
        let ghost ps = parsed_program;
        let whole_file = match &parsed_program.file_ignore {
            Option::Some(fd) => fd.codes.len() == 0,
            Option::None => false,
        };
        if whole_file {
            let out: Vec<LintDiagnostic> = Vec::new();
            proof {
                assert(diags_view(out@) =~= Seq::<DiagView>::empty());
            }
            return out;
        }
        let check_unknown = has_unknown_rule_code(&self.rules);
        let sorted_rules = sort_rules_by_priority(&self.rules);
        let ParsedProgram { filename, media_type, text_index, program, file_ignore, line_ignores }
            = parsed_program;
        let mut context = Context::new(
            filename,
            media_type,
            text_index,
            file_ignore,
            line_ignores,
            check_unknown,
        );
        let ghost sites = program.sites@;
        let mut i: usize = 0;
        proof {
            assert(rules_diags_spec(
                sorted_rules@.subrange(0, 0),
                sites,
                ps.filename@,
                ps.text_index.line_starts@,
            ) =~= Seq::<DiagView>::empty());
            assert(diags_view(context.diagnostics@) =~= rules_diags_spec(
                sorted_rules@.subrange(0, 0),
                sites,
                ps.filename@,
                ps.text_index.line_starts@,
            ));
        }
        while i < sorted_rules.len()
            invariant
                context.wf(),
                context.fresh(),
                i <= sorted_rules@.len(),
                sites == program.sites@,
                context.filename@ == ps.filename@,
                context.starts() == ps.text_index.line_starts@,
                context.file_ignore == ps.file_ignore,
                context.line_ignores@ == ps.line_ignores@,
                context.check_unknown_rules == spec_checks_unknown(self.rules@),
                diags_view(context.diagnostics@) == rules_diags_spec(
                    sorted_rules@.subrange(0, i as int),
                    sites,
                    ps.filename@,
                    ps.text_index.line_starts@,
                ),
                sorted_rules@ == sort_rules_spec(self.rules@),
            decreases sorted_rules@.len() - i,
        {
            let rule = sorted_rules[i];
            rule.run(&mut context, &program);
            proof {
                let pre = sorted_rules@.subrange(0, i as int + 1);
                assert(pre.drop_last() =~= sorted_rules@.subrange(0, i as int));
                assert(pre.last() == sorted_rules@[i as int]);
                assert(rules_diags_spec(pre, sites, ps.filename@, ps.text_index.line_starts@)
                    == rules_diags_spec(
                    pre.drop_last(),
                    sites,
                    ps.filename@,
                    ps.text_index.line_starts@,
                ) + crate::rules::rule_diags_spec(
                    pre.last(),
                    sites,
                    ps.filename@,
                    ps.text_index.line_starts@,
                ));
                assert(diags_view(context.diagnostics@) =~= rules_diags_spec(
                    pre,
                    sites,
                    ps.filename@,
                    ps.text_index.line_starts@,
                ));
            }
            i = i + 1;
        }
        proof {
            assert(sorted_rules@.subrange(0, sorted_rules@.len() as int) =~= sorted_rules@);
        }
        self.filter_diagnostics(context)
    }

    /// Applies the filter stages to the accumulated diagnostics and
    /// returns the final, line-ordered report.
    fn filter_diagnostics(&self, context: Context) -> (r: Vec<LintDiagnostic>)
        requires
            context.wf(),
            context.fresh(),
            context.check_unknown_rules == spec_checks_unknown(self.rules@),
        ensures
            diags_view(r@) == filtered_spec(
                diags_view(context.diagnostics@),
                context.file_ignore,
                context.line_ignores@,
                codes_view_of_rules(self.rules@),
                context.check_unknown_rules,
                context.filename@,
                context.starts(),
            ),
            sorted_by_line(r@),
    {
        let ghost rdiags = diags_view(context.diagnostics@);
        let ghost f = context.file_ignore;
        let ghost ls = context.line_ignores@;
        let mut context = context;
        let mut filtered = context.check_ignore_directive_usage();
        let known = rule_codes(&self.rules);
        proof {
            assert(codes_view(known@) =~= codes_view_of_rules(self.rules@));
        }
        let mut unknown = context.ban_unknown_rule_code(&known);
        filtered.append(&mut unknown);
        let mut unused = context.ban_unused_ignore();
        filtered.append(&mut unused);
        let ghost pre_sort = filtered@;
        let out = sort_diagnostics(filtered);
        proof {
            crate::sort::lemma_sort_view_commutes(pre_sort);
            assert(diags_view(pre_sort) =~= keep_diags(rdiags, f, ls) + (if
            context.check_unknown_rules {
                unknown_rule_diags(
                    f,
                    ls,
                    codes_view_of_rules(self.rules@),
                    context.filename@,
                    context.starts(),
                )
            } else {
                Seq::<DiagView>::empty()
            }) + unused_diags(
                f,
                match f {
                    Option::Some(fd) => spec_file_used(rdiags, fd),
                    Option::None => false,
                },
                ls,
                spec_used_seq(rdiags, f, ls),
                context.filename@,
                context.starts(),
            ));
        }
        out
    }
}

/// Idempotence: the lint result is a function of the rule set and the
/// parsed program alone, so two runs over identical input return
/// identical diagnostics, code for code and range for range, in the same
/// order.
pub proof fn lemma_lint_idempotent(
    rules: Seq<LintRule>,
    ps: ParsedProgram,
    r1: Seq<DiagView>,
    r2: Seq<DiagView>,
)
    requires
        r1 == lint_spec(rules, ps),
        r2 == lint_spec(rules, ps),
    ensures
        r1 == r2,
{
}

/// The three diagnostic codes the pipeline can attach are pairwise
/// distinct.
proof fn lemma_codes_distinct()
    ensures
        "no-inferrable-types"@ != "ban-unused-ignore"@,
        "no-inferrable-types"@ != "ban-unknown-rule-code"@,
        "ban-unknown-rule-code"@ != "ban-unused-ignore"@,
{
    reveal_strlit("no-inferrable-types");
    reveal_strlit("ban-unused-ignore");
    reveal_strlit("ban-unknown-rule-code");
    assert("no-inferrable-types"@.len() == 19);
    assert("ban-unused-ignore"@.len() == 17);
    assert("ban-unknown-rule-code"@.len() == 21);
}

/// How often `code` occurs in the lint result, split by pipeline stage:
/// rule diagnostics never carry a filter-stage code, so the two meta
/// counts are exact.
proof fn lemma_stage_counts(rules: Seq<LintRule>, ps: ParsedProgram, code: Seq<char>)
    requires
        !ps.ignores_whole_file(),
        code == "ban-unused-ignore"@ || code == "ban-unknown-rule-code"@,
    ensures
        ({
            let rdiags = rules_diags_spec(
                sort_rules_spec(rules),
                ps.program.sites@,
                ps.filename@,
                ps.text_index.line_starts@,
            );
            let file_used = match ps.file_ignore {
                Option::Some(fd) => spec_file_used(rdiags, fd),
                Option::None => false,
            };
            let unknown_part = if spec_checks_unknown(rules) {
                unknown_rule_diags(
                    ps.file_ignore,
                    ps.line_ignores@,
                    codes_view_of_rules(rules),
                    ps.filename@,
                    ps.text_index.line_starts@,
                )
            } else {
                Seq::<DiagView>::empty()
            };
            let unused_part = unused_diags(
                ps.file_ignore,
                file_used,
                ps.line_ignores@,
                spec_used_seq(rdiags, ps.file_ignore, ps.line_ignores@),
                ps.filename@,
                ps.text_index.line_starts@,
            );
            count_code(lint_spec(rules, ps), code) == count_code(unknown_part, code) + count_code(
                unused_part,
                code,
            )
        }),
{
    let sites = ps.program.sites@;
    let filename = ps.filename@;
    let starts = ps.text_index.line_starts@;
    let rdiags = rules_diags_spec(sort_rules_spec(rules), sites, filename, starts);
    let f = ps.file_ignore;
    let ls = ps.line_ignores@;
    let file_used = match f {
        Option::Some(fd) => spec_file_used(rdiags, fd),
        Option::None => false,
    };
    let kept = crate::context::keep_diags(rdiags, f, ls);
    let unknown_part = if spec_checks_unknown(rules) {
        unknown_rule_diags(f, ls, codes_view_of_rules(rules), filename, starts)
    } else {
        Seq::<DiagView>::empty()
    };
    let unused_part = unused_diags(f, file_used, ls, spec_used_seq(rdiags, f, ls), filename, starts);
    let combined = kept + unknown_part + unused_part;
    lemma_codes_distinct();
    crate::sort::lemma_count_code_sort(combined, code);
    crate::diagnostic::lemma_count_code_add(kept + unknown_part, unused_part, code);
    crate::diagnostic::lemma_count_code_add(kept, unknown_part, code);
    crate::rules::lemma_rules_diags_codes(sort_rules_spec(rules), sites, filename, starts);
    crate::context::lemma_keep_diags_elements(rdiags, f, ls);
    assert forall|i: int| 0 <= i < kept.len() implies #[trigger] kept[i].code != code by {
        assert(rdiags.contains(kept[i]));
        let w = choose|w: int| 0 <= w < rdiags.len() && rdiags[w] == kept[i];
        assert(rdiags[w].code == "no-inferrable-types"@);
    }
    crate::diagnostic::lemma_count_code_none(kept, code);
}

/// Unused-ignore law: when no blanket file-level ignore is present, the
/// lint result carries exactly one unused-ignore diagnostic per directive
/// that suppressed zero rule diagnostics — the file directive counts when
/// it matched nothing, and a line directive counts when no unsuppressed
/// rule diagnostic started on its line with a covered code.  Adding a
/// matching violation to the input marks the directive used and removes
/// that diagnostic.
pub proof fn lemma_unused_ignore_count(rules: Seq<LintRule>, ps: ParsedProgram)
    requires
        !ps.ignores_whole_file(),
    ensures
        ({
            let rdiags = rules_diags_spec(
                sort_rules_spec(rules),
                ps.program.sites@,
                ps.filename@,
                ps.text_index.line_starts@,
            );
            let file_used = match ps.file_ignore {
                Option::Some(fd) => spec_file_used(rdiags, fd),
                Option::None => false,
            };
            count_code(lint_spec(rules, ps), "ban-unused-ignore"@) == crate::context::count_unused(
                ps.file_ignore,
                file_used,
                spec_used_seq(rdiags, ps.file_ignore, ps.line_ignores@),
            )
        }),
{
    let sites = ps.program.sites@;
    let filename = ps.filename@;
    let starts = ps.text_index.line_starts@;
    let rdiags = rules_diags_spec(sort_rules_spec(rules), sites, filename, starts);
    let f = ps.file_ignore;
    let ls = ps.line_ignores@;
    let file_used = match f {
        Option::Some(fd) => spec_file_used(rdiags, fd),
        Option::None => false,
    };
    let used = spec_used_seq(rdiags, f, ls);
    let unknown_part = if spec_checks_unknown(rules) {
        unknown_rule_diags(f, ls, codes_view_of_rules(rules), filename, starts)
    } else {
        Seq::<DiagView>::empty()
    };
    let unused_part = unused_diags(f, file_used, ls, used, filename, starts);
    lemma_stage_counts(rules, ps, "ban-unused-ignore"@);
    lemma_codes_distinct();
    crate::context::lemma_unknown_rule_diags_props(
        f,
        ls,
        codes_view_of_rules(rules),
        filename,
        starts,
    );
    crate::diagnostic::lemma_count_code_none(unknown_part, "ban-unused-ignore"@);
    crate::context::lemma_unused_diags_props(f, file_used, ls, used, filename, starts);
    crate::diagnostic::lemma_count_code_all(unused_part, "ban-unused-ignore"@);
}

/// Unknown-code law: when the unknown-rule-code check is active the lint
/// result carries exactly one unknown-rule-code diagnostic per directive
/// code that matches no registered rule code, and none when the check is
/// inactive.
pub proof fn lemma_unknown_code_count(rules: Seq<LintRule>, ps: ParsedProgram)
    requires
        !ps.ignores_whole_file(),
    ensures
        count_code(lint_spec(rules, ps), "ban-unknown-rule-code"@) == if spec_checks_unknown(
            rules,
        ) {
            crate::context::unknown_count(
                ps.file_ignore,
                ps.line_ignores@,
                codes_view_of_rules(rules),
            )
        } else {
            0nat
        },
{
    let sites = ps.program.sites@;
    let filename = ps.filename@;
    let starts = ps.text_index.line_starts@;
    let rdiags = rules_diags_spec(sort_rules_spec(rules), sites, filename, starts);
    let f = ps.file_ignore;
    let ls = ps.line_ignores@;
    let file_used = match f {
        Option::Some(fd) => spec_file_used(rdiags, fd),
        Option::None => false,
    };
    let used = spec_used_seq(rdiags, f, ls);
    let unknown_part = if spec_checks_unknown(rules) {
        unknown_rule_diags(f, ls, codes_view_of_rules(rules), filename, starts)
    } else {
        Seq::<DiagView>::empty()
    };
    let unused_part = unused_diags(f, file_used, ls, used, filename, starts);
    lemma_stage_counts(rules, ps, "ban-unknown-rule-code"@);
    lemma_codes_distinct();
    crate::context::lemma_unused_diags_props(f, file_used, ls, used, filename, starts);
    crate::diagnostic::lemma_count_code_none(unused_part, "ban-unknown-rule-code"@);
    crate::context::lemma_unknown_rule_diags_props(
        f,
        ls,
        codes_view_of_rules(rules),
        filename,
        starts,
    );
    if spec_checks_unknown(rules) {
        crate::diagnostic::lemma_count_code_all(unknown_part, "ban-unknown-rule-code"@);
    }
}

/// Final ordering: for any input the lint result is non-decreasing in
/// start line index.
pub proof fn lemma_final_ordering(rules: Seq<LintRule>, ps: ParsedProgram)
    ensures
        views_sorted_by_line(lint_spec(rules, ps)),
{
    if ps.ignores_whole_file() {
    } else {
        let rdiags = rules_diags_spec(
            sort_rules_spec(rules),
            ps.program.sites@,
            ps.filename@,
            ps.text_index.line_starts@,
        );
        let file_used = match ps.file_ignore {
            Option::Some(fd) => spec_file_used(rdiags, fd),
            Option::None => false,
        };
        let combined = keep_diags(rdiags, ps.file_ignore, ps.line_ignores@) + (if
        spec_checks_unknown(rules) {
            unknown_rule_diags(
                ps.file_ignore,
                ps.line_ignores@,
                codes_view_of_rules(rules),
                ps.filename@,
                ps.text_index.line_starts@,
            )
        } else {
            Seq::<DiagView>::empty()
        }) + unused_diags(
            ps.file_ignore,
            file_used,
            ps.line_ignores@,
            spec_used_seq(rdiags, ps.file_ignore, ps.line_ignores@),
            ps.filename@,
            ps.text_index.line_starts@,
        );
        crate::sort::lemma_sort_view_sorted(combined);
    }
}

} // verus!
