//! Per-pass mutable state and the suppression / meta-diagnostic stages.
//!
//! One `Context` exists per lint pass.  Rules append diagnostics to it;
//! afterwards the filter stages run in order: ignore-directive application,
//! unknown-rule-code detection and unused-ignore detection.  Each stage has
//! an exact functional specification; the final ordering is applied by the
//! linter.

use vstd::prelude::*;
use vstd::string::StringExecFns;
use crate::ast::{MediaType, Span};
use crate::diagnostic::{diags_view, DiagView, LintDiagnostic, Range};
use crate::ignore_directives::{
    codes_cover, codes_view, directives_ordered, file_matches, line_matches, FileIgnoreDirective,
    LineIgnoreDirective,
};
use crate::text_index::{position_spec, TextIndex};

verus! {

/// Source range of a span under a line-start table.
pub open spec fn range_spec(starts: Seq<usize>, span: Span) -> Range {
    Range { start: position_spec(starts, span.lo), end: position_spec(starts, span.hi) }
}

/// The diagnostic a rule produces from a span, code, message and hint.
pub open spec fn mk_diag_view(
    filename: Seq<char>,
    starts: Seq<usize>,
    span: Span,
    code: Seq<char>,
    message: Seq<char>,
    hint: Option<Seq<char>>,
) -> DiagView {
    DiagView { filename, range: range_spec(starts, span), code, message, hint }
}

/// Whether the file directive (if any) suppresses diagnostic `d`.
pub open spec fn suppressed_by_file(f: Option<FileIgnoreDirective>, d: DiagView) -> bool {
    match f {
        Option::Some(fd) => file_matches(fd, d),
        Option::None => false,
    }
}

/// Whether some line directive suppresses diagnostic `d`.
pub open spec fn suppressed_by_line(ls: Seq<LineIgnoreDirective>, d: DiagView) -> bool {
    exists|i: int| 0 <= i < ls.len() && line_matches(ls[i], d)
}

/// Whether any directive suppresses diagnostic `d`.  The file directive is
/// consulted first, then the directive on the diagnostic's start line.
pub open spec fn diag_suppressed(
    f: Option<FileIgnoreDirective>,
    ls: Seq<LineIgnoreDirective>,
    d: DiagView,
) -> bool {
    suppressed_by_file(f, d) || suppressed_by_line(ls, d)
}

/// Stage one: the diagnostics that survive directive application, in
/// discovery order.
pub open spec fn keep_diags(
    ds: Seq<DiagView>,
    f: Option<FileIgnoreDirective>,
    ls: Seq<LineIgnoreDirective>,
) -> Seq<DiagView>
    decreases ds.len(),
{
    if ds.len() == 0 {
        Seq::empty()
    } else {
        keep_diags(ds.drop_last(), f, ls) + if diag_suppressed(f, ls, ds.last()) {
            Seq::empty()
        } else {
            seq![ds.last()]
        }
    }
}

/// Whether the file directive suppressed at least one diagnostic.
pub open spec fn spec_file_used(ds: Seq<DiagView>, fd: FileIgnoreDirective) -> bool {
    exists|i: int| 0 <= i < ds.len() && file_matches(fd, ds[i])
}

/// Whether line directive `l` suppressed at least one diagnostic.  A
/// diagnostic already taken by the file directive does not count.
pub open spec fn spec_line_used(
    ds: Seq<DiagView>,
    f: Option<FileIgnoreDirective>,
    l: LineIgnoreDirective,
) -> bool {
    exists|i: int|
        0 <= i < ds.len() && !suppressed_by_file(f, ds[i]) && line_matches(l, ds[i])
}

/// The used-flags of all line directives after stage one.
pub open spec fn spec_used_seq(
    ds: Seq<DiagView>,
    f: Option<FileIgnoreDirective>,
    ls: Seq<LineIgnoreDirective>,
) -> Seq<bool> {
    Seq::new(ls.len(), |i: int| spec_line_used(ds, f, ls[i]))
}

/// Whether `c` is the code of a registered rule.
pub open spec fn known_contains(known: Seq<Seq<char>>, c: Seq<char>) -> bool {
    exists|i: int| 0 <= i < known.len() && known[i] == c
}

/// The diagnostic flagging one unknown code of an ignore directive.
pub open spec fn mk_unknown_view(
    filename: Seq<char>,
    starts: Seq<usize>,
    span: Span,
    code: Seq<char>,
) -> DiagView {
    mk_diag_view(
        filename,
        starts,
        span,
        "ban-unknown-rule-code"@,
        "Unknown rule for code "@ + code,
        Option::None,
    )
}

/// Stage two, one directive: a diagnostic for each listed code that names
/// no registered rule, in list order.
pub open spec fn unknown_for_codes(
    codes: Seq<String>,
    known: Seq<Seq<char>>,
    filename: Seq<char>,
    starts: Seq<usize>,
    span: Span,
) -> Seq<DiagView>
    decreases codes.len(),
{
    if codes.len() == 0 {
        Seq::empty()
    } else {
        unknown_for_codes(codes.drop_last(), known, filename, starts, span) + if known_contains(
            known,
            codes.last()@,
        ) {
            Seq::empty()
        } else {
            seq![mk_unknown_view(filename, starts, span, codes.last()@)]
        }
    }
}

/// Stage two over the line directives, in directive order.
pub open spec fn unknown_for_lines(
    ls: Seq<LineIgnoreDirective>,
    known: Seq<Seq<char>>,
    filename: Seq<char>,
    starts: Seq<usize>,
) -> Seq<DiagView>
    decreases ls.len(),
{
    if ls.len() == 0 {
        Seq::empty()
    } else {
        unknown_for_lines(ls.drop_last(), known, filename, starts) + unknown_for_codes(
            ls.last().codes@,
            known,
            filename,
            starts,
            ls.last().span,
        )
    }
}

/// Stage two: all unknown-rule-code diagnostics, file directive first.
pub open spec fn unknown_rule_diags(
    f: Option<FileIgnoreDirective>,
    ls: Seq<LineIgnoreDirective>,
    known: Seq<Seq<char>>,
    filename: Seq<char>,
    starts: Seq<usize>,
) -> Seq<DiagView> {
    (match f {
        Option::Some(fd) => unknown_for_codes(fd.codes@, known, filename, starts, fd.span),
        Option::None => Seq::empty(),
    }) + unknown_for_lines(ls, known, filename, starts)
}

/// Number of unknown codes one directive lists.
pub open spec fn unknown_count_codes(codes: Seq<String>, known: Seq<Seq<char>>) -> nat
    decreases codes.len(),
{
    if codes.len() == 0 {
        0
    } else {
        unknown_count_codes(codes.drop_last(), known) + if known_contains(known, codes.last()@) {
            0nat
        } else {
            1nat
        }
    }
}

/// Number of unknown codes over the line directives.
pub open spec fn unknown_count_lines(ls: Seq<LineIgnoreDirective>, known: Seq<Seq<char>>) -> nat
    decreases ls.len(),
{
    if ls.len() == 0 {
        0
    } else {
        unknown_count_lines(ls.drop_last(), known) + unknown_count_codes(ls.last().codes@, known)
    }
}

/// Total number of unknown codes all directives list.
pub open spec fn unknown_count(
    f: Option<FileIgnoreDirective>,
    ls: Seq<LineIgnoreDirective>,
    known: Seq<Seq<char>>,
) -> nat {
    (match f {
        Option::Some(fd) => unknown_count_codes(fd.codes@, known),
        Option::None => 0,
    }) + unknown_count_lines(ls, known)
}

/// The diagnostic flagging a directive that suppressed nothing.
pub open spec fn mk_unused_view(filename: Seq<char>, starts: Seq<usize>, span: Span) -> DiagView {
    mk_diag_view(
        filename,
        starts,
        span,
        "ban-unused-ignore"@,
        "this suppression has no effect"@,
        Option::None,
    )
}

/// Stage three over the line directives: one diagnostic per directive
/// whose used-flag stayed false.
pub open spec fn unused_line_diags(
    ls: Seq<LineIgnoreDirective>,
    used: Seq<bool>,
    filename: Seq<char>,
    starts: Seq<usize>,
) -> Seq<DiagView>
    decreases ls.len(),
{
    if ls.len() == 0 {
        Seq::empty()
    } else {
        unused_line_diags(ls.drop_last(), used.subrange(0, ls.len() - 1), filename, starts)
            + if used[ls.len() - 1] {
            Seq::empty()
        } else {
            seq![mk_unused_view(filename, starts, ls.last().span)]
        }
    }
}

/// Stage three: one diagnostic per directive that suppressed zero
/// diagnostics, file directive first.
pub open spec fn unused_diags(
    f: Option<FileIgnoreDirective>,
    file_used: bool,
    ls: Seq<LineIgnoreDirective>,
    used: Seq<bool>,
    filename: Seq<char>,
    starts: Seq<usize>,
) -> Seq<DiagView> {
    (match f {
        Option::Some(fd) => if file_used {
            Seq::empty()
        } else {
            seq![mk_unused_view(filename, starts, fd.span)]
        },
        Option::None => Seq::empty(),
    }) + unused_line_diags(ls, used, filename, starts)
}

/// Number of false flags: the line directives that suppressed nothing.
pub open spec fn count_unused_lines(used: Seq<bool>) -> nat
    decreases used.len(),
{
    if used.len() == 0 {
        0
    } else {
        count_unused_lines(used.drop_last()) + if used.last() {
            0nat
        } else {
            1nat
        }
    }
}

/// Number of directives of either kind that suppressed nothing.
pub open spec fn count_unused(
    f: Option<FileIgnoreDirective>,
    file_used: bool,
    used: Seq<bool>,
) -> nat {
    (match f {
        Option::Some(_) => if file_used {
            0nat
        } else {
            1nat
        },
        Option::None => 0nat,
    }) + count_unused_lines(used)
}

/// Per-run, single-owner aggregate of one lint pass: configuration slice,
/// directives, used-flags and the accumulated diagnostics.
pub struct Context {
    pub filename: String,
    pub media_type: MediaType,
    pub text_index: TextIndex,
    pub file_ignore: Option<FileIgnoreDirective>,
    pub line_ignores: Vec<LineIgnoreDirective>,
    pub file_used: bool,
    pub line_used: Vec<bool>,
    pub check_unknown_rules: bool,
    pub diagnostics: Vec<LintDiagnostic>,
}

/// The parts of a context that a rule may not touch.
pub open spec fn same_config(a: Context, b: Context) -> bool {
    &&& b.filename == a.filename
    &&& b.media_type == a.media_type
    &&& b.text_index == a.text_index
    &&& b.file_ignore == a.file_ignore
    &&& b.line_ignores == a.line_ignores
    &&& b.check_unknown_rules == a.check_unknown_rules
}

/// Additionally the used-flags are untouched.
pub open spec fn same_but_diagnostics(a: Context, b: Context) -> bool {
    &&& same_config(a, b)
    &&& b.file_used == a.file_used
    &&& b.line_used == a.line_used
}

impl Context {
    /// The line-start table of the pass.
    pub open spec fn starts(&self) -> Seq<usize> {
        self.text_index.line_starts@
    }

    /// Well-formed: valid text index, one used-flag per line directive,
    /// directives on strictly increasing lines.
    pub open spec fn wf(&self) -> bool {
        &&& self.text_index.wf()
        &&& self.line_used@.len() == self.line_ignores@.len()
        &&& directives_ordered(self.line_ignores@)
    }

    /// No directive has been marked used yet.
    pub open spec fn fresh(&self) -> bool {
        &&& self.file_used == false
        &&& forall|i: int| 0 <= i < self.line_used@.len() ==> self.line_used@[i] == false
    }

    /// Creates the context of one pass, with no diagnostics and every
    /// used-flag clear.
    pub fn new(
        filename: String,
        media_type: MediaType,
        text_index: TextIndex,
        file_ignore: Option<FileIgnoreDirective>,
        line_ignores: Vec<LineIgnoreDirective>,
        check_unknown_rules: bool,
    ) -> (c: Context)
        requires
            text_index.wf(),
            directives_ordered(line_ignores@),
        ensures
            c.filename == filename,
            c.media_type == media_type,
            c.text_index == text_index,
            c.file_ignore == file_ignore,
            c.line_ignores == line_ignores,
            c.check_unknown_rules == check_unknown_rules,
            c.diagnostics@ =~= Seq::<LintDiagnostic>::empty(),
            c.file_used == false,
            c.wf(),
            c.fresh(),
    {
        let mut line_used: Vec<bool> = Vec::new();
        let mut i: usize = 0;
        while i < line_ignores.len()
            invariant
                line_used@.len() == i,
                i <= line_ignores@.len(),
                forall|k: int| 0 <= k < i ==> line_used@[k] == false,
            decreases line_ignores@.len() - i,
        {
            line_used.push(false);
            i = i + 1;
        }
        Context {
            filename,
            media_type,
            text_index,
            file_ignore,
            line_ignores,
            file_used: false,
            line_used,
            check_unknown_rules,
            diagnostics: Vec::new(),
        }
    }

    /// Appends one diagnostic for `span` with the given code and message.
    pub fn add_diagnostic(&mut self, span: Span, code: &str, message: &str)
        requires
            old(self).wf(),
        ensures
            final(self).wf(),
            same_but_diagnostics(*old(self), *final(self)),
            diags_view(final(self).diagnostics@) == diags_view(old(self).diagnostics@).push(
                mk_diag_view(
                    old(self).filename@,
                    old(self).starts(),
                    span,
                    code@,
                    message@,
                    Option::None,
                ),
            ),
    {
        let start = self.text_index.position_of(span.lo);
        let end = self.text_index.position_of(span.hi);
        let d = LintDiagnostic {
            filename: self.filename.clone(),
            range: Range { start, end },
            code: code.to_owned(),
            message: message.to_owned(),
            hint: Option::None,
        };
        proof {
            assert(diags_view(self.diagnostics@.push(d)) =~= diags_view(self.diagnostics@).push(
                d@,
            ));
        }
        self.diagnostics.push(d);
    }

    /// Appends one diagnostic for `span` with code, message and hint.
    pub fn add_diagnostic_with_hint(&mut self, span: Span, code: &str, message: &str, hint: &str)
        requires
            old(self).wf(),
        ensures
            final(self).wf(),
            same_but_diagnostics(*old(self), *final(self)),
            diags_view(final(self).diagnostics@) == diags_view(old(self).diagnostics@).push(
                mk_diag_view(
                    old(self).filename@,
                    old(self).starts(),
                    span,
                    code@,
                    message@,
                    Option::Some(hint@),
                ),
            ),
    {
        let start = self.text_index.position_of(span.lo);
        let end = self.text_index.position_of(span.hi);
        let d = LintDiagnostic {
            filename: self.filename.clone(),
            range: Range { start, end },
            code: code.to_owned(),
            message: message.to_owned(),
            hint: Option::Some(hint.to_owned()),
        };
        proof {
            assert(diags_view(self.diagnostics@.push(d)) =~= diags_view(self.diagnostics@).push(
                d@,
            ));
        }
        self.diagnostics.push(d);
    }

    /// Stage one: drains the rule diagnostics, drops every suppressed one,
    /// and marks the directives that did the suppressing as used.
    pub fn check_ignore_directive_usage(&mut self) -> (kept: Vec<LintDiagnostic>)
        requires
            old(self).wf(),
            old(self).fresh(),
        ensures
            final(self).wf(),
            same_config(*old(self), *final(self)),
            final(self).diagnostics@.len() == 0,
            diags_view(kept@) == keep_diags(
                diags_view(old(self).diagnostics@),
                old(self).file_ignore,
                old(self).line_ignores@,
            ),
            (match final(self).file_ignore {
                Option::Some(fd) => final(self).file_used == spec_file_used(
                    diags_view(old(self).diagnostics@),
                    fd,
                ),
                Option::None => final(self).file_used == false,
            }),
            final(self).line_used@ =~= spec_used_seq(
                diags_view(old(self).diagnostics@),
                old(self).file_ignore,
                old(self).line_ignores@,
            ),
    {
        let ghost ds0 = diags_view(old(self).diagnostics@);
        let ghost f = old(self).file_ignore;
        let ghost ls = old(self).line_ignores@;
        let mut kept: Vec<LintDiagnostic> = Vec::new();
        let ghost mut k: int = 0;
        proof {
            assert(diags_view(self.diagnostics@) =~= ds0.subrange(0, ds0.len() as int));
            assert(ds0.subrange(0, 0) =~= Seq::<DiagView>::empty());
        }
        while self.diagnostics.len() > 0
            invariant
                self.wf(),
                same_config(*old(self), *self),
                0 <= k <= ds0.len(),
                ds0 == diags_view(old(self).diagnostics@),
                f == old(self).file_ignore,
                ls == old(self).line_ignores@,
                diags_view(self.diagnostics@) =~= ds0.subrange(k, ds0.len() as int),
                self.diagnostics@.len() == ds0.len() - k,
                diags_view(kept@) == keep_diags(ds0.subrange(0, k), f, ls),
                (match f {
                    Option::Some(fd) => self.file_used == (exists|i: int|
                        0 <= i < k && file_matches(fd, ds0[i])),
                    Option::None => self.file_used == false,
                }),
                self.line_used@.len() == ls.len(),
                forall|j: int|
                    0 <= j < ls.len() ==> self.line_used@[j] == (exists|i: int|
                        0 <= i < k && !suppressed_by_file(f, ds0[i]) && line_matches(
                            #[trigger] ls[j],
                            ds0[i],
                        )),
            decreases self.diagnostics@.len(),
        {
            let ghost before = self.diagnostics@;
            let d = self.diagnostics.remove(0);
            proof {
                assert(self.diagnostics@ =~= before.subrange(1, before.len() as int));
                assert(ds0[k] == diags_view(before)[0]);
                assert(ds0[k] == d@);
                assert forall|j: int| 0 <= j < self.diagnostics@.len() implies diags_view(
                    self.diagnostics@,
                )[j] == ds0[k + 1 + j] by {
                    assert(self.diagnostics@[j] == before[j + 1]);
                    assert(diags_view(before)[j + 1] == ds0.subrange(k, ds0.len() as int)[j + 1]);
                }
                assert(diags_view(self.diagnostics@) =~= ds0.subrange(k + 1, ds0.len() as int));
            }
            let file_hit = match &self.file_ignore {
                Option::Some(fd) => codes_cover(&fd.codes, &d.code),
                Option::None => false,
            };
            proof {
                assert(file_hit == suppressed_by_file(f, ds0[k]));
            }
            let mut line_hit = false;
            if file_hit {
                self.file_used = true;
            } else {
                let mut j: usize = 0;
                while j < self.line_ignores.len()
                    invariant
                        self.wf(),
                        same_config(*old(self), *self),
                        j <= ls.len(),
                        self.line_ignores@ == ls,
                        diags_view(self.diagnostics@) =~= ds0.subrange(k + 1, ds0.len() as int),
                        self.diagnostics@.len() == ds0.len() - k - 1,
                        self.line_used@.len() == ls.len(),
                        d@ == ds0[k],
                        0 <= k < ds0.len(),
                        !suppressed_by_file(f, ds0[k]),
                        line_hit == (exists|t: int| 0 <= t < j && line_matches(ls[t], ds0[k])),
                        (match f {
                            Option::Some(fd) => self.file_used == (exists|i: int|
                                0 <= i < k && file_matches(fd, ds0[i])),
                            Option::None => self.file_used == false,
                        }),
                        forall|t: int|
                            0 <= t < ls.len() ==> self.line_used@[t] == ((exists|i: int|
                                0 <= i < k && !suppressed_by_file(f, ds0[i]) && line_matches(
                                    #[trigger] ls[t],
                                    ds0[i],
                                )) || (t < j && line_matches(ls[t], ds0[k]))),
                    decreases ls.len() - j,
                {
                    let dir_line = self.line_ignores[j].line;
                    if dir_line == d.range.start.line_index {
                        let covered = codes_cover(&self.line_ignores[j].codes, &d.code);
                        if covered {
                            self.line_used.set(j, true);
                            line_hit = true;
                            proof {
                                assert(line_matches(ls[j as int], ds0[k]));
                            }
                        }
                    }
                    j = j + 1;
                }
            }
            if !file_hit && !line_hit {
                proof {
                    assert(!diag_suppressed(f, ls, ds0[k]));
                    assert(diags_view(kept@.push(d)) =~= diags_view(kept@).push(d@));
                }
                kept.push(d);
            }
            proof {
                let pre = ds0.subrange(0, k + 1);
                assert(pre.drop_last() =~= ds0.subrange(0, k));
                assert(pre.last() == ds0[k]);
                if file_hit || line_hit {
                    assert(diag_suppressed(f, ls, ds0[k]));
                    assert(keep_diags(pre, f, ls) =~= keep_diags(ds0.subrange(0, k), f, ls));
                } else {
                    assert(keep_diags(pre, f, ls) =~= keep_diags(ds0.subrange(0, k), f, ls).push(
                        ds0[k],
                    ));
                    assert(diags_view(kept@) =~= keep_diags(pre, f, ls));
                }
                k = k + 1;
            }
        }
        proof {
            assert(ds0.subrange(0, ds0.len() as int) =~= ds0);
            assert forall|j: int| 0 <= j < ls.len() implies self.line_used@[j] == spec_line_used(
                ds0,
                f,
                ls[j],
            ) by {}
        }
        kept
    }

    /// Stage two: if the unknown-rule-code check is active, one diagnostic
    /// per directive code that matches no registered rule code.
    pub fn ban_unknown_rule_code(&self, known: &Vec<String>) -> (r: Vec<LintDiagnostic>)
        requires
            self.wf(),
        ensures
            diags_view(r@) == if self.check_unknown_rules {
                unknown_rule_diags(
                    self.file_ignore,
                    self.line_ignores@,
                    codes_view(known@),
                    self.filename@,
                    self.starts(),
                )
            } else {
                Seq::<DiagView>::empty()
            },
    {
        let mut out: Vec<LintDiagnostic> = Vec::new();
        if !self.check_unknown_rules {
            proof {
                assert(diags_view(out@) =~= Seq::<DiagView>::empty());
            }
            return out;
        }
        match &self.file_ignore {
            Option::Some(fd) => {
                self.push_unknown_for_codes(&mut out, &fd.codes, known, fd.span);
            },
            Option::None => {},
        }
        let ghost file_part = match &self.file_ignore {
            Option::Some(fd) => unknown_for_codes(
                fd.codes@,
                codes_view(known@),
                self.filename@,
                self.starts(),
                fd.span,
            ),
            Option::None => Seq::<DiagView>::empty(),
        };
        proof {
            assert(diags_view(out@) =~= file_part);
        }
        let mut j: usize = 0;
        while j < self.line_ignores.len()
            invariant
                self.wf(),
                j <= self.line_ignores@.len(),
                diags_view(out@) == file_part + unknown_for_lines(
                    self.line_ignores@.subrange(0, j as int),
                    codes_view(known@),
                    self.filename@,
                    self.starts(),
                ),
            decreases self.line_ignores@.len() - j,
        {
            proof {
                assert(unknown_for_lines(
                    self.line_ignores@.subrange(0, 0),
                    codes_view(known@),
                    self.filename@,
                    self.starts(),
                ) =~= Seq::<DiagView>::empty());
            }
            let l = &self.line_ignores[j];
            self.push_unknown_for_codes(&mut out, &l.codes, known, l.span);
            proof {
                let pre = self.line_ignores@.subrange(0, j as int + 1);
                assert(pre.drop_last() =~= self.line_ignores@.subrange(0, j as int));
                assert(pre.last() == self.line_ignores@[j as int]);
            }
            j = j + 1;
        }
        proof {
            assert(self.line_ignores@.subrange(0, self.line_ignores@.len() as int)
                =~= self.line_ignores@);
        }
        out
    }

    /// Appends the unknown-code diagnostics of one directive's code list.
    fn push_unknown_for_codes(
        &self,
        out: &mut Vec<LintDiagnostic>,
        codes: &Vec<String>,
        known: &Vec<String>,
        span: Span,
    )
        requires
            self.wf(),
        ensures
            diags_view(final(out)@) == diags_view(old(out)@) + unknown_for_codes(
                codes@,
                codes_view(known@),
                self.filename@,
                self.starts(),
                span,
            ),
    {
        let mut i: usize = 0;
        proof {
            assert(unknown_for_codes(
                codes@.subrange(0, 0),
                codes_view(known@),
                self.filename@,
                self.starts(),
                span,
            ) =~= Seq::<DiagView>::empty());
            assert(diags_view(out@) =~= diags_view(out@) + Seq::<DiagView>::empty());
        }
        while i < codes.len()
            invariant
                self.wf(),
                i <= codes@.len(),
                diags_view(out@) == diags_view(old(out)@) + unknown_for_codes(
                    codes@.subrange(0, i as int),
                    codes_view(known@),
                    self.filename@,
                    self.starts(),
                    span,
                ),
            decreases codes@.len() - i,
        {
            let is_known = contains_code(known, &codes[i]);
            if !is_known {
                let mut message = "Unknown rule for code ".to_owned();
                message.append(codes[i].as_str());
                let start = self.text_index.position_of(span.lo);
                let end = self.text_index.position_of(span.hi);
                let d = LintDiagnostic {
                    filename: self.filename.clone(),
                    range: Range { start, end },
                    code: "ban-unknown-rule-code".to_owned(),
                    message,
                    hint: Option::None,
                };
                proof {
                    assert(d@ == mk_unknown_view(
                        self.filename@,
                        self.starts(),
                        span,
                        codes@[i as int]@,
                    ));
                    assert(diags_view(out@.push(d)) =~= diags_view(out@).push(d@));
                }
                out.push(d);
            }
            proof {
                let pre = codes@.subrange(0, i as int + 1);
                assert(pre.drop_last() =~= codes@.subrange(0, i as int));
                assert(pre.last() == codes@[i as int]);
                if is_known {
                } else {
                    assert(diags_view(out@) =~= diags_view(old(out)@) + unknown_for_codes(
                        pre,
                        codes_view(known@),
                        self.filename@,
                        self.starts(),
                        span,
                    ));
                }
            }
            i = i + 1;
        }
        proof {
            assert(codes@.subrange(0, codes@.len() as int) =~= codes@);
        }
    }

    /// Stage three: one diagnostic per directive whose used-flag stayed
    /// false after stage one.
    pub fn ban_unused_ignore(&self) -> (r: Vec<LintDiagnostic>)
        requires
            self.wf(),
        ensures
            diags_view(r@) == unused_diags(
                self.file_ignore,
                self.file_used,
                self.line_ignores@,
                self.line_used@,
                self.filename@,
                self.starts(),
            ),
    {
        let mut out: Vec<LintDiagnostic> = Vec::new();
        match &self.file_ignore {
            Option::Some(fd) => {
                if !self.file_used {
                    self.push_unused(&mut out, fd.span);
                }
            },
            Option::None => {},
        }
        let ghost file_part = match &self.file_ignore {
            Option::Some(fd) => if self.file_used {
                Seq::<DiagView>::empty()
            } else {
                seq![mk_unused_view(self.filename@, self.starts(), fd.span)]
            },
            Option::None => Seq::<DiagView>::empty(),
        };
        proof {
            assert(diags_view(out@) =~= file_part);
        }
        let mut j: usize = 0;
        while j < self.line_ignores.len()
            invariant
                self.wf(),
                j <= self.line_ignores@.len(),
                diags_view(out@) == file_part + unused_line_diags(
                    self.line_ignores@.subrange(0, j as int),
                    self.line_used@.subrange(0, j as int),
                    self.filename@,
                    self.starts(),
                ),
            decreases self.line_ignores@.len() - j,
        {
            proof {
                assert(unused_line_diags(
                    self.line_ignores@.subrange(0, 0),
                    self.line_used@.subrange(0, 0),
                    self.filename@,
                    self.starts(),
                ) =~= Seq::<DiagView>::empty());
            }
            if !self.line_used[j] {
                let span = self.line_ignores[j].span;
                self.push_unused(&mut out, span);
            }
            proof {
                let pre = self.line_ignores@.subrange(0, j as int + 1);
                let preu = self.line_used@.subrange(0, j as int + 1);
                assert(pre.drop_last() =~= self.line_ignores@.subrange(0, j as int));
                assert(preu.subrange(0, pre.len() - 1) =~= self.line_used@.subrange(0, j as int));
                assert(pre.last() == self.line_ignores@[j as int]);
                assert(preu[pre.len() - 1] == self.line_used@[j as int]);
            }
            j = j + 1;
        }
        proof {
            assert(self.line_ignores@.subrange(0, self.line_ignores@.len() as int)
                =~= self.line_ignores@);
            assert(self.line_used@.subrange(0, self.line_used@.len() as int)
                =~= self.line_used@);
        }
        out
    }

    /// Appends one unused-ignore diagnostic for a directive span.
    fn push_unused(&self, out: &mut Vec<LintDiagnostic>, span: Span)
        requires
            self.wf(),
        ensures
            diags_view(final(out)@) == diags_view(old(out)@).push(
                mk_unused_view(self.filename@, self.starts(), span),
            ),
    {
        let start = self.text_index.position_of(span.lo);
        let end = self.text_index.position_of(span.hi);
        let d = LintDiagnostic {
            filename: self.filename.clone(),
            range: Range { start, end },
            code: "ban-unused-ignore".to_owned(),
            message: "this suppression has no effect".to_owned(),
            hint: Option::None,
        };
        proof {
            assert(diags_view(out@.push(d)) =~= diags_view(out@).push(d@));
        }
        out.push(d);
    }
}

/// Whether `c` appears in the registered code list.
pub fn contains_code(known: &Vec<String>, c: &String) -> (r: bool)
    ensures
        r == known_contains(codes_view(known@), c@),
{
    let mut i: usize = 0;
    while i < known.len()
        invariant
            i <= known@.len(),
            forall|k: int| 0 <= k < i ==> codes_view(known@)[k] != c@,
        decreases known@.len() - i,
    {
        if known[i].eq(c) {
            proof {
                assert(codes_view(known@)[i as int] == c@);
            }
            return true;
        }
        i = i + 1;
    }
    false
}

/// Every diagnostic stage one keeps occurs among the rule diagnostics and
/// is not suppressed; conversely every unsuppressed rule diagnostic is
/// kept.
pub proof fn lemma_keep_diags_membership(
    ds: Seq<DiagView>,
    f: Option<FileIgnoreDirective>,
    ls: Seq<LineIgnoreDirective>,
    d: DiagView,
)
    ensures
        keep_diags(ds, f, ls).contains(d) <==> (ds.contains(d) && !diag_suppressed(f, ls, d)),
    decreases ds.len(),
{
    let out = keep_diags(ds, f, ls);
    if ds.len() == 0 {
        assert(!out.contains(d));
        assert(!ds.contains(d));
    } else {
        lemma_keep_diags_membership(ds.drop_last(), f, ls, d);
        let inner = keep_diags(ds.drop_last(), f, ls);
        if out.contains(d) {
            let w = choose|w: int| 0 <= w < out.len() && out[w] == d;
            if w < inner.len() {
                assert(inner[w] == d);
                assert(inner.contains(d));
                let v = choose|v: int| 0 <= v < ds.drop_last().len() && ds.drop_last()[v] == d;
                assert(ds[v] == d);
                assert(ds.contains(d));
            } else {
                assert(!diag_suppressed(f, ls, ds.last()));
                assert(out[w] == ds.last());
                assert(ds[ds.len() - 1] == d);
                assert(ds.contains(d));
            }
        }
        if ds.contains(d) && !diag_suppressed(f, ls, d) {
            let v = choose|v: int| 0 <= v < ds.len() && ds[v] == d;
            if v < ds.len() - 1 {
                assert(ds.drop_last()[v] == d);
                assert(ds.drop_last().contains(d));
                assert(inner.contains(d));
                let w = choose|w: int| 0 <= w < inner.len() && inner[w] == d;
                assert(out[w] == d);
                assert(out.contains(d));
            } else {
                assert(ds.last() == d);
                assert(out[out.len() - 1] == d);
                assert(out.contains(d));
            }
        }
    }
}

/// Every diagnostic stage one keeps is one of the rule diagnostics.
pub proof fn lemma_keep_diags_elements(
    ds: Seq<DiagView>,
    f: Option<FileIgnoreDirective>,
    ls: Seq<LineIgnoreDirective>,
)
    ensures
        forall|i: int|
            0 <= i < keep_diags(ds, f, ls).len() ==> ds.contains(#[trigger] keep_diags(ds, f, ls)[i]),
{
    let out = keep_diags(ds, f, ls);
    assert forall|i: int| 0 <= i < out.len() implies ds.contains(out[i]) by {
        assert(out.contains(out[i]));
        lemma_keep_diags_membership(ds, f, ls, out[i]);
    }
}

/// Stage two yields one diagnostic per unknown code of one directive, and
/// every one carries the unknown-rule-code code.
pub proof fn lemma_unknown_for_codes_props(
    codes: Seq<String>,
    known: Seq<Seq<char>>,
    filename: Seq<char>,
    starts: Seq<usize>,
    span: Span,
)
    ensures
        unknown_for_codes(codes, known, filename, starts, span).len() == unknown_count_codes(
            codes,
            known,
        ),
        forall|i: int|
            0 <= i < unknown_for_codes(codes, known, filename, starts, span).len()
                ==> #[trigger] unknown_for_codes(codes, known, filename, starts, span)[i].code
                == "ban-unknown-rule-code"@,
    decreases codes.len(),
{
    if codes.len() > 0 {
        lemma_unknown_for_codes_props(codes.drop_last(), known, filename, starts, span);
    }
}

/// The same, summed over the line directives.
pub proof fn lemma_unknown_for_lines_props(
    ls: Seq<LineIgnoreDirective>,
    known: Seq<Seq<char>>,
    filename: Seq<char>,
    starts: Seq<usize>,
)
    ensures
        unknown_for_lines(ls, known, filename, starts).len() == unknown_count_lines(ls, known),
        forall|i: int|
            0 <= i < unknown_for_lines(ls, known, filename, starts).len()
                ==> #[trigger] unknown_for_lines(ls, known, filename, starts)[i].code
                == "ban-unknown-rule-code"@,
    decreases ls.len(),
{
    if ls.len() > 0 {
        lemma_unknown_for_lines_props(ls.drop_last(), known, filename, starts);
        lemma_unknown_for_codes_props(ls.last().codes@, known, filename, starts, ls.last().span);
    }
}

/// Unknown-code detection yields exactly one diagnostic per unknown code
/// any directive lists, each carrying the unknown-rule-code code.
pub proof fn lemma_unknown_rule_diags_props(
    f: Option<FileIgnoreDirective>,
    ls: Seq<LineIgnoreDirective>,
    known: Seq<Seq<char>>,
    filename: Seq<char>,
    starts: Seq<usize>,
)
    ensures
        unknown_rule_diags(f, ls, known, filename, starts).len() == unknown_count(f, ls, known),
        forall|i: int|
            0 <= i < unknown_rule_diags(f, ls, known, filename, starts).len()
                ==> #[trigger] unknown_rule_diags(f, ls, known, filename, starts)[i].code
                == "ban-unknown-rule-code"@,
{
    match f {
        Option::Some(fd) => {
            lemma_unknown_for_codes_props(fd.codes@, known, filename, starts, fd.span);
        },
        Option::None => {},
    }
    lemma_unknown_for_lines_props(ls, known, filename, starts);
}

/// Unused-ignore detection yields exactly one diagnostic per line
/// directive whose used-flag is false, each carrying the unused-ignore
/// code.
pub proof fn lemma_unused_line_diags_props(
    ls: Seq<LineIgnoreDirective>,
    used: Seq<bool>,
    filename: Seq<char>,
    starts: Seq<usize>,
)
    requires
        used.len() == ls.len(),
    ensures
        unused_line_diags(ls, used, filename, starts).len() == count_unused_lines(used),
        forall|i: int|
            0 <= i < unused_line_diags(ls, used, filename, starts).len()
                ==> #[trigger] unused_line_diags(ls, used, filename, starts)[i].code
                == "ban-unused-ignore"@,
    decreases ls.len(),
{
    if ls.len() > 0 {
        assert(used.subrange(0, ls.len() - 1) =~= used.drop_last());
        lemma_unused_line_diags_props(ls.drop_last(), used.drop_last(), filename, starts);
        assert(used[ls.len() - 1] == used.last());
    }
}

/// The same, with the file directive counted first.
pub proof fn lemma_unused_diags_props(
    f: Option<FileIgnoreDirective>,
    file_used: bool,
    ls: Seq<LineIgnoreDirective>,
    used: Seq<bool>,
    filename: Seq<char>,
    starts: Seq<usize>,
)
    requires
        used.len() == ls.len(),
    ensures
        unused_diags(f, file_used, ls, used, filename, starts).len() == count_unused(
            f,
            file_used,
            used,
        ),
        forall|i: int|
            0 <= i < unused_diags(f, file_used, ls, used, filename, starts).len()
                ==> #[trigger] unused_diags(f, file_used, ls, used, filename, starts)[i].code
                == "ban-unused-ignore"@,
{
    lemma_unused_line_diags_props(ls, used, filename, starts);
}

/// Line-ignore exactness: with no file-level directive, a rule diagnostic
/// is dropped exactly when some line directive sits on its start line and
/// either ignores everything or lists its code; every other diagnostic is
/// kept.
pub proof fn lemma_line_ignore_exactness(
    ds: Seq<DiagView>,
    ls: Seq<LineIgnoreDirective>,
    d: DiagView,
)
    ensures
        keep_diags(ds, Option::None, ls).contains(d) <==> (ds.contains(d) && !(exists|i: int|
            0 <= i < ls.len() && line_matches(ls[i], d))),
{
    lemma_keep_diags_membership(ds, Option::None, ls, d);
}

} // verus!
