//! Diagnostics: one reported problem with its precise source location.

use vstd::prelude::*;

verus! {

/// A point in the source text: byte offset plus the line and column it
/// falls on (both zero-based).
#[derive(Debug, Clone, Copy, PartialEq, Eq, Structural)]
pub struct Position {
    pub byte_index: usize,
    pub line_index: usize,
    pub column_index: usize,
}

/// The source range a diagnostic covers.
#[derive(Debug, Clone, Copy, PartialEq, Eq, Structural)]
pub struct Range {
    pub start: Position,
    pub end: Position,
}

/// One reported problem: rule code, message, optional remediation hint,
/// file name and source range.  Never mutated after creation.
#[derive(Debug, Clone, PartialEq)]
pub struct LintDiagnostic {
    pub filename: String,
    pub range: Range,
    pub code: String,
    pub message: String,
    pub hint: Option<String>,
}

/// Mathematical image of a diagnostic: each string replaced by its
/// character sequence.  Contracts about produced diagnostics are stated
/// over this view.
pub struct DiagView {
    pub filename: Seq<char>,
    pub range: Range,
    pub code: Seq<char>,
    pub message: Seq<char>,
    pub hint: Option<Seq<char>>,
}

impl View for LintDiagnostic {
    type V = DiagView;

    open spec fn view(&self) -> DiagView {
        DiagView {
            filename: self.filename@,
            range: self.range,
            code: self.code@,
            message: self.message@,
            hint: match self.hint {
                Option::Some(h) => Option::Some(h@),
                Option::None => Option::None,
            },
        }
    }
}

/// View of a whole diagnostic list.
pub open spec fn diags_view(s: Seq<LintDiagnostic>) -> Seq<DiagView> {
    s.map_values(|d: LintDiagnostic| d@)
}

/// Start line of a diagnostic, the key of the final ordering.
pub open spec fn diag_line(d: LintDiagnostic) -> int {
    d.range.start.line_index as int
}

/// Start line at the view level.
pub open spec fn view_line(d: DiagView) -> int {
    d.range.start.line_index as int
}

/// The diagnostic list is non-decreasing in start line index.
pub open spec fn sorted_by_line(s: Seq<LintDiagnostic>) -> bool {
    forall|i: int, j: int| 0 <= i < j < s.len() ==> diag_line(s[i]) <= diag_line(s[j])
}

/// Same ordering statement at the view level.
pub open spec fn views_sorted_by_line(s: Seq<DiagView>) -> bool {
    forall|i: int, j: int| 0 <= i < j < s.len() ==> view_line(s[i]) <= view_line(s[j])
}

/// Number of diagnostics in `s` whose code is `code`.
pub open spec fn count_code(s: Seq<DiagView>, code: Seq<char>) -> nat
    decreases s.len(),
{
    if s.len() == 0 {
        0
    } else {
        count_code(s.drop_last(), code) + if s.last().code == code {
            1nat
        } else {
            0nat
        }
    }
}

/// Counting a code distributes over concatenation.
pub proof fn lemma_count_code_add(a: Seq<DiagView>, b: Seq<DiagView>, code: Seq<char>)
    ensures
        count_code(a + b, code) == count_code(a, code) + count_code(b, code),
    decreases b.len(),
{
    if b.len() == 0 {
        assert(a + b =~= a);
    } else {
        assert((a + b).drop_last() =~= a + b.drop_last());
        assert((a + b).last() == b.last());
        lemma_count_code_add(a, b.drop_last(), code);
    }
}

/// A list none of whose members carry `code` counts zero.
pub proof fn lemma_count_code_none(s: Seq<DiagView>, code: Seq<char>)
    requires
        forall|i: int| 0 <= i < s.len() ==> #[trigger] s[i].code != code,
    ensures
        count_code(s, code) == 0,
    decreases s.len(),
{
    if s.len() > 0 {
        lemma_count_code_none(s.drop_last(), code);
    }
}

/// A list all of whose members carry `code` counts its length.
pub proof fn lemma_count_code_all(s: Seq<DiagView>, code: Seq<char>)
    requires
        forall|i: int| 0 <= i < s.len() ==> #[trigger] s[i].code == code,
    ensures
        count_code(s, code) == s.len(),
    decreases s.len(),
{
    if s.len() > 0 {
        lemma_count_code_all(s.drop_last(), code);
    }
}

} // verus!
