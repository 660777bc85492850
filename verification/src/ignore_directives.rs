//! Ignore directives: source-embedded instructions suppressing diagnostics.
//!
//! Two kinds exist.  A file-level directive suppresses either everything in
//! the file or every diagnostic carrying one of its codes; a line-level
//! directive does the same for diagnostics whose range starts on its exact
//! line.  An empty code list means "ignore everything".  The directives are
//! produced from the comment stream by the directive-parser collaborator
//! before the pass starts.

use vstd::prelude::*;
use crate::ast::Span;
use crate::diagnostic::DiagView;

verus! {

/// File-level ignore directive.
#[derive(Debug, Clone, PartialEq)]
pub struct FileIgnoreDirective {
    pub span: Span,
    pub codes: Vec<String>,
}

/// Line-level ignore directive, attached to one exact line.
#[derive(Debug, Clone, PartialEq)]
pub struct LineIgnoreDirective {
    pub line: usize,
    pub span: Span,
    pub codes: Vec<String>,
}

/// Whether one of `codes` reads `code`.
pub open spec fn codes_contain(codes: Seq<String>, code: Seq<char>) -> bool {
    exists|i: int| 0 <= i < codes.len() && codes[i]@ == code
}

/// A code list as character sequences.
pub open spec fn codes_view(codes: Seq<String>) -> Seq<Seq<char>> {
    codes.map_values(|s: String| s@)
}

/// A file directive with no codes suppresses the whole file.
pub open spec fn file_ignores_all(f: FileIgnoreDirective) -> bool {
    f.codes@.len() == 0
}

/// Whether the file directive suppresses diagnostic `d`.
pub open spec fn file_matches(f: FileIgnoreDirective, d: DiagView) -> bool {
    f.codes@.len() == 0 || codes_contain(f.codes@, d.code)
}

/// Whether line directive `l` suppresses diagnostic `d`: the diagnostic
/// must start on exactly the directive's line, and the directive must
/// either ignore everything or list the diagnostic's code.
pub open spec fn line_matches(l: LineIgnoreDirective, d: DiagView) -> bool {
    &&& l.line == d.range.start.line_index
    &&& (l.codes@.len() == 0 || codes_contain(l.codes@, d.code))
}

/// The lines of a directive list are strictly increasing, so at most one
/// directive is attached to any line.
pub open spec fn directives_ordered(ls: Seq<LineIgnoreDirective>) -> bool {
    forall|i: int, j: int| 0 <= i < j < ls.len() ==> ls[i].line < ls[j].line
}

/// Compares a stored string against a borrowed one.
pub fn string_eq_str(a: &String, b: &str) -> (r: bool)
    ensures
        r == (a@ == b@),
{
    let owned = b.to_owned();
    a.eq(&owned)
}

/// Whether the code list is empty (ignore everything) or lists `code`.
pub fn codes_cover(codes: &Vec<String>, code: &String) -> (r: bool)
    ensures
        r == (codes@.len() == 0 || codes_contain(codes@, code@)),
{
    if codes.len() == 0 {
        return true;
    }
    let mut i: usize = 0;
    while i < codes.len()
        invariant
            i <= codes@.len(),
            forall|k: int| 0 <= k < i ==> codes@[k]@ != code@,
        decreases codes@.len() - i,
    {
        if codes[i].eq(code) {
            return true;
        }
        i = i + 1;
    }
    false
}

} // verus!
