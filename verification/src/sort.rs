//! Stable sort of diagnostics by start line index.
//!
//! The final report orders diagnostics by the line their range starts on;
//! diagnostics with equal start line keep the order they were discovered
//! in.  The specification is the classical stable insertion sort: each
//! element is inserted after every element whose key is at most its own.

use vstd::prelude::*;
use crate::diagnostic::{
    diag_line, diags_view, sorted_by_line, view_line, views_sorted_by_line, DiagView,
    LintDiagnostic,
};

verus! {

/// Inserts `x` into `s` after every element whose line is at most
/// `line(x)`; on a sorted list this is the stable insertion position.
pub open spec fn insert_by_line(s: Seq<LintDiagnostic>, x: LintDiagnostic) -> Seq<LintDiagnostic>
    decreases s.len(),
{
    if s.len() > 0 && diag_line(s.last()) > diag_line(x) {
        insert_by_line(s.drop_last(), x).push(s.last())
    } else {
        s.push(x)
    }
}

/// Stable sort by start line: insert each element in turn.
pub open spec fn sort_by_line(s: Seq<LintDiagnostic>) -> Seq<LintDiagnostic>
    decreases s.len(),
{
    if s.len() == 0 {
        s
    } else {
        insert_by_line(sort_by_line(s.drop_last()), s.last())
    }
}

/// The same insertion at the view level.
pub open spec fn insert_view_by_line(s: Seq<DiagView>, x: DiagView) -> Seq<DiagView>
    decreases s.len(),
{
    if s.len() > 0 && view_line(s.last()) > view_line(x) {
        insert_view_by_line(s.drop_last(), x).push(s.last())
    } else {
        s.push(x)
    }
}

/// The same stable sort at the view level.
pub open spec fn sort_view_by_line(s: Seq<DiagView>) -> Seq<DiagView>
    decreases s.len(),
{
    if s.len() == 0 {
        s
    } else {
        insert_view_by_line(sort_view_by_line(s.drop_last()), s.last())
    }
}

/// Inserting into a sorted list keeps it sorted.
proof fn lemma_insert_view_sorted(s: Seq<DiagView>, x: DiagView)
    requires
        views_sorted_by_line(s),
    ensures
        views_sorted_by_line(insert_view_by_line(s, x)),
        insert_view_by_line(s, x).len() == s.len() + 1,
        forall|i: int|
            0 <= i < insert_view_by_line(s, x).len()
                ==> (#[trigger] insert_view_by_line(s, x)[i] == x || s.contains(
                insert_view_by_line(s, x)[i],
            )),
    decreases s.len(),
{
    let out = insert_view_by_line(s, x);
    if s.len() > 0 && view_line(s.last()) > view_line(x) {
        assert(views_sorted_by_line(s.drop_last()));
        lemma_insert_view_sorted(s.drop_last(), x);
        let inner = insert_view_by_line(s.drop_last(), x);
        assert forall|i: int, j: int| 0 <= i < j < out.len() implies view_line(out[i]) <= view_line(
            out[j],
        ) by {
            if j < out.len() - 1 {
            } else {
                if out[i] == x {
                } else {
                    assert(s.contains(out[i]));
                    let w = choose|w: int| 0 <= w < s.len() && s[w] == out[i];
                    assert(view_line(s[w]) <= view_line(s.last()));
                }
            }
        }
        assert forall|i: int| 0 <= i < out.len() implies (#[trigger] out[i] == x || s.contains(
            out[i],
        )) by {
            if i < out.len() - 1 {
                if inner[i] != x {
                    assert(s.drop_last().contains(inner[i]));
                    let w = choose|w: int|
                        0 <= w < s.drop_last().len() && s.drop_last()[w] == inner[i];
                    assert(s[w] == inner[i]);
                }
            } else {
                assert(out[i] == s.last());
                assert(s[s.len() - 1] == s.last());
            }
        }
    } else {
        assert forall|i: int| 0 <= i < out.len() implies (#[trigger] out[i] == x || s.contains(
            out[i],
        )) by {
            if i < s.len() {
                assert(s[i] == out[i]);
            }
        }
    }
}

/// The stable sort returns a sorted list.
pub proof fn lemma_sort_view_sorted(s: Seq<DiagView>)
    ensures
        views_sorted_by_line(sort_view_by_line(s)),
        sort_view_by_line(s).len() == s.len(),
    decreases s.len(),
{
    if s.len() > 0 {
        lemma_sort_view_sorted(s.drop_last());
        lemma_insert_view_sorted(sort_view_by_line(s.drop_last()), s.last());
    }
}

/// The view of the concrete insertion is the insertion of the views.
proof fn lemma_insert_view_commutes(s: Seq<LintDiagnostic>, x: LintDiagnostic)
    ensures
        diags_view(insert_by_line(s, x)) == insert_view_by_line(diags_view(s), x@),
    decreases s.len(),
{
    if s.len() > 0 && diag_line(s.last()) > diag_line(x) {
        lemma_insert_view_commutes(s.drop_last(), x);
        assert(diags_view(s).drop_last() =~= diags_view(s.drop_last()));
        assert(diags_view(s).last() == s.last()@);
        assert(view_line(diags_view(s).last()) == diag_line(s.last()));
        assert(diags_view(insert_by_line(s.drop_last(), x).push(s.last())) =~= diags_view(
            insert_by_line(s.drop_last(), x),
        ).push(s.last()@));
    } else {
        assert(diags_view(s.push(x)) =~= diags_view(s).push(x@));
        if s.len() > 0 {
            assert(view_line(diags_view(s).last()) == diag_line(s.last()));
        }
    }
}

/// The view of the concrete sort is the sort of the views.
pub proof fn lemma_sort_view_commutes(s: Seq<LintDiagnostic>)
    ensures
        diags_view(sort_by_line(s)) == sort_view_by_line(diags_view(s)),
    decreases s.len(),
{
    if s.len() == 0 {
        assert(diags_view(s) =~= Seq::<DiagView>::empty());
    } else {
        lemma_sort_view_commutes(s.drop_last());
        lemma_insert_view_commutes(sort_by_line(s.drop_last()), s.last());
        assert(diags_view(s).drop_last() =~= diags_view(s.drop_last()));
        assert(diags_view(s).last() == s.last()@);
    }
}

/// Inserting an element into `s` at an index only adds that element to any
/// per-code count.
proof fn lemma_count_code_insert(s: Seq<DiagView>, x: DiagView, code: Seq<char>)
    ensures
        crate::diagnostic::count_code(insert_view_by_line(s, x), code)
            == crate::diagnostic::count_code(s, code) + if x.code == code {
            1nat
        } else {
            0nat
        },
    decreases s.len(),
{
    if s.len() > 0 && view_line(s.last()) > view_line(x) {
        lemma_count_code_insert(s.drop_last(), x, code);
        let inner = insert_view_by_line(s.drop_last(), x);
        assert(inner.push(s.last()).drop_last() =~= inner);
        assert(inner.push(s.last()).last() == s.last());
        assert(insert_view_by_line(s, x) == inner.push(s.last()));
        assert(s.drop_last().push(s.last()) =~= s);
    } else {
        assert((s.push(x)).drop_last() =~= s);
        assert((s.push(x)).last() == x);
        assert(insert_view_by_line(s, x) == s.push(x));
    }
}

/// Sorting does not change how many diagnostics carry a given code.
pub proof fn lemma_count_code_sort(s: Seq<DiagView>, code: Seq<char>)
    ensures
        crate::diagnostic::count_code(sort_view_by_line(s), code) == crate::diagnostic::count_code(
            s,
            code,
        ),
    decreases s.len(),
{
    if s.len() > 0 {
        lemma_count_code_sort(s.drop_last(), code);
        lemma_count_code_insert(sort_view_by_line(s.drop_last()), s.last(), code);
    }
}

/// Inserts one diagnostic at its stable position.
fn insert_diagnostic(list: Vec<LintDiagnostic>, x: LintDiagnostic) -> (r: Vec<LintDiagnostic>)
    ensures
        r@ == insert_by_line(list@, x),
{
    let mut list = list;
    let mut pos: usize = list.len();
    proof {
        assert(list@.subrange(0, pos as int) =~= list@);
        assert(list@.subrange(pos as int, list@.len() as int) =~= Seq::<LintDiagnostic>::empty());
        assert(insert_by_line(list@.subrange(0, pos as int), x) + list@.subrange(
            pos as int,
            list@.len() as int,
        ) =~= insert_by_line(list@, x));
    }
    while pos > 0 && list[pos - 1].range.start.line_index > x.range.start.line_index
        invariant
            pos <= list@.len(),
            insert_by_line(list@, x) == insert_by_line(list@.subrange(0, pos as int), x)
                + list@.subrange(pos as int, list@.len() as int),
        decreases pos,
    {
        proof {
            let pre = list@.subrange(0, pos as int);
            let pre2 = list@.subrange(0, pos as int - 1);
            assert(pre.drop_last() =~= pre2);
            assert(pre.last() == list@[pos as int - 1]);
            assert(insert_by_line(pre, x) == insert_by_line(pre2, x).push(list@[pos as int - 1]));
            assert(insert_by_line(pre2, x).push(list@[pos as int - 1]) + list@.subrange(
                pos as int,
                list@.len() as int,
            ) =~= insert_by_line(pre2, x) + list@.subrange(pos as int - 1, list@.len() as int));
        }
        pos = pos - 1;
    }
    proof {
        let pre = list@.subrange(0, pos as int);
        assert(insert_by_line(pre, x) == pre.push(x));
        assert(pre.push(x) + list@.subrange(pos as int, list@.len() as int) =~= list@.insert(
            pos as int,
            x,
        ));
    }
    list.insert(pos, x);
    list
}

/// Sorts the diagnostic list stably by start line index.
pub fn sort_diagnostics(list: Vec<LintDiagnostic>) -> (r: Vec<LintDiagnostic>)
    ensures
        r@ == sort_by_line(list@),
        sorted_by_line(r@),
{
    let ghost input = list@;
    let mut list = list;
    let mut out: Vec<LintDiagnostic> = Vec::new();
    let ghost mut i: int = 0;
    proof {
        assert(input.subrange(0, 0) =~= Seq::<LintDiagnostic>::empty());
        assert(list@ =~= input.subrange(0, input.len() as int));
    }
    while list.len() > 0
        invariant
            0 <= i <= input.len(),
            list@ == input.subrange(i, input.len() as int),
            out@ == sort_by_line(input.subrange(0, i)),
        decreases list@.len(),
    {
        let x = list.remove(0);
        proof {
            assert(x == input[i]);
            assert(input.subrange(i, input.len() as int).remove(0) =~= input.subrange(
                i + 1,
                input.len() as int,
            ));
            let pre = input.subrange(0, i + 1);
            assert(pre.drop_last() =~= input.subrange(0, i));
            assert(pre.last() == input[i]);
        }
        out = insert_diagnostic(out, x);
        proof {
            i = i + 1;
        }
    }
    proof {
        assert(input.subrange(0, input.len() as int) =~= input);
        lemma_sort_concrete_sorted(input);
    }
    out
}

/// Sorted at the concrete level follows from sorted at the view level.
proof fn lemma_sort_concrete_sorted(s: Seq<LintDiagnostic>)
    ensures
        sorted_by_line(sort_by_line(s)),
{
    lemma_sort_view_commutes(s);
    lemma_sort_view_sorted(diags_view(s));
    let out = sort_by_line(s);
    assert forall|i: int, j: int| 0 <= i < j < out.len() implies diag_line(out[i]) <= diag_line(
        out[j],
    ) by {
        assert(diags_view(out)[i] == out[i]@);
        assert(diags_view(out)[j] == out[j]@);
        assert(view_line(out[i]@) == diag_line(out[i]));
        assert(view_line(out[j]@) == diag_line(out[j]));
    }
}

} // verus!
