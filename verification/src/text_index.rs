//! Text index: maps byte offsets of the source text to line and column.

use vstd::prelude::*;
use crate::diagnostic::Position;

verus! {

/// A byte position `p` starts a line when it is the start of the text or
/// directly follows a newline byte.
pub open spec fn is_line_start(text: Seq<u8>, p: int) -> bool {
    p == 0 || (1 <= p <= text.len() && text[p - 1] == 10)
}

/// Index of the line containing byte offset `off`: the largest `i` with
/// `starts[i] <= off`, assuming `starts` is sorted and starts at zero.
pub open spec fn line_of(starts: Seq<usize>, off: int) -> int
    decreases starts.len(),
{
    if starts.len() <= 1 {
        0
    } else if off < starts[1] {
        0
    } else {
        1 + line_of(starts.subrange(1, starts.len() as int), off)
    }
}

/// Line and column of byte offset `off` under the line-start table
/// `starts`; the column is the distance from the start of the line.
pub open spec fn position_spec(starts: Seq<usize>, off: usize) -> Position {
    let line = line_of(starts, off as int);
    Position {
        byte_index: off,
        line_index: line as usize,
        column_index: (off - starts[line]) as usize,
    }
}

/// Maps byte offsets of one file to (line, column) pairs.  Built once per
/// file and read by every diagnostic conversion.
#[derive(Debug, Clone, PartialEq)]
pub struct TextIndex {
    pub text_len: usize,
    pub line_starts: Vec<usize>,
}

impl TextIndex {
    /// The line-start table as a sequence.
    pub open spec fn starts(&self) -> Seq<usize> {
        self.line_starts@
    }

    /// Well-formed: the table is non-empty, begins at offset zero, is
    /// strictly increasing, and stays within the text.
    pub open spec fn wf(&self) -> bool {
        &&& 1 <= self.line_starts@.len()
        &&& self.line_starts@[0] == 0
        &&& (forall|i: int, j: int|
            0 <= i < j < self.line_starts@.len() ==> self.line_starts@[i] < self.line_starts@[j])
        &&& (forall|i: int|
            0 <= i < self.line_starts@.len() ==> #[trigger] self.line_starts@[i] <= self.text_len)
    }

    /// Builds the index of `text`: one entry per line start.
    pub fn build(text: &[u8]) -> (r: TextIndex)
        ensures
            r.wf(),
            r.text_len == text@.len(),
            forall|p: int|
                0 <= p <= text@.len()
                    ==> (#[trigger] is_line_start(text@, p) <==> r.starts().contains(p as usize)),
    {
        let mut line_starts: Vec<usize> = Vec::new();
        line_starts.push(0);
        let mut i: usize = 0;
        proof {
            assert(line_starts@[0] == 0usize);
            assert(line_starts@.contains(0usize));
            assert forall|p: int| 0 <= p <= 0 implies (#[trigger] is_line_start(text@, p)
                <==> line_starts@.contains(p as usize)) by {
                assert(is_line_start(text@, 0));
            }
        }
        while i < text.len()
            invariant
                i <= text@.len(),
                1 <= line_starts@.len(),
                line_starts@[0] == 0,
                forall|a: int, b: int|
                    0 <= a < b < line_starts@.len() ==> line_starts@[a] < line_starts@[b],
                forall|k: int| 0 <= k < line_starts@.len() ==> #[trigger] line_starts@[k] <= i,
                forall|k: int|
                    0 <= k < line_starts@.len()
                        ==> is_line_start(text@, #[trigger] line_starts@[k] as int),
                forall|p: int|
                    0 <= p <= i
                        ==> (#[trigger] is_line_start(text@, p) <==> line_starts@.contains(
                            p as usize,
                        )),
            decreases text@.len() - i,
        {
            if text[i] == 10 {
                let ghost before = line_starts@;
                line_starts.push(i + 1);
                assert forall|p: int| 0 <= p <= i + 1 implies (#[trigger] is_line_start(text@, p)
                    <==> line_starts@.contains(p as usize)) by {
                    if p == i + 1 {
                        assert(line_starts@[line_starts@.len() - 1] == (i + 1) as usize);
                        assert(line_starts@.contains(p as usize));
                    } else {
                        if line_starts@.contains(p as usize) {
                            let k = choose|k: int|
                                0 <= k < line_starts@.len() && line_starts@[k] == p as usize;
                            assert(k < before.len());
                            assert(before.contains(p as usize));
                        }
                        if before.contains(p as usize) {
                            let k = choose|k: int| 0 <= k < before.len() && before[k] == p as usize;
                            assert(line_starts@[k] == p as usize);
                        }
                    }
                }
            } else {
                assert forall|p: int| 0 <= p <= i + 1 implies (#[trigger] is_line_start(text@, p)
                    <==> line_starts@.contains(p as usize)) by {
                    if p == i + 1 && p != 0 {
                        assert(text@[p - 1] != 10);
                        if line_starts@.contains(p as usize) {
                            let k = choose|k: int|
                                0 <= k < line_starts@.len() && line_starts@[k] == p as usize;
                            assert(line_starts@[k] <= i);
                        }
                    }
                }
            }
            i = i + 1;
        }
        TextIndex { text_len: text.len(), line_starts }
    }

    /// Line and column of a byte offset; total for any offset once the
    /// index is well-formed.
    pub fn position_of(&self, offset: usize) -> (p: Position)
        requires
            self.wf(),
        ensures
            p == position_spec(self.starts(), offset),
    {
        let n = self.line_starts.len();
        let mut line: usize = 0;
        while line + 1 < n && self.line_starts[line + 1] <= offset
            invariant
                self.wf(),
                n == self.line_starts@.len(),
                line < n,
                self.line_starts@[line as int] <= offset,
            decreases n - line,
        {
            line = line + 1;
        }
        proof {
            lemma_line_of_unique(self.starts(), offset as int, line as int);
        }
        let column = offset - self.line_starts[line];
        Position { byte_index: offset, line_index: line, column_index: column }
    }
}

/// `line_of` picks an index whose line start is at or before the offset
/// and whose successor (if any) is beyond it.
pub proof fn lemma_line_of_bounds(starts: Seq<usize>, off: int)
    requires
        1 <= starts.len(),
        starts[0] <= off,
        forall|i: int, j: int| 0 <= i < j < starts.len() ==> starts[i] < starts[j],
    ensures
        0 <= line_of(starts, off) < starts.len(),
        starts[line_of(starts, off)] <= off,
        line_of(starts, off) + 1 < starts.len() ==> off < starts[line_of(starts, off) + 1],
    decreases starts.len(),
{
    if starts.len() <= 1 {
    } else if off < starts[1] {
    } else {
        let tail = starts.subrange(1, starts.len() as int);
        lemma_line_of_bounds(tail, off);
    }
}

/// Any index satisfying that characterization is `line_of`.
pub proof fn lemma_line_of_unique(starts: Seq<usize>, off: int, i: int)
    requires
        1 <= starts.len(),
        starts[0] <= off,
        forall|a: int, b: int| 0 <= a < b < starts.len() ==> starts[a] < starts[b],
        0 <= i < starts.len(),
        starts[i] <= off,
        i + 1 < starts.len() ==> off < starts[i + 1],
    ensures
        i == line_of(starts, off),
{
    lemma_line_of_bounds(starts, off);
    let l = line_of(starts, off);
    if i < l {
        assert(starts[i + 1] <= starts[l]);
    } else if l < i {
        assert(starts[l + 1] <= starts[i]);
    }
}

} // verus!
