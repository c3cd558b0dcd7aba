//! The document: the rows of a text, one for each of its lines.

use crate::row::{DualRow, RowModel};
use vstd::prelude::*;

verus! {

/// First position at or after `from` that holds a line feed, or the length
/// of the text if there is none.
pub open spec fn line_end(text: Seq<char>, from: int) -> int
    decreases text.len() - from,
{
    if from >= text.len() || text[from] == '\n' {
        from
    } else {
        line_end(text, from + 1)
    }
}

/// The line that starts at `from`, without its ending: a line feed, or a
/// carriage return and a line feed. A carriage return that no line feed
/// follows belongs to the line.
pub open spec fn line_at(text: Seq<char>, from: int) -> Seq<char> {
    let end = line_end(text, from);
    if from < end < text.len() && text[end - 1] == '\r' {
        text.subrange(from, end - 1)
    } else {
        text.subrange(from, end)
    }
}

/// The lines of the text from position `from` on. A line ending at the very
/// end of the text starts no further line.
pub open spec fn lines_from(text: Seq<char>, from: int) -> Seq<Seq<char>>
    decreases text.len() + 1 - from,
    when 0 <= from
{
    if from >= text.len() {
        Seq::empty()
    } else {
        proof {
            lemma_line_end(text, from);
        }
        seq![line_at(text, from)] + lines_from(text, line_end(text, from) + 1)
    }
}

/// The lines of a text.
pub open spec fn lines(text: Seq<char>) -> Seq<Seq<char>> {
    lines_from(text, 0)
}

/// A line ends at or after its start and inside the text, no line feed
/// stands before its end, and one stands at its end unless the text ends
/// there.
pub proof fn lemma_line_end(text: Seq<char>, from: int)
    requires
        0 <= from,
    ensures
        from <= line_end(text, from),
        from <= text.len() ==> line_end(text, from) <= text.len(),
        forall|i: int| from <= i < line_end(text, from) ==> text[i] != '\n',
        line_end(text, from) < text.len() ==> text[line_end(text, from)] == '\n',
    decreases text.len() - from,
{
    if from < text.len() && text[from] != '\n' {
        lemma_line_end(text, from + 1);
    }
}

/// A stretch without a line feed lies inside one line: the line that starts
/// at `from` ends where the one searched from `at` ends.
pub proof fn lemma_line_end_skip(text: Seq<char>, from: int, at: int)
    requires
        0 <= from <= at <= text.len(),
        forall|i: int| from <= i < at ==> text[i] != '\n',
    ensures
        line_end(text, from) == line_end(text, at),
    decreases at - from,
{
    if from < at {
        lemma_line_end_skip(text, from + 1, at);
    }
}

/// The rows of a text, in the order of its lines.
pub struct Document {
    rows: Vec<DualRow>,
}

impl View for Document {
    type V = Seq<RowModel>;

    closed spec fn view(&self) -> Seq<RowModel> {
        Seq::new(self.rows@.len(), |i: int| self.rows@[i]@)
    }
}

impl Clone for Document {
    /// A document with the same rows.
    fn clone(&self) -> (document: Self)
        ensures
            document@ == self@,
            self.wf() ==> document.wf(),
    {
        let mut rows: Vec<DualRow> = Vec::new();
        let mut i: usize = 0;
        while i < self.rows.len()
            invariant
                i <= self.rows@.len(),
                rows@.len() == i,
                forall|k: int| 0 <= k < i ==> (#[trigger] rows@[k])@ == self.rows@[k]@,
                forall|k: int| 0 <= k < i ==> (#[trigger] rows@[k]).wf() == self.rows@[k].wf(),
            decreases self.rows@.len() - i,
        {
            rows.push(self.rows[i].clone());
            i += 1;
        }
        let document = Document { rows };
        document
    }
}

impl Document {
    /// Every row is in a state that its own operations lead to.
    pub closed spec fn wf(&self) -> bool {
        forall|i: int| 0 <= i < self.rows@.len() ==> (#[trigger] self.rows@[i]).wf()
    }

    /// Length of the reference of row `index`; 0 where there is no such row.
    pub open spec fn spec_row_len(&self, index: int) -> nat {
        if 0 <= index < self@.len() {
            self@[index].reference.len()
        } else {
            0
        }
    }

    /// In a document that is well formed, every row keeps its invariant.
    pub proof fn lemma_rows_inv(&self)
        requires
            self.wf(),
        ensures
            forall|i: int| 0 <= i < self@.len() ==> (#[trigger] self@[i]).inv(),
    {
    }

    /// The document of a text: one row for each of its lines, in order,
    /// with the line as its reference and nothing typed.
    pub fn from_text(text: &str) -> (doc: Self)
        ensures
            doc.wf(),
            doc@ == lines(text@).map_values(|line: Seq<char>| RowModel::fresh(line)),
    {
        let mut rows: Vec<DualRow> = Vec::new();
        let mut line = String::new();
        let mut pending = false;
        let mut after_return = false;
        let ghost mut start: int = 0;
        for c in it: text.chars()
            invariant
                it.seq() == text@,
                0 <= start <= it.index() <= text@.len(),
                pending == (start < it.index()),
                after_return == (start < it.index() && text@[it.index() - 1] == '\r'),
                line@ == text@.subrange(start, it.index() as int),
                forall|i: int| start <= i < it.index() ==> text@[i] != '\n',
                forall|k: int| 0 <= k < rows@.len() ==> (#[trigger] rows@[k]).wf(),
                Seq::new(rows@.len(), |k: int| rows@[k]@) + lines_from(text@, start).map_values(
                    |line: Seq<char>| RowModel::fresh(line),
                ) == lines(text@).map_values(|line: Seq<char>| RowModel::fresh(line)),
        {
            let ghost at = it.index() as int;
            if c == '\n' {
                if after_return {
                    line.pop();
                }
                let row = DualRow::from(line.as_str());
                proof {
                    lemma_line_end_skip(text@, start, at);
                    assert(line@ =~= line_at(text@, start));
                    let rest = lines_from(text@, at + 1).map_values(
                        |line: Seq<char>| RowModel::fresh(line),
                    );
                    assert(lines_from(text@, start).map_values(
                        |line: Seq<char>| RowModel::fresh(line),
                    ) =~= seq![row@] + rest);
                }
                rows.push(row);
                line = String::new();
                pending = false;
                after_return = false;
                proof {
                    start = at + 1;
                }
            } else {
                line.push(c);
                pending = true;
                after_return = c == '\r';
            }
        }
        if pending {
            let ghost end = text@.len() as int;
            let row = DualRow::from(line.as_str());
            proof {
                lemma_line_end_skip(text@, start, end);
                assert(lines_from(text@, end + 1) =~= Seq::<Seq<char>>::empty());
                assert(lines_from(text@, start).map_values(
                    |line: Seq<char>| RowModel::fresh(line),
                ) =~= seq![row@]);
            }
            rows.push(row);
        } else {
            assert(lines_from(text@, start).map_values(|line: Seq<char>| RowModel::fresh(line))
                =~= Seq::<RowModel>::empty());
            assert(Seq::new(rows@.len(), |k: int| rows@[k]@) + Seq::<RowModel>::empty() =~= Seq::new(
                rows@.len(),
                |k: int| rows@[k]@,
            ));
        }
        Document { rows }
    }

    /// In a document that is well formed, the length of every reference
    /// is a number that the machine can hold.
    pub proof fn lemma_rows_fit(&self)
        requires
            self.wf(),
        ensures
            self@.len() <= usize::MAX,
            forall|i: int| 0 <= i < self@.len() ==> (#[trigger] self@[i]).reference.len() <= usize::MAX,
    {
        assert(self.rows@.len() == self.rows.len());
        assert forall|i: int| 0 <= i < self@.len() implies (#[trigger] self@[i]).reference.len()
            <= usize::MAX by {
            self.rows@[i].lemma_fits();
        }
    }

    /// The row at `index`, if there is one.
    pub fn row(&self, index: usize) -> (row: Option<&DualRow>)
        requires
            self.wf(),
        ensures
            row is Some == (index < self@.len()),
            match row {
                Some(r) => r.wf() && r@ == self@[index as int],
                None => true,
            },
    {
        if index < self.rows.len() {
            Some(&self.rows[index])
        } else {
            None
        }
    }

    /// The row at `index`, to be edited, if there is one.
    pub fn row_mut(&mut self, index: usize) -> (row: Option<&mut DualRow>)
        requires
            old(self).wf(),
        ensures
            row is Some == (index < old(self)@.len()),
            match row {
                Some(r) => {
                    &&& r.wf()
                    &&& r@ == old(self)@[index as int]
                    &&& final(self)@ == old(self)@.update(index as int, final(r)@)
                    &&& final(r).wf() ==> final(self).wf()
                },
                None => final(self)@ == old(self)@ && final(self).wf(),
            },
    {
        if index < self.rows.len() {
            Some(&mut self.rows[index])
        } else {
            None
        }
    }

    /// Length of the reference of the row at `index`; 0 where there is no
    /// such row.
    pub fn row_len(&self, index: usize) -> (n: usize)
        requires
            self.wf(),
        ensures
            n == self.spec_row_len(index as int),
    {
        match self.row(index) {
            Some(row) => row.len(),
            None => 0,
        }
    }

    /// Number of rows.
    pub fn len(&self) -> (n: usize)
        ensures
            n == self@.len(),
    {
        self.rows.len()
    }
}

} // verus!
