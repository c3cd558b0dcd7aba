//! A row of the document: the text to copy and what has been typed of it.

use crate::row_iterator::{segments, DiffParts};
use vstd::prelude::*;
use vstd::string::{StrSliceExecFns, StringExecFns};

verus! {

/// What a row holds, as sequences of characters.
pub struct RowModel {
    /// The text to copy; it never changes.
    pub reference: Seq<char>,
    /// What has been typed so far.
    pub typed: Seq<char>,
    /// Position in `typed` at which the next character goes.
    pub cursor: nat,
}

/// One edit of a row.
pub enum RowEdit {
    /// Typing a character.
    Type(char),
    /// Erasing the character typed last.
    Erase,
}

impl RowModel {
    /// The typed text never outgrows the reference, and the cursor stands
    /// at its end.
    pub open spec fn inv(self) -> bool {
        self.cursor == self.typed.len() && self.typed.len() <= self.reference.len()
    }

    /// A row on which nothing has been typed.
    pub open spec fn fresh(reference: Seq<char>) -> RowModel {
        RowModel { reference, typed: Seq::empty(), cursor: 0 }
    }

    /// Whether one more character can be typed.
    pub open spec fn accepts(self) -> bool {
        self.cursor < self.reference.len()
    }

    /// The row after typing `c`: it goes to the end of the typed text while
    /// the cursor is short of the reference's length, and is dropped
    /// otherwise.
    pub open spec fn type_char(self, c: char) -> RowModel {
        if self.accepts() {
            RowModel { typed: self.typed.push(c), cursor: self.cursor + 1, ..self }
        } else {
            self
        }
    }

    /// The row after erasing: the typed text loses its last character, if it
    /// has one, and the cursor steps back, but not below zero.
    pub open spec fn erase_char(self) -> RowModel {
        RowModel {
            typed: if self.typed.len() > 0 {
                self.typed.drop_last()
            } else {
                self.typed
            },
            cursor: if self.cursor > 0 {
                (self.cursor - 1) as nat
            } else {
                0
            },
            ..self
        }
    }

    /// The row after one edit.
    pub open spec fn edit(self, e: RowEdit) -> RowModel {
        match e {
            RowEdit::Type(c) => self.type_char(c),
            RowEdit::Erase => self.erase_char(),
        }
    }

    /// The row after a sequence of edits, first to last.
    pub open spec fn edit_all(self, edits: Seq<RowEdit>) -> RowModel
        decreases edits.len(),
    {
        if edits.len() == 0 {
            self
        } else {
            self.edit_all(edits.drop_last()).edit(edits.last())
        }
    }

    /// The row as it shows without colours: the typed text up to the cursor,
    /// then the reference from the cursor on.
    pub open spec fn shown(self) -> Seq<char> {
        self.typed.subrange(0, self.cursor as int) + self.reference.subrange(
            self.cursor as int,
            self.reference.len() as int,
        )
    }

    /// The window from `start` to `end` of the row as it shows, both cut
    /// down to the row's length; empty where `end` does not exceed `start`.
    pub open spec fn render(self, start: int, end: int) -> Seq<char> {
        let hi = if end <= self.reference.len() {
            end
        } else {
            self.reference.len() as int
        };
        let lo = if start <= hi {
            start
        } else {
            hi
        };
        self.shown().subrange(lo, hi)
    }
}

/// Whatever is typed and erased, in whatever order, the typed text never
/// outgrows the reference, the cursor stays at its end, and the reference
/// stays what it was.
pub proof fn lemma_edits_keep_invariant(row: RowModel, edits: Seq<RowEdit>)
    requires
        row.inv(),
    ensures
        row.edit_all(edits).inv(),
        row.edit_all(edits).typed.len() <= row.edit_all(edits).reference.len(),
        row.edit_all(edits).reference == row.reference,
    decreases edits.len(),
{
    if edits.len() > 0 {
        lemma_edits_keep_invariant(row, edits.drop_last());
    }
}

/// Erasing on a row with nothing typed changes nothing, and the cursor is
/// at zero.
pub proof fn lemma_erase_on_empty(row: RowModel)
    requires
        row.inv(),
        row.typed.len() == 0,
    ensures
        row.erase_char() == row,
        row.erase_char().cursor == 0,
{
}

/// The window of a row, by its two parts: the typed text from the window's
/// start, or from the cursor if that comes first, up to the cursor or the
/// window's end; then the reference from the cursor, or from the window's
/// start if that comes later, up to the window's end.
pub proof fn lemma_render_parts(row: RowModel, start: int, end: int)
    requires
        row.inv(),
        0 <= start,
        0 <= end,
    ensures
        ({
            let cursor = row.cursor as int;
            let hi = if end <= row.reference.len() {
                end
            } else {
                row.reference.len() as int
            };
            let lo = if start <= hi {
                start
            } else {
                hi
            };
            let typed_from = if lo <= cursor {
                lo
            } else {
                cursor
            };
            let typed_to = if cursor <= hi {
                cursor
            } else {
                hi
            };
            let reference_from = if cursor <= lo {
                lo
            } else {
                typed_to
            };
            row.render(start, end) == row.typed.subrange(typed_from, typed_to)
                + row.reference.subrange(reference_from, hi)
        }),
{
    let cursor = row.cursor as int;
    let hi = if end <= row.reference.len() {
        end
    } else {
        row.reference.len() as int
    };
    let lo = if start <= hi {
        start
    } else {
        hi
    };
    let typed_from = if lo <= cursor {
        lo
    } else {
        cursor
    };
    let typed_to = if cursor <= hi {
        cursor
    } else {
        hi
    };
    let reference_from = if cursor <= lo {
        lo
    } else {
        typed_to
    };
    assert(row.render(start, end) =~= row.typed.subrange(typed_from, typed_to)
        + row.reference.subrange(reference_from, hi));
}

/// One row: the reference text, the typed text and the cursor in it.
#[derive(Debug)]
pub struct DualRow {
    passive: String,
    active: String,
    length: usize,
    active_cursor: usize,
}

impl View for DualRow {
    type V = RowModel;

    closed spec fn view(&self) -> RowModel {
        RowModel {
            reference: self.passive@,
            typed: self.active@,
            cursor: self.active_cursor as nat,
        }
    }
}

impl Clone for DualRow {
    /// A row with the same reference, the same typed text and the same
    /// cursor.
    fn clone(&self) -> (row: Self)
        ensures
            row@ == self@,
            row.wf() == self.wf(),
    {
        DualRow {
            passive: self.passive.clone(),
            active: self.active.clone(),
            length: self.length,
            active_cursor: self.active_cursor,
        }
    }
}

impl vstd::std_specs::convert::FromSpecImpl<&str> for DualRow {
    open spec fn obeys_from_spec() -> bool {
        false
    }

    open spec fn from_spec(v: &str) -> Self {
        arbitrary()
    }
}

impl From<&str> for DualRow {
    /// A row with `slice` as its reference and nothing typed.
    fn from(slice: &str) -> (row: Self)
        ensures
            row.wf(),
            row@ == RowModel::fresh(slice@),
    {
        let length = slice.unicode_len();
        Self { passive: String::from_str(slice), active: String::new(), length, active_cursor: 0 }
    }
}

impl DualRow {
    /// The length that the row keeps for its reference.
    pub closed spec fn width(&self) -> nat {
        self.length as nat
    }

    /// The row is in a state that its own operations lead to.
    pub open spec fn wf(&self) -> bool {
        self@.inv() && self.width() == self@.reference.len()
    }

    /// The length of the reference of a row that is well formed is a
    /// number that the machine can hold.
    pub proof fn lemma_fits(&self)
        requires
            self.wf(),
        ensures
            self@.reference.len() <= usize::MAX,
    {
    }

    /// Whether one more character can be typed.
    pub fn accepts(&self) -> (b: bool)
        requires
            self.wf(),
        ensures
            b == self@.accepts(),
    {
        self.active_cursor < self.length
    }

    /// Types `c` at the cursor, unless the typed text has reached the
    /// reference's length already.
    pub fn push_char(&mut self, c: char)
        requires
            old(self).wf(),
        ensures
            final(self).wf(),
            final(self)@ == old(self)@.type_char(c),
            final(self)@.typed.len() <= final(self)@.reference.len(),
    {
        if self.active_cursor < self.length {
            self.active.push(c);
            self.active_cursor += 1;
        }
    }

    /// Erases the character typed last, if there is one.
    pub fn pop_char(&mut self)
        requires
            old(self).wf(),
        ensures
            final(self).wf(),
            final(self)@ == old(self)@.erase_char(),
            final(self)@.typed.len() <= final(self)@.reference.len(),
            old(self)@.typed.len() == 0 ==> final(self)@ == old(self)@ && final(self)@.cursor == 0,
    {
        self.active.pop();
        self.active_cursor = self.active_cursor.saturating_sub(1);
    }

    /// Length of the reference, in characters.
    pub fn len(&self) -> (n: usize)
        requires
            self.wf(),
        ensures
            n == self@.reference.len(),
    {
        self.length
    }

    /// The reference text.
    pub fn passive(&self) -> (text: &str)
        ensures
            text@ == self@.reference,
    {
        self.passive.as_str()
    }

    /// The typed text.
    pub fn active(&self) -> (text: &str)
        ensures
            text@ == self@.typed,
    {
        self.active.as_str()
    }

    /// The row without colours between the columns `start` and `end`: typed
    /// text before the cursor, reference text from the cursor on. Both
    /// columns are cut down to the row's length.
    pub fn render(&self, start: usize, end: usize) -> (out: String)
        requires
            self.wf(),
        ensures
            out@ == self@.render(start as int, end as int),
    {
        let end = self.length.min(end);
        let start = end.min(start);
        let active_start = self.active_cursor.min(start);
        let active_size = (self.active_cursor - active_start).min(end - start);
        let passive_start = self.active_cursor.max(start).min(end);
        let typed = self.active.as_str().substring_char(active_start, active_start + active_size);
        let rest = self.passive.as_str().substring_char(passive_start, end);
        let out = String::from_str(typed).concat(rest);
        out
    }

    /// The segments of the typed text against the reference, as they are now.
    pub fn diff_parts(&self) -> (parts: DiffParts<'_>)
        ensures
            parts.reference() == self@.reference,
            parts.typed() == self@.typed,
            parts.offset() == 0,
            parts.remaining() == segments(self@.reference, self@.typed),
    {
        DiffParts::new(self.passive.as_str(), self.active.as_str())
    }
}

} // verus!
