//! Cutting a pair of texts into runs of agreement and disagreement.

use vstd::prelude::*;
use vstd::string::StrSliceExecFns;

verus! {

/// One run of a comparison, as a sequence of characters.
pub enum Segment {
    /// Reference text that was typed correctly.
    Match(Seq<char>),
    /// Typed text that differs from the reference at every position.
    Mismatch(Seq<char>),
    /// Reference text that was not attempted yet.
    Untouched(Seq<char>),
}

impl Segment {
    /// The characters that the run quotes.
    pub open spec fn text(self) -> Seq<char> {
        match self {
            Segment::Match(s) => s,
            Segment::Mismatch(s) => s,
            Segment::Untouched(s) => s,
        }
    }
}

/// Number of positions at which both texts have a character.
pub open spec fn paired_len(reference: Seq<char>, typed: Seq<char>) -> int {
    if reference.len() <= typed.len() {
        reference.len() as int
    } else {
        typed.len() as int
    }
}

/// Whether the two texts hold the same character at position `i`.
pub open spec fn agree(reference: Seq<char>, typed: Seq<char>, i: int) -> bool {
    reference[i] == typed[i]
}

/// First position at or after `at` where the run that starts at `from`
/// stops: the end of the paired region, or the first pair that is classified
/// otherwise than the pair at `from`.
pub open spec fn run_end(reference: Seq<char>, typed: Seq<char>, from: int, at: int) -> int
    decreases paired_len(reference, typed) - at,
{
    if at >= paired_len(reference, typed) || agree(reference, typed, at) != agree(
        reference,
        typed,
        from,
    ) {
        at
    } else {
        run_end(reference, typed, from, at + 1)
    }
}

/// Position at which the segment that starts at `from` ends.
pub open spec fn segment_end(reference: Seq<char>, typed: Seq<char>, from: int) -> int {
    if 0 <= from < paired_len(reference, typed) {
        run_end(reference, typed, from, from + 1)
    } else if 0 <= from < reference.len() {
        reference.len() as int
    } else {
        from
    }
}

/// The segment that starts at `from`, if the reference reaches that far.
pub open spec fn segment_at(reference: Seq<char>, typed: Seq<char>, from: int) -> Option<Segment> {
    let end = segment_end(reference, typed, from);
    if 0 <= from < paired_len(reference, typed) {
        if agree(reference, typed, from) {
            Some(Segment::Match(reference.subrange(from, end)))
        } else {
            Some(Segment::Mismatch(typed.subrange(from, end)))
        }
    } else if 0 <= from < reference.len() {
        Some(Segment::Untouched(reference.subrange(from, end)))
    } else {
        None
    }
}

/// The segments from position `from` on, in order.
pub open spec fn segments_from(reference: Seq<char>, typed: Seq<char>, from: int) -> Seq<Segment>
    decreases reference.len() - from,
    when 0 <= from
    via segments_from_decreases
{
    match segment_at(reference, typed, from) {
        Some(part) => seq![part] + segments_from(
            reference,
            typed,
            segment_end(reference, typed, from),
        ),
        None => Seq::empty(),
    }
}

#[via_fn]
proof fn segments_from_decreases(reference: Seq<char>, typed: Seq<char>, from: int) {
    if 0 <= from < paired_len(reference, typed) {
        lemma_run_end_bounds(reference, typed, from, from + 1);
    }
}

/// The segments of a whole comparison.
pub open spec fn segments(reference: Seq<char>, typed: Seq<char>) -> Seq<Segment> {
    segments_from(reference, typed, 0)
}

/// A run ends no earlier than where its search began and inside the paired
/// region; every pair in between is classified as the pair at `from`, and the
/// pair at the end, if there is one, is not.
pub proof fn lemma_run_end_bounds(reference: Seq<char>, typed: Seq<char>, from: int, at: int)
    requires
        0 <= from < at <= paired_len(reference, typed),
    ensures
        at <= run_end(reference, typed, from, at) <= paired_len(reference, typed),
        forall|i: int|
            at <= i < run_end(reference, typed, from, at) ==> agree(reference, typed, i) == agree(
                reference,
                typed,
                from,
            ),
        run_end(reference, typed, from, at) < paired_len(reference, typed) ==> agree(
            reference,
            typed,
            run_end(reference, typed, from, at),
        ) != agree(reference, typed, from),
    decreases paired_len(reference, typed) - at,
{
    if at < paired_len(reference, typed) && agree(reference, typed, at) == agree(
        reference,
        typed,
        from,
    ) {
        lemma_run_end_bounds(reference, typed, from, at + 1);
    }
}

/// A segment that starts inside the reference is not empty and ends inside
/// the reference; one that starts inside the paired region ends inside it.
pub proof fn lemma_segment_end_bounds(reference: Seq<char>, typed: Seq<char>, from: int)
    requires
        0 <= from < reference.len(),
    ensures
        from < segment_end(reference, typed, from) <= reference.len(),
        from < paired_len(reference, typed) ==> segment_end(reference, typed, from) <= paired_len(
            reference,
            typed,
        ),
{
    if from < paired_len(reference, typed) {
        lemma_run_end_bounds(reference, typed, from, from + 1);
    }
}

/// What each kind of segment says of the two texts. A `Match` quotes a
/// stretch on which they are equal, a `Mismatch` a stretch on which they
/// differ at every position, and both stop only where the classification
/// changes or the paired region ends. An `Untouched` starts where the typed
/// text ends and runs to the end of the reference.
pub proof fn lemma_segment_meaning(reference: Seq<char>, typed: Seq<char>, from: int)
    requires
        0 <= from < reference.len(),
    ensures
        ({
            let end = segment_end(reference, typed, from);
            match segment_at(reference, typed, from) {
                Some(Segment::Match(s)) => {
                    &&& end <= paired_len(reference, typed)
                    &&& s == reference.subrange(from, end)
                    &&& s == typed.subrange(from, end)
                    &&& end < paired_len(reference, typed) ==> reference[end] != typed[end]
                },
                Some(Segment::Mismatch(s)) => {
                    &&& end <= paired_len(reference, typed)
                    &&& s == typed.subrange(from, end)
                    &&& forall|i: int| from <= i < end ==> reference[i] != typed[i]
                    &&& end < paired_len(reference, typed) ==> reference[end] == typed[end]
                },
                Some(Segment::Untouched(s)) => {
                    &&& typed.len() <= from
                    &&& end == reference.len()
                    &&& s == reference.subrange(from, end)
                },
                None => false,
            }
        }),
{
    let end = segment_end(reference, typed, from);
    if from < paired_len(reference, typed) {
        lemma_run_end_bounds(reference, typed, from, from + 1);
        assert forall|i: int| from <= i < end implies agree(reference, typed, i) == agree(
            reference,
            typed,
            from,
        ) by {}
        if agree(reference, typed, from) {
            assert forall|j: int| 0 <= j < end - from implies reference.subrange(from, end)[j]
                == typed.subrange(from, end)[j] by {
                assert(agree(reference, typed, from + j));
            }
        } else {
            assert forall|i: int| from <= i < end implies reference[i] != typed[i] by {
                assert(!agree(reference, typed, i));
            }
        }
    }
}

/// Total number of characters that the segments quote.
pub open spec fn covered_len(parts: Seq<Segment>) -> nat
    decreases parts.len(),
{
    if parts.len() == 0 {
        0
    } else {
        parts[0].text().len() + covered_len(parts.drop_first())
    }
}

/// The stretch of the reference that the segments stand for when the first
/// of them starts at `from`: a `Match` or an `Untouched` stands for the text
/// it quotes, a `Mismatch` for the reference at the positions of the typed
/// text it quotes.
pub open spec fn covered_text(parts: Seq<Segment>, reference: Seq<char>, from: int) -> Seq<char>
    decreases parts.len(),
{
    if parts.len() == 0 {
        Seq::empty()
    } else {
        let n = parts[0].text().len() as int;
        let head = match parts[0] {
            Segment::Mismatch(_) => reference.subrange(from, from + n),
            part => part.text(),
        };
        head + covered_text(parts.drop_first(), reference, from + n)
    }
}

/// The segments from `from` on are not empty and stand, in order and without
/// gap or overlap, for the reference from `from` to its end.
pub proof fn lemma_segments_from_cover(reference: Seq<char>, typed: Seq<char>, from: int)
    requires
        0 <= from <= reference.len(),
    ensures
        covered_len(segments_from(reference, typed, from)) == reference.len() - from,
        covered_text(segments_from(reference, typed, from), reference, from)
            == reference.subrange(from, reference.len() as int),
        forall|k: int|
            0 <= k < segments_from(reference, typed, from).len() ==> (#[trigger] segments_from(
                reference,
                typed,
                from,
            )[k]).text().len() > 0,
    decreases reference.len() - from,
{
    let parts = segments_from(reference, typed, from);
    if from < reference.len() {
        let end = segment_end(reference, typed, from);
        let rest = segments_from(reference, typed, end);
        lemma_segment_end_bounds(reference, typed, from);
        lemma_segment_meaning(reference, typed, from);
        lemma_segments_from_cover(reference, typed, end);
        assert(parts.drop_first() =~= rest);
        assert(reference.subrange(from, end) + reference.subrange(end, reference.len() as int)
            =~= reference.subrange(from, reference.len() as int));
    }
}

/// The segments of a comparison are not empty, their lengths add up to the
/// length of the reference, and the stretches of the reference they stand
/// for, put together in order, are the reference.
pub proof fn lemma_segments_reconstruct(reference: Seq<char>, typed: Seq<char>)
    ensures
        covered_len(segments(reference, typed)) == reference.len(),
        covered_text(segments(reference, typed), reference, 0) == reference,
        forall|k: int|
            0 <= k < segments(reference, typed).len() ==> (#[trigger] segments(
                reference,
                typed,
            )[k]).text().len() > 0,
{
    lemma_segments_from_cover(reference, typed, 0);
}

/// Whether two segments are of the same kind.
pub open spec fn same_kind(first: Segment, second: Segment) -> bool {
    match first {
        Segment::Match(_) => second is Match,
        Segment::Mismatch(_) => second is Mismatch,
        Segment::Untouched(_) => second is Untouched,
    }
}

/// Runs are as long as they can be: no two neighbours among the segments
/// from `from` on are of the same kind, and only the last of them can be
/// `Untouched`.
pub proof fn lemma_segments_from_alternate(reference: Seq<char>, typed: Seq<char>, from: int)
    requires
        0 <= from <= reference.len(),
    ensures
        forall|k: int|
            0 <= k < segments_from(reference, typed, from).len() - 1 ==> {
                &&& !same_kind(
                    #[trigger] segments_from(reference, typed, from)[k],
                    segments_from(reference, typed, from)[k + 1],
                )
                &&& !(segments_from(reference, typed, from)[k] is Untouched)
            },
    decreases reference.len() - from,
{
    if from < reference.len() {
        lemma_segment_end_bounds(reference, typed, from);
        lemma_segment_meaning(reference, typed, from);
        lemma_segments_from_alternate(reference, typed, segment_end(reference, typed, from));
    }
}

/// No two neighbours among the segments of a comparison are of the same
/// kind, and only the last of them can be `Untouched`.
pub proof fn lemma_segments_alternate(reference: Seq<char>, typed: Seq<char>)
    ensures
        forall|k: int|
            0 <= k < segments(reference, typed).len() - 1 ==> {
                &&& !same_kind(
                    #[trigger] segments(reference, typed)[k],
                    segments(reference, typed)[k + 1],
                )
                &&& !(segments(reference, typed)[k] is Untouched)
            },
{
    lemma_segments_from_alternate(reference, typed, 0);
}

/// With nothing typed, a reference that is not empty is one `Untouched`
/// segment.
pub proof fn lemma_segments_of_untyped(reference: Seq<char>)
    requires
        reference.len() > 0,
    ensures
        segments(reference, Seq::<char>::empty()) == seq![Segment::Untouched(reference)],
{
    let typed = Seq::<char>::empty();
    let end = reference.len() as int;
    assert(reference.subrange(0, end) =~= reference);
    assert(segments_from(reference, typed, end) =~= Seq::<Segment>::empty());
}

/// An empty reference has no segments, whatever was typed.
pub proof fn lemma_segments_of_empty(typed: Seq<char>)
    ensures
        segments(Seq::<char>::empty(), typed) == Seq::<Segment>::empty(),
{
}

/// One run of a comparison, quoting the text it was cut from.
#[derive(Debug, Clone, Copy, PartialEq)]
pub enum DiffPart<'a> {
    /// Reference text that was typed correctly.
    Match(&'a str),
    /// Typed text that differs from the reference at every position.
    Mismatch(&'a str),
    /// Reference text that was not attempted yet.
    Untouched(&'a str),
}

impl<'a> View for DiffPart<'a> {
    type V = Segment;

    open spec fn view(&self) -> Segment {
        match *self {
            DiffPart::Match(s) => Segment::Match(s@),
            DiffPart::Mismatch(s) => Segment::Mismatch(s@),
            DiffPart::Untouched(s) => Segment::Untouched(s@),
        }
    }
}

/// Producer of the segments of one comparison, one call at a time.
pub struct DiffParts<'a> {
    before: &'a str,
    after: &'a str,
    counter: usize,
}

impl<'a> DiffParts<'a> {
    /// The text that is compared against.
    pub closed spec fn reference(&self) -> Seq<char> {
        self.before@
    }

    /// The text that is compared.
    pub closed spec fn typed(&self) -> Seq<char> {
        self.after@
    }

    /// Number of characters of the reference that the segments handed out so
    /// far cover.
    pub closed spec fn offset(&self) -> int {
        self.counter as int
    }

    /// The segments that are still to come.
    pub open spec fn remaining(&self) -> Seq<Segment> {
        segments_from(self.reference(), self.typed(), self.offset())
    }

    /// Starts a comparison of `after`, the typed text, with `before`, the
    /// reference.
    pub fn new(before: &'a str, after: &'a str) -> (parts: Self)
        ensures
            parts.reference() == before@,
            parts.typed() == after@,
            parts.offset() == 0,
            parts.remaining() == segments(before@, after@),
    {
        Self { before, after, counter: 0 }
    }

    /// Hands out the next segment, or `None` once the reference is covered.
    pub fn next(&mut self) -> (part: Option<DiffPart<'a>>)
        ensures
            final(self).reference() == old(self).reference(),
            final(self).typed() == old(self).typed(),
            final(self).offset() == segment_end(
                old(self).reference(),
                old(self).typed(),
                old(self).offset(),
            ),
            part is Some == (old(self).offset() < old(self).reference().len()),
            match part {
                Some(p) => segment_at(old(self).reference(), old(self).typed(), old(self).offset())
                    == Some(p@),
                None => segment_at(old(self).reference(), old(self).typed(), old(self).offset())
                    is None,
            },
            match part {
                Some(p) => old(self).remaining() == seq![p@] + final(self).remaining(),
                None => old(self).remaining() == Seq::<Segment>::empty() && final(self).remaining()
                    == Seq::<Segment>::empty(),
            },
    {
        let before_len = self.before.unicode_len();
        let after_len = self.after.unicode_len();
        let paired = if before_len <= after_len {
            before_len
        } else {
            after_len
        };
        let start = self.counter;
        if start < paired {
            let same = self.before.get_char(start) == self.after.get_char(start);
            let mut end = start + 1;
            while end < paired && (self.before.get_char(end) == self.after.get_char(end)) == same
                invariant
                    start < end <= paired,
                    paired == paired_len(self.before@, self.after@),
                    same == agree(self.before@, self.after@, start as int),
                    run_end(self.before@, self.after@, start as int, end as int) == run_end(
                        self.before@,
                        self.after@,
                        start as int,
                        start + 1,
                    ),
                decreases paired - end,
            {
                end += 1;
            }
            self.counter = end;
            if same {
                Some(DiffPart::Match(self.before.substring_char(start, end)))
            } else {
                Some(DiffPart::Mismatch(self.after.substring_char(start, end)))
            }
        } else if start < before_len {
            self.counter = before_len;
            Some(DiffPart::Untouched(self.before.substring_char(start, before_len)))
        } else {
            None
        }
    }

    /// Hands out all the segments that are still to come.
    pub fn to_vec(self) -> (parts: Vec<DiffPart<'a>>)
        ensures
            parts@.map_values(|p: DiffPart<'a>| p@) == self.remaining(),
    {
        let mut producer = self;
        let mut parts: Vec<DiffPart<'a>> = Vec::new();
        loop
            invariant
                producer.reference() == self.reference(),
                producer.typed() == self.typed(),
                0 <= producer.offset(),
                parts@.map_values(|p: DiffPart<'a>| p@) + producer.remaining() == self.remaining(),
            decreases producer.reference().len() - producer.offset(),
        {
            let ghost before = producer;
            let ghost done = parts@.map_values(|p: DiffPart<'a>| p@);
            match producer.next() {
                Some(part) => {
                    proof {
                        lemma_segment_end_bounds(
                            before.reference(),
                            before.typed(),
                            before.offset(),
                        );
                    }
                    parts.push(part);
                    assert((done + seq![part@]) + producer.remaining() =~= done + (seq![part@]
                        + producer.remaining()));
                },
                None => {
                    return parts;
                },
            }
        }
    }
}

/// Two producers that stand at the same offset of the same two texts have
/// the same segments to come: what a comparison yields depends on the texts
/// alone.
pub proof fn lemma_same_texts_same_segments(first: DiffParts, second: DiffParts)
    requires
        first.reference() == second.reference(),
        first.typed() == second.typed(),
        first.offset() == second.offset(),
    ensures
        first.remaining() == second.remaining(),
{
}

} // verus!
