use typealong::row_iterator::{DiffPart, DiffParts};

fn diff_parts<'a>(before: &'a str, after: &'a str) -> Vec<DiffPart<'a>> {
    let mut intervals = Vec::with_capacity(before.len());
    let mut substrings = DiffParts::new(before, after);
    while let Some(result) = substrings.next() {
        intervals.push(result);
    }
    intervals
}

#[test]
fn before_and_after_are_equal_size() {
    let before = "hello kitty, its me mario";
    let after = "helwo kitty, its me   rio";
    let parts = diff_parts(before, after);
    assert_eq!(
        &parts,
        &[
            DiffPart::Match("hel"),
            DiffPart::Mismatch("w"),
            DiffPart::Match("o kitty, its me "),
            DiffPart::Mismatch("  "),
            DiffPart::Match("rio")
        ]
    )
}

#[test]
fn before_and_after_are_equal_size_utf8() {
    let before = "здарова пес";
    let after = "здорова ";
    let parts = diff_parts(before, after);
    assert_eq!(
        &parts,
        &[
            DiffPart::Match("зд"),
            DiffPart::Mismatch("о"),
            DiffPart::Match("рова "),
            // the space was typed and belongs to the match: the untouched
            // part starts where the typed text ends
            DiffPart::Untouched("пес")
        ]
    )
}

#[test]
fn no_after_string() {
    let before = "hello kitty";
    let after = "";
    let parts = diff_parts(before, after);
    assert_eq!(&parts, &[DiffPart::Untouched("hello kitty"),])
}

#[test]
fn after_string_is_smaller() {
    let before = "hello kitty, its me mario";
    let after = "helwo kitty,";
    let parts = diff_parts(before, after);
    assert_eq!(
        &parts,
        &[
            DiffPart::Match("hel"),
            DiffPart::Mismatch("w"),
            DiffPart::Match("o kitty,"),
            DiffPart::Untouched(" its me mario"),
        ]
    )
}

#[test]
fn whole_match_is_one_segment() {
    assert_eq!(&diff_parts("kitty", "kitty"), &[DiffPart::Match("kitty")]);
}

#[test]
fn empty_reference_has_no_segments() {
    assert_eq!(diff_parts("", ""), Vec::<DiffPart>::new());
    assert_eq!(diff_parts("", "abc"), Vec::<DiffPart>::new());
}

#[test]
fn whole_mismatch_is_one_segment() {
    assert_eq!(&diff_parts("abc", "xyz"), &[DiffPart::Mismatch("xyz")]);
}

#[test]
fn typed_text_beyond_the_reference_is_left_out() {
    assert_eq!(
        &diff_parts("ab", "axcd"),
        &[DiffPart::Match("a"), DiffPart::Mismatch("x")]
    );
}

#[test]
fn next_keeps_returning_none_at_the_end() {
    let mut parts = DiffParts::new("ab", "a");
    assert_eq!(parts.next(), Some(DiffPart::Match("a")));
    assert_eq!(parts.next(), Some(DiffPart::Untouched("b")));
    assert_eq!(parts.next(), None);
    assert_eq!(parts.next(), None);
}

#[test]
fn to_vec_hands_out_what_is_left() {
    let mut parts = DiffParts::new("hello", "hxl");
    assert_eq!(parts.next(), Some(DiffPart::Match("h")));
    assert_eq!(
        parts.to_vec(),
        vec![
            DiffPart::Mismatch("x"),
            DiffPart::Match("l"),
            DiffPart::Untouched("lo")
        ]
    );
}

#[test]
fn two_comparisons_of_the_same_texts_agree() {
    let first = diff_parts("hello kitty", "hexlo");
    let second = diff_parts("hello kitty", "hexlo");
    assert_eq!(first, second);
}

#[test]
fn segments_rebuild_the_reference() {
    let before = "grüße aus Köln, wie geht's";
    let after = "grusse aus Koln";
    let mut offset = 0;
    let mut rebuilt = String::new();
    let reference: Vec<char> = before.chars().collect();
    for part in diff_parts(before, after) {
        let size = match part {
            DiffPart::Match(s) | DiffPart::Untouched(s) => {
                rebuilt.push_str(s);
                s.chars().count()
            }
            DiffPart::Mismatch(s) => {
                let size = s.chars().count();
                rebuilt.extend(reference[offset..offset + size].iter());
                size
            }
        };
        assert!(size > 0);
        offset += size;
    }
    assert_eq!(offset, reference.len());
    assert_eq!(rebuilt, before);
}

#[test]
fn multibyte_mismatch_quotes_the_typed_text() {
    assert_eq!(
        &diff_parts("aøb", "aob"),
        &[
            DiffPart::Match("a"),
            DiffPart::Mismatch("o"),
            DiffPart::Match("b")
        ]
    );
}
