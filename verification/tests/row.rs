use typealong::row::DualRow;
use typealong::row_iterator::DiffPart;

#[test]
fn create_row() {
    let mut row = DualRow::from("Here is my row");
    row.push_char('a');
    row.push_char('b');

    assert_eq!(row.active(), String::from("ab"))
}

#[test]
fn active_part_capped_by_the_passive() {
    let mut row = DualRow::from("Hi");
    row.push_char('a');
    row.push_char('b');
    row.push_char('c');

    assert_eq!(row.active(), String::from("ab"))
}

#[test]
fn render_active_and_passive_parts() {
    let mut row = DualRow::from("Hello wørld");
    row.push_char('H');
    row.push_char('w');
    row.push_char('e');
    row.push_char('w');
    row.push_char('l');

    // cursor is in range
    assert_eq!(row.render(0, 12), String::from("Hwewl wørld"));
    assert_eq!(row.render(2, 9), String::from("ewl wør"));

    // cursor is before range start (only passive part captured)
    assert_eq!(row.render(6, 9), String::from("wør"));

    // cursor is after range (only active part captured)
    assert_eq!(row.render(0, 3), String::from("Hwe"));
}

#[test]
fn length_counts_characters() {
    assert_eq!(DualRow::from("Hello wørld").len(), 11);
    assert_eq!(DualRow::from("").len(), 0);
    assert_eq!(DualRow::from("здарова").len(), 7);
}

#[test]
fn row_of_multibyte_text_takes_as_many_characters_as_it_has() {
    let mut row = DualRow::from("øø");
    row.push_char('a');
    row.push_char('b');
    row.push_char('c');
    row.push_char('d');
    assert_eq!(row.active(), "ab");
    assert_eq!(row.passive(), "øø");
}

#[test]
fn erase_on_empty_row_changes_nothing() {
    let mut row = DualRow::from("abc");
    row.pop_char();
    assert_eq!(row.active(), "");
    assert_eq!(row.passive(), "abc");
    assert!(row.accepts());
    row.push_char('x');
    assert_eq!(row.active(), "x");
}

#[test]
fn erase_takes_the_last_character() {
    let mut row = DualRow::from("abc");
    row.push_char('x');
    row.push_char('y');
    row.pop_char();
    assert_eq!(row.active(), "x");
    row.pop_char();
    row.pop_char();
    assert_eq!(row.active(), "");
}

#[test]
fn typed_text_never_outgrows_the_reference() {
    let mut row = DualRow::from("abc");
    let edits = "tt-t-ttttt--t-tttt";
    for e in edits.chars() {
        if e == 't' {
            row.push_char('z');
        } else {
            row.pop_char();
        }
        assert!(row.active().chars().count() <= row.len());
    }
    assert_eq!(row.active(), "zzz");
    assert!(!row.accepts());
}

#[test]
fn render_of_an_empty_or_reversed_window_is_empty() {
    let mut row = DualRow::from("Hello");
    row.push_char('J');
    assert_eq!(row.render(3, 3), "");
    assert_eq!(row.render(4, 2), "");
    assert_eq!(row.render(7, 9), "");
    assert_eq!(row.render(0, 0), "");
}

#[test]
fn render_of_an_untyped_row_is_the_reference() {
    let row = DualRow::from("Hello");
    assert_eq!(row.render(0, 5), "Hello");
    assert_eq!(row.render(1, 100), "ello");
    assert_eq!(row.render(0, usize::MAX), "Hello");
}

#[test]
fn diff_parts_of_a_row() {
    let mut row = DualRow::from("hello");
    row.push_char('h');
    row.push_char('a');
    assert_eq!(
        row.diff_parts().to_vec(),
        vec![
            DiffPart::Match("h"),
            DiffPart::Mismatch("a"),
            DiffPart::Untouched("llo")
        ]
    );
}

#[test]
fn diff_parts_of_an_untyped_row() {
    let row = DualRow::from("hello");
    assert_eq!(row.diff_parts().to_vec(), vec![DiffPart::Untouched("hello")]);
    let empty = DualRow::from("");
    assert_eq!(empty.diff_parts().to_vec(), Vec::<DiffPart>::new());
}
