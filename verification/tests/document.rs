use typealong::document::Document;

fn references(text: &str) -> Vec<String> {
    let document = Document::from_text(text);
    let mut rows = Vec::new();
    for i in 0..document.len() {
        let row = document.row(i).unwrap();
        assert_eq!(row.active(), "");
        rows.push(row.passive().to_string());
    }
    rows
}

#[test]
fn one_row_for_each_line() {
    assert_eq!(references("ab\ncdef"), vec!["ab", "cdef"]);
    assert_eq!(references("ab\ncdef\n"), vec!["ab", "cdef"]);
    assert_eq!(references("one"), vec!["one"]);
}

#[test]
fn empty_text_has_no_rows() {
    assert_eq!(references(""), Vec::<String>::new());
    assert_eq!(Document::from_text("").len(), 0);
}

#[test]
fn empty_lines_are_rows() {
    assert_eq!(references("\n"), vec![""]);
    assert_eq!(references("a\n\nb"), vec!["a", "", "b"]);
    assert_eq!(references("\n\n"), vec!["", ""]);
}

#[test]
fn carriage_return_before_line_feed_is_part_of_the_ending() {
    assert_eq!(references("ab\r\ncd\r\n"), vec!["ab", "cd"]);
    assert_eq!(references("\r\n"), vec![""]);
    assert_eq!(references("a\r\r\nb"), vec!["a\r", "b"]);
}

#[test]
fn carriage_return_without_line_feed_stays() {
    assert_eq!(references("ab\rcd"), vec!["ab\rcd"]);
    assert_eq!(references("ab\r"), vec!["ab\r"]);
    assert_eq!(references("x\ny\r"), vec!["x", "y\r"]);
}

#[test]
fn lines_are_split_as_the_standard_library_splits_them() {
    let texts = [
        "",
        "a",
        "a\n",
        "\n",
        "\r",
        "\r\n",
        "a\r\nb\n\nc\r",
        "grüße\r\nпес\n",
        "\n\r\n\r",
        "a\n\rb",
    ];
    for text in texts {
        let expected: Vec<String> = text.lines().map(String::from).collect();
        assert_eq!(references(text), expected);
    }
}

#[test]
fn row_access_stays_in_bounds() {
    let mut document = Document::from_text("ab\ncdef");
    assert_eq!(document.len(), 2);
    assert!(document.row(0).is_some());
    assert!(document.row(1).is_some());
    assert!(document.row(2).is_none());
    assert!(document.row_mut(1).is_some());
    assert!(document.row_mut(2).is_none());
    assert!(document.row(usize::MAX).is_none());
}

#[test]
fn row_len_is_zero_out_of_range() {
    let document = Document::from_text("ab\ncdef\nøre");
    assert_eq!(document.row_len(0), 2);
    assert_eq!(document.row_len(1), 4);
    assert_eq!(document.row_len(2), 3);
    assert_eq!(document.row_len(3), 0);
    assert_eq!(document.row_len(usize::MAX), 0);
}

#[test]
fn row_mut_edits_the_row_in_place() {
    let mut document = Document::from_text("ab\ncdef");
    document.row_mut(1).unwrap().push_char('c');
    document.row_mut(1).unwrap().push_char('x');
    assert_eq!(document.row(1).unwrap().active(), "cx");
    assert_eq!(document.row(0).unwrap().active(), "");
    assert_eq!(document.len(), 2);
    assert_eq!(document.row_len(1), 4);
}
