use typealong::config::{Color, Config};
use typealong::terminal::{screen_cell, Size};
use typealong::editor::Position;
use typealong::text::{digit_char, push_decimal};

fn one_of(code: &str, coloured: &str) {
    assert!(
        code == coloured || code == "\x1b[m",
        "unexpected sequence {:?}",
        code
    );
}

#[test]
fn default_colours() {
    let config = Config::default();
    one_of(&config.fg_color_default, "\x1b[39m");
    one_of(&config.bg_color_default, "\x1b[49m");
    one_of(&config.fg_color_match, "\x1b[38;2;38;161;104m");
    one_of(&config.fg_color_mismatch, "\x1b[38;2;216;101;99m");
    one_of(&config.fg_color_status_bar, "\x1b[38;2;239;239;239m");
    one_of(&config.bg_color_status_bar, "\x1b[48;2;63;63;63m");
}

#[test]
fn default_colours_are_all_plain_or_none() {
    let config = Config::default();
    let codes = [
        &config.fg_color_default,
        &config.bg_color_default,
        &config.fg_color_match,
        &config.fg_color_mismatch,
        &config.fg_color_status_bar,
        &config.bg_color_status_bar,
    ];
    let plain = codes.iter().filter(|code| code.as_str() == "\x1b[m").count();
    assert!(plain == 0 || plain == codes.len());
}

#[test]
fn colour_keeps_its_channels() {
    let Color::Rgb(r, g, b) = Color::Rgb(1, 2, 3);
    assert_eq!((r, g, b), (1, 2, 3));
}

#[test]
fn decimal_digits() {
    for d in 0..10u8 {
        assert_eq!(digit_char(d), char::from(b'0' + d));
    }
}

#[test]
fn numbers_in_decimal() {
    for n in [0usize, 1, 9, 10, 11, 99, 100, 101, 255, 1000, 65535, 1234567890, usize::MAX] {
        let mut out = String::from("n=");
        push_decimal(&mut out, n);
        assert_eq!(out, format!("n={}", n));
    }
}

#[test]
fn screen_without_the_reserved_lines() {
    let size = Size::of_screen(80, 24);
    assert_eq!((size.width, size.height), (80, 22));
    let size = Size::of_screen(0, 2);
    assert_eq!((size.width, size.height), (0, 0));
    let size = Size::of_screen(65535, 1);
    assert_eq!((size.width, size.height), (65535, 0));
    let size = Size::of_screen(1, 3);
    assert_eq!((size.width, size.height), (1, 1));
}

#[test]
fn screen_cells_count_from_one() {
    assert_eq!(screen_cell(Position::new(0, 0)), (1, 1));
    assert_eq!(screen_cell(Position::new(9, 4)), (10, 5));
    assert_eq!(screen_cell(Position::new(65534, 65535)), (65535, 0));
    assert_eq!(screen_cell(Position::new(65536, 70000)), (1, 4465));
    assert_eq!(screen_cell(Position::new(usize::MAX, 0)), (65535, 1));
}
