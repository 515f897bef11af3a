use details_table::cell::Cell;
use details_table::style::{TextStyle, Tint};

#[test]
fn painting_wraps_the_text_in_escape_codes() {
    let cell = Cell::paint(Tint::Red.bold(), "enoch");
    assert_eq!(cell.text, "\u{1b}[1;31menoch\u{1b}[0m");
    assert_eq!(cell.length, 5);
}

#[test]
fn plain_style_adds_no_codes() {
    let cell = Cell::paint(TextStyle::new(), "Name");
    assert_eq!(cell.text, "Name");
    assert_eq!(cell.length, 4);
}

#[test]
fn wide_characters_count_two_columns() {
    let cell = Cell::paint(TextStyle::new(), "日本");
    assert_eq!(cell.length, 4);
}

#[test]
fn spaces_and_appends_add_up() {
    let mut cell = Cell::empty();
    cell.append(&Cell::paint(Tint::Blue.normal(), "ab"));
    cell.add_spaces(3);
    cell.append(&Cell::paint(TextStyle::new(), "c"));
    assert_eq!(cell.text, "\u{1b}[34mab\u{1b}[0m   c");
    assert_eq!(cell.length, 6);
}
