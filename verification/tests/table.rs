use details_table::cell::Cell;
use details_table::colours::Colours;
use details_table::column::{Column, SizeFormat, TimeType};
use details_table::fields::Attribute;
use details_table::identities::Identities;
use details_table::numbers::Numeric;
use details_table::style::{TextStyle, Tint};
use details_table::table::{Environment, Row, Table};
use details_table::time::{TimeLocale, Zone};

fn environment() -> Environment {
    Environment {
        time: TimeLocale::english(),
        numeric: Numeric { decimal_sep: ".".to_string(), thousands_sep: ",".to_string() },
        tz: Zone::utc(),
        users: Identities::with_current_uid(0),
        current_year: 2015,
    }
}

fn table(columns: Vec<Column>) -> Table {
    Table::with_options(Colours::plain(), columns, environment())
}

fn plain(text: &str) -> Cell {
    Cell::paint(TextStyle::new(), text)
}

fn texts(cells: &[Cell]) -> Vec<&str> {
    cells.iter().map(|c| c.text.as_str()).collect()
}

#[test]
fn with_options_starts_empty() {
    let t = table(vec![Column::Inode, Column::User]);
    assert_eq!(t.columns, vec![Column::Inode, Column::User]);
    assert!(t.rows.is_empty());
    assert_eq!(t.current_year, 2015);
    assert_eq!(t.colours, Colours::plain());
    assert_eq!(t.print_table(), vec![]);
}

#[test]
fn default_table() {
    let t = Table::default();
    assert_eq!(
        t.columns,
        vec![
            Column::Permissions,
            Column::FileSize(SizeFormat::DecimalBytes),
            Column::User,
            Column::Timestamp(TimeType::FileModified),
        ]
    );
    assert!(t.rows.is_empty());
    assert_eq!(t.current_year, 1234);
    assert_eq!(t.numeric.decimal_sep, ".");
    assert_eq!(t.numeric.thousands_sep, ",");
    assert_eq!(t.time.months.len(), 12);
    assert_eq!(t.time.months[0], "Jan");
    assert_eq!(t.time.months[8], "Sep");
    assert_eq!(t.time.months[11], "Dec");
    assert_eq!(t.tz, Zone::utc());
    assert_eq!(t.users, Identities::with_current_uid(0));
    assert_eq!(t.colours, Colours::plain());
}

#[test]
fn header_names_the_columns() {
    let mut t = table(vec![
        Column::Permissions,
        Column::FileSize(SizeFormat::JustBytes),
        Column::Timestamp(TimeType::FileModified),
        Column::Timestamp(TimeType::FileCreated),
        Column::Timestamp(TimeType::FileAccessed),
        Column::Blocks,
        Column::User,
        Column::Group,
        Column::HardLinks,
        Column::Inode,
        Column::GitStatus,
    ]);
    t.colours.header = TextStyle::new().underline();
    t.add_header();
    assert_eq!(t.rows.len(), 1);
    let row = &t.rows[0];
    assert_eq!(row.depth, 0);
    assert!(!row.last);
    assert_eq!(row.name, Cell::paint(TextStyle::new().underline(), "Name"));
    assert_eq!(row.name.text, "\u{1b}[4mName\u{1b}[0m");
    let labels = [
        "Permissions",
        "Size",
        "Date Modified",
        "Date Created",
        "Date Accessed",
        "Blocks",
        "User",
        "Group",
        "Links",
        "inode",
        "Git",
    ];
    let cells = row.cells.as_ref().unwrap();
    assert_eq!(cells.len(), labels.len());
    for (cell, label) in cells.iter().zip(labels.iter()) {
        assert_eq!(*cell, Cell::paint(TextStyle::new().underline(), label));
    }
}

#[test]
fn header_goes_before_rows_that_are_there() {
    let mut t = table(vec![Column::User]);
    t.add_file_with_cells(vec![plain("ben")], plain("a"), 0, true);
    t.add_header();
    assert_eq!(t.rows.len(), 2);
    assert_eq!(t.rows[0].name.text, "Name");
    assert_eq!(t.rows[1].name.text, "a");
    assert_eq!(texts(&t.print_table()), vec!["User Name", "ben  a"]);
}

#[test]
fn file_row_is_kept_as_given() {
    let mut t = table(vec![Column::User]);
    t.add_file_with_cells(vec![plain("ben")], plain("src"), 3, true);
    assert_eq!(
        t.rows,
        vec![Row { cells: Some(vec![plain("ben")]), name: plain("src"), depth: 3, last: true }]
    );
}

#[test]
fn attribute_row() {
    let mut t = table(vec![Column::User]);
    t.colours.perms.attribute = Tint::Green.normal();
    t.add_xattr(Attribute { name: "greeting".to_string(), size: 5 }, 1, true);
    assert_eq!(
        t.rows,
        vec![Row {
            cells: None,
            name: Cell::paint(Tint::Green.normal(), "greeting (len 5)"),
            depth: 1,
            last: true,
        }]
    );
    t.add_xattr(Attribute { name: "big".to_string(), size: 1234567 }, 2, false);
    assert_eq!(t.rows[1].name, Cell::paint(Tint::Green.normal(), "big (len 1234567)"));
    t.add_xattr(Attribute { name: "".to_string(), size: 0 }, 2, false);
    assert_eq!(t.rows[2].name.text, "\u{1b}[32m (len 0)\u{1b}[0m");
}

#[test]
fn error_rows() {
    let mut t = table(vec![Column::User]);
    t.colours.broken_arrow = Tint::Red.normal();
    t.add_error("Permission denied (os error 13)", 1, true, None);
    t.add_error("No such file", 2, false, Some("/tmp/gone".to_string()));
    assert_eq!(
        t.rows,
        vec![
            Row {
                cells: None,
                name: Cell::paint(Tint::Red.normal(), "<Permission denied (os error 13)>"),
                depth: 1,
                last: true,
            },
            Row {
                cells: None,
                name: Cell::paint(Tint::Red.normal(), "</tmp/gone: No such file>"),
                depth: 2,
                last: false,
            },
        ]
    );
}

#[test]
fn columns_are_as_wide_as_their_widest_cell() {
    let mut t = table(vec![
        Column::Permissions,
        Column::FileSize(SizeFormat::DecimalBytes),
        Column::User,
    ]);
    t.add_file_with_cells(
        vec![plain(".rw-r--r--"), plain("9.6k"), plain("ben")],
        plain("Cargo.lock"),
        0,
        false,
    );
    t.add_file_with_cells(
        vec![plain(".rw-r--r--@"), plain("547"), plain("b")],
        plain("Cargo.toml"),
        0,
        false,
    );
    t.add_file_with_cells(
        vec![plain("drwxr-xr-x"), plain("-"), plain("benjamin")],
        plain("src"),
        0,
        true,
    );
    let lines = t.print_table();
    assert_eq!(
        texts(&lines),
        vec![
            ".rw-r--r--  9.6k ben      Cargo.lock",
            ".rw-r--r--@  547 b        Cargo.toml",
            "drwxr-xr-x     - benjamin src",
        ]
    );
    assert_eq!(lines[0].length, 26 + 10);
    assert_eq!(lines[1].length, 26 + 10);
    assert_eq!(lines[2].length, 26 + 3);
}

#[test]
fn rows_without_cells_leave_the_columns_blank_and_do_not_widen_them() {
    let mut t = table(vec![Column::User, Column::Inode]);
    t.add_file_with_cells(vec![plain("ben"), plain("7")], plain("forbidden"), 0, true);
    t.add_error("a very long message that is wider than any column", 1, true, None);
    let lines = t.print_table();
    assert_eq!(
        texts(&lines),
        vec![
            "ben 7 forbidden",
            "      └── <a very long message that is wider than any column>",
        ]
    );
    assert_eq!(lines[0].length, 6 + 9);
    assert_eq!(lines[1].length, 6 + 5 + 51);
}

#[test]
fn a_table_of_rows_without_cells() {
    let mut t = table(vec![Column::User, Column::Inode]);
    t.add_xattr(Attribute { name: "a".to_string(), size: 1 }, 0, false);
    assert_eq!(texts(&t.print_table()), vec!["  a (len 1)"]);
}

#[test]
fn a_table_without_columns_is_a_tree() {
    let mut t = table(vec![]);
    t.colours.punctuation = Tint::Fixed(244).normal();
    t.add_file_with_cells(vec![], plain("documents"), 0, false);
    t.add_file_with_cells(vec![], plain("this_file.txt"), 1, false);
    t.add_file_with_cells(vec![], plain("features"), 1, false);
    t.add_file_with_cells(vec![], plain("feature_1.rs"), 2, true);
    t.add_file_with_cells(vec![], plain("pictures"), 1, true);
    t.add_file_with_cells(vec![], plain("garden.jpg"), 2, true);
    let lines = t.print_table();
    let p = |s: &str| format!("\u{1b}[38;5;244m{}\u{1b}[0m", s);
    assert_eq!(
        texts(&lines),
        vec![
            "documents".to_string(),
            format!("{} this_file.txt", p("├──")),
            format!("{} features", p("├──")),
            format!("{}{} feature_1.rs", p("│  "), p("└──")),
            format!("{} pictures", p("└──")),
            format!("{}{} garden.jpg", p("   "), p("└──")),
        ]
    );
    assert_eq!(lines[0].length, 9);
    assert_eq!(lines[1].length, 4 + 1 + 13);
    assert_eq!(lines[3].length, 8 + 1 + 12);
}

#[test]
fn styled_cells_are_padded_by_their_width_not_their_text() {
    let mut t = table(vec![Column::User, Column::Inode]);
    t.add_file_with_cells(
        vec![Cell::paint(Tint::Yellow.bold(), "ben"), Cell::paint(Tint::Purple.normal(), "12")],
        plain("a"),
        0,
        false,
    );
    t.add_file_with_cells(vec![plain("root"), plain("3")], plain("b"), 0, true);
    assert_eq!(
        texts(&t.print_table()),
        vec!["\u{1b}[1;33mben\u{1b}[0m  \u{1b}[35m12\u{1b}[0m a", "root  3 b"]
    );
}

#[test]
fn printing_twice_gives_the_same_lines_and_leaves_the_table() {
    let mut t = table(vec![Column::User]);
    t.add_header();
    t.add_file_with_cells(vec![plain("ben")], plain("a"), 0, false);
    t.add_file_with_cells(vec![plain("b")], plain("dir"), 0, true);
    t.add_file_with_cells(vec![plain("benjamin")], plain("c"), 1, true);
    let rows = t.rows.clone();
    let first = t.print_table();
    let second = t.print_table();
    assert_eq!(first, second);
    assert_eq!(t.rows, rows);
    assert_eq!(
        texts(&first),
        vec!["User     Name", "ben      a", "b        dir", "benjamin └── c"]
    );
}

#[test]
fn try_print_prints_what_print_table_prints() {
    let mut t = table(vec![Column::User]);
    t.add_file_with_cells(vec![plain("ben")], plain("a"), 0, true);
    assert_eq!(t.try_print(), Some(t.print_table()));
}

#[test]
fn try_print_refuses_a_row_with_too_few_cells() {
    let mut t = table(vec![Column::User, Column::Inode]);
    t.add_file_with_cells(vec![plain("ben")], plain("a"), 0, true);
    assert_eq!(t.try_print(), None);
}

#[test]
fn try_print_refuses_a_row_with_too_many_cells() {
    let mut t = table(vec![Column::User]);
    t.add_file_with_cells(vec![plain("ben"), plain("1")], plain("a"), 0, true);
    assert_eq!(t.try_print(), None);
}

#[test]
fn try_print_refuses_widths_that_cannot_be_counted() {
    let mut t = table(vec![Column::User]);
    t.add_file_with_cells(
        vec![Cell { text: "x".to_string(), length: usize::MAX }],
        plain("a"),
        0,
        true,
    );
    assert_eq!(t.try_print(), None);

    let mut t = table(vec![Column::User]);
    t.add_file_with_cells(
        vec![plain("ben")],
        Cell { text: "a".to_string(), length: usize::MAX - 3 },
        0,
        true,
    );
    assert_eq!(t.try_print(), None);

    let mut t = table(vec![Column::User]);
    t.add_file_with_cells(
        vec![plain("ben")],
        Cell { text: "a".to_string(), length: usize::MAX - 4 },
        0,
        true,
    );
    let lines = t.try_print().unwrap();
    assert_eq!(lines[0].length, usize::MAX);

    let mut t = table(vec![]);
    t.add_file_with_cells(vec![], plain("a"), usize::MAX / 4 + 1, true);
    assert_eq!(t.try_print(), None);
}

#[test]
fn row_column_width() {
    let with = Row {
        cells: Some(vec![plain("ab"), plain("日本語")]),
        name: plain("n"),
        depth: 0,
        last: false,
    };
    assert_eq!(with.column_width(0), 2);
    assert_eq!(with.column_width(1), 6);
    let without = Row { cells: None, name: plain("n"), depth: 0, last: false };
    assert_eq!(without.column_width(0), 0);
    assert_eq!(without.column_width(7), 0);
}

#[test]
fn rows_below_one_another() {
    let mut t = table(vec![Column::User]);
    t.add_file_with_cells(vec![plain("ben")], plain("file_with_xattrs"), 0, true);
    t.add_xattrs(
        &vec![
            Attribute { name: "another_greeting".to_string(), size: 2 },
            Attribute { name: "greeting".to_string(), size: 5 },
        ],
        1,
        true,
    );
    assert_eq!(
        texts(&t.print_table()),
        vec![
            "ben file_with_xattrs",
            "    ├── another_greeting (len 2)",
            "    └── greeting (len 5)",
        ]
    );
}
