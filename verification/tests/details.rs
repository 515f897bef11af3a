use details_table::cell::Cell;
use details_table::colours::Colours;
use details_table::column::{Column, SizeFormat};
use details_table::details::{levels, Details, Egg, Listing, RecurseOptions};
use details_table::fields::{
    Attribute, Blocks, FileFields, Git, GitStatus, Group, Inode, Links, Permissions, Problem,
    Size, Time, Type, User,
};
use details_table::style::{TextStyle, Tint};
use details_table::table::{Row, Table};

fn plain(text: &str) -> Cell {
    Cell::paint(TextStyle::new(), text)
}

fn details() -> Details {
    Details { recurse: None, header: false, xattr: true, colours: Colours::plain() }
}

fn egg(key: u64, name: &str) -> Egg {
    Egg {
        key,
        cells: vec![plain("ben")],
        name: plain(name),
        xattrs: vec![],
        errors: vec![],
        dir: None,
    }
}

fn table() -> Table {
    let mut table = Table::default();
    table.columns = vec![Column::User];
    table
}

fn shape(table: &Table) -> Vec<(String, usize, bool, bool)> {
    table
        .rows
        .iter()
        .map(|r| (r.name.text.clone(), r.depth, r.last, r.cells.is_some()))
        .collect()
}

fn row(name: &str, depth: usize, last: bool, cells: bool) -> (String, usize, bool, bool) {
    (name.to_string(), depth, last, cells)
}

#[test]
fn three_siblings() {
    let batch = || {
        let mut a = egg(0, "a.txt");
        a.xattrs = vec![Attribute { name: "tag".to_string(), size: 3 }];
        let b = egg(1, "b.txt");
        let mut c = egg(2, "c.txt");
        c.name = Cell::paint(Tint::Red.normal(), "<Permission denied (os error 13)>");
        vec![b, a, c]
    };

    let mut t = table();
    t.add_header();
    details().add_files_to_table(&mut t, &batch(), 0);
    assert_eq!(
        shape(&t),
        vec![
            row("Name", 0, false, true),
            row("a.txt", 0, false, true),
            row("tag (len 3)", 1, true, false),
            row("b.txt", 0, false, true),
            row("\u{1b}[31m<Permission denied (os error 13)>\u{1b}[0m", 0, true, true),
        ]
    );

    let mut view = details();
    view.header = true;
    let lines = view.view(table(), &batch()).unwrap();
    let texts: Vec<&str> = lines.iter().map(|l| l.text.as_str()).collect();
    assert_eq!(
        texts,
        vec![
            "User Name",
            "ben  a.txt",
            "     └── tag (len 3)",
            "ben  b.txt",
            "ben  \u{1b}[31m<Permission denied (os error 13)>\u{1b}[0m",
        ]
    );
}

#[test]
fn two_levels() {
    let mut sub = egg(1, "sub");
    sub.dir = Some(Listing { files: vec![egg(0, "y.txt")], errors: vec![] });
    let mut docs = egg(0, "docs");
    docs.dir = Some(Listing { files: vec![sub, egg(0, "x.txt")], errors: vec![] });

    let mut t = table();
    details().add_files_to_table(&mut t, &vec![docs], 0);
    let depths: Vec<usize> = t.rows.iter().map(|r| r.depth).collect();
    assert_eq!(depths, vec![0, 1, 1, 2]);
    assert_eq!(t.rows[0].name.text, "docs");
    assert_eq!(
        shape(&t)[1..],
        vec![
            row("x.txt", 1, false, true),
            row("sub", 1, true, true),
            row("y.txt", 2, true, true),
        ]
    );
    let lines = t.print_table();
    let texts: Vec<&str> = lines.iter().map(|l| l.text.as_str()).collect();
    assert_eq!(
        texts,
        vec!["ben docs", "ben ├── x.txt", "ben └── sub", "ben    └── y.txt"]
    );
}

#[test]
fn two_levels_below_a_root_that_is_not_last() {
    let mut sub = egg(1, "sub");
    sub.dir = Some(Listing { files: vec![egg(0, "y.txt")], errors: vec![] });
    let mut docs = egg(0, "docs");
    docs.dir = Some(Listing { files: vec![egg(0, "x.txt"), sub], errors: vec![] });
    let mut t = table();
    details().add_files_to_table(&mut t, &vec![docs, egg(1, "more")], 0);
    let lasts: Vec<bool> = t.rows.iter().take(4).map(|r| r.last).collect();
    assert_eq!(lasts, vec![false, false, true, true]);
    assert_eq!(
        shape(&t),
        vec![
            row("docs", 0, false, true),
            row("x.txt", 1, false, true),
            row("sub", 1, true, true),
            row("y.txt", 2, true, true),
            row("more", 0, true, true),
        ]
    );
}

#[test]
fn a_file_alone_at_the_top_is_the_last_of_its_batch() {
    let mut t = table();
    details().add_files_to_table(&mut t, &vec![egg(0, "docs")], 0);
    assert_eq!(shape(&t), vec![row("docs", 0, true, true)]);
    assert_eq!(t.print_table()[0].text, "ben docs");
}

#[test]
fn an_empty_batch_adds_nothing() {
    let mut t = table();
    details().add_files_to_table(&mut t, &vec![], 0);
    assert!(t.rows.is_empty());
    assert_eq!(details().view(table(), &vec![]), Some(vec![]));
}

#[test]
fn the_order_of_arrival_does_not_show() {
    let names = ["a", "b", "c", "d"];
    let arrivals: [[u64; 4]; 5] =
        [[0, 1, 2, 3], [3, 2, 1, 0], [2, 0, 3, 1], [1, 3, 0, 2], [3, 0, 1, 2]];
    let mut seen: Vec<Vec<Row>> = vec![];
    for arrival in arrivals.iter() {
        let batch: Vec<Egg> = arrival
            .iter()
            .map(|&k| {
                let mut e = egg(k, names[k as usize]);
                if k == 2 {
                    e.xattrs = vec![Attribute { name: "x".to_string(), size: 1 }];
                }
                e
            })
            .collect();
        let mut t = table();
        details().add_files_to_table(&mut t, &batch, 0);
        seen.push(t.rows);
    }
    for rows in seen.iter() {
        assert_eq!(*rows, seen[0]);
    }
    let order: Vec<&str> = seen[0].iter().map(|r| r.name.text.as_str()).collect();
    assert_eq!(order, vec!["a", "b", "c", "x (len 1)", "d"]);
    assert!(seen[0][4].last);
    assert!(!seen[0][0].last && !seen[0][1].last && !seen[0][2].last);
}

#[test]
fn equal_keys_are_listed_as_they_arrived() {
    let mut t = table();
    details().add_files_to_table(&mut t, &vec![egg(1, "x"), egg(0, "y"), egg(1, "z")], 0);
    let order: Vec<&str> = t.rows.iter().map(|r| r.name.text.as_str()).collect();
    assert_eq!(order, vec!["y", "x", "z"]);
    let mut t = table();
    details().add_files_to_table(&mut t, &vec![egg(1, "z"), egg(0, "y"), egg(1, "x")], 0);
    let order: Vec<&str> = t.rows.iter().map(|r| r.name.text.as_str()).collect();
    assert_eq!(order, vec!["y", "z", "x"]);
}

fn problem(message: &str, path: Option<&str>) -> Problem {
    Problem { message: message.to_string(), path: path.map(|p| p.to_string()) }
}

#[test]
fn attributes_come_before_problems_and_the_last_closes() {
    let mut e = egg(0, "forbidden");
    e.xattrs = vec![
        Attribute { name: "one".to_string(), size: 1 },
        Attribute { name: "two".to_string(), size: 22 },
    ];
    e.errors = vec![problem("denied", None), problem("gone", Some("/tmp/x"))];
    let mut t = table();
    details().add_files_to_table(&mut t, &vec![e], 4);
    assert_eq!(
        shape(&t),
        vec![
            row("forbidden", 4, true, true),
            row("one (len 1)", 5, false, false),
            row("two (len 22)", 5, false, false),
            row("<denied>", 5, false, false),
            row("</tmp/x: gone>", 5, true, false),
        ]
    );
}

#[test]
fn an_empty_directory_is_closed_by_what_went_wrong_in_it() {
    let mut e = egg(0, "dir");
    e.xattrs = vec![Attribute { name: "one".to_string(), size: 1 }];
    e.errors = vec![problem("denied", None)];
    e.dir = Some(Listing { files: vec![], errors: vec![problem("gone", Some("dir/x"))] });
    let mut t = table();
    details().add_files_to_table(&mut t, &vec![e], 0);
    assert_eq!(
        shape(&t),
        vec![
            row("dir", 0, true, true),
            row("one (len 1)", 1, false, false),
            row("<denied>", 1, false, false),
            row("<dir/x: gone>", 1, true, false),
        ]
    );

    let mut e = egg(0, "dir");
    e.xattrs = vec![Attribute { name: "one".to_string(), size: 1 }];
    e.dir = Some(Listing { files: vec![], errors: vec![] });
    let mut t = table();
    details().add_files_to_table(&mut t, &vec![e], 0);
    assert_eq!(shape(&t), vec![row("dir", 0, true, true), row("one (len 1)", 1, true, false)]);
}

#[test]
fn above_the_files_of_a_directory_nothing_closes() {
    let mut e = egg(0, "dir");
    e.xattrs = vec![Attribute { name: "one".to_string(), size: 1 }];
    e.errors = vec![problem("denied", None)];
    e.dir = Some(Listing {
        files: vec![egg(1, "b"), egg(0, "a")],
        errors: vec![problem("gone", Some("dir/x"))],
    });
    let mut t = table();
    details().add_files_to_table(&mut t, &vec![e], 0);
    assert_eq!(
        shape(&t),
        vec![
            row("dir", 0, true, true),
            row("one (len 1)", 1, false, false),
            row("<denied>", 1, false, false),
            row("<dir/x: gone>", 1, false, false),
            row("a", 1, false, true),
            row("b", 1, true, true),
        ]
    );
    let lines = t.print_table();
    let texts: Vec<&str> = lines.iter().map(|l| l.text.as_str()).collect();
    assert_eq!(
        texts,
        vec![
            "ben dir",
            "    ├── one (len 1)",
            "    ├── <denied>",
            "    ├── <dir/x: gone>",
            "ben ├── a",
            "ben └── b",
        ]
    );
}

#[test]
fn view_gives_nothing_for_cells_that_do_not_fit() {
    let mut e = egg(0, "a");
    e.cells = vec![];
    assert_eq!(details().view(table(), &vec![e]), None);
}

#[test]
fn view_without_header() {
    let lines = details().view(table(), &vec![egg(1, "b"), egg(0, "a")]).unwrap();
    let texts: Vec<&str> = lines.iter().map(|l| l.text.as_str()).collect();
    assert_eq!(texts, vec!["ben a", "ben b"]);
}

#[test]
fn descending() {
    let mut view = details();
    assert!(!view.descends_into(true, 0));
    view.recurse = Some(RecurseOptions { tree: false, max_depth: None });
    assert!(!view.descends_into(true, 0));
    view.recurse = Some(RecurseOptions { tree: true, max_depth: None });
    assert!(view.descends_into(true, 0));
    assert!(view.descends_into(true, usize::MAX));
    assert!(!view.descends_into(false, 0));
    view.recurse = Some(RecurseOptions { tree: true, max_depth: Some(2) });
    assert!(view.descends_into(true, 0));
    assert!(view.descends_into(true, 1));
    assert!(!view.descends_into(true, 2));
    assert!(!view.descends_into(true, 3));
    assert!(RecurseOptions { tree: true, max_depth: Some(0) }.is_too_deep(0));
    assert!(!RecurseOptions { tree: false, max_depth: None }.is_too_deep(usize::MAX));
}

#[test]
fn attributes_are_shown_only_when_asked_for() {
    let tag = || vec![Attribute { name: "tag".to_string(), size: 3 }];
    let mut view = details();
    assert_eq!(view.attributes_shown(Ok(tag())), (tag(), vec![]));
    assert_eq!(
        view.attributes_shown(Err("denied".to_string())),
        (vec![], vec![problem("denied", None)])
    );
    view.xattr = false;
    assert_eq!(view.attributes_shown(Ok(tag())), (vec![], vec![]));
    assert_eq!(view.attributes_shown(Err("denied".to_string())), (vec![], vec![]));
}

fn file() -> FileFields {
    FileFields {
        permissions: Permissions {
            file_type: Type::File,
            user_read: true,
            user_write: true,
            user_execute: false,
            group_read: true,
            group_write: false,
            group_execute: false,
            other_read: true,
            other_write: false,
            other_execute: false,
        },
        size: Size::Unknown,
        modified: Time(0),
        created: Time(0),
        accessed: Time(0),
        links: Links { count: 1 },
        inode: Inode(1),
        blocks: Blocks::Unknown,
        user: User(7),
        group: Group(8),
        git: Git { staged: GitStatus::NotModified, unstaged: GitStatus::NotModified },
    }
}

#[test]
fn gathering() {
    let mut table = Table::default();
    table.columns = vec![Column::Permissions, Column::FileSize(SizeFormat::JustBytes), Column::User];
    let tag = vec![Attribute { name: "tag".to_string(), size: 3 }];

    let egg = details().gather(&table, 5, &file(), plain("a"), Ok(tag.clone()), None);
    assert_eq!(egg.key, 5);
    assert_eq!(egg.name, plain("a"));
    assert_eq!(egg.xattrs, tag);
    assert!(egg.errors.is_empty());
    assert!(egg.dir.is_none());
    let texts: Vec<&str> = egg.cells.iter().map(|c| c.text.as_str()).collect();
    assert_eq!(texts, vec![".rw-r--r--@", "-", "7"]);

    let mut quiet = details();
    quiet.xattr = false;
    let egg = quiet.gather(&table, 5, &file(), plain("a"), Ok(tag), None);
    assert!(egg.xattrs.is_empty());
    assert_eq!(egg.cells[0].text, ".rw-r--r--");

    let listing = Listing { files: vec![], errors: vec![problem("gone", Some("a/b"))] };
    let egg =
        details().gather(&table, 0, &file(), plain("a"), Err("denied".to_string()), Some(listing));
    assert!(egg.xattrs.is_empty());
    assert_eq!(egg.errors, vec![problem("denied", None)]);
    assert_eq!(egg.cells[0].text, ".rw-r--r--");
    assert_eq!(egg.dir.unwrap().errors, vec![problem("gone", Some("a/b"))]);
}

#[test]
fn counting_levels() {
    assert_eq!(levels(&vec![]), Some(0));
    assert_eq!(levels(&vec![egg(0, "a"), egg(1, "b")]), Some(1));
    let mut sub = egg(1, "sub");
    sub.dir = Some(Listing { files: vec![egg(0, "y.txt")], errors: vec![] });
    let mut docs = egg(0, "docs");
    docs.dir = Some(Listing { files: vec![egg(0, "x.txt"), sub], errors: vec![] });
    let mut empty = egg(2, "empty");
    empty.dir = Some(Listing { files: vec![], errors: vec![] });
    assert_eq!(levels(&vec![empty]), Some(1));
    assert_eq!(levels(&vec![egg(1, "a"), docs]), Some(3));
}

#[test]
fn default_details() {
    assert_eq!(
        Details::default(),
        Details { recurse: None, header: false, xattr: false, colours: Colours::plain() }
    );
}
