use details_table::cell::Cell;
use details_table::fields::{Group, User};
use details_table::identities::{GroupRecord, Identities, UserRecord};
use details_table::style::Tint::{Blue, Cyan, Fixed, Green, Red};
use details_table::table::Table;

pub fn newser(uid: u32, name: &str, group: u32) -> UserRecord {
    UserRecord { uid, name: name.to_string(), primary_group: group }
}

#[test]
fn named() {
    let mut table = Table::default();
    table.colours.users.user_you = Red.bold();

    let mut users = Identities::with_current_uid(1000);
    users.add_user(newser(1000, "enoch", 100));
    table.users = users;

    let user = User(1000);
    let expected = Cell::paint(Red.bold(), "enoch");
    assert_eq!(expected, table.render_user(user))
}

#[test]
fn unnamed() {
    let mut table = Table::default();
    table.colours.users.user_you = Cyan.bold();

    let users = Identities::with_current_uid(1000);
    table.users = users;

    let user = User(1000);
    let expected = Cell::paint(Cyan.bold(), "1000");
    assert_eq!(expected, table.render_user(user));
}

#[test]
fn different_named() {
    let mut table = Table::default();
    table.colours.users.user_someone_else = Green.bold();
    table.users.add_user(newser(1000, "enoch", 100));

    let user = User(1000);
    let expected = Cell::paint(Green.bold(), "enoch");
    assert_eq!(expected, table.render_user(user));
}

#[test]
fn different_unnamed() {
    let mut table = Table::default();
    table.colours.users.user_someone_else = Red.normal();

    let user = User(1000);
    let expected = Cell::paint(Red.normal(), "1000");
    assert_eq!(expected, table.render_user(user));
}

#[test]
fn overflow() {
    let mut table = Table::default();
    table.colours.users.user_someone_else = Blue.underline();

    let user = User(2_147_483_648);
    let expected = Cell::paint(Blue.underline(), "2147483648");
    assert_eq!(expected, table.render_user(user));
}

#[test]
fn details_named() {
    let mut table = Table::default();
    table.colours.users.group_not_yours = Fixed(101).normal();

    let mut users = Identities::with_current_uid(1000);
    users.add_group(GroupRecord { gid: 100, name: "folk".to_string(), members: vec![] });
    table.users = users;

    let group = Group(100);
    let expected = Cell::paint(Fixed(101).normal(), "folk");
    assert_eq!(expected, table.render_group(group))
}

#[test]
fn details_unnamed() {
    let mut table = Table::default();
    table.colours.users.group_not_yours = Fixed(87).normal();

    let users = Identities::with_current_uid(1000);
    table.users = users;

    let group = Group(100);
    let expected = Cell::paint(Fixed(87).normal(), "100");
    assert_eq!(expected, table.render_group(group));
}

#[test]
fn primary() {
    let mut table = Table::default();
    table.colours.users.group_yours = Fixed(64).normal();

    let mut users = Identities::with_current_uid(2);
    users.add_user(newser(2, "eve", 100));
    users.add_group(GroupRecord { gid: 100, name: "folk".to_string(), members: vec![] });
    table.users = users;

    let group = Group(100);
    let expected = Cell::paint(Fixed(64).normal(), "folk");
    assert_eq!(expected, table.render_group(group))
}

#[test]
fn secondary() {
    let mut table = Table::default();
    table.colours.users.group_yours = Fixed(31).normal();

    let mut users = Identities::with_current_uid(2);
    users.add_user(newser(2, "eve", 666));
    users.add_group(GroupRecord {
        gid: 100,
        name: "folk".to_string(),
        members: vec!["eve".to_string()],
    });
    table.users = users;

    let group = Group(100);
    let expected = Cell::paint(Fixed(31).normal(), "folk");
    assert_eq!(expected, table.render_group(group))
}

#[test]
fn details_overflow() {
    let mut table = Table::default();
    table.colours.users.group_not_yours = Blue.underline();

    let group = Group(2_147_483_648);
    let expected = Cell::paint(Blue.underline(), "2147483648");
    assert_eq!(expected, table.render_group(group));
}

#[test]
fn user_text_carries_the_style_codes() {
    let mut table = Table::default();
    table.colours.users.user_you = Red.bold();
    let mut users = Identities::with_current_uid(1000);
    users.add_user(newser(1000, "enoch", 100));
    table.users = users;
    let cell = table.render_user(User(1000));
    assert_eq!(cell.text, "\u{1b}[1;31menoch\u{1b}[0m");
    assert_eq!(cell.length, 5);
}

#[test]
fn group_is_not_yours_when_you_are_unknown() {
    let mut table = Table::default();
    table.colours.users.group_yours = Fixed(64).normal();
    let mut users = Identities::with_current_uid(2);
    users.add_group(GroupRecord {
        gid: 100,
        name: "folk".to_string(),
        members: vec!["eve".to_string()],
    });
    table.users = users;
    assert_eq!(table.render_group(Group(100)).text, "folk");
}

#[test]
fn group_is_not_yours_when_another_is_a_member() {
    let mut table = Table::default();
    table.colours.users.group_yours = Fixed(64).normal();
    let mut users = Identities::with_current_uid(2);
    users.add_user(newser(2, "eve", 666));
    users.add_group(GroupRecord {
        gid: 100,
        name: "folk".to_string(),
        members: vec!["adam".to_string(), "evelyn".to_string()],
    });
    table.users = users;
    assert_eq!(table.render_group(Group(100)).text, "folk");
}

#[test]
fn the_record_added_later_counts() {
    let mut users = Identities::with_current_uid(0);
    users.add_user(newser(7, "old", 1));
    users.add_user(newser(8, "other", 1));
    users.add_user(newser(7, "new", 2));
    assert_eq!(users.get_user_by_uid(7).map(|u| u.name.as_str()), Some("new"));
    assert_eq!(users.get_user_by_uid(8).map(|u| u.name.as_str()), Some("other"));
    assert!(users.get_user_by_uid(9).is_none());
    assert!(users.get_group_by_gid(7).is_none());
    assert_eq!(users.get_current_uid(), 0);
}
