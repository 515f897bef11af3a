use details_table::tree::{Branches, TreePart};

#[test]
fn glyphs() {
    assert_eq!(TreePart::Edge.ascii_art(), "├──");
    assert_eq!(TreePart::Line.ascii_art(), "│  ");
    assert_eq!(TreePart::Corner.ascii_art(), "└──");
    assert_eq!(TreePart::Blank.ascii_art(), "   ");
}

#[test]
fn top_level_draws_nothing() {
    let mut branches = Branches::new();
    assert_eq!(branches.enter(0, false), vec![]);
    assert_eq!(branches.enter(0, true), vec![]);
}

fn drawn(steps: &[(usize, bool)]) -> Vec<String> {
    let mut branches = Branches::new();
    steps
        .iter()
        .map(|&(depth, last)| {
            branches.enter(depth, last).iter().map(|p| p.ascii_art()).collect::<String>()
        })
        .collect()
}

#[test]
fn the_tree_of_the_documents() {
    let lines = drawn(&[
        (0, false),
        (1, false),
        (1, false),
        (1, false),
        (2, false),
        (2, false),
        (2, true),
        (1, true),
        (2, false),
        (2, false),
        (2, false),
        (2, true),
    ]);
    assert_eq!(
        lines,
        vec![
            "",
            "├──",
            "├──",
            "├──",
            "│  ├──",
            "│  ├──",
            "│  └──",
            "└──",
            "   ├──",
            "   ├──",
            "   ├──",
            "   └──",
        ]
    );
}

#[test]
fn below_a_last_row_the_level_is_blank() {
    let mut branches = Branches::new();
    branches.enter(0, false);
    assert_eq!(branches.enter(1, true), vec![TreePart::Corner]);
    assert_eq!(branches.enter(2, false), vec![TreePart::Blank, TreePart::Edge]);
    assert_eq!(
        branches.enter(3, true),
        vec![TreePart::Blank, TreePart::Line, TreePart::Corner]
    );
    assert_eq!(branches.enter(2, true), vec![TreePart::Blank, TreePart::Corner]);
    assert_eq!(
        branches.enter(3, false),
        vec![TreePart::Blank, TreePart::Blank, TreePart::Edge]
    );
}

#[test]
fn below_a_row_that_is_not_last_the_level_is_a_line() {
    let mut branches = Branches::new();
    assert_eq!(branches.enter(1, false), vec![TreePart::Edge]);
    assert_eq!(branches.enter(2, true), vec![TreePart::Line, TreePart::Corner]);
}

#[test]
fn levels_that_were_skipped_start_as_edges() {
    let mut branches = Branches::new();
    assert_eq!(
        branches.enter(3, true),
        vec![TreePart::Edge, TreePart::Edge, TreePart::Corner]
    );
}

#[test]
fn a_level_keeps_its_state_while_rows_are_shallower() {
    let mut branches = Branches::new();
    branches.enter(1, false);
    branches.enter(2, true);
    branches.enter(1, true);
    assert_eq!(
        branches.enter(3, false),
        vec![TreePart::Blank, TreePart::Blank, TreePart::Edge]
    );
}
