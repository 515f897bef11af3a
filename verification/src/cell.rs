//! Cells: styled text that knows how many columns it takes on screen.

use vstd::prelude::*;
use crate::style::{display_width, measure, paint, painted, TextStyle};

verus! {

/// A piece of styled text together with its display width. The width is
/// kept apart from the text because the text holds escape codes, which
/// take up no columns.
#[derive(Clone, Debug, PartialEq, Eq)]
pub struct Cell {
    /// The text, escape codes included.
    pub text: String,
    /// The number of columns the text takes when displayed.
    pub length: usize,
}

/// What a cell stands for: its text and its width.
pub struct CellView {
    pub text: Seq<char>,
    pub width: nat,
}

impl View for Cell {
    type V = CellView;

    open spec fn view(&self) -> CellView {
        CellView { text: self.text@, width: self.length as nat }
    }
}

/// A run of `count` spaces.
pub open spec fn spaces(count: nat) -> Seq<char> {
    Seq::new(count, |i: int| ' ')
}

impl CellView {
    /// The cell with nothing in it.
    pub open spec fn empty() -> CellView {
        CellView { text: Seq::empty(), width: 0 }
    }

    /// This cell followed by `other`.
    pub open spec fn followed_by(self, other: CellView) -> CellView {
        CellView { text: self.text + other.text, width: self.width + other.width }
    }

    /// This cell followed by `count` spaces.
    pub open spec fn padded(self, count: nat) -> CellView {
        CellView { text: self.text + spaces(count), width: self.width + count }
    }

    /// The cell that painting `text` in `style` gives: the width is that of
    /// the text alone.
    pub open spec fn painted(style: TextStyle, text: Seq<char>) -> CellView {
        CellView { text: painted(style, text), width: display_width(text) }
    }
}

impl Cell {
    pub fn empty() -> (cell: Cell)
        ensures
            cell@ == CellView::empty(),
    {
        Cell { text: String::new(), length: 0 }
    }

    /// Paints `string` in `style`. The cell's width is the display width of
    /// `string`, not the length of the painted text.
    pub fn paint(style: TextStyle, string: &str) -> (cell: Cell)
        ensures
            cell@ == CellView::painted(style, string@),
    {
        Cell { text: paint(style, string), length: measure(string) }
    }

    /// A second cell with the same text and width.
    pub fn duplicate(&self) -> (cell: Cell)
        ensures
            cell@ == self@,
    {
        Cell { text: self.text.clone(), length: self.length }
    }

    pub fn add_spaces(&mut self, count: usize)
        requires
            old(self).length + count <= usize::MAX,
        ensures
            final(self)@ == old(self)@.padded(count as nat),
    {
        self.length = self.length + count;
        let mut done: usize = 0;
        while done < count
            invariant
                done <= count,
                self.length == old(self).length + count,
                self.text@ =~= old(self).text@ + spaces(done as nat),
            decreases count - done,
        {
            proof {
                reveal_strlit(" ");
            }
            self.text.append(" ");
            done = done + 1;
        }
    }

    pub fn append(&mut self, other: &Cell)
        requires
            old(self).length + other.length <= usize::MAX,
        ensures
            final(self)@ == old(self)@.followed_by(other@),
    {
        self.length = self.length + other.length;
        self.text.append(other.text.as_str());
    }
}

/// What a run of cells stands for, one by one.
pub open spec fn cell_views(cells: Seq<Cell>) -> Seq<CellView> {
    cells.map_values(|c: Cell| c@)
}

/// A second run of cells with the same texts and widths.
pub fn duplicate_cells(cells: &Vec<Cell>) -> (copy: Vec<Cell>)
    ensures
        cell_views(copy@) == cell_views(cells@),
{
    let mut copy: Vec<Cell> = Vec::new();
    let mut i: usize = 0;
    while i < cells.len()
        invariant
            i <= cells@.len(),
            copy@.len() == i,
            forall|k: int| 0 <= k < i ==> (#[trigger] copy@[k])@ == cells@[k]@,
        decreases cells@.len() - i,
    {
        copy.push(cells[i].duplicate());
        i = i + 1;
    }
    assert(cell_views(copy@) =~= cell_views(cells@));
    copy
}

} // verus!
