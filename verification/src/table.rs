//! The table: rows are collected first, and measured and rendered only when
//! all of them are there.

use vstd::prelude::*;
use crate::cell::{cell_views, spaces, Cell, CellView};
use crate::colours::Colours;
use crate::column::{Alignment, Column, SizeFormat, TimeType};
use crate::fields::{Attribute, Problem};
use crate::identities::Identities;
use crate::numbers::{english_numeric, Numeric};
use crate::style::{paint, painted, TextStyle};
use crate::text::{decimal, decimal_text};
use crate::time::{english_months, month_names, TimeLocale, Zone};
use crate::tree::{after, drawn, lemma_blank_under_last, Branches, TreePart};

verus! {

/// One line of the table.
#[derive(Clone, Debug, PartialEq, Eq)]
pub struct Row {
    /// One cell per column, or none at all for a line that only shows an
    /// attribute or an error below a file.
    pub cells: Option<Vec<Cell>>,
    /// The name, which stands last on the line and is never padded.
    pub name: Cell,
    /// How deep in the tree the row is; 0 at the top.
    pub depth: usize,
    /// Whether the row is the last of its siblings.
    pub last: bool,
}

/// What a row stands for.
pub struct RowView {
    pub cells: Option<Seq<CellView>>,
    pub name: CellView,
    pub depth: nat,
    pub last: bool,
}

pub open spec fn row_views(rows: Seq<Row>) -> Seq<RowView> {
    rows.map_values(|r: Row| r@)
}

impl View for Row {
    type V = RowView;

    open spec fn view(&self) -> RowView {
        RowView {
            cells: match self.cells {
                Some(cells) => Some(cell_views(cells@)),
                None => None,
            },
            name: self.name@,
            depth: self.depth as nat,
            last: self.last,
        }
    }
}

impl RowView {
    /// The width of this row's cell in column `n`; 0 where it has no cells.
    pub open spec fn column_width(self, n: int) -> nat {
        match self.cells {
            Some(cells) => cells[n].width,
            None => 0,
        }
    }

    /// A row with cells has exactly one for each of `count` columns.
    pub open spec fn fits(self, count: nat) -> bool {
        match self.cells {
            Some(cells) => cells.len() == count,
            None => true,
        }
    }
}

impl Row {
    /// The display width of the indexed column's cell, if the row has
    /// cells. If not, 0.
    pub fn column_width(&self, index: usize) -> (width: usize)
        requires
            self.cells matches Some(cells) ==> index < cells@.len(),
        ensures
            width == self@.column_width(index as int),
    {
        match &self.cells {
            Some(cells) => cells[index].length,
            None => 0,
        }
    }
}

/// The width of column `n`: the greatest width among the cells that the
/// rows have in it.
pub open spec fn column_width(rows: Seq<RowView>, n: int) -> nat
    decreases rows.len(),
{
    if rows.len() == 0 {
        0
    } else {
        let rest = column_width(rows.drop_last(), n);
        let own = rows.last().column_width(n);
        if own > rest {
            own
        } else {
            rest
        }
    }
}

/// The widths of the first `count` columns, added up.
pub open spec fn widths_sum(rows: Seq<RowView>, count: nat) -> nat
    decreases count,
{
    if count == 0 {
        0
    } else {
        widths_sum(rows, (count - 1) as nat) + column_width(rows, count - 1)
    }
}

/// The width of the part of a line that holds the cells: every column at
/// its width, and one space after each.
pub open spec fn total_width(rows: Seq<RowView>, count: nat) -> nat {
    count + widths_sum(rows, count)
}

/// A cell brought to the width of its column and followed by the space
/// that parts it from the next.
pub open spec fn placed(cell: CellView, width: nat, side: Alignment) -> CellView {
    let gap = (width - cell.width) as nat;
    match side {
        Alignment::Left => cell.padded(gap).padded(1),
        Alignment::Right => CellView::empty().padded(gap).followed_by(cell).padded(1),
    }
}

/// The first `upto` cells of a row, each placed in its column.
pub open spec fn cells_region(
    cells: Seq<CellView>,
    rows: Seq<RowView>,
    columns: Seq<Column>,
    upto: nat,
) -> CellView
    decreases upto,
{
    if upto == 0 {
        CellView::empty()
    } else {
        cells_region(cells, rows, columns, (upto - 1) as nat).followed_by(
            placed(cells[upto - 1], column_width(rows, upto - 1), columns[upto - 1].aligned()),
        )
    }
}

/// The part of a row's line that stands before its name: its cells in
/// their columns, or as many spaces where it has none.
pub open spec fn row_region(row: RowView, rows: Seq<RowView>, columns: Seq<Column>) -> CellView {
    match row.cells {
        Some(cells) => cells_region(cells, rows, columns, columns.len()),
        None => CellView::empty().padded(total_width(rows, columns.len())),
    }
}

/// The tree characters for `parts`, each part painted on its own.
pub open spec fn branch_text(parts: Seq<TreePart>, style: TextStyle) -> Seq<char>
    decreases parts.len(),
{
    if parts.len() == 0 {
        Seq::empty()
    } else {
        branch_text(parts.drop_last(), style) + painted(style, parts.last().glyph())
    }
}

/// The columns that a row at `depth` counts for its tree characters: four
/// for each level, and one for the space before the name.
pub open spec fn tree_width(depth: nat) -> nat {
    if depth == 0 {
        0
    } else {
        4 * depth + 1
    }
}

/// The end of a line: the tree characters, a space if there are any, and
/// the name.
pub open spec fn name_region(parts: Seq<TreePart>, style: TextStyle, name: CellView) -> CellView {
    CellView {
        text: branch_text(parts, style) + spaces(if parts.len() == 0 { 0 } else { 1 })
            + name.text,
        width: tree_width(parts.len()) + name.width,
    }
}

/// Each row's depth and last-sibling flag, which is all the tree reads.
pub open spec fn steps(rows: Seq<RowView>) -> Seq<(nat, bool)> {
    rows.map_values(|r: RowView| (r.depth, r.last))
}

/// The finished line of row `j`.
pub open spec fn line(
    rows: Seq<RowView>,
    columns: Seq<Column>,
    punctuation: TextStyle,
    j: int,
) -> CellView {
    let row = rows[j];
    row_region(row, rows, columns).followed_by(
        name_region(
            drawn(after(steps(rows), j as nat), row.depth, row.last),
            punctuation,
            row.name,
        ),
    )
}

/// The finished lines of all rows, in the order the rows were added.
pub open spec fn lines(rows: Seq<RowView>, columns: Seq<Column>, punctuation: TextStyle) -> Seq<
    CellView,
> {
    Seq::new(rows.len(), |j: int| line(rows, columns, punctuation, j))
}

/// A column is as wide as its widest cell: no row has a wider cell in it,
/// and unless the width is 0 some row that has cells has one of exactly
/// that width. Rows without cells count as 0 and so never set the width.
pub proof fn lemma_column_width_is_max(rows: Seq<RowView>, n: int)
    ensures
        forall|j: int| 0 <= j < rows.len() ==> (#[trigger] rows[j]).column_width(n) <= column_width(rows, n),
        column_width(rows, n) == 0 || exists|j: int|
            0 <= j < rows.len() && (#[trigger] rows[j]).cells is Some && rows[j].column_width(n)
                == column_width(rows, n),
    decreases rows.len(),
{
    if rows.len() > 0 {
        let rest = rows.drop_last();
        lemma_column_width_is_max(rest, n);
        assert forall|j: int| 0 <= j < rows.len() implies (#[trigger] rows[j]).column_width(n)
            <= column_width(rows, n) by {
            if j < rows.len() - 1 {
                assert(rows[j] == rest[j]);
            }
        }
        if column_width(rows, n) != 0 {
            if rows.last().column_width(n) > column_width(rest, n) {
                let j = rows.len() - 1;
                assert(rows[j].cells is Some && rows[j].column_width(n) == column_width(rows, n));
            } else {
                let j = choose|j: int|
                    0 <= j < rest.len() && (#[trigger] rest[j]).cells is Some && rest[j].column_width(
                        n,
                    ) == column_width(rest, n);
                assert(rows[j] == rest[j]);
                assert(rows[j].cells is Some && rows[j].column_width(n) == column_width(rows, n));
            }
        }
    }
}

/// In the printed table every cell of a column takes the same number of
/// columns on screen: the column's width, and one for the space after it.
pub proof fn lemma_placed_cells_share_width(rows: Seq<RowView>, columns: Seq<Column>, j: int, n: int)
    requires
        0 <= j < rows.len(),
        0 <= n < columns.len(),
        rows[j].cells is Some,
    ensures
        placed(rows[j].cells->0[n], column_width(rows, n), columns[n].aligned()).width
            == column_width(rows, n) + 1,
{
    lemma_column_width_is_max(rows, n);
    assert(rows[j].column_width(n) <= column_width(rows, n));
}

/// The sum of the first columns' widths is no more than that of all.
pub proof fn lemma_widths_sum_grows(rows: Seq<RowView>, some: nat, all: nat)
    requires
        some <= all,
    ensures
        widths_sum(rows, some) <= widths_sum(rows, all),
    decreases all,
{
    if some < all {
        lemma_widths_sum_grows(rows, some, (all - 1) as nat);
    }
}

/// The first `upto` cells of a row with cells take as many columns as
/// those columns are wide, with their spaces.
pub proof fn lemma_cells_region_width(
    rows: Seq<RowView>,
    columns: Seq<Column>,
    j: int,
    upto: nat,
)
    requires
        0 <= j < rows.len(),
        rows[j].cells is Some,
        upto <= columns.len(),
    ensures
        cells_region(rows[j].cells->0, rows, columns, upto).width == total_width(rows, upto),
    decreases upto,
{
    if upto > 0 {
        lemma_cells_region_width(rows, columns, j, (upto - 1) as nat);
        lemma_placed_cells_share_width(rows, columns, j, upto - 1);
    }
}

/// Every line of the printed table, with or without cells, gives the same
/// number of columns to the part before the name.
pub proof fn lemma_row_region_width(rows: Seq<RowView>, columns: Seq<Column>, j: int)
    requires
        0 <= j < rows.len(),
    ensures
        row_region(rows[j], rows, columns).width == total_width(rows, columns.len()),
{
    if rows[j].cells is Some {
        lemma_cells_region_width(rows, columns, j, columns.len());
    }
}

/// Every row that has cells has one for each of `count` columns.
pub open spec fn rows_fit(rows: Seq<RowView>, count: nat) -> bool {
    forall|j: int| 0 <= j < rows.len() ==> (#[trigger] rows[j]).fits(count)
}

/// The width of every line can be counted in a `usize`.
pub open spec fn widths_fit(rows: Seq<RowView>, count: nat) -> bool {
    let total = total_width(rows, count);
    &&& total <= usize::MAX
    &&& forall|j: int|
        0 <= j < rows.len() ==> total + tree_width((#[trigger] rows[j]).depth) + rows[j].name.width
            <= usize::MAX
}

/// What the table is set up with apart from its columns and colours: the
/// locale, the time zone, the accounts, and the current year.
pub struct Environment {
    pub time: TimeLocale,
    pub numeric: Numeric,
    pub tz: Zone,
    pub users: Identities,
    pub current_year: i64,
}

/// A **Table** is built up row by row as files are listed, and printed once.
pub struct Table {
    pub columns: Vec<Column>,
    pub rows: Vec<Row>,
    /// The names of the months.
    pub time: TimeLocale,
    /// The punctuation of numbers.
    pub numeric: Numeric,
    /// The time zone that timestamps are shown in.
    pub tz: Zone,
    /// The users and groups that are known by name.
    pub users: Identities,
    pub colours: Colours,
    /// The year in which the table was set up. It is taken once, so that
    /// all rows are held against the same year.
    pub current_year: i64,
}

impl Table {
    /// What the rows stand for, in order.
    pub open spec fn row_views(&self) -> Seq<RowView> {
        row_views(self.rows@)
    }

    /// Every row that has cells has one for each column.
    pub open spec fn wf(&self) -> bool {
        rows_fit(self.row_views(), self.columns@.len())
    }

    /// The widths that the lines will have can be counted in a `usize`.
    pub open spec fn widths_fit(&self) -> bool {
        widths_fit(self.row_views(), self.columns@.len())
    }

    /// The lines that printing this table gives.
    pub open spec fn lines(&self) -> Seq<CellView> {
        lines(self.row_views(), self.columns@, self.colours.punctuation)
    }

    /// Everything but the rows is as it is in `before`.
    pub open spec fn set_up_as(&self, before: &Table) -> bool {
        &&& self.columns == before.columns
        &&& self.time == before.time
        &&& self.numeric == before.numeric
        &&& self.tz == before.tz
        &&& self.users == before.users
        &&& self.colours == before.colours
        &&& self.current_year == before.current_year
    }

    /// A new table without rows.
    pub fn with_options(colours: Colours, columns: Vec<Column>, environment: Environment) -> (table:
        Table)
        ensures
            table.columns == columns,
            table.rows@.len() == 0,
            table.colours == colours,
            table.time == environment.time,
            table.numeric == environment.numeric,
            table.tz == environment.tz,
            table.users == environment.users,
            table.current_year == environment.current_year,
    {
        Table {
            columns,
            rows: Vec::new(),
            time: environment.time,
            numeric: environment.numeric,
            tz: environment.tz,
            users: environment.users,
            colours,
            current_year: environment.current_year,
        }
    }

    /// Adds the header as the first row: the columns' names, and `Name`
    /// above the names, all in the header style. The header is no part of
    /// the tree: its depth is 0 and it is never last.
    pub fn add_header(&mut self)
        ensures
            final(self).set_up_as(old(self)),
            final(self).row_views() == old(self).row_views().insert(
                0,
                header_row(old(self).columns@, old(self).colours.header),
            ),
            old(self).wf() ==> final(self).wf(),
    {
        let mut cells: Vec<Cell> = Vec::new();
        let mut n: usize = 0;
        while n < self.columns.len()
            invariant
                n <= self.columns@.len(),
                *self == *old(self),
                cells@.len() == n,
                forall|k: int|
                    0 <= k < n ==> (#[trigger] cells@[k])@ == CellView::painted(
                        self.colours.header,
                        self.columns@[k].label(),
                    ),
            decreases self.columns@.len() - n,
        {
            let cell = Cell::paint(self.colours.header, self.columns[n].header());
            cells.push(cell);
            n = n + 1;
        }
        assert(cell_views(cells@) =~= header_cells(self.columns@, self.colours.header));
        let row = Row { cells: Some(cells), name: Cell::paint(self.colours.header, "Name"), depth: 0, last: false };
        self.rows.insert(0, row);
        assert(self.row_views() =~= old(self).row_views().insert(0, row@));
        assert(old(self).wf() ==> self.wf()) by {
            if old(self).wf() {
                assert forall|j: int| 0 <= j < self.row_views().len() implies (
                #[trigger] self.row_views()[j]).fits(self.columns@.len()) by {
                    if j > 0 {
                        assert(self.row_views()[j] == old(self).row_views()[j - 1]);
                    }
                }
            }
        }
    }

    /// Adds a row for a file: its cells, its name, and its place in the tree.
    pub fn add_file_with_cells(&mut self, cells: Vec<Cell>, name: Cell, depth: usize, last: bool)
        ensures
            final(self).set_up_as(old(self)),
            final(self).row_views() == old(self).row_views().push(
                (RowView { cells: Some(cell_views(cells@)), name: name@, depth: depth as nat, last }),
            ),
            old(self).wf() && cells@.len() == old(self).columns@.len() ==> final(self).wf(),
    {
        let row = Row { cells: Some(cells), name, depth, last };
        self.push_row(row);
    }

    /// Adds a row without cells that shows an extended attribute: its name
    /// and the length of its value, in the attribute style.
    pub fn add_xattr(&mut self, xattr: Attribute, depth: usize, last: bool)
        ensures
            final(self).set_up_as(old(self)),
            final(self).row_views() == old(self).row_views().push(
                attribute_row(xattr.name@, xattr.size as nat, old(self).colours.perms.attribute, depth as nat, last),
            ),
            old(self).wf() ==> final(self).wf(),
    {
        let mut label = xattr.name;
        label.append(" (len ");
        label.append(decimal_text(xattr.size as u64).as_str());
        label.append(")");
        let row = Row {
            cells: None,
            name: Cell::paint(self.colours.perms.attribute, label.as_str()),
            depth,
            last,
        };
        self.push_row(row);
    }

    /// Adds a row without cells that shows an error in angle brackets, after
    /// the path it belongs to where one is known, in the style for what is
    /// broken.
    pub fn add_error(&mut self, error: &str, depth: usize, last: bool, path: Option<String>)
        ensures
            final(self).set_up_as(old(self)),
            final(self).row_views() == old(self).row_views().push(
                error_row(
                    error@,
                    match path {
                        Some(p) => Some(p@),
                        None => None,
                    },
                    old(self).colours.broken_arrow,
                    depth as nat,
                    last,
                ),
            ),
            old(self).wf() ==> final(self).wf(),
    {
        let mut label = String::from_str("<");
        match path {
            Some(p) => {
                label.append(p.as_str());
                label.append(": ");
            },
            None => {},
        }
        label.append(error);
        label.append(">");
        let row = Row {
            cells: None,
            name: Cell::paint(self.colours.broken_arrow, label.as_str()),
            depth,
            last,
        };
        self.push_row(row);
    }

    /// Renders the table: one finished line for each row, in the order the
    /// rows were added. Every column is as wide as its widest cell, which is
    /// only known now that all rows are there. The table is left as it was.
    pub fn print_table(&self) -> (printed: Vec<Cell>)
        requires
            self.wf(),
            self.widths_fit(),
        ensures
            cell_views(printed@) == self.lines(),
    {
        let widths = self.column_widths();
        let total = self.total_of(&widths);
        self.print_with(&widths, total)
    }

    /// Renders the lines, given the widths of the columns and their total.
    fn print_with(&self, widths: &Vec<usize>, total: usize) -> (printed: Vec<Cell>)
        requires
            self.wf(),
            self.widths_fit(),
            widths@.len() == self.columns@.len(),
            forall|n: int|
                0 <= n < widths@.len() ==> widths@[n] == column_width(self.row_views(), n),
            total == total_width(self.row_views(), self.columns@.len()),
        ensures
            cell_views(printed@) == self.lines(),
    {
        let ghost rows = self.row_views();
        let ghost count = self.columns@.len();
        let mut printed: Vec<Cell> = Vec::new();
        let mut branches = Branches::new();
        let mut j: usize = 0;
        while j < self.rows.len()
            invariant
                j <= self.rows@.len(),
                self.wf(),
                self.widths_fit(),
                rows == self.row_views(),
                count == self.columns@.len(),
                widths@.len() == count,
                forall|n: int| 0 <= n < count ==> widths@[n] == column_width(rows, n),
                total == total_width(rows, count),
                branches@ == after(steps(rows), j as nat),
                printed@.len() == j,
                forall|k: int|
                    0 <= k < j ==> (#[trigger] printed@[k])@ == line(
                        rows,
                        self.columns@,
                        self.colours.punctuation,
                        k,
                    ),
            decreases self.rows@.len() - j,
        {
            let row = &self.rows[j];
            assert(rows[j as int] == row@);
            assert(rows[j as int].fits(count));
            proof {
                lemma_row_region_width(rows, self.columns@, j as int);
            }
            let mut cell = match &row.cells {
                Some(cells) => self.place_cells(cells, widths, Ghost(j as int)),
                None => {
                    let mut blank = Cell::empty();
                    blank.add_spaces(total);
                    blank
                },
            };
            assert(cell@ == row_region(rows[j as int], rows, self.columns@));
            let parts = branches.enter(row.depth, row.last);
            assert(steps(rows)[j as int] == (row@.depth, row@.last));
            let name = branch_cell(&parts, self.colours.punctuation, &row.name);
            cell.append(&name);
            printed.push(cell);
            j = j + 1;
        }
        assert(cell_views(printed@) =~= self.lines());
        printed
    }

    /// Renders the table if it can be rendered: if every row that has cells
    /// has one for each column, and the widths of the lines can be counted.
    pub fn try_print(&self) -> (printed: Option<Vec<Cell>>)
        ensures
            printed is Some <==> self.wf() && self.widths_fit(),
            printed matches Some(cells) ==> cell_views(cells@) == self.lines(),
    {
        if !self.rows_have_cells() {
            return None;
        }
        let widths = self.column_widths();
        match self.checked_total(&widths) {
            Some(total) => {
                if self.names_fit(total) {
                    Some(self.print_with(&widths, total))
                } else {
                    None
                }
            },
            None => None,
        }
    }

    /// Whether every row that has cells has one for each column.
    fn rows_have_cells(&self) -> (ok: bool)
        ensures
            ok == self.wf(),
    {
        let ghost rows = self.row_views();
        let mut j: usize = 0;
        while j < self.rows.len()
            invariant
                j <= self.rows@.len(),
                rows == self.row_views(),
                forall|k: int| 0 <= k < j ==> (#[trigger] rows[k]).fits(self.columns@.len()),
            decreases self.rows@.len() - j,
        {
            assert(rows[j as int] == self.rows@[j as int]@);
            match &self.rows[j].cells {
                Some(cells) => {
                    if cells.len() != self.columns.len() {
                        assert(!rows[j as int].fits(self.columns@.len()));
                        return false;
                    }
                },
                None => {},
            }
            j = j + 1;
        }
        true
    }

    /// The width of the cells' part of every line, if it can be counted.
    fn checked_total(&self, widths: &Vec<usize>) -> (total: Option<usize>)
        requires
            widths@.len() == self.columns@.len(),
            forall|n: int|
                0 <= n < widths@.len() ==> widths@[n] == column_width(self.row_views(), n),
        ensures
            match total {
                Some(t) => t == total_width(self.row_views(), self.columns@.len()),
                None => total_width(self.row_views(), self.columns@.len()) > usize::MAX,
            },
    {
        let ghost rows = self.row_views();
        let count = self.columns.len();
        let mut total: usize = count;
        let mut n: usize = 0;
        while n < count
            invariant
                n <= count,
                count == self.columns@.len(),
                widths@.len() == count,
                rows == self.row_views(),
                forall|k: int| 0 <= k < count ==> widths@[k] == column_width(rows, k),
                total == count + widths_sum(rows, n as nat),
            decreases count - n,
        {
            proof {
                lemma_widths_sum_grows(rows, (n + 1) as nat, count as nat);
            }
            match total.checked_add(widths[n]) {
                Some(more) => {
                    total = more;
                },
                None => {
                    return None;
                },
            }
            n = n + 1;
        }
        Some(total)
    }

    /// Whether every line's width can be counted, given that of the cells'
    /// part.
    fn names_fit(&self, total: usize) -> (ok: bool)
        requires
            total == total_width(self.row_views(), self.columns@.len()),
        ensures
            ok == self.widths_fit(),
    {
        let ghost rows = self.row_views();
        let mut j: usize = 0;
        while j < self.rows.len()
            invariant
                j <= self.rows@.len(),
                rows == self.row_views(),
                total == total_width(rows, self.columns@.len()),
                forall|k: int|
                    0 <= k < j ==> total + tree_width((#[trigger] rows[k]).depth)
                        + rows[k].name.width <= usize::MAX,
            decreases self.rows@.len() - j,
        {
            let row = &self.rows[j];
            assert(rows[j as int] == row@);
            let room = usize::MAX - total;
            let fits = if row.depth == 0 {
                row.name.length <= room
            } else if row.depth > (usize::MAX - 1) / 4 {
                false
            } else {
                let tree = 4 * row.depth + 1;
                tree <= room && row.name.length <= room - tree
            };
            if !fits {
                assert(!(total + tree_width(rows[j as int].depth) + rows[j as int].name.width
                    <= usize::MAX));
                return false;
            }
            j = j + 1;
        }
        true
    }

    /// The width of every column: that of the widest cell any row has in it.
    fn column_widths(&self) -> (widths: Vec<usize>)
        requires
            self.wf(),
        ensures
            widths@.len() == self.columns@.len(),
            forall|n: int|
                0 <= n < widths@.len() ==> widths@[n] == column_width(self.row_views(), n),
    {
        let ghost rows = self.row_views();
        let mut widths: Vec<usize> = Vec::new();
        let mut n: usize = 0;
        while n < self.columns.len()
            invariant
                n <= self.columns@.len(),
                self.wf(),
                rows == self.row_views(),
                widths@.len() == n,
                forall|k: int| 0 <= k < n ==> widths@[k] == column_width(rows, k),
            decreases self.columns@.len() - n,
        {
            let mut width: usize = 0;
            let mut i: usize = 0;
            while i < self.rows.len()
                invariant
                    i <= self.rows@.len(),
                    n < self.columns@.len(),
                    self.wf(),
                    rows == self.row_views(),
                    width == column_width(rows.take(i as int), n as int),
                decreases self.rows@.len() - i,
            {
                assert(rows[i as int] == self.rows@[i as int]@);
                assert(rows[i as int].fits(self.columns@.len()));
                let own = self.rows[i].column_width(n);
                proof {
                    assert(rows.take(i + 1).drop_last() =~= rows.take(i as int));
                    assert(rows.take(i + 1).last() == rows[i as int]);
                }
                if own > width {
                    width = own;
                }
                i = i + 1;
            }
            assert(rows.take(i as int) =~= rows);
            widths.push(width);
            n = n + 1;
        }
        widths
    }

    /// The width of the cells' part of every line: the columns and a space
    /// after each.
    fn total_of(&self, widths: &Vec<usize>) -> (total: usize)
        requires
            widths@.len() == self.columns@.len(),
            forall|n: int|
                0 <= n < widths@.len() ==> widths@[n] == column_width(self.row_views(), n),
            total_width(self.row_views(), self.columns@.len()) <= usize::MAX,
        ensures
            total == total_width(self.row_views(), self.columns@.len()),
    {
        let ghost rows = self.row_views();
        let count = self.columns.len();
        let mut total: usize = count;
        let mut n: usize = 0;
        while n < count
            invariant
                n <= count,
                count == self.columns@.len(),
                widths@.len() == count,
                rows == self.row_views(),
                forall|k: int| 0 <= k < count ==> widths@[k] == column_width(rows, k),
                total_width(rows, count as nat) <= usize::MAX,
                total == count + widths_sum(rows, n as nat),
            decreases count - n,
        {
            proof {
                lemma_widths_sum_grows(rows, (n + 1) as nat, count as nat);
            }
            total = total + widths[n];
            n = n + 1;
        }
        total
    }

    /// Places the cells of row `j` in their columns.
    fn place_cells(&self, cells: &Vec<Cell>, widths: &Vec<usize>, Ghost(j): Ghost<int>) -> (cell:
        Cell)
        requires
            0 <= j < self.row_views().len(),
            self.row_views()[j].cells == Some(cell_views(cells@)),
            cells@.len() == self.columns@.len(),
            widths@.len() == self.columns@.len(),
            forall|n: int|
                0 <= n < widths@.len() ==> widths@[n] == column_width(self.row_views(), n),
            total_width(self.row_views(), self.columns@.len()) <= usize::MAX,
        ensures
            cell@ == cells_region(
                cell_views(cells@),
                self.row_views(),
                self.columns@,
                self.columns@.len(),
            ),
    {
        let ghost rows = self.row_views();
        let ghost views = cell_views(cells@);
        let count = self.columns.len();
        let mut cell = Cell::empty();
        let mut n: usize = 0;
        while n < count
            invariant
                n <= count,
                count == self.columns@.len(),
                cells@.len() == count,
                widths@.len() == count,
                rows == self.row_views(),
                views == cell_views(cells@),
                0 <= j < rows.len(),
                rows[j].cells == Some(views),
                forall|k: int| 0 <= k < count ==> widths@[k] == column_width(rows, k),
                total_width(rows, count as nat) <= usize::MAX,
                cell@ == cells_region(views, rows, self.columns@, n as nat),
            decreases count - n,
        {
            proof {
                lemma_cells_region_width(rows, self.columns@, j, n as nat);
                lemma_cells_region_width(rows, self.columns@, j, (n + 1) as nat);
                lemma_widths_sum_grows(rows, (n + 1) as nat, count as nat);
                lemma_column_width_is_max(rows, n as int);
                assert(rows[j].column_width(n as int) == views[n as int].width);
            }
            let width = widths[n];
            let own = cells[n].length;
            let ghost before = cell@;
            match self.columns[n].alignment() {
                Alignment::Left => {
                    cell.append(&cells[n]);
                    cell.add_spaces(width - own);
                },
                Alignment::Right => {
                    cell.add_spaces(width - own);
                    cell.append(&cells[n]);
                },
            }
            cell.add_spaces(1);
            proof {
                let put = placed(views[n as int], column_width(rows, n as int), self.columns@[n as int].aligned());
                assert(cell@.text =~= before.followed_by(put).text);
                assert(cell@ == before.followed_by(put));
            }
            n = n + 1;
        }
        cell
    }

    /// Adds a row for each of a file's extended attributes, in their order.
    /// With `close` the last of them ends the group of siblings.
    pub fn add_xattrs(&mut self, xattrs: &Vec<Attribute>, depth: usize, close: bool)
        ensures
            final(self).set_up_as(old(self)),
            final(self).row_views() == old(self).row_views() + attribute_rows(
                xattrs@,
                old(self).colours.perms.attribute,
                depth as nat,
                close,
            ),
            old(self).wf() ==> final(self).wf(),
    {
        let ghost style = self.colours.perms.attribute;
        let ghost wanted = attribute_rows(xattrs@, style, depth as nat, close);
        let count = xattrs.len();
        let mut i: usize = 0;
        while i < count
            invariant
                i <= count,
                count == xattrs@.len(),
                self.set_up_as(old(self)),
                style == old(self).colours.perms.attribute,
                wanted == attribute_rows(xattrs@, style, depth as nat, close),
                self.row_views() == old(self).row_views() + wanted.take(i as int),
                old(self).wf() ==> self.wf(),
            decreases count - i,
        {
            let xattr = Attribute { name: xattrs[i].name.clone(), size: xattrs[i].size };
            let ghost before = self.row_views();
            self.add_xattr(xattr, depth, close && i == count - 1);
            assert(self.row_views() =~= old(self).row_views() + wanted.take(i + 1)) by {
                assert(wanted.take(i + 1) =~= wanted.take(i as int).push(wanted[i as int]));
            }
            i = i + 1;
        }
        assert(wanted.take(i as int) =~= wanted);
    }

    /// Adds a row for each problem of `first` and then of `second`. With
    /// `close` the last of them all ends the group of siblings.
    pub fn add_errors(
        &mut self,
        first: &Vec<Problem>,
        second: &Vec<Problem>,
        depth: usize,
        close: bool,
    )
        ensures
            final(self).set_up_as(old(self)),
            final(self).row_views() == old(self).row_views() + error_rows(
                first@ + second@,
                old(self).colours.broken_arrow,
                depth as nat,
                close,
            ),
            old(self).wf() ==> final(self).wf(),
    {
        let ghost style = self.colours.broken_arrow;
        let ghost all = first@ + second@;
        let ghost wanted = error_rows(all, style, depth as nat, close);
        let mut i: usize = 0;
        while i < first.len()
            invariant
                i <= first@.len(),
                all == first@ + second@,
                self.set_up_as(old(self)),
                style == old(self).colours.broken_arrow,
                wanted == error_rows(all, style, depth as nat, close),
                self.row_views() == old(self).row_views() + wanted.take(i as int),
                old(self).wf() ==> self.wf(),
            decreases first@.len() - i,
        {
            let ends = close && second.len() == 0 && i == first.len() - 1;
            assert(first@[i as int] == all[i as int]);
            self.add_problem(&first[i], depth, ends);
            assert(self.row_views() =~= old(self).row_views() + wanted.take(i + 1)) by {
                assert(wanted.take(i + 1) =~= wanted.take(i as int).push(wanted[i as int]));
            }
            i = i + 1;
        }
        let mut k: usize = 0;
        while k < second.len()
            invariant
                k <= second@.len(),
                all == first@ + second@,
                self.set_up_as(old(self)),
                style == old(self).colours.broken_arrow,
                wanted == error_rows(all, style, depth as nat, close),
                self.row_views() == old(self).row_views() + wanted.take(first@.len() + k),
                old(self).wf() ==> self.wf(),
            decreases second@.len() - k,
        {
            let ends = close && k == second.len() - 1;
            assert(second@[k as int] == all[first@.len() + k]);
            self.add_problem(&second[k], depth, ends);
            assert(self.row_views() =~= old(self).row_views() + wanted.take(
                first@.len() + k + 1,
            )) by {
                assert(wanted.take(first@.len() + k + 1) =~= wanted.take(
                    first@.len() + k,
                ).push(wanted[first@.len() + k]));
            }
            k = k + 1;
        }
        assert(wanted.take(first@.len() + k) =~= wanted);
    }

    /// Adds the row for one problem.
    fn add_problem(&mut self, problem: &Problem, depth: usize, last: bool)
        ensures
            final(self).set_up_as(old(self)),
            final(self).row_views() == old(self).row_views().push(
                error_row(
                    problem.message@,
                    problem.path_view(),
                    old(self).colours.broken_arrow,
                    depth as nat,
                    last,
                ),
            ),
            old(self).wf() ==> final(self).wf(),
    {
        let path = match &problem.path {
            Some(p) => Some(p.clone()),
            None => None,
        };
        self.add_error(problem.message.as_str(), depth, last, path);
    }

    fn push_row(&mut self, row: Row)
        ensures
            final(self).set_up_as(old(self)),
            final(self).row_views() == old(self).row_views().push(row@),
            old(self).wf() && row@.fits(old(self).columns@.len()) ==> final(self).wf(),
    {
        self.rows.push(row);
        assert(self.row_views() =~= old(self).row_views().push(row@));
        assert(old(self).wf() && row@.fits(old(self).columns@.len()) ==> self.wf()) by {
            if old(self).wf() && row@.fits(old(self).columns@.len()) {
                assert forall|j: int| 0 <= j < self.row_views().len() implies (
                #[trigger] self.row_views()[j]).fits(self.columns@.len()) by {
                    if j < old(self).row_views().len() {
                        assert(self.row_views()[j] == old(self).row_views()[j]);
                    }
                }
            }
        }
    }
}

/// The rows for a file's extended attributes. With `close` the last one is
/// marked as the last of its siblings.
pub open spec fn attribute_rows(
    xattrs: Seq<Attribute>,
    style: TextStyle,
    depth: nat,
    close: bool,
) -> Seq<RowView> {
    Seq::new(
        xattrs.len(),
        |i: int|
            attribute_row(
                xattrs[i].name@,
                xattrs[i].size as nat,
                style,
                depth,
                close && i == xattrs.len() - 1,
            ),
    )
}

/// The rows for a file's problems. With `close` the last one is marked as
/// the last of its siblings.
pub open spec fn error_rows(
    errors: Seq<Problem>,
    style: TextStyle,
    depth: nat,
    close: bool,
) -> Seq<RowView> {
    Seq::new(
        errors.len(),
        |i: int|
            error_row(
                errors[i].message@,
                errors[i].path_view(),
                style,
                depth,
                close && i == errors.len() - 1,
            ),
    )
}

/// Builds the end of a line: the tree characters for `parts`, painted one
/// by one, then the name.
fn branch_cell(parts: &Vec<TreePart>, style: TextStyle, name: &Cell) -> (cell: Cell)
    requires
        tree_width(parts@.len()) + name@.width <= usize::MAX,
    ensures
        cell@ == name_region(parts@, style, name@),
{
    let mut text = String::new();
    let mut length: usize = 0;
    let mut i: usize = 0;
    while i < parts.len()
        invariant
            i <= parts@.len(),
            tree_width(parts@.len()) + name@.width <= usize::MAX,
            length == 4 * i,
            text@ == branch_text(parts@.take(i as int), style),
        decreases parts@.len() - i,
    {
        proof {
            assert(parts@.take(i + 1).drop_last() =~= parts@.take(i as int));
            assert(parts@.take(i + 1).last() == parts@[i as int]);
        }
        let glyph = paint(style, parts[i].ascii_art());
        text.append(glyph.as_str());
        length = length + 4;
        i = i + 1;
    }
    assert(parts@.take(i as int) =~= parts@);
    if parts.len() != 0 {
        proof {
            reveal_strlit(" ");
        }
        assert(" "@ =~= spaces(1));
        text.append(" ");
        length = length + 1;
    } else {
        assert(text@ =~= text@ + spaces(0));
    }
    text.append(name.text.as_str());
    length = length + name.length;
    Cell { text, length }
}

/// The columns of a table that is asked for nothing in particular.
pub open spec fn default_columns() -> Seq<Column> {
    seq![
        Column::Permissions,
        Column::FileSize(SizeFormat::DecimalBytes),
        Column::User,
        Column::Timestamp(TimeType::FileModified),
    ]
}

impl Default for Table {
    /// A table to try things on: the usual columns, no rows, no colours,
    /// English names and punctuation, universal time, no accounts known, the
    /// user with id 0 as the one who lists, and 1234 as the current year.
    fn default() -> (table: Table)
        ensures
            table.columns@ == default_columns(),
            table.rows@.len() == 0,
            table.colours == Colours::colourless(),
            month_names(table.time.months@) == english_months(),
            table.numeric.decimal_sep@ == "."@,
            table.numeric.thousands_sep@ == ","@,
            table.tz.first_offset == 0,
            table.tz.transitions@.len() == 0,
            table.users.current_uid == 0,
            table.users.users@.len() == 0,
            table.users.groups@.len() == 0,
            table.current_year == 1234,
    {
        let mut columns: Vec<Column> = Vec::new();
        columns.push(Column::Permissions);
        columns.push(Column::FileSize(SizeFormat::DecimalBytes));
        columns.push(Column::User);
        columns.push(Column::Timestamp(TimeType::FileModified));
        assert(columns@ =~= default_columns());
        Table {
            columns,
            rows: Vec::new(),
            time: TimeLocale::english(),
            numeric: english_numeric(),
            tz: Zone::utc(),
            users: Identities::with_current_uid(0),
            colours: Colours::plain(),
            current_year: 1234,
        }
    }
}

/// Printing changes nothing and depends on nothing but the table: whatever
/// two printings of the same table give, they give the same lines.
pub proof fn lemma_print_repeats(table: Table, first: Seq<Cell>, second: Seq<Cell>)
    requires
        cell_views(first) == table.lines(),
        cell_views(second) == table.lines(),
    ensures
        first.len() == second.len(),
        forall|k: int| 0 <= k < first.len() ==> (#[trigger] first[k])@ == second[k]@,
{
    assert(cell_views(first).len() == first.len());
    assert(cell_views(second).len() == second.len());
    assert forall|k: int| 0 <= k < first.len() implies (#[trigger] first[k])@ == second[k]@ by {
        assert(cell_views(first)[k] == first[k]@);
        assert(cell_views(second)[k] == second[k]@);
    }
}

/// The branch states drawn in front of row `j`: one for each level from 1
/// to the row's depth.
pub open spec fn branches_of(rows: Seq<RowView>, j: int) -> Seq<TreePart> {
    drawn(after(steps(rows), j as nat), rows[j].depth, rows[j].last)
}

/// Below a row that is the last of its siblings, every row that follows
/// while the rows stay deeper than it is drawn with a blank at that row's
/// level, and never with a line.
pub proof fn lemma_blank_below_last_row(rows: Seq<RowView>, i: int, j: int)
    requires
        0 <= i < j < rows.len(),
        rows[i].last,
        rows[i].depth >= 1,
        forall|k: int| i < k <= j ==> (#[trigger] rows[k]).depth > rows[i].depth,
    ensures
        rows[i].depth <= branches_of(rows, j).len(),
        branches_of(rows, j)[rows[i].depth - 1] == TreePart::Blank,
{
    let walk = steps(rows);
    assert(walk[i] == (rows[i].depth, rows[i].last));
    assert(walk[j] == (rows[j].depth, rows[j].last));
    assert forall|k: int| i < k <= j implies (#[trigger] walk[k]).0 > walk[i].0 by {
        assert(walk[k] == (rows[k].depth, rows[k].last));
    }
    lemma_blank_under_last(walk, i, j);
}

/// The header's cells: each column's name in the header style.
pub open spec fn header_cells(columns: Seq<Column>, style: TextStyle) -> Seq<CellView> {
    columns.map_values(|c: Column| CellView::painted(style, c.label()))
}

/// The header row of a table with these columns.
pub open spec fn header_row(columns: Seq<Column>, style: TextStyle) -> RowView {
    RowView {
        cells: Some(header_cells(columns, style)),
        name: CellView::painted(style, "Name"@),
        depth: 0,
        last: false,
    }
}

/// What is shown for an extended attribute.
pub open spec fn attribute_label(name: Seq<char>, size: nat) -> Seq<char> {
    name + " (len "@ + decimal(size) + ")"@
}

/// The row that shows an extended attribute.
pub open spec fn attribute_row(
    name: Seq<char>,
    size: nat,
    style: TextStyle,
    depth: nat,
    last: bool,
) -> RowView {
    RowView { cells: None, name: CellView::painted(style, attribute_label(name, size)), depth, last }
}

/// What is shown for an error: the message in angle brackets, with the
/// path and a colon before it where the path is known.
pub open spec fn error_label(error: Seq<char>, path: Option<Seq<char>>) -> Seq<char> {
    match path {
        Some(p) => "<"@ + p + ": "@ + error + ">"@,
        None => "<"@ + error + ">"@,
    }
}

/// The row that shows an error.
pub open spec fn error_row(
    error: Seq<char>,
    path: Option<Seq<char>>,
    style: TextStyle,
    depth: nat,
    last: bool,
) -> RowView {
    RowView { cells: None, name: CellView::painted(style, error_label(error, path)), depth, last }
}

} // verus!
