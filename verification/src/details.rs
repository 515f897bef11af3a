//! The details view: what was gathered for each file of a listing is put
//! in order and laid out as the rows of a table, directory below directory.

use vstd::prelude::*;
use crate::cell::{cell_views, duplicate_cells, Cell};
use crate::colours::Colours;
use crate::fields::{Attribute, FileFields, Problem};
use crate::order::{
    distinct, lemma_order_ignores_arrival, lemma_stable_order_sorts, mirrors,
    sort_order, stable_order,
};
use crate::table::{
    attribute_rows, error_rows, header_row, lines, rows_fit, widths_fit, RowView, Table,
};

verus! {

/// What listing a directory gave: the files to show, each with what was
/// gathered for it, and what went wrong for the others.
#[derive(Debug)]
pub struct Listing {
    pub files: Vec<Egg>,
    pub errors: Vec<Problem>,
}

/// What was gathered for one file. The eggs of a batch arrive in no
/// particular order; the key says where each belongs.
#[derive(Debug)]
pub struct Egg {
    /// The file's place in the order of the listing: lower keys come first.
    pub key: u64,
    /// One cell per column.
    pub cells: Vec<Cell>,
    pub name: Cell,
    /// The extended attributes to show below the file.
    pub xattrs: Vec<Attribute>,
    /// The problems to show below the file.
    pub errors: Vec<Problem>,
    /// The listing of the directory, where the file is one that the tree
    /// descends into.
    pub dir: Option<Listing>,
}

/// The keys of a batch, in the order of arrival.
pub open spec fn keys(eggs: Seq<Egg>) -> Seq<u64> {
    eggs.map_values(|e: Egg| e.key)
}

/// The rows for a file's attributes and then its problems at `depth`, where
/// more rows of the same group follow: none of them is marked last.
pub open spec fn open_rows(
    xattrs: Seq<Attribute>,
    errors: Seq<Problem>,
    colours: Colours,
    depth: nat,
) -> Seq<RowView> {
    attribute_rows(xattrs, colours.perms.attribute, depth, false) + error_rows(
        errors,
        colours.broken_arrow,
        depth,
        false,
    )
}

/// The rows for a file's attributes and then its problems at `depth`, where
/// they are all that stands below the file: the last of them is marked last.
pub open spec fn closed_rows(
    xattrs: Seq<Attribute>,
    errors: Seq<Problem>,
    colours: Colours,
    depth: nat,
) -> Seq<RowView> {
    attribute_rows(xattrs, colours.perms.attribute, depth, errors.len() == 0) + error_rows(
        errors,
        colours.broken_arrow,
        depth,
        true,
    )
}

/// The row of the file itself.
pub open spec fn own_row(egg: Egg, depth: nat, last: bool) -> RowView {
    RowView { cells: Some(cell_views(egg.cells@)), name: egg.name@, depth, last }
}

/// The rows for one file at `depth`: its own row, and one level down the
/// rows for its attributes and then its problems, those of listing its
/// directory among them. Where the directory has files to show, their rows
/// follow.
pub open spec fn egg_rows(egg: Egg, colours: Colours, depth: nat, last: bool) -> Seq<RowView>
    decreases egg, 0nat, 0nat,
{
    let below = depth + 1;
    seq![own_row(egg, depth, last)] + match egg.dir {
        Some(listing) => {
            if listing.files@.len() > 0 {
                open_rows(egg.xattrs@, egg.errors@ + listing.errors@, colours, below) + batch_rows(
                    listing.files@,
                    colours,
                    below,
                    listing.files@.len(),
                )
            } else {
                closed_rows(egg.xattrs@, egg.errors@ + listing.errors@, colours, below)
            }
        },
        None => closed_rows(egg.xattrs@, egg.errors@, colours, below),
    }
}

/// The rows for the first `upto` files of a batch, taken in the order of
/// their keys, equal keys in the order of arrival. Only the file that is
/// last in that order is marked last.
pub open spec fn batch_rows(eggs: Seq<Egg>, colours: Colours, depth: nat, upto: nat) -> Seq<
    RowView,
>
    decreases eggs, 1nat, upto,
{
    if upto == 0 || upto > eggs.len() {
        Seq::empty()
    } else {
        let p = stable_order(keys(eggs))[upto - 1];
        let rows = if 0 <= p < eggs.len() {
            egg_rows(eggs[p], colours, depth, upto == eggs.len())
        } else {
            Seq::empty()
        };
        batch_rows(eggs, colours, depth, (upto - 1) as nat) + rows
    }
}

/// `later` holds the files of `batch` in another arrangement: place `i` of
/// `later` holds what place `via[i]` of `batch` holds, and `back` leads the
/// other way.
pub open spec fn rearranged(batch: Seq<Egg>, later: Seq<Egg>, via: Seq<int>, back: Seq<int>) -> bool {
    &&& later.len() == batch.len()
    &&& mirrors(via, back, batch.len())
    &&& forall|i: int| 0 <= i < later.len() ==> #[trigger] later[i] == batch[via[i]]
}

/// The rows of a batch do not depend on the order in which its files
/// arrived, as long as no two files have the same key: however the batch is
/// rearranged, the same rows come out in the same order.
pub proof fn lemma_rows_ignore_arrival(
    batch: Seq<Egg>,
    later: Seq<Egg>,
    via: Seq<int>,
    back: Seq<int>,
    colours: Colours,
    depth: nat,
)
    requires
        rearranged(batch, later, via, back),
        distinct(keys(batch)),
    ensures
        batch_rows(later, colours, depth, later.len()) == batch_rows(
            batch,
            colours,
            depth,
            batch.len(),
        ),
{
    lemma_rows_agree_upto(batch, later, via, back, colours, depth, batch.len());
}

proof fn lemma_rows_agree_upto(
    batch: Seq<Egg>,
    later: Seq<Egg>,
    via: Seq<int>,
    back: Seq<int>,
    colours: Colours,
    depth: nat,
    upto: nat,
)
    requires
        rearranged(batch, later, via, back),
        distinct(keys(batch)),
        upto <= batch.len(),
    ensures
        batch_rows(later, colours, depth, upto) == batch_rows(batch, colours, depth, upto),
    decreases upto,
{
    if upto > 0 {
        lemma_rows_agree_upto(batch, later, via, back, colours, depth, (upto - 1) as nat);
        assert forall|i: int| 0 <= i < later.len() implies #[trigger] keys(later)[i] == keys(
            batch,
        )[via[i]] by {
            assert(later[i] == batch[via[i]]);
        }
        lemma_order_ignores_arrival(keys(batch), keys(later), via, back);
        lemma_stable_order_sorts(keys(batch));
        lemma_stable_order_sorts(keys(later));
        let p = stable_order(keys(batch))[upto - 1];
        let q = stable_order(keys(later))[upto - 1];
        assert(via[q] == p);
        assert(later[q] == batch[via[q]]);
    }
}

/// A file and every file below it came with one cell for each of `count`
/// columns.
pub open spec fn egg_fits(egg: Egg, count: nat) -> bool
    decreases egg, 0nat, 0nat,
{
    &&& egg.cells@.len() == count
    &&& match egg.dir {
        Some(listing) => batch_fits(listing.files@, count, listing.files@.len()),
        None => true,
    }
}

/// The first `upto` files of a batch, and every file below them, came with
/// one cell for each of `count` columns.
pub open spec fn batch_fits(eggs: Seq<Egg>, count: nat, upto: nat) -> bool
    decreases eggs, 1nat, upto,
{
    if upto == 0 || upto > eggs.len() {
        true
    } else {
        batch_fits(eggs, count, (upto - 1) as nat) && egg_fits(eggs[upto - 1], count)
    }
}

/// In a batch that fits, every file fits.
pub proof fn lemma_fits_each(eggs: Seq<Egg>, count: nat, upto: nat, p: int)
    requires
        0 <= p < upto <= eggs.len(),
        batch_fits(eggs, count, upto),
    ensures
        egg_fits(eggs[p], count),
    decreases upto,
{
    if p < upto - 1 {
        lemma_fits_each(eggs, count, (upto - 1) as nat, p);
    }
}

/// How many levels of the tree a file takes: one for the rows below it,
/// and those of the directory's files.
pub open spec fn egg_levels(egg: Egg) -> nat
    decreases egg, 0nat, 0nat,
{
    match egg.dir {
        Some(listing) => 1 + batch_levels(listing.files@, listing.files@.len()),
        None => 1,
    }
}

/// How many levels the first `upto` files of a batch take at most.
pub open spec fn batch_levels(eggs: Seq<Egg>, upto: nat) -> nat
    decreases eggs, 1nat, upto,
{
    if upto == 0 || upto > eggs.len() {
        0
    } else {
        let rest = batch_levels(eggs, (upto - 1) as nat);
        let own = egg_levels(eggs[upto - 1]);
        if own > rest {
            own
        } else {
            rest
        }
    }
}

/// No file of a batch takes more levels than the batch.
pub proof fn lemma_levels_bound(eggs: Seq<Egg>, upto: nat, p: int)
    requires
        0 <= p < upto <= eggs.len(),
    ensures
        egg_levels(eggs[p]) <= batch_levels(eggs, upto),
    decreases upto,
{
    if p < upto - 1 {
        lemma_levels_bound(eggs, (upto - 1) as nat, p);
    }
}

/// Whether and how far the tree goes into directories.
#[derive(Clone, Copy, PartialEq, Eq, Debug, Structural)]
pub struct RecurseOptions {
    /// Whether directories are shown as a tree at all.
    pub tree: bool,
    /// The number of levels below the top that are still listed, if there
    /// is a limit.
    pub max_depth: Option<usize>,
}

impl RecurseOptions {
    pub open spec fn too_deep(self, depth: nat) -> bool {
        match self.max_depth {
            Some(limit) => limit <= depth,
            None => false,
        }
    }

    /// Whether a directory at `depth` lies at or beyond the limit.
    pub fn is_too_deep(&self, depth: usize) -> (deep: bool)
        ensures
            deep == self.too_deep(depth as nat),
    {
        match self.max_depth {
            Some(limit) => limit <= depth,
            None => false,
        }
    }
}

/// The details view: every file on a line of its own, its attributes in
/// columns before its name.
#[derive(Clone, Copy, PartialEq, Eq, Debug, Structural)]
pub struct Details {
    /// Whether directories are shown as a tree, and how deep.
    pub recurse: Option<RecurseOptions>,
    /// Whether the table starts with a header.
    pub header: bool,
    /// Whether extended attributes are shown.
    pub xattr: bool,
    /// The theme of the table.
    pub colours: Colours,
}

impl Default for Details {
    /// No tree, no header, no attributes, no colours.
    fn default() -> (details: Details)
        ensures
            details.recurse is None,
            !details.header,
            !details.xattr,
            details.colours == Colours::colourless(),
    {
        Details { recurse: None, header: false, xattr: false, colours: Colours::plain() }
    }
}

impl Details {
    /// Whether the tree goes into a file at `depth`: only into a directory,
    /// only where a tree is asked for, and only above the limit of depth.
    pub open spec fn goes_into(&self, is_directory: bool, depth: nat) -> bool {
        self.recurse matches Some(options) && is_directory && options.tree && !options.too_deep(
            depth,
        )
    }

    /// Whether to open a file at `depth` and list what is in it.
    pub fn descends_into(&self, is_directory: bool, depth: usize) -> (descends: bool)
        ensures
            descends == self.goes_into(is_directory, depth as nat),
    {
        match self.recurse {
            Some(options) => is_directory && options.tree && !options.is_too_deep(depth),
            None => false,
        }
    }

    /// What is shown of reading a file's extended attributes. Where they are
    /// not asked for, nothing: neither the attributes nor a failure to read
    /// them. Where they are, the attributes, or the failure as a problem
    /// without a path.
    pub fn attributes_shown(&self, read: Result<Vec<Attribute>, String>) -> (shown: (
        Vec<Attribute>,
        Vec<Problem>,
    ))
        ensures
            shown.0@ == match read {
                Ok(xattrs) if self.xattr => xattrs@,
                _ => Seq::<Attribute>::empty(),
            },
            shown.1@ == match read {
                Err(message) if self.xattr => seq![Problem { message, path: None }],
                _ => Seq::<Problem>::empty(),
            },
    {
        let mut errors: Vec<Problem> = Vec::new();
        let xattrs = match read {
            Ok(xattrs) => {
                if self.xattr {
                    xattrs
                } else {
                    Vec::new()
                }
            },
            Err(message) => {
                if self.xattr {
                    errors.push(Problem { message, path: None });
                    assert(errors@ =~= seq![Problem { message, path: None }]);
                }
                Vec::new()
            },
        };
        (xattrs, errors)
    }

    /// Gathers what is shown of one file: what reading its attributes gave,
    /// its cells in the columns of the table, marked where it has attributes
    /// to show, and the listing of its directory if it was opened.
    pub fn gather(
        &self,
        table: &Table,
        key: u64,
        file: &FileFields,
        name: Cell,
        attributes: Result<Vec<Attribute>, String>,
        dir: Option<Listing>,
    ) -> (egg: Egg)
        requires
            table.shows_all(*file),
        ensures
            egg.key == key,
            egg.name == name,
            egg.dir == dir,
            egg.xattrs@ == match attributes {
                Ok(xattrs) if self.xattr => xattrs@,
                _ => Seq::<Attribute>::empty(),
            },
            egg.errors@ == match attributes {
                Err(message) if self.xattr => seq![Problem { message, path: None }],
                _ => Seq::<Problem>::empty(),
            },
            cell_views(egg.cells@) == table.cells_for(*file, egg.xattrs@.len() > 0),
            egg.cells@.len() == table.columns@.len(),
    {
        let (xattrs, errors) = self.attributes_shown(attributes);
        let cells = table.cells_for_file(file, xattrs.len() > 0);
        Egg { key, cells, name, xattrs, errors, dir }
    }

    /// The rows of the view: the table's own, below the header if one is
    /// asked for, and then those of the files.
    pub open spec fn rows(&self, table: Table, files: Seq<Egg>) -> Seq<RowView> {
        let start = if self.header {
            table.row_views().insert(0, header_row(table.columns@, table.colours.header))
        } else {
            table.row_views()
        };
        start + batch_rows(files, table.colours, 0, files.len())
    }

    /// Lays the files out in the table, below a header if one is asked for,
    /// and renders it. The lines come back in order, ready to be printed one
    /// by one. There are none if the tree has more levels than can be
    /// counted, if a file came with the wrong number of cells, or if the
    /// lines are too wide for their width to be counted.
    pub fn view(&self, table: Table, files: &Vec<Egg>) -> (printed: Option<Vec<Cell>>)
        ensures
            printed is Some <==> batch_levels(files@, files@.len()) <= usize::MAX && rows_fit(
                self.rows(table, files@),
                table.columns@.len(),
            ) && widths_fit(self.rows(table, files@), table.columns@.len()),
            printed matches Some(cells) ==> cell_views(cells@) == lines(
                self.rows(table, files@),
                table.columns@,
                table.colours.punctuation,
            ),
    {
        if levels(files).is_none() {
            return None;
        }
        let mut table = table;
        let ghost given = table;
        if self.header {
            table.add_header();
        }
        self.add_files_to_table(&mut table, files, 0);
        assert(table.row_views() == self.rows(given, files@));
        table.try_print()
    }

    /// Adds the rows for a batch of files at `depth` to the table: the files
    /// in the order of their keys, and below each what belongs to it. The
    /// order in which the batch arrived only decides between equal keys.
    pub fn add_files_to_table(&self, table: &mut Table, src: &Vec<Egg>, depth: usize)
        requires
            depth + batch_levels(src@, src@.len()) <= usize::MAX,
        ensures
            final(table).set_up_as(old(table)),
            final(table).row_views() == old(table).row_views() + batch_rows(
                src@,
                old(table).colours,
                depth as nat,
                src@.len(),
            ),
            old(table).wf() && batch_fits(src@, old(table).columns@.len(), src@.len())
                ==> final(table).wf(),
        decreases src, 1nat,
    {
        let ghost colours = table.colours;
        let ghost start = table.row_views();
        let order = sort_order(&batch_keys(src));
        let count = src.len();
        let mut i: usize = 0;
        assert(table.row_views() =~= start + batch_rows(src@, colours, depth as nat, 0));
        while i < count
            invariant
                i <= count,
                count == src@.len(),
                depth + batch_levels(src@, src@.len()) <= usize::MAX,
                order@.len() == count,
                order@.map_values(|p: usize| p as int) == stable_order(keys(src@)),
                forall|k: int| 0 <= k < order@.len() ==> #[trigger] order@[k] < count,
                table.set_up_as(old(table)),
                colours == old(table).colours,
                start == old(table).row_views(),
                table.row_views() == start + batch_rows(src@, colours, depth as nat, i as nat),
                old(table).wf() && batch_fits(src@, old(table).columns@.len(), src@.len())
                    ==> table.wf(),
            decreases count - i,
        {
            let p = order[i];
            proof {
                lemma_levels_bound(src@, src@.len(), p as int);
                assert(stable_order(keys(src@))[i as int] == p as int);
                if batch_fits(src@, table.columns@.len(), src@.len()) {
                    lemma_fits_each(src@, table.columns@.len(), src@.len(), p as int);
                }
            }
            let ghost before = table.row_views();
            self.add_egg(table, &src[p], depth, i == count - 1);
            assert(table.row_views() =~= start + batch_rows(
                src@,
                colours,
                depth as nat,
                (i + 1) as nat,
            ));
            i = i + 1;
        }
    }

    /// Adds the rows for one file: its own, and below it those of its
    /// attributes, its problems, and the files of its directory.
    fn add_egg(&self, table: &mut Table, egg: &Egg, depth: usize, last: bool)
        requires
            depth + egg_levels(*egg) <= usize::MAX,
        ensures
            final(table).set_up_as(old(table)),
            final(table).row_views() == old(table).row_views() + egg_rows(
                *egg,
                old(table).colours,
                depth as nat,
                last,
            ),
            old(table).wf() && egg_fits(*egg, old(table).columns@.len()) ==> final(table).wf(),
        decreases egg, 0nat,
    {
        let ghost start = table.row_views();
        let ghost colours = table.colours;
        table.add_file_with_cells(duplicate_cells(&egg.cells), egg.name.duplicate(), depth, last);
        let ghost own = table.row_views();
        assert(own =~= start + seq![own_row(*egg, depth as nat, last)]);
        match &egg.dir {
            Some(listing) => {
                if listing.files.len() > 0 {
                    add_open(table, &egg.xattrs, &egg.errors, &listing.errors, depth + 1);
                    let ghost before = table.row_views();
                    self.add_files_to_table(table, &listing.files, depth + 1);
                    assert(table.row_views() =~= start + egg_rows(
                        *egg,
                        colours,
                        depth as nat,
                        last,
                    ));
                } else {
                    add_closed(table, &egg.xattrs, &egg.errors, &listing.errors, depth + 1);
                    assert(table.row_views() =~= start + egg_rows(
                        *egg,
                        colours,
                        depth as nat,
                        last,
                    ));
                }
            },
            None => {
                let none: Vec<Problem> = Vec::new();
                assert(egg.errors@ + none@ =~= egg.errors@);
                add_closed(table, &egg.xattrs, &egg.errors, &none, depth + 1);
                assert(table.row_views() =~= start + egg_rows(*egg, colours, depth as nat, last));
            },
        }
    }
}

/// Adds the rows for attributes and problems where more rows follow.
fn add_open(
    table: &mut Table,
    xattrs: &Vec<Attribute>,
    first: &Vec<Problem>,
    second: &Vec<Problem>,
    depth: usize,
)
    ensures
        final(table).set_up_as(old(table)),
        final(table).row_views() == old(table).row_views() + open_rows(
            xattrs@,
            first@ + second@,
            old(table).colours,
            depth as nat,
        ),
        old(table).wf() ==> final(table).wf(),
{
    table.add_xattrs(xattrs, depth, false);
    table.add_errors(first, second, depth, false);
    assert(table.row_views() =~= old(table).row_views() + open_rows(
        xattrs@,
        first@ + second@,
        old(table).colours,
        depth as nat,
    ));
}

/// Adds the rows for attributes and problems where no more rows follow.
fn add_closed(
    table: &mut Table,
    xattrs: &Vec<Attribute>,
    first: &Vec<Problem>,
    second: &Vec<Problem>,
    depth: usize,
)
    ensures
        final(table).set_up_as(old(table)),
        final(table).row_views() == old(table).row_views() + closed_rows(
            xattrs@,
            first@ + second@,
            old(table).colours,
            depth as nat,
        ),
        old(table).wf() ==> final(table).wf(),
{
    table.add_xattrs(xattrs, depth, first.len() == 0 && second.len() == 0);
    table.add_errors(first, second, depth, true);
    assert(table.row_views() =~= old(table).row_views() + closed_rows(
        xattrs@,
        first@ + second@,
        old(table).colours,
        depth as nat,
    ));
}

/// Counts the levels that a batch takes in the tree, if they can be counted.
pub fn levels(eggs: &Vec<Egg>) -> (count: Option<usize>)
    ensures
        match count {
            Some(levels) => levels == batch_levels(eggs@, eggs@.len()),
            None => batch_levels(eggs@, eggs@.len()) > usize::MAX,
        },
    decreases eggs,
{
    let mut most: usize = 0;
    let mut i: usize = 0;
    while i < eggs.len()
        invariant
            i <= eggs@.len(),
            most == batch_levels(eggs@, i as nat),
        decreases eggs@.len() - i,
    {
        proof {
            lemma_levels_bound(eggs@, eggs@.len(), i as int);
        }
        let own = match &eggs[i].dir {
            Some(listing) => {
                match levels(&listing.files) {
                    Some(below) => {
                        if below == usize::MAX {
                            return None;
                        }
                        below + 1
                    },
                    None => {
                        return None;
                    },
                }
            },
            None => 1,
        };
        if own > most {
            most = own;
        }
        i = i + 1;
    }
    Some(most)
}

/// The keys of a batch, in the order of arrival.
fn batch_keys(eggs: &Vec<Egg>) -> (found: Vec<u64>)
    ensures
        found@ == keys(eggs@),
{
    let mut found: Vec<u64> = Vec::new();
    let mut i: usize = 0;
    while i < eggs.len()
        invariant
            i <= eggs@.len(),
            found@.len() == i,
            forall|k: int| 0 <= k < i ==> #[trigger] found@[k] == eggs@[k].key,
        decreases eggs@.len() - i,
    {
        found.push(eggs[i].key);
        i = i + 1;
    }
    assert(found@ =~= keys(eggs@));
    found
}

} // verus!
