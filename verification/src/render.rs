//! One cell for each attribute of a file: how the values of a file become
//! the styled texts of its row.

use vstd::prelude::*;
use crate::cell::{cell_views, Cell, CellView};
use crate::column::{Column, SizeFormat};
use crate::fields::{
    Blocks, FileFields, Git, GitStatus, Group, Inode, Links, Permissions, Scaling, Size, Time,
    Type, User,
};
use crate::numbers::{byte_length, format_int, grouped};
use crate::style::{fragments, paint, paint_run, painted, painted_run, Fragment, TextStyle};
use crate::table::Table;
use crate::text::{decimal, decimal_text};
use crate::time::{civil, date_text, month_names};
use crate::identities::names;

verus! {

/// A permission bit: its letter in its own style where it is set, a dash
/// in the style of punctuation where it is not.
pub open spec fn bit_part(
    set: bool,
    letter: Seq<char>,
    style: TextStyle,
    punctuation: TextStyle,
) -> (TextStyle, Seq<char>) {
    if set {
        (style, letter)
    } else {
        (punctuation, "-"@)
    }
}

fn bit<'a>(set: bool, letter: &'a str, style: TextStyle, punctuation: TextStyle) -> (part:
    Fragment<'a>)
    ensures
        part@ == bit_part(set, letter@, style, punctuation),
{
    if set {
        Fragment { style, text: letter }
    } else {
        Fragment { style: punctuation, text: "-" }
    }
}

/// The three bits of one class of users: read, write, execute.
pub open spec fn trilogy(
    read: bool,
    write: bool,
    execute: bool,
    r: TextStyle,
    w: TextStyle,
    x: TextStyle,
    punctuation: TextStyle,
) -> Seq<(TextStyle, Seq<char>)> {
    seq![
        bit_part(read, "r"@, r, punctuation),
        bit_part(write, "w"@, w, punctuation),
        bit_part(execute, "x"@, x, punctuation),
    ]
}

fn add_trilogy(
    parts: &mut Vec<Fragment<'static>>,
    read: bool,
    write: bool,
    execute: bool,
    r: TextStyle,
    w: TextStyle,
    x: TextStyle,
    punctuation: TextStyle,
)
    ensures
        final(parts)@.len() == old(parts)@.len() + 3,
        fragments(final(parts)@) == fragments(old(parts)@) + trilogy(
            read,
            write,
            execute,
            r,
            w,
            x,
            punctuation,
        ),
{
    parts.push(bit(read, "r", r, punctuation));
    parts.push(bit(write, "w", w, punctuation));
    parts.push(bit(execute, "x", x, punctuation));
    assert(fragments(parts@) =~= fragments(old(parts)@) + trilogy(
        read,
        write,
        execute,
        r,
        w,
        x,
        punctuation,
    ));
}

fn add_part<'a>(parts: &mut Vec<Fragment<'a>>, part: Fragment<'a>)
    ensures
        final(parts)@.len() == old(parts)@.len() + 1,
        fragments(final(parts)@) == fragments(old(parts)@).push(part@),
{
    parts.push(part);
    assert(fragments(parts@) =~= fragments(old(parts)@).push(part@));
}

impl Table {
    /// The character and style that stand for the kind of a file.
    pub open spec fn type_part(&self, kind: Type) -> (TextStyle, Seq<char>) {
        match kind {
            Type::File => (self.colours.filetypes.normal, "."@),
            Type::Directory => (self.colours.filetypes.directory, "d"@),
            Type::Pipe => (self.colours.filetypes.special, "|"@),
            Type::Link => (self.colours.filetypes.symlink, "l"@),
            Type::Special => (self.colours.filetypes.special, "?"@),
        }
    }

    /// The kind of a file and the three bits of its owner. An owner who may
    /// run a plain file is shown in a style of its own.
    pub open spec fn owner_parts(&self, permissions: Permissions) -> Seq<(TextStyle, Seq<char>)> {
        let c = self.colours.perms;
        seq![self.type_part(permissions.file_type)] + trilogy(
            permissions.user_read,
            permissions.user_write,
            permissions.user_execute,
            c.user_read,
            c.user_write,
            if permissions.file_type == Type::File {
                c.user_execute_file
            } else {
                c.user_execute_other
            },
            self.colours.punctuation,
        )
    }

    /// The parts up to the three bits of the group.
    pub open spec fn shared_parts(&self, permissions: Permissions) -> Seq<(TextStyle, Seq<char>)> {
        let c = self.colours.perms;
        self.owner_parts(permissions) + trilogy(
            permissions.group_read,
            permissions.group_write,
            permissions.group_execute,
            c.group_read,
            c.group_write,
            c.group_execute,
            self.colours.punctuation,
        )
    }

    /// The parts up to the three bits of everybody else: ten in all.
    pub open spec fn open_parts(&self, permissions: Permissions) -> Seq<(TextStyle, Seq<char>)> {
        let c = self.colours.perms;
        self.shared_parts(permissions) + trilogy(
            permissions.other_read,
            permissions.other_write,
            permissions.other_execute,
            c.other_read,
            c.other_write,
            c.other_execute,
            self.colours.punctuation,
        )
    }

    /// The ten parts of a file's permissions, and an `@` as the eleventh
    /// where the file has extended attributes.
    pub open spec fn permissions_parts(&self, permissions: Permissions, xattrs: bool) -> Seq<
        (TextStyle, Seq<char>),
    > {
        self.open_parts(permissions) + if xattrs {
            seq![(self.colours.perms.attribute, "@"@)]
        } else {
            Seq::empty()
        }
    }

    /// The permissions cell: its parts painted as one run, one column wide
    /// each, so 10 wide or 11.
    pub open spec fn permissions_cell(&self, permissions: Permissions, xattrs: bool) -> CellView {
        let parts = self.permissions_parts(permissions, xattrs);
        CellView { text: painted_run(parts), width: parts.len() }
    }

    /// What stands for a value that is not there: a dash in the style of
    /// punctuation, one column wide.
    pub open spec fn dash_cell(&self) -> CellView {
        CellView { text: painted(self.colours.punctuation, "-"@), width: 1 }
    }

    fn dash(&self) -> (cell: Cell)
        ensures
            cell@ == self.dash_cell(),
    {
        Cell { text: paint(self.colours.punctuation, "-"), length: 1 }
    }

    fn type_fragment(&self, kind: Type) -> (part: Fragment<'static>)
        ensures
            part@ == self.type_part(kind),
    {
        match kind {
            Type::File => Fragment { style: self.colours.filetypes.normal, text: "." },
            Type::Directory => Fragment { style: self.colours.filetypes.directory, text: "d" },
            Type::Pipe => Fragment { style: self.colours.filetypes.special, text: "|" },
            Type::Link => Fragment { style: self.colours.filetypes.symlink, text: "l" },
            Type::Special => Fragment { style: self.colours.filetypes.special, text: "?" },
        }
    }

    pub fn render_permissions(&self, permissions: Permissions, xattrs: bool) -> (cell: Cell)
        ensures
            cell@ == self.permissions_cell(permissions, xattrs),
            cell@.width == if xattrs { 11nat } else { 10nat },
    {
        let columns = self.permission_fragments(permissions, xattrs);
        Cell { text: paint_run(&columns), length: columns.len() }
    }

    /// The parts of a file's permissions, in order.
    fn permission_fragments(&self, permissions: Permissions, xattrs: bool) -> (columns: Vec<
        Fragment<'static>,
    >)
        ensures
            fragments(columns@) == self.permissions_parts(permissions, xattrs),
            columns@.len() == if xattrs { 11nat } else { 10nat },
    {
        let mut columns = self.open_fragments(permissions);
        if xattrs {
            add_part(&mut columns, Fragment { style: self.colours.perms.attribute, text: "@" });
            assert(fragments(columns@) =~= self.permissions_parts(permissions, xattrs));
        } else {
            assert(fragments(columns@) =~= self.permissions_parts(permissions, xattrs));
        }
        columns
    }

    fn owner_fragments(&self, permissions: Permissions) -> (columns: Vec<Fragment<'static>>)
        ensures
            fragments(columns@) == self.owner_parts(permissions),
            columns@.len() == 4,
    {
        let c = self.colours.perms;
        let x_colour = match permissions.file_type {
            Type::File => c.user_execute_file,
            _ => c.user_execute_other,
        };
        let mut columns: Vec<Fragment> = Vec::new();
        columns.push(self.type_fragment(permissions.file_type));
        assert(fragments(columns@) =~= seq![self.type_part(permissions.file_type)]);
        add_trilogy(
            &mut columns,
            permissions.user_read,
            permissions.user_write,
            permissions.user_execute,
            c.user_read,
            c.user_write,
            x_colour,
            self.colours.punctuation,
        );
        columns
    }

    fn shared_fragments(&self, permissions: Permissions) -> (columns: Vec<Fragment<'static>>)
        ensures
            fragments(columns@) == self.shared_parts(permissions),
            columns@.len() == 7,
    {
        let c = self.colours.perms;
        let mut columns = self.owner_fragments(permissions);
        add_trilogy(
            &mut columns,
            permissions.group_read,
            permissions.group_write,
            permissions.group_execute,
            c.group_read,
            c.group_write,
            c.group_execute,
            self.colours.punctuation,
        );
        columns
    }

    fn open_fragments(&self, permissions: Permissions) -> (columns: Vec<Fragment<'static>>)
        ensures
            fragments(columns@) == self.open_parts(permissions),
            columns@.len() == 10,
    {
        let c = self.colours.perms;
        let mut columns = self.shared_fragments(permissions);
        add_trilogy(
            &mut columns,
            permissions.other_read,
            permissions.other_write,
            permissions.other_execute,
            c.other_read,
            c.other_write,
            c.other_execute,
            self.colours.punctuation,
        );
        columns
    }

    /// The size cell for a number of bytes under a prefix. Too small for a
    /// prefix, the number stands alone. Below ten of the unit it is shown
    /// with one decimal place, from ten on as a whole number; the unit
    /// follows in a style of its own. The width is the length of number and
    /// unit together.
    pub open spec fn scaled_cell(&self, bytes: u64, scaling: Scaling) -> CellView {
        match scaling {
            Scaling::Unscaled => CellView::painted(self.colours.size.numbers, decimal(bytes as nat)),
            Scaling::Scaled(amount) => {
                let number = if amount.whole < 10 {
                    amount.tenths@
                } else {
                    grouped(self.numeric.thousands_sep@, amount.whole as nat)
                };
                CellView {
                    text: painted_run(
                        seq![
                            (self.colours.size.numbers, number),
                            (self.colours.size.unit, amount.symbol@),
                        ],
                    ),
                    width: byte_length(number + amount.symbol@),
                }
            },
        }
    }

    /// The size cell: a dash where there is no size, else the number of
    /// bytes as the format asks for it. A size of 0 is a size.
    pub open spec fn size_cell(&self, size: Size, size_format: SizeFormat) -> CellView {
        match size {
            Size::Unknown => self.dash_cell(),
            Size::Known(count) => match size_format {
                SizeFormat::JustBytes => CellView::painted(
                    self.colours.size.numbers,
                    grouped(self.numeric.thousands_sep@, count.bytes as nat),
                ),
                SizeFormat::DecimalBytes => self.scaled_cell(count.bytes, count.decimal),
                SizeFormat::BinaryBytes => self.scaled_cell(count.bytes, count.binary),
            },
        }
    }

    pub fn render_size(&self, size: &Size, size_format: SizeFormat) -> (cell: Cell)
        ensures
            cell@ == self.size_cell(*size, size_format),
    {
        match size {
            Size::Known(count) => {
                let scaling = match size_format {
                    SizeFormat::DecimalBytes => &count.decimal,
                    SizeFormat::BinaryBytes => &count.binary,
                    SizeFormat::JustBytes => {
                        return Cell::paint(
                            self.colours.size.numbers,
                            format_int(&self.numeric, count.bytes).as_str(),
                        );
                    },
                };
                match scaling {
                    Scaling::Unscaled => Cell::paint(
                        self.colours.size.numbers,
                        decimal_text(count.bytes).as_str(),
                    ),
                    Scaling::Scaled(amount) => {
                        let number = if amount.whole < 10 {
                            amount.tenths.clone()
                        } else {
                            format_int(&self.numeric, amount.whole)
                        };
                        let mut parts: Vec<Fragment> = Vec::new();
                        assert(fragments(parts@) =~= Seq::empty());
                        add_part(
                            &mut parts,
                            Fragment { style: self.colours.size.numbers, text: number.as_str() },
                        );
                        add_part(
                            &mut parts,
                            Fragment { style: self.colours.size.unit, text: amount.symbol.as_str() },
                        );
                        assert(fragments(parts@) =~= seq![
                            (self.colours.size.numbers, number@),
                            (self.colours.size.unit, amount.symbol@),
                        ]);
                        let mut both = number.clone();
                        both.append(amount.symbol.as_str());
                        let length = both.as_str().as_bytes().len();
                        assert(length == byte_length(number@ + amount.symbol@));
                        Cell { text: paint_run(&parts), length }
                    },
                }
            },
            Size::Unknown => self.dash(),
        }
    }

    /// The group cell: the group's name, or its id in decimal where no name
    /// is known. A known group is yours, and painted so, if the user who
    /// lists is known and either has it as primary group or is named among
    /// its members.
    pub open spec fn group_cell(&self, group: Group) -> CellView {
        match self.users.group(group.0) {
            Some(found) => {
                let yours = match self.users.user(self.users.current_uid) {
                    Some(you) => you.primary_group == found.gid || names(found.members@, you.name@),
                    None => false,
                };
                CellView::painted(
                    if yours {
                        self.colours.users.group_yours
                    } else {
                        self.colours.users.group_not_yours
                    },
                    found.name@,
                )
            },
            None => CellView::painted(
                self.colours.users.group_not_yours,
                decimal(group.0 as nat),
            ),
        }
    }

    pub fn render_group(&self, group: Group) -> (cell: Cell)
        ensures
            cell@ == self.group_cell(group),
    {
        let mut style = self.colours.users.group_not_yours;
        match self.users.get_group_by_gid(group.0) {
            Some(found) => {
                let current_uid = self.users.get_current_uid();
                match self.users.get_user_by_uid(current_uid) {
                    Some(current_user) => {
                        if current_user.primary_group == found.gid || found.has_member(
                            &current_user.name,
                        ) {
                            style = self.colours.users.group_yours;
                        }
                    },
                    None => {},
                }
                Cell::paint(style, found.name.as_str())
            },
            None => Cell::paint(style, decimal_text(group.0 as u64).as_str()),
        }
    }

    /// The link count, its digits in groups, in a style of its own where
    /// there is more than one link.
    pub open spec fn links_cell(&self, links: Links) -> CellView {
        CellView::painted(
            if links.multiple() {
                self.colours.links.multi_link_file
            } else {
                self.colours.links.normal
            },
            grouped(self.numeric.thousands_sep@, links.count as nat),
        )
    }

    pub fn render_links(&self, links: Links) -> (cell: Cell)
        ensures
            cell@ == self.links_cell(links),
    {
        let style = if links.is_multiple() {
            self.colours.links.multi_link_file
        } else {
            self.colours.links.normal
        };
        Cell::paint(style, format_int(&self.numeric, links.count).as_str())
    }

    /// The number of blocks in decimal, or a dash where it is not known.
    pub open spec fn blocks_cell(&self, blocks: Blocks) -> CellView {
        match blocks {
            Blocks::Known(count) => CellView::painted(self.colours.blocks, decimal(count as nat)),
            Blocks::Unknown => self.dash_cell(),
        }
    }

    pub fn render_blocks(&self, blocks: Blocks) -> (cell: Cell)
        ensures
            cell@ == self.blocks_cell(blocks),
    {
        match blocks {
            Blocks::Known(count) => Cell::paint(self.colours.blocks, decimal_text(count).as_str()),
            Blocks::Unknown => self.dash(),
        }
    }

    /// The inode number in decimal.
    pub open spec fn inode_cell(&self, inode: Inode) -> CellView {
        CellView::painted(self.colours.inode, decimal(inode.0 as nat))
    }

    pub fn render_inode(&self, inode: Inode) -> (cell: Cell)
        ensures
            cell@ == self.inode_cell(inode),
    {
        Cell::paint(self.colours.inode, decimal_text(inode.0).as_str())
    }

    /// The date that local clocks showed at the timestamp, held against the
    /// year in which the table was set up.
    pub open spec fn time_cell(&self, timestamp: Time) -> CellView {
        CellView::painted(
            self.colours.date,
            date_text(
                civil(self.tz.local(timestamp.0 as int)),
                month_names(self.time.months@),
                self.current_year as int,
            ),
        )
    }

    pub fn render_time(&self, timestamp: Time) -> (cell: Cell)
        requires
            self.tz.reaches(timestamp.0 as int),
        ensures
            cell@ == self.time_cell(timestamp),
    {
        match self.tz.moment(timestamp.0) {
            Some(date) => Cell::paint(
                self.colours.date,
                date.date_text(&self.time, self.current_year).as_str(),
            ),
            None => Cell::empty(),
        }
    }

    /// The letter and style for one side of a file's status.
    pub open spec fn git_part(&self, status: GitStatus) -> (TextStyle, Seq<char>) {
        match status {
            GitStatus::NotModified => (self.colours.punctuation, "-"@),
            GitStatus::New => (self.colours.git.new, "N"@),
            GitStatus::Modified => (self.colours.git.modified, "M"@),
            GitStatus::Deleted => (self.colours.git.deleted, "D"@),
            GitStatus::Renamed => (self.colours.git.renamed, "R"@),
            GitStatus::TypeChange => (self.colours.git.typechange, "T"@),
        }
    }

    pub fn render_git_char(&self, status: GitStatus) -> (part: Fragment<'static>)
        ensures
            part@ == self.git_part(status),
    {
        match status {
            GitStatus::NotModified => Fragment { style: self.colours.punctuation, text: "-" },
            GitStatus::New => Fragment { style: self.colours.git.new, text: "N" },
            GitStatus::Modified => Fragment { style: self.colours.git.modified, text: "M" },
            GitStatus::Deleted => Fragment { style: self.colours.git.deleted, text: "D" },
            GitStatus::Renamed => Fragment { style: self.colours.git.renamed, text: "R" },
            GitStatus::TypeChange => Fragment { style: self.colours.git.typechange, text: "T" },
        }
    }

    /// The status cell: what is staged, then what is not, two columns wide.
    pub open spec fn git_cell(&self, git: Git) -> CellView {
        CellView {
            text: painted_run(seq![self.git_part(git.staged), self.git_part(git.unstaged)]),
            width: 2,
        }
    }

    pub fn render_git_status(&self, git: Git) -> (cell: Cell)
        ensures
            cell@ == self.git_cell(git),
    {
        let mut parts: Vec<Fragment> = Vec::new();
        parts.push(self.render_git_char(git.staged));
        parts.push(self.render_git_char(git.unstaged));
        assert(fragments(parts@) =~= seq![self.git_part(git.staged), self.git_part(git.unstaged)]);
        Cell { text: paint_run(&parts), length: 2 }
    }

    /// The user cell: the user's name, or the id in decimal where no name
    /// is known, painted as you if the id is that of the user who lists.
    pub open spec fn user_cell(&self, user: User) -> CellView {
        CellView::painted(
            if self.users.current_uid == user.0 {
                self.colours.users.user_you
            } else {
                self.colours.users.user_someone_else
            },
            match self.users.user(user.0) {
                Some(found) => found.name@,
                None => decimal(user.0 as nat),
            },
        )
    }

    pub fn render_user(&self, user: User) -> (cell: Cell)
        ensures
            cell@ == self.user_cell(user),
    {
        let user_name = match self.users.get_user_by_uid(user.0) {
            Some(found) => found.name.clone(),
            None => decimal_text(user.0 as u64),
        };
        let style = if self.users.get_current_uid() == user.0 {
            self.colours.users.user_you
        } else {
            self.colours.users.user_someone_else
        };
        Cell::paint(style, user_name.as_str())
    }

    /// Whether the table can show `column` for `file`: a timestamp has to
    /// lie where the calendar reaches.
    pub open spec fn shows(&self, file: FileFields, column: Column) -> bool {
        column matches Column::Timestamp(kind) ==> self.tz.reaches(file.time_of(kind).0 as int)
    }

    /// The cell of `file` for `column`.
    pub open spec fn cell_for(&self, file: FileFields, column: Column, xattrs: bool) -> CellView {
        match column {
            Column::Permissions => self.permissions_cell(file.permissions, xattrs),
            Column::FileSize(size_format) => self.size_cell(file.size, size_format),
            Column::Timestamp(kind) => self.time_cell(file.time_of(kind)),
            Column::HardLinks => self.links_cell(file.links),
            Column::Inode => self.inode_cell(file.inode),
            Column::Blocks => self.blocks_cell(file.blocks),
            Column::User => self.user_cell(file.user),
            Column::Group => self.group_cell(file.group),
            Column::GitStatus => self.git_cell(file.git),
        }
    }

    pub fn display(&self, file: &FileFields, column: &Column, xattrs: bool) -> (cell: Cell)
        requires
            self.shows(*file, *column),
        ensures
            cell@ == self.cell_for(*file, *column, xattrs),
    {
        match *column {
            Column::Permissions => self.render_permissions(file.permissions, xattrs),
            Column::FileSize(size_format) => self.render_size(&file.size, size_format),
            Column::Timestamp(kind) => self.render_time(file.timestamp(kind)),
            Column::HardLinks => self.render_links(file.links),
            Column::Inode => self.render_inode(file.inode),
            Column::Blocks => self.render_blocks(file.blocks),
            Column::User => self.render_user(file.user),
            Column::Group => self.render_group(file.group),
            Column::GitStatus => self.render_git_status(file.git),
        }
    }

    /// Whether the table can show every one of its columns for `file`.
    pub open spec fn shows_all(&self, file: FileFields) -> bool {
        forall|n: int| 0 <= n < self.columns@.len() ==> self.shows(file, #[trigger] self.columns@[n])
    }

    /// The cells of a file's row: one for each column, in the columns' order.
    pub open spec fn cells_for(&self, file: FileFields, xattrs: bool) -> Seq<CellView> {
        self.columns@.map_values(|column: Column| self.cell_for(file, column, xattrs))
    }

    /// Renders the cells of a file's row from the columns of the table.
    pub fn cells_for_file(&self, file: &FileFields, xattrs: bool) -> (cells: Vec<Cell>)
        requires
            self.shows_all(*file),
        ensures
            cell_views(cells@) == self.cells_for(*file, xattrs),
            cells@.len() == self.columns@.len(),
    {
        let mut cells: Vec<Cell> = Vec::new();
        let mut n: usize = 0;
        while n < self.columns.len()
            invariant
                n <= self.columns@.len(),
                self.shows_all(*file),
                cells@.len() == n,
                forall|k: int|
                    0 <= k < n ==> (#[trigger] cells@[k])@ == self.cell_for(
                        *file,
                        self.columns@[k],
                        xattrs,
                    ),
            decreases self.columns@.len() - n,
        {
            let cell = self.display(file, &self.columns[n], xattrs);
            cells.push(cell);
            n = n + 1;
        }
        assert(cell_views(cells@) =~= self.cells_for(*file, xattrs));
        cells
    }

    /// Whether every timestamp that the columns show of `file` lies where
    /// the calendar reaches, so that its cells can be rendered.
    pub fn can_show(&self, file: &FileFields) -> (ok: bool)
        ensures
            ok == self.shows_all(*file),
    {
        let mut n: usize = 0;
        while n < self.columns.len()
            invariant
                n <= self.columns@.len(),
                forall|k: int| 0 <= k < n ==> self.shows(*file, #[trigger] self.columns@[k]),
            decreases self.columns@.len() - n,
        {
            match self.columns[n] {
                Column::Timestamp(kind) => {
                    if self.tz.moment(file.timestamp(kind).0).is_none() {
                        assert(!self.shows(*file, self.columns@[n as int]));
                        return false;
                    }
                },
                _ => {},
            }
            n = n + 1;
        }
        true
    }
}

} // verus!
