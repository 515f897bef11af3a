//! The kinds of column a table can have.

use vstd::prelude::*;

verus! {

/// The side of its column that a cell is pushed to.
#[derive(Clone, Copy, PartialEq, Eq, Debug, Structural)]
pub enum Alignment {
    Left,
    Right,
}

/// How a file's size is written.
#[derive(Clone, Copy, PartialEq, Eq, Debug, Structural)]
pub enum SizeFormat {
    /// In powers of 1000, with a unit such as `k` or `M`.
    DecimalBytes,
    /// In powers of 1024, with a unit such as `Ki` or `Mi`.
    BinaryBytes,
    /// As the plain number of bytes.
    JustBytes,
}

/// Which of a file's timestamps a column shows.
#[derive(Clone, Copy, PartialEq, Eq, Debug, Structural)]
pub enum TimeType {
    FileAccessed,
    FileModified,
    FileCreated,
}

impl TimeType {
    pub open spec fn label(self) -> Seq<char> {
        match self {
            TimeType::FileAccessed => "Date Accessed"@,
            TimeType::FileModified => "Date Modified"@,
            TimeType::FileCreated => "Date Created"@,
        }
    }

    /// The text of the header above a column of this timestamp.
    pub fn header(&self) -> (text: &'static str)
        ensures
            text@ == self.label(),
    {
        match *self {
            TimeType::FileAccessed => "Date Accessed",
            TimeType::FileModified => "Date Modified",
            TimeType::FileCreated => "Date Created",
        }
    }
}

/// One attribute of a file, shown in a column of its own.
#[derive(Clone, Copy, PartialEq, Eq, Debug, Structural)]
pub enum Column {
    Permissions,
    FileSize(SizeFormat),
    Timestamp(TimeType),
    Blocks,
    User,
    Group,
    HardLinks,
    Inode,
    GitStatus,
}

impl Column {
    /// Numbers line up on the right, everything else on the left.
    pub open spec fn aligned(self) -> Alignment {
        match self {
            Column::FileSize(_) => Alignment::Right,
            Column::HardLinks => Alignment::Right,
            Column::Inode => Alignment::Right,
            Column::Blocks => Alignment::Right,
            Column::GitStatus => Alignment::Right,
            _ => Alignment::Left,
        }
    }

    pub open spec fn label(self) -> Seq<char> {
        match self {
            Column::Permissions => "Permissions"@,
            Column::FileSize(_) => "Size"@,
            Column::Timestamp(t) => t.label(),
            Column::Blocks => "Blocks"@,
            Column::User => "User"@,
            Column::Group => "Group"@,
            Column::HardLinks => "Links"@,
            Column::Inode => "inode"@,
            Column::GitStatus => "Git"@,
        }
    }

    pub fn alignment(&self) -> (side: Alignment)
        ensures
            side == self.aligned(),
    {
        match *self {
            Column::FileSize(_) => Alignment::Right,
            Column::HardLinks => Alignment::Right,
            Column::Inode => Alignment::Right,
            Column::Blocks => Alignment::Right,
            Column::GitStatus => Alignment::Right,
            _ => Alignment::Left,
        }
    }

    /// The text of the header above this column.
    pub fn header(&self) -> (text: &'static str)
        ensures
            text@ == self.label(),
    {
        match *self {
            Column::Permissions => "Permissions",
            Column::FileSize(_) => "Size",
            Column::Timestamp(t) => t.header(),
            Column::Blocks => "Blocks",
            Column::User => "User",
            Column::Group => "Group",
            Column::HardLinks => "Links",
            Column::Inode => "inode",
            Column::GitStatus => "Git",
        }
    }
}

} // verus!
