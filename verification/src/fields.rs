//! The values that a file is listed with, one type for each column.

use vstd::prelude::*;
use crate::column::TimeType;

verus! {

/// The kind of a file, shown as the first character of its permissions.
#[derive(Clone, Copy, PartialEq, Eq, Debug, Structural)]
pub enum Type {
    File,
    Directory,
    Pipe,
    Link,
    Special,
}

/// A file's kind and its nine permission bits.
#[derive(Clone, Copy, PartialEq, Eq, Debug, Structural)]
pub struct Permissions {
    pub file_type: Type,
    pub user_read: bool,
    pub user_write: bool,
    pub user_execute: bool,
    pub group_read: bool,
    pub group_write: bool,
    pub group_execute: bool,
    pub other_read: bool,
    pub other_write: bool,
    pub other_execute: bool,
}

/// The number of hard links to a file.
#[derive(Clone, Copy, PartialEq, Eq, Debug, Structural)]
pub struct Links {
    pub count: u64,
}

impl Links {
    /// More than one link leads to the file, which is worth pointing out.
    pub open spec fn multiple(self) -> bool {
        self.count > 1
    }

    /// Whether more than one link leads to the file.
    pub fn is_multiple(&self) -> (multiple: bool)
        ensures
            multiple == self.multiple(),
    {
        self.count > 1
    }
}

/// A file's inode number.
#[derive(Clone, Copy, PartialEq, Eq, Debug, Structural)]
pub struct Inode(pub u64);

/// The number of blocks a file takes, where that is known.
#[derive(Clone, Copy, PartialEq, Eq, Debug, Structural)]
pub enum Blocks {
    Known(u64),
    Unknown,
}

/// The id of the user who owns a file.
#[derive(Clone, Copy, PartialEq, Eq, Debug, Structural)]
pub struct User(pub u32);

/// The id of the group that owns a file.
#[derive(Clone, Copy, PartialEq, Eq, Debug, Structural)]
pub struct Group(pub u32);

/// A timestamp, in seconds since the start of 1970.
#[derive(Clone, Copy, PartialEq, Eq, Debug, Structural)]
pub struct Time(pub i64);

/// What version control says of one side of a file: staged or not.
#[derive(Clone, Copy, PartialEq, Eq, Debug, Structural)]
pub enum GitStatus {
    NotModified,
    New,
    Modified,
    Deleted,
    Renamed,
    TypeChange,
}

/// A file's version-control status: what is staged, and what is not.
#[derive(Clone, Copy, PartialEq, Eq, Debug, Structural)]
pub struct Git {
    pub staged: GitStatus,
    pub unstaged: GitStatus,
}

/// An amount in the unit of a prefix, as far as the table reads it. The
/// amount itself is a fraction and is worked out where the size is read.
#[derive(Clone, Debug, PartialEq, Eq)]
pub struct Scaled {
    /// The symbol of the unit, such as `k` or `Mi`.
    pub symbol: String,
    /// The whole part of the amount.
    pub whole: u64,
    /// The amount written with one decimal place.
    pub tenths: String,
}

/// What a prefix makes of a number of bytes.
#[derive(Clone, Debug, PartialEq, Eq)]
pub enum Scaling {
    /// The number is too small for any prefix and stands as it is.
    Unscaled,
    Scaled(Scaled),
}

/// A number of bytes, and what the decimal and the binary prefixes make
/// of it.
#[derive(Clone, Debug, PartialEq, Eq)]
pub struct ByteCount {
    pub bytes: u64,
    pub decimal: Scaling,
    pub binary: Scaling,
}

/// The size of a file, where it has one: a directory has none.
#[derive(Clone, Debug, PartialEq, Eq)]
pub enum Size {
    Known(ByteCount),
    Unknown,
}

/// Everything the columns show of one file.
#[derive(Clone, Debug, PartialEq, Eq)]
pub struct FileFields {
    pub permissions: Permissions,
    pub size: Size,
    pub modified: Time,
    pub created: Time,
    pub accessed: Time,
    pub links: Links,
    pub inode: Inode,
    pub blocks: Blocks,
    pub user: User,
    pub group: Group,
    pub git: Git,
}

impl FileFields {
    pub open spec fn time_of(&self, kind: TimeType) -> Time {
        match kind {
            TimeType::FileAccessed => self.accessed,
            TimeType::FileModified => self.modified,
            TimeType::FileCreated => self.created,
        }
    }

    /// The timestamp of the given kind.
    pub fn timestamp(&self, kind: TimeType) -> (time: Time)
        ensures
            time == self.time_of(kind),
    {
        match kind {
            TimeType::FileAccessed => self.accessed,
            TimeType::FileModified => self.modified,
            TimeType::FileCreated => self.created,
        }
    }
}

/// An extended attribute of a file: its name and the length of its value.
#[derive(Clone, Debug, PartialEq, Eq)]
pub struct Attribute {
    pub name: String,
    pub size: usize,
}

/// Something that went wrong while a file was looked at: the message, and
/// the path it happened at where that is known.
#[derive(Clone, Debug, PartialEq, Eq)]
pub struct Problem {
    pub message: String,
    pub path: Option<String>,
}

impl Problem {
    /// The path as text, if there is one.
    pub open spec fn path_view(&self) -> Option<Seq<char>> {
        match self.path {
            Some(p) => Some(p@),
            None => None,
        }
    }
}

} // verus!
