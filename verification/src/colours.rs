//! The theme: which style each part of a row is painted in.

use vstd::prelude::*;
use crate::style::TextStyle;

verus! {

/// The styles of the file-type character that starts the permissions.
#[derive(Clone, Copy, PartialEq, Eq, Debug, Structural)]
pub struct FileTypeColours {
    pub normal: TextStyle,
    pub directory: TextStyle,
    pub symlink: TextStyle,
    pub special: TextStyle,
}

/// The styles of the nine permission bits and of the attribute marker.
#[derive(Clone, Copy, PartialEq, Eq, Debug, Structural)]
pub struct PermissionColours {
    pub user_read: TextStyle,
    pub user_write: TextStyle,
    pub user_execute_file: TextStyle,
    pub user_execute_other: TextStyle,
    pub group_read: TextStyle,
    pub group_write: TextStyle,
    pub group_execute: TextStyle,
    pub other_read: TextStyle,
    pub other_write: TextStyle,
    pub other_execute: TextStyle,
    pub attribute: TextStyle,
}

/// The styles of a size: its number and its unit.
#[derive(Clone, Copy, PartialEq, Eq, Debug, Structural)]
pub struct SizeColours {
    pub numbers: TextStyle,
    pub unit: TextStyle,
}

/// The styles of owners: whether they are the one who lists or not.
#[derive(Clone, Copy, PartialEq, Eq, Debug, Structural)]
pub struct UserColours {
    pub user_you: TextStyle,
    pub user_someone_else: TextStyle,
    pub group_yours: TextStyle,
    pub group_not_yours: TextStyle,
}

/// The styles of a link count.
#[derive(Clone, Copy, PartialEq, Eq, Debug, Structural)]
pub struct LinkColours {
    pub normal: TextStyle,
    pub multi_link_file: TextStyle,
}

/// The styles of the version-control status letters.
#[derive(Clone, Copy, PartialEq, Eq, Debug, Structural)]
pub struct GitColours {
    pub new: TextStyle,
    pub modified: TextStyle,
    pub deleted: TextStyle,
    pub renamed: TextStyle,
    pub typechange: TextStyle,
}

/// Every style that the table paints with.
#[derive(Clone, Copy, PartialEq, Eq, Debug, Structural)]
pub struct Colours {
    pub filetypes: FileTypeColours,
    pub perms: PermissionColours,
    pub size: SizeColours,
    pub users: UserColours,
    pub links: LinkColours,
    pub git: GitColours,
    /// Dashes, and the characters that draw the tree.
    pub punctuation: TextStyle,
    pub date: TextStyle,
    pub inode: TextStyle,
    pub blocks: TextStyle,
    pub header: TextStyle,
    /// Errors shown in place of a name.
    pub broken_arrow: TextStyle,
}

impl Colours {
    /// The theme that paints nothing: every style is plain.
    pub open spec fn colourless() -> Colours {
        let p = TextStyle::plain();
        Colours {
            filetypes: FileTypeColours { normal: p, directory: p, symlink: p, special: p },
            perms: PermissionColours {
                user_read: p,
                user_write: p,
                user_execute_file: p,
                user_execute_other: p,
                group_read: p,
                group_write: p,
                group_execute: p,
                other_read: p,
                other_write: p,
                other_execute: p,
                attribute: p,
            },
            size: SizeColours { numbers: p, unit: p },
            users: UserColours {
                user_you: p,
                user_someone_else: p,
                group_yours: p,
                group_not_yours: p,
            },
            links: LinkColours { normal: p, multi_link_file: p },
            git: GitColours { new: p, modified: p, deleted: p, renamed: p, typechange: p },
            punctuation: p,
            date: p,
            inode: p,
            blocks: p,
            header: p,
            broken_arrow: p,
        }
    }

    pub fn plain() -> (colours: Colours)
        ensures
            colours == Colours::colourless(),
    {
        let p = TextStyle::new();
        Colours {
            filetypes: FileTypeColours { normal: p, directory: p, symlink: p, special: p },
            perms: PermissionColours {
                user_read: p,
                user_write: p,
                user_execute_file: p,
                user_execute_other: p,
                group_read: p,
                group_write: p,
                group_execute: p,
                other_read: p,
                other_write: p,
                other_execute: p,
                attribute: p,
            },
            size: SizeColours { numbers: p, unit: p },
            users: UserColours {
                user_you: p,
                user_someone_else: p,
                group_yours: p,
                group_not_yours: p,
            },
            links: LinkColours { normal: p, multi_link_file: p },
            git: GitColours { new: p, modified: p, deleted: p, renamed: p, typechange: p },
            punctuation: p,
            date: p,
            inode: p,
            blocks: p,
            header: p,
            broken_arrow: p,
        }
    }
}

impl Default for Colours {
    fn default() -> (colours: Colours)
        ensures
            colours == Colours::colourless(),
    {
        Colours::plain()
    }
}

} // verus!
