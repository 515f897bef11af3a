//! Who the users and groups are: what the table knows of the system's
//! accounts while it renders owners.

use vstd::prelude::*;

verus! {

/// A user account.
#[derive(Clone, Debug, PartialEq, Eq)]
pub struct UserRecord {
    pub uid: u32,
    pub name: String,
    pub primary_group: u32,
}

/// A group and the names of its members.
#[derive(Clone, Debug, PartialEq, Eq)]
pub struct GroupRecord {
    pub gid: u32,
    pub name: String,
    pub members: Vec<String>,
}

/// The accounts that are known, and the user for whom the listing is made.
/// Of two records with the same id the one added later counts.
#[derive(Clone, Debug, PartialEq, Eq)]
pub struct Identities {
    pub current_uid: u32,
    pub users: Vec<UserRecord>,
    pub groups: Vec<GroupRecord>,
}

/// The position of the last user with `uid`, or -1 if there is none.
pub open spec fn user_position(users: Seq<UserRecord>, uid: u32) -> int
    decreases users.len(),
{
    if users.len() == 0 {
        -1
    } else if users.last().uid == uid {
        users.len() - 1
    } else {
        user_position(users.drop_last(), uid)
    }
}

/// The position of the last group with `gid`, or -1 if there is none.
pub open spec fn group_position(groups: Seq<GroupRecord>, gid: u32) -> int
    decreases groups.len(),
{
    if groups.len() == 0 {
        -1
    } else if groups.last().gid == gid {
        groups.len() - 1
    } else {
        group_position(groups.drop_last(), gid)
    }
}

/// A position is -1 or that of a record with the id.
pub proof fn lemma_user_position(users: Seq<UserRecord>, uid: u32)
    ensures
        -1 <= user_position(users, uid) < users.len(),
        user_position(users, uid) >= 0 ==> users[user_position(users, uid)].uid == uid,
    decreases users.len(),
{
    if users.len() > 0 && users.last().uid != uid {
        lemma_user_position(users.drop_last(), uid);
    }
}

/// A position is -1 or that of a record with the id.
pub proof fn lemma_group_position(groups: Seq<GroupRecord>, gid: u32)
    ensures
        -1 <= group_position(groups, gid) < groups.len(),
        group_position(groups, gid) >= 0 ==> groups[group_position(groups, gid)].gid == gid,
    decreases groups.len(),
{
    if groups.len() > 0 && groups.last().gid != gid {
        lemma_group_position(groups.drop_last(), gid);
    }
}

/// Whether `name` is among the texts of `members`.
pub open spec fn names(members: Seq<String>, name: Seq<char>) -> bool {
    exists|i: int| 0 <= i < members.len() && (#[trigger] members[i])@ == name
}

impl GroupRecord {
    /// Whether the group lists `name` as a member.
    pub fn has_member(&self, name: &String) -> (found: bool)
        ensures
            found == names(self.members@, name@),
    {
        let mut i: usize = 0;
        while i < self.members.len()
            invariant
                i <= self.members@.len(),
                forall|k: int| 0 <= k < i ==> (#[trigger] self.members@[k])@ != name@,
            decreases self.members@.len() - i,
        {
            if self.members[i] == *name {
                return true;
            }
            i = i + 1;
        }
        false
    }
}

impl Identities {
    /// The user with `uid` as far as it is known.
    pub open spec fn user(&self, uid: u32) -> Option<UserRecord> {
        if user_position(self.users@, uid) >= 0 {
            Some(self.users@[user_position(self.users@, uid)])
        } else {
            None
        }
    }

    /// The group with `gid` as far as it is known.
    pub open spec fn group(&self, gid: u32) -> Option<GroupRecord> {
        if group_position(self.groups@, gid) >= 0 {
            Some(self.groups@[group_position(self.groups@, gid)])
        } else {
            None
        }
    }

    /// Nobody is known yet but the id of the one who lists.
    pub fn with_current_uid(current_uid: u32) -> (known: Identities)
        ensures
            known.current_uid == current_uid,
            known.users@.len() == 0,
            known.groups@.len() == 0,
    {
        Identities { current_uid, users: Vec::new(), groups: Vec::new() }
    }

    pub fn add_user(&mut self, user: UserRecord)
        ensures
            final(self).current_uid == old(self).current_uid,
            final(self).groups == old(self).groups,
            final(self).users@ == old(self).users@.push(user),
            final(self).user(user.uid) == Some(user),
            forall|uid: u32| uid != user.uid ==> final(self).user(uid) == old(self).user(uid),
    {
        self.users.push(user);
        assert(self.users@.drop_last() =~= old(self).users@);
        assert forall|uid: u32| uid != user.uid implies self.user(uid) == old(self).user(uid) by {
            lemma_user_position(old(self).users@, uid);
        }
    }

    pub fn add_group(&mut self, group: GroupRecord)
        ensures
            final(self).current_uid == old(self).current_uid,
            final(self).users == old(self).users,
            final(self).groups@ == old(self).groups@.push(group),
            final(self).group(group.gid) == Some(group),
            forall|gid: u32| gid != group.gid ==> final(self).group(gid) == old(self).group(gid),
    {
        self.groups.push(group);
        assert(self.groups@.drop_last() =~= old(self).groups@);
        assert forall|gid: u32| gid != group.gid implies self.group(gid) == old(self).group(
            gid,
        ) by {
            lemma_group_position(old(self).groups@, gid);
        }
    }

    pub fn get_current_uid(&self) -> (uid: u32)
        ensures
            uid == self.current_uid,
    {
        self.current_uid
    }

    pub fn get_user_by_uid(&self, uid: u32) -> (found: Option<&UserRecord>)
        ensures
            match found {
                Some(user) => self.user(uid) == Some(*user),
                None => self.user(uid) is None,
            },
    {
        let mut i: usize = self.users.len();
        assert(self.users@.take(i as int) =~= self.users@);
        while i > 0
            invariant
                i <= self.users@.len(),
                user_position(self.users@, uid) == user_position(self.users@.take(i as int), uid),
            decreases i,
        {
            proof {
                let part = self.users@.take(i as int);
                assert(part.last() == self.users@[i - 1]);
                assert(part.drop_last() =~= self.users@.take(i - 1));
            }
            i = i - 1;
            if self.users[i].uid == uid {
                return Some(&self.users[i]);
            }
        }
        None
    }

    pub fn get_group_by_gid(&self, gid: u32) -> (found: Option<&GroupRecord>)
        ensures
            match found {
                Some(group) => self.group(gid) == Some(*group),
                None => self.group(gid) is None,
            },
    {
        let mut i: usize = self.groups.len();
        assert(self.groups@.take(i as int) =~= self.groups@);
        while i > 0
            invariant
                i <= self.groups@.len(),
                group_position(self.groups@, gid) == group_position(
                    self.groups@.take(i as int),
                    gid,
                ),
            decreases i,
        {
            proof {
                let part = self.groups@.take(i as int);
                assert(part.last() == self.groups@[i - 1]);
                assert(part.drop_last() =~= self.groups@.take(i - 1));
            }
            i = i - 1;
            if self.groups[i].gid == gid {
                return Some(&self.groups[i]);
            }
        }
        None
    }
}

} // verus!
