//! Who can send and receive: users, groups, and the union of both.

use vstd::prelude::*;
use vstd::std_specs::cmp::PartialEqSpecImpl;

verus! {

/// A user, known by username. Two users are the same when their usernames are.
#[derive(Debug, Eq, Hash)]
pub struct User {
    username: String,
}

impl View for User {
    type V = Seq<char>;

    closed spec fn view(&self) -> Seq<char> {
        self.username@
    }
}

impl User {
    pub fn new(username: String) -> (user: Self)
        ensures
            user@ == username@,
    {
        User { username }
    }

    pub fn get_username(&self) -> (username: &String)
        ensures
            username@ == self@,
    {
        &self.username
    }

    /// The user as it is shown: the username.
    pub fn to_string(&self) -> (shown: String)
        ensures
            shown@ == self@,
    {
        self.username.clone()
    }
}

impl Clone for User {
    fn clone(&self) -> (user: Self)
        ensures
            user@ == self@,
    {
        User { username: self.username.clone() }
    }
}

impl PartialEq for User {
    fn eq(&self, other: &Self) -> (same: bool) {
        self.username == other.username
    }
}

impl PartialEqSpecImpl for User {
    open spec fn obeys_eq_spec() -> bool {
        true
    }

    open spec fn eq_spec(&self, other: &Self) -> bool {
        self@ == other@
    }
}

/// A group, known by name. Two groups are the same when their names are.
#[derive(Debug, Eq, Hash)]
pub struct Group {
    groupname: String,
}

impl View for Group {
    type V = Seq<char>;

    closed spec fn view(&self) -> Seq<char> {
        self.groupname@
    }
}

impl Group {
    pub fn new(groupname: String) -> (group: Self)
        ensures
            group@ == groupname@,
    {
        Group { groupname }
    }

    pub fn get_groupname(&self) -> (groupname: &String)
        ensures
            groupname@ == self@,
    {
        &self.groupname
    }
}

impl Clone for Group {
    fn clone(&self) -> (group: Self)
        ensures
            group@ == self@,
    {
        Group { groupname: self.groupname.clone() }
    }
}

impl PartialEq for Group {
    fn eq(&self, other: &Self) -> (same: bool) {
        self.groupname == other.groupname
    }
}

impl PartialEqSpecImpl for Group {
    open spec fn obeys_eq_spec() -> bool {
        true
    }

    open spec fn eq_spec(&self, other: &Self) -> bool {
        self@ == other@
    }
}

/// The mathematical value of a [`People`]: which kind it is, and the name.
pub enum PeopleView {
    User(Seq<char>),
    Group(Seq<char>),
}

/// Whoever can receive a chat: one user, or every member of a group.
#[derive(Debug)]
pub enum People {
    User(User),
    Group(Group),
}

impl View for People {
    type V = PeopleView;

    open spec fn view(&self) -> PeopleView {
        match self {
            People::User(user) => PeopleView::User(user@),
            People::Group(group) => PeopleView::Group(group@),
        }
    }
}

impl Clone for People {
    fn clone(&self) -> (people: Self)
        ensures
            people@ == self@,
    {
        match self {
            People::User(user) => People::User(user.clone()),
            People::Group(group) => People::Group(group.clone()),
        }
    }
}

impl PartialEq for People {
    fn eq(&self, other: &Self) -> (same: bool) {
        match (self, other) {
            (People::User(a), People::User(b)) => a == b,
            (People::Group(a), People::Group(b)) => a == b,
            _ => false,
        }
    }
}

impl PartialEqSpecImpl for People {
    open spec fn obeys_eq_spec() -> bool {
        true
    }

    open spec fn eq_spec(&self, other: &Self) -> bool {
        self@ == other@
    }
}

} // verus!
