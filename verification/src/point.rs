//! Users and groups that are known by number, not by name.

use vstd::prelude::*;

pub mod group;
pub mod user;

verus! {

/// A group, known by its number.
#[derive(Debug, PartialEq, Eq, Structural, Hash)]
pub struct Group {
    id: i64,
}

impl View for Group {
    type V = i64;

    closed spec fn view(&self) -> i64 {
        self.id
    }
}

impl Group {
    pub fn new(id: i64) -> (group: Self)
        ensures
            group@ == id,
    {
        Group { id }
    }
}

impl Clone for Group {
    fn clone(&self) -> (group: Self)
        ensures
            group == *self,
    {
        Group { id: self.id }
    }
}

/// A user, known by its number.
#[derive(Debug, PartialEq, Eq, Structural, Hash)]
pub struct User {
    id: i64,
}

impl View for User {
    type V = i64;

    closed spec fn view(&self) -> i64 {
        self.id
    }
}

impl User {
    pub fn new(id: i64) -> (user: Self)
        ensures
            user@ == id,
    {
        User { id }
    }
}

impl Clone for User {
    fn clone(&self) -> (user: Self)
        ensures
            user == *self,
    {
        User { id: self.id }
    }
}

/// One end of a conversation: a user or a group.
#[derive(Debug)]
pub enum Point {
    User(User),
    Group(Group),
}

impl Clone for Point {
    fn clone(&self) -> (point: Self)
        ensures
            point == *self,
    {
        match self {
            Point::User(user) => Point::User(user.clone()),
            Point::Group(group) => Point::Group(group.clone()),
        }
    }
}

} // verus!
