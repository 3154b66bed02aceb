//! A numbered group together with those who belong to it.

use vstd::prelude::*;

use crate::point::User;

verus! {

/// A group and its users, as one record.
#[derive(Debug)]
pub struct Group {
    id: i64,
    users: Vec<User>,
}

} // verus!
