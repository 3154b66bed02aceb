//! A numbered user together with what waits for that user.

use std::collections::vec_deque::VecDeque;

use vstd::prelude::*;

use crate::message::Message;

verus! {

/// A user and the messages that wait for that user, as one record.
#[derive(Debug)]
pub struct User {
    id: i64,
    pending_messages: VecDeque<Message>,
}

} // verus!
