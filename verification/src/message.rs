//! What travels between client and server: chats, and the two commands that
//! change who belongs to a group.

use vstd::prelude::*;

use crate::people::{Group, People, PeopleView, User};

verus! {

/// The mathematical value of a [`Chat`].
pub struct ChatView {
    pub sender: Seq<char>,
    pub receiver: PeopleView,
    pub body: Seq<char>,
}

/// A text sent by one user to another user or to a group.
#[derive(Debug, PartialEq)]
pub struct Chat {
    sender: User,
    receiver: People,
    body: String,
}

impl View for Chat {
    type V = ChatView;

    closed spec fn view(&self) -> ChatView {
        ChatView { sender: self.sender@, receiver: self.receiver@, body: self.body@ }
    }
}

impl Chat {
    pub fn new(sender: User, receiver: People, body: String) -> (chat: Self)
        ensures
            chat@ == (ChatView { sender: sender@, receiver: receiver@, body: body@ }),
    {
        Chat { sender, receiver, body }
    }

    pub fn get_sender(&self) -> (sender: &User)
        ensures
            sender@ == self@.sender,
    {
        &self.sender
    }

    pub fn get_receiver(&self) -> (receiver: &People)
        ensures
            receiver@ == self@.receiver,
    {
        &self.receiver
    }

    pub fn get_body(&self) -> (body: &str)
        ensures
            body@ == self@.body,
    {
        self.body.as_str()
    }
}

impl Clone for Chat {
    fn clone(&self) -> (chat: Self)
        ensures
            chat@ == self@,
    {
        Chat {
            sender: self.sender.clone(),
            receiver: self.receiver.clone(),
            body: self.body.clone(),
        }
    }
}

/// The mathematical value of a [`Join`] or a [`Leave`]: who, and which group.
pub struct MembershipView {
    pub sender: Seq<char>,
    pub group: Seq<char>,
}

/// The command by which its sender becomes a member of a group.
#[derive(Debug, PartialEq)]
pub struct Join {
    sender: User,
    group: Group,
}

impl View for Join {
    type V = MembershipView;

    closed spec fn view(&self) -> MembershipView {
        MembershipView { sender: self.sender@, group: self.group@ }
    }
}

impl Join {
    pub fn new(sender: User, group: Group) -> (join: Self)
        ensures
            join@ == (MembershipView { sender: sender@, group: group@ }),
    {
        Join { sender, group }
    }

    pub fn get_sender(&self) -> (sender: &User)
        ensures
            sender@ == self@.sender,
    {
        &self.sender
    }

    pub fn get_group(&self) -> (group: &Group)
        ensures
            group@ == self@.group,
    {
        &self.group
    }
}

impl Clone for Join {
    fn clone(&self) -> (join: Self)
        ensures
            join@ == self@,
    {
        Join { sender: self.sender.clone(), group: self.group.clone() }
    }
}

/// The command by which its sender stops being a member of a group.
#[derive(Debug, PartialEq)]
pub struct Leave {
    sender: User,
    group: Group,
}

impl View for Leave {
    type V = MembershipView;

    closed spec fn view(&self) -> MembershipView {
        MembershipView { sender: self.sender@, group: self.group@ }
    }
}

impl Leave {
    pub fn new(sender: User, group: Group) -> (leave: Self)
        ensures
            leave@ == (MembershipView { sender: sender@, group: group@ }),
    {
        Leave { sender, group }
    }

    pub fn get_sender(&self) -> (sender: &User)
        ensures
            sender@ == self@.sender,
    {
        &self.sender
    }

    pub fn get_group(&self) -> (group: &Group)
        ensures
            group@ == self@.group,
    {
        &self.group
    }
}

impl Clone for Leave {
    fn clone(&self) -> (leave: Self)
        ensures
            leave@ == self@,
    {
        Leave { sender: self.sender.clone(), group: self.group.clone() }
    }
}

/// The mathematical value of a [`Message`].
pub enum MessageView {
    Chat(ChatView),
    Join(MembershipView),
    Leave(MembershipView),
}

/// The envelope in which a client sends a chat or a command to the server.
#[derive(Debug, PartialEq)]
pub enum Message {
    Chat(Chat),
    Join(Join),
    Leave(Leave),
}

impl View for Message {
    type V = MessageView;

    open spec fn view(&self) -> MessageView {
        match self {
            Message::Chat(chat) => MessageView::Chat(chat@),
            Message::Join(join) => MessageView::Join(join@),
            Message::Leave(leave) => MessageView::Leave(leave@),
        }
    }
}

impl Clone for Message {
    fn clone(&self) -> (message: Self)
        ensures
            message@ == self@,
    {
        match self {
            Message::Chat(chat) => Message::Chat(chat.clone()),
            Message::Join(join) => Message::Join(join.clone()),
            Message::Leave(leave) => Message::Leave(leave.clone()),
        }
    }
}

} // verus!
