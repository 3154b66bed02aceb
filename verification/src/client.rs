//! The client's side of the service: who the client is, and what it may
//! send and accept in that name.

use vstd::prelude::*;
use vstd::string::StringExecFns;

use crate::message::{Chat, Message, MessageView};
use crate::people::{People, PeopleView, User};

verus! {

/// The user in whose name a message is sent.
pub open spec fn sender_of(message: MessageView) -> Seq<char> {
    match message {
        MessageView::Chat(chat) => chat.sender,
        MessageView::Join(join) => join.sender,
        MessageView::Leave(leave) => leave.sender,
    }
}

/// A client of the service, as the user it has declared itself to be.
pub struct Client {
    user: User,
}

impl View for Client {
    type V = Seq<char>;

    /// The username that the client has declared.
    closed spec fn view(&self) -> Seq<char> {
        self.user@
    }
}

impl Client {
    /// A client that acts as the user `username`.
    pub fn new(username: &str) -> (client: Self)
        ensures
            client@ == username@,
    {
        Client { user: User::new(String::from_str(username)) }
    }

    /// The user that the client acts as, who is also what the handshake
    /// declares to the server.
    pub fn get_user(&self) -> (user: &User)
        ensures
            user@ == self@,
    {
        &self.user
    }

    /// Whether the client may send `message`: only what goes out in its own
    /// user's name.
    pub fn may_send(&self, message: &Message) -> (allowed: bool)
        ensures
            allowed == (sender_of(message@) == self@),
    {
        match message {
            Message::Chat(chat) => self.user == *chat.get_sender(),
            Message::Join(join) => self.user == *join.get_sender(),
            Message::Leave(leave) => self.user == *leave.get_sender(),
        }
    }

    /// Whether `chat` is one that the server may have sent to this client: a
    /// chat to a user has to be addressed to the client's own user, a chat
    /// to a group may come from any group.
    pub fn accepts(&self, chat: &Chat) -> (accepted: bool)
        ensures
            accepted == match chat@.receiver {
                PeopleView::User(user) => user == self@,
                PeopleView::Group(_) => true,
            },
    {
        match chat.get_receiver() {
            People::User(user) => self.user == *user,
            People::Group(_) => true,
        }
    }
}

impl Clone for Client {
    fn clone(&self) -> (client: Self)
        ensures
            client@ == self@,
    {
        Client { user: self.user.clone() }
    }
}

} // verus!
