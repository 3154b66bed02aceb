//! The server's side of the service: what each message from a client does
//! to the routing store, and what each connected user is sent.

use std::sync::mpsc::Receiver;

use vstd::prelude::*;
use vstd::string::StringExecFns;

use crate::buffer::WriteStep;
use crate::message::{Chat, Join, Leave, Message};
use crate::people::{Group, User};
use crate::pulse;
use crate::store::{operation, perform, MemoryStore, Routing, Store};

verus! {

/// A server that is ready to be started: where it will listen, and the
/// routing store that its connections will share.
pub struct Server<'a, S: Store> {
    host: &'a str,
    port: &'a str,
    inner: ServerInner<S>,
}

/// What the connections of one server share: the routing store.
pub struct ServerInner<S: Store> {
    store: S,
}

impl<'a> Server<'a, MemoryStore> {
    /// A server for `host` and `port` that keeps its routing in memory, with
    /// nothing in it yet.
    pub fn new(host: &'a str, port: &'a str) -> (server: Self)
        ensures
            server.host()@ == host@,
            server.port()@ == port@,
            server.inner().inv(),
            server.inner().routing() == Routing::empty(),
    {
        Server { host, port, inner: ServerInner::new(Server::store()) }
    }

    /// The store that a new server starts with.
    pub fn store() -> (store: MemoryStore)
        ensures
            store.inv(),
            store.routing() == Routing::empty(),
    {
        MemoryStore::new()
    }
}

impl<'a, S: Store> Server<'a, S> {
    /// A server for `host` and `port` over a store that is already there.
    pub fn with_store(host: &'a str, port: &'a str, store: S) -> (server: Self)
        requires
            store.inv(),
        ensures
            server.host()@ == host@,
            server.port()@ == port@,
            server.inner().inv(),
            server.inner().routing() == store.routing(),
    {
        Server { host, port, inner: ServerInner::new(store) }
    }

    pub closed spec fn host(&self) -> &'a str {
        self.host
    }

    pub closed spec fn port(&self) -> &'a str {
        self.port
    }

    pub closed spec fn inner(&self) -> ServerInner<S> {
        self.inner
    }

    /// The address to listen on: host and port with a colon between them.
    pub fn address(&self) -> (address: String)
        ensures
            address@ == self.host()@ + ":"@ + self.port()@,
    {
        String::from_str(self.host).concat(":").concat(self.port)
    }

    /// Gives up the address and hands out what the connections share.
    pub fn into_inner(self) -> (inner: ServerInner<S>)
        ensures
            inner == self.inner(),
    {
        self.inner
    }
}

impl<S: Store> ServerInner<S> {
    /// The state of the routing store.
    pub closed spec fn routing(&self) -> Routing {
        self.store.routing()
    }

    /// What the store needs to hold of its own data.
    pub closed spec fn inv(&self) -> bool {
        self.store.inv()
    }

    /// The shared part of a server over `store`.
    pub fn new(store: S) -> (inner: Self)
        requires
            store.inv(),
        ensures
            inner.inv(),
            inner.routing() == store.routing(),
    {
        ServerInner { store }
    }

    /// Does what a message from a client asks for: a chat is queued for
    /// whoever is to receive it, a join or a leave changes who belongs to the
    /// group.
    pub fn handle_message(&mut self, message: Message)
        requires
            old(self).inv(),
        ensures
            final(self).inv(),
            final(self).routing() == old(self).routing().route(message@),
    {
        perform(&mut self.store, operation(message));
    }

    /// Queues `chat` for the user it is addressed to, or for the members of
    /// the group it is addressed to, its sender left out.
    pub fn queue_chat(&mut self, chat: Chat)
        requires
            old(self).inv(),
        ensures
            final(self).inv(),
            final(self).routing() == old(self).routing().deliver(chat@),
    {
        perform(&mut self.store, operation(Message::Chat(chat)));
    }

    /// Makes the sender of `join` a member of its group.
    pub fn join_group(&mut self, join: Join)
        requires
            old(self).inv(),
        ensures
            final(self).inv(),
            final(self).routing() == old(self).routing().add_group_member(
                join@.sender,
                join@.group,
            ),
    {
        self.store.add_group_member(join.get_sender().clone(), join.get_group());
    }

    /// Ends the membership of the sender of `leave` in its group.
    pub fn leave_group(&mut self, leave: Leave)
        requires
            old(self).inv(),
        ensures
            final(self).inv(),
            final(self).routing() == old(self).routing().remove_group_member(
                leave@.sender,
                leave@.group,
            ),
    {
        self.store.remove_group_member(leave.get_sender(), leave.get_group());
    }

    /// Appends `chat` to `user`'s queue.
    pub fn queue_user_chat(&mut self, user: &User, chat: Chat)
        requires
            old(self).inv(),
        ensures
            final(self).inv(),
            final(self).routing() == old(self).routing().queue_chat(user@, chat@),
    {
        self.store.queue_chat(user, chat);
    }

    /// Appends `chat` to the queue of every member of `group` but its sender.
    pub fn queue_group_chat(&mut self, group: &Group, chat: Chat)
        requires
            old(self).inv(),
        ensures
            final(self).inv(),
            final(self).routing() == old(self).routing().queue_group_chat(group@, chat@),
    {
        self.store.queue_group_chat(group, chat);
    }

    /// The chat that is to be written to `user`'s connection next, if one
    /// waits. It stays in the queue until [`ServerInner::chat_written`] hears
    /// that the whole frame is out.
    pub fn first_chat(&self, user: &User) -> (chat: Option<Chat>)
        requires
            self.inv(),
        ensures
            match chat {
                Some(chat) => self.routing().front_chat(user@) == Some(chat@),
                None => self.routing().front_chat(user@) is None,
            },
    {
        self.store.front_chat(user)
    }

    /// Takes in what became of the write of `user`'s first chat: the chat
    /// leaves the queue when the whole frame has been written, and stays in
    /// it otherwise.
    pub fn chat_written(&mut self, user: &User, step: &WriteStep)
        requires
            old(self).inv(),
        ensures
            final(self).inv(),
            final(self).routing() == if step is Done {
                old(self).routing().dequeue_chat(user@)
            } else {
                old(self).routing()
            },
    {
        match step {
            WriteStep::Done => self.store.dequeue_chat(user),
            _ => {},
        }
    }

    /// Whether the writing half of a connection is to go on: it stops when
    /// the reading half has ended and dropped its end of the channel.
    pub fn is_pulsing(&self, pulse_receiver: &Receiver<()>) -> bool {
        pulse::is_pulsing(pulse_receiver)
    }
}

} // verus!
