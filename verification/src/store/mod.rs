//! The routing store: who belongs to which group, and which chats wait for
//! whom. A store is described by its [`Routing`]; every operation is stated as
//! a step from one routing to the next.

use vstd::prelude::*;

use crate::message::{Chat, ChatView, Message, MessageView};
use crate::people::{Group, People, PeopleView, User};

pub mod memory;

pub use self::memory::MemoryStore;

verus! {

/// The state of a routing store, as mathematics: for every group name the set
/// of its members, and for every username the chats that wait for that user,
/// oldest first. Both maps are total: a group that nobody joined has no
/// member, a user for whom nothing waits has an empty queue.
pub struct Routing {
    pub members: Map<Seq<char>, Set<Seq<char>>>,
    pub pending: Map<Seq<char>, Seq<ChatView>>,
}

impl Routing {
    /// Both maps know every name.
    pub open spec fn total(self) -> bool {
        &&& forall|group: Seq<char>| self.members.dom().contains(group)
        &&& forall|user: Seq<char>| self.pending.dom().contains(user)
    }

    /// The routing of a store in which nothing has happened yet.
    pub open spec fn empty() -> Routing {
        Routing {
            members: Map::total(|group: Seq<char>| Set::<Seq<char>>::empty()),
            pending: Map::total(|user: Seq<char>| Seq::<ChatView>::empty()),
        }
    }

    /// The chat that `user` is to receive next, if one waits.
    pub open spec fn front_chat(self, user: Seq<char>) -> Option<ChatView> {
        if self.pending[user].len() > 0 {
            Some(self.pending[user][0])
        } else {
            None
        }
    }

    /// `chat` joins the end of `user`'s queue.
    pub open spec fn queue_chat(self, user: Seq<char>, chat: ChatView) -> Routing {
        Routing { pending: self.pending.insert(user, self.pending[user].push(chat)), ..self }
    }

    /// The oldest chat leaves `user`'s queue; an empty queue stays empty.
    pub open spec fn dequeue_chat(self, user: Seq<char>) -> Routing {
        if self.pending[user].len() > 0 {
            Routing { pending: self.pending.insert(user, self.pending[user].drop_first()), ..self }
        } else {
            self
        }
    }

    /// Whether a chat to `group` reaches `user`: members get it, but never
    /// its own sender.
    pub open spec fn reaches(self, group: Seq<char>, chat: ChatView, user: Seq<char>) -> bool {
        self.members[group].contains(user) && user != chat.sender
    }

    /// `chat` joins the end of the queue of every member of `group` but its
    /// sender.
    pub open spec fn queue_group_chat(self, group: Seq<char>, chat: ChatView) -> Routing {
        Routing {
            pending: Map::total(
                |user: Seq<char>|
                    if self.reaches(group, chat, user) {
                        self.pending[user].push(chat)
                    } else {
                        self.pending[user]
                    },
            ),
            ..self
        }
    }

    /// `user` is a member of `group` from now on.
    pub open spec fn add_group_member(self, user: Seq<char>, group: Seq<char>) -> Routing {
        Routing { members: self.members.insert(group, self.members[group].insert(user)), ..self }
    }

    /// `user` is no member of `group` from now on.
    pub open spec fn remove_group_member(self, user: Seq<char>, group: Seq<char>) -> Routing {
        Routing { members: self.members.insert(group, self.members[group].remove(user)), ..self }
    }

    /// `chat` goes where it is addressed: to one user's queue, or to the
    /// queues of a group's members.
    pub open spec fn deliver(self, chat: ChatView) -> Routing {
        match chat.receiver {
            PeopleView::User(user) => self.queue_chat(user, chat),
            PeopleView::Group(group) => self.queue_group_chat(group, chat),
        }
    }

    /// What a message from a client does to the routing.
    pub open spec fn route(self, message: MessageView) -> Routing {
        match message {
            MessageView::Chat(chat) => self.deliver(chat),
            MessageView::Join(join) => self.add_group_member(join.sender, join.group),
            MessageView::Leave(leave) => self.remove_group_member(leave.sender, leave.group),
        }
    }

    /// What one operation of a store does to the routing.
    pub open spec fn perform(self, operation: OperationView) -> Routing {
        match operation {
            OperationView::QueueChat(user, chat) => self.queue_chat(user, chat),
            OperationView::QueueGroupChat(group, chat) => self.queue_group_chat(group, chat),
            OperationView::AddGroupMember(user, group) => self.add_group_member(user, group),
            OperationView::RemoveGroupMember(user, group) => self.remove_group_member(user, group),
        }
    }
}

/// The mathematical value of an [`Operation`].
pub enum OperationView {
    QueueChat(Seq<char>, ChatView),
    QueueGroupChat(Seq<char>, ChatView),
    AddGroupMember(Seq<char>, Seq<char>),
    RemoveGroupMember(Seq<char>, Seq<char>),
}

/// One of the operations by which a message changes a store, with what the
/// operation is to be called with.
#[derive(Debug)]
pub enum Operation {
    QueueChat(User, Chat),
    QueueGroupChat(Group, Chat),
    AddGroupMember(User, Group),
    RemoveGroupMember(User, Group),
}

impl View for Operation {
    type V = OperationView;

    open spec fn view(&self) -> OperationView {
        match self {
            Operation::QueueChat(user, chat) => OperationView::QueueChat(user@, chat@),
            Operation::QueueGroupChat(group, chat) => OperationView::QueueGroupChat(group@, chat@),
            Operation::AddGroupMember(user, group) => OperationView::AddGroupMember(user@, group@),
            Operation::RemoveGroupMember(user, group) => OperationView::RemoveGroupMember(
                user@,
                group@,
            ),
        }
    }
}

/// The operation that `message` asks of the store.
pub open spec fn asked(message: MessageView) -> OperationView {
    match message {
        MessageView::Chat(chat) => match chat.receiver {
            PeopleView::User(user) => OperationView::QueueChat(user, chat),
            PeopleView::Group(group) => OperationView::QueueGroupChat(group, chat),
        },
        MessageView::Join(join) => OperationView::AddGroupMember(join.sender, join.group),
        MessageView::Leave(leave) => OperationView::RemoveGroupMember(leave.sender, leave.group),
    }
}

/// Routing a message is performing the operation that it asks for.
pub proof fn lemma_route_is_perform(routing: Routing, message: MessageView)
    ensures
        routing.route(message) == routing.perform(asked(message)),
{
}

/// The operation that `message` asks of the store: a chat is queued for the
/// user or for the group that it is addressed to, a join adds its sender to
/// the group and a leave removes it.
pub fn operation(message: Message) -> (operation: Operation)
    ensures
        operation@ == asked(message@),
{
    match message {
        Message::Chat(chat) => {
            match chat.get_receiver() {
                People::User(user) => {
                    let user = user.clone();
                    Operation::QueueChat(user, chat)
                },
                People::Group(group) => {
                    let group = group.clone();
                    Operation::QueueGroupChat(group, chat)
                },
            }
        },
        Message::Join(join) => Operation::AddGroupMember(
            join.get_sender().clone(),
            join.get_group().clone(),
        ),
        Message::Leave(leave) => Operation::RemoveGroupMember(
            leave.get_sender().clone(),
            leave.get_group().clone(),
        ),
    }
}

/// The usernames of `users`, in their order.
pub open spec fn usernames(users: Seq<User>) -> Seq<Seq<char>> {
    users.map_values(|user: User| user@)
}

/// The test that every name but `sender` passes.
pub open spec fn is_other(sender: Seq<char>) -> spec_fn(Seq<char>) -> bool {
    |name: Seq<char>| name != sender
}

/// `names` without `sender`, in their order.
pub open spec fn others(names: Seq<Seq<char>>, sender: Seq<char>) -> Seq<Seq<char>> {
    names.filter(is_other(sender))
}

/// A name is among `others(names, sender)` exactly when it is among `names`
/// and is not `sender`; and where no name stands twice in `names`, none does
/// in `others(names, sender)`.
pub proof fn lemma_others(names: Seq<Seq<char>>, sender: Seq<char>)
    ensures
        forall|name: Seq<char>| #[trigger]
            others(names, sender).contains(name) <==> names.contains(name) && name != sender,
        names.no_duplicates() ==> others(names, sender).no_duplicates(),
    decreases names.len(),
{
    let keep = is_other(sender);
    if names.len() == 0 {
        assert(names.filter(keep) =~= Seq::empty()) by {
            reveal(Seq::filter);
        }
    } else {
        let front = names.drop_last();
        let last = names.last();
        lemma_others(front, sender);
        assert(names =~= front.push(last));
        front.lemma_filter_push(last, keep);
        assert forall|name: Seq<char>| #[trigger]
            others(names, sender).contains(name) <==> names.contains(name) && name
                != sender by {
            if names.contains(name) {
                let i = choose|i: int| 0 <= i < names.len() && names[i] == name;
                if i < front.len() {
                    assert(front[i] == name);
                }
            }
            if others(front, sender).contains(name) {
                let i = choose|i: int|
                    0 <= i < others(front, sender).len() && others(front, sender)[i] == name;
                assert(others(names, sender)[i] == name);
            }
            if keep(last) {
                assert(others(names, sender)[others(front, sender).len() as int] == last);
            }
        }
        if names.no_duplicates() {
            assert forall|i: int, j: int|
                0 <= i < front.len() && 0 <= j < front.len() && i != j implies front[i]
                != front[j] by {
                assert(front[i] == names[i] && front[j] == names[j]);
            }
            if keep(last) {
                if others(front, sender).contains(last) {
                    let i = choose|i: int| 0 <= i < front.len() && front[i] == last;
                    assert(names[i] == names[names.len() - 1]);
                }
            }
        }
    }
}

/// Those of `members` who are to receive `chat` when it goes to their group:
/// all but its sender.
pub fn recipients(members: &Vec<User>, chat: &Chat) -> (to: Vec<User>)
    ensures
        usernames(to@) == others(usernames(members@), chat@.sender),
{
    let ghost keep = is_other(chat@.sender);
    let mut to: Vec<User> = Vec::new();
    let mut i: usize = 0;
    proof {
        assert(usernames(members@.take(0)).filter(keep) =~= Seq::empty()) by {
            reveal(Seq::filter);
        }
        assert(usernames(to@) =~= Seq::empty());
    }
    while i < members.len()
        invariant
            i <= members@.len(),
            keep == is_other(chat@.sender),
            usernames(to@) == usernames(members@.take(i as int)).filter(keep),
        decreases members@.len() - i,
    {
        let member = &members[i];
        proof {
            let seen = members@.take(i as int);
            members@.lemma_take_succ_push(i as int);
            seen.lemma_push_map_commute(|user: User| user@, members@[i as int]);
            usernames(seen).lemma_filter_push(members@[i as int]@, keep);
        }
        if *member != *chat.get_sender() {
            let copy = member.clone();
            proof {
                to@.lemma_push_map_commute(|user: User| user@, copy);
            }
            to.push(copy);
        }
        i = i + 1;
    }
    proof {
        members@.lemma_take_len();
    }
    to
}

/// What a routing store offers. Backends differ in where they keep the
/// state, not in what the operations do to it.
pub trait Store {
    /// The state of the store.
    spec fn routing(&self) -> Routing;

    /// What the backend needs to hold of its own data. Every constructor
    /// establishes it and every operation keeps it.
    spec fn inv(&self) -> bool;

    /// The state of a store knows every name.
    proof fn lemma_routing_total(&self)
        requires
            self.inv(),
        ensures
            self.routing().total(),
    ;

    /// The chat at the head of `user`'s queue, which stays there.
    fn front_chat(&self, user: &User) -> (chat: Option<Chat>)
        requires
            self.inv(),
        ensures
            match chat {
                Some(chat) => self.routing().front_chat(user@) == Some(chat@),
                None => self.routing().front_chat(user@) is None,
            },
    ;

    /// Appends `chat` to `user`'s queue.
    fn queue_chat(&mut self, user: &User, chat: Chat)
        requires
            old(self).inv(),
        ensures
            final(self).inv(),
            final(self).routing() == old(self).routing().queue_chat(user@, chat@),
    ;

    /// Removes the head of `user`'s queue, if there is one.
    fn dequeue_chat(&mut self, user: &User)
        requires
            old(self).inv(),
        ensures
            final(self).inv(),
            final(self).routing() == old(self).routing().dequeue_chat(user@),
    ;

    /// Appends `chat` to the queue of every member of `group` except the
    /// chat's sender. A group without members gets nothing.
    fn queue_group_chat(&mut self, group: &Group, chat: Chat)
        requires
            old(self).inv(),
        ensures
            final(self).inv(),
            final(self).routing() == old(self).routing().queue_group_chat(group@, chat@),
    ;

    /// Makes `user` a member of `group`; a member stays one.
    fn add_group_member(&mut self, user: User, group: &Group)
        requires
            old(self).inv(),
        ensures
            final(self).inv(),
            final(self).routing() == old(self).routing().add_group_member(user@, group@),
    ;

    /// Ends `user`'s membership of `group`; who was no member stays none.
    fn remove_group_member(&mut self, user: &User, group: &Group)
        requires
            old(self).inv(),
        ensures
            final(self).inv(),
            final(self).routing() == old(self).routing().remove_group_member(user@, group@),
    ;
}

/// Performs `operation` on `store`.
pub fn perform<S: Store>(store: &mut S, operation: Operation)
    requires
        old(store).inv(),
    ensures
        final(store).inv(),
        final(store).routing() == old(store).routing().perform(operation@),
{
    match operation {
        Operation::QueueChat(user, chat) => store.queue_chat(&user, chat),
        Operation::QueueGroupChat(group, chat) => store.queue_group_chat(&group, chat),
        Operation::AddGroupMember(user, group) => store.add_group_member(user, &group),
        Operation::RemoveGroupMember(user, group) => store.remove_group_member(&user, &group),
    }
}

} // verus!
