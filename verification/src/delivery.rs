//! What the service promises about delivery, proved of the routing that the
//! store and the server are specified by.
//!
//! A store changes in two ways only: the server routes a message that a
//! client sent ([`crate::server::ServerInner::handle_message`]), or the
//! connection of a user has written that user's first chat out in full and
//! takes it from the queue ([`crate::server::ServerInner::chat_written`]).
//! Whether a user is connected is no part of the routing: connecting and
//! disconnecting change nothing in it. A user who is not connected is one to
//! whom nothing is delivered for a while.

use vstd::prelude::*;

use crate::message::{ChatView, MembershipView, MessageView};
use crate::people::PeopleView;
use crate::store::Routing;

verus! {

/// One change of the routing.
pub enum Event {
    /// The server routed a message from a client.
    Routed(MessageView),
    /// The first chat of this user's queue was written out and removed.
    Delivered(Seq<char>),
}

impl Routing {
    /// Whether `chat` is queued for `user` when it is routed now: it is
    /// addressed to `user`, or to a group of which `user` is a member other
    /// than the sender.
    pub open spec fn is_recipient(self, chat: ChatView, user: Seq<char>) -> bool {
        match chat.receiver {
            PeopleView::User(receiver) => receiver == user,
            PeopleView::Group(group) => self.reaches(group, chat, user),
        }
    }

    /// The routing after one event.
    pub open spec fn step(self, event: Event) -> Routing {
        match event {
            Event::Routed(message) => self.route(message),
            Event::Delivered(user) => self.dequeue_chat(user),
        }
    }

    /// The routing after a sequence of events, the first of them first.
    pub open spec fn run(self, events: Seq<Event>) -> Routing
        decreases events.len(),
    {
        if events.len() == 0 {
            self
        } else {
            self.run(events.drop_last()).step(events.last())
        }
    }
}

/// `count` deliveries to `user`, one after the other.
pub open spec fn deliveries(user: Seq<char>, count: nat) -> Seq<Event> {
    Seq::new(count, |i: int| Event::Delivered(user))
}

/// Whether `event` is a delivery to `user`.
pub open spec fn delivers_to(event: Event, user: Seq<char>) -> bool {
    event == Event::Delivered(user)
}

/// Whether `event` is the routing of a leave of `user` from `group`.
pub open spec fn is_leave(event: Event, user: Seq<char>, group: Seq<char>) -> bool {
    event == Event::Routed(MessageView::Leave(MembershipView { sender: user, group }))
}

/// Routing a chat appends it, unchanged, to the queue of each of its
/// recipients, and changes no other queue and no membership.
pub proof fn lemma_deliver(routing: Routing, chat: ChatView, user: Seq<char>)
    ensures
        routing.deliver(chat).members == routing.members,
        routing.deliver(chat).pending[user] == if routing.is_recipient(chat, user) {
            routing.pending[user].push(chat)
        } else {
            routing.pending[user]
        },
{
}

/// Deliveries take a queue from its front: after `count` of them to `user`,
/// what is left of the queue is what stood behind its first `count` chats.
/// Nobody else's queue has changed, and no membership.
pub proof fn lemma_deliveries(routing: Routing, user: Seq<char>, count: nat)
    requires
        count <= routing.pending[user].len(),
    ensures
        routing.run(deliveries(user, count)).pending[user] == routing.pending[user].skip(
            count as int,
        ),
        forall|other: Seq<char>|
            other != user ==> #[trigger] routing.run(deliveries(user, count)).pending[other]
                == routing.pending[other],
        routing.run(deliveries(user, count)).members == routing.members,
    decreases count,
{
    if count == 0 {
        assert(routing.pending[user].skip(0) =~= routing.pending[user]);
    } else {
        let fewer = (count - 1) as nat;
        lemma_deliveries(routing, user, fewer);
        assert(deliveries(user, count).drop_last() =~= deliveries(user, fewer));
        let held = routing.pending[user];
        assert(held.skip(fewer as int).drop_first() =~= held.skip(count as int));
    }
}

/// Direct delivery. A chat that one user sends to another joins the end of
/// the receiver's queue as it was sent, and no queue of the sender. Once the
/// chats that waited before it have been delivered, it is the receiver's
/// next chat, with the sender, the receiver and the body that it was sent
/// with.
pub proof fn lemma_direct_delivery(
    routing: Routing,
    chat: ChatView,
    sender: Seq<char>,
    receiver: Seq<char>,
)
    requires
        sender != receiver,
        chat.sender == sender,
        chat.receiver == PeopleView::User(receiver),
    ensures
        routing.route(MessageView::Chat(chat)).pending[receiver] == routing.pending[receiver].push(
            chat,
        ),
        routing.route(MessageView::Chat(chat)).pending[sender] == routing.pending[sender],
        routing.route(MessageView::Chat(chat)).run(
            deliveries(receiver, routing.pending[receiver].len()),
        ).front_chat(receiver) == Some(chat),
{
    let routed = routing.route(MessageView::Chat(chat));
    let ahead = routing.pending[receiver].len();
    lemma_deliveries(routed, receiver, ahead);
    assert(routed.pending[receiver].skip(ahead as int) =~= seq![chat]);
}

/// Whatever happens to a routing other than a delivery to `user`, the chats
/// that wait for `user` stay where they are in the queue; chats can only
/// come in behind them.
pub proof fn lemma_queue_waits(routing: Routing, events: Seq<Event>, user: Seq<char>)
    requires
        forall|i: int| 0 <= i < events.len() ==> !delivers_to(#[trigger] events[i], user),
    ensures
        routing.pending[user].is_prefix_of(routing.run(events).pending[user]),
    decreases events.len(),
{
    if events.len() > 0 {
        let earlier = events.drop_last();
        assert forall|i: int| 0 <= i < earlier.len() implies !delivers_to(
            #[trigger] earlier[i],
            user,
        ) by {
            assert(earlier[i] == events[i]);
        }
        lemma_queue_waits(routing, earlier, user);
        let before = routing.run(earlier);
        assert(!delivers_to(events.last(), user));
        match events.last() {
            Event::Routed(MessageView::Chat(chat)) => {
                lemma_deliver(before, chat, user);
            },
            Event::Routed(_) => {},
            Event::Delivered(other) => {
                assert(other != user);
            },
        }
    }
}

/// Queueing for a user who is away. A chat sent to a user to whom nothing is
/// delivered for a while, because the user is not connected, waits in the
/// queue at the place where it was put, whatever else the server does in the
/// meantime and however often the user connects and disconnects. Once the
/// user's connection has been sent the chats before it, the chat is next.
pub proof fn lemma_offline_queueing(
    routing: Routing,
    chat: ChatView,
    receiver: Seq<char>,
    events: Seq<Event>,
)
    requires
        chat.receiver == PeopleView::User(receiver),
        forall|i: int| 0 <= i < events.len() ==> !delivers_to(#[trigger] events[i], receiver),
    ensures
        routing.pending[receiver].push(chat).is_prefix_of(
            routing.route(MessageView::Chat(chat)).run(events).pending[receiver],
        ),
        routing.route(MessageView::Chat(chat)).run(events).run(
            deliveries(receiver, routing.pending[receiver].len()),
        ).front_chat(receiver) == Some(chat),
{
    let routed = routing.route(MessageView::Chat(chat));
    let later = routed.run(events);
    let ahead = routing.pending[receiver].len();
    lemma_queue_waits(routed, events, receiver);
    lemma_deliveries(later, receiver, ahead);
    assert(later.pending[receiver][ahead as int] == routed.pending[receiver][ahead as int]);
}

/// Fan-out without the sender. When three users have joined a group and one
/// of them sends a chat to it, the queues of the other two grow by that chat
/// and by nothing else, and the sender's queue does not grow at all.
pub proof fn lemma_group_fan_out(
    routing: Routing,
    group: Seq<char>,
    a: Seq<char>,
    b: Seq<char>,
    c: Seq<char>,
    chat: ChatView,
)
    requires
        a != b,
        a != c,
        b != c,
        chat.sender == a,
        chat.receiver == PeopleView::Group(group),
    ensures
        ({
            let joined = routing.route(
                MessageView::Join(MembershipView { sender: a, group }),
            ).route(MessageView::Join(MembershipView { sender: b, group })).route(
                MessageView::Join(MembershipView { sender: c, group }),
            );
            let sent = joined.route(MessageView::Chat(chat));
            &&& sent.pending[b] == routing.pending[b].push(chat)
            &&& sent.pending[c] == routing.pending[c].push(chat)
            &&& sent.pending[a] == routing.pending[a]
        }),
{
}

/// Whatever happens to a routing other than the leave of `user` from
/// `group`, a member stays a member.
pub proof fn lemma_member_stays(
    routing: Routing,
    events: Seq<Event>,
    user: Seq<char>,
    group: Seq<char>,
)
    requires
        routing.members[group].contains(user),
        forall|i: int| 0 <= i < events.len() ==> !is_leave(#[trigger] events[i], user, group),
    ensures
        routing.run(events).members[group].contains(user),
    decreases events.len(),
{
    if events.len() > 0 {
        let earlier = events.drop_last();
        assert forall|i: int| 0 <= i < earlier.len() implies !is_leave(
            #[trigger] earlier[i],
            user,
            group,
        ) by {
            assert(earlier[i] == events[i]);
        }
        lemma_member_stays(routing, earlier, user, group);
        assert(!is_leave(events.last(), user, group));
    }
}

/// Membership outlasts the connection. A user who has joined a group is a
/// member until that user leaves it, whatever else happens and whether the
/// user is connected or not; a chat that another user then sends to the
/// group joins the end of the member's queue.
pub proof fn lemma_membership_persists(
    routing: Routing,
    user: Seq<char>,
    group: Seq<char>,
    events: Seq<Event>,
    chat: ChatView,
)
    requires
        forall|i: int| 0 <= i < events.len() ==> !is_leave(#[trigger] events[i], user, group),
        chat.receiver == PeopleView::Group(group),
        chat.sender != user,
    ensures
        ({
            let later = routing.route(MessageView::Join(MembershipView { sender: user, group })).run(
                events,
            );
            &&& later.members[group].contains(user)
            &&& later.route(MessageView::Chat(chat)).pending[user] == later.pending[user].push(chat)
        }),
{
    let joined = routing.route(MessageView::Join(MembershipView { sender: user, group }));
    lemma_member_stays(joined, events, user, group);
}

/// Leaving ends delivery. Once a user has left a group, a chat to that group
/// does not reach the user's queue, connected or not.
pub proof fn lemma_leave_stops_delivery(
    routing: Routing,
    user: Seq<char>,
    group: Seq<char>,
    chat: ChatView,
)
    requires
        chat.receiver == PeopleView::Group(group),
    ensures
        ({
            let left = routing.route(MessageView::Leave(MembershipView { sender: user, group }));
            &&& !left.members[group].contains(user)
            &&& left.route(MessageView::Chat(chat)).pending[user] == left.pending[user]
        }),
{
}

/// First in, first out. Two chats that are queued for the same user one
/// after the other stand in that user's queue in that order, directly behind
/// what waited before; and since deliveries take from the front, the first
/// is delivered before the second.
pub proof fn lemma_first_in_first_out(
    routing: Routing,
    user: Seq<char>,
    first: ChatView,
    second: ChatView,
)
    requires
        routing.is_recipient(first, user),
        routing.is_recipient(second, user),
    ensures
        ({
            let queued = routing.route(MessageView::Chat(first)).route(MessageView::Chat(second));
            let ahead = routing.pending[user].len();
            &&& queued.pending[user] == routing.pending[user].push(first).push(second)
            &&& queued.run(deliveries(user, ahead)).front_chat(user) == Some(first)
            &&& queued.run(deliveries(user, ahead + 1)).front_chat(user) == Some(second)
        }),
{
    let once = routing.route(MessageView::Chat(first));
    let queued = once.route(MessageView::Chat(second));
    let ahead = routing.pending[user].len();
    lemma_deliver(routing, first, user);
    lemma_deliver(once, second, user);
    lemma_deliveries(queued, user, ahead);
    lemma_deliveries(queued, user, ahead + 1);
    assert(queued.pending[user].skip(ahead as int)[0] == first);
    assert(queued.pending[user].skip(ahead as int + 1)[0] == second);
}

} // verus!
