//! The store that keeps everything in the memory of the process.

use std::collections::VecDeque;

use vstd::prelude::*;

use crate::message::{Chat, ChatView};
use crate::people::{Group, User};
use crate::store::{lemma_others, recipients, usernames, Routing, Store};

verus! {

/// The chats that wait for one user, oldest first.
struct Mailbox {
    user: User,
    chats: VecDeque<Chat>,
}

/// The members of one group, each once.
struct Circle {
    group: Group,
    members: Vec<User>,
}

spec fn chat_views(chats: Seq<Chat>) -> Seq<ChatView> {
    chats.map_values(|chat: Chat| chat@)
}

/// No two mailboxes belong to the same user.
spec fn mailboxes_distinct(boxes: Seq<Mailbox>) -> bool {
    forall|i: int, j: int|
        0 <= i < boxes.len() && 0 <= j < boxes.len() && i != j ==> boxes[i].user@ != boxes[j].user@
}

/// No two circles are of the same group, and no circle names a user twice.
spec fn circles_distinct(circles: Seq<Circle>) -> bool {
    &&& forall|i: int, j: int|
        0 <= i < circles.len() && 0 <= j < circles.len() && i != j ==> circles[i].group@
            != circles[j].group@
    &&& forall|i: int|
        0 <= i < circles.len() ==> usernames(#[trigger] circles[i].members@).no_duplicates()
}

spec fn has_mailbox(boxes: Seq<Mailbox>, user: Seq<char>) -> bool {
    exists|i: int| 0 <= i < boxes.len() && boxes[i].user@ == user
}

spec fn mailbox_index(boxes: Seq<Mailbox>, user: Seq<char>) -> int {
    choose|i: int| 0 <= i < boxes.len() && boxes[i].user@ == user
}

/// The queue that the mailboxes hold for `user`.
spec fn queue_of(boxes: Seq<Mailbox>, user: Seq<char>) -> Seq<ChatView> {
    if has_mailbox(boxes, user) {
        chat_views(boxes[mailbox_index(boxes, user)].chats@)
    } else {
        Seq::empty()
    }
}

spec fn has_circle(circles: Seq<Circle>, group: Seq<char>) -> bool {
    exists|i: int| 0 <= i < circles.len() && circles[i].group@ == group
}

spec fn circle_index(circles: Seq<Circle>, group: Seq<char>) -> int {
    choose|i: int| 0 <= i < circles.len() && circles[i].group@ == group
}

/// The members that the circles name for `group`.
spec fn members_of(circles: Seq<Circle>, group: Seq<char>) -> Set<Seq<char>> {
    if has_circle(circles, group) {
        usernames(circles[circle_index(circles, group)].members@).to_set()
    } else {
        Set::empty()
    }
}

proof fn lemma_queue_at(boxes: Seq<Mailbox>, i: int)
    requires
        mailboxes_distinct(boxes),
        0 <= i < boxes.len(),
    ensures
        queue_of(boxes, boxes[i].user@) == chat_views(boxes[i].chats@),
{
    assert(has_mailbox(boxes, boxes[i].user@));
}

/// One mailbox got other chats: its owner's queue is what it holds now, and
/// every other queue is as before.
proof fn lemma_queue_changed(before: Seq<Mailbox>, after: Seq<Mailbox>, i: int, user: Seq<char>)
    requires
        mailboxes_distinct(before),
        0 <= i < before.len(),
        after.len() == before.len(),
        forall|j: int| 0 <= j < before.len() ==> after[j].user@ == before[j].user@,
        forall|j: int| 0 <= j < before.len() && j != i ==> after[j].chats@ == before[j].chats@,
    ensures
        mailboxes_distinct(after),
        queue_of(after, user) == if user == before[i].user@ {
            chat_views(after[i].chats@)
        } else {
            queue_of(before, user)
        },
{
    if user == before[i].user@ {
        lemma_queue_at(after, i);
    } else if has_mailbox(before, user) {
        let k = mailbox_index(before, user);
        lemma_queue_at(after, k);
    } else {
        if has_mailbox(after, user) {
            let k = mailbox_index(after, user);
            assert(before[k].user@ == user);
        }
    }
}

/// A mailbox was added for a user who had none: that user's queue is what it
/// holds, and every other queue is as before.
proof fn lemma_queue_added(before: Seq<Mailbox>, mailbox: Mailbox, user: Seq<char>)
    requires
        mailboxes_distinct(before),
        !has_mailbox(before, mailbox.user@),
    ensures
        mailboxes_distinct(before.push(mailbox)),
        queue_of(before.push(mailbox), user) == if user == mailbox.user@ {
            chat_views(mailbox.chats@)
        } else {
            queue_of(before, user)
        },
{
    let after = before.push(mailbox);
    assert forall|i: int, j: int|
        0 <= i < after.len() && 0 <= j < after.len() && i != j implies after[i].user@
        != after[j].user@ by {
        if i == before.len() {
            assert(before[j].user@ == after[j].user@);
        } else if j == before.len() {
            assert(before[i].user@ == after[i].user@);
        }
    }
    if user == mailbox.user@ {
        lemma_queue_at(after, before.len() as int);
    } else if has_mailbox(before, user) {
        let k = mailbox_index(before, user);
        lemma_queue_at(after, k);
    } else {
        if has_mailbox(after, user) {
            let k = mailbox_index(after, user);
            assert(before[k].user@ == user);
        }
    }
}

proof fn lemma_chat_views_push(chats: Seq<Chat>, chat: Chat)
    ensures
        chat_views(chats.push(chat)) == chat_views(chats).push(chat@),
{
    assert(chat_views(chats.push(chat)) =~= chat_views(chats).push(chat@));
}

proof fn lemma_members_at(circles: Seq<Circle>, i: int)
    requires
        circles_distinct(circles),
        0 <= i < circles.len(),
    ensures
        members_of(circles, circles[i].group@) == usernames(circles[i].members@).to_set(),
{
    assert(has_circle(circles, circles[i].group@));
}

/// One circle got other members: its group's members are those it names now,
/// and every other group's are as before.
proof fn lemma_members_changed(before: Seq<Circle>, after: Seq<Circle>, i: int, group: Seq<char>)
    requires
        circles_distinct(before),
        0 <= i < before.len(),
        after.len() == before.len(),
        forall|j: int| 0 <= j < before.len() ==> after[j].group@ == before[j].group@,
        forall|j: int| 0 <= j < before.len() && j != i ==> after[j].members@ == before[j].members@,
        usernames(after[i].members@).no_duplicates(),
    ensures
        circles_distinct(after),
        members_of(after, group) == if group == before[i].group@ {
            usernames(after[i].members@).to_set()
        } else {
            members_of(before, group)
        },
{
    assert forall|j: int| 0 <= j < after.len() implies usernames(
        #[trigger] after[j].members@,
    ).no_duplicates() by {
        if j != i {
            assert(usernames(before[j].members@).no_duplicates());
        }
    }
    if group == before[i].group@ {
        lemma_members_at(after, i);
    } else if has_circle(before, group) {
        let k = circle_index(before, group);
        lemma_members_at(after, k);
    } else {
        if has_circle(after, group) {
            let k = circle_index(after, group);
            assert(before[k].group@ == group);
        }
    }
}

/// A circle was added for a group that had none: that group's members are
/// those it names, and every other group's are as before.
proof fn lemma_members_added(before: Seq<Circle>, circle: Circle, group: Seq<char>)
    requires
        circles_distinct(before),
        !has_circle(before, circle.group@),
        usernames(circle.members@).no_duplicates(),
    ensures
        circles_distinct(before.push(circle)),
        members_of(before.push(circle), group) == if group == circle.group@ {
            usernames(circle.members@).to_set()
        } else {
            members_of(before, group)
        },
{
    let after = before.push(circle);
    assert forall|i: int, j: int|
        0 <= i < after.len() && 0 <= j < after.len() && i != j implies after[i].group@
        != after[j].group@ by {
        if i == before.len() {
            assert(before[j].group@ == after[j].group@);
        } else if j == before.len() {
            assert(before[i].group@ == after[i].group@);
        }
    }
    assert forall|j: int| 0 <= j < after.len() implies usernames(
        #[trigger] after[j].members@,
    ).no_duplicates() by {
        if j < before.len() {
            assert(usernames(before[j].members@).no_duplicates());
        }
    }
    if group == circle.group@ {
        lemma_members_at(after, before.len() as int);
    } else if has_circle(before, group) {
        let k = circle_index(before, group);
        lemma_members_at(after, k);
    } else {
        if has_circle(after, group) {
            let k = circle_index(after, group);
            assert(before[k].group@ == group);
        }
    }
}

/// Taking one name out of a list without repetitions takes it out of the set
/// of names, and leaves the list without repetitions.
proof fn lemma_usernames_remove(users: Seq<User>, at: int)
    requires
        usernames(users).no_duplicates(),
        0 <= at < users.len(),
    ensures
        usernames(users.remove(at)).no_duplicates(),
        usernames(users.remove(at)).to_set() == usernames(users).to_set().remove(users[at]@),
{
    let before = usernames(users);
    let after = usernames(users.remove(at));
    let gone = users[at]@;
    assert(after =~= before.remove(at));
    assert(before[at] == gone);
    assert forall|i: int, j: int| 0 <= i < after.len() && 0 <= j < after.len() && i != j implies after[i]
        != after[j] by {
        let ii: int = if i < at { i } else { i + 1 };
        let jj: int = if j < at { j } else { j + 1 };
        assert(after[i] == before[ii] && after[j] == before[jj]);
    }
    assert forall|name: Seq<char>|
        after.to_set().contains(name) <==> before.to_set().remove(gone).contains(name) by {
        if after.contains(name) {
            let k = choose|k: int| 0 <= k < after.len() && after[k] == name;
            let kk: int = if k < at { k } else { k + 1 };
            assert(before[kk] == name);
            assert(before.contains(name));
            assert(name != gone);
        }
        if before.contains(name) && name != gone {
            let k = choose|k: int| 0 <= k < before.len() && before[k] == name;
            let kk: int = if k < at { k } else { k - 1 };
            assert(after[kk] == name);
            assert(after.contains(name));
        }
    }
    assert(after.to_set() =~= before.to_set().remove(gone));
}

/// Where `user` stands in `members`, if anywhere.
fn position(members: &Vec<User>, user: &User) -> (found: Option<usize>)
    ensures
        match found {
            Some(i) => i < members@.len() && members@[i as int]@ == user@,
            None => !usernames(members@).contains(user@),
        },
{
    let mut i: usize = 0;
    while i < members.len()
        invariant
            i <= members@.len(),
            forall|j: int| 0 <= j < i ==> members@[j]@ != user@,
        decreases members@.len() - i,
    {
        if members[i] == *user {
            return Some(i);
        }
        i = i + 1;
    }
    None
}

/// A routing store in memory. It lives as long as the process does.
pub struct MemoryStore {
    group_member_lists: Vec<Circle>,
    pending_chat_queues: Vec<Mailbox>,
}

impl MemoryStore {
    /// An empty store: no group has a member, and nothing waits for anyone.
    pub fn new() -> (store: MemoryStore)
        ensures
            store.inv(),
            store.routing() == Routing::empty(),
    {
        let store = MemoryStore { group_member_lists: Vec::new(), pending_chat_queues: Vec::new() };
        proof {
            assert(store.routing().members =~= Routing::empty().members);
            assert(store.routing().pending =~= Routing::empty().pending);
        }
        store
    }

    /// Where `user`'s mailbox stands, if there is one.
    fn find_mailbox(&self, user: &User) -> (found: Option<usize>)
        ensures
            match found {
                Some(i) => i < self.pending_chat_queues@.len()
                    && self.pending_chat_queues@[i as int].user@ == user@,
                None => !has_mailbox(self.pending_chat_queues@, user@),
            },
    {
        let mut i: usize = 0;
        while i < self.pending_chat_queues.len()
            invariant
                i <= self.pending_chat_queues@.len(),
                forall|j: int| 0 <= j < i ==> self.pending_chat_queues@[j].user@ != user@,
            decreases self.pending_chat_queues@.len() - i,
        {
            if self.pending_chat_queues[i].user == *user {
                return Some(i);
            }
            i = i + 1;
        }
        None
    }

    /// Where the circle of `group` stands, if there is one.
    fn find_circle(&self, group: &Group) -> (found: Option<usize>)
        ensures
            match found {
                Some(i) => i < self.group_member_lists@.len()
                    && self.group_member_lists@[i as int].group@ == group@,
                None => !has_circle(self.group_member_lists@, group@),
            },
    {
        let mut i: usize = 0;
        while i < self.group_member_lists.len()
            invariant
                i <= self.group_member_lists@.len(),
                forall|j: int| 0 <= j < i ==> self.group_member_lists@[j].group@ != group@,
            decreases self.group_member_lists@.len() - i,
        {
            if self.group_member_lists[i].group == *group {
                return Some(i);
            }
            i = i + 1;
        }
        None
    }

    /// Appends `chat` to `user`'s queue and leaves the circles alone.
    fn enqueue(&mut self, user: &User, chat: Chat)
        requires
            old(self).inv(),
        ensures
            final(self).inv(),
            final(self).group_member_lists == old(self).group_member_lists,
            final(self).routing() == old(self).routing().queue_chat(user@, chat@),
    {
        let ghost before = self.pending_chat_queues@;
        match self.find_mailbox(user) {
            Some(i) => {
                self.pending_chat_queues[i].chats.push_back(chat);
                proof {
                    let after = self.pending_chat_queues@;
                    lemma_queue_at(before, i as int);
                    lemma_chat_views_push(before[i as int].chats@, chat);
                    assert forall|u: Seq<char>|
                        queue_of(after, u) == old(self).routing().queue_chat(user@, chat@).pending[u] by {
                        lemma_queue_changed(before, after, i as int, u);
                    }
                    lemma_queue_changed(before, after, i as int, user@);
                }
            },
            None => {
                let mut chats: VecDeque<Chat> = VecDeque::new();
                chats.push_back(chat);
                let mailbox = Mailbox { user: user.clone(), chats };
                proof {
                    lemma_chat_views_push(Seq::empty(), chat);
                    assert(chat_views(Seq::empty()) =~= Seq::empty());
                    assert forall|u: Seq<char>|
                        queue_of(before.push(mailbox), u) == old(self).routing().queue_chat(
                            user@,
                            chat@,
                        ).pending[u] by {
                        lemma_queue_added(before, mailbox, u);
                    }
                    lemma_queue_added(before, mailbox, user@);
                }
                self.pending_chat_queues.push(mailbox);
            },
        }
        proof {
            assert(self.routing().pending =~= old(self).routing().queue_chat(user@, chat@).pending);
        }
    }
}

impl Store for MemoryStore {
    /// The state that the two tables stand for.
    closed spec fn routing(&self) -> Routing {
        Routing {
            members: Map::total(|group: Seq<char>| members_of(self.group_member_lists@, group)),
            pending: Map::total(|user: Seq<char>| queue_of(self.pending_chat_queues@, user)),
        }
    }

    /// No group has two circles, no circle names a user twice, and no user
    /// has two mailboxes.
    closed spec fn inv(&self) -> bool {
        &&& circles_distinct(self.group_member_lists@)
        &&& mailboxes_distinct(self.pending_chat_queues@)
    }

    proof fn lemma_routing_total(&self) {
    }

    fn front_chat(&self, user: &User) -> (chat: Option<Chat>) {
        match self.find_mailbox(user) {
            Some(i) => {
                proof {
                    lemma_queue_at(self.pending_chat_queues@, i as int);
                }
                if self.pending_chat_queues[i].chats.len() > 0 {
                    Some(self.pending_chat_queues[i].chats[0].clone())
                } else {
                    None
                }
            },
            None => None,
        }
    }

    fn queue_chat(&mut self, user: &User, chat: Chat) {
        self.enqueue(user, chat);
    }

    fn dequeue_chat(&mut self, user: &User) {
        let ghost before = self.pending_chat_queues@;
        match self.find_mailbox(user) {
            Some(i) => {
                let _ = self.pending_chat_queues[i].chats.pop_front();
                proof {
                    let after = self.pending_chat_queues@;
                    lemma_queue_at(before, i as int);
                    let chats = before[i as int].chats@;
                    if chats.len() > 0 {
                        assert(chat_views(chats.subrange(1, chats.len() as int)) =~= chat_views(
                            chats,
                        ).drop_first());
                    }
                    assert forall|u: Seq<char>|
                        queue_of(after, u) == old(self).routing().dequeue_chat(user@).pending[u] by {
                        lemma_queue_changed(before, after, i as int, u);
                    }
                    lemma_queue_changed(before, after, i as int, user@);
                }
            },
            None => {},
        }
        proof {
            assert(self.routing().pending =~= old(self).routing().dequeue_chat(user@).pending);
        }
    }

    fn queue_group_chat(&mut self, group: &Group, chat: Chat) {
        let ghost before = self.routing();
        match self.find_circle(group) {
            Some(g) => {
                let to = recipients(&self.group_member_lists[g].members, &chat);
                proof {
                    lemma_members_at(self.group_member_lists@, g as int);
                    lemma_others(usernames(self.group_member_lists@[g as int].members@), chat@.sender);
                }
                let mut k: usize = 0;
                while k < to.len()
                    invariant
                        k <= to@.len(),
                        self.inv(),
                        self.group_member_lists == old(self).group_member_lists,
                        before == old(self).routing(),
                        usernames(to@).no_duplicates(),
                        forall|u: Seq<char>|
                            self.routing().pending[u] == if usernames(to@).take(k as int).contains(u) {
                                before.pending[u].push(chat@)
                            } else {
                                before.pending[u]
                            },
                    decreases to@.len() - k,
                {
                    let ghost names = usernames(to@);
                    self.enqueue(&to[k], chat.clone());
                    proof {
                        names.lemma_take_succ_push(k as int);
                        assert forall|u: Seq<char>|
                            self.routing().pending[u] == if names.take(k as int + 1).contains(u) {
                                before.pending[u].push(chat@)
                            } else {
                                before.pending[u]
                            } by {
                            if names.take(k as int).contains(u) {
                                let j = choose|j: int|
                                    0 <= j < k && names.take(k as int)[j] == u;
                                assert(names[j] == u);
                                assert(names.take(k as int + 1)[j] == u);
                            }
                            if u == names[k as int] {
                                assert(names.take(k as int + 1)[k as int] == u);
                            }
                        }
                    }
                    k = k + 1;
                }
                proof {
                    usernames(to@).lemma_take_len();
                    assert(self.routing().pending =~= before.queue_group_chat(group@, chat@).pending);
                }
            },
            None => {
                proof {
                    assert(self.routing().pending =~= before.queue_group_chat(group@, chat@).pending);
                }
            },
        }
    }

    fn add_group_member(&mut self, user: User, group: &Group) {
        let ghost before = self.group_member_lists@;
        match self.find_circle(group) {
            Some(g) => {
                proof {
                    lemma_members_at(before, g as int);
                }
                match position(&self.group_member_lists[g].members, &user) {
                    None => {
                        self.group_member_lists[g].members.push(user);
                        proof {
                            let after = self.group_member_lists@;
                            let members = before[g as int].members@;
                            members.lemma_push_map_commute(|user: User| user@, user);
                            usernames(members).lemma_push_to_set_commute(user@);
                            assert forall|name: Seq<char>|
                                members_of(after, name) == old(self).routing().add_group_member(
                                    user@,
                                    group@,
                                ).members[name] by {
                                lemma_members_changed(before, after, g as int, name);
                            }
                            lemma_members_changed(before, after, g as int, group@);
                        }
                    },
                    Some(at) => {
                        proof {
                            let names = usernames(before[g as int].members@);
                            assert(names[at as int] == user@);
                            assert(names.to_set().insert(user@) =~= names.to_set());
                        }
                    },
                }
            },
            None => {
                let mut members: Vec<User> = Vec::new();
                members.push(user);
                let circle = Circle { group: group.clone(), members };
                proof {
                    let nobody = Seq::<Seq<char>>::empty();
                    nobody.lemma_push_to_set_commute(user@);
                    assert(nobody.to_set() =~= Set::<Seq<char>>::empty());
                    assert(usernames(circle.members@) =~= nobody.push(user@));
                    assert forall|name: Seq<char>|
                        members_of(before.push(circle), name) == old(
                            self,
                        ).routing().add_group_member(user@, group@).members[name] by {
                        lemma_members_added(before, circle, name);
                    }
                    lemma_members_added(before, circle, group@);
                }
                self.group_member_lists.push(circle);
            },
        }
        proof {
            assert(self.routing().members =~= old(self).routing().add_group_member(
                user@,
                group@,
            ).members);
        }
    }

    fn remove_group_member(&mut self, user: &User, group: &Group) {
        let ghost before = self.group_member_lists@;
        match self.find_circle(group) {
            Some(g) => {
                proof {
                    lemma_members_at(before, g as int);
                }
                match position(&self.group_member_lists[g].members, user) {
                    Some(at) => {
                        let _ = self.group_member_lists[g].members.remove(at);
                        proof {
                            let after = self.group_member_lists@;
                            lemma_usernames_remove(before[g as int].members@, at as int);
                            assert forall|name: Seq<char>|
                                members_of(after, name) == old(
                                    self,
                                ).routing().remove_group_member(user@, group@).members[name] by {
                                lemma_members_changed(before, after, g as int, name);
                            }
                            lemma_members_changed(before, after, g as int, group@);
                        }
                    },
                    None => {
                        proof {
                            let names = usernames(before[g as int].members@).to_set();
                            assert(names.remove(user@) =~= names);
                        }
                    },
                }
            },
            None => {
                proof {
                    assert(Set::<Seq<char>>::empty().remove(user@) =~= Set::<Seq<char>>::empty());
                }
            },
        }
        proof {
            assert(self.routing().members =~= old(self).routing().remove_group_member(
                user@,
                group@,
            ).members);
        }
    }
}

} // verus!
