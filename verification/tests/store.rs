use conver::message::Chat;
use conver::people::{Group, People, User};
use conver::store::{recipients, MemoryStore, Store};

fn user(name: &str) -> User {
    User::new(name.to_string())
}

fn group(name: &str) -> Group {
    Group::new(name.to_string())
}

fn chat_to_user(from: &str, to: &str, body: &str) -> Chat {
    Chat::new(user(from), People::User(user(to)), body.to_string())
}

fn chat_to_group(from: &str, to: &str, body: &str) -> Chat {
    Chat::new(user(from), People::Group(group(to)), body.to_string())
}

fn drain(store: &mut MemoryStore, of: &User) -> Vec<Chat> {
    let mut chats = Vec::new();
    while let Some(chat) = store.front_chat(of) {
        chats.push(chat);
        store.dequeue_chat(of);
    }
    chats
}

#[test]
fn new_store_holds_nothing() {
    let store = MemoryStore::new();
    assert_eq!(store.front_chat(&user("alice")), None);
}

#[test]
fn queued_chat_is_at_the_front() {
    let chat = chat_to_user("alice", "bob", "hi");
    let mut store = MemoryStore::new();
    store.queue_chat(&user("bob"), chat.clone());
    assert_eq!(store.front_chat(&user("bob")), Some(chat));
    assert_eq!(store.front_chat(&user("alice")), None);
}

#[test]
fn front_chat_leaves_the_chat_in_the_queue() {
    let chat = chat_to_user("alice", "bob", "hi");
    let mut store = MemoryStore::new();
    store.queue_chat(&user("bob"), chat.clone());
    assert_eq!(store.front_chat(&user("bob")), Some(chat.clone()));
    assert_eq!(store.front_chat(&user("bob")), Some(chat));
}

#[test]
fn dequeue_removes_the_front_only() {
    let first = chat_to_user("alice", "bob", "one");
    let second = chat_to_user("carol", "bob", "two");
    let mut store = MemoryStore::new();
    store.queue_chat(&user("bob"), first.clone());
    store.queue_chat(&user("bob"), second.clone());
    assert_eq!(store.front_chat(&user("bob")), Some(first));
    store.dequeue_chat(&user("bob"));
    assert_eq!(store.front_chat(&user("bob")), Some(second));
    store.dequeue_chat(&user("bob"));
    assert_eq!(store.front_chat(&user("bob")), None);
}

#[test]
fn dequeue_of_an_empty_queue_does_nothing() {
    let mut store = MemoryStore::new();
    store.dequeue_chat(&user("bob"));
    assert_eq!(store.front_chat(&user("bob")), None);
    let chat = chat_to_user("alice", "bob", "hi");
    store.queue_chat(&user("bob"), chat.clone());
    store.dequeue_chat(&user("alice"));
    assert_eq!(store.front_chat(&user("bob")), Some(chat));
}

#[test]
fn queues_of_different_users_are_apart() {
    let to_bob = chat_to_user("alice", "bob", "for bob");
    let to_carol = chat_to_user("alice", "carol", "for carol");
    let mut store = MemoryStore::new();
    store.queue_chat(&user("bob"), to_bob.clone());
    store.queue_chat(&user("carol"), to_carol.clone());
    store.dequeue_chat(&user("bob"));
    assert_eq!(store.front_chat(&user("bob")), None);
    assert_eq!(store.front_chat(&user("carol")), Some(to_carol));
}

#[test]
fn equal_chats_are_both_kept() {
    let chat = chat_to_user("alice", "bob", "again");
    let mut store = MemoryStore::new();
    store.queue_chat(&user("bob"), chat.clone());
    store.queue_chat(&user("bob"), chat.clone());
    assert_eq!(drain(&mut store, &user("bob")), vec![chat.clone(), chat]);
}

#[test]
fn group_chat_reaches_every_member_but_the_sender() {
    let mut store = MemoryStore::new();
    for name in ["alice", "bob", "carol"] {
        store.add_group_member(user(name), &group("g1"));
    }
    let chat = chat_to_group("alice", "g1", "hello group");
    store.queue_group_chat(&group("g1"), chat.clone());
    assert_eq!(drain(&mut store, &user("bob")), vec![chat.clone()]);
    assert_eq!(drain(&mut store, &user("carol")), vec![chat]);
    assert_eq!(drain(&mut store, &user("alice")), Vec::new());
}

#[test]
fn group_chat_of_an_outsider_reaches_every_member() {
    let mut store = MemoryStore::new();
    store.add_group_member(user("alice"), &group("g1"));
    store.add_group_member(user("bob"), &group("g1"));
    let chat = chat_to_group("dave", "g1", "anyone there");
    store.queue_group_chat(&group("g1"), chat.clone());
    assert_eq!(drain(&mut store, &user("alice")), vec![chat.clone()]);
    assert_eq!(drain(&mut store, &user("bob")), vec![chat]);
    assert_eq!(drain(&mut store, &user("dave")), Vec::new());
}

#[test]
fn group_chat_to_a_group_that_nobody_joined_is_dropped() {
    let mut store = MemoryStore::new();
    store.add_group_member(user("bob"), &group("g1"));
    store.queue_group_chat(&group("g2"), chat_to_group("alice", "g2", "hello"));
    assert_eq!(store.front_chat(&user("bob")), None);
    assert_eq!(store.front_chat(&user("alice")), None);
}

#[test]
fn group_chat_to_a_group_of_the_sender_alone_is_dropped() {
    let mut store = MemoryStore::new();
    store.add_group_member(user("alice"), &group("g1"));
    store.queue_group_chat(&group("g1"), chat_to_group("alice", "g1", "hello"));
    assert_eq!(store.front_chat(&user("alice")), None);
}

#[test]
fn joining_twice_is_joining_once() {
    let mut store = MemoryStore::new();
    store.add_group_member(user("bob"), &group("g1"));
    store.add_group_member(user("bob"), &group("g1"));
    let chat = chat_to_group("alice", "g1", "once");
    store.queue_group_chat(&group("g1"), chat.clone());
    assert_eq!(drain(&mut store, &user("bob")), vec![chat]);
}

#[test]
fn leaving_ends_delivery() {
    let mut store = MemoryStore::new();
    store.add_group_member(user("bob"), &group("g1"));
    store.add_group_member(user("carol"), &group("g1"));
    store.remove_group_member(&user("bob"), &group("g1"));
    let chat = chat_to_group("alice", "g1", "after the leave");
    store.queue_group_chat(&group("g1"), chat.clone());
    assert_eq!(store.front_chat(&user("bob")), None);
    assert_eq!(store.front_chat(&user("carol")), Some(chat));
}

#[test]
fn leaving_a_group_one_is_not_in_does_nothing() {
    let mut store = MemoryStore::new();
    store.remove_group_member(&user("bob"), &group("g1"));
    store.add_group_member(user("carol"), &group("g1"));
    store.remove_group_member(&user("bob"), &group("g1"));
    store.remove_group_member(&user("bob"), &group("g2"));
    let chat = chat_to_group("alice", "g1", "still here");
    store.queue_group_chat(&group("g1"), chat.clone());
    assert_eq!(store.front_chat(&user("carol")), Some(chat));
}

#[test]
fn leaving_one_group_keeps_the_other() {
    let mut store = MemoryStore::new();
    store.add_group_member(user("bob"), &group("g1"));
    store.add_group_member(user("bob"), &group("g2"));
    store.remove_group_member(&user("bob"), &group("g1"));
    let chat = chat_to_group("alice", "g2", "the other group");
    store.queue_group_chat(&group("g1"), chat_to_group("alice", "g1", "gone"));
    store.queue_group_chat(&group("g2"), chat.clone());
    assert_eq!(drain(&mut store, &user("bob")), vec![chat]);
}

#[test]
fn joining_again_after_leaving_brings_delivery_back() {
    let mut store = MemoryStore::new();
    store.add_group_member(user("bob"), &group("g1"));
    store.remove_group_member(&user("bob"), &group("g1"));
    store.add_group_member(user("bob"), &group("g1"));
    let chat = chat_to_group("alice", "g1", "back");
    store.queue_group_chat(&group("g1"), chat.clone());
    assert_eq!(drain(&mut store, &user("bob")), vec![chat]);
}

#[test]
fn user_and_group_of_the_same_name_are_apart() {
    let mut store = MemoryStore::new();
    store.add_group_member(user("bob"), &group("alice"));
    let to_group = chat_to_group("carol", "alice", "to the group");
    store.queue_group_chat(&group("alice"), to_group.clone());
    assert_eq!(store.front_chat(&user("alice")), None);
    assert_eq!(store.front_chat(&user("bob")), Some(to_group));
}

#[test]
fn recipients_are_the_members_without_the_sender_in_order() {
    let members = vec![user("alice"), user("bob"), user("carol"), user("dave")];
    let chat = chat_to_group("carol", "g1", "hello");
    assert_eq!(recipients(&members, &chat), vec![user("alice"), user("bob"), user("dave")]);
}

#[test]
fn recipients_of_an_outsiders_chat_are_all_members() {
    let members = vec![user("alice"), user("bob")];
    let chat = chat_to_group("zoe", "g1", "hello");
    assert_eq!(recipients(&members, &chat), members);
}

#[test]
fn recipients_among_no_members_are_none() {
    let chat = chat_to_group("zoe", "g1", "hello");
    assert_eq!(recipients(&Vec::new(), &chat), Vec::new());
}
