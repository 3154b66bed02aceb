use std::sync::mpsc;

use conver::client::Client;
use conver::message::{Chat, Join, Leave, Message};
use conver::people::{Group, People, User};
use conver::pulse::{alive, is_pulsing, Pulse};
use conver::server::Server;

fn user(name: &str) -> User {
    User::new(name.to_string())
}

fn group(name: &str) -> Group {
    Group::new(name.to_string())
}

#[test]
fn client_is_the_user_it_names() {
    let client = Client::new("alice");
    assert_eq!(client.get_user(), &user("alice"));
    assert_eq!(client.get_user().get_username(), "alice");
    assert_eq!(client.clone().get_user(), &user("alice"));
}

#[test]
fn client_sends_in_its_own_name_only() {
    let client = Client::new("alice");
    let own = Chat::new(user("alice"), People::User(user("bob")), "hi".to_string());
    let foreign = Chat::new(user("bob"), People::User(user("alice")), "hi".to_string());
    assert!(client.may_send(&Message::Chat(own)));
    assert!(!client.may_send(&Message::Chat(foreign)));
    assert!(client.may_send(&Message::Join(Join::new(user("alice"), group("g1")))));
    assert!(!client.may_send(&Message::Join(Join::new(user("bob"), group("g1")))));
    assert!(client.may_send(&Message::Leave(Leave::new(user("alice"), group("g1")))));
    assert!(!client.may_send(&Message::Leave(Leave::new(user("carol"), group("g1")))));
}

#[test]
fn client_accepts_chats_to_itself_and_to_groups() {
    let client = Client::new("bob");
    let to_bob = Chat::new(user("alice"), People::User(user("bob")), "hi".to_string());
    let to_carol = Chat::new(user("alice"), People::User(user("carol")), "hi".to_string());
    let to_group = Chat::new(user("alice"), People::Group(group("g1")), "hi".to_string());
    let to_group_named_bob = Chat::new(user("alice"), People::Group(group("bob")), "hi".to_string());
    assert!(client.accepts(&to_bob));
    assert!(!client.accepts(&to_carol));
    assert!(client.accepts(&to_group));
    assert!(client.accepts(&to_group_named_bob));
}

#[test]
fn writer_stops_only_when_the_channel_is_gone() {
    assert!(alive(&Pulse::Beat));
    assert!(alive(&Pulse::Silent));
    assert!(!alive(&Pulse::Gone));
}

#[test]
fn pulse_lasts_as_long_as_the_sender_is_held() {
    let (pulse_sender, pulse_receiver) = mpsc::channel::<()>();
    assert!(is_pulsing(&pulse_receiver));
    pulse_sender.send(()).unwrap();
    assert!(is_pulsing(&pulse_receiver));
    assert!(is_pulsing(&pulse_receiver));
    drop(pulse_sender);
    assert!(!is_pulsing(&pulse_receiver));
    assert!(!is_pulsing(&pulse_receiver));
}

#[test]
fn signal_sent_before_the_sender_went_is_still_a_pulse() {
    let (pulse_sender, pulse_receiver) = mpsc::channel::<()>();
    pulse_sender.send(()).unwrap();
    drop(pulse_sender);
    assert!(is_pulsing(&pulse_receiver));
    assert!(!is_pulsing(&pulse_receiver));
}

#[test]
fn server_asks_the_same_of_the_pulse() {
    let inner = Server::new("127.0.0.1", "7878").into_inner();
    let (pulse_sender, pulse_receiver) = mpsc::channel::<()>();
    assert!(inner.is_pulsing(&pulse_receiver));
    drop(pulse_sender);
    assert!(!inner.is_pulsing(&pulse_receiver));
}
