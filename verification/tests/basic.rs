use conver::buffer::WriteStep;
use conver::client::Client;
use conver::message::{Chat, Join, Message};
use conver::people::{Group, People, User};
use conver::server::{Server, ServerInner};
use conver::store::MemoryStore;

/// Letters and digits, a different run for each seed.
fn alphanumeric(seed: u64, len: usize) -> String {
    let letters = b"ABCDEFGHIJKLMNOPQRSTUVWXYZabcdefghijklmnopqrstuvwxyz0123456789";
    let mut state = seed.wrapping_mul(6364136223846793005).wrapping_add(1442695040888963407);
    let mut out = String::new();
    for _ in 0..len {
        state = state.wrapping_mul(6364136223846793005).wrapping_add(1442695040888963407);
        out.push(letters[(state >> 33) as usize % letters.len()] as char);
    }
    out
}

fn generate_user(seed: u64) -> User {
    User::new(alphanumeric(seed, 8))
}

fn generate_group(seed: u64) -> Group {
    Group::new(alphanumeric(seed, 8))
}

fn generate_chat(seed: u64, sender: &User, receiver: &User) -> Chat {
    Chat::new(sender.clone(), People::User(receiver.clone()), alphanumeric(seed, 512))
}

fn generate_group_chat(seed: u64, sender: &User, receiver: &Group) -> Chat {
    Chat::new(sender.clone(), People::Group(receiver.clone()), alphanumeric(seed, 512))
}

fn create_join(sender: &User, group: &Group) -> Join {
    Join::new(sender.clone(), group.clone())
}

fn create_server() -> ServerInner<MemoryStore> {
    Server::new("127.0.0.1", "7878").into_inner()
}

fn create_client(user: &User) -> Client {
    Client::new(user.get_username())
}

/// What the client does to send, and the server on receiving.
fn send_message(client: &Client, server: &mut ServerInner<MemoryStore>, message: Message) {
    assert!(client.may_send(&message));
    server.handle_message(message);
}

/// What the server does to send the client its next chat, and the client on
/// receiving it.
fn read_chat(client: &Client, server: &mut ServerInner<MemoryStore>) -> Option<Chat> {
    let chat = server.first_chat(client.get_user())?;
    server.chat_written(client.get_user(), &WriteStep::Done);
    assert!(client.accepts(&chat));
    Some(chat)
}

#[test]
fn test_chat() {
    let mut server = create_server();

    let first_user = generate_user(1);
    let second_user = generate_user(2);

    let first_client = create_client(&first_user);
    let second_client = create_client(&second_user);

    // First sends a chat, Second receives it
    let chat = generate_chat(3, &first_user, &second_user);
    send_message(&first_client, &mut server, Message::Chat(chat.clone()));
    let sent = read_chat(&second_client, &mut server).unwrap();
    assert_eq!(chat, sent);

    // Second sends a reply, First receives it
    let chat = generate_chat(4, &second_user, &first_user);
    send_message(&second_client, &mut server, Message::Chat(chat.clone()));
    let sent = read_chat(&first_client, &mut server).unwrap();
    assert_eq!(chat, sent);
}

#[test]
fn test_chat_pending() {
    let mut server = create_server();

    let first_user = generate_user(5);
    let second_user = generate_user(6);

    // First sends a chat to Second
    let first_client = create_client(&first_user);
    let chat = generate_chat(7, &first_user, &second_user);
    send_message(&first_client, &mut server, Message::Chat(chat.clone()));

    // Second only connects afterward, receives the chat anyway
    let second_client = create_client(&second_user);
    let sent = read_chat(&second_client, &mut server).unwrap();
    assert_eq!(chat, sent);
}

#[test]
fn test_group() {
    let mut server = create_server();

    let group = generate_group(8);

    let first_user = generate_user(9);
    let second_user = generate_user(10);
    let third_user = generate_user(11);

    let first_client = create_client(&first_user);
    let second_client = create_client(&second_user);
    let third_client = create_client(&third_user);

    // All join the group
    send_message(&first_client, &mut server, Message::Join(create_join(&first_user, &group)));
    send_message(&second_client, &mut server, Message::Join(create_join(&second_user, &group)));
    send_message(&third_client, &mut server, Message::Join(create_join(&third_user, &group)));

    // First sends a chat to the group
    let chat = generate_group_chat(12, &first_user, &group);
    send_message(&first_client, &mut server, Message::Chat(chat.clone()));

    // The rest receive the chat
    let sent = read_chat(&second_client, &mut server).unwrap();
    assert_eq!(chat, sent);
    let sent = read_chat(&third_client, &mut server).unwrap();
    assert_eq!(chat, sent);

    // First does not, and nobody receives it twice
    assert_eq!(read_chat(&first_client, &mut server), None);
    assert_eq!(read_chat(&second_client, &mut server), None);
    assert_eq!(read_chat(&third_client, &mut server), None);
}

#[test]
fn test_group_pending() {
    let mut server = create_server();

    let group = generate_group(13);

    let first_user = generate_user(14);
    let second_user = generate_user(15);

    let first_client = create_client(&first_user);
    let second_client = create_client(&second_user);

    // First and Second join the group
    send_message(&first_client, &mut server, Message::Join(create_join(&first_user, &group)));
    send_message(&second_client, &mut server, Message::Join(create_join(&second_user, &group)));

    // Third joins the group then disconnects
    let third_user = generate_user(16);
    {
        let third_client = create_client(&third_user);
        send_message(&third_client, &mut server, Message::Join(create_join(&third_user, &group)));
    }

    // First sends a chat to the group
    let chat = generate_group_chat(17, &first_user, &group);
    send_message(&first_client, &mut server, Message::Chat(chat.clone()));

    // Third reconnects, receives the chat anyway
    let third_client = create_client(&third_user);
    let sent = read_chat(&third_client, &mut server).unwrap();
    assert_eq!(chat, sent);
}
