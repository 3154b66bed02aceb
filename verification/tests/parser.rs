use conver::message::{Chat, Join, Leave, Message};
use conver::parser::{needs_body, split_whitespace, ParseError, Parser};
use conver::people::{Group, People, User};

fn parser() -> Parser {
    Parser::new(User::new("alice".to_string()))
}

fn parse(header: &str, body: Option<&str>) -> Result<Message, String> {
    parser()
        .parse_message(header.to_string(), body.map(|body| body.to_string()))
        .map_err(|error| error.to_string())
}

#[test]
fn words_are_what_stands_between_white_space() {
    assert_eq!(split_whitespace("CHAT USER bob"), vec!["CHAT", "USER", "bob"]);
    assert_eq!(split_whitespace("  JOIN \t g1 \r\n"), vec!["JOIN", "g1"]);
    assert_eq!(split_whitespace("one"), vec!["one"]);
    assert_eq!(split_whitespace(""), Vec::<String>::new());
    assert_eq!(split_whitespace(" \t\n"), Vec::<String>::new());
}

#[test]
fn words_are_split_as_the_standard_library_splits_them() {
    for text in [
        "CHAT USER bob",
        "  leading and trailing  ",
        "tabs\tand\nnewlines\r\nand\u{0B}vertical\u{0C}feeds",
        "no\u{A0}break and\u{2003}em and\u{3000}wide and\u{85}next\u{1680}ogham",
        "line\u{2028}and\u{2029}paragraph\u{202F}narrow\u{205F}math\u{2000}quad\u{200A}hair",
        "zero\u{200B}width is no space, nor is \u{FEFF} or \u{180E}",
        "\u{1F600} smile\u{1F600}s",
        "",
    ] {
        let expected: Vec<String> = text.split_whitespace().map(|word| word.to_string()).collect();
        assert_eq!(split_whitespace(text), expected);
    }
}

#[test]
fn white_space_is_what_the_standard_library_calls_so() {
    for code in 0..=0x10FFFFu32 {
        if let Some(c) = char::from_u32(code) {
            let text: String = ['a', c, 'b'].iter().collect();
            let expected = if c.is_whitespace() { 2 } else { 1 };
            assert_eq!(split_whitespace(&text).len(), expected, "at U+{:04X}", code);
        }
    }
}

#[test]
fn chat_to_a_user() {
    let expected = Chat::new(
        User::new("alice".to_string()),
        People::User(User::new("bob".to_string())),
        "hi bob\n".to_string(),
    );
    assert_eq!(parse("CHAT USER bob\n", Some("hi bob\n")), Ok(Message::Chat(expected)));
}

#[test]
fn chat_to_a_group() {
    let expected = Chat::new(
        User::new("alice".to_string()),
        People::Group(Group::new("g1".to_string())),
        "hello group".to_string(),
    );
    assert_eq!(parse("  CHAT   GROUP\tg1  ", Some("hello group")), Ok(Message::Chat(expected)));
}

#[test]
fn join_and_leave() {
    let alice = User::new("alice".to_string());
    let g1 = Group::new("g1".to_string());
    assert_eq!(parse("JOIN g1\n", None), Ok(Message::Join(Join::new(alice.clone(), g1.clone()))));
    assert_eq!(parse("LEAVE g1\n", None), Ok(Message::Leave(Leave::new(alice, g1))));
}

#[test]
fn words_behind_the_name_are_passed_over() {
    let alice = User::new("alice".to_string());
    let g1 = Group::new("g1".to_string());
    assert_eq!(parse("JOIN g1 g2 g3", None), Ok(Message::Join(Join::new(alice, g1))));
}

#[test]
fn body_of_a_join_is_passed_over() {
    let alice = User::new("alice".to_string());
    let g1 = Group::new("g1".to_string());
    assert_eq!(parse("JOIN g1", Some("body")), Ok(Message::Join(Join::new(alice, g1))));
}

#[test]
fn empty_line_names_no_method() {
    let expected = "ParseError: method type (CHAT/JOIN/LEAVE) not found".to_string();
    assert_eq!(parse("", None), Err(expected.clone()));
    assert_eq!(parse("  \n", None), Err(expected));
}

#[test]
fn method_has_to_be_one_of_three() {
    let expected = "ParseError: unknown method type".to_string();
    assert_eq!(parse("SHOUT bob", None), Err(expected.clone()));
    assert_eq!(parse("chat USER bob", None), Err(expected.clone()));
    assert_eq!(parse("CHATS USER bob", None), Err(expected));
}

#[test]
fn chat_needs_a_receiver_type() {
    let expected = "ParseError: receiver type (USER/GROUP) not found".to_string();
    assert_eq!(parse("CHAT", Some("hi")), Err(expected));
}

#[test]
fn receiver_is_a_user_or_a_group() {
    let expected = "ParseError: unknown receiver type".to_string();
    assert_eq!(parse("CHAT bob", Some("hi")), Err(expected.clone()));
    assert_eq!(parse("CHAT user bob", Some("hi")), Err(expected));
}

#[test]
fn chat_to_a_user_needs_the_username() {
    let expected = "ParseError: username not found".to_string();
    assert_eq!(parse("CHAT USER", Some("hi")), Err(expected));
}

#[test]
fn chat_join_and_leave_need_the_groupname() {
    let expected = "ParseError: groupname not found".to_string();
    assert_eq!(parse("CHAT GROUP ", Some("hi")), Err(expected.clone()));
    assert_eq!(parse("JOIN", None), Err(expected.clone()));
    assert_eq!(parse("LEAVE\n", None), Err(expected));
}

#[test]
fn every_error_has_its_own_words() {
    let shown: Vec<String> = [
        ParseError::method_type_not_found(),
        ParseError::unknown_method_type(),
        ParseError::receiver_type_not_found(),
        ParseError::unknown_receiver_type(),
        ParseError::username_not_found(),
        ParseError::groupname_not_found(),
    ]
    .iter()
    .map(|error| error.to_string())
    .collect();
    assert_eq!(
        shown,
        vec![
            "ParseError: method type (CHAT/JOIN/LEAVE) not found",
            "ParseError: unknown method type",
            "ParseError: receiver type (USER/GROUP) not found",
            "ParseError: unknown receiver type",
            "ParseError: username not found",
            "ParseError: groupname not found",
        ]
    );
}

#[test]
fn only_a_chat_needs_a_body() {
    assert!(needs_body("CHAT USER bob\n"));
    assert!(needs_body("  CHAT"));
    assert!(!needs_body("JOIN g1"));
    assert!(!needs_body("LEAVE g1"));
    assert!(!needs_body("chat USER bob"));
    assert!(!needs_body("USER CHAT"));
    assert!(!needs_body(""));
}
