//! The lines that a user types at the console, read as messages.
//!
//! A line is a sequence of words with whitespace between them. Its first
//! word is the method: `CHAT USER name` and `CHAT GROUP name` send a chat,
//! whose body is given apart from the line; `JOIN name` and `LEAVE name`
//! join and leave a group.

use vstd::prelude::*;
use vstd::string::{StrSliceExecFns, StringExecFns};

use crate::message::{Chat, ChatView, Join, Leave, MembershipView, Message, MessageView};
use crate::people::{Group, People, PeopleView, User};

pub mod error;

pub use self::error::ParseError;

verus! {

/// Whether `c` separates words: the characters that Unicode calls white
/// space.
pub open spec fn is_space(c: char) -> bool {
    let n: u32 = c as u32;
    ||| 0x09 <= n <= 0x0D
    ||| n == 0x20
    ||| n == 0x85
    ||| n == 0xA0
    ||| n == 0x1680
    ||| 0x2000 <= n <= 0x200A
    ||| n == 0x2028
    ||| n == 0x2029
    ||| n == 0x202F
    ||| n == 0x205F
    ||| n == 0x3000
}

/// The first place at or behind `from` where a word begins, or the length of
/// `text` if there is none.
pub open spec fn word_start(text: Seq<char>, from: int) -> int
    decreases text.len() - from,
{
    if from < 0 || from >= text.len() {
        text.len() as int
    } else if is_space(text[from]) {
        word_start(text, from + 1)
    } else {
        from
    }
}

/// The first place at or behind `from` where a word that holds `from` ends,
/// or the length of `text` if the word goes on to there.
pub open spec fn word_end(text: Seq<char>, from: int) -> int
    decreases text.len() - from,
{
    if from < 0 || from >= text.len() {
        text.len() as int
    } else if is_space(text[from]) {
        from
    } else {
        word_end(text, from + 1)
    }
}

/// A word begins at or behind the place from which it is looked for, and
/// ends behind the place where it begins.
pub proof fn lemma_word_bounds(text: Seq<char>, from: int)
    requires
        0 <= from <= text.len(),
    ensures
        from <= word_start(text, from) <= text.len(),
        from <= word_end(text, from) <= text.len(),
        from < text.len() && !is_space(text[from]) ==> from < word_end(text, from),
        word_start(text, from) < text.len() ==> !is_space(text[word_start(text, from)]),
        word_end(text, from) < text.len() ==> is_space(text[word_end(text, from)]),
    decreases text.len() - from,
{
    if from < text.len() {
        lemma_word_bounds(text, from + 1);
    }
}

/// The words of `text` that begin at or behind `from`, in their order.
pub open spec fn words_from(text: Seq<char>, from: int) -> Seq<Seq<char>>
    decreases text.len() - from,
{
    let start = word_start(text, from);
    if from < 0 || start >= text.len() {
        Seq::empty()
    } else {
        let end = word_end(text, start);
        proof {
            lemma_word_bounds(text, from);
            lemma_word_bounds(text, start);
        }
        seq![text.subrange(start, end)] + words_from(text, end)
    }
}

/// The words of `text`: its longest stretches without white space.
pub open spec fn words(text: Seq<char>) -> Seq<Seq<char>> {
    words_from(text, 0)
}

fn is_whitespace(c: char) -> (space: bool)
    ensures
        space == is_space(c),
{
    let n: u32 = c as u32;
    (0x09 <= n && n <= 0x0D) || n == 0x20 || n == 0x85 || n == 0xA0 || n == 0x1680 || (0x2000 <= n
        && n <= 0x200A) || n == 0x2028 || n == 0x2029 || n == 0x202F || n == 0x205F || n == 0x3000
}

fn chars_of(text: &str) -> (chars: Vec<char>)
    ensures
        chars@ == text@,
{
    let mut chars: Vec<char> = Vec::new();
    for c in it: text.chars()
        invariant
            chars@ == it.seq().take(it.index()),
            it.seq() == text@,
    {
        chars.push(c);
    }
    chars
}

/// What each of `strings` holds, in their order.
pub open spec fn texts(strings: Seq<String>) -> Seq<Seq<char>> {
    strings.map_values(|string: String| string@)
}

/// The words of `text`, as `str::split_whitespace` hands them out one by one.
pub fn split_whitespace(text: &str) -> (out: Vec<String>)
    ensures
        texts(out@) == words(text@),
{
    let chars = chars_of(text);
    let n: usize = chars.len();
    let mut out: Vec<String> = Vec::new();
    let mut at: usize = 0;
    proof {
        assert(texts(out@) + words_from(text@, 0) =~= words(text@));
    }
    while at < n
        invariant
            at <= n,
            n == text@.len(),
            chars@ == text@,
            texts(out@) + words_from(text@, at as int) == words(text@),
        decreases n - at,
    {
        let mut start: usize = at;
        while start < n && is_whitespace(chars[start])
            invariant
                at <= start <= n,
                n == text@.len(),
                chars@ == text@,
                word_start(text@, start as int) == word_start(text@, at as int),
            decreases n - start,
        {
            start = start + 1;
        }
        if start >= n {
            proof {
                assert(texts(out@) + Seq::<Seq<char>>::empty() =~= texts(out@));
            }
            return out;
        }
        let mut end: usize = start;
        while end < n && !is_whitespace(chars[end])
            invariant
                start <= end <= n,
                n == text@.len(),
                chars@ == text@,
                word_end(text@, end as int) == word_end(text@, start as int),
            decreases n - end,
        {
            end = end + 1;
        }
        let word = String::from_str(text.substring_char(start, end));
        proof {
            lemma_word_bounds(text@, start as int);
            out@.lemma_push_map_commute(|string: String| string@, word);
            assert(texts(out@.push(word)) + words_from(text@, end as int) =~= texts(out@)
                + words_from(text@, at as int));
        }
        out.push(word);
        at = end;
    }
    proof {
        assert(texts(out@) + Seq::<Seq<char>>::empty() =~= texts(out@));
    }
    out
}

/// How the words `CHAT USER name` or `CHAT GROUP name` and a body read as a
/// chat from `sender`, or why they do not.
pub open spec fn parsed_chat(sender: Seq<char>, words: Seq<Seq<char>>, body: Seq<char>) -> Result<
    ChatView,
    Seq<char>,
> {
    if words.len() < 2 {
        Err("receiver type (USER/GROUP) not found"@)
    } else if words[1] == "USER"@ {
        if words.len() < 3 {
            Err("username not found"@)
        } else {
            Ok(ChatView { sender, receiver: PeopleView::User(words[2]), body })
        }
    } else if words[1] == "GROUP"@ {
        if words.len() < 3 {
            Err("groupname not found"@)
        } else {
            Ok(ChatView { sender, receiver: PeopleView::Group(words[2]), body })
        }
    } else {
        Err("unknown receiver type"@)
    }
}

/// How the words `JOIN name` or `LEAVE name` read as a command of `sender`
/// about a group, or why they do not.
pub open spec fn parsed_membership(sender: Seq<char>, words: Seq<Seq<char>>) -> Result<
    MembershipView,
    Seq<char>,
> {
    if words.len() < 2 {
        Err("groupname not found"@)
    } else {
        Ok(MembershipView { sender, group: words[1] })
    }
}

/// How the words of a line, with the body where the line is a chat, read as
/// a message from `sender`, or why they do not.
pub open spec fn parsed_message(
    sender: Seq<char>,
    words: Seq<Seq<char>>,
    body: Option<Seq<char>>,
) -> Result<MessageView, Seq<char>> {
    if words.len() == 0 {
        Err("method type (CHAT/JOIN/LEAVE) not found"@)
    } else if words[0] == "CHAT"@ {
        match parsed_chat(sender, words, body->0) {
            Ok(chat) => Ok(MessageView::Chat(chat)),
            Err(reason) => Err(reason),
        }
    } else if words[0] == "JOIN"@ {
        match parsed_membership(sender, words) {
            Ok(join) => Ok(MessageView::Join(join)),
            Err(reason) => Err(reason),
        }
    } else if words[0] == "LEAVE"@ {
        match parsed_membership(sender, words) {
            Ok(leave) => Ok(MessageView::Leave(leave)),
            Err(reason) => Err(reason),
        }
    } else {
        Err("unknown method type"@)
    }
}

/// Whether a line opens a chat, so that a body has to be asked for.
pub open spec fn opens_chat(header: Seq<char>) -> bool {
    words(header).len() > 0 && words(header)[0] == "CHAT"@
}

/// Whether the line `header` opens a chat: the console then asks for the
/// body before the line is parsed.
pub fn needs_body(header: &str) -> (needed: bool)
    ensures
        needed == opens_chat(header@),
{
    let words = split_whitespace(header);
    words.len() > 0 && words[0] == String::from_str("CHAT")
}

/// Reads the lines of one user as that user's messages.
pub struct Parser {
    sender: User,
}

impl View for Parser {
    type V = Seq<char>;

    /// The username of the user whose lines are read.
    closed spec fn view(&self) -> Seq<char> {
        self.sender@
    }
}

impl Parser {
    /// A parser for the lines of `sender`.
    pub fn new(sender: User) -> (parser: Self)
        ensures
            parser@ == sender@,
    {
        Parser { sender }
    }

    /// Reads the line `header` as a message of the parser's user. A line
    /// that opens a chat comes with the chat's `body`.
    pub fn parse_message(&self, header: String, body: Option<String>) -> (parsed: Result<
        Message,
        ParseError,
    >)
        requires
            opens_chat(header@) ==> body is Some,
        ensures
            match parsed {
                Ok(message) => parsed_message(
                    self@,
                    words(header@),
                    match body {
                        Some(body) => Some(body@),
                        None => None,
                    },
                ) == Ok::<MessageView, Seq<char>>(message@),
                Err(error) => parsed_message(
                    self@,
                    words(header@),
                    match body {
                        Some(body) => Some(body@),
                        None => None,
                    },
                ) == Err::<MessageView, Seq<char>>(error@),
            },
    {
        let words = split_whitespace(header.as_str());
        if words.len() == 0 {
            return Err(ParseError::method_type_not_found());
        }
        assert(texts(words@)[0] == words@[0]@);
        if words[0] == String::from_str("CHAT") {
            match self.parse_chat(&words, body.unwrap()) {
                Ok(chat) => Ok(Message::Chat(chat)),
                Err(error) => Err(error),
            }
        } else if words[0] == String::from_str("JOIN") {
            match self.parse_join(&words) {
                Ok(join) => Ok(Message::Join(join)),
                Err(error) => Err(error),
            }
        } else if words[0] == String::from_str("LEAVE") {
            match self.parse_leave(&words) {
                Ok(leave) => Ok(Message::Leave(leave)),
                Err(error) => Err(error),
            }
        } else {
            Err(ParseError::unknown_method_type())
        }
    }

    fn parse_chat(&self, words: &Vec<String>, body: String) -> (parsed: Result<Chat, ParseError>)
        ensures
            match parsed {
                Ok(chat) => parsed_chat(self@, texts(words@), body@) == Ok::<ChatView, Seq<char>>(
                    chat@,
                ),
                Err(error) => parsed_chat(self@, texts(words@), body@) == Err::<
                    ChatView,
                    Seq<char>,
                >(error@),
            },
    {
        if words.len() < 2 {
            return Err(ParseError::receiver_type_not_found());
        }
        assert(texts(words@)[1] == words@[1]@);
        let receiver = if words[1] == String::from_str("USER") {
            if words.len() < 3 {
                return Err(ParseError::username_not_found());
            }
            assert(texts(words@)[2] == words@[2]@);
            People::User(User::new(words[2].clone()))
        } else if words[1] == String::from_str("GROUP") {
            if words.len() < 3 {
                return Err(ParseError::groupname_not_found());
            }
            assert(texts(words@)[2] == words@[2]@);
            People::Group(Group::new(words[2].clone()))
        } else {
            return Err(ParseError::unknown_receiver_type());
        };
        Ok(Chat::new(self.sender.clone(), receiver, body))
    }

    fn parse_join(&self, words: &Vec<String>) -> (parsed: Result<Join, ParseError>)
        ensures
            match parsed {
                Ok(join) => parsed_membership(self@, texts(words@)) == Ok::<
                    MembershipView,
                    Seq<char>,
                >(join@),
                Err(error) => parsed_membership(self@, texts(words@)) == Err::<
                    MembershipView,
                    Seq<char>,
                >(error@),
            },
    {
        if words.len() < 2 {
            return Err(ParseError::groupname_not_found());
        }
        assert(texts(words@)[1] == words@[1]@);
        Ok(Join::new(self.sender.clone(), Group::new(words[1].clone())))
    }

    fn parse_leave(&self, words: &Vec<String>) -> (parsed: Result<Leave, ParseError>)
        ensures
            match parsed {
                Ok(leave) => parsed_membership(self@, texts(words@)) == Ok::<
                    MembershipView,
                    Seq<char>,
                >(leave@),
                Err(error) => parsed_membership(self@, texts(words@)) == Err::<
                    MembershipView,
                    Seq<char>,
                >(error@),
            },
    {
        if words.len() < 2 {
            return Err(ParseError::groupname_not_found());
        }
        assert(texts(words@)[1] == words@[1]@);
        Ok(Leave::new(self.sender.clone(), Group::new(words[1].clone())))
    }
}

} // verus!
