//! Why a line of console input is no message.

use vstd::prelude::*;
use vstd::string::StringExecFns;

verus! {

/// The reason why a line could not be read as a message.
#[derive(Debug)]
pub struct ParseError {
    message: &'static str,
}

impl View for ParseError {
    type V = Seq<char>;

    /// The reason, in words.
    closed spec fn view(&self) -> Seq<char> {
        self.message@
    }
}

impl ParseError {
    /// The line is empty: it names no method.
    pub fn method_type_not_found() -> (error: ParseError)
        ensures
            error@ == "method type (CHAT/JOIN/LEAVE) not found"@,
    {
        ParseError { message: "method type (CHAT/JOIN/LEAVE) not found" }
    }

    /// The first word of the line is none of the three methods.
    pub fn unknown_method_type() -> (error: ParseError)
        ensures
            error@ == "unknown method type"@,
    {
        ParseError { message: "unknown method type" }
    }

    /// A chat does not say whether it goes to a user or to a group.
    pub fn receiver_type_not_found() -> (error: ParseError)
        ensures
            error@ == "receiver type (USER/GROUP) not found"@,
    {
        ParseError { message: "receiver type (USER/GROUP) not found" }
    }

    /// A chat goes to something that is neither a user nor a group.
    pub fn unknown_receiver_type() -> (error: ParseError)
        ensures
            error@ == "unknown receiver type"@,
    {
        ParseError { message: "unknown receiver type" }
    }

    /// A chat to a user does not name the user.
    pub fn username_not_found() -> (error: ParseError)
        ensures
            error@ == "username not found"@,
    {
        ParseError { message: "username not found" }
    }

    /// The line does not name the group.
    pub fn groupname_not_found() -> (error: ParseError)
        ensures
            error@ == "groupname not found"@,
    {
        ParseError { message: "groupname not found" }
    }

    /// The error as it is shown to the user.
    pub fn to_string(&self) -> (shown: String)
        ensures
            shown@ == "ParseError: "@ + self@,
    {
        String::from_str("ParseError: ").concat(self.message)
    }
}

} // verus!
