//! Chat messages and their roles.

use vstd::prelude::*;
use crate::model::{lower_of, to_lower};

verus! {

/// The author of a message.
#[derive(Debug, Clone, PartialEq, Eq)]
pub enum MessageRole {
    User,
    Assistant,
    System,
    Tool,
    Text,
    /// A role name that none of the others has.
    Unknown(String),
}

/// One message of a conversation.
#[derive(Debug, Clone, PartialEq, Eq)]
pub struct Message {
    pub content: String,
    pub role: MessageRole,
}

/// A failure to read a message.
#[derive(Debug, Clone, PartialEq, Eq)]
pub enum ParseMessageError {
    MissingField(String),
    InvalidValue { field: String, value: String },
}

pub open spec fn user_name() -> Seq<char> {
    seq!['u', 's', 'e', 'r']
}

pub open spec fn assistant_name() -> Seq<char> {
    seq!['a', 's', 's', 'i', 's', 't', 'a', 'n', 't']
}

pub open spec fn system_name() -> Seq<char> {
    seq!['s', 'y', 's', 't', 'e', 'm']
}

pub open spec fn tool_name() -> Seq<char> {
    seq!['t', 'o', 'o', 'l']
}

pub open spec fn text_name() -> Seq<char> {
    seq!['t', 'e', 'x', 't']
}

/// The name of one of the five fixed roles.
pub open spec fn is_known_name(s: Seq<char>) -> bool {
    s == user_name() || s == assistant_name() || s == system_name() || s == tool_name() || s
        == text_name()
}

/// The name of a role as it appears on the wire.
pub open spec fn role_name(r: MessageRole) -> Seq<char> {
    match r {
        MessageRole::User => user_name(),
        MessageRole::Assistant => assistant_name(),
        MessageRole::System => system_name(),
        MessageRole::Tool => tool_name(),
        MessageRole::Text => text_name(),
        MessageRole::Unknown(s) => s@,
    }
}

/// Tests whether two strings hold the same characters.
pub fn str_eq(a: &str, b: &str) -> (r: bool)
    ensures
        r == (a@ == b@),
{
    a.to_string() == b.to_string()
}

impl MessageRole {
    /// The name of the role.
    pub fn as_str(&self) -> (r: &str)
        ensures
            r@ == role_name(*self),
    {
        proof {
            reveal_strlit("user");
            reveal_strlit("assistant");
            reveal_strlit("system");
            reveal_strlit("tool");
            reveal_strlit("text");
        }
        match self {
            MessageRole::User => {
                assert("user"@ =~= user_name());
                "user"
            },
            MessageRole::Assistant => {
                assert("assistant"@ =~= assistant_name());
                "assistant"
            },
            MessageRole::System => {
                assert("system"@ =~= system_name());
                "system"
            },
            MessageRole::Tool => {
                assert("tool"@ =~= tool_name());
                "tool"
            },
            MessageRole::Text => {
                assert("text"@ =~= text_name());
                "text"
            },
            MessageRole::Unknown(other) => other.as_str(),
        }
    }

    /// The role with the given name; a name of none of the fixed roles gives
    /// `Unknown` holding that name.
    pub fn from_str(s: &str) -> (r: MessageRole)
        ensures
            role_name(r) == s@,
            r is Unknown <==> !is_known_name(s@),
    {
        proof {
            reveal_strlit("user");
            reveal_strlit("assistant");
            reveal_strlit("system");
            reveal_strlit("tool");
            reveal_strlit("text");
            assert("user"@ =~= user_name());
            assert("assistant"@ =~= assistant_name());
            assert("system"@ =~= system_name());
            assert("tool"@ =~= tool_name());
            assert("text"@ =~= text_name());
        }
        if str_eq(s, "user") {
            MessageRole::User
        } else if str_eq(s, "assistant") {
            MessageRole::Assistant
        } else if str_eq(s, "system") {
            MessageRole::System
        } else if str_eq(s, "tool") {
            MessageRole::Tool
        } else if str_eq(s, "text") {
            MessageRole::Text
        } else {
            MessageRole::Unknown(s.to_string())
        }
    }
}

impl MessageRole {
    /// The role named by `s` in any letter case: the lower-case form of `s`
    /// is read as by [`MessageRole::from_str`].
    pub fn from_any_case(s: &str) -> (r: MessageRole)
        ensures
            role_name(r) == lower_of(s@),
            r is Unknown <==> !is_known_name(lower_of(s@)),
    {
        let lower = to_lower(s);
        MessageRole::from_str(lower.as_str())
    }
}

impl Message {
    /// A message with the given content and role.
    pub fn new(content: &str, role: MessageRole) -> (r: Message)
        ensures
            r.content@ == content@,
            r.role == role,
    {
        Message { content: content.to_string(), role }
    }

    /// A message from the user.
    pub fn user(content: &str) -> (r: Message)
        ensures
            r.content@ == content@,
            r.role == MessageRole::User,
    {
        Message::new(content, MessageRole::User)
    }

    /// A message from the assistant.
    pub fn assistant(content: &str) -> (r: Message)
        ensures
            r.content@ == content@,
            r.role == MessageRole::Assistant,
    {
        Message::new(content, MessageRole::Assistant)
    }

    /// A system message.
    pub fn system(content: &str) -> (r: Message)
        ensures
            r.content@ == content@,
            r.role == MessageRole::System,
    {
        Message::new(content, MessageRole::System)
    }
}

} // verus!
