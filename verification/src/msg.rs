use vstd::prelude::*;

use crate::errors::OkError;

verus! {

/// A chat message, in the four shapes the endpoint reads and emits: a role
/// alone, content alone, both, or neither.
#[derive(Clone, Debug, PartialEq)]
pub enum ChatFmtMsg {
    Role { role: String },
    Content { content: String },
    Both { role: String, content: String },
    Empty {},
}

/// The mathematical model of a [`ChatFmtMsg`].
pub ghost enum GMsg {
    Role { role: Seq<char> },
    Content { content: Seq<char> },
    Both { role: Seq<char>, content: Seq<char> },
    Empty,
}

impl View for ChatFmtMsg {
    type V = GMsg;

    open spec fn view(&self) -> GMsg {
        match self {
            ChatFmtMsg::Role { role } => GMsg::Role { role: role@ },
            ChatFmtMsg::Content { content } => GMsg::Content { content: content@ },
            ChatFmtMsg::Both { role, content } => GMsg::Both { role: role@, content: content@ },
            ChatFmtMsg::Empty {} => GMsg::Empty,
        }
    }
}

impl ChatFmtMsg {
    /// An assistant message with the given content.
    pub fn assistant(content: &str) -> (m: ChatFmtMsg)
        ensures
            m@ == (GMsg::Both { role: "assistant"@, content: content@ }),
    {
        ChatFmtMsg::Both { role: "assistant".to_owned(), content: content.to_owned() }
    }

    /// A user message with the given content.
    pub fn user(content: &str) -> (m: ChatFmtMsg)
        ensures
            m@ == (GMsg::Both { role: "user"@, content: content@ }),
    {
        ChatFmtMsg::Both { role: "user".to_owned(), content: content.to_owned() }
    }

    /// A system message with the given content.
    pub fn system(content: &str) -> (m: ChatFmtMsg)
        ensures
            m@ == (GMsg::Both { role: "system"@, content: content@ }),
    {
        ChatFmtMsg::Both { role: "system".to_owned(), content: content.to_owned() }
    }

    /// A copy of this message, field by field.
    pub fn duplicate(&self) -> (m: ChatFmtMsg)
        ensures
            m@ == self@,
    {
        match self {
            ChatFmtMsg::Role { role } => ChatFmtMsg::Role { role: role.clone() },
            ChatFmtMsg::Content { content } => ChatFmtMsg::Content { content: content.clone() },
            ChatFmtMsg::Both { role, content } => ChatFmtMsg::Both {
                role: role.clone(),
                content: content.clone(),
            },
            ChatFmtMsg::Empty {} => ChatFmtMsg::Empty {},
        }
    }
}

/// One completion choice: the message (or, in a stream, the delta) it
/// carries.
#[derive(Clone, Debug, PartialEq)]
pub struct Choice {
    pub message: ChatFmtMsg,
}

impl View for Choice {
    type V = GMsg;

    open spec fn view(&self) -> GMsg {
        self.message@
    }
}

/// A decoded completion response or completion chunk: its list of choices.
#[derive(Clone, Debug, PartialEq)]
pub struct GPTRes {
    pub choices: Vec<Choice>,
}

impl View for GPTRes {
    type V = Seq<GMsg>;

    open spec fn view(&self) -> Seq<GMsg> {
        self.choices@.map_values(|c: Choice| c@)
    }
}

/// The message of the first choice; a response with zero choices is a
/// protocol error.
pub fn get_first_choice(res: &GPTRes) -> (r: Result<ChatFmtMsg, OkError>)
    ensures
        res@.len() == 0 ==> r == Err::<ChatFmtMsg, OkError>(OkError::Protocol),
        res@.len() > 0 ==> (r matches Ok(m) && m@ == res@[0]),
{
    if res.choices.len() == 0 {
        Err(OkError::Protocol)
    } else {
        Ok(res.choices[0].message.duplicate())
    }
}

} // verus!
