//! The role of a conversation message.

use vstd::prelude::*;

verus! {

/// The message role.
#[derive(Clone, Copy, Debug, PartialEq, Eq, Structural)]
pub enum Role {
    System,
    User,
    Assistant,
}

impl Role {
    /// The name of the role in a request document.
    pub open spec fn name(self) -> Seq<char> {
        match self {
            Role::System => "system"@,
            Role::User => "user"@,
            Role::Assistant => "assistant"@,
        }
    }

    /// Returns true if it is the system prompt message.
    pub fn is_system(&self) -> (r: bool)
        ensures
            r == (*self == Role::System),
    {
        Role::System == *self
    }

    /// Returns true if it is the user message.
    pub fn is_user(&self) -> (r: bool)
        ensures
            r == (*self == Role::User),
    {
        Role::User == *self
    }

    /// Returns true if it is the assistant message.
    pub fn is_assistant(&self) -> (r: bool)
        ensures
            r == (*self == Role::Assistant),
    {
        Role::Assistant == *self
    }

    /// The lower-case name under which the role is written into a request.
    pub fn as_str(&self) -> (r: &'static str)
        ensures
            r@ == self.name(),
    {
        match self {
            Role::System => "system",
            Role::User => "user",
            Role::Assistant => "assistant",
        }
    }
}

} // verus!
