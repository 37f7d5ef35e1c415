//! Small types shared by the commands.
use vstd::prelude::*;

verus! {

/// Identifies a message: its id and the chat it is in.
#[derive(Clone, Copy, Debug, PartialEq, Eq, Structural)]
pub struct MessageIdentifier {
    pub id: i64,
    pub chat: i64,
}

impl MessageIdentifier {
    /// The identifier of message `id` in chat `chat`.
    pub fn from_message(id: i64, chat: i64) -> (r: Self)
        ensures
            r.id == id,
            r.chat == chat,
    {
        Self { id, chat }
    }
}

/// What can go wrong in a command; the user is told the message.
#[derive(Clone, Copy, Debug, PartialEq, Eq, Structural)]
pub enum BotError {
    /// A page of a list numbered 0 (pages start at 1).
    BadPageId,
    /// An idol id that no group lists.
    IdolNotFound,
    /// A card id that the data source does not know.
    NoCardFound,
}

/// The message that the user is shown for an error.
pub open spec fn error_text(e: BotError) -> Seq<char> {
    match e {
        BotError::BadPageId => "Bad page_id"@,
        BotError::IdolNotFound => "Idol not found"@,
        BotError::NoCardFound => "No card found"@,
    }
}

impl BotError {
    /// The message that the user is shown for this error.
    pub fn message(&self) -> (r: String)
        ensures
            r@ == error_text(*self),
    {
        match self {
            BotError::BadPageId => String::from_str("Bad page_id"),
            BotError::IdolNotFound => String::from_str("Idol not found"),
            BotError::NoCardFound => String::from_str("No card found"),
        }
    }
}

} // verus!
