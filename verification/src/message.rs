//! The messages that cross the wire.

use vstd::prelude::*;

verus! {

/// One message of the protocol.
///
/// A value is complete before it is encoded and is never changed afterwards.
#[derive(Debug)]
pub enum MessageType {
    /// UTF-8 text, possibly empty.
    Text(String),
    /// The bytes of a PNG image.
    Image(Vec<u8>),
    /// A file: its base name and its bytes.
    File { name: String, content: Vec<u8> },
    /// The end of the session.
    Quit,
}

/// The mathematical model of a [`MessageType`].
pub enum Message {
    Text(Seq<char>),
    Image(Seq<u8>),
    File { name: Seq<char>, content: Seq<u8> },
    Quit,
}

impl View for MessageType {
    type V = Message;

    open spec fn view(&self) -> Message {
        match self {
            MessageType::Text(text) => Message::Text(text@),
            MessageType::Image(bytes) => Message::Image(bytes@),
            MessageType::File { name, content } => Message::File {
                name: name@,
                content: content@,
            },
            MessageType::Quit => Message::Quit,
        }
    }
}

impl Message {
    /// A file message is well named when its name is a single path component:
    /// not empty, without a separator, and neither `.` nor `..`.
    pub open spec fn well_named(self) -> bool {
        self matches Message::File { name, .. } ==> {
            &&& name.len() > 0
            &&& !name.contains('/')
            &&& name != seq!['.']
            &&& name != seq!['.', '.']
        }
    }
}

impl MessageType {
    /// Constructs a `Text` message from a string.
    pub fn from_text(text: &str) -> (message: MessageType)
        ensures
            message@ == Message::Text(text@),
    {
        MessageType::Text(text.to_string())
    }

    /// Tells whether this message ends the session.
    pub fn is_quit(&self) -> (quit: bool)
        ensures
            quit == (self@ is Quit),
    {
        match self {
            MessageType::Quit => true,
            _ => false,
        }
    }
}

} // verus!
