//! The frames that a connection yields.

use vstd::prelude::*;

verus! {

/// Why the peer closed the connection.
#[derive(Clone, Debug, PartialEq, Eq)]
pub struct CloseReason {
    /// The status code of the close frame.
    pub code: u16,
    /// The peer's words.
    pub reason: String,
}

/// One decoded frame. A frame that is none of the known kinds is `Other`.
#[derive(Clone, Debug, PartialEq, Eq)]
pub enum InboundFrame {
    Text(String),
    Binary(Vec<u8>),
    Ping(Vec<u8>),
    Pong(Vec<u8>),
    Close(Option<CloseReason>),
    Other,
}

impl InboundFrame {
    /// The payload of a text frame.
    pub open spec fn text(self) -> Option<Seq<char>> {
        match self {
            InboundFrame::Text(s) => Some(s@),
            _ => None,
        }
    }

    /// Whether the frame closes the connection.
    pub open spec fn closes(self) -> bool {
        self is Close
    }

    /// Whether the frame closes the connection.
    pub fn is_close(&self) -> (closes: bool)
        ensures
            closes == self.closes(),
    {
        match self {
            InboundFrame::Close(_) => true,
            _ => false,
        }
    }

    /// The payload, if this is a text frame.
    pub fn into_text(self) -> (text: Option<String>)
        ensures
            match text {
                Some(s) => self.text() == Some(s@),
                None => self.text().is_none(),
            },
    {
        match self {
            InboundFrame::Text(s) => Some(s),
            _ => None,
        }
    }
}

} // verus!
