//! The messages between the server and a phone's page.

use vstd::prelude::*;

verus! {

/// What a phone sends.
#[derive(Debug)]
pub enum MobileMessage {
    /// Text for the PC's clipboard.
    ClipboardText { content: String },
    /// A sign of life, to be answered with [`ServerToMobileMessage::Pong`].
    Ping,
}

/// What the server sends to a phone.
#[derive(Debug)]
pub enum ServerToMobileMessage {
    /// The PC is gone.
    ClientDisconnected,
    /// Something went wrong; the message is for people.
    Error { message: String },
    /// The answer to a ping.
    Pong,
}

} // verus!
