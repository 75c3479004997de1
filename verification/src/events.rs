//! The events that the server sends to a PC client.

use vstd::prelude::*;

verus! {

/// How the bytes of a file reach the PC.
#[derive(Debug, Clone, Copy, PartialEq, Eq, Structural)]
pub enum TransferMode {
    /// The file is stored first and fetched then.
    Relay,
    /// The file is streamed over the event connection while it comes in.
    Streaming,
    /// The file is streamed over HTTP while it comes in.
    HttpStreaming,
}

/// A file for the PC.
#[derive(Debug)]
pub struct FileReceived {
    /// The file's identifier, as text.
    pub file_id: String,
    /// The name to save it under.
    pub file_name: String,
    /// Its media type.
    pub mime_type: String,
    /// Its size, zero while it is coming in.
    pub size_bytes: u64,
    /// Where it is fetched from.
    pub download_url: String,
    /// Its digest in hexadecimal, empty while it is coming in.
    pub sha256: String,
    /// How its bytes reach the PC.
    pub transfer_mode: TransferMode,
    /// The secret that it is fetched with.
    pub file_access_token: Vec<u8>,
}

/// A file for the PC, for contracts.
#[verifier::ext_equal]
pub struct FileReceivedView {
    pub file_id: Seq<char>,
    pub file_name: Seq<char>,
    pub mime_type: Seq<char>,
    pub size_bytes: u64,
    pub download_url: Seq<char>,
    pub sha256: Seq<char>,
    pub transfer_mode: TransferMode,
    pub file_access_token: Seq<u8>,
}

impl View for FileReceived {
    type V = FileReceivedView;

    open spec fn view(&self) -> FileReceivedView {
        FileReceivedView {
            file_id: self.file_id@,
            file_name: self.file_name@,
            mime_type: self.mime_type@,
            size_bytes: self.size_bytes,
            download_url: self.download_url@,
            sha256: self.sha256@,
            transfer_mode: self.transfer_mode,
            file_access_token: self.file_access_token@,
        }
    }
}

/// What happened.
#[derive(Debug)]
pub enum Event {
    /// The session's token, and the address for the phone.
    SessionToken { token: String, url: String },
    /// A phone has connected.
    MobileConnected { device_info: String },
    /// The phone has gone.
    MobileDisconnected,
    /// Text for the clipboard.
    ClipboardText { content: String },
    /// A file.
    FileReceived(FileReceived),
    /// Nothing: the server is still there.
    Ping,
}

/// What happened, for contracts.
pub enum EventView {
    SessionToken { token: Seq<char>, url: Seq<char> },
    MobileConnected { device_info: Seq<char> },
    MobileDisconnected,
    ClipboardText { content: Seq<char> },
    FileReceived(FileReceivedView),
    Ping,
}

impl View for Event {
    type V = EventView;

    open spec fn view(&self) -> EventView {
        match self {
            Event::SessionToken { token, url } => EventView::SessionToken {
                token: token@,
                url: url@,
            },
            Event::MobileConnected { device_info } => EventView::MobileConnected {
                device_info: device_info@,
            },
            Event::MobileDisconnected => EventView::MobileDisconnected,
            Event::ClipboardText { content } => EventView::ClipboardText { content: content@ },
            Event::FileReceived(file) => EventView::FileReceived(file@),
            Event::Ping => EventView::Ping,
        }
    }
}

/// An event as it is sent.
#[derive(Debug)]
pub struct ServerEvent {
    /// What happened; nothing in an event of a kind that is not known here.
    pub event: Option<Event>,
    /// The secret of the session, in its first event; empty in the others.
    pub grpc_session_token: String,
}

impl ServerEvent {
    /// Is this the event, with the session's secret where there is one?
    pub open spec fn is(self, event: EventView, secret: Seq<char>) -> bool {
        (self.event matches Some(e) && e@ == event) && self.grpc_session_token@ == secret
    }
}

/// An event without a session's secret.
pub fn plain_event(event: Event) -> (r: ServerEvent)
    ensures
        r.event == Some(event),
        r.grpc_session_token@ == Seq::<char>::empty(),
        r.is(event@, Seq::empty()),
{
    ServerEvent { event: Some(event), grpc_session_token: String::new() }
}

} // verus!
