//! Sessions: one for each PC client that listens for events.

use crate::clock::Moment;
use crate::ids::Id;
use crate::server::store::{Record, Store};
use crate::text;
use vstd::prelude::*;

verus! {

/// One PC client that listens for events.
#[derive(Debug)]
pub struct Session {
    /// The session's token, which is also its key.
    pub token: String,
    /// When it began.
    pub created_at: Moment,
    /// Kept for clients that set it; nothing reads it.
    pub scanned: bool,
    /// When a phone began to connect, while it is connecting.
    pub upgrade_reserved_at: Option<Moment>,
    /// Is a phone connected?
    pub ws_active: bool,
    /// The channel that events reach the PC by.
    pub client_tx: Option<u64>,
    /// The channel that messages reach the phone by.
    pub mobile_control_tx: Option<u64>,
    /// What the phone calls itself.
    pub device_info: Option<String>,
    /// The pairing it belongs to.
    pub pairing_id: Option<Id>,
    /// The secret that the PC proves the session with.
    pub grpc_session_token: String,
    /// What the PC client can do, one bit for each ability.
    pub client_capabilities: u32,
}

/// A session, for contracts.
#[verifier::ext_equal]
pub struct SessionView {
    pub token: Seq<char>,
    pub created_at: Moment,
    pub scanned: bool,
    pub upgrade_reserved_at: Option<Moment>,
    pub ws_active: bool,
    pub client_tx: Option<u64>,
    pub mobile_control_tx: Option<u64>,
    pub device_info: Option<Seq<char>>,
    pub pairing_id: Option<Id>,
    pub grpc_session_token: Seq<char>,
    pub client_capabilities: u32,
}

impl View for Session {
    type V = SessionView;

    open spec fn view(&self) -> SessionView {
        SessionView {
            token: self.token@,
            created_at: self.created_at,
            scanned: self.scanned,
            upgrade_reserved_at: self.upgrade_reserved_at,
            ws_active: self.ws_active,
            client_tx: self.client_tx,
            mobile_control_tx: self.mobile_control_tx,
            device_info: text::opt_chars(self.device_info),
            pairing_id: self.pairing_id,
            grpc_session_token: self.grpc_session_token@,
            client_capabilities: self.client_capabilities,
        }
    }
}

/// A copy of a string, or of none.
pub(crate) fn copy_opt(s: &Option<String>) -> (r: Option<String>)
    ensures
        text::opt_chars(r) == text::opt_chars(*s),
{
    match s {
        Some(s) => Some(s.clone()),
        None => None,
    }
}

impl Record for Session {
    fn copy(&self) -> (r: Session) {
        Session {
            token: self.token.clone(),
            created_at: self.created_at,
            scanned: self.scanned,
            upgrade_reserved_at: self.upgrade_reserved_at,
            ws_active: self.ws_active,
            client_tx: self.client_tx,
            mobile_control_tx: self.mobile_control_tx,
            device_info: copy_opt(&self.device_info),
            pairing_id: self.pairing_id,
            grpc_session_token: self.grpc_session_token.clone(),
            client_capabilities: self.client_capabilities,
        }
    }
}

/// All sessions, by token.
pub type SessionStore = Store<String, Session>;

/// No sessions.
pub fn new_store() -> (r: SessionStore)
    ensures
        r@ == Map::<Seq<char>, SessionView>::empty(),
{
    Store::new()
}

} // verus!
