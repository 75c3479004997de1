//! A phone's connection: what happens when it opens, with each thing that comes in on it, and when
//! it ends.
//!
//! The caller owns the socket. It says what came in, and does what it is told.

use crate::clock::Moment;
use crate::common::{MobileMessage, ServerToMobileMessage};
use crate::events::{plain_event, Event, EventView};
use crate::ids::Id;
use crate::server::pairing::{CloseReason, PairingView, WsControl, WsHandle};
use crate::server::relay;
use crate::server::relay::{clear_mobile_ws_state, current_client_tx, mark_mobile_ws_connected};
use crate::server::session::SessionView;
use crate::server::web;
use crate::server::web::{
    AppState, CloseOrder, Notice, StateView, CLOSE_REPLACED, CLOSE_REVOKED, CLOSE_SESSION,
};
use crate::text;
use crate::text::{chars_of, string_of};
use vstd::prelude::*;

verus! {

/// The code that a connection is closed with when it sends pings too fast.
pub const CLOSE_POLICY: u16 = 1008;

/// Seconds after which a connection may send one more ping.
pub const PING_PERIOD_SECS: u64 = 30;

/// How many pings a connection may send at once.
pub const PING_BURST: u32 = 2;

/// A phone's connection.
#[derive(Debug)]
pub struct PhoneLink {
    /// Its pairing.
    pub pairing_id: Id,
    /// Its browser session.
    pub browser_session_id: [u8; 32],
    /// Its own identifier.
    pub connection_id: Id,
    /// The channel that messages for the phone come by.
    pub mobile_control_tx: u64,
    /// The session that noted it.
    pub session_token: Option<String>,
    /// Was the last ping one too many?
    pub ping_rate_exceeded: bool,
}

/// What came in on a connection.
#[derive(Debug)]
pub enum LinkEvent {
    /// An order; nothing where nobody can give one any more.
    Control(Option<WsControl>),
    /// A message for the phone; nothing where nobody can send one any more.
    ForPhone(Option<String>),
    /// Nothing for too long.
    Idle,
    /// The end, or a failure.
    Ended,
    /// A frame that is not text.
    Other,
    /// A text of so many bytes, and the message that it is, if it is one.
    Text { len: usize, message: Option<MobileMessage> },
}

/// What is to be done.
#[derive(Debug)]
pub enum LinkAction {
    /// Nothing; wait for what comes next.
    Wait,
    /// Stop.
    Stop,
    /// Pass the text on to the phone; stop where that fails.
    PassOn(String),
    /// Send a message to the phone.
    Send(ServerToMobileMessage),
    /// Send a message to the phone and stop.
    SendAndStop(ServerToMobileMessage),
    /// Close the connection and stop.
    Close(WsControl),
    /// Ask the limiter whether a ping is allowed, and tell [`PhoneLink::on_ping`].
    AskLimiter,
    /// Send an event to the PC client; where that fails do as [`PhoneLink::on_forward_failed`]
    /// says.
    Forward(Notice),
}

/// The reason that belongs to a code.
pub open spec fn reason_of(code: u16) -> CloseReason {
    if code == CLOSE_REPLACED {
        CloseReason::Replaced
    } else if code == CLOSE_REVOKED {
        CloseReason::Revoked
    } else if code == CLOSE_SESSION {
        CloseReason::SessionRevoked
    } else {
        CloseReason::Superseded
    }
}

/// Is this the event for the PC client of the pairing, by the channel of its latest session; none
/// where it has no PC client?
pub open spec fn tells_client(
    sessions: Map<Seq<char>, SessionView>,
    pairings: Map<Id, PairingView>,
    pairing_id: Id,
    event: EventView,
    notice: Option<Notice>,
) -> bool {
    exists|found: Option<Seq<char>>|
        {
            &&& #[trigger] relay::is_latest(sessions, pairings, pairing_id, found)
            &&& match relay::client_of(sessions, found) {
                Some((tx, _)) => notice matches Some(n) && n.client_tx == tx && n.event.is(
                    event,
                    Seq::empty(),
                ),
                None => notice is None,
            }
        }
}

/// The characters of a text, none where there is none.
pub open spec fn or_empty(s: Option<Seq<char>>) -> Seq<char> {
    match s {
        Some(t) => t,
        None => Seq::empty(),
    }
}

/// What is done with what came in.
pub open spec fn is_step(
    v: StateView,
    link: PhoneLink,
    event: LinkEvent,
    now: Moment,
    action: LinkAction,
) -> bool {
    match event {
        LinkEvent::Control(Some(control)) => action == LinkAction::Close(control),
        LinkEvent::Control(None) => action is Stop,
        LinkEvent::ForPhone(Some(message)) => action == LinkAction::PassOn(message),
        LinkEvent::ForPhone(None) => action is Stop,
        LinkEvent::Idle => action is Stop,
        LinkEvent::Ended => action is Stop,
        LinkEvent::Other => action is Wait,
        LinkEvent::Text { len, message } => {
            if len > v.config.max_message_size_bytes {
                action is Stop
            } else {
                match web::ws_fault(
                    v,
                    link.pairing_id,
                    link.browser_session_id@,
                    link.connection_id,
                    now,
                ) {
                    Some(code) => action == LinkAction::Close(
                        WsControl::Close { code, reason: reason_of(code) },
                    ),
                    None => match message {
                        None => action matches LinkAction::Send(
                            ServerToMobileMessage::Error { message },
                        ) && message@ == "消息格式无效，请重试。"@,
                        Some(MobileMessage::Ping) => action is AskLimiter,
                        Some(MobileMessage::ClipboardText { content }) => if content@.len() == 0 {
                            action is Wait
                        } else {
                            ||| action matches LinkAction::Forward(notice) && tells_client(
                                v.sessions,
                                v.pairings,
                                link.pairing_id,
                                EventView::ClipboardText { content: content@ },
                                Some(notice),
                            )
                            ||| (action matches LinkAction::SendAndStop(m)
                                && m is ClientDisconnected && tells_client(
                                v.sessions,
                                v.pairings,
                                link.pairing_id,
                                EventView::ClipboardText { content: content@ },
                                None,
                            ))
                        },
                    },
                }
            }
        },
    }
}

/// An event for the PC client of the pairing.
fn client_notice(state: &AppState, pairing_id: Id, event: Event) -> (r: Option<Notice>)
    ensures
        tells_client(state@.sessions, state@.pairings, pairing_id, event@, r),
{
    match current_client_tx(&state.store, &state.pairing_store, pairing_id) {
        Some((client_tx, _caps)) => Some(Notice { client_tx, event: plain_event(event) }),
        None => None,
    }
}

impl PhoneLink {
    /// Opens a connection: it takes the place of any that the pairing had, the session of the PC
    /// client notes it, and the PC client is told. Nothing is opened where the pairing is gone.
    ///
    /// Returns the connection, the order to the one whose place it took, and the event for the PC
    /// client.
    pub fn open(
        state: &mut AppState,
        pairing_id: Id,
        browser_session_id: [u8; 32],
        connection_id: Id,
        control_tx: u64,
        mobile_control_tx: u64,
        device_info: Option<String>,
    ) -> (r: Option<(PhoneLink, Option<CloseOrder>, Option<Notice>)>)
        ensures
            if !old(state)@.pairings.contains_key(pairing_id) {
                r is None && final(state)@ == old(state)@
            } else {
                let entry = old(state)@.pairings[pairing_id];
                &&& r matches Some(parts)
                &&& parts.0.pairing_id == pairing_id
                &&& parts.0.browser_session_id == browser_session_id
                &&& parts.0.connection_id == connection_id
                &&& parts.0.mobile_control_tx == mobile_control_tx
                &&& !parts.0.ping_rate_exceeded
                &&& parts.1 == web::close_order(entry, CLOSE_REPLACED, CloseReason::Replaced)
                &&& final(state)@.pairings == old(state)@.pairings.insert(
                    pairing_id,
                    PairingView {
                        active_mobile_ws: Some(WsHandle { connection_id, control_tx }),
                        ..entry
                    },
                )
                &&& relay::is_latest(
                    old(state)@.sessions,
                    final(state)@.pairings,
                    pairing_id,
                    text::opt_chars(parts.0.session_token),
                )
                &&& final(state)@ == (StateView {
                    pairings: final(state)@.pairings,
                    sessions: match parts.0.session_token {
                        Some(token) => old(state)@.sessions.insert(
                            token@,
                            SessionView {
                                ws_active: true,
                                mobile_control_tx: Some(mobile_control_tx),
                                ..old(state)@.sessions[token@]
                            },
                        ),
                        None => old(state)@.sessions,
                    },
                    ..old(state)@
                })
                &&& tells_client(
                    final(state)@.sessions,
                    final(state)@.pairings,
                    pairing_id,
                    EventView::MobileConnected {
                        device_info: or_empty(text::opt_chars(device_info)),
                    },
                    parts.2,
                )
            },
    {
        let entry = match state.pairing_store.remove(&pairing_id) {
            Some(entry) => entry,
            None => {
                assert(state@.pairings =~= old(state)@.pairings);
                return None;
            },
        };
        let close = match entry.active_mobile_ws {
            Some(handle) => Some(
                CloseOrder {
                    control_tx: handle.control_tx,
                    control: WsControl::Close {
                        code: CLOSE_REPLACED,
                        reason: CloseReason::Replaced,
                    },
                },
            ),
            None => None,
        };
        let mut entry = entry;
        entry.active_mobile_ws = Some(WsHandle { connection_id, control_tx });
        let ghost put = entry@;
        state.pairing_store.insert(pairing_id, entry);
        assert(state@.pairings =~= old(state)@.pairings.insert(pairing_id, put));
        let session_token = mark_mobile_ws_connected(
            &mut state.store,
            &state.pairing_store,
            pairing_id,
            mobile_control_tx,
        );
        let name = match device_info {
            Some(name) => name,
            None => String::new(),
        };
        let notice = client_notice(state, pairing_id, Event::MobileConnected { device_info: name });
        Some(
            (
                PhoneLink {
                    pairing_id,
                    browser_session_id,
                    connection_id,
                    mobile_control_tx,
                    session_token,
                    ping_rate_exceeded: false,
                },
                close,
                notice,
            ),
        )
    }

    /// What is to be done with what came in.
    pub fn step(&self, state: &AppState, event: LinkEvent, now: Moment) -> (r: LinkAction)
        ensures
            is_step(state@, *self, event, now, r),
    {
        match event {
            LinkEvent::Control(Some(control)) => LinkAction::Close(control),
            LinkEvent::Control(None) => LinkAction::Stop,
            LinkEvent::ForPhone(Some(message)) => LinkAction::PassOn(message),
            LinkEvent::ForPhone(None) => LinkAction::Stop,
            LinkEvent::Idle => LinkAction::Stop,
            LinkEvent::Ended => LinkAction::Stop,
            LinkEvent::Other => LinkAction::Wait,
            LinkEvent::Text { len, message } => {
                if len > state.config.max_message_size_bytes {
                    return LinkAction::Stop;
                }
                if let Some(code) = state.validate_pairing_ws(
                    self.pairing_id,
                    self.browser_session_id,
                    self.connection_id,
                    now,
                ) {
                    return LinkAction::Close(WsControl::Close { code, reason: close_reason(code) });
                }
                match message {
                    None => LinkAction::Send(
                        ServerToMobileMessage::Error {
                            message: string_of(&chars_of("消息格式无效，请重试。")),
                        },
                    ),
                    Some(MobileMessage::Ping) => LinkAction::AskLimiter,
                    Some(MobileMessage::ClipboardText { content }) => {
                        if chars_of(&content).is_empty() {
                            return LinkAction::Wait;
                        }
                        match client_notice(
                            state,
                            self.pairing_id,
                            Event::ClipboardText { content },
                        ) {
                            Some(notice) => LinkAction::Forward(notice),
                            None => LinkAction::SendAndStop(
                                ServerToMobileMessage::ClientDisconnected,
                            ),
                        }
                    },
                }
            },
        }
    }

    /// A ping, and what the limiter says to it: it is answered where it is allowed; the first that is
    /// not is passed over; the next in a row closes the connection.
    pub fn on_ping(&mut self, allowed: bool) -> (r: LinkAction)
        ensures
            *final(self) == (PhoneLink { ping_rate_exceeded: !allowed, ..*old(self) }),
            if allowed {
                r matches LinkAction::Send(m) && m is Pong
            } else if old(self).ping_rate_exceeded {
                r == LinkAction::Close(
                    WsControl::Close {
                        code: CLOSE_POLICY,
                        reason: CloseReason::PingRateExceeded,
                    },
                )
            } else {
                r is Wait
            },
    {
        if allowed {
            self.ping_rate_exceeded = false;
            LinkAction::Send(ServerToMobileMessage::Pong)
        } else if self.ping_rate_exceeded {
            LinkAction::Close(
                WsControl::Close { code: CLOSE_POLICY, reason: CloseReason::PingRateExceeded },
            )
        } else {
            self.ping_rate_exceeded = true;
            LinkAction::Wait
        }
    }

    /// The event could not be sent to the PC client.
    pub fn on_forward_failed() -> (r: LinkAction)
        ensures
            r matches LinkAction::SendAndStop(m) && m is ClientDisconnected,
    {
        LinkAction::SendAndStop(ServerToMobileMessage::ClientDisconnected)
    }

    /// Ends a connection: the session forgets it and the pairing forgets it, unless another has taken
    /// its place. Returns the event for the PC client.
    pub fn finish(self, state: &mut AppState) -> (r: Option<Notice>)
        ensures
            final(state)@ == closed(old(state)@, self),
            tells_client(
                final(state)@.sessions,
                final(state)@.pairings,
                self.pairing_id,
                EventView::MobileDisconnected,
                r,
            ),
    {
        let token: Option<&str> = match &self.session_token {
            Some(token) => Some(token.as_str()),
            None => None,
        };
        clear_mobile_ws_state(&mut state.store, token, self.mobile_control_tx);
        let mine = match state.pairing_store.get(&self.pairing_id) {
            Some(entry) => match entry.active_mobile_ws {
                Some(handle) => handle.connection_id == self.connection_id,
                None => false,
            },
            None => false,
        };
        if mine {
            if let Some(entry) = state.pairing_store.remove(&self.pairing_id) {
                let mut entry = entry;
                entry.active_mobile_ws = None;
                entry.revision = entry.revision.saturating_add(1);
                state.pairing_store.insert(self.pairing_id, entry);
            }
        }
        assert(state@.pairings =~= closed(old(state)@, self).pairings);
        assert(state@.sessions =~= closed(old(state)@, self).sessions);
        client_notice(state, self.pairing_id, Event::MobileDisconnected)
    }
}

/// The reason that belongs to a code.
fn close_reason(code: u16) -> (r: CloseReason)
    ensures
        r == reason_of(code),
{
    if code == CLOSE_REPLACED {
        CloseReason::Replaced
    } else if code == CLOSE_REVOKED {
        CloseReason::Revoked
    } else if code == CLOSE_SESSION {
        CloseReason::SessionRevoked
    } else {
        CloseReason::Superseded
    }
}

/// Is this connection the one that the pairing has?
pub open spec fn is_active(v: StateView, pairing_id: Id, connection_id: Id) -> bool {
    v.pairings.contains_key(pairing_id) && (v.pairings[pairing_id].active_mobile_ws matches Some(
        handle,
    ) && handle.connection_id == connection_id)
}

/// The state once a connection has ended.
pub open spec fn closed(v: StateView, link: PhoneLink) -> StateView {
    StateView {
        sessions: match link.session_token {
            Some(token) => if v.sessions.contains_key(token@)
                && v.sessions[token@].mobile_control_tx == Some(link.mobile_control_tx) {
                v.sessions.insert(
                    token@,
                    SessionView {
                        ws_active: false,
                        mobile_control_tx: None,
                        ..v.sessions[token@]
                    },
                )
            } else {
                v.sessions
            },
            None => v.sessions,
        },
        pairings: if is_active(v, link.pairing_id, link.connection_id) {
            v.pairings.insert(
                link.pairing_id,
                PairingView {
                    active_mobile_ws: None,
                    revision: relay::bump(v.pairings[link.pairing_id].revision),
                    ..v.pairings[link.pairing_id]
                },
            )
        } else {
            v.pairings
        },
        ..v
    }
}

/// A connection whose place another has taken does not touch the other when it ends.
pub proof fn law_replaced_link_leaves_successor(v: StateView, link: PhoneLink, other: Id)
    requires
        is_active(v, link.pairing_id, other),
        other != link.connection_id,
    ensures
        is_active(closed(v, link), link.pairing_id, other),
{
}

/// A connection is served on as long as nothing stands against it, and closed with the first text
/// after its pairing was revoked.
pub proof fn law_revoked_link_is_closed(
    v: StateView,
    link: PhoneLink,
    len: usize,
    message: Option<MobileMessage>,
    now: Moment,
    action: LinkAction,
)
    requires
        len <= v.config.max_message_size_bytes,
        is_active(v, link.pairing_id, link.connection_id),
        v.browsers.contains_key(link.browser_session_id@),
        v.browsers[link.browser_session_id@].pairing_epoch != v.pairings[link.pairing_id].epoch,
        is_step(v, link, LinkEvent::Text { len, message }, now, action),
    ensures
        action is Close,
{
}

} // verus!
