//! What the server answers to phones' browsers and to PC clients over HTTP.
//!
//! A phone is let in by three steps, each of which rests on the one before: with the pairing's
//! secret it is given a browser session, with that a ticket, and with that one connection.
//!
//! Where a handler of two parts has a limiter between them, its caller asks the limiter and hands the
//! answer to the second part.

use crate::clock;
use crate::clock::{after, Clock, Moment};
use crate::events::{plain_event, Event, EventView, ServerEvent};
use crate::ids;
use crate::ids::{id_string, parse_id, Id};
use crate::server::config;
use crate::server::config::ServerConfig;
use crate::server::pairing;
use crate::server::pairing::{
    constant_time_dummy_compare, decode_hex_32, encode_hex, random_bytes_32, secret_regex,
    verify_secret, BrowserSession, BrowserSessionStore, BrowserView, CloseReason, PairingStore, PairingView,
    TicketView, WsControl, WsTicket, WsTicketStore,
};
use crate::server::persist;
use crate::server::persist::{PersistenceStore, QueueView, TaskView};
use crate::server::relay;
use crate::server::relay::{grpc_session_token, latest_session_token, pairing_url_string};
use crate::server::reply;
use crate::server::reply::{
    add_header, b64_encode, bearer_token, error_json, pairing_not_found_response,
    parse_ws_protocol_ticket, read_browser_session_cookie, reauth_required_response,
    require_browser_origin, Body, BodyView, Reply, ReplyView, BAD_REQUEST, FORBIDDEN, GONE,
    NOT_FOUND, OK, PAYLOAD_TOO_LARGE, SERVICE_UNAVAILABLE, TOO_MANY_REQUESTS, UNAUTHORIZED,
};
use crate::server::session::{SessionStore, SessionView};
use crate::server::store;
use crate::server::upload_store::{StoreView, UploadStore};
use crate::text;
use crate::text::{chars_of, push_chars, string_of};
use vstd::prelude::*;

verus! {

/// Seconds that a browser session lasts.
pub const BROWSER_SESSION_SECS: u64 = 2_592_000;

/// Seconds that a ticket lasts.
pub const TICKET_SECS: u64 = 15;

/// How often a browser session may ask for the status, each minute.
pub const STATUS_PER_MINUTE: u32 = 30;

/// How often a browser session may ask for a ticket, each minute.
pub const TICKETS_PER_MINUTE: u32 = 12;

/// How often a pairing may be revoked, each minute.
pub const REVOCATIONS_PER_PAIRING_PER_MINUTE: u32 = 5;

/// How often a PC client may revoke, each minute.
pub const REVOCATIONS_PER_SESSION_PER_MINUTE: u32 = 10;

/// Bytes of the body of a request to be let in.
pub const MAX_BOOTSTRAP_BODY: usize = 1024;

/// Bytes of the body of any other small request.
pub const MAX_SMALL_BODY: usize = 256;

/// The code that a connection is closed with when another takes its place.
pub const CLOSE_REPLACED: u16 = 4001;

/// The code that a connection is closed with when its pairing is revoked.
pub const CLOSE_REVOKED: u16 = 4002;

/// The code that a connection is closed with when its browser session ends.
pub const CLOSE_SESSION: u16 = 4003;

/// Everything that the server keeps in memory.
pub struct AppState {
    /// The sessions of PC clients.
    pub store: SessionStore,
    /// The pairings.
    pub pairing_store: PairingStore,
    /// The browser sessions of phones.
    pub browser_session_store: BrowserSessionStore,
    /// The tickets for connections.
    pub ws_ticket_store: WsTicketStore,
    /// The configuration.
    pub config: ServerConfig,
    /// The origin that phones must come from.
    pub public_origin: String,
    /// The changes that wait to be written to the database.
    pub persist: PersistenceStore,
    /// The files between phones and PCs.
    pub upload_store: UploadStore,
}

/// Everything that the server keeps in memory, for contracts.
#[verifier::ext_equal]
pub struct StateView {
    pub sessions: Map<Seq<char>, SessionView>,
    pub pairings: Map<Id, PairingView>,
    pub browsers: Map<Seq<u8>, BrowserView>,
    pub tickets: Map<Seq<u8>, TicketView>,
    pub config: ServerConfig,
    pub origin: Seq<char>,
    pub queue: QueueView,
    pub uploads: StoreView,
}

impl View for AppState {
    type V = StateView;

    open spec fn view(&self) -> StateView {
        StateView {
            sessions: self.store@,
            pairings: self.pairing_store@,
            browsers: self.browser_session_store@,
            tickets: self.ws_ticket_store@,
            config: self.config,
            origin: self.public_origin@,
            queue: self.persist@,
            uploads: self.upload_store@,
        }
    }
}

/// An order for a phone's connection, and the channel that it goes by.
#[derive(Debug, Clone, Copy, PartialEq, Eq, Structural)]
pub struct CloseOrder {
    /// The channel.
    pub control_tx: u64,
    /// The order.
    pub control: WsControl,
}

/// An event for a PC client, and the channel that it goes by.
#[derive(Debug)]
pub struct Notice {
    /// The channel.
    pub client_tx: u64,
    /// The event.
    pub event: ServerEvent,
}

/// A reply, and what else is to be sent.
#[derive(Debug)]
pub struct Outcome {
    /// The reply.
    pub reply: Reply,
    /// The order to the phone's connection.
    pub close: Option<CloseOrder>,
    /// The event for the PC client.
    pub notice: Option<Notice>,
}

/// A reply alone.
fn only(reply: Reply) -> (r: Outcome)
    ensures
        r == (Outcome { reply, close: None, notice: None }),
{
    Outcome { reply, close: None, notice: None }
}

/// The order to close the connection of a pairing's phone, if it has one.
pub open spec fn close_order(p: PairingView, code: u16, reason: CloseReason) -> Option<CloseOrder> {
    match p.active_mobile_ws {
        Some(handle) => Some(
            CloseOrder { control_tx: handle.control_tx, control: WsControl::Close { code, reason } },
        ),
        None => None,
    }
}

/// The browser session that a browser's cookies prove: it lasts, belongs to the pairing, and was
/// given out in the pairing's present epoch. The error is the status of the refusal.
pub open spec fn auth(
    v: StateView,
    pairing_id: Id,
    cookie: Option<Seq<char>>,
    now: Moment,
) -> Result<Seq<u8>, u16> {
    match reply::session_cookie(cookie) {
        None => Err(UNAUTHORIZED),
        Some(value) => {
            let id = pairing::unhex(value);
            if !pairing::is_secret_text(value) || !v.browsers.contains_key(id) {
                Err(UNAUTHORIZED)
            } else {
                let s = v.browsers[id];
                if s.expires_at <= now || s.revoked || s.pairing_id != pairing_id {
                    Err(UNAUTHORIZED)
                } else if !v.pairings.contains_key(pairing_id) {
                    Err(NOT_FOUND)
                } else if s.pairing_epoch != v.pairings[pairing_id].epoch {
                    Err(UNAUTHORIZED)
                } else {
                    Ok(id)
                }
            }
        },
    }
}

/// The refusal of a request that needs a browser session, or the pairing and the session.
pub open spec fn gate(
    v: StateView,
    origin: Option<Seq<char>>,
    body_len: usize,
    pairing_id: Seq<char>,
    cookie: Option<Seq<char>>,
    now: Moment,
) -> Result<(Id, Seq<u8>), ReplyView> {
    if !reply::origin_ok(origin, v.origin) {
        Err(reply::error_reply(FORBIDDEN, "forbidden"@))
    } else if body_len > MAX_SMALL_BODY {
        Err(reply::error_reply(PAYLOAD_TOO_LARGE, "payload_too_large"@))
    } else {
        match ids::uuid_parse(pairing_id) {
            None => Err(reply::error_reply(BAD_REQUEST, "invalid_pairing_id"@)),
            Some(id) => match auth(v, id, cookie, now) {
                Ok(session) => Ok((id, session)),
                Err(status) => if status == UNAUTHORIZED {
                    Err(reply::forget_reply(UNAUTHORIZED, "reauth_required"@))
                } else {
                    Err(reply::forget_reply(NOT_FOUND, "pairing_not_found"@))
                },
            },
        }
    }
}

/// Why a browser is not let in: the status and the code.
pub open spec fn bootstrap_error(
    v: StateView,
    origin: Option<Seq<char>>,
    body_len: usize,
    pairing_id: Seq<char>,
    secret: Option<Seq<char>>,
) -> Option<(u16, Seq<char>)> {
    if !reply::origin_ok(origin, v.origin) {
        Some((FORBIDDEN, "forbidden"@))
    } else if body_len > MAX_BOOTSTRAP_BODY {
        Some((PAYLOAD_TOO_LARGE, "payload_too_large"@))
    } else {
        match ids::uuid_parse(pairing_id) {
            None => Some((BAD_REQUEST, "invalid_pairing_id"@)),
            Some(id) => match secret {
                None => Some((BAD_REQUEST, "invalid_format"@)),
                Some(s) => if !pairing::is_secret_text(s) {
                    Some((BAD_REQUEST, "invalid_format"@))
                } else if !v.pairings.contains_key(id) || s != pairing::hex_of(
                    v.pairings[id].pairing_secret,
                ) {
                    Some((NOT_FOUND, "pairing_not_found_or_invalid"@))
                } else {
                    None
                },
            },
        }
    }
}

/// The browser session of a browser that has just been let in.
pub open spec fn fresh_browser(
    session_id: Seq<u8>,
    pairing_id: Id,
    epoch: u64,
    now: Moment,
) -> BrowserView {
    BrowserView {
        session_id,
        pairing_id,
        pairing_epoch: epoch,
        created_at: now,
        last_seen: now,
        expires_at: clock::plus(now, BROWSER_SESSION_SECS as int) as i128,
        revoked: false,
    }
}

/// The pairing after a browser was let in: with another secret, and without the phone's connection.
pub open spec fn rotated(p: PairingView, secret: Seq<u8>, ttl_secs: u64, now: Moment) -> PairingView {
    PairingView {
        pairing_secret: secret,
        last_seen: now,
        expires_at: clock::plus(now, ttl_secs as int) as i128,
        active_mobile_ws: None,
        revision: relay::bump(p.revision),
        ..p
    }
}

/// The state after a browser was let in: the pairing has another secret, and of its browser sessions
/// and tickets only the new session is left.
pub open spec fn bootstrapped(
    v: StateView,
    id: Id,
    session_id: Seq<u8>,
    secret: Seq<u8>,
    at: Clock,
) -> StateView {
    let old_entry = v.pairings[id];
    let session = fresh_browser(session_id, id, old_entry.epoch, at.moment);
    let entry = rotated(old_entry, secret, v.config.pairing_ttl_secs, at.moment);
    StateView {
        pairings: v.pairings.insert(id, entry),
        browsers: store::passing(v.browsers, |s: BrowserView| s.pairing_id != id).insert(
            session_id,
            session,
        ),
        tickets: store::passing(v.tickets, |t: TicketView| t.pairing_id != id),
        queue: v.queue.send(TaskView::DeleteBrowserSessionsForPairing { pairing_id: id }).send(
            persist::session_task(session, at),
        ).send(persist::pairing_task(entry, at)),
        ..v
    }
}

/// The cookie that a browser is known by from now on.
pub open spec fn cookie_text(session_id: Seq<u8>, debug_mode: bool) -> Seq<char> {
    if debug_mode {
        reply::LEGACY_BROWSER_SESSION_COOKIE@ + "="@ + pairing::hex_of(session_id)
            + "; HttpOnly; SameSite=Strict; Path=/; Max-Age=2592000"@
    } else {
        reply::BROWSER_SESSION_COOKIE@ + "="@ + pairing::hex_of(session_id)
            + "; HttpOnly; Secure; SameSite=Strict; Path=/; Max-Age=2592000"@
    }
}

/// The reply to a browser that was let in.
pub open spec fn bootstrap_reply(p: PairingView, session_id: Seq<u8>, debug_mode: bool) -> ReplyView {
    let base = reply::common_headers().push(
        ("set-cookie"@, cookie_text(session_id, debug_mode)),
    );
    ReplyView {
        status: OK,
        headers: if debug_mode {
            base.push(reply::forget_headers()[0])
        } else {
            base
        },
        body: BodyView::Bootstrapped { online: p.online, pairing_epoch: p.epoch },
    }
}

/// Is this the event that tells the PC client of the pairing's new address?
pub open spec fn tells_new_url(
    v: StateView,
    id: Id,
    found: Option<Seq<char>>,
    secret: Seq<u8>,
    notice: Option<Notice>,
) -> bool {
    match found {
        Some(token) => match v.sessions[token].client_tx {
            Some(tx) => {
                &&& notice matches Some(n)
                &&& n.client_tx == tx
                &&& n.event.is(
                    EventView::SessionToken {
                        token,
                        url: relay::pairing_url(v.config.public_base_url@, id, secret),
                    },
                    Seq::empty(),
                )
            },
            None => notice is None,
        },
        None => notice is None,
    }
}

/// Can the times that letting a browser in writes down be shown and written?
pub open spec fn times_ok(at: Clock, ttl_secs: u64) -> bool {
    &&& persist::is_writable(at.moment, at)
    &&& clock::in_range(clock::plus(at.moment, ttl_secs as int))
    &&& clock::in_range(clock::plus(at.moment, BROWSER_SESSION_SECS as int))
    &&& persist::is_writable(clock::plus(at.moment, ttl_secs as int) as i128, at)
    &&& persist::is_writable(clock::plus(at.moment, BROWSER_SESSION_SECS as int) as i128, at)
}

impl AppState {
    /// The browser session that a browser's cookies prove.
    pub fn authenticate_browser_session(
        &self,
        pairing_id: Id,
        cookie: Option<&str>,
        now: Moment,
    ) -> (r: Result<[u8; 32], u16>)
        ensures
            match r {
                Ok(id) => auth(self@, pairing_id, config::opt_str(cookie), now) == Ok::<
                    Seq<u8>,
                    u16,
                >(id@),
                Err(status) => auth(self@, pairing_id, config::opt_str(cookie), now) == Err::<
                    Seq<u8>,
                    u16,
                >(status),
            },
    {
        let value = match read_browser_session_cookie(cookie) {
            Some(value) => value,
            None => {
                return Err(UNAUTHORIZED);
            },
        };
        let id = match decode_hex_32(&value) {
            Ok(id) => id,
            Err(()) => {
                return Err(UNAUTHORIZED);
            },
        };
        proof {
            pairing::lemma_unhex(id@);
        }
        let session = match self.browser_session_store.get(&id) {
            Some(session) => session,
            None => {
                return Err(UNAUTHORIZED);
            },
        };
        if session.expires_at <= now || session.revoked {
            return Err(UNAUTHORIZED);
        }
        if session.pairing_id != pairing_id {
            return Err(UNAUTHORIZED);
        }
        match self.pairing_store.get(&pairing_id) {
            None => Err(NOT_FOUND),
            Some(entry) => if session.pairing_epoch != entry.epoch {
                Err(UNAUTHORIZED)
            } else {
                Ok(id)
            },
        }
    }

    /// Checks a request that needs a browser session: its origin, its size, its pairing and its
    /// cookies.
    pub fn check_browser(
        &self,
        origin: Option<&str>,
        body_len: usize,
        pairing_id: &str,
        cookie: Option<&str>,
        now: Moment,
    ) -> (r: Result<(Id, [u8; 32]), Reply>)
        ensures
            ({
                let want = gate(
                    self@,
                    config::opt_str(origin),
                    body_len,
                    pairing_id@,
                    config::opt_str(cookie),
                    now,
                );
                match r {
                    Ok((id, session)) => want == Ok::<(Id, Seq<u8>), ReplyView>((id, session@)),
                    Err(reply) => want == Err::<(Id, Seq<u8>), ReplyView>(reply@),
                }
            }),
    {
        if require_browser_origin(origin, &self.public_origin).is_err() {
            return Err(error_json(FORBIDDEN, "forbidden"));
        }
        if body_len > MAX_SMALL_BODY {
            return Err(error_json(PAYLOAD_TOO_LARGE, "payload_too_large"));
        }
        let id = match parse_id(pairing_id) {
            Some(id) => id,
            None => {
                return Err(error_json(BAD_REQUEST, "invalid_pairing_id"));
            },
        };
        match self.authenticate_browser_session(id, cookie, now) {
            Ok(session) => Ok((id, session)),
            Err(status) => if status == UNAUTHORIZED {
                Err(reauth_required_response())
            } else {
                Err(pairing_not_found_response())
            },
        }
    }

    /// The answer to the address that used to tell of a pairing.
    pub fn handle_deprecated_pairing_get() -> (r: Reply)
        ensures
            r@ == reply::error_reply(GONE, "gone"@),
    {
        error_json(GONE, "gone")
    }

    /// Lets a browser in under the given session and with the given next secret.
    pub fn handle_bootstrap_as(
        &mut self,
        origin: Option<&str>,
        body_len: usize,
        pairing_id: &str,
        secret: Option<&str>,
        session_id: [u8; 32],
        new_secret: [u8; 32],
        at: Clock,
    ) -> (r: Outcome)
        requires
            times_ok(at, old(self).config.pairing_ttl_secs),
        ensures
            match bootstrap_error(
                old(self)@,
                config::opt_str(origin),
                body_len,
                pairing_id@,
                config::opt_str(secret),
            ) {
                Some((status, code)) => {
                    &&& r.reply@ == reply::error_reply(status, code)
                    &&& r.close is None
                    &&& r.notice is None
                    &&& final(self)@ == old(self)@
                },
                None => {
                    let id = ids::uuid_parse(pairing_id@)->0;
                    let entry = old(self)@.pairings[id];
                    &&& final(self)@ == bootstrapped(
                        old(self)@,
                        id,
                        session_id@,
                        new_secret@,
                        at,
                    )
                    &&& r.reply@ == bootstrap_reply(
                        entry,
                        session_id@,
                        old(self).config.debug_mode,
                    )
                    &&& r.close == close_order(entry, CLOSE_SESSION, CloseReason::Superseded)
                    &&& exists|found: Option<Seq<char>>| #[trigger]
                        relay::is_latest(
                            old(self)@.sessions,
                            final(self)@.pairings,
                            id,
                            found,
                        ) && tells_new_url(old(self)@, id, found, new_secret@, r.notice)
                },
            },
    {
        if require_browser_origin(origin, &self.public_origin).is_err() {
            return only(error_json(FORBIDDEN, "forbidden"));
        }
        if body_len > MAX_BOOTSTRAP_BODY {
            return only(error_json(PAYLOAD_TOO_LARGE, "payload_too_large"));
        }
        let id = match parse_id(pairing_id) {
            Some(id) => id,
            None => {
                return only(error_json(BAD_REQUEST, "invalid_pairing_id"));
            },
        };
        let provided = match secret {
            Some(s) => s,
            None => {
                return only(error_json(BAD_REQUEST, "invalid_format"));
            },
        };
        if !secret_regex(provided) {
            return only(error_json(BAD_REQUEST, "invalid_format"));
        }
        let entry = match self.pairing_store.get(&id) {
            Some(entry) => entry,
            None => {
                constant_time_dummy_compare(provided);
                return only(error_json(NOT_FOUND, "pairing_not_found_or_invalid"));
            },
        };
        if !verify_secret(&entry, provided) {
            return only(error_json(NOT_FOUND, "pairing_not_found_or_invalid"));
        }
        let keep_session = |s: &BrowserSession| -> (r: bool)
            ensures
                r == (s.pairing_id != id),
            { s.pairing_id != id };
        self.browser_session_store.retain(
            keep_session,
            Ghost(|s: BrowserView| s.pairing_id != id),
        );
        let keep_ticket = |t: &WsTicket| -> (r: bool)
            ensures
                r == (t.pairing_id != id),
            { t.pairing_id != id };
        self.ws_ticket_store.retain(keep_ticket, Ghost(|t: TicketView| t.pairing_id != id));
        let close = match entry.active_mobile_ws {
            Some(handle) => Some(
                CloseOrder {
                    control_tx: handle.control_tx,
                    control: WsControl::Close {
                        code: CLOSE_SESSION,
                        reason: CloseReason::Superseded,
                    },
                },
            ),
            None => None,
        };
        let now = at.moment;
        let session = BrowserSession {
            session_id,
            pairing_id: id,
            pairing_epoch: entry.epoch,
            created_at: now,
            last_seen: now,
            expires_at: after(now, BROWSER_SESSION_SECS),
            revoked: false,
        };
        assert(session@ =~= fresh_browser(session_id@, id, entry.epoch, now));
        self.persist.delete_browser_sessions_for_pairing(id);
        self.persist.save_browser_session(&session, at);
        self.browser_session_store.insert(session_id, session);
        let ghost old_entry = entry@;
        let online = entry.online;
        let epoch: u64 = entry.epoch;
        let mut entry = entry;
        entry.pairing_secret = new_secret;
        entry.last_seen = now;
        entry.expires_at = after(now, self.config.pairing_ttl_secs);
        entry.active_mobile_ws = None;
        entry.revision = entry.revision.saturating_add(1);
        assert(entry@ =~= rotated(old_entry, new_secret@, old(self).config.pairing_ttl_secs, now));
        self.persist.save_pairing(&entry, at);
        self.pairing_store.insert(id, entry);
        assert(self@ =~= bootstrapped(old(self)@, id, session_id@, new_secret@, at));
        let found = latest_session_token(&self.store, &self.pairing_store, id);
        let ghost token = text::opt_chars(found);
        assert(relay::is_latest(old(self)@.sessions, self@.pairings, id, token));
        let notice = self.new_url_notice(found, id, &new_secret);
        let mut reply = reply::reply(OK, Body::Bootstrapped { online, pairing_epoch: epoch });
        let debug_mode = self.config.debug_mode;
        let cookie = cookie_string(&session_id, debug_mode);
        add_header(&mut reply.headers, "set-cookie", &cookie);
        if debug_mode {
            add_header(
                &mut reply.headers,
                "set-cookie",
                "__Host-qr_paste_browser_session=; HttpOnly; Secure; SameSite=Strict; Path=/; Max-Age=0",
            );
        }
        Outcome { reply, close, notice }
    }

    /// The event that tells the PC client of the pairing's new address.
    fn new_url_notice(&self, found: Option<String>, id: Id, secret: &[u8; 32]) -> (r: Option<
        Notice,
    >)
        requires
            found matches Some(t) ==> self@.sessions.contains_key(t@),
        ensures
            tells_new_url(self@, id, text::opt_chars(found), secret@, r),
    {
        match found {
            Some(token) => match self.store.get(&token) {
                Some(session) => match session.client_tx {
                    Some(client_tx) => {
                        let url = pairing_url_string(&self.config.public_base_url, id, secret);
                        Some(
                            Notice {
                                client_tx,
                                event: pairing_session_token_event(token, url),
                            },
                        )
                    },
                    None => None,
                },
                None => None,
            },
            None => None,
        }
    }

    /// Lets a browser in that shows the pairing's secret, and changes the secret.
    pub fn handle_bootstrap(
        &mut self,
        origin: Option<&str>,
        body_len: usize,
        pairing_id: &str,
        secret: Option<&str>,
        at: Clock,
    ) -> (r: Outcome)
        requires
            times_ok(at, old(self).config.pairing_ttl_secs),
        ensures
            match bootstrap_error(
                old(self)@,
                config::opt_str(origin),
                body_len,
                pairing_id@,
                config::opt_str(secret),
            ) {
                Some((status, code)) => {
                    &&& r.reply@ == reply::error_reply(status, code)
                    &&& r.close is None
                    &&& r.notice is None
                    &&& final(self)@ == old(self)@
                },
                None => {
                    let id = ids::uuid_parse(pairing_id@)->0;
                    let entry = old(self)@.pairings[id];
                    &&& r.close == close_order(entry, CLOSE_SESSION, CloseReason::Superseded)
                    &&& exists|session_id: Seq<u8>, new_secret: Seq<u8>|
                        {
                            &&& session_id.len() == 32
                            &&& new_secret.len() == 32
                            &&& final(self)@ == #[trigger] bootstrapped(
                                old(self)@,
                                id,
                                session_id,
                                new_secret,
                                at,
                            )
                            &&& r.reply@ == bootstrap_reply(
                                entry,
                                session_id,
                                old(self).config.debug_mode,
                            )
                            &&& exists|found: Option<Seq<char>>| #[trigger]
                                relay::is_latest(
                                    old(self)@.sessions,
                                    final(self)@.pairings,
                                    id,
                                    found,
                                ) && tells_new_url(old(self)@, id, found, new_secret, r.notice)
                        }
                },
            },
    {
        let session_id = random_bytes_32();
        let new_secret = random_bytes_32();
        self.handle_bootstrap_as(
            origin,
            body_len,
            pairing_id,
            secret,
            session_id,
            new_secret,
            at,
        )
    }
}

/// Writes the cookie that a browser is known by.
fn cookie_string(session_id: &[u8; 32], debug_mode: bool) -> (r: String)
    ensures
        r@ == cookie_text(session_id@, debug_mode),
{
    let hex = encode_hex(session_id);
    if debug_mode {
        let mut out = string_of(&chars_of(reply::LEGACY_BROWSER_SESSION_COOKIE));
        push_chars(&mut out, &chars_of("="));
        push_chars(&mut out, &chars_of(&hex));
        push_chars(
            &mut out,
            &chars_of("; HttpOnly; SameSite=Strict; Path=/; Max-Age=2592000"),
        );
        out
    } else {
        let mut out = string_of(&chars_of(reply::BROWSER_SESSION_COOKIE));
        push_chars(&mut out, &chars_of("="));
        push_chars(&mut out, &chars_of(&hex));
        push_chars(
            &mut out,
            &chars_of("; HttpOnly; Secure; SameSite=Strict; Path=/; Max-Age=2592000"),
        );
        out
    }
}

/// The event that gives a PC client its session's token and the address for the phone.
pub fn pairing_session_token_event(token: String, url: String) -> (r: ServerEvent)
    ensures
        r.is(EventView::SessionToken { token: token@, url: url@ }, Seq::empty()),
{
    plain_event(Event::SessionToken { token, url })
}

/// The content security policy of the page for phones.
pub open spec fn csp_text(nonce: Seq<char>) -> Seq<char> {
    "default-src 'self'; script-src 'nonce-"@ + nonce + "'; style-src 'nonce-"@ + nonce
        + "'; object-src 'none'; base-uri 'none'; frame-ancestors 'none'; worker-src 'none'"@
}

/// The reply with the page for phones.
pub open spec fn page_reply(id: Id, nonce: Seq<char>) -> ReplyView {
    ReplyView {
        status: OK,
        headers: reply::common_headers().push(("content-security-policy"@, csp_text(nonce))).push(
            ("x-frame-options"@, "DENY"@),
        ),
        body: BodyView::Page { pairing_id: ids::uuid_text(id), nonce },
    }
}

/// The ticket that a browser session is given.
pub open spec fn fresh_ticket(
    session_id: Seq<u8>,
    pairing_id: Id,
    epoch: u64,
    now: Moment,
) -> TicketView {
    TicketView {
        browser_session_id: session_id,
        pairing_id,
        pairing_epoch: epoch,
        issued_at: now,
        expires_at: clock::plus(now, TICKET_SECS as int) as i128,
    }
}

/// The pairing after it was revoked: in a new epoch, with another secret, and without the phone's
/// connection.
pub open spec fn revoked(p: PairingView, secret: Seq<u8>, ttl_secs: u64, now: Moment) -> PairingView {
    PairingView { epoch: relay::bump(p.epoch), ..rotated(p, secret, ttl_secs, now) }
}

/// The state after a pairing was revoked.
pub open spec fn after_revoke(v: StateView, id: Id, secret: Seq<u8>, at: Clock) -> StateView {
    let entry = revoked(v.pairings[id], secret, v.config.pairing_ttl_secs, at.moment);
    StateView {
        pairings: v.pairings.insert(id, entry),
        queue: v.queue.send(persist::pairing_task(entry, at)).send(
            TaskView::DeleteBrowserSessionsForPairing { pairing_id: id },
        ),
        ..v
    }
}

/// Why a revocation is refused, given the session that the caller's secret proves.
pub open spec fn revoke_error(
    v: StateView,
    id: Id,
    limited: bool,
    found: Option<Seq<char>>,
) -> Option<(u16, Seq<char>)> {
    if limited {
        Some((TOO_MANY_REQUESTS, "rate_limited"@))
    } else {
        match found {
            None => Some((UNAUTHORIZED, "unauthorized"@)),
            Some(t) => if v.sessions[t].pairing_id != Some(id) {
                Some((FORBIDDEN, "forbidden"@))
            } else if !v.pairings.contains_key(id) {
                Some((NOT_FOUND, "pairing_not_found"@))
            } else {
                None
            },
        }
    }
}

/// Whether a ticket is good for a connection to the pairing, and for which browser session: ticket,
/// browser session and pairing must belong together, all of them must last, and both must have been
/// given out in the pairing's present epoch.
pub open spec fn ticket_admits(
    v: StateView,
    ticket: TicketView,
    pairing_id: Id,
    now: Moment,
) -> Option<Seq<u8>> {
    let sid = ticket.browser_session_id;
    if ticket.pairing_id != pairing_id || !v.browsers.contains_key(sid) {
        None
    } else {
        let s = v.browsers[sid];
        if s.revoked || s.expires_at <= now || s.pairing_id != pairing_id
            || !v.pairings.contains_key(pairing_id) || s.pairing_epoch
            != v.pairings[pairing_id].epoch || ticket.pairing_epoch
            != v.pairings[pairing_id].epoch {
            None
        } else {
            Some(s.session_id)
        }
    }
}

/// Whether a connection is let in, and what becomes of the tickets: one that is shown while it lasts
/// is gone, whether it was good or not.
pub open spec fn upgrade(
    v: StateView,
    id: Seq<char>,
    protocol: Option<Option<Seq<char>>>,
    origin: Option<Seq<char>>,
    now: Moment,
) -> (Result<(Id, Seq<u8>), ReplyView>, Map<Seq<u8>, TicketView>) {
    match (protocol, ids::uuid_parse(id)) {
        (Some(value), Some(pairing_id)) => {
            let shown = match value {
                Some(text) => reply::ticket_of(text),
                None => None,
            };
            if !reply::origin_ok(origin, v.origin) {
                (Err(reply::error_reply(FORBIDDEN, "forbidden"@)), v.tickets)
            } else {
                match shown {
                    None => (Err(reply::error_reply(BAD_REQUEST, "bad_request"@)), v.tickets),
                    Some(t) => if !v.tickets.contains_key(t) || v.tickets[t].expires_at <= now {
                        (Err(reply::error_reply(UNAUTHORIZED, "unauthorized"@)), v.tickets)
                    } else {
                        (
                            match ticket_admits(v, v.tickets[t], pairing_id, now) {
                                Some(sid) => Ok((pairing_id, sid)),
                                None => Err(reply::error_reply(UNAUTHORIZED, "unauthorized"@)),
                            },
                            v.tickets.remove(t),
                        )
                    },
                }
            }
        },
        _ => (
            Err(
                reply::error_reply(
                    BAD_REQUEST,
                    "missing_ws_protocol_or_invalid_pairing_id"@,
                ),
            ),
            v.tickets,
        ),
    }
}

/// The answer where too many are connected.
pub open spec fn full_reply() -> ReplyView {
    ReplyView {
        status: SERVICE_UNAVAILABLE,
        headers: Seq::empty(),
        body: BodyView::Text { text: "Too many active WebSocket connections"@ },
    }
}

/// Whether a connection is let in while so many stand, and the tickets that are left then.
pub open spec fn admission(
    v: StateView,
    id: Seq<char>,
    protocol: Option<Option<Seq<char>>>,
    origin: Option<Seq<char>>,
    now: Moment,
    open: usize,
) -> (Result<(Id, Seq<u8>), ReplyView>, Map<Seq<u8>, TicketView>) {
    let (shown, tickets) = upgrade(v, id, protocol, origin, now);
    if shown is Ok && open >= v.config.max_ws_connections {
        (Err(full_reply()), tickets)
    } else {
        (shown, tickets)
    }
}

/// The characters of a header that may be missing, and may be no text.
pub open spec fn opt_opt_str(s: Option<Option<&str>>) -> Option<Option<Seq<char>>> {
    match s {
        Some(t) => Some(config::opt_str(t)),
        None => None,
    }
}

/// Why a connection that stands has to be closed: first that another took its place, then that its
/// browser session ended, then that the pairing was revoked. A connection whose pairing or session
/// is no longer known is left alone.
pub open spec fn ws_fault(
    v: StateView,
    pairing_id: Id,
    session_id: Seq<u8>,
    connection_id: Id,
    now: Moment,
) -> Option<u16> {
    if !v.pairings.contains_key(pairing_id) {
        None
    } else {
        let p = v.pairings[pairing_id];
        if p.active_mobile_ws matches Some(handle) && handle.connection_id != connection_id {
            Some(CLOSE_REPLACED)
        } else if !v.browsers.contains_key(session_id) {
            None
        } else {
            let s = v.browsers[session_id];
            if s.revoked || s.expires_at <= now {
                Some(CLOSE_SESSION)
            } else if s.pairing_epoch != p.epoch {
                Some(CLOSE_REVOKED)
            } else {
                None
            }
        }
    }
}

impl AppState {
    /// The page for phones, with the given bytes for its nonce.
    pub fn handle_mobile_page_as(&self, pairing_id: &str, nonce_bytes: [u8; 32]) -> (r: Reply)
        ensures
            r@ == match ids::uuid_parse(pairing_id@) {
                None => reply::error_reply(BAD_REQUEST, "invalid_pairing_id"@),
                Some(id) => if self@.pairings.contains_key(id) {
                    page_reply(id, reply::b64_text(nonce_bytes@))
                } else {
                    reply::error_reply(NOT_FOUND, "pairing_not_found"@)
                },
            },
    {
        let id = match parse_id(pairing_id) {
            Some(id) => id,
            None => {
                return error_json(BAD_REQUEST, "invalid_pairing_id");
            },
        };
        if !self.pairing_store.contains_key(&id) {
            return error_json(NOT_FOUND, "pairing_not_found");
        }
        let nonce = b64_encode(&nonce_bytes);
        let mut csp = string_of(&chars_of("default-src 'self'; script-src 'nonce-"));
        push_chars(&mut csp, &chars_of(&nonce));
        push_chars(&mut csp, &chars_of("'; style-src 'nonce-"));
        push_chars(&mut csp, &chars_of(&nonce));
        push_chars(
            &mut csp,
            &chars_of(
                "'; object-src 'none'; base-uri 'none'; frame-ancestors 'none'; worker-src 'none'",
            ),
        );
        let mut r = reply::reply(OK, Body::Page { pairing_id: id_string(id), nonce });
        add_header(&mut r.headers, "content-security-policy", &csp);
        add_header(&mut r.headers, "x-frame-options", "DENY");
        r
    }

    /// The page for phones, with a fresh nonce.
    pub fn handle_mobile_page(&self, pairing_id: &str) -> (r: Reply)
        ensures
            match ids::uuid_parse(pairing_id@) {
                None => r@ == reply::error_reply(BAD_REQUEST, "invalid_pairing_id"@),
                Some(id) => if self@.pairings.contains_key(id) {
                    exists|bytes: Seq<u8>|
                        bytes.len() == 32 && r@ == #[trigger] page_reply(
                            id,
                            reply::b64_text(bytes),
                        )
                } else {
                    r@ == reply::error_reply(NOT_FOUND, "pairing_not_found"@)
                },
            },
    {
        let bytes = random_bytes_32();
        let r = self.handle_mobile_page_as(pairing_id, bytes);
        assert(bytes@.len() == 32);
        r
    }

    /// How a pairing stands, for a browser that has passed [`AppState::check_browser`].
    pub fn handle_status(
        &mut self,
        pairing_id: Id,
        session_id: [u8; 32],
        limited: bool,
        now: Moment,
    ) -> (r: Reply)
        ensures
            if limited {
                &&& r@ == reply::error_reply(TOO_MANY_REQUESTS, "rate_limited"@)
                &&& final(self)@ == old(self)@
            } else if !old(self)@.pairings.contains_key(pairing_id) {
                &&& r@ == reply::forget_reply(NOT_FOUND, "pairing_not_found"@)
                &&& final(self)@ == old(self)@
            } else {
                let p = old(self)@.pairings[pairing_id];
                &&& r@ == reply::plain_reply(
                    OK,
                    BodyView::Status {
                        online: p.online,
                        pairing_epoch: p.epoch,
                        retry_after_ms: 1000,
                    },
                )
                &&& final(self)@ == (StateView {
                    browsers: if old(self)@.browsers.contains_key(session_id@) {
                        old(self)@.browsers.insert(
                            session_id@,
                            BrowserView { last_seen: now, ..old(self)@.browsers[session_id@] },
                        )
                    } else {
                        old(self)@.browsers
                    },
                    ..old(self)@
                })
            },
    {
        if limited {
            return error_json(TOO_MANY_REQUESTS, "rate_limited");
        }
        let entry = match self.pairing_store.get(&pairing_id) {
            Some(entry) => entry,
            None => {
                return pairing_not_found_response();
            },
        };
        if let Some(session) = self.browser_session_store.remove(&session_id) {
            let mut session = session;
            session.last_seen = now;
            let ghost put = session@;
            self.browser_session_store.insert(session_id, session);
            assert(self@.browsers =~= old(self)@.browsers.insert(session_id@, put));
        } else {
            assert(self@.browsers =~= old(self)@.browsers);
        }
        reply::reply(
            OK,
            Body::Status {
                online: entry.online,
                pairing_epoch: entry.epoch,
                retry_after_ms: 1000,
            },
        )
    }

    /// Issues the given ticket to a browser that has passed [`AppState::check_browser`].
    pub fn handle_ws_ticket_as(
        &mut self,
        pairing_id: Id,
        session_id: [u8; 32],
        limited: bool,
        ticket_id: [u8; 32],
        now: Moment,
    ) -> (r: Reply)
        requires
            clock::in_range(now as int),
            clock::in_range(clock::plus(now, TICKET_SECS as int)),
        ensures
            if limited {
                &&& r@ == reply::error_reply(TOO_MANY_REQUESTS, "rate_limited"@)
                &&& final(self)@ == old(self)@
            } else if !old(self)@.pairings.contains_key(pairing_id) {
                &&& r@ == reply::forget_reply(NOT_FOUND, "pairing_not_found"@)
                &&& final(self)@ == old(self)@
            } else {
                &&& r@ == reply::plain_reply(
                    OK,
                    BodyView::Ticket {
                        ws_ticket: reply::b64_text(ticket_id@),
                        expires_in_ms: 15000,
                    },
                )
                &&& is_ticket_text(reply::b64_text(ticket_id@), ticket_id@)
                &&& final(self)@ == (StateView {
                    tickets: old(self)@.tickets.insert(
                        ticket_id@,
                        fresh_ticket(
                            session_id@,
                            pairing_id,
                            old(self)@.pairings[pairing_id].epoch,
                            now,
                        ),
                    ),
                    ..old(self)@
                })
            },
    {
        if limited {
            return error_json(TOO_MANY_REQUESTS, "rate_limited");
        }
        let entry = match self.pairing_store.get(&pairing_id) {
            Some(entry) => entry,
            None => {
                return pairing_not_found_response();
            },
        };
        let ticket = WsTicket {
            browser_session_id: session_id,
            pairing_id,
            pairing_epoch: entry.epoch,
            issued_at: now,
            expires_at: after(now, TICKET_SECS),
        };
        assert(ticket@ =~= fresh_ticket(session_id@, pairing_id, entry.epoch, now));
        self.ws_ticket_store.insert(ticket_id, ticket);
        let ws_ticket = b64_encode(&ticket_id);
        reply::reply(OK, Body::Ticket { ws_ticket, expires_in_ms: 15000 })
    }

    /// Issues a fresh ticket to a browser that has passed [`AppState::check_browser`].
    pub fn handle_ws_ticket(
        &mut self,
        pairing_id: Id,
        session_id: [u8; 32],
        limited: bool,
        now: Moment,
    ) -> (r: Reply)
        requires
            clock::in_range(now as int),
            clock::in_range(clock::plus(now, TICKET_SECS as int)),
        ensures
            if limited {
                &&& r@ == reply::error_reply(TOO_MANY_REQUESTS, "rate_limited"@)
                &&& final(self)@ == old(self)@
            } else if !old(self)@.pairings.contains_key(pairing_id) {
                &&& r@ == reply::forget_reply(NOT_FOUND, "pairing_not_found"@)
                &&& final(self)@ == old(self)@
            } else {
                exists|ticket_id: Seq<u8>|
                    {
                        &&& ticket_id.len() == 32
                        &&& r@ == reply::plain_reply(
                            OK,
                            BodyView::Ticket {
                                ws_ticket: #[trigger] reply::b64_text(ticket_id),
                                expires_in_ms: 15000,
                            },
                        )
                        &&& is_ticket_text(reply::b64_text(ticket_id), ticket_id)
                        &&& final(self)@ == (StateView {
                            tickets: old(self)@.tickets.insert(
                                ticket_id,
                                fresh_ticket(
                                    session_id@,
                                    pairing_id,
                                    old(self)@.pairings[pairing_id].epoch,
                                    now,
                                ),
                            ),
                            ..old(self)@
                        })
                    }
            },
    {
        let ticket_id = random_bytes_32();
        assert(ticket_id@.len() == 32);
        self.handle_ws_ticket_as(pairing_id, session_id, limited, ticket_id, now)
    }

    /// Checks a request to revoke a pairing: its size, its pairing and its credential. What is
    /// returned is to be held against the limiters.
    pub fn check_revoke(
        body_len: usize,
        pairing_id: &str,
        authorization: Option<&str>,
    ) -> (r: Result<(Id, String), Reply>)
        ensures
            if body_len > MAX_SMALL_BODY {
                r matches Err(e) && e@ == reply::error_reply(
                    PAYLOAD_TOO_LARGE,
                    "payload_too_large"@,
                )
            } else {
                match ids::uuid_parse(pairing_id@) {
                    None => r matches Err(e) && e@ == reply::error_reply(
                        BAD_REQUEST,
                        "invalid_pairing_id"@,
                    ),
                    Some(id) => match reply::bearer_of(config::opt_str(authorization)) {
                        None => r matches Err(e) && e@ == reply::error_reply(
                            UNAUTHORIZED,
                            "unauthorized"@,
                        ),
                        Some(token) => r matches Ok(pair) && pair.0 == id && pair.1@ == token,
                    },
                }
            },
    {
        if body_len > MAX_SMALL_BODY {
            return Err(error_json(PAYLOAD_TOO_LARGE, "payload_too_large"));
        }
        let id = match parse_id(pairing_id) {
            Some(id) => id,
            None => {
                return Err(error_json(BAD_REQUEST, "invalid_pairing_id"));
            },
        };
        match bearer_token(authorization) {
            Some(token) => Ok((id, token)),
            None => Err(error_json(UNAUTHORIZED, "unauthorized")),
        }
    }

    /// Revokes a pairing for the PC client that shows its session's secret, with the given next
    /// secret of the pairing.
    pub fn handle_revoke_as(
        &mut self,
        pairing_id: Id,
        grpc_token: &str,
        limited: bool,
        new_secret: [u8; 32],
        at: Clock,
    ) -> (r: Outcome)
        requires
            times_ok(at, old(self).config.pairing_ttl_secs),
        ensures
            exists|found: Option<Seq<char>>|
                {
                    &&& #[trigger] relay::proves(old(self)@.sessions, grpc_token@, found)
                    &&& match revoke_error(old(self)@, pairing_id, limited, found) {
                        Some((status, code)) => {
                            &&& r.reply@ == reply::error_reply(status, code)
                            &&& r.close is None
                            &&& r.notice is None
                            &&& final(self)@ == old(self)@
                        },
                        None => {
                            let entry = old(self)@.pairings[pairing_id];
                            &&& r.reply@ == reply::plain_reply(
                                OK,
                                BodyView::Revoked { pairing_epoch: relay::bump(entry.epoch) },
                            )
                            &&& r.close == close_order(entry, CLOSE_REVOKED, CloseReason::Revoked)
                            &&& final(self)@ == after_revoke(
                                old(self)@,
                                pairing_id,
                                new_secret@,
                                at,
                            )
                            &&& tells_new_url(
                                old(self)@,
                                pairing_id,
                                found,
                                new_secret@,
                                r.notice,
                            )
                        },
                    }
                },
    {
        let found = grpc_session_token(&self.store, grpc_token);
        let ghost who = text::opt_chars(found);
        assert(relay::proves(old(self)@.sessions, grpc_token@, who));
        if limited {
            return only(error_json(TOO_MANY_REQUESTS, "rate_limited"));
        }
        let token = match found {
            Some(token) => token,
            None => {
                return only(error_json(UNAUTHORIZED, "unauthorized"));
            },
        };
        let session = match self.store.get(&token) {
            Some(session) => session,
            None => {
                return only(error_json(UNAUTHORIZED, "unauthorized"));
            },
        };
        if session.pairing_id != Some(pairing_id) {
            return only(error_json(FORBIDDEN, "forbidden"));
        }
        let entry = match self.pairing_store.get(&pairing_id) {
            Some(entry) => entry,
            None => {
                return only(error_json(NOT_FOUND, "pairing_not_found"));
            },
        };
        let now = at.moment;
        let ghost old_entry = entry@;
        let close = match entry.active_mobile_ws {
            Some(handle) => Some(
                CloseOrder {
                    control_tx: handle.control_tx,
                    control: WsControl::Close { code: CLOSE_REVOKED, reason: CloseReason::Revoked },
                },
            ),
            None => None,
        };
        let mut entry = entry;
        entry.pairing_secret = new_secret;
        entry.epoch = entry.epoch.saturating_add(1);
        entry.last_seen = now;
        entry.expires_at = after(now, self.config.pairing_ttl_secs);
        entry.active_mobile_ws = None;
        entry.revision = entry.revision.saturating_add(1);
        let epoch: u64 = entry.epoch;
        assert(entry@ =~= revoked(old_entry, new_secret@, old(self).config.pairing_ttl_secs, now));
        self.persist.save_pairing(&entry, at);
        self.persist.delete_browser_sessions_for_pairing(pairing_id);
        self.pairing_store.insert(pairing_id, entry);
        assert(self@ =~= after_revoke(old(self)@, pairing_id, new_secret@, at));
        let notice = self.new_url_notice(Some(token), pairing_id, &new_secret);
        Outcome {
            reply: reply::reply(OK, Body::Revoked { pairing_epoch: epoch }),
            close,
            notice,
        }
    }

    /// Revokes a pairing for the PC client that shows its session's secret.
    pub fn handle_revoke(
        &mut self,
        pairing_id: Id,
        grpc_token: &str,
        limited: bool,
        at: Clock,
    ) -> (r: Outcome)
        requires
            times_ok(at, old(self).config.pairing_ttl_secs),
        ensures
            exists|found: Option<Seq<char>>, new_secret: Seq<u8>|
                {
                    &&& new_secret.len() == 32
                    &&& #[trigger] relay::proves(old(self)@.sessions, grpc_token@, found)
                    &&& match revoke_error(old(self)@, pairing_id, limited, found) {
                        Some((status, code)) => {
                            &&& r.reply@ == reply::error_reply(status, code)
                            &&& r.close is None
                            &&& r.notice is None
                            &&& final(self)@ == old(self)@
                        },
                        None => {
                            let entry = old(self)@.pairings[pairing_id];
                            &&& r.reply@ == reply::plain_reply(
                                OK,
                                BodyView::Revoked { pairing_epoch: relay::bump(entry.epoch) },
                            )
                            &&& r.close == close_order(entry, CLOSE_REVOKED, CloseReason::Revoked)
                            &&& final(self)@ == after_revoke(
                                old(self)@,
                                pairing_id,
                                new_secret,
                                at,
                            )
                            &&& #[trigger] tells_new_url(
                                old(self)@,
                                pairing_id,
                                found,
                                new_secret,
                                r.notice,
                            )
                        },
                    }
                },
    {
        let new_secret = random_bytes_32();
        let r = self.handle_revoke_as(pairing_id, grpc_token, limited, new_secret, at);
        proof {
            let found = choose|found: Option<Seq<char>>|
                {
                    &&& #[trigger] relay::proves(old(self)@.sessions, grpc_token@, found)
                    &&& match revoke_error(old(self)@, pairing_id, limited, found) {
                        Some((status, code)) => {
                            &&& r.reply@ == reply::error_reply(status, code)
                            &&& r.close is None
                            &&& r.notice is None
                            &&& self@ == old(self)@
                        },
                        None => {
                            let entry = old(self)@.pairings[pairing_id];
                            &&& r.reply@ == reply::plain_reply(
                                OK,
                                BodyView::Revoked { pairing_epoch: relay::bump(entry.epoch) },
                            )
                            &&& r.close == close_order(entry, CLOSE_REVOKED, CloseReason::Revoked)
                            &&& self@ == after_revoke(old(self)@, pairing_id, new_secret@, at)
                            &&& tells_new_url(
                                old(self)@,
                                pairing_id,
                                found,
                                new_secret@,
                                r.notice,
                            )
                        },
                    }
                };
            assert(new_secret@.len() == 32);
            let _told = tells_new_url(old(self)@, pairing_id, found, new_secret@, r.notice);
            assert(relay::proves(old(self)@.sessions, grpc_token@, found));
        }
        r
    }

    /// Lets a connection in that shows a good ticket: returns its pairing and its browser session.
    /// The ticket is used up.
    pub fn handle_ws_upgrade(
        &mut self,
        id: &str,
        protocol: Option<Option<&str>>,
        origin: Option<&str>,
        now: Moment,
    ) -> (r: Result<(Id, [u8; 32]), Reply>)
        ensures
            ({
                let want = upgrade(
                    old(self)@,
                    id@,
                    opt_opt_str(protocol),
                    config::opt_str(origin),
                    now,
                );
                &&& match r {
                    Ok((pairing_id, sid)) => want.0 == Ok::<(Id, Seq<u8>), ReplyView>(
                        (pairing_id, sid@),
                    ),
                    Err(reply) => want.0 == Err::<(Id, Seq<u8>), ReplyView>(reply@),
                }
                &&& final(self)@ == (StateView { tickets: want.1, ..old(self)@ })
            }),
    {
        let pairing_id = match parse_id(id) {
            Some(pairing_id) => pairing_id,
            None => {
                return Err(
                    error_json(BAD_REQUEST, "missing_ws_protocol_or_invalid_pairing_id"),
                );
            },
        };
        let value = match protocol {
            Some(value) => value,
            None => {
                return Err(
                    error_json(BAD_REQUEST, "missing_ws_protocol_or_invalid_pairing_id"),
                );
            },
        };
        if require_browser_origin(origin, &self.public_origin).is_err() {
            return Err(error_json(FORBIDDEN, "forbidden"));
        }
        let ticket_id = match value {
            Some(text) => match parse_ws_protocol_ticket(text) {
                Ok(ticket_id) => ticket_id,
                Err(status) => {
                    return Err(error_json(status, "bad_request"));
                },
            },
            None => {
                return Err(error_json(BAD_REQUEST, "bad_request"));
            },
        };
        let lasts = |t: &WsTicket| -> (r: bool)
            ensures
                r == (t.expires_at > now),
            { t.expires_at > now };
        let ticket = match self.ws_ticket_store.remove_if(
            &ticket_id,
            lasts,
            Ghost(|t: TicketView| t.expires_at > now),
        ) {
            Some(ticket) => ticket,
            None => {
                return Err(error_json(UNAUTHORIZED, "unauthorized"));
            },
        };
        if ticket.pairing_id != pairing_id {
            return Err(error_json(UNAUTHORIZED, "unauthorized"));
        }
        let session = match self.browser_session_store.get(&ticket.browser_session_id) {
            Some(session) => session,
            None => {
                return Err(error_json(UNAUTHORIZED, "unauthorized"));
            },
        };
        if session.revoked || session.expires_at <= now || session.pairing_id != pairing_id {
            return Err(error_json(UNAUTHORIZED, "unauthorized"));
        }
        let entry = match self.pairing_store.get(&pairing_id) {
            Some(entry) => entry,
            None => {
                return Err(error_json(UNAUTHORIZED, "unauthorized"));
            },
        };
        if session.pairing_epoch != entry.epoch || ticket.pairing_epoch != entry.epoch {
            return Err(error_json(UNAUTHORIZED, "unauthorized"));
        }
        Ok((pairing_id, session.session_id))
    }

    /// Lets a connection in that shows a good ticket, as [`AppState::handle_ws_upgrade`] does, while
    /// `open` connections stand: none where that is as many as there may be. The ticket is used up
    /// all the same.
    pub fn admit_connection(
        &mut self,
        id: &str,
        protocol: Option<Option<&str>>,
        origin: Option<&str>,
        now: Moment,
        open: usize,
    ) -> (r: Result<(Id, [u8; 32]), Reply>)
        ensures
            ({
                let want = admission(
                    old(self)@,
                    id@,
                    opt_opt_str(protocol),
                    config::opt_str(origin),
                    now,
                    open,
                );
                &&& match r {
                    Ok((pairing_id, sid)) => want.0 == Ok::<(Id, Seq<u8>), ReplyView>(
                        (pairing_id, sid@),
                    ),
                    Err(reply) => want.0 == Err::<(Id, Seq<u8>), ReplyView>(reply@),
                }
                &&& final(self)@ == (StateView { tickets: want.1, ..old(self)@ })
            }),
    {
        match self.handle_ws_upgrade(id, protocol, origin, now) {
            Err(refused) => Err(refused),
            Ok(admitted) => {
                if open >= self.config.max_ws_connections {
                    Err(AppState::too_many_connections())
                } else {
                    Ok(admitted)
                }
            },
        }
    }

    /// The answer where too many are connected.
    pub fn too_many_connections() -> (r: Reply)
        ensures
            r@ == full_reply(),
    {
        let r = Reply {
            status: SERVICE_UNAVAILABLE,
            headers: Vec::new(),
            body: Body::Text {
                text: string_of(&chars_of("Too many active WebSocket connections")),
            },
        };
        assert(r@.headers =~= Seq::empty());
        r
    }

    /// Why a connection that stands has to be closed, by the code that it is closed with.
    pub fn validate_pairing_ws(
        &self,
        pairing_id: Id,
        browser_session_id: [u8; 32],
        connection_id: Id,
        now: Moment,
    ) -> (r: Option<u16>)
        ensures
            r == ws_fault(self@, pairing_id, browser_session_id@, connection_id, now),
    {
        let entry = match self.pairing_store.get(&pairing_id) {
            Some(entry) => entry,
            None => {
                return None;
            },
        };
        if let Some(handle) = entry.active_mobile_ws {
            if handle.connection_id != connection_id {
                return Some(CLOSE_REPLACED);
            }
        }
        match self.browser_session_store.get(&browser_session_id) {
            None => None,
            Some(session) => if session.revoked || session.expires_at <= now {
                Some(CLOSE_SESSION)
            } else if session.pairing_epoch != entry.epoch {
                Some(CLOSE_REVOKED)
            } else {
                None
            },
        }
    }
}

/// Is this the text of the ticket: forty-three characters of the URL-safe alphabet that read back as
/// the ticket?
pub open spec fn is_ticket_text(s: Seq<char>, ticket_id: Seq<u8>) -> bool {
    &&& s.len() == 43
    &&& forall|i: int| 0 <= i < s.len() ==> reply::is_b64_char(#[trigger] s[i])
    &&& reply::b64_bytes(s) == Some(ticket_id)
}

} // verus!
