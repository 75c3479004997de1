//! The sessions of PC clients: how a client subscribes to a pairing, how its session is found, and
//! what becomes of the pairing when it leaves.

use crate::clock;
use crate::clock::{after, Moment};
use crate::digest::same_bytes;
use crate::events::{Event, ServerEvent};
use crate::ids;
use crate::ids::{id_string, new_id, parse_id, Id};
use crate::net::{ip_string, Ip};
use crate::server::config;
use crate::server::config::{ServerConfig, TrustedProxyCidrs};
use crate::server::pairing;
use crate::server::pairing::{
    encode_hex, random_bytes_32, PairingEntry, PairingStore, PairingView,
};
use crate::server::session::{Session, SessionStore, SessionView};
use crate::server::store::{Record, Store};
use crate::text;
use crate::text::{chars_of, push_chars, string_of, trim_end_char};
use vstd::prelude::*;

verus! {

/// The session that the pairing names as its own, while that session lasts.
pub open spec fn named_session(
    sessions: Map<Seq<char>, SessionView>,
    pairings: Map<Id, PairingView>,
    pairing_id: Id,
) -> Option<Seq<char>> {
    if pairings.contains_key(pairing_id) {
        match pairings[pairing_id].active_session_token {
            Some(token) => if sessions.contains_key(token) {
                Some(token)
            } else {
                None
            },
            None => None,
        }
    } else {
        None
    }
}

/// Is the session one of the pairing's?
pub open spec fn belongs(s: SessionView, pairing_id: Id) -> bool {
    s.pairing_id == Some(pairing_id)
}

/// Is `found` the session that events for the pairing go to: the one that the pairing names, or
/// else one of its sessions that no other is younger than, or none where it has none?
pub open spec fn is_latest(
    sessions: Map<Seq<char>, SessionView>,
    pairings: Map<Id, PairingView>,
    pairing_id: Id,
    found: Option<Seq<char>>,
) -> bool {
    match named_session(sessions, pairings, pairing_id) {
        Some(token) => found == Some(token),
        None => match found {
            None => forall|t: Seq<char>| #[trigger]
                sessions.contains_key(t) ==> !belongs(sessions[t], pairing_id),
            Some(token) => {
                &&& sessions.contains_key(token)
                &&& belongs(sessions[token], pairing_id)
                &&& forall|t: Seq<char>| #[trigger]
                    sessions.contains_key(t) && belongs(sessions[t], pairing_id)
                        ==> sessions[t].created_at <= sessions[token].created_at
            },
        },
    }
}

/// The session that events for a pairing go to.
pub fn latest_session_token(
    store: &SessionStore,
    pairing_store: &PairingStore,
    pairing_id: Id,
) -> (r: Option<String>)
    ensures
        is_latest(store@, pairing_store@, pairing_id, text::opt_chars(r)),
{
    if let Some(entry) = pairing_store.get(&pairing_id) {
        if let Some(token) = entry.active_session_token {
            if store.contains_key(&token) {
                return Some(token);
            }
        }
    }
    let keys = store.keys();
    let mut best: Option<(String, Moment)> = None;
    for i in 0..keys.len()
        invariant
            forall|j: int| 0 <= j < keys@.len() ==> store@.contains_key(#[trigger] keys@[j]@),
            match best {
                None => forall|j: int|
                    0 <= j < i ==> !belongs(store@[(#[trigger] keys@[j])@], pairing_id),
                Some((token, created_at)) => {
                    &&& store@.contains_key(token@)
                    &&& belongs(store@[token@], pairing_id)
                    &&& store@[token@].created_at == created_at
                    &&& forall|j: int|
                        0 <= j < i && belongs(store@[(#[trigger] keys@[j])@], pairing_id)
                            ==> store@[keys@[j]@].created_at <= created_at
                },
            },
    {
        if let Some(session) = store.get(&keys[i]) {
            if session.pairing_id == Some(pairing_id) {
                let younger = match &best {
                    None => true,
                    Some((_, created_at)) => session.created_at >= *created_at,
                };
                if younger {
                    best = Some((keys[i].clone(), session.created_at));
                }
            }
        }
    }
    proof {
        assert forall|t: Seq<char>| #[trigger] store@.contains_key(t) implies exists|j: int|
            0 <= j < keys@.len() && #[trigger] keys@[j]@ == t by {}
    }
    match best {
        Some((token, _)) => Some(token),
        None => None,
    }
}

/// The channel by which events for a pairing reach its PC, and what the PC client can do.
pub fn current_client_tx(
    store: &SessionStore,
    pairing_store: &PairingStore,
    pairing_id: Id,
) -> (r: Option<(u64, u32)>)
    ensures
        exists|found: Option<Seq<char>>| #[trigger]
            is_latest(store@, pairing_store@, pairing_id, found) && r == client_of(store@, found),
{
    match latest_session_token(store, pairing_store, pairing_id) {
        None => {
            assert(is_latest(store@, pairing_store@, pairing_id, None));
            None
        },
        Some(token) => {
            assert(is_latest(store@, pairing_store@, pairing_id, Some(token@)));
            match store.get(&token) {
                Some(session) => match session.client_tx {
                    Some(tx) => Some((tx, session.client_capabilities)),
                    None => None,
                },
                None => None,
            }
        },
    }
}

/// The channel and the abilities of a session's PC client, while it is connected.
pub open spec fn client_of(
    sessions: Map<Seq<char>, SessionView>,
    token: Option<Seq<char>>,
) -> Option<(u64, u32)> {
    match token {
        Some(t) => match sessions[t].client_tx {
            Some(tx) => Some((tx, sessions[t].client_capabilities)),
            None => None,
        },
        None => None,
    }
}

/// A phone has connected: the session that events go to notes it. Returns that session's token.
pub fn mark_mobile_ws_connected(
    store: &mut SessionStore,
    pairing_store: &PairingStore,
    pairing_id: Id,
    mobile_control_tx: u64,
) -> (r: Option<String>)
    ensures
        is_latest(old(store)@, pairing_store@, pairing_id, text::opt_chars(r)),
        final(store)@ == match r {
            Some(token) => old(store)@.insert(
                token@,
                SessionView {
                    ws_active: true,
                    mobile_control_tx: Some(mobile_control_tx),
                    ..old(store)@[token@]
                },
            ),
            None => old(store)@,
        },
{
    match latest_session_token(store, pairing_store, pairing_id) {
        None => None,
        Some(token) => {
            if let Some(session) = store.remove(&token) {
                let mut session = session;
                session.ws_active = true;
                session.mobile_control_tx = Some(mobile_control_tx);
                store.insert(token.clone(), session);
            }
            assert(store@ =~= old(store)@.insert(
                token@,
                SessionView {
                    ws_active: true,
                    mobile_control_tx: Some(mobile_control_tx),
                    ..old(store)@[token@]
                },
            ));
            Some(token)
        },
    }
}

/// A phone has gone: the session that noted it forgets it, unless another phone has taken its
/// place.
pub fn clear_mobile_ws_state(
    store: &mut SessionStore,
    session_token: Option<&str>,
    mobile_control_tx: u64,
)
    ensures
        final(store)@ == match session_token {
            Some(token) => if old(store)@.contains_key(token@)
                && old(store)@[token@].mobile_control_tx == Some(mobile_control_tx) {
                old(store)@.insert(
                    token@,
                    SessionView {
                        ws_active: false,
                        mobile_control_tx: None,
                        ..old(store)@[token@]
                    },
                )
            } else {
                old(store)@
            },
            None => old(store)@,
        },
{
    if let Some(token) = session_token {
        let key = string_of(&chars_of(token));
        if let Some(session) = store.remove(&key) {
            let mut session = session;
            let ghost gone = store@;
            if session.mobile_control_tx == Some(mobile_control_tx) {
                session.ws_active = false;
                session.mobile_control_tx = None;
            }
            let ghost put = session@;
            store.insert(key, session);
            proof {
                assert(store@ == gone.insert(token@, put));
                assert(gone.insert(token@, old(store)@[token@]) =~= old(store)@);
                assert(store@ =~= old(store)@.insert(token@, put));
            }
        } else {
            assert(store@ =~= old(store)@);
        }
    }
}

/// The session whose secret the text is, if there is one.
pub fn grpc_session_token(store: &SessionStore, bearer_token: &str) -> (r: Option<String>)
    ensures
        proves(store@, bearer_token@, text::opt_chars(r)),
{
    let keys = store.keys();
    for i in 0..keys.len()
        invariant
            forall|j: int| 0 <= j < keys@.len() ==> store@.contains_key(#[trigger] keys@[j]@),
            forall|j: int|
                0 <= j < i ==> store@[(#[trigger] keys@[j])@].grpc_session_token != bearer_token@,
    {
        if let Some(session) = store.get(&keys[i]) {
            if same_text(&session.grpc_session_token, bearer_token) {
                return Some(keys[i].clone());
            }
        }
    }
    proof {
        assert forall|t: Seq<char>| #[trigger] store@.contains_key(t) implies exists|j: int|
            0 <= j < keys@.len() && #[trigger] keys@[j]@ == t by {}
    }
    None
}

/// Is this the session that a PC client's secret proves, or none where none has that secret?
pub open spec fn proves(
    sessions: Map<Seq<char>, SessionView>,
    secret: Seq<char>,
    found: Option<Seq<char>>,
) -> bool {
    match found {
        Some(t) => sessions.contains_key(t) && sessions[t].grpc_session_token == secret,
        None => forall|t: Seq<char>| #[trigger]
            sessions.contains_key(t) ==> sessions[t].grpc_session_token != secret,
    }
}

/// The pairings once that of a session was seen.
pub open spec fn seen(
    sessions: Map<Seq<char>, SessionView>,
    pairings: Map<Id, PairingView>,
    found: Option<Seq<char>>,
    now: Moment,
) -> Map<Id, PairingView> {
    match found {
        Some(t) => match sessions[t].pairing_id {
            Some(id) => if pairings.contains_key(id) {
                pairings.insert(id, PairingView { last_seen: now, ..pairings[id] })
            } else {
                pairings
            },
            None => pairings,
        },
        None => pairings,
    }
}

/// Are two texts the same? Their bytes are compared in constant time.
pub fn same_text(a: &str, b: &str) -> (r: bool)
    ensures
        r == (a@ == b@),
{
    broadcast use vstd::string::group_string_axioms;

    let x = a.as_bytes();
    let y = b.as_bytes();
    let r = same_bytes(x, y);
    proof {
        if r {
            vstd::utf8::encode_utf8_decode_utf8(a@);
            vstd::utf8::encode_utf8_decode_utf8(b@);
        }
    }
    r
}

/// The address that a phone opens to join a pairing. What follows the number sign stays in the
/// browser.
pub open spec fn pairing_url(base: Seq<char>, pairing_id: Id, secret: Seq<u8>) -> Seq<char> {
    text::trim_end_of(base, '/') + "/m/"@ + ids::uuid_text(pairing_id) + "#ps="@
        + pairing::hex_of(secret)
}

/// Writes the address that a phone opens to join a pairing.
pub fn pairing_url_string(base: &str, pairing_id: Id, secret: &[u8; 32]) -> (r: String)
    ensures
        r@ == pairing_url(base@, pairing_id, secret@),
{
    let mut out = string_of(trim_end_char(&chars_of(base), '/'));
    push_chars(&mut out, &chars_of("/m/"));
    push_chars(&mut out, &chars_of(&id_string(pairing_id)));
    push_chars(&mut out, &chars_of("#ps="));
    push_chars(&mut out, &chars_of(&encode_hex(secret)));
    out
}

/// One more, but never past the largest.
pub open spec fn bump(n: u64) -> u64 {
    if n == u64::MAX {
        n
    } else {
        (n + 1) as u64
    }
}

/// The pairing as it stands once a PC client listens on it: as it was, with its secret and its
/// epoch, or a new one with the given secret.
pub open spec fn joined(
    pairings: Map<Id, PairingView>,
    pairing_id: Id,
    token: Seq<char>,
    fresh_secret: Seq<u8>,
    ttl_secs: u64,
    now: Moment,
) -> PairingView {
    if pairings.contains_key(pairing_id) {
        PairingView {
            online: true,
            last_seen: now,
            expires_at: clock::plus(now, ttl_secs as int) as i128,
            active_session_token: Some(token),
            revision: bump(pairings[pairing_id].revision),
            ..pairings[pairing_id]
        }
    } else {
        PairingView {
            pairing_id,
            pairing_secret: fresh_secret,
            epoch: 0,
            online: true,
            last_seen: now,
            expires_at: clock::plus(now, ttl_secs as int) as i128,
            active_session_token: Some(token),
            active_mobile_ws: None,
            revision: 0,
        }
    }
}

/// Notes that a PC client listens on a pairing, and returns the address for the phone and the
/// pairing's secret.
pub fn upsert_pairing(
    pairing_store: &mut PairingStore,
    config: &ServerConfig,
    pairing_id: Id,
    session_token: &str,
    fresh_secret: [u8; 32],
    now: Moment,
) -> (r: (String, [u8; 32]))
    requires
        clock::in_range(now as int),
        clock::in_range(clock::plus(now, config.pairing_ttl_secs as int)),
    ensures
        ({
            let entry = joined(
                old(pairing_store)@,
                pairing_id,
                session_token@,
                fresh_secret@,
                config.pairing_ttl_secs,
                now,
            );
            &&& final(pairing_store)@ == old(pairing_store)@.insert(pairing_id, entry)
            &&& r.1@ == entry.pairing_secret
            &&& r.0@ == pairing_url(config.public_base_url@, pairing_id, entry.pairing_secret)
        }),
{
    let expires_at = after(now, config.pairing_ttl_secs);
    let token = string_of(&chars_of(session_token));
    let entry = match pairing_store.remove(&pairing_id) {
        Some(entry) => {
            let mut entry = entry;
            entry.online = true;
            entry.last_seen = now;
            entry.expires_at = expires_at;
            entry.active_session_token = Some(token);
            entry.revision = entry.revision.saturating_add(1);
            entry
        },
        None => PairingEntry {
            pairing_id,
            pairing_secret: fresh_secret,
            epoch: 0,
            online: true,
            last_seen: now,
            expires_at,
            active_session_token: Some(token),
            active_mobile_ws: None,
            revision: 0,
        },
    };
    let ghost want = joined(
        old(pairing_store)@,
        pairing_id,
        session_token@,
        fresh_secret@,
        config.pairing_ttl_secs,
        now,
    );
    assert(entry@ =~= want);
    let secret = entry.pairing_secret;
    let url = pairing_url_string(&config.public_base_url, pairing_id, &secret);
    pairing_store.insert(pairing_id, entry);
    assert(pairing_store@ =~= old(pairing_store)@.insert(pairing_id, want));
    (url, secret)
}

/// A secret of a session that is in use.
#[derive(Debug)]
pub struct TokenMark {}

impl View for TokenMark {
    type V = ();

    open spec fn view(&self) -> () {
        ()
    }
}

impl Record for TokenMark {
    fn copy(&self) -> (r: TokenMark) {
        TokenMark {  }
    }
}

/// The secrets of the sessions that are in use.
pub type GrpcTokens = Store<String, TokenMark>;

/// Why a PC client's call is refused.
#[derive(Debug, Clone, Copy, PartialEq, Eq, Structural)]
pub enum CallError {
    /// The shared secret is wrong.
    InvalidAuthToken,
    /// The pairing's identifier is none.
    InvalidPairingId,
    /// The session's secret is missing.
    MissingSessionToken,
    /// No session in use has this secret.
    InvalidSessionToken,
}

impl CallError {
    /// Is the caller unknown, rather than the call wrong?
    pub open spec fn is_unauthenticated(self) -> bool {
        self != CallError::InvalidPairingId
    }

    /// What the caller is told.
    pub open spec fn words(self) -> Seq<char> {
        match self {
            CallError::InvalidAuthToken => "invalid gRPC auth token"@,
            CallError::InvalidPairingId => "pairing_id must be a valid UUID"@,
            CallError::MissingSessionToken => "missing grpc_session_token"@,
            CallError::InvalidSessionToken => "invalid grpc_session_token"@,
        }
    }

    /// Is the caller unknown, rather than the call wrong?
    pub fn unauthenticated(self) -> (r: bool)
        ensures
            r == self.is_unauthenticated(),
    {
        self != CallError::InvalidPairingId
    }

    /// What the caller is told.
    pub fn message(self) -> (r: &'static str)
        ensures
            r@ == self.words(),
    {
        match self {
            CallError::InvalidAuthToken => "invalid gRPC auth token",
            CallError::InvalidPairingId => "pairing_id must be a valid UUID",
            CallError::MissingSessionToken => "missing grpc_session_token",
            CallError::InvalidSessionToken => "invalid grpc_session_token",
        }
    }
}

/// What a PC client that subscribed is given.
#[derive(Debug)]
pub struct Subscribed {
    /// The session's token.
    pub token: String,
    /// The session's secret.
    pub grpc_session_token: String,
    /// The first event.
    pub first_event: ServerEvent,
}

/// The session of a PC client that has just subscribed.
pub open spec fn fresh_session(
    token: Seq<char>,
    grpc_token: Seq<char>,
    pairing_id: Id,
    channel: u64,
    capabilities: u32,
    now: Moment,
) -> SessionView {
    SessionView {
        token,
        created_at: now,
        scanned: false,
        upgrade_reserved_at: None,
        ws_active: false,
        client_tx: Some(channel),
        mobile_control_tx: None,
        device_info: None,
        pairing_id: Some(pairing_id),
        grpc_session_token: grpc_token,
        client_capabilities: capabilities,
    }
}

/// Why a subscription is refused: first for the shared secret, then for the pairing.
pub open spec fn subscribe_error(
    config: ServerConfig,
    auth_token: Seq<char>,
    pairing_id: Seq<char>,
) -> Option<CallError> {
    if auth_token != config.grpc_auth_token@ {
        Some(CallError::InvalidAuthToken)
    } else if ids::uuid_parse(pairing_id) is None {
        Some(CallError::InvalidPairingId)
    } else {
        None
    }
}

/// The service for PC clients.
pub struct ClientRelayService {
    /// The secrets of the sessions that are in use.
    pub grpc_tokens: GrpcTokens,
    /// The ranges of trusted reverse proxies.
    pub trusted_proxies: TrustedProxyCidrs,
}

impl ClientRelayService {
    /// A service that nobody uses yet.
    pub fn new(config: &ServerConfig) -> (r: Result<Self, String>)
        ensures
            match r {
                Ok(s) => {
                    &&& config::cidrs_error(config.trusted_proxy_cidrs@) is None
                    &&& s.grpc_tokens@ == Map::<Seq<char>, ()>::empty()
                    &&& s.trusted_proxies@.len() == config.trusted_proxy_cidrs@.len()
                    &&& forall|i: int|
                        0 <= i < config.trusted_proxy_cidrs@.len() ==> crate::net::cidr_parse(
                            text::trimmed((#[trigger] config.trusted_proxy_cidrs@[i])@),
                        ) == Some(s.trusted_proxies@[i].parts())
                },
                Err(e) => config::cidrs_error(config.trusted_proxy_cidrs@) == Some(e@),
            },
    {
        match config.trusted_proxy_ranges() {
            Ok(trusted_proxies) => Ok(
                ClientRelayService { grpc_tokens: Store::new(), trusted_proxies },
            ),
            Err(e) => Err(e),
        }
    }

    /// Subscribes a PC client under the given token, session secret and pairing secret.
    pub fn subscribe_as(
        &mut self,
        store: &mut SessionStore,
        pairing_store: &mut PairingStore,
        config: &ServerConfig,
        auth_token: &str,
        pairing_id: &str,
        client_capabilities: u32,
        channel: u64,
        token: &str,
        grpc_token: &str,
        fresh_secret: [u8; 32],
        now: Moment,
    ) -> (r: Result<ServerEvent, CallError>)
        requires
            clock::in_range(now as int),
            clock::in_range(clock::plus(now, config.pairing_ttl_secs as int)),
        ensures
            final(self).trusted_proxies == old(self).trusted_proxies,
            match subscribe_error(*config, auth_token@, pairing_id@) {
                Some(e) => {
                    &&& r == Err::<ServerEvent, CallError>(e)
                    &&& final(self).grpc_tokens@ == old(self).grpc_tokens@
                    &&& final(store)@ == old(store)@
                    &&& final(pairing_store)@ == old(pairing_store)@
                },
                None => {
                    let id = ids::uuid_parse(pairing_id@)->0;
                    let entry = joined(
                        old(pairing_store)@,
                        id,
                        token@,
                        fresh_secret@,
                        config.pairing_ttl_secs,
                        now,
                    );
                    &&& final(pairing_store)@ == old(pairing_store)@.insert(id, entry)
                    &&& final(store)@ == old(store)@.insert(
                        token@,
                        fresh_session(token@, grpc_token@, id, channel, client_capabilities, now),
                    )
                    &&& final(self).grpc_tokens@ == old(self).grpc_tokens@.insert(grpc_token@, ())
                    &&& r matches Ok(event) && event.is(
                        crate::events::EventView::SessionToken {
                            token: token@,
                            url: pairing_url(config.public_base_url@, id, entry.pairing_secret),
                        },
                        grpc_token@,
                    )
                },
            },
    {
        if !same_text(auth_token, &config.grpc_auth_token) {
            return Err(CallError::InvalidAuthToken);
        }
        let id = match parse_id(pairing_id) {
            Some(id) => id,
            None => {
                return Err(CallError::InvalidPairingId);
            },
        };
        let (url, _secret) = upsert_pairing(pairing_store, config, id, token, fresh_secret, now);
        let session = Session {
            token: string_of(&chars_of(token)),
            created_at: now,
            scanned: false,
            upgrade_reserved_at: None,
            ws_active: false,
            client_tx: Some(channel),
            mobile_control_tx: None,
            device_info: None,
            pairing_id: Some(id),
            grpc_session_token: string_of(&chars_of(grpc_token)),
            client_capabilities,
        };
        assert(session@ =~= fresh_session(
            token@,
            grpc_token@,
            id,
            channel,
            client_capabilities,
            now,
        ));
        store.insert(string_of(&chars_of(token)), session);
        self.grpc_tokens.insert(string_of(&chars_of(grpc_token)), TokenMark {  });
        Ok(
            ServerEvent {
                event: Some(Event::SessionToken { token: string_of(&chars_of(token)), url }),
                grpc_session_token: string_of(&chars_of(grpc_token)),
            },
        )
    }

    /// Subscribes a PC client: a fresh token, a fresh session secret, and for a new pairing a fresh
    /// pairing secret.
    pub fn subscribe(
        &mut self,
        store: &mut SessionStore,
        pairing_store: &mut PairingStore,
        config: &ServerConfig,
        auth_token: &str,
        pairing_id: &str,
        client_capabilities: u32,
        channel: u64,
        now: Moment,
    ) -> (r: Result<Subscribed, CallError>)
        requires
            clock::in_range(now as int),
            clock::in_range(clock::plus(now, config.pairing_ttl_secs as int)),
        ensures
            final(self).trusted_proxies == old(self).trusted_proxies,
            match r {
                Err(e) => {
                    &&& subscribe_error(*config, auth_token@, pairing_id@) == Some(e)
                    &&& final(self).grpc_tokens@ == old(self).grpc_tokens@
                    &&& final(store)@ == old(store)@
                    &&& final(pairing_store)@ == old(pairing_store)@
                },
                Ok(s) => {
                    let id = ids::uuid_parse(pairing_id@)->0;
                    &&& subscribe_error(*config, auth_token@, pairing_id@) is None
                    &&& is_uuid_text(s.token@)
                    &&& is_uuid_text(s.grpc_session_token@)
                    &&& final(store)@ == old(store)@.insert(
                        s.token@,
                        fresh_session(
                            s.token@,
                            s.grpc_session_token@,
                            id,
                            channel,
                            client_capabilities,
                            now,
                        ),
                    )
                    &&& final(self).grpc_tokens@ == old(self).grpc_tokens@.insert(
                        s.grpc_session_token@,
                        (),
                    )
                    &&& exists|secret: Seq<u8>|
                        {
                            let entry = #[trigger] joined(
                                old(pairing_store)@,
                                id,
                                s.token@,
                                secret,
                                config.pairing_ttl_secs,
                                now,
                            );
                            &&& secret.len() == 32
                            &&& final(pairing_store)@ == old(pairing_store)@.insert(id, entry)
                            &&& s.first_event.is(
                                crate::events::EventView::SessionToken {
                                    token: s.token@,
                                    url: pairing_url(
                                        config.public_base_url@,
                                        id,
                                        entry.pairing_secret,
                                    ),
                                },
                                s.grpc_session_token@,
                            )
                        }
                },
            },
    {
        let token = id_string(new_id());
        let grpc_token = id_string(new_id());
        let secret = random_bytes_32();
        match self.subscribe_as(
            store,
            pairing_store,
            config,
            auth_token,
            pairing_id,
            client_capabilities,
            channel,
            &token,
            &grpc_token,
            secret,
            now,
        ) {
            Err(e) => Err(e),
            Ok(first_event) => {
                assert(joined(
                    old(pairing_store)@,
                    ids::uuid_parse(pairing_id@)->0,
                    token@,
                    secret@,
                    config.pairing_ttl_secs,
                    now,
                ).online);
                Ok(Subscribed { token, grpc_session_token: grpc_token, first_event })
            },
        }
    }

    /// A PC client's sign of life: is its session in use?
    pub fn ping(&self, grpc_session_token: &str) -> (r: Result<(), CallError>)
        ensures
            r == (if grpc_session_token@.len() == 0 {
                Err::<(), CallError>(CallError::MissingSessionToken)
            } else if !self.grpc_tokens@.contains_key(grpc_session_token@) {
                Err::<(), CallError>(CallError::InvalidSessionToken)
            } else {
                Ok::<(), CallError>(())
            }),
    {
        let cs = chars_of(grpc_session_token);
        if cs.is_empty() {
            return Err(CallError::MissingSessionToken);
        }
        if !self.grpc_tokens.contains_key(&string_of(&cs)) {
            return Err(CallError::InvalidSessionToken);
        }
        Ok(())
    }

    /// A PC client's sign of life, as [`ClientRelayService::ping`] takes it: where its session is in
    /// use, its pairing was seen now.
    pub fn heartbeat(
        &self,
        store: &SessionStore,
        pairing_store: &mut PairingStore,
        grpc_session_token: &str,
        now: Moment,
    ) -> (r: Result<(), CallError>)
        ensures
            r == (if grpc_session_token@.len() == 0 {
                Err::<(), CallError>(CallError::MissingSessionToken)
            } else if !self.grpc_tokens@.contains_key(grpc_session_token@) {
                Err::<(), CallError>(CallError::InvalidSessionToken)
            } else {
                Ok::<(), CallError>(())
            }),
            exists|found: Option<Seq<char>>| #[trigger]
                proves(store@, grpc_session_token@, found) && final(pairing_store)@ == (if r is Ok {
                    seen(store@, old(pairing_store)@, found, now)
                } else {
                    old(pairing_store)@
                }),
    {
        let found = self::grpc_session_token(store, grpc_session_token);
        let ghost proven = text::opt_chars(found);
        assert(proves(store@, grpc_session_token@, proven));
        if let Err(e) = self.ping(grpc_session_token) {
            return Err(e);
        }
        if let Some(token) = found {
            if let Some(session) = store.get(&token) {
                if let Some(id) = session.pairing_id {
                    if let Some(entry) = pairing_store.get(&id) {
                        let entry = PairingEntry { last_seen: now, ..entry };
                        pairing_store.insert(id, entry);
                    }
                }
            }
        }
        assert(pairing_store@ =~= seen(store@, old(pairing_store)@, proven, now));
        Ok(())
    }

    /// A PC client's stream has ended: its secret is void and its session is closed. Returns the
    /// channel of the phone that is to be told, if one is.
    pub fn drop_stream(
        &mut self,
        store: &mut SessionStore,
        pairing_store: &mut PairingStore,
        pairing_ttl_secs: u64,
        token: &str,
        grpc_session_token: &str,
        now: Moment,
    ) -> (r: Option<u64>)
        requires
            clock::in_range(now as int),
            clock::in_range(clock::plus(now, pairing_ttl_secs as int)),
        ensures
            final(self).trusted_proxies == old(self).trusted_proxies,
            final(self).grpc_tokens@ == old(self).grpc_tokens@.remove(grpc_session_token@),
            is_disconnect(
                old(store)@,
                old(pairing_store)@,
                final(store)@,
                final(pairing_store)@,
                token@,
                pairing_ttl_secs,
                now,
                r,
            ),
    {
        self.grpc_tokens.remove(&string_of(&chars_of(grpc_session_token)));
        cleanup_session_on_client_disconnect(store, pairing_store, pairing_ttl_secs, token, now)
    }

    /// The address of the client behind the peer, as it is logged.
    pub fn display_client_addr(
        &self,
        peer: Ip,
        x_forwarded_for: Option<&str>,
        x_real_ip: Option<&str>,
    ) -> (r: String)
        ensures
            exists|ip: Ip|
                r@ == #[trigger] ip.text() && ip.bits() == config::client_ip(
                    self.trusted_proxies@,
                    peer,
                    config::opt_str(x_forwarded_for),
                    config::opt_str(x_real_ip),
                ),
    {
        display_client_addr(peer, x_forwarded_for, x_real_ip, &self.trusted_proxies)
    }
}

/// The address of the client behind the peer, as it is logged.
pub fn display_client_addr(
    peer: Ip,
    x_forwarded_for: Option<&str>,
    x_real_ip: Option<&str>,
    trusted_proxies: &TrustedProxyCidrs,
) -> (r: String)
    ensures
        exists|ip: Ip|
            r@ == #[trigger] ip.text() && ip.bits() == config::client_ip(
                trusted_proxies@,
                peer,
                config::opt_str(x_forwarded_for),
                config::opt_str(x_real_ip),
            ),
{
    let ip = trusted_proxies.resolve_client_ip(peer, x_forwarded_for, x_real_ip);
    ip_string(ip)
}

/// Is this the text of a random identifier?
pub open spec fn is_uuid_text(s: Seq<char>) -> bool {
    exists|id: Id| #[trigger] ids::is_random_id(id) && s == ids::uuid_text(id)
}

/// The sessions once a PC client has left: without its own, and with its phone handed on to the
/// session that takes its place, if there is one that has no phone.
pub open spec fn sessions_after(
    sessions: Map<Seq<char>, SessionView>,
    token: Seq<char>,
    successor: Option<Seq<char>>,
) -> Map<Seq<char>, SessionView> {
    let gone = sessions[token];
    let rest = sessions.remove(token);
    match successor {
        Some(t) => if rest[t].mobile_control_tx is None {
            rest.insert(
                t,
                SessionView {
                    ws_active: gone.ws_active,
                    mobile_control_tx: gone.mobile_control_tx,
                    ..rest[t]
                },
            )
        } else {
            rest
        },
        None => rest,
    }
}

/// The pairings once a PC client has left: its own names the session that takes its place; without
/// one it is offline, and lapses a while from now.
pub open spec fn pairings_after(
    pairings: Map<Id, PairingView>,
    pairing_id: Option<Id>,
    successor: Option<Seq<char>>,
    ttl_secs: u64,
    now: Moment,
) -> Map<Id, PairingView> {
    match pairing_id {
        Some(id) => if pairings.contains_key(id) {
            let entry = PairingView { active_session_token: successor, ..pairings[id] };
            pairings.insert(
                id,
                if successor is Some {
                    entry
                } else {
                    PairingView {
                        online: false,
                        last_seen: now,
                        expires_at: clock::plus(now, ttl_secs as int) as i128,
                        revision: bump(entry.revision),
                        ..entry
                    }
                },
            )
        } else {
            pairings
        },
        None => pairings,
    }
}

/// Is this what becomes of sessions and pairings, and of the phone, when the PC client with the
/// given token leaves? The session that takes its place is one that [`is_latest`] picks among the
/// others; where there is none, its phone is told.
pub open spec fn is_disconnect(
    sessions: Map<Seq<char>, SessionView>,
    pairings: Map<Id, PairingView>,
    sessions2: Map<Seq<char>, SessionView>,
    pairings2: Map<Id, PairingView>,
    token: Seq<char>,
    ttl_secs: u64,
    now: Moment,
    told: Option<u64>,
) -> bool {
    if !sessions.contains_key(token) {
        sessions2 == sessions && pairings2 == pairings && told is None
    } else {
        exists|successor: Option<Seq<char>>|
            {
                &&& #[trigger] is_successor(sessions, pairings, token, successor)
                &&& sessions2 == sessions_after(sessions, token, successor)
                &&& pairings2 == pairings_after(
                    pairings,
                    sessions[token].pairing_id,
                    successor,
                    ttl_secs,
                    now,
                )
                &&& told == if successor is Some {
                    None
                } else {
                    sessions[token].mobile_control_tx
                }
            }
    }
}

/// May `successor` take the place of the session that leaves?
pub open spec fn is_successor(
    sessions: Map<Seq<char>, SessionView>,
    pairings: Map<Id, PairingView>,
    token: Seq<char>,
    successor: Option<Seq<char>>,
) -> bool {
    match sessions[token].pairing_id {
        Some(id) => is_latest(sessions.remove(token), pairings, id, successor),
        None => successor is None,
    }
}

/// Closes the session of a PC client that has left. Returns the channel of the phone that is to be
/// told, if one is.
pub fn cleanup_session_on_client_disconnect(
    store: &mut SessionStore,
    pairing_store: &mut PairingStore,
    pairing_ttl_secs: u64,
    token: &str,
    now: Moment,
) -> (r: Option<u64>)
    requires
        clock::in_range(now as int),
        clock::in_range(clock::plus(now, pairing_ttl_secs as int)),
    ensures
        is_disconnect(
            old(store)@,
            old(pairing_store)@,
            final(store)@,
            final(pairing_store)@,
            token@,
            pairing_ttl_secs,
            now,
            r,
        ),
{
    let ghost sessions = store@;
    let ghost pairings = pairing_store@;
    let key = string_of(&chars_of(token));
    let session = match store.remove(&key) {
        Some(session) => session,
        None => {
            assert(store@ =~= sessions);
            return None;
        },
    };
    let ghost rest = store@;
    let successor = match session.pairing_id {
        Some(id) => latest_session_token(store, pairing_store, id),
        None => None,
    };
    let ghost next = text::opt_chars(successor);
    assert(is_successor(sessions, pairings, token@, next));
    if let Some(id) = session.pairing_id {
        if let Some(entry) = pairing_store.remove(&id) {
            let mut entry = entry;
            match &successor {
                Some(t) => {
                    entry.active_session_token = Some(t.clone());
                },
                None => {
                    entry.active_session_token = None;
                    entry.online = false;
                    entry.last_seen = now;
                    entry.expires_at = after(now, pairing_ttl_secs);
                    entry.revision = entry.revision.saturating_add(1);
                },
            }
            pairing_store.insert(id, entry);
        }
    }
    proof {
        assert(pairing_store@ =~= pairings_after(
            pairings,
            sessions[token@].pairing_id,
            next,
            pairing_ttl_secs,
            now,
        ));
    }
    match successor {
        Some(t) => {
            if let Some(other) = store.remove(&t) {
                let mut other = other;
                if other.mobile_control_tx.is_none() {
                    other.ws_active = session.ws_active;
                    other.mobile_control_tx = session.mobile_control_tx;
                }
                let ghost put = other@;
                store.insert(t, other);
                assert(store@ =~= rest.insert(t@, put));
            }
            assert(store@ =~= sessions_after(sessions, token@, next));
            None
        },
        None => session.mobile_control_tx,
    }
}

/// A PC client that leaves takes its own session with it and no other; and a pairing that still has
/// a session stays online.
pub proof fn law_disconnect_keeps_others(
    sessions: Map<Seq<char>, SessionView>,
    pairings: Map<Id, PairingView>,
    sessions2: Map<Seq<char>, SessionView>,
    pairings2: Map<Id, PairingView>,
    token: Seq<char>,
    ttl_secs: u64,
    now: Moment,
    told: Option<u64>,
)
    requires
        is_disconnect(sessions, pairings, sessions2, pairings2, token, ttl_secs, now, told),
    ensures
        sessions2.dom() == sessions.dom().remove(token),
        pairings2.dom() == pairings.dom(),
        forall|p: Id, t: Seq<char>| #[trigger]
            pairings.contains_key(p) && #[trigger] sessions2.contains_key(t) && belongs(
                sessions2[t],
                p,
            ) ==> pairings2[p].online == pairings[p].online,
{
    if sessions.contains_key(token) {
        let successor = choose|successor: Option<Seq<char>>|
            {
                &&& #[trigger] is_successor(sessions, pairings, token, successor)
                &&& sessions2 == sessions_after(sessions, token, successor)
                &&& pairings2 == pairings_after(
                    pairings,
                    sessions[token].pairing_id,
                    successor,
                    ttl_secs,
                    now,
                )
                &&& told == if successor is Some {
                    None
                } else {
                    sessions[token].mobile_control_tx
                }
            };
        let rest = sessions.remove(token);
        assert(sessions2.dom() =~= sessions.dom().remove(token));
        assert(pairings2.dom() =~= pairings.dom());
        assert forall|p: Id, t: Seq<char>| #[trigger]
            pairings.contains_key(p) && #[trigger] sessions2.contains_key(t) && belongs(
                sessions2[t],
                p,
            ) implies pairings2[p].online == pairings[p].online by {
            assert(rest.contains_key(t));
            assert(belongs(rest[t], p));
        }
    } else {
        assert(sessions.dom().remove(token) =~= sessions.dom());
    }
}

} // verus!
