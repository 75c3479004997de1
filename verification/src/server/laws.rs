//! What holds of pairings, phones and PC clients as their users see it: how long a phone is known,
//! what a PC that comes back finds, who is told what.

use crate::clock;
use crate::clock::{Clock, Moment};
use crate::common::MobileMessage;
use crate::events::{Event, EventView};
use crate::ids;
use crate::ids::Id;
use crate::server::cleanup;
use crate::server::config::ServerConfig;
use crate::server::pairing;
use crate::server::pairing::{CloseReason, PairingView, TicketView, WsControl, WsHandle};
use crate::server::persist::TaskView;
use crate::server::relay;
use crate::server::reply;
use crate::server::reply::{BodyView, ReplyView};
use crate::server::session::SessionView;
use crate::server::web;
use crate::server::web::{CloseOrder, Notice, StateView};
use crate::server::web_laws;
use crate::server::ws;
use crate::server::ws::{LinkAction, LinkEvent, PhoneLink};
use crate::text;
use vstd::prelude::*;

verus! {

/// The cookie of a browser session, as a browser sends it back.
pub open spec fn cookie_of(session_id: Seq<u8>) -> Option<Seq<char>> {
    Some("__Host-qr_paste_browser_session"@ + "="@ + pairing::hex_of(session_id))
}

/// Is this session of the pairing good at the moment: is it kept, has it neither lapsed nor been
/// revoked, and is it of the pairing's present epoch?
pub open spec fn is_good(v: StateView, pairing_id: Id, session_id: Seq<u8>, now: Moment) -> bool {
    &&& v.browsers.contains_key(session_id)
    &&& v.pairings.contains_key(pairing_id)
    &&& !v.browsers[session_id].revoked
    &&& v.browsers[session_id].expires_at > now
    &&& v.browsers[session_id].pairing_id == pairing_id
    &&& v.browsers[session_id].pairing_epoch == v.pairings[pairing_id].epoch
}

/// A browser that sends its cookie back is let in exactly as long as its session is good, whatever
/// else holds of the pairing, of its PC and of its phone.
pub proof fn law_good_session_is_let_in(
    v: StateView,
    pairing_id: Id,
    session_id: Seq<u8>,
    now: Moment,
)
    requires
        session_id.len() == 32,
    ensures
        web::auth(v, pairing_id, cookie_of(session_id), now) is Ok <==> is_good(
            v,
            pairing_id,
            session_id,
            now,
        ),
        is_good(v, pairing_id, session_id, now) ==> web::auth(
            v,
            pairing_id,
            cookie_of(session_id),
            now,
        ) == Ok::<Seq<u8>, u16>(session_id),
{
    web_laws::law_cookie_names_session(session_id);
    pairing::law_hex_round_trip(session_id, session_id);
    pairing::lemma_unhex(session_id);
}

/// Whoever is let in, with whatever cookies, is let in under a session that is good; and without
/// cookies nobody is.
pub proof fn law_only_good_sessions_are_let_in(
    v: StateView,
    pairing_id: Id,
    cookie: Option<Seq<char>>,
    now: Moment,
)
    ensures
        web::auth(v, pairing_id, cookie, now) matches Ok(session_id) ==> is_good(
            v,
            pairing_id,
            session_id,
            now,
        ),
        web::auth(v, pairing_id, None, now) is Err,
{
}

/// What a browser's cookies prove depends on the browser sessions and on the pairing's epoch, and on
/// nothing else: not on the secret, on who is connected, on tickets, or on files.
pub proof fn law_cookies_depend_on_the_session_alone(
    v: StateView,
    w: StateView,
    pairing_id: Id,
    cookie: Option<Seq<char>>,
    now: Moment,
)
    requires
        v.browsers == w.browsers,
        v.pairings.contains_key(pairing_id) <==> w.pairings.contains_key(pairing_id),
        v.pairings.contains_key(pairing_id) ==> v.pairings[pairing_id].epoch
            == w.pairings[pairing_id].epoch,
    ensures
        web::auth(v, pairing_id, cookie, now) == web::auth(w, pairing_id, cookie, now),
{
}

/// A phone that has opened its connection is still let in with its cookie, and so is one whose
/// connection has ended: it can upload, ask for the status, and ask for another ticket.
pub proof fn law_connected_phone_is_served(
    v: StateView,
    pairing_id: Id,
    session_id: Seq<u8>,
    handle: Option<WsHandle>,
    link: PhoneLink,
    now: Moment,
)
    requires
        is_good(v, pairing_id, session_id, now),
        session_id.len() == 32,
    ensures
        ({
            let opened = StateView {
                pairings: v.pairings.insert(
                    pairing_id,
                    PairingView { active_mobile_ws: handle, ..v.pairings[pairing_id] },
                ),
                ..v
            };
            web::auth(opened, pairing_id, cookie_of(session_id), now) == Ok::<Seq<u8>, u16>(
                session_id,
            )
        }),
        web::auth(ws::closed(v, link), pairing_id, cookie_of(session_id), now) == Ok::<
            Seq<u8>,
            u16,
        >(session_id),
{
    let opened = StateView {
        pairings: v.pairings.insert(
            pairing_id,
            PairingView { active_mobile_ws: handle, ..v.pairings[pairing_id] },
        ),
        ..v
    };
    law_good_session_is_let_in(opened, pairing_id, session_id, now);
    law_good_session_is_let_in(ws::closed(v, link), pairing_id, session_id, now);
}

/// A request from the server's own page, that is not too large and names its pairing, is served
/// exactly where its cookies prove a session of that pairing, under that session. A browser whose
/// session is no longer good is told to come anew.
pub proof fn law_request_is_served(
    v: StateView,
    origin: Option<Seq<char>>,
    body_len: usize,
    pairing_text: Seq<char>,
    pairing_id: Id,
    cookie: Option<Seq<char>>,
    now: Moment,
)
    requires
        reply::origin_ok(origin, v.origin),
        body_len <= 256,
        ids::uuid_parse(pairing_text) == Some(pairing_id),
    ensures
        ({
            let answer = web::gate(v, origin, body_len, pairing_text, cookie, now);
            match web::auth(v, pairing_id, cookie, now) {
                Ok(session_id) => answer == Ok::<(Id, Seq<u8>), ReplyView>(
                    (pairing_id, session_id),
                ),
                Err(_) => {
                    &&& answer matches Err(refused)
                    &&& refused.status == 401 || refused.status == 404
                    &&& v.pairings.contains_key(pairing_id) ==> refused.status == 401
                        && refused.body == (BodyView::Error { code: "reauth_required"@ })
                },
            }
        }),
{
}

/// A request that is too large, or names no pairing, is refused, whatever cookies it has.
pub proof fn law_bad_request_is_refused(
    v: StateView,
    origin: Option<Seq<char>>,
    body_len: usize,
    pairing_text: Seq<char>,
    cookie: Option<Seq<char>>,
    now: Moment,
)
    requires
        reply::origin_ok(origin, v.origin),
    ensures
        body_len > 256 ==> (web::gate(v, origin, body_len, pairing_text, cookie, now) matches Err(r)
            && r.status == 413),
        body_len <= 256 && ids::uuid_parse(pairing_text) is None ==> (web::gate(
            v,
            origin,
            body_len,
            pairing_text,
            cookie,
            now,
        ) matches Err(r) && r.status == 400),
{
}

/// The server after a PC client has subscribed, as far as pairings and sessions go.
pub open spec fn subscribed(
    v: StateView,
    id: Id,
    token: Seq<char>,
    grpc_token: Seq<char>,
    fresh_secret: Seq<u8>,
    channel: u64,
    capabilities: u32,
    now: Moment,
) -> StateView {
    StateView {
        pairings: v.pairings.insert(
            id,
            relay::joined(
                v.pairings,
                id,
                token,
                fresh_secret,
                v.config.pairing_ttl_secs,
                now,
            ),
        ),
        sessions: v.sessions.insert(
            token,
            relay::fresh_session(token, grpc_token, id, channel, capabilities, now),
        ),
        ..v
    }
}

/// Subscribing to a pairing that exists changes neither its secret nor its epoch nor its phone's
/// connection, and no other pairing at all: every cookie and every ticket is worth as much as before,
/// every connection stands as it stood, and the code that was shown before still opens.
pub proof fn law_subscribing_keeps_the_phone(
    v: StateView,
    id: Id,
    token: Seq<char>,
    grpc_token: Seq<char>,
    fresh_secret: Seq<u8>,
    channel: u64,
    capabilities: u32,
    now: Moment,
    other: Id,
    cookie: Option<Seq<char>>,
    ticket: TicketView,
    session_id: Seq<u8>,
    connection_id: Id,
    later: Moment,
    origin: Option<Seq<char>>,
    body_len: usize,
    pairing_text: Seq<char>,
    secret: Option<Seq<char>>,
)
    requires
        v.pairings.contains_key(id),
    ensures
        ({
            let w = subscribed(
                v,
                id,
                token,
                grpc_token,
                fresh_secret,
                channel,
                capabilities,
                now,
            );
            &&& w.pairings.dom() == v.pairings.dom()
            &&& w.pairings[id].pairing_secret == v.pairings[id].pairing_secret
            &&& w.pairings[id].epoch == v.pairings[id].epoch
            &&& w.pairings[id].active_mobile_ws == v.pairings[id].active_mobile_ws
            &&& w.pairings[id].pairing_id == v.pairings[id].pairing_id
            &&& v.pairings.contains_key(other) && other != id ==> w.pairings[other]
                == v.pairings[other]
            &&& web::auth(w, other, cookie, later) == web::auth(v, other, cookie, later)
            &&& web::ticket_admits(w, ticket, other, later) == web::ticket_admits(
                v,
                ticket,
                other,
                later,
            )
            &&& web::ws_fault(w, other, session_id, connection_id, later) == web::ws_fault(
                v,
                other,
                session_id,
                connection_id,
                later,
            )
            &&& web::bootstrap_error(w, origin, body_len, pairing_text, secret)
                == web::bootstrap_error(v, origin, body_len, pairing_text, secret)
        }),
{
    let w = subscribed(v, id, token, grpc_token, fresh_secret, channel, capabilities, now);
    assert(w.pairings.dom() =~= v.pairings.dom());
}

/// A PC client that subscribes is online, is the one that events for the pairing go to, by the
/// channel and with the abilities that it came with, and is known by the secret that it was given; its
/// pairing is kept as long as it stays.
pub proof fn law_subscriber_gets_the_events(
    v: StateView,
    id: Id,
    token: Seq<char>,
    grpc_token: Seq<char>,
    fresh_secret: Seq<u8>,
    channel: u64,
    capabilities: u32,
    now: Moment,
    found: Option<Seq<char>>,
    later: Moment,
)
    ensures
        ({
            let w = subscribed(
                v,
                id,
                token,
                grpc_token,
                fresh_secret,
                channel,
                capabilities,
                now,
            );
            &&& w.pairings[id].online
            &&& w.pairings[id].pairing_id == id || v.pairings.contains_key(id)
            &&& w.pairings[id].last_seen == now
            &&& relay::is_latest(w.sessions, w.pairings, id, found) ==> found == Some(token)
            &&& relay::is_latest(w.sessions, w.pairings, id, Some(token))
            &&& relay::client_of(w.sessions, Some(token)) == Some((channel, capabilities))
            &&& w.sessions[token].pairing_id == Some(id)
            &&& w.sessions[token].grpc_session_token == grpc_token
            &&& w.sessions[token].mobile_control_tx is None
            &&& relay::proves(w.sessions, grpc_token, Some(token))
            &&& pairing::pairing_kept(w.pairings[id], later)
            &&& pairing::session_kept(w.sessions[token], 0, later)
            &&& forall|t: Seq<char>|
                t != token ==> (#[trigger] w.sessions.contains_key(t)
                    <==> v.sessions.contains_key(t)) && w.sessions[t] == v.sessions[t]
        }),
{
}

/// A pairing that a PC client subscribes to is kept for as long as the configuration says, even where
/// nothing is heard of the client after; and a pairing that was not there before begins in its first
/// epoch, with the given secret, and without a phone.
pub proof fn law_subscribing_makes_the_pairing_last(
    v: StateView,
    id: Id,
    token: Seq<char>,
    grpc_token: Seq<char>,
    fresh_secret: Seq<u8>,
    channel: u64,
    capabilities: u32,
    now: Moment,
    later: Moment,
)
    requires
        clock::in_range(now + v.config.pairing_ttl_secs * 1_000_000_000),
    ensures
        ({
            let w = subscribed(
                v,
                id,
                token,
                grpc_token,
                fresh_secret,
                channel,
                capabilities,
                now,
            );
            let silent = PairingView { online: false, active_mobile_ws: None, ..w.pairings[id] };
            &&& pairing::pairing_kept(silent, later) <==> later < now + v.config.pairing_ttl_secs
                * 1_000_000_000
            &&& !v.pairings.contains_key(id) ==> {
                &&& w.pairings[id].epoch == 0
                &&& w.pairings[id].pairing_id == id
                &&& w.pairings[id].pairing_secret == fresh_secret
                &&& w.pairings[id].active_mobile_ws is None
            }
        }),
{
}

/// The address that a PC client is given opens the pairing: it names the pairing and, behind the
/// number sign, the secret with which a phone is let in from then on.
pub proof fn law_given_address_opens(
    v: StateView,
    id: Id,
    token: Seq<char>,
    grpc_token: Seq<char>,
    fresh_secret: Seq<u8>,
    channel: u64,
    capabilities: u32,
    now: Moment,
    origin: Option<Seq<char>>,
    body_len: usize,
    pairing_text: Seq<char>,
    base: Seq<char>,
)
    requires
        fresh_secret.len() == 32,
        v.pairings.contains_key(id) ==> v.pairings[id].pairing_secret.len() == 32,
        reply::origin_ok(origin, v.origin),
        body_len <= 1024,
        ids::uuid_parse(pairing_text) == Some(id),
        base.len() > 0,
        base.last() != '/',
    ensures
        ({
            let w = subscribed(
                v,
                id,
                token,
                grpc_token,
                fresh_secret,
                channel,
                capabilities,
                now,
            );
            let secret = w.pairings[id].pairing_secret;
            &&& relay::pairing_url(base, id, secret) == base + "/m/"@ + ids::uuid_text(id) + "#ps="@
                + pairing::hex_of(secret)
            &&& relay::pairing_url(base + "/"@, id, secret) == relay::pairing_url(base, id, secret)
            &&& web::bootstrap_error(
                w,
                origin,
                body_len,
                pairing_text,
                Some(pairing::hex_of(secret)),
            ) is None
            &&& !v.pairings.contains_key(id) ==> secret == fresh_secret
        }),
{
    let w = subscribed(v, id, token, grpc_token, fresh_secret, channel, capabilities, now);
    let secret = w.pairings[id].pairing_secret;
    pairing::law_hex_round_trip(secret, secret);
    reveal_strlit("/");
    assert((base + "/"@).drop_last() =~= base);
}

/// A PC client is let in exactly where it shows the shared secret and names a pairing.
pub proof fn law_subscribing_needs_the_shared_secret(
    config: ServerConfig,
    auth_token: Seq<char>,
    pairing_text: Seq<char>,
)
    ensures
        relay::subscribe_error(config, auth_token, pairing_text) is None <==> auth_token
            == config.grpc_auth_token@ && ids::uuid_parse(pairing_text) is Some,
        auth_token != config.grpc_auth_token@ ==> (relay::subscribe_error(
            config,
            auth_token,
            pairing_text,
        ) matches Some(e) && e.is_unauthenticated()),
        auth_token == config.grpc_auth_token@ && ids::uuid_parse(pairing_text) is None ==> (
        relay::subscribe_error(config, auth_token, pairing_text) matches Some(e)
            && !e.is_unauthenticated()),
{
}

/// A PC client that leaves changes neither the secret nor the epoch of any pairing, and no phone's
/// connection: every cookie is worth as much as before, every connection stands as it stood, and the
/// code that was shown still opens, so that a phone goes on with the PC when that comes back.
pub proof fn law_leaving_keeps_the_phone(
    v: StateView,
    w: StateView,
    token: Seq<char>,
    ttl_secs: u64,
    now: Moment,
    told: Option<u64>,
    id: Id,
    cookie: Option<Seq<char>>,
    session_id: Seq<u8>,
    connection_id: Id,
    later: Moment,
    origin: Option<Seq<char>>,
    body_len: usize,
    pairing_text: Seq<char>,
    secret: Option<Seq<char>>,
)
    requires
        relay::is_disconnect(
            v.sessions,
            v.pairings,
            w.sessions,
            w.pairings,
            token,
            ttl_secs,
            now,
            told,
        ),
        w.browsers == v.browsers,
        w.tickets == v.tickets,
        w.origin == v.origin,
    ensures
        w.pairings.contains_key(id) <==> v.pairings.contains_key(id),
        v.pairings.contains_key(id) ==> {
            &&& w.pairings[id].pairing_secret == v.pairings[id].pairing_secret
            &&& w.pairings[id].epoch == v.pairings[id].epoch
            &&& w.pairings[id].active_mobile_ws == v.pairings[id].active_mobile_ws
            &&& w.pairings[id].pairing_id == v.pairings[id].pairing_id
        },
        v.pairings.contains_key(id) && (!v.sessions.contains_key(token)
            || v.sessions[token].pairing_id != Some(id)) ==> w.pairings[id] == v.pairings[id],
        web::auth(w, id, cookie, later) == web::auth(v, id, cookie, later),
        web::ws_fault(w, id, session_id, connection_id, later) == web::ws_fault(
            v,
            id,
            session_id,
            connection_id,
            later,
        ),
        web::bootstrap_error(w, origin, body_len, pairing_text, secret) == web::bootstrap_error(
            v,
            origin,
            body_len,
            pairing_text,
            secret,
        ),
{
}

/// When the last PC client of a pairing leaves, the pairing is offline, is kept for as long as the
/// configuration says, and its phone is told. While another is there, that one gets the events from
/// then on and the phone is told nothing.
pub proof fn law_last_client_takes_the_pairing_offline(
    sessions: Map<Seq<char>, SessionView>,
    pairings: Map<Id, PairingView>,
    sessions2: Map<Seq<char>, SessionView>,
    pairings2: Map<Id, PairingView>,
    token: Seq<char>,
    ttl_secs: u64,
    now: Moment,
    told: Option<u64>,
    id: Id,
    later: Moment,
)
    requires
        relay::is_disconnect(
            sessions,
            pairings,
            sessions2,
            pairings2,
            token,
            ttl_secs,
            now,
            told,
        ),
        sessions.contains_key(token),
        sessions[token].pairing_id == Some(id),
        pairings.contains_key(id),
        pairings[id].active_session_token == Some(token),
        clock::in_range(now + ttl_secs * 1_000_000_000),
    ensures
        !sessions2.contains_key(token),
        (forall|t: Seq<char>| #[trigger]
            sessions2.contains_key(t) ==> sessions2[t].pairing_id != Some(id)) ==> {
            &&& !pairings2[id].online
            &&& pairings2[id].active_session_token is None
            &&& told == sessions[token].mobile_control_tx
            &&& later < now + ttl_secs * 1_000_000_000 ==> pairing::pairing_kept(
                pairings2[id],
                later,
            )
            &&& later >= now + ttl_secs * 1_000_000_000 && pairings[id].active_mobile_ws is None
                ==> !pairing::pairing_kept(pairings2[id], later)
        },
        (exists|t: Seq<char>| #[trigger]
            sessions2.contains_key(t) && sessions2[t].pairing_id == Some(id)) ==> {
            &&& pairings2[id].online == pairings[id].online
            &&& told is None
            &&& pairings2[id].active_session_token matches Some(next) && sessions2.contains_key(
                next,
            ) && sessions2[next].pairing_id == Some(id) && relay::is_latest(
                sessions2,
                pairings2,
                id,
                Some(next),
            )
        },
        forall|t: Seq<char>|
            t != token && sessions.contains_key(t) ==> {
                &&& #[trigger] sessions2.contains_key(t)
                &&& sessions2[t].client_tx == sessions[t].client_tx
                &&& sessions2[t].pairing_id == sessions[t].pairing_id
                &&& sessions2[t].grpc_session_token == sessions[t].grpc_session_token
                &&& sessions2[t].client_capabilities == sessions[t].client_capabilities
                &&& sessions[t].mobile_control_tx is Some ==> sessions2[t] == sessions[t]
            },
{
    let successor = choose|successor: Option<Seq<char>>|
        {
            &&& #[trigger] relay::is_successor(sessions, pairings, token, successor)
            &&& sessions2 == relay::sessions_after(sessions, token, successor)
            &&& pairings2 == relay::pairings_after(
                pairings,
                sessions[token].pairing_id,
                successor,
                ttl_secs,
                now,
            )
            &&& told == if successor is Some {
                None
            } else {
                sessions[token].mobile_control_tx
            }
        };
    let rest = sessions.remove(token);
    assert(relay::is_latest(rest, pairings, id, successor));
    assert(relay::named_session(rest, pairings, id) is None);
    if let Some(t) = successor {
        assert(rest.contains_key(t) && relay::belongs(rest[t], id));
        assert(sessions2.contains_key(t) && sessions2[t].pairing_id == Some(id));
    } else {
        assert(sessions2 == rest);
        assert forall|t: Seq<char>| #[trigger] sessions2.contains_key(t) implies
            sessions2[t].pairing_id != Some(id) by {
            assert(rest.contains_key(t));
            assert(!relay::belongs(rest[t], id));
        }
    }
}

/// The phone of a PC client that leaves is handed on to the session that takes its place.
pub proof fn law_phone_is_handed_on(
    sessions: Map<Seq<char>, SessionView>,
    token: Seq<char>,
    next: Seq<char>,
)
    requires
        sessions.contains_key(token),
        sessions.contains_key(next),
        next != token,
    ensures
        ({
            let after = relay::sessions_after(sessions, token, Some(next));
            sessions[next].mobile_control_tx is None ==> after[next].mobile_control_tx
                == sessions[token].mobile_control_tx && after[next].ws_active
                == sessions[token].ws_active
        }),
{
}

/// A ping is a sign of life: the pairing of the client was seen now, and nothing else of any pairing
/// changes.
pub proof fn law_ping_is_a_sign_of_life(
    sessions: Map<Seq<char>, SessionView>,
    pairings: Map<Id, PairingView>,
    token: Seq<char>,
    id: Id,
    now: Moment,
    other: Id,
)
    requires
        sessions[token].pairing_id == Some(id),
        pairings.contains_key(id),
    ensures
        ({
            let after = relay::seen(sessions, pairings, Some(token), now);
            &&& after.dom() == pairings.dom()
            &&& after[id] == (PairingView { last_seen: now, ..pairings[id] })
            &&& other != id ==> after[other] == pairings[other]
            &&& relay::seen(sessions, pairings, None, now) == pairings
        }),
{
    let after = relay::seen(sessions, pairings, Some(token), now);
    assert(after.dom() =~= pairings.dom());
}

/// A phone is let in exactly where it comes from the server's own page, is not too wordy, names a
/// pairing that there is, and shows that pairing's secret. Whether the pairing is there or the secret
/// is wrong, nobody is told.
pub proof fn law_secret_lets_in(
    v: StateView,
    origin: Option<Seq<char>>,
    body_len: usize,
    pairing_text: Seq<char>,
    id: Id,
    secret: Seq<u8>,
)
    requires
        reply::origin_ok(origin, v.origin),
        body_len <= 1024,
        ids::uuid_parse(pairing_text) == Some(id),
        secret.len() == 32,
    ensures
        ({
            let refused = web::bootstrap_error(
                v,
                origin,
                body_len,
                pairing_text,
                Some(pairing::hex_of(secret)),
            );
            &&& refused is None <==> v.pairings.contains_key(id) && v.pairings[id].pairing_secret
                == secret
            &&& refused is Some ==> refused == Some((404u16, "pairing_not_found_or_invalid"@))
            &&& web::bootstrap_error(v, origin, body_len, pairing_text, None) == Some(
                (400u16, "invalid_format"@),
            )
        }),
        forall|len: usize|
            len > 1024 ==> (#[trigger] web::bootstrap_error(
                v,
                origin,
                len,
                pairing_text,
                Some(pairing::hex_of(secret)),
            ) matches Some((status, _)) && status == 413),
{
    pairing::law_hex_round_trip(secret, secret);
    if v.pairings.contains_key(id) && pairing::hex_of(secret) == pairing::hex_of(
        v.pairings[id].pairing_secret,
    ) {
        pairing::lemma_hex_injective(secret, v.pairings[id].pairing_secret);
    }
}

/// A phone that was let in is known by its cookie for thirty days, and then no longer, as long as its
/// pairing is not revoked and no other phone takes its place.
pub proof fn law_phone_is_known_for_thirty_days(
    v: StateView,
    id: Id,
    session_id: Seq<u8>,
    secret: Seq<u8>,
    at: Clock,
    now: Moment,
)
    requires
        v.pairings.contains_key(id),
        session_id.len() == 32,
        clock::in_range(at.moment + 2_592_000 * 1_000_000_000),
    ensures
        ({
            let w = web::bootstrapped(v, id, session_id, secret, at);
            &&& now < at.moment + 2_592_000 * 1_000_000_000 ==> web::auth(
                w,
                id,
                cookie_of(session_id),
                now,
            ) == Ok::<Seq<u8>, u16>(session_id)
            &&& now >= at.moment + 2_592_000 * 1_000_000_000 ==> web::auth(
                w,
                id,
                cookie_of(session_id),
                now,
            ) is Err
        }),
{
    let w = web::bootstrapped(v, id, session_id, secret, at);
    law_good_session_is_let_in(w, id, session_id, now);
}

/// Letting a phone in changes the pairing's secret, so that the next phone is let in with the new one,
/// ends the connection that the last phone had, and puts off the pairing's end. The epoch, the PC
/// client and what it is told stay as they are; so do other pairings with their phones, all sessions
/// and all files.
pub proof fn law_letting_in_keeps_the_pc(
    v: StateView,
    id: Id,
    session_id: Seq<u8>,
    secret: Seq<u8>,
    at: Clock,
    other: Id,
    found: Option<Seq<char>>,
    origin: Option<Seq<char>>,
    body_len: usize,
    pairing_text: Seq<char>,
    later: Moment,
)
    requires
        v.pairings.contains_key(id),
        secret.len() == 32,
        clock::in_range(at.moment + v.config.pairing_ttl_secs * 1_000_000_000),
    ensures
        ({
            let w = web::bootstrapped(v, id, session_id, secret, at);
            &&& w.pairings.dom() == v.pairings.dom()
            &&& w.pairings[id].epoch == v.pairings[id].epoch
            &&& w.pairings[id].online == v.pairings[id].online
            &&& w.pairings[id].pairing_id == v.pairings[id].pairing_id
            &&& w.pairings[id].active_session_token == v.pairings[id].active_session_token
            &&& w.pairings[id].active_mobile_ws is None
            &&& other != id ==> w.pairings[other] == v.pairings[other]
            &&& forall|s: Seq<u8>|
                s != session_id && v.browsers.contains_key(s) && v.browsers[s].pairing_id != id
                    ==> #[trigger] w.browsers.contains_key(s) && w.browsers[s] == v.browsers[s]
            &&& forall|t: Seq<u8>|
                v.tickets.contains_key(t) && v.tickets[t].pairing_id != id
                    ==> #[trigger] w.tickets.contains_key(t) && w.tickets[t] == v.tickets[t]
            &&& w.sessions == v.sessions && w.uploads == v.uploads && w.config == v.config
                && w.origin == v.origin
            &&& relay::is_latest(w.sessions, w.pairings, other, found) <==> relay::is_latest(
                v.sessions,
                v.pairings,
                other,
                found,
            )
            &&& reply::origin_ok(origin, v.origin) && body_len <= 1024 && ids::uuid_parse(
                pairing_text,
            ) == Some(id) ==> web::bootstrap_error(
                w,
                origin,
                body_len,
                pairing_text,
                Some(pairing::hex_of(secret)),
            ) is None
            &&& later < at.moment + v.config.pairing_ttl_secs * 1_000_000_000
                ==> pairing::pairing_kept(w.pairings[id], later)
        }),
{
    let w = web::bootstrapped(v, id, session_id, secret, at);
    assert(w.pairings.dom() =~= v.pairings.dom());
    pairing::law_hex_round_trip(secret, secret);
    assert(relay::named_session(w.sessions, w.pairings, other) == relay::named_session(
        v.sessions,
        v.pairings,
        other,
    ));
}

/// The reply to a phone that was let in gives it its cookie, which scripts cannot read and other sites
/// cannot send, for as long as the session lasts; where there is TLS the browser sends it only with
/// TLS. It says whether the PC is there.
pub proof fn law_cookie_is_given(p: PairingView, session_id: Seq<u8>)
    ensures
        ({
            let answer = web::bootstrap_reply(p, session_id, false);
            &&& answer.status == 200
            &&& answer.body == (BodyView::Bootstrapped {
                online: p.online,
                pairing_epoch: p.epoch,
            })
            &&& answer.headers.contains(
                (
                    "set-cookie"@,
                    "__Host-qr_paste_browser_session"@ + "="@ + pairing::hex_of(session_id)
                        + "; HttpOnly; Secure; SameSite=Strict; Path=/; Max-Age=2592000"@,
                ),
            )
        }),
        ({
            let answer = web::bootstrap_reply(p, session_id, true);
            answer.status == 200 && answer.headers.contains(
                (
                    "set-cookie"@,
                    "qr_paste_browser_session"@ + "="@ + pairing::hex_of(session_id)
                        + "; HttpOnly; SameSite=Strict; Path=/; Max-Age=2592000"@,
                ),
            )
        }),
{
    let answer = web::bootstrap_reply(p, session_id, false);
    assert(answer.headers[3].0 == "set-cookie"@);
    let plain = web::bootstrap_reply(p, session_id, true);
    assert(plain.headers[3].0 == "set-cookie"@);
}

/// The PC client that is connected is told the new address, by its own channel, and the address opens;
/// where none is connected nobody is told.
pub proof fn law_pc_learns_the_new_address(
    v: StateView,
    id: Id,
    token: Seq<char>,
    secret: Seq<u8>,
    notice: Option<Notice>,
)
    requires
        web::tells_new_url(v, id, Some(token), secret, notice),
        v.config.public_base_url@.len() > 0,
        v.config.public_base_url@.last() != '/',
    ensures
        v.sessions[token].client_tx matches Some(channel) ==> {
            &&& notice matches Some(n)
            &&& n.client_tx == channel
            &&& n.event.event matches Some(Event::SessionToken { token: told, url })
            &&& told@ == token
            &&& url@ == v.config.public_base_url@ + "/m/"@ + ids::uuid_text(id) + "#ps="@
                + pairing::hex_of(secret)
        },
        v.sessions[token].client_tx is None ==> notice is None,
{
}

/// A ticket opens a connection for the browser session that it was given to, within fifteen seconds,
/// exactly where the session is good and the pairing is still in the epoch in which the ticket was
/// given, whatever connection the pairing may have; and then it is used up.
pub proof fn law_ticket_opens_a_connection(
    v: StateView,
    pairing_text: Seq<char>,
    id: Id,
    session_id: Seq<u8>,
    issued: Moment,
    ticket_id: Seq<u8>,
    shown: Seq<char>,
    origin: Option<Seq<char>>,
    now: Moment,
    open: usize,
)
    requires
        ids::uuid_parse(pairing_text) == Some(id),
        reply::origin_ok(origin, v.origin),
        reply::ticket_of(shown) == Some(ticket_id),
        v.pairings.contains_key(id),
        v.tickets.contains_key(ticket_id),
        v.tickets[ticket_id] == web::fresh_ticket(
            session_id,
            id,
            v.pairings[id].epoch,
            issued,
        ),
        v.browsers.contains_key(session_id) ==> v.browsers[session_id].session_id == session_id,
        clock::in_range(issued + 15 * 1_000_000_000),
        open < v.config.max_ws_connections,
    ensures
        ({
            let (answer, left) = web::admission(
                v,
                pairing_text,
                Some(Some(shown)),
                origin,
                now,
                open,
            );
            &&& answer is Ok <==> now < issued + 15 * 1_000_000_000 && is_good(
                v,
                id,
                session_id,
                now,
            )
            &&& answer is Ok ==> answer == Ok::<(Id, Seq<u8>), ReplyView>((id, session_id))
            &&& answer matches Err(refused) ==> refused.status == 401
            &&& now < issued + 15 * 1_000_000_000 ==> left == v.tickets.remove(ticket_id)
        }),
{
}

/// A ticket for one pairing opens nothing of another, and one that was not given out opens nothing.
pub proof fn law_ticket_is_for_its_pairing(
    v: StateView,
    pairing_text: Seq<char>,
    id: Id,
    ticket_id: Seq<u8>,
    shown: Seq<char>,
    origin: Option<Seq<char>>,
    now: Moment,
    open: usize,
)
    requires
        ids::uuid_parse(pairing_text) == Some(id),
        reply::origin_ok(origin, v.origin),
        reply::ticket_of(shown) == Some(ticket_id),
        !v.tickets.contains_key(ticket_id) || v.tickets[ticket_id].pairing_id != id,
    ensures
        web::admission(v, pairing_text, Some(Some(shown)), origin, now, open).0 matches Err(r)
            && r.status == 401,
{
}

/// A connection is closed for three reasons only: another has taken its place, its session is over, or
/// its pairing was revoked. One that is the pairing's own, of a good session, is served on.
pub proof fn law_connection_is_served_on(
    v: StateView,
    id: Id,
    session_id: Seq<u8>,
    connection_id: Id,
    control_tx: u64,
    now: Moment,
)
    requires
        v.pairings.contains_key(id),
        v.browsers.contains_key(session_id),
        v.browsers[session_id].pairing_id == id,
    ensures
        ({
            let fault = web::ws_fault(v, id, session_id, connection_id, now);
            let mine = v.pairings[id].active_mobile_ws is None || v.pairings[id].active_mobile_ws->0
                .connection_id == connection_id;
            &&& fault is None <==> mine && is_good(v, id, session_id, now)
            &&& !mine ==> fault == Some(4001u16)
            &&& mine && (v.browsers[session_id].revoked || v.browsers[session_id].expires_at <= now)
                ==> fault == Some(4003u16)
            &&& mine && !v.browsers[session_id].revoked && v.browsers[session_id].expires_at > now
                && v.browsers[session_id].pairing_epoch != v.pairings[id].epoch ==> fault == Some(
                4002u16,
            )
        }),
{
}

/// Why a connection stands or falls depends on the pairing's connection and epoch and on the browser
/// session, and on nothing else.
pub proof fn law_connection_depends_on_the_session_alone(
    v: StateView,
    w: StateView,
    id: Id,
    session_id: Seq<u8>,
    connection_id: Id,
    now: Moment,
)
    requires
        v.browsers == w.browsers,
        v.pairings.contains_key(id) <==> w.pairings.contains_key(id),
        v.pairings.contains_key(id) ==> v.pairings[id].epoch == w.pairings[id].epoch
            && v.pairings[id].active_mobile_ws == w.pairings[id].active_mobile_ws,
    ensures
        web::ws_fault(v, id, session_id, connection_id, now) == web::ws_fault(
            w,
            id,
            session_id,
            connection_id,
            now,
        ),
{
}

/// A text that comes in on a connection that stands is passed on to the pairing's PC client, whole and
/// by its channel; where there is no PC client the phone is told so. An empty text is nothing.
pub proof fn law_text_is_passed_on(
    v: StateView,
    link: PhoneLink,
    len: usize,
    content: String,
    now: Moment,
    action: LinkAction,
    token: Seq<char>,
    channel: u64,
    capabilities: u32,
)
    requires
        len <= v.config.max_message_size_bytes,
        web::ws_fault(
            v,
            link.pairing_id,
            link.browser_session_id@,
            link.connection_id,
            now,
        ) is None,
        ws::is_step(
            v,
            link,
            LinkEvent::Text { len, message: Some(MobileMessage::ClipboardText { content }) },
            now,
            action,
        ),
    ensures
        content@.len() == 0 ==> action is Wait,
        content@.len() > 0 && v.pairings.contains_key(link.pairing_id)
            && v.pairings[link.pairing_id].active_session_token == Some(token)
            && v.sessions.contains_key(token) && v.sessions[token].client_tx == Some(channel) ==> {
            &&& action matches LinkAction::Forward(notice)
            &&& notice.client_tx == channel
            &&& notice.event.event matches Some(Event::ClipboardText { content: sent })
            &&& sent@ == content@
        },
        content@.len() > 0 && (forall|t: Seq<char>| #[trigger]
            v.sessions.contains_key(t) ==> v.sessions[t].pairing_id != Some(link.pairing_id))
            && v.pairings.contains_key(link.pairing_id)
            && v.pairings[link.pairing_id].active_session_token is None ==> {
            &&& action matches LinkAction::SendAndStop(message)
            &&& message is ClientDisconnected
        },
{
    let event = EventView::ClipboardText { content: content@ };
    let id = link.pairing_id;
    if content@.len() > 0 {
        if v.pairings.contains_key(id) && v.pairings[id].active_session_token == Some(token)
            && v.sessions.contains_key(token) {
            assert(relay::named_session(v.sessions, v.pairings, id) == Some(token));
            assert forall|found: Option<Seq<char>>| #[trigger]
                relay::is_latest(v.sessions, v.pairings, id, found) implies found == Some(
                token,
            ) by {}
        }
    }
}

/// What else comes in: an order is carried out, a message for the phone is passed on as it is, silence
/// and the end stop the connection, a message that is too long stops it, one that cannot be read is
/// answered, and a ping is held against the limiter. Nothing of a connection that has a fault is
/// passed on.
pub proof fn law_link_does_as_told(
    v: StateView,
    link: PhoneLink,
    event: LinkEvent,
    now: Moment,
    action: LinkAction,
)
    requires
        ws::is_step(v, link, event, now, action),
    ensures
        event matches LinkEvent::Control(Some(order)) ==> action == LinkAction::Close(order),
        event matches LinkEvent::ForPhone(Some(message)) ==> (action matches LinkAction::PassOn(
            passed,
        ) && passed@ == message@),
        event is Idle || event is Ended ==> action is Stop,
        event is Other ==> action is Wait,
        event == LinkEvent::Control(None) || event == LinkEvent::ForPhone(None) ==> action is Stop,
        event matches LinkEvent::Text { len, message } ==> {
            let fault = web::ws_fault(
                v,
                link.pairing_id,
                link.browser_session_id@,
                link.connection_id,
                now,
            );
            &&& len > v.config.max_message_size_bytes ==> action is Stop
            &&& len <= v.config.max_message_size_bytes && fault is Some ==> (
            action matches LinkAction::Close(WsControl::Close { code, reason }) && Some(code)
                == fault)
            &&& len <= v.config.max_message_size_bytes && fault is None && message is None
                ==> action is Send
            &&& len <= v.config.max_message_size_bytes && fault is None && message
                == Some(MobileMessage::Ping) ==> action is AskLimiter
            &&& action is Forward ==> len <= v.config.max_message_size_bytes && fault is None
        },
{
}

/// A connection that ends is forgotten by its pairing and by the session that noted it, and by nobody
/// else; the pairing's secret, epoch and PC client, and every phone's session, stay as they are.
pub proof fn law_ended_connection_is_forgotten(v: StateView, link: PhoneLink, other: Id)
    requires
        v.pairings.contains_key(link.pairing_id),
        v.pairings[link.pairing_id].active_mobile_ws matches Some(handle) && handle.connection_id
            == link.connection_id,
    ensures
        ({
            let w = ws::closed(v, link);
            let id = link.pairing_id;
            &&& w.pairings[id].active_mobile_ws is None
            &&& w.pairings[id].pairing_secret == v.pairings[id].pairing_secret
            &&& w.pairings[id].epoch == v.pairings[id].epoch
            &&& w.pairings[id].online == v.pairings[id].online
            &&& w.pairings[id].expires_at == v.pairings[id].expires_at
            &&& w.pairings[id].active_session_token == v.pairings[id].active_session_token
            &&& other != id ==> w.pairings[other] == v.pairings[other]
            &&& w.pairings.dom() == v.pairings.dom()
            &&& w.browsers == v.browsers && w.tickets == v.tickets && w.uploads == v.uploads
            &&& forall|t: Seq<char>|
                (#[trigger] w.sessions.contains_key(t) <==> v.sessions.contains_key(t)) && (
                v.sessions.contains_key(t) ==> w.sessions[t].client_tx == v.sessions[t].client_tx
                    && w.sessions[t].pairing_id == v.sessions[t].pairing_id)
            &&& link.session_token matches Some(t) ==> (v.sessions.contains_key(t@)
                && v.sessions[t@].mobile_control_tx == Some(link.mobile_control_tx)
                ==> !w.sessions[t@].ws_active && w.sessions[t@].mobile_control_tx is None)
        }),
{
    let w = ws::closed(v, link);
    assert(w.pairings.dom() =~= v.pairings.dom());
}

/// A pairing is revoked exactly by a PC client of its own, that shows its session's secret and does
/// not ask too often.
pub proof fn law_only_the_pc_revokes(
    v: StateView,
    id: Id,
    limited: bool,
    found: Option<Seq<char>>,
)
    ensures
        web::revoke_error(v, id, limited, found) is None <==> !limited && found is Some
            && v.sessions[found->0].pairing_id == Some(id) && v.pairings.contains_key(id),
        limited ==> (web::revoke_error(v, id, limited, found) matches Some((status, _)) && status
            == 429),
        !limited && found is None ==> (web::revoke_error(v, id, limited, found) matches Some(
            (status, _),
        ) && status == 401),
        !limited && found is Some && v.sessions[found->0].pairing_id != Some(id) ==> (
        web::revoke_error(v, id, limited, found) matches Some((status, _)) && status == 403),
{
}

/// After a revocation the pairing is in the next epoch and has another secret, with which a phone is
/// let in again; the old one opens nothing. The PC client stays as it was, and so does every other
/// pairing with its phones.
pub proof fn law_revoked_pairing_begins_anew(
    v: StateView,
    id: Id,
    secret: Seq<u8>,
    at: Clock,
    other: Id,
    cookie: Option<Seq<char>>,
    now: Moment,
    origin: Option<Seq<char>>,
    body_len: usize,
    pairing_text: Seq<char>,
    session_id: Seq<u8>,
)
    requires
        v.pairings.contains_key(id),
        v.pairings[id].epoch < u64::MAX,
        secret.len() == 32,
        v.pairings[id].pairing_secret.len() == 32,
        session_id.len() == 32,
        reply::origin_ok(origin, v.origin),
        body_len <= 1024,
        ids::uuid_parse(pairing_text) == Some(id),
        clock::in_range(at.moment + 2_592_000 * 1_000_000_000),
        now < at.moment + 2_592_000 * 1_000_000_000,
    ensures
        ({
            let w = web::after_revoke(v, id, secret, at);
            &&& w.pairings.dom() == v.pairings.dom()
            &&& w.pairings[id].epoch == v.pairings[id].epoch + 1
            &&& w.pairings[id].online == v.pairings[id].online
            &&& w.pairings[id].active_session_token == v.pairings[id].active_session_token
            &&& w.pairings[id].pairing_id == v.pairings[id].pairing_id
            &&& w.pairings[id].active_mobile_ws is None
            &&& other != id ==> w.pairings[other] == v.pairings[other] && web::auth(
                w,
                other,
                cookie,
                now,
            ) == web::auth(v, other, cookie, now)
            &&& w.sessions == v.sessions && w.uploads == v.uploads
            &&& web::bootstrap_error(
                w,
                origin,
                body_len,
                pairing_text,
                Some(pairing::hex_of(secret)),
            ) is None
            &&& secret != v.pairings[id].pairing_secret ==> web::bootstrap_error(
                w,
                origin,
                body_len,
                pairing_text,
                Some(pairing::hex_of(v.pairings[id].pairing_secret)),
            ) is Some
            &&& web::auth(
                web::bootstrapped(w, id, session_id, secret, at),
                id,
                cookie_of(session_id),
                now,
            ) == Ok::<Seq<u8>, u16>(session_id)
        }),
{
    let w = web::after_revoke(v, id, secret, at);
    assert(w.pairings.dom() =~= v.pairings.dom());
    law_secret_lets_in(w, origin, body_len, pairing_text, id, secret);
    law_secret_lets_in(w, origin, body_len, pairing_text, id, v.pairings[id].pairing_secret);
    law_phone_is_known_for_thirty_days(w, id, session_id, secret, at, now);
}

/// The phone whose connection has to give way is told so by its own channel; where there is none nobody
/// is told.
pub proof fn law_order_goes_to_the_phone(
    p: PairingView,
    handle: WsHandle,
    code: u16,
    reason: CloseReason,
)
    ensures
        p.active_mobile_ws == Some(handle) ==> web::close_order(p, code, reason) == Some(
            CloseOrder { control_tx: handle.control_tx, control: WsControl::Close { code, reason } },
        ),
        p.active_mobile_ws is None ==> web::close_order(p, code, reason) is None,
{
}

/// A cleanup forgets exactly the pairings that have lapsed while neither their PC nor their phone was
/// connected; of the others it keeps every browser session that lasts and every ticket that lasts. A
/// session of a PC client is kept while anyone is connected to it, for ten seconds while a phone is
/// about to, and else for as long as the configuration says.
pub proof fn law_cleanup_forgets_what_has_lapsed(
    v: StateView,
    gone: Seq<Id>,
    at: Clock,
    id: Id,
    s: Seq<u8>,
    t: Seq<char>,
)
    requires
        cleanup::are_gone(v.pairings, at.moment, gone),
    ensures
        ({
            let w = cleanup::cleaned(v, gone, at);
            let now = at.moment;
            let lapsed = |p: PairingView|
                p.expires_at <= now && !p.online && p.active_mobile_ws is None;
            &&& w.pairings.contains_key(id) <==> v.pairings.contains_key(id) && !lapsed(
                v.pairings[id],
            )
            &&& w.pairings.contains_key(id) ==> w.pairings[id] == v.pairings[id]
            &&& gone.contains(id) <==> v.pairings.contains_key(id) && lapsed(v.pairings[id])
            &&& w.browsers.contains_key(s) <==> v.browsers.contains_key(s)
                && v.browsers[s].expires_at > now && w.pairings.contains_key(
                v.browsers[s].pairing_id,
            )
            &&& w.browsers.contains_key(s) ==> w.browsers[s] == v.browsers[s]
            &&& w.tickets.contains_key(s) <==> v.tickets.contains_key(s) && v.tickets[s].expires_at
                > now && w.pairings.contains_key(v.tickets[s].pairing_id)
            &&& w.tickets.contains_key(s) ==> w.tickets[s] == v.tickets[s]
            &&& w.sessions.contains_key(t) ==> v.sessions.contains_key(t) && w.sessions[t]
                == v.sessions[t]
            &&& v.sessions.contains_key(t) && (v.sessions[t].client_tx is Some
                || v.sessions[t].ws_active) ==> w.sessions.contains_key(t)
            &&& v.sessions.contains_key(t) && v.sessions[t].client_tx is None
                && !v.sessions[t].ws_active && v.sessions[t].created_at <= now && (
            v.sessions[t].upgrade_reserved_at matches Some(begun) ==> begun <= now) ==> (
            w.sessions.contains_key(t) <==> now - v.sessions[t].created_at < (
            v.config.token_expiry_secs + 1) * 1_000_000_000 || (
            v.sessions[t].upgrade_reserved_at matches Some(begun) && now - begun < 11
                * 1_000_000_000))
        }),
{
    let w = cleanup::cleaned(v, gone, at);
    if v.sessions.contains_key(t) {
        let d = at.moment - v.sessions[t].created_at;
        let n = v.config.token_expiry_secs as int;
        assert(d / 1_000_000_000 <= n <==> d < (n + 1) * 1_000_000_000);
        if let Some(begun) = v.sessions[t].upgrade_reserved_at {
            let e = at.moment - begun;
            assert(e / 1_000_000_000 <= 10 <==> e < 11 * 1_000_000_000);
        }
    }
}

/// What a phone was given outlasts a restart: its session, and the pairing with its new secret, are
/// written down in this order behind the order to forget the sessions before it.
pub proof fn law_letting_in_is_written_down(
    v: StateView,
    id: Id,
    session_id: Seq<u8>,
    secret: Seq<u8>,
    at: Clock,
)
    requires
        v.queue.enabled,
        v.queue.queue.len() + 3 <= 1024,
        v.pairings.contains_key(id),
    ensures
        ({
            let written = web::bootstrapped(v, id, session_id, secret, at).queue.queue;
            let n = v.queue.queue.len() as int;
            &&& written.len() == n + 3
            &&& v.queue.queue.is_prefix_of(written)
            &&& written[n] matches TaskView::DeleteBrowserSessionsForPairing { pairing_id }
                && pairing_id == id
            &&& written[n + 1] matches TaskView::SaveBrowserSession {
                session_id: s,
                pairing_id,
                pairing_epoch,
                revoked,
                ..
            } && s == session_id && pairing_id == id && pairing_epoch == v.pairings[id].epoch
                && !revoked
            &&& written[n + 2] matches TaskView::SavePairing { pairing_secret, epoch, .. }
                && pairing_secret == secret && epoch == v.pairings[id].epoch
        }),
{
}

/// A revocation outlasts a restart: the pairing is written down with its new epoch and secret, and its
/// browser sessions are forgotten.
pub proof fn law_revocation_is_written_down(v: StateView, id: Id, secret: Seq<u8>, at: Clock)
    requires
        v.queue.enabled,
        v.queue.queue.len() + 2 <= 1024,
        v.pairings.contains_key(id),
        v.pairings[id].epoch < u64::MAX,
    ensures
        ({
            let written = web::after_revoke(v, id, secret, at).queue.queue;
            let n = v.queue.queue.len() as int;
            &&& written.len() == n + 2
            &&& v.queue.queue.is_prefix_of(written)
            &&& written[n] matches TaskView::SavePairing { pairing_secret, epoch, .. }
                && pairing_secret == secret && epoch == v.pairings[id].epoch + 1
            &&& written[n + 1] matches TaskView::DeleteBrowserSessionsForPairing { pairing_id }
                && pairing_id == id
        }),
{
}

/// Every lasting change of a pairing is numbered: the number goes up by one when a PC client comes, when the
/// last one leaves, when a phone is let in, when its connection ends, and when the pairing is revoked.
pub proof fn law_changes_are_numbered(
    v: StateView,
    id: Id,
    token: Seq<char>,
    secret: Seq<u8>,
    session_id: Seq<u8>,
    ttl_secs: u64,
    at: Clock,
    link: PhoneLink,
)
    requires
        v.pairings.contains_key(id),
        v.pairings[id].revision < u64::MAX,
        link.pairing_id == id,
        v.pairings[id].active_mobile_ws matches Some(handle) && handle.connection_id
            == link.connection_id,
    ensures
        ({
            let next = v.pairings[id].revision + 1;
            let now = at.moment;
            &&& relay::joined(v.pairings, id, token, secret, ttl_secs, now).revision == next
            &&& relay::pairings_after(v.pairings, Some(id), None, ttl_secs, now)[id].revision
                == next
            &&& web::bootstrapped(v, id, session_id, secret, at).pairings[id].revision == next
            &&& web::after_revoke(v, id, secret, at).pairings[id].revision == next
            &&& ws::closed(v, link).pairings[id].revision == next
        }),
{
}

/// A connection that shows no ticket makes no sense, and uses none up: neither one without subprotocols, nor
/// one whose subprotocols hold no ticket, nor one that names no pairing.
pub proof fn law_connection_needs_a_ticket(
    v: StateView,
    pairing_text: Seq<char>,
    shown: Seq<char>,
    origin: Option<Seq<char>>,
    now: Moment,
    open: usize,
)
    requires
        reply::origin_ok(origin, v.origin),
    ensures
        ({
            let (answer, left) = web::admission(v, pairing_text, None, origin, now, open);
            answer matches Err(refused) && refused.status == 400 && left == v.tickets
        }),
        reply::ticket_of(shown) is None || ids::uuid_parse(pairing_text) is None ==> ({
            let (answer, left) = web::admission(
                v,
                pairing_text,
                Some(Some(shown)),
                origin,
                now,
                open,
            );
            answer matches Err(refused) && refused.status == 400 && left == v.tickets
        }),
{
}

/// A single entry is no ticket: the subprotocol has to be named beside it.
pub proof fn law_ticket_stands_beside_the_protocol(shown: Seq<char>)
    requires
        !shown.contains(','),
    ensures
        reply::ticket_of(shown) is None,
{
    text::lemma_first_at(shown, ',');
    let items = text::split_on(shown, ',');
    assert(items =~= seq![shown]);
    assert(items.drop_last() =~= Seq::empty());
    assert(reply::nonempty_tokens(items.drop_last()).len() == 0);
    assert(reply::nonempty_tokens(items).len() <= 1);
}

} // verus!
