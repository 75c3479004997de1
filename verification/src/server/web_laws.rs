//! What holds of the three steps by which a phone is let in.

use crate::clock;
use crate::clock::{Clock, Moment};
use crate::ids;
use crate::ids::Id;
use crate::server::pairing;
use crate::server::pairing::TicketView;
use crate::server::reply;
use crate::server::reply::{FORBIDDEN, UNAUTHORIZED};
use crate::server::web;
use crate::server::web::StateView;
use crate::text;
use vstd::prelude::*;

verus! {

proof fn lemma_first_at_is(s: Seq<char>, c: char, i: int)
    requires
        0 <= i < s.len(),
        s[i] == c,
        forall|j: int| 0 <= j < i ==> s[j] != c,
    ensures
        text::first_at(s, c) == i,
        s.contains(c),
{
    text::lemma_first_at(s, c);
    assert(s.contains(c));
    let f = text::first_at(s, c);
    if f < i {
        assert(s[f] != c);
    }
    if f > i {
        assert(s[i] != c);
    }
}

proof fn lemma_no_sep(s: Seq<char>, c: char)
    requires
        forall|j: int| 0 <= j < s.len() ==> s[j] != c,
    ensures
        text::split_on(s, c) == seq![s],
{
    text::lemma_first_at(s, c);
    if text::first_at(s, c) < s.len() {
        assert(s[text::first_at(s, c)] == c);
    }
}

proof fn lemma_trimmed_is(s: Seq<char>)
    requires
        s.len() > 0,
        !text::is_white(s[0]),
        !text::is_white(s.last()),
    ensures
        text::trimmed(s) == s,
{
}

/// What [`web::cookie_text`] begins with, as a browser sends it back, names the session.
pub proof fn law_cookie_names_session(session_id: Seq<u8>)
    requires
        session_id.len() == 32,
    ensures
        reply::session_cookie(
            Some(reply::BROWSER_SESSION_COOKIE@ + "="@ + pairing::hex_of(session_id)),
        ) == Some(pairing::hex_of(session_id)),
{
    let name = reply::BROWSER_SESSION_COOKIE@;
    let hex = pairing::hex_of(session_id);
    let s = name + "="@ + hex;
    pairing::law_hex_round_trip(session_id, session_id);
    reveal_strlit("__Host-qr_paste_browser_session");
    reveal_strlit("=");
    assert(name.len() == 31);
    assert(s.len() == 96);
    assert forall|j: int| 0 <= j < s.len() implies s[j] != ';' by {
        if j >= 32 {
            assert(s[j] == hex[j - 32]);
            assert(pairing::is_hex_digit(hex[j - 32]));
        }
    }
    lemma_no_sep(s, ';');
    assert(s[95] == hex[63]);
    assert(pairing::is_hex_digit(hex[63]));
    lemma_trimmed_is(s);
    assert(s[31] == '=');
    lemma_first_at_is(s, '=', 31);
    assert(s.take(31) =~= name);
    assert(s.skip(32) =~= hex);
    let items = seq![s];
    assert(items.drop_last() =~= Seq::empty());
    assert(items.last() == s);
    assert(reply::first_cookie(items.drop_last(), name) is None);
    assert(reply::is_cookie(s, name));
    assert(reply::first_cookie(items, name) == Some(hex));
}

/// A ticket that is shown beside a name of the subprotocol is read back.
proof fn lemma_protocol_shows_ticket(name: Seq<char>, ticket: Seq<char>, ticket_id: Seq<u8>)
    requires
        reply::is_protocol(name),
        web::is_ticket_text(ticket, ticket_id),
        ticket_id.len() == 32,
    ensures
        reply::ticket_of(name + ", ticket."@ + ticket) == Some(ticket_id),
{
    let tail = "ticket."@ + ticket;
    let s = name + ", ticket."@ + ticket;
    reveal_strlit(", ticket.");
    reveal_strlit("v1");
    reveal_strlit("qr-paste.v1");
    reveal_strlit("ticket.");
    let n = name.len() as int;
    assert(s.len() == n + 52);
    assert(s[n] == ',');
    assert forall|j: int| 0 <= j < n implies s[j] != ',' by {
        assert(s[j] == name[j]);
    }
    lemma_first_at_is(s, ',', n);
    assert(s.take(n) =~= name);
    let rest = s.skip(n + 1);
    assert(rest.len() == 51);
    assert(rest =~= seq![' '] + tail);
    assert forall|j: int| 0 <= j < rest.len() implies rest[j] != ',' by {
        if j >= 8 {
            assert(rest[j] == ticket[j - 8]);
            assert(reply::is_b64_char(ticket[j - 8]));
        }
    }
    lemma_no_sep(rest, ',');
    let items = text::split_on(s, ',');
    assert(items == seq![name] + seq![rest]);
    assert(items =~= seq![name, rest]);
    lemma_trimmed_is(name);
    assert(rest.last() == ticket[42]);
    assert(reply::is_b64_char(ticket[42]));
    assert(text::trim_end(rest) == rest);
    assert(rest.drop_first() =~= tail);
    assert(tail[0] == 't');
    assert(text::trim_start(tail) == tail);
    assert(text::trimmed(rest) == tail);
    let one = seq![name];
    assert(items.drop_last() =~= one);
    assert(one.drop_last() =~= Seq::empty());
    assert(reply::nonempty_tokens(one.drop_last()) == Seq::<Seq<char>>::empty());
    assert(reply::nonempty_tokens(one) =~= seq![name]);
    let tokens = reply::nonempty_tokens(items);
    assert(tokens =~= seq![name, tail]);
    assert(name[0] != tail[0]);
    assert("ticket."@.is_prefix_of(tail));
    assert(tail.skip(7) =~= ticket);
    assert(!"ticket."@.is_prefix_of(ticket)) by {
        assert(reply::is_b64_char(ticket[6]));
        assert("ticket."@[6] == '.');
    }
    assert(reply::strip_all(ticket, "ticket."@) == ticket);
    assert(reply::strip_all(tail, "ticket."@) == ticket);
}

/// A ticket that is shown beside a name of the subprotocol, the short one or the full one, is read
/// back.
pub proof fn law_protocol_shows_ticket(ticket: Seq<char>, ticket_id: Seq<u8>)
    requires
        web::is_ticket_text(ticket, ticket_id),
        ticket_id.len() == 32,
    ensures
        reply::ticket_of("v1, ticket."@ + ticket) == Some(ticket_id),
        reply::ticket_of("qr-paste.v1, ticket."@ + ticket) == Some(ticket_id),
{
    lemma_protocol_shows_ticket("v1"@, ticket, ticket_id);
    lemma_protocol_shows_ticket("qr-paste.v1"@, ticket, ticket_id);
    reveal_strlit(", ticket.");
    reveal_strlit("v1");
    reveal_strlit("v1, ticket.");
    reveal_strlit("qr-paste.v1");
    reveal_strlit("qr-paste.v1, ticket.");
    assert("v1"@ + ", ticket."@ + ticket =~= "v1, ticket."@ + ticket);
    assert("qr-paste.v1"@ + ", ticket."@ + ticket =~= "qr-paste.v1, ticket."@ + ticket);
}

/// A browser that is let in puts every other browser of the pairing out: no cookie but the new one
/// proves anything for it, none of its tickets is left, and the secret that was used opens nothing
/// any more, unless chance made the new one the same. Other pairings see no difference.
pub proof fn law_bootstrap_voids(
    v: StateView,
    id: Id,
    session_id: Seq<u8>,
    secret: Seq<u8>,
    at: Clock,
    cookie: Option<Seq<char>>,
    now: Moment,
)
    requires
        v.pairings.contains_key(id),
        !v.browsers.contains_key(session_id),
    ensures
        ({
            let w = web::bootstrapped(v, id, session_id, secret, at);
            &&& web::auth(w, id, cookie, now) matches Ok(s) ==> s == session_id
            &&& forall|t: Seq<u8>| #[trigger]
                w.tickets.contains_key(t) ==> w.tickets[t].pairing_id != id
            &&& secret != v.pairings[id].pairing_secret ==> forall|
                origin: Option<Seq<char>>,
                len: usize,
                text: Seq<char>,
            |
                ids::uuid_parse(text) == Some(id) ==> #[trigger] web::bootstrap_error(
                    w,
                    origin,
                    len,
                    text,
                    Some(pairing::hex_of(v.pairings[id].pairing_secret)),
                ) is Some
            &&& forall|other: Id|
                other != id ==> #[trigger] web::auth(w, other, cookie, now) == web::auth(
                    v,
                    other,
                    cookie,
                    now,
                )
        }),
{
    let w = web::bootstrapped(v, id, session_id, secret, at);
    if secret != v.pairings[id].pairing_secret {
        let old_hex = pairing::hex_of(v.pairings[id].pairing_secret);
        if old_hex == pairing::hex_of(secret) {
            pairing::lemma_hex_injective(v.pairings[id].pairing_secret, secret);
        }
        assert(w.pairings[id].pairing_secret == secret);
    }
    match reply::session_cookie(cookie) {
        Some(value) => {
            let key = pairing::unhex(value);
            if key != session_id {
                assert(w.browsers.contains_key(key) <==> v.browsers.contains_key(key)
                    && v.browsers[key].pairing_id != id);
            }
        },
        None => {},
    }
}

/// A revocation puts every browser of the pairing out, as long as the epoch can still go up: what
/// was given out in the epoch that ended, or in one before, proves nothing any more, admits no
/// connection, and keeps none open.
pub proof fn law_revoke_voids(
    v: StateView,
    id: Id,
    secret: Seq<u8>,
    at: Clock,
    cookie: Option<Seq<char>>,
    ticket: TicketView,
    session_id: Seq<u8>,
    connection_id: Id,
    now: Moment,
)
    requires
        v.pairings.contains_key(id),
        v.pairings[id].epoch < u64::MAX,
        forall|s: Seq<u8>| #[trigger]
            v.browsers.contains_key(s) && v.browsers[s].pairing_id == id
                ==> v.browsers[s].pairing_epoch <= v.pairings[id].epoch,
    ensures
        ({
            let w = web::after_revoke(v, id, secret, at);
            &&& web::auth(w, id, cookie, now) == Err::<Seq<u8>, u16>(UNAUTHORIZED)
            &&& web::ticket_admits(w, ticket, id, now) is None
            &&& v.browsers.contains_key(session_id) && v.browsers[session_id].pairing_id == id
                ==> web::ws_fault(w, id, session_id, connection_id, now) is Some
        }),
{
}

/// The answer to a connection that shows no good ticket.
pub open spec fn unauthorized() -> Result<(Id, Seq<u8>), reply::ReplyView> {
    Err(reply::error_reply(UNAUTHORIZED, "unauthorized"@))
}

/// A ticket is good for one request: the first that shows it, from the server's own page and while it
/// lasts, uses it up, whether that request is let in or not, and each later one is unauthorized.
pub proof fn law_ticket_once(
    v: StateView,
    id: Seq<char>,
    shown: Seq<char>,
    origin: Option<Seq<char>>,
    now: Moment,
    open: usize,
    id2: Seq<char>,
    origin2: Option<Seq<char>>,
    now2: Moment,
    open2: usize,
)
    requires
        reply::ticket_of(shown) is Some,
        ids::uuid_parse(id) is Some,
        reply::origin_ok(origin, v.origin),
        v.tickets.contains_key(reply::ticket_of(shown)->0) ==> v.tickets[reply::ticket_of(
            shown,
        )->0].expires_at > now,
        ids::uuid_parse(id2) is Some,
        reply::origin_ok(origin2, v.origin),
    ensures
        ({
            let w = StateView {
                tickets: web::admission(v, id, Some(Some(shown)), origin, now, open).1,
                ..v
            };
            &&& !w.tickets.contains_key(reply::ticket_of(shown)->0)
            &&& web::admission(w, id2, Some(Some(shown)), origin2, now2, open2).0
                == unauthorized()
        }),
{
}

/// A ticket lasts fifteen seconds: from then on whoever shows it is unauthorized.
pub proof fn law_ticket_lapses(
    v: StateView,
    session_id: Seq<u8>,
    pairing_id: Id,
    epoch: u64,
    issued: Moment,
    ticket_id: Seq<u8>,
    id: Seq<char>,
    shown: Seq<char>,
    origin: Option<Seq<char>>,
    now: Moment,
    open: usize,
)
    requires
        clock::in_range(clock::plus(issued, web::TICKET_SECS as int)),
        v.tickets.contains_key(ticket_id),
        v.tickets[ticket_id] == web::fresh_ticket(session_id, pairing_id, epoch, issued),
        reply::ticket_of(shown) == Some(ticket_id),
        ids::uuid_parse(id) is Some,
        reply::origin_ok(origin, v.origin),
        now >= clock::plus(issued, web::TICKET_SECS as int),
    ensures
        web::admission(v, id, Some(Some(shown)), origin, now, open).0 == unauthorized(),
{
}

/// A full server says so to whoever shows a good ticket, and to nobody else; one that has room for a
/// connection lets it in.
pub proof fn law_full_server_refuses(
    v: StateView,
    id: Seq<char>,
    protocol: Option<Option<Seq<char>>>,
    origin: Option<Seq<char>>,
    now: Moment,
    open: usize,
)
    ensures
        ({
            let shown = web::upgrade(v, id, protocol, origin, now).0;
            let answer = web::admission(v, id, protocol, origin, now, open).0;
            &&& shown is Ok && open >= v.config.max_ws_connections ==> answer == Err::<
                (Id, Seq<u8>),
                reply::ReplyView,
            >(web::full_reply())
            &&& shown is Err || open < v.config.max_ws_connections ==> answer == shown
        }),
{
}

/// A request that does not come from the server's own page is refused at every step.
pub proof fn law_foreign_origin_refused(
    v: StateView,
    origin: Option<Seq<char>>,
    body_len: usize,
    pairing_id: Seq<char>,
    secret: Option<Seq<char>>,
    cookie: Option<Seq<char>>,
    protocol: Option<Option<Seq<char>>>,
    now: Moment,
)
    requires
        !reply::origin_ok(origin, v.origin),
    ensures
        web::bootstrap_error(v, origin, body_len, pairing_id, secret) == Some(
            (FORBIDDEN, "forbidden"@),
        ),
        web::gate(v, origin, body_len, pairing_id, cookie, now) == Err::<
            (Id, Seq<u8>),
            reply::ReplyView,
        >(reply::error_reply(FORBIDDEN, "forbidden"@)),
        web::upgrade(v, pairing_id, protocol, origin, now).0 is Err,
        web::upgrade(v, pairing_id, protocol, origin, now).1 == v.tickets,
{
}

/// The three steps lead to a connection: a browser that was let in with the pairing's secret, sends
/// its cookie back, is given a ticket and shows it within fifteen seconds, is connected to the
/// pairing under its session.
pub proof fn law_three_steps(
    v: StateView,
    origin: Option<Seq<char>>,
    pairing_text: Seq<char>,
    body_len: usize,
    session_id: Seq<u8>,
    secret: Seq<u8>,
    at: Clock,
    ticket_at: Moment,
    ticket: Seq<char>,
    ticket_id: Seq<u8>,
    now: Moment,
)
    requires
        web::bootstrap_error(
            v,
            origin,
            body_len,
            pairing_text,
            Some(pairing::hex_of(v.pairings[ids::uuid_parse(pairing_text)->0].pairing_secret)),
        ) is None,
        body_len <= web::MAX_SMALL_BODY,
        session_id.len() == 32,
        ticket_id.len() == 32,
        web::is_ticket_text(ticket, ticket_id),
        clock::in_range(clock::plus(at.moment, web::BROWSER_SESSION_SECS as int)),
        clock::in_range(clock::plus(ticket_at, web::TICKET_SECS as int)),
        at.moment <= ticket_at <= now,
        now < clock::plus(ticket_at, web::TICKET_SECS as int),
        now < clock::plus(at.moment, web::BROWSER_SESSION_SECS as int),
    ensures
        ({
            let id = ids::uuid_parse(pairing_text)->0;
            let cookie = reply::BROWSER_SESSION_COOKIE@ + "="@ + pairing::hex_of(session_id);
            let shown = "qr-paste.v1, ticket."@ + ticket;
            let v1 = web::bootstrapped(v, id, session_id, secret, at);
            let v2 = StateView {
                tickets: v1.tickets.insert(
                    ticket_id,
                    web::fresh_ticket(session_id, id, v1.pairings[id].epoch, ticket_at),
                ),
                ..v1
            };
            &&& web::gate(v1, origin, body_len, pairing_text, Some(cookie), ticket_at) == Ok::<
                (Id, Seq<u8>),
                reply::ReplyView,
            >((id, session_id))
            &&& web::upgrade(v2, pairing_text, Some(Some(shown)), origin, now).0 == Ok::<
                (Id, Seq<u8>),
                reply::ReplyView,
            >((id, session_id))
        }),
{
    law_cookie_names_session(session_id);
    law_protocol_shows_ticket(ticket, ticket_id);
    pairing::law_hex_round_trip(session_id, session_id);
    pairing::lemma_unhex(session_id);
}

} // verus!
