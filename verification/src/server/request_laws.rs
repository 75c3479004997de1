//! What holds of requests and of their answers, of the configuration, and of what is written down: who
//! is believed, what is accepted, and what outlasts a restart.

use crate::clock;
use crate::clock::Clock;
use crate::events::{Event, EventView, ServerEvent};
use crate::ids;
use crate::ids::Id;
use crate::net;
use crate::net::{Cidr, Ip};
use crate::server::cleanup;
use crate::server::config;
use crate::server::config::ServerConfig;
use crate::server::laws;
use crate::server::pairing;
use crate::server::pairing::{BrowserView, CloseReason, PairingView};
use crate::server::persist;
use crate::server::persist::{
    BrowserSessionRow, LoadedBrowserSession, LoadedPairing, PairingRow, TaskView,
};
use crate::server::relay;
use crate::server::reply;
use crate::server::reply::BodyView;
use crate::server::session::SessionView;
use crate::server::upload;
use crate::server::upload_laws;
use crate::server::upload_store::{FileStatus, SaveFileError, StoreView, UploadLimitError};
use crate::server::web;
use crate::server::web::{Notice, StateView};
use crate::server::ws;
use crate::text;
use vstd::prelude::*;

verus! {

/// A request is believed to come from the server's own page exactly where it names an origin that is a
/// URL of the same origin; one that names none, an empty one or a hidden one never is.
pub proof fn law_origin_must_be_named(origin: Seq<char>, public_origin: Seq<char>)
    ensures
        !reply::origin_ok(None, public_origin),
        origin.len() == 0 ==> !reply::origin_ok(Some(origin), public_origin),
        !reply::origin_ok(Some("null"@), public_origin),
        net::url_parse(origin) is Err ==> !reply::origin_ok(Some(origin), public_origin),
        origin.len() > 0 && origin != "null"@ ==> (net::url_parse(origin) matches Ok(url) ==> (
        reply::origin_ok(Some(origin), public_origin) <==> reply::has_origin(url, public_origin))),
{
}

/// The server's own address is of its own origin.
pub proof fn law_own_origin_is_accepted(address: Seq<char>, host: Seq<char>)
    requires
        address.len() > 0,
        address != "null"@,
        net::url_parse(address) is Ok,
        net::url_parse(address)->Ok_0.host_str == Some(host),
        host.len() > 0,
        host.last() != '/',
    ensures
        config::normalized_origin(address) matches Ok(origin) && reply::origin_ok(
            Some(address),
            origin,
        ),
{
    let url = net::url_parse(address)->Ok_0;
    let whole = config::origin_text(url.scheme, host, url.port);
    let s = text::lower(url.scheme);
    let base = s + "://"@ + text::lower(host);
    assert(text::lower(host).last() == text::lower_char(host.last()));
    assert(base.last() != '/');
    if let Some(p) = url.port {
        text::lemma_decimal_digits(p as nat);
    }
    assert(whole.last() != '/');
    assert(text::trim_end_of(whole, '/') == whole);
}

/// Neither capitals nor the usual port make another origin; another port does, and so does a page in
/// clear text instead of an encrypted one.
pub proof fn law_origins_differ(host: Seq<char>, port: u16, other: Seq<char>, p: Option<u16>)
    ensures
        config::origin_text("https"@, host, Some(443)) == config::origin_text("https"@, host, None),
        config::origin_text("http"@, host, Some(80)) == config::origin_text("http"@, host, None),
        port != 443 ==> config::origin_text("https"@, host, Some(port)) != config::origin_text(
            "https"@,
            host,
            None,
        ),
        config::origin_text("https"@, host, None) == "https"@ + "://"@ + text::lower(host),
        config::origin_text("https"@, host, p) != config::origin_text("http"@, other, None),
        config::origin_text("https"@, text::lower(host), p) == config::origin_text(
            "https"@,
            host,
            p,
        ),
{
    reveal_strlit("https");
    reveal_strlit("http");
    reveal_strlit("://");
    reveal_strlit(":");
    assert(text::lower("https"@) =~= "https"@);
    assert(text::lower("http"@) =~= "http"@);
    assert(text::lower(text::lower(host)) =~= text::lower(host));
    assert("https"@.len() == 5 && "http"@.len() == 4);
    text::lemma_decimal_digits(port as nat);
    let a = config::origin_text("https"@, host, p);
    let b = config::origin_text("http"@, other, None);
    assert(a[4] == 's');
    assert(b[4] == ':');
    let far = config::origin_text("https"@, host, Some(port));
    let near = config::origin_text("https"@, host, None);
    if port != 443 {
        assert(far.len() > near.len());
    }
}

/// A server's public address is accepted exactly where it has nothing but a scheme, a host and a port,
/// is encrypted for hosts that phones can reach, and in clear text only for the machine itself.
pub proof fn law_public_address_is_accepted(url: net::UrlView, host: Option<net::HostView>)
    ensures
        config::public_url_error(url, host) is None <==> {
            &&& url.username.len() == 0 && url.password is None
            &&& url.query is None && url.fragment is None
            &&& url.path.len() == 0 || url.path == "/"@
            &&& url.scheme == "http"@ ==> config::host_is_loopback(host)
            &&& url.scheme == "https"@ ==> !config::host_is_non_public(host)
            &&& url.host_str is Some
        },
{
}

/// A configuration of the server is accepted exactly where its address is, its secret has sixteen bytes
/// or more, no limit of it is zero, and its ranges of proxies are ranges.
pub proof fn law_configuration_is_accepted(c: ServerConfig)
    ensures
        c.error() is None <==> {
            &&& text::trimmed(c.public_base_url@).len() > 0
            &&& text::trimmed(c.grpc_auth_token@).len() > 0
            &&& text::byte_len(c.grpc_auth_token@) >= 16
            &&& config::base_url_error(c.public_base_url@) is None
            &&& c.ws_rate_limit_per_ip_per_min > 0 && c.http_rate_limit_per_ip_per_min > 0
            &&& c.max_ws_connections > 0 && c.max_message_size_bytes > 0
            &&& c.token_cleanup_interval_secs > 0 && c.token_expiry_secs > 0
            &&& c.pairing_ttl_secs > 0 && c.ws_idle_timeout_secs > 0
            &&& config::cidrs_error(c.trusted_proxy_cidrs@) is None
        },
{
}

/// A list of ranges is accepted exactly where every one of them is a range.
pub proof fn law_ranges_are_accepted(values: Seq<String>)
    ensures
        config::cidrs_error(values) is None <==> forall|i: int|
            0 <= i < values.len() ==> net::cidr_parse(text::trimmed((#[trigger] values[i])@))
                is Some && text::trimmed(values[i]@).len() > 0,
    decreases values.len(),
{
    if values.len() > 0 {
        let less = values.drop_last();
        law_ranges_are_accepted(less);
        assert(values.last() == values[values.len() - 1]);
        assert forall|i: int| 0 <= i < less.len() implies less[i] == #[trigger] values[i] by {}
        if config::cidrs_error(values) is None {
            assert forall|i: int| 0 <= i < values.len() implies net::cidr_parse(
                text::trimmed((#[trigger] values[i])@),
            ) is Some && text::trimmed(values[i]@).len() > 0 by {
                if i < less.len() {
                    assert(less[i] == values[i]);
                }
            }
        }
    }
}

/// The word of a trusted proxy on the address of its client is taken: the last entry of the list of
/// forwarders, or where there is no such list the other header. A proxy that gives no address, and
/// whoever is not trusted, is the client itself.
pub proof fn law_trusted_proxy_is_believed(
    networks: Seq<Cidr>,
    peer: Ip,
    first: Seq<char>,
    last: Seq<char>,
    real_ip: Option<Seq<char>>,
)
    requires
        !last.contains(','),
    ensures
        ({
            let named = config::entry_ip(last);
            let one = config::client_ip(networks, peer, Some(last), real_ip);
            let many = config::client_ip(networks, peer, Some(first + ","@ + last), real_ip);
            let none = config::client_ip(networks, peer, None, real_ip);
            &&& one == many
            &&& config::trusts(networks, peer) && named is Some ==> Some(one) == named
            &&& config::trusts(networks, peer) && named is None ==> one == peer.bits()
            &&& config::trusts(networks, peer) ==> (real_ip matches Some(r) ==> (match config::entry_ip(
                r,
            ) {
                Some(ip) => none == ip,
                None => none == peer.bits(),
            }))
            &&& config::trusts(networks, peer) && real_ip is None ==> none == peer.bits()
        }),
{
    reveal_strlit(",");
    let all = first + ","@ + last;
    text::lemma_last_at(last, ',');
    text::lemma_last_at(all, ',');
    let n = first.len() as int;
    assert(all[n] == ',');
    assert(all.contains(','));
    let i = text::last_at(all, ',');
    if i > n {
        assert(all[i] == last[i - n - 1]);
        assert(last.contains(all[i]));
    }
    if i < n {
        assert(all[n] != ',');
    }
    assert(all.skip(n + 1) =~= last);
    assert(last.skip(0) =~= last);
}

/// The addresses of version four that the public network does not carry, by their four numbers.
pub proof fn law_private_addresses(a: u32, b0: int, b1: int, b2: int, b3: int)
    requires
        0 <= b0 < 256,
        0 <= b1 < 256,
        0 <= b2 < 256,
        0 <= b3 < 256,
        a == b0 * 16777216 + b1 * 65536 + b2 * 256 + b3,
    ensures
        net::is_non_public(Ip::V4(a)) <==> {
            ||| b0 == 127
            ||| b0 == 10
            ||| b0 == 172 && 16 <= b1 <= 31
            ||| b0 == 192 && b1 == 168
            ||| b0 == 169 && b1 == 254
            ||| b0 == 0 && b1 == 0 && b2 == 0 && b3 == 0
        },
        net::is_loopback(Ip::V4(a)) <==> b0 == 127,
{
}

/// The addresses of version six that the public network does not carry, by their first sixteen bits.
pub proof fn law_private_addresses_of_version_six(a: u128, first: int, rest: int)
    requires
        0 <= first < 65536,
        0 <= rest < 0x1_0000_0000_0000_0000_0000_0000_0000,
        a == first * 0x1_0000_0000_0000_0000_0000_0000_0000 + rest,
    ensures
        net::is_non_public(Ip::V6(a)) <==> {
            ||| first == 0 && rest <= 1
            ||| 0xfc00 <= first <= 0xfdff
            ||| 0xfe80 <= first <= 0xfebf
        },
        net::is_loopback(Ip::V6(a)) <==> first == 0 && rest == 1,
{
}

/// A range of addresses holds the address that it is written with; one of all bits holds no other, one
/// of none holds all, and none of either version holds an address of the other.
pub proof fn law_ranges_hold_addresses(a: u32, b: u32, c: u128)
    ensures
        (Cidr::V4 { addr: a, prefix: 32 }).has(Ip::V4(b)) <==> a == b,
        (Cidr::V4 { addr: a, prefix: 24 }).has(Ip::V4(b)) <==> a / 256 == b / 256,
        (Cidr::V4 { addr: a, prefix: 0 }).has(Ip::V4(b)),
        !(Cidr::V4 { addr: a, prefix: 0 }).has(Ip::V6(c)),
        !(Cidr::V6 { addr: c, prefix: 0 }).has(Ip::V4(b)),
        (Cidr::V6 { addr: c, prefix: 128 }).has(Ip::V6(c)),
{
    reveal_with_fuel(net::two_to, 34);
    assert(net::two_to(0) == 1);
    assert(net::two_to(8) == 256);
    assert(net::two_to(32) == 0x1_0000_0000);
    let (one, all) = (net::two_to(0), net::two_to(32));
    assert(a as nat / one == a && b as nat / one == b) by (nonlinear_arith)
        requires
            one == 1,
    ;
    assert(a as nat / all == 0 && b as nat / all == 0) by (nonlinear_arith)
        requires
            all == 0x1_0000_0000,
            0 <= a < 0x1_0000_0000,
            0 <= b < 0x1_0000_0000,
    ;
}

/// A session's cookie is found among other cookies, before or behind it.
pub proof fn law_cookie_is_found_among_others(session_id: Seq<u8>, other: Seq<char>)
    requires
        session_id.len() == 32,
        !other.contains(';'),
        !other.contains('='),
    ensures
        ({
            let mine = "__Host-qr_paste_browser_session"@ + "="@ + pairing::hex_of(session_id);
            &&& reply::session_cookie(Some(other + ";"@ + mine)) == Some(
                pairing::hex_of(session_id),
            )
            &&& reply::session_cookie(Some(mine + ";"@ + other)) == Some(
                pairing::hex_of(session_id),
            )
        }),
{
    let name = "__Host-qr_paste_browser_session"@;
    let hex = pairing::hex_of(session_id);
    let mine = name + "="@ + hex;
    pairing::law_hex_round_trip(session_id, session_id);
    reveal_strlit("__Host-qr_paste_browser_session");
    reveal_strlit("=");
    reveal_strlit(";");
    assert forall|j: int| 0 <= j < mine.len() implies mine[j] != ';' by {
        if j >= 32 {
            assert(mine[j] == hex[j - 32]);
            assert(pairing::is_hex_digit(hex[j - 32]));
        }
    }
    lemma_two_pieces(other, mine, ';');
    lemma_two_pieces(mine, other, ';');
    assert(mine[95] == hex[63]);
    assert(pairing::is_hex_digit(hex[63]));
    assert(text::trimmed(mine) == mine);
    text::lemma_first_at(mine, '=');
    assert(mine[31] == '=');
    let f = text::first_at(mine, '=');
    assert(f == 31) by {
        if f < 31 {
            assert(mine[f] == name[f]);
        }
    }
    assert(mine.take(31) =~= name);
    assert(mine.skip(32) =~= hex);
    assert(mine.contains('='));
    assert(reply::is_cookie(mine, name));
    assert(reply::value_of(mine) == hex);
    lemma_trimmed_part(other, '=');
    let t = text::trimmed(other);
    assert(!t.contains('='));
    let first = seq![other, mine];
    assert(first.drop_last() =~= seq![other]);
    assert(seq![other].drop_last() =~= Seq::empty());
    assert(reply::first_cookie(seq![other].drop_last(), name) is None);
    assert(seq![other].last() == other);
    assert(reply::first_cookie(seq![other], name) is None);
    assert(first.last() == mine);
    assert(reply::first_cookie(first, name) == Some(hex));
    let second = seq![mine, other];
    assert(second.drop_last() =~= seq![mine]);
    assert(seq![mine].drop_last() =~= Seq::empty());
    assert(seq![mine].last() == mine);
    assert(reply::first_cookie(seq![mine].drop_last(), name) is None);
    assert(reply::first_cookie(seq![mine], name) == Some(hex));
    assert(reply::first_cookie(second, name) == Some(hex));
}

proof fn lemma_two_pieces(a: Seq<char>, b: Seq<char>, sep: char)
    requires
        forall|i: int| 0 <= i < a.len() ==> a[i] != sep,
        forall|i: int| 0 <= i < b.len() ==> b[i] != sep,
        sep == ';',
    ensures
        text::split_on(a + ";"@ + b, sep) == seq![a, b],
{
    reveal_strlit(";");
    let all = a + ";"@ + b;
    let n = a.len() as int;
    text::lemma_first_at(all, sep);
    assert(all[n] == sep);
    let i = text::first_at(all, sep);
    if i < n {
        assert(all[i] == a[i]);
    }
    assert(all.take(n) =~= a);
    assert(all.skip(n + 1) =~= b);
    text::lemma_first_at(b, sep);
    if text::first_at(b, sep) < b.len() {
        assert(b[text::first_at(b, sep)] == sep);
    }
    assert(text::split_on(b, sep) == seq![b]);
    assert(seq![a] + seq![b] =~= seq![a, b]);
}

/// Trimming adds no character.
proof fn lemma_trimmed_part(s: Seq<char>, c: char)
    requires
        !s.contains(c),
    ensures
        !text::trimmed(s).contains(c),
{
    lemma_trim_end_part(s, c);
    lemma_trim_start_part(text::trim_end(s), c);
}

proof fn lemma_trim_end_part(s: Seq<char>, c: char)
    requires
        !s.contains(c),
    ensures
        !text::trim_end(s).contains(c),
    decreases s.len(),
{
    if s.len() > 0 && text::is_white(s.last()) {
        let less = s.drop_last();
        assert(!less.contains(c)) by {
            if less.contains(c) {
                let i = choose|i: int| 0 <= i < less.len() && less[i] == c;
                assert(s[i] == c);
            }
        }
        lemma_trim_end_part(less, c);
    }
}

proof fn lemma_trim_start_part(s: Seq<char>, c: char)
    requires
        !s.contains(c),
    ensures
        !text::trim_start(s).contains(c),
    decreases s.len(),
{
    if s.len() > 0 && text::is_white(s[0]) {
        let less = s.drop_first();
        assert(!less.contains(c)) by {
            if less.contains(c) {
                let i = choose|i: int| 0 <= i < less.len() && less[i] == c;
                assert(s[i + 1] == c);
            }
        }
        lemma_trim_start_part(less, c);
    }
}

/// An error is answered with its status and its code and is not to be kept; where the browser has to
/// come anew, it is also told to forget its session, under both names.
pub proof fn law_errors_are_answered(status: u16, code: Seq<char>)
    ensures
        ({
            let plain = reply::error_reply(status, code);
            let forget = reply::forget_reply(status, code);
            &&& plain.status == status && forget.status == status
            &&& plain.body == (BodyView::Error { code }) && forget.body == plain.body
            &&& plain.headers.contains(
                ("cache-control"@, "no-store, no-cache, must-revalidate"@),
            )
            &&& plain.headers.is_prefix_of(forget.headers)
            &&& forget.headers.len() == plain.headers.len() + 2
            &&& forall|i: int|
                plain.headers.len() <= i < forget.headers.len() ==> (#[trigger] forget.headers[i]).0
                    == "set-cookie"@ && "Max-Age=0"@.is_suffix_of(forget.headers[i].1)
        }),
{
    let plain = reply::error_reply(status, code);
    let forget = reply::forget_reply(status, code);
    assert(plain.headers[0] == ("cache-control"@, "no-store, no-cache, must-revalidate"@));
    reveal_strlit("Max-Age=0");
    reveal_strlit(
        "__Host-qr_paste_browser_session=; HttpOnly; Secure; SameSite=Strict; Path=/; Max-Age=0",
    );
    reveal_strlit("qr_paste_browser_session=; HttpOnly; SameSite=Strict; Path=/; Max-Age=0");
    let long =
        "__Host-qr_paste_browser_session=; HttpOnly; Secure; SameSite=Strict; Path=/; Max-Age=0"@;
    let short = "qr_paste_browser_session=; HttpOnly; SameSite=Strict; Path=/; Max-Age=0"@;
    assert(long.subrange(long.len() - 9, long.len() as int) =~= "Max-Age=0"@);
    assert(short.subrange(short.len() - 9, short.len() as int) =~= "Max-Age=0"@);
    assert(forget.headers[3].1 == long);
    assert(forget.headers[4].1 == short);
}

/// The page for phones is that of the pairing, runs only the scripts that bear its nonce, and is framed
/// by nobody.
pub proof fn law_page_is_the_pairings(id: Id, nonce: Seq<char>)
    ensures
        ({
            let page = web::page_reply(id, nonce);
            &&& page.status == 200
            &&& page.body == (BodyView::Page { pairing_id: ids::uuid_text(id), nonce })
            &&& page.headers.contains(("x-frame-options"@, "DENY"@))
            &&& page.headers.contains(("content-security-policy"@, web::csp_text(nonce)))
            &&& ("default-src 'self'; script-src 'nonce-"@ + nonce + "'"@).is_prefix_of(
                web::csp_text(nonce),
            )
        }),
{
    let page = web::page_reply(id, nonce);
    assert(page.headers[3].0 == "content-security-policy"@);
    assert(page.headers[4] == ("x-frame-options"@, "DENY"@));
    reveal_strlit("'");
    reveal_strlit("'; style-src 'nonce-");
    let csp = web::csp_text(nonce);
    let front = "default-src 'self'; script-src 'nonce-"@ + nonce + "'"@;
    assert(csp.subrange(0, front.len() as int) =~= front);
}

/// What a phone calls itself is kept, without white space around it, up to two hundred and fifty-six
/// characters; one that says nothing has no name.
pub proof fn law_device_is_named(name: Seq<char>)
    requires
        name.len() > 0,
        !text::is_white(name[0]),
        !text::is_white(name.last()),
    ensures
        name.len() <= 256 ==> reply::device_of(Some(name)) == Some(name),
        name.len() > 256 ==> reply::device_of(Some(name)) == Some(name.take(256)),
        reply::device_of(None) is None,
        reply::device_of(Some(Seq::empty())) is None,
{
    assert(text::trim_end(name) == name);
    assert(text::trimmed(name) == name);
}

/// The events of a pairing go to the session that the pairing names; where it names none that lasts, to
/// the youngest of its sessions; and to nobody exactly where it has none.
pub proof fn law_events_go_to_the_latest_session(
    sessions: Map<Seq<char>, SessionView>,
    pairings: Map<Id, PairingView>,
    id: Id,
    found: Option<Seq<char>>,
    t: Seq<char>,
)
    requires
        relay::is_latest(sessions, pairings, id, found),
    ensures
        pairings.contains_key(id) && pairings[id].active_session_token == Some(t)
            && sessions.contains_key(t) ==> found == Some(t),
        found matches Some(token) ==> sessions.contains_key(token),
        !pairings.contains_key(id) || pairings[id].active_session_token is None ==> {
            &&& found matches Some(token) ==> sessions[token].pairing_id == Some(id)
            &&& sessions.contains_key(t) && sessions[t].pairing_id == Some(id) ==> found is Some
                && sessions[t].created_at <= sessions[found->0].created_at
        },
        found is None ==> !(sessions.contains_key(t) && sessions[t].pairing_id == Some(id)),
{
}

/// The PC client that events go to is told, by its channel, exactly what happened; where it is not
/// connected nobody is told.
pub proof fn law_client_is_told(
    v: StateView,
    id: Id,
    token: Seq<char>,
    event: EventView,
    notice: Option<Notice>,
)
    requires
        ws::tells_client(v.sessions, v.pairings, id, event, notice),
        v.pairings.contains_key(id),
        v.pairings[id].active_session_token == Some(token),
        v.sessions.contains_key(token),
    ensures
        v.sessions[token].client_tx matches Some(channel) ==> {
            &&& notice matches Some(n)
            &&& n.client_tx == channel
            &&& n.event.event matches Some(e)
            &&& e@ == event
        },
        v.sessions[token].client_tx is None ==> notice is None,
{
    assert(relay::named_session(v.sessions, v.pairings, id) == Some(token));
}

/// A PC client's secret proves the session that bears it, and no other; a text that no session bears
/// proves nothing.
pub proof fn law_secret_proves_its_session(
    sessions: Map<Seq<char>, SessionView>,
    secret: Seq<char>,
    found: Option<Seq<char>>,
    t: Seq<char>,
)
    requires
        relay::proves(sessions, secret, found),
    ensures
        found matches Some(token) ==> sessions.contains_key(token)
            && sessions[token].grpc_session_token == secret,
        sessions.contains_key(t) && sessions[t].grpc_session_token == secret ==> found is Some,
{
}

/// The first event of a subscription carries the session's token, the address, and the session's
/// secret.
pub proof fn law_first_event_carries_the_secret(
    sent: ServerEvent,
    token: Seq<char>,
    url: Seq<char>,
    secret: Seq<char>,
)
    requires
        sent.is(EventView::SessionToken { token, url }, secret),
    ensures
        sent.event matches Some(Event::SessionToken { token: t, url: u }) && t@ == token && u@
            == url,
        sent.grpc_session_token@ == secret,
{
}

/// The reason that a connection is closed for is told with its code.
pub proof fn law_codes_have_reasons(code: u16)
    ensures
        ws::reason_of(4001) == CloseReason::Replaced,
        ws::reason_of(4002) == CloseReason::Revoked,
        ws::reason_of(4003) == CloseReason::SessionRevoked,
        code != 4001 && code != 4002 && code != 4003 ==> ws::reason_of(code)
            == CloseReason::Superseded,
{
}

/// Every browser session that was written down and has neither lapsed nor been revoked is taken up
/// again after a restart, as good as it was; and no other.
pub proof fn law_phone_is_known_after_a_restart(
    v: StateView,
    s: BrowserView,
    saved_at: Clock,
    row: BrowserSessionRow,
    at: Clock,
    loaded: LoadedBrowserSession,
)
    requires
        persist::is_session_row(persist::session_task(s, saved_at), row),
        s.session_id.len() == 32,
        s.pairing_epoch <= i64::MAX,
        persist::is_loaded_session(row, at, loaded),
        clock::in_range(at.moment as int),
        clock::in_range(
            clock::plus(at.moment, persist::clamp(row.expires_at_unix - at.unix_secs)),
        ),
        v.pairings.contains_key(s.pairing_id),
        v.pairings[s.pairing_id].epoch == s.pairing_epoch,
    ensures
        persist::session_taken_up(row, at) <==> persist::unix_of(s.expires_at, saved_at)
            > at.unix_secs && !s.revoked,
        persist::session_taken_up(row, at) ==> {
            let back = BrowserView {
                session_id: loaded.session_id@,
                pairing_id: loaded.pairing_id,
                pairing_epoch: loaded.pairing_epoch,
                created_at: loaded.created_at,
                last_seen: loaded.last_seen,
                expires_at: loaded.expires_at,
                revoked: loaded.revoked,
            };
            let w = StateView { browsers: v.browsers.insert(s.session_id, back), ..v };
            web::auth(w, s.pairing_id, laws::cookie_of(s.session_id), at.moment) == Ok::<
                Seq<u8>,
                u16,
            >(s.session_id)
        },
{
    persist::law_loaded_expiry(row.expires_at_unix, at);
    let back = BrowserView {
        session_id: loaded.session_id@,
        pairing_id: loaded.pairing_id,
        pairing_epoch: loaded.pairing_epoch,
        created_at: loaded.created_at,
        last_seen: loaded.last_seen,
        expires_at: loaded.expires_at,
        revoked: loaded.revoked,
    };
    let w = StateView { browsers: v.browsers.insert(s.session_id, back), ..v };
    laws::law_good_session_is_let_in(w, s.pairing_id, s.session_id, at.moment);
}

/// Every pairing that was written down and has not lapsed is taken up again after a restart, with its
/// secret and its epoch; and no other.
pub proof fn law_pairing_is_known_after_a_restart(
    p: PairingView,
    saved_at: Clock,
    row: PairingRow,
    at: Clock,
    loaded: LoadedPairing,
)
    requires
        persist::is_pairing_row(persist::pairing_task(p, saved_at), row),
        p.pairing_secret.len() == 32,
        p.epoch <= i64::MAX,
        p.revision <= i64::MAX,
        persist::is_loaded_pairing(row, at, loaded),
        clock::in_range(at.moment as int),
        clock::in_range(
            clock::plus(at.moment, persist::clamp(row.expires_at_unix - at.unix_secs)),
        ),
    ensures
        persist::pairing_taken_up(row, at) <==> persist::unix_of(p.expires_at, saved_at)
            > at.unix_secs,
        persist::pairing_taken_up(row, at) ==> loaded.expires_at > at.moment,
        loaded.pairing_id == p.pairing_id,
        loaded.pairing_secret@ == p.pairing_secret,
        loaded.epoch == p.epoch,
{
    persist::law_loaded_expiry(row.expires_at_unix, at);
}

/// Of the rows that were written down exactly those are taken up that can be; none is passed over.
pub proof fn law_no_row_is_passed_over(
    pairings: Seq<PairingRow>,
    sessions: Seq<BrowserSessionRow>,
    at: Clock,
    p: PairingRow,
    s: BrowserSessionRow,
)
    ensures
        persist::readable_pairings(pairings, at).contains(p) <==> pairings.contains(p)
            && persist::pairing_taken_up(p, at),
        persist::readable_sessions(sessions, at).contains(s) <==> sessions.contains(s)
            && persist::session_taken_up(s, at),
{
    lemma_pairings_taken_up(pairings, at, p);
    lemma_sessions_taken_up(sessions, at, s);
}

proof fn lemma_pairings_taken_up(rows: Seq<PairingRow>, at: Clock, p: PairingRow)
    ensures
        persist::readable_pairings(rows, at).contains(p) <==> rows.contains(p)
            && persist::pairing_taken_up(p, at),
    decreases rows.len(),
{
    if rows.len() > 0 {
        let less = rows.drop_last();
        lemma_pairings_taken_up(less, at, p);
        lemma_push_contains(less, rows.last(), p);
        assert(less.push(rows.last()) =~= rows);
        lemma_push_contains(persist::readable_pairings(less, at), rows.last(), p);
    }
}

proof fn lemma_sessions_taken_up(rows: Seq<BrowserSessionRow>, at: Clock, s: BrowserSessionRow)
    ensures
        persist::readable_sessions(rows, at).contains(s) <==> rows.contains(s)
            && persist::session_taken_up(s, at),
    decreases rows.len(),
{
    if rows.len() > 0 {
        let less = rows.drop_last();
        lemma_sessions_taken_up(less, at, s);
        lemma_push_contains(less, rows.last(), s);
        assert(less.push(rows.last()) =~= rows);
        lemma_push_contains(persist::readable_sessions(less, at), rows.last(), s);
    }
}

proof fn lemma_push_contains<A>(s: Seq<A>, last: A, x: A)
    ensures
        s.push(last).contains(x) <==> s.contains(x) || x == last,
{
    let all = s.push(last);
    if s.contains(x) {
        let i = choose|i: int| 0 <= i < s.len() && s[i] == x;
        assert(all[i] == x);
    }
    assert(all[s.len() as int] == last);
    if all.contains(x) && x != last {
        let i = choose|i: int| 0 <= i < all.len() && all[i] == x;
        assert(s[i] == x);
    }
}

/// At every ordinary time, and for every ordinary lifetime of a pairing, a browser can be let in.
pub proof fn law_ordinary_times_are_fine(at: Clock, ttl_secs: u64)
    requires
        -0x1000_0000_0000 <= at.unix_secs <= 0x1000_0000_0000,
        -0x1000_0000_0000_0000_0000 <= at.moment <= 0x1000_0000_0000_0000_0000,
        ttl_secs <= 0x1_0000_0000,
    ensures
        web::times_ok(at, ttl_secs),
{
    let ttl = ttl_secs as int;
    assert((ttl * 1_000_000_000) / 1_000_000_000 == ttl);
    assert((2_592_000 * 1_000_000_000) / 1_000_000_000 == 2_592_000int);
}

/// An upload that was not saved is answered by what went wrong.
pub proof fn law_unsaved_file_is_answered(why: String, limit: UploadLimitError)
    ensures
        upload::save_error_reply(SaveFileError::Timeout).status == 408,
        upload::save_error_reply(SaveFileError::TooLarge).status == 413,
        upload::save_error_reply(SaveFileError::Limit(limit)).status == 429,
        upload::save_error_reply(SaveFileError::Io(why)).status == 500,
{
}

/// Whatever a file is called, its name can stand in a header.
pub proof fn law_escaped_name_is_harmless(name: Seq<char>)
    ensures
        reply::header_text(upload::escaped(name)),
    decreases name.len(),
{
    if name.len() > 0 {
        law_escaped_name_is_harmless(name.drop_last());
        let before = upload::escaped(name.drop_last());
        let bytes = vstd::utf8::encode_utf8(seq![name.last()]);
        lemma_percents(bytes);
        let more = if upload::is_plain(name.last()) {
            seq![name.last()]
        } else {
            upload::percents(bytes)
        };
        assert(upload::escaped(name) == before + more);
        assert(reply::header_text(more));
        assert forall|i: int| 0 <= i < (before + more).len() implies (#[trigger] (before + more)[i]
            == '\t' || ((before + more)[i] as u32 >= 0x20 && (before + more)[i] as u32 != 0x7f)) by {
            if i < before.len() {
                assert((before + more)[i] == before[i]);
            } else {
                assert((before + more)[i] == more[i - before.len()]);
            }
        }
    }
}

proof fn lemma_percents(bytes: Seq<u8>)
    ensures
        reply::header_text(upload::percents(bytes)),
    decreases bytes.len(),
{
    if bytes.len() > 0 {
        lemma_percents(bytes.drop_last());
        let before = upload::percents(bytes.drop_last());
        let more = upload::percent(bytes.last());
        assert(upload::percents(bytes) == before + more);
        assert forall|i: int| 0 <= i < (before + more).len() implies (#[trigger] (before + more)[i]
            == '\t' || ((before + more)[i] as u32 >= 0x20 && (before + more)[i] as u32 != 0x7f)) by {
            if i < before.len() {
                assert((before + more)[i] == before[i]);
            } else {
                assert((before + more)[i] == more[i - before.len()]);
            }
        }
    }
}

/// A pairing that is forgotten takes no upload any more.
pub proof fn law_forgotten_pairing_takes_nothing(s: StoreView, gone: Seq<Id>, p: Id)
    requires
        gone.contains(p),
    ensures
        cleanup::closed_all(s, gone).limit_error(p) == Some(UploadLimitError::PairingClosed),
    decreases gone.len(),
{
    let rest = gone.drop_last();
    let last = gone.last();
    let before = cleanup::closed_all(s, rest);
    lemma_sweep_keeps_closed(before.close(last), before.quota.of(last).file_ids, last, p);
    if p != last {
        let i = choose|i: int| 0 <= i < gone.len() && gone[i] == p;
        assert(rest[i] == p);
        law_forgotten_pairing_takes_nothing(s, rest, p);
    }
}

proof fn lemma_sweep_keeps_closed(s: StoreView, ids: Seq<Id>, swept: Id, p: Id)
    ensures
        s.sweep(ids, swept).quota.of(p).closed == s.quota.of(p).closed,
    decreases ids.len(),
{
    if ids.len() > 0 {
        lemma_sweep_keeps_closed(s, ids.drop_last(), swept, p);
    }
}

/// Of a pairing that is forgotten exactly the stored files that nobody was told of are deleted from the
/// disk.
pub proof fn law_untold_files_are_deleted(s: StoreView, ids: Seq<Id>, p: Id, id: Id)
    requires
        ids.no_duplicates(),
    ensures
        ids.contains(id) && s.files.contains_key(id) && s.files[id].status
            == FileStatus::StoredUnnotified ==> s.swept_paths(ids, p).contains(
            s.files[id].file_path,
        ) && !s.sweep(ids, p).files.contains_key(id),
        !ids.contains(id) || (s.files.contains_key(id) && s.files[id].status
            != FileStatus::StoredUnnotified) ==> (s.sweep(ids, p).files.contains_key(id)
            <==> s.files.contains_key(id)) && s.sweep(ids, p).files[id] == s.files[id],
        s.swept_paths(ids, p).len() <= ids.len(),
    decreases ids.len(),
{
    if ids.len() > 0 {
        let rest = ids.drop_last();
        let last = ids.last();
        assert(ids == rest.push(last));
        lemma_push_contains(rest, last, id);
        assert(!rest.contains(last)) by {
            if rest.contains(last) {
                let i = choose|i: int| 0 <= i < rest.len() && rest[i] == last;
                assert(ids[i] == ids[ids.len() - 1]);
            }
        }
        law_untold_files_are_deleted(s, rest, p, id);
        law_untold_files_are_deleted(s, rest, p, last);
        let before = s.sweep(rest, p);
        let paths = s.swept_paths(rest, p);
        if before.has_status(last, FileStatus::StoredUnnotified) {
            if s.files.contains_key(id) {
                lemma_push_contains(
                    paths,
                    before.files[last].file_path,
                    s.files[id].file_path,
                );
            }
        }
    }
}

/// What a cleanup forgets is forgotten by the database too: each pairing that is gone, and everything that
/// has lapsed by then.
pub proof fn law_cleanup_is_written_down(v: StateView, gone: Seq<Id>, at: Clock)
    requires
        v.queue.enabled,
        v.queue.queue.len() + gone.len() + 1 <= 1024,
    ensures
        ({
            let written = cleanup::cleaned(v, gone, at).queue.queue;
            let n = v.queue.queue.len() as int;
            &&& written.len() == n + gone.len() + 1
            &&& v.queue.queue.is_prefix_of(written)
            &&& forall|i: int|
                0 <= i < gone.len() ==> (#[trigger] written[n + i] matches TaskView::DeletePairing {
                    pairing_id,
                } && pairing_id == gone[i])
            &&& written.last() matches TaskView::DeleteExpired { now_unix } && now_unix
                == at.unix_secs
        }),
        cleanup::cleaned(v, gone, at).config == v.config,
        cleanup::cleaned(v, gone, at).uploads == cleanup::closed_all(v.uploads, gone),
{
    lemma_deleted(v.queue, gone);
    let written = cleanup::cleaned(v, gone, at).queue.queue;
    let before = cleanup::deleted_all(v.queue, gone).queue;
    assert(written == before.push(TaskView::DeleteExpired { now_unix: at.unix_secs as int }));
    let n = v.queue.queue.len() as int;
    assert(v.queue.queue =~= written.subrange(0, n));
    assert forall|i: int| 0 <= i < gone.len() implies (#[trigger] written[n + i] matches
        TaskView::DeletePairing { pairing_id } && pairing_id == gone[i]) by {
        assert(written[n + i] == before[n + i]);
    }
}

proof fn lemma_deleted(q: persist::QueueView, gone: Seq<Id>)
    requires
        q.enabled,
        q.queue.len() + gone.len() <= 1024,
    ensures
        ({
            let w = cleanup::deleted_all(q, gone);
            let n = q.queue.len() as int;
            &&& w.enabled
            &&& w.queue.len() == n + gone.len()
            &&& forall|i: int| 0 <= i < n ==> w.queue[i] == q.queue[i]
            &&& forall|i: int|
                0 <= i < gone.len() ==> (#[trigger] w.queue[n + i] matches TaskView::DeletePairing {
                    pairing_id,
                } && pairing_id == gone[i])
        }),
    decreases gone.len(),
{
    if gone.len() > 0 {
        let rest = gone.drop_last();
        lemma_deleted(q, rest);
        let n = q.queue.len() as int;
        let before = cleanup::deleted_all(q, rest).queue;
        let after = cleanup::deleted_all(q, gone).queue;
        assert(after == before.push(TaskView::DeletePairing { pairing_id: gone.last() }));
        assert forall|i: int| 0 <= i < gone.len() implies (#[trigger] after[n + i] matches
            TaskView::DeletePairing { pairing_id } && pairing_id == gone[i]) by {
            if i < rest.len() {
                assert(after[n + i] == before[n + i]);
                assert(rest[i] == gone[i]);
            }
        }
    }
}

/// Forgetting pairings touches no file of another pairing, and keeps the store consistent.
proof fn lemma_forgetting_spares_others(s: StoreView, gone: Seq<Id>, id: Id)
    requires
        s.consistent(),
        s.files.contains_key(id),
        !gone.contains(s.files[id].pairing_id),
    ensures
        cleanup::closed_all(s, gone).consistent(),
        cleanup::closed_all(s, gone).files.contains_key(id),
        cleanup::closed_all(s, gone).files[id] == s.files[id],
    decreases gone.len(),
{
    if gone.len() > 0 {
        let rest = gone.drop_last();
        assert(gone == rest.push(gone.last()));
        lemma_push_contains(rest, gone.last(), s.files[id].pairing_id);
        lemma_forgetting_spares_others(s, rest, id);
        upload_laws::law_cleanup(cleanup::closed_all(s, rest), gone.last());
        assert(cleanup::closed_all(s, gone).files.contains_key(id));
    }
}

/// The files of pairings that are kept stay; of the pairings that are forgotten, every stored file that
/// nobody was told of is deleted from the disk.
pub proof fn law_forgotten_files_are_deleted(s: StoreView, gone: Seq<Id>, id: Id)
    requires
        s.consistent(),
        gone.no_duplicates(),
        s.files.contains_key(id),
    ensures
        !gone.contains(s.files[id].pairing_id) ==> cleanup::closed_all(
            s,
            gone,
        ).files.contains_key(id) && cleanup::closed_all(s, gone).files[id] == s.files[id],
        gone.contains(s.files[id].pairing_id) && s.files[id].status
            == FileStatus::StoredUnnotified ==> cleanup::closed_paths(s, gone).contains(
            s.files[id].file_path,
        ),
    decreases gone.len(),
{
    let p = s.files[id].pairing_id;
    if !gone.contains(p) {
        lemma_forgetting_spares_others(s, gone, id);
    } else if s.files[id].status == FileStatus::StoredUnnotified {
        let rest = gone.drop_last();
        let last = gone.last();
        let path = s.files[id].file_path;
        assert(gone == rest.push(last));
        lemma_push_contains(rest, last, p);
        assert(!rest.contains(last)) by {
            if rest.contains(last) {
                let i = choose|i: int| 0 <= i < rest.len() && rest[i] == last;
                assert(gone[i] == gone[gone.len() - 1]);
            }
        }
        assert(rest.no_duplicates());
        let before = cleanup::closed_all(s, rest);
        let more = before.close(last).swept_paths(before.quota.of(last).file_ids, last);
        let paths = cleanup::closed_paths(s, rest);
        let all = cleanup::closed_paths(s, gone);
        assert(all == paths + more);
        if p == last {
            lemma_forgetting_spares_others(s, rest, id);
            let ids = before.quota.of(last).file_ids;
            assert(ids.no_duplicates() && ids.contains(id));
            law_untold_files_are_deleted(before.close(last), ids, last, id);
            let i = choose|i: int| 0 <= i < more.len() && more[i] == path;
            assert(all[paths.len() + i] == path);
        } else {
            law_forgotten_files_are_deleted(s, rest, id);
            let i = choose|i: int| 0 <= i < paths.len() && paths[i] == path;
            assert(all[i] == path);
        }
    }
}

} // verus!
