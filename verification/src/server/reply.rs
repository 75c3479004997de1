//! Requests and replies as plain values: what is read from a request's headers, and what a reply
//! consists of.

use crate::net;
use crate::net::parse_url;
use crate::server::config;
use crate::server::config::origin_string;
use crate::text;
use crate::text::{
    chars_of, eq_chars, eq_lit, find_char, split, string_of, strip_prefix, to_vec, trim,
};
use base64::engine::general_purpose::URL_SAFE_NO_PAD;
use base64::Engine;
use vstd::prelude::*;

verus! {

/// What a successful request is answered with.
pub const OK: u16 = 200;

/// The file is to be had elsewhere.
pub const FOUND: u16 = 302;

/// The request makes no sense.
pub const BAD_REQUEST: u16 = 400;

/// The caller has not proved who it is.
pub const UNAUTHORIZED: u16 = 401;

/// The caller may not.
pub const FORBIDDEN: u16 = 403;

/// There is no such thing.
pub const NOT_FOUND: u16 = 404;

/// The body took too long.
pub const REQUEST_TIMEOUT: u16 = 408;

/// Someone else has it.
pub const CONFLICT: u16 = 409;

/// It is no longer offered.
pub const GONE: u16 = 410;

/// The body is too large.
pub const PAYLOAD_TOO_LARGE: u16 = 413;

/// The body holds no file.
pub const UNPROCESSABLE_ENTITY: u16 = 422;

/// The caller asks too often, or too much is pending.
pub const TOO_MANY_REQUESTS: u16 = 429;

/// The server failed.
pub const INTERNAL_SERVER_ERROR: u16 = 500;

/// Too many are connected.
pub const SERVICE_UNAVAILABLE: u16 = 503;

/// The cookie that a phone's browser is known by.
pub const BROWSER_SESSION_COOKIE: &'static str = "__Host-qr_paste_browser_session";

/// The cookie's name where there is no TLS.
pub const LEGACY_BROWSER_SESSION_COOKIE: &'static str = "qr_paste_browser_session";

/// How many characters of a phone's own name are kept.
pub const MAX_DEVICE_INFO_LEN: usize = 256;

/// A header of a reply.
#[derive(Debug)]
pub struct Header {
    /// Its name, in small letters.
    pub name: String,
    /// Its value.
    pub value: String,
}

/// The content of a reply.
#[derive(Debug)]
pub enum Body {
    /// An error's code.
    Error { code: String },
    /// A browser was let in.
    Bootstrapped { online: bool, pairing_epoch: u64 },
    /// How a pairing stands.
    Status { online: bool, pairing_epoch: u64, retry_after_ms: u64 },
    /// A ticket.
    Ticket { ws_ticket: String, expires_in_ms: u64 },
    /// A pairing was revoked.
    Revoked { pairing_epoch: u64 },
    /// A file was taken.
    Uploaded { file_id: String, file_name: String, mime_type: String, size_bytes: u64, sha256: String },
    /// It is done.
    Done,
    /// The page for phones, for a pairing and with a nonce for its scripts.
    Page { pairing_id: String, nonce: String },
    /// The file at a path.
    File { path: String },
    /// What comes out of a channel.
    Stream { channel: u64 },
    /// Plain text.
    Text { text: String },
    /// Nothing.
    Empty,
}

/// The content of a reply, for contracts.
pub enum BodyView {
    Error { code: Seq<char> },
    Bootstrapped { online: bool, pairing_epoch: u64 },
    Status { online: bool, pairing_epoch: u64, retry_after_ms: u64 },
    Ticket { ws_ticket: Seq<char>, expires_in_ms: u64 },
    Revoked { pairing_epoch: u64 },
    Uploaded {
        file_id: Seq<char>,
        file_name: Seq<char>,
        mime_type: Seq<char>,
        size_bytes: u64,
        sha256: Seq<char>,
    },
    Done,
    Page { pairing_id: Seq<char>, nonce: Seq<char> },
    File { path: Seq<char> },
    Stream { channel: u64 },
    Text { text: Seq<char> },
    Empty,
}

impl View for Body {
    type V = BodyView;

    open spec fn view(&self) -> BodyView {
        match self {
            Body::Error { code } => BodyView::Error { code: code@ },
            Body::Bootstrapped { online, pairing_epoch } => BodyView::Bootstrapped {
                online: *online,
                pairing_epoch: *pairing_epoch,
            },
            Body::Status { online, pairing_epoch, retry_after_ms } => BodyView::Status {
                online: *online,
                pairing_epoch: *pairing_epoch,
                retry_after_ms: *retry_after_ms,
            },
            Body::Ticket { ws_ticket, expires_in_ms } => BodyView::Ticket {
                ws_ticket: ws_ticket@,
                expires_in_ms: *expires_in_ms,
            },
            Body::Revoked { pairing_epoch } => BodyView::Revoked { pairing_epoch: *pairing_epoch },
            Body::Uploaded { file_id, file_name, mime_type, size_bytes, sha256 } =>
                BodyView::Uploaded {
                    file_id: file_id@,
                    file_name: file_name@,
                    mime_type: mime_type@,
                    size_bytes: *size_bytes,
                    sha256: sha256@,
                },
            Body::Done => BodyView::Done,
            Body::Page { pairing_id, nonce } => BodyView::Page {
                pairing_id: pairing_id@,
                nonce: nonce@,
            },
            Body::File { path } => BodyView::File { path: path@ },
            Body::Stream { channel } => BodyView::Stream { channel: *channel },
            Body::Text { text } => BodyView::Text { text: text@ },
            Body::Empty => BodyView::Empty,
        }
    }
}

/// A reply.
#[derive(Debug)]
pub struct Reply {
    /// Its status.
    pub status: u16,
    /// Its headers, in order; a name may come more than once.
    pub headers: Vec<Header>,
    /// Its content.
    pub body: Body,
}

/// A reply, for contracts.
#[verifier::ext_equal]
pub struct ReplyView {
    pub status: u16,
    pub headers: Seq<(Seq<char>, Seq<char>)>,
    pub body: BodyView,
}

/// The names and values of headers.
pub open spec fn header_views(v: Seq<Header>) -> Seq<(Seq<char>, Seq<char>)> {
    v.map_values(|h: Header| (h.name@, h.value@))
}

impl View for Reply {
    type V = ReplyView;

    open spec fn view(&self) -> ReplyView {
        ReplyView {
            status: self.status,
            headers: header_views(self.headers@),
            body: self.body@,
        }
    }
}

/// The headers of every reply that is not a file: it is not to be kept, its address is not to be
/// passed on, and its type is not to be guessed.
pub open spec fn common_headers() -> Seq<(Seq<char>, Seq<char>)> {
    seq![
        ("cache-control"@, "no-store, no-cache, must-revalidate"@),
        ("referrer-policy"@, "no-referrer"@),
        ("x-content-type-options"@, "nosniff"@),
    ]
}

/// The headers that make a browser forget its session.
pub open spec fn forget_headers() -> Seq<(Seq<char>, Seq<char>)> {
    seq![
        (
            "set-cookie"@,
            "__Host-qr_paste_browser_session=; HttpOnly; Secure; SameSite=Strict; Path=/; Max-Age=0"@,
        ),
        (
            "set-cookie"@,
            "qr_paste_browser_session=; HttpOnly; SameSite=Strict; Path=/; Max-Age=0"@,
        ),
    ]
}

/// A reply with the common headers.
pub open spec fn plain_reply(status: u16, body: BodyView) -> ReplyView {
    ReplyView { status, headers: common_headers(), body }
}

/// An error.
pub open spec fn error_reply(status: u16, code: Seq<char>) -> ReplyView {
    plain_reply(status, BodyView::Error { code })
}

/// An error that makes the browser forget its session.
pub open spec fn forget_reply(status: u16, code: Seq<char>) -> ReplyView {
    ReplyView { headers: common_headers() + forget_headers(), ..error_reply(status, code) }
}

/// Appends a header.
pub fn add_header(headers: &mut Vec<Header>, name: &str, value: &str)
    ensures
        header_views(final(headers)@) == header_views(old(headers)@).push((name@, value@)),
{
    let h = Header { name: string_of(&chars_of(name)), value: string_of(&chars_of(value)) };
    headers.push(h);
    assert(header_views(headers@) =~= header_views(old(headers)@).push((name@, value@)));
}

/// A reply with the common headers.
pub fn reply(status: u16, body: Body) -> (r: Reply)
    ensures
        r@ == plain_reply(status, body@),
{
    let mut headers: Vec<Header> = Vec::new();
    assert(header_views(headers@) =~= Seq::empty());
    add_header(&mut headers, "cache-control", "no-store, no-cache, must-revalidate");
    add_header(&mut headers, "referrer-policy", "no-referrer");
    add_header(&mut headers, "x-content-type-options", "nosniff");
    assert(header_views(headers@) =~= common_headers());
    Reply { status, headers, body }
}

/// An error.
pub fn error_json(status: u16, code: &str) -> (r: Reply)
    ensures
        r@ == error_reply(status, code@),
{
    reply(status, Body::Error { code: string_of(&chars_of(code)) })
}

/// Makes the browser forget its session.
pub fn clear_browser_session_cookies(r: &mut Reply)
    ensures
        final(r)@ == (ReplyView { headers: old(r)@.headers + forget_headers(), ..old(r)@ }),
{
    add_header(
        &mut r.headers,
        "set-cookie",
        "__Host-qr_paste_browser_session=; HttpOnly; Secure; SameSite=Strict; Path=/; Max-Age=0",
    );
    add_header(
        &mut r.headers,
        "set-cookie",
        "qr_paste_browser_session=; HttpOnly; SameSite=Strict; Path=/; Max-Age=0",
    );
    assert(r@.headers =~= old(r)@.headers + forget_headers());
}

/// The browser has to be let in anew.
pub fn reauth_required_response() -> (r: Reply)
    ensures
        r@ == forget_reply(UNAUTHORIZED, "reauth_required"@),
{
    let mut r = error_json(UNAUTHORIZED, "reauth_required");
    clear_browser_session_cookies(&mut r);
    r
}

/// The browser's pairing is gone.
pub fn pairing_not_found_response() -> (r: Reply)
    ensures
        r@ == forget_reply(NOT_FOUND, "pairing_not_found"@),
{
    let mut r = error_json(NOT_FOUND, "pairing_not_found");
    clear_browser_session_cookies(&mut r);
    r
}

/// The text of a bearer credential.
pub open spec fn bearer_of(authorization: Option<Seq<char>>) -> Option<Seq<char>> {
    match authorization {
        Some(value) => if "Bearer "@.is_prefix_of(value) {
            Some(value.skip("Bearer "@.len() as int))
        } else {
            None
        },
        None => None,
    }
}

/// The text of a bearer credential.
pub fn bearer_token(authorization: Option<&str>) -> (r: Option<String>)
    ensures
        text::opt_chars(r) == bearer_of(config::opt_str(authorization)),
{
    match authorization {
        Some(value) => match strip_prefix(&chars_of(value), "Bearer ") {
            Some(token) => Some(string_of(token)),
            None => None,
        },
        None => None,
    }
}

/// What a phone calls itself, cut to a sensible length.
pub open spec fn device_of(user_agent: Option<Seq<char>>) -> Option<Seq<char>> {
    match user_agent {
        Some(value) => {
            let name = text::trimmed(value);
            if name.len() == 0 {
                None
            } else if name.len() <= MAX_DEVICE_INFO_LEN {
                Some(name)
            } else {
                Some(name.take(MAX_DEVICE_INFO_LEN as int))
            }
        },
        None => None,
    }
}

/// What a phone calls itself, cut to a sensible length.
pub fn extract_device_info(user_agent: Option<&str>) -> (r: Option<String>)
    ensures
        text::opt_chars(r) == device_of(config::opt_str(user_agent)),
{
    match user_agent {
        Some(value) => {
            let cs = chars_of(value);
            let name = trim(&cs);
            if name.len() == 0 {
                None
            } else if name.len() <= MAX_DEVICE_INFO_LEN {
                Some(string_of(name))
            } else {
                let head = vstd::slice::slice_subrange(name, 0, MAX_DEVICE_INFO_LEN);
                assert(head@ =~= name@.take(MAX_DEVICE_INFO_LEN as int));
                Some(string_of(head))
            }
        },
        None => None,
    }
}

/// Is this a cookie of the given name?
pub open spec fn is_cookie(item: Seq<char>, name: Seq<char>) -> bool {
    item.contains('=') && item.take(text::first_at(item, '=')) == name
}

/// The value of a cookie.
pub open spec fn value_of(item: Seq<char>) -> Seq<char> {
    item.skip(text::first_at(item, '=') + 1)
}

/// The value of the first cookie of the given name.
pub open spec fn first_cookie(items: Seq<Seq<char>>, name: Seq<char>) -> Option<Seq<char>>
    decreases items.len(),
{
    if items.len() == 0 {
        None
    } else {
        let item = text::trimmed(items.last());
        match first_cookie(items.drop_last(), name) {
            Some(v) => Some(v),
            None => if is_cookie(item, name) {
                Some(value_of(item))
            } else {
                None
            },
        }
    }
}

/// The value of the last cookie of the given name.
pub open spec fn last_cookie(items: Seq<Seq<char>>, name: Seq<char>) -> Option<Seq<char>>
    decreases items.len(),
{
    if items.len() == 0 {
        None
    } else {
        let item = text::trimmed(items.last());
        if is_cookie(item, name) {
            Some(value_of(item))
        } else {
            last_cookie(items.drop_last(), name)
        }
    }
}

/// The session that a browser's cookies name: the first cookie of the name that is used with TLS,
/// or else the last of the other name.
pub open spec fn session_cookie(cookies: Option<Seq<char>>) -> Option<Seq<char>> {
    match cookies {
        Some(header) => {
            let items = text::split_on(header, ';');
            match first_cookie(items, BROWSER_SESSION_COOKIE@) {
                Some(v) => Some(v),
                None => last_cookie(items, LEGACY_BROWSER_SESSION_COOKIE@),
            }
        },
        None => None,
    }
}

proof fn lemma_first_cookie_take(items: Seq<Seq<char>>, name: Seq<char>, n: int)
    requires
        0 <= n <= items.len(),
    ensures
        first_cookie(items.take(n), name) is Some ==> first_cookie(items, name) == first_cookie(
            items.take(n),
            name,
        ),
    decreases items.len() - n,
{
    if n < items.len() {
        lemma_first_cookie_take(items, name, n + 1);
        assert(items.take(n + 1).drop_last() =~= items.take(n));
    } else {
        assert(items.take(n) =~= items);
    }
}

/// The session that a browser's cookies name.
pub fn read_browser_session_cookie(cookie: Option<&str>) -> (r: Option<String>)
    ensures
        text::opt_chars(r) == session_cookie(config::opt_str(cookie)),
{
    let header = match cookie {
        Some(header) => header,
        None => {
            return None;
        },
    };
    let items = split(&chars_of(header), ';');
    let ghost all = text::split_on(header@, ';');
    let mut legacy: Option<String> = None;
    for i in 0..items.len()
        invariant
            text::views(items@) == all,
            all.len() == items@.len(),
            cookie == Some(header),
            all == text::split_on(header@, ';'),
            first_cookie(all.take(i as int), BROWSER_SESSION_COOKIE@) is None,
            text::opt_chars(legacy) == last_cookie(
                all.take(i as int),
                LEGACY_BROWSER_SESSION_COOKIE@,
            ),
    {
        let item = trim(&items[i]);
        proof {
            assert(all[i as int] == items@[i as int]@);
            assert(all.take(i as int + 1).drop_last() =~= all.take(i as int));
            lemma_first_cookie_take(all, BROWSER_SESSION_COOKIE@, i as int + 1);
            text::lemma_first_at(item@, '=');
        }
        let len: usize = item.len();
        if let Some(at) = find_char(item, '=') {
            let name = vstd::slice::slice_subrange(item, 0, at);
            let value = vstd::slice::slice_subrange(item, at + 1, len);
            assert(name@ =~= item@.take(at as int));
            assert(value@ =~= value_of(item@));
            if eq_lit(name, BROWSER_SESSION_COOKIE) {
                return Some(string_of(value));
            }
            if eq_lit(name, LEGACY_BROWSER_SESSION_COOKIE) {
                legacy = Some(string_of(value));
            }
        }
    }
    assert(all.take(all.len() as int) =~= all);
    legacy
}

/// What `base64` writes for bytes with the URL-safe alphabet and without padding.
pub uninterp spec fn b64_text(bytes: Seq<u8>) -> Seq<char>;

/// What `base64` reads from a text with the URL-safe alphabet and without padding.
pub uninterp spec fn b64_bytes(text: Seq<char>) -> Option<Seq<u8>>;

/// The URL-safe alphabet.
pub open spec fn is_b64_char(c: char) -> bool {
    'A' <= c <= 'Z' || 'a' <= c <= 'z' || '0' <= c <= '9' || c == '-' || c == '_'
}

/// `URL_SAFE_NO_PAD.encode`: a function of the bytes alone. It writes four characters of the
/// URL-safe alphabet for three bytes, the last ones not filled up, and `decode` reads them back.
#[verifier::external_body]
pub(crate) fn b64_encode(bytes: &[u8; 32]) -> (r: String)
    ensures
        r@ == b64_text(bytes@),
        r@.len() == 43,
        forall|i: int| 0 <= i < r@.len() ==> is_b64_char(#[trigger] r@[i]),
        b64_bytes(r@) == Some(bytes@),
{
    URL_SAFE_NO_PAD.encode(bytes)
}

/// `URL_SAFE_NO_PAD.decode`, its error dropped: a function of the text alone.
#[verifier::external_body]
pub(crate) fn b64_decode(text: &str) -> (r: Option<Vec<u8>>)
    ensures
        match r {
            Some(bytes) => b64_bytes(text@) == Some(bytes@),
            None => b64_bytes(text@) is None,
        },
{
    URL_SAFE_NO_PAD.decode(text).ok()
}

/// The pieces without surrounding white space, those without anything left out.
pub open spec fn nonempty_tokens(items: Seq<Seq<char>>) -> Seq<Seq<char>>
    decreases items.len(),
{
    if items.len() == 0 {
        items
    } else {
        let item = text::trimmed(items.last());
        if item.len() == 0 {
            nonempty_tokens(items.drop_last())
        } else {
            nonempty_tokens(items.drop_last()).push(item)
        }
    }
}

/// What is left when the prefix is taken away as often as it stands there.
pub open spec fn strip_all(s: Seq<char>, prefix: Seq<char>) -> Seq<char>
    decreases s.len(),
{
    if prefix.len() > 0 && prefix.is_prefix_of(s) {
        strip_all(s.skip(prefix.len() as int), prefix)
    } else {
        s
    }
}

/// The names of the subprotocol of a phone's connection, the short one and the full one.
pub open spec fn is_protocol(name: Seq<char>) -> bool {
    name == "v1"@ || name == "qr-paste.v1"@
}

/// The text of the ticket that a list of subprotocols shows: it must be two different entries, one of
/// them a name of the subprotocol and the other a ticket.
pub open spec fn ticket_text_of(value: Seq<char>) -> Option<Seq<char>> {
    let tokens = nonempty_tokens(text::split_on(value, ','));
    if tokens.len() == 2 && tokens[0] != tokens[1] && (is_protocol(tokens[0]) || is_protocol(
        tokens[1],
    )) {
        let other = if is_protocol(tokens[0]) {
            tokens[1]
        } else {
            tokens[0]
        };
        let opaque = strip_all(other, "ticket."@);
        if "ticket."@.is_prefix_of(other) && opaque.len() > 0 {
            Some(opaque)
        } else {
            None
        }
    } else {
        None
    }
}

/// The ticket that a list of subprotocols shows: the thirty-two bytes that its text stands for.
pub open spec fn ticket_of(value: Seq<char>) -> Option<Seq<u8>> {
    match ticket_text_of(value) {
        Some(opaque) => match b64_bytes(opaque) {
            Some(b) => if b.len() == 32 {
                Some(b)
            } else {
                None
            },
            None => None,
        },
        None => None,
    }
}

/// The pieces without surrounding white space, those without anything left out.
fn tokens_of(items: &Vec<Vec<char>>) -> (r: Vec<Vec<char>>)
    ensures
        text::views(r@) == nonempty_tokens(text::views(items@)),
{
    let mut out: Vec<Vec<char>> = Vec::new();
    let ghost all = text::views(items@);
    assert(text::views(out@) =~= Seq::empty());
    assert(all.take(0) =~= Seq::empty());
    for i in 0..items.len()
        invariant
            all == text::views(items@),
            text::views(out@) == nonempty_tokens(all.take(i as int)),
    {
        let item = trim(&items[i]);
        let ghost before = out@;
        proof {
            assert(all[i as int] == items@[i as int]@);
            assert(all.take(i as int + 1).drop_last() =~= all.take(i as int));
        }
        if item.len() > 0 {
            let token = to_vec(item);
            out.push(token);
            assert(text::views(out@) =~= text::views(before).push(item@));
        }
    }
    assert(all.take(all.len() as int) =~= all);
    out
}

/// What is left when `ticket.` is taken away as often as it stands there.
fn strip_ticket(cs: &[char]) -> (r: &[char])
    ensures
        r@ == strip_all(cs@, "ticket."@),
    decreases cs@.len(),
{
    proof {
        reveal_strlit("ticket.");
    }
    match strip_prefix(cs, "ticket.") {
        Some(rest) => strip_ticket(rest),
        None => cs,
    }
}

/// The thirty-two bytes of a list, if it has so many.
pub(crate) fn array_32(bytes: &Vec<u8>) -> (r: Option<[u8; 32]>)
    ensures
        match r {
            Some(a) => a@ == bytes@,
            None => bytes@.len() != 32,
        },
{
    if bytes.len() != 32 {
        return None;
    }
    let mut out = [0u8; 32];
    let mut i: usize = 0;
    while i < 32
        invariant
            i <= 32,
            bytes@.len() == 32,
            forall|j: int| 0 <= j < i ==> out@[j] == bytes@[j],
        decreases 32 - i,
    {
        out[i] = bytes[i];
        i = i + 1;
    }
    assert(out@ =~= bytes@);
    Some(out)
}

/// Is this a name of the subprotocol?
fn names_protocol(token: &[char]) -> (r: bool)
    ensures
        r == is_protocol(token@),
{
    eq_lit(token, "v1") || eq_lit(token, "qr-paste.v1")
}

/// The text of the ticket that a list of subprotocols shows.
pub fn ws_ticket_text(value: &str) -> (r: Option<String>)
    ensures
        text::opt_chars(r) == ticket_text_of(value@),
{
    let tokens = tokens_of(&split(&chars_of(value), ','));
    let ghost t = nonempty_tokens(text::split_on(value@, ','));
    assert(text::views(tokens@) == t);
    if tokens.len() != 2 {
        return None;
    }
    proof {
        assert(t[0] == tokens@[0]@);
        assert(t[1] == tokens@[1]@);
    }
    if eq_chars(&tokens[0], &tokens[1]) {
        return None;
    }
    let first = names_protocol(&tokens[0]);
    let second = names_protocol(&tokens[1]);
    if !first && !second {
        return None;
    }
    let other: &Vec<char> = if first {
        &tokens[1]
    } else {
        &tokens[0]
    };
    if strip_prefix(other, "ticket.").is_none() {
        return None;
    }
    let opaque = strip_ticket(other);
    if opaque.len() == 0 {
        return None;
    }
    Some(string_of(opaque))
}

/// The ticket that the bytes of its text are, if there are as many as a ticket has.
pub fn ticket_from_bytes(decoded: Option<Vec<u8>>) -> (r: Result<[u8; 32], u16>)
    ensures
        match r {
            Ok(ticket) => decoded matches Some(bytes) && bytes@ == ticket@,
            Err(status) => status == BAD_REQUEST && (decoded matches Some(bytes) ==> bytes@.len()
                != 32),
        },
{
    match decoded {
        Some(bytes) => match array_32(&bytes) {
            Some(ticket) => Ok(ticket),
            None => Err(BAD_REQUEST),
        },
        None => Err(BAD_REQUEST),
    }
}

/// The ticket that a list of subprotocols shows.
pub fn parse_ws_protocol_ticket(value: &str) -> (r: Result<[u8; 32], u16>)
    ensures
        match r {
            Ok(ticket) => ticket_of(value@) == Some(ticket@),
            Err(status) => status == BAD_REQUEST && ticket_of(value@) is None,
        },
{
    match ws_ticket_text(value) {
        Some(opaque) => ticket_from_bytes(b64_decode(&opaque)),
        None => Err(BAD_REQUEST),
    }
}

/// Does a request come from the server's own page? Its `Origin` must be a URL with the public
/// origin.
pub open spec fn origin_ok(origin: Option<Seq<char>>, public_origin: Seq<char>) -> bool {
    match origin {
        Some(o) => o.len() > 0 && o != "null"@ && (match net::url_parse(o) {
            Ok(url) => has_origin(url, public_origin),
            Err(_) => false,
        }),
        None => false,
    }
}

/// Has a URL of these parts the origin?
pub open spec fn has_origin(url: net::UrlView, public_origin: Seq<char>) -> bool {
    config::origin_text(url.scheme, config::host_or_empty(url), url.port) == public_origin
}

/// Has a URL of these parts the origin?
pub fn origin_matches(url: &net::UrlParts, public_origin: &str) -> (r: bool)
    ensures
        r == has_origin(url@, public_origin@),
{
    let host = match &url.host_str {
        Some(h) => h.clone(),
        None => String::new(),
    };
    let normalized = origin_string(&url.scheme, &host, url.port);
    eq_chars(&chars_of(&normalized), &chars_of(public_origin))
}

/// Does a request come from the server's own page?
pub fn require_browser_origin(origin: Option<&str>, public_origin: &str) -> (r: Result<(), u16>)
    ensures
        r == (if origin_ok(config::opt_str(origin), public_origin@) {
            Ok::<(), u16>(())
        } else {
            Err::<(), u16>(FORBIDDEN)
        }),
{
    let text = match origin {
        Some(text) => text,
        None => {
            return Err(FORBIDDEN);
        },
    };
    let cs = chars_of(text);
    if cs.is_empty() || eq_lit(&cs, "null") {
        return Err(FORBIDDEN);
    }
    match parse_url(text) {
        Ok(url) => {
            if origin_matches(&url, public_origin) {
                Ok(())
            } else {
                Err(FORBIDDEN)
            }
        },
        Err(_) => Err(FORBIDDEN),
    }
}

/// `HeaderValue::from_str`: may the text stand in a header? No control characters but the tab.
#[verifier::external_body]
pub(crate) fn is_header_value(text: &str) -> (r: bool)
    ensures
        r == header_text(text@),
{
    axum::http::HeaderValue::from_str(text).is_ok()
}

/// May the text stand in a header? No control characters but the tab.
pub open spec fn header_text(s: Seq<char>) -> bool {
    forall|i: int|
        0 <= i < s.len() ==> (#[trigger] s[i] == '\t' || (s[i] as u32 >= 0x20 && s[i] as u32
            != 0x7f))
}

} // verus!
