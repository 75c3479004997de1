//! How the server is configured, and which configurations it accepts.

use crate::net;
use crate::net::{
    is_loopback_ip, is_non_public_ip, parse_cidr, parse_ip, parse_url, parse_url_host, Cidr, Ip,
    UrlHost, UrlParts,
};
use crate::text;
use crate::text::{
    chars_of, eq_lit, push_chars, push_decimal, rfind_char, string_of, to_lower, trim,
    trim_end_char,
};
use vstd::prelude::*;

verus! {

/// The ranges of the reverse proxies whose word on a client's address is taken.
#[derive(Debug)]
pub struct TrustedProxyCidrs {
    networks: Vec<Cidr>,
}

impl View for TrustedProxyCidrs {
    type V = Seq<Cidr>;

    closed spec fn view(&self) -> Seq<Cidr> {
        self.networks@
    }
}

/// What stands against a range in the configuration: that it is empty, or that it is none.
pub open spec fn cidr_error(value: Seq<char>) -> Option<Seq<char>> {
    let cidr = text::trimmed(value);
    if cidr.len() == 0 {
        Some("trusted_proxy_cidrs 不能包含空字符串"@)
    } else if net::cidr_parse(cidr) is None {
        Some(
            "trusted_proxy_cidrs 包含非法 CIDR `"@ + cidr + "`："@
                + "invalid IP address syntax"@,
        )
    } else {
        None
    }
}

/// What stands against a list of ranges: what stands against the first that anything stands
/// against.
pub open spec fn cidrs_error(values: Seq<String>) -> Option<Seq<char>>
    decreases values.len(),
{
    if values.len() == 0 {
        None
    } else {
        match cidrs_error(values.drop_last()) {
            Some(e) => Some(e),
            None => cidr_error(values.last()@),
        }
    }
}

/// Does the address lie in one of the ranges?
pub open spec fn trusts(networks: Seq<Cidr>, ip: Ip) -> bool {
    exists|i: int| 0 <= i < networks.len() && (#[trigger] networks[i]).has(ip)
}

/// The address that a header entry writes, if it writes one.
pub open spec fn entry_ip(entry: Seq<char>) -> Option<(bool, u128)> {
    let e = text::trimmed(entry);
    if e.len() == 0 {
        None
    } else {
        net::ip_parse(e)
    }
}

/// The address of the client: that of the peer, unless the peer is a trusted proxy. Of a trusted
/// proxy's word the last entry of `X-Forwarded-For` counts; only where that header is missing,
/// `X-Real-IP`; and the peer's address where neither writes one.
pub open spec fn client_ip(
    networks: Seq<Cidr>,
    peer: Ip,
    forwarded: Option<Seq<char>>,
    real_ip: Option<Seq<char>>,
) -> (bool, u128) {
    claimed_ip(
        trusts(networks, peer),
        peer.bits(),
        match forwarded {
            Some(value) => Some(entry_ip(value.skip(text::last_at(value, ',') + 1))),
            None => None,
        },
        match real_ip {
            Some(value) => entry_ip(value),
            None => None,
        },
    )
}

/// The address of the client, given whether the peer is trusted and what its headers write: the
/// address in the one, if there is one and it writes one, and the address in the other.
pub open spec fn claimed_ip(
    trusted: bool,
    peer: (bool, u128),
    forwarded: Option<Option<(bool, u128)>>,
    real_ip: Option<(bool, u128)>,
) -> (bool, u128) {
    let claimed = match forwarded {
        Some(ip) => ip,
        None => real_ip,
    };
    match claimed {
        Some(ip) => if trusted {
            ip
        } else {
            peer
        },
        None => peer,
    }
}

/// The bits of an address, if there is one.
pub open spec fn opt_bits(ip: Option<Ip>) -> Option<(bool, u128)> {
    match ip {
        Some(ip) => Some(ip.bits()),
        None => None,
    }
}

/// The address of the client, given whether the peer is trusted and what its headers write.
pub fn choose_client_ip(
    trusted: bool,
    peer_ip: Ip,
    forwarded: Option<Option<Ip>>,
    real_ip: Option<Ip>,
) -> (r: Ip)
    ensures
        r.bits() == claimed_ip(
            trusted,
            peer_ip.bits(),
            match forwarded {
                Some(ip) => Some(opt_bits(ip)),
                None => None,
            },
            opt_bits(real_ip),
        ),
{
    if !trusted {
        return peer_ip;
    }
    let claimed = match forwarded {
        Some(ip) => ip,
        None => real_ip,
    };
    match claimed {
        Some(ip) => ip,
        None => peer_ip,
    }
}

/// The address that a header entry writes, if it writes one.
fn parse_entry(entry: &[char]) -> (r: Option<Ip>)
    ensures
        r is Some <==> entry_ip(entry@) is Some,
        r matches Some(ip) ==> entry_ip(entry@) == Some(ip.bits()),
{
    let e = trim(entry);
    if e.len() == 0 {
        return None;
    }
    parse_ip(&string_of(e))
}

/// The address in the last entry of an `X-Forwarded-For` header.
pub fn parse_rightmost_forwarded_ip(value: &str) -> (r: Option<Ip>)
    ensures
        ({
            let want = entry_ip(value@.skip(text::last_at(value@, ',') + 1));
            &&& r is Some <==> want is Some
            &&& r matches Some(ip) ==> want == Some(ip.bits())
        }),
{
    let cs = chars_of(value);
    let len: usize = cs.len();
    let start: usize = match rfind_char(&cs, ',') {
        Some(i) => i + 1,
        None => 0,
    };
    proof {
        text::lemma_last_at(cs@, ',');
    }
    let tail = vstd::slice::slice_subrange(&cs, start, len);
    assert(tail@ =~= value@.skip(text::last_at(value@, ',') + 1));
    parse_entry(tail)
}

/// The address in an `X-Real-IP` header.
pub fn parse_ip_header(value: Option<&str>) -> (r: Option<Ip>)
    ensures
        ({
            let want = match value {
                Some(v) => entry_ip(v@),
                None => None,
            };
            &&& r is Some <==> want is Some
            &&& r matches Some(ip) ==> want == Some(ip.bits())
        }),
{
    match value {
        Some(v) => parse_entry(&chars_of(v)),
        None => None,
    }
}

/// The characters of a text, or of none.
pub open spec fn opt_str(s: Option<&str>) -> Option<Seq<char>> {
    match s {
        Some(s) => Some(s@),
        None => None,
    }
}

impl TrustedProxyCidrs {
    #[verifier::type_invariant]
    spec fn sound(self) -> bool {
        forall|i: int| 0 <= i < self.networks@.len() ==> (#[trigger] self.networks@[i]).wf()
    }

    /// No proxy is trusted.
    pub fn none() -> (r: Self)
        ensures
            r@ == Seq::<Cidr>::empty(),
    {
        TrustedProxyCidrs { networks: Vec::new() }
    }

    /// The ranges that the configuration lists, or what stands against the first that is none.
    pub fn parse(values: &[String]) -> (r: Result<Self, String>)
        ensures
            match r {
                Ok(p) => {
                    &&& cidrs_error(values@) is None
                    &&& p@.len() == values@.len()
                    &&& forall|i: int|
                        0 <= i < values@.len() ==> net::cidr_parse(
                            text::trimmed((#[trigger] values@[i])@),
                        ) == Some(p@[i].parts())
                },
                Err(e) => cidrs_error(values@) == Some(e@),
            },
    {
        let mut networks: Vec<Cidr> = Vec::new();
        for i in 0..values.len()
            invariant
                cidrs_error(values@.take(i as int)) is None,
                networks@.len() == i,
                forall|j: int|
                    0 <= j < i ==> net::cidr_parse(text::trimmed((#[trigger] values@[j])@)) == Some(
                        networks@[j].parts(),
                    ),
                forall|j: int| 0 <= j < i ==> (#[trigger] networks@[j]).wf(),
        {
            let cs = chars_of(values[i].as_str());
            let cidr = trim(&cs);
            proof {
                assert(values@.take(i as int + 1).drop_last() =~= values@.take(i as int));
                lemma_cidrs_error_take(values@, i as int + 1);
            }
            if cidr.len() == 0 {
                return Err(string_of(&chars_of("trusted_proxy_cidrs 不能包含空字符串")));
            }
            match parse_cidr(&string_of(cidr)) {
                Ok(network) => {
                    networks.push(network);
                },
                Err(e) => {
                    let mut message = string_of(
                        &chars_of("trusted_proxy_cidrs 包含非法 CIDR `"),
                    );
                    push_chars(&mut message, cidr);
                    push_chars(&mut message, &chars_of("`："));
                    push_chars(&mut message, &chars_of(&e));
                    return Err(message);
                },
            }
        }
        assert(values@.take(values@.len() as int) =~= values@);
        Ok(TrustedProxyCidrs { networks })
    }

    /// Is the peer a trusted proxy?
    pub fn trusts_peer(&self, peer_ip: Ip) -> (r: bool)
        ensures
            r == trusts(self@, peer_ip),
    {
        proof {
            use_type_invariant(self);
        }
        for i in 0..self.networks.len()
            invariant
                forall|j: int|
                    0 <= j < self.networks@.len() ==> (#[trigger] self.networks@[j]).wf(),
                forall|j: int| 0 <= j < i ==> !(#[trigger] self.networks@[j]).has(peer_ip),
        {
            if self.networks[i].contains(peer_ip) {
                assert(self@[i as int].has(peer_ip));
                return true;
            }
        }
        false
    }

    /// The address of the client behind the peer.
    pub fn resolve_client_ip(
        &self,
        peer_ip: Ip,
        x_forwarded_for: Option<&str>,
        x_real_ip: Option<&str>,
    ) -> (r: Ip)
        ensures
            r.bits() == client_ip(
                self@,
                peer_ip,
                opt_str(x_forwarded_for),
                opt_str(x_real_ip),
            ),
    {
        let forwarded = match x_forwarded_for {
            Some(value) => Some(parse_rightmost_forwarded_ip(value)),
            None => None,
        };
        choose_client_ip(
            self.trusts_peer(peer_ip),
            peer_ip,
            forwarded,
            parse_ip_header(x_real_ip),
        )
    }
}

/// Where something stands against one of the first entries, it stands against the whole list.
proof fn lemma_cidrs_error_take(values: Seq<String>, n: int)
    requires
        0 <= n <= values.len(),
    ensures
        cidrs_error(values.take(n)) is Some ==> cidrs_error(values) == cidrs_error(values.take(n)),
    decreases values.len() - n,
{
    if n < values.len() {
        lemma_cidrs_error_take(values, n + 1);
        assert(values.take(n + 1).drop_last() =~= values.take(n));
    } else {
        assert(values.take(n) =~= values);
    }
}

/// An untrusted peer is the client, whatever the headers say.
pub proof fn law_untrusted_headers_ignored(
    networks: Seq<Cidr>,
    peer: Ip,
    forwarded: Option<Seq<char>>,
    real_ip: Option<Seq<char>>,
)
    requires
        !trusts(networks, peer),
    ensures
        client_ip(networks, peer, forwarded, real_ip) == peer.bits(),
{
}

/// How the server is configured.
pub struct ServerConfig {
    /// The address that phones reach the server by, without a trailing slash.
    pub public_base_url: String,
    /// The secret that PC clients subscribe with.
    pub grpc_auth_token: String,
    /// The port for PC clients.
    pub grpc_port: u16,
    /// The port for phones.
    pub http_port: u16,
    /// The address that phones are listened for on.
    pub http_bind_host: Ip,
    /// The address that PC clients are listened for on.
    pub grpc_bind_host: Ip,
    /// Seconds that an unused session is kept for.
    pub token_expiry_secs: u64,
    /// Seconds that a pairing is kept for after its PC is gone.
    pub pairing_ttl_secs: u64,
    /// Seconds between cleanups.
    pub token_cleanup_interval_secs: u64,
    /// Connections that one address may open in a minute.
    pub ws_rate_limit_per_ip_per_min: u32,
    /// Requests that one address may make in a minute.
    pub http_rate_limit_per_ip_per_min: u32,
    /// Connections at one time.
    pub max_ws_connections: usize,
    /// Bytes of one message.
    pub max_message_size_bytes: usize,
    /// Seconds that a connection may be silent for.
    pub ws_idle_timeout_secs: u64,
    /// Seconds between keepalive probes to a PC client.
    pub grpc_keepalive_interval_secs: u64,
    /// Seconds that an answer to a probe is waited for.
    pub grpc_keepalive_timeout_secs: u64,
    /// How much is logged.
    pub log_level: String,
    /// The ranges of trusted reverse proxies.
    pub trusted_proxy_cidrs: Vec<String>,
    /// Is the server used without TLS, for development?
    pub debug_mode: bool,
}

/// The origin of a URL: its scheme and host in small letters, and its port where that is not the
/// usual one.
pub open spec fn origin_text(scheme: Seq<char>, host: Seq<char>, port: Option<u16>) -> Seq<char> {
    let s = text::lower(scheme);
    let base = s + "://"@ + text::lower(host);
    match port {
        None => base,
        Some(p) => if (s == "http"@ && p == 80) || (s == "https"@ && p == 443) {
            base
        } else {
            base + ":"@ + text::decimal(p as nat)
        },
    }
}

/// The origin of a URL of these parts, or why it has none.
pub open spec fn origin_of_parts(url: net::UrlView) -> Result<Seq<char>, Seq<char>> {
    match url.host_str {
        None => Err("origin 缺少主机名"@),
        Some(host) => Ok(text::trim_end_of(origin_text(url.scheme, host, url.port), '/')),
    }
}

/// The origin of a URL, or why it has none.
pub open spec fn normalized_origin(value: Seq<char>) -> Result<Seq<char>, Seq<char>> {
    match net::url_parse(value) {
        Err(e) => Err("origin 解析失败："@ + e),
        Ok(url) => origin_of_parts(url),
    }
}

/// Writes the origin of a URL.
pub fn origin_string(scheme: &str, host: &str, port: Option<u16>) -> (r: String)
    ensures
        r@ == origin_text(scheme@, host@, port),
{
    let s = to_lower(&chars_of(scheme));
    let mut out = string_of(&s);
    push_chars(&mut out, &chars_of("://"));
    push_chars(&mut out, &to_lower(&chars_of(host)));
    match port {
        None => {},
        Some(p) => {
            let usual = (eq_lit(&s, "http") && p == 80) || (eq_lit(&s, "https") && p == 443);
            if !usual {
                push_chars(&mut out, &chars_of(":"));
                push_decimal(&mut out, p as u64);
            }
        },
    }
    out
}

/// The origin of a URL of these parts, or why it has none.
pub fn origin_from_parts(url: &UrlParts) -> (r: Result<String, String>)
    ensures
        match r {
            Ok(s) => origin_of_parts(url@) == Ok::<Seq<char>, Seq<char>>(s@),
            Err(e) => origin_of_parts(url@) == Err::<Seq<char>, Seq<char>>(e@),
        },
{
    match &url.host_str {
        None => Err(string_of(&chars_of("origin 缺少主机名"))),
        Some(host) => {
            let origin = origin_string(&url.scheme, host, url.port);
            Ok(string_of(trim_end_char(&chars_of(&origin), '/')))
        },
    }
}

/// The origin of a URL, or why it has none.
pub fn normalize_origin(value: &str) -> (r: Result<String, String>)
    ensures
        match r {
            Ok(s) => normalized_origin(value@) == Ok::<Seq<char>, Seq<char>>(s@),
            Err(e) => normalized_origin(value@) == Err::<Seq<char>, Seq<char>>(e@),
        },
{
    match parse_url(value) {
        Err(e) => {
            let mut message = string_of(&chars_of("origin 解析失败："));
            push_chars(&mut message, &chars_of(&e));
            Err(message)
        },
        Ok(url) => origin_from_parts(&url),
    }
}

/// Is the host the machine itself?
pub open spec fn host_is_loopback(host: Option<net::HostView>) -> bool {
    match host {
        Some(net::HostView::V4(a)) => net::is_loopback(Ip::V4(a)),
        Some(net::HostView::V6(a)) => net::is_loopback(Ip::V6(a)),
        Some(net::HostView::Domain(name)) => name == "localhost"@,
        None => false,
    }
}

/// Is the host one that the public network does not reach?
pub open spec fn host_is_non_public(host: Option<net::HostView>) -> bool {
    match host {
        Some(net::HostView::V4(a)) => net::is_non_public(Ip::V4(a)),
        Some(net::HostView::V6(a)) => net::is_non_public(Ip::V6(a)),
        Some(net::HostView::Domain(name)) => name == "localhost"@,
        None => false,
    }
}

/// The host as it is written, empty where there is none.
pub open spec fn host_or_empty(url: net::UrlView) -> Seq<char> {
    match url.host_str {
        Some(h) => h,
        None => Seq::empty(),
    }
}

/// What stands against a public address of these parts, with this host. It must have nothing but
/// scheme, host and port; in clear text it is only for the machine itself, and encrypted only for
/// hosts that phones can reach.
pub open spec fn public_url_error(url: net::UrlView, host: Option<net::HostView>) -> Option<
    Seq<char>,
> {
    if url.username.len() > 0 || url.password is Some {
        Some("public_base_url 不能包含 userinfo"@)
    } else if url.query is Some {
        Some("public_base_url 不能包含 query"@)
    } else if url.fragment is Some {
        Some("public_base_url 不能包含 fragment"@)
    } else if url.path.len() > 0 && url.path != "/"@ {
        Some("public_base_url 不能包含非根路径"@)
    } else if url.scheme == "http"@ && !host_is_loopback(host) {
        Some(http_not_allowed())
    } else if url.scheme == "https"@ && host_is_non_public(host) {
        Some(
            "public_base_url 不能设为内网/loopback 地址（检测到 "@ + host_or_empty(url)
                + "）；请配置手机可访问的公网地址"@,
        )
    } else {
        match origin_of_parts(url) {
            Err(e) => Some(e),
            Ok(_) => None,
        }
    }
}

/// What stands against the public address: that it is no URL, or what stands against its parts.
pub open spec fn base_url_error(value: Seq<char>) -> Option<Seq<char>> {
    match net::url_parse(value) {
        Err(e) => Some("public_base_url 不是合法 URL："@ + e),
        Ok(url) => public_url_error(url, net::url_host(value)),
    }
}

/// The host, for contracts.
pub open spec fn host_view(host: Option<UrlHost>) -> Option<net::HostView> {
    match host {
        Some(h) => Some(h@),
        None => None,
    }
}

/// What is said of a public address in clear text.
pub open spec fn http_not_allowed() -> Seq<char> {
    "public_base_url 必须使用 https:// 协议（生产环境）；检测到非 loopback 地址的 http:// 配置"@
}

/// Is the host the machine itself, and is it one that the public network does not reach?
fn classify_host(host: &Option<UrlHost>) -> (r: (bool, bool))
    ensures
        ({
            &&& r.0 == host_is_loopback(host_view(*host))
            &&& r.1 == host_is_non_public(host_view(*host))
        }),
{
    match host {
        Some(UrlHost::V4(a)) => (is_loopback_ip(Ip::V4(*a)), is_non_public_ip(Ip::V4(*a))),
        Some(UrlHost::V6(a)) => (is_loopback_ip(Ip::V6(*a)), is_non_public_ip(Ip::V6(*a))),
        Some(UrlHost::Domain(name)) => {
            let local = eq_lit(&chars_of(name), "localhost");
            (local, local)
        },
        None => (false, false),
    }
}

/// A message of one part.
fn message(part: &str) -> (r: String)
    ensures
        r@ == part@,
{
    string_of(&chars_of(part))
}

/// Checks a public address of these parts, with this host.
pub fn check_public_url(url: &UrlParts, host: &Option<UrlHost>) -> (r: Result<(), String>)
    ensures
        match r {
            Ok(()) => public_url_error(url@, host_view(*host)) is None,
            Err(e) => public_url_error(url@, host_view(*host)) == Some(e@),
        },
{
    if !chars_of(&url.username).is_empty() || url.password.is_some() {
        return Err(message("public_base_url 不能包含 userinfo"));
    }
    if url.query.is_some() {
        return Err(message("public_base_url 不能包含 query"));
    }
    if url.fragment.is_some() {
        return Err(message("public_base_url 不能包含 fragment"));
    }
    let path = chars_of(&url.path);
    if !path.is_empty() && !eq_lit(&path, "/") {
        return Err(message("public_base_url 不能包含非根路径"));
    }
    let (loopback, non_public) = classify_host(host);
    let scheme = chars_of(&url.scheme);
    if eq_lit(&scheme, "http") && !loopback {
        return Err(
            message(
                "public_base_url 必须使用 https:// 协议（生产环境）；检测到非 loopback 地址的 http:// 配置",
            ),
        );
    }
    if eq_lit(&scheme, "https") && non_public {
        let mut text = message("public_base_url 不能设为内网/loopback 地址（检测到 ");
        if let Some(h) = &url.host_str {
            push_chars(&mut text, &chars_of(h));
        }
        push_chars(&mut text, &chars_of("）；请配置手机可访问的公网地址"));
        proof {
            assert("public_base_url 不能设为内网/loopback 地址（检测到 "@ + Seq::<char>::empty()
                =~= "public_base_url 不能设为内网/loopback 地址（检测到 "@);
        }
        return Err(text);
    }
    match origin_from_parts(url) {
        Ok(_) => Ok(()),
        Err(e) => Err(e),
    }
}

/// Checks the public address.
pub fn validate_public_base_url(public_base_url: &str) -> (r: Result<(), String>)
    ensures
        match r {
            Ok(()) => base_url_error(public_base_url@) is None,
            Err(e) => base_url_error(public_base_url@) == Some(e@),
        },
{
    match parse_url(public_base_url) {
        Ok(url) => check_public_url(&url, &parse_url_host(public_base_url)),
        Err(e) => {
            let mut text = message("public_base_url 不是合法 URL：");
            push_chars(&mut text, &chars_of(&e));
            Err(text)
        },
    }
}

/// The smallest number of bytes of the secret that PC clients subscribe with.
pub const MIN_AUTH_TOKEN_BYTES: usize = 16;

impl ServerConfig {
    /// What stands against the configuration: the first of these that applies.
    pub open spec fn error(self) -> Option<Seq<char>> {
        if text::trimmed(self.public_base_url@).len() == 0 {
            Some("server.toml 中必须填写 public_base_url"@)
        } else if text::trimmed(self.grpc_auth_token@).len() == 0 {
            Some("server.toml 中必须填写 grpc_auth_token"@)
        } else if text::byte_len(self.grpc_auth_token@) < MIN_AUTH_TOKEN_BYTES {
            Some(
                "server.toml 中的 grpc_auth_token 长度不足 16 字符，请使用高熵随机值以确保安全性。"@,
            )
        } else if base_url_error(self.public_base_url@) is Some {
            base_url_error(self.public_base_url@)
        } else if self.ws_rate_limit_per_ip_per_min == 0 {
            Some("ws_rate_limit_per_ip_per_min 必须大于 0"@)
        } else if self.http_rate_limit_per_ip_per_min == 0 {
            Some("http_rate_limit_per_ip_per_min 必须大于 0"@)
        } else if self.max_ws_connections == 0 {
            Some("max_ws_connections 必须大于 0"@)
        } else if self.max_message_size_bytes == 0 {
            Some("max_message_size_bytes 必须大于 0"@)
        } else if self.token_cleanup_interval_secs == 0 {
            Some("token_cleanup_interval_secs 必须大于 0"@)
        } else if self.token_expiry_secs == 0 {
            Some("token_expiry_secs 必须大于 0"@)
        } else if self.pairing_ttl_secs == 0 {
            Some("pairing_ttl_secs 必须大于 0"@)
        } else if self.ws_idle_timeout_secs == 0 {
            Some("ws_idle_timeout_secs 必须大于 0"@)
        } else {
            cidrs_error(self.trusted_proxy_cidrs@)
        }
    }

    /// The configuration that names only what has no default.
    pub fn with_defaults(public_base_url: String, grpc_auth_token: String) -> (r: Self)
        ensures
            r.public_base_url == public_base_url,
            r.grpc_auth_token == grpc_auth_token,
            r.grpc_port == 50051,
            r.http_port == 8080,
            r.http_bind_host == Ip::V4(0x7f00_0001),
            r.grpc_bind_host == Ip::V4(0x7f00_0001),
            r.token_expiry_secs == 300,
            r.pairing_ttl_secs == 86400,
            r.token_cleanup_interval_secs == 60,
            r.ws_rate_limit_per_ip_per_min == 10,
            r.http_rate_limit_per_ip_per_min == 20,
            r.max_ws_connections == 100,
            r.max_message_size_bytes == 65536,
            r.ws_idle_timeout_secs == 90,
            r.grpc_keepalive_interval_secs == 60,
            r.grpc_keepalive_timeout_secs == 20,
            r.log_level@ == "info"@,
            r.trusted_proxy_cidrs@.len() == 0,
            !r.debug_mode,
    {
        ServerConfig {
            public_base_url,
            grpc_auth_token,
            grpc_port: 50051,
            http_port: 8080,
            http_bind_host: Ip::V4(0x7f00_0001),
            grpc_bind_host: Ip::V4(0x7f00_0001),
            token_expiry_secs: 300,
            pairing_ttl_secs: 86400,
            token_cleanup_interval_secs: 60,
            ws_rate_limit_per_ip_per_min: 10,
            http_rate_limit_per_ip_per_min: 20,
            max_ws_connections: 100,
            max_message_size_bytes: 65536,
            ws_idle_timeout_secs: 90,
            grpc_keepalive_interval_secs: 60,
            grpc_keepalive_timeout_secs: 20,
            log_level: message("info"),
            trusted_proxy_cidrs: Vec::new(),
            debug_mode: false,
        }
    }

    /// Checks the configuration.
    pub fn validate(&self) -> (r: Result<(), String>)
        ensures
            match r {
                Ok(()) => self.error() is None,
                Err(e) => self.error() == Some(e@),
            },
    {
        if trim(&chars_of(&self.public_base_url)).len() == 0 {
            return Err(message("server.toml 中必须填写 public_base_url"));
        }
        let token = chars_of(&self.grpc_auth_token);
        if trim(&token).len() == 0 {
            return Err(message("server.toml 中必须填写 grpc_auth_token"));
        }
        if text::fits_in(&token, MIN_AUTH_TOKEN_BYTES - 1) {
            return Err(
                message(
                    "server.toml 中的 grpc_auth_token 长度不足 16 字符，请使用高熵随机值以确保安全性。",
                ),
            );
        }
        if let Err(e) = validate_public_base_url(&self.public_base_url) {
            return Err(e);
        }
        if self.ws_rate_limit_per_ip_per_min == 0 {
            return Err(message("ws_rate_limit_per_ip_per_min 必须大于 0"));
        }
        if self.http_rate_limit_per_ip_per_min == 0 {
            return Err(message("http_rate_limit_per_ip_per_min 必须大于 0"));
        }
        if self.max_ws_connections == 0 {
            return Err(message("max_ws_connections 必须大于 0"));
        }
        if self.max_message_size_bytes == 0 {
            return Err(message("max_message_size_bytes 必须大于 0"));
        }
        if self.token_cleanup_interval_secs == 0 {
            return Err(message("token_cleanup_interval_secs 必须大于 0"));
        }
        if self.token_expiry_secs == 0 {
            return Err(message("token_expiry_secs 必须大于 0"));
        }
        if self.pairing_ttl_secs == 0 {
            return Err(message("pairing_ttl_secs 必须大于 0"));
        }
        if self.ws_idle_timeout_secs == 0 {
            return Err(message("ws_idle_timeout_secs 必须大于 0"));
        }
        match self.trusted_proxy_ranges() {
            Ok(_) => Ok(()),
            Err(e) => Err(e),
        }
    }

    /// The origin that phones must come from.
    pub fn normalized_public_origin(&self) -> (r: Result<String, String>)
        ensures
            match r {
                Ok(s) => normalized_origin(self.public_base_url@) == Ok::<Seq<char>, Seq<char>>(
                    s@,
                ),
                Err(e) => normalized_origin(self.public_base_url@) == Err::<Seq<char>, Seq<char>>(
                    e@,
                ),
            },
    {
        normalize_origin(&self.public_base_url)
    }

    /// The ranges of trusted reverse proxies.
    pub fn trusted_proxy_ranges(&self) -> (r: Result<TrustedProxyCidrs, String>)
        ensures
            match r {
                Ok(p) => {
                    &&& cidrs_error(self.trusted_proxy_cidrs@) is None
                    &&& p@.len() == self.trusted_proxy_cidrs@.len()
                    &&& forall|i: int|
                        0 <= i < self.trusted_proxy_cidrs@.len() ==> net::cidr_parse(
                            text::trimmed((#[trigger] self.trusted_proxy_cidrs@[i])@),
                        ) == Some(p@[i].parts())
                },
                Err(e) => cidrs_error(self.trusted_proxy_cidrs@) == Some(e@),
            },
    {
        TrustedProxyCidrs::parse(&self.trusted_proxy_cidrs)
    }

    /// Requests to let a browser in that one address may make in a minute: a quarter of all
    /// requests, and at least one.
    pub fn bootstrap_rate(&self) -> (r: u32)
        ensures
            r == if self.http_rate_limit_per_ip_per_min < 4 {
                1
            } else {
                self.http_rate_limit_per_ip_per_min as int / 4
            },
            r >= 1,
    {
        let rate: u32 = self.http_rate_limit_per_ip_per_min / 4;
        if rate == 0 {
            1
        } else {
            rate
        }
    }
}

/// An accepted configuration has an origin, and no limit of it is zero.
pub proof fn law_accepted_config_is_usable(config: ServerConfig)
    requires
        config.error() is None,
    ensures
        normalized_origin(config.public_base_url@) is Ok,
        config.ws_rate_limit_per_ip_per_min > 0,
        config.http_rate_limit_per_ip_per_min > 0,
        config.max_ws_connections > 0,
        config.max_message_size_bytes > 0,
        config.token_cleanup_interval_secs > 0,
        config.token_expiry_secs > 0,
        config.pairing_ttl_secs > 0,
        config.ws_idle_timeout_secs > 0,
        net::url_parse(config.public_base_url@)->Ok_0.scheme == "http"@ ==> host_is_loopback(
            net::url_host(config.public_base_url@),
        ),
        net::url_parse(config.public_base_url@)->Ok_0.scheme == "https"@ ==> !host_is_non_public(
            net::url_host(config.public_base_url@),
        ),
{
}

} // verus!
