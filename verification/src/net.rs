//! Internet addresses, address ranges and URLs as plain values.

use crate::text;
use ipnet::{IpNet, Ipv4Net, Ipv6Net};
use url::{Host, Url};
use vstd::prelude::*;

verus! {

/// An Internet address, as the number that its bytes write, the first byte the highest.
#[derive(Debug, Clone, Copy, PartialEq, Eq, Structural)]
pub enum Ip {
    /// Version four.
    V4(u32),
    /// Version six.
    V6(u128),
}

/// A range of addresses: those that agree with `addr` in their first `prefix` bits.
#[allow(inconsistent_fields)]
#[derive(Debug, Clone, Copy, PartialEq, Eq, Structural)]
pub enum Cidr {
    /// Version four.
    V4 { addr: u32, prefix: u8 },
    /// Version six.
    V6 { addr: u128, prefix: u8 },
}

/// What `IpAddr::from_str` makes of a text: whether the address is of version six, and its bits.
pub uninterp spec fn ip_parse(text: Seq<char>) -> Option<(bool, u128)>;

/// What `IpNet::from_str` makes of a text: whether the range is of version six, the bits of its
/// address, and how many of them count.
pub uninterp spec fn cidr_parse(text: Seq<char>) -> Option<(bool, u128, u8)>;

/// How `Ipv6Addr` writes an address.
pub uninterp spec fn ipv6_text(bits: u128) -> Seq<char>;

impl Ip {
    /// Whether the address is of version six, and its bits.
    pub open spec fn bits(self) -> (bool, u128) {
        match self {
            Ip::V4(a) => (false, a as u128),
            Ip::V6(a) => (true, a),
        }
    }

    /// Four numbers with dots between them, or the short form of version six.
    pub open spec fn text(self) -> Seq<char> {
        match self {
            Ip::V4(a) => ipv4_text(a),
            Ip::V6(a) => ipv6_text(a),
        }
    }
}

/// Four numbers with dots between them.
pub open spec fn ipv4_text(a: u32) -> Seq<char> {
    text::decimal((a / 0x100_0000) as nat) + seq!['.'] + text::decimal(
        ((a / 0x1_0000) % 0x100) as nat,
    ) + seq!['.'] + text::decimal(((a / 0x100) % 0x100) as nat) + seq!['.'] + text::decimal(
        (a % 0x100) as nat,
    )
}

/// Two to the power of `n`.
pub open spec fn two_to(n: nat) -> nat
    decreases n,
{
    if n == 0 {
        1
    } else {
        2 * two_to((n - 1) as nat)
    }
}

impl Cidr {
    /// No more bits count than the address has.
    pub open spec fn wf(self) -> bool {
        match self {
            Cidr::V4 { addr, prefix } => prefix <= 32,
            Cidr::V6 { addr, prefix } => prefix <= 128,
        }
    }

    /// Does the address lie in the range?
    pub open spec fn has(self, ip: Ip) -> bool {
        match (self, ip) {
            (Cidr::V4 { addr, prefix }, Ip::V4(a)) => addr as nat / two_to((32 - prefix) as nat)
                == a as nat / two_to((32 - prefix) as nat),
            (Cidr::V6 { addr, prefix }, Ip::V6(a)) => addr as nat / two_to((128 - prefix) as nat)
                == a as nat / two_to((128 - prefix) as nat),
            _ => false,
        }
    }
}

/// `str::parse` into an address, as a pair of version and bits. It is a function of the text alone.
#[verifier::external_body]
fn parse_ip_bits(text: &str) -> (r: Option<(bool, u128)>)
    ensures
        r == ip_parse(text@),
        r matches Some((six, bits)) ==> six || bits <= u32::MAX,
{
    match IpNet::new(text.parse().ok()?, 0).ok()? {
        IpNet::V4(net) => Some((false, u32::from(net.addr()) as u128)),
        IpNet::V6(net) => Some((true, u128::from(net.addr()))),
    }
}

/// `str::parse` into `ipnet::IpNet`, taken apart. It is a function of the text alone; no more bits
/// count than the address has; the error has one text.
#[verifier::external_body]
fn parse_cidr_bits(text: &str) -> (r: Result<(bool, u128, u8), String>)
    ensures
        r is Ok <==> cidr_parse(text@) is Some,
        r matches Ok(net) ==> cidr_parse(text@) == Some(net) && (if net.0 {
            net.2 <= 128
        } else {
            net.1 <= u32::MAX && net.2 <= 32
        }),
        r matches Err(e) ==> e@ == "invalid IP address syntax"@,
{
    match text.parse::<IpNet>().map_err(|e| e.to_string())? {
        IpNet::V4(net) => Ok((false, u32::from(net.addr()) as u128, net.prefix_len())),
        IpNet::V6(net) => Ok((true, u128::from(net.addr()), net.prefix_len())),
    }
}

/// `Ipv4Net::contains` of the range of one address: do the two agree in the bits that count?
#[verifier::external_body]
fn v4_contains(addr: u32, prefix: u8, a: u32) -> (r: bool)
    requires
        prefix <= 32,
    ensures
        r == (Cidr::V4 { addr, prefix }).has(Ip::V4(a)),
{
    Ipv4Net::new_assert(addr.into(), prefix).contains(&Ipv4Net::new_assert(a.into(), 32))
}

/// `Ipv6Net::contains` of the range of one address: do the two agree in the bits that count?
#[verifier::external_body]
fn v6_contains(addr: u128, prefix: u8, a: u128) -> (r: bool)
    requires
        prefix <= 128,
    ensures
        r == (Cidr::V6 { addr, prefix }).has(Ip::V6(a)),
{
    Ipv6Net::new_assert(addr.into(), prefix).contains(&Ipv6Net::new_assert(a.into(), 128))
}

/// `Ipv6Addr::to_string`. It is a function of the bits alone.
#[verifier::external_body]
fn v6_string(bits: u128) -> (r: String)
    ensures
        r@ == ipv6_text(bits),
{
    Ipv6Net::new_assert(bits.into(), 128).addr().to_string()
}

/// The address that a text writes.
pub fn parse_ip(text: &str) -> (r: Option<Ip>)
    ensures
        r is Some <==> ip_parse(text@) is Some,
        r matches Some(ip) ==> ip_parse(text@) == Some(ip.bits()),
{
    match parse_ip_bits(text) {
        Some((six, bits)) => if six {
            Some(Ip::V6(bits))
        } else {
            Some(Ip::V4(bits as u32))
        },
        None => None,
    }
}

impl Cidr {
    /// The version, the bits of the address, and how many of them count.
    pub open spec fn parts(self) -> (bool, u128, u8) {
        match self {
            Cidr::V4 { addr, prefix } => (false, addr as u128, prefix),
            Cidr::V6 { addr, prefix } => (true, addr, prefix),
        }
    }
}

/// The range that a text writes, or what is wrong with it.
pub fn parse_cidr(text: &str) -> (r: Result<Cidr, String>)
    ensures
        r is Ok <==> cidr_parse(text@) is Some,
        r matches Ok(c) ==> c.wf() && cidr_parse(text@) == Some(c.parts()),
        r matches Err(e) ==> e@ == "invalid IP address syntax"@,
{
    match parse_cidr_bits(text) {
        Ok((six, bits, prefix)) => if six {
            Ok(Cidr::V6 { addr: bits, prefix })
        } else {
            Ok(Cidr::V4 { addr: bits as u32, prefix })
        },
        Err(e) => Err(e),
    }
}

impl Cidr {
    /// Does the address lie in the range?
    pub fn contains(&self, ip: Ip) -> (r: bool)
        requires
            self.wf(),
        ensures
            r == self.has(ip),
    {
        match (*self, ip) {
            (Cidr::V4 { addr, prefix }, Ip::V4(a)) => v4_contains(addr, prefix, a),
            (Cidr::V6 { addr, prefix }, Ip::V6(a)) => v6_contains(addr, prefix, a),
            _ => false,
        }
    }
}

/// An address as text.
pub fn ip_string(ip: Ip) -> (r: String)
    ensures
        r@ == ip.text(),
{
    match ip {
        Ip::V4(a) => {
            let mut out = String::new();
            text::push_decimal(&mut out, (a / 0x100_0000) as u64);
            out.push('.');
            text::push_decimal(&mut out, ((a / 0x1_0000) % 0x100) as u64);
            out.push('.');
            text::push_decimal(&mut out, ((a / 0x100) % 0x100) as u64);
            out.push('.');
            text::push_decimal(&mut out, (a % 0x100) as u64);
            assert(out@ =~= ipv4_text(a));
            out
        },
        Ip::V6(a) => v6_string(a),
    }
}

/// Addresses that the public network does not carry.
///
/// Of version four: loopback, the private ranges, link-local and the unspecified address. Of version
/// six: loopback, the unspecified address, unique local and link-local addresses.
pub open spec fn is_non_public(ip: Ip) -> bool {
    match ip {
        Ip::V4(a) => {
            ||| a / 0x100_0000 == 127
            ||| a / 0x100_0000 == 10
            ||| a / 0x10_0000 == 0xac1
            ||| a / 0x1_0000 == 0xc0a8
            ||| a / 0x1_0000 == 0xa9fe
            ||| a == 0
        },
        Ip::V6(a) => {
            ||| a <= 1
            ||| a / 0x0200_0000_0000_0000_0000_0000_0000_0000u128 == 0x7e
            ||| a / 0x0040_0000_0000_0000_0000_0000_0000_0000u128 == 0x3fa
        },
    }
}

/// The addresses of the machine itself.
pub open spec fn is_loopback(ip: Ip) -> bool {
    match ip {
        Ip::V4(a) => a / 0x100_0000 == 127,
        Ip::V6(a) => a == 1,
    }
}

/// Is this an address that the public network does not carry?
pub fn is_non_public_ip(ip: Ip) -> (r: bool)
    ensures
        r == is_non_public(ip),
{
    match ip {
        Ip::V4(a) => a / 0x100_0000 == 127 || a / 0x100_0000 == 10 || a / 0x10_0000 == 0xac1 || a
            / 0x1_0000 == 0xc0a8 || a / 0x1_0000 == 0xa9fe || a == 0,
        Ip::V6(a) => a <= 1 || a / 0x0200_0000_0000_0000_0000_0000_0000_0000u128 == 0x7e || a
            / 0x0040_0000_0000_0000_0000_0000_0000_0000u128 == 0x3fa,
    }
}

/// Is this an address of the machine itself?
pub fn is_loopback_ip(ip: Ip) -> (r: bool)
    ensures
        r == is_loopback(ip),
{
    match ip {
        Ip::V4(a) => a / 0x100_0000 == 127,
        Ip::V6(a) => a == 1,
    }
}

/// The host of a URL.
#[derive(Debug)]
pub enum UrlHost {
    /// A name.
    Domain(String),
    /// An address of version four.
    V4(u32),
    /// An address of version six.
    V6(u128),
}

/// A URL taken apart.
#[derive(Debug)]
pub struct UrlParts {
    /// What stands before the colon.
    pub scheme: String,
    /// The user name, empty where there is none.
    pub username: String,
    /// The password.
    pub password: Option<String>,
    /// The host as it is written in the URL.
    pub host_str: Option<String>,
    /// The port, where it is not the usual one of the scheme.
    pub port: Option<u16>,
    /// The path.
    pub path: String,
    /// What stands behind the question mark.
    pub query: Option<String>,
    /// What stands behind the number sign.
    pub fragment: Option<String>,
}

/// The host of a URL, for contracts.
pub enum HostView {
    Domain(Seq<char>),
    V4(u32),
    V6(u128),
}

impl View for UrlHost {
    type V = HostView;

    open spec fn view(&self) -> HostView {
        match self {
            UrlHost::Domain(d) => HostView::Domain(d@),
            UrlHost::V4(a) => HostView::V4(*a),
            UrlHost::V6(a) => HostView::V6(*a),
        }
    }
}

/// A URL taken apart, for contracts.
#[verifier::ext_equal]
pub struct UrlView {
    pub scheme: Seq<char>,
    pub username: Seq<char>,
    pub password: Option<Seq<char>>,
    pub host_str: Option<Seq<char>>,
    pub port: Option<u16>,
    pub path: Seq<char>,
    pub query: Option<Seq<char>>,
    pub fragment: Option<Seq<char>>,
}

impl View for UrlParts {
    type V = UrlView;

    open spec fn view(&self) -> UrlView {
        UrlView {
            scheme: self.scheme@,
            username: self.username@,
            password: text::opt_chars(self.password),
            host_str: text::opt_chars(self.host_str),
            port: self.port,
            path: self.path@,
            query: text::opt_chars(self.query),
            fragment: text::opt_chars(self.fragment),
        }
    }
}

/// What `Url::parse` makes of a text: the URL taken apart, or the text of the error.
pub uninterp spec fn url_parse(text: Seq<char>) -> Result<UrlView, Seq<char>>;

/// `Url::parse`, and the parts of what it gives. It is a function of the text alone.
#[verifier::external_body]
pub(crate) fn parse_url(text: &str) -> (r: Result<UrlParts, String>)
    ensures
        match r {
            Ok(parts) => url_parse(text@) == Ok::<UrlView, Seq<char>>(parts@),
            Err(e) => url_parse(text@) == Err::<UrlView, Seq<char>>(e@),
        },
{
    let url = Url::parse(text).map_err(|e| e.to_string())?;
    Ok(UrlParts {
        scheme: url.scheme().to_string(),
        username: url.username().to_string(),
        password: url.password().map(str::to_string),
        host_str: url.host_str().map(str::to_string),
        port: url.port(),
        path: url.path().to_string(),
        query: url.query().map(str::to_string),
        fragment: url.fragment().map(str::to_string),
    })
}

/// What `Url::host` gives of the URL that a text writes; nothing where it writes none.
pub uninterp spec fn url_host(text: Seq<char>) -> Option<HostView>;

/// `Url::host`, of what `Url::parse` gives. It is a function of the text alone.
#[verifier::external_body]
pub(crate) fn parse_url_host(text: &str) -> (r: Option<UrlHost>)
    ensures
        match r {
            Some(host) => url_host(text@) == Some(host@),
            None => url_host(text@) is None,
        },
{
    match Url::parse(text).ok()?.host()? {
        Host::Domain(name) => Some(UrlHost::Domain(name.to_string())),
        Host::Ipv4(a) => Some(UrlHost::V4(u32::from(a))),
        Host::Ipv6(a) => Some(UrlHost::V6(u128::from(a))),
    }
}

} // verus!
