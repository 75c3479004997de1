//! The PC client's connection to the server: where it goes, what becomes of each thing that happens
//! on it, and how it is kept alive.

use crate::client::config;
use crate::client::config::{split_server_host, ClientConfig};
use crate::events::{Event, EventView, FileReceived, FileReceivedView, ServerEvent};
use crate::text;
use crate::text::{
    chars_of, concat, concat3, contains_char, contains_lit, find_char, push_chars, push_decimal,
    rfind_char, string_of, trim,
};
use vstd::prelude::*;

verus! {

/// Seconds that a connection may take to come about.
pub const CONNECT_TIMEOUT_SECS: u64 = 10;

/// Seconds that a subscription may take.
pub const SUBSCRIBE_TIMEOUT_SECS: u64 = 10;

/// Seconds that the first event may take.
pub const FIRST_EVENT_TIMEOUT_SECS: u64 = 10;

/// Seconds before the first ping after one that failed.
pub const HEARTBEAT_RETRY_INITIAL_SECS: u64 = 1;

/// Seconds between pings that fail, at most.
pub const HEARTBEAT_RETRY_MAX_SECS: u64 = 60;

/// So many failures in a row are too many.
pub const HEARTBEAT_UNHEALTHY_THRESHOLD: u32 = 5;

/// A span of time in nanoseconds.
pub type Nanos = u128;

/// Nanoseconds in one second.
pub const NANOS_PER_SEC: u128 = 1_000_000_000;

/// Nanoseconds in one millisecond.
pub const NANOS_PER_MILLI: u128 = 1_000_000;

/// Where the connection goes.
#[derive(Debug)]
pub struct GrpcEndpointConfig {
    /// The address.
    pub endpoint: String,
    /// The name that the server's certificate must bear, where there is TLS.
    pub tls_domain: Option<String>,
}

/// The text before the last colon and the text behind it make a host and a port: neither is empty
/// and the host has no colon itself.
pub open spec fn splits_port(authority: Seq<char>) -> bool {
    let i = text::last_at(authority, ':');
    i > 0 && i + 1 < authority.len() && !authority.take(i).contains(':')
}

/// Does the authority name a port? Where it begins with a bracket, a colon stands right behind one
/// that closes.
pub open spec fn names_port(authority: Seq<char>) -> bool {
    if authority.len() > 0 && authority[0] == '[' {
        text::has_part(authority, "]:"@)
    } else {
        splits_port(authority)
    }
}

/// The host as it stands in an address: an address of version six in square brackets.
pub open spec fn bracketed(authority: Seq<char>) -> Seq<char> {
    if authority.contains(':') && !(authority.len() > 0 && authority[0] == '[') {
        "["@ + authority + "]"@
    } else {
        authority
    }
}

/// The name that the certificate must bear: the host without port and brackets.
pub open spec fn tls_name(authority: Seq<char>) -> Result<Seq<char>, Seq<char>> {
    if authority.len() > 0 && authority[0] == '[' {
        if authority.contains(']') {
            Ok(authority.subrange(1, text::first_at(authority, ']')))
        } else {
            Err("client.toml 中的 server_host IPv6 地址格式无效。"@)
        }
    } else if splits_port(authority) {
        Ok(authority.take(text::last_at(authority, ':')))
    } else {
        Ok(authority)
    }
}

/// Where the connection goes: the address and the certificate's name.
pub open spec fn endpoint(host: Seq<char>, port: u16) -> Result<
    (Seq<char>, Option<Seq<char>>),
    Seq<char>,
> {
    if text::trimmed(host).len() == 0 {
        Err("client.toml 中的 server_host 不能为空。"@)
    } else {
        match config::host_parts(host) {
            Err(e) => Err(e),
            Ok((https, authority)) => {
                let with_port = if names_port(authority) {
                    authority
                } else {
                    bracketed(authority) + ":"@ + text::decimal(port as nat)
                };
                if https {
                    match tls_name(authority) {
                        Ok(name) => Ok(("https"@ + "://"@ + with_port, Some(name))),
                        Err(e) => Err(e),
                    }
                } else {
                    Ok(("http"@ + "://"@ + with_port, None))
                }
            },
        }
    }
}

/// Does the authority begin with a square bracket?
fn in_brackets(authority: &[char]) -> (r: bool)
    ensures
        r == (authority@.len() > 0 && authority@[0] == '['),
{
    authority.len() > 0 && authority[0] == '['
}

/// The host before the last colon, where it and what follows make a host and a port.
fn host_before_port(authority: &[char]) -> (r: Option<&[char]>)
    ensures
        r is Some <==> splits_port(authority@),
        r matches Some(host) ==> host@ == authority@.take(text::last_at(authority@, ':')),
{
    proof {
        text::lemma_last_at(authority@, ':');
    }
    match rfind_char(authority, ':') {
        Some(i) => {
            let host = vstd::slice::slice_subrange(authority, 0, i);
            assert(host@ =~= authority@.take(i as int));
            if i > 0 && i < authority.len() - 1 && !contains_char(host, ':') {
                Some(host)
            } else {
                None
            }
        },
        None => None,
    }
}

/// Does the authority name a port?
pub fn has_explicit_port(authority: &[char]) -> (r: bool)
    ensures
        r == names_port(authority@),
{
    if in_brackets(authority) {
        contains_lit(authority, "]:")
    } else {
        host_before_port(authority).is_some()
    }
}

/// The host as it stands in an address.
pub fn format_authority_host(authority: &[char]) -> (r: String)
    ensures
        r@ == bracketed(authority@),
{
    if contains_char(authority, ':') && !in_brackets(authority) {
        let mut out = string_of(&chars_of("["));
        push_chars(&mut out, authority);
        push_chars(&mut out, &chars_of("]"));
        out
    } else {
        string_of(authority)
    }
}

/// The name that the certificate must bear.
pub fn extract_tls_domain(authority: &[char]) -> (r: Result<String, String>)
    ensures
        match r {
            Ok(name) => tls_name(authority@) == Ok::<Seq<char>, Seq<char>>(name@),
            Err(e) => tls_name(authority@) == Err::<Seq<char>, Seq<char>>(e@),
        },
{
    if in_brackets(authority) {
        proof {
            text::lemma_first_at(authority@, ']');
        }
        return match find_char(authority, ']') {
            Some(end) => {
                assert(end >= 1);
                Ok(string_of(vstd::slice::slice_subrange(authority, 1, end)))
            },
            None => Err(
                string_of(&chars_of("client.toml 中的 server_host IPv6 地址格式无效。")),
            ),
        };
    }
    match host_before_port(authority) {
        Some(host) => Ok(string_of(host)),
        None => Ok(string_of(authority)),
    }
}

/// Where the connection goes, or what is wrong with the server's address.
pub fn build_endpoint_config(host: &str, port: u16) -> (r: Result<GrpcEndpointConfig, String>)
    ensures
        match r {
            Ok(c) => endpoint(host@, port) == Ok::<(Seq<char>, Option<Seq<char>>), Seq<char>>(
                (c.endpoint@, text::opt_chars(c.tls_domain)),
            ),
            Err(e) => endpoint(host@, port) == Err::<(Seq<char>, Option<Seq<char>>), Seq<char>>(
                e@,
            ),
        },
{
    if trim(&chars_of(host)).len() == 0 {
        return Err(string_of(&chars_of("client.toml 中的 server_host 不能为空。")));
    }
    let (https, authority) = match split_server_host(host) {
        Ok(parts) => parts,
        Err(e) => {
            return Err(e);
        },
    };
    let with_port = if has_explicit_port(&authority) {
        string_of(&authority)
    } else {
        let mut out = format_authority_host(&authority);
        push_chars(&mut out, &chars_of(":"));
        push_decimal(&mut out, port as u64);
        out
    };
    if https {
        match extract_tls_domain(&authority) {
            Ok(name) => {
                let mut out = string_of(&chars_of("https"));
                push_chars(&mut out, &chars_of("://"));
                push_chars(&mut out, &chars_of(&with_port));
                Ok(GrpcEndpointConfig { endpoint: out, tls_domain: Some(name) })
            },
            Err(e) => Err(e),
        }
    } else {
        let mut out = string_of(&chars_of("http"));
        push_chars(&mut out, &chars_of("://"));
        push_chars(&mut out, &chars_of(&with_port));
        Ok(GrpcEndpointConfig { endpoint: out, tls_domain: None })
    }
}

/// A configuration that is accepted leads somewhere, whatever its port, unless the server's address
/// is one with TLS whose bracket is never closed.
pub proof fn law_accepted_host_has_an_endpoint(c: ClientConfig, port: u16)
    requires
        c.error() is None,
        ({
            let (https, authority) = config::host_parts(c.server_host@)->Ok_0;
            https && authority[0] == '[' ==> authority.contains(']')
        }),
    ensures
        endpoint(c.server_host@, port) is Ok,
        ({
            let (https, authority) = config::host_parts(c.server_host@)->Ok_0;
            endpoint(c.server_host@, port)->Ok_0.1 is Some <==> https
        }),
{
}

/// What the connection is started with.
#[derive(Debug)]
pub struct StartOptions {
    pub host: String,
    pub port: u16,
    pub auth_token: String,
    pub pairing_id: String,
    pub heartbeat_interval_secs: u64,
}

/// What the user interface is told.
#[derive(Debug)]
pub enum ClientEvent {
    /// Where a connection is being made to.
    ConnectingTarget { message: String },
    /// How far it has come.
    ConnectingStatus { message: String },
    /// The session's token, and the address for the phone.
    SessionToken { token: String, url: String },
    /// The session's secret.
    GrpcSessionToken { token: String },
    /// A phone has connected.
    MobileConnected { device_info: String },
    /// The phone has gone.
    MobileDisconnected,
    /// Text for the clipboard.
    ClipboardText { content: String },
    /// A file.
    FileReceived(FileReceived),
    /// There is no point in trying again.
    Error { message: String },
}

/// What the user interface is told, for contracts.
pub enum ClientEventView {
    ConnectingTarget { message: Seq<char> },
    ConnectingStatus { message: Seq<char> },
    SessionToken { token: Seq<char>, url: Seq<char> },
    GrpcSessionToken { token: Seq<char> },
    MobileConnected { device_info: Seq<char> },
    MobileDisconnected,
    ClipboardText { content: Seq<char> },
    FileReceived(FileReceivedView),
    Error { message: Seq<char> },
}

impl View for ClientEvent {
    type V = ClientEventView;

    open spec fn view(&self) -> ClientEventView {
        match self {
            ClientEvent::ConnectingTarget { message } => ClientEventView::ConnectingTarget {
                message: message@,
            },
            ClientEvent::ConnectingStatus { message } => ClientEventView::ConnectingStatus {
                message: message@,
            },
            ClientEvent::SessionToken { token, url } => ClientEventView::SessionToken {
                token: token@,
                url: url@,
            },
            ClientEvent::GrpcSessionToken { token } => ClientEventView::GrpcSessionToken {
                token: token@,
            },
            ClientEvent::MobileConnected { device_info } => ClientEventView::MobileConnected {
                device_info: device_info@,
            },
            ClientEvent::MobileDisconnected => ClientEventView::MobileDisconnected,
            ClientEvent::ClipboardText { content } => ClientEventView::ClipboardText {
                content: content@,
            },
            ClientEvent::FileReceived(file) => ClientEventView::FileReceived(file@),
            ClientEvent::Error { message } => ClientEventView::Error { message: message@ },
        }
    }
}

/// What the user interface is told of an event, if anything.
pub open spec fn told(event: EventView) -> Option<ClientEventView> {
    match event {
        EventView::SessionToken { token, url } => Some(
            ClientEventView::SessionToken { token, url },
        ),
        EventView::MobileConnected { device_info } => Some(
            ClientEventView::MobileConnected { device_info },
        ),
        EventView::MobileDisconnected => Some(ClientEventView::MobileDisconnected),
        EventView::ClipboardText { content } => Some(ClientEventView::ClipboardText { content }),
        EventView::FileReceived(file) => Some(ClientEventView::FileReceived(file)),
        EventView::Ping => None,
    }
}

/// What the user interface is told of what the server sent, if anything.
pub open spec fn told_of(message: ServerEvent) -> Option<ClientEventView> {
    match message.event {
        Some(e) => told(e@),
        None => None,
    }
}

/// What the user interface is told of an event, if anything.
pub fn map_server_event(event: Event) -> (r: Option<ClientEvent>)
    ensures
        match r {
            Some(e) => told(event@) == Some(e@),
            None => told(event@) is None,
        },
{
    match event {
        Event::SessionToken { token, url } => Some(ClientEvent::SessionToken { token, url }),
        Event::MobileConnected { device_info } => Some(
            ClientEvent::MobileConnected { device_info },
        ),
        Event::MobileDisconnected => Some(ClientEvent::MobileDisconnected),
        Event::ClipboardText { content } => Some(ClientEvent::ClipboardText { content }),
        Event::FileReceived(file) => Some(ClientEvent::FileReceived(file)),
        Event::Ping => None,
    }
}

/// Where a connection stands.
#[derive(Debug, Clone, Copy, PartialEq, Eq, Structural)]
pub enum Stage {
    /// The way to the server is being prepared.
    Preparing,
    /// The server is being reached.
    Connecting,
    /// It has been reached, and is asked for events.
    Subscribing,
    /// It has agreed, and has sent nothing yet.
    AwaitingFirst,
    /// Events are coming.
    Streaming,
    /// It is over.
    Ended,
}

/// What happens on a connection.
#[derive(Debug)]
pub enum LinkInput {
    /// The address is one that can be connected to.
    Prepared,
    /// It is not, for this reason.
    BadAddress(String),
    /// There can be no TLS, for this reason.
    BadTls(String),
    /// The server was reached.
    Connected,
    /// It took too long to reach.
    ConnectTimeout,
    /// It was not reached, for this reason.
    ConnectFailed(String),
    /// The server agreed to send events.
    Subscribed,
    /// It took too long to agree.
    SubscribeTimeout,
    /// It does not know the secret.
    Unauthenticated,
    /// It refused, or could not be asked.
    SubscribeFailed(String),
    /// The first event took too long.
    FirstEventTimeout,
    /// The events broke off.
    StreamFailed(String),
    /// The events ended.
    StreamClosed,
    /// An event.
    Message(ServerEvent),
}

/// What is to be done: what the user interface is told, in order; with which session's secret the
/// heartbeat is to be started, if it is; and whether the connection is over.
#[derive(Debug)]
pub struct LinkOutput {
    /// For the user interface.
    pub events: Vec<ClientEvent>,
    /// The secret to start the heartbeat with.
    pub heartbeat: Option<String>,
    /// Is the connection over?
    pub stop: bool,
}

/// What is to be done, for contracts.
#[verifier::ext_equal]
pub struct LinkOutputView {
    pub events: Seq<ClientEventView>,
    pub heartbeat: Option<Seq<char>>,
    pub stop: bool,
}

/// The views of events.
pub open spec fn event_views(v: Seq<ClientEvent>) -> Seq<ClientEventView> {
    v.map_values(|e: ClientEvent| e@)
}

impl View for LinkOutput {
    type V = LinkOutputView;

    open spec fn view(&self) -> LinkOutputView {
        LinkOutputView {
            events: event_views(self.events@),
            heartbeat: text::opt_chars(self.heartbeat),
            stop: self.stop,
        }
    }
}

/// The connection ends, and the user interface is told how far it came.
pub open spec fn ends_with_status(message: Seq<char>) -> (Stage, LinkOutputView) {
    (
        Stage::Ended,
        LinkOutputView {
            events: seq![ClientEventView::ConnectingStatus { message }],
            heartbeat: None,
            stop: true,
        },
    )
}

/// Nothing is to be done.
pub open spec fn quiet() -> LinkOutputView {
    LinkOutputView { events: Seq::empty(), heartbeat: None, stop: false }
}

/// Where a connection stands after something happened on it, and what is to be done. What cannot
/// happen at a stage changes nothing.
pub open spec fn link_step(
    endpoint: Seq<char>,
    stage: Stage,
    input: LinkInput,
    heartbeat_secs: u64,
) -> (
    Stage,
    LinkOutputView,
) {
    match (stage, input) {
        (Stage::Preparing, LinkInput::Prepared) => (
            Stage::Connecting,
            LinkOutputView {
                events: seq![
                    ClientEventView::ConnectingStatus {
                        message: "正在建立到 "@ + endpoint + " 的网络连接..."@,
                    },
                ],
                ..quiet()
            },
        ),
        (Stage::Preparing, LinkInput::BadAddress(why)) => ends_with_status(
            "连接服务端失败：gRPC 地址无效："@ + why@,
        ),
        (Stage::Preparing, LinkInput::BadTls(why)) => ends_with_status(
            "连接服务端失败：gRPC TLS 配置失败："@ + why@,
        ),
        (Stage::Connecting, LinkInput::Connected) => (Stage::Subscribing, quiet()),
        (Stage::Connecting, LinkInput::ConnectTimeout) => ends_with_status(
            "连接服务端失败：连接服务端超时（>10 秒）"@,
        ),
        (Stage::Connecting, LinkInput::ConnectFailed(why)) => ends_with_status(
            "连接服务端失败："@ + why@,
        ),
        (Stage::Subscribing, LinkInput::Subscribed) => (Stage::AwaitingFirst, quiet()),
        (Stage::Subscribing, LinkInput::SubscribeTimeout) => ends_with_status(
            "订阅 gRPC 流超时（>10 秒）。"@,
        ),
        (Stage::Subscribing, LinkInput::Unauthenticated) => (
            Stage::Ended,
            LinkOutputView {
                events: seq![
                    ClientEventView::Error {
                        message: "gRPC 鉴权失败，请检查 client.toml 中的 grpc_auth_token"@,
                    },
                ],
                heartbeat: None,
                stop: true,
            },
        ),
        (Stage::Subscribing, LinkInput::SubscribeFailed(why)) => ends_with_status(
            "订阅 gRPC 流失败："@ + why@,
        ),
        (Stage::AwaitingFirst, LinkInput::FirstEventTimeout) => ends_with_status(
            "等待服务端首条 gRPC 事件超时（>10 秒）。"@,
        ),
        (Stage::AwaitingFirst, LinkInput::StreamFailed(why)) => ends_with_status(
            "gRPC 数据流中断："@ + why@,
        ),
        (Stage::Streaming, LinkInput::StreamFailed(why)) => ends_with_status(
            "gRPC 数据流中断："@ + why@,
        ),
        (Stage::AwaitingFirst, LinkInput::StreamClosed) => (
            Stage::Ended,
            LinkOutputView { stop: true, ..quiet() },
        ),
        (Stage::Streaming, LinkInput::StreamClosed) => (
            Stage::Ended,
            LinkOutputView { stop: true, ..quiet() },
        ),
        (Stage::AwaitingFirst, LinkInput::Message(m)) => match told_of(m) {
            None => (stage, quiet()),
            Some(e) => {
                let secret = m.grpc_session_token@;
                (
                    Stage::Streaming,
                    LinkOutputView {
                        events: if secret.len() > 0 {
                            seq![ClientEventView::GrpcSessionToken { token: secret }, e]
                        } else {
                            seq![e]
                        },
                        heartbeat: if heartbeat_secs > 0 && secret.len() > 0 {
                            Some(secret)
                        } else {
                            None
                        },
                        stop: false,
                    },
                )
            },
        },
        (Stage::Streaming, LinkInput::Message(m)) => match told_of(m) {
            None => (stage, quiet()),
            Some(e) => (stage, LinkOutputView { events: seq![e], ..quiet() }),
        },
        _ => (stage, quiet()),
    }
}

/// A connection.
#[derive(Debug)]
pub struct Link {
    /// Where it goes.
    pub config: GrpcEndpointConfig,
    /// Where it stands.
    pub stage: Stage,
    /// Seconds between pings, zero for none.
    pub heartbeat_interval_secs: u64,
}

/// Nothing to be done.
fn no_output() -> (r: LinkOutput)
    ensures
        r@ == quiet(),
{
    let r = LinkOutput { events: Vec::new(), heartbeat: None, stop: false };
    assert(r@.events =~= Seq::empty());
    r
}

/// One event to be told, with or without an end.
fn one_event(event: ClientEvent, stop: bool) -> (r: LinkOutput)
    ensures
        r@ == (LinkOutputView { events: seq![event@], heartbeat: None, stop }),
{
    let mut events: Vec<ClientEvent> = Vec::new();
    events.push(event);
    let r = LinkOutput { events, heartbeat: None, stop };
    assert(r@.events =~= seq![event@]);
    r
}

impl Link {
    /// A connection that is to be made, and what the user interface is told first; or what it is
    /// told where there is nowhere to connect to.
    pub fn start(options: &StartOptions) -> (r: Result<(Link, ClientEvent), ClientEvent>)
        ensures
            match r {
                Ok((link, event)) => {
                    &&& endpoint(options.host@, options.port) == Ok::<
                        (Seq<char>, Option<Seq<char>>),
                        Seq<char>,
                    >((link.config.endpoint@, text::opt_chars(link.config.tls_domain)))
                    &&& link.stage == Stage::Preparing
                    &&& link.heartbeat_interval_secs == options.heartbeat_interval_secs
                    &&& event@ == (ClientEventView::ConnectingTarget {
                        message: "正在连接 "@ + link.config.endpoint@ + " ..."@,
                    })
                },
                Err(event) => {
                    &&& endpoint(options.host@, options.port) matches Err(e)
                    &&& event@ == (ClientEventView::Error { message: e })
                },
            },
    {
        match build_endpoint_config(&options.host, options.port) {
            Err(message) => Err(ClientEvent::Error { message }),
            Ok(config) => {
                let message = concat3("正在连接 ", &config.endpoint, " ...");
                Ok(
                    (
                        Link {
                            config,
                            stage: Stage::Preparing,
                            heartbeat_interval_secs: options.heartbeat_interval_secs,
                        },
                        ClientEvent::ConnectingTarget { message },
                    ),
                )
            },
        }
    }

    /// The connection ends, and the user interface is told how far it came.
    fn end(&mut self, message: String) -> (r: LinkOutput)
        ensures
            final(self).stage == ends_with_status(message@).0,
            r@ == ends_with_status(message@).1,
            final(self).heartbeat_interval_secs == old(self).heartbeat_interval_secs,
            final(self).config == old(self).config,
    {
        self.stage = Stage::Ended;
        one_event(ClientEvent::ConnectingStatus { message }, true)
    }

    /// Something happened on the connection.
    pub fn step(&mut self, input: LinkInput) -> (r: LinkOutput)
        ensures
            ({
                let want = link_step(
                    old(self).config.endpoint@,
                    old(self).stage,
                    input,
                    old(self).heartbeat_interval_secs,
                );
                &&& final(self).stage == want.0
                &&& r@ == want.1
                &&& final(self).heartbeat_interval_secs == old(self).heartbeat_interval_secs
                &&& final(self).config == old(self).config
            }),
    {
        match (self.stage, input) {
            (Stage::Preparing, LinkInput::Prepared) => {
                self.stage = Stage::Connecting;
                let message = concat3("正在建立到 ", &self.config.endpoint, " 的网络连接...");
                one_event(ClientEvent::ConnectingStatus { message }, false)
            },
            (Stage::Preparing, LinkInput::BadAddress(why)) => self.end(
                concat("连接服务端失败：gRPC 地址无效：", &why),
            ),
            (Stage::Preparing, LinkInput::BadTls(why)) => self.end(
                concat("连接服务端失败：gRPC TLS 配置失败：", &why),
            ),
            (Stage::Connecting, LinkInput::ConnectTimeout) => self.end(
                string_of(&chars_of("连接服务端失败：连接服务端超时（>10 秒）")),
            ),
            (Stage::Connecting, LinkInput::Connected) => {
                self.stage = Stage::Subscribing;
                no_output()
            },
            (Stage::Connecting, LinkInput::ConnectFailed(why)) => self.end(
                concat("连接服务端失败：", &why),
            ),
            (Stage::Subscribing, LinkInput::Subscribed) => {
                self.stage = Stage::AwaitingFirst;
                no_output()
            },
            (Stage::Subscribing, LinkInput::SubscribeTimeout) => self.end(
                string_of(&chars_of("订阅 gRPC 流超时（>10 秒）。")),
            ),
            (Stage::Subscribing, LinkInput::Unauthenticated) => {
                self.stage = Stage::Ended;
                one_event(
                    ClientEvent::Error {
                        message: string_of(
                            &chars_of("gRPC 鉴权失败，请检查 client.toml 中的 grpc_auth_token"),
                        ),
                    },
                    true,
                )
            },
            (Stage::Subscribing, LinkInput::SubscribeFailed(why)) => self.end(
                concat("订阅 gRPC 流失败：", &why),
            ),
            (Stage::AwaitingFirst, LinkInput::FirstEventTimeout) => self.end(
                string_of(&chars_of("等待服务端首条 gRPC 事件超时（>10 秒）。")),
            ),
            (Stage::AwaitingFirst, LinkInput::StreamFailed(why)) => self.end(
                concat("gRPC 数据流中断：", &why),
            ),
            (Stage::Streaming, LinkInput::StreamFailed(why)) => self.end(
                concat("gRPC 数据流中断：", &why),
            ),
            (Stage::AwaitingFirst, LinkInput::StreamClosed) => {
                self.stage = Stage::Ended;
                let mut out = no_output();
                out.stop = true;
                out
            },
            (Stage::Streaming, LinkInput::StreamClosed) => {
                self.stage = Stage::Ended;
                let mut out = no_output();
                out.stop = true;
                out
            },
            (Stage::AwaitingFirst, LinkInput::Message(m)) => {
                let secret = m.grpc_session_token;
                let first = match m.event {
                    None => None,
                    Some(e) => map_server_event(e),
                };
                match first {
                    None => no_output(),
                    Some(first) => {
                        self.stage = Stage::Streaming;
                        let named = !chars_of(&secret).is_empty();
                        let mut events: Vec<ClientEvent> = Vec::new();
                        if named {
                            events.push(ClientEvent::GrpcSessionToken { token: secret.clone() });
                        }
                        events.push(first);
                        proof {
                            if named {
                                assert(event_views(events@) =~= seq![
                                    ClientEventView::GrpcSessionToken { token: secret@ },
                                    first@,
                                ]);
                            } else {
                                assert(event_views(events@) =~= seq![first@]);
                            }
                        }
                        let heartbeat = if self.heartbeat_interval_secs > 0 && named {
                            Some(secret)
                        } else {
                            None
                        };
                        LinkOutput { events, heartbeat, stop: false }
                    },
                }
            },
            (Stage::Streaming, LinkInput::Message(m)) => {
                let event = match m.event {
                    None => None,
                    Some(e) => map_server_event(e),
                };
                match event {
                    None => no_output(),
                    Some(event) => one_event(event, false),
                }
            },
            _ => no_output(),
        }
    }
}

/// A connection that has ended stays so, and says nothing any more.
pub proof fn law_ended_link_is_silent(endpoint: Seq<char>, input: LinkInput, heartbeat_secs: u64)
    ensures
        link_step(endpoint, Stage::Ended, input, heartbeat_secs) == (Stage::Ended, quiet()),
{
}

/// The heartbeat is started once, with the first event, and only where the server gave a secret and
/// pings are wanted.
pub proof fn law_heartbeat_starts_once(
    endpoint: Seq<char>,
    stage: Stage,
    input: LinkInput,
    heartbeat_secs: u64,
)
    ensures
        link_step(endpoint, stage, input, heartbeat_secs).1.heartbeat is Some ==> {
            &&& stage == Stage::AwaitingFirst
            &&& heartbeat_secs > 0
            &&& link_step(endpoint, stage, input, heartbeat_secs).0 == Stage::Streaming
        },
{
}

/// How a ping failed.
#[derive(Debug, Clone, Copy, PartialEq, Eq, Structural)]
pub enum HeartbeatErrorKind {
    /// The server does not know the session.
    Unauthenticated,
    /// The server knows no pings.
    Unimplemented,
    /// Anything else.
    Transient,
}

/// The code of a refused call, as far as it matters.
#[derive(Debug, Clone, Copy, PartialEq, Eq, Structural)]
pub enum CallCode {
    /// The server does not know the caller.
    Unauthenticated,
    /// The server does not know the call.
    Unimplemented,
    /// Any other.
    Other,
}

/// How a ping failed.
pub fn classify_heartbeat_error(code: CallCode) -> (r: HeartbeatErrorKind)
    ensures
        r == (match code {
            CallCode::Unimplemented => HeartbeatErrorKind::Unimplemented,
            CallCode::Unauthenticated => HeartbeatErrorKind::Unauthenticated,
            CallCode::Other => HeartbeatErrorKind::Transient,
        }),
{
    match code {
        CallCode::Unimplemented => HeartbeatErrorKind::Unimplemented,
        CallCode::Unauthenticated => HeartbeatErrorKind::Unauthenticated,
        CallCode::Other => HeartbeatErrorKind::Transient,
    }
}

/// The number that a text's bytes are mixed into, one after the other.
pub open spec fn seed_of(bytes: Seq<u8>) -> u64
    decreases bytes.len(),
{
    if bytes.len() == 0 {
        0xcbf2_9ce4_8422_2325u64
    } else {
        (seed_of(bytes.drop_last()) ^ bytes.last() as u64).wrapping_mul(0x100_0000_01b3)
    }
}

/// A number that is the same for the same token.
pub fn stable_token_seed(token: &str) -> (r: u64)
    ensures
        r == seed_of(vstd::utf8::encode_utf8(token@)),
{
    let bytes = token.as_bytes();
    let mut acc: u64 = 0xcbf2_9ce4_8422_2325u64;
    assert(bytes@.take(0) =~= Seq::empty());
    for i in 0..bytes.len()
        invariant
            acc == seed_of(bytes@.take(i as int)),
    {
        proof {
            assert(bytes@.take(i as int + 1).drop_last() =~= bytes@.take(i as int));
        }
        acc = (acc ^ bytes[i] as u64).wrapping_mul(0x100_0000_01b3);
    }
    assert(bytes@.take(bytes@.len() as int) =~= bytes@);
    acc
}

/// Two to the power of sixty-four.
pub const TWO_64: u128 = 0x1_0000_0000_0000_0000;

/// A fifth of a span in milliseconds, its lowest sixty-four bits.
pub open spec fn jitter_span(base_ms: nat) -> nat {
    (base_ms / 5) % (TWO_64 as nat)
}

/// Where in the range of the jitter an attempt falls.
pub open spec fn mixed(seed: u64, attempt: u32) -> u64 {
    seed ^ (attempt as u64).wrapping_mul(0x9e37_79b9_7f4a_7c15)
}

/// A span of time, in milliseconds, moved by up to a fifth either way, the same way for the same
/// seed and attempt.
pub open spec fn jittered_ms(base_ms: nat, seed: u64, attempt: u32) -> nat {
    let span = jitter_span(base_ms);
    let low = ((base_ms - span) as nat) % (TWO_64 as nat);
    let range = if 2 * span > u64::MAX {
        u64::MAX as nat
    } else {
        2 * span
    };
    let offset = if range == 0 {
        0
    } else if range == u64::MAX {
        mixed(seed, attempt) as nat % (u64::MAX as nat)
    } else {
        mixed(seed, attempt) as nat % (range + 1)
    };
    if low + offset > u64::MAX {
        u64::MAX as nat
    } else {
        low + offset
    }
}

/// A span of time moved by up to a fifth either way.
pub fn jitter_duration(base: Nanos, seed: u64, attempt: u32) -> (r: Nanos)
    ensures
        r == (if base / NANOS_PER_MILLI == 0 {
            0
        } else {
            jittered_ms((base / NANOS_PER_MILLI) as nat, seed, attempt) * NANOS_PER_MILLI
        }),
{
    let base_ms: u128 = base / NANOS_PER_MILLI;
    if base_ms == 0 {
        return 0;
    }
    let span: u64 = ((base_ms / 5) % TWO_64) as u64;
    let mix: u64 = seed ^ (attempt as u64).wrapping_mul(0x9e37_79b9_7f4a_7c15);
    let low: u64 = ((base_ms - span as u128) % TWO_64) as u64;
    let range: u64 = span.saturating_add(span);
    let offset: u64 = if range == 0 {
        0
    } else {
        mix % range.saturating_add(1)
    };
    low.saturating_add(offset) as u128 * NANOS_PER_MILLI
}

/// The jitter stays within a fifth of the span, for every span of whole milliseconds that a `u64`
/// holds with room for the jitter.
pub proof fn law_jitter_bounds(base_ms: nat, seed: u64, attempt: u32)
    requires
        base_ms + base_ms / 5 < u64::MAX,
    ensures
        base_ms - base_ms / 5 <= jittered_ms(base_ms, seed, attempt) <= base_ms + base_ms / 5,
{
    let span = base_ms / 5;
    vstd::arithmetic::div_mod::lemma_small_mod(span, TWO_64 as nat);
    vstd::arithmetic::div_mod::lemma_small_mod((base_ms - span) as nat, TWO_64 as nat);
    if span > 0 {
        vstd::arithmetic::div_mod::lemma_mod_bound(
            mixed(seed, attempt) as int,
            (2 * span + 1) as int,
        );
    }
}

/// Growing waits between attempts.
#[derive(Debug, Clone, Copy, PartialEq, Eq, Structural)]
pub struct RetryBackoff {
    /// The first wait.
    pub base: Nanos,
    /// The next, before the jitter.
    pub next: Nanos,
    /// The longest, before the jitter.
    pub max: Nanos,
    /// What the jitter rests on.
    pub seed: u64,
    /// How often has been waited.
    pub attempt: u32,
}

impl RetryBackoff {
    /// No wait is longer than the longest.
    pub open spec fn capped(self) -> bool {
        self.base <= self.max && self.next <= self.max
    }

    /// No wait is shorter than the first.
    pub open spec fn floored(self) -> bool {
        self.base <= self.next
    }

    /// No wait yet.
    pub open spec fn fresh(base: Nanos, max: Nanos, seed: u64) -> RetryBackoff {
        RetryBackoff {
            base,
            next: base,
            max: if max >= base {
                max
            } else {
                base
            },
            seed,
            attempt: 0,
        }
    }

    /// Back to the first wait.
    pub open spec fn restarted(self) -> RetryBackoff {
        RetryBackoff { next: self.base, attempt: 0, ..self }
    }

    /// After one more wait, which has grown to the next.
    pub open spec fn advanced(self, grown: Nanos) -> RetryBackoff {
        RetryBackoff {
            next: if grown <= self.max {
                grown
            } else {
                self.max
            },
            attempt: if self.attempt == u32::MAX {
                u32::MAX
            } else {
                (self.attempt + 1) as u32
            },
            ..self
        }
    }

    /// The wait in milliseconds, with the jitter.
    pub open spec fn wait_ms(self) -> nat {
        let next = (self.next / NANOS_PER_MILLI) as nat;
        if next == 0 {
            0
        } else {
            jittered_ms(next, self.seed, self.attempt)
        }
    }

    /// No wait yet. The longest wait is not shorter than the first.
    pub fn new(base: Nanos, max: Nanos, seed: u64) -> (r: Self)
        ensures
            r.capped(),
            r.floored(),
            r == RetryBackoff::fresh(base, max, seed),
    {
        let max: Nanos = if max >= base {
            max
        } else {
            base
        };
        RetryBackoff { base, next: base, max, seed, attempt: 0 }
    }

    /// Back to the first wait.
    pub fn reset(&mut self)
        ensures
            *final(self) == old(self).restarted(),
            old(self).capped() ==> final(self).capped(),
            final(self).floored(),
    {
        self.next = self.base;
        self.attempt = 0;
    }

    /// The next wait. `grown` is the present wait after it has grown; it is the next one, as far as
    /// it is not too long.
    pub fn next_delay(&mut self, grown: Nanos) -> (r: Nanos)
        ensures
            r == old(self).wait_ms() * NANOS_PER_MILLI,
            *final(self) == old(self).advanced(grown),
            old(self).capped() ==> final(self).capped(),
            old(self).capped() && old(self).floored() && grown >= old(self).next
                ==> final(self).floored(),
    {
        let delay = jitter_duration(self.next, self.seed, self.attempt);
        self.next = if grown <= self.max {
            grown
        } else {
            self.max
        };
        self.attempt = self.attempt.saturating_add(1);
        delay
    }
}

/// What is done with the waits.
pub enum BackoffStep {
    /// One more wait, which has grown to so much.
    Wait(Nanos),
    /// Back to the first wait.
    Restart,
}

/// The waits after these steps.
pub open spec fn after_steps(start: RetryBackoff, steps: Seq<BackoffStep>) -> RetryBackoff
    decreases steps.len(),
{
    if steps.len() == 0 {
        start
    } else {
        let before = after_steps(start, steps.drop_last());
        match steps.last() {
            BackoffStep::Wait(grown) => before.advanced(grown),
            BackoffStep::Restart => before.restarted(),
        }
    }
}

/// Does no wait shrink in these steps?
pub open spec fn all_grow(start: RetryBackoff, steps: Seq<BackoffStep>) -> bool
    decreases steps.len(),
{
    steps.len() == 0 || {
        &&& all_grow(start, steps.drop_last())
        &&& match steps.last() {
            BackoffStep::Wait(grown) => grown >= after_steps(start, steps.drop_last()).next,
            BackoffStep::Restart => true,
        }
    }
}

proof fn lemma_after_steps(base: Nanos, max: Nanos, seed: u64, steps: Seq<BackoffStep>)
    ensures
        ({
            let start = RetryBackoff::fresh(base, max, seed);
            let b = after_steps(start, steps);
            &&& b.capped()
            &&& b.base == base
            &&& b.max == start.max
            &&& all_grow(start, steps) ==> b.floored()
        }),
    decreases steps.len(),
{
    if steps.len() > 0 {
        lemma_after_steps(base, max, seed, steps.drop_last());
    }
}

/// A number less its fifth, and with it, grows with the number.
proof fn lemma_fifths(a: nat, b: nat)
    requires
        a <= b,
    ensures
        a - a / 5 <= b - b / 5,
        a + a / 5 <= b + b / 5,
{
}

/// However often has been waited and begun again, no wait is longer than the longest and a fifth of
/// it, whatever the waits grow by; and where they do not shrink, none is shorter than the first less a
/// fifth of it. So for every longest wait that a `u64` holds in milliseconds with room for the
/// jitter.
pub proof fn law_waits_stay_in_bounds(
    base: Nanos,
    max: Nanos,
    seed: u64,
    steps: Seq<BackoffStep>,
)
    requires
        ({
            let longest = (RetryBackoff::fresh(base, max, seed).max / NANOS_PER_MILLI) as nat;
            longest + longest / 5 < u64::MAX
        }),
    ensures
        ({
            let start = RetryBackoff::fresh(base, max, seed);
            let first = (base / NANOS_PER_MILLI) as nat;
            let longest = (start.max / NANOS_PER_MILLI) as nat;
            let wait = after_steps(start, steps).wait_ms();
            &&& wait <= longest + longest / 5
            &&& all_grow(start, steps) ==> first - first / 5 <= wait
        }),
{
    let start = RetryBackoff::fresh(base, max, seed);
    let b = after_steps(start, steps);
    lemma_after_steps(base, max, seed, steps);
    let first = (base / NANOS_PER_MILLI) as nat;
    let longest = (start.max / NANOS_PER_MILLI) as nat;
    let next = (b.next / NANOS_PER_MILLI) as nat;
    assert(next <= longest);
    lemma_fifths(next, longest);
    law_jitter_bounds(next, b.seed, b.attempt);
    if all_grow(start, steps) {
        assert(first <= next);
        lemma_fifths(first, next);
    }
}

/// What becomes of the heartbeat after a ping.
#[derive(Debug, Clone, Copy, PartialEq, Eq, Structural)]
pub enum HeartbeatStep {
    /// It goes on; the ping was answered after some that were not.
    Recovered,
    /// It goes on.
    Fine,
    /// It goes on, though the ping failed.
    Retrying,
    /// It goes on, though too many pings in a row have failed.
    Unhealthy,
    /// It stops.
    Stop,
}

/// The heartbeat of a connection.
#[derive(Debug, Clone, Copy, PartialEq, Eq, Structural)]
pub struct Heartbeat {
    /// Nanoseconds between pings that are answered.
    pub interval: Nanos,
    /// How many pings in a row have failed.
    pub failures: u32,
    /// The waits between pings that fail.
    pub backoff: RetryBackoff,
}

impl Heartbeat {
    /// No ping yet.
    pub fn new(grpc_session_token: &str, heartbeat_interval_secs: u64) -> (r: Self)
        ensures
            r.interval == (if heartbeat_interval_secs == 0 {
                1
            } else {
                heartbeat_interval_secs as int
            }) * NANOS_PER_SEC,
            r.failures == 0,
            r.backoff == (RetryBackoff {
                base: (HEARTBEAT_RETRY_INITIAL_SECS * NANOS_PER_SEC) as u128,
                next: (HEARTBEAT_RETRY_INITIAL_SECS * NANOS_PER_SEC) as u128,
                max: (HEARTBEAT_RETRY_MAX_SECS * NANOS_PER_SEC) as u128,
                seed: seed_of(vstd::utf8::encode_utf8(grpc_session_token@)),
                attempt: 0,
            }),
    {
        let secs: u64 = if heartbeat_interval_secs == 0 {
            1
        } else {
            heartbeat_interval_secs
        };
        Heartbeat {
            interval: secs as u128 * NANOS_PER_SEC,
            failures: 0,
            backoff: RetryBackoff::new(
                HEARTBEAT_RETRY_INITIAL_SECS as u128 * NANOS_PER_SEC,
                HEARTBEAT_RETRY_MAX_SECS as u128 * NANOS_PER_SEC,
                stable_token_seed(grpc_session_token),
            ),
        }
    }

    /// How long to wait before the next ping. `grown` is the present wait of the backoff after it has
    /// grown.
    pub fn next_sleep(&mut self, grown: Nanos) -> (r: Nanos)
        ensures
            old(self).failures == 0 ==> r == old(self).interval && *final(self) == *old(self),
            old(self).failures > 0 ==> {
                &&& r == old(self).backoff.wait_ms() * NANOS_PER_MILLI
                &&& *final(self) == (Heartbeat {
                    backoff: old(self).backoff.advanced(grown),
                    ..*old(self)
                })
            },
    {
        if self.failures > 0 {
            self.backoff.next_delay(grown)
        } else {
            self.interval
        }
    }

    /// A ping was answered, or failed in some way.
    pub fn on_ping(&mut self, result: Result<(), HeartbeatErrorKind>) -> (r: HeartbeatStep)
        ensures
            match result {
                Ok(()) => {
                    &&& r == (if old(self).failures > 0 {
                        HeartbeatStep::Recovered
                    } else {
                        HeartbeatStep::Fine
                    })
                    &&& *final(self) == (Heartbeat {
                        failures: 0,
                        backoff: old(self).backoff.restarted(),
                        ..*old(self)
                    })
                },
                Err(HeartbeatErrorKind::Transient) => {
                    &&& final(self).failures == (if old(self).failures == u32::MAX {
                        u32::MAX as int
                    } else {
                        old(self).failures + 1
                    })
                    &&& r == (if final(self).failures >= HEARTBEAT_UNHEALTHY_THRESHOLD {
                        HeartbeatStep::Unhealthy
                    } else {
                        HeartbeatStep::Retrying
                    })
                    &&& *final(self) == (Heartbeat {
                        failures: final(self).failures,
                        ..*old(self)
                    })
                },
                Err(_) => r == HeartbeatStep::Stop && *final(self) == *old(self),
            },
    {
        match result {
            Ok(()) => {
                let recovered = self.failures > 0;
                self.failures = 0;
                self.backoff.reset();
                if recovered {
                    HeartbeatStep::Recovered
                } else {
                    HeartbeatStep::Fine
                }
            },
            Err(HeartbeatErrorKind::Transient) => {
                self.failures = self.failures.saturating_add(1);
                if self.failures >= HEARTBEAT_UNHEALTHY_THRESHOLD {
                    HeartbeatStep::Unhealthy
                } else {
                    HeartbeatStep::Retrying
                }
            },
            Err(_) => HeartbeatStep::Stop,
        }
    }
}

} // verus!
