//! What the client's window shows and does: the state behind it, and what each thing that happens
//! makes of it.

use crate::client::clipboard;
use crate::client::clipboard::{press_after_paste, Key};
use crate::client::config::ClientConfig;
use crate::client::grpc::{ClientEvent, ClientEventView, Nanos, StartOptions, NANOS_PER_SEC};
use crate::clock;
use crate::clock::{elapsed_at_most, Moment};
use crate::events::{FileReceived, FileReceivedView};
use crate::net;
use crate::net::parse_url;
use crate::text;
use crate::text::{
    chars_of, concat, concat3, push_chars, push_decimal, string_of, strip_prefix, trim_end_char,
};
use vstd::prelude::*;

verus! {

/// The longest span of time that can be told, in nanoseconds.
pub const DURATION_MAX: u128 = 18_446_744_073_709_551_615_999_999_999;

/// Of a text that arrives, so many characters are shown.
pub const NOTICE_CHARS: usize = 20;

/// Seconds that the success of a revocation is shown for.
pub const REVOKE_SHOWN_SECS: i128 = 5;

/// How the window works beyond the connection.
#[derive(Debug)]
pub struct UiSettings {
    /// The pairing that it stands for.
    pub pairing_id: String,
    /// Seconds between pings, zero for none.
    pub heartbeat_interval_secs: u64,
    /// The keys pressed after pasting.
    pub emulation_key_after_paste: Option<String>,
    /// Is the clipboard put back after pasting?
    pub delete_clipboard_after_paste: bool,
    /// Seconds between attempts to connect, at most.
    pub reconnect_max_interval_secs: u64,
}

/// How far a revocation has come.
#[derive(Debug)]
pub enum RevokeState {
    /// None was asked for.
    Idle,
    /// The server is being asked.
    Running,
    /// It succeeded, at that moment.
    Success(Moment),
    /// It failed, for that reason.
    Error(String),
}

impl Default for RevokeState {
    fn default() -> (r: Self)
        ensures
            r == RevokeState::Idle,
    {
        RevokeState::Idle
    }
}

/// How far a revocation has come, for contracts.
pub enum RevokeView {
    Idle,
    Running,
    Success(Moment),
    Error(Seq<char>),
}

impl View for RevokeState {
    type V = RevokeView;

    open spec fn view(&self) -> RevokeView {
        match self {
            RevokeState::Idle => RevokeView::Idle,
            RevokeState::Running => RevokeView::Running,
            RevokeState::Success(at) => RevokeView::Success(*at),
            RevokeState::Error(message) => RevokeView::Error(message@),
        }
    }
}

/// What the window shows.
#[derive(Debug)]
pub enum AppState {
    /// That a connection is being made.
    Connecting,
    /// The address for the phone.
    WaitingScan { url: String },
    /// The phone.
    Connected { device_info: String },
    /// That there is no point in going on.
    Error { message: String },
}

/// What the window shows, for contracts.
pub enum AppStateView {
    Connecting,
    WaitingScan { url: Seq<char> },
    Connected { device_info: Seq<char> },
    Error { message: Seq<char> },
}

impl View for AppState {
    type V = AppStateView;

    open spec fn view(&self) -> AppStateView {
        match self {
            AppState::Connecting => AppStateView::Connecting,
            AppState::WaitingScan { url } => AppStateView::WaitingScan { url: url@ },
            AppState::Connected { device_info } => AppStateView::Connected {
                device_info: device_info@,
            },
            AppState::Error { message } => AppStateView::Error { message: message@ },
        }
    }
}

/// A text for the clipboard.
#[derive(Debug)]
pub struct ClipboardJob {
    pub content: String,
    pub auto_paste: bool,
    pub enter_after_paste: bool,
    pub emulation_key_after_paste: Option<String>,
    pub delete_clipboard_after_paste: bool,
    pub paste_delay_ms: u64,
    pub notice_content: String,
}

/// A text for the clipboard, for contracts.
#[verifier::ext_equal]
pub struct ClipboardJobView {
    pub content: Seq<char>,
    pub auto_paste: bool,
    pub enter_after_paste: bool,
    pub emulation_key_after_paste: Option<Seq<char>>,
    pub delete_clipboard_after_paste: bool,
    pub paste_delay_ms: u64,
    pub notice_content: Seq<char>,
}

impl View for ClipboardJob {
    type V = ClipboardJobView;

    open spec fn view(&self) -> ClipboardJobView {
        ClipboardJobView {
            content: self.content@,
            auto_paste: self.auto_paste,
            enter_after_paste: self.enter_after_paste,
            emulation_key_after_paste: text::opt_chars(self.emulation_key_after_paste),
            delete_clipboard_after_paste: self.delete_clipboard_after_paste,
            paste_delay_ms: self.paste_delay_ms,
            notice_content: self.notice_content@,
        }
    }
}

/// What was clicked in the tray.
#[derive(Debug, Clone, Copy, PartialEq, Eq, Structural)]
pub enum TrayEvent {
    /// The window is to be shown.
    ShowWindow,
    /// The program is to end.
    Quit,
}

/// What the window's system is to do.
#[derive(Debug)]
pub enum UiCommand {
    /// Show or hide the window.
    Visible(bool),
    /// Do not close the window after all.
    CancelClose,
    /// Give the window the keyboard.
    Focus,
    /// Close the window.
    Close,
    /// Look again after so long.
    RepaintAfter(Nanos),
    /// Make a connection.
    Connect,
    /// Draw the code of this address.
    DrawCode(String),
    /// Put a text on the clipboard.
    Clipboard(ClipboardJob),
    /// Fetch a file.
    Fetch(FileReceived),
}

/// What the window's system is to do, for contracts.
pub enum UiCommandView {
    Visible(bool),
    CancelClose,
    Focus,
    Close,
    RepaintAfter(Nanos),
    Connect,
    DrawCode(Seq<char>),
    Clipboard(ClipboardJobView),
    Fetch(FileReceivedView),
}

impl View for UiCommand {
    type V = UiCommandView;

    open spec fn view(&self) -> UiCommandView {
        match self {
            UiCommand::Visible(b) => UiCommandView::Visible(*b),
            UiCommand::CancelClose => UiCommandView::CancelClose,
            UiCommand::Focus => UiCommandView::Focus,
            UiCommand::Close => UiCommandView::Close,
            UiCommand::RepaintAfter(n) => UiCommandView::RepaintAfter(*n),
            UiCommand::Connect => UiCommandView::Connect,
            UiCommand::DrawCode(url) => UiCommandView::DrawCode(url@),
            UiCommand::Clipboard(job) => UiCommandView::Clipboard(job@),
            UiCommand::Fetch(file) => UiCommandView::Fetch(file@),
        }
    }
}

/// The views of commands.
pub open spec fn command_views(v: Seq<UiCommand>) -> Seq<UiCommandView> {
    v.map_values(|c: UiCommand| c@)
}

/// The state behind the window.
#[derive(Debug)]
pub struct App {
    /// How the client is configured.
    pub config: ClientConfig,
    /// How the window works beyond that.
    pub settings: UiSettings,
    /// What it shows.
    pub state: AppState,
    /// Where a connection is being made to.
    pub connecting_target: Option<String>,
    /// How far it has come.
    pub last_connect_status: Option<String>,
    /// Is there an icon in the tray?
    pub has_tray: bool,
    /// May the window be closed for good?
    pub allow_close: bool,
    /// Is it still to be decided whether the window is shown at the start?
    pub startup_visibility_pending: bool,
    /// Is there a connection, made or in the making?
    pub link_open: bool,
    /// A notice, and since when it is shown.
    pub paste_notice: Option<(String, Moment)>,
    /// The session's token.
    pub last_session_token: Option<String>,
    /// The session's secret.
    pub last_grpc_session_token: Option<String>,
    /// The server's address for phones.
    pub last_public_base_url: Option<String>,
    /// How far a revocation has come.
    pub revoke_state: RevokeState,
    /// How long the next connection is put off.
    pub reconnect_delay: Nanos,
    /// Is a connection to be made?
    pub reconnect_pending: bool,
    /// How often one was made again since the last session.
    pub reconnect_attempts: u32,
}

/// The state behind the window, for contracts.
#[verifier::ext_equal]
pub struct AppView {
    pub config: ClientConfig,
    pub settings: UiSettings,
    pub state: AppStateView,
    pub connecting_target: Option<Seq<char>>,
    pub last_connect_status: Option<Seq<char>>,
    pub has_tray: bool,
    pub allow_close: bool,
    pub startup_visibility_pending: bool,
    pub link_open: bool,
    pub paste_notice: Option<(Seq<char>, Moment)>,
    pub last_session_token: Option<Seq<char>>,
    pub last_grpc_session_token: Option<Seq<char>>,
    pub last_public_base_url: Option<Seq<char>>,
    pub revoke_state: RevokeView,
    pub reconnect_delay: Nanos,
    pub reconnect_pending: bool,
    pub reconnect_attempts: u32,
}

impl View for App {
    type V = AppView;

    open spec fn view(&self) -> AppView {
        AppView {
            config: self.config,
            settings: self.settings,
            state: self.state@,
            connecting_target: text::opt_chars(self.connecting_target),
            last_connect_status: text::opt_chars(self.last_connect_status),
            has_tray: self.has_tray,
            allow_close: self.allow_close,
            startup_visibility_pending: self.startup_visibility_pending,
            link_open: self.link_open,
            paste_notice: match self.paste_notice {
                Some((notice, since)) => Some((notice@, since)),
                None => None,
            },
            last_session_token: text::opt_chars(self.last_session_token),
            last_grpc_session_token: text::opt_chars(self.last_grpc_session_token),
            last_public_base_url: text::opt_chars(self.last_public_base_url),
            revoke_state: self.revoke_state@,
            reconnect_delay: self.reconnect_delay,
            reconnect_pending: self.reconnect_pending,
            reconnect_attempts: self.reconnect_attempts,
        }
    }
}

/// The notice of a text that arrived.
pub open spec fn clipboard_notice(
    auto_paste: bool,
    keys: Option<Seq<char>>,
    content: Seq<char>,
) -> Seq<char> {
    if auto_paste {
        match keys {
            Some(keys) => "已自动粘贴（"@ + keys + "）："@ + content,
            None => "已自动粘贴："@ + content,
        }
    } else {
        "已复制到剪贴板："@ + content
    }
}

/// The notice of a text that arrived.
pub fn build_clipboard_notice(
    auto_paste: bool,
    emulation_key_after_paste: Option<&str>,
    notice_content: &str,
) -> (r: String)
    ensures
        r@ == clipboard_notice(
            auto_paste,
            match emulation_key_after_paste {
                Some(keys) => Some(keys@),
                None => None,
            },
            notice_content@,
        ),
{
    if auto_paste {
        match emulation_key_after_paste {
            Some(keys) => {
                let mut out = concat3("已自动粘贴（", keys, "）：");
                push_chars(&mut out, &chars_of(notice_content));
                out
            },
            None => concat("已自动粘贴：", notice_content),
        }
    } else {
        concat("已复制到剪贴板：", notice_content)
    }
}

/// What is shown of a text: its beginning.
pub open spec fn shown_part(content: Seq<char>) -> Seq<char> {
    if content.len() > NOTICE_CHARS {
        content.take(NOTICE_CHARS as int) + "..."@
    } else {
        content
    }
}

/// What is shown of a text.
pub fn notice_content(content: &str) -> (r: String)
    ensures
        r@ == shown_part(content@),
{
    let all = chars_of(content);
    if all.len() > NOTICE_CHARS {
        let mut out = string_of(vstd::slice::slice_subrange(all.as_slice(), 0, NOTICE_CHARS));
        push_chars(&mut out, &chars_of("..."));
        assert(out@ =~= shown_part(content@));
        out
    } else {
        string_of(&all)
    }
}

/// The address of a server whose pages have the given parts: scheme, host, and the port where it is
/// not the usual one. There is none without a host.
pub open spec fn base_of_parts(url: net::UrlView) -> Option<Seq<char>> {
    match url.host_str {
        Some(host) => Some(
            url.scheme + "://"@ + host + match url.port {
                Some(port) => ":"@ + text::decimal(port as nat),
                None => Seq::empty(),
            },
        ),
        None => None,
    }
}

/// The address of a server whose pages have the given parts.
pub fn base_from_parts(url: &net::UrlParts) -> (r: Option<String>)
    ensures
        text::opt_chars(r) == base_of_parts(url@),
{
    match &url.host_str {
        Some(host) => {
            let mut out = concat3(&url.scheme, "://", host);
            if let Some(port) = url.port {
                push_chars(&mut out, &chars_of(":"));
                push_decimal(&mut out, port as u64);
            }
            assert(out@ =~= base_of_parts(url@)->0);
            Some(out)
        },
        None => None,
    }
}

/// The address of the server whose page a phone is shown, if that page's address is one.
pub open spec fn base_of(url: Seq<char>) -> Option<Seq<char>> {
    match net::url_parse(url) {
        Ok(parts) => base_of_parts(parts),
        Err(_) => None,
    }
}

/// The address of the server whose page a phone is shown.
pub fn public_base_url_from_session_url(url: &str) -> (r: Option<String>)
    ensures
        text::opt_chars(r) == base_of(url@),
{
    match parse_url(url) {
        Ok(parts) => base_from_parts(&parts),
        Err(_) => None,
    }
}

/// The smaller of the doubled delay and the longest.
pub open spec fn doubled(delay: Nanos, max_secs: u64) -> Nanos {
    let max = max_secs * NANOS_PER_SEC;
    if 2 * delay <= max {
        (2 * delay) as u128
    } else {
        max as u128
    }
}

impl AppView {
    /// The window at the start.
    pub open spec fn start(config: ClientConfig, settings: UiSettings, has_tray: bool) -> AppView {
        AppView {
            config,
            settings,
            state: AppStateView::Connecting,
            connecting_target: None,
            last_connect_status: None,
            has_tray,
            allow_close: false,
            startup_visibility_pending: config.start_minimized,
            link_open: true,
            paste_notice: None,
            last_session_token: None,
            last_grpc_session_token: None,
            last_public_base_url: None,
            revoke_state: RevokeView::Idle,
            reconnect_delay: NANOS_PER_SEC,
            reconnect_pending: false,
            reconnect_attempts: 0,
        }
    }

    /// A new connection: all that belonged to the last one is forgotten.
    pub open spec fn connect(self) -> AppView {
        AppView {
            link_open: true,
            state: AppStateView::Connecting,
            connecting_target: None,
            last_connect_status: None,
            last_session_token: None,
            last_grpc_session_token: None,
            last_public_base_url: None,
            revoke_state: RevokeView::Idle,
            ..self
        }
    }

    /// Nothing more is known of how a connection is getting on.
    pub open spec fn settled(self) -> AppView {
        AppView { connecting_target: None, last_connect_status: None, ..self }
    }

    /// Where a revocation is asked for.
    pub open spec fn revoke_url(self) -> Option<Seq<char>> {
        match self.last_public_base_url {
            Some(url) => {
                let base = text::trim_end_of(url, '/');
                let tail = "/api/pairing/"@ + self.settings.pairing_id@ + "/revoke"@;
                Some(
                    if "http://"@.is_prefix_of(base) || "https://"@.is_prefix_of(base) {
                        base + tail
                    } else {
                        "http://"@ + base + tail
                    },
                )
            },
            None => None,
        }
    }

    /// A revocation is asked for.
    pub open spec fn revoke(self) -> AppView {
        AppView {
            revoke_state: if self.last_grpc_session_token is None {
                RevokeView::Error("当前还没有可用会话，无法撤销访问。"@)
            } else if self.revoke_url() is None {
                RevokeView::Error("尚未获取到服务端地址，无法撤销访问。"@)
            } else {
                RevokeView::Running
            },
            ..self
        }
    }

    /// The text that arrived, as it goes to the clipboard.
    pub open spec fn clipboard_job(self, content: Seq<char>) -> ClipboardJobView {
        ClipboardJobView {
            content,
            auto_paste: self.config.auto_paste,
            enter_after_paste: self.config.enter_after_paste,
            emulation_key_after_paste: text::opt_chars(self.settings.emulation_key_after_paste),
            delete_clipboard_after_paste: self.settings.delete_clipboard_after_paste,
            paste_delay_ms: self.config.paste_delay_ms,
            notice_content: shown_part(content),
        }
    }

    /// The beginning of a frame.
    pub open spec fn begin_frame(self, close_requested: bool) -> (AppView, Seq<UiCommandView>) {
        let connects = self.reconnect_pending && !self.link_open;
        let a = if connects {
            (AppView { reconnect_pending: false, ..self }).connect()
        } else {
            self
        };
        let b = AppView { startup_visibility_pending: false, ..a };
        let hides = close_requested && self.config.minimize_on_close && self.has_tray
            && !self.allow_close;
        (
            b,
            (if connects {
                seq![UiCommandView::Connect]
            } else {
                Seq::empty()
            }) + (if self.startup_visibility_pending {
                seq![UiCommandView::Visible(!self.has_tray)]
            } else {
                Seq::empty()
            }) + (if hides {
                seq![UiCommandView::CancelClose, UiCommandView::Visible(false)]
            } else {
                Seq::empty()
            }),
        )
    }

    /// Something happened on the connection.
    pub open spec fn on_event(self, event: ClientEventView) -> (AppView, Seq<UiCommandView>) {
        match event {
            ClientEventView::ConnectingTarget { message } => (
                AppView {
                    state: AppStateView::Connecting,
                    connecting_target: Some(message),
                    ..self
                },
                Seq::empty(),
            ),
            ClientEventView::ConnectingStatus { message } => (
                AppView {
                    state: AppStateView::Connecting,
                    last_connect_status: Some(message),
                    ..self
                },
                Seq::empty(),
            ),
            ClientEventView::GrpcSessionToken { token } => (
                AppView { last_grpc_session_token: Some(token), ..self },
                Seq::empty(),
            ),
            ClientEventView::SessionToken { token, url } => (
                AppView {
                    last_session_token: Some(token),
                    last_public_base_url: base_of(url),
                    reconnect_delay: NANOS_PER_SEC,
                    reconnect_attempts: 0,
                    state: AppStateView::WaitingScan { url },
                    ..self.settled()
                },
                seq![UiCommandView::DrawCode(url)],
            ),
            ClientEventView::MobileConnected { device_info } => (
                AppView { state: AppStateView::Connected { device_info }, ..self.settled() },
                if self.has_tray {
                    seq![UiCommandView::Visible(false)]
                } else {
                    Seq::empty()
                },
            ),
            ClientEventView::MobileDisconnected => (
                self.settled(),
                seq![UiCommandView::Visible(true)],
            ),
            ClientEventView::ClipboardText { content } => (
                self,
                if content.len() == 0 {
                    Seq::empty()
                } else {
                    seq![UiCommandView::Clipboard(self.clipboard_job(content))]
                },
            ),
            ClientEventView::FileReceived(file) => (self, seq![UiCommandView::Fetch(file)]),
            ClientEventView::Error { message } => (
                AppView { state: AppStateView::Error { message }, ..self.settled() },
                Seq::empty(),
            ),
        }
    }

    /// Are the attempts to connect again used up? Never where there is no limit to them.
    pub open spec fn gives_up(self) -> bool {
        self.config.max_reconnect_attempts > 0 && self.reconnect_attempts
            >= self.config.max_reconnect_attempts
    }

    /// Is another connection made once this one is over?
    pub open spec fn connects_again(self) -> bool {
        !(self.state is Error) && !self.reconnect_pending && !self.gives_up()
    }

    /// The connection is over. Another is made after a while, unless there is no point in it or the
    /// attempts are used up.
    pub open spec fn on_disconnected(self) -> (AppView, Seq<UiCommandView>) {
        if self.state is Error || self.reconnect_pending {
            (AppView { link_open: false, ..self }, Seq::empty())
        } else if self.gives_up() {
            (
                AppView {
                    link_open: false,
                    state: AppStateView::Error { message: "已达到最大重连次数，停止重连。"@ },
                    ..self
                },
                Seq::empty(),
            )
        } else {
            (
                AppView {
                    link_open: false,
                    state: AppStateView::Connecting,
                    last_connect_status: Some("连接断开，正在重试..."@),
                    reconnect_pending: true,
                    reconnect_attempts: if self.reconnect_attempts == u32::MAX {
                        u32::MAX
                    } else {
                        (self.reconnect_attempts + 1) as u32
                    },
                    reconnect_delay: doubled(
                        self.reconnect_delay,
                        self.settings.reconnect_max_interval_secs,
                    ),
                    ..self
                },
                seq![UiCommandView::RepaintAfter(self.reconnect_delay)],
            )
        }
    }

    /// Something was clicked in the tray.
    pub open spec fn on_tray(self, event: TrayEvent) -> (AppView, Seq<UiCommandView>) {
        match event {
            TrayEvent::ShowWindow => (
                self,
                seq![UiCommandView::Visible(true), UiCommandView::Focus],
            ),
            TrayEvent::Quit => (
                AppView { allow_close: true, has_tray: false, ..self },
                seq![UiCommandView::Close],
            ),
        }
    }

    /// There is a notice.
    pub open spec fn on_notice(self, notice: Seq<char>, now: Moment) -> (
        AppView,
        Seq<UiCommandView>,
    ) {
        (
            AppView { paste_notice: Some((notice, now)), ..self },
            seq![
                UiCommandView::RepaintAfter(
                    (self.config.notification_duration_secs * NANOS_PER_SEC) as u128,
                ),
            ],
        )
    }

    /// A notice that was shown for long enough goes.
    pub open spec fn expire(self, now: Moment) -> AppView {
        match self.paste_notice {
            Some((_, since)) => if clock::elapsed(now, since)
                >= self.config.notification_duration_secs {
                AppView { paste_notice: None, ..self }
            } else {
                self
            },
            None => self,
        }
    }

    /// Several things happened on the connection.
    pub open spec fn on_events(self, events: Seq<ClientEventView>) -> (
        AppView,
        Seq<UiCommandView>,
    )
        decreases events.len(),
    {
        if events.len() == 0 {
            (self, Seq::empty())
        } else {
            let (a, x) = self.on_events(events.drop_last());
            let (b, y) = a.on_event(events.last());
            (b, x + y)
        }
    }

    /// Several things were clicked in the tray.
    pub open spec fn on_trays(self, events: Seq<TrayEvent>) -> (AppView, Seq<UiCommandView>)
        decreases events.len(),
    {
        if events.len() == 0 {
            (self, Seq::empty())
        } else {
            let (a, x) = self.on_trays(events.drop_last());
            let (b, y) = a.on_tray(events.last());
            (b, x + y)
        }
    }

    /// There are several notices.
    pub open spec fn on_notices(self, notices: Seq<Seq<char>>, now: Moment) -> (
        AppView,
        Seq<UiCommandView>,
    )
        decreases notices.len(),
    {
        if notices.len() == 0 {
            (self, Seq::empty())
        } else {
            let (a, x) = self.on_notices(notices.drop_last(), now);
            let (b, y) = a.on_notice(notices.last(), now);
            (b, x + y)
        }
    }
}

/// What is known at the beginning of a frame: how a revocation came out, if it has, and whether the
/// window is to be closed.
#[derive(Debug)]
pub struct FrameStart {
    pub revoked: Option<RevokeState>,
    pub close_requested: bool,
}

/// What has happened since the last frame: on the connection, whether it is over, in the tray, which
/// notices there are, and what time it is.
#[derive(Debug)]
pub struct FrameInput {
    pub events: Vec<ClientEvent>,
    pub disconnected: bool,
    pub tray: Vec<TrayEvent>,
    pub notices: Vec<String>,
    pub now: Moment,
}

/// The views of texts.
pub open spec fn string_views(v: Seq<String>) -> Seq<Seq<char>> {
    v.map_values(|s: String| s@)
}

/// The views of events.
pub open spec fn client_event_views(v: Seq<ClientEvent>) -> Seq<ClientEventView> {
    v.map_values(|e: ClientEvent| e@)
}

impl AppView {
    /// The connection's part of a frame: what happened on it, and its end.
    pub open spec fn link_part(self, input: FrameInput) -> (AppView, Seq<UiCommandView>) {
        if self.link_open {
            let (a, x) = self.on_events(client_event_views(input.events@));
            if input.disconnected {
                let (b, y) = a.on_disconnected();
                (b, x + y)
            } else {
                (a, x)
            }
        } else {
            (self, Seq::empty())
        }
    }

    /// A frame: the connection, the tray, the notices, and the end of a notice.
    pub open spec fn frame(self, input: FrameInput) -> (AppView, Seq<UiCommandView>) {
        let (a, x) = self.link_part(input);
        let (b, y) = a.on_trays(input.tray@);
        let (c, z) = b.on_notices(string_views(input.notices@), input.now);
        (c.expire(input.now), x + y + z)
    }
}

/// One more command at the end.
fn push_command(out: &mut Vec<UiCommand>, command: UiCommand)
    ensures
        command_views(final(out)@) == command_views(old(out)@) + seq![command@],
        final(out)@ == old(out)@.push(command),
{
    let ghost start = out@;
    out.push(command);
    assert(command_views(out@) =~= command_views(start) + seq![command@]);
}

/// The commands of both, in order.
fn append_commands(out: &mut Vec<UiCommand>, more: Vec<UiCommand>)
    ensures
        command_views(final(out)@) == command_views(old(out)@) + command_views(more@),
{
    let ghost start = out@;
    let mut more = more;
    let ghost all = more@;
    out.append(&mut more);
    assert(out@ =~= start + all);
    assert(command_views(out@) =~= command_views(start) + command_views(all));
}

/// No command.
fn no_commands() -> (r: Vec<UiCommand>)
    ensures
        command_views(r@) == Seq::<UiCommandView>::empty(),
{
    let r: Vec<UiCommand> = Vec::new();
    assert(command_views(r@) =~= Seq::empty());
    r
}

/// One command.
fn one_command(command: UiCommand) -> (r: Vec<UiCommand>)
    ensures
        command_views(r@) == seq![command@],
{
    let mut r = no_commands();
    push_command(&mut r, command);
    assert(command_views(r@) =~= seq![command@]);
    r
}

/// A copy of a text that may be missing.
fn copied(s: &Option<String>) -> (r: Option<String>)
    ensures
        text::opt_chars(r) == text::opt_chars(*s),
{
    match s {
        Some(s) => Some(string_of(&chars_of(s))),
        None => None,
    }
}

impl App {
    /// The window at the start. A connection is to be made.
    pub fn new(config: ClientConfig, settings: UiSettings, has_tray: bool) -> (r: App)
        ensures
            r@ == AppView::start(config, settings, has_tray),
    {
        App {
            startup_visibility_pending: config.start_minimized,
            config,
            settings,
            state: AppState::Connecting,
            connecting_target: None,
            last_connect_status: None,
            has_tray,
            allow_close: false,
            link_open: true,
            paste_notice: None,
            last_session_token: None,
            last_grpc_session_token: None,
            last_public_base_url: None,
            revoke_state: RevokeState::Idle,
            reconnect_delay: NANOS_PER_SEC,
            reconnect_pending: false,
            reconnect_attempts: 0,
        }
    }

    /// What a connection is started with.
    pub fn start_options(&self) -> (r: StartOptions)
        ensures
            r.host@ == self.config.server_host@,
            r.port == self.config.grpc_port,
            r.auth_token@ == self.config.grpc_auth_token@,
            r.pairing_id@ == self.settings.pairing_id@,
            r.heartbeat_interval_secs == self.settings.heartbeat_interval_secs,
    {
        StartOptions {
            host: string_of(&chars_of(&self.config.server_host)),
            port: self.config.grpc_port,
            auth_token: string_of(&chars_of(&self.config.grpc_auth_token)),
            pairing_id: string_of(&chars_of(&self.settings.pairing_id)),
            heartbeat_interval_secs: self.settings.heartbeat_interval_secs,
        }
    }

    /// A new connection.
    pub fn start_grpc(&mut self)
        ensures
            final(self)@ == old(self)@.connect(),
    {
        self.link_open = true;
        self.state = AppState::Connecting;
        self.connecting_target = None;
        self.last_connect_status = None;
        self.last_session_token = None;
        self.last_grpc_session_token = None;
        self.last_public_base_url = None;
        self.revoke_state = RevokeState::Idle;
    }

    /// Where a revocation is asked for.
    pub fn revoke_endpoint_url(&self) -> (r: Option<String>)
        ensures
            text::opt_chars(r) == self@.revoke_url(),
    {
        match &self.last_public_base_url {
            Some(url) => {
                let all = chars_of(url);
                let base = trim_end_char(&all, '/');
                let tail = concat3("/api/pairing/", &self.settings.pairing_id, "/revoke");
                let mut out = String::new();
                if strip_prefix(base, "http://").is_none() && strip_prefix(
                    base,
                    "https://",
                ).is_none() {
                    push_chars(&mut out, &chars_of("http://"));
                }
                push_chars(&mut out, base);
                push_chars(&mut out, &chars_of(&tail));
                assert(out@ =~= self@.revoke_url()->0);
                Some(out)
            },
            None => None,
        }
    }

    /// A revocation is asked for: where, and with which secret, if it can be.
    pub fn trigger_revoke(&mut self) -> (r: Option<(String, String)>)
        ensures
            final(self)@ == old(self)@.revoke(),
            match r {
                Some((url, secret)) => {
                    &&& old(self)@.revoke_url() == Some(url@)
                    &&& old(self)@.last_grpc_session_token == Some(secret@)
                },
                None => old(self)@.revoke_url() is None
                    || old(self)@.last_grpc_session_token is None,
            },
    {
        let secret = match &self.last_grpc_session_token {
            Some(secret) => string_of(&chars_of(secret)),
            None => {
                self.revoke_state = RevokeState::Error(
                    string_of(&chars_of("当前还没有可用会话，无法撤销访问。")),
                );
                return None;
            },
        };
        let url = match self.revoke_endpoint_url() {
            Some(url) => url,
            None => {
                self.revoke_state = RevokeState::Error(
                    string_of(&chars_of("尚未获取到服务端地址，无法撤销访问。")),
                );
                return None;
            },
        };
        self.revoke_state = RevokeState::Running;
        Some((url, secret))
    }

    /// The beginning of a frame.
    pub fn begin_frame(&mut self, start: FrameStart) -> (r: Vec<UiCommand>)
        ensures
            ({
                let before = match start.revoked {
                    Some(revoked) => AppView { revoke_state: revoked@, ..old(self)@ },
                    None => old(self)@,
                };
                &&& final(self)@ == before.begin_frame(start.close_requested).0
                &&& command_views(r@) == before.begin_frame(start.close_requested).1
            }),
    {
        if let Some(revoked) = start.revoked {
            self.revoke_state = revoked;
        }
        let ghost before = self@;
        let mut out = no_commands();
        if self.reconnect_pending && !self.link_open {
            self.reconnect_pending = false;
            self.start_grpc();
            push_command(&mut out, UiCommand::Connect);
        }
        if self.startup_visibility_pending {
            self.startup_visibility_pending = false;
            push_command(&mut out, UiCommand::Visible(!self.has_tray));
        }
        if start.close_requested && self.config.minimize_on_close && self.has_tray
            && !self.allow_close {
            push_command(&mut out, UiCommand::CancelClose);
            push_command(&mut out, UiCommand::Visible(false));
        }
        assert(command_views(out@) =~= before.begin_frame(start.close_requested).1);
        out
    }

    /// The text that arrived, as it goes to the clipboard.
    fn clipboard_job(&self, content: String) -> (r: ClipboardJob)
        ensures
            r@ == self@.clipboard_job(content@),
    {
        ClipboardJob {
            notice_content: notice_content(&content),
            content,
            auto_paste: self.config.auto_paste,
            enter_after_paste: self.config.enter_after_paste,
            emulation_key_after_paste: copied(&self.settings.emulation_key_after_paste),
            delete_clipboard_after_paste: self.settings.delete_clipboard_after_paste,
            paste_delay_ms: self.config.paste_delay_ms,
        }
    }

    /// Something happened on the connection.
    pub fn on_event(&mut self, event: ClientEvent) -> (r: Vec<UiCommand>)
        ensures
            final(self)@ == old(self)@.on_event(event@).0,
            command_views(r@) == old(self)@.on_event(event@).1,
    {
        match event {
            ClientEvent::ConnectingTarget { message } => {
                self.state = AppState::Connecting;
                self.connecting_target = Some(message);
                no_commands()
            },
            ClientEvent::ConnectingStatus { message } => {
                self.state = AppState::Connecting;
                self.last_connect_status = Some(message);
                no_commands()
            },
            ClientEvent::GrpcSessionToken { token } => {
                self.last_grpc_session_token = Some(token);
                no_commands()
            },
            ClientEvent::SessionToken { token, url } => {
                self.connecting_target = None;
                self.last_connect_status = None;
                self.last_session_token = Some(token);
                self.last_public_base_url = public_base_url_from_session_url(&url);
                self.reconnect_delay = NANOS_PER_SEC;
                self.reconnect_attempts = 0;
                let drawn = string_of(&chars_of(&url));
                self.state = AppState::WaitingScan { url };
                one_command(UiCommand::DrawCode(drawn))
            },
            ClientEvent::MobileConnected { device_info } => {
                self.connecting_target = None;
                self.last_connect_status = None;
                self.state = AppState::Connected { device_info };
                if self.has_tray {
                    one_command(UiCommand::Visible(false))
                } else {
                    no_commands()
                }
            },
            ClientEvent::MobileDisconnected => {
                self.connecting_target = None;
                self.last_connect_status = None;
                one_command(UiCommand::Visible(true))
            },
            ClientEvent::ClipboardText { content } => {
                if chars_of(&content).len() == 0 {
                    no_commands()
                } else {
                    one_command(UiCommand::Clipboard(self.clipboard_job(content)))
                }
            },
            ClientEvent::FileReceived(file) => one_command(UiCommand::Fetch(file)),
            ClientEvent::Error { message } => {
                self.connecting_target = None;
                self.last_connect_status = None;
                self.state = AppState::Error { message };
                no_commands()
            },
        }
    }

    /// The connection is over.
    pub fn on_disconnected(&mut self) -> (r: Vec<UiCommand>)
        requires
            old(self)@.connects_again() ==> 2 * old(self).reconnect_delay <= DURATION_MAX,
        ensures
            final(self)@ == old(self)@.on_disconnected().0,
            command_views(r@) == old(self)@.on_disconnected().1,
    {
        self.link_open = false;
        let failed = match self.state {
            AppState::Error { .. } => true,
            _ => false,
        };
        if failed || self.reconnect_pending {
            return no_commands();
        }
        let most: u32 = self.config.max_reconnect_attempts;
        if most > 0 && self.reconnect_attempts >= most {
            self.state = AppState::Error {
                message: string_of(&chars_of("已达到最大重连次数，停止重连。")),
            };
            return no_commands();
        }
        self.reconnect_attempts = self.reconnect_attempts.saturating_add(1);
        let max: Nanos = self.settings.reconnect_max_interval_secs as u128 * NANOS_PER_SEC;
        self.state = AppState::Connecting;
        self.last_connect_status = Some(string_of(&chars_of("连接断开，正在重试...")));
        self.reconnect_pending = true;
        let delay = self.reconnect_delay;
        self.reconnect_delay = if 2 * delay <= max {
            2 * delay
        } else {
            max
        };
        one_command(UiCommand::RepaintAfter(delay))
    }

    /// Something was clicked in the tray.
    pub fn on_tray(&mut self, event: TrayEvent) -> (r: Vec<UiCommand>)
        ensures
            final(self)@ == old(self)@.on_tray(event).0,
            command_views(r@) == old(self)@.on_tray(event).1,
    {
        match event {
            TrayEvent::ShowWindow => {
                let mut out = one_command(UiCommand::Visible(true));
                push_command(&mut out, UiCommand::Focus);
                assert(command_views(out@) =~= seq![
                    UiCommandView::Visible(true),
                    UiCommandView::Focus,
                ]);
                out
            },
            TrayEvent::Quit => {
                self.allow_close = true;
                self.has_tray = false;
                one_command(UiCommand::Close)
            },
        }
    }

    /// There is a notice.
    pub fn on_notice(&mut self, notice: String, now: Moment) -> (r: Vec<UiCommand>)
        ensures
            final(self)@ == old(self)@.on_notice(notice@, now).0,
            command_views(r@) == old(self)@.on_notice(notice@, now).1,
    {
        self.paste_notice = Some((notice, now));
        one_command(
            UiCommand::RepaintAfter(
                self.config.notification_duration_secs as u128 * NANOS_PER_SEC,
            ),
        )
    }

    /// A notice that was shown for long enough goes.
    pub fn expire_notice(&mut self, now: Moment)
        ensures
            final(self)@ == old(self)@.expire(now),
    {
        let secs: u64 = self.config.notification_duration_secs;
        let gone = match &self.paste_notice {
            Some((_, since)) => secs == 0 || !elapsed_at_most(now, *since, secs - 1),
            None => false,
        };
        if gone {
            self.paste_notice = None;
        }
    }

    /// A frame, after its beginning.
    pub fn logic(&mut self, input: FrameInput) -> (r: Vec<UiCommand>)
        requires
            input.disconnected ==> 2 * old(self).reconnect_delay <= DURATION_MAX,
        ensures
            final(self)@ == old(self)@.frame(input).0,
            command_views(r@) == old(self)@.frame(input).1,
    {
        let ghost start = self@;
        let ghost events = client_event_views(input.events@);
        let ghost tray = input.tray@;
        let ghost notices = string_views(input.notices@);
        let ghost now = input.now;
        let FrameInput { events: link_events, disconnected, tray: tray_events, notices: texts, now: at } =
            input;
        let mut out = no_commands();
        if self.link_open {
            let mut left = link_events;
            proof {
                assert(events.take(0) =~= Seq::empty());
            }
            let mut done: usize = 0;
            let total: usize = left.len();
            while done < total
                invariant
                    done <= total,
                    total == events.len(),
                    left@.len() == total - done,
                    forall|i: int|
                        0 <= i < left@.len() ==> (#[trigger] left@[i])@ == events[done + i],
                    self@ == start.on_events(events.take(done as int)).0,
                    command_views(out@) == start.on_events(events.take(done as int)).1,
                    disconnected ==> 2 * self.reconnect_delay <= DURATION_MAX,
                decreases total - done,
            {
                let event = left.remove(0);
                assert(event@ == events[done as int]);
                assert(events.take(done as int + 1).drop_last() =~= events.take(done as int));
                let more = self.on_event(event);
                append_commands(&mut out, more);
                done = done + 1;
            }
            assert(events.take(total as int) =~= events);
            if disconnected {
                let more = self.on_disconnected();
                append_commands(&mut out, more);
            }
        }
        assert(self@ == start.link_part(input).0);
        assert(command_views(out@) == start.link_part(input).1);
        let ghost after_link = self@;
        let ghost link_out = command_views(out@);
        assert(tray.take(0) =~= Seq::empty());
        assert(link_out + Seq::<UiCommandView>::empty() =~= link_out);
        for i in 0..tray_events.len()
            invariant
                tray == tray_events@,
                self@ == after_link.on_trays(tray.take(i as int)).0,
                command_views(out@) == link_out + after_link.on_trays(tray.take(i as int)).1,
        {
            assert(tray.take(i as int + 1).drop_last() =~= tray.take(i as int));
            let more = self.on_tray(tray_events[i]);
            append_commands(&mut out, more);
            assert(command_views(out@) =~= link_out + after_link.on_trays(
                tray.take(i as int + 1),
            ).1);
        }
        assert(tray.take(tray.len() as int) =~= tray);
        let ghost after_tray = self@;
        let ghost tray_out = command_views(out@);
        assert(notices.take(0) =~= Seq::empty());
        assert(tray_out + Seq::<UiCommandView>::empty() =~= tray_out);
        for i in 0..texts.len()
            invariant
                notices == string_views(texts@),
                now == at,
                self@ == after_tray.on_notices(notices.take(i as int), now).0,
                command_views(out@) == tray_out + after_tray.on_notices(
                    notices.take(i as int),
                    now,
                ).1,
        {
            assert(notices.take(i as int + 1).drop_last() =~= notices.take(i as int));
            let notice = string_of(&chars_of(&texts[i]));
            assert(notice@ == notices[i as int]);
            let more = self.on_notice(notice, at);
            append_commands(&mut out, more);
            assert(command_views(out@) =~= tray_out + after_tray.on_notices(
                notices.take(i as int + 1),
                now,
            ).1);
        }
        assert(notices.take(notices.len() as int) =~= notices);
        self.expire_notice(at);
        out
    }
}

/// What a click on the tray's icon or in its menu means: the left button shows the window once it is
/// released, and the menu has two entries.
pub fn tray_click(left: bool, released: bool) -> (r: Option<TrayEvent>)
    ensures
        r == (if left && released {
            Some(TrayEvent::ShowWindow)
        } else {
            None
        }),
{
    if left && released {
        Some(TrayEvent::ShowWindow)
    } else {
        None
    }
}

/// What an entry of the tray's menu means.
pub fn tray_menu(is_show: bool, is_quit: bool) -> (r: Option<TrayEvent>)
    ensures
        r == (if is_show {
            Some(TrayEvent::ShowWindow)
        } else if is_quit {
            Some(TrayEvent::Quit)
        } else {
            None
        }),
{
    if is_show {
        Some(TrayEvent::ShowWindow)
    } else if is_quit {
        Some(TrayEvent::Quit)
    } else {
        None
    }
}

/// What the server answered when it was asked to revoke.
#[derive(Debug)]
pub enum RevokeReply {
    /// A reply with this status.
    Status { code: u16, text: String },
    /// None, for this reason.
    Failed(String),
}

/// How a revocation came out.
pub fn revoke_outcome(reply: RevokeReply, now: Moment) -> (r: RevokeState)
    ensures
        r@ == (match reply {
            RevokeReply::Status { code, text } => if 200 <= code < 300 {
                RevokeView::Success(now)
            } else {
                RevokeView::Error("撤销失败：HTTP "@ + text@)
            },
            RevokeReply::Failed(why) => RevokeView::Error("撤销失败："@ + why@),
        }),
{
    match reply {
        RevokeReply::Status { code, text } => {
            if 200 <= code && code < 300 {
                RevokeState::Success(now)
            } else {
                RevokeState::Error(concat("撤销失败：HTTP ", &text))
            }
        },
        RevokeReply::Failed(why) => RevokeState::Error(concat("撤销失败：", &why)),
    }
}

/// What is done for a text before it is written to the clipboard.
#[derive(Debug, Clone, Copy, PartialEq, Eq, Structural)]
pub enum ClipboardStart {
    /// Nothing: there is no text.
    Skip,
    /// It is written.
    Write,
    /// What the clipboard holds is kept, and the text is written.
    SnapshotAndWrite,
}

/// What is done for a text before it is written to the clipboard.
pub fn clipboard_start(job: &ClipboardJob) -> (r: ClipboardStart)
    ensures
        r == (if job@.content.len() == 0 {
            ClipboardStart::Skip
        } else if job@.auto_paste && job@.delete_clipboard_after_paste {
            ClipboardStart::SnapshotAndWrite
        } else {
            ClipboardStart::Write
        }),
{
    if chars_of(&job.content).len() == 0 {
        ClipboardStart::Skip
    } else if job.auto_paste && job.delete_clipboard_after_paste {
        ClipboardStart::SnapshotAndWrite
    } else {
        ClipboardStart::Write
    }
}

/// What is done once a text was written to the clipboard, or could not be.
#[derive(Debug)]
pub struct ClipboardFollowUp {
    /// Are the keys that paste pressed?
    pub paste: bool,
    /// The keys pressed after them, in order.
    pub keys: Vec<(Option<Key>, Key)>,
    /// What the user is told.
    pub notice: String,
    /// Is the clipboard put back, where something of it was kept?
    pub restore: bool,
}

/// What is done once a text was written to the clipboard, or could not be.
pub fn clipboard_follow_up(job: &ClipboardJob, written: bool) -> (r: ClipboardFollowUp)
    ensures
        r.paste == (written && job@.auto_paste),
        r.keys@ == (if written && job@.auto_paste {
            clipboard::keys_after_paste(job@.emulation_key_after_paste, job@.enter_after_paste)
        } else {
            Seq::empty()
        }),
        r.notice@ == (if written {
            clipboard_notice(
                job@.auto_paste,
                job@.emulation_key_after_paste,
                job@.notice_content,
            )
        } else {
            "写入剪贴板失败，请重试。"@
        }),
        r.restore == written,
{
    if !written {
        return ClipboardFollowUp {
            paste: false,
            keys: Vec::new(),
            notice: string_of(&chars_of("写入剪贴板失败，请重试。")),
            restore: false,
        };
    }
    let named: Option<&str> = match &job.emulation_key_after_paste {
        Some(keys) => Some(keys.as_str()),
        None => None,
    };
    let keys: Vec<(Option<Key>, Key)> = if job.auto_paste {
        press_after_paste(named, job.enter_after_paste)
    } else {
        Vec::new()
    };
    ClipboardFollowUp {
        paste: job.auto_paste,
        keys,
        notice: build_clipboard_notice(job.auto_paste, named, &job.notice_content),
        restore: true,
    }
}

/// How a line is to look.
#[derive(Debug, Clone, Copy, PartialEq, Eq, Structural)]
pub enum Tone {
    Plain,
    Yellow,
    LightGreen,
    Red,
}

/// What the window shows, from the top.
#[derive(Debug)]
pub enum Item {
    /// A line of text.
    Line(String, Tone),
    /// The code for the phone.
    Code,
    /// The button that asks for a revocation, and whether it can be pressed.
    RevokeButton(bool),
}

/// What the window shows, for contracts.
pub enum ItemView {
    Line(Seq<char>, Tone),
    Code,
    RevokeButton(bool),
}

impl View for Item {
    type V = ItemView;

    open spec fn view(&self) -> ItemView {
        match self {
            Item::Line(line, tone) => ItemView::Line(line@, *tone),
            Item::Code => ItemView::Code,
            Item::RevokeButton(b) => ItemView::RevokeButton(*b),
        }
    }
}

/// The views of items.
pub open spec fn item_views(v: Seq<Item>) -> Seq<ItemView> {
    v.map_values(|i: Item| i@)
}

/// A line, where there is one.
pub open spec fn maybe_line(line: Option<Seq<char>>, tone: Tone) -> Seq<ItemView> {
    match line {
        Some(line) => seq![ItemView::Line(line, tone)],
        None => Seq::empty(),
    }
}

impl AppView {
    /// What is shown of a revocation.
    pub open spec fn revoke_lines(self, now: Moment) -> Seq<ItemView> {
        match self.revoke_state {
            RevokeView::Idle => Seq::empty(),
            RevokeView::Running => seq![
                ItemView::Line("正在请求服务端撤销旧访问..."@, Tone::Plain),
            ],
            RevokeView::Success(at) => if at > now || now - at < REVOKE_SHOWN_SECS
                * clock::SECOND {
                seq![ItemView::Line("已请求撤销，请让手机重新扫码。"@, Tone::LightGreen)]
            } else {
                Seq::empty()
            },
            RevokeView::Error(message) => seq![ItemView::Line(message, Tone::Yellow)],
        }
    }

    /// What the window shows, from the top.
    pub open spec fn screen(self, now: Moment) -> Seq<ItemView> {
        match self.state {
            AppStateView::Connecting => seq![ItemView::Line("连接中..."@, Tone::Plain)]
                + maybe_line(self.connecting_target, Tone::Plain) + maybe_line(
                self.last_connect_status,
                Tone::Yellow,
            ),
            AppStateView::WaitingScan { url } => seq![
                ItemView::Code,
                ItemView::Line(url, Tone::Plain),
                ItemView::Line("等待扫码..."@, Tone::Plain),
            ],
            AppStateView::Connected { device_info } => seq![
                ItemView::Line("已连接："@ + device_info, Tone::Plain),
                ItemView::Line(
                    match self.paste_notice {
                        Some((notice, _)) => notice,
                        None => "等待文本..."@,
                    },
                    Tone::Plain,
                ),
                ItemView::RevokeButton(!(self.revoke_state is Running)),
            ] + self.revoke_lines(now),
            AppStateView::Error { message } => seq![
                ItemView::Line("错误："@ + message, Tone::Red),
            ],
        }
    }
}

/// One more item at the end.
fn push_item(out: &mut Vec<Item>, item: Item)
    ensures
        item_views(final(out)@) == item_views(old(out)@) + seq![item@],
{
    let ghost start = out@;
    out.push(item);
    assert(item_views(out@) =~= item_views(start) + seq![item@]);
}

/// One more line at the end.
fn push_line(out: &mut Vec<Item>, line: &str, tone: Tone)
    ensures
        item_views(final(out)@) == item_views(old(out)@) + seq![ItemView::Line(line@, tone)],
{
    push_item(out, Item::Line(string_of(&chars_of(line)), tone));
}

impl App {
    /// What the window shows, from the top.
    pub fn ui(&self, now: Moment) -> (r: Vec<Item>)
        ensures
            item_views(r@) == self@.screen(now),
    {
        let mut out: Vec<Item> = Vec::new();
        assert(item_views(out@) =~= Seq::empty());
        match &self.state {
            AppState::Connecting => {
                push_line(&mut out, "连接中...", Tone::Plain);
                if let Some(target) = &self.connecting_target {
                    push_line(&mut out, target, Tone::Plain);
                }
                if let Some(detail) = &self.last_connect_status {
                    push_line(&mut out, detail, Tone::Yellow);
                }
            },
            AppState::WaitingScan { url } => {
                push_item(&mut out, Item::Code);
                push_line(&mut out, url, Tone::Plain);
                push_line(&mut out, "等待扫码...", Tone::Plain);
            },
            AppState::Connected { device_info } => {
                push_item(&mut out, Item::Line(concat("已连接：", device_info), Tone::Plain));
                match &self.paste_notice {
                    Some((notice, _)) => {
                        push_line(&mut out, notice, Tone::Plain);
                    },
                    None => {
                        push_line(&mut out, "等待文本...", Tone::Plain);
                    },
                }
                let running = match self.revoke_state {
                    RevokeState::Running => true,
                    _ => false,
                };
                push_item(&mut out, Item::RevokeButton(!running));
                match &self.revoke_state {
                    RevokeState::Idle => {},
                    RevokeState::Running => {
                        push_line(&mut out, "正在请求服务端撤销旧访问...", Tone::Plain);
                    },
                    RevokeState::Success(at) => {
                        let shown = *at > now || match now.checked_sub(*at) {
                            Some(passed) => passed < REVOKE_SHOWN_SECS * clock::SECOND,
                            None => false,
                        };
                        if shown {
                            push_line(
                                &mut out,
                                "已请求撤销，请让手机重新扫码。",
                                Tone::LightGreen,
                            );
                        }
                    },
                    RevokeState::Error(message) => {
                        push_line(&mut out, message, Tone::Yellow);
                    },
                }
            },
            AppState::Error { message } => {
                push_item(&mut out, Item::Line(concat("错误：", message), Tone::Red));
            },
        }
        assert(item_views(out@) =~= self@.screen(now));
        out
    }
}

impl AppView {
    /// The next connection is put off by no more than the longest delay, or the first.
    pub open spec fn delay_bounded(self) -> bool {
        self.reconnect_delay <= NANOS_PER_SEC || self.reconnect_delay
            <= self.settings.reconnect_max_interval_secs * NANOS_PER_SEC
    }
}

proof fn lemma_events_keep_delay(app: AppView, events: Seq<ClientEventView>)
    requires
        app.delay_bounded(),
    ensures
        app.on_events(events).0.delay_bounded(),
    decreases events.len(),
{
    if events.len() > 0 {
        lemma_events_keep_delay(app, events.drop_last());
    }
}

proof fn lemma_trays_keep(app: AppView, events: Seq<TrayEvent>)
    ensures
        app.on_trays(events).0.reconnect_delay == app.reconnect_delay,
        app.on_trays(events).0.settings == app.settings,
    decreases events.len(),
{
    if events.len() > 0 {
        lemma_trays_keep(app, events.drop_last());
    }
}

proof fn lemma_notices_keep(app: AppView, notices: Seq<Seq<char>>, now: Moment)
    ensures
        app.on_notices(notices, now).0.reconnect_delay == app.reconnect_delay,
        app.on_notices(notices, now).0.settings == app.settings,
    decreases notices.len(),
{
    if notices.len() > 0 {
        lemma_notices_keep(app, notices.drop_last(), now);
    }
}

/// Connections are never put off by more than the longest delay, or the first where that is longer:
/// it is so at the start and after every frame.
pub proof fn law_delay_stays_bounded(
    config: ClientConfig,
    settings: UiSettings,
    has_tray: bool,
    app: AppView,
    close_requested: bool,
    input: FrameInput,
)
    requires
        app.delay_bounded(),
    ensures
        AppView::start(config, settings, has_tray).delay_bounded(),
        app.begin_frame(close_requested).0.delay_bounded(),
        app.frame(input).0.delay_bounded(),
{
    let a = app.link_part(input).0;
    lemma_events_keep_delay(app, client_event_views(input.events@));
    assert(a.delay_bounded());
    lemma_trays_keep(a, input.tray@);
    let b = a.on_trays(input.tray@).0;
    lemma_notices_keep(b, string_views(input.notices@), input.now);
}

/// After an error there is no other attempt to connect: the end of the connection asks for none.
pub proof fn law_error_is_final(app: AppView, message: Seq<char>)
    requires
        !app.reconnect_pending,
    ensures
        ({
            let ended = app.on_event(ClientEventView::Error { message }).0.on_disconnected();
            &&& ended.0.state == (AppStateView::Error { message })
            &&& !ended.0.reconnect_pending
            &&& ended.1 == Seq::<UiCommandView>::empty()
        }),
{
}

/// A connection that is lost is made again in the next frame, unless the attempts are used up, and
/// nothing of the lost one remains that a revocation could be asked for with.
pub proof fn law_lost_connection_is_made_again(app: AppView, close_requested: bool)
    requires
        !(app.state is Error),
        !app.gives_up(),
    ensures
        ({
            let lost = app.on_disconnected().0;
            let (again, commands) = lost.begin_frame(close_requested);
            &&& commands.len() > 0
            &&& commands[0] == UiCommandView::Connect
            &&& again.link_open
            &&& !again.reconnect_pending
            &&& again.last_grpc_session_token is None
            &&& again.revoke_url() is None
            &&& again.revoke().revoke_state is Error
        }),
{
}

/// Two losses in a row put the connection off twice as long the second time, up to the longest
/// delay; a session in between brings the first delay back.
pub proof fn law_delay_doubles_and_resets(app: AppView, token: Seq<char>, url: Seq<char>)
    requires
        !(app.state is Error),
        !app.reconnect_pending,
        !app.gives_up(),
    ensures
        app.on_disconnected().1 == seq![UiCommandView::RepaintAfter(app.reconnect_delay)],
        app.on_disconnected().0.reconnect_delay == doubled(
            app.reconnect_delay,
            app.settings.reconnect_max_interval_secs,
        ),
        app.on_event(ClientEventView::SessionToken { token, url }).0.on_disconnected().1 == seq![
            UiCommandView::RepaintAfter(NANOS_PER_SEC),
        ],
{
}

/// The window after so many losses of its connection in a row, each of which is made again in the
/// next frame as far as it is.
pub open spec fn after_losses(app: AppView, losses: nat) -> AppView
    decreases losses,
{
    if losses == 0 {
        app
    } else {
        after_losses(app, (losses - 1) as nat).on_disconnected().0.begin_frame(false).0
    }
}

/// The attempts to connect again are limited: after as many as the configuration allows, the next
/// loss asks for none, and the window says so. Where the configuration sets no limit there is always
/// another.
pub proof fn law_attempts_are_limited(app: AppView, losses: nat)
    requires
        !(app.state is Error),
        !app.reconnect_pending,
        app.reconnect_attempts == 0,
        app.link_open,
    ensures
        ({
            let most = app.config.max_reconnect_attempts;
            let lost = after_losses(app, losses).on_disconnected();
            &&& losses < most || most == 0 ==> lost.0.reconnect_pending && lost.1.len() == 1
            &&& losses == most && most > 0 ==> {
                &&& !lost.0.reconnect_pending
                &&& lost.1.len() == 0
                &&& lost.0.state is Error
            }
        }),
{
    lemma_losses(app, losses);
}

proof fn lemma_losses(app: AppView, losses: nat)
    requires
        !(app.state is Error),
        !app.reconnect_pending,
        app.reconnect_attempts == 0,
        app.link_open,
    ensures
        ({
            let most = app.config.max_reconnect_attempts;
            let after = after_losses(app, losses);
            &&& after.config == app.config
            &&& losses <= most || most == 0 ==> {
                &&& !(after.state is Error)
                &&& !after.reconnect_pending
                &&& after.link_open
                &&& after.reconnect_attempts == (if losses > u32::MAX {
                    u32::MAX as int
                } else {
                    losses as int
                })
            }
        }),
    decreases losses,
{
    if losses > 0 {
        lemma_losses(app, (losses - 1) as nat);
    }
}

} // verus!
