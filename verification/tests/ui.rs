use qr_paste::client::clipboard::Key;
use qr_paste::client::config::{ClientConfig, RawClientConfig};
use qr_paste::client::grpc::{ClientEvent, NANOS_PER_SEC};
use qr_paste::client::picture::{
    code_or_placeholder, generate_qr_texture, icon_or_error, load_icon_rgba,
    placeholder_qr_texture, IconRgba,
};
use qr_paste::client::ui::{
    base_from_parts, build_clipboard_notice, clipboard_follow_up, clipboard_start,
    notice_content, public_base_url_from_session_url, revoke_outcome, tray_click, tray_menu, App,
    AppState, ClipboardJob, ClipboardStart, FrameInput, FrameStart, Item, RevokeReply, RevokeState,
    Tone, TrayEvent, UiCommand, UiSettings, DURATION_MAX,
};
use qr_paste::net::UrlParts;

const SECOND: i128 = 1_000_000_000;

fn config() -> ClientConfig {
    let mut raw =
        RawClientConfig::with_defaults("relay.example.com".to_string(), "secret".to_string());
    raw.auto_paste = true;
    raw.minimize_on_close = true;
    raw.into()
}

fn settings() -> UiSettings {
    UiSettings {
        pairing_id: "p1".to_string(),
        heartbeat_interval_secs: 30,
        emulation_key_after_paste: Some("ctrl+Return".to_string()),
        delete_clipboard_after_paste: true,
        reconnect_max_interval_secs: 3,
    }
}

fn app() -> App {
    App::new(config(), settings(), true)
}

fn session() -> ClientEvent {
    ClientEvent::SessionToken {
        token: "t".to_string(),
        url: "https://relay.example.com:8443/m/abc#ps=secret".to_string(),
    }
}

fn quiet() -> FrameInput {
    FrameInput {
        events: Vec::new(),
        disconnected: false,
        tray: Vec::new(),
        notices: Vec::new(),
        now: 0,
    }
}

fn start() -> FrameStart {
    FrameStart { revoked: None, close_requested: false }
}

fn line(item: &Item) -> (&str, Tone) {
    match item {
        Item::Line(text, tone) => (text.as_str(), *tone),
        other => panic!("{other:?}"),
    }
}

#[test]
fn clipboard_notice_for_auto_paste_with_key_is_generic() {
    assert_eq!(
        build_clipboard_notice(true, Some("ctrl+Return"), "hello"),
        "已自动粘贴（ctrl+Return）：hello"
    );
}

#[test]
fn clipboard_notice_for_auto_paste_without_key_omits_enter_wording() {
    assert_eq!(build_clipboard_notice(true, None, "hello"), "已自动粘贴：hello");
}

#[test]
fn clipboard_notice_for_copy_only_is_copy_message() {
    assert_eq!(build_clipboard_notice(false, Some("Return"), "hello"), "已复制到剪贴板：hello");
}

#[test]
fn public_base_url_from_session_url_extracts_https_origin() {
    assert_eq!(
        public_base_url_from_session_url("https://relay.example.com/m/abc#ps=secret").as_deref(),
        Some("https://relay.example.com")
    );
}

#[test]
fn public_base_url_from_session_url_keeps_non_default_port() {
    assert_eq!(
        public_base_url_from_session_url("https://relay.example.com:8443/m/abc#ps=secret")
            .as_deref(),
        Some("https://relay.example.com:8443")
    );
}

#[test]
fn public_base_urls_need_a_host() {
    assert_eq!(public_base_url_from_session_url("not a url"), None);
    assert_eq!(public_base_url_from_session_url("mailto:a@b"), None);
    let parts = UrlParts {
        scheme: "http".to_string(),
        username: String::new(),
        password: None,
        host_str: Some("h".to_string()),
        port: Some(81),
        path: "/".to_string(),
        query: None,
        fragment: None,
    };
    assert_eq!(base_from_parts(&parts).as_deref(), Some("http://h:81"));
}

#[test]
fn long_texts_are_shown_in_part() {
    assert_eq!(notice_content("12345678901234567890"), "12345678901234567890");
    assert_eq!(notice_content("123456789012345678901"), "12345678901234567890...");
}

#[test]
fn a_session_is_shown_and_can_be_revoked() {
    let mut app = app();
    assert!(app.trigger_revoke().is_none());
    assert!(matches!(&app.revoke_state, RevokeState::Error(m)
        if m == "当前还没有可用会话，无法撤销访问。"));
    app.on_event(ClientEvent::GrpcSessionToken { token: "g".to_string() });
    assert!(app.trigger_revoke().is_none());
    assert!(matches!(&app.revoke_state, RevokeState::Error(m)
        if m == "尚未获取到服务端地址，无法撤销访问。"));
    let commands = app.on_event(session());
    assert!(matches!(&commands[..], [UiCommand::DrawCode(url)]
        if url == "https://relay.example.com:8443/m/abc#ps=secret"));
    assert!(matches!(&app.state, AppState::WaitingScan { .. }));
    assert_eq!(
        app.trigger_revoke(),
        Some((
            "https://relay.example.com:8443/api/pairing/p1/revoke".to_string(),
            "g".to_string()
        ))
    );
    assert!(matches!(app.revoke_state, RevokeState::Running));
}

#[test]
fn addresses_without_a_scheme_get_one() {
    let mut app = app();
    app.last_public_base_url = Some("relay//".to_string());
    assert_eq!(
        app.revoke_endpoint_url().as_deref(),
        Some("http://relay/api/pairing/p1/revoke")
    );
    app.last_public_base_url = None;
    assert_eq!(app.revoke_endpoint_url(), None);
}

#[test]
fn a_lost_connection_is_made_again_later_each_time() {
    let mut app = app();
    for want in [1, 2, 3, 3] {
        let mut input = quiet();
        input.disconnected = true;
        let commands = app.logic(input);
        assert!(matches!(&commands[..], [UiCommand::RepaintAfter(n)]
            if *n == want * NANOS_PER_SEC));
        assert_eq!(app.last_connect_status.as_deref(), Some("连接断开，正在重试..."));
        let commands = app.begin_frame(start());
        assert!(matches!(commands.first(), Some(UiCommand::Connect)));
        assert!(app.link_open);
    }
    app.on_event(session());
    assert_eq!(app.reconnect_delay, NANOS_PER_SEC);
}

#[test]
fn attempts_are_limited_where_the_configuration_says_so() {
    let mut config = config();
    config.max_reconnect_attempts = 2;
    config.enter_after_paste = true;
    let mut app = App::new(config, settings(), true);
    let lost = || FrameInput { disconnected: true, ..quiet() };
    for _ in 0..2 {
        assert_eq!(app.logic(lost()).len(), 1);
        assert!(matches!(app.begin_frame(start()).first(), Some(UiCommand::Connect)));
    }
    assert!(app.logic(lost()).is_empty());
    assert!(app.begin_frame(start()).is_empty());
    assert_eq!(line(&app.ui(0)[0]), ("错误：已达到最大重连次数，停止重连。", Tone::Red));
    app.state = AppState::Connecting;
    app.on_event(session());
    assert_eq!(app.reconnect_attempts, 0);
    let mut commands = app.on_event(ClientEvent::ClipboardText { content: "hi".to_string() });
    match commands.pop() {
        Some(UiCommand::Clipboard(job)) => assert_eq!(
            clipboard_follow_up(&job, true).keys,
            vec![(Some(Key::Control), Key::Return), (None, Key::Return)]
        ),
        other => panic!("{other:?}"),
    }
}

#[test]
fn a_long_wait_matters_only_to_a_lost_connection() {
    let mut app = app();
    app.reconnect_delay = DURATION_MAX;
    assert!(app.logic(quiet()).is_empty());
    assert_eq!(app.reconnect_delay, DURATION_MAX);
    app.state = AppState::Error { message: "bad".to_string() };
    assert!(app.on_disconnected().is_empty());
    assert_eq!(app.reconnect_delay, DURATION_MAX);
}

#[test]
fn an_error_ends_the_attempts() {
    let mut app = app();
    let mut input = quiet();
    input.events = vec![ClientEvent::Error { message: "bad".to_string() }];
    input.disconnected = true;
    assert!(app.logic(input).is_empty());
    assert!(!app.reconnect_pending);
    assert!(app.begin_frame(start()).is_empty());
    assert_eq!(line(&app.ui(0)[0]), ("错误：bad", Tone::Red));
}

#[test]
fn closing_only_hides_until_quit() {
    let mut app = app();
    let closing = || FrameStart { revoked: None, close_requested: true };
    let commands = app.begin_frame(closing());
    assert!(matches!(&commands[..], [UiCommand::CancelClose, UiCommand::Visible(false)]));
    let mut input = quiet();
    input.tray = vec![TrayEvent::ShowWindow, TrayEvent::Quit];
    let commands = app.logic(input);
    assert!(matches!(
        &commands[..],
        [UiCommand::Visible(true), UiCommand::Focus, UiCommand::Close]
    ));
    assert!(app.begin_frame(closing()).is_empty());
}

#[test]
fn a_window_that_starts_hidden_needs_a_tray() {
    let mut raw = RawClientConfig::with_defaults("relay".to_string(), "secret".to_string());
    raw.start_minimized = true;
    let mut app = App::new(raw.into(), settings(), false);
    assert!(matches!(&app.begin_frame(start())[..], [UiCommand::Visible(true)]));
    assert!(app.begin_frame(start()).is_empty());
}

#[test]
fn phones_come_and_go() {
    let mut app = app();
    let commands =
        app.on_event(ClientEvent::MobileConnected { device_info: "Phone".to_string() });
    assert!(matches!(&commands[..], [UiCommand::Visible(false)]));
    let items = app.ui(0);
    assert_eq!(line(&items[0]), ("已连接：Phone", Tone::Plain));
    assert_eq!(line(&items[1]), ("等待文本...", Tone::Plain));
    assert!(matches!(items[2], Item::RevokeButton(true)));
    assert!(matches!(
        &app.on_event(ClientEvent::MobileDisconnected)[..],
        [UiCommand::Visible(true)]
    ));
    app.begin_frame(FrameStart {
        revoked: Some(RevokeState::Success(0)),
        close_requested: false,
    });
    assert_eq!(line(&app.ui(5 * SECOND - 1)[3]), ("已请求撤销，请让手机重新扫码。", Tone::LightGreen));
    assert_eq!(app.ui(5 * SECOND).len(), 3);
    app.revoke_state = RevokeState::Running;
    assert!(matches!(app.ui(0)[2], Item::RevokeButton(false)));
    assert_eq!(line(&app.ui(0)[3]), ("正在请求服务端撤销旧访问...", Tone::Plain));
}

#[test]
fn connecting_is_shown_in_detail() {
    let mut app = app();
    app.on_event(ClientEvent::ConnectingTarget { message: "to".to_string() });
    app.on_event(ClientEvent::ConnectingStatus { message: "how".to_string() });
    let items = app.ui(0);
    assert_eq!(line(&items[0]), ("连接中...", Tone::Plain));
    assert_eq!(line(&items[1]), ("to", Tone::Plain));
    assert_eq!(line(&items[2]), ("how", Tone::Yellow));
}

#[test]
fn notices_go_after_their_time() {
    let mut app = app();
    let mut input = quiet();
    input.notices = vec!["one".to_string(), "two".to_string()];
    input.now = SECOND;
    let commands = app.logic(input);
    assert!(matches!(&commands[..], [UiCommand::RepaintAfter(_), UiCommand::RepaintAfter(n)]
        if *n == 3 * NANOS_PER_SEC));
    assert_eq!(app.paste_notice, Some(("two".to_string(), SECOND)));
    app.expire_notice(4 * SECOND - 1);
    assert!(app.paste_notice.is_some());
    app.expire_notice(4 * SECOND);
    assert!(app.paste_notice.is_none());
}

#[test]
fn texts_go_to_the_clipboard() {
    let mut app = app();
    assert!(app.on_event(ClientEvent::ClipboardText { content: String::new() }).is_empty());
    let mut commands = app.on_event(ClientEvent::ClipboardText { content: "hi".to_string() });
    let job = match commands.pop() {
        Some(UiCommand::Clipboard(job)) => job,
        other => panic!("{other:?}"),
    };
    assert_eq!(clipboard_start(&job), ClipboardStart::SnapshotAndWrite);
    let done = clipboard_follow_up(&job, true);
    assert!(done.paste && done.restore);
    assert_eq!(done.keys, vec![(Some(Key::Control), Key::Return)]);
    assert_eq!(done.notice, "已自动粘贴（ctrl+Return）：hi");
    let failed = clipboard_follow_up(&job, false);
    assert!(!failed.paste && !failed.restore && failed.keys.is_empty());
    assert_eq!(failed.notice, "写入剪贴板失败，请重试。");
}

#[test]
fn texts_that_are_only_copied_press_no_keys() {
    let mut job = ClipboardJob {
        content: "hi".to_string(),
        auto_paste: false,
        enter_after_paste: true,
        emulation_key_after_paste: Some("Return".to_string()),
        delete_clipboard_after_paste: true,
        paste_delay_ms: 1,
        notice_content: "hi".to_string(),
    };
    assert_eq!(clipboard_start(&job), ClipboardStart::Write);
    let done = clipboard_follow_up(&job, true);
    assert!(!done.paste && done.keys.is_empty());
    assert_eq!(done.notice, "已复制到剪贴板：hi");
    job.content = String::new();
    assert_eq!(clipboard_start(&job), ClipboardStart::Skip);
}

#[test]
fn a_revocation_comes_out_as_the_server_says() {
    let status = |code: u16, text: &str| RevokeReply::Status { code, text: text.to_string() };
    assert!(matches!(revoke_outcome(status(204, ""), 7), RevokeState::Success(7)));
    assert!(matches!(revoke_outcome(status(403, "403 Forbidden"), 7), RevokeState::Error(m)
        if m == "撤销失败：HTTP 403 Forbidden"));
    assert!(matches!(revoke_outcome(RevokeReply::Failed("x".to_string()), 7), RevokeState::Error(m)
        if m == "撤销失败：x"));
    assert!(matches!(RevokeState::default(), RevokeState::Idle));
}

#[test]
fn the_tray_shows_and_quits() {
    assert_eq!(tray_click(true, true), Some(TrayEvent::ShowWindow));
    assert_eq!(tray_click(true, false), None);
    assert_eq!(tray_menu(true, false), Some(TrayEvent::ShowWindow));
    assert_eq!(tray_menu(false, true), Some(TrayEvent::Quit));
    assert_eq!(tray_menu(false, false), None);
}

#[test]
fn codes_are_drawn_or_replaced() {
    let code = generate_qr_texture("https://relay.example.com/m/1#ps=2");
    assert_eq!(code.width, code.height);
    assert!(code.width >= 256);
    assert_eq!(code.pixels.len(), (code.width * code.height) as usize);
    assert!(code.pixels.contains(&0) && code.pixels.contains(&255));
    let board = generate_qr_texture(&"x".repeat(5000));
    assert_eq!(board.pixels, placeholder_qr_texture().pixels);
    assert_eq!(board.pixels[0], 32);
    assert_eq!(board.pixels[16], 224);
    assert_eq!(board.pixels[16 * 256], 224);
    assert_eq!(board.pixels[16 * 256 + 16], 32);
    assert_eq!(code_or_placeholder(None).width, 256);
}

#[test]
fn icons_are_decoded() {
    let picture = image::RgbaImage::from_raw(2, 1, vec![1, 2, 3, 255, 5, 6, 7, 255])
        .expect("two pixels");
    let mut png = std::io::Cursor::new(Vec::new());
    picture.write_to(&mut png, image::ImageFormat::Png).expect("a PNG file");
    let icon = load_icon_rgba(png.get_ref()).expect("the icon");
    assert_eq!((icon.width, icon.height), (2, 1));
    assert_eq!(icon.rgba, vec![1, 2, 3, 255, 5, 6, 7, 255]);
    let error = load_icon_rgba(b"no picture").unwrap_err();
    assert!(error.starts_with("failed to decode app icon PNG: "));
    let error = icon_or_error(Err("x".to_string())).unwrap_err();
    assert_eq!(error, "failed to decode app icon PNG: x");
    assert!(icon_or_error(Ok(IconRgba { rgba: Vec::new(), width: 0, height: 0 })).is_ok());
}
