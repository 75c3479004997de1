use qr_paste::client::config::validate_server_host;
use qr_paste::client::grpc::{
    build_endpoint_config, classify_heartbeat_error, extract_tls_domain, jitter_duration,
    map_server_event, stable_token_seed, CallCode, ClientEvent, Heartbeat, HeartbeatErrorKind,
    HeartbeatStep, Link, LinkInput, RetryBackoff, Stage, StartOptions, NANOS_PER_SEC,
};
use qr_paste::events::{Event, ServerEvent};
use std::time::Duration;

fn chars(s: &str) -> Vec<char> {
    s.chars().collect()
}

fn grown(nanos: u128) -> u128 {
    Duration::from_nanos(nanos as u64).mul_f32(1.2).as_nanos()
}

fn next(backoff: &mut RetryBackoff) -> Duration {
    let delay = backoff.next_delay(grown(backoff.next));
    Duration::from_nanos(delay as u64)
}

fn options(host: &str) -> StartOptions {
    StartOptions {
        host: host.to_string(),
        port: 50051,
        auth_token: "secret".to_string(),
        pairing_id: "pairing".to_string(),
        heartbeat_interval_secs: 30,
    }
}

fn session_event(secret: &str) -> ServerEvent {
    ServerEvent {
        event: Some(Event::SessionToken {
            token: "t".to_string(),
            url: "https://relay.example.com/m/1#ps=2".to_string(),
        }),
        grpc_session_token: secret.to_string(),
    }
}

#[test]
fn plain_host_builds_http_endpoint() {
    let config = build_endpoint_config("relay.example.com", 50051).expect("plain host");
    assert_eq!(config.endpoint, "http://relay.example.com:50051");
    assert_eq!(config.tls_domain, None);
}

#[test]
fn https_host_builds_tls_endpoint() {
    let config = build_endpoint_config("https://cg.keivry.ren", 443).expect("https host");
    assert_eq!(config.endpoint, "https://cg.keivry.ren:443");
    assert_eq!(config.tls_domain, Some("cg.keivry.ren".to_string()));
}

#[test]
fn explicit_port_in_server_host_is_preserved() {
    let config = build_endpoint_config("https://cg.keivry.ren:8443", 443)
        .expect("explicit port should win");
    assert_eq!(config.endpoint, "https://cg.keivry.ren:8443");
    assert_eq!(config.tls_domain.as_deref(), Some("cg.keivry.ren"));
}

#[test]
fn path_in_server_host_is_rejected() {
    let error = build_endpoint_config("https://cg.keivry.ren/grpc", 443)
        .expect_err("path should be rejected");
    assert!(error.contains("server_host"));
}

#[test]
fn classify_heartbeat_error_distinguishes_status_codes() {
    assert_eq!(
        classify_heartbeat_error(CallCode::Unimplemented),
        HeartbeatErrorKind::Unimplemented
    );
    assert_eq!(
        classify_heartbeat_error(CallCode::Unauthenticated),
        HeartbeatErrorKind::Unauthenticated
    );
    assert_eq!(classify_heartbeat_error(CallCode::Other), HeartbeatErrorKind::Transient);
}

#[test]
fn retry_backoff_grows_with_jitter_and_respects_cap() {
    let mut backoff = RetryBackoff::new(
        Duration::from_secs(1).as_nanos(),
        Duration::from_secs(60).as_nanos(),
        7,
    );

    let first = next(&mut backoff);
    let second = next(&mut backoff);
    let third = next(&mut backoff);
    let fourth = next(&mut backoff);

    assert!(first >= Duration::from_millis(800));
    assert!(first <= Duration::from_millis(1200));
    assert!(second >= Duration::from_millis(960));
    assert!(second <= Duration::from_millis(1440));
    assert!(third >= Duration::from_millis(1152));
    assert!(third <= Duration::from_millis(1728));
    assert!(fourth >= Duration::from_millis(1382));
    assert!(fourth <= Duration::from_millis(2074));

    backoff.reset();
    let reset = next(&mut backoff);
    assert!(reset >= Duration::from_millis(800));
    assert!(reset <= Duration::from_millis(1200));
}

#[test]
fn waits_stay_between_the_first_and_the_longest() {
    let mut backoff = RetryBackoff::new(NANOS_PER_SEC, 3 * NANOS_PER_SEC, 99);
    for n in 0..40 {
        let delay = next(&mut backoff).as_millis();
        assert!((800..=3600).contains(&delay), "{n}: {delay}");
        if n == 20 {
            backoff.reset();
        }
    }
}

#[test]
fn waits_do_not_grow_past_the_longest() {
    let mut backoff = RetryBackoff::new(NANOS_PER_SEC, 2 * NANOS_PER_SEC, 7);
    backoff.next_delay(5 * NANOS_PER_SEC);
    assert_eq!(backoff.next, 2 * NANOS_PER_SEC);
    assert_eq!(backoff.attempt, 1);
    assert_eq!(RetryBackoff::new(5, 3, 0).max, 5);
}

#[test]
fn bare_addresses_of_version_six_get_brackets() {
    let config = build_endpoint_config("fd00::1", 50051).unwrap();
    assert_eq!(config.endpoint, "http://[fd00::1]:50051");
    let config = build_endpoint_config("https://[fd00::1]:8443", 443).unwrap();
    assert_eq!(config.endpoint, "https://[fd00::1]:8443");
    assert_eq!(config.tls_domain.as_deref(), Some("fd00::1"));
    let config = build_endpoint_config("[fe80::]", 50051).unwrap();
    assert_eq!(config.endpoint, "http://[fe80::]:50051");
    assert_eq!(config.tls_domain, None);
    let config = build_endpoint_config("https://[fd00::1]", 443).unwrap();
    assert_eq!(config.endpoint, "https://[fd00::1]:443");
    let config = build_endpoint_config("[a]b]:8", 50051).unwrap();
    assert_eq!(config.endpoint, "http://[a]b]:8");
    let config = build_endpoint_config("[a]b]8", 50051).unwrap();
    assert_eq!(config.endpoint, "http://[a]b]8:50051");
}

#[test]
fn bad_hosts_are_told() {
    assert_eq!(
        build_endpoint_config("  ", 1).unwrap_err(),
        "client.toml 中的 server_host 不能为空。"
    );
    assert_eq!(
        extract_tls_domain(&chars("[::1")).unwrap_err(),
        "client.toml 中的 server_host IPv6 地址格式无效。"
    );
    assert_eq!(extract_tls_domain(&chars("a.b:1")).unwrap(), "a.b");
    assert!(validate_server_host("https://[::1").is_ok());
    assert_eq!(
        build_endpoint_config("https://[::1", 443).unwrap_err(),
        "client.toml 中的 server_host IPv6 地址格式无效。"
    );
    assert_eq!(build_endpoint_config("[::1", 1).unwrap().endpoint, "http://[::1:1");
}

#[test]
fn seeds_mix_all_bytes() {
    assert_eq!(stable_token_seed(""), 0xcbf29ce484222325);
    assert_eq!(stable_token_seed("a"), 0xaf63dc4c8601ec8c);
    assert_eq!(stable_token_seed("foobar"), 0x85944171f73967e8);
}

#[test]
fn jitter_is_exact() {
    // 1000 ms, a fifth is 200: 800 + 7 % 401.
    assert_eq!(jitter_duration(NANOS_PER_SEC, 7, 0), 807_000_000);
    assert_eq!(jitter_duration(999_999, 7, 0), 0);
    // 4 ms have no fifth.
    assert_eq!(jitter_duration(4_000_000, 7, 3), 4_000_000);
    let mixed = 7u64 ^ 0x9e37_79b9_7f4a_7c15;
    assert_eq!(
        jitter_duration(NANOS_PER_SEC, 7, 1),
        (800 + (mixed % 401)) as u128 * 1_000_000
    );
}

#[test]
fn a_connection_goes_through_its_stages() {
    let (mut link, first) = match Link::start(&options("relay.example.com")) {
        Ok(started) => started,
        Err(e) => panic!("{e:?}"),
    };
    assert!(matches!(first, ClientEvent::ConnectingTarget { message }
        if message == "正在连接 http://relay.example.com:50051 ..."));
    let out = link.step(LinkInput::Prepared);
    assert!(matches!(&out.events[..], [ClientEvent::ConnectingStatus { message }]
        if message == "正在建立到 http://relay.example.com:50051 的网络连接..."));
    assert!(link.step(LinkInput::Connected).events.is_empty());
    assert!(!link.step(LinkInput::Subscribed).stop);
    let ping = ServerEvent { event: Some(Event::Ping), grpc_session_token: "x".to_string() };
    assert!(link.step(LinkInput::Message(ping)).events.is_empty());
    assert_eq!(link.stage, Stage::AwaitingFirst);
    let out = link.step(LinkInput::Message(session_event("grpc")));
    assert_eq!(out.heartbeat.as_deref(), Some("grpc"));
    assert!(matches!(&out.events[..], [
        ClientEvent::GrpcSessionToken { token },
        ClientEvent::SessionToken { .. },
    ] if token == "grpc"));
    let out = link.step(LinkInput::Message(session_event("grpc")));
    assert_eq!(out.heartbeat, None);
    assert_eq!(out.events.len(), 1);
    let out = link.step(LinkInput::StreamClosed);
    assert!(out.stop && out.events.is_empty());
    assert!(link.step(LinkInput::StreamClosed).events.is_empty());
    assert_eq!(link.stage, Stage::Ended);
}

fn at(stage: Stage) -> Link {
    let mut link = match Link::start(&options("relay")) {
        Ok((link, _)) => link,
        Err(e) => panic!("{e:?}"),
    };
    link.stage = stage;
    link
}

fn only_message(events: &[ClientEvent]) -> String {
    match events {
        [ClientEvent::ConnectingStatus { message }] => message.clone(),
        [ClientEvent::Error { message }] => format!("error: {message}"),
        other => panic!("{other:?}"),
    }
}

#[test]
fn every_failure_of_a_connection_is_told() {
    let why = || "why".to_string();
    for (stage, input, want) in [
        (Stage::Preparing, LinkInput::BadAddress(why()), "连接服务端失败：gRPC 地址无效：why"),
        (Stage::Preparing, LinkInput::BadTls(why()), "连接服务端失败：gRPC TLS 配置失败：why"),
        (Stage::Connecting, LinkInput::ConnectTimeout, "连接服务端失败：连接服务端超时（>10 秒）"),
        (Stage::Connecting, LinkInput::ConnectFailed(why()), "连接服务端失败：why"),
        (Stage::Subscribing, LinkInput::SubscribeTimeout, "订阅 gRPC 流超时（>10 秒）。"),
        (
            Stage::Subscribing,
            LinkInput::Unauthenticated,
            "error: gRPC 鉴权失败，请检查 client.toml 中的 grpc_auth_token",
        ),
        (Stage::Subscribing, LinkInput::SubscribeFailed(why()), "订阅 gRPC 流失败：why"),
        (
            Stage::AwaitingFirst,
            LinkInput::FirstEventTimeout,
            "等待服务端首条 gRPC 事件超时（>10 秒）。",
        ),
        (Stage::AwaitingFirst, LinkInput::StreamFailed(why()), "gRPC 数据流中断：why"),
        (Stage::Streaming, LinkInput::StreamFailed(why()), "gRPC 数据流中断：why"),
    ] {
        let mut link = at(stage);
        let out = link.step(input);
        assert_eq!(only_message(&out.events), want);
        assert!(out.stop);
        assert_eq!(link.stage, Stage::Ended);
    }
    match Link::start(&options("")) {
        Err(ClientEvent::Error { message }) => {
            assert_eq!(message, "client.toml 中的 server_host 不能为空。")
        }
        other => panic!("{:?}", other.is_ok()),
    }
}

#[test]
fn events_are_passed_on_but_pings() {
    assert!(map_server_event(Event::Ping).is_none());
    assert!(matches!(
        map_server_event(Event::MobileDisconnected),
        Some(ClientEvent::MobileDisconnected)
    ));
    assert!(matches!(
        map_server_event(Event::ClipboardText { content: "x".to_string() }),
        Some(ClientEvent::ClipboardText { content }) if content == "x"
    ));
}

#[test]
fn a_heartbeat_survives_failures_that_may_pass() {
    let mut beat = Heartbeat::new("token", 0);
    assert_eq!(beat.interval, NANOS_PER_SEC);
    assert_eq!(beat.next_sleep(1), NANOS_PER_SEC);
    for n in 1..=4 {
        assert_eq!(
            beat.on_ping(Err(HeartbeatErrorKind::Transient)),
            HeartbeatStep::Retrying,
            "{n}"
        );
    }
    assert_eq!(beat.on_ping(Err(HeartbeatErrorKind::Transient)), HeartbeatStep::Unhealthy);
    assert!(beat.next_sleep(2 * NANOS_PER_SEC) >= 800_000_000);
    assert_eq!(beat.backoff.next, 2 * NANOS_PER_SEC);
    assert_eq!(beat.on_ping(Ok(())), HeartbeatStep::Recovered);
    assert_eq!(beat.backoff.next, NANOS_PER_SEC);
    assert_eq!(beat.on_ping(Ok(())), HeartbeatStep::Fine);
    assert_eq!(beat.on_ping(Err(HeartbeatErrorKind::Unimplemented)), HeartbeatStep::Stop);
    assert_eq!(beat.on_ping(Err(HeartbeatErrorKind::Unauthenticated)), HeartbeatStep::Stop);
}
