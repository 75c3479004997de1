use qr_paste::events::Event;
use qr_paste::ids::{new_id, parse_id};
use qr_paste::net::Ip;
use qr_paste::server::config::{ServerConfig, TrustedProxyCidrs};
use qr_paste::server::pairing::{new_pairing_store, PairingEntry};
use qr_paste::server::relay::{
    cleanup_session_on_client_disconnect, clear_mobile_ws_state, current_client_tx,
    display_client_addr, grpc_session_token, latest_session_token, mark_mobile_ws_connected,
    pairing_url_string, same_text, CallError, ClientRelayService,
};
use qr_paste::server::session::{new_store, Session};
use qr_paste::server::web::pairing_session_token_event;

const SECOND: i128 = 1_000_000_000;
const NOW: i128 = 1_000_000 * SECOND;
const TEST_PAIRING_ID: &str = "550e8400-e29b-41d4-a716-446655440000";

fn v4(a: u8, b: u8, c: u8, d: u8) -> Ip {
    Ip::V4(u32::from_be_bytes([a, b, c, d]))
}

fn test_config() -> ServerConfig {
    let mut config = ServerConfig::with_defaults(
        "https://example.com".to_string(),
        "shared-secret-xx".to_string(),
    );
    config.pairing_ttl_secs = 86_400;
    config
}

fn test_session(token: &str, pairing_id: u128, created_at: i128) -> Session {
    Session {
        token: token.to_string(),
        created_at,
        scanned: false,
        upgrade_reserved_at: None,
        ws_active: false,
        client_tx: None,
        mobile_control_tx: None,
        device_info: None,
        pairing_id: Some(pairing_id),
        grpc_session_token: format!("grpc-{token}"),
        client_capabilities: 0,
    }
}

fn key(s: &str) -> String {
    s.to_string()
}

fn pairing(pairing_id: u128, active: Option<&str>) -> PairingEntry {
    PairingEntry {
        pairing_id,
        pairing_secret: [7_u8; 32],
        epoch: 0,
        online: true,
        last_seen: NOW - 120 * SECOND,
        expires_at: NOW - 60 * SECOND,
        active_session_token: active.map(key),
        active_mobile_ws: None,
        revision: 3,
    }
}

#[test]
fn subscribe_rejects_invalid_auth_token() {
    let config = test_config();
    let mut service = ClientRelayService::new(&config).expect("test config should be valid");
    let (mut store, mut pairings) = (new_store(), new_pairing_store());
    let error = service
        .subscribe(
            &mut store,
            &mut pairings,
            &config,
            "wrong-token",
            TEST_PAIRING_ID,
            0,
            1,
            NOW,
        )
        .expect_err("invalid token should be rejected");
    assert!(error.unauthenticated());
    assert_eq!(error, CallError::InvalidAuthToken);
    assert!(store.keys().is_empty());
}

#[test]
fn subscribe_rejects_invalid_pairing_id() {
    let config = test_config();
    let mut service = ClientRelayService::new(&config).expect("test config should be valid");
    let error = service
        .subscribe(
            &mut new_store(),
            &mut new_pairing_store(),
            &config,
            "shared-secret-xx",
            "",
            0,
            1,
            NOW,
        )
        .expect_err("empty pairing_id should be rejected");
    assert!(!error.unauthenticated());
    assert_eq!(error.message(), "pairing_id must be a valid UUID");
}

#[test]
fn subscribe_creates_session_and_sends_first_event() {
    let config = test_config();
    let mut service = ClientRelayService::new(&config).expect("test config should be valid");
    let (mut store, mut pairings) = (new_store(), new_pairing_store());
    let subscribed = service
        .subscribe(
            &mut store,
            &mut pairings,
            &config,
            "shared-secret-xx",
            TEST_PAIRING_ID,
            0,
            1,
            NOW,
        )
        .expect("valid subscribe should succeed");

    assert_eq!(store.keys().len(), 1);
    match subscribed.first_event.event {
        Some(Event::SessionToken { token, url }) => {
            assert!(!token.is_empty());
            assert!(
                url.contains(&format!("/m/{TEST_PAIRING_ID}#ps=")),
                "URL should use new pairing path, got: {url}"
            );
            assert!(store.contains_key(&token));
            assert_eq!(token, subscribed.token);
        }
        other => panic!("unexpected first event: {other:?}"),
    }
    assert_eq!(subscribed.first_event.grpc_session_token, subscribed.grpc_session_token);
    assert_eq!(service.ping(&subscribed.grpc_session_token), Ok(()));
    assert_eq!(service.ping(""), Err(CallError::MissingSessionToken));
    assert_eq!(service.ping("x"), Err(CallError::InvalidSessionToken));
}

#[test]
fn dropping_grpc_stream_removes_session() {
    let config = test_config();
    let mut service = ClientRelayService::new(&config).expect("test config should be valid");
    let (mut store, mut pairings) = (new_store(), new_pairing_store());
    let subscribed = service
        .subscribe(
            &mut store,
            &mut pairings,
            &config,
            "shared-secret-xx",
            TEST_PAIRING_ID,
            0,
            1,
            NOW,
        )
        .expect("valid subscribe should succeed");
    service.drop_stream(
        &mut store,
        &mut pairings,
        config.pairing_ttl_secs,
        &subscribed.token,
        &subscribed.grpc_session_token,
        NOW,
    );
    assert!(!store.contains_key(&subscribed.token));
    assert_eq!(
        service.ping(&subscribed.grpc_session_token),
        Err(CallError::InvalidSessionToken)
    );
}

#[test]
fn cleanup_session_on_client_disconnect_notifies_mobile_peer() {
    let mut store = new_store();
    store.insert(
        key("token"),
        Session {
            ws_active: true,
            client_tx: Some(4),
            mobile_control_tx: Some(9),
            device_info: Some(key("Phone")),
            pairing_id: None,
            ..test_session("token", 0, NOW)
        },
    );
    let told = cleanup_session_on_client_disconnect(
        &mut store,
        &mut new_pairing_store(),
        300,
        "token",
        NOW,
    );
    assert!(!store.contains_key(&key("token")));
    assert_eq!(told, Some(9), "mobile peer should be notified");
}

#[test]
fn display_client_addr_uses_proxy_headers_only_for_trusted_peer() {
    let trusted = TrustedProxyCidrs::parse(&["127.0.0.1/32".to_string()])
        .expect("trusted proxies should parse");
    let forwarded = Some("198.51.100.10, 203.0.113.7");

    let trusted_display = display_client_addr(v4(127, 0, 0, 1), forwarded, None, &trusted);
    let untrusted_display = display_client_addr(v4(10, 0, 0, 5), forwarded, None, &trusted);

    assert_eq!(trusted_display, "203.0.113.7");
    assert_eq!(untrusted_display, "10.0.0.5");
    assert_eq!(display_client_addr(Ip::V6(1), None, None, &trusted), "::1");
}

#[test]
fn cleanup_session_on_client_disconnect_resets_pairing_expiry_from_disconnect_time() {
    let mut store = new_store();
    let mut pairing_store = new_pairing_store();
    let pairing_id = parse_id(TEST_PAIRING_ID).expect("pairing id should parse");
    pairing_store.insert(pairing_id, pairing(pairing_id, Some("token")));
    store.insert(key("token"), test_session("token", pairing_id, NOW));

    cleanup_session_on_client_disconnect(&mut store, &mut pairing_store, 300, "token", NOW);

    let entry = pairing_store.get(&pairing_id).expect("pairing should remain");
    assert!(!entry.online);
    assert_eq!(entry.expires_at, NOW + 300 * SECOND);
    assert_eq!(entry.active_session_token, None);
    assert!(entry.revision >= 4);
}

#[test]
fn cleanup_session_on_client_disconnect_keeps_pairing_online_when_newer_session_exists() {
    let mut store = new_store();
    let mut pairing_store = new_pairing_store();
    let pairing_id = parse_id(TEST_PAIRING_ID).expect("pairing id should parse");
    pairing_store.insert(
        pairing_id,
        PairingEntry {
            expires_at: NOW + 300 * SECOND,
            ..pairing(pairing_id, Some("older"))
        },
    );
    store.insert(
        key("older"),
        Session {
            ws_active: true,
            mobile_control_tx: Some(9),
            ..test_session("older", pairing_id, NOW - 5 * SECOND)
        },
    );
    store.insert(key("newer"), test_session("newer", pairing_id, NOW));

    let told =
        cleanup_session_on_client_disconnect(&mut store, &mut pairing_store, 300, "older", NOW);

    assert!(!store.contains_key(&key("older")));
    let newer = store.get(&key("newer")).expect("newer session should remain");
    assert!(newer.ws_active);
    assert_eq!(newer.mobile_control_tx, Some(9));
    let entry = pairing_store.get(&pairing_id).expect("pairing should remain online");
    assert!(entry.online);
    assert_eq!(entry.active_session_token.as_deref(), Some("newer"));
    assert_eq!(told, None);
}

#[test]
fn mark_mobile_ws_connected_updates_latest_session() {
    let mut store = new_store();
    let pairing_store = new_pairing_store();
    let pairing_id = new_id();
    store.insert(key("older"), test_session("older", pairing_id, NOW - 10 * SECOND));
    store.insert(key("newer"), test_session("newer", pairing_id, NOW));

    let session_token = mark_mobile_ws_connected(&mut store, &pairing_store, pairing_id, 5);

    assert_eq!(session_token.as_deref(), Some("newer"));
    assert!(!store.get(&key("older")).expect("older session should exist").ws_active);
    let newer = store.get(&key("newer")).expect("newer session should exist");
    assert!(newer.ws_active);
    assert_eq!(newer.mobile_control_tx, Some(5));
}

#[test]
fn clear_mobile_ws_state_only_clears_matching_connection() {
    let mut store = new_store();
    let pairing_id = new_id();
    let mut session = test_session("session", pairing_id, NOW);
    session.ws_active = true;
    session.mobile_control_tx = Some(1);
    store.insert(key("session"), session);

    clear_mobile_ws_state(&mut store, Some("session"), 2);

    let after_mismatch =
        store.get(&key("session")).expect("session should remain after mismatched clear");
    assert!(after_mismatch.ws_active);
    assert_eq!(after_mismatch.mobile_control_tx, Some(1));

    clear_mobile_ws_state(&mut store, Some("session"), 1);

    let cleared = store.get(&key("session")).expect("session should still exist");
    assert!(!cleared.ws_active);
    assert!(cleared.mobile_control_tx.is_none());
}

#[test]
fn grpc_session_token_resolves_session_key_from_bearer_token() {
    let mut store = new_store();
    let pairing_id = new_id();
    for name in ["a", "b"] {
        let token = format!("session-{name}");
        let mut session = test_session(&token, pairing_id, NOW);
        session.grpc_session_token = format!("grpc-{name}");
        store.insert(token, session);
    }

    assert_eq!(grpc_session_token(&store, "grpc-b").as_deref(), Some("session-b"));
    assert!(grpc_session_token(&store, "session-b").is_none());
    assert!(grpc_session_token(&store, "missing").is_none());
}

#[test]
fn pairing_session_token_event_preserves_session_token() {
    let event = pairing_session_token_event(
        "session-token".to_string(),
        "https://example.com/m/123#ps=secret".to_string(),
    );

    match event.event {
        Some(Event::SessionToken { token, url }) => {
            assert_eq!(token, "session-token");
            assert_eq!(url, "https://example.com/m/123#ps=secret");
        }
        other => panic!("unexpected event: {other:?}"),
    }
    assert!(event.grpc_session_token.is_empty());
}

#[test]
fn the_latest_session_answers_for_the_pairing() {
    let mut store = new_store();
    let mut pairings = new_pairing_store();
    store.insert(
        key("a"),
        Session { client_tx: Some(3), client_capabilities: 1, ..test_session("a", 1, NOW) },
    );
    store.insert(key("b"), test_session("b", 1, NOW - SECOND));
    assert_eq!(latest_session_token(&store, &pairings, 1).as_deref(), Some("a"));
    assert_eq!(current_client_tx(&store, &pairings, 1), Some((3, 1)));
    pairings.insert(1, pairing(1, Some("b")));
    assert_eq!(latest_session_token(&store, &pairings, 1).as_deref(), Some("b"));
    assert_eq!(current_client_tx(&store, &pairings, 1), None);
    assert_eq!(latest_session_token(&store, &pairings, 2), None);
}

#[test]
fn addresses_for_phones_hold_the_secret() {
    let id = parse_id(TEST_PAIRING_ID).unwrap();
    assert_eq!(
        pairing_url_string("https://example.com/", id, &[0xab; 32]),
        format!("https://example.com/m/{TEST_PAIRING_ID}#ps={}", "ab".repeat(32))
    );
    assert!(same_text("a", "a"));
    assert!(!same_text("a", "b"));
}

#[test]
fn a_disconnect_leaves_other_pairings_alone() {
    let mut store = new_store();
    let mut pairings = new_pairing_store();
    for (id, token) in [(1, "one"), (2, "two")] {
        pairings.insert(id, pairing(id, Some(token)));
        store.insert(key(token), test_session(token, id, NOW));
    }
    cleanup_session_on_client_disconnect(&mut store, &mut pairings, 300, "one", NOW);
    let other = pairings.get(&2).expect("the other pairing");
    assert!(other.online);
    assert_eq!(other.active_session_token.as_deref(), Some("two"));
    assert_eq!(other.revision, 3);
    assert!(store.contains_key(&key("two")));
    assert!(!pairings.get(&1).expect("the pairing").online);
}

#[test]
fn a_heartbeat_is_seen() {
    let config = test_config();
    let mut service = ClientRelayService::new(&config).expect("test config should be valid");
    let (mut store, mut pairings) = (new_store(), new_pairing_store());
    let subscribed = service
        .subscribe(
            &mut store,
            &mut pairings,
            &config,
            "shared-secret-xx",
            TEST_PAIRING_ID,
            0,
            1,
            NOW,
        )
        .expect("valid subscribe should succeed");
    let id = parse_id(TEST_PAIRING_ID).unwrap();
    let later = NOW + 30 * SECOND;
    let secret = subscribed.grpc_session_token;
    for (token, want) in [
        ("", Err(CallError::MissingSessionToken)),
        ("x", Err(CallError::InvalidSessionToken)),
    ] {
        assert_eq!(service.heartbeat(&store, &mut pairings, token, later), want);
        assert_eq!(pairings.get(&id).unwrap().last_seen, NOW);
    }
    assert_eq!(service.heartbeat(&store, &mut pairings, &secret, later), Ok(()));
    let entry = pairings.get(&id).unwrap();
    assert_eq!(entry.last_seen, later);
    assert_eq!(entry.expires_at, NOW + 86_400 * SECOND);
}
