use qr_paste::ids::{id_string, new_id, parse_id};
use qr_paste::server::pairing::{
    cleanup_old_sessions, cleanup_pairings, constant_time_dummy_compare, decode_hex_32, encode_hex,
    new_browser_session_store, new_pairing_store, new_ws_ticket_store, random_bytes_32,
    secret_regex, verify_secret, BrowserSession, CloseReason, PairingEntry, WsTicket,
};
use qr_paste::server::session::{new_store, Session};

const SECOND: i128 = 1_000_000_000;
const NOW: i128 = 1_000_000 * SECOND;

fn session(token: &str) -> Session {
    Session {
        token: token.to_string(),
        created_at: NOW - 600 * SECOND,
        scanned: true,
        upgrade_reserved_at: None,
        ws_active: false,
        client_tx: None,
        mobile_control_tx: None,
        device_info: None,
        pairing_id: None,
        grpc_session_token: "grpc-token".to_string(),
        client_capabilities: 0,
    }
}

fn pairing(pairing_id: u128) -> PairingEntry {
    PairingEntry {
        pairing_id,
        pairing_secret: [1_u8; 32],
        epoch: 0,
        online: false,
        last_seen: NOW - 600 * SECOND,
        expires_at: NOW - 10 * SECOND,
        active_session_token: None,
        active_mobile_ws: None,
        revision: 0,
    }
}

#[test]
fn cleanup_old_sessions_keeps_active_websocket_sessions_past_ttl() {
    let mut store = new_store();
    store.insert("active".to_string(), Session { ws_active: true, ..session("active") });

    cleanup_old_sessions(&mut store, 300, NOW);

    assert!(store.contains_key(&"active".to_string()));
}

#[test]
fn cleanup_old_sessions_keeps_active_grpc_sessions_past_ttl() {
    let mut store = new_store();
    store.insert(
        "grpc-active".to_string(),
        Session { client_tx: Some(4), ..session("grpc-active") },
    );

    cleanup_old_sessions(&mut store, 300, NOW);

    assert!(store.contains_key(&"grpc-active".to_string()));
}

#[test]
fn cleanup_pairings_keeps_online_pairings_past_ttl() {
    let mut pairing_store = new_pairing_store();
    let mut browser_session_store = new_browser_session_store();
    let mut ws_ticket_store = new_ws_ticket_store();
    let pairing_id = new_id();
    pairing_store.insert(pairing_id, PairingEntry { online: true, ..pairing(pairing_id) });

    cleanup_pairings(&mut pairing_store, &mut browser_session_store, &mut ws_ticket_store, NOW);

    assert!(pairing_store.contains_key(&pairing_id));
}

#[test]
fn cleanup_forgets_old_sessions() {
    let mut store = new_store();
    store.insert("old".to_string(), session("old"));
    store.insert(
        "young".to_string(),
        Session { created_at: NOW - 300 * SECOND, ..session("young") },
    );
    store.insert(
        "connecting".to_string(),
        Session { upgrade_reserved_at: Some(NOW - 10 * SECOND), ..session("connecting") },
    );
    store.insert(
        "given up".to_string(),
        Session { upgrade_reserved_at: Some(NOW - 11 * SECOND), ..session("given up") },
    );
    cleanup_old_sessions(&mut store, 300, NOW);
    assert!(!store.contains_key(&"old".to_string()));
    assert!(store.contains_key(&"young".to_string()));
    assert!(store.contains_key(&"connecting".to_string()));
    assert!(!store.contains_key(&"given up".to_string()));
    let mut keys = store.keys();
    keys.sort();
    assert_eq!(keys, vec!["connecting".to_string(), "young".to_string()]);
}

#[test]
fn cleanup_leaves_no_orphans() {
    let mut pairings = new_pairing_store();
    let mut browsers = new_browser_session_store();
    let mut tickets = new_ws_ticket_store();
    pairings.insert(1, pairing(1));
    pairings.insert(2, PairingEntry { expires_at: NOW + SECOND, ..pairing(2) });
    for (n, pairing_id) in [(1u8, 1u128), (2, 2)] {
        browsers.insert(
            [n; 32],
            BrowserSession {
                session_id: [n; 32],
                pairing_id,
                pairing_epoch: 0,
                created_at: NOW,
                last_seen: NOW,
                expires_at: NOW + SECOND,
                revoked: false,
            },
        );
        tickets.insert(
            [n; 32],
            WsTicket {
                browser_session_id: [n; 32],
                pairing_id,
                pairing_epoch: 0,
                issued_at: NOW,
                expires_at: NOW + SECOND,
            },
        );
    }
    cleanup_pairings(&mut pairings, &mut browsers, &mut tickets, NOW);
    assert!(!pairings.contains_key(&1) && pairings.contains_key(&2));
    assert!(!browsers.contains_key(&[1; 32]) && browsers.contains_key(&[2; 32]));
    assert!(!tickets.contains_key(&[1; 32]) && tickets.contains_key(&[2; 32]));
}

#[test]
fn secrets_go_through_hexadecimal() {
    let secret = random_bytes_32();
    let text = encode_hex(&secret);
    assert_eq!(text.len(), 64);
    assert!(secret_regex(&text));
    assert_eq!(decode_hex_32(&text), Ok(secret));
    assert_eq!(encode_hex(&[0x0f, 0xa0]), "0fa0");
    assert!(!secret_regex(&text.to_uppercase().replace(char::is_numeric, "A")));
    assert!(!secret_regex(&text[1..]));
    assert_eq!(decode_hex_32(&text[1..]), Err(()));
    assert_ne!(random_bytes_32(), random_bytes_32());
}

#[test]
fn only_the_secret_itself_is_accepted() {
    let entry = pairing(1);
    assert!(verify_secret(&entry, &encode_hex(&[1; 32])));
    assert!(!verify_secret(&entry, &encode_hex(&[2; 32])));
    assert!(!verify_secret(&entry, "01"));
    constant_time_dummy_compare(&encode_hex(&[1; 32]));
    constant_time_dummy_compare("no secret");
}

#[test]
fn identifiers_go_through_text() {
    let id = new_id();
    assert_eq!(parse_id(&id_string(id)), Some(id));
    assert_eq!(
        id_string(0x550e8400_e29b_41d4_a716_446655440000),
        "550e8400-e29b-41d4-a716-446655440000"
    );
    assert_eq!(parse_id("no id"), None);
    assert_ne!(new_id(), new_id());
}

#[test]
fn reasons_for_closing_have_names() {
    let reasons = [
        CloseReason::Replaced,
        CloseReason::Revoked,
        CloseReason::SessionRevoked,
        CloseReason::Superseded,
        CloseReason::PingRateExceeded,
    ];
    for (i, a) in reasons.iter().enumerate() {
        for b in &reasons[i + 1..] {
            assert_ne!(a.as_str(), b.as_str());
        }
    }
}
