use qr_paste::clock::Clock;
use qr_paste::common::{MobileMessage, ServerToMobileMessage};
use qr_paste::events::{Event, TransferMode};
use qr_paste::ids::{id_string, new_id, parse_id};
use qr_paste::net::UrlParts;
use qr_paste::server::config::ServerConfig;
use qr_paste::server::pairing::{
    encode_hex, new_browser_session_store, new_pairing_store, new_ws_ticket_store, BrowserSession,
    CloseReason, PairingEntry, WsControl, WsTicket,
};
use qr_paste::server::persist::{PersistTask, PersistenceStore};
use qr_paste::server::reply::{
    bearer_token, extract_device_info, origin_matches, parse_ws_protocol_ticket,
    read_browser_session_cookie, require_browser_origin, ticket_from_bytes,
    ws_ticket_text, Body, Reply, CONFLICT, FORBIDDEN, FOUND, NOT_FOUND, OK, PAYLOAD_TOO_LARGE,
    TOO_MANY_REQUESTS, UNAUTHORIZED,
};
use qr_paste::server::session::{new_store, Session};
use qr_paste::server::upload::{
    escape_file_name, resolve_late_attach_outcome, select_upload_dispatch_mode, stream_piece,
    upload_mime_type, FirstField, Intake, LateAttachOutcome, Opened, StreamAttach,
    StreamFollow, UploadDispatchMode, UploadFault, HTTP_STREAMING_CAPABILITY, MAX_ATTACH_RETRIES,
};
use qr_paste::server::upload_store::{
    new_upload_store, FileStatus, SendChunkResult, StreamItem,
};
use qr_paste::server::web::{AppState, CLOSE_REVOKED, CLOSE_SESSION};
use qr_paste::server::ws::{LinkAction, LinkEvent, PhoneLink};

const SECOND: i128 = 1_000_000_000;
const NOW: i128 = 1_000_000 * SECOND;
const AT: Clock = Clock { unix_secs: 1_700_000_000, moment: NOW };
const ORIGIN: &str = "https://example.com";
const PAIRING: u128 = 0x550e8400_e29b_41d4_a716_446655440000;

fn test_app_state() -> AppState {
    let config = ServerConfig::with_defaults(
        "https://example.com".to_string(),
        "0123456789abcdef".to_string(),
    );
    let public_origin =
        config.normalized_public_origin().expect("test public origin should normalize");
    AppState {
        store: new_store(),
        pairing_store: new_pairing_store(),
        browser_session_store: new_browser_session_store(),
        ws_ticket_store: new_ws_ticket_store(),
        config,
        public_origin,
        persist: PersistenceStore::new(true),
        upload_store: new_upload_store(52_428_800, 20, 500, 2_147_483_648),
    }
}

fn bearer(token: &[u8; 32]) -> String {
    format!("Bearer {}", encode_hex(token))
}

fn with_pc(capabilities: u32) -> AppState {
    let mut state = test_app_state();
    state.pairing_store.insert(
        PAIRING,
        PairingEntry {
            pairing_id: PAIRING,
            pairing_secret: [1; 32],
            epoch: 4,
            online: true,
            last_seen: NOW,
            expires_at: NOW + 60 * SECOND,
            active_session_token: Some("pc".to_string()),
            active_mobile_ws: None,
            revision: 0,
        },
    );
    state.store.insert(
        "pc".to_string(),
        Session {
            token: "pc".to_string(),
            created_at: NOW,
            scanned: false,
            upgrade_reserved_at: None,
            ws_active: false,
            client_tx: Some(77),
            mobile_control_tx: None,
            device_info: None,
            pairing_id: Some(PAIRING),
            grpc_session_token: "grpc-pc".to_string(),
            client_capabilities: capabilities,
        },
    );
    state
}

fn code(reply: &Reply) -> &str {
    match &reply.body {
        Body::Error { code } => code,
        other => panic!("{other:?}"),
    }
}

fn header<'a>(reply: &'a Reply, name: &str) -> Option<&'a str> {
    reply.headers.iter().find(|h| h.name == name).map(|h| h.value.as_str())
}

fn bootstrap(state: &mut AppState, secret: [u8; 32], session: [u8; 32], new: [u8; 32]) -> Reply {
    state
        .handle_bootstrap_as(
            Some(ORIGIN),
            100,
            &id_string(PAIRING),
            Some(&encode_hex(&secret)),
            session,
            new,
            AT,
        )
        .reply
}

fn cookie(session: [u8; 32]) -> String {
    format!("__Host-qr_paste_browser_session={}", encode_hex(&session))
}

fn gate(state: &AppState, cookie: &str) -> Result<(u128, [u8; 32]), Reply> {
    state.check_browser(Some(ORIGIN), 0, &id_string(PAIRING), Some(cookie), NOW)
}

fn ticket_text(reply: &Reply) -> String {
    match &reply.body {
        Body::Ticket { ws_ticket, .. } => ws_ticket.clone(),
        other => panic!("{other:?}"),
    }
}

#[test]
fn read_browser_session_cookie_prefers_host_cookie() {
    let cookies = "qr_paste_browser_session=legacy; __Host-qr_paste_browser_session=current";
    assert_eq!(read_browser_session_cookie(Some(cookies)).as_deref(), Some("current"));
}

#[test]
fn read_browser_session_cookie_falls_back_to_legacy_cookie() {
    assert_eq!(
        read_browser_session_cookie(Some("foo=bar; qr_paste_browser_session=legacy")).as_deref(),
        Some("legacy")
    );
    assert_eq!(read_browser_session_cookie(None), None);
}

#[test]
fn upload_dispatch_mode_prefers_http_streaming_when_capability_present() {
    assert_eq!(
        select_upload_dispatch_mode(Some(HTTP_STREAMING_CAPABILITY)),
        UploadDispatchMode::HttpStreaming
    );
    assert_eq!(
        select_upload_dispatch_mode(Some(HTTP_STREAMING_CAPABILITY | 0x10)),
        UploadDispatchMode::HttpStreaming
    );
}

#[test]
fn upload_dispatch_mode_falls_back_for_legacy_and_offline_clients() {
    assert_eq!(select_upload_dispatch_mode(Some(0)), UploadDispatchMode::Streaming);
    assert_eq!(select_upload_dispatch_mode(None), UploadDispatchMode::Relay);
}

#[test]
fn late_attach_outcome_redirects_only_for_finalized_statuses() {
    assert_eq!(
        resolve_late_attach_outcome(Some(FileStatus::StoredUnnotified)),
        LateAttachOutcome::RedirectToDownload
    );
    assert_eq!(
        resolve_late_attach_outcome(Some(FileStatus::Notified)),
        LateAttachOutcome::RedirectToDownload
    );
}

#[test]
fn late_attach_outcome_returns_not_found_for_non_finalized_statuses() {
    assert_eq!(
        resolve_late_attach_outcome(Some(FileStatus::Uploading)),
        LateAttachOutcome::NotFound
    );
    assert_eq!(
        resolve_late_attach_outcome(Some(FileStatus::Notifying)),
        LateAttachOutcome::NotFound
    );
    assert_eq!(
        resolve_late_attach_outcome(Some(FileStatus::Acked)),
        LateAttachOutcome::NotFound
    );
    assert_eq!(resolve_late_attach_outcome(None), LateAttachOutcome::NotFound);
}

#[test]
fn stream_download_late_attach_redirects_to_normal_download() {
    let mut state = test_app_state();
    let (file_id, token, _file_name) = state
        .upload_store
        .begin_upload(new_id(), "report.txt", "text/plain".to_string(), NOW)
        .expect("upload reservation should succeed");
    let sha256 = [0xAB; 32];
    state.upload_store.mark_streaming_done(file_id, "/up/x".to_string(), 123, sha256);

    let (id, _meta) = state
        .check_file_access(&id_string(file_id), Some(&bearer(&token)))
        .expect("the bearer should be let in");
    for _ in 0..MAX_ATTACH_RETRIES {
        assert!(matches!(state.handle_stream_download(id), StreamAttach::Again));
    }
    let response = state.late_attach_reply(id);

    assert_eq!(response.status, FOUND);
    assert_eq!(
        header(&response, "location"),
        Some(format!("{}/api/files/{}", state.config.public_base_url, id_string(file_id)).as_str())
    );
    assert_eq!(header(&response, "x-file-sha256"), Some(encode_hex(&sha256).as_str()));
}

#[test]
fn stream_download_rejects_second_attach_with_conflict() {
    let mut state = test_app_state();
    let (file_id, token, _file_name) = state
        .upload_store
        .begin_upload(new_id(), "report.txt", "text/plain".to_string(), NOW)
        .expect("upload reservation should succeed");
    state.upload_store.create_streaming_state(file_id, 5);
    let _first_receiver =
        state.upload_store.attach_stream(file_id).expect("first attach should succeed");

    let (id, _meta) = state
        .check_file_access(&id_string(file_id), Some(&bearer(&token)))
        .expect("the bearer should be let in");
    match state.handle_stream_download(id) {
        StreamAttach::Refused(response) => assert_eq!(response.status, CONFLICT),
        other => panic!("{other:?}"),
    }
}

#[test]
fn a_phone_gets_in_with_the_secret_and_only_once() {
    let mut state = with_pc(0);
    let reply = bootstrap(&mut state, [1; 32], [2; 32], [3; 32]);
    assert_eq!(reply.status, OK);
    assert!(matches!(reply.body, Body::Bootstrapped { online: true, pairing_epoch: 4 }));
    assert_eq!(
        header(&reply, "set-cookie"),
        Some(
            format!(
                "{}; HttpOnly; Secure; SameSite=Strict; Path=/; Max-Age=2592000",
                cookie([2; 32])
            )
            .as_str()
        )
    );
    let again = bootstrap(&mut state, [1; 32], [4; 32], [5; 32]);
    assert_eq!(again.status, NOT_FOUND);
    assert_eq!(code(&again), "pairing_not_found_or_invalid");
    assert_eq!(gate(&state, &cookie([2; 32])).expect("let in"), (PAIRING, [2; 32]));
    let tasks = state.persist.take();
    assert!(tasks.iter().any(|task| matches!(task, PersistTask::SavePairing { pairing_secret, .. }
        if *pairing_secret == [3; 32])));
    // Another phone takes over.
    assert_eq!(bootstrap(&mut state, [3; 32], [6; 32], [7; 32]).status, OK);
    let refused = gate(&state, &cookie([2; 32])).expect_err("the first phone is out");
    assert_eq!(refused.status, UNAUTHORIZED);
    assert_eq!(code(&refused), "reauth_required");
}

#[test]
fn every_refusal_of_a_phone_has_its_code() {
    let mut state = with_pc(0);
    let id = id_string(PAIRING);
    let secret = encode_hex(&[1; 32]);
    for (origin, len, pairing, given, status, want) in [
        (Some("https://evil.example"), 1, id.as_str(), Some(secret.as_str()), 403, "forbidden"),
        (None, 1, id.as_str(), Some(secret.as_str()), 403, "forbidden"),
        (Some(ORIGIN), 1025, id.as_str(), Some(secret.as_str()), 413, "payload_too_large"),
        (Some(ORIGIN), 1, "x", Some(secret.as_str()), 400, "invalid_pairing_id"),
        (Some(ORIGIN), 1, id.as_str(), None, 400, "invalid_format"),
        (Some(ORIGIN), 1, id.as_str(), Some("zz"), 400, "invalid_format"),
    ] {
        let out = state
            .handle_bootstrap_as(origin, len, pairing, given, [2; 32], [3; 32], AT);
        assert_eq!(out.reply.status, status);
        assert_eq!(code(&out.reply), want);
        assert!(out.close.is_none() && out.notice.is_none());
    }
    assert_eq!(bootstrap(&mut state, [1; 32], [2; 32], [3; 32]).status, OK);
    let big = state
        .check_browser(Some(ORIGIN), 257, &id, Some(&cookie([2; 32])), NOW)
        .unwrap_err();
    assert_eq!(big.status, PAYLOAD_TOO_LARGE);
    let foreign = state.check_browser(Some("null"), 0, &id, None, NOW).unwrap_err();
    assert_eq!(foreign.status, FORBIDDEN);
}

#[test]
fn random_parts_make_every_entry_different() {
    let mut state = with_pc(0);
    let out = state.handle_bootstrap(
        Some(ORIGIN),
        1,
        &id_string(PAIRING),
        Some(&encode_hex(&[1; 32])),
        AT,
    );
    assert_eq!(out.reply.status, OK);
    let entry = state.pairing_store.get(&PAIRING).expect("the pairing");
    assert_ne!(entry.pairing_secret, [1; 32]);
    let notice = out.notice.expect("the PC is told");
    assert_eq!(notice.client_tx, 77);
    match notice.event.event {
        Some(Event::SessionToken { token, url }) => {
            assert_eq!(token, "pc");
            assert!(url.ends_with(&encode_hex(&entry.pairing_secret)));
        }
        other => panic!("{other:?}"),
    }
}

#[test]
fn a_ticket_opens_one_connection() {
    let mut state = with_pc(0);
    bootstrap(&mut state, [1; 32], [2; 32], [3; 32]);
    let reply = state.handle_ws_ticket_as(PAIRING, [2; 32], false, [9; 32], NOW);
    let ticket = ticket_text(&reply);
    let protocol = format!("qr-paste.v1, ticket.{ticket}");
    assert_eq!(parse_ws_protocol_ticket(&protocol), Ok([9; 32]));
    let id = id_string(PAIRING);
    let admitted = state
        .handle_ws_upgrade(&id, Some(Some(&protocol)), Some(ORIGIN), NOW)
        .expect("the ticket should admit");
    assert_eq!(admitted, (PAIRING, [2; 32]));
    let again =
        state.handle_ws_upgrade(&id, Some(Some(&protocol)), Some(ORIGIN), NOW).unwrap_err();
    assert_eq!(again.status, UNAUTHORIZED);

    let limited = state.handle_ws_ticket_as(PAIRING, [2; 32], true, [9; 32], NOW);
    assert_eq!(limited.status, TOO_MANY_REQUESTS);
    let other = ticket_text(&state.handle_ws_ticket(PAIRING, [2; 32], false, NOW));
    assert_ne!(other, ticket);
    let late = state
        .handle_ws_upgrade(
            &id,
            Some(Some(&format!("ticket.{other}, qr-paste.v1"))),
            Some(ORIGIN),
            NOW + 15 * SECOND,
        )
        .unwrap_err();
    assert_eq!(late.status, UNAUTHORIZED);
    let bad = state.handle_ws_upgrade(&id, Some(Some("qr-paste.v1")), Some(ORIGIN), NOW);
    assert_eq!(bad.unwrap_err().status, 400);
    let none = state.handle_ws_upgrade(&id, None, Some(ORIGIN), NOW).unwrap_err();
    assert_eq!(code(&none), "missing_ws_protocol_or_invalid_pairing_id");
}

#[test]
fn revoking_ends_every_session() {
    let mut state = with_pc(0);
    bootstrap(&mut state, [1; 32], [2; 32], [3; 32]);
    let (id, token) =
        AppState::check_revoke(0, &id_string(PAIRING), Some("Bearer grpc-pc")).expect("checked");
    let refused = state.handle_revoke_as(id, "other", false, [8; 32], AT);
    assert_ne!(refused.reply.status, OK);
    let out = state.handle_revoke_as(id, &token, false, [8; 32], AT);
    assert!(matches!(out.reply.body, Body::Revoked { pairing_epoch: 5 }));
    assert_eq!(gate(&state, &cookie([2; 32])).unwrap_err().status, UNAUTHORIZED);
    assert_eq!(state.pairing_store.get(&PAIRING).unwrap().pairing_secret, [8; 32]);
    assert!(AppState::check_revoke(0, "x", Some("Bearer t")).is_err());
    assert!(AppState::check_revoke(0, &id_string(PAIRING), None).is_err());
}

fn open(state: &mut AppState, connection: u128, channel: u64) -> PhoneLink {
    PhoneLink::open(
        state,
        PAIRING,
        [2; 32],
        connection,
        channel,
        channel + 1,
        Some("Phone".to_string()),
    )
    .expect("the pairing is there")
    .0
}

#[test]
fn a_phone_sends_text_to_the_pc() {
    let mut state = with_pc(0);
    bootstrap(&mut state, [1; 32], [2; 32], [3; 32]);
    let mut link = open(&mut state, 1, 10);
    let text = |content: &str| LinkEvent::Text {
        len: content.len(),
        message: Some(MobileMessage::ClipboardText { content: content.to_string() }),
    };
    match link.step(&state, text("hi"), NOW) {
        LinkAction::Forward(notice) => {
            assert_eq!(notice.client_tx, 77);
            assert!(matches!(notice.event.event, Some(Event::ClipboardText { content })
                if content == "hi"));
        }
        other => panic!("{other:?}"),
    }
    let ping = || LinkEvent::Text { len: 4, message: Some(MobileMessage::Ping) };
    assert!(matches!(link.step(&state, ping(), NOW), LinkAction::AskLimiter));
    assert!(matches!(link.on_ping(true), LinkAction::Send(ServerToMobileMessage::Pong)));
    assert!(matches!(link.step(&state, LinkEvent::Idle, NOW), LinkAction::Stop));
    let told = link.finish(&mut state).expect("the PC is told");
    assert!(matches!(told.event.event, Some(Event::MobileDisconnected)));
}

#[test]
fn a_second_phone_replaces_the_first() {
    let mut state = with_pc(0);
    bootstrap(&mut state, [1; 32], [2; 32], [3; 32]);
    let first = open(&mut state, 1, 10);
    let (second, close, notice) =
        PhoneLink::open(&mut state, PAIRING, [2; 32], 2, 20, 21, None).expect("open");
    let close = close.expect("the first is told to close");
    assert_eq!(close.control_tx, 10);
    assert!(matches!(
        close.control,
        WsControl::Close { reason: CloseReason::Replaced, .. }
    ));
    assert!(matches!(
        notice.expect("the PC is told").event.event,
        Some(Event::MobileConnected { .. })
    ));
    first.finish(&mut state);
    let entry = state.pairing_store.get(&PAIRING).unwrap();
    assert_eq!(entry.active_mobile_ws.expect("the second stays").connection_id, 2);
    assert_eq!(state.validate_pairing_ws(PAIRING, [2; 32], second.connection_id, NOW), None);
}

#[test]
fn a_revoked_phone_is_closed() {
    let mut state = with_pc(0);
    bootstrap(&mut state, [1; 32], [2; 32], [3; 32]);
    let link = open(&mut state, 1, 10);
    let out = state.handle_revoke(PAIRING, "grpc-pc", false, AT);
    assert!(matches!(
        out.close.expect("the phone is told").control,
        WsControl::Close { code: CLOSE_REVOKED, reason: CloseReason::Revoked }
    ));
    assert!(state.validate_pairing_ws(PAIRING, [2; 32], link.connection_id, NOW).is_some());
    assert_eq!(
        state.validate_pairing_ws(PAIRING, [2; 32], link.connection_id, NOW + 3_000_000 * SECOND),
        Some(CLOSE_SESSION)
    );
}

#[test]
fn uploads_follow_the_clients_abilities() {
    let file =
        || FirstField::File { raw_filename: "dir/photo.PNG", content_type: None };
    let mut state = with_pc(HTTP_STREAMING_CAPABILITY);
    let job = state.handle_upload(PAIRING, file(), NOW).expect("taken");
    assert_eq!(job.mode, UploadDispatchMode::HttpStreaming);
    assert_eq!(job.mime_type, "image/png");
    assert_eq!(job.file_name, "photo.PNG");
    match state.begin_streaming(&job, PAIRING, 3).expect("announced") {
        Event::FileReceived(f) => {
            assert_eq!(f.transfer_mode, TransferMode::HttpStreaming);
            assert_eq!(f.file_access_token, job.file_access_token.to_vec());
        }
        other => panic!("{other:?}"),
    }
    match state.handle_stream_download(job.file_id) {
        StreamAttach::Attached(reply) => {
            assert!(matches!(reply.body, Body::Stream { channel: 3 }))
        }
        other => panic!("{other:?}"),
    }
    let (reply, _) = state.finish_streaming(&job, false, "/up/x".to_string(), 3, [0xCD; 32]);
    assert!(matches!(reply.body, Body::Uploaded { size_bytes: 3, .. }));
    assert!(state.handle_upload(PAIRING, FirstField::Missing, NOW).is_err());
    assert!(state.handle_upload(PAIRING, FirstField::Unreadable, NOW).is_err());
}

#[test]
fn an_upload_to_an_offline_pc_waits_for_it() {
    let mut state = test_app_state();
    let field = FirstField::File { raw_filename: "a b.txt", content_type: Some("text/plain") };
    let job = state.handle_upload(PAIRING, field, NOW).expect("taken");
    assert_eq!(job.mode, UploadDispatchMode::Relay);
    let (saved, _) = state.upload_store.save_file_from_field(
        job.file_id,
        PAIRING,
        Ok((3, "d".repeat(64))),
        Ok(()),
        "/up/x".to_string(),
    );
    let (reply, notice) = state.handle_upload_relay(&job, PAIRING, saved);
    assert!(matches!(reply.body, Body::Uploaded { size_bytes: 3, .. }));
    assert_eq!(reply.status, OK);
    assert!(notice.is_none());
    let meta = state.upload_store.get_file_meta(job.file_id).expect("the file waits");
    assert_eq!(meta.status, FileStatus::StoredUnnotified);
    assert_eq!(meta.file_path, "/up/x");

    assert!(state.pending_notices(PAIRING + 1, 5).is_empty());
    let mut told = state.pending_notices(PAIRING, 5);
    assert_eq!(told.len(), 1);
    let (id, notice) = told.pop().unwrap();
    assert_eq!((id, notice.client_tx), (job.file_id, 5));
    match notice.event.event {
        Some(Event::FileReceived(f)) => {
            assert_eq!(f.file_name, "a b.txt");
            assert_eq!(f.sha256, "d".repeat(64));
            assert_eq!(f.file_access_token, job.file_access_token.to_vec());
            assert_eq!(f.transfer_mode, TransferMode::Relay);
        }
        other => panic!("{other:?}"),
    }
    assert!(state.pending_notices(PAIRING, 5).is_empty());
    assert_eq!(state.relay_notified(id, true), None);
    assert_eq!(
        state.upload_store.get_file_meta(job.file_id).unwrap().status,
        FileStatus::Notified
    );
}

#[test]
fn a_file_that_could_not_be_announced_is_dropped() {
    let mut state = test_app_state();
    let field = FirstField::File { raw_filename: "a.txt", content_type: None };
    let job = state.handle_upload(PAIRING, field, NOW).expect("taken");
    state.upload_store.save_file_from_field(
        job.file_id,
        PAIRING,
        Ok((3, "d".repeat(64))),
        Ok(()),
        "/up/x".to_string(),
    );
    assert_eq!(state.pending_notices(PAIRING, 5).len(), 1);
    assert_eq!(state.relay_notified(job.file_id, false).as_deref(), Some("/up/x"));
    assert!(state.upload_store.get_file_meta(job.file_id).is_none());
}

#[test]
fn a_stored_file_is_fetched_and_acknowledged() {
    let mut state = with_pc(0);
    let field = FirstField::File { raw_filename: "a b.txt", content_type: Some("text/plain") };
    let job = state.handle_upload(PAIRING, field, NOW).expect("taken");
    let mut intake = Intake::new(5);
    assert_eq!(intake.take(b"abc"), Ok(()));
    assert_eq!(intake.take(b"abc"), Err(UploadFault::TooLarge));
    let (saved, _) = state.upload_store.save_file_from_field(
        job.file_id,
        PAIRING,
        Ok((3, "d".repeat(64))),
        Ok(()),
        "/up/x".to_string(),
    );
    let (reply, notice) = state.handle_upload_relay(&job, PAIRING, saved);
    assert_eq!(reply.status, OK);
    assert!(matches!(notice.expect("the PC is told").event.event, Some(Event::FileReceived(f))
        if f.transfer_mode == TransferMode::Relay && f.size_bytes == 3));
    assert_eq!(state.relay_notified(job.file_id, true), None);
    let id = id_string(job.file_id);
    assert!(state.check_file_access(&id, Some(&bearer(&[0; 32]))).is_err());
    let (_, meta) =
        state.check_file_access(&id, Some(&bearer(&job.file_access_token))).expect("let in");
    let download = AppState::handle_file_download(&meta, Opened::Open);
    assert!(matches!(download.body, Body::File { ref path } if path == "/up/x"));
    let gone = AppState::handle_file_download(&meta, Opened::Missing);
    assert_eq!(gone.status, NOT_FOUND);
    let (bad, path) = state.handle_file_ack(2, &id, Some(&bearer(&job.file_access_token)), None);
    assert_eq!((bad.status, code(&bad), path), (400, "invalid_format", None));
    let (ack, path) =
        state.handle_file_ack(2, &id, Some(&bearer(&job.file_access_token)), Some(true));
    assert_eq!(ack.status, OK);
    assert_eq!(path.as_deref(), Some("/up/x"));
    for success in [Some(true), Some(false), None] {
        let (again, path) =
            state.handle_file_ack(2, &id, Some(&bearer(&job.file_access_token)), success);
        assert_eq!((again.status, path), (OK, None));
    }
    assert!(state.check_file_access(&id, Some(&bearer(&job.file_access_token))).is_err());
}

#[test]
fn an_upload_that_outruns_the_pc_goes_on() {
    let mut intake = Intake::new(10);
    assert!(intake.follows());
    assert_eq!(intake.sent(SendChunkResult::Sent), None);
    assert_eq!(intake.sent(SendChunkResult::Timeout), Some("backpressure_timeout"));
    assert!(!intake.follows());
    assert_eq!(intake.take(b"abc"), Ok(()));
    let (total, digest) = intake.digest_hex();
    assert_eq!(total, 3);
    assert_eq!(digest, "ba7816bf8f01cfea414140de5dae2223b00361a396177a9cb410ff61f20015ad");
}

#[test]
fn streams_end_with_the_digest() {
    assert_eq!(stream_piece(Some(StreamItem::Data(vec![1]))), (Some(vec![1]), true));
    assert_eq!(
        stream_piece(Some(StreamItem::End { sha256: [7; 32] })),
        (Some(vec![7; 32]), false)
    );
    assert_eq!(
        stream_piece(Some(StreamItem::Abort { reason: "x".to_string() })),
        (None, false)
    );
    assert_eq!(stream_piece(None), (None, false));
}

#[test]
fn headers_are_read() {
    assert_eq!(bearer_token(Some("Bearer x")).as_deref(), Some("x"));
    assert_eq!(bearer_token(Some("Basic x")), None);
    assert_eq!(extract_device_info(Some("  ")), None);
    assert_eq!(extract_device_info(Some("Phone")).as_deref(), Some("Phone"));
    assert!(require_browser_origin(Some("https://EXAMPLE.com:443"), ORIGIN).is_ok());
    assert_eq!(require_browser_origin(None, ORIGIN), Err(FORBIDDEN));
    assert_eq!(upload_mime_type(None, "x.json"), "application/json");
    assert_eq!(upload_mime_type(Some("a/b"), "x.json"), "a/b");
    assert_eq!(escape_file_name("a b\u{e9}"), "a%20b%C3%A9");
    assert_eq!(parse_id("x"), None);
}

#[test]
fn pages_and_limits() {
    let state = with_pc(0);
    let page = state.handle_mobile_page_as(&id_string(PAIRING), [5; 32]);
    match &page.body {
        Body::Page { pairing_id, nonce } => {
            assert_eq!(pairing_id, &id_string(PAIRING));
            assert!(!nonce.is_empty());
        }
        other => panic!("{other:?}"),
    }
    assert!(header(&page, "content-security-policy").is_some());
    assert_eq!(state.handle_mobile_page(&id_string(PAIRING)).status, OK);
    assert_ne!(AppState::handle_deprecated_pairing_get().status, OK);
    assert_ne!(AppState::too_many_connections().status, OK);
    let mut state = with_pc(0);
    bootstrap(&mut state, [1; 32], [2; 32], [3; 32]);
    assert!(matches!(
        state.handle_status(PAIRING, [2; 32], false, NOW).body,
        Body::Status { online: true, pairing_epoch: 4, .. }
    ));
    assert_eq!(
        state.handle_status(PAIRING, [2; 32], true, NOW).status,
        TOO_MANY_REQUESTS
    );
}

#[test]
fn media_types_must_fit_into_a_header() {
    let mut state = with_pc(0);
    for (media, status) in [("text/plain", 200), ("text/\nplain", 500), ("text/\u{7f}", 500)] {
        let field = FirstField::File { raw_filename: "a.txt", content_type: Some(media) };
        let job = state.handle_upload(PAIRING, field, NOW).expect("taken");
        let id = id_string(job.file_id);
        let (_, meta) = state
            .check_file_access(&id, Some(&bearer(&job.file_access_token)))
            .expect("let in");
        assert_eq!(AppState::handle_file_download(&meta, Opened::Open).status, status, "{media:?}");
    }
}

#[test]
fn a_file_that_failed_on_the_pc_is_dropped_too() {
    let mut state = with_pc(0);
    let field = FirstField::File { raw_filename: "a.txt", content_type: None };
    let job = state.handle_upload(PAIRING, field, NOW).expect("taken");
    let id = id_string(job.file_id);
    let (ack, path) =
        state.handle_file_ack(2, &id, Some(&bearer(&job.file_access_token)), Some(false));
    assert!(matches!(ack.body, Body::Done));
    assert!(path.is_some());
    assert!(state.upload_store.get_file_meta(job.file_id).is_none());
}

#[test]
fn both_names_of_the_subprotocol_are_taken() {
    let ticket = format!("ticket.{}", "A".repeat(43));
    for name in ["v1", "qr-paste.v1"] {
        assert_eq!(parse_ws_protocol_ticket(&format!("{name}, {ticket}")), Ok([0; 32]));
        assert_eq!(parse_ws_protocol_ticket(&format!("{ticket},{name}")), Ok([0; 32]));
    }
    for bad in ["v2, ", "", "v1, v1, ", "qr-paste.v1, v1, "] {
        assert_eq!(parse_ws_protocol_ticket(&format!("{bad}{ticket}")), Err(400));
    }
    assert_eq!(parse_ws_protocol_ticket("v1, ticket."), Err(400));
    assert_eq!(parse_ws_protocol_ticket("v1, qr-paste.v1"), Err(400));
    assert_eq!(ws_ticket_text("v1, ticket.ticket.abc").as_deref(), Some("abc"));
    assert_eq!(ticket_from_bytes(Some(vec![7; 32])), Ok([7; 32]));
    assert_eq!(ticket_from_bytes(Some(vec![7; 31])), Err(400));
    assert_eq!(ticket_from_bytes(None), Err(400));
}

#[test]
fn a_full_server_says_so() {
    let mut state = with_pc(0);
    bootstrap(&mut state, [1; 32], [2; 32], [3; 32]);
    state.config.max_ws_connections = 2;
    let id = id_string(PAIRING);
    for (open, status) in [(1, 200), (2, 503)] {
        let reply = state.handle_ws_ticket_as(PAIRING, [2; 32], false, [9; 32], NOW);
        let protocol = format!("v1, ticket.{}", ticket_text(&reply));
        let admitted = state.admit_connection(
            &id,
            Some(Some(&protocol)),
            Some(ORIGIN),
            NOW,
            open,
        );
        match admitted {
            Ok(admitted) => assert_eq!((admitted, status), ((PAIRING, [2; 32]), 200)),
            Err(refused) => assert_eq!(refused.status, status),
        }
        let again =
            state.admit_connection(&id, Some(Some(&protocol)), Some(ORIGIN), NOW, 0).unwrap_err();
        assert_eq!((again.status, code(&again)), (UNAUTHORIZED, "unauthorized"));
    }
}

#[test]
fn a_stream_is_asked_for_ten_times() {
    let mut state = test_app_state();
    let (id, _, _) = state
        .upload_store
        .begin_upload(PAIRING, "a.txt", "text/plain".to_string(), NOW)
        .expect("taken");
    for tries in 0..10 {
        assert!(matches!(
            state.follow_stream(id, tries),
            StreamFollow::Again { after_ms: 50 }
        ));
    }
    match state.follow_stream(id, 10) {
        StreamFollow::Answer(late) => assert_eq!(late.status, NOT_FOUND),
        other => panic!("{other:?}"),
    }
    state.upload_store.create_streaming_state(id, 8);
    match state.follow_stream(id, 9) {
        StreamFollow::Answer(reply) => assert!(matches!(reply.body, Body::Stream { channel: 8 })),
        other => panic!("{other:?}"),
    }
    match state.follow_stream(id, 0) {
        StreamFollow::Answer(reply) => assert_eq!(reply.status, CONFLICT),
        other => panic!("{other:?}"),
    }
}

#[test]
fn origins_are_compared_by_their_parts() {
    let parts = |scheme: &str, host: Option<&str>, port: Option<u16>| UrlParts {
        scheme: scheme.to_string(),
        username: String::new(),
        password: None,
        host_str: host.map(str::to_string),
        port,
        path: "/".to_string(),
        query: None,
        fragment: None,
    };
    assert!(origin_matches(&parts("https", Some("Example.com"), None), ORIGIN));
    assert!(origin_matches(&parts("https", Some("example.com"), Some(443)), ORIGIN));
    assert!(!origin_matches(&parts("https", Some("example.com"), Some(444)), ORIGIN));
    assert!(!origin_matches(&parts("https", None, None), ORIGIN));
}

/// A stored file of the pairing that its PC was not told of.
fn stored_file(state: &mut AppState, pairing_id: u128, path: &str) -> u128 {
    let (id, _, _) = state
        .upload_store
        .begin_upload(pairing_id, "a.txt", "text/plain".to_string(), NOW)
        .expect("taken");
    let written = Ok((3, "d".repeat(64)));
    state.upload_store.save_file_from_field(id, pairing_id, written, Ok(()), path.to_string());
    id
}

#[test]
fn a_cleanup_forgets_lapsed_pairings_with_all_that_is_theirs() {
    let mut state = with_pc(0);
    state.pairing_store.insert(
        7,
        PairingEntry {
            pairing_id: 7,
            pairing_secret: [7; 32],
            epoch: 0,
            online: false,
            last_seen: NOW - 600 * SECOND,
            expires_at: NOW,
            active_session_token: None,
            active_mobile_ws: None,
            revision: 0,
        },
    );
    for (n, pairing_id) in [(1u8, 7u128), (2, PAIRING)] {
        state.browser_session_store.insert(
            [n; 32],
            BrowserSession {
                session_id: [n; 32],
                pairing_id,
                pairing_epoch: 0,
                created_at: NOW,
                last_seen: NOW,
                expires_at: NOW + SECOND,
                revoked: false,
            },
        );
        state.ws_ticket_store.insert(
            [n; 32],
            WsTicket {
                browser_session_id: [n; 32],
                pairing_id,
                pairing_epoch: 0,
                issued_at: NOW,
                expires_at: NOW + SECOND,
            },
        );
    }
    let gone = stored_file(&mut state, 7, "/up/gone");
    let kept = stored_file(&mut state, PAIRING, "/up/kept");
    state.persist.take();

    assert_eq!(state.cleanup(AT), vec!["/up/gone".to_string()]);

    assert!(state.store.contains_key(&"pc".to_string()));
    assert_eq!(state.pairing_store.keys(), vec![PAIRING]);
    assert_eq!(state.browser_session_store.keys(), vec![[2; 32]]);
    assert_eq!(state.ws_ticket_store.keys(), vec![[2; 32]]);
    assert!(state.upload_store.get_file_meta(gone).is_none());
    assert!(state.upload_store.get_file_meta(kept).is_some());
    let again = |state: &mut AppState, pairing_id| {
        state.upload_store.begin_upload(pairing_id, "b.txt", "text/plain".to_string(), NOW).is_ok()
    };
    assert!(!again(&mut state, 7));
    assert!(again(&mut state, PAIRING));
    let tasks = state.persist.take();
    assert!(matches!(
        &tasks[..],
        [
            PersistTask::DeletePairing { pairing_id: 7 },
            PersistTask::DeleteExpired { now_unix: 1_700_000_000 },
        ]
    ));
    assert!(state.cleanup(AT).is_empty());
}
