use qr_paste::client::download::StreamBody;
use qr_paste::digest::sha256;
use qr_paste::server::config::ServerConfig;
use qr_paste::server::pairing::{
    new_browser_session_store, new_pairing_store, new_ws_ticket_store,
};
use qr_paste::server::persist::PersistenceStore;
use qr_paste::server::reply::{Body, Reply};
use qr_paste::server::session::new_store;
use qr_paste::server::upload::{
    stream_piece, FirstField, StreamAttach, UploadDispatchMode, UploadJob,
};
use qr_paste::server::upload_store::{new_upload_store, Delivery, FileStatus, StreamItem};
use qr_paste::server::upload_task::{StreamingUpload, UploadAction, UploadEvent, UploadStage};
use qr_paste::server::web::AppState;

const PAIRING: u128 = 9;

fn state() -> AppState {
    AppState {
        store: new_store(),
        pairing_store: new_pairing_store(),
        browser_session_store: new_browser_session_store(),
        ws_ticket_store: new_ws_ticket_store(),
        config: ServerConfig::with_defaults(
            "https://example.com".to_string(),
            "0123456789abcdef".to_string(),
        ),
        public_origin: "https://example.com".to_string(),
        persist: PersistenceStore::new(false),
        upload_store: new_upload_store(10, 1, 1, 1000),
    }
}

fn begin(state: &mut AppState, mode: UploadDispatchMode) -> UploadJob {
    let field = FirstField::File { raw_filename: "a.txt", content_type: Some("text/plain") };
    let mut job = match state.handle_upload(PAIRING, field, 0) {
        Ok(job) => job,
        Err(e) => panic!("{e:?}"),
    };
    job.mode = mode;
    job
}

fn open(state: &mut AppState, mode: UploadDispatchMode) -> StreamingUpload {
    let job = begin(state, mode);
    match StreamingUpload::open(state, job, PAIRING, 1, 5, true) {
        Ok((task, notice)) => {
            assert_eq!(notice.client_tx, 1);
            task
        }
        Err(e) => panic!("{e:?}"),
    }
}

fn step(
    state: &mut AppState,
    task: StreamingUpload,
    event: UploadEvent<'_>,
) -> (StreamingUpload, UploadAction) {
    let (next, action) = task.step(state, event);
    (next.expect("the upload goes on"), action)
}

fn receiving(state: &mut AppState, mode: UploadDispatchMode) -> StreamingUpload {
    let task = open(state, mode);
    let (task, action) = step(state, task, UploadEvent::Announced(true));
    assert!(matches!(action, UploadAction::Create));
    let (task, action) = step(state, task, UploadEvent::Created(true));
    assert!(matches!(action, UploadAction::Read));
    task
}

fn code(reply: &Reply) -> &str {
    match &reply.body {
        Body::Error { code } => code,
        other => panic!("{other:?}"),
    }
}

fn finish(
    state: &mut AppState,
    task: StreamingUpload,
    event: UploadEvent<'_>,
) -> (bool, bool, Option<(u64, StreamItem)>, Reply) {
    match task.step(state, event) {
        (None, UploadAction::Finish { flush, remove, tell, reply }) => (flush, remove, tell, reply),
        (_, other) => panic!("{other:?}"),
    }
}

#[test]
fn an_upload_reaches_the_pc_while_it_comes_in() {
    let mut state = state();
    let mut task = receiving(&mut state, UploadDispatchMode::HttpStreaming);
    let id = task.job.file_id;
    assert!(matches!(state.handle_stream_download(id), StreamAttach::Attached(_)));
    let mut items = Vec::new();
    for chunk in [&b"abc"[..], &b"de"[..]] {
        let (t, action) = step(&mut state, task, UploadEvent::Chunk(chunk));
        assert!(matches!(action, UploadAction::Write));
        let (t, action) = step(&mut state, t, UploadEvent::Written(true));
        assert!(matches!(action, UploadAction::SendOn(5)));
        items.push(StreamItem::Data(chunk.to_vec()));
        let (t, action) = step(&mut state, t, UploadEvent::Sent(Delivery::Delivered));
        assert!(matches!(action, UploadAction::Read));
        task = t;
    }
    let (task, action) = step(&mut state, task, UploadEvent::End);
    assert!(matches!(action, UploadAction::Flush));
    let (task, action) = step(&mut state, task, UploadEvent::Flushed(true));
    assert!(matches!(action, UploadAction::Rename));
    let (flush, remove, tell, reply) =
        finish(&mut state, task, UploadEvent::Renamed(Some("/up/x".to_string())));
    assert!(!flush && !remove);
    assert!(matches!(reply.body, Body::Uploaded { size_bytes: 5, .. }));
    let (to, end) = tell.expect("the PC gets the digest");
    assert_eq!(to, 5);
    assert!(matches!(&end, StreamItem::End { sha256: d } if *d == sha256(b"abcde")));
    items.push(end);
    assert_eq!(state.upload_store.get_file_meta(id).unwrap().status, FileStatus::Notified);
    assert!(matches!(state.handle_stream_download(id), StreamAttach::Again));

    let mut body = StreamBody::new();
    let mut file = Vec::new();
    for item in items {
        let (piece, _) = stream_piece(Some(item));
        let (more, write) = match body.on_read(&piece.unwrap()) {
            Ok(step) => step,
            Err(e) => panic!("{e}"),
        };
        body = more;
        file.extend_from_slice(&write);
    }
    assert_eq!(body.finish("a.txt"), Ok(5));
    assert_eq!(file, b"abcde");
}

#[test]
fn every_fault_takes_the_upload_back() {
    let told = |tell: Option<(u64, StreamItem)>| match tell {
        Some((5, StreamItem::Abort { reason })) => reason,
        None => "nobody".to_string(),
        other => panic!("{other:?}"),
    };
    for (name, want_code, want_flush, want_remove) in [
        ("nobody", "internal_error", false, false),
        ("tmp_create_failed", "internal_error", false, false),
        ("upload_timeout", "upload_timeout", true, true),
        ("read_error", "internal_error", true, true),
        ("too_large", "file_too_large", true, true),
        ("io_error", "internal_error", false, true),
        ("flush_error", "internal_error", false, true),
        ("rename_failed", "internal_error", false, true),
    ] {
        let mut state = state();
        let mut task = open(&mut state, UploadDispatchMode::Streaming);
        let long = [0u8; 11];
        let event = match name {
            "nobody" => UploadEvent::Announced(false),
            "tmp_create_failed" => {
                task.stage = UploadStage::Creating;
                UploadEvent::Created(false)
            }
            "upload_timeout" => {
                task.stage = UploadStage::Receiving;
                UploadEvent::TimedOut
            }
            "read_error" => {
                task.stage = UploadStage::Receiving;
                UploadEvent::ReadFailed
            }
            "too_large" => {
                task.stage = UploadStage::Receiving;
                UploadEvent::Chunk(&long)
            }
            "io_error" => {
                task.stage = UploadStage::Writing;
                UploadEvent::Written(false)
            }
            "flush_error" => {
                task.stage = UploadStage::Flushing;
                UploadEvent::Flushed(false)
            }
            _ => {
                task.stage = UploadStage::Renaming;
                UploadEvent::Renamed(None)
            }
        };
        let id = task.job.file_id;
        let (flush, remove, tell, reply) = finish(&mut state, task, event);
        assert_eq!(code(&reply), want_code, "{name}");
        assert_eq!((flush, remove), (want_flush, want_remove), "{name}");
        assert_eq!(told(tell), name);
        assert!(state.upload_store.get_file_meta(id).is_none());
        assert_eq!(state.upload_store.sender(id), None);
        begin(&mut state, UploadDispatchMode::Streaming);
    }
}

#[test]
fn a_pc_that_does_not_follow_is_given_up() {
    for (delivery, want) in [
        (Delivery::Closed, "disconnected"),
        (Delivery::TimedOut, "backpressure_timeout"),
    ] {
        let mut state = state();
        let task = receiving(&mut state, UploadDispatchMode::Streaming);
        let (task, _) = step(&mut state, task, UploadEvent::Chunk(b"ab"));
        let (task, _) = step(&mut state, task, UploadEvent::Written(true));
        let (task, action) = step(&mut state, task, UploadEvent::Sent(delivery));
        assert!(matches!(action, UploadAction::GiveUp { channel: Some(5), reason }
            if reason == want));
        let (task, _) = step(&mut state, task, UploadEvent::Chunk(b"c"));
        let (task, action) = step(&mut state, task, UploadEvent::Written(true));
        assert!(matches!(action, UploadAction::Read), "nothing is sent on any more");
        let (task, _) = step(&mut state, task, UploadEvent::End);
        let (task, _) = step(&mut state, task, UploadEvent::Flushed(true));
        let (_, _, tell, reply) =
            finish(&mut state, task, UploadEvent::Renamed(Some("/up/x".to_string())));
        assert!(tell.is_none());
        assert!(matches!(reply.body, Body::Uploaded { size_bytes: 3, .. }));
    }
    let mut state = state();
    let task = receiving(&mut state, UploadDispatchMode::Streaming);
    state.upload_store.remove_streaming_state(task.job.file_id);
    let (task, _) = step(&mut state, task, UploadEvent::Chunk(b"ab"));
    let (task, action) = step(&mut state, task, UploadEvent::Written(true));
    assert!(matches!(action, UploadAction::GiveUp { channel: None, reason: "disconnected" }));
    let (_, action) = step(&mut state, task, UploadEvent::Flushed(true));
    assert!(matches!(action, UploadAction::Ignore));
}

#[test]
fn streams_over_http_need_room() {
    let mut state = state();
    let job = begin(&mut state, UploadDispatchMode::HttpStreaming);
    let id = job.file_id;
    match StreamingUpload::open(&mut state, job, PAIRING, 1, 5, false) {
        Err(e) => assert_eq!((e.status, code(&e)), (429, "too_many_uploads")),
        Ok(_) => panic!("there is no room"),
    }
    assert!(state.upload_store.get_file_meta(id).is_none());
    let job = begin(&mut state, UploadDispatchMode::HttpStreaming);
    let id = job.file_id;
    state.upload_store.create_streaming_state(id, 4);
    match StreamingUpload::open(&mut state, job, PAIRING, 1, 5, true) {
        Err(e) => assert_eq!(code(&e), "internal_error"),
        Ok(_) => panic!("there is a stream already"),
    }
    assert!(state.upload_store.get_file_meta(id).is_none());
}
