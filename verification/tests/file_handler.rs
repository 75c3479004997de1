use qr_paste::client::clipboard::Key;
use qr_paste::client::dib::{dib_v5, estimate_decoded_rgba_bytes};
use qr_paste::client::download::{
    check_download_status, check_stream_reply, expected_digest, file_bearer, send_ack,
    DownloadError, FileChunk, Location, Received, StreamBody, StreamInput, StreamReply, StreamStep,
};
use qr_paste::client::file_handler::{
    start_file_workers, FileJob, FileTask, JobAction, JobEvent, JobStage, Way,
};
use qr_paste::client::save_name::{
    display_name, sanitize_file_name_for_save, saved_base_name, truncate_file_name_to_limit,
    unique_dest_path, DestStep,
};
use qr_paste::digest::sha256;
use qr_paste::events::{FileReceived, TransferMode};
use qr_paste::server::pairing::encode_hex;
use qr_paste::text::byte_len_upto;

fn event(mode: TransferMode) -> FileReceived {
    FileReceived {
        file_id: "id".to_string(),
        file_name: "a/b:c.txt".to_string(),
        mime_type: "text/plain".to_string(),
        size_bytes: 3,
        download_url: "https://relay/api/files/id".to_string(),
        sha256: String::new(),
        transfer_mode: mode,
        file_access_token: vec![0xab, 0x01],
    }
}

fn job(mode: TransferMode) -> FileJob {
    FileJob {
        event: event(mode),
        file_save_dir: "/save".to_string(),
        download_timeout_secs: 0,
        download_max_retries: 1,
        public_base_url: Some("https://relay/".to_string()),
        auto_paste: true,
        mime_type: "image/png".to_string(),
        image_clipboard_max_decoded_bytes: 64,
        simulate_key_after_paste: Some("Return".to_string()),
        enter_after_paste: false,
        paste_delay_ms: 1,
        key_after_paste_delay_ms: 1,
        has_channel: true,
        pastes_images: false,
    }
}

fn fetching(mode: TransferMode) -> FileTask {
    let mut task = FileTask::new(job(mode));
    assert!(matches!(task.process_file_job(JobEvent::Done), JobAction::MakeDir));
    assert!(matches!(task.process_file_job(JobEvent::Done), JobAction::Fetch(_)));
    task
}

fn finish(action: JobAction) -> (Option<bool>, String) {
    match action {
        JobAction::Finish { ack, notice } => (ack, notice),
        other => panic!("{other:?}"),
    }
}

fn transient() -> JobEvent {
    JobEvent::Error(DownloadError::Transient("later".to_string()))
}

fn terminal() -> JobEvent {
    JobEvent::Error(DownloadError::Terminal("never".to_string()))
}

#[test]
fn sanitize_prefixes_windows_reserved_names() {
    assert_eq!(sanitize_file_name_for_save("con.txt"), "_con.txt");
    assert_eq!(sanitize_file_name_for_save("Lpt1"), "_Lpt1");
}

#[test]
fn sanitize_truncates_to_255_bytes_and_keeps_extension() {
    let file_name = format!("{}.png", "你".repeat(100));
    let sanitized = sanitize_file_name_for_save(&file_name);

    assert!(sanitized.len() <= 255);
    assert!(sanitized.ends_with(".png"));
}

#[test]
fn saved_names_are_clean() {
    assert_eq!(sanitize_file_name_for_save("  "), "file");
    assert_eq!(sanitize_file_name_for_save("..."), "file");
    assert_eq!(sanitize_file_name_for_save("dir/a*b?.txt . "), "a_b_.txt ");
    assert_eq!(saved_base_name("a\u{7}b|c"), "a_b_c");
    // The extension survives where its stem does not.
    assert_eq!(saved_base_name(&format!("con.{}.png", "a".repeat(260))), "con.png");
    assert_eq!(saved_base_name(&"x".repeat(300)), "x".repeat(255));
    let long_ext = format!("s.{}", "e".repeat(300));
    assert_eq!(saved_base_name(&long_ext), format!("s.{}", "e".repeat(16)));
}

#[test]
fn names_are_cut_at_characters() {
    let chars: Vec<char> = "ééé".chars().collect();
    assert_eq!(truncate_file_name_to_limit(&chars, 5), "éé");
    assert_eq!(truncate_file_name_to_limit(&chars, 6), "ééé");
}

#[test]
fn taken_names_are_numbered() {
    let probe = |name: &str, taken: u32| match unique_dest_path(name, taken) {
        DestStep::Probe(s) => s,
        DestStep::Settle(s) => format!("settle {s}"),
    };
    assert_eq!(probe("a.tar.gz", 0), "a.tar.gz");
    assert_eq!(probe("a.tar.gz", 1), "a.tar(1).gz");
    assert_eq!(probe("a", 12), "a(12)");
    assert_eq!(probe(".env", 9999), ".env(9999)");
    assert_eq!(probe("a.txt", 10000), "settle a.txt");
    assert_eq!(display_name(Some("x"), "y"), "x");
    assert_eq!(display_name(None, "y"), "y");
}

#[test]
fn a_file_is_fetched_and_saved() {
    let mut task = FileTask::new(job(TransferMode::Relay));
    assert_eq!(task.file_name, "b_c.txt");
    assert_eq!(task.job.timeout_secs(), 1);
    task.process_file_job(JobEvent::Done);
    assert!(matches!(task.process_file_job(JobEvent::Done), JobAction::Fetch(Way::Plain(1))));
    assert!(matches!(task.process_file_job(JobEvent::Done), JobAction::Save));
    let saved = task.process_file_job(JobEvent::Saved("b_c(1).txt".to_string()));
    assert_eq!(finish(saved), (Some(true), "已保存文件：b_c(1).txt".to_string()));
    assert_eq!(task.stage, JobStage::Over);
}

#[test]
fn plain_downloads_are_tried_again() {
    let mut task = fetching(TransferMode::Relay);
    assert!(matches!(task.process_file_job(transient()), JobAction::Wait));
    assert!(matches!(task.process_file_job(JobEvent::Done), JobAction::Fetch(Way::Plain(2))));
    assert_eq!(
        finish(task.process_file_job(transient())),
        (Some(false), "⚠ 文件下载失败（已重试 1 次）：later".to_string())
    );
    let mut task = fetching(TransferMode::Relay);
    assert_eq!(
        finish(task.process_file_job(terminal())),
        (Some(false), "never".to_string())
    );
}

#[test]
fn streams_are_not_tried_again() {
    for mode in [TransferMode::Streaming, TransferMode::HttpStreaming] {
        let mut task = fetching(mode);
        assert_eq!(
            finish(task.process_file_job(transient())),
            (Some(false), "later".to_string())
        );
    }
    let mut task = FileTask::new(job(TransferMode::Streaming));
    task.job.has_channel = false;
    task.process_file_job(JobEvent::Done);
    assert!(matches!(task.process_file_job(JobEvent::Done), JobAction::Fetch(Way::Plain(1))));
}

#[test]
fn what_cannot_be_prepared_is_told() {
    let mut task = FileTask::new(job(TransferMode::Relay));
    assert_eq!(
        finish(task.process_file_job(JobEvent::Failed("x".to_string()))),
        (None, "⚠ 文件下载失败（构建 HTTP 客户端）：x".to_string())
    );
    let mut task = FileTask::new(job(TransferMode::Relay));
    task.process_file_job(JobEvent::Done);
    assert_eq!(
        finish(task.process_file_job(JobEvent::Failed("x".to_string()))),
        (Some(false), "⚠ 无法创建保存目录 /save：x".to_string())
    );
}

#[test]
fn pictures_are_pasted_or_saved() {
    let mut task = fetching(TransferMode::Relay);
    task.job.pastes_images = true;
    assert!(matches!(task.process_file_job(JobEvent::Done), JobAction::Probe));
    assert!(matches!(task.process_file_job(JobEvent::Size(Some((4, 4)))), JobAction::Copy));
    assert!(matches!(
        task.process_file_job(JobEvent::Done),
        JobAction::Paste(keys) if keys == vec![(None, Key::Return)]
    ));
    assert_eq!(
        finish(task.process_file_job(JobEvent::Done)),
        (Some(true), "已自动粘贴图片（Return）：b_c.txt".to_string())
    );
    for size in [None, Some((4, 5)), Some((u32::MAX, u32::MAX))] {
        let mut task = fetching(TransferMode::Relay);
        task.job.pastes_images = true;
        task.process_file_job(JobEvent::Done);
        assert!(matches!(task.process_file_job(JobEvent::Size(size)), JobAction::Save));
    }
    let mut task = fetching(TransferMode::Relay);
    task.job.pastes_images = true;
    task.process_file_job(JobEvent::Done);
    task.process_file_job(JobEvent::Size(Some((1, 1))));
    assert!(matches!(
        task.process_file_job(JobEvent::Failed("busy".to_string())),
        JobAction::Save
    ));
    assert_eq!(start_file_workers(0), 1);
    assert_eq!(start_file_workers(3), 3);
}

#[test]
fn receipts_are_reported() {
    let event = event(TransferMode::Relay);
    assert_eq!(file_bearer(&event), "ab01");
    assert_eq!(
        send_ack(&event, &Some("https://relay//".to_string())),
        Some(("https://relay/api/files/id/ack".to_string(), "ab01".to_string()))
    );
    assert_eq!(send_ack(&event, &None), None);
}

#[test]
fn statuses_are_told_apart() {
    assert!(check_download_status(206, "206").is_ok());
    for status in [401, 404] {
        assert!(matches!(check_download_status(status, "x y"), Err(DownloadError::Terminal(m))
            if m == "⚠ 文件下载失败：HTTP x y"));
    }
    for status in [302, 403, 500] {
        assert!(matches!(check_download_status(status, "x"), Err(DownloadError::Transient(_))));
    }
}

fn received(parts: &[&[u8]]) -> Received {
    let mut all = Received::new();
    for part in parts {
        all = match all.on_read(part) {
            Ok(more) => more,
            Err(e) => panic!("{e:?}"),
        };
    }
    all
}

#[test]
fn downloads_must_have_their_digest() {
    let digest = "ba7816bf8f01cfea414140de5dae2223b00361a396177a9cb410ff61f20015ad";
    assert_eq!(encode_hex(&sha256(b"abc")), digest);
    assert!(matches!(received(&[b"a", b"bc"]).finish_download(digest, "f"), Ok(3)));
    assert!(matches!(
        received(&[b"abc"]).finish_download("", "f"),
        Err(DownloadError::Terminal(_))
    ));
    assert!(matches!(
        received(&[b"abd"]).finish_download(digest, "f"),
        Err(DownloadError::Terminal(m)) if m == "⚠ 文件 f 校验失败，已丢弃"
    ));
}

#[test]
fn the_reply_names_the_digest_that_was_not_announced() {
    let digest = encode_hex(&sha256(b"abc"));
    assert_eq!(expected_digest("announced", Some(&digest)), "announced");
    assert_eq!(expected_digest("announced", None), "announced");
    assert_eq!(expected_digest("", None), "");
    let named = expected_digest(&event(TransferMode::Streaming).sha256, Some(&digest));
    assert_eq!(named, digest);
    assert!(matches!(received(&[b"abc"]).finish_download(&named, "f"), Ok(3)));
}

fn chunk(data: &[u8], sha256: &[u8], is_last: bool) -> FileChunk {
    FileChunk { data: data.to_vec(), sha256: sha256.to_vec(), is_last }
}

#[test]
fn streams_must_have_their_digest() {
    let written = |data: &[u8]| match Received::new()
        .on_stream(StreamInput::Chunk(&chunk(data, b"", false)), "f")
    {
        StreamStep::Write(more) => more,
        _ => panic!("the chunk is to be written"),
    };
    let last = chunk(b"", &sha256(b"abc"), true);
    assert!(matches!(
        written(b"abc").on_stream(StreamInput::Chunk(&last), "f"),
        StreamStep::Finished(3)
    ));
    assert!(matches!(
        written(b"abd").on_stream(StreamInput::Chunk(&last), "f"),
        StreamStep::Failed(m) if m == "⚠ 文件 f sha256 mismatch，已丢弃"
    ));
    assert!(matches!(
        written(b"abc").on_stream(StreamInput::Closed, "f"),
        StreamStep::Failed(m) if m == "⚠ gRPC 流提前关闭，未收到终止帧：f"
    ));
    let failed = StreamInput::Failed { code: "c".to_string(), message: "m".to_string() };
    assert!(matches!(
        written(b"abc").on_stream(failed, "f"),
        StreamStep::Failed(m) if m == "⚠ gRPC 流错误：c m"
    ));
}

fn body_in_reads_of(body: &[u8], size: usize) -> (StreamBody, Vec<u8>) {
    let mut all = StreamBody::new();
    let mut file = Vec::new();
    for read in body.chunks(size) {
        let (more, write) = match all.on_read(read) {
            Ok(step) => step,
            Err(e) => panic!("{e}"),
        };
        all = more;
        file.extend_from_slice(&write);
    }
    (all, file)
}

#[test]
fn streamed_bodies_arrive_in_any_reads() {
    let data: Vec<u8> = (0..100u8).collect();
    let mut body = data.clone();
    body.extend_from_slice(&sha256(&data));
    for size in [1, 7, 31, 32, 33, 64, 1000] {
        let (all, file) = body_in_reads_of(&body, size);
        assert_eq!(file, data);
        assert_eq!(all.finish("f"), Ok(100));
    }
    let (all, file) = body_in_reads_of(&sha256(b""), 5);
    assert!(file.is_empty());
    assert_eq!(all.finish("f"), Ok(0));
}

#[test]
fn broken_bodies_are_refused() {
    let (all, _) = body_in_reads_of(b"abc", 2);
    assert_eq!(
        all.finish("f").unwrap_err(),
        "⚠ HTTP 流式下载：响应体长度不足，预期末尾 32 字节 SHA-256，实际残余 3 字节（文件 f）"
    );
    let (all, _) = body_in_reads_of(&[7; 40], 9);
    assert_eq!(
        all.finish("f").unwrap_err(),
        "⚠ HTTP 流式下载：文件 f SHA-256 校验失败，已丢弃"
    );
}

#[test]
fn replies_lead_to_the_file() {
    let digest = "A".repeat(64);
    let url = || Location::Url("https://relay/api/files/1".to_string());
    let failed = |reply: StreamReply| match reply {
        StreamReply::Failed(m) => m,
        other => panic!("{other:?}"),
    };
    assert!(matches!(check_stream_reply(200, "", None, Location::Absent), StreamReply::Body));
    assert!(matches!(
        check_stream_reply(302, "", Some(digest.clone()), url()),
        StreamReply::Elsewhere { url, sha256 }
            if url == "https://relay/api/files/1" && sha256 == digest
    ));
    for bad in [None, Some("ab".to_string()), Some("g".repeat(64))] {
        assert_eq!(
            failed(check_stream_reply(302, "", bad, url())),
            "⚠ HTTP 流式下载：302 响应缺少有效的 X-File-Sha256 头"
        );
    }
    assert_eq!(
        failed(check_stream_reply(302, "", Some(digest.clone()), Location::Absent)),
        "⚠ HTTP 流式下载：302 但无 Location 头"
    );
    assert_eq!(
        failed(check_stream_reply(302, "", Some(digest), Location::Unreadable)),
        "⚠ HTTP 流式下载：302 Location 头无效"
    );
    assert_eq!(
        failed(check_stream_reply(404, "404 Not Found", None, Location::Absent)),
        "⚠ HTTP 流式下载失败：HTTP 404 Not Found"
    );
}

#[test]
fn pictures_are_turned_over_for_the_clipboard() {
    let rgba: Vec<u8> = (1..=16).collect();
    let out = dib_v5(&rgba, 2, 2).unwrap();
    assert_eq!(out.len(), 124 + 16);
    assert_eq!(&out[0..16], &[124, 0, 0, 0, 2, 0, 0, 0, 2, 0, 0, 0, 1, 0, 32, 0]);
    assert_eq!(&out[16..24], &[3, 0, 0, 0, 16, 0, 0, 0]);
    assert_eq!(&out[40..60], &[
        0, 0, 255, 0, 0, 255, 0, 0, 255, 0, 0, 0, 0, 0, 0, 255, 0x20, 0x6e, 0x69, 0x57,
    ]);
    assert_eq!(&out[124..], &[11, 10, 9, 12, 15, 14, 13, 16, 3, 2, 1, 4, 7, 6, 5, 8]);
    let again = dib_v5(&out[124..], 2, 2).unwrap();
    assert_eq!(&again[124..], &rgba[..]);
    assert_eq!(dib_v5(&[], 0, 5).unwrap().len(), 124);
    assert_eq!(estimate_decoded_rgba_bytes(3, 5), Some(60));
    assert_eq!(estimate_decoded_rgba_bytes(u32::MAX, u32::MAX), None);
}

#[test]
fn bytes_of_texts_are_counted() {
    for text in ["", "a", "é", "你", "😀", "aé你😀"] {
        let chars: Vec<char> = text.chars().collect();
        assert_eq!(byte_len_upto(&chars, 100), text.len());
    }
    let chars: Vec<char> = "你好".chars().collect();
    assert_eq!(byte_len_upto(&chars, 4), 4);
}
