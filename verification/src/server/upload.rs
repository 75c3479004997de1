//! Files on their way from a phone to a PC: how an upload is taken in, how it is passed on, and how
//! the PC fetches it.
//!
//! The caller reads the request, writes the disk and carries the bytes; it says how each of these
//! went and is told what to do.

use crate::clock::Moment;
use crate::digest;
use crate::digest::{same_bytes, Hasher};
use crate::events::{plain_event, Event, EventView, FileReceived, FileReceivedView, TransferMode};
use crate::ids;
use crate::ids::{id_string, parse_id, Id};
use crate::names;
use crate::names::{sanitize_file_name, split_stem_ext};
use crate::server::config;
use crate::server::pairing;
use crate::server::pairing::{decode_hex_32, encode_hex};
use crate::server::relay;
use crate::server::relay::current_client_tx;
use crate::server::reply;
use crate::server::reply::{
    add_header, bearer_token, error_json, is_header_value, Body, BodyView, Header, Reply,
    ReplyView, BAD_REQUEST, CONFLICT, FOUND, INTERNAL_SERVER_ERROR, NOT_FOUND, OK,
    PAYLOAD_TOO_LARGE, REQUEST_TIMEOUT, TOO_MANY_REQUESTS, UNPROCESSABLE_ENTITY,
};
use crate::server::upload_store;
use crate::server::upload_store::{
    AttachError, FileMetaSnapshot, FileStatus, FileView, SaveFileError, SendChunkResult,
    StoreView, StreamItem, UploadLimitError,
};
use crate::server::web::{AppState, Notice, StateView, MAX_SMALL_BODY};
use crate::server::ws;
use crate::text;
use crate::text::{chars_of, push_chars, string_of, trim_end_char};
use vstd::prelude::*;

verus! {

/// The bit of a PC client that can fetch a file over HTTP while it comes in.
pub const HTTP_STREAMING_CAPABILITY: u32 = 1;

/// How often a stream that is not there yet is asked for.
pub const MAX_ATTACH_RETRIES: u32 = 10;

/// Milliseconds between these attempts.
pub const ATTACH_RETRY_INTERVAL_MS: u64 = 50;

/// How a file is passed on.
#[derive(Debug, Clone, Copy, PartialEq, Eq, Structural)]
pub enum UploadDispatchMode {
    /// Over HTTP while it comes in.
    HttpStreaming,
    /// Over the event connection while it comes in.
    Streaming,
    /// Once it is stored.
    Relay,
}

impl UploadDispatchMode {
    /// The word for it.
    pub open spec fn word(self) -> Seq<char> {
        match self {
            UploadDispatchMode::HttpStreaming => "HTTP_STREAMING"@,
            UploadDispatchMode::Streaming => "STREAMING"@,
            UploadDispatchMode::Relay => "RELAY"@,
        }
    }

    /// The word for it.
    pub fn as_str(self) -> (r: &'static str)
        ensures
            r@ == self.word(),
    {
        match self {
            UploadDispatchMode::HttpStreaming => "HTTP_STREAMING",
            UploadDispatchMode::Streaming => "STREAMING",
            UploadDispatchMode::Relay => "RELAY",
        }
    }

    /// The mode that the PC client is told of.
    pub open spec fn transfer(self) -> TransferMode {
        match self {
            UploadDispatchMode::HttpStreaming => TransferMode::HttpStreaming,
            UploadDispatchMode::Streaming => TransferMode::Streaming,
            UploadDispatchMode::Relay => TransferMode::Relay,
        }
    }

    fn transfer_mode(self) -> (r: TransferMode)
        ensures
            r == self.transfer(),
    {
        match self {
            UploadDispatchMode::HttpStreaming => TransferMode::HttpStreaming,
            UploadDispatchMode::Streaming => TransferMode::Streaming,
            UploadDispatchMode::Relay => TransferMode::Relay,
        }
    }
}

/// How a file is passed on to a client with these abilities, or to none.
pub open spec fn dispatch_mode(capabilities: Option<u32>) -> UploadDispatchMode {
    match capabilities {
        Some(c) => if c % 2 == 1 {
            UploadDispatchMode::HttpStreaming
        } else {
            UploadDispatchMode::Streaming
        },
        None => UploadDispatchMode::Relay,
    }
}

/// How a file is passed on to a client with these abilities, or to none.
pub fn select_upload_dispatch_mode(client_capabilities: Option<u32>) -> (r: UploadDispatchMode)
    ensures
        r == dispatch_mode(client_capabilities),
{
    match client_capabilities {
        Some(c) => {
            assert(c & 1 == c % 2) by (bit_vector);
            if c & HTTP_STREAMING_CAPABILITY != 0 {
                UploadDispatchMode::HttpStreaming
            } else {
                UploadDispatchMode::Streaming
            }
        },
        None => UploadDispatchMode::Relay,
    }
}

/// What whoever asks too late for a stream is told.
#[derive(Debug, Clone, Copy, PartialEq, Eq, Structural)]
pub enum LateAttachOutcome {
    /// To fetch the stored file.
    RedirectToDownload,
    /// That there is none.
    NotFound,
}

/// What whoever asks too late for a stream is told, by where the file stands: a file that is on disk
/// and not being told of can be fetched.
pub fn resolve_late_attach_outcome(status: Option<FileStatus>) -> (r: LateAttachOutcome)
    ensures
        r == (if status == Some(FileStatus::StoredUnnotified) || status == Some(
            FileStatus::Notified,
        ) {
            LateAttachOutcome::RedirectToDownload
        } else {
            LateAttachOutcome::NotFound
        }),
{
    match status {
        Some(FileStatus::StoredUnnotified) => LateAttachOutcome::RedirectToDownload,
        Some(FileStatus::Notified) => LateAttachOutcome::RedirectToDownload,
        _ => LateAttachOutcome::NotFound,
    }
}

/// The code for a limit that stands against an upload.
pub open spec fn limit_code(e: UploadLimitError) -> Seq<char> {
    match e {
        UploadLimitError::PerPairingFileLimitReached => "per_pairing_file_limit"@,
        UploadLimitError::GlobalFileLimitReached => "global_file_limit"@,
        UploadLimitError::GlobalByteLimitReached => "global_byte_limit"@,
        UploadLimitError::PairingClosed => "pairing_closed"@,
    }
}

/// The reply where a limit stands against an upload.
fn limit_reply(e: UploadLimitError) -> (r: Reply)
    ensures
        r@ == reply::error_reply(TOO_MANY_REQUESTS, limit_code(e)),
{
    let code = match e {
        UploadLimitError::PerPairingFileLimitReached => "per_pairing_file_limit",
        UploadLimitError::GlobalFileLimitReached => "global_file_limit",
        UploadLimitError::GlobalByteLimitReached => "global_byte_limit",
        UploadLimitError::PairingClosed => "pairing_closed",
    };
    error_json(TOO_MANY_REQUESTS, code)
}

/// The media type that `mime_guess` knows for a file extension.
pub uninterp spec fn mime_of_ext(ext: Seq<char>) -> Seq<char>;

/// `mime_guess::from_ext` and its first guess, `application/octet-stream` where it has none: a
/// function of the extension alone.
#[verifier::external_body]
fn guess_mime(ext: &str) -> (r: String)
    ensures
        r@ == mime_of_ext(ext@),
{
    mime_guess::from_ext(ext).first_or_octet_stream().to_string()
}

/// The media type of an upload: the one it came with, or the one that its name suggests.
pub fn upload_mime_type(content_type: Option<&str>, raw_filename: &str) -> (r: String)
    ensures
        match content_type {
            Some(t) => r@ == t@,
            None => exists|base: Seq<char>| #[trigger]
                names::is_base_of(raw_filename@, base) && r@ == mime_of_ext(
                    names::ext_of(names::stored_name(base, 0)),
                ),
        },
{
    match content_type {
        Some(t) => string_of(&chars_of(t)),
        None => {
            let nil: Id = 0;
            let name = sanitize_file_name(raw_filename, &nil);
            let cs = chars_of(&name);
            let (_stem, ext) = split_stem_ext(&cs);
            guess_mime(&string_of(ext))
        },
    }
}

/// Where a file is fetched from.
pub open spec fn file_url(base: Seq<char>, file_id: Id) -> Seq<char> {
    text::trim_end_of(base, '/') + "/api/files/"@ + ids::uuid_text(file_id)
}

/// Where a file that is passed on in the given mode is fetched from.
pub open spec fn download_url(base: Seq<char>, file_id: Id, mode: UploadDispatchMode) -> Seq<char> {
    if mode == UploadDispatchMode::HttpStreaming {
        file_url(base, file_id) + "/stream"@
    } else {
        file_url(base, file_id)
    }
}

fn file_url_string(base: &str, file_id: Id) -> (r: String)
    ensures
        r@ == file_url(base@, file_id),
{
    let mut out = string_of(trim_end_char(&chars_of(base), '/'));
    push_chars(&mut out, &chars_of("/api/files/"));
    push_chars(&mut out, &chars_of(&id_string(file_id)));
    out
}

/// The event that tells a PC client of a file.
pub open spec fn file_event(
    base: Seq<char>,
    file_id: Id,
    mode: UploadDispatchMode,
    name: Seq<char>,
    mime_type: Seq<char>,
    size: u64,
    sha256: Seq<char>,
    token: Seq<u8>,
) -> EventView {
    EventView::FileReceived(
        FileReceivedView {
            file_id: ids::uuid_text(file_id),
            file_name: name,
            mime_type,
            size_bytes: size,
            download_url: download_url(base, file_id, mode),
            sha256,
            transfer_mode: mode.transfer(),
            file_access_token: token,
        },
    )
}

/// The event that tells a PC client of a file.
pub fn file_received_event(
    base: &str,
    file_id: Id,
    mode: UploadDispatchMode,
    name: &str,
    mime_type: &str,
    size: u64,
    sha256: &str,
    token: &[u8; 32],
) -> (r: Event)
    ensures
        r@ == file_event(base@, file_id, mode, name@, mime_type@, size, sha256@, token@),
{
    let mut url = file_url_string(base, file_id);
    if mode == UploadDispatchMode::HttpStreaming {
        push_chars(&mut url, &chars_of("/stream"));
    }
    let file = FileReceived {
        file_id: id_string(file_id),
        file_name: string_of(&chars_of(name)),
        mime_type: string_of(&chars_of(mime_type)),
        size_bytes: size,
        download_url: url,
        sha256: string_of(&chars_of(sha256)),
        transfer_mode: mode.transfer_mode(),
        file_access_token: vstd::slice::slice_to_vec(token.as_slice()),
    };
    Event::FileReceived(file)
}

/// The reply to a phone whose file was taken.
pub open spec fn uploaded_reply(
    file_id: Id,
    raw_filename: Seq<char>,
    mime_type: Seq<char>,
    size: u64,
    sha256: Seq<char>,
) -> ReplyView {
    reply::plain_reply(
        OK,
        BodyView::Uploaded {
            file_id: ids::uuid_text(file_id),
            file_name: raw_filename,
            mime_type,
            size_bytes: size,
            sha256,
        },
    )
}

/// What goes wrong with an upload.
#[derive(Debug, Clone, Copy, PartialEq, Eq, Structural)]
pub enum UploadFault {
    /// The PC client could not be told.
    NotifyFailed,
    /// The file could not be created.
    TmpCreateFailed,
    /// The bytes came too slowly.
    Timeout,
    /// The bytes could not be read.
    ReadError,
    /// There were too many.
    TooLarge,
    /// They could not be written.
    IoError,
    /// The last of them could not be written.
    FlushError,
    /// The file did not get its final name.
    RenameFailed,
}

impl UploadFault {
    /// The status that the phone is told.
    pub open spec fn status(self) -> u16 {
        match self {
            UploadFault::Timeout => REQUEST_TIMEOUT,
            UploadFault::TooLarge => PAYLOAD_TOO_LARGE,
            _ => INTERNAL_SERVER_ERROR,
        }
    }

    /// The code that the phone is told.
    pub open spec fn code(self) -> Seq<char> {
        match self {
            UploadFault::Timeout => "upload_timeout"@,
            UploadFault::TooLarge => "file_too_large"@,
            _ => "internal_error"@,
        }
    }

    /// The reason that the PC is told.
    pub open spec fn reason(self) -> Seq<char> {
        match self {
            UploadFault::NotifyFailed => "notify_failed"@,
            UploadFault::TmpCreateFailed => "tmp_create_failed"@,
            UploadFault::Timeout => "upload_timeout"@,
            UploadFault::ReadError => "read_error"@,
            UploadFault::TooLarge => "too_large"@,
            UploadFault::IoError => "io_error"@,
            UploadFault::FlushError => "flush_error"@,
            UploadFault::RenameFailed => "rename_failed"@,
        }
    }

    /// The reason that the PC is told.
    pub fn reason_str(self) -> (r: &'static str)
        ensures
            r@ == self.reason(),
    {
        match self {
            UploadFault::NotifyFailed => "notify_failed",
            UploadFault::TmpCreateFailed => "tmp_create_failed",
            UploadFault::Timeout => "upload_timeout",
            UploadFault::ReadError => "read_error",
            UploadFault::TooLarge => "too_large",
            UploadFault::IoError => "io_error",
            UploadFault::FlushError => "flush_error",
            UploadFault::RenameFailed => "rename_failed",
        }
    }

    /// The reply to the phone.
    pub fn reply(self) -> (r: Reply)
        ensures
            r@ == reply::error_reply(self.status(), self.code()),
    {
        match self {
            UploadFault::Timeout => error_json(REQUEST_TIMEOUT, "upload_timeout"),
            UploadFault::TooLarge => error_json(PAYLOAD_TOO_LARGE, "file_too_large"),
            _ => error_json(INTERNAL_SERVER_ERROR, "internal_error"),
        }
    }
}

/// The bytes of an upload as they come in: how many there were, their digest so far, and whether the
/// PC still follows.
pub struct Intake {
    hasher: Hasher,
    total: u64,
    max: u64,
    aborted: bool,
}

/// An upload as it comes in, for contracts.
#[verifier::ext_equal]
pub struct IntakeView {
    /// The bytes that were taken.
    pub bytes: Seq<u8>,
    /// How many came in, counted up to the largest `u64`.
    pub total: u64,
    /// How many may come in.
    pub max: u64,
    /// Has the PC been given up?
    pub aborted: bool,
}

impl View for Intake {
    type V = IntakeView;

    closed spec fn view(&self) -> IntakeView {
        IntakeView {
            bytes: self.hasher@,
            total: self.total,
            max: self.max,
            aborted: self.aborted,
        }
    }
}

impl IntakeView {
    /// The count is right: as long as nothing was refused it is the number of the bytes taken.
    pub open spec fn wf(self) -> bool {
        self.total == self.bytes.len() && self.total <= self.max
    }

    /// One more chunk, and whether it was taken: it is not where there would be too many bytes.
    pub open spec fn take(self, chunk: Seq<u8>) -> (IntakeView, bool) {
        let total = if self.total + chunk.len() > u64::MAX {
            u64::MAX
        } else {
            (self.total + chunk.len()) as u64
        };
        if total > self.max {
            (IntakeView { total, ..self }, false)
        } else {
            (IntakeView { total, bytes: self.bytes + chunk, ..self }, true)
        }
    }
}

impl Intake {
    /// Nothing has come in; `max_bytes` may.
    pub fn new(max_bytes: u64) -> (r: Intake)
        ensures
            r@ == (IntakeView { bytes: Seq::empty(), total: 0, max: max_bytes, aborted: false }),
            r@.wf(),
    {
        Intake { hasher: Hasher::start(), total: 0, max: max_bytes, aborted: false }
    }

    /// Takes a chunk, which is then to be written; refuses it where there would be too many bytes.
    pub fn take(&mut self, chunk: &[u8]) -> (r: Result<(), UploadFault>)
        ensures
            final(self)@ == old(self)@.take(chunk@).0,
            r == (if old(self)@.take(chunk@).1 {
                Ok::<(), UploadFault>(())
            } else {
                Err::<(), UploadFault>(UploadFault::TooLarge)
            }),
    {
        self.total = self.total.saturating_add(chunk.len() as u64);
        if self.total > self.max {
            return Err(UploadFault::TooLarge);
        }
        self.hasher.feed(chunk);
        Ok(())
    }

    /// Is a chunk to be sent on to the PC?
    pub fn follows(&self) -> (r: bool)
        ensures
            r == !self@.aborted,
    {
        !self.aborted
    }

    /// What became of a chunk that was sent on. Where it did not arrive the PC is given up, and the
    /// reason to tell it is returned; the upload itself goes on.
    pub fn sent(&mut self, result: SendChunkResult) -> (r: Option<&'static str>)
        ensures
            final(self)@ == (IntakeView {
                aborted: old(self)@.aborted || result != SendChunkResult::Sent,
                ..old(self)@
            }),
            match result {
                SendChunkResult::Sent => r is None,
                SendChunkResult::Disconnected => r matches Some(s) && s@ == "disconnected"@,
                SendChunkResult::Timeout => r matches Some(s) && s@ == "backpressure_timeout"@,
            },
    {
        match result {
            SendChunkResult::Sent => None,
            SendChunkResult::Disconnected => {
                self.aborted = true;
                Some("disconnected")
            },
            SendChunkResult::Timeout => {
                self.aborted = true;
                Some("backpressure_timeout")
            },
        }
    }

    /// How many bytes came in, and their digest.
    pub fn digest(self) -> (r: (u64, [u8; 32]))
        ensures
            r.0 == self@.total,
            r.1@ == digest::sha256_of(self@.bytes),
    {
        (self.total, self.hasher.finish())
    }

    /// How many bytes came in, and their digest in hexadecimal.
    pub fn digest_hex(self) -> (r: (u64, String))
        ensures
            r.0 == self@.total,
            r.1@ == pairing::hex_of(digest::sha256_of(self@.bytes)),
    {
        let (total, sha256) = self.digest();
        (total, encode_hex(&sha256))
    }
}

/// However an upload is cut into chunks, what is taken of it is its bytes in order, and its size is
/// their number; and it is taken exactly as long as it is not too large.
pub proof fn law_intake_takes_all(v: IntakeView, chunk: Seq<u8>)
    requires
        v.wf(),
        v.bytes.len() + chunk.len() <= u64::MAX,
    ensures
        v.take(chunk).1 <==> v.bytes.len() + chunk.len() <= v.max,
        v.take(chunk).1 ==> v.take(chunk).0.wf() && v.take(chunk).0.bytes == v.bytes + chunk,
{
}

/// An upload that was begun.
#[derive(Debug)]
pub struct UploadJob {
    /// The file.
    pub file_id: Id,
    /// The secret that it is fetched with.
    pub file_access_token: [u8; 32],
    /// The name that it is stored under.
    pub file_name: String,
    /// The name that it was sent under.
    pub raw_filename: String,
    /// Its media type.
    pub mime_type: String,
    /// How it is passed on.
    pub mode: UploadDispatchMode,
    /// The channel of the PC client that it is streamed to.
    pub client_tx: Option<u64>,
}

/// Is this the mode and the channel for the PC client of the pairing?
pub open spec fn is_dispatch(
    v: StateView,
    pairing_id: Id,
    mode: UploadDispatchMode,
    client_tx: Option<u64>,
) -> bool {
    exists|found: Option<Seq<char>>|
        {
            &&& #[trigger] relay::is_latest(v.sessions, v.pairings, pairing_id, found)
            &&& match relay::client_of(v.sessions, found) {
                Some((tx, caps)) => client_tx == Some(tx) && mode == dispatch_mode(Some(caps)),
                None => client_tx is None && mode == UploadDispatchMode::Relay,
            }
        }
}

/// A file in the body of a request, as its first field describes it.
#[derive(Debug)]
pub enum FirstField<'a> {
    /// The body could not be read.
    Unreadable,
    /// It has no field.
    Missing,
    /// The name that the file was sent under, empty where there is none, and its media type.
    File { raw_filename: &'a str, content_type: Option<&'a str> },
}

impl AppState {
    /// Begins an upload for a browser that has passed [`AppState::check_browser`]: checks the limits,
    /// records the file, and decides how it is passed on.
    pub fn handle_upload(&mut self, pairing_id: Id, field: FirstField<'_>, now: Moment) -> (r:
        Result<UploadJob, Reply>)
        ensures
            match field {
                FirstField::Unreadable => {
                    &&& r matches Err(e)
                    &&& e@ == reply::error_reply(INTERNAL_SERVER_ERROR, "internal_error"@)
                    &&& final(self)@ == old(self)@
                },
                FirstField::Missing => {
                    &&& r matches Err(e)
                    &&& e@ == reply::error_reply(UNPROCESSABLE_ENTITY, "no_file_field"@)
                    &&& final(self)@ == old(self)@
                },
                FirstField::File { raw_filename, content_type } => match r {
                    Err(e) => {
                        &&& old(self)@.uploads.limit_error(pairing_id) matches Some(limit)
                        &&& e@ == reply::error_reply(TOO_MANY_REQUESTS, limit_code(limit))
                        &&& final(self)@ == old(self)@
                    },
                    Ok(job) => {
                        &&& old(self)@.uploads.limit_error(pairing_id) is None
                        &&& ids::is_random_id(job.file_id)
                        &&& exists|base: Seq<char>| #[trigger]
                            names::is_base_of(raw_filename@, base) && job.file_name@
                                == names::stored_name(base, job.file_id)
                        &&& job.raw_filename@ == raw_filename@
                        &&& match content_type {
                            Some(t) => job.mime_type@ == t@,
                            None => exists|base: Seq<char>| #[trigger]
                                names::is_base_of(raw_filename@, base) && job.mime_type@
                                    == mime_of_ext(names::ext_of(names::stored_name(base, 0))),
                        }
                        &&& is_dispatch(old(self)@, pairing_id, job.mode, job.client_tx)
                        &&& final(self)@ == (StateView {
                            uploads: old(self)@.uploads.begin(
                                job.file_id,
                                old(self)@.uploads.incoming(
                                    pairing_id,
                                    job.file_access_token@,
                                    job.file_name@,
                                    raw_filename@,
                                    job.mime_type@,
                                    now,
                                ),
                            ),
                            ..old(self)@
                        })
                    },
                },
            },
    {
        let (raw_filename, content_type) = match field {
            FirstField::Unreadable => {
                return Err(error_json(INTERNAL_SERVER_ERROR, "internal_error"));
            },
            FirstField::Missing => {
                return Err(error_json(UNPROCESSABLE_ENTITY, "no_file_field"));
            },
            FirstField::File { raw_filename, content_type } => (raw_filename, content_type),
        };
        let mime_type = upload_mime_type(content_type, raw_filename);
        let (file_id, file_access_token, file_name) = match self.upload_store.begin_upload(
            pairing_id,
            raw_filename,
            mime_type.clone(),
            now,
        ) {
            Ok(v) => v,
            Err(SaveFileError::Limit(limit)) => {
                return Err(limit_reply(limit));
            },
            Err(_) => {
                return Err(error_json(INTERNAL_SERVER_ERROR, "internal_error"));
            },
        };
        let client = current_client_tx(&self.store, &self.pairing_store, pairing_id);
        let (mode, client_tx) = match client {
            Some((tx, caps)) => (select_upload_dispatch_mode(Some(caps)), Some(tx)),
            None => (select_upload_dispatch_mode(None), None),
        };
        Ok(
            UploadJob {
                file_id,
                file_access_token,
                file_name,
                raw_filename: string_of(&chars_of(raw_filename)),
                mime_type,
                mode,
                client_tx,
            },
        )
    }

    /// Opens the stream of a file that is passed on while it comes in. Returns the event for the PC
    /// client; where a stream over HTTP is there already, the upload is taken back.
    pub fn begin_streaming(&mut self, job: &UploadJob, pairing_id: Id, channel: u64) -> (r: Result<
        Event,
        Reply,
    >)
        ensures
            if job.mode == UploadDispatchMode::HttpStreaming
                && old(self)@.uploads.streams.contains_key(job.file_id) {
                &&& r matches Err(e)
                &&& e@ == reply::error_reply(INTERNAL_SERVER_ERROR, "internal_error"@)
                &&& final(self)@ == (StateView {
                    uploads: old(self)@.uploads.rollback(job.file_id, pairing_id),
                    ..old(self)@
                })
            } else {
                &&& r matches Ok(event)
                &&& event@ == file_event(
                    old(self).config.public_base_url@,
                    job.file_id,
                    job.mode,
                    job.file_name@,
                    job.mime_type@,
                    0,
                    Seq::empty(),
                    job.file_access_token@,
                )
                &&& final(self)@ == (StateView {
                    uploads: StoreView {
                        streams: old(self)@.uploads.streams.insert(
                            job.file_id,
                            upload_store::StreamSlot { channel, attached: false },
                        ),
                        ..old(self)@.uploads
                    },
                    ..old(self)@
                })
            },
    {
        if job.mode == UploadDispatchMode::HttpStreaming {
            if self.upload_store.sender(job.file_id).is_some() {
                self.upload_store.rollback_upload(job.file_id, pairing_id);
                return Err(error_json(INTERNAL_SERVER_ERROR, "internal_error"));
            }
        }
        self.upload_store.create_streaming_state(job.file_id, channel);
        let empty = String::new();
        let event = file_received_event(
            &self.config.public_base_url,
            job.file_id,
            job.mode,
            &job.file_name,
            &job.mime_type,
            0,
            &empty,
            &job.file_access_token,
        );
        assert(empty@ =~= Seq::empty());
        Ok(event)
    }

    /// An upload that was passed on while it came in has failed: it is taken back. Returns the reply,
    /// and the channel by which the PC is to be told. It is not told where it was given up before, nor
    /// over the event connection where that was what failed.
    pub fn fail_streaming(
        &mut self,
        job: &UploadJob,
        pairing_id: Id,
        aborted: bool,
        fault: UploadFault,
    ) -> (r: (Reply, Option<u64>))
        ensures
            r.0@ == reply::error_reply(fault.status(), fault.code()),
            r.1 == (if aborted || (fault == UploadFault::NotifyFailed && job.mode
                == UploadDispatchMode::Streaming) || !old(self)@.uploads.streams.contains_key(
                job.file_id,
            ) {
                None
            } else {
                Some(old(self)@.uploads.streams[job.file_id].channel)
            }),
            final(self)@ == (StateView {
                uploads: old(self)@.uploads.rollback(job.file_id, pairing_id),
                ..old(self)@
            }),
    {
        let unheard = fault == UploadFault::NotifyFailed && job.mode
            == UploadDispatchMode::Streaming;
        let channel = if aborted || unheard {
            None
        } else {
            self.upload_store.sender(job.file_id)
        };
        self.upload_store.rollback_upload(job.file_id, pairing_id);
        (fault.reply(), channel)
    }

    /// An upload that was passed on while it came in is complete, and lies under its final name. The
    /// PC has been told of it from the start. Returns the reply, and the channel by which the PC is
    /// to be sent the digest, unless it was given up. A stream over HTTP is closed, so that whoever
    /// asks for it from now on is sent to the stored file.
    pub fn finish_streaming(
        &mut self,
        job: &UploadJob,
        aborted: bool,
        final_path: String,
        total_bytes: u64,
        sha256: [u8; 32],
    ) -> (r: (Reply, Option<u64>))
        ensures
            ({
                let done = old(self)@.uploads.complete(
                    job.file_id,
                    FileStatus::Notified,
                    final_path@,
                    total_bytes,
                    pairing::hex_of(sha256@),
                );
                &&& final(self)@ == (StateView {
                    uploads: if job.mode == UploadDispatchMode::HttpStreaming {
                        StoreView { streams: done.streams.remove(job.file_id), ..done }
                    } else {
                        done
                    },
                    ..old(self)@
                })
                &&& r.0@ == uploaded_reply(
                    job.file_id,
                    job.raw_filename@,
                    job.mime_type@,
                    total_bytes,
                    pairing::hex_of(sha256@),
                )
                &&& r.1 == (if aborted || !old(self)@.uploads.streams.contains_key(job.file_id) {
                    None
                } else {
                    Some(old(self)@.uploads.streams[job.file_id].channel)
                })
            }),
    {
        let channel = if aborted {
            None
        } else {
            self.upload_store.sender(job.file_id)
        };
        self.upload_store.mark_streaming_done(job.file_id, final_path, total_bytes, sha256);
        if job.mode == UploadDispatchMode::HttpStreaming {
            self.upload_store.remove_streaming_state(job.file_id);
        }
        let body = Body::Uploaded {
            file_id: id_string(job.file_id),
            file_name: job.raw_filename.clone(),
            mime_type: job.mime_type.clone(),
            size_bytes: total_bytes,
            sha256: encode_hex(&sha256),
        };
        (reply::reply(OK, body), channel)
    }

    /// An upload that is passed on once it is stored has ended. Where it was stored and the PC may
    /// be told, the event for the PC client is returned, and [`AppState::relay_notified`] is to hear
    /// whether it was sent; where the PC is not connected the file waits for it, and
    /// [`AppState::pending_notices`] tells it of the file once it is.
    pub fn handle_upload_relay(
        &mut self,
        job: &UploadJob,
        pairing_id: Id,
        saved: Result<(), SaveFileError>,
    ) -> (r: (Reply, Option<Notice>))
        ensures
            match saved {
                Err(e) => {
                    &&& r.0@ == save_error_reply(e)
                    &&& r.1 is None
                    &&& final(self)@ == old(self)@
                },
                Ok(()) => if !old(self)@.uploads.files.contains_key(job.file_id) {
                    &&& r.0@ == reply::error_reply(INTERNAL_SERVER_ERROR, "internal_error"@)
                    &&& r.1 is None
                    &&& final(self)@ == old(self)@
                } else {
                    let file = old(self)@.uploads.files[job.file_id];
                    &&& r.0@ == uploaded_reply(
                        job.file_id,
                        job.raw_filename@,
                        file.mime_type,
                        file.size_bytes,
                        file.sha256,
                    )
                    &&& if old(self)@.uploads.can_notify(job.file_id, pairing_id) {
                        &&& ws::tells_client(
                            old(self)@.sessions,
                            old(self)@.pairings,
                            pairing_id,
                            file_event(
                                old(self).config.public_base_url@,
                                job.file_id,
                                UploadDispatchMode::Relay,
                                job.file_name@,
                                file.mime_type,
                                file.size_bytes,
                                file.sha256,
                                job.file_access_token@,
                            ),
                            r.1,
                        )
                        &&& final(self)@ == (StateView {
                            uploads: if r.1 is None {
                                old(self)@.uploads
                            } else {
                                old(self)@.uploads.with_status(job.file_id, FileStatus::Notifying)
                            },
                            ..old(self)@
                        })
                    } else {
                        r.1 is None && final(self)@ == old(self)@
                    }
                },
            },
    {
        match saved {
            Err(SaveFileError::Timeout) => {
                return (error_json(REQUEST_TIMEOUT, "upload_timeout"), None);
            },
            Err(SaveFileError::TooLarge) => {
                return (error_json(PAYLOAD_TOO_LARGE, "file_too_large"), None);
            },
            Err(SaveFileError::Limit(limit)) => {
                return (limit_reply(limit), None);
            },
            Err(SaveFileError::Io(_)) => {
                return (error_json(INTERNAL_SERVER_ERROR, "internal_error"), None);
            },
            Ok(()) => {},
        }
        let meta = match self.upload_store.get_file_meta(job.file_id) {
            Some(meta) => meta,
            None => {
                return (error_json(INTERNAL_SERVER_ERROR, "internal_error"), None);
            },
        };
        let body = Body::Uploaded {
            file_id: id_string(job.file_id),
            file_name: job.raw_filename.clone(),
            mime_type: meta.mime_type.clone(),
            size_bytes: meta.size_bytes,
            sha256: meta.sha256.clone(),
        };
        let done = reply::reply(OK, body);
        let client_tx = match current_client_tx(&self.store, &self.pairing_store, pairing_id) {
            Some((client_tx, _caps)) => client_tx,
            None => {
                return (done, None);
            },
        };
        if !self.upload_store.begin_notifying(job.file_id, pairing_id) {
            return (done, None);
        }
        let event = file_received_event(
            &self.config.public_base_url,
            job.file_id,
            UploadDispatchMode::Relay,
            &job.file_name,
            &meta.mime_type,
            meta.size_bytes,
            &meta.sha256,
            &job.file_access_token,
        );
        (done, Some(Notice { client_tx, event: plain_event(event) }))
    }

    /// Whether the PC client was sent the event of a stored file: then it waits to be fetched, else it
    /// is dropped, and its path is returned.
    pub fn relay_notified(&mut self, file_id: Id, sent: bool) -> (r: Option<String>)
        ensures
            final(self)@ == (StateView {
                uploads: if !sent {
                    old(self)@.uploads.drop_file(file_id)
                } else if old(self)@.uploads.has_status(file_id, FileStatus::Notifying) {
                    old(self)@.uploads.with_status(file_id, FileStatus::Notified)
                } else {
                    old(self)@.uploads
                },
                ..old(self)@
            }),
            text::opt_chars(r) == (if !sent && old(self)@.uploads.files.contains_key(file_id) {
                Some(old(self)@.uploads.files[file_id].file_path)
            } else {
                None
            }),
    {
        if sent {
            self.upload_store.mark_notified(file_id);
            None
        } else {
            self.upload_store.mark_notify_failed(file_id)
        }
    }
}

/// The reply where a file was not saved.
pub open spec fn save_error_reply(e: SaveFileError) -> ReplyView {
    match e {
        SaveFileError::Timeout => reply::error_reply(REQUEST_TIMEOUT, "upload_timeout"@),
        SaveFileError::TooLarge => reply::error_reply(PAYLOAD_TOO_LARGE, "file_too_large"@),
        SaveFileError::Limit(limit) => reply::error_reply(TOO_MANY_REQUESTS, limit_code(limit)),
        SaveFileError::Io(_) => reply::error_reply(INTERNAL_SERVER_ERROR, "internal_error"@),
    }
}

/// The file that a caller may fetch, or why not: it must be known, and the caller must show its
/// secret. Nobody learns which of the two it was.
pub open spec fn file_access(
    v: StoreView,
    file_id: Seq<char>,
    authorization: Option<Seq<char>>,
) -> Result<Id, ReplyView> {
    match ids::uuid_parse(file_id) {
        None => Err(reply::error_reply(BAD_REQUEST, "invalid_file_id"@)),
        Some(id) => match reply::bearer_of(authorization) {
            Some(token) => if pairing::is_secret_text(token) && v.files.contains_key(id) && token
                == pairing::hex_of(v.files[id].file_access_token) {
                Ok(id)
            } else {
                Err(reply::error_reply(NOT_FOUND, "file_not_found"@))
            },
            None => Err(reply::error_reply(NOT_FOUND, "file_not_found"@)),
        },
    }
}

/// A byte as a percent sign and two capital hexadecimal digits.
pub open spec fn percent(b: u8) -> Seq<char> {
    seq!['%', upper_hex((b / 16) as nat), upper_hex((b % 16) as nat)]
}

/// The capital hexadecimal digit of a value below sixteen.
pub open spec fn upper_hex(d: nat) -> char {
    if d < 10 {
        (48 + d) as char
    } else {
        (55 + d) as char
    }
}

/// Bytes, each as a percent sign and two digits.
pub open spec fn percents(bytes: Seq<u8>) -> Seq<char>
    decreases bytes.len(),
{
    if bytes.len() == 0 {
        Seq::empty()
    } else {
        percents(bytes.drop_last()) + percent(bytes.last())
    }
}

/// The characters that stand for themselves in a header's extended value.
pub open spec fn is_plain(c: char) -> bool {
    'a' <= c <= 'z' || 'A' <= c <= 'Z' || '0' <= c <= '9' || c == '-' || c == '_' || c == '.' || c
        == '~'
}

/// A name as a header's extended value: plain characters as they are, the bytes of the others as
/// percent signs and digits.
pub open spec fn escaped(name: Seq<char>) -> Seq<char>
    decreases name.len(),
{
    if name.len() == 0 {
        Seq::empty()
    } else {
        escaped(name.drop_last()) + if is_plain(name.last()) {
            seq![name.last()]
        } else {
            percents(vstd::utf8::encode_utf8(seq![name.last()]))
        }
    }
}

fn upper_hex_char(d: u8) -> (r: char)
    requires
        d < 16,
    ensures
        r == upper_hex(d as nat),
{
    if d < 10 {
        (48 + d) as char
    } else {
        (55 + d) as char
    }
}

/// Appends bytes, each as a percent sign and two digits.
fn push_percents(out: &mut String, bytes: &[u8])
    ensures
        final(out)@ == old(out)@ + percents(bytes@),
{
    let ghost start = out@;
    assert(bytes@.take(0) =~= Seq::empty());
    for i in 0..bytes.len()
        invariant
            out@ == start + percents(bytes@.take(i as int)),
    {
        let b = bytes[i];
        out.push('%');
        out.push(upper_hex_char(b / 16));
        out.push(upper_hex_char(b % 16));
        proof {
            assert(bytes@.take(i as int + 1).drop_last() =~= bytes@.take(i as int));
            assert(out@ =~= start + (percents(bytes@.take(i as int)) + percent(b)));
        }
    }
    assert(bytes@.take(bytes@.len() as int) =~= bytes@);
}

/// A name as a header's extended value.
pub fn escape_file_name(name: &str) -> (r: String)
    ensures
        r@ == escaped(name@),
{
    let cs = chars_of(name);
    let mut out = String::new();
    assert(cs@.take(0) =~= Seq::empty());
    for i in 0..cs.len()
        invariant
            out@ == escaped(cs@.take(i as int)),
    {
        let c = cs[i];
        proof {
            assert(cs@.take(i as int + 1).drop_last() =~= cs@.take(i as int));
        }
        let plain = ('a' <= c && c <= 'z') || ('A' <= c && c <= 'Z') || ('0' <= c && c <= '9') || c
            == '-' || c == '_' || c == '.' || c == '~';
        if plain {
            out.push(c);
            assert(out@ =~= escaped(cs@.take(i as int)) + seq![c]);
        } else {
            let mut one = String::new();
            one.push(c);
            assert(one@ =~= seq![c]);
            push_percents(&mut out, one.as_str().as_bytes());
        }
    }
    assert(cs@.take(cs@.len() as int) =~= cs@);
    out
}

/// How opening a stored file went.
#[derive(Debug, Clone, Copy, PartialEq, Eq, Structural)]
pub enum Opened {
    /// It is open.
    Open,
    /// It is not there.
    Missing,
    /// It could not be opened.
    Failed,
}

/// The reply with a stored file.
pub open spec fn file_reply(file: FileView) -> ReplyView {
    let base = seq![
        ("content-disposition"@, "attachment; filename*=UTF-8''"@ + escaped(file.file_name)),
        ("content-type"@, file.mime_type),
        ("cache-control"@, "no-store, private"@),
    ];
    ReplyView {
        status: OK,
        headers: if (file.status == FileStatus::StoredUnnotified || file.status
            == FileStatus::Notified) && file.sha256.len() > 0 && reply::header_text(file.sha256) {
            base.push(("x-file-sha256"@, file.sha256))
        } else {
            base
        },
        body: BodyView::File { path: file.file_path },
    }
}

/// The answer to one attempt to follow a stream.
#[derive(Debug)]
pub enum StreamAttach {
    /// What comes out of the channel is the answer.
    Attached(Reply),
    /// The attempt is refused.
    Refused(Reply),
    /// The stream is not there yet: try again.
    Again,
}

/// What is done for a caller that wants to follow a stream.
#[derive(Debug)]
pub enum StreamFollow {
    /// This is the answer.
    Answer(Reply),
    /// Try again after so many milliseconds.
    Again { after_ms: u64 },
}

/// The reply with a stream.
pub open spec fn stream_reply(channel: u64) -> ReplyView {
    ReplyView {
        status: OK,
        headers: seq![
            ("content-type"@, "application/octet-stream"@),
            ("cache-control"@, "no-store, private"@),
        ],
        body: BodyView::Stream { channel },
    }
}

/// The reply to whoever asks too late for a stream: where the file stands complete, where to fetch
/// it and its digest.
pub open spec fn late_reply(v: StateView, file_id: Id) -> ReplyView {
    if !v.uploads.files.contains_key(file_id) {
        reply::error_reply(NOT_FOUND, "file_not_found"@)
    } else {
        let file = v.uploads.files[file_id];
        if file.status != FileStatus::StoredUnnotified && file.status != FileStatus::Notified {
            reply::error_reply(NOT_FOUND, "file_not_found"@)
        } else if file.sha256.len() == 0 || !reply::header_text(file.sha256)
            || !reply::header_text(file_url(v.config.public_base_url@, file_id)) {
            reply::error_reply(INTERNAL_SERVER_ERROR, "internal_error"@)
        } else {
            ReplyView {
                status: FOUND,
                headers: seq![
                    ("location"@, file_url(v.config.public_base_url@, file_id)),
                    ("x-file-sha256"@, file.sha256),
                ],
                body: BodyView::Empty,
            }
        }
    }
}

impl AppState {
    /// The file that a caller may fetch, or why not.
    pub fn check_file_access(&self, file_id: &str, authorization: Option<&str>) -> (r: Result<
        (Id, FileMetaSnapshot),
        Reply,
    >)
        ensures
            match r {
                Ok((id, meta)) => {
                    &&& file_access(self@.uploads, file_id@, config::opt_str(authorization)) == Ok::<
                        Id,
                        ReplyView,
                    >(id)
                    &&& self@.uploads.files.contains_key(id)
                    &&& meta.shows(self@.uploads.files[id])
                },
                Err(e) => file_access(self@.uploads, file_id@, config::opt_str(authorization))
                    == Err::<Id, ReplyView>(e@),
            },
    {
        let id = match parse_id(file_id) {
            Some(id) => id,
            None => {
                return Err(error_json(BAD_REQUEST, "invalid_file_id"));
            },
        };
        let token = match bearer_token(authorization) {
            Some(token) => token,
            None => {
                return Err(error_json(NOT_FOUND, "file_not_found"));
            },
        };
        let provided = match decode_hex_32(&token) {
            Ok(provided) => provided,
            Err(()) => {
                return Err(error_json(NOT_FOUND, "file_not_found"));
            },
        };
        let meta = match self.upload_store.get_file_meta(id) {
            Some(meta) => meta,
            None => {
                return Err(error_json(NOT_FOUND, "file_not_found"));
            },
        };
        proof {
            if token@ == pairing::hex_of(meta.file_access_token@) {
                pairing::lemma_hex_injective(provided@, meta.file_access_token@);
            }
        }
        if !same_bytes(&provided, &meta.file_access_token) {
            return Err(error_json(NOT_FOUND, "file_not_found"));
        }
        Ok((id, meta))
    }

    /// The reply with a stored file that the caller may fetch, once it was opened.
    pub fn handle_file_download(meta: &FileMetaSnapshot, opened: Opened) -> (r: Reply)
        ensures
            forall|file: FileView| #[trigger]
                meta.shows(file) ==> r@ == (if opened == Opened::Missing {
                    reply::error_reply(NOT_FOUND, "file_not_found"@)
                } else if opened == Opened::Failed || !reply::header_text(
                    "attachment; filename*=UTF-8''"@ + escaped(file.file_name),
                ) || !reply::header_text(file.mime_type) {
                    reply::error_reply(INTERNAL_SERVER_ERROR, "internal_error"@)
                } else {
                    file_reply(file)
                }),
    {
        match opened {
            Opened::Missing => {
                return error_json(NOT_FOUND, "file_not_found");
            },
            Opened::Failed => {
                return error_json(INTERNAL_SERVER_ERROR, "internal_error");
            },
            Opened::Open => {},
        }
        let mut disposition = string_of(&chars_of("attachment; filename*=UTF-8''"));
        push_chars(&mut disposition, &chars_of(&escape_file_name(&meta.file_name)));
        if !is_header_value(&disposition) || !is_header_value(&meta.mime_type) {
            return error_json(INTERNAL_SERVER_ERROR, "internal_error");
        }
        let mut headers: Vec<Header> = Vec::new();
        assert(reply::header_views(headers@) =~= Seq::empty());
        add_header(&mut headers, "content-disposition", &disposition);
        add_header(&mut headers, "content-type", &meta.mime_type);
        add_header(&mut headers, "cache-control", "no-store, private");
        let complete = meta.status == FileStatus::StoredUnnotified || meta.status
            == FileStatus::Notified;
        if complete && !chars_of(&meta.sha256).is_empty() && is_header_value(&meta.sha256) {
            add_header(&mut headers, "x-file-sha256", &meta.sha256);
        }
        let r = Reply { status: OK, headers, body: Body::File { path: meta.file_path.clone() } };
        proof {
            assert forall|file: FileView| #[trigger] meta.shows(file) implies r@ == file_reply(
                file,
            ) by {
                assert(r@.headers =~= file_reply(file).headers);
            }
        }
        r
    }

    /// One attempt of a caller that may fetch the file to follow its stream.
    pub fn handle_stream_download(&mut self, file_id: Id) -> (r: StreamAttach)
        ensures
            match old(self)@.uploads.attach_result(file_id) {
                Ok(channel) => r matches StreamAttach::Attached(a) && a@ == stream_reply(channel),
                Err(AttachError::AlreadyAttached) => r matches StreamAttach::Refused(e) && e@
                    == reply::error_reply(CONFLICT, "stream_already_attached"@),
                Err(AttachError::NotFound) => r is Again,
            },
            final(self)@ == (StateView {
                uploads: old(self)@.uploads.attach(file_id),
                ..old(self)@
            }),
    {
        match self.upload_store.attach_stream(file_id) {
            Ok(channel) => {
                let mut headers: Vec<Header> = Vec::new();
                assert(reply::header_views(headers@) =~= Seq::empty());
                add_header(&mut headers, "content-type", "application/octet-stream");
                add_header(&mut headers, "cache-control", "no-store, private");
                let r = Reply { status: OK, headers, body: Body::Stream { channel } };
                assert(r@.headers =~= stream_reply(channel).headers);
                StreamAttach::Attached(r)
            },
            Err(AttachError::AlreadyAttached) => StreamAttach::Refused(
                error_json(CONFLICT, "stream_already_attached"),
            ),
            Err(AttachError::NotFound) => StreamAttach::Again,
        }
    }

    /// The reply to a caller whose attempts to follow a stream are used up.
    pub fn late_attach_reply(&self, file_id: Id) -> (r: Reply)
        ensures
            r@ == late_reply(self@, file_id),
    {
        let meta = match self.upload_store.get_file_meta(file_id) {
            Some(meta) => meta,
            None => {
                return error_json(NOT_FOUND, "file_not_found");
            },
        };
        match resolve_late_attach_outcome(Some(meta.status)) {
            LateAttachOutcome::NotFound => error_json(NOT_FOUND, "file_not_found"),
            LateAttachOutcome::RedirectToDownload => {
                if chars_of(&meta.sha256).is_empty() || !is_header_value(&meta.sha256) {
                    return error_json(INTERNAL_SERVER_ERROR, "internal_error");
                }
                let url = file_url_string(&self.config.public_base_url, file_id);
                if !is_header_value(&url) {
                    return error_json(INTERNAL_SERVER_ERROR, "internal_error");
                }
                let mut headers: Vec<Header> = Vec::new();
                assert(reply::header_views(headers@) =~= Seq::empty());
                add_header(&mut headers, "location", &url);
                add_header(&mut headers, "x-file-sha256", &meta.sha256);
                let r = Reply { status: FOUND, headers, body: Body::Empty };
                assert(r@.headers =~= late_reply(self@, file_id).headers);
                r
            },
        }
    }

    /// What is done for a caller that may fetch the file and has tried so often to follow its stream:
    /// a stream that is not there yet is asked for again after a while, until the attempts are used
    /// up; then the answer is that of whoever comes too late.
    pub fn follow_stream(&mut self, file_id: Id, tries: u32) -> (r: StreamFollow)
        ensures
            if tries >= MAX_ATTACH_RETRIES {
                &&& r matches StreamFollow::Answer(a) && a@ == late_reply(old(self)@, file_id)
                &&& final(self)@ == old(self)@
            } else {
                &&& match old(self)@.uploads.attach_result(file_id) {
                    Ok(channel) => r matches StreamFollow::Answer(a) && a@ == stream_reply(
                        channel,
                    ),
                    Err(AttachError::AlreadyAttached) => r matches StreamFollow::Answer(e) && e@
                        == reply::error_reply(CONFLICT, "stream_already_attached"@),
                    Err(AttachError::NotFound) => r == (StreamFollow::Again {
                        after_ms: ATTACH_RETRY_INTERVAL_MS,
                    }),
                }
                &&& final(self)@ == (StateView {
                    uploads: old(self)@.uploads.attach(file_id),
                    ..old(self)@
                })
            },
    {
        if tries >= MAX_ATTACH_RETRIES {
            return StreamFollow::Answer(self.late_attach_reply(file_id));
        }
        match self.handle_stream_download(file_id) {
            StreamAttach::Attached(reply) => StreamFollow::Answer(reply),
            StreamAttach::Refused(reply) => StreamFollow::Answer(reply),
            StreamAttach::Again => StreamFollow::Again { after_ms: ATTACH_RETRY_INTERVAL_MS },
        }
    }

    /// The PC is done with a file, and says whether it has it. `success` is missing where its word
    /// could not be read. The file is dropped either way, and its path is returned; a file that is
    /// not known was dropped before.
    pub fn handle_file_ack(
        &mut self,
        body_len: usize,
        file_id: &str,
        authorization: Option<&str>,
        success: Option<bool>,
    ) -> (r: (Reply, Option<String>))
        ensures
            match ack_error(
                old(self)@.uploads,
                body_len,
                file_id@,
                config::opt_str(authorization),
                success,
            ) {
                Some((status, code)) => {
                    &&& r.0@ == reply::error_reply(status, code)
                    &&& r.1 is None
                    &&& final(self)@ == old(self)@
                },
                None => {
                    let id = ids::uuid_parse(file_id@)->0;
                    let known = old(self)@.uploads.files.contains_key(id);
                    &&& r.0@ == reply::plain_reply(OK, BodyView::Done)
                    &&& text::opt_chars(r.1) == (if known {
                        Some(old(self)@.uploads.files[id].file_path)
                    } else {
                        None
                    })
                    &&& final(self)@ == (StateView {
                        uploads: if known {
                            old(self)@.uploads.remove(id)
                        } else {
                            old(self)@.uploads
                        },
                        ..old(self)@
                    })
                },
            },
    {
        if body_len > MAX_SMALL_BODY {
            return (error_json(PAYLOAD_TOO_LARGE, "payload_too_large"), None);
        }
        let id = match parse_id(file_id) {
            Some(id) => id,
            None => {
                return (error_json(BAD_REQUEST, "invalid_file_id"), None);
            },
        };
        let token = match bearer_token(authorization) {
            Some(token) => token,
            None => {
                return (error_json(NOT_FOUND, "file_not_found"), None);
            },
        };
        let provided = match decode_hex_32(&token) {
            Ok(provided) => provided,
            Err(()) => {
                return (error_json(NOT_FOUND, "file_not_found"), None);
            },
        };
        let mut path: Option<String> = None;
        if let Some(meta) = self.upload_store.get_file_meta(id) {
            proof {
                if token@ == pairing::hex_of(meta.file_access_token@) {
                    pairing::lemma_hex_injective(provided@, meta.file_access_token@);
                }
            }
            if !same_bytes(&provided, &meta.file_access_token) {
                return (error_json(NOT_FOUND, "file_not_found"), None);
            }
            if success.is_none() {
                return (error_json(BAD_REQUEST, "invalid_format"), None);
            }
            path = self.upload_store.remove_file(id);
        }
        (reply::reply(OK, Body::Done), path)
    }
}

/// Why the PC's word on a file is refused.
pub open spec fn ack_error(
    v: StoreView,
    body_len: usize,
    file_id: Seq<char>,
    authorization: Option<Seq<char>>,
    success: Option<bool>,
) -> Option<(u16, Seq<char>)> {
    if body_len > MAX_SMALL_BODY {
        Some((PAYLOAD_TOO_LARGE, "payload_too_large"@))
    } else {
        match ids::uuid_parse(file_id) {
            None => Some((BAD_REQUEST, "invalid_file_id"@)),
            Some(id) => match reply::bearer_of(authorization) {
                None => Some((NOT_FOUND, "file_not_found"@)),
                Some(token) => if !pairing::is_secret_text(token) {
                    Some((NOT_FOUND, "file_not_found"@))
                } else if !v.files.contains_key(id) {
                    None
                } else if token != pairing::hex_of(v.files[id].file_access_token) {
                    Some((NOT_FOUND, "file_not_found"@))
                } else if success is None {
                    Some((BAD_REQUEST, "invalid_format"@))
                } else {
                    None
                },
            },
        }
    }
}

/// What one item of a stream adds to the body of the reply, and whether more may follow: data is
/// passed on, the digest is the end of the body, and a stream that is broken off just ends.
pub fn stream_piece(item: Option<StreamItem>) -> (r: (Option<Vec<u8>>, bool))
    ensures
        match item {
            Some(StreamItem::Data(bytes)) => r.0 == Some(bytes) && r.1,
            Some(StreamItem::End { sha256 }) => (r.0 matches Some(b) && b@ == sha256@) && !r.1,
            _ => r.0 is None && !r.1,
        },
{
    match item {
        Some(StreamItem::Data(bytes)) => (Some(bytes), true),
        Some(StreamItem::End { sha256 }) => (
            Some(vstd::slice::slice_to_vec(sha256.as_slice())),
            false,
        ),
        _ => (None, false),
    }
}

/// The body that the items of a stream make.
pub open spec fn stream_body(items: Seq<StreamItem>) -> Seq<u8>
    decreases items.len(),
{
    if items.len() == 0 {
        Seq::empty()
    } else {
        match items[0] {
            StreamItem::Data(bytes) => bytes@ + stream_body(items.drop_first()),
            StreamItem::End { sha256 } => sha256@,
            StreamItem::Abort { reason } => Seq::empty(),
        }
    }
}

/// The bytes of chunks, one after the other.
pub open spec fn joined_chunks(chunks: Seq<Seq<u8>>) -> Seq<u8>
    decreases chunks.len(),
{
    if chunks.len() == 0 {
        Seq::empty()
    } else {
        chunks[0] + joined_chunks(chunks.drop_first())
    }
}

/// A stream that carries a whole file has the file's bytes and then their digest for its body,
/// however the file was cut into chunks.
pub proof fn law_stream_body(items: Seq<StreamItem>, chunks: Seq<Seq<u8>>, sha256: [u8; 32])
    requires
        items.len() == chunks.len() + 1,
        forall|i: int|
            0 <= i < chunks.len() ==> (#[trigger] items[i] matches StreamItem::Data(b) && b@
                == chunks[i]),
        items.last() == (StreamItem::End { sha256 }),
    ensures
        stream_body(items) == joined_chunks(chunks) + sha256@,
    decreases chunks.len(),
{
    if chunks.len() == 0 {
        assert(joined_chunks(chunks) + sha256@ =~= sha256@);
    } else {
        let rest = items.drop_first();
        let less = chunks.drop_first();
        assert forall|i: int| 0 <= i < less.len() implies (#[trigger] rest[i] matches StreamItem::Data(
            b,
        ) && b@ == less[i]) by {
            assert(rest[i] == items[i + 1]);
        }
        assert(items[0] matches StreamItem::Data(b) && b@ == chunks[0]);
        law_stream_body(rest, less, sha256);
        assert(stream_body(items) =~= joined_chunks(chunks) + sha256@);
    }
}

/// A file is fetched, followed and acknowledged only with its own secret.
pub proof fn law_file_needs_its_secret(
    v: StoreView,
    file_id: Seq<char>,
    authorization: Option<Seq<char>>,
    body_len: usize,
    success: Option<bool>,
    id: Id,
)
    requires
        ids::uuid_parse(file_id) == Some(id),
        v.files.contains_key(id),
        reply::bearer_of(authorization) != Some(pairing::hex_of(v.files[id].file_access_token)),
    ensures
        file_access(v, file_id, authorization) == Err::<Id, ReplyView>(
            reply::error_reply(NOT_FOUND, "file_not_found"@),
        ),
        ack_error(v, body_len, file_id, authorization, success) is Some,
{
}

} // verus!
