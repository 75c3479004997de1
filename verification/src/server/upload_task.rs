//! An upload that is passed on to the PC while it comes in, step by step.
//!
//! The caller owns the request, the file and the channels. It says what came of the last action, and
//! does what it is told next.

use crate::client::download;
use crate::digest;
use crate::events::plain_event;
use crate::ids::Id;
use crate::server::pairing;
use crate::server::reply;
use crate::server::reply::{error_json, Reply, TOO_MANY_REQUESTS};
use crate::server::upload;
use crate::server::upload::{Intake, IntakeView, UploadDispatchMode, UploadFault, UploadJob};
use crate::server::upload_laws;
use crate::server::upload_store;
use crate::server::upload_store::{
    Delivery, FileStatus, FileView, SendChunkResult, StoreView, StreamItem,
};
use crate::server::web::{AppState, Notice, StateView};
use crate::text::{chars_of, string_of};
use vstd::prelude::*;

verus! {

/// Where an upload stands.
#[derive(Debug, Clone, Copy, PartialEq, Eq, Structural)]
pub enum UploadStage {
    /// The PC client is being told.
    Announcing,
    /// The file is being created.
    Creating,
    /// Bytes are coming in.
    Receiving,
    /// A chunk is being written.
    Writing,
    /// A chunk is being sent on.
    Sending,
    /// The last bytes are being written.
    Flushing,
    /// The file is getting its final name.
    Renaming,
}

/// What came of the last action.
#[derive(Debug)]
pub enum UploadEvent<'a> {
    /// The PC client was told, or could not be.
    Announced(bool),
    /// The file was created, or could not be.
    Created(bool),
    /// More bytes came in.
    Chunk(&'a [u8]),
    /// All bytes have come in.
    End,
    /// The bytes could not be read.
    ReadFailed,
    /// The bytes came too slowly.
    TimedOut,
    /// The chunk was written, or could not be.
    Written(bool),
    /// What became of the chunk that was sent on.
    Sent(Delivery),
    /// The last bytes were written, or could not be.
    Flushed(bool),
    /// The path of the file under its final name; nothing where it did not get it.
    Renamed(Option<String>),
}

/// What is to be done next.
#[derive(Debug)]
pub enum UploadAction {
    /// Create the file.
    Create,
    /// Read more bytes.
    Read,
    /// Write the chunk.
    Write,
    /// Send the chunk on by this channel.
    SendOn(u64),
    /// Give the PC up, for this reason, tell it by this channel if there is one, and read more bytes.
    GiveUp { channel: Option<u64>, reason: &'static str },
    /// Write the last bytes.
    Flush,
    /// Give the file its final name.
    Rename,
    /// Nothing more but this: write what can be written, remove the file, tell the PC, and answer.
    Finish { flush: bool, remove: bool, tell: Option<(u64, StreamItem)>, reply: Reply },
    /// Nothing: that could not come of the last action.
    Ignore,
}

/// An upload that is passed on while it comes in.
pub struct StreamingUpload {
    /// The upload.
    pub job: UploadJob,
    /// Its pairing.
    pub pairing_id: Id,
    /// Where it stands.
    pub stage: UploadStage,
    /// What has come in.
    pub intake: Intake,
}

/// The channel of a file's stream, if it has one.
pub open spec fn channel_of(v: StateView, file_id: Id) -> Option<u64> {
    if v.uploads.streams.contains_key(file_id) {
        Some(v.uploads.streams[file_id].channel)
    } else {
        None
    }
}

/// The state after an upload was taken back.
pub open spec fn taken_back(v: StateView, job: UploadJob, pairing_id: Id) -> StateView {
    StateView { uploads: v.uploads.rollback(job.file_id, pairing_id), ..v }
}

/// Is this the end of an upload that failed? The PC is told, unless it was given up before, or cannot
/// be told over the event connection since that is what failed.
pub open spec fn is_failure(
    v: StateView,
    task: StreamingUpload,
    fault: UploadFault,
    action: UploadAction,
) -> bool {
    let unheard = fault == UploadFault::NotifyFailed && task.job.mode
        == UploadDispatchMode::Streaming;
    &&& action matches UploadAction::Finish { flush, remove, tell, reply: answer }
    &&& flush == (fault == UploadFault::Timeout || fault == UploadFault::ReadError || fault
        == UploadFault::TooLarge)
    &&& remove == (fault != UploadFault::NotifyFailed && fault != UploadFault::TmpCreateFailed)
    &&& answer@ == reply::error_reply(fault.status(), fault.code())
    &&& match channel_of(v, task.job.file_id) {
        Some(channel) => if task.intake@.aborted || unheard {
            tell is None
        } else {
            tell matches Some((to, StreamItem::Abort { reason })) && to == channel && reason@
                == fault.reason()
        },
        None => tell is None,
    }
}

/// Is this the end of an upload that succeeded? The PC is sent the digest of all bytes that came in,
/// unless it was given up before.
pub open spec fn is_success(
    v: StateView,
    task: StreamingUpload,
    action: UploadAction,
) -> bool {
    let sha256 = digest::sha256_of(task.intake@.bytes);
    &&& action matches UploadAction::Finish { flush, remove, tell, reply: answer }
    &&& !flush
    &&& !remove
    &&& answer@ == upload::uploaded_reply(
        task.job.file_id,
        task.job.raw_filename@,
        task.job.mime_type@,
        task.intake@.total,
        pairing::hex_of(sha256),
    )
    &&& match channel_of(v, task.job.file_id) {
        Some(channel) => if task.intake@.aborted {
            tell is None
        } else {
            tell matches Some((to, StreamItem::End { sha256: sent })) && to == channel && sent@
                == sha256
        },
        None => tell is None,
    }
}

/// The state after an upload succeeded. A stream over HTTP is closed, so that whoever asks for it
/// from now on is sent to the stored file.
pub open spec fn succeeded(v: StateView, task: StreamingUpload, path: Seq<char>) -> StateView {
    let done = v.uploads.complete(
        task.job.file_id,
        FileStatus::Notified,
        path,
        task.intake@.total,
        pairing::hex_of(digest::sha256_of(task.intake@.bytes)),
    );
    StateView {
        uploads: if task.job.mode == UploadDispatchMode::HttpStreaming {
            StoreView { streams: done.streams.remove(task.job.file_id), ..done }
        } else {
            done
        },
        ..v
    }
}

/// Does the upload go on, at this stage, with these bytes?
pub open spec fn goes_on(
    task: StreamingUpload,
    next: Option<StreamingUpload>,
    stage: UploadStage,
    intake: IntakeView,
) -> bool {
    &&& next matches Some(n)
    &&& n.job == task.job
    &&& n.pairing_id == task.pairing_id
    &&& n.stage == stage
    &&& n.intake@ == intake
}

/// The fault that an event is at a stage, if it is one.
pub open spec fn fault_of(task: StreamingUpload, event: UploadEvent) -> Option<UploadFault> {
    match (task.stage, event) {
        (UploadStage::Announcing, UploadEvent::Announced(false)) => Some(
            UploadFault::NotifyFailed,
        ),
        (UploadStage::Creating, UploadEvent::Created(false)) => Some(UploadFault::TmpCreateFailed),
        (UploadStage::Receiving, UploadEvent::TimedOut) => Some(UploadFault::Timeout),
        (UploadStage::Receiving, UploadEvent::ReadFailed) => Some(UploadFault::ReadError),
        (UploadStage::Receiving, UploadEvent::Chunk(chunk)) => if task.intake@.take(chunk@).1 {
            None
        } else {
            Some(UploadFault::TooLarge)
        },
        (UploadStage::Writing, UploadEvent::Written(false)) => Some(UploadFault::IoError),
        (UploadStage::Flushing, UploadEvent::Flushed(false)) => Some(UploadFault::FlushError),
        (UploadStage::Renaming, UploadEvent::Renamed(None)) => Some(UploadFault::RenameFailed),
        _ => None,
    }
}

/// What a chunk's delivery means for the PC: the reason to give it up, if there is one.
pub open spec fn give_up_reason(v: StateView, file_id: Id, delivery: Delivery) -> Option<Seq<char>> {
    if channel_of(v, file_id) is None || delivery == Delivery::Closed {
        Some("disconnected"@)
    } else if delivery == Delivery::TimedOut {
        Some("backpressure_timeout"@)
    } else {
        None
    }
}

/// Is this what follows from an event: whether the upload goes on and how, the state, and what is to
/// be done next?
pub open spec fn is_step(
    v: StateView,
    task: StreamingUpload,
    event: UploadEvent,
    next: Option<StreamingUpload>,
    after: StateView,
    action: UploadAction,
) -> bool {
    let same = task.intake@;
    let gone = IntakeView { aborted: true, ..same };
    let id = task.job.file_id;
    match fault_of(task, event) {
        Some(fault) => {
            &&& next is None
            &&& is_failure(v, task, fault, action)
            &&& after == taken_back(v, task.job, task.pairing_id)
        },
        None => match (task.stage, event) {
            (UploadStage::Announcing, UploadEvent::Announced(_)) => {
                &&& goes_on(task, next, UploadStage::Creating, same)
                &&& action is Create
                &&& after == v
            },
            (UploadStage::Creating, UploadEvent::Created(_)) => {
                &&& goes_on(task, next, UploadStage::Receiving, same)
                &&& action is Read
                &&& after == v
            },
            (UploadStage::Receiving, UploadEvent::Chunk(chunk)) => {
                &&& goes_on(task, next, UploadStage::Writing, same.take(chunk@).0)
                &&& action is Write
                &&& after == v
            },
            (UploadStage::Receiving, UploadEvent::End) => {
                &&& goes_on(task, next, UploadStage::Flushing, same)
                &&& action is Flush
                &&& after == v
            },
            (UploadStage::Writing, UploadEvent::Written(_)) => {
                &&& after == v
                &&& if same.aborted {
                    &&& goes_on(task, next, UploadStage::Receiving, same)
                    &&& action is Read
                } else {
                    match channel_of(v, id) {
                        Some(channel) => {
                            &&& goes_on(task, next, UploadStage::Sending, same)
                            &&& action == UploadAction::SendOn(channel)
                        },
                        None => {
                            &&& goes_on(task, next, UploadStage::Receiving, gone)
                            &&& action matches UploadAction::GiveUp { channel, reason }
                            &&& channel is None
                            &&& reason@ == "disconnected"@
                        },
                    }
                }
            },
            (UploadStage::Sending, UploadEvent::Sent(delivery)) => {
                &&& after == v
                &&& match give_up_reason(v, id, delivery) {
                    Some(why) => {
                        &&& goes_on(task, next, UploadStage::Receiving, gone)
                        &&& action matches UploadAction::GiveUp { channel, reason }
                        &&& channel == channel_of(v, id)
                        &&& reason@ == why
                    },
                    None => {
                        &&& goes_on(task, next, UploadStage::Receiving, same)
                        &&& action is Read
                    },
                }
            },
            (UploadStage::Flushing, UploadEvent::Flushed(_)) => {
                &&& goes_on(task, next, UploadStage::Renaming, same)
                &&& action is Rename
                &&& after == v
            },
            (UploadStage::Renaming, UploadEvent::Renamed(Some(path))) => {
                &&& next is None
                &&& is_success(v, task, action)
                &&& after == succeeded(v, task, path@)
            },
            _ => {
                &&& goes_on(task, next, task.stage, same)
                &&& action is Ignore
                &&& after == v
            },
        },
    }
}

impl StreamingUpload {
    /// Opens the stream of an upload for a PC client that is connected by the channel `client_tx`.
    /// Returns the event for it; or the reply, where the pairing streams too much over HTTP already, or
    /// the file has such a stream: then the upload is taken back.
    pub fn open(
        state: &mut AppState,
        job: UploadJob,
        pairing_id: Id,
        client_tx: u64,
        channel: u64,
        permit: bool,
    ) -> (r: Result<(StreamingUpload, Notice), Reply>)
        ensures
            ({
                let http = job.mode == UploadDispatchMode::HttpStreaming;
                if http && !permit {
                    &&& r matches Err(e)
                    &&& e@ == reply::error_reply(TOO_MANY_REQUESTS, "too_many_uploads"@)
                    &&& final(state)@ == taken_back(old(state)@, job, pairing_id)
                } else if http && old(state)@.uploads.streams.contains_key(job.file_id) {
                    &&& r matches Err(e)
                    &&& e@ == reply::error_reply(reply::INTERNAL_SERVER_ERROR, "internal_error"@)
                    &&& final(state)@ == taken_back(old(state)@, job, pairing_id)
                } else {
                    &&& r matches Ok((task, notice))
                    &&& task.job == job
                    &&& task.pairing_id == pairing_id
                    &&& task.stage == UploadStage::Announcing
                    &&& task.intake@ == (IntakeView {
                        bytes: Seq::empty(),
                        total: 0,
                        max: old(state)@.uploads.limits.max_upload_size_bytes,
                        aborted: false,
                    })
                    &&& notice.client_tx == client_tx
                    &&& notice.event.is(
                        upload::file_event(
                            old(state).config.public_base_url@,
                            job.file_id,
                            job.mode,
                            job.file_name@,
                            job.mime_type@,
                            0,
                            Seq::empty(),
                            job.file_access_token@,
                        ),
                        Seq::empty(),
                    )
                    &&& final(state)@ == (StateView {
                        uploads: StoreView {
                            streams: old(state)@.uploads.streams.insert(
                                job.file_id,
                                upload_store::StreamSlot { channel, attached: false },
                            ),
                            ..old(state)@.uploads
                        },
                        ..old(state)@
                    })
                }
            }),
    {
        if job.mode == UploadDispatchMode::HttpStreaming && !permit {
            state.upload_store.rollback_upload(job.file_id, pairing_id);
            return Err(error_json(TOO_MANY_REQUESTS, "too_many_uploads"));
        }
        let max: u64 = state.upload_store.max_upload_size();
        match state.begin_streaming(&job, pairing_id, channel) {
            Err(e) => Err(e),
            Ok(event) => Ok(
                (
                    StreamingUpload {
                        job,
                        pairing_id,
                        stage: UploadStage::Announcing,
                        intake: Intake::new(max),
                    },
                    Notice { client_tx, event: plain_event(event) },
                ),
            ),
        }
    }

    /// The upload has failed.
    fn fail(self, state: &mut AppState, fault: UploadFault) -> (r: UploadAction)
        ensures
            is_failure(old(state)@, self, fault, r),
            final(state)@ == taken_back(old(state)@, self.job, self.pairing_id),
    {
        let aborted = !self.intake.follows();
        let (answer, channel) = state.fail_streaming(&self.job, self.pairing_id, aborted, fault);
        let tell = match channel {
            Some(to) => Some(
                (
                    to,
                    StreamItem::Abort { reason: string_of(&chars_of(fault.reason_str())) },
                ),
            ),
            None => None,
        };
        let flush = match fault {
            UploadFault::Timeout => true,
            UploadFault::ReadError => true,
            UploadFault::TooLarge => true,
            _ => false,
        };
        let remove = match fault {
            UploadFault::NotifyFailed => false,
            UploadFault::TmpCreateFailed => false,
            _ => true,
        };
        UploadAction::Finish { flush, remove, tell, reply: answer }
    }

    /// The upload has succeeded.
    fn succeed(self, state: &mut AppState, path: String) -> (r: UploadAction)
        ensures
            is_success(old(state)@, self, r),
            final(state)@ == succeeded(old(state)@, self, path@),
    {
        let aborted = !self.intake.follows();
        let (total, sha256) = self.intake.digest();
        let (answer, channel) = state.finish_streaming(&self.job, aborted, path, total, sha256);
        let tell = match channel {
            Some(to) => Some((to, StreamItem::End { sha256 })),
            None => None,
        };
        UploadAction::Finish { flush: false, remove: false, tell, reply: answer }
    }

    /// The upload goes on, at this stage.
    fn go_on(self, stage: UploadStage) -> (r: Option<StreamingUpload>)
        ensures
            goes_on(self, r, stage, self.intake@),
    {
        Some(StreamingUpload { stage, ..self })
    }

    /// What came of the last action: whether the upload goes on, and what is to be done next.
    pub fn step(self, state: &mut AppState, event: UploadEvent<'_>) -> (r: (
        Option<StreamingUpload>,
        UploadAction,
    ))
        ensures
            is_step(old(state)@, self, event, r.0, final(state)@, r.1),
    {
        match (self.stage, event) {
            (UploadStage::Announcing, UploadEvent::Announced(told)) => {
                if !told {
                    return (None, self.fail(state, UploadFault::NotifyFailed));
                }
                (self.go_on(UploadStage::Creating), UploadAction::Create)
            },
            (UploadStage::Creating, UploadEvent::Created(there)) => {
                if !there {
                    return (None, self.fail(state, UploadFault::TmpCreateFailed));
                }
                (self.go_on(UploadStage::Receiving), UploadAction::Read)
            },
            (UploadStage::Receiving, UploadEvent::TimedOut) => (
                None,
                self.fail(state, UploadFault::Timeout),
            ),
            (UploadStage::Receiving, UploadEvent::ReadFailed) => (
                None,
                self.fail(state, UploadFault::ReadError),
            ),
            (UploadStage::Receiving, UploadEvent::Chunk(chunk)) => {
                let mut task = self;
                if task.intake.take(chunk).is_err() {
                    return (None, task.fail(state, UploadFault::TooLarge));
                }
                (task.go_on(UploadStage::Writing), UploadAction::Write)
            },
            (UploadStage::Receiving, UploadEvent::End) => (
                self.go_on(UploadStage::Flushing),
                UploadAction::Flush,
            ),
            (UploadStage::Writing, UploadEvent::Written(done)) => {
                if !done {
                    return (None, self.fail(state, UploadFault::IoError));
                }
                if !self.intake.follows() {
                    return (self.go_on(UploadStage::Receiving), UploadAction::Read);
                }
                match state.upload_store.sender(self.job.file_id) {
                    Some(channel) => (
                        self.go_on(UploadStage::Sending),
                        UploadAction::SendOn(channel),
                    ),
                    None => {
                        let mut task = self;
                        let _reason = task.intake.sent(SendChunkResult::Disconnected);
                        (
                            task.go_on(UploadStage::Receiving),
                            UploadAction::GiveUp { channel: None, reason: "disconnected" },
                        )
                    },
                }
            },
            (UploadStage::Sending, UploadEvent::Sent(delivery)) => {
                let mut task = self;
                let result = state.upload_store.send_chunk(task.job.file_id, delivery);
                match task.intake.sent(result) {
                    Some(reason) => {
                        let channel = state.upload_store.sender(task.job.file_id);
                        (
                            task.go_on(UploadStage::Receiving),
                            UploadAction::GiveUp { channel, reason },
                        )
                    },
                    None => (task.go_on(UploadStage::Receiving), UploadAction::Read),
                }
            },
            (UploadStage::Flushing, UploadEvent::Flushed(done)) => {
                if !done {
                    return (None, self.fail(state, UploadFault::FlushError));
                }
                (self.go_on(UploadStage::Renaming), UploadAction::Rename)
            },
            (UploadStage::Renaming, UploadEvent::Renamed(path)) => match path {
                Some(path) => (None, self.succeed(state, path)),
                None => (None, self.fail(state, UploadFault::RenameFailed)),
            },
            _ => {
                let stage = self.stage;
                (self.go_on(stage), UploadAction::Ignore)
            },
        }
    }
}

/// What has come in after chunk upon chunk.
pub open spec fn taken(v: IntakeView, chunks: Seq<Seq<u8>>) -> IntakeView
    decreases chunks.len(),
{
    if chunks.len() == 0 {
        v
    } else {
        taken(v.take(chunks[0]).0, chunks.drop_first())
    }
}

/// Chunks that are not too large together are all taken, and add their bytes in order.
proof fn lemma_taken(v: IntakeView, chunks: Seq<Seq<u8>>)
    requires
        v.wf(),
        v.bytes.len() + upload::joined_chunks(chunks).len() <= v.max,
    ensures
        taken(v, chunks).wf(),
        taken(v, chunks).bytes == v.bytes + upload::joined_chunks(chunks),
    decreases chunks.len(),
{
    if chunks.len() == 0 {
        assert(v.bytes + upload::joined_chunks(chunks) =~= v.bytes);
    } else {
        let next = v.take(chunks[0]).0;
        let rest = chunks.drop_first();
        upload::law_intake_takes_all(v, chunks[0]);
        lemma_taken(next, rest);
        assert(v.bytes + upload::joined_chunks(chunks) =~= next.bytes + upload::joined_chunks(
            rest,
        ));
    }
}

/// From the phone to the PC: an upload that is not too large, whose chunks are sent on as they come
/// in and whose digest is sent at the end, reaches the PC whole, and the PC takes it for the file that
/// it is, however the upload was cut into chunks.
pub proof fn law_uploaded_file_arrives(
    max: u64,
    chunks: Seq<Seq<u8>>,
    items: Seq<StreamItem>,
    sha256: [u8; 32],
)
    requires
        upload::joined_chunks(chunks).len() <= max,
        items.len() == chunks.len() + 1,
        forall|i: int|
            0 <= i < chunks.len() ==> (#[trigger] items[i] matches StreamItem::Data(b) && b@
                == chunks[i]),
        items.last() == (StreamItem::End { sha256 }),
        sha256@ == digest::sha256_of(
            taken(
                IntakeView { bytes: Seq::empty(), total: 0, max, aborted: false },
                chunks,
            ).bytes,
        ),
    ensures
        download::is_whole(upload::stream_body(items)),
        download::file_part(upload::stream_body(items)) == upload::joined_chunks(chunks),
        taken(
            IntakeView { bytes: Seq::empty(), total: 0, max, aborted: false },
            chunks,
        ).total == upload::joined_chunks(chunks).len(),
{
    let empty = IntakeView { bytes: Seq::empty(), total: 0, max, aborted: false };
    lemma_taken(empty, chunks);
    assert(empty.bytes + upload::joined_chunks(chunks) =~= upload::joined_chunks(chunks));
    download::law_streamed_file_arrives(items, chunks, sha256);
}

/// An upload that goes wrong at any step, before its stream was opened or after, leaves the store as
/// it was before the upload began.
pub proof fn law_failed_upload_leaves_nothing(
    v: StateView,
    task: StreamingUpload,
    file: FileView,
    channel: u64,
)
    requires
        v.uploads.consistent(),
        !v.uploads.files.contains_key(task.job.file_id),
        !v.uploads.streams.contains_key(task.job.file_id),
        file.pairing_id == task.pairing_id,
        file.size_bytes == v.uploads.limits.max_upload_size_bytes,
        v.uploads.limit_error(task.pairing_id) is None,
    ensures
        ({
            let begun = v.uploads.begin(task.job.file_id, file);
            let opened = StateView {
                uploads: StoreView {
                    streams: begun.streams.insert(
                        task.job.file_id,
                        upload_store::StreamSlot { channel, attached: false },
                    ),
                    ..begun
                },
                ..v
            };
            let after = taken_back(opened, task.job, task.pairing_id).uploads;
            let refused = taken_back(
                StateView { uploads: begun, ..v },
                task.job,
                task.pairing_id,
            ).uploads;
            &&& refused.files == v.uploads.files
            &&& refused.quota.files == v.uploads.quota.files
            &&& refused.quota.bytes == v.uploads.quota.bytes
            &&& refused.streams == v.uploads.streams
            &&& forall|p: Id| #[trigger] refused.limit_error(p) == v.uploads.limit_error(p)
            &&& after.files == v.uploads.files
            &&& after.quota.files == v.uploads.quota.files
            &&& after.quota.bytes == v.uploads.quota.bytes
            &&& after.streams == v.uploads.streams
            &&& forall|p: Id| #[trigger] after.limit_error(p) == v.uploads.limit_error(p)
        }),
{
    let id = task.job.file_id;
    upload_laws::law_begin_then_rollback(v.uploads, id, file);
    let begun = v.uploads.begin(id, file);
    let opened = StoreView {
        streams: begun.streams.insert(
            id,
            upload_store::StreamSlot { channel, attached: false },
        ),
        ..begun
    };
    let after = opened.rollback(id, task.pairing_id);
    let plain = begun.rollback(id, task.pairing_id);
    assert(after.streams =~= v.uploads.streams);
    assert(plain.streams =~= v.uploads.streams);
    assert forall|p: Id| #[trigger] after.limit_error(p) == v.uploads.limit_error(p) by {
        assert(plain.limit_error(p) == v.uploads.limit_error(p));
    }
}

} // verus!
