//! What holds of files on their way from the phone to the PC: what the PC is told of them, who may
//! have them, and what becomes of them at each step.

use crate::client::file_laws;
use crate::clock::Moment;
use crate::digest;
use crate::events::{Event, TransferMode};
use crate::ids;
use crate::ids::Id;
use crate::server::pairing;
use crate::server::pending;
use crate::server::relay;
use crate::server::reply;
use crate::server::reply::{BodyView, ReplyView};
use crate::server::upload;
use crate::server::upload::{UploadDispatchMode, UploadFault};
use crate::server::upload_store;
use crate::server::upload_store::{
    AttachError, Delivery, DirEntry, ExpiredAction, FileStatus, FileView, StoreView, StreamItem,
    StreamSlot, UploadLimitError,
};
use crate::server::upload_task;
use crate::server::upload_task::{StreamingUpload, UploadAction, UploadEvent, UploadStage};
use crate::server::web::{Notice, StateView};
use crate::text;
use vstd::prelude::*;

verus! {

/// The address of a file at the server, spelled out.
pub open spec fn address_of(base: Seq<char>, file_id: Id) -> Seq<char> {
    base + "/api/files/"@ + ids::uuid_text(file_id)
}

/// The PC is told of a file as it is: with its identifier, name, type, size, digest and secret. A file
/// that it is to follow over HTTP while it comes in has the address of its stream, any other the
/// address of the stored file; the two are never the same. Slashes at the end of the server's address
/// make no difference.
pub proof fn law_pc_is_told_the_truth(
    base: Seq<char>,
    slashes: Seq<char>,
    file_id: Id,
    mode: UploadDispatchMode,
    name: Seq<char>,
    mime_type: Seq<char>,
    size: u64,
    sha256: Seq<char>,
    token: Seq<u8>,
    event: Event,
)
    requires
        base.len() > 0,
        base.last() != '/',
        forall|i: int| 0 <= i < slashes.len() ==> #[trigger] slashes[i] == '/',
        event@ == upload::file_event(
            base + slashes,
            file_id,
            mode,
            name,
            mime_type,
            size,
            sha256,
            token,
        ),
    ensures
        event matches Event::FileReceived(file) && {
            &&& file.file_id@ == ids::uuid_text(file_id)
            &&& file.file_name@ == name
            &&& file.mime_type@ == mime_type
            &&& file.size_bytes == size
            &&& file.sha256@ == sha256
            &&& file.file_access_token@ == token
            &&& mode == UploadDispatchMode::HttpStreaming ==> file.download_url@ == address_of(
                base,
                file_id,
            ) + "/stream"@ && file.transfer_mode == TransferMode::HttpStreaming
            &&& mode == UploadDispatchMode::Streaming ==> file.download_url@ == address_of(
                base,
                file_id,
            ) && file.transfer_mode == TransferMode::Streaming
            &&& mode == UploadDispatchMode::Relay ==> file.download_url@ == address_of(
                base,
                file_id,
            ) && file.transfer_mode == TransferMode::Relay
        },
        address_of(base, file_id) + "/stream"@ != address_of(base, file_id),
{
    file_laws::lemma_slashes(base, slashes);
    reveal_strlit("/stream");
    assert((address_of(base, file_id) + "/stream"@).len() == address_of(base, file_id).len() + 7);
}

/// A PC that is connected is passed the file while it comes in, over HTTP where it can do that and else
/// over its event connection; where no PC is connected the file is kept and told of later.
pub proof fn law_connected_pc_follows_the_upload(
    v: StateView,
    pairing_id: Id,
    token: Seq<char>,
    channel: u64,
    mode: UploadDispatchMode,
    client_tx: Option<u64>,
)
    requires
        upload::is_dispatch(v, pairing_id, mode, client_tx),
    ensures
        v.pairings.contains_key(pairing_id) && v.pairings[pairing_id].active_session_token == Some(
            token,
        ) && v.sessions.contains_key(token) && v.sessions[token].client_tx == Some(channel) ==> {
            &&& client_tx == Some(channel)
            &&& v.sessions[token].client_capabilities % 2 == 1 ==> mode
                == UploadDispatchMode::HttpStreaming
            &&& v.sessions[token].client_capabilities % 2 == 0 ==> mode
                == UploadDispatchMode::Streaming
        },
        client_tx is None <==> mode == UploadDispatchMode::Relay,
        (forall|t: Seq<char>| #[trigger]
            v.sessions.contains_key(t) ==> v.sessions[t].client_tx is None) ==> mode
            == UploadDispatchMode::Relay,
{
    let found = choose|found: Option<Seq<char>>|
        {
            &&& #[trigger] relay::is_latest(v.sessions, v.pairings, pairing_id, found)
            &&& match relay::client_of(v.sessions, found) {
                Some((tx, caps)) => client_tx == Some(tx) && mode == upload::dispatch_mode(
                    Some(caps),
                ),
                None => client_tx is None && mode == UploadDispatchMode::Relay,
            }
        };
    assert(relay::is_latest(v.sessions, v.pairings, pairing_id, found));
    if let Some(t) = found {
        assert(v.sessions.contains_key(t));
    }
}

/// With what it was told, the PC is given the file, and may acknowledge it; so is nobody who shows
/// anything else.
pub proof fn law_told_pc_may_have_the_file(
    v: StoreView,
    id: Id,
    shown: Seq<char>,
    body_len: usize,
    success: bool,
)
    requires
        v.files.contains_key(id),
        v.files[id].file_access_token.len() == 32,
        ids::uuid_parse(ids::uuid_text(id)) == Some(id),
        body_len <= 256,
    ensures
        ({
            let right = Some("Bearer "@ + pairing::hex_of(v.files[id].file_access_token));
            let other = Some("Bearer "@ + shown);
            let name = ids::uuid_text(id);
            &&& upload::file_access(v, name, right) == Ok::<Id, ReplyView>(id)
            &&& upload::ack_error(v, body_len, name, right, Some(success)) is None
            &&& shown != pairing::hex_of(v.files[id].file_access_token) ==> {
                &&& upload::file_access(v, name, other) matches Err(refused) && refused.status
                    == 404
                &&& upload::ack_error(v, body_len, name, other, Some(success)) is Some
            }
            &&& upload::file_access(v, name, None) is Err
            &&& upload::ack_error(v, body_len, name, None, Some(success)) is Some
        }),
{
    let hex = pairing::hex_of(v.files[id].file_access_token);
    pairing::law_hex_round_trip(v.files[id].file_access_token, v.files[id].file_access_token);
    lemma_bearer(hex);
    lemma_bearer(shown);
}

/// A file that is gone may be acknowledged again: the answer is the same as the first time. What names no
/// file, and a word that is too long, is refused.
pub proof fn law_gone_file_may_be_acknowledged(
    v: StoreView,
    file_text: Seq<char>,
    id: Id,
    secret: Seq<u8>,
    body_len: usize,
    success: Option<bool>,
)
    requires
        ids::uuid_parse(file_text) == Some(id),
        !v.files.contains_key(id),
        secret.len() == 32,
    ensures
        ({
            let bearer = Some("Bearer "@ + pairing::hex_of(secret));
            &&& body_len <= 256 ==> upload::ack_error(v, body_len, file_text, bearer, success)
                is None
            &&& body_len > 256 ==> (upload::ack_error(v, body_len, file_text, bearer, success)
                matches Some((status, _)) && status == 413)
            &&& upload::file_access(v, file_text, bearer) matches Err(refused) && refused.status
                == 404
        }),
{
    pairing::law_hex_round_trip(secret, secret);
    lemma_bearer(pairing::hex_of(secret));
}

proof fn lemma_bearer(secret: Seq<char>)
    ensures
        reply::bearer_of(Some("Bearer "@ + secret)) == Some(secret),
{
    let value = "Bearer "@ + secret;
    assert(value.subrange(0, "Bearer "@.len() as int) =~= "Bearer "@);
    assert(value.skip("Bearer "@.len() as int) =~= secret);
}

/// A stored file is handed out from where it lies, under its own name and type, and with its digest
/// where that is known; nobody is to keep a copy of the reply.
pub proof fn law_stored_file_is_handed_out(file: FileView)
    ensures
        ({
            let answer = upload::file_reply(file);
            &&& answer.status == 200
            &&& answer.body == (BodyView::File { path: file.file_path })
            &&& answer.headers.contains(("content-type"@, file.mime_type))
            &&& answer.headers.contains(("cache-control"@, "no-store, private"@))
            &&& (file.status == FileStatus::Notified || file.status
                == FileStatus::StoredUnnotified) && file.sha256.len() > 0 && reply::header_text(
                file.sha256,
            ) ==> answer.headers.contains(("x-file-sha256"@, file.sha256))
        }),
{
    let answer = upload::file_reply(file);
    assert(answer.headers[1] == ("content-type"@, file.mime_type));
    assert(answer.headers[2] == ("cache-control"@, "no-store, private"@));
    if answer.headers.len() > 3 {
        assert(answer.headers[3] == ("x-file-sha256"@, file.sha256));
    }
}

/// A name of letters, digits, hyphens, underscores, dots and tildes stands in a header as it is, and no
/// name stands there with anything that would end the header.
pub proof fn law_plain_name_is_not_escaped(name: Seq<char>)
    requires
        forall|i: int|
            0 <= i < name.len() ==> {
                let c = #[trigger] name[i];
                'a' <= c <= 'z' || 'A' <= c <= 'Z' || '0' <= c <= '9' || c == '-' || c == '_' || c
                    == '.' || c == '~'
            },
    ensures
        upload::escaped(name) == name,
    decreases name.len(),
{
    if name.len() > 0 {
        law_plain_name_is_not_escaped(name.drop_last());
        assert(name.drop_last() + seq![name.last()] =~= name);
    }
}

/// Whoever asks for a stream that is over is sent to the stored file, with its digest, where the file is
/// complete; a file that is not there, or not complete, is not found.
pub proof fn law_late_caller_is_sent_to_the_file(v: StateView, id: Id)
    requires
        v.config.public_base_url@.len() > 0,
        v.config.public_base_url@.last() != '/',
    ensures
        ({
            let answer = upload::late_reply(v, id);
            let file = v.uploads.files[id];
            let complete = v.uploads.files.contains_key(id) && (file.status == FileStatus::Notified
                || file.status == FileStatus::StoredUnnotified);
            let address = address_of(v.config.public_base_url@, id);
            &&& !complete ==> answer.status == 404
            &&& complete && file.sha256.len() > 0 && reply::header_text(file.sha256)
                && reply::header_text(address) ==> {
                &&& answer.status == 302
                &&& answer.headers.contains(("location"@, address))
                &&& answer.headers.contains(("x-file-sha256"@, file.sha256))
            }
        }),
{
    let answer = upload::late_reply(v, id);
    if answer.status == 302 {
        assert(answer.headers[0].0 == "location"@);
        assert(answer.headers[1].0 == "x-file-sha256"@);
    }
}

/// The reply with a stream is the stream of that channel, and of no other.
pub proof fn law_stream_is_handed_out(channel: u64)
    ensures
        upload::stream_reply(channel).status == 200,
        upload::stream_reply(channel).body == (BodyView::Stream { channel }),
{
}

/// A stream is followed by the first who asks for it, by its own channel, and by nobody after; asking
/// touches no other stream and no file.
pub proof fn law_first_caller_follows_the_stream(s: StoreView, id: Id, other: Id, slot: StreamSlot)
    requires
        s.streams.contains_key(id),
        s.streams[id] == slot,
    ensures
        !slot.attached ==> s.attach_result(id) == Ok::<u64, AttachError>(slot.channel),
        slot.attached ==> s.attach_result(id) == Err::<u64, AttachError>(
            AttachError::AlreadyAttached,
        ),
        s.attach(id).attach_result(id) is Err,
        s.attach(id).streams.contains_key(id) && s.attach(id).streams[id].channel == slot.channel,
        other != id ==> s.attach(id).attach_result(other) == s.attach_result(other),
        s.attach(id).files == s.files,
        s.attach(id).quota == s.quota,
        !s.streams.contains_key(other) ==> s.attach_result(other) == Err::<u64, AttachError>(
            AttachError::NotFound,
        ),
{
}

/// An upload may begin exactly while its pairing is not closed, the pairing and the server hold fewer
/// files than they may, and the largest file would still fit.
pub proof fn law_upload_may_begin(s: StoreView, pairing_id: Id)
    ensures
        ({
            let refused = s.limit_error(pairing_id);
            let q = s.quota.of(pairing_id);
            &&& refused is None <==> {
                &&& !q.closed
                &&& q.pending < s.limits.max_pending_upload_files_per_pairing
                &&& s.quota.files < s.limits.max_pending_upload_files_global
                &&& s.quota.bytes + s.limits.max_upload_size_bytes
                    <= s.limits.max_pending_upload_bytes_global
            }
            &&& refused == Some(UploadLimitError::PairingClosed) <==> q.closed
            &&& refused == Some(UploadLimitError::PerPairingFileLimitReached) ==> q.pending
                >= s.limits.max_pending_upload_files_per_pairing
            &&& refused == Some(UploadLimitError::GlobalFileLimitReached) ==> s.quota.files
                >= s.limits.max_pending_upload_files_global
            &&& refused == Some(UploadLimitError::GlobalByteLimitReached) ==> s.quota.bytes
                + s.limits.max_upload_size_bytes > s.limits.max_pending_upload_bytes_global
        }),
{
}

/// An upload that begins is noted for its pairing, with its secret, its names and its type, as one that
/// is coming in; no other file is touched, and one file more is counted, as large as it may become.
pub proof fn law_begun_upload_is_noted(
    s: StoreView,
    id: Id,
    pairing_id: Id,
    token: Seq<u8>,
    name: Seq<char>,
    raw: Seq<char>,
    mime_type: Seq<char>,
    now: Moment,
    other: Id,
)
    requires
        s.limit_error(pairing_id) is None,
    ensures
        ({
            let begun = s.begin(id, s.incoming(pairing_id, token, name, raw, mime_type, now));
            let file = begun.files[id];
            &&& begun.files.contains_key(id)
            &&& file.pairing_id == pairing_id && file.file_access_token == token
            &&& file.file_name == name && file.raw_filename == raw && file.mime_type == mime_type
            &&& file.status == FileStatus::Uploading && file.sha256.len() == 0
            &&& other != id ==> (begun.files.contains_key(other) <==> s.files.contains_key(other))
                && begun.files[other] == s.files[other]
            &&& begun.quota.files == s.quota.files + 1
            &&& begun.quota.bytes == s.quota.bytes + s.limits.max_upload_size_bytes
            &&& begun.quota.of(pairing_id).pending == s.quota.of(pairing_id).pending + 1
            &&& other != pairing_id ==> begun.quota.of(other) == s.quota.of(other)
            &&& begun.streams == s.streams && begun.limits == s.limits
        }),
{
}

/// A file that has come in whole is where it was put, with the size and the digest that it has, and is
/// otherwise the file that began; no other file is touched.
pub proof fn law_completed_file_is_itself(
    s: StoreView,
    id: Id,
    status: FileStatus,
    path: Seq<char>,
    size: u64,
    sha256: Seq<char>,
    other: Id,
)
    requires
        s.files.contains_key(id),
    ensures
        ({
            let done = s.complete(id, status, path, size, sha256);
            let file = done.files[id];
            &&& done.files.dom() == s.files.dom()
            &&& file.status == status && file.file_path == path && file.size_bytes == size
                && file.sha256 == sha256
            &&& file.pairing_id == s.files[id].pairing_id && file.file_access_token
                == s.files[id].file_access_token && file.file_name == s.files[id].file_name
                && file.mime_type == s.files[id].mime_type
            &&& other != id ==> done.files[other] == s.files[other]
            &&& done.streams == s.streams
            &&& s.quota.bytes >= s.files[id].size_bytes && s.quota.bytes - s.files[id].size_bytes
                + size <= u64::MAX ==> done.quota.bytes == s.quota.bytes - s.files[id].size_bytes
                + size
            &&& done.quota.files == s.quota.files
        }),
{
    assert(s.complete(id, status, path, size, sha256).files.dom() =~= s.files.dom());
}

/// A file that came in while its PC was away, into a pairing that is open, waits for the PC, and the PC
/// is told of it, as it was stored, when it comes.
pub proof fn law_waiting_file_is_told_of(
    s: StoreView,
    id: Id,
    notices: Seq<(Id, Notice)>,
    ids: Seq<Id>,
    channel: u64,
    base: Seq<char>,
    i: int,
)
    requires
        pending::are_notices(notices, ids, channel, base, s),
        0 <= i < ids.len(),
        base.len() > 0,
        base.last() != '/',
    ensures
        pending::waits(s, id, s.files[id].pairing_id) <==> s.files.contains_key(id)
            && s.files[id].status == FileStatus::StoredUnnotified && s.files[id].sha256.len() > 0
            && !s.quota.of(s.files[id].pairing_id).closed,
        notices.len() == ids.len(),
        notices[i].1.client_tx == channel,
        ({
            let told = s.files[ids[i]];
            notices[i].1.event.event matches Some(Event::FileReceived(file)) && {
                &&& file.file_id@ == ids::uuid_text(ids[i])
                &&& file.file_name@ == told.file_name
                &&& file.mime_type@ == told.mime_type
                &&& file.size_bytes == told.size_bytes
                &&& file.sha256@ == told.sha256
                &&& file.file_access_token@ == told.file_access_token
                &&& file.transfer_mode == TransferMode::Relay
                &&& file.download_url@ == address_of(base, ids[i])
            }
        }),
{
    assert(notices[i].0 == ids[i]);
    assert(text::trim_end_of(base, '/') == base);
}

/// What comes in is written to the disk and then sent on to the PC that follows, chunk for chunk; the
/// file that is being made up is all that has come in.
pub proof fn law_chunk_is_kept_and_sent_on(
    v: StateView,
    task: StreamingUpload,
    chunk: &[u8],
    next: Option<StreamingUpload>,
    after: StateView,
    action: UploadAction,
)
    requires
        task.stage == UploadStage::Receiving,
        task.intake@.wf(),
        task.intake@.bytes.len() + chunk@.len() <= task.intake@.max,
        upload_task::is_step(v, task, UploadEvent::Chunk(chunk), next, after, action),
    ensures
        action is Write,
        after == v,
        next matches Some(n) && {
            &&& n.stage == UploadStage::Writing
            &&& n.intake@.bytes == task.intake@.bytes + chunk@
            &&& n.intake@.total == task.intake@.bytes.len() + chunk@.len()
            &&& n.intake@.aborted == task.intake@.aborted
            &&& n.job == task.job && n.pairing_id == task.pairing_id
        },
{
}

/// A chunk that was written is sent on by the file's channel, while the PC follows; one that was sent
/// makes room for the next. A PC that no longer follows is given up, and the upload goes on without it.
pub proof fn law_upload_goes_on_without_the_pc(
    v: StateView,
    task: StreamingUpload,
    delivery: Delivery,
    next: Option<StreamingUpload>,
    after: StateView,
    action: UploadAction,
)
    ensures
        task.stage == UploadStage::Writing && upload_task::is_step(
            v,
            task,
            UploadEvent::Written(true),
            next,
            after,
            action,
        ) ==> {
            &&& after == v && next is Some && next->0.intake@.bytes == task.intake@.bytes
            &&& !task.intake@.aborted && v.uploads.streams.contains_key(task.job.file_id)
                ==> action == UploadAction::SendOn(
                v.uploads.streams[task.job.file_id].channel,
            ) && next->0.stage == UploadStage::Sending
            &&& task.intake@.aborted ==> action is Read && next->0.stage == UploadStage::Receiving
        },
        task.stage == UploadStage::Sending && upload_task::is_step(
            v,
            task,
            UploadEvent::Sent(delivery),
            next,
            after,
            action,
        ) ==> {
            &&& after == v && next is Some && next->0.stage == UploadStage::Receiving
            &&& next->0.intake@.bytes == task.intake@.bytes
            &&& delivery == Delivery::Delivered && v.uploads.streams.contains_key(
                task.job.file_id,
            ) ==> action is Read && next->0.intake@.aborted == task.intake@.aborted
            &&& delivery != Delivery::Delivered ==> action is GiveUp && next->0.intake@.aborted
        },
{
}

/// An upload that has come in whole is flushed, given its final name, and told of: the phone gets the
/// size and the digest of all that came in, the PC that follows gets the same digest, and the stored
/// file bears both.
pub proof fn law_whole_upload_succeeds(
    v: StateView,
    task: StreamingUpload,
    path: String,
    next: Option<StreamingUpload>,
    after: StateView,
    action: UploadAction,
)
    requires
        task.stage == UploadStage::Renaming,
        v.uploads.files.contains_key(task.job.file_id),
        upload_task::is_step(v, task, UploadEvent::Renamed(Some(path)), next, after, action),
    ensures
        next is None,
        ({
            let sha256 = digest::sha256_of(task.intake@.bytes);
            let file = after.uploads.files[task.job.file_id];
            &&& action matches UploadAction::Finish { flush, remove, tell, reply: answer }
            &&& !remove
            &&& answer@.status == 200
            &&& answer@.body == (BodyView::Uploaded {
                file_id: ids::uuid_text(task.job.file_id),
                file_name: task.job.raw_filename@,
                mime_type: task.job.mime_type@,
                size_bytes: task.intake@.total,
                sha256: pairing::hex_of(sha256),
            })
            &&& v.uploads.streams.contains_key(task.job.file_id) && !task.intake@.aborted ==> (
            tell matches Some((to, StreamItem::End { sha256: sent })) && to
                == v.uploads.streams[task.job.file_id].channel && sent@ == sha256)
            &&& after.uploads.files.contains_key(task.job.file_id)
            &&& file.status == FileStatus::Notified
            &&& file.file_path == path@
            &&& file.size_bytes == task.intake@.total
            &&& file.sha256 == pairing::hex_of(sha256)
            &&& file.file_access_token == v.uploads.files[task.job.file_id].file_access_token
            &&& after.sessions == v.sessions && after.pairings == v.pairings && after.browsers
                == v.browsers
            &&& task.job.mode == UploadDispatchMode::HttpStreaming ==> after.uploads.streams
                == v.uploads.streams.remove(task.job.file_id)
            &&& task.job.mode != UploadDispatchMode::HttpStreaming ==> after.uploads.streams
                == v.uploads.streams
        }),
{
}

/// An upload that the PC could not be told of, or that finds no place on the disk, is not begun: the phone
/// is answered with an error, and nothing of the upload is left.
pub proof fn law_upload_is_not_begun(
    v: StateView,
    task: StreamingUpload,
    event: UploadEvent,
    next: Option<StreamingUpload>,
    after: StateView,
    action: UploadAction,
)
    requires
        upload_task::is_step(v, task, event, next, after, action),
        (task.stage == UploadStage::Announcing && event == UploadEvent::Announced(false)) || (
        task.stage == UploadStage::Creating && event == UploadEvent::Created(false)),
    ensures
        next is None,
        action matches UploadAction::Finish { flush, remove, tell, reply: answer }
            && answer@.status == 500 && !remove,
        !after.uploads.files.contains_key(task.job.file_id),
        !after.uploads.streams.contains_key(task.job.file_id),
        after.sessions == v.sessions,
        after.pairings == v.pairings,
{
}

/// The steps of an upload follow each other: told, created, read, written, flushed, renamed.
pub proof fn law_upload_takes_its_steps(
    v: StateView,
    task: StreamingUpload,
    event: UploadEvent,
    next: Option<StreamingUpload>,
    after: StateView,
    action: UploadAction,
)
    requires
        upload_task::is_step(v, task, event, next, after, action),
    ensures
        task.stage == UploadStage::Announcing && event == UploadEvent::Announced(true) ==> action
            is Create && next is Some && next->0.stage == UploadStage::Creating,
        task.stage == UploadStage::Creating && event == UploadEvent::Created(true) ==> action
            is Read && next is Some && next->0.stage == UploadStage::Receiving,
        task.stage == UploadStage::Receiving && event is End ==> action is Flush && next is Some
            && next->0.stage == UploadStage::Flushing,
        task.stage == UploadStage::Flushing && event == UploadEvent::Flushed(true) ==> action
            is Rename && next is Some && next->0.stage == UploadStage::Renaming,
        next matches Some(n) ==> n.job == task.job && n.pairing_id == task.pairing_id && after == v,
        next is None <==> action is Finish,
{
}

/// Goes the upload wrong here: is it too slow, unreadable or too large, or does the disk fail?
pub open spec fn goes_wrong(task: StreamingUpload, event: UploadEvent) -> bool {
    ||| task.stage == UploadStage::Receiving && (event is TimedOut || event is ReadFailed)
    ||| task.stage == UploadStage::Writing && event == UploadEvent::Written(false)
    ||| task.stage == UploadStage::Flushing && event == UploadEvent::Flushed(false)
    ||| task.stage == UploadStage::Renaming && event == UploadEvent::Renamed(None)
    ||| task.stage == UploadStage::Receiving && (event matches UploadEvent::Chunk(chunk)
        && task.intake@.wf() && task.intake@.bytes.len() + chunk@.len() > task.intake@.max
        && task.intake@.max < u64::MAX)
}

/// An upload that goes wrong is answered with an error, nothing of it is left on the disk, and the PC
/// that follows is told; one that is too slow or too large is told so.
pub proof fn law_failed_upload_is_answered(
    v: StateView,
    task: StreamingUpload,
    event: UploadEvent,
    next: Option<StreamingUpload>,
    after: StateView,
    action: UploadAction,
)
    requires
        upload_task::is_step(v, task, event, next, after, action),
        goes_wrong(task, event),
    ensures
        next is None,
        action matches UploadAction::Finish { flush, remove, tell, reply: answer } && {
            &&& remove
            &&& event is TimedOut ==> answer@.status == 408
            &&& event is Chunk ==> answer@.status == 413
            &&& !(event is TimedOut) && !(event is Chunk) ==> answer@.status == 500
            &&& v.uploads.streams.contains_key(task.job.file_id) && !task.intake@.aborted ==> (
            tell matches Some((to, StreamItem::Abort { reason })) && to
                == v.uploads.streams[task.job.file_id].channel)
        },
        !after.uploads.files.contains_key(task.job.file_id),
        !after.uploads.streams.contains_key(task.job.file_id),
        after.sessions == v.sessions,
        after.pairings == v.pairings,
        forall|other: Id|
            other != task.job.file_id && v.uploads.files.contains_key(other)
                ==> #[trigger] after.uploads.files.contains_key(other)
                && after.uploads.files[other] == v.uploads.files[other],
{
}

/// Only files that are older than they may become are deleted from the disk, and never one that is
/// still coming in.
pub proof fn law_only_old_files_are_deleted(s: StoreView, entry: DirEntry, retention_secs: u64)
    ensures
        ({
            let action = s.expired_action(entry, retention_secs);
            let file = upload_store::file_of_name(entry.name@);
            let old = entry.is_file && (entry.age_secs matches Some(age) && age > retention_secs);
            let coming_in = file matches Some(id) && s.files.contains_key(id)
                && s.files[id].status == FileStatus::Uploading;
            &&& action is Delete <==> old && !coming_in
            &&& action is Delete ==> action == ExpiredAction::Delete(file)
        }),
{
}

/// The files on the disk are known by their names: a whole file by its identifier, one that is coming in
/// by its identifier between a dot and an ending.
pub proof fn law_files_are_known_by_name(id: Id)
    requires
        ids::uuid_parse(ids::uuid_text(id)) == Some(id),
        ids::uuid_parse("."@ + ids::uuid_text(id) + ".tmp"@) is None,
    ensures
        upload_store::file_of_name(ids::uuid_text(id)) == Some(id),
        upload_store::file_of_name("."@ + ids::uuid_text(id) + ".tmp"@) == Some(id),
{
    let name = "."@ + ids::uuid_text(id) + ".tmp"@;
    reveal_strlit(".");
    reveal_strlit(".tmp");
    assert(name.subrange(0, 1) =~= "."@);
    let rest = name.skip(1);
    assert(rest =~= ids::uuid_text(id) + ".tmp"@);
    assert(rest.subrange(rest.len() - 4, rest.len() as int) =~= ".tmp"@);
    assert(rest.take(rest.len() - 4) =~= ids::uuid_text(id));
}

/// After a restart a file that lies on the disk, has a file's name and is not too old is counted again,
/// with its size; anything else is not.
pub proof fn law_found_file_is_counted(
    s: StoreView,
    entries: Seq<DirEntry>,
    entry: DirEntry,
    retention_secs: u64,
    now: Moment,
    id: Id,
)
    requires
        ids::uuid_parse(entry.name@) == Some(id),
        s.with_found(entries, retention_secs, now).quota.bytes + entry.size <= u64::MAX,
        s.with_found(entries, retention_secs, now).quota.files < u32::MAX,
    ensures
        ({
            let before = s.with_found(entries, retention_secs, now);
            let after = s.with_found(entries.push(entry), retention_secs, now);
            let counts = entry.is_file && (entry.age_secs matches Some(age) && age
                <= retention_secs);
            &&& counts ==> {
                &&& after.files.contains_key(id)
                &&& after.files[id].size_bytes == entry.size
                &&& after.files[id].file_path == entry.path@
                &&& after.quota.files == before.quota.files + 1
                &&& after.quota.bytes == before.quota.bytes + entry.size
            }
            &&& !counts ==> after == before
        }),
{
    assert(entries.push(entry).drop_last() =~= entries);
}

/// A file that is removed is gone with its stream, and what it took is free again; no other file is
/// touched.
pub proof fn law_removed_file_is_gone(s: StoreView, id: Id, other: Id)
    requires
        s.consistent(),
        s.files.contains_key(id),
    ensures
        ({
            let r = s.remove(id);
            &&& !r.files.contains_key(id) && !r.streams.contains_key(id)
            &&& r.quota.files == s.quota.files - 1
            &&& other != id ==> (r.files.contains_key(other) <==> s.files.contains_key(other))
                && r.files[other] == s.files[other]
            &&& other != s.files[id].pairing_id ==> r.quota.of(other) == s.quota.of(other)
        }),
{
    assert(s.quota.of(s.files[id].pairing_id).file_ids.contains(id));
    assert(s.files.dom().contains(id));
    assert(s.files.dom().len() > 0) by {
        if s.files.dom().len() == 0 {
            assert(s.files.dom() =~= Set::empty());
        }
    }
}

/// What goes wrong with an upload is told to the phone by its status, and the words for it differ.
pub proof fn law_faults_have_their_status(fault: UploadFault)
    ensures
        fault is Timeout <==> fault.status() == 408,
        fault is TooLarge <==> fault.status() == 413,
        !(fault is Timeout) && !(fault is TooLarge) ==> fault.status() == 500,
{
}

} // verus!
