//! Uploaded files between the phone that sends them and the PC that fetches them: their records,
//! the quota that they count against, and the pipes through which some of them are streamed.
//!
//! The store decides and keeps count. Reading, writing and deleting the files on disk, and carrying
//! the bytes through a pipe, is its caller's part: a method that gives up a file returns the path to
//! delete, and a pipe is known here by the number of its channel.

use crate::clock::Moment;
use crate::ids;
use crate::ids::{new_id, parse_id, Id};
use crate::names;
use crate::names::sanitize_file_name;
use crate::server::pairing::{encode_hex, random_bytes_32};
use crate::table::Table;
use crate::text;
use crate::text::{chars_of, push_chars, string_of, strip_prefix, strip_suffix};
use std::collections::HashMap;
use vstd::prelude::*;

verus! {

broadcast use vstd::std_specs::hash::group_hash_axioms;

/// One unit of a streamed transfer.
#[derive(Debug)]
pub enum StreamItem {
    /// Some bytes of the file.
    Data(Vec<u8>),
    /// The end, with the digest of the whole file.
    End { sha256: [u8; 32] },
    /// The transfer was broken off.
    Abort { reason: String },
}

/// Why a stream could not be taken over.
#[derive(Debug, Clone, Copy, PartialEq, Eq, Structural)]
pub enum AttachError {
    /// There is no stream for the file.
    NotFound,
    /// Someone else has taken it over.
    AlreadyAttached,
}

/// What became of a chunk.
#[derive(Debug, Clone, Copy, PartialEq, Eq, Structural)]
pub enum SendChunkResult {
    /// It was sent.
    Sent,
    /// The receiver is gone.
    Disconnected,
    /// The pipe stayed full for too long.
    Timeout,
}

/// What became of the last item of a stream.
#[derive(Debug, Clone, Copy, PartialEq, Eq, Structural)]
pub enum SendTerminalResult {
    /// It was sent.
    Sent,
    /// The receiver is gone.
    Disconnected,
    /// The pipe stayed full for too long.
    Timeout,
}

/// How the attempt to put an item into a pipe ended.
#[derive(Debug, Clone, Copy, PartialEq, Eq, Structural)]
pub enum Delivery {
    /// The pipe took it.
    Delivered,
    /// The other end was closed.
    Closed,
    /// It did not fit within five seconds.
    TimedOut,
}

/// Seconds for which a full pipe is waited for.
pub const SEND_TIMEOUT_SECS: u64 = 5;

/// How many items a pipe holds.
pub const STREAM_CAPACITY: usize = 4;

/// Where a file stands on its way.
///
/// `Uploading`, then `StoredUnnotified`, `Notifying`, `Notified` and `Acked`. A streamed file goes
/// from `Uploading` to `Notified` at once. A file that fails is removed, not marked.
#[derive(Debug, Clone, Copy, PartialEq, Eq, Structural)]
pub enum FileStatus {
    /// Still coming in; counted with the largest size that it may have.
    Uploading,
    /// On disk; the PC has not been told.
    StoredUnnotified,
    /// The PC is being told.
    Notifying,
    /// The PC has been told and has not answered.
    Notified,
    /// The PC has it.
    Acked,
}

/// The record of one file.
#[derive(Debug)]
pub struct FileMeta {
    /// The pairing it belongs to.
    pub pairing_id: Id,
    /// Where it stands.
    pub status: FileStatus,
    /// When its upload began.
    pub uploaded_at: Moment,
    /// Where it lies on disk, once it does.
    pub file_path: String,
    /// Its size; while it is coming in, the size reserved for it.
    pub size_bytes: u64,
    /// The secret that the PC fetches it with.
    pub file_access_token: [u8; 32],
    /// The name that is safe to store it under.
    pub file_name: String,
    /// The name that it was sent under.
    pub raw_filename: String,
    /// Its media type.
    pub mime_type: String,
    /// Its digest in hexadecimal, empty while it is coming in.
    pub sha256: String,
}

/// The record of one file, for contracts.
#[verifier::ext_equal]
pub struct FileView {
    pub pairing_id: Id,
    pub status: FileStatus,
    pub uploaded_at: Moment,
    pub file_path: Seq<char>,
    pub size_bytes: u64,
    pub file_access_token: Seq<u8>,
    pub file_name: Seq<char>,
    pub raw_filename: Seq<char>,
    pub mime_type: Seq<char>,
    pub sha256: Seq<char>,
}

impl View for FileMeta {
    type V = FileView;

    open spec fn view(&self) -> FileView {
        FileView {
            pairing_id: self.pairing_id,
            status: self.status,
            uploaded_at: self.uploaded_at,
            file_path: self.file_path@,
            size_bytes: self.size_bytes,
            file_access_token: self.file_access_token@,
            file_name: self.file_name@,
            raw_filename: self.raw_filename@,
            mime_type: self.mime_type@,
            sha256: self.sha256@,
        }
    }
}

/// Why an upload may not begin.
#[derive(Debug, Clone, Copy, PartialEq, Eq, Structural)]
pub enum UploadLimitError {
    /// The pairing has as many files pending as it may have.
    PerPairingFileLimitReached,
    /// All pairings together have as many files pending as they may have.
    GlobalFileLimitReached,
    /// The pending files may come to more bytes than they may.
    GlobalByteLimitReached,
    /// The pairing is closed.
    PairingClosed,
}

/// Why a file was not saved.
#[derive(Debug)]
pub enum SaveFileError {
    /// A limit stands against it.
    Limit(UploadLimitError),
    /// The disk failed.
    Io(String),
    /// It is larger than it may be.
    TooLarge,
    /// Its bytes came too slowly.
    Timeout,
}

/// What is pending for one pairing.
#[derive(Debug)]
struct PairingState {
    file_ids: Vec<Id>,
    closed: bool,
    pending_count: u32,
}

/// What is pending for one pairing, for contracts.
#[verifier::ext_equal]
pub struct PairingQuota {
    pub file_ids: Seq<Id>,
    pub closed: bool,
    pub pending: u32,
}

impl View for PairingState {
    type V = PairingQuota;

    closed spec fn view(&self) -> PairingQuota {
        PairingQuota {
            file_ids: self.file_ids@,
            closed: self.closed,
            pending: self.pending_count,
        }
    }
}

/// What is pending altogether.
struct ReservationState {
    pairings: HashMap<Id, PairingState>,
    global_pending_files: u32,
    global_pending_bytes: u64,
}

/// What is pending altogether, for contracts.
#[verifier::ext_equal]
pub struct Quota {
    pub pairings: Map<Id, PairingQuota>,
    pub files: u32,
    pub bytes: u64,
}

impl View for ReservationState {
    type V = Quota;

    closed spec fn view(&self) -> Quota {
        Quota {
            pairings: self.pairings@.map_values(|p: PairingState| p@),
            files: self.global_pending_files,
            bytes: self.global_pending_bytes,
        }
    }
}

/// The sum, or the largest `u64` where it is larger.
pub open spec fn sat_add(a: u64, b: u64) -> u64 {
    if a + b > u64::MAX {
        u64::MAX
    } else {
        (a + b) as u64
    }
}

/// The difference, or zero where it is negative.
pub open spec fn sat_sub(a: u64, b: u64) -> u64 {
    if a < b {
        0
    } else {
        (a - b) as u64
    }
}

/// The list without the given entry.
pub open spec fn without(ids: Seq<Id>, id: Id) -> Seq<Id>
    decreases ids.len(),
{
    if ids.len() == 0 {
        ids
    } else if ids.last() == id {
        without(ids.drop_last(), id)
    } else {
        without(ids.drop_last(), id).push(ids.last())
    }
}

impl Quota {
    /// Nothing pending.
    pub open spec fn none() -> Quota {
        Quota { pairings: Map::empty(), files: 0, bytes: 0 }
    }

    /// What is pending for a pairing; nothing for one that was never heard of.
    pub open spec fn of(self, pairing_id: Id) -> PairingQuota {
        if self.pairings.contains_key(pairing_id) {
            self.pairings[pairing_id]
        } else {
            PairingQuota { file_ids: Seq::empty(), closed: false, pending: 0 }
        }
    }

    /// One more file, of the given size.
    pub open spec fn reserve(self, file_id: Id, pairing_id: Id, size: u64) -> Quota {
        let p = self.of(pairing_id);
        Quota {
            pairings: self.pairings.insert(
                pairing_id,
                PairingQuota {
                    file_ids: p.file_ids.push(file_id),
                    closed: p.closed,
                    pending: (p.pending + 1) as u32,
                },
            ),
            files: (self.files + 1) as u32,
            bytes: sat_add(self.bytes, size),
        }
    }

    /// The file no longer counts, if it did.
    pub open spec fn release(self, file_id: Id, pairing_id: Id, size: u64) -> Quota {
        let p = self.of(pairing_id);
        if p.file_ids.contains(file_id) {
            Quota {
                pairings: self.pairings.insert(
                    pairing_id,
                    PairingQuota {
                        file_ids: without(p.file_ids, file_id),
                        closed: p.closed,
                        pending: if p.pending == 0 {
                            0
                        } else {
                            (p.pending - 1) as u32
                        },
                    },
                ),
                files: if self.files == 0 {
                    0
                } else {
                    (self.files - 1) as u32
                },
                bytes: sat_sub(self.bytes, size),
            }
        } else {
            self
        }
    }

    /// A file turned out to have another size than was reserved for it.
    pub open spec fn correct(self, reserved: u64, actual: u64) -> Quota {
        Quota {
            bytes: if actual > reserved {
                sat_add(self.bytes, (actual - reserved) as u64)
            } else {
                sat_sub(self.bytes, (reserved - actual) as u64)
            },
            ..self
        }
    }

    /// The pairing takes no more files.
    pub open spec fn close(self, pairing_id: Id) -> Quota {
        Quota {
            pairings: self.pairings.insert(
                pairing_id,
                PairingQuota { closed: true, ..self.of(pairing_id) },
            ),
            ..self
        }
    }
}

/// Is the entry in the list?
fn listed(ids: &Vec<Id>, id: Id) -> (r: bool)
    ensures
        r == ids@.contains(id),
{
    for i in 0..ids.len()
        invariant
            forall|j: int| 0 <= j < i ==> ids@[j] != id,
    {
        if ids[i] == id {
            assert(ids@[i as int] == id);
            return true;
        }
    }
    false
}

/// The list without the given entry.
fn unlisted(ids: &Vec<Id>, id: Id) -> (r: Vec<Id>)
    ensures
        r@ == without(ids@, id),
{
    let mut out: Vec<Id> = Vec::new();
    for i in 0..ids.len()
        invariant
            out@ == without(ids@.take(i as int), id),
    {
        proof {
            assert(ids@.take(i as int + 1).drop_last() =~= ids@.take(i as int));
        }
        if ids[i] != id {
            out.push(ids[i]);
        }
    }
    assert(ids@.take(ids@.len() as int) =~= ids@);
    out
}

/// A copy of the list.
fn copy_ids(ids: &Vec<Id>) -> (r: Vec<Id>)
    ensures
        r@ == ids@,
{
    let mut out: Vec<Id> = Vec::new();
    for i in 0..ids.len()
        invariant
            out@ == ids@.take(i as int),
    {
        out.push(ids[i]);
        assert(ids@.take(i as int + 1) =~= ids@.take(i as int).push(ids@[i as int]));
    }
    assert(ids@.take(ids@.len() as int) =~= ids@);
    out
}

impl ReservationState {
    fn new() -> (r: Self)
        ensures
            r@ == Quota::none(),
    {
        let r = ReservationState {
            pairings: HashMap::new(),
            global_pending_files: 0,
            global_pending_bytes: 0,
        };
        assert(r@.pairings =~= Map::empty());
        r
    }

    fn is_pairing_closed(&self, pairing_id: Id) -> (r: bool)
        ensures
            r == self@.of(pairing_id).closed,
    {
        match self.pairings.get(&pairing_id) {
            Some(p) => p.closed,
            None => false,
        }
    }

    fn count_pending_for_pairing(&self, pairing_id: Id) -> (r: u32)
        ensures
            r == self@.of(pairing_id).pending,
    {
        match self.pairings.get(&pairing_id) {
            Some(p) => p.pending_count,
            None => 0,
        }
    }

    /// The state of a pairing, taken out of the map; a new one where there is none.
    fn take(&mut self, pairing_id: Id) -> (r: PairingState)
        ensures
            r@ == old(self)@.of(pairing_id),
            final(self).pairings@ == old(self).pairings@.remove(pairing_id),
            final(self).global_pending_files == old(self).global_pending_files,
            final(self).global_pending_bytes == old(self).global_pending_bytes,
    {
        match self.pairings.remove(&pairing_id) {
            Some(p) => p,
            None => {
                let p = PairingState { file_ids: Vec::new(), closed: false, pending_count: 0 };
                assert(p@ =~= self@.of(pairing_id));
                p
            },
        }
    }

    fn reserve(&mut self, file_id: Id, pairing_id: Id, reserved_bytes: u64)
        requires
            old(self)@.of(pairing_id).pending < u32::MAX,
            old(self)@.files < u32::MAX,
        ensures
            final(self)@ == old(self)@.reserve(file_id, pairing_id, reserved_bytes),
    {
        let mut p = self.take(pairing_id);
        p.file_ids.push(file_id);
        p.pending_count = p.pending_count + 1;
        self.pairings.insert(pairing_id, p);
        self.global_pending_files = self.global_pending_files + 1;
        self.global_pending_bytes = self.global_pending_bytes.saturating_add(reserved_bytes);
        assert(self@.pairings =~= old(self)@.reserve(file_id, pairing_id, reserved_bytes).pairings);
    }

    fn release(&mut self, file_id: Id, pairing_id: Id, reserved_bytes: u64)
        ensures
            final(self)@ == old(self)@.release(file_id, pairing_id, reserved_bytes),
    {
        let counted = match self.pairings.get(&pairing_id) {
            Some(p) => listed(&p.file_ids, file_id),
            None => false,
        };
        if counted {
            let mut p = self.take(pairing_id);
            p.file_ids = unlisted(&p.file_ids, file_id);
            p.pending_count = p.pending_count.saturating_sub(1);
            self.pairings.insert(pairing_id, p);
            self.global_pending_files = self.global_pending_files.saturating_sub(1);
            self.global_pending_bytes = self.global_pending_bytes.saturating_sub(reserved_bytes);
            assert(self@.pairings =~= old(self)@.release(
                file_id,
                pairing_id,
                reserved_bytes,
            ).pairings);
        }
    }

    fn correct_bytes(&mut self, old_reserved: u64, actual_size: u64)
        ensures
            final(self)@ == old(self)@.correct(old_reserved, actual_size),
    {
        if actual_size > old_reserved {
            self.global_pending_bytes =
                self.global_pending_bytes.saturating_add(actual_size - old_reserved);
        } else {
            self.global_pending_bytes =
                self.global_pending_bytes.saturating_sub(old_reserved - actual_size);
        }
    }

    /// The files that are pending for a pairing, in the order in which they began.
    fn files_of(&self, pairing_id: Id) -> (r: Vec<Id>)
        ensures
            r@ == self@.of(pairing_id).file_ids,
    {
        match self.pairings.get(&pairing_id) {
            Some(p) => copy_ids(&p.file_ids),
            None => {
                let none: Vec<Id> = Vec::new();
                assert(none@ =~= self@.of(pairing_id).file_ids);
                none
            },
        }
    }

    /// Closes the pairing and returns the files that are pending for it.
    fn close(&mut self, pairing_id: Id) -> (r: Vec<Id>)
        ensures
            final(self)@ == old(self)@.close(pairing_id),
            r@ == old(self)@.of(pairing_id).file_ids,
    {
        let mut p = self.take(pairing_id);
        p.closed = true;
        let ids = copy_ids(&p.file_ids);
        self.pairings.insert(pairing_id, p);
        assert(self@.pairings =~= old(self)@.close(pairing_id).pairings);
        ids
    }
}

/// What may be pending.
#[derive(Debug, Clone, Copy, PartialEq, Eq, Structural)]
pub struct Limits {
    /// The largest file, in bytes.
    pub max_upload_size_bytes: u64,
    /// Files of one pairing.
    pub max_pending_upload_files_per_pairing: u32,
    /// Files of all pairings.
    pub max_pending_upload_files_global: u32,
    /// Bytes of all pairings.
    pub max_pending_upload_bytes_global: u64,
}

/// One stream: the number of its channel, and whether its receiver has been handed out.
#[derive(Debug, Clone, Copy, PartialEq, Eq, Structural)]
pub struct StreamSlot {
    /// The number of the channel.
    pub channel: u64,
    /// Has someone taken the receiver?
    pub attached: bool,
}

impl StreamSlot {
    /// The number of the channel.
    pub fn number(&self) -> (r: u64)
        ensures
            r == self.channel,
    {
        self.channel
    }
}

/// The files that the server holds for its pairings.
pub struct UploadStore {
    files: Table<Id, FileMeta>,
    reservation: ReservationState,
    limits: Limits,
    streaming_states: Table<Id, StreamSlot>,
}

/// The store, for contracts.
#[verifier::ext_equal]
pub struct StoreView {
    pub files: Map<Id, FileView>,
    pub quota: Quota,
    pub limits: Limits,
    pub streams: Map<Id, StreamSlot>,
}

impl View for UploadStore {
    type V = StoreView;

    closed spec fn view(&self) -> StoreView {
        StoreView {
            files: self.files@.map_values(|m: FileMeta| m@),
            quota: self.reservation@,
            limits: self.limits,
            streams: self.streaming_states@,
        }
    }
}

impl StoreView {
    /// What became of the last item of a stream: there is nobody to send it to where there is no
    /// stream.
    pub open spec fn terminal_result(self, file_id: Id, delivery: Delivery) -> SendTerminalResult {
        if !self.streams.contains_key(file_id) {
            SendTerminalResult::Disconnected
        } else {
            match delivery {
                Delivery::Delivered => SendTerminalResult::Sent,
                Delivery::Closed => SendTerminalResult::Disconnected,
                Delivery::TimedOut => SendTerminalResult::Timeout,
            }
        }
    }

    /// What stands against one more upload for the pairing: first that it is closed, then its own
    /// limit, then the limit on files, then the limit on bytes.
    pub open spec fn limit_error(self, pairing_id: Id) -> Option<UploadLimitError> {
        if self.quota.of(pairing_id).closed {
            Some(UploadLimitError::PairingClosed)
        } else if self.quota.of(pairing_id).pending
            >= self.limits.max_pending_upload_files_per_pairing {
            Some(UploadLimitError::PerPairingFileLimitReached)
        } else if self.quota.files >= self.limits.max_pending_upload_files_global {
            Some(UploadLimitError::GlobalFileLimitReached)
        } else if self.quota.bytes + self.limits.max_upload_size_bytes
            > self.limits.max_pending_upload_bytes_global {
            Some(UploadLimitError::GlobalByteLimitReached)
        } else {
            None
        }
    }

    /// A file that is beginning to come in, counted with the largest size that it may have.
    pub open spec fn begin(self, file_id: Id, file: FileView) -> StoreView {
        StoreView {
            files: self.files.insert(file_id, file),
            quota: self.quota.reserve(file_id, file.pairing_id, file.size_bytes),
            ..self
        }
    }

    /// The record of a file that is beginning to come in.
    pub open spec fn incoming(
        self,
        pairing_id: Id,
        token: Seq<u8>,
        name: Seq<char>,
        raw: Seq<char>,
        mime_type: Seq<char>,
        now: Moment,
    ) -> FileView {
        FileView {
            pairing_id,
            status: FileStatus::Uploading,
            uploaded_at: now,
            file_path: Seq::empty(),
            size_bytes: self.limits.max_upload_size_bytes,
            file_access_token: token,
            file_name: name,
            raw_filename: raw,
            mime_type,
            sha256: Seq::empty(),
        }
    }

    /// The size that a file is counted with; the largest size for one that is not known.
    pub open spec fn counted_size(self, file_id: Id) -> u64 {
        if self.files.contains_key(file_id) {
            self.files[file_id].size_bytes
        } else {
            self.limits.max_upload_size_bytes
        }
    }

    /// An upload that is taken back.
    pub open spec fn rollback(self, file_id: Id, pairing_id: Id) -> StoreView {
        StoreView {
            files: self.files.remove(file_id),
            quota: self.quota.release(file_id, pairing_id, self.counted_size(file_id)),
            streams: self.streams.remove(file_id),
            ..self
        }
    }

    /// A file that is dropped, if it is known.
    pub open spec fn drop_file(self, file_id: Id) -> StoreView {
        if self.files.contains_key(file_id) {
            let file = self.files[file_id];
            StoreView {
                files: self.files.remove(file_id),
                quota: self.quota.release(file_id, file.pairing_id, file.size_bytes),
                ..self
            }
        } else {
            self
        }
    }

    /// A file that is dropped together with its stream.
    pub open spec fn remove(self, file_id: Id) -> StoreView {
        StoreView { streams: self.streams.remove(file_id), ..self.drop_file(file_id) }
    }

    /// Is the file known, with this status?
    pub open spec fn has_status(self, file_id: Id, status: FileStatus) -> bool {
        self.files.contains_key(file_id) && self.files[file_id].status == status
    }

    /// The known file with another status.
    pub open spec fn with_status(self, file_id: Id, status: FileStatus) -> StoreView {
        StoreView {
            files: self.files.insert(file_id, FileView { status, ..self.files[file_id] }),
            ..self
        }
    }

    /// May the PC be told of the file: is it stored and not yet told of, does it belong to the
    /// pairing, and is the pairing open?
    pub open spec fn can_notify(self, file_id: Id, pairing_id: Id) -> bool {
        &&& !self.quota.of(pairing_id).closed
        &&& self.has_status(file_id, FileStatus::StoredUnnotified)
        &&& self.files[file_id].pairing_id == pairing_id
    }

    /// A file that has come in whole, if it is known: its place, its size and its digest.
    pub open spec fn complete(
        self,
        file_id: Id,
        status: FileStatus,
        path: Seq<char>,
        size: u64,
        sha256: Seq<char>,
    ) -> StoreView {
        if self.files.contains_key(file_id) {
            let file = self.files[file_id];
            StoreView {
                files: self.files.insert(
                    file_id,
                    FileView { status, file_path: path, size_bytes: size, sha256, ..file },
                ),
                quota: self.quota.correct(file.size_bytes, size),
                ..self
            }
        } else {
            self
        }
    }

    /// A file that is dropped if it is stored and not yet told of; it counts for `pairing_id`.
    pub open spec fn drop_stored(self, file_id: Id, pairing_id: Id) -> StoreView {
        if self.has_status(file_id, FileStatus::StoredUnnotified) {
            StoreView {
                files: self.files.remove(file_id),
                quota: self.quota.release(file_id, pairing_id, self.files[file_id].size_bytes),
                ..self
            }
        } else {
            self
        }
    }

    /// The listed files dropped one after the other, where they are stored and not yet told of.
    pub open spec fn sweep(self, ids: Seq<Id>, pairing_id: Id) -> StoreView
        decreases ids.len(),
    {
        if ids.len() == 0 {
            self
        } else {
            self.sweep(ids.drop_last(), pairing_id).drop_stored(ids.last(), pairing_id)
        }
    }

    /// The paths of the files that [`StoreView::sweep`] drops, in order.
    pub open spec fn swept_paths(self, ids: Seq<Id>, pairing_id: Id) -> Seq<Seq<char>>
        decreases ids.len(),
    {
        if ids.len() == 0 {
            Seq::empty()
        } else {
            let before = self.sweep(ids.drop_last(), pairing_id);
            let paths = self.swept_paths(ids.drop_last(), pairing_id);
            if before.has_status(ids.last(), FileStatus::StoredUnnotified) {
                paths.push(before.files[ids.last()].file_path)
            } else {
                paths
            }
        }
    }

    /// What the receiver of a file's stream may be had for.
    pub open spec fn attach_result(self, file_id: Id) -> Result<u64, AttachError> {
        if !self.streams.contains_key(file_id) {
            Err(AttachError::NotFound)
        } else if self.streams[file_id].attached {
            Err(AttachError::AlreadyAttached)
        } else {
            Ok(self.streams[file_id].channel)
        }
    }

    /// The receiver of a file's stream handed out, where it may be had.
    pub open spec fn attach(self, file_id: Id) -> StoreView {
        if self.attach_result(file_id) is Ok {
            StoreView {
                streams: self.streams.insert(
                    file_id,
                    StreamSlot { attached: true, ..self.streams[file_id] },
                ),
                ..self
            }
        } else {
            self
        }
    }

    /// The pairing closed, before its files are swept.
    pub open spec fn close(self, pairing_id: Id) -> StoreView {
        StoreView { quota: self.quota.close(pairing_id), ..self }
    }

    /// The pairing closed, and its stored files that the PC was not told of dropped.
    pub open spec fn cleanup(self, pairing_id: Id) -> StoreView {
        self.close(pairing_id).sweep(self.quota.of(pairing_id).file_ids, pairing_id)
    }
}

/// The record of one file as it stands, for who asks.
#[derive(Debug)]
pub struct FileMetaSnapshot {
    /// The pairing it belongs to.
    pub pairing_id: Id,
    /// Where it stands.
    pub status: FileStatus,
    /// Where it lies on disk.
    pub file_path: String,
    /// The secret that the PC fetches it with.
    pub file_access_token: [u8; 32],
    /// The name that is safe to store it under.
    pub file_name: String,
    /// Its media type.
    pub mime_type: String,
    /// Its size.
    pub size_bytes: u64,
    /// Its digest in hexadecimal.
    pub sha256: String,
}

impl FileMetaSnapshot {
    /// Does the snapshot show this record?
    pub open spec fn shows(self, file: FileView) -> bool {
        &&& self.pairing_id == file.pairing_id
        &&& self.status == file.status
        &&& self.file_path@ == file.file_path
        &&& self.file_access_token@ == file.file_access_token
        &&& self.file_name@ == file.file_name
        &&& self.mime_type@ == file.mime_type
        &&& self.size_bytes == file.size_bytes
        &&& self.sha256@ == file.sha256
    }
}

impl FileMeta {
    /// The record as it stands.
    pub fn snapshot(&self) -> (r: FileMetaSnapshot)
        ensures
            r.shows(self@),
    {
        FileMetaSnapshot {
            pairing_id: self.pairing_id,
            status: self.status,
            file_path: self.file_path.clone(),
            file_access_token: self.file_access_token,
            file_name: self.file_name.clone(),
            mime_type: self.mime_type.clone(),
            size_bytes: self.size_bytes,
            sha256: self.sha256.clone(),
        }
    }
}

/// The characters of each string.
pub open spec fn texts(v: Seq<String>) -> Seq<Seq<char>> {
    v.map_values(|s: String| s@)
}

/// Which file of an upload is to be deleted from disk.
#[derive(Debug, Clone, Copy, PartialEq, Eq, Structural)]
pub enum Leftover {
    /// None.
    Nothing,
    /// The one that the bytes were written to.
    Temporary,
    /// The one under its final name.
    Final,
}

impl UploadStore {
    /// An empty store with the given limits.
    pub fn new(
        max_upload_size_bytes: u64,
        max_pending_upload_files_per_pairing: u32,
        max_pending_upload_files_global: u32,
        max_pending_upload_bytes_global: u64,
    ) -> (r: Self)
        ensures
            r@ == (StoreView {
                files: Map::empty(),
                quota: Quota::none(),
                limits: Limits {
                    max_upload_size_bytes,
                    max_pending_upload_files_per_pairing,
                    max_pending_upload_files_global,
                    max_pending_upload_bytes_global,
                },
                streams: Map::empty(),
            }),
    {
        let r = UploadStore {
            files: Table::new(),
            reservation: ReservationState::new(),
            limits: Limits {
                max_upload_size_bytes,
                max_pending_upload_files_per_pairing,
                max_pending_upload_files_global,
                max_pending_upload_bytes_global,
            },
            streaming_states: Table::new(),
        };
        assert(r@.files =~= Map::empty());
        assert(r@.streams =~= Map::empty());
        r
    }

    /// Takes an upload back: its record, its stream and what was reserved for it.
    pub fn rollback_upload(&mut self, file_id: Id, pairing_id: Id)
        ensures
            final(self)@ == old(self)@.rollback(file_id, pairing_id),
    {
        self.streaming_states.remove(&file_id);
        let size: u64 = match self.files.remove(&file_id) {
            Some(file) => file.size_bytes,
            None => self.limits.max_upload_size_bytes,
        };
        self.reservation.release(file_id, pairing_id, size);
        assert(self@.files =~= old(self)@.files.remove(file_id));
    }

    /// Where the file lies on disk, while it is stored and not acknowledged.
    pub fn get_file_path(&self, file_id: Id) -> (r: Option<String>)
        ensures
            text::opt_chars(r) == (if self@.files.contains_key(file_id) && (
            self@.files[file_id].status is StoredUnnotified
                || self@.files[file_id].status is Notifying
                || self@.files[file_id].status is Notified) {
                Some(self@.files[file_id].file_path)
            } else {
                None
            }),
    {
        match self.get_file_meta(file_id) {
            Some(file) => match file.status {
                FileStatus::StoredUnnotified | FileStatus::Notifying | FileStatus::Notified => Some(
                    file.file_path,
                ),
                _ => None,
            },
            None => None,
        }
    }

    /// The record of a file as it stands.
    pub fn get_file_meta(&self, file_id: Id) -> (r: Option<FileMetaSnapshot>)
        ensures
            match r {
                Some(file) => self@.files.contains_key(file_id) && file.shows(self@.files[file_id]),
                None => !self@.files.contains_key(file_id),
            },
    {
        self.files.peek(&file_id, FileMeta::snapshot)
    }

    /// The status of a file.
    fn status_of(&self, file_id: Id) -> (r: Option<FileStatus>)
        ensures
            r == (if self@.files.contains_key(file_id) {
                Some(self@.files[file_id].status)
            } else {
                None
            }),
    {
        match self.get_file_meta(file_id) {
            Some(file) => Some(file.status),
            None => None,
        }
    }

    /// Gives a known file another status.
    fn set_status(&mut self, file_id: Id, status: FileStatus)
        requires
            old(self)@.files.contains_key(file_id),
        ensures
            final(self)@ == old(self)@.with_status(file_id, status),
    {
        if let Some(file) = self.files.remove(&file_id) {
            let mut file = file;
            file.status = status;
            self.files.insert(file_id, file);
        }
        assert(self@.files =~= old(self)@.with_status(file_id, status).files);
    }

    /// Begins to tell the PC of a file, if it may be told; says whether it may.
    pub fn begin_notifying(&mut self, file_id: Id, pairing_id: Id) -> (r: bool)
        ensures
            r == old(self)@.can_notify(file_id, pairing_id),
            final(self)@ == (if r {
                old(self)@.with_status(file_id, FileStatus::Notifying)
            } else {
                old(self)@
            }),
    {
        if self.reservation.is_pairing_closed(pairing_id) {
            return false;
        }
        let ready = match self.get_file_meta(file_id) {
            Some(file) => file.status == FileStatus::StoredUnnotified && file.pairing_id
                == pairing_id,
            None => false,
        };
        if ready {
            self.set_status(file_id, FileStatus::Notifying);
            true
        } else {
            false
        }
    }

    /// The PC has been told of the file.
    pub fn mark_notified(&mut self, file_id: Id)
        ensures
            final(self)@ == (if old(self)@.has_status(file_id, FileStatus::Notifying) {
                old(self)@.with_status(file_id, FileStatus::Notified)
            } else {
                old(self)@
            }),
    {
        if self.status_of(file_id) == Some(FileStatus::Notifying) {
            self.set_status(file_id, FileStatus::Notified);
        }
    }

    /// Drops the record of a file and what was reserved for it; returns the path to delete.
    fn forget(&mut self, file_id: Id) -> (r: Option<String>)
        ensures
            final(self)@ == old(self)@.drop_file(file_id),
            text::opt_chars(r) == (if old(self)@.files.contains_key(file_id) {
                Some(old(self)@.files[file_id].file_path)
            } else {
                None
            }),
    {
        match self.files.remove(&file_id) {
            Some(file) => {
                self.reservation.release(file_id, file.pairing_id, file.size_bytes);
                assert(self@.files =~= old(self)@.files.remove(file_id));
                Some(file.file_path)
            },
            None => {
                assert(self@.files =~= old(self)@.files);
                None
            },
        }
    }

    /// The PC could not be told of the file: it is dropped. Returns the path to delete.
    pub fn mark_notify_failed(&mut self, file_id: Id) -> (r: Option<String>)
        ensures
            final(self)@ == old(self)@.drop_file(file_id),
            text::opt_chars(r) == (if old(self)@.files.contains_key(file_id) {
                Some(old(self)@.files[file_id].file_path)
            } else {
                None
            }),
    {
        self.forget(file_id)
    }

    /// Closes a pairing, and drops those of its files that are stored and that the PC has not been
    /// told of. Returns the paths to delete.
    pub fn cleanup_pairing(&mut self, pairing_id: Id) -> (r: Vec<String>)
        ensures
            final(self)@ == old(self)@.cleanup(pairing_id),
            texts(r@) == old(self)@.close(pairing_id).swept_paths(
                old(self)@.quota.of(pairing_id).file_ids,
                pairing_id,
            ),
    {
        let ids = self.reservation.close(pairing_id);
        let ghost start = self@;
        let mut paths: Vec<String> = Vec::new();
        assert(start == old(self)@.close(pairing_id));
        for i in 0..ids.len()
            invariant
                self@ == start.sweep(ids@.take(i as int), pairing_id),
                texts(paths@) == start.swept_paths(ids@.take(i as int), pairing_id),
        {
            let id = ids[i];
            let ghost before = self@;
            let ghost before_paths = paths@;
            proof {
                assert(ids@.take(i as int + 1).drop_last() =~= ids@.take(i as int));
            }
            if self.status_of(id) == Some(FileStatus::StoredUnnotified) {
                if let Some(file) = self.files.remove(&id) {
                    self.reservation.release(id, pairing_id, file.size_bytes);
                    paths.push(file.file_path);
                }
                assert(self@.files =~= before.files.remove(id));
                assert(texts(paths@) =~= texts(before_paths).push(before.files[id].file_path));
            }
        }
        assert(ids@.take(ids@.len() as int) =~= ids@);
        paths
    }

    /// The files that are pending for a pairing, in the order in which they began.
    pub fn files_of(&self, pairing_id: Id) -> (r: Vec<Id>)
        ensures
            r@ == self@.quota.of(pairing_id).file_ids,
    {
        self.reservation.files_of(pairing_id)
    }

    /// Drops a file and its stream. Returns the path to delete.
    pub fn remove_file(&mut self, file_id: Id) -> (r: Option<String>)
        ensures
            final(self)@ == old(self)@.remove(file_id),
            text::opt_chars(r) == (if old(self)@.files.contains_key(file_id) {
                Some(old(self)@.files[file_id].file_path)
            } else {
                None
            }),
    {
        self.streaming_states.remove(&file_id);
        self.forget(file_id)
    }

    /// Checks the limits for one more upload and, where none stands against it, records the file as
    /// coming in under the given identifier and token.
    pub fn begin_upload_as(
        &mut self,
        file_id: Id,
        token: [u8; 32],
        pairing_id: Id,
        file_name: &str,
        raw_filename: &str,
        mime_type: String,
        now: Moment,
    ) -> (r: Result<(), UploadLimitError>)
        ensures
            match old(self)@.limit_error(pairing_id) {
                Some(e) => r == Err::<(), UploadLimitError>(e) && final(self)@ == old(self)@,
                None => r is Ok && final(self)@ == old(self)@.begin(
                    file_id,
                    old(self)@.incoming(
                        pairing_id,
                        token@,
                        file_name@,
                        raw_filename@,
                        mime_type@,
                        now,
                    ),
                ),
            },
    {
        if self.reservation.is_pairing_closed(pairing_id) {
            return Err(UploadLimitError::PairingClosed);
        }
        let pending: u32 = self.reservation.count_pending_for_pairing(pairing_id);
        if pending >= self.limits.max_pending_upload_files_per_pairing {
            return Err(UploadLimitError::PerPairingFileLimitReached);
        }
        if self.reservation.global_pending_files >= self.limits.max_pending_upload_files_global {
            return Err(UploadLimitError::GlobalFileLimitReached);
        }
        let room = match self.reservation.global_pending_bytes.checked_add(
            self.limits.max_upload_size_bytes,
        ) {
            Some(bytes) => bytes <= self.limits.max_pending_upload_bytes_global,
            None => false,
        };
        if !room {
            return Err(UploadLimitError::GlobalByteLimitReached);
        }
        let meta = FileMeta {
            pairing_id,
            status: FileStatus::Uploading,
            uploaded_at: now,
            file_path: String::new(),
            size_bytes: self.limits.max_upload_size_bytes,
            file_access_token: token,
            file_name: string_of(&chars_of(file_name)),
            raw_filename: string_of(&chars_of(raw_filename)),
            mime_type,
            sha256: String::new(),
        };
        let ghost file = old(self)@.incoming(
            pairing_id,
            token@,
            file_name@,
            raw_filename@,
            mime_type@,
            now,
        );
        assert(meta@ =~= file);
        self.files.insert(file_id, meta);
        self.reservation.reserve(file_id, pairing_id, self.limits.max_upload_size_bytes);
        assert(self@.files =~= old(self)@.files.insert(file_id, file));
        Ok(())
    }

    /// Begins an upload: a fresh identifier, a fresh token and a safe name, recorded as coming in
    /// where no limit stands against it.
    pub fn begin_upload(
        &mut self,
        pairing_id: Id,
        raw_filename: &str,
        mime_type: String,
        now: Moment,
    ) -> (r: Result<(Id, [u8; 32], String), SaveFileError>)
        ensures
            match r {
                Ok((file_id, token, name)) => {
                    &&& old(self)@.limit_error(pairing_id) is None
                    &&& ids::is_random_id(file_id)
                    &&& exists|base: Seq<char>| #[trigger]
                        names::is_base_of(raw_filename@, base) && name@ == names::stored_name(
                            base,
                            file_id,
                        )
                    &&& final(self)@ == old(self)@.begin(
                        file_id,
                        old(self)@.incoming(
                            pairing_id,
                            token@,
                            name@,
                            raw_filename@,
                            mime_type@,
                            now,
                        ),
                    )
                },
                Err(e) => {
                    &&& e matches SaveFileError::Limit(limit)
                    &&& old(self)@.limit_error(pairing_id) == Some(limit)
                    &&& final(self)@ == old(self)@
                },
            },
    {
        let file_id = new_id();
        let name = sanitize_file_name(raw_filename, &file_id);
        let token = random_bytes_32();
        match self.begin_upload_as(
            file_id,
            token,
            pairing_id,
            &name,
            raw_filename,
            mime_type,
            now,
        ) {
            Ok(()) => Ok((file_id, token, name)),
            Err(e) => Err(SaveFileError::Limit(e)),
        }
    }

    /// Opens a stream for a file over the given channel, in place of any that it had.
    pub fn create_streaming_state(&mut self, file_id: Id, channel: u64)
        ensures
            final(self)@ == (StoreView {
                streams: old(self)@.streams.insert(
                    file_id,
                    StreamSlot { channel, attached: false },
                ),
                ..old(self)@
            }),
    {
        self.streaming_states.insert(file_id, StreamSlot { channel, attached: false });
    }

    /// Hands the receiver of a file's stream out, once.
    pub fn attach_stream(&mut self, file_id: Id) -> (r: Result<u64, AttachError>)
        ensures
            r == old(self)@.attach_result(file_id),
            final(self)@ == old(self)@.attach(file_id),
    {
        match self.streaming_states.remove(&file_id) {
            Some(slot) => {
                if slot.attached {
                    self.streaming_states.insert(file_id, slot);
                    assert(self@.streams =~= old(self)@.streams);
                    Err(AttachError::AlreadyAttached)
                } else {
                    let taken = StreamSlot { channel: slot.channel, attached: true };
                    self.streaming_states.insert(file_id, taken);
                    assert(self@.streams =~= old(self)@.attach(file_id).streams);
                    Ok(slot.channel)
                }
            },
            None => {
                assert(self@.streams =~= old(self)@.streams);
                Err(AttachError::NotFound)
            },
        }
    }

    /// The channel that a file is streamed over, for whoever sends.
    pub fn sender(&self, file_id: Id) -> (r: Option<u64>)
        ensures
            r == (if self@.streams.contains_key(file_id) {
                Some(self@.streams[file_id].channel)
            } else {
                None
            }),
    {
        self.streaming_states.peek(&file_id, StreamSlot::number)
    }

    /// What became of a chunk: without a stream it went nowhere, else as its delivery ended.
    pub fn send_chunk(&self, file_id: Id, delivery: Delivery) -> (r: SendChunkResult)
        ensures
            r == (if !self@.streams.contains_key(file_id) {
                SendChunkResult::Disconnected
            } else {
                match delivery {
                    Delivery::Delivered => SendChunkResult::Sent,
                    Delivery::Closed => SendChunkResult::Disconnected,
                    Delivery::TimedOut => SendChunkResult::Timeout,
                }
            }),
    {
        if self.sender(file_id).is_none() {
            return SendChunkResult::Disconnected;
        }
        match delivery {
            Delivery::Delivered => SendChunkResult::Sent,
            Delivery::Closed => SendChunkResult::Disconnected,
            Delivery::TimedOut => SendChunkResult::Timeout,
        }
    }

    /// What became of the digest at the end of a stream. The stream itself stays, until its receiver
    /// is done with it.
    pub fn send_end(&self, file_id: Id, delivery: Delivery) -> (r: SendTerminalResult)
        ensures
            r == self@.terminal_result(file_id, delivery),
    {
        if self.sender(file_id).is_none() {
            return SendTerminalResult::Disconnected;
        }
        match delivery {
            Delivery::Delivered => SendTerminalResult::Sent,
            Delivery::Closed => SendTerminalResult::Disconnected,
            Delivery::TimedOut => SendTerminalResult::Timeout,
        }
    }

    /// What became of the word that a stream is broken off. The stream itself stays, until its
    /// receiver is done with it.
    pub fn send_abort(&self, file_id: Id, delivery: Delivery) -> (r: SendTerminalResult)
        ensures
            r == self@.terminal_result(file_id, delivery),
    {
        self.send_end(file_id, delivery)
    }

    /// How large a file may be.
    pub fn max_upload_size(&self) -> (r: u64)
        ensures
            r == self@.limits.max_upload_size_bytes,
    {
        self.limits.max_upload_size_bytes
    }

    /// Closes a file's stream, if it has one.
    pub fn remove_streaming_state(&mut self, file_id: Id)
        ensures
            final(self)@ == (StoreView {
                streams: old(self)@.streams.remove(file_id),
                ..old(self)@
            }),
    {
        self.streaming_states.remove(&file_id);
    }

    /// Records that a file has come in whole.
    fn finish(
        &mut self,
        file_id: Id,
        status: FileStatus,
        final_path: String,
        actual_size: u64,
        sha256: String,
    )
        ensures
            final(self)@ == old(self)@.complete(
                file_id,
                status,
                final_path@,
                actual_size,
                sha256@,
            ),
    {
        match self.files.remove(&file_id) {
            Some(file) => {
                let mut file = file;
                let reserved: u64 = file.size_bytes;
                file.status = status;
                file.file_path = final_path;
                file.size_bytes = actual_size;
                file.sha256 = sha256;
                self.files.insert(file_id, file);
                self.reservation.correct_bytes(reserved, actual_size);
                assert(self@.files =~= old(self)@.complete(
                    file_id,
                    status,
                    final_path@,
                    actual_size,
                    sha256@,
                ).files);
            },
            None => {
                assert(self@.files =~= old(self)@.files);
            },
        }
    }

    /// A streamed file has come in whole: the PC has been told of it from the start.
    pub fn mark_streaming_done(
        &mut self,
        file_id: Id,
        final_path: String,
        actual_size: u64,
        sha256: [u8; 32],
    )
        ensures
            final(self)@ == old(self)@.complete(
                file_id,
                FileStatus::Notified,
                final_path@,
                actual_size,
                crate::server::pairing::hex_of(sha256@),
            ),
    {
        let digest = encode_hex(&sha256);
        self.finish(file_id, FileStatus::Notified, final_path, actual_size, digest);
    }

    /// Ends the upload of a file that was written to disk: `written` is its size and digest, or why
    /// it was not written; `renamed` is whether it got its final name.
    ///
    /// A file that was written and named is recorded as stored, unless its pairing was closed
    /// meanwhile: then it is dropped. One that was not is taken back. The second part of the result
    /// says what is left on disk to be deleted.
    pub fn save_file_from_field(
        &mut self,
        file_id: Id,
        pairing_id: Id,
        written: Result<(u64, String), SaveFileError>,
        renamed: Result<(), String>,
        final_path: String,
    ) -> (r: (Result<(), SaveFileError>, Leftover))
        ensures
            match written {
                Err(e) => {
                    &&& r.0 == Err::<(), SaveFileError>(e)
                    &&& r.1 == Leftover::Temporary
                    &&& final(self)@ == old(self)@.rollback(file_id, pairing_id)
                },
                Ok((size, sha256)) => match renamed {
                    Err(why) => {
                        &&& r.0 matches Err(SaveFileError::Io(text)) && text@
                            == rename_failed_text(why@)
                        &&& r.1 == Leftover::Temporary
                        &&& final(self)@ == old(self)@.rollback(file_id, pairing_id)
                    },
                    Ok(()) => if old(self)@.quota.of(pairing_id).closed {
                        &&& r.0 matches Err(SaveFileError::Limit(limit)) && limit
                            == UploadLimitError::PairingClosed
                        &&& r.1 == Leftover::Final
                        &&& final(self)@ == (StoreView {
                            streams: old(self)@.streams,
                            ..old(self)@.rollback(file_id, pairing_id)
                        })
                    } else {
                        &&& r.0 is Ok
                        &&& r.1 == Leftover::Nothing
                        &&& final(self)@ == old(self)@.complete(
                            file_id,
                            FileStatus::StoredUnnotified,
                            final_path@,
                            size,
                            sha256@,
                        )
                    },
                },
            },
    {
        match written {
            Err(e) => {
                self.rollback_upload(file_id, pairing_id);
                (Err(e), Leftover::Temporary)
            },
            Ok((size, sha256)) => match renamed {
                Err(why) => {
                    self.rollback_upload(file_id, pairing_id);
                    let mut message = string_of(&chars_of("重命名失败: "));
                    push_chars(&mut message, &chars_of(&why));
                    (Err(SaveFileError::Io(message)), Leftover::Temporary)
                },
                Ok(()) => {
                    if self.reservation.is_pairing_closed(pairing_id) {
                        let reserved: u64 = match self.files.remove(&file_id) {
                            Some(file) => file.size_bytes,
                            None => self.limits.max_upload_size_bytes,
                        };
                        self.reservation.release(file_id, pairing_id, reserved);
                        assert(self@.files =~= old(self)@.files.remove(file_id));
                        (
                            Err(SaveFileError::Limit(UploadLimitError::PairingClosed)),
                            Leftover::Final,
                        )
                    } else {
                        self.finish(
                            file_id,
                            FileStatus::StoredUnnotified,
                            final_path,
                            size,
                            sha256,
                        );
                        (Ok(()), Leftover::Nothing)
                    }
                },
            },
        }
    }
}

/// What is said where a file did not get its final name.
pub open spec fn rename_failed_text(why: Seq<char>) -> Seq<char> {
    "重命名失败: "@ + why
}

/// An empty store with the given limits.
pub fn new_upload_store(
    max_upload_size_bytes: u64,
    max_pending_upload_files_per_pairing: u32,
    max_pending_upload_files_global: u32,
    max_pending_upload_bytes_global: u64,
) -> (r: UploadStore)
    ensures
        r@ == (StoreView {
            files: Map::empty(),
            quota: Quota::none(),
            limits: Limits {
                max_upload_size_bytes,
                max_pending_upload_files_per_pairing,
                max_pending_upload_files_global,
                max_pending_upload_bytes_global,
            },
            streams: Map::empty(),
        }),
{
    UploadStore::new(
        max_upload_size_bytes,
        max_pending_upload_files_per_pairing,
        max_pending_upload_files_global,
        max_pending_upload_bytes_global,
    )
}

/// An entry of the upload directory, as the disk shows it.
#[derive(Debug)]
pub struct DirEntry {
    /// Its name; empty where that is no text.
    pub name: String,
    /// Its path.
    pub path: String,
    /// Is it an ordinary file, not a directory or a link?
    pub is_file: bool,
    /// Whole seconds since it was last written, if that is known.
    pub age_secs: Option<u64>,
    /// Its size in bytes.
    pub size: u64,
}

/// What is to be done with an entry of the upload directory.
#[derive(Debug, Clone, Copy, PartialEq, Eq, Structural)]
pub enum ExpiredAction {
    /// Leave it.
    Keep,
    /// Delete it. Where that succeeds, the file that it belongs to, if any, is to be forgotten.
    Delete(Option<Id>),
}

/// How many files were found when the server started, how many of them are still counted, and to
/// how many bytes those come.
#[derive(Debug, Clone, Copy, PartialEq, Eq, Structural)]
pub struct BaselineStats {
    /// Ordinary files.
    pub scanned: u64,
    /// Files that are counted.
    pub accepted: u64,
    /// Their bytes.
    pub accepted_bytes: u64,
}

/// The file that an entry of the upload directory belongs to: a whole file has the identifier for
/// its name, one that is being written has `.`, the identifier and `.tmp`.
pub open spec fn file_of_name(name: Seq<char>) -> Option<Id> {
    match ids::uuid_parse(name) {
        Some(id) => Some(id),
        None => if "."@.is_prefix_of(name) && ".tmp"@.is_suffix_of(name.skip("."@.len() as int)) {
            let rest = name.skip("."@.len() as int);
            ids::uuid_parse(rest.take(rest.len() - ".tmp"@.len()))
        } else {
            None
        },
    }
}

/// The file that an entry of the upload directory belongs to.
pub fn parse_upload_name(name: &str) -> (r: Option<Id>)
    ensures
        r == file_of_name(name@),
{
    match parse_id(name) {
        Some(id) => Some(id),
        None => {
            let cs = chars_of(name);
            match strip_prefix(&cs, ".") {
                Some(rest) => match strip_suffix(rest, ".tmp") {
                    Some(middle) => parse_id(&string_of(middle)),
                    None => None,
                },
                None => None,
            }
        },
    }
}

impl DirEntry {
    /// Was it last written longer ago than files are kept?
    pub open spec fn is_expired(self, retention_secs: u64) -> bool {
        self.is_file && (self.age_secs matches Some(age) && age > retention_secs)
    }

    /// Is it a whole file that is still kept, and which?
    pub open spec fn kept_file(self, retention_secs: u64) -> Option<Id> {
        if self.is_file && (self.age_secs matches Some(age) && age <= retention_secs) {
            ids::uuid_parse(self.name@)
        } else {
            None
        }
    }
}

/// The record of a file that was found on disk.
pub open spec fn found_file(entry: DirEntry, now: Moment) -> FileView {
    FileView {
        pairing_id: 0,
        status: FileStatus::StoredUnnotified,
        uploaded_at: now,
        file_path: entry.path@,
        size_bytes: entry.size,
        file_access_token: Seq::new(32, |i: int| 0u8),
        file_name: Seq::empty(),
        raw_filename: Seq::empty(),
        mime_type: Seq::empty(),
        sha256: Seq::empty(),
    }
}

/// How many of the entries are ordinary files.
pub open spec fn count_scanned(entries: Seq<DirEntry>) -> nat
    decreases entries.len(),
{
    if entries.len() == 0 {
        0
    } else {
        count_scanned(entries.drop_last()) + if entries.last().is_file {
            1nat
        } else {
            0nat
        }
    }
}

/// How many of the entries are counted.
pub open spec fn count_kept(entries: Seq<DirEntry>, retention_secs: u64) -> nat
    decreases entries.len(),
{
    if entries.len() == 0 {
        0
    } else {
        count_kept(entries.drop_last(), retention_secs) + if entries.last().kept_file(
            retention_secs,
        ) is Some {
            1nat
        } else {
            0nat
        }
    }
}

/// The bytes of the entries that are counted.
pub open spec fn bytes_kept(entries: Seq<DirEntry>, retention_secs: u64) -> nat
    decreases entries.len(),
{
    if entries.len() == 0 {
        0
    } else {
        bytes_kept(entries.drop_last(), retention_secs) + if entries.last().kept_file(
            retention_secs,
        ) is Some {
            entries.last().size as nat
        } else {
            0nat
        }
    }
}

/// The bytes of all entries.
pub open spec fn bytes_all(entries: Seq<DirEntry>) -> nat
    decreases entries.len(),
{
    if entries.len() == 0 {
        0
    } else {
        bytes_all(entries.drop_last()) + entries.last().size as nat
    }
}

impl StoreView {
    /// What is to be done with an entry: it is left while it is not an ordinary file, or its age is
    /// not known, or it is kept, or its file is still coming in.
    pub open spec fn expired_action(self, entry: DirEntry, retention_secs: u64) -> ExpiredAction {
        let file = file_of_name(entry.name@);
        if !entry.is_expired(retention_secs) || (file is Some && self.has_status(
            file->0,
            FileStatus::Uploading,
        )) {
            ExpiredAction::Keep
        } else {
            ExpiredAction::Delete(file)
        }
    }

    /// The files found on disk counted, one after the other, for the pairing of nobody.
    pub open spec fn with_found(
        self,
        entries: Seq<DirEntry>,
        retention_secs: u64,
        now: Moment,
    ) -> StoreView
        decreases entries.len(),
    {
        if entries.len() == 0 {
            self
        } else {
            let before = self.with_found(entries.drop_last(), retention_secs, now);
            match entries.last().kept_file(retention_secs) {
                Some(id) => before.begin(id, found_file(entries.last(), now)),
                None => before,
            }
        }
    }
}

proof fn lemma_bytes_all_take(entries: Seq<DirEntry>, n: int)
    requires
        0 <= n <= entries.len(),
    ensures
        bytes_all(entries.take(n)) <= bytes_all(entries),
    decreases entries.len() - n,
{
    if n < entries.len() {
        lemma_bytes_all_take(entries, n + 1);
        assert(entries.take(n + 1).drop_last() =~= entries.take(n));
    } else {
        assert(entries.take(n) =~= entries);
    }
}

impl UploadStore {
    /// What is to be done with an entry of the upload directory, by its age and its name.
    pub fn cleanup_expired(&self, entry: &DirEntry, retention_secs: u64) -> (r: ExpiredAction)
        ensures
            r == self@.expired_action(*entry, retention_secs),
    {
        if !entry.is_file {
            return ExpiredAction::Keep;
        }
        match entry.age_secs {
            None => ExpiredAction::Keep,
            Some(age) => {
                if age <= retention_secs {
                    return ExpiredAction::Keep;
                }
                let file = parse_upload_name(&entry.name);
                if let Some(id) = file {
                    if self.status_of(id) == Some(FileStatus::Uploading) {
                        return ExpiredAction::Keep;
                    }
                }
                ExpiredAction::Delete(file)
            },
        }
    }

    /// An expired entry was deleted from disk: its file, if it belonged to one, is forgotten. An
    /// entry without a record changes no counter.
    pub fn forget_expired(&mut self, file: Option<Id>)
        ensures
            final(self)@ == match file {
                Some(id) => old(self)@.remove(id),
                None => old(self)@,
            },
    {
        if let Some(id) = file {
            let _path = self.remove_file(id);
        }
    }

    /// Counts the files that were found on disk when the server started and that are still kept.
    pub fn rebuild_baseline(
        &mut self,
        entries: &Vec<DirEntry>,
        retention_secs: u64,
        now: Moment,
    ) -> (r: BaselineStats)
        requires
            old(self)@.quota.files + entries@.len() <= u32::MAX,
            old(self)@.quota.of(0).pending + entries@.len() <= u32::MAX,
            bytes_all(entries@) <= u64::MAX,
        ensures
            final(self)@ == old(self)@.with_found(entries@, retention_secs, now),
            r.scanned == count_scanned(entries@),
            r.accepted == count_kept(entries@, retention_secs),
            r.accepted_bytes == bytes_kept(entries@, retention_secs),
    {
        let mut scanned: u64 = 0;
        let mut accepted: u64 = 0;
        let mut accepted_bytes: u64 = 0;
        let ghost start = self@;
        for i in 0..entries.len()
            invariant
                start.quota.files + entries@.len() <= u32::MAX,
                start.quota.of(0).pending + entries@.len() <= u32::MAX,
                bytes_all(entries@) <= u64::MAX,
                self@ == start.with_found(entries@.take(i as int), retention_secs, now),
                self@.quota.files <= start.quota.files + i,
                self@.quota.of(0).pending <= start.quota.of(0).pending + i,
                scanned == count_scanned(entries@.take(i as int)),
                accepted == count_kept(entries@.take(i as int), retention_secs),
                accepted_bytes == bytes_kept(entries@.take(i as int), retention_secs),
                scanned <= i,
                accepted <= i,
                accepted_bytes <= bytes_all(entries@.take(i as int)),
        {
            let entry = &entries[i];
            let ghost before = self@;
            proof {
                assert(entries@.take(i as int + 1).drop_last() =~= entries@.take(i as int));
                lemma_bytes_all_take(entries@, i as int + 1);
            }
            if entry.is_file {
                scanned = scanned + 1;
            }
            let kept = match entry.age_secs {
                Some(age) => entry.is_file && age <= retention_secs,
                None => false,
            };
            if kept {
                if let Some(id) = parse_id(&entry.name) {
                    let meta = FileMeta {
                        pairing_id: 0,
                        status: FileStatus::StoredUnnotified,
                        uploaded_at: now,
                        file_path: entry.path.clone(),
                        size_bytes: entry.size,
                        file_access_token: [0u8; 32],
                        file_name: String::new(),
                        raw_filename: String::new(),
                        mime_type: String::new(),
                        sha256: String::new(),
                    };
                    assert(meta@ =~= found_file(*entry, now));
                    self.files.insert(id, meta);
                    self.reservation.reserve(id, 0, entry.size);
                    accepted = accepted + 1;
                    accepted_bytes = accepted_bytes + entry.size;
                    assert(self@.files =~= before.files.insert(id, found_file(*entry, now)));
                }
            }
        }
        assert(entries@.take(entries@.len() as int) =~= entries@);
        BaselineStats { scanned, accepted, accepted_bytes }
    }
}

} // verus!
