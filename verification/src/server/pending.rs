//! Stored files that wait for their PC: what it is told of them once it is connected.

use crate::events::{plain_event, EventView};
use crate::ids::Id;
use crate::server::upload;
use crate::server::upload::{file_received_event, UploadDispatchMode};
use crate::server::upload_store::{FileStatus, FileView, StoreView};
use crate::server::web::{AppState, Notice, StateView};
use crate::text::chars_of;
use vstd::prelude::*;

verus! {

/// Does the file wait for the PC of the pairing: is it stored and not yet told of, does it belong to
/// the pairing, is the pairing open, and is its digest known? A file that was found on disk at the
/// start has no digest, and nobody waits for it.
pub open spec fn waits(s: StoreView, id: Id, pairing_id: Id) -> bool {
    s.can_notify(id, pairing_id) && s.files[id].sha256.len() > 0
}

/// The event that tells a PC client of a stored file.
pub open spec fn stored_event(base: Seq<char>, id: Id, file: FileView) -> EventView {
    upload::file_event(
        base,
        id,
        UploadDispatchMode::Relay,
        file.file_name,
        file.mime_type,
        file.size_bytes,
        file.sha256,
        file.file_access_token,
    )
}

/// The store once the PC is being told of those of the listed files that wait for it.
pub open spec fn announced(s: StoreView, ids: Seq<Id>, pairing_id: Id) -> StoreView
    decreases ids.len(),
{
    if ids.len() == 0 {
        s
    } else {
        let before = announced(s, ids.drop_last(), pairing_id);
        if waits(before, ids.last(), pairing_id) {
            before.with_status(ids.last(), FileStatus::Notifying)
        } else {
            before
        }
    }
}

/// Those of the listed files that wait, in order.
pub open spec fn waiting(s: StoreView, ids: Seq<Id>, pairing_id: Id) -> Seq<Id>
    decreases ids.len(),
{
    if ids.len() == 0 {
        Seq::empty()
    } else {
        let before = announced(s, ids.drop_last(), pairing_id);
        let found = waiting(s, ids.drop_last(), pairing_id);
        if waits(before, ids.last(), pairing_id) {
            found.push(ids.last())
        } else {
            found
        }
    }
}

/// Telling the PC of files changes nothing of them but their status, and no other file.
proof fn lemma_announced(s: StoreView, ids: Seq<Id>, pairing_id: Id)
    ensures
        announced(s, ids, pairing_id).files.dom() == s.files.dom(),
        announced(s, ids, pairing_id).quota == s.quota,
        announced(s, ids, pairing_id).limits == s.limits,
        announced(s, ids, pairing_id).streams == s.streams,
        forall|id: Id| #[trigger]
            s.files.contains_key(id) ==> announced(s, ids, pairing_id).files[id] == (FileView {
                status: announced(s, ids, pairing_id).files[id].status,
                ..s.files[id]
            }),
        forall|id: Id| #[trigger]
            waiting(s, ids, pairing_id).contains(id) ==> waits(s, id, pairing_id),
        forall|id: Id| #[trigger]
            s.files.contains_key(id) ==> announced(s, ids, pairing_id).files[id].status == (
            if waiting(s, ids, pairing_id).contains(id) {
                FileStatus::Notifying
            } else {
                s.files[id].status
            }),
    decreases ids.len(),
{
    if ids.len() > 0 {
        let rest = ids.drop_last();
        let last = ids.last();
        lemma_announced(s, rest, pairing_id);
        let before = announced(s, rest, pairing_id);
        let after = announced(s, ids, pairing_id);
        assert(after.files.dom() =~= s.files.dom());
        let found = waiting(s, rest, pairing_id);
        let all = waiting(s, ids, pairing_id);
        if waits(before, last, pairing_id) {
            assert(s.files.contains_key(last));
            assert(!found.contains(last));
            assert(all == found.push(last));
            assert forall|id: Id| all.contains(id) <==> found.contains(id) || id == last by {
                if found.contains(id) {
                    let i = choose|i: int| 0 <= i < found.len() && found[i] == id;
                    assert(all[i] == id);
                }
                assert(all[found.len() as int] == last);
            }
        }
    }
}

/// Every listed file that waits is found.
proof fn lemma_waiting_is_found(s: StoreView, ids: Seq<Id>, pairing_id: Id, id: Id)
    requires
        ids.contains(id),
        waits(s, id, pairing_id),
    ensures
        waiting(s, ids, pairing_id).contains(id),
    decreases ids.len(),
{
    let rest = ids.drop_last();
    let found = waiting(s, rest, pairing_id);
    let all = waiting(s, ids, pairing_id);
    if rest.contains(id) {
        lemma_waiting_is_found(s, rest, pairing_id, id);
        let i = choose|i: int| 0 <= i < found.len() && found[i] == id;
        assert(all[i] == id);
    } else {
        let i = choose|i: int| 0 <= i < ids.len() && ids[i] == id;
        assert(i == ids.len() - 1) by {
            if i < rest.len() {
                assert(rest[i] == id);
            }
        }
        lemma_announced(s, rest, pairing_id);
        if !found.contains(id) {
            assert(waits(announced(s, rest, pairing_id), id, pairing_id));
            assert(all == found.push(id));
            assert(all[found.len() as int] == id);
        } else {
            let k = choose|k: int| 0 <= k < found.len() && found[k] == id;
            assert(all[k] == id);
        }
    }
}

/// Are these the notices of the files, in order, for the PC client on the channel?
pub open spec fn are_notices(
    notices: Seq<(Id, Notice)>,
    ids: Seq<Id>,
    client_tx: u64,
    base: Seq<char>,
    s: StoreView,
) -> bool {
    &&& notices.len() == ids.len()
    &&& forall|i: int|
        0 <= i < ids.len() ==> {
            let (id, notice) = #[trigger] notices[i];
            &&& id == ids[i]
            &&& notice.client_tx == client_tx
            &&& notice.event.is(stored_event(base, id, s.files[id]), Seq::empty())
        }
}

impl AppState {
    /// What a PC client that has just subscribed by the channel is told of the files that came in
    /// while it was not connected, in the order in which they came in.
    /// [`AppState::relay_notified`] is to hear of each whether it was sent.
    pub fn pending_notices(&mut self, pairing_id: Id, client_tx: u64) -> (r: Vec<(Id, Notice)>)
        ensures
            ({
                let ids = old(self)@.uploads.quota.of(pairing_id).file_ids;
                &&& are_notices(
                    r@,
                    waiting(old(self)@.uploads, ids, pairing_id),
                    client_tx,
                    old(self).config.public_base_url@,
                    old(self)@.uploads,
                )
                &&& final(self)@ == (StateView {
                    uploads: announced(old(self)@.uploads, ids, pairing_id),
                    ..old(self)@
                })
            }),
    {
        let ids = self.upload_store.files_of(pairing_id);
        let ghost start = self@.uploads;
        let mut out: Vec<(Id, Notice)> = Vec::new();
        for i in 0..ids.len()
            invariant
                start == old(self)@.uploads,
                self.config == old(self).config,
                self@ == (StateView {
                    uploads: announced(start, ids@.take(i as int), pairing_id),
                    ..old(self)@
                }),
                are_notices(
                    out@,
                    waiting(start, ids@.take(i as int), pairing_id),
                    client_tx,
                    old(self).config.public_base_url@,
                    start,
                ),
        {
            let id = ids[i];
            proof {
                assert(ids@.take(i as int + 1).drop_last() =~= ids@.take(i as int));
                lemma_announced(start, ids@.take(i as int), pairing_id);
            }
            if let Some(meta) = self.upload_store.get_file_meta(id) {
                if !chars_of(&meta.sha256).is_empty() && self.upload_store.begin_notifying(
                    id,
                    pairing_id,
                ) {
                    let event = file_received_event(
                        &self.config.public_base_url,
                        id,
                        UploadDispatchMode::Relay,
                        &meta.file_name,
                        &meta.mime_type,
                        meta.size_bytes,
                        &meta.sha256,
                        &meta.file_access_token,
                    );
                    out.push((id, Notice { client_tx, event: plain_event(event) }));
                }
            }
        }
        assert(ids@.take(ids@.len() as int) =~= ids@);
        out
    }
}

/// A file that came in while its PC was not connected waits for it: once the PC subscribes it is told
/// of the file, with the name, the size, the digest and the secret that the file was stored with, and
/// only of files of its own pairing.
pub proof fn law_stored_file_waits_for_its_pc(s: StoreView, pairing_id: Id, id: Id)
    requires
        s.consistent(),
        s.files.contains_key(id),
    ensures
        ({
            let ids = s.quota.of(pairing_id).file_ids;
            &&& waiting(s, ids, pairing_id).contains(id) <==> waits(s, id, pairing_id)
            &&& waits(s, id, pairing_id) ==> announced(s, ids, pairing_id).files[id] == (FileView {
                status: FileStatus::Notifying,
                ..s.files[id]
            })
            &&& !waits(s, id, pairing_id) ==> announced(s, ids, pairing_id).files[id]
                == s.files[id]
        }),
{
    let ids = s.quota.of(pairing_id).file_ids;
    lemma_announced(s, ids, pairing_id);
    if waits(s, id, pairing_id) {
        assert(s.quota.of(s.files[id].pairing_id).file_ids.contains(id));
        lemma_waiting_is_found(s, ids, pairing_id, id);
    }
}

} // verus!
