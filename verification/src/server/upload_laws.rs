//! What holds of the upload store as a whole.

use crate::ids::Id;
use crate::server::upload_store::{
    AttachError, FileStatus, FileView, Limits, Quota, StoreView, UploadLimitError,
};
use crate::server::upload_store;
use vstd::prelude::*;

verus! {

/// The bytes that the files are counted with, taken together.
pub open spec fn total_size(files: Map<Id, FileView>) -> nat
    decreases files.dom().len(),
{
    if files.dom().finite() && files.dom().len() > 0 {
        let id = files.dom().choose();
        proof {
            assert(files.dom().contains(id));
            assert(files.remove(id).dom() =~= files.dom().remove(id));
        }
        files[id].size_bytes as nat + total_size(files.remove(id))
    } else {
        0
    }
}

impl StoreView {
    /// Every file is listed, once, under its pairing and under no other; and the counters say how
    /// many files there are and to how many bytes they come.
    pub open spec fn consistent(self) -> bool {
        &&& self.files.dom().finite()
        &&& forall|f: Id| #[trigger]
            self.files.contains_key(f) ==> self.quota.of(
                self.files[f].pairing_id,
            ).file_ids.contains(f)
        &&& forall|p: Id, f: Id| #[trigger]
            self.quota.of(p).file_ids.contains(f) ==> self.files.contains_key(f)
                && self.files[f].pairing_id == p
        &&& forall|p: Id|
            (#[trigger] self.quota.of(p)).file_ids.no_duplicates() && self.quota.of(p).pending
                == self.quota.of(p).file_ids.len()
        &&& self.quota.files == self.files.dom().len()
        &&& self.quota.bytes == total_size(self.files)
    }

    /// No counter stands above its limit.
    pub open spec fn within_limits(self) -> bool {
        &&& self.quota.files <= self.limits.max_pending_upload_files_global
        &&& self.quota.bytes <= self.limits.max_pending_upload_bytes_global
        &&& forall|p: Id|
            (#[trigger] self.quota.of(p)).pending
                <= self.limits.max_pending_upload_files_per_pairing
    }
}

proof fn lemma_total_remove(files: Map<Id, FileView>, id: Id)
    requires
        files.dom().finite(),
        files.contains_key(id),
    ensures
        total_size(files) == files[id].size_bytes + total_size(files.remove(id)),
    decreases files.dom().len(),
{
    let c = files.dom().choose();
    assert(files.dom().contains(c)) by {
        assert(files.dom().contains(id));
    }
    assert(files.remove(c).dom() =~= files.dom().remove(c));
    assert(files.remove(id).dom() =~= files.dom().remove(id));
    if c != id {
        lemma_total_remove(files.remove(c), id);
        lemma_total_remove(files.remove(id), c);
        assert(files.remove(c).remove(id) =~= files.remove(id).remove(c));
    }
}

proof fn lemma_total_insert(files: Map<Id, FileView>, id: Id, file: FileView)
    requires
        files.dom().finite(),
        !files.contains_key(id),
    ensures
        total_size(files.insert(id, file)) == file.size_bytes + total_size(files),
{
    let more = files.insert(id, file);
    assert(more.dom() =~= files.dom().insert(id));
    lemma_total_remove(more, id);
    assert(more.remove(id) =~= files);
}

proof fn lemma_without(ids: Seq<Id>, id: Id)
    ensures
        forall|x: Id| #[trigger]
            upload_store::without(ids, id).contains(x) <==> ids.contains(x) && x != id,
        ids.no_duplicates() ==> upload_store::without(ids, id).no_duplicates(),
        !ids.contains(id) ==> upload_store::without(ids, id) == ids,
        ids.no_duplicates() && ids.contains(id) ==> upload_store::without(ids, id).len()
            == ids.len() - 1,
    decreases ids.len(),
{
    let w = upload_store::without(ids, id);
    if ids.len() > 0 {
        let t = ids.drop_last();
        let wt = upload_store::without(t, id);
        lemma_without(t, id);
        assert forall|x: Id| #[trigger] w.contains(x) <==> ids.contains(x) && x != id by {
            if ids.contains(x) && x != id {
                let i = choose|i: int| 0 <= i < ids.len() && ids[i] == x;
                if i < t.len() {
                    assert(t[i] == x);
                    assert(wt.contains(x));
                    let j = choose|j: int| 0 <= j < wt.len() && wt[j] == x;
                    assert(w[j] == x);
                } else {
                    assert(w.last() == x);
                }
            }
            if w.contains(x) {
                let j = choose|j: int| 0 <= j < w.len() && w[j] == x;
                if j < wt.len() {
                    assert(wt[j] == x);
                    assert(wt.contains(x));
                    let i = choose|i: int| 0 <= i < t.len() && t[i] == x;
                    assert(ids[i] == x);
                } else {
                    assert(ids[ids.len() - 1] == x);
                }
            }
        }
        if ids.no_duplicates() {
            assert(t.no_duplicates());
            assert(!t.contains(ids.last()));
            if ids.last() != id {
                assert(!wt.contains(ids.last()));
            } else {
                assert(!t.contains(id));
            }
        }
        if ids.contains(id) && ids.last() != id {
            let i = choose|i: int| 0 <= i < ids.len() && ids[i] == id;
            assert(t[i] == id);
        }
        if !ids.contains(id) {
            assert(ids[ids.len() - 1] == ids.last());
            assert(!t.contains(id)) by {
                if t.contains(id) {
                    let i = choose|i: int| 0 <= i < t.len() && t[i] == id;
                    assert(ids[i] == id);
                }
            }
            assert(w =~= ids);
        }
    }
}

proof fn lemma_drop_consistent(s: StoreView, id: Id)
    requires
        s.consistent(),
        s.files.contains_key(id),
    ensures
        s.drop_file(id).consistent(),
{
    let p = s.files[id].pairing_id;
    let r = s.drop_file(id);
    let ids = s.quota.of(p).file_ids;
    lemma_without(ids, id);
    lemma_total_remove(s.files, id);
    assert(ids.contains(id));
    assert(r.files.dom() =~= s.files.dom().remove(id));
    assert(r.quota.of(p).file_ids == upload_store::without(ids, id));
    assert forall|q: Id| q != p implies r.quota.of(q) == s.quota.of(q) by {}
    assert(ids.len() > 0);
    assert forall|f: Id| #[trigger] r.files.contains_key(f) implies r.quota.of(
        r.files[f].pairing_id,
    ).file_ids.contains(f) by {
        assert(s.files.contains_key(f));
    }
    assert forall|q: Id, f: Id| #[trigger]
        r.quota.of(q).file_ids.contains(f) implies r.files.contains_key(f)
        && r.files[f].pairing_id == q by {
        assert(s.quota.of(q).file_ids.contains(f));
    }
    assert forall|q: Id|
        (#[trigger] r.quota.of(q)).file_ids.no_duplicates() && r.quota.of(q).pending
            == r.quota.of(q).file_ids.len() by {
        assert(s.quota.of(q).pending == s.quota.of(q).file_ids.len());
    }
}

/// A new store is consistent.
pub proof fn law_new_is_consistent(limits: Limits)
    ensures
        (StoreView { files: Map::empty(), quota: Quota::none(), limits, streams: Map::empty() }).consistent(),
{
    let s = StoreView {
        files: Map::empty(),
        quota: Quota::none(),
        limits,
        streams: Map::empty(),
    };
    assert(s.files.dom() =~= Set::empty());
}

/// Beginning an upload that the limits allow, under an identifier that is not in use, keeps the
/// store consistent and within its limits.
pub proof fn law_begin_keeps(s: StoreView, id: Id, file: FileView)
    requires
        s.consistent(),
        !s.files.contains_key(id),
        s.limit_error(file.pairing_id) is None,
        file.size_bytes == s.limits.max_upload_size_bytes,
    ensures
        s.begin(id, file).consistent(),
        s.within_limits() ==> s.begin(id, file).within_limits(),
{
    let p = file.pairing_id;
    let r = s.begin(id, file);
    let ids = s.quota.of(p).file_ids;
    assert(!ids.contains(id));
    assert(r.files.dom() =~= s.files.dom().insert(id));
    lemma_total_insert(s.files, id, file);
    assert(r.quota.of(p).file_ids =~= ids.push(id));
    assert forall|q: Id| q != p implies r.quota.of(q) == s.quota.of(q) by {}
    assert forall|f: Id| #[trigger] r.files.contains_key(f) implies r.quota.of(
        r.files[f].pairing_id,
    ).file_ids.contains(f) by {
        if f == id {
            assert(ids.push(id)[ids.len() as int] == id);
        } else {
            assert(s.files.contains_key(f));
            if s.files[f].pairing_id == p {
                let i = choose|i: int| 0 <= i < ids.len() && ids[i] == f;
                assert(ids.push(id)[i] == f);
            }
        }
    }
    assert forall|q: Id, f: Id| #[trigger]
        r.quota.of(q).file_ids.contains(f) implies r.files.contains_key(f)
        && r.files[f].pairing_id == q by {
        if q == p {
            let i = choose|i: int| 0 <= i < ids.len() + 1 && ids.push(id)[i] == f;
            if i < ids.len() {
                assert(ids[i] == f);
                assert(s.quota.of(q).file_ids.contains(f));
            }
        } else {
            assert(s.quota.of(q).file_ids.contains(f));
        }
    }
    assert forall|q: Id|
        (#[trigger] r.quota.of(q)).file_ids.no_duplicates() && r.quota.of(q).pending
            == r.quota.of(q).file_ids.len() by {
        assert(s.quota.of(q).pending == s.quota.of(q).file_ids.len());
        if q == p {
            assert forall|i: int, j: int|
                0 <= i < j < ids.push(id).len() implies ids.push(id)[i] != ids.push(id)[j] by {
                if j == ids.len() {
                    assert(ids.contains(ids[i]));
                }
            }
        }
    }
    if s.within_limits() {
        assert forall|q: Id|
            (#[trigger] r.quota.of(q)).pending
                <= r.limits.max_pending_upload_files_per_pairing by {
            assert(s.quota.of(q).pending == s.quota.of(q).file_ids.len());
        }
    }
}

/// An upload that began under a fresh identifier and is taken back leaves the files, the counters
/// and what is pending for every pairing as they were; its stream, if it had one, is gone.
pub proof fn law_begin_then_rollback(s: StoreView, id: Id, file: FileView)
    requires
        s.consistent(),
        !s.files.contains_key(id),
        s.limit_error(file.pairing_id) is None,
        file.size_bytes == s.limits.max_upload_size_bytes,
    ensures
        ({
            let r = s.begin(id, file).rollback(id, file.pairing_id);
            &&& r.files == s.files
            &&& r.quota.files == s.quota.files
            &&& r.quota.bytes == s.quota.bytes
            &&& forall|p: Id| #[trigger] r.quota.of(p) == s.quota.of(p)
            &&& r.limits == s.limits
            &&& r.streams == s.streams.remove(id)
            &&& forall|p: Id| #[trigger] r.limit_error(p) == s.limit_error(p)
        }),
{
    let p = file.pairing_id;
    let b = s.begin(id, file);
    let r = b.rollback(id, p);
    let ids = s.quota.of(p).file_ids;
    assert(!ids.contains(id));
    lemma_without(ids, id);
    assert(ids.push(id).drop_last() =~= ids);
    assert(ids.push(id)[ids.len() as int] == id);
    assert(b.quota.of(p).file_ids.contains(id));
    assert(r.files =~= s.files);
    assert(r.quota.of(p) =~= s.quota.of(p));
    assert forall|q: Id| #[trigger] r.quota.of(q) == s.quota.of(q) by {
        if q != p {
            assert(b.quota.of(q) == s.quota.of(q));
        }
    }
    assert forall|q: Id| #[trigger] r.limit_error(q) == s.limit_error(q) by {
        assert(r.quota.of(q) == s.quota.of(q));
    }
}

/// Taking an upload back under its own pairing, or dropping a file, keeps the store consistent.
pub proof fn law_drop_keeps(s: StoreView, id: Id)
    requires
        s.consistent(),
        s.files.contains_key(id),
    ensures
        s.rollback(id, s.files[id].pairing_id).consistent(),
        s.drop_file(id).consistent(),
        s.remove(id).consistent(),
{
    lemma_drop_consistent(s, id);
    let d = s.drop_file(id);
    let r = s.remove(id);
    let b = s.rollback(id, s.files[id].pairing_id);
    assert(r.files == d.files && r.quota == d.quota);
    assert(b.files == d.files && b.quota == d.quota);
    assert forall|p: Id| #[trigger] r.quota.of(p) == d.quota.of(p) by {}
}

/// A file that has come in whole is counted with its real size, and nothing else changes: the
/// store stays consistent, as long as the sizes can be added up at all.
pub proof fn law_complete_keeps(
    s: StoreView,
    id: Id,
    status: FileStatus,
    path: Seq<char>,
    size: u64,
    sha256: Seq<char>,
)
    requires
        s.consistent(),
        total_size(s.files.remove(id)) + size <= u64::MAX,
    ensures
        s.complete(id, status, path, size, sha256).consistent(),
{
    if s.files.contains_key(id) {
        let r = s.complete(id, status, path, size, sha256);
        lemma_total_remove(s.files, id);
        assert(r.files.dom() =~= s.files.dom());
        assert(r.files.remove(id) =~= s.files.remove(id));
        lemma_total_remove(r.files, id);
        assert forall|p: Id| #[trigger] r.quota.of(p) == s.quota.of(p) by {}
        assert forall|f: Id| #[trigger] r.files.contains_key(f) implies r.quota.of(
            r.files[f].pairing_id,
        ).file_ids.contains(f) by {
            assert(s.files.contains_key(f));
        }
    }
}

/// Another status changes no count.
pub proof fn law_status_keeps(s: StoreView, id: Id, status: FileStatus)
    requires
        s.consistent(),
        s.files.contains_key(id),
    ensures
        s.with_status(id, status).consistent(),
{
    let r = s.with_status(id, status);
    lemma_total_remove(s.files, id);
    assert(r.files.dom() =~= s.files.dom());
    assert(r.files.remove(id) =~= s.files.remove(id));
    lemma_total_remove(r.files, id);
    assert forall|f: Id| #[trigger] r.files.contains_key(f) implies r.quota.of(
        r.files[f].pairing_id,
    ).file_ids.contains(f) by {
        assert(s.files.contains_key(f));
    }
}

proof fn lemma_sweep(s: StoreView, ids: Seq<Id>, p: Id)
    requires
        s.consistent(),
        forall|i: int|
            0 <= i < ids.len() && s.files.contains_key(#[trigger] ids[i])
                ==> s.files[ids[i]].pairing_id == p,
    ensures
        s.sweep(ids, p).consistent(),
        s.sweep(ids, p).streams == s.streams,
        s.sweep(ids, p).limits == s.limits,
        s.sweep(ids, p).quota.of(p).closed == s.quota.of(p).closed,
        forall|f: Id| #[trigger]
            s.sweep(ids, p).files.contains_key(f) <==> s.files.contains_key(f) && !(ids.contains(f)
                && s.files[f].status == FileStatus::StoredUnnotified),
        forall|f: Id| #[trigger]
            s.sweep(ids, p).files.contains_key(f) ==> s.sweep(ids, p).files[f] == s.files[f],
    decreases ids.len(),
{
    if ids.len() > 0 {
        let t = ids.drop_last();
        assert forall|i: int| 0 <= i < t.len() && s.files.contains_key(
            #[trigger] t[i],
        ) implies s.files[t[i]].pairing_id == p by {
            assert(t[i] == ids[i]);
        }
        lemma_sweep(s, t, p);
        let b = s.sweep(t, p);
        let id = ids.last();
        let r = b.drop_stored(id, p);
        assert(r == s.sweep(ids, p));
        if b.has_status(id, FileStatus::StoredUnnotified) {
            assert(ids[ids.len() - 1] == id);
            assert(b.files[id].pairing_id == p);
            lemma_drop_consistent(b, id);
            assert(r == b.drop_file(id));
        }
        assert forall|f: Id| ids.contains(f) <==> t.contains(f) || f == id by {
            if ids.contains(f) && f != id {
                let i = choose|i: int| 0 <= i < ids.len() && ids[i] == f;
                assert(t[i] == f);
            }
            if t.contains(f) {
                let i = choose|i: int| 0 <= i < t.len() && t[i] == f;
                assert(ids[i] == f);
            }
            assert(ids[ids.len() - 1] == id);
        }
    }
}

/// Cleaning a pairing up drops exactly those of its files that are stored and that the PC has not
/// been told of; every other file, of this pairing or another, stays as it is. The store stays
/// consistent, and the pairing takes no more uploads.
pub proof fn law_cleanup(s: StoreView, p: Id)
    requires
        s.consistent(),
    ensures
        s.cleanup(p).consistent(),
        s.cleanup(p).quota.of(p).closed,
        s.cleanup(p).limit_error(p) == Some(UploadLimitError::PairingClosed),
        forall|f: Id| #[trigger]
            s.cleanup(p).files.contains_key(f) <==> s.files.contains_key(f) && !(
            s.files[f].pairing_id == p && s.files[f].status == FileStatus::StoredUnnotified),
        forall|f: Id| #[trigger]
            s.cleanup(p).files.contains_key(f) ==> s.cleanup(p).files[f] == s.files[f],
{
    let c = s.close(p);
    let ids = s.quota.of(p).file_ids;
    assert(c.quota.of(p).file_ids == ids);
    assert forall|q: Id| q != p implies c.quota.of(q) == s.quota.of(q) by {}
    assert forall|f: Id| #[trigger] c.files.contains_key(f) implies c.quota.of(
        c.files[f].pairing_id,
    ).file_ids.contains(f) by {
        assert(s.files.contains_key(f));
    }
    assert forall|q: Id, f: Id| #[trigger]
        c.quota.of(q).file_ids.contains(f) implies c.files.contains_key(f)
        && c.files[f].pairing_id == q by {
        assert(s.quota.of(q).file_ids.contains(f));
    }
    assert forall|q: Id|
        (#[trigger] c.quota.of(q)).file_ids.no_duplicates() && c.quota.of(q).pending
            == c.quota.of(q).file_ids.len() by {
        assert(s.quota.of(q).pending == s.quota.of(q).file_ids.len());
    }
    assert forall|i: int| 0 <= i < ids.len() && c.files.contains_key(
        #[trigger] ids[i],
    ) implies c.files[ids[i]].pairing_id == p by {
        assert(s.quota.of(p).file_ids.contains(ids[i]));
    }
    lemma_sweep(c, ids, p);
    assert forall|f: Id| #[trigger] s.cleanup(p).files.contains_key(f) <==> s.files.contains_key(f)
        && !(s.files[f].pairing_id == p && s.files[f].status == FileStatus::StoredUnnotified) by {
        if s.files.contains_key(f) && s.files[f].pairing_id == p {
            assert(ids.contains(f));
        }
        if ids.contains(f) {
            assert(s.quota.of(p).file_ids.contains(f));
        }
    }
}

/// A closed pairing stays closed, whatever is counted or taken back for it or for others.
pub proof fn law_closed_stays_closed(q: Quota, p: Id, f: Id, other: Id, a: u64, b: u64)
    requires
        q.of(p).closed,
    ensures
        q.reserve(f, other, a).of(p).closed,
        q.release(f, other, a).of(p).closed,
        q.correct(a, b).of(p).closed,
        q.close(other).of(p).closed,
{
}

/// The receiver of a stream is handed out once: whoever asks after it was had is told so, and after
/// the stream was closed there is none.
pub proof fn law_attach_once(s: StoreView, id: Id)
    ensures
        s.attach_result(id) is Ok ==> s.attach(id).attach_result(id) == Err::<u64, AttachError>(
            AttachError::AlreadyAttached,
        ),
        s.remove(id).attach_result(id) == Err::<u64, AttachError>(AttachError::NotFound),
{
}

/// Removing a file twice is removing it once.
pub proof fn law_remove_twice(s: StoreView, id: Id)
    ensures
        s.remove(id).remove(id) == s.remove(id),
        !s.remove(id).files.contains_key(id),
{
    assert(s.remove(id).streams.remove(id) =~= s.remove(id).streams);
}

} // verus!
