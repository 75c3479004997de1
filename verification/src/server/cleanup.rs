//! What the server forgets from time to time.

use crate::clock::{Clock, Moment};
use crate::ids::Id;
use crate::server::pairing;
use crate::server::pairing::{
    cleanup_old_sessions, cleanup_pairings, BrowserView, PairingView, TicketView,
};
use crate::server::persist::{QueueView, TaskView};
use crate::server::session::SessionView;
use crate::server::store;
use crate::server::upload_store;
use crate::server::upload_store::StoreView;
use crate::server::web::{AppState, StateView};
use vstd::prelude::*;

verus! {

/// The pairings that are kept.
pub open spec fn kept_pairings(pairings: Map<Id, PairingView>, now: Moment) -> Map<
    Id,
    PairingView,
> {
    store::passing(pairings, |p: PairingView| pairing::pairing_kept(p, now))
}

/// Are these the pairings that are not kept, each once?
pub open spec fn are_gone(pairings: Map<Id, PairingView>, now: Moment, gone: Seq<Id>) -> bool {
    &&& gone.no_duplicates()
    &&& forall|p: Id| #[trigger]
        gone.contains(p) <==> pairings.contains_key(p) && !kept_pairings(
            pairings,
            now,
        ).contains_key(p)
}

/// The uploads once these pairings are closed, one after the other.
pub open spec fn closed_all(s: StoreView, gone: Seq<Id>) -> StoreView
    decreases gone.len(),
{
    if gone.len() == 0 {
        s
    } else {
        closed_all(s, gone.drop_last()).cleanup(gone.last())
    }
}

/// The paths of the files that are dropped when these pairings are closed, in order.
pub open spec fn closed_paths(s: StoreView, gone: Seq<Id>) -> Seq<Seq<char>>
    decreases gone.len(),
{
    if gone.len() == 0 {
        Seq::empty()
    } else {
        let before = closed_all(s, gone.drop_last());
        let p = gone.last();
        closed_paths(s, gone.drop_last()) + before.close(p).swept_paths(
            before.quota.of(p).file_ids,
            p,
        )
    }
}

/// The changes to the database once these pairings are to be deleted from it, one after the other.
pub open spec fn deleted_all(q: QueueView, gone: Seq<Id>) -> QueueView
    decreases gone.len(),
{
    if gone.len() == 0 {
        q
    } else {
        deleted_all(q, gone.drop_last()).send(TaskView::DeletePairing { pairing_id: gone.last() })
    }
}

/// The state once what has lapsed is forgotten, where these pairings have: the sessions that nobody
/// uses, the pairings, their browser sessions, tickets and stored files, and their rows in the
/// database.
pub open spec fn cleaned(v: StateView, gone: Seq<Id>, at: Clock) -> StateView {
    let now = at.moment;
    let left = kept_pairings(v.pairings, now);
    StateView {
        sessions: store::passing(
            v.sessions,
            |s: SessionView| pairing::session_kept(s, v.config.token_expiry_secs, now),
        ),
        pairings: left,
        browsers: store::passing(
            v.browsers,
            |s: BrowserView| s.expires_at > now && left.contains_key(s.pairing_id),
        ),
        tickets: store::passing(
            v.tickets,
            |t: TicketView| t.expires_at > now && left.contains_key(t.pairing_id),
        ),
        queue: deleted_all(v.queue, gone).send(
            TaskView::DeleteExpired { now_unix: at.unix_secs as int },
        ),
        uploads: closed_all(v.uploads, gone),
        ..v
    }
}

/// Those of the listed pairings that are not left.
spec fn missing(ids: Seq<Id>, left: Map<Id, PairingView>) -> Seq<Id>
    decreases ids.len(),
{
    if ids.len() == 0 {
        ids
    } else if left.contains_key(ids.last()) {
        missing(ids.drop_last(), left)
    } else {
        missing(ids.drop_last(), left).push(ids.last())
    }
}

proof fn lemma_missing(ids: Seq<Id>, left: Map<Id, PairingView>)
    ensures
        forall|p: Id| #[trigger]
            missing(ids, left).contains(p) <==> ids.contains(p) && !left.contains_key(p),
        ids.no_duplicates() ==> missing(ids, left).no_duplicates(),
    decreases ids.len(),
{
    if ids.len() > 0 {
        let rest = ids.drop_last();
        let last = ids.last();
        lemma_missing(rest, left);
        let some = missing(rest, left);
        let all = missing(ids, left);
        assert forall|p: Id| ids.contains(p) <==> rest.contains(p) || p == last by {
            if ids.contains(p) && p != last {
                let i = choose|i: int| 0 <= i < ids.len() && ids[i] == p;
                assert(rest[i] == p);
            }
            if rest.contains(p) {
                let i = choose|i: int| 0 <= i < rest.len() && rest[i] == p;
                assert(ids[i] == p);
            }
            assert(ids[ids.len() - 1] == last);
        }
        if !left.contains_key(last) {
            assert forall|p: Id| all.contains(p) <==> some.contains(p) || p == last by {
                if some.contains(p) {
                    let i = choose|i: int| 0 <= i < some.len() && some[i] == p;
                    assert(all[i] == p);
                }
                assert(all[some.len() as int] == last);
            }
            if ids.no_duplicates() {
                assert(rest.no_duplicates());
                assert(!rest.contains(last)) by {
                    if rest.contains(last) {
                        let i = choose|i: int| 0 <= i < rest.len() && rest[i] == last;
                        assert(ids[i] == ids[ids.len() - 1]);
                    }
                }
                assert(!some.contains(last));
                assert forall|i: int, j: int| 0 <= i < j < all.len() implies all[i] != all[j] by {
                    if j == some.len() {
                        assert(some.contains(some[i]));
                    }
                }
            }
        } else if ids.no_duplicates() {
            assert(rest.no_duplicates());
        }
    } else {
        assert forall|p: Id| !(#[trigger] missing(ids, left).contains(p)) by {}
    }
}

impl AppState {
    /// Forgets what has lapsed. Returns the paths of the files to delete.
    pub fn cleanup(&mut self, at: Clock) -> (r: Vec<String>)
        ensures
            exists|gone: Seq<Id>|
                {
                    &&& #[trigger] are_gone(old(self)@.pairings, at.moment, gone)
                    &&& final(self)@ == cleaned(old(self)@, gone, at)
                    &&& upload_store::texts(r@) == closed_paths(old(self)@.uploads, gone)
                },
    {
        let known = self.pairing_store.keys();
        cleanup_old_sessions(&mut self.store, self.config.token_expiry_secs, at.moment);
        cleanup_pairings(
            &mut self.pairing_store,
            &mut self.browser_session_store,
            &mut self.ws_ticket_store,
            at.moment,
        );
        let ghost left = self@.pairings;
        let ghost start = self@;
        assert(left =~= kept_pairings(old(self)@.pairings, at.moment));
        let mut paths: Vec<String> = Vec::new();
        assert(upload_store::texts(paths@) =~= Seq::empty());
        for i in 0..known.len()
            invariant
                left == start.pairings,
                self@ == (StateView {
                    queue: deleted_all(start.queue, missing(known@.take(i as int), left)),
                    uploads: closed_all(start.uploads, missing(known@.take(i as int), left)),
                    ..start
                }),
                upload_store::texts(paths@) == closed_paths(
                    start.uploads,
                    missing(known@.take(i as int), left),
                ),
        {
            let id = known[i];
            proof {
                assert(known@.take(i as int + 1).drop_last() =~= known@.take(i as int));
            }
            if !self.pairing_store.contains_key(&id) {
                let ghost before = missing(known@.take(i as int), left);
                let ghost before_paths = upload_store::texts(paths@);
                let mut more = self.upload_store.cleanup_pairing(id);
                let ghost new_paths = upload_store::texts(more@);
                self.persist.delete_pairing(id);
                let ghost kept = paths@;
                let ghost added = more@;
                paths.append(&mut more);
                proof {
                    assert(paths@ =~= kept + added);
                    assert(upload_store::texts(paths@) =~= before_paths + new_paths);
                    assert(missing(known@.take(i as int + 1), left) == before.push(id));
                    assert(before.push(id).drop_last() =~= before);
                }
            }
        }
        self.persist.delete_expired(at);
        proof {
            assert(known@.take(known@.len() as int) =~= known@);
            let gone = missing(known@, left);
            lemma_missing(known@, left);
            assert(known@.no_duplicates());
            assert forall|p: Id| known@.contains(p) <==> old(self)@.pairings.contains_key(p) by {
                if known@.contains(p) {
                    let i = choose|i: int| 0 <= i < known@.len() && known@[i] == p;
                    assert(old(self)@.pairings.contains_key(known@[i]@));
                }
                if old(self)@.pairings.contains_key(p) {
                    let i = choose|i: int| 0 <= i < known@.len() && known@[i]@ == p;
                    assert(known@[i] == p);
                }
            }
            assert(are_gone(old(self)@.pairings, at.moment, gone));
            let want = cleaned(old(self)@, gone, at);
            assert(self@.sessions =~= want.sessions);
            assert(self@.browsers =~= want.browsers);
            assert(self@.tickets =~= want.tickets);
        }
        paths
    }
}

/// A cleanup spares a pairing whose PC is online or whose phone is connected: the pairing stays as it
/// is, and it may upload afterwards where it might before.
pub proof fn law_cleanup_spares_the_connected(v: StateView, gone: Seq<Id>, at: Clock, p: Id)
    requires
        are_gone(v.pairings, at.moment, gone),
        v.pairings.contains_key(p),
        v.pairings[p].online || v.pairings[p].active_mobile_ws is Some,
    ensures
        cleaned(v, gone, at).pairings.contains_key(p),
        cleaned(v, gone, at).pairings[p] == v.pairings[p],
        cleaned(v, gone, at).uploads.quota.of(p).closed == v.uploads.quota.of(p).closed,
{
    assert(!gone.contains(p));
    lemma_others_stay_open(v.uploads, gone, p);
}

proof fn lemma_others_stay_open(s: StoreView, gone: Seq<Id>, p: Id)
    requires
        !gone.contains(p),
    ensures
        closed_all(s, gone).quota.of(p).closed == s.quota.of(p).closed,
    decreases gone.len(),
{
    if gone.len() > 0 {
        let rest = gone.drop_last();
        assert(!rest.contains(p)) by {
            if rest.contains(p) {
                let i = choose|i: int| 0 <= i < rest.len() && rest[i] == p;
                assert(gone[i] == p);
            }
        }
        lemma_others_stay_open(s, rest, p);
        let before = closed_all(s, rest);
        let last = gone.last();
        assert(gone[gone.len() - 1] == last);
        lemma_sweep_keeps_closed(
            before.close(last),
            before.quota.of(last).file_ids,
            last,
            p,
        );
    }
}

proof fn lemma_sweep_keeps_closed(s: StoreView, ids: Seq<Id>, swept: Id, p: Id)
    ensures
        s.sweep(ids, swept).quota.of(p).closed == s.quota.of(p).closed,
    decreases ids.len(),
{
    if ids.len() > 0 {
        lemma_sweep_keeps_closed(s, ids.drop_last(), swept, p);
    }
}

} // verus!
