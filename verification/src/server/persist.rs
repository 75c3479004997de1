//! Pairings and browser sessions as rows of a database.
//!
//! What is written and what is made of the rows that are read is decided here; the database itself
//! is its caller's. Clock readings are kept as seconds since the Unix epoch, since the monotonic
//! clock starts anew with the machine.

use crate::clock;
use crate::clock::{Clock, Moment, MOMENT_MAX, MOMENT_MIN, SECOND};
use crate::ids;
use crate::ids::{id_string, parse_id, Id};
use crate::server::pairing::{BrowserSession, BrowserView, PairingEntry, PairingView};
use vstd::prelude::*;

verus! {

/// A pairing that was read back.
#[derive(Debug)]
pub struct LoadedPairing {
    pub pairing_id: Id,
    pub pairing_secret: [u8; 32],
    pub epoch: u64,
    pub last_seen: Moment,
    pub expires_at: Moment,
    pub revision: u64,
}

/// A browser session that was read back.
#[derive(Debug)]
pub struct LoadedBrowserSession {
    pub session_id: [u8; 32],
    pub pairing_id: Id,
    pub pairing_epoch: u64,
    pub created_at: Moment,
    pub last_seen: Moment,
    pub expires_at: Moment,
    pub revoked: bool,
}

/// A row of the table of pairings.
#[derive(Debug)]
pub struct PairingRow {
    pub pairing_id: String,
    pub pairing_secret: Vec<u8>,
    pub epoch: i64,
    pub last_seen_unix: i64,
    pub expires_at_unix: i64,
    pub revision: i64,
}

/// A row of the table of browser sessions.
#[derive(Debug)]
pub struct BrowserSessionRow {
    pub session_id: Vec<u8>,
    pub pairing_id: String,
    pub pairing_epoch: i64,
    pub created_at_unix: i64,
    pub last_seen_unix: i64,
    pub expires_at_unix: i64,
    pub revoked: bool,
}

/// A change to the database.
#[derive(Debug, Clone, Copy)]
pub enum PersistTask {
    /// Write a pairing, in place of the one with its identifier.
    SavePairing {
        pairing_id: Id,
        pairing_secret: [u8; 32],
        epoch: u64,
        last_seen_unix: i64,
        expires_at_unix: i64,
        revision: u64,
    },
    /// Delete a pairing and its browser sessions.
    DeletePairing { pairing_id: Id },
    /// Write a browser session, in place of the one with its identifier.
    SaveBrowserSession {
        session_id: [u8; 32],
        pairing_id: Id,
        pairing_epoch: u64,
        created_at_unix: i64,
        last_seen_unix: i64,
        expires_at_unix: i64,
        revoked: bool,
    },
    /// Delete the browser sessions of a pairing.
    DeleteBrowserSessionsForPairing { pairing_id: Id },
    /// Delete everything that has lapsed.
    DeleteExpired { now_unix: i64 },
}

/// Whole seconds from now to a moment, negative for the past, rounded towards now.
pub open spec fn secs_from_now(moment: Moment, now: Moment) -> int {
    if moment <= now {
        -((now - moment) / (SECOND as int))
    } else {
        (moment - now) / (SECOND as int)
    }
}

/// A moment in seconds since the Unix epoch.
pub open spec fn unix_of(moment: Moment, at: Clock) -> int {
    at.unix_secs + secs_from_now(moment, at.moment)
}

/// A number kept to the range of an `i64`, but not to its least value.
pub open spec fn clamp(n: int) -> int {
    if n > i64::MAX {
        i64::MAX as int
    } else if n < -i64::MAX {
        -i64::MAX
    } else {
        n
    }
}

/// The moment that many seconds since the Unix epoch stand for; now, where the clock cannot show
/// it.
pub open spec fn moment_of(unix_secs: i64, at: Clock) -> int {
    let m = clock::plus(at.moment, clamp(unix_secs - at.unix_secs));
    if clock::in_range(m) {
        m
    } else {
        at.moment as int
    }
}

/// Can the moment be written in seconds since the Unix epoch?
pub open spec fn is_writable(moment: Moment, at: Clock) -> bool {
    &&& clock::in_range(moment as int)
    &&& clock::in_range(at.moment as int)
    &&& i64::MIN < secs_from_now(moment, at.moment) <= i64::MAX
    &&& i64::MIN <= unix_of(moment, at) <= i64::MAX
}

/// A moment in seconds since the Unix epoch.
pub fn instant_to_unix_secs(instant: Moment, at: Clock) -> (r: i64)
    requires
        is_writable(instant, at),
    ensures
        r == unix_of(instant, at),
{
    if instant <= at.moment {
        let past: i128 = (at.moment - instant) / SECOND;
        at.unix_secs - past as i64
    } else {
        let future: i128 = (instant - at.moment) / SECOND;
        at.unix_secs + future as i64
    }
}

/// The moment that many seconds since the Unix epoch stand for. What has lapsed by the system clock
/// has lapsed by the result.
pub fn unix_secs_to_instant(unix_secs: i64, at: Clock) -> (r: Moment)
    requires
        clock::in_range(at.moment as int),
    ensures
        r == moment_of(unix_secs, at),
        clock::in_range(r as int),
{
    let diff: i128 = unix_secs as i128 - at.unix_secs as i128;
    let max: i128 = i64::MAX as i128;
    let secs: i128 = if diff > max {
        max
    } else if diff < -max {
        -max
    } else {
        diff
    };
    let m: i128 = at.moment + secs * SECOND;
    if MOMENT_MIN <= m && m <= MOMENT_MAX {
        m
    } else {
        at.moment
    }
}

/// A moment that is written in seconds and read back at the same time comes back less than a second
/// off, and never on the other side of now.
pub proof fn law_time_round_trip(moment: Moment, at: Clock)
    requires
        is_writable(moment, at),
        unix_of(moment, at) <= i64::MAX,
    ensures
        ({
            let back = moment_of(unix_of(moment, at) as i64, at);
            &&& -SECOND < back - moment < SECOND
            &&& moment <= at.moment ==> moment <= back <= at.moment
            &&& moment > at.moment ==> at.moment <= back <= moment
        }),
{
    let secs = secs_from_now(moment, at.moment);
    let back = clock::plus(at.moment, secs);
    if moment <= at.moment {
        let d = at.moment - moment;
        assert(d == SECOND * (d / (SECOND as int)) + d % (SECOND as int)) by (nonlinear_arith)
            requires
                SECOND > 0,
        ;
        assert(back == at.moment - (d / (SECOND as int)) * SECOND);
    } else {
        let d = moment - at.moment;
        assert(d == SECOND * (d / (SECOND as int)) + d % (SECOND as int)) by (nonlinear_arith)
            requires
                SECOND > 0,
        ;
    }
}

/// What a saved time says of lapsing: a time read back has lapsed exactly when it lies no later
/// than now by the system clock, as far as the monotonic clock can show it.
pub proof fn law_loaded_expiry(unix_secs: i64, at: Clock)
    requires
        clock::in_range(at.moment as int),
        clock::in_range(clock::plus(at.moment, clamp(unix_secs - at.unix_secs))),
    ensures
        moment_of(unix_secs, at) <= at.moment <==> unix_secs <= at.unix_secs,
{
}

/// A change to the database, for contracts.
pub enum TaskView {
    SavePairing {
        pairing_id: Id,
        pairing_secret: Seq<u8>,
        epoch: u64,
        last_seen_unix: int,
        expires_at_unix: int,
        revision: u64,
    },
    DeletePairing { pairing_id: Id },
    SaveBrowserSession {
        session_id: Seq<u8>,
        pairing_id: Id,
        pairing_epoch: u64,
        created_at_unix: int,
        last_seen_unix: int,
        expires_at_unix: int,
        revoked: bool,
    },
    DeleteBrowserSessionsForPairing { pairing_id: Id },
    DeleteExpired { now_unix: int },
}

impl View for PersistTask {
    type V = TaskView;

    open spec fn view(&self) -> TaskView {
        match *self {
            PersistTask::SavePairing {
                pairing_id,
                pairing_secret,
                epoch,
                last_seen_unix,
                expires_at_unix,
                revision,
            } => TaskView::SavePairing {
                pairing_id,
                pairing_secret: pairing_secret@,
                epoch,
                last_seen_unix: last_seen_unix as int,
                expires_at_unix: expires_at_unix as int,
                revision,
            },
            PersistTask::DeletePairing { pairing_id } => TaskView::DeletePairing { pairing_id },
            PersistTask::SaveBrowserSession {
                session_id,
                pairing_id,
                pairing_epoch,
                created_at_unix,
                last_seen_unix,
                expires_at_unix,
                revoked,
            } => TaskView::SaveBrowserSession {
                session_id: session_id@,
                pairing_id,
                pairing_epoch,
                created_at_unix: created_at_unix as int,
                last_seen_unix: last_seen_unix as int,
                expires_at_unix: expires_at_unix as int,
                revoked,
            },
            PersistTask::DeleteBrowserSessionsForPairing { pairing_id } =>
                TaskView::DeleteBrowserSessionsForPairing { pairing_id },
            PersistTask::DeleteExpired { now_unix } => TaskView::DeleteExpired {
                now_unix: now_unix as int,
            },
        }
    }
}

/// The task that writes a pairing as it stands.
pub open spec fn pairing_task(p: PairingView, at: Clock) -> TaskView {
    TaskView::SavePairing {
        pairing_id: p.pairing_id,
        pairing_secret: p.pairing_secret,
        epoch: p.epoch,
        last_seen_unix: unix_of(p.last_seen, at),
        expires_at_unix: unix_of(p.expires_at, at),
        revision: p.revision,
    }
}

/// The task that writes a browser session as it stands.
pub open spec fn session_task(s: BrowserView, at: Clock) -> TaskView {
    TaskView::SaveBrowserSession {
        session_id: s.session_id,
        pairing_id: s.pairing_id,
        pairing_epoch: s.pairing_epoch,
        created_at_unix: unix_of(s.created_at, at),
        last_seen_unix: unix_of(s.last_seen, at),
        expires_at_unix: unix_of(s.expires_at, at),
        revoked: s.revoked,
    }
}

/// How many changes wait to be made at most; a change that comes when so many wait is dropped.
pub const QUEUE_CAPACITY: usize = 1024;

/// The changes that wait to be made to the database, in order.
#[derive(Debug)]
pub struct PersistenceStore {
    enabled: bool,
    queue: Vec<PersistTask>,
}

/// The changes that wait to be made, for contracts.
#[verifier::ext_equal]
pub struct QueueView {
    pub enabled: bool,
    pub queue: Seq<TaskView>,
}

/// The tasks of a list.
pub open spec fn task_views(v: Seq<PersistTask>) -> Seq<TaskView> {
    v.map_values(|t: PersistTask| t@)
}

impl View for PersistenceStore {
    type V = QueueView;

    closed spec fn view(&self) -> QueueView {
        QueueView { enabled: self.enabled, queue: task_views(self.queue@) }
    }
}

impl QueueView {
    /// One more change, unless nothing is kept or too many wait.
    pub open spec fn send(self, task: TaskView) -> QueueView {
        if self.enabled && self.queue.len() < QUEUE_CAPACITY {
            QueueView { queue: self.queue.push(task), ..self }
        } else {
            self
        }
    }
}

impl PersistenceStore {
    /// Nothing waits; where `enabled` is false, nothing ever will.
    pub fn new(enabled: bool) -> (r: Self)
        ensures
            r@ == (QueueView { enabled, queue: Seq::empty() }),
    {
        let r = PersistenceStore { enabled, queue: Vec::new() };
        assert(r@.queue =~= Seq::empty());
        r
    }

    fn send(&mut self, task: PersistTask)
        ensures
            final(self)@ == old(self)@.send(task@),
    {
        if self.enabled && self.queue.len() < QUEUE_CAPACITY {
            self.queue.push(task);
            assert(self@.queue =~= old(self)@.queue.push(task@));
        }
    }

    /// Hands the changes that wait over, to be made.
    pub fn take(&mut self) -> (r: Vec<PersistTask>)
        ensures
            task_views(r@) == old(self)@.queue,
            final(self)@ == (QueueView { queue: Seq::empty(), ..old(self)@ }),
    {
        let mut out: Vec<PersistTask> = Vec::new();
        std::mem::swap(&mut out, &mut self.queue);
        assert(self@.queue =~= Seq::empty());
        out
    }

    /// Writes a pairing as it stands.
    pub fn save_pairing(&mut self, entry: &PairingEntry, at: Clock)
        requires
            is_writable(entry.last_seen, at),
            is_writable(entry.expires_at, at),
        ensures
            final(self)@ == old(self)@.send(pairing_task(entry@, at)),
    {
        self.send(
            PersistTask::SavePairing {
                pairing_id: entry.pairing_id,
                pairing_secret: entry.pairing_secret,
                epoch: entry.epoch,
                last_seen_unix: instant_to_unix_secs(entry.last_seen, at),
                expires_at_unix: instant_to_unix_secs(entry.expires_at, at),
                revision: entry.revision,
            },
        );
    }

    /// Deletes a pairing and its browser sessions.
    pub fn delete_pairing(&mut self, pairing_id: Id)
        ensures
            final(self)@ == old(self)@.send(TaskView::DeletePairing { pairing_id }),
    {
        self.send(PersistTask::DeletePairing { pairing_id });
    }

    /// Writes a browser session as it stands.
    pub fn save_browser_session(&mut self, session: &BrowserSession, at: Clock)
        requires
            is_writable(session.created_at, at),
            is_writable(session.last_seen, at),
            is_writable(session.expires_at, at),
        ensures
            final(self)@ == old(self)@.send(session_task(session@, at)),
    {
        self.send(
            PersistTask::SaveBrowserSession {
                session_id: session.session_id,
                pairing_id: session.pairing_id,
                pairing_epoch: session.pairing_epoch,
                created_at_unix: instant_to_unix_secs(session.created_at, at),
                last_seen_unix: instant_to_unix_secs(session.last_seen, at),
                expires_at_unix: instant_to_unix_secs(session.expires_at, at),
                revoked: session.revoked,
            },
        );
    }

    /// Deletes the browser sessions of a pairing.
    pub fn delete_browser_sessions_for_pairing(&mut self, pairing_id: Id)
        ensures
            final(self)@ == old(self)@.send(
                TaskView::DeleteBrowserSessionsForPairing { pairing_id },
            ),
    {
        self.send(PersistTask::DeleteBrowserSessionsForPairing { pairing_id });
    }

    /// Deletes everything that has lapsed.
    pub fn delete_expired(&mut self, at: Clock)
        ensures
            final(self)@ == old(self)@.send(
                TaskView::DeleteExpired { now_unix: at.unix_secs as int },
            ),
    {
        self.send(PersistTask::DeleteExpired { now_unix: at.unix_secs });
    }
}

/// A number as the database holds it: the numbers past the largest `i64` become negative.
pub open spec fn as_column(n: u64) -> int {
    if n <= i64::MAX {
        n as int
    } else {
        n - 0x1_0000_0000_0000_0000
    }
}

/// A number as the database holds it.
pub fn to_column(n: u64) -> (r: i64)
    ensures
        r == as_column(n),
{
    if n <= i64::MAX as u64 {
        n as i64
    } else {
        -((u64::MAX - n) as i64) - 1
    }
}

/// Is this the row that the task writes?
pub open spec fn is_pairing_row(task: TaskView, row: PairingRow) -> bool {
    match task {
        TaskView::SavePairing {
            pairing_id,
            pairing_secret,
            epoch,
            last_seen_unix,
            expires_at_unix,
            revision,
        } => {
            &&& row.pairing_id@ == ids::uuid_text(pairing_id)
            &&& ids::uuid_parse(row.pairing_id@) == Some(pairing_id)
            &&& row.pairing_secret@ == pairing_secret
            &&& row.epoch == as_column(epoch)
            &&& row.last_seen_unix == last_seen_unix
            &&& row.expires_at_unix == expires_at_unix
            &&& row.revision == as_column(revision)
        },
        _ => false,
    }
}

/// Is this the row that the task writes?
pub open spec fn is_session_row(task: TaskView, row: BrowserSessionRow) -> bool {
    match task {
        TaskView::SaveBrowserSession {
            session_id,
            pairing_id,
            pairing_epoch,
            created_at_unix,
            last_seen_unix,
            expires_at_unix,
            revoked,
        } => {
            &&& row.session_id@ == session_id
            &&& row.pairing_id@ == ids::uuid_text(pairing_id)
            &&& ids::uuid_parse(row.pairing_id@) == Some(pairing_id)
            &&& row.pairing_epoch == as_column(pairing_epoch)
            &&& row.created_at_unix == created_at_unix
            &&& row.last_seen_unix == last_seen_unix
            &&& row.expires_at_unix == expires_at_unix
            &&& row.revoked == revoked
        },
        _ => false,
    }
}

/// The row that a task writes to the table of pairings, if it writes one.
pub fn pairing_row(task: &PersistTask) -> (r: Option<PairingRow>)
    ensures
        match r {
            Some(row) => is_pairing_row(task@, row),
            None => !(task is SavePairing),
        },
{
    match task {
        PersistTask::SavePairing {
            pairing_id,
            pairing_secret,
            epoch,
            last_seen_unix,
            expires_at_unix,
            revision,
        } => Some(
            PairingRow {
                pairing_id: id_string(*pairing_id),
                pairing_secret: vstd::slice::slice_to_vec(pairing_secret.as_slice()),
                epoch: to_column(*epoch),
                last_seen_unix: *last_seen_unix,
                expires_at_unix: *expires_at_unix,
                revision: to_column(*revision),
            },
        ),
        _ => None,
    }
}

/// The row that a task writes to the table of browser sessions, if it writes one.
pub fn browser_session_row(task: &PersistTask) -> (r: Option<BrowserSessionRow>)
    ensures
        match r {
            Some(row) => is_session_row(task@, row),
            None => !(task is SaveBrowserSession),
        },
{
    match task {
        PersistTask::SaveBrowserSession {
            session_id,
            pairing_id,
            pairing_epoch,
            created_at_unix,
            last_seen_unix,
            expires_at_unix,
            revoked,
        } => Some(
            BrowserSessionRow {
                session_id: vstd::slice::slice_to_vec(session_id.as_slice()),
                pairing_id: id_string(*pairing_id),
                pairing_epoch: to_column(*pairing_epoch),
                created_at_unix: *created_at_unix,
                last_seen_unix: *last_seen_unix,
                expires_at_unix: *expires_at_unix,
                revoked: *revoked,
            },
        ),
        _ => None,
    }
}

/// Is the row one that a pairing can be read from?
pub open spec fn pairing_readable(row: PairingRow) -> bool {
    &&& ids::uuid_parse(row.pairing_id@) is Some
    &&& row.pairing_secret@.len() == 32
    &&& row.epoch >= 0
    &&& row.revision >= 0
}

/// Is this the pairing that the row writes?
pub open spec fn is_loaded_pairing(row: PairingRow, at: Clock, p: LoadedPairing) -> bool {
    &&& ids::uuid_parse(row.pairing_id@) == Some(p.pairing_id)
    &&& p.pairing_secret@ == row.pairing_secret@
    &&& p.epoch == row.epoch
    &&& p.last_seen == moment_of(row.last_seen_unix, at)
    &&& p.expires_at == moment_of(row.expires_at_unix, at)
    &&& p.revision == row.revision
}

/// Is the row one that a browser session can be read from?
pub open spec fn session_readable(row: BrowserSessionRow) -> bool {
    &&& row.session_id@.len() == 32
    &&& ids::uuid_parse(row.pairing_id@) is Some
    &&& row.pairing_epoch >= 0
}

/// Is this the browser session that the row writes?
pub open spec fn is_loaded_session(
    row: BrowserSessionRow,
    at: Clock,
    s: LoadedBrowserSession,
) -> bool {
    &&& s.session_id@ == row.session_id@
    &&& ids::uuid_parse(row.pairing_id@) == Some(s.pairing_id)
    &&& s.pairing_epoch == row.pairing_epoch
    &&& s.created_at == moment_of(row.created_at_unix, at)
    &&& s.last_seen == moment_of(row.last_seen_unix, at)
    &&& s.expires_at == moment_of(row.expires_at_unix, at)
    &&& s.revoked == row.revoked
}

/// The thirty-two bytes of a column, if it has so many.
fn bytes_32(bytes: &Vec<u8>) -> (r: Option<[u8; 32]>)
    ensures
        match r {
            Some(a) => a@ == bytes@,
            None => bytes@.len() != 32,
        },
{
    if bytes.len() != 32 {
        return None;
    }
    let mut out = [0u8; 32];
    let mut i: usize = 0;
    while i < 32
        invariant
            i <= 32,
            bytes@.len() == 32,
            forall|j: int| 0 <= j < i ==> out@[j] == bytes@[j],
        decreases 32 - i,
    {
        out[i] = bytes[i];
        i = i + 1;
    }
    assert(out@ =~= bytes@);
    Some(out)
}

/// The pairing that a row writes, if it writes one.
pub fn pairing_from_row(row: &PairingRow, at: Clock) -> (r: Option<LoadedPairing>)
    requires
        clock::in_range(at.moment as int),
    ensures
        match r {
            Some(p) => pairing_readable(*row) && is_loaded_pairing(*row, at, p),
            None => !pairing_readable(*row),
        },
{
    let pairing_id = match parse_id(&row.pairing_id) {
        Some(id) => id,
        None => {
            return None;
        },
    };
    let pairing_secret = match bytes_32(&row.pairing_secret) {
        Some(secret) => secret,
        None => {
            return None;
        },
    };
    if row.epoch < 0 || row.revision < 0 {
        return None;
    }
    Some(
        LoadedPairing {
            pairing_id,
            pairing_secret,
            epoch: row.epoch as u64,
            last_seen: unix_secs_to_instant(row.last_seen_unix, at),
            expires_at: unix_secs_to_instant(row.expires_at_unix, at),
            revision: row.revision as u64,
        },
    )
}

/// The browser session that a row writes, if it writes one.
pub fn session_from_row(row: &BrowserSessionRow, at: Clock) -> (r: Option<LoadedBrowserSession>)
    requires
        clock::in_range(at.moment as int),
    ensures
        match r {
            Some(s) => session_readable(*row) && is_loaded_session(*row, at, s),
            None => !session_readable(*row),
        },
{
    let session_id = match bytes_32(&row.session_id) {
        Some(id) => id,
        None => {
            return None;
        },
    };
    let pairing_id = match parse_id(&row.pairing_id) {
        Some(id) => id,
        None => {
            return None;
        },
    };
    if row.pairing_epoch < 0 {
        return None;
    }
    Some(
        LoadedBrowserSession {
            session_id,
            pairing_id,
            pairing_epoch: row.pairing_epoch as u64,
            created_at: unix_secs_to_instant(row.created_at_unix, at),
            last_seen: unix_secs_to_instant(row.last_seen_unix, at),
            expires_at: unix_secs_to_instant(row.expires_at_unix, at),
            revoked: row.revoked,
        },
    )
}

/// Is a row's pairing taken up: can it be read, and has it not lapsed?
pub open spec fn pairing_taken_up(row: PairingRow, at: Clock) -> bool {
    pairing_readable(row) && row.expires_at_unix > at.unix_secs
}

/// Is a row's browser session taken up: can it be read, and has it neither lapsed nor been revoked?
pub open spec fn session_taken_up(row: BrowserSessionRow, at: Clock) -> bool {
    session_readable(row) && row.expires_at_unix > at.unix_secs && !row.revoked
}

/// The rows whose pairings are taken up, in order.
pub open spec fn readable_pairings(rows: Seq<PairingRow>, at: Clock) -> Seq<PairingRow>
    decreases rows.len(),
{
    if rows.len() == 0 {
        rows
    } else if pairing_taken_up(rows.last(), at) {
        readable_pairings(rows.drop_last(), at).push(rows.last())
    } else {
        readable_pairings(rows.drop_last(), at)
    }
}

/// The rows whose browser sessions are taken up, in order.
pub open spec fn readable_sessions(rows: Seq<BrowserSessionRow>, at: Clock) -> Seq<
    BrowserSessionRow,
>
    decreases rows.len(),
{
    if rows.len() == 0 {
        rows
    } else if session_taken_up(rows.last(), at) {
        readable_sessions(rows.drop_last(), at).push(rows.last())
    } else {
        readable_sessions(rows.drop_last(), at)
    }
}

/// Reads the pairings from their rows; rows that write none, and those that have lapsed, are passed
/// over.
pub fn load_pairings(rows: &Vec<PairingRow>, at: Clock) -> (r: Vec<LoadedPairing>)
    requires
        clock::in_range(at.moment as int),
    ensures
        r@.len() == readable_pairings(rows@, at).len(),
        forall|i: int|
            0 <= i < r@.len() ==> is_loaded_pairing(
                readable_pairings(rows@, at)[i],
                at,
                #[trigger] r@[i],
            ),
{
    let mut out: Vec<LoadedPairing> = Vec::new();
    for i in 0..rows.len()
        invariant
            clock::in_range(at.moment as int),
            out@.len() == readable_pairings(rows@.take(i as int), at).len(),
            forall|j: int|
                0 <= j < out@.len() ==> is_loaded_pairing(
                    readable_pairings(rows@.take(i as int), at)[j],
                    at,
                    #[trigger] out@[j],
                ),
    {
        proof {
            assert(rows@.take(i as int + 1).drop_last() =~= rows@.take(i as int));
        }
        if rows[i].expires_at_unix > at.unix_secs {
            if let Some(p) = pairing_from_row(&rows[i], at) {
                out.push(p);
            }
        }
    }
    assert(rows@.take(rows@.len() as int) =~= rows@);
    out
}

/// Reads the browser sessions from their rows; rows that write none, and those that have lapsed or
/// were revoked, are passed over.
pub fn load_browser_sessions(rows: &Vec<BrowserSessionRow>, at: Clock) -> (r: Vec<
    LoadedBrowserSession,
>)
    requires
        clock::in_range(at.moment as int),
    ensures
        r@.len() == readable_sessions(rows@, at).len(),
        forall|i: int|
            0 <= i < r@.len() ==> is_loaded_session(
                readable_sessions(rows@, at)[i],
                at,
                #[trigger] r@[i],
            ),
{
    let mut out: Vec<LoadedBrowserSession> = Vec::new();
    for i in 0..rows.len()
        invariant
            clock::in_range(at.moment as int),
            out@.len() == readable_sessions(rows@.take(i as int), at).len(),
            forall|j: int|
                0 <= j < out@.len() ==> is_loaded_session(
                    readable_sessions(rows@.take(i as int), at)[j],
                    at,
                    #[trigger] out@[j],
                ),
    {
        proof {
            assert(rows@.take(i as int + 1).drop_last() =~= rows@.take(i as int));
        }
        if rows[i].expires_at_unix > at.unix_secs && !rows[i].revoked {
            if let Some(s) = session_from_row(&rows[i], at) {
                out.push(s);
            }
        }
    }
    assert(rows@.take(rows@.len() as int) =~= rows@);
    out
}

/// The pairing as it stands after it was read back: nobody is connected.
pub fn restore_pairing(p: LoadedPairing) -> (r: PairingEntry)
    ensures
        r@ == (PairingView {
            pairing_id: p.pairing_id,
            pairing_secret: p.pairing_secret@,
            epoch: p.epoch,
            online: false,
            last_seen: p.last_seen,
            expires_at: p.expires_at,
            active_session_token: None,
            active_mobile_ws: None,
            revision: p.revision,
        }),
{
    PairingEntry {
        pairing_id: p.pairing_id,
        pairing_secret: p.pairing_secret,
        epoch: p.epoch,
        online: false,
        last_seen: p.last_seen,
        expires_at: p.expires_at,
        active_session_token: None,
        active_mobile_ws: None,
        revision: p.revision,
    }
}

/// The browser session as it stands after it was read back.
pub fn restore_session(s: LoadedBrowserSession) -> (r: BrowserSession)
    ensures
        r@ == (BrowserView {
            session_id: s.session_id@,
            pairing_id: s.pairing_id,
            pairing_epoch: s.pairing_epoch,
            created_at: s.created_at,
            last_seen: s.last_seen,
            expires_at: s.expires_at,
            revoked: s.revoked,
        }),
{
    BrowserSession {
        session_id: s.session_id,
        pairing_id: s.pairing_id,
        pairing_epoch: s.pairing_epoch,
        created_at: s.created_at,
        last_seen: s.last_seen,
        expires_at: s.expires_at,
        revoked: s.revoked,
    }
}

/// A pairing that is saved and read back is the same pairing, with the same secret, epoch and
/// revision, as long as its epoch and revision fit into a column.
pub proof fn law_pairing_round_trip(
    p: PairingView,
    saved_at: Clock,
    row: PairingRow,
    at: Clock,
    loaded: LoadedPairing,
)
    requires
        is_pairing_row(pairing_task(p, saved_at), row),
        p.pairing_secret.len() == 32,
        p.epoch <= i64::MAX,
        p.revision <= i64::MAX,
        is_loaded_pairing(row, at, loaded),
    ensures
        pairing_readable(row),
        loaded.pairing_id == p.pairing_id,
        loaded.pairing_secret@ == p.pairing_secret,
        loaded.epoch == p.epoch,
        loaded.revision == p.revision,
{
}

/// A browser session that is saved and read back is the same session of the same pairing and epoch,
/// as long as the epoch fits into a column.
pub proof fn law_session_round_trip(
    s: BrowserView,
    saved_at: Clock,
    row: BrowserSessionRow,
    at: Clock,
    loaded: LoadedBrowserSession,
)
    requires
        is_session_row(session_task(s, saved_at), row),
        s.session_id.len() == 32,
        s.pairing_epoch <= i64::MAX,
        is_loaded_session(row, at, loaded),
    ensures
        session_readable(row),
        loaded.session_id@ == s.session_id,
        loaded.pairing_id == s.pairing_id,
        loaded.pairing_epoch == s.pairing_epoch,
        loaded.revoked == s.revoked,
{
}

} // verus!
