//! Pairings between a PC and a phone, the browser sessions that a pairing gives the phone, the
//! tickets that a browser session gives for one connection, and the secrets that all of them rest
//! on.

use crate::clock;
use crate::clock::{elapsed_at_most, Moment};
use crate::digest::{fill_random, same_bytes};
use crate::ids;
use crate::ids::Id;
use crate::server::session::{copy_opt, Session, SessionStore, SessionView};
use crate::server::store;
use crate::server::store::{Record, Store};
use crate::text;
use crate::text::chars_of;
use regex::Regex;
use vstd::prelude::*;

verus! {

/// A phone's connection: its own identifier, and the channel that it takes orders by.
#[derive(Debug, Clone, Copy, PartialEq, Eq, Structural)]
pub struct WsHandle {
    /// Tells the connections of one pairing apart.
    pub connection_id: Id,
    /// The channel.
    pub control_tx: u64,
}

/// An order to a phone's connection.
#[derive(Debug, Clone, Copy, PartialEq, Eq, Structural)]
pub enum WsControl {
    /// Close, with this code and for this reason.
    Close { code: u16, reason: CloseReason },
}

/// Why a phone's connection is closed.
#[derive(Debug, Clone, Copy, PartialEq, Eq, Structural)]
pub enum CloseReason {
    /// Another connection took its place.
    Replaced,
    /// The pairing was revoked.
    Revoked,
    /// Its browser session ended.
    SessionRevoked,
    /// A new browser session took its place.
    Superseded,
    /// It sent pings too fast.
    PingRateExceeded,
}

impl CloseReason {
    /// The word for it.
    pub open spec fn word(self) -> Seq<char> {
        match self {
            CloseReason::Replaced => "replaced"@,
            CloseReason::Revoked => "revoked"@,
            CloseReason::SessionRevoked => "session_revoked"@,
            CloseReason::Superseded => "superseded"@,
            CloseReason::PingRateExceeded => "ping_rate_exceeded"@,
        }
    }

    /// The word for it.
    pub fn as_str(self) -> (r: &'static str)
        ensures
            r@ == self.word(),
    {
        match self {
            CloseReason::Replaced => "replaced",
            CloseReason::Revoked => "revoked",
            CloseReason::SessionRevoked => "session_revoked",
            CloseReason::Superseded => "superseded",
            CloseReason::PingRateExceeded => "ping_rate_exceeded",
        }
    }
}

/// One pairing.
pub struct PairingEntry {
    /// Its identifier, which is also its key.
    pub pairing_id: Id,
    /// The secret that a phone proves itself with once.
    pub pairing_secret: [u8; 32],
    /// Goes up with each revocation; what was given out under an earlier epoch is void.
    pub epoch: u64,
    /// Is a PC client listening?
    pub online: bool,
    /// When the PC was last heard of.
    pub last_seen: Moment,
    /// When the pairing lapses, if the PC is gone by then.
    pub expires_at: Moment,
    /// The session of the PC client that events go to.
    pub active_session_token: Option<String>,
    /// The phone's connection.
    pub active_mobile_ws: Option<WsHandle>,
    /// Goes up with each change.
    pub revision: u64,
}

/// A pairing, for contracts.
#[verifier::ext_equal]
pub struct PairingView {
    pub pairing_id: Id,
    pub pairing_secret: Seq<u8>,
    pub epoch: u64,
    pub online: bool,
    pub last_seen: Moment,
    pub expires_at: Moment,
    pub active_session_token: Option<Seq<char>>,
    pub active_mobile_ws: Option<WsHandle>,
    pub revision: u64,
}

impl View for PairingEntry {
    type V = PairingView;

    open spec fn view(&self) -> PairingView {
        PairingView {
            pairing_id: self.pairing_id,
            pairing_secret: self.pairing_secret@,
            epoch: self.epoch,
            online: self.online,
            last_seen: self.last_seen,
            expires_at: self.expires_at,
            active_session_token: text::opt_chars(self.active_session_token),
            active_mobile_ws: self.active_mobile_ws,
            revision: self.revision,
        }
    }
}

impl Record for PairingEntry {
    fn copy(&self) -> (r: PairingEntry) {
        PairingEntry {
            pairing_id: self.pairing_id,
            pairing_secret: self.pairing_secret,
            epoch: self.epoch,
            online: self.online,
            last_seen: self.last_seen,
            expires_at: self.expires_at,
            active_session_token: copy_opt(&self.active_session_token),
            active_mobile_ws: self.active_mobile_ws,
            revision: self.revision,
        }
    }
}

/// A phone's browser, let in once with the pairing's secret.
pub struct BrowserSession {
    /// Its secret identifier, which is also its key.
    pub session_id: [u8; 32],
    /// The pairing it belongs to.
    pub pairing_id: Id,
    /// The pairing's epoch when it was let in.
    pub pairing_epoch: u64,
    /// When it was let in.
    pub created_at: Moment,
    /// When it was last heard of.
    pub last_seen: Moment,
    /// When it lapses.
    pub expires_at: Moment,
    /// Was it revoked?
    pub revoked: bool,
}

/// A browser session, for contracts.
#[verifier::ext_equal]
pub struct BrowserView {
    pub session_id: Seq<u8>,
    pub pairing_id: Id,
    pub pairing_epoch: u64,
    pub created_at: Moment,
    pub last_seen: Moment,
    pub expires_at: Moment,
    pub revoked: bool,
}

impl View for BrowserSession {
    type V = BrowserView;

    open spec fn view(&self) -> BrowserView {
        BrowserView {
            session_id: self.session_id@,
            pairing_id: self.pairing_id,
            pairing_epoch: self.pairing_epoch,
            created_at: self.created_at,
            last_seen: self.last_seen,
            expires_at: self.expires_at,
            revoked: self.revoked,
        }
    }
}

impl Record for BrowserSession {
    fn copy(&self) -> (r: BrowserSession) {
        BrowserSession {
            session_id: self.session_id,
            pairing_id: self.pairing_id,
            pairing_epoch: self.pairing_epoch,
            created_at: self.created_at,
            last_seen: self.last_seen,
            expires_at: self.expires_at,
            revoked: self.revoked,
        }
    }
}

/// A ticket for one connection.
pub struct WsTicket {
    /// The browser session that asked for it.
    pub browser_session_id: [u8; 32],
    /// The pairing it belongs to.
    pub pairing_id: Id,
    /// The pairing's epoch when it was issued.
    pub pairing_epoch: u64,
    /// When it was issued.
    pub issued_at: Moment,
    /// When it lapses.
    pub expires_at: Moment,
}

/// A ticket, for contracts.
#[verifier::ext_equal]
pub struct TicketView {
    pub browser_session_id: Seq<u8>,
    pub pairing_id: Id,
    pub pairing_epoch: u64,
    pub issued_at: Moment,
    pub expires_at: Moment,
}

impl View for WsTicket {
    type V = TicketView;

    open spec fn view(&self) -> TicketView {
        TicketView {
            browser_session_id: self.browser_session_id@,
            pairing_id: self.pairing_id,
            pairing_epoch: self.pairing_epoch,
            issued_at: self.issued_at,
            expires_at: self.expires_at,
        }
    }
}

impl Record for WsTicket {
    fn copy(&self) -> (r: WsTicket) {
        WsTicket {
            browser_session_id: self.browser_session_id,
            pairing_id: self.pairing_id,
            pairing_epoch: self.pairing_epoch,
            issued_at: self.issued_at,
            expires_at: self.expires_at,
        }
    }
}

/// All pairings, by identifier.
pub type PairingStore = Store<Id, PairingEntry>;

/// All browser sessions, by identifier.
pub type BrowserSessionStore = Store<[u8; 32], BrowserSession>;

/// All tickets, by the secret that they are shown with.
pub type WsTicketStore = Store<[u8; 32], WsTicket>;

/// No pairings.
pub fn new_pairing_store() -> (r: PairingStore)
    ensures
        r@ == Map::<Id, PairingView>::empty(),
{
    Store::new()
}

/// No browser sessions.
pub fn new_browser_session_store() -> (r: BrowserSessionStore)
    ensures
        r@ == Map::<Seq<u8>, BrowserView>::empty(),
{
    Store::new()
}

/// No tickets.
pub fn new_ws_ticket_store() -> (r: WsTicketStore)
    ensures
        r@ == Map::<Seq<u8>, TicketView>::empty(),
{
    Store::new()
}

/// The two small hexadecimal digits of a byte.
pub open spec fn hex_byte(b: u8) -> Seq<char> {
    seq![ids::hex_digit((b / 16) as nat), ids::hex_digit((b % 16) as nat)]
}

/// Bytes in small hexadecimal digits, two for each.
pub open spec fn hex_of(bytes: Seq<u8>) -> Seq<char>
    decreases bytes.len(),
{
    if bytes.len() == 0 {
        Seq::empty()
    } else {
        hex_of(bytes.drop_last()) + hex_byte(bytes.last())
    }
}

/// A small hexadecimal digit.
pub open spec fn is_hex_digit(c: char) -> bool {
    '0' <= c <= '9' || 'a' <= c <= 'f'
}

/// The form of a secret: sixty-four small hexadecimal digits.
pub open spec fn is_secret_text(s: Seq<char>) -> bool {
    s.len() == 64 && forall|i: int| 0 <= i < 64 ==> is_hex_digit(#[trigger] s[i])
}

/// `Regex::is_match` with `^[0-9a-f]{64}$`: the whole text is sixty-four small hexadecimal digits.
#[verifier::external_body]
pub(crate) fn matches_secret_regex(text: &str) -> (r: bool)
    ensures
        r == is_secret_text(text@),
{
    Regex::new(r"^[0-9a-f]{64}$").expect("valid regex").is_match(text)
}

/// Has the text the form of a secret?
pub fn secret_regex(text: &str) -> (r: bool)
    ensures
        r == is_secret_text(text@),
{
    matches_secret_regex(text)
}

/// Thirty-two bytes that nobody can guess. Nothing is known of them.
pub fn random_bytes_32() -> (r: [u8; 32]) {
    fill_random()
}

/// The small hexadecimal digit of a value below sixteen.
fn hex_char(d: u8) -> (r: char)
    requires
        d < 16,
    ensures
        r == ids::hex_digit(d as nat),
{
    if d < 10 {
        (48 + d) as char
    } else {
        (87 + d) as char
    }
}

/// Bytes in small hexadecimal digits, two for each.
pub fn encode_hex(bytes: &[u8]) -> (r: String)
    ensures
        r@ == hex_of(bytes@),
{
    let mut out = String::new();
    for i in 0..bytes.len()
        invariant
            out@ == hex_of(bytes@.take(i as int)),
    {
        let b = bytes[i];
        out.push(hex_char(b / 16));
        out.push(hex_char(b % 16));
        proof {
            assert(bytes@.take(i as int + 1).drop_last() =~= bytes@.take(i as int));
            assert(out@ =~= hex_of(bytes@.take(i as int)) + hex_byte(b));
        }
    }
    assert(bytes@.take(bytes@.len() as int) =~= bytes@);
    out
}

/// The value of a small hexadecimal digit.
fn decode_hex_nibble(c: char) -> (r: Result<u8, ()>)
    ensures
        r is Ok <==> is_hex_digit(c),
        r matches Ok(d) ==> d < 16 && ids::hex_digit(d as nat) == c,
{
    if '0' <= c && c <= '9' {
        Ok(c as u8 - 48)
    } else if 'a' <= c && c <= 'f' {
        Ok(c as u8 - 87)
    } else {
        Err(())
    }
}

/// The thirty-two bytes that sixty-four small hexadecimal digits write; an error for any other
/// text.
pub fn decode_hex_32(value: &str) -> (r: Result<[u8; 32], ()>)
    ensures
        r is Ok <==> is_secret_text(value@),
        r matches Ok(bytes) ==> hex_of(bytes@) == value@,
{
    let cs = chars_of(value);
    if cs.len() != 64 {
        return Err(());
    }
    let mut output = [0u8; 32];
    let mut i: usize = 0;
    while i < 32
        invariant
            i <= 32,
            cs@ == value@,
            cs@.len() == 64,
            hex_of(output@.take(i as int)) == cs@.take(2 * i),
            forall|j: int| 0 <= j < 2 * i ==> is_hex_digit(#[trigger] cs@[j]),
        decreases 32 - i,
    {
        let ghost before = output@;
        let (hi, lo) = match (decode_hex_nibble(cs[2 * i]), decode_hex_nibble(cs[2 * i + 1])) {
            (Ok(hi), Ok(lo)) => (hi, lo),
            _ => {
                assert(!is_hex_digit(cs@[2 * i]) || !is_hex_digit(cs@[2 * i + 1]));
                return Err(());
            },
        };
        let b: u8 = hi * 16 + lo;
        output[i] = b;
        proof {
            assert(b / 16 == hi && b % 16 == lo);
            assert(output@.take(i as int + 1).drop_last() =~= before.take(i as int));
            assert(cs@.take(2 * (i + 1)) =~= cs@.take(2 * i) + hex_byte(b));
        }
        i = i + 1;
    }
    assert(output@.take(32) =~= output@);
    assert(cs@.take(64) =~= cs@);
    Ok(output)
}

proof fn lemma_hex_len(b: Seq<u8>)
    ensures
        hex_of(b).len() == 2 * b.len(),
    decreases b.len(),
{
    if b.len() > 0 {
        lemma_hex_len(b.drop_last());
    }
}

/// Different bytes are written differently.
pub proof fn lemma_hex_injective(a: Seq<u8>, b: Seq<u8>)
    requires
        hex_of(a) == hex_of(b),
    ensures
        a == b,
    decreases a.len(),
{
    lemma_hex_len(a);
    lemma_hex_len(b);
    if a.len() > 0 {
        let x = a.drop_last();
        let y = b.drop_last();
        lemma_hex_len(x);
        lemma_hex_len(y);
        let n = hex_of(a).len();
        assert(hex_of(a).take(n - 2) =~= hex_of(x));
        assert(hex_of(b).take(n - 2) =~= hex_of(y));
        lemma_hex_injective(x, y);
        assert(hex_of(a)[n - 2] == hex_byte(a.last())[0]);
        assert(hex_of(b)[n - 2] == hex_byte(b.last())[0]);
        assert(hex_of(a)[n - 1] == hex_byte(a.last())[1]);
        assert(hex_of(b)[n - 1] == hex_byte(b.last())[1]);
        assert(a.last() / 16 == b.last() / 16);
        assert(a.last() % 16 == b.last() % 16);
        assert(a.last() == b.last());
        assert(a =~= x.push(a.last()));
        assert(b =~= y.push(b.last()));
    } else {
        assert(a =~= b);
    }
}

/// The bytes that hexadecimal digits write.
pub open spec fn unhex(s: Seq<char>) -> Seq<u8> {
    choose|b: Seq<u8>| hex_of(b) == s
}

/// Hexadecimal digits write the bytes that they were written for.
pub proof fn lemma_unhex(b: Seq<u8>)
    ensures
        unhex(hex_of(b)) == b,
{
    lemma_hex_injective(unhex(hex_of(b)), b);
}

/// What [`encode_hex`] writes of thirty-two bytes is a secret's text, and [`decode_hex_32`] can
/// give no other bytes back for it.
pub proof fn law_hex_round_trip(bytes: Seq<u8>, decoded: Seq<u8>)
    requires
        bytes.len() == 32,
    ensures
        is_secret_text(hex_of(bytes)),
        hex_of(decoded) == hex_of(bytes) ==> decoded == bytes,
{
    lemma_hex_len(bytes);
    lemma_hex_digits(bytes);
    if hex_of(decoded) == hex_of(bytes) {
        lemma_hex_injective(decoded, bytes);
    }
}

proof fn lemma_hex_digits(b: Seq<u8>)
    ensures
        forall|i: int| 0 <= i < hex_of(b).len() ==> is_hex_digit(#[trigger] hex_of(b)[i]),
    decreases b.len(),
{
    if b.len() > 0 {
        lemma_hex_digits(b.drop_last());
        let h = hex_of(b.drop_last());
        assert forall|i: int| 0 <= i < hex_of(b).len() implies is_hex_digit(
            #[trigger] hex_of(b)[i],
        ) by {
            if i < h.len() {
                assert(hex_of(b)[i] == h[i]);
            } else {
                assert(hex_of(b)[i] == hex_byte(b.last())[i - h.len()]);
            }
        }
    }
}

/// Is this text the pairing's secret? The comparison takes the same time for every secret.
pub fn verify_secret(entry: &PairingEntry, provided_hex: &str) -> (r: bool)
    ensures
        r == (provided_hex@ == hex_of(entry.pairing_secret@)),
{
    proof {
        lemma_hex_len(entry.pairing_secret@);
        lemma_hex_digits(entry.pairing_secret@);
    }
    if !secret_regex(provided_hex) {
        return false;
    }
    match decode_hex_32(provided_hex) {
        Err(()) => false,
        Ok(decoded) => {
            proof {
                if provided_hex@ == hex_of(entry.pairing_secret@) {
                    lemma_hex_injective(decoded@, entry.pairing_secret@);
                }
            }
            same_bytes(&entry.pairing_secret, &decoded)
        },
    }
}

/// Compares a secret with nothing, so that asking for a pairing that does not exist takes as long
/// as asking with a wrong secret.
pub fn constant_time_dummy_compare(provided_hex: &str) {
    if let Ok(decoded) = decode_hex_32(provided_hex) {
        let zero = [0u8; 32];
        let _same = same_bytes(&decoded, &zero);
    }
}

/// Seconds for which a phone that began to connect is waited for.
pub const UPGRADE_RESERVATION_SECS: u64 = 10;

/// Is a session kept: is a phone or the PC connected, is a phone connecting, or is it young?
pub open spec fn session_kept(s: SessionView, token_expiry_secs: u64, now: Moment) -> bool {
    ||| s.ws_active
    ||| s.client_tx is Some
    ||| (s.upgrade_reserved_at matches Some(at) && clock::elapsed(now, at)
        <= UPGRADE_RESERVATION_SECS)
    ||| clock::elapsed(now, s.created_at) <= token_expiry_secs
}

/// Is a pairing kept: has it not lapsed, or is the PC or the phone connected?
pub open spec fn pairing_kept(p: PairingView, now: Moment) -> bool {
    p.expires_at > now || p.online || p.active_mobile_ws is Some
}

/// Forgets the sessions that nobody uses and that are too old.
pub fn cleanup_old_sessions(session_store: &mut SessionStore, token_expiry_secs: u64, now: Moment)
    ensures
        final(session_store)@ == store::passing(
            old(session_store)@,
            |s: SessionView| session_kept(s, token_expiry_secs, now),
        ),
{
    let keep = |s: &Session| -> (r: bool)
        ensures
            r == session_kept(s@, token_expiry_secs, now),
        {
            let reserved = match s.upgrade_reserved_at {
                Some(at) => elapsed_at_most(now, at, UPGRADE_RESERVATION_SECS),
                None => false,
            };
            s.ws_active || s.client_tx.is_some() || reserved || elapsed_at_most(
                now,
                s.created_at,
                token_expiry_secs,
            )
        };
    session_store.retain(keep, Ghost(|s: SessionView| session_kept(s, token_expiry_secs, now)));
}

/// Forgets the pairings that have lapsed, and the browser sessions and tickets that have lapsed or
/// whose pairing is gone.
pub fn cleanup_pairings(
    pairing_store: &mut PairingStore,
    browser_session_store: &mut BrowserSessionStore,
    ws_ticket_store: &mut WsTicketStore,
    now: Moment,
)
    ensures
        final(pairing_store)@ == store::passing(
            old(pairing_store)@,
            |p: PairingView| pairing_kept(p, now),
        ),
        final(browser_session_store)@ == store::passing(
            old(browser_session_store)@,
            |s: BrowserView|
                s.expires_at > now && final(pairing_store)@.contains_key(s.pairing_id),
        ),
        final(ws_ticket_store)@ == store::passing(
            old(ws_ticket_store)@,
            |t: TicketView| t.expires_at > now && final(pairing_store)@.contains_key(t.pairing_id),
        ),
{
    let keep_pairing = |p: &PairingEntry| -> (r: bool)
        ensures
            r == pairing_kept(p@, now),
        { p.expires_at > now || p.online || p.active_mobile_ws.is_some() };
    pairing_store.retain(keep_pairing, Ghost(|p: PairingView| pairing_kept(p, now)));
    let known: &PairingStore = &*pairing_store;
    let ghost left = known@;
    let keep_session = |s: &BrowserSession| -> (r: bool)
        ensures
            r == (s.expires_at > now && known@.contains_key(s.pairing_id)),
        { s.expires_at > now && known.contains_key(&s.pairing_id) };
    browser_session_store.retain(
        keep_session,
        Ghost(|s: BrowserView| s.expires_at > now && left.contains_key(s.pairing_id)),
    );
    let keep_ticket = |t: &WsTicket| -> (r: bool)
        ensures
            r == (t.expires_at > now && known@.contains_key(t.pairing_id)),
        { t.expires_at > now && known.contains_key(&t.pairing_id) };
    ws_ticket_store.retain(
        keep_ticket,
        Ghost(|t: TicketView| t.expires_at > now && left.contains_key(t.pairing_id)),
    );
}

/// After a cleanup no browser session and no ticket is left without its pairing, and none that has
/// lapsed; a pairing whose PC is online or whose phone is connected is never forgotten.
pub proof fn law_cleanup_leaves_no_orphans(
    pairings: Map<Id, PairingView>,
    sessions: Map<Seq<u8>, BrowserView>,
    tickets: Map<Seq<u8>, TicketView>,
    now: Moment,
)
    ensures
        ({
            let left = store::passing(pairings, |p: PairingView| pairing_kept(p, now));
            let s = store::passing(
                sessions,
                |s: BrowserView| s.expires_at > now && left.contains_key(s.pairing_id),
            );
            let t = store::passing(
                tickets,
                |t: TicketView| t.expires_at > now && left.contains_key(t.pairing_id),
            );
            &&& forall|k: Seq<u8>| #[trigger]
                s.contains_key(k) ==> left.contains_key(s[k].pairing_id) && s[k].expires_at > now
            &&& forall|k: Seq<u8>| #[trigger]
                t.contains_key(k) ==> left.contains_key(t[k].pairing_id) && t[k].expires_at > now
            &&& forall|p: Id| #[trigger]
                pairings.contains_key(p) && (pairings[p].online
                    || pairings[p].active_mobile_ws is Some) ==> left.contains_key(p) && left[p]
                    == pairings[p]
        }),
{
}

} // verus!
