use qr_paste::clock::Clock;
use qr_paste::ids::id_string;
use qr_paste::server::pairing::{BrowserSession, PairingEntry};
use qr_paste::server::persist::{
    browser_session_row, to_column, instant_to_unix_secs, load_browser_sessions, load_pairings,
    pairing_from_row, pairing_row, restore_pairing, restore_session, session_from_row,
    unix_secs_to_instant, PersistTask, PersistenceStore, QUEUE_CAPACITY,
};

const SECOND: i128 = 1_000_000_000;
const NOW: i128 = 1_000_000 * SECOND;
const AT: Clock = Clock { unix_secs: 1_700_000_000, moment: NOW };

fn entry() -> PairingEntry {
    PairingEntry {
        pairing_id: 5,
        pairing_secret: [3; 32],
        epoch: 2,
        online: true,
        last_seen: NOW - 10 * SECOND,
        expires_at: NOW + 20 * SECOND,
        active_session_token: None,
        active_mobile_ws: None,
        revision: 7,
    }
}

fn session() -> BrowserSession {
    BrowserSession {
        session_id: [4; 32],
        pairing_id: 5,
        pairing_epoch: 2,
        created_at: NOW - 30 * SECOND,
        last_seen: NOW,
        expires_at: NOW + SECOND,
        revoked: false,
    }
}

#[test]
fn moments_go_through_unix_time() {
    assert_eq!(instant_to_unix_secs(NOW - 3 * SECOND, AT), 1_699_999_997);
    assert_eq!(instant_to_unix_secs(NOW + 3 * SECOND + 1, AT), 1_700_000_003);
    assert_eq!(unix_secs_to_instant(1_700_000_003, AT), NOW + 3 * SECOND);
    assert_eq!(unix_secs_to_instant(1_699_999_997, AT), NOW - 3 * SECOND);
    assert_eq!(to_column(u64::MAX), -1);
}

#[test]
fn pairings_survive_a_restart() {
    let mut persist = PersistenceStore::new(true);
    persist.save_pairing(&entry(), AT);
    let tasks = persist.take();
    assert_eq!(tasks.len(), 1);
    let row = pairing_row(&tasks[0]).expect("a row");
    assert_eq!(row.pairing_id, id_string(5));
    assert_eq!(row.expires_at_unix, 1_700_000_020);
    let loaded = pairing_from_row(&row, AT).expect("loaded");
    let back = restore_pairing(loaded);
    assert_eq!(back.pairing_id, 5);
    assert_eq!(back.pairing_secret, [3; 32]);
    assert_eq!(back.epoch, 2);
    assert_eq!(back.revision, 7);
    assert_eq!(back.last_seen, NOW - 10 * SECOND);
    assert_eq!(back.expires_at, NOW + 20 * SECOND);
    assert!(!back.online);
    assert!(browser_session_row(&tasks[0]).is_none());
}

#[test]
fn browser_sessions_survive_a_restart() {
    let mut persist = PersistenceStore::new(true);
    persist.save_browser_session(&session(), AT);
    let tasks = persist.take();
    let row = browser_session_row(&tasks[0]).expect("a row");
    let back = restore_session(session_from_row(&row, AT).expect("loaded"));
    assert_eq!(back.session_id, [4; 32]);
    assert_eq!(back.created_at, NOW - 30 * SECOND);
    assert_eq!(back.expires_at, NOW + SECOND);
    assert!(!back.revoked);
}

#[test]
fn damaged_and_lapsed_rows_are_left_out() {
    let mut persist = PersistenceStore::new(true);
    persist.save_pairing(&entry(), AT);
    persist.save_browser_session(&session(), AT);
    let tasks = persist.take();
    let good = || pairing_row(&tasks[0]).unwrap();
    let mut bad_id = good();
    bad_id.pairing_id = "x".to_string();
    let mut bad_secret = good();
    bad_secret.pairing_secret = vec![1];
    let mut lapsed = good();
    lapsed.expires_at_unix = AT.unix_secs;
    assert_eq!(load_pairings(&vec![good(), bad_id, bad_secret, lapsed], AT).len(), 1);
    let good = || browser_session_row(&tasks[1]).unwrap();
    let mut bad = good();
    bad.session_id = Vec::new();
    let mut lapsed = good();
    lapsed.expires_at_unix = AT.unix_secs;
    let mut revoked = good();
    revoked.revoked = true;
    assert_eq!(load_browser_sessions(&vec![bad, lapsed, revoked, good()], AT).len(), 1);
}

#[test]
fn the_queue_is_bounded_and_can_be_off() {
    let mut off = PersistenceStore::new(false);
    off.delete_pairing(1);
    assert!(off.take().is_empty());
    let mut on = PersistenceStore::new(true);
    on.delete_pairing(1);
    on.delete_browser_sessions_for_pairing(1);
    on.delete_expired(AT);
    let tasks = on.take();
    assert!(matches!(tasks[0], PersistTask::DeletePairing { pairing_id: 1 }));
    assert!(matches!(
        tasks[1],
        PersistTask::DeleteBrowserSessionsForPairing { pairing_id: 1 }
    ));
    assert!(matches!(tasks[2], PersistTask::DeleteExpired { now_unix: 1_700_000_000 }));
    for _ in 0..QUEUE_CAPACITY + 5 {
        on.delete_pairing(1);
    }
    assert_eq!(on.take().len(), QUEUE_CAPACITY);
}

#[test]
fn what_lapsed_stays_lapsed() {
    for secs in [-5, -1, 0, 1, 5] {
        let moment = unix_secs_to_instant(AT.unix_secs + secs, AT);
        assert_eq!(moment <= NOW, secs <= 0);
    }
    assert_eq!(unix_secs_to_instant(i64::MAX, Clock { unix_secs: 0, moment: i64::MAX as i128 * SECOND }), i64::MAX as i128 * SECOND);
}
