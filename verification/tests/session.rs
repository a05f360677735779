use std::time::{SystemTime, UNIX_EPOCH};
use waxum::session::{
    ChatStoreHandle, ClientHandle, ClientLink, LeaseHandle, PairState, SessionState, SessionStatus,
    SubscriptionHandle,
};

fn unix_now() -> i64 {
    SystemTime::now().duration_since(UNIX_EPOCH).unwrap().as_secs() as i64
}

const UP: ClientLink = ClientLink { connected: true, logged_in: true };
const PAIRING: ClientLink = ClientLink { connected: true, logged_in: false };
const DOWN: ClientLink = ClientLink { connected: false, logged_in: false };

#[test]
fn reconnecting_since_starts_unset() {
    let s = SessionState::new("/tmp/x".to_string());
    assert_eq!(s.reconnecting_for_secs(), None);
}

#[test]
fn mark_reconnecting_is_idempotent() {
    let mut s = SessionState::new("/tmp/x".to_string());
    s.mark_reconnecting_now();
    let first = s.reconnecting_since;
    assert!(first.is_some());

    s.mark_reconnecting_now();
    let second = s.reconnecting_since;
    assert_eq!(
        first, second,
        "a second mark while already reconnecting must not reset the window start"
    );
    assert!(s.reconnecting_for_secs().is_some());
}

#[test]
fn clear_reconnecting_resets_to_none() {
    let mut s = SessionState::new("/tmp/x".to_string());
    s.mark_reconnecting_now();
    assert!(s.reconnecting_for_secs().is_some());

    s.clear_reconnecting();
    assert_eq!(s.reconnecting_for_secs(), None);
}

#[test]
fn the_window_counts_from_its_first_mark() {
    let mut s = SessionState::new("/tmp/x".to_string());
    s.mark_reconnecting_at(1000);
    s.mark_reconnecting_at(1500);
    assert_eq!(s.reconnecting_for_secs_at(1700), Some(700));
    assert_eq!(s.reconnecting_for_secs_at(900), Some(0));
}

#[test]
fn marks_carry_the_wall_clock() {
    let mut s = SessionState::new("/tmp/x".to_string());
    let before = unix_now();
    s.mark_reconnecting_now();
    let since = s.reconnecting_since.unwrap();
    assert!(before <= since && since <= unix_now());
}

#[test]
fn a_new_session_is_blank() {
    let s = SessionState::new("/data/s".to_string());
    assert_eq!(s.storage_path, "/data/s");
    assert_eq!(s.get_status(), SessionStatus::Disconnected);
    assert!(s.get_qr_codes().is_empty());
    assert_eq!(s.get_pair_code(), None);
    assert_eq!(s.get_client(), None);
    assert_eq!(s.get_chat_store(), None);
    assert!(s.auto_reconnect_enabled());
    assert!(!s.skip_history_sync());
    assert_eq!(s.lock_cooldown_remaining(), None);
    assert_eq!(s.get_pair_state().attempts, 0);
}

#[test]
fn locks_walk_down_the_schedule() {
    let mut s = SessionState::new("/tmp/x".to_string());
    let schedule = [300, 900, 3600];
    assert_eq!(s.record_lock_cooldown_at(&schedule, 1000), (300, 1300));
    assert_eq!(s.record_lock_cooldown_at(&schedule, 2000), (900, 2900));
    assert_eq!(s.record_lock_cooldown_at(&schedule, 3000), (3600, 6600));
    assert_eq!(s.record_lock_cooldown_at(&schedule, 4000), (3600, 7600));
    assert_eq!(s.lock_strikes, 4);
    assert_eq!(s.lock_cooldown_remaining_at(7000), Some(600));
    assert_eq!(s.lock_cooldown_remaining_at(7600), None);
    s.clear_lock_cooldown();
    assert_eq!(s.lock_cooldown_remaining_at(7000), None);
    assert_eq!(s.record_lock_cooldown_at(&schedule, 5000), (300, 5300));
}

#[test]
fn strikes_saturate() {
    let mut s = SessionState::new("/tmp/x".to_string());
    s.lock_strikes = u32::MAX;
    assert_eq!(s.record_lock_cooldown_at(&[1, 2], 10), (2, 12));
    assert_eq!(s.lock_strikes, u32::MAX);
}

#[test]
fn a_lock_starts_now() {
    let mut s = SessionState::new("/tmp/x".to_string());
    let before = unix_now();
    let (secs, until) = s.record_lock_cooldown(&[50]);
    assert_eq!(secs, 50);
    assert!(before + 50 <= until && until <= unix_now() + 50);
    assert!(s.lock_cooldown_remaining().unwrap() <= 50);
}

#[test]
fn the_third_logout_in_ten_minutes_purges() {
    let mut s = SessionState::new("/tmp/x".to_string());
    assert!(!s.record_logout_and_should_purge_at(1000));
    assert!(!s.record_logout_and_should_purge_at(1300));
    assert!(s.record_logout_and_should_purge_at(1599));
    assert_eq!(s.logout_history, vec![1000, 1300, 1599]);
}

#[test]
fn old_logouts_do_not_count() {
    let mut s = SessionState::new("/tmp/x".to_string());
    assert!(!s.record_logout_and_should_purge_at(1000));
    assert!(!s.record_logout_and_should_purge_at(1300));
    assert!(!s.record_logout_and_should_purge_at(1600));
    assert_eq!(s.logout_history, vec![1300, 1600]);
    assert!(s.record_logout_and_should_purge_at(1601));
}

#[test]
fn logouts_now_purge_on_the_third() {
    let mut s = SessionState::new("/tmp/x".to_string());
    assert!(!s.record_logout_and_should_purge());
    assert!(!s.record_logout_and_should_purge());
    assert!(s.record_logout_and_should_purge());
}

#[test]
fn liveness_needs_a_client() {
    let mut s = SessionState::new("/tmp/x".to_string());
    assert!(!s.is_alive(UP));
    assert!(!s.socket_alive(UP));
    assert_eq!(s.get_live_client(UP), None);
    s.set_client(Some(ClientHandle { id: 7 }));
    assert!(s.is_alive(UP));
    assert!(!s.is_alive(PAIRING));
    assert!(s.socket_alive(PAIRING));
    assert!(!s.socket_alive(DOWN));
    assert_eq!(s.get_live_client(UP), Some(ClientHandle { id: 7 }));
    assert_eq!(s.get_live_client(PAIRING), None);
    assert_eq!(s.get_client(), Some(ClientHandle { id: 7 }));
}

#[test]
fn a_dead_socket_degrades_logged_in_to_connecting() {
    let mut s = SessionState::new("/tmp/x".to_string());
    s.set_client(Some(ClientHandle { id: 1 }));
    s.set_status(SessionStatus::LoggedIn);
    assert_eq!(s.effective_status(UP), SessionStatus::LoggedIn);
    assert_eq!(s.effective_status(DOWN), SessionStatus::Connecting);
    assert_eq!(s.get_status(), SessionStatus::LoggedIn);
    s.set_status(SessionStatus::Disconnected);
    assert_eq!(s.effective_status(DOWN), SessionStatus::Disconnected);
    assert_eq!(s.effective_status(UP), SessionStatus::Disconnected);
}

#[test]
fn taking_the_client_out_drops_what_depends_on_it() {
    let mut s = SessionState::new("/tmp/x".to_string());
    s.set_enc_decrypt_failed_lease(LeaseHandle { id: 2 });
    s.set_chat_store(ChatStoreHandle { id: 3 }, SubscriptionHandle { id: 4 });
    s.set_client(Some(ClientHandle { id: 1 }));
    assert_eq!(s.get_chat_store(), Some(ChatStoreHandle { id: 3 }));
    assert_eq!(s.enc_decrypt_failed_lease, Some(LeaseHandle { id: 2 }));
    s.set_client(None);
    assert_eq!(s.get_client(), None);
    assert_eq!(s.get_chat_store(), None);
    assert_eq!(s.chat_store_subscription, None);
    assert_eq!(s.enc_decrypt_failed_lease, None);
}

#[test]
fn pair_state_is_updated_and_cleared() {
    let mut s = SessionState::new("/tmp/x".to_string());
    s.update_pair_state(|p| PairState {
        attempts: p.attempts + 1,
        last_qr_at: Some(5),
        last_error: Some("timeout".to_string()),
        ..p
    });
    let p = s.get_pair_state();
    assert_eq!(p.attempts, 1);
    assert_eq!(p.last_qr_at, Some(5));
    assert_eq!(p.last_error.as_deref(), Some("timeout"));
    s.clear_pair_state();
    assert_eq!(s.get_pair_state().attempts, 0);
    assert_eq!(s.get_pair_state().last_error, None);
}

#[test]
fn plain_fields_are_read_back() {
    let mut s = SessionState::new("/tmp/x".to_string());
    s.set_qr_codes(vec!["q1".to_string(), "q2".to_string()]);
    assert_eq!(s.get_qr_codes(), vec!["q1", "q2"]);
    s.set_pair_code(Some("ABCD-1234".to_string()));
    assert_eq!(s.get_pair_code().as_deref(), Some("ABCD-1234"));
    s.set_auto_reconnect_pref(false);
    assert!(!s.auto_reconnect_enabled());
    s.set_skip_history_sync_pref(true);
    assert!(s.skip_history_sync());
}
