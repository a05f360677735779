use std::time::{SystemTime, UNIX_EPOCH};
use waxum::events::preview;
use waxum::session::SessionStatus;
use waxum::state::AppState;

fn state() -> AppState {
    AppState::new(None, None, None, None, None)
}

#[test]
fn the_environment_configures_the_state() {
    let s = state();
    assert_eq!(s.base_storage_path(), "./whatsapp_sessions");
    assert_eq!(s.account_lock_backoff().schedule, vec![300, 900, 3600]);
    let s = AppState::new(Some("/data"), None, None, None, Some("1,2"));
    assert_eq!(s.base_storage_path(), "/data");
    assert_eq!(s.account_lock_backoff().schedule, vec![1, 2]);
}

#[test]
fn a_session_is_created_once() {
    let mut s = state();
    assert!(!s.has_session("a"));
    s.get_or_create_session("a", "/data/a").set_status(SessionStatus::LoggedIn);
    let again = s.get_or_create_session("a", "/elsewhere");
    assert_eq!(again.storage_path, "/data/a");
    assert_eq!(again.get_status(), SessionStatus::LoggedIn);
    assert!(s.has_session("a"));
    assert_eq!(s.get_session("a").unwrap().storage_path, "/data/a");
    assert!(s.get_session("b").is_none());
}

#[test]
fn a_session_is_changed_in_place() {
    let mut s = state();
    assert!(s.get_session_mut("a").is_none());
    s.get_or_create_session("a", "/a");
    s.get_session_mut("a").unwrap().set_pair_code(Some("code".to_string()));
    assert_eq!(s.get_session("a").unwrap().get_pair_code().as_deref(), Some("code"));
}

#[test]
fn a_session_is_removed_once() {
    let mut s = state();
    for id in ["a", "b", "c"] {
        s.get_or_create_session(id, id);
    }
    assert_eq!(s.remove_session("a").unwrap().storage_path, "a");
    assert!(s.remove_session("a").is_none());
    assert!(!s.has_session("a"));
    assert_eq!(s.get_session("b").unwrap().storage_path, "b");
    assert_eq!(s.get_session("c").unwrap().storage_path, "c");
}

#[test]
fn every_session_is_listed_once() {
    let mut s = state();
    assert!(s.session_iter().is_empty());
    for id in ["a", "b", "c"] {
        s.get_or_create_session(id, &format!("/data/{id}"));
    }
    let mut paths: Vec<String> =
        s.session_iter().into_iter().map(|x| x.storage_path.clone()).collect();
    paths.sort();
    assert_eq!(paths, vec!["/data/a", "/data/b", "/data/c"]);
    for (id, session) in s.session_iter_with_ids() {
        assert_eq!(session.storage_path, format!("/data/{id}"));
    }
    assert_eq!(s.session_iter_with_ids().len(), 3);
}

#[test]
fn recent_events_are_bounded_and_newest_first() {
    let mut s = state();
    for i in 0..205 {
        s.push_event_at("s", "message", &i.to_string(), i);
    }
    let all = s.recent_events(1000);
    assert_eq!(all.len(), 200);
    assert_eq!(all[0].payload_preview, "204");
    assert_eq!(all[199].payload_preview, "5");
    let two = s.recent_events(2);
    assert_eq!(two.len(), 2);
    assert_eq!(two[1].at_epoch_ms, 203);
    assert!(s.recent_events(0).is_empty());
}

#[test]
fn events_carry_the_wall_clock() {
    let mut s = state();
    let before = SystemTime::now().duration_since(UNIX_EPOCH).unwrap().as_millis() as i64;
    s.push_event("s", "message", "{}");
    let after = SystemTime::now().duration_since(UNIX_EPOCH).unwrap().as_millis() as i64;
    let event = &s.recent_events(1)[0];
    assert!(before <= event.at_epoch_ms && event.at_epoch_ms <= after);
    assert_eq!(event.session_id, "s");
    assert_eq!(event.event_type, "message");
}

#[test]
fn previews_are_cut_by_characters() {
    assert_eq!(preview(""), "");
    assert_eq!(preview(&"é".repeat(120)), "é".repeat(120));
    assert_eq!(preview(&"é".repeat(121)), "é".repeat(120));
    let mut s = state();
    s.push_event_at("s", "message", &"é".repeat(150), 1);
    assert_eq!(s.recent_events(1)[0].payload_preview, "é".repeat(120));
    assert_eq!(preview("short"), "short");
}
