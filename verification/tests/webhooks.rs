use waxum::delivery::{AttemptOutcome, DeliveryStep};
use waxum::state::{AppState, VoiceEntry};
use waxum::webhooks::{
    CircuitState, WebhookConfig, WebhookDlqEntry, WebhookFailureAction, COOLDOWN_NANOS,
};

const URL: &str = "https://example.org/hook";

fn state() -> AppState {
    AppState::new(None, None, None, None, None)
}

fn webhook(url: &str, events: &[&str]) -> WebhookConfig {
    WebhookConfig {
        url: url.to_string(),
        events: events.iter().map(|e| e.to_string()).collect(),
        secret: None,
        enabled: true,
    }
}

fn letter(session_id: &str, id: &str) -> WebhookDlqEntry {
    WebhookDlqEntry {
        id: id.to_string(),
        session_id: session_id.to_string(),
        webhook_url: URL.to_string(),
        event: "message".to_string(),
        payload: "{}".to_string(),
        secret: None,
        last_error: "HTTP 500".to_string(),
        attempts: 3,
        failed_at: 1,
    }
}

fn ids(entries: &[WebhookDlqEntry]) -> Vec<String> {
    entries.iter().map(|e| e.id.clone()).collect()
}

fn response(code: u16) -> AttemptOutcome {
    AttemptOutcome::Response { code }
}

#[test]
fn the_25th_failure_opens_the_circuit_for_five_minutes() {
    let mut s = state();
    for i in 0..24u128 {
        assert_eq!(s.webhook_record_failure_at(URL, i), WebhookFailureAction::Noop);
    }
    assert!(s.webhook_circuit_allows_at(URL, 24));
    assert_eq!(s.webhook_record_failure_at(URL, 24), WebhookFailureAction::Open);
    assert!(!s.webhook_circuit_allows_at(URL, 24));
    assert!(!s.webhook_circuit_allows_at(URL, 24 + COOLDOWN_NANOS - 1));
    assert!(s.webhook_circuit_allows_at(URL, 24 + COOLDOWN_NANOS));
    assert!(s.webhook_circuit_allows_at("https://example.org/other", 24));
    assert_eq!(s.webhook_circuits_open_count_at(25), 1);
    assert_eq!(s.webhook_circuits_open_count_at(24 + COOLDOWN_NANOS), 0);
}

#[test]
fn the_100th_failure_disables_the_target() {
    let mut s = state();
    let actions: Vec<WebhookFailureAction> =
        (0..101u128).map(|i| s.webhook_record_failure_at(URL, i)).collect();
    assert_eq!(actions.iter().filter(|a| **a == WebhookFailureAction::Open).count(), 1);
    assert_eq!(actions[24], WebhookFailureAction::Open);
    assert_eq!(actions[98], WebhookFailureAction::Noop);
    assert_eq!(actions[99], WebhookFailureAction::HardDisable);
    assert_eq!(actions[100], WebhookFailureAction::HardDisable);
}

#[test]
fn a_success_starts_the_count_over() {
    let mut s = state();
    for i in 0..25u128 {
        s.webhook_record_failure_at(URL, i);
    }
    s.webhook_record_success_at(URL, 30);
    assert!(s.webhook_circuit_allows_at(URL, 31));
    for i in 0..24u128 {
        assert_eq!(s.webhook_record_failure_at(URL, 40 + i), WebhookFailureAction::Noop);
    }
    assert_eq!(s.webhook_record_failure_at(URL, 70), WebhookFailureAction::Open);
}

#[test]
fn failures_saturate() {
    let mut circuit = CircuitState::new(5);
    assert_eq!(circuit.last_event, 5);
    circuit.failures = u32::MAX;
    assert_eq!(circuit.record_failure(6), WebhookFailureAction::HardDisable);
    assert_eq!(circuit.failures, u32::MAX);
}

#[test]
fn the_clock_drives_the_circuit() {
    let mut s = state();
    assert!(s.webhook_circuit_allows(URL));
    for _ in 0..24 {
        assert_eq!(s.webhook_record_failure(URL), WebhookFailureAction::Noop);
    }
    assert_eq!(s.webhook_record_failure(URL), WebhookFailureAction::Open);
    assert!(!s.webhook_circuit_allows(URL));
    assert_eq!(s.webhook_circuits_open_count(), 1);
    s.webhook_record_success(URL);
    assert!(s.webhook_circuit_allows(URL));
    assert_eq!(s.webhook_circuits_open_count(), 0);
}

#[test]
fn open_circuits_are_reset_in_bulk() {
    let mut s = state();
    for url in ["a", "b"] {
        for _ in 0..25 {
            s.webhook_record_failure_at(url, 10);
        }
    }
    s.webhook_record_failure_at("c", 10);
    let mut reset = s.reenable_all_open_circuits_at(20);
    reset.sort();
    assert_eq!(reset, vec!["a", "b"]);
    assert_eq!(s.webhook_circuits_open_count_at(20), 0);
    assert!(s.reenable_all_open_circuits_at(20).is_empty());
    for _ in 0..23 {
        assert_eq!(s.webhook_record_failure_at("c", 30), WebhookFailureAction::Noop);
    }
    assert_eq!(s.webhook_record_failure_at("c", 30), WebhookFailureAction::Open);
    assert_eq!(s.webhook_record_failure_at("a", 30), WebhookFailureAction::Noop);
    assert!(s.reenable_all_open_circuits().len() <= 1);
}

#[test]
fn webhooks_are_registered_listed_and_removed() {
    let mut s = state();
    s.register_webhook("s", "w1", webhook(URL, &["message"]));
    s.register_webhook("s", "w2", webhook("https://example.org/2", &[]));
    s.register_webhook("s", "w1", webhook("https://example.org/1", &["all"]));
    let mut list = s.get_webhooks("s");
    list.sort_by(|a, b| a.0.cmp(&b.0));
    assert_eq!(list.len(), 2);
    assert_eq!(list[0].0, "w1");
    assert_eq!(list[0].1.url, "https://example.org/1");
    assert_eq!(list[0].1.events, vec!["all"]);
    assert_eq!(list[1].1.url, "https://example.org/2");
    assert!(s.get_webhooks("t").is_empty());
    assert_eq!(s.remove_webhook("s", "w1").unwrap().url, "https://example.org/1");
    assert!(s.remove_webhook("s", "w1").is_none());
    assert!(s.remove_webhook("t", "w1").is_none());
    assert_eq!(s.get_webhooks("s").len(), 1);
}

#[test]
fn a_url_is_wiped_everywhere() {
    let mut s = state();
    s.register_webhook("s", "w1", webhook(URL, &[]));
    s.register_webhook("s", "w2", webhook("https://example.org/2", &[]));
    s.register_webhook("s", "w3", webhook(URL, &[]));
    s.register_webhook("t", "w1", webhook(URL, &[]));
    for _ in 0..25 {
        s.webhook_record_failure_at(URL, 1);
    }
    s.purge_webhook_by_url(URL);
    let left = s.get_webhooks("s");
    assert_eq!(left.len(), 1);
    assert_eq!(left[0].0, "w2");
    assert!(s.get_webhooks("t").is_empty());
    assert!(s.webhook_circuit_allows_at(URL, 2));
}

#[test]
fn a_session_is_forgotten_with_its_dead_letters() {
    let mut s = state();
    s.register_webhook("s", "w", webhook(URL, &[]));
    s.register_webhook("t", "w", webhook(URL, &[]));
    s.webhook_dlq_push(letter("s", "1"));
    s.webhook_dlq_push(letter("t", "2"));
    s.purge_webhooks_for_session("s");
    assert!(s.get_webhooks("s").is_empty());
    assert!(s.webhook_dlq_list("s").is_empty());
    assert_eq!(s.get_webhooks("t").len(), 1);
    assert_eq!(ids(&s.webhook_dlq_list("t")), vec!["2"]);
}

#[test]
fn dead_letters_are_bounded_and_newest_first() {
    let mut s = AppState::new(None, None, None, Some("3"), None);
    for id in ["1", "2", "3", "4", "5"] {
        s.webhook_dlq_push(letter("s", id));
    }
    s.webhook_dlq_push(letter("t", "x"));
    assert_eq!(ids(&s.webhook_dlq_list("s")), vec!["5", "4", "3"]);
    assert_eq!(ids(&s.webhook_dlq_list("t")), vec!["x"]);
    assert!(s.webhook_dlq_list("u").is_empty());
}

#[test]
fn a_dead_letter_is_taken_once() {
    let mut s = state();
    for id in ["1", "2", "3"] {
        s.webhook_dlq_push(letter("s", id));
    }
    let taken = s.webhook_dlq_take("s", "2").unwrap();
    assert_eq!(taken.id, "2");
    assert_eq!(taken.last_error, "HTTP 500");
    assert!(s.webhook_dlq_take("s", "2").is_none());
    assert!(s.webhook_dlq_take("t", "1").is_none());
    assert_eq!(ids(&s.webhook_dlq_list("s")), vec!["3", "1"]);
}

#[test]
fn the_first_of_equal_ids_is_taken() {
    let mut s = state();
    for (id, error) in [("1", "a"), ("1", "b")] {
        let mut entry = letter("s", id);
        entry.last_error = error.to_string();
        s.webhook_dlq_push(entry);
    }
    assert_eq!(s.webhook_dlq_take("s", "1").unwrap().last_error, "a");
    assert_eq!(s.webhook_dlq_take("s", "1").unwrap().last_error, "b");
}

#[test]
fn events_go_to_enabled_subscribed_reachable_webhooks() {
    let mut s = state();
    let mut off = webhook("https://example.org/off", &["message"]);
    off.enabled = false;
    let mut signed = webhook("https://example.org/signed", &["other", "message"]);
    signed.secret = Some("k".to_string());
    s.register_webhook("s", "off", off);
    s.register_webhook("s", "signed", signed);
    s.register_webhook("s", "other", webhook("https://example.org/other", &["other"]));
    s.register_webhook("s", "open", webhook("https://example.org/open", &["all"]));
    s.register_webhook("t", "w", webhook("https://example.org/t", &["all"]));
    for _ in 0..25 {
        s.webhook_record_failure_at("https://example.org/open", 5);
    }
    let matching = vec!["message".to_string(), "all".to_string()];
    let runs = s.broadcast_to_webhooks_at("s", "message", "{}", &matching, 6, 77);
    assert_eq!(runs.len(), 1);
    assert_eq!(runs[0].url, "https://example.org/signed");
    assert_eq!(runs[0].secret.as_deref(), Some("k"));
    assert_eq!(runs[0].session_id, "s");
    assert_eq!(runs[0].event, "message");
    assert_eq!(runs[0].payload, "{}");
    assert_eq!((runs[0].attempt, runs[0].max_attempts, runs[0].retry_on_4xx), (0, 3, true));
    let events = s.recent_events(10);
    assert_eq!(events.len(), 1);
    assert_eq!(events[0].at_epoch_ms, 77);
    let later = s.broadcast_to_webhooks_at("s", "message", "{}", &matching, 5 + COOLDOWN_NANOS, 78);
    assert_eq!(later.len(), 2);
    assert_eq!(s.broadcast_to_webhooks("t", "message", "{}", &matching).len(), 1);
    assert!(s.broadcast_to_webhooks("u", "message", "{}", &matching).is_empty());
}

#[test]
fn a_run_retries_with_backoff_and_then_gives_up() {
    let mut s = AppState::new(None, Some("4"), None, None, None);
    let mut run = s.start_delivery("s", "message", URL, Some("k".to_string()), "{}");
    assert_eq!(run.wait_secs(), 0);
    let waits = [(response(500), 5), (response(404), 30)];
    for (outcome, wait) in waits {
        match s.deliver_webhook_at(&mut run, &outcome, "x".to_string(), 1, 2) {
            DeliveryStep::Retry { wait_secs } => assert_eq!(wait_secs, wait),
            other => panic!("{other:?}"),
        }
    }
    let failed = AttemptOutcome::Failed { error: "refused".to_string() };
    match s.deliver_webhook_at(&mut run, &failed, "x".to_string(), 1, 2) {
        DeliveryStep::Retry { wait_secs } => assert_eq!(wait_secs, 60),
        other => panic!("{other:?}"),
    }
    assert!(s.webhook_dlq_list("s").is_empty());
    match s.deliver_webhook_at(&mut run, &response(503), "letter".to_string(), 7, 99) {
        DeliveryStep::DeadLettered { action, disable_reason, last_error, attempts } => {
            assert_eq!(action, WebhookFailureAction::Noop);
            assert_eq!(disable_reason, None);
            assert_eq!(last_error, "HTTP 503 Service Unavailable");
            assert_eq!(attempts, 4);
        }
        other => panic!("{other:?}"),
    }
    let letters = s.webhook_dlq_list("s");
    assert_eq!(letters.len(), 1);
    assert_eq!(letters[0].id, "letter");
    assert_eq!(letters[0].webhook_url, URL);
    assert_eq!(letters[0].secret.as_deref(), Some("k"));
    assert_eq!(letters[0].attempts, 4);
    assert_eq!(letters[0].failed_at, 99);
}

#[test]
fn an_accepted_run_closes_the_circuit() {
    let mut s = state();
    for _ in 0..25 {
        s.webhook_record_failure_at(URL, 1);
    }
    for code in [200, 204, 299] {
        let mut run = s.start_delivery("s", "message", URL, None, "{}");
        let step = s.deliver_webhook_at(&mut run, &response(code), "x".to_string(), 2, 3);
        assert!(matches!(step, DeliveryStep::Delivered));
    }
    assert!(s.webhook_circuit_allows_at(URL, 3));
    assert!(s.webhook_dlq_list("s").is_empty());
}

#[test]
fn a_refusal_is_final_where_4xx_is_not_retried() {
    let mut s = AppState::new(None, None, Some("false"), None, None);
    for code in [408, 429, 300, 199, 500] {
        let mut run = s.start_delivery("s", "message", URL, None, "{}");
        let step = s.deliver_webhook_at(&mut run, &response(code), "x".to_string(), 2, 3);
        assert!(matches!(step, DeliveryStep::Retry { wait_secs: 5 }), "{code}");
    }
    for code in [400, 401, 499] {
        let mut run = s.start_delivery("s", "message", URL, None, "{}");
        let step = s.deliver_webhook_at(&mut run, &response(code), code.to_string(), 2, 3);
        assert!(matches!(step, DeliveryStep::DeadLettered { attempts: 3, .. }), "{code}");
    }
    let errors: Vec<String> =
        s.webhook_dlq_list("s").into_iter().map(|e| e.last_error).collect();
    assert_eq!(
        errors,
        vec!["HTTP 499 <unknown status code>", "HTTP 401 Unauthorized", "HTTP 400 Bad Request"]
    );
}

#[test]
fn the_100th_failed_run_wipes_the_target() {
    let mut s = AppState::new(None, Some("1"), None, None, None);
    s.register_webhook("s", "w", webhook(URL, &[]));
    for _ in 0..99 {
        s.webhook_record_failure_at(URL, 1);
    }
    let mut run = s.start_delivery("s", "message", URL, None, "{}");
    let failed = AttemptOutcome::Failed { error: "timed out".to_string() };
    match s.deliver_webhook_at(&mut run, &failed, "x".to_string(), 2, 3) {
        DeliveryStep::DeadLettered { action, disable_reason, .. } => {
            assert_eq!(action, WebhookFailureAction::HardDisable);
            assert_eq!(disable_reason.as_deref(), Some("100 consecutive failures (timed out)"));
        }
        other => panic!("{other:?}"),
    }
    assert!(s.get_webhooks("s").is_empty());
    assert!(s.webhook_circuit_allows_at(URL, 3));
    assert_eq!(s.webhook_record_failure_at(URL, 4), WebhookFailureAction::Noop);
    assert_eq!(s.webhook_dlq_list("s")[0].last_error, "timed out");
}

#[test]
fn dead_letters_get_random_ids() {
    let mut s = AppState::new(None, Some("1"), None, None, None);
    for _ in 0..2 {
        let mut run = s.start_delivery("s", "message", URL, None, "{}");
        s.deliver_webhook(&mut run, &response(500));
    }
    let letters = s.webhook_dlq_list("s");
    assert_ne!(letters[0].id, letters[1].id);
    for entry in letters {
        let parsed = uuid::Uuid::parse_str(&entry.id).unwrap();
        assert_eq!(parsed.get_version_num(), 4);
        assert_eq!(parsed.to_string(), entry.id);
        assert!(entry.failed_at > 1_600_000_000);
    }
}

#[test]
fn attempts_are_signed_with_the_secret_of_the_run() {
    let s = state();
    let run = s.start_delivery("s", "message", URL, Some("topsecret".to_string()), "{\"a\":1}");
    let headers = run.headers(1700000000);
    assert_eq!(
        headers[3].1,
        "sha256=6a939b0c71853d606167625a15168ee9188c6a511c773ef4f42d307f3849e50f"
    );
}

#[test]
fn voices_are_cached() {
    let mut s = state();
    assert!(s.cached_voices().is_none());
    s.set_cached_voices(vec![VoiceEntry { json: "{\"v\":1}".to_string() }]);
    let voices = s.cached_voices().unwrap();
    assert_eq!(voices.len(), 1);
    assert_eq!(voices[0].json, "{\"v\":1}");
}

#[test]
fn a_replay_delivers_the_same_to_the_same_target() {
    let mut s = AppState::new(None, Some("1"), None, None, None);
    let mut run = s.start_delivery("s", "message", URL, Some("k".to_string()), "{\"a\":1}");
    s.deliver_webhook_at(&mut run, &response(500), "letter".to_string(), 1, 2);
    let entry = s.webhook_dlq_take("s", "letter").unwrap();
    assert!(s.webhook_dlq_list("s").is_empty());
    let mut replay = s.start_delivery(
        &entry.session_id,
        &entry.event,
        &entry.webhook_url,
        entry.secret,
        &entry.payload,
    );
    assert_eq!(replay.headers(9), run.headers(9));
    assert_eq!((replay.url.as_str(), replay.payload.as_str()), (URL, "{\"a\":1}"));
    s.deliver_webhook_at(&mut replay, &response(500), "again".to_string(), 3, 4);
    assert_eq!(ids(&s.webhook_dlq_list("s")), vec!["again"]);
}

#[test]
fn a_failure_of_one_url_leaves_the_others() {
    let mut s = state();
    for _ in 0..25 {
        s.webhook_record_failure_at(URL, 1);
    }
    assert!(s.webhook_circuit_allows_at("https://example.org/other", 2));
    assert_eq!(
        s.webhook_record_failure_at("https://example.org/other", 2),
        WebhookFailureAction::Noop
    );
    s.webhook_record_success_at("https://example.org/new", 3);
    assert!(!s.webhook_circuit_allows_at(URL, 3));
}
