use waxum::metrics::{
    metrics_handler, metrics_handler_at, read_proc_threads, record_session_drop,
    record_session_reconnect, registry, ClientReport, Metrics, Sample, UnkeyedStats,
};
use waxum::session::{ClientHandle, ClientLink};
use waxum::state::AppState;

const STATS: UnkeyedStats =
    UnkeyedStats { no_bundle: 1, session_setup: 2, rejected: 3, fetch_failed: 4, encrypt: 5 };

const NONE: UnkeyedStats =
    UnkeyedStats { no_bundle: 0, session_setup: 0, rejected: 0, fetch_failed: 0, encrypt: 0 };

fn report(id: &str, connected: bool, logged_in: bool, unkeyed: UnkeyedStats) -> ClientReport {
    ClientReport {
        session_id: id.to_string(),
        link: ClientLink { connected, logged_in },
        unkeyed,
    }
}

fn sample(id: &str, socket_alive: bool) -> Sample {
    Sample { session_id: id.to_string(), live: false, socket_alive, unkeyed: None }
}

fn lines(text: &str, prefix: &str) -> Vec<String> {
    text.lines().filter(|l| l.starts_with(prefix)).map(|l| l.to_string()).collect()
}

#[test]
fn a_scrape_is_answered_in_the_text_format() {
    let mut state = AppState::new(None, None, None, None, None);
    state.get_or_create_session("a", "/a").set_client(Some(ClientHandle { id: 1 }));
    state.get_or_create_session("b", "/b");
    for _ in 0..25 {
        state.webhook_record_failure_at("u", 3);
    }
    let reports = vec![report("a", true, true, STATS), report("b", true, true, STATS)];
    let mut metrics: Option<Metrics> = None;
    let status = "Name:\twaxum\nThreads:\t7\nThreads:\t9\n";
    let answer =
        metrics_handler_at(&mut metrics, &state, &reports, Some(status), Some(12), 4).unwrap();
    assert_eq!(answer.content_type, "text/plain; version=0.0.4");
    let expected = "\
# HELP waxum_process_open_fds Open file descriptor count for the waxum process
# TYPE waxum_process_open_fds gauge
waxum_process_open_fds 12
# HELP waxum_process_threads Thread count for the waxum process (from /proc/self/status)
# TYPE waxum_process_threads gauge
waxum_process_threads 7
# HELP waxum_session_devices_unkeyed_total Per-session, per-reason count of devices a send gave up keying for (from the client's own running total)
# TYPE waxum_session_devices_unkeyed_total gauge
waxum_session_devices_unkeyed_total{reason=\"encrypt\",session_id=\"a\"} 5
waxum_session_devices_unkeyed_total{reason=\"fetch_failed\",session_id=\"a\"} 4
waxum_session_devices_unkeyed_total{reason=\"no_bundle\",session_id=\"a\"} 1
waxum_session_devices_unkeyed_total{reason=\"rejected\",session_id=\"a\"} 3
waxum_session_devices_unkeyed_total{reason=\"session_setup\",session_id=\"a\"} 2
# HELP waxum_session_socket_alive Per-session raw socket liveness (1 = transport connected, 0 = down)
# TYPE waxum_session_socket_alive gauge
waxum_session_socket_alive{session_id=\"a\"} 1
waxum_session_socket_alive{session_id=\"b\"} 0
# HELP waxum_sessions_live Sessions whose underlying client reports connected + logged in
# TYPE waxum_sessions_live gauge
waxum_sessions_live 1
# HELP waxum_sessions_total Total session runtimes resident in the gateway
# TYPE waxum_sessions_total gauge
waxum_sessions_total 2
# HELP waxum_webhook_circuits_open Webhook target URLs currently in open-circuit state (skipped)
# TYPE waxum_webhook_circuits_open gauge
waxum_webhook_circuits_open 1
";
    assert_eq!(answer.body, expected);
}

#[test]
fn families_come_as_one_registry_orders_them() {
    let mut metrics: Option<Metrics> = None;
    registry(&mut metrics).unwrap();
    record_session_drop(&mut metrics, "a");
    record_session_reconnect(&mut metrics, "a");
    let m = metrics.as_mut().unwrap();
    let stats = Some(STATS);
    m.scrape(
        &vec![Sample { session_id: "a".to_string(), live: true, socket_alive: true, unkeyed: stats }],
        Some(1),
        Some(2),
        3,
    );
    let text = m.text().unwrap();
    let names: Vec<String> = lines(&text, "# TYPE ");
    let mut sorted = names.clone();
    sorted.sort();
    assert_eq!(names.len(), 9);
    assert_eq!(names, sorted);
}

#[test]
fn nothing_is_counted_before_the_first_scrape() {
    let mut metrics: Option<Metrics> = None;
    record_session_drop(&mut metrics, "a");
    record_session_reconnect(&mut metrics, "a");
    assert!(metrics.is_none());
    registry(&mut metrics).unwrap();
    let text = metrics.as_ref().unwrap().text().unwrap();
    assert!(!text.contains("waxum_session_socket_drops_total"));
    assert!(!text.contains("waxum_session_reconnects_total"));
    assert!(text.contains("waxum_sessions_total 0\n"));
}

#[test]
fn drops_and_reconnects_are_counted_per_session() {
    let mut metrics: Option<Metrics> = None;
    registry(&mut metrics).unwrap();
    record_session_drop(&mut metrics, "a");
    record_session_drop(&mut metrics, "a");
    record_session_drop(&mut metrics, "b");
    record_session_reconnect(&mut metrics, "b");
    registry(&mut metrics).unwrap();
    let text = metrics.as_ref().unwrap().text().unwrap();
    assert_eq!(
        lines(&text, "waxum_session_socket_drops_total"),
        vec![
            "waxum_session_socket_drops_total{session_id=\"a\"} 2",
            "waxum_session_socket_drops_total{session_id=\"b\"} 1",
        ]
    );
    assert_eq!(
        lines(&text, "waxum_session_reconnects_total"),
        vec!["waxum_session_reconnects_total{session_id=\"b\"} 1"]
    );
    assert!(text.contains("# TYPE waxum_session_reconnects_total counter\n"));
}

#[test]
fn series_of_deleted_sessions_go() {
    let mut metrics: Option<Metrics> = None;
    registry(&mut metrics).unwrap();
    record_session_drop(&mut metrics, "gone");
    record_session_reconnect(&mut metrics, "gone");
    record_session_drop(&mut metrics, "stays");
    let m = metrics.as_mut().unwrap();
    let both = vec![
        Sample { session_id: "gone".to_string(), live: true, socket_alive: true, unkeyed: Some(STATS) },
        sample("stays", true),
    ];
    m.scrape(&both, None, None, 0);
    let text = m.text().unwrap();
    assert_eq!(lines(&text, "waxum_session_devices_unkeyed_total").len(), 5);
    assert!(text.contains("waxum_sessions_total 2\n"));
    m.scrape(&vec![sample("stays", false)], None, None, 0);
    let text = m.text().unwrap();
    assert!(!text.contains("gone"));
    assert_eq!(
        lines(&text, "waxum_session_socket_alive"),
        vec!["waxum_session_socket_alive{session_id=\"stays\"} 0"]
    );
    assert_eq!(
        lines(&text, "waxum_session_socket_drops_total"),
        vec!["waxum_session_socket_drops_total{session_id=\"stays\"} 1"]
    );
    assert!(text.contains("waxum_sessions_total 1\n"));
}

#[test]
fn readings_that_fail_keep_the_last_value() {
    let mut m = Metrics::new().unwrap();
    m.scrape(&vec![], Some(7), Some(-1), 2);
    m.scrape(&vec![], None, None, 3);
    let text = m.text().unwrap();
    assert!(text.contains("waxum_process_threads 7\n"));
    assert!(text.contains("waxum_process_open_fds -1\n"));
    assert!(text.contains("waxum_webhook_circuits_open 3\n"));
}

#[test]
fn large_counts_wrap_to_signed() {
    let mut m = Metrics::new().unwrap();
    let stats = UnkeyedStats { no_bundle: u64::MAX, encrypt: 1 << 40, ..NONE };
    m.scrape(
        &vec![Sample { session_id: "a".to_string(), live: false, socket_alive: false, unkeyed: Some(stats) }],
        None,
        None,
        0,
    );
    let text = m.text().unwrap();
    assert!(text.contains("{reason=\"no_bundle\",session_id=\"a\"} -1\n"));
    assert!(text.contains("{reason=\"encrypt\",session_id=\"a\"} 1099511627776\n"));
}

#[test]
fn labels_are_escaped() {
    let mut m = Metrics::new().unwrap();
    m.scrape(&vec![sample("q\"\\\n", true)], None, None, 0);
    assert!(m.text().unwrap().contains("{session_id=\"q\\\"\\\\\\n\"} 1\n"));
}

#[test]
fn a_scrape_reads_the_clock_itself() {
    let mut state = AppState::new(None, None, None, None, None);
    for _ in 0..25 {
        state.webhook_record_failure("u");
    }
    let mut metrics: Option<Metrics> = None;
    let answer = metrics_handler(&mut metrics, &state, &vec![], None, None).unwrap();
    assert!(answer.body.contains("waxum_webhook_circuits_open 1\n"));
    assert!(answer.body.contains("waxum_process_threads 0\n"));
}

#[test]
fn a_session_in_pairing_has_a_socket_but_is_not_live() {
    let mut state = AppState::new(None, None, None, None, None);
    state.get_or_create_session("a", "/a").set_client(Some(ClientHandle { id: 1 }));
    let mut metrics: Option<Metrics> = None;
    let reports = vec![report("a", true, false, NONE), report("a", false, false, STATS)];
    let answer = metrics_handler(&mut metrics, &state, &reports, None, None).unwrap();
    assert!(answer.body.contains("waxum_session_socket_alive{session_id=\"a\"} 1\n"));
    assert!(answer.body.contains("waxum_sessions_live 0\n"));
    assert!(answer.body.contains("{reason=\"encrypt\",session_id=\"a\"} 0\n"));
}

#[test]
fn the_thread_count_is_read_from_the_status() {
    assert_eq!(read_proc_threads("Name:\tx\nThreads:\t 42 \nSigQ:\t0\n"), Some(42));
    assert_eq!(read_proc_threads("Threads:13\r\n"), Some(13));
    assert_eq!(read_proc_threads("Threads:\n"), None);
    assert_eq!(read_proc_threads("Threads: x\nThreads: 5\n"), None);
    assert_eq!(read_proc_threads(" Threads: 5\nthreads: 5\n"), None);
    assert_eq!(read_proc_threads("Threads"), None);
    assert_eq!(read_proc_threads(""), None);
}

#[test]
fn a_removed_session_has_no_series_in_the_next_answer() {
    let mut state = AppState::new(None, None, None, None, None);
    for id in ["s1", "s2"] {
        state.get_or_create_session(id, "/x").set_client(Some(ClientHandle { id: 1 }));
    }
    let reports = vec![report("s1", true, true, STATS), report("s2", true, true, NONE)];
    let mut metrics: Option<Metrics> = None;
    metrics_handler(&mut metrics, &state, &reports, None, None).unwrap();
    for id in ["s1", "s2"] {
        record_session_drop(&mut metrics, id);
        record_session_reconnect(&mut metrics, id);
    }
    let answer = metrics_handler(&mut metrics, &state, &reports, None, None).unwrap();
    assert_eq!(answer.body.matches("session_id=\"s1\"").count(), 8);
    state.remove_session("s1");
    let answer = metrics_handler(&mut metrics, &state, &reports, None, None).unwrap();
    assert!(!answer.body.contains("session_id=\"s1\""));
    assert_eq!(answer.body.matches("session_id=\"s2\"").count(), 8);
    assert!(answer.body.contains("waxum_session_socket_drops_total{session_id=\"s2\"} 1\n"));
    assert!(answer.body.contains("waxum_session_reconnects_total{session_id=\"s2\"} 1\n"));
}
