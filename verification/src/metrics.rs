//! The metrics that a scrape exposes: gauges over all sessions, and series per session.

use crate::clock;
use crate::families;
use crate::families::{CounterFamily, GaugeFamily};
use crate::session::{ClientLink, SessionState};
use crate::state::AppState;
use crate::text;
use crate::text_set::TextSet;
use vstd::prelude::*;

verus! {

/// Devices that sends gave up keying for, by reason, as a client counts them.
#[derive(Debug, Clone, Copy, PartialEq, Eq)]
pub struct UnkeyedStats {
    pub no_bundle: u64,
    pub session_setup: u64,
    pub rejected: u64,
    pub fetch_failed: u64,
    pub encrypt: u64,
}

/// What the client of a session reports of itself.
#[derive(Debug)]
pub struct ClientReport {
    pub session_id: String,
    pub link: ClientLink,
    pub unkeyed: UnkeyedStats,
}

/// What a [`ClientReport`] says.
#[verifier::ext_equal]
pub struct ReportView {
    pub session_id: Seq<char>,
    pub link: ClientLink,
    pub unkeyed: UnkeyedStats,
}

impl View for ClientReport {
    type V = ReportView;

    open spec fn view(&self) -> ReportView {
        ReportView { session_id: self.session_id@, link: self.link, unkeyed: self.unkeyed }
    }
}

/// The views of a list of reports.
pub open spec fn report_views(reports: Seq<ClientReport>) -> Seq<ReportView> {
    reports.map_values(|report: ClientReport| report@)
}

/// The first report on `session_id`.
pub open spec fn report_of(reports: Seq<ReportView>, session_id: Seq<char>) -> Option<ReportView>
    decreases reports.len(),
{
    if reports.len() == 0 {
        None
    } else if reports.first().session_id == session_id {
        Some(reports.first())
    } else {
        report_of(reports.drop_first(), session_id)
    }
}

/// What a scrape sees of one session.
#[derive(Debug)]
pub struct Sample {
    pub session_id: String,
    /// Connected and logged in.
    pub live: bool,
    /// Connected.
    pub socket_alive: bool,
    /// Only where there is a client.
    pub unkeyed: Option<UnkeyedStats>,
}

/// What a [`Sample`] says.
#[verifier::ext_equal]
pub struct SampleView {
    pub session_id: Seq<char>,
    pub live: bool,
    pub socket_alive: bool,
    pub unkeyed: Option<UnkeyedStats>,
}

impl View for Sample {
    type V = SampleView;

    open spec fn view(&self) -> SampleView {
        SampleView {
            session_id: self.session_id@,
            live: self.live,
            socket_alive: self.socket_alive,
            unkeyed: self.unkeyed,
        }
    }
}

/// The views of a list of samples.
pub open spec fn sample_views(samples: Seq<Sample>) -> Seq<SampleView> {
    samples.map_values(|sample: Sample| sample@)
}

/// The sample of a session whose client made this report; without a report its socket is down.
pub open spec fn sample_of(
    session_id: Seq<char>,
    session: crate::session::SessionView,
    report: Option<ReportView>,
) -> SampleView {
    let link = match report {
        Some(r) => r.link,
        None => ClientLink { connected: false, logged_in: false },
    };
    SampleView {
        session_id,
        live: session.alive(link),
        socket_alive: session.client is Some && link.connected,
        unkeyed: match report {
            Some(r) => if session.client is Some {
                Some(r.unkeyed)
            } else {
                None
            },
            None => None,
        },
    }
}

/// `n` as the bits of an `i64` say it.
pub open spec fn signed(n: u64) -> i64 {
    if n <= i64::MAX {
        n as i64
    } else {
        (n - 0x1_0000_0000_0000_0000) as i64
    }
}

/// `n` as the bits of an `i64` say it.
fn to_signed(n: u64) -> (m: i64)
    ensures
        m == signed(n),
{
    proof {
        assert(n > 0x7fff_ffff_ffff_ffffu64 ==> n as i64 == n - 0x1_0000_0000_0000_0000)
            by (bit_vector);
    }
    n as i64
}

/// The rest of the first of `lines` that starts with `prefix`.
pub open spec fn field_of(lines: Seq<Seq<char>>, prefix: Seq<char>) -> Option<Seq<char>>
    decreases lines.len(),
{
    if lines.len() == 0 {
        None
    } else if lines.first().len() >= prefix.len() && lines.first().take(prefix.len() as int)
        == prefix {
        Some(lines.first().skip(prefix.len() as int))
    } else {
        field_of(lines.drop_first(), prefix)
    }
}

/// The number in the `Threads:` line of a process status.
pub open spec fn threads_of(status: Seq<char>) -> Option<i64> {
    match field_of(text::pieces(status, '\n'), "Threads:"@) {
        Some(rest) => text::i64_value(text::trimmed(rest)),
        None => None,
    }
}

/// The number in the first `Threads:` line of a process status, if there is one.
pub fn read_proc_threads(status: &str) -> (threads: Option<i64>)
    ensures
        threads == threads_of(status@),
{
    let prefix = "Threads:";
    let width: usize = prefix.unicode_len();
    let lines = text::split(status, '\n');
    let ghost views = text::texts(lines@);
    assert(views.skip(0) == views);
    for i in 0..lines.len()
        invariant
            views == text::texts(lines@),
            views == text::pieces(status@, '\n'),
            width == prefix@.len(),
            prefix@ == "Threads:"@,
            field_of(views, prefix@) == field_of(views.skip(i as int), prefix@),
    {
        let line = lines[i].as_str();
        proof {
            assert(views.skip(i as int).first() == line@);
            assert(views.skip(i as int).drop_first() == views.skip(i + 1));
        }
        let len: usize = line.unicode_len();
        if len >= width {
            if text::same_text(line.substring_char(0, width), prefix) {
                assert(line@.subrange(0, width as int) == line@.take(width as int));
                assert(line@.subrange(width as int, len as int) == line@.skip(width as int));
                return text::parse_i64(text::trim(line.substring_char(width, len)));
            }
            assert(line@.subrange(0, width as int) == line@.take(width as int));
        }
    }
    None
}

/// The report on `session_id`, the first where there are several.
fn find_report<'a>(reports: &'a Vec<ClientReport>, session_id: &str) -> (report: Option<
    &'a ClientReport,
>)
    ensures
        match report {
            Some(r) => report_of(report_views(reports@), session_id@) == Some(r@),
            None => report_of(report_views(reports@), session_id@) is None,
        },
{
    let ghost views = report_views(reports@);
    assert(views.skip(0) == views);
    for i in 0..reports.len()
        invariant
            views == report_views(reports@),
            report_of(views, session_id@) == report_of(views.skip(i as int), session_id@),
    {
        proof {
            assert(views.skip(i as int).first() == reports@[i as int]@);
            assert(views.skip(i as int).drop_first() == views.skip(i + 1));
        }
        if text::same_text(reports[i].session_id.as_str(), session_id) {
            return Some(&reports[i]);
        }
    }
    None
}

/// The sample of a session whose client made this report.
fn take_sample(session_id: &String, session: &SessionState, report: Option<&ClientReport>) -> (sample:
    Sample)
    ensures
        sample@ == sample_of(
            session_id@,
            session@,
            match report {
                Some(r) => Some(r@),
                None => None,
            },
        ),
{
    let link = match report {
        Some(r) => r.link,
        None => ClientLink { connected: false, logged_in: false },
    };
    Sample {
        session_id: session_id.clone(),
        live: session.is_alive(link),
        socket_alive: session.socket_alive(link),
        unkeyed: match report {
            Some(r) => if session.get_client().is_some() {
                Some(r.unkeyed)
            } else {
                None
            },
            None => None,
        },
    }
}

/// The samples of the sessions `ids`.
pub open spec fn samples_of(
    sessions: Map<Seq<char>, crate::session::SessionView>,
    reports: Seq<ReportView>,
    ids: Seq<Seq<char>>,
) -> Seq<SampleView> {
    ids.map_values(|id: Seq<char>| sample_of(id, sessions[id], report_of(reports, id)))
}

/// The samples of all sessions, each session once.
pub fn collect_samples(state: &AppState, reports: &Vec<ClientReport>) -> (samples: Vec<Sample>)
    requires
        state.wf(),
    ensures
        exists|ids: Seq<Seq<char>>|
            {
                &&& #[trigger] ids.no_duplicates()
                &&& ids.to_set() == state@.sessions.dom()
                &&& sample_views(samples@) == samples_of(
                    state@.sessions,
                    report_views(reports@),
                    ids,
                )
            },
{
    let list = state.session_iter_with_ids();
    let ghost ids = list@.map_values(|entry: (String, &SessionState)| entry.0@);
    let ghost wanted = samples_of(state@.sessions, report_views(reports@), ids);
    let mut samples: Vec<Sample> = Vec::new();
    for i in 0..list.len()
        invariant
            crate::state::lists_sessions(list@, state@.sessions),
            ids == list@.map_values(|entry: (String, &SessionState)| entry.0@),
            wanted == samples_of(state@.sessions, report_views(reports@), ids),
            sample_views(samples@) == wanted.take(i as int),
    {
        let ghost before = samples@;
        let report = find_report(reports, list[i].0.as_str());
        samples.push(take_sample(&list[i].0, list[i].1, report));
        assert(sample_views(samples@) == sample_views(before).push(wanted[i as int]));
    }
    proof {
        assert(wanted.take(wanted.len() as int) == wanted);
        assert forall|id: Seq<char>|
            ids.to_set().contains(id) == state@.sessions.dom().contains(id) by {
            if state@.sessions.contains_key(id) {
                let k = choose|k: int| 0 <= k < list@.len() && (#[trigger] list@[k]).0@ == id;
                assert(ids[k] == id);
            }
            if ids.contains(id) {
                let k = choose|k: int| 0 <= k < ids.len() && ids[k] == id;
                assert(list@[k].0@ == id);
            }
        }
        assert(ids.to_set() =~= state@.sessions.dom());
        assert forall|i: int, j: int| 0 <= i < ids.len() && 0 <= j < ids.len() && i != j implies ids[i]
            != ids[j] by {
            if i < j {
                assert(list@[i].0@ != list@[j].0@);
            } else {
                assert(list@[j].0@ != list@[i].0@);
            }
        }
        assert(ids.no_duplicates());
    }
    samples
}

/// Why the metrics could not be set up or written.
#[derive(Debug, Clone, Copy, PartialEq, Eq, Structural)]
pub enum MetricsError {
    /// A family could not be made.
    Setup,
    /// The text could not be written.
    Encode,
}

pub const SESSIONS_TOTAL: &'static str = "waxum_sessions_total";

pub const SESSIONS_TOTAL_HELP: &'static str = "Total session runtimes resident in the gateway";

pub const SESSIONS_LIVE: &'static str = "waxum_sessions_live";

pub const SESSIONS_LIVE_HELP: &'static str =
    "Sessions whose underlying client reports connected + logged in";

pub const PROCESS_THREADS: &'static str = "waxum_process_threads";

pub const PROCESS_THREADS_HELP: &'static str =
    "Thread count for the waxum process (from /proc/self/status)";

pub const PROCESS_OPEN_FDS: &'static str = "waxum_process_open_fds";

pub const PROCESS_OPEN_FDS_HELP: &'static str = "Open file descriptor count for the waxum process";

pub const WEBHOOK_CIRCUITS_OPEN: &'static str = "waxum_webhook_circuits_open";

pub const WEBHOOK_CIRCUITS_OPEN_HELP: &'static str =
    "Webhook target URLs currently in open-circuit state (skipped)";

pub const SESSION_SOCKET_ALIVE: &'static str = "waxum_session_socket_alive";

pub const SESSION_SOCKET_ALIVE_HELP: &'static str =
    "Per-session raw socket liveness (1 = transport connected, 0 = down)";

pub const SESSION_DROPS: &'static str = "waxum_session_socket_drops_total";

pub const SESSION_DROPS_HELP: &'static str =
    "Per-session count of socket drops (Event::Disconnected)";

pub const SESSION_RECONNECTS: &'static str = "waxum_session_reconnects_total";

pub const SESSION_RECONNECTS_HELP: &'static str =
    "Per-session count of successful reconnects closing an unplanned retry window";

pub const SESSION_DEVICES_UNKEYED: &'static str = "waxum_session_devices_unkeyed_total";

pub const SESSION_DEVICES_UNKEYED_HELP: &'static str =
    "Per-session, per-reason count of devices a send gave up keying for (from the client's own running total)";

/// The labels of a series per session.
pub open spec fn session_labels() -> Seq<Seq<char>> {
    seq!["session_id"@]
}

/// The labels of a series per session and reason.
pub open spec fn reason_labels() -> Seq<Seq<char>> {
    seq!["session_id"@, "reason"@]
}

/// What the socket family is made with.
pub open spec fn socket_alive_shape() -> families::Shape {
    families::Shape {
        name: SESSION_SOCKET_ALIVE@,
        help: SESSION_SOCKET_ALIVE_HELP@,
        labels: session_labels(),
    }
}

/// What the family of socket drops is made with.
pub open spec fn drops_shape() -> families::Shape {
    families::Shape {
        name: SESSION_DROPS@,
        help: SESSION_DROPS_HELP@,
        labels: session_labels(),
    }
}

/// What the family of reconnects is made with.
pub open spec fn reconnects_shape() -> families::Shape {
    families::Shape {
        name: SESSION_RECONNECTS@,
        help: SESSION_RECONNECTS_HELP@,
        labels: session_labels(),
    }
}

/// What the family of unkeyed devices is made with.
pub open spec fn devices_unkeyed_shape() -> families::Shape {
    families::Shape {
        name: SESSION_DEVICES_UNKEYED@,
        help: SESSION_DEVICES_UNKEYED_HELP@,
        labels: reason_labels(),
    }
}

proof fn lemma_session_labels()
    ensures
        families::is_label_name("session_id"@),
        families::is_label_name("reason"@),
        "session_id"@ != "reason"@,
        session_labels().no_duplicates(),
        reason_labels().no_duplicates(),
{
    reveal_strlit("session_id");
    reveal_strlit("reason");
    assert("session_id"@[0] == 's');
    assert("reason"@[0] == 'r');
}

/// The families with series per session have proper names.
proof fn lemma_family_names()
    ensures
        families::is_metric_name(SESSION_SOCKET_ALIVE@),
        families::is_metric_name(SESSION_DROPS@),
        families::is_metric_name(SESSION_RECONNECTS@),
        families::is_metric_name(SESSION_DEVICES_UNKEYED@),
        SESSION_SOCKET_ALIVE_HELP@.len() > 0,
        SESSION_DROPS_HELP@.len() > 0,
        SESSION_RECONNECTS_HELP@.len() > 0,
        SESSION_DEVICES_UNKEYED_HELP@.len() > 0,
{
    reveal_strlit("waxum_session_socket_alive");
    reveal_strlit("waxum_session_socket_drops_total");
    reveal_strlit("waxum_session_reconnects_total");
    reveal_strlit("waxum_session_devices_unkeyed_total");
    reveal_strlit("Per-session raw socket liveness (1 = transport connected, 0 = down)");
    reveal_strlit("Per-session count of socket drops (Event::Disconnected)");
    reveal_strlit(
        "Per-session count of successful reconnects closing an unplanned retry window",
    );
    reveal_strlit(
        "Per-session, per-reason count of devices a send gave up keying for (from the client's own running total)",
    );
}

/// The gauges over all sessions have proper names, and help that is written as it is.
pub proof fn lemma_gauge_names()
    ensures
        families::is_metric_name(SESSIONS_TOTAL@),
        families::is_metric_name(SESSIONS_LIVE@),
        families::is_metric_name(PROCESS_THREADS@),
        families::is_metric_name(PROCESS_OPEN_FDS@),
        families::is_metric_name(WEBHOOK_CIRCUITS_OPEN@),
        SESSIONS_TOTAL_HELP@.len() > 0,
        SESSIONS_LIVE_HELP@.len() > 0,
        PROCESS_THREADS_HELP@.len() > 0,
        PROCESS_OPEN_FDS_HELP@.len() > 0,
        WEBHOOK_CIRCUITS_OPEN_HELP@.len() > 0,
        families::is_plain_help(SESSIONS_TOTAL_HELP@),
        families::is_plain_help(SESSIONS_LIVE_HELP@),
        families::is_plain_help(PROCESS_THREADS_HELP@),
        families::is_plain_help(PROCESS_OPEN_FDS_HELP@),
        families::is_plain_help(WEBHOOK_CIRCUITS_OPEN_HELP@),
{
    reveal_strlit("waxum_sessions_total");
    reveal_strlit("waxum_sessions_live");
    reveal_strlit("waxum_process_threads");
    reveal_strlit("waxum_process_open_fds");
    reveal_strlit("waxum_webhook_circuits_open");
    reveal_strlit("Total session runtimes resident in the gateway");
    reveal_strlit("Sessions whose underlying client reports connected + logged in");
    reveal_strlit("Thread count for the waxum process (from /proc/self/status)");
    reveal_strlit("Open file descriptor count for the waxum process");
    reveal_strlit("Webhook target URLs currently in open-circuit state (skipped)");
}

/// The metrics of the process.
pub struct Metrics {
    sessions_total: i64,
    sessions_live: i64,
    process_threads: i64,
    process_open_fds: i64,
    webhook_circuits_open: i64,
    socket_alive: GaugeFamily,
    drops: CounterFamily,
    reconnects: CounterFamily,
    devices_unkeyed: GaugeFamily,
    /// The sessions of the last scrape.
    seen: TextSet,
}

/// What [`Metrics`] hold. A series has its label values and its value, under its key.
#[verifier::ext_equal]
pub struct MetricsView {
    pub sessions_total: i64,
    pub sessions_live: i64,
    pub process_threads: i64,
    pub process_open_fds: i64,
    pub webhook_circuits_open: i64,
    pub socket_alive: Map<u64, (Seq<Seq<char>>, i64)>,
    pub drops: Map<u64, (Seq<Seq<char>>, u64)>,
    pub reconnects: Map<u64, (Seq<Seq<char>>, u64)>,
    pub devices_unkeyed: Map<u64, (Seq<Seq<char>>, i64)>,
    pub seen: Set<Seq<char>>,
}

impl View for Metrics {
    type V = MetricsView;

    closed spec fn view(&self) -> MetricsView {
        MetricsView {
            sessions_total: self.sessions_total,
            sessions_live: self.sessions_live,
            process_threads: self.process_threads,
            process_open_fds: self.process_open_fds,
            webhook_circuits_open: self.webhook_circuits_open,
            socket_alive: families::gauge_series(self.socket_alive),
            drops: families::counter_series(self.drops),
            reconnects: families::counter_series(self.reconnects),
            devices_unkeyed: families::gauge_series(self.devices_unkeyed),
            seen: self.seen@,
        }
    }
}

/// The label values of the series of a session.
pub open spec fn session_values(session_id: Seq<char>) -> Seq<Seq<char>> {
    seq![session_id]
}

/// The label values of the series of a session and a reason.
pub open spec fn reason_values(session_id: Seq<char>, reason: Seq<char>) -> Seq<Seq<char>> {
    seq![session_id, reason]
}

/// The sessions of a scrape.
pub open spec fn sampled_ids(samples: Seq<SampleView>) -> Set<Seq<char>> {
    samples.map_values(|sample: SampleView| sample.session_id).to_set()
}

/// How many of the sessions are live.
pub open spec fn live_count(samples: Seq<SampleView>) -> nat {
    samples.filter(|sample: SampleView| sample.live).len()
}

/// The socket series after every session's was set.
pub open spec fn sockets_set(
    series: Map<u64, (Seq<Seq<char>>, i64)>,
    samples: Seq<SampleView>,
) -> Map<u64, (Seq<Seq<char>>, i64)>
    decreases samples.len(),
{
    if samples.len() == 0 {
        series
    } else {
        families::series_set(
            sockets_set(series, samples.drop_last()),
            session_values(samples.last().session_id),
            if samples.last().socket_alive {
                1
            } else {
                0
            },
        )
    }
}

/// The series of unkeyed devices after those of a session were set.
pub open spec fn reasons_set(
    series: Map<u64, (Seq<Seq<char>>, i64)>,
    id: Seq<char>,
    stats: UnkeyedStats,
) -> Map<u64, (Seq<Seq<char>>, i64)> {
    let s1 = families::series_set(
        series,
        reason_values(id, "no_bundle"@),
        signed(stats.no_bundle),
    );
    let s2 = families::series_set(
        s1,
        reason_values(id, "session_setup"@),
        signed(stats.session_setup),
    );
    let s3 = families::series_set(s2, reason_values(id, "rejected"@), signed(stats.rejected));
    let s4 = families::series_set(
        s3,
        reason_values(id, "fetch_failed"@),
        signed(stats.fetch_failed),
    );
    families::series_set(s4, reason_values(id, "encrypt"@), signed(stats.encrypt))
}

/// The series of unkeyed devices after those of every session with a client were set.
pub open spec fn unkeyed_set(
    series: Map<u64, (Seq<Seq<char>>, i64)>,
    samples: Seq<SampleView>,
) -> Map<u64, (Seq<Seq<char>>, i64)>
    decreases samples.len(),
{
    if samples.len() == 0 {
        series
    } else {
        let before = unkeyed_set(series, samples.drop_last());
        match samples.last().unkeyed {
            Some(stats) => reasons_set(before, samples.last().session_id, stats),
            None => before,
        }
    }
}

/// The keys of the series of these sessions.
pub open spec fn session_keys(ids: Set<Seq<char>>) -> Set<u64> {
    Set::new(
        |key: u64|
            exists|id: Seq<char>| #[trigger]
                ids.contains(id) && key == families::series_key(session_values(id)),
    )
}

/// The keys of the series of a session and any reason.
pub open spec fn reason_keys_of(id: Seq<char>) -> Set<u64> {
    set![
        families::series_key(reason_values(id, "no_bundle"@)),
        families::series_key(reason_values(id, "session_setup"@)),
        families::series_key(reason_values(id, "rejected"@)),
        families::series_key(reason_values(id, "fetch_failed"@)),
        families::series_key(reason_values(id, "encrypt"@)),
    ]
}

/// The keys of the series of these sessions and any reason.
pub open spec fn reason_keys(ids: Set<Seq<char>>) -> Set<u64> {
    Set::new(
        |key: u64|
            exists|id: Seq<char>| #[trigger] ids.contains(id) && reason_keys_of(id).contains(key),
    )
}

/// Whether `reason` is one of those for which a device is not keyed for.
pub open spec fn is_reason(reason: Seq<char>) -> bool {
    ||| reason == "no_bundle"@
    ||| reason == "session_setup"@
    ||| reason == "rejected"@
    ||| reason == "fetch_failed"@
    ||| reason == "encrypt"@
}

/// Whether every series is filed under the key of its own label values, of which it has so many.
pub open spec fn is_filed<N>(series: Map<u64, (Seq<Seq<char>>, N)>, width: nat) -> bool {
    forall|key: u64| #[trigger]
        series.contains_key(key) ==> series[key].0.len() == width && families::series_key(
            series[key].0,
        ) == key
}

/// Whether every series is labelled with one of these sessions.
pub open spec fn is_labelled<N>(
    series: Map<u64, (Seq<Seq<char>>, N)>,
    ids: Set<Seq<char>>,
) -> bool {
    forall|key: u64| #[trigger] series.contains_key(key) ==> ids.contains(series[key].0[0])
}

/// Whether every series is labelled with a reason.
pub open spec fn is_reasoned<N>(series: Map<u64, (Seq<Seq<char>>, N)>) -> bool {
    forall|key: u64| #[trigger] series.contains_key(key) ==> is_reason(series[key].0[1])
}

impl MetricsView {
    /// Every series is filed under the key of its own labels, and what a scrape shows belongs to
    /// the sessions that it saw.
    pub open spec fn wf(self) -> bool {
        &&& is_filed(self.socket_alive, 1)
        &&& is_filed(self.drops, 1)
        &&& is_filed(self.reconnects, 1)
        &&& is_filed(self.devices_unkeyed, 2)
        &&& is_labelled(self.socket_alive, self.seen)
        &&& is_labelled(self.devices_unkeyed, self.seen)
        &&& is_reasoned(self.devices_unkeyed)
    }

    /// Metrics before the first scrape.
    pub open spec fn blank() -> MetricsView {
        MetricsView {
            sessions_total: 0,
            sessions_live: 0,
            process_threads: 0,
            process_open_fds: 0,
            webhook_circuits_open: 0,
            socket_alive: Map::empty(),
            drops: Map::empty(),
            reconnects: Map::empty(),
            devices_unkeyed: Map::empty(),
            seen: Set::empty(),
        }
    }

    /// The metrics after a socket of `session_id` dropped.
    pub open spec fn with_drop(self, session_id: Seq<char>) -> MetricsView {
        MetricsView {
            drops: families::series_set(
                self.drops,
                session_values(session_id),
                families::wrapping_next(
                    families::count_of(self.drops, session_values(session_id)),
                ),
            ),
            ..self
        }
    }

    /// The metrics after `session_id` reconnected.
    pub open spec fn with_reconnect(self, session_id: Seq<char>) -> MetricsView {
        MetricsView {
            reconnects: families::series_set(
                self.reconnects,
                session_values(session_id),
                families::wrapping_next(
                    families::count_of(self.reconnects, session_values(session_id)),
                ),
            ),
            ..self
        }
    }

    /// The sessions of the last scrape that this one no longer sees.
    pub open spec fn stale(self, samples: Seq<SampleView>) -> Set<Seq<char>> {
        self.seen.difference(sampled_ids(samples))
    }

    /// The metrics after a scrape: the gauges are set, the series of every session are set, and
    /// then those of the sessions that are gone are taken out.
    pub open spec fn scraped(
        self,
        samples: Seq<SampleView>,
        threads: Option<i64>,
        open_fds: Option<i64>,
        circuits_open: i64,
    ) -> MetricsView {
        let stale = self.stale(samples);
        MetricsView {
            sessions_total: signed(samples.len() as u64),
            sessions_live: signed(live_count(samples) as u64),
            process_threads: match threads {
                Some(n) => n,
                None => self.process_threads,
            },
            process_open_fds: match open_fds {
                Some(n) => n,
                None => self.process_open_fds,
            },
            webhook_circuits_open: circuits_open,
            socket_alive: sockets_set(self.socket_alive, samples).remove_keys(session_keys(stale)),
            drops: self.drops.remove_keys(session_keys(stale)),
            reconnects: self.reconnects.remove_keys(session_keys(stale)),
            devices_unkeyed: unkeyed_set(self.devices_unkeyed, samples).remove_keys(
                reason_keys(stale),
            ),
            seen: sampled_ids(samples),
        }
    }

    /// The text that a scrape is answered with: the families in the order of their names.
    pub open spec fn exposition(self) -> Seq<char> {
        families::written_gauge(PROCESS_OPEN_FDS@, PROCESS_OPEN_FDS_HELP@, self.process_open_fds)
            + families::written_gauge(PROCESS_THREADS@, PROCESS_THREADS_HELP@, self.process_threads)
            + families::written_gauges(devices_unkeyed_shape(), self.devices_unkeyed)
            + families::written_counters(reconnects_shape(), self.reconnects)
            + families::written_gauges(socket_alive_shape(), self.socket_alive)
            + families::written_counters(drops_shape(), self.drops)
            + families::written_gauge(SESSIONS_LIVE@, SESSIONS_LIVE_HELP@, self.sessions_live)
            + families::written_gauge(SESSIONS_TOTAL@, SESSIONS_TOTAL_HELP@, self.sessions_total)
            + families::written_gauge(
            WEBHOOK_CIRCUITS_OPEN@,
            WEBHOOK_CIRCUITS_OPEN_HELP@,
            self.webhook_circuits_open,
        )
    }
}

/// Setting a series keeps every series filed under the key of its labels, and brings no labels in
/// but its own.
proof fn lemma_series_set<N>(
    series: Map<u64, (Seq<Seq<char>>, N)>,
    values: Seq<Seq<char>>,
    value: N,
    width: nat,
)
    requires
        is_filed(series, width),
        values.len() == width,
    ensures
        is_filed(families::series_set(series, values, value), width),
        forall|key: u64| #[trigger]
            families::series_set(series, values, value).contains_key(key)
                ==> families::series_set(series, values, value)[key].0 == values || (
            series.contains_key(key) && families::series_set(series, values, value)[key].0
                == series[key].0),
{
}

/// Counting drops and reconnects keeps the metrics well formed.
proof fn lemma_counted_wf(view: MetricsView, session_id: Seq<char>)
    requires
        view.wf(),
    ensures
        view.with_drop(session_id).wf(),
        view.with_reconnect(session_id).wf(),
{
    let values = session_values(session_id);
    lemma_series_set(
        view.drops,
        values,
        families::wrapping_next(families::count_of(view.drops, values)),
        1,
    );
    lemma_series_set(
        view.reconnects,
        values,
        families::wrapping_next(families::count_of(view.reconnects, values)),
        1,
    );
}

proof fn lemma_sockets_labelled(
    series: Map<u64, (Seq<Seq<char>>, i64)>,
    samples: Seq<SampleView>,
    ids: Set<Seq<char>>,
)
    requires
        is_filed(series, 1),
        is_labelled(series, ids),
        forall|i: int| 0 <= i < samples.len() ==> ids.contains((#[trigger] samples[i]).session_id),
    ensures
        is_filed(sockets_set(series, samples), 1),
        is_labelled(sockets_set(series, samples), ids),
    decreases samples.len(),
{
    if samples.len() > 0 {
        lemma_sockets_labelled(series, samples.drop_last(), ids);
        assert(samples.last() == samples[samples.len() - 1]);
        lemma_series_set(
            sockets_set(series, samples.drop_last()),
            session_values(samples.last().session_id),
            if samples.last().socket_alive {
                1i64
            } else {
                0i64
            },
            1,
        );
    }
}

proof fn lemma_reason_labelled(
    series: Map<u64, (Seq<Seq<char>>, i64)>,
    id: Seq<char>,
    reason: Seq<char>,
    value: i64,
    ids: Set<Seq<char>>,
)
    requires
        is_filed(series, 2),
        is_labelled(series, ids),
        is_reasoned(series),
        ids.contains(id),
        is_reason(reason),
    ensures
        is_filed(families::series_set(series, reason_values(id, reason), value), 2),
        is_labelled(families::series_set(series, reason_values(id, reason), value), ids),
        is_reasoned(families::series_set(series, reason_values(id, reason), value)),
{
    lemma_series_set(series, reason_values(id, reason), value, 2);
}

proof fn lemma_unkeyed_labelled(
    series: Map<u64, (Seq<Seq<char>>, i64)>,
    samples: Seq<SampleView>,
    ids: Set<Seq<char>>,
)
    requires
        is_filed(series, 2),
        is_labelled(series, ids),
        is_reasoned(series),
        forall|i: int| 0 <= i < samples.len() ==> ids.contains((#[trigger] samples[i]).session_id),
    ensures
        is_filed(unkeyed_set(series, samples), 2),
        is_labelled(unkeyed_set(series, samples), ids),
        is_reasoned(unkeyed_set(series, samples)),
    decreases samples.len(),
{
    if samples.len() > 0 {
        lemma_unkeyed_labelled(series, samples.drop_last(), ids);
        assert(samples.last() == samples[samples.len() - 1]);
        let s0 = unkeyed_set(series, samples.drop_last());
        let id = samples.last().session_id;
        match samples.last().unkeyed {
            Some(stats) => {
                let s1 = families::series_set(
                    s0,
                    reason_values(id, "no_bundle"@),
                    signed(stats.no_bundle),
                );
                let s2 = families::series_set(
                    s1,
                    reason_values(id, "session_setup"@),
                    signed(stats.session_setup),
                );
                let s3 = families::series_set(
                    s2,
                    reason_values(id, "rejected"@),
                    signed(stats.rejected),
                );
                let s4 = families::series_set(
                    s3,
                    reason_values(id, "fetch_failed"@),
                    signed(stats.fetch_failed),
                );
                lemma_reason_labelled(s0, id, "no_bundle"@, signed(stats.no_bundle), ids);
                lemma_reason_labelled(s1, id, "session_setup"@, signed(stats.session_setup), ids);
                lemma_reason_labelled(s2, id, "rejected"@, signed(stats.rejected), ids);
                lemma_reason_labelled(s3, id, "fetch_failed"@, signed(stats.fetch_failed), ids);
                lemma_reason_labelled(s4, id, "encrypt"@, signed(stats.encrypt), ids);
            },
            None => {},
        }
    }
}

/// Taking out the series of these sessions leaves none that is labelled with one of them.
proof fn lemma_pruned<N>(
    series: Map<u64, (Seq<Seq<char>>, N)>,
    stale: Set<Seq<char>>,
)
    requires
        is_filed(series, 1),
    ensures
        is_filed(series.remove_keys(session_keys(stale)), 1),
        forall|key: u64| #[trigger]
            series.remove_keys(session_keys(stale)).contains_key(key) ==> !stale.contains(
                series[key].0[0],
            ),
{
    assert forall|key: u64| #[trigger]
        series.remove_keys(session_keys(stale)).contains_key(key) implies !stale.contains(
        series[key].0[0],
    ) by {
        let id = series[key].0[0];
        assert(series[key].0 =~= session_values(id));
        if stale.contains(id) {
            assert(session_keys(stale).contains(key));
        }
    }
}

/// Taking out the series of these sessions and any reason leaves none that is labelled with one
/// of them.
proof fn lemma_reasons_pruned(
    series: Map<u64, (Seq<Seq<char>>, i64)>,
    stale: Set<Seq<char>>,
)
    requires
        is_filed(series, 2),
        is_reasoned(series),
    ensures
        is_filed(series.remove_keys(reason_keys(stale)), 2),
        is_reasoned(series.remove_keys(reason_keys(stale))),
        forall|key: u64| #[trigger]
            series.remove_keys(reason_keys(stale)).contains_key(key) ==> !stale.contains(
                series[key].0[0],
            ),
{
    assert forall|key: u64| #[trigger]
        series.remove_keys(reason_keys(stale)).contains_key(key) implies !stale.contains(
        series[key].0[0],
    ) by {
        let id = series[key].0[0];
        let reason = series[key].0[1];
        assert(series[key].0 =~= reason_values(id, reason));
        if stale.contains(id) {
            assert(reason_keys_of(id).contains(families::series_key(reason_values(id, reason))));
            assert(reason_keys(stale).contains(key));
        }
    }
}

/// A scrape keeps the metrics well formed, and leaves no series of a session that is gone.
pub proof fn lemma_scraped_wf(
    before: MetricsView,
    samples: Seq<SampleView>,
    threads: Option<i64>,
    open_fds: Option<i64>,
    circuits_open: i64,
)
    requires
        before.wf(),
    ensures
        before.scraped(samples, threads, open_fds, circuits_open).wf(),
        ({
            let after = before.scraped(samples, threads, open_fds, circuits_open);
            let stale = before.stale(samples);
            &&& forall|key: u64| #[trigger]
                after.drops.contains_key(key) ==> !stale.contains(after.drops[key].0[0])
            &&& forall|key: u64| #[trigger]
                after.reconnects.contains_key(key) ==> !stale.contains(after.reconnects[key].0[0])
        }),
{
    let current = sampled_ids(samples);
    let stale = before.stale(samples);
    let all = before.seen.union(current);
    assert forall|i: int| 0 <= i < samples.len() implies current.contains(
        (#[trigger] samples[i]).session_id,
    ) by {
        let ids = samples.map_values(|sample: SampleView| sample.session_id);
        assert(ids[i] == samples[i].session_id);
    }
    lemma_sockets_labelled(before.socket_alive, samples, all);
    lemma_unkeyed_labelled(before.devices_unkeyed, samples, all);
    lemma_pruned(sockets_set(before.socket_alive, samples), stale);
    lemma_reasons_pruned(unkeyed_set(before.devices_unkeyed, samples), stale);
    lemma_pruned(before.drops, stale);
    lemma_pruned(before.reconnects, stale);
}

fn new_gauges(name: &str, help: &str, labels: &[&str]) -> (family: Result<
    GaugeFamily,
    MetricsError,
>)
    requires
        (families::Shape { name: name@, help: help@, labels: families::strs(labels@) }).wf(),
    ensures
        family is Ok,
        families::gauge_shape(family->Ok_0) == (families::Shape {
            name: name@,
            help: help@,
            labels: families::strs(labels@),
        }),
        families::gauge_series(family->Ok_0) == Map::<u64, (Seq<Seq<char>>, i64)>::empty(),
{
    match GaugeFamily::new(name, help, labels) {
        Ok(family) => {
            assert(families::gauge_series(family) =~= Map::<
                u64,
                (Seq<Seq<char>>, i64),
            >::empty());
            Ok(family)
        },
        Err(_) => Err(MetricsError::Setup),
    }
}

fn new_counters(name: &str, help: &str, labels: &[&str]) -> (family: Result<
    CounterFamily,
    MetricsError,
>)
    requires
        (families::Shape { name: name@, help: help@, labels: families::strs(labels@) }).wf(),
    ensures
        family is Ok,
        families::counter_shape(family->Ok_0) == (families::Shape {
            name: name@,
            help: help@,
            labels: families::strs(labels@),
        }),
        families::counter_series(family->Ok_0) == Map::<u64, (Seq<Seq<char>>, u64)>::empty(),
{
    match CounterFamily::new(name, help, labels) {
        Ok(family) => {
            assert(families::counter_series(family) =~= Map::<
                u64,
                (Seq<Seq<char>>, u64),
            >::empty());
            Ok(family)
        },
        Err(_) => Err(MetricsError::Setup),
    }
}

impl Metrics {
    /// Every family is made as it should be.
    closed spec fn shaped(&self) -> bool {
        &&& families::gauge_shape(self.socket_alive) == socket_alive_shape()
        &&& families::counter_shape(self.drops) == drops_shape()
        &&& families::counter_shape(self.reconnects) == reconnects_shape()
        &&& families::gauge_shape(self.devices_unkeyed) == devices_unkeyed_shape()
        &&& self.seen.wf()
    }

    /// Every family is made as it should be, and holds what [`MetricsView::wf`] says.
    pub closed spec fn wf(&self) -> bool {
        self.shaped() && self@.wf()
    }

    /// What [`Self::wf`] says of the view.
    pub proof fn lemma_wf(&self)
        requires
            self.wf(),
        ensures
            self@.wf(),
    {
    }

    /// Metrics before the first scrape.
    pub fn new() -> (metrics: Result<Self, MetricsError>)
        ensures
            metrics is Ok,
            metrics->Ok_0.wf(),
            metrics->Ok_0@ == MetricsView::blank(),
    {
        proof {
            lemma_session_labels();
            lemma_family_names();
        }
        let per_session: [&str; 1] = ["session_id"];
        let per_reason: [&str; 2] = ["session_id", "reason"];
        assert(families::strs(per_session@) =~= session_labels());
        assert(families::strs(per_reason@) =~= reason_labels());
        let socket_alive = match new_gauges(
            SESSION_SOCKET_ALIVE,
            SESSION_SOCKET_ALIVE_HELP,
            per_session.as_slice(),
        ) {
            Ok(family) => family,
            Err(error) => {
                return Err(error);
            },
        };
        let drops = match new_counters(SESSION_DROPS, SESSION_DROPS_HELP, per_session.as_slice()) {
            Ok(family) => family,
            Err(error) => {
                return Err(error);
            },
        };
        let reconnects = match new_counters(
            SESSION_RECONNECTS,
            SESSION_RECONNECTS_HELP,
            per_session.as_slice(),
        ) {
            Ok(family) => family,
            Err(error) => {
                return Err(error);
            },
        };
        let devices_unkeyed = match new_gauges(
            SESSION_DEVICES_UNKEYED,
            SESSION_DEVICES_UNKEYED_HELP,
            per_reason.as_slice(),
        ) {
            Ok(family) => family,
            Err(error) => {
                return Err(error);
            },
        };
        Ok(
            Metrics {
                sessions_total: 0,
                sessions_live: 0,
                process_threads: 0,
                process_open_fds: 0,
                webhook_circuits_open: 0,
                socket_alive,
                drops,
                reconnects,
                devices_unkeyed,
                seen: TextSet::new(),
            },
        )
    }

    /// Counts a dropped socket.
    fn count_drop(&mut self, session_id: &str)
        requires
            old(self).wf(),
        ensures
            final(self).wf(),
            final(self)@ == old(self)@.with_drop(session_id@),
    {
        let values: [&str; 1] = [session_id];
        assert(families::strs(values@) =~= session_values(session_id@));
        proof {
            lemma_counted_wf(self@, session_id@);
        }
        self.drops.inc(values.as_slice());
    }

    /// Counts a reconnect.
    fn count_reconnect(&mut self, session_id: &str)
        requires
            old(self).wf(),
        ensures
            final(self).wf(),
            final(self)@ == old(self)@.with_reconnect(session_id@),
    {
        let values: [&str; 1] = [session_id];
        assert(families::strs(values@) =~= session_values(session_id@));
        proof {
            lemma_counted_wf(self@, session_id@);
        }
        self.reconnects.inc(values.as_slice());
    }

    /// Sets the series of a session and a reason.
    fn set_reason(&mut self, session_id: &str, reason: &str, value: u64)
        requires
            old(self).shaped(),
        ensures
            final(self).shaped(),
            final(self)@ == (MetricsView {
                devices_unkeyed: families::series_set(
                    old(self)@.devices_unkeyed,
                    reason_values(session_id@, reason@),
                    signed(value),
                ),
                ..old(self)@
            }),
    {
        let values: [&str; 2] = [session_id, reason];
        assert(families::strs(values@) =~= reason_values(session_id@, reason@));
        self.devices_unkeyed.set(values.as_slice(), to_signed(value));
    }

    /// Sets the series of every session.
    fn set_series(&mut self, samples: &Vec<Sample>)
        requires
            old(self).shaped(),
        ensures
            final(self).shaped(),
            final(self)@ == (MetricsView {
                socket_alive: sockets_set(old(self)@.socket_alive, sample_views(samples@)),
                devices_unkeyed: unkeyed_set(old(self)@.devices_unkeyed, sample_views(samples@)),
                ..old(self)@
            }),
    {
        let ghost before = self@;
        let ghost views = sample_views(samples@);
        for i in 0..samples.len()
            invariant
                self.shaped(),
                views == sample_views(samples@),
                self@ == (MetricsView {
                    socket_alive: sockets_set(before.socket_alive, views.take(i as int)),
                    devices_unkeyed: unkeyed_set(before.devices_unkeyed, views.take(i as int)),
                    ..before
                }),
        {
            proof {
                assert(views.take(i + 1).drop_last() == views.take(i as int));
                assert(views.take(i + 1).last() == samples@[i as int]@);
            }
            let id = samples[i].session_id.as_str();
            let values: [&str; 1] = [id];
            assert(families::strs(values@) =~= session_values(id@));
            self.socket_alive.set(
                values.as_slice(),
                if samples[i].socket_alive {
                    1
                } else {
                    0
                },
            );
            match samples[i].unkeyed {
                Some(stats) => {
                    self.set_reason(id, "no_bundle", stats.no_bundle);
                    self.set_reason(id, "session_setup", stats.session_setup);
                    self.set_reason(id, "rejected", stats.rejected);
                    self.set_reason(id, "fetch_failed", stats.fetch_failed);
                    self.set_reason(id, "encrypt", stats.encrypt);
                },
                None => {},
            }
        }
        proof {
            assert(views.take(views.len() as int) == views);
        }
    }

    /// Takes the series of a session and a reason out.
    fn remove_reason(&mut self, session_id: &str, reason: &str)
        requires
            old(self).shaped(),
        ensures
            final(self).shaped(),
            final(self)@ == (MetricsView {
                devices_unkeyed: old(self)@.devices_unkeyed.remove(
                    families::series_key(reason_values(session_id@, reason@)),
                ),
                ..old(self)@
            }),
    {
        let values: [&str; 2] = [session_id, reason];
        assert(families::strs(values@) =~= reason_values(session_id@, reason@));
        self.devices_unkeyed.remove(values.as_slice());
    }

    /// Takes all series of a session out.
    fn remove_session(&mut self, session_id: &str)
        requires
            old(self).shaped(),
        ensures
            final(self).shaped(),
            final(self)@ == (MetricsView {
                socket_alive: old(self)@.socket_alive.remove(
                    families::series_key(session_values(session_id@)),
                ),
                drops: old(self)@.drops.remove(families::series_key(session_values(session_id@))),
                reconnects: old(self)@.reconnects.remove(
                    families::series_key(session_values(session_id@)),
                ),
                devices_unkeyed: old(self)@.devices_unkeyed.remove_keys(
                    reason_keys_of(session_id@),
                ),
                ..old(self)@
            }),
    {
        let ghost before = self@;
        let values: [&str; 1] = [session_id];
        assert(families::strs(values@) =~= session_values(session_id@));
        self.socket_alive.remove(values.as_slice());
        self.drops.remove(values.as_slice());
        self.reconnects.remove(values.as_slice());
        self.remove_reason(session_id, "no_bundle");
        self.remove_reason(session_id, "session_setup");
        self.remove_reason(session_id, "rejected");
        self.remove_reason(session_id, "fetch_failed");
        self.remove_reason(session_id, "encrypt");
        proof {
            assert(self@.devices_unkeyed =~= before.devices_unkeyed.remove_keys(
                reason_keys_of(session_id@),
            ));
        }
    }

    /// Takes the series of these sessions out.
    fn prune(&mut self, stale: &Vec<String>)
        requires
            old(self).shaped(),
        ensures
            final(self).shaped(),
            ({
                let ids = text::texts(stale@).to_set();
                final(self)@ == (MetricsView {
                    socket_alive: old(self)@.socket_alive.remove_keys(session_keys(ids)),
                    drops: old(self)@.drops.remove_keys(session_keys(ids)),
                    reconnects: old(self)@.reconnects.remove_keys(session_keys(ids)),
                    devices_unkeyed: old(self)@.devices_unkeyed.remove_keys(reason_keys(ids)),
                    ..old(self)@
                })
            }),
    {
        let ghost before = self@;
        let ghost list = text::texts(stale@);
        proof {
            let none = list.take(0).to_set();
            assert(before.socket_alive.remove_keys(session_keys(none)) =~= before.socket_alive);
            assert(before.drops.remove_keys(session_keys(none)) =~= before.drops);
            assert(before.reconnects.remove_keys(session_keys(none)) =~= before.reconnects);
            assert(before.devices_unkeyed.remove_keys(reason_keys(none)) =~= before.devices_unkeyed);
        }
        for i in 0..stale.len()
            invariant
                self.shaped(),
                list == text::texts(stale@),
                self@ == (MetricsView {
                    socket_alive: before.socket_alive.remove_keys(
                        session_keys(list.take(i as int).to_set()),
                    ),
                    drops: before.drops.remove_keys(session_keys(list.take(i as int).to_set())),
                    reconnects: before.reconnects.remove_keys(
                        session_keys(list.take(i as int).to_set()),
                    ),
                    devices_unkeyed: before.devices_unkeyed.remove_keys(
                        reason_keys(list.take(i as int).to_set()),
                    ),
                    ..before
                }),
        {
            let ghost done = list.take(i as int).to_set();
            self.remove_session(stale[i].as_str());
            proof {
                assert(list.take(i + 1) == list.take(i as int).push(list[i as int]));
                crate::seqs::lemma_push_to_set(list.take(i as int), list[i as int]);
                lemma_keys_insert(done, list[i as int]);
                let all = list.take(i + 1).to_set();
                assert(self@.socket_alive =~= before.socket_alive.remove_keys(session_keys(all)));
                assert(self@.drops =~= before.drops.remove_keys(session_keys(all)));
                assert(self@.reconnects =~= before.reconnects.remove_keys(session_keys(all)));
                assert(self@.devices_unkeyed =~= before.devices_unkeyed.remove_keys(
                    reason_keys(all),
                ));
            }
        }
        proof {
            assert(list.take(list.len() as int) == list);
        }
    }

    /// Takes a scrape in: sets the gauges and the series of every session, and takes out the
    /// series of the sessions that are gone since the last scrape.
    pub fn scrape(
        &mut self,
        samples: &Vec<Sample>,
        threads: Option<i64>,
        open_fds: Option<i64>,
        circuits_open: i64,
    )
        requires
            old(self).wf(),
        ensures
            final(self).wf(),
            final(self)@ == old(self)@.scraped(
                sample_views(samples@),
                threads,
                open_fds,
                circuits_open,
            ),
    {
        let ghost views = sample_views(samples@);
        let ghost live_only = |sample: SampleView| sample.live;
        let mut live: usize = 0;
        let mut current = TextSet::new();
        proof {
            assert(sampled_ids(views.take(0)) =~= Set::<Seq<char>>::empty());
            reveal(Seq::filter);
        }
        for i in 0..samples.len()
            invariant
                current.wf(),
                views == sample_views(samples@),
                live_only == |sample: SampleView| sample.live,
                live <= i,
                live == views.take(i as int).filter(live_only).len(),
                current@ == sampled_ids(views.take(i as int)),
        {
            proof {
                reveal(Seq::filter);
                assert(views.take(i + 1).drop_last() == views.take(i as int));
                assert(views.take(i + 1).last() == samples@[i as int]@);
                let ids = views.take(i as int).map_values(|s: SampleView| s.session_id);
                assert(views.take(i + 1).map_values(|s: SampleView| s.session_id) =~= ids.push(
                    samples@[i as int].session_id@,
                ));
                crate::seqs::lemma_push_to_set(ids, samples@[i as int].session_id@);
            }
            if samples[i].live {
                live = live + 1;
            }
            let _ = current.insert(samples[i].session_id.clone());
        }
        proof {
            assert(views.take(views.len() as int) == views);
        }
        self.set_series(samples);
        self.sessions_total = to_signed(samples.len() as u64);
        self.sessions_live = to_signed(live as u64);
        let stale = self.seen.difference(&current);
        self.prune(&stale);
        self.seen = current;
        match threads {
            Some(n) => {
                self.process_threads = n;
            },
            None => {},
        }
        match open_fds {
            Some(n) => {
                self.process_open_fds = n;
            },
            None => {},
        }
        self.webhook_circuits_open = circuits_open;
        proof {
            lemma_scraped_wf(old(self)@, views, threads, open_fds, circuits_open);
        }
    }

    /// The text that a scrape is answered with.
    pub fn text(&self) -> (written: Result<String, MetricsError>)
        requires
            self.wf(),
        ensures
            written is Ok,
            written->Ok_0@ == self@.exposition(),
    {
        proof {
            lemma_gauge_names();
        }
        let mut parts: Vec<Result<String, prometheus::Error>> = Vec::new();
        parts.push(
            families::write_gauge(PROCESS_OPEN_FDS, PROCESS_OPEN_FDS_HELP, self.process_open_fds),
        );
        parts.push(
            families::write_gauge(PROCESS_THREADS, PROCESS_THREADS_HELP, self.process_threads),
        );
        parts.push(self.devices_unkeyed.text());
        parts.push(self.reconnects.text());
        parts.push(self.socket_alive.text());
        parts.push(self.drops.text());
        parts.push(families::write_gauge(SESSIONS_LIVE, SESSIONS_LIVE_HELP, self.sessions_live));
        parts.push(families::write_gauge(SESSIONS_TOTAL, SESSIONS_TOTAL_HELP, self.sessions_total));
        parts.push(
            families::write_gauge(
                WEBHOOK_CIRCUITS_OPEN,
                WEBHOOK_CIRCUITS_OPEN_HELP,
                self.webhook_circuits_open,
            ),
        );
        let ghost written = parts@;
        let joined = join_parts(parts);
        proof {
            reveal_with_fuel(joined_prefix, 10);
            assert(joined_prefix(written, 9) =~= self@.exposition());
        }
        joined
    }
}

/// The first `n` of these texts, one after the other.
spec fn joined_prefix(parts: Seq<Result<String, prometheus::Error>>, n: nat) -> Seq<char>
    decreases n,
{
    if n == 0 {
        Seq::empty()
    } else {
        joined_prefix(parts, (n - 1) as nat) + parts[n - 1]->Ok_0@
    }
}

/// Joins texts that were all written.
fn join_parts(parts: Vec<Result<String, prometheus::Error>>) -> (joined: Result<
    String,
    MetricsError,
>)
    requires
        forall|i: int| 0 <= i < parts@.len() ==> #[trigger] parts@[i] is Ok,
    ensures
        joined is Ok,
        joined->Ok_0@ == joined_prefix(parts@, parts@.len()),
{
    let mut joined = String::new();
    for i in 0..parts.len()
        invariant
            forall|j: int| 0 <= j < parts@.len() ==> #[trigger] parts@[j] is Ok,
            joined@ == joined_prefix(parts@, i as nat),
    {
        match &parts[i] {
            Ok(part) => joined.append(part.as_str()),
            Err(_) => {
                return Err(MetricsError::Encode);
            },
        }
    }
    Ok(joined)
}

proof fn lemma_keys_insert(ids: Set<Seq<char>>, id: Seq<char>)
    ensures
        session_keys(ids.insert(id)) == session_keys(ids).insert(
            families::series_key(session_values(id)),
        ),
        reason_keys(ids.insert(id)) == reason_keys(ids).union(reason_keys_of(id)),
{
    assert forall|key: u64|
        session_keys(ids.insert(id)).contains(key) == session_keys(ids).insert(
            families::series_key(session_values(id)),
        ).contains(key) by {
        assert(ids.insert(id).contains(id));
        if session_keys(ids).contains(key) {
            let other = choose|other: Seq<char>| #[trigger]
                ids.contains(other) && key == families::series_key(session_values(other));
            assert(ids.insert(id).contains(other));
        }
    }
    assert forall|key: u64|
        reason_keys(ids.insert(id)).contains(key) == reason_keys(ids).union(
            reason_keys_of(id),
        ).contains(key) by {
        assert(ids.insert(id).contains(id));
        if reason_keys(ids).contains(key) {
            let other = choose|other: Seq<char>| #[trigger]
                ids.contains(other) && reason_keys_of(other).contains(key);
            assert(ids.insert(id).contains(other));
        }
    }
    assert(session_keys(ids.insert(id)) =~= session_keys(ids).insert(
        families::series_key(session_values(id)),
    ));
    assert(reason_keys(ids.insert(id)) =~= reason_keys(ids).union(reason_keys_of(id)));
}

/// What metrics hold that the first scrape may not have made yet.
pub open spec fn opt_metrics(metrics: Option<Metrics>) -> Option<MetricsView> {
    match metrics {
        Some(m) => Some(m@),
        None => None,
    }
}

/// Whether metrics are in order that the first scrape may not have made yet.
pub open spec fn opt_wf(metrics: Option<Metrics>) -> bool {
    metrics is Some ==> metrics->0.wf()
}

/// The metrics that a scrape starts from.
pub open spec fn ready(metrics: Option<MetricsView>) -> MetricsView {
    match metrics {
        Some(m) => m,
        None => MetricsView::blank(),
    }
}

/// Makes the metrics, unless an earlier scrape did.
pub fn registry(metrics: &mut Option<Metrics>) -> (made: Result<(), MetricsError>)
    requires
        opt_wf(*old(metrics)),
    ensures
        made is Ok,
        (*final(metrics)) is Some,
        opt_wf(*final(metrics)),
        opt_metrics(*final(metrics)) == Some(ready(opt_metrics(*old(metrics)))),
{
    if metrics.is_none() {
        match Metrics::new() {
            Ok(m) => {
                *metrics = Some(m);
            },
            Err(error) => {
                return Err(error);
            },
        }
    }
    Ok(())
}

/// Counts a dropped socket of a session. Before the first scrape nothing is counted.
pub fn record_session_drop(metrics: &mut Option<Metrics>, session_id: &str)
    requires
        opt_wf(*old(metrics)),
    ensures
        opt_wf(*final(metrics)),
        opt_metrics(*final(metrics)) == (match opt_metrics(*old(metrics)) {
            Some(m) => Some(m.with_drop(session_id@)),
            None => None,
        }),
{
    match metrics {
        Some(m) => m.count_drop(session_id),
        None => {},
    }
}

/// Counts a reconnect that closed an unplanned retry window of a session. Before the first scrape
/// nothing is counted.
pub fn record_session_reconnect(metrics: &mut Option<Metrics>, session_id: &str)
    requires
        opt_wf(*old(metrics)),
    ensures
        opt_wf(*final(metrics)),
        opt_metrics(*final(metrics)) == (match opt_metrics(*old(metrics)) {
            Some(m) => Some(m.with_reconnect(session_id@)),
            None => None,
        }),
{
    match metrics {
        Some(m) => m.count_reconnect(session_id),
        None => {},
    }
}

/// What a scrape is answered with.
#[derive(Debug)]
pub struct Exposition {
    pub content_type: String,
    pub body: String,
}

/// The thread count of a process whose status could be read or not.
pub open spec fn threads_in(status: Option<&str>) -> Option<i64> {
    match status {
        Some(contents) => threads_of(contents@),
        None => None,
    }
}

/// How many file descriptors are open, where they could be counted.
pub open spec fn signed_count(count: Option<usize>) -> Option<i64> {
    match count {
        Some(n) => Some(signed(n as u64)),
        None => None,
    }
}

/// Whether `after` is what a scrape at `now` makes of `before`: every session is sampled once, in
/// some order.
pub open spec fn is_scrape(
    before: MetricsView,
    state: crate::state::AppView,
    reports: Seq<ReportView>,
    threads: Option<i64>,
    open_fds: Option<i64>,
    now: u128,
    after: MetricsView,
) -> bool {
    exists|ids: Seq<Seq<char>>|
        {
            &&& #[trigger] ids.no_duplicates()
            &&& ids.to_set() == state.sessions.dom()
            &&& after == before.scraped(
                samples_of(state.sessions, reports, ids),
                threads,
                open_fds,
                signed(crate::circuits::open_urls(state.webhook_circuits, now).len() as u64),
            )
        }
}

/// Answers a scrape at `now`. `reports` is what the clients of the sessions report,
/// `proc_status` the contents of the process's status file, and `open_fds` the count of its open
/// file descriptors, each `None` where it could not be read.
pub fn metrics_handler_at(
    metrics: &mut Option<Metrics>,
    state: &AppState,
    reports: &Vec<ClientReport>,
    proc_status: Option<&str>,
    open_fds: Option<usize>,
    now: u128,
) -> (answer: Result<Exposition, MetricsError>)
    requires
        opt_wf(*old(metrics)),
        state.wf(),
    ensures
        opt_wf(*final(metrics)),
        (*final(metrics)) is Some,
        is_scrape(
            ready(opt_metrics(*old(metrics))),
            state@,
            report_views(reports@),
            threads_in(proc_status),
            signed_count(open_fds),
            now,
            (*final(metrics))->0@,
        ),
        answer is Ok,
        answer->Ok_0.content_type@ == "text/plain; version=0.0.4"@,
        answer->Ok_0.body@ == (*final(metrics))->0@.exposition(),
{
    match registry(metrics) {
        Ok(()) => {},
        Err(error) => {
            return Err(error);
        },
    }
    let samples = collect_samples(state, reports);
    let threads = match proc_status {
        Some(status) => read_proc_threads(status),
        None => None,
    };
    let fds = match open_fds {
        Some(count) => Some(to_signed(count as u64)),
        None => None,
    };
    let open: usize = state.webhook_circuits_open_count_at(now);
    let circuits_open: i64 = to_signed(open as u64);
    match metrics {
        Some(m) => {
            m.scrape(&samples, threads, fds, circuits_open);
            match m.text() {
                Ok(body) => Ok(Exposition { content_type: families::format_type(), body }),
                Err(error) => Err(error),
            }
        },
        None => Err(MetricsError::Setup),
    }
}

/// Answers a scrape.
pub fn metrics_handler(
    metrics: &mut Option<Metrics>,
    state: &AppState,
    reports: &Vec<ClientReport>,
    proc_status: Option<&str>,
    open_fds: Option<usize>,
) -> (answer: Result<Exposition, MetricsError>)
    requires
        opt_wf(*old(metrics)),
        state.wf(),
    ensures
        opt_wf(*final(metrics)),
        (*final(metrics)) is Some,
        exists|now: u128| #[trigger]
            clock::had_passed(state@.clock_origin, now) && clock::is_reading(now) && is_scrape(
                ready(opt_metrics(*old(metrics))),
                state@,
                report_views(reports@),
                threads_in(proc_status),
                signed_count(open_fds),
                now,
                (*final(metrics))->0@,
            ),
        answer is Ok,
        answer->Ok_0.content_type@ == "text/plain; version=0.0.4"@,
        answer->Ok_0.body@ == (*final(metrics))->0@.exposition(),
{
    let now: u128 = state.nanos();
    metrics_handler_at(metrics, state, reports, proc_status, open_fds, now)
}

} // verus!
