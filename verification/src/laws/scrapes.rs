//! Laws of the metrics.

use crate::families;
use crate::metrics;
use crate::text;
use vstd::prelude::*;

verus! {

/// Whether no series is labelled with this session.
pub open spec fn lacks_session<N>(series: Map<u64, (Seq<Seq<char>>, N)>, id: Seq<char>) -> bool {
    forall|key: u64| #[trigger] series.contains_key(key) ==> !series[key].0.contains(id)
}

/// A session that the last scrape saw and that this one does not see leaves no series behind: no
/// socket, no drops, no reconnects, and no unkeyed devices for any reason are labelled with it.
pub proof fn law_stale_series_go(
    before: metrics::MetricsView,
    samples: Seq<metrics::SampleView>,
    threads: Option<i64>,
    open_fds: Option<i64>,
    circuits_open: i64,
    id: Seq<char>,
)
    requires
        before.wf(),
        before.seen.contains(id),
        !metrics::sampled_ids(samples).contains(id),
    ensures
        ({
            let after = before.scraped(samples, threads, open_fds, circuits_open);
            &&& lacks_session(after.socket_alive, id)
            &&& lacks_session(after.drops, id)
            &&& lacks_session(after.reconnects, id)
            &&& forall|key: u64| #[trigger]
                after.devices_unkeyed.contains_key(key) ==> after.devices_unkeyed[key].0[0] != id
            &&& !after.seen.contains(id)
        }),
{
    let after = before.scraped(samples, threads, open_fds, circuits_open);
    metrics::lemma_scraped_wf(before, samples, threads, open_fds, circuits_open);
    assert(before.stale(samples).contains(id));
    lemma_lacks(after.socket_alive, id);
    lemma_lacks(after.drops, id);
    lemma_lacks(after.reconnects, id);
}

proof fn lemma_lacks<N>(series: Map<u64, (Seq<Seq<char>>, N)>, id: Seq<char>)
    requires
        metrics::is_filed(series, 1),
        forall|key: u64| #[trigger] series.contains_key(key) ==> series[key].0[0] != id,
    ensures
        lacks_session(series, id),
{
    assert forall|key: u64| #[trigger] series.contains_key(key) implies !series[key].0.contains(
        id,
    ) by {
        assert(series[key].0.len() == 1);
    }
}

/// What a scrape shows of sockets and of unkeyed devices belongs to sessions that it sees.
pub proof fn law_shown_sessions_exist(
    before: metrics::MetricsView,
    samples: Seq<metrics::SampleView>,
    threads: Option<i64>,
    open_fds: Option<i64>,
    circuits_open: i64,
    key: u64,
)
    requires
        before.wf(),
    ensures
        ({
            let after = before.scraped(samples, threads, open_fds, circuits_open);
            let ids = metrics::sampled_ids(samples);
            &&& after.socket_alive.contains_key(key) ==> ids.contains(
                after.socket_alive[key].0[0],
            )
            &&& after.devices_unkeyed.contains_key(key) ==> ids.contains(
                after.devices_unkeyed[key].0[0],
            )
        }),
{
    metrics::lemma_scraped_wf(before, samples, threads, open_fds, circuits_open);
}

/// A session that was there at the last scrape and has been removed since has no series in the
/// answer to the next one; the answer remembers exactly the sessions that are there.
pub proof fn law_removed_session_has_no_series(
    before: metrics::MetricsView,
    app: crate::state::AppView,
    reports: Seq<metrics::ReportView>,
    threads: Option<i64>,
    open_fds: Option<i64>,
    now: u128,
    after: metrics::MetricsView,
    id: Seq<char>,
)
    requires
        before.wf(),
        before.seen.contains(id),
        !app.sessions.contains_key(id),
        metrics::is_scrape(before, app, reports, threads, open_fds, now, after),
    ensures
        lacks_session(after.socket_alive, id),
        lacks_session(after.drops, id),
        lacks_session(after.reconnects, id),
        forall|key: u64| #[trigger]
            after.devices_unkeyed.contains_key(key) ==> after.devices_unkeyed[key].0[0] != id,
        after.seen == app.sessions.dom(),
        after.wf(),
{
    let open = metrics::signed(
        crate::circuits::open_urls(app.webhook_circuits, now).len() as u64,
    );
    let ids = choose|ids: Seq<Seq<char>>|
        {
            &&& #[trigger] ids.no_duplicates()
            &&& ids.to_set() == app.sessions.dom()
            &&& after == before.scraped(
                metrics::samples_of(app.sessions, reports, ids),
                threads,
                open_fds,
                open,
            )
        };
    let samples = metrics::samples_of(app.sessions, reports, ids);
    law_session_count(app.sessions, reports, ids);
    law_stale_series_go(before, samples, threads, open_fds, open, id);
    metrics::lemma_scraped_wf(before, samples, threads, open_fds, open);
}

/// A scrape keeps the counters of a session that it sees, unless a session that is gone shares
/// the key of its series.
pub proof fn law_counters_stay(
    before: metrics::MetricsView,
    samples: Seq<metrics::SampleView>,
    threads: Option<i64>,
    open_fds: Option<i64>,
    circuits_open: i64,
    id: Seq<char>,
)
    requires
        forall|gone: Seq<char>| #[trigger]
            before.stale(samples).contains(gone) ==> families::series_key(
                metrics::session_values(gone),
            ) != families::series_key(metrics::session_values(id)),
    ensures
        ({
            let after = before.scraped(samples, threads, open_fds, circuits_open);
            let values = metrics::session_values(id);
            let key = families::series_key(values);
            &&& after.drops.contains_key(key) == before.drops.contains_key(key)
            &&& after.reconnects.contains_key(key) == before.reconnects.contains_key(key)
            &&& families::count_of(after.drops, values) == families::count_of(before.drops, values)
            &&& families::count_of(after.reconnects, values) == families::count_of(
                before.reconnects,
                values,
            )
        }),
{
}

/// A scrape shows the socket of a session as it is, under its own label, unless another session's
/// series shares its key.
pub proof fn law_sockets_are_shown(
    before: metrics::MetricsView,
    samples: Seq<metrics::SampleView>,
    threads: Option<i64>,
    open_fds: Option<i64>,
    circuits_open: i64,
    i: int,
)
    requires
        before.wf(),
        0 <= i < samples.len(),
        forall|j: int|
            0 <= j < samples.len() && j != i ==> families::series_key(
                metrics::session_values((#[trigger] samples[j]).session_id),
            ) != families::series_key(metrics::session_values(samples[i].session_id)),
        !metrics::session_keys(before.stale(samples)).contains(
            families::series_key(metrics::session_values(samples[i].session_id)),
        ),
    ensures
        ({
            let after = before.scraped(samples, threads, open_fds, circuits_open);
            let values = metrics::session_values(samples[i].session_id);
            let key = families::series_key(values);
            &&& after.socket_alive.contains_key(key)
            &&& after.socket_alive[key].0 == values
            &&& after.socket_alive[key].1 == (if samples[i].socket_alive {
                1i64
            } else {
                0i64
            })
        }),
{
    let after = before.scraped(samples, threads, open_fds, circuits_open);
    let values = metrics::session_values(samples[i].session_id);
    let key = families::series_key(values);
    lemma_socket_set(before.socket_alive, samples, i);
    metrics::lemma_scraped_wf(before, samples, threads, open_fds, circuits_open);
    let shown = after.socket_alive[key].0;
    assert(after.socket_alive.contains_key(key));
    let ids = samples.map_values(|sample: metrics::SampleView| sample.session_id);
    assert(ids.contains(shown[0]));
    let j = choose|j: int| 0 <= j < ids.len() && ids[j] == shown[0];
    assert(samples[j].session_id == shown[0]);
    assert(shown =~= metrics::session_values(shown[0]));
}

/// What a client counts for a reason.
pub open spec fn stat_for(stats: metrics::UnkeyedStats, reason: Seq<char>) -> u64 {
    if reason == "no_bundle"@ {
        stats.no_bundle
    } else if reason == "session_setup"@ {
        stats.session_setup
    } else if reason == "rejected"@ {
        stats.rejected
    } else if reason == "fetch_failed"@ {
        stats.fetch_failed
    } else {
        stats.encrypt
    }
}

/// Whether no two of these label values, which differ in session or reason, share a key.
pub open spec fn reasons_apart(id: Seq<char>, reason: Seq<char>, samples: Seq<metrics::SampleView>) -> bool {
    forall|j: int, other: Seq<char>|
        0 <= j < samples.len() && metrics::is_reason(other) && ((
        #[trigger] samples[j]).session_id != id || other != reason) ==> families::series_key(
            #[trigger] metrics::reason_values(samples[j].session_id, other),
        ) != families::series_key(metrics::reason_values(id, reason))
}

proof fn lemma_reasons_differ()
    ensures
        "no_bundle"@ != "session_setup"@,
        "no_bundle"@ != "rejected"@,
        "no_bundle"@ != "fetch_failed"@,
        "no_bundle"@ != "encrypt"@,
        "session_setup"@ != "rejected"@,
        "session_setup"@ != "fetch_failed"@,
        "session_setup"@ != "encrypt"@,
        "rejected"@ != "fetch_failed"@,
        "rejected"@ != "encrypt"@,
        "fetch_failed"@ != "encrypt"@,
{
    reveal_strlit("no_bundle");
    reveal_strlit("session_setup");
    reveal_strlit("rejected");
    reveal_strlit("fetch_failed");
    reveal_strlit("encrypt");
    assert("no_bundle"@[0] == 'n');
    assert("session_setup"@[0] == 's');
    assert("rejected"@[0] == 'r');
    assert("fetch_failed"@[0] == 'f');
    assert("encrypt"@[0] == 'e');
}

/// A scrape shows, for every session with a client and every reason, what the client counts,
/// unless another series shares its key.
pub proof fn law_reasons_are_shown(
    before: metrics::MetricsView,
    samples: Seq<metrics::SampleView>,
    threads: Option<i64>,
    open_fds: Option<i64>,
    circuits_open: i64,
    i: int,
    reason: Seq<char>,
)
    requires
        0 <= i < samples.len(),
        samples[i].unkeyed is Some,
        metrics::is_reason(reason),
        forall|j: int|
            0 <= j < samples.len() && j != i ==> (#[trigger] samples[j]).session_id
                != samples[i].session_id,
        reasons_apart(samples[i].session_id, reason, samples),
        !metrics::reason_keys(before.stale(samples)).contains(
            families::series_key(metrics::reason_values(samples[i].session_id, reason)),
        ),
    ensures
        ({
            let after = before.scraped(samples, threads, open_fds, circuits_open);
            let key = families::series_key(
                metrics::reason_values(samples[i].session_id, reason),
            );
            &&& after.devices_unkeyed.contains_key(key)
            &&& after.devices_unkeyed[key].1 == metrics::signed(
                stat_for(samples[i].unkeyed->0, reason),
            )
        }),
{
    lemma_reason_set(before.devices_unkeyed, samples, i, reason);
}

proof fn lemma_reason_set(
    series: Map<u64, (Seq<Seq<char>>, i64)>,
    samples: Seq<metrics::SampleView>,
    i: int,
    reason: Seq<char>,
)
    requires
        0 <= i < samples.len(),
        samples[i].unkeyed is Some,
        metrics::is_reason(reason),
        forall|j: int|
            0 <= j < samples.len() && j != i ==> (#[trigger] samples[j]).session_id
                != samples[i].session_id,
        reasons_apart(samples[i].session_id, reason, samples),
    ensures
        ({
            let key = families::series_key(
                metrics::reason_values(samples[i].session_id, reason),
            );
            let after = metrics::unkeyed_set(series, samples);
            &&& after.contains_key(key)
            &&& after[key].1 == metrics::signed(stat_for(samples[i].unkeyed->0, reason))
        }),
    decreases samples.len(),
{
    lemma_reasons_differ();
    let last = samples[samples.len() - 1];
    let id = last.session_id;
    let own = families::series_key(metrics::reason_values(samples[i].session_id, reason));
    let k1 = families::series_key(metrics::reason_values(id, "no_bundle"@));
    let k2 = families::series_key(metrics::reason_values(id, "session_setup"@));
    let k3 = families::series_key(metrics::reason_values(id, "rejected"@));
    let k4 = families::series_key(metrics::reason_values(id, "fetch_failed"@));
    let k5 = families::series_key(metrics::reason_values(id, "encrypt"@));
    if i < samples.len() - 1 {
        let front = samples.drop_last();
        assert(front[i] == samples[i]);
        assert forall|j: int| 0 <= j < front.len() && j != i implies (
        #[trigger] front[j]).session_id != front[i].session_id by {
            assert(front[j] == samples[j]);
        }
        assert forall|j: int, other: Seq<char>|
            0 <= j < front.len() && metrics::is_reason(other) && ((
            #[trigger] front[j]).session_id != front[i].session_id || other
                != reason) implies families::series_key(
            #[trigger] metrics::reason_values(front[j].session_id, other),
        ) != own by {
            assert(front[j] == samples[j]);
        }
        lemma_reason_set(series, front, i, reason);
        assert(samples.last() == last);
        assert(last.session_id != samples[i].session_id);
        assert(own != k1 && own != k2 && own != k3 && own != k4 && own != k5);
    } else {
        assert(samples.last() == last);
        assert(reason != "no_bundle"@ ==> own != k1);
        assert(reason != "session_setup"@ ==> own != k2);
        assert(reason != "rejected"@ ==> own != k3);
        assert(reason != "fetch_failed"@ ==> own != k4);
        assert(reason != "encrypt"@ ==> own != k5);
    }
}

proof fn lemma_socket_set(
    series: Map<u64, (Seq<Seq<char>>, i64)>,
    samples: Seq<metrics::SampleView>,
    i: int,
)
    requires
        0 <= i < samples.len(),
        forall|j: int|
            0 <= j < samples.len() && j != i ==> families::series_key(
                metrics::session_values((#[trigger] samples[j]).session_id),
            ) != families::series_key(metrics::session_values(samples[i].session_id)),
    ensures
        ({
            let key = families::series_key(metrics::session_values(samples[i].session_id));
            let after = metrics::sockets_set(series, samples);
            &&& after.contains_key(key)
            &&& after[key].1 == (if samples[i].socket_alive {
                1i64
            } else {
                0i64
            })
        }),
    decreases samples.len(),
{
    if i < samples.len() - 1 {
        let front = samples.drop_last();
        assert(front[i] == samples[i]);
        assert forall|j: int| 0 <= j < front.len() && j != i implies families::series_key(
            metrics::session_values((#[trigger] front[j]).session_id),
        ) != families::series_key(metrics::session_values(front[i].session_id)) by {
            assert(front[j] == samples[j]);
        }
        lemma_socket_set(series, front, i);
        assert(samples.last() == samples[samples.len() - 1]);
    }
}

/// A drop is counted once, for its own session's series, and changes nothing else.
pub proof fn law_drop_is_counted(
    before: metrics::MetricsView,
    session_id: Seq<char>,
    values: Seq<Seq<char>>,
)
    ensures
        families::count_of(before.with_drop(session_id).drops, values) == (
        if families::series_key(values) == families::series_key(
            metrics::session_values(session_id),
        ) {
            families::wrapping_next(families::count_of(before.drops, values))
        } else {
            families::count_of(before.drops, values)
        }),
        before.with_drop(session_id) == (metrics::MetricsView {
            drops: before.with_drop(session_id).drops,
            ..before
        }),
{
}

/// A reconnect is counted once, for its own session's series, and changes nothing else.
pub proof fn law_reconnect_is_counted(
    before: metrics::MetricsView,
    session_id: Seq<char>,
    values: Seq<Seq<char>>,
)
    ensures
        families::count_of(before.with_reconnect(session_id).reconnects, values) == (
        if families::series_key(values) == families::series_key(
            metrics::session_values(session_id),
        ) {
            families::wrapping_next(families::count_of(before.reconnects, values))
        } else {
            families::count_of(before.reconnects, values)
        }),
        before.with_reconnect(session_id) == (metrics::MetricsView {
            reconnects: before.with_reconnect(session_id).reconnects,
            ..before
        }),
{
}

/// Where the gauges are of a size that a float holds exactly, the answer gives each in decimal,
/// under its name and its help.
pub proof fn law_gauges_are_written_exactly(view: metrics::MetricsView)
    requires
        -families::EXACT_LIMIT <= view.sessions_total <= families::EXACT_LIMIT,
        -families::EXACT_LIMIT <= view.sessions_live <= families::EXACT_LIMIT,
        -families::EXACT_LIMIT <= view.process_threads <= families::EXACT_LIMIT,
        -families::EXACT_LIMIT <= view.process_open_fds <= families::EXACT_LIMIT,
        -families::EXACT_LIMIT <= view.webhook_circuits_open <= families::EXACT_LIMIT,
    ensures
        view.exposition() == families::gauge_lines(
            metrics::PROCESS_OPEN_FDS@,
            metrics::PROCESS_OPEN_FDS_HELP@,
            view.process_open_fds as int,
        ) + families::gauge_lines(
            metrics::PROCESS_THREADS@,
            metrics::PROCESS_THREADS_HELP@,
            view.process_threads as int,
        ) + families::written_gauges(metrics::devices_unkeyed_shape(), view.devices_unkeyed)
            + families::written_counters(metrics::reconnects_shape(), view.reconnects)
            + families::written_gauges(metrics::socket_alive_shape(), view.socket_alive)
            + families::written_counters(metrics::drops_shape(), view.drops)
            + families::gauge_lines(
            metrics::SESSIONS_LIVE@,
            metrics::SESSIONS_LIVE_HELP@,
            view.sessions_live as int,
        ) + families::gauge_lines(
            metrics::SESSIONS_TOTAL@,
            metrics::SESSIONS_TOTAL_HELP@,
            view.sessions_total as int,
        ) + families::gauge_lines(
            metrics::WEBHOOK_CIRCUITS_OPEN@,
            metrics::WEBHOOK_CIRCUITS_OPEN_HELP@,
            view.webhook_circuits_open as int,
        ),
{
    metrics::lemma_gauge_names();
}

/// A text that differs from another first at `at`, with the lower character there, comes before
/// it.
proof fn lemma_before_at(a: Seq<char>, b: Seq<char>, at: nat)
    requires
        at < a.len(),
        at < b.len(),
        forall|i: int| 0 <= i < at ==> a[i] == b[i],
        a[at as int] < b[at as int],
    ensures
        text::text_before(a, b),
    decreases at,
{
    if at > 0 {
        assert(a.first() == b.first());
        lemma_before_at(a.drop_first(), b.drop_first(), (at - 1) as nat);
    }
}

/// The names of the families, in the order in which the answer gives them.
pub open spec fn family_names() -> Seq<Seq<char>> {
    seq![
        metrics::PROCESS_OPEN_FDS@,
        metrics::PROCESS_THREADS@,
        metrics::SESSION_DEVICES_UNKEYED@,
        metrics::SESSION_RECONNECTS@,
        metrics::SESSION_SOCKET_ALIVE@,
        metrics::SESSION_DROPS@,
        metrics::SESSIONS_LIVE@,
        metrics::SESSIONS_TOTAL@,
        metrics::WEBHOOK_CIRCUITS_OPEN@,
    ]
}

/// What is written of the families, in the same order.
pub open spec fn family_texts(view: metrics::MetricsView) -> Seq<Seq<char>> {
    let names = family_names();
    seq![
        families::written_gauge(names[0], metrics::PROCESS_OPEN_FDS_HELP@, view.process_open_fds),
        families::written_gauge(names[1], metrics::PROCESS_THREADS_HELP@, view.process_threads),
        families::written_gauges(
            families::Shape { name: names[2], ..metrics::devices_unkeyed_shape() },
            view.devices_unkeyed,
        ),
        families::written_counters(
            families::Shape { name: names[3], ..metrics::reconnects_shape() },
            view.reconnects,
        ),
        families::written_gauges(
            families::Shape { name: names[4], ..metrics::socket_alive_shape() },
            view.socket_alive,
        ),
        families::written_counters(
            families::Shape { name: names[5], ..metrics::drops_shape() },
            view.drops,
        ),
        families::written_gauge(names[6], metrics::SESSIONS_LIVE_HELP@, view.sessions_live),
        families::written_gauge(names[7], metrics::SESSIONS_TOTAL_HELP@, view.sessions_total),
        families::written_gauge(
            names[8],
            metrics::WEBHOOK_CIRCUITS_OPEN_HELP@,
            view.webhook_circuits_open,
        ),
    ]
}

/// The first `n` of these texts, one after the other.
pub open spec fn joined(texts: Seq<Seq<char>>, n: nat) -> Seq<char>
    decreases n,
{
    if n == 0 {
        Seq::empty()
    } else {
        joined(texts, (n - 1) as nat) + texts[n - 1]
    }
}

/// The answer to a scrape is the families' texts, one after the other.
pub proof fn law_answer_joins_the_families(view: metrics::MetricsView)
    ensures
        view.exposition() == joined(family_texts(view), family_names().len()),
{
    reveal_with_fuel(joined, 10);
    assert(view.exposition() =~= joined(family_texts(view), 9));
}

/// The families come in the order of their names, which are all different.
pub proof fn law_families_are_in_order(i: int, j: int)
    requires
        0 <= i < j < family_names().len(),
    ensures
        text::text_before(family_names()[i], family_names()[j]),
        family_names()[i] != family_names()[j],
{
    reveal_strlit("waxum_process_open_fds");
    reveal_strlit("waxum_process_threads");
    reveal_strlit("waxum_session_devices_unkeyed_total");
    reveal_strlit("waxum_session_reconnects_total");
    reveal_strlit("waxum_session_socket_alive");
    reveal_strlit("waxum_session_socket_drops_total");
    reveal_strlit("waxum_sessions_live");
    reveal_strlit("waxum_sessions_total");
    reveal_strlit("waxum_webhook_circuits_open");
    let a = family_names()[i];
    let b = family_names()[j];
    let at: nat = if i == 0 && j == 1 {
        14
    } else if i <= 1 && j <= 7 {
        6
    } else if j == 8 {
        6
    } else if i <= 5 && j >= 6 {
        13
    } else if i == 4 && j == 5 {
        21
    } else if i == 6 {
        15
    } else {
        14
    };
    lemma_before_at(a, b, at);
    assert(a[at as int] != b[at as int]);
}

/// No more sessions are live than there are.
pub proof fn law_live_sessions(samples: Seq<metrics::SampleView>)
    ensures
        metrics::live_count(samples) <= samples.len(),
    decreases samples.len(),
{
    reveal(Seq::filter);
    if samples.len() > 0 {
        law_live_sessions(samples.drop_last());
    }
}

/// The count of sessions that a scrape shows is the number of sessions.
pub proof fn law_session_count(
    sessions: Map<Seq<char>, crate::session::SessionView>,
    reports: Seq<metrics::ReportView>,
    ids: Seq<Seq<char>>,
)
    requires
        ids.no_duplicates(),
        ids.to_set() == sessions.dom(),
    ensures
        metrics::samples_of(sessions, reports, ids).len() == sessions.dom().len(),
        metrics::sampled_ids(metrics::samples_of(sessions, reports, ids)) == sessions.dom(),
{
    ids.unique_seq_to_set();
    let samples = metrics::samples_of(sessions, reports, ids);
    assert(samples.map_values(|sample: metrics::SampleView| sample.session_id) =~= ids);
}

/// One more live session raises the count of live sessions by exactly one, and one more that is
/// not live leaves it as it is.
pub proof fn law_live_sessions_are_counted(
    samples: Seq<metrics::SampleView>,
    sample: metrics::SampleView,
)
    ensures
        metrics::live_count(Seq::empty()) == 0,
        sample.live ==> metrics::live_count(samples.push(sample)) == metrics::live_count(samples)
            + 1,
        !sample.live ==> metrics::live_count(samples.push(sample)) == metrics::live_count(samples),
{
    reveal(Seq::filter);
    assert(samples.push(sample).drop_last() =~= samples);
}

/// The sessions whose client is installed and reports that it is connected and logged in.
pub open spec fn live_ids(
    app: crate::state::AppView,
    reports: Seq<metrics::ReportView>,
) -> Set<Seq<char>> {
    Set::new(
        |id: Seq<char>|
            {
                &&& app.sessions.contains_key(id)
                &&& app.sessions[id].client is Some
                &&& metrics::report_of(reports, id) is Some
                &&& metrics::report_of(reports, id)->0.link.connected
                &&& metrics::report_of(reports, id)->0.link.logged_in
            },
    )
}

proof fn lemma_live_ids(
    app: crate::state::AppView,
    reports: Seq<metrics::ReportView>,
    ids: Seq<Seq<char>>,
)
    requires
        ids.no_duplicates(),
        forall|i: int| 0 <= i < ids.len() ==> app.sessions.contains_key(#[trigger] ids[i]),
    ensures
        metrics::live_count(metrics::samples_of(app.sessions, reports, ids)) == Set::new(
            |id: Seq<char>| ids.contains(id) && live_ids(app, reports).contains(id),
        ).len(),
        Set::new(
            |id: Seq<char>| ids.contains(id) && live_ids(app, reports).contains(id),
        ).finite(),
    decreases ids.len(),
{
    let live = live_ids(app, reports);
    let all = Set::new(|id: Seq<char>| ids.contains(id) && live.contains(id));
    let samples = metrics::samples_of(app.sessions, reports, ids);
    if ids.len() == 0 {
        assert(all =~= Set::<Seq<char>>::empty());
        assert(samples =~= Seq::<metrics::SampleView>::empty());
        law_live_sessions_are_counted(samples, arbitrary());
    } else {
        let front = ids.drop_last();
        let last = ids.last();
        lemma_live_ids(app, reports, front);
        let fewer = Set::new(|id: Seq<char>| front.contains(id) && live.contains(id));
        let before = metrics::samples_of(app.sessions, reports, front);
        let sample = metrics::sample_of(
            last,
            app.sessions[last],
            metrics::report_of(reports, last),
        );
        assert(samples =~= before.push(sample));
        law_live_sessions_are_counted(before, sample);
        assert(app.sessions.contains_key(ids[ids.len() - 1]));
        assert(sample.live == live.contains(last));
        assert(!front.contains(last));
        assert forall|id: Seq<char>| ids.contains(id) <==> front.contains(id) || id == last by {
            if ids.contains(id) {
                let k = choose|k: int| 0 <= k < ids.len() && ids[k] == id;
                if k < front.len() {
                    assert(front[k] == id);
                }
            }
            if front.contains(id) {
                let k = choose|k: int| 0 <= k < front.len() && front[k] == id;
                assert(ids[k] == id);
            }
            if id == last {
                assert(ids[ids.len() - 1] == id);
            }
        }
        if live.contains(last) {
            assert(all =~= fewer.insert(last));
            assert(!fewer.contains(last));
        } else {
            assert(all =~= fewer);
        }
    }
}

/// After a scrape the gauges say how many sessions there are, how many of them are connected and
/// logged in, and how many URLs are cooling down; the readings of the process are those that came,
/// and stay as they were where none came.
pub proof fn law_scraped_gauges(
    before: metrics::MetricsView,
    app: crate::state::AppView,
    reports: Seq<metrics::ReportView>,
    threads: Option<i64>,
    open_fds: Option<i64>,
    now: u128,
    after: metrics::MetricsView,
)
    requires
        metrics::is_scrape(before, app, reports, threads, open_fds, now, after),
        app.sessions.dom().len() <= i64::MAX,
        cooling_urls(app, now).len() <= i64::MAX,
    ensures
        after.sessions_total == app.sessions.dom().len(),
        after.sessions_live == live_ids(app, reports).len(),
        after.webhook_circuits_open == cooling_urls(app, now).len(),
        threads is Some ==> after.process_threads == threads->0,
        threads is None ==> after.process_threads == before.process_threads,
        open_fds is Some ==> after.process_open_fds == open_fds->0,
        open_fds is None ==> after.process_open_fds == before.process_open_fds,
{
    let open = metrics::signed(
        crate::circuits::open_urls(app.webhook_circuits, now).len() as u64,
    );
    assert(crate::circuits::open_urls(app.webhook_circuits, now) =~= cooling_urls(app, now));
    let ids = choose|ids: Seq<Seq<char>>|
        {
            &&& #[trigger] ids.no_duplicates()
            &&& ids.to_set() == app.sessions.dom()
            &&& after == before.scraped(
                metrics::samples_of(app.sessions, reports, ids),
                threads,
                open_fds,
                open,
            )
        };
    let samples = metrics::samples_of(app.sessions, reports, ids);
    law_session_count(app.sessions, reports, ids);
    assert forall|i: int| 0 <= i < ids.len() implies app.sessions.contains_key(
        #[trigger] ids[i],
    ) by {
        assert(ids.to_set().contains(ids[i]));
    }
    lemma_live_ids(app, reports, ids);
    law_live_sessions(samples);
    let live = Set::new(
        |id: Seq<char>| ids.contains(id) && live_ids(app, reports).contains(id),
    );
    assert forall|id: Seq<char>| live.contains(id) == live_ids(app, reports).contains(id) by {
        if live_ids(app, reports).contains(id) {
            assert(app.sessions.dom().contains(id));
            assert(ids.to_set().contains(id));
        }
    }
    assert(live =~= live_ids(app, reports));
}

/// The URLs whose cooldown has not ended at `now`.
pub open spec fn cooling_urls(app: crate::state::AppView, now: u128) -> Set<Seq<char>> {
    Set::new(
        |url: Seq<char>|
            app.webhook_circuits.contains_key(url) && app.webhook_circuits[url].opened_until is Some
                && now < app.webhook_circuits[url].opened_until->0,
    )
}

/// What a scrape sees of a session: it is live exactly where its client is installed and reports
/// that it is connected and logged in; its socket is alive as soon as it is connected; the counts
/// are those of its client, and there are none without a client or without its report.
pub proof fn law_sample(
    id: Seq<char>,
    view: crate::session::SessionView,
    report: Option<metrics::ReportView>,
)
    ensures
        ({
            let sample = metrics::sample_of(id, view, report);
            let heard = view.client is Some && report is Some;
            &&& sample.session_id == id
            &&& sample.live <==> heard && report->0.link.connected && report->0.link.logged_in
            &&& sample.socket_alive <==> heard && report->0.link.connected
            &&& sample.unkeyed is Some <==> heard
            &&& heard ==> sample.unkeyed->0 == report->0.unkeyed
        }),
{
}

/// The report on a session is the first that names it.
pub proof fn law_report(reports: Seq<metrics::ReportView>, id: Seq<char>, i: int)
    requires
        0 <= i < reports.len(),
        reports[i].session_id == id,
        forall|j: int| 0 <= j < i ==> (#[trigger] reports[j]).session_id != id,
    ensures
        metrics::report_of(reports, id) == Some(reports[i]),
    decreases reports.len(),
{
    if i > 0 {
        assert(reports[0].session_id != id);
        let rest = reports.drop_first();
        assert forall|j: int| 0 <= j < i - 1 implies (#[trigger] rest[j]).session_id != id by {
            assert(rest[j] == reports[j + 1]);
        }
        law_report(rest, id, i - 1);
    }
}

/// Without a report that names a session there is none on it.
pub proof fn law_no_report(reports: Seq<metrics::ReportView>, id: Seq<char>)
    requires
        forall|j: int| 0 <= j < reports.len() ==> (#[trigger] reports[j]).session_id != id,
    ensures
        metrics::report_of(reports, id) is None,
    decreases reports.len(),
{
    if reports.len() > 0 {
        assert(reports[0].session_id != id);
        let rest = reports.drop_first();
        assert forall|j: int| 0 <= j < rest.len() implies (#[trigger] rest[j]).session_id != id by {
            assert(rest[j] == reports[j + 1]);
        }
        law_no_report(rest, id);
    }
}

/// A count is shown as it is where an `i64` holds it, and otherwise with the same bits.
pub proof fn law_signed(n: u64)
    ensures
        n <= i64::MAX ==> metrics::signed(n) == n,
        n > i64::MAX ==> metrics::signed(n) == n - 0x1_0000_0000_0000_0000,
        metrics::signed_count(Some(n as usize)) is Some,
        metrics::signed_count(None) is None,
{
}

/// The thread count is read from the first line that starts with `Threads:`, and from no other.
pub proof fn law_thread_line(status: Seq<char>, i: int)
    requires
        0 <= i < text::pieces(status, '\n').len(),
        "Threads:"@.is_prefix_of(text::pieces(status, '\n')[i]),
        forall|j: int|
            0 <= j < i ==> !"Threads:"@.is_prefix_of(#[trigger] text::pieces(status, '\n')[j]),
    ensures
        metrics::threads_of(status) == text::i64_value(
            text::trimmed(text::pieces(status, '\n')[i].skip("Threads:"@.len() as int)),
        ),
{
    lemma_field(text::pieces(status, '\n'), "Threads:"@, i);
}

/// Without such a line there is no thread count.
pub proof fn law_no_thread_line(status: Seq<char>)
    requires
        forall|j: int|
            0 <= j < text::pieces(status, '\n').len() ==> !"Threads:"@.is_prefix_of(
                #[trigger] text::pieces(status, '\n')[j],
            ),
    ensures
        metrics::threads_of(status) is None,
{
    lemma_no_field(text::pieces(status, '\n'), "Threads:"@);
}

proof fn lemma_field(lines: Seq<Seq<char>>, prefix: Seq<char>, i: int)
    requires
        0 <= i < lines.len(),
        prefix.is_prefix_of(lines[i]),
        forall|j: int| 0 <= j < i ==> !prefix.is_prefix_of(#[trigger] lines[j]),
    ensures
        metrics::field_of(lines, prefix) == Some(lines[i].skip(prefix.len() as int)),
    decreases lines.len(),
{
    if i > 0 {
        assert(!prefix.is_prefix_of(lines[0]));
        if lines[0].len() >= prefix.len() {
            assert(lines[0].subrange(0, prefix.len() as int) =~= lines[0].take(
                prefix.len() as int,
            ));
        }
        let rest = lines.drop_first();
        assert forall|j: int| 0 <= j < i - 1 implies !prefix.is_prefix_of(#[trigger] rest[j]) by {
            assert(rest[j] == lines[j + 1]);
        }
        lemma_field(rest, prefix, i - 1);
    } else {
        assert(lines[0].subrange(0, prefix.len() as int) =~= lines[0].take(prefix.len() as int));
    }
}

proof fn lemma_no_field(lines: Seq<Seq<char>>, prefix: Seq<char>)
    requires
        forall|j: int| 0 <= j < lines.len() ==> !prefix.is_prefix_of(#[trigger] lines[j]),
    ensures
        metrics::field_of(lines, prefix) is None,
    decreases lines.len(),
{
    if lines.len() > 0 {
        assert(!prefix.is_prefix_of(lines[0]));
        if lines[0].len() >= prefix.len() {
            assert(lines[0].subrange(0, prefix.len() as int) =~= lines[0].take(
                prefix.len() as int,
            ));
        }
        let rest = lines.drop_first();
        assert forall|j: int| 0 <= j < rest.len() implies !prefix.is_prefix_of(
            #[trigger] rest[j],
        ) by {
            assert(rest[j] == lines[j + 1]);
        }
        lemma_no_field(rest, prefix);
    }
}

/// A counter series goes in a scrape exactly where its key is that of a session that the last
/// scrape saw and this one does not; one that stays keeps its count.
pub proof fn law_counters_pruned(
    before: metrics::MetricsView,
    samples: Seq<metrics::SampleView>,
    threads: Option<i64>,
    open_fds: Option<i64>,
    circuits_open: i64,
    key: u64,
)
    ensures
        ({
            let after = before.scraped(samples, threads, open_fds, circuits_open);
            let gone = exists|id: Seq<char>| #[trigger]
                before.seen.contains(id) && (forall|j: int|
                    0 <= j < samples.len() ==> (#[trigger] samples[j]).session_id != id) && key
                    == families::series_key(seq![id]);
            &&& after.drops.contains_key(key) <==> before.drops.contains_key(key) && !gone
            &&& after.reconnects.contains_key(key) <==> before.reconnects.contains_key(key) && !gone
            &&& after.drops.contains_key(key) ==> after.drops[key] == before.drops[key]
            &&& after.reconnects.contains_key(key) ==> after.reconnects[key]
                == before.reconnects[key]
        }),
{
    let stale = before.stale(samples);
    assert forall|id: Seq<char>|
        stale.contains(id) <==> before.seen.contains(id) && (forall|j: int|
            0 <= j < samples.len() ==> (#[trigger] samples[j]).session_id != id) by {
        let ids = samples.map_values(|sample: metrics::SampleView| sample.session_id);
        if ids.contains(id) {
            let j = choose|j: int| 0 <= j < ids.len() && ids[j] == id;
            assert(samples[j].session_id == id);
        } else {
            assert forall|j: int| 0 <= j < samples.len() implies (#[trigger] samples[j]).session_id
                != id by {
                assert(ids[j] == samples[j].session_id);
            }
        }
    }
    let gone = exists|id: Seq<char>| #[trigger]
        before.seen.contains(id) && (forall|j: int|
            0 <= j < samples.len() ==> (#[trigger] samples[j]).session_id != id) && key
            == families::series_key(seq![id]);
    if gone {
        let id = choose|id: Seq<char>| #[trigger]
            before.seen.contains(id) && (forall|j: int|
                0 <= j < samples.len() ==> (#[trigger] samples[j]).session_id != id) && key
                == families::series_key(seq![id]);
        assert(stale.contains(id));
        assert(metrics::session_keys(stale).contains(key));
    }
    if metrics::session_keys(stale).contains(key) {
        let id = choose|id: Seq<char>| #[trigger]
            stale.contains(id) && key == families::series_key(metrics::session_values(id));
        assert(before.seen.contains(id));
    }
}

/// A scrape makes or changes no socket series but under the keys of the sessions that it sees, and
/// no series of unkeyed devices but under those of the sessions with counts; it remembers exactly
/// the sessions that it saw.
pub proof fn law_scrape_touches_only_what_it_sees(
    before: metrics::MetricsView,
    samples: Seq<metrics::SampleView>,
    threads: Option<i64>,
    open_fds: Option<i64>,
    circuits_open: i64,
    key: u64,
    id: Seq<char>,
)
    ensures
        ({
            let after = before.scraped(samples, threads, open_fds, circuits_open);
            &&& (forall|j: int|
                0 <= j < samples.len() ==> key != families::series_key(
                    seq![(#[trigger] samples[j]).session_id],
                )) && after.socket_alive.contains_key(key) ==> before.socket_alive.contains_key(key)
                && after.socket_alive[key] == before.socket_alive[key]
            &&& (forall|j: int|
                0 <= j < samples.len() && (#[trigger] samples[j]).unkeyed is Some
                    ==> !metrics::reason_keys_of(samples[j].session_id).contains(key))
                && after.devices_unkeyed.contains_key(key) ==> before.devices_unkeyed.contains_key(
                key,
            ) && after.devices_unkeyed[key] == before.devices_unkeyed[key]
            &&& after.seen.contains(id) <==> exists|j: int|
                0 <= j < samples.len() && (#[trigger] samples[j]).session_id == id
        }),
{
    if forall|j: int|
        0 <= j < samples.len() ==> key != families::series_key(
            seq![(#[trigger] samples[j]).session_id],
        ) {
        lemma_sockets_frame(before.socket_alive, samples, key);
    }
    if forall|j: int|
        0 <= j < samples.len() && (#[trigger] samples[j]).unkeyed is Some
            ==> !metrics::reason_keys_of(samples[j].session_id).contains(key) {
        lemma_unkeyed_frame(before.devices_unkeyed, samples, key);
    }
    let ids = samples.map_values(|sample: metrics::SampleView| sample.session_id);
    if ids.contains(id) {
        let j = choose|j: int| 0 <= j < ids.len() && ids[j] == id;
        assert(samples[j].session_id == id);
    }
    if exists|j: int| 0 <= j < samples.len() && (#[trigger] samples[j]).session_id == id {
        let j = choose|j: int| 0 <= j < samples.len() && (#[trigger] samples[j]).session_id == id;
        assert(ids[j] == id);
    }
}

proof fn lemma_sockets_frame(
    series: Map<u64, (Seq<Seq<char>>, i64)>,
    samples: Seq<metrics::SampleView>,
    key: u64,
)
    requires
        forall|j: int|
            0 <= j < samples.len() ==> key != families::series_key(
                seq![(#[trigger] samples[j]).session_id],
            ),
    ensures
        metrics::sockets_set(series, samples).contains_key(key) == series.contains_key(key),
        series.contains_key(key) ==> metrics::sockets_set(series, samples)[key] == series[key],
    decreases samples.len(),
{
    if samples.len() > 0 {
        let front = samples.drop_last();
        assert forall|j: int| 0 <= j < front.len() implies key != families::series_key(
            seq![(#[trigger] front[j]).session_id],
        ) by {
            assert(front[j] == samples[j]);
        }
        lemma_sockets_frame(series, front, key);
        assert(samples.last() == samples[samples.len() - 1]);
    }
}

proof fn lemma_unkeyed_frame(
    series: Map<u64, (Seq<Seq<char>>, i64)>,
    samples: Seq<metrics::SampleView>,
    key: u64,
)
    requires
        forall|j: int|
            0 <= j < samples.len() && (#[trigger] samples[j]).unkeyed is Some
                ==> !metrics::reason_keys_of(samples[j].session_id).contains(key),
    ensures
        metrics::unkeyed_set(series, samples).contains_key(key) == series.contains_key(key),
        series.contains_key(key) ==> metrics::unkeyed_set(series, samples)[key] == series[key],
    decreases samples.len(),
{
    if samples.len() > 0 {
        let front = samples.drop_last();
        assert forall|j: int|
            0 <= j < front.len() && (#[trigger] front[j]).unkeyed is Some implies !metrics::reason_keys_of(
        front[j].session_id).contains(key) by {
            assert(front[j] == samples[j]);
        }
        lemma_unkeyed_frame(series, front, key);
        let last = samples[samples.len() - 1];
        assert(samples.last() == last);
        if last.unkeyed is Some {
            let keys = metrics::reason_keys_of(last.session_id);
            assert(!keys.contains(key));
            assert(keys.contains(
                families::series_key(metrics::reason_values(last.session_id, "no_bundle"@)),
            ));
            assert(keys.contains(
                families::series_key(metrics::reason_values(last.session_id, "session_setup"@)),
            ));
            assert(keys.contains(
                families::series_key(metrics::reason_values(last.session_id, "rejected"@)),
            ));
            assert(keys.contains(
                families::series_key(metrics::reason_values(last.session_id, "fetch_failed"@)),
            ));
            assert(keys.contains(
                families::series_key(metrics::reason_values(last.session_id, "encrypt"@)),
            ));
        }
    }
}

/// The series of a session are filed under its id, and under its id and a reason; there are five
/// reasons.
pub proof fn law_series_labels(id: Seq<char>, reason: Seq<char>, key: u64)
    ensures
        metrics::session_values(id) == seq![id],
        metrics::reason_values(id, reason) == seq![id, reason],
        metrics::is_reason(reason) <==> reason == "no_bundle"@ || reason == "session_setup"@
            || reason == "rejected"@ || reason == "fetch_failed"@ || reason == "encrypt"@,
        metrics::reason_keys_of(id).contains(key) <==> exists|r: Seq<char>| #[trigger]
            metrics::is_reason(r) && key == families::series_key(seq![id, r]),
{
    if metrics::reason_keys_of(id).contains(key) {
        assert(metrics::is_reason("no_bundle"@));
        assert(metrics::is_reason("session_setup"@));
        assert(metrics::is_reason("rejected"@));
        assert(metrics::is_reason("fetch_failed"@));
        assert(metrics::is_reason("encrypt"@));
    }
}

/// Before the first scrape there is nothing to show, and a scrape starts from what earlier ones
/// left.
pub proof fn law_first_scrape(view: metrics::MetricsView, key: u64, id: Seq<char>)
    ensures
        metrics::ready(Some(view)) == view,
        ({
            let blank = metrics::ready(None);
            &&& blank.sessions_total == 0
            &&& blank.sessions_live == 0
            &&& blank.process_threads == 0
            &&& blank.process_open_fds == 0
            &&& blank.webhook_circuits_open == 0
            &&& !blank.socket_alive.contains_key(key)
            &&& !blank.drops.contains_key(key)
            &&& !blank.reconnects.contains_key(key)
            &&& !blank.devices_unkeyed.contains_key(key)
            &&& !blank.seen.contains(id)
        }),
{
}

} // verus!
