//! Laws of the calls that count and that answer a scrape.

use crate::clock;
use crate::families;
use crate::laws::scrapes;
use crate::metrics;
use crate::metrics::{ClientReport, Exposition, Metrics, MetricsError, Sample};
use crate::state::AppState;
use crate::text;
use vstd::prelude::*;

verus! {

/// The places of the live sessions among the samples.
pub open spec fn live_places(samples: Seq<Sample>) -> Set<int> {
    Set::new(|i: int| 0 <= i < samples.len() && samples[i].live)
}

proof fn lemma_live_places(samples: Seq<Sample>)
    ensures
        live_places(samples).finite(),
        live_places(samples).len() == metrics::live_count(metrics::sample_views(samples)),
    decreases samples.len(),
{
    let views = metrics::sample_views(samples);
    if samples.len() == 0 {
        assert(live_places(samples) =~= Set::<int>::empty());
        assert(views =~= Seq::<metrics::SampleView>::empty());
        reveal(Seq::filter);
    } else {
        let front = samples.drop_last();
        let last = samples.len() - 1;
        lemma_live_places(front);
        assert(views =~= metrics::sample_views(front).push(samples.last()@));
        scrapes::law_live_sessions_are_counted(metrics::sample_views(front), samples.last()@);
        if samples.last().live {
            assert(live_places(samples) =~= live_places(front).insert(last));
        } else {
            assert(live_places(samples) =~= live_places(front));
        }
    }
}

/// A scrape counts the sessions that it is given, and those of them that are live, each once; it
/// takes over the readings that came and remembers the sessions that it saw.
pub proof fn law_scrape(
    m: &mut Metrics,
    samples: &Vec<Sample>,
    threads: Option<i64>,
    open_fds: Option<i64>,
    circuits_open: i64,
    id: Seq<char>,
)
    requires
        samples@.len() <= i64::MAX,
        call_ensures(Metrics::scrape, (m, samples, threads, open_fds, circuits_open), ()),
    ensures
        final(m)@.sessions_total == samples@.len(),
        final(m)@.sessions_live == live_places(samples@).len(),
        final(m)@.webhook_circuits_open == circuits_open,
        threads is Some ==> final(m)@.process_threads == threads->0,
        threads is None ==> final(m)@.process_threads == old(m)@.process_threads,
        open_fds is Some ==> final(m)@.process_open_fds == open_fds->0,
        open_fds is None ==> final(m)@.process_open_fds == old(m)@.process_open_fds,
        final(m)@.seen.contains(id) <==> exists|i: int|
            0 <= i < samples@.len() && (#[trigger] samples@[i]).session_id@ == id,
{
    let views = metrics::sample_views(samples@);
    lemma_live_places(samples@);
    scrapes::law_live_sessions(views);
    scrapes::law_scrape_touches_only_what_it_sees(
        old(m)@,
        views,
        threads,
        open_fds,
        circuits_open,
        0,
        id,
    );
    assert(final(m)@ == old(m)@.scraped(views, threads, open_fds, circuits_open));
    if exists|i: int| 0 <= i < samples@.len() && (#[trigger] samples@[i]).session_id@ == id {
        let i = choose|i: int|
            0 <= i < samples@.len() && (#[trigger] samples@[i]).session_id@ == id;
        assert(views[i].session_id == id);
    }
    if final(m)@.seen.contains(id) {
        let j = choose|j: int| 0 <= j < views.len() && (#[trigger] views[j]).session_id == id;
        assert(samples@[j].session_id@ == id);
    }
}

/// After a scrape, a counter series is there exactly where it was and its key is not that of a
/// session that the last scrape saw and this one does not; its count is what it was.
pub proof fn law_scrape_counters(
    m: &mut Metrics,
    samples: &Vec<Sample>,
    threads: Option<i64>,
    open_fds: Option<i64>,
    circuits_open: i64,
    key: u64,
)
    requires
        call_ensures(Metrics::scrape, (m, samples, threads, open_fds, circuits_open), ()),
    ensures
        final(m)@.drops.contains_key(key) <==> old(m)@.drops.contains_key(key) && !is_gone(
            old(m)@,
            samples@,
            key,
        ),
        final(m)@.drops.contains_key(key) ==> final(m)@.drops[key] == old(m)@.drops[key],
        final(m)@.reconnects.contains_key(key) <==> old(m)@.reconnects.contains_key(key)
            && !is_gone(old(m)@, samples@, key),
        final(m)@.reconnects.contains_key(key) ==> final(m)@.reconnects[key]
            == old(m)@.reconnects[key],
{
    let views = metrics::sample_views(samples@);
    scrapes::law_counters_pruned(old(m)@, views, threads, open_fds, circuits_open, key);
    assert(final(m)@ == old(m)@.scraped(views, threads, open_fds, circuits_open));
    assert forall|id: Seq<char>|
        is_seen(samples@, id) <==> exists|j: int|
            0 <= j < views.len() && (#[trigger] views[j]).session_id == id by {
        if is_seen(samples@, id) {
            let j = choose|j: int|
                0 <= j < samples@.len() && (#[trigger] samples@[j]).session_id@ == id;
            assert(views[j].session_id == id);
        }
        if exists|j: int| 0 <= j < views.len() && (#[trigger] views[j]).session_id == id {
            let j = choose|j: int| 0 <= j < views.len() && (#[trigger] views[j]).session_id == id;
            assert(samples@[j].session_id@ == id);
        }
    }
    assert forall|id: Seq<char>|
        #![trigger is_seen(samples@, id)]
        !is_seen(samples@, id) <==> forall|j: int|
            0 <= j < views.len() ==> (#[trigger] views[j]).session_id != id by {}
    if is_gone(old(m)@, samples@, key) {
        let id = choose|id: Seq<char>| #[trigger]
            old(m)@.seen.contains(id) && !is_seen(samples@, id) && key == families::series_key(
                seq![id],
            );
        assert(forall|j: int| 0 <= j < views.len() ==> (#[trigger] views[j]).session_id != id);
    } else {
        assert forall|id: Seq<char>| #[trigger]
            old(m)@.seen.contains(id) && key == families::series_key(seq![id]) implies is_seen(
            samples@,
            id,
        ) by {}
    }
}

/// Whether a session is among the samples.
pub open spec fn is_seen(samples: Seq<Sample>, id: Seq<char>) -> bool {
    exists|i: int| 0 <= i < samples.len() && (#[trigger] samples[i]).session_id@ == id
}

/// Whether a key is that of a session that the last scrape saw and this one does not.
pub open spec fn is_gone(before: metrics::MetricsView, samples: Seq<Sample>, key: u64) -> bool {
    exists|id: Seq<char>| #[trigger]
        before.seen.contains(id) && !is_seen(samples, id) && key == families::series_key(seq![id])
}

/// After a scrape, the socket series of a session says whether its socket is alive, under its id,
/// unless another session's series shares its key.
pub proof fn law_scrape_sockets(
    m: &mut Metrics,
    samples: &Vec<Sample>,
    threads: Option<i64>,
    open_fds: Option<i64>,
    circuits_open: i64,
    i: int,
)
    requires
        old(m)@.wf(),
        call_ensures(Metrics::scrape, (m, samples, threads, open_fds, circuits_open), ()),
        0 <= i < samples@.len(),
        forall|j: int|
            0 <= j < samples@.len() && j != i ==> families::series_key(
                seq![(#[trigger] samples@[j]).session_id@],
            ) != families::series_key(seq![samples@[i].session_id@]),
        forall|id: Seq<char>| #[trigger]
            old(m)@.seen.contains(id) && id != samples@[i].session_id@ ==> families::series_key(
                seq![id],
            ) != families::series_key(seq![samples@[i].session_id@]),
    ensures
        ({
            let key = families::series_key(seq![samples@[i].session_id@]);
            &&& final(m)@.socket_alive.contains_key(key)
            &&& final(m)@.socket_alive[key].0 == seq![samples@[i].session_id@]
            &&& samples@[i].socket_alive ==> final(m)@.socket_alive[key].1 == 1
            &&& !samples@[i].socket_alive ==> final(m)@.socket_alive[key].1 == 0
        }),
{
    let views = metrics::sample_views(samples@);
    let values = metrics::session_values(samples@[i].session_id@);
    assert(views[i] == samples@[i]@);
    assert forall|j: int| 0 <= j < views.len() && j != i implies families::series_key(
        metrics::session_values((#[trigger] views[j]).session_id),
    ) != families::series_key(metrics::session_values(views[i].session_id)) by {
        assert(views[j] == samples@[j]@);
    }
    if metrics::session_keys(old(m)@.stale(views)).contains(families::series_key(values)) {
        let id = choose|id: Seq<char>| #[trigger]
            old(m)@.stale(views).contains(id) && families::series_key(values)
                == families::series_key(metrics::session_values(id));
        assert(old(m)@.seen.contains(id));
        let ids = views.map_values(|sample: metrics::SampleView| sample.session_id);
        assert(ids[i] == samples@[i].session_id@);
        assert(ids.contains(ids[i]));
        assert(metrics::sampled_ids(views).contains(samples@[i].session_id@));
    }
    scrapes::law_sockets_are_shown(old(m)@, views, threads, open_fds, circuits_open, i);
}

/// The samples are one for every session: live where its client is installed and the first report
/// on it says connected and logged in, with a live socket where it says connected, and with the
/// counts of that report.
pub proof fn law_collected(
    app: &AppState,
    reports: &Vec<ClientReport>,
    samples: Vec<Sample>,
    id: Seq<char>,
    r: int,
)
    requires
        call_ensures(metrics::collect_samples, (app, reports), samples),
        app@.sessions.contains_key(id),
        0 <= r <= reports@.len(),
        forall|j: int| 0 <= j < r ==> (#[trigger] reports@[j]).session_id@ != id,
        r < reports@.len() ==> reports@[r].session_id@ == id,
    ensures
        samples@.len() == app@.sessions.dom().len(),
        exists|i: int|
            #![trigger samples@[i]]
            0 <= i < samples@.len() && samples@[i].session_id@ == id && is_sample(
                samples@[i],
                app@.sessions[id].client is Some,
                reports@,
                r,
            ),
        forall|i: int, j: int|
            0 <= i < j < samples@.len() ==> (#[trigger] samples@[i]).session_id@ != (
            #[trigger] samples@[j]).session_id@,
{
    let views = metrics::report_views(reports@);
    let ids = choose|ids: Seq<Seq<char>>|
        {
            &&& #[trigger] ids.no_duplicates()
            &&& ids.to_set() == app@.sessions.dom()
            &&& metrics::sample_views(samples@) == metrics::samples_of(app@.sessions, views, ids)
        };
    let taken = metrics::samples_of(app@.sessions, views, ids);
    ids.unique_seq_to_set();
    assert(taken.len() == ids.len());
    assert(metrics::sample_views(samples@).len() == samples@.len());
    assert(ids.to_set().contains(id));
    let i = choose|i: int| 0 <= i < ids.len() && ids[i] == id;
    assert(metrics::sample_views(samples@)[i] == samples@[i]@);
    assert(taken[i] == metrics::sample_of(id, app@.sessions[id], metrics::report_of(views, id)));
    if r < reports@.len() {
        assert forall|j: int| 0 <= j < r implies (#[trigger] views[j]).session_id != id by {
            assert(views[j] == reports@[j]@);
        }
        assert(views[r] == reports@[r]@);
        scrapes::law_report(views, id, r);
    } else {
        assert forall|j: int| 0 <= j < views.len() implies (#[trigger] views[j]).session_id
            != id by {
            assert(views[j] == reports@[j]@);
        }
        scrapes::law_no_report(views, id);
    }
    scrapes::law_sample(id, app@.sessions[id], metrics::report_of(views, id));
    assert(is_sample(samples@[i], app@.sessions[id].client is Some, reports@, r));
    assert forall|a: int, b: int| 0 <= a < b < samples@.len() implies (
    #[trigger] samples@[a]).session_id@ != (#[trigger] samples@[b]).session_id@ by {
        assert(metrics::sample_views(samples@)[a] == samples@[a]@);
        assert(metrics::sample_views(samples@)[b] == samples@[b]@);
        assert(taken[a].session_id == ids[a] && taken[b].session_id == ids[b]);
    }
}

/// Whether a sample says what the report at `r` says of a session with or without a client; there
/// is no report past the last.
pub open spec fn is_sample(
    sample: Sample,
    installed: bool,
    reports: Seq<ClientReport>,
    r: int,
) -> bool {
    &&& sample.live <==> installed && r < reports.len() && reports[r].link.connected
        && reports[r].link.logged_in
    &&& sample.socket_alive <==> installed && r < reports.len() && reports[r].link.connected
    &&& sample.unkeyed is Some <==> installed && r < reports.len()
    &&& sample.unkeyed is Some ==> sample.unkeyed->0 == reports[r].unkeyed
}

/// What a series counts.
pub open spec fn count_under(series: Map<u64, (Seq<Seq<char>>, u64)>, key: u64) -> int {
    if series.contains_key(key) {
        series[key].1 as int
    } else {
        0
    }
}

/// A drop raises the drops of its session by one, and a reconnect its reconnects, once there are
/// metrics; nothing else changes, and before that nothing does.
pub proof fn law_counted(
    m: &mut Option<Metrics>,
    n: &mut Option<Metrics>,
    id: &str,
    key: u64,
)
    requires
        call_ensures(metrics::record_session_drop, (m, id), ()),
        call_ensures(metrics::record_session_reconnect, (n, id), ()),
    ensures
        *old(m) is None <==> *final(m) is None,
        *old(n) is None <==> *final(n) is None,
        *old(m) is Some ==> ({
            let (before, after) = ((*old(m))->0@, (*final(m))->0@);
            let own = key == families::series_key(seq![id@]);
            &&& own && count_under(before.drops, key) < u64::MAX ==> count_under(after.drops, key)
                == count_under(before.drops, key) + 1
            &&& own && count_under(before.drops, key) == u64::MAX ==> count_under(after.drops, key)
                == 0
            &&& own && !before.drops.contains_key(key) ==> after.drops[key].0 == seq![id@]
            &&& own ==> after.drops.contains_key(key)
            &&& !own ==> (after.drops.contains_key(key) <==> before.drops.contains_key(key))
            &&& !own && before.drops.contains_key(key) ==> after.drops[key] == before.drops[key]
            &&& after == (metrics::MetricsView { drops: after.drops, ..before })
        }),
        *old(n) is Some ==> ({
            let (before, after) = ((*old(n))->0@, (*final(n))->0@);
            let own = key == families::series_key(seq![id@]);
            &&& own && count_under(before.reconnects, key) < u64::MAX ==> count_under(
                after.reconnects,
                key,
            ) == count_under(before.reconnects, key) + 1
            &&& own && count_under(before.reconnects, key) == u64::MAX ==> count_under(
                after.reconnects,
                key,
            ) == 0
            &&& own && !before.reconnects.contains_key(key) ==> after.reconnects[key].0
                == seq![id@]
            &&& own ==> after.reconnects.contains_key(key)
            &&& !own ==> (after.reconnects.contains_key(key)
                <==> before.reconnects.contains_key(key))
            &&& !own && before.reconnects.contains_key(key) ==> after.reconnects[key]
                == before.reconnects[key]
            &&& after == (metrics::MetricsView { reconnects: after.reconnects, ..before })
        }),
{
    let dropped = metrics::opt_metrics(*final(m));
    let reconnected = metrics::opt_metrics(*final(n));
    assert(dropped is None <==> metrics::opt_metrics(*old(m)) is None);
    assert(reconnected is None <==> metrics::opt_metrics(*old(n)) is None);
    if *old(m) is Some {
        assert((*final(m))->0@ == (*old(m))->0@.with_drop(id@));
    }
    if *old(n) is Some {
        assert((*final(n))->0@ == (*old(n))->0@.with_reconnect(id@));
    }
}

/// The answer to a scrape is written from the metrics as the scrape leaves them; these count the
/// sessions, those of them that are connected and logged in, and the URLs in a cooldown.
pub proof fn law_answer(
    m: &mut Option<Metrics>,
    app: &AppState,
    reports: &Vec<ClientReport>,
    status: Option<&str>,
    open_fds: Option<usize>,
    now: u128,
    answer: Result<Exposition, MetricsError>,
)
    requires
        call_ensures(
            metrics::metrics_handler_at,
            (m, app, reports, status, open_fds, now),
            answer,
        ),
        app@.sessions.dom().len() <= i64::MAX,
        scrapes::cooling_urls(app@, now).len() <= i64::MAX,
        open_fds is Some ==> open_fds->0 <= i64::MAX,
    ensures
        answer is Ok,
        answer->Ok_0.content_type@ == "text/plain; version=0.0.4"@,
        *final(m) is Some,
        answer->Ok_0.body@ == (*final(m))->0@.exposition(),
        (*final(m))->0@.sessions_total == app@.sessions.dom().len(),
        (*final(m))->0@.sessions_live == scrapes::live_ids(
            app@,
            metrics::report_views(reports@),
        ).len(),
        (*final(m))->0@.webhook_circuits_open == scrapes::cooling_urls(app@, now).len(),
        open_fds is Some ==> (*final(m))->0@.process_open_fds == open_fds->0,
        open_fds is None && *old(m) is Some ==> (*final(m))->0@.process_open_fds
            == (*old(m))->0@.process_open_fds,
        open_fds is None && *old(m) is None ==> (*final(m))->0@.process_open_fds == 0,
        status is None ==> metrics::threads_in(status) is None,
        metrics::threads_in(status) is None && *old(m) is Some
            ==> (*final(m))->0@.process_threads == (*old(m))->0@.process_threads,
        metrics::threads_in(status) is None && *old(m) is None
            ==> (*final(m))->0@.process_threads == 0,
        status is Some && metrics::threads_of(status->0@) is Some
            ==> (*final(m))->0@.process_threads == metrics::threads_of(status->0@)->0,
{
    scrapes::law_scraped_gauges(
        metrics::ready(metrics::opt_metrics(*old(m))),
        app@,
        metrics::report_views(reports@),
        metrics::threads_in(status),
        metrics::signed_count(open_fds),
        now,
        (*final(m))->0@,
    );
}

/// A scrape that reads the clock itself counts the URLs that are in a cooldown at a time that has
/// passed since the state was made.
pub proof fn law_answer_right_now(
    m: &mut Option<Metrics>,
    app: &AppState,
    reports: &Vec<ClientReport>,
    status: Option<&str>,
    open_fds: Option<usize>,
    answer: Result<Exposition, MetricsError>,
)
    requires
        call_ensures(metrics::metrics_handler, (m, app, reports, status, open_fds), answer),
        app@.sessions.dom().len() <= i64::MAX,
        app@.webhook_circuits.dom().finite(),
        app@.webhook_circuits.dom().len() <= i64::MAX,
    ensures
        answer is Ok,
        answer->Ok_0.content_type@ == "text/plain; version=0.0.4"@,
        *final(m) is Some,
        answer->Ok_0.body@ == (*final(m))->0@.exposition(),
        (*final(m))->0@.sessions_total == app@.sessions.dom().len(),
        (*final(m))->0@.sessions_live == scrapes::live_ids(
            app@,
            metrics::report_views(reports@),
        ).len(),
        exists|now: u128| #[trigger]
            clock::had_passed(app@.clock_origin, now) && (*final(m))->0@.webhook_circuits_open
                == scrapes::cooling_urls(app@, now).len(),
{
    let now = choose|now: u128| #[trigger]
        clock::had_passed(app@.clock_origin, now) && clock::is_reading(now) && metrics::is_scrape(
            metrics::ready(metrics::opt_metrics(*old(m))),
            app@,
            metrics::report_views(reports@),
            metrics::threads_in(status),
            metrics::signed_count(open_fds),
            now,
            (*final(m))->0@,
        );
    let cooling = scrapes::cooling_urls(app@, now);
    vstd::set_lib::lemma_len_subset(cooling, app@.webhook_circuits.dom());
    scrapes::law_scraped_gauges(
        metrics::ready(metrics::opt_metrics(*old(m))),
        app@,
        metrics::report_views(reports@),
        metrics::threads_in(status),
        metrics::signed_count(open_fds),
        now,
        (*final(m))->0@,
    );
    assert(clock::had_passed(app@.clock_origin, now));
}

/// The thread count of a process status is that of the first line that starts with `Threads:`.
pub proof fn law_threads_read(status: &str, threads: Option<i64>, i: int)
    requires
        call_ensures(metrics::read_proc_threads, (status,), threads),
        0 <= i <= text::pieces(status@, '\n').len(),
        i < text::pieces(status@, '\n').len() ==> "Threads:"@.is_prefix_of(
            text::pieces(status@, '\n')[i],
        ),
        forall|j: int|
            0 <= j < i ==> !"Threads:"@.is_prefix_of(#[trigger] text::pieces(status@, '\n')[j]),
    ensures
        i < text::pieces(status@, '\n').len() ==> threads == text::i64_value(
            text::trimmed(text::pieces(status@, '\n')[i].skip(8)),
        ),
        i == text::pieces(status@, '\n').len() ==> threads is None,
{
    reveal_strlit("Threads:");
    if i < text::pieces(status@, '\n').len() {
        scrapes::law_thread_line(status@, i);
    } else {
        scrapes::law_no_thread_line(status@);
    }
}

} // verus!
