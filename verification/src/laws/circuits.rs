//! Laws of the circuit breakers and of the dispatch that they guard.

use crate::circuits;
use crate::delivery;
use crate::registry;
use crate::state;
use crate::webhooks;
use crate::webhooks::{CircuitState, WebhookFailureAction};
use vstd::prelude::*;

verus! {

/// A circuit after failures at these times, without a success in between.
pub open spec fn after_failures(circuit: CircuitState, times: Seq<u128>) -> CircuitState
    decreases times.len(),
{
    if times.len() == 0 {
        circuit
    } else {
        after_failures(circuit, times.drop_last()).after_failure(times.last())
    }
}

/// Consecutive failures are counted; the circuit opens on the 25th, for five minutes from then,
/// and on no other before the 100th, from which on every failure disables the target.
pub proof fn law_consecutive_failures(start: u128, times: Seq<u128>)
    requires
        times.len() < u32::MAX,
        forall|i: int| 0 <= i < times.len() ==> crate::clock::is_reading(#[trigger] times[i]),
    ensures
        after_failures(CircuitState::closed_at(start), times).failures == times.len(),
        after_failures(CircuitState::closed_at(start), times).opened_until == (if times.len()
            >= webhooks::OPEN_THRESHOLD {
            Some((times[webhooks::OPEN_THRESHOLD - 1] + webhooks::COOLDOWN_NANOS) as u128)
        } else {
            None
        }),
        after_failures(CircuitState::closed_at(start), times).failure_action() == (
        if times.len() + 1 >= webhooks::HARD_DISABLE_THRESHOLD {
            WebhookFailureAction::HardDisable
        } else if times.len() + 1 == webhooks::OPEN_THRESHOLD {
            WebhookFailureAction::Open
        } else {
            WebhookFailureAction::Noop
        }),
    decreases times.len(),
{
    if times.len() > 0 {
        law_consecutive_failures(start, times.drop_last());
    }
}

/// The state after failures of `url` at these times, without a success in between.
pub open spec fn failing(app: state::AppView, url: Seq<char>, times: Seq<u128>) -> state::AppView
    decreases times.len(),
{
    if times.len() == 0 {
        app
    } else {
        failing(app, url, times.drop_last()).with_failure(url, times.last())
    }
}

/// Recording failures of a URL that never failed before does to its circuit what consecutive
/// failures do, and changes nothing else.
pub proof fn law_failures_reach_the_circuit(
    app: state::AppView,
    url: Seq<char>,
    times: Seq<u128>,
)
    requires
        !app.webhook_circuits.contains_key(url),
        times.len() > 0,
    ensures
        failing(app, url, times) == (state::AppView {
            webhook_circuits: app.webhook_circuits.insert(
                url,
                after_failures(CircuitState::closed_at(times[0]), times),
            ),
            ..app
        }),
    decreases times.len(),
{
    if times.len() > 1 {
        law_failures_reach_the_circuit(app, url, times.drop_last());
        assert(failing(app, url, times).webhook_circuits =~= app.webhook_circuits.insert(
            url,
            after_failures(CircuitState::closed_at(times[0]), times),
        ));
    } else {
        assert(times.drop_last() =~= Seq::<u128>::empty());
        reveal_with_fuel(after_failures, 2);
        reveal_with_fuel(failing, 2);
    }
}

/// A circuit that a failure just opened skips dispatch for exactly five minutes.
pub proof fn law_cooldown_is_five_minutes(circuit: CircuitState, now: u128, later: u128)
    requires
        crate::clock::is_reading(now),
        circuit.failure_action() == WebhookFailureAction::Open,
    ensures
        circuit.after_failure(now).is_open_at(later) <==> later < now + webhooks::COOLDOWN_NANOS,
        webhooks::COOLDOWN_NANOS == 5 * 60 * 1_000_000_000,
{
}

/// A success closes the circuit for good and starts the count over; the circuits of other URLs
/// stay as they are, and so does all else.
pub proof fn law_success_closes(app: state::AppView, url: Seq<char>, now: u128, later: u128)
    ensures
        !circuits::circuit_open(app.with_success(url, now).webhook_circuits, url, later),
        circuits::circuit_of(app.with_success(url, now).webhook_circuits, url, now).failures == 0,
        forall|other: Seq<char>|
            other != url ==> #[trigger] circuits::circuit_of(
                app.with_success(url, now).webhook_circuits,
                other,
                now,
            ) == circuits::circuit_of(app.webhook_circuits, other, now),
        app.with_success(url, now) == (state::AppView {
            webhook_circuits: app.with_success(url, now).webhook_circuits,
            ..app
        }),
{
}

/// A failure of one URL leaves the circuits of all others as they are.
pub proof fn law_failure_is_local(
    app: state::AppView,
    url: Seq<char>,
    other: Seq<char>,
    now: u128,
    later: u128,
)
    requires
        other != url,
    ensures
        circuits::circuit_open(app.with_failure(url, now).webhook_circuits, other, later)
            == circuits::circuit_open(app.webhook_circuits, other, later),
        circuits::circuit_of(app.with_failure(url, now).webhook_circuits, other, later)
            == circuits::circuit_of(app.webhook_circuits, other, later),
{
}

/// After the open circuits were reset no circuit is open, from that moment on; those that were
/// not open stay as they are.
pub proof fn law_reset_leaves_none_open(app: state::AppView, now: u128, later: u128)
    requires
        now <= later,
    ensures
        circuits::open_urls(app.with_circuits_reset(now).webhook_circuits, later)
            == Set::<Seq<char>>::empty(),
        forall|url: Seq<char>|
            app.webhook_circuits.contains_key(url) && !circuits::circuit_open(
                app.webhook_circuits,
                url,
                now,
            ) ==> #[trigger] app.with_circuits_reset(now).webhook_circuits[url]
                == app.webhook_circuits[url],
{
    assert(circuits::open_urls(app.with_circuits_reset(now).webhook_circuits, later)
        =~= Set::<Seq<char>>::empty());
}

/// An event goes only to a webhook that is enabled, that has a filter which matches it, and whose
/// circuit is not open.
pub proof fn law_dispatch_is_guarded(
    app: state::AppView,
    session_id: Seq<char>,
    webhook_id: Seq<char>,
    matching: Seq<Seq<char>>,
    now: u128,
)
    requires
        app.dispatches(session_id, webhook_id, matching, now),
    ensures
        ({
            let webhook = registry::webhooks_of(app.webhooks, session_id)[webhook_id];
            &&& webhook.enabled
            &&& exists|i: int|
                0 <= i < webhook.events.len() && matching.contains(#[trigger] webhook.events[i])
            &&& !circuits::circuit_open(app.webhook_circuits, webhook.url, now)
        }),
{
}

/// While a circuit is open, no event goes to a webhook with its URL, in any session.
pub proof fn law_open_circuit_blocks(
    app: state::AppView,
    session_id: Seq<char>,
    webhook_id: Seq<char>,
    matching: Seq<Seq<char>>,
    now: u128,
)
    requires
        circuits::circuit_open(
            app.webhook_circuits,
            registry::webhooks_of(app.webhooks, session_id)[webhook_id].url,
            now,
        ),
    ensures
        !app.dispatches(session_id, webhook_id, matching, now),
{
}

/// Once the registrations of a URL were wiped, no session has one, every other registration is
/// as it was, nothing is dispatched to the URL, and a later registration starts with a closed
/// circuit.
pub proof fn law_wiped_url_is_gone(app: state::AppView, url: Seq<char>)
    ensures
        forall|session_id: Seq<char>, webhook_id: Seq<char>|
            #![trigger registry::webhooks_of(app.without_url(url).webhooks, session_id).contains_key(webhook_id)]
            {
                let before = registry::webhooks_of(app.webhooks, session_id);
                let after = registry::webhooks_of(app.without_url(url).webhooks, session_id);
                &&& after.contains_key(webhook_id) <==> before.contains_key(webhook_id)
                    && before[webhook_id].url != url
                &&& after.contains_key(webhook_id) ==> after[webhook_id] == before[webhook_id]
            },
        forall|now: u128|
            !(#[trigger] circuits::circuit_open(
                app.without_url(url).webhook_circuits,
                url,
                now,
            )),
{
}

/// A URL that fails for the 100th time in a row is wiped with its circuit, and its payload is
/// still dead-lettered.
pub proof fn law_hard_disable_wipes(
    app: state::AppView,
    run: delivery::RunView,
    last_error: Seq<char>,
    id: Seq<char>,
    now: u128,
    failed_at: i64,
)
    requires
        app.failure_action(run.url, now) == WebhookFailureAction::HardDisable,
    ensures
        ({
            let after = app.given_up(run, last_error, id, now, failed_at);
            &&& !after.webhook_circuits.contains_key(run.url)
            &&& after.webhooks == registry::url_purged(app.webhooks, run.url)
            &&& registry::queue_of(after.webhook_dlq, run.session_id).len() > 0
            &&& registry::queue_of(after.webhook_dlq, run.session_id).last() == run.dead_letter(
                id,
                last_error,
                failed_at,
            )
        }),
{
}

/// A circuit is open exactly while the end of its cooldown lies ahead.
pub proof fn law_open_means_cooling_down(
    app: state::AppView,
    url: Seq<char>,
    circuit: CircuitState,
    now: u128,
)
    ensures
        circuit.is_open_at(now) <==> circuit.opened_until is Some && now < circuit.opened_until->0,
        circuits::circuit_open(app.webhook_circuits, url, now) <==> app.webhook_circuits.contains_key(
            url,
        ) && app.webhook_circuits[url].opened_until is Some && now
            < app.webhook_circuits[url].opened_until->0,
        circuits::open_urls(app.webhook_circuits, now).contains(url) <==> (
        app.webhook_circuits.contains_key(url) && app.webhook_circuits[url].opened_until is Some
            && now < app.webhook_circuits[url].opened_until->0),
{
}

/// How many failures in a row are counted for a URL.
pub open spec fn failures_of(app: state::AppView, url: Seq<char>) -> int {
    if app.webhook_circuits.contains_key(url) {
        app.webhook_circuits[url].failures as int
    } else {
        0
    }
}

/// The end of the last cooldown of a URL, where it ever had one since its last success.
pub open spec fn cooldown_end(app: state::AppView, url: Seq<char>) -> Option<u128> {
    if app.webhook_circuits.contains_key(url) {
        app.webhook_circuits[url].opened_until
    } else {
        None
    }
}

/// Whether `after` has one more failure of `url` on record than `app`, at `now`, and its other
/// circuits as they were: the cooldown starts where this is the 25th failure or a later one and
/// none started since the last success, and it is not the 100th or a later one.
pub open spec fn counts_one_more(
    app: state::AppView,
    after: state::AppView,
    url: Seq<char>,
    now: u128,
) -> bool {
    &&& failures_of(after, url) == (if failures_of(app, url) == u32::MAX {
        u32::MAX as int
    } else {
        failures_of(app, url) + 1
    })
    &&& after.webhook_circuits.contains_key(url)
    &&& after.webhook_circuits[url].last_event == now
    &&& cooldown_end(after, url) == (if 25 <= failures_of(after, url) < 100 && cooldown_end(
        app,
        url,
    ) is None {
        Some((now + 300_000_000_000) as u128)
    } else {
        cooldown_end(app, url)
    })
    &&& forall|other: Seq<char>|
        other != url ==> (#[trigger] after.webhook_circuits.contains_key(other)
            <==> app.webhook_circuits.contains_key(other))
    &&& forall|other: Seq<char>|
        other != url && app.webhook_circuits.contains_key(other)
            ==> #[trigger] after.webhook_circuits[other] == app.webhook_circuits[other]
}

/// A failure is counted, whatever was counted before, and starts the cooldown when it is due; what
/// it leads to follows from the count alone and from whether a cooldown started already.
pub proof fn law_failure_is_counted(app: state::AppView, url: Seq<char>, now: u128)
    requires
        crate::clock::is_reading(now),
    ensures
        counts_one_more(app, app.with_failure(url, now), url, now),
        app.failure_action(url, now) == WebhookFailureAction::HardDisable <==> failures_of(
            app,
            url,
        ) >= 99,
        app.failure_action(url, now) == WebhookFailureAction::Open <==> 24 <= failures_of(app, url)
            < 99 && cooldown_end(app, url) is None,
        app.with_failure(url, now) == (state::AppView {
            webhook_circuits: app.with_failure(url, now).webhook_circuits,
            ..app
        }),
{
}

/// A run that ends without success and whose failure does not disable the target leaves one more
/// failure of its URL on record and every webhook registered; one whose failure does leaves no
/// webhook and no circuit for the URL. Either way its payload is the newest dead letter of its
/// session, and sessions, tags, events and settings stay as they are.
pub proof fn law_given_up_run_is_counted(
    app: state::AppView,
    run: delivery::RunView,
    outcome: delivery::OutcomeView,
    id: Seq<char>,
    now: u128,
    failed_at: i64,
)
    requires
        crate::clock::is_reading(now),
        run.attempt + 1 >= run.max_attempts,
        outcome is Response ==> outcome->code < 200 || outcome->code >= 300,
    ensures
        ({
            let after = app.after_attempt(run, outcome, id, now, failed_at);
            &&& failures_of(app, run.url) < 99 ==> counts_one_more(app, after, run.url, now)
            &&& failures_of(app, run.url) < 99 ==> after.webhooks == app.webhooks
            &&& failures_of(app, run.url) >= 99 ==> !after.webhook_circuits.contains_key(run.url)
            &&& failures_of(app, run.url) >= 99 ==> forall|session: Seq<char>, webhook: Seq<char>|
                after.webhooks.contains_key(session)
                    && #[trigger] after.webhooks[session].contains_key(webhook)
                    ==> after.webhooks[session][webhook].url != run.url
            &&& after.webhook_dlq.contains_key(run.session_id)
            &&& after.webhook_dlq[run.session_id].len() > 0
            &&& after.webhook_dlq[run.session_id].last().payload == run.payload
            &&& after == (state::AppView {
                webhook_circuits: after.webhook_circuits,
                webhooks: after.webhooks,
                webhook_dlq: after.webhook_dlq,
                ..app
            })
        }),
{
    law_failure_is_counted(app, run.url, now);
    law_wiped_url_is_gone(app.with_failure(run.url, now), run.url);
    let after = app.after_attempt(run, outcome, id, now, failed_at);
    if failures_of(app, run.url) >= 99 {
        assert forall|session: Seq<char>, webhook: Seq<char>|
            after.webhooks.contains_key(session)
                && #[trigger] after.webhooks[session].contains_key(webhook) implies after.webhooks[session][webhook].url
            != run.url by {
            assert(registry::webhooks_of(
                app.with_failure(run.url, now).without_url(run.url).webhooks,
                session,
            ).contains_key(webhook));
        }
    }
}

/// The state after a run failed for good at each of these times.
pub open spec fn failed_runs(
    app: state::AppView,
    run: delivery::RunView,
    outcome: delivery::OutcomeView,
    id: Seq<char>,
    times: Seq<u128>,
    failed_at: i64,
) -> state::AppView
    decreases times.len(),
{
    if times.len() == 0 {
        app
    } else {
        failed_runs(app, run, outcome, id, times.drop_last(), failed_at).after_attempt(
            run,
            outcome,
            id,
            times.last(),
            failed_at,
        )
    }
}

/// Runs that fail one after the other to a URL that never failed before are all counted, and the
/// 25th stops dispatch to it for five minutes: until then no webhook with that URL, in any
/// session, gets an event.
pub proof fn law_failed_runs_open_the_circuit(
    app: state::AppView,
    run: delivery::RunView,
    outcome: delivery::OutcomeView,
    id: Seq<char>,
    times: Seq<u128>,
    failed_at: i64,
)
    requires
        !app.webhook_circuits.contains_key(run.url),
        run.attempt + 1 >= run.max_attempts,
        outcome is Response ==> outcome->code < 200 || outcome->code >= 300,
        times.len() <= 99,
        forall|i: int| 0 <= i < times.len() ==> crate::clock::is_reading(#[trigger] times[i]),
    ensures
        ({
            let after = failed_runs(app, run, outcome, id, times, failed_at);
            &&& failures_of(after, run.url) == times.len()
            &&& cooldown_end(after, run.url) == (if times.len() >= 25 {
                Some((times[24] + 300_000_000_000) as u128)
            } else {
                None
            })
            &&& after.webhooks == app.webhooks
            &&& times.len() >= 25 ==> forall|
                session_id: Seq<char>,
                webhook_id: Seq<char>,
                matching: Seq<Seq<char>>,
                later: u128,
            |
                app.webhooks.contains_key(session_id) && app.webhooks[session_id].contains_key(
                    webhook_id,
                ) && app.webhooks[session_id][webhook_id].url == run.url && later < times[24]
                    + 300_000_000_000 ==> !(#[trigger] after.dispatches(
                    session_id,
                    webhook_id,
                    matching,
                    later,
                ))
        }),
    decreases times.len(),
{
    if times.len() > 0 {
        law_failed_runs_open_the_circuit(
            app,
            run,
            outcome,
            id,
            times.drop_last(),
            failed_at,
        );
        law_given_up_run_is_counted(
            failed_runs(app, run, outcome, id, times.drop_last(), failed_at),
            run,
            outcome,
            id,
            times.last(),
            failed_at,
        );
    }
}

/// A success forgets the failures and the cooldown of its URL, where it has any on record, and
/// touches nothing else; a URL without a record gets none.
pub proof fn law_success_is_recorded(app: state::AppView, url: Seq<char>, now: u128)
    ensures
        ({
            let after = app.with_success(url, now);
            &&& failures_of(after, url) == 0
            &&& cooldown_end(after, url) is None
            &&& forall|other: Seq<char>| #[trigger]
                after.webhook_circuits.contains_key(other) <==> app.webhook_circuits.contains_key(
                    other,
                )
            &&& forall|other: Seq<char>|
                other != url && app.webhook_circuits.contains_key(other)
                    ==> #[trigger] after.webhook_circuits[other] == app.webhook_circuits[other]
            &&& app.webhook_circuits.contains_key(url) ==> after.webhook_circuits[url].last_event
                == now
            &&& after == (state::AppView { webhook_circuits: after.webhook_circuits, ..app })
        }),
{
}

/// An attempt that the target accepts, with any code from 200 to 299, ends the run as a success
/// does, whatever attempt it is; nothing is dead-lettered.
pub proof fn law_accepted_attempt(
    app: state::AppView,
    run: delivery::RunView,
    outcome: delivery::OutcomeView,
    id: Seq<char>,
    now: u128,
    failed_at: i64,
)
    requires
        outcome is Response && 200 <= outcome->code <= 299,
    ensures
        ({
            let after = app.after_attempt(run, outcome, id, now, failed_at);
            &&& failures_of(after, run.url) == 0
            &&& cooldown_end(after, run.url) is None
            &&& app.step(run, outcome, now) == delivery::StepView::Delivered
            &&& after == (state::AppView { webhook_circuits: after.webhook_circuits, ..app })
            &&& forall|other: Seq<char>|
                other != run.url && app.webhook_circuits.contains_key(other)
                    ==> #[trigger] after.webhook_circuits[other] == app.webhook_circuits[other]
            &&& forall|other: Seq<char>| #[trigger]
                after.webhook_circuits.contains_key(other) <==> app.webhook_circuits.contains_key(
                    other,
                )
        }),
{
}

/// The bulk reset forgets the failures and the cooldown of every URL that is cooling down at
/// `now`, and leaves every other record, and all else, as it is.
pub proof fn law_bulk_reset(app: state::AppView, now: u128, url: Seq<char>)
    ensures
        ({
            let after = app.with_circuits_reset(now);
            let cooling = app.webhook_circuits.contains_key(url)
                && app.webhook_circuits[url].opened_until is Some && now
                < app.webhook_circuits[url].opened_until->0;
            &&& after.webhook_circuits.contains_key(url) <==> app.webhook_circuits.contains_key(url)
            &&& cooling ==> failures_of(after, url) == 0 && cooldown_end(after, url) is None
                && after.webhook_circuits[url].last_event == now
            &&& !cooling && app.webhook_circuits.contains_key(url) ==> after.webhook_circuits[url]
                == app.webhook_circuits[url]
            &&& after == (state::AppView { webhook_circuits: after.webhook_circuits, ..app })
        }),
{
}

/// An event goes to a webhook exactly where the session has it, it is enabled, one of its filters
/// is among those that match the event, wherever it stands in the list, and its URL is not
/// cooling down.
pub proof fn law_dispatch(
    app: state::AppView,
    session_id: Seq<char>,
    webhook_id: Seq<char>,
    matching: Seq<Seq<char>>,
    now: u128,
)
    ensures
        app.dispatches(session_id, webhook_id, matching, now) <==> {
            &&& app.webhooks.contains_key(session_id)
            &&& app.webhooks[session_id].contains_key(webhook_id)
            &&& app.webhooks[session_id][webhook_id].enabled
            &&& exists|i: int|
                0 <= i < app.webhooks[session_id][webhook_id].events.len() && matching.contains(
                    #[trigger] app.webhooks[session_id][webhook_id].events[i],
                )
            &&& !(app.webhook_circuits.contains_key(app.webhooks[session_id][webhook_id].url)
                && app.webhook_circuits[app.webhooks[session_id][webhook_id].url].opened_until
                is Some && now
                < app.webhook_circuits[app.webhooks[session_id][webhook_id].url].opened_until->0)
        },
{
}

/// One filter that matches is enough: an enabled webhook of the session whose URL never failed
/// gets the event for whichever of its filters matches.
pub proof fn law_any_filter_dispatches(
    app: state::AppView,
    session_id: Seq<char>,
    webhook_id: Seq<char>,
    matching: Seq<Seq<char>>,
    now: u128,
    i: int,
)
    requires
        app.webhooks.contains_key(session_id),
        app.webhooks[session_id].contains_key(webhook_id),
        app.webhooks[session_id][webhook_id].enabled,
        0 <= i < app.webhooks[session_id][webhook_id].events.len(),
        matching.contains(app.webhooks[session_id][webhook_id].events[i]),
        !app.webhook_circuits.contains_key(app.webhooks[session_id][webhook_id].url),
    ensures
        app.dispatches(session_id, webhook_id, matching, now),
{
}

/// Every webhook that an event goes to gets a run of its own, to its URL, with its secret and the
/// event's payload, at the first attempt; and there is no other run.
pub proof fn law_one_run_per_webhook(
    app: state::AppView,
    session_id: Seq<char>,
    event: Seq<char>,
    payload: Seq<char>,
    matching: Seq<Seq<char>>,
    now: u128,
    runs: Seq<delivery::DeliveryRun>,
)
    requires
        state::is_dispatch(app, session_id, event, payload, matching, now, runs),
    ensures
        runs.len() == Set::new(
            |id: Seq<char>| app.dispatches(session_id, id, matching, now),
        ).len(),
        forall|k: int|
            0 <= k < runs.len() ==> is_due(
                (#[trigger] runs[k])@,
                app,
                session_id,
                event,
                payload,
                matching,
                now,
            ),
        forall|id: Seq<char>| #[trigger]
            app.dispatches(session_id, id, matching, now) ==> exists|k: int|
                0 <= k < runs.len() && is_run_to(
                    (#[trigger] runs[k])@,
                    app,
                    session_id,
                    id,
                    event,
                    payload,
                ),
{
    let ids = choose|ids: Seq<Seq<char>>| #[trigger]
        state::dispatch_ids(app, session_id, event, payload, matching, now, runs, ids);
    let goes = Set::new(|id: Seq<char>| app.dispatches(session_id, id, matching, now));
    assert forall|id: Seq<char>| ids.to_set().contains(id) == goes.contains(id) by {
        assert(ids.contains(id) <==> app.dispatches(session_id, id, matching, now));
    }
    assert(ids.to_set() =~= goes);
    ids.unique_seq_to_set();
    assert forall|k: int| 0 <= k < runs.len() implies is_due(
        (#[trigger] runs[k])@,
        app,
        session_id,
        event,
        payload,
        matching,
        now,
    ) by {
        assert(ids.contains(ids[k]));
        assert(app.dispatches(session_id, ids[k], matching, now));
        assert(is_run_to(runs[k]@, app, session_id, ids[k], event, payload));
    }
    assert forall|id: Seq<char>| #[trigger]
        app.dispatches(session_id, id, matching, now) implies exists|k: int|
        0 <= k < runs.len() && is_run_to(
            (#[trigger] runs[k])@,
            app,
            session_id,
            id,
            event,
            payload,
        ) by {
        assert(ids.contains(id));
        let k = choose|k: int| 0 <= k < ids.len() && ids[k] == id;
        assert(is_run_to(runs[k]@, app, session_id, id, event, payload));
    }
}

/// Whether `run` is about to deliver an event to one of the webhooks that it goes to.
pub open spec fn is_due(
    run: delivery::RunView,
    app: state::AppView,
    session_id: Seq<char>,
    event: Seq<char>,
    payload: Seq<char>,
    matching: Seq<Seq<char>>,
    now: u128,
) -> bool {
    exists|id: Seq<char>| #[trigger]
        app.dispatches(session_id, id, matching, now) && is_run_to(
            run,
            app,
            session_id,
            id,
            event,
            payload,
        )
}

/// Whether `run` is about to deliver an event to this webhook for the first time.
pub open spec fn is_run_to(
    run: delivery::RunView,
    app: state::AppView,
    session_id: Seq<char>,
    webhook_id: Seq<char>,
    event: Seq<char>,
    payload: Seq<char>,
) -> bool {
    &&& run.session_id == session_id
    &&& run.event == event
    &&& run.payload == payload
    &&& run.url == app.webhooks[session_id][webhook_id].url
    &&& run.secret == app.webhooks[session_id][webhook_id].secret
    &&& run.attempt == 0
    &&& run.retry_on_4xx == app.webhook_retry.retry_on_4xx
    &&& run.max_attempts >= 1
    &&& app.webhook_retry.max_attempts >= 1 ==> run.max_attempts == app.webhook_retry.max_attempts
}

} // verus!
