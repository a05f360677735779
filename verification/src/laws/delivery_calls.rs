//! Laws of the calls that deliver to webhooks: which targets are attempted, what the end of an
//! attempt leads to, and what is kept of a payload that could not be delivered.

use crate::clock;
use crate::delivery;
use crate::delivery::{AttemptOutcome, DeliveryRun, DeliveryStep};
use crate::laws::circuits;
use crate::laws::deliveries;
use crate::laws::state_calls;
use crate::state;
use crate::state::AppState;
use crate::text;
use crate::webhooks::{WebhookConfig, WebhookDlqEntry, WebhookFailureAction};
use vstd::prelude::*;

verus! {

/// Whether the circuit of `url` is in its cooldown at `now`.
pub open spec fn cools_down(app: state::AppView, url: Seq<char>, now: u128) -> bool {
    circuits::cooldown_end(app, url) is Some && now < circuits::cooldown_end(app, url)->0
}

/// Whether two states agree in everything but the circuits.
pub open spec fn only_circuits_differ(a: state::AppView, b: state::AppView) -> bool {
    &&& state_calls::same_configuration(a, b)
    &&& state_calls::same_registrations(a, b)
    &&& state_calls::same_sessions_and_tags(a, b)
    &&& a.event_ring == b.event_ring
}

/// Whether `after` differs from `app` by the end of the failures of `url` at `now`, where that has
/// failed before.
pub open spec fn forgives(
    app: state::AppView,
    after: state::AppView,
    url: Seq<char>,
    now: u128,
) -> bool {
    &&& circuits::failures_of(after, url) == 0
    &&& circuits::cooldown_end(after, url) is None
    &&& app.webhook_circuits.contains_key(url) ==> after.webhook_circuits[url].last_event == now
    &&& forall|other: Seq<char>| #[trigger]
        after.webhook_circuits.contains_key(other) <==> app.webhook_circuits.contains_key(other)
    &&& forall|other: Seq<char>|
        other != url && app.webhook_circuits.contains_key(other)
            ==> #[trigger] after.webhook_circuits[other] == app.webhook_circuits[other]
}

/// What one more failure leads to, by the failures before it and whether a cooldown was set: the
/// hundredth in a row disables the target, and from the twenty-fifth on the first without a
/// cooldown opens the circuit.
pub open spec fn leads_to(app: state::AppView, url: Seq<char>) -> WebhookFailureAction {
    if circuits::failures_of(app, url) >= 99 {
        WebhookFailureAction::HardDisable
    } else if circuits::failures_of(app, url) >= 24 && circuits::cooldown_end(app, url) is None {
        WebhookFailureAction::Open
    } else {
        WebhookFailureAction::Noop
    }
}

/// A target is attempted unless its circuit is in its cooldown.
pub proof fn law_allowed(s: &AppState, url: &str, now: u128, allowed: bool)
    requires
        call_ensures(AppState::webhook_circuit_allows_at, (s, url, now), allowed),
    ensures
        allowed <==> !cools_down(s@, url@, now),
{
}

/// The open circuits are counted by their URLs: the count is the length of every list of the URLs
/// in a cooldown that has each once.
pub proof fn law_open_count(s: &AppState, now: u128, count: usize, urls: Seq<Seq<char>>)
    requires
        call_ensures(AppState::webhook_circuits_open_count_at, (s, now), count),
        urls.no_duplicates(),
        forall|url: Seq<char>| #[trigger] urls.contains(url) <==> cools_down(s@, url, now),
    ensures
        count == urls.len(),
{
    let open = crate::circuits::open_urls(s@.webhook_circuits, now);
    assert forall|url: Seq<char>| urls.to_set().contains(url) <==> open.contains(url) by {
        assert(urls.contains(url) <==> cools_down(s@, url, now));
    }
    assert(urls.to_set() =~= open);
    urls.unique_seq_to_set();
}

/// A success ends the failures of its target and its cooldown; a target that never failed gets no
/// circuit.
pub proof fn law_success(s: &mut AppState, url: &str, now: u128)
    requires
        call_ensures(AppState::webhook_record_success_at, (s, url, now), ()),
    ensures
        forgives(old(s)@, final(s)@, url@, now),
        only_circuits_differ(final(s)@, old(s)@),
{
}

/// A failure is counted against its target alone.
pub proof fn law_failure(s: &mut AppState, url: &str, now: u128, action: WebhookFailureAction)
    requires
        clock::is_reading(now),
        call_ensures(AppState::webhook_record_failure_at, (s, url, now), action),
    ensures
        circuits::counts_one_more(old(s)@, final(s)@, url@, now),
        action == leads_to(old(s)@, url@),
        only_circuits_differ(final(s)@, old(s)@),
{
}

/// Reenabling closes the circuits that are in a cooldown, and lists their URLs, each once; the
/// other circuits keep their failures.
pub proof fn law_reenable(s: &mut AppState, now: u128, urls: Vec<String>)
    requires
        call_ensures(AppState::reenable_all_open_circuits_at, (s, now), urls),
    ensures
        forall|url: Seq<char>| #[trigger]
            text::texts(urls@).contains(url) <==> cools_down(old(s)@, url, now),
        forall|i: int, j: int|
            0 <= i < j < urls@.len() ==> (#[trigger] urls@[i])@ != (#[trigger] urls@[j])@,
        forall|url: Seq<char>| #[trigger]
            final(s)@.webhook_circuits.contains_key(url)
                <==> old(s)@.webhook_circuits.contains_key(url),
        forall|url: Seq<char>|
            #![trigger final(s)@.webhook_circuits[url]]
            cools_down(old(s)@, url, now) ==> final(s)@.webhook_circuits[url].failures == 0
                && final(s)@.webhook_circuits[url].opened_until is None
                && final(s)@.webhook_circuits[url].last_event == now,
        forall|url: Seq<char>|
            #![trigger final(s)@.webhook_circuits[url]]
            old(s)@.webhook_circuits.contains_key(url) && !cools_down(old(s)@, url, now)
                ==> final(s)@.webhook_circuits[url] == old(s)@.webhook_circuits[url],
        only_circuits_differ(final(s)@, old(s)@),
{
    let listed = text::texts(urls@);
    assert forall|url: Seq<char>| #[trigger] listed.contains(url) <==> cools_down(
        old(s)@,
        url,
        now,
    ) by {
        assert(listed.contains(url) <==> listed.to_set().contains(url));
    }
    assert forall|i: int, j: int| 0 <= i < j < urls@.len() implies (#[trigger] urls@[i])@ != (
    #[trigger] urls@[j])@ by {
        assert(listed[i] != listed[j]);
    }
}

/// Whether two states agree in everything but the dead letters.
pub open spec fn only_letters_differ(a: state::AppView, b: state::AppView) -> bool {
    &&& state_calls::same_configuration(a, b)
    &&& state_calls::same_sessions_and_tags(a, b)
    &&& a.webhooks == b.webhooks
    &&& a.webhook_circuits == b.webhook_circuits
    &&& a.event_ring == b.event_ring
}

/// Whether `after` keeps `entry` as the newest dead letter of its session, with those before it
/// that the capacity has room for, and the letters of every other session.
pub open spec fn keeps_letter(
    app: state::AppView,
    after: state::AppView,
    entry: crate::webhooks::DlqView,
) -> bool {
    let queue = deliveries::letters(after, entry.session_id);
    let before = deliveries::letters(app, entry.session_id);
    &&& queue.len() == (if before.len() < app.webhook_retry.dlq_capacity {
        before.len() + 1
    } else {
        app.webhook_retry.dlq_capacity as nat
    })
    &&& queue.len() > 0
    &&& queue.last() == entry
    &&& forall|i: int|
        0 <= i < queue.len() - 1 ==> #[trigger] queue[i] == before[i + before.len() - queue.len()
            + 1]
    &&& forall|other: Seq<char>|
        other != entry.session_id ==> #[trigger] deliveries::letters(after, other)
            == deliveries::letters(app, other)
}

/// A dead letter is kept as the newest of its session; past the capacity the oldest go.
pub proof fn law_push_letter(s: &mut AppState, entry: WebhookDlqEntry)
    requires
        old(s)@.wf(),
        call_ensures(AppState::webhook_dlq_push, (s, entry), ()),
    ensures
        keeps_letter(old(s)@, final(s)@, entry@),
        only_letters_differ(final(s)@, old(s)@),
{
    deliveries::law_dead_letter_is_queued(old(s)@, entry@);
}

/// The dead letters of a session are listed newest first.
pub proof fn law_letters_listed(s: &AppState, id: &str, list: Vec<WebhookDlqEntry>)
    requires
        call_ensures(AppState::webhook_dlq_list, (s, id), list),
    ensures
        list@.len() == deliveries::letters(s@, id@).len(),
        forall|i: int|
            0 <= i < list@.len() ==> (#[trigger] list@[i])@
                == deliveries::letters(s@, id@)[list@.len() - 1 - i],
{
    let views = crate::registry::dlq_views(list@);
    assert(views.len() == list@.len());
    assert(deliveries::letters(s@, id@) == crate::registry::queue_of(s@.webhook_dlq, id@));
    assert forall|i: int| 0 <= i < list@.len() implies (#[trigger] list@[i])@
        == deliveries::letters(s@, id@)[list@.len() - 1 - i] by {
        assert(views[i] == list@[i]@);
    }
}

/// Taking a dead letter hands out the oldest of the session with that id and takes no other; where
/// none has the id, nothing is taken.
pub proof fn law_take_letter(
    s: &mut AppState,
    id: &str,
    entry_id: &str,
    taken: Option<WebhookDlqEntry>,
)
    requires
        call_ensures(AppState::webhook_dlq_take, (s, id, entry_id), taken),
    ensures
        taken is None <==> forall|i: int|
            0 <= i < deliveries::letters(old(s)@, id@).len() ==> (#[trigger] deliveries::letters(
                old(s)@,
                id@,
            )[i]).id != entry_id@,
        taken is None ==> final(s)@ == old(s)@,
        taken is Some ==> taken->0.id@ == entry_id@,
        taken is Some ==> exists|i: int|
            #![trigger deliveries::letters(old(s)@, id@)[i]]
            0 <= i < deliveries::letters(old(s)@, id@).len() && deliveries::letters(old(s)@, id@)[i]
                == taken->0@ && (forall|j: int|
                0 <= j < i ==> (#[trigger] deliveries::letters(old(s)@, id@)[j]).id != entry_id@)
                && deliveries::letters(final(s)@, id@) == deliveries::letters(
                old(s)@,
                id@,
            ).remove(i),
        forall|other: Seq<char>|
            other != id@ ==> #[trigger] deliveries::letters(final(s)@, other)
                == deliveries::letters(old(s)@, other),
        only_letters_differ(final(s)@, old(s)@),
{
    let queue = deliveries::letters(old(s)@, id@);
    assert(queue == crate::registry::queue_of(old(s)@.webhook_dlq, id@));
    if taken is Some {
        let i = choose|i: int| #[trigger]
            crate::registry::first_with_id(queue, entry_id@, i) && taken->0@ == queue[i]
                && final(s)@ == (state::AppView {
                webhook_dlq: old(s)@.webhook_dlq.insert(id@, queue.remove(i)),
                ..old(s)@
            });
        assert(queue[i] == taken->0@);
        assert(deliveries::letters(final(s)@, id@) == queue.remove(i));
    }
}

/// A webhook subscribes to an event exactly where one of its filters is among those that match.
pub proof fn law_subscription(
    config: &WebhookConfig,
    matching: &Vec<String>,
    subscribed: bool,
    i: int,
    j: int,
)
    requires
        call_ensures(WebhookConfig::subscribes, (config, matching), subscribed),
    ensures
        0 <= i < config.events@.len() && 0 <= j < matching@.len() && config.events@[i]@
            == matching@[j]@ ==> subscribed,
        subscribed ==> exists|m: int, n: int|
            0 <= m < config.events@.len() && 0 <= n < matching@.len()
                && (#[trigger] config.events@[m])@ == (#[trigger] matching@[n])@,
{
    let filters = config@.events;
    let texts = text::texts(matching@);
    if 0 <= i < config.events@.len() && 0 <= j < matching@.len() && config.events@[i]@
        == matching@[j]@ {
        assert(filters[i] == config.events@[i]@ && texts[j] == matching@[j]@);
        assert(texts.contains(filters[i]));
    }
    if subscribed {
        let m = choose|m: int| 0 <= m < filters.len() && texts.contains(#[trigger] filters[m]);
        let n = choose|n: int| 0 <= n < texts.len() && texts[n] == filters[m];
        assert(config.events@[m]@ == matching@[n]@);
    }
}

/// Whether an event that exactly the filters `matching` match is due at a webhook at `now`.
pub open spec fn is_target(
    app: state::AppView,
    id: Seq<char>,
    webhook: Seq<char>,
    matching: Seq<Seq<char>>,
    now: u128,
) -> bool {
    &&& state_calls::is_registered(app, id, webhook)
    &&& app.webhooks[id][webhook].enabled
    &&& exists|m: int|
        0 <= m < app.webhooks[id][webhook].events.len() && matching.contains(
            #[trigger] app.webhooks[id][webhook].events[m],
        )
    &&& !cools_down(app, app.webhooks[id][webhook].url, now)
}

/// Whether one of `runs` delivers the event to the webhook.
pub open spec fn one_runs_to(
    runs: Seq<DeliveryRun>,
    app: state::AppView,
    id: Seq<char>,
    webhook: Seq<char>,
    event: Seq<char>,
    payload: Seq<char>,
) -> bool {
    exists|r: int|
        0 <= r < runs.len() && circuits::is_run_to(
            (#[trigger] runs[r])@,
            app,
            id,
            webhook,
            event,
            payload,
        )
}

/// A broadcast shows the event on the console and starts one run to each enabled webhook of the
/// session that subscribes to the event and is not in a cooldown; as many runs as such webhooks.
pub proof fn law_broadcast(
    s: &mut AppState,
    id: &str,
    event: &str,
    payload: &str,
    matching: &Vec<String>,
    now: u128,
    at: i64,
    runs: Vec<DeliveryRun>,
    targets: Seq<Seq<char>>,
)
    requires
        call_ensures(
            AppState::broadcast_to_webhooks_at,
            (s, id, event, payload, matching, now, at),
            runs,
        ),
        targets.no_duplicates(),
        forall|webhook: Seq<char>| #[trigger]
            targets.contains(webhook) <==> is_target(
                old(s)@,
                id@,
                webhook,
                text::texts(matching@),
                now,
            ),
    ensures
        runs@.len() == targets.len(),
        forall|k: int|
            0 <= k < targets.len() ==> one_runs_to(
                runs@,
                old(s)@,
                id@,
                #[trigger] targets[k],
                event@,
                payload@,
            ),
        final(s)@.event_ring.len() > 0,
        final(s)@.event_ring.last().session_id == id@,
        final(s)@.event_ring.last().event_type == event@,
        final(s)@.event_ring.last().at_epoch_ms == at,
        state_calls::same_configuration(final(s)@, old(s)@),
        state_calls::same_registrations(final(s)@, old(s)@),
        state_calls::same_sessions_and_tags(final(s)@, old(s)@),
        final(s)@.webhook_circuits == old(s)@.webhook_circuits,
{
    let app = old(s)@;
    let filters = text::texts(matching@);
    circuits::law_one_run_per_webhook(app, id@, event@, payload@, filters, now, runs@);
    let goes = Set::new(|webhook: Seq<char>| app.dispatches(id@, webhook, filters, now));
    assert forall|webhook: Seq<char>| targets.to_set().contains(webhook) <==> goes.contains(
        webhook,
    ) by {
        assert(targets.contains(webhook) <==> is_target(app, id@, webhook, filters, now));
    }
    assert(targets.to_set() =~= goes);
    targets.unique_seq_to_set();
    assert forall|k: int| 0 <= k < targets.len() implies one_runs_to(
        runs@,
        app,
        id@,
        #[trigger] targets[k],
        event@,
        payload@,
    ) by {
        assert(targets.contains(targets[k]));
        assert(app.dispatches(id@, targets[k], filters, now));
    }
}

/// Whether a run delivers the event to a webhook of the session that it is due at.
pub open spec fn runs_to_target(
    run: DeliveryRun,
    app: state::AppView,
    id: Seq<char>,
    event: Seq<char>,
    payload: Seq<char>,
    matching: Seq<Seq<char>>,
    now: u128,
) -> bool {
    exists|webhook: Seq<char>| #[trigger]
        is_target(app, id, webhook, matching, now) && circuits::is_run_to(
            run@,
            app,
            id,
            webhook,
            event,
            payload,
        )
}

/// Whether the runs deliver the event to each webhook of the session that it is due at, and to no
/// other: as many runs as such webhooks.
pub open spec fn reaches_targets(
    runs: Seq<DeliveryRun>,
    app: state::AppView,
    id: Seq<char>,
    event: Seq<char>,
    payload: Seq<char>,
    matching: Seq<Seq<char>>,
    now: u128,
) -> bool {
    &&& forall|webhook: Seq<char>| #[trigger]
        is_target(app, id, webhook, matching, now) ==> one_runs_to(
            runs,
            app,
            id,
            webhook,
            event,
            payload,
        )
    &&& forall|k: int|
        0 <= k < runs.len() ==> runs_to_target(
            #[trigger] runs[k],
            app,
            id,
            event,
            payload,
            matching,
            now,
        )
    &&& runs.len() == Set::new(
        |webhook: Seq<char>| is_target(app, id, webhook, matching, now),
    ).len()
}

proof fn lemma_reaches(
    runs: Seq<DeliveryRun>,
    app: state::AppView,
    id: Seq<char>,
    event: Seq<char>,
    payload: Seq<char>,
    matching: Seq<Seq<char>>,
    now: u128,
)
    requires
        state::is_dispatch(app, id, event, payload, matching, now, runs),
    ensures
        reaches_targets(runs, app, id, event, payload, matching, now),
{
    circuits::law_one_run_per_webhook(app, id, event, payload, matching, now, runs);
    assert(Set::new(|webhook: Seq<char>| is_target(app, id, webhook, matching, now)) =~= Set::new(
        |webhook: Seq<char>| app.dispatches(id, webhook, matching, now),
    ));
    assert forall|webhook: Seq<char>| #[trigger]
        is_target(app, id, webhook, matching, now) implies one_runs_to(
        runs,
        app,
        id,
        webhook,
        event,
        payload,
    ) by {
        assert(app.dispatches(id, webhook, matching, now));
    }
    assert forall|k: int| 0 <= k < runs.len() implies runs_to_target(
        #[trigger] runs[k],
        app,
        id,
        event,
        payload,
        matching,
        now,
    ) by {
        assert(circuits::is_due(runs[k]@, app, id, event, payload, matching, now));
        let webhook = choose|webhook: Seq<char>| #[trigger]
            app.dispatches(id, webhook, matching, now) && circuits::is_run_to(
                runs[k]@,
                app,
                id,
                webhook,
                event,
                payload,
            );
        assert(is_target(app, id, webhook, matching, now));
    }
}

/// A broadcast that reads the clock itself starts a run to each webhook that the event is due at,
/// at a time that has passed since the state was made, and to no other.
pub proof fn law_broadcast_right_now(
    s: &mut AppState,
    id: &str,
    event: &str,
    payload: &str,
    matching: &Vec<String>,
    runs: Vec<DeliveryRun>,
)
    requires
        call_ensures(AppState::broadcast_to_webhooks, (s, id, event, payload, matching), runs),
    ensures
        exists|now: u128| #[trigger]
            clock::had_passed(old(s)@.clock_origin, now) && reaches_targets(
                runs@,
                old(s)@,
                id@,
                event@,
                payload@,
                text::texts(matching@),
                now,
            ),
        final(s)@.webhook_circuits == old(s)@.webhook_circuits,
        state_calls::same_registrations(final(s)@, old(s)@),
        state_calls::same_configuration(final(s)@, old(s)@),
        state_calls::same_sessions_and_tags(final(s)@, old(s)@),
{
    let app = old(s)@;
    let filters = text::texts(matching@);
    let now = choose|now: u128| #[trigger]
        clock::had_passed(app.clock_origin, now) && clock::is_reading(now) && state::is_dispatch(
            app,
            id@,
            event@,
            payload@,
            filters,
            now,
            runs@,
        );
    assert(reaches_targets(runs@, app, id@, event@, payload@, filters, now)) by {
        lemma_reaches(runs@, app, id@, event@, payload@, filters, now);
    }
    assert(clock::had_passed(app.clock_origin, now));
}

/// Whether the target accepted an attempt: it answered with a code from 200 to 299.
pub open spec fn was_accepted(outcome: AttemptOutcome) -> bool {
    outcome matches AttemptOutcome::Response { code } && 200 <= code <= 299
}

/// Whether an attempt that was not accepted is worth another: no answer, or one with a code
/// outside of 400 to 499, or with 408 or 429, always is; any other only where the run says so.
pub open spec fn is_worth_another(run: DeliveryRun, outcome: AttemptOutcome) -> bool {
    match outcome {
        AttemptOutcome::Failed { error } => true,
        AttemptOutcome::Response { code } => code < 400 || code > 499 || code == 408 || code == 429
            || run.retry_on_4xx,
    }
}

/// How long to wait before an attempt, counted from zero.
pub open spec fn wait_before(attempt: nat) -> nat {
    if attempt == 0 {
        0
    } else if attempt == 1 {
        5
    } else if attempt == 2 {
        30
    } else if attempt == 3 {
        60
    } else if attempt == 4 {
        120
    } else if attempt == 5 {
        240
    } else {
        300
    }
}

/// An accepted attempt ends the run and the failures of its target.
pub proof fn law_accepted(
    s: &mut AppState,
    run: &mut DeliveryRun,
    outcome: &AttemptOutcome,
    id: String,
    now: u128,
    failed_at: i64,
    step: DeliveryStep,
)
    requires
        call_ensures(AppState::deliver_webhook_at, (s, run, outcome, id, now, failed_at), step),
        was_accepted(*outcome),
    ensures
        step is Delivered,
        final(run)@ == old(run)@,
        forgives(old(s)@, final(s)@, old(run).url@, now),
        only_circuits_differ(final(s)@, old(s)@),
{
}

/// An attempt that was not accepted, is worth another and has one left is made again after a wait,
/// and is not counted against the target.
pub proof fn law_retried(
    s: &mut AppState,
    run: &mut DeliveryRun,
    outcome: &AttemptOutcome,
    id: String,
    now: u128,
    failed_at: i64,
    step: DeliveryStep,
)
    requires
        call_ensures(AppState::deliver_webhook_at, (s, run, outcome, id, now, failed_at), step),
        !was_accepted(*outcome),
        is_worth_another(*old(run), *outcome),
        old(run).attempt + 1 < old(run).max_attempts,
    ensures
        step is Retry,
        step->wait_secs == wait_before((old(run).attempt + 1) as nat),
        final(run).attempt == old(run).attempt + 1,
        final(run).max_attempts == old(run).max_attempts,
        final(run).retry_on_4xx == old(run).retry_on_4xx,
        final(run).session_id@ == old(run).session_id@,
        final(run).event@ == old(run).event@,
        final(run).url@ == old(run).url@,
        final(run).payload@ == old(run).payload@,
        final(run)@.secret == old(run)@.secret,
        final(s)@ == old(s)@,
{
    let attempt = (old(run).attempt + 1) as nat;
    deliveries::law_waits(if attempt >= 6 {
        attempt
    } else {
        6
    });
    assert(old(run)@.verdict(outcome@) == delivery::Verdict::Retry);
    assert(step@ is Retry);
    assert(final(run)@ == old(run)@.retried());
}

/// The last attempt of a run, and one that is not worth another, counts against the target where
/// it was not accepted: by one failure. The hundredth in a row takes every registration for the
/// URL out, with its circuit. The payload is kept as the newest dead letter of the session, as it
/// was to be delivered.
pub proof fn law_given_up(
    s: &mut AppState,
    run: &mut DeliveryRun,
    outcome: &AttemptOutcome,
    id: String,
    now: u128,
    failed_at: i64,
    step: DeliveryStep,
)
    requires
        old(s)@.wf(),
        clock::is_reading(now),
        call_ensures(AppState::deliver_webhook_at, (s, run, outcome, id, now, failed_at), step),
        !was_accepted(*outcome),
        !is_worth_another(*old(run), *outcome) || old(run).attempt + 1 >= old(run).max_attempts,
    ensures
        step is DeadLettered,
        step->action == leads_to(old(s)@, old(run).url@),
        step->attempts == old(run).max_attempts,
        *outcome matches AttemptOutcome::Failed { error } ==> step->last_error@ == error@,
        *outcome matches AttemptOutcome::Response { code } ==> step->last_error@ == "HTTP "@
            + delivery::status_text(code),
        step->disable_reason is Some <==> circuits::failures_of(old(s)@, old(run).url@) >= 99,
        step->disable_reason is Some ==> step->disable_reason->0@ == "100 consecutive failures ("@
            + step->last_error@ + ")"@,
        final(run)@ == old(run)@,
        circuits::failures_of(old(s)@, old(run).url@) < 99 ==> circuits::counts_one_more(
            old(s)@,
            final(s)@,
            old(run).url@,
            now,
        ) && final(s)@.webhooks == old(s)@.webhooks,
        circuits::failures_of(old(s)@, old(run).url@) >= 99
            ==> !final(s)@.webhook_circuits.contains_key(old(run).url@) && forall|
            i: Seq<char>,
            w: Seq<char>,
        | #[trigger]
            state_calls::is_registered(final(s)@, i, w) <==> state_calls::is_registered(
                old(s)@,
                i,
                w,
            ) && old(s)@.webhooks[i][w].url != old(run).url@,
        forall|other: Seq<char>|
            other != old(run).url@ ==> (#[trigger] final(s)@.webhook_circuits.contains_key(other)
                <==> old(s)@.webhook_circuits.contains_key(other)),
        forall|other: Seq<char>|
            other != old(run).url@ && old(s)@.webhook_circuits.contains_key(other)
                ==> #[trigger] final(s)@.webhook_circuits[other]
                == old(s)@.webhook_circuits[other],
        keeps_letter(
            old(s)@,
            final(s)@,
            crate::webhooks::DlqView {
                id: id@,
                session_id: old(run).session_id@,
                webhook_url: old(run).url@,
                event: old(run).event@,
                payload: old(run).payload@,
                secret: old(run)@.secret,
                last_error: step->last_error@,
                attempts: old(run).max_attempts,
                failed_at,
            },
        ),
        state_calls::same_configuration(final(s)@, old(s)@),
        state_calls::same_sessions_and_tags(final(s)@, old(s)@),
        final(s)@.event_ring == old(s)@.event_ring,
{
    let url = old(run).url@;
    assert(old(run)@.verdict(outcome@) == delivery::Verdict::GiveUp);
    assert(step@ is DeadLettered);
    circuits::law_failure_is_counted(old(s)@, url, now);
    let failed = old(s)@.with_failure(url, now);
    let purged = if old(s)@.failure_action(url, now) == WebhookFailureAction::HardDisable {
        failed.without_url(url)
    } else {
        failed
    };
    assert(purged.wf());
    deliveries::law_dead_letter_is_queued(
        purged,
        old(run)@.dead_letter(id@, outcome@.error(), failed_at),
    );
    assert(step->last_error@ == outcome@.error());
}

/// A run starts with its first attempt and what it is to deliver; it has as many attempts as are
/// configured, and one at least.
pub proof fn law_start(
    s: &AppState,
    id: &str,
    event: &str,
    url: &str,
    secret: Option<String>,
    payload: &str,
    run: DeliveryRun,
)
    requires
        call_ensures(AppState::start_delivery, (s, id, event, url, secret, payload), run),
    ensures
        run.session_id@ == id@,
        run.event@ == event@,
        run.url@ == url@,
        run.payload@ == payload@,
        run.secret is Some <==> secret is Some,
        secret is Some ==> run.secret->0@ == secret->0@,
        run.attempt == 0,
        run.retry_on_4xx == s@.webhook_retry.retry_on_4xx,
        run.max_attempts >= 1,
        s@.webhook_retry.max_attempts >= 1 ==> run.max_attempts == s@.webhook_retry.max_attempts,
{
    assert(run@.secret == text::opt_text(secret));
}

/// The calls that read the monotonic clock use a time that has passed since the state was made.
pub proof fn law_monotonic_clock_calls(
    r: &AppState,
    s: &mut AppState,
    u: &mut AppState,
    w: &mut AppState,
    url: &str,
    allowed: bool,
    count: usize,
    action: WebhookFailureAction,
    urls: Vec<String>,
)
    requires
        call_ensures(AppState::webhook_circuits_open_count, (r,), count),
        call_ensures(AppState::webhook_circuit_allows, (r, url), allowed),
        call_ensures(AppState::webhook_record_success, (s, url), ()),
        call_ensures(AppState::webhook_record_failure, (u, url), action),
        call_ensures(AppState::reenable_all_open_circuits, (w,), urls),
    ensures
        exists|now: u128| #[trigger]
            clock::had_passed(r@.clock_origin, now) && (allowed <==> !cools_down(r@, url@, now)),
        exists|now: u128| #[trigger]
            clock::had_passed(r@.clock_origin, now) && count == Set::new(
                |other: Seq<char>| cools_down(r@, other, now),
            ).len(),
        exists|now: u128| #[trigger]
            clock::had_passed(old(s)@.clock_origin, now) && forgives(
                old(s)@,
                final(s)@,
                url@,
                now,
            ),
        only_circuits_differ(final(s)@, old(s)@),
        exists|now: u128| #[trigger]
            clock::had_passed(old(u)@.clock_origin, now) && circuits::counts_one_more(
                old(u)@,
                final(u)@,
                url@,
                now,
            ),
        action == leads_to(old(u)@, url@),
        only_circuits_differ(final(u)@, old(u)@),
        exists|now: u128| #[trigger]
            clock::had_passed(old(w)@.clock_origin, now) && (forall|other: Seq<char>| #[trigger]
                text::texts(urls@).contains(other) <==> cools_down(old(w)@, other, now)),
        only_circuits_differ(final(w)@, old(w)@),
{
    let now = choose|now: u128| #[trigger]
        clock::had_passed(r@.clock_origin, now) && clock::is_reading(now) && allowed
            == !crate::circuits::circuit_open(r@.webhook_circuits, url@, now);
    assert(clock::had_passed(r@.clock_origin, now) && (allowed <==> !cools_down(r@, url@, now)));
    let now = choose|now: u128| #[trigger]
        clock::had_passed(r@.clock_origin, now) && clock::is_reading(now) && count
            == crate::circuits::open_urls(r@.webhook_circuits, now).len();
    assert(crate::circuits::open_urls(r@.webhook_circuits, now) =~= Set::new(
        |other: Seq<char>| cools_down(r@, other, now),
    ));
    assert(clock::had_passed(r@.clock_origin, now));
    let now = choose|now: u128| #[trigger]
        clock::had_passed(old(s)@.clock_origin, now) && clock::is_reading(now)
            && final(s)@ == old(s)@.with_success(url@, now);
    assert(clock::had_passed(old(s)@.clock_origin, now) && forgives(
        old(s)@,
        final(s)@,
        url@,
        now,
    ));
    let now = choose|now: u128| #[trigger]
        clock::had_passed(old(u)@.clock_origin, now) && clock::is_reading(now)
            && final(u)@ == old(u)@.with_failure(url@, now)
            && action == old(u)@.failure_action(url@, now);
    assert(clock::had_passed(old(u)@.clock_origin, now) && circuits::counts_one_more(
        old(u)@,
        final(u)@,
        url@,
        now,
    ));
    let now = choose|now: u128| #[trigger]
        clock::had_passed(old(w)@.clock_origin, now) && clock::is_reading(now)
            && final(w)@ == old(w)@.with_circuits_reset(now) && text::texts(urls@).to_set()
            == crate::circuits::open_urls(old(w)@.webhook_circuits, now);
    assert forall|other: Seq<char>| #[trigger] text::texts(urls@).contains(other)
        <==> cools_down(old(w)@, other, now) by {
        assert(text::texts(urls@).contains(other) <==> text::texts(urls@).to_set().contains(other));
    }
    assert(clock::had_passed(old(w)@.clock_origin, now));
}

/// What is stamped with the time of day is stamped with one that the wall clock showed: an event on
/// the console, shown alone or with its broadcast, and a dead letter, which also has an id that was
/// drawn at random.
pub proof fn law_stamps(
    s: &mut AppState,
    u: &mut AppState,
    w: &mut AppState,
    id: &str,
    event: &str,
    payload: &str,
    matching: &Vec<String>,
    runs: Vec<DeliveryRun>,
    run: &mut DeliveryRun,
    outcome: &AttemptOutcome,
    step: DeliveryStep,
)
    requires
        call_ensures(AppState::push_event, (s, id, event, payload), ()),
        call_ensures(AppState::broadcast_to_webhooks, (u, id, event, payload, matching), runs),
        call_ensures(AppState::deliver_webhook, (w, run, outcome), step),
        old(w)@.wf(),
    ensures
        final(s)@.event_ring.len() > 0,
        clock::was_shown_millis(final(s)@.event_ring.last().at_epoch_ms),
        final(s)@.event_ring.last().session_id == id@,
        final(s)@.event_ring.last().event_type == event@,
        final(u)@.event_ring.len() > 0,
        clock::was_shown_millis(final(u)@.event_ring.last().at_epoch_ms),
        final(u)@.event_ring.last().session_id == id@,
        final(u)@.event_ring.last().event_type == event@,
        step is DeadLettered ==> deliveries::letters(final(w)@, old(run).session_id@).len() > 0,
        step is DeadLettered ==> clock::was_shown(
            deliveries::letters(final(w)@, old(run).session_id@).last().failed_at,
        ),
        step is DeadLettered ==> delivery::was_drawn(
            deliveries::letters(final(w)@, old(run).session_id@).last().id,
        ),
        step is DeadLettered ==> deliveries::letters(
            final(w)@,
            old(run).session_id@,
        ).last().payload == old(run).payload@,
        step is Delivered <==> was_accepted(*outcome),
        step is Retry <==> !was_accepted(*outcome) && is_worth_another(*old(run), *outcome)
            && old(run).attempt + 1 < old(run).max_attempts,
        step is Delivered ==> circuits::failures_of(final(w)@, old(run).url@) == 0,
        step is Retry ==> final(w)@ == old(w)@,
        step is Retry ==> final(run).attempt == old(run).attempt + 1 && step->wait_secs
            == wait_before((old(run).attempt + 1) as nat),
        step !is Retry ==> final(run).attempt == old(run).attempt,
        final(run)@ == (delivery::RunView { attempt: final(run).attempt, ..old(run)@ }),
        step is DeadLettered ==> step->action == leads_to(old(w)@, old(run).url@) && step->attempts
            == old(run).max_attempts,
        step is DeadLettered ==> (step->disable_reason is Some <==> circuits::failures_of(
            old(w)@,
            old(run).url@,
        ) >= 99),
        step is DeadLettered ==> deliveries::letters(
            final(w)@,
            old(run).session_id@,
        ).last().last_error == step->last_error@,
        step is DeadLettered && circuits::failures_of(old(w)@, old(run).url@) < 99
            ==> circuits::failures_of(final(w)@, old(run).url@) == circuits::failures_of(
            old(w)@,
            old(run).url@,
        ) + 1,
{
    let at = choose|at: i64| #[trigger]
        clock::was_shown_millis(at) && clock::is_wall_millis(at) && final(s)@
            == old(s)@.with_event(id@, event@, payload@, at);
    assert(final(s)@.event_ring.last().at_epoch_ms == at);
    let at = choose|at: i64| #[trigger]
        clock::was_shown_millis(at) && clock::is_wall_millis(at) && final(u)@
            == old(u)@.with_event(id@, event@, payload@, at);
    assert(final(u)@.event_ring.last().at_epoch_ms == at);
    let (drawn, now, failed_at) = choose|drawn: Seq<char>, now: u128, failed_at: i64|
        {
            &&& #[trigger] delivery::was_drawn(drawn)
            &&& #[trigger] clock::had_passed(old(w)@.clock_origin, now)
            &&& #[trigger] clock::was_shown(failed_at)
            &&& delivery::is_random_uuid(drawn)
            &&& clock::is_reading(now)
            &&& clock::is_wall_time(failed_at)
            &&& final(w)@ == old(w)@.after_attempt(old(run)@, outcome@, drawn, now, failed_at)
            &&& step@ == old(w)@.step(old(run)@, outcome@, now)
        };
    let url = old(run).url@;
    let attempt = (old(run).attempt + 1) as nat;
    deliveries::law_waits(if attempt >= 6 {
        attempt
    } else {
        6
    });
    circuits::law_failure_is_counted(old(w)@, url, now);
    assert(step is Delivered <==> step@ is Delivered);
    assert(step is Retry <==> step@ is Retry);
    assert(step is DeadLettered <==> step@ is DeadLettered);
    if step is DeadLettered {
        let failed = old(w)@.with_failure(url, now);
        let purged = if old(w)@.failure_action(url, now) == WebhookFailureAction::HardDisable {
            failed.without_url(url)
        } else {
            failed
        };
        assert(purged.wf());
        deliveries::law_dead_letter_is_queued(
            purged,
            old(run)@.dead_letter(drawn, outcome@.error(), failed_at),
        );
    }
}

} // verus!
