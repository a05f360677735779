//! Laws of delivery runs, of the backoff between their attempts, and of the dead letters.

use crate::config;
use crate::delivery;
use crate::delivery::Verdict;
use crate::events;
use crate::registry;
use crate::state;
use crate::webhooks;
use vstd::prelude::*;

verus! {

/// The first attempt is immediate; the wait never shrinks from one attempt to the next, and is
/// never longer than five minutes.
pub proof fn law_backoff(earlier: nat, later: nat)
    requires
        earlier <= later,
    ensures
        config::retry_delay_secs(0) == 0,
        config::retry_delay_secs(earlier) <= config::retry_delay_secs(later) <= 300,
{
    vstd::arithmetic::power2::lemma2_to64();
    if earlier >= 3 && earlier < later {
        vstd::arithmetic::power2::lemma_pow2_strictly_increases(
            (earlier - 3) as nat,
            (later - 3) as nat,
        );
    }
    if later > 3 {
        vstd::arithmetic::power2::lemma_pow2_strictly_increases(0, (later - 3) as nat);
    }
    if later >= 3 {
        vstd::arithmetic::power2::lemma_pow2_pos((later - 3) as nat);
    }
}

/// From the fourth attempt on the wait doubles, from a minute, until it reaches five minutes.
pub proof fn law_backoff_doubles(attempt: nat)
    requires
        attempt >= 3,
    ensures
        config::retry_delay_secs(3) == 60,
        config::retry_delay_secs(attempt + 1) == (if 2 * config::retry_delay_secs(attempt)
            <= 300 {
            2 * config::retry_delay_secs(attempt)
        } else {
            300
        }),
{
    vstd::arithmetic::power2::lemma2_to64();
    vstd::arithmetic::power2::lemma_pow2_unfold((attempt - 2) as nat);
    vstd::arithmetic::power2::lemma_pow2_pos((attempt - 3) as nat);
}

/// The run that is left after an attempt.
pub open spec fn run_after(run: delivery::RunView, outcome: delivery::OutcomeView) -> delivery::RunView {
    if run.verdict(outcome) == Verdict::Retry {
        run.retried()
    } else {
        run
    }
}

/// How many attempts a run makes of those whose outcomes are given.
pub open spec fn attempts_made(run: delivery::RunView, outcomes: Seq<delivery::OutcomeView>) -> nat
    decreases outcomes.len(),
{
    if outcomes.len() == 0 {
        0
    } else if run.verdict(outcomes.first()) == Verdict::Retry {
        1 + attempts_made(run.retried(), outcomes.drop_first())
    } else {
        1
    }
}

/// What the last attempt of a run leads to, of those whose outcomes are given.
pub open spec fn last_verdict(run: delivery::RunView, outcomes: Seq<delivery::OutcomeView>) -> Verdict
    decreases outcomes.len(),
{
    if outcomes.len() == 0 {
        Verdict::Retry
    } else if run.verdict(outcomes.first()) == Verdict::Retry {
        last_verdict(run.retried(), outcomes.drop_first())
    } else {
        run.verdict(outcomes.first())
    }
}

/// The state after a run's attempts, of those whose outcomes are given.
pub open spec fn after_run(
    app: state::AppView,
    run: delivery::RunView,
    outcomes: Seq<delivery::OutcomeView>,
    id: Seq<char>,
    now: u128,
    failed_at: i64,
) -> state::AppView
    decreases outcomes.len(),
{
    if outcomes.len() == 0 {
        app
    } else {
        let next = app.after_attempt(run, outcomes.first(), id, now, failed_at);
        if run.verdict(outcomes.first()) == Verdict::Retry {
            after_run(next, run.retried(), outcomes.drop_first(), id, now, failed_at)
        } else {
            next
        }
    }
}

/// A run makes no more attempts than it may, and by then it has ended.
pub proof fn law_run_is_bounded(run: delivery::RunView, outcomes: Seq<delivery::OutcomeView>)
    requires
        run.wf(),
    ensures
        attempts_made(run, outcomes) <= run.max_attempts - run.attempt,
        outcomes.len() >= run.max_attempts - run.attempt ==> last_verdict(run, outcomes)
            != Verdict::Retry,
    decreases outcomes.len(),
{
    if outcomes.len() > 0 && run.verdict(outcomes.first()) == Verdict::Retry {
        law_run_is_bounded(run.retried(), outcomes.drop_first());
    }
}

/// A fresh run may make as many attempts as are configured, and at least one.
pub proof fn law_fresh_run(
    config: crate::config::WebhookRetryConfig,
    session_id: Seq<char>,
    event: Seq<char>,
    url: Seq<char>,
    secret: Option<Seq<char>>,
    payload: Seq<char>,
)
    ensures
        ({
            let run = delivery::RunView::start(config, session_id, event, url, secret, payload);
            &&& run.wf()
            &&& run.attempt == 0
            &&& run.max_attempts >= 1
            &&& config.max_attempts >= 1 ==> run.max_attempts == config.max_attempts
        }),
{
}

/// A run whose first attempts are to be retried and whose last is accepted ends in success: the
/// circuit of its URL is closed, nothing is dead-lettered, and nothing else changes.
pub proof fn law_delivered_run(
    app: state::AppView,
    run: delivery::RunView,
    outcomes: Seq<delivery::OutcomeView>,
    id: Seq<char>,
    now: u128,
    failed_at: i64,
)
    requires
        last_verdict(run, outcomes) == Verdict::Delivered,
    ensures
        after_run(app, run, outcomes, id, now, failed_at) == app.with_success(run.url, now),
        after_run(app, run, outcomes, id, now, failed_at).webhook_dlq == app.webhook_dlq,
        exists|i: int| 0 <= i < outcomes.len() && (#[trigger] outcomes[i]).accepted(),
    decreases outcomes.len(),
{
    if outcomes.len() > 0 && run.verdict(outcomes.first()) == Verdict::Retry {
        law_delivered_run(app, run.retried(), outcomes.drop_first(), id, now, failed_at);
        let rest = outcomes.drop_first();
        let i = choose|i: int| 0 <= i < rest.len() && (#[trigger] rest[i]).accepted();
        assert(outcomes[i + 1].accepted());
    } else {
        assert(outcomes[0].accepted());
    }
}

/// The outcome of the last attempt that a run makes, of those whose outcomes are given.
pub open spec fn last_outcome(
    run: delivery::RunView,
    outcomes: Seq<delivery::OutcomeView>,
) -> delivery::OutcomeView {
    outcomes[attempts_made(run, outcomes) - 1]
}

proof fn lemma_attempts_made(run: delivery::RunView, outcomes: Seq<delivery::OutcomeView>)
    ensures
        attempts_made(run, outcomes) <= outcomes.len(),
        outcomes.len() > 0 ==> attempts_made(run, outcomes) > 0,
    decreases outcomes.len(),
{
    if outcomes.len() > 0 && run.verdict(outcomes.first()) == Verdict::Retry {
        lemma_attempts_made(run.retried(), outcomes.drop_first());
    }
}

/// A run that ends without success adds one dead letter to the queue of its session, as its
/// newest and with the error of the last attempt, and none to any other queue.
pub proof fn law_given_up_run(
    app: state::AppView,
    run: delivery::RunView,
    outcomes: Seq<delivery::OutcomeView>,
    id: Seq<char>,
    now: u128,
    failed_at: i64,
)
    requires
        last_verdict(run, outcomes) == Verdict::GiveUp,
    ensures
        after_run(app, run, outcomes, id, now, failed_at) == app.given_up(
            run,
            last_outcome(run, outcomes).error(),
            id,
            now,
            failed_at,
        ),
        registry::queue_of(
            after_run(app, run, outcomes, id, now, failed_at).webhook_dlq,
            run.session_id,
        ) == events::ring_pushed(
            registry::queue_of(app.webhook_dlq, run.session_id),
            app.webhook_retry.dlq_capacity as nat,
            run.dead_letter(id, last_outcome(run, outcomes).error(), failed_at),
        ),
        forall|other: Seq<char>|
            other != run.session_id ==> #[trigger] registry::queue_of(
                after_run(app, run, outcomes, id, now, failed_at).webhook_dlq,
                other,
            ) == registry::queue_of(app.webhook_dlq, other),
    decreases outcomes.len(),
{
    if outcomes.len() > 0 && run.verdict(outcomes.first()) == Verdict::Retry {
        let rest = outcomes.drop_first();
        law_given_up_run(app, run.retried(), rest, id, now, failed_at);
        lemma_attempts_made(run.retried(), rest);
        assert(last_outcome(run, outcomes) == last_outcome(run.retried(), rest));
        assert(forall|error: Seq<char>|
            run.dead_letter(id, error, failed_at) == run.retried().dead_letter(
                id,
                error,
                failed_at,
            ));
    }
}

/// An attempt that is to be retried changes nothing but which attempt is next.
pub proof fn law_retry_changes_nothing(
    app: state::AppView,
    run: delivery::RunView,
    outcome: delivery::OutcomeView,
    id: Seq<char>,
    now: u128,
    failed_at: i64,
)
    requires
        run.wf(),
        run.verdict(outcome) == Verdict::Retry,
    ensures
        app.after_attempt(run, outcome, id, now, failed_at) == app,
        run_after(run, outcome) == (delivery::RunView {
            attempt: (run.attempt + 1) as usize,
            ..run
        }),
        run_after(run, outcome).wf(),
{
}

/// While attempts are left, transport errors, server errors and the codes 408 and 429 are always
/// retried; another 4xx code is retried exactly where that is configured.
pub proof fn law_what_is_retried(run: delivery::RunView, outcome: delivery::OutcomeView)
    requires
        run.attempt + 1 < run.max_attempts,
    ensures
        outcome is Failed ==> run.verdict(outcome) == Verdict::Retry,
        outcome is Response && outcome->code >= 500 ==> run.verdict(outcome) == Verdict::Retry,
        outcome is Response && (outcome->code == 408 || outcome->code == 429) ==> run.verdict(
            outcome,
        ) == Verdict::Retry,
        outcome.refused() ==> run.verdict(outcome) == (if run.retry_on_4xx {
            Verdict::Retry
        } else {
            Verdict::GiveUp
        }),
{
}

/// A dead letter that was just pushed is the first of its session's list, and the list is never
/// longer than the capacity.
pub proof fn law_newest_dead_letter_first(app: state::AppView, entry: webhooks::DlqView)
    requires
        app.wf(),
    ensures
        ({
            let list = registry::queue_of(
                app.with_dead_letter(entry).webhook_dlq,
                entry.session_id,
            ).reverse();
            &&& 0 < list.len() <= app.webhook_retry.dlq_capacity
            &&& list[0] == entry
        }),
{
}

/// A full queue drops exactly its oldest entry for a new one; another queue keeps all entries.
pub proof fn law_oldest_dead_letter_goes(app: state::AppView, entry: webhooks::DlqView)
    requires
        app.wf(),
    ensures
        ({
            let before = registry::queue_of(app.webhook_dlq, entry.session_id);
            let after = registry::queue_of(
                app.with_dead_letter(entry).webhook_dlq,
                entry.session_id,
            );
            if before.len() == app.webhook_retry.dlq_capacity {
                after == before.drop_first().push(entry)
            } else {
                after == before.push(entry)
            }
        }),
{
    let before = registry::queue_of(app.webhook_dlq, entry.session_id);
    if before.len() == app.webhook_retry.dlq_capacity {
        assert(before.skip(1) =~= before.drop_first());
    }
}

/// A dead letter that was pushed under an id which its queue did not hold is the one that is
/// taken by that id, and taking it leaves what pushing it kept.
pub proof fn law_push_then_take(app: state::AppView, entry: webhooks::DlqView, i: int)
    requires
        app.wf(),
        forall|j: int|
            0 <= j < registry::queue_of(app.webhook_dlq, entry.session_id).len() ==> (
            #[trigger] registry::queue_of(app.webhook_dlq, entry.session_id)[j]).id != entry.id,
        registry::first_with_id(
            registry::queue_of(app.with_dead_letter(entry).webhook_dlq, entry.session_id),
            entry.id,
            i,
        ),
    ensures
        ({
            let before = registry::queue_of(app.webhook_dlq, entry.session_id);
            let pushed = registry::queue_of(
                app.with_dead_letter(entry).webhook_dlq,
                entry.session_id,
            );
            &&& pushed[i] == entry
            &&& pushed.remove(i) == (if before.len() == app.webhook_retry.dlq_capacity {
                before.drop_first()
            } else {
                before
            })
        }),
{
    let before = registry::queue_of(app.webhook_dlq, entry.session_id);
    let pushed = registry::queue_of(app.with_dead_letter(entry).webhook_dlq, entry.session_id);
    law_oldest_dead_letter_goes(app, entry);
    let kept = pushed.drop_last();
    assert(pushed =~= kept.push(entry));
    assert forall|j: int| 0 <= j < kept.len() implies (#[trigger] kept[j]).id != entry.id by {
        if before.len() == app.webhook_retry.dlq_capacity {
            assert(kept[j] == before[j + 1]);
        } else {
            assert(kept[j] == before[j]);
        }
    }
    if i < kept.len() {
        assert(kept[i].id != entry.id);
    }
    assert(pushed.remove(i) =~= kept);
    if before.len() == app.webhook_retry.dlq_capacity {
        assert(kept =~= before.drop_first());
    } else {
        assert(kept =~= before);
    }
}

/// A registered webhook is the one that is listed under its id; the others stay as they were.
pub proof fn law_register_then_list(
    app: state::AppView,
    session_id: Seq<char>,
    webhook_id: Seq<char>,
    webhook: webhooks::WebhookView,
)
    ensures
        ({
            let before = registry::webhooks_of(app.webhooks, session_id);
            let registered = registry::registered(app.webhooks, session_id, webhook_id, webhook);
            &&& registry::webhooks_of(registered, session_id) == before.insert(webhook_id, webhook)
            &&& forall|other: Seq<char>|
                other != session_id ==> #[trigger] registry::webhooks_of(registered, other)
                    == registry::webhooks_of(app.webhooks, other)
        }),
{
}

/// Removing a webhook that was just registered under a new id restores what the session had.
pub proof fn law_register_then_remove(
    app: state::AppView,
    session_id: Seq<char>,
    webhook_id: Seq<char>,
    webhook: webhooks::WebhookView,
)
    requires
        !registry::webhooks_of(app.webhooks, session_id).contains_key(webhook_id),
    ensures
        ({
            let registered = registry::registered(app.webhooks, session_id, webhook_id, webhook);
            let removed = registry::unregistered(registered, session_id, webhook_id);
            forall|other: Seq<char>| #[trigger]
                registry::webhooks_of(removed, other) == registry::webhooks_of(app.webhooks, other)
        }),
{
    let registered = registry::registered(app.webhooks, session_id, webhook_id, webhook);
    let removed = registry::unregistered(registered, session_id, webhook_id);
    assert forall|other: Seq<char>| #[trigger]
        registry::webhooks_of(removed, other) == registry::webhooks_of(app.webhooks, other) by {
        if other == session_id {
            assert(registry::webhooks_of(removed, other) =~= registry::webhooks_of(
                app.webhooks,
                other,
            ));
        }
    }
}

/// Forgetting the webhooks of a session leaves it without webhooks and dead letters, and every
/// other session with what it had.
pub proof fn law_forgotten_session(
    app: state::AppView,
    forgotten: state::AppView,
    session_id: Seq<char>,
)
    requires
        forgotten == (state::AppView {
            webhooks: app.webhooks.remove(session_id),
            webhook_dlq: app.webhook_dlq.remove(session_id),
            ..app
        }),
    ensures
        registry::webhooks_of(forgotten.webhooks, session_id) == Map::<
            Seq<char>,
            webhooks::WebhookView,
        >::empty(),
        registry::queue_of(forgotten.webhook_dlq, session_id) == Seq::<webhooks::DlqView>::empty(),
        forall|other: Seq<char>|
            other != session_id ==> #[trigger] registry::webhooks_of(forgotten.webhooks, other)
                == registry::webhooks_of(app.webhooks, other),
        forall|other: Seq<char>|
            other != session_id ==> #[trigger] registry::queue_of(forgotten.webhook_dlq, other)
                == registry::queue_of(app.webhook_dlq, other),
{
}

/// Replaying a dead letter delivers what the failed run delivered, to the same target and signed
/// with the same secret, from the first attempt on.
pub proof fn law_replay(
    config: crate::config::WebhookRetryConfig,
    run: delivery::RunView,
    id: Seq<char>,
    last_error: Seq<char>,
    failed_at: i64,
    timestamp: i64,
)
    ensures
        ({
            let entry = run.dead_letter(id, last_error, failed_at);
            let replay = delivery::RunView::start(
                config,
                entry.session_id,
                entry.event,
                entry.webhook_url,
                entry.secret,
                entry.payload,
            );
            &&& replay.session_id == run.session_id
            &&& replay.event == run.event
            &&& replay.url == run.url
            &&& replay.payload == run.payload
            &&& replay.headers(timestamp) == run.headers(timestamp)
            &&& replay.attempt == 0
        }),
{
}

/// The ring of events never holds more than it keeps; an event that was just pushed is the
/// newest, and the newest that are asked for are listed newest first.
pub proof fn law_recent_events(
    app: state::AppView,
    session_id: Seq<char>,
    event: Seq<char>,
    payload: Seq<char>,
    at_epoch_ms: i64,
    limit: nat,
)
    requires
        app.wf(),
        limit > 0,
    ensures
        ({
            let ring = app.with_event(session_id, event, payload, at_epoch_ms).event_ring;
            let listed = events::newest_first(ring, limit);
            let before = events::newest_first(app.event_ring, (limit - 1) as nat);
            &&& ring.len() <= events::RING_CAPACITY
            &&& listed[0] == (events::EventView {
                session_id,
                event_type: event,
                payload_preview: events::preview_of(payload),
                at_epoch_ms,
            })
            &&& limit <= events::RING_CAPACITY ==> listed.drop_first() == before
        }),
{
    let ring = app.with_event(session_id, event, payload, at_epoch_ms).event_ring;
    let listed = events::newest_first(ring, limit);
    let before = events::newest_first(app.event_ring, (limit - 1) as nat);
    if limit <= events::RING_CAPACITY {
        assert(listed.drop_first() =~= before);
    }
}

/// A preview is the start of its payload, and all of it where it is short.
pub proof fn law_preview(payload: Seq<char>)
    ensures
        events::preview_of(payload).is_prefix_of(payload),
        events::preview_of(payload).len() <= events::PREVIEW_MAX,
        payload.len() <= events::PREVIEW_MAX ==> events::preview_of(payload) == payload,
{
}

/// The waits before the first attempts: none, five seconds, half a minute, one, two and four
/// minutes, and five from then on.
pub proof fn law_waits(attempt: nat)
    requires
        attempt >= 6,
    ensures
        config::retry_delay_secs(0) == 0,
        config::retry_delay_secs(1) == 5,
        config::retry_delay_secs(2) == 30,
        config::retry_delay_secs(3) == 60,
        config::retry_delay_secs(4) == 120,
        config::retry_delay_secs(5) == 240,
        config::retry_delay_secs(attempt) == 300,
{
    vstd::arithmetic::power2::lemma2_to64();
    if attempt > 6 {
        vstd::arithmetic::power2::lemma_pow2_strictly_increases(3, (attempt - 3) as nat);
    }
}

/// What an attempt leads to, by its status code: from 200 to 299 the run is done; otherwise it
/// ends where no attempt is left, and goes on where one is, except that a code from 400 to 499
/// other than 408 and 429 ends it where such codes are not retried.
pub proof fn law_verdict(run: delivery::RunView, outcome: delivery::OutcomeView)
    ensures
        run.verdict(outcome) == Verdict::Delivered <==> outcome is Response && 200 <= outcome->code
            <= 299,
        run.verdict(outcome) == Verdict::Retry ==> run.attempt + 1 < run.max_attempts,
        outcome is Failed ==> (run.verdict(outcome) == Verdict::Retry <==> run.attempt + 1
            < run.max_attempts),
        outcome is Response && !(200 <= outcome->code <= 299) && !(400 <= outcome->code <= 499)
            ==> (run.verdict(outcome) == Verdict::Retry <==> run.attempt + 1 < run.max_attempts),
        outcome is Response && (outcome->code == 408 || outcome->code == 429) ==> (run.verdict(
            outcome,
        ) == Verdict::Retry <==> run.attempt + 1 < run.max_attempts),
        outcome is Response && 400 <= outcome->code <= 499 && outcome->code != 408 && outcome->code
            != 429 ==> (run.verdict(outcome) == Verdict::Retry <==> run.retry_on_4xx && run.attempt
            + 1 < run.max_attempts),
{
}

/// What the caller is told: that the delivery is done; or how long to wait before the attempt
/// after this one; or, where the run ended, its last error, the attempts that it was granted,
/// what became of the circuit, and why the target is disabled exactly where it is.
pub proof fn law_step(
    app: state::AppView,
    run: delivery::RunView,
    outcome: delivery::OutcomeView,
    now: u128,
)
    ensures
        run.verdict(outcome) == Verdict::Delivered <==> app.step(run, outcome, now) is Delivered,
        run.verdict(outcome) == Verdict::Retry <==> app.step(run, outcome, now) is Retry,
        run.verdict(outcome) == Verdict::GiveUp <==> app.step(run, outcome, now) is DeadLettered,
        app.step(run, outcome, now) matches delivery::StepView::Retry { wait_secs } ==> wait_secs
            == config::retry_delay_secs((run.attempt + 1) as nat),
        app.step(run, outcome, now) matches delivery::StepView::DeadLettered {
            action,
            disable_reason,
            last_error,
            attempts,
        } ==> {
            &&& attempts == run.max_attempts
            &&& action == app.failure_action(run.url, now)
            &&& outcome matches delivery::OutcomeView::Failed { error } ==> last_error == error
            &&& outcome matches delivery::OutcomeView::Response { code } ==> last_error == "HTTP "@
                + delivery::status_text(code)
            &&& disable_reason == (if action == webhooks::WebhookFailureAction::HardDisable {
                Some("100 consecutive failures ("@ + last_error + ")"@)
            } else {
                None
            })
        },
{
}

/// A dead letter says all that a replay needs, when and why the run failed, and how many attempts
/// it was granted.
pub proof fn law_dead_letter(
    run: delivery::RunView,
    id: Seq<char>,
    last_error: Seq<char>,
    failed_at: i64,
)
    ensures
        run.dead_letter(id, last_error, failed_at).id == id,
        run.dead_letter(id, last_error, failed_at).session_id == run.session_id,
        run.dead_letter(id, last_error, failed_at).webhook_url == run.url,
        run.dead_letter(id, last_error, failed_at).event == run.event,
        run.dead_letter(id, last_error, failed_at).payload == run.payload,
        run.dead_letter(id, last_error, failed_at).secret == run.secret,
        run.dead_letter(id, last_error, failed_at).last_error == last_error,
        run.dead_letter(id, last_error, failed_at).attempts == run.max_attempts,
        run.dead_letter(id, last_error, failed_at).failed_at == failed_at,
{
}

/// A run starts at its first attempt with what it is given, under the configured policy.
pub proof fn law_run_start(
    config: crate::config::WebhookRetryConfig,
    session_id: Seq<char>,
    event: Seq<char>,
    url: Seq<char>,
    secret: Option<Seq<char>>,
    payload: Seq<char>,
)
    ensures
        ({
            let run = delivery::RunView::start(config, session_id, event, url, secret, payload);
            &&& run.session_id == session_id
            &&& run.event == event
            &&& run.url == url
            &&& run.secret == secret
            &&& run.payload == payload
            &&& run.attempt == 0
            &&& run.retry_on_4xx == config.retry_on_4xx
            &&& run.max_attempts == (if config.max_attempts >= 1 {
                config.max_attempts
            } else {
                1
            })
        }),
{
}

/// The dead letters of a session.
pub open spec fn letters(app: state::AppView, session_id: Seq<char>) -> Seq<webhooks::DlqView> {
    if app.webhook_dlq.contains_key(session_id) {
        app.webhook_dlq[session_id]
    } else {
        Seq::empty()
    }
}

/// A dead letter comes to the end of the queue of its own session; before it stand the newest of
/// those that were there, in their order, as many as the capacity leaves room for; no other queue
/// changes, nor anything else.
pub proof fn law_dead_letter_is_queued(app: state::AppView, entry: webhooks::DlqView)
    requires
        app.wf(),
    ensures
        ({
            let after = app.with_dead_letter(entry);
            let queue = letters(after, entry.session_id);
            let before = letters(app, entry.session_id);
            &&& queue.len() > 0
            &&& queue.last() == entry
            &&& queue.len() == (if before.len() < app.webhook_retry.dlq_capacity {
                before.len() + 1
            } else {
                app.webhook_retry.dlq_capacity as nat
            })
            &&& forall|i: int|
                0 <= i < queue.len() - 1 ==> #[trigger] queue[i] == before[i + before.len()
                    - queue.len() + 1]
            &&& forall|other: Seq<char>|
                other != entry.session_id ==> (#[trigger] after.webhook_dlq.contains_key(other)
                    <==> app.webhook_dlq.contains_key(other))
            &&& forall|other: Seq<char>|
                other != entry.session_id && app.webhook_dlq.contains_key(other)
                    ==> #[trigger] after.webhook_dlq[other] == app.webhook_dlq[other]
            &&& after == (state::AppView { webhook_dlq: after.webhook_dlq, ..app })
            &&& registry::queue_of(app.webhook_dlq, entry.session_id) == before
        }),
{
}

/// The dead letter that is taken by an id is the oldest with it.
pub proof fn law_oldest_with_an_id(queue: Seq<webhooks::DlqView>, id: Seq<char>, i: int)
    ensures
        registry::first_with_id(queue, id, i) <==> (0 <= i < queue.len() && queue[i].id == id
            && forall|j: int| 0 <= j < i ==> (#[trigger] queue[j]).id != id),
{
}

/// The webhooks that a session has, and what registering, removing and wiping do to them, by
/// session and id.
pub proof fn law_registrations(
    app: state::AppView,
    session_id: Seq<char>,
    webhook_id: Seq<char>,
    webhook: webhooks::WebhookView,
    url: Seq<char>,
    at: Seq<char>,
    by: Seq<char>,
)
    ensures
        ({
            let had = app.webhooks.contains_key(at) && app.webhooks[at].contains_key(by);
            let registered = registry::registered(app.webhooks, session_id, webhook_id, webhook);
            let removed = registry::unregistered(app.webhooks, session_id, webhook_id);
            let wiped = registry::url_purged(app.webhooks, url);
            let same = at == session_id && by == webhook_id;
            &&& registry::webhooks_of(app.webhooks, at).contains_key(by) <==> had
            &&& had ==> registry::webhooks_of(app.webhooks, at)[by] == app.webhooks[at][by]
            &&& registered.contains_key(at) && registered[at].contains_key(by) <==> had || same
            &&& registered.contains_key(session_id) && registered[session_id].contains_key(
                webhook_id,
            ) && registered[session_id][webhook_id] == webhook
            &&& had && !same ==> registered[at][by] == app.webhooks[at][by]
            &&& removed.contains_key(at) && removed[at].contains_key(by) <==> had && !same
            &&& had && !same ==> removed[at][by] == app.webhooks[at][by]
            &&& wiped.contains_key(at) && wiped[at].contains_key(by) <==> had
                && app.webhooks[at][by].url != url
            &&& had && app.webhooks[at][by].url != url ==> wiped[at][by] == app.webhooks[at][by]
        }),
{
}

/// A list of a session's webhooks has each of them once, under its id and as it was registered,
/// and no other.
pub proof fn law_webhook_list(
    list: Seq<(String, webhooks::WebhookConfig)>,
    map: Map<Seq<char>, webhooks::WebhookView>,
    id: Seq<char>,
)
    requires
        registry::lists_webhooks(list, map),
    ensures
        list.len() == map.dom().len(),
        map.contains_key(id) <==> exists|i: int|
            0 <= i < list.len() && (#[trigger] list[i]).0@ == id && list[i].1@ == map[id],
        forall|i: int, j: int|
            0 <= i < list.len() && 0 <= j < list.len() && (#[trigger] list[i]).0@ == (
            #[trigger] list[j]).0@ ==> i == j,
{
    let ids = list.map_values(|entry: (String, webhooks::WebhookConfig)| entry.0@);
    assert forall|i: int, j: int| 0 <= i < ids.len() && 0 <= j < ids.len() && i != j implies ids[i]
        != ids[j] by {
        if i < j {
            assert(list[i].0@ != list[j].0@);
        } else {
            assert(list[j].0@ != list[i].0@);
        }
    }
    assert(ids.no_duplicates());
    assert forall|other: Seq<char>| ids.to_set().contains(other) == map.dom().contains(other) by {
        if ids.contains(other) {
            let k = choose|k: int| 0 <= k < ids.len() && ids[k] == other;
            assert(map.contains_key(list[k].0@));
        }
        if map.contains_key(other) {
            let k = choose|k: int| 0 <= k < list.len() && (#[trigger] list[k]).0@ == other;
            assert(ids[k] == other);
        }
    }
    assert(ids.to_set() =~= map.dom());
    ids.unique_seq_to_set();
    assert forall|i: int, j: int|
        0 <= i < list.len() && 0 <= j < list.len() && (#[trigger] list[i]).0@ == (
        #[trigger] list[j]).0@ implies i == j by {
        assert(ids[i] == ids[j]);
    }
    if map.contains_key(id) {
        let k = choose|k: int| 0 <= k < list.len() && (#[trigger] list[k]).0@ == id;
        assert(list[k].1@ == map[id]);
    }
}

/// A list of the sessions has each of them once, under its id and as it is, and no other.
pub proof fn law_session_list(
    list: Seq<(String, &crate::session::SessionState)>,
    sessions: Map<Seq<char>, crate::session::SessionView>,
    id: Seq<char>,
)
    requires
        state::lists_sessions(list, sessions),
    ensures
        list.len() == sessions.dom().len(),
        sessions.contains_key(id) <==> exists|i: int|
            0 <= i < list.len() && (#[trigger] list[i]).0@ == id && list[i].1@ == sessions[id],
{
    let ids = list.map_values(|entry: (String, &crate::session::SessionState)| entry.0@);
    assert forall|i: int, j: int| 0 <= i < ids.len() && 0 <= j < ids.len() && i != j implies ids[i]
        != ids[j] by {
        if i < j {
            assert(list[i].0@ != list[j].0@);
        } else {
            assert(list[j].0@ != list[i].0@);
        }
    }
    assert(ids.no_duplicates());
    assert forall|other: Seq<char>|
        ids.to_set().contains(other) == sessions.dom().contains(other) by {
        if ids.contains(other) {
            let k = choose|k: int| 0 <= k < ids.len() && ids[k] == other;
            assert(sessions.contains_key(list[k].0@));
        }
        if sessions.contains_key(other) {
            let k = choose|k: int| 0 <= k < list.len() && (#[trigger] list[k]).0@ == other;
            assert(ids[k] == other);
        }
    }
    assert(ids.to_set() =~= sessions.dom());
    ids.unique_seq_to_set();
    if sessions.contains_key(id) {
        let k = choose|k: int| 0 <= k < list.len() && (#[trigger] list[k]).0@ == id;
        assert(list[k].1@ == sessions[id]);
    }
}

/// A preview has the first 120 characters of its payload, and all of them where it has no more.
pub proof fn law_preview_length(payload: Seq<char>, i: int)
    ensures
        events::preview_of(payload).len() == (if payload.len() <= 120 {
            payload.len() as int
        } else {
            120
        }),
        0 <= i < events::preview_of(payload).len() ==> events::preview_of(payload)[i]
            == payload[i],
{
}

/// An event that is shown comes to the end of the ring, with its session, its type, the start of
/// its payload and its time; before it stand the newest 199 of those that were there, in their
/// order; nothing else changes.
pub proof fn law_event_is_shown(
    app: state::AppView,
    session_id: Seq<char>,
    event: Seq<char>,
    payload: Seq<char>,
    at_epoch_ms: i64,
)
    requires
        app.wf(),
    ensures
        ({
            let after = app.with_event(session_id, event, payload, at_epoch_ms);
            let ring = after.event_ring;
            let before = app.event_ring;
            &&& ring.len() == (if before.len() < 200 {
                before.len() + 1
            } else {
                200
            })
            &&& ring.last().session_id == session_id
            &&& ring.last().event_type == event
            &&& ring.last().payload_preview == events::preview_of(payload)
            &&& ring.last().at_epoch_ms == at_epoch_ms
            &&& forall|i: int|
                0 <= i < ring.len() - 1 ==> #[trigger] ring[i] == before[i + before.len()
                    - ring.len() + 1]
            &&& after == (state::AppView { event_ring: ring, ..app })
        }),
{
}

/// The newest events are listed from the end of the ring, as many as are asked for or are there.
pub proof fn law_newest_first(ring: Seq<events::EventView>, limit: nat, i: int)
    ensures
        events::newest_first(ring, limit).len() == (if limit <= ring.len() {
            limit
        } else {
            ring.len()
        }),
        0 <= i < events::newest_first(ring, limit).len() ==> events::newest_first(ring, limit)[i]
            == ring[ring.len() - 1 - i],
{
}

/// In every state the queues and the ring are within their bounds, and the policies in order.
pub proof fn law_state_invariant(app: state::AppView, id: Seq<char>)
    requires
        app.wf(),
    ensures
        app.webhook_dlq.contains_key(id) ==> app.webhook_dlq[id].len()
            <= app.webhook_retry.dlq_capacity,
        app.event_ring.len() <= 200,
        app.lock_schedule.len() > 0,
        forall|i: int| 0 <= i < app.lock_schedule.len() ==> #[trigger] app.lock_schedule[i] > 0,
        app.webhook_retry.max_attempts > 0,
        app.webhook_retry.dlq_capacity > 0,
        app.sessions.contains_key(id) ==> app.sessions[id].wf(),
{
}

/// At startup there are no sessions, webhooks, circuits, dead letters, events, tags or voices.
pub proof fn law_startup(
    path: Seq<char>,
    retry: crate::config::WebhookRetryConfig,
    schedule: Seq<i64>,
    origin: std::time::Instant,
    id: Seq<char>,
)
    ensures
        ({
            let app = state::AppView::initial(path, retry, schedule, origin);
            &&& !app.sessions.contains_key(id)
            &&& !app.webhooks.contains_key(id)
            &&& !app.webhook_circuits.contains_key(id)
            &&& !app.webhook_dlq.contains_key(id)
            &&& !app.session_tags.contains_key(id)
            &&& app.event_ring.len() == 0
            &&& app.voice_cache is None
            &&& app.base_storage_path == path
            &&& app.webhook_retry == retry
            &&& app.lock_schedule == schedule
            &&& app.clock_origin == origin
        }),
        state::storage_path_of(Some(path)) == path,
        state::storage_path_of(None) == "./whatsapp_sessions"@,
{
}

} // verus!
