//! Laws of the session state.

use crate::clock;
use crate::session;
use crate::session::{ClientLink, SessionStatus};
use vstd::prelude::*;

verus! {

/// A second mark inside a reconnect window does not move its start.
pub proof fn law_mark_is_idempotent(view: session::SessionView, first: i64, second: i64)
    ensures
        view.reconnecting(first).reconnecting(second) == view.reconnecting(first),
        view.reconnecting(first).reconnecting_since is Some,
{
}

/// Outside a window nothing is counted; inside one, the seconds since its first mark are, and
/// never a negative number of them.
pub proof fn law_window(view: session::SessionView, marked: i64, now: i64)
    requires
        clock::is_wall_time(marked),
        clock::is_wall_time(now),
    ensures
        view.settled().reconnecting_for(now) is None,
        view.settled().reconnecting(marked).reconnecting_for(now) == Some(
            if now >= marked {
                (now - marked) as i64
            } else {
                0
            },
        ),
        view.reconnecting(marked).settled() == view.settled(),
{
}

/// The session after account locks at these times, without a manual connect in between.
pub open spec fn locked_at(
    view: session::SessionView,
    schedule: Seq<i64>,
    times: Seq<i64>,
) -> session::SessionView
    decreases times.len(),
{
    if times.len() == 0 {
        view
    } else {
        locked_at(view, schedule, times.drop_last()).locked(schedule, times.last())
    }
}

/// The step of a schedule that the lock with this number applies, counted from one.
pub open spec fn step_for(schedule: Seq<i64>, number: nat) -> i64 {
    if number <= schedule.len() {
        schedule[number - 1]
    } else {
        schedule.last()
    }
}

/// Each lock since the last manual connect applies the next cooldown of the schedule, and the
/// last one repeats; nothing but the lock's own fields changes.
pub proof fn law_cooldown_escalates(
    view: session::SessionView,
    schedule: Seq<i64>,
    times: Seq<i64>,
)
    requires
        schedule.len() > 0,
        0 < times.len() <= u32::MAX,
        forall|i: int| 0 <= i < schedule.len() ==> 0 < #[trigger] schedule[i] <= i64::MAX
            - clock::LAST_SECOND,
        forall|i: int| 0 <= i < times.len() ==> clock::is_wall_time(#[trigger] times[i]),
    ensures
        locked_at(view.unlocked(), schedule, times) == (session::SessionView {
            lock_strikes: times.len() as u32,
            lock_cooldown_until: Some((times.last() + step_for(schedule, times.len())) as i64),
            ..view
        }),
    decreases times.len(),
{
    if times.len() > 1 {
        law_cooldown_escalates(view, schedule, times.drop_last());
    } else {
        reveal_with_fuel(locked_at, 2);
        assert(times.drop_last().len() == 0);
    }
}

/// A lock pauses the session for exactly its cooldown; a manual connect ends the pause at once.
pub proof fn law_pause(view: session::SessionView, schedule: Seq<i64>, now: i64, later: i64)
    requires
        schedule.len() > 0,
        clock::is_wall_time(now),
        later >= 0,
        forall|i: int| 0 <= i < schedule.len() ==> 0 < #[trigger] schedule[i] <= i64::MAX
            - clock::LAST_SECOND,
    ensures
        ({
            let cooldown = schedule[view.lock_step(schedule.len())];
            view.locked(schedule, now).cooldown_remaining(later) == (if later < now + cooldown {
                Some((now + cooldown - later) as i64)
            } else {
                None
            })
        }),
        view.unlocked().cooldown_remaining(later) is None,
        view.locked(schedule, now).unlocked() == view.unlocked(),
        view.unlocked().lock_step(schedule.len()) == 0,
{
}

/// The session after logouts at these times.
pub open spec fn logged_out_at(view: session::SessionView, times: Seq<i64>) -> session::SessionView
    decreases times.len(),
{
    if times.len() == 0 {
        view
    } else {
        logged_out_at(view, times.drop_last()).logged_out(times.last())
    }
}

/// Whether the clock never went back from one of these times to the next.
pub open spec fn in_order(times: Seq<i64>) -> bool {
    forall|i: int, j: int| 0 <= i <= j < times.len() ==> times[i] <= times[j]
}

/// What is kept of `times` at `now`: those that lie less than the window back.
proof fn lemma_filter_twice(times: Seq<i64>, before: i64, now: i64)
    requires
        before <= now,
    ensures
        times.filter(|t: i64| before - t < session::PURGE_WINDOW_SECS).filter(
            |t: i64| now - t < session::PURGE_WINDOW_SECS,
        ) == times.filter(|t: i64| now - t < session::PURGE_WINDOW_SECS),
    decreases times.len(),
{
    reveal(Seq::filter);
    let outer = |t: i64| now - t < session::PURGE_WINDOW_SECS;
    let inner = |t: i64| before - t < session::PURGE_WINDOW_SECS;
    if times.len() > 0 {
        lemma_filter_twice(times.drop_last(), before, now);
        let kept = times.drop_last().filter(inner);
        if inner(times.last()) {
            assert(kept.push(times.last()).drop_last() =~= kept);
            assert(kept.push(times.last()).filter(outer) == (if outer(times.last()) {
                kept.filter(outer).push(times.last())
            } else {
                kept.filter(outer)
            }));
        }
    }
}

proof fn lemma_history(view: session::SessionView, times: Seq<i64>)
    requires
        view.logout_history == Seq::<i64>::empty(),
        in_order(times),
        times.len() > 0,
    ensures
        logged_out_at(view, times).logout_history == times.filter(
            |t: i64| times.last() - t < session::PURGE_WINDOW_SECS,
        ),
    decreases times.len(),
{
    reveal(Seq::filter);
    let now = times.last();
    let recent = |t: i64| now - t < session::PURGE_WINDOW_SECS;
    let earlier = times.drop_last();
    if earlier.len() > 0 {
        lemma_history(view, earlier);
        lemma_filter_twice(earlier, earlier.last(), now);
        assert(recent(now));
        assert(times.filter(recent) == earlier.filter(recent).push(now));
    } else {
        reveal_with_fuel(logged_out_at, 2);
        assert(times.filter(recent) =~= seq![now]);
        assert(Seq::<i64>::empty().filter(recent) =~= Seq::<i64>::empty());
        assert(logged_out_at(view, earlier) == view);
        assert(logged_out_at(view, times).logout_history =~= seq![now]);
    }
}

/// Of times in order, the last `n` lie inside the window exactly where the `n`th last does.
proof fn lemma_recent_count(times: Seq<i64>, now: i64, n: nat)
    requires
        in_order(times),
        0 < n,
    ensures
        times.filter(|t: i64| now - t < session::PURGE_WINDOW_SECS).len() >= n <==> (times.len()
            >= n && now - times[times.len() - n] < session::PURGE_WINDOW_SECS),
    decreases times.len(),
{
    reveal(Seq::filter);
    let recent = |t: i64| now - t < session::PURGE_WINDOW_SECS;
    if times.len() > 0 {
        let earlier = times.drop_last();
        if recent(times.last()) {
            if n > 1 {
                lemma_recent_count(earlier, now, (n - 1) as nat);
            }
        } else {
            lemma_recent_count(earlier, now, 1);
            if earlier.len() > 0 {
                assert(times[earlier.len() - 1] <= times.last());
            }
            assert(times.filter(recent).len() == 0);
            if times.len() >= n {
                assert(times[times.len() - n] <= times.last());
            }
        }
    }
}

/// A session is purged exactly by a logout that is the third within ten minutes.
pub proof fn law_purge_needs_three_logouts(view: session::SessionView, times: Seq<i64>)
    requires
        view.logout_history == Seq::<i64>::empty(),
        times.len() > 0,
        in_order(times),
    ensures
        logged_out_at(view, times).must_purge() <==> (times.len() >= 3 && times.last()
            - times[times.len() - 3] < 600),
{
    lemma_history(view, times);
    lemma_recent_count(times, times.last(), 3);
}

/// A session that was logged in over a socket that is now dead is connecting, not disconnected;
/// a session is reported logged in only where its client is alive.
pub proof fn law_effective_status(view: session::SessionView, link: ClientLink)
    ensures
        view.status == SessionStatus::LoggedIn && !view.alive(link) ==> view.status_now(link)
            == SessionStatus::Connecting,
        view.status_now(link) == SessionStatus::LoggedIn ==> view.alive(link),
        view.status_now(link) == SessionStatus::Disconnected <==> view.status
            == SessionStatus::Disconnected,
        view.alive(link) ==> view.status_now(link) == view.status,
{
}

/// Taking the client out takes everything along that depends on it, and the session is then
/// neither alive nor logged in, whatever was reported of the socket.
pub proof fn law_no_client(view: session::SessionView, link: ClientLink)
    ensures
        ({
            let without = view.with_client(None);
            &&& without.enc_decrypt_failed_lease is None
            &&& without.chat_store is None
            &&& without.chat_store_subscription is None
            &&& !without.alive(link)
            &&& without.status_now(link) != SessionStatus::LoggedIn
        }),
{
}

/// A session is live exactly where a client is installed whose socket is connected and logged in:
/// over a socket that is down, or before the login, no client is handed out for sending, and a
/// cached login is reported as connecting.
pub proof fn law_liveness(view: session::SessionView, link: ClientLink)
    ensures
        view.alive(link) <==> view.client is Some && link.connected && link.logged_in,
        !link.connected || !link.logged_in ==> !view.alive(link),
        (!link.connected || !link.logged_in || view.client is None) && view.status
            == SessionStatus::LoggedIn ==> view.status_now(link) == SessionStatus::Connecting,
        view.status != SessionStatus::LoggedIn ==> view.status_now(link) == view.status,
        view.client is Some && link.connected && link.logged_in ==> view.status_now(link)
            == view.status,
{
}

/// A socket that comes up or goes down moves what is reported of a session with a client, and
/// nothing else does.
pub proof fn law_liveness_follows_the_socket(
    view: session::SessionView,
    up: ClientLink,
    down: ClientLink,
)
    requires
        view.client is Some,
        up.connected && up.logged_in,
        !down.connected,
    ensures
        view.alive(up),
        !view.alive(down),
        view.status_now(up) == view.status,
        view.status_now(down) != SessionStatus::LoggedIn,
{
}

/// A new session has nothing but its storage path: no client, no codes, no history, no lock, no
/// window; it reconnects by itself and does not skip the history.
pub proof fn law_new_session(path: Seq<char>)
    ensures
        ({
            let view = session::SessionView::fresh(path);
            &&& view.storage_path == path
            &&& view.client is None
            &&& view.qr_codes.len() == 0
            &&& view.pair_code is None
            &&& view.status == SessionStatus::Disconnected
            &&& view.logout_history.len() == 0
            &&& view.pair_state.last_qr_at is None
            &&& view.pair_state.last_pair_code_at is None
            &&& view.pair_state.pair_code_expires_at is None
            &&& view.pair_state.last_error is None
            &&& view.pair_state.attempts == 0
            &&& view.reconnecting_since is None
            &&& view.lock_cooldown_until is None
            &&& view.lock_strikes == 0
            &&& view.auto_reconnect_pref
            &&& !view.skip_history_sync_pref
            &&& view.enc_decrypt_failed_lease is None
            &&& view.chat_store is None
            &&& view.chat_store_subscription is None
        }),
{
}

/// After a logout the history holds that logout as its last, of the earlier ones exactly those
/// that lie less than ten minutes back, and none else; the session is purged exactly where it
/// then holds three, and nothing else of it changes.
pub proof fn law_logout_history(view: session::SessionView, now: i64)
    ensures
        ({
            let after = view.logged_out(now);
            &&& after.logout_history.len() > 0
            &&& after.logout_history.last() == now
            &&& forall|t: i64|
                #![trigger after.logout_history.drop_last().contains(t)]
                #![trigger view.logout_history.contains(t)]
                after.logout_history.drop_last().contains(t) <==> view.logout_history.contains(t)
                    && now - t < 600
            &&& after.logout_history.len() <= view.logout_history.len() + 1
            &&& after.must_purge() <==> after.logout_history.len() >= 3
            &&& after == (session::SessionView { logout_history: after.logout_history, ..view })
        }),
{
    let recent = |t: i64| now - t < session::PURGE_WINDOW_SECS;
    let kept = view.logout_history.filter(recent);
    assert(view.logged_out(now).logout_history.drop_last() =~= kept);
    crate::seqs::lemma_filter_members_any(view.logout_history, recent);
}

/// A logout that lies ten minutes or more after every earlier one counts alone.
pub proof fn law_spread_logouts_do_not_purge(view: session::SessionView, now: i64)
    requires
        forall|i: int|
            0 <= i < view.logout_history.len() ==> now - #[trigger] view.logout_history[i] >= 600,
    ensures
        view.logged_out(now).logout_history == seq![now],
        !view.logged_out(now).must_purge(),
{
    law_logout_history(view, now);
    let after = view.logged_out(now);
    let kept = after.logout_history.drop_last();
    if kept.len() > 0 {
        assert(kept.contains(kept[0]));
        let i = choose|i: int|
            0 <= i < view.logout_history.len() && view.logout_history[i] == kept[0];
        assert(now - view.logout_history[i] >= 600);
    }
    assert(after.logout_history =~= seq![now]);
}

/// Marking and clearing a reconnect window touch the start of the window alone: a window that is
/// open keeps its start, one that is not opens at the mark.
pub proof fn law_window_start(view: session::SessionView, now: i64, later: i64)
    ensures
        view.reconnecting_since is Some ==> view.reconnecting(now) == view,
        view.reconnecting_since is None ==> view.reconnecting(now) == (session::SessionView {
            reconnecting_since: Some(now),
            ..view
        }),
        view.settled() == (session::SessionView { reconnecting_since: None, ..view }),
        view.reconnecting_for(later) is Some <==> view.reconnecting_since is Some,
{
}

/// A cooldown remains exactly while its end lies ahead, and as long as that; lifting it forgets
/// the strikes too, and nothing else.
pub proof fn law_cooldown_runs_out(view: session::SessionView, now: i64)
    requires
        now >= 0,
    ensures
        view.cooldown_remaining(now) is Some <==> view.lock_cooldown_until is Some
            && view.lock_cooldown_until->0 > now,
        view.cooldown_remaining(now) is Some ==> view.cooldown_remaining(now)->0 + now
            == view.lock_cooldown_until->0,
        view.unlocked() == (session::SessionView {
            lock_strikes: 0,
            lock_cooldown_until: None,
            ..view
        }),
{
}

/// A lock counts a strike, whatever the count, and lasts for the step that the count has reached.
pub proof fn law_lock_counts(view: session::SessionView, schedule: Seq<i64>, now: i64)
    requires
        schedule.len() > 0,
        clock::is_wall_time(now),
        forall|i: int| 0 <= i < schedule.len() ==> 0 < #[trigger] schedule[i] <= i64::MAX
            - clock::LAST_SECOND,
    ensures
        ({
            let after = view.locked(schedule, now);
            let strikes: int = if view.lock_strikes == u32::MAX {
                u32::MAX as int
            } else {
                view.lock_strikes + 1
            };
            &&& after.lock_strikes == strikes
            &&& after.lock_cooldown_until is Some
            &&& after.lock_cooldown_until->0 == now + (if strikes <= schedule.len() {
                schedule[strikes - 1]
            } else {
                schedule[schedule.len() - 1]
            })
            &&& after == (session::SessionView {
                lock_strikes: after.lock_strikes,
                lock_cooldown_until: after.lock_cooldown_until,
                ..view
            })
        }),
        0 <= view.lock_step(schedule.len()) < schedule.len(),
        schedule[view.lock_step(schedule.len())] == view.locked(
            schedule,
            now,
        ).lock_cooldown_until->0 - now,
{
}

/// Installing a client changes the client alone; taking it out drops the lease, the chat store and
/// its subscription, and changes nothing else.
pub proof fn law_client_slot(
    view: session::SessionView,
    client: session::ClientHandle,
)
    ensures
        view.with_client(Some(client)) == (session::SessionView { client: Some(client), ..view }),
        view.with_client(None) == (session::SessionView {
            client: None,
            enc_decrypt_failed_lease: None,
            chat_store: None,
            chat_store_subscription: None,
            ..view
        }),
{
}

/// In a well-formed session the chat store and its subscription are there together or not at all,
/// and the reconnect window starts at a time from the epoch on.
pub proof fn law_session_invariant(view: session::SessionView)
    requires
        view.wf(),
    ensures
        view.chat_store is Some == view.chat_store_subscription is Some,
        view.reconnecting_since is Some ==> 0 <= view.reconnecting_since->0
            <= 8_210_266_876_799,
{
}

} // verus!
