//! Laws of the calls that read and change a session: what each returns and which fields it
//! changes.

use crate::clock;
use crate::session::{
    ChatStoreHandle, ClientHandle, ClientLink, LeaseHandle, PairState, SessionState, SessionStatus,
    SubscriptionHandle,
};
use vstd::prelude::*;

verus! {

/// Whether two sessions agree in the client and what depends on it.
pub open spec fn same_client_side(a: SessionState, b: SessionState) -> bool {
    &&& a.client == b.client
    &&& a.enc_decrypt_failed_lease == b.enc_decrypt_failed_lease
    &&& a.chat_store == b.chat_store
    &&& a.chat_store_subscription == b.chat_store_subscription
}

/// Whether two sessions agree in how they pair: codes and telemetry.
pub open spec fn same_pairing(a: SessionState, b: SessionState) -> bool {
    &&& a@.qr_codes == b@.qr_codes
    &&& a@.pair_code == b@.pair_code
    &&& same_pair_state(a.pair_state, b.pair_state)
}

/// Whether two pair states agree.
pub open spec fn same_pair_state(a: PairState, b: PairState) -> bool {
    &&& a.last_qr_at == b.last_qr_at
    &&& a.last_pair_code_at == b.last_pair_code_at
    &&& a.pair_code_expires_at == b.pair_code_expires_at
    &&& a@.last_error == b@.last_error
    &&& a.attempts == b.attempts
}

/// Whether two sessions agree in their preferences and their storage path.
pub open spec fn same_settings(a: SessionState, b: SessionState) -> bool {
    &&& a.auto_reconnect_pref == b.auto_reconnect_pref
    &&& a.skip_history_sync_pref == b.skip_history_sync_pref
    &&& a.storage_path@ == b.storage_path@
}

/// Whether two sessions agree in the lock and its strikes.
pub open spec fn same_lock(a: SessionState, b: SessionState) -> bool {
    a.lock_cooldown_until == b.lock_cooldown_until && a.lock_strikes == b.lock_strikes
}

/// Whether two sessions agree in the reconnect window and the logouts.
pub open spec fn same_history(a: SessionState, b: SessionState) -> bool {
    a.reconnecting_since == b.reconnecting_since && a.logout_history@ == b.logout_history@
}

/// A new session holds its storage path and nothing else; it reconnects by itself.
pub proof fn law_new(path: String, s: SessionState)
    requires
        call_ensures(SessionState::new, (path,), s),
    ensures
        s.storage_path@ == path@,
        s.client is None,
        s.status == SessionStatus::Disconnected,
        s.qr_codes@.len() == 0,
        s.pair_code is None,
        s.logout_history@.len() == 0,
        s.pair_state.last_qr_at is None,
        s.pair_state.last_pair_code_at is None,
        s.pair_state.pair_code_expires_at is None,
        s.pair_state.last_error is None,
        s.pair_state.attempts == 0,
        s.reconnecting_since is None,
        s.lock_cooldown_until is None,
        s.lock_strikes == 0,
        s.auto_reconnect_pref,
        !s.skip_history_sync_pref,
        s.enc_decrypt_failed_lease is None,
        s.chat_store is None,
        s.chat_store_subscription is None,
{
    assert(s@.qr_codes.len() == 0);
    assert(s@.pair_code is None);
    assert(s@.pair_state.last_error is None);
}

/// Liveness, and who may send: only over a socket that is connected and logged in.
pub proof fn law_live_calls(
    s: &SessionState,
    link: ClientLink,
    alive: bool,
    socket: bool,
    client: Option<ClientHandle>,
    status: SessionStatus,
)
    requires
        call_ensures(SessionState::is_alive, (s, link), alive),
        call_ensures(SessionState::socket_alive, (s, link), socket),
        call_ensures(SessionState::get_live_client, (s, link), client),
        call_ensures(SessionState::effective_status, (s, link), status),
    ensures
        alive <==> s.client is Some && link.connected && link.logged_in,
        socket <==> s.client is Some && link.connected,
        client is Some <==> s.client is Some && link.connected && link.logged_in,
        client is Some ==> client == s.client,
        s.status == SessionStatus::LoggedIn && !(s.client is Some && link.connected
            && link.logged_in) ==> status == SessionStatus::Connecting,
        s.status != SessionStatus::LoggedIn || (s.client is Some && link.connected
            && link.logged_in) ==> status == s.status,
{
}

/// A lock counts a strike, pauses the session from `now` on for the step that the strikes have
/// reached, or for the last, and changes nothing else.
pub proof fn law_lock_at(s: &mut SessionState, schedule: &[i64], now: i64, applied: (i64, i64))
    requires
        schedule@.len() > 0,
        clock::is_wall_time(now),
        forall|i: int| 0 <= i < schedule@.len() ==> 0 < #[trigger] schedule@[i] <= i64::MAX
            - clock::LAST_SECOND,
        call_ensures(SessionState::record_lock_cooldown_at, (s, schedule, now), applied),
    ensures
        final(s).lock_strikes == (if old(s).lock_strikes == u32::MAX {
            u32::MAX as int
        } else {
            old(s).lock_strikes + 1
        }),
        applied.0 == (if final(s).lock_strikes <= schedule@.len() {
            schedule@[final(s).lock_strikes - 1]
        } else {
            schedule@[schedule@.len() - 1]
        }),
        applied.1 == now + applied.0,
        final(s).lock_cooldown_until == Some(applied.1),
        final(s).status == old(s).status,
        same_client_side(*final(s), *old(s)),
        same_pairing(*final(s), *old(s)),
        same_settings(*final(s), *old(s)),
        same_history(*final(s), *old(s)),
{
    assert(final(s)@ == old(s)@.locked(schedule@, now));
}

/// The pause lasts until its end; lifting it starts the strikes over and changes nothing else.
pub proof fn law_lift_lock(
    s: &mut SessionState,
    t: &SessionState,
    now: i64,
    remaining: Option<i64>,
)
    requires
        now >= 0,
        call_ensures(SessionState::clear_lock_cooldown, (s,), ()),
        call_ensures(SessionState::lock_cooldown_remaining_at, (t, now), remaining),
    ensures
        final(s).lock_strikes == 0,
        final(s).lock_cooldown_until is None,
        final(s).status == old(s).status,
        same_client_side(*final(s), *old(s)),
        same_pairing(*final(s), *old(s)),
        same_settings(*final(s), *old(s)),
        same_history(*final(s), *old(s)),
        remaining is Some <==> t.lock_cooldown_until is Some && t.lock_cooldown_until->0 > now,
        remaining is Some ==> remaining->0 + now == t.lock_cooldown_until->0,
{
    assert(final(s)@ == old(s)@.unlocked());
}

/// A mark opens the window where none is open, and is ignored where one is; clearing closes it;
/// the seconds are counted from its start.
pub proof fn law_window_calls(
    s: &mut SessionState,
    u: &mut SessionState,
    t: &SessionState,
    now: i64,
    secs: Option<i64>,
)
    requires
        call_ensures(SessionState::mark_reconnecting_at, (s, now), ()),
        call_ensures(SessionState::clear_reconnecting, (u,), ()),
        call_ensures(SessionState::reconnecting_for_secs_at, (t, now), secs),
        t.wf(),
        clock::is_wall_time(now),
    ensures
        old(s).reconnecting_since is None ==> final(s).reconnecting_since == Some(now),
        old(s).reconnecting_since is Some ==> final(s).reconnecting_since
            == old(s).reconnecting_since,
        final(s).logout_history@ == old(s).logout_history@,
        final(s).status == old(s).status,
        same_client_side(*final(s), *old(s)),
        same_pairing(*final(s), *old(s)),
        same_settings(*final(s), *old(s)),
        same_lock(*final(s), *old(s)),
        final(u).reconnecting_since is None,
        final(u).logout_history@ == old(u).logout_history@,
        final(u).status == old(u).status,
        same_client_side(*final(u), *old(u)),
        same_pairing(*final(u), *old(u)),
        same_settings(*final(u), *old(u)),
        same_lock(*final(u), *old(u)),
        secs is Some <==> t.reconnecting_since is Some,
        secs is Some && now >= t.reconnecting_since->0 ==> secs->0 == now
            - t.reconnecting_since->0,
        secs is Some && now < t.reconnecting_since->0 ==> secs->0 == 0,
{
    assert(final(s)@ == old(s)@.reconnecting(now));
    assert(final(u)@ == old(u)@.settled());
}

/// A logout is recorded as the last of those less than ten minutes back, and purges where it is
/// the third of them; nothing else changes.
pub proof fn law_logout_at(s: &mut SessionState, now: i64, purge: bool)
    requires
        call_ensures(SessionState::record_logout_and_should_purge_at, (s, now), purge),
    ensures
        final(s).logout_history@.len() > 0,
        final(s).logout_history@.last() == now,
        forall|t: i64|
            #![trigger final(s).logout_history@.drop_last().contains(t)]
            final(s).logout_history@.drop_last().contains(t) <==> old(s).logout_history@.contains(t)
                && now - t < 600,
        purge <==> final(s).logout_history@.len() >= 3,
        final(s).reconnecting_since == old(s).reconnecting_since,
        final(s).status == old(s).status,
        same_client_side(*final(s), *old(s)),
        same_pairing(*final(s), *old(s)),
        same_settings(*final(s), *old(s)),
        same_lock(*final(s), *old(s)),
{
    assert(final(s)@ == old(s)@.logged_out(now));
    crate::laws::sessions::law_logout_history(old(s)@, now);
}

/// Updating the pair state leaves what the update makes of it, and changes nothing else.
pub proof fn law_update_pair_state<F: FnOnce(PairState) -> PairState>(s: &mut SessionState, f: F)
    requires
        call_ensures(SessionState::update_pair_state, (s, f), ()),
    ensures
        call_ensures(f, (old(s).pair_state,), final(s).pair_state),
        final(s)@.qr_codes == old(s)@.qr_codes,
        final(s)@.pair_code == old(s)@.pair_code,
        final(s).status == old(s).status,
        same_client_side(*final(s), *old(s)),
        same_settings(*final(s), *old(s)),
        same_lock(*final(s), *old(s)),
        same_history(*final(s), *old(s)),
{
}

proof fn lemma_filter_count(list: Seq<i64>, keep: spec_fn(i64) -> bool, t: i64)
    ensures
        list.filter(keep).to_multiset().count(t) == (if keep(t) {
            list.to_multiset().count(t)
        } else {
            0
        }),
    decreases list.len(),
{
    broadcast use vstd::seq_lib::group_to_multiset_ensures;

    reveal(Seq::filter);
    if list.len() > 0 {
        lemma_filter_count(list.drop_last(), keep, t);
        assert(list =~= list.drop_last().push(list.last()));
    }
}

/// Every logout counts, also several at one time: the history has each time as often as before,
/// once more for the new logout, and no longer those that lie ten minutes back.
pub proof fn law_logouts_are_counted(s: &mut SessionState, now: i64, purge: bool, t: i64)
    requires
        call_ensures(SessionState::record_logout_and_should_purge_at, (s, now), purge),
    ensures
        t == now ==> final(s).logout_history@.to_multiset().count(t)
            == old(s).logout_history@.to_multiset().count(t) + 1,
        t != now && now - t < 600 ==> final(s).logout_history@.to_multiset().count(t)
            == old(s).logout_history@.to_multiset().count(t),
        now - t >= 600 ==> final(s).logout_history@.to_multiset().count(t) == 0,
{
    broadcast use vstd::seq_lib::group_to_multiset_ensures;

    assert(final(s)@ == old(s)@.logged_out(now));
    lemma_filter_count(
        old(s).logout_history@,
        |t: i64| now - t < crate::session::PURGE_WINDOW_SECS,
        t,
    );
}

/// The calls that read the wall clock use a time that it showed: a logout is recorded at one, so
/// that what it showed ten minutes ago or earlier does not count with it; a mark opens a window at
/// one; a lock pauses from one on; and what remains or has passed is measured against one.
pub proof fn law_wall_clock_calls(
    s: &mut SessionState,
    u: &mut SessionState,
    w: &mut SessionState,
    t: &SessionState,
    schedule: &[i64],
    purge: bool,
    applied: (i64, i64),
    remaining: Option<i64>,
    secs: Option<i64>,
)
    requires
        t.wf(),
        schedule@.len() > 0,
        forall|i: int| 0 <= i < schedule@.len() ==> 0 < #[trigger] schedule@[i] <= i64::MAX
            - clock::LAST_SECOND,
        call_ensures(SessionState::record_logout_and_should_purge, (s,), purge),
        call_ensures(SessionState::mark_reconnecting_now, (u,), ()),
        call_ensures(SessionState::record_lock_cooldown, (w, schedule), applied),
        call_ensures(SessionState::lock_cooldown_remaining, (t,), remaining),
        call_ensures(SessionState::reconnecting_for_secs, (t,), secs),
    ensures
        final(s).logout_history@.len() > 0,
        clock::was_shown(final(s).logout_history@.last()),
        forall|i: int|
            0 <= i < final(s).logout_history@.len() ==> final(s).logout_history@.last()
                - #[trigger] final(s).logout_history@[i] < 600,
        old(s).logout_history@.len() == 0 ==> !purge,
        purge <==> final(s).logout_history@.len() >= 3,
        old(u).reconnecting_since is None ==> final(u).reconnecting_since is Some
            && clock::was_shown(final(u).reconnecting_since->0),
        old(u).reconnecting_since is Some ==> final(u).reconnecting_since
            == old(u).reconnecting_since,
        exists|now: i64| #[trigger] clock::was_shown(now) && applied.1 == now + applied.0,
        final(w).lock_cooldown_until == Some(applied.1),
        final(w).lock_strikes == (if old(w).lock_strikes == u32::MAX {
            u32::MAX as int
        } else {
            old(w).lock_strikes + 1
        }),
        applied.0 == (if final(w).lock_strikes <= schedule@.len() {
            schedule@[final(w).lock_strikes - 1]
        } else {
            schedule@[schedule@.len() - 1]
        }),
        exists|now: i64| #[trigger]
            clock::was_shown(now) && (remaining is Some <==> t.lock_cooldown_until is Some
                && t.lock_cooldown_until->0 > now) && (remaining is Some ==> remaining->0 + now
                == t.lock_cooldown_until->0),
        secs is Some <==> t.reconnecting_since is Some,
        exists|now: i64| #[trigger]
            clock::was_shown(now) && (secs is Some && now >= t.reconnecting_since->0 ==> secs->0
                == now - t.reconnecting_since->0) && (secs is Some && now
                < t.reconnecting_since->0 ==> secs->0 == 0),
{
    let at = choose|now: i64| #[trigger]
        clock::was_shown(now) && clock::is_wall_time(now) && remaining == t@.cooldown_remaining(
            now,
        );
    assert(clock::was_shown(at) && (remaining is Some ==> remaining->0 + at
        == t.lock_cooldown_until->0));
    let at = choose|now: i64| #[trigger]
        clock::was_shown(now) && clock::is_wall_time(now) && secs == t@.reconnecting_for(now);
    assert(clock::was_shown(at) && (secs is Some && at < t.reconnecting_since->0 ==> secs->0
        == 0));
    let at = choose|now: i64| #[trigger]
        clock::was_shown(now) && clock::is_wall_time(now) && final(w)@ == old(w)@.locked(
            schedule@,
            now,
        ) && applied.1 == now + applied.0;
    assert(final(w)@ == old(w)@.locked(schedule@, at));
    let now = choose|now: i64| #[trigger]
        clock::was_shown(now) && clock::is_wall_time(now) && final(s)@ == old(s)@.logged_out(now);
    crate::laws::sessions::law_logout_history(old(s)@, now);
    let history = final(s).logout_history@;
    assert(history == old(s)@.logged_out(now).logout_history);
    assert forall|i: int| 0 <= i < history.len() implies history.last() - #[trigger] history[i]
        < 600 by {
        if i < history.len() - 1 {
            assert(history.drop_last()[i] == history[i]);
            assert(history.drop_last().contains(history[i]));
        }
    }
    if old(s).logout_history@.len() == 0 {
        assert(history.len() <= 1);
    }
}

/// Installing a client, its lease and its chat store fill their own slots alone; taking the client
/// out empties all four.
pub proof fn law_client_calls(
    s: &mut SessionState,
    u: &mut SessionState,
    w: &mut SessionState,
    client: Option<ClientHandle>,
    lease: LeaseHandle,
    store: ChatStoreHandle,
    subscription: SubscriptionHandle,
)
    requires
        call_ensures(SessionState::set_client, (s, client), ()),
        call_ensures(SessionState::set_enc_decrypt_failed_lease, (u, lease), ()),
        call_ensures(SessionState::set_chat_store, (w, store, subscription), ()),
    ensures
        final(s).client == client,
        client is None ==> final(s).enc_decrypt_failed_lease is None && final(s).chat_store is None
            && final(s).chat_store_subscription is None,
        client is Some ==> final(s).enc_decrypt_failed_lease == old(s).enc_decrypt_failed_lease
            && final(s).chat_store == old(s).chat_store && final(s).chat_store_subscription
            == old(s).chat_store_subscription,
        final(s).status == old(s).status,
        same_pairing(*final(s), *old(s)),
        same_settings(*final(s), *old(s)),
        same_lock(*final(s), *old(s)),
        same_history(*final(s), *old(s)),
        final(u).enc_decrypt_failed_lease == Some(lease),
        final(u).client == old(u).client,
        final(u).chat_store == old(u).chat_store,
        final(u).chat_store_subscription == old(u).chat_store_subscription,
        final(u).status == old(u).status,
        same_pairing(*final(u), *old(u)),
        same_settings(*final(u), *old(u)),
        same_lock(*final(u), *old(u)),
        same_history(*final(u), *old(u)),
        final(w).chat_store == Some(store),
        final(w).chat_store_subscription == Some(subscription),
        final(w).client == old(w).client,
        final(w).enc_decrypt_failed_lease == old(w).enc_decrypt_failed_lease,
        final(w).status == old(w).status,
        same_pairing(*final(w), *old(w)),
        same_settings(*final(w), *old(w)),
        same_lock(*final(w), *old(w)),
        same_history(*final(w), *old(w)),
{
    assert(final(s)@ == old(s)@.with_client(client));
    assert(final(u)@.enc_decrypt_failed_lease == Some(lease));
    assert(final(w)@.chat_store == Some(store));
}

/// What is set is what is read back, and setting it changes nothing else.
pub proof fn law_plain_setters(
    a: &mut SessionState,
    b: &mut SessionState,
    c: &mut SessionState,
    d: &mut SessionState,
    e: &mut SessionState,
    status: SessionStatus,
    codes: Vec<String>,
    code: Option<String>,
    auto: bool,
    skip: bool,
)
    requires
        call_ensures(SessionState::set_status, (a, status), ()),
        call_ensures(SessionState::set_qr_codes, (b, codes), ()),
        call_ensures(SessionState::set_pair_code, (c, code), ()),
        call_ensures(SessionState::set_auto_reconnect_pref, (d, auto), ()),
        call_ensures(SessionState::set_skip_history_sync_pref, (e, skip), ()),
    ensures
        final(a).status == status,
        same_client_side(*final(a), *old(a)),
        same_pairing(*final(a), *old(a)),
        same_settings(*final(a), *old(a)),
        same_lock(*final(a), *old(a)),
        same_history(*final(a), *old(a)),
        final(b).qr_codes@.len() == codes@.len(),
        forall|i: int|
            0 <= i < codes@.len() ==> (#[trigger] final(b).qr_codes@[i])@ == codes@[i]@,
        final(b)@.pair_code == old(b)@.pair_code,
        same_pair_state(final(b).pair_state, old(b).pair_state),
        final(b).status == old(b).status,
        same_client_side(*final(b), *old(b)),
        same_settings(*final(b), *old(b)),
        same_lock(*final(b), *old(b)),
        same_history(*final(b), *old(b)),
        final(c).pair_code is Some <==> code is Some,
        code is Some ==> final(c).pair_code->0@ == code->0@,
        final(c)@.qr_codes == old(c)@.qr_codes,
        same_pair_state(final(c).pair_state, old(c).pair_state),
        final(c).status == old(c).status,
        same_client_side(*final(c), *old(c)),
        same_settings(*final(c), *old(c)),
        same_lock(*final(c), *old(c)),
        same_history(*final(c), *old(c)),
        final(d).auto_reconnect_pref == auto,
        final(d).skip_history_sync_pref == old(d).skip_history_sync_pref,
        final(d).storage_path@ == old(d).storage_path@,
        final(d).status == old(d).status,
        same_client_side(*final(d), *old(d)),
        same_pairing(*final(d), *old(d)),
        same_lock(*final(d), *old(d)),
        same_history(*final(d), *old(d)),
        final(e).skip_history_sync_pref == skip,
        final(e).auto_reconnect_pref == old(e).auto_reconnect_pref,
        final(e).storage_path@ == old(e).storage_path@,
        final(e).status == old(e).status,
        same_client_side(*final(e), *old(e)),
        same_pairing(*final(e), *old(e)),
        same_lock(*final(e), *old(e)),
        same_history(*final(e), *old(e)),
{
    assert(final(a)@.status == status);
    assert(final(b)@.qr_codes == crate::text::texts(codes@));
    assert(final(b)@.qr_codes.len() == codes@.len());
    assert forall|i: int| 0 <= i < codes@.len() implies (#[trigger] final(b).qr_codes@[i])@
        == codes@[i]@ by {
        assert(final(b)@.qr_codes[i] == crate::text::texts(codes@)[i]);
    }
    assert(final(c)@.pair_code == crate::text::opt_text(code));
    assert(final(d)@.auto_reconnect_pref == auto);
    assert(final(e)@.skip_history_sync_pref == skip);
}

/// What is read is what the session holds.
pub proof fn law_plain_getters(
    s: &SessionState,
    status: SessionStatus,
    codes: Vec<String>,
    code: Option<String>,
    auto: bool,
    skip: bool,
    client: Option<ClientHandle>,
    store: Option<ChatStoreHandle>,
    pairing: PairState,
)
    requires
        call_ensures(SessionState::get_status, (s,), status),
        call_ensures(SessionState::get_qr_codes, (s,), codes),
        call_ensures(SessionState::get_pair_code, (s,), code),
        call_ensures(SessionState::auto_reconnect_enabled, (s,), auto),
        call_ensures(SessionState::skip_history_sync, (s,), skip),
        call_ensures(SessionState::get_client, (s,), client),
        call_ensures(SessionState::get_chat_store, (s,), store),
        call_ensures(SessionState::get_pair_state, (s,), pairing),
    ensures
        status == s.status,
        codes@.len() == s.qr_codes@.len(),
        forall|i: int| 0 <= i < codes@.len() ==> (#[trigger] codes@[i])@ == s.qr_codes@[i]@,
        code is Some <==> s.pair_code is Some,
        code is Some ==> code->0@ == s.pair_code->0@,
        auto == s.auto_reconnect_pref,
        skip == s.skip_history_sync_pref,
        client == s.client,
        store == s.chat_store,
        pairing.last_qr_at == s.pair_state.last_qr_at,
        pairing.last_pair_code_at == s.pair_state.last_pair_code_at,
        pairing.pair_code_expires_at == s.pair_state.pair_code_expires_at,
        pairing.last_error is Some <==> s.pair_state.last_error is Some,
        pairing.last_error is Some ==> pairing.last_error->0@ == s.pair_state.last_error->0@,
        pairing.attempts == s.pair_state.attempts,
{
    assert(crate::text::texts(codes@).len() == s@.qr_codes.len());
    assert forall|i: int| 0 <= i < codes@.len() implies (#[trigger] codes@[i])@
        == s.qr_codes@[i]@ by {
        assert(crate::text::texts(codes@)[i] == s@.qr_codes[i]);
    }
    assert(pairing@ == s.pair_state@);
}

/// Clearing the pair state leaves no trace of the last attempt, and changes nothing else.
pub proof fn law_clear_pair_state(s: &mut SessionState)
    requires
        call_ensures(SessionState::clear_pair_state, (s,), ()),
    ensures
        final(s).pair_state.last_qr_at is None,
        final(s).pair_state.last_pair_code_at is None,
        final(s).pair_state.pair_code_expires_at is None,
        final(s).pair_state.last_error is None,
        final(s).pair_state.attempts == 0,
        final(s)@.qr_codes == old(s)@.qr_codes,
        final(s)@.pair_code == old(s)@.pair_code,
        final(s).status == old(s).status,
        same_client_side(*final(s), *old(s)),
        same_settings(*final(s), *old(s)),
        same_lock(*final(s), *old(s)),
        same_history(*final(s), *old(s)),
{
    assert(final(s)@.pair_state.last_error is None);
}

} // verus!
