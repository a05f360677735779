//! The runtime state of one WhatsApp session.

use crate::clock;
use crate::text;
use vstd::prelude::*;

verus! {

/// The cached status of a session.
#[derive(Debug, Clone, Copy, PartialEq, Eq, Structural)]
pub enum SessionStatus {
    Disconnected,
    Connecting,
    LoggedIn,
}

/// Identifies the client that is installed in a session.
#[derive(Debug, Clone, Copy, PartialEq, Eq, Structural)]
pub struct ClientHandle {
    pub id: u64,
}

/// Identifies the lease that keeps decrypt-failure events flowing.
#[derive(Debug, Clone, Copy, PartialEq, Eq, Structural)]
pub struct LeaseHandle {
    pub id: u64,
}

/// Identifies a session's chat store.
#[derive(Debug, Clone, Copy, PartialEq, Eq, Structural)]
pub struct ChatStoreHandle {
    pub id: u64,
}

/// Identifies the subscription that feeds a chat store.
#[derive(Debug, Clone, Copy, PartialEq, Eq, Structural)]
pub struct SubscriptionHandle {
    pub id: u64,
}

/// What the installed client reports of its socket. It has no meaning where no client is
/// installed.
#[derive(Debug, Clone, Copy, PartialEq, Eq, Structural)]
pub struct ClientLink {
    pub connected: bool,
    pub logged_in: bool,
}

/// The latest pair attempt of a session.
#[derive(Debug)]
pub struct PairState {
    pub last_qr_at: Option<i64>,
    pub last_pair_code_at: Option<i64>,
    pub pair_code_expires_at: Option<i64>,
    pub last_error: Option<String>,
    pub attempts: u32,
}

/// What a [`PairState`] says.
#[verifier::ext_equal]
pub struct PairView {
    pub last_qr_at: Option<i64>,
    pub last_pair_code_at: Option<i64>,
    pub pair_code_expires_at: Option<i64>,
    pub last_error: Option<Seq<char>>,
    pub attempts: u32,
}

impl View for PairState {
    type V = PairView;

    open spec fn view(&self) -> PairView {
        PairView {
            last_qr_at: self.last_qr_at,
            last_pair_code_at: self.last_pair_code_at,
            pair_code_expires_at: self.pair_code_expires_at,
            last_error: text::opt_text(self.last_error),
            attempts: self.attempts,
        }
    }
}

impl PairView {
    /// No attempt yet.
    pub open spec fn blank() -> PairView {
        PairView {
            last_qr_at: None,
            last_pair_code_at: None,
            pair_code_expires_at: None,
            last_error: None,
            attempts: 0,
        }
    }
}

impl Default for PairState {
    fn default() -> (state: Self)
        ensures
            state@ == PairView::blank(),
    {
        PairState {
            last_qr_at: None,
            last_pair_code_at: None,
            pair_code_expires_at: None,
            last_error: None,
            attempts: 0,
        }
    }
}

impl Clone for PairState {
    fn clone(&self) -> (copy: Self)
        ensures
            copy@ == self@,
    {
        PairState {
            last_qr_at: self.last_qr_at,
            last_pair_code_at: self.last_pair_code_at,
            pair_code_expires_at: self.pair_code_expires_at,
            last_error: text::copy_opt(&self.last_error),
            attempts: self.attempts,
        }
    }
}

/// Everything about a live session that does not belong on disk. Times are Unix seconds.
#[derive(Debug)]
pub struct SessionState {
    pub client: Option<ClientHandle>,
    pub qr_codes: Vec<String>,
    pub pair_code: Option<String>,
    pub status: SessionStatus,
    pub storage_path: String,
    /// When the session was logged out, within the purge window.
    pub logout_history: Vec<i64>,
    pub pair_state: PairState,
    /// Start of the current unplanned reconnect window.
    pub reconnecting_since: Option<i64>,
    /// Until when auto-reconnect is paused by an account lock.
    pub lock_cooldown_until: Option<i64>,
    /// Account locks since the last manual connect.
    pub lock_strikes: u32,
    pub auto_reconnect_pref: bool,
    pub skip_history_sync_pref: bool,
    pub enc_decrypt_failed_lease: Option<LeaseHandle>,
    pub chat_store: Option<ChatStoreHandle>,
    /// Keeps the chat store fed; always mirrors the `chat_store` slot.
    pub chat_store_subscription: Option<SubscriptionHandle>,
}

/// What a [`SessionState`] holds.
#[verifier::ext_equal]
pub struct SessionView {
    pub client: Option<ClientHandle>,
    pub qr_codes: Seq<Seq<char>>,
    pub pair_code: Option<Seq<char>>,
    pub status: SessionStatus,
    pub storage_path: Seq<char>,
    pub logout_history: Seq<i64>,
    pub pair_state: PairView,
    pub reconnecting_since: Option<i64>,
    pub lock_cooldown_until: Option<i64>,
    pub lock_strikes: u32,
    pub auto_reconnect_pref: bool,
    pub skip_history_sync_pref: bool,
    pub enc_decrypt_failed_lease: Option<LeaseHandle>,
    pub chat_store: Option<ChatStoreHandle>,
    pub chat_store_subscription: Option<SubscriptionHandle>,
}

impl View for SessionState {
    type V = SessionView;

    open spec fn view(&self) -> SessionView {
        SessionView {
            client: self.client,
            qr_codes: text::texts(self.qr_codes@),
            pair_code: text::opt_text(self.pair_code),
            status: self.status,
            storage_path: self.storage_path@,
            logout_history: self.logout_history@,
            pair_state: self.pair_state@,
            reconnecting_since: self.reconnecting_since,
            lock_cooldown_until: self.lock_cooldown_until,
            lock_strikes: self.lock_strikes,
            auto_reconnect_pref: self.auto_reconnect_pref,
            skip_history_sync_pref: self.skip_history_sync_pref,
            enc_decrypt_failed_lease: self.enc_decrypt_failed_lease,
            chat_store: self.chat_store,
            chat_store_subscription: self.chat_store_subscription,
        }
    }
}

/// Logouts that lie this many seconds back no longer count.
pub const PURGE_WINDOW_SECS: i64 = 600;

/// Logouts inside the window that purge a session.
pub const PURGE_THRESHOLD: usize = 3;

impl SessionView {
    /// A session without a client, as it is created.
    pub open spec fn fresh(storage_path: Seq<char>) -> SessionView {
        SessionView {
            client: None,
            qr_codes: Seq::empty(),
            pair_code: None,
            status: SessionStatus::Disconnected,
            storage_path,
            logout_history: Seq::empty(),
            pair_state: PairView::blank(),
            reconnecting_since: None,
            lock_cooldown_until: None,
            lock_strikes: 0,
            auto_reconnect_pref: true,
            skip_history_sync_pref: false,
            enc_decrypt_failed_lease: None,
            chat_store: None,
            chat_store_subscription: None,
        }
    }

    /// The chat store and its subscription come and go together, and the reconnect window starts
    /// at a time that the clock can show.
    pub open spec fn wf(self) -> bool {
        &&& self.chat_store is Some <==> self.chat_store_subscription is Some
        &&& self.reconnecting_since is Some ==> clock::is_wall_time(self.reconnecting_since->0)
    }

    /// The strike count after one more lock.
    pub open spec fn next_strikes(self) -> u32 {
        if self.lock_strikes == u32::MAX {
            u32::MAX
        } else {
            (self.lock_strikes + 1) as u32
        }
    }

    /// The step of a schedule of `len` steps that the next lock applies.
    pub open spec fn lock_step(self, len: nat) -> int {
        if self.next_strikes() - 1 < len {
            self.next_strikes() - 1
        } else {
            len - 1
        }
    }

    /// The session after an account lock at `now`.
    pub open spec fn locked(self, schedule: Seq<i64>, now: i64) -> SessionView {
        SessionView {
            lock_strikes: self.next_strikes(),
            lock_cooldown_until: Some((now + schedule[self.lock_step(schedule.len())]) as i64),
            ..self
        }
    }

    /// The session after a manual connect lifted the lock.
    pub open spec fn unlocked(self) -> SessionView {
        SessionView { lock_strikes: 0, lock_cooldown_until: None, ..self }
    }

    /// Seconds of lock cooldown that remain at `now`.
    pub open spec fn cooldown_remaining(self, now: i64) -> Option<i64> {
        match self.lock_cooldown_until {
            Some(until) => if until > now {
                Some((until - now) as i64)
            } else {
                None
            },
            None => None,
        }
    }

    /// The session after it went into an unplanned reconnect at `now`, which a window that is
    /// already open ignores.
    pub open spec fn reconnecting(self, now: i64) -> SessionView {
        SessionView {
            reconnecting_since: if self.reconnecting_since is Some {
                self.reconnecting_since
            } else {
                Some(now)
            },
            ..self
        }
    }

    /// The session outside any reconnect window.
    pub open spec fn settled(self) -> SessionView {
        SessionView { reconnecting_since: None, ..self }
    }

    /// Seconds since the reconnect window opened, at `now`.
    pub open spec fn reconnecting_for(self, now: i64) -> Option<i64> {
        match self.reconnecting_since {
            Some(since) => if now > since {
                Some((now - since) as i64)
            } else {
                Some(0)
            },
            None => None,
        }
    }

    /// The session after a logout at `now`.
    pub open spec fn logged_out(self, now: i64) -> SessionView {
        SessionView {
            logout_history: self.logout_history.filter(
                |t: i64| now - t < PURGE_WINDOW_SECS,
            ).push(now),
            ..self
        }
    }

    /// Whether enough recent logouts were recorded to purge the session.
    pub open spec fn must_purge(self) -> bool {
        self.logout_history.len() >= PURGE_THRESHOLD
    }

    /// Whether the installed client is connected and logged in.
    pub open spec fn alive(self, link: ClientLink) -> bool {
        self.client is Some && link.connected && link.logged_in
    }

    /// The cached status, checked against the socket: a session that is logged in over a dead
    /// socket is connecting.
    pub open spec fn status_now(self, link: ClientLink) -> SessionStatus {
        if self.status == SessionStatus::LoggedIn && !self.alive(link) {
            SessionStatus::Connecting
        } else {
            self.status
        }
    }

    /// The session after `client` was installed, or taken out along with what depends on it.
    pub open spec fn with_client(self, client: Option<ClientHandle>) -> SessionView {
        if client is None {
            SessionView {
                client,
                enc_decrypt_failed_lease: None,
                chat_store: None,
                chat_store_subscription: None,
                ..self
            }
        } else {
            SessionView { client, ..self }
        }
    }
}

impl SessionState {
    /// See [`SessionView::wf`].
    pub open spec fn wf(&self) -> bool {
        self@.wf()
    }

    pub fn new(storage_path: String) -> (session: Self)
        ensures
            session@ == SessionView::fresh(storage_path@),
            session.wf(),
    {
        SessionState {
            client: None,
            qr_codes: Vec::new(),
            pair_code: None,
            status: SessionStatus::Disconnected,
            storage_path,
            logout_history: Vec::new(),
            pair_state: PairState::default(),
            reconnecting_since: None,
            lock_cooldown_until: None,
            lock_strikes: 0,
            auto_reconnect_pref: true,
            skip_history_sync_pref: false,
            enc_decrypt_failed_lease: None,
            chat_store: None,
            chat_store_subscription: None,
        }
    }

    /// Records an account lock at `now` and returns the cooldown just applied, in seconds, and
    /// its end. Each strike walks one step down `schedule`, and the last step repeats.
    pub fn record_lock_cooldown_at(&mut self, schedule: &[i64], now: i64) -> (applied: (i64, i64))
        requires
            schedule@.len() > 0,
            i64::MIN <= now + schedule@[old(self)@.lock_step(schedule@.len())] <= i64::MAX,
        ensures
            final(self)@ == old(self)@.locked(schedule@, now),
            applied.0 == schedule@[old(self)@.lock_step(schedule@.len())],
            applied.1 == now + applied.0,
            old(self).wf() ==> final(self).wf(),
    {
        self.lock_strikes = self.lock_strikes.saturating_add(1);
        let reached: usize = (self.lock_strikes as usize).saturating_sub(1);
        let last: usize = schedule.len() - 1;
        let step: usize = if reached < last {
            reached
        } else {
            last
        };
        let secs: i64 = schedule[step];
        let until: i64 = now + secs;
        self.lock_cooldown_until = Some(until);
        (secs, until)
    }

    /// Records an account lock and returns the cooldown just applied, in seconds, and its end.
    pub fn record_lock_cooldown(&mut self, schedule: &[i64]) -> (applied: (i64, i64))
        requires
            schedule@.len() > 0,
            schedule@[old(self)@.lock_step(schedule@.len())] + clock::LAST_SECOND <= i64::MAX,
        ensures
            exists|now: i64| #[trigger]
                clock::was_shown(now) && clock::is_wall_time(now)
                    && final(self)@ == old(self)@.locked(schedule@, now)
                    && applied.1 == now + applied.0,
            applied.0 == schedule@[old(self)@.lock_step(schedule@.len())],
            old(self).wf() ==> final(self).wf(),
    {
        let now: i64 = clock::unix_seconds();
        self.record_lock_cooldown_at(schedule, now)
    }

    /// Lifts the lock cooldown and starts the escalation over.
    pub fn clear_lock_cooldown(&mut self)
        ensures
            final(self)@ == old(self)@.unlocked(),
            old(self).wf() ==> final(self).wf(),
    {
        self.lock_cooldown_until = None;
        self.lock_strikes = 0;
    }

    /// Seconds of lock cooldown that remain at `now`.
    pub fn lock_cooldown_remaining_at(&self, now: i64) -> (remaining: Option<i64>)
        requires
            now >= 0,
        ensures
            remaining == self@.cooldown_remaining(now),
    {
        match self.lock_cooldown_until {
            Some(until) => if until > now {
                Some(until - now)
            } else {
                None
            },
            None => None,
        }
    }

    /// Seconds of lock cooldown that remain, or `None` where the session is not paused.
    pub fn lock_cooldown_remaining(&self) -> (remaining: Option<i64>)
        ensures
            exists|now: i64| #[trigger]
                clock::was_shown(now) && clock::is_wall_time(now)
                    && remaining == self@.cooldown_remaining(now),
    {
        let now: i64 = clock::unix_seconds();
        self.lock_cooldown_remaining_at(now)
    }

    /// Opens a reconnect window at `now`, unless one is open.
    pub fn mark_reconnecting_at(&mut self, now: i64)
        requires
            clock::is_wall_time(now),
        ensures
            final(self)@ == old(self)@.reconnecting(now),
            old(self).wf() ==> final(self).wf(),
    {
        if self.reconnecting_since.is_none() {
            self.reconnecting_since = Some(now);
        }
    }

    /// Opens a reconnect window, unless one is open.
    pub fn mark_reconnecting_now(&mut self)
        ensures
            exists|now: i64| #[trigger]
                clock::was_shown(now) && clock::is_wall_time(now)
                    && final(self)@ == old(self)@.reconnecting(now),
            old(self).wf() ==> final(self).wf(),
    {
        let now: i64 = clock::unix_seconds();
        self.mark_reconnecting_at(now);
    }

    /// Closes the reconnect window.
    pub fn clear_reconnecting(&mut self)
        ensures
            final(self)@ == old(self)@.settled(),
            old(self).wf() ==> final(self).wf(),
    {
        self.reconnecting_since = None;
    }

    /// Seconds since the reconnect window opened, at `now`.
    pub fn reconnecting_for_secs_at(&self, now: i64) -> (secs: Option<i64>)
        requires
            self.wf(),
        ensures
            secs == self@.reconnecting_for(now),
    {
        match self.reconnecting_since {
            Some(since) => if now > since {
                Some(now - since)
            } else {
                Some(0)
            },
            None => None,
        }
    }

    /// Seconds since the reconnect window opened, or `None` outside one.
    pub fn reconnecting_for_secs(&self) -> (secs: Option<i64>)
        requires
            self.wf(),
        ensures
            exists|now: i64| #[trigger]
                clock::was_shown(now) && clock::is_wall_time(now)
                    && secs == self@.reconnecting_for(now),
    {
        let now: i64 = clock::unix_seconds();
        self.reconnecting_for_secs_at(now)
    }

    /// Records a logout at `now` and returns whether the session is to be purged.
    pub fn record_logout_and_should_purge_at(&mut self, now: i64) -> (purge: bool)
        requires
            now >= 0,
        ensures
            final(self)@ == old(self)@.logged_out(now),
            purge == final(self)@.must_purge(),
            old(self).wf() ==> final(self).wf(),
    {
        let horizon: i64 = now - PURGE_WINDOW_SECS;
        let ghost recent = |t: i64| now - t < PURGE_WINDOW_SECS;
        let mut kept: Vec<i64> = Vec::new();
        for i in 0..self.logout_history.len()
            invariant
                horizon == now - PURGE_WINDOW_SECS,
                recent == |t: i64| now - t < PURGE_WINDOW_SECS,
                kept@ == self.logout_history@.take(i as int).filter(recent),
        {
            let at: i64 = self.logout_history[i];
            proof {
                reveal(Seq::filter);
                assert(self.logout_history@.take(i + 1).drop_last() == self.logout_history@.take(
                    i as int,
                ));
            }
            if at > horizon {
                kept.push(at);
            }
        }
        proof {
            assert(self.logout_history@.take(self.logout_history@.len() as int)
                == self.logout_history@);
        }
        kept.push(now);
        self.logout_history = kept;
        self.logout_history.len() >= PURGE_THRESHOLD
    }

    /// Records a logout and returns whether the session is to be purged.
    pub fn record_logout_and_should_purge(&mut self) -> (purge: bool)
        ensures
            exists|now: i64| #[trigger]
                clock::was_shown(now) && clock::is_wall_time(now)
                    && final(self)@ == old(self)@.logged_out(now),
            purge == final(self)@.must_purge(),
            old(self).wf() ==> final(self).wf(),
    {
        let now: i64 = clock::unix_seconds();
        self.record_logout_and_should_purge_at(now)
    }

    pub fn get_pair_state(&self) -> (state: PairState)
        ensures
            state@ == self@.pair_state,
    {
        self.pair_state.clone()
    }

    /// Replaces the pair state by what `f` makes of it.
    pub fn update_pair_state(&mut self, f: impl FnOnce(PairState) -> PairState)
        requires
            f.requires((old(self).pair_state,)),
        ensures
            f.ensures((old(self).pair_state,), final(self).pair_state),
            final(self)@ == (SessionView { pair_state: final(self).pair_state@, ..old(self)@ }),
            old(self).wf() ==> final(self).wf(),
    {
        let mut current = PairState::default();
        std::mem::swap(&mut current, &mut self.pair_state);
        self.pair_state = f(current);
    }

    pub fn clear_pair_state(&mut self)
        ensures
            final(self)@ == (SessionView { pair_state: PairView::blank(), ..old(self)@ }),
            old(self).wf() ==> final(self).wf(),
    {
        self.pair_state = PairState::default();
    }

    pub fn get_client(&self) -> (client: Option<ClientHandle>)
        ensures
            client == self@.client,
    {
        self.client
    }

    /// The client, only where its socket is connected and logged in.
    pub fn get_live_client(&self, link: ClientLink) -> (client: Option<ClientHandle>)
        ensures
            client == (if self@.alive(link) {
                self@.client
            } else {
                None
            }),
    {
        if link.connected && link.logged_in {
            self.client
        } else {
            None
        }
    }

    /// Whether the session is connected and authenticated.
    pub fn is_alive(&self, link: ClientLink) -> (alive: bool)
        ensures
            alive == self@.alive(link),
    {
        match self.client {
            Some(_) => link.connected && link.logged_in,
            None => false,
        }
    }

    /// Whether the transport is connected, be the session logged in or not.
    pub fn socket_alive(&self, link: ClientLink) -> (alive: bool)
        ensures
            alive == (self@.client is Some && link.connected),
    {
        match self.client {
            Some(_) => link.connected,
            None => false,
        }
    }

    /// Installs a client; taking it out drops what depends on it.
    pub fn set_client(&mut self, client: Option<ClientHandle>)
        ensures
            final(self)@ == old(self)@.with_client(client),
            old(self).wf() ==> final(self).wf(),
    {
        if client.is_none() {
            self.enc_decrypt_failed_lease = None;
            self.chat_store = None;
            self.chat_store_subscription = None;
        }
        self.client = client;
    }

    pub fn set_enc_decrypt_failed_lease(&mut self, lease: LeaseHandle)
        ensures
            final(self)@ == (SessionView { enc_decrypt_failed_lease: Some(lease), ..old(self)@ }),
            old(self).wf() ==> final(self).wf(),
    {
        self.enc_decrypt_failed_lease = Some(lease);
    }

    /// Installs the chat store and the subscription that feeds it.
    pub fn set_chat_store(&mut self, store: ChatStoreHandle, subscription: SubscriptionHandle)
        ensures
            final(self)@ == (SessionView {
                chat_store: Some(store),
                chat_store_subscription: Some(subscription),
                ..old(self)@
            }),
            old(self).wf() ==> final(self).wf(),
    {
        self.chat_store = Some(store);
        self.chat_store_subscription = Some(subscription);
    }

    pub fn get_chat_store(&self) -> (store: Option<ChatStoreHandle>)
        ensures
            store == self@.chat_store,
    {
        self.chat_store
    }

    pub fn get_qr_codes(&self) -> (codes: Vec<String>)
        ensures
            text::texts(codes@) == self@.qr_codes,
    {
        text::copy_texts(&self.qr_codes)
    }

    pub fn set_qr_codes(&mut self, codes: Vec<String>)
        ensures
            final(self)@ == (SessionView { qr_codes: text::texts(codes@), ..old(self)@ }),
            old(self).wf() ==> final(self).wf(),
    {
        self.qr_codes = codes;
    }

    pub fn get_pair_code(&self) -> (code: Option<String>)
        ensures
            text::opt_text(code) == self@.pair_code,
    {
        text::copy_opt(&self.pair_code)
    }

    pub fn set_pair_code(&mut self, code: Option<String>)
        ensures
            final(self)@ == (SessionView { pair_code: text::opt_text(code), ..old(self)@ }),
            old(self).wf() ==> final(self).wf(),
    {
        self.pair_code = code;
    }

    pub fn get_status(&self) -> (status: SessionStatus)
        ensures
            status == self@.status,
    {
        self.status
    }

    /// The cached status, checked against the socket.
    pub fn effective_status(&self, link: ClientLink) -> (status: SessionStatus)
        ensures
            status == self@.status_now(link),
    {
        let cached = self.status;
        if cached == SessionStatus::LoggedIn && !self.is_alive(link) {
            SessionStatus::Connecting
        } else {
            cached
        }
    }

    pub fn set_status(&mut self, status: SessionStatus)
        ensures
            final(self)@ == (SessionView { status, ..old(self)@ }),
            old(self).wf() ==> final(self).wf(),
    {
        self.status = status;
    }

    pub fn auto_reconnect_enabled(&self) -> (enabled: bool)
        ensures
            enabled == self@.auto_reconnect_pref,
    {
        self.auto_reconnect_pref
    }

    pub fn set_auto_reconnect_pref(&mut self, enabled: bool)
        ensures
            final(self)@ == (SessionView { auto_reconnect_pref: enabled, ..old(self)@ }),
            old(self).wf() ==> final(self).wf(),
    {
        self.auto_reconnect_pref = enabled;
    }

    pub fn skip_history_sync(&self) -> (skip: bool)
        ensures
            skip == self@.skip_history_sync_pref,
    {
        self.skip_history_sync_pref
    }

    pub fn set_skip_history_sync_pref(&mut self, skip: bool)
        ensures
            final(self)@ == (SessionView { skip_history_sync_pref: skip, ..old(self)@ }),
            old(self).wf() ==> final(self).wf(),
    {
        self.skip_history_sync_pref = skip;
    }
}

} // verus!
