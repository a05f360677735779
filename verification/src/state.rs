//! The state that the whole process shares: sessions, webhooks and their circuits, dead letters,
//! recent events, and tags.

use crate::circuits;
use crate::clock;
use crate::config;
use crate::config::{AccountLockBackoffConfig, WebhookRetryConfig};
use crate::delivery;
use crate::delivery::{AttemptOutcome, DeliveryRun, DeliveryStep, Verdict};
use crate::events;
use crate::events::ConsoleEvent;
use crate::registry;
use crate::session::SessionState;
use crate::table;
use crate::tags;
use crate::text;
use crate::text_set;
use crate::webhooks;
use crate::webhooks::{WebhookConfig, WebhookDlqEntry, WebhookFailureAction};
use vstd::prelude::*;

verus! {

/// One voice of the text-to-speech service, as the service describes it.
#[derive(Debug)]
pub struct VoiceEntry {
    pub json: String,
}

/// The descriptions of a list of voices.
pub open spec fn voice_texts(voices: Seq<VoiceEntry>) -> Seq<Seq<char>> {
    voices.map_values(|voice: VoiceEntry| voice.json@)
}

/// The view of a session.
pub open spec fn session_view() -> spec_fn(SessionState) -> crate::session::SessionView {
    |session: SessionState| session@
}

/// The shared state.
pub struct AppState {
    sessions: table::Table<SessionState>,
    webhooks: registry::WebhookRegistry,
    base_storage_path: String,
    webhook_circuits: circuits::CircuitBoard,
    webhook_retry: WebhookRetryConfig,
    account_lock_backoff: AccountLockBackoffConfig,
    webhook_dlq: registry::DeadLetters,
    event_ring: events::EventRing,
    session_tags: tags::TagStore,
    voice_cache: Option<Vec<VoiceEntry>>,
    /// Where the monotonic clock's readings count from.
    clock_origin: std::time::Instant,
}

/// What an [`AppState`] holds.
#[verifier::ext_equal]
pub struct AppView {
    pub sessions: Map<Seq<char>, crate::session::SessionView>,
    /// By session and webhook id.
    pub webhooks: Map<Seq<char>, Map<Seq<char>, crate::webhooks::WebhookView>>,
    pub base_storage_path: Seq<char>,
    /// By URL.
    pub webhook_circuits: Map<Seq<char>, crate::webhooks::CircuitState>,
    pub webhook_retry: WebhookRetryConfig,
    pub lock_schedule: Seq<i64>,
    /// By session, oldest entry first.
    pub webhook_dlq: Map<Seq<char>, Seq<crate::webhooks::DlqView>>,
    /// Oldest event first.
    pub event_ring: Seq<crate::events::EventView>,
    /// By session.
    pub session_tags: Map<Seq<char>, Set<Seq<char>>>,
    pub voice_cache: Option<Seq<Seq<char>>>,
    /// Where the times of the circuits count from.
    pub clock_origin: std::time::Instant,
}

impl View for AppState {
    type V = AppView;

    closed spec fn view(&self) -> AppView {
        AppView {
            sessions: self.sessions@.map_values(session_view()),
            webhooks: self.webhooks@,
            base_storage_path: self.base_storage_path@,
            webhook_circuits: self.webhook_circuits@,
            webhook_retry: self.webhook_retry,
            lock_schedule: self.account_lock_backoff.schedule@,
            webhook_dlq: self.webhook_dlq@,
            event_ring: self.event_ring@,
            session_tags: self.session_tags@,
            voice_cache: match self.voice_cache {
                Some(voices) => Some(voice_texts(voices@)),
                None => None,
            },
            clock_origin: self.clock_origin,
        }
    }
}

impl AppView {
    /// What holds of every state: the sessions are well formed, the lock schedule is a list of
    /// cooldowns, no dead-letter queue is over its capacity, and the event ring not over its own.
    pub open spec fn wf(self) -> bool {
        &&& forall|id: Seq<char>| #[trigger] self.sessions.contains_key(id) ==> self.sessions[id].wf()
        &&& self.lock_schedule.len() > 0
        &&& forall|i: int|
            0 <= i < self.lock_schedule.len() ==> #[trigger] self.lock_schedule[i] > 0
        &&& self.webhook_retry.max_attempts > 0
        &&& self.webhook_retry.dlq_capacity > 0
        &&& forall|id: Seq<char>| #[trigger]
            self.webhook_dlq.contains_key(id) ==> self.webhook_dlq[id].len()
                <= self.webhook_retry.dlq_capacity
        &&& self.event_ring.len() <= events::RING_CAPACITY
    }

    /// The state at startup.
    pub open spec fn initial(
        base_storage_path: Seq<char>,
        webhook_retry: WebhookRetryConfig,
        lock_schedule: Seq<i64>,
        clock_origin: std::time::Instant,
    ) -> AppView {
        AppView {
            sessions: Map::empty(),
            webhooks: Map::empty(),
            base_storage_path,
            webhook_circuits: Map::empty(),
            webhook_retry,
            lock_schedule,
            webhook_dlq: Map::empty(),
            event_ring: Seq::empty(),
            session_tags: Map::empty(),
            voice_cache: None,
            clock_origin,
        }
    }

    /// The state after an event was shown on the console.
    pub open spec fn with_event(
        self,
        session_id: Seq<char>,
        event: Seq<char>,
        payload: Seq<char>,
        at_epoch_ms: i64,
    ) -> AppView {
        AppView {
            event_ring: events::ring_pushed(
                self.event_ring,
                events::RING_CAPACITY as nat,
                crate::events::EventView {
                    session_id,
                    event_type: event,
                    payload_preview: events::preview_of(payload),
                    at_epoch_ms,
                },
            ),
            ..self
        }
    }

    /// The state after every registration for `url` was wiped, and its circuit with it.
    pub open spec fn without_url(self, url: Seq<char>) -> AppView {
        AppView {
            webhooks: registry::url_purged(self.webhooks, url),
            webhook_circuits: self.webhook_circuits.remove(url),
            ..self
        }
    }

    /// The state after a delivery to `url` succeeded at `now`.
    pub open spec fn with_success(self, url: Seq<char>, now: u128) -> AppView {
        AppView {
            webhook_circuits: circuits::success_recorded(self.webhook_circuits, url, now),
            ..self
        }
    }

    /// The state after a delivery to `url` failed at `now`.
    pub open spec fn with_failure(self, url: Seq<char>, now: u128) -> AppView {
        AppView {
            webhook_circuits: circuits::failure_recorded(self.webhook_circuits, url, now),
            ..self
        }
    }

    /// What one more failure of `url` leads to.
    pub open spec fn failure_action(self, url: Seq<char>, now: u128) -> WebhookFailureAction {
        circuits::circuit_of(self.webhook_circuits, url, now).failure_action()
    }

    /// The state after `entry` was dead-lettered.
    pub open spec fn with_dead_letter(self, entry: crate::webhooks::DlqView) -> AppView {
        AppView {
            webhook_dlq: registry::dead_lettered(
                self.webhook_dlq,
                self.webhook_retry.dlq_capacity as nat,
                entry,
            ),
            ..self
        }
    }

    /// The state after the open circuits were closed at `now`.
    pub open spec fn with_circuits_reset(self, now: u128) -> AppView {
        AppView {
            webhook_circuits: circuits::open_circuits_reset(self.webhook_circuits, now),
            ..self
        }
    }

    /// The state after a run ended without success: the failure counts against the circuit, a
    /// target that failed for too long is wiped, and the payload is dead-lettered under `id`.
    pub open spec fn given_up(
        self,
        run: crate::delivery::RunView,
        last_error: Seq<char>,
        id: Seq<char>,
        now: u128,
        failed_at: i64,
    ) -> AppView {
        let failed = self.with_failure(run.url, now);
        let purged = if self.failure_action(run.url, now) == WebhookFailureAction::HardDisable {
            failed.without_url(run.url)
        } else {
            failed
        };
        purged.with_dead_letter(run.dead_letter(id, last_error, failed_at))
    }

    /// The state after an attempt of `run` ended in `outcome`.
    pub open spec fn after_attempt(
        self,
        run: crate::delivery::RunView,
        outcome: crate::delivery::OutcomeView,
        id: Seq<char>,
        now: u128,
        failed_at: i64,
    ) -> AppView {
        match run.verdict(outcome) {
            Verdict::Delivered => self.with_success(run.url, now),
            Verdict::Retry => self,
            Verdict::GiveUp => self.given_up(run, outcome.error(), id, now, failed_at),
        }
    }

    /// What the caller is to do after an attempt of `run` ended in `outcome`.
    pub open spec fn step(
        self,
        run: crate::delivery::RunView,
        outcome: crate::delivery::OutcomeView,
        now: u128,
    ) -> crate::delivery::StepView {
        match run.verdict(outcome) {
            Verdict::Delivered => crate::delivery::StepView::Delivered,
            Verdict::Retry => crate::delivery::StepView::Retry {
                wait_secs: config::retry_delay_secs((run.attempt + 1) as nat),
            },
            Verdict::GiveUp => crate::delivery::StepView::DeadLettered {
                action: self.failure_action(run.url, now),
                disable_reason: if self.failure_action(run.url, now)
                    == WebhookFailureAction::HardDisable {
                    Some(delivery::disable_text(outcome.error()))
                } else {
                    None
                },
                last_error: outcome.error(),
                attempts: run.max_attempts,
            },
        }
    }

    /// Whether an event goes to the webhook `webhook_id` of `session_id` at `now`, where exactly
    /// the filters `matching` match the event.
    pub open spec fn dispatches(
        self,
        session_id: Seq<char>,
        webhook_id: Seq<char>,
        matching: Seq<Seq<char>>,
        now: u128,
    ) -> bool {
        let webhooks = registry::webhooks_of(self.webhooks, session_id);
        &&& webhooks.contains_key(webhook_id)
        &&& webhooks[webhook_id].enabled
        &&& webhooks[webhook_id].subscribes(matching)
        &&& !circuits::circuit_open(self.webhook_circuits, webhooks[webhook_id].url, now)
    }

    /// The delivery run of an event to the webhook `webhook_id` of `session_id`.
    pub open spec fn run_for(
        self,
        session_id: Seq<char>,
        webhook_id: Seq<char>,
        event: Seq<char>,
        payload: Seq<char>,
    ) -> crate::delivery::RunView {
        let webhook = registry::webhooks_of(self.webhooks, session_id)[webhook_id];
        crate::delivery::RunView::start(
            self.webhook_retry,
            session_id,
            event,
            webhook.url,
            webhook.secret,
            payload,
        )
    }
}

/// Where sessions are stored when nothing else is configured.
pub open spec fn storage_path_of(value: Option<Seq<char>>) -> Seq<char> {
    match value {
        Some(path) => path,
        None => "./whatsapp_sessions"@,
    }
}

/// Whether `list` holds exactly the sessions of `sessions` with their ids, each once.
pub open spec fn lists_sessions(
    list: Seq<(String, &SessionState)>,
    sessions: Map<Seq<char>, crate::session::SessionView>,
) -> bool {
    &&& forall|i: int|
        0 <= i < list.len() ==> sessions.contains_key((#[trigger] list[i]).0@)
            && sessions[list[i].0@] == list[i].1@
    &&& forall|i: int, j: int|
        0 <= i < j < list.len() ==> (#[trigger] list[i]).0@ != (#[trigger] list[j]).0@
    &&& forall|id: Seq<char>| #[trigger]
        sessions.contains_key(id) ==> exists|i: int|
            0 <= i < list.len() && (#[trigger] list[i]).0@ == id
}

impl AppState {
    /// See [`AppView::wf`].
    pub closed spec fn wf(&self) -> bool {
        &&& self@.wf()
        &&& self.sessions.wf()
        &&& self.webhooks.wf()
        &&& self.webhook_circuits.wf()
        &&& self.webhook_dlq.wf()
        &&& self.webhook_dlq.capacity() == self.webhook_retry.dlq_capacity
        &&& self.event_ring.wf()
        &&& self.session_tags.wf()
    }

    /// What [`Self::wf`] says of the view.
    pub proof fn lemma_wf(&self)
        requires
            self.wf(),
        ensures
            self@.wf(),
    {
    }

    /// The state at startup, as the environment configures it; each value is `None` where its
    /// variable is unset.
    pub fn new(
        storage_path: Option<&str>,
        max_attempts: Option<&str>,
        retry_on_4xx: Option<&str>,
        dlq_capacity: Option<&str>,
        lock_backoff_secs: Option<&str>,
    ) -> (state: Self)
        ensures
            state.wf(),
            state@ == AppView::initial(
                storage_path_of(config::var_text(storage_path)),
                state@.webhook_retry,
                config::schedule_of(config::var_text(lock_backoff_secs)),
                state@.clock_origin,
            ),
            state@.webhook_retry.max_attempts == config::positive_or(
                config::var_text(max_attempts),
                3,
            ),
            state@.webhook_retry.retry_on_4xx == (match config::var_text(retry_on_4xx) {
                Some(value) => !config::switches_off(value),
                None => true,
            }),
            state@.webhook_retry.dlq_capacity == config::positive_or(
                config::var_text(dlq_capacity),
                100,
            ),
    {
        let webhook_retry = WebhookRetryConfig::from_env(max_attempts, retry_on_4xx, dlq_capacity);
        let state = AppState {
            sessions: table::Table::new(),
            webhooks: registry::WebhookRegistry::new(),
            base_storage_path: match storage_path {
                Some(path) => path.to_owned(),
                None => "./whatsapp_sessions".to_owned(),
            },
            webhook_circuits: circuits::CircuitBoard::new(),
            webhook_retry,
            account_lock_backoff: AccountLockBackoffConfig::from_env(lock_backoff_secs),
            webhook_dlq: registry::DeadLetters::new(webhook_retry.dlq_capacity),
            event_ring: events::EventRing::new(),
            session_tags: tags::TagStore::new(),
            voice_cache: None,
            clock_origin: clock::monotonic_now(),
        };
        proof {
            assert(state@.sessions =~= Map::<Seq<char>, crate::session::SessionView>::empty());
        }
        state
    }

    /// The monotonic clock's reading.
    pub(crate) fn nanos(&self) -> (now: u128)
        ensures
            clock::had_passed(self@.clock_origin, now),
            clock::is_reading(now),
    {
        clock::nanos_since(&self.clock_origin)
    }

    /// Takes in the tag file that an earlier process left; one that cannot be read changes
    /// nothing.
    pub fn load_tags(&mut self, bytes: &[u8]) -> (loaded: Result<(), tags::TagFileError>)
        requires
            old(self).wf(),
        ensures
            final(self).wf(),
            loaded is Ok <==> tags::json_tag_lists(bytes@) is Some,
            loaded is Ok ==> final(self)@ == (AppView {
                session_tags: old(self)@.session_tags.union_prefer_right(
                    tags::tags_of_lists(tags::json_tag_lists(bytes@)->0),
                ),
                ..old(self)@
            }),
            loaded is Err ==> final(self)@ == old(self)@ && loaded->Err_0
                == tags::TagFileError::Malformed,
    {
        self.session_tags.load(bytes)
    }

    /// The contents of the tag file for the present tags.
    pub fn persist_tags(&self) -> (bytes: Result<Vec<u8>, tags::TagFileError>)
        requires
            self.wf(),
        ensures
            bytes is Ok,
            tags::json_tag_lists(bytes->Ok_0@) is Some,
            tags::tags_of_lists(tags::json_tag_lists(bytes->Ok_0@)->0) == self@.session_tags,
    {
        self.session_tags.to_file()
    }

    /// The tags of a session, in the order of strings.
    pub fn list_tags(&self, session_id: &str) -> (list: Vec<String>)
        requires
            self.wf(),
        ensures
            text_set::strictly_sorted(text::texts(list@)),
            text::texts(list@).to_set() == tags::tags_of(self@.session_tags, session_id@),
    {
        self.session_tags.list(session_id)
    }

    /// Replaces the tags of a session by what trimming leaves of `tags`. The tag file is to be
    /// written afterwards.
    pub fn set_tags(&mut self, session_id: &str, tags: Vec<String>)
        requires
            old(self).wf(),
        ensures
            final(self).wf(),
            final(self)@ == (AppView {
                session_tags: tags::tags_set(
                    old(self)@.session_tags,
                    session_id@,
                    tags::cleaned(text::texts(tags@)),
                ),
                ..old(self)@
            }),
    {
        self.session_tags.set(session_id, &tags);
    }

    /// Adds the trimmed tag to a session; `false` where that is empty or already there. The tag
    /// file is to be written where a tag was added.
    pub fn add_tag(&mut self, session_id: &str, tag: &str) -> (added: bool)
        requires
            old(self).wf(),
        ensures
            final(self).wf(),
            ({
                let tag = text::trimmed(tag@);
                let before = tags::tags_of(old(self)@.session_tags, session_id@);
                &&& added == (tag.len() > 0 && !before.contains(tag))
                &&& final(self)@ == (if tag.len() > 0 {
                    AppView {
                        session_tags: old(self)@.session_tags.insert(
                            session_id@,
                            before.insert(tag),
                        ),
                        ..old(self)@
                    }
                } else {
                    old(self)@
                })
            }),
    {
        self.session_tags.add(session_id, tag)
    }

    /// Takes a tag from a session; `false` where it was not there. The tag file is to be written
    /// where a tag was removed.
    pub fn remove_tag(&mut self, session_id: &str, tag: &str) -> (removed: bool)
        requires
            old(self).wf(),
        ensures
            final(self).wf(),
            removed == tags::tags_of(old(self)@.session_tags, session_id@).contains(tag@),
            final(self)@ == (AppView {
                session_tags: tags::tag_removed(old(self)@.session_tags, session_id@, tag@),
                ..old(self)@
            }),
    {
        self.session_tags.remove(session_id, tag)
    }

    /// The sessions that have `tag`, each once.
    pub fn sessions_with_tag(&self, tag: &str) -> (ids: Vec<String>)
        requires
            self.wf(),
        ensures
            text::texts(ids@).no_duplicates(),
            forall|id: Seq<char>| #[trigger]
                text::texts(ids@).contains(id) <==> tags::tags_of(self@.session_tags, id).contains(
                    tag@,
                ),
    {
        self.session_tags.sessions_with(tag)
    }

    /// The sessions that have tags, each once.
    pub fn all_session_ids_with_tags(&self) -> (ids: Vec<String>)
        requires
            self.wf(),
        ensures
            text::texts(ids@).no_duplicates(),
            forall|id: Seq<char>| #[trigger]
                text::texts(ids@).contains(id) <==> self@.session_tags.contains_key(id),
    {
        self.session_tags.ids()
    }

    /// Drops the tags of a session; `false` where it has none. The tag file is to be written
    /// where tags were dropped.
    pub fn drop_tags_for(&mut self, session_id: &str) -> (dropped: bool)
        requires
            old(self).wf(),
        ensures
            final(self).wf(),
            dropped == old(self)@.session_tags.contains_key(session_id@),
            final(self)@ == (AppView {
                session_tags: old(self)@.session_tags.remove(session_id@),
                ..old(self)@
            }),
    {
        self.session_tags.drop_session(session_id)
    }

    /// Shows an event on the console, as of `at_epoch_ms`.
    pub fn push_event_at(&mut self, session_id: &str, event: &str, payload: &str, at_epoch_ms: i64)
        requires
            old(self).wf(),
        ensures
            final(self).wf(),
            final(self)@ == old(self)@.with_event(session_id@, event@, payload@, at_epoch_ms),
    {
        self.event_ring.push(session_id, event, payload, at_epoch_ms);
    }

    /// Shows an event on the console.
    pub fn push_event(&mut self, session_id: &str, event: &str, payload: &str)
        requires
            old(self).wf(),
        ensures
            final(self).wf(),
            exists|at: i64| #[trigger]
                clock::was_shown_millis(at) && clock::is_wall_millis(at)
                    && final(self)@ == old(self)@.with_event(
                    session_id@,
                    event@,
                    payload@,
                    at,
                ),
    {
        let at: i64 = clock::unix_millis();
        self.push_event_at(session_id, event, payload, at);
    }

    /// The newest `limit` events, newest first.
    pub fn recent_events(&self, limit: usize) -> (list: Vec<ConsoleEvent>)
        ensures
            events::event_views(list@) == events::newest_first(self@.event_ring, limit as nat),
    {
        self.event_ring.recent(limit)
    }

    /// The cached voice list.
    pub fn cached_voices(&self) -> (voices: Option<Vec<VoiceEntry>>)
        ensures
            voices is Some <==> self@.voice_cache is Some,
            voices is Some ==> voice_texts(voices->0@) == self@.voice_cache->0,
    {
        match &self.voice_cache {
            Some(cached) => {
                let mut voices: Vec<VoiceEntry> = Vec::new();
                for i in 0..cached.len()
                    invariant
                        voice_texts(voices@) == voice_texts(cached@).take(i as int),
                {
                    let ghost before = voices@;
                    voices.push(VoiceEntry { json: cached[i].json.clone() });
                    assert(voice_texts(voices@) == voice_texts(before).push(
                        voice_texts(cached@)[i as int],
                    ));
                }
                assert(voice_texts(cached@).take(cached@.len() as int) == voice_texts(cached@));
                Some(voices)
            },
            None => None,
        }
    }

    pub fn set_cached_voices(&mut self, voices: Vec<VoiceEntry>)
        requires
            old(self).wf(),
        ensures
            final(self).wf(),
            final(self)@ == (AppView { voice_cache: Some(voice_texts(voices@)), ..old(self)@ }),
    {
        self.voice_cache = Some(voices);
    }

    /// Whether `url` is to be attempted at `now`.
    pub fn webhook_circuit_allows_at(&self, url: &str, now: u128) -> (allowed: bool)
        requires
            self.wf(),
        ensures
            allowed == !circuits::circuit_open(self@.webhook_circuits, url@, now),
    {
        self.webhook_circuits.allows(url, now)
    }

    /// Whether `url` is to be attempted right now.
    pub fn webhook_circuit_allows(&self, url: &str) -> (allowed: bool)
        requires
            self.wf(),
        ensures
            exists|now: u128| #[trigger]
                clock::had_passed(self@.clock_origin, now) && clock::is_reading(now)
                    && allowed == !circuits::circuit_open(
                    self@.webhook_circuits,
                    url@,
                    now,
                ),
    {
        let now: u128 = self.nanos();
        self.webhook_circuit_allows_at(url, now)
    }

    /// How many circuits are open at `now`.
    pub fn webhook_circuits_open_count_at(&self, now: u128) -> (count: usize)
        requires
            self.wf(),
        ensures
            count == circuits::open_urls(self@.webhook_circuits, now).len(),
    {
        self.webhook_circuits.open_count(now)
    }

    /// How many circuits are open.
    pub fn webhook_circuits_open_count(&self) -> (count: usize)
        requires
            self.wf(),
        ensures
            exists|now: u128| #[trigger]
                clock::had_passed(self@.clock_origin, now) && clock::is_reading(now)
                    && count == circuits::open_urls(
                    self@.webhook_circuits,
                    now,
                ).len(),
    {
        let now: u128 = self.nanos();
        self.webhook_circuits_open_count_at(now)
    }

    /// Records that a delivery to `url` succeeded at `now`: a circuit that it has is closed.
    pub fn webhook_record_success_at(&mut self, url: &str, now: u128)
        requires
            old(self).wf(),
        ensures
            final(self).wf(),
            final(self)@ == old(self)@.with_success(url@, now),
    {
        self.webhook_circuits.record_success(url, now);
    }

    /// Records that a delivery to `url` succeeded.
    pub fn webhook_record_success(&mut self, url: &str)
        requires
            old(self).wf(),
        ensures
            final(self).wf(),
            exists|now: u128| #[trigger]
                clock::had_passed(old(self)@.clock_origin, now) && clock::is_reading(now)
                    && final(self)@ == old(self)@.with_success(url@, now),
    {
        let now: u128 = self.nanos();
        self.webhook_record_success_at(url, now);
    }

    /// Records that a delivery to `url` failed at `now` and returns what that led to.
    pub fn webhook_record_failure_at(&mut self, url: &str, now: u128) -> (action:
        WebhookFailureAction)
        requires
            old(self).wf(),
            clock::is_reading(now),
        ensures
            final(self).wf(),
            final(self)@ == old(self)@.with_failure(url@, now),
            action == old(self)@.failure_action(url@, now),
    {
        self.webhook_circuits.record_failure(url, now)
    }

    /// Records that a delivery to `url` failed and returns what that led to: `Open` where the
    /// circuit just tripped, `HardDisable` where the target has failed for too long.
    pub fn webhook_record_failure(&mut self, url: &str) -> (action: WebhookFailureAction)
        requires
            old(self).wf(),
        ensures
            final(self).wf(),
            exists|now: u128| #[trigger]
                clock::had_passed(old(self)@.clock_origin, now) && clock::is_reading(now)
                    && final(self)@ == old(self)@.with_failure(url@, now)
                    && action == old(self)@.failure_action(url@, now),
    {
        let now: u128 = self.nanos();
        self.webhook_record_failure_at(url, now)
    }

    /// Wipes every registration for `url`, and its circuit.
    pub fn purge_webhook_by_url(&mut self, url: &str)
        requires
            old(self).wf(),
        ensures
            final(self).wf(),
            final(self)@ == old(self)@.without_url(url@),
    {
        self.webhooks.purge_url(url);
        self.webhook_circuits.forget(url);
    }

    /// Forgets the webhooks and the dead letters of a session.
    pub fn purge_webhooks_for_session(&mut self, session_id: &str)
        requires
            old(self).wf(),
        ensures
            final(self).wf(),
            final(self)@ == (AppView {
                webhooks: old(self)@.webhooks.remove(session_id@),
                webhook_dlq: old(self)@.webhook_dlq.remove(session_id@),
                ..old(self)@
            }),
    {
        self.webhooks.purge_session(session_id);
        self.webhook_dlq.purge_session(session_id);
    }

    /// Appends a dead letter to the queue of its session; the oldest go past the capacity.
    pub fn webhook_dlq_push(&mut self, entry: WebhookDlqEntry)
        requires
            old(self).wf(),
        ensures
            final(self).wf(),
            final(self)@ == old(self)@.with_dead_letter(entry@),
    {
        self.webhook_dlq.push(entry);
        proof {
            self.webhook_dlq.lemma_bounded();
        }
    }

    /// The dead letters of a session, newest first.
    pub fn webhook_dlq_list(&self, session_id: &str) -> (entries: Vec<WebhookDlqEntry>)
        requires
            self.wf(),
        ensures
            registry::dlq_views(entries@) == registry::queue_of(
                self@.webhook_dlq,
                session_id@,
            ).reverse(),
    {
        self.webhook_dlq.list(session_id)
    }

    /// Takes the first dead letter with `entry_id` out of a session's queue and returns it.
    pub fn webhook_dlq_take(&mut self, session_id: &str, entry_id: &str) -> (taken: Option<
        WebhookDlqEntry,
    >)
        requires
            old(self).wf(),
        ensures
            final(self).wf(),
            match taken {
                Some(entry) => exists|i: int| #[trigger]
                    registry::first_with_id(
                        registry::queue_of(old(self)@.webhook_dlq, session_id@),
                        entry_id@,
                        i,
                    ) && entry@ == registry::queue_of(old(self)@.webhook_dlq, session_id@)[i]
                        && final(self)@ == (AppView {
                        webhook_dlq: old(self)@.webhook_dlq.insert(
                            session_id@,
                            registry::queue_of(old(self)@.webhook_dlq, session_id@).remove(i),
                        ),
                        ..old(self)@
                    }),
                None => {
                    &&& forall|i: int|
                        0 <= i < registry::queue_of(old(self)@.webhook_dlq, session_id@).len() ==> (
                        #[trigger] registry::queue_of(old(self)@.webhook_dlq, session_id@)[i]).id
                            != entry_id@
                    &&& final(self)@ == old(self)@
                },
            },
    {
        let taken = self.webhook_dlq.take(session_id, entry_id);
        proof {
            self.webhook_dlq.lemma_bounded();
            assert(self@.webhook_dlq == self.webhook_dlq@);
            assert(self@.sessions == old(self)@.sessions);
            assert(self@.wf());
        }
        taken
    }

    /// Closes every circuit that is open at `now` and returns their URLs, each once.
    pub fn reenable_all_open_circuits_at(&mut self, now: u128) -> (urls: Vec<String>)
        requires
            old(self).wf(),
        ensures
            final(self).wf(),
            final(self)@ == old(self)@.with_circuits_reset(now),
            text::texts(urls@).no_duplicates(),
            text::texts(urls@).to_set() == circuits::open_urls(old(self)@.webhook_circuits, now),
    {
        self.webhook_circuits.reset_open(now)
    }

    /// Closes every open circuit and returns their URLs, each once.
    pub fn reenable_all_open_circuits(&mut self) -> (urls: Vec<String>)
        requires
            old(self).wf(),
        ensures
            final(self).wf(),
            text::texts(urls@).no_duplicates(),
            exists|now: u128| #[trigger]
                clock::had_passed(old(self)@.clock_origin, now) && clock::is_reading(now)
                    && final(self)@ == old(self)@.with_circuits_reset(now)
                    && text::texts(urls@).to_set() == circuits::open_urls(
                    old(self)@.webhook_circuits,
                    now,
                ),
    {
        let now: u128 = self.nanos();
        self.reenable_all_open_circuits_at(now)
    }

    /// The cooldowns for locked accounts.
    pub fn account_lock_backoff(&self) -> (backoff: &AccountLockBackoffConfig)
        ensures
            backoff.schedule@ == self@.lock_schedule,
    {
        &self.account_lock_backoff
    }

    pub fn base_storage_path(&self) -> (path: &str)
        ensures
            path@ == self@.base_storage_path,
    {
        self.base_storage_path.as_str()
    }

    /// The session with this id, created where there is none yet.
    pub fn get_or_create_session(&mut self, session_id: &str, storage_path: &str) -> (session:
        &mut SessionState)
        requires
            old(self).wf(),
        ensures
            session@ == (if old(self)@.sessions.contains_key(session_id@) {
                old(self)@.sessions[session_id@]
            } else {
                crate::session::SessionView::fresh(storage_path@)
            }),
            session.wf(),
            final(self)@ == (AppView {
                sessions: old(self)@.sessions.insert(session_id@, final(session)@),
                ..old(self)@
            }),
            final(session).wf() ==> final(self).wf(),
    {
        broadcast use table::group_map_values;

        if !self.sessions.contains_key(session_id) {
            let fresh = SessionState::new(storage_path.to_owned());
            let _ = self.sessions.insert(session_id.to_owned(), fresh);
        }
        self.sessions.get_mut(session_id).unwrap()
    }

    /// The session with this id.
    pub fn get_session(&self, session_id: &str) -> (session: Option<&SessionState>)
        requires
            self.wf(),
        ensures
            session is Some <==> self@.sessions.contains_key(session_id@),
            session is Some ==> session->0@ == self@.sessions[session_id@] && session->0.wf(),
    {
        proof {
            if self.sessions@.contains_key(session_id@) {
                assert(self@.sessions.contains_key(session_id@));
            }
        }
        self.sessions.get(session_id)
    }

    /// The session with this id, to be changed in place.
    pub fn get_session_mut(&mut self, session_id: &str) -> (session: Option<&mut SessionState>)
        requires
            old(self).wf(),
        ensures
            match session {
                Some(s) => {
                    &&& old(self)@.sessions.contains_key(session_id@)
                    &&& s@ == old(self)@.sessions[session_id@]
                    &&& s.wf()
                    &&& final(self)@ == (AppView {
                        sessions: old(self)@.sessions.insert(session_id@, final(s)@),
                        ..old(self)@
                    })
                    &&& final(s).wf() ==> final(self).wf()
                },
                None => {
                    &&& !old(self)@.sessions.contains_key(session_id@)
                    &&& final(self)@ == old(self)@
                    &&& final(self).wf()
                },
            },
    {
        broadcast use table::group_map_values;

        proof {
            if self.sessions@.contains_key(session_id@) {
                assert(self@.sessions.contains_key(session_id@));
            }
        }
        self.sessions.get_mut(session_id)
    }

    /// Takes the session out and returns it.
    pub fn remove_session(&mut self, session_id: &str) -> (session: Option<SessionState>)
        requires
            old(self).wf(),
        ensures
            final(self).wf(),
            final(self)@ == (AppView {
                sessions: old(self)@.sessions.remove(session_id@),
                ..old(self)@
            }),
            session is Some <==> old(self)@.sessions.contains_key(session_id@),
            session is Some ==> session->0@ == old(self)@.sessions[session_id@],
    {
        broadcast use table::group_map_values;

        self.sessions.remove(session_id)
    }

    /// Every session, each once.
    pub fn session_iter(&self) -> (list: Vec<&SessionState>)
        requires
            self.wf(),
        ensures
            exists|ids: Seq<Seq<char>>|
                {
                    &&& #[trigger] ids.no_duplicates()
                    &&& ids.to_set() == self@.sessions.dom()
                    &&& ids.len() == list@.len()
                    &&& forall|i: int|
                        0 <= i < list@.len() ==> (#[trigger] list@[i])@ == self@.sessions[ids[i]]
                },
    {
        let mut list: Vec<&SessionState> = Vec::new();
        let n: usize = self.sessions.len();
        let ghost ids = self.sessions.keys();
        for i in 0..n
            invariant
                self.sessions.wf(),
                ids == self.sessions.keys(),
                n == ids.len(),
                list@.len() == i,
                forall|j: int| 0 <= j < i ==> *(#[trigger] list@[j]) == self.sessions@[ids[j]],
        {
            list.push(self.sessions.value_at(i));
        }
        proof {
            self.sessions.lemma_keys();
            assert forall|i: int| 0 <= i < list@.len() implies (#[trigger] list@[i])@
                == self@.sessions[ids[i]] by {
                assert(self.sessions@.contains_key(ids[i]));
            }
            assert forall|id: Seq<char>|
                ids.to_set().contains(id) == self@.sessions.dom().contains(id) by {
                assert(self.sessions@.contains_key(id) <==> ids.contains(id));
            }
            assert(ids.to_set() =~= self@.sessions.dom());
        }
        list
    }

    /// Every session with its id, each once.
    pub fn session_iter_with_ids(&self) -> (list: Vec<(String, &SessionState)>)
        requires
            self.wf(),
        ensures
            lists_sessions(list@, self@.sessions),
    {
        let mut list: Vec<(String, &SessionState)> = Vec::new();
        let n: usize = self.sessions.len();
        let ghost ids = self.sessions.keys();
        for i in 0..n
            invariant
                self.sessions.wf(),
                ids == self.sessions.keys(),
                n == ids.len(),
                list@.len() == i,
                forall|j: int|
                    0 <= j < i ==> (#[trigger] list@[j]).0@ == ids[j] && *list@[j].1
                        == self.sessions@[ids[j]],
        {
            list.push((self.sessions.key_at(i).clone(), self.sessions.value_at(i)));
        }
        proof {
            self.sessions.lemma_keys();
            assert forall|i: int| 0 <= i < list@.len() implies self@.sessions.contains_key(
                (#[trigger] list@[i]).0@,
            ) && self@.sessions[list@[i].0@] == list@[i].1@ by {
                assert(self.sessions@.contains_key(ids[i]));
            }
            assert forall|id: Seq<char>| #[trigger] self@.sessions.contains_key(id) implies exists|
                i: int,
            |
                0 <= i < list@.len() && (#[trigger] list@[i]).0@ == id by {
                assert(self.sessions@.contains_key(id));
                let k = choose|k: int| 0 <= k < ids.len() && ids[k] == id;
                assert(list@[k].0@ == id);
            }
        }
        list
    }

    pub fn has_session(&self, session_id: &str) -> (held: bool)
        ensures
            held == self@.sessions.contains_key(session_id@),
    {
        self.sessions.contains_key(session_id)
    }

    /// Files a webhook under its session and id; one with the same id is replaced.
    pub fn register_webhook(&mut self, session_id: &str, webhook_id: &str, config: WebhookConfig)
        requires
            old(self).wf(),
        ensures
            final(self).wf(),
            final(self)@ == (AppView {
                webhooks: registry::registered(
                    old(self)@.webhooks,
                    session_id@,
                    webhook_id@,
                    config@,
                ),
                ..old(self)@
            }),
    {
        self.webhooks.register(session_id, webhook_id, config);
    }

    /// The webhooks of a session with their ids, each once.
    pub fn get_webhooks(&self, session_id: &str) -> (list: Vec<(String, WebhookConfig)>)
        requires
            self.wf(),
        ensures
            registry::lists_webhooks(list@, registry::webhooks_of(self@.webhooks, session_id@)),
    {
        self.webhooks.list(session_id)
    }

    /// Takes a webhook out and returns it.
    pub fn remove_webhook(&mut self, session_id: &str, webhook_id: &str) -> (removed: Option<
        WebhookConfig,
    >)
        requires
            old(self).wf(),
        ensures
            final(self).wf(),
            final(self)@ == (AppView {
                webhooks: registry::unregistered(old(self)@.webhooks, session_id@, webhook_id@),
                ..old(self)@
            }),
            removed is Some <==> registry::webhooks_of(
                old(self)@.webhooks,
                session_id@,
            ).contains_key(webhook_id@),
            removed is Some ==> removed->0@ == registry::webhooks_of(
                old(self)@.webhooks,
                session_id@,
            )[webhook_id@],
    {
        self.webhooks.unregister(session_id, webhook_id)
    }

    /// Shows an event on the console, as of `at_epoch_ms`, and returns the delivery run of every
    /// webhook of the session that is enabled, subscribes to the event, and whose circuit is not
    /// open at `now`. Exactly the filters `matching` match the event.
    pub fn broadcast_to_webhooks_at(
        &mut self,
        session_id: &str,
        event: &str,
        payload: &str,
        matching: &Vec<String>,
        now: u128,
        at_epoch_ms: i64,
    ) -> (runs: Vec<DeliveryRun>)
        requires
            old(self).wf(),
        ensures
            final(self).wf(),
            final(self)@ == old(self)@.with_event(session_id@, event@, payload@, at_epoch_ms),
            is_dispatch(
                old(self)@,
                session_id@,
                event@,
                payload@,
                text::texts(matching@),
                now,
                runs@,
            ),
    {
        self.push_event_at(session_id, event, payload, at_epoch_ms);
        let list = self.get_webhooks(session_id);
        let ghost hooks = registry::webhooks_of(self@.webhooks, session_id@);
        let ghost before = self@;
        let mut runs: Vec<DeliveryRun> = Vec::new();
        let ghost mut ids: Seq<Seq<char>> = Seq::empty();
        for i in 0..list.len()
            invariant
                self.wf(),
                self@ == before,
                hooks == registry::webhooks_of(before.webhooks, session_id@),
                registry::lists_webhooks(list@, hooks),
                ids.len() == runs@.len(),
                ids.no_duplicates(),
                forall|k: int|
                    0 <= k < ids.len() ==> #[trigger] before.dispatches(
                        session_id@,
                        ids[k],
                        text::texts(matching@),
                        now,
                    ),
                forall|k: int|
                    0 <= k < ids.len() ==> registry::named_among(list@, i as int, #[trigger] ids[k]),
                forall|j: int|
                    0 <= j < i && before.dispatches(
                        session_id@,
                        (#[trigger] list@[j]).0@,
                        text::texts(matching@),
                        now,
                    ) ==> ids.contains(list@[j].0@),
                forall|k: int|
                    0 <= k < runs@.len() ==> (#[trigger] runs@[k]).wf() && runs@[k]@
                        == before.run_for(session_id@, ids[k], event@, payload@),
        {
            let config = &list[i].1;
            let ghost id = list@[i as int].0@;
            let ghost ids_before = ids;
            assert(hooks.contains_key(id) && hooks[id] == config@);
            if config.enabled && config.subscribes(matching) && self.webhook_circuit_allows_at(
                config.url.as_str(),
                now,
            ) {
                assert(before.dispatches(session_id@, id, text::texts(matching@), now));
                runs.push(
                    DeliveryRun::start(
                        self.webhook_retry,
                        session_id,
                        event,
                        config.url.as_str(),
                        text::copy_opt(&config.secret),
                        payload,
                    ),
                );
                proof {
                    ids = ids.push(id);
                    assert(ids[ids_before.len() as int] == id);
                    assert forall|j: int|
                        0 <= j < i + 1 && before.dispatches(
                            session_id@,
                            (#[trigger] list@[j]).0@,
                            text::texts(matching@),
                            now,
                        ) implies ids.contains(list@[j].0@) by {
                        if j < i {
                            let k = choose|k: int|
                                0 <= k < ids_before.len() && ids_before[k] == list@[j].0@;
                            assert(ids[k] == list@[j].0@);
                        }
                    }
                    assert forall|k: int| 0 <= k < ids.len() implies registry::named_among(
                        list@,
                        i + 1,
                        #[trigger] ids[k],
                    ) by {
                        if k < ids_before.len() {
                            assert(registry::named_among(list@, i as int, ids_before[k]));
                        } else {
                            assert(ids[k] == list@[i as int].0@);
                        }
                    }
                }
            } else {
                assert(!before.dispatches(session_id@, id, text::texts(matching@), now));
            }
        }
        proof {
            let state = old(self)@;
            assert(hooks == registry::webhooks_of(state.webhooks, session_id@));
            assert forall|id: Seq<char>| #[trigger]
                ids.contains(id) <==> state.dispatches(
                    session_id@,
                    id,
                    text::texts(matching@),
                    now,
                ) by {
                assert(state.dispatches(session_id@, id, text::texts(matching@), now)
                    == before.dispatches(session_id@, id, text::texts(matching@), now));
                if ids.contains(id) {
                    let k = choose|k: int| 0 <= k < ids.len() && ids[k] == id;
                    assert(before.dispatches(session_id@, ids[k], text::texts(matching@), now));
                }
                if hooks.contains_key(id) {
                    let j = choose|j: int| 0 <= j < list@.len() && (#[trigger] list@[j]).0@ == id;
                    assert(list@[j].0@ == id);
                }
            }
            assert(dispatch_ids(
                state,
                session_id@,
                event@,
                payload@,
                text::texts(matching@),
                now,
                runs@,
                ids,
            ));
        }
        runs
    }

    /// Shows an event on the console and returns the delivery run of every webhook of the session
    /// that is enabled, subscribes to the event, and whose circuit is not open. Exactly the
    /// filters `matching` match the event.
    pub fn broadcast_to_webhooks(
        &mut self,
        session_id: &str,
        event: &str,
        payload: &str,
        matching: &Vec<String>,
    ) -> (runs: Vec<DeliveryRun>)
        requires
            old(self).wf(),
        ensures
            final(self).wf(),
            exists|at: i64| #[trigger]
                clock::was_shown_millis(at) && clock::is_wall_millis(at)
                    && final(self)@ == old(self)@.with_event(
                    session_id@,
                    event@,
                    payload@,
                    at,
                ),
            exists|now: u128| #[trigger]
                clock::had_passed(old(self)@.clock_origin, now) && clock::is_reading(now)
                    && is_dispatch(
                    old(self)@,
                    session_id@,
                    event@,
                    payload@,
                    text::texts(matching@),
                    now,
                    runs@,
                ),
    {
        let now: u128 = self.nanos();
        let at: i64 = clock::unix_millis();
        self.broadcast_to_webhooks_at(session_id, event, payload, matching, now, at)
    }

    /// The delivery run of `payload` to `url`, before its first attempt.
    pub fn start_delivery(
        &self,
        session_id: &str,
        event: &str,
        url: &str,
        secret: Option<String>,
        payload: &str,
    ) -> (run: DeliveryRun)
        ensures
            run.wf(),
            run@ == crate::delivery::RunView::start(
                self@.webhook_retry,
                session_id@,
                event@,
                url@,
                text::opt_text(secret),
                payload@,
            ),
    {
        DeliveryRun::start(self.webhook_retry, session_id, event, url, secret, payload)
    }

    /// Takes in how an attempt of `run` ended. A success closes the circuit of the URL. An attempt
    /// that is to be retried moves the run on. Otherwise the failure counts against the circuit
    /// at `now`, a target that failed for too long is wiped, and the payload is dead-lettered
    /// under `id` as of `failed_at`.
    pub fn deliver_webhook_at(
        &mut self,
        run: &mut DeliveryRun,
        outcome: &AttemptOutcome,
        id: String,
        now: u128,
        failed_at: i64,
    ) -> (step: DeliveryStep)
        requires
            old(self).wf(),
            old(run).wf(),
            outcome@.wf(),
            clock::is_reading(now),
        ensures
            final(self).wf(),
            final(self)@ == old(self)@.after_attempt(old(run)@, outcome@, id@, now, failed_at),
            step@ == old(self)@.step(old(run)@, outcome@, now),
            final(run)@ == (if old(run)@.verdict(outcome@) == Verdict::Retry {
                old(run)@.retried()
            } else {
                old(run)@
            }),
            final(run).wf(),
    {
        match run.verdict(outcome) {
            Verdict::Delivered => {
                self.webhook_record_success_at(run.url.as_str(), now);
                DeliveryStep::Delivered
            },
            Verdict::Retry => {
                run.attempt = run.attempt + 1;
                DeliveryStep::Retry { wait_secs: run.wait_secs() }
            },
            Verdict::GiveUp => {
                let error = outcome.error();
                let action = self.webhook_record_failure_at(run.url.as_str(), now);
                let mut disable_reason: Option<String> = None;
                if action == WebhookFailureAction::HardDisable {
                    disable_reason = Some(delivery::disable_reason(error.as_str()));
                    self.purge_webhook_by_url(run.url.as_str());
                }
                self.webhook_dlq_push(run.dead_letter(id, error.clone(), failed_at));
                DeliveryStep::DeadLettered {
                    action,
                    disable_reason,
                    last_error: error,
                    attempts: run.max_attempts,
                }
            },
        }
    }

    /// Takes in how an attempt of `run` ended, and says what is to be done next.
    pub fn deliver_webhook(&mut self, run: &mut DeliveryRun, outcome: &AttemptOutcome) -> (step:
        DeliveryStep)
        requires
            old(self).wf(),
            old(run).wf(),
            outcome@.wf(),
        ensures
            final(self).wf(),
            exists|id: Seq<char>, now: u128, failed_at: i64|
                {
                    &&& #[trigger] delivery::was_drawn(id)
                    &&& #[trigger] clock::had_passed(old(self)@.clock_origin, now)
                    &&& #[trigger] clock::was_shown(failed_at)
                    &&& delivery::is_random_uuid(id)
                    &&& clock::is_reading(now)
                    &&& clock::is_wall_time(failed_at)
                    &&& final(self)@ == old(self)@.after_attempt(
                        old(run)@,
                        outcome@,
                        id,
                        now,
                        failed_at,
                    )
                    &&& step@ == old(self)@.step(old(run)@, outcome@, now)
                },
            final(run)@ == (if old(run)@.verdict(outcome@) == Verdict::Retry {
                old(run)@.retried()
            } else {
                old(run)@
            }),
            final(run).wf(),
    {
        let id = delivery::random_id();
        let now: u128 = self.nanos();
        let failed_at: i64 = clock::unix_seconds();
        assert(delivery::was_drawn(id@));
        self.deliver_webhook_at(run, outcome, id, now, failed_at)
    }
}

/// Whether `runs` are the runs of an event to the webhooks `ids`, and `ids` exactly the webhooks
/// that the event goes to, each once.
pub open spec fn dispatch_ids(
    state: AppView,
    session_id: Seq<char>,
    event: Seq<char>,
    payload: Seq<char>,
    matching: Seq<Seq<char>>,
    now: u128,
    runs: Seq<DeliveryRun>,
    ids: Seq<Seq<char>>,
) -> bool {
    &&& ids.no_duplicates()
    &&& ids.len() == runs.len()
    &&& forall|id: Seq<char>| #[trigger]
        ids.contains(id) <==> state.dispatches(session_id, id, matching, now)
    &&& forall|k: int|
        0 <= k < runs.len() ==> (#[trigger] runs[k]).wf() && runs[k]@ == state.run_for(
            session_id,
            ids[k],
            event,
            payload,
        )
}

/// Whether `runs` holds one run for every webhook that the event goes to, and no other.
pub open spec fn is_dispatch(
    state: AppView,
    session_id: Seq<char>,
    event: Seq<char>,
    payload: Seq<char>,
    matching: Seq<Seq<char>>,
    now: u128,
    runs: Seq<DeliveryRun>,
) -> bool {
    exists|ids: Seq<Seq<char>>| #[trigger]
        dispatch_ids(state, session_id, event, payload, matching, now, runs, ids)
}

} // verus!
