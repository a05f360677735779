//! Webhook registrations, dead-lettered deliveries, and the per-URL circuit breaker.

use crate::text;
use vstd::prelude::*;

verus! {

/// One registered webhook.
#[derive(Debug)]
pub struct WebhookConfig {
    pub url: String,
    /// The event filters that the webhook subscribes to.
    pub events: Vec<String>,
    pub secret: Option<String>,
    pub enabled: bool,
}

/// What a [`WebhookConfig`] says.
#[verifier::ext_equal]
pub struct WebhookView {
    pub url: Seq<char>,
    pub events: Seq<Seq<char>>,
    pub secret: Option<Seq<char>>,
    pub enabled: bool,
}

impl View for WebhookConfig {
    type V = WebhookView;

    open spec fn view(&self) -> WebhookView {
        WebhookView {
            url: self.url@,
            events: text::texts(self.events@),
            secret: text::opt_text(self.secret),
            enabled: self.enabled,
        }
    }
}

impl Clone for WebhookConfig {
    fn clone(&self) -> (copy: Self)
        ensures
            copy@ == self@,
    {
        WebhookConfig {
            url: self.url.clone(),
            events: text::copy_texts(&self.events),
            secret: text::copy_opt(&self.secret),
            enabled: self.enabled,
        }
    }
}

impl WebhookView {
    /// Whether the webhook subscribes to an event that exactly the filters `matching` match.
    pub open spec fn subscribes(self, matching: Seq<Seq<char>>) -> bool {
        exists|i: int| 0 <= i < self.events.len() && matching.contains(#[trigger] self.events[i])
    }
}

impl WebhookConfig {
    /// Whether one of the webhook's filters is among `matching`, the filters that match an event.
    pub fn subscribes(&self, matching: &Vec<String>) -> (subscribed: bool)
        ensures
            subscribed == self@.subscribes(text::texts(matching@)),
    {
        for i in 0..self.events.len()
            invariant
                forall|j: int|
                    0 <= j < i ==> !text::texts(matching@).contains(#[trigger] self@.events[j]),
        {
            if text::holds_text(matching, self.events[i].as_str()) {
                assert(text::texts(matching@).contains(self@.events[i as int]));
                return true;
            }
        }
        false
    }
}

/// A delivery that exhausted its attempts.
#[derive(Debug)]
pub struct WebhookDlqEntry {
    pub id: String,
    pub session_id: String,
    pub webhook_url: String,
    pub event: String,
    pub payload: String,
    pub secret: Option<String>,
    pub last_error: String,
    pub attempts: usize,
    /// Unix time in seconds.
    pub failed_at: i64,
}

/// What a [`WebhookDlqEntry`] says.
#[verifier::ext_equal]
pub struct DlqView {
    pub id: Seq<char>,
    pub session_id: Seq<char>,
    pub webhook_url: Seq<char>,
    pub event: Seq<char>,
    pub payload: Seq<char>,
    pub secret: Option<Seq<char>>,
    pub last_error: Seq<char>,
    pub attempts: usize,
    pub failed_at: i64,
}

impl View for WebhookDlqEntry {
    type V = DlqView;

    open spec fn view(&self) -> DlqView {
        DlqView {
            id: self.id@,
            session_id: self.session_id@,
            webhook_url: self.webhook_url@,
            event: self.event@,
            payload: self.payload@,
            secret: text::opt_text(self.secret),
            last_error: self.last_error@,
            attempts: self.attempts,
            failed_at: self.failed_at,
        }
    }
}

impl Clone for WebhookDlqEntry {
    fn clone(&self) -> (copy: Self)
        ensures
            copy@ == self@,
    {
        WebhookDlqEntry {
            id: self.id.clone(),
            session_id: self.session_id.clone(),
            webhook_url: self.webhook_url.clone(),
            event: self.event.clone(),
            payload: self.payload.clone(),
            secret: text::copy_opt(&self.secret),
            last_error: self.last_error.clone(),
            attempts: self.attempts,
            failed_at: self.failed_at,
        }
    }
}

/// What a recorded failure did to the circuit of its URL.
#[derive(Debug, Clone, Copy, PartialEq, Eq, Structural)]
pub enum WebhookFailureAction {
    Noop,
    /// The circuit opened: dispatch is skipped for the cooldown.
    Open,
    /// The target has failed for so long that it is to be disabled.
    HardDisable,
}

/// Consecutive failures that open a circuit.
pub const OPEN_THRESHOLD: u32 = 25;

/// Consecutive failures that disable a target.
pub const HARD_DISABLE_THRESHOLD: u32 = 100;

/// How long an open circuit skips dispatch, in nanoseconds: five minutes.
pub const COOLDOWN_NANOS: u128 = 300_000_000_000;

/// The circuit breaker of one webhook URL. Times are readings of the monotonic clock, in
/// nanoseconds.
#[derive(Debug, Clone, Copy, PartialEq, Eq)]
pub struct CircuitState {
    /// Failures since the last success.
    pub failures: u32,
    pub opened_until: Option<u128>,
    pub last_event: u128,
}

impl CircuitState {
    /// Whether dispatch is skipped at `now`.
    pub open spec fn is_open_at(self, now: u128) -> bool {
        self.opened_until is Some && now < self.opened_until->0
    }

    /// The count of failures after one more.
    pub open spec fn next_failures(self) -> u32 {
        if self.failures == u32::MAX {
            u32::MAX
        } else {
            (self.failures + 1) as u32
        }
    }

    /// What one more failure leads to.
    pub open spec fn failure_action(self) -> WebhookFailureAction {
        if self.next_failures() >= HARD_DISABLE_THRESHOLD {
            WebhookFailureAction::HardDisable
        } else if self.next_failures() >= OPEN_THRESHOLD && self.opened_until is None {
            WebhookFailureAction::Open
        } else {
            WebhookFailureAction::Noop
        }
    }

    /// The circuit after a failure at `now`.
    pub open spec fn after_failure(self, now: u128) -> CircuitState {
        CircuitState {
            failures: self.next_failures(),
            opened_until: if self.failure_action() is Open {
                Some((now + COOLDOWN_NANOS) as u128)
            } else {
                self.opened_until
            },
            last_event: now,
        }
    }

    /// A circuit without failures, closed, last touched at `now`.
    pub open spec fn closed_at(now: u128) -> CircuitState {
        CircuitState { failures: 0, opened_until: None, last_event: now }
    }

    /// A circuit without failures.
    pub fn new(now: u128) -> (circuit: Self)
        ensures
            circuit == CircuitState::closed_at(now),
    {
        CircuitState { failures: 0, opened_until: None, last_event: now }
    }

    /// Whether dispatch is skipped at `now`.
    pub fn is_open(&self, now: u128) -> (open: bool)
        ensures
            open == self.is_open_at(now),
    {
        match self.opened_until {
            Some(until) => now < until,
            None => false,
        }
    }

    /// Forgets the failures and closes the circuit.
    pub fn record_success(&mut self, now: u128)
        ensures
            *final(self) == CircuitState::closed_at(now),
    {
        self.failures = 0;
        self.opened_until = None;
        self.last_event = now;
    }

    /// Counts a failure.
    pub fn record_failure(&mut self, now: u128) -> (action: WebhookFailureAction)
        requires
            now + COOLDOWN_NANOS <= u128::MAX,
        ensures
            *final(self) == old(self).after_failure(now),
            action == old(self).failure_action(),
    {
        self.last_event = now;
        self.failures = self.failures.saturating_add(1);
        if self.failures >= HARD_DISABLE_THRESHOLD {
            return WebhookFailureAction::HardDisable;
        }
        if self.failures >= OPEN_THRESHOLD && self.opened_until.is_none() {
            self.opened_until = Some(now + COOLDOWN_NANOS);
            return WebhookFailureAction::Open;
        }
        WebhookFailureAction::Noop
    }
}

} // verus!
