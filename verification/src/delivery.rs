//! One delivery run of a webhook: the attempts, what each outcome leads to, and when to give up.

use crate::config;
use crate::config::WebhookRetryConfig;
use crate::signing;
use crate::text;
use crate::webhooks::{WebhookDlqEntry, WebhookFailureAction};
use vstd::prelude::*;

verus! {

/// How an attempt ended.
#[derive(Debug)]
pub enum AttemptOutcome {
    /// The target answered with this HTTP status code.
    Response { code: u16 },
    /// No answer came; the transport's error text.
    Failed { error: String },
}

/// What an [`AttemptOutcome`] says.
#[verifier::ext_equal]
pub enum OutcomeView {
    Response { code: u16 },
    Failed { error: Seq<char> },
}

impl View for AttemptOutcome {
    type V = OutcomeView;

    open spec fn view(&self) -> OutcomeView {
        match *self {
            AttemptOutcome::Response { code } => OutcomeView::Response { code },
            AttemptOutcome::Failed { error } => OutcomeView::Failed { error: error@ },
        }
    }
}

/// How an HTTP status code is displayed: the code and its standard reason.
pub uninterp spec fn status_text(code: u16) -> Seq<char>;

/// A status code in decimal and a space.
pub open spec fn code_text(code: u16) -> Seq<char> {
    text::decimal(code as int) + " "@
}

/// `reqwest::StatusCode::from_u16` and its `Display`: a code of three digits is a status, and is
/// shown as `status_text` names it, which starts with the code in decimal and a space; no other
/// code is one.
#[verifier::external_body]
fn status_line(code: u16) -> (line: Option<String>)
    ensures
        line is Some <==> 100 <= code <= 999,
        line is Some ==> line->0@ == status_text(code),
        line is Some ==> code_text(code).is_prefix_of(line->0@),
{
    reqwest::StatusCode::from_u16(code).ok().map(|status| status.to_string())
}

impl OutcomeView {
    /// A status code has three digits.
    pub open spec fn wf(self) -> bool {
        self is Response ==> 100 <= self->code <= 999
    }

    /// Whether the target accepted the delivery.
    pub open spec fn accepted(self) -> bool {
        self is Response && 200 <= self->code < 300
    }

    /// Whether the target refused the delivery with a 4xx code that does not ask for a retry.
    pub open spec fn refused(self) -> bool {
        &&& self is Response
        &&& 400 <= self->code < 500
        &&& self->code != 408
        &&& self->code != 429
    }

    /// The error text of an attempt that was not accepted, given how its status is displayed.
    pub open spec fn error_with(self, status: Seq<char>) -> Seq<char> {
        match self {
            OutcomeView::Response { code } => "HTTP "@ + status,
            OutcomeView::Failed { error } => error,
        }
    }

    /// The error text of an attempt that was not accepted.
    pub open spec fn error(self) -> Seq<char> {
        self.error_with(status_text(self->code))
    }
}

impl AttemptOutcome {
    /// Whether the target accepted the delivery.
    pub fn accepted(&self) -> (accepted: bool)
        ensures
            accepted == self@.accepted(),
    {
        match self {
            AttemptOutcome::Response { code } => 200 <= *code && *code < 300,
            AttemptOutcome::Failed { .. } => false,
        }
    }

    /// Whether the target refused the delivery with a 4xx code that does not ask for a retry.
    pub fn refused(&self) -> (refused: bool)
        ensures
            refused == self@.refused(),
    {
        match self {
            AttemptOutcome::Response { code } => 400 <= *code && *code < 500 && *code != 408
                && *code != 429,
            AttemptOutcome::Failed { .. } => false,
        }
    }

    /// The error text, given how the status is displayed.
    pub fn error_with(&self, status: &str) -> (error: String)
        ensures
            error@ == self@.error_with(status@),
    {
        match self {
            AttemptOutcome::Response { .. } => {
                let mut error = "HTTP ".to_owned();
                error.append(status);
                error
            },
            AttemptOutcome::Failed { error } => error.clone(),
        }
    }

    /// The error text of an attempt that was not accepted.
    pub fn error(&self) -> (error: String)
        requires
            self@.wf(),
        ensures
            error@ == self@.error(),
            self@ is Response ==> ("HTTP "@ + code_text(self@->code)).is_prefix_of(error@),
    {
        let status = match self {
            AttemptOutcome::Response { code } => match status_line(*code) {
                Some(line) => line,
                None => String::new(),
            },
            AttemptOutcome::Failed { .. } => String::new(),
        };
        let error = self.error_with(status.as_str());
        proof {
            if self@ is Response {
                let start = "HTTP "@ + code_text(self@->code);
                assert(error@ == "HTTP "@ + status@);
                assert forall|i: int| 0 <= i < start.len() implies start[i] == error@[i] by {
                    if i >= "HTTP "@.len() {
                        assert(start[i] == code_text(self@->code)[i - "HTTP "@.len()]);
                        assert(error@[i] == status@[i - "HTTP "@.len()]);
                    }
                }
                assert(start =~= error@.subrange(0, start.len() as int));
            }
        }
        error
    }
}

/// One delivery run: what is delivered where, and which attempt is next.
#[derive(Debug)]
pub struct DeliveryRun {
    pub session_id: String,
    pub event: String,
    pub url: String,
    pub secret: Option<String>,
    pub payload: String,
    /// The next attempt, counted from zero.
    pub attempt: usize,
    pub max_attempts: usize,
    pub retry_on_4xx: bool,
}

/// What a [`DeliveryRun`] says.
#[verifier::ext_equal]
pub struct RunView {
    pub session_id: Seq<char>,
    pub event: Seq<char>,
    pub url: Seq<char>,
    pub secret: Option<Seq<char>>,
    pub payload: Seq<char>,
    pub attempt: usize,
    pub max_attempts: usize,
    pub retry_on_4xx: bool,
}

impl View for DeliveryRun {
    type V = RunView;

    open spec fn view(&self) -> RunView {
        RunView {
            session_id: self.session_id@,
            event: self.event@,
            url: self.url@,
            secret: text::opt_text(self.secret),
            payload: self.payload@,
            attempt: self.attempt,
            max_attempts: self.max_attempts,
            retry_on_4xx: self.retry_on_4xx,
        }
    }
}

/// What an attempt's outcome leads to.
#[derive(Debug, Clone, Copy, PartialEq, Eq, Structural)]
pub enum Verdict {
    Delivered,
    Retry,
    GiveUp,
}

impl RunView {
    /// The run before its first attempt.
    pub open spec fn start(
        config: WebhookRetryConfig,
        session_id: Seq<char>,
        event: Seq<char>,
        url: Seq<char>,
        secret: Option<Seq<char>>,
        payload: Seq<char>,
    ) -> RunView {
        RunView {
            session_id,
            event,
            url,
            secret,
            payload,
            attempt: 0,
            max_attempts: if config.max_attempts == 0 {
                1
            } else {
                config.max_attempts
            },
            retry_on_4xx: config.retry_on_4xx,
        }
    }

    /// An attempt is left.
    pub open spec fn wf(self) -> bool {
        self.attempt < self.max_attempts
    }

    /// What the outcome of the next attempt leads to.
    pub open spec fn verdict(self, outcome: OutcomeView) -> Verdict {
        if outcome.accepted() {
            Verdict::Delivered
        } else if !self.retry_on_4xx && outcome.refused() {
            Verdict::GiveUp
        } else if self.attempt + 1 < self.max_attempts {
            Verdict::Retry
        } else {
            Verdict::GiveUp
        }
    }

    /// The run after an attempt that is retried.
    pub open spec fn retried(self) -> RunView {
        RunView { attempt: (self.attempt + 1) as usize, ..self }
    }

    /// The headers of an attempt at `timestamp`.
    pub open spec fn headers(self, timestamp: i64) -> Seq<(Seq<char>, Seq<char>)> {
        signing::delivery_headers(
            timestamp,
            match self.secret {
                Some(key) => Some(signing::signature(key, timestamp, self.payload)),
                None => None,
            },
        )
    }

    /// The dead letter that the run ends in.
    pub open spec fn dead_letter(
        self,
        id: Seq<char>,
        last_error: Seq<char>,
        failed_at: i64,
    ) -> crate::webhooks::DlqView {
        crate::webhooks::DlqView {
            id,
            session_id: self.session_id,
            webhook_url: self.url,
            event: self.event,
            payload: self.payload,
            secret: self.secret,
            last_error,
            attempts: self.max_attempts,
            failed_at,
        }
    }
}

impl DeliveryRun {
    /// See [`RunView::wf`].
    pub open spec fn wf(&self) -> bool {
        self@.wf()
    }

    /// The run before its first attempt. There is at least one attempt.
    pub fn start(
        config: WebhookRetryConfig,
        session_id: &str,
        event: &str,
        url: &str,
        secret: Option<String>,
        payload: &str,
    ) -> (run: Self)
        ensures
            run@ == RunView::start(
                config,
                session_id@,
                event@,
                url@,
                text::opt_text(secret),
                payload@,
            ),
            run.wf(),
    {
        DeliveryRun {
            session_id: session_id.to_owned(),
            event: event.to_owned(),
            url: url.to_owned(),
            secret,
            payload: payload.to_owned(),
            attempt: 0,
            max_attempts: if config.max_attempts == 0 {
                1
            } else {
                config.max_attempts
            },
            retry_on_4xx: config.retry_on_4xx,
        }
    }

    /// Seconds to wait before the next attempt.
    pub fn wait_secs(&self) -> (secs: u64)
        ensures
            secs == config::retry_delay_secs(self@.attempt as nat),
    {
        config::webhook_retry_delay(self.attempt)
    }

    /// The headers of an attempt at `timestamp`, signed where there is a secret.
    pub fn headers(&self, timestamp: i64) -> (headers: Vec<(String, String)>)
        ensures
            signing::header_views(headers@) == self@.headers(timestamp),
    {
        signing::request_headers(timestamp, &self.secret, self.payload.as_str())
    }

    /// What the outcome of the next attempt leads to.
    pub fn verdict(&self, outcome: &AttemptOutcome) -> (verdict: Verdict)
        requires
            self.wf(),
        ensures
            verdict == self@.verdict(outcome@),
    {
        if outcome.accepted() {
            Verdict::Delivered
        } else if !self.retry_on_4xx && outcome.refused() {
            Verdict::GiveUp
        } else if self.attempt + 1 < self.max_attempts {
            Verdict::Retry
        } else {
            Verdict::GiveUp
        }
    }

    /// The dead letter that the run ends in.
    pub fn dead_letter(&self, id: String, last_error: String, failed_at: i64) -> (entry:
        WebhookDlqEntry)
        ensures
            entry@ == self@.dead_letter(id@, last_error@, failed_at),
    {
        WebhookDlqEntry {
            id,
            session_id: self.session_id.clone(),
            webhook_url: self.url.clone(),
            event: self.event.clone(),
            payload: self.payload.clone(),
            secret: text::copy_opt(&self.secret),
            last_error,
            attempts: self.max_attempts,
            failed_at,
        }
    }
}

/// What the caller is to do after an attempt.
#[derive(Debug)]
pub enum DeliveryStep {
    /// The delivery succeeded.
    Delivered,
    /// Wait for so many seconds and make the next attempt.
    Retry { wait_secs: u64 },
    /// The payload was dead-lettered.
    DeadLettered {
        /// What the failure did to the circuit of the URL.
        action: WebhookFailureAction,
        /// Why the target is to be disabled, where it is.
        disable_reason: Option<String>,
        last_error: String,
        attempts: usize,
    },
}

/// What a [`DeliveryStep`] says.
#[verifier::ext_equal]
pub enum StepView {
    Delivered,
    Retry { wait_secs: nat },
    DeadLettered {
        action: WebhookFailureAction,
        disable_reason: Option<Seq<char>>,
        last_error: Seq<char>,
        attempts: usize,
    },
}

impl View for DeliveryStep {
    type V = StepView;

    open spec fn view(&self) -> StepView {
        match *self {
            DeliveryStep::Delivered => StepView::Delivered,
            DeliveryStep::Retry { wait_secs } => StepView::Retry { wait_secs: wait_secs as nat },
            DeliveryStep::DeadLettered { action, disable_reason, last_error, attempts } =>
                StepView::DeadLettered {
                action,
                disable_reason: text::opt_text(disable_reason),
                last_error: last_error@,
                attempts,
            },
        }
    }
}

/// Why a target is disabled whose last attempt ended in `error`.
pub open spec fn disable_text(error: Seq<char>) -> Seq<char> {
    "100 consecutive failures ("@ + error + ")"@
}

/// Why a target is disabled whose last attempt ended in `error`.
pub fn disable_reason(error: &str) -> (reason: String)
    ensures
        reason@ == disable_text(error@),
{
    let mut reason = "100 consecutive failures (".to_owned();
    reason.append(error);
    reason.append(")");
    reason
}

/// A digit, or a letter from `a` to `f`.
pub open spec fn is_lower_hex(c: char) -> bool {
    '0' <= c <= '9' || 'a' <= c <= 'f'
}

/// Whether `id` has the form of a random UUID: groups of 8, 4, 4, 4 and 12 lower-case hexadecimal
/// digits, the third of which starts with the version and the fourth with the variant.
pub open spec fn is_random_uuid(id: Seq<char>) -> bool {
    &&& id.len() == 36
    &&& forall|i: int|
        0 <= i < 36 ==> if i == 8 || i == 13 || i == 18 || i == 23 {
            #[trigger] id[i] == '-'
        } else {
            is_lower_hex(id[i])
        }
    &&& id[14] == '4'
    &&& id[19] == '8' || id[19] == '9' || id[19] == 'a' || id[19] == 'b'
}

/// Whether `id` was drawn at random. What that is stays inside this module: elsewhere only what a
/// draw returned is known to have been drawn.
pub closed spec fn was_drawn(id: Seq<char>) -> bool {
    is_random_uuid(id)
}

/// `uuid::Uuid::new_v4` and its `Display`: a random UUID in its hyphenated lower-case form.
#[verifier::external_body]
pub(crate) fn random_id() -> (id: String)
    ensures
        was_drawn(id@),
        is_random_uuid(id@),
{
    uuid::Uuid::new_v4().to_string()
}

} // verus!
