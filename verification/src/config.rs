//! The policies that are read once at startup, and the backoff between delivery attempts.

use crate::text;
use vstd::prelude::*;

verus! {

/// Retry and dead-letter policy of webhook delivery.
#[derive(Clone, Copy, Debug, PartialEq, Eq, Structural)]
pub struct WebhookRetryConfig {
    /// Delivery attempts per event before the payload is dead-lettered.
    pub max_attempts: usize,
    /// Whether a 4xx response is retried; 408 and 429 are retried either way.
    pub retry_on_4xx: bool,
    /// How many entries the dead-letter queue of a session holds.
    pub dlq_capacity: usize,
}

/// The positive number that a variable writes, or `default` where it is unset or writes none.
pub open spec fn positive_or(value: Option<Seq<char>>, default: usize) -> usize {
    match value {
        Some(text) => match text::usize_value(text) {
            Some(n) => if n > 0 {
                n
            } else {
                default
            },
            None => default,
        },
        None => default,
    }
}

/// Whether a variable's value switches its setting off.
pub open spec fn switches_off(value: Seq<char>) -> bool {
    let lower = value.map_values(|c: char| text::ascii_lower(c));
    lower == "0"@ || lower == "false"@ || lower == "no"@ || lower == "off"@
}

/// The view of an optional variable.
pub open spec fn var_text(value: Option<&str>) -> Option<Seq<char>> {
    match value {
        Some(text) => Some(text@),
        None => None,
    }
}

fn parse_positive_or(value: Option<&str>, default: usize) -> (n: usize)
    ensures
        n == positive_or(var_text(value), default),
{
    match value {
        Some(text) => match text::parse_usize(text) {
            Some(n) => if n > 0 {
                n
            } else {
                default
            },
            None => default,
        },
        None => default,
    }
}

fn is_off(value: &str) -> (off: bool)
    ensures
        off == switches_off(value@),
{
    let lower = text::to_ascii_lowercase(value);
    let words: Vec<String> = vec![
        "0".to_owned(),
        "false".to_owned(),
        "no".to_owned(),
        "off".to_owned(),
    ];
    let off = text::holds_text(&words, lower.as_str());
    proof {
        let list = text::texts(words@);
        assert(list[0] == "0"@ && list[1] == "false"@ && list[2] == "no"@ && list[3] == "off"@);
    }
    off
}

impl WebhookRetryConfig {
    /// The policy that `WEBHOOK_RETRY_MAX_ATTEMPTS`, `WEBHOOK_RETRY_ON_4XX` and
    /// `WEBHOOK_DLQ_CAPACITY` set, each `None` where the variable is unset.
    pub fn from_env(
        max_attempts: Option<&str>,
        retry_on_4xx: Option<&str>,
        dlq_capacity: Option<&str>,
    ) -> (config: Self)
        ensures
            config.max_attempts == positive_or(var_text(max_attempts), 3),
            config.retry_on_4xx == (match var_text(retry_on_4xx) {
                Some(text) => !switches_off(text),
                None => true,
            }),
            config.dlq_capacity == positive_or(var_text(dlq_capacity), 100),
    {
        WebhookRetryConfig {
            max_attempts: parse_positive_or(max_attempts, 3),
            retry_on_4xx: match retry_on_4xx {
                Some(text) => !is_off(text),
                None => true,
            },
            dlq_capacity: parse_positive_or(dlq_capacity, 100),
        }
    }
}

/// Cooldowns, in seconds, for the first lock of an account, the second, and so on; the last one
/// repeats.
#[derive(Debug)]
pub struct AccountLockBackoffConfig {
    pub schedule: Vec<i64>,
}

impl Clone for AccountLockBackoffConfig {
    fn clone(&self) -> (copy: Self)
        ensures
            copy.schedule@ == self.schedule@,
    {
        let mut schedule: Vec<i64> = Vec::new();
        for i in 0..self.schedule.len()
            invariant
                schedule@ == self.schedule@.take(i as int),
        {
            schedule.push(self.schedule[i]);
        }
        AccountLockBackoffConfig { schedule }
    }
}

/// The positive numbers among `parts`, each trimmed first, in their order.
pub open spec fn positive_steps(parts: Seq<Seq<char>>) -> Seq<i64>
    decreases parts.len(),
{
    if parts.len() == 0 {
        Seq::empty()
    } else {
        let before = positive_steps(parts.drop_last());
        match text::i64_value(text::trimmed(parts.last())) {
            Some(n) => if n > 0 {
                before.push(n)
            } else {
                before
            },
            None => before,
        }
    }
}

/// The cooldowns where none are configured: 5, 15 and 60 minutes.
pub open spec fn default_schedule() -> Seq<i64> {
    seq![300i64, 900i64, 3600i64]
}

/// The schedule that a comma-separated list sets.
pub open spec fn schedule_of(value: Option<Seq<char>>) -> Seq<i64> {
    match value {
        Some(text) => {
            let steps = positive_steps(text::pieces(text, ','));
            if steps.len() > 0 {
                steps
            } else {
                default_schedule()
            }
        },
        None => default_schedule(),
    }
}

fn parse_steps(value: &str) -> (steps: Vec<i64>)
    ensures
        steps@ == positive_steps(text::pieces(value@, ',')),
{
    let parts = text::split(value, ',');
    let mut steps: Vec<i64> = Vec::new();
    for i in 0..parts.len()
        invariant
            steps@ == positive_steps(text::texts(parts@).take(i as int)),
    {
        proof {
            assert(text::texts(parts@).take(i + 1).drop_last() == text::texts(parts@).take(i as int));
        }
        match text::parse_i64(text::trim(parts[i].as_str())) {
            Some(n) => {
                if n > 0 {
                    steps.push(n);
                }
            },
            None => {},
        }
    }
    proof {
        assert(text::texts(parts@).take(parts@.len() as int) == text::texts(parts@));
    }
    steps
}

impl AccountLockBackoffConfig {
    /// The schedule that `ACCOUNT_LOCK_BACKOFF_SECS` sets, `None` where it is unset.
    pub fn from_env(backoff_secs: Option<&str>) -> (config: Self)
        ensures
            config.schedule@ == schedule_of(var_text(backoff_secs)),
            config.schedule@.len() > 0,
            forall|i: int| 0 <= i < config.schedule@.len() ==> #[trigger] config.schedule@[i] > 0,
    {
        let steps = match backoff_secs {
            Some(text) => {
                proof {
                    lemma_steps_positive(text::pieces(text@, ','));
                }
                parse_steps(text)
            },
            None => Vec::new(),
        };
        if steps.len() > 0 {
            AccountLockBackoffConfig { schedule: steps }
        } else {
            AccountLockBackoffConfig { schedule: vec![300i64, 900i64, 3600i64] }
        }
    }
}

proof fn lemma_steps_positive(parts: Seq<Seq<char>>)
    ensures
        forall|i: int|
            0 <= i < positive_steps(parts).len() ==> #[trigger] positive_steps(parts)[i] > 0,
    decreases parts.len(),
{
    if parts.len() > 0 {
        let before = positive_steps(parts.drop_last());
        lemma_steps_positive(parts.drop_last());
        assert forall|i: int| 0 <= i < positive_steps(parts).len() implies #[trigger] positive_steps(
            parts,
        )[i] > 0 by {
            if i < before.len() {
                assert(before[i] > 0);
            }
        }
    }
}

/// Seconds to wait before attempt `attempt`, counted from zero: none before the first, then 5
/// and 30, then doubling from a minute, and never more than five minutes.
pub open spec fn retry_delay_secs(attempt: nat) -> nat {
    if attempt == 0 {
        0
    } else if attempt == 1 {
        5
    } else if attempt == 2 {
        30
    } else {
        let doubled = 60 * vstd::arithmetic::power2::pow2((attempt - 3) as nat);
        if doubled <= 300 {
            doubled
        } else {
            300
        }
    }
}

/// Seconds to wait before attempt `attempt`, counted from zero.
pub fn webhook_retry_delay(attempt: usize) -> (secs: u64)
    ensures
        secs == retry_delay_secs(attempt as nat),
{
    proof {
        vstd::arithmetic::power2::lemma2_to64();
        if attempt > 6 {
            vstd::arithmetic::power2::lemma_pow2_strictly_increases(3, (attempt - 3) as nat);
        }
    }
    match attempt {
        0 => 0,
        1 => 5,
        2 => 30,
        3 => 60,
        4 => 120,
        5 => 240,
        _ => 300,
    }
}

} // verus!
