//! Laws of the settings and of the text that they are read from.

use crate::config;
use crate::config::{AccountLockBackoffConfig, WebhookRetryConfig};
use crate::state::AppState;
use crate::text;
use vstd::prelude::*;

verus! {

/// A number is taken from its variable exactly where that writes a positive one that fits; an
/// unset variable, and any other text, leave the default.
pub proof fn law_positive_setting(value: Option<Seq<char>>, default: usize)
    ensures
        value is None ==> config::positive_or(value, default) == default,
        value is Some && text::usize_value(value->0) is Some && text::usize_value(value->0)->0 > 0
            ==> config::positive_or(value, default) == text::usize_value(value->0)->0,
        value is Some && (text::usize_value(value->0) is None || text::usize_value(value->0)->0
            == 0) ==> config::positive_or(value, default) == default,
{
}

/// Exactly four words switch a setting off, in any mix of upper and lower case.
pub proof fn law_off_words(value: Seq<char>)
    ensures
        config::switches_off(value) <==> exists|word: Seq<char>| #[trigger]
            is_off_word(word) && value.len() == word.len() && forall|i: int|
                0 <= i < word.len() ==> text::ascii_lower(#[trigger] value[i]) == word[i],
{
    let lower = value.map_values(|c: char| text::ascii_lower(c));
    if config::switches_off(value) {
        assert(is_off_word(lower));
        assert(forall|i: int|
            0 <= i < lower.len() ==> text::ascii_lower(#[trigger] value[i]) == lower[i]);
    }
    if exists|word: Seq<char>| #[trigger]
        is_off_word(word) && value.len() == word.len() && forall|i: int|
            0 <= i < word.len() ==> text::ascii_lower(#[trigger] value[i]) == word[i] {
        let word = choose|word: Seq<char>| #[trigger]
            is_off_word(word) && value.len() == word.len() && forall|i: int|
                0 <= i < word.len() ==> text::ascii_lower(#[trigger] value[i]) == word[i];
        assert forall|i: int| 0 <= i < lower.len() implies lower[i] == word[i] by {
            assert(text::ascii_lower(value[i]) == word[i]);
        }
        assert(lower =~= word);
    }
}

/// The words that switch a setting off.
pub open spec fn is_off_word(word: Seq<char>) -> bool {
    word == "0"@ || word == "false"@ || word == "no"@ || word == "off"@
}

/// A list cut at its separators and joined again by them is the list, and no piece holds one.
pub proof fn law_pieces(s: Seq<char>, separator: char)
    ensures
        text::pieces(s, separator).len() > 0,
        forall|i: int|
            0 <= i < text::pieces(s, separator).len() ==> !(#[trigger] text::pieces(
                s,
                separator,
            )[i]).contains(separator),
        joined(text::pieces(s, separator), separator) == s,
    decreases s.len(),
{
    if s.len() > 0 {
        law_pieces(s.drop_last(), separator);
        let before = text::pieces(s.drop_last(), separator);
        let after = text::pieces(s, separator);
        if s.last() == separator {
            assert(after.drop_last() =~= before);
            assert(s =~= s.drop_last().push(separator));
            assert(joined(after, separator) =~= s);
            assert forall|i: int| 0 <= i < after.len() implies !(#[trigger] after[i]).contains(
                separator,
            ) by {
                if i < before.len() {
                    assert(after[i] == before[i]);
                }
            }
        } else {
            assert(after.drop_last() =~= before.drop_last());
            assert(s =~= s.drop_last().push(s.last()));
            if before.len() == 1 {
                assert(joined(after, separator) =~= s);
            } else {
                assert(joined(after, separator) =~= s);
            }
            assert forall|i: int| 0 <= i < after.len() implies !(#[trigger] after[i]).contains(
                separator,
            ) by {
                if i < before.len() - 1 {
                    assert(after[i] == before[i]);
                } else {
                    let piece = before.last();
                    assert(!piece.contains(separator)) by {
                        assert(before[before.len() - 1] == piece);
                    }
                    if after[i].contains(separator) {
                        let k = choose|k: int|
                            0 <= k < after[i].len() && after[i][k] == separator;
                        if k < piece.len() {
                            assert(piece[k] == separator);
                        }
                    }
                }
            }
        }
    } else {
        assert(joined(text::pieces(s, separator), separator) =~= s);
    }
}

/// These pieces with the separator between each two.
pub open spec fn joined(parts: Seq<Seq<char>>, separator: char) -> Seq<char>
    decreases parts.len(),
{
    if parts.len() == 0 {
        Seq::empty()
    } else if parts.len() == 1 {
        parts[0]
    } else {
        joined(parts.drop_last(), separator).push(separator) + parts.last()
    }
}

/// The steps of two lists, one after the other, are the steps of the first and then those of the
/// second; a single entry is a step exactly where, trimmed, it writes a positive number.
pub proof fn law_steps(front: Seq<Seq<char>>, back: Seq<Seq<char>>, entry: Seq<char>)
    ensures
        config::positive_steps(front + back) == config::positive_steps(front)
            + config::positive_steps(back),
        config::positive_steps(seq![entry]) == (match text::i64_value(text::trimmed(entry)) {
            Some(n) => if n > 0 {
                seq![n]
            } else {
                Seq::empty()
            },
            None => Seq::empty(),
        }),
    decreases back.len(),
{
    reveal_with_fuel(config::positive_steps, 2);
    assert(seq![entry].drop_last() =~= Seq::<Seq<char>>::empty());
    assert(config::positive_steps(seq![entry]) =~= (match text::i64_value(text::trimmed(entry)) {
        Some(n) => if n > 0 {
            seq![n]
        } else {
            Seq::empty()
        },
        None => Seq::empty(),
    }));
    if back.len() == 0 {
        assert(front + back =~= front);
        assert(config::positive_steps(front + back) =~= config::positive_steps(front)
            + config::positive_steps(back));
    } else {
        law_steps(front, back.drop_last(), entry);
        assert((front + back).drop_last() =~= front + back.drop_last());
        assert((front + back).last() == back.last());
        assert(config::positive_steps(front + back) =~= config::positive_steps(front)
            + config::positive_steps(back));
    }
}

/// The schedule is that of the variable where it gives a step, and otherwise 5, 15 and 60 minutes.
pub proof fn law_schedule(value: Option<Seq<char>>)
    ensures
        value is Some && config::positive_steps(text::pieces(value->0, ',')).len() > 0
            ==> config::schedule_of(value) == config::positive_steps(text::pieces(value->0, ',')),
        value is None || config::positive_steps(text::pieces(value->0, ',')).len() == 0
            ==> config::schedule_of(value) == seq![300i64, 900i64, 3600i64],
{
}

/// Whether `n` is the setting of a variable whose default is `default`.
pub open spec fn is_set_to(n: usize, value: Option<&str>, default: usize) -> bool {
    match value {
        None => n == default,
        Some(value) => match text::usize_value(value@) {
            Some(given) => n == given && given > 0 || n == default && given == 0,
            None => n == default,
        },
    }
}

/// The retry policy has three attempts and room for a hundred dead letters unless its variables
/// give other positive numbers, and retries after a 4xx code unless that is switched off.
pub proof fn law_retry_policy(
    max_attempts: Option<&str>,
    retry_on_4xx: Option<&str>,
    dlq_capacity: Option<&str>,
    policy: WebhookRetryConfig,
)
    requires
        call_ensures(
            WebhookRetryConfig::from_env,
            (max_attempts, retry_on_4xx, dlq_capacity),
            policy,
        ),
    ensures
        is_set_to(policy.max_attempts, max_attempts, 3),
        is_set_to(policy.dlq_capacity, dlq_capacity, 100),
        retry_on_4xx is None ==> policy.retry_on_4xx,
        retry_on_4xx is Some ==> (policy.retry_on_4xx <==> !is_off_word(
            retry_on_4xx->0@.map_values(|c: char| text::ascii_lower(c)),
        )),
{
}

/// The lock schedule is the positive numbers that its variable lists between commas, and otherwise
/// 5, 15 and 60 minutes.
pub proof fn law_lock_schedule(value: Option<&str>, backoff: AccountLockBackoffConfig, i: int)
    requires
        call_ensures(AccountLockBackoffConfig::from_env, (value,), backoff),
    ensures
        backoff.schedule@.len() > 0,
        0 <= i < backoff.schedule@.len() ==> backoff.schedule@[i] > 0,
        value is None ==> backoff.schedule@ == seq![300i64, 900i64, 3600i64],
        value is Some && config::positive_steps(text::pieces(value->0@, ',')).len() == 0
            ==> backoff.schedule@ == seq![300i64, 900i64, 3600i64],
        value is Some && config::positive_steps(text::pieces(value->0@, ',')).len() > 0
            ==> backoff.schedule@ == config::positive_steps(text::pieces(value->0@, ',')),
{
}

/// The state at startup holds the settings and nothing else.
pub proof fn law_new_state(
    storage_path: Option<&str>,
    max_attempts: Option<&str>,
    retry_on_4xx: Option<&str>,
    dlq_capacity: Option<&str>,
    lock_backoff_secs: Option<&str>,
    app: AppState,
)
    requires
        call_ensures(
            AppState::new,
            (storage_path, max_attempts, retry_on_4xx, dlq_capacity, lock_backoff_secs),
            app,
        ),
    ensures
        storage_path is Some ==> app@.base_storage_path == storage_path->0@,
        storage_path is None ==> app@.base_storage_path == "./whatsapp_sessions"@,
        is_set_to(app@.webhook_retry.max_attempts, max_attempts, 3),
        is_set_to(app@.webhook_retry.dlq_capacity, dlq_capacity, 100),
        retry_on_4xx is None ==> app@.webhook_retry.retry_on_4xx,
        retry_on_4xx is Some ==> (app@.webhook_retry.retry_on_4xx <==> !is_off_word(
            retry_on_4xx->0@.map_values(|c: char| text::ascii_lower(c)),
        )),
        lock_backoff_secs is None ==> app@.lock_schedule == seq![300i64, 900i64, 3600i64],
        lock_backoff_secs is Some && config::positive_steps(
            text::pieces(lock_backoff_secs->0@, ','),
        ).len() == 0 ==> app@.lock_schedule == seq![300i64, 900i64, 3600i64],
        lock_backoff_secs is Some && config::positive_steps(
            text::pieces(lock_backoff_secs->0@, ','),
        ).len() > 0 ==> app@.lock_schedule == config::positive_steps(
            text::pieces(lock_backoff_secs->0@, ','),
        ),
        app@.sessions.dom() == Set::<Seq<char>>::empty(),
        app@.webhooks.dom() == Set::<Seq<char>>::empty(),
        app@.webhook_circuits.dom() == Set::<Seq<char>>::empty(),
        app@.webhook_dlq.dom() == Set::<Seq<char>>::empty(),
        app@.session_tags.dom() == Set::<Seq<char>>::empty(),
        app@.event_ring.len() == 0,
        app@.voice_cache is None,
        app.wf(),
{
}

/// What the state says of its settings is what it holds.
pub proof fn law_read_settings(app: &AppState, backoff: &AccountLockBackoffConfig, path: &str)
    requires
        call_ensures(AppState::account_lock_backoff, (app,), backoff),
        call_ensures(AppState::base_storage_path, (app,), path),
    ensures
        backoff.schedule@ == app@.lock_schedule,
        path@ == app@.base_storage_path,
{
}

/// The waits before the attempts are 0, 5, 30, 60, 120 and 240 seconds, and 300 from then on.
pub proof fn law_retry_delay(attempt: usize, secs: u64)
    requires
        call_ensures(config::webhook_retry_delay, (attempt,), secs),
    ensures
        attempt == 0 ==> secs == 0,
        attempt == 1 ==> secs == 5,
        attempt == 2 ==> secs == 30,
        attempt == 3 ==> secs == 60,
        attempt == 4 ==> secs == 120,
        attempt == 5 ==> secs == 240,
        attempt >= 6 ==> secs == 300,
{
    crate::laws::deliveries::law_waits(if attempt >= 6 {
        attempt as nat
    } else {
        6
    });
}

} // verus!
