//! Laws of the calls that read and change the shared state: what each returns and which parts of
//! the state it changes.

use crate::events::ConsoleEvent;
use crate::registry;
use crate::session::SessionState;
use crate::state;
use crate::state::{AppState, VoiceEntry};
use crate::text;
use crate::webhooks::WebhookConfig;
use vstd::prelude::*;

verus! {

/// Whether two states agree in what startup configured.
pub open spec fn same_configuration(a: state::AppView, b: state::AppView) -> bool {
    &&& a.base_storage_path == b.base_storage_path
    &&& a.webhook_retry == b.webhook_retry
    &&& a.lock_schedule == b.lock_schedule
    &&& a.clock_origin == b.clock_origin
}

/// Whether two states agree in everything about webhooks but their circuits.
pub open spec fn same_registrations(a: state::AppView, b: state::AppView) -> bool {
    a.webhooks == b.webhooks && a.webhook_dlq == b.webhook_dlq
}

/// Whether two states agree in what has nothing to do with webhooks or events.
pub open spec fn same_sessions_and_tags(a: state::AppView, b: state::AppView) -> bool {
    &&& a.sessions == b.sessions
    &&& a.session_tags == b.session_tags
    &&& a.voice_cache == b.voice_cache
}

/// Whether a session has a tag.
pub open spec fn has_tag(app: state::AppView, id: Seq<char>, tag: Seq<char>) -> bool {
    app.session_tags.contains_key(id) && app.session_tags[id].contains(tag)
}

/// Whether two states agree in everything but the tags.
pub open spec fn only_tags_differ(a: state::AppView, b: state::AppView) -> bool {
    &&& same_configuration(a, b)
    &&& same_registrations(a, b)
    &&& a.sessions == b.sessions
    &&& a.voice_cache == b.voice_cache
    &&& a.webhook_circuits == b.webhook_circuits
    &&& a.event_ring == b.event_ring
}

/// Adding a tag gives the session its trimmed form, unless nothing is left of it, and says whether
/// the session did not have it before.
pub proof fn law_add_tag(s: &mut AppState, id: &str, tag: &str, added: bool)
    requires
        call_ensures(AppState::add_tag, (s, id, tag), added),
    ensures
        added <==> text::trimmed(tag@).len() > 0 && !has_tag(old(s)@, id@, text::trimmed(tag@)),
        forall|other: Seq<char>, t: Seq<char>| #[trigger]
            has_tag(final(s)@, other, t) <==> has_tag(old(s)@, other, t) || (other == id@ && t
                == text::trimmed(tag@) && t.len() > 0),
        only_tags_differ(final(s)@, old(s)@),
{
}

/// Removing a tag takes that tag from that session, and says whether it was there; a session that
/// has no tag left is no longer listed.
pub proof fn law_remove_tag(s: &mut AppState, id: &str, tag: &str, removed: bool)
    requires
        call_ensures(AppState::remove_tag, (s, id, tag), removed),
    ensures
        removed <==> has_tag(old(s)@, id@, tag@),
        forall|other: Seq<char>, t: Seq<char>| #[trigger]
            has_tag(final(s)@, other, t) <==> has_tag(old(s)@, other, t) && !(other == id@ && t
                == tag@),
        final(s)@.session_tags.contains_key(id@) ==> exists|t: Seq<char>| #[trigger]
            has_tag(final(s)@, id@, t),
        forall|other: Seq<char>|
            other != id@ ==> (#[trigger] final(s)@.session_tags.contains_key(other)
                <==> old(s)@.session_tags.contains_key(other)),
        only_tags_differ(final(s)@, old(s)@),
{
    if old(s)@.session_tags.contains_key(id@) {
        let kept = old(s)@.session_tags[id@].remove(tag@);
        assert(kept == Set::<Seq<char>>::empty() ==> forall|t: Seq<char>| !kept.contains(t));
        assert forall|other: Seq<char>, t: Seq<char>| #[trigger]
            has_tag(final(s)@, other, t) <==> has_tag(old(s)@, other, t) && !(other == id@ && t
                == tag@) by {
            if other == id@ {
                assert(kept.contains(t) <==> old(s)@.session_tags[id@].contains(t) && t != tag@);
            }
        }
    }
    if final(s)@.session_tags.contains_key(id@) {
        let left = final(s)@.session_tags[id@];
        assert(left != Set::<Seq<char>>::empty());
        if forall|t: Seq<char>| !left.contains(t) {
            assert(left =~= Set::<Seq<char>>::empty());
        }
        let t = choose|t: Seq<char>| left.contains(t);
        assert(has_tag(final(s)@, id@, t));
    }
}

/// Setting the tags of a session leaves it exactly the trimmed forms of those given, but for empty
/// ones, and every other session what it had; a session that is left without tags is not listed.
pub proof fn law_set_tags(s: &mut AppState, id: &str, tags: Vec<String>)
    requires
        call_ensures(AppState::set_tags, (s, id, tags), ()),
    ensures
        forall|i: int|
            0 <= i < tags@.len() && text::trimmed((#[trigger] tags@[i])@).len() > 0 ==> has_tag(
                final(s)@,
                id@,
                text::trimmed(tags@[i]@),
            ),
        forall|t: Seq<char>| #[trigger]
            has_tag(final(s)@, id@, t) ==> t.len() > 0 && exists|i: int|
                0 <= i < tags@.len() && text::trimmed((#[trigger] tags@[i])@) == t,
        forall|other: Seq<char>, t: Seq<char>|
            other != id@ ==> (#[trigger] has_tag(final(s)@, other, t) <==> has_tag(
                old(s)@,
                other,
                t,
            )),
        final(s)@.session_tags.contains_key(id@) ==> exists|t: Seq<char>| #[trigger]
            has_tag(final(s)@, id@, t),
        only_tags_differ(final(s)@, old(s)@),
{
    let given = text::texts(tags@);
    let set = crate::tags::cleaned(given);
    let trims = given.map_values(|tag: Seq<char>| text::trimmed(tag));
    assert forall|i: int|
        0 <= i < tags@.len() && text::trimmed((#[trigger] tags@[i])@).len() > 0 implies has_tag(
        final(s)@,
        id@,
        text::trimmed(tags@[i]@),
    ) by {
        assert(trims[i] == text::trimmed(tags@[i]@));
        assert(trims.to_set().contains(trims[i]));
        assert(set.contains(trims[i]));
    }
    assert forall|t: Seq<char>| #[trigger] has_tag(final(s)@, id@, t) implies t.len() > 0
        && exists|i: int| 0 <= i < tags@.len() && text::trimmed((#[trigger] tags@[i])@) == t by {
        assert(set.contains(t));
        assert(trims.contains(t));
        let i = choose|i: int| 0 <= i < trims.len() && trims[i] == t;
        assert(text::trimmed(tags@[i]@) == t);
        if t.len() == 0 {
            assert(t =~= Seq::<char>::empty());
        }
    }
    if final(s)@.session_tags.contains_key(id@) {
        if forall|t: Seq<char>| !set.contains(t) {
            assert(set =~= Set::<Seq<char>>::empty());
        }
        let t = choose|t: Seq<char>| set.contains(t);
        assert(has_tag(final(s)@, id@, t));
    }
}

/// Dropping the tags of a session takes it from the list, and says whether it was on it.
pub proof fn law_drop_tags(s: &mut AppState, id: &str, dropped: bool)
    requires
        call_ensures(AppState::drop_tags_for, (s, id), dropped),
    ensures
        dropped <==> old(s)@.session_tags.contains_key(id@),
        !final(s)@.session_tags.contains_key(id@),
        forall|other: Seq<char>|
            other != id@ ==> (#[trigger] final(s)@.session_tags.contains_key(other)
                <==> old(s)@.session_tags.contains_key(other)),
        forall|other: Seq<char>, t: Seq<char>|
            other != id@ ==> (#[trigger] has_tag(final(s)@, other, t) <==> has_tag(
                old(s)@,
                other,
                t,
            )),
        only_tags_differ(final(s)@, old(s)@),
{
}

/// The lists of tags and of tagged sessions hold exactly what the sessions have.
pub proof fn law_tag_lists(
    s: &AppState,
    id: &str,
    tag: &str,
    list: Vec<String>,
    with_tag: Vec<String>,
    tagged: Vec<String>,
)
    requires
        call_ensures(AppState::list_tags, (s, id), list),
        call_ensures(AppState::sessions_with_tag, (s, tag), with_tag),
        call_ensures(AppState::all_session_ids_with_tags, (s,), tagged),
    ensures
        forall|t: Seq<char>| #[trigger] text::texts(list@).contains(t) <==> has_tag(s@, id@, t),
        forall|other: Seq<char>| #[trigger]
            text::texts(with_tag@).contains(other) <==> has_tag(s@, other, tag@),
        forall|other: Seq<char>| #[trigger]
            text::texts(tagged@).contains(other) <==> s@.session_tags.contains_key(other),
        forall|i: int, j: int|
            0 <= i < j < list@.len() ==> (#[trigger] list@[i])@ != (#[trigger] list@[j])@,
        forall|i: int, j: int|
            0 <= i < j < with_tag@.len() ==> (#[trigger] with_tag@[i])@ != (
            #[trigger] with_tag@[j])@,
        forall|i: int, j: int|
            0 <= i < j < tagged@.len() ==> (#[trigger] tagged@[i])@ != (#[trigger] tagged@[j])@,
{
    let listed = text::texts(list@);
    assert forall|t: Seq<char>| #[trigger] listed.contains(t) <==> has_tag(s@, id@, t) by {
        assert(listed.contains(t) <==> listed.to_set().contains(t));
    }
    assert forall|i: int, j: int| 0 <= i < j < list@.len() implies (#[trigger] list@[i])@ != (
    #[trigger] list@[j])@ by {
        assert(listed[i] == list@[i]@ && listed[j] == list@[j]@);
    }
    assert forall|i: int, j: int| 0 <= i < j < with_tag@.len() implies (#[trigger] with_tag@[i])@
        != (#[trigger] with_tag@[j])@ by {
        assert(text::texts(with_tag@)[i] != text::texts(with_tag@)[j]);
    }
    assert forall|i: int, j: int| 0 <= i < j < tagged@.len() implies (#[trigger] tagged@[i])@ != (
    #[trigger] tagged@[j])@ by {
        assert(text::texts(tagged@)[i] != text::texts(tagged@)[j]);
    }
}

/// A tag file that can be read replaces the tags of the sessions that it lists, and of no other;
/// one that cannot changes nothing.
pub proof fn law_load_tags(
    s: &mut AppState,
    bytes: &[u8],
    loaded: Result<(), crate::tags::TagFileError>,
)
    requires
        call_ensures(AppState::load_tags, (s, bytes), loaded),
    ensures
        loaded is Ok <==> crate::tags::json_tag_lists(bytes@) is Some,
        loaded is Err ==> final(s)@ == old(s)@,
        loaded is Ok ==> ({
            let lists = crate::tags::json_tag_lists(bytes@)->0;
            &&& forall|id: Seq<char>, t: Seq<char>|
                lists.contains_key(id) ==> (#[trigger] has_tag(final(s)@, id, t)
                    <==> lists[id].contains(t))
            &&& forall|id: Seq<char>, t: Seq<char>|
                !lists.contains_key(id) ==> (#[trigger] has_tag(final(s)@, id, t) <==> has_tag(
                    old(s)@,
                    id,
                    t,
                ))
        }),
        only_tags_differ(final(s)@, old(s)@),
{
    if loaded is Ok {
        let lists = crate::tags::json_tag_lists(bytes@)->0;
        assert forall|id: Seq<char>, t: Seq<char>| lists.contains_key(id) implies (
        #[trigger] has_tag(final(s)@, id, t) <==> lists[id].contains(t)) by {
            assert(lists[id].contains(t) <==> lists[id].to_set().contains(t));
        }
    }
}

/// The tag file that is written lists exactly the tags that the sessions have.
pub proof fn law_persist_tags(s: &AppState, bytes: Result<Vec<u8>, crate::tags::TagFileError>)
    requires
        call_ensures(AppState::persist_tags, (s,), bytes),
    ensures
        bytes is Ok,
        crate::tags::json_tag_lists(bytes->Ok_0@) is Some,
        ({
            let lists = crate::tags::json_tag_lists(bytes->Ok_0@)->0;
            &&& forall|id: Seq<char>| #[trigger]
                lists.contains_key(id) <==> s@.session_tags.contains_key(id)
            &&& forall|id: Seq<char>, t: Seq<char>| #[trigger]
                has_tag(s@, id, t) <==> lists.contains_key(id) && lists[id].contains(t)
        }),
{
    let lists = crate::tags::json_tag_lists(bytes->Ok_0@)->0;
    let tags = crate::tags::tags_of_lists(lists);
    assert forall|id: Seq<char>| #[trigger] lists.contains_key(id)
        <==> s@.session_tags.contains_key(id) by {
        assert(tags.contains_key(id) <==> lists.contains_key(id));
    }
    assert forall|id: Seq<char>, t: Seq<char>| #[trigger] has_tag(s@, id, t)
        <==> lists.contains_key(id) && lists[id].contains(t) by {
        assert(tags.contains_key(id) <==> lists.contains_key(id));
        if lists.contains_key(id) {
            assert(lists[id].contains(t) <==> lists[id].to_set().contains(t));
        }
    }
}

/// Whether two states agree in everything but the sessions.
pub open spec fn only_sessions_differ(a: state::AppView, b: state::AppView) -> bool {
    &&& same_configuration(a, b)
    &&& same_registrations(a, b)
    &&& a.session_tags == b.session_tags
    &&& a.voice_cache == b.voice_cache
    &&& a.webhook_circuits == b.webhook_circuits
    &&& a.event_ring == b.event_ring
}

/// A session is found exactly where the state holds one under its id, and it is that one.
pub proof fn law_session_lookup(
    s: &AppState,
    id: &str,
    held: bool,
    found: Option<&SessionState>,
)
    requires
        call_ensures(AppState::has_session, (s, id), held),
        call_ensures(AppState::get_session, (s, id), found),
    ensures
        held <==> s@.sessions.contains_key(id@),
        found is Some <==> s@.sessions.contains_key(id@),
        found is Some ==> found->0@ == s@.sessions[id@],
{
}

/// A session that is asked for is there afterwards, as whoever asked leaves it: the one that was
/// there, or a new one with the given storage path. No other session changes.
pub proof fn law_get_or_create(s: &mut AppState, id: &str, path: &str, session: &mut SessionState)
    requires
        call_ensures(AppState::get_or_create_session, (s, id, path), session),
    ensures
        old(s)@.sessions.contains_key(id@) ==> old(session)@ == old(s)@.sessions[id@],
        !old(s)@.sessions.contains_key(id@) ==> old(session).storage_path@ == path@
            && old(session).client is None && old(session).auto_reconnect_pref
            && old(session).lock_strikes == 0 && old(session).logout_history@.len() == 0,
        final(s)@.sessions.contains_key(id@),
        final(s)@.sessions[id@] == final(session)@,
        forall|other: Seq<char>|
            other != id@ ==> (#[trigger] final(s)@.sessions.contains_key(other)
                <==> old(s)@.sessions.contains_key(other)),
        forall|other: Seq<char>|
            other != id@ && old(s)@.sessions.contains_key(other)
                ==> #[trigger] final(s)@.sessions[other] == old(s)@.sessions[other],
        only_sessions_differ(final(s)@, old(s)@),
{
    assert(old(session)@.logout_history == old(session).logout_history@);
}

/// A session is handed out for changes exactly where there is one under the id, and whoever
/// changes it changes no other.
pub proof fn law_get_mut(s: &mut AppState, id: &str, found: Option<&mut SessionState>)
    requires
        call_ensures(AppState::get_session_mut, (s, id), found),
    ensures
        found is Some <==> old(s)@.sessions.contains_key(id@),
        forall|other: Seq<char>|
            #[trigger] final(s)@.sessions.contains_key(other) <==> old(s)@.sessions.contains_key(
                other,
            ),
        forall|other: Seq<char>|
            other != id@ && old(s)@.sessions.contains_key(other)
                ==> #[trigger] final(s)@.sessions[other] == old(s)@.sessions[other],
        only_sessions_differ(final(s)@, old(s)@),
{
}

/// A session that is removed is gone and is handed out; no other is.
pub proof fn law_remove_session(s: &mut AppState, id: &str, removed: Option<SessionState>)
    requires
        call_ensures(AppState::remove_session, (s, id), removed),
    ensures
        removed is Some <==> old(s)@.sessions.contains_key(id@),
        removed is Some ==> removed->0@ == old(s)@.sessions[id@],
        !final(s)@.sessions.contains_key(id@),
        forall|other: Seq<char>|
            other != id@ ==> (#[trigger] final(s)@.sessions.contains_key(other)
                <==> old(s)@.sessions.contains_key(other)),
        forall|other: Seq<char>|
            other != id@ && old(s)@.sessions.contains_key(other)
                ==> #[trigger] final(s)@.sessions[other] == old(s)@.sessions[other],
        only_sessions_differ(final(s)@, old(s)@),
{
}

/// The lists of sessions hold every session of the state once: one entry per id, and no other.
pub proof fn law_session_lists(
    s: &AppState,
    list: Vec<&SessionState>,
    with_ids: Vec<(String, &SessionState)>,
)
    requires
        call_ensures(AppState::session_iter, (s,), list),
        call_ensures(AppState::session_iter_with_ids, (s,), with_ids),
    ensures
        s@.sessions.dom().finite(),
        list@.len() == s@.sessions.dom().len(),
        with_ids@.len() == s@.sessions.dom().len(),
        forall|id: Seq<char>| #[trigger]
            s@.sessions.contains_key(id) ==> exists|i: int|
                0 <= i < list@.len() && (#[trigger] list@[i])@ == s@.sessions[id],
        forall|id: Seq<char>| #[trigger]
            s@.sessions.contains_key(id) ==> exists|i: int|
                0 <= i < with_ids@.len() && (#[trigger] with_ids@[i]).0@ == id && with_ids@[i].1@
                    == s@.sessions[id],
        forall|i: int|
            0 <= i < with_ids@.len() ==> s@.sessions.contains_key((#[trigger] with_ids@[i]).0@),
{
    let ids = choose|ids: Seq<Seq<char>>|
        {
            &&& #[trigger] ids.no_duplicates()
            &&& ids.to_set() == s@.sessions.dom()
            &&& ids.len() == list@.len()
            &&& forall|i: int|
                0 <= i < list@.len() ==> (#[trigger] list@[i])@ == s@.sessions[ids[i]]
        };
    ids.unique_seq_to_set();
    assert forall|id: Seq<char>| #[trigger] s@.sessions.contains_key(id) implies exists|i: int|
        0 <= i < list@.len() && (#[trigger] list@[i])@ == s@.sessions[id] by {
        assert(ids.to_set().contains(id));
        let i = choose|i: int| 0 <= i < ids.len() && ids[i] == id;
        assert(list@[i]@ == s@.sessions[ids[i]]);
    }
    let names = Seq::new(with_ids@.len(), |i: int| with_ids@[i].0@);
    assert(names.no_duplicates()) by {
        assert forall|i: int, j: int| 0 <= i < names.len() && 0 <= j < names.len() && i
            != j implies names[i] != names[j] by {
            assert(with_ids@[i].0@ == names[i] && with_ids@[j].0@ == names[j]);
        }
    }
    assert(names.to_set() =~= s@.sessions.dom()) by {
        assert forall|id: Seq<char>| names.to_set().contains(id) <==> s@.sessions.dom().contains(
            id,
        ) by {
            if names.to_set().contains(id) {
                let i = choose|i: int| 0 <= i < names.len() && names[i] == id;
                assert(s@.sessions.contains_key(with_ids@[i].0@));
            }
            if s@.sessions.dom().contains(id) {
                assert(s@.sessions.contains_key(id));
                let i = choose|i: int|
                    0 <= i < with_ids@.len() && (#[trigger] with_ids@[i]).0@ == id;
                assert(names[i] == id);
            }
        }
    }
    names.unique_seq_to_set();
}

/// Whether a session has a webhook registered under an id.
pub open spec fn is_registered(app: state::AppView, id: Seq<char>, webhook: Seq<char>) -> bool {
    app.webhooks.contains_key(id) && app.webhooks[id].contains_key(webhook)
}

/// Whether two states agree in everything but the registrations.
pub open spec fn only_webhooks_differ(a: state::AppView, b: state::AppView) -> bool {
    &&& same_configuration(a, b)
    &&& same_sessions_and_tags(a, b)
    &&& a.webhook_circuits == b.webhook_circuits
    &&& a.webhook_dlq == b.webhook_dlq
    &&& a.event_ring == b.event_ring
}

/// Registering a webhook files it under its session and id as it is given, and no other changes.
pub proof fn law_register(s: &mut AppState, id: &str, webhook: &str, config: WebhookConfig)
    requires
        call_ensures(AppState::register_webhook, (s, id, webhook, config), ()),
    ensures
        forall|i: Seq<char>, w: Seq<char>| #[trigger]
            is_registered(final(s)@, i, w) <==> is_registered(old(s)@, i, w) || (i == id@ && w
                == webhook@),
        final(s)@.webhooks[id@][webhook@].url == config.url@,
        final(s)@.webhooks[id@][webhook@].events == text::texts(config.events@),
        final(s)@.webhooks[id@][webhook@].secret is Some <==> config.secret is Some,
        config.secret is Some ==> final(s)@.webhooks[id@][webhook@].secret->0 == config.secret->0@,
        final(s)@.webhooks[id@][webhook@].enabled == config.enabled,
        forall|i: Seq<char>, w: Seq<char>|
            #![trigger is_registered(final(s)@, i, w)]
            is_registered(old(s)@, i, w) && !(i == id@ && w == webhook@)
                ==> final(s)@.webhooks[i][w] == old(s)@.webhooks[i][w],
        only_webhooks_differ(final(s)@, old(s)@),
{
}

/// Removing a webhook takes it out and hands it back; no other changes.
pub proof fn law_unregister(
    s: &mut AppState,
    id: &str,
    webhook: &str,
    removed: Option<WebhookConfig>,
)
    requires
        call_ensures(AppState::remove_webhook, (s, id, webhook), removed),
    ensures
        removed is Some <==> is_registered(old(s)@, id@, webhook@),
        removed is Some ==> removed->0@ == old(s)@.webhooks[id@][webhook@],
        forall|i: Seq<char>, w: Seq<char>| #[trigger]
            is_registered(final(s)@, i, w) <==> is_registered(old(s)@, i, w) && !(i == id@ && w
                == webhook@),
        forall|i: Seq<char>, w: Seq<char>| #[trigger]
            is_registered(final(s)@, i, w) ==> final(s)@.webhooks[i][w] == old(s)@.webhooks[i][w],
        only_webhooks_differ(final(s)@, old(s)@),
{
}

/// The webhooks of a session are listed once each, as they are registered, and no other.
pub proof fn law_webhooks_listed(s: &AppState, id: &str, list: Vec<(String, WebhookConfig)>)
    requires
        call_ensures(AppState::get_webhooks, (s, id), list),
    ensures
        forall|i: int|
            0 <= i < list@.len() ==> is_registered(s@, id@, (#[trigger] list@[i]).0@)
                && s@.webhooks[id@][list@[i].0@] == list@[i].1@,
        forall|w: Seq<char>| #[trigger]
            is_registered(s@, id@, w) ==> exists|i: int|
                0 <= i < list@.len() && (#[trigger] list@[i]).0@ == w,
        forall|i: int, j: int|
            0 <= i < j < list@.len() ==> (#[trigger] list@[i]).0@ != (#[trigger] list@[j]).0@,
{
    assert forall|w: Seq<char>| #[trigger] is_registered(s@, id@, w) implies exists|i: int|
        0 <= i < list@.len() && (#[trigger] list@[i]).0@ == w by {
        assert(registry::webhooks_of(s@.webhooks, id@).contains_key(w));
    }
}

/// Purging a URL takes out every registration for it, with its circuit, and nothing else.
pub proof fn law_purge_url(s: &mut AppState, url: &str)
    requires
        call_ensures(AppState::purge_webhook_by_url, (s, url), ()),
    ensures
        forall|i: Seq<char>, w: Seq<char>| #[trigger]
            is_registered(final(s)@, i, w) <==> is_registered(old(s)@, i, w)
                && old(s)@.webhooks[i][w].url != url@,
        forall|i: Seq<char>, w: Seq<char>| #[trigger]
            is_registered(final(s)@, i, w) ==> final(s)@.webhooks[i][w] == old(s)@.webhooks[i][w],
        !final(s)@.webhook_circuits.contains_key(url@),
        forall|u: Seq<char>|
            u != url@ ==> (#[trigger] final(s)@.webhook_circuits.contains_key(u)
                <==> old(s)@.webhook_circuits.contains_key(u)),
        forall|u: Seq<char>|
            u != url@ && old(s)@.webhook_circuits.contains_key(u)
                ==> #[trigger] final(s)@.webhook_circuits[u] == old(s)@.webhook_circuits[u],
        same_configuration(final(s)@, old(s)@),
        same_sessions_and_tags(final(s)@, old(s)@),
        final(s)@.webhook_dlq == old(s)@.webhook_dlq,
        final(s)@.event_ring == old(s)@.event_ring,
{
}

/// Purging a session takes out its webhooks and its dead letters, and nothing else: the circuits
/// stay as they are.
pub proof fn law_purge_session(s: &mut AppState, id: &str)
    requires
        call_ensures(AppState::purge_webhooks_for_session, (s, id), ()),
    ensures
        forall|i: Seq<char>, w: Seq<char>| #[trigger]
            is_registered(final(s)@, i, w) <==> is_registered(old(s)@, i, w) && i != id@,
        forall|i: Seq<char>, w: Seq<char>| #[trigger]
            is_registered(final(s)@, i, w) ==> final(s)@.webhooks[i][w] == old(s)@.webhooks[i][w],
        !final(s)@.webhook_dlq.contains_key(id@),
        forall|i: Seq<char>|
            i != id@ ==> (#[trigger] final(s)@.webhook_dlq.contains_key(i)
                <==> old(s)@.webhook_dlq.contains_key(i)),
        forall|i: Seq<char>|
            i != id@ && old(s)@.webhook_dlq.contains_key(i) ==> #[trigger] final(s)@.webhook_dlq[i]
                == old(s)@.webhook_dlq[i],
        same_configuration(final(s)@, old(s)@),
        same_sessions_and_tags(final(s)@, old(s)@),
        final(s)@.webhook_circuits == old(s)@.webhook_circuits,
        final(s)@.event_ring == old(s)@.event_ring,
{
}

/// Showing an event appends it, with the first 120 characters of its payload, to the console; one
/// that already shows 200 loses the oldest.
pub proof fn law_push_event(s: &mut AppState, id: &str, event: &str, payload: &str, at: i64)
    requires
        old(s)@.event_ring.len() <= 200,
        call_ensures(AppState::push_event_at, (s, id, event, payload, at), ()),
    ensures
        final(s)@.event_ring.len() == (if old(s)@.event_ring.len() < 200 {
            old(s)@.event_ring.len() + 1
        } else {
            200
        }),
        final(s)@.event_ring.last().session_id == id@,
        final(s)@.event_ring.last().event_type == event@,
        final(s)@.event_ring.last().at_epoch_ms == at,
        final(s)@.event_ring.last().payload_preview.len() == (if payload@.len() < 120 {
            payload@.len()
        } else {
            120
        }),
        final(s)@.event_ring.last().payload_preview.is_prefix_of(payload@),
        forall|k: int|
            1 <= k < final(s)@.event_ring.len()
                ==> #[trigger] final(s)@.event_ring[final(s)@.event_ring.len() - 1 - k]
                == old(s)@.event_ring[old(s)@.event_ring.len() - k],
        same_configuration(final(s)@, old(s)@),
        same_sessions_and_tags(final(s)@, old(s)@),
        same_registrations(final(s)@, old(s)@),
        final(s)@.webhook_circuits == old(s)@.webhook_circuits,
{
}

/// The recent events are the newest that the console shows, newest first, no more than asked for.
pub proof fn law_recent_events(s: &AppState, limit: usize, list: Vec<ConsoleEvent>)
    requires
        call_ensures(AppState::recent_events, (s, limit), list),
    ensures
        list@.len() == (if limit < s@.event_ring.len() {
            limit as nat
        } else {
            s@.event_ring.len()
        }),
        forall|i: int|
            0 <= i < list@.len() ==> (#[trigger] list@[i]).session_id@
                == s@.event_ring[s@.event_ring.len() - 1 - i].session_id && list@[i].event_type@
                == s@.event_ring[s@.event_ring.len() - 1 - i].event_type
                && list@[i].payload_preview@
                == s@.event_ring[s@.event_ring.len() - 1 - i].payload_preview
                && list@[i].at_epoch_ms
                == s@.event_ring[s@.event_ring.len() - 1 - i].at_epoch_ms,
{
    assert(crate::events::event_views(list@).len() == list@.len());
    assert forall|i: int| 0 <= i < list@.len() implies (#[trigger] list@[i])@
        == s@.event_ring[s@.event_ring.len() - 1 - i] by {
        assert(crate::events::event_views(list@)[i] == list@[i]@);
    }
}

/// The cached voices are those cached last, in their order.
pub proof fn law_voices(
    s: &mut AppState,
    given: Vec<VoiceEntry>,
    t: &AppState,
    cached: Option<Vec<VoiceEntry>>,
)
    requires
        call_ensures(AppState::set_cached_voices, (s, given), ()),
        call_ensures(AppState::cached_voices, (t,), cached),
    ensures
        t@.voice_cache is None <==> cached is None,
        final(s)@.voice_cache is Some,
        t@.voice_cache == final(s)@.voice_cache ==> cached is Some && cached->0@.len()
            == given@.len() && forall|i: int|
            0 <= i < given@.len() ==> (#[trigger] cached->0@[i]).json@ == given@[i].json@,
        same_configuration(final(s)@, old(s)@),
        same_registrations(final(s)@, old(s)@),
        final(s)@.sessions == old(s)@.sessions,
        final(s)@.session_tags == old(s)@.session_tags,
        final(s)@.webhook_circuits == old(s)@.webhook_circuits,
        final(s)@.event_ring == old(s)@.event_ring,
{
    if t@.voice_cache == final(s)@.voice_cache {
        let held = state::voice_texts(cached->0@);
        assert(held == state::voice_texts(given@));
        assert(held.len() == state::voice_texts(given@).len());
        assert forall|i: int| 0 <= i < given@.len() implies (#[trigger] cached->0@[i]).json@
            == given@[i].json@ by {
            assert(held[i] == state::voice_texts(given@)[i]);
        }
    }
}

} // verus!
