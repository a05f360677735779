//! The webhooks that sessions registered, and the deliveries that failed for good.

use crate::events;
use crate::table;
use crate::text;
use crate::webhooks::{WebhookConfig, WebhookDlqEntry};
use std::collections::VecDeque;
use vstd::prelude::*;

verus! {

/// The view of a webhook.
pub open spec fn webhook_view() -> spec_fn(WebhookConfig) -> crate::webhooks::WebhookView {
    |config: WebhookConfig| config@
}

/// The webhooks of one session, by their ids.
pub open spec fn webhooks_view() -> spec_fn(table::Table<WebhookConfig>) -> Map<
    Seq<char>,
    crate::webhooks::WebhookView,
> {
    |webhooks: table::Table<WebhookConfig>| webhooks@.map_values(webhook_view())
}

/// The webhooks of every session, by session and webhook id.
pub struct WebhookRegistry {
    sessions: table::Table<table::Table<WebhookConfig>>,
}

impl View for WebhookRegistry {
    type V = Map<Seq<char>, Map<Seq<char>, crate::webhooks::WebhookView>>;

    closed spec fn view(&self) -> Map<Seq<char>, Map<Seq<char>, crate::webhooks::WebhookView>> {
        self.sessions@.map_values(webhooks_view())
    }
}

/// The webhooks of `session_id`, none where it has no entry.
pub open spec fn webhooks_of(
    registry: Map<Seq<char>, Map<Seq<char>, crate::webhooks::WebhookView>>,
    session_id: Seq<char>,
) -> Map<Seq<char>, crate::webhooks::WebhookView> {
    if registry.contains_key(session_id) {
        registry[session_id]
    } else {
        Map::empty()
    }
}

/// `webhooks` without those that deliver to `url`.
pub open spec fn without_url(
    webhooks: Map<Seq<char>, crate::webhooks::WebhookView>,
    url: Seq<char>,
) -> Map<Seq<char>, crate::webhooks::WebhookView> {
    Map::new(
        |id: Seq<char>| webhooks.contains_key(id) && webhooks[id].url != url,
        |id: Seq<char>| webhooks[id],
    )
}

/// `registry` without the webhooks that deliver to `url`.
pub open spec fn url_purged(
    registry: Map<Seq<char>, Map<Seq<char>, crate::webhooks::WebhookView>>,
    url: Seq<char>,
) -> Map<Seq<char>, Map<Seq<char>, crate::webhooks::WebhookView>> {
    registry.map_values(
        |webhooks: Map<Seq<char>, crate::webhooks::WebhookView>| without_url(webhooks, url),
    )
}

/// `registry` after `config` was filed for `session_id` under `webhook_id`.
pub open spec fn registered(
    registry: Map<Seq<char>, Map<Seq<char>, crate::webhooks::WebhookView>>,
    session_id: Seq<char>,
    webhook_id: Seq<char>,
    config: crate::webhooks::WebhookView,
) -> Map<Seq<char>, Map<Seq<char>, crate::webhooks::WebhookView>> {
    registry.insert(session_id, webhooks_of(registry, session_id).insert(webhook_id, config))
}

/// `registry` after the webhook `webhook_id` of `session_id` was taken out.
pub open spec fn unregistered(
    registry: Map<Seq<char>, Map<Seq<char>, crate::webhooks::WebhookView>>,
    session_id: Seq<char>,
    webhook_id: Seq<char>,
) -> Map<Seq<char>, Map<Seq<char>, crate::webhooks::WebhookView>> {
    if registry.contains_key(session_id) {
        registry.insert(session_id, registry[session_id].remove(webhook_id))
    } else {
        registry
    }
}

/// Whether `list` holds exactly the webhooks of `map` with their ids, each once.
pub open spec fn lists_webhooks(
    list: Seq<(String, WebhookConfig)>,
    map: Map<Seq<char>, crate::webhooks::WebhookView>,
) -> bool {
    &&& forall|i: int|
        0 <= i < list.len() ==> map.contains_key((#[trigger] list[i]).0@) && map[list[i].0@]
            == list[i].1@
    &&& forall|i: int, j: int|
        0 <= i < j < list.len() ==> (#[trigger] list[i]).0@ != (#[trigger] list[j]).0@
    &&& forall|id: Seq<char>| #[trigger]
        map.contains_key(id) ==> exists|i: int| 0 <= i < list.len() && (#[trigger] list[i]).0@ == id
}

/// Whether one of the first `n` webhooks of `list` has this id.
pub open spec fn named_among(list: Seq<(String, WebhookConfig)>, n: int, id: Seq<char>) -> bool {
    exists|i: int| 0 <= i < n && (#[trigger] list[i]).0@ == id
}

/// Takes the webhooks that deliver to `url` out of a session's webhooks.
fn purge_url(webhooks: &mut table::Table<WebhookConfig>, url: &str)
    requires
        old(webhooks).wf(),
    ensures
        final(webhooks).wf(),
        final(webhooks)@.map_values(webhook_view()) == without_url(
            old(webhooks)@.map_values(webhook_view()),
            url@,
        ),
{
    let ghost before = webhooks@;
    let mut ids: Vec<String> = Vec::new();
    let n: usize = webhooks.len();
    for i in 0..n
        invariant
            webhooks.wf(),
            webhooks@ == before,
            n == webhooks.keys().len(),
            forall|j: int|
                0 <= j < ids@.len() ==> before.contains_key((#[trigger] ids@[j])@)
                    && before[ids@[j]@].url@ == url@,
            forall|j: int|
                0 <= j < i && before[#[trigger] webhooks.keys()[j]].url@ == url@ ==> text::texts(
                    ids@,
                ).contains(webhooks.keys()[j]),
    {
        proof {
            webhooks.lemma_keys();
        }
        let ghost listed = ids@;
        if text::same_text(webhooks.value_at(i).url.as_str(), url) {
            ids.push(webhooks.key_at(i).clone());
            proof {
                assert(text::texts(ids@) == text::texts(listed).push(webhooks.keys()[i as int]));
                assert(text::texts(ids@)[listed.len() as int] == webhooks.keys()[i as int]);
                assert forall|id: Seq<char>| text::texts(listed).contains(id) implies text::texts(
                    ids@,
                ).contains(id) by {
                    let k = choose|k: int|
                        0 <= k < listed.len() && text::texts(listed)[k] == id;
                    assert(text::texts(ids@)[k] == id);
                }
            }
        }
    }
    proof {
        webhooks.lemma_keys();
        assert forall|id: Seq<char>| #[trigger]
            before.contains_key(id) && before[id].url@ == url@ implies text::texts(ids@).contains(
            id,
        ) by {
            let k = choose|k: int| 0 <= k < webhooks.keys().len() && webhooks.keys()[k] == id;
            assert(webhooks.keys()[k] == id);
        }
    }
    let ghost list = text::texts(ids@);
    for i in 0..ids.len()
        invariant
            webhooks.wf(),
            list == text::texts(ids@),
            forall|id: Seq<char>| #[trigger]
                webhooks@.contains_key(id) <==> before.contains_key(id) && !list.take(
                    i as int,
                ).contains(id),
            forall|id: Seq<char>| #[trigger]
                webhooks@.contains_key(id) ==> webhooks@[id] == before[id],
    {
        let ghost middle = webhooks@;
        let _ = webhooks.remove(ids[i].as_str());
        proof {
            assert(list.take(i + 1) == list.take(i as int).push(list[i as int]));
            crate::seqs::lemma_push_to_set(list.take(i as int), list[i as int]);
            assert forall|id: Seq<char>| #[trigger]
                webhooks@.contains_key(id) <==> before.contains_key(id) && !list.take(
                    i + 1,
                ).contains(id) by {
                assert(middle.contains_key(id) <==> before.contains_key(id) && !list.take(
                    i as int,
                ).contains(id));
                assert(list.take(i + 1).to_set().contains(id) <==> list.take(
                    i as int,
                ).to_set().insert(list[i as int]).contains(id));
            }
            assert forall|id: Seq<char>| #[trigger] webhooks@.contains_key(id) implies webhooks@[id]
                == before[id] by {
                assert(middle.contains_key(id));
            }
        }
    }
    proof {
        assert(list.take(list.len() as int) == list);
        assert forall|id: Seq<char>| #[trigger] webhooks@.contains_key(id) <==> before.contains_key(
            id,
        ) && before[id].url@ != url@ by {
            if list.contains(id) {
                let k = choose|k: int| 0 <= k < list.len() && list[k] == id;
                assert(ids@[k]@ == id);
            }
        }
        assert(webhooks@.map_values(webhook_view()) =~= without_url(
            before.map_values(webhook_view()),
            url@,
        ));
    }
}

impl WebhookRegistry {
    pub closed spec fn wf(&self) -> bool {
        &&& self.sessions.wf()
        &&& forall|key: Seq<char>| #[trigger]
            self.sessions@.contains_key(key) ==> self.sessions@[key].wf()
    }

    pub fn new() -> (registry: Self)
        ensures
            registry.wf(),
            registry@ == Map::<Seq<char>, Map<Seq<char>, crate::webhooks::WebhookView>>::empty(),
    {
        let registry = WebhookRegistry { sessions: table::Table::new() };
        assert(registry@ =~= Map::<
            Seq<char>,
            Map<Seq<char>, crate::webhooks::WebhookView>,
        >::empty());
        registry
    }

    /// Files a webhook under its session and id.
    pub fn register(&mut self, session_id: &str, webhook_id: &str, config: WebhookConfig)
        requires
            old(self).wf(),
        ensures
            final(self).wf(),
            final(self)@ == registered(old(self)@, session_id@, webhook_id@, config@),
    {
        broadcast use table::group_map_values;

        match self.sessions.get_mut(session_id) {
            Some(webhooks) => {
                let _ = webhooks.insert(webhook_id.to_owned(), config);
            },
            None => {
                let mut webhooks: table::Table<WebhookConfig> = table::Table::new();
                let _ = webhooks.insert(webhook_id.to_owned(), config);
                proof {
                    assert(Map::<Seq<char>, WebhookConfig>::empty().map_values(webhook_view())
                        =~= Map::<Seq<char>, crate::webhooks::WebhookView>::empty());
                }
                let _ = self.sessions.insert(session_id.to_owned(), webhooks);
            },
        }
    }

    /// The webhooks of a session with their ids, each once.
    pub fn list(&self, session_id: &str) -> (list: Vec<(String, WebhookConfig)>)
        requires
            self.wf(),
        ensures
            lists_webhooks(list@, webhooks_of(self@, session_id@)),
    {
        let mut list: Vec<(String, WebhookConfig)> = Vec::new();
        match self.sessions.get(session_id) {
            Some(webhooks) => {
                let n: usize = webhooks.len();
                proof {
                    webhooks.lemma_keys();
                }
                for i in 0..n
                    invariant
                        webhooks.wf(),
                        n == webhooks.keys().len(),
                        list@.len() == i,
                        forall|j: int|
                            0 <= j < i ==> (#[trigger] list@[j]).0@ == webhooks.keys()[j]
                                && list@[j].1@ == webhooks@[webhooks.keys()[j]]@,
                {
                    list.push((webhooks.key_at(i).clone(), webhooks.value_at(i).clone()));
                }
                proof {
                    let map = webhooks_of(self@, session_id@);
                    assert(map == webhooks@.map_values(webhook_view()));
                    assert forall|id: Seq<char>| #[trigger] map.contains_key(id) implies exists|
                        i: int,
                    |
                        0 <= i < list@.len() && (#[trigger] list@[i]).0@ == id by {
                        assert(webhooks@.contains_key(id));
                        let k = choose|k: int|
                            0 <= k < webhooks.keys().len() && webhooks.keys()[k] == id;
                        assert(list@[k].0@ == id);
                    }
                }
            },
            None => {},
        }
        list
    }

    /// Takes a webhook out and returns it.
    pub fn unregister(&mut self, session_id: &str, webhook_id: &str) -> (removed: Option<
        WebhookConfig,
    >)
        requires
            old(self).wf(),
        ensures
            final(self).wf(),
            final(self)@ == unregistered(old(self)@, session_id@, webhook_id@),
            removed is Some <==> webhooks_of(old(self)@, session_id@).contains_key(webhook_id@),
            removed is Some ==> removed->0@ == webhooks_of(old(self)@, session_id@)[webhook_id@],
    {
        broadcast use table::group_map_values;

        match self.sessions.get_mut(session_id) {
            Some(webhooks) => webhooks.remove(webhook_id),
            None => None,
        }
    }

    /// Takes the webhooks that deliver to `url` out of every session.
    pub fn purge_url(&mut self, url: &str)
        requires
            old(self).wf(),
        ensures
            final(self).wf(),
            final(self)@ == url_purged(old(self)@, url@),
    {
        let ghost before = self.sessions@;
        let ghost keys = self.sessions.keys();
        proof {
            self.sessions.lemma_keys();
        }
        let n: usize = self.sessions.len();
        for i in 0..n
            invariant
                self.wf(),
                keys == self.sessions.keys(),
                n == keys.len(),
                keys.no_duplicates(),
                forall|key: Seq<char>| #[trigger]
                    self.sessions@.contains_key(key) <==> before.contains_key(key),
                forall|j: int|
                    0 <= j < i ==> self.sessions@[#[trigger] keys[j]]@.map_values(webhook_view())
                        == without_url(before[keys[j]]@.map_values(webhook_view()), url@),
                forall|j: int|
                    i <= j < keys.len() ==> self.sessions@[#[trigger] keys[j]] == before[keys[j]],
        {
            proof {
                self.sessions.lemma_keys();
            }
            let ghost middle = self.sessions@;
            let id = self.sessions.key_at(i).clone();
            match self.sessions.get_mut(id.as_str()) {
                Some(webhooks) => purge_url(webhooks, url),
                None => {},
            }
            proof {
                assert(middle.contains_key(keys[i as int]));
                assert forall|key: Seq<char>| #[trigger]
                    self.sessions@.contains_key(key) implies self.sessions@[key].wf() by {
                    assert(middle.contains_key(key));
                }
            }
        }
        proof {
            self.sessions.lemma_keys();
            assert forall|key: Seq<char>| #[trigger] self@.contains_key(key) implies self@[key]
                == url_purged(before.map_values(webhooks_view()), url@)[key] by {
                assert(self.sessions@.contains_key(key));
                let k = choose|k: int| 0 <= k < keys.len() && keys[k] == key;
                assert(keys[k] == key);
            }
            assert(self@ =~= url_purged(before.map_values(webhooks_view()), url@));
        }
    }

    /// Forgets the webhooks of a session.
    pub fn purge_session(&mut self, session_id: &str)
        requires
            old(self).wf(),
        ensures
            final(self).wf(),
            final(self)@ == old(self)@.remove(session_id@),
    {
        broadcast use table::group_map_values;

        let _ = self.sessions.remove(session_id);
    }
}

/// The views of a queue of entries.
pub open spec fn dlq_views(entries: Seq<WebhookDlqEntry>) -> Seq<crate::webhooks::DlqView> {
    entries.map_values(|entry: WebhookDlqEntry| entry@)
}

/// The view of a session's queue.
pub open spec fn queue_view() -> spec_fn(VecDeque<WebhookDlqEntry>) -> Seq<
    crate::webhooks::DlqView,
> {
    |queue: VecDeque<WebhookDlqEntry>| dlq_views(queue@)
}

/// The dead-letter queue of every session, oldest entry first.
pub struct DeadLetters {
    capacity: usize,
    queues: table::Table<VecDeque<WebhookDlqEntry>>,
}

impl View for DeadLetters {
    type V = Map<Seq<char>, Seq<crate::webhooks::DlqView>>;

    closed spec fn view(&self) -> Map<Seq<char>, Seq<crate::webhooks::DlqView>> {
        self.queues@.map_values(queue_view())
    }
}

/// The queue of `session_id`, empty where it has none.
pub open spec fn queue_of(
    queues: Map<Seq<char>, Seq<crate::webhooks::DlqView>>,
    session_id: Seq<char>,
) -> Seq<crate::webhooks::DlqView> {
    if queues.contains_key(session_id) {
        queues[session_id]
    } else {
        Seq::empty()
    }
}

/// `queues` after `entry` was appended to the queue of its session.
pub open spec fn dead_lettered(
    queues: Map<Seq<char>, Seq<crate::webhooks::DlqView>>,
    capacity: nat,
    entry: crate::webhooks::DlqView,
) -> Map<Seq<char>, Seq<crate::webhooks::DlqView>> {
    queues.insert(
        entry.session_id,
        events::ring_pushed(queue_of(queues, entry.session_id), capacity, entry),
    )
}

/// Whether `i` is the place of the first entry with `id` in `queue`.
pub open spec fn first_with_id(
    queue: Seq<crate::webhooks::DlqView>,
    id: Seq<char>,
    i: int,
) -> bool {
    &&& 0 <= i < queue.len()
    &&& queue[i].id == id
    &&& forall|j: int| 0 <= j < i ==> (#[trigger] queue[j]).id != id
}

impl DeadLetters {
    /// How many entries a queue keeps.
    pub closed spec fn capacity(&self) -> nat {
        self.capacity as nat
    }

    /// No queue holds more entries than it keeps.
    pub closed spec fn wf(&self) -> bool {
        &&& self.capacity > 0
        &&& self.queues.wf()
        &&& forall|key: Seq<char>| #[trigger]
            self@.contains_key(key) ==> self@[key].len() <= self.capacity
    }

    /// What [`Self::wf`] says of the queues.
    pub proof fn lemma_bounded(&self)
        requires
            self.wf(),
        ensures
            self.capacity() > 0,
            forall|key: Seq<char>| #[trigger]
                self@.contains_key(key) ==> self@[key].len() <= self.capacity(),
    {
    }

    pub fn new(capacity: usize) -> (dead: Self)
        requires
            capacity > 0,
        ensures
            dead.wf(),
            dead.capacity() == capacity,
            dead@ == Map::<Seq<char>, Seq<crate::webhooks::DlqView>>::empty(),
    {
        let dead = DeadLetters { capacity, queues: table::Table::new() };
        assert(dead@ =~= Map::<Seq<char>, Seq<crate::webhooks::DlqView>>::empty());
        dead
    }

    /// Appends an entry to the queue of its session; the oldest go past the capacity.
    pub fn push(&mut self, entry: WebhookDlqEntry)
        requires
            old(self).wf(),
        ensures
            final(self).wf(),
            final(self).capacity() == old(self).capacity(),
            final(self)@ == dead_lettered(old(self)@, old(self).capacity(), entry@),
    {
        broadcast use table::group_map_values;

        let ghost before = self@;
        let capacity: usize = self.capacity;
        let id = entry.session_id.clone();
        let mut queue: VecDeque<WebhookDlqEntry> = match self.queues.remove(id.as_str()) {
            Some(queue) => queue,
            None => VecDeque::new(),
        };
        let ghost whole = dlq_views(queue@);
        proof {
            assert(whole == queue_of(before, id@));
            assert(whole.skip(0) == whole);
        }
        let ghost mut dropped: int = 0;
        while queue.len() >= capacity
            invariant
                capacity > 0,
                0 <= dropped <= whole.len(),
                dlq_views(queue@) == whole.skip(dropped),
                whole.len() < capacity ==> dropped == 0,
                whole.len() >= capacity ==> dropped <= whole.len() - capacity + 1,
            decreases queue@.len(),
        {
            let ghost held = queue@;
            let _ = queue.pop_front();
            proof {
                assert(dlq_views(queue@) =~= dlq_views(held).skip(1));
                assert(whole.skip(dropped).skip(1) =~= whole.skip(dropped + 1));
                dropped = dropped + 1;
            }
        }
        let ghost kept = queue@;
        queue.push_back(entry);
        proof {
            assert(dlq_views(queue@) =~= dlq_views(kept).push(entry@));
        }
        let _ = self.queues.insert(id, queue);
        proof {
            assert(self@ =~= dead_lettered(before, capacity as nat, entry@));
        }
    }

    /// The entries of a session, newest first.
    pub fn list(&self, session_id: &str) -> (entries: Vec<WebhookDlqEntry>)
        requires
            self.wf(),
        ensures
            dlq_views(entries@) == queue_of(self@, session_id@).reverse(),
    {
        let mut entries: Vec<WebhookDlqEntry> = Vec::new();
        match self.queues.get(session_id) {
            Some(queue) => {
                let len: usize = queue.len();
                let ghost whole = queue_of(self@, session_id@);
                for i in 0..len
                    invariant
                        len == queue@.len(),
                        whole == dlq_views(queue@),
                        dlq_views(entries@) == whole.reverse().take(i as int),
                {
                    let ghost before = entries@;
                    entries.push(queue[len - 1 - i].clone());
                    assert(dlq_views(entries@) == dlq_views(before).push(whole[len - 1 - i]));
                }
                assert(whole.reverse().take(len as int) == whole.reverse());
            },
            None => {
                assert(dlq_views(entries@) =~= queue_of(self@, session_id@).reverse());
            },
        }
        entries
    }

    /// Takes the first entry with `entry_id` out of a session's queue and returns it.
    pub fn take(&mut self, session_id: &str, entry_id: &str) -> (taken: Option<WebhookDlqEntry>)
        requires
            old(self).wf(),
        ensures
            final(self).wf(),
            final(self).capacity() == old(self).capacity(),
            match taken {
                Some(entry) => exists|i: int| #[trigger]
                    first_with_id(queue_of(old(self)@, session_id@), entry_id@, i) && entry@
                        == queue_of(old(self)@, session_id@)[i] && final(self)@ == old(
                        self,
                    )@.insert(session_id@, queue_of(old(self)@, session_id@).remove(i)),
                None => {
                    &&& forall|i: int|
                        0 <= i < queue_of(old(self)@, session_id@).len() ==> (#[trigger] queue_of(
                            old(self)@,
                            session_id@,
                        )[i]).id != entry_id@
                    &&& final(self)@ == old(self)@
                },
            },
    {
        broadcast use table::group_map_values;

        let ghost before = self@;
        match self.queues.get_mut(session_id) {
            Some(queue) => {
                let ghost whole = dlq_views(queue@);
                let ghost start = queue@;
                assert(whole == queue_of(before, session_id@));
                let len: usize = queue.len();
                let mut at: usize = len;
                let mut i: usize = 0;
                while i < len && at == len
                    invariant
                        len == queue@.len(),
                        queue@ == start,
                        whole == dlq_views(queue@),
                        i <= len,
                        at <= len,
                        at < len ==> first_with_id(whole, entry_id@, at as int),
                        at == len ==> forall|j: int|
                            0 <= j < i ==> (#[trigger] whole[j]).id != entry_id@,
                    decreases len - i,
                {
                    if text::same_text(queue[i].id.as_str(), entry_id) {
                        at = i;
                    }
                    i = i + 1;
                }
                if at < len {
                    let taken = queue.remove(at);
                    proof {
                        assert(dlq_views(queue@) =~= whole.remove(at as int));
                        assert(first_with_id(whole, entry_id@, at as int));
                    }
                    taken
                } else {
                    None
                }
            },
            None => None,
        }
    }

    /// Forgets the queue of a session.
    pub fn purge_session(&mut self, session_id: &str)
        requires
            old(self).wf(),
        ensures
            final(self).wf(),
            final(self).capacity() == old(self).capacity(),
            final(self)@ == old(self)@.remove(session_id@),
    {
        broadcast use table::group_map_values;

        let ghost before = self@;
        let _ = self.queues.remove(session_id);
        proof {
            assert forall|key: Seq<char>| #[trigger] self@.contains_key(key) implies self@[key].len()
                <= self.capacity by {
                assert(before.contains_key(key) && before[key] == self@[key]);
            }
        }
    }
}

} // verus!
