//! The circuit breakers of all webhook URLs.

use crate::seqs;
use crate::table;
use crate::text;
use crate::webhooks::{CircuitState, WebhookFailureAction};
use vstd::prelude::*;

verus! {

/// The circuit of every URL that ever failed.
pub struct CircuitBoard {
    circuits: table::Table<CircuitState>,
}

impl View for CircuitBoard {
    type V = Map<Seq<char>, CircuitState>;

    closed spec fn view(&self) -> Map<Seq<char>, CircuitState> {
        self.circuits@
    }
}

/// Whether the circuit of `url` is open at `now`.
pub open spec fn circuit_open(
    circuits: Map<Seq<char>, CircuitState>,
    url: Seq<char>,
    now: u128,
) -> bool {
    circuits.contains_key(url) && circuits[url].is_open_at(now)
}

/// The circuit of `url`: one without failures where there is none yet.
pub open spec fn circuit_of(
    circuits: Map<Seq<char>, CircuitState>,
    url: Seq<char>,
    now: u128,
) -> CircuitState {
    if circuits.contains_key(url) {
        circuits[url]
    } else {
        CircuitState::closed_at(now)
    }
}

/// `circuits` after a delivery to `url` succeeded at `now`.
pub open spec fn success_recorded(
    circuits: Map<Seq<char>, CircuitState>,
    url: Seq<char>,
    now: u128,
) -> Map<Seq<char>, CircuitState> {
    if circuits.contains_key(url) {
        circuits.insert(url, CircuitState::closed_at(now))
    } else {
        circuits
    }
}

/// `circuits` after a delivery to `url` failed at `now`.
pub open spec fn failure_recorded(
    circuits: Map<Seq<char>, CircuitState>,
    url: Seq<char>,
    now: u128,
) -> Map<Seq<char>, CircuitState> {
    circuits.insert(url, circuit_of(circuits, url, now).after_failure(now))
}

/// `circuits` after every circuit that is open at `now` was closed.
pub open spec fn open_circuits_reset(
    circuits: Map<Seq<char>, CircuitState>,
    now: u128,
) -> Map<Seq<char>, CircuitState> {
    circuits.map_values(
        |circuit: CircuitState|
            if circuit.is_open_at(now) {
                CircuitState::closed_at(now)
            } else {
                circuit
            },
    )
}

/// The URLs whose circuits are open at `now`.
pub open spec fn open_urls(circuits: Map<Seq<char>, CircuitState>, now: u128) -> Set<Seq<char>> {
    Set::new(|url: Seq<char>| circuit_open(circuits, url, now))
}

impl CircuitBoard {
    pub closed spec fn wf(&self) -> bool {
        self.circuits.wf()
    }

    pub fn new() -> (board: Self)
        ensures
            board.wf(),
            board@ == Map::<Seq<char>, CircuitState>::empty(),
    {
        CircuitBoard { circuits: table::Table::new() }
    }

    /// Whether `url` is to be attempted at `now`.
    pub fn allows(&self, url: &str, now: u128) -> (allowed: bool)
        requires
            self.wf(),
        ensures
            allowed == !circuit_open(self@, url@, now),
    {
        match self.circuits.get(url) {
            Some(circuit) => !circuit.is_open(now),
            None => true,
        }
    }

    /// The URLs whose circuits are open at `now`, each once.
    fn open_list(&self, now: u128) -> (urls: Vec<String>)
        requires
            self.wf(),
        ensures
            text::texts(urls@).no_duplicates(),
            text::texts(urls@).to_set() == open_urls(self@, now),
    {
        proof {
            self.circuits.lemma_keys();
        }
        let ghost keys = self.circuits.keys();
        let ghost open = |url: Seq<char>| circuit_open(self@, url, now);
        let mut urls: Vec<String> = Vec::new();
        let n: usize = self.circuits.len();
        for i in 0..n
            invariant
                self.wf(),
                n == keys.len(),
                keys == self.circuits.keys(),
                open == |url: Seq<char>| circuit_open(self@, url, now),
                text::texts(urls@) == keys.take(i as int).filter(open),
        {
            proof {
                self.circuits.lemma_keys();
                reveal(Seq::filter);
                assert(keys.take(i + 1).drop_last() == keys.take(i as int));
            }
            let ghost before = urls@;
            if self.circuits.value_at(i).is_open(now) {
                urls.push(self.circuits.key_at(i).clone());
                assert(text::texts(urls@) == text::texts(before).push(keys[i as int]));
            }
        }
        proof {
            assert(keys.take(keys.len() as int) == keys);
            seqs::lemma_filter_members(keys, open);
            assert forall|url: Seq<char>|
                text::texts(urls@).to_set().contains(url) == open_urls(self@, now).contains(url) by {
                assert(open(url) ==> self.circuits@.contains_key(url));
                assert(text::texts(urls@).contains(url) <==> keys.contains(url) && open(url));
            }
            assert(text::texts(urls@).to_set() =~= open_urls(self@, now));
        }
        urls
    }

    /// How many circuits are open at `now`.
    pub fn open_count(&self, now: u128) -> (count: usize)
        requires
            self.wf(),
        ensures
            count == open_urls(self@, now).len(),
    {
        let urls = self.open_list(now);
        proof {
            text::texts(urls@).unique_seq_to_set();
        }
        urls.len()
    }

    pub fn record_success(&mut self, url: &str, now: u128)
        requires
            old(self).wf(),
        ensures
            final(self).wf(),
            final(self)@ == success_recorded(old(self)@, url@, now),
    {
        match self.circuits.get_mut(url) {
            Some(circuit) => circuit.record_success(now),
            None => {},
        }
    }

    pub fn record_failure(&mut self, url: &str, now: u128) -> (action: WebhookFailureAction)
        requires
            old(self).wf(),
            now + crate::webhooks::COOLDOWN_NANOS <= u128::MAX,
        ensures
            final(self).wf(),
            final(self)@ == failure_recorded(old(self)@, url@, now),
            action == circuit_of(old(self)@, url@, now).failure_action(),
    {
        match self.circuits.get_mut(url) {
            Some(circuit) => circuit.record_failure(now),
            None => {
                let mut circuit = CircuitState::new(now);
                let action = circuit.record_failure(now);
                let _ = self.circuits.insert(url.to_owned(), circuit);
                action
            },
        }
    }

    /// Forgets the circuit of `url`.
    pub fn forget(&mut self, url: &str)
        requires
            old(self).wf(),
        ensures
            final(self).wf(),
            final(self)@ == old(self)@.remove(url@),
    {
        let _ = self.circuits.remove(url);
    }

    /// Closes every circuit that is open at `now` and returns the URLs, each once.
    pub fn reset_open(&mut self, now: u128) -> (urls: Vec<String>)
        requires
            old(self).wf(),
        ensures
            final(self).wf(),
            final(self)@ == open_circuits_reset(old(self)@, now),
            text::texts(urls@).no_duplicates(),
            text::texts(urls@).to_set() == open_urls(old(self)@, now),
    {
        let urls = self.open_list(now);
        let ghost before = self@;
        let ghost list = text::texts(urls@);
        for i in 0..urls.len()
            invariant
                self.wf(),
                list == text::texts(urls@),
                list.to_set() == open_urls(before, now),
                forall|url: Seq<char>| #[trigger]
                    self@.contains_key(url) <==> before.contains_key(url),
                forall|url: Seq<char>| #[trigger]
                    self@.contains_key(url) ==> self@[url] == (if list.take(i as int).contains(url) {
                        CircuitState::closed_at(now)
                    } else {
                        before[url]
                    }),
        {
            let ghost middle = self@;
            let ghost url = list[i as int];
            self.record_success(urls[i].as_str(), now);
            proof {
                assert(list.to_set().contains(url));
                assert(middle.contains_key(url));
                assert(list.take(i + 1) == list.take(i as int).push(url));
                assert forall|u: Seq<char>|
                    list.take(i + 1).contains(u) <==> list.take(i as int).contains(u) || u
                        == url by {
                    seqs::lemma_push_to_set(list.take(i as int), url);
                    assert(list.take(i + 1).to_set().contains(u) <==> list.take(
                        i as int,
                    ).to_set().insert(url).contains(u));
                }
                assert forall|u: Seq<char>| #[trigger] self@.contains_key(u) implies self@[u] == (
                if list.take(i + 1).contains(u) {
                    CircuitState::closed_at(now)
                } else {
                    before[u]
                }) by {
                    assert(middle.contains_key(u));
                }
            }
        }
        proof {
            assert(list.take(list.len() as int) == list);
            let reset = open_circuits_reset(before, now);
            assert forall|url: Seq<char>| #[trigger] self@.contains_key(url) implies self@[url]
                == reset[url] by {
                assert(list.to_set().contains(url) == open_urls(before, now).contains(url));
            }
            assert(self@ =~= reset);
        }
        urls
    }
}

} // verus!
