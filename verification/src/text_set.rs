//! A set of strings.

use crate::seqs;
use crate::text;
use vstd::prelude::*;

verus! {

/// A set of strings.
#[derive(Debug)]
pub struct TextSet {
    items: Vec<String>,
}

impl View for TextSet {
    type V = Set<Seq<char>>;

    closed spec fn view(&self) -> Set<Seq<char>> {
        text::texts(self.items@).to_set()
    }
}

/// Whether `list` is in the order of strings, without repetition.
pub open spec fn strictly_sorted(list: Seq<Seq<char>>) -> bool {
    &&& list.no_duplicates()
    &&& forall|i: int, j: int|
        0 <= i < j < list.len() ==> !text::text_before(#[trigger] list[j], #[trigger] list[i])
}

impl TextSet {
    /// No string occurs twice.
    pub closed spec fn wf(&self) -> bool {
        text::texts(self.items@).no_duplicates()
    }

    pub fn new() -> (set: Self)
        ensures
            set.wf(),
            set@ == Set::<Seq<char>>::empty(),
    {
        let set = TextSet { items: Vec::new() };
        assert(set@ =~= Set::<Seq<char>>::empty());
        set
    }

    pub fn is_empty(&self) -> (empty: bool)
        ensures
            empty == (self@ == Set::<Seq<char>>::empty()),
    {
        proof {
            if self.items@.len() > 0 {
                assert(self@.contains(text::texts(self.items@)[0]));
            } else {
                assert(self@ =~= Set::<Seq<char>>::empty());
            }
        }
        self.items.len() == 0
    }

    pub fn contains(&self, item: &str) -> (held: bool)
        ensures
            held == self@.contains(item@),
    {
        text::holds_text(&self.items, item)
    }

    /// Adds a string; `false` where it is already there.
    pub fn insert(&mut self, item: String) -> (added: bool)
        requires
            old(self).wf(),
        ensures
            final(self).wf(),
            final(self)@ == old(self)@.insert(item@),
            added == !old(self)@.contains(item@),
    {
        let ghost before = text::texts(self.items@);
        if text::holds_text(&self.items, item.as_str()) {
            assert(self@.insert(item@) =~= self@);
            return false;
        }
        self.items.push(item);
        proof {
            let after = text::texts(self.items@);
            assert(after == before.push(item@));
            assert forall|t: Seq<char>| after.to_set().contains(t) == before.to_set().insert(
                item@,
            ).contains(t) by {
                if before.contains(t) {
                    let i = choose|i: int| 0 <= i < before.len() && before[i] == t;
                    assert(after[i] == t);
                }
                if t == item@ {
                    assert(after[before.len() as int] == t);
                }
            }
            assert(self@ =~= old(self)@.insert(item@));
        }
        true
    }

    /// Takes a string out; `false` where it is not there.
    pub fn remove(&mut self, item: &str) -> (removed: bool)
        requires
            old(self).wf(),
        ensures
            final(self).wf(),
            final(self)@ == old(self)@.remove(item@),
            removed == old(self)@.contains(item@),
    {
        let ghost before = text::texts(self.items@);
        let mut i: usize = 0;
        while i < self.items.len()
            invariant
                *self == *old(self),
                before == text::texts(self.items@),
                before.no_duplicates(),
                i <= self.items@.len(),
                forall|j: int| 0 <= j < i ==> before[j] != item@,
            decreases self.items@.len() - i,
        {
            if text::same_text(self.items[i].as_str(), item) {
                let _ = self.items.remove(i);
                proof {
                    let after = text::texts(self.items@);
                    assert(after == before.remove(i as int));
                    assert(before[i as int] == item@);
                    assert forall|t: Seq<char>| after.to_set().contains(t) == before.to_set().remove(
                        item@,
                    ).contains(t) by {
                        if after.contains(t) {
                            let k = choose|k: int| 0 <= k < after.len() && after[k] == t;
                            assert(before[if k < i {
                                k
                            } else {
                                k + 1
                            }] == t);
                        }
                        if before.contains(t) && t != item@ {
                            let k = choose|k: int| 0 <= k < before.len() && before[k] == t;
                            assert(after[if k < i {
                                k
                            } else {
                                k - 1
                            }] == t);
                        }
                    }
                    assert(self@ =~= old(self)@.remove(item@));
                }
                return true;
            }
            i = i + 1;
        }
        assert(self@.remove(item@) =~= self@);
        false
    }

    /// The strings, in their order.
    pub fn sorted(&self) -> (list: Vec<String>)
        requires
            self.wf(),
        ensures
            strictly_sorted(text::texts(list@)),
            text::texts(list@).to_set() == self@,
    {
        let mut list = text::copy_texts(&self.items);
        text::sort_texts(&mut list);
        proof {
            seqs::lemma_same_multiset(text::texts(self.items@), text::texts(list@));
        }
        list
    }

    /// The set of `list`.
    pub fn from_list(list: Vec<String>) -> (set: Self)
        ensures
            set.wf(),
            set@ == text::texts(list@).to_set(),
    {
        let mut set = TextSet::new();
        for i in 0..list.len()
            invariant
                set.wf(),
                set@ == text::texts(list@).take(i as int).to_set(),
        {
            let ghost seen = text::texts(list@).take(i as int);
            let _ = set.insert(list[i].clone());
            proof {
                assert(text::texts(list@).take(i + 1) == seen.push(list@[i as int]@));
                seqs::lemma_push_to_set(seen, list@[i as int]@);
            }
        }
        proof {
            assert(text::texts(list@).take(list@.len() as int) == text::texts(list@));
        }
        set
    }

    /// The strings that `other` does not hold, each once.
    pub fn difference(&self, other: &TextSet) -> (list: Vec<String>)
        requires
            self.wf(),
        ensures
            text::texts(list@).no_duplicates(),
            text::texts(list@).to_set() == self@.difference(other@),
    {
        let ghost items = text::texts(self.items@);
        let ghost missing = |item: Seq<char>| !other@.contains(item);
        let mut list: Vec<String> = Vec::new();
        for i in 0..self.items.len()
            invariant
                items == text::texts(self.items@),
                missing == |item: Seq<char>| !other@.contains(item),
                text::texts(list@) == items.take(i as int).filter(missing),
        {
            proof {
                reveal(Seq::filter);
                assert(items.take(i + 1).drop_last() == items.take(i as int));
            }
            let ghost before = list@;
            if !other.contains(self.items[i].as_str()) {
                list.push(self.items[i].clone());
                assert(text::texts(list@) == text::texts(before).push(items[i as int]));
            }
        }
        proof {
            assert(items.take(items.len() as int) == items);
            seqs::lemma_filter_members(items, missing);
            assert forall|item: Seq<char>|
                text::texts(list@).to_set().contains(item) == self@.difference(other@).contains(
                    item,
                ) by {
                assert(text::texts(list@).contains(item) <==> items.contains(item) && missing(item));
            }
            assert(text::texts(list@).to_set() =~= self@.difference(other@));
        }
        list
    }
}

} // verus!
