//! Session tags: a set of tags, and the file that keeps the tags of all sessions.

use crate::seqs;
use crate::table;
use crate::text;
use crate::text_set;
use crate::text_set::TextSet;
use std::collections::HashMap;
use vstd::prelude::*;

verus! {

/// What trimming leaves of `tags`, without what is then empty.
pub open spec fn cleaned(tags: Seq<Seq<char>>) -> Set<Seq<char>> {
    tags.map_values(|tag: Seq<char>| text::trimmed(tag)).to_set().remove(Seq::empty())
}

/// The set of what trimming leaves of `tags`.
pub fn cleaned_set(tags: &Vec<String>) -> (set: TextSet)
    ensures
        set.wf(),
        set@ == cleaned(text::texts(tags@)),
{
    let mut set = TextSet::new();
    proof {
        assert(cleaned(text::texts(tags@).take(0)) =~= Set::<Seq<char>>::empty());
    }
    for i in 0..tags.len()
        invariant
            set.wf(),
            set@ == cleaned(text::texts(tags@).take(i as int)),
    {
        let ghost seen = text::texts(tags@).take(i as int);
        let ghost before = set@;
        let tag = text::trim(tags[i].as_str()).to_owned();
        let ghost trim = |tag: Seq<char>| text::trimmed(tag);
        proof {
            let all = text::texts(tags@).take(i + 1);
            assert(all == seen.push(tags@[i as int]@));
            assert(all.map_values(trim) == seen.map_values(trim).push(tag@));
            seqs::lemma_push_to_set(seen.map_values(trim), tag@);
        }
        if !tag.as_str().is_empty() {
            let _ = set.insert(tag);
            assert(set@ =~= cleaned(text::texts(tags@).take(i + 1)));
        } else {
            assert(tag@ =~= Seq::<char>::empty());
            assert(set@ =~= cleaned(text::texts(tags@).take(i + 1)));
        }
    }
    proof {
        assert(text::texts(tags@).take(tags@.len() as int) == text::texts(tags@));
    }
    set
}

/// Why the tag file could not be read or written.
#[derive(Debug, Clone, Copy, PartialEq, Eq, Structural)]
pub enum TagFileError {
    /// The file is not a JSON object of lists of strings.
    Malformed,
    /// The tags could not be serialised.
    Unwritable,
}

#[verifier::external_type_specification]
#[verifier::external_body]
pub struct ExJsonError(serde_json::Error);

/// What a JSON document says as an object of lists of strings, or `None` where it is none.
pub uninterp spec fn json_tag_lists(bytes: Seq<u8>) -> Option<Map<Seq<char>, Seq<Seq<char>>>>;

/// Whether `list` holds exactly the entries of `map`, each once.
pub open spec fn enumerates(
    list: Seq<(String, Vec<String>)>,
    map: Map<Seq<char>, Seq<Seq<char>>>,
) -> bool {
    &&& forall|i: int|
        0 <= i < list.len() ==> map.contains_key((#[trigger] list[i]).0@) && map[list[i].0@]
            == text::texts(list[i].1@)
    &&& forall|i: int, j: int|
        0 <= i < j < list.len() ==> (#[trigger] list[i]).0@ != (#[trigger] list[j]).0@
    &&& forall|key: Seq<char>| #[trigger]
        map.contains_key(key) ==> exists|i: int| 0 <= i < list.len() && (#[trigger] list[i]).0@ == key
}

/// `serde_json::from_slice` into a `HashMap<String, Vec<String>>`, whose entries come in the
/// order in which the map is walked, which is left open.
#[verifier::external_body]
fn read_tag_lists(bytes: &[u8]) -> (lists: Result<Vec<(String, Vec<String>)>, serde_json::Error>)
    ensures
        lists is Ok <==> json_tag_lists(bytes@) is Some,
        lists is Ok ==> enumerates(lists->Ok_0@, json_tag_lists(bytes@)->0),
{
    serde_json::from_slice::<HashMap<String, Vec<String>>>(bytes).map(|m| m.into_iter().collect())
}

/// `serde_json::to_vec_pretty` of a `HashMap<String, Vec<String>>`: it succeeds, because the keys
/// are strings and nothing in the map refuses to be serialised, and what it writes, `from_slice`
/// reads back as the same map.
#[verifier::external_body]
fn write_tag_lists(lists: Vec<(String, Vec<String>)>) -> (bytes: Result<Vec<u8>, serde_json::Error>)
    requires
        forall|i: int, j: int|
            0 <= i < j < lists@.len() ==> (#[trigger] lists@[i]).0@ != (#[trigger] lists@[j]).0@,
    ensures
        bytes is Ok,
        json_tag_lists(bytes->Ok_0@) is Some,
        enumerates(lists@, json_tag_lists(bytes->Ok_0@)->0),
{
    serde_json::to_vec_pretty(&lists.into_iter().collect::<HashMap<String, Vec<String>>>())
}

/// The tags that a file's lists give each session.
pub open spec fn tags_of_lists(lists: Map<Seq<char>, Seq<Seq<char>>>) -> Map<
    Seq<char>,
    Set<Seq<char>>,
> {
    lists.map_values(|tags: Seq<Seq<char>>| tags.to_set())
}

/// The lists of a tag file.
pub fn parse_tag_file(bytes: &[u8]) -> (lists: Result<Vec<(String, Vec<String>)>, TagFileError>)
    ensures
        lists is Ok <==> json_tag_lists(bytes@) is Some,
        lists is Ok ==> enumerates(lists->Ok_0@, json_tag_lists(bytes@)->0),
        lists is Err ==> lists->Err_0 == TagFileError::Malformed,
{
    match read_tag_lists(bytes) {
        Ok(lists) => Ok(lists),
        Err(_) => Err(TagFileError::Malformed),
    }
}

/// The tag file for `lists`.
pub fn format_tag_file(lists: Vec<(String, Vec<String>)>) -> (bytes: Result<Vec<u8>, TagFileError>)
    requires
        forall|i: int, j: int|
            0 <= i < j < lists@.len() ==> (#[trigger] lists@[i]).0@ != (#[trigger] lists@[j]).0@,
    ensures
        bytes is Ok,
        json_tag_lists(bytes->Ok_0@) is Some,
        enumerates(lists@, json_tag_lists(bytes->Ok_0@)->0),
{
    match write_tag_lists(lists) {
        Ok(bytes) => Ok(bytes),
        Err(_) => Err(TagFileError::Unwritable),
    }
}

/// The tags of every session that has any.
pub struct TagStore {
    sets: table::Table<TextSet>,
}

/// The view of a tag set.
pub open spec fn tag_view() -> spec_fn(TextSet) -> Set<Seq<char>> {
    |set: TextSet| set@
}

impl View for TagStore {
    type V = Map<Seq<char>, Set<Seq<char>>>;

    closed spec fn view(&self) -> Map<Seq<char>, Set<Seq<char>>> {
        self.sets@.map_values(tag_view())
    }
}

/// The tags of `session_id`, none where it has no entry.
pub open spec fn tags_of(
    tags: Map<Seq<char>, Set<Seq<char>>>,
    session_id: Seq<char>,
) -> Set<Seq<char>> {
    if tags.contains_key(session_id) {
        tags[session_id]
    } else {
        Set::empty()
    }
}

/// `tags` after the tags of `session_id` were replaced by `set`: no entry stays for no tags.
pub open spec fn tags_set(
    tags: Map<Seq<char>, Set<Seq<char>>>,
    session_id: Seq<char>,
    set: Set<Seq<char>>,
) -> Map<Seq<char>, Set<Seq<char>>> {
    if set == Set::<Seq<char>>::empty() {
        tags.remove(session_id)
    } else {
        tags.insert(session_id, set)
    }
}

/// `tags` after `tag` was taken from `session_id`: an entry that is then empty goes.
pub open spec fn tag_removed(
    tags: Map<Seq<char>, Set<Seq<char>>>,
    session_id: Seq<char>,
    tag: Seq<char>,
) -> Map<Seq<char>, Set<Seq<char>>> {
    if tags.contains_key(session_id) {
        tags_set(tags, session_id, tags[session_id].remove(tag))
    } else {
        tags
    }
}

impl TagStore {
    pub closed spec fn wf(&self) -> bool {
        &&& self.sets.wf()
        &&& forall|key: Seq<char>| #[trigger]
            self.sets@.contains_key(key) ==> self.sets@[key].wf()
    }

    pub fn new() -> (store: Self)
        ensures
            store.wf(),
            store@ == Map::<Seq<char>, Set<Seq<char>>>::empty(),
    {
        let store = TagStore { sets: table::Table::new() };
        assert(store@ =~= Map::<Seq<char>, Set<Seq<char>>>::empty());
        store
    }

    /// The tags of a session, in the order of strings.
    pub fn list(&self, session_id: &str) -> (list: Vec<String>)
        requires
            self.wf(),
        ensures
            text_set::strictly_sorted(text::texts(list@)),
            text::texts(list@).to_set() == tags_of(self@, session_id@),
    {
        match self.sets.get(session_id) {
            Some(set) => set.sorted(),
            None => {
                let list: Vec<String> = Vec::new();
                assert(text::texts(list@).to_set() =~= Set::<Seq<char>>::empty());
                list
            },
        }
    }

    /// Replaces the tags of a session by what trimming leaves of `tags`.
    pub fn set(&mut self, session_id: &str, tags: &Vec<String>)
        requires
            old(self).wf(),
        ensures
            final(self).wf(),
            final(self)@ == tags_set(old(self)@, session_id@, cleaned(text::texts(tags@))),
    {
        broadcast use table::group_map_values;

        let set = cleaned_set(tags);
        if set.is_empty() {
            let _ = self.sets.remove(session_id);
        } else {
            let _ = self.sets.insert(session_id.to_owned(), set);
        }
    }

    /// Adds the trimmed tag; `false` where that is empty or already there.
    pub fn add(&mut self, session_id: &str, tag: &str) -> (added: bool)
        requires
            old(self).wf(),
        ensures
            final(self).wf(),
            ({
                let tag = text::trimmed(tag@);
                let before = tags_of(old(self)@, session_id@);
                &&& added == (tag.len() > 0 && !before.contains(tag))
                &&& final(self)@ == (if tag.len() > 0 {
                    old(self)@.insert(session_id@, before.insert(tag))
                } else {
                    old(self)@
                })
            }),
    {
        broadcast use table::group_map_values;

        let tag = text::trim(tag).to_owned();
        if tag.as_str().is_empty() {
            return false;
        }
        match self.sets.get_mut(session_id) {
            Some(set) => set.insert(tag),
            None => {
                let mut set = TextSet::new();
                let added = set.insert(tag);
                let _ = self.sets.insert(session_id.to_owned(), set);
                added
            },
        }
    }

    /// Takes a tag from a session; `false` where it was not there.
    pub fn remove(&mut self, session_id: &str, tag: &str) -> (removed: bool)
        requires
            old(self).wf(),
        ensures
            final(self).wf(),
            removed == tags_of(old(self)@, session_id@).contains(tag@),
            final(self)@ == tag_removed(old(self)@, session_id@, tag@),
    {
        broadcast use table::group_map_values;

        let mut removed: bool = false;
        let mut emptied: bool = false;
        match self.sets.get_mut(session_id) {
            Some(set) => {
                removed = set.remove(tag);
                emptied = set.is_empty();
            },
            None => {},
        }
        if emptied {
            let _ = self.sets.remove(session_id);
        }
        proof {
            assert(self@ =~= tag_removed(old(self)@, session_id@, tag@));
        }
        removed
    }

    /// The sessions that have `tag`, each once.
    pub fn sessions_with(&self, tag: &str) -> (ids: Vec<String>)
        requires
            self.wf(),
        ensures
            text::texts(ids@).no_duplicates(),
            forall|id: Seq<char>| #[trigger]
                text::texts(ids@).contains(id) <==> tags_of(self@, id).contains(tag@),
    {
        proof {
            self.sets.lemma_keys();
        }
        let ghost keys = self.sets.keys();
        let ghost held = |id: Seq<char>| tags_of(self@, id).contains(tag@);
        let mut ids: Vec<String> = Vec::new();
        let n: usize = self.sets.len();
        for i in 0..n
            invariant
                n == self.sets.keys().len(),
                self.wf(),
                keys == self.sets.keys(),
                held == |id: Seq<char>| tags_of(self@, id).contains(tag@),
                text::texts(ids@) == keys.take(i as int).filter(held),
        {
            proof {
                self.sets.lemma_keys();
                reveal(Seq::filter);
                assert(keys.take(i + 1).drop_last() == keys.take(i as int));
            }
            let ghost before = ids@;
            if self.sets.value_at(i).contains(tag) {
                ids.push(self.sets.key_at(i).clone());
                assert(text::texts(ids@) == text::texts(before).push(keys[i as int]));
            }
        }
        proof {
            assert(keys.take(keys.len() as int) == keys);
            seqs::lemma_filter_members(keys, held);
            assert forall|id: Seq<char>| #[trigger]
                text::texts(ids@).contains(id) <==> tags_of(self@, id).contains(tag@) by {
                assert(held(id) ==> self.sets@.contains_key(id));
            }
        }
        ids
    }

    /// The sessions that have an entry, each once.
    pub fn ids(&self) -> (ids: Vec<String>)
        requires
            self.wf(),
        ensures
            text::texts(ids@).no_duplicates(),
            forall|id: Seq<char>| #[trigger]
                text::texts(ids@).contains(id) <==> self@.contains_key(id),
    {
        proof {
            self.sets.lemma_keys();
        }
        let mut ids: Vec<String> = Vec::new();
        let n: usize = self.sets.len();
        for i in 0..n
            invariant
                n == self.sets.keys().len(),
                text::texts(ids@) == self.sets.keys().take(i as int),
        {
            let ghost before = ids@;
            ids.push(self.sets.key_at(i).clone());
            assert(text::texts(ids@) == text::texts(before).push(self.sets.keys()[i as int]));
        }
        proof {
            assert(self.sets.keys().take(self.sets.keys().len() as int) == self.sets.keys());
            assert forall|id: Seq<char>| #[trigger]
                text::texts(ids@).contains(id) <==> self@.contains_key(id) by {
                assert(self@.contains_key(id) == self.sets@.contains_key(id));
            }
        }
        ids
    }

    /// Drops the entry of a session; `false` where it has none.
    pub fn drop_session(&mut self, session_id: &str) -> (dropped: bool)
        requires
            old(self).wf(),
        ensures
            final(self).wf(),
            final(self)@ == old(self)@.remove(session_id@),
            dropped == old(self)@.contains_key(session_id@),
    {
        broadcast use table::group_map_values;

        self.sets.remove(session_id).is_some()
    }

    /// Every session with its tags, each session once.
    fn lists(&self) -> (lists: Vec<(String, Vec<String>)>)
        requires
            self.wf(),
        ensures
            lists@.len() == self.sets.keys().len(),
            forall|i: int|
                0 <= i < lists@.len() ==> (#[trigger] lists@[i]).0@ == self.sets.keys()[i]
                    && text::texts(lists@[i].1@).to_set() == self@[lists@[i].0@],
    {
        let mut lists: Vec<(String, Vec<String>)> = Vec::new();
        let n: usize = self.sets.len();
        for i in 0..n
            invariant
                n == self.sets.keys().len(),
                self.wf(),
                lists@.len() == i,
                forall|j: int|
                    0 <= j < i ==> (#[trigger] lists@[j]).0@ == self.sets.keys()[j]
                        && text::texts(lists@[j].1@).to_set() == self@[lists@[j].0@],
        {
            proof {
                self.sets.lemma_keys();
                assert(self.sets@.contains_key(self.sets.keys()[i as int]));
            }
            lists.push((self.sets.key_at(i).clone(), self.sets.value_at(i).sorted()));
        }
        lists
    }

    /// The tag file for the store.
    pub fn to_file(&self) -> (bytes: Result<Vec<u8>, TagFileError>)
        requires
            self.wf(),
        ensures
            bytes is Ok,
            json_tag_lists(bytes->Ok_0@) is Some,
            tags_of_lists(json_tag_lists(bytes->Ok_0@)->0) == self@,
    {
        let lists = self.lists();
        proof {
            self.sets.lemma_keys();
        }
        let ghost written = lists@;
        let bytes = format_tag_file(lists);
        proof {
            if bytes is Ok {
                let map = json_tag_lists(bytes->Ok_0@)->0;
                assert forall|key: Seq<char>| #[trigger]
                    tags_of_lists(map).contains_key(key) == self@.contains_key(key) by {
                    if self.sets@.contains_key(key) {
                        let i = choose|i: int|
                            0 <= i < self.sets.keys().len() && self.sets.keys()[i] == key;
                        assert(written[i].0@ == key);
                    }
                    if map.contains_key(key) {
                        let i = choose|i: int|
                            0 <= i < written.len() && (#[trigger] written[i]).0@ == key;
                        assert(self.sets@.contains_key(self.sets.keys()[i]));
                    }
                }
                assert forall|key: Seq<char>| #[trigger]
                    tags_of_lists(map).contains_key(key) implies tags_of_lists(map)[key]
                    == self@[key] by {
                    let i = choose|i: int|
                        0 <= i < written.len() && (#[trigger] written[i]).0@ == key;
                    assert(map[key] == text::texts(written[i].1@));
                }
                assert(tags_of_lists(map) =~= self@);
            }
        }
        bytes
    }

    /// Takes in a tag file; its sessions replace those that are already there. A file that cannot
    /// be read changes nothing.
    pub fn load(&mut self, bytes: &[u8]) -> (loaded: Result<(), TagFileError>)
        requires
            old(self).wf(),
        ensures
            final(self).wf(),
            loaded is Ok <==> json_tag_lists(bytes@) is Some,
            loaded is Ok ==> final(self)@ == old(self)@.union_prefer_right(
                tags_of_lists(json_tag_lists(bytes@)->0),
            ),
            loaded is Err ==> final(self)@ == old(self)@ && loaded->Err_0
                == TagFileError::Malformed,
    {
        let lists = match parse_tag_file(bytes) {
            Ok(lists) => lists,
            Err(error) => {
                return Err(error);
            },
        };
        let ghost map = json_tag_lists(bytes@)->0;
        let ghost before = self@;
        proof {
            assert(before =~= loaded_prefix(before, lists@, 0));
        }
        for i in 0..lists.len()
            invariant
                self.wf(),
                self@ == loaded_prefix(before, lists@, i as int),
        {
            broadcast use table::group_map_values;

            let set = TextSet::from_list(text::copy_texts(&lists[i].1));
            let _ = self.sets.insert(lists[i].0.clone(), set);
        }
        proof {
            lemma_loaded(before, lists@, map, lists@.len() as int);
            assert(self@ =~= before.union_prefer_right(tags_of_lists(map)));
        }
        Ok(())
    }
}

/// `tags` with the first `n` entries of `lists` inserted.
spec fn loaded_prefix(
    tags: Map<Seq<char>, Set<Seq<char>>>,
    lists: Seq<(String, Vec<String>)>,
    n: int,
) -> Map<Seq<char>, Set<Seq<char>>>
    decreases n,
{
    if n <= 0 {
        tags
    } else {
        loaded_prefix(tags, lists, n - 1).insert(
            lists[n - 1].0@,
            text::texts(lists[n - 1].1@).to_set(),
        )
    }
}

proof fn lemma_loaded(
    tags: Map<Seq<char>, Set<Seq<char>>>,
    lists: Seq<(String, Vec<String>)>,
    map: Map<Seq<char>, Seq<Seq<char>>>,
    n: int,
)
    requires
        enumerates(lists, map),
        0 <= n <= lists.len(),
    ensures
        forall|key: Seq<char>| #[trigger]
            loaded_prefix(tags, lists, n).contains_key(key) <==> tags.contains_key(key) || listed(
                lists,
                n,
                key,
            ),
        forall|key: Seq<char>| #[trigger]
            loaded_prefix(tags, lists, n).contains_key(key) ==> loaded_prefix(tags, lists, n)[key]
                == (if listed(lists, n, key) {
                map[key].to_set()
            } else {
                tags[key]
            }),
    decreases n,
{
    if n > 0 {
        lemma_loaded(tags, lists, map, n - 1);
        assert(map.contains_key(lists[n - 1].0@));
        assert forall|key: Seq<char>| #[trigger] listed(lists, n, key) <==> listed(
            lists,
            n - 1,
            key,
        ) || key == lists[n - 1].0@ by {}
        assert forall|key: Seq<char>| #[trigger]
            loaded_prefix(tags, lists, n).contains_key(key) <==> tags.contains_key(key) || listed(
            lists,
            n,
            key,
        ) by {
            assert(loaded_prefix(tags, lists, n - 1).contains_key(key) <==> tags.contains_key(key)
                || listed(lists, n - 1, key));
        }
        assert forall|key: Seq<char>| #[trigger]
            loaded_prefix(tags, lists, n).contains_key(key) implies loaded_prefix(
            tags,
            lists,
            n,
        )[key] == (if listed(lists, n, key) {
            map[key].to_set()
        } else {
            tags[key]
        }) by {
            assert(loaded_prefix(tags, lists, n - 1).contains_key(key) <==> tags.contains_key(key)
                || listed(lists, n - 1, key));
        }
    }
}

/// Whether `key` is among the first `n` entries of `lists`.
spec fn listed(lists: Seq<(String, Vec<String>)>, n: int, key: Seq<char>) -> bool {
    exists|i: int| 0 <= i < n && (#[trigger] lists[i]).0@ == key
}

} // verus!
