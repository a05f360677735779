//! Laws of the session tags and of the file that keeps them.

use crate::tags;
use crate::text;
use vstd::prelude::*;

verus! {

/// What was persisted is what a fresh process loads.
pub proof fn law_tags_survive_a_restart(stored: Map<Seq<char>, Set<Seq<char>>>, file: Seq<u8>)
    requires
        tags::json_tag_lists(file) is Some,
        tags::tags_of_lists(tags::json_tag_lists(file)->0) == stored,
    ensures
        Map::<Seq<char>, Set<Seq<char>>>::empty().union_prefer_right(
            tags::tags_of_lists(tags::json_tag_lists(file)->0),
        ) == stored,
{
    assert(Map::<Seq<char>, Set<Seq<char>>>::empty().union_prefer_right(stored) =~= stored);
}

/// Tags that were set are the trimmed ones that are not empty; no other session is touched, and
/// setting none leaves no entry.
pub proof fn law_set_tags(
    stored: Map<Seq<char>, Set<Seq<char>>>,
    session_id: Seq<char>,
    raw: Seq<Seq<char>>,
)
    ensures
        ({
            let after = tags::tags_set(stored, session_id, tags::cleaned(raw));
            &&& tags::tags_of(after, session_id) == tags::cleaned(raw)
            &&& after.contains_key(session_id) <==> tags::cleaned(raw) != Set::<Seq<char>>::empty()
            &&& forall|other: Seq<char>|
                other != session_id ==> #[trigger] tags::tags_of(after, other) == tags::tags_of(
                    stored,
                    other,
                )
        }),
        forall|tag: Seq<char>| #[trigger]
            tags::cleaned(raw).contains(tag) ==> tag.len() > 0 && text::trimmed(tag) == tag,
        forall|i: int|
            0 <= i < raw.len() && text::trimmed(#[trigger] raw[i]).len() > 0
                ==> tags::cleaned(raw).contains(text::trimmed(raw[i])),
{
    let after = tags::tags_set(stored, session_id, tags::cleaned(raw));
    let trim = |tag: Seq<char>| text::trimmed(tag);
    let trimmed = raw.map_values(trim);
    assert(tags::cleaned(raw) == trimmed.to_set().remove(Seq::empty()));
    assert forall|tag: Seq<char>| #[trigger] tags::cleaned(raw).contains(tag) implies tag.len() > 0
        && text::trimmed(tag) == tag by {
        let i = choose|i: int| 0 <= i < trimmed.len() && trimmed[i] == tag;
        lemma_trimmed_twice(raw[i]);
        if tag.len() == 0 {
            assert(tag =~= Seq::<char>::empty());
        }
    }
    assert forall|i: int| 0 <= i < raw.len() && text::trimmed(#[trigger] raw[i]).len() > 0 implies tags::cleaned(
    raw).contains(text::trimmed(raw[i])) by {
        assert(trimmed[i] == text::trimmed(raw[i]));
    }
    if tags::cleaned(raw) == Set::<Seq<char>>::empty() {
        assert(tags::tags_of(after, session_id) =~= tags::cleaned(raw));
    }
}

/// A tag is added at most once: what was just added is there, and adding it again changes
/// nothing.
pub proof fn law_add_is_idempotent(
    stored: Map<Seq<char>, Set<Seq<char>>>,
    session_id: Seq<char>,
    tag: Seq<char>,
)
    ensures
        ({
            let once = stored.insert(session_id, tags::tags_of(stored, session_id).insert(tag));
            let twice = once.insert(session_id, tags::tags_of(once, session_id).insert(tag));
            &&& tags::tags_of(once, session_id).contains(tag)
            &&& twice == once
        }),
{
    let once = stored.insert(session_id, tags::tags_of(stored, session_id).insert(tag));
    let twice = once.insert(session_id, tags::tags_of(once, session_id).insert(tag));
    assert(once[session_id].insert(tag) =~= once[session_id]);
    assert(twice =~= once);
}

/// Removing a tag that was just added, and not there before, restores the tags.
pub proof fn law_add_then_remove(
    stored: Map<Seq<char>, Set<Seq<char>>>,
    session_id: Seq<char>,
    tag: Seq<char>,
)
    requires
        !tags::tags_of(stored, session_id).contains(tag),
        stored.contains_key(session_id) ==> stored[session_id] != Set::<Seq<char>>::empty(),
    ensures
        tags::tag_removed(
            stored.insert(session_id, tags::tags_of(stored, session_id).insert(tag)),
            session_id,
            tag,
        ) == stored,
{
    let before = tags::tags_of(stored, session_id);
    let added = stored.insert(session_id, before.insert(tag));
    assert(before.insert(tag).remove(tag) =~= before);
    if stored.contains_key(session_id) {
        assert(tags::tag_removed(added, session_id, tag) =~= stored);
    } else {
        assert(tags::tag_removed(added, session_id, tag) =~= stored);
    }
}

/// Whether every session with an entry has a tag.
pub open spec fn no_empty_entry(stored: Map<Seq<char>, Set<Seq<char>>>) -> bool {
    forall|id: Seq<char>| #[trigger]
        stored.contains_key(id) ==> stored[id] != Set::<Seq<char>>::empty()
}

/// Setting, adding, removing and dropping tags never leave an entry without tags.
pub proof fn law_no_empty_entry(
    stored: Map<Seq<char>, Set<Seq<char>>>,
    session_id: Seq<char>,
    tag: Seq<char>,
    raw: Seq<Seq<char>>,
)
    requires
        no_empty_entry(stored),
    ensures
        no_empty_entry(tags::tags_set(stored, session_id, tags::cleaned(raw))),
        no_empty_entry(
            stored.insert(session_id, tags::tags_of(stored, session_id).insert(tag)),
        ),
        no_empty_entry(tags::tag_removed(stored, session_id, tag)),
        no_empty_entry(stored.remove(session_id)),
{
    assert(tags::tags_of(stored, session_id).insert(tag).contains(tag));
}

proof fn lemma_trimmed_start(s: Seq<char>)
    ensures
        text::trimmed_start(s).len() > 0 ==> !text::is_white_space(text::trimmed_start(s).first()),
    decreases s.len(),
{
    if s.len() > 0 && text::is_white_space(s.first()) {
        lemma_trimmed_start(s.drop_first());
    }
}

proof fn lemma_trimmed_end(s: Seq<char>)
    ensures
        text::trimmed_end(s).len() <= s.len(),
        text::trimmed_end(s) == s.take(text::trimmed_end(s).len() as int),
        text::trimmed_end(s).len() > 0 ==> !text::is_white_space(text::trimmed_end(s).last()),
    decreases s.len(),
{
    if s.len() > 0 && text::is_white_space(s.last()) {
        lemma_trimmed_end(s.drop_last());
        let end = text::trimmed_end(s);
        assert(s.drop_last().take(end.len() as int) =~= s.take(end.len() as int));
    } else {
        assert(s.take(s.len() as int) =~= s);
    }
}

/// Trimming what is trimmed changes nothing.
proof fn lemma_trimmed_twice(s: Seq<char>)
    ensures
        text::trimmed(text::trimmed(s)) == text::trimmed(s),
{
    let start = text::trimmed_start(s);
    let t = text::trimmed(s);
    lemma_trimmed_start(s);
    lemma_trimmed_end(start);
    if t.len() > 0 {
        assert(t.first() == start.first());
        assert(text::trimmed_start(t) == t);
        assert(text::trimmed_end(t) == t);
    } else {
        assert(text::trimmed_start(t) == t);
    }
}

/// A session has a tag exactly where its entry holds it.
pub proof fn law_tags_of(stored: Map<Seq<char>, Set<Seq<char>>>, id: Seq<char>, tag: Seq<char>)
    ensures
        tags::tags_of(stored, id).contains(tag) <==> stored.contains_key(id) && stored[id].contains(
            tag,
        ),
{
}

/// A tag is kept of a raw list exactly where it is what trimming leaves of one of its entries, and
/// is not empty.
pub proof fn law_cleaned(raw: Seq<Seq<char>>, tag: Seq<char>)
    ensures
        tags::cleaned(raw).contains(tag) <==> tag.len() > 0 && exists|i: int|
            0 <= i < raw.len() && text::trimmed(#[trigger] raw[i]) == tag,
{
    let trim = |t: Seq<char>| text::trimmed(t);
    let trimmed = raw.map_values(trim);
    assert(tags::cleaned(raw) == trimmed.to_set().remove(Seq::empty()));
    if tags::cleaned(raw).contains(tag) {
        let i = choose|i: int| 0 <= i < trimmed.len() && trimmed[i] == tag;
        assert(text::trimmed(raw[i]) == tag);
        if tag.len() == 0 {
            assert(tag =~= Seq::<char>::empty());
        }
    }
    if tag.len() > 0 && exists|i: int| 0 <= i < raw.len() && text::trimmed(#[trigger] raw[i]) == tag {
        let i = choose|i: int| 0 <= i < raw.len() && text::trimmed(#[trigger] raw[i]) == tag;
        assert(trimmed[i] == tag);
    }
}

/// Setting and removing tags, by session and tag: what is set replaces what the session had, what
/// is removed is gone, no other session is touched, and an entry stays only for tags.
pub proof fn law_changed_tags(
    stored: Map<Seq<char>, Set<Seq<char>>>,
    session_id: Seq<char>,
    set: Set<Seq<char>>,
    tag: Seq<char>,
    at: Seq<char>,
    by: Seq<char>,
)
    ensures
        ({
            let had = stored.contains_key(at) && stored[at].contains(by);
            let replaced = tags::tags_set(stored, session_id, set);
            let removed = tags::tag_removed(stored, session_id, tag);
            &&& replaced.contains_key(at) && replaced[at].contains(by) <==> (at == session_id
                && set.contains(by)) || (at != session_id && had)
            &&& removed.contains_key(at) && removed[at].contains(by) <==> had && !(at == session_id
                && by == tag)
            &&& at != session_id ==> (replaced.contains_key(at) <==> stored.contains_key(at))
            &&& at != session_id ==> (removed.contains_key(at) <==> stored.contains_key(at))
            &&& replaced.contains_key(session_id) ==> replaced[session_id] != Set::<
                Seq<char>,
            >::empty()
            &&& removed.contains_key(session_id) ==> removed[session_id] != Set::<
                Seq<char>,
            >::empty()
        }),
{
    assert(!Set::<Seq<char>>::empty().contains(by));
    if stored.contains_key(session_id) {
        let rest = stored[session_id].remove(tag);
        assert(rest.contains(by) <==> stored[session_id].contains(by) && by != tag);
    }
}

/// A file gives a session exactly the tags of its list, and no session that it does not name.
pub proof fn law_file_tags(
    lists: Map<Seq<char>, Seq<Seq<char>>>,
    id: Seq<char>,
    tag: Seq<char>,
)
    ensures
        tags::tags_of_lists(lists).contains_key(id) <==> lists.contains_key(id),
        lists.contains_key(id) ==> (tags::tags_of_lists(lists)[id].contains(tag)
            <==> lists[id].contains(tag)),
{
}

/// Tags are listed in the order of strings, each once.
pub proof fn law_tag_list(list: Seq<Seq<char>>, i: int, j: int)
    requires
        crate::text_set::strictly_sorted(list),
        0 <= i < j < list.len(),
    ensures
        list[i] != list[j],
        !text::text_before(list[j], list[i]),
{
}

} // verus!
