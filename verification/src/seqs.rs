//! Facts about sequences.

use vstd::prelude::*;

verus! {

/// Appending a value adds it to the members.
pub proof fn lemma_push_to_set<A>(list: Seq<A>, value: A)
    ensures
        list.push(value).to_set() == list.to_set().insert(value),
{
    let after = list.push(value);
    assert forall|t: A| after.to_set().contains(t) == list.to_set().insert(value).contains(t) by {
        if list.contains(t) {
            let i = choose|i: int| 0 <= i < list.len() && list[i] == t;
            assert(after[i] == t);
        }
        if t == value {
            assert(after[list.len() as int] == t);
        }
    }
    assert(after.to_set() =~= list.to_set().insert(value));
}

/// Sequences with the same elements, none of which repeats in one of them, have the same members
/// and repeat none.
pub proof fn lemma_same_multiset<A>(a: Seq<A>, b: Seq<A>)
    requires
        a.no_duplicates(),
        a.to_multiset() == b.to_multiset(),
    ensures
        b.no_duplicates(),
        a.to_set() == b.to_set(),
{
    broadcast use vstd::seq_lib::group_to_multiset_ensures;

    a.lemma_multiset_has_no_duplicates();
    b.lemma_multiset_has_no_duplicates_conv();
    assert forall|t: A| a.to_set().contains(t) == b.to_set().contains(t) by {
        assert(a.contains(t) <==> a.to_multiset().count(t) > 0);
        assert(b.contains(t) <==> b.to_multiset().count(t) > 0);
    }
    assert(a.to_set() =~= b.to_set());
}

/// The members of a filtered sequence are those of the sequence that pass, and it is no longer.
pub proof fn lemma_filter_members_any<A>(list: Seq<A>, f: spec_fn(A) -> bool)
    ensures
        list.filter(f).len() <= list.len(),
        forall|a: A| #[trigger] list.filter(f).contains(a) <==> list.contains(a) && f(a),
    decreases list.len(),
{
    reveal(Seq::filter);
    if list.len() > 0 {
        let before = list.drop_last();
        lemma_filter_members_any(before, f);
        assert forall|a: A| #[trigger] list.filter(f).contains(a) <==> list.contains(a) && f(a) by {
            assert(list.contains(a) <==> before.contains(a) || a == list.last()) by {
                if list.contains(a) {
                    let i = choose|i: int| 0 <= i < list.len() && list[i] == a;
                    if i < before.len() {
                        assert(before[i] == a);
                    }
                }
                if before.contains(a) {
                    let i = choose|i: int| 0 <= i < before.len() && before[i] == a;
                    assert(list[i] == a);
                }
                if a == list.last() {
                    assert(list[list.len() - 1] == a);
                }
            }
            assert(before.filter(f).contains(a) <==> before.contains(a) && f(a));
            if f(list.last()) {
                let kept = before.filter(f);
                assert(list.filter(f) == kept.push(list.last()));
                if kept.contains(a) {
                    let i = choose|i: int| 0 <= i < kept.len() && kept[i] == a;
                    assert(list.filter(f)[i] == a);
                }
                if a == list.last() {
                    assert(list.filter(f)[kept.len() as int] == a);
                }
            }
        }
    }
}

/// The members of a filtered sequence are those of the sequence that pass, and none repeats where
/// none did.
pub proof fn lemma_filter_members<A>(list: Seq<A>, f: spec_fn(A) -> bool)
    requires
        list.no_duplicates(),
    ensures
        list.filter(f).no_duplicates(),
        forall|a: A| #[trigger] list.filter(f).contains(a) <==> list.contains(a) && f(a),
    decreases list.len(),
{
    reveal(Seq::filter);
    lemma_filter_members_any(list, f);
    if list.len() > 0 {
        let before = list.drop_last();
        lemma_filter_members(before, f);
        assert(!before.contains(list.last()));
        if f(list.last()) {
            assert(!before.filter(f).contains(list.last()));
        }
    }
}

} // verus!
