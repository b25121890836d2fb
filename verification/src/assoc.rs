//! Lists of keys and values as maps.
use vstd::prelude::*;

verus! {

/// The map that a list of entries makes: later entries replace earlier ones of
/// the same key.
pub open spec fn assoc<K, V>(entries: Seq<(K, V)>) -> Map<K, V>
    decreases entries.len(),
{
    if entries.len() == 0 {
        Map::empty()
    } else {
        assoc(entries.drop_last()).insert(entries.last().0, entries.last().1)
    }
}

/// Whether no two entries have the same key.
pub open spec fn keys_differ<K, V>(entries: Seq<(K, V)>) -> bool {
    forall|i: int, j: int|
        0 <= i < j < entries.len() ==> (#[trigger] entries[i]).0 != (#[trigger] entries[j]).0
}

/// A map holds what the entries of distinct keys say, and nothing else.
pub(crate) proof fn lemma_assoc<K, V>(entries: Seq<(K, V)>)
    requires
        keys_differ(entries),
    ensures
        forall|i: int|
            0 <= i < entries.len() ==> assoc(entries).contains_key((#[trigger] entries[i]).0)
                && assoc(entries)[entries[i].0] == entries[i].1,
        forall|k: K|
            #[trigger] assoc(entries).contains_key(k) ==> exists|i: int|
                0 <= i < entries.len() && (#[trigger] entries[i]).0 == k,
    decreases entries.len(),
{
    if entries.len() > 0 {
        let head = entries.drop_last();
        lemma_assoc(head);
        assert forall|i: int| 0 <= i < entries.len() implies assoc(entries).contains_key(
            (#[trigger] entries[i]).0,
        ) && assoc(entries)[entries[i].0] == entries[i].1 by {
            if i < head.len() {
                assert(head[i] == entries[i]);
                assert(entries[i].0 != entries[entries.len() - 1].0);
            }
        }
        assert forall|k: K| #[trigger] assoc(entries).contains_key(k) implies exists|i: int|
            0 <= i < entries.len() && (#[trigger] entries[i]).0 == k by {
            if k == entries.last().0 {
                assert(entries[entries.len() - 1].0 == k);
            } else {
                assert(assoc(head).contains_key(k));
                let i = choose|i: int| 0 <= i < head.len() && (#[trigger] head[i]).0 == k;
                assert(entries[i].0 == k);
            }
        }
    }
}

/// An entry of a new key makes the map one entry longer.
pub(crate) proof fn lemma_assoc_push<K, V>(entries: Seq<(K, V)>, key: K, value: V)
    requires
        keys_differ(entries),
        !assoc(entries).contains_key(key),
    ensures
        keys_differ(entries.push((key, value))),
        assoc(entries.push((key, value))) == assoc(entries).insert(key, value),
{
    lemma_assoc(entries);
    let longer = entries.push((key, value));
    assert(longer.drop_last() =~= entries);
    assert forall|i: int, j: int| 0 <= i < j < longer.len() implies (#[trigger] longer[i]).0 != (
    #[trigger] longer[j]).0 by {
        assert(longer[i] == entries[i]);
        if j < entries.len() {
            assert(longer[j] == entries[j]);
        }
    }
}

/// The last entry is the only one of its key.
pub(crate) proof fn lemma_assoc_last<K, V>(entries: Seq<(K, V)>)
    requires
        keys_differ(entries),
        entries.len() > 0,
    ensures
        keys_differ(entries.drop_last()),
        !assoc(entries.drop_last()).contains_key(entries.last().0),
{
    let shorter = entries.drop_last();
    lemma_assoc(shorter);
    if assoc(shorter).contains_key(entries.last().0) {
        let i = choose|i: int|
            0 <= i < shorter.len() && (#[trigger] shorter[i]).0 == entries.last().0;
        assert(entries[i].0 == entries[entries.len() - 1].0);
    }
}

} // verus!
