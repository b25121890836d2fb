//! Named texts, such as the headers of a request or of a frame.
use vstd::prelude::*;

use crate::text::same_text;

verus! {

/// A map from names to texts.
///
/// Each name has one entry.
#[derive(Debug)]
pub struct TextMap {
    entries: Vec<(String, String)>,
}

/// What a list of entries maps to what.
pub open spec fn entries_view(entries: Seq<(String, String)>) -> Map<Seq<char>, Seq<char>>
    decreases entries.len(),
{
    if entries.len() == 0 {
        Map::empty()
    } else {
        entries_view(entries.drop_last()).insert(entries.last().0@, entries.last().1@)
    }
}

/// Whether no two entries have the same name.
pub open spec fn entries_differ(entries: Seq<(String, String)>) -> bool {
    forall|i: int, j: int|
        0 <= i < j < entries.len() ==> (#[trigger] entries[i]).0@ != (#[trigger] entries[j]).0@
}

/// An entry that takes the place of one of the same name.
proof fn lemma_entry_replaced(entries: Seq<(String, String)>, at: int, entry: (String, String))
    requires
        entries_differ(entries),
        0 <= at < entries.len(),
        entries[at].0@ == entry.0@,
    ensures
        entries_differ(entries.update(at, entry)),
        entries_view(entries.update(at, entry)) == entries_view(entries).insert(
            entry.0@,
            entry.1@,
        ),
    decreases entries.len(),
{
    let after = entries.update(at, entry);
    let head = entries.drop_last();
    assert forall|i: int, j: int| 0 <= i < j < after.len() implies (#[trigger] after[i]).0@ != (
    #[trigger] after[j]).0@ by {
        assert(after[i].0@ == entries[i].0@ && after[j].0@ == entries[j].0@);
    }
    if at == entries.len() - 1 {
        assert(after.drop_last() =~= head);
        assert(entries_view(after) =~= entries_view(entries).insert(entry.0@, entry.1@));
    } else {
        assert(entries_differ(head)) by {
            assert forall|i: int, j: int| 0 <= i < j < head.len() implies (#[trigger] head[i]).0@
                != (#[trigger] head[j]).0@ by {
                assert(entries[i].0@ != entries[j].0@);
            }
        }
        assert(head[at] == entries[at]);
        lemma_entry_replaced(head, at, entry);
        assert(after.drop_last() =~= head.update(at, entry));
        assert(entries[at].0@ != entries[entries.len() - 1].0@);
        assert(entries_view(after) =~= entries_view(entries).insert(entry.0@, entry.1@));
    }
}

impl View for TextMap {
    type V = Map<Seq<char>, Seq<char>>;

    closed spec fn view(&self) -> Map<Seq<char>, Seq<char>> {
        entries_view(self.entries@)
    }
}

impl TextMap {
    #[verifier::type_invariant]
    spec fn wf(&self) -> bool {
        entries_differ(self.entries@)
    }

    /// A map without entries.
    pub fn new() -> (r: TextMap)
        ensures
            r@ == Map::<Seq<char>, Seq<char>>::empty(),
    {
        TextMap { entries: Vec::new() }
    }

    /// Makes an entry, in place of an earlier one of the same name.
    pub fn insert(&mut self, name: String, text: String)
        ensures
            final(self)@ == old(self)@.insert(name@, text@),
    {
        proof {
            use_type_invariant(&*self);
        }
        let mut entries: Vec<(String, String)> = Vec::new();
        std::mem::swap(&mut entries, &mut self.entries);
        let ghost before = entries@;
        let entry = (name, text);
        let mut i: usize = 0;
        while i < entries.len()
            invariant
                i <= entries@.len(),
                entries@ == before,
                forall|j: int| 0 <= j < i ==> (#[trigger] before[j]).0@ != entry.0@,
            ensures
                i == entries@.len() || entries@[i as int].0@ == entry.0@,
            decreases entries@.len() - i,
        {
            if same_text(entries[i].0.as_str(), entry.0.as_str()) {
                break;
            }
            i += 1;
        }
        if i < entries.len() {
            proof {
                lemma_entry_replaced(before, i as int, entry);
            }
            entries.set(i, entry);
        } else {
            entries.push(entry);
            assert(entries@.drop_last() =~= before);
        }
        self.entries = entries;
    }

    /// The text of that name.
    pub fn get(&self, name: &str) -> (r: Option<&String>)
        ensures
            match r {
                Some(text) => self@.contains_key(name@) && self@[name@] == text@,
                None => !self@.contains_key(name@),
            },
    {
        let entries = &self.entries;
        let mut i: usize = entries.len();
        assert(entries@.take(i as int) =~= entries@);
        while i > 0
            invariant
                i <= entries@.len(),
                self@ == entries_view(entries@),
                self@.contains_key(name@) == entries_view(entries@.take(i as int)).contains_key(
                    name@,
                ),
                self@.contains_key(name@) ==> self@[name@] == entries_view(
                    entries@.take(i as int),
                )[name@],
            decreases i,
        {
            i -= 1;
            assert(entries@.take(i + 1).drop_last() =~= entries@.take(i as int));
            let entry = &entries[i];
            if same_text(entry.0.as_str(), name) {
                return Some(&entry.1);
            }
        }
        None
    }

    /// Makes the entries of another map, in place of earlier ones of their names.
    pub fn merge_with(&mut self, other: &TextMap)
        ensures
            final(self)@ == old(self)@.union_prefer_right(other@),
    {
        let mut i: usize = 0;
        assert(other.entries@.take(0) =~= Seq::<(String, String)>::empty());
        assert(self@ =~= old(self)@.union_prefer_right(entries_view(other.entries@.take(0))));
        while i < other.entries.len()
            invariant
                i <= other.entries@.len(),
                self@ == old(self)@.union_prefer_right(entries_view(other.entries@.take(i as int))),
            decreases other.entries@.len() - i,
        {
            let name = other.entries[i].0.clone();
            let text = other.entries[i].1.clone();
            self.insert(name, text);
            i += 1;
            proof {
                let shorter = other.entries@.take(i - 1);
                assert(other.entries@.take(i as int).drop_last() =~= shorter);
                assert(self@ =~= old(self)@.union_prefer_right(
                    entries_view(other.entries@.take(i as int)),
                ));
            }
        }
        assert(other.entries@.take(i as int) =~= other.entries@);
    }

    /// The entries, one for each name.
    pub fn entries(&self) -> (r: &Vec<(String, String)>)
        ensures
            entries_view(r@) == self@,
            forall|i: int, j: int|
                0 <= i < j < r@.len() ==> (#[trigger] r@[i]).0@ != (#[trigger] r@[j]).0@,
    {
        proof {
            use_type_invariant(self);
        }
        &self.entries
    }

    /// A copy of the map.
    pub fn copy(&self) -> (r: TextMap)
        ensures
            r@ == self@,
    {
        let mut out = TextMap::new();
        out.merge_with(self);
        assert(Map::<Seq<char>, Seq<char>>::empty().union_prefer_right(self@) =~= self@);
        out
    }
}

/// The map that a list of pairs makes.
pub open spec fn pairs_view(pairs: Seq<(&str, &str)>) -> Map<Seq<char>, Seq<char>>
    decreases pairs.len(),
{
    if pairs.len() == 0 {
        Map::empty()
    } else {
        pairs_view(pairs.drop_last()).insert(pairs.last().0@, pairs.last().1@)
    }
}

/// Makes a map out of pairs of a name and a text.
pub fn map_of_pairs(pairs: &[(&str, &str)]) -> (r: TextMap)
    ensures
        r@ == pairs_view(pairs@),
{
    let mut out = TextMap::new();
    let mut i: usize = 0;
    assert(pairs@.take(0) =~= Seq::<(&str, &str)>::empty());
    while i < pairs.len()
        invariant
            i <= pairs@.len(),
            out@ == pairs_view(pairs@.take(i as int)),
        decreases pairs@.len() - i,
    {
        let pair = pairs[i];
        out.insert(pair.0.to_owned(), pair.1.to_owned());
        i += 1;
        assert(pairs@.take(i as int).drop_last() =~= pairs@.take(i - 1));
    }
    assert(pairs@.take(i as int) =~= pairs@);
    out
}

} // verus!
