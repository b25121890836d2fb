//! Payloads that arrive in parts.
use vstd::prelude::*;

use crate::assoc::{assoc, keys_differ, lemma_assoc, lemma_assoc_last, lemma_assoc_push};
use crate::text::same_text;

verus! {

/// How long the parts of a payload are kept after the last one came, in
/// nanoseconds.
pub const PARTIAL_TTL_NANOS: u64 = 300_000_000_000;

/// The parts of one payload that have come, by their numbers.
pub struct PartialView {
    pub total: nat,
    pub parts: Map<nat, Seq<u8>>,
    pub updated_at: nat,
}

/// Whether something that was updated then is still kept now.
pub open spec fn is_fresh(updated_at: nat, now: nat) -> bool {
    now < updated_at + PARTIAL_TTL_NANOS
}

/// The payloads that are still kept now.
pub open spec fn fresh(partials: Map<Seq<char>, PartialView>, now: nat) -> Map<
    Seq<char>,
    PartialView,
> {
    partials.restrict(Set::new(|id: Seq<char>| is_fresh(partials[id].updated_at, now)))
}

/// The parts that a new part joins: those of the same message, unless they are
/// parts of another number of parts.
pub open spec fn joined_by(
    partials: Map<Seq<char>, PartialView>,
    id: Seq<char>,
    total: nat,
) -> Map<nat, Seq<u8>> {
    if partials.contains_key(id) && partials[id].total == total {
        partials[id].parts
    } else {
        Map::empty()
    }
}

/// Whether every part from the first to the last is there.
pub open spec fn all_there(parts: Map<nat, Seq<u8>>, total: nat) -> bool {
    forall|i: nat| 1 <= i <= total ==> #[trigger] parts.contains_key(i)
}

/// The parts from the first to the `n`th, one after the other.
pub open spec fn assembled(parts: Map<nat, Seq<u8>>, n: nat) -> Seq<u8>
    decreases n,
{
    if n == 0 {
        Seq::empty()
    } else {
        assembled(parts, (n - 1) as nat) + parts[n]
    }
}

/// What a part leaves behind, and the payload that it completes.
pub open spec fn after_part(
    partials: Map<Seq<char>, PartialView>,
    id: Seq<char>,
    seq: nat,
    total: nat,
    payload: Seq<u8>,
    now: nat,
) -> (Map<Seq<char>, PartialView>, Option<Seq<u8>>) {
    let kept = fresh(partials, now);
    let parts = joined_by(kept, id, total).insert(seq, payload);
    if all_there(parts, total) {
        (kept.remove(id), Some(assembled(parts, total)))
    } else {
        (kept.insert(id, PartialView { total, parts, updated_at: now }), None)
    }
}

/// The parts of one payload that have come, in the order of their numbers.
#[derive(Debug)]
struct Partial {
    message_id: String,
    total: usize,
    parts: Vec<(usize, Vec<u8>)>,
    updated_at: u64,
}

spec fn part_entries(parts: Seq<(usize, Vec<u8>)>) -> Seq<(nat, Seq<u8>)> {
    parts.map_values(|part: (usize, Vec<u8>)| (part.0 as nat, part.1@))
}

spec fn parts_map(parts: Seq<(usize, Vec<u8>)>) -> Map<nat, Seq<u8>> {
    assoc(part_entries(parts))
}

spec fn ordered(parts: Seq<(usize, Vec<u8>)>, total: usize) -> bool {
    &&& forall|i: int, j: int|
        0 <= i < j < parts.len() ==> (#[trigger] parts[i]).0 < (#[trigger] parts[j]).0
    &&& forall|i: int| 0 <= i < parts.len() ==> 1 <= (#[trigger] parts[i]).0 <= total
}

impl Partial {
    spec fn wf(&self) -> bool {
        ordered(self.parts@, self.total)
    }

    spec fn view(&self) -> PartialView {
        PartialView {
            total: self.total as nat,
            parts: parts_map(self.parts@),
            updated_at: self.updated_at as nat,
        }
    }
}

spec fn partial_entries(partials: Seq<Partial>) -> Seq<(Seq<char>, PartialView)> {
    partials.map_values(|partial: Partial| (partial.message_id@, partial.view()))
}

/// The payloads of which some parts have come.
#[derive(Debug)]
pub struct Partials {
    entries: Vec<Partial>,
}

impl View for Partials {
    type V = Map<Seq<char>, PartialView>;

    closed spec fn view(&self) -> Map<Seq<char>, PartialView> {
        assoc(partial_entries(self.entries@))
    }
}

proof fn lemma_parts_map(parts: Seq<(usize, Vec<u8>)>, total: usize)
    requires
        ordered(parts, total),
    ensures
        forall|i: int|
            0 <= i < parts.len() ==> parts_map(parts).contains_key((#[trigger] parts[i]).0 as nat)
                && parts_map(parts)[parts[i].0 as nat] == parts[i].1@,
        forall|n: nat|
            #[trigger] parts_map(parts).contains_key(n) ==> exists|i: int|
                0 <= i < parts.len() && (#[trigger] parts[i]).0 == n,
{
    let entries = part_entries(parts);
    assert(keys_differ(entries));
    lemma_assoc(entries);
    assert forall|i: int| 0 <= i < parts.len() implies parts_map(parts).contains_key(
        (#[trigger] parts[i]).0 as nat,
    ) && parts_map(parts)[parts[i].0 as nat] == parts[i].1@ by {
        assert(entries[i] == (parts[i].0 as nat, parts[i].1@));
    }
    assert forall|n: nat| #[trigger] parts_map(parts).contains_key(n) implies exists|i: int|
        0 <= i < parts.len() && (#[trigger] parts[i]).0 == n by {
        let i = choose|i: int| 0 <= i < entries.len() && (#[trigger] entries[i]).0 == n;
        assert(parts[i].0 == n);
    }
}

/// Where the first `k` parts are there, they are the first `k` of the list.
proof fn lemma_leading_parts(parts: Seq<(usize, Vec<u8>)>, total: usize, k: nat)
    requires
        ordered(parts, total),
        all_there(parts_map(parts), k),
    ensures
        k <= parts.len(),
        forall|i: int| 0 <= i < k ==> (#[trigger] parts[i]).0 == i + 1,
    decreases k,
{
    if k > 0 {
        lemma_leading_parts(parts, total, (k - 1) as nat);
        lemma_parts_map(parts, total);
        assert(parts_map(parts).contains_key(k));
        let at = choose|i: int| 0 <= i < parts.len() && (#[trigger] parts[i]).0 == k;
        assert(parts[at].0 == k);
        if at < k - 1 {
            assert(parts[at].0 == at + 1);
        }
        if at > k - 1 {
            assert(parts[k - 1].0 < parts[at].0);
            if k > 1 {
                assert(parts[k - 2].0 == k - 1);
                assert(parts[k - 2].0 < parts[k - 1].0);
            }
        }
    }
}

/// A list as long as there are parts has them all.
proof fn lemma_full_list(parts: Seq<(usize, Vec<u8>)>, total: usize)
    requires
        ordered(parts, total),
    ensures
        parts.len() <= total,
        (parts.len() == total) == all_there(parts_map(parts), total as nat),
        parts.len() == total ==> forall|i: int|
            0 <= i < total ==> (#[trigger] parts[i]).0 == i + 1,
{
    lemma_parts_map(parts, total);
    lemma_at_least(parts, total, parts.len() as int);
    if parts.len() > 0 {
        assert(parts[parts.len() - 1].0 <= total);
    }
    if parts.len() == total {
        assert forall|i: int| 0 <= i < total implies (#[trigger] parts[i]).0 == i + 1 by {
            lemma_at_most(parts, total, i);
        }
        assert forall|n: nat| 1 <= n <= total implies #[trigger] parts_map(parts).contains_key(
            n,
        ) by {
            assert(parts[n - 1].0 == n);
        }
    }
    if all_there(parts_map(parts), total as nat) {
        lemma_leading_parts(parts, total, total as nat);
    }
}

proof fn lemma_at_least(parts: Seq<(usize, Vec<u8>)>, total: usize, n: int)
    requires
        ordered(parts, total),
        0 <= n <= parts.len(),
    ensures
        forall|i: int| 0 <= i < n ==> (#[trigger] parts[i]).0 >= i + 1,
    decreases n,
{
    if n > 0 {
        lemma_at_least(parts, total, n - 1);
        if n > 1 {
            assert(parts[n - 2].0 < parts[n - 1].0);
        }
    }
}

proof fn lemma_at_most(parts: Seq<(usize, Vec<u8>)>, total: usize, i: int)
    requires
        ordered(parts, total),
        0 <= i < parts.len(),
    ensures
        parts[i].0 <= total - (parts.len() - 1 - i),
    decreases parts.len() - i,
{
    if i < parts.len() - 1 {
        lemma_at_most(parts, total, i + 1);
        assert(parts[i].0 < parts[i + 1].0);
    }
}

/// A copy of some bytes.
pub(crate) fn copy_bytes(bytes: &Vec<u8>) -> (r: Vec<u8>)
    ensures
        r@ == bytes@,
{
    let mut out: Vec<u8> = Vec::new();
    append_bytes(&mut out, bytes);
    assert(out@ =~= bytes@);
    out
}

fn append_bytes(out: &mut Vec<u8>, bytes: &Vec<u8>)
    ensures
        final(out)@ == old(out)@ + bytes@,
{
    let mut i: usize = 0;
    while i < bytes.len()
        invariant
            i <= bytes@.len(),
            out@ == old(out)@ + bytes@.take(i as int),
        decreases bytes@.len() - i,
    {
        out.push(bytes[i]);
        i += 1;
        assert(out@ =~= old(out)@ + bytes@.take(i as int));
    }
    assert(bytes@.take(i as int) =~= bytes@);
}

/// A part that replaces one of the same number.
proof fn lemma_replaced(parts: Seq<(usize, Vec<u8>)>, total: usize, at: int, part: (usize, Vec<u8>))
    requires
        ordered(parts, total),
        0 <= at < parts.len(),
        parts[at].0 == part.0,
    ensures
        ordered(parts.update(at, part), total),
        parts_map(parts.update(at, part)) == parts_map(parts).insert(part.0 as nat, part.1@),
{
    let after = parts.update(at, part);
    assert(forall|i: int| 0 <= i < after.len() ==> (#[trigger] after[i]).0 == parts[i].0);
    assert(ordered(after, total));
    lemma_parts_map(parts, total);
    lemma_parts_map(after, total);
    let expected = parts_map(parts).insert(part.0 as nat, part.1@);
    assert forall|n: nat| #[trigger] parts_map(after).contains_key(n) == expected.contains_key(
        n,
    ) && (expected.contains_key(n) ==> parts_map(after)[n] == expected[n]) by {
        if parts_map(after).contains_key(n) {
            let i = choose|i: int| 0 <= i < after.len() && (#[trigger] after[i]).0 == n;
            assert(parts[i].0 == n);
        }
        if expected.contains_key(n) {
            if n == part.0 {
                assert(after[at].0 == n);
            } else {
                let i = choose|i: int| 0 <= i < parts.len() && (#[trigger] parts[i]).0 == n;
                assert(after[i].0 == n);
                assert(after[i] == parts[i]);
            }
        }
    }
    assert(parts_map(after) =~= expected);
}

/// A part that comes between others.
proof fn lemma_inserted(parts: Seq<(usize, Vec<u8>)>, total: usize, at: int, part: (usize, Vec<u8>))
    requires
        ordered(parts, total),
        1 <= part.0 <= total,
        0 <= at <= parts.len(),
        forall|i: int| 0 <= i < at ==> (#[trigger] parts[i]).0 < part.0,
        at < parts.len() ==> part.0 < parts[at].0,
    ensures
        ordered(parts.insert(at, part), total),
        parts_map(parts.insert(at, part)) == parts_map(parts).insert(part.0 as nat, part.1@),
{
    let after = parts.insert(at, part);
    assert forall|i: int| at <= i < parts.len() implies part.0 < (#[trigger] parts[i]).0 by {
        if i > at {
            assert(parts[at].0 < parts[i].0);
        }
    }
    assert(after[at] == part);
    assert(forall|i: int| 0 <= i < at ==> #[trigger] after[i] == parts[i]);
    assert(forall|i: int| at < i < after.len() ==> #[trigger] after[i] == parts[i - 1]);
    assert(ordered(after, total));
    lemma_parts_map(parts, total);
    lemma_parts_map(after, total);
    let expected = parts_map(parts).insert(part.0 as nat, part.1@);
    assert forall|n: nat| #[trigger] parts_map(after).contains_key(n) == expected.contains_key(
        n,
    ) && (expected.contains_key(n) ==> parts_map(after)[n] == expected[n]) by {
        if parts_map(after).contains_key(n) {
            let i = choose|i: int| 0 <= i < after.len() && (#[trigger] after[i]).0 == n;
            if i < at {
                assert(parts[i].0 == n);
            } else if i > at {
                assert(parts[i - 1].0 == n);
            }
        }
        if expected.contains_key(n) {
            if n == part.0 {
                assert(after[at].0 == n);
            } else {
                let i = choose|i: int| 0 <= i < parts.len() && (#[trigger] parts[i]).0 == n;
                if i < at {
                    assert(after[i] == parts[i]);
                } else {
                    assert(after[i + 1] == parts[i]);
                }
            }
        }
    }
    assert(parts_map(after) =~= expected);
}

/// Puts a part in its place, instead of one of the same number.
fn put_part(parts: Vec<(usize, Vec<u8>)>, total: usize, seq: usize, payload: Vec<u8>) -> (r: Vec<
    (usize, Vec<u8>),
>)
    requires
        ordered(parts@, total),
        1 <= seq <= total,
    ensures
        ordered(r@, total),
        parts_map(r@) == parts_map(parts@).insert(seq as nat, payload@),
{
    let mut parts = parts;
    let mut at: usize = 0;
    while at < parts.len() && parts[at].0 < seq
        invariant
            at <= parts@.len(),
            forall|i: int| 0 <= i < at ==> (#[trigger] parts@[i]).0 < seq,
        decreases parts@.len() - at,
    {
        at += 1;
    }
    let part = (seq, payload);
    if at < parts.len() && parts[at].0 == seq {
        proof {
            lemma_replaced(parts@, total, at as int, part);
        }
        parts.set(at, part);
    } else {
        proof {
            lemma_inserted(parts@, total, at as int, part);
        }
        parts.insert(at, part);
    }
    parts
}

/// All parts one after the other.
fn assemble(parts: &Vec<(usize, Vec<u8>)>, total: usize) -> (r: Vec<u8>)
    requires
        ordered(parts@, total),
        parts@.len() == total,
    ensures
        r@ == assembled(parts_map(parts@), total as nat),
{
    let mut out: Vec<u8> = Vec::new();
    let mut i: usize = 0;
    proof {
        lemma_full_list(parts@, total);
        lemma_parts_map(parts@, total);
    }
    while i < parts.len()
        invariant
            i <= parts@.len(),
            parts@.len() == total,
            ordered(parts@, total),
            forall|i: int| 0 <= i < total ==> (#[trigger] parts@[i]).0 == i + 1,
            forall|i: int|
                0 <= i < parts@.len() ==> parts_map(parts@)[(#[trigger] parts@[i]).0 as nat]
                    == parts@[i].1@,
            out@ == assembled(parts_map(parts@), i as nat),
        decreases parts@.len() - i,
    {
        append_bytes(&mut out, &parts[i].1);
        assert(parts@[i as int].0 == i + 1);
        i += 1;
    }
    out
}

impl Partials {
    /// The invariant: no two payloads of the same message, and the parts of
    /// each in order.
    pub closed spec fn wf(&self) -> bool {
        &&& keys_differ(partial_entries(self.entries@))
        &&& forall|i: int| 0 <= i < self.entries@.len() ==> (#[trigger] self.entries@[i]).wf()
    }

    /// No parts.
    pub fn new() -> (r: Partials)
        ensures
            r.wf(),
            r@ == Map::<Seq<char>, PartialView>::empty(),
    {
        Partials { entries: Vec::new() }
    }

    /// Forgets the payloads that are no longer kept, and takes the parts of one
    /// message out.
    fn take_out(&mut self, id: &str, now: u64) -> (r: Option<Partial>)
        requires
            old(self).wf(),
        ensures
            final(self).wf(),
            final(self)@ == fresh(old(self)@, now as nat).remove(id@),
            match r {
                Some(partial) => partial.wf() && partial.message_id@ == id@ && fresh(
                    old(self)@,
                    now as nat,
                ).contains_key(id@) && fresh(old(self)@, now as nat)[id@] == partial.view(),
                None => !fresh(old(self)@, now as nat).contains_key(id@),
            },
    {
        let ghost all = fresh(self@, now as nat);
        let mut kept: Vec<Partial> = Vec::new();
        let mut found: Option<Partial> = None;
        while self.entries.len() > 0
            invariant
                self.wf(),
                keys_differ(partial_entries(kept@)),
                forall|k: int| 0 <= k < kept@.len() ==> (#[trigger] kept@[k]).wf(),
                forall|k: Seq<char>|
                    #![trigger all.contains_key(k)]
                    all.contains_key(k) <==> (fresh(self@, now as nat).contains_key(k) || assoc(
                        partial_entries(kept@),
                    ).contains_key(k) || (k == id@ && found is Some)),
                forall|k: Seq<char>|
                    #![trigger fresh(self@, now as nat).contains_key(k)]
                    fresh(self@, now as nat).contains_key(k) ==> all[k] == fresh(
                        self@,
                        now as nat,
                    )[k],
                forall|k: Seq<char>|
                    #![trigger assoc(partial_entries(kept@)).contains_key(k)]
                    assoc(partial_entries(kept@)).contains_key(k) ==> k != id@
                        && !self@.contains_key(k) && all[k] == assoc(partial_entries(kept@))[k],
                match found {
                    Some(partial) => partial.wf() && partial.message_id@ == id@ && all[id@]
                        == partial.view() && !self@.contains_key(id@),
                    None => true,
                },
            decreases self.entries@.len(),
        {
            let ghost left = self@;
            let ghost before = self.entries@;
            let ghost kept_before = kept@;
            proof {
                lemma_assoc_last(partial_entries(before));
                assert(partial_entries(before.drop_last()) =~= partial_entries(before).drop_last());
            }
            match self.entries.pop() {
                Some(partial) => {
                    let ghost key = partial.message_id@;
                    let ghost value = partial.view();
                    proof {
                        assert(partial == before.last());
                        assert(partial_entries(before).last() == (key, value));
                        assert(left == self@.insert(key, value));
                    }
                    let alive = now < partial.updated_at || now - partial.updated_at
                        < PARTIAL_TTL_NANOS;
                    assert(alive == is_fresh(value.updated_at, now as nat));
                    if alive {
                        assert(fresh(left, now as nat).contains_key(key));
                        if same_text(partial.message_id.as_str(), id) {
                            found = Some(partial);
                        } else {
                            kept.push(partial);
                            proof {
                                lemma_assoc_push(partial_entries(kept_before), key, value);
                                assert(partial_entries(kept@) =~= partial_entries(kept_before).push(
                                    (key, value),
                                ));
                            }
                        }
                    }
                    proof {
                        assert forall|k: Seq<char>|
                            #![trigger fresh(self@, now as nat).contains_key(k)]
                            fresh(self@, now as nat).contains_key(k) implies all[k] == fresh(
                            self@,
                            now as nat,
                        )[k] && fresh(left, now as nat).contains_key(k) && k != key by {
                            assert(fresh(left, now as nat).contains_key(k));
                        }
                        assert forall|k: Seq<char>|
                            #![trigger all.contains_key(k)]
                            all.contains_key(k) <==> (fresh(self@, now as nat).contains_key(k)
                                || assoc(partial_entries(kept@)).contains_key(k) || (k == id@
                                && found is Some)) by {
                            assert(fresh(left, now as nat).contains_key(k) == ((k == key && alive)
                                || fresh(self@, now as nat).contains_key(k)));
                        }
                    }
                },
                None => {},
            }
        }
        self.entries = kept;
        assert(self@ =~= all.remove(id@));
        found
    }

    /// Takes a part in, and gives the payload that it completes.
    pub fn add(&mut self, id: &str, seq: usize, total: usize, payload: Vec<u8>, now: u64) -> (r:
        Option<Vec<u8>>)
        requires
            old(self).wf(),
            1 <= seq <= total,
        ensures
            final(self).wf(),
            ({
                let (partials, done) = after_part(
                    old(self)@,
                    id@,
                    seq as nat,
                    total as nat,
                    payload@,
                    now as nat,
                );
                &&& final(self)@ == partials
                &&& match r {
                    Some(bytes) => done == Some(bytes@),
                    None => done is None,
                }
            }),
    {
        let ghost kept = fresh(self@, now as nat);
        let old_parts = match self.take_out(id, now) {
            Some(partial) => {
                if partial.total == total {
                    partial.parts
                } else {
                    Vec::new()
                }
            },
            None => Vec::new(),
        };
        assert(parts_map(old_parts@) =~= joined_by(kept, id@, total as nat));
        let parts = put_part(old_parts, total, seq, payload);
        proof {
            lemma_full_list(parts@, total);
        }
        if parts.len() == total {
            return Some(assemble(&parts, total));
        }
        let ghost others = self.entries@;
        let partial = Partial { message_id: id.to_owned(), total, parts, updated_at: now };
        self.entries.push(partial);
        proof {
            lemma_assoc_push(partial_entries(others), id@, partial.view());
            assert(partial_entries(self.entries@) =~= partial_entries(others).push(
                (id@, partial.view()),
            ));
            assert(self@ =~= kept.insert(id@, partial.view()));
        }
        None
    }
}

} // verus!
