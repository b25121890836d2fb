//! What holds of texts, of the numbers in them, and of documents.
use vstd::prelude::*;

use crate::json::{
    first_scalar, member_of, members_view, nullable, opt_text, opt_view, scalar_of, text_of, Json,
    JsonView, NumberView,
};
use crate::number::{
    decimal, decimal_reads_back, digits_value, is_digit, signed_decimal, signed_number,
    unsigned_number,
};
use crate::text::{
    is_white, lemma_not_blank, lemma_position_unique, split_once, stands_at, stripped_end, trimmed,
    trimmed_end, trimmed_start, without,
};
use crate::text_map::{pairs_view, TextMap};

verus! {

// ---------------------------------------------------------------- trimming

proof fn lemma_start_goes(before: Seq<char>, rest: Seq<char>)
    requires
        forall|i: int| 0 <= i < before.len() ==> is_white(#[trigger] before[i]),
    ensures
        trimmed_start(before + rest) == trimmed_start(rest),
    decreases before.len(),
{
    if before.len() == 0 {
        assert(before + rest =~= rest);
    } else {
        let whole = before + rest;
        assert(whole[0] == before[0]);
        assert(whole.skip(1) =~= before.skip(1) + rest);
        lemma_start_goes(before.skip(1), rest);
    }
}

proof fn lemma_end_goes(rest: Seq<char>, after: Seq<char>)
    requires
        forall|i: int| 0 <= i < after.len() ==> is_white(#[trigger] after[i]),
    ensures
        trimmed_end(rest + after) == trimmed_end(rest),
    decreases after.len(),
{
    if after.len() == 0 {
        assert(rest + after =~= rest);
    } else {
        let whole = rest + after;
        assert(whole.last() == after[after.len() - 1]);
        assert(whole.drop_last() =~= rest + after.drop_last());
        lemma_end_goes(rest, after.drop_last());
    }
}

/// Trimming takes away the white space around a text, all of it, and nothing
/// else.
pub proof fn trimming_takes_white_space(before: Seq<char>, core: Seq<char>, after: Seq<char>)
    requires
        forall|i: int| 0 <= i < before.len() ==> is_white(#[trigger] before[i]),
        forall|i: int| 0 <= i < after.len() ==> is_white(#[trigger] after[i]),
        core.len() > 0 ==> !is_white(core[0]) && !is_white(core[core.len() - 1]),
    ensures
        trimmed(before + core + after) == core,
{
    assert(before + core + after =~= before + (core + after));
    lemma_start_goes(before, core + after);
    if core.len() > 0 {
        assert((core + after)[0] == core[0]);
        lemma_end_goes(core, after);
    } else {
        assert(core + after =~= after + Seq::<char>::empty());
        lemma_start_goes(after, Seq::empty());
        assert(trimmed_start(core + after).len() == 0);
        assert(core =~= Seq::<char>::empty());
    }
}

/// A text is blank where it holds nothing but white space.
pub proof fn blank_texts_are_white(text: Seq<char>)
    ensures
        trimmed(text).len() == 0 <==> forall|i: int|
            0 <= i < text.len() ==> is_white(#[trigger] text[i]),
    decreases text.len(),
{
    if text.len() == 0 {
    } else if is_white(text[0]) {
        blank_texts_are_white(text.skip(1));
        assert(trimmed(text) == trimmed(text.skip(1)));
        if trimmed(text).len() == 0 {
            assert forall|i: int| 0 <= i < text.len() implies is_white(#[trigger] text[i]) by {
                if i > 0 {
                    assert(text.skip(1)[i - 1] == text[i]);
                }
            }
        }
        if forall|i: int| 0 <= i < text.len() ==> is_white(#[trigger] text[i]) {
            assert forall|i: int| 0 <= i < text.skip(1).len() implies is_white(
                #[trigger] text.skip(1)[i],
            ) by {
                assert(text[i + 1] == text.skip(1)[i]);
            }
        }
    } else {
        lemma_not_blank(text);
    }
}

/// Stripping a character takes away what there is of it at the end, all of it,
/// and nothing else.
pub proof fn stripping_takes_the_character(core: Seq<char>, tail: Seq<char>, c: char)
    requires
        forall|i: int| 0 <= i < tail.len() ==> #[trigger] tail[i] == c,
        core.len() > 0 ==> core[core.len() - 1] != c,
    ensures
        stripped_end(core + tail, c) == core,
    decreases tail.len(),
{
    if tail.len() == 0 {
        assert(core + tail =~= core);
    } else {
        let whole = core + tail;
        assert(whole.last() == tail[tail.len() - 1]);
        assert(whole.drop_last() =~= core + tail.drop_last());
        stripping_takes_the_character(core, tail.drop_last(), c);
    }
}

// --------------------------------------------------------------- searching

/// A text stands at the start of another that goes on after it, and of no other.
pub proof fn starts_are_followed_by_a_rest(text: Seq<char>, prefix: Seq<char>, rest: Seq<char>)
    ensures
        stands_at(prefix + rest, 0, prefix),
        stands_at(text, 0, prefix) ==> text == prefix + text.skip(prefix.len() as int),
{
    assert((prefix + rest).subrange(0, prefix.len() as int) =~= prefix);
    if stands_at(text, 0, prefix) {
        assert(text.subrange(0, prefix.len() as int) + text.skip(prefix.len() as int) =~= text);
    }
}

/// A pattern that a text does not hold takes nothing out of it, nor does an empty
/// one.
pub proof fn absent_patterns_take_nothing(text: Seq<char>, pattern: Seq<char>)
    requires
        pattern.len() > 0 ==> forall|i: int|
            0 <= i <= text.len() - pattern.len() ==> #[trigger] text.subrange(
                i,
                i + pattern.len(),
            ) != pattern,
    ensures
        without(text, pattern) == text,
    decreases text.len(),
{
    if pattern.len() > 0 && text.len() > 0 {
        if pattern.len() <= text.len() {
            assert(text.subrange(0int, 0int + pattern.len()) != pattern);
        }
        let rest = text.skip(1);
        assert forall|i: int| 0 <= i <= rest.len() - pattern.len() implies #[trigger] rest.subrange(
            i,
            i + pattern.len(),
        ) != pattern by {
            assert(rest.subrange(i, i + pattern.len()) =~= text.subrange(
                i + 1,
                i + 1 + pattern.len(),
            ));
        }
        absent_patterns_take_nothing(rest, pattern);
        assert(seq![text[0]] + rest =~= text);
    }
}

/// The first occurrence of a pattern is taken out, what stands before it stays,
/// and the search goes on behind it.
pub proof fn the_first_occurrence_goes(before: Seq<char>, pattern: Seq<char>, after: Seq<char>)
    requires
        pattern.len() > 0,
        forall|i: int|
            0 <= i < before.len() ==> #[trigger] (before + pattern + after).subrange(
                i,
                i + pattern.len(),
            ) != pattern,
    ensures
        without(before + pattern + after, pattern) == before + without(after, pattern),
    decreases before.len(),
{
    let whole = before + pattern + after;
    if before.len() == 0 {
        assert(whole.subrange(0, pattern.len() as int) =~= pattern);
        assert(whole.skip(pattern.len() as int) =~= after);
        assert(before + without(after, pattern) =~= without(after, pattern));
    } else {
        assert(whole.subrange(0int, 0int + pattern.len()) != pattern);
        let rest = before.skip(1);
        assert(whole.skip(1) =~= rest + pattern + after);
        assert forall|i: int| 0 <= i < rest.len() implies #[trigger] (rest + pattern
            + after).subrange(i, i + pattern.len()) != pattern by {
            assert((rest + pattern + after).subrange(i, i + pattern.len()) =~= whole.subrange(
                i + 1,
                i + 1 + pattern.len(),
            ));
        }
        the_first_occurrence_goes(rest, pattern, after);
        assert(seq![whole[0]] + (rest + without(after, pattern)) =~= before + without(
            after,
            pattern,
        ));
    }
}

/// A text is split at the first place of a character; one that does not hold it
/// is not split.
pub proof fn texts_are_split_at_the_first(before: Seq<char>, c: char, after: Seq<char>)
    requires
        forall|i: int| 0 <= i < before.len() ==> #[trigger] before[i] != c,
    ensures
        split_once(before + seq![c] + after, c) == Some((before, after)),
        split_once(before, c) is None,
{
    let whole = before + seq![c] + after;
    let at = before.len() as int;
    assert(whole[at] == c);
    assert forall|i: int| 0 <= i < at implies whole[i] != c by {
        assert(whole[i] == before[i]);
    }
    lemma_position_unique(whole, c, at);
    assert(whole.take(at) =~= before);
    assert(whole.skip(at + 1) =~= after);
    lemma_position_unique(before, c, at);
}

// ----------------------------------------------------------------- numbers

/// A number in decimal is its digits, the highest first: one more digit at the
/// end makes ten times the number, and the digit more.
pub proof fn decimals_are_digits(n: nat, d: nat)
    requires
        d < 10,
    ensures
        decimal(d) == seq![('0' as nat + d) as char],
        n > 0 ==> decimal(10 * n + d) == decimal(n).push(('0' as nat + d) as char),
        decimal(n)[0] == '0' ==> n == 0,
    decreases n,
{
    if n > 0 {
        assert((10 * n + d) / 10 == n && (10 * n + d) % 10 == d);
    }
    if n >= 10 {
        decimals_are_digits(n / 10, 0);
        decimal_reads_back(n / 10);
        assert(decimal(n)[0] == decimal(n / 10)[0]);
    } else {
        assert(decimal(n)[0] == ('0' as nat + n) as char);
    }
}

proof fn lemma_leading_zero(digits: Seq<char>)
    ensures
        digits_value(seq!['0'] + digits) == digits_value(digits),
    decreases digits.len(),
{
    let longer = seq!['0'] + digits;
    if digits.len() == 0 {
        assert(longer.drop_last() =~= Seq::<char>::empty());
        assert(longer.last() == '0');
        assert(digits_value(longer.drop_last()) == 0);
    } else {
        assert(longer.drop_last() =~= seq!['0'] + digits.drop_last());
        assert(longer.last() == digits.last());
        lemma_leading_zero(digits.drop_last());
    }
}

/// A number up to the bound is read out of its decimal form, with a plus sign
/// before it or a zero too; a greater one is not.
pub proof fn numbers_up_to_the_bound_are_read(n: nat, max: nat)
    ensures
        ({
            let read = if n <= max {
                Some(n)
            } else {
                None
            };
            &&& unsigned_number(decimal(n), max) == read
            &&& unsigned_number(seq!['+'] + decimal(n), max) == read
            &&& unsigned_number(seq!['0'] + decimal(n), max) == read
        }),
{
    decimal_reads_back(n);
    let digits = decimal(n);
    assert((seq!['+'] + digits).skip(1) =~= digits);
    let padded = seq!['0'] + digits;
    lemma_leading_zero(digits);
    assert forall|i: int| 0 <= i < padded.len() implies is_digit(#[trigger] padded[i]) by {
        if i > 0 {
            assert(padded[i] == digits[i - 1]);
        }
    }
    assert(padded[0] == '0');
}

/// A text that holds anything but digits behind its sign is no number, nor is
/// one without digits.
pub proof fn other_texts_are_no_numbers(text: Seq<char>, i: int, max: nat)
    requires
        0 <= i < text.len(),
        !('0' <= text[i] && text[i] <= '9'),
        i > 0 || (text[0] != '+' && text[0] != '-'),
    ensures
        unsigned_number(text, max) is None,
        signed_number(text) is None,
        unsigned_number(Seq::empty(), max) is None,
        unsigned_number(seq!['+'], max) is None,
        unsigned_number(seq!['-'], max) is None,
        signed_number(Seq::empty()) is None,
        signed_number(seq!['+']) is None,
        signed_number(seq!['-']) is None,
{
    assert(!is_digit(text[i]));
    assert(i > 0 ==> text.skip(1)[i - 1] == text[i]);
    assert(seq!['+'].skip(1).len() == 0);
    assert(seq!['-'].skip(1).len() == 0);
    assert(!is_digit(seq!['-'][0]));
}

/// A number of 64 bits is read out of its decimal form, and no other number is.
pub proof fn signed_numbers_are_read(n: int)
    ensures
        signed_number(signed_decimal(n)) == (if -0x8000_0000_0000_0000 <= n
            <= 0x7fff_ffff_ffff_ffff {
            Some(n)
        } else {
            None
        }),
        n >= 0 ==> signed_decimal(n) == decimal(n as nat),
        n < 0 ==> signed_decimal(n) == seq!['-'] + decimal((-n) as nat),
{
    if n < 0 {
        decimal_reads_back((-n) as nat);
        let text = signed_decimal(n);
        assert(text[0] == '-');
        assert(text.skip(1) =~= decimal((-n) as nat));
    } else {
        decimal_reads_back(n as nat);
    }
}

// --------------------------------------------------------------- documents

/// A member of a document is the one that the object has under that name; what
/// is no object has no members.
pub proof fn members_have_names(members: Map<Seq<char>, JsonView>, name: Seq<char>, other: JsonView)
    requires
        !(other is Object),
    ensures
        members.contains_key(name) ==> JsonView::Object(members).get(name) == Some(members[name]),
        !members.contains_key(name) ==> JsonView::Object(members).get(name) is None,
        other.get(name) is None,
        member_of(Some(JsonView::Object(members)), name) == JsonView::Object(members).get(name),
        member_of(Some(other), name) is None,
        member_of(None, name) is None,
{
}

/// The text of a document is that of a text, and the items those of an array;
/// other documents have none.
pub proof fn texts_and_arrays_are_told_apart(
    text: Seq<char>,
    items: Seq<JsonView>,
    other: JsonView,
)
    requires
        !(other is Text),
        !(other is Array),
    ensures
        text_of(Some(JsonView::Text(text))) == Some(text),
        text_of(Some(JsonView::Array(items))) is None,
        text_of(Some(other)) is None,
        text_of(None) is None,
        JsonView::Text(text).as_text() == Some(text),
        JsonView::Array(items).as_items() == Some(items),
        JsonView::Text(text).as_items() is None,
        other.as_text() is None,
        other.as_items() is None,
{
}

proof fn lemma_member_names(members: Seq<(String, Json)>, name: Seq<char>)
    ensures
        members_view(members).contains_key(name) ==> exists|j: int|
            0 <= j < members.len() && (#[trigger] members[j]).0@ == name,
    decreases members.len(),
{
    if members.len() > 0 && members_view(members).contains_key(name) {
        let head = members.drop_last();
        if members.last().0@ == name {
            assert(members[members.len() - 1].0@ == name);
        } else {
            lemma_member_names(head, name);
            let j = choose|j: int| 0 <= j < head.len() && (#[trigger] head[j]).0@ == name;
            assert(members[j].0@ == name);
        }
    }
}

/// Of several members of one name the last one counts, and there are no members
/// but those that are listed.
pub proof fn the_last_member_counts(members: Seq<(String, Json)>, i: int, name: Seq<char>)
    requires
        0 <= i < members.len(),
        forall|j: int| i < j < members.len() ==> (#[trigger] members[j]).0@ != members[i].0@,
    ensures
        members_view(members).contains_key(members[i].0@),
        members_view(members)[members[i].0@] == members[i].1@,
        members_view(members).contains_key(name) ==> exists|j: int|
            0 <= j < members.len() && (#[trigger] members[j]).0@ == name,
    decreases members.len(),
{
    let head = members.drop_last();
    let last = members.len() - 1;
    if i < last {
        assert(members[last].0@ != members[i].0@);
        assert(head[i] == members[i]);
        assert forall|j: int| i < j < head.len() implies (#[trigger] head[j]).0@ != head[i].0@ by {
            assert(members[j].0@ != members[i].0@);
        }
        the_last_member_counts(head, i, name);
    }
    lemma_member_names(members, name);
}

/// What a value names: a text that is not blank names itself, a number is named
/// by its canonical form, and nothing else names anything.
pub proof fn scalars_are_texts_and_numbers(text: Seq<char>, i: int, n: u64, m: i64, other: JsonView)
    requires
        0 <= i < text.len(),
        !is_white(text[i]),
        !(other is Text),
        !(other is Number),
    ensures
        JsonView::Text(text).scalar() == Some(text),
        JsonView::Number(NumberView::Unsigned(n)).scalar() == Some(decimal(n as nat)),
        JsonView::Number(NumberView::Negative(m)).scalar() == Some(signed_decimal(m as int)),
        JsonView::Number(NumberView::Other(text)).scalar() == Some(text),
        other.scalar() is None,
        scalar_of(None) is None,
        scalar_of(Some(JsonView::Text(text))) == Some(text),
{
    blank_texts_are_white(text);
}

/// A text of white space names nothing.
pub proof fn blank_texts_name_nothing(text: Seq<char>)
    requires
        forall|i: int| 0 <= i < text.len() ==> is_white(#[trigger] text[i]),
    ensures
        JsonView::Text(text).scalar() is None,
{
    blank_texts_are_white(text);
}

/// Of several values the first one that names anything counts, whatever comes
/// behind it.
pub proof fn the_first_name_counts(values: Seq<Option<JsonView>>, i: int)
    requires
        0 <= i < values.len(),
        forall|j: int| 0 <= j < i ==> scalar_of(#[trigger] values[j]) is None,
    ensures
        scalar_of(values[i]) is Some ==> first_scalar(values) == scalar_of(values[i]),
        i == values.len() - 1 && scalar_of(values[i]) is None ==> first_scalar(values) is None,
    decreases values.len(),
{
    if i > 0 {
        assert(scalar_of(values[0]) is None);
        let rest = values.skip(1);
        assert(rest[i - 1] == values[i]);
        assert forall|j: int| 0 <= j < i - 1 implies scalar_of(#[trigger] rest[j]) is None by {
            assert(rest[j] == values[j + 1]);
        }
        the_first_name_counts(rest, i - 1);
    } else if values.len() == 1 {
        assert(first_scalar(values.skip(1)) is None);
    }
}

/// What may be missing is told as it is where it is there, and as nothing where it
/// is not.
pub proof fn what_is_there_is_told(text: String, value: Json, name: Seq<char>)
    ensures
        opt_text(Some(text)) == Some(text@),
        opt_text(None) is None,
        opt_view(Some(&value)) == Some(value@),
        opt_view(None) is None,
        nullable(Some(name)) == JsonView::Text(name),
        nullable(None) == JsonView::Null,
{
}

/// Of several pairs of one name the last one counts; a name that no pair has is
/// not there.
pub proof fn the_last_pair_counts(pairs: Seq<(&str, &str)>, i: int, name: Seq<char>)
    requires
        -1 <= i < pairs.len(),
        i >= 0 ==> pairs[i].0@ == name,
        forall|j: int| i < j < pairs.len() ==> (#[trigger] pairs[j]).0@ != name,
    ensures
        i >= 0 ==> pairs_view(pairs).contains_key(name) && pairs_view(pairs)[name] == pairs[i].1@,
        i == -1 ==> !pairs_view(pairs).contains_key(name),
    decreases pairs.len(),
{
    if pairs.len() > 0 {
        let head = pairs.drop_last();
        let last = pairs.len() - 1;
        if i < last {
            assert(pairs[last].0@ != name);
            assert forall|j: int| i < j < head.len() implies (#[trigger] head[j]).0@ != name by {
                assert(head[j] == pairs[j]);
            }
            if i >= 0 {
                assert(head[i] == pairs[i]);
            }
            the_last_pair_counts(head, i, name);
        }
    }
}

/// An entry of a map of texts is the one that was made last under its name, and no
/// other entry changes.
pub proof fn entries_are_made(name: String, text: String, done: (), other: Seq<char>)
    ensures
        forall|map: &mut TextMap| #[trigger]
            call_ensures(TextMap::insert, (map, name, text), done) ==> {
                &&& final(map)@.contains_key(name@) && final(map)@[name@] == text@
                &&& other != name@ ==> (final(map)@.contains_key(other) <==> (
                *map)@.contains_key(other)) && ((*map)@.contains_key(other) ==> final(map)@[other]
                    == (*map)@[other])
            },
{
}

/// Merging takes the entries of the other map over, in place of those of the same
/// names, and keeps the rest.
pub proof fn maps_are_merged(source: &TextMap, done: (), name: Seq<char>)
    ensures
        forall|map: &mut TextMap| #[trigger]
            call_ensures(TextMap::merge_with, (map, source), done) ==> {
                &&& source@.contains_key(name) ==> final(map)@.contains_key(name)
                    && final(map)@[name] == source@[name]
                &&& !source@.contains_key(name) ==> (final(map)@.contains_key(name) <==> (
                *map)@.contains_key(name)) && ((*map)@.contains_key(name) ==> final(map)@[name]
                    == (*map)@[name])
            },
{
}

} // verus!
