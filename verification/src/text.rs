//! Text as a sequence of characters: trimming, searching, removing.
use vstd::prelude::*;
use vstd::string::StringExecFns;

verus! {

/// The `White_Space` property of Unicode.
pub open spec fn is_white(c: char) -> bool {
    let n = c as u32;
    ||| 0x9 <= n <= 0xd
    ||| n == 0x20
    ||| n == 0x85
    ||| n == 0xa0
    ||| n == 0x1680
    ||| 0x2000 <= n <= 0x200a
    ||| n == 0x2028
    ||| n == 0x2029
    ||| n == 0x202f
    ||| n == 0x205f
    ||| n == 0x3000
}

/// `char::is_whitespace` tells whether a character has the Unicode property
/// `White_Space`.
pub assume_specification[ char::is_whitespace ](c: char) -> (r: bool)
    ensures
        r == is_white(c),
;

/// `String::push` appends one character.
pub assume_specification[ String::push ](text: &mut String, c: char)
    ensures
        final(text)@ == old(text)@.push(c),
;

/// `String::from` copies the characters of a text.
pub assume_specification<'a>[ <String as std::convert::From<&'a str>>::from ](text: &str) -> (r:
    String)
    ensures
        r@ == text@,
;

/// `From` of a type for itself gives its argument back.
pub assume_specification<A>[ <A as std::convert::From<A>>::from ](value: A) -> (r: A)
    ensures
        r == value,
;

/// Whether two texts hold the same characters.
pub fn same_text(a: &str, b: &str) -> (r: bool)
    ensures
        r == (a@ == b@),
{
    a.to_owned() == b.to_owned()
}

/// The characters of a text.
pub fn chars_of(text: &str) -> (r: Vec<char>)
    ensures
        r@ == text@,
{
    let mut out: Vec<char> = Vec::new();
    for c in it: text.chars()
        invariant
            out@ == it.seq().take(it.index() as int),
            it.seq() == text@,
    {
        out.push(c);
    }
    out
}

/// The characters from `from` to `to` as a text.
pub fn text_between(chars: &Vec<char>, from: usize, to: usize) -> (r: String)
    requires
        from <= to <= chars@.len(),
    ensures
        r@ == chars@.subrange(from as int, to as int),
{
    let mut out = String::new();
    let mut i: usize = from;
    while i < to
        invariant
            from <= i <= to <= chars@.len(),
            out@ == chars@.subrange(from as int, i as int),
        decreases to - i,
    {
        out.push(chars[i]);
        i += 1;
        assert(out@ =~= chars@.subrange(from as int, i as int));
    }
    out
}

/// The text followed by the other.
pub fn joined(first: &str, second: &str) -> (r: String)
    ensures
        r@ == first@ + second@,
{
    let mut out = first.to_owned();
    out.append(second);
    out
}

// ---------------------------------------------------------------- trimming

/// The text without the white space it starts with.
pub open spec fn trimmed_start(text: Seq<char>) -> Seq<char>
    decreases text.len(),
{
    if text.len() > 0 && is_white(text[0]) {
        trimmed_start(text.skip(1))
    } else {
        text
    }
}

/// The text without the white space it ends with.
pub open spec fn trimmed_end(text: Seq<char>) -> Seq<char>
    decreases text.len(),
{
    if text.len() > 0 && is_white(text.last()) {
        trimmed_end(text.drop_last())
    } else {
        text
    }
}

/// The text without the white space around it.
pub open spec fn trimmed(text: Seq<char>) -> Seq<char> {
    trimmed_end(trimmed_start(text))
}

/// The text without any `c` at its end.
pub open spec fn stripped_end(text: Seq<char>, c: char) -> Seq<char>
    decreases text.len(),
{
    if text.len() > 0 && text.last() == c {
        stripped_end(text.drop_last(), c)
    } else {
        text
    }
}

proof fn lemma_trimmed_start(text: Seq<char>)
    ensures
        trimmed_start(text).len() == 0 || !is_white(trimmed_start(text)[0]),
    decreases text.len(),
{
    if text.len() > 0 && is_white(text[0]) {
        lemma_trimmed_start(text.skip(1));
    }
}

proof fn lemma_trimmed_end(text: Seq<char>)
    ensures
        trimmed_end(text).len() <= text.len(),
        trimmed_end(text) == text.take(trimmed_end(text).len() as int),
        trimmed_end(text).len() == 0 || !is_white(trimmed_end(text).last()),
    decreases text.len(),
{
    if text.len() > 0 && is_white(text.last()) {
        lemma_trimmed_end(text.drop_last());
        assert(text.take(trimmed_end(text).len() as int) =~= text.drop_last().take(
            trimmed_end(text).len() as int,
        ));
    } else {
        assert(text.take(text.len() as int) =~= text);
    }
}

/// A trimmed text has no white space at its ends, and trimming it again leaves
/// it as it is.
pub proof fn trimmed_twice(text: Seq<char>)
    ensures
        trimmed(trimmed(text)) == trimmed(text),
        trimmed(text).len() > 0 ==> !is_white(trimmed(text)[0]) && !is_white(trimmed(text).last()),
{
    lemma_trimmed_start(text);
    lemma_trimmed_end(trimmed_start(text));
    if trimmed(text).len() > 0 {
        assert(trimmed(text)[0] == trimmed_start(text)[0]);
    }
}

proof fn lemma_trimmed_end_keeps_first(text: Seq<char>)
    requires
        text.len() > 0,
        !is_white(text[0]),
    ensures
        trimmed_end(text).len() > 0,
    decreases text.len(),
{
    if is_white(text.last()) {
        assert(text.drop_last()[0] == text[0]);
        lemma_trimmed_end_keeps_first(text.drop_last());
    }
}

/// A text that starts with something else than white space is not blank.
pub(crate) proof fn lemma_not_blank(text: Seq<char>)
    requires
        text.len() > 0,
        !is_white(text[0]),
    ensures
        trimmed(text).len() > 0,
{
    lemma_trimmed_end_keeps_first(text);
}

/// Removes the white space around a text.
pub fn trim(text: &str) -> (r: String)
    ensures
        r@ == trimmed(text@),
{
    let chars = chars_of(text);
    let mut from: usize = 0;
    assert(chars@.skip(0) =~= text@);
    while from < chars.len() && chars[from].is_whitespace()
        invariant
            from <= chars@.len(),
            trimmed_start(text@) == trimmed_start(chars@.skip(from as int)),
        decreases chars@.len() - from,
    {
        assert(chars@.skip(from as int).skip(1) =~= chars@.skip(from + 1));
        from += 1;
    }
    let ghost start = chars@.skip(from as int);
    assert(start == trimmed_start(text@));
    let mut to: usize = chars.len();
    assert(chars@.subrange(from as int, to as int) =~= start);
    while to > from && chars[to - 1].is_whitespace()
        invariant
            from <= to <= chars@.len(),
            trimmed_end(start) == trimmed_end(chars@.subrange(from as int, to as int)),
        decreases to,
    {
        assert(chars@.subrange(from as int, to as int).drop_last() =~= chars@.subrange(
            from as int,
            to - 1,
        ));
        to -= 1;
    }
    text_between(&chars, from, to)
}

/// Removes every `c` at the end of a text.
pub fn strip_end(text: &str, c: char) -> (r: String)
    ensures
        r@ == stripped_end(text@, c),
{
    let chars = chars_of(text);
    let mut to: usize = chars.len();
    assert(chars@.subrange(0, to as int) =~= text@);
    while to > 0 && chars[to - 1] == c
        invariant
            to <= chars@.len(),
            stripped_end(text@, c) == stripped_end(chars@.subrange(0, to as int), c),
        decreases to,
    {
        assert(chars@.subrange(0, to as int).drop_last() =~= chars@.subrange(0, to - 1));
        to -= 1;
    }
    text_between(&chars, 0, to)
}

/// Whether a text holds nothing but white space.
pub fn is_blank(text: &str) -> (r: bool)
    ensures
        r == (trimmed(text@).len() == 0),
{
    trim(text).as_str().is_empty()
}

// --------------------------------------------------------------- searching

/// Whether `prefix` stands in `text` at `at`.
pub open spec fn stands_at(text: Seq<char>, at: int, prefix: Seq<char>) -> bool {
    at + prefix.len() <= text.len() && text.subrange(at, at + prefix.len()) == prefix
}

fn matches_at(text: &Vec<char>, at: usize, prefix: &Vec<char>) -> (r: bool)
    requires
        at <= text@.len(),
    ensures
        r == stands_at(text@, at as int, prefix@),
{
    if prefix.len() > text.len() - at {
        return false;
    }
    let mut i: usize = 0;
    while i < prefix.len()
        invariant
            i <= prefix@.len(),
            at + prefix@.len() <= text.len(),
            forall|j: int| 0 <= j < i ==> text@[at + j] == prefix@[j],
        decreases prefix@.len() - i,
    {
        if text[at + i] != prefix[i] {
            assert(text@.subrange(at as int, at + prefix@.len())[i as int] == text@[at + i]);
            return false;
        }
        i += 1;
    }
    assert(text@.subrange(at as int, at + prefix@.len()) =~= prefix@);
    true
}

/// Whether a text starts with another.
pub fn starts_with(text: &str, prefix: &str) -> (r: bool)
    ensures
        r == stands_at(text@, 0, prefix@),
{
    matches_at(&chars_of(text), 0, &chars_of(prefix))
}

/// The text without the occurrences of the pattern, which are looked for from
/// the left and do not overlap. An empty pattern takes nothing out.
pub open spec fn without(text: Seq<char>, pattern: Seq<char>) -> Seq<char>
    decreases text.len(),
{
    if pattern.len() == 0 || text.len() == 0 {
        text
    } else if stands_at(text, 0, pattern) {
        without(text.skip(pattern.len() as int), pattern)
    } else {
        seq![text[0]] + without(text.skip(1), pattern)
    }
}

/// Takes every occurrence of the pattern out of a text.
pub fn remove_all(text: &str, pattern: &str) -> (r: String)
    ensures
        r@ == without(text@, pattern@),
{
    let chars = chars_of(text);
    let pattern = chars_of(pattern);
    if pattern.len() == 0 {
        return text.to_owned();
    }
    let mut out = String::new();
    let mut i: usize = 0;
    assert(chars@.skip(0) =~= text@);
    while i < chars.len()
        invariant
            i <= chars@.len(),
            pattern@.len() > 0,
            without(text@, pattern@) == out@ + without(chars@.skip(i as int), pattern@),
        decreases chars@.len() - i,
    {
        let ghost rest = chars@.skip(i as int);
        assert(i + pattern@.len() <= chars@.len() ==> rest.subrange(0, pattern@.len() as int)
            =~= chars@.subrange(i as int, i + pattern@.len()));
        if matches_at(&chars, i, &pattern) {
            assert(rest.skip(pattern@.len() as int) =~= chars@.skip(i + pattern@.len()));
            i += pattern.len();
        } else {
            assert(rest.skip(1) =~= chars@.skip(i + 1));
            let ghost before = out@;
            out.push(chars[i]);
            assert(out@ + without(chars@.skip(i + 1), pattern@) =~= before + (seq![rest[0]]
                + without(rest.skip(1), pattern@)));
            i += 1;
        }
    }
    assert(out@ + without(chars@.skip(i as int), pattern@) =~= out@);
    out
}

/// Where `c` first stands in a text; the length of the text where it does not.
pub open spec fn position(text: Seq<char>, c: char) -> nat
    decreases text.len(),
{
    if text.len() == 0 || text[0] == c {
        0
    } else {
        1 + position(text.skip(1), c)
    }
}

/// What stands before and after the first `c` of a text that has one.
pub open spec fn split_once(text: Seq<char>, c: char) -> Option<(Seq<char>, Seq<char>)> {
    let at = position(text, c) as int;
    if at < text.len() {
        Some((text.take(at), text.skip(at + 1)))
    } else {
        None
    }
}

pub(crate) proof fn lemma_position(text: Seq<char>, c: char)
    ensures
        0 <= position(text, c) <= text.len(),
        forall|i: int| 0 <= i < position(text, c) ==> text[i] != c,
        position(text, c) < text.len() ==> text[position(text, c) as int] == c,
    decreases text.len(),
{
    if text.len() > 0 && text[0] != c {
        lemma_position(text.skip(1), c);
        assert forall|i: int| 0 <= i < position(text, c) implies text[i] != c by {
            if i > 0 {
                assert(text[i] == text.skip(1)[i - 1]);
            }
        }
    }
}

/// A position is the only one with no `c` before it and a `c`, or the end, at it.
pub(crate) proof fn lemma_position_unique(text: Seq<char>, c: char, at: int)
    requires
        0 <= at <= text.len(),
        forall|i: int| 0 <= i < at ==> text[i] != c,
        at < text.len() ==> text[at] == c,
    ensures
        position(text, c) == at,
{
    lemma_position(text, c);
    let p = position(text, c) as int;
    if p < at {
        assert(text[p] != c);
    }
}

/// Looks for `c` between `from` and `to`.
pub(crate) fn find(chars: &Vec<char>, from: usize, to: usize, c: char) -> (r: usize)
    requires
        from <= to <= chars@.len(),
    ensures
        from <= r <= to,
        r - from == position(chars@.subrange(from as int, to as int), c),
{
    let mut i: usize = from;
    while i < to && chars[i] != c
        invariant
            from <= i <= to <= chars@.len(),
            forall|j: int| from <= j < i ==> chars@[j] != c,
        decreases to - i,
    {
        i += 1;
    }
    proof {
        lemma_position_unique(chars@.subrange(from as int, to as int), c, i - from);
    }
    i
}

} // verus!
