//! What holds of the numbers in the query of an address.
use vstd::prelude::*;

use crate::number::unsigned_number;
use crate::text::{lemma_position_unique, split_once};
use crate::text_laws::texts_are_split_at_the_first;

use super::query::{pair_number, query_number, url_number};

verus! {

/// The query of an address starts behind its first question mark; an address
/// without one gives no number.
pub proof fn queries_start_behind_the_mark(base: Seq<char>, query: Seq<char>, key: Seq<char>)
    requires
        forall|i: int| 0 <= i < base.len() ==> #[trigger] base[i] != '?',
    ensures
        url_number(base, key) is None,
        url_number(base + seq!['?'] + query, key) == query_number(query, key),
{
    texts_are_split_at_the_first(base, '?', query);
}

/// The first pair of a query, and what follows it.
proof fn lemma_first_pair(pair: Seq<char>, rest: Seq<char>, key: Seq<char>)
    requires
        forall|i: int| 0 <= i < pair.len() ==> #[trigger] pair[i] != '&',
    ensures
        query_number(pair, key) == pair_number(pair, key),
        query_number(pair + seq!['&'] + rest, key) == (match pair_number(pair, key) {
            Some(n) => Some(n),
            None => query_number(rest, key),
        }),
{
    let whole = pair + seq!['&'] + rest;
    let at = pair.len() as int;
    assert(whole[at] == '&');
    assert forall|i: int| 0 <= i < at implies whole[i] != '&' by {
        assert(whole[i] == pair[i]);
    }
    lemma_position_unique(whole, '&', at);
    lemma_position_unique(pair, '&', at);
    assert(whole.take(at) =~= pair);
    assert(whole.skip(at + 1) =~= rest);
    assert(pair.take(at) =~= pair);
}

/// A pair that gives the name a 32-bit number decides, whatever comes behind it. A
/// pair of another name, or with another value, is passed over.
pub proof fn the_first_number_of_the_name_counts(
    base: Seq<char>,
    name: Seq<char>,
    value: Seq<char>,
    rest: Seq<char>,
    key: Seq<char>,
)
    requires
        forall|i: int| 0 <= i < base.len() ==> #[trigger] base[i] != '?',
        forall|i: int|
            0 <= i < name.len() ==> #[trigger] name[i] != '=' && name[i] != '&',
        forall|i: int| 0 <= i < value.len() ==> #[trigger] value[i] != '&',
    ensures
        ({
            let pair = name + seq!['='] + value;
            let number = if name == key {
                unsigned_number(value, 4_294_967_295)
            } else {
                None
            };
            &&& url_number(base + seq!['?'] + pair, key) == number
            &&& number is Some ==> url_number(
                base + seq!['?'] + (pair + seq!['&'] + rest),
                key,
            ) == number
            &&& number is None ==> url_number(
                base + seq!['?'] + (pair + seq!['&'] + rest),
                key,
            ) == url_number(base + seq!['?'] + rest, key)
        }),
{
    let pair = name + seq!['='] + value;
    texts_are_split_at_the_first(name, '=', value);
    assert forall|i: int| 0 <= i < pair.len() implies #[trigger] pair[i] != '&' by {
        if i < name.len() {
            assert(pair[i] == name[i]);
        } else if i > name.len() {
            assert(pair[i] == value[i - name.len() - 1]);
        }
    }
    lemma_first_pair(pair, rest, key);
    queries_start_behind_the_mark(base, pair, key);
    queries_start_behind_the_mark(base, pair + seq!['&'] + rest, key);
    queries_start_behind_the_mark(base, rest, key);
}

/// What is no pair of a name and a value is passed over.
pub proof fn words_without_a_value_are_passed_over(
    base: Seq<char>,
    word: Seq<char>,
    rest: Seq<char>,
    key: Seq<char>,
)
    requires
        forall|i: int| 0 <= i < base.len() ==> #[trigger] base[i] != '?',
        forall|i: int| 0 <= i < word.len() ==> #[trigger] word[i] != '=' && word[i] != '&',
    ensures
        url_number(base + seq!['?'] + word, key) is None,
        url_number(base + seq!['?'] + (word + seq!['&'] + rest), key) == url_number(
            base + seq!['?'] + rest,
            key,
        ),
{
    texts_are_split_at_the_first(word, '=', rest);
    assert(split_once(word, '=') is None);
    lemma_first_pair(word, rest, key);
    queries_start_behind_the_mark(base, word, key);
    queries_start_behind_the_mark(base, word + seq!['&'] + rest, key);
    queries_start_behind_the_mark(base, rest, key);
}

} // verus!
