//! Numbers in the query of an address.
use vstd::prelude::*;

use crate::number::{parse_unsigned, unsigned_number};
use crate::text::{chars_of, find, position, same_text, split_once, text_between};

verus! {

/// The number that a `name=value` pair of that name gives.
pub open spec fn pair_number(pair: Seq<char>, key: Seq<char>) -> Option<nat> {
    match split_once(pair, '=') {
        Some((name, value)) if name == key => unsigned_number(value, u32::MAX as nat),
        _ => None,
    }
}

/// The number that the first pair of that name with a number as its value gives.
pub open spec fn query_number(query: Seq<char>, key: Seq<char>) -> Option<nat>
    decreases query.len(),
{
    let end = position(query, '&') as int;
    match pair_number(query.take(end), key) {
        Some(n) => Some(n),
        None => if end < query.len() {
            query_number(query.skip(end + 1), key)
        } else {
            None
        },
    }
}

/// The number that the query of an address gives under a name.
pub open spec fn url_number(url: Seq<char>, key: Seq<char>) -> Option<nat> {
    match split_once(url, '?') {
        Some((_, query)) => query_number(query, key),
        None => None,
    }
}

/// Reads the number that stands under a name in the query of an address. Pairs
/// whose value is no 32-bit number are passed over.
pub fn parse_query_u32(url: &str, key: &str) -> (r: Option<u32>)
    ensures
        match url_number(url@, key@) {
            Some(n) => n <= u32::MAX && r == Some(n as u32),
            None => r is None,
        },
{
    let chars = chars_of(url);
    let end: usize = chars.len();
    let mark = find(&chars, 0, end, '?');
    assert(chars@.subrange(0, end as int) =~= url@);
    if mark == end {
        return None;
    }
    let mut from: usize = mark + 1;
    assert(chars@.subrange(from as int, end as int) =~= url@.skip(mark + 1));
    loop
        invariant
            from <= end,
            end == chars@.len(),
            url_number(url@, key@) == query_number(chars@.subrange(from as int, end as int), key@),
        decreases end - from,
    {
        let ghost query = chars@.subrange(from as int, end as int);
        let to = find(&chars, from, end, '&');
        let equals = find(&chars, from, to, '=');
        let ghost pair = chars@.subrange(from as int, to as int);
        assert(query.take(to - from) =~= pair);
        if equals < to {
            let name = text_between(&chars, from, equals);
            assert(pair.take(equals - from) =~= name@);
            if same_text(name.as_str(), key) {
                let value = text_between(&chars, equals + 1, to);
                assert(pair.skip(equals - from + 1) =~= value@);
                if let Some(n) = parse_unsigned(value.as_str(), u32::MAX as u64) {
                    return Some(n as u32);
                }
            }
        }
        if to == end {
            return None;
        }
        assert(query.skip(to - from + 1) =~= chars@.subrange(to + 1, end as int));
        from = to + 1;
    }
}

} // verus!
