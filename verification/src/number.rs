//! Whole numbers in decimal text.
use vstd::prelude::*;
use vstd::string::StringExecFns;

use crate::text::chars_of;

verus! {

/// Whether a character is one of the ten ASCII digits.
pub open spec fn is_digit(c: char) -> bool {
    '0' <= c <= '9'
}

/// The number that a run of digits stands for.
pub open spec fn digits_value(digits: Seq<char>) -> nat
    decreases digits.len(),
{
    if digits.len() == 0 {
        0
    } else {
        digits_value(digits.drop_last()) * 10 + (digits.last() as nat - '0' as nat) as nat
    }
}

/// The number that a text of digits stands for, where it is a text of at least
/// one digit and nothing else.
pub open spec fn plain_number(digits: Seq<char>) -> Option<nat> {
    if digits.len() > 0 && forall|i: int| 0 <= i < digits.len() ==> is_digit(#[trigger] digits[i]) {
        Some(digits_value(digits))
    } else {
        None
    }
}

/// The number up to `max` that a text stands for: digits, which a plus sign may
/// precede.
pub open spec fn unsigned_number(text: Seq<char>, max: nat) -> Option<nat> {
    let digits = if text.len() > 0 && text[0] == '+' {
        text.skip(1)
    } else {
        text
    };
    match plain_number(digits) {
        Some(n) if n <= max => Some(n),
        _ => None,
    }
}

/// The 64-bit number that a text stands for: digits, which a plus or a minus
/// sign may precede.
pub open spec fn signed_number(text: Seq<char>) -> Option<int> {
    if text.len() > 0 && text[0] == '-' {
        match plain_number(text.skip(1)) {
            Some(n) if n <= 0x8000_0000_0000_0000 => Some(-(n as int)),
            _ => None,
        }
    } else {
        match unsigned_number(text, i64::MAX as nat) {
            Some(n) => Some(n as int),
            None => None,
        }
    }
}

/// The digit of a number below ten.
pub open spec fn digit(n: nat) -> char {
    ('0' as nat + n) as char
}

/// A number in decimal, without leading zeros.
pub open spec fn decimal(n: nat) -> Seq<char>
    decreases n,
{
    if n < 10 {
        seq![digit(n)]
    } else {
        decimal(n / 10).push(digit(n % 10))
    }
}

/// A number in decimal, with a minus sign where it is negative.
pub open spec fn signed_decimal(n: int) -> Seq<char> {
    if n < 0 {
        seq!['-'] + decimal((-n) as nat)
    } else {
        decimal(n as nat)
    }
}

proof fn lemma_digits_value_grows(digits: Seq<char>, to: int)
    requires
        0 <= to <= digits.len(),
    ensures
        digits_value(digits.take(to)) <= digits_value(digits),
    decreases digits.len(),
{
    if to < digits.len() {
        lemma_digits_value_grows(digits.drop_last(), to);
        assert(digits.drop_last().take(to) =~= digits.take(to));
    } else {
        assert(digits.take(to) =~= digits);
    }
}

/// Reads the digits from `from` to the end as a number up to `max`.
fn parse_digits(chars: &Vec<char>, from: usize, max: u64) -> (r: Option<u64>)
    requires
        from <= chars@.len(),
    ensures
        match (r, plain_number(chars@.skip(from as int))) {
            (Some(n), Some(m)) => n == m && m <= max,
            (None, Some(m)) => m > max,
            (r, None) => r is None,
        },
{
    let ghost digits = chars@.skip(from as int);
    if from == chars.len() {
        return None;
    }
    let mut value: u128 = 0;
    let mut over: bool = false;
    let mut i: usize = from;
    assert(digits.take(0) =~= Seq::<char>::empty());
    while i < chars.len()
        invariant
            from <= i <= chars@.len(),
            digits == chars@.skip(from as int),
            forall|j: int| 0 <= j < i - from ==> is_digit(#[trigger] digits[j]),
            !over ==> value == digits_value(digits.take(i - from)) && value <= max,
            over ==> digits_value(digits.take(i - from)) > max,
        decreases chars@.len() - i,
    {
        let c = chars[i];
        assert(digits[i - from] == c);
        if !('0' <= c && c <= '9') {
            return None;
        }
        let step: u128 = (c as u32 - '0' as u32) as u128;
        proof {
            let longer = digits.take(i - from + 1);
            assert(longer.drop_last() =~= digits.take(i - from));
            assert(longer.last() == c);
        }
        if !over {
            value = value * 10 + step;
            if value > max as u128 {
                over = true;
            }
        }
        i += 1;
    }
    assert(digits.take(i - from) =~= digits);
    if over {
        None
    } else {
        Some(value as u64)
    }
}

/// Reads a number up to `max`.
pub fn parse_unsigned(text: &str, max: u64) -> (r: Option<u64>)
    ensures
        match unsigned_number(text@, max as nat) {
            Some(n) => r == Some(n as u64) && n <= max,
            None => r is None,
        },
{
    let chars = chars_of(text);
    assert(chars@.skip(0) =~= chars@);
    if chars.len() > 0 && chars[0] == '+' {
        parse_digits(&chars, 1, max)
    } else {
        parse_digits(&chars, 0, max)
    }
}

/// Reads a number that may be negative.
pub fn parse_signed(text: &str) -> (r: Option<i64>)
    ensures
        match signed_number(text@) {
            Some(n) => r == Some(n as i64) && i64::MIN <= n <= i64::MAX,
            None => r is None,
        },
{
    let chars = chars_of(text);
    if chars.len() > 0 && chars[0] == '-' {
        match parse_digits(&chars, 1, 0x8000_0000_0000_0000) {
            Some(n) => Some((0 - n as i128) as i64),
            None => None,
        }
    } else {
        match parse_unsigned(text, i64::MAX as u64) {
            Some(n) => Some(n as i64),
            None => None,
        }
    }
}

/// Writes a number in decimal.
pub fn decimal_text(n: u64) -> (r: String)
    ensures
        r@ == decimal(n as nat),
    decreases n,
{
    let last: u8 = (n % 10) as u8;
    let mut out = if n < 10 {
        String::new()
    } else {
        decimal_text(n / 10)
    };
    out.push((48u8 + last) as char);
    assert(n < 10 ==> out@ =~= seq![digit(n as nat)]);
    out
}

/// Writes a number in decimal, with a minus sign where it is negative.
pub fn signed_text(n: i64) -> (r: String)
    ensures
        r@ == signed_decimal(n as int),
{
    if n < 0 {
        let mut out = String::new();
        out.push('-');
        let magnitude = decimal_text((0 - n as i128) as u64);
        out.append(magnitude.as_str());
        assert(out@ =~= seq!['-'] + decimal((-n) as nat));
        out
    } else {
        decimal_text(n as u64)
    }
}

/// What is written in decimal reads back as the same number.
pub proof fn decimal_reads_back(n: nat)
    ensures
        plain_number(decimal(n)) == Some(n),
        decimal(n).len() > 0,
        decimal(n)[0] != '+',
        decimal(n)[0] != '-',
    decreases n,
{
    if n < 10 {
        let d = seq![digit(n)];
        assert(d.drop_last() =~= Seq::<char>::empty());
        assert(d[0] == digit(n));
        assert(digits_value(d.drop_last()) == 0);
        assert(digits_value(d) == n);
    } else {
        decimal_reads_back(n / 10);
        let d = decimal(n);
        let head = decimal(n / 10);
        assert(d.drop_last() =~= head);
        assert(d.last() == digit(n % 10));
        assert forall|i: int| 0 <= i < d.len() implies is_digit(#[trigger] d[i]) by {
            if i < head.len() {
                assert(d[i] == head[i]);
            }
        }
        assert(d[0] == head[0]);
    }
}

} // verus!
