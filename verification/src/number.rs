//! Whole numbers written as text.

use vstd::prelude::*;
use vstd::string::*;

verus! {

/// Whether `c` is one of the digits `0` to `9`.
pub open spec fn is_digit(c: char) -> bool {
    '0' <= c && c <= '9'
}

/// The number that the digits spell, read in base ten.
pub open spec fn digits_value(digits: Seq<char>) -> int
    decreases digits.len(),
{
    if digits.len() == 0 {
        0
    } else {
        digits_value(digits.drop_last()) * 10 + (digits.last() as int - '0' as int)
    }
}

/// Whether `text` is made of digits, at least one.
pub open spec fn is_digits(text: Seq<char>) -> bool {
    text.len() > 0 && forall|i: int| 0 <= i < text.len() ==> is_digit(#[trigger] text[i])
}

/// The whole number that `text` spells: digits in base ten, with a minus
/// sign before them for a negative number.  Nothing else is a number.
pub open spec fn number_in(text: Seq<char>) -> Option<int> {
    if text.len() > 0 && text[0] == '-' {
        if is_digits(text.skip(1)) {
            Some(-digits_value(text.skip(1)))
        } else {
            None
        }
    } else if is_digits(text) {
        Some(digits_value(text))
    } else {
        None
    }
}

/// The digits of a number spell no less than its first digits do.
pub proof fn lemma_digits_grow(digits: Seq<char>, upto: int)
    requires
        0 <= upto <= digits.len(),
        forall|i: int| 0 <= i < digits.len() ==> is_digit(#[trigger] digits[i]),
    ensures
        0 <= digits_value(digits.take(upto)) <= digits_value(digits),
    decreases digits.len() - upto,
{
    if upto == digits.len() {
        assert(digits.take(upto) == digits);
        lemma_digits_not_negative(digits);
    } else {
        assert(digits.take(upto + 1).drop_last() == digits.take(upto));
        lemma_digits_not_negative(digits.take(upto));
        lemma_digits_grow(digits, upto + 1);
    }
}

/// Digits spell a number that is not negative.
pub proof fn lemma_digits_not_negative(digits: Seq<char>)
    requires
        forall|i: int| 0 <= i < digits.len() ==> is_digit(#[trigger] digits[i]),
    ensures
        digits_value(digits) >= 0,
    decreases digits.len(),
{
    if digits.len() > 0 {
        assert forall|i: int| 0 <= i < digits.drop_last().len() implies is_digit(
            #[trigger] digits.drop_last()[i],
        ) by {}
        lemma_digits_not_negative(digits.drop_last());
    }
}

/// The whole number that `text` spells, where it spells one that fits.
pub fn parse_number(text: &str) -> (number: Option<i64>)
    ensures
        number == match number_in(text@) {
            Some(value) => if i64::MIN <= value <= i64::MAX {
                Some(value as i64)
            } else {
                None
            },
            None => None::<i64>,
        },
{
    let total: usize = text.unicode_len();
    if total == 0 {
        return None;
    }
    let negative = text.get_char(0) == '-';
    let first: usize = if negative {
        1
    } else {
        0
    };
    if first == total {
        return None;
    }
    let ghost digits = if negative {
        text@.skip(1)
    } else {
        text@
    };
    let limit: u64 = 0x8000_0000_0000_0000;
    let mut value: u64 = 0;
    let mut at: usize = first;
    while at < total
        invariant
            total == text@.len(),
            first <= at <= total,
            first < total,
            first == (if negative {
                1usize
            } else {
                0usize
            }),
            negative == (text@[0] == '-'),
            digits == (if negative {
                text@.skip(1)
            } else {
                text@
            }),
            limit == 0x8000_0000_0000_0000,
            value <= limit,
            forall|i: int| 0 <= i < at - first ==> is_digit(#[trigger] digits[i]),
            value == digits_value(digits.take(at - first)),
        decreases total - at,
    {
        let c = text.get_char(at);
        proof {
            assert(digits[at - first] == c);
            assert(digits.take(at - first + 1).drop_last() == digits.take(at - first));
        }
        if c < '0' || c > '9' {
            return None;
        }
        let digit: u64 = (c as u32 - '0' as u32) as u64;
        if value > (limit - digit) / 10 {
            proof {
                if is_digits(digits) {
                    lemma_digits_grow(digits, at - first + 1);
                }
            }
            return None;
        }
        value = value * 10 + digit;
        at = at + 1;
    }
    proof {
        assert(digits.take(at - first) == digits);
    }
    if negative {
        if value == limit {
            Some(i64::MIN)
        } else {
            Some(0 - (value as i64))
        }
    } else if value == limit {
        None
    } else {
        Some(value as i64)
    }
}

} // verus!
