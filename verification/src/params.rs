//! Path parameters: the identifiers that a request names.

use crate::error::CatalogError;
use vstd::prelude::*;

verus! {

/// The value of a decimal digit; none for any other character.
pub open spec fn digit(c: char) -> Option<int> {
    if '0' <= c && c <= '9' {
        Some(c as int - '0' as int)
    } else {
        None
    }
}

/// The number that a run of decimal digits denotes, the empty run denoting
/// zero; none where a character is not a digit.
pub open spec fn digits(text: Seq<char>) -> Option<int>
    decreases text.len(),
{
    if text.len() == 0 {
        Some(0)
    } else {
        match (digits(text.drop_last()), digit(text.last())) {
            (Some(front), Some(unit)) => Some(10 * front + unit),
            _ => None,
        }
    }
}

/// The integer that `text` denotes: at least one decimal digit, behind at
/// most one sign, and nothing else.
pub open spec fn decimal(text: Seq<char>) -> Option<int> {
    if text.len() == 0 {
        None
    } else if text[0] == '-' || text[0] == '+' {
        match digits(text.skip(1)) {
            Some(number) if text.len() > 1 => Some(
                if text[0] == '-' {
                    -number
                } else {
                    number
                },
            ),
            _ => None,
        }
    } else {
        digits(text)
    }
}

/// The identifier that `text` denotes: an integer within the range of the
/// store's identifiers.
pub open spec fn id_of(text: Seq<char>) -> Option<int> {
    match decimal(text) {
        Some(number) if i32::MIN <= number <= i32::MAX => Some(number),
        _ => None,
    }
}

/// A run of digits denotes no less than any of its beginnings, and each of
/// its characters is a digit.
pub proof fn lemma_digits_grow(text: Seq<char>, upto: int)
    requires
        0 <= upto <= text.len(),
        digits(text) is Some,
    ensures
        digits(text.take(upto)) is Some,
        0 <= digits(text.take(upto))->0 <= digits(text)->0,
        upto < text.len() ==> digit(text[upto]) is Some,
    decreases text.len(),
{
    if upto == text.len() {
        assert(text.take(upto) =~= text);
        if text.len() > 0 {
            lemma_digits_grow(text.drop_last(), text.len() - 1);
            assert(text.drop_last().take(text.len() - 1) =~= text.drop_last());
        }
    } else {
        lemma_digits_grow(text.drop_last(), upto);
        assert(text.drop_last().take(upto) =~= text.take(upto));
        lemma_digits_grow(text.drop_last(), text.len() - 1);
        assert(text.drop_last().take(text.len() - 1) =~= text.drop_last());
    }
}

/// Reads a path parameter as an identifier. It is malformed, and the
/// request is refused with `InvalidInput`, unless it is a decimal integer
/// that an identifier can hold.
pub fn parse_id(raw: &str) -> (id: Result<i32, CatalogError>)
    ensures
        match id_of(raw@) {
            Some(number) => id == Ok::<i32, CatalogError>(number as i32),
            None => id == Err::<i32, CatalogError>(CatalogError::InvalidInput),
        },
{
    let ghost text = raw@;
    let mut signed = false;
    let mut negative = false;
    let mut any_digit = false;
    let mut first = true;
    let mut value: i64 = 0;
    for c in it: raw.chars()
        invariant
            text == raw@,
            it.seq() == text,
            first == (it.index() == 0),
            signed ==> it.index() >= 1 && (text[0] == '-' || text[0] == '+'),
            !signed && it.index() >= 1 ==> !(text[0] == '-' || text[0] == '+'),
            negative == (signed && text[0] == '-'),
            any_digit == (it.index() > (if signed { 1int } else { 0int })),
            digits(text.subrange(if signed { 1int } else { 0int }, it.index() as int)) == Some(
                value as int,
            ),
            0 <= value <= 2147483648,
    {
        let ghost at = it.index() as int;
        let ghost start = if signed { 1int } else { 0int };
        if first && (c == '-' || c == '+') {
            signed = true;
            negative = c == '-';
            assert(text.subrange(1, 1) =~= Seq::empty());
        } else if '0' <= c && c <= '9' {
            let unit = (c as u32 - '0' as u32) as i64;
            value = value * 10 + unit;
            any_digit = true;
            proof {
                let seen = text.subrange(start, at + 1);
                assert(seen.drop_last() =~= text.subrange(start, at));
                assert(seen.last() == c);
            }
            if value > 2147483648 {
                proof {
                    let rest = text.skip(start);
                    assert(rest.take(at + 1 - start) =~= text.subrange(start, at + 1));
                    if digits(rest) is Some {
                        lemma_digits_grow(rest, at + 1 - start);
                    }
                    assert(text.skip(0) =~= text);
                }
                return Err(CatalogError::InvalidInput);
            }
        } else {
            proof {
                let rest = text.skip(start);
                assert(rest[at - start] == c);
                if digits(rest) is Some {
                    lemma_digits_grow(rest, at - start);
                }
                assert(text.skip(0) =~= text);
            }
            return Err(CatalogError::InvalidInput);
        }
        first = false;
    }
    proof {
        if signed {
            assert(text.subrange(1, text.len() as int) =~= text.skip(1));
        }
        assert(text.subrange(0, text.len() as int) =~= text);
    }
    if !any_digit {
        Err(CatalogError::InvalidInput)
    } else if negative {
        Ok((-value) as i32)
    } else if value > 2147483647 {
        Err(CatalogError::InvalidInput)
    } else {
        Ok(value as i32)
    }
}

} // verus!
