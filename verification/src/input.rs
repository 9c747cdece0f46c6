//! Reading an index from a line of text: trimming white space and parsing an
//! unsigned decimal number.

use crate::text::chars_of;
use vstd::prelude::*;

verus! {

/// Whether Unicode counts `c` as White_Space.
pub open spec fn is_white_space(c: char) -> bool {
    let code = c as u32;
    ||| 0x09 <= code <= 0x0D
    ||| code == 0x20
    ||| code == 0x85
    ||| code == 0xA0
    ||| code == 0x1680
    ||| 0x2000 <= code <= 0x200A
    ||| code == 0x2028
    ||| code == 0x2029
    ||| code == 0x202F
    ||| code == 0x205F
    ||| code == 0x3000
}

/// The number of white-space characters that `text` begins with.
pub open spec fn leading_white_space(text: Seq<char>) -> nat
    decreases text.len(),
{
    if text.len() == 0 || !is_white_space(text[0]) {
        0
    } else {
        1 + leading_white_space(text.drop_first())
    }
}

/// The number of white-space characters that `text` ends with.
pub open spec fn trailing_white_space(text: Seq<char>) -> nat
    decreases text.len(),
{
    if text.len() == 0 || !is_white_space(text.last()) {
        0
    } else {
        1 + trailing_white_space(text.drop_last())
    }
}

/// `text` without the white space at its start and at its end.
pub open spec fn trimmed(text: Seq<char>) -> Seq<char> {
    let rest = text.skip(leading_white_space(text) as int);
    rest.take(rest.len() - trailing_white_space(rest))
}

/// Whether `c` is one of the ten decimal digits.
pub open spec fn is_digit(c: char) -> bool {
    '0' <= c <= '9'
}

/// Whether `text` holds decimal digits only.
pub open spec fn all_digits(text: Seq<char>) -> bool {
    forall|i: int| 0 <= i < text.len() ==> is_digit(#[trigger] text[i])
}

/// The value of the decimal digit `c`.
pub open spec fn digit_value(c: char) -> nat {
    if is_digit(c) {
        (c as u32 - '0' as u32) as nat
    } else {
        0
    }
}

/// The number that the decimal digits `digits` write.
pub open spec fn decimal_value(digits: Seq<char>) -> nat
    decreases digits.len(),
{
    if digits.len() == 0 {
        0
    } else {
        10 * decimal_value(digits.drop_last()) + digit_value(digits.last())
    }
}

/// `text` without a plus sign at its start.
pub open spec fn unsigned_part(text: Seq<char>) -> Seq<char> {
    if text.len() > 0 && text[0] == '+' {
        text.drop_first()
    } else {
        text
    }
}

/// The number that `text` writes: an optional plus sign and then one or more
/// decimal digits and nothing else, of a value that fits `usize`.
pub open spec fn parsed_usize(text: Seq<char>) -> Option<usize> {
    let digits = unsigned_part(text);
    if digits.len() > 0 && all_digits(digits) && decimal_value(digits) <= usize::MAX {
        Some(decimal_value(digits) as usize)
    } else {
        None
    }
}

/// Where white space runs up to `count` and stops there, `count` is the
/// leading white space.
proof fn lemma_leading(text: Seq<char>, count: int)
    requires
        0 <= count <= text.len(),
        forall|i: int| 0 <= i < count ==> is_white_space(#[trigger] text[i]),
        count == text.len() || !is_white_space(text[count]),
    ensures
        leading_white_space(text) == count,
    decreases count,
{
    if count > 0 {
        let rest = text.drop_first();
        lemma_leading(rest, count - 1);
    }
}

/// Where white space runs over the last `count` characters and no further,
/// `count` is the trailing white space.
proof fn lemma_trailing(text: Seq<char>, count: int)
    requires
        0 <= count <= text.len(),
        forall|i: int| text.len() - count <= i < text.len() ==> is_white_space(#[trigger] text[i]),
        count == text.len() || !is_white_space(text[text.len() - count - 1]),
    ensures
        trailing_white_space(text) == count,
    decreases count,
{
    if count > 0 {
        let rest = text.drop_last();
        lemma_trailing(rest, count - 1);
    }
}

/// The digits of a number weigh at least as much as fewer of them.
proof fn lemma_prefix_value(digits: Seq<char>, count: int)
    requires
        0 <= count <= digits.len(),
    ensures
        decimal_value(digits.take(count)) <= decimal_value(digits),
    decreases digits.len() - count,
{
    if count < digits.len() {
        lemma_prefix_value(digits, count + 1);
        assert(digits.take(count + 1).drop_last() =~= digits.take(count));
    } else {
        assert(digits.take(count) =~= digits);
    }
}

/// A trimmed text is a stretch of the text that neither begins nor ends
/// with white space, and what was cut off on both sides is white space.
pub proof fn lemma_trimmed(text: Seq<char>)
    ensures
        leading_white_space(text) + trimmed(text).len() + trailing_white_space(
            text.skip(leading_white_space(text) as int),
        ) == text.len(),
        trimmed(text) == text.subrange(
            leading_white_space(text) as int,
            (leading_white_space(text) + trimmed(text).len()) as int,
        ),
        trimmed(text).len() > 0 ==> !is_white_space(trimmed(text).first()) && !is_white_space(
            trimmed(text).last(),
        ),
        forall|i: int|
            0 <= i < leading_white_space(text) || leading_white_space(text) + trimmed(text).len()
                <= i < text.len() ==> is_white_space(#[trigger] text[i]),
{
    let start = leading_white_space(text);
    let rest = text.skip(start as int);
    lemma_leading_bounds(text);
    lemma_trailing_bounds(rest);
    let kept = rest.len() - trailing_white_space(rest);
    assert forall|i: int|
        0 <= i < start || start + kept <= i < text.len() implies is_white_space(
        #[trigger] text[i],
    ) by {
        if i >= start {
            assert(text[i] == rest[i - start]);
        }
    }
}

/// The leading white space is white space and ends before a character that
/// is none.
proof fn lemma_leading_bounds(text: Seq<char>)
    ensures
        leading_white_space(text) <= text.len(),
        forall|i: int| 0 <= i < leading_white_space(text) ==> is_white_space(#[trigger] text[i]),
        leading_white_space(text) < text.len() ==> !is_white_space(
            text[leading_white_space(text) as int],
        ),
    decreases text.len(),
{
    if text.len() > 0 && is_white_space(text[0]) {
        let rest = text.drop_first();
        lemma_leading_bounds(rest);
        assert forall|i: int| 0 <= i < leading_white_space(text) implies is_white_space(
            #[trigger] text[i],
        ) by {
            if i > 0 {
                assert(text[i] == rest[i - 1]);
            }
        }
    }
}

/// The trailing white space is white space and begins after a character
/// that is none.
proof fn lemma_trailing_bounds(text: Seq<char>)
    ensures
        trailing_white_space(text) <= text.len(),
        forall|i: int|
            text.len() - trailing_white_space(text) <= i < text.len() ==> is_white_space(
                #[trigger] text[i],
            ),
        trailing_white_space(text) < text.len() ==> !is_white_space(
            text[text.len() - trailing_white_space(text) - 1],
        ),
    decreases text.len(),
{
    if text.len() > 0 && is_white_space(text.last()) {
        let rest = text.drop_last();
        lemma_trailing_bounds(rest);
        assert forall|i: int|
            text.len() - trailing_white_space(text) <= i < text.len() implies is_white_space(
            #[trigger] text[i],
        ) by {
            if i < rest.len() {
                assert(text[i] == rest[i]);
            }
        }
    }
}

/// Whether `c` is white space.
pub fn is_whitespace(c: char) -> (white: bool)
    ensures
        white == is_white_space(c),
{
    let code: u32 = c as u32;
    (0x09 <= code && code <= 0x0D) || code == 0x20 || code == 0x85 || code == 0xA0 || code
        == 0x1680 || (0x2000 <= code && code <= 0x200A) || code == 0x2028 || code == 0x2029
        || code == 0x202F || code == 0x205F || code == 0x3000
}

/// The part of `s` between the white space at its start and at its end.
pub fn trim(s: &str) -> (inner: &str)
    ensures
        inner@ == trimmed(s@),
{
    let letters = chars_of(s);
    let count = letters.len();
    let mut start: usize = 0;
    while start < count && is_whitespace(letters[start])
        invariant
            start <= count,
            count == letters@.len(),
            forall|i: int| 0 <= i < start ==> is_white_space(#[trigger] letters@[i]),
        decreases count - start,
    {
        start += 1;
    }
    let mut end: usize = count;
    while end > start && is_whitespace(letters[end - 1])
        invariant
            start <= end <= count,
            count == letters@.len(),
            forall|i: int| end <= i < count ==> is_white_space(#[trigger] letters@[i]),
        decreases end,
    {
        end -= 1;
    }
    proof {
        let rest = s@.skip(start as int);
        lemma_leading(s@, start as int);
        lemma_trailing(rest, count - end);
    }
    s.substring_char(start, end)
}

/// The number that `s` writes in decimal digits, after an optional plus
/// sign. `None` where `s` holds anything else, or no digit, or a number
/// beyond `usize`.
pub fn parse_usize(s: &str) -> (number: Option<usize>)
    ensures
        number == parsed_usize(s@),
{
    let letters = chars_of(s);
    let count = letters.len();
    let first: usize = if count > 0 && letters[0] == '+' {
        1
    } else {
        0
    };
    if first == count {
        return None;
    }
    let ghost digits = unsigned_part(s@);
    let mut value: usize = 0;
    let mut i: usize = first;
    while i < count
        invariant
            first <= i <= count,
            count == letters@.len(),
            letters@ == s@,
            digits == s@.skip(first as int),
            digits == unsigned_part(s@),
            all_digits(digits.take(i - first)),
            value == decimal_value(digits.take(i - first)),
        decreases count - i,
    {
        let letter = letters[i];
        assert(letter == digits[i - first]);
        if !('0' <= letter && letter <= '9') {
            return None;
        }
        let digit: usize = (letter as u32 - '0' as u32) as usize;
        proof {
            assert(digits.take(i - first + 1).drop_last() =~= digits.take(i - first));
            lemma_prefix_value(digits, i - first + 1);
        }
        let next = match value.checked_mul(10) {
            Some(tens) => tens.checked_add(digit),
            None => None,
        };
        match next {
            Some(sum) => {
                value = sum;
            },
            None => {
                return None;
            },
        }
        i += 1;
    }
    assert(digits.take(count - first) =~= digits);
    Some(value)
}

} // verus!
