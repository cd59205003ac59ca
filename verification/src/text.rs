//! Plain text: decimal numbers, and lists that are separated by commas.

use vstd::prelude::*;
use vstd::string::*;

verus! {

/// Whether two texts are the same.
pub(crate) fn same_text(one: &str, other: &str) -> (same: bool)
    ensures
        same == (one@ == other@),
{
    one.to_owned() == other.to_owned()
}

/// Whether a text begins with another.
pub open spec fn begins_with(text: Seq<char>, prefix: Seq<char>) -> bool {
    text.len() >= prefix.len() && text.subrange(0, prefix.len() as int) == prefix
}

/// Whether a text begins with another.
pub(crate) fn has_prefix(text: &str, prefix: &str) -> (has: bool)
    ensures
        has == begins_with(text@, prefix@),
{
    let length: usize = prefix.unicode_len();
    if text.unicode_len() < length {
        return false;
    }
    same_text(text.substring_char(0, length), prefix)
}

/// Whether every character is a decimal digit.
pub open spec fn is_decimal(digits: Seq<char>) -> bool {
    forall|i: int| 0 <= i < digits.len() ==> '0' <= #[trigger] digits[i] <= '9'
}

/// The number that decimal digits write.
pub open spec fn decimal_value(digits: Seq<char>) -> int
    decreases digits.len(),
{
    if digits.len() == 0 {
        0
    } else {
        10 * decimal_value(digits.drop_last()) + (digits.last() as int - '0' as int)
    }
}

/// A number's digits: what follows a plus sign, if there is one.
pub open spec fn unsigned_digits(text: Seq<char>) -> Seq<char> {
    if text.len() > 0 && text[0] == '+' {
        text.subrange(1, text.len() as int)
    } else {
        text
    }
}

/// The 64-bit number that a text writes: decimal digits, at least one of them,
/// after a plus sign or without.
pub open spec fn number_of(text: Seq<char>) -> Option<u64> {
    let digits = unsigned_digits(text);
    if digits.len() > 0 && is_decimal(digits) && decimal_value(digits) <= u64::MAX {
        Some(decimal_value(digits) as u64)
    } else {
        None
    }
}

/// The 64-bit number that a text writes.
pub fn parse_number(text: &str) -> (number: Option<u64>)
    ensures
        number == number_of(text@),
{
    let length: usize = text.unicode_len();
    let digits = if length > 0 && text.get_char(0) == '+' {
        text.substring_char(1, length)
    } else {
        text
    };
    let count: usize = digits.unicode_len();
    if count == 0 {
        return None;
    }
    let mut value: u64 = 0;
    let mut fits: bool = true;
    for i in 0..count
        invariant
            count == digits@.len(),
            digits@ == unsigned_digits(text@),
            forall|j: int| 0 <= j < i ==> '0' <= #[trigger] digits@[j] <= '9',
            fits ==> value == decimal_value(digits@.take(i as int)),
            !fits ==> decimal_value(digits@.take(i as int)) > u64::MAX,
    {
        let c: char = digits.get_char(i);
        if c < '0' || c > '9' {
            assert(!is_decimal(digits@));
            return None;
        }
        let digit: u64 = (c as u32 - '0' as u32) as u64;
        assert(digits@.take(i + 1).drop_last() =~= digits@.take(i as int));
        if fits {
            match value.checked_mul(10) {
                Some(product) => match product.checked_add(digit) {
                    Some(sum) => value = sum,
                    None => fits = false,
                },
                None => fits = false,
            }
        }
    }
    assert(digits@.take(count as int) =~= digits@);
    if fits {
        Some(value)
    } else {
        None
    }
}

/// Whether a character is white space in Unicode.
pub open spec fn white_space(c: char) -> bool {
    ||| '\u{9}' <= c <= '\u{d}'
    ||| c == ' '
    ||| c == '\u{85}'
    ||| c == '\u{a0}'
    ||| c == '\u{1680}'
    ||| '\u{2000}' <= c <= '\u{200a}'
    ||| '\u{2028}' <= c <= '\u{2029}'
    ||| c == '\u{202f}'
    ||| c == '\u{205f}'
    ||| c == '\u{3000}'
}

/// Whether a character is white space in Unicode.
pub fn is_white_space(c: char) -> (is: bool)
    ensures
        is == white_space(c),
{
    ('\u{9}' <= c && c <= '\u{d}') || c == ' ' || c == '\u{85}' || c == '\u{a0}' || c == '\u{1680}' || ('\u{2000}' <= c
        && c <= '\u{200a}') || ('\u{2028}' <= c && c <= '\u{2029}') || c == '\u{202f}' || c == '\u{205f}' || c
        == '\u{3000}'
}

/// A text without the white space at its end.
pub open spec fn trimmed_end(text: Seq<char>) -> Seq<char>
    decreases text.len(),
{
    if text.len() > 0 && white_space(text.last()) {
        trimmed_end(text.drop_last())
    } else {
        text
    }
}

/// A text without the white space at its start.
pub open spec fn trimmed_start(text: Seq<char>) -> Seq<char>
    decreases text.len(),
{
    if text.len() > 0 && white_space(text[0]) {
        trimmed_start(text.subrange(1, text.len() as int))
    } else {
        text
    }
}

/// A text without the white space around it.
pub open spec fn trimmed(text: Seq<char>) -> Seq<char> {
    trimmed_end(trimmed_start(text))
}

/// A text without the white space around it.
pub fn trim(text: &str) -> (rest: &str)
    ensures
        rest@ == trimmed(text@),
{
    let length: usize = text.unicode_len();
    let mut start: usize = 0;
    assert(text@.subrange(0, length as int) =~= text@);
    while start < length && is_white_space(text.get_char(start))
        invariant
            start <= length == text@.len(),
            trimmed_start(text@.subrange(start as int, length as int)) == trimmed_start(text@),
        ensures
            start <= length,
            text@.subrange(start as int, length as int) == trimmed_start(text@),
        decreases length - start,
    {
        assert(text@.subrange(start as int, length as int).subrange(1, length - start) =~= text@.subrange(
            start + 1,
            length as int,
        ));
        start = start + 1;
    }
    let mut end: usize = length;
    while end > start && is_white_space(text.get_char(end - 1))
        invariant
            start <= end <= length == text@.len(),
            trimmed_end(text@.subrange(start as int, end as int)) == trimmed(text@),
        ensures
            start <= end <= length,
            text@.subrange(start as int, end as int) == trimmed(text@),
        decreases end,
    {
        assert(text@.subrange(start as int, end as int).drop_last() =~= text@.subrange(start as int, end - 1));
        end = end - 1;
    }
    text.substring_char(start, end)
}

/// The parts of a text between commas: one more than there are commas.
pub open spec fn comma_parts(text: Seq<char>) -> Seq<Seq<char>>
    decreases text.len(),
{
    if text.len() == 0 {
        seq![seq![]]
    } else {
        let before = comma_parts(text.drop_last());
        if text.last() == ',' {
            before.push(seq![])
        } else {
            before.update(before.len() - 1, before.last().push(text.last()))
        }
    }
}

/// The parts of a text between commas, each without the white space around
/// it, and without those that are empty.
pub open spec fn listed(text: Seq<char>) -> Seq<Seq<char>> {
    kept(comma_parts(text))
}

/// Some texts, each without the white space around it, and without those that
/// are empty.
pub open spec fn kept(parts: Seq<Seq<char>>) -> Seq<Seq<char>> {
    parts.map_values(|part: Seq<char>| trimmed(part)).filter(|part: Seq<char>| part.len() > 0)
}

/// One more text is kept after the others, unless it is white space.
proof fn lemma_kept_push(parts: Seq<Seq<char>>, part: Seq<char>)
    ensures
        kept(parts.push(part)) == if trimmed(part).len() > 0 {
            kept(parts).push(trimmed(part))
        } else {
            kept(parts)
        },
{
    let trim_part = |part: Seq<char>| trimmed(part);
    let keep = |part: Seq<char>| part.len() > 0;
    assert(parts.push(part).map_values(trim_part) =~= parts.map_values(trim_part).push(trimmed(part)));
    assert(parts.map_values(trim_part).push(trimmed(part)).drop_last() =~= parts.map_values(trim_part));
    reveal(Seq::filter);
}

/// What a text lists between commas.
pub fn split_list(text: &str) -> (parts: Vec<String>)
    ensures
        parts@.map_values(|part: String| part@) == listed(text@),
{
    let length: usize = text.unicode_len();
    let mut parts: Vec<String> = Vec::new();
    let mut start: usize = 0;
    let ghost mut whole: Seq<Seq<char>> = seq![];
    assert(text@.subrange(0, 0) =~= seq![]);
    for i in 0..length
        invariant
            length == text@.len(),
            start <= i,
            comma_parts(text@.take(i as int)) == whole.push(text@.subrange(start as int, i as int)),
            parts@.map_values(|part: String| part@) == kept(whole),
    {
        assert(text@.take(i + 1).drop_last() =~= text@.take(i as int));
        let ghost part = text@.subrange(start as int, i as int);
        if text.get_char(i) == ',' {
            let rest = trim(text.substring_char(start, i));
            proof {
                lemma_kept_push(whole, part);
                whole = whole.push(part);
            }
            if !rest.is_empty() {
                let ghost before = parts@.map_values(|part: String| part@);
                parts.push(rest.to_owned());
                assert(parts@.map_values(|part: String| part@) =~= before.push(rest@));
            }
            start = i + 1;
            assert(text@.subrange(start as int, i + 1) =~= seq![]);
        } else {
            assert(whole.push(part).update(whole.len() as int, part.push(text@[i as int])) =~= whole.push(
                part.push(text@[i as int]),
            ));
            assert(part.push(text@[i as int]) =~= text@.subrange(start as int, i + 1));
        }
    }
    let rest = trim(text.substring_char(start, length));
    proof {
        lemma_kept_push(whole, text@.subrange(start as int, length as int));
        assert(text@.take(length as int) =~= text@);
    }
    if !rest.is_empty() {
        let ghost before = parts@.map_values(|part: String| part@);
        parts.push(rest.to_owned());
        assert(parts@.map_values(|part: String| part@) =~= before.push(rest@));
    }
    parts
}

/// A text begins with another exactly where it is the other and something
/// more.
pub proof fn lemma_begins_with(text: Seq<char>, prefix: Seq<char>, rest: Seq<char>)
    ensures
        begins_with(prefix + rest, prefix),
        begins_with(text, prefix) ==> text == prefix + text.skip(prefix.len() as int),
{
    assert((prefix + rest).subrange(0, prefix.len() as int) =~= prefix);
    if begins_with(text, prefix) {
        assert(text =~= text.subrange(0, prefix.len() as int) + text.skip(prefix.len() as int));
    }
}

/// The shortest numbers: nothing and a lone plus sign are none, one digit is
/// its value, with and without a plus sign before it, and no other character
/// is a number.
pub proof fn lemma_short_numbers(c: char)
    ensures
        number_of(seq![]) is None,
        number_of(seq!['+']) is None,
        '0' <= c <= '9' ==> number_of(seq![c]) == Some((c as int - '0' as int) as u64),
        !('0' <= c <= '9') ==> number_of(seq![c]) is None,
        number_of(seq!['+', c]) == number_of(seq![c]),
{
    assert(decimal_value(seq![]) == 0);
    assert(seq!['+'].subrange(1, 1) =~= seq![]);
    assert(seq!['+', c].subrange(1, 2) =~= seq![c]);
    assert(seq![c].drop_last() =~= seq![]);
    assert(seq![c].last() == c);
    assert(seq![c][0] == c);
    if c == '+' {
        assert(unsigned_digits(seq![c]) =~= seq![]);
        assert(!is_decimal(seq![c]));
    } else {
        assert(unsigned_digits(seq![c]) == seq![c]);
        if '0' <= c <= '9' {
            assert(decimal_value(seq![c]) == 10 * decimal_value(seq![]) + (c as int - '0' as int));
        }
    }
    let signed = seq!['+', c];
    assert(signed[0] == '+');
    assert(unsigned_digits(signed) == seq![c]);
}

/// Every number but the shortest: one more digit makes ten times the number
/// and the digit, where 64 bits hold it. Any other character, and any digit
/// too many, makes it none, and what is none stays none.
pub proof fn lemma_longer_numbers(text: Seq<char>, c: char)
    ensures
        number_of(text) matches Some(value) ==> number_of(text.push(c)) == if '0' <= c <= '9' && 10 * value + (c as int
            - '0' as int) <= u64::MAX {
            Some((10 * value + (c as int - '0' as int)) as u64)
        } else {
            None
        },
        number_of(text) is None && text.len() > 0 && text != seq!['+'] ==> number_of(text.push(c)) is None,
{
    let more = text.push(c);
    let digits = unsigned_digits(text);
    if text.len() > 0 {
        assert(more[0] == text[0]);
        assert(unsigned_digits(more) =~= digits.push(c));
        assert(digits.push(c).drop_last() =~= digits);
        assert(digits.push(c).last() == c);
        if text[0] == '+' && digits.len() == 0 {
            assert(text =~= seq!['+']);
        }
        if is_decimal(digits.push(c)) {
            assert forall|i: int| 0 <= i < digits.len() implies '0' <= #[trigger] digits[i] <= '9' by {
                assert(digits.push(c)[i] == digits[i]);
            }
            assert('0' <= digits.push(c)[digits.len() as int] <= '9');
        }
        if is_decimal(digits) && '0' <= c <= '9' {
            assert forall|i: int| 0 <= i < digits.push(c).len() implies '0' <= #[trigger] digits.push(c)[i] <= '9' by {
                if i < digits.len() {
                    assert(digits.push(c)[i] == digits[i]);
                }
            }
        }
        if is_decimal(digits) {
            lemma_decimal_value_is_positive(digits);
        }
    }
}

/// Digits write no negative number.
proof fn lemma_decimal_value_is_positive(digits: Seq<char>)
    requires
        is_decimal(digits),
    ensures
        decimal_value(digits) >= 0,
    decreases digits.len(),
{
    if digits.len() > 0 {
        assert forall|i: int| 0 <= i < digits.drop_last().len() implies '0' <= #[trigger] digits.drop_last()[i]
            <= '9' by {
            assert(digits.drop_last()[i] == digits[i]);
        }
        lemma_decimal_value_is_positive(digits.drop_last());
        assert('0' <= digits[digits.len() - 1]);
    }
}

/// Where a text without its leading white space begins in it.
proof fn lemma_trimmed_start(text: Seq<char>) -> (start: int)
    ensures
        0 <= start <= text.len(),
        trimmed_start(text) == text.skip(start),
        forall|i: int| 0 <= i < start ==> white_space(#[trigger] text[i]),
        start < text.len() ==> !white_space(text[start]),
    decreases text.len(),
{
    if text.len() > 0 && white_space(text[0]) {
        let rest = text.subrange(1, text.len() as int);
        let inner = lemma_trimmed_start(rest);
        assert(rest.skip(inner) =~= text.skip(inner + 1));
        assert forall|i: int| 0 <= i < inner + 1 implies white_space(#[trigger] text[i]) by {
            if i > 0 {
                assert(rest[i - 1] == text[i]);
            }
        }
        if inner + 1 < text.len() {
            assert(rest[inner] == text[inner + 1]);
        }
        inner + 1
    } else {
        assert(text.skip(0) =~= text);
        0
    }
}

/// Where a text without its trailing white space ends in it.
proof fn lemma_trimmed_end(text: Seq<char>) -> (end: int)
    ensures
        0 <= end <= text.len(),
        trimmed_end(text) == text.take(end),
        forall|i: int| end <= i < text.len() ==> white_space(#[trigger] text[i]),
        end > 0 ==> !white_space(text[end - 1]),
    decreases text.len(),
{
    if text.len() > 0 && white_space(text.last()) {
        let rest = text.drop_last();
        let end = lemma_trimmed_end(rest);
        assert(rest.take(end) =~= text.take(end));
        assert forall|i: int| end <= i < text.len() implies white_space(#[trigger] text[i]) by {
            if i < rest.len() {
                assert(rest[i] == text[i]);
            }
        }
        if end > 0 {
            assert(rest[end - 1] == text[end - 1]);
        }
        end
    } else {
        assert(text.take(text.len() as int) =~= text);
        text.len() as int
    }
}

/// A trimmed text is a part of the text. All that is left out before and after
/// it is white space, and it neither begins nor ends with any.
pub proof fn lemma_trimmed(text: Seq<char>) -> (bounds: (int, int))
    ensures
        0 <= bounds.0 <= bounds.1 <= text.len(),
        trimmed(text) == text.subrange(bounds.0, bounds.1),
        forall|i: int| 0 <= i < bounds.0 || bounds.1 <= i < text.len() ==> white_space(#[trigger] text[i]),
        bounds.0 < bounds.1 ==> !white_space(text[bounds.0]) && !white_space(text[bounds.1 - 1]),
{
    let start = lemma_trimmed_start(text);
    let rest = text.skip(start);
    let end = lemma_trimmed_end(rest);
    assert(rest.take(end) =~= text.subrange(start, start + end));
    assert forall|i: int| 0 <= i < start || start + end <= i < text.len() implies white_space(
        #[trigger] text[i],
    ) by {
        if i >= start {
            assert(rest[i - start] == text[i]);
        }
    }
    if end > 0 {
        assert(rest[end - 1] == text[start + end - 1]);
    }
    (start, start + end)
}

/// There is always a part.
proof fn lemma_some_part(text: Seq<char>)
    ensures
        comma_parts(text).len() > 0,
    decreases text.len(),
{
    if text.len() > 0 {
        lemma_some_part(text.drop_last());
    }
}

/// A text without a comma is its only part. A comma parts what is before it
/// from what is after it.
pub proof fn lemma_comma_parts(before: Seq<char>, after: Seq<char>)
    ensures
        !before.contains(',') ==> comma_parts(before) == seq![before],
        comma_parts(before.push(',') + after) == comma_parts(before) + comma_parts(after),
    decreases before.len(), after.len(),
{
    if !before.contains(',') {
        if before.len() == 0 {
            assert(before =~= seq![]);
        } else {
            let less = before.drop_last();
            assert(!less.contains(',')) by {
                if less.contains(',') {
                    let i = choose|i: int| 0 <= i < less.len() && less[i] == ',';
                    assert(before[i] == ',');
                }
            }
            assert(before[before.len() - 1] != ',');
            lemma_comma_parts(less, seq![]);
            assert(comma_parts(before) =~= seq![less.push(before.last())]);
            assert(less.push(before.last()) =~= before);
        }
    }
    let whole = before.push(',') + after;
    lemma_some_part(before);
    if after.len() == 0 {
        assert(whole =~= before.push(','));
        assert(whole.drop_last() =~= before);
        assert(after =~= seq![]);
        assert(comma_parts(whole) =~= comma_parts(before) + comma_parts(after));
    } else {
        let less = after.drop_last();
        lemma_comma_parts(before, less);
        lemma_some_part(less);
        assert(whole.drop_last() =~= before.push(',') + less);
        assert(whole.last() == after.last());
        assert(comma_parts(whole) =~= comma_parts(before) + comma_parts(after));
    }
}

/// What is kept of two lists is kept of each.
proof fn lemma_kept_concat(one: Seq<Seq<char>>, other: Seq<Seq<char>>)
    ensures
        kept(one + other) == kept(one) + kept(other),
    decreases other.len(),
{
    if other.len() == 0 {
        assert(one + other =~= one);
        assert(other =~= seq![]);
        assert(kept(other) =~= seq![]) by {
            reveal(Seq::filter);
        }
        assert(kept(one) + kept(other) =~= kept(one));
    } else {
        let less = other.drop_last();
        lemma_kept_concat(one, less);
        assert(one + other =~= (one + less).push(other.last()));
        assert(other =~= less.push(other.last()));
        lemma_kept_push(one + less, other.last());
        lemma_kept_push(less, other.last());
        assert(kept(one + other) =~= kept(one) + kept(other));
    }
}

/// A text without a comma lists itself, without the white space around it, or
/// nothing where that is all. What is listed around a comma is listed before
/// it and then after it.
pub proof fn lemma_listed(before: Seq<char>, after: Seq<char>)
    ensures
        !before.contains(',') ==> listed(before) == if trimmed(before).len() > 0 {
            seq![trimmed(before)]
        } else {
            seq![]
        },
        listed(before.push(',') + after) == listed(before) + listed(after),
{
    lemma_comma_parts(before, after);
    lemma_kept_concat(comma_parts(before), comma_parts(after));
    if !before.contains(',') {
        assert(seq![before] =~= Seq::<Seq<char>>::empty().push(before));
        lemma_kept_push(seq![], before);
        assert(kept(Seq::<Seq<char>>::empty()) =~= seq![]) by {
            reveal(Seq::filter);
        }
    }
}

/// White space is what these code points are, and nothing else.
pub proof fn lemma_white_space(c: char)
    ensures
        white_space(c) <==> {
            let point = c as u32;
            9 <= point <= 13 || point == 32 || point == 133 || point == 160 || point == 5760 || 8192 <= point <= 8202
                || point == 8232 || point == 8233 || point == 8239 || point == 8287 || point == 12288
        },
{
}

} // verus!
