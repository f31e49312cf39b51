use vstd::prelude::*;
use vstd::string::{StrSliceExecFns, StringExecFns};

verus! {

/// The characters that separate the words of a command: space, tab, line
/// feed, form feed and carriage return.
pub open spec fn is_space(c: char) -> bool {
    c == ' ' || c == '\t' || c == '\n' || c == '\x0C' || c == '\r'
}

/// The words of a text: its longest runs of characters that are not spaces,
/// from left to right.
pub open spec fn words(text: Seq<char>) -> Seq<Seq<char>>
    decreases text.len(),
{
    if text.len() == 0 {
        Seq::empty()
    } else {
        let before = words(text.drop_last());
        let c = text.last();
        if is_space(c) {
            before
        } else if text.len() == 1 || is_space(text[text.len() - 2]) {
            before.push(seq![c])
        } else {
            before.drop_last().push(before.last().push(c))
        }
    }
}

/// The texts of a list of strings.
pub open spec fn texts(list: Seq<String>) -> Seq<Seq<char>> {
    Seq::new(list.len(), |i: int| list[i]@)
}

/// The value of a decimal digit.
pub open spec fn digit_value(c: char) -> nat {
    (c as u32 - '0' as u32) as nat
}

/// A decimal digit.
pub open spec fn is_digit(c: char) -> bool {
    '0' <= c <= '9'
}

/// The number that a run of decimal digits writes.
pub open spec fn decimal_value(digits: Seq<char>) -> nat
    decreases digits.len(),
{
    if digits.len() == 0 {
        0
    } else {
        decimal_value(digits.drop_last()) * 10 + digit_value(digits.last())
    }
}

/// The digits of a number's text: the text without a leading plus sign.
pub open spec fn digits_of(text: Seq<char>) -> Seq<char> {
    if text.len() > 0 && text[0] == '+' {
        text.drop_first()
    } else {
        text
    }
}

/// The unsigned number that a text writes, if it writes one that is at most
/// `max`: an optional plus sign, then one or more decimal digits and nothing
/// else.
pub open spec fn number(text: Seq<char>, max: nat) -> Option<nat> {
    let digits = digits_of(text);
    if digits.len() > 0 && (forall|i: int| 0 <= i < digits.len() ==> is_digit(#[trigger] digits[i]))
        && decimal_value(digits) <= max {
        Some(decimal_value(digits))
    } else {
        None
    }
}

/// A run of digits writes at least what any of its prefixes writes.
proof fn lemma_decimal_value_grows(digits: Seq<char>, shorter: int)
    requires
        0 <= shorter <= digits.len(),
    ensures
        decimal_value(digits.subrange(0, shorter)) <= decimal_value(digits),
    decreases digits.len(),
{
    if shorter < digits.len() {
        lemma_decimal_value_grows(digits.drop_last(), shorter);
        assert(digits.drop_last().subrange(0, shorter) =~= digits.subrange(0, shorter));
    } else {
        assert(digits.subrange(0, shorter) =~= digits);
    }
}

/// No word is empty, and no word holds a space.
pub proof fn lemma_words_hold_no_space(text: Seq<char>)
    ensures
        forall|i: int| 0 <= i < words(text).len() ==> (#[trigger] words(text)[i]).len() > 0,
        forall|i: int, j: int|
            0 <= i < words(text).len() && 0 <= j < words(text)[i].len() ==> !is_space(
                #[trigger] words(text)[i][j],
            ),
    decreases text.len(),
{
    if text.len() > 0 {
        let before = words(text.drop_last());
        lemma_words_hold_no_space(text.drop_last());
        if !is_space(text.last()) && text.len() > 1 && !is_space(text[text.len() - 2]) {
            assert(text.drop_last().last() == text[text.len() - 2]);
            lemma_words_of_open_text(text.drop_last());
        }
        assert forall|i: int| 0 <= i < words(text).len() implies (#[trigger] words(text)[i]).len()
            > 0 && forall|j: int|
            0 <= j < words(text)[i].len() ==> !is_space(#[trigger] words(text)[i][j]) by {
            if i < before.len() - 1 || is_space(text.last()) {
                assert(words(text)[i] == before[i]);
            }
        }
    }
}

/// A text of spaces alone has no words.
proof fn lemma_words_of_spaces(text: Seq<char>)
    requires
        forall|i: int| 0 <= i < text.len() ==> is_space(#[trigger] text[i]),
    ensures
        words(text).len() == 0,
    decreases text.len(),
{
    if text.len() > 0 {
        lemma_words_of_spaces(text.drop_last());
    }
}

/// A text without a space is one word, unless it is empty.
proof fn lemma_words_of_word(text: Seq<char>)
    requires
        text.len() > 0,
        forall|i: int| 0 <= i < text.len() ==> !is_space(#[trigger] text[i]),
    ensures
        words(text) == seq![text],
    decreases text.len(),
{
    if text.len() == 1 {
        assert(words(text.drop_last()).len() == 0);
        assert(text =~= seq![text.last()]);
        assert(words(text) =~= seq![text]);
    } else {
        let shorter = text.drop_last();
        lemma_words_of_word(shorter);
        assert(shorter[shorter.len() - 1] == text[text.len() - 2]);
        assert(shorter.push(text.last()) =~= text);
        assert(words(text) =~= seq![text]);
    }
}

/// A text that ends in a character other than a space has a word.
proof fn lemma_words_of_open_text(text: Seq<char>)
    requires
        text.len() > 0,
        !is_space(text.last()),
    ensures
        words(text).len() > 0,
{
}

/// A text cut in two between words has the words of its first part, then
/// those of its second part. The cut is between words where one of the parts
/// is empty, the first ends in a space or the second begins with one.
pub proof fn lemma_words_of_parts(first: Seq<char>, second: Seq<char>)
    requires
        first.len() == 0 || second.len() == 0 || is_space(first.last()) || is_space(second[0]),
    ensures
        words(first + second) == words(first) + words(second),
    decreases second.len(),
{
    let whole = first + second;
    if second.len() == 0 {
        assert(whole =~= first);
        assert(words(first) + words(second) =~= words(first));
    } else {
        let shorter = second.drop_last();
        let c = second.last();
        assert(whole.drop_last() =~= first + shorter);
        assert(whole.last() == c);
        if shorter.len() > 0 {
            assert(shorter[0] == second[0]);
            assert(whole[whole.len() - 2] == second[second.len() - 2]);
        } else if first.len() > 0 {
            assert(whole[whole.len() - 2] == first.last());
        }
        lemma_words_of_parts(first, shorter);
        let joined = words(first) + words(shorter);
        if is_space(c) {
        } else if whole.len() == 1 || is_space(whole[whole.len() - 2]) {
            assert(joined.push(seq![c]) =~= words(first) + words(shorter).push(seq![c]));
        } else {
            assert(shorter.len() > 0);
            lemma_words_of_open_text(shorter);
            let open = words(shorter).last().push(c);
            assert(joined.last() == words(shorter).last());
            assert(joined.drop_last().push(open) =~= words(first) + words(
                shorter,
            ).drop_last().push(open));
        }
    }
}

/// Tells whether two texts are the same.
pub fn same_text(a: &str, b: &str) -> (same: bool)
    ensures
        same == (a@ == b@),
{
    let length: usize = a.unicode_len();
    if length != b.unicode_len() {
        return false;
    }
    let mut i: usize = 0;
    while i < length
        invariant
            length == a@.len(),
            length == b@.len(),
            i <= length,
            forall|j: int| 0 <= j < i ==> a@[j] == b@[j],
        decreases length - i,
    {
        if a.get_char(i) != b.get_char(i) {
            return false;
        }
        i += 1;
    }
    assert(a@ =~= b@);
    true
}

/// Splits a text into its words.
pub fn split_words(text: &str) -> (list: Vec<String>)
    ensures
        texts(list@) == words(text@),
{
    let length: usize = text.unicode_len();
    let mut list: Vec<String> = Vec::new();
    let mut start: usize = 0;
    let mut in_word: bool = false;
    let mut i: usize = 0;
    while i < length
        invariant
            length == text@.len(),
            i <= length,
            in_word ==> start < i && !is_space(text@[i - 1]),
            !in_word ==> i == 0 || is_space(text@[i - 1]),
            words(text@.subrange(0, i as int)) == if in_word {
                texts(list@).push(text@.subrange(start as int, i as int))
            } else {
                texts(list@)
            },
        decreases length - i,
    {
        let c: char = text.get_char(i);
        let ghost seen = text@.subrange(0, i as int);
        let ghost next = text@.subrange(0, i + 1);
        proof {
            assert(next.drop_last() =~= seen);
            assert(next.last() == c);
            if i > 0 {
                assert(next[next.len() - 2] == text@[i - 1]);
            }
        }
        if is_space_char(c) {
            if in_word {
                let ghost done = texts(list@);
                list.push(String::from_str(text.substring_char(start, i)));
                assert(texts(list@) =~= done.push(text@.subrange(start as int, i as int)));
                in_word = false;
            }
        } else {
            if in_word {
                let ghost open = text@.subrange(start as int, i as int);
                assert(texts(list@).push(open).drop_last() =~= texts(list@));
                assert(open.push(c) =~= text@.subrange(start as int, i + 1));
            } else {
                start = i;
                in_word = true;
                assert(seq![c] =~= text@.subrange(i as int, i + 1));
            }
        }
        i += 1;
    }
    assert(text@.subrange(0, length as int) =~= text@);
    if in_word {
        let ghost done = texts(list@);
        list.push(String::from_str(text.substring_char(start, length)));
        assert(texts(list@) =~= done.push(text@.subrange(start as int, length as int)));
    }
    list
}

/// Splits a text into its first word and what follows that word. A text
/// without a word gives two empty texts.
pub fn first_word(text: &str) -> (parts: (&str, &str))
    ensures
        parts.0@.len() == 0 ==> words(text@).len() == 0 && parts.1@.len() == 0,
        parts.0@.len() > 0 ==> words(text@) == seq![parts.0@] + words(parts.1@),
{
    let length: usize = text.unicode_len();
    let mut start: usize = 0;
    while start < length && is_space_char(text.get_char(start))
        invariant
            length == text@.len(),
            start <= length,
            forall|i: int| 0 <= i < start ==> is_space(#[trigger] text@[i]),
        decreases length - start,
    {
        start += 1;
    }
    let mut end: usize = start;
    while end < length && !is_space_char(text.get_char(end))
        invariant
            length == text@.len(),
            start <= end <= length,
            forall|i: int| start <= i < end ==> !is_space(#[trigger] text@[i]),
        decreases length - end,
    {
        end += 1;
    }
    let word: &str = text.substring_char(start, end);
    let rest: &str = text.substring_char(end, length);
    proof {
        let spaces = text@.subrange(0, start as int);
        lemma_words_of_spaces(spaces);
        if start < end {
            lemma_words_of_word(word@);
            lemma_words_of_parts(spaces, word@);
            lemma_words_of_parts(spaces + word@, rest@);
            assert((spaces + word@) + rest@ =~= text@);
            assert(words(spaces) + words(word@) =~= seq![word@]);
        } else {
            assert(text@ =~= spaces);
        }
    }
    (word, rest)
}

/// Tells whether a character separates words.
fn is_space_char(c: char) -> (space: bool)
    ensures
        space == is_space(c),
{
    c == ' ' || c == '\t' || c == '\n' || c == '\x0C' || c == '\r'
}

/// Reads an unsigned decimal number that is at most `max`.
pub fn parse_number(text: &str, max: u64) -> (value: Option<u64>)
    ensures
        value matches Some(n) ==> number(text@, max as nat) == Some(n as nat),
        value is None ==> number(text@, max as nat) is None,
{
    let length: usize = text.unicode_len();
    let first: usize = if length > 0 && text.get_char(0) == '+' {
        1
    } else {
        0
    };
    let ghost digits = digits_of(text@);
    assert(digits =~= text@.subrange(first as int, length as int));
    if first == length {
        return None;
    }
    let mut value: u64 = 0;
    let mut i: usize = first;
    while i < length
        invariant
            length == text@.len(),
            first <= i <= length,
            digits == digits_of(text@),
            digits == text@.subrange(first as int, length as int),
            forall|j: int| 0 <= j < i - first ==> is_digit(#[trigger] digits[j]),
            value == decimal_value(digits.subrange(0, i - first)),
            value <= max,
        decreases length - i,
    {
        let c: char = text.get_char(i);
        assert(digits[i - first] == c);
        if !('0' <= c && c <= '9') {
            return None;
        }
        let digit: u64 = (c as u32 - '0' as u32) as u64;
        proof {
            let longer = digits.subrange(0, i - first + 1);
            assert(longer.drop_last() =~= digits.subrange(0, i - first));
            assert(longer.last() == c);
            assert(decimal_value(longer) == value * 10 + digit);
            lemma_decimal_value_grows(digits, i - first + 1);
        }
        if digit > max || value > (max - digit) / 10 {
            return None;
        }
        value = value * 10 + digit;
        i += 1;
    }
    assert(digits.subrange(0, length - first) =~= digits);
    Some(value)
}

} // verus!
