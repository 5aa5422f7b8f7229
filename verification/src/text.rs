//! Small text helpers: decimal numbers and trimming of names.

use vstd::prelude::*;

verus! {

/// The character of a decimal digit.
pub open spec fn digit_char(digit: nat) -> char {
    if digit == 0 {
        '0'
    } else if digit == 1 {
        '1'
    } else if digit == 2 {
        '2'
    } else if digit == 3 {
        '3'
    } else if digit == 4 {
        '4'
    } else if digit == 5 {
        '5'
    } else if digit == 6 {
        '6'
    } else if digit == 7 {
        '7'
    } else if digit == 8 {
        '8'
    } else {
        '9'
    }
}

/// The decimal numeral of `number`, without leading zeros.
pub open spec fn decimal(number: nat) -> Seq<char>
    decreases number,
{
    if number < 10 {
        seq![digit_char(number)]
    } else {
        decimal(number / 10).push(digit_char(number % 10))
    }
}

fn digit_text(digit: u32) -> (text: &'static str)
    requires
        digit < 10,
    ensures
        text@ == seq![digit_char(digit as nat)],
{
    proof {
        reveal_strlit("0");
        reveal_strlit("1");
        reveal_strlit("2");
        reveal_strlit("3");
        reveal_strlit("4");
        reveal_strlit("5");
        reveal_strlit("6");
        reveal_strlit("7");
        reveal_strlit("8");
        reveal_strlit("9");
    }
    let text: &'static str = match digit {
        0 => "0",
        1 => "1",
        2 => "2",
        3 => "3",
        4 => "4",
        5 => "5",
        6 => "6",
        7 => "7",
        8 => "8",
        _ => "9",
    };
    assert(text@ =~= seq![digit_char(digit as nat)]);
    text
}

/// Appends the decimal numeral of `number` to `text`.
pub fn push_decimal(text: &mut String, number: u32)
    ensures
        final(text)@ == old(text)@ + decimal(number as nat),
    decreases number,
{
    if number < 10 {
        text.append(digit_text(number));
    } else {
        push_decimal(text, number / 10);
        text.append(digit_text(number % 10));
        assert(final(text)@ =~= old(text)@ + decimal(number as nat));
    }
}

/// The text `prefix` followed by the decimal numeral of `number`.
pub fn numbered(prefix: &str, number: u32) -> (text: String)
    ensures
        text@ == prefix@ + decimal(number as nat),
{
    let mut text = String::from_str(prefix);
    push_decimal(&mut text, number);
    text
}

/// The last position below `end` at which `text` holds `symbol`, if any.
pub open spec fn last_index_of(text: Seq<char>, symbol: char, end: int) -> Option<int>
    decreases end,
{
    if end <= 0 || end > text.len() {
        None
    } else if text[end - 1] == symbol {
        Some(end - 1)
    } else {
        last_index_of(text, symbol, end - 1)
    }
}

/// What follows the last `symbol` in `text`; all of `text` where it holds none.
pub open spec fn after_last(text: Seq<char>, symbol: char) -> Seq<char> {
    match last_index_of(text, symbol, text.len() as int) {
        Some(index) => text.subrange(index + 1, text.len() as int),
        None => text,
    }
}

/// Copies what follows the last `symbol` in `text`; all of `text` where it holds none.
pub fn suffix_after_last(text: &str, symbol: char) -> (suffix: String)
    ensures
        suffix@ == after_last(text@, symbol),
{
    let length: usize = text.unicode_len();
    let mut end: usize = length;
    while end > 0
        invariant
            end <= length,
            length == text@.len(),
            last_index_of(text@, symbol, length as int) == last_index_of(text@, symbol, end as int),
        decreases end,
    {
        if text.get_char(end - 1) == symbol {
            return String::from_str(text.substring_char(end, length));
        }
        end = end - 1;
    }
    String::from_str(text)
}

/// Whether `text` holds `pattern` at position `index`.
pub open spec fn occurs_at(text: Seq<char>, pattern: Seq<char>, index: int) -> bool {
    0 <= index && index + pattern.len() <= text.len() && text.subrange(
        index,
        index + pattern.len(),
    ) == pattern
}

/// The last position not above `start` at which `text` holds `pattern`, if any.
pub open spec fn last_occurrence(text: Seq<char>, pattern: Seq<char>, start: int) -> Option<int>
    decreases start + 1,
{
    if start < 0 {
        None
    } else if occurs_at(text, pattern, start) {
        Some(start)
    } else {
        last_occurrence(text, pattern, start - 1)
    }
}

/// What precedes the last occurrence of `pattern` in `text`; all of `text` where
/// `pattern` does not occur.
pub open spec fn before_last(text: Seq<char>, pattern: Seq<char>) -> Seq<char> {
    match last_occurrence(text, pattern, text.len() as int) {
        Some(index) => text.subrange(0, index),
        None => text,
    }
}

/// Tells whether `text` holds `pattern` at position `index`.
pub fn holds_at(text: &str, pattern: &str, index: usize) -> (found: bool)
    requires
        index + pattern@.len() <= text@.len(),
    ensures
        found == occurs_at(text@, pattern@, index as int),
{
    let length: usize = text.unicode_len();
    let width: usize = pattern.unicode_len();
    let mut offset: usize = 0;
    while offset < width
        invariant
            offset <= width,
            width == pattern@.len(),
            length == text@.len(),
            index + width <= length,
            forall|k: int| 0 <= k < offset ==> text@[index + k] == pattern@[k],
        decreases width - offset,
    {
        if text.get_char(index + offset) != pattern.get_char(offset) {
            assert(text@.subrange(index as int, index + width)[offset as int] != pattern@[offset as int]);
            return false;
        }
        offset = offset + 1;
    }
    assert(text@.subrange(index as int, index + width) =~= pattern@);
    true
}

/// Copies what precedes the last occurrence of `pattern` in `text`; all of `text`
/// where `pattern` does not occur.
pub fn prefix_before_last(text: &str, pattern: &str) -> (prefix: String)
    ensures
        prefix@ == before_last(text@, pattern@),
{
    let length: usize = text.unicode_len();
    let width: usize = pattern.unicode_len();
    if width > length {
        proof {
            lemma_no_occurrence_above(text@, pattern@, length as int, -1);
        }
        return String::from_str(text);
    }
    let mut candidate: usize = length - width;
    proof {
        lemma_no_occurrence_above(text@, pattern@, length as int, candidate as int);
    }
    loop
        invariant
            candidate <= length - width,
            width <= length,
            length == text@.len(),
            width == pattern@.len(),
            last_occurrence(text@, pattern@, length as int) == last_occurrence(
                text@,
                pattern@,
                candidate as int,
            ),
        decreases candidate,
    {
        if holds_at(text, pattern, candidate) {
            return String::from_str(text.substring_char(0, candidate));
        }
        if candidate == 0 {
            return String::from_str(text);
        }
        candidate = candidate - 1;
    }
}

/// No occurrence starts so late that the pattern would run over the end of the text.
proof fn lemma_no_occurrence_above(text: Seq<char>, pattern: Seq<char>, start: int, floor: int)
    requires
        floor <= start,
        -1 <= floor,
        forall|index: int| floor < index <= start ==> !occurs_at(text, pattern, index),
    ensures
        last_occurrence(text, pattern, start) == last_occurrence(text, pattern, floor),
    decreases start - floor,
{
    if floor < start {
        lemma_no_occurrence_above(text, pattern, start - 1, floor);
    }
}

} // verus!
