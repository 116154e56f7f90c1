//! Characters and character sequences as the assembler reads them.
use vstd::prelude::*;

verus! {

/// `c` with a lower-case ASCII letter replaced by its upper-case form.
pub open spec fn upper(c: char) -> char {
    if 'a' <= c <= 'z' {
        ((c as u32 - 32) as u8) as char
    } else {
        c
    }
}

/// `text` with every lower-case ASCII letter replaced by its upper-case form.
pub open spec fn upper_text(text: Seq<char>) -> Seq<char> {
    text.map_values(|c: char| upper(c))
}

/// Whether `c` is one of the ten decimal digits.
pub open spec fn is_digit(c: char) -> bool {
    '0' <= c <= '9'
}

/// The number a decimal digit stands for.
pub open spec fn digit_value(c: char) -> int {
    c as u32 - '0' as u32
}

/// Whether `c` is a hexadecimal digit, in either case.
pub open spec fn is_hex_digit(c: char) -> bool {
    is_digit(c) || 'A' <= c <= 'F' || 'a' <= c <= 'f'
}

/// The number a hexadecimal digit stands for.
pub open spec fn hex_value(c: char) -> int {
    if is_digit(c) {
        digit_value(c)
    } else if 'A' <= c <= 'F' {
        c as u32 - 'A' as u32 + 10
    } else {
        c as u32 - 'a' as u32 + 10
    }
}

/// The upper-case form of `c`, for ASCII letters; any other character as it
/// is.
pub fn to_upper(c: char) -> (u: char)
    ensures
        u == upper(c),
{
    if 'a' <= c && c <= 'z' {
        ((c as u32 - 32) as u8) as char
    } else {
        c
    }
}

/// The characters of `text`.
pub fn to_chars(text: &str) -> (chars: Vec<char>)
    ensures
        chars@ == text@,
{
    let mut chars: Vec<char> = Vec::new();
    let iter = text.chars();
    for c in it: iter
        invariant
            it.seq() == text@,
            chars@ == text@.take(it.index()),
    {
        chars.push(c);
    }
    chars
}

/// The characters of `text`, ASCII letters in upper case.
pub fn to_upper_chars(text: &str) -> (chars: Vec<char>)
    ensures
        chars@ == upper_text(text@),
{
    let mut chars: Vec<char> = Vec::new();
    let iter = text.chars();
    for c in it: iter
        invariant
            it.seq() == text@,
            chars@ == upper_text(text@.take(it.index())),
    {
        chars.push(to_upper(c));
    }
    chars
}

/// Whether `chars` spells `text`.
pub fn spells(chars: &Vec<char>, text: &str) -> (same: bool)
    ensures
        same == (chars@ == text@),
{
    let mut index: usize = 0;
    let iter = text.chars();
    for c in it: iter
        invariant
            it.seq() == text@,
            index == it.index(),
            index <= chars@.len(),
            chars@.take(index as int) == text@.take(index as int),
    {
        if index >= chars.len() || chars[index] != c {
            return false;
        }
        index += 1;
    }
    assert(text@.take(text@.len() as int) == text@);
    if index == chars.len() {
        assert(chars@.take(chars@.len() as int) == chars@);
        true
    } else {
        false
    }
}

/// The number that `digits` spell in base `radix`, most significant digit
/// first. Only bases ten and sixteen are read.
pub open spec fn number(digits: Seq<char>, radix: int) -> int
    decreases digits.len(),
{
    if digits.len() == 0 {
        0
    } else {
        number(digits.drop_last(), radix) * radix + digit_in(digits.last(), radix)
    }
}

/// The number that the digit `c` stands for in base `radix`.
pub open spec fn digit_in(c: char, radix: int) -> int {
    if radix == 16 {
        hex_value(c)
    } else {
        digit_value(c)
    }
}

/// Whether `c` is a digit of base `radix`.
pub open spec fn is_digit_in(c: char, radix: int) -> bool {
    if radix == 16 {
        is_hex_digit(c)
    } else {
        is_digit(c)
    }
}

/// Whether `digits` holds digits of base `radix` and nothing else.
pub open spec fn all_digits(digits: Seq<char>, radix: int) -> bool {
    forall|i: int| 0 <= i < digits.len() ==> is_digit_in(#[trigger] digits[i], radix)
}

/// A number never gets smaller by appending digits.
pub proof fn lemma_number_grows(digits: Seq<char>, radix: int, shorter: int)
    requires
        radix == 10 || radix == 16,
        all_digits(digits, radix),
        0 <= shorter <= digits.len(),
    ensures
        0 <= number(digits.take(shorter), radix) <= number(digits, radix),
    decreases digits.len(),
{
    if shorter < digits.len() {
        lemma_number_grows(digits.drop_last(), radix, shorter);
        assert(digits.drop_last().take(shorter) =~= digits.take(shorter));
    } else if digits.len() > 0 {
        assert(digits.take(shorter) =~= digits);
        lemma_number_grows(digits.drop_last(), radix, shorter - 1);
    }
}

/// The number that the digit `c` stands for in base `radix`, or `None` if it
/// is no digit of that base.
fn read_digit(c: char, radix: u32) -> (value: Option<u32>)
    requires
        radix == 10 || radix == 16,
    ensures
        value.is_some() == is_digit_in(c, radix as int),
        value matches Some(v) ==> v == digit_in(c, radix as int) && v < radix,
{
    if '0' <= c && c <= '9' {
        Some(c as u32 - '0' as u32)
    } else if radix == 16 && 'A' <= c && c <= 'F' {
        Some(c as u32 - 'A' as u32 + 10)
    } else if radix == 16 && 'a' <= c && c <= 'f' {
        Some(c as u32 - 'a' as u32 + 10)
    } else {
        None
    }
}

/// Reads the characters of `chars` from `start` on as a number in base
/// `radix`. The result is `None` unless there is at least one character, all
/// of them are digits, and the number is at most `limit`.
pub fn read_number(chars: &Vec<char>, start: usize, radix: u32, limit: u32) -> (value: Option<
    u32,
>)
    requires
        radix == 10 || radix == 16,
        start <= chars@.len(),
        limit <= 0xFFFF,
    ensures
        value.is_some() == (start < chars@.len() && all_digits(
            chars@.skip(start as int),
            radix as int,
        ) && number(chars@.skip(start as int), radix as int) <= limit),
        value matches Some(v) ==> v == number(chars@.skip(start as int), radix as int),
{
    let ghost digits = chars@.skip(start as int);
    if start >= chars.len() {
        return None;
    }
    let mut value: u32 = 0;
    let mut index: usize = start;
    while index < chars.len()
        invariant
            radix == 10 || radix == 16,
            limit <= 0xFFFF,
            start <= index <= chars@.len(),
            digits == chars@.skip(start as int),
            all_digits(digits.take(index - start), radix as int),
            value == number(digits.take(index - start), radix as int),
            value <= limit,
        decreases chars@.len() - index,
    {
        let ghost seen = digits.take(index - start);
        let ghost next = digits.take(index - start + 1);
        assert(next.drop_last() =~= seen);
        match read_digit(chars[index], radix) {
            None => {
                assert(!is_digit_in(digits[index - start], radix as int));
                return None;
            },
            Some(digit) => {
                let longer = value * radix + digit;
                if longer > limit {
                    proof {
                        if all_digits(digits, radix as int) {
                            lemma_number_grows(digits, radix as int, index - start + 1);
                        }
                    }
                    return None;
                }
                value = longer;
            },
        }
        index += 1;
    }
    assert(digits.take(digits.len() as int) =~= digits);
    Some(value)
}

/// `String::push`: appends `c` to `text`.
#[verifier::external_body]
pub(crate) fn push_char(text: &mut String, c: char)
    ensures
        final(text)@ == old(text)@.push(c),
{
    text.push(c);
}

/// The lines of `text`: the pieces between its line feeds. A text without a
/// line feed is one line; a text that ends in a line feed has an empty last
/// line.
pub open spec fn lines_of(text: Seq<char>) -> Seq<Seq<char>>
    decreases text.len(),
{
    if text.len() == 0 {
        seq![Seq::empty()]
    } else {
        let before = lines_of(text.drop_last());
        if text.last() == '\n' {
            before.push(Seq::empty())
        } else {
            before.drop_last().push(before.last().push(text.last()))
        }
    }
}

/// Cuts `text` into lines at its line feeds.
pub fn split_lines(text: &str) -> (lines: Vec<String>)
    ensures
        lines.deep_view() == lines_of(text@),
{
    let mut lines: Vec<String> = Vec::new();
    let mut current = String::new();
    let iter = text.chars();
    for c in it: iter
        invariant
            it.seq() == text@,
            lines.deep_view().push(current@) == lines_of(text@.take(it.index())),
    {
        let ghost seen = text@.take(it.index());
        let ghost longer = text@.take(it.index() + 1);
        assert(longer.drop_last() =~= seen);
        if c == '\n' {
            lines.push(current);
            current = String::new();
        } else {
            push_char(&mut current, c);
        }
    }
    assert(text@.take(text@.len() as int) =~= text@);
    lines.push(current);
    lines
}

} // verus!
