//! What a host needs around the machine: names and hexadecimal forms of
//! words for a display, and what to make of a key or of a line of typed
//! input.
use crate::assembler::text::push_char;
use crate::io::{low_char, word_to_char};
use vstd::prelude::*;
use vstd::string::*;

verus! {

/// What `n` reads as on a display of ASCII: the name of a control
/// character, of the space or of the delete character, and else the
/// character whose code is the low byte of `n`.
pub open spec fn ascii_name(n: u16) -> Seq<char> {
    match n {
        0 => "NUL"@,
        1 => "SOH"@,
        2 => "STX"@,
        3 => "ETX"@,
        4 => "EOT"@,
        5 => "ENQ"@,
        6 => "ACK"@,
        7 => "BEL"@,
        8 => "BS"@,
        9 => "TAB"@,
        10 => "LF"@,
        11 => "VT"@,
        12 => "FF"@,
        13 => "CR"@,
        14 => "SO"@,
        15 => "SI"@,
        16 => "DLE"@,
        17 => "DC1"@,
        18 => "DC2"@,
        19 => "DC3"@,
        20 => "DC4"@,
        21 => "NAK"@,
        22 => "SYN"@,
        23 => "ETB"@,
        24 => "CAN"@,
        25 => "EM"@,
        26 => "SUB"@,
        27 => "ESC"@,
        28 => "FS"@,
        29 => "GS"@,
        30 => "RS"@,
        31 => "US"@,
        32 => "SPACE"@,
        127 => "DEL"@,
        _ => seq![low_char(n)],
    }
}

/// What `n` reads as on a display of ASCII.
pub fn u16_to_ascii_rep(n: u16) -> (rep: String)
    ensures
        rep@ == ascii_name(n),
{
    match n {
        0 => "NUL".to_owned(),
        1 => "SOH".to_owned(),
        2 => "STX".to_owned(),
        3 => "ETX".to_owned(),
        4 => "EOT".to_owned(),
        5 => "ENQ".to_owned(),
        6 => "ACK".to_owned(),
        7 => "BEL".to_owned(),
        8 => "BS".to_owned(),
        9 => "TAB".to_owned(),
        10 => "LF".to_owned(),
        11 => "VT".to_owned(),
        12 => "FF".to_owned(),
        13 => "CR".to_owned(),
        14 => "SO".to_owned(),
        15 => "SI".to_owned(),
        16 => "DLE".to_owned(),
        17 => "DC1".to_owned(),
        18 => "DC2".to_owned(),
        19 => "DC3".to_owned(),
        20 => "DC4".to_owned(),
        21 => "NAK".to_owned(),
        22 => "SYN".to_owned(),
        23 => "ETB".to_owned(),
        24 => "CAN".to_owned(),
        25 => "EM".to_owned(),
        26 => "SUB".to_owned(),
        27 => "ESC".to_owned(),
        28 => "FS".to_owned(),
        29 => "GS".to_owned(),
        30 => "RS".to_owned(),
        31 => "US".to_owned(),
        32 => "SPACE".to_owned(),
        127 => "DEL".to_owned(),
        _ => {
            let mut rep = String::new();
            push_char(&mut rep, word_to_char(n));
            rep
        },
    }
}

/// The hexadecimal digit for `value`, in upper case: `0` to `9`, whose codes
/// start at 48, then `A` to `F`, whose codes start at 65.
pub open spec fn hex_digit(value: int) -> char {
    if value < 10 {
        ((48 + value) as u8) as char
    } else {
        ((65 + value - 10) as u8) as char
    }
}

/// `value` as it is shown: an `x` and four hexadecimal digits in upper case.
pub open spec fn hex_form(value: u16) -> Seq<char> {
    seq![
        'x',
        hex_digit(value as int / 4096),
        hex_digit((value as int / 256) % 16),
        hex_digit((value as int / 16) % 16),
        hex_digit(value as int % 16),
    ]
}

/// The hexadecimal digit for `value`.
fn digit(value: u16) -> (c: char)
    requires
        value < 16,
    ensures
        c == hex_digit(value as int),
{
    if value < 10 {
        (48u8 + value as u8) as char
    } else {
        (65u8 + (value as u8 - 10)) as char
    }
}

/// `value` as it is shown: an `x` and four hexadecimal digits in upper case.
pub fn hex_word(value: u16) -> (shown: String)
    ensures
        shown@ == hex_form(value),
{
    let mut shown = String::new();
    push_char(&mut shown, 'x');
    push_char(&mut shown, digit(value / 4096));
    push_char(&mut shown, digit((value / 256) % 16));
    push_char(&mut shown, digit((value / 16) % 16));
    push_char(&mut shown, digit(value % 16));
    shown
}

/// What a key event of the terminal carries, as far as the machine cares.
#[derive(Clone, Copy, Debug, PartialEq, Eq, Structural)]
pub enum KeyInput {
    /// A key that stands for a character.
    Char(char),
    /// The enter key.
    Enter,
    /// Any other key.
    Other,
}

/// What the terminal does with a key event while the machine waits for a
/// character.
#[derive(Clone, Copy, Debug, PartialEq, Eq, Structural)]
pub enum KeyAction {
    /// Hand this character to the machine.
    Deliver(char),
    /// The user asked to stop: leave the raw mode of the terminal in an
    /// orderly way and stop the machine.
    Interrupt,
    /// Wait for the next event.
    Ignore,
}

/// What to do with a key event.
///
/// Only a key that is pressed counts. `c` together with the control key is
/// the request to stop. Any other character is delivered, and the enter
/// key is delivered as a line feed.
pub open spec fn key_action_spec(pressed: bool, key: KeyInput, control: bool) -> KeyAction {
    if !pressed {
        KeyAction::Ignore
    } else {
        match key {
            KeyInput::Char(c) => if c == 'c' && control {
                KeyAction::Interrupt
            } else {
                KeyAction::Deliver(c)
            },
            KeyInput::Enter => KeyAction::Deliver('\n'),
            KeyInput::Other => KeyAction::Ignore,
        }
    }
}

/// What to do with a key event: `pressed` says whether the key went down,
/// `control` whether the control key was held.
pub fn key_action(pressed: bool, key: KeyInput, control: bool) -> (action: KeyAction)
    ensures
        action == key_action_spec(pressed, key, control),
{
    if !pressed {
        return KeyAction::Ignore;
    }
    match key {
        KeyInput::Char(c) => {
            if c == 'c' && control {
                KeyAction::Interrupt
            } else {
                KeyAction::Deliver(c)
            }
        },
        KeyInput::Enter => KeyAction::Deliver('\n'),
        KeyInput::Other => KeyAction::Ignore,
    }
}

/// Takes the first character off typed input: the character and what is
/// left, or `None` if nothing was typed.
pub fn split_first(typed: &str) -> (parts: Option<(char, String)>)
    ensures
        typed@.len() == 0 ==> parts.is_none(),
        typed@.len() > 0 ==> parts.is_some() && parts.unwrap().0 == typed@[0]
            && parts.unwrap().1@ == typed@.skip(1),
{
    let length = typed.unicode_len();
    if length == 0 {
        return None;
    }
    let first = typed.get_char(0);
    let rest = typed.substring_char(1, length).to_owned();
    Some((first, rest))
}

} // verus!
