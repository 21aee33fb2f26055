//! Numbers written in hexadecimal.

use vstd::prelude::*;
use vstd::string::StringExecFns;

verus! {

/// The character for the hexadecimal digit `digit`, a capital letter or a
/// small one from ten on.
pub open spec fn hex_char(digit: int, upper: bool) -> char {
    if digit == 0 {
        '0'
    } else if digit == 1 {
        '1'
    } else if digit == 2 {
        '2'
    } else if digit == 3 {
        '3'
    } else if digit == 4 {
        '4'
    } else if digit == 5 {
        '5'
    } else if digit == 6 {
        '6'
    } else if digit == 7 {
        '7'
    } else if digit == 8 {
        '8'
    } else if digit == 9 {
        '9'
    } else if digit == 10 {
        if upper { 'A' } else { 'a' }
    } else if digit == 11 {
        if upper { 'B' } else { 'b' }
    } else if digit == 12 {
        if upper { 'C' } else { 'c' }
    } else if digit == 13 {
        if upper { 'D' } else { 'd' }
    } else if digit == 14 {
        if upper { 'E' } else { 'e' }
    } else {
        if upper { 'F' } else { 'f' }
    }
}

/// `value` in hexadecimal, the most significant digit first, with zeros in
/// front where it has fewer than `width` digits. Zero has one digit.
pub open spec fn hex_text(value: nat, width: nat, upper: bool) -> Seq<char>
    decreases value, width,
{
    if value < 16 && width <= 1 {
        seq![hex_char(value as int, upper)]
    } else {
        hex_text(value / 16, if width > 0 { (width - 1) as nat } else { 0 }, upper).push(
            hex_char((value % 16) as int, upper),
        )
    }
}

/// One hexadecimal digit as text.
fn hex_digit(digit: usize, upper: bool) -> (text: &'static str)
    requires
        digit < 16,
    ensures
        text@ == seq![hex_char(digit as int, upper)],
{
    proof {
        reveal_strlit("0");
        reveal_strlit("1");
        reveal_strlit("2");
        reveal_strlit("3");
        reveal_strlit("4");
        reveal_strlit("5");
        reveal_strlit("6");
        reveal_strlit("7");
        reveal_strlit("8");
        reveal_strlit("9");
        reveal_strlit("A");
        reveal_strlit("B");
        reveal_strlit("C");
        reveal_strlit("D");
        reveal_strlit("E");
        reveal_strlit("F");
        reveal_strlit("a");
        reveal_strlit("b");
        reveal_strlit("c");
        reveal_strlit("d");
        reveal_strlit("e");
        reveal_strlit("f");
    }
    let text = if digit == 0 {
        "0"
    } else if digit == 1 {
        "1"
    } else if digit == 2 {
        "2"
    } else if digit == 3 {
        "3"
    } else if digit == 4 {
        "4"
    } else if digit == 5 {
        "5"
    } else if digit == 6 {
        "6"
    } else if digit == 7 {
        "7"
    } else if digit == 8 {
        "8"
    } else if digit == 9 {
        "9"
    } else if digit == 10 {
        if upper { "A" } else { "a" }
    } else if digit == 11 {
        if upper { "B" } else { "b" }
    } else if digit == 12 {
        if upper { "C" } else { "c" }
    } else if digit == 13 {
        if upper { "D" } else { "d" }
    } else if digit == 14 {
        if upper { "E" } else { "e" }
    } else {
        if upper { "F" } else { "f" }
    };
    assert(text@ =~= seq![hex_char(digit as int, upper)]);
    text
}

/// Writes `value` in hexadecimal at the end of `text`, with at least `width`
/// digits.
pub fn push_hex(text: &mut String, value: usize, width: usize, upper: bool)
    ensures
        final(text)@ == old(text)@ + hex_text(value as nat, width as nat, upper),
    decreases value, width,
{
    if value >= 16 || width > 1 {
        push_hex(text, value / 16, if width > 0 { width - 1 } else { 0 }, upper);
    }
    text.append(hex_digit(value % 16, upper));
    assert(text@ =~= old(text)@ + hex_text(value as nat, width as nat, upper));
}

} // verus!

