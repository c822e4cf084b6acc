//! Text helpers: upper-case hexadecimal rendering of addresses.

use vstd::prelude::*;

verus! {

/// The upper-case hexadecimal digit of `d` (0..=15).
pub open spec fn hex_digit(d: nat) -> char {
    if d == 0 { '0' }
    else if d == 1 { '1' }
    else if d == 2 { '2' }
    else if d == 3 { '3' }
    else if d == 4 { '4' }
    else if d == 5 { '5' }
    else if d == 6 { '6' }
    else if d == 7 { '7' }
    else if d == 8 { '8' }
    else if d == 9 { '9' }
    else if d == 10 { 'A' }
    else if d == 11 { 'B' }
    else if d == 12 { 'C' }
    else if d == 13 { 'D' }
    else if d == 14 { 'E' }
    else { 'F' }
}

/// `x` written in upper-case hexadecimal without leading zeros (`"0"` for zero),
/// as `{:X}` formats it.
pub open spec fn hex_upper_chars(x: nat) -> Seq<char>
    decreases x,
{
    if x < 16 {
        seq![hex_digit(x)]
    } else {
        hex_upper_chars(x / 16).push(hex_digit(x % 16))
    }
}

fn hex_digit_str(d: u64) -> (s: &'static str)
    requires
        d < 16,
    ensures
        s@ == seq![hex_digit(d as nat)],
{
    proof {
        reveal_strlit("0");
        reveal_strlit("1");
        reveal_strlit("2");
        reveal_strlit("3");
        reveal_strlit("4");
        reveal_strlit("5");
        reveal_strlit("6");
        reveal_strlit("7");
        reveal_strlit("8");
        reveal_strlit("9");
        reveal_strlit("A");
        reveal_strlit("B");
        reveal_strlit("C");
        reveal_strlit("D");
        reveal_strlit("E");
        reveal_strlit("F");
    }
    if d == 0 { "0" }
    else if d == 1 { "1" }
    else if d == 2 { "2" }
    else if d == 3 { "3" }
    else if d == 4 { "4" }
    else if d == 5 { "5" }
    else if d == 6 { "6" }
    else if d == 7 { "7" }
    else if d == 8 { "8" }
    else if d == 9 { "9" }
    else if d == 10 { "A" }
    else if d == 11 { "B" }
    else if d == 12 { "C" }
    else if d == 13 { "D" }
    else if d == 14 { "E" }
    else { "F" }
}

/// Render `x` in upper-case hexadecimal, like `format!("{:X}", x)`.
pub fn hex_upper(x: u64) -> (s: String)
    ensures
        s@ == hex_upper_chars(x as nat),
    decreases x,
{
    if x < 16 {
        String::from_str(hex_digit_str(x))
    } else {
        let mut s = hex_upper(x / 16);
        s.append(hex_digit_str(x % 16));
        s
    }
}

} // verus!
