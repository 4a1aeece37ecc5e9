//! Colour escape sequences, produced by `termion`.
use vstd::prelude::*;

verus! {

/// The character of a decimal digit.
pub open spec fn digit(d: int) -> char
    recommends
        0 <= d < 10,
{
    if d == 0 {
        '0'
    } else if d == 1 {
        '1'
    } else if d == 2 {
        '2'
    } else if d == 3 {
        '3'
    } else if d == 4 {
        '4'
    } else if d == 5 {
        '5'
    } else if d == 6 {
        '6'
    } else if d == 7 {
        '7'
    } else if d == 8 {
        '8'
    } else {
        '9'
    }
}

/// A byte written in base ten, without leading zeros.
pub open spec fn decimal(n: u8) -> Seq<char> {
    let n = n as int;
    if n < 10 {
        seq![digit(n)]
    } else if n < 100 {
        seq![digit(n / 10), digit(n % 10)]
    } else {
        seq![digit(n / 100), digit(n / 10 % 10), digit(n % 10)]
    }
}

/// The sequence that selects a 24-bit foreground colour.
pub open spec fn rgb_fg(red: u8, green: u8, blue: u8) -> Seq<char> {
    "\x1B[38;2;"@ + decimal(red) + ";"@ + decimal(green) + ";"@ + decimal(blue) + "m"@
}

/// The sequence that selects the high-intensity black foreground.
pub open spec fn light_black_fg() -> Seq<char> {
    "\x1B[38;5;8m"@
}

/// The sequence that restores the default foreground.
pub open spec fn reset_fg() -> Seq<char> {
    "\x1B[39m"@
}

/// Calls `termion::color::Rgb::fg_string`, which joins the introducer
/// `ESC [ 38;2;`, the three channels in base ten separated by `;`, and `m`.
#[verifier::external_body]
pub(crate) fn rgb_sequence(red: u8, green: u8, blue: u8) -> (s: String)
    ensures
        s@ == rgb_fg(red, green, blue),
{
    termion::color::Rgb(red, green, blue).fg_string()
}

/// Calls `termion::color::LightBlack::fg_str`, which returns the fixed
/// sequence for colour 8 of the 256-colour palette.
#[verifier::external_body]
pub(crate) fn light_black_sequence() -> (s: &'static str)
    ensures
        s@ == light_black_fg(),
{
    termion::color::LightBlack.fg_str()
}

/// Calls `termion::color::Reset::fg_str`, which returns the fixed sequence
/// that resets the foreground.
#[verifier::external_body]
pub(crate) fn reset_sequence() -> (s: &'static str)
    ensures
        s@ == reset_fg(),
{
    termion::color::Reset.fg_str()
}

} // verus!
