//! The written form of a fix: one line of the output.
//!
//! A line holds the time, the latitude followed by `N`, the longitude
//! followed by `E`, the speed with three decimals followed by `kmh`, and
//! the flag `V`, with single spaces between them and a line feed at the
//! end. The caller supplies the two coordinates as text, each written with
//! six decimals.

use crate::track::Fix;
use vstd::prelude::*;

verus! {

/// The character that stands for the digit `digit`.
pub open spec fn digit_char(digit: int) -> char {
    if digit == 0 {
        '0'
    } else if digit == 1 {
        '1'
    } else if digit == 2 {
        '2'
    } else if digit == 3 {
        '3'
    } else if digit == 4 {
        '4'
    } else if digit == 5 {
        '5'
    } else if digit == 6 {
        '6'
    } else if digit == 7 {
        '7'
    } else if digit == 8 {
        '8'
    } else {
        '9'
    }
}

/// The decimal digits of `value`, without leading zeros.
pub open spec fn decimal(value: nat) -> Seq<char>
    decreases value,
{
    if value < 10 {
        seq![digit_char(value as int)]
    } else {
        decimal(value / 10).push(digit_char(value as int % 10))
    }
}

/// `value` in decimal digits, with a minus sign where it is negative.
pub open spec fn integer_text(value: int) -> Seq<char> {
    if value < 0 {
        seq!['-'] + decimal((-value) as nat)
    } else {
        decimal(value as nat)
    }
}

/// A speed as it is written in a record: a whole number of km/h with
/// three decimals, all of them zero.
pub open spec fn speed_text(speed: int) -> Seq<char> {
    integer_text(speed) + ".000"@
}

/// The line that reports a fix taken at `time`, at the place `latitude`,
/// `longitude`, at the speed `speed`.
pub open spec fn record_line(
    time: Seq<char>,
    latitude: Seq<char>,
    longitude: Seq<char>,
    speed: int,
) -> Seq<char> {
    time + " "@ + latitude + "N "@ + longitude + "E "@ + speed_text(speed) + "kmh V\n"@
}

/// The digit `digit` as text.
fn digit_text(digit: u32) -> (text: &'static str)
    requires
        digit < 10,
    ensures
        text@ == seq![digit_char(digit as int)],
{
    proof {
        reveal_strlit("0");
        reveal_strlit("1");
        reveal_strlit("2");
        reveal_strlit("3");
        reveal_strlit("4");
        reveal_strlit("5");
        reveal_strlit("6");
        reveal_strlit("7");
        reveal_strlit("8");
        reveal_strlit("9");
    }
    if digit == 0 {
        "0"
    } else if digit == 1 {
        "1"
    } else if digit == 2 {
        "2"
    } else if digit == 3 {
        "3"
    } else if digit == 4 {
        "4"
    } else if digit == 5 {
        "5"
    } else if digit == 6 {
        "6"
    } else if digit == 7 {
        "7"
    } else if digit == 8 {
        "8"
    } else {
        "9"
    }
}

/// Appends the decimal digits of `value` to `out`.
fn append_decimal(out: &mut String, value: u32)
    ensures
        final(out)@ == old(out)@ + decimal(value as nat),
    decreases value,
{
    if value >= 10 {
        append_decimal(out, value / 10);
    }
    out.append(digit_text(value % 10));
}

/// Writes a whole number in decimal digits.
pub fn write_integer(value: i32) -> (text: String)
    ensures
        text@ == integer_text(value as int),
{
    let mut text = String::new();
    if value < 0 {
        proof {
            reveal_strlit("-");
        }
        text.append("-");
        append_decimal(&mut text, (-(value as i64)) as u32);
    } else {
        append_decimal(&mut text, value as u32);
    }
    text
}

/// Writes a speed with its three decimals.
pub fn write_speed(speed: i32) -> (text: String)
    ensures
        text@ == speed_text(speed as int),
{
    let mut text = write_integer(speed);
    text.append(".000");
    text
}

/// Puts a record together from its parts: the time as text, the two
/// coordinates as text, and the speed.
pub fn compose_record(time: &str, latitude: &str, longitude: &str, speed: i32) -> (line: String)
    ensures
        line@ == record_line(time@, latitude@, longitude@, speed as int),
{
    let mut line = String::new();
    line.append(time);
    line.append(" ");
    line.append(latitude);
    line.append("N ");
    line.append(longitude);
    line.append("E ");
    line.append(write_speed(speed).as_str());
    line.append("kmh V\n");
    line
}

/// Writes the record of `fix`, whose place the caller has written out as
/// `latitude` and `longitude`. Gives `None` where the time of the fix has
/// no written form.
pub fn format_record(fix: &Fix, latitude: &str, longitude: &str) -> (line: Option<String>)
    ensures
        line.deep_view() == match fix.time.spec_text() {
            Some(time) => Some(record_line(time, latitude@, longitude@, fix.speed as int)),
            None => None,
        },
{
    match fix.time.text() {
        Some(time) => Some(compose_record(time.as_str(), latitude, longitude, fix.speed)),
        None => None,
    }
}

} // verus!
