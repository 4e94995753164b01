//! Points in time, counted in whole seconds, and their written form.

use std::fmt::Write;
use vstd::prelude::*;

verus! {

/// How a point in time is written, in the input and in every record: year,
/// month and day between slashes, a space, then hour, minute and second
/// between colons.
pub const TIME_LAYOUT: &'static str = "%Y/%m/%d %H:%M:%S";

/// A point in time: whole seconds since the start of 1970, in UTC, without
/// leap seconds.
#[derive(Clone, Copy, Debug, PartialEq, Eq, Structural)]
pub struct Timestamp {
    pub secs: i64,
}

/// The seconds that `chrono` reads from `text` under `layout`, or `None`
/// where it rejects the text.
pub uninterp spec fn parsed_seconds(text: Seq<char>, layout: Seq<char>) -> Option<i64>;

/// The text that `chrono` writes for the point in time `secs` under
/// `layout`, or `None` where it has no date for `secs` or rejects the layout.
pub uninterp spec fn formatted_seconds(secs: i64, layout: Seq<char>) -> Option<Seq<char>>;

/// `chrono::NaiveDateTime::parse_from_str`, with the date and time it
/// returns taken as UTC and counted in seconds by `DateTime::timestamp`.
/// A second written as `60` counts as the second before it. The claim is
/// made for the layout of this library only: that the call returns, and
/// that its result depends on the two texts alone.
#[verifier::external_body]
fn parse_seconds(text: &str, layout: &str) -> (secs: Option<i64>)
    requires
        layout@ == TIME_LAYOUT@,
    ensures
        secs == parsed_seconds(text@, layout@),
{
    match chrono::NaiveDateTime::parse_from_str(text, layout) {
        Ok(time) => Some(time.and_utc().timestamp()),
        Err(_) => None,
    }
}

/// `chrono::DateTime::from_timestamp` followed by `DateTime::format`. The
/// first returns nothing for seconds outside the years `chrono` knows, the
/// second fails on a layout it cannot read; both cases give `None`. The
/// claim is made for the layout of this library only: that the calls
/// return, and that the result depends on the arguments alone.
#[verifier::external_body]
fn format_seconds(secs: i64, layout: &str) -> (text: Option<String>)
    requires
        layout@ == TIME_LAYOUT@,
    ensures
        text.deep_view() == formatted_seconds(secs, layout@),
{
    let time = chrono::DateTime::from_timestamp(secs, 0)?;
    let mut text = String::new();
    match write!(text, "{}", time.format(layout)) {
        Ok(()) => Some(text),
        Err(_) => None,
    }
}

impl Timestamp {
    /// The point in time that `text` names, where it is written as
    /// `TIME_LAYOUT` says.
    pub open spec fn spec_parse(text: Seq<char>) -> Option<Timestamp> {
        match parsed_seconds(text, TIME_LAYOUT@) {
            Some(secs) => Some(Timestamp { secs }),
            None => None,
        }
    }

    /// The written form of this point in time, where it has one.
    pub open spec fn spec_text(self) -> Option<Seq<char>> {
        formatted_seconds(self.secs, TIME_LAYOUT@)
    }

    /// The point in time `seconds` later, where it can be counted.
    pub open spec fn spec_after(self, seconds: int) -> Option<Timestamp> {
        if self.secs + seconds <= i64::MAX {
            Some(Timestamp { secs: (self.secs + seconds) as i64 })
        } else {
            None
        }
    }

    /// Reads a point in time written as `TIME_LAYOUT` says.
    pub fn parse(text: &str) -> (time: Option<Timestamp>)
        ensures
            time == Self::spec_parse(text@),
    {
        match parse_seconds(text, TIME_LAYOUT) {
            Some(secs) => Some(Timestamp { secs }),
            None => None,
        }
    }

    /// Writes this point in time as `TIME_LAYOUT` says.
    pub fn text(&self) -> (text: Option<String>)
        ensures
            text.deep_view() == self.spec_text(),
    {
        format_seconds(self.secs, TIME_LAYOUT)
    }

    /// The point in time `seconds` after this one, or `None` where the count
    /// of seconds would leave the range of the counter.
    pub fn after(&self, seconds: u64) -> (time: Option<Timestamp>)
        ensures
            time == self.spec_after(seconds as int),
    {
        let sum: i128 = self.secs as i128 + seconds as i128;
        if sum <= i64::MAX as i128 {
            Some(Timestamp { secs: sum as i64 })
        } else {
            None
        }
    }
}

} // verus!
