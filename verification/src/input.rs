//! The input: a start time on the first line, then one waypoint per line.
//!
//! A waypoint line holds two fields, a latitude and a longitude, with one
//! comma between them. A line with any other number of fields is passed
//! over; a line with two fields of which one is no number is an error. The
//! fields are handed on as text, without the white space around them, for
//! the caller to turn into numbers.

use crate::clock::Timestamp;
use crate::number::{is_float, is_float_text};
use crate::text::{chars_of, fields, split_pair, trim, trim_range, trimmed};
use vstd::prelude::*;

verus! {

/// The two fields of a waypoint line, as they were written.
#[derive(Debug, PartialEq, Eq)]
pub struct WaypointText {
    pub latitude: String,
    pub longitude: String,
}

/// The characters of the two fields of a waypoint line.
pub struct WaypointFields {
    pub latitude: Seq<char>,
    pub longitude: Seq<char>,
}

impl View for WaypointText {
    type V = WaypointFields;

    open spec fn view(&self) -> WaypointFields {
        WaypointFields { latitude: self.latitude@, longitude: self.longitude@ }
    }
}

/// What was read from the input: the time of the first fix and the
/// waypoints in the order of travel.
#[derive(Debug, PartialEq, Eq)]
pub struct TrackInput {
    pub start: Timestamp,
    pub waypoints: Vec<WaypointText>,
}

/// Why an input is refused.
#[derive(Clone, Copy, Debug, PartialEq, Eq, Structural)]
pub enum ParseError {
    /// The input has no line at all.
    EmptyInput,
    /// The first line does not name a point in time.
    TimestampFormat,
    /// A line with two fields holds one that is no number.
    CoordinateFormat,
}

/// What `line` holds. A line that does not have exactly two fields holds
/// nothing. A line with two fields holds a waypoint, its fields taken
/// without the white space around them, where both are numbers, and is an
/// error where one is not.
pub open spec fn waypoint_of(line: Seq<char>) -> Result<Option<WaypointFields>, ParseError> {
    let parts = fields(line);
    if parts.len() != 2 {
        Ok(None)
    } else if is_float_text(trimmed(parts[0])) && is_float_text(trimmed(parts[1])) {
        Ok(Some(WaypointFields { latitude: trimmed(parts[0]), longitude: trimmed(parts[1]) }))
    } else {
        Err(ParseError::CoordinateFormat)
    }
}

/// `waypoints` followed by what the later lines hold, where they hold no
/// error.
pub open spec fn followed_by(
    waypoints: Seq<WaypointFields>,
    later: Result<Seq<WaypointFields>, ParseError>,
) -> Result<Seq<WaypointFields>, ParseError> {
    match later {
        Ok(rest) => Ok(waypoints + rest),
        Err(error) => Err(error),
    }
}

/// The waypoints that the lines from `from` on hold, in their order, or
/// the error of the first line that holds one.
pub open spec fn waypoints_from(lines: Seq<Seq<char>>, from: int) -> Result<
    Seq<WaypointFields>,
    ParseError,
>
    decreases lines.len() - from,
{
    if from < 0 || from >= lines.len() {
        Ok(Seq::empty())
    } else {
        match waypoint_of(lines[from]) {
            Ok(Some(waypoint)) => followed_by(seq![waypoint], waypoints_from(lines, from + 1)),
            Ok(None) => waypoints_from(lines, from + 1),
            Err(error) => Err(error),
        }
    }
}

/// The waypoints of `waypoints` as characters.
pub open spec fn waypoint_views(waypoints: Seq<WaypointText>) -> Seq<WaypointFields> {
    Seq::new(waypoints.len(), |i: int| waypoints[i]@)
}

/// What the lines of an input hold: the point in time that the first line
/// names, and the waypoints of the lines after it.
pub open spec fn input_of(lines: Seq<Seq<char>>) -> Result<
    (Timestamp, Seq<WaypointFields>),
    ParseError,
> {
    if lines.len() == 0 {
        Err(ParseError::EmptyInput)
    } else {
        match Timestamp::spec_parse(trimmed(lines[0])) {
            Some(start) => match waypoints_from(lines, 1) {
                Ok(waypoints) => Ok((start, waypoints)),
                Err(error) => Err(error),
            },
            None => Err(ParseError::TimestampFormat),
        }
    }
}

/// The number of segments of a route of `waypoints` waypoints: one between
/// each waypoint and the next, and none where there are fewer than two.
pub open spec fn segments_of(waypoints: int) -> int {
    if waypoints < 2 {
        0
    } else {
        waypoints - 1
    }
}

/// Reads one line after the first.
pub fn read_waypoint(line: &str) -> (waypoint: Result<Option<WaypointText>, ParseError>)
    ensures
        match waypoint {
            Ok(Some(waypoint)) => waypoint_of(line@) == Ok::<_, ParseError>(Some(waypoint@)),
            Ok(None) => waypoint_of(line@) == Ok::<Option<WaypointFields>, ParseError>(None),
            Err(error) => waypoint_of(line@) == Err::<Option<WaypointFields>, _>(error),
        },
{
    let chars = chars_of(line);
    match split_pair(&chars) {
        Some(pair) => {
            let (first, last) = trim_range(&chars, 0, pair.comma);
            let latitude = line.substring_char(first, last);
            let (first, last) = trim_range(&chars, pair.comma + 1, pair.end);
            let longitude = line.substring_char(first, last);
            if is_float(latitude) && is_float(longitude) {
                Ok(
                    Some(
                        WaypointText {
                            latitude: latitude.to_owned(),
                            longitude: longitude.to_owned(),
                        },
                    ),
                )
            } else {
                Err(ParseError::CoordinateFormat)
            }
        },
        None => Ok(None),
    }
}

/// Reads the waypoints of the lines from `from` on, passing over every line
/// that does not have exactly two fields. Fails at the first line with two
/// fields of which one is no number.
pub fn read_waypoints(lines: &Vec<String>, from: usize) -> (waypoints: Result<
    Vec<WaypointText>,
    ParseError,
>)
    ensures
        match waypoints {
            Ok(waypoints) => waypoints_from(lines.deep_view(), from as int) == Ok::<
                _,
                ParseError,
            >(waypoint_views(waypoints@)),
            Err(error) => waypoints_from(lines.deep_view(), from as int) == Err::<
                Seq<WaypointFields>,
                _,
            >(error),
        },
{
    let mut waypoints: Vec<WaypointText> = Vec::new();
    let mut i: usize = from;
    while i < lines.len()
        invariant
            from <= i,
            followed_by(waypoint_views(waypoints@), waypoints_from(lines.deep_view(), i as int))
                == waypoints_from(lines.deep_view(), from as int),
        decreases lines.len() - i,
    {
        let ghost before = waypoint_views(waypoints@);
        let ghost later = waypoints_from(lines.deep_view(), i + 1);
        match read_waypoint(lines[i].as_str()) {
            Ok(Some(waypoint)) => {
                waypoints.push(waypoint);
                assert(waypoint_views(waypoints@) == before.push(waypoint@));
                assert(later is Ok ==> before.push(waypoint@) + later->Ok_0 == before + (seq![
                    waypoint@,
                ] + later->Ok_0));
            },
            Ok(None) => {},
            Err(error) => {
                return Err(error);
            },
        }
        i += 1;
    }
    Ok(waypoints)
}

/// Reads an input from its lines. The first line names the start time,
/// with or without white space around it; every later line with exactly
/// two fields is a waypoint.
pub fn parse_input(lines: &Vec<String>) -> (input: Result<TrackInput, ParseError>)
    ensures
        match input {
            Ok(input) => input_of(lines.deep_view()) == Ok::<_, ParseError>(
                (input.start, waypoint_views(input.waypoints@)),
            ),
            Err(error) => input_of(lines.deep_view()) == Err::<
                (Timestamp, Seq<WaypointFields>),
                _,
            >(error),
        },
{
    if lines.len() == 0 {
        return Err(ParseError::EmptyInput);
    }
    let start = match Timestamp::parse(trim(lines[0].as_str())) {
        Some(start) => start,
        None => {
            return Err(ParseError::TimestampFormat);
        },
    };
    match read_waypoints(lines, 1) {
        Ok(waypoints) => Ok(TrackInput { start, waypoints }),
        Err(error) => Err(error),
    }
}

/// The number of segments of a route of `waypoints` waypoints.
pub fn segment_count(waypoints: usize) -> (segments: usize)
    ensures
        segments == segments_of(waypoints as int),
        waypoints <= 1 ==> segments == 0,
{
    if waypoints < 2 {
        0
    } else {
        waypoints - 1
    }
}

impl TrackInput {
    /// The number of segments of the route.
    pub fn segment_count(&self) -> (segments: usize)
        ensures
            segments == segments_of(self.waypoints.len() as int),
    {
        segment_count(self.waypoints.len())
    }
}

} // verus!
