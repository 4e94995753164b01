//! The walk along a route: one fix per second, segment after segment.
//!
//! A route of `n` waypoints has `n - 1` segments. The caller says how many
//! steps each segment takes; a segment of `s` steps gives `s` fixes, numbered
//! `0` to `s - 1`, so the far end of a segment is approached and never
//! reported. A segment of no steps gives no fix. The clock advances by one
//! second with every fix, across segments, and the speed takes one random
//! step with every fix.

use crate::clock::Timestamp;
use crate::speed::{
    clamp_speed, draw_initial_speed, draw_speed_change, lemma_clamp_speed_change, next_speed,
    valid_change, valid_speed, MAX_SPEED_KMH,
};
use rand::rngs::ThreadRng;
use vstd::prelude::*;

verus! {

/// One simulated reading: when it was taken, where on the route, and how
/// fast the vehicle was going.
///
/// The place is the step `step` of the `steps` that segment `segment`
/// takes: the fraction `step / steps` of the way from the segment's first
/// waypoint to its second.
#[derive(Clone, Copy, Debug, PartialEq, Eq, Structural)]
pub struct Fix {
    pub time: Timestamp,
    pub segment: usize,
    pub step: u64,
    pub steps: u64,
    pub speed: i32,
}

/// Why a walk cannot be set up.
#[derive(Clone, Copy, Debug, PartialEq, Eq, Structural)]
pub enum TrackError {
    /// The speed to start with is not one the vehicle can have.
    SpeedOutOfRange,
    /// The clock cannot count as far as the last fix.
    ClockOverflow,
}

/// The number of fixes that come before segment `segment` begins.
pub open spec fn steps_before(steps: Seq<u64>, segment: int) -> int
    decreases segment,
{
    if segment <= 0 {
        0
    } else {
        steps_before(steps, segment - 1) + steps[segment - 1]
    }
}

/// The number of fixes of the whole route.
pub open spec fn total_steps(steps: Seq<u64>) -> int {
    steps_before(steps, steps.len() as int)
}

/// Whether the fix numbered `index`, counting from zero over the whole
/// route, is step `step` of segment `segment`.
pub open spec fn at_position(steps: Seq<u64>, index: int, segment: int, step: int) -> bool {
    &&& 0 <= segment < steps.len()
    &&& 0 <= step < steps[segment]
    &&& index == steps_before(steps, segment) + step
}

/// Whether the clock can count from `start` to the second after the last fix.
pub open spec fn clock_reaches(start: Timestamp, steps: Seq<u64>) -> bool {
    start.secs + total_steps(steps) <= i64::MAX
}

/// No segment begins before the first fix.
pub proof fn lemma_steps_before_nonnegative(steps: Seq<u64>, segment: int)
    ensures
        0 <= steps_before(steps, segment),
    decreases segment,
{
    if segment > 0 {
        lemma_steps_before_nonnegative(steps, segment - 1);
    }
}

/// Later segments begin after at least as many fixes as earlier ones.
pub proof fn lemma_steps_before_monotonic(steps: Seq<u64>, earlier: int, later: int)
    requires
        earlier <= later,
    ensures
        steps_before(steps, earlier) <= steps_before(steps, later),
    decreases later - earlier,
{
    if earlier < later {
        lemma_steps_before_monotonic(steps, earlier, later - 1);
    }
}

/// A number names at most one step of one segment.
pub proof fn lemma_position_unique(
    steps: Seq<u64>,
    index: int,
    segment_a: int,
    step_a: int,
    segment_b: int,
    step_b: int,
)
    requires
        at_position(steps, index, segment_a, step_a),
        at_position(steps, index, segment_b, step_b),
    ensures
        segment_a == segment_b,
        step_a == step_b,
{
    if segment_a < segment_b {
        lemma_steps_before_monotonic(steps, segment_a + 1, segment_b);
    } else if segment_b < segment_a {
        lemma_steps_before_monotonic(steps, segment_b + 1, segment_a);
    }
}

/// Every step of every segment is numbered below the total.
pub proof fn lemma_position_in_range(steps: Seq<u64>, index: int, segment: int, step: int)
    requires
        at_position(steps, index, segment, step),
    ensures
        0 <= index < total_steps(steps),
{
    lemma_steps_before_nonnegative(steps, segment);
    lemma_steps_before_monotonic(steps, segment + 1, steps.len() as int);
}

/// The number of fixes of the whole route, or `None` where it is too large
/// to count.
pub fn total_records(steps: &Vec<u64>) -> (total: Option<u64>)
    ensures
        match total {
            Some(count) => count == total_steps(steps@),
            None => total_steps(steps@) > u64::MAX,
        },
{
    let mut sum: u64 = 0;
    let mut i: usize = 0;
    while i < steps.len()
        invariant
            i <= steps.len(),
            sum == steps_before(steps@, i as int),
        decreases steps.len() - i,
    {
        match sum.checked_add(steps[i]) {
            Some(next) => {
                sum = next;
            },
            None => {
                proof {
                    lemma_steps_before_monotonic(steps@, i + 1, steps.len() as int);
                }
                return None;
            },
        }
        i += 1;
    }
    Some(sum)
}

/// The first segment from `from` on that has a step, or the number of
/// segments where none has.
fn next_segment_with_steps(steps: &Vec<u64>, from: usize) -> (segment: usize)
    requires
        from <= steps.len(),
    ensures
        from <= segment <= steps.len(),
        segment < steps.len() ==> steps[segment as int] > 0,
        steps_before(steps@, segment as int) == steps_before(steps@, from as int),
{
    let mut segment: usize = from;
    while segment < steps.len() && steps[segment] == 0
        invariant
            from <= segment <= steps.len(),
            steps_before(steps@, segment as int) == steps_before(steps@, from as int),
        decreases steps.len() - segment,
    {
        segment += 1;
    }
    segment
}

/// What is known of a walk between two fixes.
pub struct TrackState {
    /// The steps that each segment takes.
    pub steps: Seq<u64>,
    /// The number of fixes given out so far.
    pub emitted: int,
    /// The time of the next fix, in seconds.
    pub time: int,
    /// The speed at the latest fix, or the speed to start from.
    pub speed: int,
}

impl TrackState {
    /// What holds of every walk at every moment.
    pub open spec fn well_formed(self) -> bool {
        &&& 0 <= self.emitted <= total_steps(self.steps)
        &&& valid_speed(self.speed)
        &&& i64::MIN <= self.time
        &&& self.time + (total_steps(self.steps) - self.emitted) <= i64::MAX
    }

    /// Whether every fix has been given out.
    pub open spec fn finished(self) -> bool {
        self.emitted == total_steps(self.steps)
    }

    /// Whether `fix` is the next fix of this walk when the speed changes by
    /// `change`.
    pub open spec fn yields(self, change: int, fix: Fix) -> bool {
        &&& fix.time.secs == self.time
        &&& at_position(self.steps, self.emitted, fix.segment as int, fix.step as int)
        &&& fix.steps == self.steps[fix.segment as int]
        &&& fix.speed == clamp_speed(self.speed + change)
    }

    /// The walk after its next fix, when the speed changes by `change`.
    pub open spec fn after(self, change: int) -> TrackState {
        TrackState {
            steps: self.steps,
            emitted: self.emitted + 1,
            time: self.time + 1,
            speed: clamp_speed(self.speed + change),
        }
    }
}

/// Where a walk stands: the place and time of the next fix and the speed of
/// the latest.
#[derive(Clone, Copy)]
struct Cursor {
    segment: usize,
    step: u64,
    time: Timestamp,
    speed: i32,
}

/// A walk along a route that gives out its fixes one by one.
pub struct Synthesizer {
    steps: Vec<u64>,
    cursor: Cursor,
}

impl View for Synthesizer {
    type V = TrackState;

    closed spec fn view(&self) -> TrackState {
        TrackState {
            steps: self.steps@,
            emitted: steps_before(self.steps@, self.cursor.segment as int) + self.cursor.step,
            time: self.cursor.time.secs as int,
            speed: self.cursor.speed as int,
        }
    }
}

impl Synthesizer {
    /// The cursor rests on the next fix, or behind the last segment, and the
    /// clock can count the fixes that are left.
    #[verifier::type_invariant]
    spec fn inv(self) -> bool {
        &&& self.cursor.segment <= self.steps.len()
        &&& self.cursor.segment < self.steps.len() ==> self.cursor.step
            < self.steps[self.cursor.segment as int]
        &&& self.cursor.segment == self.steps.len() ==> self.cursor.step == 0
        &&& valid_speed(self.cursor.speed as int)
        &&& self.cursor.time.secs + total_steps(self.steps@) - steps_before(
            self.steps@,
            self.cursor.segment as int,
        ) - self.cursor.step <= i64::MAX
    }

    proof fn lemma_inv_well_formed(self)
        requires
            self.inv(),
        ensures
            self@.well_formed(),
            self@.finished() <==> self.cursor.segment == self.steps.len(),
    {
        let segment = self.cursor.segment as int;
        lemma_steps_before_nonnegative(self.steps@, segment);
        if segment < self.steps.len() {
            lemma_steps_before_monotonic(self.steps@, segment + 1, self.steps.len() as int);
        }
    }

    /// Sets up a walk that begins at `start` with the speed `speed`, over
    /// segments that take `steps` steps each.
    pub fn with_speed(start: Timestamp, steps: Vec<u64>, speed: i32) -> (walk: Result<
        Synthesizer,
        TrackError,
    >)
        ensures
            match walk {
                Ok(walk) => {
                    &&& valid_speed(speed as int)
                    &&& clock_reaches(start, steps@)
                    &&& walk@ == (TrackState {
                        steps: steps@,
                        emitted: 0,
                        time: start.secs as int,
                        speed: speed as int,
                    })
                    &&& walk@.well_formed()
                },
                Err(TrackError::SpeedOutOfRange) => !valid_speed(speed as int),
                Err(TrackError::ClockOverflow) => valid_speed(speed as int) && !clock_reaches(
                    start,
                    steps@,
                ),
            },
    {
        if speed < 0 || speed > MAX_SPEED_KMH {
            return Err(TrackError::SpeedOutOfRange);
        }
        let fits = match total_records(&steps) {
            Some(total) => start.after(total).is_some(),
            None => false,
        };
        if !fits {
            return Err(TrackError::ClockOverflow);
        }
        let segment = next_segment_with_steps(&steps, 0);
        let walk = Synthesizer { steps, cursor: Cursor { segment, step: 0, time: start, speed } };
        proof {
            walk.lemma_inv_well_formed();
        }
        Ok(walk)
    }

    /// Sets up a walk that begins at `start` with a speed drawn from `rng`.
    pub fn new(start: Timestamp, steps: Vec<u64>, rng: &mut ThreadRng) -> (walk: Result<
        Synthesizer,
        TrackError,
    >)
        ensures
            match walk {
                Ok(walk) => {
                    &&& clock_reaches(start, steps@)
                    &&& walk@.steps == steps@
                    &&& walk@.emitted == 0
                    &&& walk@.time == start.secs
                    &&& walk@.well_formed()
                },
                Err(error) => error == TrackError::ClockOverflow && !clock_reaches(start, steps@),
            },
    {
        let speed = draw_initial_speed(rng);
        Self::with_speed(start, steps, speed)
    }

    /// Whether every fix has been given out.
    pub fn is_finished(&self) -> (finished: bool)
        ensures
            finished == self@.finished(),
            self@.well_formed(),
    {
        proof {
            use_type_invariant(self);
            self.lemma_inv_well_formed();
        }
        self.cursor.segment == self.steps.len()
    }

    /// The time of the next fix.
    pub fn time(&self) -> (time: Timestamp)
        ensures
            time.secs == self@.time,
    {
        self.cursor.time
    }

    /// The speed at the latest fix, or the speed to start from.
    pub fn speed(&self) -> (speed: i32)
        ensures
            speed == self@.speed,
            valid_speed(speed as int),
    {
        proof {
            use_type_invariant(self);
        }
        self.cursor.speed
    }

    /// Gives out the next fix, with the speed changed by `change` and held
    /// within its limits, and moves on by one second. Gives `None`, and
    /// changes nothing, once every fix has been given out.
    pub fn advance(&mut self, change: i32) -> (fix: Option<Fix>)
        ensures
            final(self)@.well_formed(),
            match fix {
                Some(fix) => {
                    &&& !old(self)@.finished()
                    &&& old(self)@.yields(change as int, fix)
                    &&& final(self)@ == old(self)@.after(change as int)
                },
                None => old(self)@.finished() && final(self)@ == old(self)@,
            },
    {
        proof {
            use_type_invariant(&*self);
            self.lemma_inv_well_formed();
        }
        let cursor = self.cursor;
        if cursor.segment >= self.steps.len() {
            return None;
        }
        let steps = self.steps[cursor.segment];
        let speed = next_speed(cursor.speed, change);
        let fix = Fix { time: cursor.time, segment: cursor.segment, step: cursor.step, steps, speed };
        let time = Timestamp { secs: cursor.time.secs + 1 };
        let next = if cursor.step + 1 < steps {
            Cursor { segment: cursor.segment, step: cursor.step + 1, time, speed }
        } else {
            let segment = next_segment_with_steps(&self.steps, cursor.segment + 1);
            Cursor { segment, step: 0, time, speed }
        };
        self.cursor = next;
        proof {
            self.lemma_inv_well_formed();
        }
        Some(fix)
    }

    /// Gives out the next fix, with a change of speed drawn from `rng`.
    pub fn next_fix(&mut self, rng: &mut ThreadRng) -> (fix: Option<Fix>)
        ensures
            final(self)@.well_formed(),
            match fix {
                Some(fix) => exists|change: int|
                    {
                        &&& valid_change(change)
                        &&& #[trigger] old(self)@.yields(change, fix)
                        &&& final(self)@ == old(self)@.after(change)
                    },
                None => old(self)@.finished() && final(self)@ == old(self)@,
            },
            fix is None <==> old(self)@.finished(),
    {
        let change = draw_speed_change(rng);
        self.advance(change)
    }
}

/// Whether `fixes` is the beginning of a track that starts at `start` over
/// segments of `steps` steps each: fix number `k` is taken `k` seconds after
/// `start`, at the step of the route that has the number `k`; every speed is
/// one the vehicle can have, and from one fix to the next the speed changes
/// by no more than one second allows.
pub open spec fn is_track_prefix(fixes: Seq<Fix>, start: Timestamp, steps: Seq<u64>) -> bool {
    &&& forall|k: int|
        0 <= k < fixes.len() ==> {
            &&& (#[trigger] fixes[k]).time.secs == start.secs + k
            &&& at_position(steps, k, fixes[k].segment as int, fixes[k].step as int)
            &&& fixes[k].steps == steps[fixes[k].segment as int]
            &&& valid_speed(fixes[k].speed as int)
        }
    &&& forall|k: int|
        0 < k < fixes.len() ==> valid_change((#[trigger] fixes[k]).speed - fixes[k - 1].speed)
}

/// Whether `fixes` is a whole track: a beginning of one that holds a fix for
/// every step of the route.
pub open spec fn is_track(fixes: Seq<Fix>, start: Timestamp, steps: Seq<u64>) -> bool {
    &&& is_track_prefix(fixes, start, steps)
    &&& fixes.len() == total_steps(steps)
}

/// Walks the whole route and returns its fixes in order, with speeds drawn
/// from the generator of the current thread. Fails where the clock cannot
/// count as far as the last fix, and only there.
pub fn generate(start: Timestamp, steps: Vec<u64>) -> (track: Result<Vec<Fix>, TrackError>)
    ensures
        match track {
            Ok(fixes) => clock_reaches(start, steps@) && is_track(fixes@, start, steps@),
            Err(error) => error == TrackError::ClockOverflow && !clock_reaches(start, steps@),
        },
{
    let ghost route = steps@;
    let mut rng = rand::thread_rng();
    let mut walk = match Synthesizer::new(start, steps, &mut rng) {
        Ok(walk) => walk,
        Err(error) => {
            return Err(error);
        },
    };
    let mut fixes: Vec<Fix> = Vec::new();
    loop
        invariant
            walk@.steps == route,
            walk@.well_formed(),
            walk@.emitted == fixes.len(),
            walk@.time == start.secs + fixes.len(),
            fixes.len() > 0 ==> walk@.speed == fixes[fixes.len() - 1].speed,
            is_track_prefix(fixes@, start, route),
        ensures
            is_track(fixes@, start, route),
        decreases total_steps(route) - fixes.len(),
    {
        let ghost before = walk@;
        match walk.next_fix(&mut rng) {
            Some(fix) => {
                proof {
                    let change = choose|change: int|
                        {
                            &&& valid_change(change)
                            &&& #[trigger] before.yields(change, fix)
                            &&& walk@ == before.after(change)
                        };
                    lemma_clamp_speed_change(before.speed, change);
                }
                fixes.push(fix);
            },
            None => {
                break ;
            },
        }
    }
    Ok(fixes)
}

/// Every speed of a track lies between zero and the maximum.
pub proof fn lemma_track_speeds_within_limits(
    fixes: Seq<Fix>,
    start: Timestamp,
    steps: Seq<u64>,
    k: int,
)
    requires
        is_track_prefix(fixes, start, steps),
        0 <= k < fixes.len(),
    ensures
        0 <= fixes[k].speed <= MAX_SPEED_KMH,
{
}

/// The first fix of a track is taken at the start time, at step zero of its
/// segment.
pub proof fn lemma_track_first_fix(fixes: Seq<Fix>, start: Timestamp, steps: Seq<u64>)
    requires
        is_track_prefix(fixes, start, steps),
        fixes.len() > 0,
    ensures
        fixes[0].time == start,
        fixes[0].step == 0,
{
    lemma_steps_before_nonnegative(steps, fixes[0].segment as int);
}

/// Each fix of a track is taken exactly one second after the one before it,
/// whether or not the two lie in the same segment.
pub proof fn lemma_track_one_second_apart(
    fixes: Seq<Fix>,
    start: Timestamp,
    steps: Seq<u64>,
    k: int,
)
    requires
        is_track_prefix(fixes, start, steps),
        0 < k < fixes.len(),
    ensures
        fixes[k].time.secs == fixes[k - 1].time.secs + 1,
{
}

/// The fixes of one segment stand together in a track, in the order of
/// their steps, and they are as many as the segment has steps: the fix
/// that follows `offset` others of segment `segment` is its step `offset`.
pub proof fn lemma_track_segment_fixes(
    fixes: Seq<Fix>,
    start: Timestamp,
    steps: Seq<u64>,
    segment: int,
    offset: int,
)
    requires
        is_track(fixes, start, steps),
        0 <= segment < steps.len(),
        0 <= offset < steps[segment],
    ensures
        0 <= steps_before(steps, segment) + offset < fixes.len(),
        fixes[steps_before(steps, segment) + offset].segment == segment,
        fixes[steps_before(steps, segment) + offset].step == offset,
{
    let k = steps_before(steps, segment) + offset;
    lemma_position_in_range(steps, k, segment, offset);
    lemma_position_unique(steps, k, segment, offset, fixes[k].segment as int, fixes[k].step as int);
}

/// A segment without steps has no fix in a track.
pub proof fn lemma_track_skips_empty_segment(
    fixes: Seq<Fix>,
    start: Timestamp,
    steps: Seq<u64>,
    segment: int,
    k: int,
)
    requires
        is_track_prefix(fixes, start, steps),
        0 <= segment < steps.len(),
        steps[segment] == 0,
        0 <= k < fixes.len(),
    ensures
        fixes[k].segment != segment,
{
}

/// A route without segments has an empty track.
pub proof fn lemma_track_of_no_segments(fixes: Seq<Fix>, start: Timestamp, steps: Seq<u64>)
    requires
        is_track(fixes, start, steps),
        steps.len() == 0,
    ensures
        fixes.len() == 0,
{
}

} // verus!
