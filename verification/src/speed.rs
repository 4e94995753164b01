//! The speed profile: a random walk between zero and a maximum speed.

use rand::rngs::ThreadRng;
use rand::Rng;
use vstd::prelude::*;

verus! {

/// The highest speed the vehicle reaches, in km/h.
pub const MAX_SPEED_KMH: i32 = 80;

/// The largest change of speed within one second, in km/h.
pub const MAX_SPEED_CHANGE_KMH: i32 = 10;

/// The speed nearest to `value` that the vehicle can have.
pub open spec fn clamp_speed(value: int) -> int {
    if value < 0 {
        0
    } else if value > MAX_SPEED_KMH {
        MAX_SPEED_KMH as int
    } else {
        value
    }
}

/// Whether `speed` is a speed the vehicle can have.
pub open spec fn valid_speed(speed: int) -> bool {
    0 <= speed <= MAX_SPEED_KMH
}

/// Whether `change` is a change of speed that one second allows.
pub open spec fn valid_change(change: int) -> bool {
    -MAX_SPEED_CHANGE_KMH <= change <= MAX_SPEED_CHANGE_KMH
}

/// Whatever is held within the limits is a speed the vehicle can have.
pub proof fn lemma_clamp_speed_valid(value: int)
    ensures
        valid_speed(clamp_speed(value)),
{
}

/// From a speed the vehicle can have, one second changes the speed by no
/// more than the change that was asked for, in the same direction.
pub proof fn lemma_clamp_speed_change(speed: int, change: int)
    requires
        valid_speed(speed),
    ensures
        change >= 0 ==> 0 <= clamp_speed(speed + change) - speed <= change,
        change <= 0 ==> change <= clamp_speed(speed + change) - speed <= 0,
        valid_change(change) ==> valid_change(clamp_speed(speed + change) - speed),
{
}

/// The speed after one second: the current speed plus the change, held
/// within the limits.
pub fn next_speed(current: i32, change: i32) -> (speed: i32)
    ensures
        speed == clamp_speed(current + change),
        valid_speed(speed as int),
{
    let sum: i64 = current as i64 + change as i64;
    if sum < 0 {
        0
    } else if sum > MAX_SPEED_KMH as i64 {
        MAX_SPEED_KMH
    } else {
        sum as i32
    }
}

/// The handle of `rand` to the generator of the current thread. Nothing is
/// known of its state.
#[verifier::external_type_specification]
#[verifier::external_body]
pub struct ExThreadRng(ThreadRng);

/// `rand::thread_rng` hands out a handle to the thread's generator. No claim
/// is made about the handle.
pub assume_specification[ rand::thread_rng ]() -> (rng: ThreadRng);

/// `Rng::gen_range` on the inclusive range from `low` to `high`. The call
/// panics on an empty range, which the precondition excludes; all that is
/// claimed of the sample is that it lies in the range.
#[verifier::external_body]
fn sample_inclusive(rng: &mut ThreadRng, low: i32, high: i32) -> (value: i32)
    requires
        low <= high,
    ensures
        low <= value <= high,
{
    rng.gen_range(low..=high)
}

/// Draws the speed that a run starts with.
pub fn draw_initial_speed(rng: &mut ThreadRng) -> (speed: i32)
    ensures
        valid_speed(speed as int),
{
    sample_inclusive(rng, 0, MAX_SPEED_KMH)
}

/// Draws the change of speed for one second.
pub fn draw_speed_change(rng: &mut ThreadRng) -> (change: i32)
    ensures
        valid_change(change as int),
{
    sample_inclusive(rng, -MAX_SPEED_CHANGE_KMH, MAX_SPEED_CHANGE_KMH)
}

} // verus!
