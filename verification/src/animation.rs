//! Sprite animation state: a list of keyframes shown in turn, each for a
//! fixed number of milliseconds, counted from a start instant.
use std::time::{Duration, Instant};
use vstd::prelude::*;

verus! {

#[verifier::external_type_specification]
#[verifier::external_body]
pub struct ExInstant(Instant);

/// `Instant::now`: the current instant. Nothing is stated of the value.
#[verifier::external_body]
fn instant_now() -> Instant {
    Instant::now()
}

/// `Instant::elapsed`: the time since `start`. It depends on the clock, so
/// nothing is stated of it.
#[verifier::external_body]
fn elapsed(start: &Instant) -> Duration {
    start.elapsed()
}

/// `Duration::as_millis`: the whole milliseconds of `duration`. The
/// duration is opaque here, so nothing is stated of the value.
#[verifier::external_body]
fn as_millis(duration: &Duration) -> u128 {
    duration.as_millis()
}

/// The state of a running animation over keyframes of type `K`.
pub struct AnimationState<K> {
    pub keyframes: Vec<K>,
    pub current_keyframe: usize,
    pub start_instant: Instant,
    pub frame_duration: u32,
    pub flip_x: bool,
}

/// The keyframe shown `elapsed` milliseconds after the start, with `count`
/// keyframes of `frame_duration` milliseconds each, looping.
pub open spec fn keyframe_at(elapsed: u128, frame_duration: u32, count: nat) -> int {
    ((elapsed as int / frame_duration as int) % count as int)
}

impl<K> AnimationState<K> {
    /// Sets the current keyframe to the one shown `elapsed` milliseconds after
    /// the start.
    pub fn update_animation_state_at(&mut self, elapsed: u128)
        requires
            old(self).frame_duration > 0,
            old(self).keyframes@.len() > 0,
        ensures
            final(self).current_keyframe == keyframe_at(elapsed, old(self).frame_duration, old(self).keyframes@.len()),
            final(self).current_keyframe < old(self).keyframes@.len(),
            final(self).keyframes == old(self).keyframes,
            final(self).start_instant == old(self).start_instant,
            final(self).frame_duration == old(self).frame_duration,
            final(self).flip_x == old(self).flip_x,
    {
        let count = self.keyframes.len() as u128;
        let frames = elapsed / (self.frame_duration as u128);
        let k = frames % count;
        assert(k < count);
        self.current_keyframe = k as usize;
    }

    /// Sets the current keyframe to the one shown at the current time.
    pub fn update_animation_state(&mut self)
        requires
            old(self).frame_duration > 0,
            old(self).keyframes@.len() > 0,
        ensures
            exists|elapsed: u128| final(self).current_keyframe == keyframe_at(elapsed, old(self).frame_duration, old(self).keyframes@.len()),
            final(self).current_keyframe < old(self).keyframes@.len(),
            final(self).keyframes == old(self).keyframes,
            final(self).start_instant == old(self).start_instant,
            final(self).frame_duration == old(self).frame_duration,
            final(self).flip_x == old(self).flip_x,
    {
        let since_start = elapsed(&self.start_instant);
        let millis = as_millis(&since_start);
        self.update_animation_state_at(millis);
    }
}

impl<K> Default for AnimationState<K> {
    /// A state over no keyframes, started now, 500 ms per frame, not flipped.
    fn default() -> (s: Self)
        ensures
            s.keyframes@.len() == 0,
            s.current_keyframe == 0,
            s.frame_duration == 500,
            !s.flip_x,
    {
        AnimationState {
            keyframes: Vec::new(),
            current_keyframe: 0,
            start_instant: instant_now(),
            frame_duration: 500,
            flip_x: false,
        }
    }
}

/// The animation loops: a full round of keyframes later, the same keyframe
/// is shown.
pub proof fn law_animation_loops(elapsed: u128, frame_duration: u32, count: nat, rounds: nat)
    requires
        frame_duration > 0,
        count > 0,
        elapsed + rounds * count * frame_duration <= u128::MAX,
    ensures
        keyframe_at((elapsed + rounds * count * frame_duration) as u128, frame_duration, count)
            == keyframe_at(elapsed, frame_duration, count),
{
    let d = frame_duration as int;
    let later = elapsed + rounds * count * frame_duration;
    assert(rounds * count * frame_duration == (rounds * count) * d) by (nonlinear_arith)
        requires
            d == frame_duration as int,
    ;
    vstd::arithmetic::div_mod::lemma_hoist_over_denominator(elapsed as int, (rounds * count) as int, d as nat);
    assert(later as int / d == elapsed as int / d + rounds * count);
    vstd::arithmetic::div_mod::lemma_mod_multiples_vanish(rounds as int, elapsed as int / d, count as int);
    assert(count * rounds == rounds * count) by (nonlinear_arith);
}

} // verus!
