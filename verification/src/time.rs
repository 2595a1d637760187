//! Frame timing: when the current frame, update and render pass started, and
//! how long the last of each took.

use vstd::prelude::*;
use std::time::{Duration, Instant};

verus! {

/// A point in time as the system's monotonic clock gives it. Nothing of its
/// inside is known here.
#[verifier::external_type_specification]
#[verifier::external_body]
pub struct ExInstant(Instant);

/// Nanoseconds in the ten milliseconds that every duration starts out with.
pub const INITIAL_DURATION_NANOS: u128 = 10_000_000;

/// Calls `Instant::now`. The result is whatever the clock says; nothing is
/// claimed of it.
#[verifier::external_body]
fn now() -> Instant {
    Instant::now()
}

/// Calls `Instant::elapsed`: the time that has passed since `start`. Nothing
/// is claimed of the result.
#[verifier::external_body]
fn elapsed_since(start: &Instant) -> Duration {
    start.elapsed()
}

/// Calls `Duration::as_nanos`: the whole duration in nanoseconds. The
/// duration is opaque here, so nothing is claimed of the number.
#[verifier::external_body]
fn nanos_of(duration: &Duration) -> u128 {
    duration.as_nanos()
}

/// The clock readings and measured durations of the frame loop. Durations
/// are held in nanoseconds.
pub struct Time {
    frame_start_time: Instant,
    update_start_time: Instant,
    render_start_time: Instant,
    render_duration: u128,
    update_duration: u128,
    frame_time: u128,
}

impl Time {
    /// When the current frame started.
    pub closed spec fn frame_start_time(&self) -> Instant {
        self.frame_start_time
    }

    /// When the current update started.
    pub closed spec fn update_start_time(&self) -> Instant {
        self.update_start_time
    }

    /// When the current render pass started.
    pub closed spec fn render_start_time(&self) -> Instant {
        self.render_start_time
    }

    /// Nanoseconds that the last render pass took.
    pub closed spec fn render_duration(&self) -> u128 {
        self.render_duration
    }

    /// Nanoseconds that the last update took.
    pub closed spec fn update_duration(&self) -> u128 {
        self.update_duration
    }

    /// Nanoseconds that the last frame took.
    pub closed spec fn frame_time(&self) -> u128 {
        self.frame_time
    }

    /// All three starts are read from the clock; all three durations start
    /// out at ten milliseconds.
    pub fn new() -> (time: Time)
        ensures
            time.render_duration() == INITIAL_DURATION_NANOS,
            time.update_duration() == INITIAL_DURATION_NANOS,
            time.frame_time() == INITIAL_DURATION_NANOS,
    {
        Time {
            frame_start_time: now(),
            update_start_time: now(),
            render_start_time: now(),
            render_duration: INITIAL_DURATION_NANOS,
            update_duration: INITIAL_DURATION_NANOS,
            frame_time: INITIAL_DURATION_NANOS,
        }
    }

    /// Measures the frame time: the time since the frame started.
    pub fn update_frame_time(&mut self)
        ensures
            final(self).frame_start_time() == old(self).frame_start_time(),
            final(self).update_start_time() == old(self).update_start_time(),
            final(self).render_start_time() == old(self).render_start_time(),
            final(self).render_duration() == old(self).render_duration(),
            final(self).update_duration() == old(self).update_duration(),
    {
        let elapsed = nanos_of(&elapsed_since(&self.frame_start_time));
        self.record_frame_time(elapsed);
    }

    /// Takes `elapsed` nanoseconds as the time that the last frame took.
    pub fn record_frame_time(&mut self, elapsed: u128)
        ensures
            final(self).frame_time() == elapsed,
            final(self).frame_start_time() == old(self).frame_start_time(),
            final(self).update_start_time() == old(self).update_start_time(),
            final(self).render_start_time() == old(self).render_start_time(),
            final(self).render_duration() == old(self).render_duration(),
            final(self).update_duration() == old(self).update_duration(),
    {
        self.frame_time = elapsed;
    }

    /// Measures the render duration: the time since the render pass started.
    pub fn update_render_time(&mut self)
        ensures
            final(self).frame_start_time() == old(self).frame_start_time(),
            final(self).update_start_time() == old(self).update_start_time(),
            final(self).render_start_time() == old(self).render_start_time(),
            final(self).update_duration() == old(self).update_duration(),
            final(self).frame_time() == old(self).frame_time(),
    {
        let elapsed = nanos_of(&elapsed_since(&self.render_start_time));
        self.record_render_time(elapsed);
    }

    /// Takes `elapsed` nanoseconds as the time that the last render pass
    /// took.
    pub fn record_render_time(&mut self, elapsed: u128)
        ensures
            final(self).render_duration() == elapsed,
            final(self).frame_start_time() == old(self).frame_start_time(),
            final(self).update_start_time() == old(self).update_start_time(),
            final(self).render_start_time() == old(self).render_start_time(),
            final(self).update_duration() == old(self).update_duration(),
            final(self).frame_time() == old(self).frame_time(),
    {
        self.render_duration = elapsed;
    }

    /// Nanoseconds that the last render pass took.
    pub fn gpu_time(&self) -> (nanos: u128)
        ensures
            nanos == self.render_duration(),
    {
        self.render_duration
    }

    /// Measures the update duration. It is counted from the start of the
    /// render pass, not from the start of the update.
    pub fn update_update_time(&mut self)
        ensures
            final(self).frame_start_time() == old(self).frame_start_time(),
            final(self).update_start_time() == old(self).update_start_time(),
            final(self).render_start_time() == old(self).render_start_time(),
            final(self).render_duration() == old(self).render_duration(),
            final(self).frame_time() == old(self).frame_time(),
    {
        let elapsed = nanos_of(&elapsed_since(&self.render_start_time));
        self.record_update_time(elapsed);
    }

    /// Takes `elapsed` nanoseconds as the time that the last update took.
    pub fn record_update_time(&mut self, elapsed: u128)
        ensures
            final(self).update_duration() == elapsed,
            final(self).frame_start_time() == old(self).frame_start_time(),
            final(self).update_start_time() == old(self).update_start_time(),
            final(self).render_start_time() == old(self).render_start_time(),
            final(self).render_duration() == old(self).render_duration(),
            final(self).frame_time() == old(self).frame_time(),
    {
        self.update_duration = elapsed;
    }

    /// Nanoseconds that the last update took.
    pub fn cpu_time(&self) -> (nanos: u128)
        ensures
            nanos == self.update_duration(),
    {
        self.update_duration
    }

    /// Nanoseconds that the last frame took.
    pub fn delta_time(&self) -> (nanos: u128)
        ensures
            nanos == self.frame_time(),
    {
        self.frame_time
    }

    /// Reads the clock as the start of the frame.
    pub fn set_frame_start_time(&mut self)
        ensures
            final(self).update_start_time() == old(self).update_start_time(),
            final(self).render_start_time() == old(self).render_start_time(),
            final(self).render_duration() == old(self).render_duration(),
            final(self).update_duration() == old(self).update_duration(),
            final(self).frame_time() == old(self).frame_time(),
    {
        self.start_frame_at(now());
    }

    /// Reads the clock as the start of the update.
    pub fn set_update_start_time(&mut self)
        ensures
            final(self).frame_start_time() == old(self).frame_start_time(),
            final(self).render_start_time() == old(self).render_start_time(),
            final(self).render_duration() == old(self).render_duration(),
            final(self).update_duration() == old(self).update_duration(),
            final(self).frame_time() == old(self).frame_time(),
    {
        self.start_update_at(now());
    }

    /// Reads the clock as the start of the render pass.
    pub fn set_render_start_time(&mut self)
        ensures
            final(self).frame_start_time() == old(self).frame_start_time(),
            final(self).update_start_time() == old(self).update_start_time(),
            final(self).render_duration() == old(self).render_duration(),
            final(self).update_duration() == old(self).update_duration(),
            final(self).frame_time() == old(self).frame_time(),
    {
        self.start_render_at(now());
    }

    /// Takes `at` as the start of the frame.
    pub fn start_frame_at(&mut self, at: Instant)
        ensures
            final(self).frame_start_time() == at,
            final(self).update_start_time() == old(self).update_start_time(),
            final(self).render_start_time() == old(self).render_start_time(),
            final(self).render_duration() == old(self).render_duration(),
            final(self).update_duration() == old(self).update_duration(),
            final(self).frame_time() == old(self).frame_time(),
    {
        self.frame_start_time = at;
    }

    /// Takes `at` as the start of the update.
    pub fn start_update_at(&mut self, at: Instant)
        ensures
            final(self).update_start_time() == at,
            final(self).frame_start_time() == old(self).frame_start_time(),
            final(self).render_start_time() == old(self).render_start_time(),
            final(self).render_duration() == old(self).render_duration(),
            final(self).update_duration() == old(self).update_duration(),
            final(self).frame_time() == old(self).frame_time(),
    {
        self.update_start_time = at;
    }

    /// Takes `at` as the start of the render pass.
    pub fn start_render_at(&mut self, at: Instant)
        ensures
            final(self).render_start_time() == at,
            final(self).frame_start_time() == old(self).frame_start_time(),
            final(self).update_start_time() == old(self).update_start_time(),
            final(self).render_duration() == old(self).render_duration(),
            final(self).update_duration() == old(self).update_duration(),
            final(self).frame_time() == old(self).frame_time(),
    {
        self.render_start_time = at;
    }
}

} // verus!
