//! When to run a streaming cycle: the decisions of the render loop, which
//! draws the last batch while the next one is made elsewhere.

use vstd::prelude::*;
use crate::window::chunk_of;

verus! {

/// What the render loop finds when it looks at the streaming cycle that it
/// started last.
#[derive(Clone, Copy, PartialEq, Eq, Structural, Debug)]
pub enum CycleStatus {
    /// No cycle is under way.
    Idle,
    /// A cycle is under way and has not finished.
    Running,
    /// A cycle has finished and its batch waits to be taken.
    Finished,
}

/// What the render loop is to do about streaming in this frame.
#[derive(Clone, Copy, PartialEq, Eq, Structural, Debug)]
pub enum StreamingStep {
    /// Nothing: the camera is in the chunk that the last cycle was made for.
    Rest,
    /// Keep drawing the last batch: the cycle under way is left to finish.
    Wait,
    /// Take the batch of the finished cycle in place of the last one.
    Collect,
    /// Start a cycle around the camera, which has entered another chunk.
    Start,
}

/// The chunk `(first axis, second axis)` that holds the camera.
pub open spec fn camera_chunk(cam_pos: (i64, i64)) -> (i64, i64) {
    ((cam_pos.0 as int / 16) as i64, (cam_pos.1 as int / 16) as i64)
}

/// Remembers for which chunk the last streaming cycle was started.
pub struct StreamingController {
    current_base_chunk: (i64, i64),
}

impl StreamingController {
    /// The chunk that the last cycle was started for.
    pub closed spec fn spec_current_base_chunk(&self) -> (i64, i64) {
        self.current_base_chunk
    }

    /// A controller whose base chunk is the origin.
    pub fn new() -> (controller: Self)
        ensures
            controller.spec_current_base_chunk() == (0i64, 0i64),
    {
        StreamingController { current_base_chunk: (0, 0) }
    }

    /// The chunk that the last cycle was started for.
    #[verifier::when_used_as_spec(spec_current_base_chunk)]
    pub fn current_base_chunk(&self) -> (base: (i64, i64))
        ensures
            base == self.spec_current_base_chunk(),
    {
        self.current_base_chunk
    }

    /// Decides the streaming step of one frame.
    ///
    /// A finished cycle is collected and a running one is waited for,
    /// wherever the camera is: a cycle is never cut short, and its batch is
    /// taken before the next cycle starts. With no cycle under way, a cycle
    /// is started exactly when the camera is in another chunk than the one
    /// that the last cycle was started for, and that chunk is remembered.
    pub fn update_mesh(&mut self, status: CycleStatus, cam_pos: (i64, i64)) -> (step: StreamingStep)
        ensures
            match status {
                CycleStatus::Finished => step == StreamingStep::Collect && final(self).spec_current_base_chunk() == old(self).spec_current_base_chunk(),
                CycleStatus::Running => step == StreamingStep::Wait && final(self).spec_current_base_chunk() == old(self).spec_current_base_chunk(),
                CycleStatus::Idle => if old(self).spec_current_base_chunk() == camera_chunk(cam_pos) {
                    step == StreamingStep::Rest && final(self).spec_current_base_chunk() == old(self).spec_current_base_chunk()
                } else {
                    step == StreamingStep::Start && final(self).spec_current_base_chunk()
                        == camera_chunk(cam_pos)
                },
            },
    {
        match status {
            CycleStatus::Finished => StreamingStep::Collect,
            CycleStatus::Running => StreamingStep::Wait,
            CycleStatus::Idle => {
                let camera = (chunk_of(cam_pos.0), chunk_of(cam_pos.1));
                if self.current_base_chunk.0 != camera.0 || self.current_base_chunk.1 != camera.1 {
                    self.current_base_chunk = camera;
                    StreamingStep::Start
                } else {
                    StreamingStep::Rest
                }
            },
        }
    }
}

} // verus!
