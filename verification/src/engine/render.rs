//! Frame-resource scheduling: a wrapping counter that selects which of the
//! in-flight output-image/readback-buffer pairs the next frame may use.

use vstd::prelude::*;

verus! {

/// Number of output-image/readback-buffer pairs kept in flight at once.
pub const MAX_FRAMES_IN_FLIGHT: usize = 3;

/// Label for the schedule stage in which a frame is recorded and submitted.
pub struct VoxelRender;

/// Monotonically wrapping frame counter: selects the in-flight slot for the
/// next frame. The slot index it hands out is always below
/// [`MAX_FRAMES_IN_FLIGHT`], so indexing a slot array with it cannot go out
/// of bounds.
pub struct FramesInFlight(usize);

impl FramesInFlight {
    /// The slot the next frame will use.
    pub closed spec fn slot(self) -> int {
        self.0 as int
    }

    /// The counter never leaves the slot range.
    pub open spec fn wf(self) -> bool {
        0 <= self.slot() < MAX_FRAMES_IN_FLIGHT
    }

    pub fn get(&self) -> (frame: usize)
        ensures
            frame == self.slot(),
    {
        self.0
    }

    /// Advance to the next slot, wrapping back to 0 after the last one.
    pub fn inc(&mut self)
        requires
            old(self).wf(),
        ensures
            final(self).wf(),
            final(self).slot() == (old(self).slot() + 1) % (MAX_FRAMES_IN_FLIGHT as int),
    {
        self.0 += 1;
        if self.0 >= MAX_FRAMES_IN_FLIGHT {
            self.0 = 0;
        }
    }

    /// Hand out the current slot and advance past it.
    pub fn get_and_inc(&mut self) -> (frame: usize)
        requires
            old(self).wf(),
        ensures
            frame == old(self).slot(),
            final(self).wf(),
            final(self).slot() == (old(self).slot() + 1) % (MAX_FRAMES_IN_FLIGHT as int),
    {
        let frame = self.get();
        self.inc();

        frame
    }
}

impl Default for FramesInFlight {
    /// Scheduling starts at slot 0.
    fn default() -> (r: Self)
        ensures
            r.wf(),
            r.slot() == 0,
    {
        FramesInFlight(0)
    }
}

/// Byte size of one readback buffer for a frame of the given extent: four
/// channels of four bytes per pixel.
pub fn readback_buffer_size(width: u64, height: u64) -> (size: u64)
    requires
        width * height * 16 <= u64::MAX,
    ensures
        size == width * height * 16,
{
    let pixels = width * height;
    pixels * 16
}

} // verus!
