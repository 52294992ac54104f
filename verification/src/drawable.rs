//! The polymorphic contract every visual layer satisfies: it can be drawn
//! into an in-progress frame, and it can be advanced in time.

use vstd::prelude::*;

use crate::frame::{DrawCmd, Frame};
use crate::units::MAX_DELTA_US;

verus! {

/// A layer that can be composed into a frame once per tick.
///
/// `draw` takes the layer by shared reference, so drawing can never mutate
/// simulation state; it appends exactly `self.cmds()` to the frame it is
/// handed and returns that frame for the next layer. `update` advances only
/// time-dependent state, to `self.stepped(delta_us)`; since `draw` reads the
/// state as it was, draw-then-update on one tick leaves the already-composed
/// scene untouched and only affects the next draw.
pub trait Drawable: Sized {
    /// Internal well-formedness of the layer's state.
    spec fn inv(&self) -> bool;

    /// The commands one `draw` call records, in order, given the current state.
    spec fn cmds(&self) -> Seq<DrawCmd>;

    /// The state `update` leaves behind after `delta_us` microseconds elapse.
    spec fn stepped(&self, delta_us: int) -> Self;

    /// Draw into the frame: append this layer's commands and hand the frame on.
    fn draw(&self, frame: Frame) -> (out: Frame)
        requires
            self.inv(),
        ensures
            out@ == frame@ + self.cmds(),
    ;

    /// Advance time-dependent state by `delta_us` microseconds.
    fn update(&mut self, delta_us: u64)
        requires
            old(self).inv(),
            delta_us <= MAX_DELTA_US,
        ensures
            final(self).inv(),
            *final(self) == old(self).stepped(delta_us as int),
    ;
}

} // verus!
