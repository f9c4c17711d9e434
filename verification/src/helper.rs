//! Small input-plumbing types shared by the gesture systems.

use vstd::prelude::*;
use crate::geometry::Point;
use crate::geometry::point_ok;

verus! {

/// The world-space position of the last primary-window cursor movement, if
/// any has been seen; gestures treat `None` as "do nothing this cycle".
#[derive(Clone, Copy, PartialEq, Eq, Structural, Debug)]
pub struct LastPrimaryCursorPos(pub Option<Point>);

impl LastPrimaryCursorPos {
    /// The held position, if any, is in range.
    pub open spec fn wf(self) -> bool {
        match self.0 {
            Some(p) => point_ok(p),
            None => true,
        }
    }
}

} // verus!
