use vstd::prelude::*;
use crate::trig::ANGLE_MAX;

verus! {

/// The per-frame angle increment: 0.1 radians in SCALE fixed point.
pub const ANGLE_STEP: i64 = 6554;

/// The animation driver's state: the three current rotation angles, all
/// starting at zero and advanced by ANGLE_STEP once per frame.
pub struct AnimationState {
    pub angle_x: i64,
    pub angle_y: i64,
    pub angle_z: i64,
}

impl AnimationState {
    pub fn new() -> (s: Self)
        ensures
            s.angle_x == 0,
            s.angle_y == 0,
            s.angle_z == 0,
    {
        Self { angle_x: 0, angle_y: 0, angle_z: 0 }
    }

    /// Advance all three angles by the fixed per-frame increment.
    pub fn advance(&mut self)
        requires
            0 <= old(self).angle_x <= ANGLE_MAX - ANGLE_STEP,
            0 <= old(self).angle_y <= ANGLE_MAX - ANGLE_STEP,
            0 <= old(self).angle_z <= ANGLE_MAX - ANGLE_STEP,
        ensures
            final(self).angle_x == old(self).angle_x + ANGLE_STEP,
            final(self).angle_y == old(self).angle_y + ANGLE_STEP,
            final(self).angle_z == old(self).angle_z + ANGLE_STEP,
    {
        self.angle_x = self.angle_x + ANGLE_STEP;
        self.angle_y = self.angle_y + ANGLE_STEP;
        self.angle_z = self.angle_z + ANGLE_STEP;
    }
}

} // verus!
