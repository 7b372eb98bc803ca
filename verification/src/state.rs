//! The pendulum's generalized coordinates.

use vstd::prelude::*;
use crate::fx;
use crate::angle::{HALF_TURN, TURN};

verus! {

/// Three joint angles and three angular velocities, in fixed-point scaled
/// degrees (and scaled degrees per second). Each angle is relative to its
/// parent link.
#[derive(Clone, Copy, PartialEq, Eq, Structural, Debug)]
pub struct PendulumState {
    pub theta1: i64,
    pub omega1: i64,
    pub theta2: i64,
    pub omega2: i64,
    pub theta3: i64,
    pub omega3: i64,
}

impl PendulumState {
    /// Every component stays inside the representable fixed-point range.
    pub open spec fn wf(self) -> bool {
        &&& fx::in_range(self.theta1 as int)
        &&& fx::in_range(self.omega1 as int)
        &&& fx::in_range(self.theta2 as int)
        &&& fx::in_range(self.omega2 as int)
        &&& fx::in_range(self.theta3 as int)
        &&& fx::in_range(self.omega3 as int)
    }

    /// After a successful step every angle is wrapped into the symmetric
    /// half-open range `(-TURN/2, TURN/2]`; velocities are untouched.
    pub open spec fn normalized(self) -> bool {
        &&& -(HALF_TURN as int) < self.theta1 as int <= HALF_TURN as int
        &&& -(HALF_TURN as int) < self.theta2 as int <= HALF_TURN as int
        &&& -(HALF_TURN as int) < self.theta3 as int <= HALF_TURN as int
    }

    /// Wrap the three joint angles into `(-TURN/2, TURN/2]`, each still
    /// pointing in its original direction; leave the velocities untouched.
    pub fn wrap_angles(&self) -> (r: PendulumState)
        requires
            self.wf(),
        ensures
            r.wf(),
            r.normalized(),
            r.theta1 as int % (TURN as int) == self.theta1 as int % (TURN as int),
            r.theta2 as int % (TURN as int) == self.theta2 as int % (TURN as int),
            r.theta3 as int % (TURN as int) == self.theta3 as int % (TURN as int),
            r.omega1 == self.omega1,
            r.omega2 == self.omega2,
            r.omega3 == self.omega3,
    {
        PendulumState {
            theta1: crate::angle::normalize(self.theta1),
            omega1: self.omega1,
            theta2: crate::angle::normalize(self.theta2),
            omega2: self.omega2,
            theta3: crate::angle::normalize(self.theta3),
            omega3: self.omega3,
        }
    }
}

} // verus!
