//! A robot's running count of hardware errors.

use vstd::prelude::*;

verus! {

/// Keeps count of how many hardware errors were seen.
pub struct SpiderRobot {
    hardware_error_count: u32,
}

impl SpiderRobot {
    /// A robot that has seen no errors yet.
    pub fn new() -> (robot: SpiderRobot)
        ensures
            robot.error_count() == 0,
    {
        SpiderRobot { hardware_error_count: 0 }
    }

    /// How many errors have been recorded.
    pub closed spec fn error_count(&self) -> nat {
        self.hardware_error_count as nat
    }

    /// Record one more hardware error.
    pub fn add_hardware_error(&mut self)
        requires
            old(self).error_count() < u32::MAX,
        ensures
            final(self).error_count() == old(self).error_count() + 1,
    {
        let n = self.hardware_error_count;
        self.hardware_error_count = n + 1;
    }

    /// True when any error has been recorded.
    pub fn has_hardware_errors(&self) -> (b: bool)
        ensures
            b == (self.error_count() > 0),
    {
        self.hardware_error_count > 0
    }
}

} // verus!
