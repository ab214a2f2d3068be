//! The OS permissions the daemon needs; probing them is the caller's
//! platform-specific work, judging the result is not.

use vstd::prelude::*;

verus! {

/// Which of the two required permissions the probes found granted.
#[derive(Clone, Copy, Debug, PartialEq, Eq, Structural)]
pub struct PermissionStatus {
    pub screen_recording: bool,
    pub accessibility: bool,
}

impl PermissionStatus {
    /// Both permissions are granted.
    pub fn all_granted(&self) -> (r: bool)
        ensures
            r == (self.screen_recording && self.accessibility),
    {
        self.screen_recording && self.accessibility
    }

    /// At least one permission is missing.
    pub fn has_missing_permissions(&self) -> (r: bool)
        ensures
            r == !(self.screen_recording && self.accessibility),
    {
        !self.all_granted()
    }
}

} // verus!
