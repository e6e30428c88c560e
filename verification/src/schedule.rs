//! The recurring-task registry: each task names itself and computes how long
//! to wait until its next run. Running a task is I/O and stays outside the
//! library; the wait computation is verified.

use vstd::prelude::*;

use crate::time::{time_until, SECS_PER_DAY};

verus! {

/// The daily status-update check, anchored at the local cutoff hour.
pub struct StatusUpdateCheck;

impl StatusUpdateCheck {
    /// The task's display name.
    pub fn name(&self) -> (r: &'static str)
        ensures
            r@ == "Status Update Check"@,
    {
        "Status Update Check"
    }

    /// Seconds until the task should next run: the next local occurrence of
    /// the daily anchor, re-derived from the wall clock on every call.
    pub fn run_in(&self) -> (r: u64)
        ensures
            0 < r <= SECS_PER_DAY,
    {
        time_until(5, 0)
    }
}

} // verus!
