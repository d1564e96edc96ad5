//! The scheduler of periodic scans: it holds the schedule and whether it
//! runs; the clock that fires the scans is the caller's.

use vstd::prelude::*;

verus! {

/// Scheduler for periodic tasks.
#[derive(Debug, Clone)]
pub struct Scheduler {
    /// The cron expression of the scheduled scan.
    pub cron_expr: String,
    pub running: bool,
}

impl Scheduler {
    /// A scheduler for this cron expression, not yet started.
    pub fn new(cron_expr: &str) -> (r: Scheduler)
        ensures
            r.cron_expr@ == cron_expr@,
            !r.running,
    {
        Scheduler { cron_expr: String::from_str(cron_expr), running: false }
    }

    /// Start the scheduler.
    pub fn start(&mut self)
        ensures
            final(self).running,
            final(self).cron_expr == old(self).cron_expr,
    {
        self.running = true;
    }

    /// Stop the scheduler.
    pub fn stop(&mut self)
        ensures
            !final(self).running,
            final(self).cron_expr == old(self).cron_expr,
    {
        self.running = false;
    }
}

} // verus!
