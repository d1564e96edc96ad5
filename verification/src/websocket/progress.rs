//! A progress tracker that counts results one by one and reports every
//! fifth, and the last.

use vstd::prelude::*;
use crate::text::{percentage_string, percentage_text};
use crate::websocket::broadcast::{idle_message, ScanProgressMessage, ScanProgressMessageView};
use crate::websocket::scan_state::bumped;

verus! {

/// Unified scan progress tracker that ensures ordered progress updates.
#[derive(Debug, Clone)]
pub struct ScanProgressTracker {
    pub phase: String,
    pub phase_message: String,
    pub total: u64,
    pub success_count: u64,
    pub failure_count: u64,
    /// The number of results reported.
    pub processed: u64,
}

/// A message goes out for every fifth result, and for the last.
pub const REPORT_EVERY: u64 = 5;

/// Whether a message goes out once `processed` results are in.
pub open spec fn reports(processed: u64, total: u64) -> bool {
    processed % REPORT_EVERY == 0 || processed == total
}

impl ScanProgressTracker {
    /// The message that shows the tracker.
    pub open spec fn message(&self) -> ScanProgressMessageView {
        ScanProgressMessageView {
            scanning: true,
            status: "progress"@,
            phase: Some(self.phase@),
            total_files: self.total,
            success_count: self.success_count,
            failure_count: self.failure_count,
            progress_percentage: percentage_text(self.processed as nat, self.total as nat),
            ..idle_message()
        }
    }

    /// A tracker with no phase, no total and nothing reported.
    pub fn new() -> (r: ScanProgressTracker)
        ensures
            r.phase@.len() == 0,
            r.phase_message@.len() == 0,
            r.total == 0,
            r.success_count == 0,
            r.failure_count == 0,
            r.processed == 0,
    {
        ScanProgressTracker {
            phase: String::new(),
            phase_message: String::new(),
            total: 0,
            success_count: 0,
            failure_count: 0,
            processed: 0,
        }
    }

    /// Sets the current phase and its message.
    pub fn set_phase(&mut self, phase: &str, message: &str)
        ensures
            final(self).phase@ == phase@,
            final(self).phase_message@ == message@,
            final(self).total == old(self).total,
            final(self).success_count == old(self).success_count,
            final(self).failure_count == old(self).failure_count,
            final(self).processed == old(self).processed,
    {
        self.phase = String::from_str(phase);
        self.phase_message = String::from_str(message);
    }

    /// Sets the number of results to expect.
    pub fn set_total(&mut self, total: u64)
        ensures
            final(self).total == total,
            final(self).phase == old(self).phase,
            final(self).phase_message == old(self).phase_message,
            final(self).success_count == old(self).success_count,
            final(self).failure_count == old(self).failure_count,
            final(self).processed == old(self).processed,
    {
        self.total = total;
    }

    /// Reports one result. It is counted as a success or a failure; a
    /// message goes out for every fifth result and for the last. A counter
    /// at the largest `u64` stays there.
    pub fn report_result(&mut self, success: bool) -> (r: Option<ScanProgressMessage>)
        ensures
            final(self).processed == bumped(old(self).processed),
            final(self).success_count == (if success {
                bumped(old(self).success_count)
            } else {
                old(self).success_count
            }),
            final(self).failure_count == (if success {
                old(self).failure_count
            } else {
                bumped(old(self).failure_count)
            }),
            final(self).total == old(self).total,
            final(self).phase == old(self).phase,
            final(self).phase_message == old(self).phase_message,
            r is Some == reports(final(self).processed, final(self).total),
            r matches Some(m) ==> m@ == final(self).message(),
    {
        if success {
            self.success_count = self.success_count.saturating_add(1);
        } else {
            self.failure_count = self.failure_count.saturating_add(1);
        }
        self.processed = self.processed.saturating_add(1);
        if self.processed % REPORT_EVERY == 0 || self.processed == self.total {
            Some(
                ScanProgressMessage {
                    scanning: true,
                    phase: Some(self.phase.clone()),
                    total_files: self.total,
                    success_count: self.success_count,
                    failure_count: self.failure_count,
                    progress_percentage: percentage_string(self.processed, 0, self.total),
                    status: String::from_str("progress"),
                    files_to_add: 0,
                    files_to_update: 0,
                    files_to_delete: 0,
                    start_time: None,
                },
            )
        } else {
            None
        }
    }

    /// The counts of successes and failures.
    pub fn get_counts(&self) -> (r: (u64, u64))
        ensures
            r == (self.success_count, self.failure_count),
    {
        (self.success_count, self.failure_count)
    }

    /// The number of results to expect.
    pub fn get_total(&self) -> (r: u64)
        ensures
            r == self.total,
    {
        self.total
    }

    /// The current phase and its message.
    pub fn get_phase_info(&self) -> (r: (String, String))
        ensures
            r.0@ == self.phase@,
            r.1@ == self.phase_message@,
    {
        (self.phase.clone(), self.phase_message.clone())
    }
}

} // verus!
