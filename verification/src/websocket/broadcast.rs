//! The progress message and the broadcaster that composes it. The channel
//! that carries the messages is the caller's; every method hands back the
//! message to send.

use vstd::prelude::*;
use crate::extraction::time::{format_rfc3339, now_secs, rfc3339_text};
use crate::text::{percentage_string, percentage_text, text_of};

verus! {

/// Scan progress message.
#[derive(Debug, Clone)]
pub struct ScanProgressMessage {
    pub scanning: bool,
    pub phase: Option<String>,
    pub total_files: u64,
    pub success_count: u64,
    pub failure_count: u64,
    pub progress_percentage: String,
    /// One of idle, started, progress, completed, error, cancelled.
    pub status: String,
    pub files_to_add: u64,
    pub files_to_update: u64,
    pub files_to_delete: u64,
    /// ISO timestamp for scan start.
    pub start_time: Option<String>,
}

/// [`ScanProgressMessage`] with its texts as character sequences.
pub struct ScanProgressMessageView {
    pub scanning: bool,
    pub phase: Option<Seq<char>>,
    pub total_files: u64,
    pub success_count: u64,
    pub failure_count: u64,
    pub progress_percentage: Seq<char>,
    pub status: Seq<char>,
    pub files_to_add: u64,
    pub files_to_update: u64,
    pub files_to_delete: u64,
    pub start_time: Option<Seq<char>>,
}

impl View for ScanProgressMessage {
    type V = ScanProgressMessageView;

    open spec fn view(&self) -> ScanProgressMessageView {
        ScanProgressMessageView {
            scanning: self.scanning,
            phase: text_of(self.phase),
            total_files: self.total_files,
            success_count: self.success_count,
            failure_count: self.failure_count,
            progress_percentage: self.progress_percentage@,
            status: self.status@,
            files_to_add: self.files_to_add,
            files_to_update: self.files_to_update,
            files_to_delete: self.files_to_delete,
            start_time: text_of(self.start_time),
        }
    }
}

/// The message of an idle system: nothing scanning, all counters zero.
pub open spec fn idle_message() -> ScanProgressMessageView {
    ScanProgressMessageView {
        scanning: false,
        phase: None,
        total_files: 0,
        success_count: 0,
        failure_count: 0,
        progress_percentage: "0.00"@,
        status: "idle"@,
        files_to_add: 0,
        files_to_update: 0,
        files_to_delete: 0,
        start_time: None,
    }
}

impl Default for ScanProgressMessage {
    fn default() -> (r: ScanProgressMessage)
        ensures
            r@ == idle_message(),
    {
        ScanProgressMessage {
            scanning: false,
            phase: None,
            total_files: 0,
            success_count: 0,
            failure_count: 0,
            progress_percentage: String::from_str("0.00"),
            status: String::from_str("idle"),
            files_to_add: 0,
            files_to_update: 0,
            files_to_delete: 0,
            start_time: None,
        }
    }
}

/// The message that announces a scan: scanning, status `started`, the given
/// counts and phase, nothing processed yet.
pub open spec fn started_message(
    files_to_add: u64,
    files_to_update: u64,
    files_to_delete: u64,
    total_files: u64,
    phase: Seq<char>,
    start_time: Option<Seq<char>>,
) -> ScanProgressMessageView {
    ScanProgressMessageView {
        scanning: true,
        status: "started"@,
        files_to_add,
        files_to_update,
        files_to_delete,
        total_files,
        start_time,
        phase: Some(phase),
        ..idle_message()
    }
}

/// Broadcaster for scan progress updates: remembers the message sent last
/// and derives the next one from it.
#[derive(Debug, Clone)]
pub struct ScanProgressBroadcaster {
    pub last: Option<ScanProgressMessage>,
}

impl ScanProgressBroadcaster {
    /// The message that the next one is derived from: the one sent last, or
    /// the idle message before any was sent.
    pub open spec fn current(&self) -> ScanProgressMessageView {
        match self.last {
            Some(m) => m@,
            None => idle_message(),
        }
    }

    /// Create a new broadcaster, which has sent nothing.
    pub fn new() -> (r: ScanProgressBroadcaster)
        ensures
            r.last is None,
            r.current() == idle_message(),
    {
        ScanProgressBroadcaster { last: None }
    }

    /// Get current progress state.
    pub fn get_current_progress_sync(&self) -> (r: ScanProgressMessage)
        ensures
            r@ == self.current(),
    {
        match &self.last {
            Some(m) => ScanProgressMessage {
                scanning: m.scanning,
                phase: m.phase.clone(),
                total_files: m.total_files,
                success_count: m.success_count,
                failure_count: m.failure_count,
                progress_percentage: m.progress_percentage.clone(),
                status: m.status.clone(),
                files_to_add: m.files_to_add,
                files_to_update: m.files_to_update,
                files_to_delete: m.files_to_delete,
                start_time: m.start_time.clone(),
            },
            None => ScanProgressMessage::default(),
        }
    }

    /// Get current progress state.
    pub fn get_current_progress(&self) -> (r: ScanProgressMessage)
        ensures
            r@ == self.current(),
    {
        self.get_current_progress_sync()
    }

    fn remember(&mut self, msg: &ScanProgressMessage)
        ensures
            final(self).current() == msg@,
    {
        self.last = Some(
            ScanProgressMessage {
                scanning: msg.scanning,
                phase: msg.phase.clone(),
                total_files: msg.total_files,
                success_count: msg.success_count,
                failure_count: msg.failure_count,
                progress_percentage: msg.progress_percentage.clone(),
                status: msg.status.clone(),
                files_to_add: msg.files_to_add,
                files_to_update: msg.files_to_update,
                files_to_delete: msg.files_to_delete,
                start_time: msg.start_time.clone(),
            },
        );
    }

    /// The started message with a given start time.
    pub fn send_started_at(
        &mut self,
        files_to_add: u64,
        files_to_update: u64,
        files_to_delete: u64,
        total_files: u64,
        phase: &str,
        start_time: Option<String>,
    ) -> (r: ScanProgressMessage)
        ensures
            r@ == started_message(
                files_to_add,
                files_to_update,
                files_to_delete,
                total_files,
                phase@,
                text_of(start_time),
            ),
            final(self).current() == r@,
    {
        let msg = ScanProgressMessage {
            scanning: true,
            phase: Some(String::from_str(phase)),
            total_files,
            success_count: 0,
            failure_count: 0,
            progress_percentage: String::from_str("0.00"),
            status: String::from_str("started"),
            files_to_add,
            files_to_update,
            files_to_delete,
            start_time,
        };
        self.remember(&msg);
        msg
    }

    /// Send scan started message; `phase` is the current phase. The start
    /// time is read from the clock.
    pub fn send_started(
        &mut self,
        files_to_add: u64,
        files_to_update: u64,
        files_to_delete: u64,
        total_files: u64,
        phase: &str,
    ) -> (r: ScanProgressMessage)
        ensures
            exists|start: Option<Seq<char>>|
                r@ == started_message(
                    files_to_add,
                    files_to_update,
                    files_to_delete,
                    total_files,
                    phase@,
                    start,
                ),
            final(self).current() == r@,
    {
        let start_time = format_rfc3339(now_secs());
        self.send_started_at(
            files_to_add,
            files_to_update,
            files_to_delete,
            total_files,
            phase,
            start_time,
        )
    }

    fn send_ended(&mut self, status: &str) -> (r: ScanProgressMessage)
        ensures
            r@ == (ScanProgressMessageView { scanning: false, status: status@, ..old(self).current() }),
            final(self).current() == r@,
    {
        let mut msg = self.get_current_progress_sync();
        msg.scanning = false;
        msg.status = String::from_str(status);
        self.remember(&msg);
        msg
    }

    /// Send scan completed message; preserves the last phase information.
    pub fn send_completed(&mut self) -> (r: ScanProgressMessage)
        ensures
            r@ == (ScanProgressMessageView {
                scanning: false,
                status: "completed"@,
                ..old(self).current()
            }),
            final(self).current() == r@,
    {
        self.send_ended("completed")
    }

    /// Send scan cancelled message.
    pub fn send_cancelled(&mut self) -> (r: ScanProgressMessage)
        ensures
            r@ == (ScanProgressMessageView {
                scanning: false,
                status: "cancelled"@,
                ..old(self).current()
            }),
            final(self).current() == r@,
    {
        self.send_ended("cancelled")
    }

    /// Send error message.
    pub fn send_error(&mut self) -> (r: ScanProgressMessage)
        ensures
            r@ == (ScanProgressMessageView {
                scanning: false,
                status: "error"@,
                ..old(self).current()
            }),
            final(self).current() == r@,
    {
        self.send_ended("error")
    }

    /// Update total files.
    pub fn update_total(&mut self, total: u64) -> (r: ScanProgressMessage)
        ensures
            r@ == (ScanProgressMessageView { total_files: total, ..old(self).current() }),
            final(self).current() == r@,
    {
        let mut msg = self.get_current_progress_sync();
        msg.total_files = total;
        self.remember(&msg);
        msg
    }

    /// Update phase information.
    pub fn update_phase(&mut self, phase: &str) -> (r: ScanProgressMessage)
        ensures
            r@ == (ScanProgressMessageView {
                phase: Some(phase@),
                scanning: true,
                ..old(self).current()
            }),
            final(self).current() == r@,
    {
        let mut msg = self.get_current_progress_sync();
        msg.phase = Some(String::from_str(phase));
        msg.scanning = true;
        self.remember(&msg);
        msg
    }

    /// Update phase information with total files.
    pub fn update_phase_with_total(&mut self, phase: &str, total_files: u64) -> (r:
        ScanProgressMessage)
        ensures
            r@ == (ScanProgressMessageView {
                phase: Some(phase@),
                scanning: true,
                total_files,
                ..old(self).current()
            }),
            final(self).current() == r@,
    {
        let mut msg = self.get_current_progress_sync();
        msg.phase = Some(String::from_str(phase));
        msg.scanning = true;
        msg.total_files = total_files;
        self.remember(&msg);
        msg
    }

    /// Update progress with success and failure counts.
    pub fn send_progress(&mut self, success_count: u64, failure_count: u64, total: u64) -> (r:
        ScanProgressMessage)
        ensures
            r@ == (ScanProgressMessageView {
                success_count,
                failure_count,
                progress_percentage: percentage_text(
                    (success_count + failure_count) as nat,
                    total as nat,
                ),
                status: "progress"@,
                ..old(self).current()
            }),
            final(self).current() == r@,
    {
        let mut msg = self.get_current_progress_sync();
        msg.success_count = success_count;
        msg.failure_count = failure_count;
        msg.progress_percentage = percentage_string(success_count, failure_count, total);
        msg.status = String::from_str("progress");
        self.remember(&msg);
        msg
    }
}

impl Default for ScanProgressBroadcaster {
    fn default() -> (r: ScanProgressBroadcaster)
        ensures
            r.last is None,
    {
        ScanProgressBroadcaster::new()
    }
}

} // verus!
