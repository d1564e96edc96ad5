//! The scan state and its single owner: updates go in one at a time, and
//! each call says whether a message goes out and which.

use vstd::prelude::*;
use crate::extraction::time::{format_rfc3339, now_secs, rfc3339_text};
use crate::text::{percentage_string, percentage_text};
use crate::websocket::broadcast::{ScanProgressMessage, ScanProgressMessageView};

verus! {

/// Scan phase.
#[derive(Debug, Clone, Copy, PartialEq, Eq, Structural)]
pub enum ScanPhase {
    Idle,
    Collecting,
    Counting,
    Processing,
    Writing,
    Deleting,
    Completed,
    Error,
    Cancelled,
}

impl Default for ScanPhase {
    fn default() -> (r: ScanPhase)
        ensures
            r == ScanPhase::Idle,
    {
        ScanPhase::Idle
    }
}

impl ScanPhase {
    /// Whether a scan is under way in this phase.
    pub open spec fn is_active(self) -> bool {
        self == ScanPhase::Collecting || self == ScanPhase::Counting || self
            == ScanPhase::Processing || self == ScanPhase::Writing || self == ScanPhase::Deleting
    }

    /// Whether this phase ends a scan.
    pub open spec fn is_terminal(self) -> bool {
        self == ScanPhase::Completed || self == ScanPhase::Error || self == ScanPhase::Cancelled
    }

    /// The phase's name on the wire.
    pub open spec fn name(self) -> Seq<char> {
        match self {
            ScanPhase::Idle => "idle"@,
            ScanPhase::Collecting => "collecting"@,
            ScanPhase::Counting => "counting"@,
            ScanPhase::Processing => "processing"@,
            ScanPhase::Writing => "writing"@,
            ScanPhase::Deleting => "deleting"@,
            ScanPhase::Completed => "completed"@,
            ScanPhase::Error => "error"@,
            ScanPhase::Cancelled => "cancelled"@,
        }
    }

    /// The status that a message in this phase carries.
    pub open spec fn status(self) -> Seq<char> {
        match self {
            ScanPhase::Idle => "idle"@,
            ScanPhase::Completed => "completed"@,
            ScanPhase::Error => "error"@,
            ScanPhase::Cancelled => "cancelled"@,
            _ => "progress"@,
        }
    }

    /// Whether a scan is under way in this phase.
    pub fn active(self) -> (r: bool)
        ensures
            r == self.is_active(),
    {
        match self {
            ScanPhase::Collecting
            | ScanPhase::Counting
            | ScanPhase::Processing
            | ScanPhase::Writing
            | ScanPhase::Deleting => true,
            _ => false,
        }
    }

    /// Whether this phase ends a scan.
    pub fn terminal(self) -> (r: bool)
        ensures
            r == self.is_terminal(),
    {
        match self {
            ScanPhase::Completed | ScanPhase::Error | ScanPhase::Cancelled => true,
            _ => false,
        }
    }

    /// The phase's name on the wire, in lower case.
    pub fn as_str(self) -> (r: &'static str)
        ensures
            r@ == self.name(),
    {
        match self {
            ScanPhase::Idle => "idle",
            ScanPhase::Collecting => "collecting",
            ScanPhase::Counting => "counting",
            ScanPhase::Processing => "processing",
            ScanPhase::Writing => "writing",
            ScanPhase::Deleting => "deleting",
            ScanPhase::Completed => "completed",
            ScanPhase::Error => "error",
            ScanPhase::Cancelled => "cancelled",
        }
    }
}

/// Scan state. The start time is in seconds since the Unix epoch.
#[derive(Debug, Clone, Copy, PartialEq, Eq, Structural)]
pub struct ScanState {
    pub phase: ScanPhase,
    pub scanning: bool,
    pub total_files: u64,
    pub success_count: u64,
    pub failure_count: u64,
    pub files_to_add: u64,
    pub files_to_update: u64,
    pub files_to_delete: u64,
    pub start_time: Option<i64>,
}

/// The state of an idle system.
pub open spec fn idle_state() -> ScanState {
    ScanState {
        phase: ScanPhase::Idle,
        scanning: false,
        total_files: 0,
        success_count: 0,
        failure_count: 0,
        files_to_add: 0,
        files_to_update: 0,
        files_to_delete: 0,
        start_time: None,
    }
}

impl Default for ScanState {
    fn default() -> (r: ScanState)
        ensures
            r == idle_state(),
    {
        ScanState {
            phase: ScanPhase::Idle,
            scanning: false,
            total_files: 0,
            success_count: 0,
            failure_count: 0,
            files_to_add: 0,
            files_to_update: 0,
            files_to_delete: 0,
            start_time: None,
        }
    }
}

impl ScanState {
    /// `scanning` is set exactly in the phases of a running scan.
    pub open spec fn wf(&self) -> bool {
        self.scanning == self.phase.is_active()
    }

    /// The files processed so far, capped at the largest `u64`.
    pub open spec fn processed(&self) -> u64 {
        if self.success_count + self.failure_count > u64::MAX {
            u64::MAX
        } else {
            (self.success_count + self.failure_count) as u64
        }
    }

    /// The message that shows this state.
    pub open spec fn message(&self) -> ScanProgressMessageView {
        ScanProgressMessageView {
            scanning: self.scanning,
            phase: Some(self.phase.name()),
            total_files: self.total_files,
            success_count: self.success_count,
            failure_count: self.failure_count,
            progress_percentage: percentage_text(
                (self.success_count + self.failure_count) as nat,
                self.total_files as nat,
            ),
            status: self.phase.status(),
            files_to_add: self.files_to_add,
            files_to_update: self.files_to_update,
            files_to_delete: self.files_to_delete,
            start_time: match self.start_time {
                Some(t) => rfc3339_text(t as int),
                None => None,
            },
        }
    }
}

/// Progress update: what the scan engine and the per-file reporters send.
#[derive(Debug, Clone, Copy, PartialEq, Eq, Structural)]
pub enum ProgressUpdate {
    SetPhase(ScanPhase),
    SetTotal(u64),
    IncrementSuccess,
    IncrementFailure,
    /// Files to add, to update, to delete.
    SetFileCounts(u64, u64, u64),
    /// Clears the two counters; never sent on.
    ResetCounters,
    Started,
    Completed,
    Error,
    Cancelled,
}

impl ProgressUpdate {
    /// Whether the update ends a scan.
    pub open spec fn is_terminal(self) -> bool {
        match self {
            ProgressUpdate::Completed | ProgressUpdate::Error | ProgressUpdate::Cancelled => true,
            ProgressUpdate::SetPhase(p) => p.is_terminal(),
            _ => false,
        }
    }

    /// Whether the update is sent on whatever the counters say: a phase
    /// change, the start, or an end.
    pub open spec fn always_emits(self) -> bool {
        match self {
            ProgressUpdate::SetPhase(_)
            | ProgressUpdate::Started
            | ProgressUpdate::Completed
            | ProgressUpdate::Error
            | ProgressUpdate::Cancelled => true,
            _ => false,
        }
    }

    /// Whether the update clears the two counters.
    pub open spec fn clears_counters(self) -> bool {
        self == ProgressUpdate::ResetCounters || self == ProgressUpdate::Started
    }
}

/// `n + 1`, staying at the largest `u64`.
pub open spec fn bumped(n: u64) -> u64 {
    if n == u64::MAX {
        n
    } else {
        (n + 1) as u64
    }
}

/// The state once an update has been applied, before anything is sent.
/// `now` is the start time that `Started` records.
pub open spec fn updated(s: ScanState, u: ProgressUpdate, now: i64) -> ScanState {
    match u {
        ProgressUpdate::SetPhase(p) => ScanState { phase: p, scanning: p.is_active(), ..s },
        ProgressUpdate::SetTotal(n) => ScanState { total_files: n, ..s },
        ProgressUpdate::IncrementSuccess => ScanState { success_count: bumped(s.success_count), ..s },
        ProgressUpdate::IncrementFailure => ScanState { failure_count: bumped(s.failure_count), ..s },
        ProgressUpdate::SetFileCounts(add, update, delete) => ScanState {
            files_to_add: add,
            files_to_update: update,
            files_to_delete: delete,
            ..s
        },
        ProgressUpdate::ResetCounters => ScanState { success_count: 0, failure_count: 0, ..s },
        ProgressUpdate::Started => ScanState {
            scanning: true,
            phase: if s.phase.is_active() {
                s.phase
            } else {
                ScanPhase::Collecting
            },
            start_time: Some(now),
            success_count: 0,
            failure_count: 0,
            ..s
        },
        ProgressUpdate::Completed => ScanState { scanning: false, phase: ScanPhase::Completed, ..s },
        ProgressUpdate::Error => ScanState { scanning: false, phase: ScanPhase::Error, ..s },
        ProgressUpdate::Cancelled => ScanState { scanning: false, phase: ScanPhase::Cancelled, ..s },
    }
}

/// Scan state manager: the one owner of the scan state.
#[derive(Debug, Clone, Copy, PartialEq, Eq, Structural)]
pub struct ScanStateManager {
    pub state: ScanState,
    /// The number of processed files that the last message showed.
    pub last_progress_reported: u64,
    /// A message goes out every this many processed files.
    pub broadcast_interval: u64,
}

/// The interval between progress messages, in files, unless another is
/// given.
pub const DEFAULT_BROADCAST_INTERVAL: u64 = 10;

/// What the last message showed, once the update's effect on the counters is
/// taken in: nothing where they were cleared.
pub open spec fn reported_before(m: ScanStateManager, u: ProgressUpdate) -> u64 {
    if u.clears_counters() {
        0
    } else {
        m.last_progress_reported
    }
}

/// The files processed since the last message, once the update is applied;
/// 0 where the last message showed more.
pub open spec fn progress_since(m: ScanStateManager, u: ProgressUpdate, now: i64) -> int {
    if updated(m.state, u, now).processed() >= reported_before(m, u) {
        updated(m.state, u, now).processed() - reported_before(m, u)
    } else {
        0
    }
}

/// Whether a message goes out for an update.
pub open spec fn emits(m: ScanStateManager, u: ProgressUpdate, now: i64) -> bool {
    u.always_emits() || progress_since(m, u, now) >= m.broadcast_interval
}

/// The manager after an update.
pub open spec fn manager_after(m: ScanStateManager, u: ProgressUpdate, now: i64) -> ScanStateManager {
    let s = updated(m.state, u, now);
    if !emits(m, u, now) {
        ScanStateManager { state: s, last_progress_reported: reported_before(m, u), ..m }
    } else if u.is_terminal() {
        ScanStateManager { state: idle_state(), last_progress_reported: 0, ..m }
    } else {
        ScanStateManager { state: s, last_progress_reported: s.processed(), ..m }
    }
}

/// The message that goes out for an update, if one does: it shows the state
/// with the update applied, before any reset.
pub open spec fn message_after(m: ScanStateManager, u: ProgressUpdate, now: i64) -> Option<
    ScanProgressMessageView,
> {
    if emits(m, u, now) {
        Some(updated(m.state, u, now).message())
    } else {
        None
    }
}

impl ScanStateManager {
    /// The state is well-formed and no message showed more than is
    /// processed.
    pub open spec fn wf(&self) -> bool {
        self.state.wf() && self.last_progress_reported <= self.state.processed()
    }

    /// Whether the manager is well-formed; for callers that cannot prove
    /// it.
    pub fn is_well_formed(&self) -> (r: bool)
        ensures
            r == self.wf(),
    {
        let processed = self.state.success_count.saturating_add(self.state.failure_count);
        self.state.scanning == self.state.phase.active() && self.last_progress_reported
            <= processed
    }

    /// A manager with the default broadcast interval of 10.
    pub fn new() -> (r: ScanStateManager)
        ensures
            r.state == idle_state(),
            r.last_progress_reported == 0,
            r.broadcast_interval == DEFAULT_BROADCAST_INTERVAL,
            r.wf(),
    {
        Self::new_with_interval(DEFAULT_BROADCAST_INTERVAL)
    }

    /// A manager with a configurable broadcast interval.
    pub fn new_with_interval(broadcast_interval: u64) -> (r: ScanStateManager)
        ensures
            r.state == idle_state(),
            r.last_progress_reported == 0,
            r.broadcast_interval == broadcast_interval,
            r.wf(),
    {
        ScanStateManager {
            state: ScanState::default(),
            last_progress_reported: 0,
            broadcast_interval,
        }
    }

    /// Sets the broadcast interval.
    pub fn set_broadcast_interval(&mut self, interval: u64)
        ensures
            *final(self) == (ScanStateManager { broadcast_interval: interval, ..*old(self) }),
    {
        self.broadcast_interval = interval;
    }

    /// The status that goes with a phase.
    pub fn status_from_phase(phase: ScanPhase) -> (r: String)
        ensures
            r@ == phase.status(),
    {
        match phase {
            ScanPhase::Idle => String::from_str("idle"),
            ScanPhase::Collecting
            | ScanPhase::Counting
            | ScanPhase::Processing
            | ScanPhase::Writing
            | ScanPhase::Deleting => String::from_str("progress"),
            ScanPhase::Completed => String::from_str("completed"),
            ScanPhase::Error => String::from_str("error"),
            ScanPhase::Cancelled => String::from_str("cancelled"),
        }
    }

    /// The current state, for queries.
    pub fn get_state(&self) -> (r: ScanState)
        ensures
            r == self.state,
    {
        self.state
    }

    fn message_of(state: &ScanState) -> (r: ScanProgressMessage)
        ensures
            r@ == state.message(),
    {
        ScanProgressMessage {
            scanning: state.scanning,
            phase: Some(String::from_str(state.phase.as_str())),
            total_files: state.total_files,
            success_count: state.success_count,
            failure_count: state.failure_count,
            progress_percentage: percentage_string(
                state.success_count,
                state.failure_count,
                state.total_files,
            ),
            status: Self::status_from_phase(state.phase),
            files_to_add: state.files_to_add,
            files_to_update: state.files_to_update,
            files_to_delete: state.files_to_delete,
            start_time: match state.start_time {
                Some(t) => format_rfc3339(t),
                None => None,
            },
        }
    }

    /// The current state as a progress message.
    pub fn to_progress_message(&self) -> (r: ScanProgressMessage)
        ensures
            r@ == self.state.message(),
    {
        Self::message_of(&self.state)
    }

    /// Applies one update and says whether a message goes out.
    ///
    /// A message goes out at once on a phase change, on the start and on an
    /// end; otherwise when the processed files exceed what the last message
    /// showed by the broadcast interval. After the message of an end the
    /// state is idle again, with all counters cleared. A counter at the
    /// largest `u64` stays there. `now` is recorded as the start time by
    /// `Started`.
    pub fn apply(&mut self, update: ProgressUpdate, now: i64) -> (r: Option<ScanProgressMessage>)
        ensures
            *final(self) == manager_after(*old(self), update, now),
            r is Some == message_after(*old(self), update, now) is Some,
            r matches Some(m) ==> message_after(*old(self), update, now) == Some(m@),
            old(self).wf() ==> final(self).wf(),
    {
        let mut terminal = false;
        let mut always = false;
        match update {
            ProgressUpdate::SetPhase(phase) => {
                self.state.phase = phase;
                self.state.scanning = phase.active();
                terminal = phase.terminal();
                always = true;
            },
            ProgressUpdate::SetTotal(total) => {
                self.state.total_files = total;
            },
            ProgressUpdate::IncrementSuccess => {
                self.state.success_count = self.state.success_count.saturating_add(1);
            },
            ProgressUpdate::IncrementFailure => {
                self.state.failure_count = self.state.failure_count.saturating_add(1);
            },
            ProgressUpdate::SetFileCounts(add, update, delete) => {
                self.state.files_to_add = add;
                self.state.files_to_update = update;
                self.state.files_to_delete = delete;
            },
            ProgressUpdate::ResetCounters => {
                self.state.success_count = 0;
                self.state.failure_count = 0;
                self.last_progress_reported = 0;
            },
            ProgressUpdate::Started => {
                self.state.scanning = true;
                if !self.state.phase.active() {
                    self.state.phase = ScanPhase::Collecting;
                }
                self.state.start_time = Some(now);
                self.state.success_count = 0;
                self.state.failure_count = 0;
                self.last_progress_reported = 0;
                always = true;
            },
            ProgressUpdate::Completed => {
                self.state.scanning = false;
                self.state.phase = ScanPhase::Completed;
                terminal = true;
                always = true;
            },
            ProgressUpdate::Error => {
                self.state.scanning = false;
                self.state.phase = ScanPhase::Error;
                terminal = true;
                always = true;
            },
            ProgressUpdate::Cancelled => {
                self.state.scanning = false;
                self.state.phase = ScanPhase::Cancelled;
                terminal = true;
                always = true;
            },
        }
        assert(self.state == updated(old(self).state, update, now));
        let processed = self.state.success_count.saturating_add(self.state.failure_count);
        if always || processed.saturating_sub(self.last_progress_reported)
            >= self.broadcast_interval {
            let msg = Self::message_of(&self.state);
            self.last_progress_reported = processed;
            if terminal {
                self.state = ScanState::default();
                self.last_progress_reported = 0;
            }
            Some(msg)
        } else {
            None
        }
    }

    /// Applies one update; `Started` takes the start time from the clock.
    /// What holds of [`ScanStateManager::apply`] holds of this call for the
    /// instant that the clock gave.
    pub fn handle(&mut self, update: ProgressUpdate) -> (r: Option<ScanProgressMessage>)
        ensures
            old(self).wf() ==> final(self).wf(),
            exists|now: i64|
                {
                    &&& *final(self) == manager_after(*old(self), update, now)
                    &&& r is Some == message_after(*old(self), update, now) is Some
                    &&& r matches Some(m) ==> message_after(*old(self), update, now) == Some(m@)
                },
    {
        let now = now_secs();
        self.apply(update, now)
    }

    /// Enters a phase.
    pub fn set_phase(&mut self, phase: ScanPhase) -> (r: Option<ScanProgressMessage>)
        ensures
            old(self).wf() ==> final(self).wf(),
            *final(self) == manager_after(*old(self), ProgressUpdate::SetPhase(phase), 0),
            r matches Some(m) && message_after(*old(self), ProgressUpdate::SetPhase(phase), 0)
                == Some(m@),
    {
        self.apply(ProgressUpdate::SetPhase(phase), 0)
    }

    /// Sets the number of files that the running phase handles.
    pub fn set_total(&mut self, total: u64) -> (r: Option<ScanProgressMessage>)
        ensures
            old(self).wf() ==> final(self).wf(),
            *final(self) == manager_after(*old(self), ProgressUpdate::SetTotal(total), 0),
            r is Some == message_after(*old(self), ProgressUpdate::SetTotal(total), 0) is Some,
            r matches Some(m) ==> message_after(*old(self), ProgressUpdate::SetTotal(total), 0)
                == Some(m@),
    {
        self.apply(ProgressUpdate::SetTotal(total), 0)
    }

    /// Counts one file as processed with success.
    pub fn increment_success(&mut self) -> (r: Option<ScanProgressMessage>)
        ensures
            old(self).wf() ==> final(self).wf(),
            *final(self) == manager_after(*old(self), ProgressUpdate::IncrementSuccess, 0),
            r is Some == message_after(*old(self), ProgressUpdate::IncrementSuccess, 0) is Some,
            r matches Some(m) ==> message_after(*old(self), ProgressUpdate::IncrementSuccess, 0)
                == Some(m@),
    {
        self.apply(ProgressUpdate::IncrementSuccess, 0)
    }

    /// Counts one file as failed.
    pub fn increment_failure(&mut self) -> (r: Option<ScanProgressMessage>)
        ensures
            old(self).wf() ==> final(self).wf(),
            *final(self) == manager_after(*old(self), ProgressUpdate::IncrementFailure, 0),
            r is Some == message_after(*old(self), ProgressUpdate::IncrementFailure, 0) is Some,
            r matches Some(m) ==> message_after(*old(self), ProgressUpdate::IncrementFailure, 0)
                == Some(m@),
    {
        self.apply(ProgressUpdate::IncrementFailure, 0)
    }

    /// Sets the numbers of files to add, to update and to delete.
    pub fn set_file_counts(&mut self, add: u64, update: u64, delete: u64) -> (r: Option<
        ScanProgressMessage,
    >)
        ensures
            old(self).wf() ==> final(self).wf(),
            *final(self) == manager_after(
                *old(self),
                ProgressUpdate::SetFileCounts(add, update, delete),
                0,
            ),
            r is Some == message_after(
                *old(self),
                ProgressUpdate::SetFileCounts(add, update, delete),
                0,
            ) is Some,
            r matches Some(m) ==> message_after(
                *old(self),
                ProgressUpdate::SetFileCounts(add, update, delete),
                0,
            ) == Some(m@),
    {
        self.apply(ProgressUpdate::SetFileCounts(add, update, delete), 0)
    }

    /// Clears the two counters. Nothing is sent unless the interval is 0.
    pub fn reset_counters(&mut self) -> (r: Option<ScanProgressMessage>)
        ensures
            old(self).wf() ==> final(self).wf(),
            *final(self) == manager_after(*old(self), ProgressUpdate::ResetCounters, 0),
            r is Some == (old(self).broadcast_interval == 0),
    {
        self.apply(ProgressUpdate::ResetCounters, 0)
    }

    /// Marks the start of a scan; the start time is read from the clock.
    pub fn started(&mut self) -> (r: Option<ScanProgressMessage>)
        ensures
            old(self).wf() ==> final(self).wf(),
            r is Some,
            exists|now: i64|
                {
                    &&& *final(self) == manager_after(*old(self), ProgressUpdate::Started, now)
                    &&& r matches Some(m) && message_after(
                        *old(self),
                        ProgressUpdate::Started,
                        now,
                    ) == Some(m@)
                },
    {
        let now = now_secs();
        self.apply(ProgressUpdate::Started, now)
    }

    /// Ends the scan as completed: the message goes out, the state is idle.
    pub fn completed(&mut self) -> (r: Option<ScanProgressMessage>)
        ensures
            final(self).state == idle_state(),
            final(self).wf(),
            r matches Some(m) && message_after(*old(self), ProgressUpdate::Completed, 0) == Some(
                m@,
            ),
    {
        self.apply(ProgressUpdate::Completed, 0)
    }

    /// Ends the scan with an error: the message goes out, the state is idle.
    pub fn error(&mut self) -> (r: Option<ScanProgressMessage>)
        ensures
            final(self).state == idle_state(),
            final(self).wf(),
            r matches Some(m) && message_after(*old(self), ProgressUpdate::Error, 0) == Some(m@),
    {
        self.apply(ProgressUpdate::Error, 0)
    }

    /// Ends the scan as cancelled: the message goes out, the state is idle.
    pub fn cancelled(&mut self) -> (r: Option<ScanProgressMessage>)
        ensures
            final(self).state == idle_state(),
            final(self).wf(),
            r matches Some(m) && message_after(*old(self), ProgressUpdate::Cancelled, 0) == Some(
                m@,
            ),
    {
        self.apply(ProgressUpdate::Cancelled, 0)
    }
}

/// Every update keeps the state well-formed: `scanning` is set exactly in
/// the phases of a running scan, and after an end the state is idle.
pub proof fn lemma_update_keeps_invariant(m: ScanStateManager, u: ProgressUpdate, now: i64)
    requires
        m.wf(),
    ensures
        manager_after(m, u, now).wf(),
        manager_after(m, u, now).state.scanning == manager_after(
            m,
            u,
            now,
        ).state.phase.is_active(),
        u.is_terminal() ==> manager_after(m, u, now).state == idle_state() && message_after(
            m,
            u,
            now,
        ) is Some,
{
}

/// Within a scan the number of processed files never goes down: only a
/// reset, a start or an end clears the counters.
pub proof fn lemma_progress_is_monotonic(m: ScanStateManager, u: ProgressUpdate, now: i64)
    requires
        m.wf(),
        !u.clears_counters(),
        !u.is_terminal(),
    ensures
        manager_after(m, u, now).state.processed() >= m.state.processed(),
        manager_after(m, u, now).state.success_count >= m.state.success_count,
        manager_after(m, u, now).state.failure_count >= m.state.failure_count,
        manager_after(m, u, now).last_progress_reported >= m.last_progress_reported,
{
}

} // verus!
