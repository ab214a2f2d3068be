//! Durable run-state of the capture service: the persistent record, the
//! start/stop/count transitions, and the reconciliation of a loaded record
//! against the current configuration fingerprint.

use vstd::prelude::*;

verus! {

#[derive(Clone, Copy, Debug, PartialEq, Eq, Structural)]
pub enum CaptureServiceStatus {
    Running,
    Stopped,
}

/// The record persisted in the state document on every mutation.
#[derive(Clone, Debug, PartialEq)]
pub struct CaptureServiceState {
    pub status: CaptureServiceStatus,
    pub last_start_time: Option<u64>,
    pub last_stop_time: Option<u64>,
    pub total_captures: u64,
    pub last_capture_time: Option<u64>,
    pub config_fingerprint: String,
}

/// The default record used on first run, before any state document exists.
pub open spec fn spec_default_state(fingerprint: String) -> CaptureServiceState {
    CaptureServiceState {
        status: CaptureServiceStatus::Stopped,
        last_start_time: None,
        last_stop_time: None,
        total_captures: 0,
        last_capture_time: None,
        config_fingerprint: fingerprint,
    }
}

/// What construction makes of a loaded record: a missing or unreadable
/// document falls back to the default, and a record whose fingerprint differs
/// from the current one is stale and forced to Stopped, keeping its capture
/// count.
pub open spec fn spec_reconcile(
    loaded: Option<CaptureServiceState>,
    fingerprint: String,
    now_ms: u64,
) -> CaptureServiceState {
    match loaded {
        None => spec_default_state(fingerprint),
        Some(s) => {
            if s.config_fingerprint@ == fingerprint@ {
                s
            } else {
                CaptureServiceState {
                    status: CaptureServiceStatus::Stopped,
                    last_start_time: s.last_start_time,
                    last_stop_time: if s.status is Running {
                        Some(now_ms)
                    } else {
                        s.last_stop_time
                    },
                    total_captures: s.total_captures,
                    last_capture_time: s.last_capture_time,
                    config_fingerprint: fingerprint,
                }
            }
        },
    }
}

/// The start transition: a no-op that reports `false` when already Running,
/// otherwise Running with a fresh start time, reporting `true`.
pub open spec fn spec_start(s: CaptureServiceState, now_ms: u64) -> (bool, CaptureServiceState) {
    if s.status is Running {
        (false, s)
    } else {
        (
            true,
            CaptureServiceState {
                status: CaptureServiceStatus::Running,
                last_start_time: Some(now_ms),
                ..s
            },
        )
    }
}

/// The stop transition, symmetric to `spec_start`.
pub open spec fn spec_stop(s: CaptureServiceState, now_ms: u64) -> (bool, CaptureServiceState) {
    if s.status is Stopped {
        (false, s)
    } else {
        (
            true,
            CaptureServiceState {
                status: CaptureServiceStatus::Stopped,
                last_stop_time: Some(now_ms),
                ..s
            },
        )
    }
}

/// One successfully logged capture cycle: the counter goes up by one and the
/// capture time is refreshed.
pub open spec fn spec_increment(s: CaptureServiceState, now_ms: u64) -> CaptureServiceState {
    CaptureServiceState {
        total_captures: (s.total_captures + 1) as u64,
        last_capture_time: Some(now_ms),
        ..s
    }
}

/// Owns the in-memory copy of the durable run-state record and applies every
/// mutation to it. Callers persist the record (via the state document codec)
/// after each mutating call; on a persistence failure they must restore the
/// previous snapshot so that memory and disk never diverge.
pub struct ServiceStateManager {
    state: CaptureServiceState,
}

impl ServiceStateManager {
    pub closed spec fn spec_state(&self) -> CaptureServiceState {
        self.state
    }

    /// Builds the manager from whatever the state document held (`None` when
    /// it was missing or unreadable) and the fingerprint of the current
    /// configuration.
    pub fn new(loaded: Option<CaptureServiceState>, fingerprint: String, now_ms: u64) -> (m: Self)
        ensures
            m.spec_state() == spec_reconcile(loaded, fingerprint, now_ms),
    {
        match loaded {
            None => ServiceStateManager {
                state: CaptureServiceState {
                    status: CaptureServiceStatus::Stopped,
                    last_start_time: None,
                    last_stop_time: None,
                    total_captures: 0,
                    last_capture_time: None,
                    config_fingerprint: fingerprint,
                },
            },
            Some(s) => {
                if s.config_fingerprint == fingerprint {
                    ServiceStateManager { state: s }
                } else {
                    let stopped_now = matches!(s.status, CaptureServiceStatus::Running);
                    ServiceStateManager {
                        state: CaptureServiceState {
                            status: CaptureServiceStatus::Stopped,
                            last_start_time: s.last_start_time,
                            last_stop_time: if stopped_now {
                                Some(now_ms)
                            } else {
                                s.last_stop_time
                            },
                            total_captures: s.total_captures,
                            last_capture_time: s.last_capture_time,
                            config_fingerprint: fingerprint,
                        },
                    }
                }
            },
        }
    }

    /// Starts the service; `false` means it was already Running and nothing
    /// changed.
    pub fn start_service(&mut self, now_ms: u64) -> (started: bool)
        ensures
            started == spec_start(old(self).spec_state(), now_ms).0,
            final(self).spec_state() == spec_start(old(self).spec_state(), now_ms).1,
    {
        match self.state.status {
            CaptureServiceStatus::Running => false,
            CaptureServiceStatus::Stopped => {
                self.state.status = CaptureServiceStatus::Running;
                self.state.last_start_time = Some(now_ms);
                true
            },
        }
    }

    /// Stops the service; `false` means it was already Stopped and nothing
    /// changed.
    pub fn stop_service(&mut self, now_ms: u64) -> (stopped: bool)
        ensures
            stopped == spec_stop(old(self).spec_state(), now_ms).0,
            final(self).spec_state() == spec_stop(old(self).spec_state(), now_ms).1,
    {
        match self.state.status {
            CaptureServiceStatus::Stopped => false,
            CaptureServiceStatus::Running => {
                self.state.status = CaptureServiceStatus::Stopped;
                self.state.last_stop_time = Some(now_ms);
                true
            },
        }
    }

    /// Records one successfully logged capture cycle.
    pub fn increment_capture_count(&mut self, now_ms: u64)
        requires
            old(self).spec_state().total_captures < u64::MAX,
        ensures
            final(self).spec_state() == spec_increment(old(self).spec_state(), now_ms),
    {
        self.state.total_captures = self.state.total_captures + 1;
        self.state.last_capture_time = Some(now_ms);
    }

    /// A snapshot of the current record.
    pub fn get_state(&self) -> (s: CaptureServiceState)
        ensures
            s == self.spec_state(),
    {
        CaptureServiceState {
            status: self.state.status,
            last_start_time: self.state.last_start_time,
            last_stop_time: self.state.last_stop_time,
            total_captures: self.state.total_captures,
            last_capture_time: self.state.last_capture_time,
            config_fingerprint: self.state.config_fingerprint.clone(),
        }
    }

    /// Puts back an earlier snapshot: the recovery a caller performs when
    /// persisting a mutation failed, so that memory and disk never diverge.
    pub fn restore(&mut self, snapshot: CaptureServiceState)
        ensures
            final(self).spec_state() == snapshot,
    {
        self.state = snapshot;
    }

    /// The cheap read the capture loop makes once per tick as its sole
    /// cancellation check.
    pub fn should_capture(&self) -> (b: bool)
        ensures
            b == (self.spec_state().status is Running),
    {
        matches!(self.state.status, CaptureServiceStatus::Running)
    }
}

/// Starting is idempotent: the first start from a non-Running record reports
/// `true`, a second start reports `false` and changes nothing, and the record
/// is Running after both.
pub proof fn lemma_start_idempotent(s: CaptureServiceState, t1: u64, t2: u64)
    ensures
        ({
            let (b1, s1) = spec_start(s, t1);
            let (b2, s2) = spec_start(s1, t2);
            &&& b1 == !(s.status is Running)
            &&& s1.status is Running
            &&& !b2
            &&& s2 == s1
            &&& s1.total_captures == s.total_captures
        }),
{
}

/// Stopping is idempotent, symmetric to `lemma_start_idempotent`.
pub proof fn lemma_stop_idempotent(s: CaptureServiceState, t1: u64, t2: u64)
    ensures
        ({
            let (b1, s1) = spec_stop(s, t1);
            let (b2, s2) = spec_stop(s1, t2);
            &&& b1 == !(s.status is Stopped)
            &&& s1.status is Stopped
            &&& !b2
            &&& s2 == s1
            &&& s1.total_captures == s.total_captures
        }),
{
}

/// A record loaded with a mismatched fingerprint always reconciles to
/// Stopped, whatever status was persisted, and its capture count is preserved
/// unchanged; the stored fingerprint is replaced by the current one.
pub proof fn lemma_fingerprint_mismatch_forces_stopped(
    loaded: CaptureServiceState,
    fingerprint: String,
    now_ms: u64,
)
    requires
        loaded.config_fingerprint@ != fingerprint@,
    ensures
        ({
            let r = spec_reconcile(Some(loaded), fingerprint, now_ms);
            &&& r.status is Stopped
            &&& r.total_captures == loaded.total_captures
            &&& r.config_fingerprint == fingerprint
        }),
{
}

/// The record after a sequence of capture-count increments, one per entry of
/// `times` in order.
pub open spec fn spec_increment_seq(s: CaptureServiceState, times: Seq<u64>) -> CaptureServiceState
    decreases times.len(),
{
    if times.len() == 0 {
        s
    } else {
        spec_increment(spec_increment_seq(s, times.drop_last()), times.last())
    }
}

/// N sequential increments raise `total_captures` by exactly N, and
/// `last_capture_time` is the timestamp of the last call; no other field
/// moves.
pub proof fn lemma_increment_monotone(s: CaptureServiceState, times: Seq<u64>)
    requires
        s.total_captures + times.len() <= u64::MAX,
    ensures
        ({
            let r = spec_increment_seq(s, times);
            &&& r.total_captures == s.total_captures + times.len()
            &&& times.len() > 0 ==> r.last_capture_time == Some(times.last())
            &&& times.len() == 0 ==> r == s
            &&& r.status == s.status
            &&& r.last_start_time == s.last_start_time
            &&& r.last_stop_time == s.last_stop_time
            &&& r.config_fingerprint == s.config_fingerprint
        }),
    decreases times.len(),
{
    if times.len() > 0 {
        lemma_increment_monotone(s, times.drop_last());
    }
}

} // verus!
