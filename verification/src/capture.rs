//! The capture loop's policy: per-tick decisions, the bounded retry wrapper
//! around the analysis call, and the supervisor that owns at most one
//! capture-loop task.

use vstd::prelude::*;
use vstd::string::StringExecFns;
use crate::config::Config;
use crate::state::ServiceStateManager;

verus! {

/// The attempt budget of the retry wrapper.
pub const MAX_RETRIES: u32 = 5;

/// Seconds of warm-up before the first tick, distinct from the steady
/// interval.
pub const WARMUP_DELAY_SECS: u64 = 5;

/// Milliseconds the loop settles after writing the screenshot, before the
/// analysis call.
pub const SETTLE_DELAY_MS: u64 = 500;

/// Seconds the loop pauses after a failed cycle before the next tick.
pub const FAILURE_PAUSE_SECS: u64 = 5;

/// The non-decreasing delay schedule: seconds to wait after the n-th failed
/// attempt, for n below the budget.
pub open spec fn spec_retry_delay_after(attempt: u32) -> u64 {
    if attempt <= 1 {
        5
    } else if attempt == 2 {
        15
    } else if attempt == 3 {
        30
    } else if attempt == 4 {
        45
    } else {
        60
    }
}

/// The wait the schedule prescribes after failed attempt number `attempt`.
pub fn retry_delay_after(attempt: u32) -> (d: u64)
    ensures
        d == spec_retry_delay_after(attempt),
{
    if attempt <= 1 {
        5
    } else if attempt == 2 {
        15
    } else if attempt == 3 {
        30
    } else if attempt == 4 {
        45
    } else {
        60
    }
}

/// What the retry wrapper does after one attempt's outcome.
#[derive(Clone, Copy, Debug, PartialEq, Eq, Structural)]
pub enum RetryDecision {
    /// The attempt succeeded: the cycle goes on to logging and counting.
    Done,
    /// The attempt failed with budget left: wait this many seconds, try again.
    RetryAfter { delay_secs: u64 },
    /// The attempt failed and the budget is spent: abandon this cycle only;
    /// the loop proceeds to its next tick.
    GiveUp,
}

/// The retry policy, applied uniformly: every failure is retried until the
/// attempt budget is spent.
pub open spec fn spec_retry_decision(attempt: u32, success: bool) -> RetryDecision {
    if success {
        RetryDecision::Done
    } else if attempt < MAX_RETRIES {
        RetryDecision::RetryAfter { delay_secs: spec_retry_delay_after(attempt) }
    } else {
        RetryDecision::GiveUp
    }
}

/// Decides what follows attempt number `attempt` (counted from 1) whose
/// outcome was `success`.
pub fn retry_decision(attempt: u32, success: bool) -> (r: RetryDecision)
    requires
        1 <= attempt <= MAX_RETRIES,
    ensures
        r == spec_retry_decision(attempt, success),
{
    if success {
        RetryDecision::Done
    } else if attempt < MAX_RETRIES {
        RetryDecision::RetryAfter { delay_secs: retry_delay_after(attempt) }
    } else {
        RetryDecision::GiveUp
    }
}

/// The first index at or after `i` whose attempt succeeds, or the length if
/// none does.
pub open spec fn spec_first_success(outcomes: Seq<bool>, i: int) -> int
    decreases outcomes.len() - i,
{
    if i < 0 || i >= outcomes.len() {
        outcomes.len() as int
    } else if outcomes[i] {
        i
    } else {
        spec_first_success(outcomes, i + 1)
    }
}

/// How many attempts a full retry run makes when attempt `k` (0-based) would
/// come back with `outcomes[k]`.
pub open spec fn spec_attempts_used(outcomes: Seq<bool>) -> int {
    if spec_first_success(outcomes, 0) < MAX_RETRIES {
        spec_first_success(outcomes, 0) + 1
    } else {
        MAX_RETRIES as int
    }
}

/// Whether a full retry run ends in success.
pub open spec fn spec_retry_succeeds(outcomes: Seq<bool>) -> bool {
    spec_first_success(outcomes, 0) < MAX_RETRIES
}

/// The trace of one full retry run.
pub struct RetryTrace {
    /// Attempts performed, between 1 and the budget.
    pub attempts: u32,
    /// Whether the last attempt succeeded.
    pub succeeded: bool,
    /// The waits taken between attempts, in order.
    pub delays: Vec<u64>,
}

/// Runs the retry policy against a fixed sequence of attempt outcomes and
/// reports the trace: how many attempts were made, whether the cycle
/// succeeded, and the waits taken between attempts.
pub fn run_retry_trace(outcomes: &Vec<bool>) -> (r: RetryTrace)
    requires
        outcomes@.len() >= MAX_RETRIES,
    ensures
        r.attempts == spec_attempts_used(outcomes@),
        r.succeeded == spec_retry_succeeds(outcomes@),
        r.delays@.len() == r.attempts - 1,
        forall|k: int|
            0 <= k < r.delays@.len() ==> r.delays@[k] == spec_retry_delay_after((k + 1) as u32),
{
    let mut delays: Vec<u64> = Vec::new();
    let mut attempt: u32 = 1;
    proof {
        lemma_first_success_bounds(outcomes@, 0);
    }
    loop
        invariant
            outcomes@.len() >= MAX_RETRIES,
            1 <= attempt <= MAX_RETRIES,
            spec_first_success(outcomes@, 0) >= attempt - 1,
            spec_first_success(outcomes@, 0) == spec_first_success(outcomes@, attempt - 1),
            delays@.len() == attempt - 1,
            forall|k: int|
                0 <= k < delays@.len() ==> delays@[k] == spec_retry_delay_after((k + 1) as u32),
        decreases MAX_RETRIES - attempt,
    {
        let success = outcomes[(attempt - 1) as usize];
        proof {
            lemma_first_success_bounds(outcomes@, attempt - 1);
            lemma_first_success_bounds(outcomes@, attempt as int);
        }
        match retry_decision(attempt, success) {
            RetryDecision::Done => {
                assert(spec_first_success(outcomes@, attempt - 1) == attempt - 1);
                return RetryTrace { attempts: attempt, succeeded: true, delays };
            },
            RetryDecision::GiveUp => {
                assert(spec_first_success(outcomes@, attempt - 1) == spec_first_success(
                    outcomes@,
                    attempt as int,
                ));
                assert(spec_first_success(outcomes@, 0) >= MAX_RETRIES);
                return RetryTrace { attempts: attempt, succeeded: false, delays };
            },
            RetryDecision::RetryAfter { delay_secs } => {
                assert(spec_first_success(outcomes@, attempt - 1) == spec_first_success(
                    outcomes@,
                    attempt as int,
                ));
                delays.push(delay_secs);
                attempt = attempt + 1;
            },
        }
    }
}

/// The first success comes at or after the start, no later than the end, and
/// nothing before it succeeds.
proof fn lemma_first_success_bounds(outcomes: Seq<bool>, i: int)
    requires
        0 <= i <= outcomes.len(),
    ensures
        i <= spec_first_success(outcomes, i) <= outcomes.len(),
        spec_first_success(outcomes, i) < outcomes.len() ==> outcomes[spec_first_success(
            outcomes,
            i,
        )],
    decreases outcomes.len() - i,
{
    if i < outcomes.len() && !outcomes[i] {
        lemma_first_success_bounds(outcomes, i + 1);
    }
}

/// Retry budget: when the analysis collaborator fails every attempt, the run
/// makes exactly the budgeted number of attempts, waits by the schedule
/// between them, and then abandons the cycle.
pub proof fn lemma_retry_budget_exhausted(outcomes: Seq<bool>)
    requires
        outcomes.len() >= MAX_RETRIES,
        forall|k: int| 0 <= k < outcomes.len() ==> !outcomes[k],
    ensures
        spec_attempts_used(outcomes) == MAX_RETRIES,
        !spec_retry_succeeds(outcomes),
{
    lemma_first_success_all_failed(outcomes, 0);
}

proof fn lemma_first_success_all_failed(outcomes: Seq<bool>, i: int)
    requires
        0 <= i <= outcomes.len(),
        forall|k: int| 0 <= k < outcomes.len() ==> !outcomes[k],
    ensures
        spec_first_success(outcomes, i) == outcomes.len(),
    decreases outcomes.len() - i,
{
    if i < outcomes.len() {
        lemma_first_success_all_failed(outcomes, i + 1);
    }
}

/// The delay schedule never decreases from one attempt to the next.
pub proof fn lemma_retry_delays_non_decreasing()
    ensures
        forall|a: u32|
            1 <= a < MAX_RETRIES ==> #[trigger] spec_retry_delay_after(a) <= spec_retry_delay_after(
                (a + 1) as u32,
            ),
{
}

/// What the loop does at a tick: run one capture cycle, or exit because the
/// service was stopped. This read between ticks is the loop's sole
/// cancellation check.
#[derive(Clone, Copy, Debug, PartialEq, Eq, Structural)]
pub enum TickAction {
    RunCycle,
    ExitLoop,
}

/// The per-tick decision.
pub fn tick_decision(mgr: &ServiceStateManager) -> (a: TickAction)
    ensures
        a == (if mgr.spec_state().status is Running {
            TickAction::RunCycle
        } else {
            TickAction::ExitLoop
        }),
{
    if mgr.should_capture() {
        TickAction::RunCycle
    } else {
        TickAction::ExitLoop
    }
}

/// The width the image is scaled to, when the configured target is positive.
pub fn effective_target_width(config: &Config) -> (r: Option<u32>)
    ensures
        r == (if config.image_target_width > 0 {
            Some(config.image_target_width)
        } else {
            None::<u32>
        }),
{
    if config.image_target_width > 0 {
        Some(config.image_target_width)
    } else {
        None
    }
}

/// Whether the image is converted to grayscale: enabled unless overridden.
pub fn effective_grayscale(config: &Config) -> (r: bool)
    ensures
        r == (config.image_grayscale && !config.no_image_grayscale),
{
    config.image_grayscale && !config.no_image_grayscale
}

/// The path a cycle's screenshot is written to, from the screenshot
/// directory and a timestamp string.
pub fn screenshot_path(config: &Config, stamp: &str) -> (r: String)
    ensures
        r@ == config.data_dir@ + "/screenshots"@ + "/screenshot_"@ + stamp@ + ".png"@,
{
    let mut r = config.get_screenshot_dir();
    r.append("/screenshot_");
    r.append(stamp);
    r.append(".png");
    r
}

/// Owns at most one outstanding capture-loop task. The value models whether
/// a task handle is held; the caller holds the real handle and performs the
/// abort or spawn this decides.
pub struct CaptureSupervisor {
    task_held: bool,
}

impl CaptureSupervisor {
    pub closed spec fn spec_has_task(&self) -> bool {
        self.task_held
    }

    pub fn new() -> (s: Self)
        ensures
            !s.spec_has_task(),
    {
        CaptureSupervisor { task_held: false }
    }

    /// Starting: any held task is aborted unconditionally (no drain), then a
    /// new one is spawned. Returns whether an old task must be aborted, so
    /// repeated starts are idempotent and a start doubles as a restart.
    pub fn on_start(&mut self) -> (abort_previous: bool)
        ensures
            final(self).spec_has_task(),
            abort_previous == old(self).spec_has_task(),
    {
        let abort_previous = self.task_held;
        self.task_held = true;
        abort_previous
    }

    /// Stopping: the held task, if any, is aborted and the handle cleared;
    /// in-flight work is abandoned, not drained.
    pub fn on_stop(&mut self) -> (abort_previous: bool)
        ensures
            !final(self).spec_has_task(),
            abort_previous == old(self).spec_has_task(),
    {
        let abort_previous = self.task_held;
        self.task_held = false;
        abort_previous
    }
}

} // verus!
