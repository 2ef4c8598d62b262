//! Decisions of the live worker loop.
use vstd::prelude::*;
use vstd::string::*;
use crate::text::{push_signed_decimal, signed_decimal};
use crate::worker::{WorkerArgs, WorkerArgsView};

verus! {

/// How long the worker stays quiet between two idle reports.
pub const IDLE_LOG_INTERVAL_MS: i64 = 60_000;

/// What one run of the live worker did.
#[derive(Debug, Clone, PartialEq, Eq)]
pub struct LiveWorkerReport {
    pub worker_run_id: String,
    pub processed_messages: usize,
}

/// An idle report is due when a full interval has passed since the last one.
pub fn idle_log_due(current_ms: i64, last_idle_log_ms: i64) -> (r: bool)
    requires
        i64::MIN <= current_ms - last_idle_log_ms <= i64::MAX,
    ensures
        r == (current_ms - last_idle_log_ms >= IDLE_LOG_INTERVAL_MS),
{
    current_ms - last_idle_log_ms >= IDLE_LOG_INTERVAL_MS
}

/// The time of the last idle report after an idle poll at `current_ms`.
pub fn idle_log_after_poll(current_ms: i64, last_idle_log_ms: i64) -> (r: i64)
    requires
        i64::MIN <= current_ms - last_idle_log_ms <= i64::MAX,
    ensures
        r == if current_ms - last_idle_log_ms >= IDLE_LOG_INTERVAL_MS {
            current_ms
        } else {
            last_idle_log_ms
        },
{
    if idle_log_due(current_ms, last_idle_log_ms) {
        current_ms
    } else {
        last_idle_log_ms
    }
}


/// The live loop stops taking messages once `processed` reaches the
/// configured maximum, if there is one.
pub fn live_limit_reached(max_messages: Option<usize>, processed: usize) -> (r: bool)
    ensures
        r == (max_messages matches Some(m) && processed >= m),
{
    match max_messages {
        Some(m) => processed >= m,
        None => false,
    }
}

/// What the live worker loop has counted so far.
#[derive(Debug, Clone, Copy, PartialEq, Eq)]
pub struct LiveLoopState {
    pub processed: usize,
    pub last_idle_log_ms: i64,
}

/// What the outside world reported since the last decision.
#[derive(Debug, Clone, Copy, PartialEq, Eq)]
pub enum LiveEvent {
    /// The shutdown signal arrived.
    Shutdown,
    /// One fetched message went through processing (acknowledged or not).
    MessageHandled,
    /// A poll brought no message, or failed, at `now_ms`.
    Idle { now_ms: i64 },
    /// A handled message could not be acknowledged.
    AckFailed,
}

/// What the loop does next.
#[derive(Debug, Clone, Copy, PartialEq, Eq)]
pub enum LoopAction {
    /// Poll the consumer for the next message.
    Poll,
    /// Run one repair cycle (only the agent asks for this).
    RunRepair,
    /// Leave the loop and report.
    Stop,
    /// Leave the loop with the error that ended it: the run fails.
    Fail,
}

/// One decision: the new state, the next action, and whether an idle
/// report is written now.
#[derive(Debug, Clone, Copy, PartialEq, Eq)]
pub struct LiveStep {
    pub state: LiveLoopState,
    pub action: LoopAction,
    pub log_idle: bool,
}

/// Poll again unless the message limit is reached.
pub open spec fn continue_action(max_messages: Option<usize>, processed: int) -> LoopAction {
    if max_messages matches Some(m) && processed >= m {
        LoopAction::Stop
    } else {
        LoopAction::Poll
    }
}

/// The first decision of the live worker: nothing counted yet.
pub fn live_start(args: &WorkerArgs) -> (r: LiveStep)
    ensures
        r.state == (LiveLoopState { processed: 0, last_idle_log_ms: 0 }),
        r.action == continue_action(args.max_messages, 0),
        !r.log_idle,
{
    let state = LiveLoopState { processed: 0, last_idle_log_ms: 0 };
    let action = if live_limit_reached(args.max_messages, 0) {
        LoopAction::Stop
    } else {
        LoopAction::Poll
    };
    LiveStep { state, action, log_idle: false }
}

/// Whether the live worker can take `event` in `state` without an
/// arithmetic overflow.
pub open spec fn live_event_fits(state: LiveLoopState, event: LiveEvent) -> bool {
    match event {
        LiveEvent::Shutdown => true,
        LiveEvent::AckFailed => true,
        LiveEvent::MessageHandled => state.processed < usize::MAX,
        LiveEvent::Idle { now_ms } => i64::MIN <= now_ms - state.last_idle_log_ms <= i64::MAX,
    }
}

/// The live worker's decision after `event`.
pub open spec fn live_step_spec(args: WorkerArgsView, state: LiveLoopState, event: LiveEvent) -> LiveStep {
    match event {
        LiveEvent::Shutdown => LiveStep { state, action: LoopAction::Stop, log_idle: false },
        LiveEvent::AckFailed => LiveStep { state, action: LoopAction::Fail, log_idle: false },
        LiveEvent::MessageHandled => {
            let processed = state.processed + 1;
            LiveStep {
                state: LiveLoopState { processed: processed as usize, ..state },
                action: continue_action(args.max_messages, processed),
                log_idle: false,
            }
        },
        LiveEvent::Idle { now_ms } => {
            let due = now_ms - state.last_idle_log_ms >= IDLE_LOG_INTERVAL_MS;
            LiveStep {
                state: LiveLoopState {
                    last_idle_log_ms: if due { now_ms } else { state.last_idle_log_ms },
                    ..state
                },
                action: if args.exit_on_idle {
                    LoopAction::Stop
                } else {
                    continue_action(args.max_messages, state.processed as int)
                },
                log_idle: due,
            }
        },
    }
}

/// Decides what the live worker does after `event`: a processed message
/// is counted, a failed acknowledgement fails the run, an idle poll writes an idle report when one is due and
/// ends the run when the worker exits on idle, and a shutdown ends it.
pub fn live_step(args: &WorkerArgs, state: LiveLoopState, event: LiveEvent) -> (r: LiveStep)
    requires
        live_event_fits(state, event),
    ensures
        r == live_step_spec(args@, state, event),
{
    match event {
        LiveEvent::Shutdown => LiveStep { state, action: LoopAction::Stop, log_idle: false },
        LiveEvent::AckFailed => LiveStep { state, action: LoopAction::Fail, log_idle: false },
        LiveEvent::MessageHandled => {
            let processed = state.processed + 1;
            let action = if live_limit_reached(args.max_messages, processed) {
                LoopAction::Stop
            } else {
                LoopAction::Poll
            };
            LiveStep {
                state: LiveLoopState { processed, last_idle_log_ms: state.last_idle_log_ms },
                action,
                log_idle: false,
            }
        },
        LiveEvent::Idle { now_ms } => {
            let due = idle_log_due(now_ms, state.last_idle_log_ms);
            let last_idle_log_ms = idle_log_after_poll(now_ms, state.last_idle_log_ms);
            let action = if args.exit_on_idle {
                LoopAction::Stop
            } else if live_limit_reached(args.max_messages, state.processed) {
                LoopAction::Stop
            } else {
                LoopAction::Poll
            };
            LiveStep {
                state: LiveLoopState { processed: state.processed, last_idle_log_ms },
                action,
                log_idle: due,
            }
        },
    }
}


/// The id of one run: `name`, a hyphen, and the run's start time in
/// milliseconds.
pub fn run_id(name: &str, started_at_ms: i64) -> (r: String)
    ensures
        r@ == name@ + "-"@ + signed_decimal(started_at_ms as int),
{
    let mut r = String::from_str(name);
    r.append("-");
    push_signed_decimal(&mut r, started_at_ms);
    r
}

/// What came of one fetched live message.
#[derive(Debug, Clone, Copy, PartialEq, Eq)]
pub enum MessageOutcome {
    /// The message held no readable pointer.
    PointerInvalid,
    /// The candidate result was published.
    Published,
    /// The pointer named an older revision than one already handled.
    StaleRevision,
    /// Processing failed.
    ProcessingFailed,
}

/// Whether the message is acknowledged: only once its result is published
/// or it is known to be stale. A message whose processing failed stays
/// unacknowledged so that it is delivered again; one without a readable
/// pointer is left as it is.
pub fn acknowledges(outcome: MessageOutcome) -> (r: bool)
    ensures
        r == (outcome == MessageOutcome::Published || outcome == MessageOutcome::StaleRevision),
{
    match outcome {
        MessageOutcome::Published => true,
        MessageOutcome::StaleRevision => true,
        MessageOutcome::PointerInvalid => false,
        MessageOutcome::ProcessingFailed => false,
    }
}

/// Laws of the live worker loop: the count of processed messages never goes
/// back; a shutdown always stops the loop; a failed acknowledgement, and
/// nothing else, fails the run, without counting the message; an idle poll
/// stops a worker that exits on idle, and any other only at its limit; an idle report is written at most
/// once per interval; and the loop polls again only while fewer messages
/// than the limit were processed, so a message handled after a poll never
/// takes the count past the limit.
pub proof fn lemma_live_step_laws(args: WorkerArgsView, state: LiveLoopState, event: LiveEvent)
    requires
        live_event_fits(state, event),
    ensures
        ({
            let r = live_step_spec(args, state, event);
            &&& r.state.processed >= state.processed
            &&& r.action != LoopAction::RunRepair
            &&& (event == LiveEvent::Shutdown ==> r.action == LoopAction::Stop)
            &&& (r.action == LoopAction::Fail <==> event == LiveEvent::AckFailed)
            &&& (args.exit_on_idle && event is Idle ==> r.action == LoopAction::Stop)
            &&& (!args.exit_on_idle && event is Idle && r.action == LoopAction::Stop
                ==> (args.max_messages matches Some(m) && state.processed >= m))
            &&& (event == LiveEvent::AckFailed ==> r.state == state)
            &&& (r.log_idle ==> (event matches LiveEvent::Idle { now_ms } && now_ms
                - state.last_idle_log_ms >= IDLE_LOG_INTERVAL_MS && r.state.last_idle_log_ms
                == now_ms))
            &&& (r.action == LoopAction::Poll ==> !(args.max_messages matches Some(m)
                && r.state.processed >= m))
            &&& (event == LiveEvent::MessageHandled && continue_action(
                args.max_messages,
                state.processed as int,
            ) == LoopAction::Poll ==> !(args.max_messages matches Some(m) && r.state.processed
                > m))
        }),
{
}

} // verus!
