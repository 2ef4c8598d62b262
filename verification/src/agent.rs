//! The agent: one process that consumes live pointers and runs bounded
//! repair scans of the durable input store.
pub mod args;
pub mod repair;
pub mod help;

use vstd::prelude::*;
use crate::agent::args::{AgentArgs, AgentArgsView};
use crate::agent::repair::repair_due_at;
use crate::live::{
    continue_action, idle_log_after_poll, idle_log_due, live_limit_reached, LoopAction,
    IDLE_LOG_INTERVAL_MS,
};

verus! {

/// What one run of the agent did.
#[derive(Debug, Clone, PartialEq, Eq)]
pub struct AgentReport {
    pub agent_run_id: String,
    pub live_messages_processed: usize,
    pub repair_cycles_completed: usize,
}

/// When the next repair cycle may start: `interval_secs` after `now_ms`.
pub fn next_repair_after(now_ms: i64, interval_secs: u64) -> (r: i64)
    requires
        interval_secs * 1000 <= i64::MAX,
        now_ms + interval_secs * 1000 <= i64::MAX,
    ensures
        r == now_ms + interval_secs * 1000,
{
    let interval_ms: u64 = interval_secs * 1000;
    now_ms + interval_ms as i64
}

/// What the agent loop has counted so far.
#[derive(Debug, Clone, Copy, PartialEq, Eq)]
pub struct AgentLoopState {
    pub live_messages_processed: usize,
    pub repair_cycles_completed: usize,
    pub last_idle_log_ms: i64,
    pub next_repair_after_ms: i64,
}

/// What the outside world reported since the agent's last decision.
#[derive(Debug, Clone, Copy, PartialEq, Eq)]
pub enum AgentEvent {
    /// The shutdown signal arrived.
    Shutdown,
    /// One live message went through processing.
    MessageHandled,
    /// A poll brought no message, or failed, at `now_ms`.
    Idle { now_ms: i64 },
    /// A repair cycle finished at `now_ms`.
    RepairFinished { now_ms: i64 },
    /// A handled live message could not be acknowledged.
    AckFailed,
}

/// One decision of the agent: the new state, the next action, and whether
/// an idle report is written now.
#[derive(Debug, Clone, Copy, PartialEq, Eq)]
pub struct AgentStep {
    pub state: AgentLoopState,
    pub action: LoopAction,
    pub log_idle: bool,
}

/// The agent's first decision at `now_ms`: nothing counted, the first repair
/// cycle may start at once.
pub fn agent_start(args: &AgentArgs, now_ms: i64) -> (r: AgentStep)
    ensures
        r.state == (AgentLoopState {
            live_messages_processed: 0,
            repair_cycles_completed: 0,
            last_idle_log_ms: 0,
            next_repair_after_ms: now_ms,
        }),
        r.action == continue_action(args.worker.max_messages, 0),
        !r.log_idle,
{
    let state = AgentLoopState {
        live_messages_processed: 0,
        repair_cycles_completed: 0,
        last_idle_log_ms: 0,
        next_repair_after_ms: now_ms,
    };
    let action = if live_limit_reached(args.worker.max_messages, 0) {
        LoopAction::Stop
    } else {
        LoopAction::Poll
    };
    AgentStep { state, action, log_idle: false }
}

/// Whether the agent can take `event` in `state` without an arithmetic
/// overflow.
pub open spec fn agent_event_fits(args: AgentArgsView, state: AgentLoopState, event: AgentEvent) -> bool {
    match event {
        AgentEvent::Shutdown => true,
        AgentEvent::AckFailed => true,
        AgentEvent::MessageHandled => state.live_messages_processed < usize::MAX,
        AgentEvent::Idle { now_ms } => i64::MIN <= now_ms - state.last_idle_log_ms <= i64::MAX,
        AgentEvent::RepairFinished { now_ms } => {
            &&& state.repair_cycles_completed < usize::MAX
            &&& args.repair.interval_secs * 1000 <= i64::MAX
            &&& now_ms + args.repair.interval_secs * 1000 <= i64::MAX
        },
    }
}

/// Where the agent goes when it does not stop or repair: it stops on idle
/// if so configured, else polls unless the message limit is reached.
pub open spec fn after_idle_action(args: AgentArgsView, processed: int) -> LoopAction {
    if args.worker.exit_on_idle {
        LoopAction::Stop
    } else {
        continue_action(args.worker.max_messages, processed)
    }
}

/// The agent's decision after `event`.
pub open spec fn agent_step_spec(args: AgentArgsView, state: AgentLoopState, event: AgentEvent) -> AgentStep {
    match event {
        AgentEvent::Shutdown => AgentStep { state, action: LoopAction::Stop, log_idle: false },
        AgentEvent::AckFailed => AgentStep { state, action: LoopAction::Fail, log_idle: false },
        AgentEvent::MessageHandled => {
            let processed = state.live_messages_processed + 1;
            AgentStep {
                state: AgentLoopState { live_messages_processed: processed as usize, ..state },
                action: continue_action(args.worker.max_messages, processed),
                log_idle: false,
            }
        },
        AgentEvent::Idle { now_ms } => {
            let due = now_ms - state.last_idle_log_ms >= IDLE_LOG_INTERVAL_MS;
            let repair = args.repair.enabled && args.repair.input_prefixes.len() > 0
                && now_ms >= state.next_repair_after_ms;
            AgentStep {
                state: AgentLoopState {
                    last_idle_log_ms: if due { now_ms } else { state.last_idle_log_ms },
                    ..state
                },
                action: if repair {
                    LoopAction::RunRepair
                } else {
                    after_idle_action(args, state.live_messages_processed as int)
                },
                log_idle: due,
            }
        },
        AgentEvent::RepairFinished { now_ms } => AgentStep {
            state: AgentLoopState {
                repair_cycles_completed: (state.repair_cycles_completed + 1) as usize,
                next_repair_after_ms: (now_ms + args.repair.interval_secs * 1000) as i64,
                ..state
            },
            action: after_idle_action(args, state.live_messages_processed as int),
            log_idle: false,
        },
    }
}

/// Decides what the agent does after `event`: counts processed messages,
/// writes idle reports when due, runs a repair cycle when one is due on an
/// idle poll, schedules the next cycle one interval after a cycle ends, and
/// stops on shutdown, on the message limit, or on idle when so configured;
/// a failed acknowledgement fails the run.
pub fn agent_step(args: &AgentArgs, state: AgentLoopState, event: AgentEvent) -> (r: AgentStep)
    requires
        agent_event_fits(args@, state, event),
    ensures
        r == agent_step_spec(args@, state, event),
{
    match event {
        AgentEvent::Shutdown => AgentStep { state, action: LoopAction::Stop, log_idle: false },
        AgentEvent::AckFailed => AgentStep { state, action: LoopAction::Fail, log_idle: false },
        AgentEvent::MessageHandled => {
            let processed = state.live_messages_processed + 1;
            let action = if live_limit_reached(args.worker.max_messages, processed) {
                LoopAction::Stop
            } else {
                LoopAction::Poll
            };
            AgentStep {
                state: AgentLoopState { live_messages_processed: processed, ..state },
                action,
                log_idle: false,
            }
        },
        AgentEvent::Idle { now_ms } => {
            let due = idle_log_due(now_ms, state.last_idle_log_ms);
            let last_idle_log_ms = idle_log_after_poll(now_ms, state.last_idle_log_ms);
            let action = if repair_due_at(args, now_ms, state.next_repair_after_ms) {
                LoopAction::RunRepair
            } else if args.worker.exit_on_idle {
                LoopAction::Stop
            } else if live_limit_reached(args.worker.max_messages, state.live_messages_processed) {
                LoopAction::Stop
            } else {
                LoopAction::Poll
            };
            AgentStep { state: AgentLoopState { last_idle_log_ms, ..state }, action, log_idle: due }
        },
        AgentEvent::RepairFinished { now_ms } => {
            let next_repair_after_ms = next_repair_after(now_ms, args.repair_interval_secs);
            let action = if args.worker.exit_on_idle {
                LoopAction::Stop
            } else if live_limit_reached(args.worker.max_messages, state.live_messages_processed) {
                LoopAction::Stop
            } else {
                LoopAction::Poll
            };
            AgentStep {
                state: AgentLoopState {
                    repair_cycles_completed: state.repair_cycles_completed + 1,
                    next_repair_after_ms,
                    ..state
                },
                action,
                log_idle: false,
            }
        },
    }
}

/// Laws of the agent loop: counters never go back; a shutdown always stops
/// the loop; a failed acknowledgement, and nothing else, fails the run,
/// without counting the message; an agent that exits on idle stops after an
/// idle poll that runs no repair and after every repair cycle, and one that
/// does not stops there only at the message limit; a repair cycle runs only on an idle poll, with repair enabled,
/// prefixes configured and the scheduled time reached; the next cycle is
/// rescheduled only when one finishes; and the loop polls again only while
/// fewer live messages than the limit were processed, so a message handled
/// after a poll never takes the count past the limit.
pub proof fn lemma_agent_step_laws(args: AgentArgsView, state: AgentLoopState, event: AgentEvent)
    requires
        agent_event_fits(args, state, event),
    ensures
        ({
            let r = agent_step_spec(args, state, event);
            &&& r.state.live_messages_processed >= state.live_messages_processed
            &&& r.state.repair_cycles_completed >= state.repair_cycles_completed
            &&& (event == AgentEvent::Shutdown ==> r.action == LoopAction::Stop)
            &&& (r.action == LoopAction::Fail <==> event == AgentEvent::AckFailed)
            &&& (args.worker.exit_on_idle && (event is RepairFinished || (event is Idle
                && r.action != LoopAction::RunRepair)) ==> r.action == LoopAction::Stop)
            &&& (!args.worker.exit_on_idle && (event is RepairFinished || event is Idle)
                && r.action == LoopAction::Stop ==> (args.worker.max_messages matches Some(m)
                && state.live_messages_processed >= m))
            &&& (event == AgentEvent::AckFailed ==> r.state == state)
            &&& (r.action == LoopAction::RunRepair ==> {
                &&& event matches AgentEvent::Idle { now_ms }
                &&& now_ms >= state.next_repair_after_ms
                &&& args.repair.enabled
                &&& args.repair.input_prefixes.len() > 0
            })
            &&& (!(event is RepairFinished) ==> r.state.next_repair_after_ms
                == state.next_repair_after_ms)
            &&& (r.action == LoopAction::Poll ==> !(args.worker.max_messages matches Some(m)
                && r.state.live_messages_processed >= m))
            &&& (event == AgentEvent::MessageHandled && continue_action(
                args.worker.max_messages,
                state.live_messages_processed as int,
            ) == LoopAction::Poll ==> !(args.worker.max_messages matches Some(m)
                && r.state.live_messages_processed > m))
        }),
{
}

} // verus!
