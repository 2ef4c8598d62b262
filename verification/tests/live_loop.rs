use intel_candidate_app::agent::args::AgentArgs;
use intel_candidate_app::agent::{
    AgentEvent, AgentLoopState, agent_start, agent_step, next_repair_after,
};
use intel_candidate_app::live::{
    IDLE_LOG_INTERVAL_MS, LiveEvent, LiveLoopState, LoopAction, MessageOutcome, acknowledges,
    idle_log_after_poll, idle_log_due, live_limit_reached, live_start, live_step, run_id,
};
use intel_candidate_app::worker::WorkerArgs;

fn strings(values: &[&str]) -> Vec<String> {
    values.iter().map(|value| value.to_string()).collect()
}

const WORKER: [&str; 8] = [
    "--nats-url",
    "nats://127.0.0.1:4222",
    "--input-s3-bucket",
    "test-structured-l1",
    "--output-s3-bucket",
    "test-candidate",
    "--market-l1-s3-bucket",
    "test-market-l1",
];

fn worker_args(extra: &[&str]) -> WorkerArgs {
    let mut values = strings(&WORKER);
    values.extend(strings(extra));
    WorkerArgs::parse(values).expect("args parse").expect("args present")
}

fn agent_args(extra: &[&str]) -> AgentArgs {
    let mut values = strings(&WORKER);
    values.extend(strings(extra));
    AgentArgs::parse(values).expect("args parse").expect("args present")
}

#[test]
fn idle_report_is_due_once_per_interval() {
    assert_eq!(IDLE_LOG_INTERVAL_MS, 60_000);
    assert!(idle_log_due(60_000, 0));
    assert!(!idle_log_due(59_999, 0));
    assert_eq!(idle_log_after_poll(60_000, 0), 60_000);
    assert_eq!(idle_log_after_poll(100_000, 60_000), 60_000);
    assert_eq!(idle_log_after_poll(120_000, 60_000), 120_000);
}

#[test]
fn live_limit_applies_only_when_configured() {
    assert!(!live_limit_reached(None, usize::MAX));
    assert!(!live_limit_reached(Some(2), 1));
    assert!(live_limit_reached(Some(2), 2));
    assert!(live_limit_reached(Some(0), 0));
}

#[test]
fn live_worker_stops_at_the_message_limit() {
    let args = worker_args(&["--max-messages", "2"]);
    let start = live_start(&args);
    assert_eq!(start.action, LoopAction::Poll);
    assert_eq!(start.state, LiveLoopState { processed: 0, last_idle_log_ms: 0 });
    let one = live_step(&args, start.state, LiveEvent::MessageHandled);
    assert_eq!(one.action, LoopAction::Poll);
    assert_eq!(one.state.processed, 1);
    let two = live_step(&args, one.state, LiveEvent::MessageHandled);
    assert_eq!(two.action, LoopAction::Stop);
    assert_eq!(two.state.processed, 2);
    assert!(!two.log_idle);

    assert!(WorkerArgs::parse(strings(&["--max-messages", "0"])).is_err());
}

#[test]
fn live_worker_logs_idle_and_exits_on_idle_when_asked() {
    let args = worker_args(&[]);
    let state = LiveLoopState { processed: 4, last_idle_log_ms: 0 };
    let idle = live_step(&args, state, LiveEvent::Idle { now_ms: 70_000 });
    assert!(idle.log_idle);
    assert_eq!(idle.action, LoopAction::Poll);
    assert_eq!(idle.state, LiveLoopState { processed: 4, last_idle_log_ms: 70_000 });
    let quiet = live_step(&args, idle.state, LiveEvent::Idle { now_ms: 80_000 });
    assert!(!quiet.log_idle);
    assert_eq!(quiet.state.last_idle_log_ms, 70_000);

    let exit = worker_args(&["--exit-on-idle"]);
    let done = live_step(&exit, state, LiveEvent::Idle { now_ms: 1 });
    assert_eq!(done.action, LoopAction::Stop);
    assert!(!done.log_idle);

    let shutdown = live_step(&args, state, LiveEvent::Shutdown);
    assert_eq!(shutdown.action, LoopAction::Stop);
    assert_eq!(shutdown.state, state);
}

#[test]
fn messages_are_acknowledged_only_when_handled() {
    assert!(acknowledges(MessageOutcome::Published));
    assert!(acknowledges(MessageOutcome::StaleRevision));
    assert!(!acknowledges(MessageOutcome::ProcessingFailed));
    assert!(!acknowledges(MessageOutcome::PointerInvalid));
}

#[test]
fn run_ids_carry_the_start_time() {
    assert_eq!(run_id("intel-candidate-worker", 1_700_000_000_000), "intel-candidate-worker-1700000000000");
    assert_eq!(run_id("intel-candidate-agent", 0), "intel-candidate-agent-0");
    assert_eq!(run_id("x", -5), "x--5");
    assert_eq!(run_id("x", i64::MIN), format!("x-{}", i64::MIN));
}

#[test]
fn agent_runs_repair_on_idle_when_due_and_reschedules() {
    let args = agent_args(&[
        "--repair-input-prefix",
        "structured-intel-packet/",
        "--repair-interval-secs",
        "60",
    ]);
    let start = agent_start(&args, 1_000);
    assert_eq!(start.action, LoopAction::Poll);
    assert_eq!(
        start.state,
        AgentLoopState {
            live_messages_processed: 0,
            repair_cycles_completed: 0,
            last_idle_log_ms: 0,
            next_repair_after_ms: 1_000,
        }
    );
    let idle = agent_step(&args, start.state, AgentEvent::Idle { now_ms: 1_000 });
    assert_eq!(idle.action, LoopAction::RunRepair);
    assert!(!idle.log_idle);
    let done = agent_step(&args, idle.state, AgentEvent::RepairFinished { now_ms: 5_000 });
    assert_eq!(done.action, LoopAction::Poll);
    assert_eq!(done.state.repair_cycles_completed, 1);
    assert_eq!(done.state.next_repair_after_ms, 65_000);
    let early = agent_step(&args, done.state, AgentEvent::Idle { now_ms: 64_999 });
    assert_eq!(early.action, LoopAction::Poll);
    assert!(early.log_idle);
    assert_eq!(early.state.last_idle_log_ms, 64_999);
    let due = agent_step(&args, early.state, AgentEvent::Idle { now_ms: 65_000 });
    assert_eq!(due.action, LoopAction::RunRepair);
    assert!(!due.log_idle);
}

#[test]
fn agent_without_repair_exits_on_idle_and_counts_messages() {
    let args = agent_args(&["--disable-repair", "--exit-on-idle", "--max-messages", "1"]);
    let start = agent_start(&args, 0);
    let idle = agent_step(&args, start.state, AgentEvent::Idle { now_ms: 0 });
    assert_eq!(idle.action, LoopAction::Stop);
    let handled = agent_step(&args, start.state, AgentEvent::MessageHandled);
    assert_eq!(handled.state.live_messages_processed, 1);
    assert_eq!(handled.action, LoopAction::Stop);
    let stop = agent_step(&args, start.state, AgentEvent::Shutdown);
    assert_eq!(stop.action, LoopAction::Stop);
    assert_eq!(stop.state, start.state);

    let no_prefix = agent_args(&[]);
    let idle = agent_step(&no_prefix, agent_start(&no_prefix, 0).state, AgentEvent::Idle { now_ms: 10 });
    assert_eq!(idle.action, LoopAction::Poll);
}

#[test]
fn next_repair_is_one_interval_later() {
    assert_eq!(next_repair_after(1_000, 60), 61_000);
    assert_eq!(next_repair_after(-5_000, 1), -4_000);
}

#[test]
fn a_failed_acknowledgement_fails_the_run() {
    let args = worker_args(&[]);
    let state = LiveLoopState { processed: 3, last_idle_log_ms: 7 };
    let failed = live_step(&args, state, LiveEvent::AckFailed);
    assert_eq!(failed.action, LoopAction::Fail);
    assert_eq!(failed.state, state);
    assert!(!failed.log_idle);

    let agent = agent_args(&[]);
    let start = agent_start(&agent, 0);
    let failed = agent_step(&agent, start.state, AgentEvent::AckFailed);
    assert_eq!(failed.action, LoopAction::Fail);
    assert_eq!(failed.state, start.state);
}
