use intel_candidate_app::hash::sha256_hex;
use intel_candidate_app::policy::DEFAULT_POLICY_PATH;
use intel_candidate_app::replay::{
    ReplayCounters, parse_args, path_segment, replay_help, replay_report_key, replay_result_key,
};

#[test]
fn parse_replay_flags_and_worker_flags() {
    let args = parse_args(
        [
            "--nats-url",
            "nats://127.0.0.1:4222",
            "--input-s3-bucket",
            "test-structured-l1",
            "--output-s3-bucket",
            "test-candidate",
            "--market-l1-s3-bucket",
            "test-market-l1",
            "--replay-input-prefix",
            "structured-intel-packet/schema=structured_intel_packet_v1/",
            "--replay-max-keys-per-prefix",
            "7",
            "--replay-created-at-ms",
            "123",
            "--replay-result-prefix",
            "candidate-replay/custom",
            "--replay-write-artifacts",
        ]
        .into_iter()
        .map(str::to_owned)
        .collect(),
    )
    .expect("args parse")
    .expect("args present");
    assert_eq!(
        args.input_prefixes,
        vec!["structured-intel-packet/schema=structured_intel_packet_v1/"]
    );
    assert_eq!(args.max_keys_per_prefix, 7);
    assert_eq!(args.created_at_ms, Some(123));
    assert_eq!(args.result_prefix, "candidate-replay/custom");
    assert!(args.write_artifacts);
    assert_eq!(args.worker.nats.url, "nats://127.0.0.1:4222");
}

#[test]
fn replay_help_uses_compiled_policy_path() {
    assert!(replay_help().contains(DEFAULT_POLICY_PATH));
}

#[test]
fn report_key_is_partitioned() {
    assert_eq!(
        replay_report_key("candidate-replay-report", 0, "run/1"),
        "candidate-replay-report/schema=intel_candidate_replay_report_v1/dt=1970-01-01/hour=00/replay_run_id=run_1/report.json"
    );
    assert_eq!(
        replay_result_key("candidate-replay-result", 0, "run/1", "input/key.json"),
        format!(
            "candidate-replay-result/schema=intel_candidate_replay_result_v1/dt=1970-01-01/hour=00/replay_run_id=run_1/input_key_sha256={}/result.json",
            sha256_hex(b"input/key.json")
        )
    );
}

fn strings(values: &[&str]) -> Vec<String> {
    values.iter().map(|value| value.to_string()).collect()
}

#[test]
fn replay_requires_an_input_prefix_and_reads_defaults() {
    let worker = [
        "--nats-url",
        "n",
        "--input-s3-bucket",
        "i",
        "--output-s3-bucket",
        "o",
        "--market-l1-s3-bucket",
        "m",
    ];
    assert_eq!(
        parse_args(strings(&worker)).unwrap_err().to_string(),
        "--replay-input-prefix is required"
    );
    let mut values = strings(&worker);
    values.extend(strings(&["--replay-input-prefix", "p/", "--replay-continue-on-record-error"]));
    let args = parse_args(values).unwrap().unwrap();
    assert_eq!(args.max_keys_per_prefix, 10_000);
    assert_eq!(args.created_at_ms, None);
    assert_eq!(args.report_prefix, "candidate-replay-report");
    assert_eq!(args.result_prefix, "candidate-replay-result");
    assert!(!args.fail_on_record_error);
    assert!(!args.write_artifacts);
    assert!(parse_args(strings(&["--help"])).unwrap().is_none());
}

#[test]
fn replay_rejects_negative_or_malformed_timestamps() {
    assert_eq!(
        parse_args(strings(&["--replay-created-at-ms", "-5"])).unwrap_err().to_string(),
        "timestamp must be non-negative"
    );
    assert_eq!(
        parse_args(strings(&["--replay-created-at-ms", "-99999999999999999999"]))
            .unwrap_err()
            .to_string(),
        "invalid timestamp -99999999999999999999: number too small to fit in target type"
    );
    assert_eq!(
        parse_args(strings(&["--replay-created-at-ms", "-"])).unwrap_err().to_string(),
        "invalid timestamp -: invalid digit found in string"
    );
}

#[test]
fn replay_keys_trim_prefix_slashes_and_use_hour() {
    // 2026-05-29T12:34:56Z
    let key = replay_report_key("/reports//", 1_780_058_096_000, "intel-candidate-replay-1");
    assert_eq!(
        key,
        "reports/schema=intel_candidate_replay_report_v1/dt=2026-05-29/hour=12/replay_run_id=intel-candidate-replay-1/report.json"
    );
    assert_eq!(path_segment("a.b/c d"), "a_b_c_d");
}

#[test]
fn replay_counters_count_results() {
    let mut counters = ReplayCounters::default();
    counters.record_success(true, false);
    counters.record_success(false, true);
    counters.record_success(false, false);
    assert_eq!(counters.keys_processed, 3);
    assert_eq!(counters.result_records_created, 3);
    assert_eq!(counters.screening_events_created, 3);
    assert_eq!(counters.evidence_bundles_created, 1);
    assert_eq!(counters.hypothesis_states_created, 1);
}
