use intel_candidate_app::order::{TextOrder, order_texts, sorted_unique_keys};
use intel_candidate_app::replay::{
    ReplayCounters, ReplayFailure, ReplayKeyOutcome, ReplayTally, parse_args, replay_outcome, replay_report, replay_report_key,
    replay_run_id,
};

fn strings(values: &[&str]) -> Vec<String> {
    values.iter().map(|value| value.to_string()).collect()
}

fn chars(value: &str) -> Vec<char> {
    value.chars().collect()
}

#[test]
fn replay_keys_are_sorted_and_deduplicated() {
    let keys = sorted_unique_keys(strings(&["b/2", "a/1", "b/10", "a/1", "b/2", "a"]));
    assert_eq!(keys, strings(&["a", "a/1", "b/10", "b/2"]));
    assert!(sorted_unique_keys(Vec::new()).is_empty());
    let mut expected = strings(&["é", "z", "Z", "zz", "é"]);
    expected.sort();
    expected.dedup();
    assert_eq!(sorted_unique_keys(strings(&["é", "z", "Z", "zz", "é"])), expected);
}

#[test]
fn texts_order_by_code_point() {
    assert_eq!(order_texts(&chars("a"), &chars("b")), TextOrder::Before);
    assert_eq!(order_texts(&chars("ab"), &chars("a")), TextOrder::After);
    assert_eq!(order_texts(&chars("ab"), &chars("ab")), TextOrder::Same);
    assert_eq!(order_texts(&chars(""), &chars("a")), TextOrder::Before);
    assert_eq!(order_texts(&chars("Z"), &chars("a")), TextOrder::Before);
}

fn args(extra: &[&str]) -> intel_candidate_app::replay::ReplayArgs {
    let mut values = strings(&[
        "--nats-url",
        "nats://127.0.0.1:4222",
        "--input-s3-bucket",
        "in-bucket",
        "--output-s3-bucket",
        "out-bucket",
        "--market-l1-s3-bucket",
        "market",
        "--replay-input-prefix",
        "p1/",
        "--replay-input-prefix",
        "p2/",
    ]);
    values.extend(strings(extra));
    parse_args(values).expect("args parse").expect("args present")
}

#[test]
fn replay_report_collects_run_counts() {
    let args = args(&[]);
    let mut counters = ReplayCounters::default();
    counters.record_success(true, true);
    counters.record_success(false, false);
    let failures = vec![ReplayFailure {
        input_key: "p1/bad".to_owned(),
        error: "boom".to_owned(),
    }];
    let run_id = replay_run_id(0);
    assert_eq!(run_id, "intel-candidate-replay-0");
    let report = replay_report(&args, "9.9.9", 0, &run_id, 3, counters, failures.clone());
    assert_eq!(report.schema_version, "intel_candidate_replay_report_v1");
    assert_eq!(report.replay_run_id, "intel-candidate-replay-0");
    assert_eq!(report.producer_app, "intel-candidate-app");
    assert_eq!(report.producer_version, "9.9.9");
    assert_eq!(report.created_at_ms, 0);
    assert_eq!(report.input_bucket, "in-bucket");
    assert_eq!(report.output_bucket, "out-bucket");
    assert_eq!(report.input_prefixes, strings(&["p1/", "p2/"]));
    assert_eq!(report.keys_seen, 3);
    assert_eq!(report.keys_processed, 2);
    assert_eq!(report.keys_skipped_stale_revision, 0);
    assert_eq!(report.keys_failed, 1);
    assert_eq!(report.result_records_created, 2);
    assert_eq!(report.evidence_bundles_created, 1);
    assert_eq!(report.hypothesis_states_created, 1);
    assert_eq!(report.screening_events_created, 2);
    assert_eq!(report.failed_keys, failures);
    assert_eq!(report.result_prefix, "candidate-replay-result");
    assert_eq!(
        report.report_key,
        replay_report_key("candidate-replay-report", 0, "intel-candidate-replay-0")
    );
    assert_eq!(report.checksum, "");

    let error = replay_outcome(&args, &report).expect_err("failed keys fail the run");
    assert_eq!(
        error.to_string(),
        format!(
            "candidate replay finished with 1 failed keys; report_key={}",
            report.report_key
        )
    );
    let tolerant = self::args(&["--replay-continue-on-record-error"]);
    assert!(replay_outcome(&tolerant, &report).is_ok());
    let clean = replay_report(&args, "1", 0, &run_id, 0, ReplayCounters::default(), Vec::new());
    assert!(replay_outcome(&args, &clean).is_ok());
}

#[test]
fn replay_tally_counts_every_key_once() {
    let mut tally = ReplayTally::new();
    tally.record(
        "k1".to_owned(),
        ReplayKeyOutcome::Replayed { has_evidence_bundle: true, has_hypothesis_state: false },
    );
    tally.record("k2".to_owned(), ReplayKeyOutcome::Failed { error: "boom".to_owned() });
    tally.record(
        "k3".to_owned(),
        ReplayKeyOutcome::Replayed { has_evidence_bundle: false, has_hypothesis_state: true },
    );
    assert_eq!(tally.keys_seen, 3);
    assert_eq!(tally.counters.keys_processed, 2);
    assert_eq!(tally.counters.result_records_created, 2);
    assert_eq!(tally.counters.screening_events_created, 2);
    assert_eq!(tally.counters.evidence_bundles_created, 1);
    assert_eq!(tally.counters.hypothesis_states_created, 1);
    assert_eq!(
        tally.failed_keys,
        vec![ReplayFailure { input_key: "k2".to_owned(), error: "boom".to_owned() }]
    );
    let report = replay_report(
        &args(&[]),
        "1",
        0,
        "run",
        tally.keys_seen,
        tally.counters,
        tally.failed_keys,
    );
    assert_eq!(report.keys_seen, report.keys_processed + report.keys_failed);
}
