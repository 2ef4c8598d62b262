use intel_candidate_app::agent::args::{
    AgentArgs, RepairArgs, DEFAULT_REPAIR_INTERVAL_SECS, DEFAULT_REPAIR_MAX_KEYS_PER_PREFIX,
    DEFAULT_REPAIR_MAX_PAGES_PER_PREFIX, DEFAULT_REPAIR_RECENT_PARTITION_DAYS,
};
use intel_candidate_app::agent::help::agent_help;
use intel_candidate_app::policy::DEFAULT_POLICY_PATH;

fn strings(values: &[&str]) -> Vec<String> {
    values.iter().map(|value| value.to_string()).collect()
}

const WORKER: [&str; 8] = [
    "--nats-url",
    "nats://127.0.0.1:4222",
    "--input-s3-bucket",
    "test-structured-l1",
    "--output-s3-bucket",
    "test-candidate",
    "--market-l1-s3-bucket",
    "test-market-l1",
];

#[test]
fn parse_agent_flags_and_worker_flags() {
    let args = AgentArgs::parse(
        [
            "--nats-url",
            "nats://127.0.0.1:4222",
            "--input-s3-bucket",
            "test-structured-l1",
            "--output-s3-bucket",
            "test-candidate",
            "--market-l1-s3-bucket",
            "test-market-l1",
            "--repair-input-prefix",
            "structured-intel-packet/schema=structured_intel_packet_v1/",
            "--repair-interval-secs",
            "60",
            "--repair-max-keys-per-prefix",
            "11",
            "--repair-max-pages-per-prefix",
            "3",
            "--repair-recent-partition-days",
            "2",
        ]
        .into_iter()
        .map(str::to_owned)
        .collect(),
    )
    .expect("args parse")
    .expect("args present");
    assert_eq!(args.worker.nats.url, "nats://127.0.0.1:4222");
    assert_eq!(
        args.repair_input_prefixes,
        vec!["structured-intel-packet/schema=structured_intel_packet_v1/"]
    );
    assert_eq!(args.repair_interval_secs, 60);
    assert_eq!(args.repair_max_keys_per_prefix, 11);
    assert_eq!(args.repair_max_pages_per_prefix, 3);
    assert_eq!(args.repair_recent_partition_days, 2);
    assert!(args.repair_enabled);
}

#[test]
fn parse_disable_repair() {
    let args = AgentArgs::parse(
        [
            "--nats-url",
            "nats://127.0.0.1:4222",
            "--input-s3-bucket",
            "test-structured-l1",
            "--output-s3-bucket",
            "test-candidate",
            "--market-l1-s3-bucket",
            "test-market-l1",
            "--disable-repair",
        ]
        .into_iter()
        .map(str::to_owned)
        .collect(),
    )
    .expect("args parse")
    .expect("args present");
    assert!(!args.repair_enabled);
    assert_eq!(
        args.repair_max_pages_per_prefix,
        DEFAULT_REPAIR_MAX_PAGES_PER_PREFIX
    );
    assert_eq!(
        args.repair_recent_partition_days,
        DEFAULT_REPAIR_RECENT_PARTITION_DAYS
    );
}

#[test]
fn rejects_unsafe_repair_prefix() {
    let err = AgentArgs::parse(
        [
            "--nats-url",
            "nats://127.0.0.1:4222",
            "--input-s3-bucket",
            "test-structured-l1",
            "--output-s3-bucket",
            "test-candidate",
            "--market-l1-s3-bucket",
            "test-market-l1",
            "--repair-input-prefix",
            "s3://bucket/structured-intel-packet/",
        ]
        .into_iter()
        .map(str::to_owned)
        .collect(),
    )
    .unwrap_err();

    assert!(err.to_string().contains("--repair-input-prefix"));
    assert!(err.to_string().contains("object key"));
}

#[test]
fn agent_defaults_apply_without_repair_flags() {
    let args = AgentArgs::parse(strings(&WORKER)).unwrap().unwrap();
    assert!(args.repair_input_prefixes.is_empty());
    assert_eq!(args.repair_interval_secs, DEFAULT_REPAIR_INTERVAL_SECS);
    assert_eq!(args.repair_max_keys_per_prefix, DEFAULT_REPAIR_MAX_KEYS_PER_PREFIX);
    assert!(args.repair_enabled);
    assert_eq!(args.worker.policy_file, DEFAULT_POLICY_PATH);
    assert_eq!(args.worker.input_store.bucket, "test-structured-l1");
    assert_eq!(args.worker.output_store.bucket, "test-candidate");
    assert_eq!(args.worker.market_store.bucket, "test-market-l1");
    assert_eq!(args.worker.max_messages, None);
    assert!(!args.worker.exit_on_idle);
}

#[test]
fn agent_help_flag_anywhere_gives_none() {
    let mut values = strings(&WORKER);
    values.push("--repair-interval-secs".to_owned());
    values.push("0".to_owned());
    values.push("--help".to_owned());
    assert!(AgentArgs::parse(values).unwrap().is_none());
    assert!(AgentArgs::parse(strings(&["-h"])).unwrap().is_none());
}

#[test]
fn agent_repeated_and_aliased_prefixes_accumulate_in_order() {
    let mut values = strings(&WORKER);
    values.extend(strings(&[
        "--repair-input-prefix",
        "a/",
        "--agent-repair-input-prefix",
        "b/",
        "--replay-input-prefix",
        "c/",
        "--agent-disable-repair",
        "--max-messages",
        "5",
        "--exit-on-idle",
    ]));
    let args = AgentArgs::parse(values).unwrap().unwrap();
    assert_eq!(args.repair_input_prefixes, vec!["a/", "b/", "c/"]);
    assert!(!args.repair_enabled);
    assert_eq!(args.worker.max_messages, Some(5));
    assert!(args.worker.exit_on_idle);
}

#[test]
fn agent_rejects_bad_numbers_with_parse_error_text() {
    let mut zero = strings(&WORKER);
    zero.extend(strings(&["--repair-interval-secs", "0"]));
    assert_eq!(AgentArgs::parse(zero).unwrap_err().to_string(), "value must be positive");

    let mut letters = strings(&WORKER);
    letters.extend(strings(&["--repair-max-keys-per-prefix", "1x"]));
    assert_eq!(
        AgentArgs::parse(letters).unwrap_err().to_string(),
        "invalid positive integer 1x: invalid digit found in string"
    );

    let mut empty = strings(&WORKER);
    empty.extend(strings(&["--repair-max-pages-per-prefix", ""]));
    assert_eq!(
        AgentArgs::parse(empty).unwrap_err().to_string(),
        "invalid positive integer : cannot parse integer from empty string"
    );

    let mut large = strings(&WORKER);
    large.extend(strings(&["--repair-recent-partition-days", "4294967296"]));
    assert_eq!(
        AgentArgs::parse(large).unwrap_err().to_string(),
        "invalid non-negative integer 4294967296: number too large to fit in target type"
    );

    let mut plus = strings(&WORKER);
    plus.extend(strings(&["--repair-recent-partition-days", "+0"]));
    assert_eq!(AgentArgs::parse(plus).unwrap().unwrap().repair_recent_partition_days, 0);
}

#[test]
fn agent_reports_missing_values_and_worker_errors() {
    let mut missing = strings(&WORKER);
    missing.push("--repair-interval-secs".to_owned());
    assert_eq!(
        AgentArgs::parse(missing).unwrap_err().to_string(),
        "--repair-interval-secs requires a value"
    );

    let unknown = strings(&["--nats-url", "x", "--bogus"]);
    assert_eq!(
        AgentArgs::parse(unknown).unwrap_err().to_string(),
        "unknown argument: --bogus"
    );

    let no_buckets = strings(&["--nats-url", "x"]);
    assert_eq!(
        AgentArgs::parse(no_buckets).unwrap_err().to_string(),
        "--input-s3-bucket is required"
    );
}

#[test]
fn agent_help_lists_defaults_and_worker_flags() {
    let help = agent_help();
    assert!(help.starts_with("intel-candidate-agent\nUsage:"));
    assert!(help.contains("--repair-interval-secs <positive>          Default: 3600"));
    assert!(help.contains("Default: 500"));
    assert!(help.contains("Default: 8"));
    assert!(help.contains("Default: 3. Adds recent dt=YYYY-MM-DD prefixes"));
    assert!(help.contains(DEFAULT_POLICY_PATH));
    assert!(help.contains("--nats-url <url>"));
    assert!(help.ends_with("Stop when no message is waiting.\n"));
}

#[test]
fn repair_flag_without_value_moves_index_and_changes_nothing_else() {
    let raw = strings(&["--repair-interval-secs"]);
    let mut repair = RepairArgs::default();
    let mut index = 0usize;
    let mut worker_args = strings(&["--nats-url"]);
    let error = repair.apply_arg(&raw, &mut index, &mut worker_args).unwrap_err();
    assert_eq!(error.to_string(), "--repair-interval-secs requires a value");
    assert_eq!(index, 1);
    assert_eq!(worker_args, strings(&["--nats-url"]));

    let raw = strings(&["--agent-repair-max-pages-per-prefix", "zero"]);
    let mut index = 0usize;
    let error = repair.apply_arg(&raw, &mut index, &mut worker_args).unwrap_err();
    assert!(error.to_string().starts_with("invalid positive integer zero"));
    assert_eq!(index, 1);
    assert_eq!(worker_args, strings(&["--nats-url"]));
}
