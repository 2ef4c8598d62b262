use intel_candidate_app::cli::{help_text, parse_args, run_summary};
use intel_candidate_app::policy::DEFAULT_POLICY_PATH;

fn strings(values: &[&str]) -> Vec<String> {
    values.iter().map(|value| value.to_string()).collect()
}

const TEST_POLICY_PATH: &str = "/tmp/policies/scoring-policy.v1.json";

#[test]
fn rejects_cli_paths_with_relative_components() {
    for (flag, value) in [
        ("--input-file", "/tmp/../structured.json"),
        ("--policy-file", "/tmp/./policy.json"),
        ("--output-dir", "/tmp/../intel-candidate-out"),
    ] {
        let error = parse_args(
            [
                "--input-file",
                "/tmp/structured.json",
                "--policy-file",
                TEST_POLICY_PATH,
                flag,
                value,
            ]
            .into_iter()
            .map(ToOwned::to_owned)
            .collect(),
        )
        .unwrap_err()
        .to_string();

        assert!(
            error.contains(flag),
            "expected {flag} in error for {value:?}, got {error}"
        );
        assert!(
            error.contains("relative path components"),
            "expected relative path error for {value:?}, got {error}"
        );
    }
}

#[test]
fn cli_parses_every_flag() {
    let args = parse_args(strings(&[
        "--input-file",
        "/data/structured.json",
        "--policy-file",
        "/data/policy.json",
        "--universe-snapshot-file",
        "/data/universe.json",
        "--market-feature-delta-file",
        "/data/delta.json",
        "--market-regime-context-file",
        "/data/regime.json",
        "--output-dir",
        "/data/out",
        "--now-ms",
        "7200000",
    ]))
    .expect("args parse")
    .expect("args exist");
    assert_eq!(args.input_file, "/data/structured.json");
    assert_eq!(args.policy_file, "/data/policy.json");
    assert_eq!(args.universe_snapshot_file.as_deref(), Some("/data/universe.json"));
    assert_eq!(args.market_feature_delta_file.as_deref(), Some("/data/delta.json"));
    assert_eq!(args.market_regime_context_file.as_deref(), Some("/data/regime.json"));
    assert_eq!(args.output_dir.as_deref(), Some("/data/out"));
    assert_eq!(args.now_ms, Some(7_200_000));
}

#[test]
fn cli_defaults_and_errors() {
    let args = parse_args(strings(&["--input-file", "/x.json"])).unwrap().unwrap();
    assert_eq!(args.policy_file, DEFAULT_POLICY_PATH);
    assert_eq!(args.output_dir, None);
    assert_eq!(args.now_ms, None);

    assert!(parse_args(strings(&["-h"])).unwrap().is_none());
    assert_eq!(
        parse_args(Vec::new()).unwrap_err().to_string(),
        "--input-file is required"
    );
    assert_eq!(
        parse_args(strings(&["--input-file"])).unwrap_err().to_string(),
        "--input-file requires an absolute path"
    );
    assert_eq!(
        parse_args(strings(&["--input-file", "relative.json"])).unwrap_err().to_string(),
        "--input-file requires an absolute path; --input-file must be an absolute path: relative.json"
    );
    assert_eq!(
        parse_args(strings(&["--now-ms", "-1"])).unwrap_err().to_string(),
        "--now-ms must be non-negative"
    );
    assert_eq!(
        parse_args(strings(&["--now-ms", "soon"])).unwrap_err().to_string(),
        "--now-ms must be an integer"
    );
    assert_eq!(
        parse_args(strings(&["--now-ms"])).unwrap_err().to_string(),
        "--now-ms requires a number"
    );
    let unknown = parse_args(strings(&["--bogus"])).unwrap_err().to_string();
    assert_eq!(unknown, format!("unknown argument: --bogus\n\n{}", help_text()));
}

#[test]
fn run_summary_counts_results_bundles_and_states() {
    let summary = run_summary(
        &vec![(true, false), (false, false), (true, true)],
        vec!["/out/a.json".to_owned()],
    );
    assert_eq!(summary.processed_packets, 3);
    assert_eq!(summary.evidence_bundles_created, 2);
    assert_eq!(summary.hypothesis_states_created, 1);
    assert_eq!(summary.output_files, vec!["/out/a.json".to_owned()]);
    let empty = run_summary(&Vec::new(), Vec::new());
    assert_eq!(empty.processed_packets, 0);
}
