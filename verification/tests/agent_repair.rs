use intel_candidate_app::agent::args::AgentArgs;
use intel_candidate_app::agent::repair::{
    RepairCycleReport, RepairKeyOutcome, RepairScanAction, RepairScanCursors, RepairScanState,
    SeenKeys, after_repair_page, repair_scan_after_page, repair_scan_start,
    repair_due, repair_due_at, repair_prefixes_for_cycle, take_unique_keys,
};
use intel_candidate_app::time::MILLIS_PER_DAY;

fn agent_args(repair_input_prefix: &str) -> AgentArgs {
    AgentArgs::parse(
        [
            "--nats-url",
            "nats://127.0.0.1:4222",
            "--input-s3-bucket",
            "test-structured-l1",
            "--output-s3-bucket",
            "test-candidate",
            "--market-l1-s3-bucket",
            "test-market-l1",
            "--repair-input-prefix",
            repair_input_prefix,
        ]
        .into_iter()
        .map(str::to_owned)
        .collect(),
    )
    .expect("args parse")
    .expect("args present")
}

#[test]
fn repair_prefixes_prioritize_recent_structured_partitions() {
    let mut args = agent_args("structured-intel-packet/schema=structured_intel_packet_v1/");
    args.repair_recent_partition_days = 2;

    assert_eq!(
        repair_prefixes_for_cycle(&args, MILLIS_PER_DAY),
        vec![
            "structured-intel-packet/schema=structured_intel_packet_v1/dt=1970-01-02/",
            "structured-intel-packet/schema=structured_intel_packet_v1/dt=1970-01-01/",
            "structured-intel-packet/schema=structured_intel_packet_v1/"
        ]
    );
}

#[test]
fn repair_prefixes_leave_generic_prefixes_unexpanded() {
    let args = agent_args("custom-prefix/");

    assert_eq!(
        repair_prefixes_for_cycle(&args, MILLIS_PER_DAY),
        vec!["custom-prefix/"]
    );
}

#[test]
fn take_unique_keys_preserves_first_seen_order() {
    let mut seen = SeenKeys::new();

    let mut keys = take_unique_keys(
        &mut seen,
        vec![
            "recent-a".to_owned(),
            "recent-b".to_owned(),
            "recent-a".to_owned(),
        ],
    );
    keys.extend(take_unique_keys(
        &mut seen,
        vec!["old-a".to_owned(), "recent-b".to_owned()],
    ));

    assert_eq!(keys, vec!["recent-a", "recent-b", "old-a"]);
}

#[test]
fn repair_cursor_advances_until_page_exhaustion() {
    let mut cursors = RepairScanCursors::default();
    let prefix = "structured-intel-packet/schema=structured_intel_packet_v1/";

    assert_eq!(cursors.start_after(prefix), None);
    assert!(cursors.update_after_page(prefix, Some("key-000500.jsonl".to_owned())));
    assert_eq!(cursors.start_after(prefix), Some("key-000500.jsonl"));

    assert!(cursors.update_after_page(prefix, Some("key-001000.jsonl".to_owned())));
    assert_eq!(cursors.start_after(prefix), Some("key-001000.jsonl"));

    assert!(!cursors.update_after_page(prefix, None));
    assert_eq!(cursors.start_after(prefix), None);
}

#[test]
fn repair_cursors_are_tracked_per_prefix() {
    let mut cursors = RepairScanCursors::default();

    cursors.update_after_page("prefix-a/", Some("prefix-a/key-1.jsonl".to_owned()));
    cursors.update_after_page("prefix-b/", Some("prefix-b/key-1.jsonl".to_owned()));
    assert_eq!(
        cursors.start_after("prefix-a/"),
        Some("prefix-a/key-1.jsonl")
    );
    assert_eq!(
        cursors.start_after("prefix-b/"),
        Some("prefix-b/key-1.jsonl")
    );

    cursors.update_after_page("prefix-a/", None);
    assert_eq!(cursors.start_after("prefix-a/"), None);
    assert_eq!(
        cursors.start_after("prefix-b/"),
        Some("prefix-b/key-1.jsonl")
    );
}

#[test]
fn repair_prefixes_without_recent_days_and_duplicates() {
    let mut args = agent_args("structured-intel-packet/schema=structured_intel_packet_v1/");
    args.repair_recent_partition_days = 0;
    args.repair_input_prefixes.push("custom/".to_owned());
    args.repair_input_prefixes.push("custom/".to_owned());
    assert_eq!(
        repair_prefixes_for_cycle(&args, 0),
        vec![
            "structured-intel-packet/schema=structured_intel_packet_v1/",
            "custom/"
        ]
    );
}

#[test]
fn repair_prefixes_cross_a_leap_day_and_saturate() {
    let mut args = agent_args("structured-intel-packet/schema=structured_intel_packet_v1/");
    args.repair_recent_partition_days = 3;
    // 2024-03-01T00:00:00Z
    let prefixes = repair_prefixes_for_cycle(&args, 1_709_251_200_000);
    assert_eq!(
        prefixes,
        vec![
            "structured-intel-packet/schema=structured_intel_packet_v1/dt=2024-03-01/",
            "structured-intel-packet/schema=structured_intel_packet_v1/dt=2024-02-29/",
            "structured-intel-packet/schema=structured_intel_packet_v1/dt=2024-02-28/",
            "structured-intel-packet/schema=structured_intel_packet_v1/"
        ]
    );
    // Before the epoch the partitions are 1969 dates.
    let before_epoch = repair_prefixes_for_cycle(&args, 0);
    assert_eq!(
        before_epoch[2],
        "structured-intel-packet/schema=structured_intel_packet_v1/dt=1969-12-30/"
    );
}

#[test]
fn repair_page_keeps_new_keys_and_decides_to_continue() {
    let mut cursors = RepairScanCursors::new();
    let mut seen = SeenKeys::new();
    let (keys, more) = after_repair_page(
        &mut cursors,
        &mut seen,
        "p/",
        vec!["p/1".to_owned(), "p/2".to_owned()],
        Some("p/2".to_owned()),
    );
    assert_eq!(keys, vec!["p/1", "p/2"]);
    assert!(more);
    assert_eq!(cursors.start_after("p/"), Some("p/2"));

    let (keys, more) = after_repair_page(&mut cursors, &mut seen, "p/", vec!["p/2".to_owned()], None);
    assert!(keys.is_empty());
    assert!(!more);
    assert_eq!(cursors.start_after("p/"), None);

    let (_, more) = after_repair_page(&mut cursors, &mut seen, "q/", Vec::new(), Some("q/x".to_owned()));
    assert!(!more);
    assert!(seen.contains("p/1"));
    assert!(!seen.contains("q/x"));
}

#[test]
fn repair_cycle_report_counts_each_key_once() {
    let mut report = RepairCycleReport::empty();
    report.record(RepairKeyOutcome::Processed);
    report.record(RepairKeyOutcome::SkippedStaleRevision);
    report.record(RepairKeyOutcome::Failed);
    report.record(RepairKeyOutcome::Processed);
    let mut total = RepairCycleReport::empty();
    total.merge(report);
    total.merge(report);
    total.merge(RepairCycleReport::empty());
    assert_eq!(total.keys_seen, 8);
    assert_eq!(total.keys_processed, 4);
    assert_eq!(total.keys_skipped_stale_revision, 2);
    assert_eq!(total.keys_failed, 2);
}

#[test]
fn repair_is_due_only_when_enabled_configured_and_scheduled() {
    let mut args = agent_args("custom-prefix/");
    assert!(repair_due_at(&args, 10, 10));
    assert!(!repair_due_at(&args, 9, 10));
    args.repair_enabled = false;
    assert!(!repair_due_at(&args, 10, 10));
    args.repair_enabled = true;
    args.repair_input_prefixes.clear();
    assert!(!repair_due_at(&args, 10, 10));
    assert!(!repair_due(&args, i64::MIN));
}

#[test]
fn repair_scheduled_at_the_earliest_instant_is_due_now() {
    let args = agent_args("custom-prefix/");
    assert!(repair_due(&args, i64::MIN));
    assert!(!repair_due(&args, i64::MAX));
}

fn scan_args(max_pages: &str) -> AgentArgs {
    AgentArgs::parse(
        [
            "--nats-url",
            "nats://127.0.0.1:4222",
            "--input-s3-bucket",
            "test-structured-l1",
            "--output-s3-bucket",
            "test-candidate",
            "--market-l1-s3-bucket",
            "test-market-l1",
            "--repair-input-prefix",
            "a/",
            "--repair-max-keys-per-prefix",
            "2",
            "--repair-max-pages-per-prefix",
            max_pages,
        ]
        .into_iter()
        .map(str::to_owned)
        .collect(),
    )
    .expect("args parse")
    .expect("args present")
}

fn owned(values: &[&str]) -> Vec<String> {
    values.iter().map(|value| value.to_string()).collect()
}

#[test]
fn repair_scan_lists_at_most_the_page_bound_per_prefix() {
    let args = scan_args("2");
    let prefixes = owned(&["a/", "b/"]);
    let mut cursors = RepairScanCursors::new();
    cursors.update_after_page("b/", Some("b/5".to_owned()));
    let mut seen = SeenKeys::new();
    let (state, action) = repair_scan_start(&args, &cursors, &prefixes);
    assert_eq!(state, RepairScanState { prefix_index: 0, pages_listed: 0 });
    assert_eq!(
        action,
        RepairScanAction::ListPage { prefix_index: 0, max_keys: 2, start_after: None }
    );

    let (state, keys, action) = repair_scan_after_page(
        &args,
        &prefixes,
        &mut cursors,
        &mut seen,
        state,
        owned(&["a/1", "a/2"]),
        Some("a/2".to_owned()),
    );
    assert_eq!(keys, owned(&["a/1", "a/2"]));
    assert_eq!(state, RepairScanState { prefix_index: 0, pages_listed: 1 });
    assert_eq!(
        action,
        RepairScanAction::ListPage {
            prefix_index: 0,
            max_keys: 2,
            start_after: Some("a/2".to_owned()),
        }
    );

    // The second page still continues, but the bound of two pages is reached.
    let (state, keys, action) = repair_scan_after_page(
        &args,
        &prefixes,
        &mut cursors,
        &mut seen,
        state,
        owned(&["a/2", "a/3"]),
        Some("a/3".to_owned()),
    );
    assert_eq!(keys, owned(&["a/3"]));
    assert_eq!(state, RepairScanState { prefix_index: 1, pages_listed: 0 });
    assert_eq!(
        action,
        RepairScanAction::ListPage {
            prefix_index: 1,
            max_keys: 2,
            start_after: Some("b/5".to_owned()),
        }
    );
    assert_eq!(cursors.start_after("a/"), Some("a/3"));

    // An exhausted page ends the last prefix, and the scan.
    let (state, keys, action) = repair_scan_after_page(
        &args,
        &prefixes,
        &mut cursors,
        &mut seen,
        state,
        owned(&["b/6"]),
        None,
    );
    assert_eq!(keys, owned(&["b/6"]));
    assert_eq!(state, RepairScanState { prefix_index: 2, pages_listed: 0 });
    assert_eq!(action, RepairScanAction::Done);
    assert_eq!(cursors.start_after("b/"), None);
}

#[test]
fn repair_scan_moves_on_after_an_empty_page_and_is_done_without_prefixes() {
    let args = scan_args("5");
    let prefixes = owned(&["a/", "b/"]);
    let mut cursors = RepairScanCursors::new();
    let mut seen = SeenKeys::new();
    let (state, _) = repair_scan_start(&args, &cursors, &prefixes);
    let (state, keys, action) = repair_scan_after_page(
        &args,
        &prefixes,
        &mut cursors,
        &mut seen,
        state,
        Vec::new(),
        Some("a/9".to_owned()),
    );
    assert!(keys.is_empty());
    assert_eq!(state, RepairScanState { prefix_index: 1, pages_listed: 0 });
    assert_eq!(
        action,
        RepairScanAction::ListPage { prefix_index: 1, max_keys: 2, start_after: None }
    );
    let (_, done) = repair_scan_start(&args, &cursors, &Vec::new());
    assert_eq!(done, RepairScanAction::Done);
}
