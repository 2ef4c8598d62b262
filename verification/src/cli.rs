//! Arguments of the one-shot command-line application, which screens the
//! structured packets of a file and writes the results.
use crate::error::{AppError, AppErrorView};
use crate::paths::{absolute_path_check, is_unambiguous_absolute_path, validate_unambiguous_absolute_path};
use crate::policy::DEFAULT_POLICY_PATH;
use crate::text::{lemma_parse_signed_range, read_signed, parse_signed, str_eq, texts};
use vstd::prelude::*;
use vstd::string::*;

verus! {

/// The usage text of the application.
pub const USAGE: &'static str = "intel-candidate-app
Usage:
  intel-candidate-app \\
    --input-file /Volumes/WD/Developments/nangman-crypto/data/examples/structured-intel-packets.jsonl \\
    --policy-file /Volumes/WD/Developments/nangman-crypto/apps/intel-candidate-app/policies/scoring-policy.v1.json \\
    --universe-snapshot-file /Volumes/WD/Developments/nangman-crypto/data/examples/symbol-universe-snapshot.json \\
    --market-feature-delta-file /Volumes/WD/Developments/nangman-crypto/data/examples/market-feature-delta.json \\
    --market-regime-context-file /Volumes/WD/Developments/nangman-crypto/data/examples/market-regime-context.json \\
    --output-dir /Volumes/WD/Developments/nangman-crypto/data/spool/intel-candidate

Without --output-dir, the app prints screening events and evidence bundles to stdout.
This app does not run external adapters, does not publish orders, and does not emit buy/sell/long/short decisions.";

/// The usage text.
pub fn help_text() -> (r: &'static str)
    ensures
        r@ == USAGE@,
{
    USAGE
}

/// What one run of the application reads and where it writes.
#[derive(Debug, Clone, PartialEq, Eq)]
pub struct Args {
    pub input_file: String,
    pub policy_file: String,
    pub universe_snapshot_file: Option<String>,
    pub market_feature_delta_file: Option<String>,
    pub market_regime_context_file: Option<String>,
    pub output_dir: Option<String>,
    pub now_ms: Option<i64>,
}

/// What one run produced.
#[derive(Debug, Clone, PartialEq, Eq)]
pub struct RunSummary {
    pub processed_packets: usize,
    pub evidence_bundles_created: usize,
    pub hypothesis_states_created: usize,
    pub output_files: Vec<String>,
}

/// How many results hold an evidence bundle (`.0`) or, with `second`, a
/// hypothesis state (`.1`).
pub open spec fn count_with(parts: Seq<(bool, bool)>, second: bool) -> nat
    decreases parts.len(),
{
    if parts.len() == 0 {
        0
    } else {
        count_with(parts.drop_last(), second) + if (if second {
            parts.last().1
        } else {
            parts.last().0
        }) {
            1nat
        } else {
            0nat
        }
    }
}

proof fn lemma_count_with_bound(parts: Seq<(bool, bool)>, second: bool)
    ensures
        count_with(parts, second) <= parts.len(),
    decreases parts.len(),
{
    if parts.len() > 0 {
        lemma_count_with_bound(parts.drop_last(), second);
    }
}

/// A result that holds an evidence bundle.
pub open spec fn holds_bundle() -> spec_fn((bool, bool)) -> bool {
    |p: (bool, bool)| p.0
}

/// A result that holds a hypothesis state.
pub open spec fn holds_state() -> spec_fn((bool, bool)) -> bool {
    |p: (bool, bool)| p.1
}

/// The counts of a run summary: the bundles counted are exactly the results
/// that hold an evidence bundle, and the states counted exactly those that
/// hold a hypothesis state, whatever the other flag says.
pub proof fn lemma_run_summary_counts(parts: Seq<(bool, bool)>)
    ensures
        count_with(parts, false) == parts.filter(holds_bundle()).len(),
        count_with(parts, true) == parts.filter(holds_state()).len(),
        count_with(parts, false) <= parts.len(),
        count_with(parts, true) <= parts.len(),
    decreases parts.len(),
{
    reveal(Seq::filter);
    if parts.len() > 0 {
        lemma_run_summary_counts(parts.drop_last());
        assert(parts.filter(holds_bundle()) == if parts.last().0 {
            parts.drop_last().filter(holds_bundle()).push(parts.last())
        } else {
            parts.drop_last().filter(holds_bundle())
        });
        assert(parts.filter(holds_state()) == if parts.last().1 {
            parts.drop_last().filter(holds_state()).push(parts.last())
        } else {
            parts.drop_last().filter(holds_state())
        });
    }
}

/// The summary of a run over results, each given by whether it holds an
/// evidence bundle and a hypothesis state: every result is a processed
/// packet, and bundles and states are counted where present.
pub fn run_summary(result_parts: &Vec<(bool, bool)>, output_files: Vec<String>) -> (r: RunSummary)
    ensures
        r.processed_packets == result_parts@.len(),
        r.evidence_bundles_created == count_with(result_parts@, false),
        r.hypothesis_states_created == count_with(result_parts@, true),
        r.evidence_bundles_created == result_parts@.filter(holds_bundle()).len(),
        r.hypothesis_states_created == result_parts@.filter(holds_state()).len(),
        r.output_files@ == output_files@,
{
    proof {
        lemma_run_summary_counts(result_parts@);
    }
    let mut bundles: usize = 0;
    let mut states: usize = 0;
    let mut i: usize = 0;
    while i < result_parts.len()
        invariant
            i <= result_parts@.len(),
            bundles == count_with(result_parts@.take(i as int), false),
            states == count_with(result_parts@.take(i as int), true),
        decreases result_parts@.len() - i,
    {
        proof {
            assert(result_parts@.take(i + 1).drop_last() =~= result_parts@.take(i as int));
            lemma_count_with_bound(result_parts@.take(i as int), false);
            lemma_count_with_bound(result_parts@.take(i as int), true);
        }
        let (has_bundle, has_state) = result_parts[i];
        if has_bundle {
            bundles = bundles + 1;
        }
        if has_state {
            states = states + 1;
        }
        i = i + 1;
    }
    assert(result_parts@.take(i as int) =~= result_parts@);
    RunSummary {
        processed_packets: result_parts.len(),
        evidence_bundles_created: bundles,
        hypothesis_states_created: states,
        output_files,
    }
}

/// The mathematical value of [`Args`].
pub struct ArgsView {
    pub input_file: Seq<char>,
    pub policy_file: Seq<char>,
    pub universe_snapshot_file: Option<Seq<char>>,
    pub market_feature_delta_file: Option<Seq<char>>,
    pub market_regime_context_file: Option<Seq<char>>,
    pub output_dir: Option<Seq<char>>,
    pub now_ms: Option<i64>,
}

pub open spec fn opt_text(o: Option<String>) -> Option<Seq<char>> {
    match o {
        Some(s) => Some(s@),
        None => None,
    }
}

impl View for Args {
    type V = ArgsView;

    open spec fn view(&self) -> ArgsView {
        ArgsView {
            input_file: self.input_file@,
            policy_file: self.policy_file@,
            universe_snapshot_file: opt_text(self.universe_snapshot_file),
            market_feature_delta_file: opt_text(self.market_feature_delta_file),
            market_regime_context_file: opt_text(self.market_regime_context_file),
            output_dir: opt_text(self.output_dir),
            now_ms: self.now_ms,
        }
    }
}

pub open spec fn initial_args() -> ArgsView {
    ArgsView {
        input_file: seq![],
        policy_file: DEFAULT_POLICY_PATH@,
        universe_snapshot_file: None,
        market_feature_delta_file: None,
        market_regime_context_file: None,
        output_dir: None,
        now_ms: None,
    }
}

/// The value after a path flag: it must be present and an unambiguous
/// absolute path.
pub open spec fn absolute_path_spec(value: Option<Seq<char>>, flag: Seq<char>) -> Result<
    Seq<char>,
    AppErrorView,
> {
    match value {
        None => Err(AppErrorView::Config(flag + " requires an absolute path"@)),
        Some(p) => match absolute_path_check(p, flag) {
            Some(m) => Err(AppErrorView::Config(flag + " requires an absolute path"@ + "; "@ + m)),
            None => Ok(p),
        },
    }
}

pub open spec fn value_at(raw: Seq<Seq<char>>, i: int) -> Option<Seq<char>> {
    if 0 <= i < raw.len() {
        Some(raw[i])
    } else {
        None
    }
}

/// The value of `--now-ms`.
pub open spec fn now_ms_spec(value: Option<Seq<char>>) -> Result<i64, AppErrorView> {
    match value {
        None => Err(AppErrorView::Config("--now-ms requires a number"@)),
        Some(v) => match parse_signed(v, i64::MIN as int, i64::MAX as int) {
            Err(_) => Err(AppErrorView::Config("--now-ms must be an integer"@)),
            Ok(n) => if n < 0 {
                Err(AppErrorView::Config("--now-ms must be non-negative"@))
            } else {
                Ok(n as i64)
            },
        },
    }
}

/// The argument at index `i`: `Ok(None)` asks for help, `Ok(Some((a, c)))`
/// gives the new arguments and whether the following value was consumed.
pub open spec fn cli_step(a: ArgsView, raw: Seq<Seq<char>>, i: int) -> Result<
    Option<(ArgsView, bool)>,
    AppErrorView,
> {
    let f = raw[i];
    let v = value_at(raw, i + 1);
    if f == "-h"@ || f == "--help"@ {
        Ok(None)
    } else if f == "--input-file"@ {
        match absolute_path_spec(v, f) {
            Err(e) => Err(e),
            Ok(p) => Ok(Some((ArgsView { input_file: p, ..a }, true))),
        }
    } else if f == "--policy-file"@ {
        match absolute_path_spec(v, f) {
            Err(e) => Err(e),
            Ok(p) => Ok(Some((ArgsView { policy_file: p, ..a }, true))),
        }
    } else if f == "--universe-snapshot-file"@ {
        match absolute_path_spec(v, f) {
            Err(e) => Err(e),
            Ok(p) => Ok(Some((ArgsView { universe_snapshot_file: Some(p), ..a }, true))),
        }
    } else if f == "--market-feature-delta-file"@ {
        match absolute_path_spec(v, f) {
            Err(e) => Err(e),
            Ok(p) => Ok(Some((ArgsView { market_feature_delta_file: Some(p), ..a }, true))),
        }
    } else if f == "--market-regime-context-file"@ {
        match absolute_path_spec(v, f) {
            Err(e) => Err(e),
            Ok(p) => Ok(Some((ArgsView { market_regime_context_file: Some(p), ..a }, true))),
        }
    } else if f == "--output-dir"@ {
        match absolute_path_spec(v, f) {
            Err(e) => Err(e),
            Ok(p) => Ok(Some((ArgsView { output_dir: Some(p), ..a }, true))),
        }
    } else if f == "--now-ms"@ {
        match now_ms_spec(v) {
            Err(e) => Err(e),
            Ok(n) => Ok(Some((ArgsView { now_ms: Some(n), ..a }, true))),
        }
    } else {
        Err(AppErrorView::Config("unknown argument: "@ + f + "\n\n"@ + USAGE@))
    }
}

/// Reads the arguments from index `i` on.
pub open spec fn cli_fold(a: ArgsView, raw: Seq<Seq<char>>, i: int) -> Result<Option<ArgsView>, AppErrorView>
    decreases raw.len() + 2 - i,
{
    if i < 0 || i >= raw.len() {
        Ok(Some(a))
    } else {
        match cli_step(a, raw, i) {
            Err(e) => Err(e),
            Ok(None) => Ok(None),
            Ok(Some((a2, consumed))) => cli_fold(a2, raw, if consumed { i + 2 } else { i + 1 }),
        }
    }
}

/// What [`parse_args`] gives for the arguments `raw`.
pub open spec fn parse_args_spec(raw: Seq<Seq<char>>) -> Result<Option<ArgsView>, AppErrorView> {
    match cli_fold(initial_args(), raw, 0) {
        Err(e) => Err(e),
        Ok(None) => Ok(None),
        Ok(Some(a)) => if a.input_file.len() == 0 {
            Err(AppErrorView::Config("--input-file is required"@))
        } else {
            Ok(Some(a))
        },
    }
}

/// The value of a path flag: present, absolute, and without `.` or `..`
/// components.
fn absolute_path_arg(value: Option<String>, flag: &str) -> (r: Result<String, AppError>)
    ensures
        match absolute_path_spec(opt_text(value), flag@) {
            Err(e) => r matches Err(x) && x@ == e,
            Ok(p) => r matches Ok(s) && s@ == p,
        },
{
    let mut message = String::from_str(flag);
    message.append(" requires an absolute path");
    let path = match value {
        None => {
            return Err(AppError::Config(message));
        },
        Some(p) => p,
    };
    match validate_unambiguous_absolute_path(path.as_str(), flag) {
        Err(e) => {
            message.append("; ");
            let text = e.to_string();
            message.append(text.as_str());
            Err(AppError::Config(message))
        },
        Ok(()) => Ok(path),
    }
}

fn value_after(raw: &Vec<String>, i: usize) -> (r: Option<String>)
    requires
        i < raw@.len(),
    ensures
        opt_text(r) == value_at(texts(raw@), i + 1),
{
    if raw.len() - i > 1 {
        Some(raw[i + 1].clone())
    } else {
        None
    }
}

fn read_now_ms(value: Option<String>) -> (r: Result<i64, AppError>)
    ensures
        match now_ms_spec(opt_text(value)) {
            Err(e) => r matches Err(x) && x@ == e,
            Ok(n) => r == Ok::<i64, AppError>(n),
        },
{
    let raw = match value {
        None => {
            return Err(AppError::Config(String::from_str("--now-ms requires a number")));
        },
        Some(v) => v,
    };
    match read_signed(raw.as_str(), i64::MIN, i64::MAX) {
        Err(_) => Err(AppError::Config(String::from_str("--now-ms must be an integer"))),
        Ok(n) => {
            if n < 0 {
                Err(AppError::Config(String::from_str("--now-ms must be non-negative")))
            } else {
                Ok(n)
            }
        },
    }
}

fn cli_apply(args: &mut Args, raw: &Vec<String>, i: usize) -> (r: Result<Option<bool>, AppError>)
    requires
        i < raw@.len(),
    ensures
        match cli_step(old(args)@, texts(raw@), i as int) {
            Err(e) => r matches Err(x) && x@ == e,
            Ok(None) => r == Ok::<Option<bool>, AppError>(None),
            Ok(Some((a, c))) => r == Ok::<Option<bool>, AppError>(Some(c)) && final(args)@ == a,
        },
{
    let ghost t = texts(raw@);
    let f = raw[i].as_str();
    assert(t[i as int] == f@);
    if str_eq(f, "-h") || str_eq(f, "--help") {
        return Ok(None);
    }
    if str_eq(f, "--input-file") {
        args.input_file = absolute_path_arg(value_after(raw, i), f)?;
        return Ok(Some(true));
    }
    if str_eq(f, "--policy-file") {
        args.policy_file = absolute_path_arg(value_after(raw, i), f)?;
        return Ok(Some(true));
    }
    if str_eq(f, "--universe-snapshot-file") {
        args.universe_snapshot_file = Some(absolute_path_arg(value_after(raw, i), f)?);
        return Ok(Some(true));
    }
    if str_eq(f, "--market-feature-delta-file") {
        args.market_feature_delta_file = Some(absolute_path_arg(value_after(raw, i), f)?);
        return Ok(Some(true));
    }
    if str_eq(f, "--market-regime-context-file") {
        args.market_regime_context_file = Some(absolute_path_arg(value_after(raw, i), f)?);
        return Ok(Some(true));
    }
    if str_eq(f, "--output-dir") {
        args.output_dir = Some(absolute_path_arg(value_after(raw, i), f)?);
        return Ok(Some(true));
    }
    if str_eq(f, "--now-ms") {
        args.now_ms = Some(read_now_ms(value_after(raw, i))?);
        return Ok(Some(true));
    }
    let mut msg = String::from_str("unknown argument: ");
    msg.append(f);
    msg.append("\n\n");
    msg.append(help_text());
    Err(AppError::Config(msg))
}

/// Reads the application's arguments. `-h` or `--help` gives `Ok(None)`;
/// path flags need unambiguous absolute paths; `--now-ms` needs a
/// non-negative integer; `--input-file` is required.
pub fn parse_args(values: Vec<String>) -> (r: Result<Option<Args>, AppError>)
    ensures
        match parse_args_spec(texts(values@)) {
            Err(e) => r matches Err(x) && x@ == e,
            Ok(None) => r matches Ok(None),
            Ok(Some(v)) => r matches Ok(Some(a)) && a@ == v,
        },
{
    let ghost raw = texts(values@);
    let mut args = Args {
        input_file: String::new(),
        policy_file: String::from_str(DEFAULT_POLICY_PATH),
        universe_snapshot_file: None,
        market_feature_delta_file: None,
        market_regime_context_file: None,
        output_dir: None,
        now_ms: None,
    };
    assert(args@ == initial_args());
    let mut i: usize = 0;
    while i < values.len()
        invariant
            raw == texts(values@),
            i <= values@.len() + 1,
            cli_fold(args@, raw, i as int) == cli_fold(initial_args(), raw, 0),
        decreases values@.len() + 2 - i,
    {
        match cli_apply(&mut args, &values, i) {
            Err(e) => {
                return Err(e);
            },
            Ok(None) => {
                return Ok(None);
            },
            Ok(Some(consumed)) => {
                if consumed {
                    i = i + 2;
                } else {
                    i = i + 1;
                }
            },
        }
    }
    if args.input_file.as_str().is_empty() {
        return Err(AppError::Config(String::from_str("--input-file is required")));
    }
    Ok(Some(args))
}

/// Every path of the arguments is the default policy file or an
/// unambiguous absolute path, and the clock override is not negative.
pub open spec fn cli_args_valid(a: ArgsView) -> bool {
    &&& (a.input_file.len() == 0 || is_unambiguous_absolute_path(a.input_file))
    &&& (a.policy_file == DEFAULT_POLICY_PATH@ || is_unambiguous_absolute_path(a.policy_file))
    &&& (a.universe_snapshot_file matches Some(p) ==> is_unambiguous_absolute_path(p))
    &&& (a.market_feature_delta_file matches Some(p) ==> is_unambiguous_absolute_path(p))
    &&& (a.market_regime_context_file matches Some(p) ==> is_unambiguous_absolute_path(p))
    &&& (a.output_dir matches Some(p) ==> is_unambiguous_absolute_path(p))
    &&& (a.now_ms matches Some(n) ==> n >= 0)
}

proof fn lemma_cli_fold_keeps_valid(a: ArgsView, raw: Seq<Seq<char>>, i: int)
    requires
        cli_args_valid(a),
    ensures
        cli_fold(a, raw, i) matches Ok(Some(b)) ==> cli_args_valid(b),
    decreases raw.len() + 2 - i,
{
    if 0 <= i < raw.len() {
        match value_at(raw, i + 1) {
            Some(v) => lemma_parse_signed_range(v, i64::MIN as int, i64::MAX as int),
            None => {},
        }
        match cli_step(a, raw, i) {
            Ok(Some((a2, consumed))) => {
                lemma_cli_fold_keeps_valid(
                    a2,
                    raw,
                    if consumed {
                        i + 2
                    } else {
                        i + 1
                    },
                );
            },
            _ => {},
        }
    }
}

/// Arguments the application accepts name a non-empty input file, and every
/// path they name is an unambiguous absolute path, but for the default
/// policy file when none is given; a clock override is never negative.
pub proof fn lemma_accepted_cli_args_are_valid(raw: Seq<Seq<char>>)
    ensures
        parse_args_spec(raw) matches Ok(Some(a)) ==> {
            &&& is_unambiguous_absolute_path(a.input_file)
            &&& cli_args_valid(a)
        },
{
    lemma_cli_fold_keeps_valid(initial_args(), raw, 0);
}

} // verus!
