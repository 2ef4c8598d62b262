//! The replay worker: rescoring durable inputs under given prefixes, with its
//! arguments, the keys of its report and result records, and its counters.
use crate::agent::args::has_help_flag;
use crate::error::{AppError, AppErrorView};
use crate::hash::{hex_lower, sha256_hex, sha256_spec};
use crate::policy::DEFAULT_POLICY_PATH;
use crate::live::run_id;
use crate::text::{
    lemma_parse_signed_range, lemma_parse_unsigned_range, copy_strings, decimal, push_decimal, push_zero_padded, signed_decimal, str_eq, string_push, texts,
    zero_padded,
};
use crate::time::{date_text, hour_of, time_part};
use crate::values::{
    next_value, next_value_spec, non_negative_i64_spec, parse_non_negative_i64,
    parse_positive_usize, positive_spec,
};
use crate::worker::{WorkerArgs, WorkerArgsView, worker_help, worker_help_text, worker_parse_spec};
use vstd::prelude::*;
use vstd::string::*;
use vstd::utf8::encode_utf8;

verus! {

pub const DEFAULT_MAX_KEYS: usize = 10_000;

pub const REPORT_SCHEMA_VERSION: &'static str = "intel_candidate_replay_report_v1";

pub const RESULT_SCHEMA_VERSION: &'static str = "intel_candidate_replay_result_v1";

pub const DEFAULT_REPORT_PREFIX: &'static str = "candidate-replay-report";

pub const DEFAULT_RESULT_PREFIX: &'static str = "candidate-replay-result";

#[derive(Debug, Clone, PartialEq, Eq)]
pub struct ReplayArgs {
    pub worker: WorkerArgs,
    pub input_prefixes: Vec<String>,
    pub max_keys_per_prefix: usize,
    pub created_at_ms: Option<i64>,
    pub report_prefix: String,
    pub result_prefix: String,
    pub fail_on_record_error: bool,
    pub write_artifacts: bool,
}

/// The replay settings, as values.
pub struct ReplaySettings {
    pub input_prefixes: Seq<Seq<char>>,
    pub max_keys_per_prefix: usize,
    pub created_at_ms: Option<i64>,
    pub report_prefix: Seq<char>,
    pub result_prefix: Seq<char>,
    pub fail_on_record_error: bool,
    pub write_artifacts: bool,
}

/// The mathematical value of [`ReplayArgs`].
pub struct ReplayArgsView {
    pub worker: WorkerArgsView,
    pub replay: ReplaySettings,
}

impl View for ReplayArgs {
    type V = ReplayArgsView;

    open spec fn view(&self) -> ReplayArgsView {
        ReplayArgsView {
            worker: self.worker@,
            replay: ReplaySettings {
                input_prefixes: texts(self.input_prefixes@),
                max_keys_per_prefix: self.max_keys_per_prefix,
                created_at_ms: self.created_at_ms,
                report_prefix: self.report_prefix@,
                result_prefix: self.result_prefix@,
                fail_on_record_error: self.fail_on_record_error,
                write_artifacts: self.write_artifacts,
            },
        }
    }
}

pub open spec fn default_replay_settings() -> ReplaySettings {
    ReplaySettings {
        input_prefixes: seq![],
        max_keys_per_prefix: DEFAULT_MAX_KEYS,
        created_at_ms: None,
        report_prefix: DEFAULT_REPORT_PREFIX@,
        result_prefix: DEFAULT_RESULT_PREFIX@,
        fail_on_record_error: true,
        write_artifacts: false,
    }
}

pub open spec fn forwarded(f: Option<Seq<char>>) -> Seq<Seq<char>> {
    match f {
        Some(a) => seq![a],
        None => seq![],
    }
}

/// The argument at index `i`: the new settings, whether the value after it
/// was consumed, and the argument handed on to the worker parser, if any.
pub open spec fn replay_step(s: ReplaySettings, raw: Seq<Seq<char>>, i: int) -> Result<
    (ReplaySettings, bool, Option<Seq<char>>),
    AppErrorView,
> {
    let a = raw[i];
    if a == "--replay-input-prefix"@ {
        match next_value_spec(raw, i + 1, a) {
            Err(e) => Err(e),
            Ok(v) => Ok(
                (ReplaySettings { input_prefixes: s.input_prefixes.push(v), ..s }, true, None),
            ),
        }
    } else if a == "--replay-max-keys-per-prefix"@ {
        match next_value_spec(raw, i + 1, a) {
            Err(e) => Err(e),
            Ok(v) => match positive_spec(v, usize::MAX as int) {
                Err(e) => Err(e),
                Ok(n) => Ok((ReplaySettings { max_keys_per_prefix: n as usize, ..s }, true, None)),
            },
        }
    } else if a == "--replay-created-at-ms"@ {
        match next_value_spec(raw, i + 1, a) {
            Err(e) => Err(e),
            Ok(v) => match non_negative_i64_spec(v) {
                Err(e) => Err(e),
                Ok(n) => Ok((ReplaySettings { created_at_ms: Some(n as i64), ..s }, true, None)),
            },
        }
    } else if a == "--replay-report-prefix"@ {
        match next_value_spec(raw, i + 1, a) {
            Err(e) => Err(e),
            Ok(v) => Ok((ReplaySettings { report_prefix: v, ..s }, true, None)),
        }
    } else if a == "--replay-result-prefix"@ {
        match next_value_spec(raw, i + 1, a) {
            Err(e) => Err(e),
            Ok(v) => Ok((ReplaySettings { result_prefix: v, ..s }, true, None)),
        }
    } else if a == "--replay-continue-on-record-error"@ {
        Ok((ReplaySettings { fail_on_record_error: false, ..s }, false, None))
    } else if a == "--replay-write-artifacts"@ {
        Ok((ReplaySettings { write_artifacts: true, ..s }, false, None))
    } else {
        Ok((s, false, Some(a)))
    }
}

/// Reads the arguments from index `i` on; `w` collects the worker arguments.
pub open spec fn replay_fold(
    s: ReplaySettings,
    raw: Seq<Seq<char>>,
    i: int,
    w: Seq<Seq<char>>,
) -> Result<(ReplaySettings, Seq<Seq<char>>), AppErrorView>
    decreases raw.len() + 2 - i,
{
    if i < 0 || i >= raw.len() {
        Ok((s, w))
    } else {
        match replay_step(s, raw, i) {
            Err(e) => Err(e),
            Ok((s2, consumed, f)) => replay_fold(
                s2,
                raw,
                if consumed {
                    i + 2
                } else {
                    i + 1
                },
                w + forwarded(f),
            ),
        }
    }
}

/// What [`parse_args`] gives for the arguments `raw`.
pub open spec fn replay_parse_spec(raw: Seq<Seq<char>>) -> Result<Option<ReplayArgsView>, AppErrorView> {
    if has_help_flag(raw) {
        Ok(None)
    } else {
        match replay_fold(default_replay_settings(), raw, 0, seq![]) {
            Err(e) => Err(e),
            Ok((s, w)) => if s.input_prefixes.len() == 0 {
                Err(AppErrorView::Config("--replay-input-prefix is required"@))
            } else {
                match worker_parse_spec(w) {
                    Err(e) => Err(e),
                    Ok(None) => Ok(None),
                    Ok(Some(wv)) => Ok(Some(ReplayArgsView { worker: wv, replay: s })),
                }
            },
        }
    }
}

/// The replay settings keep a positive key bound and a creation time that
/// is not negative.
pub open spec fn replay_settings_valid(s: ReplaySettings) -> bool {
    s.max_keys_per_prefix > 0 && (s.created_at_ms matches Some(n) ==> n >= 0)
}

proof fn lemma_replay_fold_keeps_valid(s: ReplaySettings, raw: Seq<Seq<char>>, i: int, w: Seq<Seq<char>>)
    requires
        replay_settings_valid(s),
    ensures
        replay_fold(s, raw, i, w) matches Ok((s2, _)) ==> replay_settings_valid(s2),
    decreases raw.len() + 2 - i,
{
    if 0 <= i < raw.len() {
        match next_value_spec(raw, i + 1, raw[i]) {
            Ok(v) => {
                lemma_parse_unsigned_range(v, usize::MAX as int);
                lemma_parse_signed_range(v, i64::MIN as int, i64::MAX as int);
            },
            Err(_) => {},
        }
        match replay_step(s, raw, i) {
            Err(_) => {},
            Ok((s2, consumed, f)) => {
                lemma_replay_fold_keeps_valid(
                    s2,
                    raw,
                    if consumed {
                        i + 2
                    } else {
                        i + 1
                    },
                    w + forwarded(f),
                );
            },
        }
    }
}

/// Arguments the replay worker accepts name at least one input prefix, a
/// positive number of keys per prefix, and a creation time that is not
/// negative when one is given.
pub proof fn lemma_accepted_replay_args_are_valid(raw: Seq<Seq<char>>)
    ensures
        replay_parse_spec(raw) matches Ok(Some(a)) ==> a.replay.input_prefixes.len() > 0
            && replay_settings_valid(a.replay),
{
    if !has_help_flag(raw) {
        lemma_replay_fold_keeps_valid(default_replay_settings(), raw, 0, seq![]);
    }
}

/// Reading the arguments of `raw` from `i` on, when it succeeds, ends at
/// the end of `raw`: the same reading of `raw` followed by more arguments
/// goes on from there with the same settings and worker arguments.
proof fn lemma_replay_fold_extend(
    s: ReplaySettings,
    raw: Seq<Seq<char>>,
    i: int,
    w: Seq<Seq<char>>,
    ext: Seq<Seq<char>>,
)
    requires
        0 <= i <= raw.len(),
    ensures
        match replay_fold(s, raw, i, w) {
            Ok((s2, w2)) => replay_fold(s, raw + ext, i, w) == replay_fold(
                s2,
                raw + ext,
                raw.len() as int,
                w2,
            ),
            Err(_) => true,
        },
    decreases raw.len() - i,
{
    if i < raw.len() {
        let all = raw + ext;
        assert(all[i] == raw[i]);
        if i + 1 < raw.len() {
            assert(all[i + 1] == raw[i + 1]);
        }
        match replay_step(s, raw, i) {
            Ok((s2, consumed, f)) => {
                assert(replay_step(s, all, i) == replay_step(s, raw, i));
                let j = if consumed {
                    i + 2
                } else {
                    i + 1
                };
                lemma_replay_fold_extend(s2, raw, j, w + forwarded(f), ext);
            },
            Err(_) => {},
        }
    }
}

/// A flag given last wins: appending `--replay-report-prefix v` to arguments
/// the replay worker accepts gives the same arguments with the report prefix
/// `v`, and appending `--replay-result-prefix v` the same with the result
/// prefix `v`.
pub proof fn lemma_replay_prefix_flags_take_the_value(raw: Seq<Seq<char>>, v: Seq<char>)
    requires
        v != "-h"@,
        v != "--help"@,
    ensures
        replay_parse_spec(raw) matches Ok(Some(a)) ==> replay_parse_spec(
            raw + seq!["--replay-report-prefix"@, v],
        ) == Ok::<Option<ReplayArgsView>, AppErrorView>(
            Some(
                ReplayArgsView {
                    worker: a.worker,
                    replay: ReplaySettings { report_prefix: v, ..a.replay },
                },
            ),
        ),
        replay_parse_spec(raw) matches Ok(Some(a)) ==> replay_parse_spec(
            raw + seq!["--replay-result-prefix"@, v],
        ) == Ok::<Option<ReplayArgsView>, AppErrorView>(
            Some(
                ReplayArgsView {
                    worker: a.worker,
                    replay: ReplaySettings { result_prefix: v, ..a.replay },
                },
            ),
        ),
{
    reveal_strlit("-h");
    reveal_strlit("--help");
    reveal_strlit("--replay-report-prefix");
    reveal_strlit("--replay-result-prefix");
    if replay_parse_spec(raw) matches Ok(Some(a)) {
        let d = default_replay_settings();
        lemma_replay_fold_extend(d, raw, 0, seq![], seq!["--replay-report-prefix"@, v]);
        lemma_replay_fold_extend(d, raw, 0, seq![], seq!["--replay-result-prefix"@, v]);
        let flags = seq!["--replay-report-prefix"@, "--replay-result-prefix"@];
        assert forall|k: int| 0 <= k < 2 implies !has_help_flag(raw + seq![#[trigger] flags[k], v]) by {
            let all = raw + seq![flags[k], v];
            if has_help_flag(all) {
                let j = choose|j: int| 0 <= j < all.len() && (#[trigger] all[j] == "-h"@ || all[j] == "--help"@);
                if j < raw.len() {
                    assert(all[j] == raw[j]);
                    assert(has_help_flag(raw));
                } else if j == raw.len() {
                    assert(all[j] == flags[k]);
                    assert(flags[k][2] != "-h"@[1]);
                    assert(flags[k].len() != "--help"@.len());
                } else {
                    assert(all[j] == v);
                }
            }
        }
        assert(flags[0] == "--replay-report-prefix"@);
        assert(flags[1] == "--replay-result-prefix"@);
        let all1 = raw + seq!["--replay-report-prefix"@, v];
        let all2 = raw + seq!["--replay-result-prefix"@, v];
        assert(all1[raw.len() as int] == "--replay-report-prefix"@);
        assert(all1[raw.len() as int + 1] == v);
        assert(all2[raw.len() as int] == "--replay-result-prefix"@);
        assert(all2[raw.len() as int + 1] == v);
        assert("--replay-result-prefix"@ != "--replay-input-prefix"@ && "--replay-result-prefix"@
            != "--replay-max-keys-per-prefix"@ && "--replay-result-prefix"@
            != "--replay-created-at-ms"@ && "--replay-result-prefix"@
            != "--replay-report-prefix"@) by {
            reveal_strlit("--replay-input-prefix");
            reveal_strlit("--replay-max-keys-per-prefix");
            reveal_strlit("--replay-created-at-ms");
            assert("--replay-result-prefix"@[9] != "--replay-input-prefix"@[9]);
            assert("--replay-result-prefix"@[9] != "--replay-max-keys-per-prefix"@[9]);
            assert("--replay-result-prefix"@[9] != "--replay-created-at-ms"@[9]);
            assert("--replay-result-prefix"@[11] != "--replay-report-prefix"@[11]);
        }
        assert("--replay-report-prefix"@ != "--replay-input-prefix"@ && "--replay-report-prefix"@
            != "--replay-max-keys-per-prefix"@ && "--replay-report-prefix"@
            != "--replay-created-at-ms"@) by {
            reveal_strlit("--replay-input-prefix");
            reveal_strlit("--replay-max-keys-per-prefix");
            reveal_strlit("--replay-created-at-ms");
            assert("--replay-report-prefix"@[9] != "--replay-input-prefix"@[9]);
            assert("--replay-report-prefix"@[9] != "--replay-max-keys-per-prefix"@[9]);
            assert("--replay-report-prefix"@[9] != "--replay-created-at-ms"@[9]);
        }
        if let Ok((s2, w2)) = replay_fold(d, raw, 0, seq![]) {
            let n = raw.len() as int;
            assert(w2 + forwarded(None) =~= w2);
            assert(all1.len() == n + 2 && all2.len() == n + 2);
            assert(next_value_spec(all1, n + 1, all1[n]) == Ok::<Seq<char>, AppErrorView>(v));
            assert(next_value_spec(all2, n + 1, all2[n]) == Ok::<Seq<char>, AppErrorView>(v));
            assert(all1[n] != "--replay-input-prefix"@);
            assert(all1[n] != "--replay-max-keys-per-prefix"@);
            assert(all1[n] != "--replay-created-at-ms"@);
            assert(all1[n] == "--replay-report-prefix"@);
            assert(replay_step(s2, all1, n) == Ok::<
                (ReplaySettings, bool, Option<Seq<char>>),
                AppErrorView,
            >((ReplaySettings { report_prefix: v, ..s2 }, true, None)));
            assert(replay_step(s2, all2, n) == Ok::<
                (ReplaySettings, bool, Option<Seq<char>>),
                AppErrorView,
            >((ReplaySettings { result_prefix: v, ..s2 }, true, None)));
            assert(replay_fold(ReplaySettings { report_prefix: v, ..s2 }, all1, n + 2, w2) == Ok::<
                (ReplaySettings, Seq<Seq<char>>),
                AppErrorView,
            >((ReplaySettings { report_prefix: v, ..s2 }, w2)));
            assert(replay_fold(s2, all1, n, w2) == Ok::<
                (ReplaySettings, Seq<Seq<char>>),
                AppErrorView,
            >((ReplaySettings { report_prefix: v, ..s2 }, w2)));
            assert(replay_fold(ReplaySettings { result_prefix: v, ..s2 }, all2, n + 2, w2) == Ok::<
                (ReplaySettings, Seq<Seq<char>>),
                AppErrorView,
            >((ReplaySettings { result_prefix: v, ..s2 }, w2)));
            assert(replay_fold(s2, all2, n, w2) == Ok::<
                (ReplaySettings, Seq<Seq<char>>),
                AppErrorView,
            >((ReplaySettings { result_prefix: v, ..s2 }, w2)));
        }
    }
}

/// More flags given last: appending `--replay-input-prefix v` adds `v` to
/// the end of the input prefixes; appending `--replay-continue-on-record-error`
/// lets the run succeed despite failed records; appending
/// `--replay-write-artifacts` makes it write artifacts. Nothing else changes.
pub proof fn lemma_replay_flags_given_last(raw: Seq<Seq<char>>, v: Seq<char>)
    requires
        v != "-h"@,
        v != "--help"@,
    ensures
        replay_parse_spec(raw) matches Ok(Some(a)) ==> replay_parse_spec(
            raw + seq!["--replay-input-prefix"@, v],
        ) == Ok::<Option<ReplayArgsView>, AppErrorView>(
            Some(
                ReplayArgsView {
                    worker: a.worker,
                    replay: ReplaySettings {
                        input_prefixes: a.replay.input_prefixes.push(v),
                        ..a.replay
                    },
                },
            ),
        ),
        replay_parse_spec(raw) matches Ok(Some(a)) ==> replay_parse_spec(
            raw + seq!["--replay-continue-on-record-error"@],
        ) == Ok::<Option<ReplayArgsView>, AppErrorView>(
            Some(
                ReplayArgsView {
                    worker: a.worker,
                    replay: ReplaySettings { fail_on_record_error: false, ..a.replay },
                },
            ),
        ),
        replay_parse_spec(raw) matches Ok(Some(a)) ==> replay_parse_spec(
            raw + seq!["--replay-write-artifacts"@],
        ) == Ok::<Option<ReplayArgsView>, AppErrorView>(
            Some(
                ReplayArgsView {
                    worker: a.worker,
                    replay: ReplaySettings { write_artifacts: true, ..a.replay },
                },
            ),
        ),
{
    reveal_strlit("-h");
    reveal_strlit("--help");
    reveal_strlit("--replay-input-prefix");
    reveal_strlit("--replay-max-keys-per-prefix");
    reveal_strlit("--replay-created-at-ms");
    reveal_strlit("--replay-report-prefix");
    reveal_strlit("--replay-result-prefix");
    reveal_strlit("--replay-continue-on-record-error");
    reveal_strlit("--replay-write-artifacts");
    let fi = "--replay-input-prefix"@;
    let fc = "--replay-continue-on-record-error"@;
    let fw = "--replay-write-artifacts"@;
    assert(fc[9] != "--replay-input-prefix"@[9] && fc[9] != "--replay-max-keys-per-prefix"@[9]
        && fc[10] != "--replay-created-at-ms"@[10] && fc[9] != "--replay-report-prefix"@[9]
        && fc[9] != "--replay-result-prefix"@[9]);
    assert(fw[9] != "--replay-input-prefix"@[9] && fw[9] != "--replay-max-keys-per-prefix"@[9]
        && fw[9] != "--replay-created-at-ms"@[9] && fw[9] != "--replay-report-prefix"@[9]
        && fw[9] != "--replay-result-prefix"@[9] && fw[9] != fc[9]);
    if replay_parse_spec(raw) matches Ok(Some(a)) {
        let d = default_replay_settings();
        let all1 = raw + seq![fi, v];
        let all2 = raw + seq![fc];
        let all3 = raw + seq![fw];
        lemma_replay_fold_extend(d, raw, 0, seq![], seq![fi, v]);
        lemma_replay_fold_extend(d, raw, 0, seq![], seq![fc]);
        lemma_replay_fold_extend(d, raw, 0, seq![], seq![fw]);
        let n = raw.len() as int;
        assert(!has_help_flag(all1)) by {
            if has_help_flag(all1) {
                let j = choose|j: int|
                    0 <= j < all1.len() && (#[trigger] all1[j] == "-h"@ || all1[j] == "--help"@);
                if j < n {
                    assert(all1[j] == raw[j]);
                    assert(has_help_flag(raw));
                } else if j == n {
                    assert(fi.len() != "-h"@.len() && fi.len() != "--help"@.len());
                }
            }
        }
        assert(!has_help_flag(all2)) by {
            if has_help_flag(all2) {
                let j = choose|j: int|
                    0 <= j < all2.len() && (#[trigger] all2[j] == "-h"@ || all2[j] == "--help"@);
                if j < n {
                    assert(all2[j] == raw[j]);
                    assert(has_help_flag(raw));
                } else {
                    assert(fc.len() != "-h"@.len() && fc.len() != "--help"@.len());
                }
            }
        }
        assert(!has_help_flag(all3)) by {
            if has_help_flag(all3) {
                let j = choose|j: int|
                    0 <= j < all3.len() && (#[trigger] all3[j] == "-h"@ || all3[j] == "--help"@);
                if j < n {
                    assert(all3[j] == raw[j]);
                    assert(has_help_flag(raw));
                } else {
                    assert(fw.len() != "-h"@.len() && fw.len() != "--help"@.len());
                }
            }
        }
        if let Ok((s2, w2)) = replay_fold(d, raw, 0, seq![]) {
            assert(w2 + forwarded(None) =~= w2);
            assert(all1[n] == fi && all1[n + 1] == v && all1.len() == n + 2);
            assert(all2[n] == fc && all2.len() == n + 1);
            assert(all3[n] == fw && all3.len() == n + 1);
            let s_in = ReplaySettings { input_prefixes: s2.input_prefixes.push(v), ..s2 };
            let s_co = ReplaySettings { fail_on_record_error: false, ..s2 };
            let s_wa = ReplaySettings { write_artifacts: true, ..s2 };
            assert(next_value_spec(all1, n + 1, fi) == Ok::<Seq<char>, AppErrorView>(v));
            assert(replay_step(s2, all1, n) == Ok::<
                (ReplaySettings, bool, Option<Seq<char>>),
                AppErrorView,
            >((s_in, true, None)));
            assert(replay_step(s2, all2, n) == Ok::<
                (ReplaySettings, bool, Option<Seq<char>>),
                AppErrorView,
            >((s_co, false, None)));
            assert(replay_step(s2, all3, n) == Ok::<
                (ReplaySettings, bool, Option<Seq<char>>),
                AppErrorView,
            >((s_wa, false, None)));
            assert(replay_fold(s_in, all1, n + 2, w2) == Ok::<
                (ReplaySettings, Seq<Seq<char>>),
                AppErrorView,
            >((s_in, w2)));
            assert(replay_fold(s2, all1, n, w2) == Ok::<
                (ReplaySettings, Seq<Seq<char>>),
                AppErrorView,
            >((s_in, w2)));
            assert(replay_fold(s_co, all2, n + 1, w2) == Ok::<
                (ReplaySettings, Seq<Seq<char>>),
                AppErrorView,
            >((s_co, w2)));
            assert(replay_fold(s2, all2, n, w2) == Ok::<
                (ReplaySettings, Seq<Seq<char>>),
                AppErrorView,
            >((s_co, w2)));
            assert(replay_fold(s_wa, all3, n + 1, w2) == Ok::<
                (ReplaySettings, Seq<Seq<char>>),
                AppErrorView,
            >((s_wa, w2)));
            assert(replay_fold(s2, all3, n, w2) == Ok::<
                (ReplaySettings, Seq<Seq<char>>),
                AppErrorView,
            >((s_wa, w2)));
        }
    }
}

/// One more step at the end of accepted replay arguments that reads `ext`
/// whole into `s_new`, keeps the input prefixes and forwards nothing gives
/// accepted arguments with `s_new`.
proof fn lemma_replay_append_step(
    raw: Seq<Seq<char>>,
    ext: Seq<Seq<char>>,
    v: Seq<char>,
    s_new: ReplaySettings,
    consumed: bool,
)
    requires
        replay_parse_spec(raw) is Ok,
        replay_parse_spec(raw)->Ok_0 is Some,
        v != "-h"@,
        v != "--help"@,
        ext.len() == if consumed {
            2int
        } else {
            1int
        },
        ext[0].len() > 2,
        ext[0][2] != 'h',
        ext.len() == 2 ==> ext[1] == v,
        replay_step(replay_parse_spec(raw)->Ok_0->Some_0.replay, raw + ext, raw.len() as int)
            == Ok::<(ReplaySettings, bool, Option<Seq<char>>), AppErrorView>((s_new, consumed, None)),
        s_new.input_prefixes == replay_parse_spec(raw)->Ok_0->Some_0.replay.input_prefixes,
    ensures
        replay_parse_spec(raw + ext) == Ok::<Option<ReplayArgsView>, AppErrorView>(
            Some(ReplayArgsView { worker: replay_parse_spec(raw)->Ok_0->Some_0.worker, replay: s_new }),
        ),
{
    reveal_strlit("-h");
    reveal_strlit("--help");
    let d = default_replay_settings();
    lemma_replay_fold_extend(d, raw, 0, seq![], ext);
    let w2 = replay_fold(d, raw, 0, seq![])->Ok_0.1;
    let n = raw.len() as int;
    assert(w2 + forwarded(None) =~= w2);
    let j = if consumed {
        n + 2
    } else {
        n + 1
    };
    assert((raw + ext).len() == j);
    assert(replay_fold(s_new, raw + ext, j, w2) == Ok::<
        (ReplaySettings, Seq<Seq<char>>),
        AppErrorView,
    >((s_new, w2)));
    let all = raw + ext;
    if has_help_flag(all) {
        let k = choose|k: int| 0 <= k < all.len() && (#[trigger] all[k] == "-h"@ || all[k] == "--help"@);
        if k < n {
            assert(all[k] == raw[k]);
            assert(has_help_flag(raw));
        } else if k == n {
            assert(all[k] == ext[0]);
            assert("--help"@[2] == 'h');
        } else {
            assert(all[k] == v);
        }
    }
}

/// A key bound or a creation time given last wins: appending
/// `--replay-max-keys-per-prefix v` to accepted arguments sets the bound to
/// the positive number `v` reads as, and `--replay-created-at-ms v` sets the
/// creation time to the non-negative number it reads as.
pub proof fn lemma_replay_numbers_given_last(raw: Seq<Seq<char>>, v: Seq<char>)
    requires
        v != "-h"@,
        v != "--help"@,
    ensures
        replay_parse_spec(raw) matches Ok(Some(a)) ==> (positive_spec(v, usize::MAX as int) matches Ok(k)
            ==> replay_parse_spec(raw + seq!["--replay-max-keys-per-prefix"@, v]) == Ok::<
            Option<ReplayArgsView>,
            AppErrorView,
        >(
            Some(
                ReplayArgsView {
                    worker: a.worker,
                    replay: ReplaySettings { max_keys_per_prefix: k as usize, ..a.replay },
                },
            ),
        )),
        replay_parse_spec(raw) matches Ok(Some(a)) ==> (non_negative_i64_spec(v) matches Ok(k)
            ==> replay_parse_spec(raw + seq!["--replay-created-at-ms"@, v]) == Ok::<
            Option<ReplayArgsView>,
            AppErrorView,
        >(
            Some(
                ReplayArgsView {
                    worker: a.worker,
                    replay: ReplaySettings { created_at_ms: Some(k as i64), ..a.replay },
                },
            ),
        )),
{
    reveal_strlit("--replay-input-prefix");
    reveal_strlit("--replay-max-keys-per-prefix");
    reveal_strlit("--replay-created-at-ms");
    let fm = "--replay-max-keys-per-prefix"@;
    let fc = "--replay-created-at-ms"@;
    assert(fm[9] != "--replay-input-prefix"@[9]);
    assert(fc[9] != "--replay-input-prefix"@[9] && fc[9] != fm[9]);
    if let Ok(Some(a)) = replay_parse_spec(raw) {
        let n = raw.len() as int;
        if let Ok(k) = positive_spec(v, usize::MAX as int) {
            let ext = seq![fm, v];
            assert(ext[0] == fm && (raw + ext)[n] == fm && (raw + ext)[n + 1] == v);
            lemma_replay_append_step(
                raw,
                ext,
                v,
                ReplaySettings { max_keys_per_prefix: k as usize, ..a.replay },
                true,
            );
        }
        if let Ok(k) = non_negative_i64_spec(v) {
            let ext = seq![fc, v];
            assert(ext[0] == fc && (raw + ext)[n] == fc && (raw + ext)[n + 1] == v);
            lemma_replay_append_step(
                raw,
                ext,
                v,
                ReplaySettings { created_at_ms: Some(k as i64), ..a.replay },
                true,
            );
        }
    }
}

struct ReplayBuilder {
    input_prefixes: Vec<String>,
    max_keys_per_prefix: usize,
    created_at_ms: Option<i64>,
    report_prefix: String,
    result_prefix: String,
    fail_on_record_error: bool,
    write_artifacts: bool,
}

impl ReplayBuilder {
    spec fn settings(&self) -> ReplaySettings {
        ReplaySettings {
            input_prefixes: texts(self.input_prefixes@),
            max_keys_per_prefix: self.max_keys_per_prefix,
            created_at_ms: self.created_at_ms,
            report_prefix: self.report_prefix@,
            result_prefix: self.result_prefix@,
            fail_on_record_error: self.fail_on_record_error,
            write_artifacts: self.write_artifacts,
        }
    }

    fn apply_arg(&mut self, raw: &[String], i: usize, worker_args: &mut Vec<String>) -> (r: Result<
        bool,
        AppError,
    >)
        requires
            i < raw@.len(),
        ensures
            match replay_step(old(self).settings(), texts(raw@), i as int) {
                Err(e) => r matches Err(x) && x@ == e,
                Ok((s, consumed, f)) => {
                    &&& r == Ok::<bool, AppError>(consumed)
                    &&& final(self).settings() == s
                    &&& texts(final(worker_args)@) == texts(old(worker_args)@) + forwarded(f)
                },
            },
    {
        let ghost t = texts(raw@);
        let a = raw[i].as_str();
        assert(t[i as int] == a@);
        if str_eq(a, "--replay-input-prefix") {
            let v = next_value(raw, i + 1, a)?;
            self.input_prefixes.push(v);
            assert(texts(self.input_prefixes@) =~= old(self).settings().input_prefixes.push(v@));
            Ok(true)
        } else if str_eq(a, "--replay-max-keys-per-prefix") {
            let v = next_value(raw, i + 1, a)?;
            self.max_keys_per_prefix = parse_positive_usize(v.as_str())?;
            Ok(true)
        } else if str_eq(a, "--replay-created-at-ms") {
            let v = next_value(raw, i + 1, a)?;
            self.created_at_ms = Some(parse_non_negative_i64(v.as_str())?);
            Ok(true)
        } else if str_eq(a, "--replay-report-prefix") {
            self.report_prefix = next_value(raw, i + 1, a)?;
            Ok(true)
        } else if str_eq(a, "--replay-result-prefix") {
            self.result_prefix = next_value(raw, i + 1, a)?;
            Ok(true)
        } else if str_eq(a, "--replay-continue-on-record-error") {
            self.fail_on_record_error = false;
            Ok(false)
        } else if str_eq(a, "--replay-write-artifacts") {
            self.write_artifacts = true;
            Ok(false)
        } else {
            worker_args.push(raw[i].clone());
            assert(texts(worker_args@) =~= texts(old(worker_args)@) + seq![a@]);
            Ok(false)
        }
    }
}

fn has_help(raw: &Vec<String>) -> (r: bool)
    ensures
        r == has_help_flag(texts(raw@)),
{
    let ghost t = texts(raw@);
    let mut i: usize = 0;
    while i < raw.len()
        invariant
            t == texts(raw@),
            i <= raw@.len(),
            forall|j: int| 0 <= j < i ==> !(#[trigger] t[j] == "-h"@ || t[j] == "--help"@),
        decreases raw@.len() - i,
    {
        assert(t[i as int] == raw@[i as int]@);
        if str_eq(raw[i].as_str(), "-h") || str_eq(raw[i].as_str(), "--help") {
            return true;
        }
        i = i + 1;
    }
    false
}

/// Reads the replay worker's arguments. `-h` or `--help` anywhere gives
/// `Ok(None)`; replay flags are read here and every other argument goes to
/// [`WorkerArgs::parse`]; at least one `--replay-input-prefix` is required.
pub fn parse_args(values: Vec<String>) -> (r: Result<Option<ReplayArgs>, AppError>)
    ensures
        match replay_parse_spec(texts(values@)) {
            Err(e) => r matches Err(x) && x@ == e,
            Ok(None) => r matches Ok(None),
            Ok(Some(v)) => r matches Ok(Some(a)) && a@ == v,
        },
{
    let ghost raw = texts(values@);
    if has_help(&values) {
        return Ok(None);
    }
    let mut b = ReplayBuilder {
        input_prefixes: Vec::new(),
        max_keys_per_prefix: DEFAULT_MAX_KEYS,
        created_at_ms: None,
        report_prefix: String::from_str(DEFAULT_REPORT_PREFIX),
        result_prefix: String::from_str(DEFAULT_RESULT_PREFIX),
        fail_on_record_error: true,
        write_artifacts: false,
    };
    let mut worker_args: Vec<String> = Vec::new();
    assert(texts(worker_args@) =~= seq![]);
    assert(b.settings().input_prefixes =~= seq![]);
    let mut index: usize = 0;
    while index < values.len()
        invariant
            raw == texts(values@),
            !has_help_flag(raw),
            index <= values@.len() + 1,
            replay_fold(b.settings(), raw, index as int, texts(worker_args@)) == replay_fold(
                default_replay_settings(),
                raw,
                0,
                seq![],
            ),
        decreases values@.len() + 2 - index,
    {
        let ghost before = b.settings();
        let ghost at = index as int;
        match b.apply_arg(values.as_slice(), index, &mut worker_args) {
            Err(e) => {
                assert(replay_step(before, raw, at) is Err);
                return Err(e);
            },
            Ok(consumed) => {
                if consumed {
                    index = index + 2;
                } else {
                    index = index + 1;
                }
            },
        }
    }
    if b.input_prefixes.len() == 0 {
        return Err(AppError::Config(String::from_str("--replay-input-prefix is required")));
    }
    let worker = match WorkerArgs::parse(worker_args) {
        Err(e) => {
            return Err(e);
        },
        Ok(None) => {
            return Ok(None);
        },
        Ok(Some(w)) => w,
    };
    Ok(
        Some(
            ReplayArgs {
                worker,
                input_prefixes: b.input_prefixes,
                max_keys_per_prefix: b.max_keys_per_prefix,
                created_at_ms: b.created_at_ms,
                report_prefix: b.report_prefix,
                result_prefix: b.result_prefix,
                fail_on_record_error: b.fail_on_record_error,
                write_artifacts: b.write_artifacts,
            },
        ),
    )
}

pub const REPLAY_HELP_USAGE: &'static str = "intel-candidate-replay-worker
Usage:
  intel-candidate-replay-worker \\
    --nats-url nats://REPLACE_WITH_S2S_NATS_HOST:4222 \\
    --input-s3-bucket nangman-crypto-dev-intel-structuring-l1-<account-suffix> \\
    --output-s3-bucket nangman-crypto-dev-intel-candidate-<account-suffix> \\
    --market-l1-s3-bucket nangman-crypto-dev-market-ingest-l1-<account-suffix> \\
    --policy-file ";

pub const REPLAY_HELP_FLAGS: &'static str = " \\
    --replay-input-prefix structured-intel-packet/schema=structured_intel_packet_v1/

Replay-specific flags:
  --replay-input-prefix <s3-prefix>          Repeatable. Scans durable S3 inputs, not NATS retention.
  --replay-max-keys-per-prefix <positive>   Default: ";

pub const REPLAY_HELP_TAIL: &'static str = "
  --replay-created-at-ms <timestamp-ms>      Optional deterministic report/output time.
  --replay-report-prefix <s3-prefix>         Default: candidate-replay-report
  --replay-result-prefix <s3-prefix>         Default: candidate-replay-result
  --replay-write-artifacts                   Also writes screening/evidence/hypothesis artifacts for research handoff.
  --replay-continue-on-record-error          Write the report and exit 0 even when individual keys fail.

Worker flags:
";

/// The replay worker's usage text.
pub open spec fn replay_help_text() -> Seq<char> {
    REPLAY_HELP_USAGE@ + DEFAULT_POLICY_PATH@ + REPLAY_HELP_FLAGS@ + decimal(DEFAULT_MAX_KEYS as nat)
        + REPLAY_HELP_TAIL@ + worker_help_text() + "\n"@
}

/// The replay worker's usage text.
pub fn replay_help() -> (r: String)
    ensures
        r@ == replay_help_text(),
{
    let mut r = String::from_str(REPLAY_HELP_USAGE);
    r.append(DEFAULT_POLICY_PATH);
    r.append(REPLAY_HELP_FLAGS);
    push_decimal(&mut r, DEFAULT_MAX_KEYS as u64);
    r.append(REPLAY_HELP_TAIL);
    let w = worker_help();
    r.append(w.as_str());
    r.append("\n");
    r
}

// ----- keys of the replay records ------------------------------------------

/// `s` without its leading `/` characters.
pub open spec fn trim_leading_slashes(s: Seq<char>) -> Seq<char>
    decreases s.len(),
{
    if s.len() > 0 && s[0] == '/' {
        trim_leading_slashes(s.drop_first())
    } else {
        s
    }
}

/// `s` without its trailing `/` characters.
pub open spec fn trim_trailing_slashes(s: Seq<char>) -> Seq<char>
    decreases s.len(),
{
    if s.len() > 0 && s.last() == '/' {
        trim_trailing_slashes(s.drop_last())
    } else {
        s
    }
}

/// `s` without leading and trailing `/` (`str::trim_matches('/')`).
pub open spec fn trim_slashes(s: Seq<char>) -> Seq<char> {
    trim_trailing_slashes(trim_leading_slashes(s))
}

pub open spec fn is_segment_char(c: char) -> bool {
    ('a' <= c && c <= 'z') || ('A' <= c && c <= 'Z') || ('0' <= c && c <= '9') || c == '-' || c
        == '_'
}

/// `s` made safe as one key segment: every character other than an ASCII
/// letter, digit, `-` or `_` becomes `_`.
pub open spec fn path_segment_text(s: Seq<char>) -> Seq<char> {
    s.map_values(|c: char| if is_segment_char(c) { c } else { '_' })
}

/// A run id made safe is one key segment: as long as the id, and without
/// `/`, `.` or any character that would need escaping.
pub proof fn lemma_path_segment_is_one_segment(s: Seq<char>)
    ensures
        path_segment_text(s).len() == s.len(),
        forall|i: int|
            0 <= i < s.len() ==> is_segment_char(#[trigger] path_segment_text(s)[i]),
        !path_segment_text(s).contains('/'),
        !path_segment_text(s).contains('.'),
{
    let t = path_segment_text(s);
    assert forall|i: int| 0 <= i < s.len() implies is_segment_char(#[trigger] t[i]) by {}
    if t.contains('/') {
        let i = choose|i: int| 0 <= i < t.len() && t[i] == '/';
        assert(is_segment_char(t[i]));
    }
    if t.contains('.') {
        let i = choose|i: int| 0 <= i < t.len() && t[i] == '.';
        assert(is_segment_char(t[i]));
    }
}

fn trim_slashes_of(s: &str) -> (r: String)
    ensures
        r@ == trim_slashes(s@),
{
    let n = s.unicode_len();
    let mut start: usize = 0;
    assert(s@.skip(0) =~= s@);
    while start < n && s.get_char(start) == '/'
        invariant
            n == s@.len(),
            start <= n,
            trim_leading_slashes(s@.skip(start as int)) == trim_leading_slashes(s@),
        decreases n - start,
    {
        assert(s@.skip(start as int).drop_first() =~= s@.skip(start + 1));
        start = start + 1;
    }
    let ghost lead = s@.skip(start as int);
    assert(trim_leading_slashes(lead) == lead);
    let mut end: usize = n;
    assert(lead.take(end - start) =~= lead);
    while end > start && s.get_char(end - 1) == '/'
        invariant
            n == s@.len(),
            start <= end <= n,
            lead == s@.skip(start as int),
            trim_trailing_slashes(lead.take(end - start)) == trim_trailing_slashes(lead),
        decreases end,
    {
        assert(lead.take(end - start).drop_last() =~= lead.take(end - 1 - start));
        end = end - 1;
    }
    let r = s.substring_char(start, end);
    assert(r@ =~= lead.take(end - start));
    String::from_str(r)
}

/// A path segment made of `s`: letters, digits, `-` and `_` are kept and
/// every other character becomes `_`.
pub fn path_segment(s: &str) -> (r: String)
    ensures
        r@ == path_segment_text(s@),
{
    let n = s.unicode_len();
    let mut r = String::new();
    let mut i: usize = 0;
    while i < n
        invariant
            n == s@.len(),
            i <= n,
            r@ == path_segment_text(s@.take(i as int)),
        decreases n - i,
    {
        let c = s.get_char(i);
        let keep = ('a' <= c && c <= 'z') || ('A' <= c && c <= 'Z') || ('0' <= c && c <= '9') || c
            == '-' || c == '_';
        if keep {
            string_push(&mut r, c);
        } else {
            string_push(&mut r, '_');
        }
        assert(r@ =~= path_segment_text(s@.take(i + 1)));
        i = i + 1;
    }
    assert(s@.take(n as int) =~= s@);
    r
}

/// The common part of the replay record keys.
pub open spec fn replay_key_head(prefix: Seq<char>, schema: Seq<char>, created_at_ms: int, replay_run_id: Seq<char>) -> Seq<char> {
    trim_slashes(prefix) + "/schema="@ + schema + "/dt="@ + date_text(created_at_ms) + "/hour="@
        + zero_padded(decimal(hour_of(created_at_ms) as nat), 2) + "/replay_run_id="@
        + path_segment_text(replay_run_id)
}

/// The key of a replay run's report.
pub open spec fn replay_report_key_spec(prefix: Seq<char>, created_at_ms: int, replay_run_id: Seq<char>) -> Seq<char> {
    replay_key_head(prefix, REPORT_SCHEMA_VERSION@, created_at_ms, replay_run_id) + "/report.json"@
}

/// The key of the result record of one input key.
pub open spec fn replay_result_key_spec(
    prefix: Seq<char>,
    created_at_ms: int,
    replay_run_id: Seq<char>,
    input_key: Seq<char>,
) -> Seq<char> {
    replay_key_head(prefix, RESULT_SCHEMA_VERSION@, created_at_ms, replay_run_id)
        + "/input_key_sha256="@ + hex_lower(sha256_spec(encode_utf8(input_key))) + "/result.json"@
}

fn replay_key_head_of(prefix: &str, schema: &str, created_at_ms: i64, replay_run_id: &str) -> (r: String)
    ensures
        r@ == replay_key_head(prefix@, schema@, created_at_ms as int, replay_run_id@),
{
    let part = time_part(created_at_ms);
    let mut r = trim_slashes_of(prefix);
    r.append("/schema=");
    r.append(schema);
    r.append("/dt=");
    r.append(part.event_date.as_str());
    r.append("/hour=");
    push_zero_padded(&mut r, part.hour as u64, 2);
    r.append("/replay_run_id=");
    let seg = path_segment(replay_run_id);
    r.append(seg.as_str());
    r
}

/// The key of a replay run's report: the prefix (without surrounding `/`),
/// the report schema, the date and hour partitions of `created_at_ms`, and
/// the run id made safe as a segment.
pub fn replay_report_key(prefix: &str, created_at_ms: i64, replay_run_id: &str) -> (r: String)
    ensures
        r@ == replay_report_key_spec(prefix@, created_at_ms as int, replay_run_id@),
{
    let mut r = replay_key_head_of(prefix, REPORT_SCHEMA_VERSION, created_at_ms, replay_run_id);
    r.append("/report.json");
    r
}

/// The key of the result record of `input_key`: as the report key, with the
/// result schema and a partition named by the SHA-256 of the input key.
pub fn replay_result_key(prefix: &str, created_at_ms: i64, replay_run_id: &str, input_key: &str) -> (r: String)
    ensures
        r@ == replay_result_key_spec(prefix@, created_at_ms as int, replay_run_id@, input_key@),
{
    let mut r = replay_key_head_of(prefix, RESULT_SCHEMA_VERSION, created_at_ms, replay_run_id);
    r.append("/input_key_sha256=");
    let digest = sha256_hex(input_key.as_bytes());
    r.append(digest.as_str());
    r.append("/result.json");
    r
}

// ----- counters ------------------------------------------------------------

/// What a replay run created.
#[derive(Debug, Clone, Copy, PartialEq, Eq)]
pub struct ReplayCounters {
    pub keys_processed: usize,
    pub result_records_created: usize,
    pub evidence_bundles_created: usize,
    pub hypothesis_states_created: usize,
    pub screening_events_created: usize,
}

impl Default for ReplayCounters {
    /// Nothing counted yet.
    fn default() -> (r: ReplayCounters)
        ensures
            r == (ReplayCounters {
                keys_processed: 0,
                result_records_created: 0,
                evidence_bundles_created: 0,
                hypothesis_states_created: 0,
                screening_events_created: 0,
            }),
    {
        ReplayCounters {
            keys_processed: 0,
            result_records_created: 0,
            evidence_bundles_created: 0,
            hypothesis_states_created: 0,
            screening_events_created: 0,
        }
    }
}

impl ReplayCounters {
    /// Counts one processed key: one result record and one screening event,
    /// plus an evidence bundle and a hypothesis state when the result has them.
    pub fn record_success(&mut self, has_evidence_bundle: bool, has_hypothesis_state: bool)
        requires
            old(self).keys_processed < usize::MAX,
            old(self).result_records_created < usize::MAX,
            old(self).screening_events_created < usize::MAX,
            old(self).evidence_bundles_created < usize::MAX,
            old(self).hypothesis_states_created < usize::MAX,
        ensures
            final(self).keys_processed == old(self).keys_processed + 1,
            final(self).result_records_created == old(self).result_records_created + 1,
            final(self).screening_events_created == old(self).screening_events_created + 1,
            final(self).evidence_bundles_created == old(self).evidence_bundles_created + if has_evidence_bundle {
                1int
            } else {
                0int
            },
            final(self).hypothesis_states_created == old(self).hypothesis_states_created + if has_hypothesis_state {
                1int
            } else {
                0int
            },
    {
        self.keys_processed = self.keys_processed + 1;
        self.result_records_created = self.result_records_created + 1;
        self.screening_events_created = self.screening_events_created + 1;
        if has_evidence_bundle {
            self.evidence_bundles_created = self.evidence_bundles_created + 1;
        }
        if has_hypothesis_state {
            self.hypothesis_states_created = self.hypothesis_states_created + 1;
        }
    }
}


// ----- the run and its report --------------------------------------------

pub const PRODUCER_APP: &'static str = "intel-candidate-app";

pub const REPLAY_RUN_NAME: &'static str = "intel-candidate-replay";

/// The id of a replay run created at `created_at_ms`.
pub fn replay_run_id(created_at_ms: i64) -> (r: String)
    ensures
        r@ == REPLAY_RUN_NAME@ + "-"@ + signed_decimal(created_at_ms as int),
{
    run_id(REPLAY_RUN_NAME, created_at_ms)
}

/// One input key that could not be replayed, with the error's message.
#[derive(Debug, Clone, PartialEq, Eq)]
pub struct ReplayFailure {
    pub input_key: String,
    pub error: String,
}

/// How replaying one key ended.
#[derive(Debug, Clone, PartialEq, Eq)]
pub enum ReplayKeyOutcome {
    /// The key was rescored and its result record stored.
    Replayed { has_evidence_bundle: bool, has_hypothesis_state: bool },
    /// Replaying the key failed with this message.
    Failed { error: String },
}

/// What a replay run counted so far: the keys it went through, the counts
/// of those replayed, and the keys that failed.
#[derive(Debug, Clone, PartialEq, Eq)]
pub struct ReplayTally {
    pub keys_seen: usize,
    pub counters: ReplayCounters,
    pub failed_keys: Vec<ReplayFailure>,
}

impl ReplayTally {
    /// Every key seen was either replayed or failed, and each replayed key
    /// made one result record and one screening event, and at most one
    /// evidence bundle and one hypothesis state.
    pub open spec fn is_balanced(&self) -> bool {
        &&& self.keys_seen == self.counters.keys_processed + self.failed_keys@.len()
        &&& self.counters.result_records_created == self.counters.keys_processed
        &&& self.counters.screening_events_created == self.counters.keys_processed
        &&& self.counters.evidence_bundles_created <= self.counters.keys_processed
        &&& self.counters.hypothesis_states_created <= self.counters.keys_processed
    }

    /// Nothing counted yet.
    pub fn new() -> (r: ReplayTally)
        ensures
            r.keys_seen == 0,
            r.counters == (ReplayCounters {
                keys_processed: 0,
                result_records_created: 0,
                evidence_bundles_created: 0,
                hypothesis_states_created: 0,
                screening_events_created: 0,
            }),
            r.failed_keys@.len() == 0,
            r.is_balanced(),
    {
        ReplayTally { keys_seen: 0, counters: ReplayCounters::default(), failed_keys: Vec::new() }
    }

    /// Counts one key: a replayed key is counted as processed with what its
    /// result holds; a failed key is kept with its error.
    pub fn record(&mut self, input_key: String, outcome: ReplayKeyOutcome)
        requires
            old(self).keys_seen < usize::MAX,
            old(self).is_balanced(),
        ensures
            final(self).keys_seen == old(self).keys_seen + 1,
            final(self).is_balanced(),
            match outcome {
                ReplayKeyOutcome::Replayed { has_evidence_bundle, has_hypothesis_state } => {
                    &&& final(self).failed_keys@ == old(self).failed_keys@
                    &&& final(self).counters.keys_processed == old(self).counters.keys_processed + 1
                    &&& final(self).counters.result_records_created
                        == old(self).counters.result_records_created + 1
                    &&& final(self).counters.screening_events_created
                        == old(self).counters.screening_events_created + 1
                    &&& final(self).counters.evidence_bundles_created
                        == old(self).counters.evidence_bundles_created + if has_evidence_bundle {
                        1int
                    } else {
                        0int
                    }
                    &&& final(self).counters.hypothesis_states_created
                        == old(self).counters.hypothesis_states_created + if has_hypothesis_state {
                        1int
                    } else {
                        0int
                    }
                },
                ReplayKeyOutcome::Failed { error } => {
                    &&& final(self).counters == old(self).counters
                    &&& final(self).failed_keys@ == old(self).failed_keys@.push(
                        ReplayFailure { input_key, error },
                    )
                },
            },
    {
        self.keys_seen = self.keys_seen + 1;
        match outcome {
            ReplayKeyOutcome::Replayed { has_evidence_bundle, has_hypothesis_state } => {
                self.counters.record_success(has_evidence_bundle, has_hypothesis_state);
            },
            ReplayKeyOutcome::Failed { error } => {
                self.failed_keys.push(ReplayFailure { input_key, error });
            },
        }
    }
}

/// The report of one replay run.
#[derive(Debug, Clone, PartialEq, Eq)]
pub struct ReplayReport {
    pub schema_version: String,
    pub replay_run_id: String,
    pub producer_app: String,
    pub producer_version: String,
    pub created_at_ms: i64,
    pub input_bucket: String,
    pub output_bucket: String,
    pub input_prefixes: Vec<String>,
    pub keys_seen: usize,
    pub keys_processed: usize,
    pub keys_skipped_stale_revision: usize,
    pub keys_failed: usize,
    pub result_records_created: usize,
    pub evidence_bundles_created: usize,
    pub hypothesis_states_created: usize,
    pub screening_events_created: usize,
    pub failed_keys: Vec<ReplayFailure>,
    pub result_prefix: String,
    pub report_key: String,
    pub checksum: String,
}

/// The report of a run that saw `keys_seen` keys, counted `counters` for
/// those it replayed and failed on `failed_keys`. Its checksum is left
/// empty: it is the SHA-256 of the report's JSON with the checksum empty,
/// computed where the report is serialized.
pub fn replay_report(
    args: &ReplayArgs,
    producer_version: &str,
    created_at_ms: i64,
    replay_run_id: &str,
    keys_seen: usize,
    counters: ReplayCounters,
    failed_keys: Vec<ReplayFailure>,
) -> (r: ReplayReport)
    ensures
        r.schema_version@ == REPORT_SCHEMA_VERSION@,
        r.replay_run_id@ == replay_run_id@,
        r.producer_app@ == PRODUCER_APP@,
        r.producer_version@ == producer_version@,
        r.created_at_ms == created_at_ms,
        r.input_bucket@ == args.worker.input_store.bucket@,
        r.output_bucket@ == args.worker.output_store.bucket@,
        r.input_prefixes@ == args.input_prefixes@,
        r.keys_seen == keys_seen,
        r.keys_processed == counters.keys_processed,
        r.keys_skipped_stale_revision == 0,
        r.keys_failed == failed_keys.len(),
        r.result_records_created == counters.result_records_created,
        r.evidence_bundles_created == counters.evidence_bundles_created,
        r.hypothesis_states_created == counters.hypothesis_states_created,
        r.screening_events_created == counters.screening_events_created,
        r.failed_keys@ == failed_keys@,
        r.result_prefix@ == args.result_prefix@,
        r.report_key@ == replay_report_key_spec(
            args.report_prefix@,
            created_at_ms as int,
            replay_run_id@,
        ),
        r.checksum@.len() == 0,
{
    let report_key = replay_report_key(args.report_prefix.as_str(), created_at_ms, replay_run_id);
    let keys_failed = failed_keys.len();
    ReplayReport {
        schema_version: String::from_str(REPORT_SCHEMA_VERSION),
        replay_run_id: String::from_str(replay_run_id),
        producer_app: String::from_str(PRODUCER_APP),
        producer_version: String::from_str(producer_version),
        created_at_ms,
        input_bucket: args.worker.input_store.bucket.clone(),
        output_bucket: args.worker.output_store.bucket.clone(),
        input_prefixes: copy_strings(&args.input_prefixes),
        keys_seen,
        keys_processed: counters.keys_processed,
        keys_skipped_stale_revision: 0,
        keys_failed,
        result_records_created: counters.result_records_created,
        evidence_bundles_created: counters.evidence_bundles_created,
        hypothesis_states_created: counters.hypothesis_states_created,
        screening_events_created: counters.screening_events_created,
        failed_keys,
        result_prefix: args.result_prefix.clone(),
        report_key,
        checksum: String::new(),
    }
}

/// A report made from a balanced tally is balanced: every key seen was
/// processed or failed.
pub proof fn lemma_report_of_balanced_tally(tally: ReplayTally, r: ReplayReport)
    requires
        tally.is_balanced(),
        r.keys_seen == tally.keys_seen,
        r.keys_processed == tally.counters.keys_processed,
        r.keys_failed == tally.failed_keys@.len(),
        r.keys_skipped_stale_revision == 0,
    ensures
        r.keys_seen == r.keys_processed + r.keys_skipped_stale_revision + r.keys_failed,
{
}

/// The message of the error a run ends with when keys failed.
pub open spec fn failed_keys_message(keys_failed: int, report_key: Seq<char>) -> Seq<char> {
    "candidate replay finished with "@ + decimal(keys_failed as nat) + " failed keys; report_key="@
        + report_key
}

/// How a finished run ends: with a validation error when records failed and
/// the run was asked to fail on record errors, else successfully.
pub fn replay_outcome(args: &ReplayArgs, report: &ReplayReport) -> (r: Result<(), AppError>)
    ensures
        r is Err <==> args.fail_on_record_error && report.keys_failed > 0,
        r matches Err(e) ==> e@ == AppErrorView::Validation(
            failed_keys_message(report.keys_failed as int, report.report_key@),
        ),
{
    if args.fail_on_record_error && report.keys_failed > 0 {
        let mut message = String::from_str("candidate replay finished with ");
        push_decimal(&mut message, report.keys_failed as u64);
        message.append(" failed keys; report_key=");
        message.append(report.report_key.as_str());
        Err(AppError::Validation(message))
    } else {
        Ok(())
    }
}

} // verus!
