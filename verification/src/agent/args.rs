//! Command-line arguments of the agent: repair-scan flags, with every other
//! argument handed on to the worker parser.
use crate::error::{AppError, AppErrorView};
use crate::paths::{is_safe_object_prefix, object_prefix_error, validate_object_prefix};
use crate::text::{lemma_parse_unsigned_range, str_eq, texts};
use crate::values::{
    next_value, next_value_spec, non_negative_u32_spec, parse_non_negative_u32,
    parse_positive_u64, parse_positive_usize, positive_spec,
};
use crate::worker::{WorkerArgs, WorkerArgsView, worker_parse_spec};
use vstd::prelude::*;

verus! {

pub const DEFAULT_REPAIR_INTERVAL_SECS: u64 = 3_600;

pub const DEFAULT_REPAIR_MAX_KEYS_PER_PREFIX: usize = 500;

pub const DEFAULT_REPAIR_MAX_PAGES_PER_PREFIX: usize = 8;

pub const DEFAULT_REPAIR_RECENT_PARTITION_DAYS: u32 = 3;

#[derive(Debug, Clone, PartialEq, Eq)]
pub struct AgentArgs {
    pub worker: WorkerArgs,
    pub repair_input_prefixes: Vec<String>,
    pub repair_interval_secs: u64,
    pub repair_max_keys_per_prefix: usize,
    pub repair_max_pages_per_prefix: usize,
    pub repair_recent_partition_days: u32,
    pub repair_enabled: bool,
}

/// The repair-scan settings, as values.
pub struct RepairSettings {
    pub input_prefixes: Seq<Seq<char>>,
    pub interval_secs: u64,
    pub max_keys_per_prefix: usize,
    pub max_pages_per_prefix: usize,
    pub recent_partition_days: u32,
    pub enabled: bool,
}

/// The mathematical value of [`AgentArgs`].
pub struct AgentArgsView {
    pub worker: WorkerArgsView,
    pub repair: RepairSettings,
}

impl View for AgentArgs {
    type V = AgentArgsView;

    open spec fn view(&self) -> AgentArgsView {
        AgentArgsView {
            worker: self.worker@,
            repair: RepairSettings {
                input_prefixes: texts(self.repair_input_prefixes@),
                interval_secs: self.repair_interval_secs,
                max_keys_per_prefix: self.repair_max_keys_per_prefix,
                max_pages_per_prefix: self.repair_max_pages_per_prefix,
                recent_partition_days: self.repair_recent_partition_days,
                enabled: self.repair_enabled,
            },
        }
    }
}

pub open spec fn default_repair_settings() -> RepairSettings {
    RepairSettings {
        input_prefixes: seq![],
        interval_secs: DEFAULT_REPAIR_INTERVAL_SECS,
        max_keys_per_prefix: DEFAULT_REPAIR_MAX_KEYS_PER_PREFIX,
        max_pages_per_prefix: DEFAULT_REPAIR_MAX_PAGES_PER_PREFIX,
        recent_partition_days: DEFAULT_REPAIR_RECENT_PARTITION_DAYS,
        enabled: true,
    }
}

pub open spec fn is_prefix_flag(a: Seq<char>) -> bool {
    a == "--repair-input-prefix"@ || a == "--agent-repair-input-prefix"@ || a
        == "--replay-input-prefix"@
}

pub open spec fn is_interval_flag(a: Seq<char>) -> bool {
    a == "--repair-interval-secs"@ || a == "--agent-repair-interval-secs"@
}

pub open spec fn is_max_keys_flag(a: Seq<char>) -> bool {
    a == "--repair-max-keys-per-prefix"@ || a == "--agent-repair-max-keys-per-prefix"@
}

pub open spec fn is_max_pages_flag(a: Seq<char>) -> bool {
    a == "--repair-max-pages-per-prefix"@ || a == "--agent-repair-max-pages-per-prefix"@
}

pub open spec fn is_recent_days_flag(a: Seq<char>) -> bool {
    a == "--repair-recent-partition-days"@ || a == "--agent-repair-recent-partition-days"@
}

pub open spec fn is_disable_flag(a: Seq<char>) -> bool {
    a == "--disable-repair"@ || a == "--agent-disable-repair"@
}

/// The argument at index `i`: the new settings, whether the value after it
/// was consumed, and the argument handed on to the worker parser, if any.
pub open spec fn repair_step(s: RepairSettings, raw: Seq<Seq<char>>, i: int) -> Result<
    (RepairSettings, bool, Option<Seq<char>>),
    AppErrorView,
> {
    let a = raw[i];
    if is_prefix_flag(a) {
        match next_value_spec(raw, i + 1, a) {
            Err(e) => Err(e),
            Ok(v) => Ok(
                (RepairSettings { input_prefixes: s.input_prefixes.push(v), ..s }, true, None),
            ),
        }
    } else if is_interval_flag(a) {
        match next_value_spec(raw, i + 1, a) {
            Err(e) => Err(e),
            Ok(v) => match positive_spec(v, u64::MAX as int) {
                Err(e) => Err(e),
                Ok(n) => Ok((RepairSettings { interval_secs: n as u64, ..s }, true, None)),
            },
        }
    } else if is_max_keys_flag(a) {
        match next_value_spec(raw, i + 1, a) {
            Err(e) => Err(e),
            Ok(v) => match positive_spec(v, usize::MAX as int) {
                Err(e) => Err(e),
                Ok(n) => Ok((RepairSettings { max_keys_per_prefix: n as usize, ..s }, true, None)),
            },
        }
    } else if is_max_pages_flag(a) {
        match next_value_spec(raw, i + 1, a) {
            Err(e) => Err(e),
            Ok(v) => match positive_spec(v, usize::MAX as int) {
                Err(e) => Err(e),
                Ok(n) => Ok(
                    (RepairSettings { max_pages_per_prefix: n as usize, ..s }, true, None),
                ),
            },
        }
    } else if is_recent_days_flag(a) {
        match next_value_spec(raw, i + 1, a) {
            Err(e) => Err(e),
            Ok(v) => match non_negative_u32_spec(v) {
                Err(e) => Err(e),
                Ok(n) => Ok(
                    (RepairSettings { recent_partition_days: n as u32, ..s }, true, None),
                ),
            },
        }
    } else if is_disable_flag(a) {
        Ok((RepairSettings { enabled: false, ..s }, false, None))
    } else {
        Ok((s, false, Some(a)))
    }
}

pub open spec fn forwarded(f: Option<Seq<char>>) -> Seq<Seq<char>> {
    match f {
        Some(a) => seq![a],
        None => seq![],
    }
}

/// Reads the arguments from index `i` on; `w` collects the worker arguments.
pub open spec fn repair_fold(
    s: RepairSettings,
    raw: Seq<Seq<char>>,
    i: int,
    w: Seq<Seq<char>>,
) -> Result<(RepairSettings, Seq<Seq<char>>), AppErrorView>
    decreases raw.len() + 2 - i,
{
    if i < 0 || i >= raw.len() {
        Ok((s, w))
    } else {
        match repair_step(s, raw, i) {
            Err(e) => Err(e),
            Ok((s2, consumed, f)) => repair_fold(
                s2,
                raw,
                if consumed {
                    i + 2
                } else {
                    i + 1
                },
                w + forwarded(f),
            ),
        }
    }
}

/// The message for the first unsafe prefix, if there is one.
pub open spec fn first_prefix_error(ps: Seq<Seq<char>>) -> Option<Seq<char>>
    decreases ps.len(),
{
    if ps.len() == 0 {
        None
    } else if !is_safe_object_prefix(ps[0]) {
        Some(object_prefix_error("--repair-input-prefix"@, ps[0]))
    } else {
        first_prefix_error(ps.drop_first())
    }
}

pub open spec fn has_help_flag(raw: Seq<Seq<char>>) -> bool {
    exists|i: int| 0 <= i < raw.len() && (#[trigger] raw[i] == "-h"@ || raw[i] == "--help"@)
}

/// What [`AgentArgs::parse`] gives for the arguments `raw`.
pub open spec fn agent_parse_spec(raw: Seq<Seq<char>>) -> Result<Option<AgentArgsView>, AppErrorView> {
    if has_help_flag(raw) {
        Ok(None)
    } else {
        match repair_fold(default_repair_settings(), raw, 0, seq![]) {
            Err(e) => Err(e),
            Ok((s, w)) => match first_prefix_error(s.input_prefixes) {
                Some(m) => Err(AppErrorView::Config(m)),
                None => match worker_parse_spec(w) {
                    Err(e) => Err(e),
                    Ok(None) => Ok(None),
                    Ok(Some(wv)) => Ok(Some(AgentArgsView { worker: wv, repair: s })),
                },
            },
        }
    }
}

/// The repair settings keep positive scan bounds.
pub open spec fn repair_bounds_positive(s: RepairSettings) -> bool {
    s.interval_secs > 0 && s.max_keys_per_prefix > 0 && s.max_pages_per_prefix > 0
}

proof fn lemma_repair_fold_keeps_bounds(s: RepairSettings, raw: Seq<Seq<char>>, i: int, w: Seq<Seq<char>>)
    requires
        repair_bounds_positive(s),
    ensures
        repair_fold(s, raw, i, w) matches Ok((s2, _)) ==> repair_bounds_positive(s2),
    decreases raw.len() + 2 - i,
{
    if 0 <= i < raw.len() {
        let a = raw[i];
        match next_value_spec(raw, i + 1, a) {
            Ok(v) => {
                lemma_parse_unsigned_range(v, u64::MAX as int);
                lemma_parse_unsigned_range(v, usize::MAX as int);
            },
            Err(_) => {},
        }
        match repair_step(s, raw, i) {
            Err(_) => {},
            Ok((s2, consumed, f)) => {
                lemma_repair_fold_keeps_bounds(
                    s2,
                    raw,
                    if consumed {
                        i + 2
                    } else {
                        i + 1
                    },
                    w + forwarded(f),
                );
            },
        }
    }
}

proof fn lemma_no_prefix_error_all_safe(ps: Seq<Seq<char>>)
    requires
        first_prefix_error(ps) is None,
    ensures
        forall|i: int| 0 <= i < ps.len() ==> is_safe_object_prefix(#[trigger] ps[i]),
    decreases ps.len(),
{
    if ps.len() > 0 {
        lemma_no_prefix_error_all_safe(ps.drop_first());
        assert forall|i: int| 0 <= i < ps.len() implies is_safe_object_prefix(#[trigger] ps[i]) by {
            if i > 0 {
                assert(ps[i] == ps.drop_first()[i - 1]);
            }
        }
    }
}

/// Arguments the agent accepts name only safe relative repair prefixes and
/// positive scan bounds: a repair interval, a number of keys per page and a
/// number of pages per prefix that are all at least one.
pub proof fn lemma_accepted_agent_args_are_valid(raw: Seq<Seq<char>>)
    ensures
        agent_parse_spec(raw) matches Ok(Some(a)) ==> {
            &&& forall|i: int|
                0 <= i < a.repair.input_prefixes.len() ==> is_safe_object_prefix(
                    #[trigger] a.repair.input_prefixes[i],
                )
            &&& repair_bounds_positive(a.repair)
        },
{
    if !has_help_flag(raw) {
        lemma_repair_fold_keeps_bounds(default_repair_settings(), raw, 0, seq![]);
        match repair_fold(default_repair_settings(), raw, 0, seq![]) {
            Ok((s, w)) => {
                if first_prefix_error(s.input_prefixes) is None {
                    lemma_no_prefix_error_all_safe(s.input_prefixes);
                }
            },
            Err(_) => {},
        }
    }
}

/// The six flags a law below appends are told apart from every other
/// repair flag.
proof fn lemma_repair_flags_distinct()
    ensures
        is_prefix_flag("--repair-input-prefix"@),
        !is_prefix_flag("--repair-interval-secs"@) && is_interval_flag("--repair-interval-secs"@),
        !is_prefix_flag("--repair-max-keys-per-prefix"@) && !is_interval_flag(
            "--repair-max-keys-per-prefix"@,
        ) && is_max_keys_flag("--repair-max-keys-per-prefix"@),
        !is_prefix_flag("--repair-max-pages-per-prefix"@) && !is_interval_flag(
            "--repair-max-pages-per-prefix"@,
        ) && !is_max_keys_flag("--repair-max-pages-per-prefix"@) && is_max_pages_flag(
            "--repair-max-pages-per-prefix"@,
        ),
        !is_prefix_flag("--repair-recent-partition-days"@) && !is_interval_flag(
            "--repair-recent-partition-days"@,
        ) && !is_max_keys_flag("--repair-recent-partition-days"@) && !is_max_pages_flag(
            "--repair-recent-partition-days"@,
        ) && is_recent_days_flag("--repair-recent-partition-days"@),
        !is_prefix_flag("--disable-repair"@) && !is_interval_flag("--disable-repair"@)
            && !is_max_keys_flag("--disable-repair"@) && !is_max_pages_flag("--disable-repair"@)
            && !is_recent_days_flag("--disable-repair"@) && is_disable_flag("--disable-repair"@),
{
    reveal_strlit("--repair-input-prefix");
    reveal_strlit("--agent-repair-input-prefix");
    reveal_strlit("--replay-input-prefix");
    reveal_strlit("--repair-interval-secs");
    reveal_strlit("--agent-repair-interval-secs");
    reveal_strlit("--repair-max-keys-per-prefix");
    reveal_strlit("--agent-repair-max-keys-per-prefix");
    reveal_strlit("--repair-max-pages-per-prefix");
    reveal_strlit("--agent-repair-max-pages-per-prefix");
    reveal_strlit("--repair-recent-partition-days");
    reveal_strlit("--agent-repair-recent-partition-days");
    reveal_strlit("--disable-repair");
    reveal_strlit("--agent-disable-repair");
    reveal_strlit("-h");
    reveal_strlit("--help");
    assert("--repair-input-prefix"@.len() != "--agent-repair-input-prefix"@.len());
    assert("--repair-input-prefix"@[5] != "--replay-input-prefix"@[5]);
    assert("--repair-input-prefix"@.len() != "--repair-interval-secs"@.len());
    assert("--repair-input-prefix"@.len() != "--agent-repair-interval-secs"@.len());
    assert("--repair-input-prefix"@.len() != "--repair-max-keys-per-prefix"@.len());
    assert("--repair-input-prefix"@.len() != "--agent-repair-max-keys-per-prefix"@.len());
    assert("--repair-input-prefix"@.len() != "--repair-max-pages-per-prefix"@.len());
    assert("--repair-input-prefix"@.len() != "--agent-repair-max-pages-per-prefix"@.len());
    assert("--repair-input-prefix"@.len() != "--repair-recent-partition-days"@.len());
    assert("--repair-input-prefix"@.len() != "--agent-repair-recent-partition-days"@.len());
    assert("--repair-input-prefix"@.len() != "--disable-repair"@.len());
    assert("--repair-input-prefix"@.len() != "--agent-disable-repair"@.len());
    assert("--repair-interval-secs"@.len() != "--repair-input-prefix"@.len());
    assert("--repair-interval-secs"@.len() != "--agent-repair-input-prefix"@.len());
    assert("--repair-interval-secs"@.len() != "--replay-input-prefix"@.len());
    assert("--repair-interval-secs"@.len() != "--agent-repair-interval-secs"@.len());
    assert("--repair-interval-secs"@.len() != "--repair-max-keys-per-prefix"@.len());
    assert("--repair-interval-secs"@.len() != "--agent-repair-max-keys-per-prefix"@.len());
    assert("--repair-interval-secs"@.len() != "--repair-max-pages-per-prefix"@.len());
    assert("--repair-interval-secs"@.len() != "--agent-repair-max-pages-per-prefix"@.len());
    assert("--repair-interval-secs"@.len() != "--repair-recent-partition-days"@.len());
    assert("--repair-interval-secs"@.len() != "--agent-repair-recent-partition-days"@.len());
    assert("--repair-interval-secs"@.len() != "--disable-repair"@.len());
    assert("--repair-interval-secs"@[2] != "--agent-disable-repair"@[2]);
    assert("--repair-max-keys-per-prefix"@.len() != "--repair-input-prefix"@.len());
    assert("--repair-max-keys-per-prefix"@.len() != "--agent-repair-input-prefix"@.len());
    assert("--repair-max-keys-per-prefix"@.len() != "--replay-input-prefix"@.len());
    assert("--repair-max-keys-per-prefix"@.len() != "--repair-interval-secs"@.len());
    assert("--repair-max-keys-per-prefix"@[2] != "--agent-repair-interval-secs"@[2]);
    assert("--repair-max-keys-per-prefix"@.len() != "--agent-repair-max-keys-per-prefix"@.len());
    assert("--repair-max-keys-per-prefix"@.len() != "--repair-max-pages-per-prefix"@.len());
    assert("--repair-max-keys-per-prefix"@.len() != "--agent-repair-max-pages-per-prefix"@.len());
    assert("--repair-max-keys-per-prefix"@.len() != "--repair-recent-partition-days"@.len());
    assert("--repair-max-keys-per-prefix"@.len() != "--agent-repair-recent-partition-days"@.len());
    assert("--repair-max-keys-per-prefix"@.len() != "--disable-repair"@.len());
    assert("--repair-max-keys-per-prefix"@.len() != "--agent-disable-repair"@.len());
    assert("--repair-max-pages-per-prefix"@.len() != "--repair-input-prefix"@.len());
    assert("--repair-max-pages-per-prefix"@.len() != "--agent-repair-input-prefix"@.len());
    assert("--repair-max-pages-per-prefix"@.len() != "--replay-input-prefix"@.len());
    assert("--repair-max-pages-per-prefix"@.len() != "--repair-interval-secs"@.len());
    assert("--repair-max-pages-per-prefix"@.len() != "--agent-repair-interval-secs"@.len());
    assert("--repair-max-pages-per-prefix"@.len() != "--repair-max-keys-per-prefix"@.len());
    assert("--repair-max-pages-per-prefix"@.len() != "--agent-repair-max-keys-per-prefix"@.len());
    assert("--repair-max-pages-per-prefix"@.len() != "--agent-repair-max-pages-per-prefix"@.len());
    assert("--repair-max-pages-per-prefix"@.len() != "--repair-recent-partition-days"@.len());
    assert("--repair-max-pages-per-prefix"@.len() != "--agent-repair-recent-partition-days"@.len());
    assert("--repair-max-pages-per-prefix"@.len() != "--disable-repair"@.len());
    assert("--repair-max-pages-per-prefix"@.len() != "--agent-disable-repair"@.len());
    assert("--repair-recent-partition-days"@.len() != "--repair-input-prefix"@.len());
    assert("--repair-recent-partition-days"@.len() != "--agent-repair-input-prefix"@.len());
    assert("--repair-recent-partition-days"@.len() != "--replay-input-prefix"@.len());
    assert("--repair-recent-partition-days"@.len() != "--repair-interval-secs"@.len());
    assert("--repair-recent-partition-days"@.len() != "--agent-repair-interval-secs"@.len());
    assert("--repair-recent-partition-days"@.len() != "--repair-max-keys-per-prefix"@.len());
    assert("--repair-recent-partition-days"@.len() != "--agent-repair-max-keys-per-prefix"@.len());
    assert("--repair-recent-partition-days"@.len() != "--repair-max-pages-per-prefix"@.len());
    assert("--repair-recent-partition-days"@.len() != "--agent-repair-max-pages-per-prefix"@.len());
    assert("--repair-recent-partition-days"@.len() != "--agent-repair-recent-partition-days"@.len());
    assert("--repair-recent-partition-days"@.len() != "--disable-repair"@.len());
    assert("--repair-recent-partition-days"@.len() != "--agent-disable-repair"@.len());
    assert("--disable-repair"@.len() != "--repair-input-prefix"@.len());
    assert("--disable-repair"@.len() != "--agent-repair-input-prefix"@.len());
    assert("--disable-repair"@.len() != "--replay-input-prefix"@.len());
    assert("--disable-repair"@.len() != "--repair-interval-secs"@.len());
    assert("--disable-repair"@.len() != "--agent-repair-interval-secs"@.len());
    assert("--disable-repair"@.len() != "--repair-max-keys-per-prefix"@.len());
    assert("--disable-repair"@.len() != "--agent-repair-max-keys-per-prefix"@.len());
    assert("--disable-repair"@.len() != "--repair-max-pages-per-prefix"@.len());
    assert("--disable-repair"@.len() != "--agent-repair-max-pages-per-prefix"@.len());
    assert("--disable-repair"@.len() != "--repair-recent-partition-days"@.len());
    assert("--disable-repair"@.len() != "--agent-repair-recent-partition-days"@.len());
    assert("--disable-repair"@.len() != "--agent-disable-repair"@.len());
}

/// Reading the arguments of `raw` from `i` on, when it succeeds, ends at the
/// end of `raw`: the same reading of `raw` followed by more arguments goes
/// on from there with the same settings and worker arguments.
proof fn lemma_repair_fold_extend(
    s: RepairSettings,
    raw: Seq<Seq<char>>,
    i: int,
    w: Seq<Seq<char>>,
    ext: Seq<Seq<char>>,
)
    requires
        0 <= i <= raw.len(),
    ensures
        match repair_fold(s, raw, i, w) {
            Ok((s2, w2)) => repair_fold(s, raw + ext, i, w) == repair_fold(
                s2,
                raw + ext,
                raw.len() as int,
                w2,
            ),
            Err(_) => true,
        },
    decreases raw.len() - i,
{
    if i < raw.len() {
        let all = raw + ext;
        assert(all[i] == raw[i]);
        if i + 1 < raw.len() {
            assert(all[i + 1] == raw[i + 1]);
        }
        match repair_step(s, raw, i) {
            Ok((s2, consumed, f)) => {
                assert(repair_step(s, all, i) == repair_step(s, raw, i));
                let j = if consumed {
                    i + 2
                } else {
                    i + 1
                };
                lemma_repair_fold_extend(s2, raw, j, w + forwarded(f), ext);
            },
            Err(_) => {},
        }
    }
}

proof fn lemma_prefix_error_push(ps: Seq<Seq<char>>, v: Seq<char>)
    requires
        first_prefix_error(ps) is None,
        is_safe_object_prefix(v),
    ensures
        first_prefix_error(ps.push(v)) is None,
    decreases ps.len(),
{
    if ps.len() > 0 {
        assert(is_safe_object_prefix(ps[0]));
        assert(first_prefix_error(ps.drop_first()) is None);
        assert(ps.push(v).drop_first() =~= ps.drop_first().push(v));
        assert(ps.push(v)[0] == ps[0]);
        lemma_prefix_error_push(ps.drop_first(), v);
        assert(first_prefix_error(ps.push(v)) == first_prefix_error(ps.drop_first().push(v)));
    } else {
        assert(ps.push(v).drop_first() =~= Seq::<Seq<char>>::empty());
        assert(ps.push(v)[0] == v);
        assert(first_prefix_error(Seq::<Seq<char>>::empty()) is None);
        assert(first_prefix_error(ps.push(v)) == first_prefix_error(ps.push(v).drop_first()));
    }
}

/// Appending `ext` to accepted arguments, when the reading of `ext` from
/// the accepted settings gives `s_new` and forwards nothing: the agent
/// accepts the longer arguments with the settings `s_new`.
proof fn lemma_agent_append(raw: Seq<Seq<char>>, ext: Seq<Seq<char>>, s_new: RepairSettings)
    requires
        agent_parse_spec(raw) is Ok,
        agent_parse_spec(raw)->Ok_0 is Some,
        !has_help_flag(raw + ext),
        repair_fold(
            agent_parse_spec(raw)->Ok_0->Some_0.repair,
            raw + ext,
            raw.len() as int,
            repair_fold(default_repair_settings(), raw, 0, seq![])->Ok_0.1,
        ) == Ok::<(RepairSettings, Seq<Seq<char>>), AppErrorView>(
            (s_new, repair_fold(default_repair_settings(), raw, 0, seq![])->Ok_0.1),
        ),
        first_prefix_error(s_new.input_prefixes) is None,
    ensures
        agent_parse_spec(raw + ext) == Ok::<Option<AgentArgsView>, AppErrorView>(
            Some(AgentArgsView { worker: agent_parse_spec(raw)->Ok_0->Some_0.worker, repair: s_new }),
        ),
{
    lemma_repair_fold_extend(default_repair_settings(), raw, 0, seq![], ext);
}

/// Arguments that follow accepted ones, a flag that is not a help flag and
/// possibly the value `v`, hold no help flag.
proof fn lemma_no_help_appended(raw: Seq<Seq<char>>, ext: Seq<Seq<char>>, v: Seq<char>)
    requires
        !has_help_flag(raw),
        v != "-h"@,
        v != "--help"@,
        1 <= ext.len() <= 2,
        ext[0].len() > 2,
        ext[0][2] != 'h',
        ext.len() == 2 ==> ext[1] == v,
    ensures
        !has_help_flag(raw + ext),
{
    reveal_strlit("-h");
    reveal_strlit("--help");
    let all = raw + ext;
    if has_help_flag(all) {
        let j = choose|j: int| 0 <= j < all.len() && (#[trigger] all[j] == "-h"@ || all[j] == "--help"@);
        if j < raw.len() {
            assert(all[j] == raw[j]);
            assert(has_help_flag(raw));
        } else if j == raw.len() {
            assert(all[j] == ext[0]);
            assert("--help"@[2] == 'h');
        } else {
            assert(all[j] == v);
        }
    }
}

/// One more step at the end of accepted arguments that reads `ext` whole
/// into `s_new` and forwards nothing gives accepted arguments with `s_new`.
proof fn lemma_agent_append_step(
    raw: Seq<Seq<char>>,
    ext: Seq<Seq<char>>,
    v: Seq<char>,
    s_new: RepairSettings,
    consumed: bool,
)
    requires
        agent_parse_spec(raw) is Ok,
        agent_parse_spec(raw)->Ok_0 is Some,
        v != "-h"@,
        v != "--help"@,
        ext.len() == if consumed {
            2int
        } else {
            1int
        },
        ext[0].len() > 2,
        ext[0][2] != 'h',
        ext.len() == 2 ==> ext[1] == v,
        repair_step(agent_parse_spec(raw)->Ok_0->Some_0.repair, raw + ext, raw.len() as int)
            == Ok::<(RepairSettings, bool, Option<Seq<char>>), AppErrorView>((s_new, consumed, None)),
        first_prefix_error(s_new.input_prefixes) is None,
    ensures
        agent_parse_spec(raw + ext) == Ok::<Option<AgentArgsView>, AppErrorView>(
            Some(AgentArgsView { worker: agent_parse_spec(raw)->Ok_0->Some_0.worker, repair: s_new }),
        ),
{
    lemma_no_help_appended(raw, ext, v);
    let w2 = repair_fold(default_repair_settings(), raw, 0, seq![])->Ok_0.1;
    let n = raw.len() as int;
    assert(w2 + forwarded(None) =~= w2);
    let j = if consumed {
        n + 2
    } else {
        n + 1
    };
    assert((raw + ext).len() == j);
    assert(repair_fold(s_new, raw + ext, j, w2) == Ok::<
        (RepairSettings, Seq<Seq<char>>),
        AppErrorView,
    >((s_new, w2)));
    lemma_agent_append(raw, ext, s_new);
}

proof fn lemma_agent_interval_last(raw: Seq<Seq<char>>, v: Seq<char>)
    requires
        agent_parse_spec(raw) is Ok,
        agent_parse_spec(raw)->Ok_0 is Some,
        v != "-h"@,
        v != "--help"@,
    ensures
        ({
            let a = agent_parse_spec(raw)->Ok_0->Some_0;
            positive_spec(v, u64::MAX as int) is Ok ==> agent_parse_spec(raw + seq!["--repair-interval-secs"@, v]) == Ok::<Option<AgentArgsView>, AppErrorView>(
                Some(AgentArgsView { worker: a.worker, repair: RepairSettings { interval_secs: positive_spec(v, u64::MAX as int)->Ok_0 as u64, ..a.repair } }),
            )
        }),
{
    lemma_repair_flags_distinct();
    let a = agent_parse_spec(raw)->Ok_0->Some_0;
    let ext = seq!["--repair-interval-secs"@, v];
    let n = raw.len() as int;
    reveal_strlit("--repair-interval-secs");
    assert(ext[0] == "--repair-interval-secs"@);
    assert((raw + ext)[n] == "--repair-interval-secs"@);
    assert((raw + ext)[n + 1] == v);
    if positive_spec(v, u64::MAX as int) is Ok {
        lemma_agent_append_step(raw, ext, v, RepairSettings { interval_secs: positive_spec(v, u64::MAX as int)->Ok_0 as u64, ..a.repair }, true);
    }
}

proof fn lemma_agent_max_keys_last(raw: Seq<Seq<char>>, v: Seq<char>)
    requires
        agent_parse_spec(raw) is Ok,
        agent_parse_spec(raw)->Ok_0 is Some,
        v != "-h"@,
        v != "--help"@,
    ensures
        ({
            let a = agent_parse_spec(raw)->Ok_0->Some_0;
            positive_spec(v, usize::MAX as int) is Ok ==> agent_parse_spec(raw + seq!["--repair-max-keys-per-prefix"@, v]) == Ok::<Option<AgentArgsView>, AppErrorView>(
                Some(AgentArgsView { worker: a.worker, repair: RepairSettings { max_keys_per_prefix: positive_spec(v, usize::MAX as int)->Ok_0 as usize, ..a.repair } }),
            )
        }),
{
    lemma_repair_flags_distinct();
    let a = agent_parse_spec(raw)->Ok_0->Some_0;
    let ext = seq!["--repair-max-keys-per-prefix"@, v];
    let n = raw.len() as int;
    reveal_strlit("--repair-max-keys-per-prefix");
    assert(ext[0] == "--repair-max-keys-per-prefix"@);
    assert((raw + ext)[n] == "--repair-max-keys-per-prefix"@);
    assert((raw + ext)[n + 1] == v);
    if positive_spec(v, usize::MAX as int) is Ok {
        lemma_agent_append_step(raw, ext, v, RepairSettings { max_keys_per_prefix: positive_spec(v, usize::MAX as int)->Ok_0 as usize, ..a.repair }, true);
    }
}

proof fn lemma_agent_max_pages_last(raw: Seq<Seq<char>>, v: Seq<char>)
    requires
        agent_parse_spec(raw) is Ok,
        agent_parse_spec(raw)->Ok_0 is Some,
        v != "-h"@,
        v != "--help"@,
    ensures
        ({
            let a = agent_parse_spec(raw)->Ok_0->Some_0;
            positive_spec(v, usize::MAX as int) is Ok ==> agent_parse_spec(raw + seq!["--repair-max-pages-per-prefix"@, v]) == Ok::<Option<AgentArgsView>, AppErrorView>(
                Some(AgentArgsView { worker: a.worker, repair: RepairSettings { max_pages_per_prefix: positive_spec(v, usize::MAX as int)->Ok_0 as usize, ..a.repair } }),
            )
        }),
{
    lemma_repair_flags_distinct();
    let a = agent_parse_spec(raw)->Ok_0->Some_0;
    let ext = seq!["--repair-max-pages-per-prefix"@, v];
    let n = raw.len() as int;
    reveal_strlit("--repair-max-pages-per-prefix");
    assert(ext[0] == "--repair-max-pages-per-prefix"@);
    assert((raw + ext)[n] == "--repair-max-pages-per-prefix"@);
    assert((raw + ext)[n + 1] == v);
    if positive_spec(v, usize::MAX as int) is Ok {
        lemma_agent_append_step(raw, ext, v, RepairSettings { max_pages_per_prefix: positive_spec(v, usize::MAX as int)->Ok_0 as usize, ..a.repair }, true);
    }
}

proof fn lemma_agent_recent_days_last(raw: Seq<Seq<char>>, v: Seq<char>)
    requires
        agent_parse_spec(raw) is Ok,
        agent_parse_spec(raw)->Ok_0 is Some,
        v != "-h"@,
        v != "--help"@,
    ensures
        ({
            let a = agent_parse_spec(raw)->Ok_0->Some_0;
            non_negative_u32_spec(v) is Ok ==> agent_parse_spec(raw + seq!["--repair-recent-partition-days"@, v]) == Ok::<Option<AgentArgsView>, AppErrorView>(
                Some(AgentArgsView { worker: a.worker, repair: RepairSettings { recent_partition_days: non_negative_u32_spec(v)->Ok_0 as u32, ..a.repair } }),
            )
        }),
{
    lemma_repair_flags_distinct();
    let a = agent_parse_spec(raw)->Ok_0->Some_0;
    let ext = seq!["--repair-recent-partition-days"@, v];
    let n = raw.len() as int;
    reveal_strlit("--repair-recent-partition-days");
    assert(ext[0] == "--repair-recent-partition-days"@);
    assert((raw + ext)[n] == "--repair-recent-partition-days"@);
    assert((raw + ext)[n + 1] == v);
    if non_negative_u32_spec(v) is Ok {
        lemma_agent_append_step(raw, ext, v, RepairSettings { recent_partition_days: non_negative_u32_spec(v)->Ok_0 as u32, ..a.repair }, true);
    }
}

proof fn lemma_agent_disable_last(raw: Seq<Seq<char>>, v: Seq<char>)
    requires
        agent_parse_spec(raw) is Ok,
        agent_parse_spec(raw)->Ok_0 is Some,
        v != "-h"@,
        v != "--help"@,
    ensures
        ({
            let a = agent_parse_spec(raw)->Ok_0->Some_0;
            agent_parse_spec(raw + seq!["--disable-repair"@]) == Ok::<Option<AgentArgsView>, AppErrorView>(
                Some(AgentArgsView { worker: a.worker, repair: RepairSettings { enabled: false, ..a.repair } }),
            )
        }),
{
    lemma_repair_flags_distinct();
    let a = agent_parse_spec(raw)->Ok_0->Some_0;
    let ext = seq!["--disable-repair"@];
    let n = raw.len() as int;
    reveal_strlit("--disable-repair");
    assert(ext[0] == "--disable-repair"@);
    assert((raw + ext)[n] == "--disable-repair"@);

    if true {
        lemma_agent_append_step(raw, ext, v, RepairSettings { enabled: false, ..a.repair }, false);
    }
}

proof fn lemma_agent_prefix_last(raw: Seq<Seq<char>>, v: Seq<char>)
    requires
        agent_parse_spec(raw) is Ok,
        agent_parse_spec(raw)->Ok_0 is Some,
        v != "-h"@,
        v != "--help"@,
    ensures
        ({
            let a = agent_parse_spec(raw)->Ok_0->Some_0;
            is_safe_object_prefix(v) ==> agent_parse_spec(raw + seq!["--repair-input-prefix"@, v]) == Ok::<Option<AgentArgsView>, AppErrorView>(
                Some(AgentArgsView { worker: a.worker, repair: RepairSettings { input_prefixes: a.repair.input_prefixes.push(v), ..a.repair } }),
            )
        }),
{
    lemma_repair_flags_distinct();
    let a = agent_parse_spec(raw)->Ok_0->Some_0;
    let ext = seq!["--repair-input-prefix"@, v];
    let n = raw.len() as int;
    reveal_strlit("--repair-input-prefix");
    assert(ext[0] == "--repair-input-prefix"@);
    assert((raw + ext)[n] == "--repair-input-prefix"@);
    assert((raw + ext)[n + 1] == v);
    if is_safe_object_prefix(v) {
        lemma_prefix_error_push(a.repair.input_prefixes, v);
    }
    if is_safe_object_prefix(v) {
        lemma_agent_append_step(raw, ext, v, RepairSettings { input_prefixes: a.repair.input_prefixes.push(v), ..a.repair }, true);
    }
}

/// A flag given last wins: appended to arguments the agent accepts,
/// `--repair-interval-secs v`, `--repair-max-keys-per-prefix v`,
/// `--repair-max-pages-per-prefix v` and `--repair-recent-partition-days v`
/// set that bound to the number `v` reads as, `--disable-repair` turns repair
/// off, and `--repair-input-prefix v` with a safe prefix `v` adds `v` at the
/// end of the prefixes. Nothing else changes.
pub proof fn lemma_agent_flags_given_last(raw: Seq<Seq<char>>, v: Seq<char>)
    requires
        v != "-h"@,
        v != "--help"@,
    ensures
        agent_parse_spec(raw) matches Ok(Some(a)) ==> {
            &&& (positive_spec(v, u64::MAX as int) matches Ok(k) ==> agent_parse_spec(
                raw + seq!["--repair-interval-secs"@, v],
            ) == Ok::<Option<AgentArgsView>, AppErrorView>(
                Some(
                    AgentArgsView {
                        worker: a.worker,
                        repair: RepairSettings { interval_secs: k as u64, ..a.repair },
                    },
                ),
            ))
            &&& (positive_spec(v, usize::MAX as int) matches Ok(k) ==> agent_parse_spec(
                raw + seq!["--repair-max-keys-per-prefix"@, v],
            ) == Ok::<Option<AgentArgsView>, AppErrorView>(
                Some(
                    AgentArgsView {
                        worker: a.worker,
                        repair: RepairSettings { max_keys_per_prefix: k as usize, ..a.repair },
                    },
                ),
            ))
            &&& (positive_spec(v, usize::MAX as int) matches Ok(k) ==> agent_parse_spec(
                raw + seq!["--repair-max-pages-per-prefix"@, v],
            ) == Ok::<Option<AgentArgsView>, AppErrorView>(
                Some(
                    AgentArgsView {
                        worker: a.worker,
                        repair: RepairSettings { max_pages_per_prefix: k as usize, ..a.repair },
                    },
                ),
            ))
            &&& (non_negative_u32_spec(v) matches Ok(k) ==> agent_parse_spec(
                raw + seq!["--repair-recent-partition-days"@, v],
            ) == Ok::<Option<AgentArgsView>, AppErrorView>(
                Some(
                    AgentArgsView {
                        worker: a.worker,
                        repair: RepairSettings { recent_partition_days: k as u32, ..a.repair },
                    },
                ),
            ))
            &&& agent_parse_spec(raw + seq!["--disable-repair"@]) == Ok::<
                Option<AgentArgsView>,
                AppErrorView,
            >(
                Some(
                    AgentArgsView {
                        worker: a.worker,
                        repair: RepairSettings { enabled: false, ..a.repair },
                    },
                ),
            )
            &&& (is_safe_object_prefix(v) ==> agent_parse_spec(
                raw + seq!["--repair-input-prefix"@, v],
            ) == Ok::<Option<AgentArgsView>, AppErrorView>(
                Some(
                    AgentArgsView {
                        worker: a.worker,
                        repair: RepairSettings {
                            input_prefixes: a.repair.input_prefixes.push(v),
                            ..a.repair
                        },
                    },
                ),
            ))
        },
{
    if let Ok(Some(_)) = agent_parse_spec(raw) {
        lemma_agent_interval_last(raw, v);
        lemma_agent_max_keys_last(raw, v);
        lemma_agent_max_pages_last(raw, v);
        lemma_agent_recent_days_last(raw, v);
        lemma_agent_disable_last(raw, v);
        lemma_agent_prefix_last(raw, v);
    }
}

/// The repair-scan settings while the arguments are read.
pub struct RepairArgs {
    input_prefixes: Vec<String>,
    interval_secs: u64,
    max_keys_per_prefix: usize,
    max_pages_per_prefix: usize,
    recent_partition_days: u32,
    enabled: bool,
}

impl View for RepairArgs {
    type V = RepairSettings;

    closed spec fn view(&self) -> RepairSettings {
        RepairSettings {
            input_prefixes: texts(self.input_prefixes@),
            interval_secs: self.interval_secs,
            max_keys_per_prefix: self.max_keys_per_prefix,
            max_pages_per_prefix: self.max_pages_per_prefix,
            recent_partition_days: self.recent_partition_days,
            enabled: self.enabled,
        }
    }
}

impl Default for RepairArgs {
    fn default() -> (r: Self)
        ensures
            r@ == default_repair_settings(),
    {
        let r = RepairArgs {
            input_prefixes: Vec::new(),
            interval_secs: DEFAULT_REPAIR_INTERVAL_SECS,
            max_keys_per_prefix: DEFAULT_REPAIR_MAX_KEYS_PER_PREFIX,
            max_pages_per_prefix: DEFAULT_REPAIR_MAX_PAGES_PER_PREFIX,
            recent_partition_days: DEFAULT_REPAIR_RECENT_PARTITION_DAYS,
            enabled: true,
        };
        assert(texts(r.input_prefixes@) =~= seq![]);
        r
    }
}

impl RepairArgs {
    /// Applies the argument at `*index`; a flag with a value leaves `*index`
    /// on the value. On an error (a missing or malformed value) `*index` is on
    /// the value's place and nothing else changed.
    pub fn apply_arg(&mut self, raw: &[String], index: &mut usize, worker_args: &mut Vec<String>) -> (r:
        Result<(), AppError>)
        requires
            *old(index) < raw@.len(),
        ensures
            match repair_step(old(self)@, texts(raw@), *old(index) as int) {
                Err(e) => {
                    &&& r matches Err(x) && x@ == e
                    &&& *final(index) == *old(index) + 1
                    &&& final(self)@ == old(self)@
                    &&& final(worker_args)@ == old(worker_args)@
                },
                Ok((s, consumed, f)) => {
                    &&& r is Ok
                    &&& final(self)@ == s
                    &&& *final(index) == *old(index) + if consumed {
                        1int
                    } else {
                        0int
                    }
                    &&& texts(final(worker_args)@) == texts(old(worker_args)@) + forwarded(f)
                },
            },
    {
        let ghost t = texts(raw@);
        let i = *index;
        let flag = raw[i].as_str();
        assert(t[i as int] == flag@);
        if str_eq(flag, "--repair-input-prefix") || str_eq(flag, "--agent-repair-input-prefix")
            || str_eq(flag, "--replay-input-prefix") {
            *index = i + 1;
            let v = next_value(raw, i + 1, flag)?;
            self.input_prefixes.push(v);
            assert(texts(self.input_prefixes@) =~= old(self)@.input_prefixes.push(v@));
        } else if str_eq(flag, "--repair-interval-secs") || str_eq(
            flag,
            "--agent-repair-interval-secs",
        ) {
            *index = i + 1;
            let v = next_value(raw, i + 1, flag)?;
            self.interval_secs = parse_positive_u64(v.as_str())?;
        } else if str_eq(flag, "--repair-max-keys-per-prefix") || str_eq(
            flag,
            "--agent-repair-max-keys-per-prefix",
        ) {
            *index = i + 1;
            let v = next_value(raw, i + 1, flag)?;
            self.max_keys_per_prefix = parse_positive_usize(v.as_str())?;
        } else if str_eq(flag, "--repair-max-pages-per-prefix") || str_eq(
            flag,
            "--agent-repair-max-pages-per-prefix",
        ) {
            *index = i + 1;
            let v = next_value(raw, i + 1, flag)?;
            self.max_pages_per_prefix = parse_positive_usize(v.as_str())?;
        } else if str_eq(flag, "--repair-recent-partition-days") || str_eq(
            flag,
            "--agent-repair-recent-partition-days",
        ) {
            *index = i + 1;
            let v = next_value(raw, i + 1, flag)?;
            self.recent_partition_days = parse_non_negative_u32(v.as_str())?;
        } else if str_eq(flag, "--disable-repair") || str_eq(flag, "--agent-disable-repair") {
            self.enabled = false;
        } else {
            worker_args.push(raw[i].clone());
            assert(texts(worker_args@) =~= texts(old(worker_args)@) + seq![flag@]);
        }
        Ok(())
    }

    /// Checks that every configured prefix is a safe object key prefix.
    pub fn validate(&self) -> (r: Result<(), AppError>)
        ensures
            match first_prefix_error(self@.input_prefixes) {
                Some(m) => r matches Err(x) && x@ == AppErrorView::Config(m),
                None => r is Ok,
            },
    {
        let ghost ps = self@.input_prefixes;
        let mut i: usize = 0;
        assert(ps.skip(0) =~= ps);
        while i < self.input_prefixes.len()
            invariant
                ps == texts(self.input_prefixes@),
                i <= ps.len(),
                first_prefix_error(ps.skip(i as int)) == first_prefix_error(ps),
            decreases ps.len() - i,
        {
            assert(ps.skip(i as int)[0] == self.input_prefixes@[i as int]@);
            assert(ps.skip(i as int).drop_first() =~= ps.skip(i + 1));
            match validate_object_prefix(self.input_prefixes[i].as_str(), "--repair-input-prefix") {
                Err(e) => {
                    return Err(AppError::Config(e.to_string()));
                },
                Ok(()) => {},
            }
            i = i + 1;
        }
        assert(ps.skip(i as int).len() == 0);
        Ok(())
    }

    /// The agent arguments made of these repair settings and the worker's.
    pub fn into_agent_args(self, worker: WorkerArgs) -> (a: AgentArgs)
        ensures
            a@ == (AgentArgsView { worker: worker@, repair: self@ }),
    {
        AgentArgs {
            worker,
            repair_input_prefixes: self.input_prefixes,
            repair_interval_secs: self.interval_secs,
            repair_max_keys_per_prefix: self.max_keys_per_prefix,
            repair_max_pages_per_prefix: self.max_pages_per_prefix,
            repair_recent_partition_days: self.recent_partition_days,
            repair_enabled: self.enabled,
        }
    }
}

fn has_help(raw: &Vec<String>) -> (r: bool)
    ensures
        r == has_help_flag(texts(raw@)),
{
    let ghost t = texts(raw@);
    let mut i: usize = 0;
    while i < raw.len()
        invariant
            t == texts(raw@),
            i <= raw@.len(),
            forall|j: int| 0 <= j < i ==> !(#[trigger] t[j] == "-h"@ || t[j] == "--help"@),
        decreases raw@.len() - i,
    {
        assert(t[i as int] == raw@[i as int]@);
        if str_eq(raw[i].as_str(), "-h") || str_eq(raw[i].as_str(), "--help") {
            return true;
        }
        i = i + 1;
    }
    false
}

impl AgentArgs {
    /// Reads the agent's arguments. `-h` or `--help` anywhere gives
    /// `Ok(None)`. Repair flags are read here, every other argument goes to
    /// [`WorkerArgs::parse`], and each repair prefix must be a safe object
    /// key prefix.
    pub fn parse(values: Vec<String>) -> (r: Result<Option<AgentArgs>, AppError>)
        ensures
            match agent_parse_spec(texts(values@)) {
                Err(e) => r matches Err(x) && x@ == e,
                Ok(None) => r matches Ok(None),
                Ok(Some(v)) => r matches Ok(Some(a)) && a@ == v,
            },
    {
        let ghost raw = texts(values@);
        if has_help(&values) {
            return Ok(None);
        }
        let mut repair = RepairArgs::default();
        let mut worker_args: Vec<String> = Vec::new();
        let mut index: usize = 0;
        assert(texts(worker_args@) =~= seq![]);
        while index < values.len()
            invariant
                raw == texts(values@),
                !has_help_flag(raw),
                index <= values@.len() + 1,
                repair_fold(repair@, raw, index as int, texts(worker_args@)) == repair_fold(
                    default_repair_settings(),
                    raw,
                    0,
                    seq![],
                ),
            decreases values@.len() + 2 - index,
        {
            let ghost before = repair@;
            let ghost at = index as int;
            match repair.apply_arg(values.as_slice(), &mut index, &mut worker_args) {
                Err(e) => {
                    assert(repair_step(before, raw, at) is Err);
                    return Err(e);
                },
                Ok(()) => {},
            }
            index = index + 1;
        }
        repair.validate()?;
        let worker = match WorkerArgs::parse(worker_args) {
            Err(e) => {
                return Err(e);
            },
            Ok(None) => {
                return Ok(None);
            },
            Ok(Some(w)) => w,
        };
        Ok(Some(repair.into_agent_args(worker)))
    }
}

} // verus!
