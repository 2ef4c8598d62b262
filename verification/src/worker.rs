//! Command-line settings shared by every long-running worker: where the NATS
//! pointer bus is, which buckets hold inputs, outputs and market data, the
//! scoring policy, and when to stop.
use crate::error::{AppError, AppErrorView};
use crate::policy::DEFAULT_POLICY_PATH;
use crate::text::{str_eq, texts};
use crate::values::{next_value, next_value_spec, parse_positive_usize, positive_spec};
use vstd::prelude::*;
use vstd::string::*;

verus! {

#[derive(Debug, Clone, PartialEq, Eq)]
pub struct NatsArgs {
    pub url: String,
}

#[derive(Debug, Clone, PartialEq, Eq)]
pub struct StoreArgs {
    pub bucket: String,
}

#[derive(Debug, Clone, PartialEq, Eq)]
pub struct WorkerArgs {
    pub nats: NatsArgs,
    pub input_store: StoreArgs,
    pub output_store: StoreArgs,
    pub market_store: StoreArgs,
    pub policy_file: String,
    pub max_messages: Option<usize>,
    pub exit_on_idle: bool,
}

/// The mathematical value of [`WorkerArgs`].
pub struct WorkerArgsView {
    pub nats_url: Seq<char>,
    pub input_bucket: Seq<char>,
    pub output_bucket: Seq<char>,
    pub market_bucket: Seq<char>,
    pub policy_file: Seq<char>,
    pub max_messages: Option<usize>,
    pub exit_on_idle: bool,
}

impl View for WorkerArgs {
    type V = WorkerArgsView;

    open spec fn view(&self) -> WorkerArgsView {
        WorkerArgsView {
            nats_url: self.nats.url@,
            input_bucket: self.input_store.bucket@,
            output_bucket: self.output_store.bucket@,
            market_bucket: self.market_store.bucket@,
            policy_file: self.policy_file@,
            max_messages: self.max_messages,
            exit_on_idle: self.exit_on_idle,
        }
    }
}

/// The worker settings read so far while scanning the arguments.
pub struct WorkerSettings {
    pub nats_url: Option<Seq<char>>,
    pub input_bucket: Option<Seq<char>>,
    pub output_bucket: Option<Seq<char>>,
    pub market_bucket: Option<Seq<char>>,
    pub policy_file: Seq<char>,
    pub max_messages: Option<usize>,
    pub exit_on_idle: bool,
}

pub open spec fn initial_worker_settings() -> WorkerSettings {
    WorkerSettings {
        nats_url: None,
        input_bucket: None,
        output_bucket: None,
        market_bucket: None,
        policy_file: DEFAULT_POLICY_PATH@,
        max_messages: None,
        exit_on_idle: false,
    }
}

/// One argument at index `i`: `Ok(None)` asks for help, `Ok(Some((s, c)))`
/// gives the new settings and whether the following value was consumed.
pub open spec fn worker_step(s: WorkerSettings, raw: Seq<Seq<char>>, i: int) -> Result<
    Option<(WorkerSettings, bool)>,
    AppErrorView,
> {
    let a = raw[i];
    if a == "-h"@ || a == "--help"@ {
        Ok(None)
    } else if a == "--nats-url"@ {
        match next_value_spec(raw, i + 1, a) {
            Err(e) => Err(e),
            Ok(v) => Ok(Some((WorkerSettings { nats_url: Some(v), ..s }, true))),
        }
    } else if a == "--input-s3-bucket"@ {
        match next_value_spec(raw, i + 1, a) {
            Err(e) => Err(e),
            Ok(v) => Ok(Some((WorkerSettings { input_bucket: Some(v), ..s }, true))),
        }
    } else if a == "--output-s3-bucket"@ {
        match next_value_spec(raw, i + 1, a) {
            Err(e) => Err(e),
            Ok(v) => Ok(Some((WorkerSettings { output_bucket: Some(v), ..s }, true))),
        }
    } else if a == "--market-l1-s3-bucket"@ {
        match next_value_spec(raw, i + 1, a) {
            Err(e) => Err(e),
            Ok(v) => Ok(Some((WorkerSettings { market_bucket: Some(v), ..s }, true))),
        }
    } else if a == "--policy-file"@ {
        match next_value_spec(raw, i + 1, a) {
            Err(e) => Err(e),
            Ok(v) => Ok(Some((WorkerSettings { policy_file: v, ..s }, true))),
        }
    } else if a == "--max-messages"@ {
        match next_value_spec(raw, i + 1, a) {
            Err(e) => Err(e),
            Ok(v) => match positive_spec(v, usize::MAX as int) {
                Err(e) => Err(e),
                Ok(n) => Ok(Some((WorkerSettings { max_messages: Some(n as usize), ..s }, true))),
            },
        }
    } else if a == "--exit-on-idle"@ {
        Ok(Some((WorkerSettings { exit_on_idle: true, ..s }, false)))
    } else {
        Err(AppErrorView::Config("unknown argument: "@ + a))
    }
}

/// Reads the arguments from index `i` on.
pub open spec fn worker_fold(s: WorkerSettings, raw: Seq<Seq<char>>, i: int) -> Result<
    Option<WorkerSettings>,
    AppErrorView,
>
    decreases raw.len() + 2 - i,
{
    if i < 0 || i >= raw.len() {
        Ok(Some(s))
    } else {
        match worker_step(s, raw, i) {
            Err(e) => Err(e),
            Ok(None) => Ok(None),
            Ok(Some((s2, consumed))) => worker_fold(s2, raw, if consumed { i + 2 } else { i + 1 }),
        }
    }
}

/// The required settings, checked in this order.
pub open spec fn worker_finish(s: WorkerSettings) -> Result<WorkerArgsView, AppErrorView> {
    if s.nats_url is None {
        Err(AppErrorView::Config("--nats-url is required"@))
    } else if s.input_bucket is None {
        Err(AppErrorView::Config("--input-s3-bucket is required"@))
    } else if s.output_bucket is None {
        Err(AppErrorView::Config("--output-s3-bucket is required"@))
    } else if s.market_bucket is None {
        Err(AppErrorView::Config("--market-l1-s3-bucket is required"@))
    } else {
        Ok(
            WorkerArgsView {
                nats_url: s.nats_url->0,
                input_bucket: s.input_bucket->0,
                output_bucket: s.output_bucket->0,
                market_bucket: s.market_bucket->0,
                policy_file: s.policy_file,
                max_messages: s.max_messages,
                exit_on_idle: s.exit_on_idle,
            },
        )
    }
}

/// What [`WorkerArgs::parse`] gives for the arguments `raw`.
pub open spec fn worker_parse_spec(raw: Seq<Seq<char>>) -> Result<
    Option<WorkerArgsView>,
    AppErrorView,
> {
    match worker_fold(initial_worker_settings(), raw, 0) {
        Err(e) => Err(e),
        Ok(None) => Ok(None),
        Ok(Some(s)) => match worker_finish(s) {
            Err(e) => Err(e),
            Ok(w) => Ok(Some(w)),
        },
    }
}

struct WorkerBuilder {
    nats_url: Option<String>,
    input_bucket: Option<String>,
    output_bucket: Option<String>,
    market_bucket: Option<String>,
    policy_file: String,
    max_messages: Option<usize>,
    exit_on_idle: bool,
}

spec fn opt_text(o: Option<String>) -> Option<Seq<char>> {
    match o {
        Some(s) => Some(s@),
        None => None,
    }
}

impl WorkerBuilder {
    spec fn settings(&self) -> WorkerSettings {
        WorkerSettings {
            nats_url: opt_text(self.nats_url),
            input_bucket: opt_text(self.input_bucket),
            output_bucket: opt_text(self.output_bucket),
            market_bucket: opt_text(self.market_bucket),
            policy_file: self.policy_file@,
            max_messages: self.max_messages,
            exit_on_idle: self.exit_on_idle,
        }
    }

    fn step(&mut self, raw: &[String], i: usize) -> (r: Result<Option<bool>, AppError>)
        requires
            i < raw@.len(),
        ensures
            match worker_step(old(self).settings(), texts(raw@), i as int) {
                Err(e) => r matches Err(x) && x@ == e,
                Ok(None) => r == Ok::<Option<bool>, AppError>(None),
                Ok(Some((s, c))) => r == Ok::<Option<bool>, AppError>(Some(c)) && final(self).settings()
                    == s,
            },
    {
        let a = raw[i].as_str();
        let ghost t = texts(raw@);
        assert(t[i as int] == a@);
        if str_eq(a, "-h") || str_eq(a, "--help") {
            return Ok(None);
        }
        if str_eq(a, "--nats-url") {
            let v = next_value(raw, i + 1, a)?;
            self.nats_url = Some(v);
            return Ok(Some(true));
        }
        if str_eq(a, "--input-s3-bucket") {
            let v = next_value(raw, i + 1, a)?;
            self.input_bucket = Some(v);
            return Ok(Some(true));
        }
        if str_eq(a, "--output-s3-bucket") {
            let v = next_value(raw, i + 1, a)?;
            self.output_bucket = Some(v);
            return Ok(Some(true));
        }
        if str_eq(a, "--market-l1-s3-bucket") {
            let v = next_value(raw, i + 1, a)?;
            self.market_bucket = Some(v);
            return Ok(Some(true));
        }
        if str_eq(a, "--policy-file") {
            let v = next_value(raw, i + 1, a)?;
            self.policy_file = v;
            return Ok(Some(true));
        }
        if str_eq(a, "--max-messages") {
            let v = next_value(raw, i + 1, a)?;
            let n = parse_positive_usize(v.as_str())?;
            self.max_messages = Some(n);
            return Ok(Some(true));
        }
        if str_eq(a, "--exit-on-idle") {
            self.exit_on_idle = true;
            return Ok(Some(false));
        }
        let mut msg = String::from_str("unknown argument: ");
        msg.append(a);
        Err(AppError::Config(msg))
    }
}

fn required(v: Option<String>, msg: &str) -> (r: Result<String, AppError>)
    ensures
        match v {
            Some(s) => r == Ok::<String, AppError>(s),
            None => r matches Err(x) && x@ == AppErrorView::Config(msg@),
        },
{
    match v {
        Some(s) => Ok(s),
        None => Err(AppError::Config(String::from_str(msg))),
    }
}

impl WorkerArgs {
    /// Reads the worker flags. `-h` or `--help` gives `Ok(None)`; every
    /// other argument must be a known flag, and the NATS URL and the three
    /// buckets are required.
    pub fn parse(values: Vec<String>) -> (r: Result<Option<WorkerArgs>, AppError>)
        ensures
            match worker_parse_spec(texts(values@)) {
                Err(e) => r matches Err(x) && x@ == e,
                Ok(None) => r matches Ok(None),
                Ok(Some(w)) => r matches Ok(Some(a)) && a@ == w,
            },
    {
        let mut b = WorkerBuilder {
            nats_url: None,
            input_bucket: None,
            output_bucket: None,
            market_bucket: None,
            policy_file: String::from_str(DEFAULT_POLICY_PATH),
            max_messages: None,
            exit_on_idle: false,
        };
        let ghost raw = texts(values@);
        let mut i: usize = 0;
        while i < values.len()
            invariant
                raw == texts(values@),
                i <= values@.len() + 1,
                worker_fold(b.settings(), raw, i as int) == worker_fold(
                    initial_worker_settings(),
                    raw,
                    0,
                ),
            decreases values@.len() + 2 - i,
        {
            match b.step(values.as_slice(), i) {
                Err(e) => {
                    return Err(e);
                },
                Ok(None) => {
                    return Ok(None);
                },
                Ok(Some(consumed)) => {
                    if consumed {
                        i = i + 2;
                    } else {
                        i = i + 1;
                    }
                },
            }
        }
        let nats_url = required(b.nats_url, "--nats-url is required")?;
        let input_bucket = required(b.input_bucket, "--input-s3-bucket is required")?;
        let output_bucket = required(b.output_bucket, "--output-s3-bucket is required")?;
        let market_bucket = required(b.market_bucket, "--market-l1-s3-bucket is required")?;
        Ok(
            Some(
                WorkerArgs {
                    nats: NatsArgs { url: nats_url },
                    input_store: StoreArgs { bucket: input_bucket },
                    output_store: StoreArgs { bucket: output_bucket },
                    market_store: StoreArgs { bucket: market_bucket },
                    policy_file: b.policy_file,
                    max_messages: b.max_messages,
                    exit_on_idle: b.exit_on_idle,
                },
            ),
        )
    }
}

pub const WORKER_HELP_HEAD: &'static str = "  --nats-url <url>                           Required. NATS server of the pointer bus.
  --input-s3-bucket <bucket>                 Required. Bucket of structured intel packets.
  --output-s3-bucket <bucket>                Required. Bucket of candidate artifacts.
  --market-l1-s3-bucket <bucket>             Required. Bucket of market L1 artifacts.
  --policy-file <path>                       Default: ";

pub const WORKER_HELP_TAIL: &'static str = "
  --max-messages <positive>                  Stop after this many live messages.
  --exit-on-idle                             Stop when no message is waiting.";

/// The worker flags' usage text.
pub open spec fn worker_help_text() -> Seq<char> {
    WORKER_HELP_HEAD@ + DEFAULT_POLICY_PATH@ + WORKER_HELP_TAIL@
}

/// The usage text of the worker flags.
pub fn worker_help() -> (r: String)
    ensures
        r@ == worker_help_text(),
{
    let mut r = String::from_str(WORKER_HELP_HEAD);
    r.append(DEFAULT_POLICY_PATH);
    r.append(WORKER_HELP_TAIL);
    r
}

} // verus!
