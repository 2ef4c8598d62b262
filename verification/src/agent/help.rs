//! The agent's usage text.
use crate::agent::args::{
    DEFAULT_REPAIR_INTERVAL_SECS, DEFAULT_REPAIR_MAX_KEYS_PER_PREFIX,
    DEFAULT_REPAIR_MAX_PAGES_PER_PREFIX, DEFAULT_REPAIR_RECENT_PARTITION_DAYS,
};
use crate::policy::DEFAULT_POLICY_PATH;
use crate::text::{decimal, push_decimal};
use crate::worker::{worker_help, worker_help_text};
use vstd::prelude::*;
use vstd::string::*;

verus! {

pub const AGENT_HELP_USAGE: &'static str = "intel-candidate-agent
Usage:
  intel-candidate-agent \\
    --nats-url nats://REPLACE_WITH_S2S_NATS_HOST:4222 \\
    --input-s3-bucket nangman-crypto-dev-intel-structuring-l1-<account-suffix> \\
    --output-s3-bucket nangman-crypto-dev-intel-candidate-<account-suffix> \\
    --market-l1-s3-bucket nangman-crypto-dev-market-ingest-l1-<account-suffix> \\
    --policy-file ";

pub const AGENT_HELP_FLAGS: &'static str = " \\
    --repair-input-prefix structured-intel-packet/schema=structured_intel_packet_v1/

The agent is the default AI-DLC execution unit. It continuously consumes live
structured intel pointers from NATS and runs bounded S3 repair scans inside the
same process when configured. S3 remains the canonical store; NATS remains the
pointer bus.

Agent-specific flags:
  --repair-input-prefix <s3-prefix>          Repeatable. Enables bounded S3 repair scans.
  --repair-interval-secs <positive>          Default: ";

pub const AGENT_HELP_MAX_KEYS: &'static str = "
  --repair-max-keys-per-prefix <positive>    Default: ";

pub const AGENT_HELP_MAX_PAGES: &'static str = "
  --repair-max-pages-per-prefix <positive>   Default: ";

pub const AGENT_HELP_RECENT_DAYS: &'static str = "
  --repair-recent-partition-days <count>     Default: ";

pub const AGENT_HELP_TAIL: &'static str = ". Adds recent dt=YYYY-MM-DD prefixes before broad scans.
  --disable-repair                           Disable repair scans even when prefixes are configured.

Worker flags:
";

/// The agent's usage text: the usage line, the repair flags with their
/// defaults, and the worker flags.
pub open spec fn agent_help_text() -> Seq<char> {
    AGENT_HELP_USAGE@ + DEFAULT_POLICY_PATH@ + AGENT_HELP_FLAGS@ + decimal(
        DEFAULT_REPAIR_INTERVAL_SECS as nat,
    ) + AGENT_HELP_MAX_KEYS@ + decimal(DEFAULT_REPAIR_MAX_KEYS_PER_PREFIX as nat)
        + AGENT_HELP_MAX_PAGES@ + decimal(DEFAULT_REPAIR_MAX_PAGES_PER_PREFIX as nat)
        + AGENT_HELP_RECENT_DAYS@ + decimal(DEFAULT_REPAIR_RECENT_PARTITION_DAYS as nat)
        + AGENT_HELP_TAIL@ + worker_help_text() + "\n"@
}

/// The agent's usage text.
pub fn agent_help() -> (r: String)
    ensures
        r@ == agent_help_text(),
{
    let mut r = String::from_str(AGENT_HELP_USAGE);
    r.append(DEFAULT_POLICY_PATH);
    r.append(AGENT_HELP_FLAGS);
    push_decimal(&mut r, DEFAULT_REPAIR_INTERVAL_SECS);
    r.append(AGENT_HELP_MAX_KEYS);
    push_decimal(&mut r, DEFAULT_REPAIR_MAX_KEYS_PER_PREFIX as u64);
    r.append(AGENT_HELP_MAX_PAGES);
    push_decimal(&mut r, DEFAULT_REPAIR_MAX_PAGES_PER_PREFIX as u64);
    r.append(AGENT_HELP_RECENT_DAYS);
    push_decimal(&mut r, DEFAULT_REPAIR_RECENT_PARTITION_DAYS as u64);
    r.append(AGENT_HELP_TAIL);
    let w = worker_help();
    r.append(w.as_str());
    r.append("\n");
    r
}

} // verus!
