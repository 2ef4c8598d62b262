//! Verified core of the intel candidate application: command-line parsing
//! for the agent, the live worker, the replay worker and the one-shot CLI;
//! the decisions of the live and agent loops; the bounded repair-scan
//! bookkeeping; the replay run's keys, counters and report; object-key and
//! output-path safety rules; stable identifiers; calendar partitions; and
//! the policy keys of the candidate model.

pub mod error;
pub mod text;
pub mod paths;
pub mod values;
pub mod worker;
pub mod agent;
pub mod time;
pub mod hash;
pub mod model;
pub mod policy;
pub mod cli;
pub mod replay;
pub mod live;
pub mod order;
