//! Where the scoring policy lives.
use vstd::prelude::*;

verus! {

/// The scoring policy read when `--policy-file` is not given.
pub const DEFAULT_POLICY_PATH: &'static str = "policies/scoring-policy.v1.json";

} // verus!
