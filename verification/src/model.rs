//! The candidate data model: classifications and their policy keys, and
//! the records the pipeline reads and writes.
use vstd::prelude::*;

verus! {

pub const STRUCTURED_PACKET_SCHEMA_VERSION: &'static str = "structured_intel_packet_v1";

pub const STRUCTURED_POINTER_SCHEMA_VERSION: &'static str = "structured_pointer_v1";

pub const CANDIDATE_POINTER_SCHEMA_VERSION: &'static str = "intel_candidate_pointer_v1";

pub const CANDIDATE_BUNDLE_SCHEMA_VERSION: &'static str = "intel_candidate_evidence_bundle_v1";

pub const SCREENING_EVENT_SCHEMA_VERSION: &'static str = "intel_candidate_screening_event_v1";

pub const HYPOTHESIS_STATE_SCHEMA_VERSION: &'static str = "intel_candidate_hypothesis_state_v1";

pub const PRODUCER_APP: &'static str = "intel-candidate-app";

pub const CANDIDATE_REVISION_INDEX_SCHEMA_VERSION: &'static str = "intel_candidate_revision_index_v1";

/// How confident a resolution or a claim is.
#[derive(Debug, Clone, Copy, PartialEq, Eq, Default)]
pub enum ConfidenceBand {
    Weak,
    Low,
    Moderate,
    Medium,
    Strong,
    High,
    #[default]
    Unknown,
}

impl ConfidenceBand {
    /// The policy key: `strong`, `moderate` or `weak`.
    pub open spec fn policy_key_text(&self) -> Seq<char> {
        match self {
            ConfidenceBand::Weak => "weak"@,
            ConfidenceBand::Low => "weak"@,
            ConfidenceBand::Moderate => "moderate"@,
            ConfidenceBand::Medium => "moderate"@,
            ConfidenceBand::Strong => "strong"@,
            ConfidenceBand::High => "strong"@,
            ConfidenceBand::Unknown => "weak"@,
        }
    }

    /// The policy key: `strong`, `moderate` or `weak`.
    pub fn as_policy_key(&self) -> (r: &'static str)
        ensures
            r@ == self.policy_key_text(),
    {
        match self {
            ConfidenceBand::Weak => "weak",
            ConfidenceBand::Low => "weak",
            ConfidenceBand::Moderate => "moderate",
            ConfidenceBand::Medium => "moderate",
            ConfidenceBand::Strong => "strong",
            ConfidenceBand::High => "strong",
            ConfidenceBand::Unknown => "weak",
        }
    }

    /// Moderate or stronger confidence.
    pub open spec fn allows_research(&self) -> bool {
        *self is Moderate || *self is Medium || *self is Strong || *self is High
    }

    /// Strong or high confidence.
    pub open spec fn strong(&self) -> bool {
        *self is Strong || *self is High
    }

    /// Moderate or stronger confidence allows research.
    pub fn is_research_allowed(&self) -> (r: bool)
        ensures
            r == self.allows_research(),
    {
        match self {
            ConfidenceBand::Moderate | ConfidenceBand::Medium | ConfidenceBand::Strong
            | ConfidenceBand::High => true,
            _ => false,
        }
    }

    /// Strong or high confidence.
    pub fn is_strong(&self) -> (r: bool)
        ensures
            r == self.strong(),
    {
        match self {
            ConfidenceBand::Strong | ConfidenceBand::High => true,
            _ => false,
        }
    }
}

/// The kind of event a packet reports.
#[derive(Debug, Clone, Copy, PartialEq, Eq, Default)]
pub enum EventType {
    Listing,
    ExchangeListing,
    Delisting,
    ExchangeDelisting,
    DepositWithdrawal,
    Incident,
    Partnership,
    ProjectNotice,
    TokenUnlock,
    Governance,
    FundingShift,
    MacroEvent,
    Regulatory,
    SocialBacklash,
    SocialHype,
    #[default]
    Other,
}

impl EventType {
    /// The policy key: the variant's name in snake case.
    pub open spec fn policy_key_text(&self) -> Seq<char> {
        match self {
            EventType::Listing => "listing"@,
            EventType::ExchangeListing => "exchange_listing"@,
            EventType::Delisting => "delisting"@,
            EventType::ExchangeDelisting => "exchange_delisting"@,
            EventType::DepositWithdrawal => "deposit_withdrawal"@,
            EventType::Incident => "incident"@,
            EventType::Partnership => "partnership"@,
            EventType::ProjectNotice => "project_notice"@,
            EventType::TokenUnlock => "token_unlock"@,
            EventType::Governance => "governance"@,
            EventType::FundingShift => "funding_shift"@,
            EventType::MacroEvent => "macro_event"@,
            EventType::Regulatory => "regulatory"@,
            EventType::SocialBacklash => "social_backlash"@,
            EventType::SocialHype => "social_hype"@,
            EventType::Other => "other"@,
        }
    }

    /// The policy key: the variant's name in snake case.
    pub fn as_policy_key(&self) -> (r: &'static str)
        ensures
            r@ == self.policy_key_text(),
    {
        match self {
            EventType::Listing => "listing",
            EventType::ExchangeListing => "exchange_listing",
            EventType::Delisting => "delisting",
            EventType::ExchangeDelisting => "exchange_delisting",
            EventType::DepositWithdrawal => "deposit_withdrawal",
            EventType::Incident => "incident",
            EventType::Partnership => "partnership",
            EventType::ProjectNotice => "project_notice",
            EventType::TokenUnlock => "token_unlock",
            EventType::Governance => "governance",
            EventType::FundingShift => "funding_shift",
            EventType::MacroEvent => "macro_event",
            EventType::Regulatory => "regulatory",
            EventType::SocialBacklash => "social_backlash",
            EventType::SocialHype => "social_hype",
            EventType::Other => "other",
        }
    }

    /// Only a funding shift is derivatives-like.
    pub fn is_derivatives_like(&self) -> (r: bool)
        ensures
            r == (*self is FundingShift),
    {
        match self {
            EventType::FundingShift => true,
            _ => false,
        }
    }
}

/// A contradiction found between the sources of a packet.
#[derive(Debug, Clone, Copy, PartialEq, Eq, PartialOrd, Ord)]
pub enum ContradictionFlag {
    TimeMismatch,
    SymbolAmbiguity,
    SourceClaimConflict,
    RumorVsOfficial,
    TitleBodyMismatch,
    EvidenceWeak,
}

/// Why the evidence of a packet is of limited quality.
#[derive(Debug, Clone, Copy, PartialEq, Eq, PartialOrd, Ord)]
pub enum EvidenceQualityReason {
    BaselineMissing,
    SingleNumericSnapshot,
    SingleSourceOnly,
    TitleOnly,
    SymbolAmbiguous,
    MarketContextMissing,
    DuplicateOrSyndicatedSource,
    ApprovedUniverseMissing,
}

impl EvidenceQualityReason {
    /// The policy key: the variant's name in snake case.
    pub open spec fn policy_key_text(&self) -> Seq<char> {
        match self {
            EvidenceQualityReason::BaselineMissing => "baseline_missing"@,
            EvidenceQualityReason::SingleNumericSnapshot => "single_numeric_snapshot"@,
            EvidenceQualityReason::SingleSourceOnly => "single_source_only"@,
            EvidenceQualityReason::TitleOnly => "title_only"@,
            EvidenceQualityReason::SymbolAmbiguous => "symbol_ambiguous"@,
            EvidenceQualityReason::MarketContextMissing => "market_context_missing"@,
            EvidenceQualityReason::DuplicateOrSyndicatedSource => "duplicate_or_syndicated_source"@,
            EvidenceQualityReason::ApprovedUniverseMissing => "approved_universe_missing"@,
        }
    }

    /// The policy key: the variant's name in snake case.
    pub fn as_policy_key(&self) -> (r: &'static str)
        ensures
            r@ == self.policy_key_text(),
    {
        match self {
            EvidenceQualityReason::BaselineMissing => "baseline_missing",
            EvidenceQualityReason::SingleNumericSnapshot => "single_numeric_snapshot",
            EvidenceQualityReason::SingleSourceOnly => "single_source_only",
            EvidenceQualityReason::TitleOnly => "title_only",
            EvidenceQualityReason::SymbolAmbiguous => "symbol_ambiguous",
            EvidenceQualityReason::MarketContextMissing => "market_context_missing",
            EvidenceQualityReason::DuplicateOrSyndicatedSource => "duplicate_or_syndicated_source",
            EvidenceQualityReason::ApprovedUniverseMissing => "approved_universe_missing",
        }
    }
}

/// Whether market context is available for a packet.
#[derive(Debug, Clone, Copy, PartialEq, Eq, Default)]
pub enum MarketContextStatus {
    Available,
    AvailableSymbolContext,
    AvailableGeneralContext,
    NearestAvailable,
    SymbolContextOnly,
    StaleButUsable,
    Pending,
    Unavailable,
    #[default]
    Unknown,
}

impl MarketContextStatus {
    /// The policy key: the variant's name in snake case.
    pub open spec fn policy_key_text(&self) -> Seq<char> {
        match self {
            MarketContextStatus::Available => "available"@,
            MarketContextStatus::AvailableSymbolContext => "available_symbol_context"@,
            MarketContextStatus::AvailableGeneralContext => "available_general_context"@,
            MarketContextStatus::NearestAvailable => "nearest_available"@,
            MarketContextStatus::SymbolContextOnly => "symbol_context_only"@,
            MarketContextStatus::StaleButUsable => "stale_but_usable"@,
            MarketContextStatus::Pending => "pending"@,
            MarketContextStatus::Unavailable => "unavailable"@,
            MarketContextStatus::Unknown => "unknown"@,
        }
    }

    /// The policy key: the variant's name in snake case.
    pub fn as_policy_key(&self) -> (r: &'static str)
        ensures
            r@ == self.policy_key_text(),
    {
        match self {
            MarketContextStatus::Available => "available",
            MarketContextStatus::AvailableSymbolContext => "available_symbol_context",
            MarketContextStatus::AvailableGeneralContext => "available_general_context",
            MarketContextStatus::NearestAvailable => "nearest_available",
            MarketContextStatus::SymbolContextOnly => "symbol_context_only",
            MarketContextStatus::StaleButUsable => "stale_but_usable",
            MarketContextStatus::Pending => "pending",
            MarketContextStatus::Unavailable => "unavailable",
            MarketContextStatus::Unknown => "unknown",
        }
    }
}

/// The screening class of a candidate.
#[derive(Debug, Clone, Copy, PartialEq, Eq)]
pub enum CandidateClass {
    StrongCandidate,
    ResearchCandidate,
    WeakCandidate,
    ObserveOnly,
    Reject,
    Quarantine,
}

impl CandidateClass {
    /// The policy key: the variant's name in snake case.
    pub open spec fn policy_key_text(&self) -> Seq<char> {
        match self {
            CandidateClass::StrongCandidate => "strong_candidate"@,
            CandidateClass::ResearchCandidate => "research_candidate"@,
            CandidateClass::WeakCandidate => "weak_candidate"@,
            CandidateClass::ObserveOnly => "observe_only"@,
            CandidateClass::Reject => "reject"@,
            CandidateClass::Quarantine => "quarantine"@,
        }
    }

    /// The policy key: the variant's name in snake case.
    pub fn as_policy_key(&self) -> (r: &'static str)
        ensures
            r@ == self.policy_key_text(),
    {
        match self {
            CandidateClass::StrongCandidate => "strong_candidate",
            CandidateClass::ResearchCandidate => "research_candidate",
            CandidateClass::WeakCandidate => "weak_candidate",
            CandidateClass::ObserveOnly => "observe_only",
            CandidateClass::Reject => "reject",
            CandidateClass::Quarantine => "quarantine",
        }
    }

    /// Strong and research candidates are eligible for research.
    pub fn is_research_eligible(&self) -> (r: bool)
        ensures
            r == (*self is StrongCandidate || *self is ResearchCandidate),
    {
        match self {
            CandidateClass::StrongCandidate | CandidateClass::ResearchCandidate => true,
            _ => false,
        }
    }
}

/// How a raw symbol mention was resolved to a canonical symbol.
#[derive(Debug, Clone, PartialEq, Eq)]
pub struct SymbolResolutionTrace {
    pub raw_mentions: Vec<String>,
    pub resolved_project: Option<String>,
    pub resolved_asset: Option<String>,
    pub canonical_symbol: Option<String>,
    pub venue_symbols: Vec<String>,
    pub mapping_confidence: ConfidenceBand,
    pub ambiguity_reason: Option<String>,
}

/// How independent the sources behind a packet are.
#[derive(Debug, Clone, PartialEq, Eq)]
pub struct SourceIndependenceSummary {
    pub source_event_count: usize,
    pub independent_source_count: usize,
    pub official_source_present: bool,
    pub duplicate_content_hashes: Vec<String>,
    pub syndicated_from: Option<String>,
    pub original_source_ids: Vec<String>,
}

/// A sentence of evidence and where it came from.
#[derive(Debug, Clone, PartialEq, Eq)]
pub struct TextEvidence {
    pub evidence_text: String,
    pub source_event_id: String,
    pub source_id: String,
    pub published_at_ms: Option<i64>,
    pub evidence_kind: String,
}

/// Pointers to the market-data artifacts that give a packet its market context.
#[derive(Debug, Clone, PartialEq, Eq)]
pub struct MarketContextRef {
    pub status: MarketContextStatus,
    pub basis_timestamp_ms: Option<i64>,
    pub basis_kind: String,
    pub window_start_ms: Option<i64>,
    pub window_end_ms: Option<i64>,
    pub manifest_key: Option<String>,
    pub output_object_keys: Vec<String>,
    pub market_data_quality_summary_key: Option<String>,
    pub market_feature_delta_key: Option<String>,
    pub market_feature_delta_summary_key: Option<String>,
    pub market_regime_context_key: Option<String>,
    pub symbol_universe_snapshot_key: Option<String>,
}

/// The window of time in which an event is relevant.
#[derive(Debug, Clone, PartialEq, Eq)]
pub struct TimeRelevanceWindow {
    pub start_ms: i64,
    pub end_ms: i64,
    pub relevance_decay_hint: String,
}

/// One named contribution to a candidate score.
#[derive(Debug, Clone, PartialEq, Eq)]
pub struct ScoreComponent {
    pub name: String,
    pub value: i64,
    pub reason: String,
}

/// The components of a candidate score and the final score.
#[derive(Debug, Clone, PartialEq, Eq)]
pub struct ScoreBreakdown {
    pub components: Vec<ScoreComponent>,
    pub final_score: i64,
}

/// A pointer to the market data quality summary and its status.
#[derive(Debug, Clone, PartialEq, Eq)]
pub struct DataQualitySummaryRef {
    pub market_data_quality_summary_key: Option<String>,
    pub status: String,
}

/// Which market artifact was selected as evidence, and its time window.
#[derive(Debug, Clone, PartialEq, Eq)]
pub struct SelectedMarketArtifactTrace {
    pub artifact_type: String,
    pub artifact_id: String,
    pub artifact_key: Option<String>,
    pub l1_run_id: Option<String>,
    pub symbol_canonical: Option<String>,
    pub metric_name: Option<String>,
    pub scope: Option<String>,
    pub window_start_ms: i64,
    pub window_end_ms: i64,
    pub known_as_of_ms: i64,
    pub quality_status: String,
}

/// What a research harness must do to validate a candidate.
#[derive(Debug, Clone, PartialEq, Eq)]
pub struct ValidationRequirements {
    pub required_adapters: Vec<String>,
    pub optional_adapters: Vec<String>,
    pub min_unseen_windows: usize,
    pub include_fee: bool,
    pub include_slippage: bool,
    pub include_latency_assumption: bool,
    pub include_liquidity_filter: bool,
    pub required_train_validation_split: bool,
    pub max_adapter_runtime_minutes: usize,
}

/// The screening decision made for one structured packet.
#[derive(Debug, Clone, PartialEq, Eq)]
pub struct IntelCandidateScreeningEvent {
    pub screening_event_id: String,
    pub schema_version: String,
    pub producer_app: String,
    pub created_at_ms: i64,
    pub input_packet_id: String,
    pub input_packet_family_id: String,
    pub input_packet_revision: u32,
    pub source_structured_packet_ids: Vec<String>,
    pub supersedes_packet_id: Option<String>,
    pub supersedes_screening_event_id: Option<String>,
    pub scoring_policy_version: String,
    pub candidate_class: CandidateClass,
    pub candidate_score: i64,
    pub score_breakdown: ScoreBreakdown,
    pub research_eligible: bool,
    pub quarantine: bool,
    pub reasons: Vec<String>,
    pub candidate_id: Option<String>,
    pub idempotency_key: String,
}

/// The current state of a candidate hypothesis.
#[derive(Debug, Clone, PartialEq, Eq)]
pub struct IntelCandidateHypothesisState {
    pub hypothesis_id: String,
    pub state_key: String,
    pub schema_version: String,
    pub producer_app: String,
    pub producer_version: String,
    pub created_at_ms: i64,
    pub updated_at_ms: i64,
    pub input_packet_id: String,
    pub input_packet_family_id: String,
    pub input_packet_revision: u32,
    pub source_structured_packet_ids: Vec<String>,
    pub source_event_ids: Vec<String>,
    pub supersedes_packet_id: Option<String>,
    pub supersedes_hypothesis_id: Option<String>,
    pub latest_screening_event_id: String,
    pub scoring_policy_version: String,
    pub normalized_symbols: Vec<String>,
    pub event_type: String,
    pub hypothesis_type: String,
    pub current_state: CandidateClass,
    pub current_score: i64,
    pub previous_score: Option<i64>,
    pub research_eligible: bool,
    pub transition: String,
    pub next_action: String,
    pub reasons: Vec<String>,
    pub retryable_reasons: Vec<String>,
    pub terminal_reasons: Vec<String>,
    pub selected_market_artifacts: Vec<SelectedMarketArtifactTrace>,
    pub market_context_ref: Option<MarketContextRef>,
    pub market_context_status: MarketContextStatus,
    pub evidence_quality_reasons: Vec<EvidenceQualityReason>,
    pub score_breakdown: ScoreBreakdown,
    pub lineage_refs: Vec<String>,
    pub dirty_triggers: Vec<String>,
    pub harness_queue_hint: String,
    pub idempotency_key: String,
    pub checksum: String,
}

/// The latest revision seen for a packet family.
#[derive(Debug, Clone, PartialEq, Eq)]
pub struct CandidateRevisionIndex {
    pub schema_version: String,
    pub packet_family_id: String,
    pub latest_packet_revision: u32,
    pub latest_packet_id: String,
    pub latest_screening_event_id: String,
    pub latest_candidate_id: Option<String>,
    pub updated_at_ms: i64,
}

/// Strong confidence always allows research, and the policy key tells the
/// grade: `strong` exactly for strong confidence, `weak` exactly where
/// research is not allowed.
pub proof fn lemma_confidence_band_laws(b: ConfidenceBand)
    ensures
        b.strong() ==> b.allows_research(),
        b.policy_key_text() == "strong"@ <==> b.strong(),
        b.policy_key_text() == "weak"@ <==> !b.allows_research(),
{
    reveal_strlit("strong");
    reveal_strlit("moderate");
    reveal_strlit("weak");
    assert("strong"@ != "weak"@ && "strong"@ != "moderate"@ && "weak"@ != "moderate"@) by {
        assert("strong"@[0] != "weak"@[0]);
        assert("strong"@[0] != "moderate"@[0]);
        assert("weak"@[0] != "moderate"@[0]);
    }
}

/// Every candidate class has a policy key of its own: two classes with the
/// same key are the same class.
pub proof fn lemma_candidate_class_keys_distinct(a: CandidateClass, b: CandidateClass)
    ensures
        a.policy_key_text() == b.policy_key_text() ==> a == b,
{
    reveal_strlit("strong_candidate");
    reveal_strlit("research_candidate");
    reveal_strlit("weak_candidate");
    reveal_strlit("observe_only");
    reveal_strlit("reject");
    reveal_strlit("quarantine");
    if a.policy_key_text() == b.policy_key_text() {
        assert(a.policy_key_text().len() == b.policy_key_text().len());
        match a {
            CandidateClass::StrongCandidate => assert(a.policy_key_text()[0] == 's'),
            CandidateClass::ResearchCandidate => assert(a.policy_key_text()[1] == 'e'),
            CandidateClass::WeakCandidate => assert(a.policy_key_text()[0] == 'w'),
            CandidateClass::ObserveOnly => assert(a.policy_key_text()[0] == 'o'),
            CandidateClass::Reject => assert(a.policy_key_text()[1] == 'e'),
            CandidateClass::Quarantine => assert(a.policy_key_text()[0] == 'q'),
        }
    }
}

/// Every event type has a policy key of its own: two event types with the
/// same key are the same event type.
pub proof fn lemma_event_type_keys_distinct(a: EventType, b: EventType)
    ensures
        a.policy_key_text() == b.policy_key_text() ==> a == b,
{
    reveal_strlit("listing");
    reveal_strlit("exchange_listing");
    reveal_strlit("delisting");
    reveal_strlit("exchange_delisting");
    reveal_strlit("deposit_withdrawal");
    reveal_strlit("incident");
    reveal_strlit("partnership");
    reveal_strlit("project_notice");
    reveal_strlit("token_unlock");
    reveal_strlit("governance");
    reveal_strlit("funding_shift");
    reveal_strlit("macro_event");
    reveal_strlit("regulatory");
    reveal_strlit("social_backlash");
    reveal_strlit("social_hype");
    reveal_strlit("other");
    if a.policy_key_text() == b.policy_key_text() {
        assert(a.policy_key_text().len() == b.policy_key_text().len());
        assert(a.policy_key_text()[0] == b.policy_key_text()[0]);
    }
}

/// Every evidence-quality reason has a policy key of its own.
pub proof fn lemma_evidence_quality_keys_distinct(a: EvidenceQualityReason, b: EvidenceQualityReason)
    ensures
        a.policy_key_text() == b.policy_key_text() ==> a == b,
{
    reveal_strlit("baseline_missing");
    reveal_strlit("single_numeric_snapshot");
    reveal_strlit("single_source_only");
    reveal_strlit("title_only");
    reveal_strlit("symbol_ambiguous");
    reveal_strlit("market_context_missing");
    reveal_strlit("duplicate_or_syndicated_source");
    reveal_strlit("approved_universe_missing");
    if a.policy_key_text() == b.policy_key_text() {
        assert(a.policy_key_text().len() == b.policy_key_text().len());
        assert(a.policy_key_text()[0] == b.policy_key_text()[0]);
    }
}

/// Every market-context status has a policy key of its own.
pub proof fn lemma_market_context_keys_distinct(a: MarketContextStatus, b: MarketContextStatus)
    ensures
        a.policy_key_text() == b.policy_key_text() ==> a == b,
{
    reveal_strlit("available");
    reveal_strlit("available_symbol_context");
    reveal_strlit("available_general_context");
    reveal_strlit("nearest_available");
    reveal_strlit("symbol_context_only");
    reveal_strlit("stale_but_usable");
    reveal_strlit("pending");
    reveal_strlit("unavailable");
    reveal_strlit("unknown");
    if a.policy_key_text() == b.policy_key_text() {
        assert(a.policy_key_text().len() == b.policy_key_text().len());
        assert(a.policy_key_text()[0] == b.policy_key_text()[0]);
        assert(a.policy_key_text()[a.policy_key_text().len() - 1] == b.policy_key_text()[b.policy_key_text().len() - 1]);
    }
}

} // verus!
