use intel_candidate_app::model::{
    CandidateClass, ConfidenceBand, EventType, EvidenceQualityReason, MarketContextStatus,
};

#[test]
fn confidence_band_policy_keys_and_predicates() {
    let cases = [
        (ConfidenceBand::Weak, "weak", false, false),
        (ConfidenceBand::Low, "weak", false, false),
        (ConfidenceBand::Moderate, "moderate", true, false),
        (ConfidenceBand::Medium, "moderate", true, false),
        (ConfidenceBand::Strong, "strong", true, true),
        (ConfidenceBand::High, "strong", true, true),
        (ConfidenceBand::Unknown, "weak", false, false),
    ];
    for (band, key, research, strong) in cases {
        assert_eq!(band.as_policy_key(), key);
        assert_eq!(band.is_research_allowed(), research);
        assert_eq!(band.is_strong(), strong);
    }
    assert_eq!(ConfidenceBand::default(), ConfidenceBand::Unknown);
}

#[test]
fn event_type_policy_keys() {
    assert_eq!(EventType::ExchangeListing.as_policy_key(), "exchange_listing");
    assert_eq!(EventType::DepositWithdrawal.as_policy_key(), "deposit_withdrawal");
    assert_eq!(EventType::SocialHype.as_policy_key(), "social_hype");
    assert_eq!(EventType::default().as_policy_key(), "other");
    assert!(EventType::FundingShift.is_derivatives_like());
    assert!(!EventType::Listing.is_derivatives_like());
}

#[test]
fn quality_status_and_class_policy_keys() {
    assert_eq!(
        EvidenceQualityReason::DuplicateOrSyndicatedSource.as_policy_key(),
        "duplicate_or_syndicated_source"
    );
    assert_eq!(
        MarketContextStatus::AvailableSymbolContext.as_policy_key(),
        "available_symbol_context"
    );
    assert_eq!(MarketContextStatus::default().as_policy_key(), "unknown");
    assert_eq!(CandidateClass::ObserveOnly.as_policy_key(), "observe_only");
    assert!(CandidateClass::StrongCandidate.is_research_eligible());
    assert!(CandidateClass::ResearchCandidate.is_research_eligible());
    assert!(!CandidateClass::WeakCandidate.is_research_eligible());
    assert!(!CandidateClass::Quarantine.is_research_eligible());
}
