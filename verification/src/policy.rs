//! Calibrated abstention: confidence, retrieval and popularity tier give
//! one of three outcomes (answer, ground, abstain).
//!
//! The default thresholds are conservative: when in doubt, don't.

use vstd::prelude::*;
use crate::traits::AbstentionPolicy;
use crate::types::{AbstainReason, AttestedRetrieval, Confidence, Decision, PopularityTier};

verus! {

/// Thresholds of the abstention policy; scores are in millionths.
#[derive(Debug, Clone, Copy)]
pub struct ThresholdPolicy {
    pub answer_threshold: u32,
    pub ground_threshold: u32,
    pub min_citations: usize,
    pub require_retrieval_for_long_tail: bool,
}

/// Whether a tier lies in the failure region (long tail or unknown).
pub open spec fn is_long_tail_or_unknown(tier: PopularityTier) -> bool {
    tier == PopularityTier::LongTail || tier == PopularityTier::Unknown
}

/// The decision of `policy` on a score, on whether retrieval returned any
/// document, and on a tier.
pub open spec fn threshold_decision(
    policy: ThresholdPolicy,
    score: u32,
    has_documents: bool,
    tier: PopularityTier,
) -> Decision {
    if policy.require_retrieval_for_long_tail && is_long_tail_or_unknown(tier) && !has_documents {
        Decision::Abstain { reason: AbstainReason::LongTailEntity { identifier: None } }
    } else if score >= policy.answer_threshold && has_documents {
        Decision::Answer
    } else if score >= policy.ground_threshold {
        Decision::Ground { min_citations: policy.min_citations }
    } else {
        Decision::Abstain { reason: AbstainReason::LowCalibratedConfidence { score } }
    }
}

/// The defaults: answer at 0.85, ground at 0.50, two citations, and
/// retrieval required for long-tail entities.
pub open spec fn default_threshold_policy() -> ThresholdPolicy {
    ThresholdPolicy {
        answer_threshold: 850_000,
        ground_threshold: 500_000,
        min_citations: 2,
        require_retrieval_for_long_tail: true,
    }
}

impl Default for ThresholdPolicy {
    fn default() -> (r: Self)
        ensures
            r == default_threshold_policy(),
    {
        ThresholdPolicy {
            answer_threshold: 850_000,
            ground_threshold: 500_000,
            min_citations: 2,
            require_retrieval_for_long_tail: true,
        }
    }
}

impl ThresholdPolicy {
    /// Decides on a confidence, a retrieval and the entity's tier.
    ///
    /// A long-tail or unknown entity with no retrieved document abstains
    /// whatever the score (where the policy requires retrieval for them).
    pub fn decide_with_tier(
        &self,
        confidence: &Confidence,
        retrieval: &AttestedRetrieval,
        tier: PopularityTier,
    ) -> (d: Decision)
        ensures
            d == threshold_decision(*self, confidence.score, retrieval.documents@.len() > 0, tier),
    {
        let has_documents = retrieval.documents.len() > 0;
        if self.require_retrieval_for_long_tail
            && (tier == PopularityTier::LongTail || tier == PopularityTier::Unknown)
            && !has_documents
        {
            return Decision::Abstain { reason: AbstainReason::LongTailEntity { identifier: None } };
        }
        if confidence.score >= self.answer_threshold && has_documents {
            Decision::Answer
        } else if confidence.score >= self.ground_threshold {
            Decision::Ground { min_citations: self.min_citations }
        } else {
            Decision::Abstain {
                reason: AbstainReason::LowCalibratedConfidence { score: confidence.score },
            }
        }
    }
}

impl AbstentionPolicy for ThresholdPolicy {
    /// Without a tier at the call site the entity is taken as unknown,
    /// which makes retrieval a requirement.
    fn decide(&self, confidence: &Confidence, retrieval: &AttestedRetrieval) -> (d: Decision)
        ensures
            d == threshold_decision(
                *self,
                confidence.score,
                retrieval.documents@.len() > 0,
                PopularityTier::Unknown,
            ),
    {
        self.decide_with_tier(confidence, retrieval, PopularityTier::Unknown)
    }
}

/// A long-tail or unknown entity with zero retrieval hits abstains as a
/// long-tail entity, whatever its confidence score.
pub proof fn law_long_tail_without_retrieval_abstains(
    policy: ThresholdPolicy,
    score: u32,
    tier: PopularityTier,
)
    requires
        policy.require_retrieval_for_long_tail,
        is_long_tail_or_unknown(tier),
    ensures
        threshold_decision(policy, score, false, tier) == (Decision::Abstain {
            reason: AbstainReason::LongTailEntity { identifier: None },
        }),
{
}

/// The policy answers directly only with at least one retrieved document
/// and a score at or above the answer threshold.
pub proof fn law_answer_needs_documents_and_confidence(
    policy: ThresholdPolicy,
    score: u32,
    has_documents: bool,
    tier: PopularityTier,
)
    requires
        threshold_decision(policy, score, has_documents, tier) is Answer,
    ensures
        has_documents,
        score >= policy.answer_threshold,
{
}

/// A score below the grounding threshold never yields an answer or a
/// grounded response.
pub proof fn law_low_score_abstains(
    policy: ThresholdPolicy,
    score: u32,
    has_documents: bool,
    tier: PopularityTier,
)
    requires
        score < policy.ground_threshold,
        policy.ground_threshold <= policy.answer_threshold,
    ensures
        threshold_decision(policy, score, has_documents, tier) is Abstain,
{
}

/// Raising the score never turns a grounded or direct answer into an
/// abstention.
pub proof fn law_decision_monotone_in_score(
    policy: ThresholdPolicy,
    low: u32,
    high: u32,
    has_documents: bool,
    tier: PopularityTier,
)
    requires
        low <= high,
        !(threshold_decision(policy, low, has_documents, tier) is Abstain),
    ensures
        !(threshold_decision(policy, high, has_documents, tier) is Abstain),
{
}

/// Deciding without a tier treats the entity as unknown: with retrieval
/// required for long-tail entities, an empty retrieval always abstains.
pub proof fn law_decide_without_tier_requires_retrieval(policy: ThresholdPolicy, score: u32)
    requires
        policy.require_retrieval_for_long_tail,
    ensures
        threshold_decision(policy, score, false, PopularityTier::Unknown) == (Decision::Abstain {
            reason: AbstainReason::LongTailEntity { identifier: None },
        }),
{
}

/// With the default thresholds, a direct answer needs a score of at least
/// 0.85 and grounding at least 0.50.
pub proof fn law_default_thresholds(score: u32, has_documents: bool, tier: PopularityTier)
    ensures
        threshold_decision(default_threshold_policy(), score, has_documents, tier) is Answer ==> score >= 850_000,
        threshold_decision(default_threshold_policy(), score, has_documents, tier) is Ground ==> 500_000 <= score,
        score < 500_000 ==> threshold_decision(default_threshold_policy(), score, has_documents, tier) is Abstain,
{
}

/// The tier counts only for long-tail and unknown entities, and only where
/// retrieval came back empty and the policy requires it: head and torso
/// entities are decided alike, by score and retrieval alone. Without
/// documents a head or torso entity is grounded from the grounding threshold
/// up and otherwise abstains for low confidence, never as a long-tail entity.
pub proof fn law_tier_counts_only_for_the_long_tail(policy: ThresholdPolicy, score: u32, has_documents: bool)
    ensures
        threshold_decision(policy, score, has_documents, PopularityTier::Torso)
            == threshold_decision(policy, score, has_documents, PopularityTier::Head),
        has_documents ==> threshold_decision(policy, score, true, PopularityTier::LongTail)
            == threshold_decision(policy, score, true, PopularityTier::Head),
        has_documents ==> threshold_decision(policy, score, true, PopularityTier::Unknown)
            == threshold_decision(policy, score, true, PopularityTier::Head),
        !policy.require_retrieval_for_long_tail ==> threshold_decision(
            policy,
            score,
            has_documents,
            PopularityTier::LongTail,
        ) == threshold_decision(policy, score, has_documents, PopularityTier::Head),
        !policy.require_retrieval_for_long_tail ==> threshold_decision(
            policy,
            score,
            has_documents,
            PopularityTier::Unknown,
        ) == threshold_decision(policy, score, has_documents, PopularityTier::Head),
        threshold_decision(policy, score, false, PopularityTier::Head) == if score >= policy.ground_threshold {
            Decision::Ground { min_citations: policy.min_citations }
        } else {
            Decision::Abstain { reason: AbstainReason::LowCalibratedConfidence { score } }
        },
        threshold_decision(policy, score, true, PopularityTier::Head) == if score >= policy.answer_threshold {
            Decision::Answer
        } else if score >= policy.ground_threshold {
            Decision::Ground { min_citations: policy.min_citations }
        } else {
            Decision::Abstain { reason: AbstainReason::LowCalibratedConfidence { score } }
        },
{
}

} // verus!
