//! The contracts that every component of the stack implements.

use vstd::prelude::*;
use crate::error::AssuranceError;
use crate::types::{
    AttestedRetrieval, Confidence, Decision, EntityCandidate, GroundedPrompt, ProvenanceSource,
    ProvenancedOutput, Query,
};

verus! {

/// Resolves a mention to a candidate with registry identifiers.
pub trait EntityResolver {
    fn resolve(&self, surface: &str) -> Result<EntityCandidate, AssuranceError>;
}

/// Estimates factual confidence for a resolved entity.
pub trait ConfidenceScorer {
    fn score(&self, entity: &EntityCandidate) -> Result<Confidence, AssuranceError>;
}

/// Retrieves documents under a signed attestation.
pub trait RetrievalProvider {
    fn retrieve(&self, query: &Query) -> Result<AttestedRetrieval, AssuranceError>;
}

/// Decides whether to answer, ground or abstain.
pub trait AbstentionPolicy {
    fn decide(&self, confidence: &Confidence, retrieval: &AttestedRetrieval) -> Decision;
}

/// What every backend promises of a completion: it carries the prompt's
/// decision, and an abstention is a single span computed by the abstention
/// policy.
pub open spec fn keeps_decision(prompt: GroundedPrompt, out: ProvenancedOutput) -> bool {
    &&& out.decision == prompt.decision
    &&& prompt.decision is Abstain ==> {
        &&& out.spans@.len() == 1
        &&& out.spans@[0].source matches ProvenanceSource::Computed { tool }
        &&& tool@ == "abstention-policy"@
    }
}

/// A completion backend that honors the policy decision.
pub trait LlmBackend {
    /// The backend's name.
    spec fn spec_name(&self) -> Seq<char>;

    fn name(&self) -> (r: &str)
        ensures
            r@ == self.spec_name(),
    ;

    /// A completion that succeeds keeps the prompt's decision, and abstains
    /// with one span computed by the abstention policy when told to abstain.
    fn complete(&self, prompt: &GroundedPrompt) -> (r: Result<ProvenancedOutput, AssuranceError>)
        ensures
            r matches Ok(out) ==> keeps_decision(*prompt, out),
    ;
}

} // verus!
