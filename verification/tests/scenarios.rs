use assurance::backends::StubBackend;
use assurance::entity::{RegistryConfidenceScorer, RegistryResolver};
use assurance::eval::{
    EdgarSmallFilerSampler, FdaEstablishmentSampler, NmlsSampler, Sampler, StateBusinessSampler,
};
use assurance::hex::encode;
use assurance::policy::ThresholdPolicy;
use assurance::retrieval::{verify_attestation, AttestingRetriever};
use assurance::time::Timestamp;
use assurance::traits::{ConfidenceScorer, EntityResolver, LlmBackend, RetrievalProvider};
use assurance::types::{
    AbstainReason, AttestedRetrieval, Confidence, ConfidenceSignal, Decision, GroundedPrompt,
    IndexVersion, PopularityTier, Query, RetrievalAttestation,
};

fn index_version(name: &str, version: &str) -> IndexVersion {
    IndexVersion { name: name.to_string(), version: version.to_string(), built_at: Timestamp::now() }
}

fn empty_retrieval() -> AttestedRetrieval {
    AttestedRetrieval {
        documents: vec![],
        attestation: RetrievalAttestation {
            query_hash: String::new(),
            doc_hashes: vec![],
            index: index_version("test", "1"),
            ran_at: Timestamp::now(),
            signer_pubkey: String::new(),
            signature: String::new(),
        },
    }
}

fn low_confidence() -> Confidence {
    Confidence {
        score: 50_000,
        signals: vec![ConfidenceSignal { name: "tier".to_string(), weight: 1_000_000, value: 50_000 }],
    }
}

#[test]
fn placeholder() {}

#[test]
fn long_tail_no_retrieval_abstains() {
    let policy = ThresholdPolicy::default();
    let decision = policy.decide_with_tier(&low_confidence(), &empty_retrieval(), PopularityTier::Unknown);
    assert!(matches!(decision, Decision::Abstain { .. }));
}

fn abstain_prompt() -> GroundedPrompt {
    GroundedPrompt {
        user_query: "Tell me about Morty".to_string(),
        retrieval: empty_retrieval(),
        decision: Decision::Abstain { reason: AbstainReason::LongTailEntity { identifier: None } },
    }
}

#[test]
fn stub_abstains_on_long_tail() {
    let backend = StubBackend;
    let output = backend.complete(&abstain_prompt()).unwrap();
    assert!(matches!(output.decision, Decision::Abstain { .. }));
    assert!(!output.text.is_empty());
}

#[test]
fn unknown_entity_scores_low() {
    let resolver = RegistryResolver::new();
    let candidate = resolver.resolve("nonexistent co").unwrap();
    let scorer = RegistryConfidenceScorer;
    let confidence = scorer.score(&candidate).unwrap();
    assert!(confidence.score < 100_000);
}

#[test]
fn samplers_return_empty_stubs() {
    assert!(NmlsSampler.sample(5).unwrap().is_empty());
    assert!(EdgarSmallFilerSampler.sample(5).unwrap().is_empty());
    assert!(FdaEstablishmentSampler.sample(5).unwrap().is_empty());
    assert!(StateBusinessSampler { state: "NC".to_string() }.sample(5).unwrap().is_empty());
}

#[test]
fn attestation_roundtrip_verifies() {
    let mut r = AttestingRetriever::new(index_version("test", "1"));
    r.insert("doc1".to_string(), "Morty is an NMLS-registered wholesale broker".to_string());
    let q = Query { text: "morty".to_string(), entity: None, index: r.index().clone() };
    let res = r.retrieve(&q).unwrap();
    let pk = encode(&r.verifying_key());
    assert!(verify_attestation(&pk, &res.attestation).unwrap());
}
