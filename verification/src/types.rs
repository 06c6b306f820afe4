//! The data that flows through the assurance stack: entity identity,
//! confidence, retrieval with attestation, the policy decision and the
//! provenance of every span of a response.
//!
//! Confidence scores, weights and signal values are fixed-point numbers in
//! millionths: `1_000_000` stands for 1.0.

use vstd::prelude::*;
use crate::time::Timestamp;

verus! {

/// One, in the millionths in which scores, weights and signal values are held.
pub const SCORE_ONE: u32 = 1_000_000u32;

// ── Entity identity ─────────────────────────────────────────────────────────

/// A stable external identifier for a U.S. entity, drawn from a public
/// registry.
#[derive(Debug)]
pub enum ExternalId {
    /// NMLS Consumer Access identifier.
    Nmls(String),
    /// SEC EDGAR Central Index Key.
    Cik(String),
    /// FDA establishment registration number.
    FdaEstablishment(String),
    /// State secretary-of-state business entity ID, qualified by state code.
    StateBusiness { state: String, id: String },
    /// Opaque provider-specific identifier.
    Other { scheme: String, id: String },
}

impl Clone for ExternalId {
    fn clone(&self) -> (r: Self)
        ensures
            r == *self,
    {
        match self {
            ExternalId::Nmls(s) => ExternalId::Nmls(s.clone()),
            ExternalId::Cik(s) => ExternalId::Cik(s.clone()),
            ExternalId::FdaEstablishment(s) => ExternalId::FdaEstablishment(s.clone()),
            ExternalId::StateBusiness { state, id } => ExternalId::StateBusiness {
                state: state.clone(),
                id: id.clone(),
            },
            ExternalId::Other { scheme, id } => ExternalId::Other {
                scheme: scheme.clone(),
                id: id.clone(),
            },
        }
    }
}

/// Coarse popularity buckets: the prior that confidence scoring starts from.
#[derive(Debug, Clone, Copy, PartialEq, Eq, Structural)]
pub enum PopularityTier {
    /// Top ~10k global entities: dense training coverage.
    Head,
    /// Recognized but sparse.
    Torso,
    /// Registry-only coverage: the failure region.
    LongTail,
    /// No matching registry record found.
    Unknown,
}

/// The display label of a tier.
pub open spec fn tier_label(tier: PopularityTier) -> Seq<char> {
    match tier {
        PopularityTier::Head => "head"@,
        PopularityTier::Torso => "torso"@,
        PopularityTier::LongTail => "long-tail"@,
        PopularityTier::Unknown => "unknown"@,
    }
}

impl PopularityTier {
    /// The display label: `head`, `torso`, `long-tail` or `unknown`.
    pub fn as_str(&self) -> (r: &'static str)
        ensures
            r@ == tier_label(*self),
    {
        match self {
            PopularityTier::Head => {
                proof {
                    reveal_strlit("head");
                }
                "head"
            },
            PopularityTier::Torso => {
                proof {
                    reveal_strlit("torso");
                }
                "torso"
            },
            PopularityTier::LongTail => {
                proof {
                    reveal_strlit("long-tail");
                }
                "long-tail"
            },
            PopularityTier::Unknown => {
                proof {
                    reveal_strlit("unknown");
                }
                "unknown"
            },
        }
    }
}

/// A resolved candidate for an entity mention in a user prompt.
#[derive(Debug)]
pub struct EntityCandidate {
    /// The surface form as it appeared in the prompt.
    pub surface: String,
    /// The registry IDs matched, best match first.
    pub identifiers: Vec<ExternalId>,
    /// Popularity tier used by confidence scoring.
    pub tier: PopularityTier,
}

impl Clone for EntityCandidate {
    fn clone(&self) -> (r: Self)
        ensures
            r.surface == self.surface,
            r.identifiers@ == self.identifiers@,
            r.tier == self.tier,
    {
        EntityCandidate {
            surface: self.surface.clone(),
            identifiers: self.identifiers.clone(),
            tier: self.tier,
        }
    }
}

// ── Confidence ──────────────────────────────────────────────────────────────

/// A bounded factuality confidence estimate with its rationale.
#[derive(Debug)]
pub struct Confidence {
    /// Confidence in millionths, `0..=SCORE_ONE`.
    pub score: u32,
    /// The signals that fed into the score.
    pub signals: Vec<ConfidenceSignal>,
}

/// One weighted signal of a confidence estimate, in millionths.
#[derive(Debug)]
pub struct ConfidenceSignal {
    pub name: String,
    pub weight: u32,
    pub value: u32,
}

impl Clone for ConfidenceSignal {
    fn clone(&self) -> (r: Self)
        ensures
            r == *self,
    {
        ConfidenceSignal { name: self.name.clone(), weight: self.weight, value: self.value }
    }
}

// ── Retrieval & attestation ─────────────────────────────────────────────────

/// A version of the retrieval index.
#[derive(Debug)]
pub struct IndexVersion {
    pub name: String,
    pub version: String,
    pub built_at: Timestamp,
}

impl Clone for IndexVersion {
    fn clone(&self) -> (r: Self)
        ensures
            r == *self,
    {
        IndexVersion { name: self.name.clone(), version: self.version.clone(), built_at: self.built_at }
    }
}

/// A retrieval query.
#[derive(Debug)]
pub struct Query {
    pub text: String,
    pub entity: Option<EntityCandidate>,
    pub index: IndexVersion,
}

/// A document as retrieved.
#[derive(Debug)]
pub struct RetrievedDocument {
    pub doc_id: String,
    pub source_url: Option<String>,
    pub content: String,
    /// Lowercase hexadecimal BLAKE3 digest of `content` at retrieval time.
    pub content_hash: String,
}

impl Clone for RetrievedDocument {
    fn clone(&self) -> (r: Self)
        ensures
            r == *self,
    {
        RetrievedDocument {
            doc_id: self.doc_id.clone(),
            source_url: match &self.source_url {
                Some(u) => Some(u.clone()),
                None => None,
            },
            content: self.content.clone(),
            content_hash: self.content_hash.clone(),
        }
    }
}

/// A signed log entry of what a retrieval ran, when, and against which index.
#[derive(Debug)]
pub struct RetrievalAttestation {
    pub query_hash: String,
    pub doc_hashes: Vec<String>,
    pub index: IndexVersion,
    pub ran_at: Timestamp,
    /// Ed25519 public key of the attesting service, lowercase hex.
    pub signer_pubkey: String,
    /// Ed25519 signature over the canonical payload, lowercase hex.
    pub signature: String,
}

/// Two attestations with the same contents.
pub open spec fn same_attestation(a: RetrievalAttestation, b: RetrievalAttestation) -> bool {
    &&& a.query_hash == b.query_hash
    &&& a.doc_hashes@ == b.doc_hashes@
    &&& a.index == b.index
    &&& a.ran_at == b.ran_at
    &&& a.signer_pubkey == b.signer_pubkey
    &&& a.signature == b.signature
}

impl Clone for RetrievalAttestation {
    fn clone(&self) -> (r: Self)
        ensures
            same_attestation(r, *self),
    {
        let doc_hashes = self.doc_hashes.clone();
        assert(doc_hashes@ =~= self.doc_hashes@);
        RetrievalAttestation {
            query_hash: self.query_hash.clone(),
            doc_hashes,
            index: self.index.clone(),
            ran_at: self.ran_at,
            signer_pubkey: self.signer_pubkey.clone(),
            signature: self.signature.clone(),
        }
    }
}

/// A retrieval result with its attestation.
#[derive(Debug)]
pub struct AttestedRetrieval {
    pub documents: Vec<RetrievedDocument>,
    pub attestation: RetrievalAttestation,
}

// ── Abstention policy ───────────────────────────────────────────────────────

/// The three outcomes of the policy.
#[derive(Debug)]
pub enum Decision {
    /// High confidence: answer directly from parametric memory.
    Answer,
    /// Medium confidence: answer, but with grounded citations.
    Ground { min_citations: usize },
    /// Low confidence: refuse to fabricate.
    Abstain { reason: AbstainReason },
}

/// Why the policy abstained.
#[derive(Debug)]
pub enum AbstainReason {
    LongTailEntity { identifier: Option<ExternalId> },
    RetrievalMiss,
    /// The calibrated score, in millionths.
    LowCalibratedConfidence { score: u32 },
    ConflictingSources,
}

impl Clone for AbstainReason {
    fn clone(&self) -> (r: Self)
        ensures
            r == *self,
    {
        match self {
            AbstainReason::LongTailEntity { identifier } => AbstainReason::LongTailEntity {
                identifier: match identifier {
                    Some(id) => Some(id.clone()),
                    None => None,
                },
            },
            AbstainReason::RetrievalMiss => AbstainReason::RetrievalMiss,
            AbstainReason::LowCalibratedConfidence { score } => AbstainReason::LowCalibratedConfidence {
                score: *score,
            },
            AbstainReason::ConflictingSources => AbstainReason::ConflictingSources,
        }
    }
}

impl Clone for Decision {
    fn clone(&self) -> (r: Self)
        ensures
            r == *self,
    {
        match self {
            Decision::Answer => Decision::Answer,
            Decision::Ground { min_citations } => Decision::Ground { min_citations: *min_citations },
            Decision::Abstain { reason } => Decision::Abstain { reason: reason.clone() },
        }
    }
}

// ── Provenance ──────────────────────────────────────────────────────────────

/// A completed response with per-span provenance.
#[derive(Debug)]
pub struct ProvenancedOutput {
    pub text: String,
    pub spans: Vec<ProvenanceSpan>,
    pub decision: Decision,
    pub attestation: Option<RetrievalAttestation>,
}

/// Byte offsets into `ProvenancedOutput::text`, half-open `[start, end)`.
#[derive(Debug)]
pub struct ProvenanceSpan {
    pub start: usize,
    pub end: usize,
    pub source: ProvenanceSource,
}

/// Where a span of a response comes from.
#[derive(Debug)]
pub enum ProvenanceSource {
    /// Backed by a retrieved document.
    Retrieved { doc_id: String },
    /// Computed by a deterministic tool.
    Computed { tool: String },
    /// Drawn from parametric memory.
    Parametric,
}

impl Clone for ProvenanceSource {
    fn clone(&self) -> (r: Self)
        ensures
            r == *self,
    {
        match self {
            ProvenanceSource::Retrieved { doc_id } => ProvenanceSource::Retrieved { doc_id: doc_id.clone() },
            ProvenanceSource::Computed { tool } => ProvenanceSource::Computed { tool: tool.clone() },
            ProvenanceSource::Parametric => ProvenanceSource::Parametric,
        }
    }
}

impl Clone for ProvenanceSpan {
    fn clone(&self) -> (r: Self)
        ensures
            r == *self,
    {
        ProvenanceSpan { start: self.start, end: self.end, source: self.source.clone() }
    }
}

/// What a completion backend sees: the user query, the attested retrieval
/// and the decision that governs the response.
#[derive(Debug)]
pub struct GroundedPrompt {
    pub user_query: String,
    pub retrieval: AttestedRetrieval,
    pub decision: Decision,
}

} // verus!
