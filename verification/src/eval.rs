//! Long-tail evaluation harness: samplers of registry entities and a suite
//! runner that puts each case to a backend and records its per-case result.

use vstd::prelude::*;
use crate::error::AssuranceError;
use crate::time::Timestamp;
use crate::traits::LlmBackend;
use crate::types::{
    AttestedRetrieval, Decision, ExternalId, GroundedPrompt, IndexVersion, ProvenancedOutput,
    RetrievalAttestation,
};

verus! {

/// One evaluation case: an entity, a prompt about it and the ground-truth
/// facts from its registry record.
#[derive(Debug)]
pub struct EvalCase {
    pub entity: ExternalId,
    pub prompt: String,
    pub atomic_facts: Vec<AtomicFact>,
}

/// A ground-truth fact with the primary source it was extracted from.
#[derive(Debug)]
pub struct AtomicFact {
    pub predicate: String,
    pub value: String,
    pub source: String,
}

/// The per-case score of a backend.
#[derive(Debug)]
pub struct EvalResult {
    pub case: EvalCase,
    pub backend: String,
    pub facts_correct: usize,
    pub facts_wrong: usize,
    pub facts_unsupported: usize,
    pub abstained: bool,
}

/// Samples evaluation cases from a registry.
pub trait Sampler {
    fn sample(&self, n: usize) -> Result<Vec<EvalCase>, AssuranceError>;
}

/// NMLS Consumer Access sampler (no live source wired: samples nothing).
pub struct NmlsSampler;

/// SEC EDGAR small-filer sampler (no live source wired: samples nothing).
pub struct EdgarSmallFilerSampler;

/// FDA establishment registration sampler (no live source wired: samples
/// nothing).
pub struct FdaEstablishmentSampler;

/// Secretary-of-state business registry sampler for one state (no live
/// source wired: samples nothing).
pub struct StateBusinessSampler {
    pub state: String,
}

impl Sampler for NmlsSampler {
    fn sample(&self, n: usize) -> (r: Result<Vec<EvalCase>, AssuranceError>)
        ensures
            r matches Ok(v) && v@.len() == 0,
    {
        Ok(Vec::new())
    }
}

impl Sampler for EdgarSmallFilerSampler {
    fn sample(&self, n: usize) -> (r: Result<Vec<EvalCase>, AssuranceError>)
        ensures
            r matches Ok(v) && v@.len() == 0,
    {
        Ok(Vec::new())
    }
}

impl Sampler for FdaEstablishmentSampler {
    fn sample(&self, n: usize) -> (r: Result<Vec<EvalCase>, AssuranceError>)
        ensures
            r matches Ok(v) && v@.len() == 0,
    {
        Ok(Vec::new())
    }
}

impl Sampler for StateBusinessSampler {
    fn sample(&self, n: usize) -> (r: Result<Vec<EvalCase>, AssuranceError>)
        ensures
            r matches Ok(v) && v@.len() == 0,
    {
        Ok(Vec::new())
    }
}

/// The prompt that a case puts to a backend: the case's prompt as the user
/// query, no retrieved documents under an empty attestation, and a direct
/// answer as the decision.
pub open spec fn is_eval_prompt(case: EvalCase, prompt: GroundedPrompt) -> bool {
    &&& prompt.user_query@ == case.prompt@
    &&& prompt.retrieval.documents@.len() == 0
    &&& prompt.retrieval.attestation.doc_hashes@.len() == 0
    &&& prompt.retrieval.attestation.query_hash@.len() == 0
    &&& prompt.retrieval.attestation.signer_pubkey@.len() == 0
    &&& prompt.retrieval.attestation.signature@.len() == 0
    &&& prompt.retrieval.attestation.ran_at.seconds() == 0
    &&& prompt.retrieval.attestation.ran_at.subsec_nanos() == 0
    &&& prompt.retrieval.attestation.index.name@.len() == 0
    &&& prompt.retrieval.attestation.index.version@.len() == 0
    &&& prompt.retrieval.attestation.index.built_at == prompt.retrieval.attestation.ran_at
    &&& prompt.decision is Answer
}

/// The prompt that a case puts to a backend.
pub fn eval_prompt(case: &EvalCase) -> (r: GroundedPrompt)
    ensures
        is_eval_prompt(*case, r),
{
    let epoch = Timestamp::from_unix(0, 0).unwrap();
    GroundedPrompt {
        user_query: case.prompt.clone(),
        retrieval: AttestedRetrieval {
            documents: Vec::new(),
            attestation: RetrievalAttestation {
                query_hash: String::new(),
                doc_hashes: Vec::new(),
                index: IndexVersion { name: String::new(), version: String::new(), built_at: epoch },
                ran_at: epoch,
                signer_pubkey: String::new(),
                signature: String::new(),
            },
        },
        decision: Decision::Answer,
    }
}

/// The result that a case earns from a backend's output: whether the
/// backend abstained, with no fact counted, since no atomic-fact judge is
/// wired.
pub open spec fn is_case_result(case: EvalCase, backend: Seq<char>, out: ProvenancedOutput, r: EvalResult) -> bool {
    &&& r.case == case
    &&& r.backend@ == backend
    &&& r.abstained == (out.decision is Abstain)
    &&& r.facts_correct == 0
    &&& r.facts_wrong == 0
    &&& r.facts_unsupported == 0
}

/// Scores one case on a backend's output.
pub fn score_case(case: EvalCase, backend: String, out: &ProvenancedOutput) -> (r: EvalResult)
    ensures
        is_case_result(case, backend@, *out, r),
{
    let abstained = match &out.decision {
        Decision::Abstain { .. } => true,
        _ => false,
    };
    EvalResult {
        case,
        backend,
        facts_correct: 0,
        facts_wrong: 0,
        facts_unsupported: 0,
        abstained,
    }
}

/// Runs a suite of cases against a backend, in order: each case's prompt
/// goes to the backend once, and its output is scored. The first failing
/// completion ends the run with its error. An empty suite succeeds with no
/// result.
pub fn run_suite<B: LlmBackend + ?Sized>(backend: &B, cases: Vec<EvalCase>) -> (r: Result<Vec<EvalResult>, AssuranceError>)
    ensures
        cases@.len() == 0 ==> (r matches Ok(v) && v@.len() == 0),
        r matches Ok(v) ==> {
            &&& v@.len() == cases@.len()
            &&& forall|i: int| 0 <= i < v@.len() ==> {
                &&& (#[trigger] v@[i]).case == cases@[i]
                &&& v@[i].backend@ == backend.spec_name()
                &&& !v@[i].abstained
                &&& v@[i].facts_correct == 0
                &&& v@[i].facts_wrong == 0
                &&& v@[i].facts_unsupported == 0
            }
        },
{
    let ghost all = cases@;
    let mut pending = cases;
    let mut results: Vec<EvalResult> = Vec::new();
    while pending.len() > 0
        invariant
            all == cases@,
            results@.len() + pending@.len() == all.len(),
            pending@ == all.skip(results@.len() as int),
            forall|i: int| 0 <= i < results@.len() ==> {
                &&& (#[trigger] results@[i]).case == all[i]
                &&& results@[i].backend@ == backend.spec_name()
                &&& !results@[i].abstained
                &&& results@[i].facts_correct == 0
                &&& results@[i].facts_wrong == 0
                &&& results@[i].facts_unsupported == 0
            },
        decreases pending@.len(),
    {
        let case = pending.remove(0);
        let prompt = eval_prompt(&case);
        let out = backend.complete(&prompt)?;
        let name = String::from_str(backend.name());
        let result = score_case(case, name, &out);
        let ghost k = results@.len();
        results.push(result);
        proof {
            assert(all.skip(k as int)[0] == all[k as int]);
            assert(pending@ =~= all.skip(k as int + 1));
        }
    }
    Ok(results)
}

} // verus!
