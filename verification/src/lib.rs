//! Point-in-time factuality assurance for long-tail entities.
//!
//! The library resolves entity mentions against registry fixtures, scores
//! factual confidence, retrieves documents under a signed attestation,
//! decides whether to answer, ground or abstain, and renders a response
//! whose every span carries its provenance.

pub mod error;
pub mod types;
pub mod traits;
pub mod time;
pub mod hex;
pub mod text;
pub mod crypto;
pub mod entity;
pub mod policy;
pub mod retrieval;
pub mod backends;
pub mod eval;
