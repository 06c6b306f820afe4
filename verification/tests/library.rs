use assurance::backends::{abstain_text, summarize, StubBackend};
use assurance::entity::{
    normalize, parse_tier, wrap, FixtureRow, RegistryConfidenceScorer, RegistryResolver,
};
use assurance::error::AssuranceError;
use assurance::eval::{eval_prompt, run_suite, score_case, EvalCase};
use assurance::hex::{decode, encode, slices_whole_chars};
use assurance::policy::ThresholdPolicy;
use assurance::retrieval::{
    canonical_attestation_payload, try_verify_attestation, verify_attestation, AttestingRetriever,
};
use assurance::text::{contains_str, decimal, find_bytes_from, take_chars, two_decimals};
use assurance::time::{Timestamp, MAX_UNIX_SECONDS, MIN_UNIX_SECONDS};
use assurance::traits::{
    AbstentionPolicy, ConfidenceScorer, EntityResolver, LlmBackend, RetrievalProvider,
};
use assurance::types::{
    AbstainReason, AttestedRetrieval, Confidence, Decision, EntityCandidate, ExternalId,
    GroundedPrompt, IndexVersion, PopularityTier, ProvenanceSource, Query,
    RetrievalAttestation, RetrievedDocument,
};

const RFC8032_SECRET: &str = "9d61b19deffd5a60ba844af492ec2cc44449c5697b326919703bac031cae7f60";

fn epoch_index() -> IndexVersion {
    IndexVersion {
        name: "demo-corpus".to_string(),
        version: "2026-04".to_string(),
        built_at: Timestamp::from_unix(0, 0).unwrap(),
    }
}

fn confidence(score: u32) -> Confidence {
    Confidence { score, signals: vec![] }
}

fn retrieval_with(docs: Vec<RetrievedDocument>) -> AttestedRetrieval {
    AttestedRetrieval {
        documents: docs,
        attestation: RetrievalAttestation {
            query_hash: String::new(),
            doc_hashes: vec![],
            index: epoch_index(),
            ran_at: Timestamp::from_unix(0, 0).unwrap(),
            signer_pubkey: String::new(),
            signature: String::new(),
        },
    }
}

fn doc(id: &str, content: &str) -> RetrievedDocument {
    RetrievedDocument {
        doc_id: id.to_string(),
        source_url: None,
        content: content.to_string(),
        content_hash: String::new(),
    }
}

fn keyed_retriever() -> AttestingRetriever {
    AttestingRetriever::with_key(epoch_index(), decode(RFC8032_SECRET).unwrap())
}

fn err_message(e: AssuranceError) -> String {
    match e {
        AssuranceError::Attestation(m) => m,
        other => panic!("unexpected error {:?}", other),
    }
}

// ── hex ────────────────────────────────────────────────────────────────────

#[test]
fn hex_encodes_lowercase_pairs() {
    assert_eq!(encode(&[0x00, 0xab, 0xff, 0x10]), "00abff10");
    assert_eq!(encode(&[]), "");
}

#[test]
fn hex_decodes_both_cases_and_plus_sign() {
    assert_eq!(decode("00abFF10").unwrap(), vec![0x00, 0xab, 0xff, 0x10]);
    assert_eq!(decode("").unwrap(), Vec::<u8>::new());
    assert_eq!(decode("+f").unwrap(), vec![15]);
}

#[test]
fn hex_decode_errors() {
    assert_eq!(decode("abc").unwrap_err(), "odd length");
    assert_eq!(decode("zz").unwrap_err(), "invalid digit found in string");
    assert_eq!(decode("0-").unwrap_err(), "invalid digit found in string");
    assert_eq!(decode("éé").unwrap_err(), "invalid digit found in string");
}

#[test]
fn hex_roundtrip() {
    let bytes: Vec<u8> = (0..=255u8).collect();
    assert_eq!(decode(&encode(&bytes)).unwrap(), bytes);
}

#[test]
fn hex_pairs_that_split_characters_are_detected() {
    assert!(!slices_whole_chars("aéb"));
    assert!(slices_whole_chars("éé"));
    assert!(slices_whole_chars("abc"));
    assert!(slices_whole_chars("00ff"));
}

// ── text ───────────────────────────────────────────────────────────────────

#[test]
fn byte_search_finds_first_occurrence_from_cursor() {
    let hay = "[a] x [a] y".as_bytes();
    assert_eq!(find_bytes_from(hay, b"[a]", 0), Some(0));
    assert_eq!(find_bytes_from(hay, b"[a]", 1), Some(6));
    assert_eq!(find_bytes_from(hay, b"[a]", 7), None);
    assert_eq!(find_bytes_from(hay, b"", 4), Some(4));
    assert!(contains_str("morty is a broker", "morty"));
    assert!(!contains_str("broker", "morty"));
    assert!(contains_str("anything", ""));
}

#[test]
fn char_prefixes_count_characters() {
    assert_eq!(take_chars("héllo", 2), "hé");
    assert_eq!(take_chars("hi", 5), "hi");
    let long: String = std::iter::repeat('é').take(200).collect();
    assert_eq!(summarize(&long).chars().count(), 140);
    assert_eq!(summarize("short"), "short");
}

#[test]
fn decimal_rendering() {
    assert_eq!(decimal(0), "0");
    assert_eq!(decimal(1234), "1234");
    assert_eq!(two_decimals(35_000), "0.04");
    assert_eq!(two_decimals(844_999), "0.84");
    assert_eq!(two_decimals(845_000), "0.84");
    assert_eq!(two_decimals(175_000), "0.17");
    assert_eq!(two_decimals(295_000), "0.29");
    assert_eq!(two_decimals(155_000), "0.15");
    assert_eq!(two_decimals(665_000), "0.67");
    assert_eq!(two_decimals(785_000), "0.79");
    assert_eq!(two_decimals(125_000), "0.12");
    assert_eq!(two_decimals(375_000), "0.38");
    assert_eq!(two_decimals(1_000_000), "1.00");
    assert_eq!(two_decimals(0), "0.00");
    assert_eq!(two_decimals(u32::MAX), "4294.97");
}

#[test]
fn two_decimals_write_what_the_nearest_double_writes() {
    let mut ks: Vec<u32> = (0..20_000u32).map(|j| 5_000 + 10_000 * j).collect();
    ks.extend((0..200_000u32).step_by(7));
    ks.extend([4_294_965_000, 4_294_967_295, 4_294_955_000, 2_147_485_000, 1_000_005_000]);
    for k in ks {
        assert_eq!(two_decimals(k), format!("{:.2}", k as f64 / 1_000_000.0), "millionths {}", k);
    }
}

// ── time ───────────────────────────────────────────────────────────────────

#[test]
fn timestamps_render_rfc3339() {
    assert_eq!(Timestamp::from_unix(0, 0).unwrap().to_rfc3339(), "1970-01-01T00:00:00+00:00");
    assert_eq!(
        Timestamp::from_unix(1_700_000_000, 500_000_000).unwrap().to_rfc3339(),
        "2023-11-14T22:13:20.500+00:00"
    );
    assert!(Timestamp::from_unix(0, 1_000_000_000).is_none());
    assert!(Timestamp::from_unix(MAX_UNIX_SECONDS + 1, 0).is_none());
    assert!(Timestamp::from_unix(MIN_UNIX_SECONDS - 1, 0).is_none());
    let t = Timestamp::from_unix(MAX_UNIX_SECONDS, 999_999_999).unwrap();
    assert!(!t.to_rfc3339().is_empty());
    assert!(Timestamp::from_unix(MIN_UNIX_SECONDS, 0).unwrap().to_rfc3339().len() > 0);
    assert!(Timestamp::now().unix_seconds() > 1_600_000_000);
}

#[test]
fn leap_seconds_are_instants() {
    let leap = Timestamp::from_unix(59, 1_000_000_000).unwrap();
    assert_eq!(leap.unix_subsec_nanos(), 1_000_000_000);
    assert_eq!(leap.to_rfc3339(), "1970-01-01T00:00:60+00:00");
    assert_eq!(
        Timestamp::from_unix(-1, 1_500_000_000).unwrap().to_rfc3339(),
        "1969-12-31T23:59:60.500+00:00"
    );
    assert!(Timestamp::from_unix(58, 1_000_000_000).is_none());
    assert!(Timestamp::from_unix(59, 2_000_000_000).is_none());
}

// ── entity ─────────────────────────────────────────────────────────────────

#[test]
fn normalization_trims_and_lowercases() {
    assert_eq!(normalize("  Morty Mortgage \n"), "morty mortgage");
    assert_eq!(normalize("ÉCOLE"), "école");
    assert_eq!(normalize("\u{3000}\u{85}Vema\u{a0}\t"), normalize("Vema"));
    assert_eq!(normalize("\u{200b}Vema"), "\u{200b}vema");
}

#[test]
fn tier_labels() {
    assert_eq!(parse_tier("head"), PopularityTier::Head);
    assert_eq!(parse_tier("torso"), PopularityTier::Torso);
    assert_eq!(parse_tier("long-tail"), PopularityTier::LongTail);
    assert_eq!(parse_tier("longtail"), PopularityTier::LongTail);
    assert_eq!(parse_tier("Head"), PopularityTier::Unknown);
    assert_eq!(PopularityTier::LongTail.as_str(), "long-tail");
    assert_eq!(PopularityTier::Unknown.as_str(), "unknown");
}

#[test]
fn wrap_makes_resolution_errors() {
    assert!(matches!(wrap("boom".to_string()), AssuranceError::Resolution(m) if m == "boom"));
}

fn row(surface: &str, ids: Vec<ExternalId>, tier: Option<&str>) -> FixtureRow {
    FixtureRow { surface: surface.to_string(), ids, tier: tier.map(|t| t.to_string()) }
}

#[test]
fn resolver_follows_fixture_rows() {
    let mut r = RegistryResolver::new();
    r.load_rows(vec![
        row("Morty", vec![ExternalId::Nmls("1429243".to_string())], Some("torso")),
        row("Acme", vec![ExternalId::Cik("0000001".to_string())], None),
        row("Ghost", vec![], None),
        row(" MORTY ", vec![ExternalId::Cik("42".to_string())], None),
    ]);
    let morty = r.resolve("  morty").unwrap();
    assert_eq!(morty.surface, "  morty");
    assert_eq!(morty.identifiers.len(), 1);
    assert!(matches!(&morty.identifiers[0], ExternalId::Cik(s) if s == "42"));
    assert_eq!(morty.tier, PopularityTier::Torso);
    let acme = r.resolve("ACME").unwrap();
    assert_eq!(acme.tier, PopularityTier::LongTail);
    let ghost = r.resolve("ghost").unwrap();
    assert!(ghost.identifiers.is_empty());
    assert_eq!(ghost.tier, PopularityTier::Unknown);
    let none = r.resolve("nobody").unwrap();
    assert!(none.identifiers.is_empty());
    assert_eq!(none.tier, PopularityTier::Unknown);
    r.load_rows(vec![row("acme", vec![], Some("head"))]);
    let acme = r.resolve("acme").unwrap();
    assert!(acme.identifiers.is_empty());
    assert_eq!(acme.tier, PopularityTier::Head);
}

fn candidate(tier: PopularityTier, with_id: bool) -> EntityCandidate {
    EntityCandidate {
        surface: "x".to_string(),
        identifiers: if with_id { vec![ExternalId::Nmls("1".to_string())] } else { vec![] },
        tier,
    }
}

#[test]
fn reference_scores() {
    let s = RegistryConfidenceScorer;
    let score = |t, id| s.score(&candidate(t, id)).unwrap().score;
    assert_eq!(score(PopularityTier::Head, true), 785_000);
    assert_eq!(score(PopularityTier::Head, false), 665_000);
    assert_eq!(score(PopularityTier::Torso, true), 610_000);
    assert_eq!(score(PopularityTier::LongTail, true), 295_000);
    assert_eq!(score(PopularityTier::LongTail, false), 175_000);
    assert_eq!(score(PopularityTier::Unknown, false), 35_000);
    let c = s.score(&candidate(PopularityTier::Torso, false)).unwrap();
    assert_eq!(c.signals.len(), 2);
    assert_eq!(c.signals[0].name, "popularity_tier");
    assert_eq!((c.signals[0].weight, c.signals[0].value), (700_000, 700_000));
    assert_eq!(c.signals[1].name, "registry_id_present");
    assert_eq!((c.signals[1].weight, c.signals[1].value), (300_000, 0));
}

// ── policy ─────────────────────────────────────────────────────────────────

#[test]
fn default_policy_thresholds() {
    let p = ThresholdPolicy::default();
    assert_eq!(p.answer_threshold, 850_000);
    assert_eq!(p.ground_threshold, 500_000);
    assert_eq!(p.min_citations, 2);
    assert!(p.require_retrieval_for_long_tail);
}

#[test]
fn policy_branches() {
    let p = ThresholdPolicy::default();
    let some = retrieval_with(vec![doc("d", "c")]);
    let none = retrieval_with(vec![]);
    assert!(matches!(
        p.decide_with_tier(&confidence(999_000), &none, PopularityTier::LongTail),
        Decision::Abstain { reason: AbstainReason::LongTailEntity { identifier: None } }
    ));
    assert!(matches!(p.decide_with_tier(&confidence(850_000), &some, PopularityTier::LongTail), Decision::Answer));
    assert!(matches!(
        p.decide_with_tier(&confidence(900_000), &none, PopularityTier::Head),
        Decision::Ground { min_citations: 2 }
    ));
    assert!(matches!(
        p.decide_with_tier(&confidence(500_000), &some, PopularityTier::Torso),
        Decision::Ground { min_citations: 2 }
    ));
    assert!(matches!(
        p.decide_with_tier(&confidence(499_999), &some, PopularityTier::Head),
        Decision::Abstain { reason: AbstainReason::LowCalibratedConfidence { score: 499_999 } }
    ));
    let lax = ThresholdPolicy { require_retrieval_for_long_tail: false, ..p };
    assert!(matches!(
        lax.decide_with_tier(&confidence(600_000), &none, PopularityTier::Unknown),
        Decision::Ground { .. }
    ));
    assert!(matches!(
        p.decide(&confidence(999_000), &none),
        Decision::Abstain { reason: AbstainReason::LongTailEntity { .. } }
    ));
    assert!(matches!(p.decide(&confidence(999_000), &some), Decision::Answer));
}

// ── retrieval ──────────────────────────────────────────────────────────────

#[test]
fn insert_records_blake3_digest() {
    let mut r = keyed_retriever();
    r.insert("d1".to_string(), "abc".to_string());
    let q = Query { text: "ABC".to_string(), entity: None, index: epoch_index() };
    let res = r.retrieve(&q).unwrap();
    assert_eq!(res.documents.len(), 1);
    assert_eq!(res.documents[0].content_hash, blake3::hash(b"abc").to_hex().to_string());
    assert_eq!(res.attestation.query_hash, blake3::hash(b"ABC").to_hex().to_string());
    assert_eq!(res.attestation.doc_hashes, vec![res.documents[0].content_hash.clone()]);
}

#[test]
fn verifying_key_is_the_ed25519_public_key() {
    let r = keyed_retriever();
    assert_eq!(
        encode(&r.verifying_key()),
        "d75a980182b10ab7d54bfed3c964073a0ee172f3daa62325af021a68f707511a"
    );
    let secret: [u8; 32] = decode(RFC8032_SECRET).unwrap().try_into().unwrap();
    let dalek = ed25519_dalek::SigningKey::from_bytes(&secret).verifying_key().to_bytes();
    assert_eq!(r.verifying_key(), dalek.to_vec());
}

#[test]
fn retrieval_filters_case_insensitively_in_order() {
    let mut r = keyed_retriever();
    r.insert("a".to_string(), "Morty is a broker".to_string());
    r.insert("b".to_string(), "Nothing here".to_string());
    r.insert("c".to_string(), "MORTY again".to_string());
    let res = r.retrieve(&Query { text: "mOrTy".to_string(), entity: None, index: epoch_index() }).unwrap();
    let ids: Vec<&str> = res.documents.iter().map(|d| d.doc_id.as_str()).collect();
    assert_eq!(ids, vec!["a", "c"]);
    assert_eq!(res.attestation.signer_pubkey, encode(&r.verifying_key()));
    assert_eq!(res.attestation.index.name, "demo-corpus");
    let all = r.retrieve(&Query { text: String::new(), entity: None, index: epoch_index() }).unwrap();
    assert_eq!(all.documents.len(), 3);
}

#[test]
fn canonical_payload_layout() {
    let payload = canonical_attestation_payload(
        "qh",
        &vec!["h1".to_string(), "h2".to_string()],
        &epoch_index(),
        &Timestamp::from_unix(60, 0).unwrap(),
    );
    assert_eq!(
        payload,
        "assurance-rs/v1\nquery:qh\nindex:demo-corpus@2026-04\nbuilt_at:1970-01-01T00:00:00+00:00\nran_at:1970-01-01T00:01:00+00:00\ndocs:h1,h2"
    );
    let empty = canonical_attestation_payload("", &vec![], &epoch_index(), &Timestamp::from_unix(0, 0).unwrap());
    assert!(empty.ends_with("\ndocs:"));
}

#[test]
fn signature_matches_ed25519_over_payload() {
    let mut r = keyed_retriever();
    r.insert("a".to_string(), "text".to_string());
    let res = r.retrieve(&Query { text: "t".to_string(), entity: None, index: epoch_index() }).unwrap();
    let a = &res.attestation;
    let payload = canonical_attestation_payload(&a.query_hash, &a.doc_hashes, &a.index, &a.ran_at);
    let secret: [u8; 32] = decode(RFC8032_SECRET).unwrap().try_into().unwrap();
    let key = ed25519_dalek::SigningKey::from_bytes(&secret);
    let expected = ed25519_dalek::Signer::sign(&key, payload.as_bytes()).to_bytes();
    assert_eq!(a.signature, encode(&expected));
}

#[test]
fn tampered_attestations_do_not_verify() {
    let mut r = keyed_retriever();
    r.insert("a".to_string(), "Morty".to_string());
    let res = r.retrieve(&Query { text: "morty".to_string(), entity: None, index: epoch_index() }).unwrap();
    let pk = encode(&r.verifying_key());
    assert!(verify_attestation(&pk, &res.attestation).unwrap());
    let mut t = res.attestation.clone();
    t.query_hash.push('0');
    assert!(!verify_attestation(&pk, &t).unwrap());
    let mut t = res.attestation.clone();
    t.doc_hashes.clear();
    assert!(!verify_attestation(&pk, &t).unwrap());
    let mut t = res.attestation.clone();
    t.ran_at = Timestamp::from_unix(0, 0).unwrap();
    assert!(!verify_attestation(&pk, &t).unwrap());
    let other = AttestingRetriever::new(epoch_index());
    assert!(!verify_attestation(&encode(&other.verifying_key()), &res.attestation).unwrap());
}

#[test]
fn attestation_errors() {
    let mut r = keyed_retriever();
    r.insert("a".to_string(), "Morty".to_string());
    let res = r.retrieve(&Query { text: "morty".to_string(), entity: None, index: epoch_index() }).unwrap();
    let pk = encode(&r.verifying_key());
    let e = err_message(verify_attestation("zz", &res.attestation).unwrap_err());
    assert_eq!(e, "pubkey hex: invalid digit found in string");
    let e = err_message(verify_attestation("abc", &res.attestation).unwrap_err());
    assert_eq!(e, "pubkey hex: odd length");
    let e = err_message(verify_attestation("00", &res.attestation).unwrap_err());
    assert_eq!(e, "pubkey length");
    let not_a_point = format!("02{}", "00".repeat(31));
    let e = err_message(verify_attestation(&not_a_point, &res.attestation).unwrap_err());
    assert_eq!(e, "pubkey parse: signature error: Cannot decompress Edwards point");
    let mut t = res.attestation.clone();
    t.signature = "0".to_string();
    assert_eq!(err_message(verify_attestation(&pk, &t).unwrap_err()), "sig hex: odd length");
    t.signature = "00".to_string();
    assert_eq!(err_message(verify_attestation(&pk, &t).unwrap_err()), "sig length");
}

#[test]
fn carried_signer_key_does_not_decide() {
    let mut r = keyed_retriever();
    r.insert("a".to_string(), "Morty".to_string());
    let res = r.retrieve(&Query { text: "morty".to_string(), entity: None, index: epoch_index() }).unwrap();
    let pk = encode(&r.verifying_key());
    let mut t = res.attestation.clone();
    t.signer_pubkey = "not a key at all".to_string();
    assert!(verify_attestation(&pk, &t).unwrap());
    let other = encode(&AttestingRetriever::new(epoch_index()).verifying_key());
    t.signer_pubkey = other.clone();
    assert!(verify_attestation(&pk, &t).unwrap());
    assert!(!verify_attestation(&other, &t).unwrap());
    let not_a_point = format!("02{}", "00".repeat(31));
    assert_eq!(
        err_message(verify_attestation(&not_a_point, &t).unwrap_err()),
        err_message(verify_attestation(&not_a_point, &res.attestation).unwrap_err())
    );
}

#[test]
fn checked_verification_refuses_split_characters() {
    let mut r = keyed_retriever();
    r.insert("a".to_string(), "Morty".to_string());
    let res = r.retrieve(&Query { text: "morty".to_string(), entity: None, index: epoch_index() }).unwrap();
    let pk = encode(&r.verifying_key());
    assert!(try_verify_attestation("aéb", &res.attestation).is_none());
    let mut t = res.attestation.clone();
    t.signature = "aéb".to_string();
    assert!(try_verify_attestation(&pk, &t).is_none());
    let not_a_point = format!("02{}", "00".repeat(31));
    assert!(matches!(try_verify_attestation(&not_a_point, &t), Some(Err(_))));
    assert!(matches!(try_verify_attestation(&pk, &res.attestation), Some(Ok(true))));
}

// ── backends ───────────────────────────────────────────────────────────────

fn prompt(query: &str, docs: Vec<RetrievedDocument>, decision: Decision) -> GroundedPrompt {
    GroundedPrompt { user_query: query.to_string(), retrieval: retrieval_with(docs), decision }
}

#[test]
fn stub_name() {
    assert_eq!(StubBackend.name(), "stub");
}

#[test]
fn abstention_is_one_computed_span() {
    let out = StubBackend
        .complete(&prompt("q", vec![], Decision::Abstain { reason: AbstainReason::RetrievalMiss }))
        .unwrap();
    assert_eq!(
        out.text,
        "Retrieval returned no documents for this query. I'm declining to answer from parametric memory alone on a factual question."
    );
    assert_eq!(out.spans.len(), 1);
    assert_eq!((out.spans[0].start, out.spans[0].end), (0, out.text.len()));
    assert!(matches!(&out.spans[0].source, ProvenanceSource::Computed { tool } if tool == "abstention-policy"));
    assert!(out.attestation.is_some());
}

#[test]
fn abstention_texts() {
    assert!(abstain_text(&AbstainReason::LongTailEntity { identifier: None })
        .starts_with("I don't have reliable information about this specific entity. It appears to be a long-tail business"));
    assert_eq!(
        abstain_text(&AbstainReason::LowCalibratedConfidence { score: 35_000 }),
        "Calibrated confidence (0.04) is below the grounding threshold. Declining to answer rather than fabricate."
    );
    assert_eq!(
        abstain_text(&AbstainReason::ConflictingSources),
        "Retrieved sources conflict on the factual question. Declining to synthesize a single answer without human review."
    );
}

#[test]
fn direct_answer_is_one_parametric_span() {
    let out = StubBackend.complete(&prompt("héllo", vec![], Decision::Answer)).unwrap();
    assert_eq!(out.text, "Direct answer to: héllo");
    assert_eq!((out.spans[0].start, out.spans[0].end), (0, out.text.len()));
    assert_eq!(out.spans[0].end, 24);
    assert!(matches!(out.spans[0].source, ProvenanceSource::Parametric));
    assert!(matches!(out.decision, Decision::Answer));
}

#[test]
fn grounded_response_cites_first_documents() {
    let docs = vec![doc("n1", "Licensed in NY"), doc("n2", "Wholesale broker"), doc("n3", "unused")];
    let out = StubBackend
        .complete(&prompt("Morty é", docs, Decision::Ground { min_citations: 2 }))
        .unwrap();
    assert_eq!(
        out.text,
        "Grounded response for: Morty é\n\nSources:\n[n1] Licensed in NY\n[n2] Wholesale broker"
    );
    assert_eq!(out.spans.len(), 2);
    for (span, id) in out.spans.iter().zip(["n1", "n2"]) {
        assert_eq!(&out.text[span.start..span.end], format!("[{}]", id));
        assert!(matches!(&span.source, ProvenanceSource::Retrieved { doc_id } if doc_id == id));
    }
    assert!(matches!(out.decision, Decision::Ground { min_citations: 2 }));
}

#[test]
fn grounded_markers_found_in_query_come_first() {
    let docs = vec![doc("x", "body")];
    let out = StubBackend.complete(&prompt("see [x]", docs, Decision::Ground { min_citations: 5 })).unwrap();
    assert_eq!(out.spans.len(), 1);
    assert_eq!(out.spans[0].start, "Grounded response for: see ".len());
}

#[test]
fn grounded_response_spans_every_cited_document_once() {
    let docs = vec![doc("a", "see [b] later"), doc("b", "body"), doc("c", "[a][b]")];
    let out = StubBackend.complete(&prompt("q", docs, Decision::Ground { min_citations: 3 })).unwrap();
    assert_eq!(out.spans.len(), 3);
    for (span, id) in out.spans.iter().zip(["a", "b", "c"]) {
        assert_eq!(&out.text[span.start..span.end], format!("[{}]", id));
        assert!(matches!(&span.source, ProvenanceSource::Retrieved { doc_id } if doc_id == id));
    }
    assert!(out.spans.windows(2).all(|w| w[0].end <= w[1].start));
}

#[test]
fn attestation_digests_are_hex_of_fixed_length() {
    let mut r = keyed_retriever();
    r.insert("a".to_string(), "Morty".to_string());
    r.insert("b".to_string(), "morty mortgage".to_string());
    let res = r.retrieve(&Query { text: "morty".to_string(), entity: None, index: epoch_index() }).unwrap();
    assert_eq!(res.attestation.query_hash.len(), 64);
    assert_eq!(res.attestation.signer_pubkey.len(), 64);
    assert_eq!(res.attestation.signature.len(), 128);
    assert_eq!(res.documents.len(), 2);
    assert!(res.documents.iter().all(|d| d.content_hash.len() == 64));
    assert!(Timestamp::from_unix(res.attestation.ran_at.unix_seconds(), res.attestation.ran_at.unix_subsec_nanos()).is_some());
}

#[test]
fn grounded_response_without_documents() {
    let out = StubBackend.complete(&prompt("q", vec![], Decision::Ground { min_citations: 2 })).unwrap();
    assert_eq!(out.text, "Grounded response for: q\n\nSources:\n");
    assert!(out.spans.is_empty());
}

fn case(id: &str, prompt: &str) -> EvalCase {
    EvalCase { entity: ExternalId::Nmls(id.to_string()), prompt: prompt.to_string(), atomic_facts: vec![] }
}

#[test]
fn suite_runner_on_no_cases() {
    assert!(run_suite(&StubBackend, vec![]).unwrap().is_empty());
}

#[test]
fn suite_runner_runs_each_case_in_order() {
    let results = run_suite(&StubBackend, vec![case("1", "Who is Vema?"), case("2", "Who is Morty?")]).unwrap();
    assert_eq!(results.len(), 2);
    for (r, (id, prompt)) in results.iter().zip([("1", "Who is Vema?"), ("2", "Who is Morty?")]) {
        assert!(matches!(&r.case.entity, ExternalId::Nmls(s) if s == id));
        assert_eq!(r.case.prompt, prompt);
        assert_eq!(r.backend, "stub");
        assert!(!r.abstained);
        assert_eq!((r.facts_correct, r.facts_wrong, r.facts_unsupported), (0, 0, 0));
    }
}

#[test]
fn eval_prompt_asks_for_a_direct_answer() {
    let p = eval_prompt(&case("1", "Who is Vema?"));
    assert_eq!(p.user_query, "Who is Vema?");
    assert!(p.retrieval.documents.is_empty());
    assert!(matches!(p.decision, Decision::Answer));
    let out = StubBackend.complete(&p).unwrap();
    assert_eq!(out.text, "Direct answer to: Who is Vema?");
}

#[test]
fn case_scores_record_abstention() {
    let p = prompt("q", vec![], Decision::Abstain { reason: AbstainReason::RetrievalMiss });
    let out = StubBackend.complete(&p).unwrap();
    let r = score_case(case("7", "q"), "stub".to_string(), &out);
    assert!(r.abstained);
    assert_eq!(r.backend, "stub");
    assert_eq!((r.facts_correct, r.facts_wrong, r.facts_unsupported), (0, 0, 0));
    let out = StubBackend.complete(&prompt("q", vec![], Decision::Answer)).unwrap();
    assert!(!score_case(case("7", "q"), "stub".to_string(), &out).abstained);
}
