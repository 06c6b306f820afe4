//! Retrieval with point-in-time cryptographic attestation.
//!
//! Every retrieval produces an attestation that commits to the BLAKE3
//! digest of the query, the digest of every returned document, the index
//! name, version and build time, and the time of retrieval, signed with the
//! retrieval service's Ed25519 key. An auditor holding the public key can
//! later check what the model saw and when.

use vstd::prelude::*;
use vstd::string::StringSliceAdditionalSpecFns;
use vstd::utf8::encode_utf8;
use crate::crypto::{
    blake3_digest, blake3_hash, decode_public_key, point_decompression_message, ed25519_key_decodes, ed25519_public_key,
    ed25519_signature, ed25519_verifies, generate_secret_key, public_key_of, sign_message,
    verify_signature,
};
use crate::error::AssuranceError;
use crate::hex::{
    decode, encode, hex_decode_slices_whole_chars, hex_decode_spec, hex_encode_spec, slices_whole_chars,
};
use crate::text::{
    contains_bytes, contains_str, join_strings, join_with, str_to_lowercase, string_views, to_lowercase,
};
use crate::time::Timestamp;
use crate::traits::RetrievalProvider;
use crate::types::{AttestedRetrieval, IndexVersion, Query, RetrievalAttestation, RetrievedDocument};

verus! {

/// The lowercase hexadecimal BLAKE3 digest of the UTF-8 bytes of a text.
pub open spec fn content_digest_hex(text: Seq<char>) -> Seq<char> {
    hex_encode_spec(blake3_hash(encode_utf8(text)))
}

/// The canonical text committed to by an attestation signature:
///
/// ```text
/// assurance-rs/v1
/// query:<query hash>
/// index:<name>@<version>
/// built_at:<RFC 3339>
/// ran_at:<RFC 3339>
/// docs:<hash>,<hash>,...
/// ```
pub open spec fn canonical_payload(
    query_hash: Seq<char>,
    doc_hashes: Seq<Seq<char>>,
    index: IndexVersion,
    ran_at: Timestamp,
) -> Seq<char> {
    "assurance-rs/v1\nquery:"@ + query_hash + "\nindex:"@ + index.name@ + "@"@ + index.version@
        + "\nbuilt_at:"@ + index.built_at.rfc3339() + "\nran_at:"@ + ran_at.rfc3339() + "\ndocs:"@
        + join_with(doc_hashes, ","@)
}

/// The bytes that an attestation's signature signs.
pub open spec fn attestation_message(a: RetrievalAttestation) -> Seq<u8> {
    encode_utf8(canonical_payload(a.query_hash@, string_views(a.doc_hashes@), a.index, a.ran_at))
}

/// Whether an attestation verifies under a public key given in hex: the
/// key and the signature decode, have the right lengths, and the signature
/// verifies for the canonical payload.
pub open spec fn attestation_verifies(pubkey_hex: Seq<char>, a: RetrievalAttestation) -> bool {
    match (hex_decode_spec(encode_utf8(pubkey_hex)), hex_decode_spec(encode_utf8(a.signature@))) {
        (Ok(pk), Ok(sig)) => pk.len() == 32 && ed25519_key_decodes(pk) && sig.len() == 64
            && ed25519_verifies(pk, attestation_message(a), sig),
        _ => false,
    }
}

/// Whether a document's content contains the query, both lowercased and
/// compared on their UTF-8 bytes.
pub open spec fn matches_query(query_text: Seq<char>, d: RetrievedDocument) -> bool {
    contains_bytes(encode_utf8(str_to_lowercase(d.content@)), encode_utf8(str_to_lowercase(query_text)))
}

/// In-memory retriever with an Ed25519 attestation key.
pub struct AttestingRetriever {
    corpus: Vec<RetrievedDocument>,
    index: IndexVersion,
    signing_key: Vec<u8>,
}

/// The canonical text that an attestation's signature commits to.
pub fn canonical_attestation_payload(
    query_hash: &str,
    doc_hashes: &Vec<String>,
    index: &IndexVersion,
    ran_at: &Timestamp,
) -> (r: String)
    ensures
        r@ == canonical_payload(query_hash@, string_views(doc_hashes@), *index, *ran_at),
{
    let mut r = String::from_str("assurance-rs/v1\nquery:");
    r.append(query_hash);
    r.append("\nindex:");
    r.append(index.name.as_str());
    r.append("@");
    r.append(index.version.as_str());
    r.append("\nbuilt_at:");
    r.append(index.built_at.to_rfc3339().as_str());
    r.append("\nran_at:");
    r.append(ran_at.to_rfc3339().as_str());
    r.append("\ndocs:");
    r.append(join_strings(doc_hashes, ",").as_str());
    r
}

impl AttestingRetriever {
    #[verifier::type_invariant]
    spec fn well_formed(self) -> bool {
        &&& self.signing_key@.len() == 32
        &&& forall|i: int| 0 <= i < self.corpus@.len() ==> {
            &&& #[trigger] self.corpus@[i].content_hash@ == content_digest_hex(self.corpus@[i].content@)
            &&& self.corpus@[i].content_hash@.len() == 64
        }
    }

    /// The 32 secret bytes of the signing key.
    pub closed spec fn secret_key(self) -> Seq<u8> {
        self.signing_key@
    }

    /// The documents that can be retrieved, in insertion order.
    pub closed spec fn documents(self) -> Seq<RetrievedDocument> {
        self.corpus@
    }

    /// The index version that attestations name.
    pub closed spec fn index_version(self) -> IndexVersion {
        self.index
    }

    /// The index version that attestations name.
    pub fn index(&self) -> (r: &IndexVersion)
        ensures
            *r == self.index_version(),
    {
        &self.index
    }

    /// A retriever with an empty corpus and a freshly generated key.
    pub fn new(index: IndexVersion) -> (r: Self)
        ensures
            r.documents() == Seq::<RetrievedDocument>::empty(),
            r.index_version() == index,
            r.secret_key().len() == 32,
    {
        AttestingRetriever { corpus: Vec::new(), index, signing_key: generate_secret_key() }
    }

    /// A retriever with an empty corpus and the given 32-byte secret key.
    pub fn with_key(index: IndexVersion, secret_key: Vec<u8>) -> (r: Self)
        requires
            secret_key@.len() == 32,
        ensures
            r.documents() == Seq::<RetrievedDocument>::empty(),
            r.index_version() == index,
            r.secret_key() == secret_key@,
    {
        AttestingRetriever { corpus: Vec::new(), index, signing_key: secret_key }
    }

    /// Adds a document, recording the hex BLAKE3 digest of its content.
    pub fn insert(&mut self, doc_id: String, content: String)
        ensures
            final(self).documents() == old(self).documents().push(
                RetrievedDocument {
                    doc_id,
                    source_url: None,
                    content,
                    content_hash: final(self).documents().last().content_hash,
                },
            ),
            final(self).documents().last().content_hash@ == content_digest_hex(content@),
            final(self).documents().last().content_hash@.len() == 64,
            final(self).index_version() == old(self).index_version(),
            final(self).secret_key() == old(self).secret_key(),
    {
        proof {
            use_type_invariant(&*self);
        }
        let content_hash = encode(blake3_digest(content.as_str().as_bytes()).as_slice());
        let doc = RetrievedDocument { doc_id, source_url: None, content, content_hash };
        let mut corpus: Vec<RetrievedDocument> = Vec::new();
        std::mem::swap(&mut corpus, &mut self.corpus);
        corpus.push(doc);
        self.corpus = corpus;
    }

    /// The 32-byte public key of the signing key.
    pub fn verifying_key(&self) -> (r: Vec<u8>)
        ensures
            r@ == ed25519_public_key(self.secret_key()),
            r@.len() == 32,
            ed25519_key_decodes(r@),
    {
        proof {
            use_type_invariant(self);
        }
        public_key_of(self.signing_key.as_slice())
    }

    /// Signs the canonical payload of a query digest and document digests
    /// at the current time.
    fn sign(&self, query_hash: &str, doc_hashes: &Vec<String>) -> (r: Result<RetrievalAttestation, AssuranceError>)
        ensures
            r matches Ok(a) && {
                &&& a.query_hash@ == query_hash@
                &&& a.doc_hashes@ == doc_hashes@
                &&& a.index == self.index_version()
                &&& a.signer_pubkey@ == hex_encode_spec(ed25519_public_key(self.secret_key()))
                &&& a.signature@ == hex_encode_spec(
                    ed25519_signature(self.secret_key(), attestation_message(a)),
                )
                &&& attestation_verifies(a.signer_pubkey@, a)
                &&& a.signer_pubkey@.len() == 64
                &&& a.signature@.len() == 128
            },
    {
        proof {
            use_type_invariant(self);
        }
        let ran_at = Timestamp::now();
        let index = self.index.clone();
        let canonical = canonical_attestation_payload(query_hash, doc_hashes, &index, &ran_at);
        let sig = sign_message(self.signing_key.as_slice(), canonical.as_str().as_bytes());
        let public = self.verifying_key();
        let hashes = doc_hashes.clone();
        assert(hashes@ =~= doc_hashes@);
        let a = RetrievalAttestation {
            query_hash: String::from_str(query_hash),
            doc_hashes: hashes,
            index,
            ran_at,
            signer_pubkey: encode(public.as_slice()),
            signature: encode(sig.as_slice()),
        };
        proof {
            crate::hex::lemma_decode_encode(public@);
            crate::hex::lemma_decode_encode(sig@);
            assert(attestation_message(a) == encode_utf8(canonical@));
        }
        Ok(a)
    }
}

/// The predicate of documents that match a query text.
pub open spec fn query_filter(query_text: Seq<char>) -> spec_fn(RetrievedDocument) -> bool {
    |d: RetrievedDocument| matches_query(query_text, d)
}

/// The content digests of documents.
pub open spec fn content_hashes(docs: Seq<RetrievedDocument>) -> Seq<Seq<char>> {
    docs.map_values(|d: RetrievedDocument| d.content_hash@)
}

impl RetrievalProvider for AttestingRetriever {
    /// Returns, in corpus order, every document whose lowercased content
    /// contains the lowercased query text, with an attestation over the
    /// query digest and their content digests, signed at the current time.
    /// The attestation verifies under this retriever's public key.
    fn retrieve(&self, query: &Query) -> (r: Result<AttestedRetrieval, AssuranceError>)
        ensures
            r matches Ok(ar) && {
                &&& ar.documents@ == self.documents().filter(query_filter(query.text@))
                &&& ar.attestation.query_hash@ == content_digest_hex(query.text@)
                &&& string_views(ar.attestation.doc_hashes@) == content_hashes(ar.documents@)
                &&& ar.attestation.index == self.index_version()
                &&& ar.attestation.signer_pubkey@ == hex_encode_spec(ed25519_public_key(self.secret_key()))
                &&& ar.attestation.signature@ == hex_encode_spec(
                    ed25519_signature(self.secret_key(), attestation_message(ar.attestation)),
                )
                &&& attestation_verifies(
                    hex_encode_spec(ed25519_public_key(self.secret_key())),
                    ar.attestation,
                )
                &&& ar.attestation.query_hash@.len() == 64
                &&& ar.attestation.signer_pubkey@.len() == 64
                &&& ar.attestation.signature@.len() == 128
                &&& forall|i: int| 0 <= i < ar.documents@.len() ==> (#[trigger] ar.documents@[i]).content_hash@.len() == 64
                &&& forall|i: int| 0 <= i < ar.documents@.len() ==> (#[trigger] ar.documents@[i]).content_hash@
                    == content_digest_hex(ar.documents@[i].content@)
            },
    {
        proof {
            use_type_invariant(self);
        }
        let needle = to_lowercase(query.text.as_str());
        let ghost pred = query_filter(query.text@);
        let mut docs: Vec<RetrievedDocument> = Vec::new();
        let mut hashes: Vec<String> = Vec::new();
        let n = self.corpus.len();
        for i in 0..n
            invariant
                n == self.corpus@.len(),
                needle@ == str_to_lowercase(query.text@),
                pred == query_filter(query.text@),
                docs@ == self.corpus@.take(i as int).filter(pred),
                string_views(hashes@) == content_hashes(docs@),
                forall|j: int| 0 <= j < docs@.len() ==> (#[trigger] docs@[j]).content_hash@.len() == 64,
                forall|j: int| 0 <= j < docs@.len() ==> (#[trigger] docs@[j]).content_hash@ == content_digest_hex(
                    docs@[j].content@,
                ),
        {
            proof {
                use_type_invariant(self);
                reveal(Seq::filter);
                assert(self.corpus@.take(i + 1).drop_last() =~= self.corpus@.take(i as int));
                assert(self.corpus@.take(i + 1).last() == self.corpus@[i as int]);
            }
            let d = &self.corpus[i];
            let lowered = to_lowercase(d.content.as_str());
            if contains_str(lowered.as_str(), needle.as_str()) {
                let ghost before_docs = docs@;
                let ghost before_hashes = hashes@;
                docs.push(d.clone());
                hashes.push(d.content_hash.clone());
                proof {
                    let bd = before_docs;
                    let bh = before_hashes;
                    assert(string_views(bh).len() == bh.len());
                    assert(content_hashes(bd).len() == bd.len());
                    assert(bh.len() == bd.len());
                    assert(docs@ == bd.push(*d));
                    assert(hashes@ == bh.push(d.content_hash));
                    assert forall|j: int| 0 <= j < docs@.len() implies string_views(hashes@)[j] == content_hashes(docs@)[j] by {
                        if j < bd.len() {
                            assert(hashes@[j] == bh[j]);
                            assert(docs@[j] == bd[j]);
                            assert(string_views(bh)[j] == content_hashes(bd)[j]);
                        } else {
                            assert(hashes@[j] == d.content_hash);
                            assert(docs@[j] == *d);
                        }
                    }
                    assert(string_views(hashes@) =~= content_hashes(docs@));
                }
            }
        }
        assert(self.corpus@.take(n as int) =~= self.corpus@);
        let query_hash = encode(blake3_digest(query.text.as_str().as_bytes()).as_slice());
        let attestation = match self.sign(query_hash.as_str(), &hashes) {
            Ok(a) => a,
            Err(e) => {
                return Err(e);
            },
        };
        Ok(AttestedRetrieval { documents: docs, attestation })
    }
}

/// Whether checking an attestation gets as far as decoding its signature:
/// the key decodes from hex to 32 bytes that read as a public key.
pub open spec fn reaches_signature(pubkey_hex: Seq<char>) -> bool {
    hex_decode_spec(encode_utf8(pubkey_hex)) matches Ok(pk) && pk.len() == 32 && ed25519_key_decodes(pk)
}

/// What checking an attestation gives: whether it verifies, and which
/// error each malformed key or signature yields.
pub open spec fn attestation_check(
    pubkey_hex: &str,
    attestation: RetrievalAttestation,
    r: Result<bool, AssuranceError>,
) -> bool {
    &&& (r matches Ok(true)) <==> attestation_verifies(pubkey_hex@, attestation)
    &&& match hex_decode_spec(pubkey_hex.spec_bytes()) {
        Err(m) => r matches Err(AssuranceError::Attestation(e)) && e@ == "pubkey hex: "@ + m,
        Ok(pk) => if pk.len() != 32 {
            r matches Err(AssuranceError::Attestation(e)) && e@ == "pubkey length"@
        } else if !ed25519_key_decodes(pk) {
            r matches Err(AssuranceError::Attestation(e)) && e@ == "pubkey parse: "@ + point_decompression_message()
        } else {
            match hex_decode_spec(encode_utf8(attestation.signature@)) {
                Err(m) => r matches Err(AssuranceError::Attestation(e)) && e@ == "sig hex: "@ + m,
                Ok(sig) => if sig.len() != 64 {
                    r matches Err(AssuranceError::Attestation(e)) && e@ == "sig length"@
                } else {
                    r == Ok::<bool, AssuranceError>(ed25519_verifies(pk, attestation_message(attestation), sig))
                },
            }
        },
    }
}

/// Checks a persisted attestation against a public key given in hex.
///
/// A key that is not hex, not 32 bytes or not a curve point, and a
/// signature that is not hex or not 64 bytes, are attestation errors; a
/// well-formed signature gives whether it verifies for the canonical
/// payload.
pub fn verify_attestation(pubkey_hex: &str, attestation: &RetrievalAttestation) -> (r: Result<bool, AssuranceError>)
    requires
        hex_decode_slices_whole_chars(pubkey_hex.spec_bytes()),
        reaches_signature(pubkey_hex@) ==> hex_decode_slices_whole_chars(encode_utf8(attestation.signature@)),
    ensures
        attestation_check(pubkey_hex, *attestation, r),
{
    let pk = match decode(pubkey_hex) {
        Ok(pk) => pk,
        Err(e) => {
            let mut msg = String::from_str("pubkey hex: ");
            msg.append(e.as_str());
            return Err(AssuranceError::Attestation(msg));
        },
    };
    if pk.len() != 32 {
        return Err(AssuranceError::Attestation(String::from_str("pubkey length")));
    }
    match decode_public_key(pk.as_slice()) {
        Ok(()) => {},
        Err(e) => {
            let mut msg = String::from_str("pubkey parse: ");
            msg.append(e.as_str());
            return Err(AssuranceError::Attestation(msg));
        },
    }
    let sig = match decode(attestation.signature.as_str()) {
        Ok(sig) => sig,
        Err(e) => {
            let mut msg = String::from_str("sig hex: ");
            msg.append(e.as_str());
            return Err(AssuranceError::Attestation(msg));
        },
    };
    if sig.len() != 64 {
        return Err(AssuranceError::Attestation(String::from_str("sig length")));
    }
    let canonical = canonical_attestation_payload(
        attestation.query_hash.as_str(),
        &attestation.doc_hashes,
        &attestation.index,
        &attestation.ran_at,
    );
    Ok(verify_signature(pk.as_slice(), canonical.as_str().as_bytes(), sig.as_slice()))
}

/// Checks an attestation as `verify_attestation` does, or gives `None`
/// where decoding the key or the signature would slice a character apart.
pub fn try_verify_attestation(pubkey_hex: &str, attestation: &RetrievalAttestation) -> (r: Option<Result<bool, AssuranceError>>)
    ensures
        r is None <==> !hex_decode_slices_whole_chars(pubkey_hex.spec_bytes()) || (reaches_signature(pubkey_hex@)
            && !hex_decode_slices_whole_chars(encode_utf8(attestation.signature@))),
        r matches Some(v) ==> attestation_check(pubkey_hex, *attestation, v),
{
    if !slices_whole_chars(pubkey_hex) {
        return None;
    }
    let reaches = match decode(pubkey_hex) {
        Ok(pk) => pk.len() == 32 && decode_public_key(pk.as_slice()).is_ok(),
        Err(_) => false,
    };
    if reaches && !slices_whole_chars(attestation.signature.as_str()) {
        return None;
    }
    Some(verify_attestation(pubkey_hex, attestation))
}

/// Checking an attestation does not depend on the signer key that the
/// attestation carries about itself: two attestations that differ at most in
/// that key sign the same message and get the same outcome under the same
/// caller-supplied key.
pub proof fn law_check_ignores_carried_signer(
    pubkey_hex: &str,
    a: RetrievalAttestation,
    b: RetrievalAttestation,
)
    requires
        a.query_hash == b.query_hash,
        a.doc_hashes@ == b.doc_hashes@,
        a.index == b.index,
        a.ran_at == b.ran_at,
        a.signature == b.signature,
    ensures
        attestation_message(a) == attestation_message(b),
        attestation_verifies(pubkey_hex@, a) == attestation_verifies(pubkey_hex@, b),
        forall|r: Result<bool, AssuranceError>|
            #[trigger] attestation_check(pubkey_hex, a, r) == attestation_check(pubkey_hex, b, r),
{
}

/// A recorded digest is the BLAKE3 hash of the exact UTF-8 bytes of the
/// text, no normalization applied: its hex decodes back to that hash.
pub proof fn law_digest_is_of_exact_bytes(text: Seq<char>)
    ensures
        forall|i: int| 0 <= i < content_digest_hex(text).len() ==> {
            let c = #[trigger] content_digest_hex(text)[i] as u32;
            (48 <= c <= 57) || (97 <= c <= 102)
        },
        hex_decode_spec(encode_utf8(content_digest_hex(text))) == Ok::<Seq<u8>, Seq<char>>(
            blake3_hash(encode_utf8(text)),
        ),
{
    crate::hex::lemma_decode_encode(blake3_hash(encode_utf8(text)));
    crate::hex::law_encoding_is_lowercase_hex(blake3_hash(encode_utf8(text)));
}

/// A document matches a query exactly where the query's lowercased bytes
/// occur somewhere in the document's lowercased bytes, at the start or
/// anywhere after it.
pub proof fn law_match_is_substring(query_text: Seq<char>, d: RetrievedDocument)
    ensures
        ({
            let hay = encode_utf8(str_to_lowercase(d.content@));
            let needle = encode_utf8(str_to_lowercase(query_text));
            (query_filter(query_text))(d) <==> exists|i: int|
                0 <= i && i + needle.len() <= hay.len() && #[trigger] hay.subrange(i, i + needle.len()) == needle
        }),
{
    let hay = encode_utf8(str_to_lowercase(d.content@));
    let needle = encode_utf8(str_to_lowercase(query_text));
    crate::text::lemma_first_occurrence(hay, needle, 0);
    if let Some(i) = crate::text::first_occurrence_from(hay, needle, 0) {
        assert(hay.subrange(i, i + needle.len()) == needle);
    } else {
        assert forall|i: int| 0 <= i && i + needle.len() <= hay.len() implies #[trigger] hay.subrange(
            i,
            i + needle.len(),
        ) != needle by {
            assert(!crate::text::occurs_at(hay, needle, i));
        }
    }
}

} // verus!
