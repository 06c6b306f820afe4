//! Completion backends that honor the policy decision.
//!
//! * `Answer`: answer directly; the whole response is parametric.
//! * `Ground`: cite retrieved documents; each citation marker is a span
//!   backed by its document.
//! * `Abstain`: return a structured abstention; the refusal itself is a
//!   computation, not a fabrication.

use vstd::prelude::*;
use vstd::string::StringSliceAdditionalSpecFns;
use vstd::utf8::encode_utf8;
use crate::error::AssuranceError;
use crate::text::{
    char_prefix, find_bytes_from, first_occurrence_from, join_strings, join_with, occurs_at,
    string_views, take_chars, two_decimals, two_decimals_spec,
};
use crate::traits::LlmBackend;
use crate::types::{
    same_attestation, AbstainReason, Decision, GroundedPrompt, ProvenanceSource, ProvenanceSpan,
    ProvenancedOutput, RetrievedDocument,
};

verus! {

/// How many characters of a document a citation quotes.
pub const SUMMARY_CHARS: usize = 140usize;

/// The first 140 characters of a document's content.
pub fn summarize(s: &str) -> (r: String)
    ensures
        r@ == char_prefix(s@, SUMMARY_CHARS as nat),
{
    take_chars(s, SUMMARY_CHARS)
}

/// The structured abstention text for a reason.
pub open spec fn abstain_message(reason: AbstainReason) -> Seq<char> {
    match reason {
        AbstainReason::LongTailEntity { .. } => "I don't have reliable information about this specific entity. It appears to be a long-tail business not well-represented in my training data, and retrieval returned no matching documents. Rather than fabricate plausible-sounding details, I'm declining to answer. Try providing the entity's NMLS ID, CIK, or a primary-source document to ground the response."@,
        AbstainReason::RetrievalMiss => "Retrieval returned no documents for this query. I'm declining to answer from parametric memory alone on a factual question."@,
        AbstainReason::LowCalibratedConfidence { score } => "Calibrated confidence ("@ + two_decimals_spec(score as nat)
            + ") is below the grounding threshold. Declining to answer rather than fabricate."@,
        AbstainReason::ConflictingSources => "Retrieved sources conflict on the factual question. Declining to synthesize a single answer without human review."@,
    }
}

/// The structured abstention text for a reason.
pub fn abstain_text(reason: &AbstainReason) -> (r: String)
    ensures
        r@ == abstain_message(*reason),
{
    match reason {
        AbstainReason::LongTailEntity { .. } => String::from_str(
            "I don't have reliable information about this specific entity. It appears to be a long-tail business not well-represented in my training data, and retrieval returned no matching documents. Rather than fabricate plausible-sounding details, I'm declining to answer. Try providing the entity's NMLS ID, CIK, or a primary-source document to ground the response.",
        ),
        AbstainReason::RetrievalMiss => String::from_str(
            "Retrieval returned no documents for this query. I'm declining to answer from parametric memory alone on a factual question.",
        ),
        AbstainReason::LowCalibratedConfidence { score } => {
            let mut r = String::from_str("Calibrated confidence (");
            r.append(two_decimals(*score).as_str());
            r.append(") is below the grounding threshold. Declining to answer rather than fabricate.");
            r
        },
        AbstainReason::ConflictingSources => String::from_str(
            "Retrieved sources conflict on the factual question. Declining to synthesize a single answer without human review.",
        ),
    }
}

/// The documents that a grounded response cites: the first `k`.
pub open spec fn cited_documents(docs: Seq<RetrievedDocument>, k: nat) -> Seq<RetrievedDocument> {
    if docs.len() <= k {
        docs
    } else {
        docs.take(k as int)
    }
}

/// The citation marker of a document: `[<doc_id>]`.
pub open spec fn citation_marker(doc_id: Seq<char>) -> Seq<char> {
    "["@ + doc_id + "]"@
}

/// The source line of a cited document: its marker and a summary.
pub open spec fn citation_line(d: RetrievedDocument) -> Seq<char> {
    citation_marker(d.doc_id@) + " "@ + char_prefix(d.content@, SUMMARY_CHARS as nat)
}

/// The text of a grounded response.
pub open spec fn grounded_text(query: Seq<char>, cited: Seq<RetrievedDocument>) -> Seq<char> {
    "Grounded response for: "@ + query + "\n\nSources:\n"@ + join_with(
        cited.map_values(|d: RetrievedDocument| citation_line(d)),
        "\n"@,
    )
}

/// The spans of a grounded response: for each cited document in turn, the
/// first occurrence of its marker at or after the end of the previous
/// span (byte offsets into the text's UTF-8 encoding); a document whose
/// marker does not occur gets no span.
pub open spec fn citation_spans(text: Seq<u8>, cited: Seq<RetrievedDocument>, cursor: int) -> Seq<ProvenanceSpan>
    decreases cited.len(),
{
    if cited.len() == 0 {
        Seq::empty()
    } else {
        let marker = encode_utf8(citation_marker(cited[0].doc_id@));
        match first_occurrence_from(text, marker, cursor) {
            Some(start) => seq![
                ProvenanceSpan {
                    start: start as usize,
                    end: (start + marker.len()) as usize,
                    source: ProvenanceSource::Retrieved { doc_id: cited[0].doc_id },
                },
            ] + citation_spans(text, cited.skip(1), start + marker.len()),
            None => citation_spans(text, cited.skip(1), cursor),
        }
    }
}

/// The text of a direct answer.
pub open spec fn answer_text(query: Seq<char>) -> Seq<char> {
    "Direct answer to: "@ + query
}

/// The output that honors the prompt's decision: its text and spans, the
/// decision itself, and the retrieval's attestation.
pub open spec fn honors_decision(prompt: GroundedPrompt, out: ProvenancedOutput) -> bool {
    &&& out.decision == prompt.decision
    &&& out.attestation matches Some(a) && same_attestation(a, prompt.retrieval.attestation)
    &&& match prompt.decision {
        Decision::Abstain { reason } => {
            &&& out.text@ == abstain_message(reason)
            &&& out.spans@ == seq![
                ProvenanceSpan {
                    start: 0,
                    end: encode_utf8(out.text@).len() as usize,
                    source: ProvenanceSource::Computed { tool: out.spans@[0].source->tool },
                },
            ]
            &&& out.spans@[0].source->tool@ == "abstention-policy"@
        },
        Decision::Ground { min_citations } => {
            let cited = cited_documents(prompt.retrieval.documents@, min_citations as nat);
            &&& out.text@ == grounded_text(prompt.user_query@, cited)
            &&& out.spans@ == citation_spans(encode_utf8(out.text@), cited, 0)
        },
        Decision::Answer => {
            &&& out.text@ == answer_text(prompt.user_query@)
            &&& out.spans@ == seq![
                ProvenanceSpan {
                    start: 0,
                    end: encode_utf8(out.text@).len() as usize,
                    source: ProvenanceSource::Parametric,
                },
            ]
        },
    }
}

/// Deterministic stub backend: honors the policy decision and produces a
/// canned response.
pub struct StubBackend;

fn citation_line_text(d: &RetrievedDocument) -> (r: String)
    ensures
        r@ == citation_line(*d),
{
    let mut r = String::from_str("[");
    r.append(d.doc_id.as_str());
    r.append("]");
    r.append(" ");
    r.append(summarize(d.content.as_str()).as_str());
    assert(r@ =~= citation_line(*d));
    r
}

fn marker_text(doc_id: &String) -> (r: String)
    ensures
        r@ == citation_marker(doc_id@),
{
    let mut r = String::from_str("[");
    r.append(doc_id.as_str());
    r.append("]");
    assert(r@ =~= citation_marker(doc_id@));
    r
}

fn grounded_response(prompt: &GroundedPrompt, min_citations: usize) -> (r: (String, Vec<ProvenanceSpan>))
    ensures
        r.0@ == grounded_text(
            prompt.user_query@,
            cited_documents(prompt.retrieval.documents@, min_citations as nat),
        ),
        r.1@ == citation_spans(
            encode_utf8(r.0@),
            cited_documents(prompt.retrieval.documents@, min_citations as nat),
            0,
        ),
{
    let docs = &prompt.retrieval.documents;
    let k = if docs.len() <= min_citations {
        docs.len()
    } else {
        min_citations
    };
    let ghost cited = cited_documents(docs@, min_citations as nat);
    assert(cited =~= docs@.take(k as int));
    let mut lines: Vec<String> = Vec::new();
    for i in 0..k
        invariant
            k <= docs@.len(),
            cited == docs@.take(k as int),
            string_views(lines@) =~= docs@.take(i as int).map_values(|d: RetrievedDocument| citation_line(d)),
    {
        let line = citation_line_text(&docs[i]);
        let ghost before = lines@;
        lines.push(line);
        proof {
            assert(docs@.take(i + 1) =~= docs@.take(i as int).push(docs@[i as int]));
            assert(lines@ == before.push(line));
            assert(string_views(lines@) =~= string_views(before).push(line@));
        }
    }
    let mut text = String::from_str("Grounded response for: ");
    text.append(prompt.user_query.as_str());
    text.append("\n\nSources:\n");
    text.append(join_strings(&lines, "\n").as_str());
    assert(text@ == grounded_text(prompt.user_query@, cited));
    let bytes = text.as_str().as_bytes();
    let blen = bytes.len();
    let mut spans: Vec<ProvenanceSpan> = Vec::new();
    let mut cursor: usize = 0;
    assert(cited.skip(0) =~= cited);
    assert(spans@ + citation_spans(bytes@, cited, 0) =~= citation_spans(bytes@, cited, 0));
    for i in 0..k
        invariant
            k <= docs@.len(),
            cited == docs@.take(k as int),
            bytes@ == encode_utf8(text@),
            blen == bytes@.len(),
            cursor <= bytes@.len(),
            spans@ + citation_spans(bytes@, cited.skip(i as int), cursor as int) == citation_spans(
                bytes@,
                cited,
                0,
            ),
    {
        let ghost rest = cited.skip(i as int);
        assert(rest[0] == docs@[i as int]);
        assert(rest.skip(1) =~= cited.skip(i + 1));
        let marker = marker_text(&docs[i].doc_id);
        let marker_bytes = marker.as_str().as_bytes();
        match find_bytes_from(bytes, marker_bytes, cursor) {
            Some(pos) => {
                proof {
                    crate::text::lemma_first_occurrence(bytes@, marker_bytes@, cursor as int);
                    assert(crate::text::occurs_at(bytes@, marker_bytes@, pos as int));
                }
                let end = pos + marker_bytes.len();
                let span = ProvenanceSpan {
                    start: pos,
                    end,
                    source: ProvenanceSource::Retrieved { doc_id: docs[i].doc_id.clone() },
                };
                let ghost before = spans@;
                spans.push(span);
                assert(spans@ + citation_spans(bytes@, cited.skip(i + 1), end as int) =~= before + (
                seq![span] + citation_spans(bytes@, cited.skip(i + 1), end as int)));
                cursor = end;
            },
            None => {},
        }
    }
    assert(cited.skip(k as int) =~= Seq::<RetrievedDocument>::empty());
    assert(spans@ + Seq::<ProvenanceSpan>::empty() =~= spans@);
    (text, spans)
}

impl LlmBackend for StubBackend {
    open spec fn spec_name(&self) -> Seq<char> {
        "stub"@
    }

    fn name(&self) -> (r: &str) {
        proof {
            reveal_strlit("stub");
        }
        "stub"
    }

    /// Honors the decision: abstains with a structured message, grounds in
    /// the first `min_citations` documents, or answers directly. Never fails.
    fn complete(&self, prompt: &GroundedPrompt) -> (r: Result<ProvenancedOutput, AssuranceError>)
        ensures
            r matches Ok(out) && honors_decision(*prompt, out),
    {
        match &prompt.decision {
            Decision::Abstain { reason } => {
                let text = abstain_text(reason);
                let end = text.as_str().len();
                let span = ProvenanceSpan {
                    start: 0,
                    end,
                    source: ProvenanceSource::Computed { tool: String::from_str("abstention-policy") },
                };
                let mut spans: Vec<ProvenanceSpan> = Vec::new();
                spans.push(span);
                assert(spans@ =~= seq![span]);
                Ok(ProvenancedOutput {
                    text,
                    spans,
                    decision: prompt.decision.clone(),
                    attestation: Some(prompt.retrieval.attestation.clone()),
                })
            },
            Decision::Ground { min_citations } => {
                let (text, spans) = grounded_response(prompt, *min_citations);
                Ok(ProvenancedOutput {
                    text,
                    spans,
                    decision: prompt.decision.clone(),
                    attestation: Some(prompt.retrieval.attestation.clone()),
                })
            },
            Decision::Answer => {
                let mut text = String::from_str("Direct answer to: ");
                text.append(prompt.user_query.as_str());
                let end = text.as_str().len();
                let span = ProvenanceSpan { start: 0, end, source: ProvenanceSource::Parametric };
                let mut spans: Vec<ProvenanceSpan> = Vec::new();
                spans.push(span);
                assert(spans@ =~= seq![span]);
                Ok(ProvenancedOutput {
                    text,
                    spans,
                    decision: prompt.decision.clone(),
                    attestation: Some(prompt.retrieval.attestation.clone()),
                })
            },
        }
    }
}

/// Every span of a grounded response marks a citation: it lies in the text
/// at or after where the search started, its bytes are exactly the marker
/// `[<doc_id>]` of a cited document, and the spans come in order without
/// overlapping. There is at most one span per cited document.
pub proof fn law_citation_spans_mark_citations(text: Seq<u8>, cited: Seq<RetrievedDocument>, cursor: int)
    requires
        0 <= cursor,
        text.len() <= usize::MAX,
    ensures
        citation_spans(text, cited, cursor).len() <= cited.len(),
        forall|i: int| 0 <= i < citation_spans(text, cited, cursor).len() ==> {
            let sp = #[trigger] citation_spans(text, cited, cursor)[i];
            &&& cursor <= sp.start <= sp.end <= text.len()
            &&& sp.source matches ProvenanceSource::Retrieved { doc_id } && {
                &&& text.subrange(sp.start as int, sp.end as int) == encode_utf8(citation_marker(doc_id@))
                &&& exists|j: int| 0 <= j < cited.len() && #[trigger] cited[j].doc_id == doc_id
            }
        },
        forall|i: int| 0 <= i < citation_spans(text, cited, cursor).len() - 1
            ==> #[trigger] citation_spans(text, cited, cursor)[i].end <= citation_spans(text, cited, cursor)[i + 1].start,
    decreases cited.len(),
{
    let spans = citation_spans(text, cited, cursor);
    if cited.len() > 0 {
        let marker = encode_utf8(citation_marker(cited[0].doc_id@));
        crate::text::lemma_first_occurrence(text, marker, cursor);
        let tail = cited.skip(1);
        assert forall|j: int| 0 <= j < tail.len() implies tail[j] == cited[j + 1] by {}
        match first_occurrence_from(text, marker, cursor) {
            Some(start) => {
                let next = start + marker.len();
                law_citation_spans_mark_citations(text, tail, next);
                let rest = citation_spans(text, tail, next);
                assert(spans == seq![
                    ProvenanceSpan {
                        start: start as usize,
                        end: next as usize,
                        source: ProvenanceSource::Retrieved { doc_id: cited[0].doc_id },
                    },
                ] + rest);
                assert forall|i: int| 0 <= i < spans.len() implies {
                    let sp = #[trigger] spans[i];
                    &&& cursor <= sp.start <= sp.end <= text.len()
                    &&& sp.source matches ProvenanceSource::Retrieved { doc_id } && {
                        &&& text.subrange(sp.start as int, sp.end as int) == encode_utf8(citation_marker(doc_id@))
                        &&& exists|j: int| 0 <= j < cited.len() && #[trigger] cited[j].doc_id == doc_id
                    }
                } by {
                    if i == 0 {
                        assert(cited[0].doc_id == cited[0].doc_id);
                    } else {
                        assert(spans[i] == rest[i - 1]);
                        let sp = rest[i - 1];
                        if let ProvenanceSource::Retrieved { doc_id } = sp.source {
                            let j = choose|j: int| 0 <= j < tail.len() && #[trigger] tail[j].doc_id == doc_id;
                            assert(cited[j + 1].doc_id == doc_id);
                        }
                    }
                }
                assert forall|i: int| 0 <= i < spans.len() - 1 implies #[trigger] spans[i].end <= spans[i + 1].start by {
                    if i == 0 {
                        if rest.len() > 0 {
                            assert(spans[1] == rest[0]);
                        }
                    } else {
                        assert(spans[i] == rest[i - 1]);
                        assert(spans[i + 1] == rest[i]);
                    }
                }
            },
            None => {
                law_citation_spans_mark_citations(text, tail, cursor);
                let rest = citation_spans(text, tail, cursor);
                assert(spans == rest);
                assert forall|i: int| 0 <= i < spans.len() implies {
                    let sp = #[trigger] spans[i];
                    &&& cursor <= sp.start <= sp.end <= text.len()
                    &&& sp.source matches ProvenanceSource::Retrieved { doc_id } && {
                        &&& text.subrange(sp.start as int, sp.end as int) == encode_utf8(citation_marker(doc_id@))
                        &&& exists|j: int| 0 <= j < cited.len() && #[trigger] cited[j].doc_id == doc_id
                    }
                } by {
                    let sp = rest[i];
                    if let ProvenanceSource::Retrieved { doc_id } = sp.source {
                        let j = choose|j: int| 0 <= j < tail.len() && #[trigger] tail[j].doc_id == doc_id;
                        assert(cited[j + 1].doc_id == doc_id);
                    }
                }
            },
        }
    }
}

/// The UTF-8 encoding of two joined texts is the two encodings joined.
proof fn lemma_encode_append(a: Seq<char>, b: Seq<char>)
    ensures
        encode_utf8(a + b) == encode_utf8(a) + encode_utf8(b),
    decreases a.len(),
{
    if a.len() == 0 {
        assert(a + b =~= b);
        assert(encode_utf8(a) =~= Seq::<u8>::empty());
        assert(encode_utf8(a) + encode_utf8(b) =~= encode_utf8(b));
    } else {
        assert((a + b)[0] == a[0]);
        assert((a + b).drop_first() =~= a.drop_first() + b);
        lemma_encode_append(a.drop_first(), b);
    }
}

/// Where the spans search from the cursor, and each cited document's marker
/// occurs at a position of its own, at or after the cursor and after the
/// previous one's marker, every cited document gets a span, in order.
proof fn lemma_spans_follow_markers(text: Seq<u8>, cited: Seq<RetrievedDocument>, cursor: int, pos: Seq<int>)
    requires
        pos.len() == cited.len(),
        0 <= cursor,
        cited.len() > 0 ==> cursor <= pos[0],
        forall|i: int| 0 <= i < cited.len() ==> occurs_at(text, encode_utf8(citation_marker(cited[i].doc_id@)), #[trigger] pos[i]),
        forall|i: int| 0 <= i < cited.len() - 1
            ==> #[trigger] pos[i] + encode_utf8(citation_marker(cited[i].doc_id@)).len() <= pos[i + 1],
    ensures
        citation_spans(text, cited, cursor).len() == cited.len(),
        forall|i: int| 0 <= i < cited.len()
            ==> (#[trigger] citation_spans(text, cited, cursor)[i]).source == (ProvenanceSource::Retrieved { doc_id: cited[i].doc_id }),
    decreases cited.len(),
{
    if cited.len() > 0 {
        let marker = encode_utf8(citation_marker(cited[0].doc_id@));
        crate::text::lemma_first_occurrence(text, marker, cursor);
        assert(occurs_at(text, marker, pos[0]));
        let tail = cited.skip(1);
        let tpos = pos.skip(1);
        match first_occurrence_from(text, marker, cursor) {
            Some(start) => {
                assert(start <= pos[0]);
                let next = start + marker.len();
                assert forall|i: int| 0 <= i < tail.len() implies occurs_at(
                    text,
                    encode_utf8(citation_marker(tail[i].doc_id@)),
                    #[trigger] tpos[i],
                ) by {
                    assert(tail[i] == cited[i + 1]);
                    assert(tpos[i] == pos[i + 1]);
                }
                assert forall|i: int| 0 <= i < tail.len() - 1 implies #[trigger] tpos[i] + encode_utf8(
                    citation_marker(tail[i].doc_id@),
                ).len() <= tpos[i + 1] by {
                    assert(tail[i] == cited[i + 1]);
                    assert(tpos[i] == pos[i + 1]);
                    assert(tpos[i + 1] == pos[i + 2]);
                }
                if tail.len() > 0 {
                    assert(pos[0] + marker.len() <= pos[1]);
                    assert(tpos[0] == pos[1]);
                }
                lemma_spans_follow_markers(text, tail, next, tpos);
                let rest = citation_spans(text, tail, next);
                let spans = citation_spans(text, cited, cursor);
                assert(spans == seq![
                    ProvenanceSpan {
                        start: start as usize,
                        end: next as usize,
                        source: ProvenanceSource::Retrieved { doc_id: cited[0].doc_id },
                    },
                ] + rest);
                assert forall|i: int| 0 <= i < cited.len() implies (#[trigger] spans[i]).source == (
                ProvenanceSource::Retrieved { doc_id: cited[i].doc_id }) by {
                    if i > 0 {
                        assert(spans[i] == rest[i - 1]);
                        assert(tail[i - 1] == cited[i]);
                    }
                }
            },
            None => {
                assert(false);
            },
        }
    }
}

/// A prefix of the parts joins to a prefix of the whole join.
proof fn lemma_join_prefix(parts: Seq<Seq<char>>, sep: Seq<char>, m: int)
    requires
        0 <= m <= parts.len(),
    ensures
        join_with(parts.take(m), sep).len() <= join_with(parts, sep).len(),
        join_with(parts, sep).take(join_with(parts.take(m), sep).len() as int) == join_with(parts.take(m), sep),
    decreases parts.len() - m,
{
    let whole = join_with(parts, sep);
    let pre = join_with(parts.take(m), sep);
    if m == parts.len() {
        assert(parts.take(m) =~= parts);
        assert(whole.take(whole.len() as int) =~= whole);
    } else {
        lemma_join_prefix(parts, sep, m + 1);
        let next = join_with(parts.take(m + 1), sep);
        if m == 0 {
            assert(parts.take(0) =~= Seq::<Seq<char>>::empty());
            assert(pre =~= Seq::<char>::empty());
            assert(whole.take(0) =~= pre);
        } else {
            assert(parts.take(m + 1).drop_last() =~= parts.take(m));
            assert(next == pre + sep + parts[m]);
            assert(whole.take(pre.len() as int) =~= next.take(pre.len() as int));
            assert(next.take(pre.len() as int) =~= pre);
        }
    }
}

/// Where the `i`-th part starts in the join of the parts.
pub open spec fn part_offset(parts: Seq<Seq<char>>, sep: Seq<char>, i: int) -> int {
    join_with(parts.take(i), sep).len() + if i > 0 {
        sep.len() as int
    } else {
        0
    }
}

/// Each part stands in the join at its offset, and the next part starts
/// one separator after it ends.
proof fn lemma_join_part(parts: Seq<Seq<char>>, sep: Seq<char>, i: int)
    requires
        0 <= i < parts.len(),
    ensures
        0 <= part_offset(parts, sep, i),
        part_offset(parts, sep, i) + parts[i].len() <= join_with(parts, sep).len(),
        join_with(parts, sep).subrange(part_offset(parts, sep, i), part_offset(parts, sep, i) + parts[i].len())
            == parts[i],
        i + 1 < parts.len() ==> part_offset(parts, sep, i + 1) == part_offset(parts, sep, i) + parts[i].len()
            + sep.len(),
{
    let whole = join_with(parts, sep);
    let pre = join_with(parts.take(i), sep);
    let next = join_with(parts.take(i + 1), sep);
    let off = part_offset(parts, sep, i);
    lemma_join_prefix(parts, sep, i + 1);
    if i == 0 {
        assert(parts.take(1) =~= seq![parts[0]]);
        assert(next == parts[0]);
        assert(parts.take(0) =~= Seq::<Seq<char>>::empty());
        assert(off == 0);
    } else {
        assert(parts.take(i + 1).drop_last() =~= parts.take(i));
        assert(next == pre + sep + parts[i]);
    }
    assert(off + parts[i].len() == next.len());
    assert(whole.subrange(off, off + parts[i].len()) =~= next.subrange(off, off + parts[i].len()));
    assert(next.subrange(off, off + parts[i].len()) =~= parts[i]);
}

/// The heading of a grounded response, before its source lines.
pub open spec fn grounded_heading(query: Seq<char>) -> Seq<char> {
    "Grounded response for: "@ + query + "\n\nSources:\n"@
}

/// The source lines of a grounded response.
pub open spec fn citation_lines(cited: Seq<RetrievedDocument>) -> Seq<Seq<char>> {
    cited.map_values(|d: RetrievedDocument| citation_line(d))
}

/// The byte at which the `i`-th source line of a grounded response starts.
pub open spec fn line_byte_offset(query: Seq<char>, cited: Seq<RetrievedDocument>, i: int) -> int {
    encode_utf8(
        grounded_text(query, cited).take(
            grounded_heading(query).len() + part_offset(citation_lines(cited), "\n"@, i),
        ),
    ).len() as int
}

/// The marker of the `i`-th cited document stands where its source line
/// starts, and the next line starts after it.
proof fn lemma_marker_in_grounded_text(query: Seq<char>, cited: Seq<RetrievedDocument>, i: int)
    requires
        0 <= i < cited.len(),
    ensures
        occurs_at(
            encode_utf8(grounded_text(query, cited)),
            encode_utf8(citation_marker(cited[i].doc_id@)),
            line_byte_offset(query, cited, i),
        ),
        i + 1 < cited.len() ==> line_byte_offset(query, cited, i) + encode_utf8(
            citation_marker(cited[i].doc_id@),
        ).len() <= line_byte_offset(query, cited, i + 1),
{
    let parts = citation_lines(cited);
    let sep = "\n"@;
    let head = grounded_heading(query);
    let text = grounded_text(query, cited);
    let joined = join_with(parts, sep);
    assert(text == head + joined);
    lemma_join_part(parts, sep, i);
    let marker = citation_marker(cited[i].doc_id@);
    let line = parts[i];
    assert(line == citation_line(cited[i]));
    assert(line.subrange(0, marker.len() as int) =~= marker);
    let c = head.len() + part_offset(parts, sep, i);
    let e = c + marker.len();
    assert(text.subrange(c, e) =~= joined.subrange(
        part_offset(parts, sep, i),
        part_offset(parts, sep, i) + marker.len(),
    ));
    assert(joined.subrange(part_offset(parts, sep, i), part_offset(parts, sep, i) + marker.len())
        =~= line.subrange(0, marker.len() as int));
    let before = text.take(c);
    let after = text.skip(e);
    assert(text =~= before + marker + after);
    lemma_encode_append(before + marker, after);
    lemma_encode_append(before, marker);
    let eb = encode_utf8(before);
    let em = encode_utf8(marker);
    let et = encode_utf8(text);
    assert(et == eb + em + encode_utf8(after));
    assert(et.subrange(eb.len() as int, (eb.len() + em.len()) as int) =~= em);
    if i + 1 < cited.len() {
        let c2 = head.len() + part_offset(parts, sep, i + 1);
        lemma_join_part(parts, sep, i + 1);
        assert(c2 >= e);
        assert(c2 <= text.len());
        let mid = text.subrange(e, c2);
        assert(text.take(c2) =~= (before + marker) + mid);
        lemma_encode_append(before + marker, mid);
        assert(encode_utf8(text.take(c2)).len() >= eb.len() + em.len());
    }
}

/// In a grounded response every cited document gets exactly one span, in
/// the order in which the documents are cited: the `i`-th span marks the
/// `i`-th cited document.
pub proof fn law_grounded_response_cites_each_document(query: Seq<char>, cited: Seq<RetrievedDocument>)
    ensures
        citation_spans(encode_utf8(grounded_text(query, cited)), cited, 0).len() == cited.len(),
        forall|i: int| 0 <= i < cited.len()
            ==> (#[trigger] citation_spans(encode_utf8(grounded_text(query, cited)), cited, 0)[i]).source
            == (ProvenanceSource::Retrieved { doc_id: cited[i].doc_id }),
{
    let text = encode_utf8(grounded_text(query, cited));
    let pos = Seq::new(cited.len(), |i: int| line_byte_offset(query, cited, i));
    assert forall|i: int| 0 <= i < cited.len() implies occurs_at(
        text,
        encode_utf8(citation_marker(cited[i].doc_id@)),
        #[trigger] pos[i],
    ) by {
        lemma_marker_in_grounded_text(query, cited, i);
    }
    assert forall|i: int| 0 <= i < cited.len() - 1 implies #[trigger] pos[i] + encode_utf8(
        citation_marker(cited[i].doc_id@),
    ).len() <= pos[i + 1] by {
        lemma_marker_in_grounded_text(query, cited, i);
    }
    lemma_spans_follow_markers(text, cited, 0, pos);
}

/// The backend honors the decision it is given: the output carries the
/// prompt's decision and attestation, and the text and spans follow the
/// decision (an abstention is one computed span over the whole text, a
/// direct answer one parametric span, a grounded response one span for each
/// of its first `min_citations` documents, in order).
pub proof fn law_output_follows_decision(prompt: GroundedPrompt, out: ProvenancedOutput)
    requires
        honors_decision(prompt, out),
        encode_utf8(out.text@).len() <= usize::MAX,
    ensures
        out.decision == prompt.decision,
        prompt.decision is Abstain ==> out.spans@.len() == 1 && out.spans@[0].source is Computed,
        prompt.decision is Answer ==> out.spans@.len() == 1 && out.spans@[0].source is Parametric,
        prompt.decision matches Decision::Ground { min_citations } ==> {
            let cited = cited_documents(prompt.retrieval.documents@, min_citations as nat);
            &&& out.spans@.len() <= min_citations
            &&& out.spans@.len() == cited.len()
            &&& forall|i: int| 0 <= i < cited.len()
                ==> (#[trigger] out.spans@[i]).source == (ProvenanceSource::Retrieved { doc_id: cited[i].doc_id })
        },
{
    if let Decision::Ground { min_citations } = prompt.decision {
        let cited = cited_documents(prompt.retrieval.documents@, min_citations as nat);
        law_citation_spans_mark_citations(encode_utf8(out.text@), cited, 0);
        law_grounded_response_cites_each_document(prompt.user_query@, cited);
    }
}

/// A source line quotes its document's first 140 characters: a document of
/// at most 140 characters is quoted whole, after its marker and a space.
pub proof fn law_source_line_quotes_140_characters(d: RetrievedDocument)
    ensures
        d.content@.len() <= 140 ==> char_prefix(d.content@, SUMMARY_CHARS as nat) == d.content@,
        d.content@.len() > 140 ==> char_prefix(d.content@, SUMMARY_CHARS as nat) == d.content@.subrange(0, 140),
        d.content@.len() <= 140 ==> citation_line(d) == "["@ + d.doc_id@ + "] "@ + d.content@,
        d.content@.len() > 140 ==> citation_line(d) == "["@ + d.doc_id@ + "] "@ + d.content@.subrange(0, 140),
{
    assert("["@ + d.doc_id@ + "]"@ + " "@ =~= "["@ + d.doc_id@ + "] "@) by {
        reveal_strlit("[");
        reveal_strlit("]");
        reveal_strlit(" ");
        reveal_strlit("] ");
    }
}

/// A grounded response is its heading followed by one source line per cited
/// document, in citation order, one per line: citing one more document
/// adds a line break and that document's source line at the end.
pub proof fn law_grounded_text_lists_sources_in_order(
    query: Seq<char>,
    cited: Seq<RetrievedDocument>,
    d: RetrievedDocument,
)
    ensures
        grounded_text(query, Seq::empty()) == "Grounded response for: "@ + query + "\n\nSources:\n"@,
        grounded_text(query, seq![d]) == "Grounded response for: "@ + query + "\n\nSources:\n"@ + citation_line(d),
        cited.len() > 0 ==> grounded_text(query, cited.push(d)) == grounded_text(query, cited) + "\n"@
            + citation_line(d),
{
    let f = |x: RetrievedDocument| citation_line(x);
    assert(Seq::<RetrievedDocument>::empty().map_values(f) =~= Seq::<Seq<char>>::empty());
    assert(seq![d].map_values(f) =~= seq![citation_line(d)]);
    let lines = cited.push(d).map_values(f);
    assert(lines.drop_last() =~= cited.map_values(f));
    assert(lines.last() == citation_line(d));
    assert(Seq::<char>::empty() + Seq::<char>::empty() =~= Seq::<char>::empty());
    assert("Grounded response for: "@ + query + "\n\nSources:\n"@ + Seq::<char>::empty() =~= "Grounded response for: "@
        + query + "\n\nSources:\n"@);
    if cited.len() > 0 {
        let head = "Grounded response for: "@ + query + "\n\nSources:\n"@;
        let j = join_with(cited.map_values(f), "\n"@);
        assert(head + (j + "\n"@ + citation_line(d)) =~= head + j + "\n"@ + citation_line(d));
    }
}

} // verus!
