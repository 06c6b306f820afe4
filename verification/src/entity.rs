//! Entity resolution against registry fixtures, and confidence scoring.
//!
//! Absence of a registry match is the strongest single signal that an
//! entity lies in the long-tail failure region.

use vstd::prelude::*;
use crate::error::AssuranceError;
use crate::text::{
    is_white_space, str_to_lowercase, to_lowercase, trim, trim_end_spec, trim_spec, trim_start_spec,
};
use crate::traits::{ConfidenceScorer, EntityResolver};
use crate::types::{
    Confidence, ConfidenceSignal, EntityCandidate, ExternalId, PopularityTier, SCORE_ONE,
};

verus! {

// ── Keyed entries ───────────────────────────────────────────────────────────

/// The map that a list of entries stands for: a later entry for a key
/// replaces an earlier one.
pub open spec fn assoc_map<V>(entries: Seq<(Seq<char>, V)>) -> Map<Seq<char>, V>
    decreases entries.len(),
{
    if entries.len() == 0 {
        Map::empty()
    } else {
        assoc_map(entries.drop_last()).insert(entries.last().0, entries.last().1)
    }
}

/// No key occurs twice.
pub open spec fn keys_unique<V>(entries: Seq<(Seq<char>, V)>) -> bool {
    forall|i: int, j: int| 0 <= i < j < entries.len() ==> entries[i].0 != entries[j].0
}

/// Entries keyed by the characters of their `String` key.
pub open spec fn keyed<V>(entries: Seq<(String, V)>) -> Seq<(Seq<char>, V)> {
    entries.map_values(|e: (String, V)| (e.0@, e.1))
}

proof fn lemma_assoc_lookup<V>(entries: Seq<(Seq<char>, V)>, i: int)
    requires
        keys_unique(entries),
        0 <= i < entries.len(),
    ensures
        assoc_map(entries).contains_key(entries[i].0),
        assoc_map(entries)[entries[i].0] == entries[i].1,
    decreases entries.len(),
{
    if i < entries.len() - 1 {
        let pre = entries.drop_last();
        assert(pre[i] == entries[i]);
        lemma_assoc_lookup(pre, i);
    }
}

proof fn lemma_assoc_absent<V>(entries: Seq<(Seq<char>, V)>, k: Seq<char>)
    requires
        forall|i: int| 0 <= i < entries.len() ==> entries[i].0 != k,
    ensures
        !assoc_map(entries).contains_key(k),
    decreases entries.len(),
{
    if entries.len() > 0 {
        let pre = entries.drop_last();
        assert forall|i: int| 0 <= i < pre.len() implies pre[i].0 != k by {
            assert(pre[i] == entries[i]);
        }
        lemma_assoc_absent(pre, k);
    }
}

proof fn lemma_assoc_update<V>(entries: Seq<(Seq<char>, V)>, i: int, v: V)
    requires
        keys_unique(entries),
        0 <= i < entries.len(),
    ensures
        assoc_map(entries.update(i, (entries[i].0, v))) =~= assoc_map(entries).insert(entries[i].0, v),
    decreases entries.len(),
{
    let k = entries[i].0;
    let new = entries.update(i, (k, v));
    let pre = entries.drop_last();
    if i == entries.len() - 1 {
        assert(new.drop_last() =~= pre);
    } else {
        assert(new.drop_last() =~= pre.update(i, (k, v)));
        assert(pre[i] == entries[i]);
        lemma_assoc_update(pre, i, v);
        assert(entries.last().0 != k);
    }
}

/// Sets the value of `key`, adding an entry where the key is new.
fn upsert<V>(entries: &mut Vec<(String, V)>, key: String, value: V)
    requires
        keys_unique(keyed(old(entries)@)),
    ensures
        keys_unique(keyed(final(entries)@)),
        assoc_map(keyed(final(entries)@)) == assoc_map(keyed(old(entries)@)).insert(key@, value),
{
    let ghost before = keyed(entries@);
    match position_of(entries, &key) {
        Some(i) => {
            proof {
                lemma_assoc_update(before, i as int, value);
            }
            entries.set(i, (key, value));
            assert(keyed(entries@) =~= before.update(i as int, (before[i as int].0, value)));
            assert(forall|j: int| 0 <= j < before.len() ==> #[trigger] keyed(entries@)[j].0 == before[j].0);
        },
        None => {
            entries.push((key, value));
            assert(keyed(entries@).drop_last() =~= before);
            assert(forall|j: int| 0 <= j < before.len() ==> #[trigger] keyed(entries@)[j] == before[j]);
        },
    }
}

/// The index of the entry whose key is `key`.
fn position_of<V>(entries: &Vec<(String, V)>, key: &String) -> (r: Option<usize>)
    ensures
        r matches Some(i) ==> i < entries@.len() && keyed(entries@)[i as int].0 == key@,
        r is None ==> forall|i: int| 0 <= i < entries@.len() ==> keyed(entries@)[i].0 != key@,
{
    let n = entries.len();
    for i in 0..n
        invariant
            n == entries@.len(),
            forall|j: int| 0 <= j < i ==> keyed(entries@)[j].0 != key@,
    {
        if entries[i].0 == *key {
            return Some(i);
        }
    }
    None
}

// ── Normalization ───────────────────────────────────────────────────────────

/// The key of a surface form: trimmed, then lowercased.
pub open spec fn normalized(s: Seq<char>) -> Seq<char> {
    str_to_lowercase(trim_spec(s))
}

/// The key of a surface form: trimmed, then lowercased.
pub fn normalize(s: &str) -> (r: String)
    ensures
        r@ == normalized(s@),
{
    to_lowercase(trim(s))
}

/// Trimming the front of two joined texts: the front of the first, then all
/// of the second, unless the first is all white space.
proof fn lemma_trim_start_append(s: Seq<char>, t: Seq<char>)
    ensures
        trim_start_spec(s + t) == if trim_start_spec(s).len() > 0 {
            trim_start_spec(s) + t
        } else {
            trim_start_spec(t)
        },
    decreases s.len(),
{
    if s.len() == 0 {
        assert(s + t =~= t);
    } else {
        assert((s + t)[0] == s[0]);
        if is_white_space(s[0]) {
            assert((s + t).drop_first() =~= s.drop_first() + t);
            lemma_trim_start_append(s.drop_first(), t);
        }
    }
}

/// The key of a surface form ignores white space around it: a white-space
/// character added in front or at the end leaves the key unchanged.
pub proof fn law_key_ignores_surrounding_white_space(s: Seq<char>, c: char)
    requires
        is_white_space(c),
    ensures
        normalized(seq![c] + s) == normalized(s),
        normalized(s + seq![c]) == normalized(s),
{
    let front = seq![c] + s;
    assert(front[0] == c);
    assert(front.drop_first() =~= s);
    assert(trim_start_spec(front) == trim_start_spec(s));
    lemma_trim_start_append(s, seq![c]);
    let ts = trim_start_spec(s);
    if ts.len() > 0 {
        let back = ts + seq![c];
        assert(back.last() == c);
        assert(back.drop_last() =~= ts);
        assert(trim_end_spec(back) == trim_end_spec(ts));
    } else {
        let none = Seq::<char>::empty();
        let one = seq![c];
        assert(one[0] == c);
        assert(one.drop_first() =~= none);
        assert(trim_start_spec(none) == none);
        assert(trim_start_spec(one) == none);
        assert(trim_end_spec(none) == none);
        assert(ts =~= none);
    }
    assert(trim_spec(s + seq![c]) == trim_spec(s));
}

/// The tier that a fixture label names; anything unrecognized is unknown.
pub open spec fn tier_from_label(s: Seq<char>) -> PopularityTier {
    if s == "head"@ {
        PopularityTier::Head
    } else if s == "torso"@ {
        PopularityTier::Torso
    } else if s == "long-tail"@ || s == "longtail"@ {
        PopularityTier::LongTail
    } else {
        PopularityTier::Unknown
    }
}

/// The tier that a fixture label names.
pub fn parse_tier(s: &str) -> (t: PopularityTier)
    ensures
        t == tier_from_label(s@),
{
    let label = String::from_str(s);
    if label == String::from_str("head") {
        PopularityTier::Head
    } else if label == String::from_str("torso") {
        PopularityTier::Torso
    } else if label == String::from_str("long-tail") || label == String::from_str("longtail") {
        PopularityTier::LongTail
    } else {
        PopularityTier::Unknown
    }
}

/// Maps an error message to a resolution error.
pub fn wrap(message: String) -> (e: AssuranceError)
    ensures
        e == AssuranceError::Resolution(message),
{
    AssuranceError::Resolution(message)
}

// ── Registry resolver ───────────────────────────────────────────────────────

/// One row of a registry fixture: a surface form, the registry IDs it
/// resolves to, and optionally a tier label.
#[derive(Debug)]
pub struct FixtureRow {
    pub surface: String,
    pub ids: Vec<ExternalId>,
    pub tier: Option<String>,
}

/// The identifier table after loading `rows` in order.
pub open spec fn load_identifiers(
    table: Map<Seq<char>, Vec<ExternalId>>,
    rows: Seq<FixtureRow>,
) -> Map<Seq<char>, Vec<ExternalId>> {
    rows.fold_left(table, |acc: Map<Seq<char>, Vec<ExternalId>>, r: FixtureRow| acc.insert(normalized(r.surface@), r.ids))
}

/// The tier table after loading `rows` in order: a row without a tier
/// leaves the table as it is.
pub open spec fn load_tiers(
    tiers: Map<Seq<char>, PopularityTier>,
    rows: Seq<FixtureRow>,
) -> Map<Seq<char>, PopularityTier> {
    rows.fold_left(
        tiers,
        |acc: Map<Seq<char>, PopularityTier>, r: FixtureRow| match r.tier {
            Some(t) => acc.insert(normalized(r.surface@), tier_from_label(t@)),
            None => acc,
        },
    )
}

/// The identifiers that a mention resolves to: those of its key, or none.
pub open spec fn resolved_identifiers(
    table: Map<Seq<char>, Vec<ExternalId>>,
    surface: Seq<char>,
) -> Seq<ExternalId> {
    let key = normalized(surface);
    if table.contains_key(key) {
        table[key]@
    } else {
        Seq::empty()
    }
}

/// The tier that a mention resolves to: the fixture's tier for its key,
/// else long tail where it has identifiers and unknown where it has none.
pub open spec fn resolved_tier(
    table: Map<Seq<char>, Vec<ExternalId>>,
    tiers: Map<Seq<char>, PopularityTier>,
    surface: Seq<char>,
) -> PopularityTier {
    let key = normalized(surface);
    if tiers.contains_key(key) {
        tiers[key]
    } else if resolved_identifiers(table, surface).len() == 0 {
        PopularityTier::Unknown
    } else {
        PopularityTier::LongTail
    }
}

/// In-memory registry resolver backed by fixture tables keyed by the
/// normalized surface form.
pub struct RegistryResolver {
    table: Vec<(String, Vec<ExternalId>)>,
    tiers: Vec<(String, PopularityTier)>,
}

impl RegistryResolver {
    #[verifier::type_invariant]
    spec fn keys_are_unique(self) -> bool {
        &&& keys_unique(keyed(self.table@))
        &&& keys_unique(keyed(self.tiers@))
    }

    /// The registry IDs known for each key.
    pub closed spec fn identifier_table(self) -> Map<Seq<char>, Vec<ExternalId>> {
        assoc_map(keyed(self.table@))
    }

    /// The tier known for each key.
    pub closed spec fn tier_table(self) -> Map<Seq<char>, PopularityTier> {
        assoc_map(keyed(self.tiers@))
    }

    /// An empty resolver: every mention is unknown.
    pub fn new() -> (r: Self)
        ensures
            r.identifier_table() == Map::<Seq<char>, Vec<ExternalId>>::empty(),
            r.tier_table() == Map::<Seq<char>, PopularityTier>::empty(),
    {
        let r = RegistryResolver { table: Vec::new(), tiers: Vec::new() };
        assert(keyed(r.table@) =~= Seq::empty());
        assert(keyed(r.tiers@) =~= Seq::empty());
        r
    }

    /// Loads fixture rows in order: each row sets the identifiers of its
    /// normalized surface form, and its tier where it gives one.
    pub fn load_rows(&mut self, rows: Vec<FixtureRow>)
        ensures
            final(self).identifier_table() == load_identifiers(old(self).identifier_table(), rows@),
            final(self).tier_table() == load_tiers(old(self).tier_table(), rows@),
    {
        proof {
            use_type_invariant(&*self);
        }
        let mut table: Vec<(String, Vec<ExternalId>)> = Vec::new();
        std::mem::swap(&mut table, &mut self.table);
        let mut tiers: Vec<(String, PopularityTier)> = Vec::new();
        std::mem::swap(&mut tiers, &mut self.tiers);
        let ghost table0 = assoc_map(keyed(table@));
        let ghost tiers0 = assoc_map(keyed(tiers@));
        let ghost all = rows@;
        let mut rows = rows;
        assert(all.len() == rows.len());
        let mut k: usize = 0;
        while rows.len() > 0
            invariant
                keys_unique(keyed(table@)),
                keys_unique(keyed(tiers@)),
                k <= all.len(),
                all.len() <= usize::MAX,
                rows@ == all.skip(k as int),
                assoc_map(keyed(table@)) == load_identifiers(table0, all.take(k as int)),
                assoc_map(keyed(tiers@)) == load_tiers(tiers0, all.take(k as int)),
            decreases rows@.len(),
        {
            let FixtureRow { surface, ids, tier } = rows.remove(0);
            let ghost row = all[k as int];
            assert(all.take(k + 1).drop_last() =~= all.take(k as int));
            assert(all.take(k + 1).last() == row);
            let key = normalize(surface.as_str());
            upsert(&mut table, key.clone(), ids);
            match tier {
                Some(t) => {
                    upsert(&mut tiers, key, parse_tier(t.as_str()));
                },
                None => {},
            }
            k = k + 1;
            assert(rows@ =~= all.skip(k as int));
        }
        assert(all.take(k as int) =~= all);
        self.table = table;
        self.tiers = tiers;
    }
}

impl Default for RegistryResolver {
    fn default() -> (r: Self)
        ensures
            r.identifier_table() == Map::<Seq<char>, Vec<ExternalId>>::empty(),
            r.tier_table() == Map::<Seq<char>, PopularityTier>::empty(),
    {
        Self::new()
    }
}

impl EntityResolver for RegistryResolver {
    /// Resolves by the normalized surface form; resolution always succeeds.
    fn resolve(&self, surface: &str) -> (r: Result<EntityCandidate, AssuranceError>)
        ensures
            r matches Ok(c) && {
                &&& c.surface@ == surface@
                &&& c.identifiers@ == resolved_identifiers(self.identifier_table(), surface@)
                &&& c.tier == resolved_tier(self.identifier_table(), self.tier_table(), surface@)
            },
    {
        proof {
            use_type_invariant(self);
        }
        let key = normalize(surface);
        let identifiers: Vec<ExternalId> = match position_of(&self.table, &key) {
            Some(i) => {
                proof {
                    lemma_assoc_lookup(keyed(self.table@), i as int);
                }
                let ids = self.table[i].1.clone();
                assert(ids@ =~= self.table@[i as int].1@);
                ids
            },
            None => {
                proof {
                    lemma_assoc_absent(keyed(self.table@), key@);
                }
                Vec::new()
            },
        };
        let tier = match position_of(&self.tiers, &key) {
            Some(i) => {
                proof {
                    lemma_assoc_lookup(keyed(self.tiers@), i as int);
                }
                self.tiers[i].1
            },
            None => {
                proof {
                    lemma_assoc_absent(keyed(self.tiers@), key@);
                }
                if identifiers.len() == 0 {
                    PopularityTier::Unknown
                } else {
                    PopularityTier::LongTail
                }
            },
        };
        Ok(EntityCandidate { surface: String::from_str(surface), identifiers, tier })
    }
}


// ── Confidence scoring ──────────────────────────────────────────────────────

/// Σ weight · value over the signals, in millionths squared.
pub open spec fn weighted_sum(signals: Seq<ConfidenceSignal>) -> nat
    decreases signals.len(),
{
    if signals.len() == 0 {
        0
    } else {
        weighted_sum(signals.drop_last()) + (signals.last().weight as nat) * (signals.last().value as nat)
    }
}

/// The calibrated score: Σ weight · value, in millionths, clamped to one.
pub open spec fn weighted_score(signals: Seq<ConfidenceSignal>) -> nat {
    let s = weighted_sum(signals) / (SCORE_ONE as nat);
    if s < SCORE_ONE as nat {
        s
    } else {
        SCORE_ONE as nat
    }
}

/// Whether every weight and value lies in `[0, 1]`.
pub open spec fn signals_bounded(signals: Seq<ConfidenceSignal>) -> bool {
    forall|i: int| 0 <= i < signals.len() ==> #[trigger] signals[i].weight <= SCORE_ONE && signals[i].value <= SCORE_ONE
}

proof fn lemma_weighted_sum_bound(signals: Seq<ConfidenceSignal>)
    requires
        signals_bounded(signals),
    ensures
        weighted_sum(signals) <= signals.len() * 1_000_000_000_000,
    decreases signals.len(),
{
    if signals.len() > 0 {
        let pre = signals.drop_last();
        assert forall|i: int| 0 <= i < pre.len() implies #[trigger] pre[i].weight <= SCORE_ONE && pre[i].value <= SCORE_ONE by {
            assert(pre[i] == signals[i]);
        }
        lemma_weighted_sum_bound(pre);
        let w = signals.last().weight as nat;
        let v = signals.last().value as nat;
        assert(signals[signals.len() - 1].weight <= SCORE_ONE);
        assert(w * v <= 1_000_000_000_000) by (nonlinear_arith)
            requires
                w <= 1_000_000,
                v <= 1_000_000,
        ;
    }
}

/// The calibrated score of bounded signals.
fn combine_signals(signals: &Vec<ConfidenceSignal>) -> (r: u32)
    requires
        signals_bounded(signals@),
    ensures
        r == weighted_score(signals@),
{
    let n = signals.len();
    let mut acc: u128 = 0;
    for i in 0..n
        invariant
            n == signals@.len(),
            signals_bounded(signals@),
            acc == weighted_sum(signals@.take(i as int)),
    {
        proof {
            let pre = signals@.take(i + 1);
            assert(pre.drop_last() =~= signals@.take(i as int));
            assert forall|j: int| 0 <= j < pre.len() implies #[trigger] pre[j].weight <= SCORE_ONE && pre[j].value <= SCORE_ONE by {
                assert(pre[j] == signals@[j]);
            }
            lemma_weighted_sum_bound(pre);
            assert((i + 1) * 1_000_000_000_000 <= 18446744073709551616 * 1_000_000_000_000) by (nonlinear_arith)
                requires
                    i + 1 <= 18446744073709551616,
            ;
        }
        let w = signals[i].weight as u128;
        let v = signals[i].value as u128;
        acc = acc + w * v;
    }
    assert(signals@.take(n as int) =~= signals@);
    let s = acc / 1_000_000;
    if s < 1_000_000 {
        s as u32
    } else {
        SCORE_ONE
    }
}

/// The popularity-tier signal, in millionths.
pub open spec fn tier_signal(tier: PopularityTier) -> u32 {
    match tier {
        PopularityTier::Head => 950_000,
        PopularityTier::Torso => 700_000,
        PopularityTier::LongTail => 250_000,
        PopularityTier::Unknown => 50_000,
    }
}

/// The registry-match signal, in millionths.
pub open spec fn registry_signal(has_identifiers: bool) -> u32 {
    if has_identifiers {
        400_000
    } else {
        0
    }
}

/// The reference score: 0.7 · tier signal + 0.3 · registry signal.
pub open spec fn registry_score(tier: PopularityTier, has_identifiers: bool) -> nat {
    (700_000 * (tier_signal(tier) as nat) + 300_000 * (registry_signal(has_identifiers) as nat)) / 1_000_000
}

/// The two signals of the reference scorer, weights summing to one.
pub open spec fn registry_signals_of(signals: Seq<ConfidenceSignal>, entity: EntityCandidate) -> bool {
    &&& signals.len() == 2
    &&& signals[0].name@ == "popularity_tier"@
    &&& signals[0].weight == 700_000
    &&& signals[0].value == tier_signal(entity.tier)
    &&& signals[1].name@ == "registry_id_present"@
    &&& signals[1].weight == 300_000
    &&& signals[1].value == registry_signal(entity.identifiers@.len() > 0)
}

/// Reference confidence scorer: conservative, treating absence of a
/// registry match as a near-zero prior.
pub struct RegistryConfidenceScorer;

impl ConfidenceScorer for RegistryConfidenceScorer {
    fn score(&self, entity: &EntityCandidate) -> (r: Result<Confidence, AssuranceError>)
        ensures
            r matches Ok(c) && {
                &&& registry_signals_of(c.signals@, *entity)
                &&& c.score == weighted_score(c.signals@)
                &&& c.score == registry_score(entity.tier, entity.identifiers@.len() > 0)
            },
    {
        let tier_value: u32 = match entity.tier {
            PopularityTier::Head => 950_000,
            PopularityTier::Torso => 700_000,
            PopularityTier::LongTail => 250_000,
            PopularityTier::Unknown => 50_000,
        };
        let id_value: u32 = if entity.identifiers.len() == 0 {
            0
        } else {
            400_000
        };
        let mut signals: Vec<ConfidenceSignal> = Vec::new();
        signals.push(ConfidenceSignal {
            name: String::from_str("popularity_tier"),
            weight: 700_000,
            value: tier_value,
        });
        signals.push(ConfidenceSignal {
            name: String::from_str("registry_id_present"),
            weight: 300_000,
            value: id_value,
        });
        proof {
            let sg = signals@;
            let s1 = sg.drop_last();
            assert(s1.drop_last() =~= Seq::<ConfidenceSignal>::empty());
            assert(s1.last() == sg[0]);
            assert(weighted_sum(s1.drop_last()) == 0);
            assert(weighted_sum(s1) == 700_000 * (tier_value as nat));
            assert(weighted_sum(sg) == 700_000 * (tier_value as nat) + 300_000 * (id_value as nat));
        }
        let score = combine_signals(&signals);
        Ok(Confidence { score, signals })
    }
}

/// Scores stay within `[0, 1]`.
pub proof fn law_score_bounded(signals: Seq<ConfidenceSignal>)
    ensures
        weighted_score(signals) <= SCORE_ONE,
{
}

/// An entity with no registry match and no known tier scores below 0.1:
/// it resolves as unknown without identifiers, and the reference scorer
/// gives it 0.035.
pub proof fn law_unmatched_entity_scores_low(
    table: Map<Seq<char>, Vec<ExternalId>>,
    tiers: Map<Seq<char>, PopularityTier>,
    surface: Seq<char>,
)
    requires
        !table.contains_key(normalized(surface)),
        !tiers.contains_key(normalized(surface)),
    ensures
        resolved_identifiers(table, surface).len() == 0,
        resolved_tier(table, tiers, surface) == PopularityTier::Unknown,
        registry_score(resolved_tier(table, tiers, surface), resolved_identifiers(table, surface).len() > 0)
            == 35_000,
        registry_score(resolved_tier(table, tiers, surface), resolved_identifiers(table, surface).len() > 0)
            < 100_000,
{
}

/// Mentions that normalize alike resolve alike.
pub proof fn law_resolution_ignores_case_and_padding(
    table: Map<Seq<char>, Vec<ExternalId>>,
    tiers: Map<Seq<char>, PopularityTier>,
    a: Seq<char>,
    b: Seq<char>,
)
    requires
        normalized(a) == normalized(b),
    ensures
        resolved_identifiers(table, a) == resolved_identifiers(table, b),
        resolved_tier(table, tiers, a) == resolved_tier(table, tiers, b),
{
}

/// A fixture row with identifiers and no tier makes its mention a
/// long-tail entity, unless the key already had a tier.
pub proof fn law_identified_mention_defaults_to_long_tail(
    table: Map<Seq<char>, Vec<ExternalId>>,
    tiers: Map<Seq<char>, PopularityTier>,
    surface: Seq<char>,
)
    requires
        table.contains_key(normalized(surface)),
        table[normalized(surface)]@.len() > 0,
        !tiers.contains_key(normalized(surface)),
    ensures
        resolved_tier(table, tiers, surface) == PopularityTier::LongTail,
{
}

/// Loading fixture rows leaves the identifiers of the last row's surface
/// form as the identifiers of that key: a later row replaces an earlier one.
pub proof fn law_last_fixture_row_wins(
    table: Map<Seq<char>, Vec<ExternalId>>,
    tiers: Map<Seq<char>, PopularityTier>,
    rows: Seq<FixtureRow>,
)
    requires
        rows.len() > 0,
    ensures
        load_identifiers(table, rows)[normalized(rows.last().surface@)] == rows.last().ids,
        load_identifiers(table, rows).contains_key(normalized(rows.last().surface@)),
        rows.last().tier matches Some(t) ==> load_tiers(tiers, rows)[normalized(rows.last().surface@)]
            == tier_from_label(t@),
{
}

/// The reference scorer's weights sum to one, so its score is a weighted
/// average of its signals.
pub proof fn law_reference_weights_sum_to_one(signals: Seq<ConfidenceSignal>, entity: EntityCandidate)
    requires
        registry_signals_of(signals, entity),
    ensures
        signals[0].weight + signals[1].weight == SCORE_ONE,
        weighted_score(signals) == registry_score(entity.tier, entity.identifiers@.len() > 0),
{
    let s1 = signals.drop_last();
    assert(s1.drop_last() =~= Seq::<ConfidenceSignal>::empty());
    assert(s1.last() == signals[0]);
    assert(weighted_sum(s1.drop_last()) == 0);
    assert(weighted_sum(s1) == 700_000 * (signals[0].value as nat));
    assert(weighted_sum(signals) == 700_000 * (signals[0].value as nat) + 300_000 * (signals[1].value as nat));
    assert(weighted_sum(signals) <= 785_000_000_000);
}

/// A loaded key resolves to all of its registry IDs, in order: resolving a
/// mention whose key was given a list of IDs returns that list whole, and
/// after loading fixture rows the last row's mention resolves to the last
/// row's IDs.
pub proof fn law_resolution_returns_all_loaded_ids(
    table: Map<Seq<char>, Vec<ExternalId>>,
    surface: Seq<char>,
    ids: Vec<ExternalId>,
    rows: Seq<FixtureRow>,
)
    ensures
        resolved_identifiers(table.insert(normalized(surface), ids), surface) == ids@,
        rows.len() > 0 ==> resolved_identifiers(load_identifiers(table, rows), rows.last().surface@)
            == rows.last().ids@,
{
    if rows.len() > 0 {
        law_last_fixture_row_wins(table, Map::empty(), rows);
    }
}

} // verus!
