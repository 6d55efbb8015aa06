//! Structured cause entries and the order they are kept in.
//!
//! A cause explains why a value changed: which target it concerns, a code from
//! a closed set, and an optional note. Cause lists are kept in the order of
//! `(target, code, note)`, where strings compare by their bytes, codes by
//! their position in the set, and an absent note comes before any note.

use vstd::prelude::*;
use vstd::string::StringExecFns;

use crate::text::{
    lemma_bytes_order_chain, lemma_bytes_order_flip, lemma_text_order_equal, order_text,
    text_order,
};

verus! {

/// Canonical cause code for simulation diagnostics.
#[derive(Clone, Copy, Debug, PartialEq, Eq, PartialOrd, Ord, Hash, Structural)]
pub enum Code {
    LatitudeBelt,
    OrographicLift,
    SeasonalShift,
    SeasonalityVariance,
    HadleyCell,
    HadleyDrift,
    MonsoonOnset,
    RainShadow,
    HumidityTransport,
    EnergyBalanceAdjustment,
    OrogenyBelt,
    VolcanicAerosolPulse,
    SubsidenceDeltas,
    InsolationGradient,
    ObliquityShift,
    PrecessionPhase,
    SolarCyclePeak,
    TideNeap,
    TideSpring,
    SoilFertilityLow,
    DroughtFlag,
    FloodFlag,
    AlbedoFeedback,
    GlacierMassBalance,
    FreshwaterPulse,
    IceMassVariation,
    PermafrostThaw,
    SnowmeltSurge,
    SeaLevelContribution,
    EraEnd,
    StagnationWarning,
    CollapseWarning,
}

impl Code {
    /// Position of the code in the closed set; codes are ordered by it.
    pub open spec fn rank_of(self) -> int {
        match self {
            Code::LatitudeBelt => 0,
            Code::OrographicLift => 1,
            Code::SeasonalShift => 2,
            Code::SeasonalityVariance => 3,
            Code::HadleyCell => 4,
            Code::HadleyDrift => 5,
            Code::MonsoonOnset => 6,
            Code::RainShadow => 7,
            Code::HumidityTransport => 8,
            Code::EnergyBalanceAdjustment => 9,
            Code::OrogenyBelt => 10,
            Code::VolcanicAerosolPulse => 11,
            Code::SubsidenceDeltas => 12,
            Code::InsolationGradient => 13,
            Code::ObliquityShift => 14,
            Code::PrecessionPhase => 15,
            Code::SolarCyclePeak => 16,
            Code::TideNeap => 17,
            Code::TideSpring => 18,
            Code::SoilFertilityLow => 19,
            Code::DroughtFlag => 20,
            Code::FloodFlag => 21,
            Code::AlbedoFeedback => 22,
            Code::GlacierMassBalance => 23,
            Code::FreshwaterPulse => 24,
            Code::IceMassVariation => 25,
            Code::PermafrostThaw => 26,
            Code::SnowmeltSurge => 27,
            Code::SeaLevelContribution => 28,
            Code::EraEnd => 29,
            Code::StagnationWarning => 30,
            Code::CollapseWarning => 31,
        }
    }

    /// The snake-case name of the code.
    pub open spec fn label_text(self) -> Seq<char> {
        match self {
            Code::LatitudeBelt => "latitude_belt"@,
            Code::OrographicLift => "orographic_lift"@,
            Code::SeasonalShift => "seasonal_shift"@,
            Code::SeasonalityVariance => "seasonality_variance"@,
            Code::HadleyCell => "hadley_cell"@,
            Code::HadleyDrift => "hadley_drift"@,
            Code::MonsoonOnset => "monsoon_onset"@,
            Code::RainShadow => "rain_shadow"@,
            Code::HumidityTransport => "humidity_transport"@,
            Code::EnergyBalanceAdjustment => "energy_balance_adjustment"@,
            Code::OrogenyBelt => "orogeny_belt"@,
            Code::VolcanicAerosolPulse => "volcanic_aerosol_pulse"@,
            Code::SubsidenceDeltas => "subsidence_deltas"@,
            Code::InsolationGradient => "insolation_gradient"@,
            Code::ObliquityShift => "obliquity_shift"@,
            Code::PrecessionPhase => "precession_phase"@,
            Code::SolarCyclePeak => "solar_cycle_peak"@,
            Code::TideNeap => "tide_neap"@,
            Code::TideSpring => "tide_spring"@,
            Code::SoilFertilityLow => "soil_fertility_low"@,
            Code::DroughtFlag => "drought_flag"@,
            Code::FloodFlag => "flood_flag"@,
            Code::AlbedoFeedback => "albedo_feedback"@,
            Code::GlacierMassBalance => "glacier_mass_balance"@,
            Code::FreshwaterPulse => "freshwater_pulse"@,
            Code::IceMassVariation => "ice_mass_variation"@,
            Code::PermafrostThaw => "permafrost_thaw"@,
            Code::SnowmeltSurge => "snowmelt_surge"@,
            Code::SeaLevelContribution => "sea_level_contribution"@,
            Code::EraEnd => "era_end"@,
            Code::StagnationWarning => "stagnation_warning"@,
            Code::CollapseWarning => "collapse_warning"@,
        }
    }

    /// Position of the code in the closed set.
    pub fn rank(&self) -> (out: u8)
        ensures
            out as int == self.rank_of(),
    {
        match self {
            Code::LatitudeBelt => 0,
            Code::OrographicLift => 1,
            Code::SeasonalShift => 2,
            Code::SeasonalityVariance => 3,
            Code::HadleyCell => 4,
            Code::HadleyDrift => 5,
            Code::MonsoonOnset => 6,
            Code::RainShadow => 7,
            Code::HumidityTransport => 8,
            Code::EnergyBalanceAdjustment => 9,
            Code::OrogenyBelt => 10,
            Code::VolcanicAerosolPulse => 11,
            Code::SubsidenceDeltas => 12,
            Code::InsolationGradient => 13,
            Code::ObliquityShift => 14,
            Code::PrecessionPhase => 15,
            Code::SolarCyclePeak => 16,
            Code::TideNeap => 17,
            Code::TideSpring => 18,
            Code::SoilFertilityLow => 19,
            Code::DroughtFlag => 20,
            Code::FloodFlag => 21,
            Code::AlbedoFeedback => 22,
            Code::GlacierMassBalance => 23,
            Code::FreshwaterPulse => 24,
            Code::IceMassVariation => 25,
            Code::PermafrostThaw => 26,
            Code::SnowmeltSurge => 27,
            Code::SeaLevelContribution => 28,
            Code::EraEnd => 29,
            Code::StagnationWarning => 30,
            Code::CollapseWarning => 31,
        }
    }

    /// The snake-case name of the code.
    pub fn label(&self) -> (out: &'static str)
        ensures
            out@ == self.label_text(),
    {
        match self {
            Code::LatitudeBelt => "latitude_belt",
            Code::OrographicLift => "orographic_lift",
            Code::SeasonalShift => "seasonal_shift",
            Code::SeasonalityVariance => "seasonality_variance",
            Code::HadleyCell => "hadley_cell",
            Code::HadleyDrift => "hadley_drift",
            Code::MonsoonOnset => "monsoon_onset",
            Code::RainShadow => "rain_shadow",
            Code::HumidityTransport => "humidity_transport",
            Code::EnergyBalanceAdjustment => "energy_balance_adjustment",
            Code::OrogenyBelt => "orogeny_belt",
            Code::VolcanicAerosolPulse => "volcanic_aerosol_pulse",
            Code::SubsidenceDeltas => "subsidence_deltas",
            Code::InsolationGradient => "insolation_gradient",
            Code::ObliquityShift => "obliquity_shift",
            Code::PrecessionPhase => "precession_phase",
            Code::SolarCyclePeak => "solar_cycle_peak",
            Code::TideNeap => "tide_neap",
            Code::TideSpring => "tide_spring",
            Code::SoilFertilityLow => "soil_fertility_low",
            Code::DroughtFlag => "drought_flag",
            Code::FloodFlag => "flood_flag",
            Code::AlbedoFeedback => "albedo_feedback",
            Code::GlacierMassBalance => "glacier_mass_balance",
            Code::FreshwaterPulse => "freshwater_pulse",
            Code::IceMassVariation => "ice_mass_variation",
            Code::PermafrostThaw => "permafrost_thaw",
            Code::SnowmeltSurge => "snowmelt_surge",
            Code::SeaLevelContribution => "sea_level_contribution",
            Code::EraEnd => "era_end",
            Code::StagnationWarning => "stagnation_warning",
            Code::CollapseWarning => "collapse_warning",
        }
    }
}

/// Structured cause entry used for diagnostics and auditing.
#[derive(Debug, PartialEq, Eq)]
pub struct Entry {
    pub target: String,
    pub code: Code,
    pub note: Option<String>,
}

/// What an entry says: its target and note as character sequences.
pub struct EntryView {
    pub target: Seq<char>,
    pub code: Code,
    pub note: Option<Seq<char>>,
}

impl View for Entry {
    type V = EntryView;

    open spec fn view(&self) -> EntryView {
        EntryView {
            target: self.target@,
            code: self.code,
            note: match self.note {
                Some(text) => Some(text@),
                None => None,
            },
        }
    }
}

impl Clone for Entry {
    fn clone(&self) -> (out: Self)
        ensures
            out == *self,
    {
        let note = match &self.note {
            Some(text) => Some(text.clone()),
            None => None,
        };
        Entry { target: self.target.clone(), code: self.code, note }
    }
}

impl Entry {
    /// Build an entry for `target`.
    pub fn new(target: &str, code: Code, note: Option<String>) -> (out: Self)
        ensures
            out.target@ == target@,
            out.code == code,
            out.note == note,
            out@ == (EntryView {
                target: target@,
                code,
                note: match note {
                    Some(text) => Some(text@),
                    None => None,
                },
            }),
    {
        Entry { target: String::from_str(target), code, note }
    }
}

/// Order of two optional notes: an absent note comes first, two notes compare
/// as strings.
pub open spec fn note_order(a: Option<Seq<char>>, b: Option<Seq<char>>) -> int {
    match (a, b) {
        (None, None) => 0,
        (None, Some(_)) => -1,
        (Some(_), None) => 1,
        (Some(x), Some(y)) => text_order(x, y),
    }
}

/// Order of two codes by rank.
pub open spec fn code_order(a: Code, b: Code) -> int {
    if a.rank_of() < b.rank_of() {
        -1
    } else if a.rank_of() > b.rank_of() {
        1
    } else {
        0
    }
}

/// Order of two entries by `(target, code, note)`: `-1`, `0` or `1`.
pub open spec fn entry_order(a: EntryView, b: EntryView) -> int {
    let by_target = text_order(a.target, b.target);
    if by_target != 0 {
        by_target
    } else if code_order(a.code, b.code) != 0 {
        code_order(a.code, b.code)
    } else {
        note_order(a.note, b.note)
    }
}

/// Swapping the arguments of the entry order negates it.
pub proof fn lemma_entry_order_flip(a: EntryView, b: EntryView)
    ensures
        entry_order(b, a) == -entry_order(a, b),
        -1 <= entry_order(a, b) <= 1,
{
    lemma_bytes_order_flip(vstd::utf8::encode_utf8(a.target), vstd::utf8::encode_utf8(b.target));
    if let (Some(x), Some(y)) = (a.note, b.note) {
        lemma_bytes_order_flip(vstd::utf8::encode_utf8(x), vstd::utf8::encode_utf8(y));
    }
}

/// The entry order is transitive.
pub proof fn lemma_entry_order_chain(a: EntryView, b: EntryView, c: EntryView)
    requires
        entry_order(a, b) <= 0,
        entry_order(b, c) <= 0,
    ensures
        entry_order(a, c) <= 0,
        entry_order(a, c) == 0 ==> entry_order(a, b) == 0 && entry_order(b, c) == 0,
{
    let ta = vstd::utf8::encode_utf8(a.target);
    let tb = vstd::utf8::encode_utf8(b.target);
    let tc = vstd::utf8::encode_utf8(c.target);
    lemma_bytes_order_flip(ta, tb);
    lemma_bytes_order_flip(tb, tc);
    lemma_bytes_order_flip(ta, tc);
    lemma_bytes_order_chain(ta, tb, tc);
    if text_order(a.target, c.target) == 0 && code_order(a.code, c.code) == 0 {
        if let (Some(x), Some(y), Some(z)) = (a.note, b.note, c.note) {
            let nx = vstd::utf8::encode_utf8(x);
            let ny = vstd::utf8::encode_utf8(y);
            let nz = vstd::utf8::encode_utf8(z);
            lemma_bytes_order_flip(nx, ny);
            lemma_bytes_order_flip(ny, nz);
            lemma_bytes_order_chain(nx, ny, nz);
        }
    }
}

/// Two entries compare as equal exactly when they say the same.
pub proof fn lemma_entry_order_equal(a: EntryView, b: EntryView)
    ensures
        entry_order(a, b) == 0 <==> a == b,
{
    lemma_text_order_equal(a.target, b.target);
    if let (Some(x), Some(y)) = (a.note, b.note) {
        lemma_text_order_equal(x, y);
    }
    if a.code.rank_of() == b.code.rank_of() {
        assert(a.code == b.code);
    }
}

/// Compare two entries by `(target, code, note)`.
pub fn order_entries(a: &Entry, b: &Entry) -> (out: i8)
    ensures
        out as int == entry_order(a@, b@),
{
    let by_target = order_text(a.target.as_str(), b.target.as_str());
    if by_target != 0 {
        return by_target;
    }
    let rank_a = a.code.rank();
    let rank_b = b.code.rank();
    if rank_a < rank_b {
        return -1;
    }
    if rank_a > rank_b {
        return 1;
    }
    match (&a.note, &b.note) {
        (None, None) => 0,
        (None, Some(_)) => -1,
        (Some(_), None) => 1,
        (Some(x), Some(y)) => order_text(x.as_str(), y.as_str()),
    }
}

/// What a list of entries says, entry by entry.
pub open spec fn entries_view(v: Seq<Entry>) -> Seq<EntryView> {
    v.map_values(|e: Entry| e@)
}

/// Sorted by `(target, code, note)`; equal entries may repeat.
pub open spec fn causes_sorted(s: Seq<EntryView>) -> bool {
    forall|i: int, j: int|
        #![trigger s[i], s[j]]
        0 <= i < j < s.len() ==> entry_order(s[i], s[j]) <= 0
}

/// The list after `e` has been recorded: `e` stands behind every entry that
/// does not come after it, so among equal entries the latest is last.
pub open spec fn insert_cause(s: Seq<EntryView>, e: EntryView) -> Seq<EntryView>
    decreases s.len(),
{
    if s.len() == 0 {
        seq![e]
    } else if entry_order(s.last(), e) <= 0 {
        s.push(e)
    } else {
        insert_cause(s.drop_last(), e).push(s.last())
    }
}

/// The list after every entry of `more` has been recorded, first to last.
pub open spec fn insert_causes(s: Seq<EntryView>, more: Seq<EntryView>) -> Seq<EntryView>
    decreases more.len(),
{
    if more.len() == 0 {
        s
    } else {
        insert_cause(insert_causes(s, more.drop_last()), more.last())
    }
}

/// Where a sorted list splits into entries that do not come after `e` and
/// entries that do, recording `e` inserts it exactly at the split, and the
/// list stays sorted.
pub proof fn lemma_insert_cause_at(s: Seq<EntryView>, e: EntryView, idx: int)
    requires
        causes_sorted(s),
        0 <= idx <= s.len(),
        forall|i: int| 0 <= i < idx ==> entry_order(#[trigger] s[i], e) <= 0,
        forall|i: int| idx <= i < s.len() ==> entry_order(#[trigger] s[i], e) > 0,
    ensures
        insert_cause(s, e) == s.insert(idx, e),
        causes_sorted(s.insert(idx, e)),
    decreases s.len(),
{
    let t = s.insert(idx, e);
    assert forall|i: int, j: int|
        #![trigger t[i], t[j]]
        0 <= i < j < t.len() implies entry_order(t[i], t[j]) <= 0 by {
        if j < idx {
            assert(entry_order(s[i], s[j]) <= 0);
        } else if j == idx {
            assert(entry_order(s[i], e) <= 0);
        } else if i < idx {
            assert(entry_order(s[i], s[j - 1]) <= 0);
        } else if i == idx {
            assert(entry_order(s[j - 1], e) > 0);
            lemma_entry_order_flip(s[j - 1], e);
        } else {
            assert(entry_order(s[i - 1], s[j - 1]) <= 0);
        }
    }
    if s.len() == 0 {
        assert(seq![e] =~= s.insert(0, e));
    } else if entry_order(s.last(), e) <= 0 {
        assert(idx == s.len()) by {
            if idx < s.len() {
                assert(entry_order(s[s.len() - 1], e) > 0);
            }
        }
        assert(s.push(e) =~= s.insert(idx, e));
    } else {
        let head = s.drop_last();
        assert(idx <= s.len() - 1) by {
            if idx == s.len() {
                assert(entry_order(s[s.len() - 1], e) <= 0);
            }
        }
        assert forall|i: int, j: int|
            #![trigger head[i], head[j]]
            0 <= i < j < head.len() implies entry_order(head[i], head[j]) <= 0 by {
            assert(entry_order(s[i], s[j]) <= 0);
        }
        assert forall|i: int| 0 <= i < idx implies entry_order(#[trigger] head[i], e) <= 0 by {
            assert(entry_order(s[i], e) <= 0);
        }
        assert forall|i: int| idx <= i < head.len() implies entry_order(#[trigger] head[i], e)
            > 0 by {
            assert(entry_order(s[i], e) > 0);
        }
        lemma_insert_cause_at(head, e, idx);
        assert(head.insert(idx, e).push(s.last()) =~= s.insert(idx, e));
    }
}

/// Number of entries of `s` that do not come after `e`, counted from the
/// front up to the first entry that does.
pub open spec fn split_point(s: Seq<EntryView>, e: EntryView) -> int
    decreases s.len(),
{
    if s.len() == 0 {
        0
    } else if entry_order(s.last(), e) <= 0 {
        s.len() as int
    } else {
        split_point(s.drop_last(), e)
    }
}

/// Recording an entry keeps a sorted list sorted.
pub proof fn lemma_insert_cause_sorted(s: Seq<EntryView>, e: EntryView)
    requires
        causes_sorted(s),
    ensures
        causes_sorted(insert_cause(s, e)),
        insert_cause(s, e).len() == s.len() + 1,
    decreases s.len(),
{
    let idx = split_point(s, e);
    lemma_split_point(s, e);
    lemma_insert_cause_at(s, e, idx);
}

/// In a sorted list the split point separates the entries that do not come
/// after `e` from those that do.
pub proof fn lemma_split_point(s: Seq<EntryView>, e: EntryView)
    requires
        causes_sorted(s),
    ensures
        0 <= split_point(s, e) <= s.len(),
        forall|i: int| 0 <= i < split_point(s, e) ==> entry_order(#[trigger] s[i], e) <= 0,
        forall|i: int| split_point(s, e) <= i < s.len() ==> entry_order(#[trigger] s[i], e) > 0,
    decreases s.len(),
{
    if s.len() == 0 {
    } else if entry_order(s.last(), e) <= 0 {
        assert forall|i: int| 0 <= i < s.len() implies entry_order(#[trigger] s[i], e) <= 0 by {
            if i < s.len() - 1 {
                assert(entry_order(s[i], s[s.len() - 1]) <= 0);
                lemma_entry_order_chain(s[i], s[s.len() - 1], e);
            }
        }
    } else {
        let head = s.drop_last();
        assert forall|i: int, j: int|
            #![trigger head[i], head[j]]
            0 <= i < j < head.len() implies entry_order(head[i], head[j]) <= 0 by {
            assert(entry_order(s[i], s[j]) <= 0);
        }
        lemma_split_point(head, e);
        assert forall|i: int| split_point(s, e) <= i < s.len() implies entry_order(
            #[trigger] s[i],
            e,
        ) > 0 by {
            if i < s.len() - 1 {
                assert(entry_order(head[i], e) > 0);
            }
        }
        assert forall|i: int| 0 <= i < split_point(s, e) implies entry_order(
            #[trigger] s[i],
            e,
        ) <= 0 by {
            assert(entry_order(head[i], e) <= 0);
        }
    }
}

/// Recording entries one after another keeps a sorted list sorted.
pub proof fn lemma_insert_causes_sorted(s: Seq<EntryView>, more: Seq<EntryView>)
    requires
        causes_sorted(s),
    ensures
        causes_sorted(insert_causes(s, more)),
        insert_causes(s, more).len() == s.len() + more.len(),
    decreases more.len(),
{
    if more.len() > 0 {
        lemma_insert_causes_sorted(s, more.drop_last());
        lemma_insert_cause_sorted(insert_causes(s, more.drop_last()), more.last());
    }
}

/// Index behind the last entry of a sorted list that does not come after
/// `e`.
pub fn insertion_point(v: &Vec<Entry>, e: &Entry) -> (idx: usize)
    requires
        causes_sorted(entries_view(v@)),
    ensures
        idx <= v.len(),
        idx as int == split_point(entries_view(v@), e@),
{
    let ghost s = entries_view(v@);
    let mut lo: usize = 0;
    let mut hi: usize = v.len();
    while lo < hi
        invariant
            lo <= hi <= v.len(),
            s == entries_view(v@),
            s.len() == v.len(),
            causes_sorted(s),
            forall|i: int| 0 <= i < lo ==> entry_order(#[trigger] s[i], e@) <= 0,
            forall|i: int| hi <= i < s.len() ==> entry_order(#[trigger] s[i], e@) > 0,
        decreases hi - lo,
    {
        let mid: usize = lo + (hi - lo) / 2;
        assert(s[mid as int] == v@[mid as int]@);
        if order_entries(&v[mid], e) <= 0 {
            assert forall|i: int| 0 <= i < mid + 1 implies entry_order(#[trigger] s[i], e@)
                <= 0 by {
                if i < mid {
                    assert(entry_order(s[i], s[mid as int]) <= 0);
                    lemma_entry_order_chain(s[i], s[mid as int], e@);
                }
            }
            lo = mid + 1;
        } else {
            assert forall|i: int| mid <= i < s.len() implies entry_order(#[trigger] s[i], e@)
                > 0 by {
                if i > mid {
                    assert(entry_order(s[mid as int], s[i]) <= 0);
                    if entry_order(s[i], e@) <= 0 {
                        lemma_entry_order_chain(s[mid as int], s[i], e@);
                    }
                }
            }
            hi = mid;
        }
    }
    proof {
        lemma_split_point(s, e@);
        let sp = split_point(s, e@);
        if sp < lo {
            assert(entry_order(s[sp], e@) > 0);
        } else if sp > lo {
            assert(entry_order(s[lo as int], e@) <= 0);
        }
    }
    lo
}

/// Record `e` in a sorted list of causes.
pub fn insert_sorted(v: &mut Vec<Entry>, e: Entry)
    requires
        causes_sorted(entries_view(old(v)@)),
    ensures
        entries_view(final(v)@) == insert_cause(entries_view(old(v)@), e@),
        causes_sorted(entries_view(final(v)@)),
        final(v)@ == old(v)@.insert(split_point(entries_view(old(v)@), e@), e),
{
    let idx = insertion_point(v, &e);
    proof {
        let s = entries_view(v@);
        lemma_split_point(s, e@);
        lemma_insert_cause_at(s, e@, idx as int);
        assert(entries_view(v@.insert(idx as int, e)) =~= s.insert(idx as int, e@));
    }
    v.insert(idx, e);
}

/// Record every entry of `more` in a sorted list of causes, first to last.
pub fn insert_all_sorted(v: &mut Vec<Entry>, more: &Vec<Entry>)
    requires
        causes_sorted(entries_view(old(v)@)),
    ensures
        entries_view(final(v)@) == insert_causes(entries_view(old(v)@), entries_view(more@)),
        causes_sorted(entries_view(final(v)@)),
{
    let ghost m = entries_view(more@);
    let mut i: usize = 0;
    while i < more.len()
        invariant
            i <= more.len(),
            m == entries_view(more@),
            causes_sorted(entries_view(v@)),
            entries_view(v@) == insert_causes(entries_view(old(v)@), m.take(i as int)),
        decreases more.len() - i,
    {
        proof {
            assert(m.take(i + 1).drop_last() =~= m.take(i as int));
            assert(m[i as int] == more@[i as int]@);
        }
        insert_sorted(v, more[i].clone());
        i += 1;
    }
    proof {
        assert(m.take(i as int) =~= m);
    }
}

/// Whether a list of causes is sorted by `(target, code, note)`.
pub fn is_sorted(v: &Vec<Entry>) -> (out: bool)
    ensures
        out == causes_sorted(entries_view(v@)),
{
    let ghost s = entries_view(v@);
    if v.len() < 2 {
        return true;
    }
    let mut i: usize = 1;
    while i < v.len()
        invariant
            1 <= i <= v.len(),
            s == entries_view(v@),
            forall|a: int, b: int|
                #![trigger s[a], s[b]]
                0 <= a < b < i ==> entry_order(s[a], s[b]) <= 0,
        decreases v.len() - i,
    {
        assert(s[i - 1] == v@[i - 1]@);
        assert(s[i as int] == v@[i as int]@);
        if order_entries(&v[i - 1], &v[i]) > 0 {
            assert(!(entry_order(s[i - 1], s[i as int]) <= 0));
            return false;
        }
        assert forall|a: int, b: int|
            #![trigger s[a], s[b]]
            0 <= a < b < i + 1 implies entry_order(s[a], s[b]) <= 0 by {
            if b == i && a < i - 1 {
                assert(entry_order(s[a], s[i - 1]) <= 0);
                lemma_entry_order_chain(s[a], s[i - 1], s[i as int]);
            }
        }
        i += 1;
    }
    true
}

} // verus!
