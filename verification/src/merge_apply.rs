//! Merging and applying.
//!
//! Applying a diff in order writes, for every region, at most one entry of
//! each list. So the world after a diff can be read off region by region,
//! and applying a merged diff is the same as applying one diff after the
//! other, as long as the deltas of the two diffs compose: deltas are clamped
//! as they are committed, and a clamped sum need not be the sum of two
//! clamped steps.

use vstd::prelude::*;

use crate::cause::lemma_insert_causes_sorted;
use crate::diff::{
    accumulate_all, accumulated_entry, lemma_accumulate_all_sorted, lemma_accumulate_lookup,
    lemma_set_all_named_unique, DiffView, HazardEvent, ResourceDelta, ScalarValue,
};
use crate::fixed::{clamp_int, ALBEDO_MAX, FRESHWATER_FLUX_MAX, SOIL_MAX, WATER_MAX};
use crate::reduce::{
    applied, commit, commit_baseline, commit_hazards, commit_insolation, lemma_commit,
    lemma_commit_baseline, lemma_commit_hazards, lemma_commit_insolation, write_hazards,
    write_meter, Meter,
};
use crate::sparse::{
    lemma_replay_lookup, lemma_replay_sorted, lemma_sorted_last,
    lemma_strictly_sorted_is_sorted, lookup, strictly_sorted, Keyed, Valued,
};
use crate::world::{
    lemma_grown, ClimateView, Hazards, Region, WorldView, BASELINE_LIMIT_TENTHS,
    ELEVATION_MAX_M, ELEVATION_MIN_M, PRECIP_MAX_MM, TEMP_MAX_TENTHS_C, TEMP_MIN_TENTHS_C,
};

verus! {

/// The entry that a list holds for the region at position `i`, if any.
/// Regions are keyed by 32 bits; a position beyond that has no entry.
pub open spec fn entry_at<T: Keyed>(list: Seq<T>, i: int) -> Option<T> {
    if 0 <= i <= u32::MAX {
        lookup(list, i as u32)
    } else {
        None
    }
}

/// The region at position `i` after a diff in order has been applied: each
/// meter takes the entry that the diff holds for the region, clamped, and
/// keeps its value where the diff holds none.
pub open spec fn region_after(r: Region, d: DiffView, i: int) -> Region {
    Region {
        biome: match entry_at(d.biome, i) {
            Some(e) => clamp_int(e.biome as int, 0, 255) as u8,
            None => r.biome,
        },
        water: match entry_at(d.water, i) {
            Some(e) => clamp_int(r.water as int + e.delta as int, 0, WATER_MAX as int) as u16,
            None => r.water,
        },
        soil: match entry_at(d.soil, i) {
            Some(e) => clamp_int(r.soil as int + e.delta as int, 0, SOIL_MAX as int) as u16,
            None => r.soil,
        },
        elevation_m: match entry_at(d.elevation, i) {
            Some(e) => clamp_int(e.value as int, ELEVATION_MIN_M as int, ELEVATION_MAX_M as int)
                as i32,
            None => r.elevation_m,
        },
        temperature_tenths_c: match entry_at(d.temperature, i) {
            Some(e) => clamp_int(
                e.value as int,
                TEMP_MIN_TENTHS_C as int,
                TEMP_MAX_TENTHS_C as int,
            ) as i16,
            None => r.temperature_tenths_c,
        },
        precipitation_mm: match entry_at(d.precipitation, i) {
            Some(e) => clamp_int(e.value as int, 0, PRECIP_MAX_MM as int) as u16,
            None => r.precipitation_mm,
        },
        albedo_milli: match entry_at(d.albedo, i) {
            Some(e) => clamp_int(e.value as int, 0, ALBEDO_MAX as int) as u16,
            None => r.albedo_milli,
        },
        freshwater_flux_tenths_mm: match entry_at(d.freshwater_flux, i) {
            Some(e) => clamp_int(e.value as int, 0, FRESHWATER_FLUX_MAX as int) as u16,
            None => r.freshwater_flux_tenths_mm,
        },
        ice_mass_kilotons: match entry_at(d.ice_mass, i) {
            Some(e) => (if e.value < 0 {
                0
            } else {
                e.value as int
            }) as u32,
            None => r.ice_mass_kilotons,
        },
        hazards: match entry_at(d.hazards, i) {
            Some(e) => Hazards {
                drought: clamp_int(e.drought as int, 0, WATER_MAX as int) as u16,
                flood: clamp_int(e.flood as int, 0, WATER_MAX as int) as u16,
            },
            None => r.hazards,
        },
        ..r
    }
}

/// The insolation carry of the region at position `i` after a diff in
/// order has been applied.
pub open spec fn insolation_after(slot: i32, d: DiffView, i: int) -> i32 {
    match entry_at(d.insolation, i) {
        Some(e) => e.value,
        None => slot,
    }
}

/// The temperature baseline of the region at position `i` after a diff in
/// order has been applied.
pub open spec fn baseline_after(slot: i16, d: DiffView, i: int) -> i16 {
    match entry_at(d.temperature_baseline, i) {
        Some(e) => clamp_int(
            e.value as int,
            -(BASELINE_LIMIT_TENTHS as int),
            BASELINE_LIMIT_TENTHS as int,
        ) as i16,
        None => slot,
    }
}

/// Committing a strictly sorted list writes each region once: with the
/// entry the list holds for it.
pub proof fn lemma_commit_at<T: Valued>(regions: Seq<Region>, list: Seq<T>, meter: Meter, i: int)
    requires
        strictly_sorted(list),
        0 <= i < regions.len(),
    ensures
        commit(regions, list, meter).len() == regions.len(),
        commit(regions, list, meter)[i] == match entry_at(list, i) {
            Some(e) => write_meter(regions[i], meter, e.amount()),
            None => regions[i],
        },
    decreases list.len(),
{
    lemma_commit(regions, list, meter);
    if list.len() > 0 {
        lemma_sorted_last(list);
        lemma_commit(regions, list.drop_last(), meter);
        lemma_commit_at(regions, list.drop_last(), meter, i);
    }
}

/// Committing a strictly sorted list of hazard events writes each region
/// once.
pub proof fn lemma_commit_hazards_at(regions: Seq<Region>, list: Seq<HazardEvent>, i: int)
    requires
        strictly_sorted(list),
        0 <= i < regions.len(),
    ensures
        commit_hazards(regions, list).len() == regions.len(),
        commit_hazards(regions, list)[i] == match entry_at(list, i) {
            Some(e) => write_hazards(regions[i], e),
            None => regions[i],
        },
    decreases list.len(),
{
    lemma_commit_hazards(regions, list);
    if list.len() > 0 {
        lemma_sorted_last(list);
        lemma_commit_hazards(regions, list.drop_last());
        lemma_commit_hazards_at(regions, list.drop_last(), i);
    }
}

/// Committing a strictly sorted list to the insolation carry writes each
/// slot once.
pub proof fn lemma_commit_insolation_at(slots: Seq<i32>, list: Seq<ScalarValue>, i: int)
    requires
        strictly_sorted(list),
        0 <= i < slots.len(),
    ensures
        commit_insolation(slots, list).len() == slots.len(),
        commit_insolation(slots, list)[i] == match entry_at(list, i) {
            Some(e) => e.value,
            None => slots[i],
        },
    decreases list.len(),
{
    lemma_commit_insolation(slots, list);
    if list.len() > 0 {
        lemma_sorted_last(list);
        lemma_commit_insolation(slots, list.drop_last());
        lemma_commit_insolation_at(slots, list.drop_last(), i);
    }
}

/// Committing a strictly sorted list to the temperature baselines writes
/// each slot once.
pub proof fn lemma_commit_baseline_at(slots: Seq<i16>, list: Seq<ScalarValue>, i: int)
    requires
        strictly_sorted(list),
        0 <= i < slots.len(),
    ensures
        commit_baseline(slots, list).len() == slots.len(),
        commit_baseline(slots, list)[i] == match entry_at(list, i) {
            Some(e) => clamp_int(
                e.value as int,
                -(BASELINE_LIMIT_TENTHS as int),
                BASELINE_LIMIT_TENTHS as int,
            ) as i16,
            None => slots[i],
        },
    decreases list.len(),
{
    lemma_commit_baseline(slots, list);
    if list.len() > 0 {
        lemma_sorted_last(list);
        lemma_commit_baseline(slots, list.drop_last());
        lemma_commit_baseline_at(slots, list.drop_last(), i);
    }
}

/// The world after a diff in order has been applied, read off region by
/// region.
pub open spec fn applied_pointwise(w: WorldView, d: DiffView) -> WorldView {
    let climate = w.climate.grown(w.regions.len());
    WorldView {
        regions: Seq::new(w.regions.len(), |i: int| region_after(w.regions[i], d, i)),
        climate: ClimateView {
            last_insolation_tenths: Seq::new(
                climate.last_insolation_tenths.len(),
                |i: int| insolation_after(climate.last_insolation_tenths[i], d, i),
            ),
            temperature_baseline_tenths: Seq::new(
                climate.temperature_baseline_tenths.len(),
                |i: int| baseline_after(climate.temperature_baseline_tenths[i], d, i),
            ),
            ..climate
        },
        ..w
    }
}

/// Applying a diff in order gives, region by region, what the diff holds
/// for the region.
pub proof fn lemma_applied_pointwise(w: WorldView, d: DiffView)
    requires
        d.wf(),
    ensures
        applied(w, d) == applied_pointwise(w, d),
{
    lemma_strictly_sorted_is_sorted(d.biome);
    lemma_strictly_sorted_is_sorted(d.water);
    lemma_strictly_sorted_is_sorted(d.soil);
    lemma_strictly_sorted_is_sorted(d.insolation);
    lemma_strictly_sorted_is_sorted(d.elevation);
    lemma_strictly_sorted_is_sorted(d.temperature);
    lemma_strictly_sorted_is_sorted(d.temperature_baseline);
    lemma_strictly_sorted_is_sorted(d.precipitation);
    lemma_strictly_sorted_is_sorted(d.albedo);
    lemma_strictly_sorted_is_sorted(d.freshwater_flux);
    lemma_strictly_sorted_is_sorted(d.ice_mass);
    lemma_strictly_sorted_is_sorted(d.hazards);
    let climate = w.climate.grown(w.regions.len());
    let r0 = w.regions;
    let r1 = commit(r0, d.biome, Meter::Biome);
    let r2 = commit(r1, d.water, Meter::Water);
    let r3 = commit(r2, d.soil, Meter::Soil);
    let r4 = commit(r3, d.elevation, Meter::Elevation);
    let r5 = commit(r4, d.temperature, Meter::Temperature);
    let r6 = commit(r5, d.precipitation, Meter::Precipitation);
    let r7 = commit(r6, d.albedo, Meter::Albedo);
    let r8 = commit(r7, d.freshwater_flux, Meter::FreshwaterFlux);
    let r9 = commit(r8, d.ice_mass, Meter::IceMass);
    let r10 = commit_hazards(r9, d.hazards);
    lemma_commit(r0, d.biome, Meter::Biome);
    lemma_commit(r1, d.water, Meter::Water);
    lemma_commit(r2, d.soil, Meter::Soil);
    lemma_commit(r3, d.elevation, Meter::Elevation);
    lemma_commit(r4, d.temperature, Meter::Temperature);
    lemma_commit(r5, d.precipitation, Meter::Precipitation);
    lemma_commit(r6, d.albedo, Meter::Albedo);
    lemma_commit(r7, d.freshwater_flux, Meter::FreshwaterFlux);
    lemma_commit(r8, d.ice_mass, Meter::IceMass);
    lemma_commit_hazards(r9, d.hazards);
    let target = applied_pointwise(w, d);
    assert forall|i: int| 0 <= i < r0.len() implies #[trigger] r10[i] == target.regions[i] by {
        lemma_commit_at(r0, d.biome, Meter::Biome, i);
        lemma_commit_at(r1, d.water, Meter::Water, i);
        lemma_commit_at(r2, d.soil, Meter::Soil, i);
        lemma_commit_at(r3, d.elevation, Meter::Elevation, i);
        lemma_commit_at(r4, d.temperature, Meter::Temperature, i);
        lemma_commit_at(r5, d.precipitation, Meter::Precipitation, i);
        lemma_commit_at(r6, d.albedo, Meter::Albedo, i);
        lemma_commit_at(r7, d.freshwater_flux, Meter::FreshwaterFlux, i);
        lemma_commit_at(r8, d.ice_mass, Meter::IceMass, i);
        lemma_commit_hazards_at(r9, d.hazards, i);
        assert(r1[i].biome == target.regions[i].biome);
        assert(r2[i].water == target.regions[i].water);
        assert(r3[i].soil == target.regions[i].soil);
        assert(r4[i].elevation_m == target.regions[i].elevation_m);
        assert(r5[i].temperature_tenths_c == target.regions[i].temperature_tenths_c);
        assert(r6[i].precipitation_mm == target.regions[i].precipitation_mm);
        assert(r7[i].albedo_milli == target.regions[i].albedo_milli);
        assert(r8[i].freshwater_flux_tenths_mm == target.regions[i].freshwater_flux_tenths_mm);
        assert(r9[i].ice_mass_kilotons == target.regions[i].ice_mass_kilotons);
        assert(r10[i].hazards == target.regions[i].hazards);
    }
    assert(r10 =~= target.regions);
    let insolation = commit_insolation(climate.last_insolation_tenths, d.insolation);
    let baseline = commit_baseline(climate.temperature_baseline_tenths, d.temperature_baseline);
    lemma_commit_insolation(climate.last_insolation_tenths, d.insolation);
    lemma_commit_baseline(climate.temperature_baseline_tenths, d.temperature_baseline);
    assert forall|i: int| 0 <= i < insolation.len() implies #[trigger] insolation[i]
        == target.climate.last_insolation_tenths[i] by {
        lemma_commit_insolation_at(climate.last_insolation_tenths, d.insolation, i);
    }
    assert forall|i: int| 0 <= i < baseline.len() implies #[trigger] baseline[i]
        == target.climate.temperature_baseline_tenths[i] by {
        lemma_commit_baseline_at(climate.temperature_baseline_tenths, d.temperature_baseline, i);
    }
    assert(insolation =~= target.climate.last_insolation_tenths);
    assert(baseline =~= target.climate.temperature_baseline_tenths);
}

/// Merging diffs in order gives a diff in order.
pub proof fn lemma_merged_wf(a: DiffView, b: DiffView)
    requires
        a.wf(),
    ensures
        a.merged(b).wf(),
{
    lemma_replay_sorted(a.biome, b.biome);
    lemma_accumulate_all_sorted(a.water, b.water);
    lemma_accumulate_all_sorted(a.soil, b.soil);
    lemma_replay_sorted(a.insolation, b.insolation);
    lemma_replay_sorted(a.tide_envelope, b.tide_envelope);
    lemma_replay_sorted(a.elevation, b.elevation);
    lemma_replay_sorted(a.temperature, b.temperature);
    lemma_replay_sorted(a.temperature_baseline, b.temperature_baseline);
    lemma_replay_sorted(a.precipitation, b.precipitation);
    lemma_replay_sorted(a.precip_extreme, b.precip_extreme);
    lemma_replay_sorted(a.humidity, b.humidity);
    lemma_replay_sorted(a.albedo, b.albedo);
    lemma_replay_sorted(a.permafrost_active, b.permafrost_active);
    lemma_replay_sorted(a.freshwater_flux, b.freshwater_flux);
    lemma_replay_sorted(a.melt_pulse, b.melt_pulse);
    lemma_replay_sorted(a.ice_mass, b.ice_mass);
    lemma_replay_sorted(a.heatwave_idx, b.heatwave_idx);
    lemma_replay_sorted(a.diag_climate, b.diag_climate);
    lemma_replay_sorted(a.hazards, b.hazards);
    lemma_insert_causes_sorted(a.causes, b.causes);
    lemma_set_all_named_unique(a.diagnostics, b.diagnostics);
}

/// The entry of a region after the deltas of a second list have been added
/// to a first: the entry of the list that has one, or the accumulated entry
/// where both do.
pub open spec fn merged_entry(first: Option<ResourceDelta>, second: Option<ResourceDelta>)
    -> Option<ResourceDelta> {
    match second {
        None => first,
        Some(e) => accumulated_entry(first, e.region, e.delta),
    }
}

/// Adding the deltas of one strictly sorted list to another gives, region
/// by region, the merged entry.
pub proof fn lemma_accumulate_all_lookup(
    a: Seq<ResourceDelta>,
    b: Seq<ResourceDelta>,
    region: u32,
)
    requires
        strictly_sorted(a),
        strictly_sorted(b),
    ensures
        lookup(accumulate_all(a, b), region) == merged_entry(
            lookup(a, region),
            lookup(b, region),
        ),
    decreases b.len(),
{
    if b.len() > 0 {
        let head = b.drop_last();
        lemma_sorted_last(b);
        lemma_accumulate_all_lookup(a, head, region);
        lemma_accumulate_all_sorted(a, head);
        lemma_accumulate_lookup(accumulate_all(a, head), b.last().region, b.last().delta, region);
    }
}

/// A resource level after two deltas, each clamped as it is committed.
pub open spec fn stepwise(level: int, first: int, second: int, max: int) -> int {
    clamp_int(clamp_int(level + first, 0, max) + second, 0, max)
}

/// A resource level after the merge of two deltas: kept where the deltas
/// cancel, and moved by their saturated sum otherwise.
pub open spec fn at_once(level: int, first: i32, second: i32, max: int) -> int {
    if crate::diff::delta_sum(first, second) == 0 {
        level
    } else {
        clamp_int(level + crate::diff::delta_sum(first, second), 0, max)
    }
}

/// Wherever both diffs carry a delta for a resource of a region, committing
/// the two deltas one after the other leaves the resource where committing
/// their merge leaves it. Clamping can break this: from a water level of
/// 9950, deltas of +100 and -100 lead to 9900 one after the other, and their
/// merge leaves 9950.
pub open spec fn deltas_compose(w: WorldView, a: DiffView, b: DiffView) -> bool {
    forall|i: int|
        0 <= i < w.regions.len() ==> {
            &&& (entry_at(a.water, i) is Some && entry_at(b.water, i) is Some) ==> stepwise(
                (#[trigger] w.regions[i]).water as int,
                entry_at(a.water, i)->0.delta as int,
                entry_at(b.water, i)->0.delta as int,
                WATER_MAX as int,
            ) == at_once(
                w.regions[i].water as int,
                entry_at(a.water, i)->0.delta,
                entry_at(b.water, i)->0.delta,
                WATER_MAX as int,
            )
            &&& (entry_at(a.soil, i) is Some && entry_at(b.soil, i) is Some) ==> stepwise(
                w.regions[i].soil as int,
                entry_at(a.soil, i)->0.delta as int,
                entry_at(b.soil, i)->0.delta as int,
                SOIL_MAX as int,
            ) == at_once(
                w.regions[i].soil as int,
                entry_at(a.soil, i)->0.delta,
                entry_at(b.soil, i)->0.delta,
                SOIL_MAX as int,
            )
        }
}

/// Diffs that do not both carry water deltas, nor both soil deltas, compose
/// on every world.
pub proof fn lemma_deltas_apart_compose(w: WorldView, a: DiffView, b: DiffView)
    requires
        a.water.len() == 0 || b.water.len() == 0,
        a.soil.len() == 0 || b.soil.len() == 0,
    ensures
        deltas_compose(w, a, b),
{
}

/// What the region at position `i` holds after two diffs is what it holds
/// after their merge.
pub proof fn lemma_region_after_merge(w: WorldView, a: DiffView, b: DiffView, i: int)
    requires
        a.wf(),
        b.wf(),
        deltas_compose(w, a, b),
        0 <= i < w.regions.len(),
    ensures
        region_after(region_after(w.regions[i], a, i), b, i) == region_after(
            w.regions[i],
            a.merged(b),
            i,
        ),
{
    let r = w.regions[i];
    if 0 <= i <= u32::MAX {
        let k = i as u32;
        lemma_replay_lookup(a.biome, b.biome, k);
        lemma_replay_lookup(a.elevation, b.elevation, k);
        lemma_replay_lookup(a.temperature, b.temperature, k);
        lemma_replay_lookup(a.precipitation, b.precipitation, k);
        lemma_replay_lookup(a.albedo, b.albedo, k);
        lemma_replay_lookup(a.freshwater_flux, b.freshwater_flux, k);
        lemma_replay_lookup(a.ice_mass, b.ice_mass, k);
        lemma_replay_lookup(a.hazards, b.hazards, k);
        lemma_accumulate_all_lookup(a.water, b.water, k);
        lemma_accumulate_all_lookup(a.soil, b.soil, k);
        lemma_entry_region(a.water, k);
        lemma_entry_region(b.water, k);
        lemma_entry_region(a.soil, k);
        lemma_entry_region(b.soil, k);
    }
    let left = region_after(region_after(r, a, i), b, i);
    let right = region_after(r, a.merged(b), i);
    assert(left.water == right.water);
    assert(left.soil == right.soil);
}

/// An entry that is looked up by region belongs to that region.
pub proof fn lemma_entry_region<T: Keyed>(list: Seq<T>, region: u32)
    ensures
        lookup(list, region) is Some ==> lookup(list, region)->0.key() == region,
    decreases list.len(),
{
    if list.len() > 0 && list.last().key() != region {
        lemma_entry_region(list.drop_last(), region);
    }
}

/// Applying a merged diff is applying one diff after the other, for diffs
/// in order whose deltas compose on the world.
pub proof fn lemma_merge_then_apply(w: WorldView, a: DiffView, b: DiffView)
    requires
        a.wf(),
        b.wf(),
        deltas_compose(w, a, b),
    ensures
        applied(applied(w, a), b) == applied(w, a.merged(b)),
{
    let m = a.merged(b);
    lemma_merged_wf(a, b);
    lemma_applied_pointwise(w, a);
    lemma_applied_pointwise(applied(w, a), b);
    lemma_applied_pointwise(w, m);
    lemma_grown(w.climate, w.regions.len());
    let first = applied(w, a);
    lemma_grown(first.climate, first.regions.len());
    let left = applied(first, b);
    let right = applied(w, m);
    assert(left.regions.len() == right.regions.len());
    assert forall|i: int| 0 <= i < left.regions.len() implies #[trigger] left.regions[i]
        == right.regions[i] by {
        lemma_region_after_merge(w, a, b, i);
    }
    assert(left.regions =~= right.regions);
    assert forall|i: int|
        0 <= i < left.climate.last_insolation_tenths.len() implies #[trigger] left.climate.last_insolation_tenths[i]
        == right.climate.last_insolation_tenths[i] by {
        if 0 <= i <= u32::MAX {
            lemma_replay_lookup(a.insolation, b.insolation, i as u32);
        }
    }
    assert forall|i: int|
        0 <= i < left.climate.temperature_baseline_tenths.len() implies #[trigger] left.climate.temperature_baseline_tenths[i]
        == right.climate.temperature_baseline_tenths[i] by {
        if 0 <= i <= u32::MAX {
            lemma_replay_lookup(a.temperature_baseline, b.temperature_baseline, i as u32);
        }
    }
    assert(left.climate.last_insolation_tenths =~= right.climate.last_insolation_tenths);
    assert(left.climate.temperature_baseline_tenths
        =~= right.climate.temperature_baseline_tenths);
}

} // verus!
