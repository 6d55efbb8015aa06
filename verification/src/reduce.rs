//! Ordered commit of a diff to the world.
//!
//! Applying a diff grows the climate state to cover the regions, sorts every
//! list by region, and then writes the lists to the world in a fixed order,
//! clamping each value into the declared range of its meter. Entries for
//! regions that the world does not have are skipped.

use vstd::prelude::*;

use crate::diff::{Diff, DiffView, HazardEvent, ScalarValue};
use crate::fixed::{
    clamp_biome_index, clamp_hazard_meter, clamp_i16, clamp_i32, clamp_int, clamp_u16,
    commit_resource_delta, ALBEDO_MAX, FRESHWATER_FLUX_MAX, SOIL_MAX, WATER_MAX,
};
use crate::sparse::{lemma_sort_idempotent, sort_by_region, sorted_copy, Keyed, Valued};
use crate::world::{
    lemma_grown, ClimateView, Hazards, Region, World, WorldView, BASELINE_LIMIT_TENTHS,
    ELEVATION_MAX_M, ELEVATION_MIN_M, PRECIP_MAX_MM, TEMP_MAX_TENTHS_C, TEMP_MIN_TENTHS_C,
};

verus! {

/// A meter of a region that a diff can write.
#[derive(Clone, Copy, Debug, PartialEq, Eq, Structural)]
pub enum Meter {
    Biome,
    Water,
    Soil,
    Elevation,
    Temperature,
    Precipitation,
    Albedo,
    FreshwaterFlux,
    IceMass,
}

/// The region after `value` has been committed to one of its meters. Water
/// and soil take the value as a delta; every other meter takes it as the new
/// reading. The result is clamped into the meter's declared range, and ice
/// mass is floored at zero.
pub open spec fn write_meter(r: Region, meter: Meter, value: i32) -> Region {
    match meter {
        Meter::Biome => Region { biome: clamp_int(value as int, 0, 255) as u8, ..r },
        Meter::Water => Region {
            water: clamp_int(r.water as int + value as int, 0, WATER_MAX as int) as u16,
            ..r
        },
        Meter::Soil => Region {
            soil: clamp_int(r.soil as int + value as int, 0, SOIL_MAX as int) as u16,
            ..r
        },
        Meter::Elevation => Region {
            elevation_m: clamp_int(value as int, ELEVATION_MIN_M as int, ELEVATION_MAX_M as int)
                as i32,
            ..r
        },
        Meter::Temperature => Region {
            temperature_tenths_c: clamp_int(
                value as int,
                TEMP_MIN_TENTHS_C as int,
                TEMP_MAX_TENTHS_C as int,
            ) as i16,
            ..r
        },
        Meter::Precipitation => Region {
            precipitation_mm: clamp_int(value as int, 0, PRECIP_MAX_MM as int) as u16,
            ..r
        },
        Meter::Albedo => Region {
            albedo_milli: clamp_int(value as int, 0, ALBEDO_MAX as int) as u16,
            ..r
        },
        Meter::FreshwaterFlux => Region {
            freshwater_flux_tenths_mm: clamp_int(value as int, 0, FRESHWATER_FLUX_MAX as int)
                as u16,
            ..r
        },
        Meter::IceMass => Region {
            ice_mass_kilotons: (if value < 0 {
                0
            } else {
                value as int
            }) as u32,
            ..r
        },
    }
}

/// The region after a hazard event has been committed: both gauges are
/// replaced and clamped.
pub open spec fn write_hazards(r: Region, event: HazardEvent) -> Region {
    Region {
        hazards: Hazards {
            drought: clamp_int(event.drought as int, 0, WATER_MAX as int) as u16,
            flood: clamp_int(event.flood as int, 0, WATER_MAX as int) as u16,
        },
        ..r
    }
}

/// The regions after every entry of `list` has been committed to `meter`,
/// first to last.
pub open spec fn commit<T: Valued>(regions: Seq<Region>, list: Seq<T>, meter: Meter) -> Seq<
    Region,
>
    decreases list.len(),
{
    if list.len() == 0 {
        regions
    } else {
        let before = commit(regions, list.drop_last(), meter);
        let e = list.last();
        if e.key() < before.len() {
            before.update(e.key() as int, write_meter(before[e.key() as int], meter, e.amount()))
        } else {
            before
        }
    }
}

/// The regions after every hazard event of `list` has been committed, first
/// to last.
pub open spec fn commit_hazards(regions: Seq<Region>, list: Seq<HazardEvent>) -> Seq<Region>
    decreases list.len(),
{
    if list.len() == 0 {
        regions
    } else {
        let before = commit_hazards(regions, list.drop_last());
        let e = list.last();
        if e.region < before.len() {
            before.update(e.region as int, write_hazards(before[e.region as int], e))
        } else {
            before
        }
    }
}

/// The insolation carry after every entry of `list` has been written to it,
/// first to last.
pub open spec fn commit_insolation(slots: Seq<i32>, list: Seq<ScalarValue>) -> Seq<i32>
    decreases list.len(),
{
    if list.len() == 0 {
        slots
    } else {
        let before = commit_insolation(slots, list.drop_last());
        let e = list.last();
        if e.region < before.len() {
            before.update(e.region as int, e.value)
        } else {
            before
        }
    }
}

/// The temperature baselines after every entry of `list` has been written
/// to them, first to last, each clamped to the baseline limit.
pub open spec fn commit_baseline(slots: Seq<i16>, list: Seq<ScalarValue>) -> Seq<i16>
    decreases list.len(),
{
    if list.len() == 0 {
        slots
    } else {
        let before = commit_baseline(slots, list.drop_last());
        let e = list.last();
        if e.region < before.len() {
            before.update(
                e.region as int,
                clamp_int(
                    e.value as int,
                    -(BASELINE_LIMIT_TENTHS as int),
                    BASELINE_LIMIT_TENTHS as int,
                ) as i16,
            )
        } else {
            before
        }
    }
}

/// The world after a diff has been applied to it.
///
/// The climate state is grown to cover the regions; every list is sorted by
/// region; then the lists are committed in the order biome, insolation
/// carry, water, soil, elevation, temperature, temperature baseline,
/// precipitation, albedo, freshwater flux, ice mass, hazards.
pub open spec fn applied(w: WorldView, d: DiffView) -> WorldView {
    let climate = w.climate.grown(w.regions.len());
    let r1 = commit(w.regions, sort_by_region(d.biome), Meter::Biome);
    let r2 = commit(r1, sort_by_region(d.water), Meter::Water);
    let r3 = commit(r2, sort_by_region(d.soil), Meter::Soil);
    let r4 = commit(r3, sort_by_region(d.elevation), Meter::Elevation);
    let r5 = commit(r4, sort_by_region(d.temperature), Meter::Temperature);
    let r6 = commit(r5, sort_by_region(d.precipitation), Meter::Precipitation);
    let r7 = commit(r6, sort_by_region(d.albedo), Meter::Albedo);
    let r8 = commit(r7, sort_by_region(d.freshwater_flux), Meter::FreshwaterFlux);
    let r9 = commit(r8, sort_by_region(d.ice_mass), Meter::IceMass);
    let r10 = commit_hazards(r9, sort_by_region(d.hazards));
    WorldView {
        regions: r10,
        climate: ClimateView {
            last_insolation_tenths: commit_insolation(
                climate.last_insolation_tenths,
                sort_by_region(d.insolation),
            ),
            temperature_baseline_tenths: commit_baseline(
                climate.temperature_baseline_tenths,
                sort_by_region(d.temperature_baseline),
            ),
            ..climate
        },
        ..w
    }
}

/// Committing a value keeps the region's identity and position, and puts
/// the written meter within bounds without disturbing the others.
pub proof fn lemma_write_meter(r: Region, meter: Meter, value: i32)
    ensures
        write_meter(r, meter, value).id == r.id,
        write_meter(r, meter, value).x == r.x,
        write_meter(r, meter, value).y == r.y,
        write_meter(r, meter, value).latitude_microdeg == r.latitude_microdeg,
        r.meters_in_bounds() ==> write_meter(r, meter, value).meters_in_bounds(),
        r.resources_in_range() ==> write_meter(r, meter, value).resources_in_range(),
{
}

/// Committing a list keeps the number of regions and their ids, and keeps
/// all meters within bounds.
pub proof fn lemma_commit<T: Valued>(regions: Seq<Region>, list: Seq<T>, meter: Meter)
    ensures
        commit(regions, list, meter).len() == regions.len(),
        (forall|i: int| 0 <= i < regions.len() ==> (#[trigger] regions[i]).resources_in_range())
            ==> (forall|i: int|
            0 <= i < regions.len() ==> (#[trigger] commit(
                regions,
                list,
                meter,
            )[i]).resources_in_range()),
        forall|i: int|
            0 <= i < regions.len() ==> (#[trigger] commit(regions, list, meter)[i]).id
                == regions[i].id,
        (forall|i: int| 0 <= i < regions.len() ==> (#[trigger] regions[i]).meters_in_bounds())
            ==> (forall|i: int|
            0 <= i < regions.len() ==> (#[trigger] commit(
                regions,
                list,
                meter,
            )[i]).meters_in_bounds()),
    decreases list.len(),
{
    if list.len() > 0 {
        lemma_commit(regions, list.drop_last(), meter);
        let before = commit(regions, list.drop_last(), meter);
        let e = list.last();
        if e.key() < before.len() {
            lemma_write_meter(before[e.key() as int], meter, e.amount());
        }
    }
}

/// Committing hazard events keeps the number of regions and their ids, and
/// keeps all meters within bounds.
pub proof fn lemma_commit_hazards(regions: Seq<Region>, list: Seq<HazardEvent>)
    ensures
        commit_hazards(regions, list).len() == regions.len(),
        (forall|i: int| 0 <= i < regions.len() ==> (#[trigger] regions[i]).resources_in_range())
            ==> (forall|i: int|
            0 <= i < regions.len() ==> (#[trigger] commit_hazards(
                regions,
                list,
            )[i]).resources_in_range()),
        forall|i: int|
            0 <= i < regions.len() ==> (#[trigger] commit_hazards(regions, list)[i]).id
                == regions[i].id,
        (forall|i: int| 0 <= i < regions.len() ==> (#[trigger] regions[i]).meters_in_bounds())
            ==> (forall|i: int|
            0 <= i < regions.len() ==> (#[trigger] commit_hazards(
                regions,
                list,
            )[i]).meters_in_bounds()),
    decreases list.len(),
{
    if list.len() > 0 {
        lemma_commit_hazards(regions, list.drop_last());
    }
}

/// Writing the insolation carry keeps its length.
pub proof fn lemma_commit_insolation(slots: Seq<i32>, list: Seq<ScalarValue>)
    ensures
        commit_insolation(slots, list).len() == slots.len(),
    decreases list.len(),
{
    if list.len() > 0 {
        lemma_commit_insolation(slots, list.drop_last());
    }
}

/// Writing temperature baselines keeps their number and keeps each within
/// the baseline limit.
pub proof fn lemma_commit_baseline(slots: Seq<i16>, list: Seq<ScalarValue>)
    ensures
        commit_baseline(slots, list).len() == slots.len(),
        (forall|i: int|
            0 <= i < slots.len() ==> -BASELINE_LIMIT_TENTHS <= (#[trigger] slots[i])
                <= BASELINE_LIMIT_TENTHS) ==> (forall|i: int|
            0 <= i < slots.len() ==> -BASELINE_LIMIT_TENTHS <= (#[trigger] commit_baseline(
                slots,
                list,
            )[i]) <= BASELINE_LIMIT_TENTHS),
    decreases list.len(),
{
    if list.len() > 0 {
        lemma_commit_baseline(slots, list.drop_last());
    }
}

/// Applying a diff gives the same world as applying the diff with all its
/// lists sorted by region.
pub proof fn lemma_apply_sorted(w: WorldView, d: DiffView)
    ensures
        applied(w, d) == applied(w, d.sort_all()),
{
    lemma_sort_idempotent(d.biome);
    lemma_sort_idempotent(d.water);
    lemma_sort_idempotent(d.soil);
    lemma_sort_idempotent(d.insolation);
    lemma_sort_idempotent(d.elevation);
    lemma_sort_idempotent(d.temperature);
    lemma_sort_idempotent(d.temperature_baseline);
    lemma_sort_idempotent(d.precipitation);
    lemma_sort_idempotent(d.albedo);
    lemma_sort_idempotent(d.freshwater_flux);
    lemma_sort_idempotent(d.ice_mass);
    lemma_sort_idempotent(d.hazards);
}

/// Applying a diff changes neither the grid's shape, nor the tick, nor the
/// seed, nor any region's id; the climate state covers the regions
/// afterwards; a world that may enter a tick still may; and if all meters
/// were within bounds before, they are within bounds after.
pub proof fn lemma_apply_keeps_bounds(w: WorldView, d: DiffView)
    ensures
        applied(w, d).tick == w.tick,
        applied(w, d).seed == w.seed,
        applied(w, d).width == w.width,
        applied(w, d).height == w.height,
        applied(w, d).regions.len() == w.regions.len(),
        applied(w, d).climate.covers(w.regions.len()),
        w.ids_match() ==> applied(w, d).ids_match(),
        w.resources_in_range() ==> applied(w, d).resources_in_range(),
        w.enterable() ==> applied(w, d).enterable(),
        w.meters_in_bounds() ==> applied(w, d).meters_in_bounds(),
        w.wf() ==> applied(w, d).wf(),
{
    let climate = w.climate.grown(w.regions.len());
    lemma_grown(w.climate, w.regions.len());
    let r1 = commit(w.regions, sort_by_region(d.biome), Meter::Biome);
    let r2 = commit(r1, sort_by_region(d.water), Meter::Water);
    let r3 = commit(r2, sort_by_region(d.soil), Meter::Soil);
    let r4 = commit(r3, sort_by_region(d.elevation), Meter::Elevation);
    let r5 = commit(r4, sort_by_region(d.temperature), Meter::Temperature);
    let r6 = commit(r5, sort_by_region(d.precipitation), Meter::Precipitation);
    let r7 = commit(r6, sort_by_region(d.albedo), Meter::Albedo);
    let r8 = commit(r7, sort_by_region(d.freshwater_flux), Meter::FreshwaterFlux);
    let r9 = commit(r8, sort_by_region(d.ice_mass), Meter::IceMass);
    let r10 = commit_hazards(r9, sort_by_region(d.hazards));
    lemma_commit(w.regions, sort_by_region(d.biome), Meter::Biome);
    lemma_commit(r1, sort_by_region(d.water), Meter::Water);
    lemma_commit(r2, sort_by_region(d.soil), Meter::Soil);
    lemma_commit(r3, sort_by_region(d.elevation), Meter::Elevation);
    lemma_commit(r4, sort_by_region(d.temperature), Meter::Temperature);
    lemma_commit(r5, sort_by_region(d.precipitation), Meter::Precipitation);
    lemma_commit(r6, sort_by_region(d.albedo), Meter::Albedo);
    lemma_commit(r7, sort_by_region(d.freshwater_flux), Meter::FreshwaterFlux);
    lemma_commit(r8, sort_by_region(d.ice_mass), Meter::IceMass);
    lemma_commit_hazards(r9, sort_by_region(d.hazards));
    lemma_commit_insolation(climate.last_insolation_tenths, sort_by_region(d.insolation));
    lemma_commit_baseline(
        climate.temperature_baseline_tenths,
        sort_by_region(d.temperature_baseline),
    );
    assert(applied(w, d).regions == r10);
    if w.ids_match() {
        assert forall|i: int| 0 <= i < r10.len() implies (#[trigger] r10[i]).id == i by {
            assert(r10[i].id == r9[i].id);
            assert(r9[i].id == r8[i].id);
            assert(r8[i].id == r7[i].id);
            assert(r7[i].id == r6[i].id);
            assert(r6[i].id == r5[i].id);
            assert(r5[i].id == r4[i].id);
            assert(r4[i].id == r3[i].id);
            assert(r3[i].id == r2[i].id);
            assert(r2[i].id == r1[i].id);
            assert(r1[i].id == w.regions[i].id);
        }
    }
}

/// Commit `value` to one meter of a region.
pub fn set_meter(r: Region, meter: Meter, value: i32) -> (out: Region)
    ensures
        out == write_meter(r, meter, value),
{
    let mut out = r;
    match meter {
        Meter::Biome => {
            out.biome = clamp_biome_index(value);
        },
        Meter::Water => {
            out.water = commit_resource_delta(r.water, value, WATER_MAX);
        },
        Meter::Soil => {
            out.soil = commit_resource_delta(r.soil, value, SOIL_MAX);
        },
        Meter::Elevation => {
            out.elevation_m = clamp_i32(value, ELEVATION_MIN_M, ELEVATION_MAX_M);
        },
        Meter::Temperature => {
            out.temperature_tenths_c = clamp_i16(value, TEMP_MIN_TENTHS_C, TEMP_MAX_TENTHS_C);
        },
        Meter::Precipitation => {
            out.precipitation_mm = clamp_u16(value, 0, PRECIP_MAX_MM);
        },
        Meter::Albedo => {
            out.albedo_milli = clamp_u16(value, 0, ALBEDO_MAX);
        },
        Meter::FreshwaterFlux => {
            out.freshwater_flux_tenths_mm = clamp_u16(value, 0, FRESHWATER_FLUX_MAX);
        },
        Meter::IceMass => {
            out.ice_mass_kilotons = if value < 0 {
                0
            } else {
                value as u32
            };
        },
    }
    out
}

/// Commit every entry of `list` to `meter`, first to last.
pub fn commit_meter<T: Valued>(regions: &mut Vec<Region>, list: &Vec<T>, meter: Meter)
    ensures
        final(regions)@ == commit(old(regions)@, list@, meter),
{
    let mut i: usize = 0;
    while i < list.len()
        invariant
            i <= list.len(),
            regions@ == commit(old(regions)@, list@.take(i as int), meter),
        decreases list.len() - i,
    {
        proof {
            assert(list@.take(i + 1).drop_last() =~= list@.take(i as int));
        }
        let idx = list[i].region_key() as usize;
        if idx < regions.len() {
            let next = set_meter(regions[idx], meter, list[i].payload());
            regions.set(idx, next);
        }
        i += 1;
    }
    proof {
        assert(list@.take(i as int) =~= list@);
    }
}

/// Commit every hazard event of `list`, first to last.
pub fn commit_hazard_events(regions: &mut Vec<Region>, list: &Vec<HazardEvent>)
    ensures
        final(regions)@ == commit_hazards(old(regions)@, list@),
{
    let mut i: usize = 0;
    while i < list.len()
        invariant
            i <= list.len(),
            regions@ == commit_hazards(old(regions)@, list@.take(i as int)),
        decreases list.len() - i,
    {
        proof {
            assert(list@.take(i + 1).drop_last() =~= list@.take(i as int));
        }
        let idx = list[i].region as usize;
        if idx < regions.len() {
            let mut next = regions[idx];
            next.hazards = Hazards {
                drought: clamp_hazard_meter(list[i].drought),
                flood: clamp_hazard_meter(list[i].flood),
            };
            regions.set(idx, next);
        }
        i += 1;
    }
    proof {
        assert(list@.take(i as int) =~= list@);
    }
}

/// Write every entry of `list` to the insolation carry, first to last.
pub fn commit_insolation_carry(slots: &mut Vec<i32>, list: &Vec<ScalarValue>)
    ensures
        final(slots)@ == commit_insolation(old(slots)@, list@),
{
    let mut i: usize = 0;
    while i < list.len()
        invariant
            i <= list.len(),
            slots@ == commit_insolation(old(slots)@, list@.take(i as int)),
        decreases list.len() - i,
    {
        proof {
            assert(list@.take(i + 1).drop_last() =~= list@.take(i as int));
        }
        let idx = list[i].region as usize;
        if idx < slots.len() {
            slots.set(idx, list[i].value);
        }
        i += 1;
    }
    proof {
        assert(list@.take(i as int) =~= list@);
    }
}

/// Write every entry of `list` to the temperature baselines, first to last.
pub fn commit_baseline_offsets(slots: &mut Vec<i16>, list: &Vec<ScalarValue>)
    ensures
        final(slots)@ == commit_baseline(old(slots)@, list@),
{
    let mut i: usize = 0;
    while i < list.len()
        invariant
            i <= list.len(),
            slots@ == commit_baseline(old(slots)@, list@.take(i as int)),
        decreases list.len() - i,
    {
        proof {
            assert(list@.take(i + 1).drop_last() =~= list@.take(i as int));
        }
        let idx = list[i].region as usize;
        if idx < slots.len() {
            slots.set(idx, clamp_i16(list[i].value, -BASELINE_LIMIT_TENTHS, BASELINE_LIMIT_TENTHS));
        }
        i += 1;
    }
    proof {
        assert(list@.take(i as int) =~= list@);
    }
}

/// Apply a diff to the world.
pub fn apply(world: &mut World, diff: Diff)
    ensures
        final(world)@ == applied(old(world)@, diff@),
{
    apply_diff(world, &diff);
}

/// Apply a borrowed diff to the world.
pub fn apply_diff(world: &mut World, diff: &Diff)
    ensures
        final(world)@ == applied(old(world)@, diff@),
{
    let count = world.regions.len();
    world.climate.ensure_region_capacity(count);
    let biome = sorted_copy(&diff.biome);
    commit_meter(&mut world.regions, &biome, Meter::Biome);
    let insolation = sorted_copy(&diff.insolation);
    commit_insolation_carry(&mut world.climate.last_insolation_tenths, &insolation);
    let water = sorted_copy(&diff.water);
    commit_meter(&mut world.regions, &water, Meter::Water);
    let soil = sorted_copy(&diff.soil);
    commit_meter(&mut world.regions, &soil, Meter::Soil);
    let elevation = sorted_copy(&diff.elevation);
    commit_meter(&mut world.regions, &elevation, Meter::Elevation);
    let temperature = sorted_copy(&diff.temperature);
    commit_meter(&mut world.regions, &temperature, Meter::Temperature);
    let baseline = sorted_copy(&diff.temperature_baseline);
    commit_baseline_offsets(&mut world.climate.temperature_baseline_tenths, &baseline);
    let precipitation = sorted_copy(&diff.precipitation);
    commit_meter(&mut world.regions, &precipitation, Meter::Precipitation);
    let albedo = sorted_copy(&diff.albedo);
    commit_meter(&mut world.regions, &albedo, Meter::Albedo);
    let freshwater_flux = sorted_copy(&diff.freshwater_flux);
    commit_meter(&mut world.regions, &freshwater_flux, Meter::FreshwaterFlux);
    let ice_mass = sorted_copy(&diff.ice_mass);
    commit_meter(&mut world.regions, &ice_mass, Meter::IceMass);
    let hazards = sorted_copy(&diff.hazards);
    commit_hazard_events(&mut world.regions, &hazards);
}

} // verus!
