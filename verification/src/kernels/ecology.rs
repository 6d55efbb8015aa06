//! Ecology: biome-driven resource drift and hazard gauges with decay.

use vstd::prelude::*;

use crate::cause::{Code, Entry, EntryView};
use crate::diff::{Diff, DiffView};
use crate::error::{CheckedMeter, SimError};
use crate::fixed::{clamp_hazard_meter, clamp_int, clamp_u16, SOIL_MAX, WATER_MAX};
use crate::rng::{child_id_spec, draw_spec, mix64_spec, Stream, COUNTER_STEP, MIX_A};
use crate::text::{labelled, labelled_text, region_target, region_target_text};
use crate::world::{Region, World};

verus! {

/// Stage label of the ecology kernel.
pub const STAGE: &'static str = "kernel:ecology";

/// Hazard level required before a drought is flagged.
pub const DROUGHT_ALERT_THRESHOLD: u16 = 2_000;

/// Hazard level required before a flood is flagged.
pub const FLOOD_ALERT_THRESHOLD: u16 = 600;

/// Soil level below which low fertility is flagged.
pub const SOIL_FERTILITY_THRESHOLD: u16 = 2_500;

/// Water level above which water counts towards the flood target.
pub const FLOOD_WATER_FLOOR: u16 = 8_500;

/// Largest magnitude of a water delta per tick.
pub const WATER_DELTA_LIMIT: i32 = 180;

/// Largest magnitude of a soil delta per tick.
pub const SOIL_DELTA_LIMIT: i32 = 120;

/// The gauge after one blend towards `target`: the gap is halved, rounding
/// the step away from zero, and the result is clamped to the hazard range.
pub open spec fn blend(previous: int, target: int) -> int {
    let gap = target - previous;
    let step = if gap > 0 {
        (gap + 1) / 2
    } else {
        -((-gap + 1) / 2)
    };
    clamp_int(previous + step, 0, WATER_MAX as int)
}

/// The gauge after `steps` blends towards zero.
pub open spec fn decay(level: int, steps: nat) -> int
    decreases steps,
{
    if steps == 0 {
        level
    } else {
        blend(decay(level, (steps - 1) as nat), 0)
    }
}

/// Blending towards zero halves the gauge, rounding down, and so lowers any
/// gauge that is not zero yet.
pub proof fn lemma_blend_to_zero_halves(previous: u16)
    ensures
        blend(previous as int, 0) == clamp_int(previous as int / 2, 0, WATER_MAX as int),
        previous > 0 ==> blend(previous as int, 0) < previous,
        blend(0, 0) == 0,
{
}

/// A level halved `steps` times, rounding down each time.
pub open spec fn halved(level: int, steps: nat) -> int
    decreases steps,
{
    if steps == 0 {
        level
    } else {
        halved(level, (steps - 1) as nat) / 2
    }
}

/// A decaying gauge is never above the level halved as many times, and
/// never below zero.
pub proof fn lemma_decay_bound(level: u16, steps: nat)
    ensures
        0 <= decay(level as int, steps) <= halved(level as int, steps),
    decreases steps,
{
    if steps > 0 {
        lemma_decay_bound(level, (steps - 1) as nat);
    }
}

/// A gauge left to decay reaches zero within sixteen blends and stays
/// there.
pub proof fn lemma_decay_reaches_zero(level: u16, steps: nat)
    requires
        steps >= 16,
    ensures
        decay(level as int, steps) == 0,
    decreases steps,
{
    if steps == 16 {
        let l = level as int;
        lemma_decay_bound(level, 16);
        assert(halved(l, 16) == 0) by {
            reveal_with_fuel(halved, 17);
        }
    } else {
        lemma_decay_reaches_zero(level, (steps - 1) as nat);
    }
}

/// Blend the previous hazard gauge toward the new target with a per-tick
/// half-life.
pub fn blend_hazard(previous: u16, target: u16) -> (out: u16)
    ensures
        out as int == blend(previous as int, target as int),
        out <= WATER_MAX,
{
    if previous == target {
        return clamp_hazard_meter(previous);
    }
    let prev: i32 = previous as i32;
    let goal: i32 = target as i32;
    let gap: i32 = goal - prev;
    let step: i32 = if gap > 0 {
        (gap + 1) / 2
    } else {
        -((-gap + 1) / 2)
    };
    let blended: i32 = prev + step;
    clamp_u16(blended, 0, WATER_MAX)
}

/// Water and soil level, in hundredths, that a biome drifts towards.
pub open spec fn profile_spec(biome: u8) -> (u16, u16) {
    if biome == 5 {
        (85, 75)
    } else if biome == 4 {
        (20, 25)
    } else if biome == 3 {
        (35, 40)
    } else if biome == 2 {
        (55, 55)
    } else if biome == 1 {
        (40, 45)
    } else {
        (25, 30)
    }
}

/// Water and soil level, in hundredths, that a biome drifts towards.
pub fn profile_for_biome(biome: u8) -> (out: (u16, u16))
    ensures
        out == profile_spec(biome),
{
    match biome {
        5 => (85, 75),
        4 => (20, 25),
        3 => (35, 40),
        2 => (55, 55),
        1 => (40, 45),
        _ => (25, 30),
    }
}

/// The 53 random bits from which a region's drift noise is made: the first
/// draw of the child stream that the region's index selects.
pub fn noise_bits(rng: &Stream, index: usize) -> (out: u64)
    ensures
        out == draw_spec(
            child_id_spec(rng.id(), index as u64),
            mix64_spec(child_id_spec(rng.id(), index as u64) ^ MIX_A).wrapping_add(COUNTER_STEP),
        ) >> 11u64,
{
    let mut region_rng = rng.derive(index as u64);
    region_rng.next_bits53()
}

/// What the drift formulas give for one region, rounded to whole meter
/// units: the pull of the biome's water and soil targets, and the noise.
#[derive(Clone, Copy, Debug, PartialEq, Eq, Structural)]
pub struct EcologySample {
    pub water_drift: i32,
    pub soil_drift: i32,
    pub noise: i32,
}

/// The water delta of a region: drift plus noise, limited per tick.
pub open spec fn water_delta_spec(s: EcologySample) -> int {
    clamp_int(
        s.water_drift as int + s.noise as int,
        -(WATER_DELTA_LIMIT as int),
        WATER_DELTA_LIMIT as int,
    )
}

/// The soil delta of a region: drift plus half the noise, rounded down,
/// limited per tick.
pub open spec fn soil_delta_spec(s: EcologySample) -> int {
    clamp_int(
        s.soil_drift as int + s.noise as int / 2,
        -(SOIL_DELTA_LIMIT as int),
        SOIL_DELTA_LIMIT as int,
    )
}

/// What the kernel decides for one region.
pub struct Outcome {
    pub water_delta: int,
    pub soil_delta: int,
    pub new_water: int,
    pub new_soil: int,
    pub drought: int,
    pub flood: int,
}

/// The decisions for a region: its deltas, the levels they lead to, and the
/// hazard gauges blended towards the targets that follow from the new water
/// level.
pub open spec fn outcome(r: Region, s: EcologySample) -> Outcome {
    let water_delta = water_delta_spec(s);
    let soil_delta = soil_delta_spec(s);
    let new_water = clamp_int(r.water as int + water_delta, 0, WATER_MAX as int);
    let new_soil = clamp_int(r.soil as int + soil_delta, 0, SOIL_MAX as int);
    let drought_target = WATER_MAX as int - new_water;
    let flood_target = if new_water > FLOOD_WATER_FLOOR as int {
        new_water - FLOOD_WATER_FLOOR as int
    } else {
        0
    };
    Outcome {
        water_delta,
        soil_delta,
        new_water,
        new_soil,
        drought: blend(r.hazards.drought as int, drought_target),
        flood: blend(r.hazards.flood as int, flood_target),
    }
}

/// The diff after the kernel has handled one region: the deltas that are not
/// zero, the hazard gauges if either changed, a drought flag above the
/// drought threshold or else a flood flag above the flood threshold, and a
/// fertility flag below the soil threshold.
pub open spec fn region_effect(d: DiffView, r: Region, s: EcologySample) -> DiffView {
    let o = outcome(r, s);
    let d1 = d.with_water_delta(r.id, o.water_delta as i32).with_soil_delta(
        r.id,
        o.soil_delta as i32,
    );
    let d2 = if o.drought != r.hazards.drought || o.flood != r.hazards.flood {
        d1.with_hazard(r.id, o.drought as u16, o.flood as u16)
    } else {
        d1
    };
    let d3 = if o.drought > DROUGHT_ALERT_THRESHOLD {
        d2.with_cause(
            EntryView {
                target: region_target_text(r.id, "/water"@),
                code: Code::DroughtFlag,
                note: Some(labelled_text("level="@, o.drought)),
            },
        )
    } else if o.flood > FLOOD_ALERT_THRESHOLD {
        d2.with_cause(
            EntryView {
                target: region_target_text(r.id, "/water"@),
                code: Code::FloodFlag,
                note: Some(labelled_text("level="@, o.flood)),
            },
        )
    } else {
        d2
    };
    if o.new_soil < SOIL_FERTILITY_THRESHOLD {
        d3.with_cause(
            EntryView {
                target: region_target_text(r.id, "/soil"@),
                code: Code::SoilFertilityLow,
                note: Some(labelled_text("value="@, o.new_soil)),
            },
        )
    } else {
        d3
    }
}

/// Why a region cannot enter the kernel, if it cannot: its id is not its
/// position, or its water or soil exceeds the meter's maximum.
pub open spec fn entry_error(r: Region, index: int) -> Option<SimError> {
    if r.id != index {
        Some(SimError::RegionIndexMismatch { id: r.id, index: index as usize })
    } else if r.water > WATER_MAX {
        Some(SimError::MeterOutOfRange { id: r.id, meter: CheckedMeter::Water, value: r.water })
    } else if r.soil > SOIL_MAX {
        Some(SimError::MeterOutOfRange { id: r.id, meter: CheckedMeter::Soil, value: r.soil })
    } else {
        None
    }
}

/// The diff after the kernel has handled the first `n` regions.
pub open spec fn effects(regions: Seq<Region>, samples: Seq<EcologySample>, n: nat) -> DiffView
    decreases n,
{
    if n == 0 {
        DiffView::empty()
    } else {
        region_effect(effects(regions, samples, (n - 1) as nat), regions[n - 1], samples[n - 1])
    }
}

/// Handle one region: record its deltas, hazards and causes in `diff`.
pub fn update_region(diff: &mut Diff, region: &Region, sample: &EcologySample)
    requires
        old(diff).wf(),
    ensures
        final(diff).wf(),
        final(diff)@ == region_effect(old(diff)@, *region, *sample),
{
    let index = region.index();
    let drift_and_noise: i64 = sample.water_drift as i64 + sample.noise as i64;
    let water_delta: i32 = if drift_and_noise < -(WATER_DELTA_LIMIT as i64) {
        -WATER_DELTA_LIMIT
    } else if drift_and_noise > WATER_DELTA_LIMIT as i64 {
        WATER_DELTA_LIMIT
    } else {
        drift_and_noise as i32
    };
    let noise_half: i64 = if sample.noise >= 0 {
        sample.noise as i64 / 2
    } else {
        (sample.noise as i64 - 1) / 2
    };
    assert(noise_half == sample.noise as int / 2);
    let drift_and_half: i64 = sample.soil_drift as i64 + noise_half;
    let soil_delta: i32 = if drift_and_half < -(SOIL_DELTA_LIMIT as i64) {
        -SOIL_DELTA_LIMIT
    } else if drift_and_half > SOIL_DELTA_LIMIT as i64 {
        SOIL_DELTA_LIMIT
    } else {
        drift_and_half as i32
    };
    if water_delta != 0 {
        diff.record_water_delta(index, water_delta);
    }
    if soil_delta != 0 {
        diff.record_soil_delta(index, soil_delta);
    }
    let new_water = clamp_u16(region.water as i32 + water_delta, 0, WATER_MAX);
    let new_soil = clamp_u16(region.soil as i32 + soil_delta, 0, SOIL_MAX);
    let drought_target: u16 = WATER_MAX - new_water;
    let flood_target: u16 = if new_water > FLOOD_WATER_FLOOR {
        new_water - FLOOD_WATER_FLOOR
    } else {
        0
    };
    let drought_level = blend_hazard(region.hazards.drought, drought_target);
    let flood_level = blend_hazard(region.hazards.flood, flood_target);
    if drought_level != region.hazards.drought || flood_level != region.hazards.flood {
        diff.record_hazard(index, drought_level, flood_level);
    }
    if drought_level > DROUGHT_ALERT_THRESHOLD {
        let target = region_target(region.id, "/water");
        let note = labelled("level=", drought_level as i64);
        diff.record_cause(Entry::new(target.as_str(), Code::DroughtFlag, Some(note)));
    } else if flood_level > FLOOD_ALERT_THRESHOLD {
        let target = region_target(region.id, "/water");
        let note = labelled("level=", flood_level as i64);
        diff.record_cause(Entry::new(target.as_str(), Code::FloodFlag, Some(note)));
    }
    if new_soil < SOIL_FERTILITY_THRESHOLD {
        let target = region_target(region.id, "/soil");
        let note = labelled("value=", new_soil as i64);
        diff.record_cause(Entry::new(target.as_str(), Code::SoilFertilityLow, Some(note)));
    }
}

/// Check that a region may enter the kernel.
pub fn check_entry(region: &Region, index: usize) -> (out: Result<(), SimError>)
    ensures
        match out {
            Ok(_) => entry_error(*region, index as int) is None,
            Err(e) => entry_error(*region, index as int) == Some(e),
        },
{
    if region.index() != index {
        return Err(SimError::RegionIndexMismatch { id: region.id, index });
    }
    if region.water > WATER_MAX {
        return Err(
            SimError::MeterOutOfRange {
                id: region.id,
                meter: CheckedMeter::Water,
                value: region.water,
            },
        );
    }
    if region.soil > SOIL_MAX {
        return Err(
            SimError::MeterOutOfRange {
                id: region.id,
                meter: CheckedMeter::Soil,
                value: region.soil,
            },
        );
    }
    Ok(())
}

/// Run the kernel over all regions, with one sample per region.
///
/// The regions are handled in order. The first region that cannot enter the
/// kernel ends the run with its error, and nothing is recorded.
pub fn update(world: &World, samples: &Vec<EcologySample>) -> (out: Result<Diff, SimError>)
    requires
        samples@.len() == world.regions@.len(),
    ensures
        world@.enterable() ==> out is Ok,
        match out {
            Ok(diff) => {
                &&& forall|i: int|
                    0 <= i < world.regions@.len() ==> entry_error(
                        #[trigger] world.regions@[i],
                        i,
                    ) is None
                &&& diff@ == effects(world.regions@, samples@, world.regions@.len())
                &&& diff.wf()
            },
            Err(e) => exists|k: int|
                {
                    &&& 0 <= k < world.regions@.len()
                    &&& entry_error(#[trigger] world.regions@[k], k) == Some(e)
                    &&& forall|i: int|
                        0 <= i < k ==> entry_error(#[trigger] world.regions@[i], i) is None
                },
        },
{
    let mut diff = Diff::default();
    let mut index: usize = 0;
    while index < world.regions.len()
        invariant
            index <= world.regions@.len(),
            samples@.len() == world.regions@.len(),
            diff.wf(),
            diff@ == effects(world.regions@, samples@, index as nat),
            forall|i: int| 0 <= i < index ==> entry_error(#[trigger] world.regions@[i], i) is None,
        decreases world.regions@.len() - index,
    {
        let region = &world.regions[index];
        match check_entry(region, index) {
            Err(e) => {
                proof {
                    assert(entry_error(world@.regions[index as int], index as int) is Some);
                    assert(world@.regions[index as int].id != index
                        || !world@.regions[index as int].resources_in_range());
                }
                return Err(e);
            },
            Ok(_) => {},
        }
        update_region(&mut diff, region, &samples[index]);
        index += 1;
    }
    Ok(diff)
}

} // verus!
