//! Cryosphere: snowpack, ice mass, melt pulse, albedo, permafrost, and the
//! freshwater that reaches the sea.
//!
//! The mass balance of snow and ice reaches the kernel as samples. The
//! kernel decides what of it is recorded: it bounds every value, holds the
//! albedo to a limited step per tick, looks up the permafrost active layer,
//! writes the carried climate state, and names the causes.

use vstd::prelude::*;
use vstd::string::StringExecFns;

use crate::cause::{Code, Entry, EntryView};
use crate::diff::{Diff, DiffView};
use crate::error::SimError;
use crate::fixed::{clamp_i32, clamp_int, toward_zero, ALBEDO_MAX, FRESHWATER_FLUX_MAX};
use crate::schedule::{lines_view, KernelRun};
use crate::text::{
    decimal, labelled, labelled_text, push_decimal, region_target, region_target_text,
};
use crate::world::{
    lemma_grown, ClimateView, Region, World, WorldView, ACTIVE_LAYER_MAX_CM, SNOWPACK_MAX_MM,
};

verus! {

/// Stage label of the cryosphere kernel.
pub const STAGE: &'static str = "kernel:cryosphere";

/// Chronicle line of every cryosphere run.
pub const CHRONICLE_LINE: &'static str = "Active layer deepened; surface darkened slightly.";

/// Chronicle line of a run in which snow melted.
pub const SNOWMELT_CHRONICLE_LINE: &'static str =
    "Warm spell released highland snow into streams.";

/// Lowest albedo the cryosphere records, in milli-units.
pub const ALBEDO_FLOOR: i32 = 100;

/// Largest change of a region's albedo per tick, in milli-units.
pub const ALBEDO_STEP_LIMIT: i32 = 20;

/// Largest melt pulse per tick, in millimetres.
pub const MELT_PULSE_CLAMP_MM: i32 = 1_000;

/// Largest ice mass of a region, in kilotons.
pub const ICE_MASS_MAX_KT: i32 = 200_000;

/// Depth of the permafrost active layer, in centimetres, for a seasonal
/// temperature in tenths of degrees: a step function with breakpoints at
/// -40, -25, -15, -5, +5, +15 and +25 degrees.
pub open spec fn active_layer_spec(temp_tenths: int) -> int {
    if temp_tenths <= -400 {
        30
    } else if temp_tenths <= -250 {
        55
    } else if temp_tenths <= -150 {
        80
    } else if temp_tenths <= -50 {
        110
    } else if temp_tenths <= 50 {
        160
    } else if temp_tenths <= 150 {
        210
    } else if temp_tenths <= 250 {
        260
    } else {
        300
    }
}

/// The active layer never shrinks as the temperature rises, and stays
/// between 30 and 300 centimetres.
pub proof fn lemma_active_layer_monotone(colder: int, warmer: int)
    requires
        colder <= warmer,
    ensures
        30 <= active_layer_spec(colder) <= active_layer_spec(warmer) <= ACTIVE_LAYER_MAX_CM,
{
}

/// Depth of the permafrost active layer for a seasonal temperature.
pub fn active_layer_depth(temp_tenths: i16) -> (out: i32)
    ensures
        out == active_layer_spec(temp_tenths as int),
        0 <= out <= ACTIVE_LAYER_MAX_CM,
{
    if temp_tenths <= -400 {
        30
    } else if temp_tenths <= -250 {
        55
    } else if temp_tenths <= -150 {
        80
    } else if temp_tenths <= -50 {
        110
    } else if temp_tenths <= 50 {
        160
    } else if temp_tenths <= 150 {
        210
    } else if temp_tenths <= 250 {
        260
    } else {
        300
    }
}

/// The albedo a region is given: the raw albedo, bounded, biased against a
/// deepening active layer by a fifth of the thaw up to 20 milli-units, and
/// then approached from the existing albedo by at most `ALBEDO_STEP_LIMIT`.
pub open spec fn next_albedo_spec(existing: int, raw: int, thaw_delta: int) -> int {
    let bounded = clamp_int(raw, ALBEDO_FLOOR as int, ALBEDO_MAX as int);
    let thaw_bias = clamp_int(toward_zero(thaw_delta, 5), -20, 20);
    let biased = clamp_int(bounded - thaw_bias, ALBEDO_FLOOR as int, ALBEDO_MAX as int);
    let step = clamp_int(
        biased - existing,
        -(ALBEDO_STEP_LIMIT as int),
        ALBEDO_STEP_LIMIT as int,
    );
    clamp_int(existing + step, ALBEDO_FLOOR as int, ALBEDO_MAX as int)
}

/// The albedo stays within its range, and from an albedo within the range
/// it moves by at most `ALBEDO_STEP_LIMIT` per tick.
pub proof fn lemma_albedo_step_capped(existing: int, raw: int, thaw_delta: int)
    ensures
        ALBEDO_FLOOR <= next_albedo_spec(existing, raw, thaw_delta) <= ALBEDO_MAX,
        ALBEDO_FLOOR <= existing <= ALBEDO_MAX ==> -ALBEDO_STEP_LIMIT <= next_albedo_spec(
            existing,
            raw,
            thaw_delta,
        ) - existing <= ALBEDO_STEP_LIMIT,
{
}

/// The albedo a region is given.
pub fn next_albedo(existing: u16, raw: i32, thaw_delta: i64) -> (out: i32)
    ensures
        out == next_albedo_spec(existing as int, raw as int, thaw_delta as int),
        ALBEDO_FLOOR <= out <= ALBEDO_MAX,
{
    let bounded = clamp_i32(raw, ALBEDO_FLOOR, ALBEDO_MAX as i32);
    let fifth: i64 = if thaw_delta >= 0 {
        thaw_delta / 5
    } else if thaw_delta == i64::MIN {
        -(i64::MAX / 5)
    } else {
        -((-thaw_delta) / 5)
    };
    let thaw_bias: i32 = if fifth < -20 {
        -20
    } else if fifth > 20 {
        20
    } else {
        fifth as i32
    };
    let biased = clamp_i32(bounded - thaw_bias, ALBEDO_FLOOR, ALBEDO_MAX as i32);
    let step = clamp_i32(biased - existing as i32, -ALBEDO_STEP_LIMIT, ALBEDO_STEP_LIMIT);
    clamp_i32(existing as i32 + step, ALBEDO_FLOOR, ALBEDO_MAX as i32)
}

/// What the mass-balance formulas give for one region, rounded to the units
/// in which the values are stored.
#[derive(Debug)]
pub struct CryosphereSample {
    /// Snowpack after accumulation and melt, in millimetres.
    pub snowpack_mm: i32,
    /// Snow melted this tick, in millimetres.
    pub melt_pulse_mm: i32,
    /// Ice mass after this tick's balance, in kilotons.
    pub ice_mass_kilotons: i32,
    /// Note of the cause that goes with a change of ice mass.
    pub ice_delta_note: String,
    /// Albedo that ice cover and latitude call for, in milli-units.
    pub raw_albedo_milli: i32,
    /// Note of the glacier mass balance, where the balance is not
    /// negligible.
    pub balance_note: Option<String>,
    /// Meltwater released, in tenths of millimetres.
    pub freshwater_flux_tenths_mm: i32,
    /// Whether the region's melt reaches the sea this tick.
    pub contributes: bool,
}

/// What a sample says, with its notes as character sequences.
pub struct CryosphereSampleView {
    pub snowpack_mm: i32,
    pub melt_pulse_mm: i32,
    pub ice_mass_kilotons: i32,
    pub ice_delta_note: Seq<char>,
    pub raw_albedo_milli: i32,
    pub balance_note: Option<Seq<char>>,
    pub freshwater_flux_tenths_mm: i32,
    pub contributes: bool,
}

impl View for CryosphereSample {
    type V = CryosphereSampleView;

    open spec fn view(&self) -> CryosphereSampleView {
        CryosphereSampleView {
            snowpack_mm: self.snowpack_mm,
            melt_pulse_mm: self.melt_pulse_mm,
            ice_mass_kilotons: self.ice_mass_kilotons,
            ice_delta_note: self.ice_delta_note@,
            raw_albedo_milli: self.raw_albedo_milli,
            balance_note: match self.balance_note {
                Some(note) => Some(note@),
                None => None,
            },
            freshwater_flux_tenths_mm: self.freshwater_flux_tenths_mm,
            contributes: self.contributes,
        }
    }
}

/// What the samples say, region by region.
pub open spec fn samples_view(v: Seq<CryosphereSample>) -> Seq<CryosphereSampleView> {
    v.map_values(|s: CryosphereSample| s@)
}

/// Counts of what happened in a run.
#[derive(Clone, Copy, Debug, PartialEq, Eq, Structural)]
pub struct Tally {
    pub ice_updates: usize,
    pub freshwater_regions: usize,
    pub snowmelt_regions: usize,
    pub contributing_regions: usize,
}

/// What the kernel has worked out after some regions.
pub struct Step {
    pub diff: DiffView,
    pub snowpack: Seq<i32>,
    pub permafrost: Seq<i32>,
    pub ice_updates: nat,
    pub freshwater_regions: nat,
    pub snowmelt_regions: nat,
    pub contributing_regions: nat,
}

/// A cause about one aspect of a region.
pub open spec fn region_cause(id: u32, suffix: Seq<char>, code: Code, note: Seq<char>)
    -> EntryView {
    EntryView { target: region_target_text(id, suffix), code, note: Some(note) }
}

/// The state after the permafrost of a region has been handled: the active
/// layer follows the region's temperature plus its baseline offset, a
/// change of depth is recorded, and a deepening is named as a thaw.
pub open spec fn permafrost_step(acc: Step, r: Region, baseline: int) -> Step {
    let seasonal = clamp_int(
        r.temperature_tenths_c as int + baseline,
        i16::MIN as int,
        i16::MAX as int,
    );
    let depth = active_layer_spec(seasonal);
    let previous = acc.permafrost[r.id as int] as int;
    let permafrost = acc.permafrost.update(r.id as int, depth as i32);
    if depth == previous {
        Step { permafrost, ..acc }
    } else if depth > previous {
        Step {
            permafrost,
            diff: acc.diff.with_permafrost_active(r.id, depth as i32).with_cause(
                region_cause(
                    r.id,
                    "/permafrost"@,
                    Code::PermafrostThaw,
                    labelled_text("depth_cm="@, depth),
                ),
            ),
            ..acc
        }
    } else {
        Step { permafrost, diff: acc.diff.with_permafrost_active(r.id, depth as i32), ..acc }
    }
}

/// The state after the snow of a region has been handled: the snowpack is
/// carried, bounded, and a melt pulse is recorded and named.
pub open spec fn snow_step(acc: Step, r: Region, s: CryosphereSampleView) -> Step {
    let snowpack = acc.snowpack.update(
        r.id as int,
        clamp_int(s.snowpack_mm as int, 0, SNOWPACK_MAX_MM as int) as i32,
    );
    let melt = clamp_int(s.melt_pulse_mm as int, 0, MELT_PULSE_CLAMP_MM as int);
    if melt > 0 {
        Step {
            snowpack,
            diff: acc.diff.with_melt_pulse(r.id, melt as i32).with_cause(
                region_cause(r.id, "/snowmelt"@, Code::SnowmeltSurge, labelled_text("mm="@, melt)),
            ),
            snowmelt_regions: acc.snowmelt_regions + 1,
            ..acc
        }
    } else {
        Step { snowpack, ..acc }
    }
}

/// The state after the ice of a region has been handled: a changed ice
/// mass, bounded, is recorded and named.
pub open spec fn ice_step(acc: Step, r: Region, s: CryosphereSampleView) -> Step {
    let ice = clamp_int(s.ice_mass_kilotons as int, 0, ICE_MASS_MAX_KT as int);
    if ice != r.ice_mass_kilotons {
        Step {
            diff: acc.diff.with_ice_mass(r.id, ice as i32).with_cause(
                region_cause(r.id, "/ice"@, Code::IceMassVariation, s.ice_delta_note),
            ),
            ice_updates: acc.ice_updates + 1,
            ..acc
        }
    } else {
        acc
    }
}

/// The state after the albedo of a region has been handled: a changed
/// albedo is recorded and named.
pub open spec fn albedo_step(acc: Step, r: Region, s: CryosphereSampleView, thaw_delta: int)
    -> Step {
    let albedo = next_albedo_spec(r.albedo_milli as int, s.raw_albedo_milli as int, thaw_delta);
    if albedo != r.albedo_milli {
        Step {
            diff: acc.diff.with_albedo(r.id, albedo as i32).with_cause(
                region_cause(
                    r.id,
                    "/albedo"@,
                    Code::AlbedoFeedback,
                    labelled_text("milli="@, albedo),
                ),
            ),
            ..acc
        }
    } else {
        acc
    }
}

/// The state after the meltwater of a region has been handled: the glacier
/// balance is named where the sample carries its note, a changed flux,
/// bounded, is recorded, a flux above zero is named, and a region whose
/// melt reaches the sea is counted.
pub open spec fn water_step(acc: Step, r: Region, s: CryosphereSampleView) -> Step {
    let d1 = match s.balance_note {
        Some(note) => acc.diff.with_cause(
            region_cause(r.id, "/glacier"@, Code::GlacierMassBalance, note),
        ),
        None => acc.diff,
    };
    let flux = clamp_int(s.freshwater_flux_tenths_mm as int, 0, FRESHWATER_FLUX_MAX as int);
    let d2 = if flux != r.freshwater_flux_tenths_mm {
        d1.with_freshwater_flux(r.id, flux as i32)
    } else {
        d1
    };
    let d3 = if flux > 0 {
        d2.with_cause(
            region_cause(
                r.id,
                "/freshwater"@,
                Code::FreshwaterPulse,
                labelled_text("tenths_mm="@, flux),
            ),
        )
    } else {
        d2
    };
    Step {
        diff: d3,
        freshwater_regions: if flux > 0 {
            acc.freshwater_regions + 1
        } else {
            acc.freshwater_regions
        },
        contributing_regions: if s.contributes {
            acc.contributing_regions + 1
        } else {
            acc.contributing_regions
        },
        ..acc
    }
}

/// The thaw of a region this tick: how much deeper the active layer is than
/// the depth carried from the tick before.
pub open spec fn thaw_delta_spec(acc: Step, r: Region, baseline: int) -> int {
    let seasonal = clamp_int(
        r.temperature_tenths_c as int + baseline,
        i16::MIN as int,
        i16::MAX as int,
    );
    active_layer_spec(seasonal) - acc.permafrost[r.id as int]
}

/// The state after the kernel has handled one region.
pub open spec fn region_step(acc: Step, r: Region, baseline: int, s: CryosphereSampleView)
    -> Step {
    let thaw_delta = thaw_delta_spec(acc, r, baseline);
    let s1 = permafrost_step(acc, r, baseline);
    let s2 = snow_step(s1, r, s);
    let s3 = ice_step(s2, r, s);
    let s4 = albedo_step(s3, r, s, thaw_delta);
    water_step(s4, r, s)
}

/// The state after the kernel has handled the first `n` regions.
pub open spec fn region_steps(
    start: Step,
    regions: Seq<Region>,
    baseline: Seq<i16>,
    samples: Seq<CryosphereSampleView>,
    n: nat,
) -> Step
    decreases n,
{
    if n == 0 {
        start
    } else {
        region_step(
            region_steps(start, regions, baseline, samples, (n - 1) as nat),
            regions[n - 1],
            baseline[n - 1] as int,
            samples[n - 1],
        )
    }
}

/// Where the kernel starts from: the carried state grown to cover the
/// regions, an empty diff, and nothing counted.
pub open spec fn start_of(w: WorldView) -> Step {
    let climate = w.climate.grown(w.regions.len());
    Step {
        diff: DiffView::empty(),
        snowpack: climate.snowpack_mm,
        permafrost: climate.permafrost_active_cm,
        ice_updates: 0,
        freshwater_regions: 0,
        snowmelt_regions: 0,
        contributing_regions: 0,
    }
}

/// The state at the end of the run over all regions.
pub open spec fn end_of(w: WorldView, samples: Seq<CryosphereSampleView>) -> Step {
    region_steps(
        start_of(w),
        w.regions,
        w.climate.grown(w.regions.len()).temperature_baseline_tenths,
        samples,
        w.regions.len(),
    )
}

/// The diff of the run: what the regions recorded, and the sea-level
/// contribution if there is one.
pub open spec fn diff_of(w: WorldView, samples: Seq<CryosphereSampleView>, sea_level_delta: int)
    -> DiffView {
    let end = end_of(w, samples);
    if sea_level_delta != 0 {
        end.diff.with_cause(
            EntryView {
                target: "world:sea_level"@,
                code: Code::SeaLevelContribution,
                note: Some(labelled_text("mm="@, sea_level_delta)),
            },
        )
    } else {
        end.diff
    }
}

/// The world after the run: snowpack and active layer carried forward, the
/// sea-level accumulator moved, saturating, and nothing else changed.
pub open spec fn world_of(w: WorldView, samples: Seq<CryosphereSampleView>, sea_level_delta: int)
    -> WorldView {
    let end = end_of(w, samples);
    let climate = w.climate.grown(w.regions.len());
    WorldView {
        climate: ClimateView {
            snowpack_mm: end.snowpack,
            permafrost_active_cm: end.permafrost,
            sea_level_equivalent_mm: clamp_int(
                climate.sea_level_equivalent_mm as int + sea_level_delta,
                i32::MIN as int,
                i32::MAX as int,
            ) as i32,
            ..climate
        },
        ..w
    }
}

/// The summary line of a run in which something happened.
pub open spec fn activity_line(ice_updates: nat, freshwater_regions: nat, contributors: nat)
    -> Seq<char> {
    CHRONICLE_LINE@ + " ("@ + decimal(ice_updates) + ", "@ + decimal(freshwater_regions)
        + " freshwater pulses, "@ + decimal(contributors) + " sea-level contributors)."@
}

/// The chronicle of the run: the summary line, with counts if anything
/// happened, and the snowmelt line if snow melted anywhere.
pub open spec fn chronicle_of(
    w: WorldView,
    samples: Seq<CryosphereSampleView>,
    sea_level_delta: int,
) -> Seq<Seq<char>> {
    let end = end_of(w, samples);
    let first = if end.ice_updates > 0 || end.freshwater_regions > 0 || sea_level_delta != 0 {
        activity_line(end.ice_updates, end.freshwater_regions, end.contributing_regions)
    } else {
        CHRONICLE_LINE@
    };
    if end.snowmelt_regions > 0 {
        seq![first, SNOWMELT_CHRONICLE_LINE@]
    } else {
        seq![first]
    }
}

/// A run keeps the carried state within bounds, and touches neither lengths
/// nor the entries of regions it has not reached.
pub proof fn lemma_region_steps(
    start: Step,
    regions: Seq<Region>,
    baseline: Seq<i16>,
    samples: Seq<CryosphereSampleView>,
    n: nat,
)
    requires
        n <= regions.len(),
        start.snowpack.len() >= regions.len(),
        start.permafrost.len() >= regions.len(),
        forall|i: int| 0 <= i < regions.len() ==> (#[trigger] regions[i]).id == i,
    ensures
        ({
            let end = region_steps(start, regions, baseline, samples, n);
            &&& end.snowpack.len() == start.snowpack.len()
            &&& end.permafrost.len() == start.permafrost.len()
            &&& end.ice_updates <= start.ice_updates + n
            &&& end.freshwater_regions <= start.freshwater_regions + n
            &&& end.snowmelt_regions <= start.snowmelt_regions + n
            &&& end.contributing_regions <= start.contributing_regions + n
            &&& forall|i: int|
                n <= i < start.snowpack.len() ==> (#[trigger] end.snowpack[i])
                    == start.snowpack[i]
            &&& forall|i: int|
                n <= i < start.permafrost.len() ==> (#[trigger] end.permafrost[i])
                    == start.permafrost[i]
            &&& forall|i: int|
                0 <= i < n ==> 0 <= (#[trigger] end.snowpack[i]) <= SNOWPACK_MAX_MM
            &&& forall|i: int|
                0 <= i < n ==> 0 <= (#[trigger] end.permafrost[i]) <= ACTIVE_LAYER_MAX_CM
        }),
    decreases n,
{
    if n > 0 {
        lemma_region_steps(start, regions, baseline, samples, (n - 1) as nat);
        let acc = region_steps(start, regions, baseline, samples, (n - 1) as nat);
        let r = regions[n - 1];
        let s = samples[n - 1];
        let b = baseline[n - 1] as int;
        assert(r.id == n - 1);
    }
}

impl Step {
    /// The state that a diff, the carried lists and a tally stand for.
    pub open spec fn of(diff: DiffView, snowpack: Seq<i32>, permafrost: Seq<i32>, tally: Tally)
        -> Step {
        Step {
            diff,
            snowpack,
            permafrost,
            ice_updates: tally.ice_updates as nat,
            freshwater_regions: tally.freshwater_regions as nat,
            snowmelt_regions: tally.snowmelt_regions as nat,
            contributing_regions: tally.contributing_regions as nat,
        }
    }
}

/// Handle the permafrost of a region; the result is the region's thaw.
pub fn update_permafrost(
    diff: &mut Diff,
    snowpack: &mut Vec<i32>,
    permafrost: &mut Vec<i32>,
    tally: &mut Tally,
    region: &Region,
    baseline: i16,
) -> (thaw_delta: i64)
    requires
        old(diff).wf(),
        region.id < old(snowpack)@.len(),
        region.id < old(permafrost)@.len(),
    ensures
        final(diff).wf(),
        Step::of(final(diff)@, final(snowpack)@, final(permafrost)@, *final(tally))
            == permafrost_step(Step::of(old(diff)@, old(snowpack)@, old(permafrost)@, *old(tally)), *region, baseline as int),
        thaw_delta == thaw_delta_spec(Step::of(old(diff)@, old(snowpack)@, old(permafrost)@, *old(tally)), *region, baseline as int),
{
    let index = region.index();
    let seasonal: i32 = region.temperature_tenths_c as i32 + baseline as i32;
    let seasonal_clamped: i16 = if seasonal < i16::MIN as i32 {
        i16::MIN
    } else if seasonal > i16::MAX as i32 {
        i16::MAX
    } else {
        seasonal as i16
    };
    let depth = active_layer_depth(seasonal_clamped);
    let previous = permafrost[index];
    let thaw_delta: i64 = depth as i64 - previous as i64;
    permafrost.set(index, depth);
    if depth != previous {
        diff.record_permafrost_active(index, depth);
        if thaw_delta > 0 {
            let target = region_target(region.id, "/permafrost");
            let note = labelled("depth_cm=", depth as i64);
            diff.record_cause(Entry::new(target.as_str(), Code::PermafrostThaw, Some(note)));
        }
    }
    thaw_delta
}

/// Handle the snow of a region.
pub fn update_snow(
    diff: &mut Diff,
    snowpack: &mut Vec<i32>,
    permafrost: &mut Vec<i32>,
    tally: &mut Tally,
    region: &Region,
    sample: &CryosphereSample,
)
    requires
        old(diff).wf(),
        region.id < old(snowpack)@.len(),
        region.id < old(permafrost)@.len(),
        old(tally).snowmelt_regions < usize::MAX,
    ensures
        final(diff).wf(),
        Step::of(final(diff)@, final(snowpack)@, final(permafrost)@, *final(tally)) == snow_step(Step::of(old(diff)@, old(snowpack)@, old(permafrost)@, *old(tally)), *region, sample@),
{
    let index = region.index();
    snowpack.set(index, clamp_i32(sample.snowpack_mm, 0, SNOWPACK_MAX_MM));
    let melt = clamp_i32(sample.melt_pulse_mm, 0, MELT_PULSE_CLAMP_MM);
    if melt > 0 {
        diff.record_melt_pulse(index, melt);
        let target = region_target(region.id, "/snowmelt");
        let note = labelled("mm=", melt as i64);
        diff.record_cause(Entry::new(target.as_str(), Code::SnowmeltSurge, Some(note)));
        tally.snowmelt_regions += 1;
    }
}

/// Handle the ice of a region.
pub fn update_ice(
    diff: &mut Diff,
    snowpack: &mut Vec<i32>,
    permafrost: &mut Vec<i32>,
    tally: &mut Tally,
    region: &Region,
    sample: &CryosphereSample,
)
    requires
        old(diff).wf(),
        region.id < old(snowpack)@.len(),
        region.id < old(permafrost)@.len(),
        old(tally).ice_updates < usize::MAX,
    ensures
        final(diff).wf(),
        Step::of(final(diff)@, final(snowpack)@, final(permafrost)@, *final(tally)) == ice_step(Step::of(old(diff)@, old(snowpack)@, old(permafrost)@, *old(tally)), *region, sample@),
{
    let index = region.index();
    let ice = clamp_i32(sample.ice_mass_kilotons, 0, ICE_MASS_MAX_KT);
    if ice as i64 != region.ice_mass_kilotons as i64 {
        diff.record_ice_mass(index, ice);
        tally.ice_updates += 1;
        let target = region_target(region.id, "/ice");
        let note = sample.ice_delta_note.clone();
        diff.record_cause(Entry::new(target.as_str(), Code::IceMassVariation, Some(note)));
    }
}

/// Handle the albedo of a region.
pub fn update_albedo(
    diff: &mut Diff,
    snowpack: &mut Vec<i32>,
    permafrost: &mut Vec<i32>,
    tally: &mut Tally,
    region: &Region,
    sample: &CryosphereSample,
    thaw_delta: i64,
)
    requires
        old(diff).wf(),
        region.id < old(snowpack)@.len(),
        region.id < old(permafrost)@.len(),
    ensures
        final(diff).wf(),
        Step::of(final(diff)@, final(snowpack)@, final(permafrost)@, *final(tally)) == albedo_step(Step::of(old(diff)@, old(snowpack)@, old(permafrost)@, *old(tally)), *region, sample@, thaw_delta as int),
{
    let index = region.index();
    let albedo = next_albedo(region.albedo_milli, sample.raw_albedo_milli, thaw_delta);
    if albedo != region.albedo_milli as i32 {
        diff.record_albedo(index, albedo);
        let target = region_target(region.id, "/albedo");
        let note = labelled("milli=", albedo as i64);
        diff.record_cause(Entry::new(target.as_str(), Code::AlbedoFeedback, Some(note)));
    }
}

/// Handle the meltwater of a region.
pub fn update_water(
    diff: &mut Diff,
    snowpack: &mut Vec<i32>,
    permafrost: &mut Vec<i32>,
    tally: &mut Tally,
    region: &Region,
    sample: &CryosphereSample,
)
    requires
        old(diff).wf(),
        region.id < old(snowpack)@.len(),
        region.id < old(permafrost)@.len(),
        old(tally).freshwater_regions < usize::MAX,
        old(tally).contributing_regions < usize::MAX,
    ensures
        final(diff).wf(),
        Step::of(final(diff)@, final(snowpack)@, final(permafrost)@, *final(tally)) == water_step(Step::of(old(diff)@, old(snowpack)@, old(permafrost)@, *old(tally)), *region, sample@),
{
    let index = region.index();
    match &sample.balance_note {
        Some(text) => {
            let target = region_target(region.id, "/glacier");
            let note = text.clone();
            diff.record_cause(Entry::new(target.as_str(), Code::GlacierMassBalance, Some(note)));
        },
        None => {},
    }
    let flux = clamp_i32(sample.freshwater_flux_tenths_mm, 0, FRESHWATER_FLUX_MAX as i32);
    if flux != region.freshwater_flux_tenths_mm as i32 {
        diff.record_freshwater_flux(index, flux);
    }
    if flux > 0 {
        let target = region_target(region.id, "/freshwater");
        let note = labelled("tenths_mm=", flux as i64);
        diff.record_cause(Entry::new(target.as_str(), Code::FreshwaterPulse, Some(note)));
        tally.freshwater_regions += 1;
    }
    if sample.contributes {
        tally.contributing_regions += 1;
    }
}

/// Handle one region: write its carried state, record what changed, and
/// count it.
pub fn update_region(
    diff: &mut Diff,
    snowpack: &mut Vec<i32>,
    permafrost: &mut Vec<i32>,
    tally: &mut Tally,
    region: &Region,
    baseline: i16,
    sample: &CryosphereSample,
)
    requires
        old(diff).wf(),
        region.id < old(snowpack)@.len(),
        region.id < old(permafrost)@.len(),
        old(tally).ice_updates < usize::MAX,
        old(tally).freshwater_regions < usize::MAX,
        old(tally).snowmelt_regions < usize::MAX,
        old(tally).contributing_regions < usize::MAX,
    ensures
        final(diff).wf(),
        Step::of(final(diff)@, final(snowpack)@, final(permafrost)@, *final(tally)) == region_step(Step::of(old(diff)@, old(snowpack)@, old(permafrost)@, *old(tally)), *region, baseline as int, sample@),
{
    let thaw_delta = update_permafrost(diff, snowpack, permafrost, tally, region, baseline);
    update_snow(diff, snowpack, permafrost, tally, region, sample);
    update_ice(diff, snowpack, permafrost, tally, region, sample);
    update_albedo(diff, snowpack, permafrost, tally, region, sample, thaw_delta);
    update_water(diff, snowpack, permafrost, tally, region, sample);
}

/// The samples of one run: one per region, and the melt that reaches the
/// sea, in millimetres.
#[derive(Debug)]
pub struct CryosphereSamples {
    pub regions: Vec<CryosphereSample>,
    pub sea_level_delta_mm: i32,
}

/// Build the summary line of a run in which something happened.
pub fn activity_summary(ice_updates: usize, freshwater_regions: usize, contributors: usize) -> (out:
    String)
    ensures
        out@ == activity_line(ice_updates as nat, freshwater_regions as nat, contributors as nat),
{
    let mut out = String::from_str(CHRONICLE_LINE);
    out.append(" (");
    push_decimal(&mut out, ice_updates as u64);
    out.append(", ");
    push_decimal(&mut out, freshwater_regions as u64);
    out.append(" freshwater pulses, ");
    push_decimal(&mut out, contributors as u64);
    out.append(" sea-level contributors).");
    proof {
        assert(out@ =~= activity_line(
            ice_updates as nat,
            freshwater_regions as nat,
            contributors as nat,
        ));
    }
    out
}

/// Run the kernel over all regions, with one sample per region.
///
/// A world in which a region's id is not its position is refused with
/// `RegionIndexMismatch` for the first such region, and left as it is.
pub fn update<H>(world: &mut World, samples: &CryosphereSamples) -> (out: Result<
    KernelRun<H>,
    SimError,
>)
    requires
        samples.regions@.len() == old(world).regions@.len(),
    ensures
        match out {
            Ok(run) => {
                &&& old(world)@.ids_match()
                &&& final(world)@ == world_of(
                    old(world)@,
                    samples_view(samples.regions@),
                    samples.sea_level_delta_mm as int,
                )
                &&& run.diff.wf()
                &&& run.diff@ == diff_of(
                    old(world)@,
                    samples_view(samples.regions@),
                    samples.sea_level_delta_mm as int,
                )
                &&& lines_view(run.chronicle@) == chronicle_of(
                    old(world)@,
                    samples_view(samples.regions@),
                    samples.sea_level_delta_mm as int,
                )
                &&& run.highlights@.len() == 0
            },
            Err(e) => {
                &&& final(world)@ == old(world)@
                &&& !old(world)@.ids_match()
                &&& old(world)@.first_mismatch(e)
            },
        },
        old(world)@.meters_in_bounds() ==> final(world)@.meters_in_bounds(),
        final(world).tick == old(world).tick,
{
    match world.check_ids() {
        Err(e) => {
            return Err(e);
        },
        Ok(_) => {},
    }
    let count = world.regions.len();
    world.climate.ensure_region_capacity(count);
    let ghost start = start_of(old(world)@);
    let ghost grown = old(world)@.climate.grown(count as nat);
    let ghost sv = samples_view(samples.regions@);
    proof {
        lemma_grown(old(world)@.climate, count as nat);
    }
    let mut diff = Diff::default();
    let mut tally = Tally {
        ice_updates: 0,
        freshwater_regions: 0,
        snowmelt_regions: 0,
        contributing_regions: 0,
    };
    let mut index: usize = 0;
    while index < count
        invariant
            index <= count,
            count == world.regions@.len(),
            count == samples.regions@.len(),
            sv == samples_view(samples.regions@),
            world.regions@ == old(world).regions@,
            world.tick == old(world).tick,
            world.seed == old(world).seed,
            world.width == old(world).width,
            world.height == old(world).height,
            old(world)@.ids_match(),
            start == start_of(old(world)@),
            grown == old(world)@.climate.grown(count as nat),
            start.snowpack.len() >= count,
            start.permafrost.len() >= count,
            grown.temperature_baseline_tenths.len() >= count,
            diff.wf(),
            world.climate@ == (ClimateView {
                snowpack_mm: world.climate.snowpack_mm@,
                permafrost_active_cm: world.climate.permafrost_active_cm@,
                ..grown
            }),
            Step::of(
                diff@,
                world.climate.snowpack_mm@,
                world.climate.permafrost_active_cm@,
                tally,
            ) == region_steps(
                start,
                world.regions@,
                grown.temperature_baseline_tenths,
                sv,
                index as nat,
            ),
            tally.ice_updates <= index,
            tally.freshwater_regions <= index,
            tally.snowmelt_regions <= index,
            tally.contributing_regions <= index,
        decreases count - index,
    {
        proof {
            lemma_region_steps(
                start,
                world.regions@,
                grown.temperature_baseline_tenths,
                sv,
                index as nat,
            );
            assert(sv[index as int] == samples.regions@[index as int]@);
        }
        let region = world.regions[index];
        let baseline = world.climate.temperature_baseline_tenths[index];
        update_region(
            &mut diff,
            &mut world.climate.snowpack_mm,
            &mut world.climate.permafrost_active_cm,
            &mut tally,
            &region,
            baseline,
            &samples.regions[index],
        );
        proof {
            lemma_region_steps(
                start,
                world.regions@,
                grown.temperature_baseline_tenths,
                sv,
                (index + 1) as nat,
            );
        }
        index += 1;
    }
    proof {
        lemma_region_steps(
            start,
            world.regions@,
            grown.temperature_baseline_tenths,
            sv,
            count as nat,
        );
    }
    let sea_level_delta_mm = samples.sea_level_delta_mm;
    if sea_level_delta_mm != 0 {
        world.climate.add_sea_level_equivalent_mm(sea_level_delta_mm);
        let note = labelled("mm=", sea_level_delta_mm as i64);
        diff.record_cause(Entry::new("world:sea_level", Code::SeaLevelContribution, Some(note)));
    }
    let mut chronicle: Vec<String> = Vec::new();
    let first = if tally.ice_updates > 0 || tally.freshwater_regions > 0 || sea_level_delta_mm
        != 0 {
        activity_summary(tally.ice_updates, tally.freshwater_regions, tally.contributing_regions)
    } else {
        String::from_str(CHRONICLE_LINE)
    };
    chronicle.push(first);
    if tally.snowmelt_regions > 0 {
        chronicle.push(String::from_str(SNOWMELT_CHRONICLE_LINE));
    }
    proof {
        assert(lines_view(chronicle@) =~= chronicle_of(
            old(world)@,
            sv,
            sea_level_delta_mm as int,
        ));
    }
    Ok(KernelRun { diff, chronicle, highlights: Vec::new() })
}

} // verus!
