//! Climate classification: latitude belt and dryness decide a region's
//! biome.

use vstd::prelude::*;
use vstd::string::StringExecFns;

use crate::cause::{Code, Entry, EntryView};
use crate::diff::{DiagEnergy, Diff, DiffView};
use crate::error::SimError;
use crate::fixed::{clamp_i32, clamp_int, round_div, round_half_away, saturate_i32};
use crate::schedule::{lines_view, KernelRun};
use crate::text::{
    decimal, labelled, labelled_text, push_decimal, region_target, region_target_text,
};
use crate::world::{ClimateView, Region, World, WorldView, BASELINE_LIMIT_TENTHS};

verus! {

/// Stage label of the stream that all climate-family kernels descend from.
pub const STAGE: &'static str = "kernel:climate";

/// Stage label of the classification kernel.
pub const CORE_STAGE: &'static str = "kernel:climate/core";

/// A band of latitude, by distance from the equator.
#[derive(Clone, Copy, Debug, PartialEq, Eq, Structural)]
pub enum LatitudeBelt {
    Equatorial,
    Subtropical,
    Temperate,
    Subpolar,
    Polar,
}

/// How dry a region is, relative to the cut-offs of its belt.
#[derive(Clone, Copy, Debug, PartialEq, Eq, Structural)]
pub enum Dryness {
    /// Below the belt's first cut-off.
    Low,
    /// From the first cut-off up to the second.
    Mid,
    /// At or above the second cut-off.
    High,
}

impl LatitudeBelt {
    /// The belt of a latitude given in millionths of a degree: the cut
    /// points are 15, 30, 45 and 60 degrees from the equator.
    pub open spec fn of(latitude_microdeg: int) -> LatitudeBelt {
        let distance = if latitude_microdeg < 0 {
            -latitude_microdeg
        } else {
            latitude_microdeg
        };
        if distance < 15_000_000 {
            LatitudeBelt::Equatorial
        } else if distance < 30_000_000 {
            LatitudeBelt::Subtropical
        } else if distance < 45_000_000 {
            LatitudeBelt::Temperate
        } else if distance < 60_000_000 {
            LatitudeBelt::Subpolar
        } else {
            LatitudeBelt::Polar
        }
    }

    /// The belt's name.
    pub open spec fn label_text(self) -> Seq<char> {
        match self {
            LatitudeBelt::Equatorial => "equatorial"@,
            LatitudeBelt::Subtropical => "subtropical"@,
            LatitudeBelt::Temperate => "temperate"@,
            LatitudeBelt::Subpolar => "subpolar"@,
            LatitudeBelt::Polar => "polar"@,
        }
    }

    /// The belt's two dryness cut-offs, in hundredths.
    pub open spec fn cutoffs_spec(self) -> (u8, u8) {
        match self {
            LatitudeBelt::Equatorial => (35, 65),
            LatitudeBelt::Subtropical => (30, 60),
            LatitudeBelt::Temperate => (25, 60),
            LatitudeBelt::Subpolar => (40, 40),
            LatitudeBelt::Polar => (0, 0),
        }
    }

    /// The belt of a latitude given in millionths of a degree.
    pub fn from_latitude(latitude_microdeg: i32) -> (out: Self)
        ensures
            out == LatitudeBelt::of(latitude_microdeg as int),
    {
        let wide = latitude_microdeg as i64;
        let distance: i64 = if wide < 0 {
            -wide
        } else {
            wide
        };
        if distance < 15_000_000 {
            LatitudeBelt::Equatorial
        } else if distance < 30_000_000 {
            LatitudeBelt::Subtropical
        } else if distance < 45_000_000 {
            LatitudeBelt::Temperate
        } else if distance < 60_000_000 {
            LatitudeBelt::Subpolar
        } else {
            LatitudeBelt::Polar
        }
    }

    /// The belt's name.
    pub fn label(&self) -> (out: &'static str)
        ensures
            out@ == self.label_text(),
    {
        match self {
            LatitudeBelt::Equatorial => "equatorial",
            LatitudeBelt::Subtropical => "subtropical",
            LatitudeBelt::Temperate => "temperate",
            LatitudeBelt::Subpolar => "subpolar",
            LatitudeBelt::Polar => "polar",
        }
    }

    /// The belt's two dryness cut-offs, in hundredths: a dryness below the
    /// first is low, one below the second is middling, anything else is
    /// high.
    pub fn dryness_cutoffs(&self) -> (out: (u8, u8))
        ensures
            out == self.cutoffs_spec(),
            out.0 <= out.1 <= 100,
    {
        match self {
            LatitudeBelt::Equatorial => (35, 65),
            LatitudeBelt::Subtropical => (30, 60),
            LatitudeBelt::Temperate => (25, 60),
            LatitudeBelt::Subpolar => (40, 40),
            LatitudeBelt::Polar => (0, 0),
        }
    }
}

/// The biome of a belt at a given dryness.
pub open spec fn biome_spec(belt: LatitudeBelt, dryness: Dryness) -> u8 {
    match belt {
        LatitudeBelt::Equatorial => match dryness {
            Dryness::Low => 5,
            Dryness::Mid => 3,
            Dryness::High => 4,
        },
        LatitudeBelt::Subtropical => match dryness {
            Dryness::Low => 5,
            Dryness::Mid => 2,
            Dryness::High => 4,
        },
        LatitudeBelt::Temperate => match dryness {
            Dryness::Low => 2,
            Dryness::Mid => 1,
            Dryness::High => 3,
        },
        LatitudeBelt::Subpolar => match dryness {
            Dryness::Low => 1,
            Dryness::Mid => 0,
            Dryness::High => 0,
        },
        LatitudeBelt::Polar => 0,
    }
}

/// The biome of a belt at a given dryness; always one of the six biomes.
pub fn classify_biome(belt: &LatitudeBelt, dryness: Dryness) -> (out: u8)
    ensures
        out == biome_spec(*belt, dryness),
        out <= 5,
{
    match belt {
        LatitudeBelt::Equatorial => match dryness {
            Dryness::Low => 5,
            Dryness::Mid => 3,
            Dryness::High => 4,
        },
        LatitudeBelt::Subtropical => match dryness {
            Dryness::Low => 5,
            Dryness::Mid => 2,
            Dryness::High => 4,
        },
        LatitudeBelt::Temperate => match dryness {
            Dryness::Low => 2,
            Dryness::Mid => 1,
            Dryness::High => 3,
        },
        LatitudeBelt::Subpolar => match dryness {
            Dryness::Low => 1,
            Dryness::Mid => 0,
            Dryness::High => 0,
        },
        LatitudeBelt::Polar => 0,
    }
}

/// The name of a biome.
pub open spec fn biome_label_text(biome: u8) -> Seq<char> {
    if biome == 5 {
        "rainforest"@
    } else if biome == 4 {
        "desert"@
    } else if biome == 3 {
        "steppe"@
    } else if biome == 2 {
        "temperate"@
    } else if biome == 1 {
        "boreal"@
    } else {
        "polar"@
    }
}

/// The name of a biome.
pub fn biome_label(biome: u8) -> (out: &'static str)
    ensures
        out@ == biome_label_text(biome),
{
    match biome {
        5 => "rainforest",
        4 => "desert",
        3 => "steppe",
        2 => "temperate",
        1 => "boreal",
        _ => "polar",
    }
}

/// Sum and number of the elevations of the grid neighbours of `(x, y)`:
/// the cells to the west, east, north and south that lie in the grid and
/// for which the world has a region.
pub open spec fn neighbour_sum(regions: Seq<Region>, width: int, height: int, x: int, y: int)
    -> (int, int) {
    let west = neighbour_at(regions, width, height, x - 1, y);
    let east = neighbour_at(regions, width, height, x + 1, y);
    let north = neighbour_at(regions, width, height, x, y - 1);
    let south = neighbour_at(regions, width, height, x, y + 1);
    (west.0 + east.0 + north.0 + south.0, west.1 + east.1 + north.1 + south.1)
}

/// Elevation and count of the cell `(x, y)`: `(elevation, 1)` if the cell
/// lies in the grid and the world has a region at its position in the list,
/// `(0, 0)` otherwise.
pub open spec fn neighbour_at(regions: Seq<Region>, width: int, height: int, x: int, y: int) -> (
    int,
    int,
) {
    if 0 <= x < width && 0 <= y < height && y * width + x < regions.len() {
        (regions[y * width + x].elevation_m as int, 1)
    } else {
        (0, 0)
    }
}

fn neighbour(world: &World, x: i64, y: i64) -> (out: (i64, u8))
    requires
        -1 <= x <= 0x1_0000_0000,
        -1 <= y <= 0x1_0000_0000,
    ensures
        (out.0 as int, out.1 as int) == neighbour_at(
            world.regions@,
            world.width as int,
            world.height as int,
            x as int,
            y as int,
        ),
        out.1 <= 1,
        i32::MIN <= out.0 <= i32::MAX,
{
    if x < 0 || y < 0 || x >= world.width as i64 || y >= world.height as i64 {
        return (0, 0);
    }
    let width = world.width as u64;
    let row = y as u64;
    assert(row * width <= 0xFFFF_FFFF * 0xFFFF_FFFF) by (nonlinear_arith)
        requires
            0 <= row <= 0xFFFF_FFFF,
            0 <= width <= 0xFFFF_FFFF,
    ;
    let position: u64 = row * width + x as u64;
    if position < world.regions.len() as u64 {
        (world.regions[position as usize].elevation_m as i64, 1)
    } else {
        (0, 0)
    }
}

/// Sum and number of the elevations of a region's grid neighbours.
pub fn neighbour_elevations(world: &World, region: &Region) -> (out: (i64, u8))
    ensures
        (out.0 as int, out.1 as int) == neighbour_sum(
            world.regions@,
            world.width as int,
            world.height as int,
            region.x as int,
            region.y as int,
        ),
        out.1 <= 4,
{
    let x = region.x as i64;
    let y = region.y as i64;
    let west = neighbour(world, x - 1, y);
    let east = neighbour(world, x + 1, y);
    let north = neighbour(world, x, y - 1);
    let south = neighbour(world, x, y + 1);
    (west.0 + east.0 + north.0 + south.0, west.1 + east.1 + north.1 + south.1)
}

/// What the dryness formula gives for one region: the band its dryness
/// falls in, and the notes of the seasonal shift and the orographic lift.
#[derive(Debug)]
pub struct ClimateSample {
    pub dryness: Dryness,
    pub seasonal_note: String,
    pub lift_note: String,
}

/// What a sample says, with its notes as character sequences.
pub struct ClimateSampleView {
    pub dryness: Dryness,
    pub seasonal_note: Seq<char>,
    pub lift_note: Seq<char>,
}

impl View for ClimateSample {
    type V = ClimateSampleView;

    open spec fn view(&self) -> ClimateSampleView {
        ClimateSampleView {
            dryness: self.dryness,
            seasonal_note: self.seasonal_note@,
            lift_note: self.lift_note@,
        }
    }
}

/// What the samples say, region by region.
pub open spec fn samples_view(v: Seq<ClimateSample>) -> Seq<ClimateSampleView> {
    v.map_values(|s: ClimateSample| s@)
}

/// What the kernel has worked out after some regions.
pub struct Step {
    pub diff: DiffView,
    pub chronicle: Seq<Seq<char>>,
}

/// The chronicle line of a biome shift.
pub open spec fn shift_line(id: u32, biome: u8) -> Seq<char> {
    "Region "@ + decimal(id as nat) + " shifted toward a "@ + biome_label_text(biome)
        + " biome."@
}

/// The state after the kernel has handled one region: a biome that differs
/// from the region's is recorded and chronicled, and the belt, the seasonal
/// shift and the orographic lift are named as causes.
pub open spec fn region_step(acc: Step, r: Region, s: ClimateSampleView) -> Step {
    let belt = LatitudeBelt::of(r.latitude_microdeg as int);
    let biome = biome_spec(belt, s.dryness);
    let target = region_target_text(r.id, "/biome"@);
    let d1 = if biome != r.biome {
        acc.diff.with_biome(r.id, biome as i32)
    } else {
        acc.diff
    };
    Step {
        diff: d1.with_cause(
            EntryView { target, code: Code::LatitudeBelt, note: Some(belt.label_text()) },
        ).with_cause(
            EntryView { target, code: Code::SeasonalShift, note: Some(s.seasonal_note) },
        ).with_cause(EntryView { target, code: Code::OrographicLift, note: Some(s.lift_note) }),
        chronicle: if biome != r.biome {
            acc.chronicle.push(shift_line(r.id, biome))
        } else {
            acc.chronicle
        },
    }
}

/// The state after the kernel has handled the first `n` regions.
pub open spec fn region_steps(regions: Seq<Region>, samples: Seq<ClimateSampleView>, n: nat)
    -> Step
    decreases n,
{
    if n == 0 {
        Step { diff: DiffView::empty(), chronicle: Seq::empty() }
    } else {
        region_step(region_steps(regions, samples, (n - 1) as nat), regions[n - 1], samples[n - 1])
    }
}

/// Build the chronicle line of a biome shift.
pub fn shift_chronicle(id: u32, biome: u8) -> (out: String)
    ensures
        out@ == shift_line(id, biome),
{
    let mut out = String::from_str("Region ");
    push_decimal(&mut out, id as u64);
    out.append(" shifted toward a ");
    out.append(biome_label(biome));
    out.append(" biome.");
    proof {
        assert(out@ =~= shift_line(id, biome));
    }
    out
}

/// Handle one region.
pub fn update_region(
    diff: &mut Diff,
    chronicle: &mut Vec<String>,
    region: &Region,
    sample: &ClimateSample,
)
    requires
        old(diff).wf(),
    ensures
        final(diff).wf(),
        (Step { diff: final(diff)@, chronicle: lines_view(final(chronicle)@) }) == region_step(
            Step { diff: old(diff)@, chronicle: lines_view(old(chronicle)@) },
            *region,
            sample@,
        ),
{
    let belt = LatitudeBelt::from_latitude(region.latitude_microdeg);
    let biome = classify_biome(&belt, sample.dryness);
    if biome != region.biome {
        diff.record_biome(region.index(), biome);
        let line = shift_chronicle(region.id, biome);
        proof {
            assert(lines_view(chronicle@.push(line)) =~= lines_view(chronicle@).push(line@));
        }
        chronicle.push(line);
    }
    let target = region_target(region.id, "/biome");
    diff.record_cause(
        Entry::new(target.as_str(), Code::LatitudeBelt, Some(String::from_str(belt.label()))),
    );
    diff.record_cause(
        Entry::new(target.as_str(), Code::SeasonalShift, Some(sample.seasonal_note.clone())),
    );
    diff.record_cause(
        Entry::new(target.as_str(), Code::OrographicLift, Some(sample.lift_note.clone())),
    );
}

/// Run the kernel over all regions, with one sample per region.
///
/// A world in which a region's id is not its position is refused with
/// `RegionIndexMismatch` for the first such region.
pub fn update<H>(world: &World, samples: &Vec<ClimateSample>) -> (out: Result<
    KernelRun<H>,
    SimError,
>)
    requires
        samples@.len() == world.regions@.len(),
    ensures
        match out {
            Ok(run) => {
                &&& world@.ids_match()
                &&& run.diff.wf()
                &&& (Step { diff: run.diff@, chronicle: lines_view(run.chronicle@) })
                    == region_steps(
                    world.regions@,
                    samples_view(samples@),
                    world.regions@.len(),
                )
                &&& run.highlights@.len() == 0
            },
            Err(e) => {
                &&& !world@.ids_match()
                &&& world@.first_mismatch(e)
            },
        },
{
    match world.check_ids() {
        Err(e) => {
            return Err(e);
        },
        Ok(_) => {},
    }
    let mut diff = Diff::default();
    let mut chronicle: Vec<String> = Vec::new();
    let ghost sv = samples_view(samples@);
    let mut index: usize = 0;
    proof {
        assert(lines_view(chronicle@) =~= Seq::empty());
    }
    while index < world.regions.len()
        invariant
            index <= world.regions@.len(),
            samples@.len() == world.regions@.len(),
            sv == samples_view(samples@),
            diff.wf(),
            world@.ids_match(),
            (Step { diff: diff@, chronicle: lines_view(chronicle@) }) == region_steps(
                world.regions@,
                sv,
                index as nat,
            ),
        decreases world.regions@.len() - index,
    {
        let region = &world.regions[index];
        proof {
            assert(sv[index as int] == samples@[index as int]@);
        }
        update_region(&mut diff, &mut chronicle, region, &samples[index]);
        index += 1;
    }
    Ok(KernelRun { diff, chronicle, highlights: Vec::new() })
}

/// Stage label of the albedo reconciliation.
pub const ALBEDO_RECONCILE_STAGE: &'static str = "kernel:climate/albedo_reconcile";

/// Albedo anomaly, in milli-units, that the reconciliation answers with a
/// full tenth of a degree.
pub const RECONCILE_ANOMALY_PER_TENTH: i32 = 15;

/// What the reconciliation has worked out after some regions.
pub struct Feedback {
    pub last_albedo: Seq<i32>,
    pub baseline: Seq<i16>,
    pub total_anomaly: int,
    pub total_adjust: int,
    pub adjusted: nat,
}

/// The state after the reconciliation has handled the region at `index`:
/// the albedo snapshot is taken forward, and an anomaly moves the baseline
/// against it by the anomaly divided by `RECONCILE_ANOMALY_PER_TENTH`,
/// rounded, with step and baseline both held within the baseline limit.
pub open spec fn feedback_region(acc: Feedback, r: Region, index: int) -> Feedback {
    let current = r.albedo_milli as int;
    let anomaly = crate::kernels::coupler::anomaly_spec(current, acc.last_albedo[index] as int);
    let limit = BASELINE_LIMIT_TENTHS as int;
    let before = acc.baseline[index] as int;
    let step = clamp_int(
        round_half_away(-anomaly, RECONCILE_ANOMALY_PER_TENTH as int),
        -limit,
        limit,
    );
    let updated = clamp_int(before + step, -limit, limit);
    let last_albedo = acc.last_albedo.update(index, current as i32);
    if anomaly == 0 {
        Feedback { last_albedo, ..acc }
    } else {
        Feedback {
            last_albedo,
            baseline: acc.baseline.update(index, updated as i16),
            total_anomaly: acc.total_anomaly + anomaly,
            total_adjust: acc.total_adjust + (updated - before),
            adjusted: acc.adjusted + 1,
        }
    }
}

/// The state after the reconciliation has handled the first `n` regions.
pub open spec fn feedback_regions(start: Feedback, regions: Seq<Region>, n: nat) -> Feedback
    decreases n,
{
    if n == 0 {
        start
    } else {
        feedback_region(feedback_regions(start, regions, (n - 1) as nat), regions[n - 1], n - 1)
    }
}

/// Where the reconciliation starts from.
pub open spec fn feedback_start(w: WorldView) -> Feedback {
    let climate = w.climate.grown(w.regions.len());
    Feedback {
        last_albedo: climate.last_albedo_milli,
        baseline: climate.temperature_baseline_tenths,
        total_anomaly: 0,
        total_adjust: 0,
        adjusted: 0,
    }
}

/// The world after the reconciliation: nothing but the albedo snapshots
/// and the temperature baselines has changed.
pub open spec fn reconciled_world(w: WorldView) -> WorldView {
    if w.regions.len() == 0 {
        w
    } else {
        let end = feedback_regions(feedback_start(w), w.regions, w.regions.len());
        WorldView {
            climate: ClimateView {
                last_albedo_milli: end.last_albedo,
                temperature_baseline_tenths: end.baseline,
                ..w.climate.grown(w.regions.len())
            },
            ..w
        }
    }
}

/// The diff of the reconciliation: where a region had an anomaly, the mean
/// anomaly and the mean baseline step as the energy summary and as causes;
/// nothing otherwise.
pub open spec fn reconciled_diff(w: WorldView) -> DiffView {
    let end = feedback_regions(feedback_start(w), w.regions, w.regions.len());
    if w.regions.len() > 0 && end.adjusted > 0 {
        let mean_anomaly = clamp_int(
            round_half_away(end.total_anomaly, end.adjusted as int),
            i32::MIN as int,
            i32::MAX as int,
        );
        let mean_adjust = clamp_int(
            round_half_away(end.total_adjust, end.adjusted as int),
            i32::MIN as int,
            i32::MAX as int,
        );
        DiffView::empty().with_diag_energy(
            DiagEnergy {
                albedo_anomaly_milli: mean_anomaly as i32,
                temp_adjust_tenths: mean_adjust as i32,
            },
        ).with_cause(
            EntryView {
                target: "climate:albedo_reconcile"@,
                code: Code::AlbedoFeedback,
                note: Some(labelled_text("mean_milli="@, mean_anomaly)),
            },
        ).with_cause(
            EntryView {
                target: "climate:albedo_reconcile"@,
                code: Code::EnergyBalanceAdjustment,
                note: Some(labelled_text("mean_tenths="@, mean_adjust)),
            },
        )
    } else {
        DiffView::empty()
    }
}

/// The reconciliation keeps the lengths of the carried lists, keeps every
/// baseline it writes within the baseline limit, and leaves the regions it
/// has not reached as they were.
pub proof fn lemma_feedback_regions(start: Feedback, regions: Seq<Region>, n: nat)
    requires
        n <= regions.len(),
        start.last_albedo.len() >= regions.len(),
        start.baseline.len() >= regions.len(),
    ensures
        ({
            let end = feedback_regions(start, regions, n);
            &&& end.last_albedo.len() == start.last_albedo.len()
            &&& end.baseline.len() == start.baseline.len()
            &&& end.adjusted <= start.adjusted + n
            &&& forall|i: int|
                n <= i < start.baseline.len() ==> (#[trigger] end.baseline[i])
                    == start.baseline[i]
            &&& forall|i: int|
                n <= i < start.last_albedo.len() ==> (#[trigger] end.last_albedo[i])
                    == start.last_albedo[i]
            &&& (forall|i: int|
                0 <= i < start.baseline.len() ==> -BASELINE_LIMIT_TENTHS <= (
                #[trigger] start.baseline[i]) <= BASELINE_LIMIT_TENTHS) ==> (forall|i: int|
                0 <= i < end.baseline.len() ==> -BASELINE_LIMIT_TENTHS <= (
                #[trigger] end.baseline[i]) <= BASELINE_LIMIT_TENTHS)
        }),
    decreases n,
{
    if n > 0 {
        lemma_feedback_regions(start, regions, (n - 1) as nat);
    }
}

/// Reconcile the temperature baselines with the albedo: take the albedo
/// snapshots forward and move each baseline against its region's anomaly.
///
/// No temperature is written; the baselines are read on the following
/// tick.
pub fn albedo_reconcile(world: &mut World) -> (out: Diff)
    ensures
        final(world)@ == reconciled_world(old(world)@),
        out@ == reconciled_diff(old(world)@),
        out.wf(),
        out@.temperature.len() == 0,
{
    let mut diff = Diff::default();
    let region_count = world.regions.len();
    if region_count == 0 {
        return diff;
    }
    world.climate.ensure_region_capacity(region_count);
    let ghost start = feedback_start(old(world)@);
    let ghost grown = old(world)@.climate.grown(region_count as nat);
    let mut total_anomaly: i128 = 0;
    let mut total_adjust: i128 = 0;
    let mut adjusted_regions: usize = 0;
    let mut index: usize = 0;
    while index < region_count
        invariant
            index <= region_count,
            region_count == world.regions@.len(),
            world.regions@ == old(world).regions@,
            world.tick == old(world).tick,
            world.seed == old(world).seed,
            world.width == old(world).width,
            world.height == old(world).height,
            start == feedback_start(old(world)@),
            grown == old(world)@.climate.grown(region_count as nat),
            start.last_albedo.len() >= region_count,
            start.baseline.len() >= region_count,
            world.climate@ == (ClimateView {
                last_albedo_milli: world.climate.last_albedo_milli@,
                temperature_baseline_tenths: world.climate.temperature_baseline_tenths@,
                ..grown
            }),
            ({
                let acc = feedback_regions(start, world.regions@, index as nat);
                &&& acc.last_albedo == world.climate.last_albedo_milli@
                &&& acc.baseline == world.climate.temperature_baseline_tenths@
                &&& acc.total_anomaly == total_anomaly
                &&& acc.total_adjust == total_adjust
                &&& acc.adjusted == adjusted_regions
            }),
            adjusted_regions <= index,
            -0x1_0000_0000 * index <= total_anomaly <= 0x1_0000_0000 * index,
            -0x1_0000_0000 * index <= total_adjust <= 0x1_0000_0000 * index,
        decreases region_count - index,
    {
        proof {
            lemma_feedback_regions(start, world.regions@, index as nat);
        }
        let current: i32 = world.regions[index].albedo_milli as i32;
        let snapshot: i32 = world.climate.last_albedo_milli[index];
        world.climate.last_albedo_milli.set(index, current);
        let anomaly: i64 = if snapshot == 0 {
            0
        } else {
            current as i64 - snapshot as i64
        };
        if anomaly != 0 {
            adjusted_regions += 1;
            total_anomaly += anomaly as i128;
            let limit = BASELINE_LIMIT_TENTHS as i32;
            let raw = round_div(-(anomaly as i128), RECONCILE_ANOMALY_PER_TENTH as i128);
            let step: i32 = if raw < -(limit as i128) {
                -limit
            } else if raw > limit as i128 {
                limit
            } else {
                raw as i32
            };
            let before: i32 = world.climate.temperature_baseline_tenths[index] as i32;
            let updated: i32 = clamp_i32(before + step, -limit, limit);
            world.climate.temperature_baseline_tenths.set(index, updated as i16);
            total_adjust += (updated - before) as i128;
        }
        index += 1;
    }
    if adjusted_regions > 0 {
        let mean_anomaly = saturate_i32(round_div(total_anomaly, adjusted_regions as i128));
        let mean_adjust = saturate_i32(round_div(total_adjust, adjusted_regions as i128));
        diff.record_diag_energy(
            DiagEnergy { albedo_anomaly_milli: mean_anomaly, temp_adjust_tenths: mean_adjust },
        );
        let anomaly_note = labelled("mean_milli=", mean_anomaly as i64);
        diff.record_cause(
            Entry::new("climate:albedo_reconcile", Code::AlbedoFeedback, Some(anomaly_note)),
        );
        let adjust_note = labelled("mean_tenths=", mean_adjust as i64);
        diff.record_cause(
            Entry::new(
                "climate:albedo_reconcile",
                Code::EnergyBalanceAdjustment,
                Some(adjust_note),
            ),
        );
    }
    diff
}

} // verus!
