//! Climate diagnostics: one scalar that summarises the state of the world.

use vstd::prelude::*;
use vstd::string::StringExecFns;

use crate::diff::{Diff, DiffView};
use crate::fixed::{clamp_i32, clamp_int};
use crate::schedule::{lines_view, KernelRun};
use crate::world::{Region, World};

verus! {

/// Stage label of the diagnostics kernel.
pub const STAGE: &'static str = "CLIMATE::climate_diag";

/// Chronicle line of every diagnostics run.
pub const CHRONICLE_LINE: &'static str = "Climate diagnostics stable; no anomalies detected.";

/// Lowest value of the diagnostic scalar.
pub const DIAG_MIN: i32 = -1_000;

/// Highest value of the diagnostic scalar.
pub const DIAG_MAX: i32 = 1_000;

/// Sums over all regions of the meters that the diagnostic scalar is made
/// of, and the number of regions.
#[derive(Clone, Copy, Debug, PartialEq, Eq, Structural)]
pub struct Totals {
    pub temperature_tenths: i128,
    pub precipitation_mm: i128,
    pub water: i128,
    pub albedo_milli: i128,
    pub regions: usize,
}

/// Sum of the temperatures of the first `n` regions.
pub open spec fn temperature_sum(regions: Seq<Region>, n: nat) -> int
    decreases n,
{
    if n == 0 {
        0
    } else {
        temperature_sum(regions, (n - 1) as nat) + regions[n - 1].temperature_tenths_c
    }
}

/// Sum of the precipitation of the first `n` regions.
pub open spec fn precipitation_sum(regions: Seq<Region>, n: nat) -> int
    decreases n,
{
    if n == 0 {
        0
    } else {
        precipitation_sum(regions, (n - 1) as nat) + regions[n - 1].precipitation_mm
    }
}

/// Sum of the water levels of the first `n` regions.
pub open spec fn water_sum(regions: Seq<Region>, n: nat) -> int
    decreases n,
{
    if n == 0 {
        0
    } else {
        water_sum(regions, (n - 1) as nat) + regions[n - 1].water
    }
}

/// Sum of the albedo of the first `n` regions.
pub open spec fn albedo_sum(regions: Seq<Region>, n: nat) -> int
    decreases n,
{
    if n == 0 {
        0
    } else {
        albedo_sum(regions, (n - 1) as nat) + regions[n - 1].albedo_milli
    }
}

/// Sum the meters of all regions.
pub fn region_totals(world: &World) -> (out: Totals)
    ensures
        out.regions == world.regions@.len(),
        out.temperature_tenths == temperature_sum(world.regions@, world.regions@.len()),
        out.precipitation_mm == precipitation_sum(world.regions@, world.regions@.len()),
        out.water == water_sum(world.regions@, world.regions@.len()),
        out.albedo_milli == albedo_sum(world.regions@, world.regions@.len()),
{
    let count = world.regions.len();
    let mut out = Totals {
        temperature_tenths: 0,
        precipitation_mm: 0,
        water: 0,
        albedo_milli: 0,
        regions: count,
    };
    let mut index: usize = 0;
    while index < count
        invariant
            index <= count,
            count == world.regions@.len(),
            out.regions == count,
            out.temperature_tenths == temperature_sum(world.regions@, index as nat),
            out.precipitation_mm == precipitation_sum(world.regions@, index as nat),
            out.water == water_sum(world.regions@, index as nat),
            out.albedo_milli == albedo_sum(world.regions@, index as nat),
            -0x8000 * index <= out.temperature_tenths <= 0x8000 * index,
            0 <= out.precipitation_mm <= 0x1_0000 * index,
            0 <= out.water <= 0x1_0000 * index,
            0 <= out.albedo_milli <= 0x1_0000 * index,
        decreases count - index,
    {
        let region = &world.regions[index];
        out.temperature_tenths = out.temperature_tenths + region.temperature_tenths_c as i128;
        out.precipitation_mm = out.precipitation_mm + region.precipitation_mm as i128;
        out.water = out.water + region.water as i128;
        out.albedo_milli = out.albedo_milli + region.albedo_milli as i128;
        index += 1;
    }
    out
}

/// The diff of a run: the composite, clamped, as the diagnostic scalar of
/// region zero; zero for a world without regions.
pub open spec fn diff_of(region_count: nat, composite: int) -> DiffView {
    DiffView::empty().with_diag_climate(
        0,
        if region_count == 0 {
            0
        } else {
            clamp_int(composite, DIAG_MIN as int, DIAG_MAX as int) as i32
        },
    )
}

/// Run the kernel with the composite that the caller has formed from the
/// totals, rounded to a whole number.
pub fn update<H>(world: &World, composite: i32) -> (out: KernelRun<H>)
    ensures
        out.diff.wf(),
        out.diff@ == diff_of(world.regions@.len(), composite as int),
        lines_view(out.chronicle@) == seq![CHRONICLE_LINE@],
        out.highlights@.len() == 0,
{
    let mut diff = Diff::default();
    let value = if world.regions.len() == 0 {
        0
    } else {
        clamp_i32(composite, DIAG_MIN, DIAG_MAX)
    };
    diff.record_diag_climate(0, value);
    let mut chronicle: Vec<String> = Vec::new();
    chronicle.push(String::from_str(CHRONICLE_LINE));
    proof {
        assert(lines_view(chronicle@) =~= seq![CHRONICLE_LINE@]);
    }
    KernelRun { diff, chronicle, highlights: Vec::new() }
}

} // verus!
