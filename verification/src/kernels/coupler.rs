//! Coupler: albedo anomalies shift the temperature baseline of the next
//! tick.
//!
//! The coupler compares each region's albedo with the snapshot of the
//! previous tick, takes the snapshot forward, and moves the region's
//! temperature baseline by at most one tenth of a degree against the
//! anomaly. It never writes a temperature: the baseline is read by the
//! atmosphere on the following tick.

use vstd::prelude::*;

use crate::cause::{Code, Entry, EntryView};
use crate::diff::{Diff, DiffView};
use crate::fixed::{clamp_i32, clamp_int, round_div, round_half_away, saturate_i32};
use crate::text::{labelled, labelled_text};
use crate::world::{ClimateView, Region, World, WorldView, BASELINE_LIMIT_TENTHS};

verus! {

/// Stage label of the coupler.
pub const STAGE: &'static str = "kernel:climate/coupler";

/// Chronicle line of a tick in which the coupler moved a baseline.
pub const CHRONICLE_LINE: &'static str =
    "Cryosphere shifts rebalanced atmospheric energy baselines across the globe.";

/// Albedo anomaly, in milli-units, that moves the baseline by a full tenth.
pub const ANOMALY_PER_TENTH: i32 = 120;

/// What the coupler has worked out after some regions.
pub struct Reconciled {
    pub last_albedo: Seq<i32>,
    pub baseline: Seq<i16>,
    pub diff: DiffView,
    pub total_anomaly: int,
    pub total_adjust: int,
    pub adjusted: nat,
}

/// The albedo anomaly of a region against a snapshot; a snapshot of zero
/// counts as no snapshot, and gives no anomaly.
pub open spec fn anomaly_spec(current: int, snapshot: int) -> int {
    if snapshot == 0 {
        0
    } else {
        current - snapshot
    }
}

/// The baseline step that answers an anomaly: the anomaly divided by
/// `ANOMALY_PER_TENTH`, negated, rounded, and limited to one tenth either
/// way.
pub open spec fn adjust_spec(anomaly: int) -> int {
    clamp_int(round_half_away(-anomaly, ANOMALY_PER_TENTH as int), -1, 1)
}

/// The state after the coupler has handled the region at `index`.
pub open spec fn reconcile_region(acc: Reconciled, r: Region, index: int) -> Reconciled {
    let current = r.albedo_milli as int;
    let anomaly = anomaly_spec(current, acc.last_albedo[index] as int);
    let before = acc.baseline[index] as int;
    let updated = clamp_int(
        before + adjust_spec(anomaly),
        -(BASELINE_LIMIT_TENTHS as int),
        BASELINE_LIMIT_TENTHS as int,
    );
    let last_albedo = acc.last_albedo.update(index, current as i32);
    if anomaly == 0 {
        Reconciled { last_albedo, ..acc }
    } else if updated != before {
        Reconciled {
            last_albedo,
            baseline: acc.baseline.update(index, updated as i16),
            diff: acc.diff.with_temperature_baseline((index as usize) as u32, updated as i32),
            total_anomaly: acc.total_anomaly + anomaly,
            total_adjust: acc.total_adjust + (updated - before),
            adjusted: acc.adjusted + 1,
        }
    } else {
        Reconciled {
            last_albedo,
            total_anomaly: acc.total_anomaly + anomaly,
            adjusted: acc.adjusted + 1,
            ..acc
        }
    }
}

/// The state after the coupler has handled the first `n` regions.
pub open spec fn reconcile_regions(start: Reconciled, regions: Seq<Region>, n: nat) -> Reconciled
    decreases n,
{
    if n == 0 {
        start
    } else {
        reconcile_region(reconcile_regions(start, regions, (n - 1) as nat), regions[n - 1], n - 1)
    }
}

/// The diff with the coupler's summary: the mean anomaly and the mean
/// baseline step over the regions that had an anomaly, as diagnostics and
/// as causes. Without such a region, or where nothing moved and the
/// anomalies cancel, the diff stays as it is.
pub open spec fn summarised(acc: Reconciled) -> DiffView {
    if acc.adjusted > 0 && (acc.diff.temperature_baseline.len() > 0 || acc.total_anomaly != 0) {
        let mean_anomaly = clamp_int(
            round_half_away(acc.total_anomaly, acc.adjusted as int),
            i32::MIN as int,
            i32::MAX as int,
        );
        let mean_adjust = clamp_int(
            round_half_away(acc.total_adjust, acc.adjusted as int),
            i32::MIN as int,
            i32::MAX as int,
        );
        acc.diff.with_diagnostic("albedo_anomaly_milli"@, mean_anomaly as i32).with_diagnostic(
            "energy_balance"@,
            mean_adjust as i32,
        ).with_cause(
            EntryView {
                target: "climate:coupler"@,
                code: Code::AlbedoFeedback,
                note: Some(labelled_text("mean_milli="@, mean_anomaly)),
            },
        ).with_cause(
            EntryView {
                target: "climate:coupler"@,
                code: Code::EnergyBalanceAdjustment,
                note: Some(labelled_text("mean_tenths="@, mean_adjust)),
            },
        )
    } else {
        acc.diff
    }
}

/// Where the coupler starts from: the climate state grown to cover the
/// regions, an empty diff, and no anomaly seen.
pub open spec fn start_of(w: WorldView) -> Reconciled {
    let climate = w.climate.grown(w.regions.len());
    Reconciled {
        last_albedo: climate.last_albedo_milli,
        baseline: climate.temperature_baseline_tenths,
        diff: DiffView::empty(),
        total_anomaly: 0,
        total_adjust: 0,
        adjusted: 0,
    }
}

/// Whether the coupler has anything to do: the cryosphere wrote an albedo
/// this tick, and the world has regions.
pub open spec fn engaged(w: WorldView, cryo: DiffView) -> bool {
    cryo.albedo.len() > 0 && w.regions.len() > 0
}

/// The world after the coupler has run: nothing but the albedo snapshots
/// and the temperature baselines of the climate state has changed.
pub open spec fn reconciled_world(w: WorldView, cryo: DiffView) -> WorldView {
    if engaged(w, cryo) {
        let end = reconcile_regions(start_of(w), w.regions, w.regions.len());
        WorldView {
            climate: ClimateView {
                last_albedo_milli: end.last_albedo,
                temperature_baseline_tenths: end.baseline,
                ..w.climate.grown(w.regions.len())
            },
            ..w
        }
    } else {
        w
    }
}

/// The diff that the coupler produces.
pub open spec fn reconciled_diff(w: WorldView, cryo: DiffView) -> DiffView {
    if engaged(w, cryo) {
        summarised(reconcile_regions(start_of(w), w.regions, w.regions.len()))
    } else {
        DiffView::empty()
    }
}

/// The coupler moves a baseline that is within the baseline limit by at
/// most one tenth per tick and keeps it within the limit; to the diff it
/// adds nothing but baselines.
pub proof fn lemma_reconcile_regions(start: Reconciled, regions: Seq<Region>, n: nat)
    requires
        n <= regions.len(),
        start.last_albedo.len() >= regions.len(),
        start.baseline.len() >= regions.len(),
        start.diff.wf(),
    ensures
        ({
            let end = reconcile_regions(start, regions, n);
            &&& end.last_albedo.len() == start.last_albedo.len()
            &&& end.baseline.len() == start.baseline.len()
            &&& end.diff.wf()
            &&& end.diff == (DiffView {
                temperature_baseline: end.diff.temperature_baseline,
                ..start.diff
            })
            &&& end.adjusted <= start.adjusted + n
            &&& forall|i: int|
                0 <= i < start.baseline.len() && -BASELINE_LIMIT_TENTHS <= start.baseline[i]
                    <= BASELINE_LIMIT_TENTHS ==> -1 <= (#[trigger] end.baseline[i])
                    - start.baseline[i] <= 1
            &&& (forall|i: int|
                0 <= i < start.baseline.len() ==> -BASELINE_LIMIT_TENTHS <= (
                #[trigger] start.baseline[i]) <= BASELINE_LIMIT_TENTHS) ==> (forall|i: int|
                0 <= i < end.baseline.len() ==> -BASELINE_LIMIT_TENTHS <= (
                #[trigger] end.baseline[i]) <= BASELINE_LIMIT_TENTHS)
            &&& forall|i: int|
                n <= i < start.baseline.len() ==> (#[trigger] end.baseline[i])
                    == start.baseline[i]
            &&& forall|i: int|
                n <= i < start.last_albedo.len() ==> (#[trigger] end.last_albedo[i])
                    == start.last_albedo[i]
            &&& forall|i: int|
                0 <= i < n ==> (#[trigger] end.last_albedo[i]) == regions[i].albedo_milli
        }),
    decreases n,
{
    if n > 0 {
        lemma_reconcile_regions(start, regions, (n - 1) as nat);
        let acc = reconcile_regions(start, regions, (n - 1) as nat);
        let end = reconcile_regions(start, regions, n);
        let index = n - 1;
        let anomaly = anomaly_spec(
            regions[index].albedo_milli as int,
            acc.last_albedo[index] as int,
        );
        let before = acc.baseline[index] as int;
        let updated = clamp_int(
            before + adjust_spec(anomaly),
            -(BASELINE_LIMIT_TENTHS as int),
            BASELINE_LIMIT_TENTHS as int,
        );
        if anomaly != 0 && updated != before {
            crate::sparse::lemma_upsert_sorted(
                acc.diff.temperature_baseline,
                crate::diff::ScalarValue { region: (index as usize) as u32, value: updated as i32 },
            );
        }
        assert(acc.baseline[index] == start.baseline[index]);
    }
}

/// Run the coupler: take the albedo snapshots forward and move the
/// temperature baselines against the anomalies.
///
/// The atmosphere's diff is not consulted; the cryosphere's diff decides
/// whether the coupler engages at all.
pub fn reconcile_with_world(world: &mut World, atmos_diff: &Diff, cryo_diff: &Diff) -> (out: Diff)
    ensures
        final(world)@ == reconciled_world(old(world)@, cryo_diff@),
        out@ == reconciled_diff(old(world)@, cryo_diff@),
        out.wf(),
        out@.temperature.len() == 0,
{
    let mut diff = Diff::default();
    if cryo_diff.albedo.is_empty() {
        return diff;
    }
    let region_count = world.regions.len();
    if region_count == 0 {
        return diff;
    }
    world.climate.ensure_region_capacity(region_count);
    let ghost start = start_of(old(world)@);
    let ghost grown = old(world)@.climate.grown(region_count as nat);
    let mut total_anomaly: i128 = 0;
    let mut total_adjust: i128 = 0;
    let mut adjusted_regions: usize = 0;
    let mut index: usize = 0;
    while index < region_count
        invariant
            index <= region_count,
            region_count == world.regions@.len(),
            world.regions@ == old(world).regions@,
            world.tick == old(world).tick,
            world.seed == old(world).seed,
            world.width == old(world).width,
            world.height == old(world).height,
            start == start_of(old(world)@),
            grown == old(world)@.climate.grown(region_count as nat),
            start.last_albedo.len() >= region_count,
            start.baseline.len() >= region_count,
            diff.wf(),
            world.climate@ == (ClimateView {
                last_albedo_milli: world.climate.last_albedo_milli@,
                temperature_baseline_tenths: world.climate.temperature_baseline_tenths@,
                ..grown
            }),
            ({
                let acc = reconcile_regions(start, world.regions@, index as nat);
                &&& acc.last_albedo == world.climate.last_albedo_milli@
                &&& acc.baseline == world.climate.temperature_baseline_tenths@
                &&& acc.diff == diff@
                &&& acc.total_anomaly == total_anomaly
                &&& acc.total_adjust == total_adjust
                &&& acc.adjusted == adjusted_regions
            }),
            adjusted_regions <= index,
            -0x1_0000_0000 * index <= total_anomaly <= 0x1_0000_0000 * index,
            -0x1_0000_0000 * index <= total_adjust <= 0x1_0000_0000 * index,
        decreases region_count - index,
    {
        proof {
            lemma_reconcile_regions(start, world.regions@, index as nat);
        }
        let current: i32 = world.regions[index].albedo_milli as i32;
        let snapshot: i32 = world.climate.last_albedo_milli[index];
        world.climate.last_albedo_milli.set(index, current);
        let anomaly: i64 = if snapshot == 0 {
            0
        } else {
            current as i64 - snapshot as i64
        };
        if anomaly != 0 {
            adjusted_regions += 1;
            total_anomaly += anomaly as i128;
            let raw = round_div(-(anomaly as i128), ANOMALY_PER_TENTH as i128);
            let bounded: i32 = if raw < -1 {
                -1
            } else if raw > 1 {
                1
            } else {
                raw as i32
            };
            let before: i32 = world.climate.temperature_baseline_tenths[index] as i32;
            let updated: i32 = clamp_i32(
                before + bounded,
                -(BASELINE_LIMIT_TENTHS as i32),
                BASELINE_LIMIT_TENTHS as i32,
            );
            if updated != before {
                world.climate.temperature_baseline_tenths.set(index, updated as i16);
                diff.record_temperature_baseline(index, updated);
                total_adjust += (updated - before) as i128;
            }
        }
        index += 1;
    }
    proof {
        lemma_reconcile_regions(start, world.regions@, region_count as nat);
    }
    if adjusted_regions > 0 && (!diff.temperature_baseline.is_empty() || total_anomaly != 0) {
        let mean_anomaly = saturate_i32(round_div(total_anomaly, adjusted_regions as i128));
        let mean_adjust = saturate_i32(round_div(total_adjust, adjusted_regions as i128));
        diff.record_diagnostic("albedo_anomaly_milli", mean_anomaly);
        diff.record_diagnostic("energy_balance", mean_adjust);
        let anomaly_note = labelled("mean_milli=", mean_anomaly as i64);
        diff.record_cause(Entry::new("climate:coupler", Code::AlbedoFeedback, Some(anomaly_note)));
        let adjust_note = labelled("mean_tenths=", mean_adjust as i64);
        diff.record_cause(
            Entry::new("climate:coupler", Code::EnergyBalanceAdjustment, Some(adjust_note)),
        );
    }
    diff
}

} // verus!
