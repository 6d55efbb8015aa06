//! Atmosphere: humidity, temperature and precipitation under seasonal
//! forcing.
//!
//! The energy and moisture formulas reach the kernel as samples. The kernel
//! bounds every field, adds the temperature baseline that the coupler left
//! on the tick before, records what differs from the world, and names the
//! causes.

use vstd::prelude::*;
use vstd::string::StringExecFns;

use crate::cause::{Code, Entry, EntryView};
use crate::diff::{Diff, DiffView};
use crate::error::SimError;
use crate::fixed::{clamp_i32, clamp_int};
use crate::schedule::{lines_view, KernelRun};
use crate::text::{decimal, push_decimal, region_target, region_target_text};
use crate::world::{
    Region, World, WorldView, PRECIP_MAX_MM, TEMP_MAX_TENTHS_C, TEMP_MIN_TENTHS_C,
};

verus! {

/// Stage label of the atmosphere kernel.
pub const STAGE: &'static str = "kernel:atmosphere";

/// Label of the stream that humidity jitter is drawn from.
pub const MOISTURE_STREAM: &'static str = "CLIMATE.atmo_moisture";

/// Label of the stream that orographic jitter is drawn from.
pub const OROGRAPHY_STREAM: &'static str = "CLIMATE.atmo_orography";

/// Label of the stream that precipitation jitter is drawn from.
pub const COMMIT_STREAM: &'static str = "CLIMATE.atmo_precip_commit";

/// Highest humidity, in tenths of a percent.
pub const HUMIDITY_TENTHS_MAX: i32 = 1_000;

/// Length of the seasonal cycle, in ticks.
pub const SEASON_PERIOD_TICKS: u64 = 4;

/// Position of a tick in the seasonal cycle.
pub fn season_phase(tick: u64) -> (out: u64)
    ensures
        out == tick % SEASON_PERIOD_TICKS,
        out < SEASON_PERIOD_TICKS,
{
    tick % SEASON_PERIOD_TICKS
}

/// The prevailing wind of a latitude, as the step in `x` from a region to
/// its upwind neighbour: `-1` under the trade winds within 30 degrees of the
/// equator, `+1` under the westerlies up to 60 degrees, `-1` under the polar
/// easterlies beyond.
pub open spec fn wind_spec(latitude_microdeg: int) -> int {
    let distance = if latitude_microdeg < 0 {
        -latitude_microdeg
    } else {
        latitude_microdeg
    };
    if distance < 30_000_000 {
        -1
    } else if distance < 60_000_000 {
        1
    } else {
        -1
    }
}

/// The prevailing wind of a latitude, as the step in `x` and in `y` from a
/// region to its upwind neighbour.
pub fn prevailing_wind(latitude_microdeg: i32) -> (out: (i32, i32))
    ensures
        out.0 == wind_spec(latitude_microdeg as int),
        out.1 == 0,
{
    let wide = latitude_microdeg as i64;
    let distance: i64 = if wide < 0 {
        -wide
    } else {
        wide
    };
    if distance < 30_000_000 {
        (-1, 0)
    } else if distance < 60_000_000 {
        (1, 0)
    } else {
        (-1, 0)
    }
}

/// Whether the region at `index` sits at the cell `(x, y)`.
pub open spec fn sits_at(regions: Seq<Region>, index: int, x: int, y: int) -> bool {
    0 <= index < regions.len() && regions[index].x == x && regions[index].y == y
}

/// The index of the region at the cell `(x, y)`: none outside the grid;
/// inside it, the region at the cell's own position if that region sits
/// there, and otherwise the first region that sits there.
pub open spec fn index_at_spec(w: WorldView, x: int, y: int) -> Option<int> {
    if x < 0 || y < 0 || x >= w.width || y >= w.height {
        None
    } else if sits_at(w.regions, y * w.width + x, x, y) {
        Some(y * w.width + x)
    } else if exists|k: int| sits_at(w.regions, k, x, y) {
        Some(first_at(w.regions, x, y, 0))
    } else {
        None
    }
}

/// The first index from `from` on at which a region sits at `(x, y)`; the
/// number of regions if there is none.
pub open spec fn first_at(regions: Seq<Region>, x: int, y: int, from: int) -> int
    decreases regions.len() - from,
{
    if from < 0 || from >= regions.len() {
        regions.len() as int
    } else if sits_at(regions, from, x, y) {
        from
    } else {
        first_at(regions, x, y, from + 1)
    }
}

/// No region before the first one at `(x, y)` sits there.
pub proof fn lemma_first_at(regions: Seq<Region>, x: int, y: int, from: int)
    requires
        0 <= from <= regions.len(),
    ensures
        from <= first_at(regions, x, y, from) <= regions.len(),
        forall|k: int| from <= k < first_at(regions, x, y, from) ==> !sits_at(regions, k, x, y),
        first_at(regions, x, y, from) < regions.len() ==> sits_at(
            regions,
            first_at(regions, x, y, from),
            x,
            y,
        ),
    decreases regions.len() - from,
{
    if from < regions.len() && !sits_at(regions, from, x, y) {
        lemma_first_at(regions, x, y, from + 1);
    }
}

/// The index of the region at the cell `(x, y)`, if there is one.
pub fn cell_index(world: &World, x: i64, y: i64) -> (out: Option<usize>)
    ensures
        match out {
            Some(index) => index_at_spec(world@, x as int, y as int) == Some(index as int),
            None => index_at_spec(world@, x as int, y as int) is None,
        },
{
    if x < 0 || y < 0 {
        return None;
    }
    if x >= world.width as i64 || y >= world.height as i64 {
        return None;
    }
    let width = world.width as u64;
    let row = y as u64;
    assert(row * width <= 0xFFFF_FFFF * 0xFFFF_FFFF) by (nonlinear_arith)
        requires
            0 <= row <= 0xFFFF_FFFF,
            0 <= width <= 0xFFFF_FFFF,
    ;
    let position: u64 = row * width + x as u64;
    if position < world.regions.len() as u64 {
        let region = &world.regions[position as usize];
        if region.x as i64 == x && region.y as i64 == y {
            return Some(position as usize);
        }
    }
    proof {
        lemma_first_at(world.regions@, x as int, y as int, 0);
        assert(!sits_at(world.regions@, y * world.width + x, x as int, y as int));
    }
    let mut index: usize = 0;
    while index < world.regions.len()
        invariant
            index <= world.regions@.len(),
            0 <= x < world.width,
            0 <= y < world.height,
            !sits_at(world.regions@, y * world.width + x, x as int, y as int),
            forall|k: int| 0 <= k < index ==> !sits_at(world.regions@, k, x as int, y as int),
            first_at(world.regions@, x as int, y as int, 0) == first_at(
                world.regions@,
                x as int,
                y as int,
                index as int,
            ),
        decreases world.regions@.len() - index,
    {
        let region = &world.regions[index];
        if region.x as i64 == x && region.y as i64 == y {
            proof {
                assert(sits_at(world.regions@, index as int, x as int, y as int));
            }
            return Some(index);
        }
        index += 1;
    }
    proof {
        assert forall|k: int| !sits_at(world.regions@, k, x as int, y as int) by {}
    }
    None
}

/// The index of the region at the cell `(x, y)`, if there is one.
pub fn region_index_at(world: &World, x: i32, y: i32) -> (out: Option<usize>)
    ensures
        match out {
            Some(index) => index_at_spec(world@, x as int, y as int) == Some(index as int),
            None => index_at_spec(world@, x as int, y as int) is None,
        },
{
    cell_index(world, x as i64, y as i64)
}

/// The index of the region upwind of `region`: its neighbour in the row, one
/// step along the prevailing wind of its latitude.
pub fn upwind_index(world: &World, region: &Region) -> (out: Option<usize>)
    ensures
        match out {
            Some(index) => index_at_spec(
                world@,
                region.x + wind_spec(region.latitude_microdeg as int),
                region.y as int,
            ) == Some(index as int),
            None => index_at_spec(
                world@,
                region.x + wind_spec(region.latitude_microdeg as int),
                region.y as int,
            ) is None,
        },
{
    let step = prevailing_wind(region.latitude_microdeg);
    cell_index(world, region.x as i64 + step.0 as i64, region.y as i64 + step.1 as i64)
}

/// The index of the region downwind of `region`: its neighbour in the row,
/// one step against the prevailing wind of its latitude.
pub fn downwind_index(world: &World, region: &Region) -> (out: Option<usize>)
    ensures
        match out {
            Some(index) => index_at_spec(
                world@,
                region.x - wind_spec(region.latitude_microdeg as int),
                region.y as int,
            ) == Some(index as int),
            None => index_at_spec(
                world@,
                region.x - wind_spec(region.latitude_microdeg as int),
                region.y as int,
            ) is None,
        },
{
    let step = prevailing_wind(region.latitude_microdeg);
    cell_index(world, region.x as i64 - step.0 as i64, region.y as i64 - step.1 as i64)
}

/// What the formulas give for one region.
#[derive(Debug)]
pub struct RegionSample {
    /// Humidity, in tenths of a percent.
    pub humidity_tenths: i32,
    /// Temperature before the baseline offset, in tenths of degrees.
    pub temperature_tenths: i32,
    /// Precipitation, in millimetres.
    pub precipitation_mm: i32,
    /// Note of the Hadley cell, where the cell reaches the region.
    pub hadley_note: Option<String>,
    /// Note of the orographic lift, where the region is lifted.
    pub lift_note: Option<String>,
    /// Note of the rain shadow, where the region lies in one.
    pub shadow_note: Option<String>,
    /// Note of the humidity transport.
    pub transport_note: String,
    /// Note of the monsoon, where one sets in.
    pub monsoon_note: Option<String>,
}

/// What the formulas give for one tick.
#[derive(Debug)]
pub struct AtmosphereSample {
    /// Note of the seasonal shift, in a tick that has one.
    pub seasonal_note: Option<String>,
    /// Note of the Hadley drift, in a tick that has one.
    pub drift_note: Option<String>,
    /// Start of the chronicle line: the drift of the Hadley cells.
    pub drift_summary: String,
    /// End of the chronicle line in a tick without monsoons: the seasonal
    /// scalar.
    pub season_summary: String,
    /// One sample per region.
    pub regions: Vec<RegionSample>,
}

/// What an optional note says.
pub open spec fn note_view(note: Option<String>) -> Option<Seq<char>> {
    match note {
        Some(text) => Some(text@),
        None => None,
    }
}

/// What a region's sample says.
pub struct RegionSampleView {
    pub humidity_tenths: i32,
    pub temperature_tenths: i32,
    pub precipitation_mm: i32,
    pub hadley_note: Option<Seq<char>>,
    pub lift_note: Option<Seq<char>>,
    pub shadow_note: Option<Seq<char>>,
    pub transport_note: Seq<char>,
    pub monsoon_note: Option<Seq<char>>,
}

/// What a tick's sample says.
pub struct AtmosphereSampleView {
    pub seasonal_note: Option<Seq<char>>,
    pub drift_note: Option<Seq<char>>,
    pub drift_summary: Seq<char>,
    pub season_summary: Seq<char>,
    pub regions: Seq<RegionSampleView>,
}

impl View for RegionSample {
    type V = RegionSampleView;

    open spec fn view(&self) -> RegionSampleView {
        RegionSampleView {
            humidity_tenths: self.humidity_tenths,
            temperature_tenths: self.temperature_tenths,
            precipitation_mm: self.precipitation_mm,
            hadley_note: note_view(self.hadley_note),
            lift_note: note_view(self.lift_note),
            shadow_note: note_view(self.shadow_note),
            transport_note: self.transport_note@,
            monsoon_note: note_view(self.monsoon_note),
        }
    }
}

impl View for AtmosphereSample {
    type V = AtmosphereSampleView;

    open spec fn view(&self) -> AtmosphereSampleView {
        AtmosphereSampleView {
            seasonal_note: note_view(self.seasonal_note),
            drift_note: note_view(self.drift_note),
            drift_summary: self.drift_summary@,
            season_summary: self.season_summary@,
            regions: self.regions@.map_values(|r: RegionSample| r@),
        }
    }
}

/// What the kernel has worked out after some regions.
pub struct Step {
    pub diff: DiffView,
    pub monsoon_regions: nat,
}

/// The temperature a region is given: the sample plus the region's
/// baseline offset, clamped to the temperature range.
pub open spec fn temperature_spec(sample: int, baseline: int) -> int {
    clamp_int(sample + baseline, TEMP_MIN_TENTHS_C as int, TEMP_MAX_TENTHS_C as int)
}

/// The diff with a cause, if its note is present.
pub open spec fn with_optional_cause(
    d: DiffView,
    target: Seq<char>,
    code: Code,
    note: Option<Seq<char>>,
) -> DiffView {
    match note {
        Some(text) => d.with_cause(EntryView { target, code, note: Some(text) }),
        None => d,
    }
}

/// The diff after the fields of a region have been handled: humidity is
/// always recorded; temperature and precipitation are recorded where they
/// differ from the region's.
pub open spec fn fields_step(d: DiffView, r: Region, baseline: int, rs: RegionSampleView)
    -> DiffView {
    let humidity = clamp_int(rs.humidity_tenths as int, 0, HUMIDITY_TENTHS_MAX as int);
    let temperature = temperature_spec(rs.temperature_tenths as int, baseline);
    let precipitation = clamp_int(rs.precipitation_mm as int, 0, PRECIP_MAX_MM as int);
    let d1 = d.with_humidity(r.id, humidity as i32);
    let d2 = if temperature != r.temperature_tenths_c {
        d1.with_temperature(r.id, temperature as i32)
    } else {
        d1
    };
    if precipitation != r.precipitation_mm {
        d2.with_precipitation(r.id, precipitation as i32)
    } else {
        d2
    }
}

/// The diff after the seasonal causes of a region have been named: the
/// seasonal shift and the Hadley drift, each for temperature and for
/// precipitation, and the Hadley cell for temperature.
pub open spec fn season_step(d: DiffView, r: Region, s: AtmosphereSampleView, rs: RegionSampleView)
    -> DiffView {
    let temperature = region_target_text(r.id, "/temperature"@);
    let precip = region_target_text(r.id, "/precip"@);
    let d1 = with_optional_cause(d, temperature, Code::SeasonalShift, s.seasonal_note);
    let d2 = with_optional_cause(d1, precip, Code::SeasonalShift, s.seasonal_note);
    let d3 = with_optional_cause(d2, temperature, Code::HadleyDrift, s.drift_note);
    let d4 = with_optional_cause(d3, precip, Code::HadleyDrift, s.drift_note);
    with_optional_cause(d4, temperature, Code::HadleyCell, rs.hadley_note)
}

/// The state after the moisture causes of a region have been named:
/// orographic lift, rain shadow, humidity transport, and monsoon onset,
/// which is counted.
pub open spec fn moisture_step(acc: Step, r: Region, rs: RegionSampleView) -> Step {
    let precip = region_target_text(r.id, "/precip"@);
    let d1 = with_optional_cause(acc.diff, precip, Code::OrographicLift, rs.lift_note);
    let d2 = with_optional_cause(d1, precip, Code::RainShadow, rs.shadow_note);
    let d3 = d2.with_cause(
        EntryView {
            target: region_target_text(r.id, "/humidity"@),
            code: Code::HumidityTransport,
            note: Some(rs.transport_note),
        },
    );
    Step {
        diff: with_optional_cause(d3, precip, Code::MonsoonOnset, rs.monsoon_note),
        monsoon_regions: if rs.monsoon_note is Some {
            acc.monsoon_regions + 1
        } else {
            acc.monsoon_regions
        },
    }
}

/// The state after the kernel has handled one region.
pub open spec fn region_step(
    acc: Step,
    r: Region,
    baseline: int,
    s: AtmosphereSampleView,
    rs: RegionSampleView,
) -> Step {
    let d1 = fields_step(acc.diff, r, baseline, rs);
    let d2 = season_step(d1, r, s, rs);
    moisture_step(Step { diff: d2, ..acc }, r, rs)
}

/// The baseline offset of the region at `index`; zero where the climate
/// state has none.
pub open spec fn baseline_at(w: WorldView, index: int) -> int {
    if 0 <= index < w.climate.temperature_baseline_tenths.len() {
        w.climate.temperature_baseline_tenths[index] as int
    } else {
        0
    }
}

/// The state after the kernel has handled the first `n` regions.
pub open spec fn region_steps(w: WorldView, s: AtmosphereSampleView, n: nat) -> Step
    decreases n,
{
    if n == 0 {
        Step { diff: DiffView::empty(), monsoon_regions: 0 }
    } else {
        region_step(
            region_steps(w, s, (n - 1) as nat),
            w.regions[n - 1],
            baseline_at(w, n - 1),
            s,
            s.regions[n - 1],
        )
    }
}

/// The chronicle line of the tick: the drift summary, then the number of
/// monsoon regions if there are any, and the seasonal summary otherwise.
pub open spec fn chronicle_line(s: AtmosphereSampleView, monsoon_regions: nat) -> Seq<char> {
    if monsoon_regions > 0 {
        s.drift_summary + "monsoons intensified across "@ + decimal(monsoon_regions)
            + " regions."@
    } else {
        s.drift_summary + s.season_summary
    }
}

/// The number of monsoon regions never exceeds the number of regions
/// handled.
pub proof fn lemma_monsoon_count(w: WorldView, s: AtmosphereSampleView, n: nat)
    ensures
        region_steps(w, s, n).monsoon_regions <= n,
    decreases n,
{
    if n > 0 {
        lemma_monsoon_count(w, s, (n - 1) as nat);
    }
}

fn record_optional(diff: &mut Diff, target: &str, code: Code, note: &Option<String>)
    requires
        old(diff).wf(),
    ensures
        final(diff).wf(),
        final(diff)@ == with_optional_cause(old(diff)@, target@, code, note_view(*note)),
{
    match note {
        Some(text) => {
            diff.record_cause(Entry::new(target, code, Some(text.clone())));
        },
        None => {},
    }
}

/// Handle the fields of a region.
pub fn update_fields(diff: &mut Diff, region: &Region, baseline: i16, sample: &RegionSample)
    requires
        old(diff).wf(),
    ensures
        final(diff).wf(),
        final(diff)@ == fields_step(old(diff)@, *region, baseline as int, sample@),
{
    let index = region.index();
    let humidity = clamp_i32(sample.humidity_tenths, 0, HUMIDITY_TENTHS_MAX);
    diff.record_humidity(index, humidity);
    let offset: i64 = sample.temperature_tenths as i64 + baseline as i64;
    let temperature: i32 = if offset < TEMP_MIN_TENTHS_C as i64 {
        TEMP_MIN_TENTHS_C as i32
    } else if offset > TEMP_MAX_TENTHS_C as i64 {
        TEMP_MAX_TENTHS_C as i32
    } else {
        offset as i32
    };
    if region.temperature_tenths_c as i32 != temperature {
        diff.record_temperature(index, temperature);
    }
    let precipitation = clamp_i32(sample.precipitation_mm, 0, PRECIP_MAX_MM as i32);
    if region.precipitation_mm as i32 != precipitation {
        diff.record_precipitation(index, precipitation);
    }
}

/// Name the seasonal causes of a region.
pub fn update_season(
    diff: &mut Diff,
    region: &Region,
    sample: &AtmosphereSample,
    region_sample: &RegionSample,
)
    requires
        old(diff).wf(),
    ensures
        final(diff).wf(),
        final(diff)@ == season_step(old(diff)@, *region, sample@, region_sample@),
{
    let temperature = region_target(region.id, "/temperature");
    let precip = region_target(region.id, "/precip");
    record_optional(diff, temperature.as_str(), Code::SeasonalShift, &sample.seasonal_note);
    record_optional(diff, precip.as_str(), Code::SeasonalShift, &sample.seasonal_note);
    record_optional(diff, temperature.as_str(), Code::HadleyDrift, &sample.drift_note);
    record_optional(diff, precip.as_str(), Code::HadleyDrift, &sample.drift_note);
    record_optional(diff, temperature.as_str(), Code::HadleyCell, &region_sample.hadley_note);
}

/// Name the moisture causes of a region; the result tells whether a monsoon
/// sets in.
pub fn update_moisture(diff: &mut Diff, region: &Region, sample: &RegionSample) -> (monsoon: bool)
    requires
        old(diff).wf(),
    ensures
        final(diff).wf(),
        final(diff)@ == moisture_step(
            Step { diff: old(diff)@, monsoon_regions: 0 },
            *region,
            sample@,
        ).diff,
        monsoon == (sample@.monsoon_note is Some),
{
    let precip = region_target(region.id, "/precip");
    record_optional(diff, precip.as_str(), Code::OrographicLift, &sample.lift_note);
    record_optional(diff, precip.as_str(), Code::RainShadow, &sample.shadow_note);
    let humidity = region_target(region.id, "/humidity");
    diff.record_cause(
        Entry::new(
            humidity.as_str(),
            Code::HumidityTransport,
            Some(sample.transport_note.clone()),
        ),
    );
    record_optional(diff, precip.as_str(), Code::MonsoonOnset, &sample.monsoon_note);
    sample.monsoon_note.is_some()
}

/// Build the chronicle line of the tick.
pub fn chronicle_summary(sample: &AtmosphereSample, monsoon_regions: usize) -> (out: String)
    ensures
        out@ == chronicle_line(sample@, monsoon_regions as nat),
{
    let mut out = sample.drift_summary.clone();
    if monsoon_regions > 0 {
        out.append("monsoons intensified across ");
        push_decimal(&mut out, monsoon_regions as u64);
        out.append(" regions.");
        proof {
            assert(out@ =~= chronicle_line(sample@, monsoon_regions as nat));
        }
    } else {
        out.append(sample.season_summary.as_str());
    }
    out
}

/// Run the kernel over all regions.
///
/// A world in which a region's id is not its position is refused with
/// `RegionIndexMismatch` for the first such region. A world without regions
/// gives an empty run.
pub fn update<H>(world: &World, sample: &AtmosphereSample) -> (out: Result<
    KernelRun<H>,
    SimError,
>)
    requires
        sample.regions@.len() == world.regions@.len(),
    ensures
        match out {
            Ok(run) => {
                &&& world@.ids_match()
                &&& run.diff.wf()
                &&& run.diff@ == region_steps(world@, sample@, world.regions@.len()).diff
                &&& lines_view(run.chronicle@) == (if world.regions@.len() == 0 {
                    Seq::<Seq<char>>::empty()
                } else {
                    seq![
                        chronicle_line(
                            sample@,
                            region_steps(world@, sample@, world.regions@.len()).monsoon_regions,
                        ),
                    ]
                })
                &&& run.highlights@.len() == 0
            },
            Err(e) => {
                &&& !world@.ids_match()
                &&& world@.first_mismatch(e)
            },
        },
{
    match world.check_ids() {
        Err(e) => {
            return Err(e);
        },
        Ok(_) => {},
    }
    let mut diff = Diff::default();
    let mut chronicle: Vec<String> = Vec::new();
    proof {
        assert(lines_view(chronicle@) =~= Seq::empty());
    }
    if world.regions.len() == 0 {
        return Ok(KernelRun { diff, chronicle, highlights: Vec::new() });
    }
    let mut monsoon_regions: usize = 0;
    let mut index: usize = 0;
    while index < world.regions.len()
        invariant
            index <= world.regions@.len(),
            sample.regions@.len() == world.regions@.len(),
            diff.wf(),
            monsoon_regions <= index,
            (Step { diff: diff@, monsoon_regions: monsoon_regions as nat }) == region_steps(
                world@,
                sample@,
                index as nat,
            ),
        decreases world.regions@.len() - index,
    {
        let region = &world.regions[index];
        let baseline: i16 = if index < world.climate.temperature_baseline_tenths.len() {
            world.climate.temperature_baseline_tenths[index]
        } else {
            0
        };
        proof {
            assert(sample@.regions[index as int] == sample.regions@[index as int]@);
        }
        update_fields(&mut diff, region, baseline, &sample.regions[index]);
        update_season(&mut diff, region, sample, &sample.regions[index]);
        let monsoon = update_moisture(&mut diff, region, &sample.regions[index]);
        if monsoon {
            monsoon_regions += 1;
        }
        index += 1;
    }
    let line = chronicle_summary(sample, monsoon_regions);
    chronicle.push(line);
    proof {
        assert(lines_view(chronicle@) =~= seq![chronicle_line(sample@, monsoon_regions as nat)]);
    }
    Ok(KernelRun { diff, chronicle, highlights: Vec::new() })
}

} // verus!
