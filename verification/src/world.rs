//! The region grid and the slow climate state carried between ticks.

use std::collections::VecDeque;
use vstd::prelude::*;
use vstd::string::StringExecFns;

use crate::error::{CheckedMeter, SimError};
use crate::fixed::{clamp_int, ALBEDO_MAX, FRESHWATER_FLUX_MAX, SOIL_MAX, WATER_MAX};
use crate::text::{
    decimal, lemma_decimal_reads_back, parse_unsigned, push_decimal, read_digits,
};

verus! {

/// Lowest elevation a region can have, in metres.
pub const ELEVATION_MIN_M: i32 = -1_000;

/// Highest elevation a region can have, in metres.
pub const ELEVATION_MAX_M: i32 = 4_000;

/// Lowest temperature a region can have, in tenths of degrees Celsius.
pub const TEMP_MIN_TENTHS_C: i16 = -500;

/// Highest temperature a region can have, in tenths of degrees Celsius.
pub const TEMP_MAX_TENTHS_C: i16 = 500;

/// Highest precipitation a region can have, in millimetres.
pub const PRECIP_MAX_MM: u16 = 5_000;

/// Largest magnitude of a temperature baseline offset, in tenths of degrees.
pub const BASELINE_LIMIT_TENTHS: i16 = 120;

/// Deepest snowpack a region can carry, in millimetres.
pub const SNOWPACK_MAX_MM: i32 = 4_500;

/// Deepest permafrost active layer, in centimetres.
pub const ACTIVE_LAYER_MAX_CM: i32 = 300;

/// Largest latitude magnitude, in millionths of a degree.
pub const LATITUDE_LIMIT_MICRODEG: i32 = 90_000_000;

/// Number of samples an extreme window holds.
pub const EXTREME_WINDOW: usize = 6;

/// Hazard gauges for a region.
#[derive(Clone, Copy, Debug, PartialEq, Eq, Structural)]
pub struct Hazards {
    pub drought: u16,
    pub flood: u16,
}

impl Default for Hazards {
    fn default() -> (out: Self)
        ensures
            out == (Hazards { drought: 0, flood: 0 }),
    {
        Hazards { drought: 0, flood: 0 }
    }
}

/// Region level state tracked by the simulation.
///
/// Latitude is stored in millionths of a degree, positive to the north.
#[derive(Clone, Copy, Debug, PartialEq, Eq, Structural)]
pub struct Region {
    pub id: u32,
    pub x: u32,
    pub y: u32,
    pub elevation_m: i32,
    pub latitude_microdeg: i32,
    pub biome: u8,
    pub water: u16,
    pub soil: u16,
    pub temperature_tenths_c: i16,
    pub precipitation_mm: u16,
    pub albedo_milli: u16,
    pub freshwater_flux_tenths_mm: u16,
    pub ice_mass_kilotons: u32,
    pub hazards: Hazards,
}

impl Region {
    /// Every bounded meter of the region lies within its declared range.
    pub open spec fn meters_in_bounds(self) -> bool {
        &&& ELEVATION_MIN_M <= self.elevation_m <= ELEVATION_MAX_M
        &&& self.water <= WATER_MAX
        &&& self.soil <= SOIL_MAX
        &&& TEMP_MIN_TENTHS_C <= self.temperature_tenths_c <= TEMP_MAX_TENTHS_C
        &&& self.precipitation_mm <= PRECIP_MAX_MM
        &&& self.albedo_milli <= ALBEDO_MAX
        &&& self.freshwater_flux_tenths_mm <= FRESHWATER_FLUX_MAX
        &&& self.hazards.drought <= WATER_MAX
        &&& self.hazards.flood <= WATER_MAX
    }

    /// Water and soil do not exceed their maxima.
    pub open spec fn resources_in_range(self) -> bool {
        self.water <= WATER_MAX && self.soil <= SOIL_MAX
    }

    /// The error that reports a water or soil level above its maximum; water
    /// is reported before soil.
    pub open spec fn resource_error(self) -> SimError {
        if self.water > WATER_MAX {
            SimError::MeterOutOfRange { id: self.id, meter: CheckedMeter::Water, value: self.water }
        } else {
            SimError::MeterOutOfRange { id: self.id, meter: CheckedMeter::Soil, value: self.soil }
        }
    }

    /// Position of the region in the grid's list of regions.
    pub fn index(&self) -> (out: usize)
        ensures
            out == self.id,
    {
        self.id as usize
    }

    /// Whether every bounded meter lies within its declared range.
    pub fn has_meters_in_bounds(&self) -> (out: bool)
        ensures
            out == self.meters_in_bounds(),
    {
        ELEVATION_MIN_M <= self.elevation_m && self.elevation_m <= ELEVATION_MAX_M && self.water
            <= WATER_MAX && self.soil <= SOIL_MAX && TEMP_MIN_TENTHS_C <= self.temperature_tenths_c
            && self.temperature_tenths_c <= TEMP_MAX_TENTHS_C && self.precipitation_mm
            <= PRECIP_MAX_MM && self.albedo_milli <= ALBEDO_MAX && self.freshwater_flux_tenths_mm
            <= FRESHWATER_FLUX_MAX && self.hazards.drought <= WATER_MAX && self.hazards.flood
            <= WATER_MAX
    }
}

/// A sequence grown to at least `n` entries by appending `fill`.
pub open spec fn padded<T>(s: Seq<T>, n: nat, fill: T) -> Seq<T> {
    if s.len() >= n {
        s
    } else {
        s + Seq::new((n - s.len()) as nat, |i: int| fill)
    }
}

/// An extreme window in its initial state: `EXTREME_WINDOW` zero samples.
pub open spec fn zero_window<T>(zero: T) -> Seq<T> {
    Seq::new(EXTREME_WINDOW as nat, |i: int| zero)
}

/// What a list of windows holds, window by window.
pub open spec fn windows_view<T>(v: Seq<VecDeque<T>>) -> Seq<Seq<T>> {
    v.map_values(|w: VecDeque<T>| w@)
}

/// Slow-changing climate coordination state carried between ticks.
#[derive(Clone, Debug)]
pub struct ClimateState {
    pub temperature_baseline_tenths: Vec<i16>,
    pub last_albedo_milli: Vec<i32>,
    pub last_insolation_tenths: Vec<i32>,
    pub snowpack_mm: Vec<i32>,
    pub permafrost_active_cm: Vec<i32>,
    pub temperature_maxima: Vec<VecDeque<i16>>,
    pub precipitation_peaks: Vec<VecDeque<u16>>,
    pub sea_level_equivalent_mm: i32,
}

/// What a climate state holds, as sequences.
pub struct ClimateView {
    pub temperature_baseline_tenths: Seq<i16>,
    pub last_albedo_milli: Seq<i32>,
    pub last_insolation_tenths: Seq<i32>,
    pub snowpack_mm: Seq<i32>,
    pub permafrost_active_cm: Seq<i32>,
    pub temperature_maxima: Seq<Seq<i16>>,
    pub precipitation_peaks: Seq<Seq<u16>>,
    pub sea_level_equivalent_mm: i32,
}

impl View for ClimateState {
    type V = ClimateView;

    open spec fn view(&self) -> ClimateView {
        ClimateView {
            temperature_baseline_tenths: self.temperature_baseline_tenths@,
            last_albedo_milli: self.last_albedo_milli@,
            last_insolation_tenths: self.last_insolation_tenths@,
            snowpack_mm: self.snowpack_mm@,
            permafrost_active_cm: self.permafrost_active_cm@,
            temperature_maxima: windows_view(self.temperature_maxima@),
            precipitation_peaks: windows_view(self.precipitation_peaks@),
            sea_level_equivalent_mm: self.sea_level_equivalent_mm,
        }
    }
}

impl ClimateView {
    /// Every per-region list has an entry for each of `count` regions.
    pub open spec fn covers(self, count: nat) -> bool {
        &&& self.temperature_baseline_tenths.len() >= count
        &&& self.last_albedo_milli.len() >= count
        &&& self.last_insolation_tenths.len() >= count
        &&& self.snowpack_mm.len() >= count
        &&& self.permafrost_active_cm.len() >= count
        &&& self.temperature_maxima.len() >= count
        &&& self.precipitation_peaks.len() >= count
    }

    /// Every carried value lies within its declared range.
    pub open spec fn in_bounds(self) -> bool {
        &&& forall|i: int|
            0 <= i < self.temperature_baseline_tenths.len() ==> -BASELINE_LIMIT_TENTHS <= (
            #[trigger] self.temperature_baseline_tenths[i]) <= BASELINE_LIMIT_TENTHS
        &&& forall|i: int|
            0 <= i < self.snowpack_mm.len() ==> 0 <= (#[trigger] self.snowpack_mm[i])
                <= SNOWPACK_MAX_MM
        &&& forall|i: int|
            0 <= i < self.permafrost_active_cm.len() ==> 0 <= (
            #[trigger] self.permafrost_active_cm[i]) <= ACTIVE_LAYER_MAX_CM
    }

    /// The climate state of a world at tick zero: zero baselines, the
    /// regions' albedo as the last albedo snapshot, no insolation, snow or
    /// thaw, fresh extreme windows, and a sea level of zero.
    pub open spec fn fresh(regions: Seq<Region>) -> ClimateView {
        ClimateView {
            temperature_baseline_tenths: Seq::new(regions.len(), |i: int| 0i16),
            last_albedo_milli: Seq::new(regions.len(), |i: int| regions[i].albedo_milli as i32),
            last_insolation_tenths: Seq::new(regions.len(), |i: int| 0i32),
            snowpack_mm: Seq::new(regions.len(), |i: int| 0i32),
            permafrost_active_cm: Seq::new(regions.len(), |i: int| 0i32),
            temperature_maxima: Seq::new(regions.len(), |i: int| zero_window(0i16)),
            precipitation_peaks: Seq::new(regions.len(), |i: int| zero_window(0u16)),
            sea_level_equivalent_mm: 0,
        }
    }

    /// The state grown, with zero defaults, to cover `count` regions.
    pub open spec fn grown(self, count: nat) -> ClimateView {
        ClimateView {
            temperature_baseline_tenths: padded(self.temperature_baseline_tenths, count, 0i16),
            last_albedo_milli: padded(self.last_albedo_milli, count, 0i32),
            last_insolation_tenths: padded(self.last_insolation_tenths, count, 0i32),
            snowpack_mm: padded(self.snowpack_mm, count, 0i32),
            permafrost_active_cm: padded(self.permafrost_active_cm, count, 0i32),
            temperature_maxima: padded(self.temperature_maxima, count, zero_window(0i16)),
            precipitation_peaks: padded(self.precipitation_peaks, count, zero_window(0u16)),
            sea_level_equivalent_mm: self.sea_level_equivalent_mm,
        }
    }
}

/// Growing a climate state makes it cover the regions, keeps what it held,
/// and keeps it within bounds.
pub proof fn lemma_grown(c: ClimateView, count: nat)
    ensures
        c.grown(count).covers(count),
        c.covers(count) ==> c.grown(count) == c,
        c.in_bounds() ==> c.grown(count).in_bounds(),
        c.grown(count).grown(count) == c.grown(count),
{
}

/// Append `fill` until the list has at least `n` entries.
pub fn pad<T: Copy>(v: &mut Vec<T>, n: usize, fill: T)
    ensures
        final(v)@ == padded(old(v)@, n as nat, fill),
{
    while v.len() < n
        invariant
            old(v)@.len() <= v@.len(),
            v@.len() <= n || v@ == old(v)@,
            v@ =~= old(v)@ + Seq::new((v@.len() - old(v)@.len()) as nat, |i: int| fill),
        decreases n - v.len(),
    {
        v.push(fill);
    }
    proof {
        assert(old(v)@ + Seq::new(0nat, |i: int| fill) =~= old(v)@);
    }
}

/// A fresh extreme window: `EXTREME_WINDOW` samples of `zero`.
pub fn new_window<T: Copy>(zero: T) -> (out: VecDeque<T>)
    ensures
        out@ == zero_window(zero),
{
    let mut out: VecDeque<T> = VecDeque::new();
    let mut i: usize = 0;
    while i < EXTREME_WINDOW
        invariant
            i <= EXTREME_WINDOW,
            out@ =~= Seq::new(i as nat, |k: int| zero),
        decreases EXTREME_WINDOW - i,
    {
        out.push_back(zero);
        i += 1;
    }
    out
}

/// Append fresh windows until the list has at least `n` of them.
pub fn pad_windows<T: Copy>(v: &mut Vec<VecDeque<T>>, n: usize, zero: T)
    ensures
        windows_view(final(v)@) == padded(windows_view(old(v)@), n as nat, zero_window(zero)),
{
    let ghost before = windows_view(v@);
    while v.len() < n
        invariant
            before == windows_view(old(v)@),
            before.len() <= v@.len(),
            v@.len() <= n || windows_view(v@) == before,
            windows_view(v@) =~= before + Seq::new(
                (v@.len() - before.len()) as nat,
                |i: int| zero_window(zero),
            ),
        decreases n - v.len(),
    {
        let window = new_window(zero);
        proof {
            assert(windows_view(v@.push(window)) =~= windows_view(v@).push(window@));
        }
        v.push(window);
    }
    proof {
        assert(before + Seq::new(0nat, |i: int| zero_window(zero)) =~= before);
    }
}

impl ClimateState {
    /// Initial climate state for a list of regions: zero baselines, the
    /// regions' albedo as the last albedo snapshot, no insolation, snow or
    /// thaw, fresh extreme windows, and a sea level of zero.
    pub fn from_regions(regions: &[Region]) -> (out: Self)
        ensures
            out@ == ClimateView::fresh(regions@),
            out@.covers(regions@.len()),
            out@.in_bounds(),
    {
        let count = regions.len();
        let mut last_albedo_milli: Vec<i32> = Vec::new();
        let mut i: usize = 0;
        while i < count
            invariant
                i <= count,
                count == regions@.len(),
                last_albedo_milli@ =~= Seq::new(i as nat, |k: int| regions@[k].albedo_milli as i32),
            decreases count - i,
        {
            last_albedo_milli.push(regions[i].albedo_milli as i32);
            i += 1;
        }
        let mut out = ClimateState {
            temperature_baseline_tenths: Vec::new(),
            last_albedo_milli,
            last_insolation_tenths: Vec::new(),
            snowpack_mm: Vec::new(),
            permafrost_active_cm: Vec::new(),
            temperature_maxima: Vec::new(),
            precipitation_peaks: Vec::new(),
            sea_level_equivalent_mm: 0,
        };
        proof {
            assert(windows_view(out.temperature_maxima@) =~= Seq::empty());
            assert(windows_view(out.precipitation_peaks@) =~= Seq::empty());
        }
        pad(&mut out.temperature_baseline_tenths, count, 0);
        pad(&mut out.last_insolation_tenths, count, 0);
        pad(&mut out.snowpack_mm, count, 0);
        pad(&mut out.permafrost_active_cm, count, 0);
        pad_windows(&mut out.temperature_maxima, count, 0i16);
        pad_windows(&mut out.precipitation_peaks, count, 0u16);
        proof {
            let n = regions@.len();
            assert(out@.temperature_baseline_tenths =~= Seq::new(n, |i: int| 0i16));
            assert(out@.last_insolation_tenths =~= Seq::new(n, |i: int| 0i32));
            assert(out@.snowpack_mm =~= Seq::new(n, |i: int| 0i32));
            assert(out@.permafrost_active_cm =~= Seq::new(n, |i: int| 0i32));
            assert(out@.temperature_maxima =~= Seq::new(n, |i: int| zero_window(0i16)));
            assert(out@.precipitation_peaks =~= Seq::new(n, |i: int| zero_window(0u16)));
            assert(out@.last_albedo_milli =~= Seq::new(
                n,
                |i: int| regions@[i].albedo_milli as i32,
            ));
        }
        out
    }

    /// Grow every per-region list, with zero defaults, so that it covers
    /// `region_count` regions. Lists that are long enough are left alone.
    pub fn ensure_region_capacity(&mut self, region_count: usize)
        ensures
            final(self)@ == old(self)@.grown(region_count as nat),
            final(self)@.covers(region_count as nat),
    {
        pad(&mut self.temperature_baseline_tenths, region_count, 0);
        pad(&mut self.last_albedo_milli, region_count, 0);
        pad(&mut self.last_insolation_tenths, region_count, 0);
        pad(&mut self.snowpack_mm, region_count, 0);
        pad(&mut self.permafrost_active_cm, region_count, 0);
        pad_windows(&mut self.temperature_maxima, region_count, 0i16);
        pad_windows(&mut self.precipitation_peaks, region_count, 0u16);
    }

    /// The accumulated sea-level equivalent, in millimetres.
    pub fn sea_level_equivalent_mm(&self) -> (out: i32)
        ensures
            out == self.sea_level_equivalent_mm,
    {
        self.sea_level_equivalent_mm
    }

    /// Add `delta_mm` to the sea-level accumulator. The sum saturates at the
    /// bounds of `i32`; it never wraps.
    pub fn add_sea_level_equivalent_mm(&mut self, delta_mm: i32)
        ensures
            final(self)@ == (ClimateView {
                sea_level_equivalent_mm: clamp_int(
                    old(self).sea_level_equivalent_mm as int + delta_mm as int,
                    i32::MIN as int,
                    i32::MAX as int,
                ) as i32,
                ..old(self)@
            }),
    {
        if delta_mm == 0 {
            return ;
        }
        let wide: i64 = self.sea_level_equivalent_mm as i64 + delta_mm as i64;
        self.sea_level_equivalent_mm = if wide < i32::MIN as i64 {
            i32::MIN
        } else if wide > i32::MAX as i64 {
            i32::MAX
        } else {
            wide as i32
        };
    }

    /// A fresh window of temperature maxima.
    pub fn new_temperature_window() -> (out: VecDeque<i16>)
        ensures
            out@ == zero_window(0i16),
    {
        new_window(0i16)
    }

    /// A fresh window of precipitation peaks.
    pub fn new_precipitation_window() -> (out: VecDeque<u16>)
        ensures
            out@ == zero_window(0u16),
    {
        new_window(0u16)
    }
}

/// Global world state.
#[derive(Clone, Debug)]
pub struct World {
    pub tick: u64,
    pub seed: u64,
    pub width: u32,
    pub height: u32,
    pub regions: Vec<Region>,
    pub climate: ClimateState,
}

/// What a world holds, as sequences.
pub struct WorldView {
    pub tick: u64,
    pub seed: u64,
    pub width: u32,
    pub height: u32,
    pub regions: Seq<Region>,
    pub climate: ClimateView,
}

impl View for World {
    type V = WorldView;

    open spec fn view(&self) -> WorldView {
        WorldView {
            tick: self.tick,
            seed: self.seed,
            width: self.width,
            height: self.height,
            regions: self.regions@,
            climate: self.climate@,
        }
    }
}

impl WorldView {
    /// Every region's id is its position in the list.
    pub open spec fn ids_match(self) -> bool {
        forall|i: int| 0 <= i < self.regions.len() ==> (#[trigger] self.regions[i]).id == i
    }

    /// `e` reports the first region whose id is not its position.
    pub open spec fn first_mismatch(self, e: SimError) -> bool {
        exists|k: int|
            {
                &&& 0 <= k < self.regions.len()
                &&& (#[trigger] self.regions[k]).id != k
                &&& e == (SimError::RegionIndexMismatch {
                    id: self.regions[k].id,
                    index: k as usize,
                })
                &&& forall|i: int| 0 <= i < k ==> (#[trigger] self.regions[i]).id == i
            }
    }

    /// Water and soil of every region do not exceed their maxima.
    pub open spec fn resources_in_range(self) -> bool {
        forall|i: int|
            0 <= i < self.regions.len() ==> (#[trigger] self.regions[i]).resources_in_range()
    }

    /// `e` reports the first region whose water or soil exceeds its maximum.
    pub open spec fn first_out_of_range(self, e: SimError) -> bool {
        exists|k: int|
            {
                &&& 0 <= k < self.regions.len()
                &&& !(#[trigger] self.regions[k]).resources_in_range()
                &&& e == self.regions[k].resource_error()
                &&& forall|i: int|
                    0 <= i < k ==> (#[trigger] self.regions[i]).resources_in_range()
            }
    }

    /// The world may enter a tick: every region's id is its position, and
    /// water and soil of every region do not exceed their maxima.
    pub open spec fn enterable(self) -> bool {
        self.ids_match() && self.resources_in_range()
    }

    /// `e` is the error that keeps the world from entering a tick: a
    /// misplaced region is reported before a resource out of range.
    pub open spec fn entry_refused_with(self, e: SimError) -> bool {
        if self.ids_match() {
            self.first_out_of_range(e)
        } else {
            self.first_mismatch(e)
        }
    }

    /// Every bounded meter of every region, and every carried climate value,
    /// lies within its declared range.
    pub open spec fn meters_in_bounds(self) -> bool {
        &&& forall|i: int|
            0 <= i < self.regions.len() ==> (#[trigger] self.regions[i]).meters_in_bounds()
        &&& self.climate.in_bounds()
    }

    /// The world is a full grid: one region per cell, each with its position
    /// as id, the climate state covering all of them, and all meters within
    /// bounds.
    pub open spec fn wf(self) -> bool {
        &&& self.regions.len() == self.width * self.height
        &&& self.ids_match()
        &&& self.climate.covers(self.regions.len())
        &&& self.meters_in_bounds()
    }
}

impl World {
    /// A world at tick zero with a fresh climate state for its regions.
    pub fn new(seed: u64, width: u32, height: u32, regions: Vec<Region>) -> (out: Self)
        ensures
            out@ == (WorldView {
                tick: 0,
                seed,
                width,
                height,
                regions: regions@,
                climate: ClimateView::fresh(regions@),
            }),
            out@.climate.covers(regions@.len()),
            out@.climate.in_bounds(),
    {
        let climate = ClimateState::from_regions(regions.as_slice());
        World { tick: 0, seed, width, height, regions, climate }
    }

    /// Check that every region's id is its position in the list.
    ///
    /// The first region whose id differs is reported as
    /// `RegionIndexMismatch`.
    pub fn check_ids(&self) -> (out: Result<(), SimError>)
        ensures
            match out {
                Ok(_) => self@.ids_match(),
                Err(e) => self@.first_mismatch(e) && !self@.ids_match(),
            },
    {
        let mut index: usize = 0;
        while index < self.regions.len()
            invariant
                index <= self.regions@.len(),
                forall|i: int| 0 <= i < index ==> (#[trigger] self.regions@[i]).id == i,
            decreases self.regions@.len() - index,
        {
            if self.regions[index].index() != index {
                proof {
                    assert(self@.regions[index as int].id != index);
                }
                return Err(
                    SimError::RegionIndexMismatch { id: self.regions[index].id, index },
                );
            }
            index += 1;
        }
        Ok(())
    }

    /// Check that water and soil of every region do not exceed their maxima.
    ///
    /// The first region of which one does is reported as `MeterOutOfRange`.
    pub fn check_resources(&self) -> (out: Result<(), SimError>)
        ensures
            match out {
                Ok(_) => self@.resources_in_range(),
                Err(e) => self@.first_out_of_range(e) && !self@.resources_in_range(),
            },
    {
        let mut index: usize = 0;
        while index < self.regions.len()
            invariant
                index <= self.regions@.len(),
                forall|i: int|
                    0 <= i < index ==> (#[trigger] self.regions@[i]).resources_in_range(),
            decreases self.regions@.len() - index,
        {
            let region = &self.regions[index];
            if region.water > WATER_MAX {
                proof {
                    assert(!self@.regions[index as int].resources_in_range());
                }
                return Err(
                    SimError::MeterOutOfRange {
                        id: region.id,
                        meter: CheckedMeter::Water,
                        value: region.water,
                    },
                );
            }
            if region.soil > SOIL_MAX {
                proof {
                    assert(!self@.regions[index as int].resources_in_range());
                }
                return Err(
                    SimError::MeterOutOfRange {
                        id: region.id,
                        meter: CheckedMeter::Soil,
                        value: region.soil,
                    },
                );
            }
            index += 1;
        }
        Ok(())
    }

    /// Check that the world may enter a tick.
    pub fn check_entry(&self) -> (out: Result<(), SimError>)
        ensures
            match out {
                Ok(_) => self@.enterable(),
                Err(e) => self@.entry_refused_with(e) && !self@.enterable(),
            },
    {
        match self.check_ids() {
            Err(e) => {
                return Err(e);
            },
            Ok(_) => {},
        }
        self.check_resources()
    }

    /// Whether the world is a full grid with all meters within bounds.
    pub fn is_well_formed(&self) -> (out: bool)
        ensures
            out == self@.wf(),
    {
        let count = self.regions.len();
        let width = self.width as u128;
        let height = self.height as u128;
        assert(width * height <= 0xFFFF_FFFF * 0xFFFF_FFFF) by (nonlinear_arith)
            requires
                0 <= width <= 0xFFFF_FFFF,
                0 <= height <= 0xFFFF_FFFF,
        ;
        if count as u128 != width * height {
            return false;
        }
        if self.climate.temperature_baseline_tenths.len() < count
            || self.climate.last_albedo_milli.len() < count
            || self.climate.last_insolation_tenths.len() < count || self.climate.snowpack_mm.len()
            < count || self.climate.permafrost_active_cm.len() < count
            || self.climate.temperature_maxima.len() < count
            || self.climate.precipitation_peaks.len() < count {
            return false;
        }
        let mut index: usize = 0;
        while index < count
            invariant
                index <= count,
                count == self.regions@.len(),
                forall|i: int| 0 <= i < index ==> (#[trigger] self.regions@[i]).id == i,
                forall|i: int|
                    0 <= i < index ==> (#[trigger] self.regions@[i]).meters_in_bounds(),
            decreases count - index,
        {
            if self.regions[index].index() != index
                || !self.regions[index].has_meters_in_bounds() {
                return false;
            }
            index += 1;
        }
        let mut k: usize = 0;
        while k < self.climate.temperature_baseline_tenths.len()
            invariant
                k <= self.climate.temperature_baseline_tenths@.len(),
                forall|i: int|
                    0 <= i < k ==> -BASELINE_LIMIT_TENTHS <= (
                    #[trigger] self.climate.temperature_baseline_tenths@[i])
                        <= BASELINE_LIMIT_TENTHS,
            decreases self.climate.temperature_baseline_tenths@.len() - k,
        {
            let value = self.climate.temperature_baseline_tenths[k];
            if value < -BASELINE_LIMIT_TENTHS || value > BASELINE_LIMIT_TENTHS {
                return false;
            }
            k += 1;
        }
        let mut k: usize = 0;
        while k < self.climate.snowpack_mm.len()
            invariant
                k <= self.climate.snowpack_mm@.len(),
                forall|i: int|
                    0 <= i < k ==> 0 <= (#[trigger] self.climate.snowpack_mm@[i])
                        <= SNOWPACK_MAX_MM,
            decreases self.climate.snowpack_mm@.len() - k,
        {
            let value = self.climate.snowpack_mm[k];
            if value < 0 || value > SNOWPACK_MAX_MM {
                return false;
            }
            k += 1;
        }
        let mut k: usize = 0;
        while k < self.climate.permafrost_active_cm.len()
            invariant
                k <= self.climate.permafrost_active_cm@.len(),
                forall|i: int|
                    0 <= i < k ==> 0 <= (#[trigger] self.climate.permafrost_active_cm@[i])
                        <= ACTIVE_LAYER_MAX_CM,
            decreases self.climate.permafrost_active_cm@.len() - k,
        {
            let value = self.climate.permafrost_active_cm[k];
            if value < 0 || value > ACTIVE_LAYER_MAX_CM {
                return false;
            }
            k += 1;
        }
        proof {
            assert(windows_view(self.climate.temperature_maxima@).len()
                == self.climate.temperature_maxima@.len());
            assert(windows_view(self.climate.precipitation_peaks@).len()
                == self.climate.precipitation_peaks@.len());
        }
        true
    }

    /// The index that a region key names, if the text is a region key: `r:`,
    /// then an optional plus sign, then at least one decimal digit and
    /// nothing else, with a value that fits `usize`.
    pub open spec fn key_index(key: Seq<char>) -> Option<usize> {
        if key.len() >= 2 && key[0] == 'r' && key[1] == ':' {
            match parse_unsigned(key.skip(2)) {
                Some(v) => if v <= usize::MAX {
                    Some(v as usize)
                } else {
                    None
                },
                None => None,
            }
        } else {
            None
        }
    }

    /// Reading the key of an index gives the index back.
    pub proof fn lemma_key_round_trip(index: usize)
        ensures
            World::key_index("r:"@ + decimal(index as nat)) == Some(index),
    {
        reveal_strlit("r:");
        let key = "r:"@ + decimal(index as nat);
        lemma_decimal_reads_back(index as nat);
        assert(key.skip(2) =~= decimal(index as nat));
        assert(key[0] == 'r');
        assert(key[1] == ':');
    }

    /// Read the index that a region key names.
    pub fn region_index_from_key(key: &str) -> (out: Option<usize>)
        ensures
            out == World::key_index(key@),
    {
        let length = key.unicode_len();
        if length < 2 {
            return None;
        }
        if key.get_char(0) != 'r' || key.get_char(1) != ':' {
            return None;
        }
        let start: usize = if length > 2 && key.get_char(2) == '+' {
            3
        } else {
            2
        };
        proof {
            let rest = key@.skip(2);
            if start == 3 {
                assert(rest[0] == '+');
                assert(rest.skip(1) =~= key@.skip(3));
            } else if rest.len() > 0 {
                assert(rest[0] == key@[2]);
            }
        }
        read_digits(key, start)
    }

    /// The key under which a region appears in serialised maps: `r:` and the
    /// region's index in decimal.
    pub fn region_key(index: usize) -> (out: String)
        ensures
            out@ == "r:"@ + decimal(index as nat),
    {
        let mut out = String::from_str("r:");
        push_decimal(&mut out, index as u64);
        out
    }
}

} // verus!
