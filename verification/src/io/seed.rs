//! The initial world.
//!
//! A world is seeded cell by cell, row after row from the northernmost row
//! down. A cell's latitude follows from its row; its terrain and resources
//! reach the engine as samples, which are held to the meters' ranges.

use vstd::prelude::*;

use crate::fixed::{
    clamp_i32, clamp_int, lemma_round_half_away_sign, round_div, round_half_away, ALBEDO_MAX,
    SOIL_MAX, WATER_MAX,
};
use crate::world::{
    ClimateView, Hazards, Region, World, WorldView, ELEVATION_MAX_M, ELEVATION_MIN_M,
    LATITUDE_LIMIT_MICRODEG,
};

verus! {

/// The latitude of the middle of row `y` of `height` rows, in millionths of
/// a degree: `90 - ((y + 0.5) / height) * 180` degrees, rounded to the
/// nearest millionth.
pub open spec fn latitude_spec(y: int, height: int) -> int {
    LATITUDE_LIMIT_MICRODEG as int - round_half_away(
        (2 * y + 1) * LATITUDE_LIMIT_MICRODEG as int,
        height,
    )
}

/// The latitude of a row lies between the poles.
pub proof fn lemma_latitude_between_poles(y: int, height: int)
    requires
        0 <= y < height,
    ensures
        -LATITUDE_LIMIT_MICRODEG <= latitude_spec(y, height) <= LATITUDE_LIMIT_MICRODEG,
{
    let limit = LATITUDE_LIMIT_MICRODEG as int;
    let n = (2 * y + 1) * limit;
    lemma_round_half_away_sign(n, height);
    assert(n >= 0) by (nonlinear_arith)
        requires
            n == (2 * y + 1) * limit,
            y >= 0,
            limit == 90_000_000,
    ;
    assert(2 * n + height <= (4 * limit + 1) * height) by (nonlinear_arith)
        requires
            n == (2 * y + 1) * limit,
            0 <= y < height,
            limit == 90_000_000,
    ;
    assert((2 * n + height) / (2 * height) <= 2 * limit) by (nonlinear_arith)
        requires
            2 * n + height <= (4 * limit + 1) * height,
            height > 0,
            limit == 90_000_000,
    ;
}

/// The latitude of the middle of row `y` of `height` rows, in millionths of
/// a degree.
pub fn latitude_from_grid(y: u32, height: u32) -> (out: i32)
    requires
        y < height,
    ensures
        out == latitude_spec(y as int, height as int),
        -LATITUDE_LIMIT_MICRODEG <= out <= LATITUDE_LIMIT_MICRODEG,
{
    proof {
        lemma_latitude_between_poles(y as int, height as int);
    }
    let numerator: i128 = (2 * (y as i128) + 1) * (LATITUDE_LIMIT_MICRODEG as i128);
    let offset = round_div(numerator, height as i128);
    (LATITUDE_LIMIT_MICRODEG as i128 - offset) as i32
}

/// What the seed formulas give for one cell of the grid.
#[derive(Clone, Copy, Debug, PartialEq, Eq, Structural)]
pub struct CellSeed {
    pub elevation_m: i32,
    pub water: u16,
    pub soil: u16,
    pub albedo_milli: u16,
}

/// The region of the cell at `index` of a grid of the given width and
/// height: its id is the index, its position follows from the index, its
/// latitude from its row, its meters from the sample, held to their ranges,
/// and everything else is zero.
pub open spec fn seeded_region(index: int, width: int, height: int, cell: CellSeed) -> Region {
    Region {
        id: index as u32,
        x: (index % width) as u32,
        y: (index / width) as u32,
        elevation_m: clamp_int(
            cell.elevation_m as int,
            ELEVATION_MIN_M as int,
            ELEVATION_MAX_M as int,
        ) as i32,
        latitude_microdeg: latitude_spec(index / width, height) as i32,
        biome: 0,
        water: clamp_int(cell.water as int, 0, WATER_MAX as int) as u16,
        soil: clamp_int(cell.soil as int, 0, SOIL_MAX as int) as u16,
        temperature_tenths_c: 0,
        precipitation_mm: 0,
        albedo_milli: clamp_int(cell.albedo_milli as int, 0, ALBEDO_MAX as int) as u16,
        freshwater_flux_tenths_mm: 0,
        ice_mass_kilotons: 0,
        hazards: Hazards { drought: 0, flood: 0 },
    }
}

/// The regions of a seeded grid.
pub open spec fn seeded_regions(width: int, height: int, cells: Seq<CellSeed>) -> Seq<Region> {
    Seq::new(cells.len(), |i: int| seeded_region(i, width, height, cells[i]))
}

/// An index into a grid lies in one of its rows.
pub proof fn lemma_row_in_grid(index: int, width: int, height: int)
    requires
        0 <= index < width * height,
        width >= 0,
        height >= 0,
    ensures
        width > 0,
        0 <= index / width < height,
        0 <= index % width < width,
{
    assert(width > 0) by (nonlinear_arith)
        requires
            0 <= index < width * height,
            width >= 0,
    ;
    assert(index / width < height) by (nonlinear_arith)
        requires
            0 <= index < width * height,
            width > 0,
    ;
    assert(0 <= index / width) by (nonlinear_arith)
        requires
            0 <= index,
            width > 0,
    ;
}

/// Realise a world at tick zero from one sample per cell, row after row.
///
/// The world is a full grid: every region's id is its position, its climate
/// state covers the regions, and all meters are within bounds.
pub fn build_world(world_seed: u64, width: u32, height: u32, cells: &Vec<CellSeed>) -> (out: World)
    requires
        cells@.len() == width * height,
        cells@.len() <= u32::MAX,
    ensures
        out@ == (WorldView {
            tick: 0,
            seed: world_seed,
            width,
            height,
            regions: seeded_regions(width as int, height as int, cells@),
            climate: ClimateView::fresh(seeded_regions(width as int, height as int, cells@)),
        }),
        out@.wf(),
        out@.enterable(),
{
    let mut regions: Vec<Region> = Vec::new();
    let mut index: usize = 0;
    while index < cells.len()
        invariant
            index <= cells@.len(),
            cells@.len() == width * height,
            cells@.len() <= u32::MAX,
            regions@ =~= Seq::new(
                index as nat,
                |i: int| seeded_region(i, width as int, height as int, cells@[i]),
            ),
            forall|i: int| 0 <= i < index ==> (#[trigger] regions@[i]).meters_in_bounds(),
            forall|i: int| 0 <= i < index ==> (#[trigger] regions@[i]).id == i,
        decreases cells@.len() - index,
    {
        proof {
            lemma_row_in_grid(index as int, width as int, height as int);
            lemma_latitude_between_poles(index as int / width as int, height as int);
        }
        let cell = cells[index];
        let x = (index % width as usize) as u32;
        let y = (index / width as usize) as u32;
        let region = Region {
            id: index as u32,
            x,
            y,
            elevation_m: clamp_i32(cell.elevation_m, ELEVATION_MIN_M, ELEVATION_MAX_M),
            latitude_microdeg: latitude_from_grid(y, height),
            biome: 0,
            water: if cell.water > WATER_MAX {
                WATER_MAX
            } else {
                cell.water
            },
            soil: if cell.soil > SOIL_MAX {
                SOIL_MAX
            } else {
                cell.soil
            },
            temperature_tenths_c: 0,
            precipitation_mm: 0,
            albedo_milli: if cell.albedo_milli > ALBEDO_MAX {
                ALBEDO_MAX
            } else {
                cell.albedo_milli
            },
            freshwater_flux_tenths_mm: 0,
            ice_mass_kilotons: 0,
            hazards: Hazards { drought: 0, flood: 0 },
        };
        assert(region == seeded_region(index as int, width as int, height as int, cells@[index as int]));
        regions.push(region);
        index += 1;
    }
    let out = World::new(world_seed, width, height, regions);
    proof {
        assert(out@.regions =~= seeded_regions(width as int, height as int, cells@));
    }
    out
}

} // verus!
