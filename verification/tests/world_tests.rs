use sim_core::error::SimError;
use sim_core::world::{ClimateState, Hazards, Region, World, EXTREME_WINDOW};

#[test]
fn sea_level_accumulator_saturates_and_tracks_delta() {
    let regions = vec![Region {
        id: 0,
        x: 0,
        y: 0,
        elevation_m: 0,
        latitude_microdeg: 0,
        biome: 0,
        water: 0,
        soil: 0,
        temperature_tenths_c: 0,
        precipitation_mm: 0,
        albedo_milli: 0,
        freshwater_flux_tenths_mm: 0,
        ice_mass_kilotons: 0,
        hazards: Hazards::default(),
    }];

    let mut climate = ClimateState::from_regions(&regions);
    climate.add_sea_level_equivalent_mm(12);
    assert_eq!(climate.sea_level_equivalent_mm(), 12);

    climate.add_sea_level_equivalent_mm(-2);
    assert_eq!(climate.sea_level_equivalent_mm(), 10);

    climate.add_sea_level_equivalent_mm(i32::MAX);
    assert_eq!(climate.sea_level_equivalent_mm(), i32::MAX);
}

#[test]
fn extreme_windows_initialize_and_resize_with_zeros() {
    let mut regions = Vec::new();
    for id in 0..3 {
        regions.push(Region {
            id,
            x: id,
            y: 0,
            elevation_m: 0,
            latitude_microdeg: 0,
            biome: 0,
            water: 0,
            soil: 0,
            temperature_tenths_c: 0,
            precipitation_mm: 0,
            albedo_milli: 0,
            freshwater_flux_tenths_mm: 0,
            ice_mass_kilotons: 0,
            hazards: Hazards::default(),
        });
    }

    let mut climate = ClimateState::from_regions(&regions);

    for window in &climate.temperature_maxima {
        assert_eq!(window.len(), EXTREME_WINDOW);
        assert!(window.iter().all(|value| *value == 0));
    }

    for window in &climate.precipitation_peaks {
        assert_eq!(window.len(), EXTREME_WINDOW);
        assert!(window.iter().all(|value| *value == 0));
    }

    regions.push(Region {
        id: 3,
        x: 3,
        y: 0,
        elevation_m: 0,
        latitude_microdeg: 0,
        biome: 0,
        water: 0,
        soil: 0,
        temperature_tenths_c: 0,
        precipitation_mm: 0,
        albedo_milli: 0,
        freshwater_flux_tenths_mm: 0,
        ice_mass_kilotons: 0,
        hazards: Hazards::default(),
    });

    climate.ensure_region_capacity(regions.len());

    assert_eq!(climate.temperature_maxima.len(), regions.len());
    assert_eq!(climate.precipitation_peaks.len(), regions.len());
    assert!(climate
        .temperature_maxima
        .last()
        .unwrap()
        .iter()
        .all(|v| *v == 0));
    assert!(climate
        .precipitation_peaks
        .last()
        .unwrap()
        .iter()
        .all(|v| *v == 0));
}


fn region(id: u32, x: u32, y: u32) -> Region {
    Region {
        id,
        x,
        y,
        elevation_m: 120,
        latitude_microdeg: 0,
        biome: 2,
        water: 5_000,
        soil: 4_000,
        temperature_tenths_c: 15,
        precipitation_mm: 700,
        albedo_milli: 310 + id as u16,
        freshwater_flux_tenths_mm: 0,
        ice_mass_kilotons: 0,
        hazards: Hazards::default(),
    }
}

#[test]
fn sea_level_accumulator_saturates_at_both_bounds() {
    let mut climate = ClimateState::from_regions(&[]);
    climate.add_sea_level_equivalent_mm(i32::MAX);
    climate.add_sea_level_equivalent_mm(1);
    assert_eq!(climate.sea_level_equivalent_mm(), i32::MAX);
    climate.add_sea_level_equivalent_mm(i32::MIN);
    assert_eq!(climate.sea_level_equivalent_mm(), -1);
    climate.add_sea_level_equivalent_mm(i32::MIN);
    assert_eq!(climate.sea_level_equivalent_mm(), i32::MIN);
    climate.add_sea_level_equivalent_mm(-1);
    assert_eq!(climate.sea_level_equivalent_mm(), i32::MIN);
    climate.add_sea_level_equivalent_mm(0);
    assert_eq!(climate.sea_level_equivalent_mm(), i32::MIN);
    climate.add_sea_level_equivalent_mm(5);
    assert_eq!(climate.sea_level_equivalent_mm(), i32::MIN + 5);
}

#[test]
fn new_world_starts_at_tick_zero_with_fresh_climate() {
    let world = World::new(42, 2, 1, vec![region(0, 0, 0), region(1, 1, 0)]);
    assert_eq!(world.tick, 0);
    assert_eq!(world.seed, 42);
    assert_eq!((world.width, world.height), (2, 1));
    assert_eq!(world.climate.temperature_baseline_tenths, vec![0, 0]);
    assert_eq!(world.climate.last_albedo_milli, vec![310, 311]);
    assert_eq!(world.climate.last_insolation_tenths, vec![0, 0]);
    assert_eq!(world.climate.snowpack_mm, vec![0, 0]);
    assert_eq!(world.climate.permafrost_active_cm, vec![0, 0]);
    assert_eq!(world.climate.sea_level_equivalent_mm(), 0);
    assert!(world.is_well_formed());
    assert_eq!(world.check_ids(), Ok(()));
}

#[test]
fn ensure_region_capacity_only_grows() {
    let mut climate = ClimateState::from_regions(&[region(0, 0, 0), region(1, 1, 0)]);
    climate.temperature_baseline_tenths[1] = -7;
    climate.snowpack_mm[0] = 900;
    climate.ensure_region_capacity(1);
    assert_eq!(climate.temperature_baseline_tenths, vec![0, -7]);
    climate.ensure_region_capacity(4);
    assert_eq!(climate.temperature_baseline_tenths, vec![0, -7, 0, 0]);
    assert_eq!(climate.last_albedo_milli, vec![310, 311, 0, 0]);
    assert_eq!(climate.snowpack_mm, vec![900, 0, 0, 0]);
    assert_eq!(climate.permafrost_active_cm, vec![0; 4]);
    assert_eq!(climate.temperature_maxima.len(), 4);
    assert_eq!(climate.precipitation_peaks.len(), 4);
}

#[test]
fn fresh_windows_hold_six_zero_samples() {
    let temperature = ClimateState::new_temperature_window();
    let precipitation = ClimateState::new_precipitation_window();
    assert_eq!(EXTREME_WINDOW, 6);
    assert_eq!(temperature.iter().copied().collect::<Vec<i16>>(), vec![0; 6]);
    assert_eq!(precipitation.iter().copied().collect::<Vec<u16>>(), vec![0; 6]);
}

#[test]
fn region_keys_are_prefixed_decimal_indices() {
    assert_eq!(World::region_key(0), "r:0");
    assert_eq!(World::region_key(7), "r:7");
    assert_eq!(World::region_key(10), "r:10");
    assert_eq!(World::region_key(4_294_967_295), "r:4294967295");
    assert_eq!(World::region_key(1_000_000), format!("r:{}", 1_000_000));
}

#[test]
fn region_keys_read_back_to_their_index() {
    for index in [0usize, 1, 9, 10, 99, 100, 12_345, u32::MAX as usize, usize::MAX] {
        let key = World::region_key(index);
        assert_eq!(World::region_index_from_key(&key), Some(index));
        assert_eq!(
            World::region_index_from_key(&key),
            key.strip_prefix("r:").and_then(|v| v.parse::<usize>().ok())
        );
    }
}

#[test]
fn region_index_from_key_accepts_what_an_unsigned_number_may_be() {
    let cases = [
        "r:0", "r:007", "r:+5", "r:+", "r:", "r", "", "x:1", "r;1", "r:-1", "r:1a", "r: 1",
        "r:1 ", "R:1", "r:१", "r:1_000", "r:18446744073709551615", "r:18446744073709551616",
        "r:000000000000000000000000000000018446744073709551615", "r:99999999999999999999999",
        "rr:1", "r:++1", "r:+0", "é:1", "r:9é",
    ];
    for key in cases {
        assert_eq!(
            World::region_index_from_key(key),
            key.strip_prefix("r:").and_then(|v| v.parse::<usize>().ok()),
            "key {:?}",
            key
        );
    }
    assert_eq!(World::region_index_from_key("r:+5"), Some(5));
    assert_eq!(World::region_index_from_key("r:007"), Some(7));
    assert_eq!(World::region_index_from_key("r:"), None);
    assert_eq!(World::region_index_from_key("r:-1"), None);
}

#[test]
fn check_ids_reports_the_first_mismatch() {
    let mut world = World::new(
        1,
        3,
        1,
        vec![region(0, 0, 0), region(1, 1, 0), region(2, 2, 0)],
    );
    assert_eq!(world.check_ids(), Ok(()));
    world.regions[1].id = 5;
    world.regions[2].id = 9;
    assert_eq!(
        world.check_ids(),
        Err(SimError::RegionIndexMismatch { id: 5, index: 1 })
    );
    assert!(!world.is_well_formed());
    assert_eq!(world.regions[1].index(), 5);
}

#[test]
fn well_formedness_notices_each_broken_invariant() {
    let fresh = || World::new(1, 2, 1, vec![region(0, 0, 0), region(1, 1, 0)]);
    assert!(fresh().is_well_formed());

    let mut world = fresh();
    world.width = 3;
    assert!(!world.is_well_formed());

    let mut world = fresh();
    world.regions[0].water = 10_001;
    assert!(!world.is_well_formed());
    assert!(!world.regions[0].has_meters_in_bounds());

    let mut world = fresh();
    world.regions[1].elevation_m = 4_001;
    assert!(!world.is_well_formed());

    let mut world = fresh();
    world.regions[1].temperature_tenths_c = -501;
    assert!(!world.is_well_formed());

    let mut world = fresh();
    world.regions[1].hazards.flood = 10_001;
    assert!(!world.is_well_formed());

    let mut world = fresh();
    world.climate.snowpack_mm.pop();
    assert!(!world.is_well_formed());

    let mut world = fresh();
    world.climate.temperature_baseline_tenths[0] = 121;
    assert!(!world.is_well_formed());

    let mut world = fresh();
    world.climate.snowpack_mm[1] = 4_501;
    assert!(!world.is_well_formed());

    let mut world = fresh();
    world.climate.permafrost_active_cm[1] = -1;
    assert!(!world.is_well_formed());

    let mut world = fresh();
    world.regions[0].ice_mass_kilotons = u32::MAX;
    world.regions[0].biome = 200;
    assert!(world.is_well_formed());
}


#[test]
fn rows_run_from_the_north_pole_to_the_south_pole() {
    let latitude = sim_core::io::seed::latitude_from_grid;
    assert_eq!(latitude(0, 1), 0);
    assert_eq!(latitude(0, 2), 45_000_000);
    assert_eq!(latitude(1, 2), -45_000_000);
    assert_eq!(latitude(0, 3), 60_000_000);
    assert_eq!(latitude(1, 3), 0);
    assert_eq!(latitude(2, 3), -60_000_000);
    assert_eq!(latitude(0, 4), 67_500_000);
    assert_eq!(latitude(3, 4), -67_500_000);
    // 90 - 180 / 14 = 77.142857142857...; 90 - 3 * 180 / 14 = 51.428571428571...
    assert_eq!(latitude(0, 7), 77_142_857);
    assert_eq!(latitude(1, 7), 51_428_571);
    assert_eq!(latitude(6, 7), -77_142_857);
    assert_eq!(latitude(0, u32::MAX), 90_000_000);
    assert_eq!(latitude(u32::MAX - 1, u32::MAX), -90_000_000);
    for height in [1u32, 2, 3, 5, 8, 180, 1_000] {
        for y in 0..height {
            let exact = 90.0 - ((f64::from(y) + 0.5) / f64::from(height)) * 180.0;
            let micro = latitude(y, height);
            assert!((f64::from(micro) / 1_000_000.0 - exact).abs() <= 0.000_000_5 + 1e-12);
            assert_eq!(micro, -latitude(height - 1 - y, height));
        }
    }
}

#[test]
fn a_seeded_world_is_a_full_grid_within_bounds() {
    let cells: Vec<sim_core::io::seed::CellSeed> = (0..6u16)
        .map(|i| sim_core::io::seed::CellSeed {
            elevation_m: -2_000 + 1_500 * i32::from(i),
            water: 4_000 * i,
            soil: 9_999 + i,
            albedo_milli: 990 + 5 * i,
        })
        .collect();
    let world = sim_core::io::seed::build_world(99, 3, 2, &cells);
    assert!(world.is_well_formed());
    assert_eq!(world.check_entry(), Ok(()));
    assert_eq!((world.tick, world.seed, world.width, world.height), (0, 99, 3, 2));
    assert_eq!(world.regions.len(), 6);
    let expected = [
        (0u32, 0u32, 0u32, -1_000, 45_000_000, 0u16, 9_999u16, 990u16),
        (1, 1, 0, -500, 45_000_000, 4_000, 10_000, 995),
        (2, 2, 0, 1_000, 45_000_000, 8_000, 10_000, 1_000),
        (3, 0, 1, 2_500, -45_000_000, 10_000, 10_000, 1_000),
        (4, 1, 1, 4_000, -45_000_000, 10_000, 10_000, 1_000),
        (5, 2, 1, 4_000, -45_000_000, 10_000, 10_000, 1_000),
    ];
    for (region, (id, x, y, elevation, latitude, water, soil, albedo)) in
        world.regions.iter().zip(expected)
    {
        assert_eq!(
            *region,
            Region {
                id,
                x,
                y,
                elevation_m: elevation,
                latitude_microdeg: latitude,
                biome: 0,
                water,
                soil,
                temperature_tenths_c: 0,
                precipitation_mm: 0,
                albedo_milli: albedo,
                freshwater_flux_tenths_mm: 0,
                ice_mass_kilotons: 0,
                hazards: Hazards::default(),
            }
        );
    }
    assert_eq!(
        world.climate.last_albedo_milli,
        vec![990, 995, 1_000, 1_000, 1_000, 1_000]
    );
    let empty = sim_core::io::seed::build_world(1, 0, 7, &Vec::new());
    assert!(empty.is_well_formed());
    assert!(empty.regions.is_empty());
}
