use sim_core::cause::{Code, Entry};
use sim_core::diff::{DiagEnergy, Diff, HazardEvent, NamedValue, ResourceDelta, ScalarValue};
use sim_core::error::{CheckedMeter, SimError};
use sim_core::kernels::astronomy::{self, AstronomySample};
use sim_core::kernels::atmosphere::{self, AtmosphereSample};
use sim_core::kernels::climate::{self, ClimateSample, Dryness, LatitudeBelt};
use sim_core::kernels::climate_diag::{self, Totals};
use sim_core::kernels::coupler;
use sim_core::kernels::cryosphere::{self, CryosphereSample, CryosphereSamples, Tally};
use sim_core::kernels::ecology::{self, EcologySample};
use sim_core::kernels::geodynamics::{self, EventDraw, GeoEvent};
use sim_core::rng::Stream;
use sim_core::schedule::KernelRun;
use sim_core::world::{Hazards, Region, World};

fn region(id: u32, x: u32, y: u32) -> Region {
    Region {
        id,
        x,
        y,
        elevation_m: 100,
        latitude_microdeg: 0,
        biome: 0,
        water: 5_000,
        soil: 5_000,
        temperature_tenths_c: 0,
        precipitation_mm: 0,
        albedo_milli: 350,
        freshwater_flux_tenths_mm: 0,
        ice_mass_kilotons: 0,
        hazards: Hazards::default(),
    }
}

fn row(count: u32) -> World {
    World::new(777, count, 1, (0..count).map(|x| region(x, x, 0)).collect())
}

fn cause(target: &str, code: Code, note: &str) -> Entry {
    Entry::new(target, code, Some(note.to_string()))
}

fn scalar(region: u32, value: i32) -> ScalarValue {
    ScalarValue { region, value }
}

// ---- ecology ----

#[test]
fn blend_hazard_halves_the_gap_rounding_the_step_away_from_zero() {
    assert_eq!(ecology::blend_hazard(0, 6_000), 3_000);
    assert_eq!(ecology::blend_hazard(1, 0), 0);
    assert_eq!(ecology::blend_hazard(3, 0), 1);
    assert_eq!(ecology::blend_hazard(0, 3), 2);
    assert_eq!(ecology::blend_hazard(5, 5), 5);
    assert_eq!(ecology::blend_hazard(0, 1), 1);
    assert_eq!(ecology::blend_hazard(10_000, 0), 5_000);
    assert_eq!(ecology::blend_hazard(0, 65_535), 10_000);
    assert_eq!(ecology::blend_hazard(65_535, 65_535), 10_000);
    assert_eq!(ecology::blend_hazard(65_535, 0), 10_000);
    assert_eq!(ecology::blend_hazard(30_000, 0), 10_000);
    assert_eq!(ecology::blend_hazard(187, 0), 93);
}

#[test]
fn every_gauge_decays_to_zero_within_sixteen_blends() {
    for start in (0..=u16::MAX).step_by(97).chain([1, 2, 3, 9_999, 10_000, 10_001, u16::MAX]) {
        let mut level = start;
        let mut steps = 0;
        while level != 0 {
            let next = ecology::blend_hazard(level, 0);
            assert!(next < level);
            assert_eq!(next, (level / 2).min(10_000));
            level = next;
            steps += 1;
        }
        assert!(steps <= 16);
        assert_eq!(ecology::blend_hazard(0, 0), 0);
    }
}

#[test]
fn biome_profiles_are_as_tabled() {
    assert_eq!(ecology::profile_for_biome(5), (85, 75));
    assert_eq!(ecology::profile_for_biome(4), (20, 25));
    assert_eq!(ecology::profile_for_biome(3), (35, 40));
    assert_eq!(ecology::profile_for_biome(2), (55, 55));
    assert_eq!(ecology::profile_for_biome(1), (40, 45));
    assert_eq!(ecology::profile_for_biome(0), (25, 30));
    assert_eq!(ecology::profile_for_biome(6), (25, 30));
    assert_eq!(ecology::profile_for_biome(255), (25, 30));
}

#[test]
fn noise_bits_are_the_first_draw_of_the_regions_child_stream() {
    let rng = Stream::from(23, ecology::STAGE, 1);
    for index in [0usize, 1, 7, 2_000] {
        let mut child = rng.derive(index as u64);
        assert_eq!(ecology::noise_bits(&rng, index), child.next_bits53());
    }
    let signed = ecology::noise_bits(&rng, 0) as f64 / (1u64 << 53) as f64 * 2.0 - 1.0;
    assert_eq!((signed * 25.0) as i32, 0);
}

#[test]
fn ecology_limits_deltas_and_records_what_changed() {
    let mut world = row(3);
    world.regions[0].water = 2_000;
    world.regions[0].soil = 2_000;
    world.regions[1].water = 9_000;
    world.regions[1].hazards = Hazards { drought: 0, flood: 6_000 };
    world.regions[2].water = 100;
    world.regions[2].soil = 2_600;
    let samples = vec![
        EcologySample { water_drift: 130, soil_drift: 83, noise: -7 },
        EcologySample { water_drift: 500, soil_drift: -500, noise: 25 },
        EcologySample { water_drift: -170, soil_drift: -100, noise: -24 },
    ];
    let diff = ecology::update(&world, &samples).expect("ecology update");
    assert_eq!(
        diff.water,
        vec![
            ResourceDelta { region: 0, delta: 123 },
            ResourceDelta { region: 1, delta: 180 },
            ResourceDelta { region: 2, delta: -180 },
        ]
    );
    // Half the noise is rounded down: -7 gives -4, 25 gives 12, -24 gives -12.
    assert_eq!(
        diff.soil,
        vec![
            ResourceDelta { region: 0, delta: 79 },
            ResourceDelta { region: 1, delta: -120 },
            ResourceDelta { region: 2, delta: -112 },
        ]
    );
    // Region 0: water 2123, drought target 7877, gauge 0 -> 3939.
    // Region 1: water 9180, drought target 820 -> 410, flood target 680:
    //   gauge 6000 -> 6000 - 2660 = 3340.
    // Region 2: water 0, drought target 10000 -> 5000.
    assert_eq!(
        diff.hazards,
        vec![
            HazardEvent { region: 0, drought: 3_939, flood: 0 },
            HazardEvent { region: 1, drought: 410, flood: 3_340 },
            HazardEvent { region: 2, drought: 5_000, flood: 0 },
        ]
    );
    assert_eq!(
        diff.causes,
        vec![
            cause("region:0/soil", Code::SoilFertilityLow, "value=2079"),
            cause("region:0/water", Code::DroughtFlag, "level=3939"),
            cause("region:1/water", Code::FloodFlag, "level=3340"),
            cause("region:2/soil", Code::SoilFertilityLow, "value=2488"),
            cause("region:2/water", Code::DroughtFlag, "level=5000"),
        ]
    );
    assert!(diff.is_well_formed());
}

#[test]
fn ecology_records_nothing_for_a_region_at_rest() {
    let mut world = row(1);
    world.regions[0].water = 10_000;
    world.regions[0].soil = 2_500;
    world.regions[0].hazards = Hazards { drought: 0, flood: 1_500 };
    let samples = vec![EcologySample { water_drift: 0, soil_drift: 0, noise: 0 }];
    let diff = ecology::update(&world, &samples).expect("ecology update");
    // Flood target is 1500, the gauge is there already; soil is not below 2500.
    assert!(diff.water.is_empty());
    assert!(diff.soil.is_empty());
    assert!(diff.hazards.is_empty());
    assert_eq!(diff.causes, vec![cause("region:0/water", Code::FloodFlag, "level=1500")]);

    world.regions[0].hazards = Hazards { drought: 0, flood: 600 };
    world.regions[0].water = 9_100;
    let diff = ecology::update(&world, &samples).expect("ecology update");
    assert_eq!(diff.hazards, vec![HazardEvent { region: 0, drought: 450, flood: 600 }]);
    assert!(diff.causes.is_empty());
}

#[test]
fn ecology_survives_extreme_samples() {
    let world = row(1);
    for sample in [
        EcologySample { water_drift: i32::MAX, soil_drift: i32::MAX, noise: i32::MAX },
        EcologySample { water_drift: i32::MIN, soil_drift: i32::MIN, noise: i32::MIN },
        EcologySample { water_drift: i32::MAX, soil_drift: i32::MIN, noise: i32::MIN },
    ] {
        let diff = ecology::update(&world, &vec![sample]).expect("ecology update");
        assert!(diff.water[0].delta.abs() <= 180);
        assert!(diff.soil[0].delta.abs() <= 120);
    }
}

#[test]
fn ecology_refuses_regions_that_may_not_enter() {
    let samples = vec![EcologySample { water_drift: 0, soil_drift: 0, noise: 0 }; 3];
    let mut world = row(3);
    world.regions[1].id = 4;
    world.regions[2].water = 20_000;
    assert_eq!(
        ecology::update(&world, &samples),
        Err(SimError::RegionIndexMismatch { id: 4, index: 1 })
    );
    let mut world = row(3);
    world.regions[1].water = 10_001;
    world.regions[1].soil = 10_001;
    assert_eq!(
        ecology::update(&world, &samples),
        Err(SimError::MeterOutOfRange { id: 1, meter: CheckedMeter::Water, value: 10_001 })
    );
    let mut world = row(3);
    world.regions[2].soil = 10_001;
    assert_eq!(
        ecology::update(&world, &samples),
        Err(SimError::MeterOutOfRange { id: 2, meter: CheckedMeter::Soil, value: 10_001 })
    );
    assert_eq!(ecology::check_entry(&row(1).regions[0], 0), Ok(()));
}

// ---- cryosphere ----

#[test]
fn active_layer_follows_the_breakpoint_table() {
    let table = [
        (i16::MIN, 30),
        (-401, 30),
        (-400, 30),
        (-399, 55),
        (-250, 55),
        (-249, 80),
        (-150, 80),
        (-149, 110),
        (-50, 110),
        (-49, 160),
        (0, 160),
        (50, 160),
        (51, 210),
        (150, 210),
        (151, 260),
        (250, 260),
        (251, 300),
        (i16::MAX, 300),
    ];
    for (temperature, depth) in table {
        assert_eq!(cryosphere::active_layer_depth(temperature), depth, "{}", temperature);
    }
    let mut previous = 0;
    for temperature in i16::MIN..=i16::MAX {
        let depth = cryosphere::active_layer_depth(temperature);
        assert!((30..=300).contains(&depth));
        assert!(depth >= previous);
        previous = depth;
    }
}

#[test]
fn albedo_moves_by_at_most_twenty_per_tick() {
    assert_eq!(cryosphere::next_albedo(500, 1_000, 0), 520);
    assert_eq!(cryosphere::next_albedo(500, 100, 0), 480);
    assert_eq!(cryosphere::next_albedo(500, 510, 0), 510);
    assert_eq!(cryosphere::next_albedo(500, 500, 0), 500);
    // A thaw of 30 cm biases the albedo down by 6; a freeze of 30 cm up by 6.
    assert_eq!(cryosphere::next_albedo(500, 510, 30), 504);
    assert_eq!(cryosphere::next_albedo(500, 510, -30), 516);
    // The bias is a fifth of the thaw, rounded towards zero, at most 20.
    assert_eq!(cryosphere::next_albedo(500, 500, 4), 500);
    assert_eq!(cryosphere::next_albedo(500, 500, -4), 500);
    assert_eq!(cryosphere::next_albedo(500, 500, 9), 499);
    assert_eq!(cryosphere::next_albedo(500, 500, -9), 501);
    assert_eq!(cryosphere::next_albedo(500, 515, 270), 495);
    assert_eq!(cryosphere::next_albedo(500, 500, i64::MAX), 480);
    assert_eq!(cryosphere::next_albedo(500, 500, i64::MIN), 520);
    // The floor and the ceiling hold whatever the sample says.
    assert_eq!(cryosphere::next_albedo(110, i32::MIN, 0), 100);
    assert_eq!(cryosphere::next_albedo(990, i32::MAX, 0), 1_000);
    assert_eq!(cryosphere::next_albedo(0, 0, 0), 100);
    assert_eq!(cryosphere::next_albedo(u16::MAX, 1_000, 0), 1_000);
    for existing in (100u16..=1_000).step_by(45) {
        for raw in (-200i32..1_400).step_by(37) {
            for thaw in [-300i64, -25, 0, 25, 300] {
                let next = cryosphere::next_albedo(existing, raw, thaw);
                assert!((next - i32::from(existing)).abs() <= 20);
                assert!((100..=1_000).contains(&next));
            }
        }
    }
}

fn quiet_sample() -> CryosphereSample {
    CryosphereSample {
        snowpack_mm: 0,
        melt_pulse_mm: 0,
        ice_mass_kilotons: 0,
        ice_delta_note: "delta_kt=+0.0".to_string(),
        raw_albedo_milli: 350,
        balance_note: None,
        freshwater_flux_tenths_mm: 0,
        contributes: false,
    }
}

#[test]
fn cryosphere_records_what_the_samples_change() {
    let mut world = row(2);
    world.regions[0].temperature_tenths_c = -120;
    world.regions[0].albedo_milli = 500;
    world.regions[0].ice_mass_kilotons = 2_000;
    world.regions[1].temperature_tenths_c = 180;
    world.regions[1].albedo_milli = 300;
    world.regions[1].freshwater_flux_tenths_mm = 50;
    world.regions[1].ice_mass_kilotons = 100;
    world.climate.snowpack_mm[1] = 900;
    world.climate.temperature_baseline_tenths[1] = 80;
    world.climate.permafrost_active_cm = vec![110, 300];
    let samples = CryosphereSamples {
        regions: vec![
            CryosphereSample {
                snowpack_mm: 497,
                melt_pulse_mm: 0,
                ice_mass_kilotons: 2_624,
                ice_delta_note: "delta_kt=+624.0".to_string(),
                raw_albedo_milli: 176,
                balance_note: Some("balance_mm=96.0".to_string()),
                freshwater_flux_tenths_mm: 0,
                contributes: false,
            },
            CryosphereSample {
                snowpack_mm: 742,
                melt_pulse_mm: 158,
                ice_mass_kilotons: 0,
                ice_delta_note: "delta_kt=-100.0".to_string(),
                raw_albedo_milli: 105,
                balance_note: Some("balance_mm=-96.6".to_string()),
                freshwater_flux_tenths_mm: 2_550,
                contributes: true,
            },
        ],
        sea_level_delta_mm: 255,
    };
    let run: KernelRun<()> = cryosphere::update(&mut world, &samples).expect("update");
    let diff = run.diff;

    // Region 0: -12.0 C gives 110 cm, as before. Region 1: 18.0 C plus a
    // baseline of 8.0 gives 300 cm at 26.0 C, as before.
    assert!(diff.permafrost_active.is_empty());
    assert_eq!(world.climate.permafrost_active_cm, vec![110, 300]);
    assert_eq!(world.climate.snowpack_mm, vec![497, 742]);
    assert_eq!(diff.melt_pulse, vec![scalar(1, 158)]);
    assert_eq!(diff.ice_mass, vec![scalar(0, 2_624), scalar(1, 0)]);
    assert_eq!(diff.albedo, vec![scalar(0, 480), scalar(1, 280)]);
    assert_eq!(diff.freshwater_flux, vec![scalar(1, 2_000)]);
    assert_eq!(world.climate.sea_level_equivalent_mm(), 255);
    assert_eq!(
        diff.causes,
        vec![
            cause("region:0/albedo", Code::AlbedoFeedback, "milli=480"),
            cause("region:0/glacier", Code::GlacierMassBalance, "balance_mm=96.0"),
            cause("region:0/ice", Code::IceMassVariation, "delta_kt=+624.0"),
            cause("region:1/albedo", Code::AlbedoFeedback, "milli=280"),
            cause("region:1/freshwater", Code::FreshwaterPulse, "tenths_mm=2000"),
            cause("region:1/glacier", Code::GlacierMassBalance, "balance_mm=-96.6"),
            cause("region:1/ice", Code::IceMassVariation, "delta_kt=-100.0"),
            cause("region:1/snowmelt", Code::SnowmeltSurge, "mm=158"),
            cause("world:sea_level", Code::SeaLevelContribution, "mm=255"),
        ]
    );
    assert_eq!(
        run.chronicle,
        vec![
            "Active layer deepened; surface darkened slightly. (2, 1 freshwater pulses, 1 sea-level contributors).".to_string(),
            cryosphere::SNOWMELT_CHRONICLE_LINE.to_string(),
        ]
    );
    assert!(run.highlights.is_empty());
    assert_eq!(world.regions[0].albedo_milli, 500);
    assert_eq!(world.tick, 0);
}

#[test]
fn cryosphere_names_a_thaw_and_biases_the_albedo_against_it() {
    let mut world = row(1);
    world.regions[0].temperature_tenths_c = 60;
    world.regions[0].albedo_milli = 400;
    world.climate.permafrost_active_cm[0] = 110;
    let mut sample = quiet_sample();
    sample.raw_albedo_milli = 410;
    let samples = CryosphereSamples { regions: vec![sample], sea_level_delta_mm: 0 };
    let run: KernelRun<()> = cryosphere::update(&mut world, &samples).expect("update");
    // 6.0 C gives 210 cm: a thaw of 100 cm, a bias of 20, so 410 becomes 390.
    assert_eq!(run.diff.permafrost_active, vec![scalar(0, 210)]);
    assert_eq!(run.diff.albedo, vec![scalar(0, 390)]);
    assert_eq!(
        run.diff.causes,
        vec![
            cause("region:0/albedo", Code::AlbedoFeedback, "milli=390"),
            cause("region:0/permafrost", Code::PermafrostThaw, "depth_cm=210"),
        ]
    );
    assert_eq!(run.chronicle, vec![cryosphere::CHRONICLE_LINE.to_string()]);

    // The next tick at -6.0 C freezes back to 110 cm: recorded, but no thaw.
    world.regions[0].temperature_tenths_c = -60;
    world.regions[0].albedo_milli = 390;
    let mut sample = quiet_sample();
    sample.raw_albedo_milli = 390;
    let samples = CryosphereSamples { regions: vec![sample], sea_level_delta_mm: 0 };
    let run: KernelRun<()> = cryosphere::update(&mut world, &samples).expect("update");
    assert_eq!(run.diff.permafrost_active, vec![scalar(0, 110)]);
    assert_eq!(run.diff.albedo, vec![scalar(0, 410)]);
    assert!(run.diff.causes.iter().all(|entry| entry.code != Code::PermafrostThaw));
    assert_eq!(world.climate.permafrost_active_cm, vec![110]);
}

#[test]
fn cryosphere_bounds_whatever_the_samples_say() {
    let mut world = row(1);
    world.regions[0].albedo_milli = 990;
    world.climate.permafrost_active_cm[0] = 160;
    let samples = CryosphereSamples {
        regions: vec![CryosphereSample {
            snowpack_mm: i32::MAX,
            melt_pulse_mm: i32::MAX,
            ice_mass_kilotons: i32::MAX,
            ice_delta_note: String::new(),
            raw_albedo_milli: i32::MAX,
            balance_note: None,
            freshwater_flux_tenths_mm: i32::MAX,
            contributes: true,
        }],
        sea_level_delta_mm: i32::MAX,
    };
    let run: KernelRun<()> = cryosphere::update(&mut world, &samples).expect("update");
    assert_eq!(world.climate.snowpack_mm, vec![4_500]);
    assert_eq!(run.diff.melt_pulse, vec![scalar(0, 1_000)]);
    assert_eq!(run.diff.ice_mass, vec![scalar(0, 200_000)]);
    assert_eq!(run.diff.albedo, vec![scalar(0, 1_000)]);
    assert_eq!(run.diff.freshwater_flux, vec![scalar(0, 2_000)]);
    assert_eq!(world.climate.sea_level_equivalent_mm(), i32::MAX);
    world.climate.add_sea_level_equivalent_mm(-3);
    let run: KernelRun<()> = cryosphere::update(&mut world, &samples).expect("update");
    assert_eq!(world.climate.sea_level_equivalent_mm(), i32::MAX);
    assert!(run.diff.causes.iter().any(|entry| entry.code == Code::SeaLevelContribution));

    let low = CryosphereSamples {
        regions: vec![CryosphereSample {
            snowpack_mm: i32::MIN,
            melt_pulse_mm: i32::MIN,
            ice_mass_kilotons: i32::MIN,
            ice_delta_note: String::new(),
            raw_albedo_milli: i32::MIN,
            balance_note: None,
            freshwater_flux_tenths_mm: i32::MIN,
            contributes: false,
        }],
        sea_level_delta_mm: 0,
    };
    let mut world = row(1);
    world.climate.snowpack_mm[0] = 77;
    let run: KernelRun<()> = cryosphere::update(&mut world, &low).expect("update");
    assert_eq!(world.climate.snowpack_mm, vec![0]);
    assert!(run.diff.melt_pulse.is_empty());
    assert!(run.diff.ice_mass.is_empty());
    assert_eq!(run.diff.albedo, vec![scalar(0, 330)]);
    assert!(run.diff.freshwater_flux.is_empty());
    assert!(world.is_well_formed());
}

#[test]
fn cryosphere_refuses_a_world_with_misplaced_regions_and_leaves_it() {
    let mut world = row(2);
    world.regions[1].id = 0;
    world.climate.snowpack_mm.clear();
    let before = world.clone();
    let samples = CryosphereSamples {
        regions: vec![quiet_sample(), quiet_sample()],
        sea_level_delta_mm: 9,
    };
    let outcome: Result<KernelRun<()>, SimError> = cryosphere::update(&mut world, &samples);
    assert_eq!(outcome.err(), Some(SimError::RegionIndexMismatch { id: 0, index: 1 }));
    assert_eq!(world.regions, before.regions);
    assert_eq!(world.climate.snowpack_mm, before.climate.snowpack_mm);
    assert_eq!(world.climate.sea_level_equivalent_mm(), 0);
}

#[test]
fn cryosphere_steps_count_what_they_record() {
    let mut diff = Diff::default();
    let mut snowpack = vec![0, 0];
    let mut permafrost = vec![0, 0];
    let mut tally = Tally {
        ice_updates: 0,
        freshwater_regions: 0,
        snowmelt_regions: 0,
        contributing_regions: 0,
    };
    let mut sample = quiet_sample();
    sample.melt_pulse_mm = 1;
    sample.ice_mass_kilotons = 5;
    sample.freshwater_flux_tenths_mm = 1;
    sample.contributes = true;
    let target = region(1, 1, 0);
    cryosphere::update_region(
        &mut diff,
        &mut snowpack,
        &mut permafrost,
        &mut tally,
        &target,
        0,
        &sample,
    );
    assert_eq!(
        tally,
        Tally {
            ice_updates: 1,
            freshwater_regions: 1,
            snowmelt_regions: 1,
            contributing_regions: 1,
        }
    );
    assert_eq!(permafrost, vec![0, 160]);
    assert_eq!(
        cryosphere::activity_summary(3, 0, 12),
        "Active layer deepened; surface darkened slightly. (3, 0 freshwater pulses, 12 sea-level contributors)."
    );
}

// ---- coupler ----

#[test]
fn coupler_shifts_the_baseline_by_at_most_one_tenth_against_the_anomaly() {
    let mut world = row(5);
    for (index, albedo) in [500u16, 500, 500, 500, 500].iter().enumerate() {
        world.regions[index].albedo_milli = *albedo;
    }
    // Anomalies: +150, -150, +59, -60, none (no snapshot).
    world.climate.last_albedo_milli = vec![350, 650, 441, 560, 0];
    world.climate.temperature_baseline_tenths = vec![0, 0, 5, 120, 7];
    let mut cryo = Diff::default();
    cryo.record_albedo(0, 500);
    let diff = coupler::reconcile_with_world(&mut world, &Diff::default(), &cryo);
    assert_eq!(world.climate.temperature_baseline_tenths, vec![-1, 1, 5, 120, 7]);
    assert_eq!(world.climate.last_albedo_milli, vec![500; 5]);
    assert_eq!(diff.temperature_baseline, vec![scalar(0, -1), scalar(1, 1)]);
    assert!(diff.temperature.is_empty());
    // Four regions had an anomaly; their sum is -1 and the steps cancel.
    assert_eq!(
        diff.diagnostics,
        vec![
            NamedValue { name: "albedo_anomaly_milli".to_string(), value: 0 },
            NamedValue { name: "energy_balance".to_string(), value: 0 },
        ]
    );
    assert_eq!(
        diff.causes,
        vec![
            cause("climate:coupler", Code::EnergyBalanceAdjustment, "mean_tenths=0"),
            cause("climate:coupler", Code::AlbedoFeedback, "mean_milli=0"),
        ]
    );
    assert!(diff.is_well_formed());
}

#[test]
fn coupler_rounds_means_half_away_from_zero() {
    let mut world = row(2);
    world.regions[0].albedo_milli = 500;
    world.regions[1].albedo_milli = 500;
    world.climate.last_albedo_milli = vec![350, 499];
    let mut cryo = Diff::default();
    cryo.record_albedo(1, 500);
    let diff = coupler::reconcile_with_world(&mut world, &Diff::default(), &cryo);
    // Anomalies 150 and 1: mean 75.5 rounds to 76; steps -1 and 0: mean -0.5
    // rounds to -1.
    assert_eq!(
        diff.diagnostics,
        vec![
            NamedValue { name: "albedo_anomaly_milli".to_string(), value: 76 },
            NamedValue { name: "energy_balance".to_string(), value: -1 },
        ]
    );
    assert_eq!(
        diff.causes,
        vec![
            cause("climate:coupler", Code::EnergyBalanceAdjustment, "mean_tenths=-1"),
            cause("climate:coupler", Code::AlbedoFeedback, "mean_milli=76"),
        ]
    );
    assert_eq!(world.climate.temperature_baseline_tenths, vec![-1, 0]);
}

#[test]
fn coupler_rests_unless_the_cryosphere_wrote_an_albedo() {
    let mut world = row(2);
    world.climate.last_albedo_milli = vec![1, 1];
    let before = world.clone();
    let mut cryo = Diff::default();
    cryo.record_ice_mass(0, 5);
    let diff = coupler::reconcile_with_world(&mut world, &Diff::default(), &cryo);
    assert!(diff.is_empty());
    assert_eq!(world.climate.last_albedo_milli, before.climate.last_albedo_milli);

    let mut empty = World::new(1, 0, 0, Vec::new());
    cryo.record_albedo(0, 5);
    assert!(coupler::reconcile_with_world(&mut empty, &Diff::default(), &cryo).is_empty());

    // Engaged, but without any anomaly: snapshots move, nothing is recorded.
    let mut world = row(2);
    world.climate.last_albedo_milli = vec![0, 350];
    let diff = coupler::reconcile_with_world(&mut world, &Diff::default(), &cryo);
    assert!(diff.is_empty());
    assert_eq!(world.climate.last_albedo_milli, vec![350, 350]);
}

#[test]
fn coupler_holds_the_baseline_within_its_limit() {
    let mut world = row(2);
    world.regions[0].albedo_milli = 1_000;
    world.regions[1].albedo_milli = 0;
    world.climate.last_albedo_milli = vec![1, 1_000];
    world.climate.temperature_baseline_tenths = vec![-120, 120];
    let mut cryo = Diff::default();
    cryo.record_albedo(0, 1_000);
    let diff = coupler::reconcile_with_world(&mut world, &Diff::default(), &cryo);
    assert_eq!(world.climate.temperature_baseline_tenths, vec![-120, 120]);
    assert!(diff.temperature_baseline.is_empty());
    // Anomalies +999 and -1000: mean -0.5 rounds to -1; nothing moved.
    assert_eq!(
        diff.diagnostics,
        vec![
            NamedValue { name: "albedo_anomaly_milli".to_string(), value: -1 },
            NamedValue { name: "energy_balance".to_string(), value: 0 },
        ]
    );
}

#[test]
fn albedo_reconcile_answers_an_anomaly_with_a_fifteenth_of_it() {
    let mut world = row(3);
    world.regions[0].albedo_milli = 500;
    world.regions[1].albedo_milli = 500;
    world.regions[2].albedo_milli = 500;
    world.climate.last_albedo_milli = vec![350, 3_000, 0];
    world.climate.temperature_baseline_tenths = vec![3, -10, 9];
    let diff = climate::albedo_reconcile(&mut world);
    // +150 gives a step of -10; -2500 gives +167, limited to +120, and the
    // baseline is held at +120.
    assert_eq!(world.climate.temperature_baseline_tenths, vec![-7, 110, 9]);
    assert_eq!(world.climate.last_albedo_milli, vec![500, 500, 500]);
    assert_eq!(
        diff.diag_energy,
        Some(DiagEnergy { albedo_anomaly_milli: -1_175, temp_adjust_tenths: 55 })
    );
    assert_eq!(
        diff.causes,
        vec![
            cause("climate:albedo_reconcile", Code::EnergyBalanceAdjustment, "mean_tenths=55"),
            cause("climate:albedo_reconcile", Code::AlbedoFeedback, "mean_milli=-1175"),
        ]
    );
    assert!(diff.temperature.is_empty() && diff.temperature_baseline.is_empty());
    let again = climate::albedo_reconcile(&mut world);
    assert!(again.is_empty());
}

// ---- classification ----

#[test]
fn latitude_belts_cut_at_fifteen_thirty_forty_five_and_sixty_degrees() {
    let cases = [
        (0, "equatorial"),
        (14_999_999, "equatorial"),
        (-14_999_999, "equatorial"),
        (15_000_000, "subtropical"),
        (-15_000_000, "subtropical"),
        (29_999_999, "subtropical"),
        (30_000_000, "temperate"),
        (44_999_999, "temperate"),
        (45_000_000, "subpolar"),
        (-59_999_999, "subpolar"),
        (60_000_000, "polar"),
        (-90_000_000, "polar"),
        (i32::MAX, "polar"),
        (i32::MIN, "polar"),
    ];
    for (latitude, label) in cases {
        assert_eq!(LatitudeBelt::from_latitude(latitude).label(), label, "{}", latitude);
    }
}

#[test]
fn biomes_follow_belt_and_dryness() {
    let (low, mid, high) = (Dryness::Low, Dryness::Mid, Dryness::High);
    let table = [
        (LatitudeBelt::Equatorial, [5, 3, 4], (35, 65)),
        (LatitudeBelt::Subtropical, [5, 2, 4], (30, 60)),
        (LatitudeBelt::Temperate, [2, 1, 3], (25, 60)),
        (LatitudeBelt::Subpolar, [1, 0, 0], (40, 40)),
        (LatitudeBelt::Polar, [0, 0, 0], (0, 0)),
    ];
    for (belt, biomes, cutoffs) in table {
        assert_eq!(climate::classify_biome(&belt, low), biomes[0]);
        assert_eq!(climate::classify_biome(&belt, mid), biomes[1]);
        assert_eq!(climate::classify_biome(&belt, high), biomes[2]);
        assert_eq!(belt.dryness_cutoffs(), cutoffs);
    }
    let labels = ["polar", "boreal", "temperate", "steppe", "desert", "rainforest", "polar"];
    for (biome, label) in labels.iter().enumerate() {
        assert_eq!(climate::biome_label(biome as u8), *label);
    }
}

#[test]
fn neighbour_elevations_sum_the_cells_around_a_region() {
    let mut world = World::new(
        1,
        3,
        2,
        vec![
            region(0, 0, 0),
            region(1, 1, 0),
            region(2, 2, 0),
            region(3, 0, 1),
            region(4, 1, 1),
            region(5, 2, 1),
        ],
    );
    for (index, elevation) in [10, 200, 3_000, -40, 500, 60].iter().enumerate() {
        world.regions[index].elevation_m = *elevation;
    }
    assert_eq!(climate::neighbour_elevations(&world, &world.regions[4]), (-40 + 60 + 200, 3));
    assert_eq!(climate::neighbour_elevations(&world, &world.regions[0]), (200 - 40, 2));
    assert_eq!(climate::neighbour_elevations(&world, &world.regions[1]), (10 + 3_000 + 500, 3));
    world.regions.truncate(4);
    assert_eq!(climate::neighbour_elevations(&world, &world.regions[1]), (10 + 3_000, 2));
    let lonely = World::new(1, 1, 1, vec![region(0, 0, 0)]);
    assert_eq!(climate::neighbour_elevations(&lonely, &lonely.regions[0]), (0, 0));
    let far = Region { x: u32::MAX, y: u32::MAX, ..region(0, 0, 0) };
    assert_eq!(climate::neighbour_elevations(&lonely, &far), (0, 0));
}

#[test]
fn classification_records_a_changed_biome_and_names_its_causes() {
    let mut world = row(2);
    world.regions[0].biome = 5;
    world.regions[1].latitude_microdeg = -50_000_000;
    let samples = vec![
        ClimateSample {
            dryness: Dryness::Low,
            seasonal_note: "-0.250".to_string(),
            lift_note: "lift_km=0.000".to_string(),
        },
        ClimateSample {
            dryness: Dryness::Low,
            seasonal_note: "0.125".to_string(),
            lift_note: "lift_km=1.200".to_string(),
        },
    ];
    let run: KernelRun<()> = climate::update(&world, &samples).expect("update");
    assert_eq!(
        run.diff.biome,
        vec![sim_core::diff::BiomeChange { region: 1, biome: 1 }]
    );
    assert_eq!(run.chronicle, vec!["Region 1 shifted toward a boreal biome.".to_string()]);
    assert_eq!(
        run.diff.causes,
        vec![
            cause("region:0/biome", Code::LatitudeBelt, "equatorial"),
            cause("region:0/biome", Code::OrographicLift, "lift_km=0.000"),
            cause("region:0/biome", Code::SeasonalShift, "-0.250"),
            cause("region:1/biome", Code::LatitudeBelt, "subpolar"),
            cause("region:1/biome", Code::OrographicLift, "lift_km=1.200"),
            cause("region:1/biome", Code::SeasonalShift, "0.125"),
        ]
    );
    world.regions[0].id = 3;
    let refused: Result<KernelRun<()>, SimError> = climate::update(&world, &samples);
    assert_eq!(refused.err(), Some(SimError::RegionIndexMismatch { id: 3, index: 0 }));
}

// ---- diagnostics ----

#[test]
fn diagnostics_sum_the_meters_and_clamp_the_composite() {
    let mut world = row(3);
    for (index, region) in world.regions.iter_mut().enumerate() {
        region.temperature_tenths_c = -100 * index as i16;
        region.precipitation_mm = 1_000 + index as u16;
        region.water = 2_000 * index as u16;
        region.albedo_milli = 300;
    }
    assert_eq!(
        climate_diag::region_totals(&world),
        Totals {
            temperature_tenths: -300,
            precipitation_mm: 3_003,
            water: 6_000,
            albedo_milli: 900,
            regions: 3,
        }
    );
    for (composite, expected) in
        [(0, 0), (999, 999), (1_000, 1_000), (1_001, 1_000), (-1_001, -1_000), (i32::MIN, -1_000)]
    {
        let run: KernelRun<()> = climate_diag::update(&world, composite);
        assert_eq!(run.diff.diag_climate, vec![scalar(0, expected)]);
        assert_eq!(run.chronicle, vec![climate_diag::CHRONICLE_LINE.to_string()]);
    }
    let empty = World::new(1, 0, 0, Vec::new());
    let run: KernelRun<()> = climate_diag::update(&empty, 777);
    assert_eq!(run.diff.diag_climate, vec![scalar(0, 0)]);
    assert_eq!(climate_diag::region_totals(&empty).regions, 0);
}

// ---- geodynamics ----

#[test]
fn clamp_elevation_holds_the_elevation_range() {
    assert_eq!(geodynamics::clamp_elevation(-1_001), -1_000);
    assert_eq!(geodynamics::clamp_elevation(-1_000), -1_000);
    assert_eq!(geodynamics::clamp_elevation(4_000), 4_000);
    assert_eq!(geodynamics::clamp_elevation(4_001), 4_000);
    assert_eq!(geodynamics::clamp_elevation(1_234), 1_234);
    assert_eq!(geodynamics::clamp_elevation(i32::MIN), -1_000);
    assert_eq!(geodynamics::clamp_elevation(i32::MAX), 4_000);
}

#[test]
fn events_are_drawn_from_the_regions_child_stream() {
    let mut hits = 0;
    for tick in 1..=3_000u64 {
        let rng = Stream::from(99, geodynamics::STAGE, tick);
        for index in 0..4usize {
            let mut child = rng.derive(index as u64);
            let expected = if child.next_u64() % 1_000 != 0 {
                None
            } else {
                Some(EventDraw {
                    uplift: child.next_u64() & 1 == 0,
                    magnitude_bits: child.next_bits53(),
                    aerosol_bits: child.next_bits53(),
                })
            };
            if expected.is_some() {
                hits += 1;
            }
            assert_eq!(geodynamics::draw_event(&rng, index), expected);
        }
    }
    assert!(hits > 0 && hits < 60);
}

#[test]
fn an_event_moves_its_region_and_half_as_much_its_neighbours() {
    let mut world = World::new(
        1,
        3,
        3,
        (0..9).map(|id| region(id, id % 3, id / 3)).collect(),
    );
    world.regions[4].elevation_m = 3_950;
    world.regions[1].elevation_m = 3_990;
    world.regions[3].elevation_m = -1_000;
    let mut events: Vec<Option<GeoEvent>> = (0..9).map(|_| None).collect();
    events[4] = Some(GeoEvent {
        uplift: true,
        magnitude_m: 73,
        optical_depth: "0.042".to_string(),
    });
    let run: KernelRun<()> = geodynamics::update(&world, &events).expect("update");
    assert_eq!(
        run.diff.elevation,
        vec![scalar(1, 4_000), scalar(3, -964), scalar(4, 4_000), scalar(5, 136), scalar(7, 136)]
    );
    assert_eq!(
        run.diff.causes,
        vec![
            cause("region:4/elevation", Code::OrogenyBelt, "delta_m=+73"),
            cause("world:atmosphere", Code::VolcanicAerosolPulse, "region=4 optical_depth=0.042"),
        ]
    );
    assert_eq!(
        run.chronicle,
        vec!["Volcanic uplift near region 4 adjusted terrain by +73 m.".to_string()]
    );

    events[4] = None;
    events[0] = Some(GeoEvent {
        uplift: false,
        magnitude_m: 100,
        optical_depth: "0.010".to_string(),
    });
    events[8] = Some(GeoEvent { uplift: false, magnitude_m: 1, optical_depth: "0.060".to_string() });
    let run: KernelRun<()> = geodynamics::update(&world, &events).expect("update");
    // Region 0 sinks by 100, its neighbours 1 and 3 by 50; region 8 sinks by 1
    // and half of that rounds to nothing.
    assert_eq!(
        run.diff.elevation,
        vec![scalar(0, 0), scalar(1, 3_940), scalar(3, -1_000), scalar(8, 99)]
    );
    assert_eq!(
        run.chronicle,
        vec![
            "Volcanic collapse near region 0 adjusted terrain by -100 m.".to_string(),
            "Volcanic collapse near region 8 adjusted terrain by -1 m.".to_string(),
        ]
    );
    assert!(run
        .diff
        .causes
        .contains(&cause("region:0/elevation", Code::SubsidenceDeltas, "delta_m=-100")));
}

#[test]
fn a_later_event_overwrites_what_an_earlier_one_wrote_for_the_same_region() {
    let world = row(3);
    let events = vec![
        Some(GeoEvent { uplift: true, magnitude_m: 40, optical_depth: "a".to_string() }),
        Some(GeoEvent { uplift: false, magnitude_m: 90, optical_depth: "b".to_string() }),
        None,
    ];
    let run: KernelRun<()> = geodynamics::update(&world, &events).expect("update");
    // Region 0 rises to 140 and lifts region 1 to 120; then region 1 sinks to
    // 10 and pulls regions 0 and 2 to 55, each from the world's elevation.
    assert_eq!(run.diff.elevation, vec![scalar(0, 55), scalar(1, 10), scalar(2, 55)]);
    let quiet: KernelRun<()> = geodynamics::update(&world, &vec![None, None, None]).expect("update");
    assert!(quiet.diff.is_empty() && quiet.chronicle.is_empty());
    let mut broken = row(3);
    broken.regions[2].id = 7;
    let refused: Result<KernelRun<()>, SimError> = geodynamics::update(&broken, &events);
    assert_eq!(refused.err(), Some(SimError::RegionIndexMismatch { id: 7, index: 2 }));
}

// ---- astronomy ----

#[test]
fn astronomy_records_fields_and_names_orbit_and_tide() {
    let world = row(2);
    let sample = AstronomySample {
        obliquity_note: "delta_deg=0.12".to_string(),
        precession_note: "phase_deg=181.5".to_string(),
        solar_cycle_index: 24,
        spring_tide: false,
        tide_note: "phase=-0.250".to_string(),
        orbit_summary: "Axial tilt shifted by +0.12°, precession at 182°, ".to_string(),
        regions: vec![
            astronomy::RegionSample {
                insolation_tenths: 13_610,
                gradient_note: "delta_wm2=0.0".to_string(),
                tide_envelope_tenths: 30,
            },
            astronomy::RegionSample {
                insolation_tenths: 9_001,
                gradient_note: "delta_wm2=460.9".to_string(),
                tide_envelope_tenths: 11,
            },
        ],
    };
    let run: KernelRun<()> = astronomy::update(&world, &sample).expect("update");
    assert_eq!(run.diff.insolation, vec![scalar(0, 13_610), scalar(1, 9_001)]);
    assert_eq!(run.diff.tide_envelope, vec![scalar(0, 30), scalar(1, 11)]);
    assert_eq!(
        run.diff.causes,
        vec![
            cause("region:0/insolation", Code::InsolationGradient, "delta_wm2=0.0"),
            cause("region:0/tide", Code::TideNeap, "phase=-0.250"),
            cause("region:1/insolation", Code::InsolationGradient, "delta_wm2=460.9"),
            cause("region:1/tide", Code::TideNeap, "phase=-0.250"),
            cause("world:astronomy", Code::ObliquityShift, "delta_deg=0.12"),
            cause("world:astronomy", Code::PrecessionPhase, "phase_deg=181.5"),
            cause("world:astronomy", Code::SolarCyclePeak, "cycle_index=24"),
        ]
    );
    assert_eq!(
        run.chronicle,
        vec![
            "Axial tilt shifted by +0.12°, precession at 182°, Neap tides calm coastal forces."
                .to_string()
        ]
    );
    let spring = AstronomySample { spring_tide: true, regions: Vec::new(), ..sample };
    let empty = World::new(1, 0, 0, Vec::new());
    let run: KernelRun<()> = astronomy::update(&empty, &spring).expect("update");
    assert_eq!(run.diff.causes.len(), 3);
    assert!(run.chronicle[0].ends_with("Spring tides amplify coastal forces."));
}

// ---- atmosphere ----

#[test]
fn prevailing_winds_turn_at_thirty_and_sixty_degrees() {
    assert_eq!(atmosphere::prevailing_wind(0), (-1, 0));
    assert_eq!(atmosphere::prevailing_wind(29_999_999), (-1, 0));
    assert_eq!(atmosphere::prevailing_wind(-30_000_000), (1, 0));
    assert_eq!(atmosphere::prevailing_wind(59_999_999), (1, 0));
    assert_eq!(atmosphere::prevailing_wind(60_000_000), (-1, 0));
    assert_eq!(atmosphere::prevailing_wind(i32::MIN), (-1, 0));
    for tick in 0..40u64 {
        assert_eq!(atmosphere::season_phase(tick), tick % 4);
    }
    assert_eq!(atmosphere::season_phase(u64::MAX), 3);
}

#[test]
fn cells_are_found_at_their_position_or_by_search() {
    let mut world = World::new(
        1,
        3,
        2,
        (0..6).map(|id| region(id, id % 3, id / 3)).collect(),
    );
    assert_eq!(atmosphere::region_index_at(&world, 0, 0), Some(0));
    assert_eq!(atmosphere::region_index_at(&world, 2, 1), Some(5));
    assert_eq!(atmosphere::region_index_at(&world, 3, 0), None);
    assert_eq!(atmosphere::region_index_at(&world, 0, 2), None);
    assert_eq!(atmosphere::region_index_at(&world, -1, 0), None);
    assert_eq!(atmosphere::region_index_at(&world, 0, -1), None);
    assert_eq!(atmosphere::region_index_at(&world, i32::MAX, i32::MAX), None);
    // A list that is out of grid order is searched.
    world.regions.swap(1, 4);
    assert_eq!(atmosphere::region_index_at(&world, 1, 0), Some(4));
    assert_eq!(atmosphere::region_index_at(&world, 1, 1), Some(1));
    world.regions[4].x = 2;
    assert_eq!(atmosphere::region_index_at(&world, 1, 0), None);
    assert_eq!(atmosphere::region_index_at(&world, 2, 0), Some(2));

    let world = row(3);
    assert_eq!(atmosphere::upwind_index(&world, &world.regions[1]), Some(0));
    assert_eq!(atmosphere::downwind_index(&world, &world.regions[1]), Some(2));
    assert_eq!(atmosphere::upwind_index(&world, &world.regions[0]), None);
    assert_eq!(atmosphere::downwind_index(&world, &world.regions[2]), None);
    let westerly = Region { latitude_microdeg: 40_000_000, ..world.regions[1] };
    assert_eq!(atmosphere::upwind_index(&world, &westerly), Some(2));
    assert_eq!(atmosphere::downwind_index(&world, &westerly), Some(0));
}

fn atmosphere_region(
    humidity: i32,
    temperature: i32,
    precipitation: i32,
) -> atmosphere::RegionSample {
    atmosphere::RegionSample {
        humidity_tenths: humidity,
        temperature_tenths: temperature,
        precipitation_mm: precipitation,
        hadley_note: None,
        lift_note: None,
        shadow_note: None,
        transport_note: "precip_ratio=0.00;insolation_tenths=0".to_string(),
        monsoon_note: None,
    }
}

#[test]
fn atmosphere_bounds_fields_and_adds_the_baseline() {
    let mut world = row(4);
    world.regions[0].temperature_tenths_c = 250;
    world.regions[1].precipitation_mm = 5_000;
    world.climate.temperature_baseline_tenths = vec![-1, 120, -120];
    let sample = AtmosphereSample {
        seasonal_note: None,
        drift_note: None,
        drift_summary: "Hadley cells shifted +0.0°; ".to_string(),
        season_summary: "seasonal scalar +0.00.".to_string(),
        regions: vec![
            atmosphere_region(640, 251, 1_234),
            atmosphere_region(1_001, 600, 9_999),
            atmosphere_region(-1, -600, -5),
            atmosphere_region(0, 0, 0),
        ],
    };
    let run: KernelRun<()> = atmosphere::update(&world, &sample).expect("update");
    assert_eq!(
        run.diff.humidity,
        vec![scalar(0, 640), scalar(1, 1_000), scalar(2, 0), scalar(3, 0)]
    );
    // 251 - 1 is the region's temperature already; 600 + 120 and -600 - 120
    // are held at the bounds; the missing baseline of region 3 counts as zero.
    assert_eq!(run.diff.temperature, vec![scalar(1, 500), scalar(2, -500)]);
    assert_eq!(run.diff.precipitation, vec![scalar(0, 1_234)]);
    assert_eq!(run.diff.causes.len(), 4);
    assert!(run.diff.causes.iter().all(|entry| entry.code == Code::HumidityTransport));
    assert_eq!(
        run.chronicle,
        vec!["Hadley cells shifted +0.0°; seasonal scalar +0.00.".to_string()]
    );
}

#[test]
fn atmosphere_clamps_the_temperature_once_after_the_baseline() {
    let mut world = row(4);
    world.climate.temperature_baseline_tenths = vec![-10, 10, 120, -120];
    let sample = AtmosphereSample {
        seasonal_note: None,
        drift_note: None,
        drift_summary: String::new(),
        season_summary: String::new(),
        regions: vec![
            atmosphere_region(0, 505, 0),
            atmosphere_region(0, -505, 0),
            atmosphere_region(0, i32::MIN, 0),
            atmosphere_region(0, i32::MAX, 0),
        ],
    };
    let run: KernelRun<()> = atmosphere::update(&world, &sample).expect("update");
    assert_eq!(
        run.diff.temperature,
        vec![scalar(0, 495), scalar(1, -495), scalar(2, -500), scalar(3, 500)]
    );
}

#[test]
fn atmosphere_names_the_causes_whose_notes_are_present() {
    let world = row(2);
    let mut wet = atmosphere_region(700, 100, 2_000);
    wet.hadley_note = Some("strength=0.50".to_string());
    wet.lift_note = Some("gradient_km=2.20;multiplier=1.44".to_string());
    wet.monsoon_note = Some("intensity=0.35".to_string());
    let mut dry = atmosphere_region(100, 90, 500);
    dry.shadow_note = Some("shadow_factor=0.40".to_string());
    let sample = AtmosphereSample {
        seasonal_note: Some("scalar=-1.000".to_string()),
        drift_note: Some("shift_deg=-5.00".to_string()),
        drift_summary: "Hadley cells shifted -5.0°; ".to_string(),
        season_summary: "seasonal scalar -1.00.".to_string(),
        regions: vec![wet, dry],
    };
    let run: KernelRun<()> = atmosphere::update(&world, &sample).expect("update");
    assert_eq!(
        run.diff.causes,
        vec![
            cause("region:0/humidity", Code::HumidityTransport, "precip_ratio=0.00;insolation_tenths=0"),
            cause("region:0/precip", Code::OrographicLift, "gradient_km=2.20;multiplier=1.44"),
            cause("region:0/precip", Code::SeasonalShift, "scalar=-1.000"),
            cause("region:0/precip", Code::HadleyDrift, "shift_deg=-5.00"),
            cause("region:0/precip", Code::MonsoonOnset, "intensity=0.35"),
            cause("region:0/temperature", Code::SeasonalShift, "scalar=-1.000"),
            cause("region:0/temperature", Code::HadleyCell, "strength=0.50"),
            cause("region:0/temperature", Code::HadleyDrift, "shift_deg=-5.00"),
            cause("region:1/humidity", Code::HumidityTransport, "precip_ratio=0.00;insolation_tenths=0"),
            cause("region:1/precip", Code::SeasonalShift, "scalar=-1.000"),
            cause("region:1/precip", Code::HadleyDrift, "shift_deg=-5.00"),
            cause("region:1/precip", Code::RainShadow, "shadow_factor=0.40"),
            cause("region:1/temperature", Code::SeasonalShift, "scalar=-1.000"),
            cause("region:1/temperature", Code::HadleyDrift, "shift_deg=-5.00"),
        ]
    );
    assert_eq!(
        run.chronicle,
        vec!["Hadley cells shifted -5.0°; monsoons intensified across 1 regions.".to_string()]
    );
    let empty = World::new(1, 0, 0, Vec::new());
    let nothing = AtmosphereSample { regions: Vec::new(), ..sample };
    let run: KernelRun<()> = atmosphere::update(&empty, &nothing).expect("update");
    assert!(run.diff.is_empty() && run.chronicle.is_empty());
    let mut broken = row(1);
    broken.regions[0].id = 1;
    let one = AtmosphereSample { regions: vec![atmosphere_region(0, 0, 0)], ..nothing };
    let refused: Result<KernelRun<()>, SimError> = atmosphere::update(&broken, &one);
    assert_eq!(refused.err(), Some(SimError::RegionIndexMismatch { id: 1, index: 0 }));
}
