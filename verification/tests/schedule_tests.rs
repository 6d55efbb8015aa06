use sim_core::cause::{Code, Entry};
use sim_core::diff::Diff;
use sim_core::error::SimError;
use sim_core::io::frame::{make_frame, ndjson_line, FrameDiff, FrameWorldMeta};
use sim_core::io::record::{diff_fields, pack};
use sim_core::diff::{NamedValue, ScalarValue};
use sim_core::kernels::coupler;
use sim_core::rng::{stream_label, Stream};
use sim_core::schedule::{kernel_stream, run_kernel, KernelRun};
use sim_core::tick::{begin_tick, Stage, Tick, CLIMATE_STAGE, HADLEY_LINE};
use sim_core::world::{Hazards, Region, World};

#[derive(Clone, Debug, PartialEq)]
struct HighlightInfo {
    kind: String,
    level: f32,
}

#[derive(Clone, Debug, PartialEq)]
struct Highlight {
    kind: String,
    region: u32,
    info: HighlightInfo,
}

impl Highlight {
    fn hazard(region: u32, kind: &str, level: f32) -> Self {
        Self {
            kind: "hazard_flag".to_string(),
            region,
            info: HighlightInfo {
                kind: kind.to_string(),
                level,
            },
        }
    }
}

fn seed_world() -> World {
    let region = Region {
        id: 0,
        x: 0,
        y: 0,
        elevation_m: 0,
        latitude_microdeg: 12_000_000,
        biome: 2,
        water: 5_000,
        soil: 4_000,
        temperature_tenths_c: 0,
        precipitation_mm: 0,
        albedo_milli: 300,
        freshwater_flux_tenths_mm: 0,
        ice_mass_kilotons: 0,
        hazards: Hazards::default(),
    };
    World::new(777, 1, 1, vec![region])
}

#[test]
fn run_kernel_commits_and_accumulates_diffs() {
    let mut world = seed_world();
    let mut aggregate = Diff::default();
    let parent_stream = Stream::from(world.seed, "stage:test", 1);

    let first_run = {
        let mut rng = kernel_stream(&parent_stream, "kernel:first");
        // consume an RNG sample to ensure derived streams are stable across runs
        let _ = rng.next_u64();

        assert_eq!(world.regions[0].biome, 2);
        let mut diff = Diff::default();
        diff.record_biome(0, 5);
        diff.record_water_delta(0, -250);
        diff.record_hazard(0, 5_500, 0);
        diff.record_cause(Entry::new("region:0/water", Code::DroughtFlag, None));

        let mut run = KernelRun::new(diff);
        run.chronicle.push("first pass".to_string());
        run.highlights.push(Highlight::hazard(0, "drought", 0.55));
        run_kernel(&mut world, &mut aggregate, run)
    };

    assert_eq!(world.regions[0].biome, 5);
    assert_eq!(world.regions[0].water, 4_750);
    assert_eq!(world.regions[0].hazards.drought, 5_500);
    assert_eq!(aggregate.biome.len(), 1);
    assert_eq!(aggregate.biome[0].biome, 5);
    assert_eq!(aggregate.water[0].delta, -250);
    assert_eq!(aggregate.hazards[0].drought, 5_500);
    assert_eq!(first_run.chronicle, vec!["first pass".to_string()]);
    assert_eq!(first_run.highlights.len(), 1);
    assert_eq!(first_run.highlights[0].kind, "hazard_flag");

    let second_run = {
        let mut rng = kernel_stream(&parent_stream, "kernel:second");
        let _ = rng.next_u64();

        assert_eq!(world.regions[0].water, 4_750);

        let mut diff = Diff::default();
        diff.record_water_delta(0, 100);
        diff.record_soil_delta(0, -200);
        diff.record_hazard(0, 6_000, 200);
        diff.record_cause(Entry::new("region:0/water", Code::FloodFlag, None));

        let mut run: KernelRun<Highlight> = KernelRun::new(diff);
        run.chronicle.push("second pass".to_string());
        run_kernel(&mut world, &mut aggregate, run)
    };

    assert_eq!(world.regions[0].water, 4_850);
    assert_eq!(world.regions[0].soil, 3_800);
    assert_eq!(world.regions[0].hazards.drought, 6_000);
    assert_eq!(world.regions[0].hazards.flood, 200);
    assert_eq!(aggregate.water[0].delta, -150);
    assert_eq!(aggregate.soil[0].delta, -200);
    assert_eq!(aggregate.hazards[0].drought, 6_000);
    assert_eq!(aggregate.hazards[0].flood, 200);
    assert_eq!(aggregate.causes.len(), 2);
    assert!(aggregate
        .causes
        .iter()
        .any(|cause| cause.code == Code::DroughtFlag));
    assert!(aggregate
        .causes
        .iter()
        .any(|cause| cause.code == Code::FloodFlag));
    assert_eq!(second_run.chronicle, vec!["second pass".to_string()]);
}

#[test]
fn kernel_streams_are_children_of_the_parent_by_label() {
    let parent = Stream::from(5, CLIMATE_STAGE, 9);
    let mut by_helper = kernel_stream(&parent, "kernel:ecology");
    let mut by_hand = parent.derive(stream_label("kernel:ecology"));
    assert_eq!(by_helper.next_u64(), by_hand.next_u64());
    let mut other = kernel_stream(&parent, "kernel:astronomy");
    assert_ne!(other.next_u64(), by_hand.next_u64());
}

#[test]
fn a_new_run_has_neither_chronicle_nor_highlights() {
    let mut diff = Diff::default();
    diff.record_albedo(0, 1);
    let run: KernelRun<Highlight> = KernelRun::new(diff.clone());
    assert_eq!(run.diff, diff);
    assert!(run.chronicle.is_empty());
    assert!(run.highlights.is_empty());
}

#[test]
fn a_tick_is_refused_unless_it_follows_the_worlds_tick() {
    let mut world = seed_world();
    world.tick = 41;
    let before = world.clone();
    for requested in [0u64, 40, 41, 43, u64::MAX] {
        let refused: Result<Tick<Highlight>, SimError> = begin_tick(&world, 777, requested);
        assert_eq!(
            refused.err(),
            Some(SimError::InvalidTickOrder { current: 41, requested })
        );
    }
    assert_eq!(world.regions, before.regions);
    assert_eq!(world.tick, 41);
    let state: Tick<Highlight> = begin_tick(&world, 777, 42).expect("tick 42 follows 41");
    assert_eq!(state.tick, 42);
    assert_eq!(state.seed, 777);
    assert_eq!(state.stage, Stage::Astronomy);
    assert!(state.aggregate.is_empty());
    assert!(state.chronicle.is_empty() && state.highlights.is_empty());

    world.tick = u64::MAX;
    for requested in [0u64, 1, u64::MAX] {
        let refused: Result<Tick<Highlight>, SimError> = begin_tick(&world, 777, requested);
        assert_eq!(
            refused.err(),
            Some(SimError::InvalidTickOrder { current: u64::MAX, requested })
        );
    }
}

#[test]
fn stages_follow_the_schedule() {
    let order = [
        (Stage::Astronomy, "kernel:astronomy"),
        (Stage::Geodynamics, "kernel:geodynamics"),
        (Stage::Atmosphere, "kernel:atmosphere"),
        (Stage::Cryosphere, "kernel:cryosphere"),
        (Stage::Diagnostics, "CLIMATE::climate_diag"),
        (Stage::Classification, "kernel:climate/core"),
        (Stage::Ecology, "kernel:ecology"),
        (Stage::Finished, "kernel:chronicle"),
    ];
    for pair in order.windows(2) {
        assert_eq!(pair[0].0.next(), pair[1].0);
    }
    assert_eq!(Stage::Finished.next(), Stage::Finished);
    for (stage, label) in order {
        assert_eq!(stage.label(), label);
    }
}

#[test]
fn each_stage_draws_from_its_own_stream() {
    let world = seed_world();
    let mut state: Tick<Highlight> = begin_tick(&world, 31, 1).expect("first tick");
    let parent = Stream::from(31, "kernel:climate", 1);
    let mut stage = Stage::Astronomy;
    while stage != Stage::Finished {
        state.stage = stage;
        let mut expected = if stage == Stage::Diagnostics {
            Stream::from(31, "CLIMATE::climate_diag", 1)
        } else {
            parent.derive(stream_label(stage.label()))
        };
        let mut actual = state.kernel_stream();
        assert_eq!(actual.next_u64(), expected.next_u64());
        assert_eq!(actual.next_u64(), expected.next_u64());
        stage = stage.next();
    }
}

fn run_with(lines: &[&str], fill: impl FnOnce(&mut Diff)) -> KernelRun<Highlight> {
    let mut diff = Diff::default();
    fill(&mut diff);
    let mut run = KernelRun::new(diff);
    run.chronicle = lines.iter().map(|line| line.to_string()).collect();
    run
}

#[test]
fn a_tick_commits_each_run_and_advances_the_world_by_one() {
    let mut world = seed_world();
    let mut state: Tick<Highlight> = begin_tick(&world, 777, 1).expect("first tick");

    let mut astronomy = run_with(&["tilt"], |diff| diff.record_insolation(0, 13_000));
    astronomy.highlights.push(Highlight::hazard(0, "drought", 0.5));
    state.advance(&mut world, astronomy);
    assert_eq!(state.stage, Stage::Geodynamics);
    assert_eq!(world.climate.last_insolation_tenths, vec![13_000]);

    state.advance(&mut world, run_with(&[], |diff| diff.record_elevation(0, 57)));
    assert_eq!(world.regions[0].elevation_m, 57);

    state.advance(
        &mut world,
        run_with(&["Hadley cells shifted +5.0°; seasonal scalar +1.00."], |diff| {
            diff.record_temperature(0, 251);
            diff.record_humidity(0, 640);
        }),
    );
    assert_eq!(state.stage, Stage::Cryosphere);
    assert_eq!(world.regions[0].temperature_tenths_c, 251);

    world.climate.last_albedo_milli[0] = 150;
    state.advance(
        &mut world,
        run_with(&["ice"], |diff| {
            diff.record_albedo(0, 320);
            diff.record_cause(Entry::new("region:0/albedo", Code::AlbedoFeedback, None));
        }),
    );
    // The coupler ran on the committed albedo: an anomaly of +170 against the
    // snapshot moves the baseline by one tenth.
    assert_eq!(state.stage, Stage::Diagnostics);
    assert_eq!(world.regions[0].albedo_milli, 320);
    assert_eq!(world.climate.last_albedo_milli, vec![320]);
    assert_eq!(world.climate.temperature_baseline_tenths, vec![-1]);
    assert_eq!(world.regions[0].temperature_tenths_c, 251);

    state.advance(&mut world, run_with(&["diag"], |diff| diff.record_diag_climate(0, -42)));
    state.advance(&mut world, run_with(&["Region 0 shifted toward a rainforest biome."], |diff| {
        diff.record_biome(0, 5)
    }));
    state.advance(&mut world, run_with(&[], |diff| diff.record_water_delta(0, -100)));
    assert_eq!(state.stage, Stage::Finished);
    assert_eq!(world.tick, 0);

    let (aggregate, chronicle, highlights) = state.finish(&mut world);
    assert_eq!(world.tick, 1);
    assert_eq!(
        chronicle,
        vec![
            "tilt".to_string(),
            HADLEY_LINE.to_string(),
            "ice".to_string(),
            coupler::CHRONICLE_LINE.to_string(),
            "diag".to_string(),
            "Region 0 shifted toward a rainforest biome.".to_string(),
        ]
    );
    assert_eq!(highlights, vec![Highlight::hazard(0, "drought", 0.5)]);
    assert_eq!(aggregate.insolation, vec![ScalarValue { region: 0, value: 13_000 }]);
    assert_eq!(aggregate.temperature_baseline, vec![ScalarValue { region: 0, value: -1 }]);
    assert_eq!(aggregate.albedo, vec![ScalarValue { region: 0, value: 320 }]);
    assert_eq!(aggregate.biome[0].biome, 5);
    assert_eq!(aggregate.water[0].delta, -100);
    assert_eq!(
        aggregate.diagnostics,
        vec![
            NamedValue { name: "albedo_anomaly_milli".to_string(), value: 170 },
            NamedValue { name: "energy_balance".to_string(), value: -1 },
        ]
    );
    assert_eq!(
        aggregate.causes.iter().map(|entry| entry.code).collect::<Vec<_>>(),
        vec![Code::EnergyBalanceAdjustment, Code::AlbedoFeedback, Code::AlbedoFeedback]
    );
    assert!(world.is_well_formed());

    let refused: Result<Tick<Highlight>, SimError> = begin_tick(&world, 777, 1);
    assert!(refused.is_err());
    let next: Result<Tick<Highlight>, SimError> = begin_tick(&world, 777, 2);
    assert!(next.is_ok());
}

#[test]
fn an_atmosphere_without_lines_adds_none_and_a_resting_coupler_adds_none() {
    let mut world = seed_world();
    let mut state: Tick<Highlight> = begin_tick(&world, 1, 1).expect("first tick");
    state.stage = Stage::Atmosphere;
    state.advance(&mut world, run_with(&[], |diff| diff.record_humidity(0, 1)));
    assert!(state.chronicle.is_empty());
    state.advance(&mut world, run_with(&["ice"], |diff| diff.record_ice_mass(0, 5)));
    assert_eq!(state.chronicle, vec!["ice".to_string()]);
    assert_eq!(world.regions[0].ice_mass_kilotons, 5);
    assert_eq!(world.climate.temperature_baseline_tenths, vec![0]);
}

#[test]
fn frames_pack_lists_into_maps_by_region_key() {
    let list = vec![
        ScalarValue { region: 10, value: 1 },
        ScalarValue { region: 2, value: 2 },
        ScalarValue { region: 10, value: 3 },
    ];
    assert_eq!(
        pack(&list),
        vec![
            NamedValue { name: "r:10".to_string(), value: 3 },
            NamedValue { name: "r:2".to_string(), value: 2 },
        ]
    );
    let sorted = vec![ScalarValue { region: 2, value: 2 }, ScalarValue { region: 10, value: 3 }];
    assert_eq!(
        pack(&sorted),
        vec![
            NamedValue { name: "r:2".to_string(), value: 2 },
            NamedValue { name: "r:10".to_string(), value: 3 },
        ]
    );
    assert!(pack(&Vec::<ScalarValue>::new()).is_empty());
}

#[test]
fn frames_carry_the_diff_under_stable_names_and_leave_hazards_out() {
    let mut diff = Diff::default();
    diff.record_biome(0, 3);
    diff.record_water_delta(1, 5);
    diff.record_soil_delta(2, -7);
    diff.record_temperature(3, 156);
    diff.record_temperature_baseline(3, -1);
    diff.record_precipitation(0, 2_345);
    diff.record_hazard(0, 4_500, 0);
    diff.record_diagnostic("energy_balance", -1);
    diff.record_cause(Entry::new("region:0/water", Code::DroughtFlag, None));

    let names: Vec<&str> = diff_fields(&diff).iter().map(|field| field.name).collect();
    assert_eq!(
        names,
        vec!["biome", "water", "soil", "temp", "temperature_baseline", "precip"]
    );

    let frame = make_frame(
        9,
        diff,
        vec![Highlight::hazard(0, "drought", 0.45)],
        vec!["line".to_string()],
        true,
        8,
        4,
    );
    assert_eq!(frame.t, 9);
    assert_eq!(frame.world, FrameWorldMeta { width: 8, height: 4 });
    assert!(frame.era_end);
    assert_eq!(frame.chronicle, vec!["line".to_string()]);
    assert_eq!(frame.highlights.len(), 1);
    assert_eq!(
        frame.diagnostics,
        vec![NamedValue { name: "energy_balance".to_string(), value: -1 }]
    );
    assert!(!frame.diff.is_empty());
    assert_eq!(frame.diff.temp, vec![NamedValue { name: "r:3".to_string(), value: 156 }]);
    let fields = frame.diff.into_fields();
    let names: Vec<&str> = fields.iter().map(|field| field.name).collect();
    assert_eq!(names, vec!["biome", "temp", "precip", "soil", "water"]);
    assert_eq!(fields[3].entries, vec![NamedValue { name: "r:2".to_string(), value: -7 }]);

    assert!(FrameDiff::default().is_empty());
    assert!(FrameDiff::default().into_fields().is_empty());
    let bare = make_frame(0, Diff::default(), Vec::<Highlight>::new(), Vec::new(), false, 1, 1);
    assert!(bare.diff.is_empty());
    assert!(bare.diagnostics.is_empty());
}

#[test]
fn a_serialised_frame_ends_in_one_line_feed() {
    assert_eq!(ndjson_line("{\"t\":1}"), "{\"t\":1}\n");
    assert_eq!(ndjson_line(""), "\n");
    assert_eq!(ndjson_line("é"), "é\n");
}
