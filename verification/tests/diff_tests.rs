use sim_core::cause::{Code, Entry};
use sim_core::diff::{
    BiomeChange, DiagEnergy, Diff, HazardEvent, NamedValue, ResourceDelta, ScalarValue,
};
use sim_core::sparse::{is_strictly_sorted, position, put, put_all, sorted_copy};

fn scalar(region: u32, value: i32) -> ScalarValue {
    ScalarValue { region, value }
}

fn delta(region: u32, delta: i32) -> ResourceDelta {
    ResourceDelta { region, delta }
}

fn cause(target: &str, code: Code, note: Option<&str>) -> Entry {
    Entry::new(target, code, note.map(|text| text.to_string()))
}

fn named(name: &str, value: i32) -> NamedValue {
    NamedValue { name: name.to_string(), value }
}

#[test]
fn default_diff_is_empty_and_in_order() {
    let diff = Diff::default();
    assert!(diff.is_empty());
    assert!(diff.is_well_formed());
    assert_eq!(diff, Diff::default());
}

#[test]
fn scalar_records_insert_in_region_order_and_overwrite() {
    let mut diff = Diff::default();
    diff.record_temperature(5, 50);
    diff.record_temperature(1, 10);
    diff.record_temperature(3, 30);
    diff.record_temperature(9, 90);
    diff.record_temperature(0, 0);
    assert_eq!(
        diff.temperature,
        vec![scalar(0, 0), scalar(1, 10), scalar(3, 30), scalar(5, 50), scalar(9, 90)]
    );
    diff.record_temperature(3, -7);
    diff.record_temperature(9, 1);
    diff.record_temperature(0, 2);
    assert_eq!(
        diff.temperature,
        vec![scalar(0, 2), scalar(1, 10), scalar(3, -7), scalar(5, 50), scalar(9, 1)]
    );
    assert!(diff.is_well_formed());
    assert!(!diff.is_empty());
    assert!(diff.precipitation.is_empty());
}

#[test]
fn every_scalar_record_writes_its_own_list() {
    let mut diff = Diff::default();
    diff.record_insolation(1, 101);
    diff.record_tide_envelope(1, 102);
    diff.record_elevation(1, 103);
    diff.record_temperature(1, 104);
    diff.record_temperature_baseline(1, 105);
    diff.record_precipitation(1, 106);
    diff.record_precip_extreme(1, 107);
    diff.record_humidity(1, 108);
    diff.record_albedo(1, 109);
    diff.record_permafrost_active(1, 110);
    diff.record_freshwater_flux(1, 111);
    diff.record_melt_pulse(1, 112);
    diff.record_ice_mass(1, 113);
    diff.record_heatwave_idx(1, 114);
    diff.record_diag_climate(1, 115);
    assert_eq!(diff.insolation, vec![scalar(1, 101)]);
    assert_eq!(diff.tide_envelope, vec![scalar(1, 102)]);
    assert_eq!(diff.elevation, vec![scalar(1, 103)]);
    assert_eq!(diff.temperature, vec![scalar(1, 104)]);
    assert_eq!(diff.temperature_baseline, vec![scalar(1, 105)]);
    assert_eq!(diff.precipitation, vec![scalar(1, 106)]);
    assert_eq!(diff.precip_extreme, vec![scalar(1, 107)]);
    assert_eq!(diff.humidity, vec![scalar(1, 108)]);
    assert_eq!(diff.albedo, vec![scalar(1, 109)]);
    assert_eq!(diff.permafrost_active, vec![scalar(1, 110)]);
    assert_eq!(diff.freshwater_flux, vec![scalar(1, 111)]);
    assert_eq!(diff.melt_pulse, vec![scalar(1, 112)]);
    assert_eq!(diff.ice_mass, vec![scalar(1, 113)]);
    assert_eq!(diff.heatwave_idx, vec![scalar(1, 114)]);
    assert_eq!(diff.diag_climate, vec![scalar(1, 115)]);
    assert!(diff.biome.is_empty() && diff.water.is_empty() && diff.soil.is_empty());
    assert!(diff.hazards.is_empty() && diff.causes.is_empty() && diff.diagnostics.is_empty());
}

#[test]
fn biome_records_replace_per_region() {
    let mut diff = Diff::default();
    diff.record_biome(2, 5);
    diff.record_biome(0, 1);
    diff.record_biome(2, 3);
    diff.set_biome_value(1, -4);
    assert_eq!(
        diff.biome,
        vec![
            BiomeChange { region: 0, biome: 1 },
            BiomeChange { region: 1, biome: -4 },
            BiomeChange { region: 2, biome: 3 },
        ]
    );
}

#[test]
fn deltas_accumulate_and_vanish_at_zero() {
    let mut diff = Diff::default();
    diff.record_water_delta(4, 100);
    diff.record_water_delta(2, -30);
    diff.record_water_delta(4, 50);
    diff.record_water_delta(2, 0);
    assert_eq!(diff.water, vec![delta(2, -30), delta(4, 150)]);
    diff.record_water_delta(4, -150);
    assert_eq!(diff.water, vec![delta(2, -30)]);
    diff.record_water_delta(2, 30);
    assert!(diff.water.is_empty());
    diff.record_water_delta(7, 0);
    assert!(diff.water.is_empty());
    assert!(diff.is_empty());

    diff.record_soil_delta(1, -200);
    diff.record_soil_delta(1, -1);
    diff.record_soil_delta(0, 9);
    assert_eq!(diff.soil, vec![delta(0, 9), delta(1, -201)]);
    assert!(diff.water.is_empty());
}

#[test]
fn deltas_saturate_instead_of_wrapping() {
    let mut diff = Diff::default();
    diff.record_water_delta(0, i32::MAX);
    diff.record_water_delta(0, 1);
    assert_eq!(diff.water, vec![delta(0, i32::MAX)]);
    diff.record_soil_delta(0, i32::MIN);
    diff.record_soil_delta(0, -1);
    assert_eq!(diff.soil, vec![delta(0, i32::MIN)]);
    diff.record_soil_delta(0, i32::MAX);
    assert_eq!(diff.soil, vec![delta(0, -1)]);
}

#[test]
fn insert_delta_and_set_scalar_value_work_on_bare_lists() {
    let mut list = Vec::new();
    Diff::insert_delta(&mut list, 3, 5);
    Diff::insert_delta(&mut list, 1, 0);
    Diff::insert_delta(&mut list, 3, -5);
    assert_eq!(list, vec![delta(1, 0)]);
    Diff::insert_delta(&mut list, 1, 4);
    assert_eq!(list, vec![delta(1, 4)]);

    let mut values = Vec::new();
    Diff::set_scalar_value(&mut values, 8, 1);
    Diff::set_scalar_value(&mut values, 2, 2);
    Diff::set_scalar_value(&mut values, 8, 3);
    assert_eq!(values, vec![scalar(2, 2), scalar(8, 3)]);
}

#[test]
fn hazards_replace_per_region() {
    let mut diff = Diff::default();
    diff.record_hazard(1, 5_500, 0);
    diff.record_hazard(0, 1, 2);
    diff.record_hazard(1, 6_000, 200);
    assert_eq!(
        diff.hazards,
        vec![
            HazardEvent { region: 0, drought: 1, flood: 2 },
            HazardEvent { region: 1, drought: 6_000, flood: 200 },
        ]
    );
}

#[test]
fn region_indices_are_taken_modulo_the_key_width() {
    let mut diff = Diff::default();
    diff.record_humidity(u32::MAX as usize, 1);
    assert_eq!(diff.humidity, vec![scalar(u32::MAX, 1)]);
    if usize::BITS > 32 {
        let wide = (1u64 << 32) as usize + 3;
        diff.record_humidity(wide, 2);
        assert_eq!(diff.humidity, vec![scalar(3, 2), scalar(u32::MAX, 1)]);
    }
}

#[test]
fn causes_are_kept_in_target_code_note_order() {
    let mut diff = Diff::default();
    let entries = [
        cause("region:2/water", Code::FloodFlag, Some("level=700")),
        cause("region:10/water", Code::DroughtFlag, Some("level=2500")),
        cause("region:2/water", Code::DroughtFlag, Some("level=9")),
        cause("region:2/water", Code::DroughtFlag, None),
        cause("region:2/soil", Code::SoilFertilityLow, Some("value=1")),
        cause("climate:coupler", Code::EnergyBalanceAdjustment, Some("mean_tenths=-1")),
        cause("climate:coupler", Code::AlbedoFeedback, Some("mean_milli=90")),
        cause("region:2/water", Code::DroughtFlag, Some("level=10")),
        cause("world:astronomy", Code::LatitudeBelt, None),
        cause("", Code::CollapseWarning, None),
    ];
    for entry in entries.iter().cloned() {
        diff.record_cause(entry);
        assert!(diff.is_well_formed());
    }
    let expected = vec![
        cause("", Code::CollapseWarning, None),
        cause("climate:coupler", Code::EnergyBalanceAdjustment, Some("mean_tenths=-1")),
        cause("climate:coupler", Code::AlbedoFeedback, Some("mean_milli=90")),
        cause("region:10/water", Code::DroughtFlag, Some("level=2500")),
        cause("region:2/soil", Code::SoilFertilityLow, Some("value=1")),
        cause("region:2/water", Code::DroughtFlag, None),
        cause("region:2/water", Code::DroughtFlag, Some("level=10")),
        cause("region:2/water", Code::DroughtFlag, Some("level=9")),
        cause("region:2/water", Code::FloodFlag, Some("level=700")),
        cause("world:astronomy", Code::LatitudeBelt, None),
    ];
    assert_eq!(diff.causes, expected);

    let mut by_std = entries.to_vec();
    by_std.sort_by(|a, b| {
        (a.target.as_str(), a.code, a.note.as_deref())
            .cmp(&(b.target.as_str(), b.code, b.note.as_deref()))
    });
    assert_eq!(diff.causes, by_std);
}

#[test]
fn equal_causes_accumulate() {
    let mut diff = Diff::default();
    for _ in 0..3 {
        diff.record_cause(cause("region:0/biome", Code::LatitudeBelt, Some("polar")));
    }
    diff.record_cause(cause("region:0/biome", Code::LatitudeBelt, Some("equatorial")));
    assert_eq!(diff.causes.len(), 4);
    assert_eq!(diff.causes[0].note.as_deref(), Some("equatorial"));
    assert!(diff.causes[1..].iter().all(|entry| entry.note.as_deref() == Some("polar")));
    assert!(diff.is_well_formed());
}

#[test]
fn extend_causes_records_each_in_order() {
    let mut by_extend = Diff::default();
    by_extend.record_cause(cause("m", Code::EraEnd, None));
    by_extend.extend_causes(vec![
        cause("z", Code::EraEnd, None),
        cause("a", Code::EraEnd, Some("x")),
        cause("m", Code::LatitudeBelt, None),
    ]);
    let mut one_by_one = Diff::default();
    one_by_one.record_cause(cause("m", Code::EraEnd, None));
    one_by_one.record_cause(cause("z", Code::EraEnd, None));
    one_by_one.record_cause(cause("a", Code::EraEnd, Some("x")));
    one_by_one.record_cause(cause("m", Code::LatitudeBelt, None));
    assert_eq!(by_extend, one_by_one);
    assert_eq!(
        by_extend.causes.iter().map(|e| e.target.as_str()).collect::<Vec<_>>(),
        vec!["a", "m", "m", "z"]
    );
    assert_eq!(by_extend.causes[1].code, Code::LatitudeBelt);
}

#[test]
fn take_causes_hands_out_the_list_and_leaves_it_empty() {
    let mut diff = Diff::default();
    diff.record_cause(cause("b", Code::EraEnd, None));
    diff.record_cause(cause("a", Code::EraEnd, None));
    diff.record_albedo(0, 400);
    let taken = diff.take_causes();
    assert_eq!(taken, vec![cause("a", Code::EraEnd, None), cause("b", Code::EraEnd, None)]);
    assert!(diff.causes.is_empty());
    assert_eq!(diff.albedo, vec![scalar(0, 400)]);
    assert!(diff.take_causes().is_empty());
}

#[test]
fn diagnostics_are_set_by_name() {
    let mut diff = Diff::default();
    diff.record_diagnostic("energy_balance", -1);
    diff.record_diagnostic("albedo_anomaly_milli", -12);
    diff.record_diagnostic("energy_balance", 4);
    assert_eq!(
        diff.diagnostics,
        vec![named("energy_balance", 4), named("albedo_anomaly_milli", -12)]
    );
    assert!(diff.is_well_formed());
    assert!(!diff.is_empty());
}

#[test]
fn diag_energy_is_replaced() {
    let mut diff = Diff::default();
    diff.record_diag_energy(DiagEnergy { albedo_anomaly_milli: 1, temp_adjust_tenths: 2 });
    assert!(!diff.is_empty());
    diff.record_diag_energy(DiagEnergy { albedo_anomaly_milli: 3, temp_adjust_tenths: 4 });
    assert_eq!(
        diff.diag_energy,
        Some(DiagEnergy { albedo_anomaly_milli: 3, temp_adjust_tenths: 4 })
    );
}

#[test]
fn is_empty_notices_every_part() {
    let fills: Vec<fn(&mut Diff)> = vec![
        |d| d.record_biome(0, 1),
        |d| d.record_water_delta(0, 1),
        |d| d.record_soil_delta(0, 1),
        |d| d.record_insolation(0, 1),
        |d| d.record_tide_envelope(0, 1),
        |d| d.record_elevation(0, 1),
        |d| d.record_temperature(0, 1),
        |d| d.record_temperature_baseline(0, 1),
        |d| d.record_precipitation(0, 1),
        |d| d.record_precip_extreme(0, 1),
        |d| d.record_humidity(0, 1),
        |d| d.record_albedo(0, 1),
        |d| d.record_permafrost_active(0, 1),
        |d| d.record_freshwater_flux(0, 1),
        |d| d.record_melt_pulse(0, 1),
        |d| d.record_ice_mass(0, 1),
        |d| d.record_heatwave_idx(0, 1),
        |d| d.record_diag_climate(0, 1),
        |d| d.record_hazard(0, 1, 1),
        |d| d.record_cause(Entry::new("t", Code::EraEnd, None)),
        |d| d.record_diagnostic("n", 1),
        |d| d.record_diag_energy(DiagEnergy { albedo_anomaly_milli: 0, temp_adjust_tenths: 0 }),
    ];
    for fill in fills {
        let mut diff = Diff::default();
        fill(&mut diff);
        assert!(!diff.is_empty());
        assert!(diff.is_well_formed());
    }
}

#[test]
fn well_formedness_is_a_matter_of_order() {
    let mut diff = Diff::default();
    diff.humidity = vec![scalar(2, 1), scalar(1, 1)];
    assert!(!diff.is_well_formed());
    diff.humidity = vec![scalar(1, 1), scalar(1, 2)];
    assert!(!diff.is_well_formed());
    diff.humidity = vec![scalar(1, 1), scalar(2, 2)];
    assert!(diff.is_well_formed());
    diff.causes = vec![cause("b", Code::EraEnd, None), cause("a", Code::EraEnd, None)];
    assert!(!diff.is_well_formed());
    diff.causes = vec![cause("a", Code::EraEnd, None), cause("a", Code::EraEnd, None)];
    assert!(diff.is_well_formed());
    diff.diagnostics = vec![named("x", 1), named("x", 2)];
    assert!(!diff.is_well_formed());
}

fn sample_pair() -> (Diff, Diff) {
    let mut first = Diff::default();
    first.record_biome(0, 2);
    first.record_biome(3, 4);
    first.record_water_delta(0, -250);
    first.record_water_delta(2, 40);
    first.record_soil_delta(1, 10);
    first.record_temperature(0, 150);
    first.record_temperature(1, -20);
    first.record_albedo(2, 420);
    first.record_hazard(0, 5_500, 0);
    first.record_cause(cause("region:0/water", Code::DroughtFlag, None));
    first.record_diagnostic("energy_balance", 3);
    first.record_diag_energy(DiagEnergy { albedo_anomaly_milli: 9, temp_adjust_tenths: -1 });

    let mut second = Diff::default();
    second.record_biome(3, 1);
    second.record_biome(1, 5);
    second.record_water_delta(0, 100);
    second.record_water_delta(2, -40);
    second.record_water_delta(5, 7);
    second.record_soil_delta(0, -200);
    second.record_temperature(1, 33);
    second.record_temperature(4, 44);
    second.record_humidity(0, 600);
    second.record_hazard(0, 6_000, 200);
    second.record_hazard(2, 1, 1);
    second.record_cause(cause("region:0/water", Code::FloodFlag, None));
    second.record_cause(cause("region:0/soil", Code::SoilFertilityLow, Some("value=5")));
    second.record_diagnostic("albedo_anomaly_milli", -12);
    second.record_diagnostic("energy_balance", -1);
    (first, second)
}

#[test]
fn merge_overrides_scalars_adds_deltas_replaces_hazards_and_reinserts_causes() {
    let (mut first, second) = sample_pair();
    first.merge(&second);
    assert_eq!(
        first.biome,
        vec![
            BiomeChange { region: 0, biome: 2 },
            BiomeChange { region: 1, biome: 5 },
            BiomeChange { region: 3, biome: 1 },
        ]
    );
    assert_eq!(first.water, vec![delta(0, -150), delta(5, 7)]);
    assert_eq!(first.soil, vec![delta(0, -200), delta(1, 10)]);
    assert_eq!(first.temperature, vec![scalar(0, 150), scalar(1, 33), scalar(4, 44)]);
    assert_eq!(first.albedo, vec![scalar(2, 420)]);
    assert_eq!(first.humidity, vec![scalar(0, 600)]);
    assert_eq!(
        first.hazards,
        vec![
            HazardEvent { region: 0, drought: 6_000, flood: 200 },
            HazardEvent { region: 2, drought: 1, flood: 1 },
        ]
    );
    assert_eq!(
        first.causes,
        vec![
            cause("region:0/soil", Code::SoilFertilityLow, Some("value=5")),
            cause("region:0/water", Code::DroughtFlag, None),
            cause("region:0/water", Code::FloodFlag, None),
        ]
    );
    assert_eq!(
        first.diagnostics,
        vec![named("energy_balance", -1), named("albedo_anomaly_milli", -12)]
    );
    assert_eq!(
        first.diag_energy,
        Some(DiagEnergy { albedo_anomaly_milli: 9, temp_adjust_tenths: -1 })
    );
    assert!(first.is_well_formed());
}

#[test]
fn merge_equals_replaying_the_other_diffs_records() {
    let (first, second) = sample_pair();
    let mut merged = first.clone();
    merged.merge(&second);

    let mut replayed = first.clone();
    for entry in &second.biome {
        replayed.set_biome_value(entry.region, entry.biome);
    }
    for entry in &second.water {
        Diff::insert_delta(&mut replayed.water, entry.region, entry.delta);
    }
    for entry in &second.soil {
        Diff::insert_delta(&mut replayed.soil, entry.region, entry.delta);
    }
    for entry in &second.temperature {
        replayed.record_temperature(entry.region as usize, entry.value);
    }
    for entry in &second.humidity {
        replayed.record_humidity(entry.region as usize, entry.value);
    }
    for entry in &second.hazards {
        replayed.record_hazard(entry.region as usize, entry.drought, entry.flood);
    }
    for entry in second.causes.iter().cloned() {
        replayed.record_cause(entry);
    }
    for entry in &second.diagnostics {
        replayed.record_diagnostic(&entry.name, entry.value);
    }
    assert_eq!(merged, replayed);
}

#[test]
fn merge_takes_a_present_energy_summary_and_keeps_an_absent_one() {
    let mut base = Diff::default();
    base.record_diag_energy(DiagEnergy { albedo_anomaly_milli: 1, temp_adjust_tenths: 1 });
    let mut other = Diff::default();
    base.merge(&other);
    assert_eq!(
        base.diag_energy,
        Some(DiagEnergy { albedo_anomaly_milli: 1, temp_adjust_tenths: 1 })
    );
    other.record_diag_energy(DiagEnergy { albedo_anomaly_milli: 2, temp_adjust_tenths: 3 });
    base.merge(&other);
    assert_eq!(
        base.diag_energy,
        Some(DiagEnergy { albedo_anomaly_milli: 2, temp_adjust_tenths: 3 })
    );
}

#[test]
fn merge_with_an_empty_diff_changes_nothing_and_into_an_empty_diff_copies() {
    let (first, _) = sample_pair();
    let mut merged = first.clone();
    merged.merge(&Diff::default());
    assert_eq!(merged, first);
    let mut copy = Diff::default();
    copy.merge(&first);
    assert_eq!(copy, first);
}

#[test]
fn merge_replays_a_list_that_is_out_of_order() {
    let mut base = Diff::default();
    base.record_albedo(1, 10);
    let mut other = Diff::default();
    other.albedo = vec![scalar(5, 1), scalar(1, 2), scalar(5, 3), scalar(0, 4)];
    other.water = vec![delta(3, 5), delta(3, -5), delta(1, 9), delta(3, 2)];
    base.merge(&other);
    assert_eq!(base.albedo, vec![scalar(0, 4), scalar(1, 2), scalar(5, 3)]);
    assert_eq!(base.water, vec![delta(1, 9), delta(3, 2)]);
    assert!(base.is_well_formed());
}

#[test]
fn sparse_list_functions_agree_with_their_names() {
    let mut list = vec![scalar(1, 1), scalar(4, 4), scalar(9, 9)];
    assert!(is_strictly_sorted(&list));
    assert_eq!(position(&list, 0), 0);
    assert_eq!(position(&list, 1), 0);
    assert_eq!(position(&list, 2), 1);
    assert_eq!(position(&list, 4), 1);
    assert_eq!(position(&list, 9), 2);
    assert_eq!(position(&list, 10), 3);
    put(&mut list, scalar(4, 40));
    put(&mut list, scalar(0, 0));
    assert_eq!(list, vec![scalar(0, 0), scalar(1, 1), scalar(4, 40), scalar(9, 9)]);
    put_all(&mut list, &vec![scalar(9, 90), scalar(5, 50), scalar(9, 91)]);
    assert_eq!(
        list,
        vec![scalar(0, 0), scalar(1, 1), scalar(4, 40), scalar(5, 50), scalar(9, 91)]
    );
    assert!(!is_strictly_sorted(&vec![scalar(1, 1), scalar(1, 2)]));
    assert!(is_strictly_sorted(&Vec::<ScalarValue>::new()));
}

#[test]
fn sorted_copy_is_a_stable_sort_by_region() {
    let list = vec![scalar(3, 0), scalar(1, 1), scalar(3, 2), scalar(0, 3), scalar(1, 4)];
    let mut by_std = list.clone();
    by_std.sort_by_key(|entry| entry.region);
    assert_eq!(sorted_copy(&list), by_std);
    assert_eq!(
        sorted_copy(&list),
        vec![scalar(0, 3), scalar(1, 1), scalar(1, 4), scalar(3, 0), scalar(3, 2)]
    );
    assert_eq!(sorted_copy(&by_std), by_std);
    assert!(sorted_copy(&Vec::<ScalarValue>::new()).is_empty());
}
