use sim_core::fixed::{
    clamp_biome_index, clamp_hazard_meter, clamp_i16, clamp_i32, clamp_u16,
    commit_resource_delta, resource_fraction, ALBEDO_MAX, FRESHWATER_FLUX_MAX, SOIL_MAX,
    WATER_MAX,
};

#[test]
fn clamp_u16_never_exits_bounds() {
    for value in (-50_000i32..50_000).step_by(7) {
        let clamped = clamp_u16(value, 0, WATER_MAX);
        assert!(clamped <= WATER_MAX);
        assert!(i32::from(clamped) >= 0);
    }
}

#[test]
fn clamp_i16_never_exits_bounds() {
    for value in (-50_000i32..50_000).step_by(7) {
        let clamped = clamp_i16(value, -5_000, 5_000);
        assert!(clamped <= 5_000);
        assert!(clamped >= -5_000);
    }
}

#[test]
fn clamp_biome_index_never_exits_bounds() {
    for value in (-50_000i32..50_000).step_by(7) {
        let clamped = clamp_biome_index(value);
        assert!(clamped <= u8::MAX);
    }
}

#[test]
fn commit_resource_delta_never_exits_bounds() {
    for current in (0u16..=WATER_MAX).step_by(501) {
        for delta in (-50_000i32..50_000).step_by(997) {
            let clamped = commit_resource_delta(current, delta, WATER_MAX);
            assert!(clamped <= WATER_MAX);
            assert!(i32::from(clamped) >= 0);
        }
    }
}

#[test]
fn clamp_hazard_meter_never_exits_bounds() {
    for value in 0u16..=u16::MAX {
        let clamped = clamp_hazard_meter(value);
        assert!(clamped <= WATER_MAX);
    }
}

#[test]
fn clamps_are_exact_at_the_bounds() {
    assert_eq!(clamp_u16(-1, 0, WATER_MAX), 0);
    assert_eq!(clamp_u16(0, 0, WATER_MAX), 0);
    assert_eq!(clamp_u16(10_000, 0, WATER_MAX), 10_000);
    assert_eq!(clamp_u16(10_001, 0, WATER_MAX), 10_000);
    assert_eq!(clamp_u16(i32::MIN, 5, 9), 5);
    assert_eq!(clamp_u16(i32::MAX, 5, 9), 9);
    assert_eq!(clamp_u16(7, 5, 9), 7);
    assert_eq!(clamp_u16(70_000, 0, u16::MAX), u16::MAX);

    assert_eq!(clamp_i16(-501, -500, 500), -500);
    assert_eq!(clamp_i16(-500, -500, 500), -500);
    assert_eq!(clamp_i16(500, -500, 500), 500);
    assert_eq!(clamp_i16(501, -500, 500), 500);
    assert_eq!(clamp_i16(123, -500, 500), 123);
    assert_eq!(clamp_i16(i32::MIN, i16::MIN, i16::MAX), i16::MIN);
    assert_eq!(clamp_i16(i32::MAX, i16::MIN, i16::MAX), i16::MAX);

    assert_eq!(clamp_i32(-1_001, -1_000, 4_000), -1_000);
    assert_eq!(clamp_i32(4_001, -1_000, 4_000), 4_000);
    assert_eq!(clamp_i32(17, -1_000, 4_000), 17);

    assert_eq!(clamp_biome_index(-1), 0);
    assert_eq!(clamp_biome_index(0), 0);
    assert_eq!(clamp_biome_index(5), 5);
    assert_eq!(clamp_biome_index(255), 255);
    assert_eq!(clamp_biome_index(256), 255);

    assert_eq!(clamp_hazard_meter(0), 0);
    assert_eq!(clamp_hazard_meter(10_000), 10_000);
    assert_eq!(clamp_hazard_meter(10_001), 10_000);
    assert_eq!(clamp_hazard_meter(u16::MAX), 10_000);
}

#[test]
fn commit_resource_delta_saturates_in_both_directions() {
    assert_eq!(commit_resource_delta(1_000, 12_000, WATER_MAX), WATER_MAX);
    assert_eq!(commit_resource_delta(5_000, -6_000, WATER_MAX), 0);
    assert_eq!(commit_resource_delta(9_900, 200, WATER_MAX), WATER_MAX);
    assert_eq!(commit_resource_delta(100, -200, SOIL_MAX), 0);
    assert_eq!(commit_resource_delta(4_750, 100, WATER_MAX), 4_850);
    assert_eq!(commit_resource_delta(4_000, -200, SOIL_MAX), 3_800);
    assert_eq!(commit_resource_delta(u16::MAX, i32::MAX, WATER_MAX), WATER_MAX);
    assert_eq!(commit_resource_delta(u16::MAX, i32::MIN, WATER_MAX), 0);
    assert_eq!(commit_resource_delta(0, i32::MAX, u16::MAX), u16::MAX);
    assert_eq!(commit_resource_delta(20_000, 0, WATER_MAX), WATER_MAX);
}

#[test]
fn resource_fraction_stays_within_unit_interval() {
    assert_eq!(resource_fraction(5_000, WATER_MAX), (5_000, 10_000));
    assert_eq!(resource_fraction(12_000, WATER_MAX), (10_000, 10_000));
    assert_eq!(resource_fraction(0, WATER_MAX), (0, 10_000));
    assert_eq!(resource_fraction(7, 0), (1, 1));
    assert_eq!(resource_fraction(0, 0), (0, 1));
    let (numerator, denominator) = resource_fraction(2_000, SOIL_MAX);
    assert_eq!(numerator as f64 / denominator as f64, 0.2);
}

#[test]
fn meter_maxima_are_as_declared() {
    assert_eq!(WATER_MAX, 10_000);
    assert_eq!(SOIL_MAX, 10_000);
    assert_eq!(ALBEDO_MAX, 1_000);
    assert_eq!(FRESHWATER_FLUX_MAX, 2_000);
}
