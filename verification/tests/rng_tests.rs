use sim_core::rng::{fnv1a64, mix64, stream_label, Stream};

#[test]
fn derive_is_deterministic() {
    let base = Stream::from(42, "stage", 7);
    let mut derived_a = base.derive(5);
    let mut derived_b = base.derive(5);
    assert_eq!(derived_a.next_u64(), derived_b.next_u64());
    let unit_a = derived_a.next_bits53() as f64 / (1u64 << 53) as f64;
    let unit_b = derived_b.next_bits53() as f64 / (1u64 << 53) as f64;
    assert_eq!(unit_a, unit_b);
}

#[test]
fn stage_changes_stream() {
    let mut climate = Stream::from(1, "climate", 10);
    let mut ecology = Stream::from(1, "ecology", 10);
    assert_ne!(climate.next_u64(), ecology.next_u64());
}

#[test]
fn mixer_matches_reference_values() {
    assert_eq!(mix64(0), 0);
    assert_eq!(mix64(1), 6238072747940578789);
    assert_eq!(mix64(u64::MAX), 13029008266876403067);
}

#[test]
fn fnv_matches_reference_values() {
    assert_eq!(fnv1a64(b""), 0xcbf29ce484222325);
    assert_eq!(fnv1a64(b"a"), 0xaf63dc4c8601ec8c);
    assert_eq!(stream_label("kernel:ecology"), 1999486244580687102);
}

#[test]
fn stream_draws_match_reference_values() {
    let mut stream = Stream::from(42, "stage", 7);
    assert_eq!(stream.next_u64(), 14072222642392422558);
    assert_eq!(stream.next_u64(), 18238456683122750380);

    let mut child = Stream::from(42, "stage", 7).derive(5);
    assert_eq!(child.next_u64(), 2100924899850037312);
    assert_eq!(child.next_bits53(), 676703652261638);

    let mut again = Stream::from(42, "stage", 7).derive(5);
    again.next_u64();
    assert_eq!(again.next_bits24(), 1260458);

    let mut climate = Stream::from(1, "climate", 10);
    let mut ecology = Stream::from(1, "ecology", 10);
    assert_eq!(climate.next_u64(), 15749754914585294214);
    assert_eq!(ecology.next_u64(), 12232646288403772919);
}

#[test]
fn derive_does_not_depend_on_parent_position() {
    let fresh = Stream::from(9, "stage", 3);
    let mut advanced = Stream::from(9, "stage", 3);
    advanced.next_u64();
    advanced.next_u64();
    let mut from_fresh = fresh.derive(11);
    let mut from_advanced = advanced.derive(11);
    assert_eq!(from_fresh.next_u64(), from_advanced.next_u64());
}

#[test]
fn unit_bits_stay_below_their_range() {
    let mut stream = Stream::from(7, "bits", 1);
    for _ in 0..1000 {
        assert!(stream.next_bits53() < (1u64 << 53));
        assert!(stream.next_bits24() < (1u32 << 24));
    }
}
