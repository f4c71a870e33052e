use ttsvii::tempo::{plan_clip, plan_correction, push_seconds, round_to_nearest, ClipPlan, Filter};

#[test]
fn rounding_goes_to_the_nearest_and_then_to_the_even() {
    assert_eq!(round_to_nearest(7, 2), 4);
    assert_eq!(round_to_nearest(5, 2), 2);
    assert_eq!(round_to_nearest(1234, 10), 123);
    assert_eq!(round_to_nearest(1236, 10), 124);
    for (micros, text) in [(1500, "0.002"), (2500, "0.002"), (-1499, "-0.001"), (-1, "-0.000")] {
        let mut s = String::new();
        push_seconds(&mut s, micros);
        assert_eq!(s, text);
    }
    let mut s = String::new();
    push_seconds(&mut s, i64::MIN);
    assert_eq!(s, "-9223372036854.776");
}

#[test]
fn clips_within_a_hundredth_stay() {
    assert_eq!(plan_clip(1_000_000, 1_000_000), ClipPlan::Copy);
    assert_eq!(plan_clip(1_000_000, 1_009_999), ClipPlan::Copy);
    assert_eq!(plan_clip(1_000_000, 990_001), ClipPlan::Copy);
    assert!(matches!(plan_clip(1_000_000, 1_010_000), ClipPlan::Speed { .. }));
    assert!(matches!(plan_clip(1_000_000, 990_000), ClipPlan::Pad { .. }));
}

#[test]
fn short_clips_are_padded_to_their_time() {
    assert_eq!(plan_clip(2_000_000, 1_250_000), ClipPlan::Pad { micros: 750_000 });
    assert_eq!(Filter::Pad { micros: 750_000 }.text(), "apad=pad_dur=0.750");
    // A time that ends before it starts is negative.
    assert_eq!(plan_clip(-1_000_000, 500_000), ClipPlan::Pad { micros: -1_500_000 });
    assert_eq!(Filter::Pad { micros: -1_500_000 }.text(), "apad=pad_dur=-1.500");
}

#[test]
fn long_clips_are_sped_up_in_steps_of_two() {
    assert_eq!(
        plan_clip(1_000_000, 1_500_000),
        ClipPlan::Speed { doublings: 0, thousandths: 1500 }
    );
    assert_eq!(
        plan_clip(1_000_000, 2_000_000),
        ClipPlan::Speed { doublings: 0, thousandths: 2000 }
    );
    assert_eq!(
        plan_clip(1_000_000, 5_000_000),
        ClipPlan::Speed { doublings: 2, thousandths: 1250 }
    );
    assert_eq!(Filter::Tempo { doublings: 2, thousandths: 1250 }.text(), "atempo=2.000,atempo=2.000,atempo=1.250");
    assert_eq!(Filter::Tempo { doublings: 0, thousandths: 983 }.text(), "atempo=0.983");
}

#[test]
fn tempo_chains_are_those_of_floats() {
    for (target, actual) in [(1500i64, 4321i64), (700, 9999), (2345, 2400), (1000, 64_000), (333, 1000)] {
        let mut ratio = actual as f64 / target as f64;
        let mut chain = String::new();
        while ratio > 2.0 {
            chain.push_str("atempo=2.000,");
            ratio /= 2.0;
        }
        chain.push_str(&format!("atempo={:.3}", ratio));
        match plan_clip(target * 1000, actual * 1000) {
            ClipPlan::Speed { doublings, thousandths } => {
                assert_eq!(Filter::Tempo { doublings, thousandths }.text(), chain);
            }
            other => panic!("{:?}", other),
        }
    }
}

#[test]
fn second_passes_are_within_a_factor_of_two() {
    assert_eq!(plan_correction(1_000_000, None), None);
    assert_eq!(plan_correction(1_000_000, Some(1_050_000)), None);
    assert_eq!(plan_correction(1_000_000, Some(1_050_001)), Some(1050));
    assert_eq!(plan_correction(1_000_000, Some(2_000_000)), Some(2000));
    assert_eq!(plan_correction(1_000_000, Some(2_000_001)), None);
    assert_eq!(plan_correction(1_000_000, Some(500_000)), Some(500));
    assert_eq!(plan_correction(1_000_000, Some(499_999)), None);
    assert_eq!(plan_correction(1_000_000, Some(0)), None);
}

#[test]
fn second_passes_come_nearer() {
    for (target, processed) in [(1_000_000i64, 1_100_000i64), (700_000, 760_123), (2_345_678, 1_999_999)] {
        let tempo = plan_correction(target, Some(processed)).unwrap() as i64;
        let after = processed * 1000 / tempo;
        assert!((after - target).abs() < (processed - target).abs(), "{} {}", target, processed);
    }
}
