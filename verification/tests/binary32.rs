use design_extractor::binary32::{is_in_unit_interval, push_two_decimals, rank_of, sum_within_one};

fn two_decimals(x: f32) -> String {
    let mut s = String::new();
    push_two_decimals(&mut s, x.to_bits());
    s
}

#[test]
fn confidences_print_like_two_decimal_formatting() {
    let mut samples: Vec<f32> = vec![0.0, -0.0, 1.0, 0.5, 0.125, 0.375, 0.625, 0.875, 0.005, 0.015, 0.025, 0.995, 0.994999, 0.91, 0.9, 0.86, 0.1, 0.2, 0.3];
    let mut seed: u32 = 12345;
    for _ in 0..20000 {
        seed = seed.wrapping_mul(1664525).wrapping_add(1013904223);
        samples.push((seed >> 8) as f32 / (1u32 << 24) as f32);
    }
    for k in 0..=1000u32 {
        samples.push(k as f32 / 1000.0);
        samples.push(k as f32 / 200.0 * 0.5);
    }
    for x in samples {
        if (0.0..=1.0).contains(&x) {
            assert_eq!(two_decimals(x), format!("{x:.2}"), "{x:e}");
        }
    }
}

#[test]
fn the_unit_interval_and_its_order() {
    assert!(is_in_unit_interval(0.0f32.to_bits()));
    assert!(is_in_unit_interval((-0.0f32).to_bits()));
    assert!(is_in_unit_interval(1.0f32.to_bits()));
    assert!(!is_in_unit_interval(1.0000001f32.to_bits()));
    assert!(!is_in_unit_interval((-0.1f32).to_bits()));
    assert!(!is_in_unit_interval(f32::NAN.to_bits()));
    assert!(!is_in_unit_interval(f32::INFINITY.to_bits()));
    assert!(rank_of(0.25f32.to_bits()) < rank_of(0.5f32.to_bits()));
    assert_eq!(rank_of(0.0f32.to_bits()), rank_of((-0.0f32).to_bits()));
}

#[test]
fn region_sums_compare_like_single_precision_addition() {
    let values = [0.0f32, 0.1, 0.2, 0.25, 0.3, 0.5, 0.6, 0.7, 0.75, 0.8, 0.9, 1.0, 0.99999994];
    for a in values {
        for b in values {
            assert_eq!(sum_within_one(a.to_bits(), b.to_bits()), a + b <= 1.0, "{a} + {b}");
        }
    }
}
