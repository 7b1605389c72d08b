use hybrid_gauge::single::Single;

fn single(v: f32) -> Single {
    Single { bits: v.to_bits() }
}

fn samples() -> Vec<f32> {
    let mut all = vec![
        0.0,
        -0.0,
        1.0,
        -1.0,
        0.5,
        0.99999994,
        1.0000001,
        79.99999,
        80.0,
        84.99999,
        85.0,
        99.5,
        100.0,
        100.00001,
        119.99999,
        120.0,
        149.99998,
        150.0,
        150.00002,
        273.15,
        16777215.0,
        16777216.0,
        4294967040.0,
        4294967296.0,
        1e20,
        -273.15,
        -1e20,
        f32::MIN_POSITIVE,
        f32::MAX,
        f32::MIN,
        f32::INFINITY,
        f32::NEG_INFINITY,
        f32::NAN,
        -f32::NAN,
        f32::from_bits(1),
        f32::from_bits(0x8000_0001),
        f32::from_bits(0x007f_ffff),
        f32::from_bits(0x7fff_ffff),
    ];
    let mut bits: u32 = 12345;
    for _ in 0..2000 {
        bits = bits.wrapping_mul(1664525).wrapping_add(1013904223);
        all.push(f32::from_bits(bits));
    }
    all
}

#[test]
fn finite_agrees_with_the_machine() {
    for v in samples() {
        assert_eq!(single(v).is_finite(), v.is_finite(), "{v:?}");
    }
}

#[test]
fn less_agrees_with_the_machine() {
    let all = samples();
    for &a in all.iter().take(200) {
        for &b in all.iter().take(200) {
            assert_eq!(single(a).less(single(b)), a < b, "{a:?} < {b:?}");
        }
    }
}

#[test]
fn ranges_agree_with_the_machine() {
    for v in samples() {
        assert_eq!(single(v).is_inside(150), v > 0.0 && v < 150.0, "{v:?}");
        assert_eq!(single(v).is_inside(120), v > 0.0 && v < 120.0, "{v:?}");
        assert_eq!(single(v).is_within(100), v >= 0.0 && v <= 100.0, "{v:?}");
        assert_eq!(single(v).is_within(150), (0.0..=150.0).contains(&v), "{v:?}");
    }
}

#[test]
fn whole_agrees_with_the_machine() {
    for v in samples() {
        assert_eq!(single(v).whole(), v as u32, "{v:?}");
    }
}

#[test]
fn whole_numbers_are_exact() {
    for n in [0u32, 1, 2, 3, 20, 80, 85, 100, 120, 150, 8388607, 8388608, 16777215] {
        assert_eq!(Single::of(n), single(n as f32));
        assert_eq!(Single::of(n).whole(), n);
    }
}

#[test]
fn whole_part_grows_with_the_number() {
    let mut all: Vec<f32> = samples().into_iter().filter(|v| !v.is_nan()).collect();
    all.sort_by(|a, b| a.partial_cmp(b).unwrap());
    for pair in all.windows(2) {
        assert!(single(pair[0]).whole() <= single(pair[1]).whole());
    }
}
