use cube_skyline::magnitude::{is_nan_bits, rank_key};
use cube_skyline::scene::{DatasetEntry, DatasetSnapshot};

const SAMPLES: [f32; 15] = [
    f32::NEG_INFINITY,
    f32::MIN,
    -100.0,
    -1.5,
    -f32::MIN_POSITIVE,
    -1.0e-45,
    -0.0,
    0.0,
    1.0e-45,
    f32::MIN_POSITIVE,
    0.7,
    15.0,
    30.0,
    f32::MAX,
    f32::INFINITY,
];

#[test]
fn keys_of_known_patterns() {
    assert_eq!(rank_key(0.0f32.to_bits()), 0x8000_0000);
    assert_eq!(rank_key((-0.0f32).to_bits()), 0x8000_0000);
    assert_eq!(rank_key(1.0f32.to_bits()), 0x8000_0000 + 0x3f80_0000);
    assert_eq!(rank_key((-1.0f32).to_bits()), 0x8000_0000 - 0x3f80_0000);
    assert_eq!(rank_key(f32::INFINITY.to_bits()), 0x8000_0000 + 0x7f80_0000);
    assert_eq!(rank_key(f32::NEG_INFINITY.to_bits()), 0x0080_0000);
    assert_eq!(rank_key(0xffff_ffff), 1);
    assert_eq!(rank_key(0x7fff_ffff), 0xffff_ffff);
}

#[test]
fn keys_order_as_the_numbers_do() {
    for a in SAMPLES {
        for b in SAMPLES {
            let (ka, kb) = (rank_key(a.to_bits()), rank_key(b.to_bits()));
            assert_eq!(ka < kb, a < b, "{} {}", a, b);
            assert_eq!(ka == kb, a == b, "{} {}", a, b);
        }
    }
}

#[test]
fn nan_patterns_are_told_apart() {
    assert!(is_nan_bits(f32::NAN.to_bits()));
    assert!(is_nan_bits(0x7f80_0001));
    assert!(is_nan_bits(0xffc0_0000));
    assert!(is_nan_bits(0xffff_ffff));
    for x in SAMPLES {
        assert!(!is_nan_bits(x.to_bits()));
    }
    assert!(!is_nan_bits(0x7f80_0000));
    assert!(!is_nan_bits(0xff80_0000));
}

#[test]
fn snapshot_weights_follow_the_totals() {
    let entries = SAMPLES
        .iter()
        .map(|x| DatasetEntry { name: format!("{}", x), total_bits: x.to_bits(), segments: 0 })
        .collect();
    let weights = DatasetSnapshot { entries }.weights();
    for pair in weights.windows(2) {
        assert!(pair[0] <= pair[1]);
    }
    assert_eq!(weights[6], weights[7]);
}
