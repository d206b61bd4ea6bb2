use option_strategy::weight::{
    weights_from_bits, InvalidProbability, WeightPair, HALF_BITS, ONE_BITS, WEIGHT_BASE,
};

/// The same conversion in floating point.
fn by_float(p: f64) -> WeightPair {
    let scaled = (p * f64::from(WEIGHT_BASE)) as u32;
    let present = scaled.min(WEIGHT_BASE - 1).max(1);
    WeightPair { absent: WEIGHT_BASE - present, present }
}

#[test]
fn half_gets_equal_weights() {
    let w = weights_from_bits(0.5f64.to_bits()).unwrap();
    assert_eq!(w, WeightPair { absent: 1 << 30, present: 1 << 30 });
    assert_eq!(w.absent + w.present, WEIGHT_BASE);
    assert_eq!(HALF_BITS, 0.5f64.to_bits());
    assert_eq!(ONE_BITS, 1.0f64.to_bits());
}

#[test]
fn weights_are_the_integer_part_of_the_scaled_probability() {
    assert_eq!(
        weights_from_bits(0.9f64.to_bits()),
        Ok(WeightPair { absent: 214_748_365, present: 1_932_735_283 })
    );
    assert_eq!(
        weights_from_bits(0.1f64.to_bits()),
        Ok(WeightPair { absent: 1_932_735_284, present: 214_748_364 })
    );
    assert_eq!(
        weights_from_bits(0.25f64.to_bits()),
        Ok(WeightPair { absent: 1_610_612_736, present: 536_870_912 })
    );
    assert_eq!(
        weights_from_bits((1.0f64 / 3.0).to_bits()),
        Ok(WeightPair { absent: 1_431_655_766, present: 715_827_882 })
    );
    assert_eq!(
        weights_from_bits(0x3e18_0000_0000_0000),
        Ok(WeightPair { absent: WEIGHT_BASE - 3, present: 3 })
    );
}

#[test]
fn neither_weight_is_ever_zero() {
    let least = WeightPair { absent: WEIGHT_BASE - 1, present: 1 };
    assert_eq!(weights_from_bits(5e-324f64.to_bits()), Ok(least));
    assert_eq!(weights_from_bits(1e-300f64.to_bits()), Ok(least));
    assert_eq!(weights_from_bits(f64::MIN_POSITIVE.to_bits()), Ok(least));
    assert_eq!(weights_from_bits(0x3df0_0000_0000_0000), Ok(least));
    assert_eq!(weights_from_bits(0x3e00_0000_0000_0000), Ok(least));
    assert_eq!(
        weights_from_bits(ONE_BITS - 1),
        Ok(WeightPair { absent: 1, present: WEIGHT_BASE - 1 })
    );
}

#[test]
fn zero_is_rejected() {
    assert_eq!(weights_from_bits(0.0f64.to_bits()), Err(InvalidProbability { bits: 0 }));
}

#[test]
fn patterns_that_are_no_probability_are_rejected() {
    for p in [1.0f64, -0.0, -0.1, 1.1, 1e300, -1e-300, f64::INFINITY, f64::NEG_INFINITY, f64::NAN] {
        let bits = p.to_bits();
        assert_eq!(weights_from_bits(bits), Err(InvalidProbability { bits }), "{}", p);
    }
    assert_eq!(weights_from_bits(u64::MAX), Err(InvalidProbability { bits: u64::MAX }));
}

#[test]
fn conversion_agrees_with_floating_point() {
    let mut bits: u64 = 1;
    let mut checked = 0;
    while bits < ONE_BITS {
        let p = f64::from_bits(bits);
        assert_eq!(weights_from_bits(bits), Ok(by_float(p)), "{}", p);
        checked += 1;
        bits += 0x0000_3a5f_1c2b_9d71;
    }
    assert!(checked > 70_000);
    for k in 1..1000u32 {
        let p = f64::from(k) / 1000.0;
        assert_eq!(weights_from_bits(p.to_bits()), Ok(by_float(p)), "{}", p);
    }
}

#[test]
fn weights_grow_with_the_probability() {
    let mut last = 0;
    for k in 1..10_000u32 {
        let w = weights_from_bits((f64::from(k) / 10_000.0).to_bits()).unwrap();
        assert!(w.present >= last);
        assert!(w.present >= 1 && w.absent >= 1);
        assert_eq!(w.present + w.absent, WEIGHT_BASE);
        last = w.present;
    }
}

#[test]
fn select_splits_the_draws_by_weight() {
    let w = WeightPair { absent: 3, present: WEIGHT_BASE - 3 };
    assert!(!w.select(0));
    assert!(!w.select(5));
    assert!(w.select(6));
    assert!(w.select(u32::MAX));
    let w = WeightPair { absent: WEIGHT_BASE - 1, present: 1 };
    assert!(!w.select(u32::MAX - 2));
    assert!(w.select(u32::MAX - 1));
    assert!(w.select(u32::MAX));
    let even = weights_from_bits(HALF_BITS).unwrap();
    assert!(!even.select((1 << 31) - 1));
    assert!(even.select(1 << 31));
}
