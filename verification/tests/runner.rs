use option_strategy::runner::{TestRunner, DEFAULT_SEED};

#[test]
fn default_runner_draws_a_fixed_sequence() {
    let mut runner = TestRunner::default();
    let draws: Vec<u32> = (0..4).map(|_| runner.next_u32()).collect();
    assert_eq!(draws, vec![1_946_407_330, 3_715_167_033, 2_107_066_419, 1_418_674_456]);
}

#[test]
fn seed_zero_stands_for_the_default_seed() {
    let mut zero = TestRunner::new(0);
    let mut named = TestRunner::new(DEFAULT_SEED);
    let mut default = TestRunner::default();
    for _ in 0..100 {
        let draw = zero.next_u32();
        assert_eq!(draw, named.next_u32());
        assert_eq!(draw, default.next_u32());
    }
}

#[test]
fn seeded_runner_draws_a_fixed_sequence() {
    let mut runner = TestRunner::new(1);
    let draws: Vec<u32> = (0..4).map(|_| runner.next_u32()).collect();
    assert_eq!(draws, vec![3_136_999_266, 47_868_049, 4_262_962_017, 3_790_952_708]);
    let mut runner = TestRunner::new(42);
    let draws: Vec<u32> = (0..3).map(|_| runner.next_u32()).collect();
    assert_eq!(draws, vec![144_411_322, 2_512_156_607, 3_460_753_399]);
}

#[test]
fn a_cloned_runner_repeats_the_draws() {
    let mut runner = TestRunner::new(77);
    for _ in 0..10 {
        runner.next_u32();
    }
    let mut copy = runner.clone();
    for _ in 0..100 {
        assert_eq!(runner.next_u32(), copy.next_u32());
    }
}

#[test]
fn a_runner_does_not_get_stuck() {
    let mut runner = TestRunner::new(1);
    let mut zeros = 0;
    for _ in 0..10_000 {
        if runner.next_u32() == 0 {
            zeros += 1;
        }
    }
    assert!(zeros < 3);
}
