use pristine_grid::rng::{SpawnRng, RESEED_MASK, SAMPLE_MAX, SPAWNER_SEED};

fn step(state: u32) -> u32 {
    state.wrapping_mul(1_664_525).wrapping_add(1_013_904_223)
}

#[test]
fn first_draw_of_a_fresh_spawner() {
    let mut rng = SpawnRng::new();
    let expected = step(0x8b17_2084);
    assert_eq!(SPAWNER_SEED, 0x8b17_2084);
    assert_eq!(rng.next_sample(), expected >> 8);
    assert_eq!(rng.parity(), expected & 1);
}

#[test]
fn known_step_from_zero() {
    let mut rng = SpawnRng::new();
    rng.reseed(RESEED_MASK);
    // the state is now 0, so the next state is the increment itself
    assert_eq!(rng.next_sample(), 1_013_904_223 >> 8);
    assert_eq!(rng.parity(), 1);
}

#[test]
fn samples_stay_below_two_to_the_24() {
    let mut rng = SpawnRng::new();
    for _ in 0..10_000 {
        assert!(rng.next_sample() <= SAMPLE_MAX);
    }
    assert_eq!(SAMPLE_MAX, u32::MAX >> 8);
}

#[test]
fn same_seed_gives_same_draws() {
    let mut a = SpawnRng::new();
    let mut b = SpawnRng::new();
    a.next_sample();
    a.reseed(42);
    b.reseed(42);
    for _ in 0..100 {
        assert_eq!(a.next_sample(), b.next_sample());
        assert_eq!(a.parity(), b.parity());
    }
}

#[test]
fn reseed_mixes_in_the_mask() {
    let mut a = SpawnRng::new();
    a.reseed(0x1234_5678);
    let mut b = SpawnRng::new();
    b.reseed(0);
    assert_eq!(a.next_sample(), step(0x1234_5678 ^ 0xa5a5_2084) >> 8);
    assert_eq!(b.next_sample(), step(0xa5a5_2084) >> 8);
}
