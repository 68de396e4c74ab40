use textgen::nucleus::sample_top_p;
use textgen::rng::SampleRng;
use textgen::errors::Error;

#[test]
fn empty_distribution_is_a_sampling_error() {
    let mut rng = SampleRng::new(0);
    assert!(matches!(sample_top_p(&Vec::new(), 1000, &mut rng), Err(Error::Sampling)));
}

#[test]
fn all_zero_distribution_is_a_sampling_error() {
    let mut rng = SampleRng::new(0);
    assert!(matches!(sample_top_p(&vec![0, 0, 0], 1000, &mut rng), Err(Error::Sampling)));
}

#[test]
fn zero_weight_tokens_are_never_drawn() {
    for seed in 0..32u64 {
        let mut rng = SampleRng::new(seed);
        assert_eq!(sample_top_p(&vec![0, 7, 0], 1000, &mut rng), Ok(1));
    }
}

#[test]
fn nucleus_keeps_the_minimal_prefix() {
    // Total weight 10; a cutoff of 0.6 is met by the heaviest candidate
    // alone (6/10), so index 0 is the whole nucleus and always drawn.
    for seed in 0..32u64 {
        let mut rng = SampleRng::new(seed);
        assert_eq!(sample_top_p(&vec![6, 3, 1], 600, &mut rng), Ok(0));
    }
}

#[test]
fn tokens_outside_the_nucleus_are_never_drawn() {
    // Cutoff 0.5 of total 101 is met by the heaviest candidate (100), so
    // the light one is outside the nucleus whatever the seed.
    for seed in 0..32u64 {
        let mut rng = SampleRng::new(seed);
        assert_eq!(sample_top_p(&vec![1, 100], 500, &mut rng), Ok(1));
    }
}

#[test]
fn same_seed_draws_the_same_index() {
    let weights: Vec<u64> = vec![5, 1, 3, 9, 2, 8];
    let mut rng_a = SampleRng::new(42);
    let mut rng_b = SampleRng::new(42);
    for _ in 0..16 {
        let a = sample_top_p(&weights, 1000, &mut rng_a);
        let b = sample_top_p(&weights, 1000, &mut rng_b);
        assert!(a.is_ok());
        assert_eq!(a, b);
    }
}

#[test]
fn full_share_keeps_every_positive_weight_reachable() {
    // With the whole mass kept, different seeds reach different indices.
    let weights: Vec<u64> = vec![1, 1, 1, 1];
    let mut seen = [false; 4];
    for seed in 0..64u64 {
        let mut rng = SampleRng::new(seed);
        let ix = sample_top_p(&weights, 1000, &mut rng).unwrap();
        seen[ix] = true;
    }
    assert!(seen.iter().filter(|s| **s).count() > 1);
}

#[test]
fn rng_is_reproducible() {
    let mut a = SampleRng::new(7);
    let mut b = SampleRng::new(7);
    for _ in 0..8 {
        assert_eq!(a.next_u64(), b.next_u64());
    }
    let mut c = SampleRng::new(8);
    let first_of_7 = SampleRng::new(7).next_u64();
    assert_ne!(c.next_u64(), first_of_7);
}
