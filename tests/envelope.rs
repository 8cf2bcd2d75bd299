use apz::envelope::{precompute, LEVEL_FULL};

const W: usize = 16;

#[test]
fn silent_track_gives_zero_buckets() {
    for n in [0usize, 1, W - 1, W, W + 1, 10 * W] {
        let samples = vec![0i16; n];
        let env = precompute(&samples, W, false);
        assert_eq!(env.samples.len(), W);
        assert!(env.samples.iter().all(|&b| b == 0));
    }
}

#[test]
fn loudest_bucket_is_full_scale() {
    for n in [1usize, W - 1, W, W + 1, 10 * W] {
        let samples: Vec<i16> = (0..n).map(|i| if i == n / 2 { -3000 } else { (i % 7) as i16 * 10 }).collect();
        let env = precompute(&samples, W, true);
        assert_eq!(env.samples.len(), W);
        assert!(env.enhanced);
        assert!(env.samples.iter().any(|&b| b == LEVEL_FULL));
        assert!(env.samples.iter().all(|&b| b <= LEVEL_FULL));
    }
}

#[test]
fn single_loud_bucket_is_the_only_full_one() {
    let mut samples = vec![100i16; 10 * W];
    samples[37] = 2000;
    let env = precompute(&samples, W, false);
    assert_eq!(env.samples.iter().filter(|&&b| b == LEVEL_FULL).count(), 1);
    assert_eq!(env.samples[3], LEVEL_FULL);
    assert_eq!(env.samples[0], 500);
}

#[test]
fn buckets_hold_span_peaks() {
    let env = precompute(&[100, -200, 50, 400], 2, false);
    assert_eq!(env.samples, vec![5000, 10000]);
}

#[test]
fn short_track_is_stretched() {
    let env = precompute(&[10, -20], 4, false);
    assert_eq!(env.samples, vec![5000, 5000, 10000, 10000]);
}

#[test]
fn most_negative_sample_counts_in_full() {
    let env = precompute(&[i16::MIN, 16384], 2, false);
    assert_eq!(env.samples, vec![10000, 5000]);
}

#[test]
fn zero_buckets_give_empty_envelope() {
    let env = precompute(&[1, 2, 3], 0, false);
    assert!(env.samples.is_empty());
}
