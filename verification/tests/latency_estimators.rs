use masa::latency_estimator::ewma::LatencyEwma;
use masa::latency_estimator::histogram::LatencyDistribution;
use masa::latency_estimator::rms::{integer_sqrt, LatencyRms};
use masa::latency_estimator::LatencyEstimator;

// ── EWMA ────────────────────────────────────────────────────────────────

#[test]
fn test_first_sample_initializes_ewma() {
    let mut e = LatencyEwma::new(1, 4);
    assert!(!e.can_estimate());
    e.track(100);
    assert!(e.can_estimate());
    assert_eq!(e.estimate(), 100);
}

#[test]
fn test_ewma_weighted_update() {
    let mut e = LatencyEwma::new(1, 2);
    e.track(100);
    e.track(200);
    assert_eq!(e.estimate(), 150);
}

#[test]
fn test_converges_to_constant() {
    let mut e = LatencyEwma::default();
    for _ in 0..100 {
        e.track(1000);
    }
    assert_eq!(e.estimate(), 1000);
}

#[test]
fn test_adapts_to_step_change() {
    let mut e = LatencyEwma::new(1, 2);
    for _ in 0..20 {
        e.track(0);
    }
    assert_eq!(e.estimate(), 0);
    e.track(10000);
    assert_eq!(e.estimate(), 5000);
}

#[test]
fn test_default_alpha() {
    let e = LatencyEwma::default();
    assert_eq!(e.alpha_num(), 1);
    assert_eq!(e.alpha_den(), 8);
}

#[test]
fn test_no_overflow_large_values() {
    let mut e = LatencyEwma::default();
    e.track(u64::MAX / 2);
    e.track(u64::MAX / 2);
    assert!(e.can_estimate());
}

#[test]
fn test_decays_old_data() {
    let mut e = LatencyEwma::new(1, 2);
    for _ in 0..20 {
        e.track(10000);
    }
    for _ in 0..20 {
        e.track(0);
    }
    assert!(e.estimate() < 10);
}

#[test]
fn ewma_mean_and_floor_estimates_follow_the_average() {
    let mut e = LatencyEwma::new(1, 2);
    e.track(100);
    e.track(300);
    assert_eq!(e.estimate(), 200);
    assert_eq!(e.mean_estimate(), 200);
    assert_eq!(e.mean_floor_estimate(), 200);
}

// ── Percentile distribution ─────────────────────────────────────────────

#[test]
fn histogram_test_new() {
    let dist = LatencyDistribution::new("test".to_string(), 200);
    assert_eq!(dist.capacity(), 200);
    assert_eq!(dist.cur_queue_len(), 0);
    assert_eq!(dist.prev_queue_len(), 0);
    assert_eq!(dist.mean(), 0);
    assert_eq!(dist.percentiles().len(), 0);
}

#[test]
fn histogram_test_default() {
    let dist = LatencyDistribution::default();
    assert_eq!(dist.capacity(), 512);
    assert_eq!(dist.cur_queue_len(), 0);
}

#[test]
fn test_track_before_capacity() {
    let mut dist = LatencyDistribution::new("test".to_string(), 200);
    for i in 0..100 {
        dist.track(i);
    }
    assert_eq!(dist.cur_queue_len(), 100);
    assert!(!dist.can_estimate());
}

#[test]
fn test_track_reaches_capacity() {
    let mut dist = LatencyDistribution::new("test".to_string(), 200);
    for i in 0..200 {
        dist.track(i);
    }
    assert_eq!(dist.cur_queue_len(), 0);
    assert!(dist.can_estimate());
    assert_eq!(dist.percentiles().len(), 100);
}

#[test]
fn test_percentiles_calculation() {
    let mut dist = LatencyDistribution::new("test".to_string(), 200);
    for i in 0..200 {
        dist.track(i);
    }
    assert!(dist.can_estimate());
    assert_eq!(dist.percentile(0), 0);
    assert_eq!(dist.percentile(50), 100);
    assert_eq!(dist.percentile(99), 198);
}

#[test]
fn test_mean_calculation() {
    let mut dist = LatencyDistribution::new("test".to_string(), 200);
    for i in 0..200 {
        dist.track(i);
    }
    assert_eq!(dist.mean(), 99);
}

#[test]
fn test_percentiles_accessor() {
    let mut dist = LatencyDistribution::new("test".to_string(), 200);
    for i in 0..200 {
        dist.track(i);
    }
    let percentiles = dist.percentiles();
    assert_eq!(percentiles.len(), 100);
    assert_eq!(percentiles[0], 0);
    assert_eq!(percentiles[50], 100);
    assert_eq!(percentiles[99], 198);
}

#[test]
fn test_estimate_without_data() {
    let dist = LatencyDistribution::new("test".to_string(), 200);
    assert_eq!(dist.estimate(), 0);
}

#[test]
fn test_estimate_with_data() {
    let mut dist = LatencyDistribution::new("test".to_string(), 200);
    for i in 0..200 {
        dist.track(i);
    }
    assert_eq!(dist.estimate(), 100);
}

#[test]
fn histogram_test_trait_track() {
    let mut dist = LatencyDistribution::new("test".to_string(), 200);
    LatencyEstimator::track(&mut dist, 42);
    LatencyEstimator::track(&mut dist, 100);
    assert_eq!(dist.cur_queue_len(), 2);
}

#[test]
fn histogram_test_trait_can_estimate() {
    let mut dist = LatencyDistribution::new("test".to_string(), 200);
    assert!(!LatencyEstimator::can_estimate(&dist));
    for i in 0..200 {
        LatencyEstimator::track(&mut dist, i);
    }
    assert!(LatencyEstimator::can_estimate(&dist));
}

#[test]
fn histogram_test_trait_estimate() {
    let mut dist = LatencyDistribution::new("test".to_string(), 200);
    assert_eq!(LatencyEstimator::estimate(&dist), 0);
    for i in 0..200 {
        LatencyEstimator::track(&mut dist, i);
    }
    assert_eq!(LatencyEstimator::estimate(&dist), 100);
}

#[test]
fn test_multiple_capacity_cycles() {
    let mut dist = LatencyDistribution::new("test".to_string(), 200);
    for i in 0..200 {
        dist.track(i);
    }
    for i in 200..400 {
        dist.track(i);
    }
    assert!(dist.can_estimate());
    assert_eq!(dist.percentile(0), 0);
    assert_eq!(dist.percentile(50), 200);
    assert_eq!(dist.percentile(99), 396);
}

#[test]
fn test_uneven_distribution() {
    let mut dist = LatencyDistribution::new("test".to_string(), 200);
    for _ in 0..190 {
        dist.track(10);
    }
    for _ in 0..10 {
        dist.track(1000);
    }
    assert_eq!(dist.percentile(0), 10);
    assert_eq!(dist.percentile(90), 10);
    assert_eq!(dist.percentile(95), 1000);
    assert_eq!(dist.percentile(99), 1000);
}

// ── RMS ─────────────────────────────────────────────────────────────────

#[test]
fn rms_test_new() {
    let rms = LatencyRms::new(100);
    assert_eq!(rms.sum_squares(), 0);
    assert_eq!(rms.count(), 0);
    assert_eq!(rms.rms(), 0);
    assert_eq!(rms.update_interval(), 100);
    assert_eq!(rms.since_last_update(), 0);
}

#[test]
fn rms_test_default() {
    let rms = LatencyRms::default();
    assert_eq!(rms.update_interval(), 512);
    assert_eq!(rms.count(), 0);
    assert_eq!(rms.rms(), 0);
}

#[test]
fn test_track_single_value() {
    let mut rms = LatencyRms::new(1);
    rms.track(10);
    assert_eq!(rms.count(), 1);
    assert_eq!(rms.sum_squares(), 100);
    assert_eq!(rms.rms(), 10);
}

#[test]
fn test_track_multiple_values() {
    let mut rms = LatencyRms::new(1);
    rms.track(3);
    rms.track(4);
    rms.track(5);
    assert_eq!(rms.count(), 3);
    assert_eq!(rms.sum_squares(), 50);
    assert!(rms.rms() >= 4 && rms.rms() <= 5);
}

#[test]
fn test_update_interval() {
    let mut rms = LatencyRms::new(5);
    for i in 1..=4 {
        rms.track(i);
    }
    rms.track(5);
    assert!(rms.rms() > 0);
    assert_eq!(rms.since_last_update(), 0);
}

#[test]
fn test_rms_calculation() {
    let mut rms = LatencyRms::new(1);
    rms.track(3);
    rms.track(4);
    rms.track(5);
    let rms_value = rms.rms();
    assert!(rms_value >= 4 && rms_value <= 5);
}

#[test]
fn test_rms_with_zero() {
    let mut rms = LatencyRms::new(1);
    rms.track(0);
    assert_eq!(rms.rms(), 0);
    assert_eq!(rms.count(), 1);
    assert_eq!(rms.sum_squares(), 0);
}

#[test]
fn test_rms_with_large_values() {
    let mut rms = LatencyRms::new(1);
    rms.track(1000);
    rms.track(2000);
    let rms_value = rms.rms();
    assert!(rms_value >= 1500 && rms_value <= 1600);
}

#[test]
fn rms_test_can_estimate() {
    let mut rms = LatencyRms::new(10);
    assert!(!rms.can_estimate());
    rms.track(10);
    assert!(rms.can_estimate());
}

#[test]
fn rms_test_trait_track() {
    let mut rms = LatencyRms::new(1);
    LatencyEstimator::track(&mut rms, 42);
    LatencyEstimator::track(&mut rms, 100);
    assert_eq!(rms.count(), 2);
    assert_eq!(rms.sum_squares(), 42 * 42 + 100 * 100);
}

#[test]
fn rms_test_trait_can_estimate() {
    let mut rms = LatencyRms::new(1);
    assert!(!LatencyEstimator::can_estimate(&rms));
    LatencyEstimator::track(&mut rms, 10);
    assert!(LatencyEstimator::can_estimate(&rms));
}

#[test]
fn rms_test_trait_estimate() {
    let mut rms = LatencyRms::new(1);
    LatencyEstimator::track(&mut rms, 10);
    LatencyEstimator::track(&mut rms, 20);
    let estimate1 = LatencyEstimator::estimate(&rms);
    assert_eq!(estimate1, rms.rms());
}

#[test]
fn test_periodic_update() {
    let mut rms = LatencyRms::new(3);
    rms.track(10);
    rms.track(20);
    assert_eq!(rms.since_last_update(), 2);
    rms.track(30);
    assert_eq!(rms.since_last_update(), 0);
    assert!(rms.rms() > 0);
    rms.track(40);
    rms.track(50);
    assert_eq!(rms.since_last_update(), 2);
    rms.track(60);
    assert_eq!(rms.since_last_update(), 0);
}

#[test]
fn test_integer_sqrt() {
    assert_eq!(integer_sqrt(0), 0);
    assert_eq!(integer_sqrt(1), 1);
    assert_eq!(integer_sqrt(2), 1);
    assert_eq!(integer_sqrt(3), 1);
    assert_eq!(integer_sqrt(4), 2);
    assert_eq!(integer_sqrt(9), 3);
    assert_eq!(integer_sqrt(16), 4);
    assert_eq!(integer_sqrt(25), 5);
    assert_eq!(integer_sqrt(100), 10);
    assert_eq!(integer_sqrt(10000), 100);
}

#[test]
fn test_integer_sqrt_large() {
    assert_eq!(integer_sqrt(1000000), 1000);
    assert_eq!(integer_sqrt(2500000), 1581);
}

#[test]
fn integer_sqrt_of_the_largest_squares() {
    assert_eq!(integer_sqrt(u64::MAX as u128 * u64::MAX as u128), u64::MAX as u128);
    assert_eq!(integer_sqrt(u128::MAX - 1), u64::MAX as u128);
}

#[test]
fn test_rms_consistency() {
    let mut rms = LatencyRms::new(1);
    for _ in 0..10 {
        rms.track(5);
    }
    assert_eq!(rms.rms(), 5);
}

#[test]
fn test_rms_with_identical_values() {
    let mut rms = LatencyRms::new(1);
    rms.track(10);
    rms.track(10);
    rms.track(10);
    assert_eq!(rms.rms(), 10);
}
