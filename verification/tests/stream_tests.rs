use event_pipeline::anomaly::AnomalyDetector;
use event_pipeline::breaker::{CircuitBreaker, CircuitBreakerState};
use event_pipeline::reading::{
    AnomalyDetectionConfig, ProcessingError, SensorReading,
};
use event_pipeline::stream::StreamProcessor;
use event_pipeline::window::WindowAggregator;

fn reading(sensor: &str, timestamp: u64, temp_milli: i64) -> SensorReading {
    SensorReading {
        sensor_id: sensor.to_string(),
        timestamp,
        temperature_milli: temp_milli,
        humidity_milli: 50_000,
        pressure_milli: 1_013_250,
        latitude_micro: 52_520_000,
        longitude_micro: 13_405_000,
        device_id: "dev-1".to_string(),
        battery_level_pct: 88,
    }
}

fn config() -> AnomalyDetectionConfig {
    AnomalyDetectionConfig {
        temperature_threshold_milli: 10_000_000,
        humidity_threshold_milli: 10_000_000,
        pressure_threshold_milli: 10_000_000,
        window_size_seconds: 10,
        sensitivity_centi: 300,
        update_baseline_on_anomaly: true,
    }
}

#[test]
fn o6_stream_processing_test_high_throughput_processing() {
    let mut processor = StreamProcessor::new(config());
    for i in 0..1_000u64 {
        let r = reading("s-throughput", i, 20_000 + (i % 7) as i64);
        assert!(processor.process_reading(r, i).is_ok());
    }
    let metrics = processor.get_metrics();
    assert_eq!(metrics.total_processed, 1_000);
    assert_eq!(metrics.error_count, 0);
    assert_eq!(metrics.circuit_breaker_rejections, 0);
}

#[test]
fn test_anomaly_detection() {
    let mut detector = AnomalyDetector::new(config());
    // A steady baseline: 21.0, 20.9, 21.1, 21.0 degrees.
    for (i, t) in [21_000i64, 20_900, 21_100, 21_000].iter().enumerate() {
        let r = reading("s1", i as u64, *t);
        let (_, anomalous) = detector.detect_anomaly(&r);
        assert!(!anomalous, "baseline reading flagged at step {}", i);
    }
    // A reading far outside the learned distribution is flagged.
    let outlier = reading("s1", 10, 90_000);
    let (score, anomalous) = detector.detect_anomaly(&outlier);
    assert!(anomalous);
    assert!(score > 300 * 300 / 100);
    // A fresh sensor has no baseline yet and is never flagged.
    let other = reading("s2", 0, 90_000);
    let (score2, anomalous2) = detector.detect_anomaly(&other);
    assert!(!anomalous2);
    assert_eq!(score2, 0);
}

#[test]
fn test_baseline_update_policy_both_ways() {
    // Adaptive policy: the anomalous reading still enters the baseline.
    let mut adaptive = AnomalyDetector::new(config());
    for i in 0..4u64 {
        adaptive.detect_anomaly(&reading("s1", i, 21_000));
    }
    let before = adaptive.baseline_models[0].1.sample_count;
    let (_, flagged) = adaptive.detect_anomaly(&reading("s1", 9, 90_000));
    assert!(flagged);
    assert_eq!(adaptive.baseline_models[0].1.sample_count, before + 1);

    // Guarded policy: the anomalous reading is kept out of the baseline.
    let mut guarded_config = config();
    guarded_config.update_baseline_on_anomaly = false;
    let mut guarded = AnomalyDetector::new(guarded_config);
    for i in 0..4u64 {
        guarded.detect_anomaly(&reading("s1", i, 21_000));
    }
    let before_guarded = guarded.baseline_models[0].1.sample_count;
    let (_, flagged_guarded) = guarded.detect_anomaly(&reading("s1", 9, 90_000));
    assert!(flagged_guarded);
    assert_eq!(guarded.baseline_models[0].1.sample_count, before_guarded);
}

#[test]
fn test_window_aggregation() {
    let mut aggregator = WindowAggregator::new(10);
    let m0 = aggregator.add_reading(reading("s1", 0, 20_000)).unwrap();
    assert_eq!(m0.reading_count, 1);
    let m5 = aggregator.add_reading(reading("s1", 5, 21_000)).unwrap();
    assert_eq!(m5.reading_count, 2);
    // At t=10 with a 10 s window, t=0 is exactly at the cutoff and stays.
    let m10 = aggregator.add_reading(reading("s1", 10, 22_000)).unwrap();
    assert_eq!(m10.reading_count, 3);
    assert_eq!(m10.window_start, 0);
    assert_eq!(m10.window_end, 10);
    assert_eq!(m10.avg_temperature_milli, 21_000);
    // At t=21 every reading older than t=11 is evicted: t=0, 5 and 10 all
    // leave, and only the fresh reading remains in the span [11, 21].
    let m21 = aggregator.add_reading(reading("s1", 21, 23_000)).unwrap();
    assert_eq!(m21.reading_count, 1);
    assert_eq!(m21.window_start, 21);
    assert_eq!(m21.window_end, 21);
    assert_eq!(m21.avg_temperature_milli, 23_000);
}

#[test]
fn test_window_keys_are_independent() {
    let mut aggregator = WindowAggregator::new(100);
    aggregator.add_reading(reading("s1", 0, 10_000));
    aggregator.add_reading(reading("s2", 0, 30_000));
    let m1 = aggregator.add_reading(reading("s1", 1, 20_000)).unwrap();
    assert_eq!(m1.reading_count, 2);
    assert_eq!(m1.avg_temperature_milli, 15_000);
    let m2 = aggregator.add_reading(reading("s2", 1, 40_000)).unwrap();
    assert_eq!(m2.reading_count, 2);
    assert_eq!(m2.avg_temperature_milli, 35_000);
}

#[test]
fn test_window_average_truncates_toward_zero() {
    let mut aggregator = WindowAggregator::new(100);
    aggregator.add_reading(reading("cold", 0, -1_000));
    let m = aggregator.add_reading(reading("cold", 1, -2_001)).unwrap();
    // (-1000 + -2001) / 2 = -1500.5, truncated toward zero.
    assert_eq!(m.avg_temperature_milli, -1_500);
}

#[test]
fn test_stream_rejects_malformed_readings() {
    let mut strict = config();
    strict.temperature_threshold_milli = 50_000;
    let mut processor = StreamProcessor::new(strict);
    let bad = reading("s1", 0, 60_000);
    assert_eq!(
        processor.process_reading(bad, 0),
        Err(ProcessingError::InvalidReading)
    );
    let metrics = processor.get_metrics();
    assert_eq!(metrics.error_count, 1);
    assert_eq!(metrics.total_processed, 0);
}

#[test]
fn test_stream_breaker_opens_and_recovers() {
    let mut strict = config();
    strict.temperature_threshold_milli = 50_000;
    let mut processor = StreamProcessor::new(strict);
    // Five malformed readings trip the recovery breaker.
    for i in 0..5u64 {
        assert_eq!(
            processor.process_reading(reading("s1", i, 99_000), 1_000),
            Err(ProcessingError::InvalidReading)
        );
    }
    assert_eq!(
        processor.process_reading(reading("s1", 6, 20_000), 2_000),
        Err(ProcessingError::CircuitBreakerOpen)
    );
    let metrics = processor.get_metrics();
    assert_eq!(metrics.circuit_breaker_rejections, 1);
    assert_eq!(metrics.error_count, 6);
    // After the recovery timeout a trial reading is admitted and, being
    // well-formed, closes the breaker again.
    let ok = processor.process_reading(reading("s1", 7, 20_000), 1_000 + 60_000);
    assert!(ok.is_ok());
    assert_eq!(processor.get_metrics().total_processed, 1);
}

#[test]
fn test_processed_data_carries_window_report() {
    let mut processor = StreamProcessor::new(config());
    let first = processor.process_reading(reading("s1", 0, 20_000), 0).unwrap();
    assert!(!first.is_anomaly);
    let report = first.aggregated_metrics.unwrap();
    assert_eq!(report.reading_count, 1);
    assert_eq!(report.avg_temperature_milli, 20_000);
    assert_eq!(report.avg_humidity_milli, 50_000);
    assert_eq!(report.avg_pressure_milli, 1_013_250);
    let second = processor.process_reading(reading("s1", 4, 22_000), 0).unwrap();
    let report2 = second.aggregated_metrics.unwrap();
    assert_eq!(report2.reading_count, 2);
    assert_eq!(report2.avg_temperature_milli, 21_000);
    assert_eq!(report2.window_start, 0);
    assert_eq!(report2.window_end, 4);
}

#[test]
fn test_circuit_breaker_state_machine() {
    let mut breaker = CircuitBreaker::new(3, 1_000);
    assert!(matches!(breaker.state, CircuitBreakerState::Closed));
    // Below the threshold the breaker stays closed and admits calls.
    breaker.record_failure(100);
    breaker.record_failure(120);
    assert!(breaker.can_execute(130));
    assert!(matches!(breaker.state, CircuitBreakerState::Closed));
    // The third consecutive failure opens it.
    breaker.record_failure(140);
    assert!(matches!(breaker.state, CircuitBreakerState::Open));
    assert!(!breaker.can_execute(500));
    assert!(!breaker.can_execute(1_139));
    // Once the recovery timeout has elapsed, exactly one call is admitted.
    assert!(breaker.can_execute(1_140));
    assert!(matches!(breaker.state, CircuitBreakerState::HalfOpen));
    assert!(!breaker.can_execute(1_141));
    // A success in the trial closes the breaker and clears the counter.
    breaker.record_success();
    assert!(matches!(breaker.state, CircuitBreakerState::Closed));
    assert_eq!(breaker.failure_count, 0);
    // Trip it again and fail the trial: the breaker reopens with a fresh
    // failure time.
    breaker.record_failure(2_000);
    breaker.record_failure(2_001);
    breaker.record_failure(2_002);
    assert!(breaker.can_execute(3_002));
    breaker.record_failure(3_010);
    assert!(matches!(breaker.state, CircuitBreakerState::Open));
    assert_eq!(breaker.last_failure_time_ms, Some(3_010));
    assert!(!breaker.can_execute(3_020));
}

#[test]
fn test_breaker_success_resets_closed_counter() {
    let mut breaker = CircuitBreaker::new(5, 1_000);
    breaker.record_failure(0);
    breaker.record_failure(1);
    assert_eq!(breaker.failure_count, 2);
    breaker.record_success();
    assert_eq!(breaker.failure_count, 0);
    assert!(matches!(breaker.state, CircuitBreakerState::Closed));
}

#[test]
fn test_stream_metrics_latency_average() {
    let mut processor = StreamProcessor::new(config());
    processor.process_reading(reading("s1", 0, 20_000), 0).unwrap();
    processor.process_reading(reading("s1", 1, 20_000), 0).unwrap();
    let metrics = processor.get_metrics();
    assert_eq!(metrics.total_processed, 2);
    // Latency accounting is the shell's concern; the core records zero.
    assert_eq!(metrics.average_latency_ms, 0);
    assert_eq!(metrics.anomalies_detected, 0);
}

#[test]
fn test_stream_latency_is_threaded_through() {
    let mut processor = StreamProcessor::new(config());
    let first = processor
        .process_reading_timed(reading("s1", 0, 20_000), 0, 4)
        .unwrap();
    assert_eq!(first.processing_latency_ms, 4);
    processor
        .process_reading_timed(reading("s1", 1, 20_000), 0, 8)
        .unwrap();
    let metrics = processor.get_metrics();
    assert_eq!(metrics.total_processed, 2);
    assert_eq!(metrics.total_latency_ms, 12);
    assert_eq!(metrics.average_latency_ms, 6);
}
