//! The stream processor: per-reading anomaly scoring, window aggregation,
//! metrics, and a recovery breaker over the whole path.
//!
//! Each reading passes the recovery breaker's gate, is validated against
//! the configured thresholds, scored against its sensor's adaptive
//! baseline, folded into its sensor's sliding window, and counted. A
//! malformed reading is reported as an error and counted, never a crash;
//! a reading arriving while the breaker is open is refused and counted
//! apart. The clock is passed in as a millisecond reading; an async shell
//! drives this from its input stream.

use crate::anomaly::{
    baseline_anomalous, baseline_for, baseline_score_centi, baseline_update, model_upsert,
    AnomalyDetector,
};
use crate::breaker::{
    breaker_new_spec, step_can_execute, step_failure, step_success, CircuitBreaker,
};
use crate::metrics::{sat_add_u64, saturating_add};
use crate::reading::{
    config_wf, reading_acceptable, AnomalyDetectionConfig, ProcessedData, ProcessingError,
    ProcessingMetrics, SensorReading,
};
use crate::window::{evict_spec, metrics_of, window_for, WindowAggregator};
use vstd::prelude::*;

verus! {

/// Consecutive failures after which the recovery breaker opens.
pub const STREAM_BREAKER_THRESHOLD: u32 = 5;

/// How long the recovery breaker stays open before a trial reading.
pub const STREAM_BREAKER_RECOVERY_MS: u64 = 60_000;

pub open spec fn stream_metrics_new() -> ProcessingMetrics {
    ProcessingMetrics {
        total_processed: 0,
        anomalies_detected: 0,
        total_latency_ms: 0,
        average_latency_ms: 0,
        error_count: 0,
        circuit_breaker_rejections: 0,
    }
}

/// One successfully processed reading folded into the counters.
pub open spec fn stream_record_ok(
    m: ProcessingMetrics,
    anomaly: bool,
    latency_ms: u64,
) -> ProcessingMetrics {
    let total = sat_add_u64(m.total_processed, 1);
    let lat = sat_add_u64(m.total_latency_ms, latency_ms);
    ProcessingMetrics {
        total_processed: total,
        anomalies_detected: if anomaly {
            sat_add_u64(m.anomalies_detected, 1)
        } else {
            m.anomalies_detected
        },
        total_latency_ms: lat,
        average_latency_ms: (lat as int / total as int) as u64,
        error_count: m.error_count,
        circuit_breaker_rejections: m.circuit_breaker_rejections,
    }
}

/// A malformed reading counted as an error.
pub open spec fn stream_record_error(m: ProcessingMetrics) -> ProcessingMetrics {
    ProcessingMetrics { error_count: sat_add_u64(m.error_count, 1), ..m }
}

/// A reading refused by the open breaker, counted apart from errors.
pub open spec fn stream_record_rejection(m: ProcessingMetrics) -> ProcessingMetrics {
    ProcessingMetrics {
        error_count: sat_add_u64(m.error_count, 1),
        circuit_breaker_rejections: sat_add_u64(m.circuit_breaker_rejections, 1),
        ..m
    }
}

/// What handling one reading does: a breaker rejection, an invalid-input
/// error, or a success carrying the score, the anomaly verdict, the window
/// report and the recorded latency.
pub open spec fn process_reading_post(
    pre: StreamProcessor,
    post: StreamProcessor,
    reading: SensorReading,
    now_ms: u64,
    latency_ms: u64,
    r: Result<ProcessedData, ProcessingError>,
) -> bool {
    let gate = step_can_execute(pre.error_recovery, now_ms);
    if !gate.1 {
        &&& r == Err::<ProcessedData, ProcessingError>(ProcessingError::CircuitBreakerOpen)
        &&& post.error_recovery == gate.0
        &&& post.metrics == stream_record_rejection(pre.metrics)
        &&& post.detector == pre.detector
        &&& post.aggregator == pre.aggregator
    } else if !reading_acceptable(reading, pre.config) {
        &&& r == Err::<ProcessedData, ProcessingError>(ProcessingError::InvalidReading)
        &&& post.error_recovery == step_failure(gate.0, now_ms)
        &&& post.metrics == stream_record_error(pre.metrics)
        &&& post.detector == pre.detector
        &&& post.aggregator == pre.aggregator
    } else {
        let b0 = baseline_for(pre.detector.baseline_models@, reading.sensor_id@);
        let score = baseline_score_centi(b0, reading);
        let anomaly = baseline_anomalous(b0, reading, pre.config.sensitivity_centi);
        let w0 = window_for(pre.aggregator.windows@, reading.sensor_id@);
        let w1 = evict_spec(w0.push(reading), reading.timestamp - pre.config.window_size_seconds);
        &&& r matches Ok(pd) && {
            &&& pd.sensor_reading == reading
            &&& pd.anomaly_score_centi == score
            &&& pd.is_anomaly == anomaly
            &&& pd.aggregated_metrics == Some(metrics_of(w1))
            &&& pd.processing_latency_ms == latency_ms
        }
        &&& post.error_recovery == step_success(gate.0)
        &&& post.metrics == stream_record_ok(pre.metrics, anomaly, latency_ms)
        &&& post.detector.baseline_models@ == model_upsert(
            pre.detector.baseline_models@,
            reading.sensor_id,
            if anomaly && !pre.config.update_baseline_on_anomaly {
                b0
            } else {
                baseline_update(b0, reading)
            },
        )
        &&& window_for(post.aggregator.windows@, reading.sensor_id@) == w1
    }
}

pub struct StreamProcessor {
    pub config: AnomalyDetectionConfig,
    pub metrics: ProcessingMetrics,
    pub detector: AnomalyDetector,
    pub aggregator: WindowAggregator,
    pub error_recovery: CircuitBreaker,
}

impl StreamProcessor {
    pub open spec fn wf(self) -> bool {
        &&& config_wf(self.config)
        &&& self.detector.wf()
        &&& self.detector.config == self.config
        &&& self.aggregator.wf()
        &&& self.aggregator.window_size_seconds == self.config.window_size_seconds
    }

    pub fn new(config: AnomalyDetectionConfig) -> (p: StreamProcessor)
        requires
            config_wf(config),
        ensures
            p.wf(),
            p.config == config,
            p.metrics == stream_metrics_new(),
            p.detector.baseline_models@.len() == 0,
            p.aggregator.windows@.len() == 0,
            p.error_recovery == breaker_new_spec(
                STREAM_BREAKER_THRESHOLD,
                STREAM_BREAKER_RECOVERY_MS,
            ),
    {
        StreamProcessor {
            config,
            metrics: ProcessingMetrics {
                total_processed: 0,
                anomalies_detected: 0,
                total_latency_ms: 0,
                average_latency_ms: 0,
                error_count: 0,
                circuit_breaker_rejections: 0,
            },
            detector: AnomalyDetector::new(config),
            aggregator: WindowAggregator::new(config.window_size_seconds),
            error_recovery: CircuitBreaker::new(
                STREAM_BREAKER_THRESHOLD,
                STREAM_BREAKER_RECOVERY_MS,
            ),
        }
    }

    /// Gate, validate, score, aggregate and count one reading, folding
    /// the shell-measured latency into the counters and the returned data.
    pub fn process_reading_timed(
        &mut self,
        reading: SensorReading,
        now_ms: u64,
        latency_ms: u64,
    ) -> (r: Result<ProcessedData, ProcessingError>)
        requires
            old(self).wf(),
        ensures
            final(self).wf(),
            final(self).config == old(self).config,
            process_reading_post(*old(self), *final(self), reading, now_ms, latency_ms, r),
    {
        let allowed = self.error_recovery.can_execute(now_ms);
        if !allowed {
            self.metrics.error_count = saturating_add(self.metrics.error_count, 1);
            self.metrics.circuit_breaker_rejections = saturating_add(
                self.metrics.circuit_breaker_rejections,
                1,
            );
            return Err(ProcessingError::CircuitBreakerOpen);
        }
        if !reading.is_acceptable(&self.config) {
            self.error_recovery.record_failure(now_ms);
            self.metrics.error_count = saturating_add(self.metrics.error_count, 1);
            return Err(ProcessingError::InvalidReading);
        }
        let (score, is_anomaly) = self.detector.detect_anomaly(&reading);
        let kept = reading.clone();
        let aggregated = self.aggregator.add_reading(reading);
        proof {
            crate::window::lemma_win_find(self.aggregator.windows@, kept.sensor_id@);
        }
        self.error_recovery.record_success();
        let total = saturating_add(self.metrics.total_processed, 1);
        let lat = saturating_add(self.metrics.total_latency_ms, latency_ms);
        if is_anomaly {
            self.metrics.anomalies_detected = saturating_add(self.metrics.anomalies_detected, 1);
        }
        self.metrics.total_processed = total;
        self.metrics.total_latency_ms = lat;
        self.metrics.average_latency_ms = lat / total;
        proof {
            let pre = *old(self);
            let gate = step_can_execute(pre.error_recovery, now_ms);
            let b0 = baseline_for(pre.detector.baseline_models@, kept.sensor_id@);
            let w0 = window_for(pre.aggregator.windows@, kept.sensor_id@);
            let w1 = evict_spec(w0.push(kept), kept.timestamp - pre.config.window_size_seconds);
            let ws_old = pre.aggregator.windows@;
            let ws_new = self.aggregator.windows@;
            let id = kept.sensor_id@;
            crate::window::lemma_win_find(ws_old, id);
            crate::window::lemma_win_find(ws_new, id);
            match crate::window::win_find(ws_old, id) {
                Some(i) => {
                    assert(ws_new[i].0@ == id);
                    match crate::window::win_find(ws_new, id) {
                        Some(j) => {
                            if i < j {
                                assert(ws_new[i].0@ != ws_new[j].0@);
                            } else if j < i {
                                assert(ws_new[j].0@ != ws_new[i].0@);
                            }
                            assert(j == i);
                        },
                        None => {
                            assert(false);
                        },
                    }
                },
                None => {
                    let last = ws_new.len() - 1;
                    assert(ws_new[last].0@ == id);
                    match crate::window::win_find(ws_new, id) {
                        Some(j) => {
                            if j < last {
                                assert(ws_new[j].0@ != ws_new[last].0@);
                            }
                            assert(j == last);
                        },
                        None => {
                            assert(false);
                        },
                    }
                },
            }
            assert(window_for(self.aggregator.windows@, kept.sensor_id@) == w1);
        }
        Ok(ProcessedData {
            sensor_reading: kept,
            anomaly_score_centi: score,
            is_anomaly,
            aggregated_metrics: aggregated,
            processing_latency_ms: latency_ms,
        })
    }

    /// Gate, validate, score, aggregate and count one reading. Latency is
    /// recorded as zero here; a shell that measures it hands the reading
    /// to `process_reading_timed` instead.
    pub fn process_reading(&mut self, reading: SensorReading, now_ms: u64) -> (r: Result<
        ProcessedData,
        ProcessingError,
    >)
        requires
            old(self).wf(),
        ensures
            final(self).wf(),
            final(self).config == old(self).config,
            process_reading_post(*old(self), *final(self), reading, now_ms, 0, r),
    {
        self.process_reading_timed(reading, now_ms, 0)
    }

    /// A point-in-time copy of the counters.
    pub fn get_metrics(&self) -> (m: ProcessingMetrics)
        ensures
            m == self.metrics,
    {
        self.metrics
    }
}

} // verus!
