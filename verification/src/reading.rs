//! The sensor data model for the stream-processing side.
//!
//! Readings carry their numeric fields as scaled integers: temperature,
//! humidity and pressure in thousandths of their unit (milli-units), the
//! location in microdegrees, the battery level in whole percent. The scaled
//! form keeps every statistic exact and every bound checkable.

use vstd::prelude::*;

verus! {

/// The largest magnitude, in milli-units, a tracked reading field may
/// carry; keeps window sums and baseline statistics inside their integer
/// widths.
pub const VALUE_BOUND_MILLI: i64 = 10_000_000;

/// The largest accepted sensitivity, in hundredths of a standard
/// deviation; keeps the anomaly comparison inside its integer width.
pub const SENSITIVITY_CAP_CENTI: u32 = 100_000;

#[derive(Debug, PartialEq, Eq)]
pub struct SensorReading {
    pub sensor_id: String,
    /// Seconds since the epoch of the reading's clock.
    pub timestamp: u64,
    pub temperature_milli: i64,
    pub humidity_milli: i64,
    pub pressure_milli: i64,
    pub latitude_micro: i64,
    pub longitude_micro: i64,
    pub device_id: String,
    pub battery_level_pct: u8,
}

#[derive(Debug, PartialEq, Eq)]
pub struct ProcessedData {
    pub sensor_reading: SensorReading,
    /// Hundredths of the squared anomaly distance (the largest squared
    /// z-score across the tracked fields), saturating at `u64::MAX`.
    pub anomaly_score_centi: u64,
    pub is_anomaly: bool,
    pub aggregated_metrics: Option<AggregatedMetrics>,
    pub processing_latency_ms: u64,
}

#[derive(Clone, Copy, Debug, PartialEq, Eq, Structural)]
pub struct AggregatedMetrics {
    pub avg_temperature_milli: i64,
    pub avg_humidity_milli: i64,
    pub avg_pressure_milli: i64,
    pub reading_count: u64,
    /// The smallest timestamp currently retained in the window.
    pub window_start: u64,
    /// The largest timestamp currently retained in the window.
    pub window_end: u64,
}

#[derive(Clone, Copy, Debug, PartialEq, Eq, Structural)]
pub struct AnomalyDetectionConfig {
    /// Largest accepted magnitude per tracked field; a reading beyond a
    /// threshold is rejected as malformed.
    pub temperature_threshold_milli: i64,
    pub humidity_threshold_milli: i64,
    pub pressure_threshold_milli: i64,
    pub window_size_seconds: u64,
    /// Anomaly sensitivity in hundredths of a standard deviation
    /// (250 reads as 2.5 sigma).
    pub sensitivity_centi: u32,
    /// Whether anomalous readings still update the adaptive baseline. On,
    /// the baseline follows genuine distribution shift; off, it cannot be
    /// poisoned by outliers. Both policies are supported explicitly.
    pub update_baseline_on_anomaly: bool,
}

#[derive(Clone, Copy, Debug, PartialEq, Eq, Structural)]
pub struct ProcessingMetrics {
    pub total_processed: u64,
    pub anomalies_detected: u64,
    pub total_latency_ms: u64,
    pub average_latency_ms: u64,
    pub error_count: u64,
    /// Readings refused by the recovery breaker, counted apart from
    /// processing errors.
    pub circuit_breaker_rejections: u64,
}

#[derive(Debug, Clone, PartialEq, Eq)]
pub enum ProcessingError {
    InvalidReading,
    AnomalyDetectionFailed,
    StorageError,
    CircuitBreakerOpen,
}

/// Configuration sanity: thresholds within the arithmetic bound and the
/// sensitivity within its cap (machine limits of the integer statistics).
pub open spec fn config_wf(c: AnomalyDetectionConfig) -> bool {
    &&& 0 <= c.temperature_threshold_milli <= VALUE_BOUND_MILLI
    &&& 0 <= c.humidity_threshold_milli <= VALUE_BOUND_MILLI
    &&& 0 <= c.pressure_threshold_milli <= VALUE_BOUND_MILLI
    &&& c.sensitivity_centi <= SENSITIVITY_CAP_CENTI
}

/// A reading's tracked fields lie inside the arithmetic bound.
pub open spec fn reading_bounded(r: SensorReading) -> bool {
    &&& -VALUE_BOUND_MILLI <= r.temperature_milli <= VALUE_BOUND_MILLI
    &&& -VALUE_BOUND_MILLI <= r.humidity_milli <= VALUE_BOUND_MILLI
    &&& -VALUE_BOUND_MILLI <= r.pressure_milli <= VALUE_BOUND_MILLI
}

/// A reading's tracked fields lie inside the configured thresholds.
pub open spec fn reading_acceptable(r: SensorReading, c: AnomalyDetectionConfig) -> bool {
    &&& -c.temperature_threshold_milli <= r.temperature_milli <= c.temperature_threshold_milli
    &&& -c.humidity_threshold_milli <= r.humidity_milli <= c.humidity_threshold_milli
    &&& -c.pressure_threshold_milli <= r.pressure_milli <= c.pressure_threshold_milli
}

impl Clone for SensorReading {
    /// An exact copy: every field of the copy equals the original's.
    fn clone(&self) -> (r: SensorReading)
        ensures
            r == *self,
    {
        SensorReading {
            sensor_id: self.sensor_id.clone(),
            timestamp: self.timestamp,
            temperature_milli: self.temperature_milli,
            humidity_milli: self.humidity_milli,
            pressure_milli: self.pressure_milli,
            latitude_micro: self.latitude_micro,
            longitude_micro: self.longitude_micro,
            device_id: self.device_id.clone(),
            battery_level_pct: self.battery_level_pct,
        }
    }
}

impl SensorReading {
    /// The configured admission check as executable code.
    pub fn is_acceptable(&self, config: &AnomalyDetectionConfig) -> (r: bool)
        requires
            config_wf(*config),
        ensures
            r == reading_acceptable(*self, *config),
            r ==> reading_bounded(*self),
    {
        -config.temperature_threshold_milli <= self.temperature_milli
            && self.temperature_milli <= config.temperature_threshold_milli
            && -config.humidity_threshold_milli <= self.humidity_milli
            && self.humidity_milli <= config.humidity_threshold_milli
            && -config.pressure_threshold_milli <= self.pressure_milli
            && self.pressure_milli <= config.pressure_threshold_milli
    }
}

} // verus!
