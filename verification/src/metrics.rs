//! Throughput and latency counters for the processing engine.
//!
//! The counters are held behind the engine's exclusive-access discipline, so
//! recording is a plain deterministic update. Counter arithmetic saturates:
//! a counter that has reached its ceiling stays there rather than wrapping.

use vstd::prelude::*;

verus! {

pub struct PerformanceMetrics {
    /// Events for which a processing attempt finished (successes, failures,
    /// drops for want of a processor, and breaker rejections alike).
    pub events_processed: u64,
    /// Attempts that ended in failure, including drops and breaker rejections.
    pub events_failed: u64,
    /// Of the failures, those refused by an open circuit breaker, so that a
    /// processor that errors can be told apart from one that is unavailable.
    pub circuit_breaker_rejections: u64,
    pub total_processing_time_ns: u64,
    pub max_processing_time_ns: u64,
    /// Meaningful only once `events_processed > 0`.
    pub min_processing_time_ns: u64,
    /// Gauge: events per second over the recorded processing time.
    pub throughput_per_second: u64,
    /// The highest value `throughput_per_second` has held.
    pub peak_throughput_per_second: u64,
}

#[derive(Clone, Copy, Debug, PartialEq, Eq, Structural)]
pub struct MetricsSummary {
    pub total_events: u64,
    pub total_failures: u64,
    pub circuit_breaker_rejections: u64,
    /// Successful share of all attempts, in parts per million.
    pub success_rate_ppm: u64,
    pub avg_processing_time_ns: u64,
    pub current_throughput: u64,
    pub peak_throughput: u64,
}

pub open spec fn sat_add_u64(a: u64, b: u64) -> u64 {
    if a + b > u64::MAX {
        u64::MAX
    } else {
        (a + b) as u64
    }
}

/// Events per second implied by `events` attempts over `total_ns`
/// nanoseconds of processing time; zero while nothing was timed.
pub open spec fn throughput_spec(events: u64, total_ns: u64) -> u64 {
    if total_ns == 0 {
        0
    } else if events * 1_000_000_000 / (total_ns as int) > u64::MAX {
        u64::MAX
    } else {
        (events * 1_000_000_000 / (total_ns as int)) as u64
    }
}

pub open spec fn metrics_new_spec() -> PerformanceMetrics {
    PerformanceMetrics {
        events_processed: 0,
        events_failed: 0,
        circuit_breaker_rejections: 0,
        total_processing_time_ns: 0,
        max_processing_time_ns: 0,
        min_processing_time_ns: 0,
        throughput_per_second: 0,
        peak_throughput_per_second: 0,
    }
}

/// One recorded attempt: counters rise, the extrema fold in the new timing,
/// and the throughput gauge is refreshed.
pub open spec fn record_spec(m: PerformanceMetrics, processing_time_ns: u64, success: bool) -> PerformanceMetrics {
    let events = sat_add_u64(m.events_processed, 1);
    let failed = if success { m.events_failed } else { sat_add_u64(m.events_failed, 1) };
    let total = sat_add_u64(m.total_processing_time_ns, processing_time_ns);
    let max = if processing_time_ns > m.max_processing_time_ns { processing_time_ns } else { m.max_processing_time_ns };
    let min = if m.events_processed == 0 || processing_time_ns < m.min_processing_time_ns {
        processing_time_ns
    } else {
        m.min_processing_time_ns
    };
    let gauge = throughput_spec(events, total);
    PerformanceMetrics {
        events_processed: events,
        events_failed: failed,
        circuit_breaker_rejections: m.circuit_breaker_rejections,
        total_processing_time_ns: total,
        max_processing_time_ns: max,
        min_processing_time_ns: min,
        throughput_per_second: gauge,
        peak_throughput_per_second: if gauge > m.peak_throughput_per_second { gauge } else { m.peak_throughput_per_second },
    }
}

/// A breaker rejection: the attempt is counted as processed and failed,
/// the rejection counted apart, and no timing is folded in.
pub open spec fn record_rejection_spec(m: PerformanceMetrics) -> PerformanceMetrics {
    PerformanceMetrics {
        events_processed: sat_add_u64(m.events_processed, 1),
        events_failed: sat_add_u64(m.events_failed, 1),
        circuit_breaker_rejections: sat_add_u64(m.circuit_breaker_rejections, 1),
        ..m
    }
}

/// The point-in-time snapshot: exact counters plus the derived averages.
pub open spec fn summary_spec(m: PerformanceMetrics) -> MetricsSummary {
    let successes = if m.events_failed > m.events_processed {
        0
    } else {
        (m.events_processed - m.events_failed) as u64
    };
    MetricsSummary {
        total_events: m.events_processed,
        total_failures: m.events_failed,
        circuit_breaker_rejections: m.circuit_breaker_rejections,
        success_rate_ppm: if m.events_processed == 0 {
            0
        } else {
            (successes * 1_000_000 / (m.events_processed as int)) as u64
        },
        avg_processing_time_ns: if m.events_processed == 0 {
            0
        } else {
            (m.total_processing_time_ns as int / m.events_processed as int) as u64
        },
        current_throughput: m.throughput_per_second,
        peak_throughput: m.peak_throughput_per_second,
    }
}

pub(crate) fn saturating_add(a: u64, b: u64) -> (r: u64)
    ensures
        r == sat_add_u64(a, b),
{
    if a > u64::MAX - b {
        u64::MAX
    } else {
        a + b
    }
}

fn throughput_of(events: u64, total_ns: u64) -> (r: u64)
    ensures
        r == throughput_spec(events, total_ns),
{
    if total_ns == 0 {
        0
    } else {
        let wide: u128 = (events as u128) * 1_000_000_000u128 / (total_ns as u128);
        if wide > u64::MAX as u128 {
            u64::MAX
        } else {
            wide as u64
        }
    }
}

impl PerformanceMetrics {
    pub fn new() -> (m: PerformanceMetrics)
        ensures
            m == metrics_new_spec(),
    {
        PerformanceMetrics {
            events_processed: 0,
            events_failed: 0,
            circuit_breaker_rejections: 0,
            total_processing_time_ns: 0,
            max_processing_time_ns: 0,
            min_processing_time_ns: 0,
            throughput_per_second: 0,
            peak_throughput_per_second: 0,
        }
    }

    /// Fold one finished processing attempt into the counters.
    pub fn record_processing(&mut self, processing_time_ns: u64, success: bool)
        ensures
            *final(self) == record_spec(*old(self), processing_time_ns, success),
    {
        let events = saturating_add(self.events_processed, 1);
        if !success {
            self.events_failed = saturating_add(self.events_failed, 1);
        }
        let total = saturating_add(self.total_processing_time_ns, processing_time_ns);
        if processing_time_ns > self.max_processing_time_ns {
            self.max_processing_time_ns = processing_time_ns;
        }
        if self.events_processed == 0 || processing_time_ns < self.min_processing_time_ns {
            self.min_processing_time_ns = processing_time_ns;
        }
        self.events_processed = events;
        self.total_processing_time_ns = total;
        let gauge = throughput_of(events, total);
        self.throughput_per_second = gauge;
        if gauge > self.peak_throughput_per_second {
            self.peak_throughput_per_second = gauge;
        }
    }

    /// Count an attempt refused by an open circuit breaker.
    pub fn record_breaker_rejection(&mut self)
        ensures
            *final(self) == record_rejection_spec(*old(self)),
    {
        self.events_processed = saturating_add(self.events_processed, 1);
        self.events_failed = saturating_add(self.events_failed, 1);
        self.circuit_breaker_rejections = saturating_add(self.circuit_breaker_rejections, 1);
    }

    /// A point-in-time snapshot; reads the counters and nothing else.
    pub fn get_summary(&self) -> (s: MetricsSummary)
        ensures
            s == summary_spec(*self),
    {
        let successes = if self.events_failed > self.events_processed {
            0
        } else {
            self.events_processed - self.events_failed
        };
        let rate: u64 = if self.events_processed == 0 {
            0
        } else {
            let wide: u128 = (successes as u128) * 1_000_000u128 / (self.events_processed as u128);
            wide as u64
        };
        MetricsSummary {
            total_events: self.events_processed,
            total_failures: self.events_failed,
            circuit_breaker_rejections: self.circuit_breaker_rejections,
            success_rate_ppm: rate,
            avg_processing_time_ns: if self.events_processed == 0 {
                0
            } else {
                self.total_processing_time_ns / self.events_processed
            },
            current_throughput: self.throughput_per_second,
            peak_throughput: self.peak_throughput_per_second,
        }
    }
}

/// Law: while no failure has been recorded, the snapshot reports a full
/// success rate — one million parts per million.
pub proof fn lemma_all_success_rate(m: PerformanceMetrics)
    requires
        m.events_failed == 0,
        m.events_processed > 0,
    ensures
        summary_spec(m).success_rate_ppm == 1_000_000,
{
    vstd::arithmetic::div_mod::lemma_div_by_multiple(1_000_000, m.events_processed as int);
}

/// Law: the snapshot is a function of the counters alone, so two snapshots
/// taken with no recording in between are identical.
pub proof fn lemma_metrics_snapshot_idempotent(m: PerformanceMetrics, s1: MetricsSummary, s2: MetricsSummary)
    requires
        s1 == summary_spec(m),
        s2 == summary_spec(m),
    ensures
        s1 == s2,
{
}

} // verus!
