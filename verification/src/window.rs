//! Per-sensor sliding windows and their aggregated statistics.
//!
//! Each sensor key keeps the ordered sequence of its recent readings.
//! Adding a reading appends it, evicts from the front every reading older
//! than `now - window_size` (with `now` the new reading's timestamp), and
//! reports the averages, count and time bounds of what remains. The new
//! reading always survives its own eviction, so a report is always
//! returned.

use crate::reading::{
    reading_bounded, AggregatedMetrics, SensorReading, VALUE_BOUND_MILLI,
};
use vstd::arithmetic::div_mod::{
    lemma_div_by_multiple, lemma_div_is_ordered, lemma_div_pos_is_pos,
};
use vstd::prelude::*;

verus! {

/// Truncating (round-toward-zero) signed division, as the machine does it.
pub open spec fn trunc_div(a: int, b: int) -> int {
    if a >= 0 {
        a / b
    } else {
        -((-a) / b)
    }
}

/// Drop stale readings from the front: every leading reading with a
/// timestamp before `cutoff` is evicted.
pub open spec fn evict_spec(w: Seq<SensorReading>, cutoff: int) -> Seq<SensorReading>
    decreases w.len(),
{
    if w.len() == 0 {
        w
    } else if w[0].timestamp < cutoff {
        evict_spec(w.drop_first(), cutoff)
    } else {
        w
    }
}

pub open spec fn sum_temp_prefix(w: Seq<SensorReading>, k: int) -> int
    decreases k,
{
    if k <= 0 {
        0
    } else {
        sum_temp_prefix(w, k - 1) + w[k - 1].temperature_milli
    }
}

pub open spec fn sum_hum_prefix(w: Seq<SensorReading>, k: int) -> int
    decreases k,
{
    if k <= 0 {
        0
    } else {
        sum_hum_prefix(w, k - 1) + w[k - 1].humidity_milli
    }
}

pub open spec fn sum_pres_prefix(w: Seq<SensorReading>, k: int) -> int
    decreases k,
{
    if k <= 0 {
        0
    } else {
        sum_pres_prefix(w, k - 1) + w[k - 1].pressure_milli
    }
}

pub open spec fn min_ts_prefix(w: Seq<SensorReading>, k: int) -> int
    decreases k,
{
    if k <= 1 {
        w[0].timestamp as int
    } else if (w[k - 1].timestamp as int) < min_ts_prefix(w, k - 1) {
        w[k - 1].timestamp as int
    } else {
        min_ts_prefix(w, k - 1)
    }
}

pub open spec fn max_ts_prefix(w: Seq<SensorReading>, k: int) -> int
    decreases k,
{
    if k <= 1 {
        w[0].timestamp as int
    } else if (w[k - 1].timestamp as int) > max_ts_prefix(w, k - 1) {
        w[k - 1].timestamp as int
    } else {
        max_ts_prefix(w, k - 1)
    }
}

/// The report over a non-empty window: per-field averages (truncating
/// division), the count, and the retained time bounds.
pub open spec fn metrics_of(w: Seq<SensorReading>) -> AggregatedMetrics {
    AggregatedMetrics {
        avg_temperature_milli: trunc_div(sum_temp_prefix(w, w.len() as int), w.len() as int) as i64,
        avg_humidity_milli: trunc_div(sum_hum_prefix(w, w.len() as int), w.len() as int) as i64,
        avg_pressure_milli: trunc_div(sum_pres_prefix(w, w.len() as int), w.len() as int) as i64,
        reading_count: w.len() as u64,
        window_start: min_ts_prefix(w, w.len() as int) as u64,
        window_end: max_ts_prefix(w, w.len() as int) as u64,
    }
}

pub open spec fn window_bounded(w: Seq<SensorReading>) -> bool {
    forall|i: int| 0 <= i < w.len() ==> reading_bounded(#[trigger] w[i])
}

/// The index of the window for sensor `id`, if one exists.
pub open spec fn win_find(ws: Seq<(String, Vec<SensorReading>)>, id: Seq<char>) -> Option<int>
    decreases ws.len(),
{
    if ws.len() == 0 {
        None
    } else if ws[0].0@ == id {
        Some(0)
    } else {
        match win_find(ws.drop_first(), id) {
            Some(i) => Some(i + 1),
            None => None,
        }
    }
}

pub proof fn lemma_win_find(ws: Seq<(String, Vec<SensorReading>)>, id: Seq<char>)
    ensures
        match win_find(ws, id) {
            Some(i) => 0 <= i < ws.len() && ws[i].0@ == id,
            None => forall|j: int| 0 <= j < ws.len() ==> ws[j].0@ != id,
        },
    decreases ws.len(),
{
    if ws.len() > 0 && ws[0].0@ != id {
        lemma_win_find(ws.drop_first(), id);
        match win_find(ws.drop_first(), id) {
            Some(i) => {
                assert(ws.drop_first()[i] == ws[i + 1]);
            },
            None => {
                assert forall|j: int| 0 <= j < ws.len() implies ws[j].0@ != id by {
                    if j >= 1 {
                        assert(ws.drop_first()[j - 1] == ws[j]);
                    }
                }
            },
        }
    }
}

/// The retained readings of sensor `id`, or the empty window.
pub open spec fn window_for(ws: Seq<(String, Vec<SensorReading>)>, id: Seq<char>) -> Seq<
    SensorReading,
> {
    match win_find(ws, id) {
        Some(i) => ws[i].1@,
        None => Seq::empty(),
    }
}

pub struct WindowAggregator {
    pub window_size_seconds: u64,
    pub windows: Vec<(String, Vec<SensorReading>)>,
}

impl WindowAggregator {
    /// Keys unique and every retained reading within the value bound.
    pub open spec fn wf(self) -> bool {
        &&& forall|i: int, j: int|
            0 <= i < j < self.windows@.len() ==> self.windows@[i].0@ != self.windows@[j].0@
        &&& forall|i: int|
            0 <= i < self.windows@.len() ==> window_bounded(#[trigger] self.windows@[i].1@)
    }

    pub fn new(window_size_seconds: u64) -> (w: WindowAggregator)
        ensures
            w.wf(),
            w.window_size_seconds == window_size_seconds,
            w.windows@ == Seq::<(String, Vec<SensorReading>)>::empty(),
    {
        WindowAggregator { window_size_seconds, windows: Vec::new() }
    }

    fn find_window(&self, id: &String) -> (r: Option<usize>)
        ensures
            match r {
                Some(i) => win_find(self.windows@, id@) == Some(i as int),
                None => win_find(self.windows@, id@) is None,
            },
    {
        let ws = &self.windows;
        let mut i: usize = 0;
        proof {
            assert(ws@.skip(0) =~= ws@);
        }
        while i < ws.len()
            invariant
                i <= ws@.len(),
                ws == &self.windows,
                win_find(ws@, id@) == match win_find(ws@.skip(i as int), id@) {
                    Some(k) => Some(k + i),
                    None => None::<int>,
                },
            decreases ws@.len() - i,
        {
            proof {
                assert(ws@.skip(i as int)[0] == ws@[i as int]);
            }
            if ws[i].0 == *id {
                return Some(i);
            }
            proof {
                assert(ws@.skip(i as int).drop_first() =~= ws@.skip(i as int + 1));
            }
            i += 1;
        }
        proof {
            assert(ws@.skip(ws@.len() as int).len() == 0);
        }
        None
    }

    /// Append `reading` to its sensor's window, evict everything older
    /// than `reading.timestamp - window_size`, and report the window's
    /// aggregated statistics. The fresh reading always survives, so the
    /// report is always returned.
    pub fn add_reading(&mut self, reading: SensorReading) -> (r: Option<AggregatedMetrics>)
        requires
            old(self).wf(),
            reading_bounded(reading),
        ensures
            final(self).wf(),
            final(self).window_size_seconds == old(self).window_size_seconds,
            ({
                let w0 = window_for(old(self).windows@, reading.sensor_id@);
                let cutoff = reading.timestamp - old(self).window_size_seconds;
                let w1 = evict_spec(w0.push(reading), cutoff);
                &&& r == Some(metrics_of(w1))
                &&& w1.len() >= 1
                &&& match win_find(old(self).windows@, reading.sensor_id@) {
                    Some(i) => {
                        &&& final(self).windows@.len() == old(self).windows@.len()
                        &&& final(self).windows@[i].0 == old(self).windows@[i].0
                        &&& final(self).windows@[i].1@ == w1
                        &&& forall|j: int|
                            0 <= j < old(self).windows@.len() && j != i
                                ==> final(self).windows@[j] == old(self).windows@[j]
                    },
                    None => {
                        &&& final(self).windows@.len() == old(self).windows@.len() + 1
                        &&& final(self).windows@.last().0@ == reading.sensor_id@
                        &&& final(self).windows@.last().1@ == w1
                        &&& forall|j: int|
                            0 <= j < old(self).windows@.len()
                                ==> final(self).windows@[j] == old(self).windows@[j]
                    },
                }
            }),
    {
        proof {
            lemma_win_find(self.windows@, reading.sensor_id@);
        }
        let cutoff: u64 = if reading.timestamp >= self.window_size_seconds {
            reading.timestamp - self.window_size_seconds
        } else {
            0
        };
        let ghost spec_cutoff: int = reading.timestamp - self.window_size_seconds;
        let found = self.find_window(&reading.sensor_id);
        let (key, mut window) = match found {
            Some(i) => self.windows.remove(i),
            None => (reading.sensor_id.clone(), Vec::new()),
        };
        let ghost w_full = window@.push(reading);
        window.push(reading);
        while window.len() > 0 && window[0].timestamp < cutoff
            invariant
                window@.len() >= 1,
                window@.last() == reading,
                window_bounded(w_full),
                window_bounded(window@),
                evict_spec(w_full, spec_cutoff) == evict_spec(window@, spec_cutoff),
                reading.timestamp >= cutoff,
                cutoff == if spec_cutoff >= 0 {
                    spec_cutoff
                } else {
                    0
                },
            decreases window@.len(),
        {
            proof {
                assert(window@[0].timestamp < spec_cutoff);
                assert(window@.len() >= 2) by {
                    if window@.len() == 1 {
                        assert(window@[0] == window@.last());
                    }
                }
            }
            let _ = window.remove(0);
        }
        proof {
            assert(evict_spec(window@, spec_cutoff) == window@);
        }
        let report = Self::calculate_metrics(&window);
        match found {
            Some(i) => {
                self.windows.insert(i, (key, window));
                proof {
                    assert forall|a: int, b: int|
                        0 <= a < b < self.windows@.len() implies self.windows@[a].0@
                        != self.windows@[b].0@ by {
                        assert(old(self).windows@[a].0@ != old(self).windows@[b].0@);
                    }
                }
            },
            None => {
                self.windows.push((key, window));
                proof {
                    let ws = self.windows@;
                    assert forall|a: int, b: int|
                        0 <= a < b < ws.len() implies ws[a].0@ != ws[b].0@ by {
                        if b == ws.len() - 1 {
                            assert(old(self).windows@[a] == ws[a]);
                        }
                    }
                }
            },
        }
        Some(report)
    }

    /// The averages, count and time bounds of a non-empty window.
    fn calculate_metrics(window: &Vec<SensorReading>) -> (m: AggregatedMetrics)
        requires
            window@.len() >= 1,
            window_bounded(window@),
        ensures
            m == metrics_of(window@),
    {
        let n = window.len();
        let mut sum_t: i128 = window[0].temperature_milli as i128;
        let mut sum_h: i128 = window[0].humidity_milli as i128;
        let mut sum_p: i128 = window[0].pressure_milli as i128;
        let mut min_ts: u64 = window[0].timestamp;
        let mut max_ts: u64 = window[0].timestamp;
        let mut k: usize = 1;
        proof {
            assert(sum_temp_prefix(window@, 0) == 0);
            assert(sum_hum_prefix(window@, 0) == 0);
            assert(sum_pres_prefix(window@, 0) == 0);
        }
        while k < n
            invariant
                1 <= k <= n,
                n == window@.len(),
                window_bounded(window@),
                sum_t == sum_temp_prefix(window@, k as int),
                sum_h == sum_hum_prefix(window@, k as int),
                sum_p == sum_pres_prefix(window@, k as int),
                min_ts == min_ts_prefix(window@, k as int),
                max_ts == max_ts_prefix(window@, k as int),
                -(k * VALUE_BOUND_MILLI) <= sum_t <= k * VALUE_BOUND_MILLI,
                -(k * VALUE_BOUND_MILLI) <= sum_h <= k * VALUE_BOUND_MILLI,
                -(k * VALUE_BOUND_MILLI) <= sum_p <= k * VALUE_BOUND_MILLI,
            decreases n - k,
        {
            let r = &window[k];
            sum_t = sum_t + r.temperature_milli as i128;
            sum_h = sum_h + r.humidity_milli as i128;
            sum_p = sum_p + r.pressure_milli as i128;
            if r.timestamp < min_ts {
                min_ts = r.timestamp;
            }
            if r.timestamp > max_ts {
                max_ts = r.timestamp;
            }
            k += 1;
        }
        AggregatedMetrics {
            avg_temperature_milli: Self::average(sum_t, n),
            avg_humidity_milli: Self::average(sum_h, n),
            avg_pressure_milli: Self::average(sum_p, n),
            reading_count: n as u64,
            window_start: min_ts,
            window_end: max_ts,
        }
    }

    /// Truncating average of a bounded sum.
    fn average(sum: i128, count: usize) -> (a: i64)
        requires
            count >= 1,
            -(count * VALUE_BOUND_MILLI) <= sum <= count * VALUE_BOUND_MILLI,
        ensures
            a == trunc_div(sum as int, count as int),
            -VALUE_BOUND_MILLI <= a <= VALUE_BOUND_MILLI,
    {
        let c = count as i128;
        if sum >= 0 {
            let q = sum / c;
            proof {
                lemma_div_pos_is_pos(sum as int, c as int);
                lemma_div_is_ordered(sum as int, count * VALUE_BOUND_MILLI, c as int);
                lemma_div_by_multiple(VALUE_BOUND_MILLI as int, c as int);
                assert(count * VALUE_BOUND_MILLI == (VALUE_BOUND_MILLI as int) * (c as int));
            }
            q as i64
        } else {
            let neg = -sum;
            let q = neg / c;
            proof {
                lemma_div_pos_is_pos(neg as int, c as int);
                lemma_div_is_ordered(neg as int, count * VALUE_BOUND_MILLI, c as int);
                lemma_div_by_multiple(VALUE_BOUND_MILLI as int, c as int);
                assert(count * VALUE_BOUND_MILLI == (VALUE_BOUND_MILLI as int) * (c as int));
            }
            -(q as i64)
        }
    }
}

/// A window whose readings arrived in timestamp order.
pub open spec fn sorted_by_ts(w: Seq<SensorReading>) -> bool {
    forall|i: int, j: int| 0 <= i <= j < w.len() ==> w[i].timestamp <= w[j].timestamp
}

/// Law: on a timestamp-ordered window, eviction keeps exactly the readings
/// within the window span — what remains is a suffix, everything dropped
/// is older than the cutoff, and everything retained is at or after it.
pub proof fn lemma_evict_exact(w: Seq<SensorReading>, cutoff: int)
    requires
        sorted_by_ts(w),
    ensures
        ({
            let kept = evict_spec(w, cutoff);
            let k = w.len() - kept.len();
            &&& 0 <= k <= w.len()
            &&& kept =~= w.skip(k as int)
            &&& forall|j: int| 0 <= j < k ==> w[j].timestamp < cutoff
            &&& forall|j: int| k <= j < w.len() ==> w[j].timestamp >= cutoff
        }),
    decreases w.len(),
{
    if w.len() == 0 {
        assert(evict_spec(w, cutoff) =~= w.skip(0));
    } else if w[0].timestamp < cutoff {
        assert forall|i: int, j: int|
            0 <= i <= j < w.drop_first().len() implies w.drop_first()[i].timestamp
            <= w.drop_first()[j].timestamp by {
            assert(w.drop_first()[i] == w[i + 1]);
            assert(w.drop_first()[j] == w[j + 1]);
        }
        lemma_evict_exact(w.drop_first(), cutoff);
        let kept = evict_spec(w, cutoff);
        let k = w.len() - kept.len();
        assert(w.drop_first().skip((k - 1) as int) =~= w.skip(k as int));
        assert forall|j: int| 0 <= j < k implies w[j].timestamp < cutoff by {
            if j >= 1 {
                assert(w.drop_first()[j - 1] == w[j]);
            }
        }
        assert forall|j: int| k <= j < w.len() implies w[j].timestamp >= cutoff by {
            assert(w.drop_first()[j - 1] == w[j]);
        }
    } else {
        assert(evict_spec(w, cutoff) =~= w.skip(0));
    }
}

} // verus!
