//! Per-sensor adaptive baselines and anomaly scoring.
//!
//! Each sensor key carries a running baseline of its tracked fields: the
//! sample count and, per field, the sum and sum of squares of the scaled
//! values. From those the squared z-score of a fresh value is a ratio of
//! integers, so scoring needs no rounding: with `n` samples, sum `s` and
//! sum of squares `q`, the squared z-score of value `v` is
//! `(n*v - s)^2 / (n*q - s^2)`, and `z > sensitivity` is decided by cross
//! multiplication. A baseline younger than a few samples flags nothing;
//! a baseline at its sample cap stops adapting and judges against what it
//! has learned.

use crate::reading::{
    config_wf, reading_bounded, AnomalyDetectionConfig, SensorReading, SENSITIVITY_CAP_CENTI,
    VALUE_BOUND_MILLI,
};
use vstd::prelude::*;

verus! {

/// Samples a baseline needs before it flags anomalies.
pub const MIN_BASELINE_SAMPLES: u32 = 3;

/// Samples after which a baseline stops updating (keeps sums bounded).
pub const BASELINE_SAMPLE_CAP: u32 = 1_000_000;

/// Running statistics of one tracked field.
#[derive(Clone, Copy, Debug, PartialEq, Eq, Structural)]
pub struct FieldBaseline {
    pub sum_milli: i128,
    pub sum_sq: i128,
}

/// The per-sensor baseline model.
#[derive(Clone, Copy, Debug, PartialEq, Eq, Structural)]
pub struct BaselineModel {
    pub sample_count: u32,
    pub temperature: FieldBaseline,
    pub humidity: FieldBaseline,
    pub pressure: FieldBaseline,
}

pub open spec fn fb_wf(fb: FieldBaseline, n: nat) -> bool {
    &&& -(n * VALUE_BOUND_MILLI) <= fb.sum_milli <= n * VALUE_BOUND_MILLI
    &&& 0 <= fb.sum_sq <= n * VALUE_BOUND_MILLI * VALUE_BOUND_MILLI
}

pub open spec fn baseline_wf(b: BaselineModel) -> bool {
    &&& b.sample_count <= BASELINE_SAMPLE_CAP
    &&& fb_wf(b.temperature, b.sample_count as nat)
    &&& fb_wf(b.humidity, b.sample_count as nat)
    &&& fb_wf(b.pressure, b.sample_count as nat)
}

pub open spec fn baseline_new_spec() -> BaselineModel {
    BaselineModel {
        sample_count: 0,
        temperature: FieldBaseline { sum_milli: 0, sum_sq: 0 },
        humidity: FieldBaseline { sum_milli: 0, sum_sq: 0 },
        pressure: FieldBaseline { sum_milli: 0, sum_sq: 0 },
    }
}

pub open spec fn fb_update(fb: FieldBaseline, v: i64) -> FieldBaseline {
    FieldBaseline {
        sum_milli: (fb.sum_milli + v) as i128,
        sum_sq: (fb.sum_sq + v * v) as i128,
    }
}

/// One reading folded into a baseline; a baseline at the sample cap is
/// frozen.
pub open spec fn baseline_update(b: BaselineModel, r: SensorReading) -> BaselineModel {
    if b.sample_count < BASELINE_SAMPLE_CAP {
        BaselineModel {
            sample_count: (b.sample_count + 1) as u32,
            temperature: fb_update(b.temperature, r.temperature_milli),
            humidity: fb_update(b.humidity, r.humidity_milli),
            pressure: fb_update(b.pressure, r.pressure_milli),
        }
    } else {
        b
    }
}

/// `(n*v - sum)^2`: the squared deviation of `v` from the baseline mean,
/// scaled by `n^2`.
pub open spec fn field_dev_sq(n: nat, fb: FieldBaseline, v: i64) -> int {
    (n * v - fb.sum_milli) * (n * v - fb.sum_milli)
}

/// `n * sumsq - sum^2`: the baseline variance, scaled by `n^2`.
pub open spec fn field_var_num(n: nat, fb: FieldBaseline) -> int {
    n * fb.sum_sq - fb.sum_milli * fb.sum_milli
}

/// Whether `v` deviates from the field's baseline by more than
/// `s_centi/100` standard deviations. An immature baseline flags nothing;
/// a degenerate (zero-variance) baseline flags any deviation at all.
pub open spec fn field_anomalous(n: nat, fb: FieldBaseline, v: i64, s_centi: u32) -> bool {
    if n < MIN_BASELINE_SAMPLES {
        false
    } else if field_var_num(n, fb) <= 0 {
        field_dev_sq(n, fb, v) > 0
    } else {
        10_000 * field_dev_sq(n, fb, v) > s_centi * s_centi * field_var_num(n, fb)
    }
}

/// The squared z-score of `v` against the field's baseline, in hundredths,
/// saturating at `u64::MAX`.
pub open spec fn field_score_centi(n: nat, fb: FieldBaseline, v: i64) -> u64 {
    if n < MIN_BASELINE_SAMPLES {
        0
    } else if field_var_num(n, fb) <= 0 {
        if field_dev_sq(n, fb, v) == 0 {
            0
        } else {
            u64::MAX
        }
    } else {
        let sc = 100 * field_dev_sq(n, fb, v) / field_var_num(n, fb);
        if sc > u64::MAX {
            u64::MAX
        } else {
            sc as u64
        }
    }
}

pub open spec fn max_u64(a: u64, b: u64) -> u64 {
    if a >= b {
        a
    } else {
        b
    }
}

/// The reading's anomaly score: the largest per-field score.
pub open spec fn baseline_score_centi(b: BaselineModel, r: SensorReading) -> u64 {
    max_u64(
        field_score_centi(b.sample_count as nat, b.temperature, r.temperature_milli),
        max_u64(
            field_score_centi(b.sample_count as nat, b.humidity, r.humidity_milli),
            field_score_centi(b.sample_count as nat, b.pressure, r.pressure_milli),
        ),
    )
}

/// Whether any tracked field deviates beyond the sensitivity.
pub open spec fn baseline_anomalous(b: BaselineModel, r: SensorReading, s_centi: u32) -> bool {
    ||| field_anomalous(b.sample_count as nat, b.temperature, r.temperature_milli, s_centi)
    ||| field_anomalous(b.sample_count as nat, b.humidity, r.humidity_milli, s_centi)
    ||| field_anomalous(b.sample_count as nat, b.pressure, r.pressure_milli, s_centi)
}

/// Score one field and decide the sensitivity comparison.
fn field_eval(n: u32, fb: &FieldBaseline, v: i64, s_centi: u32) -> (r: (u64, bool))
    requires
        n <= BASELINE_SAMPLE_CAP,
        fb_wf(*fb, n as nat),
        -VALUE_BOUND_MILLI <= v <= VALUE_BOUND_MILLI,
        s_centi <= SENSITIVITY_CAP_CENTI,
    ensures
        r.0 == field_score_centi(n as nat, *fb, v),
        r.1 == field_anomalous(n as nat, *fb, v, s_centi),
{
    if n < MIN_BASELINE_SAMPLES {
        return (0, false);
    }
    let n_w: i128 = n as i128;
    let v_w: i128 = v as i128;
    proof {
        assert(-10_000_000_000_000i128 <= n_w * v_w <= 10_000_000_000_000i128)
            by (nonlinear_arith)
            requires
                0 <= n_w <= 1_000_000,
                -10_000_000 <= v_w <= 10_000_000,
        ;
    }
    let dev: i128 = n_w * v_w - fb.sum_milli;
    proof {
        assert(dev * dev <= 400_000_000_000_000_000_000_000_000i128 && dev * dev >= 0)
            by (nonlinear_arith)
            requires
                -20_000_000_000_000i128 <= dev <= 20_000_000_000_000i128,
        ;
    }
    let dev_sq: i128 = dev * dev;
    proof {
        assert(0 <= n_w * fb.sum_sq <= 100_000_000_000_000_000_000_000_000i128)
            by (nonlinear_arith)
            requires
                0 <= n_w <= 1_000_000,
                0 <= fb.sum_sq <= 100_000_000_000_000_000_000i128,
        ;
        assert(0 <= fb.sum_milli * fb.sum_milli <= 100_000_000_000_000_000_000_000_000i128)
            by (nonlinear_arith)
            requires
                -10_000_000_000_000i128 <= fb.sum_milli <= 10_000_000_000_000i128,
        ;
    }
    let var_num: i128 = n_w * fb.sum_sq - fb.sum_milli * fb.sum_milli;
    if var_num <= 0 {
        if dev_sq == 0 {
            (0, false)
        } else {
            (u64::MAX, true)
        }
    } else {
        let s_w: i128 = s_centi as i128;
        proof {
            assert(0 <= s_w * s_w <= 10_000_000_000i128)
                by (nonlinear_arith)
                requires
                    0 <= s_w <= 100_000,
            ;
            assert(s_w * s_w * var_num <= 10_000_000_000i128 * 200_000_000_000_000_000_000_000_000i128)
                by (nonlinear_arith)
                requires
                    0 <= s_w * s_w <= 10_000_000_000i128,
                    0 < var_num <= 200_000_000_000_000_000_000_000_000i128,
            ;
            assert(s_w * s_w * var_num >= 0)
                by (nonlinear_arith)
                requires
                    0 <= s_w * s_w,
                    0 < var_num,
            ;
        }
        let lhs: i128 = 10_000 * dev_sq;
        let rhs: i128 = (s_w * s_w) * var_num;
        let anomalous = lhs > rhs;
        let sc: i128 = 100 * dev_sq / var_num;
        proof {
            vstd::arithmetic::div_mod::lemma_div_pos_is_pos(100 * dev_sq, var_num as int);
        }
        let score: u64 = if sc > u64::MAX as i128 {
            u64::MAX
        } else {
            sc as u64
        };
        (score, anomalous)
    }
}

/// The index of the baseline entry for sensor `id`, if one exists.
pub open spec fn model_find(ms: Seq<(String, BaselineModel)>, id: Seq<char>) -> Option<int>
    decreases ms.len(),
{
    if ms.len() == 0 {
        None
    } else if ms[0].0@ == id {
        Some(0)
    } else {
        match model_find(ms.drop_first(), id) {
            Some(i) => Some(i + 1),
            None => None,
        }
    }
}

pub proof fn lemma_model_find(ms: Seq<(String, BaselineModel)>, id: Seq<char>)
    ensures
        match model_find(ms, id) {
            Some(i) => 0 <= i < ms.len() && ms[i].0@ == id,
            None => forall|j: int| 0 <= j < ms.len() ==> ms[j].0@ != id,
        },
    decreases ms.len(),
{
    if ms.len() > 0 && ms[0].0@ != id {
        lemma_model_find(ms.drop_first(), id);
        match model_find(ms.drop_first(), id) {
            Some(i) => {
                assert(ms.drop_first()[i] == ms[i + 1]);
            },
            None => {
                assert forall|j: int| 0 <= j < ms.len() implies ms[j].0@ != id by {
                    if j >= 1 {
                        assert(ms.drop_first()[j - 1] == ms[j]);
                    }
                }
            },
        }
    }
}

/// The baseline a sensor is judged against: its entry, or a fresh one.
pub open spec fn baseline_for(ms: Seq<(String, BaselineModel)>, id: Seq<char>) -> BaselineModel {
    match model_find(ms, id) {
        Some(i) => ms[i].1,
        None => baseline_new_spec(),
    }
}

/// The baseline map after storing `m` under `id`.
pub open spec fn model_upsert(
    ms: Seq<(String, BaselineModel)>,
    id: String,
    m: BaselineModel,
) -> Seq<(String, BaselineModel)> {
    match model_find(ms, id@) {
        Some(i) => ms.update(i, (ms[i].0, m)),
        None => ms.push((id, m)),
    }
}

pub struct AnomalyDetector {
    pub config: AnomalyDetectionConfig,
    pub baseline_models: Vec<(String, BaselineModel)>,
}

impl AnomalyDetector {
    /// Keys unique, configuration sane, every baseline within bounds.
    pub open spec fn wf(self) -> bool {
        &&& config_wf(self.config)
        &&& forall|i: int, j: int|
            0 <= i < j < self.baseline_models@.len()
                ==> self.baseline_models@[i].0@ != self.baseline_models@[j].0@
        &&& forall|i: int|
            0 <= i < self.baseline_models@.len() ==> baseline_wf(#[trigger] self.baseline_models@[i].1)
    }

    pub fn new(config: AnomalyDetectionConfig) -> (d: AnomalyDetector)
        requires
            config_wf(config),
        ensures
            d.wf(),
            d.config == config,
            d.baseline_models@ == Seq::<(String, BaselineModel)>::empty(),
    {
        AnomalyDetector { config, baseline_models: Vec::new() }
    }

    fn find_model(&self, id: &String) -> (r: Option<usize>)
        ensures
            match r {
                Some(i) => model_find(self.baseline_models@, id@) == Some(i as int),
                None => model_find(self.baseline_models@, id@) is None,
            },
    {
        let ms = &self.baseline_models;
        let mut i: usize = 0;
        proof {
            assert(ms@.skip(0) =~= ms@);
        }
        while i < ms.len()
            invariant
                i <= ms@.len(),
                ms == &self.baseline_models,
                model_find(ms@, id@) == match model_find(ms@.skip(i as int), id@) {
                    Some(k) => Some(k + i),
                    None => None::<int>,
                },
            decreases ms@.len() - i,
        {
            proof {
                assert(ms@.skip(i as int)[0] == ms@[i as int]);
            }
            if ms[i].0 == *id {
                return Some(i);
            }
            proof {
                assert(ms@.skip(i as int).drop_first() =~= ms@.skip(i as int + 1));
            }
            i += 1;
        }
        proof {
            assert(ms@.skip(ms@.len() as int).len() == 0);
        }
        None
    }

    /// Score one reading against its sensor's baseline and fold the
    /// reading into the baseline, unless it was flagged anomalous and the
    /// configuration excludes anomalies from baseline updates.
    pub fn detect_anomaly(&mut self, reading: &SensorReading) -> (r: (u64, bool))
        requires
            old(self).wf(),
            reading_bounded(*reading),
        ensures
            final(self).wf(),
            final(self).config == old(self).config,
            r.0 == baseline_score_centi(
                baseline_for(old(self).baseline_models@, reading.sensor_id@),
                *reading,
            ),
            r.1 == baseline_anomalous(
                baseline_for(old(self).baseline_models@, reading.sensor_id@),
                *reading,
                old(self).config.sensitivity_centi,
            ),
            ({
                let b0 = baseline_for(old(self).baseline_models@, reading.sensor_id@);
                let b1 = if r.1 && !old(self).config.update_baseline_on_anomaly {
                    b0
                } else {
                    baseline_update(b0, *reading)
                };
                final(self).baseline_models@ == model_upsert(
                    old(self).baseline_models@,
                    reading.sensor_id,
                    b1,
                )
            }),
    {
        proof {
            lemma_model_find(self.baseline_models@, reading.sensor_id@);
        }
        let found = self.find_model(&reading.sensor_id);
        let (key, model) = match found {
            Some(i) => self.baseline_models.remove(i),
            None => (reading.sensor_id.clone(), BaselineModel {
                sample_count: 0,
                temperature: FieldBaseline { sum_milli: 0, sum_sq: 0 },
                humidity: FieldBaseline { sum_milli: 0, sum_sq: 0 },
                pressure: FieldBaseline { sum_milli: 0, sum_sq: 0 },
            }),
        };
        let s_centi = self.config.sensitivity_centi;
        let (t_score, t_anom) = field_eval(
            model.sample_count,
            &model.temperature,
            reading.temperature_milli,
            s_centi,
        );
        let (h_score, h_anom) = field_eval(
            model.sample_count,
            &model.humidity,
            reading.humidity_milli,
            s_centi,
        );
        let (p_score, p_anom) = field_eval(
            model.sample_count,
            &model.pressure,
            reading.pressure_milli,
            s_centi,
        );
        let inner = if h_score >= p_score {
            h_score
        } else {
            p_score
        };
        let score = if t_score >= inner {
            t_score
        } else {
            inner
        };
        let anomalous = t_anom || h_anom || p_anom;
        let updated = if anomalous && !self.config.update_baseline_on_anomaly {
            model
        } else {
            self.update_baseline(model, reading)
        };
        match found {
            Some(i) => {
                self.baseline_models.insert(i, (key, updated));
                proof {
                    assert(self.baseline_models@ =~= old(self).baseline_models@.update(
                        i as int,
                        self.baseline_models@[i as int],
                    ));
                }
            },
            None => {
                self.baseline_models.push((key, updated));
                proof {
                    let ms = self.baseline_models@;
                    assert forall|a: int, b: int|
                        0 <= a < b < ms.len() implies ms[a].0@ != ms[b].0@ by {
                        if b == ms.len() - 1 {
                            assert(old(self).baseline_models@[a] == ms[a]);
                        }
                    }
                }
            },
        }
        (score, anomalous)
    }

    /// Fold one reading into a baseline (frozen once at the sample cap).
    fn update_baseline(&self, model: BaselineModel, reading: &SensorReading) -> (b: BaselineModel)
        requires
            baseline_wf(model),
            reading_bounded(*reading),
        ensures
            b == baseline_update(model, *reading),
            baseline_wf(b),
    {
        if model.sample_count >= BASELINE_SAMPLE_CAP {
            return model;
        }
        proof {
            lemma_fb_update_wf(model.temperature, model.sample_count as nat, reading.temperature_milli);
            lemma_fb_update_wf(model.humidity, model.sample_count as nat, reading.humidity_milli);
            lemma_fb_update_wf(model.pressure, model.sample_count as nat, reading.pressure_milli);
        }
        BaselineModel {
            sample_count: model.sample_count + 1,
            temperature: FieldBaseline {
                sum_milli: model.temperature.sum_milli + reading.temperature_milli as i128,
                sum_sq: model.temperature.sum_sq + (reading.temperature_milli as i128)
                    * (reading.temperature_milli as i128),
            },
            humidity: FieldBaseline {
                sum_milli: model.humidity.sum_milli + reading.humidity_milli as i128,
                sum_sq: model.humidity.sum_sq + (reading.humidity_milli as i128)
                    * (reading.humidity_milli as i128),
            },
            pressure: FieldBaseline {
                sum_milli: model.pressure.sum_milli + reading.pressure_milli as i128,
                sum_sq: model.pressure.sum_sq + (reading.pressure_milli as i128)
                    * (reading.pressure_milli as i128),
            },
        }
    }
}

proof fn lemma_fb_update_wf(fb: FieldBaseline, n: nat, v: i64)
    requires
        fb_wf(fb, n),
        n < BASELINE_SAMPLE_CAP,
        -VALUE_BOUND_MILLI <= v <= VALUE_BOUND_MILLI,
    ensures
        fb_wf(fb_update(fb, v), n + 1),
        fb.sum_milli + v == fb_update(fb, v).sum_milli,
        fb.sum_sq + v * v == fb_update(fb, v).sum_sq,
        0 <= v * v <= VALUE_BOUND_MILLI * VALUE_BOUND_MILLI,
{
    assert(0 <= v * v <= VALUE_BOUND_MILLI * VALUE_BOUND_MILLI)
        by (nonlinear_arith)
        requires
            -VALUE_BOUND_MILLI <= v <= VALUE_BOUND_MILLI,
    ;
}

} // verus!
