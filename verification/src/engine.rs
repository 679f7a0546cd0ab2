//! The processing engine: ingestion, routing, batching decisions, shutdown.
//!
//! The engine owns the bounded input buffer, the processor registry (one
//! circuit breaker per registered processor), the metrics counters and the
//! output buffer of finished results. Every public operation is a
//! deterministic transition over that state, with the clock passed in as an
//! explicit millisecond reading; a concurrency shell drives the transitions
//! from worker tasks while holding exclusive access.
//!
//! Result routing follows the status of each processing result: `Success`
//! re-ingests the output events (dropped silently when admission refuses
//! them — at-most-once forwarding), `Failed` and `Skip` are recorded, and
//! `Retry` re-enqueues the event with its attempt count raised until the
//! processor's retry budget is spent, after which it is demoted to `Failed`.

use crate::breaker::{
    breaker_new_spec, step_can_execute, step_failure, step_success, CircuitBreaker,
};
use crate::buffer::{buffer_push_spec, BoundedBuffer};
use crate::event::{
    event_valid, EngineConfig, Event, IngestionError, ProcessingResult, ProcessingStatus,
    ShutdownError,
};
use crate::metrics::{
    metrics_new_spec, record_rejection_spec, record_spec, summary_spec, MetricsSummary,
    PerformanceMetrics,
};
use crate::processor::EventProcessor;
use vstd::prelude::*;

verus! {

/// How long an opened breaker waits before admitting a trial call.
pub const BREAKER_RECOVERY_TIMEOUT_MS: u64 = 30_000;

/// A buffered event together with the delivery attempts already spent on it.
pub struct QueuedEvent {
    pub event: Event,
    pub attempts: u32,
}

/// A registry entry: the processor for one event type, the tuning it asked
/// for at registration time, and the breaker guarding it.
pub struct RegisteredProcessor<P> {
    pub event_type: String,
    pub processor: P,
    pub config: crate::event::ProcessorConfig,
    pub breaker: CircuitBreaker,
}

pub struct EventProcessingEngine<P: EventProcessor> {
    pub config: EngineConfig,
    pub input_buffer: BoundedBuffer<QueuedEvent>,
    pub processors: Vec<RegisteredProcessor<P>>,
    pub metrics: PerformanceMetrics,
    pub output_buffer: Vec<ProcessingResult>,
    pub shutdown: bool,
}

/// Registry keys are unique.
pub open spec fn registry_keys_unique<P>(ps: Seq<RegisteredProcessor<P>>) -> bool {
    forall|i: int, j: int|
        0 <= i < j < ps.len() ==> ps[i].event_type@ != ps[j].event_type@
}

/// The index of the registry entry for type tag `t`, if one exists
/// (first match; with unique keys, the only match).
pub open spec fn reg_find<P>(ps: Seq<RegisteredProcessor<P>>, t: Seq<char>) -> Option<int>
    decreases ps.len(),
{
    if ps.len() == 0 {
        None
    } else if ps[0].event_type@ == t {
        Some(0)
    } else {
        match reg_find(ps.drop_first(), t) {
            Some(i) => Some(i + 1),
            None => None,
        }
    }
}

pub proof fn lemma_reg_find<P>(ps: Seq<RegisteredProcessor<P>>, t: Seq<char>)
    ensures
        match reg_find(ps, t) {
            Some(i) => 0 <= i < ps.len() && ps[i].event_type@ == t,
            None => forall|j: int| 0 <= j < ps.len() ==> ps[j].event_type@ != t,
        },
    decreases ps.len(),
{
    if ps.len() > 0 && ps[0].event_type@ != t {
        lemma_reg_find(ps.drop_first(), t);
        assert forall|j: int| 0 <= j < ps.len() && ps[j].event_type@ == t implies j >= 1 by {}
        match reg_find(ps.drop_first(), t) {
            Some(i) => {
                assert(ps.drop_first()[i] == ps[i + 1]);
            },
            None => {
                assert forall|j: int| 0 <= j < ps.len() implies ps[j].event_type@ != t by {
                    if j >= 1 {
                        assert(ps.drop_first()[j - 1] == ps[j]);
                    }
                }
            },
        }
    }
}

/// The outcome of one `ingest_event` admission decision.
pub open spec fn ingest_result(
    shutdown: bool,
    valid: bool,
    len: nat,
    capacity: usize,
    backpressure: bool,
) -> Result<(), IngestionError> {
    if shutdown {
        Err(IngestionError::Shutdown)
    } else if !valid {
        Err(IngestionError::InvalidEvent)
    } else if backpressure && len >= capacity {
        Err(IngestionError::BufferFull)
    } else {
        Ok(())
    }
}

/// How many of `n` offered events a batch admission takes.
pub open spec fn batch_admit_count(len: nat, capacity: usize, backpressure: bool, n: nat) -> nat {
    if !backpressure {
        n
    } else if len >= capacity {
        0
    } else if capacity - len >= n {
        n
    } else {
        (capacity - len) as nat
    }
}

pub open spec fn queued_seq(es: Seq<Event>) -> Seq<QueuedEvent> {
    es.map_values(|e: Event| QueuedEvent { event: e, attempts: 0 })
}

/// Forwarding one output event: invalid events, events arriving after the
/// shutdown signal, and events refused by backpressure are dropped.
pub open spec fn forward_one(
    s: Seq<QueuedEvent>,
    e: Event,
    capacity: usize,
    backpressure: bool,
    shutdown: bool,
) -> Seq<QueuedEvent> {
    if shutdown || !event_valid(e) {
        s
    } else {
        buffer_push_spec(s, capacity, backpressure, QueuedEvent { event: e, attempts: 0 }).0
    }
}

/// Forwarding a result's output events in order.
pub open spec fn forward_outputs(
    s: Seq<QueuedEvent>,
    outs: Seq<Event>,
    capacity: usize,
    backpressure: bool,
    shutdown: bool,
) -> Seq<QueuedEvent>
    decreases outs.len(),
{
    if outs.len() == 0 {
        s
    } else {
        forward_outputs(
            forward_one(s, outs[0], capacity, backpressure, shutdown),
            outs.drop_first(),
            capacity,
            backpressure,
            shutdown,
        )
    }
}

pub proof fn lemma_forward_outputs_snoc(
    s: Seq<QueuedEvent>,
    outs: Seq<Event>,
    e: Event,
    capacity: usize,
    backpressure: bool,
    shutdown: bool,
)
    ensures
        forward_outputs(s, outs.push(e), capacity, backpressure, shutdown) == forward_one(
            forward_outputs(s, outs, capacity, backpressure, shutdown),
            e,
            capacity,
            backpressure,
            shutdown,
        ),
    decreases outs.len(),
{
    if outs.len() == 0 {
        assert(outs.push(e).drop_first() =~= Seq::<Event>::empty());
        assert(outs.push(e)[0] == e);
        assert(forward_outputs(
            forward_one(s, e, capacity, backpressure, shutdown),
            Seq::<Event>::empty(),
            capacity,
            backpressure,
            shutdown,
        ) == forward_one(s, e, capacity, backpressure, shutdown));
    } else {
        assert(outs.push(e)[0] == outs[0]);
        assert(outs.push(e).drop_first() =~= outs.drop_first().push(e));
        lemma_forward_outputs_snoc(
            forward_one(s, outs[0], capacity, backpressure, shutdown),
            outs.drop_first(),
            e,
            capacity,
            backpressure,
            shutdown,
        );
    }
}

/// After the shutdown signal, forwarding admits nothing.
pub proof fn lemma_forward_outputs_shutdown(
    s: Seq<QueuedEvent>,
    outs: Seq<Event>,
    capacity: usize,
    backpressure: bool,
)
    ensures
        forward_outputs(s, outs, capacity, backpressure, true) == s,
    decreases outs.len(),
{
    if outs.len() > 0 {
        lemma_forward_outputs_shutdown(s, outs.drop_first(), capacity, backpressure);
    }
}

/// The registry after an upsert for `event_type`. An existing entry keeps
/// its key and breaker but takes the new processor and tuning; a fresh
/// entry is appended with a closed breaker at the configured threshold.
pub open spec fn registry_upsert<P>(
    ps: Seq<RegisteredProcessor<P>>,
    event_type: String,
    processor: P,
    config: crate::event::ProcessorConfig,
) -> Seq<RegisteredProcessor<P>> {
    match reg_find(ps, event_type@) {
        Some(i) => ps.update(
            i,
            (RegisteredProcessor {
                event_type: ps[i].event_type,
                processor,
                config,
                breaker: ps[i].breaker,
            }),
        ),
        None => ps.push(
            (RegisteredProcessor {
                event_type,
                processor,
                config,
                breaker: breaker_new_spec(
                    config.circuit_breaker_threshold,
                    BREAKER_RECOVERY_TIMEOUT_MS,
                ),
            }),
        ),
    }
}

/// The synthetic result recorded for an event that could not be handed to
/// a processor (no registration, or the breaker refused), with its one
/// distinguishing error message pinned.
pub open spec fn dropped_result_ok(stored: ProcessingResult, id: Seq<char>, msg: Seq<char>) -> bool {
    &&& stored.status == ProcessingStatus::Failed
    &&& stored.event_id@ == id
    &&& stored.output_events@.len() == 0
    &&& stored.errors@.len() == 1
    &&& stored.errors@[0]@ == msg
}

/// The stored form of a processor's result: identical except that the
/// output events were moved on into the buffer.
pub open spec fn stored_result(stored: ProcessingResult, res: ProcessingResult) -> bool {
    &&& stored.event_id == res.event_id
    &&& stored.status == res.status
    &&& stored.processing_time_ns == res.processing_time_ns
    &&& stored.errors == res.errors
    &&& stored.output_events@.len() == 0
}

/// The stored form of a result demoted from `Retry` to `Failed` after the
/// retry budget was spent (or the queue refused the event).
pub open spec fn demoted_result(stored: ProcessingResult, res: ProcessingResult) -> bool {
    &&& stored.event_id == res.event_id
    &&& stored.status == ProcessingStatus::Failed
    &&& stored.processing_time_ns == res.processing_time_ns
    &&& stored.errors == res.errors
    &&& stored.output_events@.len() == 0
}

/// One step on an event whose type has no registered processor: the event
/// is dropped and counted as processed and failed.
pub open spec fn no_processor_step<P: EventProcessor>(
    pre: EventProcessingEngine<P>,
    post: EventProcessingEngine<P>,
) -> bool {
    let q = pre.input_buffer@[0];
    &&& post.config == pre.config
    &&& post.shutdown == pre.shutdown
    &&& post.processors@ == pre.processors@
    &&& post.input_buffer@ == pre.input_buffer@.drop_first()
    &&& post.metrics == record_spec(pre.metrics, 0, false)
    &&& exists|stored: ProcessingResult|
        post.output_buffer@ == pre.output_buffer@.push(stored) && dropped_result_ok(
            stored,
            q.event.id@,
            "no processor registered for this event type"@,
        )
}

/// One step on an event whose processor's breaker refused the call: the
/// attempt is counted apart as a breaker rejection.
pub open spec fn breaker_open_step<P: EventProcessor>(
    pre: EventProcessingEngine<P>,
    post: EventProcessingEngine<P>,
    now_ms: u64,
    i: int,
) -> bool {
    let q = pre.input_buffer@[0];
    let entry = pre.processors@[i];
    let gate = step_can_execute(entry.breaker, now_ms);
    &&& post.config == pre.config
    &&& post.shutdown == pre.shutdown
    &&& post.processors@ == pre.processors@.update(
        i,
        (RegisteredProcessor { breaker: gate.0, ..entry }),
    )
    &&& post.input_buffer@ == pre.input_buffer@.drop_first()
    &&& post.metrics == record_rejection_spec(pre.metrics)
    &&& exists|stored: ProcessingResult|
        post.output_buffer@ == pre.output_buffer@.push(stored) && dropped_result_ok(
            stored,
            q.event.id@,
            "circuit breaker open: processor unavailable"@,
        )
}

/// One step in which the processor ran and returned `res`, and the engine
/// routed that result.
pub open spec fn routed_step<P: EventProcessor>(
    pre: EventProcessingEngine<P>,
    post: EventProcessingEngine<P>,
    now_ms: u64,
    i: int,
    res: ProcessingResult,
) -> bool {
    let q = pre.input_buffer@[0];
    let entry = pre.processors@[i];
    let gate = step_can_execute(entry.breaker, now_ms);
    let rest = pre.input_buffer@.drop_first();
    &&& post.config == pre.config
    &&& post.shutdown == pre.shutdown
    &&& match res.status {
        ProcessingStatus::Success => {
            &&& post.processors@ == pre.processors@.update(
                i,
                (RegisteredProcessor { breaker: step_success(gate.0), ..entry }),
            )
            &&& post.metrics == record_spec(pre.metrics, res.processing_time_ns, true)
            &&& post.input_buffer@ == forward_outputs(
                rest,
                res.output_events@,
                pre.config.max_buffer_size,
                pre.config.enable_backpressure,
                pre.shutdown,
            )
            &&& exists|stored: ProcessingResult|
                post.output_buffer@ == pre.output_buffer@.push(stored) && stored_result(
                    stored,
                    res,
                )
        },
        ProcessingStatus::Skip => {
            &&& post.processors@ == pre.processors@.update(
                i,
                (RegisteredProcessor { breaker: step_success(gate.0), ..entry }),
            )
            &&& post.metrics == record_spec(pre.metrics, res.processing_time_ns, true)
            &&& post.input_buffer@ == rest
            &&& exists|stored: ProcessingResult|
                post.output_buffer@ == pre.output_buffer@.push(stored) && stored_result(
                    stored,
                    res,
                )
        },
        ProcessingStatus::Failed => {
            &&& post.processors@ == pre.processors@.update(
                i,
                (RegisteredProcessor { breaker: step_failure(gate.0, now_ms), ..entry }),
            )
            &&& post.metrics == record_spec(pre.metrics, res.processing_time_ns, false)
            &&& post.input_buffer@ == rest
            &&& exists|stored: ProcessingResult|
                post.output_buffer@ == pre.output_buffer@.push(stored) && stored_result(
                    stored,
                    res,
                )
        },
        ProcessingStatus::Retry => {
            let requeue = buffer_push_spec(
                rest,
                pre.config.max_buffer_size,
                pre.config.enable_backpressure,
                QueuedEvent { event: q.event, attempts: (q.attempts + 1) as u32 },
            );
            &&& post.processors@ == pre.processors@.update(
                i,
                (RegisteredProcessor { breaker: step_failure(gate.0, now_ms), ..entry }),
            )
            &&& if q.attempts < entry.config.max_retries && !pre.shutdown && requeue.1 {
                &&& post.input_buffer@ == requeue.0
                &&& post.metrics == pre.metrics
                &&& post.output_buffer@ == pre.output_buffer@
            } else {
                &&& post.input_buffer@ == rest
                &&& post.metrics == record_spec(pre.metrics, res.processing_time_ns, false)
                &&& exists|stored: ProcessingResult|
                    post.output_buffer@ == pre.output_buffer@.push(stored) && demoted_result(
                        stored,
                        res,
                    )
            }
        },
    }
}

/// One engine step on the oldest buffered event.
pub open spec fn engine_step<P: EventProcessor>(
    pre: EventProcessingEngine<P>,
    post: EventProcessingEngine<P>,
    now_ms: u64,
) -> bool {
    let q = pre.input_buffer@[0];
    match reg_find(pre.processors@, q.event.event_type@) {
        None => no_processor_step(pre, post),
        Some(i) => {
            if step_can_execute(pre.processors@[i].breaker, now_ms).1 {
                exists|res: ProcessingResult| routed_step(pre, post, now_ms, i, res)
            } else {
                breaker_open_step(pre, post, now_ms, i)
            }
        },
    }
}

/// The chain of engine steps: `post` is reached from `pre` by handling
/// exactly `steps` buffered events, oldest first, at time `now_ms`.
pub open spec fn steps_reached<P: EventProcessor>(
    pre: EventProcessingEngine<P>,
    post: EventProcessingEngine<P>,
    now_ms: u64,
    steps: nat,
) -> bool
    decreases steps,
{
    if steps == 0 {
        post == pre
    } else {
        exists|mid: EventProcessingEngine<P>|
            steps_reached(pre, mid, now_ms, (steps - 1) as nat) && mid.input_buffer@.len() > 0
                && #[trigger] engine_step(mid, post, now_ms)
    }
}

impl<P: EventProcessor> EventProcessingEngine<P> {
    /// Structural well-formedness: the buffer honours the engine tuning and
    /// registry keys are unique.
    pub open spec fn wf(self) -> bool {
        &&& self.input_buffer.capacity == self.config.max_buffer_size
        &&& self.input_buffer.backpressure == self.config.enable_backpressure
        &&& registry_keys_unique(self.processors@)
    }

    pub fn new(config: EngineConfig) -> (engine: EventProcessingEngine<P>)
        ensures
            engine.wf(),
            engine.config == config,
            engine.input_buffer@ == Seq::<QueuedEvent>::empty(),
            engine.processors@ == Seq::<RegisteredProcessor<P>>::empty(),
            engine.metrics == metrics_new_spec(),
            engine.output_buffer@ == Seq::<ProcessingResult>::empty(),
            !engine.shutdown,
    {
        let buffer = BoundedBuffer::new(config.max_buffer_size, config.enable_backpressure);
        EventProcessingEngine {
            config,
            input_buffer: buffer,
            processors: Vec::new(),
            metrics: PerformanceMetrics::new(),
            output_buffer: Vec::new(),
            shutdown: false,
        }
    }

    /// The registry index for type tag `t`, if registered.
    fn find_processor(&self, t: &String) -> (r: Option<usize>)
        ensures
            match r {
                Some(i) => reg_find(self.processors@, t@) == Some(i as int),
                None => reg_find(self.processors@, t@) is None,
            },
    {
        let ps = &self.processors;
        let mut i: usize = 0;
        proof {
            assert(ps@.skip(0) =~= ps@);
        }
        while i < ps.len()
            invariant
                i <= ps@.len(),
                ps == &self.processors,
                forall|j: int| 0 <= j < i ==> ps@[j].event_type@ != t@,
                reg_find(ps@, t@) == match reg_find(ps@.skip(i as int), t@) {
                    Some(k) => Some(k + i),
                    None => None::<int>,
                },
            decreases ps@.len() - i,
        {
            proof {
                assert(ps@.skip(i as int)[0] == ps@[i as int]);
            }
            if ps[i].event_type == *t {
                return Some(i);
            }
            proof {
                assert(ps@.skip(i as int).drop_first() =~= ps@.skip(i as int + 1));
            }
            i += 1;
        }
        proof {
            assert(ps@.skip(ps@.len() as int).len() == 0);
        }
        None
    }

    /// Idempotent upsert of the processor for `event_type`, with the tuning
    /// it is to be run under. A fresh registration starts a closed breaker
    /// with the configured failure threshold; re-registration replaces the
    /// processor and tuning but keeps the breaker's accumulated state.
    /// Takes effect for subsequently processed events only.
    pub fn register_processor_with(
        &mut self,
        event_type: String,
        processor: P,
        config: crate::event::ProcessorConfig,
    )
        requires
            old(self).wf(),
        ensures
            final(self).wf(),
            final(self).config == old(self).config,
            final(self).shutdown == old(self).shutdown,
            final(self).input_buffer@ == old(self).input_buffer@,
            final(self).metrics == old(self).metrics,
            final(self).output_buffer@ == old(self).output_buffer@,
            final(self).processors@ == registry_upsert(
                old(self).processors@,
                event_type,
                processor,
                config,
            ),
    {
        proof {
            lemma_reg_find(self.processors@, event_type@);
        }
        let found = self.find_processor(&event_type);
        match found {
            Some(i) => {
                let entry = self.processors.remove(i);
                let updated = RegisteredProcessor {
                    event_type: entry.event_type,
                    processor,
                    config,
                    breaker: entry.breaker,
                };
                self.processors.insert(i, updated);
                proof {
                    assert(self.processors@ =~= old(self).processors@.update(
                        i as int,
                        self.processors@[i as int],
                    ));
                }
            },
            None => {
                let breaker = CircuitBreaker::new(
                    config.circuit_breaker_threshold,
                    BREAKER_RECOVERY_TIMEOUT_MS,
                );
                self.processors.push(
                    RegisteredProcessor { event_type, processor, config, breaker },
                );
                proof {
                    let ps = self.processors@;
                    assert forall|a: int, b: int|
                        0 <= a < b < ps.len() implies ps[a].event_type@ != ps[b].event_type@ by {
                        if b == ps.len() - 1 {
                            assert(old(self).processors@[a] == ps[a]);
                        }
                    }
                }
            },
        }
    }

    /// Idempotent upsert that asks the processor itself for its tuning.
    /// The capability trait promises nothing of `get_config`, so the
    /// stored tuning is bound only existentially here; the contract-
    /// complete path is `register_processor_with`, whose upsert
    /// `lemma_registry_upsert_idempotent` proves idempotent.
    pub fn register_processor(&mut self, event_type: String, processor: P)
        requires
            old(self).wf(),
        ensures
            final(self).wf(),
            final(self).config == old(self).config,
            final(self).shutdown == old(self).shutdown,
            final(self).input_buffer@ == old(self).input_buffer@,
            final(self).metrics == old(self).metrics,
            final(self).output_buffer@ == old(self).output_buffer@,
            exists|config: crate::event::ProcessorConfig|
                final(self).processors@ == #[trigger] registry_upsert(
                    old(self).processors@,
                    event_type,
                    processor,
                    config,
                ),
    {
        let config = processor.get_config();
        self.register_processor_with(event_type, processor, config);
    }

    /// Admit one event: refused wholesale after shutdown, refused as
    /// invalid without a non-empty id and type, refused as full when
    /// backpressure finds the buffer at capacity; otherwise appended.
    pub fn ingest_event(&mut self, event: Event) -> (r: Result<(), IngestionError>)
        requires
            old(self).wf(),
        ensures
            final(self).wf(),
            final(self).config == old(self).config,
            final(self).shutdown == old(self).shutdown,
            final(self).processors@ == old(self).processors@,
            final(self).metrics == old(self).metrics,
            final(self).output_buffer@ == old(self).output_buffer@,
            r == ingest_result(
                old(self).shutdown,
                event_valid(event),
                old(self).input_buffer@.len(),
                old(self).config.max_buffer_size,
                old(self).config.enable_backpressure,
            ),
            r is Ok ==> final(self).input_buffer@ == old(self).input_buffer@.push(
                (QueuedEvent { event, attempts: 0 }),
            ),
            r is Err ==> final(self).input_buffer@ == old(self).input_buffer@,
    {
        if self.shutdown {
            return Err(IngestionError::Shutdown);
        }
        if !event.is_valid() {
            return Err(IngestionError::InvalidEvent);
        }
        match self.input_buffer.push(QueuedEvent { event, attempts: 0 }) {
            Ok(()) => Ok(()),
            Err(_) => Err(IngestionError::BufferFull),
        }
    }

    /// Best-effort batch admission: events are taken in order until the
    /// buffer is full; the count of admitted events is returned. Events are
    /// not validated here; admission is by capacity alone.
    pub fn ingest_batch(&mut self, events: Vec<Event>) -> (r: Result<usize, IngestionError>)
        requires
            old(self).wf(),
        ensures
            final(self).wf(),
            final(self).config == old(self).config,
            final(self).shutdown == old(self).shutdown,
            final(self).processors@ == old(self).processors@,
            final(self).metrics == old(self).metrics,
            final(self).output_buffer@ == old(self).output_buffer@,
            old(self).shutdown ==> r == Err::<usize, IngestionError>(IngestionError::Shutdown)
                && final(self).input_buffer@ == old(self).input_buffer@,
            !old(self).shutdown ==> {
                let admitted = batch_admit_count(
                    old(self).input_buffer@.len(),
                    old(self).config.max_buffer_size,
                    old(self).config.enable_backpressure,
                    events@.len(),
                );
                &&& r == Ok::<usize, IngestionError>(admitted as usize)
                &&& final(self).input_buffer@ == old(self).input_buffer@ + queued_seq(
                    events@.take(admitted as int),
                )
            },
    {
        if self.shutdown {
            proof {
                assert(self.input_buffer@ =~= old(self).input_buffer@);
            }
            return Err(IngestionError::Shutdown);
        }
        let mut events = events;
        let offered = events.len();
        let ghost all = events@;
        let ghost base = self.input_buffer@;
        let mut admitted: usize = 0;
        proof {
            assert(all.len() == offered);
        }
        proof {
            assert(base + queued_seq(all.take(0)) =~= base);
        }
        while events.len() > 0 && !(self.config.enable_backpressure && self.input_buffer.is_full())
            invariant
                self.wf(),
                self.config == old(self).config,
                self.shutdown == old(self).shutdown,
                !self.shutdown,
                self.processors@ == old(self).processors@,
                self.metrics == old(self).metrics,
                self.output_buffer@ == old(self).output_buffer@,
                admitted <= all.len(),
                all.len() <= usize::MAX,
                events@ == all.skip(admitted as int),
                self.input_buffer@ == base + queued_seq(all.take(admitted as int)),
                self.input_buffer@.len() == base.len() + admitted,
                self.config.enable_backpressure && admitted > 0 ==> base.len() + admitted
                    <= self.config.max_buffer_size,
            decreases events@.len(),
        {
            proof {
                assert(all.skip(admitted as int).len() > 0);
                assert(admitted < all.len());
            }
            let e = events.remove(0);
            proof {
                assert(e == all[admitted as int]);
                assert(events@ =~= all.skip(admitted as int + 1));
            }
            let pushed = self.input_buffer.push(QueuedEvent { event: e, attempts: 0 });
            proof {
                assert(pushed is Ok);
                assert(self.input_buffer@ =~= base + queued_seq(all.take(admitted as int + 1)));
            }
            admitted += 1;
        }
        proof {
            let n = batch_admit_count(
                base.len(),
                self.config.max_buffer_size,
                self.config.enable_backpressure,
                all.len(),
            );
            assert(admitted == n);
        }
        Ok(admitted)
    }

    /// Pop and handle the oldest buffered event: look up its processor,
    /// gate the call through the breaker, invoke it, and route the result.
    /// Returns whether an event was handled (false exactly when the buffer
    /// was empty, in which case nothing changes).
    pub fn process_next(&mut self, now_ms: u64) -> (r: bool)
        requires
            old(self).wf(),
        ensures
            final(self).wf(),
            final(self).config == old(self).config,
            final(self).shutdown == old(self).shutdown,
            r == (old(self).input_buffer@.len() > 0),
            !r ==> *final(self) == *old(self),
            r ==> engine_step(*old(self), *final(self), now_ms),
            r && old(self).shutdown ==> final(self).input_buffer@ == old(
                self,
            ).input_buffer@.drop_first(),
    {
        if self.input_buffer.is_empty() {
            return false;
        }
        proof {
            lemma_reg_find(self.processors@, self.input_buffer@[0].event.event_type@);
        }
        let q = match self.input_buffer.pop() {
            Some(q) => q,
            None => {
                proof {
                    assert(false);
                }
                return false;
            },
        };
        let found = self.find_processor(&q.event.event_type);
        match found {
            None => {
                self.metrics.record_processing(0, false);
                let mut errors: Vec<String> = Vec::new();
                errors.push(String::from_str("no processor registered for this event type"));
                let stored = ProcessingResult {
                    event_id: q.event.id,
                    status: ProcessingStatus::Failed,
                    processing_time_ns: 0,
                    output_events: Vec::new(),
                    errors,
                };
                self.output_buffer.push(stored);
                proof {
                    if old(self).shutdown {
                        lemma_forward_outputs_shutdown(
                            old(self).input_buffer@.drop_first(),
                            Seq::<Event>::empty(),
                            old(self).config.max_buffer_size,
                            old(self).config.enable_backpressure,
                        );
                    }
                }
                true
            },
            Some(i) => {
                let mut entry = self.processors.remove(i);
                let allowed = entry.breaker.can_execute(now_ms);
                if !allowed {
                    self.metrics.record_breaker_rejection();
                    let mut errors: Vec<String> = Vec::new();
                    errors.push(String::from_str("circuit breaker open: processor unavailable"));
                    let stored = ProcessingResult {
                        event_id: q.event.id,
                        status: ProcessingStatus::Failed,
                        processing_time_ns: 0,
                        output_events: Vec::new(),
                        errors,
                    };
                    self.output_buffer.push(stored);
                    self.processors.insert(i, entry);
                    proof {
                        assert(self.processors@ =~= old(self).processors@.update(
                            i as int,
                            self.processors@[i as int],
                        ));
                    }
                    true
                } else {
                    let result = entry.processor.process(&q.event);
                    let ghost gres = result;
                    let ProcessingResult {
                        event_id,
                        status,
                        processing_time_ns,
                        output_events,
                        errors,
                    } = result;
                    match status {
                        ProcessingStatus::Success => {
                            entry.breaker.record_success();
                            self.metrics.record_processing(processing_time_ns, true);
                            self.forward_output_events(output_events);
                            let stored = ProcessingResult {
                                event_id,
                                status: ProcessingStatus::Success,
                                processing_time_ns,
                                output_events: Vec::new(),
                                errors,
                            };
                            let ghost gstored = stored;
                            self.output_buffer.push(stored);
                            self.processors.insert(i, entry);
                            proof {
                                assert(stored_result(gstored, gres));
                                assert(self.output_buffer@ == old(self).output_buffer@.push(gstored));
                                assert(self.processors@ =~= old(self).processors@.update(
                                    i as int,
                                    self.processors@[i as int],
                                ));
                                assert(routed_step(*old(self), *self, now_ms, i as int, gres));
                                if old(self).shutdown {
                                    lemma_forward_outputs_shutdown(
                                        old(self).input_buffer@.drop_first(),
                                        gres.output_events@,
                                        old(self).config.max_buffer_size,
                                        old(self).config.enable_backpressure,
                                    );
                                }
                            }
                            true
                        },
                        ProcessingStatus::Skip => {
                            entry.breaker.record_success();
                            self.metrics.record_processing(processing_time_ns, true);
                            let stored = ProcessingResult {
                                event_id,
                                status: ProcessingStatus::Skip,
                                processing_time_ns,
                                output_events: Vec::new(),
                                errors,
                            };
                            let ghost gstored = stored;
                            self.output_buffer.push(stored);
                            self.processors.insert(i, entry);
                            proof {
                                assert(stored_result(gstored, gres));
                                assert(self.output_buffer@ == old(self).output_buffer@.push(gstored));
                                assert(self.processors@ =~= old(self).processors@.update(
                                    i as int,
                                    self.processors@[i as int],
                                ));
                                assert(routed_step(*old(self), *self, now_ms, i as int, gres));
                            }
                            true
                        },
                        ProcessingStatus::Failed => {
                            entry.breaker.record_failure(now_ms);
                            self.metrics.record_processing(processing_time_ns, false);
                            let stored = ProcessingResult {
                                event_id,
                                status: ProcessingStatus::Failed,
                                processing_time_ns,
                                output_events: Vec::new(),
                                errors,
                            };
                            let ghost gstored = stored;
                            self.output_buffer.push(stored);
                            self.processors.insert(i, entry);
                            proof {
                                assert(stored_result(gstored, gres));
                                assert(self.output_buffer@ == old(self).output_buffer@.push(gstored));
                                assert(self.processors@ =~= old(self).processors@.update(
                                    i as int,
                                    self.processors@[i as int],
                                ));
                                assert(routed_step(*old(self), *self, now_ms, i as int, gres));
                            }
                            true
                        },
                        ProcessingStatus::Retry => {
                            entry.breaker.record_failure(now_ms);
                            let mut requeued = false;
                            if q.attempts < entry.config.max_retries && !self.shutdown {
                                let next = QueuedEvent {
                                    event: q.event,
                                    attempts: q.attempts + 1,
                                };
                                match self.input_buffer.push(next) {
                                    Ok(()) => {
                                        requeued = true;
                                    },
                                    Err(_) => {},
                                }
                            }
                            if !requeued {
                                self.metrics.record_processing(processing_time_ns, false);
                                let stored = ProcessingResult {
                                    event_id,
                                    status: ProcessingStatus::Failed,
                                    processing_time_ns,
                                    output_events: Vec::new(),
                                    errors,
                                };
                                let ghost gstored = stored;
                                self.output_buffer.push(stored);
                                proof {
                                    assert(demoted_result(gstored, gres));
                                    assert(self.output_buffer@ == old(self).output_buffer@.push(gstored));
                                }
                            }
                            self.processors.insert(i, entry);
                            proof {
                                assert(self.processors@ =~= old(self).processors@.update(
                                    i as int,
                                    self.processors@[i as int],
                                ));
                                assert(routed_step(*old(self), *self, now_ms, i as int, gres));
                            }
                            true
                        },
                    }
                }
            },
        }
    }

    /// Re-ingest a successful result's output events in order, dropping
    /// those that admission refuses (at-most-once forwarding).
    fn forward_output_events(&mut self, outputs: Vec<Event>)
        requires
            old(self).wf(),
        ensures
            final(self).wf(),
            final(self).config == old(self).config,
            final(self).shutdown == old(self).shutdown,
            final(self).processors@ == old(self).processors@,
            final(self).metrics == old(self).metrics,
            final(self).output_buffer@ == old(self).output_buffer@,
            final(self).input_buffer@ == forward_outputs(
                old(self).input_buffer@,
                outputs@,
                old(self).config.max_buffer_size,
                old(self).config.enable_backpressure,
                old(self).shutdown,
            ),
    {
        let mut outputs = outputs;
        let offered = outputs.len();
        let ghost all = outputs@;
        let ghost base = self.input_buffer@;
        let mut done: usize = 0;
        proof {
            assert(all.len() == offered);
        }
        proof {
            assert(forward_outputs(
                base,
                all.take(0),
                self.config.max_buffer_size,
                self.config.enable_backpressure,
                self.shutdown,
            ) == base);
        }
        while outputs.len() > 0
            invariant
                self.wf(),
                self.config == old(self).config,
                self.shutdown == old(self).shutdown,
                self.processors@ == old(self).processors@,
                self.metrics == old(self).metrics,
                self.output_buffer@ == old(self).output_buffer@,
                done <= all.len(),
                all.len() <= usize::MAX,
                outputs@ == all.skip(done as int),
                self.input_buffer@ == forward_outputs(
                    base,
                    all.take(done as int),
                    old(self).config.max_buffer_size,
                    old(self).config.enable_backpressure,
                    old(self).shutdown,
                ),
            decreases outputs@.len(),
        {
            proof {
                assert(all.skip(done as int).len() > 0);
                assert(done < all.len());
            }
            let e = outputs.remove(0);
            proof {
                assert(e == all[done as int]);
                assert(outputs@ =~= all.skip(done as int + 1));
                assert(all.take(done as int + 1) =~= all.take(done as int).push(e));
                lemma_forward_outputs_snoc(
                    base,
                    all.take(done as int),
                    e,
                    old(self).config.max_buffer_size,
                    old(self).config.enable_backpressure,
                    old(self).shutdown,
                );
            }
            if !self.shutdown && e.is_valid() {
                let _ = self.input_buffer.push(QueuedEvent { event: e, attempts: 0 });
            }
            done += 1;
        }
        proof {
            assert(all.take(done as int) =~= all);
        }
    }

    /// Handle up to `max_steps` buffered events; stops early when the
    /// buffer runs dry. Returns how many events were handled: the final
    /// state is reached from the initial one by exactly that many engine
    /// steps, and no step is skipped while events remain.
    pub fn run_steps(&mut self, now_ms: u64, max_steps: usize) -> (steps: usize)
        requires
            old(self).wf(),
        ensures
            final(self).wf(),
            final(self).config == old(self).config,
            final(self).shutdown == old(self).shutdown,
            steps <= max_steps,
            steps < max_steps ==> final(self).input_buffer@.len() == 0,
            steps_reached(*old(self), *final(self), now_ms, steps as nat),
            steps == 0 <==> (old(self).input_buffer@.len() == 0 || max_steps == 0),
    {
        let mut steps: usize = 0;
        while steps < max_steps
            invariant
                self.wf(),
                self.config == old(self).config,
                self.shutdown == old(self).shutdown,
                steps <= max_steps,
                steps_reached(*old(self), *self, now_ms, steps as nat),
                steps > 0 ==> old(self).input_buffer@.len() > 0,
            decreases max_steps - steps,
        {
            let ghost mid = *self;
            let handled = self.process_next(now_ms);
            if !handled {
                return steps;
            }
            proof {
                assert(engine_step(mid, *self, now_ms));
                assert(steps_reached(*old(self), *self, now_ms, (steps + 1) as nat));
            }
            steps += 1;
        }
        steps
    }

    /// A point-in-time metrics snapshot; never blocks on worker state.
    pub fn get_performance_metrics(&self) -> (s: MetricsSummary)
        ensures
            s == summary_spec(self.metrics),
    {
        self.metrics.get_summary()
    }

    /// The delay the shell should honor before handling the oldest queued
    /// event: zero for a first delivery, the exponential backoff for a
    /// redelivery, and zero when nothing is queued.
    pub fn next_retry_delay_ms(&self, base_ms: u64) -> (d: u64)
        ensures
            self.input_buffer@.len() == 0 ==> d == 0,
            self.input_buffer@.len() > 0 ==> d == (if self.input_buffer@[0].attempts == 0 {
                0u64
            } else {
                retry_backoff_spec(self.input_buffer@[0].attempts, base_ms)
            }),
    {
        match self.input_buffer.front() {
            Some(q) => {
                if q.attempts == 0 {
                    0
                } else {
                    retry_backoff_ms(q.attempts, base_ms)
                }
            },
            None => 0,
        }
    }

    /// Signal shutdown and drain the in-flight events. Once the signal is
    /// set nothing new is admitted, so every step shortens the buffer and
    /// the drain runs to completion: each queued event is handled by a
    /// full engine step (processed, counted and its result recorded), one
    /// step per event, and the buffer ends empty.
    pub fn shutdown(&mut self, now_ms: u64) -> (r: Result<(), ShutdownError>)
        requires
            old(self).wf(),
        ensures
            final(self).wf(),
            final(self).config == old(self).config,
            final(self).shutdown,
            final(self).input_buffer@.len() == 0,
            r is Ok,
            steps_reached(
                (EventProcessingEngine { shutdown: true, ..*old(self) }),
                *final(self),
                now_ms,
                old(self).input_buffer@.len(),
            ),
    {
        self.shutdown = true;
        let ghost flagged = *self;
        let ghost mut drained: nat = 0;
        proof {
            assert(flagged == (EventProcessingEngine { shutdown: true, ..*old(self) }));
        }
        while !self.input_buffer.is_empty()
            invariant
                self.wf(),
                self.config == old(self).config,
                self.shutdown,
                steps_reached(flagged, *self, now_ms, drained),
                drained + self.input_buffer@.len() == flagged.input_buffer@.len(),
            decreases self.input_buffer@.len(),
        {
            let ghost mid = *self;
            let _ = self.process_next(now_ms);
            proof {
                assert(engine_step(mid, *self, now_ms));
                drained = drained + 1;
                assert(steps_reached(flagged, *self, now_ms, drained));
            }
        }
        proof {
            assert(drained == flagged.input_buffer@.len());
            assert(flagged.input_buffer@ == old(self).input_buffer@);
        }
        Ok(())
    }
}

/// Law: with backpressure on and the engine accepting work, ingestion
/// admits every event while the buffer is below capacity, refuses with
/// `BufferFull` exactly at capacity, and admits again once one buffered
/// event has been taken.
pub proof fn lemma_ingest_capacity_law(len: nat, capacity: usize, valid: bool)
    requires
        valid,
        capacity >= 1,
    ensures
        len < capacity ==> ingest_result(false, valid, len, capacity, true) is Ok,
        len >= capacity ==> ingest_result(false, valid, len, capacity, true) == Err::<
            (),
            IngestionError,
        >(IngestionError::BufferFull),
        len == capacity ==> ingest_result(false, valid, (len - 1) as nat, capacity, true) is Ok,
{
}

/// Law: with the engine accepting work, a whole sequence of ingestions is
/// admitted call by call as long as it fits the remaining capacity: the
/// `k`-th call sees `k` admitted predecessors and still succeeds.
pub proof fn lemma_ingest_sequence_admitted(len: nat, capacity: usize, n: nat)
    requires
        len + n <= capacity,
    ensures
        forall|k: nat|
            k < n ==> #[trigger] ingest_result(false, true, (len + k) as nat, capacity, true)
                is Ok,
{
}

/// With unique keys, `reg_find` returns exactly the index holding `t`.
pub proof fn lemma_reg_find_at<P>(ps: Seq<RegisteredProcessor<P>>, t: Seq<char>, i: int)
    requires
        registry_keys_unique(ps),
        0 <= i < ps.len(),
        ps[i].event_type@ == t,
    ensures
        reg_find(ps, t) == Some(i),
{
    lemma_reg_find(ps, t);
    match reg_find(ps, t) {
        Some(j) => {
            if j < i {
                assert(ps[j].event_type@ != ps[i].event_type@);
            } else if i < j {
                assert(ps[i].event_type@ != ps[j].event_type@);
            }
        },
        None => {
            assert(ps[i].event_type@ != t);
        },
    }
}

/// Law: registration is an idempotent upsert — storing the same processor
/// and tuning for the same type a second time leaves the registry exactly
/// as after the first time (the key and the breaker state are kept).
pub proof fn lemma_registry_upsert_idempotent<P>(
    ps: Seq<RegisteredProcessor<P>>,
    event_type: String,
    processor: P,
    config: crate::event::ProcessorConfig,
)
    requires
        registry_keys_unique(ps),
    ensures
        registry_keys_unique(registry_upsert(ps, event_type, processor, config)),
        registry_upsert(
            registry_upsert(ps, event_type, processor, config),
            event_type,
            processor,
            config,
        ) == registry_upsert(ps, event_type, processor, config),
{
    lemma_reg_find(ps, event_type@);
    match reg_find(ps, event_type@) {
        Some(i) => {
            let once = registry_upsert(ps, event_type, processor, config);
            assert forall|a: int, b: int|
                0 <= a < b < once.len() implies once[a].event_type@ != once[b].event_type@ by {
                assert(ps[a].event_type@ != ps[b].event_type@);
            }
            lemma_reg_find_at(once, event_type@, i);
            assert(once.update(
                i,
                (RegisteredProcessor {
                    event_type: once[i].event_type,
                    processor,
                    config,
                    breaker: once[i].breaker,
                }),
            ) =~= once);
        },
        None => {
            let once = registry_upsert(ps, event_type, processor, config);
            let last = once.len() - 1;
            assert forall|a: int, b: int|
                0 <= a < b < once.len() implies once[a].event_type@ != once[b].event_type@ by {
                if b < last {
                    assert(ps[a].event_type@ != ps[b].event_type@);
                } else {
                    assert(ps[a] == once[a]);
                }
            }
            lemma_reg_find_at(once, event_type@, last);
            assert(once.update(
                last,
                (RegisteredProcessor {
                    event_type: once[last].event_type,
                    processor,
                    config,
                    breaker: once[last].breaker,
                }),
            ) =~= once);
        },
    }
}

/// Law: a step that routed a successful result counts one more processed
/// event and no new failure or breaker rejection — so a drain in which an
/// original event and its forwarded output each succeed records two
/// processed events and zero failures.
pub proof fn lemma_success_step_counts<P: EventProcessor>(
    pre: EventProcessingEngine<P>,
    post: EventProcessingEngine<P>,
    now_ms: u64,
    i: int,
    res: ProcessingResult,
)
    requires
        routed_step(pre, post, now_ms, i, res),
        res.status == ProcessingStatus::Success,
    ensures
        post.metrics.events_processed == crate::metrics::sat_add_u64(
            pre.metrics.events_processed,
            1,
        ),
        post.metrics.events_failed == pre.metrics.events_failed,
        post.metrics.circuit_breaker_rejections == pre.metrics.circuit_breaker_rejections,
{
}

/// Saturating repeated doubling: `base` doubled `k` times, stopping at
/// `u64::MAX`.
pub open spec fn doubled_sat(base: u64, k: nat) -> u64
    decreases k,
{
    if k == 0 {
        base
    } else {
        let p = doubled_sat(base, (k - 1) as nat);
        if p > u64::MAX / 2 {
            u64::MAX
        } else {
            (p * 2) as u64
        }
    }
}

/// The backoff before redelivering a `Retry`: the base delay doubled once
/// per attempt already spent (exponential in the attempt counter),
/// saturating at `u64::MAX`; the exponent is capped at 64 doublings.
pub open spec fn retry_backoff_spec(attempts: u32, base_ms: u64) -> u64 {
    doubled_sat(base_ms, if attempts > 64 { 64nat } else { attempts as nat })
}

/// The delay a shell should honor before redelivering an event on its
/// `attempts`-th retry.
pub fn retry_backoff_ms(attempts: u32, base_ms: u64) -> (d: u64)
    ensures
        d == retry_backoff_spec(attempts, base_ms),
{
    let e: u32 = if attempts > 64 {
        64
    } else {
        attempts
    };
    let mut d: u64 = base_ms;
    let mut i: u32 = 0;
    while i < e
        invariant
            i <= e,
            e <= 64,
            d == doubled_sat(base_ms, i as nat),
        decreases e - i,
    {
        if d > u64::MAX / 2 {
            d = u64::MAX;
        } else {
            d = d * 2;
        }
        i += 1;
    }
    d
}

/// The worker loop's states.
#[derive(Clone, Copy, Debug, PartialEq, Eq, Structural)]
pub enum WorkerState {
    Waiting,
    Batching,
    Draining,
    Stopped,
}

/// What a suspended worker observed when it woke.
#[derive(Clone, Copy, Debug, PartialEq, Eq, Structural)]
pub enum WorkerTrigger {
    ShutdownSignal,
    BatchTimeout,
    EventAvailable,
    BatchProcessed,
}

/// What the worker is to do next.
#[derive(Clone, Copy, Debug, PartialEq, Eq, Structural)]
pub enum WorkerAction {
    DoNothing,
    AppendToBatch,
    ProcessBatch,
}

/// The worker loop decision function. A shutdown signal stops the worker,
/// flushing any held batch once; a batch timeout drains a non-empty batch;
/// an available event joins the batch, draining it when it reaches the
/// configured size. `Stopped` is terminal.
pub open spec fn worker_step_spec(
    state: WorkerState,
    trigger: WorkerTrigger,
    batch_len: nat,
    batch_size: nat,
) -> (WorkerState, WorkerAction) {
    match state {
        WorkerState::Stopped => (WorkerState::Stopped, WorkerAction::DoNothing),
        WorkerState::Draining => match trigger {
            WorkerTrigger::BatchProcessed => (WorkerState::Waiting, WorkerAction::DoNothing),
            WorkerTrigger::ShutdownSignal => (WorkerState::Stopped, WorkerAction::DoNothing),
            _ => (WorkerState::Draining, WorkerAction::DoNothing),
        },
        _ => match trigger {
            WorkerTrigger::ShutdownSignal => (
                WorkerState::Stopped,
                if batch_len > 0 {
                    WorkerAction::ProcessBatch
                } else {
                    WorkerAction::DoNothing
                },
            ),
            WorkerTrigger::BatchTimeout => if batch_len > 0 {
                (WorkerState::Draining, WorkerAction::ProcessBatch)
            } else {
                (WorkerState::Waiting, WorkerAction::DoNothing)
            },
            WorkerTrigger::EventAvailable => if batch_len + 1 >= batch_size {
                (WorkerState::Draining, WorkerAction::ProcessBatch)
            } else {
                (WorkerState::Batching, WorkerAction::AppendToBatch)
            },
            WorkerTrigger::BatchProcessed => (state, WorkerAction::DoNothing),
        },
    }
}

/// One worker decision; the concurrency shell performs the returned action.
pub fn worker_step(
    state: WorkerState,
    trigger: WorkerTrigger,
    batch_len: usize,
    batch_size: usize,
) -> (r: (WorkerState, WorkerAction))
    ensures
        r == worker_step_spec(state, trigger, batch_len as nat, batch_size as nat),
{
    match state {
        WorkerState::Stopped => (WorkerState::Stopped, WorkerAction::DoNothing),
        WorkerState::Draining => match trigger {
            WorkerTrigger::BatchProcessed => (WorkerState::Waiting, WorkerAction::DoNothing),
            WorkerTrigger::ShutdownSignal => (WorkerState::Stopped, WorkerAction::DoNothing),
            _ => (WorkerState::Draining, WorkerAction::DoNothing),
        },
        _ => match trigger {
            WorkerTrigger::ShutdownSignal => (
                WorkerState::Stopped,
                if batch_len > 0 {
                    WorkerAction::ProcessBatch
                } else {
                    WorkerAction::DoNothing
                },
            ),
            WorkerTrigger::BatchTimeout => if batch_len > 0 {
                (WorkerState::Draining, WorkerAction::ProcessBatch)
            } else {
                (WorkerState::Waiting, WorkerAction::DoNothing)
            },
            WorkerTrigger::EventAvailable => {
                let full = batch_len >= batch_size || batch_size - batch_len == 1;
                if full {
                    (WorkerState::Draining, WorkerAction::ProcessBatch)
                } else {
                    (WorkerState::Batching, WorkerAction::AppendToBatch)
                }
            },
            WorkerTrigger::BatchProcessed => (state, WorkerAction::DoNothing),
        },
    }
}

/// Law: `Stopped` is terminal — no trigger moves a stopped worker.
pub proof fn lemma_worker_stopped_terminal(trigger: WorkerTrigger, batch_len: nat, batch_size: nat)
    ensures
        worker_step_spec(WorkerState::Stopped, trigger, batch_len, batch_size) == (
            WorkerState::Stopped,
            WorkerAction::DoNothing,
        ),
{
}

} // verus!
