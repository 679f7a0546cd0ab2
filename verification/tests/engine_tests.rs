use event_pipeline::buffer::{BoundedBuffer, BufferError};
use event_pipeline::engine::{
    retry_backoff_ms, worker_step, EventProcessingEngine, WorkerAction, WorkerState,
    WorkerTrigger,
};
use event_pipeline::event::{
    EngineConfig, Event, IngestionError, ProcessingError, ProcessingResult, ProcessingStatus,
    ProcessorConfig,
};
use event_pipeline::processor::{EventProcessor, TransformProcessor};

fn make_event(id: &str, event_type: &str) -> Event {
    Event {
        id: id.to_string(),
        timestamp: 1_700_000_000_000,
        event_type: event_type.to_string(),
        source: "test_rig".to_string(),
        payload: "{}".to_string(),
        metadata: Vec::new(),
        partition_key: None,
    }
}

fn small_config(capacity: usize, backpressure: bool) -> EngineConfig {
    EngineConfig {
        max_buffer_size: capacity,
        worker_count: 2,
        batch_size: 16,
        batch_timeout_ms: 50,
        enable_backpressure: backpressure,
        max_memory_usage_mb: 64,
    }
}

/// A processor that always reports the given status, with no outputs.
struct FixedStatusProcessor {
    status: ProcessingStatus,
    config: ProcessorConfig,
}

impl FixedStatusProcessor {
    fn new(status: ProcessingStatus, max_retries: u32, breaker_threshold: u32) -> Self {
        FixedStatusProcessor {
            status,
            config: ProcessorConfig {
                max_batch_size: 100,
                max_batch_timeout_ms: 50,
                max_retries,
                circuit_breaker_threshold: breaker_threshold,
                parallel_workers: 1,
            },
        }
    }
}

impl EventProcessor for FixedStatusProcessor {
    fn process(&self, event: &Event) -> ProcessingResult {
        ProcessingResult {
            event_id: event.id.clone(),
            status: self.status,
            processing_time_ns: 1_000,
            output_events: Vec::new(),
            errors: Vec::new(),
        }
    }

    fn get_config(&self) -> ProcessorConfig {
        self.config
    }
}

#[test]
fn test_high_throughput_processing() {
    let mut engine: EventProcessingEngine<TransformProcessor> =
        EventProcessingEngine::new(small_config(10_000, true));
    engine.register_processor("user_action".to_string(), TransformProcessor::new(Vec::new()));
    let mut events = Vec::new();
    for i in 0..2_000u32 {
        events.push(make_event(&format!("evt-{}", i), "user_action"));
    }
    let admitted = engine.ingest_batch(events).unwrap();
    assert_eq!(admitted, 2_000);
    let steps = engine.run_steps(0, 10_000);
    assert_eq!(steps, 2_000);
    let summary = engine.get_performance_metrics();
    assert_eq!(summary.total_events, 2_000);
    assert_eq!(summary.total_failures, 0);
    assert_eq!(summary.success_rate_ppm, 1_000_000);
}

#[test]
fn test_backpressure_handling() {
    let mut engine: EventProcessingEngine<TransformProcessor> =
        EventProcessingEngine::new(small_config(3, true));
    assert!(engine.ingest_event(make_event("a", "t")).is_ok());
    assert!(engine.ingest_event(make_event("b", "t")).is_ok());
    assert!(engine.ingest_event(make_event("c", "t")).is_ok());
    // The buffer is at capacity: backpressure refuses the next event.
    assert_eq!(
        engine.ingest_event(make_event("d", "t")),
        Err(IngestionError::BufferFull)
    );
    // Handling one event frees one slot and admission recovers.
    assert!(engine.process_next(0));
    assert!(engine.ingest_event(make_event("d", "t")).is_ok());
    // With backpressure off, pushes beyond capacity succeed.
    let mut open_engine: EventProcessingEngine<TransformProcessor> =
        EventProcessingEngine::new(small_config(1, false));
    assert!(open_engine.ingest_event(make_event("a", "t")).is_ok());
    assert!(open_engine.ingest_event(make_event("b", "t")).is_ok());
}

#[test]
fn test_fault_tolerance() {
    // A processor that always fails trips its breaker after the threshold,
    // and later events are refused by the breaker, counted apart.
    let mut engine: EventProcessingEngine<FixedStatusProcessor> =
        EventProcessingEngine::new(small_config(100, true));
    engine.register_processor(
        "flaky".to_string(),
        FixedStatusProcessor::new(ProcessingStatus::Failed, 0, 3),
    );
    for i in 0..5u32 {
        engine
            .ingest_event(make_event(&format!("f-{}", i), "flaky"))
            .unwrap();
    }
    let steps = engine.run_steps(1_000, 100);
    assert_eq!(steps, 5);
    let summary = engine.get_performance_metrics();
    assert_eq!(summary.total_events, 5);
    assert_eq!(summary.total_failures, 5);
    // The first three invocations failed and opened the breaker; the last
    // two never reached the processor.
    assert_eq!(summary.circuit_breaker_rejections, 2);
}

#[test]
fn test_retry_demotes_to_failed_after_budget() {
    let mut engine: EventProcessingEngine<FixedStatusProcessor> =
        EventProcessingEngine::new(small_config(100, true));
    engine.register_processor(
        "transient".to_string(),
        FixedStatusProcessor::new(ProcessingStatus::Retry, 2, 100),
    );
    engine.ingest_event(make_event("r-1", "transient")).unwrap();
    // Attempt 0 and the two budgeted retries re-enter the queue; the
    // fourth attempt exhausts the budget and is demoted to a failure.
    let steps = engine.run_steps(0, 100);
    assert_eq!(steps, 3);
    let summary = engine.get_performance_metrics();
    assert_eq!(summary.total_events, 1);
    assert_eq!(summary.total_failures, 1);
    assert_eq!(engine.output_buffer.len(), 1);
    assert!(matches!(
        engine.output_buffer[0].status,
        ProcessingStatus::Failed
    ));
}

#[test]
fn test_buffer_fifo_order() {
    // Pops hand events out in exactly the order they were pushed.
    let mut buffer: BoundedBuffer<u64> = BoundedBuffer::new(10, true);
    for v in [4u64, 7, 1, 9] {
        assert!(buffer.push(v).is_ok());
    }
    assert_eq!(buffer.pop(), Some(4));
    assert_eq!(buffer.pop(), Some(7));
    assert!(buffer.push(5).is_ok());
    assert_eq!(buffer.pop(), Some(1));
    assert_eq!(buffer.pop(), Some(9));
    assert_eq!(buffer.pop(), Some(5));
    assert_eq!(buffer.pop(), None);
}

#[test]
fn test_buffer_capacity_boundary() {
    let mut buffer: BoundedBuffer<u32> = BoundedBuffer::new(2, true);
    assert!(buffer.push(1).is_ok());
    assert!(buffer.push(2).is_ok());
    assert_eq!(buffer.push(3), Err(BufferError::Full));
    assert_eq!(buffer.pop(), Some(1));
    assert!(buffer.push(3).is_ok());
    assert!(buffer.is_full());
}

#[test]
fn test_success_forwarding_counts_both_events() {
    // A processor whose output event carries another registered type: the
    // forwarded event is re-ingested and processed too.
    let mut engine: EventProcessingEngine<TransformProcessor> =
        EventProcessingEngine::new(small_config(100, true));
    engine.register_processor(
        "ingress".to_string(),
        TransformProcessor::new(vec![("ingress".to_string(), "enriched".to_string())]),
    );
    engine.register_processor("enriched".to_string(), TransformProcessor::new(Vec::new()));
    engine.ingest_event(make_event("seed", "ingress")).unwrap();
    let steps = engine.run_steps(0, 100);
    assert_eq!(steps, 2);
    let summary = engine.get_performance_metrics();
    assert_eq!(summary.total_events, 2);
    assert_eq!(summary.total_failures, 0);
    assert_eq!(engine.input_buffer.len(), 0);
}

#[test]
fn test_unroutable_events_are_dropped_and_counted() {
    let mut engine: EventProcessingEngine<TransformProcessor> =
        EventProcessingEngine::new(small_config(10_000, true));
    let mut events = Vec::new();
    for i in 0..10_000u32 {
        events.push(make_event(&format!("n-{}", i), "unregistered"));
    }
    assert_eq!(engine.ingest_batch(events).unwrap(), 10_000);
    let steps = engine.run_steps(0, 20_000);
    assert_eq!(steps, 10_000);
    let summary = engine.get_performance_metrics();
    assert_eq!(summary.total_events, 10_000);
    assert_eq!(summary.total_failures, 10_000);
    assert_eq!(engine.input_buffer.len(), 0);
}

#[test]
fn test_metrics_snapshot_idempotent() {
    let mut engine: EventProcessingEngine<TransformProcessor> =
        EventProcessingEngine::new(small_config(10, true));
    engine.register_processor("t".to_string(), TransformProcessor::new(Vec::new()));
    engine.ingest_event(make_event("a", "t")).unwrap();
    engine.run_steps(0, 10);
    let first = engine.get_performance_metrics();
    let second = engine.get_performance_metrics();
    assert_eq!(first, second);
}

#[test]
fn test_ingest_validation_and_shutdown_errors() {
    let mut engine: EventProcessingEngine<TransformProcessor> =
        EventProcessingEngine::new(small_config(10, true));
    let mut no_id = make_event("", "t");
    no_id.id = String::new();
    assert_eq!(
        engine.ingest_event(no_id),
        Err(IngestionError::InvalidEvent)
    );
    let no_type = make_event("x", "");
    assert_eq!(
        engine.ingest_event(no_type),
        Err(IngestionError::InvalidEvent)
    );
    engine.ingest_event(make_event("y", "t")).unwrap();
    assert!(engine.shutdown(0).is_ok());
    assert_eq!(engine.input_buffer.len(), 0);
    assert_eq!(
        engine.ingest_event(make_event("z", "t")),
        Err(IngestionError::Shutdown)
    );
}

#[test]
fn test_config_validation() {
    let good = small_config(10, true);
    assert!(good.validate().is_ok());
    let mut bad = small_config(10, true);
    bad.worker_count = 0;
    assert_eq!(bad.validate(), Err(ProcessingError::ConfigError));
    let mut bad_batch = small_config(10, true);
    bad_batch.batch_size = 0;
    assert_eq!(bad_batch.validate(), Err(ProcessingError::ConfigError));
}

#[test]
fn test_fresh_events_pass_validation() {
    // The minted identifier is a hyphenated UUID: 36 ASCII characters, so
    // the event always passes admission.
    let event = Event::with_fresh_id(
        "user_action".to_string(),
        "web_app".to_string(),
        "{\"k\":1}".to_string(),
        Some("p-1".to_string()),
    );
    assert_eq!(event.id.len(), 36);
    assert!(event.timestamp > 0);
    let mut engine: EventProcessingEngine<TransformProcessor> =
        EventProcessingEngine::new(small_config(10, true));
    assert!(engine.ingest_event(event).is_ok());
}

#[test]
fn test_worker_step_decisions() {
    // Shutdown stops the worker, flushing a held batch once.
    assert_eq!(
        worker_step(WorkerState::Batching, WorkerTrigger::ShutdownSignal, 3, 16),
        (WorkerState::Stopped, WorkerAction::ProcessBatch)
    );
    assert_eq!(
        worker_step(WorkerState::Waiting, WorkerTrigger::ShutdownSignal, 0, 16),
        (WorkerState::Stopped, WorkerAction::DoNothing)
    );
    // A timeout drains only a non-empty batch.
    assert_eq!(
        worker_step(WorkerState::Batching, WorkerTrigger::BatchTimeout, 2, 16),
        (WorkerState::Draining, WorkerAction::ProcessBatch)
    );
    assert_eq!(
        worker_step(WorkerState::Waiting, WorkerTrigger::BatchTimeout, 0, 16),
        (WorkerState::Waiting, WorkerAction::DoNothing)
    );
    // An event fills the batch to the configured size and triggers a drain.
    assert_eq!(
        worker_step(WorkerState::Batching, WorkerTrigger::EventAvailable, 15, 16),
        (WorkerState::Draining, WorkerAction::ProcessBatch)
    );
    assert_eq!(
        worker_step(WorkerState::Waiting, WorkerTrigger::EventAvailable, 0, 16),
        (WorkerState::Batching, WorkerAction::AppendToBatch)
    );
    // Stopped is terminal.
    assert_eq!(
        worker_step(WorkerState::Stopped, WorkerTrigger::EventAvailable, 0, 16),
        (WorkerState::Stopped, WorkerAction::DoNothing)
    );
    // A finished drain returns the worker to waiting.
    assert_eq!(
        worker_step(WorkerState::Draining, WorkerTrigger::BatchProcessed, 0, 16),
        (WorkerState::Waiting, WorkerAction::DoNothing)
    );
}

#[test]
fn test_processor_batch_default_processes_each_event() {
    let processor = TransformProcessor::new(Vec::new());
    let events = vec![make_event("a", "t"), make_event("b", "t")];
    let results = processor.process_batch(&events);
    assert_eq!(results.len(), 2);
    assert_eq!(results[0].event_id, "a");
    assert_eq!(results[1].event_id, "b");
    assert!(matches!(results[0].status, ProcessingStatus::Success));
}

#[test]
fn test_retry_backoff_doubles_per_attempt() {
    assert_eq!(retry_backoff_ms(0, 50), 50);
    assert_eq!(retry_backoff_ms(1, 50), 100);
    assert_eq!(retry_backoff_ms(3, 100), 800);
    assert_eq!(retry_backoff_ms(10, 1), 1_024);
    assert_eq!(retry_backoff_ms(5, 0), 0);
    assert_eq!(retry_backoff_ms(80, 1), u64::MAX);
}

#[test]
fn test_next_retry_delay_follows_front_attempts() {
    let mut engine: EventProcessingEngine<FixedStatusProcessor> =
        EventProcessingEngine::new(small_config(10, true));
    assert_eq!(engine.next_retry_delay_ms(50), 0);
    engine.register_processor(
        "transient".to_string(),
        FixedStatusProcessor::new(ProcessingStatus::Retry, 3, 100),
    );
    engine.ingest_event(make_event("r", "transient")).unwrap();
    // A fresh delivery carries no delay.
    assert_eq!(engine.next_retry_delay_ms(50), 0);
    // After one attempt the event is requeued with one attempt spent, and
    // the shell is told to back off one doubling of the base delay.
    assert!(engine.process_next(0));
    assert_eq!(engine.next_retry_delay_ms(50), 100);
    assert!(engine.process_next(0));
    assert_eq!(engine.next_retry_delay_ms(50), 200);
}

#[test]
fn test_register_twice_is_idempotent() {
    let mut engine: EventProcessingEngine<TransformProcessor> =
        EventProcessingEngine::new(small_config(10, true));
    engine.register_processor("t".to_string(), TransformProcessor::new(Vec::new()));
    engine.register_processor("t".to_string(), TransformProcessor::new(Vec::new()));
    assert_eq!(engine.processors.len(), 1);
    engine.ingest_event(make_event("a", "t")).unwrap();
    assert_eq!(engine.run_steps(0, 10), 1);
    let summary = engine.get_performance_metrics();
    assert_eq!(summary.total_events, 1);
    assert_eq!(summary.total_failures, 0);
}

#[test]
fn test_synthetic_failure_messages_are_distinct() {
    // An unroutable event and a breaker rejection carry different error
    // texts, so operators can tell a missing processor from an
    // unavailable one.
    let mut engine: EventProcessingEngine<FixedStatusProcessor> =
        EventProcessingEngine::new(small_config(10, true));
    engine.ingest_event(make_event("x", "nowhere")).unwrap();
    assert!(engine.process_next(0));
    assert_eq!(
        engine.output_buffer[0].errors[0],
        "no processor registered for this event type"
    );
    engine.register_processor(
        "flaky".to_string(),
        FixedStatusProcessor::new(ProcessingStatus::Failed, 0, 1),
    );
    engine.ingest_event(make_event("y", "flaky")).unwrap();
    engine.ingest_event(make_event("z", "flaky")).unwrap();
    assert_eq!(engine.run_steps(0, 10), 2);
    assert_eq!(
        engine.output_buffer[2].errors[0],
        "circuit breaker open: processor unavailable"
    );
}

#[test]
fn test_shutdown_drains_and_accounts_queued_events() {
    let mut engine: EventProcessingEngine<TransformProcessor> =
        EventProcessingEngine::new(small_config(10, true));
    engine.register_processor("t".to_string(), TransformProcessor::new(Vec::new()));
    engine.ingest_event(make_event("a", "t")).unwrap();
    engine.ingest_event(make_event("b", "t")).unwrap();
    assert!(engine.shutdown(0).is_ok());
    // The drain processed the in-flight events instead of discarding
    // them: both are counted and their results recorded.
    assert_eq!(engine.input_buffer.len(), 0);
    assert_eq!(engine.output_buffer.len(), 2);
    let summary = engine.get_performance_metrics();
    assert_eq!(summary.total_events, 2);
    assert_eq!(summary.total_failures, 0);
}
