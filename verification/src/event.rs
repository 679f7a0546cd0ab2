//! The event data model, engine configuration, and error taxonomy.
//!
//! An event is immutable once created and owned by whichever stage holds it;
//! the payload is carried through the pipeline as opaque text. Producers can
//! mint events with a fresh random identifier and the current wall-clock
//! timestamp; such events always pass ingestion validation.

use vstd::prelude::*;

verus! {

pub struct Event {
    pub id: String,
    pub timestamp: u64,
    pub event_type: String,
    pub source: String,
    /// Opaque payload; the pipeline never reads it.
    pub payload: String,
    pub metadata: Vec<(String, String)>,
    /// Optional routing key; the base pipeline keeps plain FIFO order and
    /// only carries the key through.
    pub partition_key: Option<String>,
}

#[derive(Clone, Copy, Debug, PartialEq, Eq, Structural)]
pub enum ProcessingStatus {
    Success,
    Failed,
    Retry,
    Skip,
}

pub struct ProcessingResult {
    pub event_id: String,
    pub status: ProcessingStatus,
    pub processing_time_ns: u64,
    pub output_events: Vec<Event>,
    pub errors: Vec<String>,
}

#[derive(Clone, Copy, Debug, PartialEq, Eq, Structural)]
pub struct ProcessorConfig {
    pub max_batch_size: usize,
    pub max_batch_timeout_ms: u64,
    pub max_retries: u32,
    pub circuit_breaker_threshold: u32,
    pub parallel_workers: usize,
}

#[derive(Clone, Copy, Debug, PartialEq, Eq, Structural)]
pub struct EngineConfig {
    pub max_buffer_size: usize,
    pub worker_count: usize,
    pub batch_size: usize,
    pub batch_timeout_ms: u64,
    pub enable_backpressure: bool,
    /// Advisory ceiling; admission control enforces buffer capacity only.
    pub max_memory_usage_mb: usize,
}

#[derive(Debug, Clone, PartialEq, Eq)]
pub enum IngestionError {
    BufferFull,
    InvalidEvent,
    Shutdown,
}

#[derive(Debug, Clone, PartialEq, Eq)]
pub enum ProcessingError {
    WorkerStartupFailed,
    ConfigError,
    ResourceExhaustion,
}

#[derive(Debug, Clone, PartialEq, Eq)]
pub enum ShutdownError {
    Timeout,
    FlushFailed,
}

impl EngineConfig {
    /// Reject tuning no engine can start under: it needs at least one
    /// worker, a positive batch size and a positive buffer capacity.
    pub fn validate(&self) -> (r: Result<(), ProcessingError>)
        ensures
            r is Ok <==> (self.worker_count >= 1 && self.batch_size >= 1
                && self.max_buffer_size >= 1),
            r is Err ==> r == Err::<(), ProcessingError>(ProcessingError::ConfigError),
    {
        if self.worker_count >= 1 && self.batch_size >= 1 && self.max_buffer_size >= 1 {
            Ok(())
        } else {
            Err(ProcessingError::ConfigError)
        }
    }
}

/// Admission validation: an event must carry a non-empty identifier and a
/// non-empty type tag.
pub open spec fn event_valid(e: Event) -> bool {
    e.id@.len() > 0 && e.event_type@.len() > 0
}

/// Relies on uuid's `Uuid::new_v4` rendered through its `Display` impl: a
/// random version-4 UUID in the hyphenated lowercase form, which is always
/// exactly 36 characters. Nothing is assumed about which identifier comes
/// back, only its length.
#[verifier::external_body]
pub(crate) fn fresh_uuid_string() -> (r: String)
    ensures
        r@.len() == 36,
{
    uuid::Uuid::new_v4().to_string()
}

/// Relies on chrono's `Utc::now().timestamp_millis()`: the system clock as
/// milliseconds since the Unix epoch (chrono panics if the clock is set
/// before the epoch). Nothing is assumed about the value that comes back.
#[verifier::external_body]
pub(crate) fn wall_clock_unix_millis() -> (r: i64) {
    chrono::Utc::now().timestamp_millis()
}

/// The wall clock as milliseconds since the Unix epoch, clamped to zero if
/// the clock reads before the epoch.
pub fn current_time_millis() -> u64 {
    let t = wall_clock_unix_millis();
    if t < 0 {
        0
    } else {
        t as u64
    }
}

/// Copy a metadata list value-for-value.
pub(crate) fn clone_string_pairs(v: &Vec<(String, String)>) -> (r: Vec<(String, String)>)
    ensures
        r@ == v@,
{
    let mut out: Vec<(String, String)> = Vec::new();
    let mut i: usize = 0;
    while i < v.len()
        invariant
            i <= v@.len(),
            out@.len() == i,
            forall|j: int| 0 <= j < i ==> out@[j] == v@[j],
        decreases v@.len() - i,
    {
        let key = v[i].0.clone();
        let value = v[i].1.clone();
        out.push((key, value));
        i += 1;
    }
    proof {
        assert(out@ =~= v@);
    }
    out
}

/// Copy an optional routing key value-for-value.
pub(crate) fn clone_partition_key(k: &Option<String>) -> (r: Option<String>)
    ensures
        r == *k,
{
    match k {
        Some(s) => Some(s.clone()),
        None => None,
    }
}

impl Event {
    /// Mint an event with a fresh random identifier and the wall clock's
    /// current timestamp. The result passes admission validation exactly
    /// when the type tag is non-empty.
    pub fn with_fresh_id(
        event_type: String,
        source: String,
        payload: String,
        partition_key: Option<String>,
    ) -> (e: Event)
        ensures
            e.id@.len() == 36,
            e.event_type == event_type,
            e.source == source,
            e.payload == payload,
            e.partition_key == partition_key,
            e.metadata@ == Seq::<(String, String)>::empty(),
            event_valid(e) <==> event_type@.len() > 0,
    {
        Event {
            id: fresh_uuid_string(),
            timestamp: current_time_millis(),
            event_type,
            source,
            payload,
            metadata: Vec::new(),
            partition_key,
        }
    }

    /// Admission validation as executable code.
    pub fn is_valid(&self) -> (r: bool)
        ensures
            r == event_valid(*self),
    {
        !self.id.as_str().is_empty() && !self.event_type.as_str().is_empty()
    }
}

} // verus!
