//! The processor capability and a transform processor.
//!
//! A processor is the pluggable unit of work: collaborators implement
//! `process` (and may override `process_batch`) and describe their tuning
//! through `get_config`. The engine treats the returned result as opaque
//! data and routes it by status alone, so nothing is demanded of an
//! implementation beyond returning one result per event.

use crate::event::{
    clone_partition_key, clone_string_pairs, fresh_uuid_string, Event, ProcessingResult,
    ProcessingStatus, ProcessorConfig,
};
use crate::event::event_valid;
use vstd::prelude::*;

verus! {

pub trait EventProcessor: Sized {
    /// Process one event and report the outcome.
    fn process(&self, event: &Event) -> ProcessingResult;

    /// Process a batch; the default processes the events one by one, in
    /// order, and returns one result per event.
    fn process_batch(&self, events: &Vec<Event>) -> (results: Vec<ProcessingResult>)
        ensures
            results@.len() == events@.len(),
    {
        let mut results: Vec<ProcessingResult> = Vec::new();
        let mut i: usize = 0;
        while i < events.len()
            invariant
                i <= events@.len(),
                results@.len() == i,
            decreases events@.len() - i,
        {
            let r = self.process(&events[i]);
            results.push(r);
            i += 1;
        }
        results
    }

    /// The tuning parameters this processor asks the engine to honour.
    fn get_config(&self) -> ProcessorConfig;
}

/// The forwarding rule for type tag `t`: the type tag of the event the
/// transform emits, if any rule matches (first match wins).
pub open spec fn rule_for(rules: Seq<(String, String)>, t: Seq<char>) -> Option<Seq<char>>
    decreases rules.len(),
{
    if rules.len() == 0 {
        None
    } else if rules[0].0@ == t {
        Some(rules[0].1@)
    } else {
        rule_for(rules.drop_first(), t)
    }
}

/// A processor that succeeds on every event and, where a forwarding rule
/// matches the event's type, emits one copy of the event under the rule's
/// target type and a fresh identifier.
pub struct TransformProcessor {
    pub config: ProcessorConfig,
    /// Pairs of (matched event type, emitted event type); first match wins.
    pub transformation_rules: Vec<(String, String)>,
}

impl TransformProcessor {
    /// Construct with the transform's standing tuning parameters.
    pub fn new(rules: Vec<(String, String)>) -> (p: TransformProcessor)
        ensures
            p.transformation_rules@ == rules@,
            p.config == (ProcessorConfig {
                max_batch_size: 1000,
                max_batch_timeout_ms: 100,
                max_retries: 3,
                circuit_breaker_threshold: 10,
                parallel_workers: 4,
            }),
    {
        TransformProcessor {
            config: ProcessorConfig {
                max_batch_size: 1000,
                max_batch_timeout_ms: 100,
                max_retries: 3,
                circuit_breaker_threshold: 10,
                parallel_workers: 4,
            },
            transformation_rules: rules,
        }
    }

    /// The matching rule's target type, if any.
    fn lookup_rule(&self, t: &String) -> (r: Option<&String>)
        ensures
            match r {
                Some(s) => rule_for(self.transformation_rules@, t@) == Some(s@),
                None => rule_for(self.transformation_rules@, t@) is None,
            },
    {
        let rules = &self.transformation_rules;
        let mut i: usize = 0;
        proof {
            assert(rules@.skip(0) =~= rules@);
        }
        while i < rules.len()
            invariant
                i <= rules@.len(),
                rules == &self.transformation_rules,
                rule_for(rules@, t@) == rule_for(rules@.skip(i as int), t@),
            decreases rules@.len() - i,
        {
            if rules[i].0 == *t {
                proof {
                    assert(rules@.skip(i as int)[0] == rules@[i as int]);
                    assert(rule_for(rules@.skip(i as int), t@) == Some(rules@[i as int].1@));
                }
                return Some(&rules[i].1);
            }
            proof {
                assert(rules@.skip(i as int).drop_first() =~= rules@.skip(i as int + 1));
                assert(rules@.skip(i as int)[0] == rules@[i as int]);
            }
            i += 1;
        }
        proof {
            assert(rules@.skip(rules@.len() as int).len() == 0);
        }
        None
    }
}

impl EventProcessor for TransformProcessor {
    /// Succeeds on every event. Where a forwarding rule matches, the single
    /// output event carries the rule's target type, a fresh identifier, and
    /// the input's timestamp, source, payload, metadata and routing key.
    fn process(&self, event: &Event) -> (r: ProcessingResult)
        ensures
            r.status == ProcessingStatus::Success,
            r.event_id == event.id,
            r.errors@.len() == 0,
            r.processing_time_ns == 0,
            match rule_for(self.transformation_rules@, event.event_type@) {
                Some(target) => {
                    &&& r.output_events@.len() == 1
                    &&& r.output_events@[0].event_type@ == target
                    &&& r.output_events@[0].id@.len() == 36
                    &&& r.output_events@[0].timestamp == event.timestamp
                    &&& r.output_events@[0].source == event.source
                    &&& r.output_events@[0].payload == event.payload
                    &&& r.output_events@[0].metadata@ == event.metadata@
                    &&& r.output_events@[0].partition_key == event.partition_key
                    &&& (event_valid(r.output_events@[0]) <==> target.len() > 0)
                },
                None => r.output_events@.len() == 0,
            },
    {
        let mut output_events: Vec<Event> = Vec::new();
        let target = self.lookup_rule(&event.event_type);
        match target {
            Some(target_type) => {
                let forwarded = Event {
                    id: fresh_uuid_string(),
                    timestamp: event.timestamp,
                    event_type: target_type.clone(),
                    source: event.source.clone(),
                    payload: event.payload.clone(),
                    metadata: clone_string_pairs(&event.metadata),
                    partition_key: clone_partition_key(&event.partition_key),
                };
                output_events.push(forwarded);
            },
            None => {},
        }
        ProcessingResult {
            event_id: event.id.clone(),
            status: ProcessingStatus::Success,
            processing_time_ns: 0,
            output_events,
            errors: Vec::new(),
        }
    }

    fn get_config(&self) -> (c: ProcessorConfig)
        ensures
            c == self.config,
    {
        self.config
    }
}

} // verus!
