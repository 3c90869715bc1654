//! The span lifecycle: spans are started with an explicit parent and, once
//! ended, owned by the export pipeline.
use crate::codec::{TraceContext, FLAG_SAMPLED};
use crate::export::{BatchConfig, BatchProcessor};
use crate::span::{Span, SpanStatus};
use vstd::prelude::*;

verus! {

/// Attributes of the process, attached to every exported span.
pub struct Resource {
    pub service_name: String,
    pub service_version: String,
}

/// Starts spans and hands ended ones to its pipeline.
pub struct Tracer {
    pub resource: Resource,
    pub processor: BatchProcessor,
}

impl Tracer {
    pub fn new(resource: Resource, config: BatchConfig, now: u64) -> (r: Tracer)
        requires
            config.valid(),
        ensures
            r.processor.wf(),
            r.processor.config() == config,
            r.processor.queued().len() == 0,
            r.processor.dropped() == 0,
            r.processor.last_flush() == now,
            !r.processor.is_shut_down(),
            r.processor.submitted().len() == 0,
            r.processor.emitted().len() == 0,
            r.processor.rejected().len() == 0,
            r.processor.undelivered() == 0,
            r.resource.service_name@ == resource.service_name@,
            r.resource.service_version@ == resource.service_version@,
    {
        Tracer { resource, processor: BatchProcessor::new(config, now) }
    }

    /// Starts a span under `parent`, or as a new root when there is none.
    pub fn start_span(
        &self,
        name: String,
        parent: Option<TraceContext>,
        new_trace_id: u128,
        new_span_id: u64,
        now: u64,
    ) -> (r: Span)
        requires
            new_trace_id != 0,
            new_span_id != 0,
        ensures
            r.span_id == new_span_id,
            r.name@ == name@,
            r.start_time == now,
            r.end_time is None,
            r.attributes@.len() == 0,
            r.status == SpanStatus::Unset,
            match parent {
                Some(p) => if p.valid() {
                    r.trace_id == p.trace_id && r.parent_span_id == Some(p.span_id)
                        && r.trace_flags == p.trace_flags
                } else {
                    r.trace_id == new_trace_id && r.parent_span_id is None && r.trace_flags
                        == FLAG_SAMPLED
                },
                None => r.trace_id == new_trace_id && r.parent_span_id is None && r.trace_flags
                    == FLAG_SAMPLED,
            },
            r.context().valid(),
    {
        Span::start(name, parent, new_trace_id, new_span_id, now)
    }

    /// Ends `span` at `now`, unless it has ended already, and submits it to
    /// the pipeline, which owns it from then on.
    pub fn end_span(&mut self, span: Span, now: u64)
        requires
            old(self).processor.wf(),
        ensures
            final(self).processor.wf(),
            final(self).processor.config() == old(self).processor.config(),
            final(self).processor.emitted() == old(self).processor.emitted(),
            final(self).processor.last_flush() == old(self).processor.last_flush(),
            final(self).processor.is_shut_down() == old(self).processor.is_shut_down(),
            final(self).processor.undelivered() == old(self).processor.undelivered(),
            final(self).resource.service_name@ == old(self).resource.service_name@,
            final(self).resource.service_version@ == old(self).resource.service_version@,
            ({
                let s = final(self).processor.submitted().last();
                &&& final(self).processor.submitted() == old(self).processor.submitted().push(s)
                &&& s.context() == span.context()
                &&& s.parent_span_id == span.parent_span_id
                &&& s.name@ == span.name@
                &&& s.start_time == span.start_time
                &&& s.attributes@ == span.attributes@
                &&& s.status == span.status
                &&& s.end_time == if span.end_time is None {
                    Some(now)
                } else {
                    span.end_time
                }
                &&& if old(self).processor.is_shut_down() || old(self).processor.queued().len()
                    >= old(self).processor.config().max_queue_size {
                    &&& final(self).processor.queued() == old(self).processor.queued()
                    &&& final(self).processor.rejected() == old(self).processor.rejected().push(s)
                    &&& final(self).processor.dropped() == crate::export::sat_add(
                        old(self).processor.dropped(),
                        1,
                    )
                } else {
                    &&& final(self).processor.queued() == old(self).processor.queued().push(s)
                    &&& final(self).processor.rejected() == old(self).processor.rejected()
                    &&& final(self).processor.dropped() == old(self).processor.dropped()
                }
            }),
    {
        let mut span = span;
        span.end(now);
        self.processor.submit(span);
    }
}

} // verus!
