use grpc_trace::carrier::Carrier;
use grpc_trace::export::{BatchConfig, BatchProcessor};
use grpc_trace::propagation::Propagator;
use grpc_trace::retry::{ExportResult, ExportStep, RetryPolicy};
use grpc_trace::span::{AttrValue, Span, SpanStatus};
use grpc_trace::tracer::{Resource, Tracer};

fn ended(id: u64) -> Span {
    let mut s = Span::start(format!("op{}", id), None, 7, id, 0);
    s.end(1);
    s
}

fn ids(batch: &[Span]) -> Vec<u64> {
    batch.iter().map(|s| s.span_id).collect()
}

#[test]
fn config_requires_consistent_sizes() {
    assert!(BatchConfig::new(0, 0, 10).is_none());
    assert!(BatchConfig::new(4, 0, 10).is_none());
    assert!(BatchConfig::new(4, 5, 10).is_none());
    let c = BatchConfig::new(4, 4, 10).unwrap();
    assert_eq!(c.max_queue_size, 4);
}

#[test]
fn size_threshold_triggers_one_flush() {
    let mut p = BatchProcessor::new(BatchConfig::new(10, 3, 1000).unwrap(), 0);
    p.submit(ended(1));
    p.submit(ended(2));
    assert!(p.poll(0).is_none());
    p.submit(ended(3));
    let batch = p.poll(0).unwrap();
    assert_eq!(ids(&batch), vec![1, 2, 3]);
    assert!(p.poll(0).is_none());
    assert_eq!(p.queue_len(), 0);
}

#[test]
fn interval_triggers_flush_of_partial_batch() {
    let mut p = BatchProcessor::new(BatchConfig::new(10, 3, 100).unwrap(), 0);
    p.submit(ended(1));
    p.submit(ended(2));
    assert!(p.poll(99).is_none());
    let batch = p.poll(100).unwrap();
    assert_eq!(ids(&batch), vec![1, 2]);
    assert!(p.poll(150).is_none());
    assert!(p.poll(1000).is_none());
}

#[test]
fn full_buffer_drops_new_spans_and_counts_them() {
    let mut p = BatchProcessor::new(BatchConfig::new(2, 2, 100).unwrap(), 0);
    p.submit(ended(1));
    p.submit(ended(2));
    p.submit(ended(3));
    assert_eq!(p.dropped_count(), 1);
    assert_eq!(ids(&p.poll(0).unwrap()), vec![1, 2]);
}

#[test]
fn every_span_delivered_once() {
    let mut p = BatchProcessor::new(BatchConfig::new(8, 4, 50).unwrap(), 0);
    let mut seen = Vec::new();
    let mut now = 0u64;
    for id in 1..=23u64 {
        p.submit(ended(id));
        now += 10;
        if let Some(b) = p.poll(now) {
            seen.extend(ids(&b));
        }
    }
    seen.extend(ids(&p.shutdown()));
    assert_eq!(seen, (1..=23).collect::<Vec<u64>>());
    assert_eq!(p.dropped_count(), 0);
}

#[test]
fn shutdown_drains_buffer_and_refuses_later_spans() {
    let mut p = BatchProcessor::new(BatchConfig::new(8, 4, 50).unwrap(), 0);
    p.submit(ended(1));
    p.submit(ended(2));
    let last = p.shutdown();
    assert_eq!(ids(&last), vec![1, 2]);
    p.submit(ended(3));
    assert_eq!(p.dropped_count(), 1);
    assert_eq!(p.queue_len(), 0);
}

#[test]
fn undelivered_batch_is_counted_as_dropped() {
    let mut p = BatchProcessor::new(BatchConfig::new(8, 4, 50).unwrap(), 0);
    p.submit(ended(1));
    p.submit(ended(2));
    let last = p.shutdown();
    p.record_undelivered(last.len());
    assert_eq!(p.dropped_count(), 2);
}

#[test]
fn span_start_root_and_child() {
    let root = Span::start("root".to_string(), None, 99, 5, 10);
    assert_eq!(root.trace_id, 99);
    assert_eq!(root.parent_span_id, None);
    assert_eq!(root.trace_flags, 1);
    let child = Span::start("child".to_string(), Some(root.span_context()), 123, 6, 11);
    assert_eq!(child.trace_id, 99);
    assert_eq!(child.parent_span_id, Some(5));
    assert_eq!(child.start_time, 11);
}

#[test]
fn span_end_is_idempotent_and_freezes_span() {
    let mut s = Span::start("s".to_string(), None, 1, 2, 0);
    s.set_attribute("k".to_string(), AttrValue::Int(3));
    s.set_status(SpanStatus::Success);
    assert!(s.end(5));
    assert!(!s.end(9));
    assert_eq!(s.end_time, Some(5));
    s.set_attribute("late".to_string(), AttrValue::Bool(true));
    s.set_status(SpanStatus::Failure);
    assert_eq!(s.attributes.len(), 1);
    assert_eq!(s.status, SpanStatus::Success);
    assert!(s.is_ended());
}

#[test]
fn retry_backoff_doubles_up_to_cap() {
    let p = RetryPolicy { max_retries: 5, initial_backoff: 100, max_backoff: 1000 };
    assert_eq!(p.backoff_delay(0), 100);
    assert_eq!(p.backoff_delay(1), 200);
    assert_eq!(p.backoff_delay(3), 800);
    assert_eq!(p.backoff_delay(4), 1000);
    assert_eq!(p.backoff_delay(40), 1000);
}

#[test]
fn retry_steps() {
    let p = RetryPolicy { max_retries: 2, initial_backoff: 100, max_backoff: 1000 };
    assert_eq!(p.next_step(0, ExportResult::Success, 0, None), ExportStep::Done);
    assert_eq!(p.next_step(0, ExportResult::Fatal, 0, None), ExportStep::GiveUp);
    assert_eq!(p.next_step(0, ExportResult::Retryable, 0, None), ExportStep::RetryAfter(100));
    assert_eq!(p.next_step(1, ExportResult::Retryable, 0, None), ExportStep::RetryAfter(200));
    assert_eq!(p.next_step(2, ExportResult::Retryable, 0, None), ExportStep::GiveUp);
    assert_eq!(p.next_step(1, ExportResult::Retryable, 50, Some(250)), ExportStep::RetryAfter(200));
    assert_eq!(p.next_step(1, ExportResult::Retryable, 51, Some(250)), ExportStep::GiveUp);
}

#[test]
fn end_to_end_parent_linkage() {
    let resource = Resource { service_name: "grpc-client".to_string(), service_version: "0.1.0".to_string() };
    let mut tracer = Tracer::new(resource, BatchConfig::new(16, 8, 100).unwrap(), 0);
    let propagator = Propagator::new();

    let s1 = tracer.start_span("greet".to_string(), None, 0xabc, 0x11, 1);
    let mut carrier = Carrier::new();
    propagator.inject(Some(s1.span_context()), &mut carrier);

    let parent = propagator.extract(&carrier);
    let s2 = tracer.start_span("say_hello".to_string(), parent, 0xdef, 0x22, 2);
    tracer.end_span(s2, 3);
    tracer.end_span(s1, 4);

    let batch = tracer.processor.poll(200).unwrap();
    assert_eq!(batch.len(), 2);
    let s2 = &batch[0];
    let s1 = &batch[1];
    assert_eq!(s1.parent_span_id, None);
    assert_eq!(s2.parent_span_id, Some(s1.span_id));
    assert_eq!(s1.trace_id, 0xabc);
    assert_eq!(s2.trace_id, s1.trace_id);
    assert_eq!(s2.end_time, Some(3));
    assert_eq!(tracer.resource.service_name, "grpc-client");
}

#[test]
fn root_after_empty_extract_gets_fresh_trace() {
    let tracer = Tracer::new(
        Resource { service_name: "s".to_string(), service_version: "v".to_string() },
        BatchConfig::new(4, 2, 10).unwrap(),
        0,
    );
    let parent = Propagator::new().extract(&Carrier::new());
    assert!(parent.is_none());
    let s = tracer.start_span("x".to_string(), parent, 0x77, 0x1, 0);
    assert_eq!(s.trace_id, 0x77);
    assert_eq!(s.parent_span_id, None);
}

#[test]
fn ended_spans_fill_one_batch_in_completion_order() {
    let resource = Resource { service_name: "s".to_string(), service_version: "v".to_string() };
    let mut tracer = Tracer::new(resource, BatchConfig::new(8, 3, 1000).unwrap(), 0);
    let a = tracer.start_span("a".to_string(), None, 1, 1, 0);
    let b = tracer.start_span("b".to_string(), Some(a.span_context()), 2, 2, 0);
    let c = tracer.start_span("c".to_string(), Some(b.span_context()), 3, 3, 0);
    tracer.end_span(c, 1);
    tracer.end_span(b, 2);
    assert!(tracer.processor.poll(0).is_none());
    tracer.end_span(a, 3);
    let batch = tracer.processor.poll(0).unwrap();
    assert_eq!(ids(&batch), vec![3, 2, 1]);
    assert!(tracer.processor.poll(0).is_none());
}
