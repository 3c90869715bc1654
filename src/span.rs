//! Spans: timed units of work, linked to their parent by ids.
use crate::codec::{TraceContext, FLAG_SAMPLED};
use vstd::prelude::*;

verus! {

/// How a span's work came out.
#[derive(Clone, Copy, Debug, PartialEq, Eq, Structural)]
pub enum SpanStatus {
    Unset,
    Success,
    Failure,
}

/// A scalar attribute value.
#[derive(Debug)]
pub enum AttrValue {
    Bool(bool),
    Int(i64),
    Str(String),
}

/// One timed unit of work within a trace.
pub struct Span {
    pub trace_id: u128,
    pub span_id: u64,
    pub parent_span_id: Option<u64>,
    pub trace_flags: u8,
    pub name: String,
    pub start_time: u64,
    pub end_time: Option<u64>,
    pub attributes: Vec<(String, AttrValue)>,
    pub status: SpanStatus,
}

impl Span {
    /// Starts a span named `name` at time `now`. Under a valid `parent` it
    /// joins the parent's trace as its child; otherwise it is the root of a
    /// new trace `new_trace_id`, sampled. Its own id is `new_span_id`.
    pub fn start(
        name: String,
        parent: Option<TraceContext>,
        new_trace_id: u128,
        new_span_id: u64,
        now: u64,
    ) -> (r: Span)
        requires
            new_trace_id != 0,
            new_span_id != 0,
        ensures
            r.span_id == new_span_id,
            r.name@ == name@,
            r.start_time == now,
            r.end_time is None,
            r.attributes@.len() == 0,
            r.status == SpanStatus::Unset,
            match parent {
                Some(p) => if p.valid() {
                    r.trace_id == p.trace_id && r.parent_span_id == Some(p.span_id)
                        && r.trace_flags == p.trace_flags
                } else {
                    r.trace_id == new_trace_id && r.parent_span_id is None && r.trace_flags
                        == FLAG_SAMPLED
                },
                None => r.trace_id == new_trace_id && r.parent_span_id is None && r.trace_flags
                    == FLAG_SAMPLED,
            },
            r.context().valid(),
    {
        let (trace_id, parent_span_id, trace_flags) = match parent {
            Some(p) => if p.is_valid() {
                (p.trace_id, Some(p.span_id), p.trace_flags)
            } else {
                (new_trace_id, None, FLAG_SAMPLED)
            },
            None => (new_trace_id, None, FLAG_SAMPLED),
        };
        Span {
            trace_id,
            span_id: new_span_id,
            parent_span_id,
            trace_flags,
            name,
            start_time: now,
            end_time: None,
            attributes: Vec::new(),
            status: SpanStatus::Unset,
        }
    }

    /// The context that children of this span, local or remote, take as parent.
    pub open spec fn context(&self) -> TraceContext {
        TraceContext { trace_id: self.trace_id, span_id: self.span_id, trace_flags: self.trace_flags }
    }

    pub fn span_context(&self) -> (r: TraceContext)
        ensures
            r == self.context(),
    {
        TraceContext { trace_id: self.trace_id, span_id: self.span_id, trace_flags: self.trace_flags }
    }

    pub fn is_ended(&self) -> (r: bool)
        ensures
            r == self.end_time is Some,
    {
        self.end_time.is_some()
    }

    /// Adds an attribute while the span is open; an ended span is left as it is.
    pub fn set_attribute(&mut self, key: String, value: AttrValue)
        ensures
            old(self).end_time is None ==> final(self).attributes@ == old(self).attributes@.push(
                (key, value),
            ),
            old(self).end_time is Some ==> final(self).attributes@ == old(self).attributes@,
            final(self).end_time == old(self).end_time,
            final(self).context() == old(self).context(),
            final(self).parent_span_id == old(self).parent_span_id,
            final(self).status == old(self).status,
            final(self).name@ == old(self).name@,
            final(self).start_time == old(self).start_time,
    {
        if self.end_time.is_none() {
            self.attributes.push((key, value));
        }
    }

    /// Sets the status while the span is open; an ended span is left as it is.
    pub fn set_status(&mut self, status: SpanStatus)
        ensures
            final(self).status == if old(self).end_time is None {
                status
            } else {
                old(self).status
            },
            final(self).end_time == old(self).end_time,
            final(self).attributes@ == old(self).attributes@,
            final(self).context() == old(self).context(),
            final(self).parent_span_id == old(self).parent_span_id,
            final(self).name@ == old(self).name@,
            final(self).start_time == old(self).start_time,
    {
        if self.end_time.is_none() {
            self.status = status;
        }
    }

    /// Ends the span at `now`. Ending an ended span changes nothing; the
    /// result tells whether this call was the one that ended it.
    pub fn end(&mut self, now: u64) -> (r: bool)
        ensures
            r == old(self).end_time is None,
            final(self).end_time == if r {
                Some(now)
            } else {
                old(self).end_time
            },
            final(self).attributes@ == old(self).attributes@,
            final(self).status == old(self).status,
            final(self).context() == old(self).context(),
            final(self).parent_span_id == old(self).parent_span_id,
            final(self).start_time == old(self).start_time,
            final(self).name@ == old(self).name@,
    {
        if self.end_time.is_none() {
            self.end_time = Some(now);
            true
        } else {
            false
        }
    }
}

} // verus!
