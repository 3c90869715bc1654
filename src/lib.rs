//! Trace context propagation across calls and batched export of ended spans.
//!
//! - `hex`, `codec`, `tracestate`: the `traceparent` and `tracestate` header formats.
//! - `carrier`, `propagation`: call metadata as a carrier, and writing and
//!   reading a context through it.
//! - `span`, `tracer`: the span lifecycle, with parents passed explicitly.
//! - `export`, `retry`: the bounded span buffer, its flush decisions, and the
//!   retry policy for sending a batch.
use vstd::prelude::*;

pub mod carrier;
pub mod codec;
pub mod export;
pub mod hex;
pub mod propagation;
pub mod retry;
pub mod span;
pub mod tracer;
pub mod tracestate;

verus! {

} // verus!
