//! The `traceparent` header: `version-traceid-spanid-flags` in fixed-width hex.
use crate::hex::{
    hex_of, hex_value, is_hex, lemma_hex_of, lemma_hex_value_bound, lemma_pow16_values, parse_hex,
    push_hex,
};
use vstd::prelude::*;

verus! {

/// The identity of one span within a trace, as carried across a call.
#[derive(Clone, Copy, Debug, PartialEq, Eq, Structural)]
pub struct TraceContext {
    pub trace_id: u128,
    pub span_id: u64,
    pub trace_flags: u8,
}

/// Length in bytes of a version-00 `traceparent` value.
pub const TRACEPARENT_LEN: usize = 55;

/// Flag bit that marks a trace as sampled.
pub const FLAG_SAMPLED: u8 = 1;

impl TraceContext {
    /// Neither identifier is all zeros.
    pub open spec fn valid(self) -> bool {
        self.trace_id != 0 && self.span_id != 0
    }

    pub fn is_valid(&self) -> (r: bool)
        ensures
            r == self.valid(),
    {
        self.trace_id != 0 && self.span_id != 0
    }

    pub fn is_sampled(&self) -> (r: bool)
        ensures
            r == (self.trace_flags & FLAG_SAMPLED != 0),
    {
        self.trace_flags & FLAG_SAMPLED != 0
    }
}

/// The bytes `s[start..start + w]`.
pub open spec fn field(s: Seq<u8>, start: int, w: int) -> Seq<u8> {
    s.subrange(start, start + w)
}

/// The `traceparent` value written for `c`: version `00`, then the trace id in
/// 32 digits, the span id in 16 and the flags in 2, joined by dashes.
pub open spec fn traceparent_of(c: TraceContext) -> Seq<u8> {
    seq![48u8, 48u8, 45u8] + hex_of(c.trace_id as nat, 32) + seq![45u8] + hex_of(
        c.span_id as nat,
        16,
    ) + seq![45u8] + hex_of(c.trace_flags as nat, 2)
}

/// `s` has the shape of a `traceparent` value: 55 bytes, dashes at the field
/// boundaries, lower-case hex in every field, and a version other than `ff`.
pub open spec fn well_formed(s: Seq<u8>) -> bool {
    &&& s.len() == 55
    &&& s[2] == 45u8 && s[35] == 45u8 && s[52] == 45u8
    &&& is_hex(field(s, 0, 2)) && is_hex(field(s, 3, 32))
    &&& is_hex(field(s, 36, 16)) && is_hex(field(s, 53, 2))
    &&& hex_value(field(s, 0, 2)) != 255
}

/// The context that `s` carries, if any: a well-formed value whose trace id and
/// span id are not all zeros.
pub open spec fn parse_traceparent(s: Seq<u8>) -> Option<TraceContext> {
    if well_formed(s) && hex_value(field(s, 3, 32)) != 0 && hex_value(field(s, 36, 16)) != 0 {
        Some(
            TraceContext {
                trace_id: hex_value(field(s, 3, 32)) as u128,
                span_id: hex_value(field(s, 36, 16)) as u64,
                trace_flags: hex_value(field(s, 53, 2)) as u8,
            },
        )
    } else {
        None
    }
}

/// Writes the `traceparent` value of `c`.
pub fn encode(c: &TraceContext) -> (r: Vec<u8>)
    ensures
        r@ == traceparent_of(*c),
{
    let mut out: Vec<u8> = Vec::new();
    out.push(48u8);
    out.push(48u8);
    out.push(45u8);
    push_hex(c.trace_id, 32, &mut out);
    out.push(45u8);
    push_hex(c.span_id as u128, 16, &mut out);
    out.push(45u8);
    push_hex(c.trace_flags as u128, 2, &mut out);
    assert(out@ =~= traceparent_of(*c));
    out
}

/// Reads a `traceparent` value; anything malformed gives `None`.
pub fn decode(s: &[u8]) -> (r: Option<TraceContext>)
    ensures
        r == parse_traceparent(s@),
{
    if s.len() != TRACEPARENT_LEN || s[2] != 45u8 || s[35] != 45u8 || s[52] != 45u8 {
        return None;
    }
    let version = parse_hex(s, 0, 2);
    let trace_id = parse_hex(s, 3, 32);
    let span_id = parse_hex(s, 36, 16);
    let flags = parse_hex(s, 53, 2);
    match (version, trace_id, span_id, flags) {
        (Some(v), Some(t), Some(sp), Some(f)) => {
            proof {
                lemma_pow16_values();
                lemma_hex_value_bound(field(s@, 0, 2));
                lemma_hex_value_bound(field(s@, 36, 16));
                lemma_hex_value_bound(field(s@, 53, 2));
            }
            if v == 255 || t == 0 || sp == 0 {
                None
            } else {
                Some(TraceContext { trace_id: t, span_id: sp as u64, trace_flags: f as u8 })
            }
        },
        _ => None,
    }
}

/// Decoding what was encoded gives back the same context.
pub proof fn lemma_round_trip(c: TraceContext)
    requires
        c.valid(),
    ensures
        parse_traceparent(traceparent_of(c)) == Some(c),
{
    let s = traceparent_of(c);
    lemma_hex_of(c.trace_id as nat, 32);
    lemma_hex_of(c.span_id as nat, 16);
    lemma_hex_of(c.trace_flags as nat, 2);
    lemma_hex_of(0, 2);
    lemma_pow16_values();
    assert(field(s, 0, 2) =~= hex_of(0, 2)) by {
        reveal_with_fuel(hex_of, 3);
    }
    assert(field(s, 3, 32) =~= hex_of(c.trace_id as nat, 32));
    assert(field(s, 36, 16) =~= hex_of(c.span_id as nat, 16));
    assert(field(s, 53, 2) =~= hex_of(c.trace_flags as nat, 2));
}

/// A value whose length, dashes or digits are off carries no context.
pub proof fn lemma_malformed_rejected(s: Seq<u8>)
    requires
        !well_formed(s),
    ensures
        parse_traceparent(s) is None,
{
}

/// A value whose trace id or span id is all zeros carries no context.
pub proof fn lemma_zero_id_rejected(s: Seq<u8>)
    requires
        hex_value(field(s, 3, 32)) == 0 || hex_value(field(s, 36, 16)) == 0,
    ensures
        parse_traceparent(s) is None,
{
}

/// Whatever a value carries is a valid context.
pub proof fn lemma_parsed_valid(s: Seq<u8>)
    ensures
        parse_traceparent(s) matches Some(c) ==> c.valid(),
{
    if well_formed(s) {
        lemma_pow16_values();
        lemma_hex_value_bound(field(s, 3, 32));
        lemma_hex_value_bound(field(s, 36, 16));
    }
}

} // verus!
