//! Writing a context into an outbound carrier and reading it from an inbound one.
use crate::carrier::{lemma_store, lookup, lower, lower_byte, store, unique_keys, valid_key, valid_value, Carrier};
use crate::codec::{decode, encode, lemma_round_trip, parse_traceparent, traceparent_of, TraceContext};
use crate::hex::{digit_value, lemma_hex_of};
use crate::tracestate::{
    decode_tracestate, encode_tracestate, lemma_joined_printable, lemma_tracestate_round_trip,
    parse_tracestate, tracestate_of, valid_members, TraceState,
};
use vstd::prelude::*;

verus! {

/// The carrier name under which the context travels.
pub open spec fn traceparent_key() -> Seq<u8> {
    seq![116u8, 114u8, 97u8, 99u8, 101u8, 112u8, 97u8, 114u8, 101u8, 110u8, 116u8]
}

/// The carrier name under which vendor state travels.
pub open spec fn tracestate_key() -> Seq<u8> {
    seq![116u8, 114u8, 97u8, 99u8, 101u8, 115u8, 116u8, 97u8, 116u8, 101u8]
}

/// The carrier entries after injecting vendor state `e` into `s`: stored
/// under its name unless it has no members.
pub open spec fn injected_state(s: Seq<(Seq<u8>, Seq<u8>)>, e: Seq<(Seq<u8>, Seq<u8>)>) -> Seq<(Seq<u8>, Seq<u8>)> {
    if e.len() == 0 {
        s
    } else {
        store(s, tracestate_key(), tracestate_of(e))
    }
}

/// The vendor state that entries `s` carry: none when the entry is absent or
/// malformed.
pub open spec fn extracted_state(s: Seq<(Seq<u8>, Seq<u8>)>) -> Seq<(Seq<u8>, Seq<u8>)> {
    match lookup(s, tracestate_key()) {
        Some(v) => match parse_tracestate(v) {
            Some(e) => e,
            None => Seq::empty(),
        },
        None => Seq::empty(),
    }
}

/// The name `tracestate`.
pub fn tracestate_name() -> (r: Vec<u8>)
    ensures
        r@ == tracestate_key(),
{
    let r: Vec<u8> = vec![116u8, 114u8, 97u8, 99u8, 101u8, 115u8, 116u8, 97u8, 116u8, 101u8];
    assert(r@ =~= tracestate_key());
    r
}

proof fn lemma_state_key_valid()
    ensures
        valid_key(tracestate_key()),
        lower(tracestate_key()) == tracestate_key(),
{
    let k = tracestate_key();
    assert(lower(k) =~= k);
    assert forall|i: int| 0 <= i < k.len() implies #[trigger] crate::carrier::key_byte(lower_byte(k[i])) by {
    }
}

/// The carrier entries after injecting `c` into `s`: a valid context is stored
/// under its name; an absent or invalid one leaves the entries alone.
pub open spec fn injected(s: Seq<(Seq<u8>, Seq<u8>)>, c: Option<TraceContext>) -> Seq<(Seq<u8>, Seq<u8>)> {
    match c {
        Some(c) => if c.valid() {
            store(s, traceparent_key(), traceparent_of(c))
        } else {
            s
        },
        None => s,
    }
}

/// The context that entries `s` carry: the `traceparent` entry, if present and
/// well formed.
pub open spec fn extracted(s: Seq<(Seq<u8>, Seq<u8>)>) -> Option<TraceContext> {
    match lookup(s, traceparent_key()) {
        Some(v) => parse_traceparent(v),
        None => None,
    }
}

/// The name `traceparent`.
pub fn traceparent_name() -> (r: Vec<u8>)
    ensures
        r@ == traceparent_key(),
{
    let r: Vec<u8> = vec![116u8, 114u8, 97u8, 99u8, 101u8, 112u8, 97u8, 114u8, 101u8, 110u8, 116u8];
    assert(r@ =~= traceparent_key());
    r
}

proof fn lemma_key_valid()
    ensures
        valid_key(traceparent_key()),
        lower(traceparent_key()) == traceparent_key(),
{
    let k = traceparent_key();
    assert(lower(k) =~= k);
    assert forall|i: int| 0 <= i < k.len() implies #[trigger] crate::carrier::key_byte(lower_byte(k[i])) by {
    }
}

proof fn lemma_encoded_valid(c: TraceContext)
    ensures
        valid_value(traceparent_of(c)),
{
    let s = traceparent_of(c);
    let a = crate::hex::hex_of(c.trace_id as nat, 32);
    let b = crate::hex::hex_of(c.span_id as nat, 16);
    let f = crate::hex::hex_of(c.trace_flags as nat, 2);
    lemma_hex_of(c.trace_id as nat, 32);
    lemma_hex_of(c.span_id as nat, 16);
    lemma_hex_of(c.trace_flags as nat, 2);
    assert forall|i: int| 0 <= i < s.len() implies 32 <= #[trigger] s[i] && s[i] <= 126 by {
        if 3 <= i < 35 {
            assert(s[i] == a[i - 3]);
            assert(digit_value(a[i - 3]) is Some);
        } else if 36 <= i < 52 {
            assert(s[i] == b[i - 36]);
            assert(digit_value(b[i - 36]) is Some);
        } else if 53 <= i < 55 {
            assert(s[i] == f[i - 53]);
            assert(digit_value(f[i - 53]) is Some);
        }
    }
}

/// Carries trace contexts across calls in the `traceparent` format.
pub struct Propagator {}

impl Propagator {
    pub fn new() -> (r: Propagator) {
        Propagator {  }
    }

    /// Writes `context` into `carrier` before a call leaves; an absent or
    /// invalid context writes nothing.
    pub fn inject(&self, context: Option<TraceContext>, carrier: &mut Carrier)
        requires
            old(carrier).wf(),
        ensures
            final(carrier).wf(),
            final(carrier)@ == injected(old(carrier)@, context),
    {
        if let Some(c) = context {
            if c.is_valid() {
                let v = encode(&c);
                let k = traceparent_name();
                proof {
                    lemma_key_valid();
                    lemma_encoded_valid(c);
                }
                carrier.set(k.as_slice(), v);
            }
        }
    }

    /// Reads the parent context from an inbound carrier; an absent or
    /// malformed entry gives `None`.
    pub fn extract(&self, carrier: &Carrier) -> (r: Option<TraceContext>)
        requires
            carrier.wf(),
        ensures
            r == extracted(carrier@),
    {
        let k = traceparent_name();
        proof {
            lemma_key_valid();
        }
        match carrier.get(k.as_slice()) {
            Some(v) => decode(v.as_slice()),
            None => None,
        }
    }
}

impl Propagator {
    /// Writes vendor state into `carrier` beside the context; a state
    /// without members writes nothing.
    pub fn inject_state(&self, state: &TraceState, carrier: &mut Carrier)
        requires
            old(carrier).wf(),
            state.wf(),
        ensures
            final(carrier).wf(),
            final(carrier)@ == injected_state(old(carrier)@, state@),
    {
        if state.len() > 0 {
            let v = encode_tracestate(state);
            let k = tracestate_name();
            proof {
                lemma_state_key_valid();
                let e = state@;
                let t = e.take(if e.len() <= 32 { e.len() as int } else { 32 });
                assert forall|i: int| 0 <= i < t.len() implies crate::tracestate::valid_member(#[trigger] t[i]) by {
                    assert(t[i] == e[i]);
                    crate::tracestate::lemma_valid_member_at(e, i);
                }
                lemma_joined_printable(t);
            }
            carrier.set(k.as_slice(), v);
        }
    }

    /// Reads vendor state from an inbound carrier; an absent or malformed
    /// entry gives a state without members.
    pub fn extract_state(&self, carrier: &Carrier) -> (r: TraceState)
        requires
            carrier.wf(),
        ensures
            r.wf(),
            r@ == extracted_state(carrier@),
    {
        let k = tracestate_name();
        proof {
            lemma_state_key_valid();
        }
        match carrier.get(k.as_slice()) {
            Some(v) => match decode_tracestate(v.as_slice()) {
                Some(t) => t,
                None => TraceState::new(),
            },
            None => TraceState::new(),
        }
    }
}

/// Vendor state injected into a carrier is extracted again, cut to its first
/// 32 members, in order.
pub proof fn lemma_inject_extract_state(s: Seq<(Seq<u8>, Seq<u8>)>, e: Seq<(Seq<u8>, Seq<u8>)>)
    requires
        unique_keys(s),
        valid_members(e),
        e.len() > 0,
    ensures
        extracted_state(injected_state(s, e)) == e.take(if e.len() <= 32 { e.len() as int } else { 32 }),
{
    lemma_store(s, tracestate_key(), tracestate_of(e));
    lemma_tracestate_round_trip(e);
}

/// Extracting from a carrier that a context was injected into gives that
/// context back, whatever else the carrier held.
pub proof fn lemma_inject_extract(s: Seq<(Seq<u8>, Seq<u8>)>, c: TraceContext)
    requires
        unique_keys(s),
        c.valid(),
    ensures
        extracted(injected(s, Some(c))) == Some(c),
{
    lemma_store(s, traceparent_key(), traceparent_of(c));
    lemma_round_trip(c);
}

/// An empty carrier holds no context.
pub proof fn lemma_extract_empty()
    ensures
        extracted(Seq::empty()) is None,
{
}

} // verus!
