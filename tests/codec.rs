use grpc_trace::codec::{decode, encode, TraceContext};
use grpc_trace::hex::{hex_digit, parse_hex, push_hex};

fn sample() -> TraceContext {
    TraceContext {
        trace_id: 0x4bf92f3577b34da6a3ce929d0e0e4736,
        span_id: 0x00f067aa0ba902b7,
        trace_flags: 1,
    }
}

const SAMPLE: &str = "00-4bf92f3577b34da6a3ce929d0e0e4736-00f067aa0ba902b7-01";

#[test]
fn encode_writes_fixed_width_fields() {
    assert_eq!(encode(&sample()), SAMPLE.as_bytes().to_vec());
}

#[test]
fn encode_pads_small_ids_with_zeros() {
    let c = TraceContext { trace_id: 1, span_id: 2, trace_flags: 0 };
    let s = String::from_utf8(encode(&c)).unwrap();
    assert_eq!(s, "00-00000000000000000000000000000001-0000000000000002-00");
}

#[test]
fn decode_reads_fields() {
    assert_eq!(decode(SAMPLE.as_bytes()), Some(sample()));
}

#[test]
fn round_trip_keeps_context() {
    let cases = [
        sample(),
        TraceContext { trace_id: u128::MAX, span_id: u64::MAX, trace_flags: 0xff },
        TraceContext { trace_id: 1, span_id: 1, trace_flags: 0 },
    ];
    for c in cases {
        assert_eq!(decode(&encode(&c)), Some(c));
    }
}

#[test]
fn decode_rejects_wrong_length() {
    assert_eq!(decode(b""), None);
    assert_eq!(decode(&SAMPLE.as_bytes()[..54]), None);
    let mut longer = SAMPLE.as_bytes().to_vec();
    longer.push(b'0');
    assert_eq!(decode(&longer), None);
}

#[test]
fn decode_rejects_upper_case_and_non_hex() {
    assert_eq!(decode(SAMPLE.to_uppercase().as_bytes()), None);
    let bad = SAMPLE.replace("4bf9", "4bg9");
    assert_eq!(decode(bad.as_bytes()), None);
    let bad_flags = SAMPLE.replace("-01", "-0x");
    assert_eq!(decode(bad_flags.as_bytes()), None);
}

#[test]
fn decode_rejects_misplaced_dashes() {
    let bad = SAMPLE.replacen('-', "_", 1);
    assert_eq!(decode(bad.as_bytes()), None);
}

#[test]
fn decode_rejects_zero_ids() {
    let zero_trace = "00-00000000000000000000000000000000-00f067aa0ba902b7-01";
    let zero_span = "00-4bf92f3577b34da6a3ce929d0e0e4736-0000000000000000-01";
    assert_eq!(decode(zero_trace.as_bytes()), None);
    assert_eq!(decode(zero_span.as_bytes()), None);
}

#[test]
fn decode_rejects_version_ff() {
    let bad = SAMPLE.replacen("00", "ff", 1);
    assert_eq!(decode(bad.as_bytes()), None);
    let other = SAMPLE.replacen("00", "01", 1);
    assert!(decode(other.as_bytes()).is_some());
}

#[test]
fn context_validity_and_sampling() {
    assert!(sample().is_valid());
    assert!(sample().is_sampled());
    let c = TraceContext { trace_id: 0, span_id: 1, trace_flags: 0 };
    assert!(!c.is_valid());
    assert!(!c.is_sampled());
}

#[test]
fn hex_helpers() {
    assert_eq!(hex_digit(b'7'), Some(7));
    assert_eq!(hex_digit(b'e'), Some(14));
    assert_eq!(hex_digit(b'E'), None);
    let mut out = Vec::new();
    push_hex(0xab, 4, &mut out);
    assert_eq!(out, b"00ab".to_vec());
    assert_eq!(parse_hex(b"x00ab", 1, 4), Some(0xab));
    assert_eq!(parse_hex(b"00ag", 0, 4), None);
}
