use grpc_trace::carrier::Carrier;
use grpc_trace::codec::TraceContext;
use grpc_trace::propagation::Propagator;

fn ctx() -> TraceContext {
    TraceContext { trace_id: 0x0af7651916cd43dd8448eb211c80319c, span_id: 0xb7ad6b7169203331, trace_flags: 1 }
}

#[test]
fn carrier_get_ignores_case() {
    let mut c = Carrier::new();
    c.set(b"X-Request-Id", b"abc".to_vec());
    assert_eq!(c.get(b"x-request-id"), Some(&b"abc".to_vec()));
    assert_eq!(c.get(b"X-REQUEST-ID"), Some(&b"abc".to_vec()));
    assert_eq!(c.get(b"other"), None);
}

#[test]
fn carrier_replaces_same_name() {
    let mut c = Carrier::new();
    c.set(b"a", b"1".to_vec());
    c.set(b"b", b"2".to_vec());
    c.set(b"A", b"3".to_vec());
    assert_eq!(c.get(b"a"), Some(&b"3".to_vec()));
    let keys: Vec<Vec<u8>> = c.keys().into_iter().cloned().collect();
    assert_eq!(keys, vec![b"a".to_vec(), b"b".to_vec()]);
}

#[test]
fn carrier_ignores_invalid_entries() {
    let mut c = Carrier::new();
    c.set(b"", b"1".to_vec());
    c.set(b"bad name", b"1".to_vec());
    c.set("n\u{e9}".as_bytes(), b"1".to_vec());
    c.set(b"good", b"line\nbreak".to_vec());
    c.set(b"good", vec![0xff]);
    assert!(c.keys().is_empty());
    c.set(b"good", b"fine value".to_vec());
    assert_eq!(c.keys().len(), 1);
}

#[test]
fn inject_then_extract_gives_context() {
    let p = Propagator::new();
    let mut c = Carrier::new();
    c.set(b"unrelated", b"x".to_vec());
    p.inject(Some(ctx()), &mut c);
    assert_eq!(
        c.get(b"traceparent"),
        Some(&b"00-0af7651916cd43dd8448eb211c80319c-b7ad6b7169203331-01".to_vec())
    );
    let got = p.extract(&c).unwrap();
    assert_eq!(got.trace_id, ctx().trace_id);
    assert_eq!(got.span_id, ctx().span_id);
    assert_eq!(got, ctx());
}

#[test]
fn extract_from_empty_carrier_is_none() {
    let p = Propagator::new();
    assert_eq!(p.extract(&Carrier::new()), None);
}

#[test]
fn inject_without_context_writes_nothing() {
    let p = Propagator::new();
    let mut c = Carrier::new();
    p.inject(None, &mut c);
    p.inject(Some(TraceContext { trace_id: 0, span_id: 5, trace_flags: 1 }), &mut c);
    assert!(c.keys().is_empty());
}

#[test]
fn extract_ignores_malformed_entry() {
    let p = Propagator::new();
    let mut c = Carrier::new();
    c.set(b"traceparent", b"00-zz-yy-01".to_vec());
    assert_eq!(p.extract(&c), None);
}

#[test]
fn extract_reads_upper_case_name() {
    let p = Propagator::new();
    let mut c = Carrier::new();
    c.set(b"TraceParent", b"00-0af7651916cd43dd8448eb211c80319c-b7ad6b7169203331-01".to_vec());
    assert_eq!(p.extract(&c), Some(ctx()));
}

#[test]
fn carrier_accepts_http_token_names_and_tab_values() {
    let mut c = Carrier::new();
    c.set(b"a!", b"x".to_vec());
    c.set(b"q\"#$%&'*+^_`|~", b"y".to_vec());
    c.set(b"tabbed", b"a\tb".to_vec());
    assert_eq!(c.get(b"a!"), Some(&b"x".to_vec()));
    assert_eq!(c.get(b"Q\"#$%&'*+^_`|~"), Some(&b"y".to_vec()));
    assert_eq!(c.get(b"tabbed"), Some(&b"a\tb".to_vec()));
}

#[test]
fn carrier_ignores_binary_names_as_text_and_overlong_names() {
    let mut c = Carrier::new();
    c.set(b"trace-bin", b"x".to_vec());
    c.set(b"TRACE-BIN", b"x".to_vec());
    c.set(&vec![b'a'; 65536], b"x".to_vec());
    c.set_binary(b"not-binary", vec![1]);
    c.set_binary(b"bad name-bin", vec![1]);
    c.set(b"(paren)", b"x".to_vec());
    assert!(c.keys().is_empty());
    c.set(b"bin", b"x".to_vec());
    c.set(&vec![b'a'; 65535], b"x".to_vec());
    assert_eq!(c.keys().len(), 2);
}

#[test]
fn carrier_lists_binary_names() {
    let mut c = Carrier::new();
    c.set_binary(b"Trace-Proto-Bin", vec![1, 2, 0xff]);
    c.set(b"traceparent", b"a".to_vec());
    let keys: Vec<Vec<u8>> = c.keys().into_iter().cloned().collect();
    assert_eq!(keys, vec![b"trace-proto-bin".to_vec(), b"traceparent".to_vec()]);
    assert_eq!(c.get(b"trace-proto-bin"), None);
    assert_eq!(c.get_binary(b"trace-proto-bin"), Some(&vec![1, 2, 0xff]));
    assert_eq!(c.get_binary(b"traceparent"), None);
    assert_eq!(c.get(b"traceparent"), Some(&b"a".to_vec()));
    c.set_binary(b"trace-proto-bin", vec![3]);
    assert_eq!(c.keys().len(), 2);
    assert_eq!(c.get_binary(b"TRACE-PROTO-BIN"), Some(&vec![3]));
}
