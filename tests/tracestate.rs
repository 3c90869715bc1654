use grpc_trace::carrier::Carrier;
use grpc_trace::propagation::Propagator;
use grpc_trace::tracestate::{decode_tracestate, encode_tracestate, TraceState};

fn members(t: &TraceState) -> Vec<(String, String)> {
    (0..t.len())
        .map(|i| {
            let (k, v) = t.member(i);
            (String::from_utf8(k.clone()).unwrap(), String::from_utf8(v.clone()).unwrap())
        })
        .collect()
}

fn state(pairs: &[(&str, &str)]) -> TraceState {
    let mut t = TraceState::new();
    for (k, v) in pairs {
        assert!(t.push(k.as_bytes().to_vec(), v.as_bytes().to_vec()));
    }
    t
}

#[test]
fn tracestate_encodes_in_order() {
    let t = state(&[("rojo", "00f067aa0ba902b7"), ("congo", "t61rcWkgMzE")]);
    assert_eq!(encode_tracestate(&t), b"rojo=00f067aa0ba902b7,congo=t61rcWkgMzE".to_vec());
}

#[test]
fn tracestate_round_trip() {
    let t = state(&[("a", "1"), ("vendor@tenant", "x/y"), ("b-c_d", "~!")]);
    let back = decode_tracestate(&encode_tracestate(&t)).unwrap();
    assert_eq!(members(&back), members(&t));
}

#[test]
fn tracestate_drops_members_past_cap() {
    let mut t = TraceState::new();
    for i in 0..40 {
        assert!(t.push(format!("k{}", i).into_bytes(), b"v".to_vec()));
    }
    let text = String::from_utf8(encode_tracestate(&t)).unwrap();
    assert_eq!(text.split(',').count(), 32);
    assert!(text.ends_with("k31=v"));
    let back = decode_tracestate(text.as_bytes()).unwrap();
    assert_eq!(back.len(), 32);
    let long: Vec<String> = (0..40).map(|i| format!("k{}=v", i)).collect();
    let decoded = decode_tracestate(long.join(",").as_bytes()).unwrap();
    assert_eq!(decoded.len(), 32);
    assert_eq!(members(&decoded)[31].0, "k31");
}

#[test]
fn tracestate_push_rejects_invalid_members() {
    let mut t = TraceState::new();
    assert!(!t.push(b"".to_vec(), b"v".to_vec()));
    assert!(!t.push(b"Upper".to_vec(), b"v".to_vec()));
    assert!(!t.push(b"k".to_vec(), b"".to_vec()));
    assert!(!t.push(b"k".to_vec(), b"a,b".to_vec()));
    assert!(!t.push(b"k".to_vec(), b"a=b".to_vec()));
    assert!(!t.push(vec![b'k'; 257], b"v".to_vec()));
    assert!(t.push(vec![b'k'; 256], vec![b'v'; 256]));
    assert_eq!(t.len(), 1);
}

#[test]
fn tracestate_decode_rejects_malformed() {
    assert!(decode_tracestate(b"a=1,").is_none());
    assert!(decode_tracestate(b"novalue").is_none());
    assert!(decode_tracestate(b"=1").is_none());
    assert!(decode_tracestate(b"a=1,,b=2").is_none());
    assert!(decode_tracestate(b"A=1").is_none());
    assert_eq!(decode_tracestate(b"").unwrap().len(), 0);
    let t = decode_tracestate(b"a=b=c").is_none();
    assert!(t);
}

#[test]
fn tracestate_travels_through_carrier() {
    let p = Propagator::new();
    let mut c = Carrier::new();
    let t = state(&[("rojo", "1"), ("congo", "2")]);
    p.inject_state(&t, &mut c);
    assert_eq!(c.get(b"tracestate"), Some(&b"rojo=1,congo=2".to_vec()));
    assert_eq!(members(&p.extract_state(&c)), members(&t));
}

#[test]
fn empty_tracestate_writes_nothing() {
    let p = Propagator::new();
    let mut c = Carrier::new();
    p.inject_state(&TraceState::new(), &mut c);
    assert!(c.keys().is_empty());
    assert_eq!(p.extract_state(&c).len(), 0);
    c.set(b"tracestate", b"bad,".to_vec());
    assert_eq!(p.extract_state(&c).len(), 0);
}
