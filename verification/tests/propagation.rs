use tracecore::codec::{encode_id, parse_id_str};
use tracecore::context::ActiveContext;
use tracecore::propagate::{extract, inject, Carrier};

#[test]
fn encode_known_values() {
    assert_eq!(encode_id(0), "0000000000000000");
    assert_eq!(encode_id(0xdead_beef), "00000000deadbeef");
    assert_eq!(encode_id(u64::MAX), "ffffffffffffffff");
    assert_eq!(encode_id(1), "0000000000000001");
}

#[test]
fn parse_known_values() {
    assert_eq!(parse_id_str("0000000000000000"), Some(0));
    assert_eq!(parse_id_str("00000000deadbeef"), Some(0xdead_beef));
    assert_eq!(parse_id_str("ffffffffffffffff"), Some(u64::MAX));
}

#[test]
fn parse_rejects_malformed() {
    assert_eq!(parse_id_str(""), None);
    assert_eq!(parse_id_str("deadbeef"), None); // too short
    assert_eq!(parse_id_str("00000000deadbeef0"), None); // too long
    assert_eq!(parse_id_str("00000000DEADBEEF"), None); // uppercase refused
    assert_eq!(parse_id_str("zzzzzzzzzzzzzzzz"), None); // not hex
    assert_eq!(parse_id_str("0000000000000 01"), None);
}

#[test]
fn round_trip_contexts() {
    for &(t, s) in &[(0u64, 0u64), (1, 2), (0xdead_beef, 0xcafe), (u64::MAX, u64::MAX - 1)] {
        let carrier = inject(t, s);
        assert_eq!(extract(&carrier), Some((t, s)));
    }
}

#[test]
fn inject_writes_both_keys() {
    let carrier = inject(7, 9);
    assert_eq!(carrier.entries.len(), 2);
    assert_eq!(carrier.entries[0].0, "trace-id");
    assert_eq!(carrier.entries[0].1, "0000000000000007");
    assert_eq!(carrier.entries[1].0, "span-id");
    assert_eq!(carrier.entries[1].1, "0000000000000009");
}

#[test]
fn extract_missing_or_malformed_yields_none() {
    let empty = Carrier { entries: Vec::new() };
    assert_eq!(extract(&empty), None);

    let mut only_trace = Carrier { entries: Vec::new() };
    only_trace.push_entry("trace-id".to_string(), encode_id(5));
    assert_eq!(extract(&only_trace), None);

    let mut bad_value = Carrier { entries: Vec::new() };
    bad_value.push_entry("trace-id".to_string(), "not-a-hex-identifier".to_string());
    bad_value.push_entry("span-id".to_string(), encode_id(5));
    assert_eq!(extract(&bad_value), None);
}

#[test]
fn joined_context_continues_the_trace() {
    let carrier = inject(0x1234, 0x5678);
    let mut ctx = ActiveContext::from_carrier(&carrier, 42);
    assert_eq!(ctx.trace_id, 0x1234);
    assert_eq!(ctx.remote_parent, Some(0x5678));
    ctx.enter("handler".to_string(), 10, Vec::new());
    assert_eq!(ctx.stack[0].parent_span_id, Some(0x5678));
    assert_eq!(ctx.stack[0].trace_id, 0x1234);
}

#[test]
fn malformed_carrier_degrades_to_fresh_trace() {
    let mut bad = Carrier { entries: Vec::new() };
    bad.push_entry("trace-id".to_string(), "garbage".to_string());
    bad.push_entry("span-id".to_string(), "garbage".to_string());
    let ctx = ActiveContext::from_carrier(&bad, 42);
    assert_eq!(ctx.trace_id, 42);
    assert_eq!(ctx.remote_parent, None);
}
