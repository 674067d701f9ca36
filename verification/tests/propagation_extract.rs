use request_tracing::{extract, parse_traceparent, TraceContext};

const GOOD: &str = "00-0af7651916cd43dd8448eb211c80319c-b7ad6b7169203331-01";

#[test]
fn well_formed_header_parses() {
    let ctx = parse_traceparent(GOOD).expect("well-formed value must parse");
    assert_eq!(ctx.trace_id, 0x0af7651916cd43dd8448eb211c80319c);
    assert_eq!(ctx.parent_id, 0xb7ad6b7169203331);
    assert_eq!(ctx.flags, 1);
    assert!(ctx.sampled());
}

#[test]
fn unsampled_flags_parse() {
    let ctx = parse_traceparent("00-0af7651916cd43dd8448eb211c80319c-b7ad6b7169203331-00")
        .expect("well-formed value must parse");
    assert_eq!(ctx.flags, 0);
    assert!(!ctx.sampled());
}

#[test]
fn malformed_values_degrade_to_no_parent() {
    assert_eq!(parse_traceparent("garbage"), None);
    assert_eq!(parse_traceparent(""), None);
    // wrong length
    assert_eq!(parse_traceparent("00-0af7651916cd43dd8448eb211c80319c-b7ad6b7169203331-0"), None);
    // uppercase digits are not the lowercase encoding
    assert_eq!(parse_traceparent("00-0AF7651916CD43DD8448EB211C80319C-B7AD6B7169203331-01"), None);
    // misplaced separators
    assert_eq!(parse_traceparent("00x0af7651916cd43dd8448eb211c80319c-b7ad6b7169203331-01"), None);
    // reserved version
    assert_eq!(parse_traceparent("ff-0af7651916cd43dd8448eb211c80319c-b7ad6b7169203331-01"), None);
    // all-zero trace id
    assert_eq!(parse_traceparent("00-00000000000000000000000000000000-b7ad6b7169203331-01"), None);
    // all-zero parent id
    assert_eq!(parse_traceparent("00-0af7651916cd43dd8448eb211c80319c-0000000000000000-01"), None);
    // a non-hex character inside the trace id
    assert_eq!(parse_traceparent("00-0af7651916cd43dd8448eb211c8031gc-b7ad6b7169203331-01"), None);
}

#[test]
fn header_names_match_without_regard_to_case() {
    let headers = vec![
        ("Accept".to_string(), "*/*".to_string()),
        ("TraceParent".to_string(), GOOD.to_string()),
    ];
    let ctx = extract(&headers).expect("extraction must find the header");
    assert_eq!(ctx.trace_id, 0x0af7651916cd43dd8448eb211c80319c);
}

#[test]
fn first_matching_header_wins() {
    let other = "00-11111111111111111111111111111111-2222222222222222-00";
    let headers = vec![
        ("traceparent".to_string(), other.to_string()),
        ("traceparent".to_string(), GOOD.to_string()),
    ];
    assert_eq!(
        extract(&headers),
        Some(TraceContext { trace_id: 0x11111111111111111111111111111111, parent_id: 0x2222222222222222, flags: 0 })
    );
}

#[test]
fn absent_header_yields_no_parent() {
    let headers = vec![("accept".to_string(), "*/*".to_string())];
    assert_eq!(extract(&headers), None);
    assert_eq!(extract(&Vec::new()), None);
}

#[test]
fn garbage_header_yields_no_parent() {
    let headers = vec![("traceparent".to_string(), "garbage".to_string())];
    assert_eq!(extract(&headers), None);
}
