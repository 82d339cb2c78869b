use tracecore::context::ActiveContext;
use tracecore::span::{find_attr, AttrValue, Span, Status};

fn open_span(start: u64) -> Span {
    Span::new(1, 7, None, "work".to_string(), start, Vec::new())
}

#[test]
fn completion_is_idempotent() {
    let mut span = open_span(100);
    span.complete(250, Status::Okay);
    assert_eq!(span.end_time, Some(250));
    assert_eq!(span.status, Status::Okay);

    // A second completion is a no-op, whatever it asks for.
    span.complete(900, Status::Error);
    assert_eq!(span.end_time, Some(250));
    assert_eq!(span.status, Status::Okay);
}

#[test]
fn end_time_never_precedes_start_time() {
    let mut span = open_span(100);
    span.complete(40, Status::Okay);
    assert_eq!(span.end_time, Some(100));
}

#[test]
fn attributes_mutable_only_while_open() {
    let mut span = open_span(0);
    span.set_attribute("user".to_string(), AttrValue::Text("m".to_string()));
    assert_eq!(span.attributes.len(), 1);
    span.complete(5, Status::Okay);
    span.set_attribute("late".to_string(), AttrValue::Flag(true));
    assert_eq!(span.attributes.len(), 1);
    assert_eq!(span.attributes[0].0, "user");
}

#[test]
fn find_attr_returns_first_match() {
    let attrs = vec![
        ("k".to_string(), AttrValue::Int(1)),
        ("other".to_string(), AttrValue::Int(2)),
        ("k".to_string(), AttrValue::Int(3)),
    ];
    match find_attr(&attrs, &"k".to_string()) {
        Some(AttrValue::Int(v)) => assert_eq!(*v, 1),
        other => panic!("unexpected lookup result: {other:?}"),
    }
    assert!(find_attr(&attrs, &"missing".to_string()).is_none());
}

#[test]
fn nested_spans_form_a_tree() {
    let mut ctx = ActiveContext::new(11);
    ctx.enter("request".to_string(), 1, Vec::new());
    let request_id = ctx.stack[0].span_id;
    ctx.enter("db".to_string(), 2, Vec::new());
    let db = &ctx.stack[1];
    assert_eq!(db.parent_span_id, Some(request_id));
    assert_ne!(db.span_id, request_id);
    assert_eq!(db.trace_id, 11);
    assert_eq!(ctx.stack[0].parent_span_id, None);
}

#[test]
fn events_attach_to_the_active_span() {
    let mut ctx = ActiveContext::new(3);

    let orphan = ctx.emit("lonely".to_string(), 1, Vec::new());
    assert_eq!(orphan.attached_span_id, None);

    ctx.enter("request".to_string(), 2, Vec::new());
    let outer = ctx.emit("outer".to_string(), 3, Vec::new());
    assert_eq!(outer.attached_span_id, Some(ctx.stack[0].span_id));

    ctx.enter("db".to_string(), 4, Vec::new());
    let inner = ctx.emit("query ok".to_string(), 5, Vec::new());
    assert_eq!(inner.attached_span_id, Some(ctx.stack[1].span_id));

    ctx.exit(6, false);
    let after = ctx.emit("after".to_string(), 7, Vec::new());
    assert_eq!(after.attached_span_id, Some(ctx.stack[0].span_id));
}

#[test]
fn exit_completes_with_reported_status() {
    let mut ctx = ActiveContext::new(1);
    ctx.enter("ok-work".to_string(), 10, Vec::new());
    let done = ctx.exit(20, false).unwrap();
    assert_eq!(done.status, Status::Okay);
    assert_eq!(done.end_time, Some(20));

    ctx.enter("bad-work".to_string(), 30, Vec::new());
    let failed = ctx.exit(35, true).unwrap();
    assert_eq!(failed.status, Status::Error);

    assert!(ctx.exit(40, false).is_none());
}

#[test]
fn cancellation_force_completes_deepest_first() {
    let mut ctx = ActiveContext::new(9);
    ctx.enter("a".to_string(), 1, Vec::new());
    ctx.enter("b".to_string(), 2, Vec::new());
    ctx.enter("c".to_string(), 3, Vec::new());
    let cancelled = ctx.cancel_all(50);
    assert_eq!(ctx.stack.len(), 0);
    assert_eq!(cancelled.len(), 3);
    let names: Vec<&str> = cancelled.iter().map(|s| s.name.as_str()).collect();
    assert_eq!(names, ["c", "b", "a"]);
    for span in &cancelled {
        assert_eq!(span.status, Status::Error);
        assert_eq!(span.end_time, Some(50));
    }
}
