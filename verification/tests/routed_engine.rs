use epp_router::routed_engine::{
    child_signal, conversion_error, dispatch_span, forward, ChildSignal, DispatchSpan,
    ForwardAction, ForwardEvent, RemoteParent, TraceContext,
};

fn parent(trace_id: &str, span_id: &str) -> Option<RemoteParent> {
    let context = TraceContext { trace_id: trace_id.to_string(), span_id: span_id.to_string() };
    match dispatch_span(Some(&context), "req-1") {
        DispatchSpan::Request { request_id, parent } => {
            assert_eq!(request_id, "req-1");
            parent
        }
        DispatchSpan::Current => panic!("no span for the request"),
    }
}

#[test]
fn request_without_a_trace_keeps_the_current_span() {
    assert!(matches!(dispatch_span(None, "req-1"), DispatchSpan::Current));
}

#[test]
fn request_with_a_trace_lands_on_it() {
    assert_eq!(
        parent("5f467fe7bf42676c05e20ba4a90e448e", "4c721bf33e3caf8f"),
        Some(RemoteParent {
            trace_id: 126642714606581564793456114182061442190,
            span_id: 5508496025762705295,
            sampled: true,
            remote: true,
        })
    );
    let widest = parent(&"f".repeat(32), &"F".repeat(16)).unwrap();
    assert_eq!((widest.trace_id, widest.span_id), (u128::MAX, u64::MAX));
    let short = parent("2a", "+0A").unwrap();
    assert_eq!((short.trace_id, short.span_id), (42, 10));
    let padded = parent(&format!("{}1", "0".repeat(40)), &format!("{}2", "0".repeat(40))).unwrap();
    assert_eq!((padded.trace_id, padded.span_id), (1, 2));
}

#[test]
fn unreadable_ids_leave_the_span_without_a_parent() {
    let (trace, span) = ("5f467fe7bf42676c05e20ba4a90e448e", "4c721bf33e3caf8f");
    for bad in ["", "+", "-1", "++1", "not_hex", " 1", "1 ", "0x1", "1_0", "\u{ff11}"] {
        assert_eq!(parent(bad, span), None, "{bad:?}");
        assert_eq!(parent(trace, bad), None, "{bad:?}");
    }
    assert_eq!(parent(&format!("1{}", "0".repeat(32)), span), None);
    assert_eq!(parent(trace, &format!("1{}", "0".repeat(16))), None);
}

#[test]
fn killed_outranks_stopped() {
    assert_eq!(child_signal(false, false), ChildSignal::Nothing);
    assert_eq!(child_signal(false, true), ChildSignal::StopGenerating);
    assert_eq!(child_signal(true, false), ChildSignal::Kill);
    assert_eq!(child_signal(true, true), ChildSignal::Kill);
}

#[test]
fn engine_is_stopped_where_the_consumer_left() {
    assert_eq!(forward(ForwardEvent::Response), ForwardAction::Deliver);
    assert_eq!(forward(ForwardEvent::Delivered), ForwardAction::Receive);
    assert_eq!(forward(ForwardEvent::StreamEnded), ForwardAction::End);
    assert_eq!(forward(ForwardEvent::ConsumerGone), ForwardAction::StopAndEnd);
    assert_eq!(forward(ForwardEvent::Undelivered), ForwardAction::StopAndEnd);
}

#[test]
fn conversion_errors_say_what_failed() {
    assert_eq!(conversion_error("bad type"), "pythonize failed: bad type");
}
