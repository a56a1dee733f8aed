//! How a generation is tied to the request that asked for it: its trace, its
//! cancellation, and the stream of its responses.
use opentelemetry::trace::{SpanId, TraceId};
use vstd::prelude::*;

verus! {

/// What a hexadecimal digit of either case stands for.
pub open spec fn hex_digit(c: char) -> Option<nat> {
    if '0' <= c <= '9' {
        Some((c as nat - '0' as nat) as nat)
    } else if 'a' <= c <= 'f' {
        Some((c as nat - 'a' as nat + 10) as nat)
    } else if 'A' <= c <= 'F' {
        Some((c as nat - 'A' as nat + 10) as nat)
    } else {
        None
    }
}

/// The text holds hexadecimal digits only.
pub open spec fn all_hex(s: Seq<char>) -> bool {
    forall|i: int| 0 <= i < s.len() ==> hex_digit(#[trigger] s[i]) is Some
}

/// The number that a run of hexadecimal digits denotes.
pub open spec fn hex_value(s: Seq<char>) -> nat
    decreases s.len(),
{
    if s.len() == 0 {
        0
    } else {
        hex_value(s.drop_last()) * 16 + hex_digit(s.last())->0
    }
}

/// The number that a text denotes in base sixteen, where it denotes one and it
/// is at most `max`: digits only, at least one, after an optional plus sign.
pub open spec fn hex_number(s: Seq<char>, max: nat) -> Option<nat> {
    let digits = if s.len() > 0 && s[0] == '+' {
        s.drop_first()
    } else {
        s
    };
    if digits.len() > 0 && all_hex(digits) && hex_value(digits) <= max {
        Some(hex_value(digits))
    } else {
        None
    }
}

/// Calls `opentelemetry::trace::TraceId::from_hex`, which reads an unsigned
/// number of 128 bits in base sixteen, and gives the number inside the id.
#[verifier::external_body]
fn trace_id(hex: &str) -> (r: Option<u128>)
    ensures
        match r {
            Some(id) => hex_number(hex@, u128::MAX as nat) == Some(id as nat),
            None => hex_number(hex@, u128::MAX as nat) is None,
        },
{
    match TraceId::from_hex(hex) {
        Ok(id) => Some(u128::from_be_bytes(id.to_bytes())),
        Err(_) => None,
    }
}

/// Calls `opentelemetry::trace::SpanId::from_hex`, which reads an unsigned
/// number of 64 bits in base sixteen, and gives the number inside the id.
#[verifier::external_body]
fn span_id(hex: &str) -> (r: Option<u64>)
    ensures
        match r {
            Some(id) => hex_number(hex@, u64::MAX as nat) == Some(id as nat),
            None => hex_number(hex@, u64::MAX as nat) is None,
        },
{
    match SpanId::from_hex(hex) {
        Ok(id) => Some(u64::from_be_bytes(id.to_bytes())),
        Err(_) => None,
    }
}

/// The trace that a request came with.
#[derive(Debug)]
pub struct TraceContext {
    pub trace_id: String,
    pub span_id: String,
}

/// A span of another process, to be the parent of one here.
#[derive(Debug, Clone, Copy, PartialEq, Eq)]
pub struct RemoteParent {
    pub trace_id: u128,
    pub span_id: u64,
    pub sampled: bool,
    pub remote: bool,
}

/// The span to generate under.
#[derive(Debug)]
pub enum DispatchSpan {
    /// The span that is current anyway.
    Current,
    /// A span for the request, under the caller's where that one can be told.
    Request { request_id: String, parent: Option<RemoteParent> },
}

/// What a [`DispatchSpan`] says.
pub enum DispatchSpanView {
    Current,
    Request { request_id: Seq<char>, parent: Option<RemoteParent> },
}

impl View for DispatchSpan {
    type V = DispatchSpanView;

    open spec fn view(&self) -> DispatchSpanView {
        match self {
            DispatchSpan::Current => DispatchSpanView::Current,
            DispatchSpan::Request { request_id, parent } => DispatchSpanView::Request {
                request_id: request_id@,
                parent: *parent,
            },
        }
    }
}

/// The caller's span, where both of its ids can be read. It counts as sampled
/// and remote.
pub open spec fn parent_of(trace: Seq<char>, span: Seq<char>) -> Option<RemoteParent> {
    match (hex_number(trace, u128::MAX as nat), hex_number(span, u64::MAX as nat)) {
        (Some(trace_id), Some(span_id)) => Some(
            RemoteParent {
                trace_id: trace_id as u128,
                span_id: span_id as u64,
                sampled: true,
                remote: true,
            },
        ),
        _ => None,
    }
}

/// Chooses the span to generate under. A request that came with a trace gets a
/// span of its own, so that what is done for it lands on that trace.
pub fn dispatch_span(trace: Option<&TraceContext>, request_id: &str) -> (r: DispatchSpan)
    ensures
        r@ == (match trace {
            Some(context) => DispatchSpanView::Request {
                request_id: request_id@,
                parent: parent_of(context.trace_id@, context.span_id@),
            },
            None => DispatchSpanView::Current,
        }),
{
    match trace {
        Some(context) => {
            let parent = match (
                trace_id(context.trace_id.as_str()),
                span_id(context.span_id.as_str()),
            ) {
                (Some(trace_id), Some(span_id)) => Some(
                    RemoteParent { trace_id, span_id, sampled: true, remote: true },
                ),
                _ => None,
            };
            DispatchSpan::Request { request_id: request_id.to_owned(), parent }
        },
        None => DispatchSpan::Current,
    }
}

/// What is passed on to a generation when its request is linked to it.
#[derive(Debug, Clone, Copy, PartialEq, Eq)]
pub enum ChildSignal {
    Nothing,
    StopGenerating,
    Kill,
}

/// Reads what a generation has to be told of its request's state at the time
/// the two are linked. To be killed outranks to be stopped.
pub fn child_signal(killed: bool, stopped: bool) -> (r: ChildSignal)
    ensures
        r == (if killed {
            ChildSignal::Kill
        } else if stopped {
            ChildSignal::StopGenerating
        } else {
            ChildSignal::Nothing
        }),
{
    if killed {
        ChildSignal::Kill
    } else if stopped {
        ChildSignal::StopGenerating
    } else {
        ChildSignal::Nothing
    }
}

proof fn lemma_hex_bound(s: Seq<char>)
    requires
        all_hex(s),
    ensures
        hex_value(s) < vstd::arithmetic::power::pow(16, s.len()),
    decreases s.len(),
{
    vstd::arithmetic::power::lemma_pow0(16);
    if s.len() > 0 {
        let n = (s.len() - 1) as nat;
        assert(hex_digit(s[n as int]) is Some);
        assert forall|i: int| 0 <= i < s.drop_last().len() implies hex_digit(
            #[trigger] s.drop_last()[i],
        ) is Some by {
            assert(hex_digit(s[i]) is Some);
        }
        lemma_hex_bound(s.drop_last());
        assert(vstd::arithmetic::power::pow(16, s.len()) == 16 * vstd::arithmetic::power::pow(
            16,
            n,
        )) by {
            reveal(vstd::arithmetic::power::pow);
        }
    }
}

proof fn lemma_powers_of_sixteen()
    ensures
        vstd::arithmetic::power::pow(16, 16) == 0x1_0000_0000_0000_0000,
        vstd::arithmetic::power::pow(16, 32) == 0x1_0000_0000_0000_0000_0000_0000_0000_0000int,
{
    assert(vstd::arithmetic::power::pow(16, 8) == 0x1_0000_0000) by {
        reveal_with_fuel(vstd::arithmetic::power::pow, 9);
    }
    vstd::arithmetic::power::lemma_pow_adds(16, 8, 8);
    vstd::arithmetic::power::lemma_pow_adds(16, 16, 16);
    assert(0x1_0000_0000_0000_0000int * 0x1_0000_0000_0000_0000int
        == 0x1_0000_0000_0000_0000_0000_0000_0000_0000int) by (nonlinear_arith);
}

/// Any trace id of up to 32 hexadecimal digits and any span id of up to 16 can
/// be read, so a request that comes with such ids is generated for on its own
/// trace.
pub proof fn law_hex_ids_have_a_parent(trace: Seq<char>, span: Seq<char>)
    requires
        all_hex(trace),
        all_hex(span),
        0 < trace.len() <= 32,
        0 < span.len() <= 16,
    ensures
        hex_value(trace) <= u128::MAX,
        hex_value(span) <= u64::MAX,
        parent_of(trace, span) == Some(
            RemoteParent {
                trace_id: hex_value(trace) as u128,
                span_id: hex_value(span) as u64,
                sampled: true,
                remote: true,
            },
        ),
{
    lemma_powers_of_sixteen();
    lemma_hex_bound(trace);
    lemma_hex_bound(span);
    vstd::arithmetic::power::lemma_pow_increases(16, trace.len(), 32);
    vstd::arithmetic::power::lemma_pow_increases(16, span.len(), 16);
    assert(hex_digit(trace[0]) is Some);
    assert(hex_digit(span[0]) is Some);
}

/// An id that cannot be read leaves the request's span without a parent.
pub proof fn law_unreadable_id_has_no_parent(trace: Seq<char>, span: Seq<char>)
    requires
        hex_number(trace, u128::MAX as nat) is None || hex_number(span, u64::MAX as nat) is None,
    ensures
        parent_of(trace, span) is None,
{
}

/// What happens while responses are forwarded to their consumer.
#[derive(Debug, Clone, Copy, PartialEq, Eq)]
pub enum ForwardEvent {
    /// The consumer went away while a response was awaited.
    ConsumerGone,
    /// The stream of responses is over.
    StreamEnded,
    /// A response came.
    Response,
    /// The response was handed to the consumer.
    Delivered,
    /// The consumer went away before it took the response.
    Undelivered,
}

/// What to do next while responses are forwarded.
#[derive(Debug, Clone, Copy, PartialEq, Eq)]
pub enum ForwardAction {
    /// Wait for a response, or for the consumer to go away.
    Receive,
    /// Hand the response to the consumer.
    Deliver,
    /// Forward no more.
    End,
    /// Tell the engine to stop generating, and forward no more.
    StopAndEnd,
}

/// How forwarding goes on. The engine is told to stop exactly where the
/// consumer went away.
pub open spec fn forwarding(event: ForwardEvent) -> ForwardAction {
    match event {
        ForwardEvent::ConsumerGone => ForwardAction::StopAndEnd,
        ForwardEvent::StreamEnded => ForwardAction::End,
        ForwardEvent::Response => ForwardAction::Deliver,
        ForwardEvent::Delivered => ForwardAction::Receive,
        ForwardEvent::Undelivered => ForwardAction::StopAndEnd,
    }
}

/// Decides how forwarding goes on.
pub fn forward(event: ForwardEvent) -> (r: ForwardAction)
    ensures
        r == forwarding(event),
{
    match event {
        ForwardEvent::ConsumerGone => ForwardAction::StopAndEnd,
        ForwardEvent::StreamEnded => ForwardAction::End,
        ForwardEvent::Response => ForwardAction::Deliver,
        ForwardEvent::Delivered => ForwardAction::Receive,
        ForwardEvent::Undelivered => ForwardAction::StopAndEnd,
    }
}

/// The event can answer the action.
pub open spec fn answers(action: ForwardAction, event: ForwardEvent) -> bool {
    match action {
        ForwardAction::Receive => event is ConsumerGone || event is StreamEnded || event
            is Response,
        ForwardAction::Deliver => event is Delivered || event is Undelivered,
        _ => false,
    }
}

/// The event at `i` answers the action that the one before it led to; the first
/// answers the wait that forwarding starts with.
pub open spec fn follows(events: Seq<ForwardEvent>, i: int) -> bool {
    answers(
        if i == 0 {
            ForwardAction::Receive
        } else {
            forwarding(events[i - 1])
        },
        events[i],
    )
}

/// The consumer is offered a response right after the event at `i`.
pub open spec fn offered_next(events: Seq<ForwardEvent>, i: int) -> bool {
    i + 1 < events.len() && (events[i + 1] is Delivered || events[i + 1] is Undelivered)
}

/// A whole course of forwarding: each event follows from the one before it, and
/// the last one ends it.
pub open spec fn is_course(events: Seq<ForwardEvent>) -> bool {
    &&& events.len() > 0
    &&& forall|i: int| 0 <= i < events.len() ==> #[trigger] follows(events, i)
    &&& forwarding(events.last()) is End || forwarding(events.last()) is StopAndEnd
}

/// In a whole course each response is offered to the consumer right after it
/// came, and the engine is told to stop at the end, and there if and only if
/// the course did not end with the stream.
pub proof fn law_stopped_unless_stream_ended(events: Seq<ForwardEvent>)
    requires
        is_course(events),
    ensures
        forall|i: int|
            0 <= i < events.len() && events[i] is Response ==> #[trigger] offered_next(events, i),
        forwarding(events.last()) is StopAndEnd <==> events.last() !is StreamEnded,
        forall|i: int|
            0 <= i < events.len() - 1 ==> forwarding(#[trigger] events[i]) !is StopAndEnd,
{
    assert forall|i: int| 0 <= i < events.len() && events[i] is Response implies
        #[trigger] offered_next(events, i) by {
        assert(i != events.len() - 1);
        assert(follows(events, i + 1));
    }
    assert forall|i: int| 0 <= i < events.len() - 1 implies forwarding(
        #[trigger] events[i],
    ) !is StopAndEnd by {
        assert(follows(events, i + 1));
    }
}

/// What is sent in place of a response that could not be converted.
pub fn conversion_error(detail: &str) -> (r: String)
    ensures
        r@ == "pythonize failed: "@ + detail@,
{
    crate::text::prefixed("pythonize failed: ", detail)
}

/// The hexadecimal digits are those of "0123456789abcdef" and
/// "0123456789ABCDEF", and each stands for its place there.
pub proof fn law_hex_digits(c: char, d: nat)
    ensures
        hex_digit(c) == Some(d) <==> d < 16 && (c == "0123456789abcdef"@[d as int] || c
            == "0123456789ABCDEF"@[d as int]),
{
    reveal_strlit("0123456789abcdef");
    reveal_strlit("0123456789ABCDEF");
}

/// No digits denote zero, and each digit that is written behind others makes
/// sixteen of each of their units and adds its own value.
pub proof fn law_hex_digits_are_positional(digits: Seq<char>, c: char, d: nat)
    requires
        hex_digit(c) == Some(d),
    ensures
        hex_value(Seq::<char>::empty()) == 0,
        hex_value(digits.push(c)) == 16 * hex_value(digits) + d,
{
    assert(digits.push(c).drop_last() =~= digits);
}

/// The lowest `width` hexadecimal digits of a number, most significant first.
pub open spec fn hex_text(n: nat, width: nat) -> Seq<char>
    decreases width,
{
    if width == 0 {
        seq![]
    } else {
        hex_text(n / 16, (width - 1) as nat).push("0123456789abcdef"@[(n % 16) as int])
    }
}

proof fn lemma_hex_text(n: nat, width: nat)
    requires
        n < vstd::arithmetic::power::pow(16, width),
    ensures
        hex_text(n, width).len() == width,
        all_hex(hex_text(n, width)),
        hex_value(hex_text(n, width)) == n,
    decreases width,
{
    vstd::arithmetic::power::lemma_pow0(16);
    if width > 0 {
        let rest = (width - 1) as nat;
        let front = hex_text(n / 16, rest);
        let last = "0123456789abcdef"@[(n % 16) as int];
        assert(vstd::arithmetic::power::pow(16, width) == 16 * vstd::arithmetic::power::pow(
            16,
            rest,
        )) by {
            reveal(vstd::arithmetic::power::pow);
        }
        lemma_hex_text(n / 16, rest);
        law_hex_digits(last, n % 16);
        assert(hex_text(n, width).drop_last() =~= front);
        assert forall|i: int| 0 <= i < width implies hex_digit(
            #[trigger] hex_text(n, width)[i],
        ) is Some by {
            if i < rest {
                assert(hex_digit(front[i]) is Some);
            }
        }
    }
}

/// A request that comes with its caller's ids, written out in full, is generated
/// for under the span with exactly those ids, as a sampled remote one, in a span
/// that names the request.
pub proof fn law_caller_is_the_parent(
    context: TraceContext,
    trace: u128,
    span: u64,
    request_id: &str,
    r: DispatchSpan,
)
    requires
        context.trace_id@ == hex_text(trace as nat, 32),
        context.span_id@ == hex_text(span as nat, 16),
        call_ensures(dispatch_span, (Some(&context), request_id), r),
    ensures
        r matches DispatchSpan::Request { request_id: named, parent } && named@ == request_id@
            && parent == Some(
            RemoteParent { trace_id: trace, span_id: span, sampled: true, remote: true },
        ),
{
    lemma_powers_of_sixteen();
    lemma_hex_text(trace as nat, 32);
    lemma_hex_text(span as nat, 16);
    law_hex_ids_have_a_parent(context.trace_id@, context.span_id@);
    assert(r@ is Request);
}

/// A request gets a span of its own, which names it, exactly where it came with
/// a trace. The span has a parent exactly where both ids can be read, and then
/// the one with these ids.
pub proof fn law_span_follows_the_trace(
    trace: Option<&TraceContext>,
    request_id: &str,
    r: DispatchSpan,
)
    requires
        call_ensures(dispatch_span, (trace, request_id), r),
    ensures
        r is Request <==> trace is Some,
        r matches DispatchSpan::Request { request_id: named, parent } ==> {
            &&& named@ == request_id@
            &&& parent is Some <==> hex_number(trace->0.trace_id@, u128::MAX as nat) is Some
                && hex_number(trace->0.span_id@, u64::MAX as nat) is Some
            &&& parent is Some ==> {
                &&& hex_number(trace->0.trace_id@, u128::MAX as nat) == Some(
                    parent->0.trace_id as nat,
                )
                &&& hex_number(trace->0.span_id@, u64::MAX as nat) == Some(
                    parent->0.span_id as nat,
                )
                &&& parent->0.sampled
                &&& parent->0.remote
            }
        },
{
    assert(r@ is Request <==> r is Request);
    if let DispatchSpan::Request { request_id: _, parent } = r {
        assert(r@->parent == parent);
    }
}

/// A text is read as a number exactly where it is one or more hexadecimal digits,
/// after a plus sign or not, and the number is at most the largest. Whether the
/// plus sign is there makes no difference to the number.
pub proof fn law_what_reads_as_hex(digits: Seq<char>, max: nat)
    ensures
        digits.len() == 0 ==> hex_number(digits, max) is None,
        hex_number(seq!['+'] + digits, max) is Some <==> digits.len() > 0 && all_hex(digits)
            && hex_value(digits) <= max,
        hex_number(seq!['+'] + digits, max) matches Some(n) ==> n == hex_value(digits)
            && hex_number(digits, max) == Some(n),
        digits.len() > 0 && digits[0] != '+' ==> hex_number(digits, max) == hex_number(
            seq!['+'] + digits,
            max,
        ),
{
    assert((seq!['+'] + digits).drop_first() =~= digits);
    if digits.len() > 0 && all_hex(digits) {
        assert(hex_digit(digits[0]) is Some);
    }
}

/// A generation is killed exactly where its request was killed; it is stopped
/// exactly where its request was stopped and not killed.
pub proof fn law_child_shares_its_parents_fate(killed: bool, stopped: bool, signal: ChildSignal)
    requires
        call_ensures(child_signal, (killed, stopped), signal),
    ensures
        signal is Kill <==> killed,
        signal is StopGenerating <==> stopped && !killed,
        signal is Nothing <==> !stopped && !killed,
{
}

/// The engine is told to stop exactly where the consumer is gone. Forwarding ends
/// without that exactly where the stream did; a response is delivered, and after
/// a delivery the next one is awaited.
pub proof fn law_engine_stops_where_the_consumer_left(event: ForwardEvent, action: ForwardAction)
    requires
        call_ensures(forward, (event,), action),
    ensures
        action is StopAndEnd <==> event is ConsumerGone || event is Undelivered,
        action is End <==> event is StreamEnded,
        action is Deliver <==> event is Response,
        action is Receive <==> event is Delivered,
{
}

/// What is sent in place of a response says what failed and holds all the words
/// of the cause.
pub proof fn law_conversion_error_holds_its_cause(detail: &str, text: String)
    requires
        call_ensures(conversion_error, (detail,), text),
    ensures
        text@ == "pythonize failed: "@ + detail@,
{
}

} // verus!
