//! The router: how a pick runs, step by step, and which bookings it keeps.
//!
//! A pick starts with [`EppRouter::pick`]. A request without a body goes to any
//! ready worker ([`EppRouter::route_any`]). Every other request is tokenized
//! ([`EppRouter::tokenize`]), booked ([`EppRouter::reserve`]), handed to the
//! selection service, and routed by its answer ([`EppRouter::settle`],
//! [`EppRouter::route`]). Lookups, tokenizing and the service are the caller's.
use crate::hints;
use crate::hints::{NvExt, PriorityJump};
use crate::picker::{PickError, PickErrorView, PickResult, PickResultView, RequestInfo};
use crate::reservations;
use crate::reservations::{BookingEvent, Reservations};
use crate::selection::{SelectRequest, SelectRequestView, SelectResponse, SelectorError};
use crate::selector::EppConfig;
use crate::text;
use crate::worker;
use std::collections::HashSet;
use vstd::prelude::*;
use vstd::std_specs::hash::*;
use vstd::utf8::*;

verus! {

broadcast use group_hash_axioms;

/// The header that names the worker.
pub const WORKER_HEADER: &'static str = "x-dynamo-worker-instance-id";

/// The header that names the worker's data-parallel rank.
pub const DP_RANK_HEADER: &'static str = "x-dynamo-dp-rank";

/// The header that names the routing mode.
pub const ROUTING_MODE_HEADER: &'static str = "x-dynamo-routing-mode";

/// The one routing mode: prefill and decode on one worker.
pub const AGGREGATED: &'static str = "aggregated";

/// How a pick goes on.
#[derive(Debug)]
pub enum PickStart {
    /// Not at all.
    Refused(PickError),
    /// To this worker, without a selection.
    RouteAny(u64),
    /// By the tokens of this request body.
    Tokenize(String),
}

/// What a [`PickStart`] says.
pub enum StartView {
    Refused(PickErrorView),
    RouteAny(u64),
    Tokenize(Seq<char>),
}

impl View for PickStart {
    type V = StartView;

    open spec fn view(&self) -> StartView {
        match self {
            PickStart::Refused(error) => StartView::Refused(error@),
            PickStart::RouteAny(worker_id) => StartView::RouteAny(*worker_id),
            PickStart::Tokenize(body) => StartView::Tokenize(body@),
        }
    }
}

/// A prompt as the selection service needs it.
#[derive(Debug)]
pub struct TokenizedPrompt {
    pub token_ids: Vec<u32>,
    pub priority_jump: PriorityJump,
    pub strict_priority: u32,
}

/// A pick that the selection service refused.
#[derive(Debug)]
pub struct FailedPick {
    /// The reservation to release, in case the service booked it and only its
    /// answer was lost.
    pub release: String,
    pub error: PickError,
}

/// Why a request body that is no UTF-8 is not routed.
pub open spec fn not_utf8(detail: Seq<char>) -> PickErrorView {
    PickErrorView::TokenizationFailed("request body not UTF-8: "@ + detail)
}

/// How a pick starts. Without known pods or ready workers it is refused. A
/// request without a body goes to some ready worker, whichever. Every other
/// request goes on with its body, which has to be UTF-8.
pub open spec fn starts(
    start: StartView,
    body: Seq<u8>,
    reflector_ready: bool,
    allowed: Set<u64>,
) -> bool {
    if !reflector_ready {
        start == StartView::Refused(
            PickErrorView::RoutingFailed("pod reflector cache not ready"@),
        )
    } else if allowed.is_empty() {
        start == StartView::Refused(PickErrorView::NoEndpoints)
    } else if body.len() == 0 {
        start is RouteAny && allowed.contains(start->RouteAny_0)
    } else if valid_utf8(body) {
        start == StartView::Tokenize(decode_utf8(body))
    } else {
        start == StartView::Refused(not_utf8(text::utf8_error_text(body)))
    }
}

/// Where a request without a body goes: to the worker's address, where it is
/// known.
pub open spec fn any_route(worker_id: u64, resolved: Option<Seq<char>>) -> Result<
    PickResultView,
    PickErrorView,
> {
    match resolved {
        Some(endpoint) => Ok(
            PickResultView {
                endpoint,
                headers: seq![
                    (WORKER_HEADER@, text::decimal_text(worker_id as nat)),
                    (ROUTING_MODE_HEADER@, AGGREGATED@),
                ],
                token_ids: None,
            },
        ),
        None => Err(PickErrorView::NoEndpoints),
    }
}

/// Where a selected request goes: to the worker's address as it is known now,
/// or else to the one that the service reported, without its scheme. No tokens
/// are injected: the worker tokenizes the request anew.
pub open spec fn selected_route(
    response: SelectResponse,
    resolved: Option<Seq<char>>,
) -> PickResultView {
    PickResultView {
        endpoint: match resolved {
            Some(endpoint) => endpoint,
            None => text::without_scheme(response.endpoint@),
        },
        headers: seq![
            (WORKER_HEADER@, text::decimal_text(response.worker_id as nat)),
            (DP_RANK_HEADER@, text::decimal_text(response.dp_rank as nat)),
            (ROUTING_MODE_HEADER@, AGGREGATED@),
        ],
        token_ids: None,
    }
}

/// What a request is selected by.
pub open spec fn selection_of(
    model_name: Seq<char>,
    request_id: Seq<char>,
    reservation_id: Seq<char>,
    allowed: Set<u64>,
    prompt: TokenizedPrompt,
) -> SelectRequestView {
    SelectRequestView {
        model_name,
        selection_id: Some(request_id),
        reservation_id: Some(reservation_id),
        token_ids: prompt.token_ids@,
        allowed_worker_ids: Some(allowed),
        priority_jump: hints::requested_jump(prompt.priority_jump),
        strict_priority: hints::requested_strict_priority(prompt.strict_priority),
    }
}

/// A lower-case hexadecimal digit.
pub open spec fn lower_hex(c: char) -> bool {
    '0' <= c <= '9' || 'a' <= c <= 'f'
}

/// The hyphenated text of a random (version 4) UUID.
pub open spec fn random_uuid_text(s: Seq<char>) -> bool {
    &&& s.len() == 36
    &&& forall|i: int|
        0 <= i < 36 ==> if i == 8 || i == 13 || i == 18 || i == 23 {
            #[trigger] s[i] == '-'
        } else {
            lower_hex(s[i])
        }
    &&& s[14] == '4'
    &&& s[19] == '8' || s[19] == '9' || s[19] == 'a' || s[19] == 'b'
}

/// Calls `uuid::Uuid::new_v4` and writes the UUID out: hyphenated, in lower-case
/// hexadecimal, with the version and variant digits of a random UUID. Which one
/// comes is left to chance; that two differ is not claimed. The call panics
/// where the system has no random bytes to give.
#[verifier::external_body]
fn new_reservation_id() -> (r: String)
    ensures
        random_uuid_text(r@),
{
    uuid::Uuid::new_v4().to_string()
}

/// Some worker of the set.
fn any_of(ids: &HashSet<u64>) -> (r: Option<u64>)
    ensures
        match r {
            Some(id) => ids@.contains(id),
            None => ids@.is_empty(),
        },
{
    for id in all: ids.iter()
        invariant
            all.index() == 0,
            all.seq().unref().to_set() == ids@,
    {
        assert(all.seq().unref()[0] == *id);
        return Some(*id);
    }
    assert(ids@ =~= Set::<u64>::empty());
    None
}

fn header(name: &str, value: String) -> (r: (String, String))
    ensures
        r.0@ == name@,
        r.1@ == value@,
{
    (name.to_owned(), value)
}

/// The router's own state: the model it serves and the bookings in flight.
pub struct EppRouter {
    model_name: String,
    reservations: Reservations,
}

impl EppRouter {
    /// The model that the router serves.
    pub closed spec fn model(&self) -> Seq<char> {
        self.model_name@
    }

    /// The reservation of each request that is booked.
    pub closed spec fn reservations(&self) -> Map<Seq<char>, Seq<char>> {
        self.reservations@
    }

    /// A router for the configured model, with nothing booked.
    pub fn from_selector(cfg: &EppConfig) -> (r: EppRouter)
        ensures
            r.model() == cfg.model_name@,
            r.reservations() == Map::<Seq<char>, Seq<char>>::empty(),
    {
        EppRouter { model_name: cfg.model_name.clone(), reservations: Reservations::new() }
    }

    /// Starts a pick, given whether the pods are known yet and which workers
    /// are ready. Nothing is booked.
    pub fn pick(req: &RequestInfo, reflector_ready: bool, allowed: &HashSet<u64>) -> (r: PickStart)
        ensures
            starts(r@, req.body@, reflector_ready, allowed@),
    {
        if !reflector_ready {
            return PickStart::Refused(
                PickError::RoutingFailed("pod reflector cache not ready".to_owned()),
            );
        }
        match any_of(allowed) {
            None => PickStart::Refused(PickError::NoEndpoints),
            Some(worker_id) => {
                if req.body.len() == 0 {
                    PickStart::RouteAny(worker_id)
                } else {
                    Self::start_with_body(text::utf8_text(req.body.as_slice()))
                }
            },
        }
    }

    /// Goes on with a request body as it reads, or refuses one that does not
    /// read as UTF-8.
    pub fn start_with_body(body: Result<String, String>) -> (r: PickStart)
        ensures
            r@ == (match body {
                Ok(text) => StartView::Tokenize(text@),
                Err(detail) => StartView::Refused(not_utf8(detail@)),
            }),
    {
        match body {
            Ok(text) => PickStart::Tokenize(text),
            Err(detail) => PickStart::Refused(
                PickError::TokenizationFailed(
                    text::prefixed("request body not UTF-8: ", detail.as_str()),
                ),
            ),
        }
    }

    /// Routes a request without a body to the worker it was given.
    pub fn route_any(worker_id: u64, resolved: Option<String>) -> (r: Result<
        PickResult,
        PickError,
    >)
        ensures
            match any_route(worker_id, worker::text_of(resolved)) {
                Ok(expected) => r matches Ok(result) && result@ == expected,
                Err(expected) => r matches Err(e) && e@ == expected,
            },
    {
        match resolved {
            Some(endpoint) => {
                let mut headers: Vec<(String, String)> = Vec::new();
                headers.push(header(WORKER_HEADER, text::decimal(worker_id)));
                headers.push(header(ROUTING_MODE_HEADER, AGGREGATED.to_owned()));
                let result = PickResult { endpoint, headers, token_ids: None };
                assert(result@.headers =~= any_route(
                    worker_id,
                    Some(endpoint@),
                )->Ok_0.headers);
                Ok(result)
            },
            None => Err(PickError::NoEndpoints),
        }
    }

    /// The prompt to tokenize: what the model's template made of the request,
    /// or nothing where it made nothing.
    pub fn formatted_prompt(templated: Option<String>) -> (r: String)
        ensures
            match templated {
                Some(prompt) => r == prompt,
                None => r@.len() == 0,
            },
    {
        match templated {
            Some(prompt) => prompt,
            None => String::new(),
        }
    }

    /// Puts the tokens of a prompt beside the priorities that its request asks
    /// for. What kept the prompt from being tokenized is passed on.
    pub fn tokenize(nvext: &Option<NvExt>, encoded: Result<Vec<u32>, String>) -> (r: Result<
        TokenizedPrompt,
        String,
    >)
        ensures
            match encoded {
                Ok(token_ids) => r == Ok::<TokenizedPrompt, String>(
                    TokenizedPrompt {
                        token_ids,
                        priority_jump: hints::priority_jump_of(*nvext),
                        strict_priority: hints::strict_priority_of(*nvext),
                    },
                ),
                Err(error) => r == Err::<TokenizedPrompt, String>(error),
            },
    {
        match encoded {
            Ok(token_ids) => Ok(
                TokenizedPrompt {
                    token_ids,
                    priority_jump: hints::extract_priority_jump(nvext),
                    strict_priority: hints::extract_strict_priority(nvext),
                },
            ),
            Err(error) => Err(error),
        }
    }

    /// Books a request under a fresh reservation and says what to select it by.
    /// The booking is remembered before the service is asked, so that it can be
    /// released even where the answer is lost. A request that could not be
    /// tokenized is refused, and nothing is booked.
    pub fn reserve(
        &mut self,
        req: &RequestInfo,
        allowed: HashSet<u64>,
        tokenized: Result<TokenizedPrompt, String>,
    ) -> (r: Result<SelectRequest, PickError>)
        ensures
            final(self).model() == old(self).model(),
            match tokenized {
                Ok(prompt) => r matches Ok(select) && select.reservation_id matches Some(id)
                    && random_uuid_text(id@) && select@ == selection_of(
                    old(self).model(),
                    req.request_id@,
                    id@,
                    allowed@,
                    prompt,
                ) && final(self).reservations() == reservations::after_event(
                    old(self).reservations(),
                    (BookingEvent::Booked { request: req.request_id@, reservation: id@ }),
                ),
                Err(error) => r matches Err(e) && e@ == PickErrorView::TokenizationFailed(error@)
                    && final(self).reservations() == old(self).reservations(),
            },
    {
        match tokenized {
            Ok(prompt) => {
                let reservation_id = new_reservation_id();
                Ok(self.reserve_as(req, allowed, prompt, reservation_id))
            },
            Err(error) => Err(PickError::TokenizationFailed(error)),
        }
    }

    /// Books a request under the reservation it is given.
    pub fn reserve_as(
        &mut self,
        req: &RequestInfo,
        allowed: HashSet<u64>,
        prompt: TokenizedPrompt,
        reservation_id: String,
    ) -> (r: SelectRequest)
        ensures
            final(self).model() == old(self).model(),
            r@ == selection_of(
                old(self).model(),
                req.request_id@,
                reservation_id@,
                allowed@,
                prompt,
            ),
            r.reservation_id == Some(reservation_id),
            final(self).reservations() == reservations::after_event(
                old(self).reservations(),
                (BookingEvent::Booked { request: req.request_id@, reservation: reservation_id@ }),
            ),
    {
        self.reservations.book(req.request_id.as_str(), reservation_id.as_str());
        SelectRequest {
            model_name: self.model_name.clone(),
            selection_id: Some(req.request_id.clone()),
            reservation_id: Some(reservation_id),
            token_ids: prompt.token_ids,
            allowed_worker_ids: Some(allowed),
            priority_jump: hints::positive_jump(prompt.priority_jump),
            strict_priority: hints::positive_strict_priority(prompt.strict_priority),
        }
    }

    /// Takes in the selector's answer. A failure forgets the booking and says
    /// which reservation to release, since a failed pick is never completed.
    pub fn settle(
        &mut self,
        req: &RequestInfo,
        reservation_id: &str,
        answer: Result<SelectResponse, SelectorError>,
    ) -> (r: Result<SelectResponse, FailedPick>)
        ensures
            final(self).model() == old(self).model(),
            match answer {
                Ok(response) => r == Ok::<SelectResponse, FailedPick>(response)
                    && final(self).reservations() == old(self).reservations(),
                Err(error) => r matches Err(failed) && failed.release@ == reservation_id@
                    && failed.error@ == PickErrorView::RoutingFailed(error@.message())
                    && final(self).reservations() == reservations::after_event(
                    old(self).reservations(),
                    (BookingEvent::Ended { request: req.request_id@ }),
                ),
            },
    {
        match answer {
            Ok(response) => Ok(response),
            Err(error) => {
                let _ = self.reservations.release(req.request_id.as_str());
                Err(
                    FailedPick {
                        release: reservation_id.to_owned(),
                        error: PickError::RoutingFailed(error.message()),
                    },
                )
            },
        }
    }

    /// Routes a request to the worker that was selected for it.
    pub fn route(response: &SelectResponse, resolved: Option<String>) -> (r: PickResult)
        ensures
            r@ == selected_route(*response, worker::text_of(resolved)),
    {
        let endpoint = match resolved {
            Some(endpoint) => endpoint,
            None => text::strip_scheme(response.endpoint.as_str()).to_owned(),
        };
        let mut headers: Vec<(String, String)> = Vec::new();
        headers.push(header(WORKER_HEADER, text::decimal(response.worker_id)));
        headers.push(header(DP_RANK_HEADER, text::decimal(response.dp_rank as u64)));
        headers.push(header(ROUTING_MODE_HEADER, AGGREGATED.to_owned()));
        let result = PickResult { endpoint, headers, token_ids: None };
        assert(result@.headers =~= selected_route(*response, worker::text_of(resolved)).headers);
        result
    }

    /// The response is complete: forgets the booking and gives back the
    /// reservation to release, where the request was booked.
    pub fn on_request_complete(&mut self, request_id: &str) -> (r: Option<String>)
        ensures
            final(self).model() == old(self).model(),
            worker::text_of(r) == reservations::booked(old(self).reservations(), request_id@),
            final(self).reservations() == reservations::after_event(
                old(self).reservations(),
                (BookingEvent::Ended { request: request_id@ }),
            ),
    {
        self.reservations.release(request_id)
    }

    /// The first token is there: gives the reservation whose prefill is done,
    /// where the request is booked. It stays booked until the response is
    /// complete.
    pub fn on_prefill_complete(&self, request_id: &str) -> (r: Option<String>)
        ensures
            worker::text_of(r) == reservations::booked(self.reservations(), request_id@),
    {
        self.reservations.get(request_id)
    }
}

/// The service is asked to book a request under the reservation that the router
/// remembers for it, and to choose among the ready workers only. So whenever the
/// request completes, the router releases what the service booked.
pub proof fn law_service_books_what_is_remembered(
    bookings: Map<Seq<char>, Seq<char>>,
    model_name: Seq<char>,
    request_id: Seq<char>,
    reservation_id: Seq<char>,
    allowed: Set<u64>,
    prompt: TokenizedPrompt,
)
    ensures
        ({
            let asked = crate::selector::reserve_request_of(
                selection_of(model_name, request_id, reservation_id, allowed, prompt),
            );
            &&& asked.reservation_id == reservations::booked(
                reservations::after_event(
                    bookings,
                    BookingEvent::Booked { request: request_id, reservation: reservation_id },
                ),
                request_id,
            )
            &&& asked.selection_id == Some(request_id)
            &&& asked.allowed_worker_ids == Some(allowed)
            &&& asked.token_ids == Some(prompt.token_ids@)
        }),
{
}

/// The worker header tells any two workers apart, whichever way a request was
/// routed to them.
pub proof fn law_header_names_one_worker(a: SelectResponse, b: u64, resolved: Seq<char>)
    ensures
        selected_route(a, Some(resolved)).headers[0] == any_route(
            b,
            Some(resolved),
        )->Ok_0.headers[0] <==> a.worker_id == b,
{
    text::law_decimal_reads_back(a.worker_id as nat);
    text::law_decimal_reads_back(b as nat);
}

/// A pick goes to any worker exactly where there is one and the body is empty,
/// and then to a ready one. It goes on with its body exactly where there is a
/// worker and the body, of whatever length, is the encoding of some text that is
/// not empty; and then with that text.
pub proof fn law_pick_starts_by_the_body(
    req: RequestInfo,
    reflector_ready: bool,
    allowed: HashSet<u64>,
    start: PickStart,
)
    requires
        call_ensures(EppRouter::pick, (&req, reflector_ready, &allowed), start),
    ensures
        start is RouteAny <==> reflector_ready && (exists|id: u64| #[trigger] allowed@.contains(id))
            && req.body@.len() == 0,
        start matches PickStart::RouteAny(worker_id) ==> allowed@.contains(worker_id),
        start is Tokenize <==> reflector_ready && (exists|id: u64| #[trigger] allowed@.contains(id))
            && req.body@.len() > 0 && (exists|text: Seq<char>|
            #[trigger] encode_utf8(text) == req.body@),
        start matches PickStart::Tokenize(text) ==> encode_utf8(text@) == req.body@,
{
    if exists|id: u64| #[trigger] allowed@.contains(id) {
        let id = choose|id: u64| #[trigger] allowed@.contains(id);
        assert(!allowed@.is_empty());
    } else {
        assert(allowed@ =~= Set::<u64>::empty());
    }
    if valid_utf8(req.body@) {
        decode_utf8_encode_utf8(req.body@);
        assert(encode_utf8(decode_utf8(req.body@)) == req.body@);
    } else {
        assert forall|text: Seq<char>| #[trigger] encode_utf8(text) != req.body@ by {
            encode_utf8_valid_utf8(text);
        }
    }
    assert(start@ is Tokenize <==> start is Tokenize);
    assert(start@ is RouteAny <==> start is RouteAny);
}

/// A refused pick says why: the pods are not known yet; or no worker is ready;
/// or the body is no text, and then in the words in which it could not be read.
pub proof fn law_refused_pick_says_why(
    req: RequestInfo,
    reflector_ready: bool,
    allowed: HashSet<u64>,
    error: PickError,
    bytes: &[u8],
    read: Result<String, String>,
)
    requires
        call_ensures(EppRouter::pick, (&req, reflector_ready, &allowed), PickStart::Refused(error)),
        bytes@ == req.body@,
        call_ensures(text::utf8_text, (bytes,), read),
    ensures
        !reflector_ready ==> error is RoutingFailed && error->RoutingFailed_0@
            == "pod reflector cache not ready"@,
        reflector_ready && (forall|id: u64| !#[trigger] allowed@.contains(id)) ==> error
            is NoEndpoints,
        reflector_ready && (exists|id: u64| #[trigger] allowed@.contains(id)) ==> read is Err
            && error is TokenizationFailed && error->TokenizationFailed_0@
            == "request body not UTF-8: "@ + read->Err_0@,
{
    let start = PickStart::Refused(error);
    assert(start@ == StartView::Refused(error@));
    if exists|id: u64| #[trigger] allowed@.contains(id) {
        assert(!allowed@.is_empty());
    } else {
        assert(allowed@ =~= Set::<u64>::empty());
    }
}

/// A body that was read goes on as it was read; one that was not is refused in
/// the words in which it could not be read.
pub proof fn law_body_goes_on_as_read(body: Result<String, String>, start: PickStart)
    requires
        call_ensures(EppRouter::start_with_body, (body,), start),
    ensures
        body matches Ok(read) ==> start matches PickStart::Tokenize(text) && text@ == read@,
        body matches Err(words) ==> start matches PickStart::Refused(
            PickError::TokenizationFailed(said),
        ) && said@ == "request body not UTF-8: "@ + words@,
{
    if let Ok(read) = body {
        assert(start@ == StartView::Tokenize(read@));
    } else {
        assert(start@ == StartView::Refused(not_utf8(body->Err_0@)));
    }
}

/// A request without a body goes to the address of its worker, with the worker's
/// id in decimal and no rank. Without an address there is no endpoint.
pub proof fn law_any_route(
    worker_id: u64,
    resolved: Option<String>,
    written: String,
    r: Result<PickResult, PickError>,
)
    requires
        call_ensures(EppRouter::route_any, (worker_id, resolved), r),
        call_ensures(text::decimal, (worker_id,), written),
    ensures
        resolved is None ==> r is Err && r->Err_0 is NoEndpoints,
        resolved matches Some(address) ==> r matches Ok(result) && result.endpoint@ == address@,
        r matches Ok(result) ==> {
            &&& result.headers@.len() == 2
            &&& result.headers@[0].0@ == "x-dynamo-worker-instance-id"@
            &&& result.headers@[0].1@ == written@
            &&& result.headers@[1].0@ == "x-dynamo-routing-mode"@
            &&& result.headers@[1].1@ == "aggregated"@
            &&& result.token_ids is None
        },
{
    if let Ok(result) = r {
        assert(result@.headers.len() == 2);
        assert(result@.headers[0] == (WORKER_HEADER@, written@));
        assert(result@.headers[1] == (ROUTING_MODE_HEADER@, AGGREGATED@));
        assert(result@.token_ids is None);
    }
}

/// Whatever was selected, the request goes to the worker's address where one is
/// known, and else to the reported endpoint as it reads without its scheme. The
/// headers name the selected worker and its rank in decimal, and no tokens are
/// injected.
pub proof fn law_selected_route(
    response: SelectResponse,
    resolved: Option<String>,
    reported: &str,
    stripped: &str,
    worker_id: String,
    dp_rank: String,
    r: PickResult,
)
    requires
        call_ensures(EppRouter::route, (&response, resolved), r),
        reported@ == response.endpoint@,
        call_ensures(text::strip_scheme, (reported,), stripped),
        call_ensures(text::decimal, (response.worker_id,), worker_id),
        call_ensures(text::decimal, (response.dp_rank as u64,), dp_rank),
    ensures
        resolved matches Some(address) ==> r.endpoint@ == address@,
        resolved is None ==> r.endpoint@ == stripped@,
        r.headers@.len() == 3,
        r.headers@[0].0@ == "x-dynamo-worker-instance-id"@,
        r.headers@[0].1@ == worker_id@,
        r.headers@[1].0@ == "x-dynamo-dp-rank"@,
        r.headers@[1].1@ == dp_rank@,
        r.headers@[2].0@ == "x-dynamo-routing-mode"@,
        r.headers@[2].1@ == "aggregated"@,
        r.token_ids is None,
{
    assert(r@.headers.len() == 3);
    assert(r@.headers[0] == (WORKER_HEADER@, worker_id@));
    assert(r@.headers[1] == (DP_RANK_HEADER@, dp_rank@));
    assert(r@.headers[2] == (ROUTING_MODE_HEADER@, AGGREGATED@));
    assert(r@.token_ids is None);
}

/// Where no address is known, a request goes to the host and port behind either
/// scheme of the reported endpoint, whatever worker and rank reported it.
pub proof fn law_reported_endpoint_loses_its_scheme(
    response: SelectResponse,
    host: Seq<char>,
    r: PickResult,
)
    requires
        response.endpoint@ == "http://"@ + host || response.endpoint@ == "https://"@ + host,
        call_ensures(EppRouter::route, (&response, None), r),
    ensures
        r.endpoint@ == host,
{
    text::law_scheme_is_stripped(host);
    assert(r@.endpoint == host);
}

/// The prompt is what the template made, or empty where it made nothing. Its
/// tokens go on as they are, beside the priorities that are read off the hints;
/// what kept it from being tokenized goes on as it reads.
pub proof fn law_prompt_goes_on_as_tokenized(
    templated: Option<String>,
    prompt: String,
    nvext: Option<NvExt>,
    encoded: Result<Vec<u32>, String>,
    jump: PriorityJump,
    strict: u32,
    r: Result<TokenizedPrompt, String>,
)
    requires
        call_ensures(EppRouter::formatted_prompt, (templated,), prompt),
        call_ensures(EppRouter::tokenize, (&nvext, encoded), r),
        call_ensures(hints::extract_priority_jump, (&nvext,), jump),
        call_ensures(hints::extract_strict_priority, (&nvext,), strict),
    ensures
        templated matches Some(made) ==> prompt@ == made@,
        templated is None ==> prompt@.len() == 0,
        encoded matches Ok(token_ids) ==> r matches Ok(tokenized) && tokenized.token_ids@
            == token_ids@ && tokenized.priority_jump == jump && tokenized.strict_priority == strict,
        encoded matches Err(words) ==> r matches Err(said) && said@ == words@,
{
}

/// A request is selected by its own id, its own tokens, the ready workers and
/// the priorities that are greater than zero, each as it is.
pub open spec fn selects_by(
    select: SelectRequest,
    req: RequestInfo,
    allowed: HashSet<u64>,
    prompt: TokenizedPrompt,
) -> bool {
    &&& select.selection_id is Some && select.selection_id->0@ == req.request_id@
    &&& select.token_ids@ == prompt.token_ids@
    &&& select.allowed_worker_ids is Some
    &&& forall|id: u64|
        #[trigger] select.allowed_worker_ids->0@.contains(id) <==> allowed@.contains(id)
    &&& select.priority_jump is Some ==> select.priority_jump->0 == prompt.priority_jump
    &&& prompt.priority_jump matches PriorityJump::Level(level) ==> (select.priority_jump is Some
        <==> level > 0)
    &&& prompt.priority_jump matches PriorityJump::Sensitivity(bits) ==> (
    select.priority_jump is Some <==> hints::positive_number(bits))
    &&& select.strict_priority is Some ==> select.strict_priority->0 == prompt.strict_priority
    &&& select.strict_priority is Some <==> prompt.strict_priority > 0
}

proof fn lemma_selects_by(
    select: SelectRequest,
    model_name: Seq<char>,
    reservation_id: Seq<char>,
    req: RequestInfo,
    allowed: HashSet<u64>,
    prompt: TokenizedPrompt,
)
    requires
        select@ == selection_of(model_name, req.request_id@, reservation_id, allowed@, prompt),
    ensures
        selects_by(select, req, allowed, prompt),
        select.model_name@ == model_name,
        select.reservation_id is Some && select.reservation_id->0@ == reservation_id,
{
    assert(select@.selection_id == Some(req.request_id@));
    assert(select@.reservation_id == Some(reservation_id));
    assert(select@.allowed_worker_ids == Some(allowed@));
    assert(select@.token_ids == prompt.token_ids@);
    assert(select@.priority_jump == select.priority_jump);
    assert(select@.strict_priority == select.strict_priority);
}

/// To book a request is to select by what it holds, under the given reservation,
/// and to remember that very reservation for the request, and for no other.
pub proof fn law_booking_selects_and_remembers(
    router: &mut EppRouter,
    req: RequestInfo,
    allowed: HashSet<u64>,
    prompt: TokenizedPrompt,
    reservation_id: String,
    select: SelectRequest,
    other: &str,
    before: Option<String>,
    after: Option<String>,
)
    requires
        call_ensures(
            EppRouter::reserve_as,
            (router, &req, allowed, prompt, reservation_id),
            select,
        ),
        call_ensures(EppRouter::on_prefill_complete, (&*old(router), other), before),
        call_ensures(EppRouter::on_prefill_complete, (&*final(router), other), after),
    ensures
        selects_by(select, req, allowed, prompt),
        select.reservation_id is Some && select.reservation_id->0@ == reservation_id@,
        other@ == req.request_id@ ==> after is Some && after->0@ == reservation_id@,
        other@ != req.request_id@ ==> worker::alike_text(before, after),
{
    lemma_selects_by(
        select,
        old(router).model(),
        reservation_id@,
        req,
        allowed,
        prompt,
    );
}

/// A tokenized request is selected by what it holds, under a reservation that
/// reads as a random UUID and that is remembered for it. One that could not be
/// tokenized is refused in the words of what kept it from that, and no request
/// leads anywhere else than before.
pub proof fn law_reserve_books_what_was_tokenized(
    router: &mut EppRouter,
    req: RequestInfo,
    allowed: HashSet<u64>,
    tokenized: Result<TokenizedPrompt, String>,
    r: Result<SelectRequest, PickError>,
    other: &str,
    before: Option<String>,
    after: Option<String>,
)
    requires
        call_ensures(EppRouter::reserve, (router, &req, allowed, tokenized), r),
        call_ensures(EppRouter::on_prefill_complete, (&*old(router), other), before),
        call_ensures(EppRouter::on_prefill_complete, (&*final(router), other), after),
    ensures
        tokenized is Ok <==> r is Ok,
        tokenized matches Ok(prompt) ==> selects_by(r->Ok_0, req, allowed, prompt)
            && r->Ok_0.reservation_id is Some && random_uuid_text(r->Ok_0.reservation_id->0@),
        tokenized is Ok && other@ == req.request_id@ ==> after is Some && after->0@
            == r->Ok_0.reservation_id->0@,
        tokenized is Ok && other@ != req.request_id@ ==> worker::alike_text(before, after),
        tokenized matches Err(words) ==> r matches Err(PickError::TokenizationFailed(said))
            && said@ == words@,
        tokenized is Err ==> worker::alike_text(before, after),
{
    if let Ok(prompt) = tokenized {
        let select = r->Ok_0;
        lemma_selects_by(
            select,
            old(router).model(),
            select.reservation_id->0@,
            req,
            allowed,
            prompt,
        );
    }
}

/// What a client asks for reaches the selection service: a priority greater than
/// zero as that number; without a priority a sensitivity greater than zero as
/// it is; a strict priority greater than zero as that number; and nothing else.
pub proof fn law_client_priority_reaches_the_service(
    router: &mut EppRouter,
    req: RequestInfo,
    allowed: HashSet<u64>,
    nvext: Option<NvExt>,
    client: hints::AgentHints,
    token_ids: Vec<u32>,
    prompt: TokenizedPrompt,
    reservation_id: String,
    select: SelectRequest,
    asked: crate::selection::SelectAndReserveRequest,
)
    requires
        nvext == Some(NvExt { agent_hints: Some(client) }),
        call_ensures(EppRouter::tokenize, (&nvext, Ok(token_ids)), Ok(prompt)),
        call_ensures(
            EppRouter::reserve_as,
            (router, &req, allowed, prompt, reservation_id),
            select,
        ),
        call_ensures(crate::selector::Selector::select_and_reserve, (&select,), asked),
    ensures
        client.priority is Some ==> (asked.priority_jump is Some <==> client.priority->0 > 0),
        client.priority is Some && asked.priority_jump is Some ==> asked.priority_jump->0 is Level
            && asked.priority_jump->0->Level_0 == client.priority->0,
        client.priority is None && client.latency_sensitivity is Some ==> (
        asked.priority_jump is Some <==> hints::positive_number(client.latency_sensitivity->0)),
        client.priority is None && asked.priority_jump is Some ==> client.latency_sensitivity is Some
            && asked.priority_jump->0 == PriorityJump::Sensitivity(client.latency_sensitivity->0),
        asked.strict_priority is Some <==> client.strict_priority is Some
            && client.strict_priority->0 > 0,
        asked.strict_priority is Some ==> asked.strict_priority == client.strict_priority,
        asked.token_ids is Some && asked.token_ids->0@ == token_ids@,
{
    lemma_selects_by(select, old(router).model(), reservation_id@, req, allowed, prompt);
    assert(asked@.priority_jump == select.priority_jump);
    assert(asked@.strict_priority == select.strict_priority);
    assert(asked@.token_ids == Some(select.token_ids@));
}

/// A worker that was selected goes on as it is, and nothing is forgotten. A
/// failed selection is refused with the message of the failure; the reservation
/// is to be released, its request leads nowhere any more, and every other
/// request leads where it led before.
pub proof fn law_failed_selection_is_cleaned_up(
    router: &mut EppRouter,
    req: RequestInfo,
    reservation_id: &str,
    answer: Result<SelectResponse, SelectorError>,
    message: String,
    r: Result<SelectResponse, FailedPick>,
    other: &str,
    before: Option<String>,
    after: Option<String>,
)
    requires
        call_ensures(EppRouter::settle, (router, &req, reservation_id, answer), r),
        answer is Err ==> call_ensures(SelectorError::message, (&answer->Err_0,), message),
        call_ensures(EppRouter::on_prefill_complete, (&*old(router), other), before),
        call_ensures(EppRouter::on_prefill_complete, (&*final(router), other), after),
    ensures
        answer matches Ok(response) ==> r == Ok::<SelectResponse, FailedPick>(response)
            && worker::alike_text(before, after),
        answer is Err ==> {
            &&& r is Err
            &&& r->Err_0.release@ == reservation_id@
            &&& r->Err_0.error is RoutingFailed
            &&& r->Err_0.error->RoutingFailed_0@ == message@
            &&& other@ == req.request_id@ ==> after is None
            &&& other@ != req.request_id@ ==> worker::alike_text(before, after)
        },
{
    if let Err(failed) = r {
        assert(failed.error@ is RoutingFailed);
    }
}

/// When a response is complete, what its request led to is to be released, once:
/// after it the request leads nowhere, and every other request leads where it
/// led before.
pub proof fn law_completion_releases_once(
    router: &mut EppRouter,
    request_id: &str,
    released: Option<String>,
    other: &str,
    before: Option<String>,
    after: Option<String>,
)
    requires
        call_ensures(EppRouter::on_request_complete, (router, request_id), released),
        call_ensures(EppRouter::on_prefill_complete, (&*old(router), other), before),
        call_ensures(EppRouter::on_prefill_complete, (&*final(router), other), after),
    ensures
        other@ == request_id@ ==> worker::alike_text(before, released) && after is None,
        other@ != request_id@ ==> worker::alike_text(before, after),
{
}

/// A router that was just made has nothing booked, and selects for the configured
/// model.
pub proof fn law_router_starts_with_its_model(
    cfg: EppConfig,
    router: &mut EppRouter,
    request_id: &str,
    before: Option<String>,
    req: RequestInfo,
    allowed: HashSet<u64>,
    prompt: TokenizedPrompt,
    reservation_id: String,
    select: SelectRequest,
)
    requires
        call_ensures(EppRouter::from_selector, (&cfg,), *old(router)),
        call_ensures(EppRouter::on_prefill_complete, (&*old(router), request_id), before),
        call_ensures(
            EppRouter::reserve_as,
            (router, &req, allowed, prompt, reservation_id),
            select,
        ),
    ensures
        before is None,
        select.model_name@ == cfg.model_name@,
{
    lemma_selects_by(select, old(router).model(), reservation_id@, req, allowed, prompt);
}

/// Whatever a router does, it goes on selecting for the model that it selected
/// for before.
pub proof fn law_router_keeps_its_model(
    router: &mut EppRouter,
    req: RequestInfo,
    allowed: HashSet<u64>,
    prompt: TokenizedPrompt,
    reservation_id: String,
    first: SelectRequest,
    tokenized: Result<TokenizedPrompt, String>,
    reserved: Result<SelectRequest, PickError>,
    release: &str,
    answer: Result<SelectResponse, SelectorError>,
    settled: Result<SelectResponse, FailedPick>,
    request_id: &str,
    completed: Option<String>,
    earlier: &mut EppRouter,
    select_earlier: SelectRequest,
    later: &mut EppRouter,
    select_later: SelectRequest,
)
    requires
        call_ensures(EppRouter::reserve_as, (router, &req, allowed, prompt, reservation_id), first)
            || call_ensures(EppRouter::reserve, (router, &req, allowed, tokenized), reserved)
            || call_ensures(EppRouter::settle, (router, &req, release, answer), settled)
            || call_ensures(EppRouter::on_request_complete, (router, request_id), completed),
        *old(earlier) == *old(router),
        *old(later) == *final(router),
        call_ensures(
            EppRouter::reserve_as,
            (earlier, &req, allowed, prompt, reservation_id),
            select_earlier,
        ),
        call_ensures(
            EppRouter::reserve_as,
            (later, &req, allowed, prompt, reservation_id),
            select_later,
        ),
    ensures
        select_later.model_name@ == select_earlier.model_name@,
{
    lemma_selects_by(
        select_earlier,
        old(earlier).model(),
        reservation_id@,
        req,
        allowed,
        prompt,
    );
    lemma_selects_by(
        select_later,
        old(later).model(),
        reservation_id@,
        req,
        allowed,
        prompt,
    );
}

} // verus!
