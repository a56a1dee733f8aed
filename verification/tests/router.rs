use epp_router::epp_router::{EppRouter, PickStart, TokenizedPrompt};
use epp_router::hints::{AgentHints, NvExt, PriorityJump};
use epp_router::picker::{PickError, RequestInfo};
use epp_router::readiness::{wait_for_selector_ready, ReadyWait};
use epp_router::selection::{OverlapSummary, SelectResponse, SelectorError};
use epp_router::selector::EppConfig;
use std::collections::HashSet;

fn router() -> EppRouter {
    EppRouter::from_selector(&EppConfig {
        model_name: "Qwen/Qwen3-0.6B".to_string(),
        block_size: 16,
        selector_threads: 4,
        peer_service: None,
        peer_sync_port: 9091,
    })
}

fn request(id: &str, body: &[u8]) -> RequestInfo {
    RequestInfo { request_id: id.to_string(), body: body.to_vec() }
}

fn prompt() -> TokenizedPrompt {
    TokenizedPrompt {
        token_ids: vec![5, 6, 7],
        priority_jump: PriorityJump::Level(0),
        strict_priority: 0,
    }
}

fn response() -> SelectResponse {
    SelectResponse {
        selection_id: Some("req".to_string()),
        reservation_id: Some("resv".to_string()),
        worker_id: 4242,
        dp_rank: 3,
        endpoint: "https://10.0.0.2:8000".to_string(),
        block_size: 16,
        overlap: OverlapSummary::default(),
        effective_prefill_tokens: 0,
    }
}

fn pairs(headers: &[(String, String)]) -> Vec<(&str, &str)> {
    headers.iter().map(|(name, value)| (name.as_str(), value.as_str())).collect()
}

#[test]
fn pick_waits_for_the_pods() {
    let ready = HashSet::from([1u64]);
    for body in [&b""[..], b"{}"] {
        match EppRouter::pick(&request("r", body), false, &ready) {
            PickStart::Refused(error) => assert_eq!(
                error,
                PickError::RoutingFailed("pod reflector cache not ready".to_string())
            ),
            other => panic!("{other:?}"),
        }
    }
}

#[test]
fn pick_needs_a_ready_worker() {
    for body in [&b""[..], b"{}", b"\xff"] {
        match EppRouter::pick(&request("r", body), true, &HashSet::new()) {
            PickStart::Refused(error) => assert_eq!(error, PickError::NoEndpoints),
            other => panic!("{other:?}"),
        }
    }
}

#[test]
fn request_without_a_body_goes_to_a_ready_worker() {
    let ready = HashSet::from([11u64, 12, 13]);
    let worker_id = match EppRouter::pick(&request("r", b""), true, &ready) {
        PickStart::RouteAny(worker_id) => worker_id,
        other => panic!("{other:?}"),
    };
    assert!(ready.contains(&worker_id));
    let result = EppRouter::route_any(11, Some("10.0.0.1:8000".to_string())).unwrap();
    assert_eq!(result.endpoint, "10.0.0.1:8000");
    assert_eq!(
        pairs(&result.headers),
        vec![("x-dynamo-worker-instance-id", "11"), ("x-dynamo-routing-mode", "aggregated")]
    );
    assert_eq!(result.token_ids, None);
    assert_eq!(EppRouter::route_any(11, None).unwrap_err(), PickError::NoEndpoints);
}

#[test]
fn request_with_a_body_is_tokenized() {
    let ready = HashSet::from([1u64]);
    match EppRouter::pick(&request("r", "{\"m\": \"\u{e9}\"}".as_bytes()), true, &ready) {
        PickStart::Tokenize(body) => assert_eq!(body, "{\"m\": \"\u{e9}\"}"),
        other => panic!("{other:?}"),
    }
}

#[test]
fn body_has_to_be_utf8() {
    let ready = HashSet::from([1u64]);
    let body = [b'{', 0xc3, 0x28];
    let reason = std::str::from_utf8(&body).unwrap_err();
    match EppRouter::pick(&request("r", &body), true, &ready) {
        PickStart::Refused(error) => assert_eq!(
            error,
            PickError::TokenizationFailed(format!("request body not UTF-8: {reason}"))
        ),
        other => panic!("{other:?}"),
    }
    match EppRouter::start_with_body(Err("why".to_string())) {
        PickStart::Refused(error) => assert_eq!(
            error,
            PickError::TokenizationFailed("request body not UTF-8: why".to_string())
        ),
        other => panic!("{other:?}"),
    }
}

#[test]
fn missing_template_makes_an_empty_prompt() {
    assert_eq!(EppRouter::formatted_prompt(None), "");
    assert_eq!(EppRouter::formatted_prompt(Some("<s>hi".to_string())), "<s>hi");
}

#[test]
fn tokenize_puts_tokens_and_priorities_together() {
    let nvext = Some(NvExt {
        agent_hints: Some(AgentHints {
            priority: Some(3),
            latency_sensitivity: None,
            strict_priority: Some(2),
        }),
    });
    let tokenized = EppRouter::tokenize(&nvext, Ok(vec![1, 2])).unwrap();
    assert_eq!(tokenized.token_ids, vec![1, 2]);
    assert_eq!(tokenized.priority_jump, PriorityJump::Level(3));
    assert_eq!(tokenized.strict_priority, 2);
    assert_eq!(EppRouter::tokenize(&nvext, Err("bad".to_string())).unwrap_err(), "bad");
}

#[test]
fn request_that_cannot_be_tokenized_is_not_booked() {
    let mut router = router();
    let req = request("req", b"{}");
    let refused = router.reserve(&req, HashSet::from([1]), Err("no template".to_string()));
    assert_eq!(
        refused.unwrap_err(),
        PickError::TokenizationFailed("no template".to_string())
    );
    assert_eq!(router.on_prefill_complete("req"), None);
    assert_eq!(router.on_request_complete("req"), None);
}

#[test]
fn reserve_books_under_a_fresh_uuid() {
    let mut router = router();
    let req = request("req", b"{}");
    let allowed = HashSet::from([1u64, 2]);
    let select = router.reserve(&req, allowed.clone(), Ok(prompt())).unwrap();
    assert_eq!(select.model_name, "Qwen/Qwen3-0.6B");
    assert_eq!(select.selection_id.as_deref(), Some("req"));
    assert_eq!(select.token_ids, vec![5, 6, 7]);
    assert_eq!(select.allowed_worker_ids, Some(allowed.clone()));
    assert_eq!(select.priority_jump, None);
    assert_eq!(select.strict_priority, None);
    let id = select.reservation_id.unwrap();
    let uuid = uuid::Uuid::parse_str(&id).unwrap();
    assert_eq!(uuid.get_version_num(), 4);
    assert_eq!(uuid.to_string(), id);
    assert_eq!(id.len(), 36);
    assert!("89ab".contains(&id[19..20]));
    assert_eq!(router.on_prefill_complete("req"), Some(id.clone()));

    // The same request id again gets a reservation of its own.
    let again = router.reserve(&req, allowed, Ok(prompt())).unwrap().reservation_id.unwrap();
    assert_ne!(again, id);
    assert_eq!(router.on_request_complete("req"), Some(again));
}

#[test]
fn reserve_asks_for_positive_priorities_only() {
    let mut router = router();
    let req = request("req", b"{}");
    let urgent = TokenizedPrompt {
        token_ids: vec![],
        priority_jump: PriorityJump::Sensitivity(0.25f64.to_bits()),
        strict_priority: 9,
    };
    let select = router.reserve_as(&req, HashSet::new(), urgent, "resv".to_string());
    assert_eq!(select.priority_jump, Some(PriorityJump::Sensitivity(0.25f64.to_bits())));
    assert_eq!(select.strict_priority, Some(9));
    assert_eq!(select.reservation_id.as_deref(), Some("resv"));
}

#[test]
fn booking_lasts_until_the_response_is_complete() {
    let mut router = router();
    router.reserve_as(&request("a", b"{}"), HashSet::new(), prompt(), "ra".to_string());
    router.reserve_as(&request("b", b"{}"), HashSet::new(), prompt(), "rb".to_string());
    assert_eq!(router.on_prefill_complete("a").as_deref(), Some("ra"));
    assert_eq!(router.on_prefill_complete("a").as_deref(), Some("ra"));
    assert_eq!(router.on_request_complete("a").as_deref(), Some("ra"));
    assert_eq!(router.on_request_complete("a"), None);
    assert_eq!(router.on_prefill_complete("a"), None);
    assert_eq!(router.on_request_complete("b").as_deref(), Some("rb"));
    assert_eq!(router.on_request_complete("never booked"), None);
}

#[test]
fn failed_selection_forgets_the_booking() {
    let mut router = router();
    let req = request("a", b"{}");
    router.reserve_as(&request("b", b"{}"), HashSet::new(), prompt(), "rb".to_string());
    router.reserve_as(&req, HashSet::new(), prompt(), "ra".to_string());
    let failed = router
        .settle(&req, "ra", Err(SelectorError::SelectFailed("no worker".to_string())))
        .unwrap_err();
    assert_eq!(failed.release, "ra");
    assert_eq!(
        failed.error,
        PickError::RoutingFailed("select_and_reserve failed: no worker".to_string())
    );
    assert_eq!(router.on_request_complete("a"), None);
    assert_eq!(router.on_prefill_complete("b").as_deref(), Some("rb"));
}

#[test]
fn selected_request_goes_to_its_worker() {
    let mut router = router();
    let req = request("a", b"{}");
    router.reserve_as(&req, HashSet::new(), prompt(), "ra".to_string());
    let selected = router.settle(&req, "ra", Ok(response())).unwrap();
    assert_eq!(router.on_prefill_complete("a").as_deref(), Some("ra"));
    let result = EppRouter::route(&selected, Some("10.9.9.9:8000".to_string()));
    assert_eq!(result.endpoint, "10.9.9.9:8000");
    assert_eq!(
        pairs(&result.headers),
        vec![
            ("x-dynamo-worker-instance-id", "4242"),
            ("x-dynamo-dp-rank", "3"),
            ("x-dynamo-routing-mode", "aggregated"),
        ]
    );
    assert_eq!(result.token_ids, None);
    // Without a known address the one that was reported serves, without scheme.
    assert_eq!(EppRouter::route(&selected, None).endpoint, "10.0.0.2:8000");
}

#[test]
fn wait_ends_with_readiness_or_with_the_bound() {
    assert_eq!(wait_for_selector_ready(true, 0), ReadyWait::Ready);
    assert_eq!(wait_for_selector_ready(true, 30_000), ReadyWait::Ready);
    assert_eq!(wait_for_selector_ready(false, 0), ReadyWait::Sleep(500));
    assert_eq!(wait_for_selector_ready(false, 29_999), ReadyWait::Sleep(500));
    assert_eq!(wait_for_selector_ready(false, 30_000), ReadyWait::TimedOut);
    assert_eq!(wait_for_selector_ready(false, u64::MAX), ReadyWait::TimedOut);
}

#[test]
fn wait_sleeps_at_most_sixty_times() {
    let mut elapsed: u64 = 0;
    let mut sleeps = 0;
    while let ReadyWait::Sleep(ms) = wait_for_selector_ready(false, elapsed) {
        elapsed += ms;
        sleeps += 1;
    }
    assert_eq!(sleeps, 60);
}
