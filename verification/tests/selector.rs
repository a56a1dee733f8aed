use epp_router::hints::PriorityJump;
use epp_router::reconcile::{ReconcileAction, ReconcileRun};
use epp_router::selection::{
    copy_ids, OverlapSummary, SelectRequest, SelectResponse, SelectionError, SelectorError,
};
use epp_router::selector::{EppConfig, Selector};
use epp_router::worker::WorkerRegistration;
use std::collections::{BTreeSet, HashMap, HashSet};

fn config(peer_service: Option<&str>) -> EppConfig {
    EppConfig {
        model_name: "Qwen/Qwen3-0.6B".to_string(),
        block_size: 16,
        selector_threads: 3,
        peer_service: peer_service.map(str::to_string),
        peer_sync_port: 9091,
    }
}

fn selector() -> Selector {
    match Selector::new(&config(None), Ok(()), None, None) {
        Ok((selector, None)) => selector,
        other => panic!("{other:?}"),
    }
}

fn registration(worker_id: u64) -> WorkerRegistration {
    let mut kv = HashMap::new();
    kv.insert(0u32, "tcp://10.0.0.1:5557".to_string());
    kv.insert(1u32, "tcp://10.0.0.1:5558".to_string());
    WorkerRegistration {
        worker_id,
        model_name: "Qwen/Qwen3-0.6B".to_string(),
        endpoint: "http://10.0.0.1:8000".to_string(),
        block_size: 16,
        data_parallel_size: 2,
        kv_events_endpoints: kv,
        replay_endpoint: None,
        total_kv_blocks: Some(1000),
        max_num_batched_tokens: None,
        stable_routing_id: Some("vllm-0".to_string()),
    }
}

fn desired(ids: &[u64]) -> HashMap<u64, WorkerRegistration> {
    ids.iter().map(|id| (*id, registration(*id))).collect()
}

/// Runs to the end, all answers being `Ok`; gives the ids that were registered
/// and those that were deleted.
fn drive(selector: &mut Selector, mut run: ReconcileRun) -> (BTreeSet<u64>, BTreeSet<u64>) {
    let (mut upserted, mut deleted) = (BTreeSet::new(), BTreeSet::new());
    loop {
        match run.action() {
            ReconcileAction::Upsert(request) => {
                assert!(deleted.is_empty(), "an upsert came after a delete");
                assert!(upserted.insert(request.worker_id));
            }
            ReconcileAction::Delete(id) => assert!(deleted.insert(id)),
            ReconcileAction::Done => return (upserted, deleted),
        }
        assert_eq!(selector.record(&mut run, Ok(())), Ok(()));
    }
}

#[test]
fn registrations_are_compared_field_by_field() {
    let base = registration(1);
    assert!(base == base.clone());
    let mut others: Vec<WorkerRegistration> = Vec::new();
    for _ in 0..13 {
        others.push(base.clone());
    }
    others[0].worker_id = 2;
    others[1].model_name = "x".to_string();
    others[2].endpoint = "x".to_string();
    others[3].block_size = 32;
    others[4].data_parallel_size = 1;
    others[5].kv_events_endpoints.remove(&1);
    others[6].kv_events_endpoints.insert(2, "x".to_string());
    others[7].kv_events_endpoints.insert(1, "x".to_string());
    others[8].replay_endpoint = Some("x".to_string());
    others[9].total_kv_blocks = None;
    others[10].max_num_batched_tokens = Some(1);
    others[11].stable_routing_id = None;
    others[12].stable_routing_id = Some("vllm-1".to_string());
    for other in &others {
        assert!(base != *other);
        assert!(*other != base);
    }
}

#[test]
fn worker_request_carries_the_registration() {
    let request = Selector::worker_request(&registration(42));
    assert_eq!(request.worker_id, 42);
    assert_eq!(request.model_name, "Qwen/Qwen3-0.6B");
    assert_eq!(request.tenant_id, "default");
    assert_eq!(request.endpoint.as_deref(), Some("http://10.0.0.1:8000"));
    assert_eq!(request.block_size, Some(16));
    assert_eq!(request.data_parallel_size, Some(2));
    assert_eq!(request.kv_events_endpoints, registration(42).kv_events_endpoints);
    assert_eq!(request.replay_endpoint, None);
    assert_eq!(request.total_kv_blocks, Some(1000));
    assert_eq!(request.max_num_batched_tokens, None);
    assert_eq!(request.stable_routing_id.as_deref(), Some("vllm-0"));
}

#[test]
fn different_registrations_make_different_requests() {
    let mut changed = registration(1);
    changed.replay_endpoint = Some("tcp://10.0.0.1:5559".to_string());
    let request = Selector::worker_request(&changed);
    assert_eq!(request.replay_endpoint.as_deref(), Some("tcp://10.0.0.1:5559"));
    assert_ne!(
        format!("{:?}", Selector::worker_request(&registration(1)).replay_endpoint),
        format!("{:?}", request.replay_endpoint)
    );
}

#[test]
fn single_replica_starts_without_peers() {
    let plan = Selector::service_plan(&config(None));
    assert_eq!(plan.indexer_threads, 3);
    assert_eq!(plan.replica_sync, None);
    assert!(matches!(
        Selector::new(&config(None), Ok(()), Some("ns".to_string()), Some("10.0.0.9".to_string())),
        Ok((_, None))
    ));
}

#[test]
fn replicated_picker_watches_its_own_service() {
    let cfg = config(Some("epp"));
    assert_eq!(Selector::service_plan(&cfg).replica_sync, Some(9091));
    for (ip, expected) in [
        (Some(" 10.0.0.9\n"), Some("10.0.0.9")),
        (Some("10.0.0.9"), Some("10.0.0.9")),
        (Some(" \t"), None),
        (Some(""), None),
        (None, None),
    ] {
        let started =
            Selector::new(&cfg, Ok(()), Some("ns".to_string()), ip.map(str::to_string));
        match started {
            Ok((_, Some(watch))) => {
                assert_eq!(watch.namespace, "ns");
                assert_eq!(watch.service_name, "epp");
                assert_eq!(watch.port, 9091);
                assert_eq!(watch.self_ip.as_deref(), expected);
            }
            other => panic!("{other:?}"),
        }
    }
}

#[test]
fn replicated_picker_needs_its_namespace() {
    let error = Selector::new(&config(Some("epp")), Ok(()), None, None).unwrap_err();
    assert_eq!(error, SelectorError::NamespaceUnavailable);
    assert_eq!(
        error.message(),
        "DYN_EPP_PEER_SERVICE is set but POD_NAMESPACE is unavailable. Inject it via the \
         downward API (fieldRef metadata.namespace) so the EPP can watch its own Service's \
         EndpointSlices."
    );
}

#[test]
fn service_that_cannot_be_built_is_reported_first() {
    let error =
        Selector::new(&config(Some("epp")), Err("no port".to_string()), None, None).unwrap_err();
    assert_eq!(error.message(), "building embedded selection service: no port");
}

#[test]
fn reconcile_reaches_the_desired_catalog() {
    let mut selector = selector();
    let run = selector.reconcile(&desired(&[1, 2, 3]));
    assert_eq!(drive(&mut selector, run), (BTreeSet::from([1, 2, 3]), BTreeSet::new()));

    let mut next = desired(&[2, 3, 4]);
    if let Some(worker) = next.get_mut(&3) {
        worker.endpoint = "http://10.0.0.3:8000".to_string();
    }
    let run = selector.reconcile(&next);
    assert_eq!(drive(&mut selector, run), (BTreeSet::from([3, 4]), BTreeSet::from([1])));

    let run = selector.reconcile(&HashMap::new());
    assert_eq!(drive(&mut selector, run), (BTreeSet::new(), BTreeSet::from([2, 3, 4])));
}

#[test]
fn reconciling_again_does_nothing() {
    let mut selector = selector();
    let workers = desired(&[5, 6]);
    let run = selector.reconcile(&workers);
    drive(&mut selector, run);
    assert!(matches!(selector.reconcile(&workers).action(), ReconcileAction::Done));
}

#[test]
fn failed_upsert_is_reported_and_tried_again() {
    let mut selector = selector();
    let workers = desired(&[1, 2]);
    let mut run = selector.reconcile(&workers);
    assert_eq!(selector.record(&mut run, Ok(())), Ok(()));
    for refusal in [
        SelectionError::Other("full".to_string()),
        SelectionError::NotFound("full".to_string()),
    ] {
        let error = selector.record(&mut run, Err(refusal)).unwrap_err();
        assert_eq!(error.message(), "upsert_worker failed: full");
    }
    let left = match run.action() {
        ReconcileAction::Upsert(request) => request.worker_id,
        other => panic!("{other:?}"),
    };
    let again = selector.reconcile(&workers);
    assert_eq!(drive(&mut selector, again), (BTreeSet::from([left]), BTreeSet::new()));
}

#[test]
fn deleting_an_unknown_worker_is_a_success() {
    let mut selector = selector();
    let run = selector.reconcile(&desired(&[1]));
    drive(&mut selector, run);
    let mut run = selector.reconcile(&HashMap::new());
    assert!(matches!(run.action(), ReconcileAction::Delete(1)));
    let refusal = SelectionError::Other("busy".to_string());
    let error = selector.record(&mut run, Err(refusal)).unwrap_err();
    assert_eq!(error.message(), "delete_worker failed: busy");
    assert!(matches!(run.action(), ReconcileAction::Delete(1)));
    let unknown = SelectionError::NotFound("worker 1 not found".to_string());
    assert_eq!(selector.record(&mut run, Err(unknown)), Ok(()));
    assert!(matches!(run.action(), ReconcileAction::Done));
    assert_eq!(selector.record(&mut run, Ok(())), Ok(()));
    assert!(matches!(selector.reconcile(&HashMap::new()).action(), ReconcileAction::Done));
}

#[test]
fn selection_is_handed_on_under_the_same_tenant() {
    let allowed = HashSet::from([3u64, 9]);
    let request = Selector::select_and_reserve(&SelectRequest {
        model_name: "m".to_string(),
        selection_id: Some("sel-1".to_string()),
        reservation_id: Some("resv-1".to_string()),
        token_ids: vec![1, 2, 3],
        allowed_worker_ids: Some(allowed.clone()),
        priority_jump: Some(PriorityJump::Level(2)),
        strict_priority: Some(5),
    });
    assert_eq!(request.model_name, "m");
    assert_eq!(request.tenant_id, Selector::worker_request(&registration(1)).tenant_id);
    assert_eq!(request.selection_id.as_deref(), Some("sel-1"));
    assert_eq!(request.reservation_id.as_deref(), Some("resv-1"));
    assert_eq!(request.token_ids, Some(vec![1, 2, 3]));
    assert_eq!(request.expected_output_tokens, None);
    assert_eq!(request.session_id, None);
    assert_eq!(request.priority_jump, Some(PriorityJump::Level(2)));
    assert_eq!(request.strict_priority, Some(5));
    assert_eq!(request.pinned_worker, None);
    assert_eq!(request.allowed_worker_ids, Some(allowed));
}

#[test]
fn ids_are_copied() {
    for ids in [HashSet::new(), HashSet::from([0u64]), (0..100u64).collect()] {
        assert_eq!(copy_ids(&ids), ids);
    }
}

#[test]
fn selection_is_read_back() {
    let response = SelectResponse {
        selection_id: None,
        reservation_id: Some("resv-1".to_string()),
        worker_id: 7,
        dp_rank: 1,
        endpoint: "http://10.0.0.2:8000".to_string(),
        block_size: 16,
        overlap: OverlapSummary { longest_matched: 4, gpu: 3, cpu: 2, disk: 1 },
        effective_prefill_tokens: 11,
    };
    let read = Selector::selected(Ok(response.clone())).unwrap();
    assert_eq!(read.reservation_id, response.reservation_id);
    assert_eq!((read.worker_id, read.dp_rank, read.block_size), (7, 1, 16));
    assert_eq!(read.endpoint, response.endpoint);
    assert_eq!(read.overlap, response.overlap);
    assert_eq!(read.effective_prefill_tokens, 11);
    for refusal in [
        SelectionError::NotFound("no model".to_string()),
        SelectionError::Other("no model".to_string()),
    ] {
        let error = Selector::selected(Err(refusal)).unwrap_err();
        assert_eq!(error.message(), "select_and_reserve failed: no model");
    }
}

#[test]
fn overlap_defaults_to_none() {
    let none = OverlapSummary { longest_matched: 0, gpu: 0, cpu: 0, disk: 0 };
    assert_eq!(OverlapSummary::default(), none);
}

#[test]
fn unknown_bookings_are_released_already() {
    let unknown = || Err(SelectionError::NotFound("reservation r not found".to_string()));
    let broken = || Err(SelectionError::Other("down".to_string()));
    assert_eq!(Selector::free_reservation(Ok(())), Ok(()));
    assert_eq!(Selector::free_reservation(unknown()), Ok(()));
    assert_eq!(
        Selector::free_reservation(broken()).unwrap_err().message(),
        "free_reservation failed: down"
    );
    assert_eq!(Selector::prefill_complete(Ok(())), Ok(()));
    assert_eq!(Selector::prefill_complete(unknown()), Ok(()));
    assert_eq!(
        Selector::prefill_complete(broken()).unwrap_err().message(),
        "prefill_complete failed: down"
    );
}

#[test]
fn two_plans_hold_the_same_work() {
    let mut selector = selector();
    let run = selector.reconcile(&desired(&[1, 2, 3, 4]));
    drive(&mut selector, run);
    let mut next = desired(&[3, 4, 5, 6, 7]);
    if let Some(worker) = next.get_mut(&4) {
        worker.block_size = 32;
    }
    // Maps that were filled in another order are walked in another order.
    let mut again = HashMap::new();
    for id in [7u64, 6, 5, 4, 3] {
        if let Some(worker) = next.get(&id) {
            again.insert(id, worker.clone());
        }
    }
    for plan in [selector.reconcile(&next), selector.reconcile(&again)] {
        let upserts: BTreeSet<u64> = plan.upserts.iter().map(|u| u.0).collect();
        let deletes: BTreeSet<u64> = plan.deletes.iter().copied().collect();
        assert_eq!(upserts, BTreeSet::from([4, 5, 6, 7]));
        assert_eq!(deletes, BTreeSet::from([1, 2]));
        assert_eq!((plan.upserts.len(), plan.deletes.len()), (4, 2));
    }
}
