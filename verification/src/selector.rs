//! The selector: what it asks of the selection service, and how it reads the
//! service's answers.
use crate::reconcile;
use crate::reconcile::ReconcileRun;
use crate::selection::{
    copy_ids, SelectAndReserveRequest, SelectAndReserveView, SelectRequest, SelectRequestView,
    SelectResponse, SelectionError, SelectionErrorView, SelectorError, SelectorErrorView,
    WorkerRequest, WorkerRequestView,
};
use crate::text;
use crate::worker;
use crate::worker::{copy_text, RegistrationView, WorkerRegistration};
use std::collections::HashMap;
use vstd::prelude::*;
use vstd::std_specs::hash::*;

verus! {

broadcast use group_hash_axioms;

/// The tenant under which workers are registered and selected. Both sides have
/// to name the same one.
pub const DEFAULT_TENANT: &'static str = "default";

/// The settings of a router-only picker.
#[derive(Debug)]
pub struct EppConfig {
    pub model_name: String,
    pub block_size: u32,
    /// How many threads index key-value cache events.
    pub selector_threads: usize,
    /// The picker's own service; set where several replicas run.
    pub peer_service: Option<String>,
    /// The port over which replicas exchange their load.
    pub peer_sync_port: u16,
}

/// How the selection service is to be built.
#[derive(Debug, Clone, Copy, PartialEq, Eq)]
pub struct ServicePlan {
    pub indexer_threads: usize,
    /// The port to exchange load on, with no peers to begin with.
    pub replica_sync: Option<u16>,
}

/// A watch over a picker's own service, which keeps the set of its peers.
#[derive(Debug)]
pub struct PeerWatch {
    pub namespace: String,
    pub service_name: String,
    pub port: u16,
    /// The replica's own address, which is no peer. Without it the replica
    /// cannot tell itself from the others.
    pub self_ip: Option<String>,
}

/// What a [`PeerWatch`] says.
#[verifier::ext_equal]
pub struct PeerWatchView {
    pub namespace: Seq<char>,
    pub service_name: Seq<char>,
    pub port: u16,
    pub self_ip: Option<Seq<char>>,
}

impl View for PeerWatch {
    type V = PeerWatchView;

    open spec fn view(&self) -> PeerWatchView {
        PeerWatchView {
            namespace: self.namespace@,
            service_name: self.service_name@,
            port: self.port,
            self_ip: worker::text_of(self.self_ip),
        }
    }
}

/// The address in the environment without the white space around it, where
/// anything is left of it.
pub open spec fn self_ip_of(pod_ip: Option<Seq<char>>) -> Option<Seq<char>> {
    match pod_ip {
        Some(ip) => if text::trimmed(ip).len() > 0 {
            Some(text::trimmed(ip))
        } else {
            None
        },
        None => None,
    }
}

/// What comes of starting a selector: the service has to be there, and a
/// replicated picker has to know its namespace. A watch runs only where the
/// picker is replicated.
pub open spec fn startup(
    cfg: EppConfig,
    built: Result<(), Seq<char>>,
    pod_namespace: Option<Seq<char>>,
    pod_ip: Option<Seq<char>>,
) -> Result<Option<PeerWatchView>, SelectorErrorView> {
    match built {
        Err(error) => Err(SelectorErrorView::BuildFailed(error)),
        Ok(_) => match (cfg.peer_service, pod_namespace) {
            (None, _) => Ok(None),
            (Some(_), None) => Err(SelectorErrorView::NamespaceUnavailable),
            (Some(service), Some(namespace)) => Ok(
                Some(
                    PeerWatchView {
                        namespace,
                        service_name: service@,
                        port: cfg.peer_sync_port,
                        self_ip: self_ip_of(pod_ip),
                    },
                ),
            ),
        },
    }
}

/// The text inside the error of a result without a value.
pub open spec fn error_text(r: Result<(), String>) -> Result<(), Seq<char>> {
    match r {
        Ok(_) => Ok(()),
        Err(error) => Err(error@),
    }
}

/// The words of a service's refusal, where it refused.
pub open spec fn outcome_of(r: Result<(), SelectionError>) -> Result<(), SelectionErrorView> {
    match r {
        Ok(_) => Ok(()),
        Err(error) => Err(error@),
    }
}

/// A result of the selector, with its error as it reads.
pub open spec fn verdict_of(r: Result<(), SelectorError>) -> Result<(), SelectorErrorView> {
    match r {
        Ok(_) => Ok(()),
        Err(error) => Err(error@),
    }
}

/// Workers by id, as their registrations read.
pub open spec fn registrations(m: Map<u64, WorkerRegistration>) -> Map<u64, RegistrationView> {
    m.map_values(|r: WorkerRegistration| r@)
}

/// A registration as the service's catalog takes it, under the one tenant.
pub open spec fn worker_request_of(reg: RegistrationView) -> WorkerRequestView {
    WorkerRequestView {
        worker_id: reg.worker_id,
        model_name: reg.model_name,
        tenant_id: DEFAULT_TENANT@,
        endpoint: Some(reg.endpoint),
        block_size: Some(reg.block_size),
        data_parallel_size: Some(reg.data_parallel_size),
        kv_events_endpoints: reg.kv_events_endpoints,
        replay_endpoint: reg.replay_endpoint,
        total_kv_blocks: reg.total_kv_blocks,
        max_num_batched_tokens: reg.max_num_batched_tokens,
        stable_routing_id: reg.stable_routing_id,
    }
}

/// A selection as the service takes it, under the one tenant. It pins no
/// worker, belongs to no session and foretells no output length.
pub open spec fn reserve_request_of(req: SelectRequestView) -> SelectAndReserveView {
    SelectAndReserveView {
        model_name: req.model_name,
        tenant_id: DEFAULT_TENANT@,
        selection_id: req.selection_id,
        reservation_id: req.reservation_id,
        token_ids: Some(req.token_ids),
        expected_output_tokens: None,
        session_id: None,
        priority_jump: req.priority_jump,
        strict_priority: req.strict_priority,
        pinned_worker: None,
        allowed_worker_ids: req.allowed_worker_ids,
    }
}

/// A worker can be selected under the tenant under which it was registered.
pub proof fn law_one_tenant(reg: RegistrationView, req: SelectRequestView)
    ensures
        worker_request_of(reg).tenant_id == reserve_request_of(req).tenant_id,
        worker_request_of(reg).tenant_id == "default"@,
{
}

/// Two registrations that differ are registered differently, so the only
/// registrations worth skipping are those that have not changed.
pub proof fn law_request_tells_registrations_apart(a: RegistrationView, b: RegistrationView)
    ensures
        worker_request_of(a) == worker_request_of(b) <==> a == b,
{
    if worker_request_of(a) == worker_request_of(b) {
        assert(a.endpoint == worker_request_of(a).endpoint->0);
        assert(b.endpoint == worker_request_of(b).endpoint->0);
        assert(a.block_size == worker_request_of(a).block_size->0);
        assert(b.block_size == worker_request_of(b).block_size->0);
        assert(a.data_parallel_size == worker_request_of(a).data_parallel_size->0);
        assert(b.data_parallel_size == worker_request_of(b).data_parallel_size->0);
        assert(a =~= b);
    }
}

/// The selector's own state: what it last registered with the service.
#[derive(Debug)]
pub struct Selector {
    current: HashMap<u64, WorkerRegistration>,
}

impl Selector {
    /// The workers that the selector believes to be registered.
    pub closed spec fn catalog(&self) -> Map<u64, RegistrationView> {
        registrations(self.current@)
    }

    /// How the service is to be built: with load exchange where the picker is
    /// replicated, and without it where it is not.
    pub fn service_plan(cfg: &EppConfig) -> (r: ServicePlan)
        ensures
            r.indexer_threads == cfg.selector_threads,
            r.replica_sync == (if cfg.peer_service is Some {
                Some(cfg.peer_sync_port)
            } else {
                None
            }),
    {
        ServicePlan {
            indexer_threads: cfg.selector_threads,
            replica_sync: match &cfg.peer_service {
                Some(_) => Some(cfg.peer_sync_port),
                None => None,
            },
        }
    }

    /// A selector with nothing registered, and the watch to start beside it.
    /// `built` says whether the service could be built; the other two are what
    /// the environment holds.
    pub fn new(
        cfg: &EppConfig,
        built: Result<(), String>,
        pod_namespace: Option<String>,
        pod_ip: Option<String>,
    ) -> (r: Result<(Selector, Option<PeerWatch>), SelectorError>)
        ensures
            match startup(*cfg, error_text(built), worker::text_of(pod_namespace), worker::text_of(pod_ip)) {
                Ok(None) => r matches Ok((selector, watch)) && selector.catalog() == Map::<
                    u64,
                    RegistrationView,
                >::empty() && watch is None,
                Ok(Some(expected)) => r matches Ok((selector, watch)) && selector.catalog() == Map::<
                    u64,
                    RegistrationView,
                >::empty() && watch is Some && watch->0@ == expected,
                Err(expected) => r matches Err(error) && error@ == expected,
            },
    {
        match built {
            Err(error) => Err(SelectorError::BuildFailed(error)),
            Ok(_) => {
                let selector = Selector { current: HashMap::new() };
                assert(selector.catalog() =~= Map::<u64, RegistrationView>::empty());
                match &cfg.peer_service {
                    None => Ok((selector, None)),
                    Some(service) => match pod_namespace {
                        None => Err(SelectorError::NamespaceUnavailable),
                        Some(namespace) => Ok(
                            (
                                selector,
                                Some(
                                    PeerWatch {
                                        namespace,
                                        service_name: service.clone(),
                                        port: cfg.peer_sync_port,
                                        self_ip: Self::self_ip(&pod_ip),
                                    },
                                ),
                            ),
                        ),
                    },
                }
            },
        }
    }

    fn self_ip(pod_ip: &Option<String>) -> (r: Option<String>)
        ensures
            worker::text_of(r) == self_ip_of(worker::text_of(*pod_ip)),
    {
        match pod_ip {
            Some(ip) => {
                let ip = text::trim(ip.as_str());
                if ip.is_empty() {
                    None
                } else {
                    Some(ip.to_owned())
                }
            },
            None => None,
        }
    }

    /// Writes a registration as the service's catalog takes it.
    pub fn worker_request(reg: &WorkerRegistration) -> (r: WorkerRequest)
        ensures
            r@ == worker_request_of(reg@),
    {
        WorkerRequest {
            worker_id: reg.worker_id,
            model_name: reg.model_name.clone(),
            tenant_id: DEFAULT_TENANT.to_owned(),
            endpoint: Some(reg.endpoint.clone()),
            block_size: Some(reg.block_size),
            data_parallel_size: Some(reg.data_parallel_size),
            kv_events_endpoints: reg.kv_events_endpoints.clone(),
            replay_endpoint: copy_text(&reg.replay_endpoint),
            total_kv_blocks: reg.total_kv_blocks,
            max_num_batched_tokens: reg.max_num_batched_tokens,
            stable_routing_id: copy_text(&reg.stable_routing_id),
        }
    }

    /// Writes a selection as the service takes it.
    pub fn select_and_reserve(req: &SelectRequest) -> (r: SelectAndReserveRequest)
        ensures
            r@ == reserve_request_of(req@),
    {
        let token_ids = req.token_ids.clone();
        assert(token_ids@ =~= req.token_ids@);
        SelectAndReserveRequest {
            model_name: req.model_name.clone(),
            tenant_id: DEFAULT_TENANT.to_owned(),
            selection_id: copy_text(&req.selection_id),
            reservation_id: copy_text(&req.reservation_id),
            token_ids: Some(token_ids),
            expected_output_tokens: None,
            session_id: None,
            priority_jump: req.priority_jump,
            strict_priority: req.strict_priority,
            pinned_worker: None,
            allowed_worker_ids: match &req.allowed_worker_ids {
                Some(ids) => Some(copy_ids(ids)),
                None => None,
            },
        }
    }

    /// Reads the service's answer to a selection.
    pub fn selected(answer: Result<SelectResponse, SelectionError>) -> (r: Result<
        SelectResponse,
        SelectorError,
    >)
        ensures
            match answer {
                Ok(response) => r == Ok::<SelectResponse, SelectorError>(response),
                Err(error) => r matches Err(e) && e@ == SelectorErrorView::SelectFailed(
                    error@.text(),
                ),
            },
    {
        match answer {
            Ok(response) => Ok(response),
            Err(error) => Err(SelectorError::SelectFailed(error.into_text())),
        }
    }

    /// Reads the service's answer to a release. A booking that the service does
    /// not know is released already.
    pub fn free_reservation(answer: Result<(), SelectionError>) -> (r: Result<(), SelectorError>)
        ensures
            match outcome_of(answer) {
                Ok(_) | Err(SelectionErrorView::NotFound(_)) => r is Ok,
                Err(SelectionErrorView::Other(text)) => r matches Err(e) && e@
                    == SelectorErrorView::FreeFailed(text),
            },
    {
        match answer {
            Ok(_) | Err(SelectionError::NotFound(_)) => Ok(()),
            Err(SelectionError::Other(text)) => Err(SelectorError::FreeFailed(text)),
        }
    }

    /// Reads the service's answer to the end of a prefill. A booking that the
    /// service does not know has no prefill load left.
    pub fn prefill_complete(answer: Result<(), SelectionError>) -> (r: Result<(), SelectorError>)
        ensures
            match outcome_of(answer) {
                Ok(_) | Err(SelectionErrorView::NotFound(_)) => r is Ok,
                Err(SelectionErrorView::Other(text)) => r matches Err(e) && e@
                    == SelectorErrorView::PrefillFailed(text),
            },
    {
        match answer {
            Ok(_) | Err(SelectionError::NotFound(_)) => Ok(()),
            Err(SelectionError::Other(text)) => Err(SelectorError::PrefillFailed(text)),
        }
    }

    /// Plans how to drive the catalog toward `desired`: to register the workers
    /// that are not registered as desired, and to delete those that are not
    /// desired. In which order is left open.
    pub fn reconcile(&self, desired: &HashMap<u64, WorkerRegistration>) -> (r: ReconcileRun)
        ensures
            reconcile::planned(r@, self.catalog(), registrations(desired@)),
    {
        let ghost catalog = self.catalog();
        let ghost wanted = registrations(desired@);
        let upserts = self.outdated_workers(desired);
        let deletes = self.stale_workers(desired);
        let run = ReconcileRun { upserts, deletes };
        assert forall|i: int| 0 <= i < run@.upserts.len() implies reconcile::outdated(
            catalog,
            wanted,
            (#[trigger] run@.upserts[i]).0,
        ) && run@.upserts[i].1 == wanted[run@.upserts[i].0] by {
            assert(run@.upserts[i].0 == upserts@[i].0);
        }
        assert forall|id: u64| #[trigger]
            reconcile::outdated(catalog, wanted, id) implies reconcile::upserts_worker(
            run@,
            id,
        ) by {
            assert(lists(upserts@, id));
            let i = choose|i: int| 0 <= i < upserts@.len() && (#[trigger] upserts@[i]).0 == id;
            assert(run@.upserts[i].0 == id);
        }
        assert forall|i: int, j: int| 0 <= i < j < run@.upserts.len() implies (
        #[trigger] run@.upserts[i]).0 != (#[trigger] run@.upserts[j]).0 by {
            assert(upserts@[i].0 != upserts@[j].0);
        }
        run
    }

    fn outdated_workers(&self, desired: &HashMap<u64, WorkerRegistration>) -> (r: Vec<
        (u64, WorkerRegistration),
    >)
        ensures
            forall|i: int|
                0 <= i < r@.len() ==> reconcile::outdated(
                    self.catalog(),
                    registrations(desired@),
                    (#[trigger] r@[i]).0,
                ) && r@[i].1@ == registrations(desired@)[r@[i].0],
            forall|id: u64|
                #[trigger] reconcile::outdated(self.catalog(), registrations(desired@), id)
                    ==> lists(r@, id),
            forall|i: int, j: int|
                0 <= i < j < r@.len() ==> (#[trigger] r@[i]).0 != (#[trigger] r@[j]).0,
    {
        let ghost catalog = self.catalog();
        let ghost wanted = registrations(desired@);
        let ids = worker_ids(desired);
        let mut found: Vec<(u64, WorkerRegistration)> = Vec::new();
        let mut n: usize = 0;
        while n < ids.len()
            invariant
                n <= ids.len(),
                catalog == self.catalog(),
                wanted == registrations(desired@),
                ids@.no_duplicates(),
                forall|id: u64| #[trigger] desired@.contains_key(id) <==> ids@.contains(id),
                forall|i: int|
                    0 <= i < found@.len() ==> reconcile::outdated(
                        catalog,
                        wanted,
                        (#[trigger] found@[i]).0,
                    ) && found@[i].1@ == wanted[found@[i].0],
                forall|i: int|
                    0 <= i < found@.len() ==> ids@.take(n as int).contains(
                        (#[trigger] found@[i]).0,
                    ),
                forall|k: int|
                    0 <= k < n && reconcile::outdated(catalog, wanted, #[trigger] ids@[k]) ==> lists(
                        found@,
                        ids@[k],
                    ),
                forall|i: int, j: int|
                    0 <= i < j < found@.len() ==> (#[trigger] found@[i]).0 != (
                    #[trigger] found@[j]).0,
            decreases ids.len() - n,
        {
            let id: u64 = ids[n];
            let ghost before = found@;
            assert(ids@.contains(ids@[n as int]));
            assert(!ids@.take(n as int).contains(id));
            assert(ids@.take(n + 1) =~= ids@.take(n as int).push(id));
            if let Some(reg) = desired.get(&id) {
                let registered = match self.current.get(&id) {
                    Some(current) => *current == *reg,
                    None => false,
                };
                assert(registered == !reconcile::outdated(catalog, wanted, id));
                if !registered {
                    found.push((id, reg.clone()));
                    assert(found@[before.len() as int].0 == id);
                }
            }
            assert forall|i: int| 0 <= i < found@.len() implies ids@.take(n + 1).contains(
                (#[trigger] found@[i]).0,
            ) by {
                if i < before.len() {
                    let k = choose|k: int|
                        0 <= k < n && ids@.take(n as int)[k] == before[i].0;
                    assert(ids@.take(n + 1)[k] == found@[i].0);
                } else {
                    assert(ids@.take(n + 1)[n as int] == found@[i].0);
                }
            }
            assert forall|k: int|
                0 <= k < n + 1 && reconcile::outdated(
                    catalog,
                    wanted,
                    #[trigger] ids@[k],
                ) implies lists(found@, ids@[k]) by {
                if k < n {
                    assert(lists(before, ids@[k]));
                    let i = choose|i: int|
                        0 <= i < before.len() && (#[trigger] before[i]).0 == ids@[k];
                    assert(found@[i].0 == ids@[k]);
                }
            }
            n = n + 1;
        }
        assert forall|id: u64| #[trigger]
            reconcile::outdated(catalog, wanted, id) implies lists(found@, id) by {
            assert(desired@.contains_key(id));
            let k = choose|k: int| 0 <= k < ids@.len() && ids@[k] == id;
            assert(lists(found@, ids@[k]));
        }
        found
    }

    fn stale_workers(&self, desired: &HashMap<u64, WorkerRegistration>) -> (r: Vec<u64>)
        ensures
            forall|i: int|
                0 <= i < r@.len() ==> reconcile::stale(
                    self.catalog(),
                    registrations(desired@),
                    #[trigger] r@[i],
                ),
            forall|id: u64|
                #[trigger] reconcile::stale(self.catalog(), registrations(desired@), id)
                    ==> r@.contains(id),
            r@.no_duplicates(),
    {
        let ghost catalog = self.catalog();
        let ghost wanted = registrations(desired@);
        let ids = worker_ids(&self.current);
        let mut found: Vec<u64> = Vec::new();
        let mut n: usize = 0;
        while n < ids.len()
            invariant
                n <= ids.len(),
                catalog == registrations(self.current@),
                wanted == registrations(desired@),
                ids@.no_duplicates(),
                forall|id: u64| #[trigger] self.current@.contains_key(id) <==> ids@.contains(id),
                forall|i: int|
                    0 <= i < found@.len() ==> reconcile::stale(
                        catalog,
                        wanted,
                        #[trigger] found@[i],
                    ),
                forall|i: int|
                    0 <= i < found@.len() ==> ids@.take(n as int).contains(#[trigger] found@[i]),
                forall|k: int|
                    0 <= k < n && reconcile::stale(catalog, wanted, #[trigger] ids@[k])
                        ==> found@.contains(ids@[k]),
                found@.no_duplicates(),
            decreases ids.len() - n,
        {
            let id: u64 = ids[n];
            let ghost before = found@;
            assert(ids@.contains(ids@[n as int]));
            assert(!ids@.take(n as int).contains(id));
            assert(ids@.take(n + 1) =~= ids@.take(n as int).push(id));
            if !desired.contains_key(&id) {
                found.push(id);
                assert(found@[before.len() as int] == id);
            }
            assert forall|i: int| 0 <= i < found@.len() implies ids@.take(n + 1).contains(
                #[trigger] found@[i],
            ) by {
                if i < before.len() {
                    let k = choose|k: int| 0 <= k < n && ids@.take(n as int)[k] == before[i];
                    assert(ids@.take(n + 1)[k] == found@[i]);
                } else {
                    assert(ids@.take(n + 1)[n as int] == found@[i]);
                }
            }
            assert forall|k: int|
                0 <= k < n + 1 && reconcile::stale(
                    catalog,
                    wanted,
                    #[trigger] ids@[k],
                ) implies found@.contains(ids@[k]) by {
                if k < n {
                    let i = choose|i: int| 0 <= i < before.len() && before[i] == ids@[k];
                    assert(found@[i] == ids@[k]);
                }
            }
            n = n + 1;
        }
        assert forall|id: u64| #[trigger]
            reconcile::stale(catalog, wanted, id) implies found@.contains(id) by {
            assert(self.current@.contains_key(id));
            let k = choose|k: int| 0 <= k < ids@.len() && ids@[k] == id;
            assert(found@.contains(ids@[k]));
        }
        found
    }

    /// Takes in the service's answer to the run's next step. A success is
    /// remembered; a failure is reported, and changes nothing.
    pub fn record(&mut self, run: &mut ReconcileRun, answer: Result<(), SelectionError>) -> (r:
        Result<(), SelectorError>)
        ensures
            final(run)@ == reconcile::run_after(old(run)@, outcome_of(answer)),
            final(self).catalog() == reconcile::catalog_after(
                old(run)@,
                old(self).catalog(),
                outcome_of(answer),
            ),
            verdict_of(r) == reconcile::verdict(old(run)@, outcome_of(answer)),
    {
        let ghost before = run@;
        let ghost known = self.current@;
        if run.upserts.len() > 0 {
            match answer {
                Err(error) => Err(SelectorError::UpsertFailed(error.into_text())),
                Ok(_) => {
                    if let Some((id, reg)) = run.upserts.pop() {
                        self.current.insert(id, reg);
                    }
                    assert(run@.upserts =~= before.upserts.drop_last());
                    assert(registrations(self.current@) =~= registrations(known).insert(
                        before.upserts.last().0,
                        before.upserts.last().1,
                    ));
                    Ok(())
                },
            }
        } else if run.deletes.len() > 0 {
            match answer {
                Err(SelectionError::Other(text)) => Err(SelectorError::DeleteFailed(text)),
                _ => {
                    if let Some(id) = run.deletes.pop() {
                        self.current.remove(&id);
                    }
                    assert(registrations(self.current@) =~= registrations(known).remove(
                        before.deletes.last(),
                    ));
                    Ok(())
                },
            }
        } else {
            Ok(())
        }
    }
}

/// Some entry is of this worker.
spec fn lists(workers: Seq<(u64, WorkerRegistration)>, id: u64) -> bool {
    exists|i: int| 0 <= i < workers.len() && (#[trigger] workers[i]).0 == id
}

fn worker_ids(workers: &HashMap<u64, WorkerRegistration>) -> (r: Vec<u64>)
    ensures
        r@.no_duplicates(),
        forall|id: u64| #[trigger] workers@.contains_key(id) <==> r@.contains(id),
{
    let mut ids: Vec<u64> = Vec::new();
    for id in all: workers.keys()
        invariant
            ids@ == all.seq().unref().take(all.index() as int),
            all.seq().unref().no_duplicates(),
            all.seq().unref().to_set() == workers@.dom(),
            forall|i: int| 0 <= i < all.index() ==> ids@.contains(#[trigger] all.seq().unref()[i]),
            forall|i: int| 0 <= i < ids@.len() ==> workers@.contains_key(#[trigger] ids@[i]),
            forall|id: u64| #[trigger]
                workers@.contains_key(id) ==> all.seq().unref().contains(id),
    {
        let ghost order = all.seq().unref();
        let ghost n = all.index() as int;
        assert(order[n] == *id);
        assert(workers@.contains_key(*id));
        ids.push(*id);
        assert(ids@ =~= order.take(n + 1));
        assert forall|i: int| 0 <= i < n + 1 implies ids@.contains(#[trigger] order[i]) by {
            assert(ids@[i] == order[i]);
        }
    }
    ids
}

/// A request to register a worker holds each field of the registration, under
/// the service's default tenant.
pub open spec fn carries(request: WorkerRequest, reg: WorkerRegistration) -> bool {
    &&& request.worker_id == reg.worker_id
    &&& request.model_name@ == reg.model_name@
    &&& request.tenant_id@ == "default"@
    &&& request.endpoint is Some && request.endpoint->0@ == reg.endpoint@
    &&& request.block_size == Some(reg.block_size)
    &&& request.data_parallel_size == Some(reg.data_parallel_size)
    &&& worker::alike_texts(request.kv_events_endpoints@, reg.kv_events_endpoints@)
    &&& worker::alike_text(request.replay_endpoint, reg.replay_endpoint)
    &&& request.total_kv_blocks == reg.total_kv_blocks
    &&& request.max_num_batched_tokens == reg.max_num_batched_tokens
    &&& worker::alike_text(request.stable_routing_id, reg.stable_routing_id)
}

/// A worker is registered with each of its own fields, none in another's place.
pub proof fn law_worker_is_registered_as_it_is(reg: WorkerRegistration, request: WorkerRequest)
    requires
        call_ensures(Selector::worker_request, (&reg,), request),
    ensures
        carries(request, reg),
{
    lemma_carries(request, reg);
}

pub(crate) proof fn lemma_carries(request: WorkerRequest, reg: WorkerRegistration)
    requires
        request@ == worker_request_of(reg@),
    ensures
        carries(request, reg),
{
    assert(request@.kv_events_endpoints == worker_request_of(reg@).kv_events_endpoints);
    worker::law_texts_say_all_entries(request.kv_events_endpoints@, reg.kv_events_endpoints@);
    assert(request@.endpoint == Some(reg.endpoint@));
    assert(worker::text_of(request.replay_endpoint) == worker::text_of(reg.replay_endpoint));
    assert(worker::text_of(request.stable_routing_id) == worker::text_of(reg.stable_routing_id));
}

/// The service is asked for what the request holds, field by field, under the
/// tenant of the workers, and for nothing that the request does not hold.
pub proof fn law_selection_is_asked_for_as_it_is(
    req: SelectRequest,
    asked: SelectAndReserveRequest,
    reg: WorkerRegistration,
    registered: WorkerRequest,
)
    requires
        call_ensures(Selector::select_and_reserve, (&req,), asked),
        call_ensures(Selector::worker_request, (&reg,), registered),
    ensures
        asked.model_name@ == req.model_name@,
        asked.tenant_id@ == registered.tenant_id@,
        worker::alike_text(asked.selection_id, req.selection_id),
        worker::alike_text(asked.reservation_id, req.reservation_id),
        asked.token_ids is Some && asked.token_ids->0@ == req.token_ids@,
        asked.priority_jump == req.priority_jump,
        asked.strict_priority == req.strict_priority,
        crate::selection::alike_ids(asked.allowed_worker_ids, req.allowed_worker_ids),
        asked.expected_output_tokens is None,
        asked.session_id is None,
        asked.pinned_worker is None,
{
    assert(asked@.tenant_id == DEFAULT_TENANT@);
    assert(registered@.tenant_id == DEFAULT_TENANT@);
    assert(worker::text_of(asked.selection_id) == worker::text_of(req.selection_id));
    assert(worker::text_of(asked.reservation_id) == worker::text_of(req.reservation_id));
    assert(asked@.token_ids == Some(req.token_ids@));
    assert(asked@.allowed_worker_ids == req@.allowed_worker_ids);
    assert(worker::text_of(asked.session_id) is None);
}

/// The service is built to exchange load exactly where a watch over peers runs,
/// and on the port that is watched. A service that could not be built is
/// reported in its own words, whatever else is set; a replicated picker without
/// a namespace does not start; every other picker does.
pub proof fn law_startup(
    cfg: EppConfig,
    built: Result<(), String>,
    pod_namespace: Option<String>,
    pod_ip: Option<String>,
    plan: ServicePlan,
    started: Result<(Selector, Option<PeerWatch>), SelectorError>,
)
    requires
        call_ensures(Selector::service_plan, (&cfg,), plan),
        call_ensures(Selector::new, (&cfg, built, pod_namespace, pod_ip), started),
    ensures
        plan.indexer_threads == cfg.selector_threads,
        plan.replica_sync is Some <==> cfg.peer_service is Some,
        plan.replica_sync is Some ==> plan.replica_sync->0 == cfg.peer_sync_port,
        built matches Err(words) ==> started matches Err(SelectorError::BuildFailed(reported))
            && reported@ == words@,
        built is Ok && cfg.peer_service is Some && pod_namespace is None ==> started
            == Err::<(Selector, Option<PeerWatch>), SelectorError>(
            SelectorError::NamespaceUnavailable,
        ),
        built is Ok && (cfg.peer_service is None || pod_namespace is Some) ==> started is Ok,
        started matches Ok((_, watch)) ==> (watch is Some <==> plan.replica_sync is Some),
        started matches Ok((_, Some(watch))) ==> {
            &&& plan.replica_sync == Some(watch.port)
            &&& worker::alike_text(Some(watch.service_name), cfg.peer_service)
            &&& worker::alike_text(Some(watch.namespace), pod_namespace)
        },
{
    if let Ok((_, Some(watch))) = started {
        assert(watch@.port == cfg.peer_sync_port);
        assert(watch@.service_name == cfg.peer_service->0@);
        assert(watch@.namespace == pod_namespace->0@);
    }
}

/// A replica knows itself by the address in its environment, without the white
/// space around it, unless there is nothing else.
pub proof fn law_replica_knows_its_address(
    cfg: EppConfig,
    built: Result<(), String>,
    pod_namespace: Option<String>,
    pod_ip: Option<String>,
    selector: Selector,
    watch: PeerWatch,
)
    requires
        call_ensures(
            Selector::new,
            (&cfg, built, pod_namespace, pod_ip),
            Ok((selector, Some(watch))),
        ),
    ensures
        watch.self_ip matches Some(ip) ==> {
            &&& pod_ip is Some
            &&& ip@.len() > 0
            &&& exists|left: Seq<char>, right: Seq<char>|
                text::trims_to(pod_ip->0@, left, ip@, right)
        },
        watch.self_ip is None && pod_ip is Some ==> forall|i: int|
            0 <= i < pod_ip->0@.len() ==> text::white_space(#[trigger] pod_ip->0@[i]),
{
    assert(watch@.self_ip == self_ip_of(worker::text_of(pod_ip)));
    if pod_ip is Some {
        let given = pod_ip->0@;
        text::law_trimmed_is_core(given);
        if watch.self_ip is None {
            let core = text::trimmed(given);
            let (left, right) = choose|left: Seq<char>, right: Seq<char>|
                text::trims_to(given, left, core, right);
            assert(core.len() == 0);
            assert forall|i: int| 0 <= i < given.len() implies text::white_space(
                #[trigger] given[i],
            ) by {
                if i < left.len() {
                    assert(given[i] == left[i]);
                } else {
                    assert(given[i] == right[i - left.len()]);
                }
            }
        }
    }
}

/// A choice of the service is handed on as it is; a refusal is reported in the
/// service's own words, whichever way it refused.
pub proof fn law_choice_is_handed_on(
    answer: Result<SelectResponse, SelectionError>,
    read: Result<SelectResponse, SelectorError>,
)
    requires
        call_ensures(Selector::selected, (answer,), read),
    ensures
        answer matches Ok(response) ==> read == Ok::<SelectResponse, SelectorError>(response),
        answer matches Err(SelectionError::NotFound(words)) ==> read matches Err(
            SelectorError::SelectFailed(reported),
        ) && reported@ == words@,
        answer matches Err(SelectionError::Other(words)) ==> read matches Err(
            SelectorError::SelectFailed(reported),
        ) && reported@ == words@,
{
}

/// To release a booking, or its prefill, succeeds exactly where the service did
/// it or does not know the booking. Every other refusal is reported in its own
/// words.
pub proof fn law_unknown_bookings_are_released(
    answer: Result<(), SelectionError>,
    freed: Result<(), SelectorError>,
    prefilled: Result<(), SelectorError>,
)
    requires
        call_ensures(Selector::free_reservation, (answer,), freed),
        call_ensures(Selector::prefill_complete, (answer,), prefilled),
    ensures
        freed is Ok <==> prefilled is Ok,
        answer is Ok ==> freed is Ok,
        answer matches Err(SelectionError::NotFound(_)) ==> freed is Ok,
        answer matches Err(SelectionError::Other(words)) ==> freed matches Err(
            SelectorError::FreeFailed(reported),
        ) && reported@ == words@,
        answer matches Err(SelectionError::Other(words)) ==> prefilled matches Err(
            SelectorError::PrefillFailed(reported),
        ) && reported@ == words@,
{
}

/// The run registers this worker.
pub open spec fn will_register(run: ReconcileRun, id: u64) -> bool {
    exists|i: int| 0 <= i < run.upserts@.len() && (#[trigger] run.upserts@[i]).0 == id
}

/// Two runs hold the same work, item by item.
pub open spec fn same_run(a: ReconcileRun, b: ReconcileRun) -> bool {
    &&& a.upserts@.len() == b.upserts@.len()
    &&& forall|i: int|
        0 <= i < a.upserts@.len() ==> (#[trigger] a.upserts@[i]).0 == b.upserts@[i].0
            && worker::alike(a.upserts@[i].1, b.upserts@[i].1)
    &&& a.deletes@ == b.deletes@
}

/// Both runs register and delete the same workers, this one aside.
pub open spec fn same_work_but_for(a: ReconcileRun, b: ReconcileRun, id: u64) -> bool {
    forall|other: u64|
        other != id ==> (#[trigger] will_register(a, other) <==> will_register(b, other)) && (
        a.deletes@.contains(other) <==> b.deletes@.contains(other))
}

/// Both runs register and delete the same workers.
pub open spec fn same_work(a: ReconcileRun, b: ReconcileRun) -> bool {
    forall|id: u64|
        (#[trigger] will_register(a, id) <==> will_register(b, id)) && (a.deletes@.contains(id)
            <==> b.deletes@.contains(id))
}

proof fn lemma_plan(
    selector: Selector,
    desired: HashMap<u64, WorkerRegistration>,
    run: ReconcileRun,
    id: u64,
)
    requires
        call_ensures(Selector::reconcile, (&selector, &desired), run),
    ensures
        will_register(run, id) <==> reconcile::outdated(
            selector.catalog(),
            registrations(desired@),
            id,
        ),
        run.deletes@.contains(id) <==> reconcile::stale(
            selector.catalog(),
            registrations(desired@),
            id,
        ),
{
    let wanted = registrations(desired@);
    assert(reconcile::planned(run@, selector.catalog(), wanted));
    if will_register(run, id) {
        let i = choose|i: int| 0 <= i < run.upserts@.len() && (#[trigger] run.upserts@[i]).0 == id;
        assert(run@.upserts[i].0 == id);
    }
    if reconcile::outdated(selector.catalog(), wanted, id) {
        assert(reconcile::upserts_worker(run@, id));
        let i = choose|i: int| 0 <= i < run@.upserts.len() && (#[trigger] run@.upserts[i]).0 == id;
        assert(run.upserts@[i].0 == id);
    }
}

/// A plan registers only desired workers, each once and as it is desired, and
/// deletes only workers that are not desired, each once.
pub proof fn law_plan_follows_the_desired_workers(
    selector: Selector,
    desired: HashMap<u64, WorkerRegistration>,
    run: ReconcileRun,
)
    requires
        call_ensures(Selector::reconcile, (&selector, &desired), run),
    ensures
        forall|i: int|
            0 <= i < run.upserts@.len() ==> desired@.contains_key((#[trigger] run.upserts@[i]).0)
                && worker::alike(run.upserts@[i].1, desired@[run.upserts@[i].0]),
        forall|i: int, j: int|
            0 <= i < j < run.upserts@.len() ==> (#[trigger] run.upserts@[i]).0 != (
            #[trigger] run.upserts@[j]).0,
        forall|i: int|
            0 <= i < run.deletes@.len() ==> !desired@.contains_key(#[trigger] run.deletes@[i]),
        run.deletes@.no_duplicates(),
{
    assert forall|i: int| 0 <= i < run.upserts@.len() implies desired@.contains_key(
        (#[trigger] run.upserts@[i]).0,
    ) && worker::alike(run.upserts@[i].1, desired@[run.upserts@[i].0]) by {
        assert(run@.upserts[i].0 == run.upserts@[i].0);
        assert(run@.upserts[i].1 == run.upserts@[i].1@);
        worker::law_registration_says_all_fields(
            run.upserts@[i].1,
            desired@[run.upserts@[i].0],
        );
    }
    assert forall|i: int, j: int| 0 <= i < j < run.upserts@.len() implies (
    #[trigger] run.upserts@[i]).0 != (#[trigger] run.upserts@[j]).0 by {
        assert(run@.upserts[i].0 != run@.upserts[j].0);
    }
    assert forall|i: int| 0 <= i < run.deletes@.len() implies !desired@.contains_key(
        #[trigger] run.deletes@[i],
    ) by {
        assert(reconcile::stale(selector.catalog(), registrations(desired@), run@.deletes[i]));
    }
}

/// A selector that has just started registers every desired worker and deletes
/// none.
pub proof fn law_fresh_selector_registers_all(
    cfg: EppConfig,
    built: Result<(), String>,
    pod_namespace: Option<String>,
    pod_ip: Option<String>,
    selector: Selector,
    watch: Option<PeerWatch>,
    desired: HashMap<u64, WorkerRegistration>,
    run: ReconcileRun,
)
    requires
        call_ensures(Selector::new, (&cfg, built, pod_namespace, pod_ip), Ok((selector, watch))),
        call_ensures(Selector::reconcile, (&selector, &desired), run),
    ensures
        forall|id: u64| #[trigger] will_register(run, id) <==> desired@.contains_key(id),
        run.deletes@.len() == 0,
{
    assert forall|id: u64| #[trigger] will_register(run, id) <==> desired@.contains_key(id) by {
        lemma_plan(selector, desired, run, id);
    }
    if run.deletes@.len() > 0 {
        assert(run.deletes@.contains(run.deletes@[0]));
        lemma_plan(selector, desired, run, run.deletes@[0]);
    }
}

proof fn lemma_same_run(a: ReconcileRun, b: ReconcileRun)
    requires
        a@ == b@,
    ensures
        same_run(a, b),
{
    assert(a@.upserts.len() == a.upserts@.len());
    assert(b@.upserts.len() == b.upserts@.len());
    assert forall|i: int| 0 <= i < a.upserts@.len() implies (#[trigger] a.upserts@[i]).0
        == b.upserts@[i].0 && worker::alike(a.upserts@[i].1, b.upserts@[i].1) by {
        assert(a@.upserts[i] == (a.upserts@[i].0, a.upserts@[i].1@));
        assert(b@.upserts[i] == (b.upserts@[i].0, b.upserts@[i].1@));
        worker::law_registration_says_all_fields(a.upserts@[i].1, b.upserts@[i].1);
    }
    assert(a.deletes@ == a@.deletes);
    assert(b.deletes@ == b@.deletes);
}

/// A refused registration is reported in the service's own words, whichever way
/// the service refused and whatever was to be registered. The run still holds
/// it, and every later plan still registers what it would have registered.
pub proof fn law_refused_registration_is_tried_again(
    selector: &mut Selector,
    run: &mut ReconcileRun,
    error: SelectionError,
    words: String,
    r: Result<(), SelectorError>,
    desired: HashMap<u64, WorkerRegistration>,
    before: ReconcileRun,
    after: ReconcileRun,
)
    requires
        call_ensures(Selector::record, (selector, run, Err(error)), r),
        call_ensures(SelectionError::into_text, (error,), words),
        call_ensures(Selector::reconcile, (&*old(selector), &desired), before),
        call_ensures(Selector::reconcile, (&*final(selector), &desired), after),
        old(run).upserts@.len() > 0,
    ensures
        r matches Err(SelectorError::UpsertFailed(reported)) && reported@ == words@,
        same_run(*old(run), *final(run)),
        same_work(before, after),
{
    assert(old(run)@.upserts.len() > 0);
    lemma_same_run(*old(run), *final(run));
    assert forall|id: u64| #[trigger] will_register(before, id) <==> will_register(
        after,
        id,
    ) by {
        lemma_plan(*old(selector), desired, before, id);
        lemma_plan(*final(selector), desired, after, id);
    }
    assert forall|id: u64| before.deletes@.contains(id) <==> after.deletes@.contains(id) by {
        lemma_plan(*old(selector), desired, before, id);
        lemma_plan(*final(selector), desired, after, id);
    }
}

/// A refused deletion is reported in the service's own words, unless the service
/// does not know the worker. The run still holds it, and every later plan still
/// does what it would have done.
pub proof fn law_refused_deletion_is_tried_again(
    selector: &mut Selector,
    run: &mut ReconcileRun,
    words: String,
    r: Result<(), SelectorError>,
    desired: HashMap<u64, WorkerRegistration>,
    before: ReconcileRun,
    after: ReconcileRun,
)
    requires
        call_ensures(Selector::record, (selector, run, Err(SelectionError::Other(words))), r),
        call_ensures(Selector::reconcile, (&*old(selector), &desired), before),
        call_ensures(Selector::reconcile, (&*final(selector), &desired), after),
        old(run).upserts@.len() == 0,
        old(run).deletes@.len() > 0,
    ensures
        r matches Err(SelectorError::DeleteFailed(reported)) && reported@ == words@,
        same_run(*old(run), *final(run)),
        same_work(before, after),
{
    assert(old(run)@.upserts.len() == 0);
    lemma_same_run(*old(run), *final(run));
    assert forall|id: u64| #[trigger] will_register(before, id) <==> will_register(
        after,
        id,
    ) by {
        lemma_plan(*old(selector), desired, before, id);
        lemma_plan(*final(selector), desired, after, id);
    }
    assert forall|id: u64| before.deletes@.contains(id) <==> after.deletes@.contains(id) by {
        lemma_plan(*old(selector), desired, before, id);
        lemma_plan(*final(selector), desired, after, id);
    }
}

/// A registration that the service took is off the run and remembered: from
/// then on a plan registers the worker only where it is desired otherwise, and
/// deletes it where it is not desired. Nothing changes for any other worker.
pub proof fn law_registration_is_remembered(
    selector: &mut Selector,
    run: &mut ReconcileRun,
    id: u64,
    reg: WorkerRegistration,
    r: Result<(), SelectorError>,
    desired: HashMap<u64, WorkerRegistration>,
    before: ReconcileRun,
    after: ReconcileRun,
)
    requires
        call_ensures(Selector::record, (selector, run, Ok(())), r),
        call_ensures(Selector::reconcile, (&*old(selector), &desired), before),
        call_ensures(Selector::reconcile, (&*final(selector), &desired), after),
        old(run).upserts@.len() > 0,
        (id, reg) == old(run).upserts@.last(),
    ensures
        r is Ok,
        final(run).upserts@.len() == old(run).upserts@.len() - 1,
        forall|i: int|
            0 <= i < final(run).upserts@.len() ==> (#[trigger] final(run).upserts@[i]).0 == old(
                run,
            ).upserts@[i].0 && worker::alike(
                final(run).upserts@[i].1,
                old(run).upserts@[i].1,
            ),
        final(run).deletes@ == old(run).deletes@,
        will_register(after, id) <==> desired@.contains_key(id) && !worker::alike(
            reg,
            desired@[id],
        ),
        after.deletes@.contains(id) <==> !desired@.contains_key(id),
        same_work_but_for(before, after, id),
{
    assert(old(run)@.upserts.len() > 0);
    assert(old(run)@.upserts.last() == (id, reg@));
    assert(final(run)@.upserts =~= old(run)@.upserts.drop_last());
    assert(final(run)@.deletes == old(run)@.deletes);
    assert(final(run)@.upserts.len() == final(run).upserts@.len());
    assert forall|i: int| 0 <= i < final(run).upserts@.len() implies (
    #[trigger] final(run).upserts@[i]).0 == old(run).upserts@[i].0 && worker::alike(
        final(run).upserts@[i].1,
        old(run).upserts@[i].1,
    ) by {
        let f = final(run).upserts@[i];
        let o = old(run).upserts@[i];
        assert(final(run)@.upserts[i] == (f.0, f.1@));
        assert(old(run)@.upserts[i] == (o.0, o.1@));
        worker::law_registration_says_all_fields(f.1, o.1);
    }
    lemma_plan(*final(selector), desired, after, id);
    if desired@.contains_key(id) {
        worker::law_registration_says_all_fields(reg, desired@[id]);
    }
    assert forall|other: u64| other != id implies (#[trigger] will_register(before, other)
        <==> will_register(after, other)) && (before.deletes@.contains(other)
        <==> after.deletes@.contains(other)) by {
        lemma_plan(*old(selector), desired, before, other);
        lemma_plan(*final(selector), desired, after, other);
    }
}

/// A deletion that the service did, or found nothing to do for, is off the run,
/// and the worker is forgotten: from then on a plan registers it where it is
/// desired, and never deletes it. Nothing changes for any other worker.
pub proof fn law_deletion_is_remembered(
    selector: &mut Selector,
    run: &mut ReconcileRun,
    id: u64,
    answer: Result<(), SelectionError>,
    r: Result<(), SelectorError>,
    desired: HashMap<u64, WorkerRegistration>,
    before: ReconcileRun,
    after: ReconcileRun,
)
    requires
        call_ensures(Selector::record, (selector, run, answer), r),
        call_ensures(Selector::reconcile, (&*old(selector), &desired), before),
        call_ensures(Selector::reconcile, (&*final(selector), &desired), after),
        answer is Ok || answer->Err_0 is NotFound,
        old(run).upserts@.len() == 0,
        old(run).deletes@.len() > 0,
        id == old(run).deletes@.last(),
    ensures
        r is Ok,
        final(run).upserts@.len() == 0,
        final(run).deletes@ == old(run).deletes@.drop_last(),
        will_register(after, id) <==> desired@.contains_key(id),
        !after.deletes@.contains(id),
        same_work_but_for(before, after, id),
{
    assert(old(run)@.upserts.len() == 0);
    assert(final(run)@.upserts.len() == final(run).upserts@.len());
    assert(final(run)@.deletes == old(run)@.deletes.drop_last());
    lemma_plan(*final(selector), desired, after, id);
    assert forall|other: u64| other != id implies (#[trigger] will_register(before, other)
        <==> will_register(after, other)) && (before.deletes@.contains(other)
        <==> after.deletes@.contains(other)) by {
        lemma_plan(*old(selector), desired, before, other);
        lemma_plan(*final(selector), desired, after, other);
    }
}

/// A run that is over stays over, whatever is recorded, and nothing is reported
/// or changed.
pub proof fn law_finished_run_stays_finished(
    selector: &mut Selector,
    run: &mut ReconcileRun,
    answer: Result<(), SelectionError>,
    r: Result<(), SelectorError>,
    desired: HashMap<u64, WorkerRegistration>,
    before: ReconcileRun,
    after: ReconcileRun,
)
    requires
        call_ensures(Selector::record, (selector, run, answer), r),
        call_ensures(Selector::reconcile, (&*old(selector), &desired), before),
        call_ensures(Selector::reconcile, (&*final(selector), &desired), after),
        old(run).upserts@.len() == 0,
        old(run).deletes@.len() == 0,
    ensures
        r is Ok,
        final(run).upserts@.len() == 0,
        final(run).deletes@.len() == 0,
        same_work(before, after),
{
    assert(old(run)@.upserts.len() == 0);
    lemma_same_run(*old(run), *final(run));
    assert forall|id: u64| #[trigger] will_register(before, id) <==> will_register(
        after,
        id,
    ) by {
        lemma_plan(*old(selector), desired, before, id);
        lemma_plan(*final(selector), desired, after, id);
    }
    assert forall|id: u64| before.deletes@.contains(id) <==> after.deletes@.contains(id) by {
        lemma_plan(*old(selector), desired, before, id);
        lemma_plan(*final(selector), desired, after, id);
    }
}

} // verus!
