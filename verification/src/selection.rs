//! What the picker says to the selection service, and what it hears back.
use crate::hints::PriorityJump;
use crate::text::prefixed;
use crate::worker;
use std::collections::{HashMap, HashSet};
use vstd::prelude::*;
use vstd::std_specs::hash::*;

verus! {

broadcast use group_hash_axioms;

/// The ids inside an optional set.
pub open spec fn ids_of(o: Option<HashSet<u64>>) -> Option<Set<u64>> {
    match o {
        Some(ids) => Some(ids@),
        None => None,
    }
}

/// A request for a worker. The raw tokens go along, so that the service can
/// hash them itself.
#[derive(Debug, Clone)]
pub struct SelectRequest {
    pub model_name: String,
    pub selection_id: Option<String>,
    /// The key of the booking. The picker mints a fresh one per pick and keeps
    /// it by request id, so that it can release the booking later.
    pub reservation_id: Option<String>,
    pub token_ids: Vec<u32>,
    pub allowed_worker_ids: Option<HashSet<u64>>,
    pub priority_jump: Option<PriorityJump>,
    pub strict_priority: Option<u32>,
}

/// What a [`SelectRequest`] says.
#[verifier::ext_equal]
pub struct SelectRequestView {
    pub model_name: Seq<char>,
    pub selection_id: Option<Seq<char>>,
    pub reservation_id: Option<Seq<char>>,
    pub token_ids: Seq<u32>,
    pub allowed_worker_ids: Option<Set<u64>>,
    pub priority_jump: Option<PriorityJump>,
    pub strict_priority: Option<u32>,
}

impl View for SelectRequest {
    type V = SelectRequestView;

    open spec fn view(&self) -> SelectRequestView {
        SelectRequestView {
            model_name: self.model_name@,
            selection_id: worker::text_of(self.selection_id),
            reservation_id: worker::text_of(self.reservation_id),
            token_ids: self.token_ids@,
            allowed_worker_ids: ids_of(self.allowed_worker_ids),
            priority_jump: self.priority_jump,
            strict_priority: self.strict_priority,
        }
    }
}

/// How many tokens of a prompt the chosen worker already holds, by tier.
#[derive(Debug, Clone, Copy, PartialEq, Eq)]
pub struct OverlapSummary {
    pub longest_matched: u32,
    pub gpu: u32,
    pub cpu: u32,
    pub disk: u32,
}

impl Default for OverlapSummary {
    fn default() -> (r: Self)
        ensures
            r == (OverlapSummary { longest_matched: 0, gpu: 0, cpu: 0, disk: 0 }),
    {
        OverlapSummary { longest_matched: 0, gpu: 0, cpu: 0, disk: 0 }
    }
}

/// The worker that the service chose for a prompt.
#[derive(Debug, Clone)]
pub struct SelectResponse {
    pub selection_id: Option<String>,
    /// The booking key that the service recorded: the one it was given, or one
    /// of its own where it was given none.
    pub reservation_id: Option<String>,
    pub worker_id: u64,
    pub dp_rank: u32,
    pub endpoint: String,
    pub block_size: u32,
    pub overlap: OverlapSummary,
    pub effective_prefill_tokens: usize,
}

/// A worker as the service's catalog takes it. What is not here is left to the
/// service's defaults.
#[derive(Debug)]
pub struct WorkerRequest {
    pub worker_id: u64,
    pub model_name: String,
    pub tenant_id: String,
    pub endpoint: Option<String>,
    pub block_size: Option<u32>,
    pub data_parallel_size: Option<u32>,
    pub kv_events_endpoints: HashMap<u32, String>,
    pub replay_endpoint: Option<String>,
    pub total_kv_blocks: Option<u64>,
    pub max_num_batched_tokens: Option<u64>,
    pub stable_routing_id: Option<String>,
}

/// What a [`WorkerRequest`] says.
#[verifier::ext_equal]
pub struct WorkerRequestView {
    pub worker_id: u64,
    pub model_name: Seq<char>,
    pub tenant_id: Seq<char>,
    pub endpoint: Option<Seq<char>>,
    pub block_size: Option<u32>,
    pub data_parallel_size: Option<u32>,
    pub kv_events_endpoints: Map<u32, Seq<char>>,
    pub replay_endpoint: Option<Seq<char>>,
    pub total_kv_blocks: Option<u64>,
    pub max_num_batched_tokens: Option<u64>,
    pub stable_routing_id: Option<Seq<char>>,
}

impl View for WorkerRequest {
    type V = WorkerRequestView;

    open spec fn view(&self) -> WorkerRequestView {
        WorkerRequestView {
            worker_id: self.worker_id,
            model_name: self.model_name@,
            tenant_id: self.tenant_id@,
            endpoint: worker::text_of(self.endpoint),
            block_size: self.block_size,
            data_parallel_size: self.data_parallel_size,
            kv_events_endpoints: worker::texts(self.kv_events_endpoints@),
            replay_endpoint: worker::text_of(self.replay_endpoint),
            total_kv_blocks: self.total_kv_blocks,
            max_num_batched_tokens: self.max_num_batched_tokens,
            stable_routing_id: worker::text_of(self.stable_routing_id),
        }
    }
}

/// A selection that books its load, as the service takes it.
#[derive(Debug)]
pub struct SelectAndReserveRequest {
    pub model_name: String,
    pub tenant_id: String,
    pub selection_id: Option<String>,
    pub reservation_id: Option<String>,
    pub token_ids: Option<Vec<u32>>,
    pub expected_output_tokens: Option<u32>,
    pub session_id: Option<String>,
    pub priority_jump: Option<PriorityJump>,
    pub strict_priority: Option<u32>,
    /// A worker and its data-parallel rank.
    pub pinned_worker: Option<(u64, u32)>,
    pub allowed_worker_ids: Option<HashSet<u64>>,
}

/// What a [`SelectAndReserveRequest`] says.
#[verifier::ext_equal]
pub struct SelectAndReserveView {
    pub model_name: Seq<char>,
    pub tenant_id: Seq<char>,
    pub selection_id: Option<Seq<char>>,
    pub reservation_id: Option<Seq<char>>,
    pub token_ids: Option<Seq<u32>>,
    pub expected_output_tokens: Option<u32>,
    pub session_id: Option<Seq<char>>,
    pub priority_jump: Option<PriorityJump>,
    pub strict_priority: Option<u32>,
    pub pinned_worker: Option<(u64, u32)>,
    pub allowed_worker_ids: Option<Set<u64>>,
}

impl View for SelectAndReserveRequest {
    type V = SelectAndReserveView;

    open spec fn view(&self) -> SelectAndReserveView {
        SelectAndReserveView {
            model_name: self.model_name@,
            tenant_id: self.tenant_id@,
            selection_id: worker::text_of(self.selection_id),
            reservation_id: worker::text_of(self.reservation_id),
            token_ids: match self.token_ids {
                Some(tokens) => Some(tokens@),
                None => None,
            },
            expected_output_tokens: self.expected_output_tokens,
            session_id: worker::text_of(self.session_id),
            priority_jump: self.priority_jump,
            strict_priority: self.strict_priority,
            pinned_worker: self.pinned_worker,
            allowed_worker_ids: ids_of(self.allowed_worker_ids),
        }
    }
}

/// Copies a set of ids.
pub fn copy_ids(ids: &HashSet<u64>) -> (r: HashSet<u64>)
    ensures
        r@ == ids@,
{
    let mut copy: HashSet<u64> = HashSet::new();
    for id in all: ids.iter()
        invariant
            forall|i: int|
                0 <= i < all.index() ==> copy@.contains(#[trigger] all.seq().unref()[i]),
            forall|x: u64| #[trigger] copy@.contains(x) ==> ids@.contains(x),
            forall|x: u64| #[trigger] ids@.contains(x) ==> all.seq().unref().contains(x),
            all.seq().unref().to_set() == ids@,
    {
        assert(all.seq().unref()[all.index() as int] == *id);
        assert(ids@.contains(*id));
        copy.insert(*id);
    }
    assert(copy@ =~= ids@);
    copy
}

/// How the service refuses: it does not know what was named, or anything else.
/// Both carry the service's own words.
#[derive(Debug, PartialEq, Eq)]
pub enum SelectionError {
    NotFound(String),
    Other(String),
}

/// What a [`SelectionError`] says.
pub enum SelectionErrorView {
    NotFound(Seq<char>),
    Other(Seq<char>),
}

impl View for SelectionError {
    type V = SelectionErrorView;

    open spec fn view(&self) -> SelectionErrorView {
        match self {
            SelectionError::NotFound(text) => SelectionErrorView::NotFound(text@),
            SelectionError::Other(text) => SelectionErrorView::Other(text@),
        }
    }
}

impl SelectionErrorView {
    /// The words of the error.
    pub open spec fn text(self) -> Seq<char> {
        match self {
            SelectionErrorView::NotFound(text) => text,
            SelectionErrorView::Other(text) => text,
        }
    }
}

impl SelectionError {
    /// The words of the error.
    pub fn into_text(self) -> (r: String)
        ensures
            r@ == self@.text(),
    {
        match self {
            SelectionError::NotFound(text) => text,
            SelectionError::Other(text) => text,
        }
    }
}

/// Why a replicated picker cannot start without its namespace.
pub const NAMESPACE_UNAVAILABLE: &'static str =
    "DYN_EPP_PEER_SERVICE is set but POD_NAMESPACE is unavailable. Inject it via \
     the downward API (fieldRef metadata.namespace) so the EPP can watch its own \
     Service's EndpointSlices.";

/// What can go wrong in the selector, each with the words of the cause.
#[derive(Debug, PartialEq, Eq)]
pub enum SelectorError {
    BuildFailed(String),
    NamespaceUnavailable,
    UpsertFailed(String),
    DeleteFailed(String),
    SelectFailed(String),
    FreeFailed(String),
    PrefillFailed(String),
}

/// What a [`SelectorError`] says.
pub enum SelectorErrorView {
    BuildFailed(Seq<char>),
    NamespaceUnavailable,
    UpsertFailed(Seq<char>),
    DeleteFailed(Seq<char>),
    SelectFailed(Seq<char>),
    FreeFailed(Seq<char>),
    PrefillFailed(Seq<char>),
}

impl View for SelectorError {
    type V = SelectorErrorView;

    open spec fn view(&self) -> SelectorErrorView {
        match self {
            SelectorError::BuildFailed(text) => SelectorErrorView::BuildFailed(text@),
            SelectorError::NamespaceUnavailable => SelectorErrorView::NamespaceUnavailable,
            SelectorError::UpsertFailed(text) => SelectorErrorView::UpsertFailed(text@),
            SelectorError::DeleteFailed(text) => SelectorErrorView::DeleteFailed(text@),
            SelectorError::SelectFailed(text) => SelectorErrorView::SelectFailed(text@),
            SelectorError::FreeFailed(text) => SelectorErrorView::FreeFailed(text@),
            SelectorError::PrefillFailed(text) => SelectorErrorView::PrefillFailed(text@),
        }
    }
}

impl SelectorErrorView {
    /// The message of the error.
    pub open spec fn message(self) -> Seq<char> {
        match self {
            SelectorErrorView::BuildFailed(text) => "building embedded selection service: "@ + text,
            SelectorErrorView::NamespaceUnavailable => NAMESPACE_UNAVAILABLE@,
            SelectorErrorView::UpsertFailed(text) => "upsert_worker failed: "@ + text,
            SelectorErrorView::DeleteFailed(text) => "delete_worker failed: "@ + text,
            SelectorErrorView::SelectFailed(text) => "select_and_reserve failed: "@ + text,
            SelectorErrorView::FreeFailed(text) => "free_reservation failed: "@ + text,
            SelectorErrorView::PrefillFailed(text) => "prefill_complete failed: "@ + text,
        }
    }
}

impl SelectorError {
    /// The message of the error.
    pub fn message(&self) -> (r: String)
        ensures
            r@ == self@.message(),
    {
        match self {
            SelectorError::BuildFailed(text) => prefixed(
                "building embedded selection service: ",
                text.as_str(),
            ),
            SelectorError::NamespaceUnavailable => NAMESPACE_UNAVAILABLE.to_owned(),
            SelectorError::UpsertFailed(text) => prefixed("upsert_worker failed: ", text.as_str()),
            SelectorError::DeleteFailed(text) => prefixed("delete_worker failed: ", text.as_str()),
            SelectorError::SelectFailed(text) => prefixed(
                "select_and_reserve failed: ",
                text.as_str(),
            ),
            SelectorError::FreeFailed(text) => prefixed("free_reservation failed: ", text.as_str()),
            SelectorError::PrefillFailed(text) => prefixed(
                "prefill_complete failed: ",
                text.as_str(),
            ),
        }
    }
}

/// Both are there with the same ids, or neither is there.
pub open spec fn alike_ids(a: Option<HashSet<u64>>, b: Option<HashSet<u64>>) -> bool {
    &&& a is Some <==> b is Some
    &&& a is Some ==> forall|id: u64| #[trigger] a->0@.contains(id) <==> b->0@.contains(id)
}

/// A copied set holds the same ids.
pub proof fn law_copied_ids_are_the_same(ids: HashSet<u64>, copy: HashSet<u64>)
    requires
        call_ensures(copy_ids, (&ids,), copy),
    ensures
        forall|id: u64| #[trigger] copy@.contains(id) <==> ids@.contains(id),
{
}

/// Two selection requests agree in each of their fields.
pub open spec fn alike_requests(a: SelectRequest, b: SelectRequest) -> bool {
    &&& a.model_name@ == b.model_name@
    &&& worker::alike_text(a.selection_id, b.selection_id)
    &&& worker::alike_text(a.reservation_id, b.reservation_id)
    &&& a.token_ids@ == b.token_ids@
    &&& alike_ids(a.allowed_worker_ids, b.allowed_worker_ids)
    &&& a.priority_jump == b.priority_jump
    &&& a.strict_priority == b.strict_priority
}

/// What a selection request says is all that its fields hold.
pub proof fn law_select_request_says_all_fields(a: SelectRequest, b: SelectRequest)
    ensures
        a@ == b@ <==> alike_requests(a, b),
{
    if alike_requests(a, b) {
        if a.allowed_worker_ids is Some {
            assert(a.allowed_worker_ids->0@ =~= b.allowed_worker_ids->0@);
        }
        assert(a@ =~= b@);
    }
    if a@ == b@ {
        assert(a@.allowed_worker_ids == b@.allowed_worker_ids);
    }
}

/// The words of a refusal are the service's own, whichever way it refused.
pub proof fn law_refusal_keeps_its_words(error: SelectionError, words: String)
    requires
        call_ensures(SelectionError::into_text, (error,), words),
    ensures
        error matches SelectionError::NotFound(own) ==> words@ == own@,
        error matches SelectionError::Other(own) ==> words@ == own@,
{
}

/// Every message names the operation that failed, and then holds the whole of
/// the cause's words, whatever they are.
pub proof fn law_message_names_operation_and_cause(error: SelectorError, message: String)
    requires
        call_ensures(SelectorError::message, (&error,), message),
    ensures
        error matches SelectorError::BuildFailed(cause) ==> message@
            == "building embedded selection service: "@ + cause@,
        error matches SelectorError::UpsertFailed(cause) ==> message@ == "upsert_worker failed: "@
            + cause@,
        error matches SelectorError::DeleteFailed(cause) ==> message@ == "delete_worker failed: "@
            + cause@,
        error matches SelectorError::SelectFailed(cause) ==> message@
            == "select_and_reserve failed: "@ + cause@,
        error matches SelectorError::FreeFailed(cause) ==> message@ == "free_reservation failed: "@
            + cause@,
        error matches SelectorError::PrefillFailed(cause) ==> message@
            == "prefill_complete failed: "@ + cause@,
        error is NamespaceUnavailable ==> message@ == NAMESPACE_UNAVAILABLE@,
{
}

/// No overlap is the default.
pub proof fn law_default_overlap_is_none(overlap: OverlapSummary)
    requires
        call_ensures(OverlapSummary::default, (), overlap),
    ensures
        overlap.longest_matched == 0 && overlap.gpu == 0 && overlap.cpu == 0 && overlap.disk == 0,
{
}

} // verus!
