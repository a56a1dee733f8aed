//! Workers as the picker registers them with the selection service.
use std::collections::HashMap;
use vstd::prelude::*;
use vstd::std_specs::hash::*;

verus! {

broadcast use group_hash_axioms;

/// The text inside an optional string.
pub open spec fn text_of(o: Option<String>) -> Option<Seq<char>> {
    match o {
        Some(s) => Some(s@),
        None => None,
    }
}

/// A map of strings as a map of their texts.
pub open spec fn texts(m: Map<u32, String>) -> Map<u32, Seq<char>> {
    m.map_values(|s: String| s@)
}

/// A worker that the picker registers. Only what aggregated routing needs is
/// there; the selection service has defaults for the rest.
#[derive(Debug)]
pub struct WorkerRegistration {
    pub worker_id: u64,
    pub model_name: String,
    pub endpoint: String,
    pub block_size: u32,
    pub data_parallel_size: u32,
    pub kv_events_endpoints: HashMap<u32, String>,
    pub replay_endpoint: Option<String>,
    pub total_kv_blocks: Option<u64>,
    pub max_num_batched_tokens: Option<u64>,
    pub stable_routing_id: Option<String>,
}

/// What a [`WorkerRegistration`] says.
#[verifier::ext_equal]
pub struct RegistrationView {
    pub worker_id: u64,
    pub model_name: Seq<char>,
    pub endpoint: Seq<char>,
    pub block_size: u32,
    pub data_parallel_size: u32,
    pub kv_events_endpoints: Map<u32, Seq<char>>,
    pub replay_endpoint: Option<Seq<char>>,
    pub total_kv_blocks: Option<u64>,
    pub max_num_batched_tokens: Option<u64>,
    pub stable_routing_id: Option<Seq<char>>,
}

impl View for WorkerRegistration {
    type V = RegistrationView;

    open spec fn view(&self) -> RegistrationView {
        RegistrationView {
            worker_id: self.worker_id,
            model_name: self.model_name@,
            endpoint: self.endpoint@,
            block_size: self.block_size,
            data_parallel_size: self.data_parallel_size,
            kv_events_endpoints: texts(self.kv_events_endpoints@),
            replay_endpoint: text_of(self.replay_endpoint),
            total_kv_blocks: self.total_kv_blocks,
            max_num_batched_tokens: self.max_num_batched_tokens,
            stable_routing_id: text_of(self.stable_routing_id),
        }
    }
}

/// Copies an optional string.
pub fn copy_text(o: &Option<String>) -> (r: Option<String>)
    ensures
        text_of(r) == text_of(*o),
{
    match o {
        Some(s) => Some(s.clone()),
        None => None,
    }
}

fn same_text(a: &Option<String>, b: &Option<String>) -> (r: bool)
    ensures
        r == (text_of(*a) == text_of(*b)),
{
    match (a, b) {
        (Some(x), Some(y)) => *x == *y,
        (None, None) => true,
        _ => false,
    }
}

/// Every entry of `a` is an entry of `b`.
spec fn covered(a: Map<u32, String>, b: Map<u32, String>) -> bool {
    forall|k: u32| #[trigger] a.contains_key(k) ==> b.contains_key(k) && b[k]@ == a[k]@
}

fn is_covered(a: &HashMap<u32, String>, b: &HashMap<u32, String>) -> (r: bool)
    ensures
        r == covered(a@, b@),
{
    for key in keys: a.keys()
        invariant
            forall|i: int|
                0 <= i < keys.index() ==> b@.contains_key(*#[trigger] keys.seq()[i])
                    && b@[*keys.seq()[i]]@ == a@[*keys.seq()[i]]@,
            keys.seq().unref().to_set() == a@.dom(),
    {
        let ghost k = *key;
        assert(keys.seq().unref()[keys.index() as int] == k);
        assert(a@.dom().contains(k));
        match (a.get(key), b.get(key)) {
            (Some(x), Some(y)) => {
                if *x != *y {
                    return false;
                }
            },
            _ => {
                return false;
            },
        }
    }
    true
}

proof fn lemma_covered_both_ways(a: Map<u32, String>, b: Map<u32, String>)
    ensures
        (covered(a, b) && covered(b, a)) == (texts(a) == texts(b)),
{
    if covered(a, b) && covered(b, a) {
        assert(texts(a) =~= texts(b));
    }
    if texts(a) == texts(b) {
        assert forall|k: u32| #[trigger] a.contains_key(k) implies b.contains_key(k) && b[k]@
            == a[k]@ by {
            assert(texts(a).contains_key(k));
            assert(texts(a)[k] == texts(b)[k]);
        }
        assert forall|k: u32| #[trigger] b.contains_key(k) implies a.contains_key(k) && a[k]@
            == b[k]@ by {
            assert(texts(b).contains_key(k));
            assert(texts(a)[k] == texts(b)[k]);
        }
    }
}

impl WorkerRegistration {
    /// Whether two registrations say the same.
    pub fn same(&self, other: &WorkerRegistration) -> (r: bool)
        ensures
            r == (self@ == other@),
    {
        proof {
            lemma_covered_both_ways(self.kv_events_endpoints@, other.kv_events_endpoints@);
        }
        self.worker_id == other.worker_id && self.model_name == other.model_name && self.endpoint
            == other.endpoint && self.block_size == other.block_size && self.data_parallel_size
            == other.data_parallel_size && is_covered(
            &self.kv_events_endpoints,
            &other.kv_events_endpoints,
        ) && is_covered(&other.kv_events_endpoints, &self.kv_events_endpoints) && same_text(
            &self.replay_endpoint,
            &other.replay_endpoint,
        ) && self.total_kv_blocks == other.total_kv_blocks && self.max_num_batched_tokens
            == other.max_num_batched_tokens && same_text(
            &self.stable_routing_id,
            &other.stable_routing_id,
        )
    }
}

impl PartialEq for WorkerRegistration {
    fn eq(&self, other: &Self) -> (r: bool) {
        self.same(other)
    }
}

impl vstd::std_specs::cmp::PartialEqSpecImpl for WorkerRegistration {
    open spec fn obeys_eq_spec() -> bool {
        true
    }

    open spec fn eq_spec(&self, other: &Self) -> bool {
        self@ == other@
    }
}

impl Eq for WorkerRegistration {

}

impl Clone for WorkerRegistration {
    fn clone(&self) -> (r: Self)
        ensures
            r@ == self@,
    {
        WorkerRegistration {
            worker_id: self.worker_id,
            model_name: self.model_name.clone(),
            endpoint: self.endpoint.clone(),
            block_size: self.block_size,
            data_parallel_size: self.data_parallel_size,
            kv_events_endpoints: self.kv_events_endpoints.clone(),
            replay_endpoint: copy_text(&self.replay_endpoint),
            total_kv_blocks: self.total_kv_blocks,
            max_num_batched_tokens: self.max_num_batched_tokens,
            stable_routing_id: copy_text(&self.stable_routing_id),
        }
    }
}

/// Both are there with the same text, or neither is there.
pub open spec fn alike_text(a: Option<String>, b: Option<String>) -> bool {
    &&& a is Some <==> b is Some
    &&& a is Some ==> a->0@ == b->0@
}

/// The same keys lead to the same texts.
pub open spec fn alike_texts(a: Map<u32, String>, b: Map<u32, String>) -> bool {
    &&& forall|k: u32| #[trigger] a.contains_key(k) <==> b.contains_key(k)
    &&& forall|k: u32| #[trigger] a.contains_key(k) ==> a[k]@ == b[k]@
}

/// Two registrations agree in each of their fields.
pub open spec fn alike(a: WorkerRegistration, b: WorkerRegistration) -> bool {
    &&& a.worker_id == b.worker_id
    &&& a.model_name@ == b.model_name@
    &&& a.endpoint@ == b.endpoint@
    &&& a.block_size == b.block_size
    &&& a.data_parallel_size == b.data_parallel_size
    &&& alike_texts(a.kv_events_endpoints@, b.kv_events_endpoints@)
    &&& alike_text(a.replay_endpoint, b.replay_endpoint)
    &&& a.total_kv_blocks == b.total_kv_blocks
    &&& a.max_num_batched_tokens == b.max_num_batched_tokens
    &&& alike_text(a.stable_routing_id, b.stable_routing_id)
}

/// What a registration says is all that its fields hold: two say the same
/// exactly where they agree in each field.
pub proof fn law_registration_says_all_fields(a: WorkerRegistration, b: WorkerRegistration)
    ensures
        a@ == b@ <==> alike(a, b),
{
    law_texts_say_all_entries(a.kv_events_endpoints@, b.kv_events_endpoints@);
}

/// Two maps of strings say the same exactly where the same keys lead to the
/// same texts.
pub proof fn law_texts_say_all_entries(a: Map<u32, String>, b: Map<u32, String>)
    ensures
        texts(a) == texts(b) <==> alike_texts(a, b),
{
    lemma_covered_both_ways(a, b);
}

/// Two registrations compare as the same exactly where they agree in each
/// field, by name and by `==` alike, and a clone is the same as what it was
/// cloned from.
pub proof fn law_compared_by_every_field(
    a: WorkerRegistration,
    b: WorkerRegistration,
    same: bool,
    clone: WorkerRegistration,
)
    requires
        call_ensures(WorkerRegistration::same, (&a, &b), same),
        call_ensures(WorkerRegistration::clone, (&a,), clone),
    ensures
        same <==> alike(a, b),
        same == vstd::std_specs::cmp::PartialEqSpec::eq_spec(&a, &b),
        alike(a, clone),
{
    law_registration_says_all_fields(a, b);
    law_registration_says_all_fields(a, clone);
}

/// A copy of an optional string is there exactly where the string is, and reads
/// the same.
pub proof fn law_copied_text_reads_the_same(o: Option<String>, copy: Option<String>)
    requires
        call_ensures(copy_text, (&o,), copy),
    ensures
        alike_text(o, copy),
{
}

} // verus!
