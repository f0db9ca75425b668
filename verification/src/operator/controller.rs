use vstd::prelude::*;
use crate::operator::meta::{opt_timestamp_lt, opt_timestamp_less};
use crate::operator::status::{Condition, ConditionStatus, opt_view};
use crate::operator::types::TdxQuoteGenerationServiceStatus;
use crate::operator::types::TdxQuoteGenerationService;
use crate::text::{split_once, split_once_spec, trim, trimmed, str_equal};

verus! {

/// Errors of the controller's own logic.
#[derive(Debug)]
pub enum ControllerError {
    /// The resource has no UID, so no owner reference can point at it.
    MissingUid,
    /// A node selector has no `=`.
    SelectorWithoutEquals(String),
    /// A node selector has an empty key or value.
    SelectorEmptyPart(String),
    /// Two node selectors share a key.
    DuplicateSelectorKey(String),
    /// The workload template has no pod spec.
    TemplateMissingPodSpec,
    /// The Deployment template has no container.
    TemplateMissingContainer,
}

/// Name of the QGS DaemonSet of a resource: `<name>-qgs`.
pub fn daemonset_name(name: &str) -> (r: String)
    ensures
        r@ == name@ + "-qgs"@,
{
    String::from_str(name).concat("-qgs")
}

/// Name of the registrar Deployment of a resource: `<name>-registrar`.
pub fn deployment_name(name: &str) -> (r: String)
    ensures
        r@ == name@ + "-registrar"@,
{
    String::from_str(name).concat("-registrar")
}

/// An owner reference from a managed workload to its resource.
#[derive(Debug, Clone)]
pub struct OwnerReference {
    pub api_version: String,
    pub kind: String,
    pub name: String,
    pub uid: String,
    pub controller: Option<bool>,
    pub block_owner_deletion: Option<bool>,
}

/// Create the owner reference for workloads managed by the resource.
pub fn create_owner_reference(resource: &TdxQuoteGenerationService) -> (r: Result<
    OwnerReference,
    ControllerError,
>)
    ensures
        match resource.metadata.uid {
            None => r matches Err(ControllerError::MissingUid),
            Some(uid) => r matches Ok(o) && {
                &&& o.api_version@ == "trustedservices.intel.com/v1"@
                &&& o.kind@ == "TdxQuoteGenerationService"@
                &&& o.name@ == resource.metadata.name_any_spec()
                &&& o.uid@ == uid@
                &&& o.controller == Some(true)
                &&& o.block_owner_deletion == Some(true)
            },
        },
{
    let uid = match &resource.metadata.uid {
        Some(u) => u.clone(),
        None => return Err(ControllerError::MissingUid),
    };
    Ok(OwnerReference {
        api_version: String::from_str("trustedservices.intel.com/v1"),
        kind: String::from_str("TdxQuoteGenerationService"),
        name: resource.metadata.name_any(),
        uid,
        controller: Some(true),
        block_owner_deletion: Some(true),
    })
}

/// What goes wrong with a node selector list, over character sequences.
pub enum SelectorFault {
    WithoutEquals(Seq<char>),
    EmptyPart(Seq<char>),
    DuplicateKey(Seq<char>),
}

impl ControllerError {
    /// The selector fault this error reports, if it is one.
    pub open spec fn selector_fault(&self) -> Option<SelectorFault> {
        match self {
            ControllerError::SelectorWithoutEquals(s) => Some(SelectorFault::WithoutEquals(s@)),
            ControllerError::SelectorEmptyPart(s) => Some(SelectorFault::EmptyPart(s@)),
            ControllerError::DuplicateSelectorKey(k) => Some(SelectorFault::DuplicateKey(k@)),
            _ => None,
        }
    }
}

/// Whether some pair of `pairs` has key `k`.
pub open spec fn has_key(pairs: Seq<(Seq<char>, Seq<char>)>, k: Seq<char>) -> bool {
    exists|i: int| 0 <= i < pairs.len() && #[trigger] pairs[i].0 == k
}

/// The node selectors as trimmed key/value pairs in input order, or the first
/// fault met in that order: a selector without `=`, one with an empty key or
/// value after trimming, or a key seen before.
pub open spec fn parse_selectors_spec(sels: Seq<Seq<char>>) -> Result<
    Seq<(Seq<char>, Seq<char>)>,
    SelectorFault,
>
    decreases sels.len(),
{
    if sels.len() == 0 {
        Ok(Seq::empty())
    } else {
        match parse_selectors_spec(sels.drop_last()) {
            Err(e) => Err(e),
            Ok(pairs) => {
                let s = sels.last();
                match split_once_spec(s, '=') {
                    None => Err(SelectorFault::WithoutEquals(s)),
                    Some((k, v)) => {
                        let k = trimmed(k);
                        let v = trimmed(v);
                        if k.len() == 0 || v.len() == 0 {
                            Err(SelectorFault::EmptyPart(s))
                        } else if has_key(pairs, k) {
                            Err(SelectorFault::DuplicateKey(k))
                        } else {
                            Ok(pairs.push((k, v)))
                        }
                    },
                }
            },
        }
    }
}

/// A fault in a prefix of the selectors is the fault of the whole list.
pub proof fn lemma_selector_fault_prefix(sels: Seq<Seq<char>>, n: int)
    requires
        0 <= n <= sels.len(),
        parse_selectors_spec(sels.subrange(0, n)) is Err,
    ensures
        parse_selectors_spec(sels) == parse_selectors_spec(sels.subrange(0, n)),
    decreases sels.len() - n,
{
    if n < sels.len() {
        assert(sels.drop_last().subrange(0, n) =~= sels.subrange(0, n));
        lemma_selector_fault_prefix(sels.drop_last(), n);
    } else {
        assert(sels.subrange(0, n) =~= sels);
    }
}

/// Law: accepted node selectors form a map: one pair per selector, in order,
/// each with a non-empty key and value, and no key twice.
pub proof fn lemma_selectors_form_map(sels: Seq<Seq<char>>)
    requires
        parse_selectors_spec(sels) is Ok,
    ensures
        ({
            let pairs = parse_selectors_spec(sels)->Ok_0;
            &&& pairs.len() == sels.len()
            &&& forall|i: int| 0 <= i < pairs.len() ==> (#[trigger] pairs[i]).0.len() > 0 && pairs[i].1.len() > 0
            &&& forall|i: int, j: int| 0 <= i < j < pairs.len() ==> (#[trigger] pairs[i]).0 != (#[trigger] pairs[j]).0
        }),
    decreases sels.len(),
{
    if sels.len() > 0 {
        lemma_selectors_form_map(sels.drop_last());
        let pre = parse_selectors_spec(sels.drop_last())->Ok_0;
        let pairs = parse_selectors_spec(sels)->Ok_0;
        assert forall|i: int, j: int| 0 <= i < j < pairs.len() implies (#[trigger] pairs[i]).0 != (#[trigger] pairs[j]).0 by {
            if j == pairs.len() - 1 {
                assert(pairs[i] == pre[i]);
                assert(!has_key(pre, pairs[j].0));
            } else {
                assert(pairs[i] == pre[i]);
                assert(pairs[j] == pre[j]);
            }
        }
        assert forall|i: int| 0 <= i < pairs.len() implies (#[trigger] pairs[i]).0.len() > 0 && pairs[i].1.len() > 0 by {
            if i < pre.len() {
                assert(pairs[i] == pre[i]);
            }
        }
    }
}

/// The character views of a list of strings.
pub open spec fn views(v: Seq<String>) -> Seq<Seq<char>> {
    v.map_values(|s: String| s@)
}

/// The character views of a list of string pairs.
pub open spec fn pair_views(v: Seq<(String, String)>) -> Seq<(Seq<char>, Seq<char>)> {
    v.map_values(|p: (String, String)| (p.0@, p.1@))
}

/// Parse node selector strings in "key=value" format into key/value pairs,
/// trimmed, in input order; the keys come out distinct, so the pairs form a map.
#[verifier::loop_isolation(false)]
pub fn parse_node_selectors(node_selectors: &[String]) -> (r: Result<
    Vec<(String, String)>,
    ControllerError,
>)
    ensures
        match parse_selectors_spec(views(node_selectors@)) {
            Ok(pairs) => r matches Ok(v) && pair_views(v@) == pairs,
            Err(f) => r matches Err(e) && e.selector_fault() == Some(f),
        },
{
    let mut map: Vec<(String, String)> = Vec::new();
    let mut i: usize = 0;
    assert(views(node_selectors@.subrange(0, 0)) =~= Seq::<Seq<char>>::empty());
    assert(pair_views(map@) =~= Seq::<(Seq<char>, Seq<char>)>::empty());
    while i < node_selectors.len()
        invariant
            i <= node_selectors@.len(),
            parse_selectors_spec(views(node_selectors@.subrange(0, i as int))) == Ok::<
                Seq<(Seq<char>, Seq<char>)>,
                SelectorFault,
            >(pair_views(map@)),
        decreases node_selectors@.len() - i,
    {
        let ghost pre = views(node_selectors@.subrange(0, i as int));
        let ghost cur = views(node_selectors@.subrange(0, i + 1));
        assert(cur.drop_last() =~= pre);
        assert(cur.last() == node_selectors@[i as int]@);
        assert(views(node_selectors@).subrange(0, i + 1) =~= cur);
        let selector = &node_selectors[i];
        let (key, value) = match split_once(selector.as_str(), '=') {
            Some(kv) => kv,
            None => {
                proof {
                    lemma_selector_fault_prefix(views(node_selectors@), i + 1);
                }
                return Err(ControllerError::SelectorWithoutEquals(selector.clone()));
            },
        };
        let key = trim(key.as_str());
        let value = trim(value.as_str());
        if key.unicode_len() == 0 || value.unicode_len() == 0 {
            proof {
                lemma_selector_fault_prefix(views(node_selectors@), i + 1);
            }
            return Err(ControllerError::SelectorEmptyPart(selector.clone()));
        }
        let mut j: usize = 0;
        while j < map.len()
            invariant
                j <= map@.len(),
                forall|k: int| 0 <= k < j ==> #[trigger] map@[k].0@ != key@,
            decreases map@.len() - j,
        {
            if map[j].0 == key {
                proof {
                    assert(pair_views(map@)[j as int].0 == key@);
                    lemma_selector_fault_prefix(views(node_selectors@), i + 1);
                }
                return Err(ControllerError::DuplicateSelectorKey(key));
            }
            j = j + 1;
        }
        proof {
            if has_key(pair_views(map@), key@) {
                let k = choose|k: int| 0 <= k < pair_views(map@).len() && #[trigger] pair_views(map@)[k].0 == key@;
                assert(map@[k].0@ == key@);
            }
        }
        let ghost before = map@;
        let ghost kv = (key@, value@);
        map.push((key, value));
        proof {
            assert(pair_views(map@) =~= pair_views(before).push(kv));
        }
        i = i + 1;
    }
    assert(node_selectors@.subrange(0, node_selectors@.len() as int) =~= node_selectors@);
    Ok(map)
}


/// Whether instance `i` is the oldest: no instance was created before it, and
/// none created at the same time comes before it in the list (the first
/// element after a stable sort by creation time).
pub open spec fn is_oldest(insts: Seq<TdxQuoteGenerationService>, i: int) -> bool {
    &&& 0 <= i < insts.len()
    &&& forall|k: int|
        0 <= k < insts.len() ==> !opt_timestamp_lt(
            #[trigger] insts[k].metadata.creation_timestamp,
            insts[i].metadata.creation_timestamp,
        )
    &&& forall|k: int|
        0 <= k < i ==> opt_timestamp_lt(
            insts[i].metadata.creation_timestamp,
            #[trigger] insts[k].metadata.creation_timestamp,
        )
}

/// Only one instance is the oldest.
pub proof fn lemma_oldest_unique(insts: Seq<TdxQuoteGenerationService>, i: int, j: int)
    requires
        is_oldest(insts, i),
        is_oldest(insts, j),
    ensures
        i == j,
{
    if i < j {
        assert(opt_timestamp_lt(insts[j].metadata.creation_timestamp, insts[i].metadata.creation_timestamp));
    } else if j < i {
        assert(opt_timestamp_lt(insts[i].metadata.creation_timestamp, insts[j].metadata.creation_timestamp));
    }
}

/// Whether the instance named `name` may proceed among `insts`: it is the
/// only one, or it is the oldest.
pub open spec fn proceeds(insts: Seq<TdxQuoteGenerationService>, name: Seq<char>) -> bool {
    insts.len() <= 1 || exists|i: int| #[trigger] is_oldest(insts, i) && insts[i].metadata.name_any_spec() == name
}

/// Law: when there are several instances, at most one name may proceed.
pub proof fn lemma_one_instance_proceeds(insts: Seq<TdxQuoteGenerationService>, a: Seq<char>, b: Seq<char>)
    requires
        insts.len() > 1,
        proceeds(insts, a),
        proceeds(insts, b),
    ensures
        a == b,
{
    let i = choose|i: int| #[trigger] is_oldest(insts, i) && insts[i].metadata.name_any_spec() == a;
    let j = choose|j: int| #[trigger] is_oldest(insts, j) && insts[j].metadata.name_any_spec() == b;
    lemma_oldest_unique(insts, i, j);
}

/// The name of the oldest instance when there are several and `name` is not
/// it: this instance then stands down. `None` when it may proceed.
pub fn instance_conflict(instances: &[TdxQuoteGenerationService], name: &str) -> (r: Option<
    String,
>)
    ensures
        r is None <==> proceeds(instances@, name@),
        instances@.len() <= 1 ==> r is None,
        instances@.len() > 1 ==> exists|i: int|
            #[trigger] is_oldest(instances@, i) && match r {
                None => instances@[i].metadata.name_any_spec() == name@,
                Some(o) => instances@[i].metadata.name_any_spec() != name@ && o@
                    == instances@[i].metadata.name_any_spec(),
            },
{
    if instances.len() <= 1 {
        return None;
    }
    let mut best: usize = 0;
    let mut k: usize = 1;
    while k < instances.len()
        invariant
            instances@.len() > 1,
            best < k <= instances@.len(),
            forall|j: int|
                0 <= j < k ==> !opt_timestamp_lt(
                    #[trigger] instances@[j].metadata.creation_timestamp,
                    instances@[best as int].metadata.creation_timestamp,
                ),
            forall|j: int|
                0 <= j < best ==> opt_timestamp_lt(
                    instances@[best as int].metadata.creation_timestamp,
                    #[trigger] instances@[j].metadata.creation_timestamp,
                ),
        decreases instances@.len() - k,
    {
        if opt_timestamp_less(
            &instances[k].metadata.creation_timestamp,
            &instances[best].metadata.creation_timestamp,
        ) {
            best = k;
        }
        k = k + 1;
    }
    let oldest = instances[best].metadata.name_any();
    assert(is_oldest(instances@, best as int));
    if str_equal(oldest.as_str(), name) {
        None
    } else {
        proof {
            assert forall|i: int| #[trigger] is_oldest(instances@, i) implies instances@[i].metadata.name_any_spec() != name@ by {
                lemma_oldest_unique(instances@, i, best as int);
            }
        }
        Some(oldest)
    }
}

/// Message of the `Ready=False` condition set on an instance that stands down.
pub fn multiple_instances_message(oldest: &str) -> (r: String)
    ensures
        r@ == "Only one TdxQuoteGenerationService instance is allowed. Instance '"@ + oldest@
            + "' is active."@,
{
    String::from_str("Only one TdxQuoteGenerationService instance is allowed. Instance '").concat(
        oldest,
    ).concat("' is active.")
}

/// Whether the registration Deployment is ready: its ready replicas and
/// replicas are both known, equal, and above zero.
pub fn deployment_is_ready(ready_replicas: Option<i32>, replicas: Option<i32>) -> (r: bool)
    ensures
        r == (ready_replicas is Some && replicas is Some && ready_replicas->0 == replicas->0
            && ready_replicas->0 > 0),
{
    match (ready_replicas, replicas) {
        (Some(ready), Some(total)) => ready == total && ready > 0,
        _ => false,
    }
}

/// The DaemonSet status counts the controller reads.
#[derive(Debug, Clone, Copy)]
pub struct DaemonSetCounts {
    pub desired_number_scheduled: i32,
    pub current_number_scheduled: i32,
    pub number_ready: i32,
}

/// Whether the DaemonSet is ready: its status is known, it is meant to run on
/// some node, and it is ready on all of them.
pub open spec fn daemonset_ready_spec(ds: Option<DaemonSetCounts>) -> bool {
    match ds {
        Some(s) => s.desired_number_scheduled > 0 && s.number_ready == s.desired_number_scheduled,
        None => false,
    }
}

/// Whether the service as a whole is ready: the DaemonSet, and the registration
/// Deployment where there is one.
pub open spec fn service_ready_spec(ds: Option<DaemonSetCounts>, deployment_ready: Option<bool>) -> bool {
    daemonset_ready_spec(ds) && match deployment_ready {
        Some(b) => b,
        None => true,
    }
}

/// Law: the service is ready exactly when the DaemonSet's status is known, it
/// is meant to run on at least one node, as many of its pods are ready as are
/// desired, and the registration Deployment, where there is one, is ready. In
/// particular it is not ready while fewer pods are ready than desired, however
/// many are scheduled.
pub proof fn lemma_service_ready_iff_pods_ready(ds: Option<DaemonSetCounts>, deployment_ready: Option<bool>)
    ensures
        service_ready_spec(ds, deployment_ready) <==> (ds matches Some(s)
            && s.desired_number_scheduled > 0 && s.number_ready == s.desired_number_scheduled
            && deployment_ready != Some(false)),
        ds matches Some(s) && s.number_ready < s.desired_number_scheduled ==> !service_ready_spec(
            ds,
            deployment_ready,
        ),
{
}

/// Law: readiness depends on the desired and ready pod counts, not on the
/// number of pods merely scheduled: two DaemonSet observations that agree on
/// those counts give the same readiness.
pub proof fn lemma_readiness_ignores_scheduled_count(
    a: DaemonSetCounts,
    b: DaemonSetCounts,
    deployment_ready: Option<bool>,
)
    requires
        a.desired_number_scheduled == b.desired_number_scheduled,
        a.number_ready == b.number_ready,
    ensures
        service_ready_spec(Some(a), deployment_ready) == service_ready_spec(Some(b), deployment_ready),
{
}

/// The status fields that reconciliation writes.
#[derive(Debug, Clone)]
pub struct StatusUpdate {
    pub daemonset_name: String,
    pub desired_number_scheduled: i32,
    pub current_number_scheduled: i32,
    pub number_ready: i32,
    pub registration_deployment_name: Option<String>,
    pub registration_deployment_ready: Option<bool>,
    pub observed_generation: Option<i64>,
    /// Status of the single `Ready` condition.
    pub ready_status: ConditionStatus,
    /// Reason of the `Ready` condition.
    pub reason: String,
    /// Message of the `Ready` condition.
    pub message: String,
}

/// What reconciliation decides from what it observed.
#[derive(Debug, Clone)]
pub struct ReconcileOutcome {
    /// Whether the service is ready.
    pub is_ready: bool,
    /// The status to patch, when it differs from the recorded one.
    pub update: Option<StatusUpdate>,
    /// Seconds until the next reconciliation.
    pub requeue_secs: u64,
}

/// Reason of the `Ready` condition for a readiness.
pub open spec fn ready_reason(is_ready: bool) -> Seq<char> {
    if is_ready { "ServicesReady"@ } else { "ServicesNotReady"@ }
}

/// Message of the `Ready` condition for a readiness and a registration Deployment readiness.
pub open spec fn ready_message(is_ready: bool, deployment_ready: Option<bool>) -> Seq<char> {
    if is_ready {
        if deployment_ready is Some {
            "DaemonSet and registration Deployment are ready"@
        } else {
            "DaemonSet is ready and running on all nodes"@
        }
    } else if deployment_ready == Some(false) {
        "Registration Deployment is not yet ready"@
    } else {
        "DaemonSet is not yet ready on all nodes"@
    }
}

/// Whether the recorded status differs from the observed fields.
pub open spec fn status_fields_changed(
    recorded: Option<TdxQuoteGenerationServiceStatus>,
    daemonset_name: Seq<char>,
    counts: (i32, i32, i32),
    deployment_name: Option<Seq<char>>,
    deployment_ready: Option<bool>,
    generation: Option<i64>,
) -> bool {
    match recorded {
        None => true,
        Some(s) => {
            ||| opt_view(s.daemonset_name) != Some(daemonset_name)
            ||| s.desired_number_scheduled != counts.0
            ||| s.current_number_scheduled != counts.1
            ||| s.number_ready != counts.2
            ||| opt_view(s.registration_deployment_name) != deployment_name
            ||| s.registration_deployment_ready != deployment_ready
            ||| s.observed_generation != generation
        },
    }
}

/// Whether a condition is the `Ready` condition for a readiness.
pub open spec fn is_ready_condition_for(c: Condition, is_ready: bool) -> bool {
    &&& c.condition_type@ == "Ready"@
    &&& c.status == (if is_ready { ConditionStatus::True } else { ConditionStatus::False })
    &&& opt_view(c.reason) == Some(ready_reason(is_ready))
}

/// Whether the recorded status lacks the `Ready` condition for a readiness.
pub open spec fn ready_condition_changed(
    recorded: Option<TdxQuoteGenerationServiceStatus>,
    is_ready: bool,
) -> bool {
    match recorded {
        None => true,
        Some(s) => !exists|i: int|
            0 <= i < s.conditions@.len() && is_ready_condition_for(#[trigger] s.conditions@[i], is_ready),
    }
}

fn opt_string_eq(a: &Option<String>, b: &Option<String>) -> (r: bool)
    ensures
        r == (opt_view(*a) == opt_view(*b)),
{
    match (a, b) {
        (Some(x), Some(y)) => *x == *y,
        (None, None) => true,
        _ => false,
    }
}

fn has_ready_condition(cs: &Vec<Condition>, is_ready: bool) -> (r: bool)
    ensures
        r == exists|i: int| 0 <= i < cs@.len() && is_ready_condition_for(#[trigger] cs@[i], is_ready),
{
    let want = if is_ready { ConditionStatus::True } else { ConditionStatus::False };
    let reason = if is_ready { "ServicesReady" } else { "ServicesNotReady" };
    let mut i: usize = 0;
    while i < cs.len()
        invariant
            i <= cs@.len(),
            want == (if is_ready { ConditionStatus::True } else { ConditionStatus::False }),
            reason@ == ready_reason(is_ready),
            forall|k: int| 0 <= k < i ==> !is_ready_condition_for(#[trigger] cs@[k], is_ready),
        decreases cs@.len() - i,
    {
        let c = &cs[i];
        let reason_matches = match &c.reason {
            Some(r) => str_equal(r.as_str(), reason),
            None => false,
        };
        if str_equal(c.condition_type.as_str(), "Ready") && c.status == want && reason_matches {
            return true;
        }
        i = i + 1;
    }
    false
}

/// Seconds until the next reconciliation: longer once the service is ready.
pub open spec fn ready_requeue_secs(is_ready: bool) -> u64 {
    if is_ready { 300 } else { 10 }
}

/// The DaemonSet counts (desired, current, ready), zero when it has no status.
pub open spec fn counts_of(ds: Option<DaemonSetCounts>) -> (i32, i32, i32) {
    match ds {
        Some(s) => (s.desired_number_scheduled, s.current_number_scheduled, s.number_ready),
        None => (0i32, 0i32, 0i32),
    }
}

/// Whether the recorded status must be patched for these observations: a
/// status field differs, or the `Ready` condition for the readiness is missing.
pub open spec fn status_needs_patch(
    resource: TdxQuoteGenerationService,
    daemonset_name: Seq<char>,
    ds: Option<DaemonSetCounts>,
    deployment_name: Option<Seq<char>>,
    deployment_ready: Option<bool>,
) -> bool {
    status_fields_changed(
        resource.status,
        daemonset_name,
        counts_of(ds),
        deployment_name,
        deployment_ready,
        resource.metadata.generation,
    ) || ready_condition_changed(resource.status, service_ready_spec(ds, deployment_ready))
}

/// Whether `u` is the status patch for these observations.
pub open spec fn is_status_update(
    u: StatusUpdate,
    resource: TdxQuoteGenerationService,
    daemonset_name: Seq<char>,
    ds: Option<DaemonSetCounts>,
    deployment_name: Option<Seq<char>>,
    deployment_ready: Option<bool>,
) -> bool {
    let is_ready = service_ready_spec(ds, deployment_ready);
    &&& u.daemonset_name@ == daemonset_name
    &&& (u.desired_number_scheduled, u.current_number_scheduled, u.number_ready) == counts_of(ds)
    &&& opt_view(u.registration_deployment_name) == deployment_name
    &&& u.registration_deployment_ready == deployment_ready
    &&& u.observed_generation == resource.metadata.generation
    &&& u.ready_status == (if is_ready { ConditionStatus::True } else { ConditionStatus::False })
    &&& u.reason@ == ready_reason(is_ready)
    &&& u.message@ == ready_message(is_ready, deployment_ready)
}

/// Whether condition `c` is the `Ready` condition that status patch `u` writes.
pub open spec fn is_patched_condition(c: Condition, u: StatusUpdate) -> bool {
    &&& c.condition_type@ == "Ready"@
    &&& c.status == u.ready_status
    &&& opt_view(c.reason) == Some(u.reason@)
}

/// Whether recorded status `s` holds what status patch `u` wrote.
pub open spec fn records_update(s: TdxQuoteGenerationServiceStatus, u: StatusUpdate) -> bool {
    &&& opt_view(s.daemonset_name) == Some(u.daemonset_name@)
    &&& s.desired_number_scheduled == u.desired_number_scheduled
    &&& s.current_number_scheduled == u.current_number_scheduled
    &&& s.number_ready == u.number_ready
    &&& opt_view(s.registration_deployment_name) == opt_view(u.registration_deployment_name)
    &&& s.registration_deployment_ready == u.registration_deployment_ready
    &&& s.observed_generation == u.observed_generation
    &&& exists|i: int| 0 <= i < s.conditions@.len() && is_patched_condition(#[trigger] s.conditions@[i], u)
}

/// Law: once the status patch is recorded, reconciling the resource again
/// with the same observations patches nothing.
pub proof fn lemma_status_patch_settles(
    resource: TdxQuoteGenerationService,
    patched: TdxQuoteGenerationService,
    u: StatusUpdate,
    daemonset_name: Seq<char>,
    ds: Option<DaemonSetCounts>,
    deployment_name: Option<Seq<char>>,
    deployment_ready: Option<bool>,
)
    requires
        is_status_update(u, resource, daemonset_name, ds, deployment_name, deployment_ready),
        patched.metadata.generation == resource.metadata.generation,
        patched.status is Some,
        records_update(patched.status->0, u),
    ensures
        !status_needs_patch(patched, daemonset_name, ds, deployment_name, deployment_ready),
{
    let s = patched.status->0;
    let i = choose|i: int| 0 <= i < s.conditions@.len() && is_patched_condition(#[trigger] s.conditions@[i], u);
    assert(is_ready_condition_for(s.conditions@[i], service_ready_spec(ds, deployment_ready)));
}

/// Decide the status and the requeue from what reconciliation observed: the
/// DaemonSet's counts (absent when it has no status yet) and, in Online mode,
/// the registration Deployment's name and readiness.
pub fn decide_status(
    resource: &TdxQuoteGenerationService,
    daemonset_name: String,
    ds: Option<DaemonSetCounts>,
    deployment_name: Option<String>,
    deployment_ready: Option<bool>,
) -> (r: ReconcileOutcome)
    ensures
        r.is_ready == service_ready_spec(ds, deployment_ready),
        r.is_ready <==> (ds matches Some(s) && s.desired_number_scheduled > 0 && s.number_ready
            == s.desired_number_scheduled && deployment_ready != Some(false)),
        r.requeue_secs == ready_requeue_secs(r.is_ready),
        r.requeue_secs == (if r.is_ready { 300u64 } else { 10u64 }),
        r.update is Some <==> status_needs_patch(
            *resource,
            daemonset_name@,
            ds,
            opt_view(deployment_name),
            deployment_ready,
        ),
        r.update matches Some(u) ==> is_status_update(
            u,
            *resource,
            daemonset_name@,
            ds,
            opt_view(deployment_name),
            deployment_ready,
        ),
{
    let ds_ready = match ds {
        Some(s) => s.desired_number_scheduled > 0 && s.number_ready == s.desired_number_scheduled,
        None => false,
    };
    let is_ready = ds_ready && match deployment_ready {
        Some(b) => b,
        None => true,
    };
    let (desired, current, ready) = match ds {
        Some(s) => (s.desired_number_scheduled, s.current_number_scheduled, s.number_ready),
        None => (0i32, 0i32, 0i32),
    };
    let generation = resource.metadata.generation;
    let status_changed = match &resource.status {
        None => true,
        Some(s) => {
            let same_ds = match &s.daemonset_name {
                Some(n) => *n == daemonset_name,
                None => false,
            };
            !same_ds || s.desired_number_scheduled != desired || s.current_number_scheduled
                != current || s.number_ready != ready || !opt_string_eq(
                &s.registration_deployment_name,
                &deployment_name,
            ) || s.registration_deployment_ready != deployment_ready || s.observed_generation
                != generation
        },
    };
    let condition_changed = match &resource.status {
        None => true,
        Some(s) => !has_ready_condition(&s.conditions, is_ready),
    };
    let requeue_secs: u64 = if is_ready { 300 } else { 10 };
    if !(status_changed || condition_changed) {
        return ReconcileOutcome { is_ready, update: None, requeue_secs };
    }
    let message = if is_ready {
        if deployment_ready.is_some() {
            "DaemonSet and registration Deployment are ready"
        } else {
            "DaemonSet is ready and running on all nodes"
        }
    } else if deployment_ready == Some(false) {
        "Registration Deployment is not yet ready"
    } else {
        "DaemonSet is not yet ready on all nodes"
    };
    let update = StatusUpdate {
        daemonset_name,
        desired_number_scheduled: desired,
        current_number_scheduled: current,
        number_ready: ready,
        registration_deployment_name: deployment_name,
        registration_deployment_ready: deployment_ready,
        observed_generation: generation,
        ready_status: if is_ready { ConditionStatus::True } else { ConditionStatus::False },
        reason: String::from_str(if is_ready { "ServicesReady" } else { "ServicesNotReady" }),
        message: String::from_str(message),
    };
    ReconcileOutcome { is_ready, update: Some(update), requeue_secs }
}

/// Seconds until a failed reconciliation is retried: sooner while the
/// resource is being deleted.
pub fn error_requeue_secs(resource: &TdxQuoteGenerationService) -> (r: u64)
    ensures
        r == (if resource.metadata.deletion_timestamp is Some { 5u64 } else { 60u64 }),
{
    if resource.metadata.deletion_timestamp.is_some() {
        5
    } else {
        60
    }
}

/// Whether an API error status code is "not found".
pub fn is_not_found(code: Option<u16>) -> (r: bool)
    ensures
        r == (code == Some(404u16)),
{
    code == Some(404u16)
}

} // verus!
