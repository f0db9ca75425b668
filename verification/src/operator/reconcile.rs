//! The steps of reconciling a resource, as a state machine: each step takes
//! what the last action observed and gives the next action to perform.
use vstd::prelude::*;
use crate::operator::controller::{
    DaemonSetCounts, StatusUpdate, decide_status, deployment_is_ready,
    instance_conflict, is_oldest, is_status_update, proceeds, multiple_instances_message,
    ready_requeue_secs, service_ready_spec, status_needs_patch,
};
use crate::operator::status::{ConditionStatus, opt_view};
use crate::operator::types::{PlatformRegistration, TdxQuoteGenerationService};

verus! {

/// Seconds until a reconciliation that finished normally runs again.
pub const DEFAULT_REQUEUE_SECS: u64 = 300;

/// Where a reconciliation stands: the action it waits on.
#[derive(Debug, Clone, Copy, PartialEq, Eq, Structural)]
pub enum ReconcilePhase {
    /// Nothing done yet.
    Start,
    /// Waiting for the list of all instances.
    ListingInstances,
    /// Another instance is active; waiting for this one's status patch.
    StandingDown,
    /// Waiting for the DaemonSet to be applied.
    ApplyingDaemonSet,
    /// Waiting for the registration Deployment to be applied (Online mode).
    ApplyingDeployment,
    /// Waiting for the registration Deployment's status.
    ReadingDeployment,
    /// Waiting for a registration Deployment to be deleted (other modes).
    DeletingDeployment,
    /// Waiting for the DaemonSet's status.
    ReadingDaemonSet,
    /// Waiting for the status patch.
    PatchingStatus,
    /// Finished.
    Done,
}

/// The state of a reconciliation: its phase and what it has learned.
#[derive(Debug, Clone)]
pub struct ReconcileState {
    pub phase: ReconcilePhase,
    /// Name of the applied DaemonSet.
    pub daemonset_name: Option<String>,
    /// Name of the applied registration Deployment (Online mode).
    pub deployment_name: Option<String>,
    /// Whether the registration Deployment is ready (Online mode).
    pub deployment_ready: Option<bool>,
    /// Seconds until the next reconciliation, once decided.
    pub requeue_secs: u64,
}

/// What the last action observed.
#[derive(Debug)]
pub enum ReconcileEvent {
    /// Reconciliation begins.
    Begin,
    /// All instances of the resource kind, in the order listed.
    InstancesListed(Vec<TdxQuoteGenerationService>),
    /// The DaemonSet was applied under this name.
    DaemonSetApplied(String),
    /// The registration Deployment was applied under this name.
    DeploymentApplied(String),
    /// The registration Deployment's ready replicas and replicas (each absent
    /// when its status lacks it), or `None` when reading it failed.
    DeploymentRead(Option<(Option<i32>, Option<i32>)>),
    /// The registration Deployment is gone (deleted, or there was none).
    DeploymentDeleted,
    /// The DaemonSet's counts, absent when it has no status yet.
    DaemonSetRead(Option<DaemonSetCounts>),
    /// The status patch was applied.
    StatusPatched,
}

/// A condition to patch into the status, with the observed generation.
#[derive(Debug, Clone)]
pub struct ConditionPatch {
    pub condition_type: String,
    pub status: ConditionStatus,
    pub reason: String,
    pub message: String,
    pub observed_generation: Option<i64>,
}

/// The next action to perform.
#[derive(Debug)]
pub enum ReconcileAction {
    /// List all instances of the resource kind.
    ListInstances,
    /// Patch this condition into the status.
    PatchCondition(ConditionPatch),
    /// Apply the DaemonSet (see `daemonset_plan`).
    ApplyDaemonSet,
    /// Apply the registration Deployment (see `deployment_plan`).
    ApplyDeployment,
    /// Read the status of the Deployment of this name.
    ReadDeployment(String),
    /// Delete the registration Deployment if it exists.
    DeleteDeployment,
    /// Read the status of the DaemonSet of this name.
    ReadDaemonSet(String),
    /// Patch the status with these fields and `Ready` condition.
    PatchStatus(StatusUpdate),
    /// Finish, and reconcile again after this many seconds.
    Requeue(u64),
    /// The event does not answer the action the phase waits on; the state is
    /// left as it was.
    OutOfOrder,
}

/// The namespace the operator manages its workloads in: the value of
/// `OPERATOR_NAMESPACE` when it is set, else `default`.
pub fn operator_namespace(env_value: Option<String>) -> (r: String)
    ensures
        match env_value {
            Some(v) => r@ == v@,
            None => r@ == "default"@,
        },
{
    match env_value {
        Some(v) => v,
        None => String::from_str("default"),
    }
}

/// The state a reconciliation starts from.
pub fn initial_state() -> (r: ReconcileState)
    ensures
        r.phase == ReconcilePhase::Start,
        r.daemonset_name is None,
        r.deployment_name is None,
        r.deployment_ready is None,
        r.requeue_secs == DEFAULT_REQUEUE_SECS,
{
    ReconcileState {
        phase: ReconcilePhase::Start,
        daemonset_name: None,
        deployment_name: None,
        deployment_ready: None,
        requeue_secs: DEFAULT_REQUEUE_SECS,
    }
}

/// Whether the registration Deployment counts as ready from what reading it
/// gave: a failed read counts as not ready.
pub open spec fn deployment_read_ready(read: Option<(Option<i32>, Option<i32>)>) -> bool {
    match read {
        Some((ready, total)) => ready is Some && total is Some && ready->0 == total->0 && ready->0 > 0,
        None => false,
    }
}

/// Law: a read registration Deployment counts as ready exactly when its ready
/// replicas and replicas are both known, equal and above zero; one with no
/// ready replica (the count absent or zero), or a failed read, counts as not
/// ready.
pub proof fn lemma_deployment_read_ready(read: Option<(Option<i32>, Option<i32>)>)
    ensures
        deployment_read_ready(read) <==> (read matches Some((Some(r), Some(t))) && r > 0 && r
            == t),
        read matches Some((r, _)) && (r is None || r == Some(0i32)) ==> !deployment_read_ready(
            read,
        ),
        read is None ==> !deployment_read_ready(read),
{
}

/// The name of the DaemonSet the state records, empty when none.
pub open spec fn recorded_daemonset(s: ReconcileState) -> Seq<char> {
    match s.daemonset_name {
        Some(n) => n@,
        None => Seq::empty(),
    }
}

/// Whether state `s2` is `s` in phase `p`, with nothing else changed.
pub open spec fn moved_to(s2: ReconcileState, s: ReconcileState, p: ReconcilePhase) -> bool {
    s2 == (ReconcileState { phase: p, ..s })
}

/// One step of reconciling `resource`: from the state and what the last
/// action observed, the next state and action.
///
/// Begin by listing all instances. When there are several and this one is
/// not the oldest, patch `Ready=False` with reason `MultipleInstances` and
/// finish. Otherwise apply the DaemonSet; in Online mode apply the
/// registration Deployment and read its readiness, in the other modes delete
/// it; then read the DaemonSet, patch the status when it changed, and requeue
/// (300 s when ready, 10 s when not).
pub fn reconcile_step(resource: &TdxQuoteGenerationService, state: ReconcileState, event: ReconcileEvent) -> (r: (
    ReconcileState,
    ReconcileAction,
))
    ensures
        ({
            let (s2, a) = r;
            let name = resource.metadata.name_any_spec();
            match (state.phase, event) {
                (ReconcilePhase::Start, ReconcileEvent::Begin) => moved_to(
                    s2,
                    state,
                    ReconcilePhase::ListingInstances,
                ) && a is ListInstances,
                (ReconcilePhase::ListingInstances, ReconcileEvent::InstancesListed(insts)) => {
                    if !proceeds(insts@, name) {
                        &&& moved_to(s2, state, ReconcilePhase::StandingDown)
                        &&& a matches ReconcileAction::PatchCondition(c)
                        &&& c.condition_type@ == "Ready"@
                        &&& c.status == ConditionStatus::False
                        &&& c.reason@ == "MultipleInstances"@
                        &&& exists|i: int|
                            #[trigger] is_oldest(insts@, i) && c.message@
                                == "Only one TdxQuoteGenerationService instance is allowed. Instance '"@
                                + insts@[i].metadata.name_any_spec() + "' is active."@
                        &&& c.observed_generation == resource.metadata.generation
                    } else {
                        moved_to(s2, state, ReconcilePhase::ApplyingDaemonSet) && a is ApplyDaemonSet
                    }
                },
                (ReconcilePhase::StandingDown, ReconcileEvent::StatusPatched) => moved_to(
                    s2,
                    state,
                    ReconcilePhase::Done,
                ) && a == ReconcileAction::Requeue(DEFAULT_REQUEUE_SECS),
                (ReconcilePhase::ApplyingDaemonSet, ReconcileEvent::DaemonSetApplied(n)) => {
                    &&& s2.daemonset_name == Some(n)
                    &&& s2.requeue_secs == state.requeue_secs
                    &&& if resource.spec.platform_registration is Online {
                        &&& s2.phase == ReconcilePhase::ApplyingDeployment
                        &&& s2.deployment_name == state.deployment_name
                        &&& s2.deployment_ready == state.deployment_ready
                        &&& a is ApplyDeployment
                    } else {
                        &&& s2.phase == ReconcilePhase::DeletingDeployment
                        &&& s2.deployment_name is None
                        &&& s2.deployment_ready is None
                        &&& a is DeleteDeployment
                    }
                },
                (ReconcilePhase::ApplyingDeployment, ReconcileEvent::DeploymentApplied(n)) => {
                    &&& s2 == (ReconcileState {
                        phase: ReconcilePhase::ReadingDeployment,
                        deployment_name: Some(n),
                        ..state
                    })
                    &&& a matches ReconcileAction::ReadDeployment(d) && d@ == n@
                },
                (ReconcilePhase::ReadingDeployment, ReconcileEvent::DeploymentRead(read)) => {
                    &&& s2 == (ReconcileState {
                        phase: ReconcilePhase::ReadingDaemonSet,
                        deployment_ready: Some(deployment_read_ready(read)),
                        ..state
                    })
                    &&& (s2.deployment_ready == Some(true)) <==> (read matches Some(
                        (Some(r), Some(t)),
                    ) && r > 0 && r == t)
                    &&& a matches ReconcileAction::ReadDaemonSet(d) && d@ == recorded_daemonset(state)
                },
                (ReconcilePhase::DeletingDeployment, ReconcileEvent::DeploymentDeleted) => {
                    &&& moved_to(s2, state, ReconcilePhase::ReadingDaemonSet)
                    &&& a matches ReconcileAction::ReadDaemonSet(d) && d@ == recorded_daemonset(state)
                },
                (ReconcilePhase::ReadingDaemonSet, ReconcileEvent::DaemonSetRead(ds)) => {
                    let dsn = recorded_daemonset(state);
                    let ready = service_ready_spec(ds, state.deployment_ready);
                    let requeue = ready_requeue_secs(ready);
                    if status_needs_patch(
                        *resource,
                        dsn,
                        ds,
                        opt_view(state.deployment_name),
                        state.deployment_ready,
                    ) {
                        &&& s2 == (ReconcileState {
                            phase: ReconcilePhase::PatchingStatus,
                            requeue_secs: requeue,
                            ..state
                        })
                        &&& a matches ReconcileAction::PatchStatus(u) && is_status_update(
                            u,
                            *resource,
                            dsn,
                            ds,
                            opt_view(state.deployment_name),
                            state.deployment_ready,
                        )
                    } else {
                        &&& s2 == (ReconcileState {
                            phase: ReconcilePhase::Done,
                            requeue_secs: requeue,
                            ..state
                        })
                        &&& a == ReconcileAction::Requeue(requeue)
                    }
                },
                (ReconcilePhase::PatchingStatus, ReconcileEvent::StatusPatched) => moved_to(
                    s2,
                    state,
                    ReconcilePhase::Done,
                ) && a == ReconcileAction::Requeue(state.requeue_secs),
                _ => s2 == state && a is OutOfOrder,
            }
        }),
{
    let name = resource.metadata.name_any();
    match (state.phase, event) {
        (ReconcilePhase::Start, ReconcileEvent::Begin) => {
            (ReconcileState { phase: ReconcilePhase::ListingInstances, ..state }, ReconcileAction::ListInstances)
        },
        (ReconcilePhase::ListingInstances, ReconcileEvent::InstancesListed(insts)) => {
            match instance_conflict(insts.as_slice(), name.as_str()) {
                Some(oldest) => {
                    let patch = ConditionPatch {
                        condition_type: String::from_str("Ready"),
                        status: ConditionStatus::False,
                        reason: String::from_str("MultipleInstances"),
                        message: multiple_instances_message(oldest.as_str()),
                        observed_generation: resource.metadata.generation,
                    };
                    (
                        ReconcileState { phase: ReconcilePhase::StandingDown, ..state },
                        ReconcileAction::PatchCondition(patch),
                    )
                },
                None => (
                    ReconcileState { phase: ReconcilePhase::ApplyingDaemonSet, ..state },
                    ReconcileAction::ApplyDaemonSet,
                ),
            }
        },
        (ReconcilePhase::StandingDown, ReconcileEvent::StatusPatched) => (
            ReconcileState { phase: ReconcilePhase::Done, ..state },
            ReconcileAction::Requeue(DEFAULT_REQUEUE_SECS),
        ),
        (ReconcilePhase::ApplyingDaemonSet, ReconcileEvent::DaemonSetApplied(n)) => {
            match resource.spec.platform_registration {
                PlatformRegistration::Online(_) => (
                    ReconcileState {
                        phase: ReconcilePhase::ApplyingDeployment,
                        daemonset_name: Some(n),
                        ..state
                    },
                    ReconcileAction::ApplyDeployment,
                ),
                _ => (
                    ReconcileState {
                        phase: ReconcilePhase::DeletingDeployment,
                        daemonset_name: Some(n),
                        deployment_name: None,
                        deployment_ready: None,
                        requeue_secs: state.requeue_secs,
                    },
                    ReconcileAction::DeleteDeployment,
                ),
            }
        },
        (ReconcilePhase::ApplyingDeployment, ReconcileEvent::DeploymentApplied(n)) => {
            let read = n.clone();
            (
                ReconcileState {
                    phase: ReconcilePhase::ReadingDeployment,
                    deployment_name: Some(n),
                    ..state
                },
                ReconcileAction::ReadDeployment(read),
            )
        },
        (ReconcilePhase::ReadingDeployment, ReconcileEvent::DeploymentRead(read)) => {
            let ready = match read {
                Some((r, t)) => deployment_is_ready(r, t),
                None => false,
            };
            let ds = match &state.daemonset_name {
                Some(d) => d.clone(),
                None => String::new(),
            };
            (
                ReconcileState {
                    phase: ReconcilePhase::ReadingDaemonSet,
                    deployment_ready: Some(ready),
                    ..state
                },
                ReconcileAction::ReadDaemonSet(ds),
            )
        },
        (ReconcilePhase::DeletingDeployment, ReconcileEvent::DeploymentDeleted) => {
            let ds = match &state.daemonset_name {
                Some(d) => d.clone(),
                None => String::new(),
            };
            (ReconcileState { phase: ReconcilePhase::ReadingDaemonSet, ..state }, ReconcileAction::ReadDaemonSet(ds))
        },
        (ReconcilePhase::ReadingDaemonSet, ReconcileEvent::DaemonSetRead(ds)) => {
            let dsn = match &state.daemonset_name {
                Some(d) => d.clone(),
                None => String::new(),
            };
            let dep_name = match &state.deployment_name {
                Some(d) => Some(d.clone()),
                None => None,
            };
            let outcome = decide_status(resource, dsn, ds, dep_name, state.deployment_ready);
            match outcome.update {
                Some(u) => (
                    ReconcileState {
                        phase: ReconcilePhase::PatchingStatus,
                        requeue_secs: outcome.requeue_secs,
                        ..state
                    },
                    ReconcileAction::PatchStatus(u),
                ),
                None => (
                    ReconcileState { phase: ReconcilePhase::Done, requeue_secs: outcome.requeue_secs, ..state },
                    ReconcileAction::Requeue(outcome.requeue_secs),
                ),
            }
        },
        (ReconcilePhase::PatchingStatus, ReconcileEvent::StatusPatched) => {
            let secs = state.requeue_secs;
            (ReconcileState { phase: ReconcilePhase::Done, ..state }, ReconcileAction::Requeue(secs))
        },
        _ => (state, ReconcileAction::OutOfOrder),
    }
}

} // verus!
