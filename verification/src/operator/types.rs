use vstd::prelude::*;
use crate::operator::meta::ObjectMeta;
use crate::operator::status::{Condition, ConditionManager};

verus! {

/// Online mode configuration.
#[derive(Debug, Clone, PartialEq)]
pub struct OnlineConfig {
    /// Optional secret name containing the Intel API key
    pub api_key_secret_name: Option<String>,
}

/// Platform registration mode.
#[derive(Debug, Clone, PartialEq)]
pub enum PlatformRegistration {
    /// Online registration with Intel PCS (requires Deployment)
    Online(OnlineConfig),
    /// Offline registration (no Deployment created, platform-registration initContainer runs)
    Offline {},
    /// External registration (no Deployment, no initContainer: PCK Certificate secrets and
    /// platform registration are managed externally)
    External {},
}

/// The registration mode used when the specification names none.
pub fn default_platform_registration() -> (r: PlatformRegistration)
    ensures
        r is Offline,
{
    PlatformRegistration::Offline {  }
}

/// A single node selector entry in "key=value" format.
#[derive(Debug, Clone, PartialEq)]
pub struct NodeSelectorEntry(pub String);

/// TdxQuoteGenerationService specification.
#[derive(Debug, Clone)]
pub struct TdxQuoteGenerationServiceSpec {
    /// Platform registration mode
    pub platform_registration: PlatformRegistration,
    /// Node selector labels in "key=value" format to target specific nodes
    pub node_selector: Option<Vec<NodeSelectorEntry>>,
}

/// TdxQuoteGenerationService status.
#[derive(Debug, Clone)]
pub struct TdxQuoteGenerationServiceStatus {
    /// Name of the managed DaemonSet
    pub daemonset_name: Option<String>,
    /// Number of nodes that should be running the daemon pod
    pub desired_number_scheduled: i32,
    /// Number of nodes that are running at least one daemon pod and are supposed to
    pub current_number_scheduled: i32,
    /// Number of nodes that should be running the daemon pod and have one or more running and ready
    pub number_ready: i32,
    /// Name of the platform registration Deployment (only when Online mode)
    pub registration_deployment_name: Option<String>,
    /// Whether the registration deployment is ready (only when Online mode)
    pub registration_deployment_ready: Option<bool>,
    /// Status conditions following Kubernetes conventions
    pub conditions: Vec<Condition>,
    /// The generation most recently observed by the controller
    pub observed_generation: Option<i64>,
}

impl Default for TdxQuoteGenerationServiceStatus {
    fn default() -> (r: Self)
        ensures
            r.daemonset_name is None,
            r.desired_number_scheduled == 0,
            r.current_number_scheduled == 0,
            r.number_ready == 0,
            r.registration_deployment_name is None,
            r.registration_deployment_ready is None,
            r.conditions@.len() == 0,
            r.observed_generation is None,
    {
        TdxQuoteGenerationServiceStatus {
            daemonset_name: None,
            desired_number_scheduled: 0,
            current_number_scheduled: 0,
            number_ready: 0,
            registration_deployment_name: None,
            registration_deployment_ready: None,
            conditions: Vec::new(),
            observed_generation: None,
        }
    }
}

impl ConditionManager for TdxQuoteGenerationServiceStatus {
    open spec fn conditions_spec(&self) -> Seq<Condition> {
        self.conditions@
    }

    fn conditions(&self) -> (r: &[Condition]) {
        self.conditions.as_slice()
    }

    fn conditions_mut(&mut self) -> (r: &mut Vec<Condition>) {
        &mut self.conditions
    }
}

/// A TdxQuoteGenerationService resource: its metadata, specification and status.
#[derive(Debug, Clone)]
pub struct TdxQuoteGenerationService {
    pub metadata: ObjectMeta,
    pub spec: TdxQuoteGenerationServiceSpec,
    pub status: Option<TdxQuoteGenerationServiceStatus>,
}

} // verus!
