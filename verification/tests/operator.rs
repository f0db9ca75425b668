use tdx_qgs::operator::controller::{
    create_owner_reference, daemonset_name, decide_status, deployment_is_ready, deployment_name,
    error_requeue_secs, instance_conflict, is_not_found, multiple_instances_message,
    parse_node_selectors, ControllerError, DaemonSetCounts,
};
use tdx_qgs::operator::finalizer::{
    finalizers_with_ours, finalizers_without_ours, has_finalizer, is_deleting, FinalizerRemoval,
    FINALIZER,
};
use tdx_qgs::operator::meta::{ObjectMeta, Timestamp};
use tdx_qgs::operator::status::{Condition, ConditionManager, ConditionStatus};
use tdx_qgs::operator::types::{
    default_platform_registration, NodeSelectorEntry, OnlineConfig, PlatformRegistration,
    TdxQuoteGenerationService, TdxQuoteGenerationServiceSpec, TdxQuoteGenerationServiceStatus,
};
use tdx_qgs::operator::reconcile::{
    initial_state, operator_namespace, reconcile_step, ReconcileAction, ReconcileEvent,
    ReconcilePhase,
};
use tdx_qgs::operator::workload::{
    daemonset_plan, deployment_plan, qgs_service_account, Container, EnvVar, PodSpec, Volume,
};

fn meta(name: &str) -> ObjectMeta {
    ObjectMeta {
        name: Some(name.to_string()),
        generate_name: None,
        uid: Some(format!("uid-{name}")),
        generation: Some(3),
        finalizers: None,
        creation_timestamp: None,
        deletion_timestamp: None,
    }
}

fn resource(name: &str, mode: PlatformRegistration) -> TdxQuoteGenerationService {
    TdxQuoteGenerationService {
        metadata: meta(name),
        spec: TdxQuoteGenerationServiceSpec { platform_registration: mode, node_selector: None },
        status: None,
    }
}

fn strings(v: &[&str]) -> Vec<String> {
    v.iter().map(|s| s.to_string()).collect()
}

#[test]
fn node_selectors_parse_in_order() {
    let pairs = parse_node_selectors(&strings(&[" zone = a ", "tdx=true"])).unwrap();
    assert_eq!(pairs, vec![("zone".to_string(), "a".to_string()), ("tdx".to_string(), "true".to_string())]);
    let pairs = parse_node_selectors(&strings(&["k=a=b"])).unwrap();
    assert_eq!(pairs, vec![("k".to_string(), "a=b".to_string())]);
    assert!(parse_node_selectors(&[]).unwrap().is_empty());
}

#[test]
fn node_selector_faults() {
    assert!(matches!(
        parse_node_selectors(&strings(&["a=1", "novalue"])),
        Err(ControllerError::SelectorWithoutEquals(s)) if s == "novalue"
    ));
    assert!(matches!(
        parse_node_selectors(&strings(&[" =1"])),
        Err(ControllerError::SelectorEmptyPart(s)) if s == " =1"
    ));
    assert!(matches!(
        parse_node_selectors(&strings(&["a= "])),
        Err(ControllerError::SelectorEmptyPart(_))
    ));
    assert!(matches!(
        parse_node_selectors(&strings(&["a=1", " a =2"])),
        Err(ControllerError::DuplicateSelectorKey(k)) if k == "a"
    ));
    // The first fault in input order is reported.
    assert!(matches!(
        parse_node_selectors(&strings(&["bad", "a=1", "a=2"])),
        Err(ControllerError::SelectorWithoutEquals(_))
    ));
}

#[test]
fn finalizer_add_then_remove() {
    let mut r = resource("q", PlatformRegistration::Offline {});
    assert!(!has_finalizer(&r));
    let added = finalizers_with_ours(&r.metadata.finalizers).unwrap();
    assert_eq!(added, vec![FINALIZER.to_string()]);
    r.metadata.finalizers = Some(added);
    assert!(has_finalizer(&r));
    assert!(finalizers_with_ours(&r.metadata.finalizers).is_none());
    assert!(matches!(finalizers_without_ours(&r.metadata.finalizers), FinalizerRemoval::Clear));

    let others = Some(strings(&["other", FINALIZER, "more", FINALIZER]));
    match finalizers_without_ours(&others) {
        FinalizerRemoval::Replace(v) => assert_eq!(v, strings(&["other", "more"])),
        _ => panic!("expected a replacement"),
    }
    assert!(matches!(finalizers_without_ours(&Some(strings(&["other"]))), FinalizerRemoval::Unchanged));
    assert!(matches!(finalizers_without_ours(&None), FinalizerRemoval::Unchanged));
    let appended = finalizers_with_ours(&Some(strings(&["other"]))).unwrap();
    assert_eq!(appended, strings(&["other", FINALIZER]));
    assert_eq!(FINALIZER, "trustedservices.intel.com/tdx_quote_generation_service-finalizer");
}

#[test]
fn deletion_state() {
    let mut r = resource("q", PlatformRegistration::Offline {});
    assert!(!is_deleting(&r));
    assert_eq!(error_requeue_secs(&r), 60);
    r.metadata.deletion_timestamp = Some(Timestamp { seconds: 10, nanos: 0 });
    assert!(is_deleting(&r));
    assert_eq!(error_requeue_secs(&r), 5);
}

#[test]
fn condition_builders() {
    let c = Condition::ready();
    assert_eq!(c.condition_type, "Ready");
    assert_eq!(c.status, ConditionStatus::True);
    assert_eq!(c.reason.as_deref(), Some("ReconcileSucceeded"));
    assert_eq!(c.message.as_deref(), Some("Resource is ready"));
    assert!(c.last_transition_time.is_some());
    let c = Condition::not_ready("Why", "What").with_observed_generation(4);
    assert_eq!((c.status, c.reason.as_deref(), c.message.as_deref()), (ConditionStatus::False, Some("Why"), Some("What")));
    assert_eq!(c.observed_generation, Some(4));
    let c = Condition::progressing("working");
    assert_eq!((c.condition_type.as_str(), c.reason.as_deref()), ("Progressing", Some("Reconciling")));
    let c = Condition::degraded("R", "M");
    assert_eq!((c.condition_type.as_str(), c.status), ("Degraded", ConditionStatus::True));
    assert_eq!(ConditionStatus::Unknown.to_string(), "Unknown");
    assert_eq!(ConditionStatus::True.to_string(), "True");
    assert_eq!(ConditionStatus::False.to_string(), "False");
}

#[test]
fn conditions_set_get_remove() {
    let mut s = TdxQuoteGenerationServiceStatus::default();
    assert!(!s.is_ready());
    assert!(s.get_condition("Ready").is_none());
    let mut first = Condition::not_ready("A", "a");
    first.last_transition_time = Some(Timestamp { seconds: 1, nanos: 0 });
    s.set_condition(first);
    assert!(!s.is_ready());
    // Same status: the transition time stays, the rest is replaced.
    let mut again = Condition::not_ready("B", "b");
    again.last_transition_time = Some(Timestamp { seconds: 2, nanos: 0 });
    s.set_condition(again);
    let got = s.get_condition("Ready").unwrap();
    assert_eq!(got.reason.as_deref(), Some("B"));
    assert_eq!(got.last_transition_time, Some(Timestamp { seconds: 1, nanos: 0 }));
    // Status change: the new transition time is taken.
    let mut ready = Condition::ready();
    ready.last_transition_time = Some(Timestamp { seconds: 3, nanos: 0 });
    s.set_condition(ready);
    assert!(s.is_ready());
    assert_eq!(s.get_condition("Ready").unwrap().last_transition_time, Some(Timestamp { seconds: 3, nanos: 0 }));
    s.set_condition(Condition::progressing("p"));
    assert_eq!(s.conditions.len(), 2);
    assert!(s.is_condition_true("Progressing"));
    s.remove_condition("Ready");
    assert!(s.get_condition("Ready").is_none());
    assert_eq!(s.conditions.len(), 1);
    assert!(!s.is_ready());
}

fn counts(desired: i32, current: i32, ready: i32) -> Option<DaemonSetCounts> {
    Some(DaemonSetCounts { desired_number_scheduled: desired, current_number_scheduled: current, number_ready: ready })
}

#[test]
fn status_decisions() {
    let r = resource("q", PlatformRegistration::Offline {});
    let out = decide_status(&r, "q-qgs".to_string(), counts(2, 2, 2), None, None);
    assert!(out.is_ready);
    assert_eq!(out.requeue_secs, 300);
    let u = out.update.unwrap();
    assert_eq!(u.daemonset_name, "q-qgs");
    assert_eq!((u.desired_number_scheduled, u.current_number_scheduled, u.number_ready), (2, 2, 2));
    assert_eq!(u.ready_status, ConditionStatus::True);
    assert_eq!(u.reason, "ServicesReady");
    assert_eq!(u.message, "DaemonSet is ready and running on all nodes");
    assert_eq!(u.observed_generation, Some(3));

    let out = decide_status(&r, "q-qgs".to_string(), counts(0, 0, 0), None, None);
    assert!(!out.is_ready);
    assert_eq!(out.requeue_secs, 10);
    assert_eq!(out.update.unwrap().message, "DaemonSet is not yet ready on all nodes");

    let out = decide_status(&r, "q-qgs".to_string(), counts(1, 1, 1), Some("q-registrar".to_string()), Some(false));
    assert!(!out.is_ready);
    let u = out.update.unwrap();
    assert_eq!(u.message, "Registration Deployment is not yet ready");
    assert_eq!(u.reason, "ServicesNotReady");
    let out = decide_status(&r, "q-qgs".to_string(), counts(1, 1, 1), Some("q-registrar".to_string()), Some(true));
    assert!(out.is_ready);
    assert_eq!(out.update.unwrap().message, "DaemonSet and registration Deployment are ready");
    assert!(!decide_status(&r, "q-qgs".to_string(), None, None, None).is_ready);
}

#[test]
fn unchanged_status_is_not_patched() {
    let mut r = resource("q", PlatformRegistration::Offline {});
    let mut st = TdxQuoteGenerationServiceStatus::default();
    st.daemonset_name = Some("q-qgs".to_string());
    st.desired_number_scheduled = 2;
    st.current_number_scheduled = 2;
    st.number_ready = 2;
    st.observed_generation = Some(3);
    st.set_condition(Condition::new("Ready", ConditionStatus::True).with_reason("ServicesReady"));
    r.status = Some(st);
    let out = decide_status(&r, "q-qgs".to_string(), counts(2, 2, 2), None, None);
    assert!(out.is_ready);
    assert!(out.update.is_none());
    // A count change is patched.
    assert!(decide_status(&r, "q-qgs".to_string(), counts(2, 2, 1), None, None).update.is_some());
}

#[test]
fn readiness_helpers() {
    assert!(deployment_is_ready(Some(1), Some(1)));
    assert!(!deployment_is_ready(Some(0), Some(0)));
    assert!(!deployment_is_ready(Some(1), Some(2)));
    assert!(!deployment_is_ready(None, Some(1)));
    assert!(is_not_found(Some(404)));
    assert!(!is_not_found(Some(409)));
    assert!(!is_not_found(None));
    assert!(matches!(default_platform_registration(), PlatformRegistration::Offline {}));
    assert_eq!(daemonset_name("q"), "q-qgs");
    assert_eq!(deployment_name("q"), "q-registrar");
}

#[test]
fn oldest_instance_wins() {
    let mut a = resource("a", PlatformRegistration::Offline {});
    a.metadata.creation_timestamp = Some(Timestamp { seconds: 20, nanos: 0 });
    let mut b = resource("b", PlatformRegistration::Offline {});
    b.metadata.creation_timestamp = Some(Timestamp { seconds: 10, nanos: 5 });
    let mut c = resource("c", PlatformRegistration::Offline {});
    c.metadata.creation_timestamp = Some(Timestamp { seconds: 10, nanos: 5 });
    let all = vec![a.clone(), b.clone(), c.clone()];
    assert_eq!(instance_conflict(&all, "a").as_deref(), Some("b"));
    assert_eq!(instance_conflict(&all, "c").as_deref(), Some("b"));
    assert_eq!(instance_conflict(&all, "b"), None);
    assert_eq!(instance_conflict(&[a.clone()], "zzz"), None);
    assert_eq!(instance_conflict(&[], "a"), None);
    assert_eq!(
        multiple_instances_message("b"),
        "Only one TdxQuoteGenerationService instance is allowed. Instance 'b' is active."
    );
}

#[test]
fn owner_reference_needs_uid() {
    let r = resource("q", PlatformRegistration::Offline {});
    let o = create_owner_reference(&r).unwrap();
    assert_eq!(o.api_version, "trustedservices.intel.com/v1");
    assert_eq!(o.kind, "TdxQuoteGenerationService");
    assert_eq!((o.name.as_str(), o.uid.as_str()), ("q", "uid-q"));
    assert_eq!((o.controller, o.block_owner_deletion), (Some(true), Some(true)));
    let mut r2 = r.clone();
    r2.metadata.uid = None;
    assert!(matches!(create_owner_reference(&r2), Err(ControllerError::MissingUid)));
}

fn container(name: &str, origin: usize) -> Container {
    Container { name: name.to_string(), image: Some("old".to_string()), env: None, origin }
}

fn template() -> PodSpec {
    PodSpec {
        service_account_name: None,
        containers: vec![container("qgs", 0)],
        init_containers: Some(vec![container("platform-registration", 0), container("init", 1)]),
        volumes: Some(vec![Volume { name: "efivars".to_string(), origin: 0 }, Volume { name: "cache".to_string(), origin: 1 }]),
        node_selector: None,
    }
}

#[test]
fn daemonset_plan_external_mode() {
    let mut r = resource("q", PlatformRegistration::External {});
    r.spec.node_selector = Some(vec![NodeSelectorEntry("tdx = yes".to_string())]);
    let plan = daemonset_plan(&r, "ns", Some(template()), "sa".to_string(), Some("img:1".to_string())).unwrap();
    assert_eq!(plan.name, "q-qgs");
    assert_eq!(plan.namespace, "ns");
    assert_eq!(plan.pod.service_account_name.as_deref(), Some("sa"));
    let inits: Vec<&str> = plan.pod.init_containers.as_ref().unwrap().iter().map(|c| c.name.as_str()).collect();
    assert_eq!(inits, vec!["init"]);
    assert_eq!(plan.pod.init_containers.as_ref().unwrap()[0].image.as_deref(), Some("img:1"));
    let vols: Vec<&str> = plan.pod.volumes.as_ref().unwrap().iter().map(|v| v.name.as_str()).collect();
    assert_eq!(vols, vec!["cache"]);
    assert_eq!(plan.pod.containers[0].image.as_deref(), Some("img:1"));
    assert_eq!(plan.pod.node_selector, Some(vec![("tdx".to_string(), "yes".to_string())]));
}

#[test]
fn daemonset_plan_offline_mode_keeps_template() {
    let r = resource("q", PlatformRegistration::Offline {});
    let plan = daemonset_plan(&r, "ns", Some(template()), "sa".to_string(), None).unwrap();
    assert_eq!(plan.pod.init_containers.as_ref().unwrap().len(), 2);
    assert_eq!(plan.pod.volumes.as_ref().unwrap().len(), 2);
    assert_eq!(plan.pod.containers[0].image.as_deref(), Some("old"));
    assert!(plan.pod.node_selector.is_none());
    assert!(matches!(
        daemonset_plan(&r, "ns", None, "sa".to_string(), None),
        Err(ControllerError::TemplateMissingPodSpec)
    ));
    let mut bad = r.clone();
    bad.spec.node_selector = Some(vec![NodeSelectorEntry("nope".to_string())]);
    assert!(matches!(
        daemonset_plan(&bad, "ns", Some(template()), "sa".to_string(), None),
        Err(ControllerError::SelectorWithoutEquals(_))
    ));
}

#[test]
fn deployment_plan_online_mode() {
    let r = resource(
        "q",
        PlatformRegistration::Online(OnlineConfig { api_key_secret_name: Some("pcs-key".to_string()) }),
    );
    let mut t = template();
    t.containers[0].env = Some(vec![EnvVar {
        name: "HTTPS_PROXY".to_string(),
        value: Some("http://kept".to_string()),
        secret_key_ref: None,
        origin: Some(0),
    }]);
    let plan = deployment_plan(
        &r,
        "ns",
        Some(t),
        "sa".to_string(),
        Some("img:2".to_string()),
        Some("http://ignored".to_string()),
        Some("http://lower".to_string()),
    )
    .unwrap();
    assert_eq!(plan.name, "q-registrar");
    let c = &plan.pod.containers[0];
    assert_eq!(c.image.as_deref(), Some("img:2"));
    let env = c.env.as_ref().unwrap();
    let names: Vec<&str> = env.iter().map(|e| e.name.as_str()).collect();
    assert_eq!(names, vec!["HTTPS_PROXY", "INTEL_PCS_API_KEY", "https_proxy"]);
    assert_eq!(env[0].value.as_deref(), Some("http://kept"));
    let key = env[1].secret_key_ref.as_ref().unwrap();
    assert_eq!((key.name.as_str(), key.key.as_str(), key.optional), ("pcs-key", "api-key", Some(true)));
    assert_eq!(env[2].value.as_deref(), Some("http://lower"));
    let mut empty = template();
    empty.containers.clear();
    assert!(matches!(
        deployment_plan(&r, "ns", Some(empty), "sa".to_string(), None, None, None),
        Err(ControllerError::TemplateMissingContainer)
    ));
}

#[test]
fn reconcile_online_resource() {
    let r = resource("q", PlatformRegistration::Online(OnlineConfig { api_key_secret_name: None }));
    let (s, a) = reconcile_step(&r, initial_state(), ReconcileEvent::Begin);
    assert!(matches!(a, ReconcileAction::ListInstances));
    let (s, a) = reconcile_step(&r, s, ReconcileEvent::InstancesListed(vec![r.clone()]));
    assert!(matches!(a, ReconcileAction::ApplyDaemonSet));
    let (s, a) = reconcile_step(&r, s, ReconcileEvent::DaemonSetApplied("q-qgs".to_string()));
    assert!(matches!(a, ReconcileAction::ApplyDeployment));
    let (s, a) = reconcile_step(&r, s, ReconcileEvent::DeploymentApplied("q-registrar".to_string()));
    assert!(matches!(&a, ReconcileAction::ReadDeployment(n) if n == "q-registrar"));
    let (s, a) = reconcile_step(&r, s, ReconcileEvent::DeploymentRead(Some((Some(1), Some(1)))));
    assert!(matches!(&a, ReconcileAction::ReadDaemonSet(n) if n == "q-qgs"));
    let (s, a) = reconcile_step(&r, s, ReconcileEvent::DaemonSetRead(counts(3, 3, 3)));
    match &a {
        ReconcileAction::PatchStatus(u) => {
            assert_eq!(u.registration_deployment_name.as_deref(), Some("q-registrar"));
            assert_eq!(u.registration_deployment_ready, Some(true));
            assert_eq!(u.message, "DaemonSet and registration Deployment are ready");
        },
        other => panic!("unexpected {other:?}"),
    }
    let (s, a) = reconcile_step(&r, s, ReconcileEvent::StatusPatched);
    assert_eq!(s.phase, ReconcilePhase::Done);
    assert!(matches!(a, ReconcileAction::Requeue(300)));
}

#[test]
fn reconcile_offline_resource_not_ready() {
    let r = resource("q", PlatformRegistration::Offline {});
    let (s, _) = reconcile_step(&r, initial_state(), ReconcileEvent::Begin);
    let (s, _) = reconcile_step(&r, s, ReconcileEvent::InstancesListed(vec![]));
    let (s, a) = reconcile_step(&r, s, ReconcileEvent::DaemonSetApplied("q-qgs".to_string()));
    assert!(matches!(a, ReconcileAction::DeleteDeployment));
    let (s, a) = reconcile_step(&r, s, ReconcileEvent::DeploymentDeleted);
    assert!(matches!(&a, ReconcileAction::ReadDaemonSet(n) if n == "q-qgs"));
    let (s, a) = reconcile_step(&r, s, ReconcileEvent::DaemonSetRead(None));
    assert!(matches!(&a, ReconcileAction::PatchStatus(u) if u.reason == "ServicesNotReady"));
    let (_, a) = reconcile_step(&r, s, ReconcileEvent::StatusPatched);
    assert!(matches!(a, ReconcileAction::Requeue(10)));
}

#[test]
fn reconcile_stands_down_for_older_instance() {
    let mut me = resource("b", PlatformRegistration::Offline {});
    me.metadata.creation_timestamp = Some(Timestamp { seconds: 50, nanos: 0 });
    let mut older = resource("a", PlatformRegistration::Offline {});
    older.metadata.creation_timestamp = Some(Timestamp { seconds: 10, nanos: 0 });
    let (s, _) = reconcile_step(&me, initial_state(), ReconcileEvent::Begin);
    let (s, a) = reconcile_step(&me, s, ReconcileEvent::InstancesListed(vec![me.clone(), older]));
    match &a {
        ReconcileAction::PatchCondition(c) => {
            assert_eq!(c.condition_type, "Ready");
            assert_eq!(c.status, ConditionStatus::False);
            assert_eq!(c.reason, "MultipleInstances");
            assert_eq!(c.message, "Only one TdxQuoteGenerationService instance is allowed. Instance 'a' is active.");
            assert_eq!(c.observed_generation, Some(3));
        },
        other => panic!("unexpected {other:?}"),
    }
    let (s, a) = reconcile_step(&me, s, ReconcileEvent::StatusPatched);
    assert_eq!(s.phase, ReconcilePhase::Done);
    assert!(matches!(a, ReconcileAction::Requeue(300)));
    let (s2, a) = reconcile_step(&me, s, ReconcileEvent::Begin);
    assert_eq!(s2.phase, ReconcilePhase::Done);
    assert!(matches!(a, ReconcileAction::OutOfOrder));
}

#[test]
fn environment_defaults() {
    assert_eq!(operator_namespace(None), "default");
    assert_eq!(operator_namespace(Some("tdx".to_string())), "tdx");
    assert_eq!(qgs_service_account(None), "intel-tdx-dcap-qgs");
    assert_eq!(qgs_service_account(Some("sa".to_string())), "sa");
}

#[test]
fn condition_stamped_with_given_time() {
    let t = Timestamp { seconds: 1_700_000_000, nanos: 42 };
    let c = Condition::new_at("Ready", ConditionStatus::Unknown, t);
    assert_eq!(c.condition_type, "Ready");
    assert_eq!(c.status, ConditionStatus::Unknown);
    assert_eq!(c.last_transition_time, Some(t));
    assert!(c.reason.is_none() && c.message.is_none() && c.observed_generation.is_none());
    let now = Condition::new("Ready", ConditionStatus::True).last_transition_time.unwrap();
    assert!(now.seconds > 1_600_000_000 && now.nanos < 1_000_000_000);
}
