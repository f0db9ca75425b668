use vstd::prelude::*;
use crate::operator::controller::{
    ControllerError, OwnerReference, create_owner_reference, daemonset_name, deployment_name,
    pair_views, parse_node_selectors, parse_selectors_spec, views, SelectorFault,
};
use crate::operator::status::opt_view;
use crate::operator::types::{PlatformRegistration, TdxQuoteGenerationService};
use crate::text::str_equal;

verus! {

/// A reference to a key of a Secret, as an environment variable's source.
#[derive(Debug, Clone)]
pub struct SecretKeySelector {
    pub name: String,
    pub key: String,
    pub optional: Option<bool>,
}

pub struct SecretKeySelectorView {
    pub name: Seq<char>,
    pub key: Seq<char>,
    pub optional: Option<bool>,
}

impl View for SecretKeySelector {
    type V = SecretKeySelectorView;

    open spec fn view(&self) -> SecretKeySelectorView {
        SecretKeySelectorView { name: self.name@, key: self.key@, optional: self.optional }
    }
}

/// An environment variable of a container. `origin` is the position of the
/// template's variable that this one keeps unchanged; a variable set by the
/// controller has none.
#[derive(Debug, Clone)]
pub struct EnvVar {
    pub name: String,
    pub value: Option<String>,
    pub secret_key_ref: Option<SecretKeySelector>,
    pub origin: Option<usize>,
}

pub struct EnvVarView {
    pub name: Seq<char>,
    pub value: Option<Seq<char>>,
    pub secret_key_ref: Option<SecretKeySelectorView>,
    pub origin: Option<usize>,
}

impl View for EnvVar {
    type V = EnvVarView;

    open spec fn view(&self) -> EnvVarView {
        EnvVarView {
            name: self.name@,
            value: opt_view(self.value),
            secret_key_ref: match self.secret_key_ref {
                Some(s) => Some(s@),
                None => None,
            },
            origin: self.origin,
        }
    }
}

/// The views of a list of environment variables.
pub open spec fn env_views(env: Seq<EnvVar>) -> Seq<EnvVarView> {
    env.map_values(|e: EnvVar| e@)
}

/// A container of a pod template: the fields the controller reads or sets.
/// `origin` is its position in the template.
#[derive(Debug, Clone)]
pub struct Container {
    pub name: String,
    pub image: Option<String>,
    pub env: Option<Vec<EnvVar>>,
    pub origin: usize,
}

pub struct ContainerView {
    pub name: Seq<char>,
    pub image: Option<Seq<char>>,
    pub env: Option<Seq<EnvVarView>>,
    pub origin: usize,
}

impl View for Container {
    type V = ContainerView;

    open spec fn view(&self) -> ContainerView {
        ContainerView {
            name: self.name@,
            image: opt_view(self.image),
            env: match self.env {
                Some(e) => Some(env_views(e@)),
                None => None,
            },
            origin: self.origin,
        }
    }
}

/// The views of a list of containers.
pub open spec fn container_views(cs: Seq<Container>) -> Seq<ContainerView> {
    cs.map_values(|c: Container| c@)
}

/// A volume of a pod template, by name; `origin` is its position in the template.
#[derive(Debug, Clone)]
pub struct Volume {
    pub name: String,
    pub origin: usize,
}

pub struct VolumeView {
    pub name: Seq<char>,
    pub origin: usize,
}

impl View for Volume {
    type V = VolumeView;

    open spec fn view(&self) -> VolumeView {
        VolumeView { name: self.name@, origin: self.origin }
    }
}

/// The views of a list of volumes.
pub open spec fn volume_views(vs: Seq<Volume>) -> Seq<VolumeView> {
    vs.map_values(|v: Volume| v@)
}

/// The parts of a pod spec that the controller reads or sets.
#[derive(Debug, Clone)]
pub struct PodSpec {
    pub service_account_name: Option<String>,
    pub containers: Vec<Container>,
    pub init_containers: Option<Vec<Container>>,
    pub volumes: Option<Vec<Volume>>,
    /// Node selector as key/value pairs with distinct keys.
    pub node_selector: Option<Vec<(String, String)>>,
}

pub struct PodSpecView {
    pub service_account_name: Option<Seq<char>>,
    pub containers: Seq<ContainerView>,
    pub init_containers: Option<Seq<ContainerView>>,
    pub volumes: Option<Seq<VolumeView>>,
    pub node_selector: Option<Seq<(Seq<char>, Seq<char>)>>,
}

impl View for PodSpec {
    type V = PodSpecView;

    open spec fn view(&self) -> PodSpecView {
        PodSpecView {
            service_account_name: opt_view(self.service_account_name),
            containers: container_views(self.containers@),
            init_containers: match self.init_containers {
                Some(c) => Some(container_views(c@)),
                None => None,
            },
            volumes: match self.volumes {
                Some(v) => Some(volume_views(v@)),
                None => None,
            },
            node_selector: match self.node_selector {
                Some(n) => Some(pair_views(n@)),
                None => None,
            },
        }
    }
}

/// A workload to apply: its name, namespace, owner and pod template.
#[derive(Debug, Clone)]
pub struct WorkloadPlan {
    pub name: String,
    pub namespace: String,
    pub owner: OwnerReference,
    pub pod: PodSpec,
}

fn clone_opt_string(o: &Option<String>) -> (r: Option<String>)
    ensures
        r == *o,
{
    match o {
        Some(s) => Some(s.clone()),
        None => None,
    }
}

impl EnvVar {
    /// A copy with the same view.
    pub fn duplicate(&self) -> (r: Self)
        ensures
            r@ == self@,
    {
        EnvVar {
            name: self.name.clone(),
            value: clone_opt_string(&self.value),
            secret_key_ref: match &self.secret_key_ref {
                Some(s) => Some(
                    SecretKeySelector { name: s.name.clone(), key: s.key.clone(), optional: s.optional },
                ),
                None => None,
            },
            origin: self.origin,
        }
    }
}

fn duplicate_env(env: &Vec<EnvVar>) -> (r: Vec<EnvVar>)
    ensures
        env_views(r@) == env_views(env@),
{
    let mut out: Vec<EnvVar> = Vec::new();
    let mut i: usize = 0;
    while i < env.len()
        invariant
            i <= env@.len(),
            env_views(out@) == env_views(env@.subrange(0, i as int)),
        decreases env@.len() - i,
    {
        let ghost before = out@;
        out.push(env[i].duplicate());
        assert(out@ =~= before.push(out@.last()));
        assert(env_views(out@) =~= env_views(before).push(env@[i as int]@));
        assert(env@.subrange(0, i + 1) =~= env@.subrange(0, i as int).push(env@[i as int]));
        assert(env_views(env@.subrange(0, i + 1)) =~= env_views(env@.subrange(0, i as int)).push(env@[i as int]@));
        i = i + 1;
    }
    assert(env@.subrange(0, env@.len() as int) =~= env@);
    out
}

impl Container {
    /// A copy with the same view.
    pub fn duplicate(&self) -> (r: Self)
        ensures
            r@ == self@,
    {
        Container {
            name: self.name.clone(),
            image: clone_opt_string(&self.image),
            env: match &self.env {
                Some(e) => Some(duplicate_env(e)),
                None => None,
            },
            origin: self.origin,
        }
    }
}

/// The containers not named `n`, in order.
pub open spec fn containers_without(cs: Seq<ContainerView>, n: Seq<char>) -> Seq<ContainerView> {
    cs.filter(container_not_named(n))
}

pub open spec fn container_not_named(n: Seq<char>) -> spec_fn(ContainerView) -> bool {
    |c: ContainerView| c.name != n
}

/// The volumes not named `n`, in order.
pub open spec fn volumes_without(vs: Seq<VolumeView>, n: Seq<char>) -> Seq<VolumeView> {
    vs.filter(volume_not_named(n))
}

pub open spec fn volume_not_named(n: Seq<char>) -> spec_fn(VolumeView) -> bool {
    |v: VolumeView| v.name != n
}

fn remove_containers_named(cs: &Vec<Container>, n: &str) -> (r: Vec<Container>)
    ensures
        container_views(r@) == containers_without(container_views(cs@), n@),
{
    let mut kept: Vec<Container> = Vec::new();
    let mut i: usize = 0;
    while i < cs.len()
        invariant
            i <= cs@.len(),
            container_views(kept@) == containers_without(container_views(cs@.subrange(0, i as int)), n@),
        decreases cs@.len() - i,
    {
        proof {
            let pre = container_views(cs@.subrange(0, i as int));
            assert(container_views(cs@.subrange(0, i + 1)) =~= pre.push(cs@[i as int]@));
            pre.lemma_filter_push(cs@[i as int]@, container_not_named(n@));
        }
        if !str_equal(cs[i].name.as_str(), n) {
            let ghost before = kept@;
            kept.push(cs[i].duplicate());
            assert(container_views(kept@) =~= container_views(before).push(cs@[i as int]@));
        }
        i = i + 1;
    }
    assert(cs@.subrange(0, cs@.len() as int) =~= cs@);
    kept
}

fn remove_volumes_named(vs: &Vec<Volume>, n: &str) -> (r: Vec<Volume>)
    ensures
        volume_views(r@) == volumes_without(volume_views(vs@), n@),
{
    let mut kept: Vec<Volume> = Vec::new();
    let mut i: usize = 0;
    while i < vs.len()
        invariant
            i <= vs@.len(),
            volume_views(kept@) == volumes_without(volume_views(vs@.subrange(0, i as int)), n@),
        decreases vs@.len() - i,
    {
        proof {
            let pre = volume_views(vs@.subrange(0, i as int));
            assert(volume_views(vs@.subrange(0, i + 1)) =~= pre.push(vs@[i as int]@));
            pre.lemma_filter_push(vs@[i as int]@, volume_not_named(n@));
        }
        if !str_equal(vs[i].name.as_str(), n) {
            let ghost before = kept@;
            kept.push(Volume { name: vs[i].name.clone(), origin: vs[i].origin });
            assert(volume_views(kept@) =~= volume_views(before).push(vs@[i as int]@));
        }
        i = i + 1;
    }
    assert(vs@.subrange(0, vs@.len() as int) =~= vs@);
    kept
}

/// The containers with their image set to `image`.
pub open spec fn images_set(cs: Seq<ContainerView>, image: Seq<char>) -> Seq<ContainerView> {
    cs.map_values(|c: ContainerView| ContainerView { image: Some(image), ..c })
}

fn set_images(cs: &mut Vec<Container>, image: &String)
    ensures
        container_views(final(cs)@) == images_set(container_views(old(cs)@), image@),
{
    let ghost orig = container_views(cs@);
    let mut i: usize = 0;
    while i < cs.len()
        invariant
            cs@.len() == orig.len(),
            i <= orig.len(),
            forall|k: int| 0 <= k < i ==> #[trigger] cs@[k]@ == images_set(orig, image@)[k],
            forall|k: int| i <= k < orig.len() ==> #[trigger] cs@[k]@ == orig[k],
        decreases orig.len() - i,
    {
        let mut c = cs[i].duplicate();
        c.image = Some(image.clone());
        cs.set(i, c);
        i = i + 1;
    }
    assert(container_views(cs@) =~= images_set(orig, image@));
}


/// The node selector strings of the resource's specification, when it has some.
pub open spec fn selector_strings(resource: TdxQuoteGenerationService) -> Seq<Seq<char>> {
    match resource.spec.node_selector {
        Some(v) => v@.map_values(|e: crate::operator::types::NodeSelectorEntry| e.0@),
        None => Seq::empty(),
    }
}

/// The DaemonSet pod template after the controller's changes: the service
/// account set; in External mode the `platform-registration` init container and
/// the `efivars` volume removed; the node selector parsed from the
/// specification; and every container's image overridden when an image is
/// given. A fault in the node selectors is returned instead.
pub open spec fn daemonset_pod_spec(
    resource: TdxQuoteGenerationService,
    pod: PodSpecView,
    service_account: Seq<char>,
    image: Option<Seq<char>>,
) -> Result<PodSpecView, SelectorFault> {
    let p1 = PodSpecView { service_account_name: Some(service_account), ..pod };
    let p2 = if resource.spec.platform_registration is External {
        PodSpecView {
            init_containers: match p1.init_containers {
                Some(c) => Some(containers_without(c, "platform-registration"@)),
                None => None,
            },
            volumes: match p1.volumes {
                Some(v) => Some(volumes_without(v, "efivars"@)),
                None => None,
            },
            ..p1
        }
    } else {
        p1
    };
    let p3 = match resource.spec.node_selector {
        Some(_) => match parse_selectors_spec(selector_strings(resource)) {
            Ok(pairs) => Ok(PodSpecView { node_selector: Some(pairs), ..p2 }),
            Err(f) => Err(f),
        },
        None => Ok(p2),
    };
    match p3 {
        Err(f) => Err(f),
        Ok(p) => Ok(
            match image {
                Some(img) => PodSpecView {
                    containers: images_set(p.containers, img),
                    init_containers: match p.init_containers {
                        Some(c) => Some(images_set(c, img)),
                        None => None,
                    },
                    ..p
                },
                None => p,
            },
        ),
    }
}

/// Law: outside External mode (Online and Offline) the planned pod keeps the
/// template's volumes, and its init containers are the template's, in order,
/// changed only in their image where an image is given, so the
/// `platform-registration` init container and the `efivars` volume stay. In
/// External mode no init container named `platform-registration` and no volume
/// named `efivars` remains.
pub proof fn lemma_registration_parts_dropped_only_in_external(
    resource: TdxQuoteGenerationService,
    pod: PodSpecView,
    service_account: Seq<char>,
    image: Option<Seq<char>>,
)
    ensures
        daemonset_pod_spec(resource, pod, service_account, image) matches Ok(p) ==> {
            &&& !(resource.spec.platform_registration is External) ==> {
                &&& p.volumes == pod.volumes
                &&& (p.init_containers is Some <==> pod.init_containers is Some)
                &&& p.init_containers matches Some(c2) ==> {
                    let c = pod.init_containers->0;
                    &&& c2.len() == c.len()
                    &&& forall|i: int|
                        0 <= i < c.len() ==> {
                            &&& #[trigger] c2[i].name == c[i].name
                            &&& c2[i].env == c[i].env
                            &&& c2[i].origin == c[i].origin
                            &&& c2[i].image == (match image {
                                Some(img) => Some(img),
                                None => c[i].image,
                            })
                        }
                }
            }
            &&& resource.spec.platform_registration is External ==> {
                &&& p.init_containers matches Some(c2) ==> forall|i: int|
                    0 <= i < c2.len() ==> #[trigger] c2[i].name != "platform-registration"@
                &&& p.volumes matches Some(v2) ==> forall|i: int|
                    0 <= i < v2.len() ==> #[trigger] v2[i].name != "efivars"@
            }
        },
{
    if resource.spec.platform_registration is External {
        match pod.init_containers {
            Some(c) => {
                let kept = containers_without(c, "platform-registration"@);
                assert forall|i: int| 0 <= i < kept.len() implies #[trigger] kept[i].name
                    != "platform-registration"@ by {
                    c.lemma_filter_pred(container_not_named("platform-registration"@), i);
                }
                match image {
                    Some(img) => {
                        assert forall|i: int| 0 <= i < kept.len() implies #[trigger] images_set(
                            kept,
                            img,
                        )[i].name != "platform-registration"@ by {
                            c.lemma_filter_pred(container_not_named("platform-registration"@), i);
                        }
                    },
                    None => {},
                }
            },
            None => {},
        }
        match pod.volumes {
            Some(v) => {
                let kept = volumes_without(v, "efivars"@);
                assert forall|i: int| 0 <= i < kept.len() implies #[trigger] kept[i].name
                    != "efivars"@ by {
                    v.lemma_filter_pred(volume_not_named("efivars"@), i);
                }
            },
            None => {},
        }
    }
}

/// The service account of the workloads: the value of `QGS_SERVICE_ACCOUNT`
/// when it is set, else `intel-tdx-dcap-qgs`.
pub fn qgs_service_account(env_value: Option<String>) -> (r: String)
    ensures
        match env_value {
            Some(v) => r@ == v@,
            None => r@ == "intel-tdx-dcap-qgs"@,
        },
{
    match env_value {
        Some(v) => v,
        None => String::from_str("intel-tdx-dcap-qgs"),
    }
}

/// Whether `o` is the owner reference that `create_owner_reference` gives for `resource`.
pub open spec fn owner_of(o: OwnerReference, resource: TdxQuoteGenerationService) -> bool {
    &&& o.api_version@ == "trustedservices.intel.com/v1"@
    &&& o.kind@ == "TdxQuoteGenerationService"@
    &&& o.name@ == resource.metadata.name_any_spec()
    &&& resource.metadata.uid matches Some(uid) && o.uid@ == uid@
    &&& o.controller == Some(true)
    &&& o.block_owner_deletion == Some(true)
}

fn selector_entries(resource: &TdxQuoteGenerationService) -> (r: Vec<String>)
    requires
        resource.spec.node_selector is Some,
    ensures
        views(r@) == selector_strings(*resource),
{
    let entries = resource.spec.node_selector.as_ref().unwrap();
    let mut out: Vec<String> = Vec::new();
    let mut i: usize = 0;
    while i < entries.len()
        invariant
            i <= entries@.len(),
            views(out@) == entries@.subrange(0, i as int).map_values(
                |e: crate::operator::types::NodeSelectorEntry| e.0@,
            ),
        decreases entries@.len() - i,
    {
        let ghost before = out@;
        out.push(entries[i].0.clone());
        assert(views(out@) =~= views(before).push(entries@[i as int].0@));
        assert(entries@.subrange(0, i + 1) =~= entries@.subrange(0, i as int).push(entries@[i as int]));
        assert(entries@.subrange(0, i + 1).map_values(|e: crate::operator::types::NodeSelectorEntry| e.0@)
            =~= entries@.subrange(0, i as int).map_values(|e: crate::operator::types::NodeSelectorEntry| e.0@).push(entries@[i as int].0@));
        i = i + 1;
    }
    assert(entries@.subrange(0, entries@.len() as int) =~= entries@);
    out
}

/// The DaemonSet to apply for a resource: named `<name>-qgs` in `namespace`,
/// owned by the resource, with the template's pod spec changed as
/// `daemonset_pod_spec` says.
pub fn daemonset_plan(
    resource: &TdxQuoteGenerationService,
    namespace: &str,
    template: Option<PodSpec>,
    service_account: String,
    image: Option<String>,
) -> (r: Result<WorkloadPlan, ControllerError>)
    ensures
        resource.metadata.uid is None ==> r matches Err(ControllerError::MissingUid),
        resource.metadata.uid is Some && template is None ==> r matches Err(
            ControllerError::TemplateMissingPodSpec,
        ),
        (resource.metadata.uid is Some && template is Some) ==> match daemonset_pod_spec(
            *resource,
            template->0@,
            service_account@,
            opt_view(image),
        ) {
            Ok(pod) => r matches Ok(plan) && {
                &&& plan.name@ == resource.metadata.name_any_spec() + "-qgs"@
                &&& plan.namespace@ == namespace@
                &&& owner_of(plan.owner, *resource)
                &&& plan.pod@ == pod
            },
            Err(f) => r matches Err(e) && e.selector_fault() == Some(f),
        },
{
    let name = daemonset_name(resource.metadata.name_any().as_str());
    let owner = create_owner_reference(resource)?;
    let mut pod = match template {
        Some(p) => p,
        None => return Err(ControllerError::TemplateMissingPodSpec),
    };
    let ghost p0 = pod@;
    pod.service_account_name = Some(service_account);
    if matches!(resource.spec.platform_registration, PlatformRegistration::External {  }) {
        pod.init_containers = match &pod.init_containers {
            Some(c) => Some(remove_containers_named(c, "platform-registration")),
            None => None,
        };
        pod.volumes = match &pod.volumes {
            Some(v) => Some(remove_volumes_named(v, "efivars")),
            None => None,
        };
    }
    if resource.spec.node_selector.is_some() {
        let strings = selector_entries(resource);
        let pairs = parse_node_selectors(strings.as_slice())?;
        pod.node_selector = Some(pairs);
    }
    match &image {
        Some(img) => {
            set_images(&mut pod.containers, img);
            match &mut pod.init_containers {
                Some(c) => set_images(c, img),
                None => {},
            }
        },
        None => {},
    }
    Ok(WorkloadPlan { name, namespace: String::from_str(namespace), owner, pod })
}


/// The index of the first variable named `n`, if any.
pub open spec fn find_env(env: Seq<EnvVarView>, n: Seq<char>) -> Option<int>
    decreases env.len(),
{
    if env.len() == 0 {
        None
    } else if env[0].name == n {
        Some(0)
    } else {
        match find_env(env.drop_first(), n) {
            Some(i) => Some(i + 1),
            None => None,
        }
    }
}

proof fn lemma_find_env(env: Seq<EnvVarView>, n: Seq<char>, i: int)
    requires
        0 <= i <= env.len(),
        forall|k: int| 0 <= k < i ==> #[trigger] env[k].name != n,
        i == env.len() || env[i].name == n,
    ensures
        find_env(env, n) == (if i == env.len() { None::<int> } else { Some(i) }),
    decreases i,
{
    if i > 0 {
        lemma_find_env(env.drop_first(), n, i - 1);
    }
}

/// `v` in place of the first variable of its name, or appended when there is none.
pub open spec fn env_set(env: Seq<EnvVarView>, v: EnvVarView) -> Seq<EnvVarView> {
    match find_env(env, v.name) {
        Some(i) => env.update(i, v),
        None => env.push(v),
    }
}

/// `v` appended unless a variable of its name is present.
pub open spec fn env_add_absent(env: Seq<EnvVarView>, v: EnvVarView) -> Seq<EnvVarView> {
    match find_env(env, v.name) {
        Some(_) => env,
        None => env.push(v),
    }
}

fn find_env_index(env: &Vec<EnvVar>, n: &str) -> (r: Option<usize>)
    ensures
        match r {
            Some(i) => find_env(env_views(env@), n@) == Some(i as int),
            None => find_env(env_views(env@), n@) is None,
        },
        r matches Some(i) ==> i < env@.len() && env@[i as int].name@ == n@,
{
    let mut i: usize = 0;
    while i < env.len()
        invariant
            i <= env@.len(),
            forall|k: int| 0 <= k < i ==> #[trigger] env_views(env@)[k].name != n@,
        decreases env@.len() - i,
    {
        if str_equal(env[i].name.as_str(), n) {
            proof {
                lemma_find_env(env_views(env@), n@, i as int);
            }
            return Some(i);
        }
        i = i + 1;
    }
    proof {
        lemma_find_env(env_views(env@), n@, i as int);
    }
    None
}

fn set_env(env: &mut Vec<EnvVar>, v: EnvVar)
    ensures
        env_views(final(env)@) == env_set(env_views(old(env)@), v@),
{
    let ghost e0 = env_views(env@);
    let ghost vv = v@;
    match find_env_index(env, v.name.as_str()) {
        Some(i) => {
            env.set(i, v);
            assert(env_views(env@) =~= e0.update(i as int, vv));
        },
        None => {
            env.push(v);
            assert(env_views(env@) =~= e0.push(vv));
        },
    }
}

fn add_env_if_absent(env: &mut Vec<EnvVar>, v: EnvVar)
    ensures
        env_views(final(env)@) == env_add_absent(env_views(old(env)@), v@),
{
    let ghost e0 = env_views(env@);
    let ghost vv = v@;
    match find_env_index(env, v.name.as_str()) {
        Some(_) => {},
        None => {
            env.push(v);
            assert(env_views(env@) =~= e0.push(vv));
        },
    }
}

/// The environment of a container, empty when it has none.
pub open spec fn env_or_empty(c: ContainerView) -> Seq<EnvVarView> {
    match c.env {
        Some(e) => e,
        None => Seq::empty(),
    }
}

/// The `INTEL_PCS_API_KEY` variable read from key `api-key` of the named Secret.
pub open spec fn api_key_env(secret_name: Seq<char>) -> EnvVarView {
    EnvVarView {
        name: "INTEL_PCS_API_KEY"@,
        value: None,
        secret_key_ref: Some(
            SecretKeySelectorView { name: secret_name, key: "api-key"@, optional: Some(true) },
        ),
        origin: None,
    }
}

/// A variable with a plain value.
pub open spec fn plain_env(name: Seq<char>, value: Seq<char>) -> EnvVarView {
    EnvVarView { name, value: Some(value), secret_key_ref: None, origin: None }
}

/// The registrar container after the controller's changes: the API key
/// variable set from the configured Secret in Online mode, the proxy variables
/// of the operator's environment added where absent, and the image overridden
/// when one is given.
pub open spec fn registrar_container_spec(
    resource: TdxQuoteGenerationService,
    c: ContainerView,
    image: Option<Seq<char>>,
    https_proxy: Option<Seq<char>>,
    https_proxy_lower: Option<Seq<char>>,
) -> ContainerView {
    let c1 = match resource.spec.platform_registration {
        PlatformRegistration::Online(cfg) => match cfg.api_key_secret_name {
            Some(secret) => ContainerView {
                env: Some(env_set(env_or_empty(c), api_key_env(secret@))),
                ..c
            },
            None => c,
        },
        _ => c,
    };
    let c2 = match https_proxy {
        Some(v) => ContainerView {
            env: Some(env_add_absent(env_or_empty(c1), plain_env("HTTPS_PROXY"@, v))),
            ..c1
        },
        None => c1,
    };
    let c3 = match https_proxy_lower {
        Some(v) => ContainerView {
            env: Some(env_add_absent(env_or_empty(c2), plain_env("https_proxy"@, v))),
            ..c2
        },
        None => c2,
    };
    match image {
        Some(img) => ContainerView { image: Some(img), ..c3 },
        None => c3,
    }
}

proof fn lemma_find_env_first(env: Seq<EnvVarView>, n: Seq<char>)
    ensures
        find_env(env, n) matches Some(i) ==> 0 <= i < env.len() && env[i].name == n && forall|k: int|
            0 <= k < i ==> #[trigger] env[k].name != n,
        find_env(env, n) is None ==> forall|k: int| 0 <= k < env.len() ==> #[trigger] env[k].name != n,
    decreases env.len(),
{
    if env.len() > 0 {
        let rest = env.drop_first();
        lemma_find_env_first(rest, n);
        assert forall|k: int| 1 <= k < env.len() implies env[k] == #[trigger] rest[k - 1] by {}
        if env[0].name != n {
            match find_env(rest, n) {
                Some(j) => {
                    assert forall|k: int| 0 <= k < j + 1 implies #[trigger] env[k].name != n by {
                        if k > 0 {
                            assert(env[k] == rest[k - 1]);
                        }
                    }
                },
                None => {
                    assert forall|k: int| 0 <= k < env.len() implies #[trigger] env[k].name != n by {
                        if k > 0 {
                            assert(env[k] == rest[k - 1]);
                        }
                    }
                },
            }
        }
    }
}

/// Law: in Online mode with an API key Secret configured, the planned
/// registrar container has an `INTEL_PCS_API_KEY` variable, and the first
/// such variable reads key `api-key` of that Secret, optionally, whatever the
/// template's environment held (the configured Secret overrides the
/// template's default).
pub proof fn lemma_configured_api_key_secret_wins(
    resource: TdxQuoteGenerationService,
    c: ContainerView,
    image: Option<Seq<char>>,
    https_proxy: Option<Seq<char>>,
    https_proxy_lower: Option<Seq<char>>,
)
    requires
        resource.spec.platform_registration matches PlatformRegistration::Online(cfg)
            && cfg.api_key_secret_name is Some,
    ensures
        ({
            let secret = resource.spec.platform_registration->Online_0.api_key_secret_name->0;
            let r = registrar_container_spec(resource, c, image, https_proxy, https_proxy_lower);
            r.env matches Some(e) && exists|i: int|
                {
                    &&& 0 <= i < e.len()
                    &&& #[trigger] e[i].name == "INTEL_PCS_API_KEY"@
                    &&& e[i].secret_key_ref == Some(
                        SecretKeySelectorView { name: secret@, key: "api-key"@, optional: Some(true) },
                    )
                    &&& forall|k: int| 0 <= k < i ==> #[trigger] e[k].name != "INTEL_PCS_API_KEY"@
                }
        }),
{
    let secret = resource.spec.platform_registration->Online_0.api_key_secret_name->0;
    let key = "INTEL_PCS_API_KEY"@;
    let v = api_key_env(secret@);
    let e0 = env_or_empty(c);
    lemma_find_env_first(e0, key);
    let e1 = env_set(e0, v);
    let i: int = match find_env(e0, key) {
        Some(j) => j,
        None => e0.len() as int,
    };
    assert(0 <= i < e1.len() && e1[i] == v);
    assert forall|k: int| 0 <= k < i implies #[trigger] e1[k].name != key by {
        assert(e1[k] == e0[k]);
    }
    let e2 = match https_proxy {
        Some(p) => env_add_absent(e1, plain_env("HTTPS_PROXY"@, p)),
        None => e1,
    };
    assert(e2.len() >= e1.len() && forall|k: int| 0 <= k < e1.len() ==> #[trigger] e2[k] == e1[k]);
    let e3 = match https_proxy_lower {
        Some(p) => env_add_absent(e2, plain_env("https_proxy"@, p)),
        None => e2,
    };
    assert(e3.len() >= e2.len() && forall|k: int| 0 <= k < e2.len() ==> #[trigger] e3[k] == e2[k]);
    let r = registrar_container_spec(resource, c, image, https_proxy, https_proxy_lower);
    assert(r.env == Some(e3));
    assert forall|k: int| 0 <= k < i implies #[trigger] e3[k].name != key by {
        assert(e3[k] == e1[k]);
    }
    assert(e3[i].name == key);
}

fn take_env(c: &mut Container) -> (r: Vec<EnvVar>)
    ensures
        env_views(r@) == env_or_empty(old(c)@),
        final(c)@ == (ContainerView { env: None, ..old(c)@ }),
{
    let e = c.env.take();
    match e {
        Some(v) => v,
        None => {
            let v: Vec<EnvVar> = Vec::new();
            assert(env_views(v@) =~= Seq::<EnvVarView>::empty());
            v
        },
    }
}

/// The registration Deployment to apply for a resource: named
/// `<name>-registrar` in `namespace`, owned by the resource, with the service
/// account set and its first container changed as `registrar_container_spec` says.
pub fn deployment_plan(
    resource: &TdxQuoteGenerationService,
    namespace: &str,
    template: Option<PodSpec>,
    service_account: String,
    image: Option<String>,
    https_proxy: Option<String>,
    https_proxy_lower: Option<String>,
) -> (r: Result<WorkloadPlan, ControllerError>)
    ensures
        resource.metadata.uid is None ==> r matches Err(ControllerError::MissingUid),
        resource.metadata.uid is Some && template is None ==> r matches Err(
            ControllerError::TemplateMissingPodSpec,
        ),
        (resource.metadata.uid is Some && template is Some && template->0.containers@.len() == 0)
            ==> r matches Err(ControllerError::TemplateMissingContainer),
        (resource.metadata.uid is Some && template is Some && template->0.containers@.len() > 0)
            ==> (r matches Ok(plan) && {
            let t = template->0@;
            &&& plan.name@ == resource.metadata.name_any_spec() + "-registrar"@
            &&& plan.namespace@ == namespace@
            &&& owner_of(plan.owner, *resource)
            &&& plan.pod@ == PodSpecView {
                service_account_name: Some(service_account@),
                containers: t.containers.update(
                    0,
                    registrar_container_spec(
                        *resource,
                        t.containers[0],
                        opt_view(image),
                        opt_view(https_proxy),
                        opt_view(https_proxy_lower),
                    ),
                ),
                ..t
            }
        }),
{
    let name = deployment_name(resource.metadata.name_any().as_str());
    let owner = create_owner_reference(resource)?;
    let mut pod = match template {
        Some(p) => p,
        None => return Err(ControllerError::TemplateMissingPodSpec),
    };
    pod.service_account_name = Some(service_account);
    if pod.containers.len() == 0 {
        return Err(ControllerError::TemplateMissingContainer);
    }
    let ghost c0 = pod.containers@[0]@;
    let mut c = pod.containers[0].duplicate();
    match &resource.spec.platform_registration {
        PlatformRegistration::Online(cfg) => match &cfg.api_key_secret_name {
            Some(secret) => {
                let mut env = take_env(&mut c);
                set_env(
                    &mut env,
                    EnvVar {
                        name: String::from_str("INTEL_PCS_API_KEY"),
                        value: None,
                        secret_key_ref: Some(
                            SecretKeySelector {
                                name: secret.clone(),
                                key: String::from_str("api-key"),
                                optional: Some(true),
                            },
                        ),
                        origin: None,
                    },
                );
                c.env = Some(env);
            },
            None => {},
        },
        _ => {},
    }
    match https_proxy {
        Some(v) => {
            let mut env = take_env(&mut c);
            add_env_if_absent(
                &mut env,
                EnvVar {
                    name: String::from_str("HTTPS_PROXY"),
                    value: Some(v),
                    secret_key_ref: None,
                    origin: None,
                },
            );
            c.env = Some(env);
        },
        None => {},
    }
    match https_proxy_lower {
        Some(v) => {
            let mut env = take_env(&mut c);
            add_env_if_absent(
                &mut env,
                EnvVar {
                    name: String::from_str("https_proxy"),
                    value: Some(v),
                    secret_key_ref: None,
                    origin: None,
                },
            );
            c.env = Some(env);
        },
        None => {},
    }
    match image {
        Some(img) => {
            c.image = Some(img);
        },
        None => {},
    }
    let ghost cs0 = pod.containers@;
    let ghost cv = c@;
    pod.containers.set(0, c);
    proof {
        assert(container_views(pod.containers@) =~= container_views(cs0).update(0, cv));
    }
    Ok(WorkloadPlan { name, namespace: String::from_str(namespace), owner, pod })
}

} // verus!
