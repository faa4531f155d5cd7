use crate::app_name::{normalized, AppName};
use crate::deployment::{DeployableService, DeploymentStrategy, DeploymentStrategyView};
use crate::image::{image_text, Image, ImageView};
use crate::json::{json_text, json_view_entries, JsonValue, JsonView};
use crate::models::{
    container_type_text, env_views, string_pair_views, Config, ContainerType, Environment,
    EnvironmentVariableView, RuntimeView, Service, ServiceConfig,
};
use crate::paths::{after_last, dashed, name_of_path, parent_path};
use crate::app_name::is_valid_app_name;
use crate::traefik::{
    rule_text, string_views, RouteEntryView, TraefikIngressRoute, TraefikMiddlewareView,
    TraefikRouterRule,
};
use vstd::prelude::*;

verus! {

/// The label that records the application name as the caller supplied it.
pub open spec fn app_name_label() -> Seq<char> {
    "com.aixigo.preview.servant.app-name"@
}

/// The label that records the service name.
pub open spec fn service_name_label() -> Seq<char> {
    "com.aixigo.preview.servant.service-name"@
}

/// The label that records the container role.
pub open spec fn container_type_label() -> Seq<char> {
    "com.aixigo.preview.servant.container-type"@
}

/// The annotation that records the image reference.
pub open spec fn image_label() -> Seq<char> {
    "com.aixigo.preview.servant.image"@
}

/// The annotation that records the replicated environment variables.
pub open spec fn replicated_env_label() -> Seq<char> {
    "com.aixigo.preview.servant.replicated-env"@
}

/// The label that records the storage kind of a volume claim.
pub open spec fn storage_type_label() -> Seq<char> {
    "com.aixigo.preview.servant.storage-type"@
}

/// The mathematical form of object metadata.
#[verifier::ext_equal]
pub struct MetadataView {
    pub name: Option<Seq<char>>,
    pub generate_name: Option<Seq<char>>,
    pub namespace: Option<Seq<char>>,
    pub labels: Option<Seq<(Seq<char>, Seq<char>)>>,
    pub annotations: Option<Seq<(Seq<char>, Seq<char>)>>,
}

/// The metadata of a synthesized object: its name or generated-name
/// prefix, its namespace, and its label and annotation maps.
#[derive(Debug, PartialEq, Eq)]
pub struct Metadata {
    pub name: Option<String>,
    pub generate_name: Option<String>,
    pub namespace: Option<String>,
    pub labels: Option<Vec<(String, String)>>,
    pub annotations: Option<Vec<(String, String)>>,
}

impl View for Metadata {
    type V = MetadataView;

    open spec fn view(&self) -> MetadataView {
        MetadataView {
            name: self.name.deep_view(),
            generate_name: self.generate_name.deep_view(),
            namespace: self.namespace.deep_view(),
            labels: match self.labels {
                Option::Some(l) => Option::Some(string_pair_views(l@)),
                Option::None => Option::None,
            },
            annotations: match self.annotations {
                Option::Some(a) => Option::Some(string_pair_views(a@)),
                Option::None => Option::None,
            },
        }
    }
}

/// The mathematical form of a namespace payload.
#[verifier::ext_equal]
pub struct NamespacePayloadView {
    pub metadata: MetadataView,
}

/// The isolation boundary of one application.
#[derive(Debug, PartialEq, Eq)]
pub struct NamespacePayload {
    pub metadata: Metadata,
}

impl View for NamespacePayload {
    type V = NamespacePayloadView;

    open spec fn view(&self) -> NamespacePayloadView {
        NamespacePayloadView { metadata: self.metadata@ }
    }
}

/// The namespace of an application: named by the normalized identifier,
/// labeled with the raw identifier, and carrying the operator's namespace
/// annotations; an empty annotation map is left out entirely.
pub open spec fn namespace_payload_view(app: Seq<char>, runtime: RuntimeView)
    -> NamespacePayloadView {
    NamespacePayloadView {
        metadata: MetadataView {
            name: Option::Some(normalized(app)),
            generate_name: Option::None,
            namespace: Option::None,
            labels: Option::Some(seq![(app_name_label(), app)]),
            annotations: match runtime {
                RuntimeView::Docker => Option::None,
                RuntimeView::Kubernetes(annotations) => if annotations.len() == 0 {
                    Option::None
                } else {
                    Option::Some(annotations)
                },
            },
        },
    }
}

/// An exact copy of a list of string pairs.
fn clone_pairs(v: &Vec<(String, String)>) -> (r: Vec<(String, String)>)
    ensures
        string_pair_views(r@) == string_pair_views(v@),
{
    let mut r: Vec<(String, String)> = Vec::new();
    for i in 0..v.len()
        invariant
            r@.len() == i,
            forall|k: int| 0 <= k < i ==> (#[trigger] r@[k]).0@ == v@[k].0@ && r@[k].1@ == v@[k].1@,
    {
        r.push((v[i].0.clone(), v[i].1.clone()));
    }
    proof {
        assert(string_pair_views(r@) =~= string_pair_views(v@));
    }
    r
}

/// Creates the namespace object for an application.
pub fn namespace_payload(app_name: &AppName, config: &Config) -> (r: NamespacePayload)
    ensures
        r@ == namespace_payload_view(app_name@, config@),
{
    let annotations: Option<Vec<(String, String)>> = match config.runtime_config() {
        crate::models::Runtime::Docker => None,
        crate::models::Runtime::Kubernetes(namespace_annotations) => {
            if namespace_annotations.len() == 0 {
                None
            } else {
                Some(clone_pairs(namespace_annotations))
            }
        },
    };
    let mut labels: Vec<(String, String)> = Vec::new();
    labels.push((String::from_str("com.aixigo.preview.servant.app-name"), app_name.to_string()));
    let r = NamespacePayload {
        metadata: Metadata {
            name: Some(app_name.to_rfc1123_namespace_id()),
            generate_name: None,
            namespace: None,
            labels: Some(labels),
            annotations,
        },
    };
    proof {
        assert(r@.metadata.labels->0 =~= seq![(app_name_label(), app_name@)]);
        assert(r@ =~~= namespace_payload_view(app_name@, config@));
    }
    r
}

/// The labels every object of a service carries: the raw application
/// name, the container role, and the service name.
pub open spec fn deployment_labels(app: Seq<char>, service: Seq<char>, ct: ContainerType) -> Seq<
    (Seq<char>, Seq<char>),
> {
    seq![
        (app_name_label(), app),
        (container_type_label(), container_type_text(ct)),
        (service_name_label(), service),
    ]
}

/// Builds the label set of a service.
fn deployment_labels_exec(app_name: &AppName, service: &String, ct: ContainerType) -> (r: Vec<
    (String, String),
>)
    ensures
        string_pair_views(r@) == deployment_labels(app_name@, service@, ct),
{
    let mut r: Vec<(String, String)> = Vec::new();
    r.push((String::from_str("com.aixigo.preview.servant.app-name"), app_name.to_string()));
    r.push((
        String::from_str("com.aixigo.preview.servant.container-type"),
        ct.as_str().to_owned(),
    ));
    r.push((String::from_str("com.aixigo.preview.servant.service-name"), service.clone()));
    proof {
        assert(string_pair_views(r@) =~= deployment_labels(app_name@, service@, ct));
    }
    r
}

/// The name of a service's workload: `{app}-{service}-deployment`, with
/// the application identifier normalized.
pub open spec fn deployment_name_text(app: Seq<char>, service: Seq<char>) -> Seq<char> {
    normalized(app) + "-"@ + service + "-deployment"@
}

/// The name of a service's generated file secret:
/// `{app}-{service}-secret`, with the application identifier normalized.
pub open spec fn secret_name_text(app: Seq<char>, service: Seq<char>) -> Seq<char> {
    normalized(app) + "-"@ + service + "-secret"@
}

/// The name of an application's image-pull credential secret:
/// `{app}-image-pull-secret`, with the application identifier normalized.
pub open spec fn image_pull_secret_name_text(app: Seq<char>) -> Seq<char> {
    normalized(app) + "-image-pull-secret"@
}

/// The name of a service's routing route: `{app}-{service}-ingress-route`,
/// with the application identifier normalized.
pub open spec fn ingress_route_name_text(app: Seq<char>, service: Seq<char>) -> Seq<char> {
    normalized(app) + "-"@ + service + "-ingress-route"@
}

/// The generated-name prefix of a service's storage claim:
/// `{app}-{service}-pvc-`, with the application identifier normalized.
pub open spec fn pvc_prefix_text(app: Seq<char>, service: Seq<char>) -> Seq<char> {
    normalized(app) + "-"@ + service + "-pvc-"@
}

/// Joins the normalized application identifier, a service name and a
/// suffix with `-`.
fn named_with_suffix(app_name: &AppName, service: &str, suffix: &str) -> (r: String)
    ensures
        r@ == normalized(app_name@) + "-"@ + service@ + suffix@,
{
    let mut r = app_name.to_rfc1123_namespace_id();
    r.append("-");
    r.append(service);
    r.append(suffix);
    r
}

/// The mathematical form of a replica-count payload and of a full
/// workload: see `DeploymentPayload`.
#[verifier::ext_equal]
pub struct DeploymentPayloadView {
    pub metadata: MetadataView,
    pub replicas: u32,
    pub selector_match_labels: Seq<(Seq<char>, Seq<char>)>,
    pub template: Option<PodTemplateView>,
}

/// The mathematical form of a pod template.
#[verifier::ext_equal]
pub struct PodTemplateView {
    pub metadata: MetadataView,
    pub containers: Seq<ContainerPayloadView>,
    pub volumes: Option<Seq<VolumePayloadView>>,
    pub image_pull_secrets: Option<Seq<Seq<char>>>,
}

/// The mathematical form of one container of a workload.
#[verifier::ext_equal]
pub struct ContainerPayloadView {
    pub name: Seq<char>,
    pub image: Seq<char>,
    pub image_pull_policy: Seq<char>,
    pub env: Option<Seq<EnvVarPayloadView>>,
    pub volume_mounts: Option<Seq<VolumeMountPayloadView>>,
    pub ports: Seq<u16>,
    pub memory_limit: Option<u64>,
}

/// The mathematical form of one container environment entry.
#[verifier::ext_equal]
pub struct EnvVarPayloadView {
    pub name: Seq<char>,
    pub value: Seq<char>,
}

/// The mathematical form of one volume mount.
#[verifier::ext_equal]
pub struct VolumeMountPayloadView {
    pub name: Seq<char>,
    pub mount_path: Seq<char>,
}

/// The mathematical form of one volume.
#[verifier::ext_equal]
pub struct VolumePayloadView {
    pub name: Seq<char>,
    pub secret: Option<SecretVolumeView>,
    pub persistent_volume_claim: Option<Seq<char>>,
}

/// The mathematical form of a secret-backed volume source.
#[verifier::ext_equal]
pub struct SecretVolumeView {
    pub secret_name: Seq<char>,
    pub items: Seq<KeyToPathView>,
}

/// The mathematical form of one secret item mapped into a volume.
#[verifier::ext_equal]
pub struct KeyToPathView {
    pub key: Seq<char>,
    pub path: Seq<char>,
}

/// A workload: its metadata, replica count, selector, and pod template.
/// The replica-count payload carries no template.
#[derive(Debug, PartialEq, Eq)]
pub struct DeploymentPayload {
    pub metadata: Metadata,
    pub replicas: u32,
    pub selector_match_labels: Vec<(String, String)>,
    pub template: Option<PodTemplatePayload>,
}

/// The pod template of a workload: its metadata, containers, volumes and
/// image-pull credential references.
#[derive(Debug, PartialEq, Eq)]
pub struct PodTemplatePayload {
    pub metadata: Metadata,
    pub containers: Vec<ContainerPayload>,
    pub volumes: Option<Vec<VolumePayload>>,
    pub image_pull_secrets: Option<Vec<String>>,
}

/// One container of a workload.
#[derive(Debug, PartialEq, Eq)]
pub struct ContainerPayload {
    pub name: String,
    pub image: String,
    pub image_pull_policy: String,
    pub env: Option<Vec<EnvVarPayload>>,
    pub volume_mounts: Option<Vec<VolumeMountPayload>>,
    pub ports: Vec<u16>,
    pub memory_limit: Option<u64>,
}

/// One container environment entry.
#[derive(Debug, PartialEq, Eq)]
pub struct EnvVarPayload {
    pub name: String,
    pub value: String,
}

/// One volume mount.
#[derive(Debug, PartialEq, Eq)]
pub struct VolumeMountPayload {
    pub name: String,
    pub mount_path: String,
}

/// One volume: backed by a generated secret or by a storage claim.
#[derive(Debug, PartialEq, Eq)]
pub struct VolumePayload {
    pub name: String,
    pub secret: Option<SecretVolumePayload>,
    pub persistent_volume_claim: Option<String>,
}

/// A secret-backed volume source.
#[derive(Debug, PartialEq, Eq)]
pub struct SecretVolumePayload {
    pub secret_name: String,
    pub items: Vec<KeyToPathPayload>,
}

/// One secret item mapped into a volume.
#[derive(Debug, PartialEq, Eq)]
pub struct KeyToPathPayload {
    pub key: String,
    pub path: String,
}

impl View for EnvVarPayload {
    type V = EnvVarPayloadView;

    open spec fn view(&self) -> EnvVarPayloadView {
        EnvVarPayloadView { name: self.name@, value: self.value@ }
    }
}

impl View for VolumeMountPayload {
    type V = VolumeMountPayloadView;

    open spec fn view(&self) -> VolumeMountPayloadView {
        VolumeMountPayloadView { name: self.name@, mount_path: self.mount_path@ }
    }
}

impl View for KeyToPathPayload {
    type V = KeyToPathView;

    open spec fn view(&self) -> KeyToPathView {
        KeyToPathView { key: self.key@, path: self.path@ }
    }
}

/// The mathematical forms of a list of secret items.
pub open spec fn key_to_path_views(s: Seq<KeyToPathPayload>) -> Seq<KeyToPathView> {
    s.map_values(|x: KeyToPathPayload| x@)
}

impl View for SecretVolumePayload {
    type V = SecretVolumeView;

    open spec fn view(&self) -> SecretVolumeView {
        SecretVolumeView { secret_name: self.secret_name@, items: key_to_path_views(self.items@) }
    }
}

impl View for VolumePayload {
    type V = VolumePayloadView;

    open spec fn view(&self) -> VolumePayloadView {
        VolumePayloadView {
            name: self.name@,
            secret: match self.secret {
                Option::Some(s) => Option::Some(s@),
                Option::None => Option::None,
            },
            persistent_volume_claim: self.persistent_volume_claim.deep_view(),
        }
    }
}

/// The mathematical forms of a list of volumes.
pub open spec fn volume_views(s: Seq<VolumePayload>) -> Seq<VolumePayloadView> {
    s.map_values(|x: VolumePayload| x@)
}

/// The mathematical forms of a list of volume mounts.
pub open spec fn volume_mount_views(s: Seq<VolumeMountPayload>) -> Seq<VolumeMountPayloadView> {
    s.map_values(|x: VolumeMountPayload| x@)
}

/// The mathematical forms of a list of environment entries.
pub open spec fn env_var_payload_views(s: Seq<EnvVarPayload>) -> Seq<EnvVarPayloadView> {
    s.map_values(|x: EnvVarPayload| x@)
}

impl View for ContainerPayload {
    type V = ContainerPayloadView;

    open spec fn view(&self) -> ContainerPayloadView {
        ContainerPayloadView {
            name: self.name@,
            image: self.image@,
            image_pull_policy: self.image_pull_policy@,
            env: match self.env {
                Option::Some(e) => Option::Some(env_var_payload_views(e@)),
                Option::None => Option::None,
            },
            volume_mounts: match self.volume_mounts {
                Option::Some(m) => Option::Some(volume_mount_views(m@)),
                Option::None => Option::None,
            },
            ports: self.ports@,
            memory_limit: self.memory_limit,
        }
    }
}

/// The mathematical forms of a list of containers.
pub open spec fn container_views(s: Seq<ContainerPayload>) -> Seq<ContainerPayloadView> {
    s.map_values(|x: ContainerPayload| x@)
}

impl View for PodTemplatePayload {
    type V = PodTemplateView;

    open spec fn view(&self) -> PodTemplateView {
        PodTemplateView {
            metadata: self.metadata@,
            containers: container_views(self.containers@),
            volumes: match self.volumes {
                Option::Some(v) => Option::Some(volume_views(v@)),
                Option::None => Option::None,
            },
            image_pull_secrets: match self.image_pull_secrets {
                Option::Some(s) => Option::Some(crate::traefik::string_views(s@)),
                Option::None => Option::None,
            },
        }
    }
}

impl View for DeploymentPayload {
    type V = DeploymentPayloadView;

    open spec fn view(&self) -> DeploymentPayloadView {
        DeploymentPayloadView {
            metadata: self.metadata@,
            replicas: self.replicas,
            selector_match_labels: string_pair_views(self.selector_match_labels@),
            template: match self.template {
                Option::Some(t) => Option::Some(t@),
                Option::None => Option::None,
            },
        }
    }
}

/// The workload object that re-applies only the replica count: the same
/// deterministic name, namespace, labels and selector as the full
/// workload, the given replica count, and no template, so no other field
/// is disturbed.
pub open spec fn deployment_replicas_view(
    app: Seq<char>,
    service: Seq<char>,
    ct: ContainerType,
    replicas: u32,
) -> DeploymentPayloadView {
    DeploymentPayloadView {
        metadata: MetadataView {
            name: Option::Some(deployment_name_text(app, service)),
            generate_name: Option::None,
            namespace: Option::Some(normalized(app)),
            labels: Option::Some(deployment_labels(app, service, ct)),
            annotations: Option::None,
        },
        replicas,
        selector_match_labels: deployment_labels(app, service, ct),
        template: Option::None,
    }
}

/// Creates the payload that scales a service's workload to the given
/// replica count, matched by the same selector and touching no other
/// field.
pub fn deployment_replicas_payload(app_name: &AppName, service: &Service, replicas: u32) -> (r:
    DeploymentPayload)
    ensures
        r@ == deployment_replicas_view(
            app_name@,
            service@.service_name,
            service@.container_type,
            replicas,
        ),
{
    let labels = deployment_labels_exec(
        app_name,
        service.service_name(),
        service.container_type(),
    );
    let selector = clone_pairs(&labels);
    let r = DeploymentPayload {
        metadata: Metadata {
            name: Some(named_with_suffix(app_name, service.service_name().as_str(), "-deployment")),
            generate_name: None,
            namespace: Some(app_name.to_rfc1123_namespace_id()),
            labels: Some(labels),
            annotations: None,
        },
        replicas,
        selector_match_labels: selector,
        template: None,
    };
    proof {
        assert(r@ =~~= deployment_replicas_view(
            app_name@,
            service@.service_name,
            service@.container_type,
            replicas,
        ));
    }
    r
}

/// The mathematical form of a network-endpoint payload.
#[verifier::ext_equal]
pub struct ServicePayloadView {
    pub metadata: MetadataView,
    pub ports: Seq<ServicePortView>,
    pub selector: Seq<(Seq<char>, Seq<char>)>,
}

/// The mathematical form of one named service port.
#[verifier::ext_equal]
pub struct ServicePortView {
    pub name: Seq<char>,
    pub port: u16,
    pub target_port: u16,
}

/// The network endpoint of one service: a single named port and a
/// selector equal to the workload's label set.
#[derive(Debug, PartialEq, Eq)]
pub struct ServicePayload {
    pub metadata: Metadata,
    pub ports: Vec<ServicePortPayload>,
    pub selector: Vec<(String, String)>,
}

/// One named service port.
#[derive(Debug, PartialEq, Eq)]
pub struct ServicePortPayload {
    pub name: String,
    pub port: u16,
    pub target_port: u16,
}

impl View for ServicePortPayload {
    type V = ServicePortView;

    open spec fn view(&self) -> ServicePortView {
        ServicePortView { name: self.name@, port: self.port, target_port: self.target_port }
    }
}

/// The mathematical forms of a list of service ports.
pub open spec fn service_port_views(s: Seq<ServicePortPayload>) -> Seq<ServicePortView> {
    s.map_values(|x: ServicePortPayload| x@)
}

impl View for ServicePayload {
    type V = ServicePayloadView;

    open spec fn view(&self) -> ServicePayloadView {
        ServicePayloadView {
            metadata: self.metadata@,
            ports: service_port_views(self.ports@),
            selector: string_pair_views(self.selector@),
        }
    }
}

/// The network endpoint of a service: named by the unqualified service
/// name in the application's namespace, one port named after the service,
/// and a selector equal to the workload's label set, which is what makes
/// the service reachable by name from its siblings.
pub open spec fn service_payload_view(
    app: Seq<char>,
    service: Seq<char>,
    ct: ContainerType,
    port: u16,
) -> ServicePayloadView {
    ServicePayloadView {
        metadata: MetadataView {
            name: Option::Some(service),
            generate_name: Option::None,
            namespace: Option::Some(normalized(app)),
            labels: Option::None,
            annotations: Option::None,
        },
        ports: seq![ServicePortView { name: service, port, target_port: port }],
        selector: deployment_labels(app, service, ct),
    }
}

/// Creates the network endpoint for a service.
pub fn service_payload(app_name: &AppName, service_config: &ServiceConfig) -> (r: ServicePayload)
    ensures
        r@ == service_payload_view(
            app_name@,
            service_config@.service_name,
            service_config@.container_type,
            service_config@.port,
        ),
{
    let mut ports: Vec<ServicePortPayload> = Vec::new();
    ports.push(
        ServicePortPayload {
            name: service_config.service_name().clone(),
            port: service_config.port(),
            target_port: service_config.port(),
        },
    );
    let r = ServicePayload {
        metadata: Metadata {
            name: Some(service_config.service_name().clone()),
            generate_name: None,
            namespace: Some(app_name.to_rfc1123_namespace_id()),
            labels: None,
            annotations: None,
        },
        ports,
        selector: deployment_labels_exec(
            app_name,
            service_config.service_name(),
            service_config.container_type(),
        ),
    };
    proof {
        assert(r@.ports =~= seq![r.ports@[0]@]);
        assert(r@ =~~= service_payload_view(
            app_name@,
            service_config@.service_name,
            service_config@.container_type,
            service_config@.port,
        ));
    }
    r
}

/// Looks a key up in a label list: the value of its first occurrence.
pub open spec fn lookup_first(pairs: Seq<(Seq<char>, Seq<char>)>, key: Seq<char>) -> Option<
    Seq<char>,
>
    decreases pairs.len(),
{
    if pairs.len() == 0 {
        Option::None
    } else if pairs[0].0 == key {
        Option::Some(pairs[0].1)
    } else {
        lookup_first(pairs.drop_first(), key)
    }
}

proof fn lemma_lookup_first_none(pairs: Seq<(Seq<char>, Seq<char>)>, key: Seq<char>)
    requires
        forall|k: int| 0 <= k < pairs.len() ==> (#[trigger] pairs[k]).0 != key,
    ensures
        lookup_first(pairs, key) is None,
    decreases pairs.len(),
{
    if pairs.len() > 0 {
        lemma_lookup_first_none(pairs.drop_first(), key);
    }
}

proof fn lemma_lookup_first_at(pairs: Seq<(Seq<char>, Seq<char>)>, key: Seq<char>, i: int)
    requires
        0 <= i < pairs.len(),
        pairs[i].0 == key,
        forall|k: int| 0 <= k < i ==> (#[trigger] pairs[k]).0 != key,
    ensures
        lookup_first(pairs, key) == Option::Some(pairs[i].1),
    decreases pairs.len(),
{
    if i > 0 {
        lemma_lookup_first_at(pairs.drop_first(), key, i - 1);
    }
}

/// The mathematical form of a storage-claim payload.
#[verifier::ext_equal]
pub struct PvcPayloadView {
    pub metadata: MetadataView,
    pub storage_class_name: Seq<char>,
    pub access_modes: Seq<Seq<char>>,
    pub requests_storage: u64,
}

/// A storage-claim request: a generated-name prefix, labels recording
/// application, service and storage kind, a storage class, single-writer
/// access, and the requested size in bytes.
#[derive(Debug, PartialEq, Eq)]
pub struct PvcPayload {
    pub metadata: Metadata,
    pub storage_class_name: String,
    pub access_modes: Vec<String>,
    pub requests_storage: u64,
}

impl View for PvcPayload {
    type V = PvcPayloadView;

    open spec fn view(&self) -> PvcPayloadView {
        PvcPayloadView {
            metadata: self.metadata@,
            storage_class_name: self.storage_class_name@,
            access_modes: crate::traefik::string_views(self.access_modes@),
            requests_storage: self.requests_storage,
        }
    }
}

/// The storage kind of a claim: its storage-type label, or `default`
/// where the label is absent.
pub open spec fn storage_kind_of(pvc: PvcPayloadView) -> Seq<char> {
    match pvc.metadata.labels {
        Option::Some(labels) => match lookup_first(labels, storage_type_label()) {
            Option::Some(v) => v,
            Option::None => "default"@,
        },
        Option::None => "default"@,
    }
}

/// The storage kind of a claim, as `storage_kind_of` gives it.
#[verifier::loop_isolation(false)]
fn storage_kind_exec(pvc: &PvcPayload) -> (r: String)
    ensures
        r@ == storage_kind_of(pvc@),
{
    let key = String::from_str("com.aixigo.preview.servant.storage-type");
    match &pvc.metadata.labels {
        Some(labels) => {
            for i in 0..labels.len()
                invariant
                    key@ == storage_type_label(),
                    forall|k: int|
                        0 <= k < i ==> (#[trigger] string_pair_views(labels@)[k]).0
                            != storage_type_label(),
            {
                if labels[i].0 == key {
                    proof {
                        lemma_lookup_first_at(
                            string_pair_views(labels@),
                            storage_type_label(),
                            i as int,
                        );
                        assert(pvc@.metadata.labels == Option::Some(string_pair_views(labels@)));
                        assert(string_pair_views(labels@)[i as int].1 == labels@[i as int].1@);
                        assert(storage_kind_of(pvc@) == labels@[i as int].1@);
                    }
                    return labels[i].1.clone();
                }
            }
            proof {
                lemma_lookup_first_none(string_pair_views(labels@), storage_type_label());
                assert(pvc@.metadata.labels == Option::Some(string_pair_views(labels@)));
                assert(storage_kind_of(pvc@) == "default"@);
            }
            String::from_str("default")
        },
        None => {
            proof {
                assert(pvc@.metadata.labels is None);
            }
            String::from_str("default")
        },
    }
}

/// The name of the volume that binds a claim into a pod: its storage kind
/// with the suffix `-volume`.
pub open spec fn pvc_volume_name(pvc: PvcPayloadView) -> Seq<char> {
    storage_kind_of(pvc) + "-volume"@
}

/// The mount that binds an external storage claim at its declared path.
pub open spec fn pvc_volume_mount_view(path: Seq<char>, pvc: PvcPayloadView)
    -> VolumeMountPayloadView {
    VolumeMountPayloadView { name: pvc_volume_name(pvc), mount_path: path }
}

/// Creates the mount for an externally bound storage claim at its
/// declared path.
pub fn pvc_volume_mount_payload(path: &str, persistent_volume_claim: &PvcPayload) -> (r:
    VolumeMountPayload)
    ensures
        r@ == pvc_volume_mount_view(path@, persistent_volume_claim@),
{
    let mut name = storage_kind_exec(persistent_volume_claim);
    name.append("-volume");
    VolumeMountPayload { name, mount_path: path.to_owned() }
}

/// The volume that references an externally bound storage claim by name;
/// a claim not yet named is referenced by the empty name.
pub open spec fn pvc_volume_view(pvc: PvcPayloadView) -> VolumePayloadView {
    VolumePayloadView {
        name: pvc_volume_name(pvc),
        secret: Option::None,
        persistent_volume_claim: Option::Some(
            match pvc.metadata.name {
                Option::Some(n) => n,
                Option::None => Seq::empty(),
            },
        ),
    }
}

/// Creates the volume that references an externally bound storage claim.
pub fn pvc_volume_payload(persistent_volume_claim: &PvcPayload) -> (r: VolumePayload)
    ensures
        r@ == pvc_volume_view(persistent_volume_claim@),
{
    let mut name = storage_kind_exec(persistent_volume_claim);
    name.append("-volume");
    let claim_name = match &persistent_volume_claim.metadata.name {
        Some(n) => n.clone(),
        None => String::new(),
    };
    let r = VolumePayload { name, secret: None, persistent_volume_claim: Some(claim_name) };
    proof {
        assert(r@ =~~= pvc_volume_view(persistent_volume_claim@));
    }
    r
}

/// The storage claim of a declared volume: a generated-name prefix,
/// labels for application, service and storage kind (the last path
/// segment of the declared volume, or `default` where that segment is
/// empty), the given storage class, single-writer access, and the
/// requested size.
pub open spec fn persistent_volume_claim_view(
    app: Seq<char>,
    service: Seq<char>,
    storage_size: u64,
    storage_class: Seq<char>,
    declared_volume: Seq<char>,
) -> PvcPayloadView {
    PvcPayloadView {
        metadata: MetadataView {
            name: Option::None,
            generate_name: Option::Some(pvc_prefix_text(app, service)),
            namespace: Option::None,
            labels: Option::Some(
                seq![
                    (app_name_label(), app),
                    (service_name_label(), service),
                    (
                        storage_type_label(),
                        if after_last(declared_volume, '/').len() == 0 {
                            "default"@
                        } else {
                            after_last(declared_volume, '/')
                        },
                    ),
                ],
            ),
            annotations: Option::None,
        },
        storage_class_name: storage_class,
        access_modes: seq!["ReadWriteOnce"@],
        requests_storage: storage_size,
    }
}

/// Creates the storage-claim request for one declared volume of a
/// service.
pub fn persistent_volume_claim_payload(
    app_name: &AppName,
    service: &DeployableService,
    storage_size: u64,
    storage_class: &str,
    declared_volume: &str,
) -> (r: PvcPayload)
    ensures
        r@ == persistent_volume_claim_view(
            app_name@,
            service@.config.service_name,
            storage_size,
            storage_class@,
            declared_volume@,
        ),
{
    let storage_kind = {
        let seg = crate::paths::file_name_of(declared_volume);
        if seg.as_str().is_empty() {
            String::from_str("default")
        } else {
            seg
        }
    };
    let mut labels: Vec<(String, String)> = Vec::new();
    labels.push((String::from_str("com.aixigo.preview.servant.app-name"), app_name.to_string()));
    labels.push((
        String::from_str("com.aixigo.preview.servant.service-name"),
        service.service_name().clone(),
    ));
    labels.push((String::from_str("com.aixigo.preview.servant.storage-type"), storage_kind));
    let mut access_modes: Vec<String> = Vec::new();
    access_modes.push(String::from_str("ReadWriteOnce"));
    let r = PvcPayload {
        metadata: Metadata {
            name: None,
            generate_name: Some(named_with_suffix(app_name, service.service_name().as_str(), "-pvc-")),
            namespace: None,
            labels: Some(labels),
            annotations: None,
        },
        storage_class_name: storage_class.to_owned(),
        access_modes,
        requests_storage: storage_size,
    };
    proof {
        assert(r@.access_modes =~= seq!["ReadWriteOnce"@]);
        assert(r@ =~~= persistent_volume_claim_view(
            app_name@,
            service@.config.service_name,
            storage_size,
            storage_class@,
            declared_volume@,
        ));
    }
    r
}


/// The environment entries of a container: each variable's key and value.
pub open spec fn env_payload_views_of(env: Seq<EnvironmentVariableView>) -> Seq<
    EnvVarPayloadView,
> {
    env.map_values(|v: EnvironmentVariableView| EnvVarPayloadView { name: v.key, value: v.value })
}

/// Builds the container environment of a service.
#[verifier::loop_isolation(false)]
fn env_payloads(env: &Environment) -> (r: Vec<EnvVarPayload>)
    ensures
        env_var_payload_views(r@) == env_payload_views_of(env@),
{
    let values = env.values();
    let mut r: Vec<EnvVarPayload> = Vec::new();
    for i in 0..values.len()
        invariant
            r@.len() == i,
            forall|k: int|
                0 <= k < i ==> (#[trigger] r@[k])@ == (EnvVarPayloadView {
                    name: env@[k].key,
                    value: env@[k].value,
                }),
    {
        r.push(
            EnvVarPayload { name: values[i].key().clone(), value: values[i].value().clone() },
        );
        proof {
            assert(env_views(values@)[i as int] == values@[i as int]@);
        }
    }
    proof {
        assert(env_var_payload_views(r@) =~= env_payload_views_of(env@));
    }
    r
}

/// Whether any variable of the environment is marked replicated.
pub open spec fn has_replicated(env: Seq<EnvironmentVariableView>) -> bool {
    exists|i: int| 0 <= i < env.len() && env[i].replicated
}

/// Whether any variable of the environment is marked replicated.
#[verifier::loop_isolation(false)]
fn has_replicated_exec(env: &Environment) -> (r: bool)
    ensures
        r == has_replicated(env@),
{
    let values = env.values();
    for i in 0..values.len()
        invariant
            forall|k: int| 0 <= k < i ==> !env@[k].replicated,
    {
        proof {
            assert(env_views(values@)[i as int] == values@[i as int]@);
        }
        if values[i].replicated() {
            return true;
        }
    }
    proof {
        if has_replicated(env@) {
            let i = choose|i: int| 0 <= i < env@.len() && env@[i].replicated;
            assert(false);
        }
    }
    false
}

/// The summary of one replicated variable: its value, whether it came
/// out of a template, and that it is replicated.
pub open spec fn var_object(v: EnvironmentVariableView) -> JsonView {
    JsonView::Obj(
        seq![
            ("replicate"@, JsonView::Bool(v.replicated)),
            ("templated"@, JsonView::Bool(v.templated)),
            ("value"@, JsonView::Str(v.value)),
        ],
    )
}

/// The members of the replicated-environment summary: one per replicated
/// variable, keyed by the variable, in the order the environment lists
/// them.
pub open spec fn replicated_entries(env: Seq<EnvironmentVariableView>) -> Seq<
    (Seq<char>, JsonView),
>
    decreases env.len(),
{
    if env.len() == 0 {
        Seq::empty()
    } else {
        let rest = replicated_entries(env.drop_last());
        if env.last().replicated {
            rest.push((env.last().key, var_object(env.last())))
        } else {
            rest
        }
    }
}

/// The serialized replicated-environment summary.
pub open spec fn replicated_env_text(env: Seq<EnvironmentVariableView>) -> Seq<char> {
    json_text(JsonView::Obj(replicated_entries(env)))
}

/// Writes the replicated-environment summary of an environment.
#[verifier::loop_isolation(false)]
fn replicated_env_json(env: &Environment) -> (r: String)
    ensures
        r@ == replicated_env_text(env@),
{
    let values = env.values();
    let mut entries: Vec<(String, JsonValue)> = Vec::new();
    for i in 0..values.len()
        invariant
            json_view_entries(entries@) =~= replicated_entries(env@.subrange(0, i as int)),
    {
        proof {
            assert(env_views(values@)[i as int] == values@[i as int]@);
        }
        if values[i].replicated() {
            let rep_value = JsonValue::Bool(values[i].replicated());
            let tmp_value = JsonValue::Bool(values[i].templated());
            let val_value = JsonValue::Str(values[i].value().clone());
            proof {
                assert(rep_value@ == JsonView::Bool(env@[i as int].replicated));
                assert(tmp_value@ == JsonView::Bool(env@[i as int].templated));
                assert(val_value@ == JsonView::Str(env@[i as int].value));
            }
            let mut fields: Vec<(String, JsonValue)> = Vec::new();
            fields.push((String::from_str("replicate"), rep_value));
            fields.push((String::from_str("templated"), tmp_value));
            fields.push((String::from_str("value"), val_value));
            let ghost fs = fields@;
            let var_obj = JsonValue::Obj(fields);
            proof {
                reveal_strlit("replicate");
                reveal_strlit("templated");
                reveal_strlit("value");
                assert(var_obj@ == JsonView::Obj(json_view_entries(fs)));
                assert(fs.drop_last().drop_last().drop_last() =~= Seq::<
                    (String, JsonValue),
                >::empty());
                assert(json_view_entries(fs.drop_last().drop_last().drop_last()) =~= Seq::<
                    (Seq<char>, JsonView),
                >::empty());
                assert(json_view_entries(fs.drop_last().drop_last()) =~= seq![
                    ("replicate"@, JsonView::Bool(env@[i as int].replicated)),
                ]);
                assert(json_view_entries(fs.drop_last()) =~= seq![
                    ("replicate"@, JsonView::Bool(env@[i as int].replicated)),
                    ("templated"@, JsonView::Bool(env@[i as int].templated)),
                ]);
                assert(json_view_entries(fs) =~~= seq![
                    ("replicate"@, JsonView::Bool(env@[i as int].replicated)),
                    ("templated"@, JsonView::Bool(env@[i as int].templated)),
                    ("value"@, JsonView::Str(env@[i as int].value)),
                ]);
                assert(var_object(env@[i as int]) == JsonView::Obj(seq![
                    ("replicate"@, JsonView::Bool(env@[i as int].replicated)),
                    ("templated"@, JsonView::Bool(env@[i as int].templated)),
                    ("value"@, JsonView::Str(env@[i as int].value)),
                ]));
                assert(var_obj@ == var_object(env@[i as int]));
            }
            let ghost old_entries = entries@;
            entries.push((values[i].key().clone(), var_obj));
            proof {
                assert(entries@.drop_last() =~= old_entries);
                assert(json_view_entries(entries@) =~= json_view_entries(old_entries).push(
                    (env@[i as int].key, var_object(env@[i as int])),
                ));
            }
        }
        proof {
            let pre = env@.subrange(0, i as int);
            let cur = env@.subrange(0, i + 1 as int);
            assert(cur.drop_last() =~= pre);
            assert(cur.last() == env@[i as int]);
            assert(json_view_entries(entries@) =~= replicated_entries(cur));
        }
    }
    proof {
        assert(env@.subrange(0, env@.len() as int) =~= env@);
    }
    let obj = JsonValue::Obj(entries);
    let r = obj.to_json_string();
    proof {
        assert(obj@ =~~= JsonView::Obj(replicated_entries(env@)));
    }
    r
}

/// The workload annotations of a service: the image reference, and the
/// replicated-environment summary where any variable is replicated.
pub open spec fn deployment_meta_annotations(
    img: ImageView,
    env: Option<Seq<EnvironmentVariableView>>,
) -> Seq<(Seq<char>, Seq<char>)> {
    if env is Some && has_replicated(env->0) {
        seq![(image_label(), image_text(img)), (replicated_env_label(), replicated_env_text(env->0))]
    } else {
        seq![(image_label(), image_text(img))]
    }
}

/// Builds the workload annotations of a service.
fn meta_annotations_exec(image: &Image, env: &Option<Environment>) -> (r: Vec<(String, String)>)
    ensures
        string_pair_views(r@) == deployment_meta_annotations(
            image@,
            match env {
                Option::Some(e) => Option::Some(e@),
                Option::None => Option::None,
            },
        ),
{
    let mut r: Vec<(String, String)> = Vec::new();
    r.push((String::from_str("com.aixigo.preview.servant.image"), image.to_string()));
    match env {
        Some(e) => {
            if has_replicated_exec(e) {
                r.push((
                    String::from_str("com.aixigo.preview.servant.replicated-env"),
                    replicated_env_json(e),
                ));
            }
        },
        None => {},
    }
    proof {
        assert(string_pair_views(r@) =~= deployment_meta_annotations(
            image@,
            match env {
                Option::Some(e) => Option::Some(e@),
                Option::None => Option::None,
            },
        ));
    }
    r
}

/// The pod-template annotations that carry the redeploy strategy: the
/// pinned image hash, nothing, or the synthesis timestamp that forces
/// recreation on every deploy.
pub open spec fn strategy_annotations(strategy: DeploymentStrategyView, now: Seq<char>) -> Seq<
    (Seq<char>, Seq<char>),
> {
    match strategy {
        DeploymentStrategyView::RedeployOnImageUpdate(hash) => seq![("imageHash"@, hash)],
        DeploymentStrategyView::RedeployNever => Seq::empty(),
        DeploymentStrategyView::RedeployAlways => seq![("date"@, now)],
    }
}

/// Builds the pod-template annotations of a strategy at the given
/// timestamp.
fn strategy_annotations_exec(strategy: &DeploymentStrategy, now: &str) -> (r: Vec<
    (String, String),
>)
    ensures
        string_pair_views(r@) == strategy_annotations(strategy@, now@),
{
    let mut r: Vec<(String, String)> = Vec::new();
    match strategy {
        DeploymentStrategy::RedeployOnImageUpdate(hash) => {
            r.push((String::from_str("imageHash"), hash.clone()));
        },
        DeploymentStrategy::RedeployNever => {},
        DeploymentStrategy::RedeployAlways => {
            r.push((String::from_str("date"), now.to_owned()));
        },
    }
    proof {
        assert(string_pair_views(r@) =~= strategy_annotations(strategy@, now@));
    }
    r
}

/// The parents of the mounted files, each once, in order of first
/// occurrence; files without a parent are left out.
pub open spec fn distinct_parents(fs: Seq<(Seq<char>, Seq<char>)>) -> Seq<Seq<char>>
    decreases fs.len(),
{
    if fs.len() == 0 {
        Seq::empty()
    } else {
        let rest = distinct_parents(fs.drop_last());
        match parent_path(fs.last().0) {
            Option::Some(p) => if rest.contains(p) {
                rest
            } else {
                rest.push(p)
            },
            Option::None => rest,
        }
    }
}

/// The secret items mounted under one parent directory: for each file of
/// that parent, the dot-replaced file name as the key and the bare file
/// name as the path.
pub open spec fn secret_items(fs: Seq<(Seq<char>, Seq<char>)>, parent: Seq<char>) -> Seq<
    KeyToPathView,
>
    decreases fs.len(),
{
    if fs.len() == 0 {
        Seq::empty()
    } else {
        let rest = secret_items(fs.drop_last(), parent);
        if parent_path(fs.last().0) == Option::Some(parent) {
            rest.push(
                KeyToPathView {
                    key: dashed(after_last(fs.last().0, '/')),
                    path: after_last(fs.last().0, '/'),
                },
            )
        } else {
            rest
        }
    }
}

/// One mount per parent directory, at the parent's path.
pub open spec fn file_mounts(parents: Seq<Seq<char>>) -> Seq<VolumeMountPayloadView> {
    parents.map_values(
        |p: Seq<char>| VolumeMountPayloadView { name: name_of_path(p), mount_path: p },
    )
}

/// One secret-backed volume per parent directory, holding that parent's
/// files.
pub open spec fn file_volumes(
    fs: Seq<(Seq<char>, Seq<char>)>,
    parents: Seq<Seq<char>>,
    secret_name: Seq<char>,
) -> Seq<VolumePayloadView> {
    parents.map_values(
        |p: Seq<char>| VolumePayloadView {
            name: name_of_path(p),
            secret: Option::Some(SecretVolumeView { secret_name, items: secret_items(fs, p) }),
            persistent_volume_claim: Option::None,
        },
    )
}

/// Whether the list contains the given text.
#[verifier::loop_isolation(false)]
fn contains_string(v: &Vec<String>, s: &String) -> (r: bool)
    ensures
        r == string_views(v@).contains(s@),
{
    for j in 0..v.len()
        invariant
            forall|k: int| 0 <= k < j ==> v@[k]@ != s@,
    {
        if v[j] == *s {
            proof {
                assert(string_views(v@)[j as int] == s@);
            }
            return true;
        }
    }
    proof {
        if string_views(v@).contains(s@) {
            let i = choose|i: int|
                0 <= i < string_views(v@).len() && string_views(v@)[i] == s@;
            assert(v@[i]@ == s@);
            assert(false);
        }
    }
    false
}

/// Collects the distinct parents of the mounted files, in order of first
/// occurrence.
#[verifier::loop_isolation(false)]
fn distinct_parents_exec(files: &Vec<(String, String)>) -> (r: Vec<String>)
    ensures
        string_views(r@) == distinct_parents(string_pair_views(files@)),
{
    let mut r: Vec<String> = Vec::new();
    for i in 0..files.len()
        invariant
            string_views(r@) =~= distinct_parents(string_pair_views(files@.subrange(0, i as int))),
    {
        let ghost old_r = r@;
        match crate::paths::parent_of(files[i].0.as_str()) {
            Some(p) => {
                if !contains_string(&r, &p) {
                    r.push(p);
                }
            },
            None => {},
        }
        proof {
            assert(files@.subrange(0, i + 1 as int).drop_last() =~= files@.subrange(0, i as int));
            let pre = string_pair_views(files@.subrange(0, i as int));
            let cur = string_pair_views(files@.subrange(0, i + 1 as int));
            assert(cur.drop_last() =~= pre);
            assert(cur.last() == (files@[i as int].0@, files@[i as int].1@));
            assert(string_views(r@) =~= distinct_parents(cur));
        }
    }
    proof {
        assert(files@.subrange(0, files@.len() as int) =~= files@);
    }
    r
}

/// Collects the secret items of the files under one parent.
#[verifier::loop_isolation(false)]
fn secret_items_exec(files: &Vec<(String, String)>, parent: &String) -> (r: Vec<KeyToPathPayload>)
    ensures
        key_to_path_views(r@) == secret_items(string_pair_views(files@), parent@),
{
    let mut r: Vec<KeyToPathPayload> = Vec::new();
    for i in 0..files.len()
        invariant
            key_to_path_views(r@) =~= secret_items(
                string_pair_views(files@.subrange(0, i as int)),
                parent@,
            ),
    {
        let ghost old_r = r@;
        match crate::paths::parent_of(files[i].0.as_str()) {
            Some(p) => {
                if p == *parent {
                    r.push(
                        KeyToPathPayload {
                            key: crate::paths::secret_name_from_name(files[i].0.as_str()),
                            path: crate::paths::file_name_of(files[i].0.as_str()),
                        },
                    );
                }
            },
            None => {},
        }
        proof {
            assert(files@.subrange(0, i + 1 as int).drop_last() =~= files@.subrange(0, i as int));
            let pre = string_pair_views(files@.subrange(0, i as int));
            let cur = string_pair_views(files@.subrange(0, i + 1 as int));
            assert(cur.drop_last() =~= pre);
            assert(cur.last() == (files@[i as int].0@, files@[i as int].1@));
            assert(key_to_path_views(r@) =~= secret_items(cur, parent@));
        }
    }
    proof {
        assert(files@.subrange(0, files@.len() as int) =~= files@);
    }
    r
}

/// Builds the mounts of the file-backed volumes.
#[verifier::loop_isolation(false)]
fn file_mounts_exec(parents: &Vec<String>) -> (r: Vec<VolumeMountPayload>)
    ensures
        volume_mount_views(r@) == file_mounts(string_views(parents@)),
{
    let mut r: Vec<VolumeMountPayload> = Vec::new();
    for i in 0..parents.len()
        invariant
            r@.len() == i,
            forall|k: int|
                0 <= k < i ==> (#[trigger] r@[k])@ == (VolumeMountPayloadView {
                    name: name_of_path(parents@[k]@),
                    mount_path: parents@[k]@,
                }),
    {
        r.push(
            VolumeMountPayload {
                name: crate::paths::secret_name_from_path(parents[i].as_str()),
                mount_path: parents[i].clone(),
            },
        );
    }
    proof {
        assert(volume_mount_views(r@) =~= file_mounts(string_views(parents@)));
    }
    r
}

/// Builds the file-backed volumes, one per parent.
#[verifier::loop_isolation(false)]
fn file_volumes_exec(files: &Vec<(String, String)>, parents: &Vec<String>, secret_name: &String)
    -> (r: Vec<VolumePayload>)
    ensures
        volume_views(r@) == file_volumes(
            string_pair_views(files@),
            string_views(parents@),
            secret_name@,
        ),
{
    let mut r: Vec<VolumePayload> = Vec::new();
    for i in 0..parents.len()
        invariant
            r@.len() == i,
            forall|k: int|
                0 <= k < i ==> (#[trigger] r@[k])@ == (VolumePayloadView {
                    name: name_of_path(parents@[k]@),
                    secret: Option::Some(
                        SecretVolumeView {
                            secret_name: secret_name@,
                            items: secret_items(string_pair_views(files@), parents@[k]@),
                        },
                    ),
                    persistent_volume_claim: Option::None,
                }),
    {
        let items = secret_items_exec(files, &parents[i]);
        r.push(
            VolumePayload {
                name: crate::paths::secret_name_from_path(parents[i].as_str()),
                secret: Some(
                    SecretVolumePayload { secret_name: secret_name.clone(), items },
                ),
                persistent_volume_claim: None,
            },
        );
    }
    proof {
        assert(volume_views(r@) =~= file_volumes(
            string_pair_views(files@),
            string_views(parents@),
            secret_name@,
        ));
    }
    r
}

/// The declared external bindings, each path with its claim.
pub open spec fn pv_entry_views(s: Seq<(String, PvcPayload)>) -> Seq<(Seq<char>, PvcPayloadView)> {
    s.map_values(|p: (String, PvcPayload)| (p.0@, p.1@))
}

/// The external bindings of a synthesis call, where any were given.
pub open spec fn pv_map_views(m: Option<Vec<(String, PvcPayload)>>) -> Option<
    Seq<(Seq<char>, PvcPayloadView)>,
> {
    match m {
        Option::Some(v) => Option::Some(pv_entry_views(v@)),
        Option::None => Option::None,
    }
}

/// One mount per external binding, at its declared path.
pub open spec fn pv_mounts(pvs: Seq<(Seq<char>, PvcPayloadView)>) -> Seq<VolumeMountPayloadView> {
    pvs.map_values(|e: (Seq<char>, PvcPayloadView)| pvc_volume_mount_view(e.0, e.1))
}

/// One volume per external binding, referencing its claim.
pub open spec fn pv_volumes(pvs: Seq<(Seq<char>, PvcPayloadView)>) -> Seq<VolumePayloadView> {
    pvs.map_values(|e: (Seq<char>, PvcPayloadView)| pvc_volume_view(e.1))
}

/// All mounts of a workload: the file-backed mounts, then the external
/// bindings. The field is left out only when the service mounts no files
/// and no bindings were given.
pub open spec fn all_mounts(
    files: Option<Seq<(Seq<char>, Seq<char>)>>,
    pvs: Option<Seq<(Seq<char>, PvcPayloadView)>>,
) -> Option<Seq<VolumeMountPayloadView>> {
    match pvs {
        Option::Some(pv) => Option::Some(
            (match files {
                Option::Some(fs) => file_mounts(distinct_parents(fs)),
                Option::None => Seq::empty(),
            }) + pv_mounts(pv),
        ),
        Option::None => match files {
            Option::Some(fs) => Option::Some(file_mounts(distinct_parents(fs))),
            Option::None => Option::None,
        },
    }
}

/// All volumes of a workload: the file-backed volumes, then the external
/// bindings. The field is left out only when the service mounts no files
/// and no bindings were given.
pub open spec fn all_volumes(
    files: Option<Seq<(Seq<char>, Seq<char>)>>,
    pvs: Option<Seq<(Seq<char>, PvcPayloadView)>>,
    secret_name: Seq<char>,
) -> Option<Seq<VolumePayloadView>> {
    match pvs {
        Option::Some(pv) => Option::Some(
            (match files {
                Option::Some(fs) => file_volumes(fs, distinct_parents(fs), secret_name),
                Option::None => Seq::empty(),
            }) + pv_volumes(pv),
        ),
        Option::None => match files {
            Option::Some(fs) => Option::Some(file_volumes(fs, distinct_parents(fs), secret_name)),
            Option::None => Option::None,
        },
    }
}

/// The one container of a service's workload: the service name, the
/// fully qualified image pulled on every start, the environment, the
/// mounts, the single declared port, and the memory ceiling.
pub open spec fn deployment_container_view(
    svc: crate::deployment::DeployableServiceView,
    memory_limit: Option<u64>,
    pvs: Option<Seq<(Seq<char>, PvcPayloadView)>>,
) -> ContainerPayloadView {
    ContainerPayloadView {
        name: svc.config.service_name,
        image: image_text(svc.config.image),
        image_pull_policy: "Always"@,
        env: match svc.config.env {
            Option::Some(e) => Option::Some(env_payload_views_of(e)),
            Option::None => Option::None,
        },
        volume_mounts: all_mounts(svc.config.files, pvs),
        ports: seq![svc.config.port],
        memory_limit,
    }
}

/// The workload of one service: deterministic name and namespace, one
/// label set used identically on the workload, its selector and its pod
/// template, the image and replicated-environment annotations, the
/// strategy's forcing annotation on the pod template, one container, the
/// file-backed and externally bound volumes, a single replica, and the
/// image-pull credential reference where the flag asks for it.
pub open spec fn deployment_payload_view(
    app: Seq<char>,
    svc: crate::deployment::DeployableServiceView,
    memory_limit: Option<u64>,
    use_image_pull_secret: bool,
    pvs: Option<Seq<(Seq<char>, PvcPayloadView)>>,
    now: Seq<char>,
) -> DeploymentPayloadView {
    DeploymentPayloadView {
        metadata: MetadataView {
            name: Option::Some(deployment_name_text(app, svc.config.service_name)),
            generate_name: Option::None,
            namespace: Option::Some(normalized(app)),
            labels: Option::Some(
                deployment_labels(app, svc.config.service_name, svc.config.container_type),
            ),
            annotations: Option::Some(
                deployment_meta_annotations(svc.config.image, svc.config.env),
            ),
        },
        replicas: 1,
        selector_match_labels: deployment_labels(
            app,
            svc.config.service_name,
            svc.config.container_type,
        ),
        template: Option::Some(
            PodTemplateView {
                metadata: MetadataView {
                    name: Option::None,
                    generate_name: Option::None,
                    namespace: Option::None,
                    labels: Option::Some(
                        deployment_labels(app, svc.config.service_name, svc.config.container_type),
                    ),
                    annotations: Option::Some(strategy_annotations(svc.strategy, now)),
                },
                containers: seq![deployment_container_view(svc, memory_limit, pvs)],
                volumes: all_volumes(
                    svc.config.files,
                    pvs,
                    secret_name_text(app, svc.config.service_name),
                ),
                image_pull_secrets: if use_image_pull_secret {
                    Option::Some(seq![image_pull_secret_name_text(app)])
                } else {
                    Option::None
                },
            },
        ),
    }
}


proof fn lemma_volume_mount_views_push(a: Seq<VolumeMountPayload>, x: VolumeMountPayload)
    ensures
        volume_mount_views(a.push(x)) =~= volume_mount_views(a).push(x@),
{
}

proof fn lemma_volume_views_push(a: Seq<VolumePayload>, x: VolumePayload)
    ensures
        volume_views(a.push(x)) =~= volume_views(a).push(x@),
{
}

proof fn lemma_pv_mounts_push(a: Seq<(Seq<char>, PvcPayloadView)>, x: (Seq<char>, PvcPayloadView))
    ensures
        pv_mounts(a.push(x)) =~= pv_mounts(a).push(pvc_volume_mount_view(x.0, x.1)),
{
}

proof fn lemma_pv_volumes_push(
    a: Seq<(Seq<char>, PvcPayloadView)>,
    x: (Seq<char>, PvcPayloadView),
)
    ensures
        pv_volumes(a.push(x)) =~= pv_volumes(a).push(pvc_volume_view(x.1)),
{
}

/// Appends the mounts and volumes of the external bindings.
#[verifier::loop_isolation(false)]
fn append_pv_parts(
    mounts: &mut Vec<VolumeMountPayload>,
    vols: &mut Vec<VolumePayload>,
    pvs: &Vec<(String, PvcPayload)>,
)
    ensures
        volume_mount_views(final(mounts)@) == volume_mount_views(old(mounts)@) + pv_mounts(
            pv_entry_views(pvs@),
        ),
        volume_views(final(vols)@) == volume_views(old(vols)@) + pv_volumes(pv_entry_views(pvs@)),
{
    let ghost base_mounts = volume_mount_views(mounts@);
    let ghost base_vols = volume_views(vols@);
    for i in 0..pvs.len()
        invariant
            volume_mount_views(mounts@) =~= base_mounts + pv_mounts(
                pv_entry_views(pvs@.subrange(0, i as int)),
            ),
            volume_views(vols@) =~= base_vols + pv_volumes(
                pv_entry_views(pvs@.subrange(0, i as int)),
            ),
    {
        let mount = pvc_volume_mount_payload(pvs[i].0.as_str(), &pvs[i].1);
        let vol = pvc_volume_payload(&pvs[i].1);
        proof {
            assert(mount@ == pvc_volume_mount_view(pvs@[i as int].0@, pvs@[i as int].1@));
            assert(vol@ == pvc_volume_view(pvs@[i as int].1@));
        }
        let ghost prev_mounts = mounts@;
        let ghost prev_vols = vols@;
        mounts.push(mount);
        vols.push(vol);
        proof {
            lemma_volume_mount_views_push(prev_mounts, mount);
            lemma_volume_views_push(prev_vols, vol);
            let pre = pv_entry_views(pvs@.subrange(0, i as int));
            let cur = pv_entry_views(pvs@.subrange(0, i + 1 as int));
            assert(cur =~= pre.push((pvs@[i as int].0@, pvs@[i as int].1@)));
            lemma_pv_mounts_push(pre, (pvs@[i as int].0@, pvs@[i as int].1@));
            lemma_pv_volumes_push(pre, (pvs@[i as int].0@, pvs@[i as int].1@));
            assert(pv_mounts(cur) =~= pv_mounts(pre).push(
                pvc_volume_mount_view(pvs@[i as int].0@, pvs@[i as int].1@),
            ));
            assert(pv_volumes(cur) =~= pv_volumes(pre).push(pvc_volume_view(pvs@[i as int].1@)));
            assert(volume_mount_views(mounts@) =~= volume_mount_views(prev_mounts).push(mount@));
            assert(volume_mount_views(mounts@) =~= (base_mounts + pv_mounts(pre)).push(mount@));
            assert((base_mounts + pv_mounts(pre)).push(mount@) =~= base_mounts + pv_mounts(
                pre,
            ).push(mount@));
            assert(volume_mount_views(mounts@) =~= base_mounts + pv_mounts(cur));
            assert(volume_views(vols@) =~= volume_views(prev_vols).push(vol@));
            assert((base_vols + pv_volumes(pre)).push(vol@) =~= base_vols + pv_volumes(pre).push(
                vol@,
            ));
            assert(volume_views(vols@) =~= base_vols + pv_volumes(cur));
        }
    }
    proof {
        assert(pvs@.subrange(0, pvs@.len() as int) =~= pvs@);
        assert(volume_mount_views(mounts@) =~= base_mounts + pv_mounts(pv_entry_views(pvs@)));
        assert(volume_views(vols@) =~= base_vols + pv_volumes(pv_entry_views(pvs@)));
    }
}

/// Creates the workload for a service, with the redeploy-forcing
/// annotation taken from the given timestamp.
#[verifier::loop_isolation(false)]
#[verifier::rlimit(90)]
pub fn deployment_payload_with_timestamp(
    app_name: &AppName,
    service: &DeployableService,
    container_config: &crate::models::ContainerConfig,
    use_image_pull_secret: bool,
    persistent_volume_map: &Option<Vec<(String, PvcPayload)>>,
    now: &str,
) -> (r: DeploymentPayload)
    ensures
        r@ == deployment_payload_view(
            app_name@,
            service@,
            container_config@,
            use_image_pull_secret,
            pv_map_views(*persistent_volume_map),
            now@,
        ),
{
    let labels = deployment_labels_exec(app_name, service.service_name(), service.container_type());
    let selector = clone_pairs(&labels);
    let template_labels = clone_pairs(&labels);
    let meta_annotations = meta_annotations_exec(service.image(), service.env());
    let template_annotations = strategy_annotations_exec(service.strategy(), now);
    let env: Option<Vec<EnvVarPayload>> = match service.env() {
        Some(e) => Some(env_payloads(e)),
        None => None,
    };
    let file_parts: Option<(Vec<VolumeMountPayload>, Vec<VolumePayload>)> = match service.files() {
        Some(files) => {
            let parents = distinct_parents_exec(files);
            let mounts = file_mounts_exec(&parents);
            let secret_name = named_with_suffix(
                app_name,
                service.service_name().as_str(),
                "-secret",
            );
            let vols = file_volumes_exec(files, &parents, &secret_name);
            Some((mounts, vols))
        },
        None => None,
    };
    let ghost spec_files = service@.config.files;
    let ghost spec_pvs = pv_map_views(*persistent_volume_map);
    let ghost spec_secret_name = secret_name_text(app_name@, service@.config.service_name);
    let (volume_mounts, volumes): (Option<Vec<VolumeMountPayload>>, Option<Vec<VolumePayload>>) =
        match persistent_volume_map {
        Some(pvs) => {
            let (mut mounts, mut vols) = match file_parts {
                Some(p) => p,
                None => (Vec::new(), Vec::new()),
            };
            append_pv_parts(&mut mounts, &mut vols, pvs);
            proof {
                assert(volume_mount_views(mounts@) =~= all_mounts(spec_files, spec_pvs)->0);
                assert(volume_views(vols@) =~= all_volumes(
                    spec_files,
                    spec_pvs,
                    spec_secret_name,
                )->0);
            }
            (Some(mounts), Some(vols))
        },
        None => {
            match file_parts {
                Some(p) => (Some(p.0), Some(p.1)),
                None => (None, None),
            }
        },
    };
    let mut ports: Vec<u16> = Vec::new();
    ports.push(service.port());
    let container = ContainerPayload {
        name: service.service_name().clone(),
        image: service.image().to_string(),
        image_pull_policy: String::from_str("Always"),
        env,
        volume_mounts,
        ports,
        memory_limit: container_config.memory_limit(),
    };
    proof {
        assert(container@ =~~= deployment_container_view(
            service@,
            container_config@,
            spec_pvs,
        ));
    }
    let image_pull_secrets: Option<Vec<String>> = if use_image_pull_secret {
        let mut names: Vec<String> = Vec::new();
        let mut n = app_name.to_rfc1123_namespace_id();
        n.append("-image-pull-secret");
        names.push(n);
        proof {
            assert(string_views(names@) =~= seq![image_pull_secret_name_text(app_name@)]);
        }
        Some(names)
    } else {
        None
    };
    let mut containers: Vec<ContainerPayload> = Vec::new();
    containers.push(container);
    let template = PodTemplatePayload {
        metadata: Metadata {
            name: None,
            generate_name: None,
            namespace: None,
            labels: Some(template_labels),
            annotations: Some(template_annotations),
        },
        containers,
        volumes,
        image_pull_secrets,
    };
    let r = DeploymentPayload {
        metadata: Metadata {
            name: Some(named_with_suffix(app_name, service.service_name().as_str(), "-deployment")),
            generate_name: None,
            namespace: Some(app_name.to_rfc1123_namespace_id()),
            labels: Some(labels),
            annotations: Some(meta_annotations),
        },
        replicas: 1,
        selector_match_labels: selector,
        template: Some(template),
    };
    proof {
        assert(r@.template->0.containers =~= seq![
            deployment_container_view(service@, container_config@, spec_pvs),
        ]);
        assert(r@ =~~= deployment_payload_view(
            app_name@,
            service@,
            container_config@,
            use_image_pull_secret,
            spec_pvs,
            now@,
        ));
    }
    r
}

/// Creates the workload for a service. The redeploy-forcing annotation of
/// the always-force strategy is taken from the wall clock at the moment
/// of the call: the result is the synthesis of the same inputs at some
/// timestamp.
pub fn deployment_payload(
    app_name: &AppName,
    service: &DeployableService,
    container_config: &crate::models::ContainerConfig,
    use_image_pull_secret: bool,
    persistent_volume_map: &Option<Vec<(String, PvcPayload)>>,
) -> (r: DeploymentPayload)
    ensures
        exists|now: Seq<char>|
            r@ == deployment_payload_view(
                app_name@,
                service@,
                container_config@,
                use_image_pull_secret,
                pv_map_views(*persistent_volume_map),
                now,
            ),
{
    let now = crate::clock::now_rfc3339();
    let r = deployment_payload_with_timestamp(
        app_name,
        service,
        container_config,
        use_image_pull_secret,
        persistent_volume_map,
        now.as_str(),
    );
    proof {
        assert(r@ == deployment_payload_view(
            app_name@,
            service@,
            container_config@,
            use_image_pull_secret,
            pv_map_views(*persistent_volume_map),
            now@,
        ));
    }
    r
}



/// The mathematical form of a secret payload.
#[verifier::ext_equal]
pub struct SecretPayloadView {
    pub metadata: MetadataView,
    pub secret_type: Seq<char>,
    pub immutable: Option<bool>,
    pub data: Seq<(Seq<char>, Seq<char>)>,
}

/// A secret: its metadata, its kind, whether it is immutable, and its
/// entries.
#[derive(Debug, PartialEq, Eq)]
pub struct SecretPayload {
    pub metadata: Metadata,
    pub secret_type: String,
    pub immutable: Option<bool>,
    pub data: Vec<(String, String)>,
}

impl View for SecretPayload {
    type V = SecretPayloadView;

    open spec fn view(&self) -> SecretPayloadView {
        SecretPayloadView {
            metadata: self.metadata@,
            secret_type: self.secret_type@,
            immutable: self.immutable,
            data: string_pair_views(self.data@),
        }
    }
}

/// The entries of a file secret: for each file, the dot-replaced file
/// name keyed to the base64 encoding of its content, in the order the
/// files were given.
pub open spec fn secret_data(files: Seq<(Seq<char>, Seq<char>)>) -> Seq<(Seq<char>, Seq<char>)> {
    files.map_values(
        |f: (Seq<char>, Seq<char>)| (dashed(after_last(f.0, '/')), crate::codec::base64_std_of(f.1)),
    )
}

/// The file secret of one service: named `{app}-{service}-secret` in the
/// application's namespace, carrying the service's label set, of the
/// opaque kind, with one entry per mounted file.
pub open spec fn secrets_payload_view(
    app: Seq<char>,
    svc: crate::models::ServiceConfigView,
    files: Seq<(Seq<char>, Seq<char>)>,
) -> SecretPayloadView {
    SecretPayloadView {
        metadata: MetadataView {
            name: Option::Some(secret_name_text(app, svc.service_name)),
            generate_name: Option::None,
            namespace: Option::Some(normalized(app)),
            labels: Option::Some(deployment_labels(app, svc.service_name, svc.container_type)),
            annotations: Option::None,
        },
        secret_type: "Opaque"@,
        immutable: Option::None,
        data: secret_data(files),
    }
}

/// Creates the file secret for a service. The length bound on each
/// file's content is what keeps the base64 engine's output size within
/// `usize`.
#[verifier::loop_isolation(false)]
pub fn secrets_payload(
    app_name: &AppName,
    service_config: &ServiceConfig,
    files: &Vec<(String, String)>,
) -> (r: SecretPayload)
    requires
        forall|i: int|
            0 <= i < files@.len() ==> vstd::utf8::encode_utf8((#[trigger] files@[i]).1@).len() / 3
                * 4 + 4 <= usize::MAX as int,
    ensures
        r@ == secrets_payload_view(app_name@, service_config@, string_pair_views(files@)),
{
    let mut data: Vec<(String, String)> = Vec::new();
    for i in 0..files.len()
        invariant
            data@.len() == i,
            forall|k: int|
                0 <= k < i ==> (#[trigger] data@[k]).0@ == dashed(after_last(files@[k].0@, '/'))
                    && data@[k].1@ == crate::codec::base64_std_of(files@[k].1@),
    {
        data.push(
            (
                crate::paths::secret_name_from_name(files[i].0.as_str()),
                crate::codec::base64_encode(files[i].1.as_str()),
            ),
        );
    }
    proof {
        assert(string_pair_views(data@) =~= secret_data(string_pair_views(files@)));
    }
    let r = SecretPayload {
        metadata: Metadata {
            name: Some(named_with_suffix(app_name, service_config.service_name().as_str(), "-secret")),
            generate_name: None,
            namespace: Some(app_name.to_rfc1123_namespace_id()),
            labels: Some(
                deployment_labels_exec(
                    app_name,
                    service_config.service_name(),
                    service_config.container_type(),
                ),
            ),
            annotations: None,
        },
        secret_type: String::from_str("Opaque"),
        immutable: None,
        data,
    };
    proof {
        assert(r@ =~~= secrets_payload_view(
            app_name@,
            service_config@,
            string_pair_views(files@),
        ));
    }
    r
}

/// The registries and their credentials, each user name and password.
pub open spec fn credential_views(s: Seq<(String, (String, String))>) -> Seq<
    (Seq<char>, (Seq<char>, Seq<char>)),
> {
    s.map_values(|c: (String, (String, String))| (c.0@, (c.1.0@, c.1.1@)))
}

/// The credential record of one registry.
pub open spec fn credential_object(user: Seq<char>, password: Seq<char>) -> JsonView {
    JsonView::Obj(
        seq![("password"@, JsonView::Str(password)), ("username"@, JsonView::Str(user))],
    )
}

/// The members of the credential map: one per registry, in the order
/// given.
pub open spec fn credential_entries(creds: Seq<(Seq<char>, (Seq<char>, Seq<char>))>) -> Seq<
    (Seq<char>, JsonView),
>
    decreases creds.len(),
{
    if creds.len() == 0 {
        Seq::empty()
    } else {
        credential_entries(creds.drop_last()).push(
            (creds.last().0, credential_object(creds.last().1.0, creds.last().1.1)),
        )
    }
}

/// The serialized credential configuration of the backend's
/// docker-credential shape.
pub open spec fn docker_config_text(creds: Seq<(Seq<char>, (Seq<char>, Seq<char>))>) -> Seq<
    char,
> {
    json_text(JsonView::Obj(seq![("auths"@, JsonView::Obj(credential_entries(creds)))]))
}

/// The image-pull credential secret of an application: named
/// `{app}-image-pull-secret` in the application's namespace, labeled with
/// the raw identifier, immutable, of the docker-credential kind, with the
/// serialized credential configuration under its well-known key.
pub open spec fn image_pull_secret_view(
    app: Seq<char>,
    creds: Seq<(Seq<char>, (Seq<char>, Seq<char>))>,
) -> SecretPayloadView {
    SecretPayloadView {
        metadata: MetadataView {
            name: Option::Some(image_pull_secret_name_text(app)),
            generate_name: Option::None,
            namespace: Option::Some(normalized(app)),
            labels: Option::Some(seq![(app_name_label(), app)]),
            annotations: Option::None,
        },
        secret_type: "kubernetes.io/dockerconfigjson"@,
        immutable: Option::Some(true),
        data: seq![(".dockerconfigjson"@, docker_config_text(creds))],
    }
}

/// Creates the image-pull credential secret for an application.
#[verifier::loop_isolation(false)]
pub fn image_pull_secret_payload(
    app_name: &AppName,
    registries_and_credentials: &Vec<(String, (String, String))>,
) -> (r: SecretPayload)
    ensures
        r@ == image_pull_secret_view(app_name@, credential_views(registries_and_credentials@)),
{
    let creds = registries_and_credentials;
    let mut entries: Vec<(String, JsonValue)> = Vec::new();
    for i in 0..creds.len()
        invariant
            json_view_entries(entries@) =~= credential_entries(
                credential_views(creds@.subrange(0, i as int)),
            ),
    {
        let password_value = JsonValue::Str(creds[i].1.1.clone());
        let username_value = JsonValue::Str(creds[i].1.0.clone());
        proof {
            assert(password_value@ == JsonView::Str(creds@[i as int].1.1@));
            assert(username_value@ == JsonView::Str(creds@[i as int].1.0@));
        }
        let mut fields: Vec<(String, JsonValue)> = Vec::new();
        fields.push((String::from_str("password"), password_value));
        fields.push((String::from_str("username"), username_value));
        let ghost fs = fields@;
        let cred_obj = JsonValue::Obj(fields);
        proof {
            reveal_strlit("password");
            reveal_strlit("username");
            assert(cred_obj@ == JsonView::Obj(json_view_entries(fs)));
            assert(fs.drop_last().drop_last() =~= Seq::<(String, JsonValue)>::empty());
            assert(json_view_entries(fs.drop_last().drop_last()) =~= Seq::<
                (Seq<char>, JsonView),
            >::empty());
            assert(json_view_entries(fs.drop_last()) =~= seq![
                ("password"@, JsonView::Str(creds@[i as int].1.1@)),
            ]);
            assert(json_view_entries(fs) =~~= seq![
                ("password"@, JsonView::Str(creds@[i as int].1.1@)),
                ("username"@, JsonView::Str(creds@[i as int].1.0@)),
            ]);
            assert(credential_object(creds@[i as int].1.0@, creds@[i as int].1.1@)
                == JsonView::Obj(seq![
                ("password"@, JsonView::Str(creds@[i as int].1.1@)),
                ("username"@, JsonView::Str(creds@[i as int].1.0@)),
            ]));
            assert(cred_obj@ == credential_object(creds@[i as int].1.0@, creds@[i as int].1.1@));
        }
        let ghost old_entries = entries@;
        entries.push((creds[i].0.clone(), cred_obj));
        proof {
            assert(entries@.drop_last() =~= old_entries);
            assert(json_view_entries(entries@) =~= json_view_entries(old_entries).push(
                (creds@[i as int].0@, credential_object(creds@[i as int].1.0@, creds@[i as int].1.1@)),
            ));
            let pre = credential_views(creds@.subrange(0, i as int));
            let cur = credential_views(creds@.subrange(0, i + 1 as int));
            assert(cur.drop_last() =~= pre);
            assert(cur.last() == (creds@[i as int].0@, (creds@[i as int].1.0@, creds@[i as int].1.1@)));
            assert(json_view_entries(entries@) =~= credential_entries(cur));
        }
    }
    proof {
        assert(creds@.subrange(0, creds@.len() as int) =~= creds@);
    }
    let ghost auth_entries = entries@;
    let auths_obj = JsonValue::Obj(entries);
    proof {
        assert(auths_obj@ == JsonView::Obj(json_view_entries(auth_entries)));
    }
    let mut top: Vec<(String, JsonValue)> = Vec::new();
    top.push((String::from_str("auths"), auths_obj));
    let ghost top_view = top@;
    let config_value = JsonValue::Obj(top);
    let config_text = config_value.to_json_string();
    proof {
        reveal_strlit("auths");
        assert(top_view.drop_last() =~= Seq::<(String, JsonValue)>::empty());
        assert(json_view_entries(Seq::<(String, JsonValue)>::empty()) =~= Seq::<
            (Seq<char>, JsonView),
        >::empty());
        assert(json_view_entries(top_view) =~= seq![
            ("auths"@, JsonView::Obj(credential_entries(credential_views(creds@)))),
        ]);
        assert(config_value@ =~~= JsonView::Obj(seq![
            ("auths"@, JsonView::Obj(credential_entries(credential_views(creds@)))),
        ]));
        assert(config_text@ == docker_config_text(credential_views(creds@)));
    }
    let mut labels: Vec<(String, String)> = Vec::new();
    labels.push((String::from_str("com.aixigo.preview.servant.app-name"), app_name.to_string()));
    let mut data: Vec<(String, String)> = Vec::new();
    data.push((String::from_str(".dockerconfigjson"), config_text));
    let mut name = app_name.to_rfc1123_namespace_id();
    name.append("-image-pull-secret");
    let r = SecretPayload {
        metadata: Metadata {
            name: Some(name),
            generate_name: None,
            namespace: Some(app_name.to_rfc1123_namespace_id()),
            labels: Some(labels),
            annotations: None,
        },
        secret_type: String::from_str("kubernetes.io/dockerconfigjson"),
        immutable: Some(true),
        data,
    };
    proof {
        assert(r@.metadata.labels->0 =~= seq![(app_name_label(), app_name@)]);
        assert(r@.data =~= seq![
            (".dockerconfigjson"@, docker_config_text(credential_views(creds@))),
        ]);
        assert(r@ =~~= image_pull_secret_view(app_name@, credential_views(creds@)));
    }
    r
}



/// The mathematical form of one routing-rule service target.
#[verifier::ext_equal]
pub struct TraefikRuleServiceView {
    pub kind: Option<Seq<char>>,
    pub name: Seq<char>,
    pub port: Option<u16>,
}

/// The target of one routing rule: the service it forwards to.
#[derive(Debug, PartialEq, Eq)]
pub struct TraefikRuleService {
    pub kind: Option<String>,
    pub name: String,
    pub port: Option<u16>,
}

impl View for TraefikRuleService {
    type V = TraefikRuleServiceView;

    open spec fn view(&self) -> TraefikRuleServiceView {
        TraefikRuleServiceView {
            kind: self.kind.deep_view(),
            name: self.name@,
            port: self.port,
        }
    }
}

/// The mathematical form of one middleware reference of a routing rule.
#[verifier::ext_equal]
pub struct TraefikRuleMiddlewareView {
    pub name: Seq<char>,
}

/// One middleware reference of a routing rule, by name.
#[derive(Debug, PartialEq, Eq)]
pub struct TraefikRuleMiddleware {
    pub name: String,
}

impl View for TraefikRuleMiddleware {
    type V = TraefikRuleMiddlewareView;

    open spec fn view(&self) -> TraefikRuleMiddlewareView {
        TraefikRuleMiddlewareView { name: self.name@ }
    }
}

/// The mathematical forms of a rule's middleware references.
pub open spec fn rule_middleware_payload_views(s: Seq<TraefikRuleMiddleware>) -> Seq<
    TraefikRuleMiddlewareView,
> {
    s.map_values(|m: TraefikRuleMiddleware| m@)
}

/// The mathematical forms of a rule's service targets.
pub open spec fn rule_service_views(s: Seq<TraefikRuleService>) -> Seq<TraefikRuleServiceView> {
    s.map_values(|x: TraefikRuleService| x@)
}

/// The mathematical form of one stored routing rule.
#[verifier::ext_equal]
pub struct TraefikRuleSpecView {
    pub kind: Seq<char>,
    pub match_rule: Seq<char>,
    pub services: Seq<TraefikRuleServiceView>,
    pub middlewares: Option<Seq<TraefikRuleMiddlewareView>>,
}

/// One stored routing rule: its kind, its match predicate as text, its
/// targets and its middleware references.
#[derive(Debug, PartialEq, Eq)]
pub struct TraefikRuleSpec {
    pub kind: String,
    pub match_rule: String,
    pub services: Vec<TraefikRuleService>,
    pub middlewares: Option<Vec<TraefikRuleMiddleware>>,
}

impl View for TraefikRuleSpec {
    type V = TraefikRuleSpecView;

    open spec fn view(&self) -> TraefikRuleSpecView {
        TraefikRuleSpecView {
            kind: self.kind@,
            match_rule: self.match_rule@,
            services: rule_service_views(self.services@),
            middlewares: match self.middlewares {
                Option::Some(m) => Option::Some(rule_middleware_payload_views(m@)),
                Option::None => Option::None,
            },
        }
    }
}

/// The mathematical forms of a list of stored routing rules.
pub open spec fn rule_spec_views(s: Seq<TraefikRuleSpec>) -> Seq<TraefikRuleSpecView> {
    s.map_values(|x: TraefikRuleSpec| x@)
}

/// The mathematical form of a stored TLS configuration.
#[verifier::ext_equal]
pub struct TraefikTlsView {
    pub cert_resolver: Option<Seq<char>>,
}

/// The stored TLS configuration of a route: an optional certificate
/// resolver.
#[derive(Debug, PartialEq, Eq)]
pub struct TraefikTls {
    pub cert_resolver: Option<String>,
}

impl View for TraefikTls {
    type V = TraefikTlsView;

    open spec fn view(&self) -> TraefikTlsView {
        TraefikTlsView { cert_resolver: self.cert_resolver.deep_view() }
    }
}

/// The mathematical form of a stored routing-route specification.
#[verifier::ext_equal]
pub struct IngressRouteSpecView {
    pub entrypoints: Option<Seq<Seq<char>>>,
    pub routes: Option<Seq<TraefikRuleSpecView>>,
    pub tls: Option<TraefikTlsView>,
}

/// The specification of a stored routing route: its entrypoints, its
/// rules, and its TLS configuration.
#[derive(Debug, PartialEq, Eq)]
pub struct IngressRouteSpec {
    pub entrypoints: Option<Vec<String>>,
    pub routes: Option<Vec<TraefikRuleSpec>>,
    pub tls: Option<TraefikTls>,
}

impl View for IngressRouteSpec {
    type V = IngressRouteSpecView;

    open spec fn view(&self) -> IngressRouteSpecView {
        IngressRouteSpecView {
            entrypoints: match self.entrypoints {
                Option::Some(e) => Option::Some(string_views(e@)),
                Option::None => Option::None,
            },
            routes: match self.routes {
                Option::Some(r) => Option::Some(rule_spec_views(r@)),
                Option::None => Option::None,
            },
            tls: match self.tls {
                Option::Some(t) => Option::Some(t@),
                Option::None => Option::None,
            },
        }
    }
}

/// The mathematical form of a stored routing route.
#[verifier::ext_equal]
pub struct IngressRouteView {
    pub metadata: MetadataView,
    pub spec: IngressRouteSpecView,
}

/// A stored routing route: the object the synthesis emits and the
/// reconstruction reads back.
#[derive(Debug, PartialEq, Eq)]
pub struct IngressRoute {
    pub metadata: Metadata,
    pub spec: IngressRouteSpec,
}

impl View for IngressRoute {
    type V = IngressRouteView;

    open spec fn view(&self) -> IngressRouteView {
        IngressRouteView { metadata: self.metadata@, spec: self.spec@ }
    }
}

/// The mathematical form of a middleware object.
#[verifier::ext_equal]
pub struct MiddlewareView {
    pub metadata: MetadataView,
    pub spec: JsonView,
}

/// The opaque specification a middleware object carries.
#[derive(Debug, PartialEq, Eq)]
pub struct MiddlewareSpec(pub JsonValue);

impl View for MiddlewareSpec {
    type V = JsonView;

    open spec fn view(&self) -> JsonView {
        self.0@
    }
}

/// A materialized middleware object: its metadata and its opaque
/// specification.
#[derive(Debug, PartialEq, Eq)]
pub struct Middleware {
    pub metadata: Metadata,
    pub spec: MiddlewareSpec,
}

impl View for Middleware {
    type V = MiddlewareView;

    open spec fn view(&self) -> MiddlewareView {
        MiddlewareView { metadata: self.metadata@, spec: self.spec@ }
    }
}

/// The mathematical forms of a list of middleware objects.
pub open spec fn middleware_payload_views(s: Seq<Middleware>) -> Seq<MiddlewareView> {
    s.map_values(|x: Middleware| x@)
}

/// The name under which a route refers to a middleware: a reference is
/// passed through unchanged; an inline specification whose name is a
/// valid application identifier is renamed to the identifier's
/// normalized form, since such names may themselves be application
/// identifiers and backend names forbid upper case.
pub open spec fn resolved_middleware_name(m: TraefikMiddlewareView) -> Seq<char> {
    match m {
        TraefikMiddlewareView::Ref(name) => name,
        TraefikMiddlewareView::Spec { name, spec } => if is_valid_app_name(name) {
            normalized(name)
        } else {
            name
        },
    }
}

/// The middleware references of one rule: each middleware under its
/// resolved name.
pub open spec fn rule_middleware_refs(ms: Seq<TraefikMiddlewareView>) -> Seq<
    TraefikRuleMiddlewareView,
> {
    ms.map_values(
        |m: TraefikMiddlewareView| TraefikRuleMiddlewareView { name: resolved_middleware_name(m) },
    )
}

/// The stored rules of a service's route: one per route entry, each a
/// `Rule` carrying the predicate text, targeting the service on its
/// port, with the resolved middleware references.
pub open spec fn route_rule_specs(
    routes: Seq<RouteEntryView>,
    service: Seq<char>,
    port: u16,
) -> Seq<TraefikRuleSpecView> {
    routes.map_values(
        |e: RouteEntryView| TraefikRuleSpecView {
            kind: "Rule"@,
            match_rule: rule_text(e.rule),
            services: seq![
                TraefikRuleServiceView {
                    kind: Option::Some("Service"@),
                    name: service,
                    port: Option::Some(port),
                },
            ],
            middlewares: Option::Some(rule_middleware_refs(e.middlewares)),
        },
    )
}

/// The annotations of a routing route: the service's identity and the
/// entrypoint the reverse proxy serves.
pub open spec fn ingress_route_annotations(
    app: Seq<char>,
    service: Seq<char>,
    ct: ContainerType,
) -> Seq<(Seq<char>, Seq<char>)> {
    seq![
        (app_name_label(), app),
        (container_type_label(), container_type_text(ct)),
        (service_name_label(), service),
        ("traefik.ingress.kubernetes.io/router.entrypoints"@, "web"@),
    ]
}

/// The routing route of one service: named
/// `{app}-{service}-ingress-route` in the application's namespace, with
/// one stored rule per route entry.
pub open spec fn ingress_route_payload_view(
    app: Seq<char>,
    svc: crate::deployment::DeployableServiceView,
) -> IngressRouteView {
    IngressRouteView {
        metadata: MetadataView {
            name: Option::Some(ingress_route_name_text(app, svc.config.service_name)),
            generate_name: Option::None,
            namespace: Option::Some(normalized(app)),
            labels: Option::None,
            annotations: Option::Some(
                ingress_route_annotations(app, svc.config.service_name, svc.config.container_type),
            ),
        },
        spec: IngressRouteSpecView {
            entrypoints: Option::None,
            routes: Option::Some(
                route_rule_specs(svc.ingress_route.routes, svc.config.service_name, svc.config.port),
            ),
            tls: Option::None,
        },
    }
}

/// Resolves one middleware to the name a route refers to it by.
fn resolved_middleware_name_exec(m: &crate::traefik::TraefikMiddleware) -> (r: String)
    ensures
        r@ == resolved_middleware_name(m@),
{
    match m {
        crate::traefik::TraefikMiddleware::Ref(name) => name.clone(),
        crate::traefik::TraefikMiddleware::Spec { name, spec } => {
            match AppName::from_str(name.as_str()) {
                Some(app) => app.to_rfc1123_namespace_id(),
                None => name.clone(),
            }
        },
    }
}

/// Builds the middleware references of one route entry.
#[verifier::loop_isolation(false)]
fn rule_middlewares_exec(entry: &crate::traefik::TraefikIngressRouteEntry) -> (r: Vec<
    TraefikRuleMiddleware,
>)
    ensures
        rule_middleware_payload_views(r@) == rule_middleware_refs(entry@.middlewares),
{
    let ms = entry.middlewares();
    let mut r: Vec<TraefikRuleMiddleware> = Vec::new();
    for i in 0..ms.len()
        invariant
            r@.len() == i,
            forall|k: int|
                0 <= k < i ==> (#[trigger] r@[k])@ == (TraefikRuleMiddlewareView {
                    name: resolved_middleware_name(entry@.middlewares[k]),
                }),
    {
        proof {
            assert(crate::traefik::middleware_views(ms@)[i as int] == ms@[i as int]@);
        }
        r.push(TraefikRuleMiddleware { name: resolved_middleware_name_exec(&ms[i]) });
    }
    proof {
        assert(rule_middleware_payload_views(r@) =~= rule_middleware_refs(entry@.middlewares));
    }
    r
}

/// Creates the routing route for a service, aggregating all of its route
/// entries.
#[verifier::loop_isolation(false)]
pub fn ingress_route_payload(app_name: &AppName, service: &DeployableService) -> (r: IngressRoute)
    ensures
        r@ == ingress_route_payload_view(app_name@, service@),
{
    let entries = service.ingress_route().routes();
    let mut rules: Vec<TraefikRuleSpec> = Vec::new();
    for i in 0..entries.len()
        invariant
            rules@.len() == i,
            forall|k: int|
                0 <= k < i ==> (#[trigger] rules@[k])@ == route_rule_specs(
                    service@.ingress_route.routes,
                    service@.config.service_name,
                    service@.config.port,
                )[k],
    {
        proof {
            assert(crate::traefik::entry_views(entries@)[i as int] == entries@[i as int]@);
        }
        let middlewares = rule_middlewares_exec(&entries[i]);
        let mut services: Vec<TraefikRuleService> = Vec::new();
        services.push(
            TraefikRuleService {
                kind: Some(String::from_str("Service")),
                name: service.service_name().clone(),
                port: Some(service.port()),
            },
        );
        let rule = TraefikRuleSpec {
            kind: String::from_str("Rule"),
            match_rule: entries[i].rule().to_string(),
            services,
            middlewares: Some(middlewares),
        };
        proof {
            assert(rule@.services =~= seq![
                TraefikRuleServiceView {
                    kind: Option::Some("Service"@),
                    name: service@.config.service_name,
                    port: Option::Some(service@.config.port),
                },
            ]);
            assert(rule@ =~~= route_rule_specs(
                service@.ingress_route.routes,
                service@.config.service_name,
                service@.config.port,
            )[i as int]);
        }
        rules.push(rule);
    }
    let mut annotations: Vec<(String, String)> = Vec::new();
    annotations.push((String::from_str("com.aixigo.preview.servant.app-name"), app_name.to_string()));
    annotations.push((
        String::from_str("com.aixigo.preview.servant.container-type"),
        service.container_type().as_str().to_owned(),
    ));
    annotations.push((
        String::from_str("com.aixigo.preview.servant.service-name"),
        service.service_name().clone(),
    ));
    annotations.push((
        String::from_str("traefik.ingress.kubernetes.io/router.entrypoints"),
        String::from_str("web"),
    ));
    let r = IngressRoute {
        metadata: Metadata {
            name: Some(named_with_suffix(app_name, service.service_name().as_str(), "-ingress-route")),
            generate_name: None,
            namespace: Some(app_name.to_rfc1123_namespace_id()),
            labels: None,
            annotations: Some(annotations),
        },
        spec: IngressRouteSpec { entrypoints: None, routes: Some(rules), tls: None },
    };
    proof {
        assert(r@.metadata.annotations->0 =~= ingress_route_annotations(
            app_name@,
            service@.config.service_name,
            service@.config.container_type,
        ));
        assert(r@.spec.routes->0 =~= route_rule_specs(
            service@.ingress_route.routes,
            service@.config.service_name,
            service@.config.port,
        ));
        assert(r@ =~~= ingress_route_payload_view(app_name@, service@));
    }
    r
}

/// The inline middleware specifications of one route entry, in order;
/// references materialize nothing.
pub open spec fn spec_middlewares_of(ms: Seq<TraefikMiddlewareView>) -> Seq<
    TraefikMiddlewareView,
>
    decreases ms.len(),
{
    if ms.len() == 0 {
        Seq::empty()
    } else {
        let rest = spec_middlewares_of(ms.drop_last());
        if ms.last() is Spec {
            rest.push(ms.last())
        } else {
            rest
        }
    }
}

/// The inline middleware specifications of all route entries of a
/// service, in route order.
pub open spec fn all_spec_middlewares(routes: Seq<RouteEntryView>) -> Seq<TraefikMiddlewareView>
    decreases routes.len(),
{
    if routes.len() == 0 {
        Seq::empty()
    } else {
        all_spec_middlewares(routes.drop_last()) + spec_middlewares_of(routes.last().middlewares)
    }
}

/// Each middleware once, in order of first occurrence.
pub open spec fn distinct_middlewares(ms: Seq<TraefikMiddlewareView>) -> Seq<
    TraefikMiddlewareView,
>
    decreases ms.len(),
{
    if ms.len() == 0 {
        Seq::empty()
    } else {
        let rest = distinct_middlewares(ms.drop_last());
        if rest.contains(ms.last()) {
            rest
        } else {
            rest.push(ms.last())
        }
    }
}

/// The middleware object materialized for one inline specification:
/// named by the resolved name in the application's namespace, carrying
/// the opaque specification.
pub open spec fn middleware_object_of(m: TraefikMiddlewareView, app: Seq<char>) -> MiddlewareView {
    MiddlewareView {
        metadata: MetadataView {
            name: Option::Some(resolved_middleware_name(m)),
            generate_name: Option::None,
            namespace: Option::Some(normalized(app)),
            labels: Option::None,
            annotations: Option::None,
        },
        spec: m->Spec_spec,
    }
}

/// The middleware objects of a service: one per distinct inline
/// middleware specification across all of its routes, in order of first
/// occurrence.
pub open spec fn middleware_objects(routes: Seq<RouteEntryView>, app: Seq<char>) -> Seq<
    MiddlewareView,
> {
    distinct_middlewares(all_spec_middlewares(routes)).map_values(
        |m: TraefikMiddlewareView| middleware_object_of(m, app),
    )
}

/// Whether the collected middlewares already hold the given inline
/// specification.
#[verifier::loop_isolation(false)]
fn contains_spec_middleware(
    seen: &Vec<crate::traefik::TraefikMiddleware>,
    name: &String,
    spec: &JsonValue,
) -> (r: bool)
    ensures
        r == crate::traefik::middleware_views(seen@).contains(
            TraefikMiddlewareView::Spec { name: name@, spec: spec@ },
        ),
{
    let ghost target = TraefikMiddlewareView::Spec { name: name@, spec: spec@ };
    for j in 0..seen.len()
        invariant
            forall|k: int|
                0 <= k < j ==> crate::traefik::middleware_views(seen@)[k] != target,
    {
        proof {
            assert(crate::traefik::middleware_views(seen@)[j as int] == seen@[j as int]@);
        }
        match &seen[j] {
            crate::traefik::TraefikMiddleware::Spec { name: seen_name, spec: seen_spec } => {
                if *seen_name == *name && seen_spec.deep_eq(spec) {
                    proof {
                        assert(crate::traefik::middleware_views(seen@)[j as int] == target);
                    }
                    return true;
                }
            },
            crate::traefik::TraefikMiddleware::Ref(_) => {},
        }
    }
    proof {
        if crate::traefik::middleware_views(seen@).contains(target) {
            let w = choose|w: int|
                0 <= w < crate::traefik::middleware_views(seen@).len()
                    && crate::traefik::middleware_views(seen@)[w] == target;
            assert(false);
        }
    }
    false
}

/// Creates the middleware objects for a service: one per distinct inline
/// middleware specification across all of its routes.
#[verifier::loop_isolation(false)]
pub fn middleware_payload(app_name: &AppName, service: &DeployableService) -> (r: Vec<Middleware>)
    ensures
        middleware_payload_views(r@) == middleware_objects(service@.ingress_route.routes, app_name@),
{
    let entries = service.ingress_route().routes();
    let mut seen: Vec<crate::traefik::TraefikMiddleware> = Vec::new();
    for i in 0..entries.len()
        invariant
            crate::traefik::middleware_views(seen@) =~= distinct_middlewares(
                all_spec_middlewares(service@.ingress_route.routes.subrange(0, i as int)),
            ),
            forall|k: int|
                0 <= k < seen@.len() ==> (#[trigger] crate::traefik::middleware_views(
                    seen@,
                )[k]) is Spec,
    {
        proof {
            assert(crate::traefik::entry_views(entries@)[i as int] == entries@[i as int]@);
        }
        let ms = entries[i].middlewares();
        for j in 0..ms.len()
            invariant
                crate::traefik::middleware_views(seen@) =~= distinct_middlewares(
                    all_spec_middlewares(service@.ingress_route.routes.subrange(0, i as int))
                        + spec_middlewares_of(
                        entries@[i as int]@.middlewares.subrange(0, j as int),
                    ),
                ),
                forall|k: int|
                    0 <= k < seen@.len() ==> (#[trigger] crate::traefik::middleware_views(
                        seen@,
                    )[k]) is Spec,
        {
            proof {
                assert(crate::traefik::middleware_views(ms@)[j as int] == ms@[j as int]@);
            }
            let ghost acc = all_spec_middlewares(
                service@.ingress_route.routes.subrange(0, i as int),
            ) + spec_middlewares_of(entries@[i as int]@.middlewares.subrange(0, j as int));
            match &ms[j] {
                crate::traefik::TraefikMiddleware::Ref(_) => {},
                crate::traefik::TraefikMiddleware::Spec { name, spec } => {
                    if !contains_spec_middleware(&seen, name, spec) {
                        let ghost old_seen = seen@;
                        seen.push(
                            crate::traefik::TraefikMiddleware::Spec {
                                name: name.clone(),
                                spec: spec.duplicate(),
                            },
                        );
                        proof {
                            assert(crate::traefik::middleware_views(seen@)
                                =~= crate::traefik::middleware_views(old_seen).push(
                                TraefikMiddlewareView::Spec { name: name@, spec: spec@ },
                            ));
                        }
                    }
                },
            }
            proof {
                let mpre = entries@[i as int]@.middlewares.subrange(0, j as int);
                let mcur = entries@[i as int]@.middlewares.subrange(0, j + 1 as int);
                assert(mcur.drop_last() =~= mpre);
                assert(mcur.last() == entries@[i as int]@.middlewares[j as int]);
                let acc2 = all_spec_middlewares(
                    service@.ingress_route.routes.subrange(0, i as int),
                ) + spec_middlewares_of(mcur);
                if entries@[i as int]@.middlewares[j as int] is Spec {
                    assert(spec_middlewares_of(mcur) =~= spec_middlewares_of(mpre).push(
                        entries@[i as int]@.middlewares[j as int],
                    ));
                    assert(acc2 =~= acc.push(entries@[i as int]@.middlewares[j as int]));
                    assert(acc2.drop_last() =~= acc);
                } else {
                    assert(spec_middlewares_of(mcur) =~= spec_middlewares_of(mpre));
                    assert(acc2 =~= acc);
                }
                assert(crate::traefik::middleware_views(seen@) =~= distinct_middlewares(acc2));
            }
        }
        proof {
            let pre = service@.ingress_route.routes.subrange(0, i as int);
            let cur = service@.ingress_route.routes.subrange(0, i + 1 as int);
            assert(cur.drop_last() =~= pre);
            assert(cur.last() == service@.ingress_route.routes[i as int]);
            assert(entries@[i as int]@.middlewares.subrange(
                0,
                entries@[i as int]@.middlewares.len() as int,
            ) =~= entries@[i as int]@.middlewares);
            assert(all_spec_middlewares(cur) =~= all_spec_middlewares(pre)
                + spec_middlewares_of(entries@[i as int]@.middlewares));
            assert(crate::traefik::middleware_views(seen@) =~= distinct_middlewares(
                all_spec_middlewares(cur),
            ));
        }
    }
    proof {
        assert(service@.ingress_route.routes.subrange(
            0,
            service@.ingress_route.routes.len() as int,
        ) =~= service@.ingress_route.routes);
    }
    let mut r: Vec<Middleware> = Vec::new();
    for i in 0..seen.len()
        invariant
            r@.len() == i,
            forall|k: int|
                0 <= k < i ==> (#[trigger] r@[k])@ == middleware_object_of(
                    crate::traefik::middleware_views(seen@)[k],
                    app_name@,
                ),
    {
        proof {
            assert(crate::traefik::middleware_views(seen@)[i as int] == seen@[i as int]@);
            assert(crate::traefik::middleware_views(seen@)[i as int] is Spec);
        }
        let resolved = resolved_middleware_name_exec(&seen[i]);
        match &seen[i] {
            crate::traefik::TraefikMiddleware::Spec { name, spec } => {
                r.push(
                    Middleware {
                        metadata: Metadata {
                            name: Some(resolved),
                            generate_name: None,
                            namespace: Some(app_name.to_rfc1123_namespace_id()),
                            labels: None,
                            annotations: None,
                        },
                        spec: MiddlewareSpec(spec.duplicate()),
                    },
                );
            },
            crate::traefik::TraefikMiddleware::Ref(_) => {
                proof {
                    assert(false);
                }
            },
        }
    }
    proof {
        assert(middleware_payload_views(r@) =~= middleware_objects(
            service@.ingress_route.routes,
            app_name@,
        ));
    }
    r
}

/// Why a stored routing route cannot be read back into the routing
/// model.
#[derive(Clone, Copy, Debug, PartialEq, Eq, Structural)]
pub enum RouteConversionError {
    /// The stored object declares no routes.
    NoRoutes,
    /// The first stored rule's match predicate is not a rule this
    /// library's parser accepts.
    UnparsableRule,
}

impl TraefikIngressRoute {
    /// Reads a stored routing route back into the routing model: the
    /// first stored rule's predicate is re-parsed, its middleware
    /// references are kept by name, and the TLS resolver is copied. The
    /// conversion succeeds exactly when the stored object declares at
    /// least one route whose predicate is the written form of a
    /// well-formed rule; otherwise the error says which of the two
    /// conditions failed.
    pub fn try_from(value: IngressRoute) -> (r: Result<TraefikIngressRoute, RouteConversionError>)
        ensures
            r == Result::<TraefikIngressRoute, RouteConversionError>::Err(
                RouteConversionError::NoRoutes,
            ) <==> (value@.spec.routes is None || value@.spec.routes->0.len() == 0),
            r is Ok <==> {
                &&& value@.spec.routes is Some
                &&& value@.spec.routes->0.len() > 0
                &&& exists|ms: Seq<crate::traefik::MatcherView>|
                    crate::traefik::wf_rule(ms) && #[trigger] rule_text(ms)
                        == value@.spec.routes->0[0].match_rule
            },
            r == Result::<TraefikIngressRoute, RouteConversionError>::Err(
                RouteConversionError::UnparsableRule,
            ) <==> {
                &&& value@.spec.routes is Some
                &&& value@.spec.routes->0.len() > 0
                &&& !exists|ms: Seq<crate::traefik::MatcherView>|
                    crate::traefik::wf_rule(ms) && #[trigger] rule_text(ms)
                        == value@.spec.routes->0[0].match_rule
            },
            r is Ok ==> {
                &&& value@.spec.routes is Some
                &&& value@.spec.routes->0.len() > 0
                &&& r->Ok_0@.routes.len() == 1
                &&& crate::traefik::wf_rule(r->Ok_0@.routes[0].rule)
                &&& rule_text(r->Ok_0@.routes[0].rule) == value@.spec.routes->0[0].match_rule
                &&& r->Ok_0@.routes[0].middlewares == (match value@.spec.routes->0[0].middlewares {
                    Option::Some(ms) => ms.map_values(
                        |m: TraefikRuleMiddlewareView| TraefikMiddlewareView::Ref(m.name),
                    ),
                    Option::None => Seq::<TraefikMiddlewareView>::empty(),
                })
                &&& r->Ok_0@.entrypoints == (match value@.spec.entrypoints {
                    Option::Some(e) => e,
                    Option::None => Seq::<Seq<char>>::empty(),
                })
                &&& r->Ok_0@.tls_cert_resolver == (match value@.spec.tls {
                    Option::Some(t) => t.cert_resolver,
                    Option::None => Option::<Seq<char>>::None,
                })
            },
    {
        let spec_part = value.spec;
        let routes = match spec_part.routes {
            Some(routes) => routes,
            None => {
                return Err(RouteConversionError::NoRoutes);
            },
        };
        if routes.len() == 0 {
            return Err(RouteConversionError::NoRoutes);
        }
        let first = &routes[0];
        let rule = match TraefikRouterRule::from_str(first.match_rule.as_str()) {
            Some(rule) => rule,
            None => {
                return Err(RouteConversionError::UnparsableRule);
            },
        };
        let mut names: Vec<String> = Vec::new();
        match &first.middlewares {
            Some(ms) => {
                for j in 0..ms.len()
                    invariant
                        names@.len() == j,
                        forall|k: int| 0 <= k < j ==> (#[trigger] names@[k])@ == ms@[k].name@,
                {
                    names.push(ms[j].name.clone());
                }
            },
            None => {},
        }
        let entrypoints = match spec_part.entrypoints {
            Some(e) => e,
            None => Vec::new(),
        };
        let cert_resolver = match spec_part.tls {
            Some(t) => t.cert_resolver,
            None => None,
        };
        let ghost names_view = string_views(names@);
        let ghost first_view = rule_spec_views(routes@)[0];
        let result = TraefikIngressRoute::with_existing_routing_rules(
            entrypoints,
            rule,
            names,
            cert_resolver,
        );
        proof {
            assert(result@.routes[0].middlewares =~= (match first_view.middlewares {
                Option::Some(ms) => ms.map_values(
                    |m: TraefikRuleMiddlewareView| TraefikMiddlewareView::Ref(m.name),
                ),
                Option::None => Seq::<TraefikMiddlewareView>::empty(),
            }));
        }
        Ok(result)
    }
}



/// Re-running workload synthesis on identical inputs yields identical
/// payloads, whatever timestamps the two runs saw, for every strategy
/// but always-force.
pub proof fn lemma_synthesis_deterministic(
    app: Seq<char>,
    svc: crate::deployment::DeployableServiceView,
    memory_limit: Option<u64>,
    use_image_pull_secret: bool,
    pvs: Option<Seq<(Seq<char>, PvcPayloadView)>>,
    ts1: Seq<char>,
    ts2: Seq<char>,
)
    requires
        !(svc.strategy is RedeployAlways),
    ensures
        deployment_payload_view(app, svc, memory_limit, use_image_pull_secret, pvs, ts1)
            == deployment_payload_view(app, svc, memory_limit, use_image_pull_secret, pvs, ts2),
{
    assert(strategy_annotations(svc.strategy, ts1) =~= strategy_annotations(svc.strategy, ts2));
    assert(deployment_payload_view(app, svc, memory_limit, use_image_pull_secret, pvs, ts1)
        =~~= deployment_payload_view(app, svc, memory_limit, use_image_pull_secret, pvs, ts2));
}

/// Two always-force syntheses of the same descriptor at different
/// timestamps differ only in the forcing annotation of the pod template:
/// that annotation carries each run's timestamp under the `date` key,
/// and every other field of the two payloads is equal.
pub proof fn lemma_always_force_differs_only_in_date(
    app: Seq<char>,
    svc: crate::deployment::DeployableServiceView,
    memory_limit: Option<u64>,
    use_image_pull_secret: bool,
    pvs: Option<Seq<(Seq<char>, PvcPayloadView)>>,
    ts1: Seq<char>,
    ts2: Seq<char>,
)
    requires
        svc.strategy is RedeployAlways,
    ensures
        deployment_payload_view(
            app,
            svc,
            memory_limit,
            use_image_pull_secret,
            pvs,
            ts1,
        ).template->0.metadata.annotations == Option::Some(seq![("date"@, ts1)]),
        deployment_payload_view(
            app,
            svc,
            memory_limit,
            use_image_pull_secret,
            pvs,
            ts2,
        ).template->0.metadata.annotations == Option::Some(seq![("date"@, ts2)]),
        deployment_payload_view(app, svc, memory_limit, use_image_pull_secret, pvs, ts1).metadata
            == deployment_payload_view(
            app,
            svc,
            memory_limit,
            use_image_pull_secret,
            pvs,
            ts2,
        ).metadata,
        deployment_payload_view(
            app,
            svc,
            memory_limit,
            use_image_pull_secret,
            pvs,
            ts1,
        ).selector_match_labels == deployment_payload_view(
            app,
            svc,
            memory_limit,
            use_image_pull_secret,
            pvs,
            ts2,
        ).selector_match_labels,
        deployment_payload_view(
            app,
            svc,
            memory_limit,
            use_image_pull_secret,
            pvs,
            ts1,
        ).template->0.metadata.labels == deployment_payload_view(
            app,
            svc,
            memory_limit,
            use_image_pull_secret,
            pvs,
            ts2,
        ).template->0.metadata.labels,
        deployment_payload_view(
            app,
            svc,
            memory_limit,
            use_image_pull_secret,
            pvs,
            ts1,
        ).template->0.containers == deployment_payload_view(
            app,
            svc,
            memory_limit,
            use_image_pull_secret,
            pvs,
            ts2,
        ).template->0.containers,
        deployment_payload_view(
            app,
            svc,
            memory_limit,
            use_image_pull_secret,
            pvs,
            ts1,
        ).template->0.volumes == deployment_payload_view(
            app,
            svc,
            memory_limit,
            use_image_pull_secret,
            pvs,
            ts2,
        ).template->0.volumes,
        deployment_payload_view(
            app,
            svc,
            memory_limit,
            use_image_pull_secret,
            pvs,
            ts1,
        ).template->0.image_pull_secrets == deployment_payload_view(
            app,
            svc,
            memory_limit,
            use_image_pull_secret,
            pvs,
            ts2,
        ).template->0.image_pull_secrets,
{
    assert(strategy_annotations(svc.strategy, ts1) =~= seq![("date"@, ts1)]);
    assert(strategy_annotations(svc.strategy, ts2) =~= seq![("date"@, ts2)]);
}

/// The distinct parents of a file list hold no parent twice.
pub proof fn lemma_distinct_parents_no_duplicates(fs: Seq<(Seq<char>, Seq<char>)>)
    ensures
        forall|i: int, j: int|
            0 <= i < j < distinct_parents(fs).len() ==> distinct_parents(fs)[i]
                != distinct_parents(fs)[j],
    decreases fs.len(),
{
    if fs.len() > 0 {
        lemma_distinct_parents_no_duplicates(fs.drop_last());
        let rest = distinct_parents(fs.drop_last());
        match parent_path(fs.last().0) {
            Option::Some(p) => {
                if !rest.contains(p) {
                    assert forall|i: int, j: int|
                        0 <= i < j < distinct_parents(fs).len() implies distinct_parents(fs)[i]
                        != distinct_parents(fs)[j] by {
                        if j < rest.len() {
                        } else {
                            assert(distinct_parents(fs)[j] == p);
                            assert(distinct_parents(fs)[i] == rest[i]);
                            assert(!rest.contains(p));
                        }
                    }
                }
            },
            Option::None => {},
        }
    }
}

/// Every file with a parent is placed under a listed parent.
pub proof fn lemma_distinct_parents_complete(fs: Seq<(Seq<char>, Seq<char>)>)
    ensures
        forall|k: int|
            0 <= k < fs.len() && parent_path((#[trigger] fs[k]).0) is Some ==> distinct_parents(
                fs,
            ).contains(parent_path(fs[k].0)->0),
    decreases fs.len(),
{
    if fs.len() > 0 {
        lemma_distinct_parents_complete(fs.drop_last());
        let rest = distinct_parents(fs.drop_last());
        assert forall|k: int|
            0 <= k < fs.len() && parent_path((#[trigger] fs[k]).0) is Some implies distinct_parents(
            fs,
        ).contains(parent_path(fs[k].0)->0) by {
            if k < fs.len() - 1 {
                assert(fs.drop_last()[k] == fs[k]);
                assert(rest.contains(parent_path(fs[k].0)->0));
                let w = choose|w: int| 0 <= w < rest.len() && rest[w] == parent_path(fs[k].0)->0;
                match parent_path(fs.last().0) {
                    Option::Some(p) => {
                        if !rest.contains(p) {
                            assert(distinct_parents(fs)[w] == rest[w]);
                        } else {
                            assert(distinct_parents(fs) == rest);
                        }
                    },
                    Option::None => {},
                }
            } else {
                let p = parent_path(fs.last().0)->0;
                if rest.contains(p) {
                    assert(distinct_parents(fs) == rest);
                } else {
                    assert(distinct_parents(fs).last() == p);
                }
            }
        }
    }
}

/// For any set of mounted files, exactly one volume and one volume
/// mount is produced per distinct parent directory, regardless of how
/// many files share it: the parents are listed once each, every file's
/// parent is listed, the mount of a parent stands at the parent's path,
/// and the volume of a parent holds exactly that parent's files.
pub proof fn lemma_file_grouping(fs: Seq<(Seq<char>, Seq<char>)>, secret_name: Seq<char>)
    ensures
        file_mounts(distinct_parents(fs)).len() == distinct_parents(fs).len(),
        file_volumes(fs, distinct_parents(fs), secret_name).len() == distinct_parents(fs).len(),
        forall|i: int, j: int|
            0 <= i < j < distinct_parents(fs).len() ==> distinct_parents(fs)[i]
                != distinct_parents(fs)[j],
        forall|k: int|
            0 <= k < fs.len() && parent_path((#[trigger] fs[k]).0) is Some ==> distinct_parents(
                fs,
            ).contains(parent_path(fs[k].0)->0),
        forall|i: int|
            0 <= i < distinct_parents(fs).len() ==> file_mounts(distinct_parents(fs))[i]
                == (VolumeMountPayloadView {
                name: name_of_path(#[trigger] distinct_parents(fs)[i]),
                mount_path: distinct_parents(fs)[i],
            }),
        forall|i: int|
            0 <= i < distinct_parents(fs).len() ==> file_volumes(
                fs,
                distinct_parents(fs),
                secret_name,
            )[i] == (VolumePayloadView {
                name: name_of_path(#[trigger] distinct_parents(fs)[i]),
                secret: Option::Some(
                    SecretVolumeView {
                        secret_name,
                        items: secret_items(fs, distinct_parents(fs)[i]),
                    },
                ),
                persistent_volume_claim: Option::None,
            }),
{
    lemma_distinct_parents_no_duplicates(fs);
    lemma_distinct_parents_complete(fs);
}

/// An inline middleware whose name is a valid application identifier is
/// renamed to the identifier's normalized form; any other inline name
/// and every plain reference pass through unchanged. The route's
/// references use exactly these resolved names.
pub proof fn lemma_middleware_resolution(ms: Seq<TraefikMiddlewareView>, i: int)
    requires
        0 <= i < ms.len(),
    ensures
        rule_middleware_refs(ms).len() == ms.len(),
        rule_middleware_refs(ms)[i].name == resolved_middleware_name(ms[i]),
        ms[i] is Ref ==> rule_middleware_refs(ms)[i].name == ms[i]->Ref_0,
        ms[i] is Spec && is_valid_app_name(ms[i]->Spec_name) ==> rule_middleware_refs(ms)[i].name
            == normalized(ms[i]->Spec_name),
        ms[i] is Spec && !is_valid_app_name(ms[i]->Spec_name) ==> rule_middleware_refs(ms)[i].name
            == ms[i]->Spec_name,
{
}

/// The inline-specification lists hold inline specifications only.
pub proof fn lemma_spec_middlewares_only_specs(ms: Seq<TraefikMiddlewareView>)
    ensures
        forall|k: int| 0 <= k < spec_middlewares_of(ms).len() ==> (#[trigger] spec_middlewares_of(
            ms,
        )[k]) is Spec,
    decreases ms.len(),
{
    if ms.len() > 0 {
        lemma_spec_middlewares_only_specs(ms.drop_last());
    }
}

/// Deduplication keeps only elements of the original list, keeps each
/// once, and loses none.
pub proof fn lemma_distinct_middlewares(ms: Seq<TraefikMiddlewareView>)
    ensures
        forall|k: int|
            0 <= k < distinct_middlewares(ms).len() ==> ms.contains(
                #[trigger] distinct_middlewares(ms)[k],
            ),
        forall|i: int, j: int|
            0 <= i < j < distinct_middlewares(ms).len() ==> distinct_middlewares(ms)[i]
                != distinct_middlewares(ms)[j],
        forall|k: int|
            0 <= k < ms.len() ==> distinct_middlewares(ms).contains(#[trigger] ms[k]),
    decreases ms.len(),
{
    if ms.len() > 0 {
        lemma_distinct_middlewares(ms.drop_last());
        let rest = distinct_middlewares(ms.drop_last());
        assert forall|k: int|
            0 <= k < distinct_middlewares(ms).len() implies ms.contains(
            #[trigger] distinct_middlewares(ms)[k],
        ) by {
            if k < rest.len() {
                assert(ms.drop_last().contains(rest[k]));
                let w = choose|w: int|
                    0 <= w < ms.drop_last().len() && ms.drop_last()[w] == rest[k];
                assert(ms[w] == rest[k]);
            } else {
                assert(distinct_middlewares(ms)[k] == ms.last());
                assert(ms[ms.len() - 1] == ms.last());
            }
        }
        if !rest.contains(ms.last()) {
            assert forall|i: int, j: int|
                0 <= i < j < distinct_middlewares(ms).len() implies distinct_middlewares(ms)[i]
                != distinct_middlewares(ms)[j] by {
                if j == rest.len() {
                    assert(distinct_middlewares(ms)[i] == rest[i]);
                    assert(!rest.contains(ms.last()));
                }
            }
        }
        assert forall|k: int|
            0 <= k < ms.len() implies distinct_middlewares(ms).contains(#[trigger] ms[k]) by {
            if k < ms.len() - 1 {
                assert(ms.drop_last()[k] == ms[k]);
                assert(rest.contains(ms[k]));
                let w = choose|w: int| 0 <= w < rest.len() && rest[w] == ms[k];
                if rest.contains(ms.last()) {
                    assert(distinct_middlewares(ms) == rest);
                } else {
                    assert(distinct_middlewares(ms)[w] == rest[w]);
                }
            } else {
                if rest.contains(ms.last()) {
                    assert(distinct_middlewares(ms) == rest);
                    let w = choose|w: int| 0 <= w < rest.len() && rest[w] == ms.last();
                } else {
                    assert(distinct_middlewares(ms).last() == ms.last());
                }
            }
        }
    }
}

/// Every inline middleware specification of a service's routes is
/// materialized as exactly one middleware object, carrying its resolved
/// name and its opaque specification; duplicates across routes
/// materialize once.
pub proof fn lemma_middleware_objects_resolved(routes: Seq<RouteEntryView>, app: Seq<char>)
    ensures
        middleware_objects(routes, app).len() == distinct_middlewares(
            all_spec_middlewares(routes),
        ).len(),
        forall|k: int|
            0 <= k < middleware_objects(routes, app).len() ==> (#[trigger] middleware_objects(
                routes,
                app,
            )[k]) == middleware_object_of(
                distinct_middlewares(all_spec_middlewares(routes))[k],
                app,
            ),
        forall|m: TraefikMiddlewareView|
            all_spec_middlewares(routes).contains(m) ==> distinct_middlewares(
                all_spec_middlewares(routes),
            ).contains(m),
        forall|i: int, j: int|
            0 <= i < j < distinct_middlewares(all_spec_middlewares(routes)).len()
                ==> distinct_middlewares(all_spec_middlewares(routes))[i]
                != distinct_middlewares(all_spec_middlewares(routes))[j],
{
    lemma_distinct_middlewares(all_spec_middlewares(routes));
    assert forall|m: TraefikMiddlewareView|
        all_spec_middlewares(routes).contains(m) implies distinct_middlewares(
        all_spec_middlewares(routes),
    ).contains(m) by {
        let w = choose|w: int|
            0 <= w < all_spec_middlewares(routes).len() && all_spec_middlewares(routes)[w] == m;
    }
}

} // verus!
