use crate::image::{Image, ImageView};
use vstd::prelude::*;

verus! {

/// The role a container plays within an application.
#[derive(Clone, Copy, Debug, PartialEq, Eq, Structural)]
pub enum ContainerType {
    Instance,
    Replica,
    ApplicationCompanion,
    AppCompanion,
}

/// The label value of a container role.
pub open spec fn container_type_text(t: ContainerType) -> Seq<char> {
    match t {
        ContainerType::Instance => "instance"@,
        ContainerType::Replica => "replica"@,
        ContainerType::ApplicationCompanion => "application-companion"@,
        ContainerType::AppCompanion => "app-companion"@,
    }
}

impl ContainerType {
    /// The label value of this role.
    pub fn as_str(&self) -> (r: &'static str)
        ensures
            r@ == container_type_text(*self),
    {
        match self {
            ContainerType::Instance => "instance",
            ContainerType::Replica => "replica",
            ContainerType::ApplicationCompanion => "application-companion",
            ContainerType::AppCompanion => "app-companion",
        }
    }
}

/// The state a realized service is in.
#[derive(Clone, Copy, Debug, PartialEq, Eq, Structural)]
pub enum ServiceStatus {
    Running,
    Paused,
}

/// The mathematical form of an environment variable.
#[verifier::ext_equal]
pub struct EnvironmentVariableView {
    pub key: Seq<char>,
    pub value: Seq<char>,
    pub templated: bool,
    pub replicated: bool,
}

/// One environment variable of a service: its key, its value, whether the
/// value came out of a template, and whether it is replicated onto
/// derived services.
#[derive(Debug, PartialEq, Eq)]
pub struct EnvironmentVariable {
    key: String,
    value: String,
    templated: bool,
    replicated: bool,
}

impl View for EnvironmentVariable {
    type V = EnvironmentVariableView;

    closed spec fn view(&self) -> EnvironmentVariableView {
        EnvironmentVariableView {
            key: self.key@,
            value: self.value@,
            templated: self.templated,
            replicated: self.replicated,
        }
    }
}

impl EnvironmentVariable {
    /// A plain variable: not templated, not replicated.
    pub fn new(key: String, value: String) -> (r: EnvironmentVariable)
        ensures
            r@ == (EnvironmentVariableView { key: key@, value: value@, templated: false, replicated: false }),
    {
        EnvironmentVariable { key, value, templated: false, replicated: false }
    }

    /// A variable marked for replication onto derived services.
    pub fn with_replicated(key: String, value: String) -> (r: EnvironmentVariable)
        ensures
            r@ == (EnvironmentVariableView { key: key@, value: value@, templated: false, replicated: true }),
    {
        EnvironmentVariable { key, value, templated: false, replicated: true }
    }

    /// A variable with both marks chosen by the caller: whether its value
    /// came out of a template, and whether it is replicated.
    pub fn with_flags(key: String, value: String, templated: bool, replicated: bool) -> (r:
        EnvironmentVariable)
        ensures
            r@ == (EnvironmentVariableView { key: key@, value: value@, templated, replicated }),
    {
        EnvironmentVariable { key, value, templated, replicated }
    }

    pub fn key(&self) -> (r: &String)
        ensures
            r@ == self@.key,
    {
        &self.key
    }

    pub fn value(&self) -> (r: &String)
        ensures
            r@ == self@.value,
    {
        &self.value
    }

    pub fn templated(&self) -> (r: bool)
        ensures
            r == self@.templated,
    {
        self.templated
    }

    pub fn replicated(&self) -> (r: bool)
        ensures
            r == self@.replicated,
    {
        self.replicated
    }

    /// An exact copy of the variable.
    pub fn duplicate(&self) -> (r: EnvironmentVariable)
        ensures
            r@ == self@,
    {
        EnvironmentVariable {
            key: self.key.clone(),
            value: self.value.clone(),
            templated: self.templated,
            replicated: self.replicated,
        }
    }
}

/// The mathematical forms of a list of environment variables.
pub open spec fn env_views(s: Seq<EnvironmentVariable>) -> Seq<EnvironmentVariableView> {
    s.map_values(|v: EnvironmentVariable| v@)
}

/// The environment of one service.
#[derive(Debug, PartialEq, Eq)]
pub struct Environment {
    values: Vec<EnvironmentVariable>,
}

impl View for Environment {
    type V = Seq<EnvironmentVariableView>;

    closed spec fn view(&self) -> Seq<EnvironmentVariableView> {
        env_views(self.values@)
    }
}

impl Environment {
    pub fn new(values: Vec<EnvironmentVariable>) -> (r: Environment)
        ensures
            r@ == env_views(values@),
    {
        Environment { values }
    }

    pub fn values(&self) -> (r: &Vec<EnvironmentVariable>)
        ensures
            env_views(r@) == self@,
    {
        &self.values
    }

    /// An exact copy of the environment.
    pub fn duplicate(&self) -> (r: Environment)
        ensures
            r@ == self@,
    {
        let mut values: Vec<EnvironmentVariable> = Vec::new();
        for i in 0..self.values.len()
            invariant
                env_views(values@) =~= env_views(self.values@.subrange(0, i as int)),
        {
            let dup = self.values[i].duplicate();
            let ghost prefix = values@;
            values.push(dup);
            proof {
                lemma_env_views_push(prefix, dup);
                assert(self.values@.subrange(0, i + 1 as int) =~= self.values@.subrange(
                    0,
                    i as int,
                ).push(self.values@[i as int]));
                lemma_env_views_push(self.values@.subrange(0, i as int), self.values@[i as int]);
                assert(env_views(values@) =~= env_views(self.values@.subrange(0, i + 1 as int)));
            }
        }
        proof {
            assert(self.values@.subrange(0, self.values@.len() as int) =~= self.values@);
        }
        Environment { values }
    }
}

/// The mathematical forms of a list of string pairs: mounted files with
/// their secret content, or label and annotation maps.
pub open spec fn string_pair_views(s: Seq<(String, String)>) -> Seq<(Seq<char>, Seq<char>)> {
    s.map_values(|p: (String, String)| (p.0@, p.1@))
}

/// The mathematical form of a service configuration.
#[verifier::ext_equal]
pub struct ServiceConfigView {
    pub service_name: Seq<char>,
    pub image: ImageView,
    pub env: Option<Seq<EnvironmentVariableView>>,
    pub files: Option<Seq<(Seq<char>, Seq<char>)>>,
    pub port: u16,
    pub container_type: ContainerType,
}

/// The declarative description of one service: its name, image,
/// environment, mounted files (path and secret content), port and role.
#[derive(Debug, PartialEq, Eq)]
pub struct ServiceConfig {
    service_name: String,
    image: Image,
    env: Option<Environment>,
    files: Option<Vec<(String, String)>>,
    port: u16,
    container_type: ContainerType,
}

impl View for ServiceConfig {
    type V = ServiceConfigView;

    closed spec fn view(&self) -> ServiceConfigView {
        ServiceConfigView {
            service_name: self.service_name@,
            image: self.image@,
            env: match self.env {
                Option::Some(e) => Option::Some(e@),
                Option::None => Option::None,
            },
            files: match self.files {
                Option::Some(f) => Option::Some(string_pair_views(f@)),
                Option::None => Option::None,
            },
            port: self.port,
            container_type: self.container_type,
        }
    }
}

impl ServiceConfig {
    /// A configuration with the given name and image, an open port of 80,
    /// the instance role, and no environment or files.
    pub fn new(service_name: String, image: Image) -> (r: ServiceConfig)
        ensures
            r@.service_name == service_name@,
            r@.image == image@,
            r@.env is None,
            r@.files is None,
            r@.port == 80u16,
            r@.container_type == ContainerType::Instance,
    {
        ServiceConfig {
            service_name,
            image,
            env: None,
            files: None,
            port: 80,
            container_type: ContainerType::Instance,
        }
    }

    pub fn service_name(&self) -> (r: &String)
        ensures
            r@ == self@.service_name,
    {
        &self.service_name
    }

    pub fn image(&self) -> (r: &Image)
        ensures
            r@ == self@.image,
    {
        &self.image
    }

    pub fn env(&self) -> (r: &Option<Environment>)
        ensures
            match r {
                Option::Some(e) => self@.env == Option::Some(e@),
                Option::None => self@.env is None,
            },
    {
        &self.env
    }

    pub fn files(&self) -> (r: &Option<Vec<(String, String)>>)
        ensures
            match r {
                Option::Some(f) => self@.files == Option::Some(string_pair_views(f@)),
                Option::None => self@.files is None,
            },
    {
        &self.files
    }

    pub fn port(&self) -> (r: u16)
        ensures
            r == self@.port,
    {
        self.port
    }

    pub fn container_type(&self) -> (r: ContainerType)
        ensures
            r == self@.container_type,
    {
        self.container_type
    }

    pub fn set_env(&mut self, env: Option<Environment>)
        ensures
            final(self)@ == (ServiceConfigView {
                env: match env {
                    Option::Some(e) => Option::Some(e@),
                    Option::None => Option::None,
                },
                ..old(self)@
            }),
    {
        self.env = env;
    }

    pub fn set_files(&mut self, files: Option<Vec<(String, String)>>)
        ensures
            final(self)@ == (ServiceConfigView {
                files: match files {
                    Option::Some(f) => Option::Some(string_pair_views(f@)),
                    Option::None => Option::None,
                },
                ..old(self)@
            }),
    {
        self.files = files;
    }

    pub fn set_port(&mut self, port: u16)
        ensures
            final(self)@ == (ServiceConfigView { port, ..old(self)@ }),
    {
        self.port = port;
    }

    pub fn set_container_type(&mut self, container_type: ContainerType)
        ensures
            final(self)@ == (ServiceConfigView { container_type, ..old(self)@ }),
    {
        self.container_type = container_type;
    }

    /// An exact copy of the configuration.
    pub fn duplicate(&self) -> (r: ServiceConfig)
        ensures
            r@ == self@,
    {
        let env = match &self.env {
            Some(e) => Some(e.duplicate()),
            None => None,
        };
        let files = match &self.files {
            Some(f) => {
                let mut copies: Vec<(String, String)> = Vec::new();
                for i in 0..f.len()
                    invariant
                        string_pair_views(copies@) =~= string_pair_views(f@.subrange(0, i as int)),
                {
                    let pair = (f[i].0.clone(), f[i].1.clone());
                    let ghost prefix = copies@;
                    copies.push(pair);
                    proof {
                        lemma_string_pair_views_push(prefix, pair);
                        assert(f@.subrange(0, i + 1 as int) =~= f@.subrange(0, i as int).push(
                            f@[i as int],
                        ));
                        lemma_string_pair_views_push(f@.subrange(0, i as int), f@[i as int]);
                        assert(string_pair_views(copies@) =~= string_pair_views(f@.subrange(0, i + 1 as int)));
                    }
                }
                proof {
                    assert(f@.subrange(0, f@.len() as int) =~= f@);
                    assert(string_pair_views(copies@) =~= string_pair_views(f@));
                }
                Some(copies)
            },
            None => None,
        };
        let r = ServiceConfig {
            service_name: self.service_name.clone(),
            image: self.image.duplicate(),
            env,
            files,
            port: self.port,
            container_type: self.container_type,
        };
        proof {
            assert(r@ == self@);
        }
        r
    }
}

/// The mathematical form of a realized service.
#[verifier::ext_equal]
pub struct ServiceView {
    pub service_name: Seq<char>,
    pub container_type: ContainerType,
    pub status: ServiceStatus,
    pub config: ServiceConfigView,
}

/// A service the backend reports as running.
#[derive(Debug, PartialEq, Eq)]
pub struct Service {
    service_name: String,
    container_type: ContainerType,
    status: ServiceStatus,
    config: ServiceConfig,
}

impl View for Service {
    type V = ServiceView;

    closed spec fn view(&self) -> ServiceView {
        ServiceView {
            service_name: self.service_name@,
            container_type: self.container_type,
            status: self.status,
            config: self.config@,
        }
    }
}

impl Service {
    pub fn new(
        service_name: String,
        container_type: ContainerType,
        status: ServiceStatus,
        config: ServiceConfig,
    ) -> (r: Service)
        ensures
            r@ == (ServiceView {
                service_name: service_name@,
                container_type,
                status,
                config: config@,
            }),
    {
        Service { service_name, container_type, status, config }
    }

    pub fn service_name(&self) -> (r: &String)
        ensures
            r@ == self@.service_name,
    {
        &self.service_name
    }

    pub fn container_type(&self) -> (r: ContainerType)
        ensures
            r == self@.container_type,
    {
        self.container_type
    }

    pub fn status(&self) -> (r: ServiceStatus)
        ensures
            r == self@.status,
    {
        self.status
    }

    pub fn config(&self) -> (r: &ServiceConfig)
        ensures
            r@ == self@.config,
    {
        &self.config
    }
}

/// Backend-wide container defaults: an optional memory ceiling, in bytes.
#[derive(Debug, PartialEq, Eq)]
pub struct ContainerConfig {
    memory_limit: Option<u64>,
}

impl View for ContainerConfig {
    type V = Option<u64>;

    closed spec fn view(&self) -> Option<u64> {
        self.memory_limit
    }
}

impl ContainerConfig {
    pub fn new(memory_limit: Option<u64>) -> (r: ContainerConfig)
        ensures
            r@ == memory_limit,
    {
        ContainerConfig { memory_limit }
    }

    pub fn memory_limit(&self) -> (r: Option<u64>)
        ensures
            r == self@,
    {
        self.memory_limit
    }
}

impl Default for ContainerConfig {
    /// No memory ceiling.
    fn default() -> (r: ContainerConfig)
        ensures
            r@ is None,
    {
        ContainerConfig { memory_limit: None }
    }
}

/// The mathematical form of the runtime configuration.
pub enum RuntimeView {
    Docker,
    Kubernetes(Seq<(Seq<char>, Seq<char>)>),
}

/// The active backend kind; the orchestrated kind carries the annotations
/// the operator wants on every namespace.
#[derive(Debug, PartialEq, Eq)]
pub enum Runtime {
    Docker,
    Kubernetes(Vec<(String, String)>),
}

impl View for Runtime {
    type V = RuntimeView;

    open spec fn view(&self) -> RuntimeView {
        match self {
            Runtime::Docker => RuntimeView::Docker,
            Runtime::Kubernetes(annotations) => RuntimeView::Kubernetes(annotations.deep_view()),
        }
    }
}

/// Backend-wide settings, loaded once at process start.
#[derive(Debug, PartialEq, Eq)]
pub struct Config {
    runtime: Runtime,
}

impl View for Config {
    type V = RuntimeView;

    closed spec fn view(&self) -> RuntimeView {
        self.runtime@
    }
}

impl Config {
    pub fn new(runtime: Runtime) -> (r: Config)
        ensures
            r@ == runtime@,
    {
        Config { runtime }
    }

    pub fn runtime_config(&self) -> (r: &Runtime)
        ensures
            r@ == self@,
    {
        &self.runtime
    }
}

impl Default for Config {
    /// The non-orchestrated backend, with no namespace annotations.
    fn default() -> (r: Config)
        ensures
            r@ == RuntimeView::Docker,
    {
        Config { runtime: Runtime::Docker }
    }
}

/// Whether a role belongs to an application's externally visible
/// configuration set.
pub open spec fn is_externally_visible(t: ContainerType) -> bool {
    t == ContainerType::Instance || t == ContainerType::Replica
}

/// The mathematical forms of a list of services.
pub open spec fn service_views(s: Seq<Service>) -> Seq<ServiceView> {
    s.map_values(|x: Service| x@)
}

/// The mathematical forms of a list of service configurations.
pub open spec fn config_views(s: Seq<ServiceConfig>) -> Seq<ServiceConfigView> {
    s.map_values(|c: ServiceConfig| c@)
}

/// The configurations of the externally visible services, in their
/// original relative order: exactly those whose role is instance or
/// replica.
pub open spec fn visible_configs(services: Seq<ServiceView>) -> Seq<ServiceConfigView>
    decreases services.len(),
{
    if services.len() == 0 {
        Seq::empty()
    } else {
        let rest = visible_configs(services.drop_last());
        if is_externally_visible(services.last().container_type) {
            rest.push(services.last().config)
        } else {
            rest
        }
    }
}

/// The configuration of every externally visible service among
/// `services`: exactly the instance and replica entries, in their original
/// relative order.
pub fn get_configs_of_app(services: &Vec<Service>) -> (r: Vec<ServiceConfig>)
    ensures
        config_views(r@) == visible_configs(service_views(services@)),
{
    let mut r: Vec<ServiceConfig> = Vec::new();
    for i in 0..services.len()
        invariant
            config_views(r@) =~= visible_configs(service_views(services@.subrange(0, i as int))),
    {
        let t = services[i].container_type();
        if t == ContainerType::Instance || t == ContainerType::Replica {
            r.push(services[i].config().duplicate());
        }
        proof {
            let pre = services@.subrange(0, i as int);
            let cur = services@.subrange(0, i + 1 as int);
            assert(cur.drop_last() =~= pre);
            assert(cur.last() == services@[i as int]);
            assert(service_views(cur).drop_last() =~= service_views(pre));
            assert(service_views(cur).last() == services@[i as int]@);
            assert(config_views(r@) =~= visible_configs(service_views(cur)));
        }
    }
    proof {
        assert(services@.subrange(0, services@.len() as int) =~= services@);
    }
    r
}


proof fn lemma_env_views_push(a: Seq<EnvironmentVariable>, x: EnvironmentVariable)
    ensures
        env_views(a.push(x)) =~= env_views(a).push(x@),
{
}

proof fn lemma_string_pair_views_push(a: Seq<(String, String)>, x: (String, String))
    ensures
        string_pair_views(a.push(x)) =~= string_pair_views(a).push((x.0@, x.1@)),
{
}

} // verus!
