use crate::image::Image;
use crate::models::{ContainerType, Environment, ServiceConfig, ServiceConfigView};
use crate::traefik::{TraefikIngressRoute, TraefikIngressRouteView};
use vstd::prelude::*;

verus! {

/// The mathematical form of a redeploy strategy.
#[verifier::ext_equal]
pub enum DeploymentStrategyView {
    RedeployOnImageUpdate(Seq<char>),
    RedeployNever,
    RedeployAlways,
}

/// Controls whether a workload must be recreated on redeploy: pinned to
/// an image hash, never forced, or forced on every synthesis.
#[derive(Debug, PartialEq, Eq)]
pub enum DeploymentStrategy {
    RedeployOnImageUpdate(String),
    RedeployNever,
    RedeployAlways,
}

impl View for DeploymentStrategy {
    type V = DeploymentStrategyView;

    open spec fn view(&self) -> DeploymentStrategyView {
        match self {
            DeploymentStrategy::RedeployOnImageUpdate(hash) => {
                DeploymentStrategyView::RedeployOnImageUpdate(hash@)
            },
            DeploymentStrategy::RedeployNever => DeploymentStrategyView::RedeployNever,
            DeploymentStrategy::RedeployAlways => DeploymentStrategyView::RedeployAlways,
        }
    }
}

/// The mathematical form of a deployable service.
#[verifier::ext_equal]
pub struct DeployableServiceView {
    pub config: ServiceConfigView,
    pub strategy: DeploymentStrategyView,
    pub ingress_route: TraefikIngressRouteView,
    pub declared_volumes: Seq<Seq<char>>,
}

/// One service ready for synthesis: its configuration, its redeploy
/// strategy, its routing model, and the persistent-volume paths it
/// declares.
#[derive(Debug, PartialEq, Eq)]
pub struct DeployableService {
    config: ServiceConfig,
    strategy: DeploymentStrategy,
    ingress_route: TraefikIngressRoute,
    declared_volumes: Vec<String>,
}

impl View for DeployableService {
    type V = DeployableServiceView;

    closed spec fn view(&self) -> DeployableServiceView {
        DeployableServiceView {
            config: self.config@,
            strategy: self.strategy@,
            ingress_route: self.ingress_route@,
            declared_volumes: crate::traefik::string_views(self.declared_volumes@),
        }
    }
}

impl DeployableService {
    pub fn new(
        config: ServiceConfig,
        strategy: DeploymentStrategy,
        ingress_route: TraefikIngressRoute,
        declared_volumes: Vec<String>,
    ) -> (r: DeployableService)
        ensures
            r@ == (DeployableServiceView {
                config: config@,
                strategy: strategy@,
                ingress_route: ingress_route@,
                declared_volumes: crate::traefik::string_views(declared_volumes@),
            }),
    {
        DeployableService { config, strategy, ingress_route, declared_volumes }
    }

    pub fn service_name(&self) -> (r: &String)
        ensures
            r@ == self@.config.service_name,
    {
        self.config.service_name()
    }

    pub fn image(&self) -> (r: &Image)
        ensures
            r@ == self@.config.image,
    {
        self.config.image()
    }

    pub fn env(&self) -> (r: &Option<Environment>)
        ensures
            match r {
                Option::Some(e) => self@.config.env == Option::Some(e@),
                Option::None => self@.config.env is None,
            },
    {
        self.config.env()
    }

    pub fn files(&self) -> (r: &Option<Vec<(String, String)>>)
        ensures
            match r {
                Option::Some(f) => self@.config.files == Option::Some(
                    crate::models::string_pair_views(f@),
                ),
                Option::None => self@.config.files is None,
            },
    {
        self.config.files()
    }

    pub fn port(&self) -> (r: u16)
        ensures
            r == self@.config.port,
    {
        self.config.port()
    }

    pub fn container_type(&self) -> (r: ContainerType)
        ensures
            r == self@.config.container_type,
    {
        self.config.container_type()
    }

    pub fn config(&self) -> (r: &ServiceConfig)
        ensures
            r@ == self@.config,
    {
        &self.config
    }

    pub fn strategy(&self) -> (r: &DeploymentStrategy)
        ensures
            r@ == self@.strategy,
    {
        &self.strategy
    }

    pub fn ingress_route(&self) -> (r: &TraefikIngressRoute)
        ensures
            r@ == self@.ingress_route,
    {
        &self.ingress_route
    }

    pub fn declared_volumes(&self) -> (r: &Vec<String>)
        ensures
            crate::traefik::string_views(r@) == self@.declared_volumes,
    {
        &self.declared_volumes
    }
}

} // verus!
