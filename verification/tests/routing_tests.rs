use prevant::app_name::AppName;
use prevant::deployment::{DeployableService, DeploymentStrategy};
use prevant::image::Image;
use prevant::json::JsonValue;
use prevant::models::{
    get_configs_of_app, ContainerType, Service, ServiceConfig, ServiceStatus,
};
use prevant::payloads::{
    ingress_route_payload, middleware_payload, IngressRoute, IngressRouteSpec, Metadata,
    RouteConversionError, TraefikRuleMiddleware, TraefikRuleService, TraefikRuleSpec, TraefikTls,
};
use prevant::traefik::{TraefikIngressRoute, TraefikMiddleware, TraefikRouterRule};

fn sc(name: &str, image: &str) -> ServiceConfig {
    ServiceConfig::new(name.to_string(), Image::from_str(image).unwrap())
}

#[test]
fn should_create_ingress_route() {
    let app_name = AppName::master();
    let mut config = sc("db", "mariadb:10.3.17");
    let port = 1234;
    config.set_port(port);
    let config = DeployableService::new(
        config,
        DeploymentStrategy::RedeployAlways,
        TraefikIngressRoute::with_defaults(&app_name, "db"),
        Vec::new(),
    );
    let payload = ingress_route_payload(&app_name, &config);

    assert_eq!(payload.metadata.name, Some("master-db-ingress-route".to_string()));
    assert_eq!(payload.metadata.namespace, Some("master".to_string()));
    let routes = payload.spec.routes.expect("routes");
    assert_eq!(routes.len(), 1);
    assert_eq!(routes[0].kind, "Rule");
    assert_eq!(routes[0].match_rule, "PathPrefix(`/master/db/`)");
    assert_eq!(routes[0].services.len(), 1);
    assert_eq!(routes[0].services[0].name, "db");
    assert_eq!(routes[0].services[0].port, Some(port));
    assert_eq!(routes[0].services[0].kind, Some("Service".to_string()));
    let middlewares = routes[0].middlewares.as_ref().expect("middlewares");
    assert_eq!(middlewares.len(), 1);
    assert_eq!(middlewares[0].name, "master-db-middleware");
}

#[test]
fn should_create_ingress_route_with_app_name_that_is_not_compliant_to_rfc1123() {
    let app_name = AppName::from_str("MY-APP").unwrap();
    let mut config = sc("db", "mariadb:10.3.17");
    let port = 1234;
    config.set_port(port);
    let config = DeployableService::new(
        config,
        DeploymentStrategy::RedeployAlways,
        TraefikIngressRoute::with_defaults(&app_name, "db"),
        Vec::new(),
    );
    let payload = ingress_route_payload(&app_name, &config);

    assert_eq!(payload.metadata.name, Some("my-app-db-ingress-route".to_string()));
    assert_eq!(payload.metadata.namespace, Some("my-app".to_string()));
    let routes = payload.spec.routes.expect("routes");
    assert_eq!(routes[0].match_rule, "PathPrefix(`/MY-APP/db/`)");
    let middlewares = routes[0].middlewares.as_ref().expect("middlewares");
    assert_eq!(middlewares[0].name, "my-app-db-middleware");
}

#[test]
fn should_create_middleware_with_default_prefix() {
    let app_name = AppName::master();
    let config = sc("db", "mariadb:10.3.17");
    let service = DeployableService::new(
        config,
        DeploymentStrategy::RedeployAlways,
        TraefikIngressRoute::with_defaults(&app_name, "db"),
        Vec::new(),
    );

    let payload = middleware_payload(&app_name, &service);

    assert_eq!(payload.len(), 1);
    assert_eq!(payload[0].metadata.name, Some("master-db-middleware".to_string()));
    assert_eq!(payload[0].metadata.namespace, Some("master".to_string()));
    assert_eq!(
        payload[0].spec.0.to_json_string(),
        "{\"stripPrefix\":{\"prefixes\":[\"/master/db/\"]}}"
    );
}

#[test]
fn should_create_middleware_with_default_prefix_with_name_rfc1123_app_name() {
    let app_name = AppName::from_str("MY-APP").unwrap();
    let config = sc("db", "mariadb:10.3.17");
    let service = DeployableService::new(
        config,
        DeploymentStrategy::RedeployAlways,
        TraefikIngressRoute::with_defaults(&app_name, "db"),
        Vec::new(),
    );

    let payload = middleware_payload(&app_name, &service);

    assert_eq!(payload.len(), 1);
    assert_eq!(payload[0].metadata.name, Some("my-app-db-middleware".to_string()));
    assert_eq!(payload[0].metadata.namespace, Some("my-app".to_string()));
    assert_eq!(
        payload[0].spec.0.to_json_string(),
        "{\"stripPrefix\":{\"prefixes\":[\"/MY-APP/db/\"]}}"
    );
}

#[test]
fn reference_middleware_passes_through_unchanged() {
    let app_name = AppName::master();
    let rule = TraefikRouterRule::from_str("PathPrefix(`/master/db/`)").unwrap();
    let entry = prevant::traefik::TraefikIngressRouteEntry::new(
        rule,
        vec![
            TraefikMiddleware::Ref("UPPER-existing".to_string()),
            TraefikMiddleware::Spec { name: "MY-APP".to_string(), spec: JsonValue::Null },
        ],
    );
    let service = DeployableService::new(
        sc("db", "mariadb:10.3.17"),
        DeploymentStrategy::RedeployAlways,
        TraefikIngressRoute::from_entries(vec![entry]),
        Vec::new(),
    );

    let payload = ingress_route_payload(&app_name, &service);
    let routes = payload.spec.routes.expect("routes");
    let middlewares = routes[0].middlewares.as_ref().expect("middlewares");
    assert_eq!(middlewares[0].name, "UPPER-existing");
    assert_eq!(middlewares[1].name, "my-app");

    let objects = middleware_payload(&app_name, &service);
    assert_eq!(objects.len(), 1);
    assert_eq!(objects[0].metadata.name, Some("my-app".to_string()));
    assert_eq!(objects[0].spec.0, JsonValue::Null);
}

#[test]
fn rule_parser_round_trips_written_rules() {
    let rule = TraefikRouterRule::from_str("PathPrefix(`/master/db/`)").expect("parses");
    assert_eq!(rule.to_string(), "PathPrefix(`/master/db/`)");

    let rule = TraefikRouterRule::from_str("Host(`example.com`, `other.io`) && PathPrefix(`/x/`)")
        .expect("parses");
    assert_eq!(rule.to_string(), "Host(`example.com`, `other.io`) && PathPrefix(`/x/`)");
}

#[test]
fn rule_parser_rejects_other_text() {
    assert!(TraefikRouterRule::from_str("nonsense").is_none());
    assert!(TraefikRouterRule::from_str("").is_none());
    assert!(TraefikRouterRule::from_str("PathPrefix(`/x/`) &&").is_none());
    assert!(TraefikRouterRule::from_str("PathPrefix()").is_none());
}

#[test]
fn ingress_route_payload_reads_back_into_the_routing_model() {
    let app_name = AppName::master();
    let service = DeployableService::new(
        sc("db", "mariadb:10.3.17"),
        DeploymentStrategy::RedeployAlways,
        TraefikIngressRoute::with_defaults(&app_name, "db"),
        Vec::new(),
    );
    let payload = ingress_route_payload(&app_name, &service);
    let restored = TraefikIngressRoute::try_from(payload).expect("convertible");
    assert_eq!(restored.routes().len(), 1);
    assert_eq!(restored.routes()[0].rule().to_string(), "PathPrefix(`/master/db/`)");
    assert_eq!(
        restored.routes()[0].middlewares(),
        &vec![TraefikMiddleware::Ref("master-db-middleware".to_string())]
    );
}

#[test]
fn stored_route_without_routes_is_rejected() {
    let object = IngressRoute {
        metadata: Metadata {
            name: Some("x".to_string()),
            generate_name: None,
            namespace: None,
            labels: None,
            annotations: None,
        },
        spec: IngressRouteSpec { entrypoints: None, routes: Some(Vec::new()), tls: None },
    };
    assert_eq!(
        TraefikIngressRoute::try_from(object),
        Err(RouteConversionError::NoRoutes)
    );
}

#[test]
fn stored_route_with_unparsable_rule_is_rejected() {
    let object = IngressRoute {
        metadata: Metadata {
            name: Some("x".to_string()),
            generate_name: None,
            namespace: None,
            labels: None,
            annotations: None,
        },
        spec: IngressRouteSpec {
            entrypoints: None,
            routes: Some(vec![TraefikRuleSpec {
                kind: "Rule".to_string(),
                match_rule: "not a rule".to_string(),
                services: vec![TraefikRuleService {
                    kind: None,
                    name: "db".to_string(),
                    port: None,
                }],
                middlewares: Some(vec![TraefikRuleMiddleware { name: "m".to_string() }]),
            }]),
            tls: Some(TraefikTls { cert_resolver: Some("letsencrypt".to_string()) }),
        },
    };
    assert_eq!(
        TraefikIngressRoute::try_from(object),
        Err(RouteConversionError::UnparsableRule)
    );
}

#[test]
fn normalization_is_idempotent_and_lowercase() {
    let app = AppName::from_str("MY-APP").unwrap();
    let once = app.to_rfc1123_namespace_id();
    assert_eq!(once, "my-app");
    let again = AppName::from_str(once.as_str()).unwrap().to_rfc1123_namespace_id();
    assert_eq!(again, once);
}

#[test]
fn invalid_app_names_are_rejected() {
    assert!(AppName::from_str("").is_none());
    assert!(AppName::from_str("has space").is_none());
    assert!(AppName::from_str("slash/name").is_none());
    assert!(AppName::from_str("ok-Name_3").is_some());
}

#[test]
fn visible_configs_keep_instances_and_replicas_in_order() {
    let services = vec![
        Service::new(
            "web".to_string(),
            ContainerType::Instance,
            ServiceStatus::Running,
            sc("web", "nginx:1.25"),
        ),
        Service::new(
            "helper".to_string(),
            ContainerType::ApplicationCompanion,
            ServiceStatus::Running,
            sc("helper", "busybox:1.36"),
        ),
        Service::new(
            "db".to_string(),
            ContainerType::Replica,
            ServiceStatus::Paused,
            sc("db", "mariadb:10.3.17"),
        ),
    ];
    let configs = get_configs_of_app(&services);
    assert_eq!(configs.len(), 2);
    assert_eq!(configs[0].service_name().as_str(), "web");
    assert_eq!(configs[1].service_name().as_str(), "db");
}

#[test]
fn json_serialization_escapes_quotes_and_backslashes() {
    let value = JsonValue::Obj(vec![
        ("text".to_string(), JsonValue::Str("say \"hi\" \\ bye".to_string())),
        ("count".to_string(), JsonValue::Int(-42)),
        ("flag".to_string(), JsonValue::Bool(true)),
        ("nothing".to_string(), JsonValue::Null),
        ("list".to_string(), JsonValue::Arr(vec![JsonValue::Int(0), JsonValue::Int(17)])),
    ]);
    assert_eq!(
        value.to_json_string(),
        "{\"text\":\"say \\\"hi\\\" \\\\ bye\",\"count\":-42,\"flag\":true,\"nothing\":null,\"list\":[0,17]}"
    );
}

#[test]
fn image_references_are_parsed_and_qualified() {
    let image = Image::from_str("mariadb:10.3.17").unwrap();
    assert_eq!(image.to_string(), "docker.io/library/mariadb:10.3.17");

    let image = Image::from_str("registry.example.com:5000/team/app").unwrap();
    assert_eq!(image.to_string(), "registry.example.com:5000/team/app:latest");

    assert!(Image::from_str("").is_none());
    assert!(Image::from_str("team/:tag").is_none());
}

#[test]
fn secret_names_derive_from_paths() {
    assert_eq!(prevant::paths::secret_name_from_path("/etc/mysql"), "etc-mysql");
    assert_eq!(prevant::paths::secret_name_from_name("/etc/mysql/my.cnf"), "my-cnf");
    assert_eq!(prevant::paths::parent_of("/etc/mysql/my.cnf"), Some("/etc/mysql".to_string()));
    assert_eq!(prevant::paths::parent_of("/etc"), Some("/".to_string()));
    assert_eq!(prevant::paths::parent_of("/"), None);
    assert_eq!(prevant::paths::file_name_of("/var/lib/data"), "data");
}

#[test]
fn end_to_end_master_db_synthesis() {
    let app_name = AppName::master();
    let mut config = sc("db", "mariadb:10.3.17");
    config.set_port(80);
    let service = DeployableService::new(
        config,
        DeploymentStrategy::RedeployAlways,
        TraefikIngressRoute::with_defaults(&app_name, "db"),
        Vec::new(),
    );

    let workload = prevant::payloads::deployment_payload(
        &app_name,
        &service,
        &prevant::models::ContainerConfig::default(),
        false,
        &None,
    );
    assert_eq!(workload.metadata.name, Some("master-db-deployment".to_string()));
    assert_eq!(workload.metadata.namespace, Some("master".to_string()));
    assert_eq!(
        workload.metadata.annotations,
        Some(vec![(
            "com.aixigo.preview.servant.image".to_string(),
            "docker.io/library/mariadb:10.3.17".to_string(),
        )])
    );
    assert_eq!(
        workload.metadata.labels,
        Some(vec![
            ("com.aixigo.preview.servant.app-name".to_string(), "master".to_string()),
            ("com.aixigo.preview.servant.container-type".to_string(), "instance".to_string()),
            ("com.aixigo.preview.servant.service-name".to_string(), "db".to_string()),
        ])
    );

    let route = ingress_route_payload(&app_name, &service);
    assert_eq!(route.metadata.name, Some("master-db-ingress-route".to_string()));
    let routes = route.spec.routes.expect("routes");
    assert_eq!(routes.len(), 1);
    assert_eq!(routes[0].match_rule, "PathPrefix(`/master/db/`)");
    assert_eq!(routes[0].services[0].name, "db");
    assert_eq!(routes[0].services[0].port, Some(80));
}

#[test]
fn identical_inline_middlewares_materialize_once() {
    let app_name = AppName::master();
    let first = prevant::traefik::TraefikIngressRouteEntry::new(
        TraefikRouterRule::from_str("PathPrefix(`/master/db/`)").unwrap(),
        vec![TraefikMiddleware::Spec {
            name: "shared".to_string(),
            spec: JsonValue::Bool(true),
        }],
    );
    let second = prevant::traefik::TraefikIngressRouteEntry::new(
        TraefikRouterRule::from_str("Host(`example.com`)").unwrap(),
        vec![TraefikMiddleware::Spec {
            name: "shared".to_string(),
            spec: JsonValue::Bool(true),
        }],
    );
    let service = DeployableService::new(
        sc("db", "mariadb:10.3.17"),
        DeploymentStrategy::RedeployAlways,
        TraefikIngressRoute::from_entries(vec![first, second]),
        Vec::new(),
    );

    let objects = middleware_payload(&app_name, &service);
    assert_eq!(objects.len(), 1);
    assert_eq!(objects[0].metadata.name, Some("shared".to_string()));
    assert_eq!(objects[0].spec.0, JsonValue::Bool(true));
}

#[test]
fn stored_route_carries_entrypoints_and_tls_back() {
    let object = IngressRoute {
        metadata: Metadata {
            name: Some("x".to_string()),
            generate_name: None,
            namespace: None,
            labels: None,
            annotations: None,
        },
        spec: IngressRouteSpec {
            entrypoints: Some(vec!["web".to_string(), "websecure".to_string()]),
            routes: Some(vec![TraefikRuleSpec {
                kind: "Rule".to_string(),
                match_rule: "Host(`example.com`)".to_string(),
                services: vec![TraefikRuleService {
                    kind: None,
                    name: "db".to_string(),
                    port: None,
                }],
                middlewares: None,
            }]),
            tls: Some(TraefikTls { cert_resolver: Some("letsencrypt".to_string()) }),
        },
    };
    let restored = TraefikIngressRoute::try_from(object).expect("convertible");
    assert_eq!(
        restored.entrypoints(),
        &vec!["web".to_string(), "websecure".to_string()]
    );
    assert_eq!(restored.tls_cert_resolver(), &Some("letsencrypt".to_string()));
    assert_eq!(restored.routes()[0].rule().to_string(), "Host(`example.com`)");
    assert_eq!(restored.routes()[0].middlewares(), &Vec::new());
}
