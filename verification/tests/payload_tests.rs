use prevant::app_name::AppName;
use prevant::deployment::{DeployableService, DeploymentStrategy};
use prevant::image::Image;
use prevant::models::{Config, ContainerConfig, ContainerType, Environment, EnvironmentVariable, Runtime, ServiceConfig};
use prevant::payloads::{
    deployment_payload, deployment_payload_with_timestamp, deployment_replicas_payload,
    image_pull_secret_payload, namespace_payload, persistent_volume_claim_payload,
    secrets_payload, service_payload, Metadata, PvcPayload, VolumeMountPayload, VolumePayload,
};
use prevant::traefik::{TraefikIngressRoute, TraefikRouterRule};

fn sc(name: &str, image: &str) -> ServiceConfig {
    ServiceConfig::new(name.to_string(), Image::from_str(image).unwrap())
}

fn path_prefix_route(segments: &[&str]) -> TraefikIngressRoute {
    let parts: Vec<String> = segments.iter().map(|s| s.to_string()).collect();
    TraefikIngressRoute::with_rule(TraefikRouterRule::path_prefix_rule(&parts))
}

fn expected_labels(app: &str, service: &str, role: &str) -> Vec<(String, String)> {
    vec![
        ("com.aixigo.preview.servant.app-name".to_string(), app.to_string()),
        ("com.aixigo.preview.servant.container-type".to_string(), role.to_string()),
        ("com.aixigo.preview.servant.service-name".to_string(), service.to_string()),
    ]
}

#[test]
fn should_create_deployment_payload() {
    let config = sc("db", "mariadb:10.3.17");

    let payload = deployment_payload(
        &AppName::master(),
        &DeployableService::new(
            config,
            DeploymentStrategy::RedeployAlways,
            path_prefix_route(&["master", "db"]),
            Vec::new(),
        ),
        &ContainerConfig::default(),
        false,
        &None,
    );

    assert_eq!(payload.metadata.name, Some("master-db-deployment".to_string()));
    assert_eq!(payload.metadata.namespace, Some("master".to_string()));
    assert_eq!(payload.metadata.labels, Some(expected_labels("master", "db", "instance")));
    assert_eq!(
        payload.metadata.annotations,
        Some(vec![(
            "com.aixigo.preview.servant.image".to_string(),
            "docker.io/library/mariadb:10.3.17".to_string(),
        )])
    );
    assert_eq!(payload.replicas, 1);
    assert_eq!(payload.selector_match_labels, expected_labels("master", "db", "instance"));
    let template = payload.template.expect("template");
    assert_eq!(template.metadata.labels, Some(expected_labels("master", "db", "instance")));
    assert_eq!(template.containers.len(), 1);
    let container = &template.containers[0];
    assert_eq!(container.name, "db");
    assert_eq!(container.image, "docker.io/library/mariadb:10.3.17");
    assert_eq!(container.image_pull_policy, "Always");
    assert_eq!(container.ports, vec![80u16]);
    assert_eq!(container.env, None);
    assert_eq!(container.volume_mounts, None);
    assert_eq!(template.volumes, None);
    assert_eq!(template.image_pull_secrets, None);
}

#[test]
fn should_create_deployment_with_environment_variable() {
    let mut config = sc("db", "mariadb:10.3.17");
    config.set_env(Some(Environment::new(vec![EnvironmentVariable::new(
        String::from("MYSQL_ROOT_PASSWORD"),
        String::from("example"),
    )])));

    let payload = deployment_payload(
        &AppName::master(),
        &DeployableService::new(
            config,
            DeploymentStrategy::RedeployAlways,
            path_prefix_route(&["master", "db"]),
            Vec::new(),
        ),
        &ContainerConfig::default(),
        false,
        &None,
    );

    assert_eq!(payload.metadata.name, Some("master-db-deployment".to_string()));
    let template = payload.template.expect("template");
    let env = template.containers[0].env.as_ref().expect("env");
    assert_eq!(env.len(), 1);
    assert_eq!(env[0].name, "MYSQL_ROOT_PASSWORD");
    assert_eq!(env[0].value, "example");
}

#[test]
fn should_create_deployment_with_replicated_environment_variable() {
    let mut config = sc("db", "mariadb:10.3.17");
    config.set_env(Some(Environment::new(vec![EnvironmentVariable::with_replicated(
        String::from("MYSQL_ROOT_PASSWORD"),
        String::from("example"),
    )])));

    let payload = deployment_payload(
        &AppName::master(),
        &DeployableService::new(
            config,
            DeploymentStrategy::RedeployAlways,
            path_prefix_route(&["master", "db"]),
            Vec::new(),
        ),
        &ContainerConfig::default(),
        false,
        &None,
    );

    let annotations = payload.metadata.annotations.expect("annotations");
    assert_eq!(
        annotations,
        vec![
            (
                "com.aixigo.preview.servant.image".to_string(),
                "docker.io/library/mariadb:10.3.17".to_string(),
            ),
            (
                "com.aixigo.preview.servant.replicated-env".to_string(),
                "{\"MYSQL_ROOT_PASSWORD\":{\"replicate\":true,\"templated\":false,\"value\":\"example\"}}"
                    .to_string(),
            ),
        ]
    );
}

#[test]
fn should_create_deployment_payload_with_app_name_that_is_not_compliant_to_rfc1123() {
    let config = sc("db", "mariadb:10.3.17");

    let payload = deployment_payload(
        &AppName::from_str("MY-APP").unwrap(),
        &DeployableService::new(
            config,
            DeploymentStrategy::RedeployAlways,
            path_prefix_route(&["master", "db"]),
            Vec::new(),
        ),
        &ContainerConfig::default(),
        false,
        &None,
    );

    assert_eq!(payload.metadata.name, Some("my-app-db-deployment".to_string()));
    assert_eq!(payload.metadata.namespace, Some("my-app".to_string()));
    assert_eq!(payload.metadata.labels, Some(expected_labels("MY-APP", "db", "instance")));
    assert_eq!(payload.selector_match_labels, expected_labels("MY-APP", "db", "instance"));
}

#[test]
fn should_create_deployment_payload_with_persistent_volume_claim() {
    let config = sc("db", "mariadb:10.3.17");

    let persistent_volume_claim = PvcPayload {
        metadata: Metadata {
            name: Some("master-db-pvc-abc".to_string()),
            generate_name: None,
            namespace: Some("master".to_string()),
            labels: Some(vec![
                ("com.aixigo.preview.servant.app-name".to_string(), "master".to_string()),
                ("com.aixigo.preview.servant.service-name".to_string(), "db".to_string()),
                ("com.aixigo.preview.servant.storage-type".to_string(), "data".to_string()),
            ]),
            annotations: None,
        },
        storage_class_name: "local-path".to_string(),
        access_modes: vec!["ReadWriteOnce".to_string()],
        requests_storage: 2147483648,
    };
    let payload = deployment_payload(
        &AppName::master(),
        &DeployableService::new(
            config,
            DeploymentStrategy::RedeployAlways,
            path_prefix_route(&["master", "db"]),
            vec![String::from("/var/lib/data")],
        ),
        &ContainerConfig::default(),
        false,
        &Some(vec![(String::from("/var/lib/data"), persistent_volume_claim)]),
    );

    let template = payload.template.expect("template");
    assert_eq!(
        template.containers[0].volume_mounts,
        Some(vec![VolumeMountPayload {
            name: "data-volume".to_string(),
            mount_path: "/var/lib/data".to_string(),
        }])
    );
    assert_eq!(
        template.volumes,
        Some(vec![VolumePayload {
            name: "data-volume".to_string(),
            secret: None,
            persistent_volume_claim: Some("master-db-pvc-abc".to_string()),
        }])
    );
}

#[test]
fn should_create_deployment_for_config_containing_file_data() {
    let mut config = sc("db", "mariadb:10.3.17");
    config.set_files(Some(vec![(
        String::from("/etc/mysql/my.cnf"),
        String::from(
            r"[client-server]
                  socket=/tmp/mysql.sock
                  port=3306",
        ),
    )]));

    let payload = deployment_payload(
        &AppName::master(),
        &DeployableService::new(
            config,
            DeploymentStrategy::RedeployAlways,
            path_prefix_route(&["master", "db"]),
            Vec::new(),
        ),
        &ContainerConfig::default(),
        false,
        &None,
    );

    let template = payload.template.expect("template");
    let mounts = template.containers[0].volume_mounts.as_ref().expect("mounts");
    assert_eq!(mounts.len(), 1);
    assert_eq!(mounts[0].name, "etc-mysql");
    assert_eq!(mounts[0].mount_path, "/etc/mysql");
    let volumes = template.volumes.expect("volumes");
    assert_eq!(volumes.len(), 1);
    assert_eq!(volumes[0].name, "etc-mysql");
    assert_eq!(volumes[0].persistent_volume_claim, None);
    let secret = volumes[0].secret.as_ref().expect("secret volume");
    assert_eq!(secret.secret_name, "master-db-secret");
    assert_eq!(secret.items.len(), 1);
    assert_eq!(secret.items[0].key, "my-cnf");
    assert_eq!(secret.items[0].path, "my.cnf");
}

#[test]
fn create_namespace_with_screaming_snake_case() {
    let namespace = namespace_payload(&AppName::from_str("MY-APP").unwrap(), &Config::default());

    assert_eq!(namespace.metadata.name, Some("my-app".to_string()));
    assert_eq!(
        namespace.metadata.labels,
        Some(vec![(
            "com.aixigo.preview.servant.app-name".to_string(),
            "MY-APP".to_string(),
        )])
    );
    assert_eq!(namespace.metadata.annotations, None);
}

#[test]
fn create_namespace_payload_with_annotations() {
    let config = Config::new(Runtime::Kubernetes(vec![(
        "field.cattle.io/projectId".to_string(),
        "rancher-project-id".to_string(),
    )]));

    let namespace = namespace_payload(&AppName::from_str("myapp").unwrap(), &config);

    assert_eq!(namespace.metadata.name, Some("myapp".to_string()));
    assert_eq!(
        namespace.metadata.labels,
        Some(vec![(
            "com.aixigo.preview.servant.app-name".to_string(),
            "myapp".to_string(),
        )])
    );
    assert_eq!(
        namespace.metadata.annotations,
        Some(vec![(
            "field.cattle.io/projectId".to_string(),
            "rancher-project-id".to_string(),
        )])
    );
}

#[test]
fn namespace_with_empty_annotation_map_omits_annotations() {
    let config = Config::new(Runtime::Kubernetes(Vec::new()));
    let namespace = namespace_payload(&AppName::from_str("myapp").unwrap(), &config);
    assert_eq!(namespace.metadata.annotations, None);
}

#[test]
fn same_inputs_and_timestamp_give_identical_payloads() {
    let build = || {
        deployment_payload_with_timestamp(
            &AppName::master(),
            &DeployableService::new(
                sc("db", "mariadb:10.3.17"),
                DeploymentStrategy::RedeployNever,
                path_prefix_route(&["master", "db"]),
                Vec::new(),
            ),
            &ContainerConfig::default(),
            true,
            &None,
            "2024-05-01T00:00:00+00:00",
        )
    };
    assert_eq!(build(), build());
}

#[test]
fn never_force_ignores_the_timestamp() {
    let build = |ts: &str| {
        deployment_payload_with_timestamp(
            &AppName::master(),
            &DeployableService::new(
                sc("db", "mariadb:10.3.17"),
                DeploymentStrategy::RedeployNever,
                path_prefix_route(&["master", "db"]),
                Vec::new(),
            ),
            &ContainerConfig::default(),
            false,
            &None,
            ts,
        )
    };
    assert_eq!(build("2024-05-01T00:00:00+00:00"), build("2025-06-02T12:30:00+00:00"));
}

#[test]
fn always_force_differs_only_in_the_date_annotation() {
    let build = |ts: &str| {
        deployment_payload_with_timestamp(
            &AppName::master(),
            &DeployableService::new(
                sc("db", "mariadb:10.3.17"),
                DeploymentStrategy::RedeployAlways,
                path_prefix_route(&["master", "db"]),
                Vec::new(),
            ),
            &ContainerConfig::default(),
            false,
            &None,
            ts,
        )
    };
    let first = build("2024-05-01T00:00:00+00:00");
    let second = build("2025-06-02T12:30:00+00:00");
    assert_ne!(first, second);
    assert_eq!(first.metadata, second.metadata);
    assert_eq!(first.selector_match_labels, second.selector_match_labels);
    let t1 = first.template.expect("template");
    let t2 = second.template.expect("template");
    assert_eq!(t1.containers, t2.containers);
    assert_eq!(t1.volumes, t2.volumes);
    assert_eq!(t1.metadata.labels, t2.metadata.labels);
    assert_eq!(
        t1.metadata.annotations,
        Some(vec![("date".to_string(), "2024-05-01T00:00:00+00:00".to_string())])
    );
    assert_eq!(
        t2.metadata.annotations,
        Some(vec![("date".to_string(), "2025-06-02T12:30:00+00:00".to_string())])
    );
}

#[test]
fn pinned_strategy_records_the_image_hash() {
    let payload = deployment_payload_with_timestamp(
        &AppName::master(),
        &DeployableService::new(
            sc("db", "mariadb:10.3.17"),
            DeploymentStrategy::RedeployOnImageUpdate("sha256:abcd".to_string()),
            path_prefix_route(&["master", "db"]),
            Vec::new(),
        ),
        &ContainerConfig::default(),
        false,
        &None,
        "2024-05-01T00:00:00+00:00",
    );
    let template = payload.template.expect("template");
    assert_eq!(
        template.metadata.annotations,
        Some(vec![("imageHash".to_string(), "sha256:abcd".to_string())])
    );
}

#[test]
fn files_sharing_a_parent_share_one_volume() {
    let mut config = sc("db", "mariadb:10.3.17");
    config.set_files(Some(vec![
        (String::from("/etc/mysql/my.cnf"), String::from("a")),
        (String::from("/etc/mysql/extra.cnf"), String::from("b")),
    ]));

    let payload = deployment_payload(
        &AppName::master(),
        &DeployableService::new(
            config,
            DeploymentStrategy::RedeployAlways,
            path_prefix_route(&["master", "db"]),
            Vec::new(),
        ),
        &ContainerConfig::default(),
        false,
        &None,
    );

    let template = payload.template.expect("template");
    let mounts = template.containers[0].volume_mounts.as_ref().expect("mounts");
    assert_eq!(mounts.len(), 1);
    assert_eq!(mounts[0].mount_path, "/etc/mysql");
    let volumes = template.volumes.expect("volumes");
    assert_eq!(volumes.len(), 1);
    let items = &volumes[0].secret.as_ref().expect("secret").items;
    assert_eq!(items.len(), 2);
    assert_eq!(items[0].key, "my-cnf");
    assert_eq!(items[1].key, "extra-cnf");
}

#[test]
fn image_pull_secret_reference_uses_the_normalized_name() {
    let payload = deployment_payload(
        &AppName::from_str("MY-APP").unwrap(),
        &DeployableService::new(
            sc("db", "mariadb:10.3.17"),
            DeploymentStrategy::RedeployAlways,
            path_prefix_route(&["master", "db"]),
            Vec::new(),
        ),
        &ContainerConfig::default(),
        true,
        &None,
    );
    let template = payload.template.expect("template");
    assert_eq!(
        template.image_pull_secrets,
        Some(vec!["my-app-image-pull-secret".to_string()])
    );
}

#[test]
fn memory_limit_is_copied_to_the_container() {
    let payload = deployment_payload(
        &AppName::master(),
        &DeployableService::new(
            sc("db", "mariadb:10.3.17"),
            DeploymentStrategy::RedeployNever,
            path_prefix_route(&["master", "db"]),
            Vec::new(),
        ),
        &ContainerConfig::new(Some(268435456)),
        false,
        &None,
    );
    let template = payload.template.expect("template");
    assert_eq!(template.containers[0].memory_limit, Some(268435456));
}

#[test]
fn should_create_replicas_payload() {
    let service = prevant::models::Service::new(
        "db".to_string(),
        ContainerType::Instance,
        prevant::models::ServiceStatus::Running,
        sc("db", "mariadb:10.3.17"),
    );
    let payload = deployment_replicas_payload(&AppName::master(), &service, 5);
    assert_eq!(payload.metadata.name, Some("master-db-deployment".to_string()));
    assert_eq!(payload.metadata.namespace, Some("master".to_string()));
    assert_eq!(payload.metadata.labels, Some(expected_labels("master", "db", "instance")));
    assert_eq!(payload.replicas, 5);
    assert_eq!(payload.selector_match_labels, expected_labels("master", "db", "instance"));
    assert_eq!(payload.template, None);
}

#[test]
fn should_create_service_payload() {
    let mut config = sc("db", "mariadb:10.3.17");
    config.set_port(1234);
    let payload = service_payload(&AppName::master(), &config);
    assert_eq!(payload.metadata.name, Some("db".to_string()));
    assert_eq!(payload.metadata.namespace, Some("master".to_string()));
    assert_eq!(payload.ports.len(), 1);
    assert_eq!(payload.ports[0].name, "db");
    assert_eq!(payload.ports[0].port, 1234);
    assert_eq!(payload.ports[0].target_port, 1234);
    assert_eq!(payload.selector, expected_labels("master", "db", "instance"));
}

#[test]
fn should_create_secrets_payload() {
    let config = sc("db", "mariadb:10.3.17");
    let files = vec![(String::from("/etc/mysql/my.cnf"), String::from("hello"))];
    let payload = secrets_payload(&AppName::master(), &config, &files);
    assert_eq!(payload.metadata.name, Some("master-db-secret".to_string()));
    assert_eq!(payload.metadata.namespace, Some("master".to_string()));
    assert_eq!(payload.secret_type, "Opaque");
    assert_eq!(payload.immutable, None);
    assert_eq!(
        payload.data,
        vec![("my-cnf".to_string(), "aGVsbG8=".to_string())]
    );
}

#[test]
fn should_create_image_pull_secret_payload() {
    let creds = vec![(
        "registry.example.com".to_string(),
        ("user".to_string(), "pass".to_string()),
    )];
    let payload = image_pull_secret_payload(&AppName::from_str("MY-APP").unwrap(), &creds);
    assert_eq!(payload.metadata.name, Some("my-app-image-pull-secret".to_string()));
    assert_eq!(payload.metadata.namespace, Some("my-app".to_string()));
    assert_eq!(
        payload.metadata.labels,
        Some(vec![(
            "com.aixigo.preview.servant.app-name".to_string(),
            "MY-APP".to_string(),
        )])
    );
    assert_eq!(payload.secret_type, "kubernetes.io/dockerconfigjson");
    assert_eq!(payload.immutable, Some(true));
    assert_eq!(
        payload.data,
        vec![(
            ".dockerconfigjson".to_string(),
            "{\"auths\":{\"registry.example.com\":{\"password\":\"pass\",\"username\":\"user\"}}}"
                .to_string(),
        )]
    );
}

#[test]
fn should_create_persistent_volume_claim_payload() {
    let service = DeployableService::new(
        sc("db", "mariadb:10.3.17"),
        DeploymentStrategy::RedeployAlways,
        path_prefix_route(&["master", "db"]),
        vec![String::from("/var/lib/data")],
    );
    let payload = persistent_volume_claim_payload(
        &AppName::master(),
        &service,
        2147483648,
        "local-path",
        "/var/lib/data",
    );
    assert_eq!(payload.metadata.name, None);
    assert_eq!(payload.metadata.generate_name, Some("master-db-pvc-".to_string()));
    assert_eq!(
        payload.metadata.labels,
        Some(vec![
            ("com.aixigo.preview.servant.app-name".to_string(), "master".to_string()),
            ("com.aixigo.preview.servant.service-name".to_string(), "db".to_string()),
            ("com.aixigo.preview.servant.storage-type".to_string(), "data".to_string()),
        ])
    );
    assert_eq!(payload.storage_class_name, "local-path");
    assert_eq!(payload.access_modes, vec!["ReadWriteOnce".to_string()]);
    assert_eq!(payload.requests_storage, 2147483648);
}

#[test]
fn persistent_volume_claim_defaults_the_storage_kind() {
    let service = DeployableService::new(
        sc("db", "mariadb:10.3.17"),
        DeploymentStrategy::RedeployAlways,
        path_prefix_route(&["master", "db"]),
        vec![String::from("data/")],
    );
    let payload =
        persistent_volume_claim_payload(&AppName::master(), &service, 1024, "local-path", "data/");
    let labels = payload.metadata.labels.expect("labels");
    assert_eq!(
        labels[2],
        ("com.aixigo.preview.servant.storage-type".to_string(), "default".to_string())
    );
}

#[test]
fn replicated_summary_records_the_templated_mark() {
    let mut config = sc("db", "mariadb:10.3.17");
    config.set_env(Some(Environment::new(vec![EnvironmentVariable::with_flags(
        String::from("HOST"),
        String::from("db.master"),
        true,
        true,
    )])));

    let payload = deployment_payload(
        &AppName::master(),
        &DeployableService::new(
            config,
            DeploymentStrategy::RedeployNever,
            path_prefix_route(&["master", "db"]),
            Vec::new(),
        ),
        &ContainerConfig::default(),
        false,
        &None,
    );

    let annotations = payload.metadata.annotations.expect("annotations");
    assert_eq!(
        annotations[1],
        (
            "com.aixigo.preview.servant.replicated-env".to_string(),
            "{\"HOST\":{\"replicate\":true,\"templated\":true,\"value\":\"db.master\"}}".to_string(),
        )
    );
}
