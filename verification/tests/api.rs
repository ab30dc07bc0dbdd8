//! The client and the server of the API.

use firecrab::api_client::{
    decode_json, ensure_success, resolve_api_base, ApiClient, ApiError, DEFAULT_API_BASE,
};
use firecrab::image::{
    ensure_import_succeeded_or_active, format_import_snapshot, format_inspect, Error,
    ImageInstallResponse, ImageInstallStatus, ImageResponse, OciInspectResponse,
};
use firecrab::persistence::network::MicroNetwork;
use firecrab::server::{
    answer_unmatched, bind_addr_or_default, build_router, enforce_origin, env_flag,
    is_same_origin, resolve_static_root, ConfigError, HttpConfig, OriginHeader, Unmatched, ROUTES,
};
use firecrab::shell::{CommandRunner, ExitStatus, FakeCommandRunner, Output, SpawnError};
use firecrab::status::{collect, format_human, systemd_is_active, HostStatus, StatusReport};
use firecrab::{image, network};
use std::collections::HashSet;

#[test]
fn resolve_api_base_prefers_flag() {
    assert_eq!(
        resolve_api_base(Some("http://example.test:9000/"), Some("http://other")),
        "http://example.test:9000"
    );
}

#[test]
fn resolve_api_base_falls_back_to_default() {
    assert_eq!(resolve_api_base(None, None), DEFAULT_API_BASE);
    assert_eq!(resolve_api_base(None, Some("")), DEFAULT_API_BASE);
}

#[test]
fn resolve_api_base_reads_env_var_when_no_flag() {
    assert_eq!(
        resolve_api_base(None, Some("http://env-example.test:1234/")),
        "http://env-example.test:1234"
    );
    assert_eq!(resolve_api_base(None, Some("http://a//")), "http://a");
}

#[test]
fn requests_go_to_a_path_below_the_base() {
    let client = ApiClient::new("http://h:1".to_owned());
    assert_eq!(client.base_url(), "http://h:1");
    let get = client.get("/api/vms?state=running");
    assert_eq!((get.method, get.url.as_str()), ("GET", "http://h:1/api/vms?state=running"));
    assert_eq!(get.timeout_secs, 15);
    let status = client.get_host_status();
    assert_eq!(status.url, "http://h:1/api/host");
    assert_eq!(status.timeout_secs, 3);
    assert_eq!(client.post("/api/vms").method, "POST");
    let start = client.post_empty("/api/vms/123/start");
    assert_eq!(
        (start.method, start.url.as_str()),
        ("POST", "http://h:1/api/vms/123/start")
    );
    let inspect = client.get_query("/api/oci/inspect");
    assert_eq!(
        (inspect.method, inspect.url.as_str(), inspect.timeout_secs),
        ("GET", "http://h:1/api/oci/inspect", 15)
    );
    let delete = client.delete("/api/micro-networks/123");
    assert_eq!(
        (delete.method, delete.url.as_str()),
        ("DELETE", "http://h:1/api/micro-networks/123")
    );
}

#[test]
fn non_success_response_preserves_body_verbatim() {
    let body = "  validation failed\n{not-json}\n";
    let err = ensure_success(422, Ok(body.to_owned())).unwrap_err();
    match err {
        ApiError::Http {
            status,
            body: actual,
        } => {
            assert_eq!(status, 422);
            assert_eq!(actual, body);
        }
        ApiError::Unreachable(message) => panic!("unexpected transport error: {message}"),
    }
    assert!(ensure_success(204, Err("no body".to_owned())).is_ok());
    assert!(matches!(
        ensure_success(500, Err("cut off".to_owned())),
        Err(ApiError::Unreachable(_))
    ));
}

#[test]
fn invalid_success_json_is_an_unreachable_error() {
    let err = decode_json::<u8>(Err("expected value".to_owned())).unwrap_err();
    match err {
        ApiError::Unreachable(message) => {
            assert!(message.starts_with("bad response body:"));
        }
        ApiError::Http { status, body } => {
            panic!("unexpected HTTP error {status}: {body}")
        }
    }
    assert_eq!(decode_json(Ok::<u8, String>(3)).unwrap(), 3);
}

#[test]
fn api_error_display_unreachable() {
    let err = ApiError::Unreachable("connection refused".to_owned());
    assert_eq!(err.message(), "unreachable: connection refused");
}

#[test]
fn api_error_display_http() {
    let err = ApiError::Http {
        status: 500,
        body: "boom".to_owned(),
    };
    assert_eq!(err.message(), "HTTP 500: boom");
}

fn image_row(installed: bool, staged: bool) -> ImageResponse {
    ImageResponse {
        alias: "alpine-3.24.1".to_owned(),
        version: "3.24.1".to_owned(),
        min_disk_gb: 2,
        installed,
        package_url: Some("https://example.test/alpine.tar.zst".to_owned()),
        package_staged: staged,
    }
}

#[test]
fn image_empty_list_still_has_a_header() {
    assert_eq!(
        image::format_list(&[]),
        "ALIAS\tVERSION\tINSTALLED\tMIN_DISK_GIB\tPACKAGE\n"
    );
}

#[test]
fn list_formats_install_and_package_state() {
    let mut bare = image_row(false, false);
    bare.package_url = None;
    let output = image::format_list(&[image_row(true, false), image_row(false, true), bare]);
    assert!(output.contains("alpine-3.24.1\t3.24.1\tyes\t2\tavailable"));
    assert!(output.contains("alpine-3.24.1\t3.24.1\tno\t2\tstaged"));
    assert!(output.ends_with("alpine-3.24.1\t3.24.1\tno\t2\t-\n"));
}

#[test]
fn image_commands_ask_for_what_they_name() {
    let client = ApiClient::new("http://h".to_owned());
    let inspect = image::run(
        &client,
        image::Command::Inspect {
            reference: "nginx:1.27".to_owned(),
            json: true,
        },
    );
    assert_eq!(inspect.request.url, "http://h/api/oci/inspect");
    assert_eq!(inspect.query_reference.as_deref(), Some("nginx:1.27"));
    assert!(inspect.json);
    let import = image::run(
        &client,
        image::Command::Import {
            reference: "nginx:1.27".to_owned(),
            json: false,
        },
    );
    assert_eq!(import.request.method, "POST");
    assert_eq!(import.body_reference.as_deref(), Some("nginx:1.27"));
    let status = image::run(
        &client,
        image::Command::ImportStatus {
            alias: "nginx-1.27".to_owned(),
            json: false,
        },
    );
    assert_eq!(status.request.url, "http://h/api/oci/import/nginx-1.27");
}

#[test]
fn inspect_human_includes_resolved_manifest_and_alias() {
    let output = format_inspect(&OciInspectResponse {
        registry: "docker.io".to_owned(),
        repository: "library/nginx".to_owned(),
        version: "1.27".to_owned(),
        immutable: false,
        digest: "sha256:abc".to_owned(),
        architecture: "amd64".to_owned(),
        single_platform: false,
        alias: "nginx-1.27".to_owned(),
    });
    assert!(output.contains("OCI IMAGE nginx-1.27"));
    assert!(output.contains("repository:      library/nginx"));
    assert!(output.contains("digest:          sha256:abc"));
    assert!(output.contains("architecture:    amd64"));
    assert!(output.ends_with("  immutable:       no\n  single platform: no\n"));
}

fn import_snapshot(status: ImageInstallStatus) -> ImageInstallResponse {
    ImageInstallResponse {
        alias: "nginx-1.27".to_owned(),
        status,
        log: "import started".to_owned(),
    }
}

#[test]
fn running_import_names_the_poll_command() {
    let output = format_import_snapshot(&import_snapshot(ImageInstallStatus::Running));
    assert!(output.contains("OCI import nginx-1.27: running"));
    assert!(output.contains("firecrab image import-status nginx-1.27"));
    let mut quiet = import_snapshot(ImageInstallStatus::Succeeded);
    quiet.log = " \n".to_owned();
    assert_eq!(
        format_import_snapshot(&quiet),
        "OCI import nginx-1.27: succeeded\n"
    );
}

#[test]
fn failed_import_uses_the_last_non_empty_log_line() {
    let error = ensure_import_succeeded_or_active(&ImageInstallResponse {
        log: "pulling layers\n\nregistry rejected blob\n".to_owned(),
        ..import_snapshot(ImageInstallStatus::Failed)
    })
    .unwrap_err();
    assert_eq!(
        error.message(),
        "OCI import nginx-1.27 failed: registry rejected blob"
    );
    let error = ensure_import_succeeded_or_active(&ImageInstallResponse {
        log: String::new(),
        ..import_snapshot(ImageInstallStatus::Failed)
    })
    .unwrap_err();
    assert!(error.message().ends_with("no failure detail returned"));
    assert!(
        ensure_import_succeeded_or_active(&import_snapshot(ImageInstallStatus::Idle)).is_ok()
    );
    let wrapped = Error::from(ApiError::Unreachable("x".to_owned()));
    assert_eq!(wrapped.message(), "unreachable: x");
}

fn lab() -> MicroNetwork {
    MicroNetwork {
        id: 0x11111111_1111_4111_8111_111111111111,
        name: "lab".to_owned(),
        subnet_cidr: "172.31.0.0/24".to_owned(),
        gateway: "172.31.0.1".to_owned(),
        internet_enabled: true,
        uplink: None,
        ipv6_cidr: None,
        ipv6_gateway: None,
        ipv6_address_mode: None,
        ipv6_egress: None,
    }
}

#[test]
fn network_empty_list_still_has_a_header() {
    assert_eq!(
        network::format_list(&[]),
        "ID\tNAME\tSUBNET\tGATEWAY\tINTERNET\tUPLINK\n"
    );
}

#[test]
fn list_formats_network_fields() {
    let output = network::format_list(&[lab()]);
    assert!(output.contains("11111111-1111-4111-8111-111111111111\tlab"));
    assert!(output.contains("172.31.0.0/24\t172.31.0.1\tyes\tauto"));
}

#[test]
fn create_summary_names_the_network() {
    assert_eq!(
        network::format_one("created", &lab()),
        "created network 11111111-1111-4111-8111-111111111111 (lab, 172.31.0.0/24, gateway 172.31.0.1)"
    );
}

#[test]
fn network_commands_ask_for_what_they_name() {
    let client = ApiClient::new("http://h".to_owned());
    let create = network::run(
        &client,
        network::Command::Create {
            name: "lab".to_owned(),
            subnet_cidr: "172.31.0.0/24".to_owned(),
            json: false,
        },
    );
    let body = create.body.unwrap();
    assert!(body.internet_enabled && body.uplink.is_none() && body.ipv6_cidr.is_none());
    let delete = network::run(
        &client,
        network::Command::Delete {
            id: lab().id,
            json: true,
        },
    );
    assert_eq!(
        delete.request.url,
        "http://h/api/micro-networks/11111111-1111-4111-8111-111111111111"
    );
}

fn unreachable() -> Result<HostStatus, ApiError> {
    Err(ApiError::Unreachable("connection refused".to_owned()))
}

#[test]
fn collect_reads_systemd_state_via_runner() {
    let mut fake = FakeCommandRunner::new();
    fake.set(
        "systemctl",
        &["is-active", "firecrab-api.service"],
        0,
        "active\n",
        "",
    );
    fake.set(
        "systemctl",
        &["is-active", "firecrab-net-helper.service"],
        3,
        "inactive\n",
        "",
    );
    let report = collect(&mut fake, unreachable());
    assert_eq!(report.api_service, "active");
    assert_eq!(report.net_helper_service, "inactive");
    assert!(report.host.is_none());
    assert!(report.host_error.is_some());
}

#[test]
fn collect_reports_unknown_when_systemctl_missing() {
    let report = collect(&mut FakeCommandRunner::new(), unreachable());
    assert_eq!(report.api_service, "unknown");
}

#[test]
fn format_human_none_host_shows_host_error() {
    let report = StatusReport {
        api_service: "active".to_owned(),
        net_helper_service: "inactive".to_owned(),
        host: None,
        host_error: Some("unreachable: connection refused".to_owned()),
    };
    let text = format_human(&report);
    assert!(text.contains("firecrab-api.service:        active"));
    assert!(text.contains("firecrab-net-helper.service: inactive"));
    assert!(text.contains("host: unreachable: connection refused"));
}

#[test]
fn format_human_none_host_falls_back_to_unreachable_when_no_error_text() {
    let report = StatusReport {
        api_service: "unknown".to_owned(),
        net_helper_service: "unknown".to_owned(),
        host: None,
        host_error: None,
    };
    let text = format_human(&report);
    assert!(text.contains("host: unreachable"));
}

#[test]
fn format_human_some_host_prints_host_metrics() {
    let report = StatusReport {
        api_service: "active".to_owned(),
        net_helper_service: "active".to_owned(),
        host: Some(HostStatus {
            load_average_1m: format!("{:.2}", 0.42),
            memory_available_mib: 512,
            memory_total_mib: 2048,
            disk_available_gib: 10,
            disk_total_gib: 40,
            uptime_seconds: 3600,
        }),
        host_error: None,
    };
    let text = format_human(&report);
    assert!(text.contains("host:"));
    assert!(text.contains("load average (1m): 0.42"));
    assert!(text.contains("memory: 512 / 2048 MiB available"));
    assert!(text.contains("disk:   10 / 40 GiB available"));
    assert!(text.contains("uptime: 3600s"));
}

#[test]
fn defaults_are_loopback_only() {
    let config = HttpConfig::from_values(
        "127.0.0.1:3000",
        Some(true),
        "http://localhost:8080",
        false,
        false,
    )
    .unwrap();
    assert_eq!(config.bind_addr, "127.0.0.1:3000");
    assert_eq!(config.allowed_origins, vec!["http://localhost:8080"]);
    assert_eq!(config.max_concurrent_requests, 128);
    assert_eq!(config.request_timeout_secs, 10);
}

#[test]
fn rejects_insecure_non_loopback_bind() {
    let result = HttpConfig::from_values("0.0.0.0:3000", Some(false), "", false, false);
    assert!(matches!(result, Err(ConfigError::InsecureNonLoopbackBind)));
    let result = HttpConfig::from_values("0.0.0.0:3000", Some(false), "", true, false);
    assert!(matches!(result, Err(ConfigError::InsecureNonLoopbackBind)));
    assert!(HttpConfig::from_values("0.0.0.0:3000", Some(false), "", true, true).is_ok());
    let result = HttpConfig::from_values("nonsense", None, "", true, true);
    assert_eq!(
        result.unwrap_err().message(),
        "invalid FIRECRAB_BIND_ADDR: nonsense"
    );
}

#[test]
fn origins_are_trimmed_and_checked() {
    let config =
        HttpConfig::from_values("a", Some(true), " http://a , ,http://b/é,", false, false).unwrap();
    assert_eq!(config.allowed_origins, vec!["http://a", "http://b/é"]);
    let result = HttpConfig::from_values("a", Some(true), "http://a,b\u{7f}ad", false, false);
    assert_eq!(
        result.unwrap_err().message(),
        "invalid FIRECRAB_ALLOWED_ORIGINS value: b\u{7f}ad"
    );
}

#[test]
fn bind_addr_defaults_when_unset() {
    assert_eq!(bind_addr_or_default(None), "127.0.0.1:5523");
}

#[test]
fn bind_addr_honors_override() {
    assert_eq!(
        bind_addr_or_default(Some("0.0.0.0:9999".to_owned())),
        "0.0.0.0:9999"
    );
}

#[test]
fn the_environment_configures_the_server() {
    let vars = |pairs: &[(&str, &str)]| -> Vec<(String, String)> {
        pairs
            .iter()
            .map(|(k, v)| ((*k).to_owned(), (*v).to_owned()))
            .collect()
    };
    let loopback = |bind: &str| Some(bind.starts_with("127."));
    let config = HttpConfig::load(&[], &loopback, &|_: &str| false).unwrap();
    assert_eq!(config.bind_addr, "127.0.0.1:5523");
    assert_eq!(config.allowed_origins, vec!["http://localhost:8080"]);
    assert_eq!(config.static_root, None);
    let config = HttpConfig::load(
        &vars(&[("FIRECRAB_ENV", "production"), ("FIRECRAB_STATIC_ROOT", "/d")]),
        &loopback,
        &|path: &str| path == "/d/index.html",
    )
    .unwrap();
    assert!(config.allowed_origins.is_empty());
    assert_eq!(config.static_root.as_deref(), Some("/d"));
    assert!(HttpConfig::load(
        &vars(&[
            ("FIRECRAB_BIND_ADDR", "0.0.0.0:1"),
            ("FIRECRAB_TLS_ENABLED", "yes"),
            ("FIRECRAB_AUTHENTICATION_ENABLED", "1"),
        ]),
        &loopback,
        &|_: &str| false,
    )
    .is_ok());
    assert!(env_flag(&Some("true".to_owned())) && !env_flag(&Some("on".to_owned())));
}

#[test]
fn a_static_root_without_an_index_is_treated_as_absent() {
    let none = |_: &str| false;
    assert_eq!(resolve_static_root(None, &none), None);
    assert_eq!(resolve_static_root(Some("/dist".to_owned()), &none), None);
    let built = |path: &str| path == "/dist/index.html";
    assert_eq!(
        resolve_static_root(Some("/dist".to_owned()), &built),
        Some("/dist".to_owned())
    );
}

#[test]
fn a_mutation_from_the_dashboards_own_origin_is_not_forbidden() {
    let config = HttpConfig::from_values("127.0.0.1:3000", Some(true), "", false, false).unwrap();
    let allowed = |origin: &str| {
        enforce_origin(
            &config.allowed_origins,
            &OriginHeader::Text(origin.to_owned()),
            Some("localhost:3000"),
        )
    };
    assert!(allowed("http://localhost:3000"));
    assert!(allowed("https://localhost:3000"));
    for refused in [
        "http://evil.example",
        "chrome-extension://localhost:3000",
        "null",
        "http://localhost:8081",
    ] {
        assert!(
            !allowed(refused),
            "{refused} must not pass as the dashboard's own origin"
        );
    }
    assert!(enforce_origin(&[], &OriginHeader::Absent, None));
    assert!(!enforce_origin(&[], &OriginHeader::Opaque, Some("a")));
    let listed = vec!["http://other".to_owned()];
    let other = OriginHeader::Text("http://other".to_owned());
    assert!(enforce_origin(&listed, &other, Some("localhost:3000")));
    assert!(!is_same_origin("http://a", None));
}

#[test]
fn without_a_static_root_every_unknown_path_is_a_json_404() {
    let config = HttpConfig::from_values("127.0.0.1:3000", Some(true), "", false, false).unwrap();
    let app = build_router(&config);
    assert_eq!(app.dashboard, None);
    for path in ["/", "/api/nope", "/dashboard"] {
        assert!(!app.routes.iter().any(|route| route.path == path));
        assert_eq!(app.unmatched(path), Unmatched::JsonNotFound);
    }
}

#[test]
fn with_a_static_root_the_dashboard_is_served_but_api_paths_still_answer_json() {
    let mut config =
        HttpConfig::from_values("127.0.0.1:3000", Some(true), "", false, false).unwrap();
    config.static_root = Some("/assets/dist".to_owned());
    let app = build_router(&config);
    assert_eq!(
        app.dashboard,
        Some(("/assets/dist".to_owned(), "/assets/dist/index.html".to_owned()))
    );
    for path in ["/", "/app.js", "/vms/42"] {
        assert!(!app.routes.iter().any(|route| route.path == path));
        assert_eq!(app.unmatched(path), Unmatched::Dashboard);
    }
    for path in ["/api/nope", "/ws/nope"] {
        assert!(!app.routes.iter().any(|route| route.path == path));
        assert_eq!(app.unmatched(path), Unmatched::JsonNotFound);
        assert_eq!(answer_unmatched(path, true), Unmatched::JsonNotFound);
    }
}

#[test]
fn the_router_serves_each_route_once() {
    let mut config =
        HttpConfig::from_values("127.0.0.1:3000", Some(true), "http://a", false, false).unwrap();
    config.static_root = Some("/dist".to_owned());
    let plan = build_router(&config);
    assert_eq!(plan.routes.len(), ROUTES.len());
    let distinct: HashSet<(&str, &str)> = plan.routes.iter().map(|r| (r.method, r.path)).collect();
    assert_eq!(distinct.len(), plan.routes.len());
    for route in &plan.routes {
        assert_eq!(route.limited, route.path != "/ws/vms/{id}/console");
    }
    assert!(plan
        .routes
        .iter()
        .any(|r| (r.method, r.path, r.handler) == ("PATCH", "/api/micro-networks/{id}", "micro_networks::update_micro_network")));
    assert_eq!(plan.cors_origins, Some(vec!["http://a".to_owned()]));
    assert_eq!(plan.max_body, 64 * 1024);
    assert_eq!(
        plan.dashboard,
        Some(("/dist".to_owned(), "/dist/index.html".to_owned()))
    );
}

/// A host whose commands print no text.
struct Garbled;
impl CommandRunner for Garbled {
    fn run(&mut self, _: &str, _: &[&str]) -> Result<Output, SpawnError> {
        Ok(Output {
            status: ExitStatus {
                success: true,
                text: "exit status: 0".to_owned(),
            },
            stdout: vec![0xff, b'a'],
            stderr: Vec::new(),
        })
    }

    fn run_with_stdin(&mut self, _: &str, _: &[&str], _: &[u8]) -> Result<Output, SpawnError> {
        self.run("", &[])
    }
}

#[test]
fn an_answer_of_systemd_that_is_no_text_is_unknown() {
    let mut fake = FakeCommandRunner::new();
    fake.set("systemctl", &["is-active", "a.service"], 3, " inactive\n", "");
    assert_eq!(systemd_is_active(&mut fake, "a.service"), "inactive");
    assert_eq!(systemd_is_active(&mut fake, "b.service"), "unknown");

    assert_eq!(systemd_is_active(&mut Garbled, "a.service"), "unknown");
}
