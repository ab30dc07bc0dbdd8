//! The HTTP side of the API: its configuration, its routes, and who may call it.

use vstd::prelude::*;

#[allow(unused_imports)]
use crate::files::{agrees, answers};
use crate::path::joined;
#[allow(unused_imports)]
use crate::path::join;
use crate::service::env::found;
#[allow(unused_imports)]
use crate::service::env::lookup;
use crate::text::{has_prefix, is_among, same, split_on, trimmed};
#[allow(unused_imports)]
use crate::text::{opt_text, opt_view, split, starts_with, trim, views};

verus! {

/// The most bytes of a request.
pub const MAX_REQUEST_BODY: usize = 65536;

/// The header that carries a request's id.
pub const X_REQUEST_ID: &'static str = "x-request-id";

/// The number of requests that are served at once.
pub const MAX_CONCURRENT_REQUESTS: usize = 128;

/// The seconds that a request may take.
pub const REQUEST_TIMEOUT_SECS: u64 = 10;

/// The methods that pages of other origins may use.
pub const CORS_METHODS: [&'static str; 5] = ["GET", "POST", "PUT", "PATCH", "DELETE"];

/// The headers that pages of other origins may send.
pub const CORS_HEADERS: [&'static str; 2] = ["content-type", "idempotency-key"];

/// The routes: a method, a path, and what serves them.
pub const ROUTES: [(&'static str, &'static str, &'static str); 62] = [
    ("GET", "/api/vms", "vms::list_vms"),
    ("POST", "/api/vms", "vms::create_vm_route"),
    ("GET", "/api/vms/{id}", "vms::get_vm"),
    ("PUT", "/api/vms/{id}", "vms::update_vm"),
    ("DELETE", "/api/vms/{id}", "vms::delete_vm"),
    ("POST", "/api/vms/{id}/start", "vms::start_vm_request"),
    ("POST", "/api/vms/{id}/stop", "vms::stop_vm"),
    ("GET", "/api/vms/{id}/log", "vms::get_vm_log"),
    ("GET", "/api/vms/{id}/ssh-key", "vms::download_ssh_key"),
    ("GET", "/api/vms/{id}/ssh-host-key", "vms::get_ssh_host_key"),
    ("GET", "/api/vms/{id}/ssh-host-key/check", "vms::check_ssh_host_key"),
    ("GET", "/api/network", "network::get_network_info"),
    ("GET", "/api/host", "network::get_host_status"),
    ("GET", "/api/update", "update::get_update_check"),
    ("POST", "/api/update", "update::start_update"),
    ("GET", "/api/microregistry", "microregistry::list_microregistry"),
    ("POST", "/api/microregistry/register", "microregistry::start_microregistry_register"),
    ("GET", "/api/microregistry/register/{alias}", "microregistry::get_microregistry_register"),
    ("GET", "/api/microregistry/docker-hub", "microregistry::get_docker_hub_credential"),
    ("PUT", "/api/microregistry/docker-hub", "microregistry::put_docker_hub_credential"),
    ("DELETE", "/api/microregistry/docker-hub", "microregistry::delete_docker_hub_credential"),
    ("GET", "/api/oci/inspect", "oci::inspect_oci_image"),
    ("POST", "/api/oci/import", "oci::start_oci_import"),
    ("GET", "/api/oci/import/{alias}", "oci::get_oci_import"),
    ("GET", "/api/images", "images::list_images"),
    ("GET", "/api/images/{alias}", "images::list_image_detail"),
    ("DELETE", "/api/images/{alias}", "images::delete_image"),
    ("PUT", "/api/images/{alias}/kernel", "images::update_image_kernel"),
    ("GET", "/api/kernels", "kernels::list_kernels"),
    ("DELETE", "/api/kernels/{version}", "kernels::delete_kernel"),
    ("GET", "/api/kernels/{version}/install", "kernels::get_kernel_install"),
    ("POST", "/api/kernels/{version}/install", "kernels::start_kernel_install"),
    ("GET", "/api/images/{alias}/install", "images::get_image_install"),
    ("POST", "/api/images/{alias}/install", "images::start_image_install"),
    ("GET", "/api/images/{alias}/package", "images::get_image_package"),
    ("POST", "/api/images/{alias}/package", "images::start_image_package"),
    ("DELETE", "/api/images/{alias}/package", "images::delete_staged_package"),
    ("POST", "/api/images/{alias}/bootstrap", "bootstrap::start_bootstrap"),
    ("GET", "/api/images/bootstrap", "bootstrap::get_active_bootstrap"),
    ("GET", "/api/images/bootstrap/{bootstrapId}", "bootstrap::get_bootstrap"),
    ("DELETE", "/api/images/bootstrap/{bootstrapId}", "bootstrap::cancel_bootstrap"),
    ("GET", "/api/storage", "storage::list_storage"),
    ("GET", "/api/storage/devices", "storage::list_storage_devices"),
    ("GET", "/api/micro-storages", "micro_storages::list_micro_storages"),
    ("POST", "/api/micro-storages", "micro_storages::create_micro_storage"),
    ("GET", "/api/micro-storages/{id}", "micro_storages::get_micro_storage"),
    ("DELETE", "/api/micro-storages/{id}", "micro_storages::delete_micro_storage"),
    ("PUT", "/api/vms/{id}/storage", "vms::assign_vm_storage"),
    ("GET", "/api/micro-networks", "micro_networks::list_micro_networks"),
    ("POST", "/api/micro-networks", "micro_networks::create_micro_network"),
    ("GET", "/api/micro-networks/{id}", "micro_networks::get_micro_network"),
    ("PATCH", "/api/micro-networks/{id}", "micro_networks::update_micro_network"),
    ("DELETE", "/api/micro-networks/{id}", "micro_networks::delete_micro_network"),
    ("GET", "/api/shells", "shells::list_shells"),
    ("POST", "/api/shells", "shells::create_shell"),
    ("GET", "/api/shells/{id}", "shells::get_shell"),
    ("DELETE", "/api/shells/{id}", "shells::delete_shell"),
    ("POST", "/api/shells/{id}/revisions", "shells::create_shell_revision"),
    ("GET", "/api/shells/{id}/revisions/{revision_id}", "shells::get_shell_revision"),
    ("PUT", "/api/vms/{id}/shells", "vms::update_vm_shells"),
    ("PUT", "/api/vms/{id}/port-forwards", "vms::update_vm_port_forwards"),
    ("GET", "/ws/vms/{id}/console", "console::console_ws"),
];

/// What can be wrong with the configuration.
#[derive(Debug)]
pub enum ConfigError {
    /// The address is no address.
    InvalidBindAddress(String),
    /// The address can be reached from other hosts, and calls are not authenticated or not
    /// encrypted.
    InsecureNonLoopbackBind,
    /// An origin is no origin.
    InvalidOrigin(String),
}

/// [`ConfigError`] as contracts speak of it.
pub enum Misconfigured {
    InvalidBindAddress(Seq<char>),
    InsecureNonLoopbackBind,
    InvalidOrigin(Seq<char>),
}

impl View for ConfigError {
    type V = Misconfigured;

    open spec fn view(&self) -> Misconfigured {
        match self {
            ConfigError::InvalidBindAddress(text) => Misconfigured::InvalidBindAddress(text@),
            ConfigError::InsecureNonLoopbackBind => Misconfigured::InsecureNonLoopbackBind,
            ConfigError::InvalidOrigin(text) => Misconfigured::InvalidOrigin(text@),
        }
    }
}

impl ConfigError {
    /// The error in one line.
    pub fn message(&self) -> (r: String)
        ensures
            r@ == match self@ {
                Misconfigured::InvalidBindAddress(text) => "invalid FIRECRAB_BIND_ADDR: "@ + text,
                Misconfigured::InsecureNonLoopbackBind => {
                    "non-loopback bind requires both authentication and TLS"@
                },
                Misconfigured::InvalidOrigin(text) => {
                    "invalid FIRECRAB_ALLOWED_ORIGINS value: "@ + text
                },
            },
    {
        match self {
            ConfigError::InvalidBindAddress(text) => {
                "invalid FIRECRAB_BIND_ADDR: ".to_owned().concat(text)
            },
            ConfigError::InsecureNonLoopbackBind => {
                "non-loopback bind requires both authentication and TLS".to_owned()
            },
            ConfigError::InvalidOrigin(text) => {
                "invalid FIRECRAB_ALLOWED_ORIGINS value: ".to_owned().concat(text)
            },
        }
    }
}

/// The configuration.
#[derive(Debug)]
pub struct HttpConfig {
    /// The address to listen on.
    pub bind_addr: String,
    /// The origins whose pages may call the API.
    pub allowed_origins: Vec<String>,
    pub max_concurrent_requests: usize,
    pub request_timeout_secs: u64,
    /// The directory of the dashboard, where it is served.
    pub static_root: Option<String>,
}

/// [`HttpConfig`] as contracts speak of it.
pub struct Config {
    pub bind_addr: Seq<char>,
    pub allowed_origins: Seq<Seq<char>>,
    pub max_concurrent_requests: usize,
    pub request_timeout_secs: u64,
    pub static_root: Option<Seq<char>>,
}

impl View for HttpConfig {
    type V = Config;

    open spec fn view(&self) -> Config {
        Config {
            bind_addr: self.bind_addr@,
            allowed_origins: views(self.allowed_origins@),
            max_concurrent_requests: self.max_concurrent_requests,
            request_timeout_secs: self.request_timeout_secs,
            static_root: opt_view(self.static_root),
        }
    }
}

/// Whether a text may be the value of a header: it has no control character but a tab.
pub open spec fn header_value(text: Seq<char>) -> bool {
    forall|i: int|
        0 <= i < text.len() ==> (' ' <= #[trigger] text[i] && text[i] != '\u{7f}') || text[i] == '\t'
}

/// Calls `axum::http::HeaderValue::from_str`: it takes a text whose bytes are each at least
/// 32 and not 127, or 9. The bytes of characters beyond ASCII are at least 128.
#[verifier::external_body]
fn is_header_value(text: &str) -> (r: bool)
    ensures
        r == header_value(text@),
{
    axum::http::HeaderValue::from_str(text).is_ok()
}

/// The origins of a list: what stands between commas, without what is blank.
pub open spec fn listed(parts: Seq<Seq<char>>) -> Seq<Seq<char>>
    decreases parts.len(),
{
    if parts.len() == 0 {
        Seq::empty()
    } else {
        let rest = listed(parts.drop_last());
        if trim(parts.last()).len() == 0 {
            rest
        } else {
            rest.push(trim(parts.last()))
        }
    }
}

/// The origins of a list, or the first that is none.
pub open spec fn origins_in(text: Seq<char>) -> Result<Seq<Seq<char>>, Misconfigured> {
    let all = listed(split(text, ','));
    match first_bad(all) {
        Some(bad) => Err(Misconfigured::InvalidOrigin(bad)),
        None => Ok(all),
    }
}

/// The first text that may not be the value of a header.
pub open spec fn first_bad(all: Seq<Seq<char>>) -> Option<Seq<char>>
    decreases all.len(),
{
    if all.len() == 0 {
        None
    } else {
        match first_bad(all.drop_last()) {
            Some(bad) => Some(bad),
            None => if header_value(all.last()) {
                None
            } else {
                Some(all.last())
            },
        }
    }
}

proof fn a_bad_origin_stays(parts: Seq<Seq<char>>, n: int)
    requires
        0 <= n <= parts.len(),
        first_bad(listed(parts.take(n))) is Some,
    ensures
        first_bad(listed(parts)) == first_bad(listed(parts.take(n))),
    decreases parts.len() - n,
{
    if n == parts.len() {
        assert(parts.take(n) =~= parts);
    } else {
        assert(parts.take(n + 1).drop_last() =~= parts.take(n));
        let rest = listed(parts.take(n));
        let next = listed(parts.take(n + 1));
        if next != rest {
            assert(next.drop_last() =~= rest);
        }
        a_bad_origin_stays(parts, n + 1);
    }
}

fn parse_origins(text: &str) -> (r: Result<Vec<String>, ConfigError>)
    ensures
        (match r {
            Ok(all) => Ok::<Seq<Seq<char>>, Misconfigured>(views(all@)),
            Err(e) => Err(e@),
        }) == origins_in(text@),
{
    let parts = split_on(text, ',');
    let ghost all = views(parts@);
    let mut out: Vec<String> = Vec::new();
    let mut i: usize = 0;
    assert(views(out@) =~= listed(all.take(0)));
    while i < parts.len()
        invariant
            i <= parts@.len(),
            all == views(parts@),
            all == split(text@, ','),
            views(out@) == listed(all.take(i as int)),
            first_bad(listed(all.take(i as int))) is None,
        decreases parts@.len() - i,
    {
        let ghost before = views(out@);
        assert(all.take(i + 1).drop_last() =~= all.take(i as int));
        assert(all.take(i + 1).last() == parts@[i as int]@);
        let origin = trimmed(&parts[i]);
        if !origin.as_str().is_empty() {
            assert(before.push(origin@).drop_last() =~= before);
            if !is_header_value(&origin) {
                proof {
                    a_bad_origin_stays(all, i + 1);
                }
                return Err(ConfigError::InvalidOrigin(origin));
            }
            out.push(origin);
            assert(views(out@) =~= before.push(origin@));
        }
        i += 1;
    }
    assert(all.take(i as int) =~= all);
    Ok(out)
}

/// The configuration, or what is wrong with it. `loopback` says whether the address can be
/// reached from this host alone, and is missing where the address is none.
pub open spec fn configured(
    bind: Seq<char>,
    loopback: Option<bool>,
    origins: Seq<char>,
    authentication: bool,
    tls: bool,
) -> Result<Config, Misconfigured> {
    match loopback {
        None => Err(Misconfigured::InvalidBindAddress(bind)),
        Some(loopback) => if !(loopback || (authentication && tls)) {
            Err(Misconfigured::InsecureNonLoopbackBind)
        } else {
            match origins_in(origins) {
                Err(e) => Err(e),
                Ok(allowed_origins) => Ok(
                    Config {
                        bind_addr: bind,
                        allowed_origins,
                        max_concurrent_requests: MAX_CONCURRENT_REQUESTS,
                        request_timeout_secs: REQUEST_TIMEOUT_SECS,
                        static_root: None,
                    },
                ),
            }
        },
    }
}

/// The configuration out of the environment.
pub open spec fn loaded(
    vars: Seq<(String, String)>,
    loopback: spec_fn(Seq<char>) -> Option<bool>,
    files: spec_fn(Seq<char>) -> bool,
) -> Result<Config, Misconfigured> {
    let bind = match lookup(vars, "FIRECRAB_BIND_ADDR"@) {
        Some(bind) => bind,
        None => "127.0.0.1:5523"@,
    };
    let origins = match lookup(vars, "FIRECRAB_ALLOWED_ORIGINS"@) {
        Some(origins) => origins,
        None => if lookup(vars, "FIRECRAB_ENV"@) == Some("production"@) {
            Seq::empty()
        } else {
            "http://localhost:8080"@
        },
    };
    match configured(
        bind,
        loopback(bind),
        origins,
        is_on(lookup(vars, "FIRECRAB_AUTHENTICATION_ENABLED"@)),
        is_on(lookup(vars, "FIRECRAB_TLS_ENABLED"@)),
    ) {
        Err(e) => Err(e),
        Ok(config) => Ok(
            Config {
                static_root: dashboard_root(lookup(vars, "FIRECRAB_STATIC_ROOT"@), files),
                ..config
            },
        ),
    }
}

/// A configuration, or what is wrong with it.
pub open spec fn shown(r: Result<HttpConfig, ConfigError>) -> Result<Config, Misconfigured> {
    match r {
        Ok(config) => Ok(config@),
        Err(e) => Err(e@),
    }
}

impl HttpConfig {
    /// The configuration out of the environment. `loopback` says whether an address can be
    /// reached from this host alone.
    pub fn load<L: Fn(&str) -> Option<bool>, F: Fn(&str) -> bool>(
        vars: &[(String, String)],
        loopback: &L,
        is_file: &F,
    ) -> (r: Result<Self, ConfigError>)
        requires
            forall|p: &str| call_requires(*loopback, (p,)),
            answers(*is_file),
        ensures
            forall|reach: spec_fn(Seq<char>) -> Option<bool>, files: spec_fn(Seq<char>) -> bool|
                #[trigger] reaches(*loopback, reach) && #[trigger] agrees(*is_file, files)
                    ==> shown(r) == loaded(vars@, reach, files),
    {
        let bind = bind_addr_or_default(found(vars, "FIRECRAB_BIND_ADDR"));
        let authentication_enabled = env_flag(
            &found(vars, "FIRECRAB_AUTHENTICATION_ENABLED"),
        );
        let tls_enabled = env_flag(&found(vars, "FIRECRAB_TLS_ENABLED"));
        let production = match found(vars, "FIRECRAB_ENV") {
            Some(value) => same(&value, "production"),
            None => false,
        };
        let origins = match found(vars, "FIRECRAB_ALLOWED_ORIGINS") {
            Some(origins) => origins,
            None => if production {
                let none = String::new();
                assert(none@ =~= Seq::<char>::empty());
                none
            } else {
                "http://localhost:8080".to_owned()
            },
        };
        let reach = loopback(&bind);
        match Self::from_values(&bind, reach, &origins, authentication_enabled, tls_enabled) {
            Err(e) => Err(e),
            Ok(config) => {
                let static_root = resolve_static_root(
                    found(vars, "FIRECRAB_STATIC_ROOT"),
                    is_file,
                );
                Ok(HttpConfig { static_root, ..config })
            },
        }
    }

    /// The configuration out of its parts. `loopback` says whether the address can be reached
    /// from this host alone, and is missing where the address is none.
    pub fn from_values(
        bind: &str,
        loopback: Option<bool>,
        origins: &str,
        authentication_enabled: bool,
        tls_enabled: bool,
    ) -> (r: Result<Self, ConfigError>)
        ensures
            shown(r) == configured(
                bind@,
                loopback,
                origins@,
                authentication_enabled,
                tls_enabled,
            ),
    {
        let loopback = match loopback {
            None => return Err(ConfigError::InvalidBindAddress(bind.to_owned())),
            Some(loopback) => loopback,
        };
        if !(loopback || (authentication_enabled && tls_enabled)) {
            return Err(ConfigError::InsecureNonLoopbackBind);
        }
        match parse_origins(origins) {
            Err(e) => Err(e),
            Ok(allowed_origins) => Ok(
                HttpConfig {
                    bind_addr: bind.to_owned(),
                    allowed_origins,
                    max_concurrent_requests: MAX_CONCURRENT_REQUESTS,
                    request_timeout_secs: REQUEST_TIMEOUT_SECS,
                    static_root: None,
                },
            ),
        }
    }
}

/// Whether `loopback` answers as `reach` does, whenever it is asked.
pub open spec fn reaches<L: Fn(&str) -> Option<bool>>(
    loopback: L,
    reach: spec_fn(Seq<char>) -> Option<bool>,
) -> bool {
    forall|p: &str, r: Option<bool>| #[trigger] call_ensures(loopback, (p,), r) ==> r == reach(p@)
}

/// An API that other hosts can reach authenticates its callers and encrypts their calls.
pub proof fn an_open_api_is_secured(
    bind: Seq<char>,
    origins: Seq<char>,
    authentication: bool,
    tls: bool,
)
    requires
        configured(bind, Some(false), origins, authentication, tls) is Ok,
    ensures
        authentication && tls,
{
}

/// The directory of the dashboard: one without an `index.html` counts as none.
pub open spec fn dashboard_root(
    root: Option<Seq<char>>,
    files: spec_fn(Seq<char>) -> bool,
) -> Option<Seq<char>> {
    match root {
        Some(root) if files(join(root, "index.html"@)) => Some(root),
        _ => None,
    }
}

/// The directory of the dashboard: one without an `index.html` counts as none.
pub fn resolve_static_root<F: Fn(&str) -> bool>(configured: Option<String>, is_file: &F) -> (r: Option<
    String,
>)
    requires
        answers(*is_file),
    ensures
        forall|files: spec_fn(Seq<char>) -> bool| #[trigger]
            agrees(*is_file, files) ==> opt_view(r) == dashboard_root(opt_view(configured), files),
{
    match configured {
        None => None,
        Some(root) => if is_file(&joined(&root, "index.html")) {
            Some(root)
        } else {
            None
        },
    }
}

/// The address to listen on.
pub fn bind_addr_or_default(configured: Option<String>) -> (r: String)
    ensures
        r@ == match configured {
            Some(bind) => bind@,
            None => "127.0.0.1:5523"@,
        },
{
    match configured {
        Some(bind) => bind,
        None => "127.0.0.1:5523".to_owned(),
    }
}

/// Whether a variable switches something on.
pub open spec fn is_on(value: Option<Seq<char>>) -> bool {
    value == Some("1"@) || value == Some("true"@) || value == Some("yes"@)
}

/// Whether a variable switches something on.
pub fn env_flag(value: &Option<String>) -> (r: bool)
    ensures
        r == is_on(opt_view(*value)),
{
    match value {
        None => false,
        Some(value) => same(value, "1") || same(value, "true") || same(value, "yes"),
    }
}

/// The origin that a request names.
#[derive(Debug)]
pub enum OriginHeader {
    /// None.
    Absent,
    /// One that is no text.
    Opaque,
    /// This one.
    Text(String),
}

/// Whether an origin is a page of the very address that the request went to: a scheme of the
/// web, and that address.
pub open spec fn own_page(origin: Seq<char>, authority: Option<Seq<char>>) -> bool {
    authority is Some && (origin == "http://"@ + authority->0 || origin == "https://"@
        + authority->0)
}

/// Whether a page of an origin may make a request.
pub open spec fn welcome(
    allowed: Seq<Seq<char>>,
    origin: OriginHeader,
    authority: Option<Seq<char>>,
) -> bool {
    match origin {
        OriginHeader::Absent => true,
        OriginHeader::Opaque => false,
        OriginHeader::Text(text) => allowed.contains(text@) || own_page(text@, authority),
    }
}

/// Whether an origin is a page of the very address that the request went to. A page that the
/// API serves itself names that address, whatever the operator calls it.
pub fn is_same_origin(origin: &str, authority: Option<&str>) -> (r: bool)
    ensures
        r == own_page(origin@, opt_text(authority)),
{
    match authority {
        None => false,
        Some(authority) => same(origin, &"http://".to_owned().concat(authority)) || same(
            origin,
            &"https://".to_owned().concat(authority),
        ),
    }
}

/// Whether a page of an origin may make a request: one that names no origin, one of an
/// allowed origin, and one of the API's own pages.
pub fn enforce_origin(allowed: &[String], origin: &OriginHeader, authority: Option<&str>) -> (r: bool)
    ensures
        r == welcome(views(allowed@), *origin, opt_text(authority)),
{
    match origin {
        OriginHeader::Absent => true,
        OriginHeader::Opaque => false,
        OriginHeader::Text(text) => is_among(allowed, text) || is_same_origin(text, authority),
    }
}

/// A page of another site is refused: its origin is neither allowed nor the address that the
/// request went to, with a scheme of the web.
pub proof fn another_site_is_refused(
    allowed: Seq<Seq<char>>,
    origin: OriginHeader,
    authority: Seq<char>,
)
    requires
        origin is Text,
        !allowed.contains(origin->Text_0@),
        origin->Text_0@ != "http://"@ + authority,
        origin->Text_0@ != "https://"@ + authority,
    ensures
        !welcome(allowed, origin, Some(authority)),
{
}

/// What answers a request that no route takes.
#[derive(Debug, Clone, Copy, PartialEq, Eq, Structural)]
pub enum Unmatched {
    /// An error in JSON.
    JsonNotFound,
    /// The dashboard: the file of that path, or its `index.html`, since its own routes exist
    /// in the browser alone.
    Dashboard,
}

/// What answers a request that no route takes: below `/api/` and `/ws/` never the dashboard.
pub open spec fn unmatched(path: Seq<char>, dashboard: bool) -> Unmatched {
    if !dashboard || starts_with(path, "/api/"@) || starts_with(path, "/ws/"@) {
        Unmatched::JsonNotFound
    } else {
        Unmatched::Dashboard
    }
}

/// What answers a request that no route takes.
pub fn answer_unmatched(path: &str, dashboard: bool) -> (r: Unmatched)
    ensures
        r == unmatched(path@, dashboard),
{
    if !dashboard || has_prefix(path, "/api/") || has_prefix(path, "/ws/") {
        Unmatched::JsonNotFound
    } else {
        Unmatched::Dashboard
    }
}

/// A route.
#[derive(Debug, PartialEq, Eq)]
pub struct Route {
    pub method: &'static str,
    pub path: &'static str,
    /// What serves it.
    pub handler: &'static str,
    /// Whether it is held to the limits on bodies, time and number, and open to pages of
    /// allowed origins. The console is not: it stays open for long.
    pub limited: bool,
}

/// What the API serves, and under which limits.
#[derive(Debug)]
pub struct RouterPlan {
    pub routes: Vec<Route>,
    /// The origins whose pages may call the API, where there are any.
    pub cors_origins: Option<Vec<String>>,
    pub max_body: usize,
    pub max_concurrent_requests: usize,
    pub request_timeout_secs: u64,
    /// The directory of the dashboard and its entry, where it is served.
    pub dashboard: Option<(String, String)>,
}

impl RouterPlan {
    /// What answers a request that no route takes.
    pub fn unmatched(&self, path: &str) -> (r: Unmatched)
        ensures
            r == unmatched(path@, self.dashboard is Some),
    {
        answer_unmatched(path, self.dashboard.is_some())
    }
}

/// Whether a route is what the table says.
pub open spec fn tabled(route: Route, i: int) -> bool {
    &&& route.method@ == ROUTES[i].0@
    &&& route.path@ == ROUTES[i].1@
    &&& route.handler@ == ROUTES[i].2@
    &&& route.limited == starts_with(ROUTES[i].1@, "/api/"@)
}

/// What the API serves, and under which limits.
pub fn build_router(config: &HttpConfig) -> (r: RouterPlan)
    ensures
        r.routes@.len() == ROUTES@.len(),
        forall|i: int| 0 <= i < r.routes@.len() ==> tabled(#[trigger] r.routes@[i], i),
        (match r.cors_origins {
            Some(origins) => Some(views(origins@)),
            None => None,
        }) == if config@.allowed_origins.len() == 0 {
            None
        } else {
            Some(config@.allowed_origins)
        },
        r.max_body == MAX_REQUEST_BODY,
        r.max_concurrent_requests == config@.max_concurrent_requests,
        r.request_timeout_secs == config@.request_timeout_secs,
        (match r.dashboard {
            Some((root, index)) => Some((root@, index@)),
            None => None,
        }) == match config@.static_root {
            Some(root) => Some((root, join(root, "index.html"@))),
            None => None,
        },
{
    let mut routes: Vec<Route> = Vec::new();
    let mut i: usize = 0;
    while i < 62
        invariant
            i <= 62,
            routes@.len() == i,
            forall|j: int| 0 <= j < i ==> tabled(#[trigger] routes@[j], j),
        decreases 62 - i,
    {
        let (method, path, handler) = ROUTES[i];
        let limited = has_prefix(path, "/api/");
        routes.push(Route { method, path, handler, limited });
        i += 1;
    }
    assert(views(config.allowed_origins@).len() == config.allowed_origins@.len());
    let cors_origins = if config.allowed_origins.len() == 0 {
        None
    } else {
        let mut all: Vec<String> = Vec::new();
        let mut i: usize = 0;
        while i < config.allowed_origins.len()
            invariant
                i <= config.allowed_origins@.len(),
                all@.len() == i,
                forall|j: int| 0 <= j < i ==> (#[trigger] all@[j])@ == config.allowed_origins@[j]@,
            decreases config.allowed_origins@.len() - i,
        {
            all.push(config.allowed_origins[i].clone());
            i += 1;
        }
        assert(views(all@) =~= config@.allowed_origins);
        Some(all)
    };
    let dashboard = match &config.static_root {
        Some(root) => Some((root.clone(), joined(root, "index.html"))),
        None => None,
    };
    RouterPlan {
        routes,
        cors_origins,
        max_body: MAX_REQUEST_BODY,
        max_concurrent_requests: config.max_concurrent_requests,
        request_timeout_secs: config.request_timeout_secs,
        dashboard,
    }
}

} // verus!
