//! The state of the services and of the host.

use vstd::prelude::*;

use crate::api_client::ApiError;
use crate::shell::CommandRunner;
#[allow(unused_imports)]
use crate::shell::{host, Host, Reply};
use crate::text::{decimal_of, decode_strict, trimmed};
#[allow(unused_imports)]
use crate::text::{decimal, opt_view, texts, trim};
#[allow(unused_imports)]
use vstd::utf8::{decode_utf8, valid_utf8};

verus! {

impl Host {
    /// What systemd says of a unit: `active`, `inactive`, `failed`, or `unknown`
    /// where it cannot be asked or its answer is no text.
    pub open spec fn is_active(self, unit: Seq<char>) -> (Host, Seq<char>) {
        let (after, reply) = self.run("systemctl"@, seq!["is-active"@, unit]);
        (
            after,
            match reply {
                Reply::Done { stdout, .. } if valid_utf8(stdout) => trim(decode_utf8(stdout)),
                _ => "unknown"@,
            },
        )
    }
}

/// What systemd says of a unit, or `unknown` where it cannot be asked or its answer is no
/// text.
pub fn systemd_is_active<R: CommandRunner>(runner: &mut R, unit: &str) -> (r: String)
    ensures
        (host(*final(runner)), r@) == host(*old(runner)).is_active(unit@),
{
    let args = ["is-active", unit];
    assert(texts(args@) =~= seq!["is-active"@, unit@]);
    match runner.run("systemctl", &args) {
        Ok(out) => match decode_strict(&out.stdout) {
            Some(text) => trimmed(&text),
            None => "unknown".to_owned(),
        },
        Err(_) => "unknown".to_owned(),
    }
}

/// The host as the API sees it.
#[derive(Debug)]
pub struct HostStatus {
    /// The load over the last minute, with two decimals.
    pub load_average_1m: String,
    pub memory_available_mib: u64,
    pub memory_total_mib: u64,
    pub disk_available_gib: u64,
    pub disk_total_gib: u64,
    pub uptime_seconds: u64,
}

/// The state of the services and of the host.
#[derive(Debug)]
pub struct StatusReport {
    /// What systemd says of the API.
    pub api_service: String,
    /// What systemd says of the network helper.
    pub net_helper_service: String,
    /// The host, where the API answered.
    pub host: Option<HostStatus>,
    /// Why the host is not known.
    pub host_error: Option<String>,
}

/// The state of the services and of the host; `answer` is what the API says of the host. An
/// API that does not answer takes nothing from what systemd says.
pub fn collect<R: CommandRunner>(runner: &mut R, answer: Result<HostStatus, ApiError>) -> (r:
    StatusReport)
    ensures
        ({
            let (first, api) = host(*old(runner)).is_active("firecrab-api.service"@);
            let (second, helper) = first.is_active("firecrab-net-helper.service"@);
            &&& host(*final(runner)) == second
            &&& r.api_service@ == api
            &&& r.net_helper_service@ == helper
        }),
        match answer {
            Ok(status) => r.host == Some(status) && r.host_error is None,
            Err(e) => r.host is None && opt_view(r.host_error) == Some(e@.message()),
        },
{
    let api_service = systemd_is_active(runner, "firecrab-api.service");
    let net_helper_service = systemd_is_active(runner, "firecrab-net-helper.service");
    match answer {
        Ok(status) => StatusReport {
            api_service,
            net_helper_service,
            host: Some(status),
            host_error: None,
        },
        Err(e) => StatusReport {
            api_service,
            net_helper_service,
            host: None,
            host_error: Some(e.message()),
        },
    }
}

/// What is shown of the host.
pub open spec fn host_text(host: Option<HostStatus>, host_error: Option<String>) -> Seq<char> {
    match host {
        Some(h) => "host:\n  load average (1m): "@ + h.load_average_1m@ + "\n  memory: "@ + decimal(
            h.memory_available_mib as nat,
        ) + " / "@ + decimal(h.memory_total_mib as nat) + " MiB available\n  disk:   "@ + decimal(
            h.disk_available_gib as nat,
        ) + " / "@ + decimal(h.disk_total_gib as nat) + " GiB available\n  uptime: "@ + decimal(
            h.uptime_seconds as nat,
        ) + "s\n"@,
        None => "host: "@ + (match host_error {
            Some(why) => why@,
            None => "unreachable"@,
        }) + "\n"@,
    }
}

/// The report for a reader.
pub fn format_human(report: &StatusReport) -> (r: String)
    ensures
        r@ == "firecrab-api.service:        "@ + report.api_service@
            + "\nfirecrab-net-helper.service: "@ + report.net_helper_service@ + "\n"@ + host_text(
            report.host,
            report.host_error,
        ),
{
    let head = "firecrab-api.service:        ".to_owned().concat(&report.api_service).concat(
        "\nfirecrab-net-helper.service: ",
    ).concat(&report.net_helper_service).concat("\n");
    let tail = match &report.host {
        Some(h) => "host:\n  load average (1m): ".to_owned().concat(&h.load_average_1m).concat(
            "\n  memory: ",
        ).concat(&decimal_of(h.memory_available_mib)).concat(" / ").concat(
            &decimal_of(h.memory_total_mib),
        ).concat(" MiB available\n  disk:   ").concat(&decimal_of(h.disk_available_gib)).concat(
            " / ",
        ).concat(&decimal_of(h.disk_total_gib)).concat(" GiB available\n  uptime: ").concat(
            &decimal_of(h.uptime_seconds),
        ).concat("s\n"),
        None => {
            let why = match &report.host_error {
                Some(why) => why.clone(),
                None => "unreachable".to_owned(),
            };
            "host: ".to_owned().concat(&why).concat("\n")
        },
    };
    head.concat(&tail)
}

} // verus!
