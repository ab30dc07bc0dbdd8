//! Running commands, looking for them, and installing what is missing.

use firecrab::service::deps::ensure_runtime_deps;
use firecrab::service::env::{ServiceEnv, UNITS};
use firecrab::service::output::{Level, Line};
use firecrab::service::pkg::{have, Packages, PkgManager};
use firecrab::service::privileged::Privileged;
use firecrab::service::probe::{Probe, Scripted, Step};
use firecrab::service::selinux::{label_binaries, selinux_active, unlabel_binaries};
use firecrab::service::uninstall::uninstall;
use firecrab::service::units::{
    confirm_active_with, disable, enable, is_active, render_unit, require_installed, stop, wait_for,
};
use firecrab::service::{output, Error};
use firecrab::shell::{CommandRunner, FakeCommandRunner, SpawnErrorKind};
use std::cell::Cell;

fn lossy(bytes: &[u8]) -> String {
    String::from_utf8_lossy(bytes).into_owned()
}

#[test]
fn fake_runner_returns_configured_output() {
    let mut fake = FakeCommandRunner::new();
    fake.set("nft", &["list", "tables"], 0, "table inet firecrab\n", "");
    let out = fake.run("nft", &["list", "tables"]).unwrap();
    assert!(out.status.success());
    assert_eq!(lossy(&out.stdout), "table inet firecrab\n");
}

#[test]
fn fake_runner_errors_on_unconfigured_command() {
    let mut fake = FakeCommandRunner::new();
    let err = fake.run("nft", &["list", "tables"]).unwrap_err();
    assert_eq!(err.kind(), SpawnErrorKind::NotFound);
}

#[test]
fn fake_runner_encodes_nonzero_exit_code() {
    let mut fake = FakeCommandRunner::new();
    fake.set("ufw", &["status"], 1, "", "Permission denied\n");
    let out = fake.run("ufw", &["status"]).unwrap();
    assert!(!out.status.success());
    assert_eq!(lossy(&out.stderr), "Permission denied\n");
    assert_eq!(out.status.text, "exit status: 1");
}

#[test]
fn fake_runner_records_calls_in_order_and_stdin() {
    let mut fake = FakeCommandRunner::permissive();
    fake.run("sudo", &["systemctl", "daemon-reload"]).unwrap();
    fake.run_with_stdin("sudo", &["tee", "/etc/x"], b"hello")
        .unwrap();
    assert_eq!(
        fake.calls(),
        vec!["sudo systemctl daemon-reload", "sudo tee /etc/x"]
    );
    assert_eq!(fake.stdin_of("sudo tee /etc/x"), Some(b"hello".to_vec()));
}

#[test]
fn permissive_fake_returns_success_for_unregistered_commands() {
    let mut fake = FakeCommandRunner::permissive();
    assert!(fake.run("anything", &[]).unwrap().status.success());
}

#[test]
fn strict_fake_still_errors_on_unregistered_commands() {
    let mut fake = FakeCommandRunner::new();
    assert_eq!(
        fake.run("anything", &[]).unwrap_err().kind(),
        SpawnErrorKind::NotFound
    );
}

#[test]
fn set_seq_advances_through_responses_then_repeats_the_last() {
    let mut fake = FakeCommandRunner::new();
    fake.set_seq(
        "sh",
        &["-c", "command -v nft"],
        &[(1, "", ""), (0, "/usr/sbin/nft\n", "")],
    );
    let first = fake.run("sh", &["-c", "command -v nft"]).unwrap();
    assert!(!first.status.success());
    let second = fake.run("sh", &["-c", "command -v nft"]).unwrap();
    assert!(second.status.success());
    let third = fake.run("sh", &["-c", "command -v nft"]).unwrap();
    assert!(
        third.status.success(),
        "repeats the last entry once exhausted"
    );
}

#[test]
fn sudo_prefix_only_when_not_root() {
    let mut with = Privileged::with_sudo(FakeCommandRunner::permissive(), true);
    with.run("systemctl", &["daemon-reload"]).unwrap();
    let mut without = Privileged::with_sudo(FakeCommandRunner::permissive(), false);
    without.run("systemctl", &["daemon-reload"]).unwrap();
    assert_eq!(with.runner().calls(), vec!["sudo systemctl daemon-reload"]);
    assert_eq!(without.runner().calls(), vec!["systemctl daemon-reload"]);
    assert!(!Privileged::detect(FakeCommandRunner::new(), 0).uses_sudo());
    assert!(Privileged::detect(FakeCommandRunner::new(), 1000).uses_sudo());
}

#[test]
fn run_ok_maps_nonzero_exit_to_step_error() {
    let mut fake = FakeCommandRunner::new();
    fake.set("sudo", &["useradd", "x"], 9, "", "useradd: UID in use\n");
    let err = Privileged::with_sudo(fake, true)
        .run_ok("account", "useradd", &["x"])
        .unwrap_err();
    match err {
        Error::Step { step, detail, .. } => {
            assert_eq!(step, "account");
            assert!(
                detail.contains("useradd") && detail.contains("UID in use"),
                "{detail}"
            );
        }
        other => panic!("{other:?}"),
    }
}

#[test]
fn run_ok_maps_spawn_failure_to_step_error() {
    let err = Privileged::with_sudo(FakeCommandRunner::new(), false)
        .run_ok("units", "systemctl", &["x"])
        .unwrap_err();
    assert!(matches!(err, Error::Step { step: "units", .. }));
}

#[test]
fn write_file_uses_tee_then_chmod() {
    let mut p = Privileged::with_sudo(FakeCommandRunner::permissive(), true);
    p.write_file(
        "units",
        "/etc/systemd/system/a.service",
        b"[Unit]\n",
        "0644",
    )
    .unwrap();
    assert_eq!(
        p.runner().calls(),
        vec![
            "sudo tee /etc/systemd/system/a.service",
            "sudo chmod 0644 /etc/systemd/system/a.service",
        ]
    );
    assert_eq!(
        p.runner().stdin_of("sudo tee /etc/systemd/system/a.service"),
        Some(b"[Unit]\n".to_vec())
    );
}

#[test]
fn install_helpers_build_install_argv() {
    let mut p = Privileged::with_sudo(FakeCommandRunner::permissive(), false);
    p.install_file(
        "binaries",
        "/tmp/a",
        "/usr/local/lib/firecrab/a",
        "root",
        "root",
        "0755",
    )
    .unwrap();
    p.install_dirs(
        "directories",
        &["/var/lib/firecrab", "/var/lib/firecrab/data"],
        "firecrab",
        "firecrab",
        "0750",
    )
    .unwrap();
    assert_eq!(
        p.runner().calls(),
        vec![
            "install -o root -g root -m 0755 /tmp/a /usr/local/lib/firecrab/a",
            "install -d -o firecrab -g firecrab -m 0750 /var/lib/firecrab /var/lib/firecrab/data",
        ]
    );
}

#[test]
fn run_env_prefixes_env_assignments() {
    let mut p = Privileged::with_sudo(FakeCommandRunner::permissive(), true);
    p.run_env(
        "firecracker",
        &[(
            "FIRECRACKER_NOTICE_DIR",
            "/usr/local/share/firecrab/firecracker",
        )],
        "bash",
        &["/tmp/i.sh"],
    )
    .unwrap();
    assert_eq!(
        p.runner().calls(),
        vec![
            "sudo env FIRECRACKER_NOTICE_DIR=/usr/local/share/firecrab/firecracker bash /tmp/i.sh"
        ]
    );
}

#[test]
fn ensure_ticket_is_a_noop_as_root_and_probes_sudo_otherwise() {
    let mut root = Privileged::with_sudo(FakeCommandRunner::permissive(), false);
    root.ensure_ticket_with(true, &|| false).unwrap();
    assert!(root.runner().calls().is_empty());
    let mut user = Privileged::with_sudo(FakeCommandRunner::permissive(), true);
    user.ensure_ticket_with(true, &|| false).unwrap();
    assert_eq!(user.runner().calls(), vec!["sudo -n true"]);
}

#[test]
fn ensure_ticket_fails_without_a_tty_when_sudo_needs_a_password() {
    let mut fake = FakeCommandRunner::new();
    fake.set(
        "sudo",
        &["-n", "true"],
        1,
        "",
        "sudo: a password is required\n",
    );
    let err = Privileged::with_sudo(fake, true)
        .ensure_ticket_with(false, &|| true)
        .unwrap_err();
    assert!(matches!(err, Error::Sudo(_)));
}

#[test]
fn a_password_is_asked_for_once_on_a_terminal() {
    let mut fake = FakeCommandRunner::new();
    fake.set("sudo", &["-n", "true"], 1, "", "");
    let asked = Cell::new(0);
    let mut p = Privileged::with_sudo(fake, true);
    p.ensure_ticket(&|path: &str| path == "/dev/tty", &|| {
        asked.set(asked.get() + 1);
        true
    })
    .unwrap();
    assert_eq!(asked.get(), 1);
    let lines = p.take_lines();
    assert_eq!(lines.len(), 1);
    assert_eq!(lines[0].render(), "\u{1b}[1;36m--\u{1b}[0m  sudo password required");

    let mut fake = FakeCommandRunner::new();
    fake.set("sudo", &["-n", "true"], 1, "", "");
    let err = Privileged::with_sudo(fake, true)
        .ensure_ticket_with(true, &|| false)
        .unwrap_err();
    assert_eq!(err.message(), "sudo: authentication failed");
}

#[test]
fn lines_carry_their_mark_and_go_to_their_stream() {
    let line = output::warn("x");
    assert_eq!(line.render(), "\u{1b}[1;33m!!\u{1b}[0m  x");
    assert!(line.to_stderr() && output::fail("x").to_stderr());
    assert!(!output::log("x").to_stderr() && !output::step("x").to_stderr());
    assert_eq!(output::log("done").render(), "\u{1b}[1;32m==>\u{1b}[0m done");
    let error = Error::step_fix("start", "boom".to_owned(), "look at the log".to_owned());
    assert_eq!(
        error.report(),
        vec![
            "\u{1b}[1;31mxx\u{1b}[0m  start: boom".to_owned(),
            "  → look at the log".to_owned(),
        ]
    );
}

#[test]
fn detect_prefers_the_first_manager_on_path() {
    let mut fake = FakeCommandRunner::new();
    fake.set("sh", &["-c", "command -v dnf"], 0, "/usr/bin/dnf\n", "");
    assert_eq!(PkgManager::detect(&mut fake), Some(PkgManager::Dnf));
}

#[test]
fn detect_returns_none_without_any_manager() {
    assert_eq!(PkgManager::detect(&mut FakeCommandRunner::new()), None);
}

#[test]
fn package_names_follow_install_sh_mapping() {
    assert_eq!(PkgManager::Dnf.packages_for("iproute2"), vec!["iproute"]);
    assert_eq!(
        PkgManager::AptGet.packages_for("iproute2"),
        vec!["iproute2"]
    );
    assert_eq!(
        PkgManager::Dnf.packages_for("dnsmasq-utils"),
        vec!["dnsmasq"]
    );
    assert_eq!(
        PkgManager::Apk.packages_for("dnsmasq-utils"),
        vec!["dnsmasq-utils"]
    );
    assert_eq!(
        PkgManager::Apk.packages_for("e2fsprogs"),
        vec!["e2fsprogs-extra"]
    );
    assert_eq!(
        PkgManager::Pacman.packages_for("e2fsprogs"),
        vec!["e2fsprogs"]
    );
    assert_eq!(PkgManager::AptGet.packages_for("xz"), vec!["xz-utils"]);
    assert_eq!(PkgManager::Zypper.packages_for("xz"), vec!["xz"]);
    assert_eq!(
        PkgManager::Dnf.packages_for("selinux-tools"),
        vec!["policycoreutils-python-utils"]
    );
    assert_eq!(
        PkgManager::Pacman.packages_for("selinux-tools"),
        vec!["policycoreutils"]
    );
    assert_eq!(PkgManager::AptGet.packages_for("curl"), vec!["curl"]);
}

#[test]
fn install_refreshes_the_index_at_most_once() {
    let privileged = Privileged::with_sudo(FakeCommandRunner::permissive(), true);
    let mut packages = Packages::new(Some(PkgManager::AptGet), privileged);
    packages.install("deps", &["nftables"]).unwrap();
    packages.install("deps", &["dnsmasq"]).unwrap();
    assert_eq!(
        packages.runner().calls(),
        vec![
            "sudo env DEBIAN_FRONTEND=noninteractive apt-get update -qq",
            "sudo env DEBIAN_FRONTEND=noninteractive apt-get install -y -qq nftables",
            "sudo env DEBIAN_FRONTEND=noninteractive apt-get install -y -qq dnsmasq",
        ]
    );
}

#[test]
fn install_retries_once_before_failing() {
    let mut fake = FakeCommandRunner::new();
    fake.set(
        "sudo",
        &["dnf", "install", "-y", "-q", "nftables"],
        1,
        "",
        "mirror error\n",
    );
    let privileged = Privileged::with_sudo(fake, true);
    let mut packages = Packages::new(Some(PkgManager::Dnf), privileged);
    let err = packages.install("deps", &["nftables"]).unwrap_err();
    assert!(matches!(err, Error::Step { step: "deps", .. }), "{err:?}");
    assert_eq!(
        packages
            .runner()
            .calls()
            .iter()
            .filter(|c| c.contains("dnf install"))
            .count(),
        2,
        "one retry, then give up"
    );
}

#[test]
fn install_without_a_manager_is_an_error() {
    let privileged = Privileged::with_sudo(FakeCommandRunner::permissive(), true);
    let mut packages = Packages::new(None, privileged);
    assert!(packages.install("deps", &["nftables"]).is_err());
}

#[test]
fn have_probes_with_command_v() {
    let mut fake = FakeCommandRunner::new();
    fake.set("sh", &["-c", "command -v nft"], 0, "/usr/sbin/nft\n", "");
    fake.set("sh", &["-c", "command -v missing"], 1, "", "");
    assert!(have(&mut fake, "nft"));
    assert!(!have(&mut fake, "missing"));
}

const ALL: &[&str] = &[
    "ip",
    "nft",
    "dnsmasq",
    "dhcp_release",
    "mkfs.ext4",
    "curl",
    "find",
    "tar",
    "zstd",
    "sha256sum",
    "semanage",
];

fn fake_with_present(present: &[&str]) -> FakeCommandRunner {
    let mut fake = FakeCommandRunner::permissive();
    for cmd in present {
        fake.set(
            "sh",
            &["-c", &format!("command -v {cmd}")],
            0,
            "/usr/bin/x\n",
            "",
        );
    }
    for cmd in ALL {
        if !present.contains(cmd) {
            fake.set("sh", &["-c", &format!("command -v {cmd}")], 1, "", "");
        }
    }
    fake
}

fn packages_on(fake: FakeCommandRunner, manager: PkgManager) -> Packages<FakeCommandRunner> {
    Packages::new(Some(manager), Privileged::with_sudo(fake, true))
}

#[test]
fn nothing_is_installed_when_everything_is_present() {
    let mut packages = packages_on(fake_with_present(ALL), PkgManager::AptGet);
    let outcome = ensure_runtime_deps(&mut packages, true, false, false);
    assert!(outcome.missing.is_empty());
    let calls = packages.runner().calls();
    assert!(
        !calls.iter().any(|c| c.contains("apt-get install")),
        "{calls:?}"
    );
}

#[test]
fn missing_commands_are_installed_by_generic_name() {
    let mut fake = fake_with_present(&[
        "ip",
        "dnsmasq",
        "dhcp_release",
        "mkfs.ext4",
        "curl",
        "find",
        "tar",
        "zstd",
        "sha256sum",
    ]);
    fake.set_seq(
        "sh",
        &["-c", "command -v nft"],
        &[(1, "", ""), (0, "/usr/sbin/nft\n", "")],
    );
    let mut packages = packages_on(fake, PkgManager::AptGet);
    let outcome = ensure_runtime_deps(&mut packages, true, false, false);
    assert!(outcome.missing.is_empty(), "{:?}", outcome.missing);
    let calls = packages.runner().calls();
    assert!(
        calls
            .iter()
            .any(|c| c.ends_with("apt-get install -y -qq nftables")),
        "{calls:?}"
    );
}

#[test]
fn a_package_that_installs_but_leaves_the_command_absent_is_reported_missing() {
    let fake = fake_with_present(&[
        "ip",
        "dnsmasq",
        "dhcp_release",
        "mkfs.ext4",
        "curl",
        "find",
        "tar",
        "zstd",
        "sha256sum",
    ]);
    let mut packages = packages_on(fake, PkgManager::AptGet);
    let outcome = ensure_runtime_deps(&mut packages, true, false, false);
    assert!(
        outcome.missing.contains(&"nft".to_owned()),
        "{:?}",
        outcome.missing
    );
    let calls = packages.runner().calls();
    assert!(
        calls
            .iter()
            .any(|c| c.ends_with("apt-get install -y -qq nftables")),
        "install was still attempted: {calls:?}"
    );
}

#[test]
fn deps_check_only_reports_without_installing() {
    let mut packages = packages_on(fake_with_present(&[]), PkgManager::AptGet);
    let outcome = ensure_runtime_deps(&mut packages, true, true, false);
    assert!(
        outcome.missing.contains(&"nft".to_owned()),
        "{:?}",
        outcome.missing
    );
    let calls = packages.runner().calls();
    assert!(!calls.iter().any(|c| c.contains("install")), "{calls:?}");
    assert!(calls.iter().all(|c| c.starts_with("sh -c command -v ")));
}

#[test]
fn no_deps_reports_missing_without_installing() {
    let mut packages = packages_on(fake_with_present(&[]), PkgManager::AptGet);
    let outcome = ensure_runtime_deps(&mut packages, false, false, false);
    assert!(outcome.missing.contains(&"ip".to_owned()));
    assert!(!packages
        .runner()
        .calls()
        .iter()
        .any(|c| c.contains("install")));
}

#[test]
fn dhcp_release_is_a_warning_not_a_failure_and_never_reinstalls_dnsmasq_on_dnf() {
    let fake = fake_with_present(&[
        "ip",
        "nft",
        "dnsmasq",
        "mkfs.ext4",
        "curl",
        "find",
        "tar",
        "zstd",
        "sha256sum",
    ]);
    let mut packages = packages_on(fake, PkgManager::Dnf);
    let outcome = ensure_runtime_deps(&mut packages, true, false, false);
    assert!(outcome.missing.is_empty(), "{:?}", outcome.missing);
    assert!(
        outcome.warnings.iter().any(|w| w.contains("dhcp_release")),
        "{:?}",
        outcome.warnings
    );
    let calls = packages.runner().calls();
    assert!(
        !calls.iter().any(|c| c.contains("dnf install")),
        "{calls:?}"
    );
}

#[test]
fn semanage_is_only_pursued_when_selinux_is_on() {
    let present = &[
        "ip",
        "nft",
        "dnsmasq",
        "dhcp_release",
        "mkfs.ext4",
        "curl",
        "find",
        "tar",
        "zstd",
        "sha256sum",
    ];
    let mut packages = packages_on(fake_with_present(present), PkgManager::Dnf);
    ensure_runtime_deps(&mut packages, true, false, false);
    let calls = packages.runner().calls();
    assert!(
        !calls.iter().any(|c| c.contains("policycoreutils")),
        "{calls:?}"
    );

    let mut packages = packages_on(fake_with_present(present), PkgManager::Dnf);
    ensure_runtime_deps(&mut packages, true, false, true);
    let calls = packages.runner().calls();
    assert!(
        calls
            .iter()
            .any(|c| c.contains("policycoreutils-python-utils")),
        "{calls:?}"
    );
}

fn env_for(prefix: &str) -> ServiceEnv {
    ServiceEnv::from_values(
        "firecrab",
        "firecrab",
        prefix,
        "/var/lib/firecrab",
        "/etc/firecrab",
        "/etc/systemd/system",
    )
}

fn with_getenforce(mut fake: FakeCommandRunner, mode: &str) -> FakeCommandRunner {
    fake.set(
        "sh",
        &["-c", "command -v getenforce"],
        0,
        "/usr/sbin/getenforce\n",
        "",
    );
    fake.set("getenforce", &[], 0, mode, "");
    fake
}

#[test]
fn selinux_active_follows_getenforce() {
    let mut fake = with_getenforce(FakeCommandRunner::new(), "Enforcing\n");
    assert!(selinux_active(&mut fake));

    let mut fake = with_getenforce(FakeCommandRunner::new(), "Permissive\n");
    assert!(
        selinux_active(&mut fake),
        "permissive counts: labels still have to be right"
    );

    let mut fake = with_getenforce(FakeCommandRunner::new(), "Disabled\n");
    assert!(!selinux_active(&mut fake));

    assert!(!selinux_active(&mut FakeCommandRunner::new()));
}

#[test]
fn label_records_the_context_and_restores_it() {
    let mut fake = with_getenforce(FakeCommandRunner::permissive(), "Enforcing\n");
    fake.set(
        "sh",
        &["-c", "command -v semanage"],
        0,
        "/usr/sbin/semanage\n",
        "",
    );
    fake.set(
        "sh",
        &["-c", "command -v restorecon"],
        0,
        "/usr/sbin/restorecon\n",
        "",
    );
    let mut privileged = Privileged::with_sudo(fake, true);
    label_binaries(&mut privileged, &env_for("/usr/local"));
    let calls = privileged.runner().calls();
    assert!(
        calls
            .iter()
            .any(|c| c == "sudo semanage fcontext -a -t bin_t /usr/local/lib/firecrab(/.*)?"),
        "{calls:?}"
    );
    assert!(
        calls
            .iter()
            .any(|c| c == "sudo restorecon -R /usr/local/lib/firecrab"),
        "{calls:?}"
    );
}

#[test]
fn label_falls_back_to_modify_when_the_rule_exists() {
    let mut fake = with_getenforce(FakeCommandRunner::permissive(), "Enforcing\n");
    fake.set(
        "sh",
        &["-c", "command -v semanage"],
        0,
        "/usr/sbin/semanage\n",
        "",
    );
    fake.set("sh", &["-c", "command -v restorecon"], 1, "", "");
    fake.set(
        "sudo",
        &[
            "semanage",
            "fcontext",
            "-a",
            "-t",
            "bin_t",
            "/usr/local/lib/firecrab(/.*)?",
        ],
        1,
        "",
        "already defined\n",
    );
    let mut privileged = Privileged::with_sudo(fake, true);
    label_binaries(&mut privileged, &env_for("/usr/local"));
    let calls = privileged.runner().calls();
    assert!(
        calls
            .iter()
            .any(|c| c.contains("semanage fcontext -m -t bin_t")),
        "{calls:?}"
    );
}

#[test]
fn label_without_semanage_only_warns() {
    let mut fake = with_getenforce(FakeCommandRunner::permissive(), "Enforcing\n");
    fake.set("sh", &["-c", "command -v semanage"], 1, "", "");
    let mut privileged = Privileged::with_sudo(fake, true);
    label_binaries(&mut privileged, &env_for("/usr/local"));
    let calls = privileged.runner().calls();
    assert!(
        calls.iter().any(|c| c == "sh -c command -v semanage"),
        "{calls:?}"
    );
    assert!(
        !calls.iter().any(|c| c.contains("semanage fcontext")),
        "{calls:?}"
    );
    let lines: Vec<Line> = privileged.take_lines();
    assert!(lines.iter().any(|l| l.level == Level::Warn));
}

#[test]
fn unlabel_deletes_the_rule_when_semanage_exists() {
    let mut fake = FakeCommandRunner::permissive();
    fake.set(
        "sh",
        &["-c", "command -v semanage"],
        0,
        "/usr/sbin/semanage\n",
        "",
    );
    let mut privileged = Privileged::with_sudo(fake, true);
    unlabel_binaries(&mut privileged, &env_for("/usr/local"));
    let calls = privileged.runner().calls();
    assert!(
        calls
            .iter()
            .any(|c| c == "sudo semanage fcontext -d /usr/local/lib/firecrab(/.*)?"),
        "{calls:?}"
    );
}

fn vars(pairs: &[(&str, &str)]) -> Vec<(String, String)> {
    pairs
        .iter()
        .map(|(k, v)| ((*k).to_owned(), (*v).to_owned()))
        .collect()
}

#[test]
fn defaults_match_install_sh() {
    let env = ServiceEnv::from_process_env(&[]);
    assert_eq!(env.user, "firecrab");
    assert_eq!(env.group, "firecrab");
    assert_eq!(env.prefix, "/usr/local");
    assert_eq!(env.bindir, "/usr/local/bin");
    assert_eq!(env.libdir, "/usr/local/lib/firecrab");
    assert_eq!(env.sharedir, "/usr/local/share/firecrab");
    assert_eq!(env.datadir, "/var/lib/firecrab");
    assert_eq!(env.confdir, "/etc/firecrab");
    assert_eq!(env.unitdir, "/etc/systemd/system");
    assert_eq!(
        env.unit_path("firecrab-api.service"),
        "/etc/systemd/system/firecrab-api.service"
    );
}

#[test]
fn prefix_and_libdir_overrides_follow_update() {
    let env = ServiceEnv::from_process_env(&vars(&[
        ("PREFIX", "/opt/fc"),
        ("FIRECRAB_LIBDIR", "/opt/lib/fc"),
        ("FIRECRAB_USER", "fcuser"),
    ]));
    assert_eq!(env.bindir, "/opt/fc/bin");
    assert_eq!(env.sharedir, "/opt/fc/share/firecrab");
    assert_eq!(env.libdir, "/opt/lib/fc");
    assert_eq!(env.user, "fcuser");
    assert_eq!(env.group, "firecrab");
}

#[test]
fn api_bind_defaults_to_loopback() {
    assert_eq!(ServiceEnv::api_bind(&[]), "127.0.0.1:5523");
    assert_eq!(
        ServiceEnv::api_bind(&vars(&[("FIRECRAB_BIND_ADDR", "0.0.0.0:8080")])),
        "0.0.0.0:8080"
    );
}

fn rooted_env() -> ServiceEnv {
    ServiceEnv::from_values(
        "firecrab",
        "firecrab",
        "/t/usr/local",
        "/t/var/lib/firecrab",
        "/t/etc/firecrab",
        "/t/etc/systemd/system",
    )
}

fn uninstalled(fake: FakeCommandRunner, purge: bool) -> Vec<String> {
    let mut privileged = Privileged::with_sudo(fake, true);
    uninstall(&mut privileged, &rooted_env(), purge, &|path: &str| {
        path == "/t/usr/local/lib/firecrab/firecrab-net-helper"
    })
    .unwrap();
    privileged.runner().calls()
}

#[test]
fn units_are_disabled_removed_and_reloaded_before_anything_else() {
    let env = rooted_env();
    let calls = uninstalled(FakeCommandRunner::permissive(), false);
    let at = |line: &str| calls.iter().position(|c| c == line).unwrap();
    let reload = at("sudo systemctl daemon-reload");
    for unit in UNITS {
        let disable = at(&format!("sudo systemctl disable --now {unit}"));
        let remove = at(&format!("sudo rm -f {}", env.unit_path(unit)));
        assert!(disable < remove && remove < reload, "{calls:?}");
    }
}

#[test]
fn network_teardown_runs_while_the_helper_binary_is_still_on_disk() {
    let calls = uninstalled(FakeCommandRunner::permissive(), false);
    let teardown = calls
        .iter()
        .position(|c| c == "sudo /t/usr/local/lib/firecrab/firecrab-net-helper --teardown")
        .expect("teardown call");
    let removal = calls
        .iter()
        .rposition(|c| c.starts_with("sudo rm -f ") && c.contains("firecrab-net-helper"))
        .unwrap();
    assert!(teardown < removal, "{calls:?}");
}

#[test]
fn a_failing_teardown_is_only_a_warning() {
    let mut fake = FakeCommandRunner::permissive();
    fake.set(
        "sudo",
        &[
            "/t/usr/local/lib/firecrab/firecrab-net-helper",
            "--teardown",
        ],
        1,
        "",
        "rtnetlink error\n",
    );
    uninstalled(fake, false);
}

#[test]
fn data_and_config_survive_without_purge() {
    let env = rooted_env();
    let calls = uninstalled(FakeCommandRunner::permissive(), false);
    assert!(
        !calls
            .iter()
            .any(|c| c.contains(&env.datadir) && c.starts_with("sudo rm -rf")),
        "{calls:?}"
    );
}

#[test]
fn purge_removes_data_and_config() {
    let env = rooted_env();
    let calls = uninstalled(FakeCommandRunner::permissive(), true);
    assert_eq!(
        calls.last().unwrap(),
        &format!("sudo rm -rf {} {}", env.datadir, env.confdir)
    );
    assert_eq!(
        calls[..calls.len() - 1],
        uninstalled(FakeCommandRunner::permissive(), false)[..]
    );
}

#[test]
fn binaries_dashboard_and_licenses_are_removed() {
    let env = rooted_env();
    let calls = uninstalled(FakeCommandRunner::permissive(), false).join("\n");
    for path in [
        format!("{}/firecrab-api", env.libdir),
        format!("{}/firecrab", env.bindir),
        format!("{}/dashboard", env.sharedir),
        format!("{}/licenses", env.sharedir),
    ] {
        assert!(calls.contains(&path), "{calls}");
    }
    assert!(
        calls.contains("rmdir --ignore-fail-on-non-empty"),
        "{calls}"
    );
}

const TEMPLATE: &str = "\
User=@FIRECRAB_USER@
Group=@FIRECRAB_GROUP@
WorkingDirectory=@DATADIR@
Environment=FIRECRAB_STATIC_ROOT=@SHAREDIR@/dashboard
Environment=PREFIX=@PREFIX@
Environment=FIRECRAB_LIBDIR=@LIBDIR@
EnvironmentFile=-@CONFDIR@/api.env
ExecStart=@LIBDIR@/firecrab-api
Environment=FIRECRAB_NET_HELPER_ALLOWED_UID=@FIRECRAB_UID@
";

#[test]
fn render_unit_replaces_every_placeholder() {
    let env = rooted_env();
    let rendered = render_unit(TEMPLATE, &env, "900");
    assert!(
        !rendered.contains('@'),
        "unsubstituted placeholder left:\n{rendered}"
    );
    assert!(rendered.contains(&format!("WorkingDirectory={}", env.datadir)));
    assert!(rendered.contains(&format!("ExecStart={}/firecrab-api", env.libdir)));
    assert!(rendered.contains("FIRECRAB_NET_HELPER_ALLOWED_UID=900"));
    assert!(rendered.contains("User=firecrab"));
}

#[test]
fn require_installed_checks_both_unit_files() {
    let env = rooted_env();
    assert!(matches!(
        require_installed(&env, &|_: &str| false),
        Err(Error::NotInstalled)
    ));
    assert!(matches!(
        require_installed(&env, &|path: &str| path.ends_with("firecrab-api.service")),
        Err(Error::NotInstalled)
    ));
    let both: Vec<String> = UNITS.iter().map(|unit| env.unit_path(unit)).collect();
    assert!(require_installed(&env, &|path: &str| both.iter().any(|p| p == path)).is_ok());
}

fn start_with_settle(
    privileged: &mut Privileged<FakeCommandRunner>,
    answers: bool,
) -> Result<(), Error> {
    let mut args = vec!["start"];
    args.extend(UNITS);
    privileged.run_ok("start", "systemctl", &args)?;
    confirm_active_with(privileged, "127.0.0.1:5523", &mut Scripted::new(vec![answers]), 3)
}

#[test]
fn start_uses_boot_order_and_stop_reverses_it() {
    let mut fake = FakeCommandRunner::permissive();
    for unit in UNITS {
        fake.set_seq(
            "systemctl",
            &["is-active", unit],
            &[(0, "active\n", ""), (3, "inactive\n", "")],
        );
    }
    let mut privileged = Privileged::with_sudo(fake, true);
    start_with_settle(&mut privileged, true).unwrap();
    stop(&mut privileged).unwrap();
    let calls = privileged.runner().calls();
    assert!(
        calls.iter().any(
            |c| c == "sudo systemctl start firecrab-net-helper.service firecrab-api.service"
        ),
        "{calls:?}"
    );
    assert!(
        calls
            .iter()
            .any(|c| c == "sudo systemctl stop firecrab-api.service firecrab-net-helper.service"),
        "{calls:?}"
    );
}

#[test]
fn start_fails_when_a_unit_is_not_active() {
    let mut fake = FakeCommandRunner::permissive();
    fake.set(
        "systemctl",
        &["is-active", "firecrab-api.service"],
        1,
        "failed\n",
        "",
    );
    fake.set(
        "systemctl",
        &["is-active", "firecrab-net-helper.service"],
        0,
        "active\n",
        "",
    );
    let err = start_with_settle(&mut Privileged::with_sudo(fake, true), true).unwrap_err();
    match err {
        Error::Step {
            step: "start",
            detail,
            ..
        } => assert!(detail.contains("firecrab-api.service"), "{detail}"),
        other => panic!("{other:?}"),
    }
}

#[test]
fn start_fails_when_the_api_never_answers() {
    let mut fake = FakeCommandRunner::permissive();
    for unit in UNITS {
        fake.set("systemctl", &["is-active", unit], 0, "active\n", "");
    }
    let err = start_with_settle(&mut Privileged::with_sudo(fake, true), false).unwrap_err();
    assert!(matches!(err, Error::Step { step: "start", .. }), "{err:?}");
}

#[test]
fn enable_and_disable_pass_both_units() {
    let mut privileged = Privileged::with_sudo(FakeCommandRunner::permissive(), true);
    enable(&mut privileged).unwrap();
    disable(&mut privileged).unwrap();
    assert_eq!(
        privileged.runner().calls(),
        vec![
            "sudo systemctl enable firecrab-net-helper.service firecrab-api.service",
            "sudo systemctl disable firecrab-net-helper.service firecrab-api.service",
        ]
    );
}

#[test]
fn is_active_collapses_a_missing_systemctl_to_unknown() {
    let mut fake = FakeCommandRunner::new();
    fake.set(
        "systemctl",
        &["is-active", "firecrab-api.service"],
        0,
        "active\n",
        "",
    );
    assert_eq!(is_active(&mut fake, "firecrab-api.service"), "active");
    assert_eq!(
        is_active(&mut fake, "firecrab-net-helper.service"),
        "unknown"
    );
}

#[test]
fn wait_for_retries_until_the_probe_succeeds() {
    let mut probe = Scripted::new(vec![false, false, true]);
    assert!(wait_for(&mut probe, 5));
    assert_eq!(
        probe.steps(),
        &[Step::Asked, Step::Paused, Step::Asked, Step::Paused, Step::Asked]
    );

    let mut never = Scripted::new(Vec::new());
    assert!(!wait_for(&mut never, 3));
    assert_eq!(
        never.steps(),
        &[Step::Asked, Step::Paused, Step::Asked, Step::Paused, Step::Asked]
    );
    assert!(!wait_for(&mut never, 0));
    assert_eq!(never.steps().len(), 5);
}

/// A probe that keeps no record and answers by counting.
struct Third(u32);

impl Probe for Third {
    fn settle(&mut self) {}

    fn ask(&mut self) -> bool {
        self.0 += 1;
        self.0 >= 3
    }

    fn pause(&mut self) {}
}

#[test]
fn a_wait_stops_at_the_first_yes() {
    let mut probe = Third(0);
    assert!(!wait_for(&mut probe, 2));
    assert_eq!(probe.0, 2);
    assert!(wait_for(&mut probe, 5));
    assert_eq!(probe.0, 3);
}

#[test]
fn the_api_is_asked_once_the_units_stay_up() {
    let mut fake = FakeCommandRunner::permissive();
    for unit in UNITS {
        fake.set("systemctl", &["is-active", unit], 0, "active\n", "");
    }
    let mut probe = Scripted::new(vec![false, true]);
    let mut privileged = Privileged::with_sudo(fake, true);
    confirm_active_with(&mut privileged, "127.0.0.1:5523", &mut probe, 3).unwrap();
    assert_eq!(
        probe.steps(),
        &[Step::Settled, Step::Asked, Step::Paused, Step::Asked]
    );

    let mut fake = FakeCommandRunner::permissive();
    for unit in UNITS {
        fake.set("systemctl", &["is-active", unit], 3, "failed\n", "");
    }
    let mut probe = Scripted::new(vec![true]);
    let mut privileged = Privileged::with_sudo(fake, true);
    assert!(confirm_active_with(&mut privileged, "127.0.0.1:5523", &mut probe, 3).is_err());
    assert_eq!(probe.steps(), &[Step::Settled]);
}
