//! What an installation is made of, and where it goes.

use firecrab::service::env::{ServiceEnv, UNITS};
use firecrab::service::firecracker::{ensure_firecracker, repo_raw_url};
use firecrab::service::layout::{
    ensure_account, ensure_directories, install_binaries, install_compliance, install_config,
    API_ENV_TEMPLATE,
};
use firecrab::service::payload::{
    elf_arch, find_checkout, normalize_tag, resolve_binary, verify_bundle_members,
    verify_checksum, Payload, BUNDLE_BINARIES,
};
use firecrab::service::privileged::Privileged;
use firecrab::service::probe::Scripted;
use firecrab::service::units::install_units;
use firecrab::service::{run, Command, Error};
use firecrab::shell::FakeCommandRunner;
use std::collections::HashMap;

fn rooted_env() -> ServiceEnv {
    ServiceEnv::from_values(
        "firecrab",
        "firecrab",
        "/t/usr/local",
        "/t/var/lib/firecrab",
        "/t/etc/firecrab",
        "/t/etc/systemd/system",
    )
}

fn local_env() -> ServiceEnv {
    ServiceEnv::from_values(
        "firecrab",
        "firecrab",
        "/usr/local",
        "/var/lib/firecrab",
        "/etc/firecrab",
        "/etc/systemd/system",
    )
}

#[test]
fn raw_url_maps_latest_to_main_and_normalizes_tags() {
    assert_eq!(
        repo_raw_url("SteelCrab/firecrab", None, "scripts/install-firecracker.sh"),
        "https://raw.githubusercontent.com/SteelCrab/firecrab/main/scripts/install-firecracker.sh"
    );
    assert_eq!(
        repo_raw_url(
            "SteelCrab/firecrab",
            Some("0.3.0"),
            "scripts/install-firecracker.sh"
        ),
        "https://raw.githubusercontent.com/SteelCrab/firecrab/v0.3.0/scripts/install-firecracker.sh"
    );
    assert_eq!(
        repo_raw_url("SteelCrab/firecrab", Some("v0.3.0"), "x"),
        "https://raw.githubusercontent.com/SteelCrab/firecrab/v0.3.0/x"
    );
}

fn no_fetch(_: &str) -> Result<String, Error> {
    Err(Error::step("firecracker", "offline".to_owned()))
}

#[test]
fn present_firecracker_is_left_alone() {
    let mut fake = FakeCommandRunner::permissive();
    fake.set(
        "sh",
        &["-c", "command -v firecracker"],
        0,
        "/usr/bin/firecracker\n",
        "",
    );
    let mut privileged = Privileged::with_sudo(fake, true);
    ensure_firecracker(
        &mut privileged,
        &local_env(),
        None,
        "SteelCrab/firecrab",
        None,
        true,
        false,
        &|_: &str| false,
        &no_fetch,
    )
    .unwrap();
    let calls = privileged.runner().calls();
    assert!(
        !calls.iter().any(|c| c.contains("install-firecracker")),
        "{calls:?}"
    );
}

#[test]
fn checkout_script_is_run_with_the_notice_dir() {
    let mut fake = FakeCommandRunner::permissive();
    fake.set("sh", &["-c", "command -v firecracker"], 1, "", "");
    let mut privileged = Privileged::with_sudo(fake, true);
    let result = ensure_firecracker(
        &mut privileged,
        &local_env(),
        Some("/checkout"),
        "SteelCrab/firecrab",
        None,
        true,
        false,
        &|path: &str| path == "/checkout/scripts/install-firecracker.sh",
        &no_fetch,
    );
    assert!(
        result.is_err(),
        "the probe after install still reports it missing"
    );
    let calls = privileged.runner().calls();
    assert!(
        calls.iter().any(|c| c
            == "sudo env FIRECRACKER_NOTICE_DIR=/usr/local/share/firecrab/firecracker bash /checkout/scripts/install-firecracker.sh"),
        "{calls:?}"
    );
}

#[test]
fn a_script_is_fetched_where_there_is_no_checkout() {
    let mut fake = FakeCommandRunner::permissive();
    fake.set_seq(
        "sh",
        &["-c", "command -v firecracker"],
        &[(1, "", ""), (0, "/usr/bin/firecracker\n", "")],
    );
    let mut privileged = Privileged::with_sudo(fake, true);
    ensure_firecracker(
        &mut privileged,
        &local_env(),
        None,
        "SteelCrab/firecrab",
        Some("0.3.0"),
        true,
        false,
        &|_: &str| false,
        &|url: &str| {
            assert!(url.ends_with("/v0.3.0/scripts/install-firecracker.sh"), "{url}");
            Ok("/tmp/fetched.sh".to_owned())
        },
    )
    .unwrap();
    assert!(privileged
        .runner()
        .calls()
        .iter()
        .any(|c| c.ends_with("bash /tmp/fetched.sh")));
}

fn refused(install_deps: bool, check_only: bool) -> (Error, Vec<String>) {
    let mut fake = FakeCommandRunner::permissive();
    fake.set("sh", &["-c", "command -v firecracker"], 1, "", "");
    let mut privileged = Privileged::with_sudo(fake, true);
    let err = ensure_firecracker(
        &mut privileged,
        &local_env(),
        None,
        "SteelCrab/firecrab",
        None,
        install_deps,
        check_only,
        &|_: &str| false,
        &no_fetch,
    )
    .unwrap_err();
    (err, privileged.runner().calls())
}

#[test]
fn firecracker_check_only_reports_without_installing() {
    let (err, calls) = refused(true, true);
    assert!(matches!(
        err,
        Error::Step {
            step: "firecracker",
            ..
        }
    ));
    assert!(!calls.iter().any(|c| c.contains("bash")), "{calls:?}");
}

#[test]
fn no_deps_refuses_to_install() {
    let (err, calls) = refused(false, false);
    assert!(matches!(
        err,
        Error::Step {
            step: "firecracker",
            ..
        }
    ));
    assert!(!calls.iter().any(|c| c.contains("bash")), "{calls:?}");
}

#[test]
fn account_creation_is_skipped_when_the_user_and_group_exist() {
    let mut fake = FakeCommandRunner::permissive();
    fake.set("getent", &["group", "firecrab"], 0, "firecrab:x:900:\n", "");
    fake.set("id", &["firecrab"], 0, "uid=900\n", "");
    fake.set("getent", &["group", "kvm"], 0, "kvm:x:104:firecrab\n", "");
    fake.set("id", &["-nG", "firecrab"], 0, "firecrab kvm\n", "");
    let mut privileged = Privileged::with_sudo(fake, true);
    ensure_account(&mut privileged, &rooted_env(), false).unwrap();
    let calls = privileged.runner().calls();
    assert!(!calls.iter().any(|c| c.contains("groupadd")), "{calls:?}");
    assert!(!calls.iter().any(|c| c.contains("useradd")), "{calls:?}");
    assert!(!calls.iter().any(|c| c.contains("usermod")), "{calls:?}");
}

#[test]
fn account_creation_adds_group_user_and_kvm_membership() {
    let mut fake = FakeCommandRunner::permissive();
    fake.set("getent", &["group", "firecrab"], 1, "", "");
    fake.set("id", &["firecrab"], 1, "", "");
    fake.set("getent", &["group", "kvm"], 0, "kvm:x:104:\n", "");
    fake.set("id", &["-nG", "firecrab"], 0, "firecrab\n", "");
    let env = rooted_env();
    let mut privileged = Privileged::with_sudo(fake, true);
    ensure_account(&mut privileged, &env, false).unwrap();
    let calls = privileged.runner().calls();
    assert!(
        calls.iter().any(|c| c == "sudo groupadd --system firecrab"),
        "{calls:?}"
    );
    assert!(
        calls.iter().any(|c| c
            == &format!(
                "sudo useradd --system --gid firecrab --home-dir {} --shell /usr/sbin/nologin firecrab",
                env.datadir
            )),
        "{calls:?}"
    );
    assert!(
        calls
            .iter()
            .any(|c| c == "sudo usermod --append --groups kvm firecrab"),
        "{calls:?}"
    );
}

#[test]
fn directories_use_install_sh_owners_and_modes() {
    let env = rooted_env();
    let mut privileged = Privileged::with_sudo(FakeCommandRunner::permissive(), true);
    ensure_directories(&mut privileged, &env).unwrap();
    let calls = privileged.runner().calls();
    assert!(
        calls.iter().any(|c| c
            == &format!(
                "sudo install -d -o root -g root -m 0755 {} {}",
                env.libdir, env.sharedir
            )),
        "{calls:?}"
    );
    assert!(
        calls.iter().any(
            |c| c.starts_with("sudo install -d -o firecrab -g firecrab -m 0750")
                && c.contains(&format!("{}/images", env.datadir))
                && c.contains(&format!("{}/updates", env.datadir))
        ),
        "{calls:?}"
    );
    assert!(
        calls.iter().any(|c| c
            == &format!(
                "sudo install -d -o root -g firecrab -m 0750 {}",
                env.confdir
            )),
        "{calls:?}"
    );
}

fn payload(dashboard: Option<&str>) -> Payload {
    Payload {
        bin: "/t/payload".to_owned(),
        units: "/t/units".to_owned(),
        extract: "/t/payload".to_owned(),
        dashboard: dashboard.map(str::to_owned),
        license: "/t/LICENSE".to_owned(),
        gpl: "/t/GPL".to_owned(),
        third_party: None,
        inventory: None,
        checkout: None,
    }
}

fn payload_file(path: &str) -> bool {
    [
        "/t/payload/firecrab-api",
        "/t/payload/firecrab-net-helper",
        "/t/payload/firecrab",
        "/t/payload/extract-vmlinux",
        "/t/payload/extract-arm64-image",
        "/t/dash/index.html",
    ]
    .contains(&path)
}

#[test]
fn binaries_land_in_libdir_and_the_cli_in_bindir() {
    let env = rooted_env();
    let mut privileged = Privileged::with_sudo(FakeCommandRunner::permissive(), true);
    install_binaries(
        &mut privileged,
        &env,
        &payload(Some("/t/dash")),
        true,
        &payload_file,
    )
    .unwrap();
    let calls = privileged.runner().calls();
    assert!(
        calls.iter().any(|c| c
            == &format!(
                "sudo install -o root -g root -m 0755 /t/payload/firecrab-api {}/firecrab-api",
                env.libdir
            )),
        "{calls:?}"
    );
    assert!(
        calls.iter().any(|c| c
            == &format!(
                "sudo install -o root -g root -m 0755 /t/payload/firecrab {}/firecrab",
                env.bindir
            )),
        "{calls:?}"
    );
    assert!(
        calls.iter().any(|c| c.contains("extract-vmlinux")),
        "{calls:?}"
    );
    assert!(
        calls
            .iter()
            .any(|c| c.starts_with("sudo cp -r ") && c.contains("dashboard")),
        "{calls:?}"
    );
}

#[test]
fn no_frontend_skips_the_dashboard() {
    let mut privileged = Privileged::with_sudo(FakeCommandRunner::permissive(), true);
    install_binaries(
        &mut privileged,
        &rooted_env(),
        &payload(None),
        false,
        &payload_file,
    )
    .unwrap();
    let calls = privileged.runner().calls();
    assert!(!calls.iter().any(|c| c.contains("dashboard")), "{calls:?}");
}

#[test]
fn a_missing_program_ends_the_installation() {
    let mut privileged = Privileged::with_sudo(FakeCommandRunner::permissive(), true);
    let err = install_binaries(
        &mut privileged,
        &rooted_env(),
        &payload(None),
        false,
        &|_: &str| false,
    )
    .unwrap_err();
    assert!(matches!(err, Error::Step { .. }), "{err:?}");
    assert!(privileged.runner().calls().is_empty());
}

#[test]
fn license_texts_are_installed() {
    let mut with_notices = payload(None);
    with_notices.third_party = Some("/t/NOTICES".to_owned());
    with_notices.inventory = Some("/t/inventory.json".to_owned());
    let mut privileged = Privileged::with_sudo(FakeCommandRunner::permissive(), true);
    install_compliance(&mut privileged, &rooted_env(), &with_notices).unwrap();
    let calls = privileged.runner().calls().join("\n");
    for source in ["/t/LICENSE", "/t/GPL", "/t/NOTICES", "/t/inventory.json"] {
        assert!(calls.contains(source), "{calls}");
    }
}

#[test]
fn config_is_seeded_once_and_then_left_alone() {
    let env = rooted_env();
    let mut privileged = Privileged::with_sudo(FakeCommandRunner::permissive(), true);
    install_config(&mut privileged, &env, &|_: &str| false).unwrap();
    assert_eq!(
        privileged
            .runner()
            .stdin_of(&format!("sudo tee {}/api.env", env.confdir)),
        Some(API_ENV_TEMPLATE.as_bytes().to_vec())
    );

    let mut again = Privileged::with_sudo(FakeCommandRunner::permissive(), true);
    install_config(&mut again, &env, &|path: &str| {
        path == "/t/etc/firecrab/api.env"
    })
    .unwrap();
    let calls = again.runner().calls();
    assert!(!calls.iter().any(|c| c.contains("tee")), "{calls:?}");
}

fn elf(machine: u16) -> Vec<u8> {
    let mut header = vec![0u8; 64];
    header[0..4].copy_from_slice(&[0x7f, b'E', b'L', b'F']);
    header[4] = 2;
    header[5] = 1;
    header[18..20].copy_from_slice(&machine.to_le_bytes());
    header
}

#[test]
fn normalize_tag_resolves_absent_and_latest_to_none_and_prefixes_bare_versions() {
    assert_eq!(normalize_tag(None), None);
    assert_eq!(normalize_tag(Some("latest")), None);
    assert_eq!(normalize_tag(Some("")), None);
    assert_eq!(normalize_tag(Some("0.3.0")), Some("v0.3.0".to_owned()));
    assert_eq!(normalize_tag(Some("v0.3.0")), Some("v0.3.0".to_owned()));
}

#[test]
fn elf_arch_reads_the_machine_field() {
    assert_eq!(elf_arch(&elf(62)), Some("x86_64"));
    assert_eq!(elf_arch(&elf(183)), Some("aarch64"));
    assert_eq!(elf_arch(b"not an elf"), None);
    assert_eq!(elf_arch(&[]), None);
}

#[test]
fn resolve_binary_prefers_the_source_directory_then_the_installed_copy() {
    let installed = |path: &str| path == "/dest/firecrab-api";
    assert_eq!(
        resolve_binary("firecrab-api", Some("/src"), "/dest", &installed),
        Some("/dest/firecrab-api".to_owned())
    );
    let both = |path: &str| path == "/dest/firecrab-api" || path == "/src/firecrab-api";
    assert_eq!(
        resolve_binary("firecrab-api", Some("/src"), "/dest", &both),
        Some("/src/firecrab-api".to_owned())
    );
    assert_eq!(resolve_binary("absent", Some("/src"), "/dest", &both), None);
}

#[test]
fn find_checkout_walks_up_to_the_workspace_root() {
    let files = |path: &str| {
        path == "/root/Cargo.toml" || path == "/root/packaging/systemd/firecrab-api.service"
    };
    assert_eq!(find_checkout("/root/a/b", &files), Some("/root".to_owned()));
    assert_eq!(find_checkout("/elsewhere/c", &files), None);
}

fn checkout_files(bin: &str, dash: Option<&str>) -> Vec<String> {
    let mut files: Vec<String> = vec![
        "/root/LICENSE".to_owned(),
        "/root/licenses/GPL-2.0-only.txt".to_owned(),
    ];
    for name in BUNDLE_BINARIES {
        files.push(format!("{bin}/{name}"));
    }
    if let Some(dash) = dash {
        files.push(format!("{dash}/index.html"));
    }
    files
}

#[test]
fn from_bin_dir_requires_the_binaries_and_units() {
    let bin = "/root/target/release";
    let err = Payload::from_bin_dir(bin, None, "/root", true, &|path: &str| {
        path.starts_with("/root/LICENSE") || path.starts_with("/root/licenses")
    })
    .unwrap_err();
    assert!(
        matches!(
            err,
            Error::Step {
                step: "payload",
                ..
            }
        ),
        "{err:?}"
    );

    let files = checkout_files(bin, Some("/root/firecrab-frontend/dist"));
    let payload = Payload::from_bin_dir(bin, None, "/root", true, &|path: &str| {
        files.iter().any(|f| f == path)
    })
    .unwrap();
    assert_eq!(payload.bin, bin);
    assert_eq!(payload.units, "/root/packaging/systemd");
    assert_eq!(payload.extract, "/root/scripts/firecracker-menual");
    assert_eq!(
        payload.dashboard.as_deref(),
        Some("/root/firecrab-frontend/dist")
    );
    assert_eq!(payload.checkout.as_deref(), Some("/root"));
}

#[test]
fn from_bin_dir_accepts_an_explicit_dashboard_dir() {
    let files = checkout_files("/root/bin", Some("/root/custom-dash"));
    let payload = Payload::from_bin_dir(
        "/root/bin",
        Some("/root/custom-dash"),
        "/root",
        true,
        &|path: &str| files.iter().any(|f| f == path),
    )
    .unwrap();
    assert_eq!(payload.dashboard.as_deref(), Some("/root/custom-dash"));
}

fn bundle(machine: u16, members: &[&str]) -> HashMap<String, Vec<u8>> {
    members
        .iter()
        .map(|m| (format!("/b/{m}"), elf(machine)))
        .collect()
}

fn bundle_verdict(files: &HashMap<String, Vec<u8>>) -> Result<(), Error> {
    verify_bundle_members(
        "/b",
        "x86_64",
        &|path: &str| files.contains_key(path),
        &|path: &str| files.get(path).cloned().ok_or_else(|| "absent".to_owned()),
    )
}

#[test]
fn verify_bundle_members_rejects_a_missing_binary() {
    let files = bundle(
        62,
        &["LICENSE", "licenses/GPL-2.0-only.txt", "firecrab-api"],
    );
    let err = bundle_verdict(&files).unwrap_err().message();
    assert!(err.contains("firecrab-net-helper"), "{err}");
}

#[test]
fn verify_bundle_members_rejects_a_foreign_architecture() {
    let mut members = vec![
        "LICENSE",
        "THIRD_PARTY_NOTICES.txt",
        "release-license-inventory.json",
        "licenses/GPL-2.0-only.txt",
    ];
    members.extend(BUNDLE_BINARIES);
    let err = bundle_verdict(&bundle(183, &members)).unwrap_err().message();
    assert!(err.contains("x86_64"), "{err}");
}

const ABC_SHA256: &str = "ba7816bf8f01cfea414140de5dae2223b00361a396177a9cb410ff61f20015ad";

/// Unpacks an archive that holds `abc`, with all members of a release below `/b`.
fn release(fake: &mut FakeCommandRunner, expected: Option<&str>) -> Result<Payload, Error> {
    let mut members = vec![
        "LICENSE",
        "THIRD_PARTY_NOTICES.txt",
        "release-license-inventory.json",
        "licenses/GPL-2.0-only.txt",
    ];
    members.extend(BUNDLE_BINARIES);
    let mut files = bundle(62, &members);
    files.insert("/d/a.tar.gz".to_owned(), b"abc".to_vec());
    Payload::from_release(
        fake,
        "a.tar.gz",
        expected,
        "/d/a.tar.gz",
        "/b",
        "x86_64",
        &|path: &str| files.contains_key(path),
        &|path: &str| files.get(path).cloned().ok_or_else(|| "absent".to_owned()),
    )
}

#[test]
fn a_release_is_unpacked_and_checked() {
    let mut fake = FakeCommandRunner::permissive();
    let payload = release(&mut fake, Some(ABC_SHA256)).unwrap();
    assert_eq!(payload.units, "/b/systemd");
    assert_eq!(fake.calls(), vec!["tar -xzf /d/a.tar.gz -C /b"]);

    let mut fake = FakeCommandRunner::new();
    fake.set("tar", &["-xzf", "/d/a.tar.gz", "-C", "/b"], 2, "", "broken\n");
    let err = release(&mut fake, Some(ABC_SHA256)).unwrap_err();
    assert_eq!(err.message(), "payload: tar failed: broken");
}

#[test]
fn an_archive_that_is_not_the_one_listed_is_not_unpacked() {
    for expected in [None, Some("abd")] {
        let mut fake = FakeCommandRunner::permissive();
        assert!(release(&mut fake, expected).is_err());
        assert!(fake.calls().is_empty());
    }
}

#[test]
fn a_checksum_must_be_listed_and_right() {
    assert!(verify_checksum("a.tgz", Some("abc"), "abc").is_ok());
    let err = verify_checksum("a.tgz", None, "abc").unwrap_err().message();
    assert_eq!(err, "payload: a.tgz is not listed in SHA256SUMS");
    let err = verify_checksum("a.tgz", Some("abd"), "abc")
        .unwrap_err()
        .message();
    assert_eq!(
        err,
        "payload: checksum mismatch for a.tgz: expected abd, got abc"
    );
}

#[test]
fn install_units_writes_both_units_and_reloads() {
    let env = rooted_env();
    let mut fake = FakeCommandRunner::permissive();
    fake.set("id", &["-u", "firecrab"], 0, "900\n", "");
    let mut privileged = Privileged::with_sudo(fake, true);
    install_units(&mut privileged, &env, &payload(None), &|path: &str| {
        if UNITS.iter().any(|unit| path == format!("/t/units/{unit}")) {
            Ok("User=@FIRECRAB_USER@\nExecStart=@LIBDIR@/x\nUid=@FIRECRAB_UID@\n".to_owned())
        } else {
            Err("absent".to_owned())
        }
    })
    .unwrap();
    let calls = privileged.runner().calls();
    for unit in UNITS {
        let line = format!("sudo tee {}", env.unit_path(unit));
        assert!(calls.contains(&line), "{calls:?}");
        let written = privileged.runner().stdin_of(&line).unwrap();
        assert_eq!(
            String::from_utf8_lossy(&written),
            format!("User=firecrab\nExecStart={}/x\nUid=900\n", env.libdir)
        );
    }
    assert!(
        calls.iter().any(|c| c == "sudo systemctl daemon-reload"),
        "{calls:?}"
    );
}

fn carry_out(command: &Command, installed: bool) -> (Result<(), Error>, Vec<String>) {
    let mut fake = FakeCommandRunner::permissive();
    for unit in UNITS {
        fake.set_seq(
            "systemctl",
            &["is-active", unit],
            &[(3, "inactive\n", ""), (0, "active\n", "")],
        );
    }
    let mut privileged = Privileged::with_sudo(fake, true);
    let result = run(
        &mut privileged,
        &rooted_env(),
        "127.0.0.1:5523",
        command,
        &|_: &str| installed,
        &|_: &str| false,
        &|| false,
        &mut Scripted::new(vec![true]),
    );
    (result, privileged.runner().calls())
}

#[test]
fn services_must_be_installed_to_be_controlled() {
    let (result, calls) = carry_out(&Command::Restart, false);
    assert!(matches!(result, Err(Error::NotInstalled)));
    assert!(calls.is_empty());

    let (result, calls) = carry_out(&Command::Restart, true);
    result.unwrap();
    assert_eq!(calls[0], "sudo -n true");
    let stop = calls.iter().position(|c| c.contains("systemctl stop"));
    let start = calls.iter().position(|c| c.contains("systemctl start"));
    assert!(stop.unwrap() < start.unwrap(), "{calls:?}");
}
