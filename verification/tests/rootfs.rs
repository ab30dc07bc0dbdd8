//! The disk of a VM, on a host in memory whose `debugfs` works on a map of files.

use firecrab::rootfs::disk::{prepare_rootfs, DiskPaths};
use firecrab::rootfs::guest::{
    dump_from_image, install_guest_fastfetch, ipv6_sysctl_conf, specialize_guest,
    write_into_image, GuestProfile, NETWORK_READY_OPENRC_PATH,
    NETWORK_READY_OPENRC_RUNLEVEL_PATH, NETWORK_READY_SCRIPT_PATH, NETWORK_READY_UNIT_PATH,
    NETWORK_READY_UNIT_WANTS_PATH,
};
use firecrab::rootfs::{default_vms_dir, Answer, Progress, RootfsError, Task};
use std::collections::BTreeMap;

const ROOTFS: &str = "/vms/a/disks/g.ext4";

#[derive(Clone, Debug, PartialEq)]
enum Node {
    Directory,
    File(Vec<u8>),
    Link(String),
}

/// The host's files, and the guest's within the disk.
#[derive(Clone)]
struct Host {
    files: BTreeMap<String, Vec<u8>>,
    guest: BTreeMap<String, Node>,
    modes: BTreeMap<String, String>,
    template: Option<Vec<u8>>,
    clones: bool,
    fsck: i32,
    env: Vec<(String, String)>,
    commands: Vec<String>,
}

impl Host {
    fn new() -> Self {
        let mut host = Host {
            files: BTreeMap::from([(ROOTFS.to_owned(), vec![0; 64])]),
            guest: BTreeMap::new(),
            modes: BTreeMap::new(),
            template: Some(b"template-bytes".to_vec()),
            clones: false,
            fsck: 0,
            env: Vec::new(),
            commands: Vec::new(),
        };
        for dir in ["/etc", "/etc/ssh", "/var", "/var/lib", "/var/lib/systemd"] {
            host.mkdir(dir);
        }
        host
    }

    fn mkdir(&mut self, path: &str) {
        self.guest.entry(path.to_owned()).or_insert(Node::Directory);
    }

    fn put(&mut self, path: &str, bytes: &[u8]) {
        self.guest
            .insert(path.to_owned(), Node::File(bytes.to_vec()));
    }

    fn cat(&self, path: &str) -> String {
        match self.guest.get(path) {
            Some(Node::File(bytes)) => String::from_utf8(bytes.clone()).unwrap(),
            _ => String::new(),
        }
    }

    fn parent_there(&self, path: &str) -> bool {
        let parent = &path[..path.rfind('/').unwrap()];
        parent.is_empty() || self.guest.get(parent) == Some(&Node::Directory)
    }

    fn debugfs(&mut self, command: &str) -> (String, String) {
        self.commands.push(command.to_owned());
        let words: Vec<&str> = command.split(' ').collect();
        let missing = || {
            (
                String::new(),
                format!("{}: File not found by ext2_lookup", words[1]),
            )
        };
        match words[0] {
            "stat" => match self.guest.get(words[1]) {
                Some(_) => ("Inode: 12".to_owned(), String::new()),
                None => missing(),
            },
            "mkdir" if self.parent_there(words[1]) => {
                self.mkdir(words[1]);
                (String::new(), String::new())
            }
            "rm" => match self.guest.get(words[1]) {
                Some(Node::Directory) | None => missing(),
                Some(_) => {
                    self.guest.remove(words[1]);
                    (String::new(), String::new())
                }
            },
            "write" if self.parent_there(words[2]) && !self.guest.contains_key(words[2]) => {
                let bytes = self.files[words[1]].clone();
                self.put(words[2], &bytes);
                ("Allocated inode: 13".to_owned(), String::new())
            }
            "symlink" if self.parent_there(words[1]) => {
                self.guest
                    .insert(words[1].to_owned(), Node::Link(words[2].to_owned()));
                (String::new(), String::new())
            }
            "dump" => match self.guest.get(words[1]) {
                Some(Node::File(bytes)) => {
                    let bytes = bytes.clone();
                    self.files.insert(words[2].to_owned(), bytes);
                    (String::new(), String::new())
                }
                _ => missing(),
            },
            "set_inode_field" => {
                self.modes.insert(words[1].to_owned(), words[3].to_owned());
                (String::new(), String::new())
            }
            _ => missing(),
        }
    }

    fn ran(code: i32, stdout: &str, stderr: &str) -> Answer {
        Answer::Ran {
            code: Some(code),
            status: format!("exit status: {code}"),
            stdout: stdout.as_bytes().to_vec(),
            stderr: stderr.as_bytes().to_vec(),
        }
    }

    fn answer(&mut self, task: &Task) -> Answer {
        match task {
            Task::Run { program, args } => {
                assert_eq!(args.last().unwrap(), ROOTFS);
                match *program {
                    "debugfs" => {
                        assert_eq!(args[..2], ["-w", "-R"]);
                        let (stdout, stderr) = self.debugfs(&args[2].clone());
                        Host::ran(0, &stdout, &stderr)
                    }
                    "e2fsck" => Host::ran(self.fsck, "", "bad magic number"),
                    "resize2fs" => Host::ran(0, "", ""),
                    other => panic!("{other}"),
                }
            }
            Task::Write { path, bytes } => {
                self.files.insert(path.clone(), bytes.clone());
                Answer::Done
            }
            Task::ReadText { path } => match self.files.get(path) {
                Some(bytes) => match String::from_utf8(bytes.clone()) {
                    Ok(text) => Answer::Text(text),
                    Err(_) => Answer::Failed("stream did not contain valid UTF-8".to_owned()),
                },
                None => Answer::NotFound,
            },
            Task::Length { path } => match self.files.get(path) {
                Some(bytes) => Answer::Length(bytes.len() as u64),
                None => Answer::NotFound,
            },
            Task::Remove { path } => {
                self.files.remove(path);
                Answer::Done
            }
            Task::SetLength { path, length } => {
                self.files
                    .get_mut(path)
                    .unwrap()
                    .resize(*length as usize, 0);
                Answer::Done
            }
            Task::MakeDirectories { .. } => Answer::Done,
            Task::Create { path } => {
                self.files.insert(path.clone(), Vec::new());
                Answer::Done
            }
            Task::Clone { path } | Task::CopyBytes { path } => {
                if matches!(task, Task::Clone { .. }) && !self.clones {
                    return Answer::Failed("operation not supported".to_owned());
                }
                match &self.template {
                    Some(bytes) => {
                        self.files.insert(path.clone(), bytes.clone());
                        Answer::Done
                    }
                    None => Answer::Failed("bad file descriptor".to_owned()),
                }
            }
            Task::Sync { .. } => Answer::Done,
            Task::Rename { from, to } => {
                let bytes = self.files.remove(from).unwrap();
                self.files.insert(to.clone(), bytes);
                Answer::Done
            }
            Task::RewriteEnv { script } => {
                let mark = "# >>> firecrab vm env\n. /etc/firecrab/vm.env\n# <<< firecrab vm env\n";
                let bare = script.replace(mark, "");
                Answer::Text(if self.env.is_empty() {
                    bare
                } else {
                    bare.replace("exec ", &format!("{mark}exec "))
                })
            }
        }
    }

    fn drive<T>(
        &mut self,
        operation: impl Fn(Vec<Answer>) -> Progress<T>,
    ) -> (Result<T, RootfsError>, Vec<Task>) {
        let mut answers: Vec<Answer> = Vec::new();
        let mut tasks = Vec::new();
        loop {
            match operation(answers.clone()) {
                Progress::Ask(task) => {
                    answers.push(self.answer(&task));
                    tasks.push(task);
                }
                Progress::Over(result) => return (result, tasks),
            }
        }
    }

    fn env_file(&self) -> String {
        self.env
            .iter()
            .map(|(k, v)| format!("export {k}='{v}'\n"))
            .collect()
    }

    fn specialize(&mut self) -> Result<(), RootfsError> {
        let profile = GuestProfile {
            hostname: "fc-1234".to_owned(),
            motd: "welcome\n".to_owned(),
            agent: "/usr/local/sbin/firecrab-agent.sh".to_owned(),
            env_path: "/etc/firecrab/vm.env".to_owned(),
            env_file: self.env_file(),
            kick_systemd: "kick-systemd\n".to_owned(),
            kick_openrc: "kick-openrc\n".to_owned(),
        };
        self.drive(|answers| specialize_guest(ROOTFS, &profile, answers))
            .0
    }

    fn write(&mut self, path: &str, bytes: &[u8]) {
        self.drive(|answers| write_into_image(ROOTFS, path, bytes.to_vec(), answers))
            .0
            .unwrap();
    }
}

fn paths() -> DiskPaths {
    DiskPaths {
        dir: "/vms/a".to_owned(),
        rootfs: ROOTFS.to_owned(),
        rootfs_tmp: "/vms/a/disks/g.ext4.tmp".to_owned(),
    }
}

fn prepare(host: &mut Host, target: u64) -> (Result<String, RootfsError>, Vec<Task>) {
    host.drive(|answers| prepare_rootfs(&paths(), target, answers))
}

#[test]
fn the_guest_ipv6_sysctl_pins_the_address_the_api_stored() {
    let conf = ipv6_sysctl_conf();
    assert!(conf.contains("net.ipv6.conf.default.addr_gen_mode = 0"));
    assert!(conf.contains("net.ipv6.conf.eth0.addr_gen_mode = 0"));
    assert!(conf.contains("net.ipv6.conf.eth0.use_tempaddr = 0"));
    assert!(conf.contains("net.ipv6.conf.eth0.accept_ra = 2"));
    assert_eq!(default_vms_dir(), "data/vms");
}

#[test]
fn copies_template_into_place() {
    let mut host = Host::new();
    host.files.clear();
    let (rootfs, _) = prepare(&mut host, "template-bytes".len() as u64);
    assert_eq!(rootfs.unwrap(), ROOTFS);
    assert_eq!(
        host.files,
        BTreeMap::from([(ROOTFS.to_owned(), b"template-bytes".to_vec())])
    );
}

#[test]
fn prepare_reports_an_unusable_artifact_directory() {
    match prepare_rootfs(&paths(), 16, vec![Answer::Failed("not a directory".to_owned())]) {
        Progress::Over(Err(error)) => {
            assert!(matches!(&error, RootfsError::CreateDirectory { path, .. } if path == "/vms/a"));
            assert_eq!(
                error.message(),
                "failed to create VM directory /vms/a: not a directory"
            );
        }
        other => panic!("{other:?}"),
    }
}

#[test]
fn a_fresh_copy_that_fails_to_grow_is_removed() {
    let mut host = Host::new();
    host.files.clear();
    host.fsck = 8;
    let (result, _) = prepare(&mut host, 8 * 1024);
    assert!(matches!(result, Err(RootfsError::ResizeFailed { tool: "e2fsck", .. })));
    assert!(host.files.is_empty());
}

#[test]
fn reuses_an_existing_rootfs_without_recopying() {
    let mut host = Host::new();
    host.files
        .insert(ROOTFS.to_owned(), b"existing-disk".to_vec());
    let (rootfs, tasks) = prepare(&mut host, "existing-disk".len() as u64);
    assert_eq!(rootfs.unwrap(), ROOTFS);
    assert_eq!(host.files[ROOTFS], b"existing-disk");
    assert_eq!(tasks.len(), 3, "{tasks:?}");
}

#[test]
fn failed_copy_leaves_no_tmp_file() {
    let mut host = Host::new();
    host.files.clear();
    host.template = None;
    let (result, _) = prepare(&mut host, 0);
    assert!(matches!(result, Err(RootfsError::Copy { .. })));
    assert!(host.files.is_empty());
}

#[test]
fn falls_back_to_a_byte_copy_when_the_filesystem_cannot_clone() {
    let mut host = Host::new();
    host.files.clear();
    let (result, tasks) = prepare(&mut host, 0);
    result.unwrap();
    assert!(tasks.iter().any(|t| matches!(t, Task::CopyBytes { .. })));
}

#[test]
fn skips_the_byte_copy_when_the_clone_succeeds() {
    let mut host = Host::new();
    host.files.clear();
    host.clones = true;
    let (result, tasks) = prepare(&mut host, 0);
    result.unwrap();
    assert!(!tasks.iter().any(|t| matches!(t, Task::CopyBytes { .. })));
}

#[test]
fn growing_an_already_existing_disk_is_applied_on_the_next_call() {
    let mut host = Host::new();
    host.files.clear();
    host.fsck = 1;
    let initial = b"template-bytes".len() as u64;
    let (first, tasks) = prepare(&mut host, initial);
    let first = first.unwrap();
    assert_eq!(host.files[&first].len() as u64, initial);
    assert!(!tasks.iter().any(|t| matches!(t, Task::Run { .. })));

    let (second, tasks) = prepare(&mut host, 3 * initial);
    let second = second.unwrap();
    assert_eq!(second, first);
    assert_eq!(host.files[&second].len() as u64, 3 * initial);
    let programs: Vec<&str> = tasks
        .iter()
        .filter_map(|t| match t {
            Task::Run { program, .. } => Some(*program),
            _ => None,
        })
        .collect();
    assert_eq!(programs, vec!["e2fsck", "resize2fs"]);
}

#[test]
fn failed_resize_restores_the_original_file_length_so_a_retry_redoes_it() {
    let mut host = Host::new();
    host.fsck = 8;
    let (result, _) = prepare(&mut host, 256);
    assert_eq!(
        result.unwrap_err().message(),
        "'e2fsck' reported a failure while resizing rootfs at /vms/a/disks/g.ext4: bad magic number"
    );
    assert_eq!(host.files[ROOTFS].len(), 64);
}

#[test]
fn specialize_guest_writes_the_deterministic_hostname() {
    let mut host = Host::new();
    host.specialize().unwrap();
    assert_eq!(host.cat("/etc/hostname"), "fc-1234\n");
    assert_eq!(
        host.files.keys().collect::<Vec<_>>(),
        vec![ROOTFS],
        "nothing is left beside the disk"
    );
}

#[test]
fn specialize_guest_installs_the_firecrab_motd() {
    let mut host = Host::new();
    host.specialize().unwrap();
    assert_eq!(host.cat("/etc/motd"), "welcome\n");
}

#[test]
fn specialize_guest_rewrites_an_oci_console_wrapper() {
    let mut host = Host::new();
    host.mkdir("/etc/firecrab");
    host.specialize().unwrap();
    let inittab = host.cat("/etc/inittab");
    assert!(inittab.contains("rc.console"), "{inittab}");
    let console = host.cat("/etc/firecrab/rc.console");
    assert!(console.contains("cat /etc/motd"), "{console}");
    assert!(console.contains("fastfetch"), "{console}");
    assert_eq!(host.modes["/etc/firecrab/rc.boot"], "0100755");
}

#[test]
fn specialize_guest_puts_busybox_applets_on_path() {
    let mut host = Host::new();
    host.mkdir("/etc/firecrab");
    host.put("/etc/firecrab/busybox", b"busybox");
    host.specialize().unwrap();
    assert_eq!(
        host.guest.get("/bin/ping"),
        Some(&Node::Link("/etc/firecrab/busybox".to_owned()))
    );
    assert!(!host.guest.contains_key("/bin/sudo"));
    assert!(!host.guest.contains_key("/usr/local/bin/systemctl"));
    assert!(host
        .cat("/etc/profile.d/firecrab-locale.sh")
        .contains("C.UTF-8"));
    assert!(host.cat("/etc/default/locale").contains("C.UTF-8"));
}

#[test]
fn specialize_guest_removes_an_injected_systemctl_shim() {
    let mut host = Host::new();
    for dir in ["/usr", "/usr/local", "/usr/local/bin", "/usr/bin", "/bin"] {
        host.mkdir(dir);
    }
    let shim = b"#!/bin/sh\n# Firecrab systemctl (public-docs/oci.md). Not systemd.\n";
    host.put("/usr/local/bin/systemctl", shim);
    host.put("/bin/systemctl", shim);
    host.put("/usr/bin/systemctl", b"the real one");
    host.specialize().unwrap();
    assert!(!host.guest.contains_key("/usr/local/bin/systemctl"));
    assert!(!host.guest.contains_key("/bin/systemctl"));
    assert_eq!(host.cat("/usr/bin/systemctl"), "the real one");
}

fn fastfetch(host: &mut Host) {
    host.drive(|answers| {
        install_guest_fastfetch(
            ROOTFS,
            &["/lib/ld-linux-aarch64.so.1", "/lib64/ld-linux-x86-64.so.2"],
            "/usr/bin/fastfetch",
            Some(b"fastfetch-bytes".to_vec()),
            answers,
        )
    })
    .0
    .unwrap();
}

#[test]
fn install_guest_fastfetch_copies_the_program_into_a_glibc_disk() {
    let mut host = Host::new();
    for dir in ["/lib64", "/usr", "/usr/bin"] {
        host.mkdir(dir);
    }
    host.put("/lib64/ld-linux-x86-64.so.2", b"ldso");
    fastfetch(&mut host);
    assert_eq!(host.cat("/usr/bin/fastfetch"), "fastfetch-bytes");
    assert_eq!(host.modes["/usr/bin/fastfetch"], "0100755");
}

#[test]
fn install_guest_fastfetch_skips_a_disk_without_glibc() {
    let mut host = Host::new();
    host.mkdir("/usr");
    host.mkdir("/usr/bin");
    fastfetch(&mut host);
    assert!(!host.guest.contains_key("/usr/bin/fastfetch"));
}

#[test]
fn specialize_guest_points_serial_console_at_agetty() {
    let mut host = Host::new();
    for dir in ["/etc/firecrab", "/usr", "/usr/sbin", "/bin"] {
        host.mkdir(dir);
    }
    host.put("/usr/sbin/agetty", b"agetty");
    host.put("/bin/bash", b"bash");
    host.put("/etc/passwd", b"root:x:0:0:root:/root:/bin/sh\n");
    host.specialize().unwrap();
    let inittab = host.cat("/etc/inittab");
    assert!(
        inittab.contains("ttyS0::respawn:/usr/sbin/agetty"),
        "{inittab}"
    );
    let passwd = host.cat("/etc/passwd");
    assert!(
        passwd.contains("root:x:0:0:root:/root:/bin/bash"),
        "{passwd}"
    );
}

#[test]
fn specialize_guest_recovers_an_unclean_ext4_before_offline_writes() {
    let mut host = Host::new();
    host.fsck = 1;
    host.specialize().unwrap();
    assert_eq!(host.cat("/etc/hostname"), "fc-1234\n");

    let mut host = Host::new();
    host.fsck = 4;
    let before = host.guest.clone();
    assert_eq!(
        host.specialize().unwrap_err().message(),
        "e2fsck could not safely recover rootfs at /vms/a/disks/g.ext4: bad magic number"
    );
    assert_eq!(host.guest, before);
    assert!(host.commands.is_empty());
}

#[test]
fn specialize_guest_strips_ssh_host_keys_and_random_seed() {
    let mut host = Host::new();
    for path in ["/etc/ssh/ssh_host_rsa_key", "/var/lib/systemd/random-seed"] {
        host.put(path, b"template-shared-secret");
    }
    host.specialize().unwrap();
    for path in ["/etc/ssh/ssh_host_rsa_key", "/var/lib/systemd/random-seed"] {
        assert_eq!(host.cat(path), "", "{path} should have been stripped");
    }
}

#[test]
fn specialize_guest_is_idempotent() {
    let mut host = Host::new();
    host.mkdir("/etc/firecrab");
    host.put("/etc/firecrab/busybox", b"busybox");
    host.specialize().unwrap();
    let once = host.guest.clone();
    host.specialize().unwrap();
    assert_eq!(host.guest, once);
    assert_eq!(host.cat("/etc/hostname"), "fc-1234\n");
}

#[test]
fn specialize_guest_tolerates_a_distro_missing_some_strip_paths() {
    let mut host = Host::new();
    host.guest.clear();
    host.mkdir("/etc");
    host.specialize().unwrap();
}

fn with_usr_local(host: &mut Host, systemd: bool) {
    for dir in ["/usr", "/usr/local", "/usr/local/sbin"] {
        host.mkdir(dir);
    }
    if systemd {
        for dir in [
            "/etc/systemd",
            "/etc/systemd/system",
            "/etc/systemd/system/multi-user.target.wants",
        ] {
            host.mkdir(dir);
        }
    }
}

#[test]
fn specialize_guest_patches_an_existing_systemd_network_ready_script() {
    let mut host = Host::new();
    with_usr_local(&mut host, false);
    host.write(
        NETWORK_READY_SCRIPT_PATH,
        b"#!/bin/sh\necho stale placeholder\n",
    );
    host.specialize().unwrap();
    let script = host.cat(NETWORK_READY_SCRIPT_PATH);
    assert!(script.contains("FIRECRAB_NETWORK_READY"), "{script}");
    assert!(script.starts_with("#!/bin/sh\nset -eu\n\nkick-systemd\n"));
    assert!(!script.contains("stale placeholder"), "{script}");
    assert!(!host.guest.contains_key(NETWORK_READY_UNIT_PATH));
    assert_eq!(host.modes[NETWORK_READY_SCRIPT_PATH], "0100755");
}

#[test]
fn specialize_guest_repairs_a_stale_disks_missing_network_ready_unit() {
    let mut host = Host::new();
    with_usr_local(&mut host, true);
    host.write(
        NETWORK_READY_SCRIPT_PATH,
        b"#!/bin/sh\necho stale placeholder\n",
    );
    host.specialize().unwrap();
    let unit = host.cat(NETWORK_READY_UNIT_PATH);
    assert!(
        unit.contains("ExecStart=/usr/local/sbin/firecrab-network-ready.sh"),
        "{unit}"
    );
    assert!(
        host.guest.contains_key(NETWORK_READY_UNIT_WANTS_PATH),
        "unit must be (re)enabled, not just (re)written"
    );
}

#[test]
fn specialize_guest_does_not_disturb_an_already_enabled_network_ready_unit() {
    let mut host = Host::new();
    with_usr_local(&mut host, true);
    host.write(
        NETWORK_READY_SCRIPT_PATH,
        b"#!/bin/sh\necho stale placeholder\n",
    );
    host.write(
        NETWORK_READY_UNIT_PATH,
        b"[Unit]\nDescription=the image's own unit\n",
    );
    host.guest.insert(
        NETWORK_READY_UNIT_WANTS_PATH.to_owned(),
        Node::Link(NETWORK_READY_UNIT_PATH.to_owned()),
    );
    host.specialize().unwrap();
    let unit = host.cat(NETWORK_READY_UNIT_PATH);
    assert!(unit.contains("the image's own unit"), "{unit}");
}

#[test]
fn specialize_guest_installs_a_systemd_network_ready_fallback_when_the_image_shipped_none() {
    let mut host = Host::new();
    with_usr_local(&mut host, true);
    host.specialize().unwrap();
    let script = host.cat(NETWORK_READY_SCRIPT_PATH);
    assert!(script.contains("FIRECRAB_NETWORK_READY"), "{script}");
    assert!(script.contains("FIRECRAB_NETWORK_FAILED"), "{script}");
    let unit = host.cat(NETWORK_READY_UNIT_PATH);
    assert!(
        unit.contains("ExecStart=/usr/local/sbin/firecrab-network-ready.sh"),
        "{unit}"
    );
    assert!(unit.contains("WantedBy=multi-user.target"), "{unit}");
    assert!(
        host.guest.contains_key(NETWORK_READY_UNIT_WANTS_PATH),
        "unit must be enabled, not just written"
    );
}

#[test]
fn specialize_guest_installs_an_openrc_network_ready_fallback_when_the_image_shipped_none() {
    let mut host = Host::new();
    with_usr_local(&mut host, false);
    for dir in ["/etc/init.d", "/etc/runlevels", "/etc/runlevels/default"] {
        host.mkdir(dir);
    }
    host.specialize().unwrap();
    let script = host.cat(NETWORK_READY_OPENRC_PATH);
    assert!(script.contains("openrc-run"), "{script}");
    assert!(script.contains("kick-openrc") && script.ends_with("}\n"));
    assert!(
        host.guest.contains_key(NETWORK_READY_OPENRC_RUNLEVEL_PATH),
        "service must be enabled in the default runlevel, not just written"
    );
}

#[test]
fn a_directory_that_cannot_be_made_is_reported() {
    let mut host = Host::new();
    host.mkdir("/usr");
    // A file where the directory would go keeps debugfs from making it.
    host.put("/usr/local", b"x");
    let error = host.specialize().unwrap_err().message();
    assert!(
        error.ends_with("debugfs failed to create /usr/local/sbin for network-ready fallback"),
        "{error}"
    );
}

fn with_service(host: &mut Host) {
    host.mkdir("/etc/firecrab");
    host.mkdir("/etc/firecrab/services.d");
    host.write(
        "/etc/firecrab/services.d/app",
        b"#!/bin/sh\n\
          # Firecrab service for the imported image entrypoint (public-docs/oci.md).\n\
          export PATH='/usr/bin'\n\
          export APP_ENV='prod'\n\
          exec '/bin/app'\n",
    );
}

#[test]
fn specialize_guest_writes_vm_env_when_services_d_app_exists() {
    let mut host = Host::new();
    with_service(&mut host);
    host.env = vec![
        ("APP_NAME".to_owned(), "web".to_owned()),
        ("FOO".to_owned(), "bar".to_owned()),
    ];
    host.specialize().unwrap();
    let script = host.cat("/etc/firecrab/services.d/app");
    assert!(script.contains("export PATH='/usr/bin'"), "{script}");
    assert!(script.contains("export APP_ENV='prod'"), "{script}");
    assert!(
        script.contains(
            "# >>> firecrab vm env\n\
             . /etc/firecrab/vm.env\n\
             # <<< firecrab vm env\n\
             exec '/bin/app'\n"
        ),
        "{script}"
    );
    let sidecar = host.cat("/etc/firecrab/vm.env");
    assert!(sidecar.contains("export APP_NAME='web'"), "{sidecar}");
    assert!(sidecar.contains("export FOO='bar'"), "{sidecar}");
    assert_eq!(host.modes["/etc/firecrab/vm.env"], "0100644");
}

#[test]
fn specialize_guest_is_a_noop_when_services_d_app_is_missing() {
    let mut host = Host::new();
    host.env = vec![("FOO".to_owned(), "bar".to_owned())];
    host.specialize().unwrap();
    assert!(!host.guest.contains_key("/etc/firecrab/services.d/app"));
}

#[test]
fn specialize_guest_vm_env_apply_three_times_is_identical() {
    let mut host = Host::new();
    with_service(&mut host);
    host.env = vec![("FOO".to_owned(), "bar".to_owned())];
    host.specialize().unwrap();
    let first = host.guest.clone();
    host.specialize().unwrap();
    assert_eq!(host.guest, first);
    host.specialize().unwrap();
    assert_eq!(host.guest, first);
    let script = host.cat("/etc/firecrab/services.d/app");
    assert!(script.contains(". /etc/firecrab/vm.env"), "{script}");
    assert!(script.contains("exec '/bin/app'"), "{script}");
    assert_eq!(host.cat("/etc/firecrab/vm.env"), host.env_file());
}

#[test]
fn specialize_guest_empty_env_keeps_image_exports_and_exec() {
    let mut host = Host::new();
    with_service(&mut host);
    host.specialize().unwrap();
    let script = host.cat("/etc/firecrab/services.d/app");
    assert!(!script.contains("firecrab vm env"), "{script}");
    assert!(script.contains("export PATH='/usr/bin'"), "{script}");
    assert!(script.contains("exec '/bin/app'"), "{script}");
}

#[test]
fn specialize_guest_rejects_non_utf8_services_d_app() {
    let mut host = Host::new();
    with_service(&mut host);
    host.write("/etc/firecrab/services.d/app", b"\xff\xfe not utf-8");
    host.env = vec![("FOO".to_owned(), "bar".to_owned())];
    let message = host.specialize().unwrap_err().message();
    assert!(
        message.contains("failed to read /etc/firecrab/services.d/app"),
        "{message}"
    );
}

#[test]
fn dump_from_image_extracts_a_file_written_earlier() {
    let mut host = Host::new();
    host.write("/etc/payload", b"hello from the guest disk\n");
    host.drive(|answers| dump_from_image(ROOTFS, "/etc/payload", "/out", answers))
        .0
        .unwrap();
    assert_eq!(host.files["/out"], b"hello from the guest disk\n");
}

#[test]
fn dump_from_image_fails_clearly_for_a_missing_guest_path() {
    let mut host = Host::new();
    let (result, _) =
        host.drive(|answers| dump_from_image(ROOTFS, "/etc/does-not-exist", "/out", answers));
    let message = result.unwrap_err().message();
    assert!(
        message.contains("debugfs did not produce a non-empty /out for /etc/does-not-exist"),
        "{message}"
    );
}
