//! Injecting a guest runtime into a tree, on a file system in memory.

use firecrab::oci::provision::{
    applet_link_path, applet_on_path, boot_script, inittab, inject_blocking, rewrite_root_shell,
    Answer, GuestParts, Progress, Request, Undo, BASE_PACKAGE_INSTALL, GUEST_TOOLBOX,
};
use firecrab::oci::{GuestPathViolation, ResolveError};
use std::collections::BTreeMap;

#[derive(Clone, Debug, PartialEq)]
enum Node {
    Directory(u32),
    File(u32, Vec<u8>),
    Link(String),
}

/// A file system in which a directory without the owner's leave cannot be written to.
#[derive(Clone)]
struct Memory {
    nodes: BTreeMap<String, Node>,
}

impl Memory {
    fn new() -> Self {
        let mut memory = Memory {
            nodes: BTreeMap::new(),
        };
        memory.dir("/tree", 0o755);
        memory.nodes.insert(
            "/host-busybox".to_owned(),
            Node::File(0o755, b"toolbox".to_vec()),
        );
        memory.nodes.insert(
            "/host-fastfetch".to_owned(),
            Node::File(0o755, b"fastfetch".to_vec()),
        );
        memory
    }

    fn dir(&mut self, path: &str, mode: u32) -> &mut Self {
        self.nodes.insert(path.to_owned(), Node::Directory(mode));
        self
    }

    fn file(&mut self, path: &str, bytes: &[u8]) -> &mut Self {
        self.nodes
            .insert(path.to_owned(), Node::File(0o644, bytes.to_vec()));
        self
    }

    fn link(&mut self, path: &str, target: &str) -> &mut Self {
        self.nodes
            .insert(path.to_owned(), Node::Link(target.to_owned()));
        self
    }

    /// Where a path leads, with every link on the way followed, and the last one too where
    /// `last` says so.
    fn resolve(&self, path: &str, last: bool) -> Option<String> {
        let mut rest: Vec<String> = path
            .split('/')
            .rev()
            .filter(|p| !p.is_empty())
            .map(str::to_owned)
            .collect();
        let mut at = String::new();
        let mut hops = 0;
        while let Some(name) = rest.pop() {
            if name == "." {
                continue;
            }
            if name == ".." {
                at.truncate(at.rfind('/').unwrap_or(0));
                continue;
            }
            let next = format!("{at}/{name}");
            match self.nodes.get(&next) {
                Some(Node::Link(target)) if last || !rest.is_empty() => {
                    hops += 1;
                    if hops > 60 {
                        return None;
                    }
                    if target.starts_with('/') {
                        at = String::new();
                    }
                    rest.extend(
                        target
                            .split('/')
                            .rev()
                            .filter(|p| !p.is_empty())
                            .map(str::to_owned),
                    );
                }
                _ => at = next,
            }
        }
        Some(at)
    }

    fn lookup(&self, path: &str, last: bool) -> Option<&Node> {
        self.nodes.get(&self.resolve(path, last)?)
    }

    fn parent_writable(&self, place: &str) -> bool {
        let parent = &place[..place.rfind('/').unwrap_or(0)];
        parent.is_empty()
            || matches!(self.nodes.get(parent), Some(Node::Directory(mode)) if mode & 0o200 != 0)
    }

    fn make(&mut self, path: &str, node: Node) -> Answer {
        let Some(place) = self.resolve(path, false) else {
            return Answer::Failed("too many links".to_owned());
        };
        if !self.parent_writable(&place) {
            return Answer::Failed("permission denied".to_owned());
        }
        if self.nodes.contains_key(&place) {
            return Answer::Failed("file exists".to_owned());
        }
        self.nodes.insert(place, node);
        Answer::Done
    }

    fn rename(&mut self, from: &str, to: &str) -> Answer {
        let (Some(from), Some(to)) = (self.resolve(from, false), self.resolve(to, false)) else {
            return Answer::Failed("too many links".to_owned());
        };
        if !self.parent_writable(&from) || !self.parent_writable(&to) {
            return Answer::Failed("permission denied".to_owned());
        }
        match self.nodes.remove(&from) {
            Some(node) => {
                self.nodes.insert(to, node);
                Answer::Done
            }
            None => Answer::Failed("not found".to_owned()),
        }
    }

    fn set_mode(&mut self, path: &str, mode: u32) -> Answer {
        let place = self.resolve(path, true).unwrap_or_default();
        match self.nodes.get_mut(&place) {
            Some(Node::Directory(m)) | Some(Node::File(m, _)) => {
                *m = mode;
                Answer::Done
            }
            _ => Answer::Failed("not found".to_owned()),
        }
    }

    fn answer(&mut self, request: &Request, token: usize) -> Answer {
        let yes = |b: bool| if b { Answer::Yes } else { Answer::No };
        match request {
            Request::Cancelled => Answer::No,
            Request::Token => Answer::Text(format!("token{token}")),
            Request::Inspect(path) => match self.lookup(path, false) {
                Some(Node::Directory(mode)) => Answer::Directory { mode: *mode },
                Some(Node::Link(_)) => Answer::Link,
                Some(Node::File(..)) => Answer::Other,
                None => Answer::Missing,
            },
            Request::ReadLink(path) => match self.lookup(path, false) {
                Some(Node::Link(target)) => Answer::Text(target.clone()),
                _ => Answer::Failed("no link".to_owned()),
            },
            Request::IsFileOrLink(path) => yes(matches!(
                self.lookup(path, false),
                Some(Node::File(..) | Node::Link(_))
            )),
            Request::IsDirOrLink(path) => yes(matches!(
                self.lookup(path, false),
                Some(Node::Directory(_) | Node::Link(_))
            )),
            Request::ReadFile(path) => match self.lookup(path, true) {
                Some(Node::File(_, bytes)) => Answer::Bytes(bytes.clone()),
                _ => Answer::Failed("not found".to_owned()),
            },
            Request::ReadText(path) => match self.lookup(path, true) {
                Some(Node::File(_, bytes)) => {
                    Answer::Text(String::from_utf8(bytes.clone()).unwrap())
                }
                _ => Answer::Missing,
            },
            Request::CreateDir { path, mode } => self.make(path, Node::Directory(*mode)),
            Request::CreateDirs(path) => {
                let place = self.resolve(path, true).unwrap_or_default();
                let mut at = String::new();
                for name in place.split('/').filter(|p| !p.is_empty()) {
                    at = format!("{at}/{name}");
                    if !self.nodes.contains_key(&at) {
                        self.dir(&at, 0o755);
                    }
                }
                Answer::Done
            }
            Request::SetMode { path, mode } => self.set_mode(path, *mode),
            Request::Rename { from, to } => self.rename(from, to),
            Request::CreateFile {
                path,
                contents,
                mode,
            } => self.make(path, Node::File(*mode, contents.clone())),
            Request::CreateLink { target, path } => self.make(path, Node::Link(target.clone())),
            Request::Overwrite { path, contents } => {
                let place = self.resolve(path, true).unwrap_or_default();
                let mode = match self.nodes.get(&place) {
                    Some(Node::File(mode, _)) => *mode,
                    None => 0o644,
                    _ => return Answer::Failed("is no file".to_owned()),
                };
                self.nodes.insert(place, Node::File(mode, contents.clone()));
                Answer::Done
            }
        }
    }

    fn undo(&mut self, step: &Undo) {
        match step {
            Undo::Remove(path) => {
                let place = self.resolve(path, false).unwrap_or_default();
                let children = format!("{place}/");
                if !self.nodes.keys().any(|k| k.starts_with(&children)) {
                    self.nodes.remove(&place);
                }
            }
            Undo::Rename { from, to } => {
                let to = self.resolve(to, false).unwrap_or_default();
                let from = self.resolve(from, false).unwrap_or_default();
                if let Some(node) = self.nodes.remove(&from) {
                    self.nodes.insert(to, node);
                }
            }
            Undo::Rewrite { path, contents } => {
                let place = self.resolve(path, true).unwrap_or_default();
                if let Some(Node::File(_, bytes)) = self.nodes.get_mut(&place) {
                    *bytes = contents.clone();
                }
            }
            Undo::SetMode { path, mode } => {
                self.set_mode(path, *mode);
            }
        }
    }

    /// Injects into the tree; `cancel_at` ends the caller's wait at that question.
    fn inject(&mut self, cancel_at: Option<usize>) -> Result<(), ResolveError> {
        let mut answers: Vec<Answer> = Vec::new();
        loop {
            match inject_blocking("/tree", "/host-busybox", &parts(), &answers) {
                Progress::Ask(request) => {
                    let cancelled = cancel_at.is_some_and(|at| answers.len() >= at);
                    let answer = match &request {
                        Request::Cancelled if cancelled => Answer::Yes,
                        _ => self.answer(&request, answers.len()),
                    };
                    answers.push(answer);
                }
                Progress::Over { result, undo } => {
                    for step in &undo {
                        self.undo(step);
                    }
                    return result;
                }
            }
        }
    }

    fn read(&self, guest_path: &str) -> Vec<u8> {
        match self.lookup(&format!("/tree{guest_path}"), true) {
            Some(Node::File(_, bytes)) => bytes.clone(),
            other => panic!("{guest_path}: {other:?}"),
        }
    }

    fn text(&self, guest_path: &str) -> String {
        String::from_utf8(self.read(guest_path)).unwrap()
    }

    fn mode(&self, guest_path: &str) -> u32 {
        match self.lookup(&format!("/tree{guest_path}"), true) {
            Some(Node::File(mode, _) | Node::Directory(mode)) => *mode,
            other => panic!("{guest_path}: {other:?}"),
        }
    }

    fn link_at(&self, guest_path: &str) -> Option<&str> {
        match self.nodes.get(&format!("/tree{guest_path}")) {
            Some(Node::Link(target)) => Some(target),
            _ => None,
        }
    }

    fn has(&self, guest_path: &str) -> bool {
        self.nodes.contains_key(&format!("/tree{guest_path}"))
    }
}

fn parts() -> GuestParts {
    GuestParts {
        motd: "welcome\n".to_owned(),
        agent_path: "/usr/local/sbin/firecrab-agent.sh".to_owned(),
        agent_script: "#!/bin/sh\nagent\n".to_owned(),
        sshd_path: "/etc/firecrab/services.d/sshd".to_owned(),
        sshd_script: "#!/bin/sh\nexec sshd -D -o PermitRootLogin=prohibit-password\n".to_owned(),
        fastfetch_path: "/usr/bin/fastfetch".to_owned(),
        fastfetch: Some("/host-fastfetch".to_owned()),
        loaders: vec!["/lib64/ld-linux-x86-64.so.2".to_owned()],
    }
}

fn application() -> Memory {
    let mut memory = Memory::new();
    memory
        .dir("/tree/app", 0o755)
        .file("/tree/app/server", b"binary");
    memory
}

#[test]
fn injecting_a_guest_installs_an_init_the_stock_kernel_command_line_finds() {
    let mut memory = application();
    memory.inject(None).unwrap();

    assert_eq!(memory.link_at("/sbin/init"), Some(GUEST_TOOLBOX));
    assert_eq!(memory.read(GUEST_TOOLBOX), b"toolbox");
    assert_eq!(memory.mode(GUEST_TOOLBOX), 0o755);
    assert_eq!(memory.mode("/etc/firecrab/rc.boot"), 0o755);
    assert_eq!(memory.mode("/etc/firecrab/rc.console"), 0o755);
    assert_eq!(memory.mode("/etc/inittab"), 0o644);
    assert_eq!(memory.read("/etc/motd"), b"welcome\n");

    let table = memory.text("/etc/inittab");
    assert!(table.contains(&format!("::sysinit:{GUEST_TOOLBOX} sh /etc/firecrab/rc.boot")));
    assert!(table.contains(&format!("::respawn:-{GUEST_TOOLBOX} sh /etc/firecrab/rc.console")));

    let boot = memory.text("/etc/firecrab/rc.boot");
    for needed in [
        "FIRECRAB_NETWORK_READY $ipv4",
        "FIRECRAB_NETWORK_FAILED no-ipv4-address",
        "FIRECRAB_NETWORK_FAILED dns-unreachable",
        "$BB hostname -F /etc/hostname",
        "/proc/sys/kernel/hostname",
        "apt-get install -y -qq fastfetch",
        "iputils-ping",
        "base-packages.ok",
        "/run/firecrab/$name.pid",
        "C.UTF-8",
        "stty iutf8",
    ] {
        assert!(boot.contains(needed), "{needed}: {boot}");
    }
    assert!(
        boot.contains("openssh-server")
            || boot.contains("apk add --no-cache") && boot.contains("openssh"),
        "{boot}"
    );
    assert_eq!(memory.link_at("/bin/ping"), Some(GUEST_TOOLBOX));
    assert!(!memory.has("/bin/sudo"));
    assert!(!memory.has("/usr/local/bin/systemctl"));
    assert!(!memory.has("/bin/systemctl"));

    let console = memory.text("/etc/firecrab/rc.console");
    assert!(console.contains("$BB cat /etc/motd"), "{console}");
    assert!(console.contains("/usr/bin/fastfetch"), "{console}");
    assert!(console.contains("exec $BB sh"), "{console}");

    assert_eq!(
        memory.read("/usr/local/sbin/firecrab-agent.sh"),
        b"#!/bin/sh\nagent\n"
    );
    for mount_point in ["/proc", "/sys", "/dev", "/run", "/tmp"] {
        memory.mode(mount_point);
    }
    assert_eq!(memory.mode("/tmp"), 0o1777);
    assert!(memory.has("/etc/firecrab/services.d"));
    let sshd = memory.text("/etc/firecrab/services.d/sshd");
    assert!(sshd.contains("PermitRootLogin=prohibit-password"), "{sshd}");
    assert_eq!(memory.mode("/etc/firecrab/services.d/sshd") & 0o111, 0o111);
    assert_eq!(memory.read("/app/server"), b"binary");
}

#[test]
fn an_image_that_already_ships_ping_keeps_its_own_binary() {
    let mut memory = Memory::new();
    memory
        .dir("/tree/usr", 0o755)
        .dir("/tree/usr/bin", 0o755)
        .file("/tree/usr/bin/ping", b"real-ping");
    memory.inject(None).unwrap();
    assert_eq!(memory.read("/usr/bin/ping"), b"real-ping");
}

#[test]
fn applet_on_path_checks_usual_directories() {
    let present = |path: &str| path == "/usr/bin/ping";
    assert!(applet_on_path(present, "ping"));
    assert!(!applet_on_path(present, "wget"));
    assert_eq!(applet_link_path(true, "ping"), "/usr/bin/ping");
    assert_eq!(applet_link_path(false, "ping"), "/bin/ping");
}

#[test]
fn a_glibc_tree_receives_the_injected_fastfetch() {
    let mut memory = application();
    memory
        .dir("/tree/lib64", 0o755)
        .file("/tree/lib64/ld-linux-x86-64.so.2", b"loader");
    memory.inject(None).unwrap();
    assert_eq!(memory.read("/usr/bin/fastfetch"), b"fastfetch");
    assert_eq!(memory.mode("/usr/bin/fastfetch"), 0o755);
}

#[test]
fn a_musl_tree_does_not_receive_glibc_fastfetch() {
    let mut memory = application();
    memory.inject(None).unwrap();
    assert!(!memory.has("/usr/bin/fastfetch"));
}

#[test]
fn an_image_with_agetty_and_bash_uses_the_serial_getty() {
    let mut memory = Memory::new();
    memory
        .dir("/tree/usr", 0o755)
        .dir("/tree/usr/sbin", 0o755)
        .file("/tree/usr/sbin/agetty", b"agetty")
        .dir("/tree/bin", 0o755)
        .file("/tree/bin/bash", b"bash")
        .dir("/tree/etc", 0o755)
        .file(
            "/tree/etc/passwd",
            b"root:x:0:0:root:/root:/bin/sh\ndaemon:x:1:1:daemon:/usr/sbin:/usr/sbin/nologin\n",
        );
    memory.inject(None).unwrap();

    let table = memory.text("/etc/inittab");
    assert!(
        table.contains(
            "ttyS0::respawn:/usr/sbin/agetty --autologin root --noclear --keep-baud 115200,57600,38400,9600 ttyS0 linux"
        ),
        "{table}"
    );
    assert!(!table.contains("rc.console"), "{table}");
    let passwd = memory.text("/etc/passwd");
    assert!(
        passwd
            .lines()
            .any(|line| line.starts_with("root:") && line.ends_with(":/bin/bash")),
        "root shell must be bash: {passwd}"
    );
    assert!(passwd.contains("daemon:x:1:1:daemon:/usr/sbin:/usr/sbin/nologin"));
    let securetty = memory.text("/etc/securetty");
    assert!(securetty.lines().any(|line| line.trim() == "ttyS0"));
}

#[test]
fn the_injected_toolbox_is_named_busybox_so_the_multiplexer_runs() {
    let mut memory = application();
    memory.inject(None).unwrap();
    let init = memory.link_at("/sbin/init").unwrap();
    assert!(init.ends_with("/busybox"));
    let boot = memory.text("/etc/firecrab/rc.boot");
    assert!(boot.starts_with(&format!("#!{init} sh\n")), "{boot}");
    let dhcp = memory.text("/etc/firecrab/dhcp.script");
    assert!(dhcp.starts_with(&format!("#!{init} sh\n")), "{dhcp}");
    assert!(
        dhcp.contains(r#"$BB ip addr add "$ip/${mask:-24}" dev "$interface""#),
        "{dhcp}"
    );
}

#[test]
fn the_boot_script_brings_the_link_up_before_running_the_dhcp_client() {
    let boot = boot_script("/agent");
    let link_up = boot.find("ip link set eth0 up").unwrap();
    let dhcp = boot.find("udhcpc -i eth0").unwrap();
    assert!(link_up < dhcp, "the link must come up before udhcpc");
}

#[test]
fn the_boot_script_exposes_dev_fd_for_process_substitution() {
    let boot = boot_script("/usr/local/sbin/firecrab-agent.sh");
    assert!(
        boot.contains("ln -sf /proc/self/fd /dev/fd"),
        "official image entrypoints open /dev/fd/N: {boot}"
    );
    let proc_mount = boot.find("mount -t proc").expect("proc is mounted");
    let fd = boot.find("/dev/fd").expect("fd links");
    let services = boot.find("services").expect("services start");
    assert!(
        proc_mount < fd && fd < services,
        "/proc must exist before /dev/fd, and services must start after"
    );
}

#[test]
fn inittab_commands_avoid_the_metacharacters_busybox_init_reroutes() {
    for table in [inittab(None), inittab(Some("/sbin/agetty"))] {
        for line in table.lines().filter(|line| !line.starts_with('#')) {
            let command = line.splitn(4, ':').nth(3).unwrap_or_default();
            assert!(
                !command.contains([
                    '~', '`', '!', '$', '^', '&', '*', '(', ')', '=', '|', '\\', '{', '}', '[',
                    ']', ';', '"', '\'', '<', '>', '?',
                ]),
                "{command}"
            );
        }
    }
}

#[test]
fn usr_merged_images_are_provisioned_through_their_symlinked_sbin() {
    let mut memory = Memory::new();
    memory
        .dir("/tree/usr", 0o755)
        .dir("/tree/usr/sbin", 0o755)
        .link("/tree/sbin", "usr/sbin");
    memory.inject(None).unwrap();
    assert_eq!(memory.link_at("/sbin"), Some("usr/sbin"));
    assert_eq!(memory.read("/etc/firecrab/busybox"), b"toolbox");
    assert_eq!(memory.link_at("/usr/sbin/init"), Some(GUEST_TOOLBOX));
}

fn locked_sbin() -> Memory {
    let mut memory = Memory::new();
    memory
        .dir("/tree/usr", 0o755)
        .dir("/tree/usr/sbin", 0o555)
        .link("/tree/sbin", "usr/sbin");
    memory
}

#[test]
fn a_read_only_usr_sbin_can_still_have_its_init_replaced() {
    let mut memory = locked_sbin();
    memory
        .dir("/tree/usr/lib", 0o755)
        .dir("/tree/usr/lib/systemd", 0o755)
        .file("/tree/usr/lib/systemd/systemd", b"systemd")
        .link("/tree/usr/sbin/init", "../lib/systemd/systemd");
    memory.inject(None).unwrap();
    assert_eq!(memory.link_at("/usr/sbin/init"), Some(GUEST_TOOLBOX));
    assert_eq!(memory.read("/usr/lib/systemd/systemd"), b"systemd");
    assert_eq!(memory.mode("/usr/sbin"), 0o555);
}

#[test]
fn a_read_only_usr_sbin_without_init_can_still_receive_the_toolbox_link() {
    let mut memory = locked_sbin();
    memory.inject(None).unwrap();
    assert_eq!(memory.link_at("/usr/sbin/init"), Some(GUEST_TOOLBOX));
    assert_eq!(memory.mode("/usr/sbin"), 0o555);
}

#[test]
fn a_late_failure_restores_a_read_only_usr_sbin_and_its_init() {
    let mut memory = locked_sbin();
    memory
        .link("/tree/usr/sbin/init", "../lib/systemd/systemd")
        .file("/tree/usr/local", b"not a directory");
    let before = memory.nodes.clone();
    let error = memory.inject(None).unwrap_err();
    assert!(matches!(
        error,
        ResolveError::GuestPathUnusable {
            reason: GuestPathViolation::NonDirectoryAncestor { .. },
            ..
        }
    ));
    assert_eq!(memory.nodes, before);
}

#[test]
fn a_late_failure_restores_an_image_supplied_init() {
    let mut memory = Memory::new();
    memory
        .dir("/tree/sbin", 0o755)
        .file("/tree/sbin/init", b"the image's own init")
        .dir("/tree/usr", 0o755)
        .file("/tree/usr/local", b"not a directory");
    let before = memory.nodes.clone();
    let error = memory.inject(None).unwrap_err();
    assert!(matches!(
        error,
        ResolveError::GuestPathUnusable {
            reason: GuestPathViolation::NonDirectoryAncestor { .. },
            ..
        }
    ));
    assert_eq!(memory.nodes, before);
    assert_eq!(memory.read("/sbin/init"), b"the image's own init");
}

#[test]
fn an_image_supplied_init_is_replaced_without_touching_its_target() {
    let mut memory = Memory::new();
    memory
        .dir("/tree/lib", 0o755)
        .file("/tree/lib/systemd", b"systemd")
        .dir("/tree/sbin", 0o755)
        .link("/tree/sbin/init", "/lib/systemd");
    memory.inject(None).unwrap();
    assert_eq!(memory.link_at("/sbin/init"), Some(GUEST_TOOLBOX));
    assert_eq!(memory.read("/lib/systemd"), b"systemd");
}

#[test]
fn a_symlinked_ancestor_pointing_outside_the_tree_is_clamped_to_it() {
    let mut memory = Memory::new();
    memory.dir("/outside", 0o755).file("/outside/inittab", b"untouched");
    memory.link("/tree/etc", "/outside");
    memory.inject(None).unwrap();
    assert_eq!(
        memory.nodes.get("/outside/inittab"),
        Some(&Node::File(0o644, b"untouched".to_vec()))
    );
    assert!(memory.has("/outside/inittab"), "the write landed in-tree");
}

#[test]
fn a_non_directory_ancestor_refuses_the_injection_and_restores_the_tree() {
    let mut memory = Memory::new();
    memory.file("/tree/etc", b"not a directory");
    let before = memory.nodes.clone();
    let error = memory.inject(None).unwrap_err();
    assert!(matches!(
        error,
        ResolveError::GuestPathUnusable {
            reason: GuestPathViolation::NonDirectoryAncestor { .. },
            ..
        }
    ));
    assert_eq!(memory.nodes, before);
}

#[test]
fn a_symlink_cycle_is_refused_before_any_guest_file_is_written() {
    let mut memory = Memory::new();
    memory.link("/tree/etc", "etc2").link("/tree/etc2", "etc");
    let before = memory.nodes.clone();
    let error = memory.inject(None).unwrap_err();
    assert!(matches!(
        error,
        ResolveError::GuestPathUnusable {
            reason: GuestPathViolation::SymlinkLoop { limit: 40 },
            ..
        }
    ));
    assert_eq!(memory.nodes, before);
}

#[test]
fn a_directory_occupying_a_guest_file_path_is_refused() {
    let mut memory = Memory::new();
    memory
        .dir("/tree/etc", 0o755)
        .dir("/tree/etc/inittab", 0o755)
        .file("/tree/etc/inittab/x", b"x");
    let before = memory.nodes.clone();
    assert!(memory.inject(None).is_err());
    assert_eq!(memory.nodes, before);
}

#[test]
fn a_cancelled_injection_leaves_the_tree_as_it_was() {
    for at in [0, 5, 20, 60, 120] {
        let mut memory = Memory::new();
        memory
            .dir("/tree/bin", 0o755)
            .file("/tree/bin/bash", b"bash")
            .dir("/tree/etc", 0o755)
            .file("/tree/etc/passwd", b"root:x:0:0:root:/root:/bin/sh\n")
            .file("/tree/etc/inittab", b"old table");
        let before = memory.nodes.clone();
        match memory.inject(Some(at)) {
            Err(error) => {
                assert!(matches!(
                    error,
                    ResolveError::GuestInjectionCancelled { .. }
                ));
                assert_eq!(memory.nodes, before, "cancelled at {at}");
            }
            Ok(()) => assert!(at > 20),
        }
    }
}

#[test]
fn only_roots_shell_is_rewritten() {
    assert_eq!(
        rewrite_root_shell("root:x:0:0:root:/root:/bin/sh\nx:y\n", "/bin/bash"),
        "root:x:0:0:root:/root:/bin/bash\nx:y\n"
    );
    let once = rewrite_root_shell("a:x:1:1::/:/bin/false\n", "/bin/bash");
    assert_eq!(rewrite_root_shell(&once, "/bin/bash"), once);
    for passwd in ["", "root:x:0:0:root:/root:/bin/sh", "b:x:1:1::/:/x\nroot:short\n"] {
        assert_eq!(
            rewrite_root_shell(&rewrite_root_shell(passwd, "/bin/bash"), "/bin/zsh"),
            rewrite_root_shell(passwd, "/bin/zsh")
        );
    }
}

#[test]
fn base_package_install_pulls_in_udev_where_systemd_ships_without_it() {
    let script = BASE_PACKAGE_INSTALL;
    let joined = script.replace("\\\n", " ");
    let block_with = |needle: &str| {
        joined
            .lines()
            .find(|line| line.contains(needle))
            .unwrap_or_else(|| panic!("no line contains {needle:?} in:\n{joined}"))
    };

    assert!(
        block_with("apt-get install").contains("udev"),
        "Debian/Ubuntu ship no systemd-udevd on a minimal OCI base — #225"
    );
    assert!(
        block_with("zypper --non-interactive install").contains("udev"),
        "openSUSE ships no systemd-udevd on a minimal OCI base — #225"
    );
    for needle in ["dnf install", "microdnf -y install", "yum install"] {
        assert!(
            !block_with(needle).contains("udev"),
            "{needle} line must stay untouched — dnf-family already ships systemd-udev"
        );
    }
    assert!(
        !block_with("apk add").contains("udev"),
        "Alpine is not systemd"
    );
    assert!(
        !block_with("pacman -Sy").contains("udev"),
        "Arch folds udev into the systemd package; a separate `udev` package does not exist"
    );
}
