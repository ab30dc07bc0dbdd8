//! The account, the directories, the license texts, the programs with the
//! dashboard, and the configuration.

use vstd::prelude::*;

use super::env::ServiceEnv;
use super::output::{log, step, warn};
use super::payload::{resolve_binary, Payload, BUNDLE_BINARIES, EXTRACT_HELPERS};
#[allow(unused_imports)]
use super::payload::{binary_source, Sources};
use super::privileged::Privileged;
#[allow(unused_imports)]
use super::privileged::Session;
use super::Error;
#[allow(unused_imports)]
use super::{failed, failed_fix};
#[allow(unused_imports)]
use crate::files::{agrees, answers};
use crate::path::{joined, same_path};
#[allow(unused_imports)]
use crate::path::{components, join};
use crate::shell::CommandRunner;
#[allow(unused_imports)]
use crate::shell::Reply;
use crate::text::{decode_lossy, lines_of, same, trimmed, words_of};
#[allow(unused_imports)]
use crate::text::{lines, opt_view, texts, trim, utf8_lossy, views, words};
#[allow(unused_imports)]
use vstd::utf8::encode_utf8;

verus! {

/// The configuration of the API that is written once.
pub const API_ENV_TEMPLATE: &'static str = "\
# firecrab API settings. The unit already sets the image root, the dashboard
# assets and the working directory; uncomment only what you want to change.
#
# FIRECRAB_BIND_ADDR=127.0.0.1:5523
# A non-loopback address requires authentication AND TLS to be enabled.
# FIRECRAB_ALLOWED_ORIGINS=
# Empty is correct while the dashboard is served from this same origin.
# FIRECRAB_FIRECRACKER_BIN=firecracker
#
# M2Image install (Images page / POST /api/images/{alias}/install).
# Points at a directory-style base that serves `{alias}.tar.zst` packages
# (see scripts/package-m2images.sh). Unset = use the public MicroRegistry.
# Example local mirror:
# FIRECRAB_IMAGE_BASE_URL=http://127.0.0.1:8765
# Requires host tools: tar, zstd. Restart firecrab-api after changing this.
";

pub const STEP_ACCOUNT: &'static str = "account";

pub const STEP_DIRS: &'static str = "directories";

pub const STEP_COMPLIANCE: &'static str = "compliance";

pub const STEP_BINARIES: &'static str = "binaries";

pub const STEP_CONFIG: &'static str = "config";

/// Whether the words that a command printed hold `word`.
pub open spec fn prints_word(reply: Reply, word: Seq<char>) -> bool {
    match reply {
        Reply::Done { stdout, .. } => words(utf8_lossy(stdout)).contains(word),
        Reply::Failed { .. } => false,
    }
}

/// Whether the lines that a command printed hold `line`, apart from white space
/// around it.
pub open spec fn prints_line(reply: Reply, line: Seq<char>) -> bool {
    match reply {
        Reply::Done { stdout, .. } => lines(utf8_lossy(stdout)).map_values(
            |l: Seq<char>| trim(l),
        ).contains(line),
        Reply::Failed { .. } => false,
    }
}

impl Session {
    /// Makes sure that the group of the account is there.
    pub open spec fn ensure_group(self, env: ServiceEnv) -> Session {
        let (after, reply) = self.probe("getent"@, seq!["group"@, env.group@]);
        if reply.succeeded() {
            after.log("group "@ + env.group@ + " exists"@)
        } else {
            after.step("creating group "@ + env.group@).must(
                STEP_ACCOUNT@,
                "groupadd"@,
                seq!["--system"@, env.group@],
            )
        }
    }

    /// Makes sure that the account is there.
    pub open spec fn ensure_user(self, env: ServiceEnv) -> Session {
        let (after, reply) = self.probe("id"@, seq![env.user@]);
        if reply.succeeded() {
            after.log("user "@ + env.user@ + " exists"@)
        } else {
            after.step("creating user "@ + env.user@).must(
                STEP_ACCOUNT@,
                "useradd"@,
                seq![
                    "--system"@,
                    "--gid"@,
                    env.group@,
                    "--home-dir"@,
                    env.datadir@,
                    "--shell"@,
                    "/usr/sbin/nologin"@,
                    env.user@,
                ],
            )
        }
    }

    /// Makes the account a member of the kvm group, where there is one.
    pub open spec fn ensure_kvm_member(self, env: ServiceEnv) -> Session {
        let (after, reply) = self.probe("getent"@, seq!["group"@, "kvm"@]);
        if !reply.succeeded() {
            after
        } else {
            let (after, reply) = after.probe("id"@, seq!["-nG"@, env.user@]);
            if prints_word(reply, "kvm"@) {
                after
            } else {
                after.step("adding "@ + env.user@ + " to the kvm group"@).must(
                    STEP_ACCOUNT@,
                    "usermod"@,
                    seq!["--append"@, "--groups"@, "kvm"@, env.user@],
                )
            }
        }
    }

    /// Gives the kvm group access to `/dev/kvm`, where that is there: on some hosts
    /// membership alone is not enough.
    pub open spec fn ensure_kvm_access(self, kvm: bool) -> Session {
        if !kvm {
            self
        } else {
            let (after, found) = self.have("setfacl"@);
            if !found {
                after.warn(
                    "setfacl not found — skipping the /dev/kvm ACL fixup (install the 'acl' package if VMs fail with a KVM permission error)"@,
                )
            } else {
                let (after, reply) = after.probe("getfacl"@, seq!["-p"@, "/dev/kvm"@]);
                if prints_line(reply, "group:kvm:rw-"@) {
                    after
                } else {
                    after.step("granting the kvm group ACL access to /dev/kvm"@).must(
                        STEP_ACCOUNT@,
                        "setfacl"@,
                        seq!["-m"@, "g:kvm:rw"@, "/dev/kvm"@],
                    )
                }
            }
        }
    }

    /// The account with its group and its access to KVM; `kvm` says whether
    /// `/dev/kvm` is there.
    pub open spec fn ensure_account(self, env: ServiceEnv, kvm: bool) -> Session {
        self.ensure_group(env).ensure_user(env).ensure_kvm_member(env).ensure_kvm_access(kvm)
    }

    /// The directories of an installation.
    pub open spec fn ensure_directories(self, env: ServiceEnv) -> Session {
        self.install_dirs(
            STEP_DIRS@,
            seq![env.libdir@, env.sharedir@],
            "root"@,
            "root"@,
            "0755"@,
        ).install_dirs(
            STEP_DIRS@,
            seq![
                env.datadir@,
                join(env.datadir@, "data"@),
                join(env.datadir@, "images"@),
                join(env.datadir@, "updates"@),
            ],
            env.user@,
            env.group@,
            "0750"@,
        ).install_dirs(STEP_DIRS@, seq![env.confdir@], "root"@, env.group@, "0750"@).log(
            "directories ready under "@ + env.datadir@ + ", "@ + env.confdir@,
        )
    }

    /// A file that everyone may read.
    pub open spec fn install_text(self, src: Seq<char>, dest: Seq<char>) -> Session {
        self.install_file(STEP_COMPLIANCE@, src, dest, "root"@, "root"@, "0644"@)
    }

    /// The license texts. Notices that the source lacks must not stay from an
    /// earlier installation.
    pub open spec fn install_compliance(self, env: ServiceEnv, payload: Sources) -> Session {
        let share = env.sharedir@;
        let licenses = join(share, "licenses"@);
        let notices = join(share, "THIRD_PARTY_NOTICES.txt"@);
        let inventory = join(share, "release-license-inventory.json"@);
        let after = self.install_dirs(
            STEP_COMPLIANCE@,
            seq![licenses],
            "root"@,
            "root"@,
            "0755"@,
        ).install_text(payload.license, join(share, "LICENSE"@)).install_text(
            payload.gpl,
            join(licenses, "GPL-2.0-only.txt"@),
        );
        let after = if payload.third_party is Some && payload.inventory is Some {
            after.install_text(payload.third_party->0, notices).install_text(
                payload.inventory->0,
                inventory,
            )
        } else {
            after.must(STEP_COMPLIANCE@, "rm"@, seq!["-f"@, notices, inventory])
        };
        after.log("license and attribution material installed to "@ + share)
    }

    /// A program that everyone may run.
    pub open spec fn install_program(self, src: Seq<char>, dest: Seq<char>) -> Session {
        self.install_file(STEP_BINARIES@, src, dest, "root"@, "root"@, "0755"@)
    }

    /// The programs named, of the services.
    pub open spec fn install_daemons(
        self,
        env: ServiceEnv,
        bin: Seq<char>,
        names: Seq<Seq<char>>,
        files: spec_fn(Seq<char>) -> bool,
    ) -> Session
        decreases names.len(),
    {
        if names.len() == 0 {
            self
        } else {
            let dest = join(env.libdir@, names[0]);
            let after = match binary_source(names[0], Some(bin), env.libdir@, files) {
                None => self.fail(
                    failed_fix(
                        STEP_BINARIES@,
                        "no "@ + names[0] + " in "@ + bin + " or "@ + env.libdir@,
                        "pass it via --bin-dir, or install a release"@,
                    ),
                ),
                Some(src) => if components(src) == components(dest) {
                    self.log("keeping existing "@ + dest)
                } else {
                    self.install_program(src, dest)
                },
            };
            after.install_daemons(env, bin, names.skip(1), files)
        }
    }

    /// The scripts named, by which the API extracts kernels.
    pub open spec fn install_helpers(
        self,
        env: ServiceEnv,
        dir: Seq<char>,
        names: Seq<Seq<char>>,
        files: spec_fn(Seq<char>) -> bool,
    ) -> Session
        decreases names.len(),
    {
        if names.len() == 0 {
            self
        } else {
            let src = join(dir, names[0]);
            let after = if !files(src) {
                self.fail(failed(STEP_BINARIES@, "missing "@ + src))
            } else {
                self.install_program(src, join(env.libdir@, names[0]))
            };
            after.install_helpers(env, dir, names.skip(1), files)
        }
    }

    /// The operator's program.
    pub open spec fn install_cli(
        self,
        env: ServiceEnv,
        bin: Seq<char>,
        files: spec_fn(Seq<char>) -> bool,
    ) -> Session {
        let dest = join(env.bindir@, "firecrab"@);
        let after = match binary_source("firecrab"@, Some(bin), env.bindir@, files) {
            None => self.fail(
                failed_fix(
                    STEP_BINARIES@,
                    "no firecrab (CLI) in "@ + bin + " or "@ + env.bindir@,
                    "pass it via --bin-dir, or install a release"@,
                ),
            ),
            Some(src) => if components(src) == components(dest) {
                self.log("keeping existing "@ + dest)
            } else {
                self.install_dirs(
                    STEP_BINARIES@,
                    seq![env.bindir@],
                    "root"@,
                    "root"@,
                    "0755"@,
                ).install_program(src, dest)
            },
        };
        after.log("binaries installed to "@ + env.libdir@ + " (cli → "@ + dest + ")"@)
    }

    /// The dashboard: from `source` where that holds one, else the installed one
    /// stays.
    pub open spec fn install_dashboard(
        self,
        env: ServiceEnv,
        source: Option<Seq<char>>,
        files: spec_fn(Seq<char>) -> bool,
    ) -> Session {
        let target = join(env.sharedir@, "dashboard"@);
        if source is Some && files(join(source->0, "index.html"@)) {
            self.must(STEP_BINARIES@, "rm"@, seq!["-rf"@, target]).install_dirs(
                STEP_BINARIES@,
                seq![target],
                "root"@,
                "root"@,
                "0755"@,
            ).must(
                STEP_BINARIES@,
                "cp"@,
                seq!["-r"@, source->0 + "/."@, target + "/"@],
            ).must(STEP_BINARIES@, "chown"@, seq!["-R"@, "root:root"@, target]).log(
                "dashboard installed to "@ + target,
            )
        } else if files(join(target, "index.html"@)) {
            self.log("keeping existing "@ + target)
        } else {
            self.fail(
                failed_fix(
                    STEP_BINARIES@,
                    "dashboard not found"@,
                    "pass --dashboard-dir, or use a release bundle"@,
                ),
            )
        }
    }

    /// The programs, the scripts beside them, and the dashboard where it is wanted.
    pub open spec fn install_binaries(
        self,
        env: ServiceEnv,
        payload: Sources,
        with_frontend: bool,
        files: spec_fn(Seq<char>) -> bool,
    ) -> Session {
        let after = self.install_daemons(
            env,
            payload.bin,
            seq!["firecrab-api"@, "firecrab-net-helper"@],
            files,
        ).install_helpers(
            env,
            payload.extract,
            seq!["extract-vmlinux"@, "extract-arm64-image"@],
            files,
        ).install_cli(env, payload.bin, files);
        if with_frontend {
            after.install_dashboard(env, payload.dashboard, files)
        } else {
            after
        }
    }

    /// The configuration, which is written once, so that what the operator changes
    /// stays; `present` says whether it is there.
    pub open spec fn install_config(self, env: ServiceEnv, present: bool) -> Session {
        let api_env = join(env.confdir@, "api.env"@);
        if present {
            self.log("keeping existing "@ + api_env)
        } else {
            self.write_file(
                STEP_CONFIG@,
                api_env,
                encode_utf8(API_ENV_TEMPLATE@),
                "0640"@,
            ).must(STEP_CONFIG@, "chown"@, seq!["root:"@ + env.group@, api_env]).log(
                "wrote "@ + api_env,
            )
        }
    }
}

/// Whether a read-only command succeeds.
fn succeeded<R: CommandRunner>(
    privileged: &mut Privileged<R>,
    cmd: &str,
    args: &[&str],
) -> (r: bool)
    ensures
        final(privileged).session() == old(privileged).session().probe(cmd@, texts(args@)).0,
        r == old(privileged).session().probe(cmd@, texts(args@)).1.succeeded(),
{
    match privileged.probe(cmd, args) {
        Ok(out) => out.status.success(),
        Err(_) => false,
    }
}

fn holds_word(text: &str, word: &str) -> (r: bool)
    ensures
        r == words(text@).contains(word@),
{
    let all = words_of(text);
    let mut i: usize = 0;
    while i < all.len()
        invariant
            i <= all@.len(),
            views(all@) == words(text@),
            forall|j: int| 0 <= j < i ==> views(all@)[j] != word@,
        decreases all@.len() - i,
    {
        if same(&all[i], word) {
            assert(views(all@)[i as int] == word@);
            return true;
        }
        i += 1;
    }
    false
}

fn holds_line(text: &str, line: &str) -> (r: bool)
    ensures
        r == lines(text@).map_values(|l: Seq<char>| trim(l)).contains(line@),
{
    let all = lines_of(text);
    let ghost want = lines(text@).map_values(|l: Seq<char>| trim(l));
    let mut i: usize = 0;
    while i < all.len()
        invariant
            i <= all@.len(),
            views(all@) == lines(text@),
            want == lines(text@).map_values(|l: Seq<char>| trim(l)),
            forall|j: int| 0 <= j < i ==> want[j] != line@,
        decreases all@.len() - i,
    {
        assert(want[i as int] == trim(views(all@)[i as int]));
        if same(&trimmed(&all[i]), line) {
            assert(want[i as int] == line@);
            return true;
        }
        i += 1;
    }
    assert(want.len() == all@.len());
    false
}

/// Makes sure that the account is there, with its group, membership of the kvm
/// group and access to `/dev/kvm`; `kvm` says whether that is there.
pub fn ensure_account<R: CommandRunner>(
    privileged: &mut Privileged<R>,
    env: &ServiceEnv,
    kvm: bool,
) -> (r: Result<(), Error>)
    ensures
        final(privileged).ended(r) == old(privileged).session().ensure_account(*env, kvm),
{
    let group = ["group", env.group.as_str()];
    assert(texts(group@) =~= seq!["group"@, env.group@]);
    if succeeded(privileged, "getent", &group) {
        privileged.say(log(&"group ".to_owned().concat(&env.group).concat(" exists")));
    } else {
        privileged.say(step(&"creating group ".to_owned().concat(&env.group)));
        let args = ["--system", env.group.as_str()];
        assert(texts(args@) =~= seq!["--system"@, env.group@]);
        match privileged.run_ok(STEP_ACCOUNT, "groupadd", &args) {
            Ok(_) => {},
            Err(e) => {
                return Err(e);
            },
        }
    }

    let user = [env.user.as_str()];
    assert(texts(user@) =~= seq![env.user@]);
    if succeeded(privileged, "id", &user) {
        privileged.say(log(&"user ".to_owned().concat(&env.user).concat(" exists")));
    } else {
        privileged.say(step(&"creating user ".to_owned().concat(&env.user)));
        let args = [
            "--system",
            "--gid",
            env.group.as_str(),
            "--home-dir",
            env.datadir.as_str(),
            "--shell",
            "/usr/sbin/nologin",
            env.user.as_str(),
        ];
        assert(texts(args@) =~= seq![
            "--system"@,
            "--gid"@,
            env.group@,
            "--home-dir"@,
            env.datadir@,
            "--shell"@,
            "/usr/sbin/nologin"@,
            env.user@,
        ]);
        match privileged.run_ok(STEP_ACCOUNT, "useradd", &args) {
            Ok(_) => {},
            Err(e) => {
                return Err(e);
            },
        }
    }

    let kvm_group = ["group", "kvm"];
    assert(texts(kvm_group@) =~= seq!["group"@, "kvm"@]);
    if succeeded(privileged, "getent", &kvm_group) {
        let groups = ["-nG", env.user.as_str()];
        assert(texts(groups@) =~= seq!["-nG"@, env.user@]);
        let in_kvm = match privileged.probe("id", &groups) {
            Ok(out) => holds_word(&decode_lossy(&out.stdout), "kvm"),
            Err(_) => false,
        };
        if !in_kvm {
            privileged.say(
                step(&"adding ".to_owned().concat(&env.user).concat(" to the kvm group")),
            );
            let args = ["--append", "--groups", "kvm", env.user.as_str()];
            assert(texts(args@) =~= seq!["--append"@, "--groups"@, "kvm"@, env.user@]);
            match privileged.run_ok(STEP_ACCOUNT, "usermod", &args) {
                Ok(_) => {},
                Err(e) => {
                    return Err(e);
                },
            }
        }
    }
    if kvm {
        if privileged.have("setfacl") {
            let show = ["-p", "/dev/kvm"];
            assert(texts(show@) =~= seq!["-p"@, "/dev/kvm"@]);
            let has_entry = match privileged.probe("getfacl", &show) {
                Ok(out) => holds_line(&decode_lossy(&out.stdout), "group:kvm:rw-"),
                Err(_) => false,
            };
            if !has_entry {
                privileged.say(step("granting the kvm group ACL access to /dev/kvm"));
                let args = ["-m", "g:kvm:rw", "/dev/kvm"];
                assert(texts(args@) =~= seq!["-m"@, "g:kvm:rw"@, "/dev/kvm"@]);
                match privileged.run_ok(STEP_ACCOUNT, "setfacl", &args) {
                    Ok(_) => {},
                    Err(e) => {
                        return Err(e);
                    },
                }
            }
        } else {
            privileged.say(
                warn(
                    "setfacl not found — skipping the /dev/kvm ACL fixup (install the 'acl' package if VMs fail with a KVM permission error)",
                ),
            );
        }
    }
    Ok(())
}

/// Makes the directories of an installation, with their owners and modes.
pub fn ensure_directories<R: CommandRunner>(
    privileged: &mut Privileged<R>,
    env: &ServiceEnv,
) -> (r: Result<(), Error>)
    ensures
        final(privileged).ended(r) == old(privileged).session().ensure_directories(*env),
{
    let programs = [env.libdir.as_str(), env.sharedir.as_str()];
    assert(texts(programs@) =~= seq![env.libdir@, env.sharedir@]);
    match privileged.install_dirs(STEP_DIRS, &programs, "root", "root", "0755") {
        Ok(()) => {},
        Err(e) => {
            return Err(e);
        },
    }
    let data = joined(&env.datadir, "data");
    let images = joined(&env.datadir, "images");
    let updates = joined(&env.datadir, "updates");
    let state = [env.datadir.as_str(), data.as_str(), images.as_str(), updates.as_str()];
    assert(texts(state@) =~= seq![env.datadir@, data@, images@, updates@]);
    match privileged.install_dirs(STEP_DIRS, &state, &env.user, &env.group, "0750") {
        Ok(()) => {},
        Err(e) => {
            return Err(e);
        },
    }
    let conf = [env.confdir.as_str()];
    assert(texts(conf@) =~= seq![env.confdir@]);
    match privileged.install_dirs(STEP_DIRS, &conf, "root", &env.group, "0750") {
        Ok(()) => {},
        Err(e) => {
            return Err(e);
        },
    }
    privileged.say(
        log(
            &"directories ready under ".to_owned().concat(&env.datadir).concat(", ").concat(
                &env.confdir,
            ),
        ),
    );
    Ok(())
}

/// Installs the license texts.
pub fn install_compliance<R: CommandRunner>(
    privileged: &mut Privileged<R>,
    env: &ServiceEnv,
    payload: &Payload,
) -> (r: Result<(), Error>)
    ensures
        final(privileged).ended(r) == old(privileged).session().install_compliance(
            *env,
            payload@,
        ),
{
    let licenses = joined(&env.sharedir, "licenses");
    let dirs = [licenses.as_str()];
    assert(texts(dirs@) =~= seq![licenses@]);
    match privileged.install_dirs(STEP_COMPLIANCE, &dirs, "root", "root", "0755") {
        Ok(()) => {},
        Err(e) => {
            return Err(e);
        },
    }
    let license = joined(&env.sharedir, "LICENSE");
    match privileged.install_file(
        STEP_COMPLIANCE,
        &payload.license,
        &license,
        "root",
        "root",
        "0644",
    ) {
        Ok(()) => {},
        Err(e) => {
            return Err(e);
        },
    }
    let gpl = joined(&licenses, "GPL-2.0-only.txt");
    match privileged.install_file(STEP_COMPLIANCE, &payload.gpl, &gpl, "root", "root", "0644") {
        Ok(()) => {},
        Err(e) => {
            return Err(e);
        },
    }
    let notices = joined(&env.sharedir, "THIRD_PARTY_NOTICES.txt");
    let inventory = joined(&env.sharedir, "release-license-inventory.json");
    match (&payload.third_party, &payload.inventory) {
        (Some(from_notices), Some(from_inventory)) => {
            match privileged.install_file(
                STEP_COMPLIANCE,
                from_notices,
                &notices,
                "root",
                "root",
                "0644",
            ) {
                Ok(()) => {},
                Err(e) => {
                    return Err(e);
                },
            }
            match privileged.install_file(
                STEP_COMPLIANCE,
                from_inventory,
                &inventory,
                "root",
                "root",
                "0644",
            ) {
                Ok(()) => {},
                Err(e) => {
                    return Err(e);
                },
            }
        },
        _ => {
            let args = ["-f", notices.as_str(), inventory.as_str()];
            assert(texts(args@) =~= seq!["-f"@, notices@, inventory@]);
            match privileged.run_ok(STEP_COMPLIANCE, "rm", &args) {
                Ok(_) => {},
                Err(e) => {
                    return Err(e);
                },
            }
        },
    }
    privileged.say(
        log(&"license and attribution material installed to ".to_owned().concat(&env.sharedir)),
    );
    Ok(())
}

proof fn failed_daemons_end(
    session: Session,
    env: ServiceEnv,
    bin: Seq<char>,
    names: Seq<Seq<char>>,
    files: spec_fn(Seq<char>) -> bool,
)
    requires
        session.failure is Some,
    ensures
        session.install_daemons(env, bin, names, files) == session,
    decreases names.len(),
{
    if names.len() > 0 {
        failed_daemons_end(session, env, bin, names.skip(1), files);
    }
}

proof fn failed_helpers_end(
    session: Session,
    env: ServiceEnv,
    dir: Seq<char>,
    names: Seq<Seq<char>>,
    files: spec_fn(Seq<char>) -> bool,
)
    requires
        session.failure is Some,
    ensures
        session.install_helpers(env, dir, names, files) == session,
    decreases names.len(),
{
    if names.len() > 0 {
        failed_helpers_end(session, env, dir, names.skip(1), files);
    }
}

fn install_daemons<R: CommandRunner, F: Fn(&str) -> bool>(
    privileged: &mut Privileged<R>,
    env: &ServiceEnv,
    bin: &str,
    names: &[&str],
    is_file: &F,
) -> (r: Result<(), Error>)
    requires
        answers(*is_file),
    ensures
        forall|files: spec_fn(Seq<char>) -> bool| #[trigger]
            agrees(*is_file, files) ==> final(privileged).ended(r) == old(
                privileged,
            ).session().install_daemons(*env, bin@, texts(names@), files),
{
    let ghost all = texts(names@);
    let mut i: usize = 0;
    assert(all.skip(0) =~= all);
    while i < names.len()
        invariant
            i <= names@.len(),
            all == texts(names@),
            answers(*is_file),
            forall|files: spec_fn(Seq<char>) -> bool| #[trigger]
                agrees(*is_file, files) ==> privileged.session().install_daemons(
                    *env,
                    bin@,
                    all.skip(i as int),
                    files,
                ) == old(privileged).session().install_daemons(*env, bin@, all, files),
        decreases names@.len() - i,
    {
        let name = names[i];
        assert(all.skip(i as int)[0] == name@);
        assert(all.skip(i as int).skip(1) =~= all.skip(i + 1));
        let dest = joined(&env.libdir, name);
        let done = match resolve_binary(name, Some(bin), &env.libdir, is_file) {
            None => Err(
                Error::step_fix(
                    STEP_BINARIES,
                    "no ".to_owned().concat(name).concat(" in ").concat(bin).concat(
                        " or ",
                    ).concat(&env.libdir),
                    "pass it via --bin-dir, or install a release".to_owned(),
                ),
            ),
            Some(src) => if same_path(&src, &dest) {
                privileged.say(log(&"keeping existing ".to_owned().concat(&dest)));
                Ok(())
            } else {
                privileged.install_file(STEP_BINARIES, &src, &dest, "root", "root", "0755")
            },
        };
        if let Err(e) = done {
            let ghost end = privileged.ended(Err::<(), Error>(e));
            assert forall|files: spec_fn(Seq<char>) -> bool| #[trigger]
                agrees(*is_file, files) implies end == old(privileged).session().install_daemons(
                *env,
                bin@,
                all,
                files,
            ) by {
                failed_daemons_end(end, *env, bin@, all.skip(i + 1), files);
            }
            return Err(e);
        }
        i += 1;
    }
    Ok(())
}

fn install_helpers<R: CommandRunner, F: Fn(&str) -> bool>(
    privileged: &mut Privileged<R>,
    env: &ServiceEnv,
    dir: &str,
    names: &[&str],
    is_file: &F,
) -> (r: Result<(), Error>)
    requires
        answers(*is_file),
    ensures
        forall|files: spec_fn(Seq<char>) -> bool| #[trigger]
            agrees(*is_file, files) ==> final(privileged).ended(r) == old(
                privileged,
            ).session().install_helpers(*env, dir@, texts(names@), files),
{
    let ghost all = texts(names@);
    let mut i: usize = 0;
    assert(all.skip(0) =~= all);
    while i < names.len()
        invariant
            i <= names@.len(),
            all == texts(names@),
            answers(*is_file),
            forall|files: spec_fn(Seq<char>) -> bool| #[trigger]
                agrees(*is_file, files) ==> privileged.session().install_helpers(
                    *env,
                    dir@,
                    all.skip(i as int),
                    files,
                ) == old(privileged).session().install_helpers(*env, dir@, all, files),
        decreases names@.len() - i,
    {
        let name = names[i];
        assert(all.skip(i as int)[0] == name@);
        assert(all.skip(i as int).skip(1) =~= all.skip(i + 1));
        let src = joined(dir, name);
        let done = if !is_file(&src) {
            Err(Error::step(STEP_BINARIES, "missing ".to_owned().concat(&src)))
        } else {
            let dest = joined(&env.libdir, name);
            privileged.install_file(STEP_BINARIES, &src, &dest, "root", "root", "0755")
        };
        if let Err(e) = done {
            let ghost end = privileged.ended(Err::<(), Error>(e));
            assert forall|files: spec_fn(Seq<char>) -> bool| #[trigger]
                agrees(*is_file, files) implies end == old(privileged).session().install_helpers(
                *env,
                dir@,
                all,
                files,
            ) by {
                failed_helpers_end(end, *env, dir@, all.skip(i + 1), files);
            }
            return Err(e);
        }
        i += 1;
    }
    Ok(())
}

fn install_cli<R: CommandRunner, F: Fn(&str) -> bool>(
    privileged: &mut Privileged<R>,
    env: &ServiceEnv,
    bin: &str,
    is_file: &F,
) -> (r: Result<(), Error>)
    requires
        answers(*is_file),
    ensures
        forall|files: spec_fn(Seq<char>) -> bool| #[trigger]
            agrees(*is_file, files) ==> final(privileged).ended(r) == old(
                privileged,
            ).session().install_cli(*env, bin@, files),
{
    let cli = BUNDLE_BINARIES[2];
    let dest = joined(&env.bindir, cli);
    let src = match resolve_binary(cli, Some(bin), &env.bindir, is_file) {
        None => {
            return Err(
                Error::step_fix(
                    STEP_BINARIES,
                    "no firecrab (CLI) in ".to_owned().concat(bin).concat(" or ").concat(
                        &env.bindir,
                    ),
                    "pass it via --bin-dir, or install a release".to_owned(),
                ),
            );
        },
        Some(src) => src,
    };
    if same_path(&src, &dest) {
        privileged.say(log(&"keeping existing ".to_owned().concat(&dest)));
    } else {
        let dirs = [env.bindir.as_str()];
        assert(texts(dirs@) =~= seq![env.bindir@]);
        match privileged.install_dirs(STEP_BINARIES, &dirs, "root", "root", "0755") {
            Ok(()) => {},
            Err(e) => {
                return Err(e);
            },
        }
        match privileged.install_file(STEP_BINARIES, &src, &dest, "root", "root", "0755") {
            Ok(()) => {},
            Err(e) => {
                return Err(e);
            },
        }
    }
    privileged.say(
        log(
            &"binaries installed to ".to_owned().concat(&env.libdir).concat(" (cli → ").concat(
                &dest,
            ).concat(")"),
        ),
    );
    Ok(())
}

fn install_dashboard<R: CommandRunner, F: Fn(&str) -> bool>(
    privileged: &mut Privileged<R>,
    env: &ServiceEnv,
    source: &Option<String>,
    is_file: &F,
) -> (r: Result<(), Error>)
    requires
        answers(*is_file),
    ensures
        forall|files: spec_fn(Seq<char>) -> bool| #[trigger]
            agrees(*is_file, files) ==> final(privileged).ended(r) == old(
                privileged,
            ).session().install_dashboard(*env, opt_view(*source), files),
{
    let target = joined(&env.sharedir, "dashboard");
    if let Some(dir) = source {
        if is_file(&joined(dir, "index.html")) {
            let clear = ["-rf", target.as_str()];
            assert(texts(clear@) =~= seq!["-rf"@, target@]);
            match privileged.run_ok(STEP_BINARIES, "rm", &clear) {
                Ok(_) => {},
                Err(e) => {
                    return Err(e);
                },
            }
            let dirs = [target.as_str()];
            assert(texts(dirs@) =~= seq![target@]);
            match privileged.install_dirs(STEP_BINARIES, &dirs, "root", "root", "0755") {
                Ok(()) => {},
                Err(e) => {
                    return Err(e);
                },
            }
            let from = dir.clone().concat("/.");
            let into = target.clone().concat("/");
            let copy = ["-r", from.as_str(), into.as_str()];
            assert(texts(copy@) =~= seq!["-r"@, from@, into@]);
            match privileged.run_ok(STEP_BINARIES, "cp", &copy) {
                Ok(_) => {},
                Err(e) => {
                    return Err(e);
                },
            }
            let own = ["-R", "root:root", target.as_str()];
            assert(texts(own@) =~= seq!["-R"@, "root:root"@, target@]);
            match privileged.run_ok(STEP_BINARIES, "chown", &own) {
                Ok(_) => {},
                Err(e) => {
                    return Err(e);
                },
            }
            privileged.say(log(&"dashboard installed to ".to_owned().concat(&target)));
            return Ok(());
        }
    }
    if is_file(&joined(&target, "index.html")) {
        privileged.say(log(&"keeping existing ".to_owned().concat(&target)));
        Ok(())
    } else {
        Err(
            Error::step_fix(
                STEP_BINARIES,
                "dashboard not found".to_owned(),
                "pass --dashboard-dir, or use a release bundle".to_owned(),
            ),
        )
    }
}

/// Installs the programs, the scripts beside them, and the dashboard where it is
/// wanted. A program that is its own source stays as it is.
pub fn install_binaries<R: CommandRunner, F: Fn(&str) -> bool>(
    privileged: &mut Privileged<R>,
    env: &ServiceEnv,
    payload: &Payload,
    with_frontend: bool,
    is_file: &F,
) -> (r: Result<(), Error>)
    requires
        answers(*is_file),
    ensures
        forall|files: spec_fn(Seq<char>) -> bool| #[trigger]
            agrees(*is_file, files) ==> final(privileged).ended(r) == old(
                privileged,
            ).session().install_binaries(*env, payload@, with_frontend, files),
{
    let daemons = ["firecrab-api", "firecrab-net-helper"];
    assert(texts(daemons@) =~= seq!["firecrab-api"@, "firecrab-net-helper"@]);
    let ghost helper_names = seq!["extract-vmlinux"@, "extract-arm64-image"@];
    match install_daemons(privileged, env, &payload.bin, &daemons, is_file) {
        Ok(()) => {},
        Err(e) => {
            let ghost end = privileged.ended(Err::<(), Error>(e));
            assert forall|files: spec_fn(Seq<char>) -> bool| #[trigger]
                agrees(*is_file, files) implies end == old(privileged).session().install_binaries(
                *env,
                payload@,
                with_frontend,
                files,
            ) by {
                failed_helpers_end(end, *env, payload.extract@, helper_names, files);
            }
            return Err(e);
        },
    }
    let helpers = EXTRACT_HELPERS;
    assert(texts(helpers@) =~= helper_names);
    match install_helpers(privileged, env, &payload.extract, &helpers, is_file) {
        Ok(()) => {},
        Err(e) => {
            return Err(e);
        },
    }
    match install_cli(privileged, env, &payload.bin, is_file) {
        Ok(()) => {},
        Err(e) => {
            return Err(e);
        },
    }
    if with_frontend {
        install_dashboard(privileged, env, &payload.dashboard, is_file)
    } else {
        Ok(())
    }
}

/// Writes the configuration unless it is there.
pub fn install_config<R: CommandRunner, F: Fn(&str) -> bool>(
    privileged: &mut Privileged<R>,
    env: &ServiceEnv,
    is_file: &F,
) -> (r: Result<(), Error>)
    requires
        answers(*is_file),
    ensures
        forall|files: spec_fn(Seq<char>) -> bool| #[trigger]
            agrees(*is_file, files) ==> final(privileged).ended(r) == old(
                privileged,
            ).session().install_config(*env, files(join(env.confdir@, "api.env"@))),
{
    let api_env = joined(&env.confdir, "api.env");
    if is_file(&api_env) {
        privileged.say(log(&"keeping existing ".to_owned().concat(&api_env)));
        return Ok(());
    }
    match privileged.write_file(STEP_CONFIG, &api_env, API_ENV_TEMPLATE.as_bytes(), "0640") {
        Ok(()) => {},
        Err(e) => {
            return Err(e);
        },
    }
    let owner = "root:".to_owned().concat(&env.group);
    let args = [owner.as_str(), api_env.as_str()];
    assert(texts(args@) =~= seq![owner@, api_env@]);
    match privileged.run_ok(STEP_CONFIG, "chown", &args) {
        Ok(_) => {},
        Err(e) => {
            return Err(e);
        },
    }
    privileged.say(log(&"wrote ".to_owned().concat(&api_env)));
    Ok(())
}

} // verus!
