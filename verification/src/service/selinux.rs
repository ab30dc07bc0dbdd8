//! SELinux labels on the installed programs.
//!
//! The rule that takes a service out of `init_t` holds for `bin_t` programs only;
//! without that label the API stays in `init_t`, where SELinux denies it every
//! connection to a registry.

use vstd::prelude::*;

use super::env::ServiceEnv;
use super::output::{log, warn};
use super::pkg::have;
use super::privileged::Privileged;
#[allow(unused_imports)]
use super::privileged::Session;
use crate::shell::CommandRunner;
#[allow(unused_imports)]
use crate::shell::{host, Host, Reply};
use crate::text::{decode_lossy, same, trimmed};
#[allow(unused_imports)]
use crate::text::{texts, trim, utf8_lossy};

verus! {

/// Whether `getenforce` answered that SELinux is loaded: a permissive one counts,
/// since wrong labels would break the installation once it enforces.
pub open spec fn loaded(reply: Reply) -> bool {
    match reply {
        Reply::Done { stdout, .. } => {
            let mode = trim(utf8_lossy(stdout));
            mode == "Enforcing"@ || mode == "Permissive"@
        },
        Reply::Failed { .. } => false,
    }
}

impl Host {
    /// Whether SELinux is loaded.
    pub open spec fn selinux_active(self) -> (Host, bool) {
        let (after, found) = self.have("getenforce"@);
        if !found {
            (after, false)
        } else {
            let (after, reply) = after.run("getenforce"@, Seq::empty());
            (after, loaded(reply))
        }
    }
}

/// The pattern of paths that the label is recorded for.
pub open spec fn label_pattern(libdir: Seq<char>) -> Seq<char> {
    libdir + "(/.*)?"@
}

impl Session {
    /// Whether SELinux is loaded; a run that has failed does not look.
    pub open spec fn selinux_active(self) -> (Session, bool) {
        if self.failure is Some {
            (self, false)
        } else {
            let (host, active) = self.host.selinux_active();
            (Session { host, ..self }, active)
        }
    }

    /// Records the label for `libdir`, by changing a rule where one is there already,
    /// and says whether it could be recorded.
    pub open spec fn record_label(self, libdir: Seq<char>) -> (Session, bool) {
        let pattern = label_pattern(libdir);
        let (after, added) = self.attempt(
            "semanage"@,
            seq!["fcontext"@, "-a"@, "-t"@, "bin_t"@, pattern],
        );
        if added.succeeded() {
            (after, true)
        } else {
            let (after, modified) = after.attempt(
                "semanage"@,
                seq!["fcontext"@, "-m"@, "-t"@, "bin_t"@, pattern],
            );
            (after, modified.succeeded())
        }
    }

    /// Applies the recorded label to `libdir`, where that can be done.
    pub open spec fn apply_label(self, libdir: Seq<char>) -> Session {
        let (after, found) = self.have("restorecon"@);
        if !found {
            after
        } else {
            let (after, reply) = after.attempt("restorecon"@, seq!["-R"@, libdir]);
            if reply.succeeded() {
                after
            } else {
                after.warn("restorecon failed for "@ + libdir)
            }
        }
    }

    /// Labels `libdir` where SELinux is loaded; what goes wrong is warned of.
    pub open spec fn label_binaries(self, libdir: Seq<char>) -> Session {
        let (after, active) = self.selinux_active();
        if !active {
            after
        } else {
            let (after, found) = after.have("semanage"@);
            if !found {
                after.warn(
                    "semanage missing; cannot label "@ + libdir
                        + " bin_t — the services will stay in init_t and every registry read will fail (see `firecrab doctor`)"@,
                )
            } else {
                let (after, recorded) = after.record_label(libdir);
                if !recorded {
                    after.warn("could not record an SELinux file context for "@ + libdir)
                } else {
                    after.apply_label(libdir).log("SELinux: "@ + libdir + " labelled bin_t"@)
                }
            }
        }
    }

    /// Removes the rule that labels `libdir`, so that it does not outlive the
    /// directory.
    pub open spec fn unlabel_binaries(self, libdir: Seq<char>) -> Session {
        let (after, found) = self.have("semanage"@);
        if !found {
            after
        } else {
            after.attempt("semanage"@, seq!["fcontext"@, "-d"@, label_pattern(libdir)]).0
        }
    }
}

/// Whether SELinux is loaded.
pub fn selinux_active<R: CommandRunner>(runner: &mut R) -> (r: bool)
    ensures
        (host(*final(runner)), r) == host(*old(runner)).selinux_active(),
{
    if !have(runner, "getenforce") {
        return false;
    }
    let args: [&str; 0] = [];
    assert(texts(args@) =~= Seq::<Seq<char>>::empty());
    match runner.run("getenforce", &args) {
        Ok(out) => {
            let mode = trimmed(&decode_lossy(&out.stdout));
            same(&mode, "Enforcing") || same(&mode, "Permissive")
        },
        Err(_) => false,
    }
}

/// The pattern of paths that the label is recorded for.
pub fn pattern(env: &ServiceEnv) -> (r: String)
    ensures
        r@ == label_pattern(env.libdir@),
{
    env.libdir.clone().concat("(/.*)?")
}

/// Labels the library directory where SELinux is loaded; what goes wrong is
/// warned of.
pub fn label_binaries<R: CommandRunner>(privileged: &mut Privileged<R>, env: &ServiceEnv)
    ensures
        final(privileged).session() == old(privileged).session().label_binaries(env.libdir@),
{
    if !selinux_active(privileged.runner_mut()) {
        return;
    }
    let libdir = env.libdir.as_str();
    let pattern = pattern(env);
    if !privileged.have("semanage") {
        privileged.say(
            warn(
                &"semanage missing; cannot label ".to_owned().concat(libdir).concat(
                    " bin_t — the services will stay in init_t and every registry read will fail (see `firecrab doctor`)",
                ),
            ),
        );
        return;
    }
    let add = ["fcontext", "-a", "-t", "bin_t", pattern.as_str()];
    assert(texts(add@) =~= seq!["fcontext"@, "-a"@, "-t"@, "bin_t"@, pattern@]);
    let added = match privileged.run("semanage", &add) {
        Ok(out) => out.status.success(),
        Err(_) => false,
    };
    if !added {
        let modify = ["fcontext", "-m", "-t", "bin_t", pattern.as_str()];
        assert(texts(modify@) =~= seq!["fcontext"@, "-m"@, "-t"@, "bin_t"@, pattern@]);
        let modified = match privileged.run("semanage", &modify) {
            Ok(out) => out.status.success(),
            Err(_) => false,
        };
        if !modified {
            privileged.say(
                warn(&"could not record an SELinux file context for ".to_owned().concat(libdir)),
            );
            return;
        }
    }
    if privileged.have("restorecon") {
        let args = ["-R", libdir];
        assert(texts(args@) =~= seq!["-R"@, libdir@]);
        let restored = match privileged.run("restorecon", &args) {
            Ok(out) => out.status.success(),
            Err(_) => false,
        };
        if !restored {
            privileged.say(warn(&"restorecon failed for ".to_owned().concat(libdir)));
        }
    }
    privileged.say(log(&"SELinux: ".to_owned().concat(libdir).concat(" labelled bin_t")));
}

/// Removes the rule that labels the library directory.
pub fn unlabel_binaries<R: CommandRunner>(privileged: &mut Privileged<R>, env: &ServiceEnv)
    ensures
        final(privileged).session() == old(privileged).session().unlabel_binaries(env.libdir@),
{
    if !privileged.have("semanage") {
        return;
    }
    let pattern = pattern(env);
    let args = ["fcontext", "-d", pattern.as_str()];
    assert(texts(args@) =~= seq!["fcontext"@, "-d"@, pattern@]);
    let _ = privileged.run("semanage", &args);
}

} // verus!
