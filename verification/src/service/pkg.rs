//! The package managers of the host's distribution.

use vstd::prelude::*;

use super::output::warn;
use super::privileged::Privileged;
#[allow(unused_imports)]
use super::privileged::Session;
use super::Error;
#[allow(unused_imports)]
use super::failed;
use crate::shell::CommandRunner;
#[allow(unused_imports)]
use crate::shell::{host, Host};
use crate::text::{joined, same};
#[allow(unused_imports)]
use crate::text::{join, texts};

verus! {

impl Host {
    /// Whether a command is on the path.
    pub open spec fn have(self, cmd: Seq<char>) -> (Host, bool) {
        let (after, reply) = self.run("sh"@, seq!["-c"@, "command -v "@ + cmd]);
        (after, reply.succeeded())
    }
}

impl Session {
    /// Whether a command is on the path; a run that has failed does not look.
    pub open spec fn have(self, cmd: Seq<char>) -> (Session, bool) {
        if self.failure is Some {
            (self, false)
        } else {
            let (host, found) = self.host.have(cmd);
            (Session { host, ..self }, found)
        }
    }
}

/// Whether a command is on the path. A shell is asked, since `command` is built
/// into it.
pub fn have<R: CommandRunner>(runner: &mut R, cmd: &str) -> (r: bool)
    ensures
        (host(*final(runner)), r) == host(*old(runner)).have(cmd@),
{
    let probe = "command -v ".to_owned().concat(cmd);
    let args = ["-c", probe.as_str()];
    assert(texts(args@) =~= seq!["-c"@, "command -v "@ + cmd@]);
    match runner.run("sh", &args) {
        Ok(out) => out.status.success(),
        Err(_) => false,
    }
}

impl<R: CommandRunner> Privileged<R> {
    /// Whether a command is on the path.
    pub fn have(&mut self, cmd: &str) -> (r: bool)
        ensures
            (final(self).session(), r) == old(self).session().have(cmd@),
    {
        have(self.runner_mut(), cmd)
    }
}

/// The package managers known, in the order in which they are looked for.
#[derive(Debug, Clone, Copy, PartialEq, Eq, Structural)]
pub enum PkgManager {
    /// Debian, Ubuntu.
    AptGet,
    /// Fedora, RHEL.
    Dnf,
    /// openSUSE.
    Zypper,
    /// Arch.
    Pacman,
    /// Alpine.
    Apk,
}

/// The package managers in the order in which they are looked for.
pub open spec fn managers() -> Seq<PkgManager> {
    seq![
        PkgManager::AptGet,
        PkgManager::Dnf,
        PkgManager::Zypper,
        PkgManager::Pacman,
        PkgManager::Apk,
    ]
}

impl Host {
    /// The first of `candidates` on the path; the ones behind it are not looked for.
    pub open spec fn detect(self, candidates: Seq<PkgManager>) -> (Host, Option<PkgManager>)
        decreases candidates.len(),
    {
        if candidates.len() == 0 {
            (self, None)
        } else {
            let (after, found) = self.have(candidates[0].name());
            if found {
                (after, Some(candidates[0]))
            } else {
                after.detect(candidates.skip(1))
            }
        }
    }
}

impl PkgManager {
    /// The program's name.
    pub open spec fn name(self) -> Seq<char> {
        match self {
            PkgManager::AptGet => "apt-get"@,
            PkgManager::Dnf => "dnf"@,
            PkgManager::Zypper => "zypper"@,
            PkgManager::Pacman => "pacman"@,
            PkgManager::Apk => "apk"@,
        }
    }

    /// The package that provides what `generic` stands for, where this manager
    /// has another name for it.
    pub open spec fn package(self, generic: Seq<char>) -> Seq<char> {
        if generic == "iproute2"@ && self is Dnf {
            "iproute"@
        } else if generic == "dnsmasq-utils"@ && self is Dnf {
            "dnsmasq"@
        } else if generic == "e2fsprogs"@ && self is Apk {
            "e2fsprogs-extra"@
        } else if generic == "xz"@ && self is AptGet {
            "xz-utils"@
        } else if generic == "selinux-tools"@ {
            if self is Dnf || self is AptGet || self is Zypper {
                "policycoreutils-python-utils"@
            } else {
                "policycoreutils"@
            }
        } else {
            generic
        }
    }

    /// The first package manager on the path.
    pub fn detect<R: CommandRunner>(runner: &mut R) -> (r: Option<Self>)
        ensures
            (host(*final(runner)), r) == host(*old(runner)).detect(managers()),
    {
        let candidates = [
            PkgManager::AptGet,
            PkgManager::Dnf,
            PkgManager::Zypper,
            PkgManager::Pacman,
            PkgManager::Apk,
        ];
        let mut i: usize = 0;
        assert(candidates@ =~= managers());
        assert(managers().skip(0) =~= managers());
        while i < 5
            invariant
                i <= 5,
                candidates@ == managers(),
                managers().len() == 5,
                host(*runner).detect(managers().skip(i as int)) == host(*old(runner)).detect(
                    managers(),
                ),
            decreases 5 - i,
        {
            assert(managers().skip(i as int)[0] == candidates@[i as int]);
            assert(managers().skip(i as int).skip(1) =~= managers().skip(i + 1));
            if have(runner, candidates[i].as_str()) {
                return Some(candidates[i]);
            }
            i += 1;
        }
        None
    }

    /// The program's name.
    pub fn as_str(&self) -> (r: &'static str)
        ensures
            r@ == self.name(),
    {
        match self {
            PkgManager::AptGet => "apt-get",
            PkgManager::Dnf => "dnf",
            PkgManager::Zypper => "zypper",
            PkgManager::Pacman => "pacman",
            PkgManager::Apk => "apk",
        }
    }

    /// The packages that provide what `generic` stands for.
    pub fn packages_for<'a>(&self, generic: &'a str) -> (r: Vec<&'a str>)
        ensures
            texts(r@) == seq![self.package(generic@)],
    {
        let manager = *self;
        let package = if same(generic, "iproute2") && manager == PkgManager::Dnf {
            "iproute"
        } else if same(generic, "dnsmasq-utils") && manager == PkgManager::Dnf {
            "dnsmasq"
        } else if same(generic, "e2fsprogs") && manager == PkgManager::Apk {
            "e2fsprogs-extra"
        } else if same(generic, "xz") && manager == PkgManager::AptGet {
            "xz-utils"
        } else if same(generic, "selinux-tools") {
            match manager {
                PkgManager::Dnf | PkgManager::AptGet | PkgManager::Zypper => {
                    "policycoreutils-python-utils"
                },
                PkgManager::Pacman | PkgManager::Apk => "policycoreutils",
            }
        } else {
            generic
        };
        let r = vec![package];
        assert(texts(r@) =~= seq![self.package(generic@)]);
        r
    }
}

/// Installs packages, and refreshes the package index at most once.
pub struct Packages<R: CommandRunner> {
    manager: Option<PkgManager>,
    privileged: Privileged<R>,
    refreshed: bool,
}

/// [`Packages`] as contracts speak of it.
pub struct PackageRun {
    pub manager: Option<PkgManager>,
    pub session: Session,
    pub refreshed: bool,
}

impl PackageRun {
    /// Brings the package index up to date where installing does not, once.
    pub open spec fn refresh(self, name: Seq<char>) -> PackageRun {
        if self.refreshed || self.session.failure is Some {
            self
        } else {
            let session = match self.manager {
                Some(PkgManager::AptGet) => self.session.must_env(
                    name,
                    seq![("DEBIAN_FRONTEND"@, "noninteractive"@)],
                    "apt-get"@,
                    seq!["update"@, "-qq"@],
                ),
                Some(PkgManager::Apk) => self.session.must(name, "apk"@, seq!["update"@, "-q"@]),
                _ => self.session,
            };
            PackageRun { manager: self.manager, session, refreshed: true }
        }
    }

    /// One try at installing packages.
    pub open spec fn install_once(self, name: Seq<char>, packages: Seq<Seq<char>>) -> PackageRun {
        let session = match self.manager {
            None => self.session.fail(
                failed(name, "no known package manager for: "@ + join(packages, " "@)),
            ),
            Some(PkgManager::AptGet) => self.session.must_env(
                name,
                seq![("DEBIAN_FRONTEND"@, "noninteractive"@)],
                "apt-get"@,
                seq!["install"@, "-y"@, "-qq"@] + packages,
            ),
            Some(PkgManager::Dnf) => self.session.must(
                name,
                "dnf"@,
                seq!["install"@, "-y"@, "-q"@] + packages,
            ),
            Some(PkgManager::Zypper) => self.session.must(
                name,
                "zypper"@,
                seq!["--non-interactive"@, "install"@, "-y"@] + packages,
            ),
            Some(PkgManager::Pacman) => self.session.must(
                name,
                "pacman"@,
                seq!["-Sy"@, "--noconfirm"@, "--needed"@] + packages,
            ),
            Some(PkgManager::Apk) => self.session.must(
                name,
                "apk"@,
                seq!["add"@, "--no-cache"@] + packages,
            ),
        };
        PackageRun { session, ..self }
    }

    /// The run without the failure that ended it.
    pub open spec fn resumed(self) -> PackageRun {
        PackageRun { session: Session { failure: None, ..self.session }, ..self }
    }

    /// Installs packages: the index is refreshed first, and a failed install is
    /// tried once more.
    pub open spec fn install(self, name: Seq<char>, packages: Seq<Seq<char>>) -> PackageRun {
        if self.session.failure is Some {
            self
        } else if self.manager is None {
            self.install_once(name, packages)
        } else {
            let ready = self.refresh(name);
            let tried = ready.install_once(name, packages);
            if ready.session.failure is Some || tried.session.failure is None {
                tried
            } else {
                let again = tried.resumed();
                PackageRun {
                    session: again.session.warn("package install failed; retrying once"@),
                    ..again
                }.install_once(name, packages)
            }
        }
    }
}

/// `head` followed by `packages`.
fn with_packages<'a>(head: Vec<&'a str>, packages: &[&'a str]) -> (r: Vec<&'a str>)
    ensures
        texts(r@) == texts(head@) + texts(packages@),
{
    let ghost start = head@;
    let mut args = head;
    let mut i: usize = 0;
    while i < packages.len()
        invariant
            i <= packages@.len(),
            args@ == start + packages@.take(i as int),
        decreases packages@.len() - i,
    {
        args.push(packages[i]);
        i += 1;
        assert(args@ =~= start + packages@.take(i as int));
    }
    assert(texts(args@) =~= texts(start) + texts(packages@));
    args
}

impl<R: CommandRunner> Packages<R> {
    /// The package manager, if one was found.
    pub closed spec fn found(&self) -> Option<PkgManager> {
        self.manager
    }

    /// Whether the package index has been refreshed.
    pub closed spec fn fresh(&self) -> bool {
        self.refreshed
    }

    /// The run below.
    pub closed spec fn below(&self) -> Privileged<R> {
        self.privileged
    }

    /// The run so far.
    pub open spec fn state(&self) -> PackageRun {
        PackageRun {
            manager: self.found(),
            session: self.below().session(),
            refreshed: self.fresh(),
        }
    }

    /// The run so far, ended by a failure if `r` is one.
    pub open spec fn ended<T>(&self, r: Result<T, Error>) -> PackageRun {
        let state = self.state();
        PackageRun {
            session: Session {
                failure: match r {
                    Ok(_) => None,
                    Err(e) => Some(e@),
                },
                ..state.session
            },
            ..state
        }
    }

    /// A package manager, if one was found, with the run that it works in.
    pub fn new(manager: Option<PkgManager>, privileged: Privileged<R>) -> (r: Self)
        ensures
            r.state() == (PackageRun { manager, session: privileged.session(), refreshed: false }),
    {
        Packages { manager, privileged, refreshed: false }
    }

    /// The run that the package manager works in.
    pub fn into_privileged(self) -> (r: Privileged<R>)
        ensures
            r.session() == self.state().session,
    {
        self.privileged
    }

    /// The package manager, if one was found.
    pub fn manager(&self) -> (r: Option<PkgManager>)
        ensures
            r == self.state().manager,
    {
        self.manager
    }

    /// The runner below.
    pub fn runner(&self) -> (r: &R)
        ensures
            host(*r) == self.state().session.host,
    {
        self.privileged.runner()
    }

    /// Whether a command is on the path.
    pub fn have(&mut self, cmd: &str) -> (r: bool)
        ensures
            final(self).state() == (PackageRun {
                session: old(self).state().session.have(cmd@).0,
                ..old(self).state()
            }),
            r == old(self).state().session.have(cmd@).1,
    {
        self.privileged.have(cmd)
    }

    /// Tells the operator something.
    pub fn say(&mut self, line: super::output::Line)
        ensures
            final(self).state() == (PackageRun {
                session: old(self).state().session.say(line.level, line.text@),
                ..old(self).state()
            }),
    {
        self.privileged.say(line);
    }

    /// Brings the package index up to date where installing does not, once.
    fn refresh(&mut self, name: &'static str) -> (r: Result<(), Error>)
        ensures
            final(self).ended(r) == old(self).state().refresh(name@),
    {
        if self.refreshed {
            return Ok(());
        }
        self.refreshed = true;
        match self.manager {
            Some(PkgManager::AptGet) => {
                let envs = [("DEBIAN_FRONTEND", "noninteractive")];
                let args = ["update", "-qq"];
                assert(texts(args@) =~= seq!["update"@, "-qq"@]);
                assert(envs@.map_values(|e: (&str, &str)| (e.0@, e.1@)) =~= seq![
                    ("DEBIAN_FRONTEND"@, "noninteractive"@),
                ]);
                match self.privileged.run_env(name, &envs, "apt-get", &args) {
                    Ok(_) => Ok(()),
                    Err(e) => Err(e),
                }
            },
            Some(PkgManager::Apk) => {
                let args = ["update", "-q"];
                assert(texts(args@) =~= seq!["update"@, "-q"@]);
                match self.privileged.run_ok(name, "apk", &args) {
                    Ok(_) => Ok(()),
                    Err(e) => Err(e),
                }
            },
            _ => Ok(()),
        }
    }

    /// One try at installing packages.
    fn install_once(&mut self, name: &'static str, packages: &[&str]) -> (r: Result<(), Error>)
        ensures
            final(self).ended(r) == old(self).state().install_once(name@, texts(packages@)),
    {
        let manager = match self.manager {
            Some(manager) => manager,
            None => {
                return Err(
                    Error::step(
                        name,
                        "no known package manager for: ".to_owned().concat(&joined(packages, " ")),
                    ),
                );
            },
        };
        let done = match manager {
            PkgManager::AptGet => {
                let head = vec!["install", "-y", "-qq"];
                assert(texts(head@) =~= seq!["install"@, "-y"@, "-qq"@]);
                let args = with_packages(head, packages);
                let envs = [("DEBIAN_FRONTEND", "noninteractive")];
                assert(envs@.map_values(|e: (&str, &str)| (e.0@, e.1@)) =~= seq![
                    ("DEBIAN_FRONTEND"@, "noninteractive"@),
                ]);
                self.privileged.run_env(name, &envs, "apt-get", &args)
            },
            PkgManager::Dnf => {
                let head = vec!["install", "-y", "-q"];
                assert(texts(head@) =~= seq!["install"@, "-y"@, "-q"@]);
                self.privileged.run_ok(name, "dnf", &with_packages(head, packages))
            },
            PkgManager::Zypper => {
                let head = vec!["--non-interactive", "install", "-y"];
                assert(texts(head@) =~= seq!["--non-interactive"@, "install"@, "-y"@]);
                self.privileged.run_ok(name, "zypper", &with_packages(head, packages))
            },
            PkgManager::Pacman => {
                let head = vec!["-Sy", "--noconfirm", "--needed"];
                assert(texts(head@) =~= seq!["-Sy"@, "--noconfirm"@, "--needed"@]);
                self.privileged.run_ok(name, "pacman", &with_packages(head, packages))
            },
            PkgManager::Apk => {
                let head = vec!["add", "--no-cache"];
                assert(texts(head@) =~= seq!["add"@, "--no-cache"@]);
                self.privileged.run_ok(name, "apk", &with_packages(head, packages))
            },
        };
        match done {
            Ok(_) => Ok(()),
            Err(e) => Err(e),
        }
    }

    /// Installs packages: the index is refreshed first, and a failed install is
    /// tried once more, since mirrors fail now and then.
    pub fn install(&mut self, name: &'static str, packages: &[&str]) -> (r: Result<(), Error>)
        ensures
            final(self).ended(r) == old(self).state().install(name@, texts(packages@)),
    {
        if self.manager.is_none() {
            return self.install_once(name, packages);
        }
        match self.refresh(name) {
            Ok(()) => {},
            Err(e) => {
                return Err(e);
            },
        }
        match self.install_once(name, packages) {
            Ok(()) => Ok(()),
            Err(_) => {
                self.say(warn("package install failed; retrying once"));
                self.install_once(name, packages)
            },
        }
    }
}

} // verus!
