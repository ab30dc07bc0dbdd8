//! Installing, removing and controlling the host services.
//!
//! Every change to the host goes through [`privileged::Privileged`], which puts
//! `sudo` in front of the command where that is needed; read-only probes run
//! without it.

use vstd::prelude::*;

pub mod access;
pub mod control;
pub mod deps;
pub mod effects;
pub mod env;
pub mod firecracker;
pub mod laws;
pub mod layout;
pub mod output;
pub mod payload;
pub mod pkg;
pub mod privileged;
pub mod probe;
pub mod promises;
pub mod selinux;
pub mod uninstall;
pub mod shares;
pub mod tools;
pub mod units;

#[allow(unused_imports)]
use crate::files::{agrees, answers};
#[allow(unused_imports)]
use crate::path::join;
use crate::shell::CommandRunner;
use env::ServiceEnv;
use privileged::Privileged;
#[allow(unused_imports)]
use privileged::Session;
use probe::Probe;
#[allow(unused_imports)]
use probe::{watch, Watch};

verus! {

/// Options of installing.
#[derive(Debug)]
pub struct InstallOpts {
    /// The release to install; none is the latest.
    pub version: Option<String>,
    /// The C library that the release must be built for.
    pub libc: Option<String>,
    /// A directory of built programs to install in place of a release.
    pub bin_dir: Option<String>,
    /// The dashboard to install with `bin_dir`.
    pub dashboard_dir: Option<String>,
    /// Install neither packages nor Firecracker, and report what is missing.
    pub no_deps: bool,
    /// Leave out the dashboard.
    pub no_frontend: bool,
    /// Report each step without changing the host.
    pub check: bool,
}

/// What the operator wants done with the services.
#[derive(Debug)]
pub enum Command {
    /// Install them.
    Install(InstallOpts),
    /// Stop and remove them; with `purge` their data and configuration too.
    Uninstall { purge: bool },
    /// Remove them and install them again.
    Reinstall { purge: bool, opts: InstallOpts },
    /// Start them.
    Start,
    /// Stop them.
    Stop,
    /// Stop and start them.
    Restart,
    /// Start them at boot.
    Enable,
    /// Do not start them at boot.
    Disable,
}

impl Command {
    /// Whether the command controls services that must be installed.
    pub open spec fn controls(self) -> bool {
        self is Start || self is Stop || self is Restart || self is Enable || self is Disable
    }

    /// What the command comes to on a session in which `sudo` is ready, and how the
    /// wait for the API then stands.
    pub open spec fn done(
        self,
        ready: Session,
        env: ServiceEnv,
        bind: Seq<char>,
        watch: Watch,
        files: spec_fn(Seq<char>) -> bool,
    ) -> (Session, Watch) {
        match self {
            Command::Install(_) | Command::Reinstall { .. } => (
                ready.fail(failed("service"@, "not implemented yet"@)),
                watch,
            ),
            Command::Uninstall { purge } => (
                ready.uninstall(env, purge, files(join(env.libdir@, "firecrab-net-helper"@))),
                watch,
            ),
            Command::Start => units::confirmed(
                ready.systemctl(units::STEP_START@, "start"@),
                watch,
                units::API_ATTEMPTS,
                bind,
            ),
            Command::Stop => (ready.stop(), watch),
            Command::Restart => units::confirmed(
                ready.stop().systemctl(units::STEP_START@, "start"@),
                watch,
                units::API_ATTEMPTS,
                bind,
            ),
            Command::Enable => (ready.systemctl(units::STEP_UNITS@, "enable"@), watch),
            Command::Disable => (ready.systemctl(units::STEP_UNITS@, "disable"@), watch),
        }
    }

    /// Whether `end` is what the command comes to, with the wait for the API: services
    /// to be controlled must be installed, then `sudo` is made ready, then the work is
    /// done.
    pub open spec fn carried_out<V: Fn() -> bool>(
        self,
        begun: Session,
        env: ServiceEnv,
        bind: Seq<char>,
        has_tty: bool,
        validate: V,
        watch: Watch,
        files: spec_fn(Seq<char>) -> bool,
        end: (Session, Watch),
    ) -> bool {
        if self is Install || self is Reinstall {
            end == (begun.fail(failed("service"@, "not implemented yet"@)), watch)
        } else if self.controls() && !(files(join(env.unitdir@, env::units()[0])) && files(
            join(env.unitdir@, env::units()[1]),
        )) {
            end == (begun.fail(Failure::NotInstalled), watch)
        } else {
            exists|ready: Session| #[trigger]
                begun.ticketed(has_tty, validate, ready) && (if ready.failure is Some {
                    end == (ready, watch)
                } else {
                    end == self.done(ready, env, bind, watch, files)
                })
        }
    }
}

/// Carries out one service command. `is_file` and `present` answer for the file
/// system, `validate` asks the operator for the password, and `probe` asks the API.
pub fn run<
    R: CommandRunner,
    F: Fn(&str) -> bool,
    X: Fn(&str) -> bool,
    V: Fn() -> bool,
    P: Probe,
>(
    privileged: &mut Privileged<R>,
    env: &ServiceEnv,
    bind: &str,
    command: &Command,
    is_file: &F,
    present: &X,
    validate: &V,
    probe: &mut P,
) -> (r: Result<(), Error>)
    requires
        answers(*is_file),
        answers(*present),
        call_requires(*validate, ()),
    ensures
        forall|files: spec_fn(Seq<char>) -> bool, paths: spec_fn(Seq<char>) -> bool|
            #![trigger agrees(*is_file, files), agrees(*present, paths)]
            agrees(*is_file, files) && agrees(*present, paths) ==> command.carried_out(
                old(privileged).session(),
                *env,
                bind@,
                paths("/dev/tty"@),
                *validate,
                watch(*old(probe)),
                files,
                (final(privileged).ended(r), watch(*final(probe))),
            ),
{
    match command {
        Command::Install(_) | Command::Reinstall { .. } => {
            return Err(Error::step("service", "not implemented yet".to_owned()));
        },
        Command::Uninstall { .. } => {},
        _ => match units::require_installed(env, is_file) {
            Ok(()) => {},
            Err(e) => {
                return Err(e);
            },
        },
    }
    match privileged.ensure_ticket(present, validate) {
        Ok(()) => {},
        Err(e) => {
            return Err(e);
        },
    }
    let ghost ready = privileged.session();
    let r = match command {
        Command::Start => units::start(privileged, bind, probe),
        Command::Stop => units::stop(privileged),
        Command::Restart => match units::stop(privileged) {
            Ok(()) => units::start(privileged, bind, probe),
            Err(e) => Err(e),
        },
        Command::Enable => units::enable(privileged),
        Command::Disable => units::disable(privileged),
        Command::Uninstall { purge } => uninstall::uninstall(privileged, env, *purge, is_file),
        Command::Install(_) | Command::Reinstall { .. } => Err(
            Error::step("service", "not implemented yet".to_owned()),
        ),
    };
    proof {
        assert forall|files: spec_fn(Seq<char>) -> bool, paths: spec_fn(Seq<char>) -> bool|
            #![trigger agrees(*is_file, files), agrees(*present, paths)]
            agrees(*is_file, files) && agrees(*present, paths) implies command.carried_out(
            old(privileged).session(),
            *env,
            bind@,
            paths("/dev/tty"@),
            *validate,
            watch(*old(probe)),
            files,
            (privileged.ended(r), watch(*probe)),
        ) by {
            assert(old(privileged).session().ticketed(paths("/dev/tty"@), *validate, ready));
        }
    }
    r
}

/// Everything the service commands can fail at.
#[derive(Debug)]
pub enum Error {
    /// One step failed.
    Step {
        /// The step's name.
        step: &'static str,
        /// What went wrong.
        detail: String,
        /// How to mend it, if known.
        fix: Option<String>,
    },
    /// sudo is missing, needs a password without a terminal, or refused.
    Sudo(String),
    /// A unit file is missing.
    NotInstalled,
    /// A release could not be had; holds the reason.
    Bundle(String),
}

/// What an [`Error`] says, as contracts speak of it.
pub enum Failure {
    Step { step: Seq<char>, detail: Seq<char>, fix: Option<Seq<char>> },
    Sudo(Seq<char>),
    NotInstalled,
    Bundle(Seq<char>),
}

impl View for Error {
    type V = Failure;

    open spec fn view(&self) -> Failure {
        match self {
            Error::Step { step, detail, fix } => Failure::Step {
                step: step@,
                detail: detail@,
                fix: match fix {
                    Some(text) => Some(text@),
                    None => None,
                },
            },
            Error::Sudo(text) => Failure::Sudo(text@),
            Error::NotInstalled => Failure::NotInstalled,
            Error::Bundle(text) => Failure::Bundle(text@),
        }
    }
}

/// A failed step without advice.
pub open spec fn failed(step: Seq<char>, detail: Seq<char>) -> Failure {
    Failure::Step { step, detail, fix: None }
}

/// A failed step with advice.
pub open spec fn failed_fix(step: Seq<char>, detail: Seq<char>, fix: Seq<char>) -> Failure {
    Failure::Step { step, detail, fix: Some(fix) }
}

/// A result that either succeeded or failed for the reason given.
pub open spec fn outcome<T>(r: Result<T, Error>) -> Result<(), Failure> {
    match r {
        Ok(_) => Ok(()),
        Err(e) => Err(e@),
    }
}

impl Error {
    /// A failed step without advice.
    pub fn step(step: &'static str, detail: String) -> (r: Self)
        ensures
            r@ == failed(step@, detail@),
    {
        Error::Step { step, detail, fix: None }
    }

    /// A failed step with advice.
    pub fn step_fix(step: &'static str, detail: String, fix: String) -> (r: Self)
        ensures
            r@ == failed_fix(step@, detail@, fix@),
    {
        Error::Step { step, detail, fix: Some(fix) }
    }

    /// The failure in one line.
    pub fn message(&self) -> (r: String)
        ensures
            r@ == self@.message(),
    {
        match self {
            Error::Step { step, detail, .. } => (*step).to_owned().concat(": ").concat(detail),
            Error::Sudo(text) => "sudo: ".to_owned().concat(text),
            Error::NotInstalled =>
                "firecrab is not installed — run `firecrab service install`".to_owned(),
            Error::Bundle(text) => text.clone(),
        }
    }

    /// The lines that report the failure on the error stream, with the advice
    /// behind it where there is one.
    pub fn report(&self) -> (r: Vec<String>)
        ensures
            crate::text::views(r@) == self@.report(),
    {
        let mut lines: Vec<String> = Vec::new();
        lines.push(output::fail(&self.message()).render());
        if let Error::Step { fix: Some(fix), .. } = self {
            lines.push("  → ".to_owned().concat(fix));
        }
        assert(crate::text::views(lines@) =~= self@.report());
        lines
    }
}

impl Failure {
    /// The failure in one line.
    pub open spec fn message(self) -> Seq<char> {
        match self {
            Failure::Step { step, detail, .. } => step + ": "@ + detail,
            Failure::Sudo(text) => "sudo: "@ + text,
            Failure::NotInstalled => "firecrab is not installed — run `firecrab service install`"@,
            Failure::Bundle(text) => text,
        }
    }

    /// The lines that report the failure.
    pub open spec fn report(self) -> Seq<Seq<char>> {
        let first = output::mark(output::Level::Fail) + self.message();
        match self {
            Failure::Step { fix: Some(fix), .. } => seq![first, "  → "@ + fix],
            _ => seq![first],
        }
    }
}

} // verus!
