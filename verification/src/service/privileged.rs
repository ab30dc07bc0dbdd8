//! Commands that change the host, with `sudo` in front unless already root.
//!
//! Only the commands that change something get `sudo`: home directory, keys and
//! download caches stay those of the caller.

use vstd::prelude::*;

use super::output::{step, Line};
use super::Error;
#[allow(unused_imports)]
use super::output::{notes, Level, Note};
#[allow(unused_imports)]
use super::{failed, Failure};
#[allow(unused_imports)]
use crate::files::{agrees, answers};
use crate::shell::{CommandRunner, Output, SpawnError};
#[allow(unused_imports)]
use crate::shell::{host, reply, Call, Host, Reply, SpawnErrorKind};
use crate::text::{decode_lossy, joined, trimmed};
#[allow(unused_imports)]
use crate::text::{join, texts, trim, utf8_lossy};

verus! {

/// What the operator is told before the password is asked for.
pub const PASSWORD_NOTICE: &'static str = "sudo password required";

/// A run of the installer as contracts speak of it: the host, whether commands
/// get `sudo`, the lines told to the operator, and the failure that ended the
/// run. A run that has failed does nothing more.
pub struct Session {
    pub host: Host,
    pub sudo: bool,
    pub notes: Seq<Note>,
    pub failure: Option<Failure>,
}

impl Session {
    /// A read-only command, without `sudo`.
    pub open spec fn probe(self, cmd: Seq<char>, args: Seq<Seq<char>>) -> (Session, Reply) {
        if self.failure is Some {
            (self, Reply::Failed { kind: SpawnErrorKind::Other, message: Seq::empty() })
        } else {
            let (host, reply) = self.host.run(cmd, args);
            (Session { host, ..self }, reply)
        }
    }

    /// The call that a command that changes the host comes to.
    pub open spec fn argv(
        self,
        cmd: Seq<char>,
        args: Seq<Seq<char>>,
        stdin: Option<Seq<u8>>,
    ) -> Call {
        if self.sudo {
            Call { cmd: "sudo"@, args: seq![cmd] + args, stdin }
        } else {
            Call { cmd, args, stdin }
        }
    }

    /// A command that changes the host, whatever comes of it.
    pub open spec fn attempt(self, cmd: Seq<char>, args: Seq<Seq<char>>) -> (Session, Reply) {
        self.send(cmd, args, None)
    }

    /// A command that changes the host, with what is written to its input.
    pub open spec fn send(
        self,
        cmd: Seq<char>,
        args: Seq<Seq<char>>,
        stdin: Option<Seq<u8>>,
    ) -> (Session, Reply) {
        if self.failure is Some {
            (self, Reply::Failed { kind: SpawnErrorKind::Other, message: Seq::empty() })
        } else {
            let (host, reply) = self.host.call(self.argv(cmd, args, stdin));
            (Session { host, ..self }, reply)
        }
    }

    /// A command that changes the host and must succeed.
    pub open spec fn must(self, name: Seq<char>, cmd: Seq<char>, args: Seq<Seq<char>>) -> Session {
        let line = cmd + " "@ + join(args, " "@);
        let (after, reply) = self.attempt(cmd, args);
        match reply {
            Reply::Failed { message, .. } => after.fail(failed(name, line + ": "@ + message)),
            Reply::Done { success, status, stderr, .. } => if success {
                after
            } else {
                after.fail(
                    failed(
                        name,
                        line + " failed ("@ + status + "): "@ + trim(utf8_lossy(stderr)),
                    ),
                )
            },
        }
    }

    /// A command that must succeed, run with the given environment.
    pub open spec fn must_env(
        self,
        name: Seq<char>,
        envs: Seq<(Seq<char>, Seq<char>)>,
        cmd: Seq<char>,
        args: Seq<Seq<char>>,
    ) -> Session {
        self.must(
            name,
            "env"@,
            envs.map_values(|e: (Seq<char>, Seq<char>)| e.0 + "="@ + e.1) + seq![cmd] + args,
        )
    }

    /// Writes a file by `tee` and sets its mode.
    pub open spec fn write_file(
        self,
        name: Seq<char>,
        path: Seq<char>,
        contents: Seq<u8>,
        mode: Seq<char>,
    ) -> Session {
        let (after, reply) = self.send("tee"@, seq![path], Some(contents));
        let after = match reply {
            Reply::Failed { message, .. } => after.fail(
                failed(name, "tee "@ + path + ": "@ + message),
            ),
            Reply::Done { success, stderr, .. } => if success {
                after
            } else {
                after.fail(
                    failed(name, "tee "@ + path + " failed: "@ + trim(utf8_lossy(stderr))),
                )
            },
        };
        after.must(name, "chmod"@, seq![mode, path])
    }

    /// Installs a file with its owner and mode.
    pub open spec fn install_file(
        self,
        name: Seq<char>,
        src: Seq<char>,
        dest: Seq<char>,
        owner: Seq<char>,
        group: Seq<char>,
        mode: Seq<char>,
    ) -> Session {
        self.must(name, "install"@, seq!["-o"@, owner, "-g"@, group, "-m"@, mode, src, dest])
    }

    /// Makes directories with their owner and mode.
    pub open spec fn install_dirs(
        self,
        name: Seq<char>,
        dirs: Seq<Seq<char>>,
        owner: Seq<char>,
        group: Seq<char>,
        mode: Seq<char>,
    ) -> Session {
        self.must(
            name,
            "install"@,
            seq!["-d"@, "-o"@, owner, "-g"@, group, "-m"@, mode] + dirs,
        )
    }

    /// Tells the operator something.
    pub open spec fn say(self, level: Level, text: Seq<char>) -> Session {
        if self.failure is Some {
            self
        } else {
            Session { notes: self.notes.push(Note { level, text }), ..self }
        }
    }

    /// Tells that a step is done.
    pub open spec fn log(self, text: Seq<char>) -> Session {
        self.say(Level::Log, text)
    }

    /// Tells that work begins.
    pub open spec fn step(self, text: Seq<char>) -> Session {
        self.say(Level::Step, text)
    }

    /// Tells that something is amiss.
    pub open spec fn warn(self, text: Seq<char>) -> Session {
        self.say(Level::Warn, text)
    }

    /// Ends the run.
    pub open spec fn fail(self, failure: Failure) -> Session {
        if self.failure is Some {
            self
        } else {
            Session { failure: Some(failure), ..self }
        }
    }

    /// Asks whether `sudo` will answer without a prompt in the middle of the run,
    /// and says whether the operator has to enter a password for that.
    pub open spec fn ask_ticket(self, has_tty: bool) -> (Session, bool) {
        if !self.sudo || self.failure is Some {
            (self, false)
        } else {
            let (after, reply) = self.probe("sudo"@, seq!["-n"@, "true"@]);
            if reply.succeeded() {
                (after, false)
            } else if reply is Failed {
                (
                    after.fail(
                        Failure::Sudo("sudo is required for privileged steps; install it first"@),
                    ),
                    false,
                )
            } else if !has_tty {
                (
                    after.fail(
                        Failure::Sudo("needs a password and this session has no terminal"@),
                    ),
                    false,
                )
            } else {
                (after.step(PASSWORD_NOTICE@), true)
            }
        }
    }

    /// Makes sure that `sudo` will answer without a prompt; `validated` says whether
    /// the operator enters the password, where one is asked for.
    pub open spec fn ensure_ticket(self, has_tty: bool, validated: bool) -> Session {
        let (after, asked) = self.ask_ticket(has_tty);
        if asked && !validated {
            after.fail(Failure::Sudo("authentication failed"@))
        } else {
            after
        }
    }

    /// Whether `end` is what [`Session::ensure_ticket`] comes to with an answer that
    /// `validate` gives; it is asked only where a password is needed.
    pub open spec fn ticketed<V: Fn() -> bool>(
        self,
        has_tty: bool,
        validate: V,
        end: Session,
    ) -> bool {
        if self.ask_ticket(has_tty).1 {
            ||| call_ensures(validate, (), true) && end == self.ensure_ticket(has_tty, true)
            ||| call_ensures(validate, (), false) && end == self.ensure_ticket(has_tty, false)
        } else {
            end == self.ask_ticket(has_tty).0
        }
    }
}

/// Runs commands that change the host, with `sudo` in front unless already root,
/// and keeps the lines told to the operator.
pub struct Privileged<R: CommandRunner> {
    runner: R,
    use_sudo: bool,
    lines: Vec<Line>,
}

impl<R: CommandRunner> Privileged<R> {
    /// The host below.
    pub closed spec fn host(&self) -> Host {
        host(self.runner)
    }

    /// Whether commands get `sudo`.
    pub closed spec fn sudo(&self) -> bool {
        self.use_sudo
    }

    /// The lines told to the operator.
    pub closed spec fn told(&self) -> Seq<Note> {
        notes(self.lines@)
    }

    /// The run so far.
    pub open spec fn session(&self) -> Session {
        Session { host: self.host(), sudo: self.sudo(), notes: self.told(), failure: None }
    }

    /// The run so far, ended by a failure if `r` is one.
    pub open spec fn ended<T>(&self, r: Result<T, Error>) -> Session {
        Session {
            failure: match r {
                Ok(_) => None,
                Err(e) => Some(e@),
            },
            ..self.session()
        }
    }

    /// A fresh run: `sudo` goes in front of commands where `use_sudo` says so.
    pub fn with_sudo(runner: R, use_sudo: bool) -> (r: Self)
        ensures
            r.session() == (Session {
                host: host(runner),
                sudo: use_sudo,
                notes: Seq::empty(),
                failure: None,
            }),
    {
        let r = Privileged { runner, use_sudo, lines: Vec::new() };
        assert(notes(r.lines@) =~= Seq::<Note>::empty());
        r
    }

    /// A fresh run for a process with the given effective user: `sudo` goes in
    /// front of commands unless that is root.
    pub fn detect(runner: R, effective_uid: u32) -> (r: Self)
        ensures
            r.session() == (Session {
                host: host(runner),
                sudo: effective_uid != 0,
                notes: Seq::empty(),
                failure: None,
            }),
    {
        Self::with_sudo(runner, effective_uid != 0)
    }

    /// The runner below.
    pub fn runner(&self) -> (r: &R)
        ensures
            host(*r) == self.session().host,
    {
        &self.runner
    }

    /// The runner below, for read-only probes.
    pub fn runner_mut(&mut self) -> (r: &mut R)
        ensures
            host(*r) == old(self).session().host,
            final(self).session() == (Session { host: host(*final(r)), ..old(self).session() }),
    {
        &mut self.runner
    }

    /// Whether commands get `sudo`.
    pub fn uses_sudo(&self) -> (r: bool)
        ensures
            r == self.session().sudo,
    {
        self.use_sudo
    }

    /// The lines told to the operator so far, which are thereby handed over.
    pub fn take_lines(&mut self) -> (r: Vec<Line>)
        ensures
            notes(r@) == old(self).session().notes,
            final(self).session() == (Session { notes: Seq::empty(), ..old(self).session() }),
    {
        let mut lines: Vec<Line> = Vec::new();
        std::mem::swap(&mut lines, &mut self.lines);
        assert(notes(self.lines@) =~= Seq::<Note>::empty());
        lines
    }

    /// Tells the operator something.
    pub fn say(&mut self, line: Line)
        ensures
            final(self).session() == old(self).session().say(line.level, line.text@),
    {
        self.lines.push(line);
        assert(notes(self.lines@) =~= notes(old(self).lines@).push(line@));
    }

    /// A read-only command, without `sudo`.
    pub fn probe(&mut self, cmd: &str, args: &[&str]) -> (r: Result<Output, SpawnError>)
        ensures
            (final(self).session(), reply(r)) == old(self).session().probe(cmd@, texts(args@)),
    {
        self.runner.run(cmd, args)
    }

    /// A command that changes the host, whatever comes of it.
    pub fn run(&mut self, cmd: &str, args: &[&str]) -> (r: Result<Output, SpawnError>)
        ensures
            (final(self).session(), reply(r)) == old(self).session().attempt(cmd@, texts(args@)),
    {
        if self.use_sudo {
            let full = prefixed(cmd, args);
            assert(texts(full@) =~= seq![cmd@] + texts(args@));
            self.runner.run("sudo", &full)
        } else {
            self.runner.run(cmd, args)
        }
    }
}

impl<R: CommandRunner> Privileged<R> {
    /// Makes sure that `sudo` will answer without a prompt: `sudo -n true` says
    /// whether it does, and otherwise `validate` asks the operator once for the
    /// password. Without a terminal to enter one that is a failure.
    pub fn ensure_ticket_with<V: Fn() -> bool>(&mut self, has_tty: bool, validate: &V) -> (r: Result<
        (),
        Error,
    >)
        requires
            call_requires(*validate, ()),
        ensures
            old(self).session().ticketed(has_tty, *validate, final(self).ended(r)),
    {
        if !self.use_sudo {
            return Ok(());
        }
        let args = ["-n", "true"];
        assert(texts(args@) =~= seq!["-n"@, "true"@]);
        match self.probe("sudo", &args) {
            Ok(out) => if out.status.success() {
                return Ok(());
            },
            Err(_) => {
                return Err(
                    Error::Sudo(
                        "sudo is required for privileged steps; install it first".to_owned(),
                    ),
                );
            },
        }
        if !has_tty {
            return Err(
                Error::Sudo("needs a password and this session has no terminal".to_owned()),
            );
        }
        self.say(step(PASSWORD_NOTICE));
        if validate() {
            Ok(())
        } else {
            Err(Error::Sudo("authentication failed".to_owned()))
        }
    }

    /// [`Privileged::ensure_ticket_with`], on a terminal if `present` finds one.
    pub fn ensure_ticket<V: Fn() -> bool, E: Fn(&str) -> bool>(
        &mut self,
        present: &E,
        validate: &V,
    ) -> (r: Result<(), Error>)
        requires
            call_requires(*validate, ()),
            answers(*present),
        ensures
            forall|paths: spec_fn(Seq<char>) -> bool| #[trigger]
                agrees(*present, paths) ==> old(self).session().ticketed(
                    paths("/dev/tty"@),
                    *validate,
                    final(self).ended(r),
                ),
    {
        let has_tty = present("/dev/tty");
        self.ensure_ticket_with(has_tty, validate)
    }

    /// A command that changes the host and must succeed.
    pub fn run_ok(&mut self, name: &'static str, cmd: &str, args: &[&str]) -> (r: Result<
        Output,
        Error,
    >)
        ensures
            final(self).ended(r) == old(self).session().must(name@, cmd@, texts(args@)),
            r matches Ok(out) ==> reply(Ok(out)) == old(self).session().attempt(
                cmd@,
                texts(args@),
            ).1,
    {
        let line = cmd.to_owned().concat(" ").concat(&joined(args, " "));
        match self.run(cmd, args) {
            Err(e) => Err(Error::step(name, line.concat(": ").concat(&e.message))),
            Ok(out) => {
                if out.status.success() {
                    Ok(out)
                } else {
                    let stderr = trimmed(&decode_lossy(&out.stderr));
                    let detail = line.concat(" failed (").concat(&out.status.text).concat(
                        "): ",
                    ).concat(&stderr);
                    Err(Error::step(name, detail))
                }
            },
        }
    }

    /// A command that must succeed, run with the given environment.
    pub fn run_env(
        &mut self,
        name: &'static str,
        envs: &[(&str, &str)],
        cmd: &str,
        args: &[&str],
    ) -> (r: Result<Output, Error>)
        ensures
            final(self).ended(r) == old(self).session().must_env(
                name@,
                envs@.map_values(|e: (&str, &str)| (e.0@, e.1@)),
                cmd@,
                texts(args@),
            ),
    {
        let mut assignments: Vec<String> = Vec::new();
        let mut i: usize = 0;
        while i < envs.len()
            invariant
                i <= envs@.len(),
                assignments@.len() == i,
                forall|j: int|
                    0 <= j < i ==> (#[trigger] assignments@[j])@ == envs@[j].0@ + "="@
                        + envs@[j].1@,
            decreases envs@.len() - i,
        {
            assignments.push(envs[i].0.to_owned().concat("=").concat(envs[i].1));
            i += 1;
        }
        let mut full: Vec<&str> = Vec::new();
        let mut k: usize = 0;
        while k < assignments.len()
            invariant
                k <= assignments@.len(),
                full@.len() == k,
                forall|j: int| 0 <= j < k ==> (#[trigger] full@[j])@ == assignments@[j]@,
            decreases assignments@.len() - k,
        {
            full.push(assignments[k].as_str());
            k += 1;
        }
        full.push(cmd);
        let mut m: usize = 0;
        while m < args.len()
            invariant
                m <= args@.len(),
                full@.len() == assignments@.len() + 1 + m,
                forall|j: int|
                    0 <= j < assignments@.len() ==> (#[trigger] full@[j])@ == assignments@[j]@,
                full@[assignments@.len() as int]@ == cmd@,
                forall|j: int|
                    0 <= j < m ==> #[trigger] full@[assignments@.len() + 1 + j]@ == args@[j]@,
            decreases args@.len() - m,
        {
            full.push(args[m]);
            m += 1;
        }
        proof {
            let pairs = envs@.map_values(|e: (&str, &str)| (e.0@, e.1@));
            let want = pairs.map_values(|e: (Seq<char>, Seq<char>)| e.0 + "="@ + e.1) + seq![cmd@]
                + texts(args@);
            assert forall|j: int| 0 <= j < want.len() implies texts(full@)[j] == want[j] by {
                let n = assignments@.len() as int;
                if j > n {
                    assert(full@[n + 1 + (j - n - 1)]@ == args@[j - n - 1]@);
                } else if j < n {
                    assert(full@[j]@ == assignments@[j]@);
                }
            }
            assert(texts(full@) =~= want);
        }
        self.run_ok(name, "env", &full)
    }

    /// Writes a file by `tee` and sets its mode.
    pub fn write_file(
        &mut self,
        name: &'static str,
        path: &str,
        contents: &[u8],
        mode: &str,
    ) -> (r: Result<(), Error>)
        ensures
            final(self).ended(r) == old(self).session().write_file(
                name@,
                path@,
                contents@,
                mode@,
            ),
    {
        let sent = if self.use_sudo {
            let args = ["tee", path];
            assert(texts(args@) =~= seq!["tee"@] + seq![path@]);
            self.runner.run_with_stdin("sudo", &args, contents)
        } else {
            let args = [path];
            assert(texts(args@) =~= seq![path@]);
            self.runner.run_with_stdin("tee", &args, contents)
        };
        match sent {
            Err(e) => {
                return Err(
                    Error::step(name, "tee ".to_owned().concat(path).concat(": ").concat(&e.message)),
                );
            },
            Ok(out) => {
                if !out.status.success() {
                    let stderr = trimmed(&decode_lossy(&out.stderr));
                    return Err(
                        Error::step(
                            name,
                            "tee ".to_owned().concat(path).concat(" failed: ").concat(&stderr),
                        ),
                    );
                }
            },
        }
        let args = [mode, path];
        assert(texts(args@) =~= seq![mode@, path@]);
        match self.run_ok(name, "chmod", &args) {
            Ok(_) => Ok(()),
            Err(e) => Err(e),
        }
    }

    /// Installs a file with its owner and mode.
    pub fn install_file(
        &mut self,
        name: &'static str,
        src: &str,
        dest: &str,
        owner: &str,
        group: &str,
        mode: &str,
    ) -> (r: Result<(), Error>)
        ensures
            final(self).ended(r) == old(self).session().install_file(
                name@,
                src@,
                dest@,
                owner@,
                group@,
                mode@,
            ),
    {
        let args = ["-o", owner, "-g", group, "-m", mode, src, dest];
        assert(texts(args@) =~= seq!["-o"@, owner@, "-g"@, group@, "-m"@, mode@, src@, dest@]);
        match self.run_ok(name, "install", &args) {
            Ok(_) => Ok(()),
            Err(e) => Err(e),
        }
    }

    /// Makes directories with their owner and mode.
    pub fn install_dirs(
        &mut self,
        name: &'static str,
        dirs: &[&str],
        owner: &str,
        group: &str,
        mode: &str,
    ) -> (r: Result<(), Error>)
        ensures
            final(self).ended(r) == old(self).session().install_dirs(
                name@,
                texts(dirs@),
                owner@,
                group@,
                mode@,
            ),
    {
        let mut args: Vec<&str> = vec!["-d", "-o", owner, "-g", group, "-m", mode];
        let ghost head = args@;
        let mut i: usize = 0;
        while i < dirs.len()
            invariant
                i <= dirs@.len(),
                args@ == head + dirs@.take(i as int),
            decreases dirs@.len() - i,
        {
            args.push(dirs[i]);
            i += 1;
            assert(args@ =~= head + dirs@.take(i as int));
        }
        assert(texts(args@) =~= seq!["-d"@, "-o"@, owner@, "-g"@, group@, "-m"@, mode@] + texts(
            dirs@,
        ));
        match self.run_ok(name, "install", &args) {
            Ok(_) => Ok(()),
            Err(e) => Err(e),
        }
    }
}

/// `cmd` followed by `args`.
fn prefixed<'a>(cmd: &'a str, args: &[&'a str]) -> (r: Vec<&'a str>)
    ensures
        r@ == seq![cmd] + args@,
{
    let mut full: Vec<&'a str> = Vec::new();
    full.push(cmd);
    let mut i: usize = 0;
    while i < args.len()
        invariant
            i <= args@.len(),
            full@ == seq![cmd] + args@.take(i as int),
        decreases args@.len() - i,
    {
        full.push(args[i]);
        assert(args@.take(i + 1) =~= args@.take(i as int).push(args@[i as int]));
        i += 1;
        assert(full@ =~= seq![cmd] + args@.take(i as int));
    }
    assert(args@.take(i as int) =~= args@);
    full
}

} // verus!
