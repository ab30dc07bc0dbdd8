//! The systemd units: writing them, and starting and stopping the services.

use vstd::prelude::*;

use super::env::{ServiceEnv, UNITS};
#[allow(unused_imports)]
use super::env::units;
use super::output::{log, warn};
use super::payload::Payload;
use super::privileged::Privileged;
pub use super::probe::wait_for;
use super::probe::Probe;
#[allow(unused_imports)]
use super::probe::{watch, Watch};
#[allow(unused_imports)]
use super::privileged::Session;
use super::Error;
#[allow(unused_imports)]
use super::{failed, failed_fix, outcome, Failure};
#[allow(unused_imports)]
use crate::files::{agrees, answers};
use crate::path::joined;
#[allow(unused_imports)]
use crate::path::join;
use crate::shell::CommandRunner;
#[allow(unused_imports)]
use crate::shell::{host, Reply};
use crate::status::systemd_is_active;
use crate::text::{decimal_of, decode_lossy, joined_strings, replaced, same, trimmed};
#[allow(unused_imports)]
use crate::text::{decimal, replace, texts, trim, utf8_lossy, views};
#[allow(unused_imports)]
use vstd::utf8::encode_utf8;

verus! {

pub const STEP_UNITS: &'static str = "units";

pub const STEP_START: &'static str = "start";

pub const STEP_STOP: &'static str = "stop";

/// How often the API is asked at most whether it answers.
pub const API_ATTEMPTS: u32 = 60;

/// A unit template with the paths and the account of an installation filled in.
pub open spec fn rendered(template: Seq<char>, env: ServiceEnv, uid: Seq<char>) -> Seq<char> {
    let t = replace(template, "@LIBDIR@"@, env.libdir@);
    let t = replace(t, "@SHAREDIR@"@, env.sharedir@);
    let t = replace(t, "@DATADIR@"@, env.datadir@);
    let t = replace(t, "@CONFDIR@"@, env.confdir@);
    let t = replace(t, "@PREFIX@"@, env.prefix@);
    let t = replace(t, "@FIRECRAB_USER@"@, env.user@);
    let t = replace(t, "@FIRECRAB_GROUP@"@, env.group@);
    replace(t, "@FIRECRAB_UID@"@, uid)
}

/// A unit template with the paths and the account of an installation filled in.
pub fn render_unit(template: &str, env: &ServiceEnv, uid: &str) -> (r: String)
    ensures
        r@ == rendered(template@, *env, uid@),
{
    proof {
        reveal_strlit("@LIBDIR@");
        reveal_strlit("@SHAREDIR@");
        reveal_strlit("@DATADIR@");
        reveal_strlit("@CONFDIR@");
        reveal_strlit("@PREFIX@");
        reveal_strlit("@FIRECRAB_USER@");
        reveal_strlit("@FIRECRAB_GROUP@");
        reveal_strlit("@FIRECRAB_UID@");
    }
    let t = replaced(template, "@LIBDIR@", &env.libdir);
    let t = replaced(&t, "@SHAREDIR@", &env.sharedir);
    let t = replaced(&t, "@DATADIR@", &env.datadir);
    let t = replaced(&t, "@CONFDIR@", &env.confdir);
    let t = replaced(&t, "@PREFIX@", &env.prefix);
    let t = replaced(&t, "@FIRECRAB_USER@", &env.user);
    let t = replaced(&t, "@FIRECRAB_GROUP@", &env.group);
    replaced(&t, "@FIRECRAB_UID@", uid)
}

/// Whether `read` can be asked for every path.
pub open spec fn reads_text<F: Fn(&str) -> Result<String, String>>(read: F) -> bool {
    forall|p: &str| call_requires(read, (p,))
}

/// Whether `read` gives what `texts` holds, whenever it is asked: the text of a
/// file, or why it could not be read.
pub open spec fn holds_text<F: Fn(&str) -> Result<String, String>>(
    read: F,
    texts: spec_fn(Seq<char>) -> Result<Seq<char>, Seq<char>>,
) -> bool {
    forall|p: &str, r: Result<String, String>| #[trigger]
        call_ensures(read, (p,), r) ==> texts(p@) == match r {
            Ok(text) => Ok::<Seq<char>, Seq<char>>(text@),
            Err(why) => Err(why@),
        }
}

impl Session {
    /// Fills in and writes the units named, from templates in `dir`.
    pub open spec fn write_units(
        self,
        env: ServiceEnv,
        dir: Seq<char>,
        uid: Seq<char>,
        names: Seq<Seq<char>>,
        texts: spec_fn(Seq<char>) -> Result<Seq<char>, Seq<char>>,
    ) -> Session
        decreases names.len(),
    {
        if names.len() == 0 {
            self
        } else {
            let source = join(dir, names[0]);
            let after = match texts(source) {
                Err(why) => self.fail(
                    failed(STEP_UNITS@, "could not read "@ + source + ": "@ + why),
                ),
                Ok(template) => self.write_file(
                    STEP_UNITS@,
                    join(env.unitdir@, names[0]),
                    encode_utf8(rendered(template, env, uid)),
                    "0644"@,
                ),
            };
            after.write_units(env, dir, uid, names.skip(1), texts)
        }
    }

    /// Writes the units for this host, from templates in `dir`, and makes systemd
    /// read them.
    pub open spec fn install_units(
        self,
        env: ServiceEnv,
        dir: Seq<char>,
        texts: spec_fn(Seq<char>) -> Result<Seq<char>, Seq<char>>,
    ) -> Session {
        let (after, reply) = self.probe("id"@, seq!["-u"@, env.user@]);
        match reply {
            Reply::Failed { message, .. } => after.fail(
                failed(STEP_UNITS@, "id -u "@ + env.user@ + ": "@ + message),
            ),
            Reply::Done { success, stdout, .. } => if !success {
                after.fail(failed(STEP_UNITS@, "id -u "@ + env.user@ + " failed"@))
            } else {
                after.write_units(env, dir, trim(utf8_lossy(stdout)), units(), texts).must(
                    STEP_UNITS@,
                    "systemctl"@,
                    seq!["daemon-reload"@],
                ).log("units installed to "@ + env.unitdir@)
            },
        }
    }

    /// Asks systemd about a unit; a run that has failed does not.
    pub open spec fn is_active(self, unit: Seq<char>) -> (Session, Seq<char>) {
        if self.failure is Some {
            (self, Seq::empty())
        } else {
            let (host, state) = self.host.is_active(unit);
            (Session { host, ..self }, state)
        }
    }

    /// Asks systemd about the units named, and tells which of them are not active.
    pub open spec fn check_units(self, names: Seq<Seq<char>>) -> (Session, Seq<Seq<char>>)
        decreases names.len(),
    {
        if names.len() == 0 {
            (self, Seq::empty())
        } else {
            let (after, state) = self.is_active(names[0]);
            if state == "active"@ {
                after.log(names[0] + " is running"@).check_units(names.skip(1))
            } else {
                let (after, rest) = after.warn(
                    names[0] + " failed to start — journalctl -u "@ + names[0] + " -n 30"@,
                ).check_units(names.skip(1));
                (after, seq![names[0]] + rest)
            }
        }
    }

    /// Makes sure that the units stay up; the run fails where one does not.
    pub open spec fn confirm_units(self) -> Session {
        let (after, down) = self.check_units(units());
        if down.len() > 0 {
            after.fail(
                failed_fix(
                    STEP_START@,
                    "did not come up: "@ + crate::text::join(down, ", "@),
                    "journalctl -u "@ + down[0] + " -n 30"@,
                ),
            )
        } else {
            after
        }
    }

    /// Makes sure that the units stay up and the API answers; `answered` says
    /// whether it does.
    pub open spec fn confirm_active(self, answered: bool, bind: Seq<char>) -> Session {
        let after = self.confirm_units();
        if answered {
            after
        } else {
            after.fail(
                failed_fix(
                    STEP_START@,
                    "firecrab-api did not answer http://"@ + bind + "/ within "@ + decimal(
                        API_ATTEMPTS as nat,
                    ) + "s"@,
                    "journalctl -u firecrab-api -n 30"@,
                ),
            )
        }
    }

    /// Stopping, after systemd was told: no unit named may be active any more.
    pub open spec fn check_stopped(self, names: Seq<Seq<char>>) -> Session
        decreases names.len(),
    {
        if names.len() == 0 {
            self
        } else {
            let (after, state) = self.is_active(names[0]);
            if state == "active"@ {
                after.fail(failed(STEP_STOP@, names[0] + " is still active"@))
            } else {
                after.log(
                    names[0] + " is "@ + if state.len() == 0 {
                        "stopped"@
                    } else {
                        state
                    },
                ).check_stopped(names.skip(1))
            }
        }
    }

    /// Tells systemd to do something with both units.
    pub open spec fn systemctl(self, step: Seq<char>, verb: Seq<char>) -> Session {
        self.must(step, "systemctl"@, seq![verb] + units())
    }

    /// Stops the units, the API first, and makes sure that they are down.
    pub open spec fn stop(self) -> Session {
        self.must(
            STEP_STOP@,
            "systemctl"@,
            seq!["stop"@, units()[1], units()[0]],
        ).check_stopped(units())
    }
}

proof fn failed_check_ends(session: Session, names: Seq<Seq<char>>)
    requires
        session.failure is Some,
    ensures
        session.check_stopped(names).failure is Some,
        session.check_stopped(names) == session,
    decreases names.len(),
{
    if names.len() > 0 {
        reveal_strlit("active");
        failed_check_ends(session, names.skip(1));
    }
}

proof fn failed_write_ends(
    session: Session,
    env: ServiceEnv,
    dir: Seq<char>,
    uid: Seq<char>,
    names: Seq<Seq<char>>,
    texts: spec_fn(Seq<char>) -> Result<Seq<char>, Seq<char>>,
)
    requires
        session.failure is Some,
    ensures
        session.write_units(env, dir, uid, names, texts) == session,
    decreases names.len(),
{
    if names.len() > 0 {
        failed_write_ends(session, env, dir, uid, names.skip(1), texts);
    }
}

/// Fills in the unit templates for this host, writes them and makes systemd read
/// them. `read` gives the text of a template.
pub fn install_units<R: CommandRunner, F: Fn(&str) -> Result<String, String>>(
    privileged: &mut Privileged<R>,
    env: &ServiceEnv,
    payload: &Payload,
    read: &F,
) -> (r: Result<(), Error>)
    requires
        reads_text(*read),
    ensures
        forall|texts: spec_fn(Seq<char>) -> Result<Seq<char>, Seq<char>>| #[trigger]
            holds_text(*read, texts) ==> final(privileged).ended(r) == old(
                privileged,
            ).session().install_units(*env, payload.units@, texts),
{
    let args = ["-u", env.user.as_str()];
    assert(texts(args@) =~= seq!["-u"@, env.user@]);
    let uid = match privileged.probe("id", &args) {
        Err(e) => {
            return Err(
                Error::step(
                    STEP_UNITS,
                    "id -u ".to_owned().concat(&env.user).concat(": ").concat(&e.message),
                ),
            );
        },
        Ok(out) => {
            if !out.status.success() {
                return Err(
                    Error::step(
                        STEP_UNITS,
                        "id -u ".to_owned().concat(&env.user).concat(" failed"),
                    ),
                );
            }
            trimmed(&decode_lossy(&out.stdout))
        },
    };
    match write_units(privileged, env, &payload.units, &uid, read) {
        Ok(()) => {},
        Err(e) => {
            return Err(e);
        },
    }
    let reload = ["daemon-reload"];
    assert(texts(reload@) =~= seq!["daemon-reload"@]);
    match privileged.run_ok(STEP_UNITS, "systemctl", &reload) {
        Ok(_) => {},
        Err(e) => {
            return Err(e);
        },
    }
    privileged.say(log(&"units installed to ".to_owned().concat(&env.unitdir)));
    Ok(())
}

/// Fills in and writes the units, from templates in `dir`.
fn write_units<R: CommandRunner, F: Fn(&str) -> Result<String, String>>(
    privileged: &mut Privileged<R>,
    env: &ServiceEnv,
    dir: &str,
    uid: &str,
    read: &F,
) -> (r: Result<(), Error>)
    requires
        reads_text(*read),
    ensures
        forall|texts: spec_fn(Seq<char>) -> Result<Seq<char>, Seq<char>>| #[trigger]
            holds_text(*read, texts) ==> final(privileged).ended(r) == old(
                privileged,
            ).session().write_units(*env, dir@, uid@, units(), texts),
{
    let ghost names = units();
    let mut i: usize = 0;
    assert(names.skip(0) =~= names);
    while i < 2
        invariant
            i <= 2,
            names == units(),
            reads_text(*read),
            forall|texts: spec_fn(Seq<char>) -> Result<Seq<char>, Seq<char>>| #[trigger]
                holds_text(*read, texts) ==> privileged.session().write_units(
                    *env,
                    dir@,
                    uid@,
                    names.skip(i as int),
                    texts,
                ) == old(privileged).session().write_units(*env, dir@, uid@, names, texts),
        decreases 2 - i,
    {
        let unit = UNITS[i];
        assert(names.skip(i as int)[0] == unit@);
        assert(names.skip(i as int).skip(1) =~= names.skip(i + 1));
        let source = joined(dir, unit);
        let written = match read(&source) {
            Err(why) => Err(
                Error::step(
                    STEP_UNITS,
                    "could not read ".to_owned().concat(&source).concat(": ").concat(&why),
                ),
            ),
            Ok(template) => {
                let filled = render_unit(&template, env, uid);
                let path = env.unit_path(unit);
                privileged.write_file(STEP_UNITS, &path, filled.as_str().as_bytes(), "0644")
            },
        };
        if let Err(e) = written {
            let ghost end = privileged.ended(Err::<(), Error>(e));
            assert forall|texts: spec_fn(Seq<char>) -> Result<Seq<char>, Seq<char>>| #[trigger]
                holds_text(*read, texts) implies end == old(privileged).session().write_units(
                *env,
                dir@,
                uid@,
                names,
                texts,
            ) by {
                failed_write_ends(end, *env, dir@, uid@, names.skip(i + 1), texts);
            }
            return Err(e);
        }
        i += 1;
    }
    Ok(())
}

/// Both unit files must be there for the services to be controlled.
pub fn require_installed<F: Fn(&str) -> bool>(env: &ServiceEnv, is_file: &F) -> (r: Result<
    (),
    Error,
>)
    requires
        answers(*is_file),
    ensures
        forall|files: spec_fn(Seq<char>) -> bool| #[trigger]
            agrees(*is_file, files) ==> outcome(r) == if files(join(env.unitdir@, units()[0]))
                && files(join(env.unitdir@, units()[1])) {
                Ok::<(), Failure>(())
            } else {
                Err(Failure::NotInstalled)
            },
{
    if is_file(&env.unit_path(UNITS[0])) && is_file(&env.unit_path(UNITS[1])) {
        Ok(())
    } else {
        Err(Error::NotInstalled)
    }
}

/// What systemd says of a unit, or `unknown` where it cannot be asked.
pub fn is_active<R: CommandRunner>(runner: &mut R, unit: &str) -> (r: String)
    ensures
        (host(*final(runner)), r@) == host(*old(runner)).is_active(unit@),
{
    systemd_is_active(runner, unit)
}

/// Tells systemd to do something with both units.
fn systemctl<R: CommandRunner>(
    privileged: &mut Privileged<R>,
    step: &'static str,
    verb: &str,
) -> (r: Result<(), Error>)
    ensures
        final(privileged).ended(r) == old(privileged).session().systemctl(step@, verb@),
{
    let args = [verb, UNITS[0], UNITS[1]];
    assert(texts(args@) =~= seq![verb@] + units());
    match privileged.run_ok(step, "systemctl", &args) {
        Ok(_) => Ok(()),
        Err(e) => Err(e),
    }
}

/// Makes the units start at boot.
pub fn enable<R: CommandRunner>(privileged: &mut Privileged<R>) -> (r: Result<(), Error>)
    ensures
        final(privileged).ended(r) == old(privileged).session().systemctl(
            STEP_UNITS@,
            "enable"@,
        ),
{
    systemctl(privileged, STEP_UNITS, "enable")
}

/// Makes the units no longer start at boot.
pub fn disable<R: CommandRunner>(privileged: &mut Privileged<R>) -> (r: Result<(), Error>)
    ensures
        final(privileged).ended(r) == old(privileged).session().systemctl(
            STEP_UNITS@,
            "disable"@,
        ),
{
    systemctl(privileged, STEP_UNITS, "disable")
}

/// What making sure that the services came up from `begun` comes to, and how the
/// wait for the API then stands: the units are given time to settle, and the API is
/// asked only where they stay up.
pub open spec fn confirmed(begun: Session, watch: Watch, attempts: u32, bind: Seq<char>) -> (
    Session,
    Watch,
) {
    if begun.failure is Some {
        (begun, watch)
    } else if begun.confirm_units().failure is Some {
        (begun.confirm_units(), watch.settled())
    } else {
        (
            begun.confirm_active(watch.settled().answered(attempts), bind),
            watch.settled().waited(attempts),
        )
    }
}

/// Makes sure that the services came up: after some time, since a unit that dies at
/// once counts as active for a moment, the units must be active, and the API must
/// answer within `attempts` questions.
pub fn confirm_active_with<R: CommandRunner, P: Probe>(
    privileged: &mut Privileged<R>,
    bind: &str,
    probe: &mut P,
    attempts: u32,
) -> (r: Result<(), Error>)
    ensures
        (final(privileged).ended(r), watch(*final(probe))) == confirmed(
            old(privileged).session(),
            watch(*old(probe)),
            attempts,
            bind@,
        ),
{
    probe.settle();
    let mut down: Vec<String> = Vec::new();
    let ghost names = units();
    let ghost all = old(privileged).session().check_units(names);
    let mut i: usize = 0;
    assert(names.skip(0) =~= names);
    assert(views(down@) + all.1 =~= all.1);
    while i < 2
        invariant
            i <= 2,
            names == units(),
            all == old(privileged).session().check_units(names),
            privileged.session().check_units(names.skip(i as int)).0 == all.0,
            views(down@) + privileged.session().check_units(names.skip(i as int)).1 == all.1,
        decreases 2 - i,
    {
        let unit = UNITS[i];
        let ghost before = views(down@);
        assert(names.skip(i as int)[0] == unit@);
        assert(names.skip(i as int).skip(1) =~= names.skip(i + 1));
        let state = is_active(privileged.runner_mut(), unit);
        if same(&state, "active") {
            privileged.say(log(&unit.to_owned().concat(" is running")));
        } else {
            privileged.say(
                warn(
                    &unit.to_owned().concat(" failed to start — journalctl -u ").concat(
                        unit,
                    ).concat(" -n 30"),
                ),
            );
            down.push(unit.to_owned());
            assert(views(down@) =~= before.push(unit@));
            assert(before.push(unit@) + privileged.session().check_units(names.skip(i + 1)).1
                =~= before + (seq![unit@] + privileged.session().check_units(names.skip(i + 1)).1));
        }
        i += 1;
    }
    assert(views(down@) =~= all.1);
    if down.len() > 0 {
        return Err(
            Error::step_fix(
                STEP_START,
                "did not come up: ".to_owned().concat(&joined_strings(&down, ", ")),
                "journalctl -u ".to_owned().concat(&down[0]).concat(" -n 30"),
            ),
        );
    }
    if wait_for(probe, attempts) {
        Ok(())
    } else {
        Err(
            Error::step_fix(
                STEP_START,
                "firecrab-api did not answer http://".to_owned().concat(bind).concat(
                    "/ within ",
                ).concat(&decimal_of(API_ATTEMPTS as u64)).concat("s"),
                "journalctl -u firecrab-api -n 30".to_owned(),
            ),
        )
    }
}

/// Starts the units in order and makes sure that they come up.
pub fn start<R: CommandRunner, P: Probe>(
    privileged: &mut Privileged<R>,
    bind: &str,
    probe: &mut P,
) -> (r: Result<(), Error>)
    ensures
        (final(privileged).ended(r), watch(*final(probe))) == confirmed(
            old(privileged).session().systemctl(STEP_START@, "start"@),
            watch(*old(probe)),
            API_ATTEMPTS,
            bind@,
        ),
{
    match systemctl(privileged, STEP_START, "start") {
        Ok(()) => {},
        Err(e) => {
            return Err(e);
        },
    }
    confirm_active_with(privileged, bind, probe, API_ATTEMPTS)
}

/// Makes the units start at boot, restarts them and makes sure that they come up.
pub fn enable_and_start<R: CommandRunner, P: Probe>(
    privileged: &mut Privileged<R>,
    bind: &str,
    probe: &mut P,
) -> (r: Result<(), Error>)
    ensures
        (final(privileged).ended(r), watch(*final(probe))) == confirmed(
            old(privileged).session().systemctl(STEP_UNITS@, "enable"@).systemctl(
                STEP_START@,
                "restart"@,
            ),
            watch(*old(probe)),
            API_ATTEMPTS,
            bind@,
        ),
{
    match enable(privileged) {
        Ok(()) => {},
        Err(e) => {
            return Err(e);
        },
    }
    match systemctl(privileged, STEP_START, "restart") {
        Ok(()) => {},
        Err(e) => {
            return Err(e);
        },
    }
    confirm_active_with(privileged, bind, probe, API_ATTEMPTS)
}

/// Stops the units, the API before the helper that it uses, and makes sure that
/// they are down.
pub fn stop<R: CommandRunner>(privileged: &mut Privileged<R>) -> (r: Result<(), Error>)
    ensures
        final(privileged).ended(r) == old(privileged).session().stop(),
{
    let args = ["stop", UNITS[1], UNITS[0]];
    assert(texts(args@) =~= seq!["stop"@, units()[1], units()[0]]);
    match privileged.run_ok(STEP_STOP, "systemctl", &args) {
        Ok(_) => {},
        Err(e) => {
            proof {
                failed_check_ends(privileged.ended(Err::<(), Error>(e)), units());
            }
            return Err(e);
        },
    }
    let ghost names = units();
    let mut i: usize = 0;
    assert(names.skip(0) =~= names);
    while i < 2
        invariant
            i <= 2,
            names == units(),
            privileged.session().check_stopped(names.skip(i as int)) == old(
                privileged,
            ).session().stop(),
        decreases 2 - i,
    {
        let unit = UNITS[i];
        assert(names.skip(i as int)[0] == unit@);
        assert(names.skip(i as int).skip(1) =~= names.skip(i + 1));
        let state = is_active(privileged.runner_mut(), unit);
        if same(&state, "active") {
            return Err(Error::step(STEP_STOP, unit.to_owned().concat(" is still active")));
        }
        let shown = if state.as_str().is_empty() {
            "stopped"
        } else {
            state.as_str()
        };
        privileged.say(log(&unit.to_owned().concat(" is ").concat(shown)));
        i += 1;
    }
    Ok(())
}

} // verus!
