//! What holds of starting and stopping the services.

use vstd::prelude::*;

#[allow(unused_imports)]
use super::env::{units, ServiceEnv};
#[allow(unused_imports)]
use super::privileged::Session;
#[allow(unused_imports)]
use super::probe::{questions, Step, Watch};
#[allow(unused_imports)]
use super::{Command, Failure};
#[allow(unused_imports)]
use crate::path::join;
#[allow(unused_imports)]
use crate::shell::{Call, Host, Reply};
#[allow(unused_imports)]
use crate::text::trim;
#[allow(unused_imports)]
use vstd::utf8::{decode_utf8, valid_utf8};

verus! {

/// Whether systemd answered that a unit is active.
pub open spec fn says_active(reply: Reply) -> bool {
    reply matches Reply::Done { stdout, .. } && valid_utf8(stdout) && trim(decode_utf8(stdout))
        == "active"@
}

/// The question whether a unit is active.
pub open spec fn ask_active(unit: Seq<char>) -> Call {
    Call { cmd: "systemctl"@, args: seq!["is-active"@, unit], stdin: None }
}

/// The calls of a run and then one more that systemd gets.
pub open spec fn with_verb(session: Session, args: Seq<Seq<char>>) -> Seq<Call> {
    session.host.calls.push(session.argv("systemctl"@, args, None))
}

proof fn the_words()
    ensures
        "unknown"@ != "active"@,
        "active"@.len() == 6,
{
    reveal_strlit("unknown");
    reveal_strlit("active");
    assert("unknown"@.len() != "active"@.len());
}

proof fn one_verb(session: Session, name: Seq<char>, args: Seq<Seq<char>>)
    requires
        session.failure is None,
    ensures
        ({
            let after = session.must(name, "systemctl"@, args);
            let calls = with_verb(session, args);
            &&& after.host.calls == calls
            &&& after.host.world == session.host.world
            &&& after.sudo == session.sudo
            &&& after.failure is None <==> (session.host.world)(calls).succeeded()
        }),
{
}

proof fn one_question(session: Session, unit: Seq<char>)
    requires
        session.failure is None,
    ensures
        ({
            let (after, state) = session.is_active(unit);
            let calls = session.host.calls.push(ask_active(unit));
            &&& after.host.calls == calls
            &&& after.host.world == session.host.world
            &&& after.sudo == session.sudo
            &&& after.failure is None
            &&& state == "active"@ <==> says_active((session.host.world)(calls))
        }),
{
    the_words();
}

proof fn two_units()
    ensures
        units().len() == 2,
        units()[0] == "firecrab-net-helper.service"@,
        units()[1] == "firecrab-api.service"@,
        units().skip(1)[0] == "firecrab-api.service"@,
        units().skip(1).skip(1).len() == 0,
{
}

proof fn both_are_asked(session: Session)
    requires
        session.failure is None,
    ensures
        ({
            let first = session.host.calls.push(ask_active("firecrab-net-helper.service"@));
            let second = first.push(ask_active("firecrab-api.service"@));
            let after = session.confirm_units();
            &&& after.host.calls == second
            &&& after.failure is None <==> says_active((session.host.world)(first)) && says_active(
                (session.host.world)(second),
            )
        }),
{
    two_units();
    reveal_with_fuel(Session::check_units, 4);
    let helper = "firecrab-net-helper.service"@;
    let api = "firecrab-api.service"@;
    one_question(session, helper);
    let (a, state) = session.is_active(helper);
    let b = if state == "active"@ {
        a.log(helper + " is running"@)
    } else {
        a.warn(helper + " failed to start — journalctl -u "@ + helper + " -n 30"@)
    };
    one_question(b, api);
}

proof fn starting(ready: Session, watch: Watch, bind: Seq<char>)
    requires
        ready.failure is None,
    ensures
        ({
            let begun = ready.systemctl(super::units::STEP_START@, "start"@);
            let (end, seen) = super::units::confirmed(
                begun,
                watch,
                super::units::API_ATTEMPTS,
                bind,
            );
            let started = with_verb(
                ready,
                seq!["start"@, "firecrab-net-helper.service"@, "firecrab-api.service"@],
            );
            let first = started.push(ask_active("firecrab-net-helper.service"@));
            let second = first.push(ask_active("firecrab-api.service"@));
            let world = ready.host.world;
            &&& end.failure is None <==> {
                &&& world(started).succeeded()
                &&& says_active(world(first))
                &&& says_active(world(second))
                &&& exists|i: nat|
                    questions(watch.settled().steps) <= i < questions(watch.settled().steps) + 60
                        && #[trigger] (watch.plan)(i)
            }
            &&& end.failure is None ==> end.host.calls == second
        }),
{
    two_units();
    let args = seq!["start"@] + units();
    assert(args =~= seq!["start"@, "firecrab-net-helper.service"@, "firecrab-api.service"@]);
    one_verb(ready, super::units::STEP_START@, args);
    let begun = ready.systemctl(super::units::STEP_START@, "start"@);
    if begun.failure is None {
        both_are_asked(begun);
    }
}

/// Starting succeeds exactly where systemd starts both services, in one go, then tells of each
/// that it is active, and the API answers one of the next sixty questions.
pub proof fn a_started_service_answers(
    ready: Session,
    env: ServiceEnv,
    bind: Seq<char>,
    watch: Watch,
    files: spec_fn(Seq<char>) -> bool,
)
    requires
        ready.failure is None,
    ensures
        ({
            let end = Command::Start.done(ready, env, bind, watch, files).0;
            let started = with_verb(
                ready,
                seq!["start"@, "firecrab-net-helper.service"@, "firecrab-api.service"@],
            );
            let first = started.push(ask_active("firecrab-net-helper.service"@));
            let second = first.push(ask_active("firecrab-api.service"@));
            let world = ready.host.world;
            &&& end.failure is None <==> {
                &&& world(started).succeeded()
                &&& says_active(world(first))
                &&& says_active(world(second))
                &&& exists|i: nat|
                    questions(watch.settled().steps) <= i < questions(watch.settled().steps) + 60
                        && #[trigger] (watch.plan)(i)
            }
            &&& end.failure is None ==> end.host.calls == second
        }),
{
    starting(ready, watch, bind);
}

proof fn stopping(ready: Session)
    requires
        ready.failure is None,
    ensures
        ({
            let end = ready.stop();
            let stopped = with_verb(
                ready,
                seq!["stop"@, "firecrab-api.service"@, "firecrab-net-helper.service"@],
            );
            let first = stopped.push(ask_active("firecrab-net-helper.service"@));
            let second = first.push(ask_active("firecrab-api.service"@));
            let world = ready.host.world;
            &&& end.failure is None <==> world(stopped).succeeded() && !says_active(world(first))
                && !says_active(world(second))
            &&& end.failure is None ==> end.host.calls == second && end.host.world == world
                && end.sudo == ready.sudo
        }),
{
    two_units();
    let args = seq!["stop"@, units()[1], units()[0]];
    assert(args =~= seq!["stop"@, "firecrab-api.service"@, "firecrab-net-helper.service"@]);
    one_verb(ready, super::units::STEP_STOP@, args);
    let told = ready.must(super::units::STEP_STOP@, "systemctl"@, args);
    reveal_with_fuel(Session::check_stopped, 4);
    let helper = "firecrab-net-helper.service"@;
    let api = "firecrab-api.service"@;
    if told.failure is None {
        one_question(told, helper);
        let (a, state) = told.is_active(helper);
        if state != "active"@ {
            let b = a.log(
                helper + " is "@ + if state.len() == 0 {
                    "stopped"@
                } else {
                    state
                },
            );
            one_question(b, api);
        }
    } else {
        the_words();
    }
}

/// Stopping succeeds exactly where systemd stops both services, in one go and the API first,
/// and then tells of neither that it is active.
pub proof fn a_stopped_service_is_down(
    ready: Session,
    env: ServiceEnv,
    bind: Seq<char>,
    watch: Watch,
    files: spec_fn(Seq<char>) -> bool,
)
    requires
        ready.failure is None,
    ensures
        ({
            let (end, seen) = Command::Stop.done(ready, env, bind, watch, files);
            let stopped = with_verb(
                ready,
                seq!["stop"@, "firecrab-api.service"@, "firecrab-net-helper.service"@],
            );
            let first = stopped.push(ask_active("firecrab-net-helper.service"@));
            let second = first.push(ask_active("firecrab-api.service"@));
            let world = ready.host.world;
            &&& end.failure is None <==> world(stopped).succeeded() && !says_active(world(first))
                && !says_active(world(second))
            &&& end.failure is None ==> end.host.calls == second
            &&& seen == watch
        }),
{
    stopping(ready);
}

/// Restarting is stopping and then starting: what is not down is not started.
pub proof fn a_restart_is_a_stop_and_a_start(
    ready: Session,
    env: ServiceEnv,
    bind: Seq<char>,
    watch: Watch,
    files: spec_fn(Seq<char>) -> bool,
)
    requires
        ready.failure is None,
    ensures
        ({
            let down = Command::Stop.done(ready, env, bind, watch, files).0;
            let end = Command::Restart.done(ready, env, bind, watch, files);
            if down.failure is Some {
                end.0 == down && end.1 == watch
            } else {
                end == Command::Start.done(down, env, bind, watch, files)
            }
        }),
{
}

/// Services are started at boot, or not, by one word to systemd about both, and that succeeds
/// exactly where systemd says so.
pub proof fn services_are_enabled_together(
    ready: Session,
    env: ServiceEnv,
    bind: Seq<char>,
    watch: Watch,
    files: spec_fn(Seq<char>) -> bool,
)
    requires
        ready.failure is None,
    ensures
        ({
            let end = Command::Enable.done(ready, env, bind, watch, files).0;
            let calls = with_verb(
                ready,
                seq!["enable"@, "firecrab-net-helper.service"@, "firecrab-api.service"@],
            );
            end.host.calls == calls && (end.failure is None <==> (ready.host.world)(
                calls,
            ).succeeded())
        }),
        ({
            let end = Command::Disable.done(ready, env, bind, watch, files).0;
            let calls = with_verb(
                ready,
                seq!["disable"@, "firecrab-net-helper.service"@, "firecrab-api.service"@],
            );
            end.host.calls == calls && (end.failure is None <==> (ready.host.world)(
                calls,
            ).succeeded())
        }),
{
    two_units();
    let on = seq!["enable"@] + units();
    assert(on =~= seq!["enable"@, "firecrab-net-helper.service"@, "firecrab-api.service"@]);
    one_verb(ready, super::units::STEP_UNITS@, on);
    let off = seq!["disable"@] + units();
    assert(off =~= seq!["disable"@, "firecrab-net-helper.service"@, "firecrab-api.service"@]);
    one_verb(ready, super::units::STEP_UNITS@, off);
}

/// Services that are not installed, both of them, are not controlled: the run ends with that,
/// and nothing was asked of the host.
pub proof fn only_installed_services_are_controlled<V: Fn() -> bool>(
    command: Command,
    begun: Session,
    env: ServiceEnv,
    bind: Seq<char>,
    has_tty: bool,
    validate: V,
    watch: Watch,
    files: spec_fn(Seq<char>) -> bool,
    end: (Session, Watch),
)
    requires
        begun.failure is None,
        command is Start || command is Stop || command is Restart || command is Enable
            || command is Disable,
        !files(join(env.unitdir@, "firecrab-net-helper.service"@)) || !files(
            join(env.unitdir@, "firecrab-api.service"@),
        ),
        command.carried_out(begun, env, bind, has_tty, validate, watch, files, end),
    ensures
        end.0.failure == Some(Failure::NotInstalled),
        end.0.host == begun.host,
        end.1 == watch,
{
    two_units();
}

} // verus!
