//! What installing, controlling and removing the services leaves on the host.

use vstd::prelude::*;

#[allow(unused_imports)]
use super::env::{units, ServiceEnv};
#[allow(unused_imports)]
use super::layout::API_ENV_TEMPLATE;
#[allow(unused_imports)]
use super::payload::{binary_source, Sources};
#[allow(unused_imports)]
use super::privileged::Session;
#[allow(unused_imports)]
use super::units::rendered;
#[allow(unused_imports)]
use crate::path::{components, join};
#[allow(unused_imports)]
use crate::shell::{Call, Host, Reply};
#[allow(unused_imports)]
use crate::text::{occurs_at, replace, trim, utf8_lossy};
#[allow(unused_imports)]
use crate::text_laws::{only_occurrences_are_replaced, the_first_occurrence_is_replaced};
#[allow(unused_imports)]
use vstd::utf8::encode_utf8;

verus! {

/// What a file of the host holds.
pub enum Holds {
    Directory,
    /// A copy of another file.
    CopyOf(Seq<char>),
    /// A text that was written.
    Written(Seq<u8>),
}

/// A file of the host: its owner and group, with a colon between, its mode, and what it holds.
pub struct Placed {
    pub owned: Seq<char>,
    pub mode: Seq<char>,
    pub holds: Holds,
}

/// What is known of a host.
pub struct Sys {
    pub files: Map<Seq<char>, Placed>,
    /// The files as they were when systemd last read its units.
    pub loaded: Map<Seq<char>, Placed>,
    pub running: Set<Seq<char>>,
    pub enabled: Set<Seq<char>>,
}

/// Some files in place of what was there, alike but for their names.
pub open spec fn with_all(files: Map<Seq<char>, Placed>, names: Seq<Seq<char>>, each: Placed) -> Map<
    Seq<char>,
    Placed,
> {
    Map::new(
        |p: Seq<char>| files.contains_key(p) || names.contains(p),
        |p: Seq<char>|
            if names.contains(p) {
                each
            } else {
                files[p]
            },
    )
}

/// Files without some of them.
pub open spec fn without_all(files: Map<Seq<char>, Placed>, names: Seq<Seq<char>>) -> Map<
    Seq<char>,
    Placed,
> {
    Map::new(
        |p: Seq<char>| files.contains_key(p) && !names.contains(p),
        |p: Seq<char>| files[p],
    )
}

/// What a command that succeeds does to a host.
pub open spec fn done(s: Sys, cmd: Seq<char>, args: Seq<Seq<char>>, stdin: Option<Seq<u8>>) -> Sys {
    if cmd == "install"@ && args.len() >= 7 && args[0] == "-d"@ && args[1] == "-o"@ && args[3]
        == "-g"@ && args[5] == "-m"@ {
        Sys {
            files: with_all(
                s.files,
                args.skip(7),
                Placed {
                    owned: args[2] + ":"@ + args[4],
                    mode: args[6],
                    holds: Holds::Directory,
                },
            ),
            ..s
        }
    } else if cmd == "install"@ && args.len() == 8 && args[0] == "-o"@ && args[2] == "-g"@
        && args[4] == "-m"@ {
        Sys {
            files: s.files.insert(
                args[7],
                Placed {
                    owned: args[1] + ":"@ + args[3],
                    mode: args[5],
                    holds: Holds::CopyOf(args[6]),
                },
            ),
            ..s
        }
    } else if cmd == "tee"@ && args.len() == 1 && stdin is Some {
        Sys {
            files: s.files.insert(
                args[0],
                Placed {
                    owned: Seq::empty(),
                    mode: Seq::empty(),
                    holds: Holds::Written(stdin->0),
                },
            ),
            ..s
        }
    } else if cmd == "chmod"@ && args.len() == 2 && s.files.contains_key(args[1]) {
        Sys {
            files: s.files.insert(args[1], Placed { mode: args[0], ..s.files[args[1]] }),
            ..s
        }
    } else if cmd == "chown"@ && args.len() == 2 && s.files.contains_key(args[1]) {
        Sys {
            files: s.files.insert(args[1], Placed { owned: args[0], ..s.files[args[1]] }),
            ..s
        }
    } else if cmd == "rm"@ && args.len() > 0 && (args[0] == "-f"@ || args[0] == "-rf"@) {
        Sys { files: without_all(s.files, args.skip(1)), ..s }
    } else if cmd == "systemctl"@ && args.len() > 0 {
        let names = args.skip(1).to_set();
        if args[0] == "start"@ || args[0] == "restart"@ {
            Sys { running: s.running.union(names), ..s }
        } else if args[0] == "stop"@ {
            Sys { running: s.running.difference(names), ..s }
        } else if args[0] == "enable"@ {
            Sys { enabled: s.enabled.union(names), ..s }
        } else if args[0] == "disable"@ {
            Sys { enabled: s.enabled.difference(names), ..s }
        } else if args[0] == "daemon-reload"@ {
            Sys { loaded: s.files, ..s }
        } else {
            s
        }
    } else {
        s
    }
}

/// What a call does to a host, with or without `sudo` in front, by how it was answered.
pub open spec fn called(s: Sys, call: Call, reply: Reply) -> Sys {
    if !reply.succeeded() {
        s
    } else if call.cmd == "sudo"@ && call.args.len() > 0 {
        done(s, call.args[0], call.args.skip(1), call.stdin)
    } else {
        done(s, call.cmd, call.args, call.stdin)
    }
}

/// A host after some calls.
pub open spec fn host_after(s: Sys, world: spec_fn(Seq<Call>) -> Reply, calls: Seq<Call>) -> Sys
    decreases calls.len(),
{
    if calls.len() == 0 {
        s
    } else {
        called(host_after(s, world, calls.drop_last()), calls.last(), world(calls))
    }
}

/// The host at the end of a run.
pub open spec fn left_by(s: Sys, session: Session) -> Sys {
    host_after(s, session.host.world, session.host.calls)
}

proof fn one_call(s: Sys, host: Host, call: Call)
    ensures
        host_after(s, host.world, host.call(call).0.calls) == called(
            host_after(s, host.world, host.calls),
            call,
            host.call(call).1,
        ),
{
    assert(host.calls.push(call).drop_last() =~= host.calls);
}

proof fn sent(
    s: Sys,
    session: Session,
    cmd: Seq<char>,
    args: Seq<Seq<char>>,
    stdin: Option<Seq<u8>>,
)
    requires
        cmd != "sudo"@,
    ensures
        ({
            let (after, reply) = session.send(cmd, args, stdin);
            &&& after.sudo == session.sudo
            &&& after.failure == session.failure
            &&& session.failure is None ==> left_by(s, after) == if reply.succeeded() {
                done(left_by(s, session), cmd, args, stdin)
            } else {
                left_by(s, session)
            }
            &&& session.failure is Some ==> after == session
        }),
{
    if session.failure is None {
        let call = session.argv(cmd, args, stdin);
        one_call(s, session.host, call);
        if session.sudo {
            assert((seq![cmd] + args).skip(1) =~= args);
        }
    }
}

/// A command that must succeed, in a run that goes on.
pub(crate) proof fn must_do(s: Sys, session: Session, name: Seq<char>, cmd: Seq<char>, args: Seq<Seq<char>>)
    requires
        cmd != "sudo"@,
    ensures
        ({
            let after = session.must(name, cmd, args);
            &&& after.sudo == session.sudo
            &&& session.failure is Some ==> after == session
            &&& after.failure is None ==> session.failure is None && left_by(s, after) == done(
                left_by(s, session),
                cmd,
                args,
                None,
            )
        }),
{
    sent(s, session, cmd, args, None);
}

pub(crate) proof fn the_commands()
    ensures
        "install"@ != "sudo"@ && "tee"@ != "sudo"@ && "chmod"@ != "sudo"@ && "chown"@ != "sudo"@,
        "rm"@ != "sudo"@ && "systemctl"@ != "sudo"@ && "rmdir"@ != "sudo"@ && "cp"@ != "sudo"@,
        "install"@ != "tee"@ && "install"@ != "chmod"@ && "install"@ != "rm"@,
        "tee"@ != "chmod"@ && "tee"@ != "rm"@ && "chmod"@ != "rm"@ && "chown"@ != "rm"@,
        "chmod"@ != "chown"@ && "chown"@ != "install"@ && "chown"@ != "tee"@,
        "systemctl"@ != "install"@ && "systemctl"@ != "tee"@ && "systemctl"@ != "chmod"@
            && "systemctl"@ != "chown"@ && "systemctl"@ != "rm"@,
        "-o"@ != "-d"@,
        "-f"@ != "-rf"@,
        "start"@ != "stop"@ && "start"@ != "enable"@ && "start"@ != "disable"@ && "start"@
            != "restart"@,
        "stop"@ != "restart"@ && "stop"@ != "enable"@ && "stop"@ != "disable"@,
        "enable"@ != "disable"@ && "enable"@ != "restart"@ && "disable"@ != "restart"@,
        "daemon-reload"@ != "start"@ && "daemon-reload"@ != "restart"@ && "daemon-reload"@
            != "stop"@ && "daemon-reload"@ != "enable"@ && "daemon-reload"@ != "disable"@,
        "rmdir"@ != "install"@ && "rmdir"@ != "tee"@ && "rmdir"@ != "chmod"@ && "rmdir"@
            != "chown"@ && "rmdir"@ != "rm"@ && "rmdir"@ != "systemctl"@,
        "id"@ != "sudo"@ && "id"@ != "install"@ && "id"@ != "tee"@ && "id"@ != "chmod"@
            && "id"@ != "chown"@ && "id"@ != "rm"@ && "id"@ != "systemctl"@,
        "sh"@ != "sudo"@ && "sh"@ != "install"@ && "sh"@ != "tee"@ && "sh"@ != "chmod"@
            && "sh"@ != "chown"@ && "sh"@ != "rm"@ && "sh"@ != "systemctl"@,
        "semanage"@ != "sudo"@ && "semanage"@ != "install"@ && "semanage"@ != "tee"@
            && "semanage"@ != "chmod"@ && "semanage"@ != "chown"@ && "semanage"@ != "rm"@
            && "semanage"@ != "systemctl"@,
{
    reveal_strlit("install");
    reveal_strlit("sudo");
    reveal_strlit("tee");
    reveal_strlit("chmod");
    reveal_strlit("chown");
    reveal_strlit("rm");
    reveal_strlit("systemctl");
    reveal_strlit("rmdir");
    reveal_strlit("cp");
    reveal_strlit("id");
    reveal_strlit("sh");
    reveal_strlit("semanage");
    reveal_strlit("-o");
    reveal_strlit("-d");
    reveal_strlit("-f");
    reveal_strlit("-rf");
    reveal_strlit("start");
    reveal_strlit("stop");
    reveal_strlit("enable");
    reveal_strlit("disable");
    reveal_strlit("restart");
    reveal_strlit("daemon-reload");
    assert("install"@.len() == 7 && "sudo"@.len() == 4 && "tee"@.len() == 3 && "chmod"@.len() == 5
        && "chown"@.len() == 5 && "rm"@.len() == 2 && "systemctl"@.len() == 9 && "rmdir"@.len() == 5
        && "cp"@.len() == 2 && "id"@.len() == 2 && "sh"@.len() == 2 && "semanage"@.len() == 8);
    assert("chmod"@[2] != "chown"@[2] && "rmdir"@[0] != "chmod"@[0] && "rmdir"@[0] != "chown"@[0]);
    assert("id"@[0] != "rm"@[0] && "sh"@[0] != "rm"@[0]);
    assert("-o"@[1] != "-d"@[1] && "-f"@.len() != "-rf"@.len());
    assert("start"@.len() == 5 && "stop"@.len() == 4 && "enable"@.len() == 6 && "disable"@.len()
        == 7 && "restart"@.len() == 7 && "daemon-reload"@.len() == 13);
    assert("disable"@[0] != "restart"@[0]);
}

/// Whether a file is there as a directory with that owner and mode.
pub open spec fn is_directory(s: Sys, path: Seq<char>, owned: Seq<char>, mode: Seq<char>) -> bool {
    s.files.contains_key(path) && s.files[path] == (Placed {
        owned,
        mode,
        holds: Holds::Directory,
    })
}

pub(crate) proof fn directories_made(
    s: Sys,
    session: Session,
    name: Seq<char>,
    dirs: Seq<Seq<char>>,
    owner: Seq<char>,
    group: Seq<char>,
    mode: Seq<char>,
)
    ensures
        ({
            let after = session.install_dirs(name, dirs, owner, group, mode);
            &&& after.sudo == session.sudo
            &&& session.failure is Some ==> after == session
            &&& after.failure is None ==> {
                &&& session.failure is None
                &&& forall|p: Seq<char>|
                    dirs.contains(p) ==> #[trigger] is_directory(
                        left_by(s, after),
                        p,
                        owner + ":"@ + group,
                        mode,
                    )
                &&& forall|p: Seq<char>, o: Seq<char>, m: Seq<char>|
                    !dirs.contains(p) && is_directory(left_by(s, session), p, o, m)
                        ==> #[trigger] is_directory(left_by(s, after), p, o, m)
            }
        }),
{
    the_commands();
    let args = seq!["-d"@, "-o"@, owner, "-g"@, group, "-m"@, mode] + dirs;
    assert(args.skip(7) =~= dirs);
    assert(args[0] == "-d"@ && args[1] == "-o"@ && args[2] == owner && args[3] == "-g"@ && args[4]
        == group && args[5] == "-m"@ && args[6] == mode);
    must_do(s, session, name, "install"@, args);
}

/// An installation whose directories were made has programs and shared data that belong to
/// root and that all may read, data that belongs to the account and that no stranger may
/// read, and a configuration that only root may change and only the account's group may
/// read. This holds where the directories differ.
pub proof fn directories_belong_to_their_owners(s: Sys, session: Session, env: ServiceEnv)
    requires
        session.ensure_directories(env).failure is None,
    ensures
        ({
            let after = left_by(s, session.ensure_directories(env));
            let data = seq![
                env.datadir@,
                join(env.datadir@, "data"@),
                join(env.datadir@, "images"@),
                join(env.datadir@, "updates"@),
            ];
            &&& is_directory(after, env.confdir@, "root:"@ + env.group@, "0750"@)
            &&& forall|i: int|
                0 <= i < 4 && #[trigger] data[i] != env.confdir@ ==> is_directory(
                    after,
                    data[i],
                    env.user@ + ":"@ + env.group@,
                    "0750"@,
                )
            &&& !data.contains(env.libdir@) && env.libdir@ != env.confdir@ ==> is_directory(
                after,
                env.libdir@,
                "root:root"@,
                "0755"@,
            )
            &&& !data.contains(env.sharedir@) && env.sharedir@ != env.confdir@ ==> is_directory(
                after,
                env.sharedir@,
                "root:root"@,
                "0755"@,
            )
        }),
{
    let programs = seq![env.libdir@, env.sharedir@];
    let data = seq![
        env.datadir@,
        join(env.datadir@, "data"@),
        join(env.datadir@, "images"@),
        join(env.datadir@, "updates"@),
    ];
    let conf = seq![env.confdir@];
    let name = super::layout::STEP_DIRS@;
    directories_made(s, session, name, programs, "root"@, "root"@, "0755"@);
    let a = session.install_dirs(name, programs, "root"@, "root"@, "0755"@);
    directories_made(s, a, name, data, env.user@, env.group@, "0750"@);
    let b = a.install_dirs(name, data, env.user@, env.group@, "0750"@);
    directories_made(s, b, name, conf, "root"@, env.group@, "0750"@);
    reveal_strlit("root");
    reveal_strlit(":");
    reveal_strlit("root:");
    reveal_strlit("root:root");
    assert("root"@ + ":"@ + env.group@ =~= "root:"@ + env.group@);
    assert("root"@ + ":"@ + "root"@ =~= "root:root"@);
    assert(programs[0] == env.libdir@ && programs[1] == env.sharedir@);
    assert(programs.contains(env.libdir@) && programs.contains(env.sharedir@));
    assert(conf[0] == env.confdir@ && conf.contains(env.confdir@));
    assert forall|p: Seq<char>| conf.contains(p) implies p == env.confdir@ by {}
    assert forall|i: int| 0 <= i < 4 implies data.contains(#[trigger] data[i]) by {}
    let c = b.install_dirs(name, conf, "root"@, env.group@, "0750"@);
    assert(left_by(s, session.ensure_directories(env)) == left_by(s, c));
}

proof fn file_written(
    s: Sys,
    session: Session,
    name: Seq<char>,
    path: Seq<char>,
    contents: Seq<u8>,
    mode: Seq<char>,
)
    ensures
        ({
            let after = session.write_file(name, path, contents, mode);
            &&& after.sudo == session.sudo
            &&& session.failure is Some ==> after == session
            &&& after.failure is None ==> {
                let before = left_by(s, session);
                let now = left_by(s, after);
                &&& session.failure is None
                &&& now.files.contains_key(path)
                &&& now.files[path].holds == Holds::Written(contents)
                &&& now.files[path].mode == mode
                &&& forall|p: Seq<char>|
                    p != path ==> (#[trigger] now.files.contains_key(p))
                        == before.files.contains_key(p) && (before.files.contains_key(p)
                        ==> now.files[p] == before.files[p])
            }
        }),
{
    the_commands();
    let args = seq![path];
    sent(s, session, "tee"@, args, Some(contents));
    let (a, reply) = session.send("tee"@, args, Some(contents));
    assert(args[0] == path);
    let modes = seq![mode, path];
    assert(modes[0] == mode && modes[1] == path);
    must_do(s, a, name, "chmod"@, modes);
}

/// A configuration that is written holds the template, only root may change it, and only the
/// account's group may read it.
pub proof fn a_configuration_is_not_for_strangers(s: Sys, session: Session, env: ServiceEnv)
    requires
        session.install_config(env, false).failure is None,
    ensures
        ({
            let after = left_by(s, session.install_config(env, false));
            let path = join(env.confdir@, "api.env"@);
            after.files.contains_key(path) && after.files[path] == (Placed {
                owned: "root:"@ + env.group@,
                mode: "0640"@,
                holds: Holds::Written(encode_utf8(API_ENV_TEMPLATE@)),
            })
        }),
{
    the_commands();
    let path = join(env.confdir@, "api.env"@);
    let name = super::layout::STEP_CONFIG@;
    let contents = encode_utf8(API_ENV_TEMPLATE@);
    file_written(s, session, name, path, contents, "0640"@);
    let a = session.write_file(name, path, contents, "0640"@);
    let args = seq!["root:"@ + env.group@, path];
    assert(args[0] == "root:"@ + env.group@ && args[1] == path);
    must_do(s, a, name, "chown"@, args);
}

/// Whether a unit is there as its template says for this host, and for all to read.
pub open spec fn has_unit(
    files: Map<Seq<char>, Placed>,
    env: ServiceEnv,
    dir: Seq<char>,
    uid: Seq<char>,
    unit: Seq<char>,
    texts: spec_fn(Seq<char>) -> Result<Seq<char>, Seq<char>>,
) -> bool {
    let path = join(env.unitdir@, unit);
    &&& files.contains_key(path)
    &&& files[path].mode == "0644"@
    &&& texts(join(dir, unit)) matches Ok(template) && files[path].holds == Holds::Written(
        encode_utf8(rendered(template, env, uid)),
    )
}

/// Installing the units leaves both of them in the directory of systemd's units, filled in
/// for this host from their templates, for all to read; systemd has read them so.
pub proof fn units_are_installed_and_read(
    s: Sys,
    session: Session,
    env: ServiceEnv,
    dir: Seq<char>,
    texts: spec_fn(Seq<char>) -> Result<Seq<char>, Seq<char>>,
)
    requires
        session.failure is None,
        session.install_units(env, dir, texts).failure is None,
    ensures
        ({
            let uid = trim(
                utf8_lossy(session.probe("id"@, seq!["-u"@, env.user@]).1->stdout),
            );
            let after = left_by(s, session.install_units(env, dir, texts));
            &&& has_unit(after.loaded, env, dir, uid, "firecrab-net-helper.service"@, texts)
            &&& has_unit(after.loaded, env, dir, uid, "firecrab-api.service"@, texts)
            &&& after.loaded == after.files
        }),
{
    the_commands();
    let (probed, reply) = session.probe("id"@, seq!["-u"@, env.user@]);
    let uid = trim(utf8_lossy(reply->stdout));
    let names = units();
    let helper = names[0];
    let api = names[1];
    assert(names.skip(1)[0] == api);
    assert(names.skip(1).skip(1).len() == 0);
    let name = super::units::STEP_UNITS@;
    let a = match texts(join(dir, helper)) {
        Err(_) => probed,
        Ok(template) => {
            let contents = encode_utf8(rendered(template, env, uid));
            file_written(s, probed, name, join(env.unitdir@, helper), contents, "0644"@);
            probed.write_file(name, join(env.unitdir@, helper), contents, "0644"@)
        },
    };
    let b = match texts(join(dir, api)) {
        Err(_) => a,
        Ok(template) => {
            let contents = encode_utf8(rendered(template, env, uid));
            file_written(s, a, name, join(env.unitdir@, api), contents, "0644"@);
            a.write_file(name, join(env.unitdir@, api), contents, "0644"@)
        },
    };
    let written = probed.write_units(env, dir, uid, names, texts);
    let args = seq!["daemon-reload"@];
    assert(args[0] == "daemon-reload"@);
    must_do(s, written, name, "systemctl"@, args);
    assert(written.failure is None);
    reveal_with_fuel(Session::write_units, 4);
    assert(texts(join(dir, helper)) is Ok);
    assert(texts(join(dir, api)) is Ok);
    assert(written == b);
    reveal_strlit("firecrab-net-helper.service");
    reveal_strlit("firecrab-api.service");
    assert(helper.len() != api.len());
    paths_keep_names_apart(env.unitdir@, helper, api);
}

pub(crate) proof fn paths_keep_names_apart(base: Seq<char>, a: Seq<char>, b: Seq<char>)
    requires
        a.len() != b.len(),
        a.len() > 0 && a[0] != '/',
        b.len() > 0 && b[0] != '/',
    ensures
        join(base, a) != join(base, b),
{
    assert(join(base, a).len() != join(base, b).len());
}

proof fn verbs_do(s: Sys, session: Session, step: Seq<char>, verb: Seq<char>)
    ensures
        ({
            let after = session.systemctl(step, verb);
            let before = left_by(s, session);
            let now = left_by(s, after);
            &&& after.sudo == session.sudo
            &&& after.failure is None ==> {
                &&& session.failure is None
                &&& verb == "start"@ || verb == "restart"@ ==> now.running.contains(
                    "firecrab-net-helper.service"@,
                ) && now.running.contains("firecrab-api.service"@)
                &&& verb == "enable"@ ==> now.enabled.contains("firecrab-net-helper.service"@)
                    && now.enabled.contains("firecrab-api.service"@)
                &&& verb == "disable"@ ==> !now.enabled.contains("firecrab-net-helper.service"@)
                    && !now.enabled.contains("firecrab-api.service"@)
            }
        }),
{
    the_commands();
    let args = seq![verb] + units();
    assert(args[0] == verb);
    assert(args.skip(1) =~= units());
    must_do(s, session, step, "systemctl"@, args);
    assert(units()[0] == "firecrab-net-helper.service"@);
    assert(units()[1] == "firecrab-api.service"@);
    assert(units().contains("firecrab-net-helper.service"@));
    assert(units().contains("firecrab-api.service"@));
}

/// Enabling makes both services start at boot, disabling neither; starting runs both. Where
/// the services are stopped neither runs, and the API was stopped before the helper that it
/// uses: systemd is given the API's name first.
pub proof fn services_are_controlled_together(s: Sys, session: Session)
    ensures
        ({
            let helper = "firecrab-net-helper.service"@;
            let api = "firecrab-api.service"@;
            let on = session.systemctl(super::units::STEP_UNITS@, "enable"@);
            let off = session.systemctl(super::units::STEP_UNITS@, "disable"@);
            let up = session.systemctl(super::units::STEP_START@, "start"@);
            let down = session.stop();
            &&& on.failure is None ==> left_by(s, on).enabled.contains(helper) && left_by(
                s,
                on,
            ).enabled.contains(api)
            &&& off.failure is None ==> !left_by(s, off).enabled.contains(helper) && !left_by(
                s,
                off,
            ).enabled.contains(api)
            &&& up.failure is None ==> left_by(s, up).running.contains(helper) && left_by(
                s,
                up,
            ).running.contains(api)
            &&& down.failure is None ==> !left_by(s, down).running.contains(helper) && !left_by(
                s,
                down,
            ).running.contains(api)
            &&& down.failure is None ==> exists|i: int|
                0 <= i < down.host.calls.len() && #[trigger] down.host.calls[i] == session.argv(
                    "systemctl"@,
                    seq!["stop"@, api, helper],
                    None,
                )
        }),
{
    verbs_do(s, session, super::units::STEP_UNITS@, "enable"@);
    verbs_do(s, session, super::units::STEP_UNITS@, "disable"@);
    verbs_do(s, session, super::units::STEP_START@, "start"@);
    the_commands();
    let args = seq!["stop"@, units()[1], units()[0]];
    let stopped = session.must(super::units::STEP_STOP@, "systemctl"@, args);
    must_do(s, session, super::units::STEP_STOP@, "systemctl"@, args);
    assert(args[0] == "stop"@);
    assert(args.skip(1)[0] == units()[1] && args.skip(1)[1] == units()[0]);
    assert(args.skip(1).contains(units()[0]) && args.skip(1).contains(units()[1]));
    looking_changes_nothing(s, stopped, units());
    let down = session.stop();
    if down.failure is None {
        let n = session.host.calls.len() as int;
        assert(stopped.host.calls[n] == session.argv("systemctl"@, args, None));
        assert(down.host.calls[n] == stopped.host.calls[n]);
    }
}

proof fn looking_changes_nothing(s: Sys, session: Session, names: Seq<Seq<char>>)
    ensures
        ({
            let after = session.check_stopped(names);
            &&& session.failure is Some ==> after.failure is Some
            &&& left_by(s, after) == left_by(s, session)
            &&& after.host.calls.len() >= session.host.calls.len()
            &&& forall|i: int|
                0 <= i < session.host.calls.len() ==> #[trigger] after.host.calls[i]
                    == session.host.calls[i]
        }),
    decreases names.len(),
{
    if names.len() > 0 {
        reveal_strlit("active");
        let (looked, state) = session.is_active(names[0]);
        if session.failure is None {
            let call = Call {
                cmd: "systemctl"@,
                args: seq!["is-active"@, names[0]],
                stdin: None,
            };
            the_commands();
            one_call(s, session.host, call);
            reveal_strlit("is-active");
            reveal_strlit("start");
            reveal_strlit("restart");
            reveal_strlit("stop");
            reveal_strlit("enable");
            reveal_strlit("disable");
            reveal_strlit("daemon-reload");
            assert("is-active"@.len() == 9);
            assert(call.args[0] == "is-active"@);
            assert(looked.host == session.host.call(call).0);
        }
        let next = looked.log(
            names[0] + " is "@ + if state.len() == 0 {
                "stopped"@
            } else {
                state
            },
        );
        looking_changes_nothing(s, next, names.skip(1));
    }
}

pub(crate) proof fn file_installed(
    s: Sys,
    session: Session,
    name: Seq<char>,
    src: Seq<char>,
    dest: Seq<char>,
    owner: Seq<char>,
    group: Seq<char>,
    mode: Seq<char>,
)
    ensures
        ({
            let after = session.install_file(name, src, dest, owner, group, mode);
            &&& after.sudo == session.sudo
            &&& session.failure is Some ==> after == session
            &&& after.failure is None ==> {
                &&& session.failure is None
                &&& left_by(s, after).files == left_by(s, session).files.insert(
                    dest,
                    Placed { owned: owner + ":"@ + group, mode, holds: Holds::CopyOf(src) },
                )
            }
        }),
{
    the_commands();
    let args = seq!["-o"@, owner, "-g"@, group, "-m"@, mode, src, dest];
    assert(args[0] == "-o"@ && args[1] == owner && args[2] == "-g"@ && args[3] == group && args[4]
        == "-m"@ && args[5] == mode && args[6] == src && args[7] == dest);
    must_do(s, session, name, "install"@, args);
}

/// Whether a program that all may run is there, owned by root, as a copy of another file.
pub open spec fn is_program(s: Sys, path: Seq<char>, source: Seq<char>) -> bool {
    s.files.contains_key(path) && s.files[path] == (Placed {
        owned: "root:root"@,
        mode: "0755"@,
        holds: Holds::CopyOf(source),
    })
}

pub(crate) proof fn program_installed(s: Sys, session: Session, src: Seq<char>, dest: Seq<char>)
    ensures
        ({
            let after = session.install_program(src, dest);
            &&& session.failure is Some ==> after == session
            &&& after.failure is None ==> {
                &&& session.failure is None
                &&& is_program(left_by(s, after), dest, src)
                &&& forall|p: Seq<char>, from: Seq<char>|
                    p != dest && is_program(left_by(s, session), p, from) ==> #[trigger] is_program(
                        left_by(s, after),
                        p,
                        from,
                    )
            }
        }),
{
    file_installed(
        s,
        session,
        super::layout::STEP_BINARIES@,
        src,
        dest,
        "root"@,
        "root"@,
        "0755"@,
    );
    reveal_strlit("root");
    reveal_strlit(":");
    reveal_strlit("root:root");
    assert("root"@ + ":"@ + "root"@ =~= "root:root"@);
}

/// Whether a program of the services is in place: it was kept, or copied from where it was
/// found, for all to run.
pub open spec fn in_place(
    s: Sys,
    dest: Seq<char>,
    source: Option<Seq<char>>,
) -> bool {
    source matches Some(src) && (components(src) == components(dest) || is_program(s, dest, src))
}

proof fn daemons_installed(
    s: Sys,
    session: Session,
    env: ServiceEnv,
    bin: Seq<char>,
    files: spec_fn(Seq<char>) -> bool,
)
    requires
        session.install_daemons(
            env,
            bin,
            seq!["firecrab-api"@, "firecrab-net-helper"@],
            files,
        ).failure is None,
    ensures
        ({
            let after = left_by(
                s,
                session.install_daemons(
                    env,
                    bin,
                    seq!["firecrab-api"@, "firecrab-net-helper"@],
                    files,
                ),
            );
            &&& session.failure is None
            &&& in_place(
                after,
                join(env.libdir@, "firecrab-api"@),
                binary_source("firecrab-api"@, Some(bin), env.libdir@, files),
            )
            &&& in_place(
                after,
                join(env.libdir@, "firecrab-net-helper"@),
                binary_source("firecrab-net-helper"@, Some(bin), env.libdir@, files),
            )
        }),
{
    let names = seq!["firecrab-api"@, "firecrab-net-helper"@];
    let rest = names.skip(1);
    assert(names[0] == "firecrab-api"@ && rest[0] == "firecrab-net-helper"@);
    assert(rest.skip(1).len() == 0);
    reveal_with_fuel(Session::install_daemons, 4);
    reveal_strlit("firecrab-api");
    reveal_strlit("firecrab-net-helper");
    paths_keep_names_apart(env.libdir@, names[0], rest[0]);
    let api = join(env.libdir@, names[0]);
    let helper = join(env.libdir@, rest[0]);
    let first = binary_source(names[0], Some(bin), env.libdir@, files);
    let second = binary_source(rest[0], Some(bin), env.libdir@, files);
    let a = match first {
        None => session,
        Some(src) => if components(src) == components(api) {
            session.log("keeping existing "@ + api)
        } else {
            program_installed(s, session, src, api);
            session.install_program(src, api)
        },
    };
    match second {
        None => {},
        Some(src) => {
            program_installed(s, a, src, helper);
        },
    }
}

/// Where the programs of the services are installed, both are in their directory: a program
/// that was there and is wanted is kept, and another is a copy of the one that was found,
/// owned by root, for all to run.
pub proof fn programs_may_be_run_by_all(
    s: Sys,
    session: Session,
    env: ServiceEnv,
    bin: Seq<char>,
    files: spec_fn(Seq<char>) -> bool,
)
    requires
        session.install_daemons(
            env,
            bin,
            seq!["firecrab-api"@, "firecrab-net-helper"@],
            files,
        ).failure is None,
    ensures
        ({
            let after = left_by(
                s,
                session.install_daemons(
                    env,
                    bin,
                    seq!["firecrab-api"@, "firecrab-net-helper"@],
                    files,
                ),
            );
            &&& in_place(
                after,
                join(env.libdir@, "firecrab-api"@),
                binary_source("firecrab-api"@, Some(bin), env.libdir@, files),
            )
            &&& in_place(
                after,
                join(env.libdir@, "firecrab-net-helper"@),
                binary_source("firecrab-net-helper"@, Some(bin), env.libdir@, files),
            )
        }),
{
    daemons_installed(s, session, env, bin, files);
}

/// Whether a text has no `@` in it.
pub open spec fn no_mark(text: Seq<char>) -> bool {
    forall|i: int| 0 <= i < text.len() ==> #[trigger] text[i] != '@'
}

proof fn nothing_to_fill_in(text: Seq<char>, place: Seq<char>, value: Seq<char>)
    requires
        no_mark(text),
        place.len() > 0 && place[0] == '@',
    ensures
        replace(text, place, value) == text,
{
    assert forall|at: int| !occurs_at(text, place, at) by {
        if occurs_at(text, place, at) {
            assert(text.subrange(at, at + place.len())[0] == place[0]);
            assert(text[at] == '@');
        }
    }
    only_occurrences_are_replaced(text, place, value);
}

/// A place holder stands alone in a text.
proof fn another_is_left(
    front: Seq<char>,
    here: Seq<char>,
    back: Seq<char>,
    other: Seq<char>,
    value: Seq<char>,
)
    requires
        no_mark(front),
        no_mark(back),
        here.len() > 1 && here[0] == '@' && here.last() == '@',
        forall|i: int| 0 < i < here.len() - 1 ==> #[trigger] here[i] != '@',
        other.len() > 1 && other[0] == '@' && other.last() == '@',
        forall|i: int| 0 < i < other.len() - 1 ==> #[trigger] other[i] != '@',
        here != other,
    ensures
        replace(front + here + back, other, value) == front + here + back,
{
    let s = front + here + back;
    let n = front.len() as int;
    let m = here.len() as int;
    assert forall|at: int| !occurs_at(s, other, at) by {
        if occurs_at(s, other, at) {
            let k = other.len() as int;
            let part = s.subrange(at, at + k);
            assert(part == other);
            assert(s[at] == part[0] && s[at + k - 1] == part[k - 1]);
            if at < n {
                assert(s[at] == front[at]);
            } else if at >= n + m {
                assert(s[at] == back[at - n - m]);
            } else {
                assert(s[at] == here[at - n]);
                if at == n {
                    if at + k - 1 >= n + m {
                        assert(s[at + k - 1] == back[at + k - 1 - n - m]);
                    } else {
                        assert(s[at + k - 1] == here[k - 1]);
                        assert(k == m);
                        assert(part =~= here);
                    }
                } else {
                    assert(at == n + m - 1);
                    assert(s[at + k - 1] == back[at + k - 1 - n - m]);
                }
            }
        }
    }
    only_occurrences_are_replaced(s, other, value);
}

proof fn the_one_is_filled_in(
    front: Seq<char>,
    here: Seq<char>,
    back: Seq<char>,
    value: Seq<char>,
)
    requires
        no_mark(front),
        no_mark(back),
        here.len() > 1 && here[0] == '@',
    ensures
        replace(front + here + back, here, value) == front + value + back,
{
    let s = front + here + back;
    assert forall|at: int| 0 <= at < front.len() implies !occurs_at(s, here, at) by {
        if occurs_at(s, here, at) {
            assert(s.subrange(at, at + here.len())[0] == here[0]);
            assert(s[at] == front[at]);
        }
    }
    the_first_occurrence_is_replaced(front, here, back, value);
    nothing_to_fill_in(back, here, value);
}

proof fn place_holders()
    ensures
        is_place_holder("@LIBDIR@"@),
        is_place_holder("@SHAREDIR@"@),
        is_place_holder("@DATADIR@"@),
        is_place_holder("@CONFDIR@"@),
        is_place_holder("@PREFIX@"@),
        is_place_holder("@FIRECRAB_USER@"@),
        is_place_holder("@FIRECRAB_GROUP@"@),
        is_place_holder("@FIRECRAB_UID@"@),
        "@LIBDIR@"@ != "@SHAREDIR@"@,
        "@LIBDIR@"@ != "@DATADIR@"@,
        "@LIBDIR@"@ != "@CONFDIR@"@,
        "@LIBDIR@"@ != "@PREFIX@"@,
        "@LIBDIR@"@ != "@FIRECRAB_USER@"@,
        "@LIBDIR@"@ != "@FIRECRAB_GROUP@"@,
        "@LIBDIR@"@ != "@FIRECRAB_UID@"@,
        "@SHAREDIR@"@ != "@DATADIR@"@,
        "@SHAREDIR@"@ != "@CONFDIR@"@,
        "@SHAREDIR@"@ != "@PREFIX@"@,
        "@SHAREDIR@"@ != "@FIRECRAB_USER@"@,
        "@SHAREDIR@"@ != "@FIRECRAB_GROUP@"@,
        "@SHAREDIR@"@ != "@FIRECRAB_UID@"@,
        "@DATADIR@"@ != "@CONFDIR@"@,
        "@DATADIR@"@ != "@PREFIX@"@,
        "@DATADIR@"@ != "@FIRECRAB_USER@"@,
        "@DATADIR@"@ != "@FIRECRAB_GROUP@"@,
        "@DATADIR@"@ != "@FIRECRAB_UID@"@,
        "@CONFDIR@"@ != "@PREFIX@"@,
        "@CONFDIR@"@ != "@FIRECRAB_USER@"@,
        "@CONFDIR@"@ != "@FIRECRAB_GROUP@"@,
        "@CONFDIR@"@ != "@FIRECRAB_UID@"@,
        "@PREFIX@"@ != "@FIRECRAB_USER@"@,
        "@PREFIX@"@ != "@FIRECRAB_GROUP@"@,
        "@PREFIX@"@ != "@FIRECRAB_UID@"@,
        "@FIRECRAB_USER@"@ != "@FIRECRAB_GROUP@"@,
        "@FIRECRAB_USER@"@ != "@FIRECRAB_UID@"@,
        "@FIRECRAB_GROUP@"@ != "@FIRECRAB_UID@"@,
{
    reveal_strlit("@LIBDIR@");
    reveal_strlit("@SHAREDIR@");
    reveal_strlit("@DATADIR@");
    reveal_strlit("@CONFDIR@");
    reveal_strlit("@PREFIX@");
    reveal_strlit("@FIRECRAB_USER@");
    reveal_strlit("@FIRECRAB_GROUP@");
    reveal_strlit("@FIRECRAB_UID@");
    assert forall|i: int| 0 < i < "@LIBDIR@"@.len() - 1 implies #[trigger] "@LIBDIR@"@[i] != '@' by {
        assert(i == 1 || i == 2 || i == 3 || i == 4 || i == 5 || i == 6);
    }
    assert forall|i: int| 0 < i < "@SHAREDIR@"@.len() - 1 implies #[trigger] "@SHAREDIR@"@[i] != '@' by {
        assert(i == 1 || i == 2 || i == 3 || i == 4 || i == 5 || i == 6 || i == 7 || i == 8);
    }
    assert forall|i: int| 0 < i < "@DATADIR@"@.len() - 1 implies #[trigger] "@DATADIR@"@[i] != '@' by {
        assert(i == 1 || i == 2 || i == 3 || i == 4 || i == 5 || i == 6 || i == 7);
    }
    assert forall|i: int| 0 < i < "@CONFDIR@"@.len() - 1 implies #[trigger] "@CONFDIR@"@[i] != '@' by {
        assert(i == 1 || i == 2 || i == 3 || i == 4 || i == 5 || i == 6 || i == 7);
    }
    assert forall|i: int| 0 < i < "@PREFIX@"@.len() - 1 implies #[trigger] "@PREFIX@"@[i] != '@' by {
        assert(i == 1 || i == 2 || i == 3 || i == 4 || i == 5 || i == 6);
    }
    assert forall|i: int| 0 < i < "@FIRECRAB_USER@"@.len() - 1 implies #[trigger] "@FIRECRAB_USER@"@[i] != '@' by {
        assert(i == 1 || i == 2 || i == 3 || i == 4 || i == 5 || i == 6 || i == 7 || i == 8 || i == 9 || i == 10 || i == 11 || i == 12 || i == 13);
    }
    assert forall|i: int| 0 < i < "@FIRECRAB_GROUP@"@.len() - 1 implies #[trigger] "@FIRECRAB_GROUP@"@[i] != '@' by {
        assert(i == 1 || i == 2 || i == 3 || i == 4 || i == 5 || i == 6 || i == 7 || i == 8 || i == 9 || i == 10 || i == 11 || i == 12 || i == 13 || i == 14);
    }
    assert forall|i: int| 0 < i < "@FIRECRAB_UID@"@.len() - 1 implies #[trigger] "@FIRECRAB_UID@"@[i] != '@' by {
        assert(i == 1 || i == 2 || i == 3 || i == 4 || i == 5 || i == 6 || i == 7 || i == 8 || i == 9 || i == 10 || i == 11 || i == 12);
    }
    assert("@LIBDIR@"@.len() != "@SHAREDIR@"@.len());
    assert("@LIBDIR@"@.len() != "@DATADIR@"@.len());
    assert("@LIBDIR@"@.len() != "@CONFDIR@"@.len());
    assert("@LIBDIR@"@[1] != "@PREFIX@"@[1]);
    assert("@LIBDIR@"@.len() != "@FIRECRAB_USER@"@.len());
    assert("@LIBDIR@"@.len() != "@FIRECRAB_GROUP@"@.len());
    assert("@LIBDIR@"@.len() != "@FIRECRAB_UID@"@.len());
    assert("@SHAREDIR@"@.len() != "@DATADIR@"@.len());
    assert("@SHAREDIR@"@.len() != "@CONFDIR@"@.len());
    assert("@SHAREDIR@"@.len() != "@PREFIX@"@.len());
    assert("@SHAREDIR@"@.len() != "@FIRECRAB_USER@"@.len());
    assert("@SHAREDIR@"@.len() != "@FIRECRAB_GROUP@"@.len());
    assert("@SHAREDIR@"@.len() != "@FIRECRAB_UID@"@.len());
    assert("@DATADIR@"@[1] != "@CONFDIR@"@[1]);
    assert("@DATADIR@"@.len() != "@PREFIX@"@.len());
    assert("@DATADIR@"@.len() != "@FIRECRAB_USER@"@.len());
    assert("@DATADIR@"@.len() != "@FIRECRAB_GROUP@"@.len());
    assert("@DATADIR@"@.len() != "@FIRECRAB_UID@"@.len());
    assert("@CONFDIR@"@.len() != "@PREFIX@"@.len());
    assert("@CONFDIR@"@.len() != "@FIRECRAB_USER@"@.len());
    assert("@CONFDIR@"@.len() != "@FIRECRAB_GROUP@"@.len());
    assert("@CONFDIR@"@.len() != "@FIRECRAB_UID@"@.len());
    assert("@PREFIX@"@.len() != "@FIRECRAB_USER@"@.len());
    assert("@PREFIX@"@.len() != "@FIRECRAB_GROUP@"@.len());
    assert("@PREFIX@"@.len() != "@FIRECRAB_UID@"@.len());
    assert("@FIRECRAB_USER@"@.len() != "@FIRECRAB_GROUP@"@.len());
    assert("@FIRECRAB_USER@"@.len() != "@FIRECRAB_UID@"@.len());
    assert("@FIRECRAB_GROUP@"@.len() != "@FIRECRAB_UID@"@.len());
}

/// Whether a text is a name between two `@`.
pub open spec fn is_place_holder(text: Seq<char>) -> bool {
    &&& text.len() > 1 && text[0] == '@' && text.last() == '@'
    &&& forall|i: int| 0 < i < text.len() - 1 ==> #[trigger] text[i] != '@'
}

/// The value that a place holder of a unit stands for on this host.
pub open spec fn stands_for(place: Seq<char>, env: ServiceEnv, uid: Seq<char>) -> Option<Seq<char>> {
    if place == "@LIBDIR@"@ {
        Some(env.libdir@)
    } else if place == "@SHAREDIR@"@ {
        Some(env.sharedir@)
    } else if place == "@DATADIR@"@ {
        Some(env.datadir@)
    } else if place == "@CONFDIR@"@ {
        Some(env.confdir@)
    } else if place == "@PREFIX@"@ {
        Some(env.prefix@)
    } else if place == "@FIRECRAB_USER@"@ {
        Some(env.user@)
    } else if place == "@FIRECRAB_GROUP@"@ {
        Some(env.group@)
    } else if place == "@FIRECRAB_UID@"@ {
        Some(uid)
    } else {
        None
    }
}

/// A place holder of a unit becomes the value that it names, and what stands around it stays;
/// a name between two `@` that is none of them stays too, and so does a text without any.
pub proof fn a_place_holder_becomes_its_value(
    front: Seq<char>,
    place: Seq<char>,
    back: Seq<char>,
    env: ServiceEnv,
    uid: Seq<char>,
)
    requires
        no_mark(front),
        no_mark(back),
        is_place_holder(place),
        stands_for(place, env, uid) matches Some(value) ==> no_mark(value),
    ensures
        rendered(front + place + back, env, uid) == match stands_for(place, env, uid) {
            Some(value) => front + value + back,
            None => front + place + back,
        },
        rendered(front, env, uid) == front,
{
    place_holders();
    let value = match stands_for(place, env, uid) {
        Some(value) => value,
        None => place,
    };
    let full = front + place + back;
    let filled = front + value + back;
    if stands_for(place, env, uid) is Some {
        assert forall|i: int| 0 <= i < filled.len() implies #[trigger] filled[i] != '@' by {
            if i < front.len() {
                assert(filled[i] == front[i]);
            } else if i < front.len() + value.len() {
                assert(filled[i] == value[i - front.len()]);
            } else {
                assert(filled[i] == back[i - front.len() - value.len()]);
            }
        }
        assert(no_mark(filled));
    }
    fills_one(front, place, back, filled, "@LIBDIR@"@, env.libdir@);
    nothing_to_fill_in(front, "@LIBDIR@"@, env.libdir@);
    fills_one(front, place, back, filled, "@SHAREDIR@"@, env.sharedir@);
    nothing_to_fill_in(front, "@SHAREDIR@"@, env.sharedir@);
    fills_one(front, place, back, filled, "@DATADIR@"@, env.datadir@);
    nothing_to_fill_in(front, "@DATADIR@"@, env.datadir@);
    fills_one(front, place, back, filled, "@CONFDIR@"@, env.confdir@);
    nothing_to_fill_in(front, "@CONFDIR@"@, env.confdir@);
    fills_one(front, place, back, filled, "@PREFIX@"@, env.prefix@);
    nothing_to_fill_in(front, "@PREFIX@"@, env.prefix@);
    fills_one(front, place, back, filled, "@FIRECRAB_USER@"@, env.user@);
    nothing_to_fill_in(front, "@FIRECRAB_USER@"@, env.user@);
    fills_one(front, place, back, filled, "@FIRECRAB_GROUP@"@, env.group@);
    nothing_to_fill_in(front, "@FIRECRAB_GROUP@"@, env.group@);
    fills_one(front, place, back, filled, "@FIRECRAB_UID@"@, uid);
    nothing_to_fill_in(front, "@FIRECRAB_UID@"@, uid);
}

proof fn fills_one(
    front: Seq<char>,
    place: Seq<char>,
    back: Seq<char>,
    filled: Seq<char>,
    this: Seq<char>,
    value: Seq<char>,
)
    requires
        no_mark(front),
        no_mark(back),
        is_place_holder(place),
        is_place_holder(this),
    ensures
        place == this ==> replace(front + place + back, this, value) == front + value + back,
        place != this ==> replace(front + place + back, this, value) == front + place + back,
        no_mark(filled) ==> replace(filled, this, value) == filled,
{
    if place == this {
        the_one_is_filled_in(front, place, back, value);
    } else {
        another_is_left(front, place, back, this, value);
    }
    if no_mark(filled) {
        nothing_to_fill_in(filled, this, value);
    }
}

/// Whether a run took away those files and no others, and changed none that is left.
pub open spec fn takes_away(
    before: Map<Seq<char>, Placed>,
    after: Map<Seq<char>, Placed>,
    names: Seq<Seq<char>>,
) -> bool {
    forall|p: Seq<char>|
        (#[trigger] after.contains_key(p)) == (before.contains_key(p) && !names.contains(p)) && (
        after.contains_key(p) ==> after[p] == before[p])
}

proof fn away_in_turn(
    a: Map<Seq<char>, Placed>,
    b: Map<Seq<char>, Placed>,
    c: Map<Seq<char>, Placed>,
    x: Seq<Seq<char>>,
    y: Seq<Seq<char>>,
)
    requires
        takes_away(a, b, x),
        takes_away(b, c, y),
    ensures
        takes_away(a, c, x + y),
{
    assert forall|p: Seq<char>|
        (#[trigger] c.contains_key(p)) == (a.contains_key(p) && !(x + y).contains(p)) && (
        c.contains_key(p) ==> c[p] == a[p]) by {
        assert(b.contains_key(p) == (a.contains_key(p) && !x.contains(p)));
        if x.contains(p) {
            let i = choose|i: int| 0 <= i < x.len() && x[i] == p;
            assert((x + y)[i] == p);
        }
        if y.contains(p) {
            let i = choose|i: int| 0 <= i < y.len() && y[i] == p;
            assert((x + y)[x.len() + i] == p);
        }
        if (x + y).contains(p) {
            let i = choose|i: int| 0 <= i < (x + y).len() && (x + y)[i] == p;
            if i < x.len() {
                assert(x[i] == p);
            } else {
                assert(y[i - x.len()] == p);
            }
        }
    }
}

pub(crate) proof fn removed(
    s: Sys,
    session: Session,
    name: Seq<char>,
    flag: Seq<char>,
    names: Seq<Seq<char>>,
)
    requires
        flag == "-f"@ || flag == "-rf"@,
    ensures
        ({
            let after = session.must(name, "rm"@, seq![flag] + names);
            &&& session.failure is Some ==> after == session
            &&& after.failure is None ==> session.failure is None && takes_away(
                left_by(s, session).files,
                left_by(s, after).files,
                names,
            )
        }),
{
    the_commands();
    let args = seq![flag] + names;
    assert(args[0] == flag && args.skip(1) =~= names);
    must_do(s, session, name, "rm"@, args);
}

/// A command that touches no file.
proof fn untouched(s: Sys, session: Session, cmd: Seq<char>, args: Seq<Seq<char>>)
    requires
        cmd != "sudo"@,
        cmd != "install"@ && cmd != "tee"@ && cmd != "chmod"@ && cmd != "chown"@ && cmd != "rm"@,
    ensures
        ({
            let after = session.attempt(cmd, args).0;
            &&& after.failure == session.failure
            &&& session.failure is Some ==> after == session
            &&& left_by(s, after).files == left_by(s, session).files
        }),
{
    sent(s, session, cmd, args, None);
}

proof fn looked_for(s: Sys, session: Session, cmd: Seq<char>)
    ensures
        ({
            let after = session.have(cmd).0;
            &&& after.failure == session.failure
            &&& left_by(s, after).files == left_by(s, session).files
        }),
{
    the_commands();
    if session.failure is None {
        one_call(
            s,
            session.host,
            Call { cmd: "sh"@, args: seq!["-c"@, "command -v "@ + cmd], stdin: None },
        );
    }
}

proof fn unit_removed(s: Sys, session: Session, unitdir: Seq<char>, unit: Seq<char>)
    ensures
        ({
            let after = session.attempt("systemctl"@, seq!["disable"@, "--now"@, unit]).0.must(
                super::uninstall::STEP@,
                "rm"@,
                seq!["-f"@, join(unitdir, unit)],
            );
            &&& session.failure is Some ==> after == session
            &&& after.failure is None ==> session.failure is None && takes_away(
                left_by(s, session).files,
                left_by(s, after).files,
                seq![join(unitdir, unit)],
            )
        }),
{
    the_commands();
    untouched(s, session, "systemctl"@, seq!["disable"@, "--now"@, unit]);
    let told = session.attempt("systemctl"@, seq!["disable"@, "--now"@, unit]).0;
    let names = seq![join(unitdir, unit)];
    assert(seq!["-f"@] + names =~= seq!["-f"@, join(unitdir, unit)]);
    removed(s, told, super::uninstall::STEP@, "-f"@, names);
}

/// The files that removing an installation takes away.
pub open spec fn removed_files(env: ServiceEnv, purge: bool) -> Seq<Seq<char>> {
    let share = env.sharedir@;
    seq![
        join(env.unitdir@, "firecrab-net-helper.service"@),
        join(env.unitdir@, "firecrab-api.service"@),
        join(env.libdir@, "firecrab-api"@),
        join(env.libdir@, "firecrab-net-helper"@),
        join(env.bindir@, "firecrab"@),
        join(share, "dashboard"@),
        join(share, "licenses"@),
        join(share, "LICENSE"@),
        join(share, "THIRD_PARTY_NOTICES.txt"@),
        join(share, "release-license-inventory.json"@),
    ] + if purge {
        seq![env.datadir@, env.confdir@]
    } else {
        Seq::empty()
    }
}

/// Removing an installation takes away its units, its programs, the dashboard and the license
/// texts, and with a purge its data and configuration. It takes away nothing else, so without
/// a purge the data and the configuration stay as they are.
pub proof fn removing_takes_away_what_was_installed(
    s: Sys,
    session: Session,
    env: ServiceEnv,
    purge: bool,
    helper_present: bool,
)
    requires
        session.uninstall(env, purge, helper_present).failure is None,
    ensures
        takes_away(
            left_by(s, session).files,
            left_by(s, session.uninstall(env, purge, helper_present)).files,
            removed_files(env, purge),
        ),
{
    the_commands();
    let step = super::uninstall::STEP@;
    let names = units();
    let share = env.sharedir@;
    let helper = join(env.libdir@, "firecrab-net-helper"@);
    reveal_with_fuel(Session::remove_units, 4);
    assert(names.skip(1)[0] == names[1]);
    assert(names.skip(1).skip(1).len() == 0);
    unit_removed(s, session, env.unitdir@, names[0]);
    let a = session.attempt("systemctl"@, seq!["disable"@, "--now"@, names[0]]).0.must(
        step,
        "rm"@,
        seq!["-f"@, join(env.unitdir@, names[0])],
    );
    unit_removed(s, a, env.unitdir@, names[1]);
    let b = a.attempt("systemctl"@, seq!["disable"@, "--now"@, names[1]]).0.must(
        step,
        "rm"@,
        seq!["-f"@, join(env.unitdir@, names[1])],
    );
    assert(session.remove_units(env.unitdir@, names) == b);
    must_do(s, b, step, "systemctl"@, seq!["daemon-reload"@]);
    let c = b.must(step, "systemctl"@, seq!["daemon-reload"@]).log("units removed"@);
    reveal_strlit("firecrab-net-helper");
    assert(helper.len() >= 19);
    reveal_strlit("sudo");
    reveal_strlit("install");
    reveal_strlit("tee");
    reveal_strlit("chmod");
    reveal_strlit("chown");
    reveal_strlit("rm");
    assert("sudo"@.len() == 4 && "install"@.len() == 7 && "tee"@.len() == 3 && "chmod"@.len() == 5
        && "chown"@.len() == 5 && "rm"@.len() == 2);
    untouched(s, c, helper, seq!["--teardown"@]);
    let d = c.teardown(helper, helper_present);
    let x = seq![join(env.libdir@, "firecrab-api"@), helper, join(env.bindir@, "firecrab"@)];
    assert(seq!["-f"@] + x =~= seq![
        "-f"@,
        join(env.libdir@, "firecrab-api"@),
        helper,
        join(env.bindir@, "firecrab"@),
    ]);
    removed(s, d, step, "-f"@, x);
    let e = d.must(step, "rm"@, seq!["-f"@] + x);
    let y = seq![join(share, "dashboard"@), join(share, "licenses"@)];
    assert(seq!["-rf"@] + y =~= seq!["-rf"@, join(share, "dashboard"@), join(share, "licenses"@)]);
    removed(s, e, step, "-rf"@, y);
    let f = e.must(step, "rm"@, seq!["-rf"@] + y);
    let z = seq![
        join(share, "LICENSE"@),
        join(share, "THIRD_PARTY_NOTICES.txt"@),
        join(share, "release-license-inventory.json"@),
    ];
    assert(seq!["-f"@] + z =~= seq![
        "-f"@,
        join(share, "LICENSE"@),
        join(share, "THIRD_PARTY_NOTICES.txt"@),
        join(share, "release-license-inventory.json"@),
    ]);
    removed(s, f, step, "-f"@, z);
    let g = f.must(step, "rm"@, seq!["-f"@] + z);
    untouched(s, g, "rmdir"@, seq!["--ignore-fail-on-non-empty"@, env.libdir@, share]);
    let h = g.attempt("rmdir"@, seq!["--ignore-fail-on-non-empty"@, env.libdir@, share]).0;
    looked_for(s, h, "semanage"@);
    let i = h.have("semanage"@).0;
    untouched(
        s,
        i,
        "semanage"@,
        seq!["fcontext"@, "-d"@, super::selinux::label_pattern(env.libdir@)],
    );
    let j = h.unlabel_binaries(env.libdir@);
    let k = j.log("binaries and dashboard removed"@).warn(
        "purging "@ + env.datadir@ + " and "@ + env.confdir@
            + " (all VM disks and the database)"@,
    );
    let w = seq![env.datadir@, env.confdir@];
    assert(seq!["-rf"@] + w =~= seq!["-rf"@, env.datadir@, env.confdir@]);
    removed(s, k, step, "-rf"@, w);
    let first = left_by(s, session).files;
    let u = seq![join(env.unitdir@, names[0])];
    let v = seq![join(env.unitdir@, names[1])];
    away_in_turn(first, left_by(s, a).files, left_by(s, b).files, u, v);
    away_in_turn(first, left_by(s, d).files, left_by(s, e).files, u + v, x);
    away_in_turn(first, left_by(s, e).files, left_by(s, f).files, u + v + x, y);
    away_in_turn(first, left_by(s, f).files, left_by(s, g).files, u + v + x + y, z);
    let all = u + v + x + y + z;
    if purge {
        let end = k.must(step, "rm"@, seq!["-rf"@] + w);
        away_in_turn(first, left_by(s, k).files, left_by(s, end).files, all, w);
        assert(removed_files(env, true) =~= all + w);
    } else {
        assert(removed_files(env, false) =~= all);
    }
}

} // verus!
