//! What holds of the tools that the services run.

use vstd::prelude::*;

#[allow(unused_imports)]
use super::access::asks_last;
#[allow(unused_imports)]
use super::deps::{archive_needs, network_needs, warn_all, DepsRun};
#[allow(unused_imports)]
use super::pkg::{PackageRun, PkgManager};
#[allow(unused_imports)]
use super::privileged::Session;
#[allow(unused_imports)]
use super::promises::succeeded_with;
#[allow(unused_imports)]
use super::Failure;
#[allow(unused_imports)]
use crate::shell::{Call, Host, Reply};

verus! {

/// The call that looks for a command.
pub open spec fn look_for(cmd: Seq<char>) -> Call {
    Call { cmd: "sh"@, args: seq!["-c"@, "command -v "@ + cmd], stdin: None }
}

/// Whether a run is an earlier one that went on.
pub open spec fn goes_on(before: Session, after: Session) -> bool {
    &&& after.host.world == before.host.world
    &&& after.sudo == before.sudo
    &&& before.host.calls.len() <= after.host.calls.len()
    &&& after.host.calls.take(before.host.calls.len() as int) == before.host.calls
}

proof fn on_and_on(a: Session, b: Session, c: Session)
    requires
        goes_on(a, b),
        goes_on(b, c),
    ensures
        goes_on(a, c),
{
    let n = a.host.calls.len() as int;
    assert(c.host.calls.take(n) =~= b.host.calls.take(n)) by {
        assert forall|i: int| 0 <= i < n implies c.host.calls.take(n)[i] == b.host.calls.take(
            n,
        )[i] by {
            assert(c.host.calls.take(b.host.calls.len() as int)[i] == b.host.calls[i]);
        }
    }
}

proof fn a_find_stays(before: Session, after: Session, call: Call)
    requires
        succeeded_with(before, call),
        goes_on(before, after),
    ensures
        succeeded_with(after, call),
{
    let n = choose|n: int|
        0 < n <= before.host.calls.len() && before.host.calls[n - 1] == call && (
        before.host.world)(#[trigger] before.host.calls.take(n)).succeeded();
    let len = before.host.calls.len() as int;
    assert(after.host.calls.take(n) =~= before.host.calls.take(n)) by {
        assert forall|i: int| 0 <= i < n implies after.host.calls.take(n)[i]
            == before.host.calls.take(n)[i] by {
            assert(after.host.calls.take(len)[i] == before.host.calls[i]);
        }
    }
    assert(after.host.calls[n - 1] == after.host.calls.take(len)[n - 1]);
}

proof fn looking_goes_on(session: Session, cmd: Seq<char>)
    ensures
        goes_on(session, session.have(cmd).0),
        session.have(cmd).0.failure == session.failure,
        session.have(cmd).1 ==> succeeded_with(session.have(cmd).0, look_for(cmd)),
        session.failure is None ==> {
            let calls = session.have(cmd).0.host.calls;
            &&& asks_last(calls, "sh"@, seq!["-c"@, "command -v "@ + cmd])
            &&& session.have(cmd).1 == (session.host.world)(calls).succeeded()
        },
{
    let after = session.have(cmd).0;
    let n = session.host.calls.len() as int;
    assert(after.host.calls.take(n) =~= session.host.calls);
    if session.have(cmd).1 {
        assert(after.host.calls.take(n + 1) =~= after.host.calls);
        assert(after.host.calls[n] == look_for(cmd));
    }
}

proof fn a_command_goes_on(session: Session, name: Seq<char>, cmd: Seq<char>, args: Seq<Seq<char>>)
    ensures
        goes_on(session, session.must(name, cmd, args)),
{
    let after = session.must(name, cmd, args);
    let n = session.host.calls.len() as int;
    assert(after.host.calls.take(n) =~= session.host.calls);
}

proof fn one_try_goes_on(run: PackageRun, name: Seq<char>, packages: Seq<Seq<char>>)
    ensures
        goes_on(run.session, run.install_once(name, packages).session),
        goes_on(run.session, run.refresh(name).session),
{
    let s = run.session;
    let n = s.host.calls.len() as int;
    assert(s.host.calls.take(n) =~= s.host.calls);
    let quiet = seq![("DEBIAN_FRONTEND"@, "noninteractive"@)];
    let front = quiet.map_values(|e: (Seq<char>, Seq<char>)| e.0 + "="@ + e.1);
    a_command_goes_on(
        s,
        name,
        "env"@,
        front + seq!["apt-get"@] + (seq!["install"@, "-y"@, "-qq"@] + packages),
    );
    a_command_goes_on(s, name, "env"@, front + seq!["apt-get"@] + seq!["update"@, "-qq"@]);
    a_command_goes_on(s, name, "apk"@, seq!["update"@, "-q"@]);
    a_command_goes_on(s, name, "dnf"@, seq!["install"@, "-y"@, "-q"@] + packages);
    a_command_goes_on(s, name, "zypper"@, seq!["--non-interactive"@, "install"@, "-y"@] + packages);
    a_command_goes_on(s, name, "pacman"@, seq!["-Sy"@, "--noconfirm"@, "--needed"@] + packages);
    a_command_goes_on(s, name, "apk"@, seq!["add"@, "--no-cache"@] + packages);
}

proof fn installing_goes_on(run: PackageRun, name: Seq<char>, packages: Seq<Seq<char>>)
    ensures
        goes_on(run.session, run.install(name, packages).session),
{
    let s = run.session;
    assert(s.host.calls.take(s.host.calls.len() as int) =~= s.host.calls);
    one_try_goes_on(run, name, packages);
    if s.failure is None && run.manager is Some {
        let ready = run.refresh(name);
        one_try_goes_on(ready, name, packages);
        let tried = ready.install_once(name, packages);
        on_and_on(s, ready.session, tried.session);
        let again = tried.resumed();
        let warned = PackageRun {
            session: again.session.warn("package install failed; retrying once"@),
            ..again
        };
        let t = tried.session;
        assert(t.host.calls.take(t.host.calls.len() as int) =~= t.host.calls);
        one_try_goes_on(warned, name, packages);
        on_and_on(s, t, warned.session);
        on_and_on(s, warned.session, warned.install_once(name, packages).session);
    }
}

proof fn ensuring_goes_on(
    run: PackageRun,
    cmd: Seq<char>,
    generic: Seq<char>,
    install_deps: bool,
    check_only: bool,
)
    requires
        run.session.failure is None,
    ensures
        ({
            let (after, found) = run.ensure(cmd, generic, install_deps, check_only);
            &&& goes_on(run.session, after.session)
            &&& after.session.failure is None
            &&& found ==> succeeded_with(after.session, look_for(cmd))
            &&& run.session.have(cmd).1 ==> found && after.session == run.session.have(cmd).0
        }),
{
    looking_goes_on(run.session, cmd);
    let (session, found) = run.session.have(cmd);
    if !found && !check_only && install_deps && run.manager is Some {
        let names = run.packages_for(generic);
        let list = crate::text::join(names, " "@);
        let looked = run.within(session);
        let told = looked.within(session.step("installing "@ + list + " (for "@ + cmd + ")"@));
        assert(goes_on(session, told.session)) by {
            assert(session.host.calls.take(session.host.calls.len() as int) =~= session.host.calls);
        }
        installing_goes_on(told, "deps"@, names);
        let tried = told.install("deps"@, names);
        on_and_on(run.session, session, told.session);
        on_and_on(run.session, told.session, tried.session);
        if tried.session.failure is None {
            looking_goes_on(tried.session, cmd);
            on_and_on(run.session, tried.session, tried.session.have(cmd).0);
        }
    }
}

/// Whether a command was found, or is told as missing.
pub open spec fn settled(run: DepsRun, cmd: Seq<char>) -> bool {
    run.missing.contains(cmd) || succeeded_with(run.packages.session, look_for(cmd))
}

/// Whether a run that looks for tools is an earlier one that went on.
pub open spec fn follows(before: DepsRun, after: DepsRun) -> bool {
    &&& goes_on(before.packages.session, after.packages.session)
    &&& after.packages.session.failure is None
    &&& before.missing.len() <= after.missing.len()
    &&& after.missing.take(before.missing.len() as int) == before.missing
}

proof fn what_is_settled_stays(before: DepsRun, after: DepsRun, cmd: Seq<char>)
    requires
        settled(before, cmd),
        follows(before, after),
    ensures
        settled(after, cmd),
{
    if before.missing.contains(cmd) {
        let i = choose|i: int| 0 <= i < before.missing.len() && before.missing[i] == cmd;
        assert(after.missing.take(before.missing.len() as int)[i] == after.missing[i]);
    } else {
        a_find_stays(before.packages.session, after.packages.session, look_for(cmd));
    }
}

proof fn one_follows_another(a: DepsRun, b: DepsRun, c: DepsRun)
    requires
        follows(a, b),
        follows(b, c),
    ensures
        follows(a, c),
{
    on_and_on(a.packages.session, b.packages.session, c.packages.session);
    let n = a.missing.len() as int;
    assert(c.missing.take(n) =~= a.missing) by {
        assert forall|i: int| 0 <= i < n implies c.missing.take(n)[i] == a.missing[i] by {
            assert(b.missing.take(n)[i] == a.missing[i]);
            assert(c.missing.take(b.missing.len() as int)[i] == b.missing[i]);
        }
    }
}

/// Whether a host always answers that a command is there.
pub open spec fn always_has(world: spec_fn(Seq<Call>) -> Reply, cmd: Seq<char>) -> bool {
    forall|calls: Seq<Call>|
        asks_last(calls, "sh"@, seq!["-c"@, "command -v "@ + cmd]) ==> #[trigger] world(
            calls,
        ).succeeded()
}

proof fn needs_are_settled(
    run: DepsRun,
    needs: Seq<(Seq<char>, Seq<char>)>,
    install_deps: bool,
    check_only: bool,
)
    requires
        run.packages.session.failure is None,
    ensures
        ({
            let after = run.need(needs, install_deps, check_only);
            &&& follows(run, after)
            &&& forall|i: int| 0 <= i < needs.len() ==> settled(after, (#[trigger] needs[i]).0)
            &&& (forall|i: int|
                0 <= i < needs.len() ==> always_has(
                    run.packages.session.host.world,
                    (#[trigger] needs[i]).0,
                )) ==> after.missing == run.missing
            &&& after.warnings == run.warnings
        }),
    decreases needs.len(),
{
    let s = run.packages.session;
    assert(s.host.calls.take(s.host.calls.len() as int) =~= s.host.calls);
    assert(run.missing.take(run.missing.len() as int) =~= run.missing);
    if needs.len() > 0 {
        let (packages, found) = run.packages.ensure(
            needs[0].0,
            needs[0].1,
            install_deps,
            check_only,
        );
        ensuring_goes_on(run.packages, needs[0].0, needs[0].1, install_deps, check_only);
        looking_goes_on(s, needs[0].0);
        let missing = if found {
            run.missing
        } else {
            run.missing.push(needs[0].0)
        };
        let next = DepsRun { packages, missing, ..run };
        assert(next.missing.take(run.missing.len() as int) =~= run.missing);
        assert(follows(run, next));
        assert(settled(next, needs[0].0)) by {
            if !found {
                assert(missing[run.missing.len() as int] == needs[0].0);
            }
        }
        needs_are_settled(next, needs.skip(1), install_deps, check_only);
        let after = next.need(needs.skip(1), install_deps, check_only);
        one_follows_another(run, next, after);
        what_is_settled_stays(next, after, needs[0].0);
        assert forall|i: int| 0 <= i < needs.len() implies settled(after, (#[trigger] needs[i]).0) by {
            if i > 0 {
                assert(needs.skip(1)[i - 1] == needs[i]);
            }
        }
        if forall|i: int|
            0 <= i < needs.len() ==> always_has(s.host.world, (#[trigger] needs[i]).0) {
            assert(always_has(s.host.world, needs[0].0));
            assert(found);
            assert forall|i: int| 0 <= i < needs.skip(1).len() implies always_has(
                next.packages.session.host.world,
                (#[trigger] needs.skip(1)[i]).0,
            ) by {
                assert(needs.skip(1)[i] == needs[i + 1]);
            }
        }
    }
}

proof fn wishes_go_on(run: DepsRun, install_deps: bool, check_only: bool)
    requires
        run.packages.session.failure is None,
    ensures
        follows(run, run.dhcp_release(install_deps, check_only)),
        follows(run, run.semanage(install_deps, check_only)),
        run.dhcp_release(install_deps, check_only).missing == run.missing,
        run.semanage(install_deps, check_only).missing == run.missing,
{
    assert(run.missing.take(run.missing.len() as int) =~= run.missing);
    let s = run.packages.session;
    looking_goes_on(s, "dhcp_release"@);
    looking_goes_on(s, "semanage"@);
    let a = run.packages.within(s.have("dhcp_release"@).0);
    ensuring_goes_on(a, "dhcp_release"@, "dnsmasq-utils"@, install_deps, check_only);
    let end_a = a.ensure("dhcp_release"@, "dnsmasq-utils"@, install_deps, check_only).0;
    on_and_on(s, a.session, end_a.session);
    let b = run.packages.within(s.have("semanage"@).0);
    ensuring_goes_on(b, "semanage"@, "selinux-tools"@, install_deps, check_only);
    let end_b = b.ensure("semanage"@, "selinux-tools"@, install_deps, check_only).0;
    on_and_on(s, b.session, end_b.session);
}

proof fn telling_goes_on(session: Session, warnings: Seq<Seq<char>>)
    ensures
        warn_all(session, warnings).host == session.host,
        warn_all(session, warnings).failure == session.failure,
        warn_all(session, warnings).sudo == session.sudo,
    decreases warnings.len(),
{
    if warnings.len() > 0 {
        telling_goes_on(session.warn(warnings[0]), warnings.skip(1));
    }
}

/// The tools that the services cannot do without.
pub open spec fn tools() -> Seq<Seq<char>> {
    seq![
        "ip"@,
        "nft"@,
        "dnsmasq"@,
        "mkfs.ext4"@,
        "curl"@,
        "find"@,
        "tar"@,
        "zstd"@,
        "sha256sum"@,
    ]
}

/// Once the tools were made sure of, each was found on the host or is told as missing; and
/// where the host has them all, none is missing.
pub proof fn every_tool_is_there_or_missing(
    run: DepsRun,
    install_deps: bool,
    check_only: bool,
    selinux_on: bool,
)
    requires
        run.packages.session.failure is None,
    ensures
        ({
            let after = run.runtime_deps(install_deps, check_only, selinux_on);
            &&& after.packages.session.failure is None
            &&& forall|i: int| 0 <= i < tools().len() ==> settled(after, #[trigger] tools()[i])
            &&& (forall|i: int|
                0 <= i < tools().len() ==> always_has(
                    run.packages.session.host.world,
                    #[trigger] tools()[i],
                )) ==> after.missing == run.missing
        }),
{
    let net = network_needs();
    let arc = archive_needs();
    needs_are_settled(run, net, install_deps, check_only);
    let a = run.need(net, install_deps, check_only);
    wishes_go_on(a, install_deps, check_only);
    let b = a.dhcp_release(install_deps, check_only);
    wishes_go_on(b, install_deps, check_only);
    let c = if selinux_on {
        b.semanage(install_deps, check_only)
    } else {
        b
    };
    assert(follows(b, b)) by {
        let s = b.packages.session;
        assert(s.host.calls.take(s.host.calls.len() as int) =~= s.host.calls);
        assert(b.missing.take(b.missing.len() as int) =~= b.missing);
    }
    one_follows_another(run, a, b);
    one_follows_another(a, b, c);
    needs_are_settled(c, arc, install_deps, check_only);
    let d = c.need(arc, install_deps, check_only);
    one_follows_another(a, c, d);
    telling_goes_on(d.packages.session, d.warnings);
    let end = d.told();
    assert forall|i: int| 0 <= i < tools().len() implies settled(end, #[trigger] tools()[i]) by {
        if i < 3 {
            assert(tools()[i] == net[i].0);
            what_is_settled_stays(a, d, net[i].0);
        } else {
            assert(tools()[i] == arc[i - 3].0);
        }
        if !d.missing.contains(tools()[i]) {
            let call = look_for(tools()[i]);
            let s = d.packages.session;
            let n = choose|n: int|
                0 < n <= s.host.calls.len() && s.host.calls[n - 1] == call && (s.host.world)(
                    #[trigger] s.host.calls.take(n),
                ).succeeded();
            assert(end.packages.session.host.calls.take(n) == s.host.calls.take(n));
        }
    }
    let world = run.packages.session.host.world;
    if forall|i: int| 0 <= i < tools().len() ==> always_has(world, #[trigger] tools()[i]) {
        assert forall|i: int| 0 <= i < net.len() implies always_has(world, (#[trigger] net[i]).0) by {
            assert(tools()[i] == net[i].0);
        }
        assert forall|i: int| 0 <= i < arc.len() implies always_has(world, (#[trigger] arc[i]).0) by {
            assert(tools()[i + 3] == arc[i].0);
        }
    }
}

/// The package that holds a tool, by the package manager of the distribution.
pub open spec fn package_of(tool: int, manager: PkgManager) -> Seq<char> {
    if tool == 0 {
        if manager is Dnf {
            "iproute"@
        } else {
            "iproute2"@
        }
    } else if tool == 1 {
        "nftables"@
    } else if tool == 2 {
        "dnsmasq"@
    } else if tool == 3 {
        if manager is Apk {
            "e2fsprogs-extra"@
        } else {
            "e2fsprogs"@
        }
    } else if tool == 4 {
        "curl"@
    } else if tool == 5 {
        "findutils"@
    } else if tool == 6 {
        "tar"@
    } else if tool == 7 {
        "zstd"@
    } else {
        "coreutils"@
    }
}

proof fn generic_names()
    ensures
        "iproute2"@.len() == 8 && "nftables"@.len() == 8 && "dnsmasq"@.len() == 7,
        "e2fsprogs"@.len() == 9 && "curl"@.len() == 4 && "findutils"@.len() == 9,
        "tar"@.len() == 3 && "zstd"@.len() == 4 && "coreutils"@.len() == 9,
        "dnsmasq-utils"@.len() == 13 && "xz"@.len() == 2 && "selinux-tools"@.len() == 13,
        "iproute2"@[0] != "nftables"@[0],
        "e2fsprogs"@[0] != "findutils"@[0] && "e2fsprogs"@[0] != "coreutils"@[0],
        "dnsmasq-utils"@[0] != "selinux-tools"@[0],
{
    reveal_strlit("iproute2");
    reveal_strlit("nftables");
    reveal_strlit("dnsmasq");
    reveal_strlit("e2fsprogs");
    reveal_strlit("curl");
    reveal_strlit("findutils");
    reveal_strlit("tar");
    reveal_strlit("zstd");
    reveal_strlit("coreutils");
    reveal_strlit("dnsmasq-utils");
    reveal_strlit("xz");
    reveal_strlit("selinux-tools");
}

/// A tool is installed by the package that holds it on the distribution at hand.
pub proof fn a_tool_comes_in_its_package(run: PackageRun, manager: PkgManager)
    requires
        run.manager == Some(manager),
    ensures
        forall|i: int|
            0 <= i < 3 ==> run.packages_for((#[trigger] network_needs()[i]).1) == seq![
                package_of(i, manager),
            ],
        forall|i: int|
            0 <= i < 6 ==> run.packages_for((#[trigger] archive_needs()[i]).1) == seq![
                package_of(i + 3, manager),
            ],
        run.packages_for("selinux-tools"@) == seq![
            if manager is Pacman || manager is Apk {
                "policycoreutils"@
            } else {
                "policycoreutils-python-utils"@
            },
        ],
        !(manager is Dnf) ==> run.packages_for("dnsmasq-utils"@) == seq!["dnsmasq-utils"@],
{
    generic_names();
    assert forall|i: int| 0 <= i < 3 implies run.packages_for((#[trigger] network_needs()[i]).1)
        == seq![package_of(i, manager)] by {
        assert(i == 0 || i == 1 || i == 2);
    }
    assert forall|i: int| 0 <= i < 6 implies run.packages_for((#[trigger] archive_needs()[i]).1)
        == seq![package_of(i + 3, manager)] by {
        assert(i == 0 || i == 1 || i == 2 || i == 3 || i == 4 || i == 5);
    }
}

/// A run with `sudo` goes on exactly where `sudo` answers without a password, or the operator
/// has a terminal and enters the right one. A run without `sudo` asks for nothing.
pub proof fn a_run_goes_on_with_its_ticket(session: Session, has_tty: bool, validated: bool)
    requires
        session.failure is None,
    ensures
        !session.sudo ==> session.ensure_ticket(has_tty, validated) == session,
        session.sudo ==> {
            let asked = session.host.calls.push(
                Call { cmd: "sudo"@, args: seq!["-n"@, "true"@], stdin: None },
            );
            let reply = (session.host.world)(asked);
            let after = session.ensure_ticket(has_tty, validated);
            &&& after.host.calls == asked
            &&& after.failure is None <==> reply.succeeded() || (reply is Done && has_tty
                && validated)
            &&& after.failure is Some ==> after.failure->0 is Sudo
            &&& reply.succeeded() ==> after.notes == session.notes
        },
{
}

/// Before packages are installed for the first time, the index that would be out of date is
/// brought up to date, where installing does not do so itself.
pub proof fn an_index_is_fresh_before_installing(
    run: PackageRun,
    name: Seq<char>,
    packages: Seq<Seq<char>>,
)
    requires
        !run.refreshed,
        run.session.failure is None,
        run.install(name, packages).session.failure is None,
    ensures
        run.manager == Some(PkgManager::AptGet) ==> succeeded_with(
            run.install(name, packages).session,
            run.session.argv(
                "env"@,
                seq!["DEBIAN_FRONTEND=noninteractive"@, "apt-get"@, "update"@, "-qq"@],
                None,
            ),
        ),
        run.manager == Some(PkgManager::Apk) ==> succeeded_with(
            run.install(name, packages).session,
            run.session.argv("apk"@, seq!["update"@, "-q"@], None),
        ),
{
    let ready = run.refresh(name);
    let end = run.install(name, packages);
    if run.manager == Some(PkgManager::AptGet) || run.manager == Some(PkgManager::Apk) {
        let s = ready.session;
        let quiet = seq![("DEBIAN_FRONTEND"@, "noninteractive"@)];
        let front = quiet.map_values(|e: (Seq<char>, Seq<char>)| e.0 + "="@ + e.1);
        let update = seq!["DEBIAN_FRONTEND=noninteractive"@, "apt-get"@, "update"@, "-qq"@];
        assert(front + seq!["apt-get"@] + seq!["update"@, "-qq"@] =~= update) by {
            reveal_strlit("DEBIAN_FRONTEND");
            reveal_strlit("=");
            reveal_strlit("noninteractive");
            reveal_strlit("DEBIAN_FRONTEND=noninteractive");
            assert(front[0] =~= "DEBIAN_FRONTEND=noninteractive"@);
        }
        let call = if run.manager == Some(PkgManager::AptGet) {
            run.session.argv("env"@, update, None)
        } else {
            run.session.argv("apk"@, seq!["update"@, "-q"@], None)
        };
        let tried = ready.install_once(name, packages);
        one_try_goes_on(ready, name, packages);
        assert(s.failure is None);
        let n = s.host.calls.len() as int;
        assert(s.host.calls.take(n) =~= s.host.calls);
        assert(s.host.calls[n - 1] == call);
        assert(succeeded_with(s, call));
        if tried.session.failure is Some {
            let again = tried.resumed();
            let warned = PackageRun {
                session: again.session.warn("package install failed; retrying once"@),
                ..again
            };
            let t = tried.session;
            assert(t.host.calls.take(t.host.calls.len() as int) =~= t.host.calls);
            one_try_goes_on(warned, name, packages);
            on_and_on(s, t, warned.session);
            on_and_on(s, warned.session, end.session);
        }
        a_find_stays(s, end.session, call);
    }
}

} // verus!
