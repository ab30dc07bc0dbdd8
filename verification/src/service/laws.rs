//! What holds of installing and removing as a whole.

use vstd::prelude::*;

#[allow(unused_imports)]
use super::deps::{archive_needs, network_needs, warn_all, DepsRun};
#[allow(unused_imports)]
use super::env::{units, ServiceEnv};
#[allow(unused_imports)]
use super::pkg::{PackageRun, PkgManager};
#[allow(unused_imports)]
use super::privileged::Session;

verus! {

/// Whether a run did no more than look, since another state of it: all that it ran was a
/// shell that looked for commands.
pub open spec fn looked(now: Session, before: Session) -> bool {
    &&& now.host.calls.len() >= before.host.calls.len()
    &&& forall|i: int|
        0 <= i < before.host.calls.len() ==> #[trigger] now.host.calls[i] == before.host.calls[i]
    &&& forall|i: int|
        before.host.calls.len() <= i < now.host.calls.len() ==> (#[trigger] now.host.calls[i]).cmd
            == "sh"@
}

proof fn looking_goes_on(a: Session, b: Session, c: Session)
    requires
        looked(b, a),
        looked(c, b),
    ensures
        looked(c, a),
{
    assert forall|i: int| 0 <= i < a.host.calls.len() implies #[trigger] c.host.calls[i]
        == a.host.calls[i] by {
        assert(b.host.calls[i] == a.host.calls[i]);
    }
    assert forall|i: int|
        a.host.calls.len() <= i < c.host.calls.len() implies (#[trigger] c.host.calls[i]).cmd
        == "sh"@ by {
        if i < b.host.calls.len() {
            assert(c.host.calls[i] == b.host.calls[i]);
        }
    }
}

proof fn ensure_looks(
    run: PackageRun,
    cmd: Seq<char>,
    generic: Seq<char>,
    install_deps: bool,
    check_only: bool,
)
    requires
        check_only || !install_deps,
    ensures
        looked(run.ensure(cmd, generic, install_deps, check_only).0.session, run.session),
{
}

proof fn need_looks(
    run: DepsRun,
    needs: Seq<(Seq<char>, Seq<char>)>,
    install_deps: bool,
    check_only: bool,
)
    requires
        check_only || !install_deps,
    ensures
        looked(
            run.need(needs, install_deps, check_only).packages.session,
            run.packages.session,
        ),
    decreases needs.len(),
{
    if needs.len() > 0 {
        let (packages, found) = run.packages.ensure(
            needs[0].0,
            needs[0].1,
            install_deps,
            check_only,
        );
        ensure_looks(run.packages, needs[0].0, needs[0].1, install_deps, check_only);
        let missing = if found {
            run.missing
        } else {
            run.missing.push(needs[0].0)
        };
        let next = DepsRun { packages, missing, ..run };
        need_looks(next, needs.skip(1), install_deps, check_only);
        looking_goes_on(
            run.packages.session,
            packages.session,
            next.need(needs.skip(1), install_deps, check_only).packages.session,
        );
    }
}

proof fn warnings_do_nothing(session: Session, warnings: Seq<Seq<char>>)
    ensures
        warn_all(session, warnings).host == session.host,
    decreases warnings.len(),
{
    if warnings.len() > 0 {
        warnings_do_nothing(session.warn(warnings[0]), warnings.skip(1));
    }
}

proof fn wishes_look(run: DepsRun, install_deps: bool, check_only: bool)
    requires
        check_only || !install_deps,
    ensures
        looked(
            run.dhcp_release(install_deps, check_only).packages.session,
            run.packages.session,
        ),
        looked(run.semanage(install_deps, check_only).packages.session, run.packages.session),
{
    let a = run.packages.within(run.packages.session.have("dhcp_release"@).0);
    ensure_looks(a, "dhcp_release"@, "dnsmasq-utils"@, install_deps, check_only);
    assert(looked(a.session, run.packages.session));
    looking_goes_on(
        run.packages.session,
        a.session,
        a.ensure("dhcp_release"@, "dnsmasq-utils"@, install_deps, check_only).0.session,
    );
    let b = run.packages.within(run.packages.session.have("semanage"@).0);
    ensure_looks(b, "semanage"@, "selinux-tools"@, install_deps, check_only);
    assert(looked(b.session, run.packages.session));
    looking_goes_on(
        run.packages.session,
        b.session,
        b.ensure("semanage"@, "selinux-tools"@, install_deps, check_only).0.session,
    );
}

/// A check, and a run without dependencies, install nothing: they only look.
pub proof fn a_check_installs_nothing(
    run: DepsRun,
    install_deps: bool,
    check_only: bool,
    selinux_on: bool,
)
    requires
        check_only || !install_deps,
    ensures
        looked(
            run.runtime_deps(install_deps, check_only, selinux_on).packages.session,
            run.packages.session,
        ),
{
    let a = run.need(network_needs(), install_deps, check_only);
    need_looks(run, network_needs(), install_deps, check_only);
    let b = a.dhcp_release(install_deps, check_only);
    wishes_look(a, install_deps, check_only);
    looking_goes_on(run.packages.session, a.packages.session, b.packages.session);
    let c = if selinux_on {
        b.semanage(install_deps, check_only)
    } else {
        b
    };
    wishes_look(b, install_deps, check_only);
    looking_goes_on(run.packages.session, b.packages.session, c.packages.session);
    let d = c.need(archive_needs(), install_deps, check_only);
    need_looks(c, archive_needs(), install_deps, check_only);
    looking_goes_on(run.packages.session, c.packages.session, d.packages.session);
    warnings_do_nothing(d.packages.session, d.warnings);
}

/// A command that is there is not installed: looking for it is all that is done.
pub proof fn a_present_command_is_not_installed(
    run: PackageRun,
    cmd: Seq<char>,
    generic: Seq<char>,
    install_deps: bool,
    check_only: bool,
)
    requires
        run.session.have(cmd).1,
    ensures
        run.ensure(cmd, generic, install_deps, check_only) == (
            run.within(run.session.have(cmd).0),
            true,
        ),
{
}

/// Where dnf is the package manager, nothing is installed for `dhcp_release`, which its
/// distributions lack: it is looked for once, and never counts as missing.
pub proof fn dnf_installs_nothing_for_dhcp_release(
    run: DepsRun,
    install_deps: bool,
    check_only: bool,
)
    requires
        run.packages.manager == Some(PkgManager::Dnf),
    ensures
        run.dhcp_release(install_deps, check_only).packages == run.packages.within(
            run.packages.session.have("dhcp_release"@).0,
        ),
        run.dhcp_release(install_deps, check_only).missing == run.missing,
{
}

/// The package index is refreshed once: after a refresh, another one does nothing.
pub proof fn the_index_is_refreshed_once(run: PackageRun, name: Seq<char>)
    ensures
        run.refresh(name).refresh(name) == run.refresh(name),
        run.session.failure is None ==> run.refresh(name).refreshed,
{
}

/// A run that has failed does nothing more to the host.
pub proof fn a_failed_run_does_nothing_more(
    session: Session,
    env: ServiceEnv,
    purge: bool,
    helper_present: bool,
    present: bool,
)
    requires
        session.failure is Some,
    ensures
        session.uninstall(env, purge, helper_present) == session,
        session.install_config(env, present) == session,
        session.ensure_directories(env) == session,
        session.label_binaries(env.libdir@) == session,
        session.stop() == session,
{
    let names = units();
    assert(names.skip(1).skip(1).len() == 0);
    assert(session.remove_units(env.unitdir@, names.skip(1).skip(1)) == session);
    assert(session.remove_units(env.unitdir@, names.skip(1)) == session);
    assert(session.remove_units(env.unitdir@, names) == session);
    reveal_strlit("active");
    assert(session.check_stopped(names.skip(1).skip(1)) == session);
    assert(session.check_stopped(names.skip(1)) == session);
    assert(session.check_stopped(names) == session);
}

/// Removing an installation without a purge leaves its data and its configuration alone:
/// whatever they are, the same is done to the host.
pub proof fn data_is_kept_without_a_purge(
    session: Session,
    env: ServiceEnv,
    other: ServiceEnv,
    helper_present: bool,
)
    requires
        env.unitdir@ == other.unitdir@,
        env.libdir@ == other.libdir@,
        env.bindir@ == other.bindir@,
        env.sharedir@ == other.sharedir@,
    ensures
        session.uninstall(env, false, helper_present).host == session.uninstall(
            other,
            false,
            helper_present,
        ).host,
        session.uninstall(env, false, helper_present).failure == session.uninstall(
            other,
            false,
            helper_present,
        ).failure,
{
}

/// A purge does what removing without one does, and then removes data and configuration.
pub proof fn a_purge_removes_the_data_last(
    session: Session,
    env: ServiceEnv,
    helper_present: bool,
)
    requires
        session.uninstall(env, true, helper_present).failure is None,
    ensures
        session.uninstall(env, true, helper_present).host.calls == session.uninstall(
            env,
            false,
            helper_present,
        ).host.calls.push(
            session.argv("rm"@, seq!["-rf"@, env.datadir@, env.confdir@], None),
        ),
{
    removal_keeps_sudo(session, env, false, helper_present);
    removal_keeps_sudo(session, env, true, helper_present);
}

proof fn units_keep_sudo(session: Session, unitdir: Seq<char>, names: Seq<Seq<char>>)
    ensures
        session.remove_units(unitdir, names).sudo == session.sudo,
    decreases names.len(),
{
    if names.len() > 0 {
        let next = session.attempt("systemctl"@, seq!["disable"@, "--now"@, names[0]]).0.must(
            super::uninstall::STEP@,
            "rm"@,
            seq!["-f"@, crate::path::join(unitdir, names[0])],
        );
        units_keep_sudo(next, unitdir, names.skip(1));
    }
}

proof fn removal_keeps_sudo(session: Session, env: ServiceEnv, purge: bool, helper_present: bool)
    ensures
        session.uninstall(env, purge, helper_present).sudo == session.sudo,
{
    units_keep_sudo(session, env.unitdir@, units());
}

/// Networks that could not be torn down, and labels that could not be set or removed, are
/// warned of, and end nothing.
pub proof fn lesser_troubles_end_nothing(
    session: Session,
    helper: Seq<char>,
    present: bool,
    libdir: Seq<char>,
)
    ensures
        session.teardown(helper, present).failure == session.failure,
        session.label_binaries(libdir).failure == session.failure,
        session.unlabel_binaries(libdir).failure == session.failure,
{
}

/// A configuration that is there is kept: nothing is done to the host.
pub proof fn a_present_configuration_is_kept(session: Session, env: ServiceEnv)
    ensures
        session.install_config(env, true).host == session.host,
        session.install_config(env, true).failure == session.failure,
{
}

} // verus!
