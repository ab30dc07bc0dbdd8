//! The commands that the services run, and those that the installer itself needs.

use vstd::prelude::*;

use super::output::{step, warn};
use super::pkg::{Packages, PkgManager};
#[allow(unused_imports)]
use super::pkg::PackageRun;
#[allow(unused_imports)]
use super::privileged::Session;
use crate::shell::CommandRunner;
use crate::text::joined;
#[allow(unused_imports)]
use crate::text::{join, texts, views};

verus! {

/// What is missing and what was warned of. Nothing missing means success.
#[derive(Debug)]
pub struct DepsOutcome {
    /// The commands that are needed and could not be had.
    pub missing: Vec<String>,
    /// Warnings about what the services can do without.
    pub warnings: Vec<String>,
}

/// The commands that the network part of the services runs, each with the
/// generic name of what provides it.
pub open spec fn network_needs() -> Seq<(Seq<char>, Seq<char>)> {
    seq![("ip"@, "iproute2"@), ("nft"@, "nftables"@), ("dnsmasq"@, "dnsmasq"@)]
}

/// The commands for disks, downloads and archives, each with the generic name of
/// what provides it.
pub open spec fn archive_needs() -> Seq<(Seq<char>, Seq<char>)> {
    seq![
        ("mkfs.ext4"@, "e2fsprogs"@),
        ("curl"@, "curl"@),
        ("find"@, "findutils"@),
        ("tar"@, "tar"@),
        ("zstd"@, "zstd"@),
        ("sha256sum"@, "coreutils"@),
    ]
}

impl PackageRun {
    /// The same package manager in another run.
    pub open spec fn within(self, session: Session) -> PackageRun {
        PackageRun { session, ..self }
    }

    /// The packages that provide what `generic` stands for.
    pub open spec fn packages_for(self, generic: Seq<char>) -> Seq<Seq<char>> {
        match self.manager {
            Some(manager) => seq![manager.package(generic)],
            None => seq![generic],
        }
    }

    /// Makes sure that a command is there, and says whether it is in the end.
    /// Only what is missing is installed, and a command that is still missing
    /// after its package was installed counts as missing.
    pub open spec fn ensure(
        self,
        cmd: Seq<char>,
        generic: Seq<char>,
        install_deps: bool,
        check_only: bool,
    ) -> (PackageRun, bool) {
        let names = self.packages_for(generic);
        let list = join(names, " "@);
        let (session, found) = self.session.have(cmd);
        let looked = self.within(session);
        if found {
            (looked, true)
        } else if check_only {
            (
                looked.within(
                    session.warn("missing: "@ + cmd + " (would install: "@ + list + ")"@),
                ),
                false,
            )
        } else if !install_deps {
            (
                looked.within(
                    session.warn(
                        "missing: "@ + cmd + " (--no-deps, install '"@ + list + "' yourself)"@,
                    ),
                ),
                false,
            )
        } else if self.manager is None {
            (
                looked.within(
                    session.warn(
                        "missing: "@ + cmd + " and no known package manager — install '"@ + list
                            + "' yourself"@,
                    ),
                ),
                false,
            )
        } else {
            let tried = looked.within(
                session.step("installing "@ + list + " (for "@ + cmd + ")"@),
            ).install("deps"@, names);
            match tried.session.failure {
                Some(failure) => {
                    let after = tried.resumed();
                    (
                        after.within(
                            after.session.warn(
                                "failed to install "@ + list + ": "@ + failure.message(),
                            ),
                        ),
                        false,
                    )
                },
                None => {
                    let (session, found) = tried.session.have(cmd);
                    (tried.within(session), found)
                },
            }
        }
    }
}

/// [`ensure_runtime_deps`] under way, as contracts speak of it.
pub struct DepsRun {
    pub packages: PackageRun,
    pub missing: Seq<Seq<char>>,
    pub warnings: Seq<Seq<char>>,
}

impl DepsRun {
    /// Makes sure that each of the commands is there, in order; those that are
    /// not in the end are missing.
    pub open spec fn need(
        self,
        needs: Seq<(Seq<char>, Seq<char>)>,
        install_deps: bool,
        check_only: bool,
    ) -> DepsRun
        decreases needs.len(),
    {
        if needs.len() == 0 {
            self
        } else {
            let (packages, found) = self.packages.ensure(
                needs[0].0,
                needs[0].1,
                install_deps,
                check_only,
            );
            let missing = if found {
                self.missing
            } else {
                self.missing.push(needs[0].0)
            };
            DepsRun { packages, missing, ..self }.need(needs.skip(1), install_deps, check_only)
        }
    }

    /// Makes sure that a command is there, and warns where it is not in the end.
    pub open spec fn wish(
        self,
        cmd: Seq<char>,
        generic: Seq<char>,
        warning: Seq<char>,
        install_deps: bool,
        check_only: bool,
    ) -> DepsRun {
        let (packages, found) = self.packages.ensure(cmd, generic, install_deps, check_only);
        if found {
            DepsRun { packages, ..self }
        } else {
            DepsRun { packages, warnings: self.warnings.push(warning), ..self }
        }
    }

    /// `dhcp_release` frees leases when a VM stops; without it they expire on
    /// their own. dnf's distributions do not ship it at all.
    pub open spec fn dhcp_release(self, install_deps: bool, check_only: bool) -> DepsRun {
        let (session, found) = self.packages.session.have("dhcp_release"@);
        let looked = DepsRun { packages: self.packages.within(session), ..self };
        if found {
            looked
        } else if self.packages.manager == Some(PkgManager::Dnf) {
            DepsRun {
                warnings: self.warnings.push(
                    "dhcp_release is not available on this distribution; leases expire on their own"@,
                ),
                ..looked
            }
        } else {
            looked.wish(
                "dhcp_release"@,
                "dnsmasq-utils"@,
                "dhcp_release not found; install dnsmasq-utils to release leases on VM stop"@,
                install_deps,
                check_only,
            )
        }
    }

    /// Without `semanage` SELinux confines the services to a domain in which they
    /// can reach no registry.
    pub open spec fn semanage(self, install_deps: bool, check_only: bool) -> DepsRun {
        let (session, found) = self.packages.session.have("semanage"@);
        let looked = DepsRun { packages: self.packages.within(session), ..self };
        if found {
            looked
        } else {
            looked.wish(
                "semanage"@,
                "selinux-tools"@,
                "SELinux is on but semanage is missing; the services will be confined to init_t"@,
                install_deps,
                check_only,
            )
        }
    }

    /// Tells the operator each warning.
    pub open spec fn told(self) -> DepsRun {
        DepsRun { packages: self.packages.within(warn_all(self.packages.session, self.warnings)), ..self }
    }

    /// All that the services and the installer need.
    pub open spec fn runtime_deps(
        self,
        install_deps: bool,
        check_only: bool,
        selinux_on: bool,
    ) -> DepsRun {
        let after = self.need(network_needs(), install_deps, check_only).dhcp_release(
            install_deps,
            check_only,
        );
        let after = if selinux_on {
            after.semanage(install_deps, check_only)
        } else {
            after
        };
        after.need(archive_needs(), install_deps, check_only).told()
    }
}

/// The run after each warning was told.
pub open spec fn warn_all(session: Session, warnings: Seq<Seq<char>>) -> Session
    decreases warnings.len(),
{
    if warnings.len() == 0 {
        session
    } else {
        warn_all(session.warn(warnings[0]), warnings.skip(1))
    }
}

/// Makes sure that a command is there; where it is not in the end, it joins the
/// missing ones.
fn ensure<R: CommandRunner>(
    packages: &mut Packages<R>,
    outcome: &mut DepsOutcome,
    command_name: &str,
    generic: &str,
    install_deps: bool,
    check_only: bool,
) -> (r: bool)
    ensures
        (final(packages).state(), r) == old(packages).state().ensure(
            command_name@,
            generic@,
            install_deps,
            check_only,
        ),
        final(outcome).warnings == old(outcome).warnings,
        views(final(outcome).missing@) == if r {
            views(old(outcome).missing@)
        } else {
            views(old(outcome).missing@).push(command_name@)
        },
{
    if packages.have(command_name) {
        return true;
    }
    let manager = packages.manager();
    let names: Vec<&str> = match manager {
        Some(manager) => manager.packages_for(generic),
        None => {
            let names = vec![generic];
            assert(texts(names@) =~= seq![generic@]);
            names
        },
    };
    let list = joined(&names, " ");
    let found = if check_only {
        packages.say(
            warn(
                &"missing: ".to_owned().concat(command_name).concat(" (would install: ").concat(
                    &list,
                ).concat(")"),
            ),
        );
        false
    } else if !install_deps {
        packages.say(
            warn(
                &"missing: ".to_owned().concat(command_name).concat(" (--no-deps, install '").concat(
                    &list,
                ).concat("' yourself)"),
            ),
        );
        false
    } else if manager.is_none() {
        packages.say(
            warn(
                &"missing: ".to_owned().concat(command_name).concat(
                    " and no known package manager — install '",
                ).concat(&list).concat("' yourself"),
            ),
        );
        false
    } else {
        packages.say(
            step(
                &"installing ".to_owned().concat(&list).concat(" (for ").concat(
                    command_name,
                ).concat(")"),
            ),
        );
        match packages.install("deps", &names) {
            Err(err) => {
                packages.say(
                    warn(
                        &"failed to install ".to_owned().concat(&list).concat(": ").concat(
                            &err.message(),
                        ),
                    ),
                );
                false
            },
            Ok(()) => packages.have(command_name),
        }
    };
    if !found {
        outcome.missing.push(command_name.to_owned());
        assert(views(outcome.missing@) =~= views(old(outcome).missing@).push(command_name@));
    }
    found
}

impl<R: CommandRunner> Packages<R> {
    /// [`ensure_runtime_deps`] under way.
    pub open spec fn deps(&self, outcome: DepsOutcome) -> DepsRun {
        DepsRun {
            packages: self.state(),
            missing: views(outcome.missing@),
            warnings: views(outcome.warnings@),
        }
    }
}

/// Makes sure that each of `needs` is there, in order.
fn ensure_all<R: CommandRunner>(
    packages: &mut Packages<R>,
    outcome: &mut DepsOutcome,
    needs: &[(&str, &str)],
    install_deps: bool,
    check_only: bool,
)
    ensures
        final(packages).deps(*final(outcome)) == old(packages).deps(*old(outcome)).need(
            needs@.map_values(|n: (&str, &str)| (n.0@, n.1@)),
            install_deps,
            check_only,
        ),
{
    let ghost all = needs@.map_values(|n: (&str, &str)| (n.0@, n.1@));
    let mut i: usize = 0;
    assert(all.skip(0) =~= all);
    while i < needs.len()
        invariant
            i <= needs@.len(),
            all == needs@.map_values(|n: (&str, &str)| (n.0@, n.1@)),
            packages.deps(*outcome).need(all.skip(i as int), install_deps, check_only) == old(
                packages,
            ).deps(*old(outcome)).need(all, install_deps, check_only),
        decreases needs@.len() - i,
    {
        assert(all.skip(i as int)[0] == (needs@[i as int].0@, needs@[i as int].1@));
        assert(all.skip(i as int).skip(1) =~= all.skip(i + 1));
        ensure(packages, outcome, needs[i].0, needs[i].1, install_deps, check_only);
        i += 1;
    }
}

/// Makes sure that everything the services and the installer need is there, and
/// says what is missing in the end.
pub fn ensure_runtime_deps<R: CommandRunner>(
    packages: &mut Packages<R>,
    install_deps: bool,
    check_only: bool,
    selinux_on: bool,
) -> (r: DepsOutcome)
    ensures
        final(packages).deps(r) == (DepsRun {
            packages: old(packages).state(),
            missing: Seq::empty(),
            warnings: Seq::empty(),
        }).runtime_deps(install_deps, check_only, selinux_on),
{
    let mut outcome = DepsOutcome { missing: Vec::new(), warnings: Vec::new() };
    assert(views(outcome.missing@) =~= Seq::<Seq<char>>::empty());
    assert(views(outcome.warnings@) =~= Seq::<Seq<char>>::empty());
    let network = [("ip", "iproute2"), ("nft", "nftables"), ("dnsmasq", "dnsmasq")];
    assert(network@.map_values(|n: (&str, &str)| (n.0@, n.1@)) =~= network_needs());
    ensure_all(packages, &mut outcome, &network, install_deps, check_only);
    let ghost before = packages.deps(outcome);

    if !packages.have("dhcp_release") {
        let is_dnf = match packages.manager() {
            Some(manager) => manager == PkgManager::Dnf,
            None => false,
        };
        if is_dnf {
            outcome.warnings.push(
                "dhcp_release is not available on this distribution; leases expire on their own".to_owned(),
            );
        } else {
            let mut probe = DepsOutcome { missing: Vec::new(), warnings: Vec::new() };
            if !ensure(
                packages,
                &mut probe,
                "dhcp_release",
                "dnsmasq-utils",
                install_deps,
                check_only,
            ) {
                outcome.warnings.push(
                    "dhcp_release not found; install dnsmasq-utils to release leases on VM stop".to_owned(),
                );
            }
        }
    }
    proof {
        let want = before.dhcp_release(install_deps, check_only);
        assert(views(outcome.warnings@) =~= want.warnings);
    }
    let ghost before = packages.deps(outcome);
    if selinux_on && !packages.have("semanage") {
        let mut probe = DepsOutcome { missing: Vec::new(), warnings: Vec::new() };
        if !ensure(
            packages,
            &mut probe,
            "semanage",
            "selinux-tools",
            install_deps,
            check_only,
        ) {
            outcome.warnings.push(
                "SELinux is on but semanage is missing; the services will be confined to init_t".to_owned(),
            );
        }
    }
    proof {
        if selinux_on {
            let want = before.semanage(install_deps, check_only);
            assert(views(outcome.warnings@) =~= want.warnings);
        }
    }
    let archive = [
        ("mkfs.ext4", "e2fsprogs"),
        ("curl", "curl"),
        ("find", "findutils"),
        ("tar", "tar"),
        ("zstd", "zstd"),
        ("sha256sum", "coreutils"),
    ];
    assert(archive@.map_values(|n: (&str, &str)| (n.0@, n.1@)) =~= archive_needs());
    ensure_all(packages, &mut outcome, &archive, install_deps, check_only);
    let ghost before = packages.deps(outcome);

    let ghost warnings = views(outcome.warnings@);
    let mut i: usize = 0;
    assert(warnings.skip(0) =~= warnings);
    while i < outcome.warnings.len()
        invariant
            i <= outcome.warnings@.len(),
            warnings == views(outcome.warnings@),
            packages.state() == before.packages.within(packages.state().session),
            warn_all(packages.state().session, warnings.skip(i as int)) == warn_all(
                before.packages.session,
                warnings,
            ),
        decreases outcome.warnings@.len() - i,
    {
        assert(warnings.skip(i as int)[0] == outcome.warnings@[i as int]@);
        assert(warnings.skip(i as int).skip(1) =~= warnings.skip(i + 1));
        packages.say(warn(&outcome.warnings[i]));
        i += 1;
    }
    outcome
}

} // verus!
