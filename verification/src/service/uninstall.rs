//! Removing what an installation made. Data and configuration stay unless they
//! are to be purged.

use vstd::prelude::*;

use super::env::{ServiceEnv, UNITS};
#[allow(unused_imports)]
use super::env::units;
use super::output::{log, warn};
use super::privileged::Privileged;
#[allow(unused_imports)]
use super::privileged::Session;
use super::selinux::unlabel_binaries;
use super::Error;
#[allow(unused_imports)]
use crate::files::{agrees, answers};
use crate::path::joined;
#[allow(unused_imports)]
use crate::path::join;
use crate::shell::CommandRunner;
#[allow(unused_imports)]
use crate::text::texts;

verus! {

pub const STEP: &'static str = "uninstall";

impl Session {
    /// Disables the units named and removes their files. A unit that is not there
    /// cannot be disabled, so that may fail.
    pub open spec fn remove_units(self, unitdir: Seq<char>, names: Seq<Seq<char>>) -> Session
        decreases names.len(),
    {
        if names.len() == 0 {
            self
        } else {
            self.attempt("systemctl"@, seq!["disable"@, "--now"@, names[0]]).0.must(
                STEP@,
                "rm"@,
                seq!["-f"@, join(unitdir, names[0])],
            ).remove_units(unitdir, names.skip(1))
        }
    }

    /// Tears down the networks that the helper made, which outlive it, while its
    /// program is still there.
    pub open spec fn teardown(self, helper: Seq<char>, present: bool) -> Session {
        if !present {
            self
        } else {
            let (after, reply) = self.attempt(helper, seq!["--teardown"@]);
            if reply.succeeded() {
                after
            } else {
                after.warn(
                    "network teardown failed — bridges/nftables tables may remain until reboot"@,
                )
            }
        }
    }

    /// Removes an installation; `helper_present` says whether the network helper's
    /// program is there.
    pub open spec fn uninstall(self, env: ServiceEnv, purge: bool, helper_present: bool) -> Session {
        let helper = join(env.libdir@, "firecrab-net-helper"@);
        let share = env.sharedir@;
        let after = self.remove_units(env.unitdir@, units()).must(
            STEP@,
            "systemctl"@,
            seq!["daemon-reload"@],
        ).log("units removed"@).teardown(helper, helper_present).must(
            STEP@,
            "rm"@,
            seq![
                "-f"@,
                join(env.libdir@, "firecrab-api"@),
                helper,
                join(env.bindir@, "firecrab"@),
            ],
        ).must(
            STEP@,
            "rm"@,
            seq!["-rf"@, join(share, "dashboard"@), join(share, "licenses"@)],
        ).must(
            STEP@,
            "rm"@,
            seq![
                "-f"@,
                join(share, "LICENSE"@),
                join(share, "THIRD_PARTY_NOTICES.txt"@),
                join(share, "release-license-inventory.json"@),
            ],
        ).attempt(
            "rmdir"@,
            seq!["--ignore-fail-on-non-empty"@, env.libdir@, share],
        ).0.unlabel_binaries(env.libdir@).log("binaries and dashboard removed"@);
        if purge {
            after.warn(
                "purging "@ + env.datadir@ + " and "@ + env.confdir@
                    + " (all VM disks and the database)"@,
            ).must(STEP@, "rm"@, seq!["-rf"@, env.datadir@, env.confdir@])
        } else {
            after.log(
                "kept "@ + env.datadir@ + " and "@ + env.confdir@
                    + " — pass --purge to delete them too"@,
            )
        }
    }
}

/// Removes the units, the programs and the dashboard, and with `purge` the data
/// and the configuration too. The account stays, since kept data belongs to it.
pub fn uninstall<R: CommandRunner, F: Fn(&str) -> bool>(
    privileged: &mut Privileged<R>,
    env: &ServiceEnv,
    purge: bool,
    is_file: &F,
) -> (r: Result<(), Error>)
    requires
        answers(*is_file),
    ensures
        forall|files: spec_fn(Seq<char>) -> bool| #[trigger]
            agrees(*is_file, files) ==> final(privileged).ended(r) == old(
                privileged,
            ).session().uninstall(
                *env,
                purge,
                files(join(env.libdir@, "firecrab-net-helper"@)),
            ),
{
    let ghost names = units();
    let mut i: usize = 0;
    assert(names.skip(0) =~= names);
    while i < 2
        invariant
            i <= 2,
            names == units(),
            privileged.session().remove_units(env.unitdir@, names.skip(i as int)) == old(
                privileged,
            ).session().remove_units(env.unitdir@, names),
        decreases 2 - i,
    {
        let unit = UNITS[i];
        assert(names.skip(i as int)[0] == unit@);
        assert(names.skip(i as int).skip(1) =~= names.skip(i + 1));
        let disable = ["disable", "--now", unit];
        assert(texts(disable@) =~= seq!["disable"@, "--now"@, unit@]);
        let _ = privileged.run("systemctl", &disable);
        let path = env.unit_path(unit);
        let remove = ["-f", path.as_str()];
        assert(texts(remove@) =~= seq!["-f"@, path@]);
        match privileged.run_ok(STEP, "rm", &remove) {
            Ok(_) => {},
            Err(e) => {
                proof {
                    failed_removal_ends(
                        privileged.ended(Err::<(), Error>(e)),
                        env.unitdir@,
                        names.skip(i + 1),
                    );
                }
                return Err(e);
            },
        }
        i += 1;
    }
    let reload = ["daemon-reload"];
    assert(texts(reload@) =~= seq!["daemon-reload"@]);
    match privileged.run_ok(STEP, "systemctl", &reload) {
        Ok(_) => {},
        Err(e) => {
            return Err(e);
        },
    }
    privileged.say(log("units removed"));

    let helper = joined(&env.libdir, "firecrab-net-helper");
    if is_file(&helper) {
        let args = ["--teardown"];
        assert(texts(args@) =~= seq!["--teardown"@]);
        let torn_down = match privileged.run(&helper, &args) {
            Ok(out) => out.status.success(),
            Err(_) => false,
        };
        if !torn_down {
            privileged.say(
                warn("network teardown failed — bridges/nftables tables may remain until reboot"),
            );
        }
    }
    let api = joined(&env.libdir, "firecrab-api");
    let cli = joined(&env.bindir, "firecrab");
    let programs = ["-f", api.as_str(), helper.as_str(), cli.as_str()];
    assert(texts(programs@) =~= seq!["-f"@, api@, helper@, cli@]);
    match privileged.run_ok(STEP, "rm", &programs) {
        Ok(_) => {},
        Err(e) => {
            return Err(e);
        },
    }
    let dashboard = joined(&env.sharedir, "dashboard");
    let licenses = joined(&env.sharedir, "licenses");
    let shared = ["-rf", dashboard.as_str(), licenses.as_str()];
    assert(texts(shared@) =~= seq!["-rf"@, dashboard@, licenses@]);
    match privileged.run_ok(STEP, "rm", &shared) {
        Ok(_) => {},
        Err(e) => {
            return Err(e);
        },
    }
    let license = joined(&env.sharedir, "LICENSE");
    let notices = joined(&env.sharedir, "THIRD_PARTY_NOTICES.txt");
    let inventory = joined(&env.sharedir, "release-license-inventory.json");
    let legal = ["-f", license.as_str(), notices.as_str(), inventory.as_str()];
    assert(texts(legal@) =~= seq!["-f"@, license@, notices@, inventory@]);
    match privileged.run_ok(STEP, "rm", &legal) {
        Ok(_) => {},
        Err(e) => {
            return Err(e);
        },
    }
    let dirs = ["--ignore-fail-on-non-empty", env.libdir.as_str(), env.sharedir.as_str()];
    assert(texts(dirs@) =~= seq!["--ignore-fail-on-non-empty"@, env.libdir@, env.sharedir@]);
    let _ = privileged.run("rmdir", &dirs);

    unlabel_binaries(privileged, env);
    privileged.say(log("binaries and dashboard removed"));

    if purge {
        privileged.say(
            warn(
                &"purging ".to_owned().concat(&env.datadir).concat(" and ").concat(
                    &env.confdir,
                ).concat(" (all VM disks and the database)"),
            ),
        );
        let purged = ["-rf", env.datadir.as_str(), env.confdir.as_str()];
        assert(texts(purged@) =~= seq!["-rf"@, env.datadir@, env.confdir@]);
        match privileged.run_ok(STEP, "rm", &purged) {
            Ok(_) => {},
            Err(e) => {
                return Err(e);
            },
        }
    } else {
        privileged.say(
            log(
                &"kept ".to_owned().concat(&env.datadir).concat(" and ").concat(
                    &env.confdir,
                ).concat(" — pass --purge to delete them too"),
            ),
        );
    }
    Ok(())
}

proof fn failed_removal_ends(session: Session, unitdir: Seq<char>, names: Seq<Seq<char>>)
    requires
        session.failure is Some,
    ensures
        session.remove_units(unitdir, names) == session,
    decreases names.len(),
{
    if names.len() > 0 {
        failed_removal_ends(session, unitdir, names.skip(1));
    }
}

} // verus!
