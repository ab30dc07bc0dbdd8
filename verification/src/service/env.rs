//! The account that the services run under and where they are installed.

use vstd::prelude::*;

use crate::path::joined;
#[allow(unused_imports)]
use crate::path::join;
#[allow(unused_imports)]
use crate::text::opt_view;
use crate::text::same;

verus! {

/// The units in the order in which they start; they stop in reverse.
pub const UNITS: [&'static str; 2] = ["firecrab-net-helper.service", "firecrab-api.service"];

/// The units in the order in which they start; they stop in reverse.
pub open spec fn units() -> Seq<Seq<char>> {
    seq!["firecrab-net-helper.service"@, "firecrab-api.service"@]
}

/// The account of the services and the directories of an installation.
#[derive(Debug)]
pub struct ServiceEnv {
    /// The account's name.
    pub user: String,
    /// The account's group.
    pub group: String,
    /// The prefix that the directories lie under.
    pub prefix: String,
    /// Programs for the operator.
    pub bindir: String,
    /// Programs of the services.
    pub libdir: String,
    /// Shared data.
    pub sharedir: String,
    /// State: VM disks and the database.
    pub datadir: String,
    /// Configuration.
    pub confdir: String,
    /// systemd units.
    pub unitdir: String,
}

/// The first value that `vars` give `name`.
pub open spec fn lookup(vars: Seq<(String, String)>, name: Seq<char>) -> Option<Seq<char>>
    decreases vars.len(),
{
    if vars.len() == 0 {
        None
    } else if vars[0].0@ == name {
        Some(vars[0].1@)
    } else {
        lookup(vars.skip(1), name)
    }
}

/// The value that `vars` give `name`, or `default` where it is missing or empty.
pub open spec fn value_or(vars: Seq<(String, String)>, name: Seq<char>, default: Seq<char>) -> Seq<
    char,
> {
    match lookup(vars, name) {
        Some(value) => if value.len() > 0 {
            value
        } else {
            default
        },
        None => default,
    }
}

/// The first value that `vars` give `name`.
pub fn found(vars: &[(String, String)], name: &str) -> (r: Option<String>)
    ensures
        opt_view(r) == lookup(vars@, name@),
{
    let mut i: usize = 0;
    assert(vars@.skip(0) =~= vars@);
    while i < vars.len()
        invariant
            i <= vars@.len(),
            lookup(vars@.skip(i as int), name@) == lookup(vars@, name@),
        decreases vars@.len() - i,
    {
        assert(vars@.skip(i as int)[0] == vars@[i as int]);
        assert(vars@.skip(i as int).skip(1) =~= vars@.skip(i + 1));
        if same(&vars[i].0, name) {
            return Some(vars[i].1.clone());
        }
        i += 1;
    }
    None
}

/// The value that `vars` give `name`, or `default` where it is missing or empty.
pub fn env_or(vars: &[(String, String)], name: &str, default: &str) -> (r: String)
    ensures
        r@ == value_or(vars@, name@, default@),
{
    match found(vars, name) {
        Some(value) => if value.as_str().is_empty() {
            default.to_owned()
        } else {
            value
        },
        None => default.to_owned(),
    }
}

impl ServiceEnv {
    /// Whether this is the installation that the environment `vars` describes.
    pub open spec fn follows(self, vars: Seq<(String, String)>) -> bool {
        let prefix = value_or(vars, "PREFIX"@, "/usr/local"@);
        &&& self.user@ == value_or(vars, "FIRECRAB_USER"@, "firecrab"@)
        &&& self.group@ == value_or(vars, "FIRECRAB_GROUP"@, "firecrab"@)
        &&& self.prefix@ == prefix
        &&& self.bindir@ == join(prefix, "bin"@)
        &&& self.libdir@ == value_or(vars, "FIRECRAB_LIBDIR"@, join(prefix, "lib/firecrab"@))
        &&& self.sharedir@ == join(prefix, "share/firecrab"@)
        &&& self.datadir@ == value_or(vars, "DATADIR"@, "/var/lib/firecrab"@)
        &&& self.confdir@ == value_or(vars, "CONFDIR"@, "/etc/firecrab"@)
        &&& self.unitdir@ == value_or(vars, "UNITDIR"@, "/etc/systemd/system"@)
    }

    /// The installation that the process environment describes; `vars` holds the
    /// variables of the process.
    pub fn from_process_env(vars: &[(String, String)]) -> (r: Self)
        ensures
            r.follows(vars@),
    {
        let prefix = env_or(vars, "PREFIX", "/usr/local");
        let libdir = joined(&prefix, "lib/firecrab");
        ServiceEnv {
            user: env_or(vars, "FIRECRAB_USER", "firecrab"),
            group: env_or(vars, "FIRECRAB_GROUP", "firecrab"),
            bindir: joined(&prefix, "bin"),
            libdir: env_or(vars, "FIRECRAB_LIBDIR", &libdir),
            sharedir: joined(&prefix, "share/firecrab"),
            prefix,
            datadir: env_or(vars, "DATADIR", "/var/lib/firecrab"),
            confdir: env_or(vars, "CONFDIR", "/etc/firecrab"),
            unitdir: env_or(vars, "UNITDIR", "/etc/systemd/system"),
        }
    }

    /// An installation with the standard layout under `prefix`.
    pub fn from_values(
        user: &str,
        group: &str,
        prefix: &str,
        datadir: &str,
        confdir: &str,
        unitdir: &str,
    ) -> (r: Self)
        ensures
            r.user@ == user@,
            r.group@ == group@,
            r.prefix@ == prefix@,
            r.bindir@ == join(prefix@, "bin"@),
            r.libdir@ == join(prefix@, "lib/firecrab"@),
            r.sharedir@ == join(prefix@, "share/firecrab"@),
            r.datadir@ == datadir@,
            r.confdir@ == confdir@,
            r.unitdir@ == unitdir@,
    {
        ServiceEnv {
            user: user.to_owned(),
            group: group.to_owned(),
            prefix: prefix.to_owned(),
            bindir: joined(prefix, "bin"),
            libdir: joined(prefix, "lib/firecrab"),
            sharedir: joined(prefix, "share/firecrab"),
            datadir: datadir.to_owned(),
            confdir: confdir.to_owned(),
            unitdir: unitdir.to_owned(),
        }
    }

    /// Where a unit file lies.
    pub fn unit_path(&self, unit: &str) -> (r: String)
        ensures
            r@ == join(self.unitdir@, unit@),
    {
        joined(&self.unitdir, unit)
    }

    /// The address that the API listens on; `vars` holds the variables of the process.
    pub fn api_bind(vars: &[(String, String)]) -> (r: String)
        ensures
            r@ == value_or(vars@, "FIRECRAB_BIND_ADDR"@, "127.0.0.1:5523"@),
    {
        env_or(vars, "FIRECRAB_BIND_ADDR", "127.0.0.1:5523")
    }
}

} // verus!
