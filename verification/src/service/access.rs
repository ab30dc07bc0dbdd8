//! What the host lets the services do once they are installed: the groups, the access to
//! devices and the labels that were granted.

use vstd::prelude::*;

#[allow(unused_imports)]
use super::env::ServiceEnv;
#[allow(unused_imports)]
use super::privileged::Session;
#[allow(unused_imports)]
use crate::shell::{Call, Host, Reply};
#[allow(unused_imports)]
use crate::text::{lines, trim, utf8_lossy, words};

verus! {

/// What was granted on a host.
pub struct Grants {
    /// The accounts, each with a group that it is in.
    pub members: Set<(Seq<char>, Seq<char>)>,
    /// The files, each with an entry of its access list.
    pub entries: Set<(Seq<char>, Seq<char>)>,
    /// The label that is recorded for each pattern of paths.
    pub recorded: Map<Seq<char>, Seq<char>>,
    /// The label that each directory has, with all below it.
    pub labels: Map<Seq<char>, Seq<char>>,
}

/// What a command that succeeds grants or takes back.
pub open spec fn granted(g: Grants, cmd: Seq<char>, args: Seq<Seq<char>>) -> Grants {
    if cmd == "usermod"@ && args.len() == 4 && args[0] == "--append"@ && args[1] == "--groups"@ {
        Grants { members: g.members.insert((args[3], args[2])), ..g }
    } else if cmd == "setfacl"@ && args.len() == 3 && args[0] == "-m"@ {
        Grants { entries: g.entries.insert((args[2], args[1])), ..g }
    } else if cmd == "semanage"@ && args.len() == 5 && args[0] == "fcontext"@ && (args[1] == "-a"@
        || args[1] == "-m"@) && args[2] == "-t"@ {
        Grants { recorded: g.recorded.insert(args[4], args[3]), ..g }
    } else if cmd == "semanage"@ && args.len() == 3 && args[0] == "fcontext"@ && args[1] == "-d"@ {
        Grants { recorded: g.recorded.remove(args[2]), ..g }
    } else if cmd == "restorecon"@ && args.len() == 2 && args[0] == "-R"@
        && g.recorded.contains_key(args[1] + "(/.*)?"@) {
        Grants { labels: g.labels.insert(args[1], g.recorded[args[1] + "(/.*)?"@]), ..g }
    } else {
        g
    }
}

/// What was granted after some calls, each with or without `sudo` in front.
pub open spec fn granted_by(g: Grants, world: spec_fn(Seq<Call>) -> Reply, calls: Seq<Call>) -> Grants
    decreases calls.len(),
{
    if calls.len() == 0 {
        g
    } else {
        let before = granted_by(g, world, calls.drop_last());
        let call = calls.last();
        if !world(calls).succeeded() {
            before
        } else if call.cmd == "sudo"@ && call.args.len() > 0 {
            granted(before, call.args[0], call.args.skip(1))
        } else {
            granted(before, call.cmd, call.args)
        }
    }
}

/// What is granted at the end of a run.
pub open spec fn grants(g: Grants, session: Session) -> Grants {
    granted_by(g, session.host.world, session.host.calls)
}

/// Whether the last of some calls is that command, without `sudo`.
pub open spec fn asks_last(calls: Seq<Call>, cmd: Seq<char>, args: Seq<Seq<char>>) -> bool {
    calls.len() > 0 && calls.last() == (Call { cmd, args, stdin: None })
}

/// Whether the last of some calls is that command, with or without `sudo`.
pub open spec fn bids_last(calls: Seq<Call>, cmd: Seq<char>, args: Seq<Seq<char>>) -> bool {
    asks_last(calls, cmd, args) || asks_last(calls, "sudo"@, seq![cmd] + args)
}

proof fn asked(g: Grants, session: Session, cmd: Seq<char>, args: Seq<Seq<char>>)
    requires
        cmd != "sudo"@,
        granted(grants(g, session), cmd, args) == grants(g, session),
    ensures
        grants(g, session.probe(cmd, args).0) == grants(g, session),
        session.probe(cmd, args).0.failure == session.failure,
        session.probe(cmd, args).0.sudo == session.sudo,
        session.probe(cmd, args).0.host.world == session.host.world,
        session.failure is None ==> {
            let calls = session.probe(cmd, args).0.host.calls;
            &&& asks_last(calls, cmd, args)
            &&& calls.drop_last() == session.host.calls
            &&& session.probe(cmd, args).1 == (session.host.world)(calls)
        },
{
    let call = Call { cmd, args, stdin: None };
    assert(session.host.calls.push(call).drop_last() =~= session.host.calls);
}

proof fn bidden(g: Grants, session: Session, cmd: Seq<char>, args: Seq<Seq<char>>)
    requires
        cmd != "sudo"@,
        session.failure is None,
    ensures
        ({
            let (after, reply) = session.attempt(cmd, args);
            &&& after.failure is None
            &&& after.sudo == session.sudo
            &&& after.host.world == session.host.world
            &&& reply == (session.host.world)(after.host.calls)
            &&& bids_last(after.host.calls, cmd, args)
            &&& grants(g, after) == if reply.succeeded() {
                granted(grants(g, session), cmd, args)
            } else {
                grants(g, session)
            }
        }),
{
    let call = session.argv(cmd, args, None);
    assert(session.host.calls.push(call).drop_last() =~= session.host.calls);
    if session.sudo {
        assert((seq![cmd] + args).skip(1) =~= args);
    }
}

proof fn commands_of_access()
    ensures
        "usermod"@ != "sudo"@ && "setfacl"@ != "sudo"@ && "semanage"@ != "sudo"@,
        "restorecon"@ != "sudo"@ && "getent"@ != "sudo"@ && "id"@ != "sudo"@,
        "getfacl"@ != "sudo"@ && "sh"@ != "sudo"@ && "getenforce"@ != "sudo"@,
        "setfacl"@ != "usermod"@ && "semanage"@ != "usermod"@ && "semanage"@ != "setfacl"@,
        "restorecon"@ != "usermod"@ && "restorecon"@ != "setfacl"@ && "restorecon"@ != "semanage"@,
        "getent"@ != "usermod"@ && "getent"@ != "setfacl"@ && "getent"@ != "semanage"@
            && "getent"@ != "restorecon"@,
        "id"@ != "usermod"@ && "id"@ != "setfacl"@ && "id"@ != "semanage"@ && "id"@
            != "restorecon"@,
        "getfacl"@ != "usermod"@ && "getfacl"@ != "setfacl"@ && "getfacl"@ != "semanage"@
            && "getfacl"@ != "restorecon"@,
        "sh"@ != "usermod"@ && "sh"@ != "setfacl"@ && "sh"@ != "semanage"@ && "sh"@
            != "restorecon"@,
        "getenforce"@ != "usermod"@ && "getenforce"@ != "setfacl"@ && "getenforce"@ != "semanage"@
            && "getenforce"@ != "restorecon"@,
{
    reveal_strlit("usermod");
    reveal_strlit("setfacl");
    reveal_strlit("semanage");
    reveal_strlit("restorecon");
    reveal_strlit("getent");
    reveal_strlit("id");
    reveal_strlit("getfacl");
    reveal_strlit("sh");
    reveal_strlit("getenforce");
    reveal_strlit("sudo");
    assert("usermod"@.len() == 7 && "setfacl"@.len() == 7 && "semanage"@.len() == 8
        && "restorecon"@.len() == 10 && "getent"@.len() == 6 && "id"@.len() == 2 && "getfacl"@.len()
        == 7 && "sh"@.len() == 2 && "getenforce"@.len() == 10 && "sudo"@.len() == 4);
    assert("usermod"@[0] == 'u' && "setfacl"@[0] == 's' && "getfacl"@[0] == 'g');
    assert("getenforce"@[0] == 'g' && "restorecon"@[0] == 'r');
}

/// Where a host has the group `kvm`, and tells that an account is in it only where that is so,
/// the account of the services is in the group once it was made sure of.
pub proof fn the_account_is_in_the_group_of_kvm(g: Grants, session: Session, env: ServiceEnv)
    requires
        session.ensure_kvm_member(env).failure is None,
        forall|calls: Seq<Call>|
            asks_last(calls, "getent"@, seq!["group"@, "kvm"@])
                ==> #[trigger] (session.host.world)(calls).succeeded(),
        forall|calls: Seq<Call>|
            asks_last(calls, "id"@, seq!["-nG"@, env.user@]) ==> (
            #[trigger] (session.host.world)(calls) matches Reply::Done { stdout, .. } ==> words(
                utf8_lossy(stdout),
            ).contains("kvm"@) ==> granted_by(
                g,
                session.host.world,
                calls.drop_last(),
            ).members.contains((env.user@, "kvm"@))),
    ensures
        grants(g, session.ensure_kvm_member(env)).members.contains((env.user@, "kvm"@)),
{
    commands_of_access();
    asked(g, session, "getent"@, seq!["group"@, "kvm"@]);
    let (found, there) = session.probe("getent"@, seq!["group"@, "kvm"@]);
    assert(session.failure is None);
    assert(there.succeeded());
    asked(g, found, "id"@, seq!["-nG"@, env.user@]);
    let (known, reply) = found.probe("id"@, seq!["-nG"@, env.user@]);
    if !super::layout::prints_word(reply, "kvm"@) {
        let told = known.step("adding "@ + env.user@ + " to the kvm group"@);
        bidden(g, told, "usermod"@, seq!["--append"@, "--groups"@, "kvm"@, env.user@]);
    }
}

/// Where `/dev/kvm` and `setfacl` are there, and the host lists an entry of an access list only
/// where it was granted, the group `kvm` may read and write the device once that was made sure
/// of.
pub proof fn the_group_of_kvm_may_use_the_device(g: Grants, session: Session)
    requires
        session.ensure_kvm_access(true).failure is None,
        session.have("setfacl"@).1,
        forall|calls: Seq<Call>|
            asks_last(calls, "getfacl"@, seq!["-p"@, "/dev/kvm"@]) ==> (
            #[trigger] (session.host.world)(calls) matches Reply::Done { stdout, .. } ==> (exists|
                i: int,
            |
                0 <= i < lines(utf8_lossy(stdout)).len() && trim(
                    #[trigger] lines(utf8_lossy(stdout))[i],
                ) == "group:kvm:rw-"@) ==> granted_by(
                g,
                session.host.world,
                calls.drop_last(),
            ).entries.contains(("/dev/kvm"@, "g:kvm:rw"@))),
    ensures
        grants(g, session.ensure_kvm_access(true)).entries.contains(
            ("/dev/kvm"@, "g:kvm:rw"@),
        ),
{
    commands_of_access();
    let found = session.have("setfacl"@).0;
    asked(g, session, "sh"@, seq!["-c"@, "command -v "@ + "setfacl"@]);
    asked(g, found, "getfacl"@, seq!["-p"@, "/dev/kvm"@]);
    let (known, reply) = found.probe("getfacl"@, seq!["-p"@, "/dev/kvm"@]);
    if super::layout::prints_line(reply, "group:kvm:rw-"@) {
        let all = lines(utf8_lossy(reply->stdout));
        let trimmed = all.map_values(|l: Seq<char>| trim(l));
        let i = choose|i: int| 0 <= i < trimmed.len() && trimmed[i] == "group:kvm:rw-"@;
        assert(trimmed[i] == trim(all[i]));
        let calls = known.host.calls;
        assert((session.host.world)(calls) == reply);
    } else {
        let told = known.step("granting the kvm group ACL access to /dev/kvm"@);
        bidden(g, told, "setfacl"@, seq!["-m"@, "g:kvm:rw"@, "/dev/kvm"@]);
    }
}

/// A host without `/dev/kvm` is left as it is.
pub proof fn without_the_device_nothing_is_granted(session: Session)
    ensures
        session.ensure_kvm_access(false) == session,
{
}

/// Whether SELinux is loaded on the host of a run, as `getenforce` tells it.
pub open spec fn tells_mode(session: Session, mode: Seq<char>) -> bool {
    &&& session.have("getenforce"@).1
    &&& forall|calls: Seq<Call>|
        asks_last(calls, "getenforce"@, Seq::empty()) ==> (
        #[trigger] (session.host.world)(calls) matches Reply::Done { stdout, .. } && trim(
            utf8_lossy(stdout),
        ) == mode)
}

/// Where SELinux is loaded, enforcing or not, and the host has the tools for it, the programs
/// of the services carry the label of programs, `bin_t`, and keep it: it is recorded for their
/// directory and all below it. That holds whether or not a label had been recorded before.
pub proof fn programs_carry_their_label(g: Grants, session: Session, libdir: Seq<char>, mode: Seq<char>)
    requires
        session.failure is None,
        mode == "Enforcing"@ || mode == "Permissive"@,
        tells_mode(session, mode),
        forall|calls: Seq<Call>|
            asks_last(calls, "sh"@, seq!["-c"@, "command -v "@ + "semanage"@])
                ==> #[trigger] (session.host.world)(calls).succeeded(),
        forall|calls: Seq<Call>|
            asks_last(calls, "sh"@, seq!["-c"@, "command -v "@ + "restorecon"@])
                ==> #[trigger] (session.host.world)(calls).succeeded(),
        forall|calls: Seq<Call>|
            bids_last(
                calls,
                "semanage"@,
                seq!["fcontext"@, "-m"@, "-t"@, "bin_t"@, libdir + "(/.*)?"@],
            ) ==> #[trigger] (session.host.world)(calls).succeeded(),
        forall|calls: Seq<Call>|
            bids_last(calls, "restorecon"@, seq!["-R"@, libdir])
                ==> #[trigger] (session.host.world)(calls).succeeded(),
    ensures
        ({
            let after = grants(g, session.label_binaries(libdir));
            &&& after.recorded.contains_key(libdir + "(/.*)?"@)
            &&& after.recorded[libdir + "(/.*)?"@] == "bin_t"@
            &&& after.labels.contains_key(libdir)
            &&& after.labels[libdir] == "bin_t"@
        }),
{
    commands_of_access();
    let none = Seq::<Seq<char>>::empty();
    asked(g, session, "sh"@, seq!["-c"@, "command -v "@ + "getenforce"@]);
    let s1 = session.have("getenforce"@).0;
    asked(g, s1, "getenforce"@, none);
    let s2 = s1.probe("getenforce"@, none).0;
    assert(session.selinux_active() == (s2, true));
    asked(g, s2, "sh"@, seq!["-c"@, "command -v "@ + "semanage"@]);
    let s3 = s2.have("semanage"@).0;
    let add = seq!["fcontext"@, "-a"@, "-t"@, "bin_t"@, libdir + "(/.*)?"@];
    let change = seq!["fcontext"@, "-m"@, "-t"@, "bin_t"@, libdir + "(/.*)?"@];
    bidden(g, s3, "semanage"@, add);
    let (s4, added) = s3.attempt("semanage"@, add);
    bidden(g, s4, "semanage"@, change);
    let s5 = s3.record_label(libdir).0;
    assert(s3.record_label(libdir).1);
    assert(grants(g, s5).recorded[libdir + "(/.*)?"@] == "bin_t"@);
    asked(g, s5, "sh"@, seq!["-c"@, "command -v "@ + "restorecon"@]);
    let s6 = s5.have("restorecon"@).0;
    bidden(g, s6, "restorecon"@, seq!["-R"@, libdir]);
}

/// Where SELinux is not loaded, no label is recorded or given.
pub proof fn without_selinux_nothing_is_labelled(
    g: Grants,
    session: Session,
    libdir: Seq<char>,
    mode: Seq<char>,
)
    requires
        session.failure is None,
        session.have("getenforce"@).1 ==> tells_mode(session, mode) && mode != "Enforcing"@ && mode
            != "Permissive"@,
    ensures
        grants(g, session.label_binaries(libdir)) == grants(g, session),
{
    commands_of_access();
    let none = Seq::<Seq<char>>::empty();
    asked(g, session, "sh"@, seq!["-c"@, "command -v "@ + "getenforce"@]);
    let s1 = session.have("getenforce"@).0;
    asked(g, s1, "getenforce"@, none);
}

/// Once the services are removed, no label stays recorded for their programs; every other
/// record stays.
pub proof fn no_label_outlives_its_programs(g: Grants, session: Session, libdir: Seq<char>)
    requires
        session.failure is None,
        session.have("semanage"@).1,
        forall|calls: Seq<Call>|
            bids_last(calls, "semanage"@, seq!["fcontext"@, "-d"@, libdir + "(/.*)?"@])
                ==> #[trigger] (session.host.world)(calls).succeeded(),
    ensures
        grants(g, session.unlabel_binaries(libdir)).recorded == grants(g, session).recorded.remove(
            libdir + "(/.*)?"@,
        ),
{
    commands_of_access();
    asked(g, session, "sh"@, seq!["-c"@, "command -v "@ + "semanage"@]);
    let s1 = session.have("semanage"@).0;
    bidden(g, s1, "semanage"@, seq!["fcontext"@, "-d"@, libdir + "(/.*)?"@]);
}

} // verus!
