//! What is installed beside the programs of the services.

use vstd::prelude::*;

#[allow(unused_imports)]
use super::effects::{
    directories_made, file_installed, in_place, is_directory, is_program, left_by, must_do,
    paths_keep_names_apart, program_installed, removed, the_commands, Holds, Placed, Sys,
};
#[allow(unused_imports)]
use super::env::ServiceEnv;
#[allow(unused_imports)]
use super::payload::{binary_source, Sources};
#[allow(unused_imports)]
use super::privileged::Session;
#[allow(unused_imports)]
use crate::path::{components, join};
#[allow(unused_imports)]
use crate::shell::{Call, Host, Reply};

verus! {

/// Whether a text that all may read is there, owned by root, as a copy of another file.
pub open spec fn is_text(s: Sys, path: Seq<char>, source: Seq<char>) -> bool {
    s.files.contains_key(path) && s.files[path] == (Placed {
        owned: "root:root"@,
        mode: "0644"@,
        holds: Holds::CopyOf(source),
    })
}

proof fn roots_own()
    ensures
        "root"@ + ":"@ + "root"@ == "root:root"@,
{
    reveal_strlit("root");
    reveal_strlit(":");
    reveal_strlit("root:root");
    assert("root"@ + ":"@ + "root"@ =~= "root:root"@);
}

proof fn text_installed(s: Sys, session: Session, src: Seq<char>, dest: Seq<char>)
    ensures
        ({
            let after = session.install_text(src, dest);
            &&& session.failure is Some ==> after == session
            &&& after.failure is None ==> {
                &&& session.failure is None
                &&& is_text(left_by(s, after), dest, src)
                &&& forall|p: Seq<char>, from: Seq<char>|
                    p != dest && is_text(left_by(s, session), p, from) ==> #[trigger] is_text(
                        left_by(s, after),
                        p,
                        from,
                    )
            }
        }),
{
    file_installed(
        s,
        session,
        super::layout::STEP_COMPLIANCE@,
        src,
        dest,
        "root"@,
        "root"@,
        "0644"@,
    );
    roots_own();
}

proof fn names_of_texts()
    ensures
        "LICENSE"@.len() == 7 && "LICENSE"@[0] == 'L',
        "licenses"@.len() == 8 && "licenses"@[0] == 'l' && "licenses"@.last() == 's',
        "GPL-2.0-only.txt"@.len() == 16 && "GPL-2.0-only.txt"@[0] == 'G',
        "THIRD_PARTY_NOTICES.txt"@.len() == 23 && "THIRD_PARTY_NOTICES.txt"@[0] == 'T',
        "release-license-inventory.json"@.len() == 30 && "release-license-inventory.json"@[0]
            == 'r',
        "/"@.len() == 1,
{
    reveal_strlit("LICENSE");
    reveal_strlit("licenses");
    reveal_strlit("GPL-2.0-only.txt");
    reveal_strlit("THIRD_PARTY_NOTICES.txt");
    reveal_strlit("release-license-inventory.json");
    reveal_strlit("/");
}

proof fn texts_are_apart(share: Seq<char>)
    ensures
        ({
            let licenses = join(share, "licenses"@);
            let a = join(share, "LICENSE"@);
            let b = join(licenses, "GPL-2.0-only.txt"@);
            let c = join(share, "THIRD_PARTY_NOTICES.txt"@);
            let d = join(share, "release-license-inventory.json"@);
            a != b && a != c && a != d && b != c && b != d && c != d
        }),
{
    names_of_texts();
    let licenses = join(share, "licenses"@);
    let gap: int = if share.len() == 0 || share.last() == '/' {
        0
    } else {
        1
    };
    assert(licenses.last() == 's');
    assert(licenses.len() == share.len() + gap + 8);
    assert(join(licenses, "GPL-2.0-only.txt"@).len() == share.len() + gap + 25);
    assert(join(share, "LICENSE"@).len() == share.len() + gap + 7);
    assert(join(share, "THIRD_PARTY_NOTICES.txt"@).len() == share.len() + gap + 23);
    assert(join(share, "release-license-inventory.json"@).len() == share.len() + gap + 30);
}

/// Where the license texts are installed, all may read the license and the kernel's, as they
/// are in the source. The notices on the work of others and the list that goes with them are
/// those of the source where it has both, and otherwise none is there, also not an earlier one.
pub proof fn license_texts_are_those_of_the_source(
    s: Sys,
    session: Session,
    env: ServiceEnv,
    payload: Sources,
)
    requires
        session.install_compliance(env, payload).failure is None,
    ensures
        ({
            let after = left_by(s, session.install_compliance(env, payload));
            let share = env.sharedir@;
            let notices = join(share, "THIRD_PARTY_NOTICES.txt"@);
            let inventory = join(share, "release-license-inventory.json"@);
            &&& is_text(after, join(share, "LICENSE"@), payload.license)
            &&& is_text(after, join(join(share, "licenses"@), "GPL-2.0-only.txt"@), payload.gpl)
            &&& if payload.third_party is Some && payload.inventory is Some {
                is_text(after, notices, payload.third_party->0) && is_text(
                    after,
                    inventory,
                    payload.inventory->0,
                )
            } else {
                !after.files.contains_key(notices) && !after.files.contains_key(inventory)
            }
        }),
{
    let share = env.sharedir@;
    let licenses = join(share, "licenses"@);
    let license = join(share, "LICENSE"@);
    let gpl = join(licenses, "GPL-2.0-only.txt"@);
    let notices = join(share, "THIRD_PARTY_NOTICES.txt"@);
    let inventory = join(share, "release-license-inventory.json"@);
    let step = super::layout::STEP_COMPLIANCE@;
    texts_are_apart(share);
    let a = session.install_dirs(step, seq![licenses], "root"@, "root"@, "0755"@);
    let b = a.install_text(payload.license, license);
    text_installed(s, a, payload.license, license);
    let c = b.install_text(payload.gpl, gpl);
    text_installed(s, b, payload.gpl, gpl);
    if payload.third_party is Some && payload.inventory is Some {
        let d = c.install_text(payload.third_party->0, notices);
        text_installed(s, c, payload.third_party->0, notices);
        let e = d.install_text(payload.inventory->0, inventory);
        text_installed(s, d, payload.inventory->0, inventory);
        assert(is_text(left_by(s, d), license, payload.license));
        assert(is_text(left_by(s, d), gpl, payload.gpl));
        assert(is_text(left_by(s, e), license, payload.license));
        assert(is_text(left_by(s, e), gpl, payload.gpl));
    } else {
        let names = seq![notices, inventory];
        removed(s, c, step, "-f"@, names);
        assert(seq!["-f"@] + names =~= seq!["-f"@, notices, inventory]);
        assert(names[0] == notices && names[1] == inventory);
        assert(names.contains(notices) && names.contains(inventory));
        let d = c.must(step, "rm"@, seq!["-f"@] + names);
        assert(!names.contains(license)) by {
            if names.contains(license) {
                let i = choose|i: int| 0 <= i < names.len() && names[i] == license;
                assert(i == 0 || i == 1);
            }
        }
        assert(!names.contains(gpl)) by {
            if names.contains(gpl) {
                let i = choose|i: int| 0 <= i < names.len() && names[i] == gpl;
                assert(i == 0 || i == 1);
            }
        }
        assert(is_text(left_by(s, c), license, payload.license));
        let before = left_by(s, c).files;
        let after = left_by(s, d).files;
        assert(after.contains_key(license) && after.contains_key(gpl));
        assert(!after.contains_key(notices) && !after.contains_key(inventory));
    }
}

/// Where the scripts that extract kernels are installed, both came from the source, which has
/// them, and all may run them.
pub proof fn helpers_may_be_run_by_all(
    s: Sys,
    session: Session,
    env: ServiceEnv,
    dir: Seq<char>,
    files: spec_fn(Seq<char>) -> bool,
)
    requires
        session.install_helpers(
            env,
            dir,
            seq!["extract-vmlinux"@, "extract-arm64-image"@],
            files,
        ).failure is None,
    ensures
        ({
            let after = left_by(
                s,
                session.install_helpers(
                    env,
                    dir,
                    seq!["extract-vmlinux"@, "extract-arm64-image"@],
                    files,
                ),
            );
            let lib = env.libdir@;
            &&& files(join(dir, "extract-vmlinux"@))
            &&& files(join(dir, "extract-arm64-image"@))
            &&& is_program(after, join(lib, "extract-vmlinux"@), join(dir, "extract-vmlinux"@))
            &&& is_program(
                after,
                join(lib, "extract-arm64-image"@),
                join(dir, "extract-arm64-image"@),
            )
        }),
{
    let names = seq!["extract-vmlinux"@, "extract-arm64-image"@];
    let rest = names.skip(1);
    assert(names[0] == "extract-vmlinux"@ && rest[0] == "extract-arm64-image"@);
    assert(rest.skip(1).len() == 0);
    reveal_with_fuel(Session::install_helpers, 4);
    reveal_strlit("extract-vmlinux");
    reveal_strlit("extract-arm64-image");
    paths_keep_names_apart(env.libdir@, names[0], rest[0]);
    let first = join(dir, names[0]);
    let a = if !files(first) {
        session.fail(
            super::failed(super::layout::STEP_BINARIES@, "missing "@ + first),
        )
    } else {
        program_installed(s, session, first, join(env.libdir@, names[0]));
        session.install_program(first, join(env.libdir@, names[0]))
    };
    program_installed(s, a, join(dir, rest[0]), join(env.libdir@, rest[0]));
}

/// Where the operator's program is installed, it is among the programs: kept where it was the
/// one that is wanted, and otherwise a copy of the one that was found, for all to run.
pub proof fn the_operators_program_may_be_run_by_all(
    s: Sys,
    session: Session,
    env: ServiceEnv,
    bin: Seq<char>,
    files: spec_fn(Seq<char>) -> bool,
)
    requires
        session.install_cli(env, bin, files).failure is None,
    ensures
        in_place(
            left_by(s, session.install_cli(env, bin, files)),
            join(env.bindir@, "firecrab"@),
            binary_source("firecrab"@, Some(bin), env.bindir@, files),
        ),
{
    let dest = join(env.bindir@, "firecrab"@);
    match binary_source("firecrab"@, Some(bin), env.bindir@, files) {
        None => {},
        Some(src) => {
            let made = session.install_dirs(
                super::layout::STEP_BINARIES@,
                seq![env.bindir@],
                "root"@,
                "root"@,
                "0755"@,
            );
            program_installed(s, made, src, dest);
        },
    }
}

/// A directory of the host: whose copy all of its contents are, where that is known, and its
/// owner and group.
pub struct Site {
    pub copy_of: Option<Seq<char>>,
    pub owned: Seq<char>,
}

/// What a command that succeeds does to the directory at a path, where there is one.
pub open spec fn site_done(
    site: Option<Site>,
    path: Seq<char>,
    cmd: Seq<char>,
    args: Seq<Seq<char>>,
) -> Option<Site> {
    if cmd == "rm"@ && args.len() == 2 && args[0] == "-rf"@ && args[1] == path {
        None
    } else if cmd == "install"@ && args.len() == 8 && args[0] == "-d"@ && args[1] == "-o"@
        && args[3] == "-g"@ && args[7] == path && site is None {
        Some(Site { copy_of: None, owned: args[2] + ":"@ + args[4] })
    } else if cmd == "cp"@ && args.len() == 3 && args[0] == "-r"@ && args[2] == path + "/"@
        && args[1].len() >= 2 && args[1].skip(args[1].len() - 2) == "/."@ && (
    site matches Some(old_site) && old_site.copy_of is None) {
        Some(Site { copy_of: Some(args[1].take(args[1].len() - 2)), owned: Seq::empty() })
    } else if cmd == "chown"@ && args.len() == 3 && args[0] == "-R"@ && args[2] == path {
        match site {
            Some(site) => Some(Site { owned: args[1], ..site }),
            None => None,
        }
    } else {
        site
    }
}

/// The directory at a path after some calls, each with or without `sudo` in front.
pub open spec fn site_after(
    site: Option<Site>,
    path: Seq<char>,
    world: spec_fn(Seq<Call>) -> Reply,
    calls: Seq<Call>,
) -> Option<Site>
    decreases calls.len(),
{
    if calls.len() == 0 {
        site
    } else {
        let before = site_after(site, path, world, calls.drop_last());
        let call = calls.last();
        if !world(calls).succeeded() {
            before
        } else if call.cmd == "sudo"@ && call.args.len() > 0 {
            site_done(before, path, call.args[0], call.args.skip(1))
        } else {
            site_done(before, path, call.cmd, call.args)
        }
    }
}

proof fn must_be_done(
    site: Option<Site>,
    path: Seq<char>,
    session: Session,
    name: Seq<char>,
    cmd: Seq<char>,
    args: Seq<Seq<char>>,
)
    requires
        cmd != "sudo"@,
    ensures
        ({
            let after = session.must(name, cmd, args);
            &&& session.failure is Some ==> after == session
            &&& after.failure is None ==> session.failure is None && site_after(
                site,
                path,
                after.host.world,
                after.host.calls,
            ) == site_done(
                site_after(site, path, session.host.world, session.host.calls),
                path,
                cmd,
                args,
            )
        }),
{
    if session.failure is None {
        let call = session.argv(cmd, args, None);
        assert(session.host.calls.push(call).drop_last() =~= session.host.calls);
        if session.sudo {
            assert((seq![cmd] + args).skip(1) =~= args);
        }
    }
}

/// Where the dashboard is installed from a source that has one, its directory holds a copy of
/// the source, nothing of an earlier dashboard, and belongs to root. Where the source has none,
/// the installed one stays as it is, and where there is none either, the run ends.
pub proof fn the_dashboard_is_that_of_the_source(
    site: Option<Site>,
    session: Session,
    env: ServiceEnv,
    source: Option<Seq<char>>,
    files: spec_fn(Seq<char>) -> bool,
)
    requires
        session.failure is None,
    ensures
        ({
            let after = session.install_dashboard(env, source, files);
            let target = join(env.sharedir@, "dashboard"@);
            let given = source is Some && files(join(source->0, "index.html"@));
            &&& given && after.failure is None ==> site_after(
                site,
                target,
                after.host.world,
                after.host.calls,
            ) == Some(Site { copy_of: source, owned: "root:root"@ })
            &&& !given ==> after.host == session.host
            &&& !given ==> (after.failure is None <==> files(join(target, "index.html"@)))
        }),
{
    let target = join(env.sharedir@, "dashboard"@);
    let given = source is Some && files(join(source->0, "index.html"@));
    if given {
        the_commands();
        let src = source->0;
        let step = super::layout::STEP_BINARIES@;
        reveal_strlit("rm");
        reveal_strlit("cp");
        reveal_strlit("chown");
        reveal_strlit("install");
        reveal_strlit("/.");
        assert("rm"@.len() == 2 && "cp"@.len() == 2 && "rm"@[0] != "cp"@[0] && "chown"@.len() == 5
            && "install"@.len() == 7);
        let gone = session.must(step, "rm"@, seq!["-rf"@, target]);
        must_be_done(site, target, session, step, "rm"@, seq!["-rf"@, target]);
        let args = seq!["-d"@, "-o"@, "root"@, "-g"@, "root"@, "-m"@, "0755"@] + seq![target];
        assert(args[0] == "-d"@ && args[1] == "-o"@ && args[2] == "root"@ && args[3] == "-g"@
            && args[4] == "root"@ && args[7] == target && args.len() == 8);
        let made = gone.install_dirs(step, seq![target], "root"@, "root"@, "0755"@);
        must_be_done(site, target, gone, step, "install"@, args);
        let from = src + "/."@;
        assert(from.skip(from.len() - 2) =~= "/."@);
        assert(from.take(from.len() - 2) =~= src);
        let copied = made.must(step, "cp"@, seq!["-r"@, from, target + "/"@]);
        must_be_done(site, target, made, step, "cp"@, seq!["-r"@, from, target + "/"@]);
        must_be_done(site, target, copied, step, "chown"@, seq!["-R"@, "root:root"@, target]);
    }
}

} // verus!
