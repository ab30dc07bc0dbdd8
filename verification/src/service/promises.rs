//! What holds of finding, checking and installing what the services need.

use vstd::prelude::*;

#[allow(unused_imports)]
use super::env::{lookup, units, value_or, ServiceEnv};
#[allow(unused_imports)]
use super::payload::{
    archive_verdict, binaries_verdict, binary_source, bundle_binaries, bundle_verdict,
    checkout_above, checksum_verdict, compliance_artifacts, compliance_verdict, elf_machine,
    is_checkout, release_sources, release_verdict, tag_of, Sources,
};
#[allow(unused_imports)]
use super::pkg::{managers, PackageRun, PkgManager};
#[allow(unused_imports)]
use super::privileged::Session;
#[allow(unused_imports)]
use super::Failure;
#[allow(unused_imports)]
use crate::digest::{hex, sha256};
#[allow(unused_imports)]
use crate::path::{join, parent};
#[allow(unused_imports)]
use crate::shell::{Call, Host, Reply};

verus! {

/// A program is one for a machine exactly where its header is that of a 64-bit little-endian
/// ELF file whose number for the machine, low byte first, is 62 for `x86_64` or 183 for
/// `aarch64`.
pub proof fn a_program_names_its_machine(bytes: Seq<u8>)
    ensures
        ({
            let elf = bytes.len() >= 20 && bytes[0] == 0x7f && bytes[1] == 69 && bytes[2] == 76
                && bytes[3] == 70 && bytes[4] == 2 && bytes[5] == 1;
            let machine = bytes[18] + 256 * bytes[19];
            &&& elf_machine(bytes) == Some("x86_64"@) <==> elf && machine == 62
            &&& elf_machine(bytes) == Some("aarch64"@) <==> elf && machine == 183
            &&& elf_machine(bytes) is None <==> !elf || machine != 62 && machine != 183
        }),
{
    reveal_strlit("x86_64");
    reveal_strlit("aarch64");
    assert("x86_64"@.len() != "aarch64"@.len());
    if bytes.len() >= 20 {
        let first = bytes.take(4);
        let magic = seq![0x7fu8, 0x45u8, 0x4cu8, 0x46u8];
        assert(first[0] == bytes[0] && first[1] == bytes[1] && first[2] == bytes[2] && first[3]
            == bytes[3]);
        if bytes[0] == 0x7f && bytes[1] == 69 && bytes[2] == 76 && bytes[3] == 70 {
            assert(first =~= magic);
        } else {
            assert(first != magic);
        }
    }
}

/// A program is taken from where it was given if it is there, else it stays where it is
/// installed, and there is none exactly where neither is there.
pub proof fn a_program_is_taken_from_where_it_was_given(
    name: Seq<char>,
    given: Option<Seq<char>>,
    installed: Seq<char>,
    files: spec_fn(Seq<char>) -> bool,
)
    ensures
        binary_source(name, given, installed, files) matches Some(p) ==> files(p),
        given is Some && files(join(given->0, name)) ==> binary_source(
            name,
            given,
            installed,
            files,
        ) == Some(join(given->0, name)),
        binary_source(name, given, installed, files) is None <==> !files(join(installed, name)) && (
        given matches Some(dir) ==> !files(join(dir, name))),
        given is None && files(join(installed, name)) ==> binary_source(
            name,
            given,
            installed,
            files,
        ) == Some(join(installed, name)),
{
}

/// The directory that lies so many levels above another one, where there is one.
pub open spec fn above(dir: Seq<char>, levels: nat) -> Option<Seq<char>>
    decreases levels,
{
    if levels == 0 {
        Some(dir)
    } else {
        match above(dir, (levels - 1) as nat) {
            Some(d) => parent(d),
            None => None,
        }
    }
}

proof fn one_level_up(dir: Seq<char>, up: Seq<char>, levels: nat)
    requires
        parent(dir) == Some(up),
    ensures
        above(dir, levels + 1) == above(up, levels),
    decreases levels,
{
    reveal_with_fuel(above, 2);
    if levels > 0 {
        one_level_up(dir, up, (levels - 1) as nat);
    }
}

/// The checkout that a directory lies in is the nearest one: a checkout at or above the
/// directory, with none in between. There is none exactly where no directory at or above it
/// is a checkout.
pub proof fn the_nearest_checkout_is_found(dir: Seq<char>, files: spec_fn(Seq<char>) -> bool)
    ensures
        checkout_above(dir, files) matches Some(root) ==> is_checkout(root, files)
            && exists|n: nat|
            {
                &&& #[trigger] above(dir, n) == Some(root)
                &&& forall|m: nat|
                    m < n ==> ((#[trigger] above(dir, m)) matches Some(d) && !is_checkout(d, files))
            },
        checkout_above(dir, files) is None ==> forall|m: nat|
            ((#[trigger] above(dir, m)) matches Some(d) ==> !is_checkout(d, files)),
    decreases dir.len(),
{
    if is_checkout(dir, files) {
        assert(above(dir, 0) == Some(dir));
    } else {
        match parent(dir) {
            Some(up) => {
                crate::path::parent_is_shorter(dir);
                the_nearest_checkout_is_found(up, files);
                match checkout_above(dir, files) {
                    Some(root) => {
                        let n = choose|n: nat|
                            {
                                &&& #[trigger] above(up, n) == Some(root)
                                &&& forall|m: nat|
                                    m < n ==> ((#[trigger] above(up, m)) matches Some(d)
                                        && !is_checkout(d, files))
                            };
                        one_level_up(dir, up, n);
                        assert(above(dir, n + 1) == Some(root));
                        assert forall|m: nat| m < n + 1 implies ((
                        #[trigger] above(dir, m)) matches Some(d) && !is_checkout(d, files)) by {
                            if m > 0 {
                                one_level_up(dir, up, (m - 1) as nat);
                            }
                        }
                    },
                    None => {
                        assert forall|m: nat|
                            ((#[trigger] above(dir, m)) matches Some(d) ==> !is_checkout(
                                d,
                                files,
                            )) by {
                            if m > 0 {
                                one_level_up(dir, up, (m - 1) as nat);
                            }
                        }
                    },
                }
            },
            None => {
                assert forall|m: nat|
                    ((#[trigger] above(dir, m)) matches Some(d) ==> !is_checkout(d, files)) by {
                    nothing_above_the_top(dir, m);
                }
            },
        }
    }
}

proof fn nothing_above_the_top(dir: Seq<char>, levels: nat)
    requires
        parent(dir) is None,
    ensures
        levels > 0 ==> above(dir, levels) is None,
    decreases levels,
{
    reveal_with_fuel(above, 2);
    if levels > 1 {
        nothing_above_the_top(dir, (levels - 1) as nat);
    }
}

proof fn all_programs_are_checked(
    root: Seq<char>,
    arch: Seq<char>,
    names: Seq<Seq<char>>,
    files: spec_fn(Seq<char>) -> bool,
    contents: spec_fn(Seq<char>) -> Result<Seq<u8>, Seq<char>>,
)
    ensures
        binaries_verdict(root, arch, names, files, contents) is Ok <==> forall|i: int|
            0 <= i < names.len() ==> files(join(root, #[trigger] names[i])) && contents(
                join(root, names[i]),
            ) is Ok && elf_machine(contents(join(root, names[i]))->Ok_0) == Some(arch),
    decreases names.len(),
{
    if names.len() > 0 {
        let rest = names.skip(1);
        all_programs_are_checked(root, arch, rest, files, contents);
        assert forall|i: int| 0 <= i < rest.len() implies #[trigger] rest[i] == names[i + 1] by {}
        if binaries_verdict(root, arch, names, files, contents) is Ok {
            assert forall|i: int| 0 <= i < names.len() implies files(
                join(root, #[trigger] names[i]),
            ) && contents(join(root, names[i])) is Ok && elf_machine(
                contents(join(root, names[i]))->Ok_0,
            ) == Some(arch) by {
                if i > 0 {
                    assert(rest[i - 1] == names[i]);
                }
            }
        }
    }
}

proof fn all_texts_are_checked(
    root: Seq<char>,
    names: Seq<Seq<char>>,
    files: spec_fn(Seq<char>) -> bool,
)
    ensures
        compliance_verdict(root, names, files) is Ok <==> forall|i: int|
            0 <= i < names.len() ==> files(join(root, #[trigger] names[i])),
    decreases names.len(),
{
    if names.len() > 0 {
        let rest = names.skip(1);
        all_texts_are_checked(root, rest, files);
        assert forall|i: int| 0 <= i < rest.len() implies #[trigger] rest[i] == names[i + 1] by {}
        if compliance_verdict(root, names, files) is Ok {
            assert forall|i: int| 0 <= i < names.len() implies files(
                join(root, #[trigger] names[i]),
            ) by {
                if i > 0 {
                    assert(rest[i - 1] == names[i]);
                }
            }
        }
    }
}

/// Whether a file is there and is a program for a machine.
pub open spec fn is_built_for(
    path: Seq<char>,
    arch: Seq<char>,
    files: spec_fn(Seq<char>) -> bool,
    contents: spec_fn(Seq<char>) -> Result<Seq<u8>, Seq<char>>,
) -> bool {
    files(path) && contents(path) is Ok && elf_machine(contents(path)->Ok_0) == Some(arch)
}

/// A release is accepted exactly where each of its programs is there and is one for the
/// machine, and each of its license texts is there.
pub proof fn a_release_is_complete(
    root: Seq<char>,
    arch: Seq<char>,
    files: spec_fn(Seq<char>) -> bool,
    contents: spec_fn(Seq<char>) -> Result<Seq<u8>, Seq<char>>,
)
    ensures
        bundle_verdict(root, arch, files, contents) is Ok <==> {
            &&& is_built_for(join(root, "firecrab-api"@), arch, files, contents)
            &&& is_built_for(join(root, "firecrab-net-helper"@), arch, files, contents)
            &&& is_built_for(join(root, "firecrab"@), arch, files, contents)
            &&& files(join(root, "LICENSE"@))
            &&& files(join(root, "THIRD_PARTY_NOTICES.txt"@))
            &&& files(join(root, "release-license-inventory.json"@))
            &&& files(join(root, "licenses/GPL-2.0-only.txt"@))
        },
{
    all_programs_are_checked(root, arch, bundle_binaries(), files, contents);
    all_texts_are_checked(root, compliance_artifacts(), files);
    let programs = bundle_binaries();
    assert(programs[0] == "firecrab-api"@ && programs[1] == "firecrab-net-helper"@ && programs[2]
        == "firecrab"@);
    if bundle_verdict(root, arch, files, contents) is Err && is_built_for(
        join(root, programs[0]),
        arch,
        files,
        contents,
    ) && is_built_for(join(root, programs[1]), arch, files, contents) && is_built_for(
        join(root, programs[2]),
        arch,
        files,
        contents,
    ) {
        assert forall|i: int| 0 <= i < programs.len() implies files(
            join(root, #[trigger] programs[i]),
        ) && contents(join(root, programs[i])) is Ok && elf_machine(
            contents(join(root, programs[i]))->Ok_0,
        ) == Some(arch) by {
            assert(i == 0 || i == 1 || i == 2);
        }
    }
    let names = compliance_artifacts();
    assert(names[0] == "LICENSE"@ && names[1] == "THIRD_PARTY_NOTICES.txt"@ && names[2]
        == "release-license-inventory.json"@ && names[3] == "licenses/GPL-2.0-only.txt"@);
    if files(join(root, names[0])) && files(join(root, names[1])) && files(join(root, names[2]))
        && files(join(root, names[3])) {
        assert forall|i: int| 0 <= i < names.len() implies files(
            join(root, #[trigger] names[i]),
        ) by {
            assert(i == 0 || i == 1 || i == 2 || i == 3);
        }
    }
}

/// An archive is unpacked only where it is listed, can be read, and its bytes have the digest
/// that the list gives.
pub proof fn only_the_listed_archive_is_unpacked(
    tarball: Seq<char>,
    expected: Option<Seq<char>>,
    held: Result<Seq<u8>, Seq<char>>,
)
    ensures
        archive_verdict(tarball, expected, held) is Ok <==> (expected matches Some(sum) && (
        held matches Ok(bytes) && sum == hex(sha256(bytes)))),
        forall|actual: Seq<char>| #[trigger]
            checksum_verdict(tarball, expected, actual) is Ok <==> expected == Some(actual),
{
}

/// A tag begins with a `v`, and is the version with at most that `v` in front; none is known
/// where no version is given, or an empty one, or `latest`. The tag of a tag is that tag.
pub proof fn a_tag_is_a_version_behind_a_v(version: Seq<char>)
    ensures
        tag_of(None) is None,
        tag_of(Some(version)) is None <==> version.len() == 0 || version == "latest"@,
        tag_of(Some(version)) matches Some(tag) ==> tag.len() > 0 && tag[0] == 'v' && (tag
            == version || tag.skip(1) == version),
        tag_of(Some(version)) matches Some(tag) ==> tag_of(Some(tag)) == Some(tag),
{
    reveal_strlit("v");
    reveal_strlit("latest");
    assert(("v"@ + version).skip(1) =~= version);
    assert("latest"@[0] == 'l');
}

/// The package manager of a host is the first of those known that is on its path.
pub proof fn the_first_manager_is_used(host: Host, candidates: Seq<PkgManager>)
    ensures
        host.detect(candidates).1 matches Some(found) ==> candidates.contains(found),
        candidates.len() > 0 && host.have(candidates[0].name()).1 ==> host.detect(candidates).1
            == Some(candidates[0]),
        candidates.len() > 0 && !host.have(candidates[0].name()).1 ==> host.detect(candidates).1
            == host.have(candidates[0].name()).0.detect(candidates.skip(1)).1,
    decreases candidates.len(),
{
    if candidates.len() > 0 {
        let rest = candidates.skip(1);
        let next = host.have(candidates[0].name()).0;
        the_first_manager_is_used(next, rest);
        if let Some(found) = host.detect(candidates).1 {
            if host.have(candidates[0].name()).1 {
                assert(candidates[0] == found);
            } else {
                let i = choose|i: int| 0 <= i < rest.len() && rest[i] == found;
                assert(candidates[i + 1] == found);
            }
        }
    }
}

/// The words of a command, without `sudo` in front.
pub open spec fn spoken(call: Call) -> Seq<Seq<char>> {
    if call.cmd == "sudo"@ {
        call.args
    } else {
        seq![call.cmd] + call.args
    }
}

/// Whether packages were given to a package manager in a command that ends with them, and
/// that command succeeded.
pub open spec fn were_installed(
    session: Session,
    manager: PkgManager,
    packages: Seq<Seq<char>>,
) -> bool {
    let calls = session.host.calls;
    let all = spoken(calls.last());
    &&& calls.len() > 0
    &&& (session.host.world)(calls).succeeded()
    &&& all.len() >= packages.len() && all.skip(all.len() - packages.len()) == packages
    &&& all.contains(manager.name())
    &&& manager is Pacman ==> all.contains("-Sy"@)
    &&& manager is Apk ==> all.contains("add"@)
    &&& !(manager is Pacman) && !(manager is Apk) ==> all.contains("install"@)
}

/// Packages that are installed were given, all of them, to the package manager that was found,
/// which succeeded. Without a package manager nothing is installed.
pub proof fn installed_packages_came_from_the_manager(
    run: PackageRun,
    name: Seq<char>,
    packages: Seq<Seq<char>>,
)
    requires
        run.install(name, packages).session.failure is None,
    ensures
        run.manager matches Some(manager) && were_installed(
            run.install(name, packages).session,
            manager,
            packages,
        ),
        run.install(name, packages).refreshed,
{
    let ready = run.refresh(name);
    let tried = ready.install_once(name, packages);
    if tried.session.failure is None {
        one_try(ready, name, packages);
    } else {
        let again = tried.resumed();
        let warned = PackageRun {
            session: again.session.warn("package install failed; retrying once"@),
            ..again
        };
        one_try(warned, name, packages);
    }
}

proof fn one_try(run: PackageRun, name: Seq<char>, packages: Seq<Seq<char>>)
    requires
        run.install_once(name, packages).session.failure is None,
    ensures
        run.manager matches Some(manager) && were_installed(
            run.install_once(name, packages).session,
            manager,
            packages,
        ),
{
    let after = run.install_once(name, packages).session;
    reveal_strlit("sudo");
    reveal_strlit("env");
    reveal_strlit("dnf");
    reveal_strlit("zypper");
    reveal_strlit("pacman");
    reveal_strlit("apk");
    assert("sudo"@.len() == 4 && "env"@.len() == 3 && "dnf"@.len() == 3 && "zypper"@.len() == 6
        && "pacman"@.len() == 6 && "apk"@.len() == 3);
    let all = spoken(after.host.calls.last());
    match run.manager {
        None => {},
        Some(manager) => {
            let head = match manager {
                PkgManager::AptGet => seq![
                    "env"@,
                    "DEBIAN_FRONTEND"@ + "="@ + "noninteractive"@,
                    "apt-get"@,
                    "install"@,
                    "-y"@,
                    "-qq"@,
                ],
                PkgManager::Dnf => seq!["dnf"@, "install"@, "-y"@, "-q"@],
                PkgManager::Zypper => seq!["zypper"@, "--non-interactive"@, "install"@, "-y"@],
                PkgManager::Pacman => seq!["pacman"@, "-Sy"@, "--noconfirm"@, "--needed"@],
                PkgManager::Apk => seq!["apk"@, "add"@, "--no-cache"@],
            };
            assert(all =~= head + packages);
            assert(all.skip(all.len() - packages.len()) =~= packages);
            assert(all[0] == head[0] && all[1] == head[1] && all[2] == head[2]);
            if manager is AptGet {
                assert(all[2] == "apt-get"@ && all[3] == "install"@);
            }
            if manager is Zypper {
                assert(all[2] == "install"@);
            }
            assert(all.contains(all[0]) && all.contains(all[1]) && all.contains(all[2]));
            if manager is AptGet {
                assert(all.contains(all[3]));
            }
        },
    }
}

/// Firecracker is on the path of a host on which it was made sure of: the last look for it
/// found it.
pub proof fn firecracker_is_there_in_the_end(
    session: Session,
    sharedir: Seq<char>,
    script: Result<Seq<char>, Failure>,
    install_deps: bool,
    check_only: bool,
)
    requires
        session.ensure_firecracker(sharedir, script, install_deps, check_only).failure is None,
    ensures
        ({
            let after = session.ensure_firecracker(sharedir, script, install_deps, check_only);
            &&& after.host.calls.len() > 0
            &&& after.host.calls.last() == (Call {
                cmd: "sh"@,
                args: seq!["-c"@, "command -v "@ + "firecracker"@],
                stdin: None,
            })
            &&& (after.host.world)(after.host.calls).succeeded()
        }),
{
}

/// A check installs nothing, and neither does a run without dependencies: where Firecracker
/// is missing, they fail, and all that was done was to look for it.
pub proof fn firecracker_is_not_installed_against_the_operators_word(
    session: Session,
    sharedir: Seq<char>,
    script: Result<Seq<char>, Failure>,
    install_deps: bool,
    check_only: bool,
)
    requires
        session.failure is None,
        check_only || !install_deps,
    ensures
        ({
            let after = session.ensure_firecracker(sharedir, script, install_deps, check_only);
            &&& after.host == session.have("firecracker"@).0.host
            &&& after.failure is None <==> session.have("firecracker"@).1
        }),
{
}

/// Whether a call was made and answered with success.
pub open spec fn succeeded_with(session: Session, call: Call) -> bool {
    exists|n: int|
        0 < n <= session.host.calls.len() && session.host.calls[n - 1] == call && (
        session.host.world)(#[trigger] session.host.calls.take(n)).succeeded()
}

proof fn a_success_stays(before: Session, after: Session, call: Call)
    requires
        succeeded_with(before, call),
        after.host.world == before.host.world,
        before.host.calls.len() <= after.host.calls.len(),
        after.host.calls.take(before.host.calls.len() as int) == before.host.calls,
    ensures
        succeeded_with(after, call),
{
    let n = choose|n: int|
        0 < n <= before.host.calls.len() && before.host.calls[n - 1] == call && (
        before.host.world)(#[trigger] before.host.calls.take(n)).succeeded();
    assert(after.host.calls.take(n) =~= before.host.calls.take(n));
    assert(after.host.calls[n - 1] == before.host.calls.take(n)[n - 1]);
}

proof fn the_last_call_succeeded(session: Session, call: Call)
    requires
        session.host.calls.len() > 0,
        session.host.calls.last() == call,
        (session.host.world)(session.host.calls).succeeded(),
    ensures
        succeeded_with(session, call),
{
    let n = session.host.calls.len() as int;
    assert(session.host.calls.take(n) =~= session.host.calls);
}

/// The account of the services is there once it was made sure of: its group was found or made,
/// and the account was found, or made in that group, with the data as its home, and with no
/// shell to log in with.
pub proof fn the_account_cannot_log_in(session: Session, env: ServiceEnv)
    requires
        session.ensure_group(env).ensure_user(env).failure is None,
    ensures
        ({
            let after = session.ensure_group(env).ensure_user(env);
            &&& succeeded_with(
                after,
                Call { cmd: "getent"@, args: seq!["group"@, env.group@], stdin: None },
            ) || succeeded_with(
                after,
                session.argv("groupadd"@, seq!["--system"@, env.group@], None),
            )
            &&& succeeded_with(
                after,
                Call { cmd: "id"@, args: seq![env.user@], stdin: None },
            ) || succeeded_with(
                after,
                session.argv(
                    "useradd"@,
                    seq![
                        "--system"@,
                        "--gid"@,
                        env.group@,
                        "--home-dir"@,
                        env.datadir@,
                        "--shell"@,
                        "/usr/sbin/nologin"@,
                        env.user@,
                    ],
                    None,
                ),
            )
        }),
{
    let grouped = session.ensure_group(env);
    let after = grouped.ensure_user(env);
    let (asked, reply) = session.probe("getent"@, seq!["group"@, env.group@]);
    let find = Call { cmd: "getent"@, args: seq!["group"@, env.group@], stdin: None };
    let make = session.argv("groupadd"@, seq!["--system"@, env.group@], None);
    if reply.succeeded() {
        the_last_call_succeeded(grouped, find);
    } else {
        the_last_call_succeeded(grouped, make);
    }
    let (looked, known) = grouped.probe("id"@, seq![env.user@]);
    let have = Call { cmd: "id"@, args: seq![env.user@], stdin: None };
    if known.succeeded() {
        the_last_call_succeeded(after, have);
    } else {
        the_last_call_succeeded(after, after.host.calls.last());
    }
    assert(after.host.calls.take(grouped.host.calls.len() as int) =~= grouped.host.calls);
    if reply.succeeded() {
        a_success_stays(grouped, after, find);
    } else {
        a_success_stays(grouped, after, make);
    }
}

/// A value of the environment counts where it is not empty; else the default does.
pub proof fn an_empty_value_counts_as_none(
    vars: Seq<(String, String)>,
    name: Seq<char>,
    default: Seq<char>,
)
    ensures
        (forall|i: int| 0 <= i < vars.len() ==> (#[trigger] vars[i]).0@ != name) ==> value_or(
            vars,
            name,
            default,
        ) == default,
        forall|i: int|
            0 <= i < vars.len() && (#[trigger] vars[i]).0@ == name && (forall|j: int|
                0 <= j < i ==> (#[trigger] vars[j]).0@ != name) ==> value_or(vars, name, default)
                == if vars[i].1@.len() > 0 {
                vars[i].1@
            } else {
                default
            },
    decreases vars.len(),
{
    if vars.len() > 0 {
        let rest = vars.skip(1);
        an_empty_value_counts_as_none(rest, name, default);
        assert forall|i: int| 0 <= i < rest.len() implies #[trigger] rest[i] == vars[i + 1] by {}
        if vars[0].0@ != name {
            assert forall|i: int|
                0 <= i < vars.len() && (#[trigger] vars[i]).0@ == name && (forall|j: int|
                    0 <= j < i ==> (#[trigger] vars[j]).0@ != name) implies value_or(
                vars,
                name,
                default,
            ) == if vars[i].1@.len() > 0 {
                vars[i].1@
            } else {
                default
            } by {
                assert(rest[i - 1] == vars[i]);
                assert forall|j: int| 0 <= j < i - 1 implies (#[trigger] rest[j]).0@ != name by {
                    assert(rest[j] == vars[j + 1]);
                }
            }
        }
    }
}

} // verus!
