//! What a finished injection has put into a guest, and where.

use vstd::prelude::*;

#[allow(unused_imports)]
use super::provision::{
    applet_paths, backup_name, below, boot_text, console_text, dhcp_text, guest_name,
    guest_parent, inittab_text, is_absolute, link_path, lists_serial_console, mount_points,
    path_applets, place, steps, with_root_shell, with_serial_console, Answer, GuestParts,
    Question, Run, GUEST_BOOT_SCRIPT, GUEST_CONSOLE_SCRIPT, GUEST_DHCP_SCRIPT, GUEST_INIT,
    GUEST_INITTAB, GUEST_MOTD, GUEST_SERVICES, GUEST_TOOLBOX, SYMLINK_HOP_LIMIT,
};
#[allow(unused_imports)]
use crate::path::join;
#[allow(unused_imports)]
use crate::text::{split, views};
#[allow(unused_imports)]
use vstd::utf8::encode_utf8;

verus! {

/// Whether a run is a later state of another one: what was asked and answered stays, and who
/// has stopped goes no further.
pub open spec fn follows(after: Run, before: Run) -> bool {
    &&& before.stop is Some ==> after.stop is Some
    &&& before.trace.len() <= after.trace.len()
    &&& forall|i: int| 0 <= i < before.trace.len() ==> #[trigger] after.trace[i] == before.trace[i]
}

/// Whether a place of the tree is one for a guest path: some directory below the root, and in
/// it the last component of the guest path.
pub open spec fn is_for(root: Seq<char>, guest: Seq<char>, path: Seq<char>) -> bool {
    exists|parent: Seq<Seq<char>>| path == #[trigger] place(root, parent.push(guest_name(guest)))
}

/// Whether a file of the guest was made with those contents and that mode.
pub open spec fn made(
    run: Run,
    root: Seq<char>,
    guest: Seq<char>,
    contents: Seq<u8>,
    mode: u32,
) -> bool {
    exists|i: int|
        0 <= i < run.trace.len() && ((#[trigger] run.trace[i]).0 matches Question::CreateFile {
            path,
            contents: c,
            mode: m,
        } && is_for(root, guest, path) && c == contents && m == mode) && run.trace[i].1 is Done
}

/// Whether a link of the guest was made to that target.
pub open spec fn linked(run: Run, root: Seq<char>, guest: Seq<char>, target: Seq<char>) -> bool {
    exists|i: int|
        0 <= i < run.trace.len() && ((#[trigger] run.trace[i]).0 matches Question::CreateLink {
            path,
            target: t,
        } && is_for(root, guest, path) && t == target) && run.trace[i].1 is Done
}

/// Whether a directory of the guest was found, or made with that mode.
pub open spec fn has_directory(run: Run, root: Seq<char>, guest: Seq<char>, mode: u32) -> bool {
    exists|i: int|
        0 <= i < run.trace.len() && match (#[trigger] run.trace[i]).0 {
            Question::Inspect(path) => is_for(root, guest, path) && run.trace[i].1 is Directory,
            Question::CreateDir { path, mode: m } => is_for(root, guest, path) && m == mode
                && run.trace[i].1 is Done,
            _ => false,
        }
}

proof fn ask_follows(run: Run, question: Question)
    ensures
        follows(run.ask(question).0, run),
        run.ask(question).0.stop is None ==> run.stop is None && run.ask(question).0.trace
            == run.trace.push((question, run.ask(question).1)),
{
}

proof fn in_turn(a: Run, b: Run, c: Run)
    requires
        follows(b, a),
        follows(c, b),
    ensures
        follows(c, a),
{
    assert forall|i: int| 0 <= i < a.trace.len() implies #[trigger] c.trace[i] == a.trace[i] by {
        assert(b.trace[i] == a.trace[i]);
    }
}

proof fn what_was_made_stays(before: Run, after: Run)
    requires
        follows(after, before),
    ensures
        forall|root: Seq<char>, guest: Seq<char>, contents: Seq<u8>, mode: u32|
            made(before, root, guest, contents, mode) ==> #[trigger] made(
                after,
                root,
                guest,
                contents,
                mode,
            ),
        forall|root: Seq<char>, guest: Seq<char>, target: Seq<char>|
            linked(before, root, guest, target) ==> #[trigger] linked(after, root, guest, target),
        forall|root: Seq<char>, guest: Seq<char>, mode: u32|
            has_directory(before, root, guest, mode) ==> #[trigger] has_directory(
                after,
                root,
                guest,
                mode,
            ),
{
    assert forall|root: Seq<char>, guest: Seq<char>, contents: Seq<u8>, mode: u32|
        made(before, root, guest, contents, mode) implies #[trigger] made(
        after,
        root,
        guest,
        contents,
        mode,
    ) by {
        let i = choose|i: int|
            0 <= i < before.trace.len() && ((
            #[trigger] before.trace[i]).0 matches Question::CreateFile {
                path,
                contents: c,
                mode: m,
            } && is_for(root, guest, path) && c == contents && m == mode)
                && before.trace[i].1 is Done;
        assert(after.trace[i] == before.trace[i]);
    }
    assert forall|root: Seq<char>, guest: Seq<char>, target: Seq<char>|
        linked(before, root, guest, target) implies #[trigger] linked(
        after,
        root,
        guest,
        target,
    ) by {
        let i = choose|i: int|
            0 <= i < before.trace.len() && ((
            #[trigger] before.trace[i]).0 matches Question::CreateLink { path, target: t }
                && is_for(root, guest, path) && t == target) && before.trace[i].1 is Done;
        assert(after.trace[i] == before.trace[i]);
    }
    assert forall|root: Seq<char>, guest: Seq<char>, mode: u32|
        has_directory(before, root, guest, mode) implies #[trigger] has_directory(
        after,
        root,
        guest,
        mode,
    ) by {
        let i = choose|i: int|
            0 <= i < before.trace.len() && match (#[trigger] before.trace[i]).0 {
                Question::Inspect(path) => is_for(root, guest, path)
                    && before.trace[i].1 is Directory,
                Question::CreateDir { path, mode: m } => is_for(root, guest, path) && m == mode
                    && before.trace[i].1 is Done,
                _ => false,
            };
        assert(after.trace[i] == before.trace[i]);
    }
}

proof fn directory_follows(run: Run, path: Seq<char>, mode: u32)
    ensures
        follows(run.create_directory(path, mode), run),
{
    ask_follows(run, Question::CreateDir { path, mode });
}

proof fn walk_follows(
    run: Run,
    root: Seq<char>,
    guest: Seq<char>,
    pending: Seq<Seq<char>>,
    resolved: Seq<Seq<char>>,
    left: nat,
)
    ensures
        follows(run.walk(root, guest, pending, resolved, left).0, run),
    decreases left, pending.len(),
{
    if run.stop is Some || pending.len() == 0 {
    } else if pending[0] == ".."@ {
        let up = if resolved.len() > 0 {
            resolved.drop_last()
        } else {
            resolved
        };
        walk_follows(run, root, guest, pending.skip(1), up, left);
    } else {
        let candidate = resolved.push(pending[0]);
        let absolute = place(root, candidate);
        let (after, answer) = run.ask(Question::Inspect(absolute));
        ask_follows(run, Question::Inspect(absolute));
        match answer {
            Answer::Directory { .. } => {
                walk_follows(after, root, guest, pending.skip(1), candidate, left);
            },
            Answer::Link => {
                if left > 0 {
                    ask_follows(after, Question::ReadLink(absolute));
                    let (read, answer) = after.ask(Question::ReadLink(absolute));
                    if let Answer::Text(target) = answer {
                        walk_follows(
                            read,
                            root,
                            guest,
                            steps(split(target@, '/')) + pending.skip(1),
                            if is_absolute(target@) {
                                Seq::empty()
                            } else {
                                resolved
                            },
                            (left - 1) as nat,
                        );
                    }
                }
            },
            Answer::Missing => {
                directory_follows(after, absolute, 0o755);
                walk_follows(
                    after.create_directory(absolute, 0o755),
                    root,
                    guest,
                    pending.skip(1),
                    candidate,
                    left,
                );
            },
            _ => {},
        }
    }
}

proof fn parent_follows(run: Run, root: Seq<char>, guest: Seq<char>)
    ensures
        follows(run.resolve_parent(root, guest).0, run),
{
    walk_follows(run, root, guest, guest_parent(guest), Seq::empty(), SYMLINK_HOP_LIMIT as nat);
}

proof fn unlocking_follows(run: Run, parent: Seq<char>)
    ensures
        follows(run.ensure_writable(parent), run),
{
    ask_follows(run, Question::Inspect(parent));
    let (after, answer) = run.ask(Question::Inspect(parent));
    if let Answer::Directory { mode } = answer {
        ask_follows(after, Question::SetMode { path: parent, mode: mode | 0o200 });
    }
}

proof fn guest_directory_follows(run: Run, root: Seq<char>, guest: Seq<char>, mode: u32)
    ensures
        follows(run.ensure_guest_directory(root, guest, mode), run),
        run.ensure_guest_directory(root, guest, mode).stop is None ==> has_directory(
            run.ensure_guest_directory(root, guest, mode),
            root,
            guest,
            mode,
        ),
{
    parent_follows(run, root, guest);
    let (found, parent) = run.resolve_parent(root, guest);
    let destination = place(root, parent.push(guest_name(guest)));
    assert(is_for(root, guest, destination));
    ask_follows(found, Question::Inspect(destination));
    let (after, answer) = found.ask(Question::Inspect(destination));
    directory_follows(after, destination, mode);
    let end = run.ensure_guest_directory(root, guest, mode);
    if end.stop is None {
        match answer {
            Answer::Directory { .. } => {
                assert(end.trace[found.trace.len() as int] == (
                    Question::Inspect(destination),
                    answer,
                ));
            },
            Answer::Missing => {
                let create = Question::CreateDir { path: destination, mode };
                ask_follows(after, create);
                assert(end.trace[after.trace.len() as int] == (create, after.ask(create).1));
            },
            _ => {},
        }
    }
}

proof fn displacing_follows(run: Run, root: Seq<char>, parent: Seq<Seq<char>>, guest: Seq<char>)
    ensures
        follows(run.displace(root, parent, guest), run),
{
    let name = guest_name(guest);
    let destination = place(root, parent.push(name));
    ask_follows(run, Question::Inspect(destination));
    let (after, _) = run.ask(Question::Inspect(destination));
    unlocking_follows(after, place(root, parent));
    let unlocked = after.ensure_writable(place(root, parent));
    ask_follows(unlocked, Question::Token);
    let (named, answer) = unlocked.ask(Question::Token);
    if let Answer::Text(token) = answer {
        let backup = place(root, parent.push(backup_name(name, token@)));
        ask_follows(named, Question::Rename { from: destination, to: backup });
    }
}

proof fn room_follows(run: Run, root: Seq<char>, guest: Seq<char>)
    ensures
        follows(run.make_room(root, guest).0, run),
        is_for(root, guest, run.make_room(root, guest).1),
{
    parent_follows(run, root, guest);
    let (after, parent) = run.resolve_parent(root, guest);
    unlocking_follows(after, place(root, parent));
    let unlocked = after.ensure_writable(place(root, parent));
    displacing_follows(unlocked, root, parent, guest);
}

proof fn file_follows(run: Run, root: Seq<char>, guest: Seq<char>, contents: Seq<u8>, mode: u32)
    ensures
        follows(run.install_file(root, guest, contents, mode), run),
        run.install_file(root, guest, contents, mode).stop is None ==> made(
            run.install_file(root, guest, contents, mode),
            root,
            guest,
            contents,
            mode,
        ),
{
    room_follows(run, root, guest);
    let (ready, path) = run.make_room(root, guest);
    let question = Question::CreateFile { path, contents, mode };
    ask_follows(ready, question);
    let end = run.install_file(root, guest, contents, mode);
    if end.stop is None {
        assert(end.trace[ready.trace.len() as int] == (question, ready.ask(question).1));
    }
}

proof fn link_follows(run: Run, root: Seq<char>, guest: Seq<char>, target: Seq<char>)
    ensures
        follows(run.install_symlink(root, guest, target), run),
        run.install_symlink(root, guest, target).stop is None ==> linked(
            run.install_symlink(root, guest, target),
            root,
            guest,
            target,
        ),
{
    room_follows(run, root, guest);
    let (ready, path) = run.make_room(root, guest);
    let question = Question::CreateLink { target, path };
    ask_follows(ready, question);
    let end = run.install_symlink(root, guest, target);
    if end.stop is None {
        assert(end.trace[ready.trace.len() as int] == (question, ready.ask(question).1));
    }
}

/// Whether a file of the host was read, with those bytes.
pub open spec fn was_read(run: Run, source: Seq<char>, bytes: Seq<u8>) -> bool {
    exists|i: int|
        0 <= i < run.trace.len() && (#[trigger] run.trace[i]).0 == Question::ReadFile(source) && (
        run.trace[i].1 matches Answer::Bytes(b) && b@ == bytes)
}

proof fn what_was_read_stays(before: Run, after: Run, source: Seq<char>, bytes: Seq<u8>)
    requires
        follows(after, before),
        was_read(before, source, bytes),
    ensures
        was_read(after, source, bytes),
{
    let i = choose|i: int|
        0 <= i < before.trace.len() && (#[trigger] before.trace[i]).0 == Question::ReadFile(source)
            && (before.trace[i].1 matches Answer::Bytes(b) && b@ == bytes);
    assert(after.trace[i] == before.trace[i]);
}

/// Whether a program of the host was copied into the guest, and may be run there.
pub open spec fn copied(run: Run, root: Seq<char>, guest: Seq<char>, source: Seq<char>) -> bool {
    exists|bytes: Seq<u8>| #[trigger]
        was_read(run, source, bytes) && made(run, root, guest, bytes, 0o755)
}

proof fn what_was_copied_stays(before: Run, after: Run)
    requires
        follows(after, before),
    ensures
        forall|root: Seq<char>, guest: Seq<char>, source: Seq<char>|
            copied(before, root, guest, source) ==> #[trigger] copied(after, root, guest, source),
{
    assert forall|root: Seq<char>, guest: Seq<char>, source: Seq<char>|
        copied(before, root, guest, source) implies #[trigger] copied(
        after,
        root,
        guest,
        source,
    ) by {
        let bytes = choose|bytes: Seq<u8>| #[trigger]
            was_read(before, source, bytes) && made(before, root, guest, bytes, 0o755);
        what_was_read_stays(before, after, source, bytes);
        what_was_made_stays(before, after);
        assert(made(after, root, guest, bytes, 0o755));
    }
}

proof fn program_follows(run: Run, root: Seq<char>, guest: Seq<char>, source: Seq<char>)
    ensures
        follows(run.install_program(root, guest, source), run),
        run.install_program(root, guest, source).stop is None ==> copied(
            run.install_program(root, guest, source),
            root,
            guest,
            source,
        ),
{
    let question = Question::ReadFile(source);
    ask_follows(run, question);
    let (after, answer) = run.ask(question);
    if let Answer::Bytes(contents) = answer {
        file_follows(after, root, guest, contents@, 0o755);
        let end = run.install_program(root, guest, source);
        if end.stop is None {
            assert(after.trace[run.trace.len() as int] == (question, answer));
            assert(was_read(after, source, contents@));
            what_was_read_stays(after, end, source, contents@);
        }
    }
}

proof fn search_follows(run: Run, root: Seq<char>, candidates: Seq<Seq<char>>)
    ensures
        follows(run.first_existing(root, candidates).0, run),
    decreases candidates.len(),
{
    if candidates.len() > 0 {
        let question = Question::IsFileOrLink(below(root, candidates[0]));
        ask_follows(run, question);
        search_follows(run.ask(question).0, root, candidates.skip(1));
    }
}

/// Whether a run was told that there is a file or link at one of some guest paths.
pub open spec fn was_found(run: Run, root: Seq<char>, candidates: Seq<Seq<char>>) -> bool {
    exists|i: int, j: int|
        0 <= i < run.trace.len() && 0 <= j < candidates.len() && (#[trigger] run.trace[i]).0
            == Question::IsFileOrLink(below(root, #[trigger] candidates[j])) && run.trace[i].1
            is Yes
}

proof fn a_search_finds(run: Run, root: Seq<char>, candidates: Seq<Seq<char>>)
    requires
        run.first_existing(root, candidates).1 is Some,
    ensures
        was_found(run.first_existing(root, candidates).0, root, candidates),
        candidates.contains(run.first_existing(root, candidates).1->0),
    decreases candidates.len(),
{
    if candidates.len() > 0 {
        let question = Question::IsFileOrLink(below(root, candidates[0]));
        ask_follows(run, question);
        let (after, answer) = run.ask(question);
        if answer is Yes && after.stop is None {
            assert(after.trace[run.trace.len() as int].0 == question);
            assert(candidates[0] == run.first_existing(root, candidates).1->0);
        } else {
            let rest = candidates.skip(1);
            a_search_finds(after, root, rest);
            let end = after.first_existing(root, rest).0;
            let (i, j) = choose|i: int, j: int|
                0 <= i < end.trace.len() && 0 <= j < rest.len() && (#[trigger] end.trace[i]).0
                    == Question::IsFileOrLink(below(root, #[trigger] rest[j])) && end.trace[i].1
                    is Yes;
            assert(candidates[j + 1] == rest[j]);
            let found = run.first_existing(root, candidates).1->0;
            let k = choose|k: int| 0 <= k < rest.len() && rest[k] == found;
            assert(candidates[k + 1] == found);
        }
    }
}

proof fn what_was_found_stays(before: Run, after: Run, root: Seq<char>, candidates: Seq<Seq<char>>)
    requires
        follows(after, before),
        was_found(before, root, candidates),
    ensures
        was_found(after, root, candidates),
{
    let (i, j) = choose|i: int, j: int|
        0 <= i < before.trace.len() && 0 <= j < candidates.len() && (#[trigger] before.trace[i]).0
            == Question::IsFileOrLink(below(root, #[trigger] candidates[j])) && before.trace[i].1
            is Yes;
    assert(after.trace[i] == before.trace[i]);
    assert(candidates[j] == candidates[j]);
}

/// Whether a guest has each of some tools: one that was found on its path, or a link to the
/// toolbox.
pub open spec fn has_tools(
    run: Run,
    root: Seq<char>,
    applets: Seq<Seq<char>>,
    usr_bin: bool,
) -> bool {
    forall|i: int|
        0 <= i < applets.len() ==> was_found(run, root, applet_paths(#[trigger] applets[i]))
            || linked(run, root, link_path(usr_bin, applets[i]), GUEST_TOOLBOX@)
}

proof fn links_follow(run: Run, root: Seq<char>, applets: Seq<Seq<char>>, usr_bin: bool)
    ensures
        follows(run.link_applets(root, applets, usr_bin), run),
        run.link_applets(root, applets, usr_bin).stop is None ==> has_tools(
            run.link_applets(root, applets, usr_bin),
            root,
            applets,
            usr_bin,
        ),
    decreases applets.len(),
{
    if applets.len() > 0 {
        let paths = applet_paths(applets[0]);
        search_follows(run, root, paths);
        let (after, found) = run.first_existing(root, paths);
        let next = if found is Some {
            a_search_finds(run, root, paths);
            after
        } else {
            link_follows(after, root, link_path(usr_bin, applets[0]), GUEST_TOOLBOX@);
            after.install_symlink(root, link_path(usr_bin, applets[0]), GUEST_TOOLBOX@)
        };
        let rest = applets.skip(1);
        links_follow(next, root, rest, usr_bin);
        let end = run.link_applets(root, applets, usr_bin);
        assert(end == next.link_applets(root, rest, usr_bin));
        in_turn(run, next, end);
        if end.stop is None {
            what_was_made_stays(next, end);
            if found is Some {
                what_was_found_stays(next, end, root, paths);
            }
            assert forall|i: int| 0 <= i < applets.len() implies was_found(
                end,
                root,
                applet_paths(#[trigger] applets[i]),
            ) || linked(end, root, link_path(usr_bin, applets[i]), GUEST_TOOLBOX@) by {
                if i > 0 {
                    assert(rest[i - 1] == applets[i]);
                }
            }
        }
    }
}

proof fn toolbox_follows(run: Run, root: Seq<char>)
    ensures
        follows(run.install_toolbox_commands(root), run),
        run.install_toolbox_commands(root).stop is None ==> has_tools(
            run.install_toolbox_commands(root),
            root,
            path_applets(),
            run.ask(Question::IsDirOrLink(join(root, "usr/bin"@))).1 is Yes,
        ),
{
    let question = Question::IsDirOrLink(join(root, "usr/bin"@));
    ask_follows(run, question);
    let (after, answer) = run.ask(question);
    links_follow(after, root, path_applets(), answer is Yes);
}

proof fn root_shell_follows(run: Run, root: Seq<char>, shell: Seq<char>)
    ensures
        follows(run.set_root_shell(root, shell), run),
{
    let passwd = join(root, "etc/passwd"@);
    let etc = join(root, "etc"@);
    ask_follows(run, Question::ReadText(passwd));
    let (read, answer) = run.ask(Question::ReadText(passwd));
    ask_follows(read, Question::CreateDirs(etc));
    let ready = read.must(Question::CreateDirs(etc), "create guest etc"@, etc);
    let text = match answer {
        Answer::Text(text) => text@,
        _ => "root:x:0:0:root:/root:/bin/sh\n"@,
    };
    ask_follows(
        ready,
        Question::Overwrite { path: passwd, contents: encode_utf8(with_root_shell(text, shell)) },
    );
}

proof fn securetty_follows(run: Run, root: Seq<char>)
    ensures
        follows(run.ensure_securetty(root), run),
{
    let securetty = join(root, "etc/securetty"@);
    ask_follows(run, Question::ReadText(securetty));
    let (read, answer) = run.ask(Question::ReadText(securetty));
    match answer {
        Answer::Text(text) => {
            ask_follows(
                read,
                Question::Overwrite {
                    path: securetty,
                    contents: encode_utf8(with_serial_console(text@)),
                },
            );
        },
        _ => {
            file_follows(read, root, "/etc/securetty"@, encode_utf8("ttyS0\n"@), 0o644);
        },
    }
}

proof fn directories_follow(run: Run, root: Seq<char>, wanted: Seq<(Seq<char>, u32)>)
    ensures
        follows(run.ensure_directories(root, wanted), run),
        run.ensure_directories(root, wanted).stop is None ==> forall|i: int|
            0 <= i < wanted.len() ==> has_directory(
                run.ensure_directories(root, wanted),
                root,
                (#[trigger] wanted[i]).0,
                wanted[i].1,
            ),
    decreases wanted.len(),
{
    if wanted.len() > 0 {
        guest_directory_follows(run, root, wanted[0].0, wanted[0].1);
        let next = run.ensure_guest_directory(root, wanted[0].0, wanted[0].1);
        directories_follow(next, root, wanted.skip(1));
        let end = run.ensure_directories(root, wanted);
        if end.stop is None {
            what_was_made_stays(next, end);
            assert forall|i: int| 0 <= i < wanted.len() implies has_directory(
                end,
                root,
                (#[trigger] wanted[i]).0,
                wanted[i].1,
            ) by {
                if i > 0 {
                    assert(wanted.skip(1)[i - 1] == wanted[i]);
                }
            }
        }
    }
}

proof fn fastfetch_follows(run: Run, root: Seq<char>, parts: GuestParts)
    ensures
        follows(run.install_fastfetch(root, parts), run),
        run.install_fastfetch(root, parts).stop is None && parts.fastfetch is Some && was_found(
            run.install_fastfetch(root, parts),
            root,
            views(parts.loaders@),
        ) && !was_found(run, root, views(parts.loaders@)) ==> copied(
            run.install_fastfetch(root, parts),
            root,
            parts.fastfetch_path@,
            parts.fastfetch->0@,
        ) || run.first_existing(root, views(parts.loaders@)).1 is None,
{
    if let Some(source) = parts.fastfetch {
        search_follows(run, root, views(parts.loaders@));
        let (after, _) = run.first_existing(root, views(parts.loaders@));
        program_follows(after, root, parts.fastfetch_path@, source@);
    }
}

proof fn console_follows(run: Run, root: Seq<char>)
    ensures
        follows(run.set_up_console(root), run),
        run.set_up_console(root).stop is None ==> exists|agetty: Option<Seq<char>>|
            {
                &&& #[trigger] made(
                    run.set_up_console(root),
                    root,
                    GUEST_INITTAB@,
                    encode_utf8(inittab_text(agetty)),
                    0o644,
                )
                &&& agetty matches Some(getty) ==> was_found(
                    run.set_up_console(root),
                    root,
                    seq!["/sbin/agetty"@, "/usr/sbin/agetty"@],
                ) && (getty == "/sbin/agetty"@ || getty == "/usr/sbin/agetty"@)
            },
{
    let shells = seq!["/bin/bash"@, "/usr/bin/bash"@];
    let gettys = seq!["/sbin/agetty"@, "/usr/sbin/agetty"@];
    search_follows(run, root, shells);
    let (searched, bash) = run.first_existing(root, shells);
    let ready = match bash {
        Some(shell) => {
            root_shell_follows(searched, root, shell);
            searched.set_root_shell(root, shell)
        },
        None => searched,
    };
    securetty_follows(ready, root);
    let open = ready.ensure_securetty(root);
    search_follows(open, root, gettys);
    let (after, agetty) = open.first_existing(root, gettys);
    file_follows(after, root, GUEST_INITTAB@, encode_utf8(inittab_text(agetty)), 0o644);
    let end = run.set_up_console(root);
    if end.stop is None {
        assert(made(end, root, GUEST_INITTAB@, encode_utf8(inittab_text(agetty)), 0o644));
        if agetty is Some {
            a_search_finds(open, root, gettys);
            what_was_found_stays(after, end, root, gettys);
            let k = choose|k: int| 0 <= k < gettys.len() && gettys[k] == agetty->0;
            assert(k == 0 || k == 1);
        }
    }
}

proof fn check_follows(run: Run, root: Seq<char>)
    ensures
        follows(run.check(root), run),
{
    ask_follows(run, Question::Cancelled);
}

/// Whether a guest has the job table of the init, for a getty that was found in it, or for
/// none.
pub open spec fn has_job_table(run: Run, root: Seq<char>, agetty: Option<Seq<char>>) -> bool {
    &&& made(run, root, "/etc/inittab"@, encode_utf8(inittab_text(agetty)), 0o644)
    &&& agetty is Some ==> was_found(run, root, seq!["/sbin/agetty"@, "/usr/sbin/agetty"@]) && (
    agetty == Some("/sbin/agetty"@) || agetty == Some("/usr/sbin/agetty"@))
}

/// Whether a guest has each of the tools that a login shell is to find.
pub open spec fn has_all_tools(run: Run, root: Seq<char>, usr_bin: bool) -> bool {
    has_tools(
        run,
        root,
        seq!["ping"@, "ping6"@, "traceroute"@, "wget"@, "nc"@, "nslookup"@, "vi"@, "sh"@],
        usr_bin,
    )
}

/// What a finished injection has put into the guest: the toolbox as a program, the init as a
/// link to it, every tool that the image lacked as a link to it, the job table, the boot
/// script, the console, the banner, the hook of the DHCP client, the ssh service and the
/// metrics agent, the scripts and services with modes that let them run, and the directories
/// for mounts and services.
pub open spec fn injected(run: Run, root: Seq<char>, toolbox: Seq<char>, parts: GuestParts) -> bool {
    &&& copied(run, root, "/etc/firecrab/busybox"@, toolbox)
    &&& linked(run, root, "/sbin/init"@, "/etc/firecrab/busybox"@)
    &&& has_all_tools(run, root, true) || has_all_tools(run, root, false)
    &&& exists|agetty: Option<Seq<char>>| #[trigger] has_job_table(run, root, agetty)
    &&& made(
        run,
        root,
        "/etc/firecrab/rc.boot"@,
        encode_utf8(boot_text(parts.agent_path@)),
        0o755,
    )
    &&& made(run, root, "/etc/firecrab/rc.console"@, encode_utf8(console_text()), 0o755)
    &&& made(run, root, "/etc/motd"@, encode_utf8(parts.motd@), 0o644)
    &&& made(run, root, "/etc/firecrab/dhcp.script"@, encode_utf8(dhcp_text()), 0o755)
    &&& made(run, root, parts.sshd_path@, encode_utf8(parts.sshd_script@), 0o755)
    &&& made(run, root, parts.agent_path@, encode_utf8(parts.agent_script@), 0o755)
    &&& has_directory(run, root, "/proc"@, 0o755)
    &&& has_directory(run, root, "/sys"@, 0o755)
    &&& has_directory(run, root, "/dev"@, 0o755)
    &&& has_directory(run, root, "/run"@, 0o755)
    &&& has_directory(run, root, "/tmp"@, 0o1777)
    &&& has_directory(run, root, "/etc/firecrab/services.d"@, 0o755)
}

spec fn directories_stage(run: Run, root: Seq<char>) -> Run {
    run.check(root).ensure_directories(root, mount_points()).check(root).ensure_guest_directory(
        root,
        GUEST_SERVICES@,
        0o755,
    ).check(root)
}

spec fn toolbox_stage(run: Run, root: Seq<char>, toolbox: Seq<char>) -> Run {
    run.install_program(root, GUEST_TOOLBOX@, toolbox).install_symlink(
        root,
        GUEST_INIT@,
        GUEST_TOOLBOX@,
    ).install_toolbox_commands(root)
}

spec fn console_stage(run: Run, root: Seq<char>, parts: GuestParts) -> Run {
    run.install_fastfetch(root, parts).check(root).set_up_console(root)
}

spec fn scripts_stage(run: Run, root: Seq<char>, parts: GuestParts) -> Run {
    run.install_file(
        root,
        GUEST_BOOT_SCRIPT@,
        encode_utf8(boot_text(parts.agent_path@)),
        0o755,
    ).install_file(root, GUEST_CONSOLE_SCRIPT@, encode_utf8(console_text()), 0o755).install_file(
        root,
        GUEST_MOTD@,
        encode_utf8(parts.motd@),
        0o644,
    )
}

spec fn services_stage(run: Run, root: Seq<char>, parts: GuestParts) -> Run {
    run.install_file(root, GUEST_DHCP_SCRIPT@, encode_utf8(dhcp_text()), 0o755).install_file(
        root,
        parts.sshd_path@,
        encode_utf8(parts.sshd_script@),
        0o755,
    ).check(root).install_file(
        root,
        parts.agent_path@,
        encode_utf8(parts.agent_script@),
        0o755,
    )
}

proof fn directories_are_there(run: Run, root: Seq<char>)
    ensures
        follows(directories_stage(run, root), run),
        directories_stage(run, root).stop is None ==> {
            let end = directories_stage(run, root);
            &&& has_directory(end, root, "/proc"@, 0o755)
            &&& has_directory(end, root, "/sys"@, 0o755)
            &&& has_directory(end, root, "/dev"@, 0o755)
            &&& has_directory(end, root, "/run"@, 0o755)
            &&& has_directory(end, root, "/tmp"@, 0o1777)
            &&& has_directory(end, root, "/etc/firecrab/services.d"@, 0o755)
        },
{
    check_follows(run, root);
    let a = run.check(root);
    directories_follow(a, root, mount_points());
    let b = a.ensure_directories(root, mount_points());
    check_follows(b, root);
    let c = b.check(root);
    guest_directory_follows(c, root, GUEST_SERVICES@, 0o755);
    let d = c.ensure_guest_directory(root, GUEST_SERVICES@, 0o755);
    check_follows(d, root);
    let end = d.check(root);
    in_turn(c, d, end);
    in_turn(b, c, end);
    in_turn(a, b, end);
    in_turn(run, a, end);
    if end.stop is None {
        what_was_made_stays(b, end);
        what_was_made_stays(d, end);
        let wanted = mount_points();
        assert(wanted[0] == ("/proc"@, 0o755u32) && wanted[1] == ("/sys"@, 0o755u32));
        assert(wanted[2] == ("/dev"@, 0o755u32) && wanted[3] == ("/run"@, 0o755u32));
        assert(wanted[4] == ("/tmp"@, 0o1777u32));
    }
}

proof fn the_toolbox_is_there(run: Run, root: Seq<char>, toolbox: Seq<char>)
    ensures
        follows(toolbox_stage(run, root, toolbox), run),
        toolbox_stage(run, root, toolbox).stop is None ==> {
            let end = toolbox_stage(run, root, toolbox);
            &&& copied(end, root, "/etc/firecrab/busybox"@, toolbox)
            &&& linked(end, root, "/sbin/init"@, "/etc/firecrab/busybox"@)
            &&& has_tools(end, root, path_applets(), true) || has_tools(
                end,
                root,
                path_applets(),
                false,
            )
        },
{
    program_follows(run, root, GUEST_TOOLBOX@, toolbox);
    let f = run.install_program(root, GUEST_TOOLBOX@, toolbox);
    link_follows(f, root, GUEST_INIT@, GUEST_TOOLBOX@);
    let g = f.install_symlink(root, GUEST_INIT@, GUEST_TOOLBOX@);
    toolbox_follows(g, root);
    let end = g.install_toolbox_commands(root);
    in_turn(f, g, end);
    in_turn(run, f, end);
    if end.stop is None {
        what_was_copied_stays(f, end);
        what_was_made_stays(g, end);
    }
}

proof fn the_console_is_there(run: Run, root: Seq<char>, parts: GuestParts)
    ensures
        follows(console_stage(run, root, parts), run),
        console_stage(run, root, parts).stop is None ==> exists|agetty: Option<Seq<char>>|
            #[trigger]
            has_job_table(console_stage(run, root, parts), root, agetty),
{
    fastfetch_follows(run, root, parts);
    let i = run.install_fastfetch(root, parts);
    check_follows(i, root);
    let j = i.check(root);
    console_follows(j, root);
    let end = j.set_up_console(root);
    in_turn(i, j, end);
    in_turn(run, i, end);
    if end.stop is None {
        let agetty = choose|agetty: Option<Seq<char>>|
            {
                &&& #[trigger] made(
                    end,
                    root,
                    GUEST_INITTAB@,
                    encode_utf8(inittab_text(agetty)),
                    0o644,
                )
                &&& agetty matches Some(getty) ==> was_found(
                    end,
                    root,
                    seq!["/sbin/agetty"@, "/usr/sbin/agetty"@],
                ) && (getty == "/sbin/agetty"@ || getty == "/usr/sbin/agetty"@)
            };
        assert(has_job_table(end, root, agetty));
    }
}

proof fn the_scripts_are_there(run: Run, root: Seq<char>, parts: GuestParts)
    ensures
        follows(scripts_stage(run, root, parts), run),
        scripts_stage(run, root, parts).stop is None ==> {
            let end = scripts_stage(run, root, parts);
            &&& made(
                end,
                root,
                "/etc/firecrab/rc.boot"@,
                encode_utf8(boot_text(parts.agent_path@)),
                0o755,
            )
            &&& made(end, root, "/etc/firecrab/rc.console"@, encode_utf8(console_text()), 0o755)
            &&& made(end, root, "/etc/motd"@, encode_utf8(parts.motd@), 0o644)
        },
{
    let boot = encode_utf8(boot_text(parts.agent_path@));
    file_follows(run, root, GUEST_BOOT_SCRIPT@, boot, 0o755);
    let l = run.install_file(root, GUEST_BOOT_SCRIPT@, boot, 0o755);
    let console = encode_utf8(console_text());
    file_follows(l, root, GUEST_CONSOLE_SCRIPT@, console, 0o755);
    let m = l.install_file(root, GUEST_CONSOLE_SCRIPT@, console, 0o755);
    let motd = encode_utf8(parts.motd@);
    file_follows(m, root, GUEST_MOTD@, motd, 0o644);
    let end = m.install_file(root, GUEST_MOTD@, motd, 0o644);
    in_turn(l, m, end);
    in_turn(run, l, end);
    if end.stop is None {
        what_was_made_stays(l, end);
        what_was_made_stays(m, end);
    }
}

proof fn the_services_are_there(run: Run, root: Seq<char>, parts: GuestParts)
    ensures
        follows(services_stage(run, root, parts), run),
        services_stage(run, root, parts).stop is None ==> {
            let end = services_stage(run, root, parts);
            &&& made(end, root, "/etc/firecrab/dhcp.script"@, encode_utf8(dhcp_text()), 0o755)
            &&& made(end, root, parts.sshd_path@, encode_utf8(parts.sshd_script@), 0o755)
            &&& made(end, root, parts.agent_path@, encode_utf8(parts.agent_script@), 0o755)
        },
{
    let dhcp = encode_utf8(dhcp_text());
    file_follows(run, root, GUEST_DHCP_SCRIPT@, dhcp, 0o755);
    let o = run.install_file(root, GUEST_DHCP_SCRIPT@, dhcp, 0o755);
    let sshd = encode_utf8(parts.sshd_script@);
    file_follows(o, root, parts.sshd_path@, sshd, 0o755);
    let p = o.install_file(root, parts.sshd_path@, sshd, 0o755);
    check_follows(p, root);
    let q = p.check(root);
    let agent = encode_utf8(parts.agent_script@);
    file_follows(q, root, parts.agent_path@, agent, 0o755);
    let end = q.install_file(root, parts.agent_path@, agent, 0o755);
    in_turn(p, q, end);
    in_turn(o, p, end);
    in_turn(run, o, end);
    if end.stop is None {
        what_was_made_stays(o, end);
        what_was_made_stays(p, end);
    }
}

/// An injection that finishes has put its runtime into the guest, whatever it was answered.
#[verifier::rlimit(40)]
#[verifier::spinoff_prover]
pub proof fn a_finished_injection_has_its_runtime(
    answers: Seq<Answer>,
    root: Seq<char>,
    toolbox: Seq<char>,
    parts: GuestParts,
)
    requires
        Run::begin(answers).inject(root, toolbox, parts).stop is None,
    ensures
        injected(Run::begin(answers).inject(root, toolbox, parts), root, toolbox, parts),
{
    let run = Run::begin(answers);
    let end = run.inject(root, toolbox, parts);
    let a = directories_stage(run, root);
    let b = toolbox_stage(a, root, toolbox);
    let c = console_stage(b, root, parts);
    let d = scripts_stage(c, root, parts);
    assert(end == services_stage(d, root, parts));
    directories_are_there(run, root);
    the_toolbox_is_there(a, root, toolbox);
    the_console_is_there(b, root, parts);
    the_scripts_are_there(c, root, parts);
    the_services_are_there(d, root, parts);
    in_turn(c, d, end);
    in_turn(b, c, end);
    in_turn(a, b, end);
    what_was_made_stays(a, end);
    what_was_made_stays(b, end);
    what_was_made_stays(c, end);
    what_was_made_stays(d, end);
    what_was_copied_stays(b, end);
    if has_tools(b, root, path_applets(), true) {
        tools_stay(b, end, root, path_applets(), true);
    } else {
        tools_stay(b, end, root, path_applets(), false);
    }
    let agetty = choose|agetty: Option<Seq<char>>| #[trigger] has_job_table(c, root, agetty);
    if agetty is Some {
        what_was_found_stays(c, end, root, seq!["/sbin/agetty"@, "/usr/sbin/agetty"@]);
    }
    assert(has_job_table(end, root, agetty));
}

proof fn tools_stay(
    before: Run,
    after: Run,
    root: Seq<char>,
    applets: Seq<Seq<char>>,
    usr_bin: bool,
)
    requires
        follows(after, before),
        has_tools(before, root, applets, usr_bin),
    ensures
        has_tools(after, root, applets, usr_bin),
{
    what_was_made_stays(before, after);
    assert forall|i: int| 0 <= i < applets.len() implies was_found(
        after,
        root,
        applet_paths(#[trigger] applets[i]),
    ) || linked(after, root, link_path(usr_bin, applets[i]), GUEST_TOOLBOX@) by {
        if was_found(before, root, applet_paths(applets[i])) {
            what_was_found_stays(before, after, root, applet_paths(applets[i]));
        }
    }
}

/// Where no component of a path turns out to be a link, the path is found just where it is
/// written: its directory has the components that were to be walked.
pub proof fn a_path_without_links_is_taken_as_written(
    run: Run,
    root: Seq<char>,
    guest: Seq<char>,
    pending: Seq<Seq<char>>,
    resolved: Seq<Seq<char>>,
    left: nat,
)
    requires
        forall|i: int| 0 <= i < run.answers.len() ==> !(#[trigger] run.answers[i] is Link),
        forall|i: int| 0 <= i < pending.len() ==> #[trigger] pending[i] != ".."@,
        run.at >= 0,
        run.walk(root, guest, pending, resolved, left).0.stop is None,
    ensures
        run.walk(root, guest, pending, resolved, left).1 == resolved + pending,
    decreases pending.len(),
{
    if run.stop is Some || pending.len() == 0 {
        assert(resolved + pending =~= resolved);
    } else {
        let candidate = resolved.push(pending[0]);
        let rest = pending.skip(1);
        let absolute = place(root, candidate);
        let (after, answer) = run.ask(Question::Inspect(absolute));
        assert(pending[0] != ".."@);
        assert forall|i: int| 0 <= i < rest.len() implies #[trigger] rest[i] != ".."@ by {
            assert(rest[i] == pending[i + 1]);
        }
        assert(candidate + rest =~= resolved + pending);
        match answer {
            Answer::Directory { .. } => {
                a_path_without_links_is_taken_as_written(
                    after,
                    root,
                    guest,
                    rest,
                    candidate,
                    left,
                );
            },
            Answer::Missing => {
                a_path_without_links_is_taken_as_written(
                    after.create_directory(absolute, 0o755),
                    root,
                    guest,
                    rest,
                    candidate,
                    left,
                );
            },
            _ => {},
        }
    }
}

} // verus!
