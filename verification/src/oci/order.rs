//! The changes of an injection do not get into each other's way.

use vstd::prelude::*;

#[allow(unused_imports)]
use super::laws::{
    change_of, changed, changed_by_one_more, deeds, honest, left_behind, making, orderly, truthful,
    Change, Node, Remains, Tree,
};
#[allow(unused_imports)]
use super::provision::{
    applet_paths, backup_name, below, boot_text, console_text, dhcp_text, guest_name, guest_parent,
    inittab_text, is_absolute, last_dot, link_path, mount_points, name_start,
    path_applets, place, stem, steps, with_root_shell, with_serial_console, Answer, GuestParts,
    Question, Run, GUEST_BOOT_SCRIPT, GUEST_CONSOLE_SCRIPT, GUEST_DHCP_SCRIPT, GUEST_INIT,
    GUEST_INITTAB, GUEST_MOTD, GUEST_SERVICES, GUEST_TOOLBOX, SYMLINK_HOP_LIMIT,
};
#[allow(unused_imports)]
use crate::path::join;
#[allow(unused_imports)]
use crate::text::{contains, occurs_at, split, views};
#[allow(unused_imports)]
use vstd::utf8::encode_utf8;

verus! {

/// Whether a name has the mark of something that was moved aside.
pub open spec fn marked(name: Seq<char>) -> bool {
    contains(name, ".firecrab-"@)
}

/// The last names of the toolbox and of what is linked to it.
pub open spec fn toolbox_names() -> Seq<Seq<char>> {
    seq![guest_name(GUEST_TOOLBOX@), guest_name(GUEST_INIT@)] + path_applets()
}

/// The last name of the system summary, where there is one.
pub open spec fn summary_names(parts: GuestParts) -> Seq<Seq<char>> {
    if parts.fastfetch is Some {
        seq![guest_name(parts.fastfetch_path@)]
    } else {
        Seq::empty()
    }
}

/// The last names of the files that the console needs.
pub open spec fn console_names() -> Seq<Seq<char>> {
    seq!["passwd"@, "securetty"@, guest_name(GUEST_INITTAB@)]
}

/// The last names of the scripts.
pub open spec fn script_names(parts: GuestParts) -> Seq<Seq<char>> {
    seq![
        guest_name(GUEST_BOOT_SCRIPT@),
        guest_name(GUEST_CONSOLE_SCRIPT@),
        guest_name(GUEST_MOTD@),
        guest_name(GUEST_DHCP_SCRIPT@),
        guest_name(parts.sshd_path@),
        guest_name(parts.agent_path@),
    ]
}

/// The last names of the files and links that an injection puts into a guest.
pub open spec fn injected_names(parts: GuestParts) -> Seq<Seq<char>> {
    toolbox_names() + summary_names(parts) + console_names() + script_names(parts)
}

/// The last names of what every injection puts into a guest.
pub open spec fn fixed_names() -> Seq<Seq<char>> {
    seq![
        "busybox"@,
        "init"@,
        "ping"@,
        "ping6"@,
        "traceroute"@,
        "wget"@,
        "nc"@,
        "nslookup"@,
        "vi"@,
        "sh"@,
        "passwd"@,
        "securetty"@,
        "inittab"@,
        "rc.boot"@,
        "rc.console"@,
        "motd"@,
        "dhcp.script"@,
    ]
}

/// The last names of the parts.
pub open spec fn part_names(parts: GuestParts) -> Seq<Seq<char>> {
    summary_names(parts) + seq![guest_name(parts.sshd_path@), guest_name(parts.agent_path@)]
}

/// Whether the last names of the parts differ from each other, from those of what every
/// injection puts into a guest, and from the names of what is moved aside.
pub open spec fn names_differ(parts: GuestParts) -> bool {
    &&& part_names(parts).no_duplicates()
    &&& forall|i: int|
        0 <= i < part_names(parts).len() ==> !marked(#[trigger] part_names(parts)[i])
            && !fixed_names().contains(part_names(parts)[i])
}

pub(crate) proof fn name_behind(front: Seq<char>, name: Seq<char>)
    requires
        front.len() == 0 || front.last() == '/',
        !name.contains('/'),
    ensures
        name_start(front + name) == front.len(),
        guest_name(front + name) == name,
    decreases name.len(),
{
    let whole = front + name;
    if name.len() == 0 {
        assert(whole =~= front);
    } else {
        assert(whole.last() == name[name.len() - 1]);
        assert(whole.drop_last() =~= front + name.drop_last());
        assert forall|c: char| name.drop_last().contains(c) implies name.contains(c) by {
            let i = choose|i: int| 0 <= i < name.drop_last().len() && name.drop_last()[i] == c;
            assert(name[i] == c);
        }
        name_behind(front, name.drop_last());
    }
    assert(whole.skip(front.len() as int) =~= name);
}

pub(crate) proof fn names_hold_no_separator(guest: Seq<char>)
    ensures
        0 <= name_start(guest) <= guest.len(),
        !guest_name(guest).contains('/'),
    decreases guest.len(),
{
    if guest.len() == 0 || guest.last() == '/' {
        assert(guest_name(guest) =~= Seq::empty());
    } else {
        names_hold_no_separator(guest.drop_last());
        let before = guest_name(guest.drop_last());
        assert(guest_name(guest) =~= before.push(guest.last()));
        if guest_name(guest).contains('/') {
            let i = choose|i: int| 0 <= i < guest_name(guest).len() && guest_name(guest)[i] == '/';
            assert(before[i] == '/');
        }
    }
}

pub(crate) proof fn name_in_place(root: Seq<char>, components: Seq<Seq<char>>, name: Seq<char>)
    requires
        !name.contains('/'),
    ensures
        guest_name(place(root, components.push(name))) == name,
{
    assert(components.push(name).drop_last() =~= components);
    let base = place(root, components);
    if name.len() > 0 && name[0] == '/' {
        assert(name.contains('/'));
    } else if base.len() == 0 || base.last() == '/' {
        name_behind(base, name);
    } else {
        reveal_strlit("/");
        name_behind(base + "/"@, name);
    }
}

proof fn marks(name: Seq<char>, token: Seq<char>)
    requires
        !name.contains('/'),
        !token.contains('/'),
    ensures
        marked(backup_name(name, token)),
        !backup_name(name, token).contains('/'),
{
    reveal_strlit(".firecrab-");
    let whole = backup_name(name, token);
    let front = stem(name);
    let mark = ".firecrab-"@;
    last_dot_bounds(name);
    assert(whole.subrange(front.len() as int, (front.len() + mark.len()) as int) =~= mark);
    assert(occurs_at(whole, mark, front.len() as int));
    if whole.contains('/') {
        let i = choose|i: int| 0 <= i < whole.len() && whole[i] == '/';
        if i < front.len() {
            assert(name[i] == '/');
        } else if i < front.len() + mark.len() {
            assert(mark[i - front.len()] == '/');
        } else {
            assert(token[i - front.len() - mark.len()] == '/');
        }
    }
}

proof fn last_dot_bounds(name: Seq<char>)
    ensures
        -1 <= last_dot(name) < name.len(),
    decreases name.len(),
{
    if name.len() > 0 && name.last() != '.' {
        last_dot_bounds(name.drop_last());
    }
}

/// Whether a path ends in the mark of something that was moved aside under `token`.
pub open spec fn carries(path: Seq<char>, token: Seq<char>) -> bool {
    exists|at: int|
        0 <= at <= path.len() && #[trigger] path.skip(at) == ".firecrab-"@ + token
}

proof fn backups_carry(root: Seq<char>, parent: Seq<Seq<char>>, name: Seq<char>, token: Seq<char>)
    requires
        !name.contains('/'),
        !token.contains('/'),
    ensures
        carries(place(root, parent.push(backup_name(name, token))), token),
{
    let last = backup_name(name, token);
    let whole = place(root, parent.push(last));
    marks(name, token);
    assert(parent.push(last).drop_last() =~= parent);
    if last.len() > 0 && last[0] == '/' {
        assert(last.contains('/'));
    }
    let tail = ".firecrab-"@ + token;
    assert(whole.skip(whole.len() - tail.len()) =~= tail);
}

/// How a change shows in the tree while a run goes on. At `hole`, if there is one, what was
/// moved aside was not made anew yet.
spec fn kept(tree: Tree, change: Change, used: Seq<Seq<char>>, hole: Option<Seq<char>>) -> bool {
    match change {
        Change::Created { path, .. } => {
            &&& tree.contains_key(path)
            &&& tree[path] is Directory || used.contains(guest_name(path))
        },
        Change::Attempted { .. } => false,
        Change::Displaced { backup, original } => {
            &&& tree.contains_key(backup) && !(tree[backup] is Directory)
            &&& marked(guest_name(backup))
            &&& used.contains(guest_name(original)) && !marked(guest_name(original))
            &&& hole == Some(original) || tree.contains_key(original) && !(
            tree[original] is Directory)
        },
        Change::Rewritten { path, .. } => {
            &&& tree.contains_key(path) && tree[path] is File
            &&& used.contains(guest_name(path))
        },
        Change::Chmodded { path, .. } => tree.contains_key(path) && tree[path] is Directory,
    }
}

/// [`kept`] of all changes.
spec fn settled(
    tree: Tree,
    changes: Seq<Change>,
    used: Seq<Seq<char>>,
    hole: Option<Seq<char>>,
) -> bool {
    forall|i: int| 0 <= i < changes.len() ==> kept(tree, #[trigger] changes[i], used, hole)
}

/// Whether no change so far is in the way of another, and those to come need only mind the
/// names used.
spec fn ordered(
    tree: Tree,
    remains: Remains,
    run: Run,
    used: Seq<Seq<char>>,
    hole: Option<Seq<char>>,
) -> bool {
    honest(tree, remains, run.trace) ==> {
        &&& orderly(tree, deeds(tree, remains, run.trace))
        &&& run.stop is None ==> settled(
            left_behind(tree, remains, run.trace),
            deeds(tree, remains, run.trace),
            used,
            hole,
        )
    }
}

/// Whether a name can be used next.
spec fn fresh(used: Seq<Seq<char>>, name: Seq<char>) -> bool {
    !used.contains(name) && !marked(name)
}

proof fn one_more_in_order(tree: Tree, changes: Seq<Change>, next: Change)
    requires
        orderly(tree, changes),
        next.applies(changed(tree, changes)),
        forall|i: int| 0 <= i < changes.len() ==> (#[trigger] changes[i]).apart(next),
    ensures
        orderly(tree, changes.push(next)),
    decreases changes.len(),
{
    let all = changes.push(next);
    if changes.len() == 0 {
        assert(all.skip(1) =~= Seq::empty());
        assert(orderly(next.apply(tree), all.skip(1)));
    } else {
        let rest = changes.skip(1);
        assert(all.skip(1) =~= rest.push(next));
        assert forall|i: int| 0 <= i < rest.len() implies (#[trigger] rest[i]).apart(next) by {
            assert(rest[i] == changes[i + 1]);
        }
        one_more_in_order(changes[0].apply(tree), rest, next);
        assert forall|i: int| 1 <= i < all.len() implies changes[0].apart(#[trigger] all[i]) by {
            if i < changes.len() {
                assert(all[i] == changes[i]);
            }
        }
    }
}

proof fn names_stay_used(used: Seq<Seq<char>>, name: Seq<char>)
    ensures
        used.push(name).contains(name),
        forall|n: Seq<char>| used.contains(n) ==> #[trigger] used.push(name).contains(n),
{
    let more = used.push(name);
    assert(more[used.len() as int] == name);
    assert forall|n: Seq<char>| used.contains(n) implies #[trigger] more.contains(n) by {
        let i = choose|i: int| 0 <= i < used.len() && used[i] == n;
        assert(more[i] == n);
    }
}

/// More names may count as used.
proof fn more_used(
    tree: Tree,
    remains: Remains,
    run: Run,
    used: Seq<Seq<char>>,
    name: Seq<char>,
)
    requires
        ordered(tree, remains, run, used, None),
    ensures
        ordered(tree, remains, run, used.push(name), None),
{
    names_stay_used(used, name);
    let here = left_behind(tree, remains, run.trace);
    let changes = deeds(tree, remains, run.trace);
    if settled(here, changes, used, None) {
        assert forall|i: int| 0 <= i < changes.len() implies kept(
            here,
            #[trigger] changes[i],
            used.push(name),
            None,
        ) by {
            assert(kept(here, changes[i], used, None));
        }
    }
}

/// Something is made where nothing was.
proof fn making_in_order(
    tree: Tree,
    changes: Seq<Change>,
    used: Seq<Seq<char>>,
    hole: Option<Seq<char>>,
    path: Seq<char>,
    node: Option<Node>,
)
    requires
        settled(tree, changes, used, hole),
        hole is None || hole == Some(path),
        !tree.contains_key(path),
    ensures
        making(path, node).applies(tree),
        forall|i: int|
            0 <= i < changes.len() ==> (#[trigger] changes[i]).apart(making(path, node)),
        node matches Some(Node::Directory { .. }) ==> hole is None ==> settled(
            making(path, node).apply(tree),
            changes.push(making(path, node)),
            used,
            None,
        ),
        node is Some && !(node->Some_0 is Directory) && used.contains(guest_name(path)) ==> settled(
            making(path, node).apply(tree),
            changes.push(making(path, node)),
            used,
            None,
        ),
{
    let change = making(path, node);
    let after = change.apply(tree);
    let all = changes.push(change);
    assert forall|i: int| 0 <= i < changes.len() implies (#[trigger] changes[i]).apart(change) by {
        assert(kept(tree, changes[i], used, hole));
    }
    if node is Some && (node->Some_0 is Directory && hole is None || !(node->Some_0 is Directory)
        && used.contains(guest_name(path))) {
        assert forall|i: int| 0 <= i < all.len() implies kept(
            after,
            #[trigger] all[i],
            used,
            None,
        ) by {
            if i < changes.len() {
                assert(kept(tree, changes[i], used, hole));
            }
        }
    }
}

/// A directory gets another mode.
proof fn chmod_in_order(
    tree: Tree,
    changes: Seq<Change>,
    used: Seq<Seq<char>>,
    path: Seq<char>,
    mode: u32,
)
    requires
        settled(tree, changes, used, None),
        tree.contains_key(path) && tree[path] is Directory,
    ensures
        (Change::Chmodded { path, mode }).applies(tree),
        forall|i: int|
            0 <= i < changes.len() ==> (#[trigger] changes[i]).apart(
                Change::Chmodded { path, mode },
            ),
        settled(
            (Change::Chmodded { path, mode }).apply(tree),
            changes.push(Change::Chmodded { path, mode }),
            used,
            None,
        ),
{
    let change = Change::Chmodded { path, mode };
    let after = change.apply(tree);
    let all = changes.push(change);
    assert forall|i: int| 0 <= i < changes.len() implies (#[trigger] changes[i]).apart(change) by {
        assert(kept(tree, changes[i], used, None));
    }
    assert forall|i: int| 0 <= i < all.len() implies kept(after, #[trigger] all[i], used, None) by {
        if i < changes.len() {
            assert(kept(tree, changes[i], used, None));
        }
    }
}

/// A file is written anew.
proof fn rewrite_in_order(
    tree: Tree,
    changes: Seq<Change>,
    used: Seq<Seq<char>>,
    path: Seq<char>,
    contents: Seq<u8>,
)
    requires
        settled(tree, changes, used, None),
        tree.contains_key(path) && tree[path] is File,
        fresh(used, guest_name(path)),
    ensures
        (Change::Rewritten { path, contents }).applies(tree),
        forall|i: int|
            0 <= i < changes.len() ==> (#[trigger] changes[i]).apart(
                Change::Rewritten { path, contents },
            ),
        settled(
            (Change::Rewritten { path, contents }).apply(tree),
            changes.push(Change::Rewritten { path, contents }),
            used.push(guest_name(path)),
            None,
        ),
{
    let change = Change::Rewritten { path, contents };
    let after = change.apply(tree);
    let all = changes.push(change);
    names_stay_used(used, guest_name(path));
    assert forall|i: int| 0 <= i < changes.len() implies (#[trigger] changes[i]).apart(change) by {
        assert(kept(tree, changes[i], used, None));
    }
    assert forall|i: int| 0 <= i < all.len() implies kept(
        after,
        #[trigger] all[i],
        used.push(guest_name(path)),
        None,
    ) by {
        if i < changes.len() {
            assert(kept(tree, changes[i], used, None));
        }
    }
}

/// A file or link is moved aside.
proof fn displacing_in_order(
    tree: Tree,
    changes: Seq<Change>,
    used: Seq<Seq<char>>,
    backup: Seq<char>,
    original: Seq<char>,
)
    requires
        settled(tree, changes, used, None),
        tree.contains_key(original) && !(tree[original] is Directory),
        fresh(used, guest_name(original)),
        !tree.contains_key(backup),
        marked(guest_name(backup)),
    ensures
        (Change::Displaced { backup, original }).applies(tree),
        forall|i: int|
            0 <= i < changes.len() ==> (#[trigger] changes[i]).apart(
                Change::Displaced { backup, original },
            ),
        settled(
            (Change::Displaced { backup, original }).apply(tree),
            changes.push(Change::Displaced { backup, original }),
            used.push(guest_name(original)),
            Some(original),
        ),
        !(Change::Displaced { backup, original }).apply(tree).contains_key(original),
{
    let change = Change::Displaced { backup, original };
    let after = change.apply(tree);
    let all = changes.push(change);
    names_stay_used(used, guest_name(original));
    assert forall|i: int| 0 <= i < changes.len() implies (#[trigger] changes[i]).apart(change) by {
        assert(kept(tree, changes[i], used, None));
    }
    assert forall|i: int| 0 <= i < all.len() implies kept(
        after,
        #[trigger] all[i],
        used.push(guest_name(original)),
        Some(original),
    ) by {
        if i < changes.len() {
            assert(kept(tree, changes[i], used, None));
        }
    }
}

/// What one answer adds to the changes.
proof fn one_answer_in_order(
    tree: Tree,
    remains: Remains,
    run: Run,
    question: Question,
    used: Seq<Seq<char>>,
    hole: Option<Seq<char>>,
)
    requires
        ordered(tree, remains, run, used, hole),
    ensures
        ({
            let (after, answer) = run.ask(question);
            let here = left_behind(tree, remains, run.trace);
            let changes = deeds(tree, remains, run.trace);
            &&& after.stop is Some ==> ordered(tree, remains, after, used, hole)
            &&& after.stop is None ==> run.stop is None && after.trace == run.trace.push(
                (question, answer),
            )
            &&& after.stop is None && change_of(here, remains, question, answer) is None
                ==> ordered(tree, remains, after, used, hole)
            &&& after.stop is None && honest(tree, remains, after.trace) ==> {
                &&& honest(tree, remains, run.trace)
                &&& truthful(here, question, answer)
                &&& orderly(tree, changes)
                &&& settled(here, changes, used, hole)
                &&& change_of(here, remains, question, answer) is None ==> left_behind(
                    tree,
                    remains,
                    after.trace,
                ) == here
                &&& change_of(here, remains, question, answer) matches Some(change) ==> {
                    &&& deeds(tree, remains, after.trace) == changes.push(change)
                    &&& left_behind(tree, remains, after.trace) == change.apply(here)
                    &&& change.applies(here) && (forall|i: int|
                        0 <= i < changes.len() ==> (#[trigger] changes[i]).apart(change))
                        ==> orderly(tree, changes.push(change))
                }
            }
        }),
{
    let (after, answer) = run.ask(question);
    if after.stop is None {
        let all = after.trace;
        assert(all.drop_last() =~= run.trace);
        let before = deeds(tree, remains, run.trace);
        if honest(tree, remains, all) {
            match change_of(changed(tree, before), remains, question, answer) {
                Some(change) => {
                    changed_by_one_more(tree, before, change, super::provision::Log::empty());
                    if change.applies(changed(tree, before)) && (forall|i: int|
                        0 <= i < before.len() ==> (#[trigger] before[i]).apart(change)) {
                        one_more_in_order(tree, before, change);
                    }
                },
                None => {},
            }
        }
    }
}

proof fn directory_in_order(
    tree: Tree,
    remains: Remains,
    run: Run,
    path: Seq<char>,
    mode: u32,
    used: Seq<Seq<char>>,
)
    requires
        ordered(tree, remains, run, used, None),
        run.stop is None && honest(tree, remains, run.trace) ==> !left_behind(
            tree,
            remains,
            run.trace,
        ).contains_key(path),
    ensures
        ordered(tree, remains, run.create_directory(path, mode), used, None),
{
    let question = Question::CreateDir { path, mode };
    one_answer_in_order(tree, remains, run, question, used, None);
    let (after, answer) = run.ask(question);
    if after.stop is None && honest(tree, remains, after.trace) {
        let here = left_behind(tree, remains, run.trace);
        let changes = deeds(tree, remains, run.trace);
        making_in_order(here, changes, used, None, path, Some(Node::Directory { mode }));
        making_in_order(here, changes, used, None, path, remains(question));
    }
}

proof fn walk_in_order(
    tree: Tree,
    remains: Remains,
    run: Run,
    root: Seq<char>,
    guest: Seq<char>,
    pending: Seq<Seq<char>>,
    resolved: Seq<Seq<char>>,
    left: nat,
    used: Seq<Seq<char>>,
)
    requires
        ordered(tree, remains, run, used, None),
    ensures
        ordered(tree, remains, run.walk(root, guest, pending, resolved, left).0, used, None),
    decreases left, pending.len(),
{
    if run.stop is Some || pending.len() == 0 {
    } else if pending[0] == ".."@ {
        let up = if resolved.len() > 0 {
            resolved.drop_last()
        } else {
            resolved
        };
        walk_in_order(tree, remains, run, root, guest, pending.skip(1), up, left, used);
    } else {
        let candidate = resolved.push(pending[0]);
        let absolute = place(root, candidate);
        one_answer_in_order(tree, remains, run, Question::Inspect(absolute), used, None);
        let (after, answer) = run.ask(Question::Inspect(absolute));
        match answer {
            Answer::Directory { .. } => {
                walk_in_order(
                    tree,
                    remains,
                    after,
                    root,
                    guest,
                    pending.skip(1),
                    candidate,
                    left,
                    used,
                );
            },
            Answer::Link => {
                if left > 0 {
                    let reading = Question::ReadLink(absolute);
                    one_answer_in_order(tree, remains, after, reading, used, None);
                    let (read, answer) = after.ask(reading);
                    if let Answer::Text(target) = answer {
                        walk_in_order(
                            tree,
                            remains,
                            read,
                            root,
                            guest,
                            steps(split(target@, '/')) + pending.skip(1),
                            if is_absolute(target@) {
                                Seq::empty()
                            } else {
                                resolved
                            },
                            (left - 1) as nat,
                            used,
                        );
                    }
                }
            },
            Answer::Missing => {
                directory_in_order(tree, remains, after, absolute, 0o755, used);
                walk_in_order(
                    tree,
                    remains,
                    after.create_directory(absolute, 0o755),
                    root,
                    guest,
                    pending.skip(1),
                    candidate,
                    left,
                    used,
                );
            },
            _ => {},
        }
    }
}

proof fn parent_in_order(
    tree: Tree,
    remains: Remains,
    run: Run,
    root: Seq<char>,
    guest: Seq<char>,
    used: Seq<Seq<char>>,
)
    requires
        ordered(tree, remains, run, used, None),
    ensures
        ordered(tree, remains, run.resolve_parent(root, guest).0, used, None),
{
    walk_in_order(
        tree,
        remains,
        run,
        root,
        guest,
        guest_parent(guest),
        Seq::empty(),
        SYMLINK_HOP_LIMIT as nat,
        used,
    );
}

/// Unlocking a directory leaves in place what is no directory.
proof fn unlocking_in_order(
    tree: Tree,
    remains: Remains,
    run: Run,
    parent: Seq<char>,
    used: Seq<Seq<char>>,
    other: Seq<char>,
)
    requires
        ordered(tree, remains, run, used, None),
    ensures
        ({
            let after = run.ensure_writable(parent);
            let before = left_behind(tree, remains, run.trace);
            &&& ordered(tree, remains, after, used, None)
            &&& after.stop is None && honest(tree, remains, after.trace) ==> {
                let here = left_behind(tree, remains, after.trace);
                &&& run.stop is None && honest(tree, remains, run.trace)
                &&& before.contains_key(other) && !(before[other] is Directory)
                    ==> here.contains_key(other) && !(here[other] is Directory)
            }
        }),
{
    one_answer_in_order(tree, remains, run, Question::Inspect(parent), used, None);
    let (after, answer) = run.ask(Question::Inspect(parent));
    if let Answer::Directory { mode } = answer {
        if mode & 0o200 == 0 {
            let unlock = Question::SetMode { path: parent, mode: mode | 0o200 };
            one_answer_in_order(tree, remains, after, unlock, used, None);
            let (unlocked, done) = after.ask(unlock);
            if unlocked.stop is None && honest(tree, remains, unlocked.trace) && done is Done {
                let here = left_behind(tree, remains, after.trace);
                let changes = deeds(tree, remains, after.trace);
                chmod_in_order(here, changes, used, parent, mode | 0o200);
            }
        }
    }
}

proof fn guest_directory_in_order(
    tree: Tree,
    remains: Remains,
    run: Run,
    root: Seq<char>,
    guest: Seq<char>,
    mode: u32,
    used: Seq<Seq<char>>,
)
    requires
        ordered(tree, remains, run, used, None),
    ensures
        ordered(tree, remains, run.ensure_guest_directory(root, guest, mode), used, None),
{
    parent_in_order(tree, remains, run, root, guest, used);
    let (found, parent) = run.resolve_parent(root, guest);
    let destination = place(root, parent.push(guest_name(guest)));
    one_answer_in_order(tree, remains, found, Question::Inspect(destination), used, None);
    let (after, answer) = found.ask(Question::Inspect(destination));
    if answer is Missing {
        directory_in_order(tree, remains, after, destination, mode, used);
    }
}

/// Whether a run can make something at `path` next.
spec fn cleared(
    tree: Tree,
    remains: Remains,
    run: Run,
    used: Seq<Seq<char>>,
    path: Seq<char>,
) -> bool {
    &&& ordered(tree, remains, run, used, Some(path))
    &&& run.stop is None && honest(tree, remains, run.trace) ==> !left_behind(
        tree,
        remains,
        run.trace,
    ).contains_key(path)
}

proof fn displace_in_order(
    tree: Tree,
    remains: Remains,
    run: Run,
    root: Seq<char>,
    parent: Seq<Seq<char>>,
    guest: Seq<char>,
    used: Seq<Seq<char>>,
)
    requires
        ordered(tree, remains, run, used, None),
        fresh(used, guest_name(guest)),
    ensures
        cleared(
            tree,
            remains,
            run.displace(root, parent, guest),
            used.push(guest_name(guest)),
            place(root, parent.push(guest_name(guest))),
        ),
{
    let name = guest_name(guest);
    let more = used.push(name);
    let destination = place(root, parent.push(name));
    names_hold_no_separator(guest);
    name_in_place(root, parent, name);
    let question = Question::Inspect(destination);
    one_answer_in_order(tree, remains, run, question, used, None);
    let (after, answer) = run.ask(question);
    if answer is Link || answer is Other {
        unlocking_in_order(tree, remains, after, place(root, parent), used, destination);
        let unlocked = after.ensure_writable(place(root, parent));
        one_answer_in_order(tree, remains, unlocked, Question::Token, used, None);
        let (named, text) = unlocked.ask(Question::Token);
        if let Answer::Text(token) = text {
            let backup = place(root, parent.push(backup_name(name, token@)));
            let moving = Question::Rename { from: destination, to: backup };
            one_answer_in_order(tree, remains, named, moving, used, None);
            let (moved, done) = named.ask(moving);
            if moved.stop is None && honest(tree, remains, moved.trace) && done is Done {
                let here = left_behind(tree, remains, named.trace);
                let changes = deeds(tree, remains, named.trace);
                marks(name, token@);
                name_in_place(root, parent, backup_name(name, token@));
                backups_carry(root, parent, name, token@);
                displacing_in_order(here, changes, used, backup, destination);
            }
        }
    }
    widened(tree, remains, run.displace(root, parent, guest), used, name, destination);
}

/// Where nothing was moved aside, one more name may count as used.
proof fn widened(
    tree: Tree,
    remains: Remains,
    run: Run,
    used: Seq<Seq<char>>,
    name: Seq<char>,
    hole: Seq<char>,
)
    ensures
        ordered(tree, remains, run, used, None) ==> ordered(
            tree,
            remains,
            run,
            used.push(name),
            Some(hole),
        ),
{
    if ordered(tree, remains, run, used, None) {
        more_used(tree, remains, run, used, name);
        let here = left_behind(tree, remains, run.trace);
        let changes = deeds(tree, remains, run.trace);
        if settled(here, changes, used.push(name), None) {
            assert forall|i: int| 0 <= i < changes.len() implies kept(
                here,
                #[trigger] changes[i],
                used.push(name),
                Some(hole),
            ) by {
                assert(kept(here, changes[i], used.push(name), None));
            }
        }
    }
}

proof fn room_in_order(
    tree: Tree,
    remains: Remains,
    run: Run,
    root: Seq<char>,
    guest: Seq<char>,
    used: Seq<Seq<char>>,
)
    requires
        ordered(tree, remains, run, used, None),
        fresh(used, guest_name(guest)),
    ensures
        cleared(
            tree,
            remains,
            run.make_room(root, guest).0,
            used.push(guest_name(guest)),
            run.make_room(root, guest).1,
        ),
        guest_name(run.make_room(root, guest).1) == guest_name(guest),
{
    parent_in_order(tree, remains, run, root, guest, used);
    let (after, parent) = run.resolve_parent(root, guest);
    names_hold_no_separator(guest);
    name_in_place(root, parent, guest_name(guest));
    unlocking_in_order(tree, remains, after, place(root, parent), used, Seq::empty());
    displace_in_order(
        tree,
        remains,
        after.ensure_writable(place(root, parent)),
        root,
        parent,
        guest,
        used,
    );
}

proof fn file_in_order(
    tree: Tree,
    remains: Remains,
    run: Run,
    root: Seq<char>,
    guest: Seq<char>,
    contents: Seq<u8>,
    mode: u32,
    used: Seq<Seq<char>>,
)
    requires
        ordered(tree, remains, run, used, None),
        fresh(used, guest_name(guest)),
    ensures
        ordered(
            tree,
            remains,
            run.install_file(root, guest, contents, mode),
            used.push(guest_name(guest)),
            None,
        ),
{
    let more = used.push(guest_name(guest));
    room_in_order(tree, remains, run, root, guest, used);
    names_stay_used(used, guest_name(guest));
    let (ready, path) = run.make_room(root, guest);
    let question = Question::CreateFile { path, contents, mode };
    one_answer_in_order(tree, remains, ready, question, more, Some(path));
    let (after, answer) = ready.ask(question);
    if after.stop is None && honest(tree, remains, after.trace) {
        let here = left_behind(tree, remains, ready.trace);
        let changes = deeds(tree, remains, ready.trace);
        making_in_order(
            here,
            changes,
            more,
            Some(path),
            path,
            Some(Node::File { contents, mode }),
        );
        making_in_order(here, changes, more, Some(path), path, remains(question));
    }
}

proof fn program_in_order(
    tree: Tree,
    remains: Remains,
    run: Run,
    root: Seq<char>,
    guest: Seq<char>,
    source: Seq<char>,
    used: Seq<Seq<char>>,
)
    requires
        ordered(tree, remains, run, used, None),
        fresh(used, guest_name(guest)),
    ensures
        ordered(
            tree,
            remains,
            run.install_program(root, guest, source),
            used.push(guest_name(guest)),
            None,
        ),
{
    one_answer_in_order(tree, remains, run, Question::ReadFile(source), used, None);
    let (after, answer) = run.ask(Question::ReadFile(source));
    if let Answer::Bytes(contents) = answer {
        file_in_order(tree, remains, after, root, guest, contents@, 0o755, used);
    } else {
        more_used(tree, remains, after, used, guest_name(guest));
    }
}

proof fn link_in_order(
    tree: Tree,
    remains: Remains,
    run: Run,
    root: Seq<char>,
    guest: Seq<char>,
    target: Seq<char>,
    used: Seq<Seq<char>>,
)
    requires
        ordered(tree, remains, run, used, None),
        fresh(used, guest_name(guest)),
    ensures
        ordered(
            tree,
            remains,
            run.install_symlink(root, guest, target),
            used.push(guest_name(guest)),
            None,
        ),
{
    let more = used.push(guest_name(guest));
    room_in_order(tree, remains, run, root, guest, used);
    names_stay_used(used, guest_name(guest));
    let (ready, path) = run.make_room(root, guest);
    let question = Question::CreateLink { target, path };
    one_answer_in_order(tree, remains, ready, question, more, Some(path));
    let (after, answer) = ready.ask(question);
    if after.stop is None && honest(tree, remains, after.trace) {
        let here = left_behind(tree, remains, ready.trace);
        let changes = deeds(tree, remains, ready.trace);
        making_in_order(here, changes, more, Some(path), path, Some(Node::Link { target }));
    }
}

proof fn search_in_order(
    tree: Tree,
    remains: Remains,
    run: Run,
    root: Seq<char>,
    candidates: Seq<Seq<char>>,
    used: Seq<Seq<char>>,
)
    requires
        ordered(tree, remains, run, used, None),
    ensures
        ordered(tree, remains, run.first_existing(root, candidates).0, used, None),
    decreases candidates.len(),
{
    if candidates.len() > 0 {
        let question = Question::IsFileOrLink(below(root, candidates[0]));
        one_answer_in_order(tree, remains, run, question, used, None);
        search_in_order(tree, remains, run.ask(question).0, root, candidates.skip(1), used);
    }
}

proof fn check_in_order(
    tree: Tree,
    remains: Remains,
    run: Run,
    root: Seq<char>,
    used: Seq<Seq<char>>,
)
    requires
        ordered(tree, remains, run, used, None),
    ensures
        ordered(tree, remains, run.check(root), used, None),
{
    one_answer_in_order(tree, remains, run, Question::Cancelled, used, None);
}

/// Whether the names in `next` can be used one after the other.
spec fn all_fresh(used: Seq<Seq<char>>, next: Seq<Seq<char>>) -> bool {
    &&& (used + next).no_duplicates()
    &&& forall|i: int| 0 <= i < next.len() ==> !marked(#[trigger] next[i])
}

proof fn first_is_fresh(used: Seq<Seq<char>>, next: Seq<Seq<char>>)
    requires
        all_fresh(used, next),
        next.len() > 0,
    ensures
        fresh(used, next[0]),
        all_fresh(used.push(next[0]), next.skip(1)),
        used.push(next[0]) + next.skip(1) == used + next,
{
    let all = used + next;
    assert(used.push(next[0]) + next.skip(1) =~= all);
    assert(all[used.len() as int] == next[0]);
    if used.contains(next[0]) {
        let i = choose|i: int| 0 <= i < used.len() && used[i] == next[0];
        assert(all[i] == all[used.len() as int]);
    }
    assert forall|i: int| 0 <= i < next.skip(1).len() implies !marked(
        #[trigger] next.skip(1)[i],
    ) by {
        assert(next.skip(1)[i] == next[i + 1]);
    }
}

proof fn link_names(usr_bin: bool, applet: Seq<char>)
    requires
        !applet.contains('/'),
    ensures
        guest_name(link_path(usr_bin, applet)) == applet,
{
    reveal_strlit("/usr/bin/");
    reveal_strlit("/bin/");
    name_behind("/usr/bin/"@, applet);
    name_behind("/bin/"@, applet);
}

proof fn links_in_order(
    tree: Tree,
    remains: Remains,
    run: Run,
    root: Seq<char>,
    applets: Seq<Seq<char>>,
    usr_bin: bool,
    used: Seq<Seq<char>>,
)
    requires
        ordered(tree, remains, run, used, None),
        all_fresh(used, applets),
        forall|i: int| 0 <= i < applets.len() ==> !(#[trigger] applets[i]).contains('/'),
    ensures
        ordered(tree, remains, run.link_applets(root, applets, usr_bin), used + applets, None),
    decreases applets.len(),
{
    if applets.len() > 0 {
        let applet = applets[0];
        first_is_fresh(used, applets);
        link_names(usr_bin, applet);
        search_in_order(tree, remains, run, root, applet_paths(applet), used);
        let (after, found) = run.first_existing(root, applet_paths(applet));
        let linked = if found is Some {
            more_used(tree, remains, after, used, applet);
            after
        } else {
            link_in_order(
                tree,
                remains,
                after,
                root,
                link_path(usr_bin, applet),
                GUEST_TOOLBOX@,
                used,
            );
            after.install_symlink(root, link_path(usr_bin, applet), GUEST_TOOLBOX@)
        };
        assert forall|i: int| 0 <= i < applets.skip(1).len() implies !(#[trigger] applets.skip(
            1,
        )[i]).contains('/') by {
            assert(applets.skip(1)[i] == applets[i + 1]);
        }
        links_in_order(
            tree,
            remains,
            linked,
            root,
            applets.skip(1),
            usr_bin,
            used.push(applet),
        );
    } else {
        assert(used + applets =~= used);
    }
}

proof fn applets_hold_no_separator()
    ensures
        forall|i: int|
            0 <= i < path_applets().len() ==> !(#[trigger] path_applets()[i]).contains('/'),
{
    reveal_strlit("ping");
    reveal_strlit("ping6");
    reveal_strlit("traceroute");
    reveal_strlit("wget");
    reveal_strlit("nc");
    reveal_strlit("nslookup");
    reveal_strlit("vi");
    reveal_strlit("sh");
}

proof fn toolbox_in_order(
    tree: Tree,
    remains: Remains,
    run: Run,
    root: Seq<char>,
    used: Seq<Seq<char>>,
)
    requires
        ordered(tree, remains, run, used, None),
        all_fresh(used, path_applets()),
    ensures
        ordered(
            tree,
            remains,
            run.install_toolbox_commands(root),
            used + path_applets(),
            None,
        ),
{
    let question = Question::IsDirOrLink(join(root, "usr/bin"@));
    one_answer_in_order(tree, remains, run, question, used, None);
    let (after, answer) = run.ask(question);
    applets_hold_no_separator();
    links_in_order(tree, remains, after, root, path_applets(), answer is Yes, used);
}

proof fn name_below_etc(root: Seq<char>)
    ensures
        guest_name(join(root, "etc/passwd"@)) == "passwd"@,
        guest_name(join(root, "etc/securetty"@)) == "securetty"@,
        guest_name("/etc/securetty"@) == "securetty"@,
{
    reveal_strlit("etc/passwd");
    reveal_strlit("etc/securetty");
    reveal_strlit("/etc/securetty");
    reveal_strlit("passwd");
    reveal_strlit("securetty");
    reveal_strlit("/");
    let etc = seq!['e', 't', 'c', '/'];
    let front = if root.len() == 0 || root.last() == '/' {
        root + etc
    } else {
        root + "/"@ + etc
    };
    assert(join(root, "etc/passwd"@) =~= front + "passwd"@);
    assert(join(root, "etc/securetty"@) =~= front + "securetty"@);
    assert("/etc/securetty"@ =~= seq!['/', 'e', 't', 'c', '/'] + "securetty"@);
    name_behind(front, "passwd"@);
    name_behind(front, "securetty"@);
    name_behind(seq!['/', 'e', 't', 'c', '/'], "securetty"@);
}

/// Writing a file as a whole: anew where it was a file, else as something made.
proof fn overwrite_in_order(
    tree: Tree,
    remains: Remains,
    run: Run,
    path: Seq<char>,
    contents: Seq<u8>,
    used: Seq<Seq<char>>,
)
    requires
        ordered(tree, remains, run, used, None),
        fresh(used, guest_name(path)),
        run.stop is None && honest(tree, remains, run.trace) ==> {
            let here = left_behind(tree, remains, run.trace);
            !here.contains_key(path) || here[path] is File
        },
    ensures
        ({
            let (after, answer) = run.ask(Question::Overwrite { path, contents });
            honest(tree, remains, after.trace) ==> {
                &&& orderly(tree, deeds(tree, remains, after.trace))
                &&& after.stop is None && answer is Done ==> settled(
                    left_behind(tree, remains, after.trace),
                    deeds(tree, remains, after.trace),
                    used.push(guest_name(path)),
                    None,
                )
            }
        }),
{
    let more = used.push(guest_name(path));
    let question = Question::Overwrite { path, contents };
    more_used(tree, remains, run, used, guest_name(path));
    names_stay_used(used, guest_name(path));
    one_answer_in_order(tree, remains, run, question, used, None);
    one_answer_in_order(tree, remains, run, question, more, None);
    let (after, answer) = run.ask(question);
    if after.stop is None && honest(tree, remains, after.trace) {
        let here = left_behind(tree, remains, run.trace);
        let changes = deeds(tree, remains, run.trace);
        if here.contains_key(path) {
            let written = change_of(here, remains, question, answer)->Some_0->Rewritten_contents;
            rewrite_in_order(here, changes, used, path, written);
        } else {
            let node = Some(Node::File { contents, mode: 0o644 });
            making_in_order(here, changes, more, None, path, node);
            making_in_order(here, changes, more, None, path, remains(question));
        }
    }
}

proof fn root_shell_in_order(
    tree: Tree,
    remains: Remains,
    run: Run,
    root: Seq<char>,
    shell: Seq<char>,
    used: Seq<Seq<char>>,
)
    requires
        ordered(tree, remains, run, used, None),
        fresh(used, "passwd"@),
    ensures
        ordered(tree, remains, run.set_root_shell(root, shell), used.push("passwd"@), None),
{
    let passwd = join(root, "etc/passwd"@);
    let etc = join(root, "etc"@);
    name_below_etc(root);
    one_answer_in_order(tree, remains, run, Question::ReadText(passwd), used, None);
    let (read, answer) = run.ask(Question::ReadText(passwd));
    one_answer_in_order(tree, remains, read, Question::CreateDirs(etc), used, None);
    let ready = read.must(Question::CreateDirs(etc), "create guest etc"@, etc);
    let text = match answer {
        Answer::Text(text) => text@,
        _ => "root:x:0:0:root:/root:/bin/sh\n"@,
    };
    more_used(tree, remains, read, used, "passwd"@);
    more_used(tree, remains, ready, used, "passwd"@);
    if answer is Text || answer is Missing {
        overwrite_in_order(
            tree,
            remains,
            ready,
            passwd,
            encode_utf8(with_root_shell(text, shell)),
            used,
        );
    }
}

proof fn securetty_in_order(
    tree: Tree,
    remains: Remains,
    run: Run,
    root: Seq<char>,
    used: Seq<Seq<char>>,
)
    requires
        ordered(tree, remains, run, used, None),
        fresh(used, "securetty"@),
    ensures
        ordered(tree, remains, run.ensure_securetty(root), used.push("securetty"@), None),
{
    let securetty = join(root, "etc/securetty"@);
    name_below_etc(root);
    one_answer_in_order(tree, remains, run, Question::ReadText(securetty), used, None);
    let (read, answer) = run.ask(Question::ReadText(securetty));
    more_used(tree, remains, read, used, "securetty"@);
    match answer {
        Answer::Text(text) => {
            overwrite_in_order(
                tree,
                remains,
                read,
                securetty,
                encode_utf8(with_serial_console(text@)),
                used,
            );
        },
        Answer::Missing => {
            file_in_order(
                tree,
                remains,
                read,
                root,
                "/etc/securetty"@,
                encode_utf8("ttyS0\n"@),
                0o644,
                used,
            );
        },
        _ => {},
    }
}

proof fn directories_in_order(
    tree: Tree,
    remains: Remains,
    run: Run,
    root: Seq<char>,
    wanted: Seq<(Seq<char>, u32)>,
    used: Seq<Seq<char>>,
)
    requires
        ordered(tree, remains, run, used, None),
    ensures
        ordered(tree, remains, run.ensure_directories(root, wanted), used, None),
    decreases wanted.len(),
{
    if wanted.len() > 0 {
        guest_directory_in_order(tree, remains, run, root, wanted[0].0, wanted[0].1, used);
        directories_in_order(
            tree,
            remains,
            run.ensure_guest_directory(root, wanted[0].0, wanted[0].1),
            root,
            wanted.skip(1),
            used,
        );
    }
}

proof fn fastfetch_in_order(
    tree: Tree,
    remains: Remains,
    run: Run,
    root: Seq<char>,
    parts: GuestParts,
    used: Seq<Seq<char>>,
)
    requires
        ordered(tree, remains, run, used, None),
        parts.fastfetch is Some ==> fresh(used, guest_name(parts.fastfetch_path@)),
    ensures
        ordered(
            tree,
            remains,
            run.install_fastfetch(root, parts),
            if parts.fastfetch is Some {
                used.push(guest_name(parts.fastfetch_path@))
            } else {
                used
            },
            None,
        ),
{
    if let Some(source) = parts.fastfetch {
        search_in_order(tree, remains, run, root, views(parts.loaders@), used);
        let (after, _) = run.first_existing(root, views(parts.loaders@));
        more_used(tree, remains, after, used, guest_name(parts.fastfetch_path@));
        program_in_order(tree, remains, after, root, parts.fastfetch_path@, source@, used);
    }
}

proof fn console_in_order(
    tree: Tree,
    remains: Remains,
    run: Run,
    root: Seq<char>,
    used: Seq<Seq<char>>,
)
    requires
        ordered(tree, remains, run, used, None),
        all_fresh(used, seq!["passwd"@, "securetty"@, guest_name(GUEST_INITTAB@)]),
    ensures
        ordered(
            tree,
            remains,
            run.set_up_console(root),
            used + seq!["passwd"@, "securetty"@, guest_name(GUEST_INITTAB@)],
            None,
        ),
{
    let names = seq!["passwd"@, "securetty"@, guest_name(GUEST_INITTAB@)];
    let shells = seq!["/bin/bash"@, "/usr/bin/bash"@];
    let gettys = seq!["/sbin/agetty"@, "/usr/sbin/agetty"@];
    let used_1 = used.push(names[0]);
    let used_2 = used_1.push(names[1]);
    first_is_fresh(used, names);
    first_is_fresh(used_1, names.skip(1));
    assert(names.skip(1)[0] == names[1]);
    first_is_fresh(used_2, names.skip(1).skip(1));
    assert(names.skip(1).skip(1)[0] == names[2]);
    assert(used_2.push(names[2]) =~= used + names);
    search_in_order(tree, remains, run, root, shells, used);
    let (searched, bash) = run.first_existing(root, shells);
    let ready = match bash {
        Some(shell) => {
            root_shell_in_order(tree, remains, searched, root, shell, used);
            searched.set_root_shell(root, shell)
        },
        None => {
            more_used(tree, remains, searched, used, names[0]);
            searched
        },
    };
    securetty_in_order(tree, remains, ready, root, used_1);
    let open = ready.ensure_securetty(root);
    search_in_order(tree, remains, open, root, gettys, used_2);
    let (after, agetty) = open.first_existing(root, gettys);
    file_in_order(
        tree,
        remains,
        after,
        root,
        GUEST_INITTAB@,
        encode_utf8(inittab_text(agetty)),
        0o644,
        used_2,
    );
}

/// Parts of names that differ differ too.
proof fn parts_are_fresh(
    names: Seq<Seq<char>>,
    used: Seq<Seq<char>>,
    next: Seq<Seq<char>>,
    rest: Seq<Seq<char>>,
)
    requires
        names == used + next + rest,
        names.no_duplicates(),
        forall|i: int| 0 <= i < names.len() ==> !marked(#[trigger] names[i]),
    ensures
        all_fresh(used, next),
{
    let part = used + next;
    assert forall|i: int, j: int| 0 <= i < part.len() && 0 <= j < part.len() && i != j implies part[i]
        != part[j] by {
        assert(names[i] == part[i] && names[j] == part[j]);
    }
    assert forall|i: int| 0 <= i < next.len() implies !marked(#[trigger] next[i]) by {
        assert(names[used.len() + i] == next[i]);
    }
}

proof fn beginning_in_order(
    tree: Tree,
    remains: Remains,
    run: Run,
    root: Seq<char>,
    toolbox: Seq<char>,
    names: Seq<Seq<char>>,
)
    requires
        ordered(tree, remains, run, Seq::empty(), None),
        names == seq![guest_name(GUEST_TOOLBOX@), guest_name(GUEST_INIT@)] + path_applets(),
        all_fresh(Seq::empty(), names),
    ensures
        ordered(
            tree,
            remains,
            run.check(root).ensure_directories(root, mount_points()).check(
                root,
            ).ensure_guest_directory(root, GUEST_SERVICES@, 0o755).check(root).install_program(
                root,
                GUEST_TOOLBOX@,
                toolbox,
            ).install_symlink(root, GUEST_INIT@, GUEST_TOOLBOX@).install_toolbox_commands(root),
            names,
            None,
        ),
{
    let none = Seq::<Seq<char>>::empty();
    check_in_order(tree, remains, run, root, none);
    let a = run.check(root);
    directories_in_order(tree, remains, a, root, mount_points(), none);
    let b = a.ensure_directories(root, mount_points());
    check_in_order(tree, remains, b, root, none);
    let c = b.check(root);
    guest_directory_in_order(tree, remains, c, root, GUEST_SERVICES@, 0o755, none);
    let d = c.ensure_guest_directory(root, GUEST_SERVICES@, 0o755);
    check_in_order(tree, remains, d, root, none);
    let e = d.check(root);
    first_is_fresh(none, names);
    let one = none.push(names[0]);
    first_is_fresh(one, names.skip(1));
    assert(names.skip(1)[0] == names[1]);
    let two = one.push(names[1]);
    program_in_order(tree, remains, e, root, GUEST_TOOLBOX@, toolbox, none);
    let f = e.install_program(root, GUEST_TOOLBOX@, toolbox);
    link_in_order(tree, remains, f, root, GUEST_INIT@, GUEST_TOOLBOX@, one);
    let g = f.install_symlink(root, GUEST_INIT@, GUEST_TOOLBOX@);
    assert(names.skip(1).skip(1) =~= path_applets());
    toolbox_in_order(tree, remains, g, root, two);
    assert(two + path_applets() =~= names);
}

proof fn ending_in_order(
    tree: Tree,
    remains: Remains,
    run: Run,
    root: Seq<char>,
    parts: GuestParts,
    used: Seq<Seq<char>>,
    names: Seq<Seq<char>>,
)
    requires
        ordered(tree, remains, run, used, None),
        names == seq![
            guest_name(GUEST_BOOT_SCRIPT@),
            guest_name(GUEST_CONSOLE_SCRIPT@),
            guest_name(GUEST_MOTD@),
            guest_name(GUEST_DHCP_SCRIPT@),
            guest_name(parts.sshd_path@),
            guest_name(parts.agent_path@),
        ],
        all_fresh(used, names),
    ensures
        ordered(
            tree,
            remains,
            run.install_file(
                root,
                GUEST_BOOT_SCRIPT@,
                encode_utf8(boot_text(parts.agent_path@)),
                0o755,
            ).install_file(
                root,
                GUEST_CONSOLE_SCRIPT@,
                encode_utf8(console_text()),
                0o755,
            ).install_file(root, GUEST_MOTD@, encode_utf8(parts.motd@), 0o644).install_file(
                root,
                GUEST_DHCP_SCRIPT@,
                encode_utf8(dhcp_text()),
                0o755,
            ).install_file(
                root,
                parts.sshd_path@,
                encode_utf8(parts.sshd_script@),
                0o755,
            ).check(root).install_file(
                root,
                parts.agent_path@,
                encode_utf8(parts.agent_script@),
                0o755,
            ),
            used + names,
            None,
        ),
{
    let used_1 = used.push(names[0]);
    let used_2 = used_1.push(names[1]);
    let used_3 = used_2.push(names[2]);
    let used_4 = used_3.push(names[3]);
    let used_5 = used_4.push(names[4]);
    first_is_fresh(used, names);
    first_is_fresh(used_1, names.skip(1));
    assert(names.skip(1).skip(1) =~= names.skip(2));
    first_is_fresh(used_2, names.skip(2));
    assert(names.skip(2).skip(1) =~= names.skip(3));
    first_is_fresh(used_3, names.skip(3));
    assert(names.skip(3).skip(1) =~= names.skip(4));
    first_is_fresh(used_4, names.skip(4));
    assert(names.skip(4).skip(1) =~= names.skip(5));
    first_is_fresh(used_5, names.skip(5));
    let boot = encode_utf8(boot_text(parts.agent_path@));
    file_in_order(tree, remains, run, root, GUEST_BOOT_SCRIPT@, boot, 0o755, used);
    let a = run.install_file(root, GUEST_BOOT_SCRIPT@, boot, 0o755);
    let console = encode_utf8(console_text());
    file_in_order(tree, remains, a, root, GUEST_CONSOLE_SCRIPT@, console, 0o755, used_1);
    let b = a.install_file(root, GUEST_CONSOLE_SCRIPT@, console, 0o755);
    let motd = encode_utf8(parts.motd@);
    file_in_order(tree, remains, b, root, GUEST_MOTD@, motd, 0o644, used_2);
    let c = b.install_file(root, GUEST_MOTD@, motd, 0o644);
    let dhcp = encode_utf8(dhcp_text());
    file_in_order(tree, remains, c, root, GUEST_DHCP_SCRIPT@, dhcp, 0o755, used_3);
    let d = c.install_file(root, GUEST_DHCP_SCRIPT@, dhcp, 0o755);
    let sshd = encode_utf8(parts.sshd_script@);
    file_in_order(tree, remains, d, root, parts.sshd_path@, sshd, 0o755, used_4);
    let e = d.install_file(root, parts.sshd_path@, sshd, 0o755);
    check_in_order(tree, remains, e, root, used_5);
    let f = e.check(root);
    let agent = encode_utf8(parts.agent_script@);
    file_in_order(tree, remains, f, root, parts.agent_path@, agent, 0o755, used_5);
    assert(used_5.push(names[5]) =~= used + names);
}

proof fn parts_in_turn(
    first: Seq<Seq<char>>,
    second: Seq<Seq<char>>,
    third: Seq<Seq<char>>,
    fourth: Seq<Seq<char>>,
)
    requires
        (first + second + third + fourth).no_duplicates(),
        forall|i: int|
            0 <= i < (first + second + third + fourth).len() ==> !marked(
                #[trigger] (first + second + third + fourth)[i],
            ),
    ensures
        all_fresh(Seq::empty(), first),
        all_fresh(first, second),
        all_fresh(first + second, third),
        all_fresh(first + second + third, fourth),
{
    let none = Seq::<Seq<char>>::empty();
    let all = first + second + third + fourth;
    assert(all =~= none + first + (second + third + fourth));
    assert(all =~= first + second + (third + fourth));
    assert(all =~= (first + second + third) + fourth + none);
    parts_are_fresh(all, none, first, second + third + fourth);
    parts_are_fresh(all, first, second, third + fourth);
    parts_are_fresh(all, first + second, third, fourth);
    parts_are_fresh(all, first + second + third, fourth, none);
}

proof fn summary_in_order(
    tree: Tree,
    remains: Remains,
    run: Run,
    root: Seq<char>,
    parts: GuestParts,
    used: Seq<Seq<char>>,
)
    requires
        ordered(tree, remains, run, used, None),
        all_fresh(used, summary_names(parts)),
    ensures
        ordered(
            tree,
            remains,
            run.install_fastfetch(root, parts),
            used + summary_names(parts),
            None,
        ),
{
    let names = summary_names(parts);
    if parts.fastfetch is Some {
        first_is_fresh(used, names);
        assert(used.push(names[0]) =~= used + names);
    } else {
        assert(used + names =~= used);
    }
    fastfetch_in_order(tree, remains, run, root, parts, used);
}

proof fn injection_in_order(
    tree: Tree,
    remains: Remains,
    run: Run,
    root: Seq<char>,
    toolbox: Seq<char>,
    parts: GuestParts,
    first: Seq<Seq<char>>,
    second: Seq<Seq<char>>,
    third: Seq<Seq<char>>,
    fourth: Seq<Seq<char>>,
)
    requires
        ordered(tree, remains, run, Seq::empty(), None),
        first == toolbox_names(),
        second == summary_names(parts),
        third == console_names(),
        fourth == script_names(parts),
        all_fresh(Seq::empty(), first),
        all_fresh(first, second),
        all_fresh(first + second, third),
        all_fresh(first + second + third, fourth),
    ensures
        ordered(
            tree,
            remains,
            run.inject(root, toolbox, parts),
            first + second + third + fourth,
            None,
        ),
{
    beginning_in_order(tree, remains, run, root, toolbox, first);
    let a = run.check(root).ensure_directories(root, mount_points()).check(
        root,
    ).ensure_guest_directory(root, GUEST_SERVICES@, 0o755).check(root).install_program(
        root,
        GUEST_TOOLBOX@,
        toolbox,
    ).install_symlink(root, GUEST_INIT@, GUEST_TOOLBOX@).install_toolbox_commands(root);
    summary_in_order(tree, remains, a, root, parts, first);
    let b = a.install_fastfetch(root, parts);
    check_in_order(tree, remains, b, root, first + second);
    let c = b.check(root);
    console_in_order(tree, remains, c, root, first + second);
    let d = c.set_up_console(root);
    ending_in_order(tree, remains, d, root, parts, first + second + third, fourth);
}

proof fn a_short_name_is_unmarked(name: Seq<char>)
    requires
        name.len() < 10 || name.len() == 10 && name[0] != '.' || name.len() == 11 && name[0] != '.'
            && name[1] != '.',
    ensures
        !marked(name),
{
    reveal_strlit(".firecrab-");
    if marked(name) {
        let at = choose|at: int| occurs_at(name, ".firecrab-"@, at);
        let part = name.subrange(at, at + 10);
        assert(part == ".firecrab-"@);
        assert(part[0] == '.');
        assert(name[at] == '.');
    }
}

/// The length and the first character of each fixed name; no two names have both alike.
spec fn mark_of(i: int) -> (nat, char) {
    let marks = seq![
        (7nat, 'b'),
        (4nat, 'i'),
        (4nat, 'p'),
        (5nat, 'p'),
        (10nat, 't'),
        (4nat, 'w'),
        (2nat, 'n'),
        (8nat, 'n'),
        (2nat, 'v'),
        (2nat, 's'),
        (6nat, 'p'),
        (9nat, 's'),
        (7nat, 'i'),
        (7nat, 'r'),
        (10nat, 'r'),
        (4nat, 'm'),
        (11nat, 'd'),
    ];
    marks[i]
}

proof fn fixed_names_have_marks()
    ensures
        fixed_names().len() == 17,
        forall|i: int|
            0 <= i < 17 ==> (#[trigger] fixed_names()[i]).len() == mark_of(i).0
                && fixed_names()[i][0] == mark_of(i).1,
        fixed_names()[16][1] == 'h',
{
    reveal_strlit("busybox");
    reveal_strlit("init");
    reveal_strlit("ping");
    reveal_strlit("ping6");
    reveal_strlit("traceroute");
    reveal_strlit("wget");
    reveal_strlit("nc");
    reveal_strlit("nslookup");
    reveal_strlit("vi");
    reveal_strlit("sh");
    reveal_strlit("passwd");
    reveal_strlit("securetty");
    reveal_strlit("inittab");
    reveal_strlit("rc.boot");
    reveal_strlit("rc.console");
    reveal_strlit("motd");
    reveal_strlit("dhcp.script");
}

/// What every injection puts into a guest has names that differ.
proof fn fixed_names_differ()
    ensures
        fixed_names().len() == 17,
        fixed_names().no_duplicates(),
        forall|i: int| 0 <= i < 17 ==> !marked(#[trigger] fixed_names()[i]),
{
    fixed_names_have_marks();
    assert forall|i: int, j: int| 0 <= i < 17 && 0 <= j < 17 && i != j implies mark_of(i)
        != mark_of(j) by {}
    assert forall|i: int, j: int| 0 <= i < 17 && 0 <= j < 17 && i != j implies fixed_names()[i]
        != fixed_names()[j] by {
        assert(mark_of(i) != mark_of(j));
    }
    assert forall|i: int| 0 <= i < 17 implies !marked(#[trigger] fixed_names()[i]) by {
        assert(mark_of(i).0 <= 11 && mark_of(i).1 != '.');
        assert(mark_of(i).0 == 11 ==> i == 16);
        a_short_name_is_unmarked(fixed_names()[i]);
    }
}

proof fn fixed_paths_have_their_names()
    ensures
        guest_name(GUEST_TOOLBOX@) == "busybox"@,
        guest_name(GUEST_INIT@) == "init"@,
        guest_name(GUEST_INITTAB@) == "inittab"@,
        guest_name(GUEST_BOOT_SCRIPT@) == "rc.boot"@,
        guest_name(GUEST_CONSOLE_SCRIPT@) == "rc.console"@,
        guest_name(GUEST_MOTD@) == "motd"@,
        guest_name(GUEST_DHCP_SCRIPT@) == "dhcp.script"@,
{
    reveal_strlit("/etc/firecrab/busybox");
    reveal_strlit("/sbin/init");
    reveal_strlit("/etc/inittab");
    reveal_strlit("/etc/firecrab/rc.boot");
    reveal_strlit("/etc/firecrab/rc.console");
    reveal_strlit("/etc/motd");
    reveal_strlit("/etc/firecrab/dhcp.script");
    reveal_strlit("/etc/firecrab/");
    reveal_strlit("/sbin/");
    reveal_strlit("/etc/");
    reveal_strlit("busybox");
    reveal_strlit("init");
    reveal_strlit("inittab");
    reveal_strlit("rc.boot");
    reveal_strlit("rc.console");
    reveal_strlit("motd");
    reveal_strlit("dhcp.script");
    assert(GUEST_TOOLBOX@ =~= "/etc/firecrab/"@ + "busybox"@);
    assert(GUEST_INIT@ =~= "/sbin/"@ + "init"@);
    assert(GUEST_INITTAB@ =~= "/etc/"@ + "inittab"@);
    assert(GUEST_BOOT_SCRIPT@ =~= "/etc/firecrab/"@ + "rc.boot"@);
    assert(GUEST_CONSOLE_SCRIPT@ =~= "/etc/firecrab/"@ + "rc.console"@);
    assert(GUEST_MOTD@ =~= "/etc/"@ + "motd"@);
    assert(GUEST_DHCP_SCRIPT@ =~= "/etc/firecrab/"@ + "dhcp.script"@);
    name_behind("/etc/firecrab/"@, "busybox"@);
    name_behind("/sbin/"@, "init"@);
    name_behind("/etc/"@, "inittab"@);
    name_behind("/etc/firecrab/"@, "rc.boot"@);
    name_behind("/etc/firecrab/"@, "rc.console"@);
    name_behind("/etc/"@, "motd"@);
    name_behind("/etc/firecrab/"@, "dhcp.script"@);
}

/// Which fixed name, or which name of a part behind the 17 fixed ones, stands at a place of
/// those injected, where the system summary adds `extra` names.
spec fn source(i: int, extra: int) -> int {
    if i < 10 {
        i
    } else if i < 10 + extra {
        17 + (i - 10)
    } else if i < 17 + extra {
        i - extra
    } else {
        i
    }
}

/// All that is injected has names that differ.
proof fn injected_names_differ(parts: GuestParts)
    requires
        names_differ(parts),
    ensures
        injected_names(parts).no_duplicates(),
        forall|i: int|
            0 <= i < injected_names(parts).len() ==> !marked(#[trigger] injected_names(parts)[i]),
{
    let all = injected_names(parts);
    let known = fixed_names();
    let others = part_names(parts);
    let both = known + others;
    let extra = summary_names(parts).len() as int;
    fixed_names_differ();
    fixed_paths_have_their_names();
    assert(all.len() == 19 + extra && both.len() == 19 + extra);
    assert forall|i: int| 0 <= i < all.len() implies #[trigger] all[i] == both[source(
        i,
        extra,
    )] by {
        if i < 10 {
            assert(all[i] == toolbox_names()[i]);
        } else if i < 10 + extra {
            assert(all[i] == summary_names(parts)[i - 10]);
        } else if i < 13 + extra {
            assert(all[i] == console_names()[i - 10 - extra]);
        } else {
            assert(all[i] == script_names(parts)[i - 13 - extra]);
        }
    }
    assert forall|i: int, j: int| 0 <= i < both.len() && 0 <= j < both.len() && i != j implies both[i]
        != both[j] by {
        if i < 17 && j >= 17 {
            assert(known[i] == both[i] && others[j - 17] == both[j]);
            assert(!known.contains(others[j - 17]));
        } else if i >= 17 && j < 17 {
            assert(known[j] == both[j] && others[i - 17] == both[i]);
            assert(!known.contains(others[i - 17]));
        } else if i < 17 {
            assert(known[i] == both[i] && known[j] == both[j]);
        } else {
            assert(others[i - 17] == both[i] && others[j - 17] == both[j]);
        }
    }
    assert forall|i: int, j: int| 0 <= i < all.len() && 0 <= j < all.len() && i != j implies all[i]
        != all[j] by {
        assert(source(i, extra) != source(j, extra));
    }
    assert forall|i: int| 0 <= i < all.len() implies !marked(#[trigger] all[i]) by {
        let k = source(i, extra);
        if k < 17 {
            assert(both[k] == known[k]);
        } else {
            assert(both[k] == others[k - 17]);
        }
    }
}

/// No change of an injection touches again what an earlier one made, moved or rewrote, other
/// than making anew what was moved aside, however far the injection came. This holds where
/// the last names of the parts differ from each other and from all others.
pub proof fn every_change_is_in_order(
    tree: Tree,
    remains: Remains,
    answers: Seq<Answer>,
    root: Seq<char>,
    toolbox: Seq<char>,
    parts: GuestParts,
)
    requires
        honest(tree, remains, Run::begin(answers).inject(root, toolbox, parts).trace),
        names_differ(parts),
    ensures
        orderly(
            tree,
            deeds(tree, remains, Run::begin(answers).inject(root, toolbox, parts).trace),
        ),
{
    let first = toolbox_names();
    let second = summary_names(parts);
    let third = console_names();
    let fourth = script_names(parts);
    injected_names_differ(parts);
    parts_in_turn(first, second, third, fourth);
    injection_in_order(
        tree,
        remains,
        Run::begin(answers),
        root,
        toolbox,
        parts,
        first,
        second,
        third,
        fourth,
    );
}

} // verus!
