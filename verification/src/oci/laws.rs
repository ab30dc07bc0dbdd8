//! What a failed injection leaves behind: nothing.

use vstd::prelude::*;

#[allow(unused_imports)]
use super::order::{carries, every_change_is_in_order, names_differ};
#[allow(unused_imports)]
use super::provision::{
    applet_paths, backup_name, below, boot_text, console_text, dhcp_text, guest_name, guest_parent,
    inittab_text, is_absolute, link_path, mount_points, path_applets, place, reached, reversals,
    steps, with_root_shell, with_serial_console, Answer, GuestParts, Log, Progress, Question,
    Reversal, Run, GUEST_BOOT_SCRIPT, GUEST_CONSOLE_SCRIPT, GUEST_DHCP_SCRIPT, GUEST_INIT,
    GUEST_INITTAB, GUEST_MOTD, GUEST_SERVICES, GUEST_TOOLBOX, SYMLINK_HOP_LIMIT,
};
#[allow(unused_imports)]
use crate::path::join;
#[allow(unused_imports)]
use crate::text::{split, views};
#[allow(unused_imports)]
use vstd::utf8::encode_utf8;

verus! {

/// Something that a path of the tree names.
pub enum Node {
    Directory { mode: u32 },
    File { contents: Seq<u8>, mode: u32 },
    Link { target: Seq<char> },
}

/// One change that a run makes to a tree.
pub enum Change {
    /// Something was made where nothing was.
    Created { path: Seq<char>, node: Node },
    /// Something was to be made where nothing was, and was not.
    Attempted { path: Seq<char> },
    /// A file or link was moved aside.
    Displaced { backup: Seq<char>, original: Seq<char> },
    /// A file was written anew.
    Rewritten { path: Seq<char>, contents: Seq<u8> },
    /// A directory was given another mode.
    Chmodded { path: Seq<char>, mode: u32 },
}

/// A tree: what each path names.
pub type Tree = Map<Seq<char>, Node>;

impl Change {
    /// The tree after the change.
    pub open spec fn apply(self, tree: Tree) -> Tree {
        match self {
            Change::Created { path, node } => tree.insert(path, node),
            Change::Attempted { .. } => tree,
            Change::Displaced { backup, original } => tree.insert(backup, tree[original]).remove(
                original,
            ),
            Change::Rewritten { path, contents } => tree.insert(
                path,
                Node::File { contents, mode: tree[path]->File_mode },
            ),
            Change::Chmodded { path, mode } => tree.insert(path, Node::Directory { mode }),
        }
    }

    /// Whether the change can be made: what is made was not there, what is moved or
    /// changed was, and the name that something is moved to was free.
    pub open spec fn applies(self, tree: Tree) -> bool {
        match self {
            Change::Created { path, .. } | Change::Attempted { path } => !tree.contains_key(path),
            Change::Displaced { backup, original } => tree.contains_key(original)
                && !tree.contains_key(backup) && backup != original,
            Change::Rewritten { path, .. } => tree.contains_key(path) && tree[path] is File,
            Change::Chmodded { path, .. } => tree.contains_key(path) && tree[path] is Directory,
        }
    }

    /// The record of the change, behind what is on record.
    pub open spec fn note(self, tree: Tree, log: Log) -> Log {
        match self {
            Change::Created { path, .. } | Change::Attempted { path } => Log {
                created: log.created.push(path),
                ..log
            },
            Change::Displaced { backup, original } => Log {
                displaced: log.displaced.push((backup, original)),
                ..log
            },
            Change::Rewritten { path, .. } => Log {
                rewritten: log.rewritten.push((path, tree[path]->contents)),
                ..log
            },
            Change::Chmodded { path, .. } => Log {
                chmodded: log.chmodded.push((path, tree[path]->Directory_mode)),
                ..log
            },
        }
    }

    /// Whether the change and a later one leave each other's paths alone. What was
    /// moved aside may be made anew; nothing that was made, moved or rewritten is
    /// otherwise changed again.
    pub open spec fn apart(self, later: Change) -> bool {
        match self {
            Change::Created { path, .. } | Change::Attempted { path } => match later {
                Change::Displaced { backup, original } => path != original && path != backup,
                Change::Rewritten { path: other, .. } => path != other,
                _ => true,
            },
            Change::Displaced { backup, original } => match later {
                Change::Created { path, .. } | Change::Attempted { path } => path != backup,
                Change::Displaced { backup: b, original: o } => backup != b && backup != o
                    && original != b && original != o,
                Change::Rewritten { path, .. } => path != backup && path != original,
                Change::Chmodded { path, .. } => path != backup && path != original,
            },
            Change::Rewritten { path, .. } => match later {
                Change::Created { path: other, .. } | Change::Attempted { path: other } => path
                    != other,
                Change::Displaced { backup, original } => path != backup && path != original,
                Change::Rewritten { path: other, .. } => path != other,
                Change::Chmodded { path: other, .. } => path != other,
            },
            Change::Chmodded { path, .. } => match later {
                Change::Created { path: other, .. } | Change::Attempted { path: other } => path
                    != other,
                Change::Displaced { backup, original } => path != backup && path != original,
                Change::Rewritten { path: other, .. } => path != other,
                Change::Chmodded { .. } => true,
            },
        }
    }
}

/// The tree after some changes, one after the other.
pub open spec fn changed(tree: Tree, changes: Seq<Change>) -> Tree
    decreases changes.len(),
{
    if changes.len() == 0 {
        tree
    } else {
        changed(changes[0].apply(tree), changes.skip(1))
    }
}

/// Whether the changes can be made one after the other, each apart from those after it.
pub open spec fn orderly(tree: Tree, changes: Seq<Change>) -> bool
    decreases changes.len(),
{
    changes.len() == 0 || {
        &&& changes[0].applies(tree)
        &&& forall|i: int| 1 <= i < changes.len() ==> changes[0].apart(#[trigger] changes[i])
        &&& orderly(changes[0].apply(tree), changes.skip(1))
    }
}

/// The record of some changes, behind what is on record.
pub open spec fn recorded(tree: Tree, changes: Seq<Change>, log: Log) -> Log
    decreases changes.len(),
{
    if changes.len() == 0 {
        log
    } else {
        recorded(changes[0].apply(tree), changes.skip(1), changes[0].note(tree, log))
    }
}

impl Reversal {
    /// The tree after the step. A step that finds nothing leaves the tree as it is.
    pub open spec fn apply(self, tree: Tree) -> Tree {
        match self {
            Reversal::Remove(path) => tree.remove(path),
            Reversal::Rename { from, to } => if tree.contains_key(from) {
                tree.remove(from).insert(to, tree[from])
            } else {
                tree
            },
            Reversal::Rewrite { path, contents } => if tree.contains_key(path) && tree[path] is File {
                tree.insert(path, Node::File { contents, mode: tree[path]->File_mode })
            } else {
                tree
            },
            Reversal::SetMode { path, mode } => if tree.contains_key(path)
                && tree[path] is Directory {
                tree.insert(path, Node::Directory { mode })
            } else {
                tree
            },
        }
    }
}

/// The tree after some steps of undoing, one after the other.
pub open spec fn undone(tree: Tree, steps: Seq<Reversal>) -> Tree
    decreases steps.len(),
{
    if steps.len() == 0 {
        tree
    } else {
        undone(steps[0].apply(tree), steps.skip(1))
    }
}

proof fn undone_in_two(tree: Tree, a: Seq<Reversal>, b: Seq<Reversal>)
    ensures
        undone(tree, a + b) == undone(undone(tree, a), b),
    decreases a.len(),
{
    if a.len() == 0 {
        assert(a + b =~= b);
    } else {
        assert((a + b).skip(1) =~= a.skip(1) + b);
        undone_in_two(a[0].apply(tree), a.skip(1), b);
    }
}

/// Whether two steps of undoing can change places.
spec fn swappable(a: Reversal, b: Reversal) -> bool {
    forall|tree: Tree| #[trigger] a.apply(b.apply(tree)) =~= b.apply(a.apply(tree))
}

proof fn undone_past(tree: Tree, step: Reversal, others: Seq<Reversal>)
    requires
        forall|i: int| 0 <= i < others.len() ==> swappable(step, #[trigger] others[i]),
    ensures
        undone(step.apply(tree), others) == step.apply(undone(tree, others)),
    decreases others.len(),
{
    if others.len() > 0 {
        assert(swappable(step, others[0]));
        assert(step.apply(others[0].apply(tree)) =~= others[0].apply(step.apply(tree)));
        assert forall|i: int| 0 <= i < others.skip(1).len() implies swappable(
            step,
            #[trigger] others.skip(1)[i],
        ) by {
            assert(others.skip(1)[i] == others[i + 1]);
        }
        undone_past(others[0].apply(tree), step, others.skip(1));
    }
}

/// Whether a log that follows a change leaves the change's paths alone.
spec fn clear_of(change: Change, log: Log) -> bool {
    match change {
        Change::Created { path, .. } | Change::Attempted { path } => {
            &&& forall|k: int|
                0 <= k < log.displaced.len() ==> (#[trigger] log.displaced[k]).0 != path
                    && log.displaced[k].1 != path
            &&& forall|k: int|
                0 <= k < log.rewritten.len() ==> (#[trigger] log.rewritten[k]).0 != path
        },
        Change::Displaced { backup, original } => {
            &&& forall|k: int|
                0 <= k < log.rewritten.len() ==> (#[trigger] log.rewritten[k]).0 != backup
                    && log.rewritten[k].0 != original
            &&& forall|k: int|
                0 <= k < log.chmodded.len() ==> (#[trigger] log.chmodded[k]).0 != backup
                    && log.chmodded[k].0 != original
        },
        Change::Rewritten { path, .. } => forall|k: int|
            0 <= k < log.chmodded.len() ==> (#[trigger] log.chmodded[k]).0 != path,
        Change::Chmodded { .. } => true,
    }
}

proof fn recorded_clear_of(change: Change, tree: Tree, changes: Seq<Change>, log: Log)
    requires
        clear_of(change, log),
        forall|i: int| 0 <= i < changes.len() ==> change.apart(#[trigger] changes[i]),
    ensures
        clear_of(change, recorded(tree, changes, log)),
    decreases changes.len(),
{
    if changes.len() > 0 {
        let next = changes[0];
        assert(change.apart(next));
        let noted = next.note(tree, log);
        assert(clear_of(change, noted));
        assert forall|i: int| 0 <= i < changes.skip(1).len() implies change.apart(
            #[trigger] changes.skip(1)[i],
        ) by {
            assert(changes.skip(1)[i] == changes[i + 1]);
        }
        recorded_clear_of(change, next.apply(tree), changes.skip(1), noted);
    }
}

/// The two logs one behind the other.
spec fn chained(a: Log, b: Log) -> Log {
    Log {
        created: a.created + b.created,
        displaced: a.displaced + b.displaced,
        rewritten: a.rewritten + b.rewritten,
        chmodded: a.chmodded + b.chmodded,
    }
}

proof fn recorded_behind(tree: Tree, changes: Seq<Change>, log: Log)
    ensures
        recorded(tree, changes, log) == chained(log, recorded(tree, changes, Log::empty())),
    decreases changes.len(),
{
    if changes.len() == 0 {
        assert(log.created + Seq::<Seq<char>>::empty() =~= log.created);
        assert(log.displaced + Seq::<(Seq<char>, Seq<char>)>::empty() =~= log.displaced);
        assert(log.rewritten + Seq::<(Seq<char>, Seq<u8>)>::empty() =~= log.rewritten);
        assert(log.chmodded + Seq::<(Seq<char>, u32)>::empty() =~= log.chmodded);
    } else {
        let next = changes[0];
        let after = next.apply(tree);
        let alone = next.note(tree, Log::empty());
        recorded_behind(after, changes.skip(1), next.note(tree, log));
        recorded_behind(after, changes.skip(1), alone);
        let rest = recorded(after, changes.skip(1), Log::empty());
        let a = chained(next.note(tree, log), rest);
        let b = chained(log, chained(alone, rest));
        assert(a.created =~= b.created);
        assert(a.displaced =~= b.displaced);
        assert(a.rewritten =~= b.rewritten);
        assert(a.chmodded =~= b.chmodded);
    }
}

proof fn restore_of_chained(first: Log, rest: Log)
    ensures
        chained(first, rest).restore() == rest.removals() + first.removals() + rest.put_backs()
            + first.put_backs() + rest.rewrites() + first.rewrites() + rest.modes()
            + first.modes(),
{
    let both = chained(first, rest);
    assert(both.removals() =~= rest.removals() + first.removals());
    assert(both.put_backs() =~= rest.put_backs() + first.put_backs());
    assert(both.rewrites() =~= rest.rewrites() + first.rewrites());
    assert(both.modes() =~= rest.modes() + first.modes());
    assert(both.restore() =~= rest.removals() + first.removals() + rest.put_backs()
        + first.put_backs() + rest.rewrites() + first.rewrites() + rest.modes() + first.modes());
}

/// The steps that a failed run names put the tree back exactly as it was: what was
/// made is gone, what was moved aside is back, what was rewritten reads as before, and
/// every directory has its mode. This holds of changes that each could be made, none of
/// which touches again what an earlier one made, moved or rewrote, other than making
/// anew what was moved aside.
pub proof fn restoring_puts_the_tree_back(tree: Tree, changes: Seq<Change>)
    requires
        orderly(tree, changes),
    ensures
        undone(changed(tree, changes), recorded(tree, changes, Log::empty()).restore()) == tree,
    decreases changes.len(),
{
    let none = Log::empty();
    if changes.len() == 0 {
        assert(none.restore() =~= Seq::<Reversal>::empty());
    } else {
        let change = changes[0];
        let after = change.apply(tree);
        let later = changes.skip(1);
        let rest = recorded(after, later, none);
        let first = change.note(tree, none);
        let end = changed(tree, changes);
        restoring_puts_the_tree_back(after, later);
        recorded_behind(after, later, first);
        restore_of_chained(first, rest);
        assert forall|i: int| 0 <= i < later.len() implies change.apart(#[trigger] later[i]) by {
            assert(later[i] == changes[i + 1]);
        }
        recorded_clear_of(change, after, later, none);
        let a = rest.removals();
        let b = rest.put_backs();
        let c = rest.rewrites();
        let d = rest.modes();
        undone_in_two(end, a + b + c, d);
        undone_in_two(end, a + b, c);
        undone_in_two(end, a, b);
        let t_a = undone(end, a);
        let t_b = undone(t_a, b);
        let t_c = undone(t_b, c);
        assert(undone(t_c, d) == after);
        let empty = Seq::<Reversal>::empty();
        match change {
            Change::Created { path, .. } | Change::Attempted { path } => {
                let step = Reversal::Remove(path);
                assert(first.removals() =~= seq![step]);
                assert(first.put_backs() =~= empty && first.rewrites() =~= empty && first.modes()
                    =~= empty);
                let others = b + c + d;
                assert(chained(first, rest).restore() =~= a + seq![step] + others);
                undone_in_two(end, a + seq![step], others);
                undone_in_two(end, a, seq![step]);
                assert(undone(t_a, seq![step]) == step.apply(t_a)) by {
                    reveal_with_fuel(undone, 2);
                }
                assert forall|i: int| 0 <= i < others.len() implies swappable(
                    step,
                    #[trigger] others[i],
                ) by {
                    let other = others[i];
                    if i < b.len() {
                        let k = rest.displaced.len() - 1 - i;
                        assert(other == (Reversal::Rename {
                            from: rest.displaced[k].0,
                            to: rest.displaced[k].1,
                        }));
                    } else if i < b.len() + c.len() {
                        let k = rest.rewritten.len() - 1 - (i - b.len());
                        assert(other == (Reversal::Rewrite {
                            path: rest.rewritten[k].0,
                            contents: rest.rewritten[k].1,
                        }));
                    } else {
                        let k = rest.chmodded.len() - 1 - (i - b.len() - c.len());
                        assert(other == (Reversal::SetMode {
                            path: rest.chmodded[k].0,
                            mode: rest.chmodded[k].1,
                        }));
                    }
                    assert forall|t: Tree| #[trigger] step.apply(other.apply(t)) =~= other.apply(
                        step.apply(t),
                    ) by {}
                }
                undone_past(t_a, step, others);
                undone_in_two(t_a, b + c, d);
                undone_in_two(t_a, b, c);
                assert(step.apply(after) =~= tree);
            },
            Change::Displaced { backup, original } => {
                let step = Reversal::Rename { from: backup, to: original };
                assert(first.put_backs() =~= seq![step]);
                assert(first.removals() =~= empty && first.rewrites() =~= empty && first.modes()
                    =~= empty);
                let others = c + d;
                assert(chained(first, rest).restore() =~= a + b + seq![step] + others);
                undone_in_two(end, a + b + seq![step], others);
                undone_in_two(end, a + b, seq![step]);
                assert(undone(t_b, seq![step]) == step.apply(t_b)) by {
                    reveal_with_fuel(undone, 2);
                }
                assert forall|i: int| 0 <= i < others.len() implies swappable(
                    step,
                    #[trigger] others[i],
                ) by {
                    let other = others[i];
                    if i < c.len() {
                        let k = rest.rewritten.len() - 1 - i;
                        assert(other == (Reversal::Rewrite {
                            path: rest.rewritten[k].0,
                            contents: rest.rewritten[k].1,
                        }));
                    } else {
                        let k = rest.chmodded.len() - 1 - (i - c.len());
                        assert(other == (Reversal::SetMode {
                            path: rest.chmodded[k].0,
                            mode: rest.chmodded[k].1,
                        }));
                    }
                    assert forall|t: Tree| #[trigger] step.apply(other.apply(t)) =~= other.apply(
                        step.apply(t),
                    ) by {}
                }
                undone_past(t_b, step, others);
                undone_in_two(t_b, c, d);
                assert(step.apply(after) =~= tree);
            },
            Change::Rewritten { path, contents } => {
                let held = tree[path]->contents;
                let step = Reversal::Rewrite { path, contents: held };
                assert(first.rewrites() =~= seq![step]);
                assert(first.removals() =~= empty && first.put_backs() =~= empty && first.modes()
                    =~= empty);
                assert(chained(first, rest).restore() =~= a + b + c + seq![step] + d);
                undone_in_two(end, a + b + c + seq![step], d);
                undone_in_two(end, a + b + c, seq![step]);
                assert(undone(t_c, seq![step]) == step.apply(t_c)) by {
                    reveal_with_fuel(undone, 2);
                }
                assert forall|i: int| 0 <= i < d.len() implies swappable(
                    step,
                    #[trigger] d[i],
                ) by {
                    let other = d[i];
                    let k = rest.chmodded.len() - 1 - i;
                    assert(other == (Reversal::SetMode {
                        path: rest.chmodded[k].0,
                        mode: rest.chmodded[k].1,
                    }));
                    assert forall|t: Tree| #[trigger] step.apply(other.apply(t)) =~= other.apply(
                        step.apply(t),
                    ) by {}
                }
                undone_past(t_c, step, d);
                assert(step.apply(after) =~= tree);
            },
            Change::Chmodded { path, mode } => {
                let step = Reversal::SetMode { path, mode: tree[path]->Directory_mode };
                assert(first.modes() =~= seq![step]);
                assert(first.removals() =~= empty && first.put_backs() =~= empty
                    && first.rewrites() =~= empty);
                assert(chained(first, rest).restore() =~= a + b + c + d + seq![step]);
                undone_in_two(end, a + b + c + d, seq![step]);
                assert(undone(after, seq![step]) == step.apply(after)) by {
                    reveal_with_fuel(undone, 2);
                }
                assert(step.apply(after) =~= tree);
            },
        }
    }
}

/// What the operation that a question stands for left at its path where it did not go well.
pub type Remains = spec_fn(Question) -> Option<Node>;

/// The change that making something at a path comes to.
pub open spec fn making(path: Seq<char>, node: Option<Node>) -> Change {
    match node {
        Some(node) => Change::Created { path, node },
        None => Change::Attempted { path },
    }
}

/// What an operation did to a tree.
pub open spec fn change_of(tree: Tree, remains: Remains, question: Question, answer: Answer) -> Option<
    Change,
> {
    match question {
        Question::CreateDir { path, mode } => match answer {
            Answer::Done => Some(making(path, Some(Node::Directory { mode }))),
            Answer::Partial { .. } => Some(making(path, remains(question))),
            _ => None,
        },
        Question::CreateFile { path, contents, mode } => match answer {
            Answer::Done => Some(making(path, Some(Node::File { contents, mode }))),
            Answer::Partial { .. } => Some(making(path, remains(question))),
            _ => None,
        },
        Question::CreateLink { target, path } => if answer is Done {
            Some(making(path, Some(Node::Link { target })))
        } else {
            None
        },
        Question::Rename { from, to } => if answer is Done {
            Some(Change::Displaced { backup: to, original: from })
        } else {
            None
        },
        Question::SetMode { path, mode } => if answer is Done {
            Some(Change::Chmodded { path, mode })
        } else {
            None
        },
        Question::Overwrite { path, contents } => if tree.contains_key(path) {
            let written = if answer is Done {
                contents
            } else {
                match remains(question) {
                    Some(Node::File { contents: left, .. }) => left,
                    _ => tree[path]->contents,
                }
            };
            Some(Change::Rewritten { path, contents: written })
        } else if answer is Done {
            Some(making(path, Some(Node::File { contents, mode: 0o644 })))
        } else {
            Some(making(path, remains(question)))
        },
        _ => None,
    }
}

/// Whether an answer agrees with the tree, as far as an injection relies on it to undo its
/// work: what is at a path, the text of a file, that a name to move something aside to is
/// free, and that a directory which is to be there with all above it was there.
pub open spec fn truthful(tree: Tree, question: Question, answer: Answer) -> bool {
    match question {
        Question::Inspect(path) => match answer {
            Answer::Directory { mode } => tree.contains_key(path) && tree[path] == (
            Node::Directory { mode }),
            Answer::Link => tree.contains_key(path) && tree[path] is Link,
            Answer::Other => tree.contains_key(path) && tree[path] is File,
            Answer::Missing => !tree.contains_key(path),
            _ => true,
        },
        Question::Token => match answer {
            Answer::Text(token) => !token@.contains('/') && forall|path: Seq<char>|
                carries(path, token@) ==> !(#[trigger] tree.contains_key(path)),
            _ => true,
        },
        Question::ReadText(path) => match answer {
            Answer::Text(text) => tree.contains_key(path) && tree[path] is File
                && tree[path]->contents == encode_utf8(text@),
            Answer::Missing => !tree.contains_key(path),
            _ => true,
        },
        Question::CreateDirs(path) => answer is Done ==> tree.contains_key(path),
        _ => true,
    }
}

/// What a run did to a tree, in order.
pub open spec fn deeds(tree: Tree, remains: Remains, trace: Seq<(Question, Answer)>) -> Seq<Change>
    decreases trace.len(),
{
    if trace.len() == 0 {
        Seq::empty()
    } else {
        let before = deeds(tree, remains, trace.drop_last());
        let (question, answer) = trace.last();
        match change_of(changed(tree, before), remains, question, answer) {
            Some(change) => before.push(change),
            None => before,
        }
    }
}

/// The tree after a run's questions were answered.
pub open spec fn left_behind(
    tree: Tree,
    remains: Remains,
    trace: Seq<(Question, Answer)>,
) -> Tree {
    changed(tree, deeds(tree, remains, trace))
}

/// Whether each answer agrees with the tree as it was by then.
pub open spec fn honest(tree: Tree, remains: Remains, trace: Seq<(Question, Answer)>) -> bool
    decreases trace.len(),
{
    trace.len() == 0 || {
        &&& honest(tree, remains, trace.drop_last())
        &&& truthful(
            left_behind(tree, remains, trace.drop_last()),
            trace.last().0,
            trace.last().1,
        )
    }
}

pub(crate) proof fn changed_by_one_more(tree: Tree, changes: Seq<Change>, next: Change, log: Log)
    ensures
        changed(tree, changes.push(next)) == next.apply(changed(tree, changes)),
        recorded(tree, changes.push(next), log) == next.note(
            changed(tree, changes),
            recorded(tree, changes, log),
        ),
    decreases changes.len(),
{
    reveal_with_fuel(changed, 2);
    reveal_with_fuel(recorded, 2);
    if changes.len() == 0 {
        assert(changes.push(next).skip(1) =~= Seq::empty());
    } else {
        assert(changes.push(next).skip(1) =~= changes.skip(1).push(next));
        changed_by_one_more(
            changes[0].apply(tree),
            changes.skip(1),
            next,
            changes[0].note(tree, log),
        );
    }
}

/// Whether everything that a run did is on record.
spec fn sound(tree: Tree, remains: Remains, run: Run) -> bool {
    honest(tree, remains, run.trace) ==> run.log == recorded(
        tree,
        deeds(tree, remains, run.trace),
        Log::empty(),
    )
}

/// What one answer adds to the record.
proof fn one_answer(tree: Tree, remains: Remains, run: Run, question: Question)
    requires
        sound(tree, remains, run),
    ensures
        ({
            let (after, answer) = run.ask(question);
            let here = left_behind(tree, remains, run.trace);
            &&& after.log == run.log
            &&& after.stop is Some ==> sound(tree, remains, after)
            &&& after.stop is None ==> after.trace == run.trace.push((question, answer))
            &&& after.stop is None && change_of(here, remains, question, answer) is None ==> sound(
                tree,
                remains,
                after,
            )
            &&& after.stop is None && honest(tree, remains, after.trace) ==> {
                &&& honest(tree, remains, run.trace)
                &&& truthful(here, question, answer)
                &&& change_of(here, remains, question, answer) is None ==> left_behind(
                    tree,
                    remains,
                    after.trace,
                ) == here
                &&& change_of(here, remains, question, answer) matches Some(change) ==> recorded(
                    tree,
                    deeds(tree, remains, after.trace),
                    Log::empty(),
                ) == change.note(here, run.log)
            }
        }),
{
    let (after, answer) = run.ask(question);
    if after.stop is None {
        let all = after.trace;
        assert(all.drop_last() =~= run.trace);
        let before = deeds(tree, remains, run.trace);
        match change_of(changed(tree, before), remains, question, answer) {
            Some(change) => {
                changed_by_one_more(tree, before, change, Log::empty());
            },
            None => {},
        }
    }
}

proof fn check_is_sound(tree: Tree, remains: Remains, run: Run, root: Seq<char>)
    requires
        sound(tree, remains, run),
    ensures
        sound(tree, remains, run.check(root)),
{
    one_answer(tree, remains, run, Question::Cancelled);
}

proof fn directory_is_sound(tree: Tree, remains: Remains, run: Run, path: Seq<char>, mode: u32)
    requires
        sound(tree, remains, run),
    ensures
        sound(tree, remains, run.create_directory(path, mode)),
{
    one_answer(tree, remains, run, Question::CreateDir { path, mode });
}

proof fn walk_is_sound(
    tree: Tree,
    remains: Remains,
    run: Run,
    root: Seq<char>,
    guest: Seq<char>,
    pending: Seq<Seq<char>>,
    resolved: Seq<Seq<char>>,
    left: nat,
)
    requires
        sound(tree, remains, run),
    ensures
        sound(tree, remains, run.walk(root, guest, pending, resolved, left).0),
    decreases left, pending.len(),
{
    if run.stop is Some || pending.len() == 0 {
    } else if pending[0] == ".."@ {
        let up = if resolved.len() > 0 {
            resolved.drop_last()
        } else {
            resolved
        };
        walk_is_sound(tree, remains, run, root, guest, pending.skip(1), up, left);
    } else {
        let candidate = resolved.push(pending[0]);
        let absolute = place(root, candidate);
        one_answer(tree, remains, run, Question::Inspect(absolute));
        let (after, answer) = run.ask(Question::Inspect(absolute));
        match answer {
            Answer::Directory { .. } => {
                walk_is_sound(tree, remains, after, root, guest, pending.skip(1), candidate, left);
            },
            Answer::Link => {
                if left > 0 {
                    one_answer(tree, remains, after, Question::ReadLink(absolute));
                    let (read, answer) = after.ask(Question::ReadLink(absolute));
                    if let Answer::Text(target) = answer {
                        walk_is_sound(
                            tree,
                            remains,
                            read,
                            root,
                            guest,
                            steps(split(target@, '/')) + pending.skip(1),
                            if is_absolute(target@) {
                                Seq::empty()
                            } else {
                                resolved
                            },
                            (left - 1) as nat,
                        );
                    }
                }
            },
            Answer::Missing => {
                directory_is_sound(tree, remains, after, absolute, 0o755);
                walk_is_sound(
                    tree,
                    remains,
                    after.create_directory(absolute, 0o755),
                    root,
                    guest,
                    pending.skip(1),
                    candidate,
                    left,
                );
            },
            _ => {},
        }
    }
}

proof fn parent_is_sound(tree: Tree, remains: Remains, run: Run, root: Seq<char>, guest: Seq<char>)
    requires
        sound(tree, remains, run),
    ensures
        sound(tree, remains, run.resolve_parent(root, guest).0),
{
    walk_is_sound(
        tree,
        remains,
        run,
        root,
        guest,
        guest_parent(guest),
        Seq::empty(),
        SYMLINK_HOP_LIMIT as nat,
    );
}

proof fn unlocking_is_sound(tree: Tree, remains: Remains, run: Run, parent: Seq<char>)
    requires
        sound(tree, remains, run),
    ensures
        sound(tree, remains, run.ensure_writable(parent)),
{
    one_answer(tree, remains, run, Question::Inspect(parent));
    let (after, answer) = run.ask(Question::Inspect(parent));
    if let Answer::Directory { mode } = answer {
        one_answer(
            tree,
            remains,
            after,
            Question::SetMode { path: parent, mode: mode | 0o200 },
        );
    }
}

proof fn guest_directory_is_sound(
    tree: Tree,
    remains: Remains,
    run: Run,
    root: Seq<char>,
    guest: Seq<char>,
    mode: u32,
)
    requires
        sound(tree, remains, run),
    ensures
        sound(tree, remains, run.ensure_guest_directory(root, guest, mode)),
{
    parent_is_sound(tree, remains, run, root, guest);
    let (found, parent) = run.resolve_parent(root, guest);
    let destination = place(root, parent.push(guest_name(guest)));
    one_answer(tree, remains, found, Question::Inspect(destination));
    let (after, _) = found.ask(Question::Inspect(destination));
    directory_is_sound(tree, remains, after, destination, mode);
}

proof fn displacing_is_sound(
    tree: Tree,
    remains: Remains,
    run: Run,
    root: Seq<char>,
    parent: Seq<Seq<char>>,
    guest: Seq<char>,
)
    requires
        sound(tree, remains, run),
    ensures
        sound(tree, remains, run.displace(root, parent, guest)),
{
    let name = guest_name(guest);
    let destination = place(root, parent.push(name));
    one_answer(tree, remains, run, Question::Inspect(destination));
    let (after, _) = run.ask(Question::Inspect(destination));
    unlocking_is_sound(tree, remains, after, place(root, parent));
    let unlocked = after.ensure_writable(place(root, parent));
    one_answer(tree, remains, unlocked, Question::Token);
    let (named, answer) = unlocked.ask(Question::Token);
    if let Answer::Text(token) = answer {
        let backup = place(root, parent.push(backup_name(name, token@)));
        one_answer(tree, remains, named, Question::Rename { from: destination, to: backup });
    }
}

proof fn room_is_sound(tree: Tree, remains: Remains, run: Run, root: Seq<char>, guest: Seq<char>)
    requires
        sound(tree, remains, run),
    ensures
        sound(tree, remains, run.make_room(root, guest).0),
{
    parent_is_sound(tree, remains, run, root, guest);
    let (after, parent) = run.resolve_parent(root, guest);
    unlocking_is_sound(tree, remains, after, place(root, parent));
    displacing_is_sound(
        tree,
        remains,
        after.ensure_writable(place(root, parent)),
        root,
        parent,
        guest,
    );
}

proof fn file_is_sound(
    tree: Tree,
    remains: Remains,
    run: Run,
    root: Seq<char>,
    guest: Seq<char>,
    contents: Seq<u8>,
    mode: u32,
)
    requires
        sound(tree, remains, run),
    ensures
        sound(tree, remains, run.install_file(root, guest, contents, mode)),
{
    room_is_sound(tree, remains, run, root, guest);
    let (after, path) = run.make_room(root, guest);
    one_answer(tree, remains, after, Question::CreateFile { path, contents, mode });
}

proof fn program_is_sound(
    tree: Tree,
    remains: Remains,
    run: Run,
    root: Seq<char>,
    guest: Seq<char>,
    source: Seq<char>,
)
    requires
        sound(tree, remains, run),
    ensures
        sound(tree, remains, run.install_program(root, guest, source)),
{
    one_answer(tree, remains, run, Question::ReadFile(source));
    let (after, answer) = run.ask(Question::ReadFile(source));
    if let Answer::Bytes(contents) = answer {
        file_is_sound(tree, remains, after, root, guest, contents@, 0o755);
    }
}

proof fn link_is_sound(
    tree: Tree,
    remains: Remains,
    run: Run,
    root: Seq<char>,
    guest: Seq<char>,
    target: Seq<char>,
)
    requires
        sound(tree, remains, run),
    ensures
        sound(tree, remains, run.install_symlink(root, guest, target)),
{
    room_is_sound(tree, remains, run, root, guest);
    let (after, path) = run.make_room(root, guest);
    one_answer(tree, remains, after, Question::CreateLink { target, path });
}

proof fn search_is_sound(
    tree: Tree,
    remains: Remains,
    run: Run,
    root: Seq<char>,
    candidates: Seq<Seq<char>>,
)
    requires
        sound(tree, remains, run),
    ensures
        sound(tree, remains, run.first_existing(root, candidates).0),
    decreases candidates.len(),
{
    if candidates.len() > 0 {
        let question = Question::IsFileOrLink(below(root, candidates[0]));
        one_answer(tree, remains, run, question);
        search_is_sound(tree, remains, run.ask(question).0, root, candidates.skip(1));
    }
}

proof fn links_are_sound(
    tree: Tree,
    remains: Remains,
    run: Run,
    root: Seq<char>,
    applets: Seq<Seq<char>>,
    usr_bin: bool,
)
    requires
        sound(tree, remains, run),
    ensures
        sound(tree, remains, run.link_applets(root, applets, usr_bin)),
    decreases applets.len(),
{
    if applets.len() > 0 {
        search_is_sound(tree, remains, run, root, applet_paths(applets[0]));
        let (after, found) = run.first_existing(root, applet_paths(applets[0]));
        let linked = if found is Some {
            after
        } else {
            link_is_sound(
                tree,
                remains,
                after,
                root,
                link_path(usr_bin, applets[0]),
                GUEST_TOOLBOX@,
            );
            after.install_symlink(root, link_path(usr_bin, applets[0]), GUEST_TOOLBOX@)
        };
        links_are_sound(tree, remains, linked, root, applets.skip(1), usr_bin);
    }
}

proof fn toolbox_is_sound(tree: Tree, remains: Remains, run: Run, root: Seq<char>)
    requires
        sound(tree, remains, run),
    ensures
        sound(tree, remains, run.install_toolbox_commands(root)),
{
    let question = Question::IsDirOrLink(join(root, "usr/bin"@));
    one_answer(tree, remains, run, question);
    let (after, answer) = run.ask(question);
    links_are_sound(tree, remains, after, root, path_applets(), answer is Yes);
}

proof fn root_shell_is_sound(
    tree: Tree,
    remains: Remains,
    run: Run,
    root: Seq<char>,
    shell: Seq<char>,
)
    requires
        sound(tree, remains, run),
    ensures
        sound(tree, remains, run.set_root_shell(root, shell)),
{
    let passwd = join(root, "etc/passwd"@);
    let etc = join(root, "etc"@);
    one_answer(tree, remains, run, Question::ReadText(passwd));
    let (read, answer) = run.ask(Question::ReadText(passwd));
    one_answer(tree, remains, read, Question::CreateDirs(etc));
    let ready = read.must(Question::CreateDirs(etc), "create guest etc"@, etc);
    let text = match answer {
        Answer::Text(text) => text@,
        _ => "root:x:0:0:root:/root:/bin/sh\n"@,
    };
    one_answer(
        tree,
        remains,
        ready,
        Question::Overwrite { path: passwd, contents: encode_utf8(with_root_shell(text, shell)) },
    );
}

proof fn securetty_is_sound(tree: Tree, remains: Remains, run: Run, root: Seq<char>)
    requires
        sound(tree, remains, run),
    ensures
        sound(tree, remains, run.ensure_securetty(root)),
{
    let securetty = join(root, "etc/securetty"@);
    one_answer(tree, remains, run, Question::ReadText(securetty));
    let (read, answer) = run.ask(Question::ReadText(securetty));
    match answer {
        Answer::Text(text) => {
            one_answer(
                tree,
                remains,
                read,
                Question::Overwrite {
                    path: securetty,
                    contents: encode_utf8(with_serial_console(text@)),
                },
            );
        },
        _ => {
            file_is_sound(
                tree,
                remains,
                read,
                root,
                "/etc/securetty"@,
                encode_utf8("ttyS0\n"@),
                0o644,
            );
        },
    }
}

proof fn directories_are_sound(
    tree: Tree,
    remains: Remains,
    run: Run,
    root: Seq<char>,
    wanted: Seq<(Seq<char>, u32)>,
)
    requires
        sound(tree, remains, run),
    ensures
        sound(tree, remains, run.ensure_directories(root, wanted)),
    decreases wanted.len(),
{
    if wanted.len() > 0 {
        guest_directory_is_sound(tree, remains, run, root, wanted[0].0, wanted[0].1);
        directories_are_sound(
            tree,
            remains,
            run.ensure_guest_directory(root, wanted[0].0, wanted[0].1),
            root,
            wanted.skip(1),
        );
    }
}

proof fn fastfetch_is_sound(
    tree: Tree,
    remains: Remains,
    run: Run,
    root: Seq<char>,
    parts: GuestParts,
)
    requires
        sound(tree, remains, run),
    ensures
        sound(tree, remains, run.install_fastfetch(root, parts)),
{
    if let Some(source) = parts.fastfetch {
        search_is_sound(tree, remains, run, root, views(parts.loaders@));
        let (after, _) = run.first_existing(root, views(parts.loaders@));
        program_is_sound(tree, remains, after, root, parts.fastfetch_path@, source@);
    }
}

proof fn console_is_sound(tree: Tree, remains: Remains, run: Run, root: Seq<char>)
    requires
        sound(tree, remains, run),
    ensures
        sound(tree, remains, run.set_up_console(root)),
{
    let shells = seq!["/bin/bash"@, "/usr/bin/bash"@];
    let gettys = seq!["/sbin/agetty"@, "/usr/sbin/agetty"@];
    search_is_sound(tree, remains, run, root, shells);
    let (searched, bash) = run.first_existing(root, shells);
    let ready = match bash {
        Some(shell) => {
            root_shell_is_sound(tree, remains, searched, root, shell);
            searched.set_root_shell(root, shell)
        },
        None => searched,
    };
    securetty_is_sound(tree, remains, ready, root);
    let open = ready.ensure_securetty(root);
    search_is_sound(tree, remains, open, root, gettys);
    let (after, agetty) = open.first_existing(root, gettys);
    file_is_sound(
        tree,
        remains,
        after,
        root,
        GUEST_INITTAB@,
        encode_utf8(inittab_text(agetty)),
        0o644,
    );
}

proof fn injection_is_sound(
    tree: Tree,
    remains: Remains,
    run: Run,
    root: Seq<char>,
    toolbox: Seq<char>,
    parts: GuestParts,
)
    requires
        sound(tree, remains, run),
    ensures
        sound(tree, remains, run.inject(root, toolbox, parts)),
{
    check_is_sound(tree, remains, run, root);
    let a = run.check(root);
    directories_are_sound(tree, remains, a, root, mount_points());
    let b = a.ensure_directories(root, mount_points());
    check_is_sound(tree, remains, b, root);
    let c = b.check(root);
    guest_directory_is_sound(tree, remains, c, root, GUEST_SERVICES@, 0o755);
    let d = c.ensure_guest_directory(root, GUEST_SERVICES@, 0o755);
    check_is_sound(tree, remains, d, root);
    let e = d.check(root);
    program_is_sound(tree, remains, e, root, GUEST_TOOLBOX@, toolbox);
    let f = e.install_program(root, GUEST_TOOLBOX@, toolbox);
    link_is_sound(tree, remains, f, root, GUEST_INIT@, GUEST_TOOLBOX@);
    let g = f.install_symlink(root, GUEST_INIT@, GUEST_TOOLBOX@);
    toolbox_is_sound(tree, remains, g, root);
    let h = g.install_toolbox_commands(root);
    fastfetch_is_sound(tree, remains, h, root, parts);
    let i = h.install_fastfetch(root, parts);
    check_is_sound(tree, remains, i, root);
    let j = i.check(root);
    console_is_sound(tree, remains, j, root);
    let k = j.set_up_console(root);
    let boot = encode_utf8(boot_text(parts.agent_path@));
    file_is_sound(tree, remains, k, root, GUEST_BOOT_SCRIPT@, boot, 0o755);
    let l = k.install_file(root, GUEST_BOOT_SCRIPT@, boot, 0o755);
    let console = encode_utf8(console_text());
    file_is_sound(tree, remains, l, root, GUEST_CONSOLE_SCRIPT@, console, 0o755);
    let m = l.install_file(root, GUEST_CONSOLE_SCRIPT@, console, 0o755);
    let motd = encode_utf8(parts.motd@);
    file_is_sound(tree, remains, m, root, GUEST_MOTD@, motd, 0o644);
    let n = m.install_file(root, GUEST_MOTD@, motd, 0o644);
    let dhcp = encode_utf8(dhcp_text());
    file_is_sound(tree, remains, n, root, GUEST_DHCP_SCRIPT@, dhcp, 0o755);
    let o = n.install_file(root, GUEST_DHCP_SCRIPT@, dhcp, 0o755);
    let sshd = encode_utf8(parts.sshd_script@);
    file_is_sound(tree, remains, o, root, parts.sshd_path@, sshd, 0o755);
    let p = o.install_file(root, parts.sshd_path@, sshd, 0o755);
    check_is_sound(tree, remains, p, root);
    let q = p.check(root);
    let agent = encode_utf8(parts.agent_script@);
    file_is_sound(tree, remains, q, root, parts.agent_path@, agent, 0o755);
}

/// Everything that an injection does to the tree is on record, however far it came and
/// whatever it was answered.
pub proof fn every_change_is_on_record(
    tree: Tree,
    remains: Remains,
    answers: Seq<Answer>,
    root: Seq<char>,
    toolbox: Seq<char>,
    parts: GuestParts,
)
    requires
        honest(tree, remains, Run::begin(answers).inject(root, toolbox, parts).trace),
    ensures
        ({
            let run = Run::begin(answers).inject(root, toolbox, parts);
            run.log == recorded(tree, deeds(tree, remains, run.trace), Log::empty())
        }),
{
    injection_is_sound(tree, remains, Run::begin(answers), root, toolbox, parts);
}

/// An injection that fails, at whatever step, leaves the tree exactly as it was: the steps
/// that it names at its end undo what it did. This holds where the answers agree with the
/// tree, and the last names of the parts differ from each other and from all others.
pub proof fn a_failed_injection_is_undone(
    tree: Tree,
    remains: Remains,
    answers: Seq<Answer>,
    root: Seq<char>,
    toolbox: Seq<char>,
    parts: GuestParts,
    progress: Progress,
)
    requires
        ({
            let run = Run::begin(answers).inject(root, toolbox, parts);
            &&& reached(run, progress)
            &&& honest(tree, remains, run.trace)
        }),
        names_differ(parts),
    ensures
        progress matches Progress::Over { result: Err(_), undo } ==> undone(
            left_behind(
                tree,
                remains,
                Run::begin(answers).inject(root, toolbox, parts).trace,
            ),
            reversals(undo@),
        ) == tree,
{
    let run = Run::begin(answers).inject(root, toolbox, parts);
    every_change_is_on_record(tree, remains, answers, root, toolbox, parts);
    every_change_is_in_order(tree, remains, answers, root, toolbox, parts);
    restoring_puts_the_tree_back(tree, deeds(tree, remains, run.trace));
}

} // verus!
