//! What giving a disk its identity leaves in the guest.

use vstd::prelude::*;

#[allow(unused_imports)]
use super::guest::{
    Profile, FIRECRAB_LOCALE_CONF, FIRECRAB_LOCALE_PROFILE, FIRECRAB_WELCOME_PROFILE,
    GUEST_VM_SERVICE, IPV6_SYSCTL, IPV6_SYSCTL_PATH, NETWORK_READY_OPENRC_PATH,
    NETWORK_READY_OPENRC_RUNLEVEL_PATH, NETWORK_READY_SCRIPT_PATH, NETWORK_READY_UNIT,
    NETWORK_READY_UNIT_PATH, NETWORK_READY_UNIT_WANTS_PATH, STRIP_PATHS,
};
#[allow(unused_imports)]
use super::{Deed, News};
#[allow(unused_imports)]
use crate::dialog::{fresh, Dialog};
#[allow(unused_imports)]
use crate::oci::provision::{
    applet_paths, boot_text, console_text, inittab_text, link_path, with_root_shell,
    GUEST_AGETTY_CANDIDATES, GUEST_BASH_CANDIDATES, GUEST_TOOLBOX, PATH_APPLETS,
};
#[allow(unused_imports)]
use crate::path::with_extension;
#[allow(unused_imports)]
use crate::templates::laws::{a_word_is_read_on, one_word};
#[allow(unused_imports)]
use crate::text::{ascii_lower, contains, is_space, texts, utf8_lossy, words, words_from};
#[allow(unused_imports)]
use vstd::utf8::encode_utf8;

verus! {

/// Something in the guest.
pub enum Entry {
    /// A file, and its mode once that was set.
    File { bytes: Seq<u8>, mode: Option<Seq<char>> },
    Link { target: Seq<char> },
    Directory,
}

/// What is known of the guest, and of the files of the host that were staged for it.
pub struct Inside {
    pub staged: Map<Seq<char>, Seq<u8>>,
    pub tree: Map<Seq<char>, Entry>,
}

/// What a command of `debugfs` does, word by word: `rm` and a path, `write` and a file of the
/// host and a path, `set_inode_field` and a path and `mode` and the mode, `symlink` and a path
/// and a target, `mkdir` and a path. Nothing is known of a file whose writing was not
/// confirmed.
pub open spec fn commanded(g: Inside, w: Seq<Seq<char>>, news: News) -> Inside {
    if w.len() == 2 && w[0] == "rm"@ {
        Inside { tree: g.tree.remove(w[1]), ..g }
    } else if w.len() == 3 && w[0] == "write"@ {
        if (news matches News::Ran { stdout, .. } && contains(
            utf8_lossy(stdout),
            "Allocated inode"@,
        )) && g.staged.contains_key(w[1]) {
            Inside {
                tree: g.tree.insert(w[2], Entry::File { bytes: g.staged[w[1]], mode: None }),
                ..g
            }
        } else {
            Inside { tree: g.tree.remove(w[2]), ..g }
        }
    } else if w.len() == 4 && w[0] == "set_inode_field"@ && w[2] == "mode"@ {
        if g.tree.contains_key(w[1]) && g.tree[w[1]] is File {
            Inside {
                tree: g.tree.insert(
                    w[1],
                    Entry::File { bytes: g.tree[w[1]]->bytes, mode: Some(w[3]) },
                ),
                ..g
            }
        } else {
            g
        }
    } else if w.len() == 3 && w[0] == "symlink"@ {
        if g.tree.contains_key(w[1]) {
            g
        } else {
            Inside { tree: g.tree.insert(w[1], Entry::Link { target: w[2] }), ..g }
        }
    } else if w.len() == 2 && w[0] == "mkdir"@ {
        if g.tree.contains_key(w[1]) {
            g
        } else {
            Inside { tree: g.tree.insert(w[1], Entry::Directory), ..g }
        }
    } else {
        g
    }
}

/// What a deed does to the guest on a disk.
pub open spec fn touched(g: Inside, rootfs: Seq<char>, deed: Deed, news: News) -> Inside {
    match deed {
        Deed::Write { path, bytes } => if news == News::Done {
            Inside { staged: g.staged.insert(path, bytes), ..g }
        } else {
            Inside { staged: g.staged.remove(path), ..g }
        },
        Deed::Remove { path } => Inside { staged: g.staged.remove(path), ..g },
        Deed::Run { program, args } => if program == "debugfs"@ && args.len() == 4 && args[0]
            == "-w"@ && args[1] == "-R"@ && args[3] == rootfs {
            commanded(g, words(args[2]), news)
        } else {
            g
        },
        _ => g,
    }
}

/// The guest after some deeds, by how each went.
pub open spec fn inside(g: Inside, rootfs: Seq<char>, asked: Seq<Deed>, answers: Seq<News>) -> Inside
    decreases asked.len(),
{
    if asked.len() == 0 {
        g
    } else {
        touched(
            inside(g, rootfs, asked.drop_last(), answers),
            rootfs,
            asked.last(),
            answers[asked.len() - 1],
        )
    }
}

/// The guest after a dialog.
pub open spec fn guest(g: Inside, rootfs: Seq<char>, d: Dialog<Deed, News>) -> Inside {
    inside(g, rootfs, d.asked, d.answers)
}

/// Whether the guest was asked for something at a path, and had nothing there.
pub open spec fn lacks(d: Dialog<Deed, News>, rootfs: Seq<char>, path: Seq<char>) -> bool {
    exists|k: int|
        {
            &&& 0 <= k < d.asked.len() && k < d.answers.len()
            &&& (#[trigger] d.asked[k]) == (Deed::Run {
                program: "debugfs"@,
                args: seq!["-w"@, "-R"@, "stat "@ + path, rootfs],
            })
            &&& (d.answers[k] matches News::Ran { stdout, stderr, .. } ==> {
                let text = utf8_lossy(stdout) + utf8_lossy(stderr);
                contains(text, "File not found"@) || contains(ascii_lower(text), "doesn't exist"@)
            })
        }
}

/// Whether two states of a guest have the same at a path.
pub open spec fn same_at(a: Inside, b: Inside, path: Seq<char>) -> bool {
    a.tree.contains_key(path) == b.tree.contains_key(path) && (a.tree.contains_key(path)
        ==> a.tree[path] == b.tree[path])
}

pub(crate) proof fn one_step(g: Inside, rootfs: Seq<char>, d: Dialog<Deed, News>, deed: Deed)
    ensures
        ({
            let (next, news) = d.ask(deed);
            &&& next.answers == d.answers
            &&& d.waiting ==> next.waiting
            &&& !next.waiting ==> {
                &&& !d.waiting
                &&& d.asked.len() < d.answers.len()
                &&& news == d.answers[d.asked.len() as int]
                &&& next.asked == d.asked.push(deed)
                &&& guest(g, rootfs, next) == touched(guest(g, rootfs, d), rootfs, deed, news)
            }
        }),
{
    let (next, news) = d.ask(deed);
    if !next.waiting {
        assert(next.asked.drop_last() =~= d.asked);
    }
}

pub(crate) proof fn first_word(verb: Seq<char>, rest: Seq<char>)
    requires
        one_word(verb),
    ensures
        words(verb + " "@ + rest) == seq![verb] + words(rest),
{
    reveal_strlit(" ");
    let none = Seq::<char>::empty();
    let tail = " "@ + rest;
    assert(verb + " "@ + rest =~= verb + tail);
    a_word_is_read_on(verb, tail, none);
    assert(none + verb =~= verb);
    assert(tail[0] == ' ');
    assert(tail.skip(1) =~= rest);
}

pub(crate) proof fn only_word(word: Seq<char>)
    requires
        one_word(word),
    ensures
        words(word) == seq![word],
{
    let none = Seq::<char>::empty();
    a_word_is_read_on(word, none, none);
    assert(word + none =~= word);
    assert(none + word =~= word);
    assert(words_from(none, word) =~= seq![word]);
}

pub(crate) proof fn the_verbs()
    ensures
        one_word("rm"@) && one_word("write"@) && one_word("set_inode_field"@) && one_word("mode"@),
        one_word("symlink"@) && one_word("mkdir"@) && one_word("stat"@) && one_word("dump"@),
        "rm "@ == "rm"@ + " "@,
        "write "@ == "write"@ + " "@,
        "set_inode_field "@ == "set_inode_field"@ + " "@,
        " mode "@ == " "@ + "mode"@ + " "@,
        "symlink "@ == "symlink"@ + " "@,
        "stat "@ == "stat"@ + " "@,
        "dump "@ == "dump"@ + " "@,
        "rm"@.len() == 2 && "write"@.len() == 5 && "set_inode_field"@.len() == 15,
        "symlink"@.len() == 7 && "mkdir"@.len() == 5 && "stat"@.len() == 4 && "dump"@.len() == 4,
        "write"@ != "mkdir"@,
        one_word("0100755"@) && one_word("0100644"@),
{
    reveal_strlit("rm");
    reveal_strlit("write");
    reveal_strlit("set_inode_field");
    reveal_strlit("mode");
    reveal_strlit("symlink");
    reveal_strlit("mkdir");
    reveal_strlit("stat");
    reveal_strlit("dump");
    reveal_strlit("rm ");
    reveal_strlit("write ");
    reveal_strlit("set_inode_field ");
    reveal_strlit(" mode ");
    reveal_strlit("symlink ");
    reveal_strlit("stat ");
    reveal_strlit("dump ");
    reveal_strlit(" ");
    reveal_strlit("0100755");
    reveal_strlit("0100644");
    assert("rm "@ =~= "rm"@ + " "@);
    assert("write "@ =~= "write"@ + " "@);
    assert("set_inode_field "@ =~= "set_inode_field"@ + " "@);
    assert(" mode "@ =~= " "@ + "mode"@ + " "@);
    assert("symlink "@ =~= "symlink"@ + " "@);
    assert("stat "@ =~= "stat"@ + " "@);
    assert("dump "@ =~= "dump"@ + " "@);
    assert("write"@[0] != "mkdir"@[0]);
    let long = "set_inode_field"@;
    assert forall|i: int| 0 <= i < long.len() implies !is_space(#[trigger] long[i]) by {
        assert(i == 0 || i == 1 || i == 2 || i == 3 || i == 4 || i == 5 || i == 6 || i == 7 || i
            == 8 || i == 9 || i == 10 || i == 11 || i == 12 || i == 13 || i == 14);
    }
}

/// Running one command of `debugfs`.
pub(crate) proof fn command_step(g: Inside, rootfs: Seq<char>, d: Dialog<Deed, News>, command: Seq<char>)
    ensures
        ({
            let next = d.debugfs(rootfs, command).0;
            let deed = Deed::Run {
                program: "debugfs"@,
                args: seq!["-w"@, "-R"@, command, rootfs],
            };
            &&& next == d.ask(deed).0
            &&& next.answers == d.answers
            &&& d.waiting ==> next.waiting
            &&& !next.waiting ==> {
                &&& !d.waiting
                &&& d.asked.len() < d.answers.len()
                &&& next.asked == d.asked.push(deed)
                &&& guest(g, rootfs, next) == commanded(
                    guest(g, rootfs, d),
                    words(command),
                    d.answers[d.asked.len() as int],
                )
            }
        }),
{
    let args = seq!["-w"@, "-R"@, command].push(rootfs);
    assert(args =~= seq!["-w"@, "-R"@, command, rootfs]);
    one_step(g, rootfs, d, Deed::Run { program: "debugfs"@, args });
}

/// Looking for something in the guest leaves it as it is.
pub(crate) proof fn looking_step(g: Inside, rootfs: Seq<char>, d: Dialog<Deed, News>, path: Seq<char>)
    ensures
        ({
            let (next, there) = d.exists_in(rootfs, path);
            &&& next.answers == d.answers
            &&& d.waiting ==> next.waiting
            &&& !next.waiting ==> {
                &&& !d.waiting
                &&& d.asked.len() < next.asked.len() <= next.answers.len()
                &&& guest(g, rootfs, next) == guest(g, rootfs, d)
                &&& !there ==> lacks(next, rootfs, path)
            }
        }),
{
    command_step(g, rootfs, d, "stat "@ + path);
    the_verbs();
    first_word("stat"@, path);
    let (next, there) = d.exists_in(rootfs, path);
    if !next.waiting {
        assert(words("stat "@ + path)[0] == "stat"@);
        if !there {
            let k = d.asked.len() as int;
            assert(next.asked[k] == (Deed::Run {
                program: "debugfs"@,
                args: seq!["-w"@, "-R"@, "stat "@ + path, rootfs],
            }));
        }
    }
}

pub(crate) proof fn removing_step(g: Inside, rootfs: Seq<char>, d: Dialog<Deed, News>, path: Seq<char>)
    requires
        one_word(path),
    ensures
        ({
            let next = d.remove(rootfs, path);
            &&& next.answers == d.answers
            &&& d.waiting ==> next.waiting
            &&& !next.waiting ==> {
                &&& !d.waiting
                &&& guest(g, rootfs, next).tree == guest(g, rootfs, d).tree.remove(path)
                &&& guest(g, rootfs, next).staged == guest(g, rootfs, d).staged
            }
        }),
{
    command_step(g, rootfs, d, "rm "@ + path);
    the_verbs();
    first_word("rm"@, path);
    only_word(path);
}

pub(crate) proof fn mode_step(
    g: Inside,
    rootfs: Seq<char>,
    d: Dialog<Deed, News>,
    path: Seq<char>,
    mode: Seq<char>,
)
    requires
        one_word(path),
        one_word(mode),
    ensures
        ({
            let next = d.set_mode(rootfs, path, mode);
            let before = guest(g, rootfs, d);
            let after = guest(g, rootfs, next);
            &&& next.answers == d.answers
            &&& d.waiting ==> next.waiting
            &&& !next.waiting ==> {
                &&& !d.waiting
                &&& after.staged == before.staged
                &&& forall|p: Seq<char>| p != path ==> #[trigger] same_at(before, after, p)
                &&& before.tree.contains_key(path) == after.tree.contains_key(path)
                &&& (before.tree.contains_key(path) && before.tree[path] is File
                    ==> after.tree[path] == (Entry::File {
                    bytes: before.tree[path]->bytes,
                    mode: Some(mode),
                }))
                &&& before.tree.contains_key(path) && !(before.tree[path] is File)
                    ==> after.tree[path] == before.tree[path]
            }
        }),
{
    let command = "set_inode_field "@ + path + " mode "@ + mode;
    command_step(g, rootfs, d, command);
    the_verbs();
    let tail = "mode"@ + " "@ + mode;
    let rest = path + " "@ + tail;
    assert(command =~= "set_inode_field"@ + " "@ + rest);
    first_word("set_inode_field"@, rest);
    first_word(path, tail);
    first_word("mode"@, mode);
    only_word(mode);
    assert(words(command) =~= seq!["set_inode_field"@, path, "mode"@, mode]);
}

/// A file of the guest is written.
pub(crate) proof fn putting_step(
    g: Inside,
    rootfs: Seq<char>,
    d: Dialog<Deed, News>,
    path: Seq<char>,
    bytes: Seq<u8>,
)
    requires
        one_word(path),
        one_word(with_extension(rootfs, "specialize.tmp"@)),
    ensures
        ({
            let (next, result) = d.write(rootfs, path, bytes);
            let before = guest(g, rootfs, d);
            let after = guest(g, rootfs, next);
            &&& next.answers == d.answers
            &&& d.waiting ==> next.waiting
            &&& !next.waiting ==> {
                &&& !d.waiting
                &&& forall|p: Seq<char>| p != path ==> #[trigger] same_at(before, after, p)
                &&& result is Ok ==> after.tree.contains_key(path)
                &&& after.tree.contains_key(path) && after.tree[path] is File && result is Ok
                    ==> after.tree[path] == (Entry::File { bytes, mode: None })
                &&& result is Ok ==> after.tree[path] is File
                &&& result is Err && d.ask(
                    Deed::Write { path: with_extension(rootfs, "specialize.tmp"@), bytes },
                ).1 == News::Done ==> !after.tree.contains_key(path)
                &&& result is Err && d.ask(
                    Deed::Write { path: with_extension(rootfs, "specialize.tmp"@), bytes },
                ).1 != News::Done ==> same_at(before, after, path)
            }
        }),
{
    let staging = with_extension(rootfs, "specialize.tmp"@);
    one_step(g, rootfs, d, Deed::Write { path: staging, bytes });
    let (staged, news) = d.ask(Deed::Write { path: staging, bytes });
    removing_step(g, rootfs, staged, path);
    let removed = staged.remove(rootfs, path);
    let command = "write "@ + staging + " "@ + path;
    command_step(g, rootfs, removed, command);
    the_verbs();
    assert(command =~= "write"@ + " "@ + (staging + " "@ + path));
    first_word("write"@, staging + " "@ + path);
    first_word(staging, path);
    only_word(path);
    assert(words(command) =~= seq!["write"@, staging, path]);
    let ran = removed.debugfs(rootfs, command).0;
    one_step(g, rootfs, ran, Deed::Remove { path: staging });
}

/// A link of the guest is made.
pub(crate) proof fn linking_step(
    g: Inside,
    rootfs: Seq<char>,
    d: Dialog<Deed, News>,
    path: Seq<char>,
    target: Seq<char>,
)
    requires
        one_word(path),
        one_word(target),
    ensures
        ({
            let next = d.link(rootfs, path, target).0;
            let before = guest(g, rootfs, d);
            let after = guest(g, rootfs, next);
            &&& next.answers == d.answers
            &&& d.waiting ==> next.waiting
            &&& !next.waiting ==> {
                &&& !d.waiting
                &&& forall|p: Seq<char>| p != path ==> #[trigger] same_at(before, after, p)
                &&& after.tree.contains_key(path)
                &&& after.tree[path] == (Entry::Link { target })
            }
        }),
{
    removing_step(g, rootfs, d, path);
    let removed = d.remove(rootfs, path);
    symlink_step(g, rootfs, removed, path, target);
    looking_step(
        g,
        rootfs,
        removed.debugfs(rootfs, "symlink "@ + path + " "@ + target).0,
        path,
    );
    let next = d.link(rootfs, path, target).0;
    if !next.waiting {
        let made = removed.debugfs(rootfs, "symlink "@ + path + " "@ + target).0;
        assert forall|p: Seq<char>| p != path implies #[trigger] same_at(
            guest(g, rootfs, d),
            guest(g, rootfs, next),
            p,
        ) by {
            assert(same_at(guest(g, rootfs, removed), guest(g, rootfs, made), p));
        }
    }
}

pub(crate) proof fn symlink_step(
    g: Inside,
    rootfs: Seq<char>,
    d: Dialog<Deed, News>,
    path: Seq<char>,
    target: Seq<char>,
)
    requires
        one_word(path),
        one_word(target),
    ensures
        ({
            let next = d.debugfs(rootfs, "symlink "@ + path + " "@ + target).0;
            let before = guest(g, rootfs, d);
            let after = guest(g, rootfs, next);
            &&& next.answers == d.answers
            &&& d.waiting ==> next.waiting
            &&& !next.waiting ==> {
                &&& !d.waiting
                &&& forall|p: Seq<char>| p != path ==> #[trigger] same_at(before, after, p)
                &&& after.tree.contains_key(path)
                &&& !before.tree.contains_key(path) ==> after.tree[path] == (Entry::Link {
                    target,
                })
                &&& before.tree.contains_key(path) ==> after.tree[path] == before.tree[path]
            }
        }),
{
    let command = "symlink "@ + path + " "@ + target;
    command_step(g, rootfs, d, command);
    the_verbs();
    assert(command =~= "symlink"@ + " "@ + (path + " "@ + target));
    first_word("symlink"@, path + " "@ + target);
    first_word(path, target);
    only_word(target);
    assert(words(command) =~= seq!["symlink"@, path, target]);
}

pub(crate) proof fn mkdir_step(
    g: Inside,
    rootfs: Seq<char>,
    d: Dialog<Deed, News>,
    command: Seq<char>,
    path: Seq<char>,
)
    requires
        one_word(path),
        command == "mkdir"@ + " "@ + path,
    ensures
        ({
            let next = d.debugfs(rootfs, command).0;
            &&& next.answers == d.answers
            &&& d.waiting ==> next.waiting
            &&& !next.waiting ==> {
                &&& !d.waiting
                &&& forall|p: Seq<char>|
                    p != path ==> #[trigger] same_at(
                        guest(g, rootfs, d),
                        guest(g, rootfs, next),
                        p,
                    )
            }
        }),
{
    command_step(g, rootfs, d, command);
    the_verbs();
    first_word("mkdir"@, path);
    only_word(path);
    assert(words(command) =~= seq!["mkdir"@, path]);
}

} // verus!
