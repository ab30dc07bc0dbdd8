//! What a guest starts with: the units that are enabled, the tools of the toolbox, and what
//! its scripts say.

use vstd::prelude::*;

#[allow(unused_imports)]
use super::guest::{
    Profile, IPV6_SYSCTL, NETWORK_READY_OPENRC_HEAD, NETWORK_READY_OPENRC_PATH,
    NETWORK_READY_OPENRC_PROBE, NETWORK_READY_OPENRC_RUNLEVEL_PATH, NETWORK_READY_PROBE,
    NETWORK_READY_SCRIPT_PATH, NETWORK_READY_UNIT, NETWORK_READY_UNIT_PATH,
    NETWORK_READY_UNIT_WANTS_PATH,
};
#[allow(unused_imports)]
use super::guest_paths::paths_are_words;
#[allow(unused_imports)]
use super::identity::{
    can_stage, look_spares, marked_spares, mkdir_spares, mkdirs, put_spares, remove_spares,
    search_spares, spares, tools_are_words,
};
#[allow(unused_imports)]
use super::tree::{
    command_step, guest, lacks, linking_step, looking_step, putting_step, removing_step, same_at,
    symlink_step, Entry, Inside,
};
#[allow(unused_imports)]
use super::{Deed, News};
#[allow(unused_imports)]
use crate::dialog::Dialog;
#[allow(unused_imports)]
use crate::oci::provision::{applet_paths, link_path, GUEST_TOOLBOX, PATH_APPLETS};
#[allow(unused_imports)]
use crate::path::with_extension;
#[allow(unused_imports)]
use crate::templates::laws::one_word;
#[allow(unused_imports)]
use crate::text::{ascii_lower, contains, is_space, occurs_at, starts_with, texts, utf8_lossy};
#[allow(unused_imports)]
use vstd::utf8::encode_utf8;

verus! {

/// Whether the guest was asked for something at a path, and had it.
pub open spec fn found_at(d: Dialog<Deed, News>, rootfs: Seq<char>, path: Seq<char>) -> bool {
    exists|k: int|
        {
            &&& 0 <= k < d.asked.len() && k < d.answers.len()
            &&& (#[trigger] d.asked[k]) == (Deed::Run {
                program: "debugfs"@,
                args: seq!["-w"@, "-R"@, "stat "@ + path, rootfs],
            })
            &&& (d.answers[k] matches News::Ran { stdout, stderr, .. } && {
                let text = utf8_lossy(stdout) + utf8_lossy(stderr);
                !contains(text, "File not found"@) && !contains(ascii_lower(text), "doesn't exist"@)
            })
        }
}

/// Whether a dialog went on from another one.
pub open spec fn went_on(before: Dialog<Deed, News>, after: Dialog<Deed, News>) -> bool {
    &&& after.answers == before.answers
    &&& before.waiting ==> after.waiting
    &&& before.asked.len() <= after.asked.len()
    &&& forall|i: int| 0 <= i < before.asked.len() ==> #[trigger] after.asked[i] == before.asked[i]
}

proof fn found_on(before: Dialog<Deed, News>, after: Dialog<Deed, News>, rootfs: Seq<char>)
    requires
        went_on(before, after),
    ensures
        forall|path: Seq<char>|
            found_at(before, rootfs, path) ==> #[trigger] found_at(after, rootfs, path),
{
    assert forall|path: Seq<char>| found_at(before, rootfs, path) implies #[trigger] found_at(
        after,
        rootfs,
        path,
    ) by {
        let k = choose|k: int|
            {
                &&& 0 <= k < before.asked.len() && k < before.answers.len()
                &&& (#[trigger] before.asked[k]) == (Deed::Run {
                    program: "debugfs"@,
                    args: seq!["-w"@, "-R"@, "stat "@ + path, rootfs],
                })
                &&& (before.answers[k] matches News::Ran { stdout, stderr, .. } && {
                    let text = utf8_lossy(stdout) + utf8_lossy(stderr);
                    !contains(text, "File not found"@) && !contains(
                        ascii_lower(text),
                        "doesn't exist"@,
                    )
                })
            };
        assert(after.asked[k] == before.asked[k]);
    }
}

proof fn a_look_tells(g: Inside, rootfs: Seq<char>, d: Dialog<Deed, News>, q: Seq<char>)
    ensures
        ({
            let (next, there) = d.exists_in(rootfs, q);
            &&& went_on(d, next)
            &&& !next.waiting ==> {
                &&& guest(g, rootfs, next) == guest(g, rootfs, d)
                &&& there ==> found_at(next, rootfs, q)
                &&& !there ==> lacks(next, rootfs, q)
            }
        }),
{
    looking_step(g, rootfs, d, q);
    look_spares(g, rootfs, d, q, q);
    command_step(g, rootfs, d, "stat "@ + q);
    let (next, there) = d.exists_in(rootfs, q);
    if !next.waiting && there {
        let k = d.asked.len() as int;
        assert(next.asked[k] == (Deed::Run {
            program: "debugfs"@,
            args: seq!["-w"@, "-R"@, "stat "@ + q, rootfs],
        }));
    }
}

proof fn a_search_tells(
    g: Inside,
    rootfs: Seq<char>,
    d: Dialog<Deed, News>,
    candidates: Seq<Seq<char>>,
)
    ensures
        ({
            let (next, there) = d.first_there(rootfs, candidates);
            &&& went_on(d, next)
            &&& !next.waiting ==> {
                &&& guest(g, rootfs, next) == guest(g, rootfs, d)
                &&& there is Some ==> candidates.contains(there->0) && found_at(
                    next,
                    rootfs,
                    there->0,
                )
            }
        }),
    decreases candidates.len(),
{
    if candidates.len() > 0 {
        a_look_tells(g, rootfs, d, candidates[0]);
        let (next, there) = d.exists_in(rootfs, candidates[0]);
        if there {
            assert(candidates.contains(candidates[0]));
        } else {
            let rest = candidates.skip(1);
            a_search_tells(g, rootfs, next, rest);
            let (end, found) = next.first_there(rootfs, rest);
            if found is Some && !end.waiting {
                let i = choose|i: int| 0 <= i < rest.len() && rest[i] == found->0;
                assert(candidates[i + 1] == found->0);
            }
        }
    }
}

/// Whether all that was in a guest stays as it is, and all that joined it are links to the
/// toolbox.
pub open spec fn only_links_join(before: Inside, after: Inside) -> bool {
    &&& forall|p: Seq<char>| #[trigger]
        before.tree.contains_key(p) ==> after.tree.contains_key(p) && after.tree[p]
            == before.tree[p]
    &&& forall|p: Seq<char>| #[trigger]
        after.tree.contains_key(p) ==> before.tree.contains_key(p) || after.tree[p] == (
        Entry::Link { target: "/etc/firecrab/busybox"@ })
}

/// Whether a tool is on the path of a guest: it was found in one of the directories that a
/// login shell searches, or something is in its place.
pub open spec fn on_the_path(
    g: Inside,
    rootfs: Seq<char>,
    d: Dialog<Deed, News>,
    usr_bin: bool,
    tool: Seq<char>,
) -> bool {
    ||| found_at(d, rootfs, "/usr/local/sbin/"@ + tool)
    ||| found_at(d, rootfs, "/usr/local/bin/"@ + tool)
    ||| found_at(d, rootfs, "/usr/sbin/"@ + tool)
    ||| found_at(d, rootfs, "/usr/bin/"@ + tool)
    ||| found_at(d, rootfs, "/sbin/"@ + tool)
    ||| found_at(d, rootfs, "/bin/"@ + tool)
    ||| usr_bin && guest(g, rootfs, d).tree.contains_key("/usr/bin/"@ + tool)
    ||| !usr_bin && guest(g, rootfs, d).tree.contains_key("/bin/"@ + tool)
}

proof fn directories_of_tools(tool: Seq<char>)
    ensures
        applet_paths(tool) == seq![
            "/usr/local/sbin/"@ + tool,
            "/usr/local/bin/"@ + tool,
            "/usr/sbin/"@ + tool,
            "/usr/bin/"@ + tool,
            "/sbin/"@ + tool,
            "/bin/"@ + tool,
        ],
{
    reveal_strlit("/");
    reveal_strlit("/usr/local/sbin");
    reveal_strlit("/usr/local/bin");
    reveal_strlit("/usr/sbin");
    reveal_strlit("/usr/bin");
    reveal_strlit("/sbin");
    reveal_strlit("/bin");
    reveal_strlit("/usr/local/sbin/");
    reveal_strlit("/usr/local/bin/");
    reveal_strlit("/usr/sbin/");
    reveal_strlit("/usr/bin/");
    reveal_strlit("/sbin/");
    reveal_strlit("/bin/");
    assert("/usr/local/sbin"@ + "/"@ + tool =~= "/usr/local/sbin/"@ + tool);
    assert("/usr/local/bin"@ + "/"@ + tool =~= "/usr/local/bin/"@ + tool);
    assert("/usr/sbin"@ + "/"@ + tool =~= "/usr/sbin/"@ + tool);
    assert("/usr/bin"@ + "/"@ + tool =~= "/usr/bin/"@ + tool);
    assert("/sbin"@ + "/"@ + tool =~= "/sbin/"@ + tool);
    assert("/bin"@ + "/"@ + tool =~= "/bin/"@ + tool);
}

proof fn links_are_words(usr_bin: bool, tool: Seq<char>)
    requires
        one_word(tool),
    ensures
        one_word(link_path(usr_bin, tool)),
{
    let path = link_path(usr_bin, tool);
    reveal_strlit("/usr/bin/");
    reveal_strlit("/bin/");
    assert forall|i: int| 0 <= i < path.len() implies !is_space(#[trigger] path[i]) by {
        let n = path.len() - tool.len();
        if i >= n {
            assert(path[i] == tool[i - n]);
        } else {
            assert(i == 0 || i == 1 || i == 2 || i == 3 || i == 4 || i == 5 || i == 6 || i == 7
                || i == 8);
        }
    }
}

proof fn joining_goes_on(a: Inside, b: Inside, c: Inside)
    requires
        only_links_join(a, b),
        only_links_join(b, c),
    ensures
        only_links_join(a, c),
{
    assert forall|p: Seq<char>| #[trigger] a.tree.contains_key(p) implies c.tree.contains_key(p)
        && c.tree[p] == a.tree[p] by {
        assert(b.tree.contains_key(p));
    }
    assert forall|p: Seq<char>| #[trigger] c.tree.contains_key(p) implies a.tree.contains_key(p)
        || c.tree[p] == (Entry::Link { target: "/etc/firecrab/busybox"@ }) by {
        if b.tree.contains_key(p) {
            assert(c.tree[p] == b.tree[p]);
        }
    }
}

proof fn a_path_stays(
    g: Inside,
    rootfs: Seq<char>,
    before: Dialog<Deed, News>,
    after: Dialog<Deed, News>,
    usr_bin: bool,
    tool: Seq<char>,
)
    requires
        went_on(before, after),
        only_links_join(guest(g, rootfs, before), guest(g, rootfs, after)),
        on_the_path(g, rootfs, before, usr_bin, tool),
    ensures
        on_the_path(g, rootfs, after, usr_bin, tool),
{
    found_on(before, after, rootfs);
    let b = guest(g, rootfs, before);
    let a = guest(g, rootfs, after);
    assert(b.tree.contains_key("/usr/bin/"@ + tool) ==> a.tree.contains_key("/usr/bin/"@ + tool));
    assert(b.tree.contains_key("/bin/"@ + tool) ==> a.tree.contains_key("/bin/"@ + tool));
}

proof fn links_join(
    g: Inside,
    rootfs: Seq<char>,
    d: Dialog<Deed, News>,
    usr_bin: bool,
    tools: Seq<Seq<char>>,
)
    requires
        forall|i: int| 0 <= i < tools.len() ==> one_word(#[trigger] tools[i]),
    ensures
        ({
            let end = d.linked(rootfs, usr_bin, tools);
            &&& went_on(d, end)
            &&& !end.waiting ==> {
                &&& only_links_join(guest(g, rootfs, d), guest(g, rootfs, end))
                &&& forall|i: int|
                    0 <= i < tools.len() ==> on_the_path(
                        g,
                        rootfs,
                        end,
                        usr_bin,
                        #[trigger] tools[i],
                    )
            }
        }),
    decreases tools.len(),
{
    if tools.len() > 0 {
        paths_are_words();
        let tool = tools[0];
        let paths = applet_paths(tool);
        directories_of_tools(tool);
        a_search_tells(g, rootfs, d, paths);
        let (looked, there) = d.first_there(rootfs, paths);
        assert(one_word(tool));
        links_are_words(usr_bin, tool);
        let path = link_path(usr_bin, tool);
        symlink_step(g, rootfs, looked, path, GUEST_TOOLBOX@);
        command_step(g, rootfs, looked, "symlink "@ + path + " "@ + GUEST_TOOLBOX@);
        let made = looked.debugfs(rootfs, "symlink "@ + path + " "@ + GUEST_TOOLBOX@).0;
        let next = if there is Some {
            looked
        } else {
            made
        };
        if !next.waiting {
            let b = guest(g, rootfs, looked);
            let a = guest(g, rootfs, next);
            assert(only_links_join(b, a)) by {
                if there is None {
                    assert forall|p: Seq<char>| #[trigger]
                        b.tree.contains_key(p) implies a.tree.contains_key(p) && a.tree[p]
                        == b.tree[p] by {
                        if p != path {
                            assert(same_at(b, a, p));
                        }
                    }
                    assert forall|p: Seq<char>| #[trigger]
                        a.tree.contains_key(p) implies b.tree.contains_key(p) || a.tree[p] == (
                    Entry::Link { target: "/etc/firecrab/busybox"@ }) by {
                        if p != path {
                            assert(same_at(b, a, p));
                        }
                    }
                }
            }
            assert(on_the_path(g, rootfs, next, usr_bin, tool)) by {
                if there is Some {
                    let i = choose|i: int| 0 <= i < paths.len() && paths[i] == there->0;
                    assert(i == 0 || i == 1 || i == 2 || i == 3 || i == 4 || i == 5);
                }
            }
        }
        let rest = tools.skip(1);
        assert forall|i: int| 0 <= i < rest.len() implies one_word(#[trigger] rest[i]) by {
            assert(rest[i] == tools[i + 1]);
        }
        links_join(g, rootfs, next, usr_bin, rest);
        let end = next.linked(rootfs, usr_bin, rest);
        if !end.waiting {
            joining_goes_on(guest(g, rootfs, d), guest(g, rootfs, next), guest(g, rootfs, end));
            a_path_stays(g, rootfs, next, end, usr_bin, tool);
            assert forall|i: int| 0 <= i < tools.len() implies on_the_path(
                g,
                rootfs,
                end,
                usr_bin,
                #[trigger] tools[i],
            ) by {
                if i > 0 {
                    assert(rest[i - 1] == tools[i]);
                }
            }
        }
    }
}

/// A guest that has the toolbox finds each of these tools on its path at the end: its own where
/// it has one, and else a link to the toolbox, in `/usr/bin` where it has that and in `/bin`
/// where not. Of what the guest had, nothing changes but for the directory `/bin`.
pub proof fn missing_tools_come_from_the_toolbox(g: Inside, rootfs: Seq<char>, d: Dialog<Deed, News>)
    requires
        !d.toolbox(rootfs).waiting,
        d.exists_in(rootfs, "/etc/firecrab/busybox"@).1,
    ensures
        ({
            let end = d.toolbox(rootfs);
            let usr_bin = d.exists_in(rootfs, "/etc/firecrab/busybox"@).0.exists_in(
                rootfs,
                "/usr/bin"@,
            ).1;
            let b = guest(g, rootfs, d);
            let a = guest(g, rootfs, end);
            &&& on_the_path(g, rootfs, end, usr_bin, "ping"@)
            &&& on_the_path(g, rootfs, end, usr_bin, "ping6"@)
            &&& on_the_path(g, rootfs, end, usr_bin, "traceroute"@)
            &&& on_the_path(g, rootfs, end, usr_bin, "wget"@)
            &&& on_the_path(g, rootfs, end, usr_bin, "nc"@)
            &&& on_the_path(g, rootfs, end, usr_bin, "nslookup"@)
            &&& on_the_path(g, rootfs, end, usr_bin, "vi"@)
            &&& on_the_path(g, rootfs, end, usr_bin, "sh"@)
            &&& forall|p: Seq<char>|
                p != "/bin"@ && #[trigger] a.tree.contains_key(p) ==> (if b.tree.contains_key(p) {
                    a.tree[p] == b.tree[p]
                } else {
                    a.tree[p] == (Entry::Link { target: "/etc/firecrab/busybox"@ })
                })
            &&& forall|p: Seq<char>|
                p != "/bin"@ && #[trigger] b.tree.contains_key(p) ==> a.tree.contains_key(p)
        }),
{
    paths_are_words();
    tools_are_words();
    mkdirs();
    a_look_tells(g, rootfs, d, "/etc/firecrab/busybox"@);
    let looked = d.exists_in(rootfs, "/etc/firecrab/busybox"@).0;
    a_look_tells(g, rootfs, looked, "/usr/bin"@);
    let (found, usr_bin) = looked.exists_in(rootfs, "/usr/bin"@);
    let next = if usr_bin {
        found
    } else {
        found.debugfs(rootfs, "mkdir /bin"@).0
    };
    links_join(g, rootfs, next, usr_bin, texts(PATH_APPLETS@));
    let end = d.toolbox(rootfs);
    let b = guest(g, rootfs, d);
    let m = guest(g, rootfs, next);
    let a = guest(g, rootfs, end);
    assert forall|p: Seq<char>| p != "/bin"@ implies #[trigger] same_at(b, m, p) by {
        if !usr_bin {
            reveal_strlit("/bin");
            assert("/bin"@.len() == 4);
            mkdir_spares(g, rootfs, found, "mkdir /bin"@, "/bin"@, p);
        }
    }
    let all = texts(PATH_APPLETS@);
    assert(all[0] == "ping"@ && all[1] == "ping6"@ && all[2] == "traceroute"@ && all[3] == "wget"@
        && all[4] == "nc"@ && all[5] == "nslookup"@ && all[6] == "vi"@ && all[7] == "sh"@);
    assert forall|p: Seq<char>| p != "/bin"@ && #[trigger] a.tree.contains_key(p) implies (
    if b.tree.contains_key(p) {
        a.tree[p] == b.tree[p]
    } else {
        a.tree[p] == (Entry::Link { target: "/etc/firecrab/busybox"@ })
    }) by {
        assert(same_at(b, m, p));
        if m.tree.contains_key(p) {
            assert(a.tree[p] == m.tree[p]);
        }
    }
    assert forall|p: Seq<char>|
        p != "/bin"@ && #[trigger] b.tree.contains_key(p) implies a.tree.contains_key(p) by {
        assert(same_at(b, m, p));
        assert(m.tree.contains_key(p));
    }
}

/// Whether a text that was read back of the guest holds a mark.
pub open spec fn was_marked(d: Dialog<Deed, News>, rootfs: Seq<char>, mark: Seq<char>) -> bool {
    exists|k: int|
        {
            &&& 0 <= k < d.asked.len() && k < d.answers.len()
            &&& (#[trigger] d.asked[k]) == (Deed::ReadText {
                path: with_extension(rootfs, "systemctl.tmp"@),
            })
            &&& (d.answers[k] matches News::Text(text) && contains(text, mark))
        }
}

proof fn removed_where_marked(
    g: Inside,
    rootfs: Seq<char>,
    d: Dialog<Deed, News>,
    q: Seq<char>,
    mark: Seq<char>,
)
    requires
        one_word(q),
        !d.remove_marked(rootfs, q, mark).waiting,
    ensures
        !same_at(guest(g, rootfs, d), guest(g, rootfs, d.remove_marked(rootfs, q, mark)), q)
            ==> was_marked(d.remove_marked(rootfs, q, mark), rootfs, mark),
        d.file_contains(rootfs, q, mark).1 ==> !guest(
            g,
            rootfs,
            d.remove_marked(rootfs, q, mark),
        ).tree.contains_key(q),
{
    let staging = with_extension(rootfs, "systemctl.tmp"@);
    look_spares(g, rootfs, d, q, q);
    let (looked, there) = d.exists_in(rootfs, q);
    super::identity::read_spares(g, rootfs, looked, q, staging, q);
    let (seen, marked) = d.file_contains(rootfs, q, mark);
    removing_step(g, rootfs, seen, q);
    if marked {
        let (dumped, result) = looked.dump(rootfs, q, staging);
        let (read, news) = dumped.ask(Deed::ReadText { path: staging });
        super::tree::one_step(g, rootfs, dumped, Deed::ReadText { path: staging });
        super::tree::one_step(g, rootfs, read, Deed::Remove { path: staging });
        command_step(g, rootfs, seen, "rm "@ + q);
        let end = seen.remove(rootfs, q);
        let k = dumped.asked.len() as int;
        assert(read.asked[k] == (Deed::ReadText { path: staging }));
        assert(end.asked[k] == read.asked[k]);
        assert(was_marked(end, rootfs, mark));
    }
}

/// A guest keeps a `systemctl` of its own: one in `/bin` or `/usr/bin` goes only where a text
/// that was read back carries the project's mark. The one in `/usr/local/bin` goes always.
pub proof fn a_real_systemctl_stays(g: Inside, rootfs: Seq<char>, d: Dialog<Deed, News>)
    requires
        !d.no_systemctl(rootfs).waiting,
    ensures
        ({
            let end = d.no_systemctl(rootfs);
            let b = guest(g, rootfs, d);
            let a = guest(g, rootfs, end);
            &&& !a.tree.contains_key("/usr/local/bin/systemctl"@)
            &&& !was_marked(end, rootfs, "Firecrab systemctl"@) ==> same_at(
                b,
                a,
                "/bin/systemctl"@,
            ) && same_at(b, a, "/usr/bin/systemctl"@)
            &&& forall|p: Seq<char>|
                p != "/usr/local/bin/systemctl"@ && p != "/bin/systemctl"@ && p
                    != "/usr/bin/systemctl"@ ==> #[trigger] same_at(b, a, p)
        }),
{
    paths_are_words();
    reveal_strlit("/usr/local/bin/systemctl");
    reveal_strlit("/bin/systemctl");
    reveal_strlit("/usr/bin/systemctl");
    let own = "/usr/local/bin/systemctl"@;
    let bin = "/bin/systemctl"@;
    let usr = "/usr/bin/systemctl"@;
    assert(own.len() == 24 && bin.len() == 14 && usr.len() == 18);
    let mark = "Firecrab systemctl"@;
    removing_step(g, rootfs, d, own);
    let d1 = d.remove(rootfs, own);
    let d2 = d1.remove_marked(rootfs, bin, mark);
    let end = d2.remove_marked(rootfs, usr, mark);
    marked_spares(g, rootfs, d1, bin, mark, own);
    marked_spares(g, rootfs, d2, usr, mark, own);
    marked_spares(g, rootfs, d1, bin, mark, usr);
    marked_spares(g, rootfs, d2, usr, mark, bin);
    remove_spares(g, rootfs, d, own, bin);
    remove_spares(g, rootfs, d, own, usr);
    removed_where_marked(g, rootfs, d1, bin, mark);
    removed_where_marked(g, rootfs, d2, usr, mark);
    if was_marked(d2, rootfs, mark) {
        let k = choose|k: int|
            {
                &&& 0 <= k < d2.asked.len() && k < d2.answers.len()
                &&& (#[trigger] d2.asked[k]) == (Deed::ReadText {
                    path: with_extension(rootfs, "systemctl.tmp"@),
                })
                &&& (d2.answers[k] matches News::Text(text) && contains(text, mark))
            };
        assert(end.asked[k] == d2.asked[k]);
        assert(was_marked(end, rootfs, mark));
    }
    assert forall|p: Seq<char>| p != own && p != bin && p != usr implies #[trigger] same_at(
        guest(g, rootfs, d),
        guest(g, rootfs, end),
        p,
    ) by {
        remove_spares(g, rootfs, d, own, p);
        marked_spares(g, rootfs, d1, bin, mark, p);
        marked_spares(g, rootfs, d2, usr, mark, p);
    }
}

/// Whether the readiness unit of a guest is there and enabled: systemd finds the unit under its
/// name among those that its target wants.
pub open spec fn unit_is_enabled(g: Inside) -> bool {
    let unit = "/etc/systemd/system/firecrab-network-ready.service"@;
    let wanted = "/etc/systemd/system/multi-user.target.wants/firecrab-network-ready.service"@;
    &&& g.tree.contains_key(unit)
    &&& g.tree[unit] == (Entry::File { bytes: encode_utf8(NETWORK_READY_UNIT@), mode: None })
    &&& g.tree.contains_key(wanted)
    &&& g.tree[wanted] == (Entry::Link { target: unit })
}

/// Where a guest that lacked the readiness script has systemd, the unit of the script is there
/// and is enabled at the end.
pub proof fn a_new_unit_is_enabled(g: Inside, rootfs: Seq<char>, d: Dialog<Deed, News>)
    requires
        can_stage(rootfs),
        !d.fallback_unit(rootfs).0.waiting,
        d.fallback_unit(rootfs).1 is Ok,
        !lacks(d.fallback_unit(rootfs).0, rootfs, "/etc/systemd/system"@),
        !lacks(
            d.fallback_unit(rootfs).0,
            rootfs,
            "/etc/systemd/system/multi-user.target.wants"@,
        ),
    ensures
        unit_is_enabled(guest(g, rootfs, d.fallback_unit(rootfs).0)),
{
    paths_are_words();
    let unit = "/etc/systemd/system/firecrab-network-ready.service"@;
    let link = "/etc/systemd/system/multi-user.target.wants/firecrab-network-ready.service"@;
    let wants = "/etc/systemd/system/multi-user.target.wants"@;
    reveal_strlit("/etc/systemd/system/firecrab-network-ready.service");
    reveal_strlit("/etc/systemd/system/multi-user.target.wants/firecrab-network-ready.service");
    assert(unit.len() != link.len());
    a_look_tells(g, rootfs, d, "/etc/systemd/system"@);
    let (looked, systemd) = d.exists_in(rootfs, "/etc/systemd/system"@);
    let bytes = encode_utf8(NETWORK_READY_UNIT@);
    putting_step(g, rootfs, looked, unit, bytes);
    put_spares(g, rootfs, looked, unit, bytes, link);
    let put = looked.put(rootfs, unit, NETWORK_READY_UNIT@).0;
    a_look_tells(g, rootfs, put, wants);
    let (found, there) = put.exists_in(rootfs, wants);
    linking_step(g, rootfs, found, link, unit);
    super::identity::link_in_spares(g, rootfs, put, wants, false, link, unit, unit);
    let end = d.fallback_unit(rootfs).0;
    if !systemd {
        assert(lacks(end, rootfs, "/etc/systemd/system"@));
    }
    if !there {
        assert(lacks(end, rootfs, wants));
    }
    assert(same_at(guest(g, rootfs, found), guest(g, rootfs, end), unit));
}

/// Where a guest that has the readiness script, or the service of OpenRC, has the directory of
/// what starts at boot, what it has is enabled at the end, or was found to be enabled.
pub proof fn what_a_guest_has_is_enabled(g: Inside, rootfs: Seq<char>, d: Dialog<Deed, News>)
    requires
        can_stage(rootfs),
    ensures
        ({
            let end = d.enable_service(rootfs).0;
            let link = "/etc/runlevels/default/firecrab-network-ready"@;
            !end.waiting && !lacks(end, rootfs, "/etc/runlevels/default"@) ==> found_at(
                end,
                rootfs,
                link,
            ) || (guest(g, rootfs, end).tree.contains_key(link) && guest(g, rootfs, end).tree[link]
                == (Entry::Link { target: "/etc/init.d/firecrab-network-ready"@ }))
        }),
        ({
            let (end, result) = d.enable_unit(rootfs);
            let unit = "/etc/systemd/system/firecrab-network-ready.service"@;
            let link = "/etc/systemd/system/multi-user.target.wants/firecrab-network-ready.service"@;
            !end.waiting && result is Ok && !lacks(end, rootfs, "/etc/systemd/system"@) && !lacks(
                end,
                rootfs,
                "/etc/systemd/system/multi-user.target.wants"@,
            ) ==> found_at(end, rootfs, link) || (guest(g, rootfs, end).tree.contains_key(link)
                && guest(g, rootfs, end).tree[link] == (Entry::Link { target: unit }))
        }),
{
    paths_are_words();
    linked_or_found(
        g,
        rootfs,
        d,
        "/etc/runlevels/default"@,
        "/etc/runlevels/default/firecrab-network-ready"@,
        "/etc/init.d/firecrab-network-ready"@,
    );
    let unit = "/etc/systemd/system/firecrab-network-ready.service"@;
    let link = "/etc/systemd/system/multi-user.target.wants/firecrab-network-ready.service"@;
    a_look_tells(g, rootfs, d, "/etc/systemd/system"@);
    let (looked, systemd) = d.exists_in(rootfs, "/etc/systemd/system"@);
    let (seen, there) = looked.exists_in(rootfs, unit);
    let put = seen.put(rootfs, unit, NETWORK_READY_UNIT@).0;
    let wants = "/etc/systemd/system/multi-user.target.wants"@;
    linked_or_found(g, rootfs, seen, wants, link, unit);
    linked_or_found(g, rootfs, put, wants, link, unit);
}

proof fn linked_or_found(
    g: Inside,
    rootfs: Seq<char>,
    d: Dialog<Deed, News>,
    directory: Seq<char>,
    link: Seq<char>,
    target: Seq<char>,
)
    requires
        one_word(link),
        one_word(target),
    ensures
        ({
            let end = d.link_in(rootfs, directory, true, link, target).0;
            !end.waiting && !lacks(end, rootfs, directory) ==> found_at(end, rootfs, link) || (
            guest(g, rootfs, end).tree.contains_key(link) && guest(g, rootfs, end).tree[link] == (
            Entry::Link { target }))
        }),
{
    a_look_tells(g, rootfs, d, directory);
    let (looked, there) = d.exists_in(rootfs, directory);
    a_look_tells(g, rootfs, looked, link);
    let (seen, linked) = looked.exists_in(rootfs, link);
    linking_step(g, rootfs, seen, link, target);
}

proof fn stands_in(text: Seq<char>, part: Seq<char>, at: int)
    requires
        0 <= at,
        at + part.len() <= text.len(),
        text.subrange(at, at + part.len()) == part,
    ensures
        contains(text, part),
{
    assert(occurs_at(text, part, at));
}

proof fn stands_further_on(front: Seq<char>, text: Seq<char>, back: Seq<char>, part: Seq<char>)
    requires
        contains(text, part),
    ensures
        contains(front + text + back, part),
{
    let at = choose|at: int| #[trigger] occurs_at(text, part, at);
    let n = front.len() as int;
    let whole = front + text + back;
    assert(whole.subrange(n + at, n + at + part.len()) =~= text.subrange(at, at + part.len()));
    stands_in(whole, part, n + at);
}

proof fn the_probe_says()
    ensures
        contains(NETWORK_READY_PROBE@, "\n    echo \"FIRECRAB_NETWORK_READY $ipv4\"\n"@),
        contains(NETWORK_READY_PROBE@, "\n  echo \"FIRECRAB_NETWORK_FAILED no-ipv4-address\"\n"@),
        contains(NETWORK_READY_PROBE@, "\necho \"FIRECRAB_NETWORK_FAILED dns-unreachable\"\n"@),
{
    reveal_strlit("\nipv4=\"\"\nfor _ in $(seq 1 15); do\n  ipv4=$(ip -4 -o addr show scope global 2>/dev/null | \\\n    awk '$2 != \"lo\" { split($4, a, \"/\"); print a[1]; exit }')\n  [ -n \"$ipv4\" ] && break\n  sleep 1\ndone\n\nif [ -z \"$ipv4\" ]; then\n  echo \"FIRECRAB_NETWORK_FAILED no-ipv4-address\"\n  exit 0\nfi\n\ngw=$(ip -4 route show default 2>/dev/null | awk '{print $3; exit}')\n\n# Some images symlink resolv.conf to systemd-resolved's stub without shipping\n# the package — /run/systemd/resolve/stub-resolv.conf never appears.\nif [ -n \"$gw\" ] && [ ! -e /run/systemd/resolve/stub-resolv.conf ]; then\n  if [ -L /etc/resolv.conf ] || [ ! -s /etc/resolv.conf ]; then\n    rm -f /etc/resolv.conf\n    printf 'nameserver %s\\n' \"$gw\" > /etc/resolv.conf\n  fi\nfi\n\ndns_ok() {\n  getent hosts example.com >/dev/null 2>&1 && return 0\n  if [ -n \"$gw\" ] && command -v dig >/dev/null 2>&1; then\n    ans=$(dig +short +time=2 +tries=1 @\"$gw\" example.com A 2>/dev/null || true)\n    [ -n \"$ans\" ] && return 0\n  fi\n  return 1\n}\n\nfor _ in $(seq 1 15); do\n  if dns_ok; then\n    echo \"FIRECRAB_NETWORK_READY $ipv4\"\n    exit 0\n  fi\n  sleep 1\ndone\necho \"FIRECRAB_NETWORK_FAILED dns-unreachable\"\n");
    reveal_strlit("\n    echo \"FIRECRAB_NETWORK_READY $ipv4\"\n");
    assert(NETWORK_READY_PROBE@.subrange(1018, 1059) =~= "\n    echo \"FIRECRAB_NETWORK_READY $ipv4\"\n"@);
    stands_in(NETWORK_READY_PROBE@, "\n    echo \"FIRECRAB_NETWORK_READY $ipv4\"\n"@, 1018);
    reveal_strlit("\n  echo \"FIRECRAB_NETWORK_FAILED no-ipv4-address\"\n");
    assert(NETWORK_READY_PROBE@.subrange(218, 268) =~= "\n  echo \"FIRECRAB_NETWORK_FAILED no-ipv4-address\"\n"@);
    stands_in(NETWORK_READY_PROBE@, "\n  echo \"FIRECRAB_NETWORK_FAILED no-ipv4-address\"\n"@, 218);
    reveal_strlit("\necho \"FIRECRAB_NETWORK_FAILED dns-unreachable\"\n");
    assert(NETWORK_READY_PROBE@.subrange(1089, 1137) =~= "\necho \"FIRECRAB_NETWORK_FAILED dns-unreachable\"\n"@);
    stands_in(NETWORK_READY_PROBE@, "\necho \"FIRECRAB_NETWORK_FAILED dns-unreachable\"\n"@, 1089);
}

proof fn the_probe_of_openrc_says()
    ensures
        contains(NETWORK_READY_OPENRC_PROBE@, "\n\t\techo \"FIRECRAB_NETWORK_READY $ipv4\" >/dev/console\n"@),
        contains(NETWORK_READY_OPENRC_PROBE@, "\n\t\techo \"FIRECRAB_NETWORK_FAILED no-ipv4-address\" >/dev/console\n"@),
        contains(NETWORK_READY_OPENRC_PROBE@, "\n\t\techo \"FIRECRAB_NETWORK_FAILED dns-unreachable\" >/dev/console\n"@),
{
    reveal_strlit("\n\tipv4=\"\"\n\tfor _ in $(seq 1 10); do\n\t\tipv4=$(ip -4 -o addr show eth0 2>/dev/null | awk '{print $4}' | cut -d/ -f1)\n\t\t[ -n \"$ipv4\" ] && break\n\t\tsleep 1\n\tdone\n\tif [ -z \"$ipv4\" ]; then\n\t\techo \"FIRECRAB_NETWORK_FAILED no-ipv4-address\" >/dev/console\n\telif getent hosts example.com >/dev/null 2>&1; then\n\t\techo \"FIRECRAB_NETWORK_READY $ipv4\" >/dev/console\n\telse\n\t\techo \"FIRECRAB_NETWORK_FAILED dns-unreachable\" >/dev/console\n\tfi\n");
    reveal_strlit("\n\t\techo \"FIRECRAB_NETWORK_READY $ipv4\" >/dev/console\n");
    assert(NETWORK_READY_OPENRC_PROBE@.subrange(297, 350) =~= "\n\t\techo \"FIRECRAB_NETWORK_READY $ipv4\" >/dev/console\n"@);
    stands_in(NETWORK_READY_OPENRC_PROBE@, "\n\t\techo \"FIRECRAB_NETWORK_READY $ipv4\" >/dev/console\n"@, 297);
    reveal_strlit("\n\t\techo \"FIRECRAB_NETWORK_FAILED no-ipv4-address\" >/dev/console\n");
    assert(NETWORK_READY_OPENRC_PROBE@.subrange(181, 245) =~= "\n\t\techo \"FIRECRAB_NETWORK_FAILED no-ipv4-address\" >/dev/console\n"@);
    stands_in(NETWORK_READY_OPENRC_PROBE@, "\n\t\techo \"FIRECRAB_NETWORK_FAILED no-ipv4-address\" >/dev/console\n"@, 181);
    reveal_strlit("\n\t\techo \"FIRECRAB_NETWORK_FAILED dns-unreachable\" >/dev/console\n");
    assert(NETWORK_READY_OPENRC_PROBE@.subrange(355, 419) =~= "\n\t\techo \"FIRECRAB_NETWORK_FAILED dns-unreachable\" >/dev/console\n"@);
    stands_in(NETWORK_READY_OPENRC_PROBE@, "\n\t\techo \"FIRECRAB_NETWORK_FAILED dns-unreachable\" >/dev/console\n"@, 355);
}

proof fn the_unit_says()
    ensures
        contains(NETWORK_READY_UNIT@, "\nTTYPath=/dev/console\n"@),
        contains(NETWORK_READY_UNIT@, "\nStandardOutput=tty\n"@),
        contains(NETWORK_READY_UNIT@, "\nExecStart=/usr/local/sbin/firecrab-network-ready.sh\n"@),
        contains(NETWORK_READY_UNIT@, "\nWantedBy=multi-user.target\n"@),
        contains(NETWORK_READY_UNIT@, "\nAfter=network-online.target\n"@),
{
    reveal_strlit("[Unit]\nDescription=Firecrab network readiness sentinel\nAfter=network-online.target\nWants=network-online.target\n\n[Service]\nType=oneshot\nStandardOutput=tty\nTTYPath=/dev/console\nExecStart=/usr/local/sbin/firecrab-network-ready.sh\n\n[Install]\nWantedBy=multi-user.target\n");
    reveal_strlit("\nTTYPath=/dev/console\n");
    assert(NETWORK_READY_UNIT@.subrange(153, 175) =~= "\nTTYPath=/dev/console\n"@);
    stands_in(NETWORK_READY_UNIT@, "\nTTYPath=/dev/console\n"@, 153);
    reveal_strlit("\nStandardOutput=tty\n");
    assert(NETWORK_READY_UNIT@.subrange(134, 154) =~= "\nStandardOutput=tty\n"@);
    stands_in(NETWORK_READY_UNIT@, "\nStandardOutput=tty\n"@, 134);
    reveal_strlit("\nExecStart=/usr/local/sbin/firecrab-network-ready.sh\n");
    assert(NETWORK_READY_UNIT@.subrange(174, 227) =~= "\nExecStart=/usr/local/sbin/firecrab-network-ready.sh\n"@);
    stands_in(NETWORK_READY_UNIT@, "\nExecStart=/usr/local/sbin/firecrab-network-ready.sh\n"@, 174);
    reveal_strlit("\nWantedBy=multi-user.target\n");
    assert(NETWORK_READY_UNIT@.subrange(237, 265) =~= "\nWantedBy=multi-user.target\n"@);
    stands_in(NETWORK_READY_UNIT@, "\nWantedBy=multi-user.target\n"@, 237);
    reveal_strlit("\nAfter=network-online.target\n");
    assert(NETWORK_READY_UNIT@.subrange(54, 83) =~= "\nAfter=network-online.target\n"@);
    stands_in(NETWORK_READY_UNIT@, "\nAfter=network-online.target\n"@, 54);
}

proof fn the_settings_say()
    ensures
        contains(IPV6_SYSCTL@, "\nnet.ipv6.conf.default.addr_gen_mode = 0\n"@),
        contains(IPV6_SYSCTL@, "\nnet.ipv6.conf.eth0.addr_gen_mode = 0\n"@),
        contains(IPV6_SYSCTL@, "\nnet.ipv6.conf.default.use_tempaddr = 0\n"@),
        contains(IPV6_SYSCTL@, "\nnet.ipv6.conf.eth0.use_tempaddr = 0\n"@),
        contains(IPV6_SYSCTL@, "\nnet.ipv6.conf.eth0.accept_ra = 2\n"@),
{
    reveal_strlit("# Managed by Firecrab. See public-docs/networking.md.\nnet.ipv6.conf.default.addr_gen_mode = 0\nnet.ipv6.conf.eth0.addr_gen_mode = 0\nnet.ipv6.conf.default.use_tempaddr = 0\nnet.ipv6.conf.eth0.use_tempaddr = 0\nnet.ipv6.conf.eth0.accept_ra = 2\n");
    reveal_strlit("\nnet.ipv6.conf.default.addr_gen_mode = 0\n");
    assert(IPV6_SYSCTL@.subrange(53, 94) =~= "\nnet.ipv6.conf.default.addr_gen_mode = 0\n"@);
    stands_in(IPV6_SYSCTL@, "\nnet.ipv6.conf.default.addr_gen_mode = 0\n"@, 53);
    reveal_strlit("\nnet.ipv6.conf.eth0.addr_gen_mode = 0\n");
    assert(IPV6_SYSCTL@.subrange(93, 131) =~= "\nnet.ipv6.conf.eth0.addr_gen_mode = 0\n"@);
    stands_in(IPV6_SYSCTL@, "\nnet.ipv6.conf.eth0.addr_gen_mode = 0\n"@, 93);
    reveal_strlit("\nnet.ipv6.conf.default.use_tempaddr = 0\n");
    assert(IPV6_SYSCTL@.subrange(130, 170) =~= "\nnet.ipv6.conf.default.use_tempaddr = 0\n"@);
    stands_in(IPV6_SYSCTL@, "\nnet.ipv6.conf.default.use_tempaddr = 0\n"@, 130);
    reveal_strlit("\nnet.ipv6.conf.eth0.use_tempaddr = 0\n");
    assert(IPV6_SYSCTL@.subrange(169, 206) =~= "\nnet.ipv6.conf.eth0.use_tempaddr = 0\n"@);
    stands_in(IPV6_SYSCTL@, "\nnet.ipv6.conf.eth0.use_tempaddr = 0\n"@, 169);
    reveal_strlit("\nnet.ipv6.conf.eth0.accept_ra = 2\n");
    assert(IPV6_SYSCTL@.subrange(205, 239) =~= "\nnet.ipv6.conf.eth0.accept_ra = 2\n"@);
    stands_in(IPV6_SYSCTL@, "\nnet.ipv6.conf.eth0.accept_ra = 2\n"@, 205);
}

/// Whatever starts the metrics agent, the readiness script is a shell script that runs it and
/// then tells the host one of three things: the address, that there is none, or that no name
/// server answers. The service of OpenRC does the same, on the console.
pub proof fn a_guest_says_how_its_network_is(profile: Profile)
    ensures
        starts_with(profile.script(), "#!/bin/sh\n"@),
        contains(profile.script(), profile.kick_systemd),
        contains(profile.script(), "\n    echo \"FIRECRAB_NETWORK_READY $ipv4\"\n"@),
        contains(profile.script(), "\n  echo \"FIRECRAB_NETWORK_FAILED no-ipv4-address\"\n"@),
        contains(profile.script(), "\necho \"FIRECRAB_NETWORK_FAILED dns-unreachable\"\n"@),
        starts_with(profile.service(), "#!/sbin/openrc-run\n"@),
        contains(profile.service(), profile.kick_openrc),
        contains(
            profile.service(),
            "\n\t\techo \"FIRECRAB_NETWORK_READY $ipv4\" >/dev/console\n"@,
        ),
        contains(
            profile.service(),
            "\n\t\techo \"FIRECRAB_NETWORK_FAILED no-ipv4-address\" >/dev/console\n"@,
        ),
        contains(
            profile.service(),
            "\n\t\techo \"FIRECRAB_NETWORK_FAILED dns-unreachable\" >/dev/console\n"@,
        ),
{
    the_probe_says();
    the_probe_of_openrc_says();
    let none = Seq::<char>::empty();
    let head = "#!/bin/sh\nset -eu\n\n"@;
    let kick = profile.kick_systemd;
    let probe = NETWORK_READY_PROBE@;
    assert(profile.script() =~= head + kick + probe);
    assert(kick.subrange(0, kick.len() as int) =~= kick);
    stands_in(kick, kick, 0);
    stands_further_on(head, kick, probe, kick);
    assert(profile.script() =~= (head + kick) + probe + none);
    stands_further_on(head + kick, probe, none, "\n    echo \"FIRECRAB_NETWORK_READY $ipv4\"\n"@);
    stands_further_on(
        head + kick,
        probe,
        none,
        "\n  echo \"FIRECRAB_NETWORK_FAILED no-ipv4-address\"\n"@,
    );
    stands_further_on(
        head + kick,
        probe,
        none,
        "\necho \"FIRECRAB_NETWORK_FAILED dns-unreachable\"\n"@,
    );
    reveal_strlit("#!/bin/sh\nset -eu\n\n");
    reveal_strlit("#!/bin/sh\n");
    assert(profile.script().subrange(0, 10) =~= "#!/bin/sh\n"@);
    let front = NETWORK_READY_OPENRC_HEAD@;
    let kick = profile.kick_openrc;
    let probe = NETWORK_READY_OPENRC_PROBE@;
    let end = "}\n"@;
    assert(kick.subrange(0, kick.len() as int) =~= kick);
    stands_in(kick, kick, 0);
    assert(profile.service() =~= front + kick + (probe + end));
    stands_further_on(front, kick, probe + end, kick);
    assert(profile.service() =~= (front + kick) + probe + end);
    stands_further_on(
        front + kick,
        probe,
        end,
        "\n\t\techo \"FIRECRAB_NETWORK_READY $ipv4\" >/dev/console\n"@,
    );
    stands_further_on(
        front + kick,
        probe,
        end,
        "\n\t\techo \"FIRECRAB_NETWORK_FAILED no-ipv4-address\" >/dev/console\n"@,
    );
    stands_further_on(
        front + kick,
        probe,
        end,
        "\n\t\techo \"FIRECRAB_NETWORK_FAILED dns-unreachable\" >/dev/console\n"@,
    );
    reveal_strlit("#!/sbin/openrc-run\ndescription=\"Firecrab network readiness sentinel\"\n\ndepend() {\n\tneed net\n\tafter dhcpcd\n}\n\nstart() {\n");
    reveal_strlit("#!/sbin/openrc-run\n");
    assert(profile.service().subrange(0, 19) =~= "#!/sbin/openrc-run\n"@);
}

/// The readiness unit runs the script that is installed, on the console that the host reads,
/// once the network is up, and asks for the target among whose wants it is linked.
pub proof fn the_unit_runs_the_script()
    ensures
        contains(NETWORK_READY_UNIT@, "\nExecStart="@ + NETWORK_READY_SCRIPT_PATH@ + "\n"@),
        contains(NETWORK_READY_UNIT@, "\nStandardOutput=tty\n"@),
        contains(NETWORK_READY_UNIT@, "\nTTYPath=/dev/console\n"@),
        contains(NETWORK_READY_UNIT@, "\nAfter=network-online.target\n"@),
        contains(NETWORK_READY_UNIT@, "\nWantedBy=multi-user.target\n"@),
{
    the_unit_says();
    reveal_strlit("\nExecStart=");
    reveal_strlit("\n");
    reveal_strlit("/usr/local/sbin/firecrab-network-ready.sh");
    reveal_strlit("\nExecStart=/usr/local/sbin/firecrab-network-ready.sh\n");
    assert("\nExecStart="@ + NETWORK_READY_SCRIPT_PATH@ + "\n"@
        =~= "\nExecStart=/usr/local/sbin/firecrab-network-ready.sh\n"@);
}

/// The guest builds its IPv6 addresses out of the hardware address, as the host expects them,
/// and no others, on its interface and on those that come later; and it takes routes from the
/// host though it may forward.
pub proof fn a_guest_builds_the_address_that_is_pinned()
    ensures
        contains(IPV6_SYSCTL@, "\nnet.ipv6.conf.default.addr_gen_mode = 0\n"@),
        contains(IPV6_SYSCTL@, "\nnet.ipv6.conf.eth0.addr_gen_mode = 0\n"@),
        contains(IPV6_SYSCTL@, "\nnet.ipv6.conf.default.use_tempaddr = 0\n"@),
        contains(IPV6_SYSCTL@, "\nnet.ipv6.conf.eth0.use_tempaddr = 0\n"@),
        contains(IPV6_SYSCTL@, "\nnet.ipv6.conf.eth0.accept_ra = 2\n"@),
{
    the_settings_say();
}

/// A program of the host is copied into a guest only where one of its loaders was found there.
/// Where it was written it holds the program's bytes and everybody may run it, and whatever
/// came of it, nothing else of the guest changes.
pub proof fn a_program_goes_where_it_can_be_loaded(
    g: Inside,
    rootfs: Seq<char>,
    d: Dialog<Deed, News>,
    loaders: Seq<Seq<char>>,
    path: Seq<char>,
    program: Option<Seq<u8>>,
)
    requires
        can_stage(rootfs),
        one_word(path),
        !d.fastfetch(rootfs, loaders, path, program).waiting,
    ensures
        ({
            let end = d.fastfetch(rootfs, loaders, path, program);
            let b = guest(g, rootfs, d);
            let a = guest(g, rootfs, end);
            &&& forall|p: Seq<char>| p != path ==> #[trigger] same_at(b, a, p)
            &&& !same_at(b, a, path) ==> program is Some && exists|i: int|
                0 <= i < loaders.len() && found_at(end, rootfs, #[trigger] loaders[i])
            &&& !same_at(b, a, path) && a.tree.contains_key(path) ==> a.tree[path] == (
            Entry::File { bytes: program->0, mode: Some("0100755"@) })
        }),
{
    super::tree::the_verbs();
    a_search_tells(g, rootfs, d, loaders);
    let (looked, loader) = d.first_there(rootfs, loaders);
    if loader is Some && program is Some {
        let bytes = program->0;
        putting_step(g, rootfs, looked, path, bytes);
        put_spares(g, rootfs, looked, path, bytes, seq![' '] + path);
        let (put, result) = looked.write(rootfs, path, bytes);
        super::tree::mode_step(g, rootfs, put, path, "0100755"@);
        super::identity::mode_spares(g, rootfs, put, path, "0100755"@, seq![' '] + path);
        let end = d.fastfetch(rootfs, loaders, path, program);
        assert(seq![' '] + path != path) by {
            assert((seq![' '] + path).len() != path.len());
        }
        assert(went_on(looked, end));
        found_on(looked, end, rootfs);
        let i = choose|i: int| 0 <= i < loaders.len() && loaders[i] == loader->0;
        assert(found_at(end, rootfs, loaders[i]));
        let b = guest(g, rootfs, d);
        let m = guest(g, rootfs, put);
        let a = guest(g, rootfs, end);
        assert forall|p: Seq<char>| p != path implies #[trigger] same_at(b, a, p) by {
            assert(same_at(b, m, p));
            if result is Ok {
                assert(same_at(m, a, p));
            }
        }
    }
}

} // verus!
