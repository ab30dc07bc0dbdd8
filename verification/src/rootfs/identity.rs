//! What a disk that was given its identity holds.

use vstd::prelude::*;

#[allow(unused_imports)]
use super::guest::{
    Profile, FIRECRAB_LOCALE_CONF, FIRECRAB_LOCALE_PROFILE, FIRECRAB_WELCOME_PROFILE,
    GUEST_VM_SERVICE, IPV6_SYSCTL, IPV6_SYSCTL_PATH, NETWORK_READY_OPENRC_PATH,
    NETWORK_READY_OPENRC_RUNLEVEL_PATH, NETWORK_READY_SCRIPT_PATH, NETWORK_READY_UNIT,
    NETWORK_READY_UNIT_PATH, NETWORK_READY_UNIT_WANTS_PATH, STRIP_PATHS,
};
#[allow(unused_imports)]
use super::guest_paths::{
    paths_are_words, secret_0_is_apart, secret_1_is_apart, secret_2_is_apart, secret_3_is_apart,
    secret_4_is_apart, secret_5_is_apart, secret_6_is_apart, secret_7_is_apart,
    secret_8_is_apart, secret_9_is_apart, the_banner_is_apart, the_boot_script_is_apart,
    the_console_is_apart, the_hostname_is_apart, the_openrc_service_is_apart,
    the_script_is_apart, the_service_is_apart, the_settings_are_apart,
};
#[allow(unused_imports)]
use super::tree::{
    command_step, guest, lacks, linking_step, looking_step, mkdir_step, mode_step, one_step,
    putting_step, removing_step, same_at, symlink_step, the_verbs, Entry, Inside,
};
#[allow(unused_imports)]
use super::{Deed, News};
#[allow(unused_imports)]
use crate::dialog::{fresh, Dialog};
#[allow(unused_imports)]
use crate::oci::provision::{
    applet_paths, boot_text, console_text, inittab_text, link_path, with_root_shell,
    GUEST_AGETTY_CANDIDATES, GUEST_BASH_CANDIDATES, GUEST_TOOLBOX, PATH_APPLETS,
};
#[allow(unused_imports)]
use crate::path::with_extension;
#[allow(unused_imports)]
use crate::templates::laws::one_word;
#[allow(unused_imports)]
use crate::text::{contains, texts};
#[allow(unused_imports)]
use vstd::utf8::encode_utf8;

verus! {

/// Whether a dialog went on from another one and left the guest the same at a path.
pub(crate) open spec fn spares(
    g: Inside,
    rootfs: Seq<char>,
    before: Dialog<Deed, News>,
    after: Dialog<Deed, News>,
    p: Seq<char>,
) -> bool {
    &&& after.answers == before.answers
    &&& before.waiting ==> after.waiting
    &&& !after.waiting ==> same_at(guest(g, rootfs, before), guest(g, rootfs, after), p)
    &&& before.asked.len() <= after.asked.len()
    &&& forall|i: int| 0 <= i < before.asked.len() ==> #[trigger] after.asked[i] == before.asked[i]
}

pub(crate) proof fn lacks_on(before: Dialog<Deed, News>, after: Dialog<Deed, News>, rootfs: Seq<char>)
    requires
        after.answers == before.answers,
        before.asked.len() <= after.asked.len(),
        forall|i: int|
            0 <= i < before.asked.len() ==> #[trigger] after.asked[i] == before.asked[i],
    ensures
        forall|path: Seq<char>|
            lacks(before, rootfs, path) ==> #[trigger] lacks(after, rootfs, path),
{
    assert forall|path: Seq<char>| lacks(before, rootfs, path) implies #[trigger] lacks(
        after,
        rootfs,
        path,
    ) by {
        let k = choose|k: int|
            {
                &&& 0 <= k < before.asked.len() && k < before.answers.len()
                &&& (#[trigger] before.asked[k]) == (Deed::Run {
                    program: "debugfs"@,
                    args: seq!["-w"@, "-R"@, "stat "@ + path, rootfs],
                })
                &&& (before.answers[k] matches News::Ran { stdout, stderr, .. } ==> {
                    let text = crate::text::utf8_lossy(stdout) + crate::text::utf8_lossy(stderr);
                    contains(text, "File not found"@) || contains(
                        crate::text::ascii_lower(text),
                        "doesn't exist"@,
                    )
                })
            };
        assert(after.asked[k] == before.asked[k]);
    }
}

pub(crate) proof fn look_spares(g: Inside, rootfs: Seq<char>, d: Dialog<Deed, News>, q: Seq<char>, p: Seq<char>)
    ensures
        spares(g, rootfs, d, d.exists_in(rootfs, q).0, p),
        !d.exists_in(rootfs, q).0.waiting && !d.exists_in(rootfs, q).1 ==> lacks(
            d.exists_in(rootfs, q).0,
            rootfs,
            q,
        ),
{
    looking_step(g, rootfs, d, q);
    command_step(g, rootfs, d, "stat "@ + q);
}

/// Whether the disk has a place beside it where files can be staged: `debugfs` takes no path
/// with a space in it.
pub open spec fn can_stage(rootfs: Seq<char>) -> bool {
    one_word(with_extension(rootfs, "specialize.tmp"@))
}

pub(crate) proof fn put_spares(
    g: Inside,
    rootfs: Seq<char>,
    d: Dialog<Deed, News>,
    q: Seq<char>,
    bytes: Seq<u8>,
    p: Seq<char>,
)
    requires
        can_stage(rootfs),
        one_word(q),
        p != q,
    ensures
        spares(g, rootfs, d, d.write(rootfs, q, bytes).0, p),
{
    putting_step(g, rootfs, d, q, bytes);
    let staging = with_extension(rootfs, "specialize.tmp"@);
    one_step(g, rootfs, d, Deed::Write { path: staging, bytes });
    let staged = d.ask(Deed::Write { path: staging, bytes }).0;
    command_step(g, rootfs, staged, "rm "@ + q);
    let removed = staged.remove(rootfs, q);
    command_step(g, rootfs, removed, "write "@ + staging + " "@ + q);
    one_step(
        g,
        rootfs,
        removed.debugfs(rootfs, "write "@ + staging + " "@ + q).0,
        Deed::Remove { path: staging },
    );
}

pub(crate) proof fn mode_spares(
    g: Inside,
    rootfs: Seq<char>,
    d: Dialog<Deed, News>,
    q: Seq<char>,
    mode: Seq<char>,
    p: Seq<char>,
)
    requires
        one_word(q),
        one_word(mode),
        p != q,
    ensures
        spares(g, rootfs, d, d.set_mode(rootfs, q, mode), p),
{
    mode_step(g, rootfs, d, q, mode);
    command_step(g, rootfs, d, "set_inode_field "@ + q + " mode "@ + mode);
}

pub(crate) proof fn remove_spares(
    g: Inside,
    rootfs: Seq<char>,
    d: Dialog<Deed, News>,
    q: Seq<char>,
    p: Seq<char>,
)
    requires
        one_word(q),
        p != q,
    ensures
        spares(g, rootfs, d, d.remove(rootfs, q), p),
{
    removing_step(g, rootfs, d, q);
    command_step(g, rootfs, d, "rm "@ + q);
}

proof fn link_spares(
    g: Inside,
    rootfs: Seq<char>,
    d: Dialog<Deed, News>,
    q: Seq<char>,
    target: Seq<char>,
    p: Seq<char>,
)
    requires
        one_word(q),
        one_word(target),
        p != q,
    ensures
        spares(g, rootfs, d, d.link(rootfs, q, target).0, p),
{
    remove_spares(g, rootfs, d, q, p);
    let removed = d.remove(rootfs, q);
    symlink_step(g, rootfs, removed, q, target);
    command_step(g, rootfs, removed, "symlink "@ + q + " "@ + target);
    let made = removed.debugfs(rootfs, "symlink "@ + q + " "@ + target).0;
    look_spares(g, rootfs, made, q, p);
    if !made.waiting {
        assert(same_at(guest(g, rootfs, removed), guest(g, rootfs, made), p));
    }
}

pub(crate) proof fn link_in_spares(
    g: Inside,
    rootfs: Seq<char>,
    d: Dialog<Deed, News>,
    directory: Seq<char>,
    missing: bool,
    q: Seq<char>,
    target: Seq<char>,
    p: Seq<char>,
)
    requires
        one_word(q),
        one_word(target),
        p != q,
    ensures
        spares(g, rootfs, d, d.link_in(rootfs, directory, missing, q, target).0, p),
{
    look_spares(g, rootfs, d, directory, p);
    let looked = d.exists_in(rootfs, directory).0;
    look_spares(g, rootfs, looked, q, p);
    link_spares(g, rootfs, looked.exists_in(rootfs, q).0, q, target, p);
    link_spares(g, rootfs, looked, q, target, p);
}

pub(crate) proof fn program_spares(
    g: Inside,
    rootfs: Seq<char>,
    d: Dialog<Deed, News>,
    q: Seq<char>,
    text: Seq<char>,
    p: Seq<char>,
)
    requires
        can_stage(rootfs),
        one_word(q),
        p != q,
    ensures
        spares(g, rootfs, d, d.program(rootfs, q, text).0, p),
{
    the_verbs();
    put_spares(g, rootfs, d, q, encode_utf8(text), p);
    mode_spares(g, rootfs, d.put(rootfs, q, text).0, q, "0100755"@, p);
}

/// A program of the guest is there, and may be run, once it was written.
pub(crate) proof fn a_program_is_there(
    g: Inside,
    rootfs: Seq<char>,
    d: Dialog<Deed, News>,
    q: Seq<char>,
    text: Seq<char>,
)
    requires
        can_stage(rootfs),
        one_word(q),
        !d.program(rootfs, q, text).0.waiting,
        d.program(rootfs, q, text).1 is Ok,
    ensures
        guest(g, rootfs, d.program(rootfs, q, text).0).tree.contains_key(q),
        guest(g, rootfs, d.program(rootfs, q, text).0).tree[q] == (Entry::File {
            bytes: encode_utf8(text),
            mode: Some("0100755"@),
        }),
{
    the_verbs();
    putting_step(g, rootfs, d, q, encode_utf8(text));
    mode_step(g, rootfs, d.put(rootfs, q, text).0, q, "0100755"@);
}

/// Whether a path is none that the readiness script needs.
pub open spec fn off_network(p: Seq<char>) -> bool {
    &&& p != NETWORK_READY_SCRIPT_PATH@
    &&& p != NETWORK_READY_OPENRC_PATH@
    &&& p != NETWORK_READY_UNIT_PATH@
    &&& p != NETWORK_READY_UNIT_WANTS_PATH@
    &&& p != NETWORK_READY_OPENRC_RUNLEVEL_PATH@
    &&& p != "/usr/local/sbin"@
}

proof fn enabling_spares(g: Inside, rootfs: Seq<char>, d: Dialog<Deed, News>, p: Seq<char>)
    requires
        can_stage(rootfs),
        p != NETWORK_READY_UNIT_PATH@,
        p != NETWORK_READY_UNIT_WANTS_PATH@,
        p != NETWORK_READY_OPENRC_RUNLEVEL_PATH@,
    ensures
        spares(g, rootfs, d, d.enable_unit(rootfs).0, p),
        spares(g, rootfs, d, d.enable_service(rootfs).0, p),
        spares(g, rootfs, d, d.fallback_unit(rootfs).0, p),
{
    paths_are_words();
    look_spares(g, rootfs, d, "/etc/systemd/system"@, p);
    let looked = d.exists_in(rootfs, "/etc/systemd/system"@).0;
    look_spares(g, rootfs, looked, NETWORK_READY_UNIT_PATH@, p);
    let found = looked.exists_in(rootfs, NETWORK_READY_UNIT_PATH@).0;
    let unit = encode_utf8(NETWORK_READY_UNIT@);
    put_spares(g, rootfs, found, NETWORK_READY_UNIT_PATH@, unit, p);
    let put = found.put(rootfs, NETWORK_READY_UNIT_PATH@, NETWORK_READY_UNIT@).0;
    let wants = "/etc/systemd/system/multi-user.target.wants"@;
    let link = NETWORK_READY_UNIT_WANTS_PATH@;
    link_in_spares(g, rootfs, found, wants, true, link, NETWORK_READY_UNIT_PATH@, p);
    link_in_spares(g, rootfs, put, wants, true, link, NETWORK_READY_UNIT_PATH@, p);
    link_in_spares(
        g,
        rootfs,
        d,
        "/etc/runlevels/default"@,
        true,
        NETWORK_READY_OPENRC_RUNLEVEL_PATH@,
        NETWORK_READY_OPENRC_PATH@,
        p,
    );
    put_spares(g, rootfs, looked, NETWORK_READY_UNIT_PATH@, unit, p);
    link_in_spares(
        g,
        rootfs,
        looked.put(rootfs, NETWORK_READY_UNIT_PATH@, NETWORK_READY_UNIT@).0,
        wants,
        false,
        link,
        NETWORK_READY_UNIT_PATH@,
        p,
    );
}

proof fn bin_dir_spares(g: Inside, rootfs: Seq<char>, d: Dialog<Deed, News>, p: Seq<char>)
    requires
        p != "/usr/local/sbin"@,
    ensures
        spares(g, rootfs, d, d.bin_dir(rootfs).0, p),
{
    paths_are_words();
    look_spares(g, rootfs, d, "/usr/local/sbin"@, p);
    let a = d.exists_in(rootfs, "/usr/local/sbin"@).0;
    look_spares(g, rootfs, a, "/usr/local"@, p);
    let b = a.exists_in(rootfs, "/usr/local"@).0;
    reveal_strlit("mkdir /usr/local/sbin");
    reveal_strlit("mkdir");
    reveal_strlit(" ");
    reveal_strlit("/usr/local/sbin");
    assert("mkdir /usr/local/sbin"@ =~= "mkdir"@ + " "@ + "/usr/local/sbin"@);
    mkdir_step(g, rootfs, b, "mkdir /usr/local/sbin"@, "/usr/local/sbin"@);
    command_step(g, rootfs, b, "mkdir /usr/local/sbin"@);
    let made = b.debugfs(rootfs, "mkdir /usr/local/sbin"@).0;
    look_spares(g, rootfs, made, "/usr/local/sbin"@, p);
    if !made.waiting {
        assert(same_at(guest(g, rootfs, b), guest(g, rootfs, made), p));
    }
}

proof fn fallback_spares(
    g: Inside,
    rootfs: Seq<char>,
    d: Dialog<Deed, News>,
    profile: Profile,
    p: Seq<char>,
)
    requires
        can_stage(rootfs),
        off_network(p),
    ensures
        spares(g, rootfs, d, d.fallback(rootfs, profile).0, p),
{
    paths_are_words();
    bin_dir_spares(g, rootfs, d, p);
    let looked = d.bin_dir(rootfs).0;
    program_spares(g, rootfs, looked, NETWORK_READY_SCRIPT_PATH@, profile.script(), p);
    let put = looked.program(rootfs, NETWORK_READY_SCRIPT_PATH@, profile.script()).0;
    enabling_spares(g, rootfs, put, p);
    let unit = put.fallback_unit(rootfs).0;
    fallback_service_spares(g, rootfs, unit, profile, p);
}

proof fn fallback_service_spares(
    g: Inside,
    rootfs: Seq<char>,
    d: Dialog<Deed, News>,
    profile: Profile,
    p: Seq<char>,
)
    requires
        can_stage(rootfs),
        p != NETWORK_READY_OPENRC_PATH@,
        p != NETWORK_READY_OPENRC_RUNLEVEL_PATH@,
    ensures
        spares(g, rootfs, d, d.fallback_service(rootfs, profile).0, p),
{
    paths_are_words();
    look_spares(g, rootfs, d, "/etc/init.d"@, p);
    let openrc = d.exists_in(rootfs, "/etc/init.d"@).0;
    program_spares(g, rootfs, openrc, NETWORK_READY_OPENRC_PATH@, profile.service(), p);
    link_in_spares(
        g,
        rootfs,
        openrc.program(rootfs, NETWORK_READY_OPENRC_PATH@, profile.service()).0,
        "/etc/runlevels/default"@,
        false,
        NETWORK_READY_OPENRC_RUNLEVEL_PATH@,
        NETWORK_READY_OPENRC_PATH@,
        p,
    );
}

proof fn patches_spare(
    g: Inside,
    rootfs: Seq<char>,
    d: Dialog<Deed, News>,
    profile: Profile,
    p: Seq<char>,
)
    requires
        can_stage(rootfs),
        p != NETWORK_READY_UNIT_PATH@,
        p != NETWORK_READY_UNIT_WANTS_PATH@,
        p != NETWORK_READY_OPENRC_RUNLEVEL_PATH@,
    ensures
        p != NETWORK_READY_SCRIPT_PATH@ ==> spares(
            g,
            rootfs,
            d,
            d.patch_script(rootfs, profile).0,
            p,
        ),
        p != NETWORK_READY_OPENRC_PATH@ ==> spares(
            g,
            rootfs,
            d,
            d.patch_service(rootfs, profile).0,
            p,
        ),
{
    paths_are_words();
    look_spares(g, rootfs, d, NETWORK_READY_SCRIPT_PATH@, p);
    let a = d.exists_in(rootfs, NETWORK_READY_SCRIPT_PATH@).0;
    if p != NETWORK_READY_SCRIPT_PATH@ {
        program_spares(g, rootfs, a, NETWORK_READY_SCRIPT_PATH@, profile.script(), p);
    }
    enabling_spares(
        g,
        rootfs,
        a.program(rootfs, NETWORK_READY_SCRIPT_PATH@, profile.script()).0,
        p,
    );
    look_spares(g, rootfs, d, NETWORK_READY_OPENRC_PATH@, p);
    let b = d.exists_in(rootfs, NETWORK_READY_OPENRC_PATH@).0;
    if p != NETWORK_READY_OPENRC_PATH@ {
        program_spares(g, rootfs, b, NETWORK_READY_OPENRC_PATH@, profile.service(), p);
    }
    enabling_spares(
        g,
        rootfs,
        b.program(rootfs, NETWORK_READY_OPENRC_PATH@, profile.service()).0,
        p,
    );
}

proof fn network_spares(
    g: Inside,
    rootfs: Seq<char>,
    d: Dialog<Deed, News>,
    profile: Profile,
    p: Seq<char>,
)
    requires
        can_stage(rootfs),
        off_network(p),
    ensures
        spares(g, rootfs, d, d.network_ready(rootfs, profile).0, p),
{
    patches_spare(g, rootfs, d, profile, p);
    let scripted = d.patch_script(rootfs, profile).0;
    patches_spare(g, rootfs, scripted, profile, p);
    let served = scripted.patch_service(rootfs, profile).0;
    fallback_spares(g, rootfs, served, profile, p);
}

pub(crate) proof fn search_spares(
    g: Inside,
    rootfs: Seq<char>,
    d: Dialog<Deed, News>,
    candidates: Seq<Seq<char>>,
    p: Seq<char>,
)
    ensures
        spares(g, rootfs, d, d.first_there(rootfs, candidates).0, p),
    decreases candidates.len(),
{
    if candidates.len() > 0 {
        look_spares(g, rootfs, d, candidates[0], p);
        search_spares(
            g,
            rootfs,
            d.exists_in(rootfs, candidates[0]).0,
            candidates.skip(1),
            p,
        );
    }
}

/// Whether a path lies in `/etc`.
spec fn in_etc(p: Seq<char>) -> bool {
    p.len() > 4 && p[1] == 'e' && p[4] == '/'
}

proof fn links_spare(
    g: Inside,
    rootfs: Seq<char>,
    d: Dialog<Deed, News>,
    usr_bin: bool,
    applets: Seq<Seq<char>>,
    p: Seq<char>,
)
    requires
        in_etc(p),
        forall|i: int| 0 <= i < applets.len() ==> one_word(#[trigger] applets[i]),
    ensures
        spares(g, rootfs, d, d.linked(rootfs, usr_bin, applets), p),
    decreases applets.len(),
{
    if applets.len() > 0 {
        paths_are_words();
        let paths = applet_paths(applets[0]);
        search_spares(g, rootfs, d, paths, p);
        let (looked, there) = d.first_there(rootfs, paths);
        let path = link_path(usr_bin, applets[0]);
        reveal_strlit("/usr/bin/");
        reveal_strlit("/bin/");
        assert(one_word(applets[0]));
        assert forall|i: int| 0 <= i < path.len() implies !crate::text::is_space(
            #[trigger] path[i],
        ) by {
            let n = path.len() - applets[0].len();
            if i >= n {
                assert(path[i] == applets[0][i - n]);
            } else {
                assert(i == 0 || i == 1 || i == 2 || i == 3 || i == 4 || i == 5 || i == 6 || i == 7
                    || i == 8);
            }
        }
        assert(path[1] == 'u' || path[1] == 'b');
        symlink_step(g, rootfs, looked, path, GUEST_TOOLBOX@);
        command_step(g, rootfs, looked, "symlink "@ + path + " "@ + GUEST_TOOLBOX@);
        let made = looked.debugfs(rootfs, "symlink "@ + path + " "@ + GUEST_TOOLBOX@).0;
        if !made.waiting {
            assert(same_at(guest(g, rootfs, looked), guest(g, rootfs, made), p));
        }
        let next = if there is Some {
            looked
        } else {
            made
        };
        let rest = applets.skip(1);
        assert forall|i: int| 0 <= i < rest.len() implies one_word(#[trigger] rest[i]) by {
            assert(rest[i] == applets[i + 1]);
        }
        links_spare(g, rootfs, next, usr_bin, rest, p);
    }
}

pub(crate) proof fn tools_are_words()
    ensures
        forall|i: int|
            0 <= i < texts(PATH_APPLETS@).len() ==> one_word(#[trigger] texts(PATH_APPLETS@)[i]),
{
    reveal_strlit("ping");
    reveal_strlit("ping6");
    reveal_strlit("traceroute");
    reveal_strlit("wget");
    reveal_strlit("nc");
    reveal_strlit("nslookup");
    reveal_strlit("vi");
    reveal_strlit("sh");
    assert(one_word("ping"@) && one_word("ping6"@) && one_word("wget"@));
    assert(one_word("nc"@) && one_word("vi"@) && one_word("sh"@));
    let a = "traceroute"@;
    assert forall|i: int| 0 <= i < a.len() implies !crate::text::is_space(#[trigger] a[i]) by {
        assert(i == 0 || i == 1 || i == 2 || i == 3 || i == 4 || i == 5 || i == 6 || i == 7 || i
            == 8 || i == 9);
    }
    let b = "nslookup"@;
    assert forall|i: int| 0 <= i < b.len() implies !crate::text::is_space(#[trigger] b[i]) by {
        assert(i == 0 || i == 1 || i == 2 || i == 3 || i == 4 || i == 5 || i == 6 || i == 7);
    }
    assert forall|i: int| 0 <= i < texts(PATH_APPLETS@).len() implies one_word(
        #[trigger] texts(PATH_APPLETS@)[i],
    ) by {
        assert(i == 0 || i == 1 || i == 2 || i == 3 || i == 4 || i == 5 || i == 6 || i == 7);
    }
}

pub(crate) proof fn mkdir_spares(
    g: Inside,
    rootfs: Seq<char>,
    d: Dialog<Deed, News>,
    command: Seq<char>,
    q: Seq<char>,
    p: Seq<char>,
)
    requires
        one_word(q),
        command == "mkdir"@ + " "@ + q,
        p != q,
    ensures
        spares(g, rootfs, d, d.debugfs(rootfs, command).0, p),
{
    mkdir_step(g, rootfs, d, command, q);
    command_step(g, rootfs, d, command);
    let made = d.debugfs(rootfs, command).0;
    if !made.waiting {
        assert(same_at(guest(g, rootfs, d), guest(g, rootfs, made), p));
    }
}

pub(crate) proof fn mkdirs()
    ensures
        "mkdir /etc/profile.d"@ == "mkdir"@ + " "@ + "/etc/profile.d"@,
        "mkdir /etc/default"@ == "mkdir"@ + " "@ + "/etc/default"@,
        "mkdir /etc/firecrab"@ == "mkdir"@ + " "@ + "/etc/firecrab"@,
        "mkdir /etc/sysctl.d"@ == "mkdir"@ + " "@ + "/etc/sysctl.d"@,
        "mkdir /bin"@ == "mkdir"@ + " "@ + "/bin"@,
{
    reveal_strlit("mkdir");
    reveal_strlit(" ");
    reveal_strlit("mkdir /etc/profile.d");
    reveal_strlit("mkdir /etc/default");
    reveal_strlit("mkdir /etc/firecrab");
    reveal_strlit("mkdir /etc/sysctl.d");
    reveal_strlit("mkdir /bin");
    reveal_strlit("/etc/profile.d");
    reveal_strlit("/etc/default");
    reveal_strlit("/etc/firecrab");
    reveal_strlit("/etc/sysctl.d");
    reveal_strlit("/bin");
    assert("mkdir /etc/profile.d"@ =~= "mkdir"@ + " "@ + "/etc/profile.d"@);
    assert("mkdir /etc/default"@ =~= "mkdir"@ + " "@ + "/etc/default"@);
    assert("mkdir /etc/firecrab"@ =~= "mkdir"@ + " "@ + "/etc/firecrab"@);
    assert("mkdir /etc/sysctl.d"@ =~= "mkdir"@ + " "@ + "/etc/sysctl.d"@);
    assert("mkdir /bin"@ =~= "mkdir"@ + " "@ + "/bin"@);
}

proof fn toolbox_spares(g: Inside, rootfs: Seq<char>, d: Dialog<Deed, News>, p: Seq<char>)
    requires
        in_etc(p),
    ensures
        spares(g, rootfs, d, d.toolbox(rootfs), p),
{
    paths_are_words();
    tools_are_words();
    mkdirs();
    look_spares(g, rootfs, d, GUEST_TOOLBOX@, p);
    let looked = d.exists_in(rootfs, GUEST_TOOLBOX@).0;
    look_spares(g, rootfs, looked, "/usr/bin"@, p);
    let (found, usr_bin) = looked.exists_in(rootfs, "/usr/bin"@);
    reveal_strlit("/bin");
    assert("/bin"@.len() == 4);
    mkdir_spares(g, rootfs, found, "mkdir /bin"@, "/bin"@, p);
    let next = if usr_bin {
        found
    } else {
        found.debugfs(rootfs, "mkdir /bin"@).0
    };
    links_spare(g, rootfs, next, usr_bin, texts(PATH_APPLETS@), p);
}

proof fn ask_spares(g: Inside, rootfs: Seq<char>, d: Dialog<Deed, News>, deed: Deed, p: Seq<char>)
    requires
        !(deed is Run),
    ensures
        spares(g, rootfs, d, d.ask(deed).0, p),
{
    one_step(g, rootfs, d, deed);
}

proof fn dump_spares(
    g: Inside,
    rootfs: Seq<char>,
    d: Dialog<Deed, News>,
    q: Seq<char>,
    dest: Seq<char>,
    p: Seq<char>,
)
    ensures
        spares(g, rootfs, d, d.dump(rootfs, q, dest).0, p),
{
    let command = "dump "@ + q + " "@ + dest;
    command_step(g, rootfs, d, command);
    the_verbs();
    assert(command =~= "dump"@ + " "@ + (q + " "@ + dest));
    super::tree::first_word("dump"@, q + " "@ + dest);
    assert(crate::text::words(command)[0] == "dump"@);
    let ran = d.debugfs(rootfs, command).0;
    ask_spares(g, rootfs, ran, Deed::Length { path: dest }, p);
    let looked = ran.ask(Deed::Length { path: dest }).0;
    ask_spares(g, rootfs, looked, Deed::Remove { path: dest }, p);
}

pub(crate) proof fn read_spares(
    g: Inside,
    rootfs: Seq<char>,
    d: Dialog<Deed, News>,
    q: Seq<char>,
    staging: Seq<char>,
    p: Seq<char>,
)
    ensures
        ({
            let dumped = d.dump(rootfs, q, staging).0;
            let read = dumped.ask(Deed::ReadText { path: staging }).0;
            &&& spares(g, rootfs, d, dumped, p)
            &&& spares(g, rootfs, d, read, p)
            &&& spares(g, rootfs, d, dumped.tell(Deed::Remove { path: staging }), p)
            &&& spares(g, rootfs, d, read.tell(Deed::Remove { path: staging }), p)
        }),
{
    dump_spares(g, rootfs, d, q, staging, p);
    let dumped = d.dump(rootfs, q, staging).0;
    ask_spares(g, rootfs, dumped, Deed::Remove { path: staging }, p);
    ask_spares(g, rootfs, dumped, Deed::ReadText { path: staging }, p);
    let read = dumped.ask(Deed::ReadText { path: staging }).0;
    ask_spares(g, rootfs, read, Deed::Remove { path: staging }, p);
}

proof fn root_shell_spares(
    g: Inside,
    rootfs: Seq<char>,
    d: Dialog<Deed, News>,
    shell: Seq<char>,
    p: Seq<char>,
)
    requires
        can_stage(rootfs),
        p != "/etc/passwd"@,
    ensures
        spares(g, rootfs, d, d.root_shell(rootfs, shell), p),
{
    paths_are_words();
    read_spares(g, rootfs, d, "/etc/passwd"@, with_extension(rootfs, "passwd.tmp"@), p);
    let (read, current) = d.accounts(rootfs);
    put_spares(
        g,
        rootfs,
        read,
        "/etc/passwd"@,
        encode_utf8(with_root_shell(current, shell)),
        p,
    );
}

/// The console as it stands before its scripts are written.
spec fn console_front(d: Dialog<Deed, News>, rootfs: Seq<char>) -> (
    Dialog<Deed, News>,
    Option<Seq<char>>,
) {
    let (a, agetty) = d.exists_in(rootfs, "/etc/firecrab"@).0.debugfs(
        rootfs,
        "mkdir /etc/firecrab"@,
    ).0.first_there(rootfs, texts(GUEST_AGETTY_CANDIDATES@));
    let (b, shell) = a.first_there(rootfs, texts(GUEST_BASH_CANDIDATES@));
    (
        match shell {
            Some(shell) => b.root_shell(rootfs, shell),
            None => b,
        },
        agetty,
    )
}

proof fn console_front_spares(g: Inside, rootfs: Seq<char>, d: Dialog<Deed, News>, p: Seq<char>)
    requires
        can_stage(rootfs),
        p != "/etc/passwd"@,
        p != "/etc/firecrab"@,
    ensures
        spares(g, rootfs, d, d.exists_in(rootfs, "/etc/firecrab"@).0, p),
        spares(g, rootfs, d, console_front(d, rootfs).0, p),
{
    paths_are_words();
    mkdirs();
    look_spares(g, rootfs, d, "/etc/firecrab"@, p);
    let looked = d.exists_in(rootfs, "/etc/firecrab"@).0;
    mkdir_spares(g, rootfs, looked, "mkdir /etc/firecrab"@, "/etc/firecrab"@, p);
    let made = looked.debugfs(rootfs, "mkdir /etc/firecrab"@).0;
    search_spares(g, rootfs, made, texts(GUEST_AGETTY_CANDIDATES@), p);
    let a = made.first_there(rootfs, texts(GUEST_AGETTY_CANDIDATES@)).0;
    search_spares(g, rootfs, a, texts(GUEST_BASH_CANDIDATES@), p);
    let (b, shell) = a.first_there(rootfs, texts(GUEST_BASH_CANDIDATES@));
    if let Some(shell) = shell {
        root_shell_spares(g, rootfs, b, shell, p);
    }
}

proof fn console_spares(
    g: Inside,
    rootfs: Seq<char>,
    d: Dialog<Deed, News>,
    agent: Seq<char>,
    p: Seq<char>,
)
    requires
        can_stage(rootfs),
        p != "/etc/passwd"@,
        p != "/etc/firecrab"@,
        p != "/etc/inittab"@,
        p != "/etc/firecrab/rc.boot"@,
        p != "/etc/firecrab/rc.console"@,
    ensures
        spares(g, rootfs, d, d.console(rootfs, agent), p),
{
    paths_are_words();
    the_verbs();
    console_front_spares(g, rootfs, d, p);
    let (c, agetty) = console_front(d, rootfs);
    put_spares(g, rootfs, c, "/etc/inittab"@, encode_utf8(inittab_text(agetty)), p);
    let d1 = c.put(rootfs, "/etc/inittab"@, inittab_text(agetty)).0;
    put_spares(g, rootfs, d1, "/etc/firecrab/rc.boot"@, encode_utf8(boot_text(agent)), p);
    let d2 = d1.put(rootfs, "/etc/firecrab/rc.boot"@, boot_text(agent)).0;
    put_spares(g, rootfs, d2, "/etc/firecrab/rc.console"@, encode_utf8(console_text()), p);
    let d3 = d2.put(rootfs, "/etc/firecrab/rc.console"@, console_text()).0;
    mode_spares(g, rootfs, d3, "/etc/firecrab/rc.boot"@, "0100755"@, p);
    let d4 = d3.set_mode(rootfs, "/etc/firecrab/rc.boot"@, "0100755"@);
    mode_spares(g, rootfs, d4, "/etc/firecrab/rc.console"@, "0100755"@, p);
}

pub(crate) proof fn marked_spares(
    g: Inside,
    rootfs: Seq<char>,
    d: Dialog<Deed, News>,
    q: Seq<char>,
    needle: Seq<char>,
    p: Seq<char>,
)
    requires
        one_word(q),
        p != q,
    ensures
        spares(g, rootfs, d, d.remove_marked(rootfs, q, needle), p),
{
    look_spares(g, rootfs, d, q, p);
    let looked = d.exists_in(rootfs, q).0;
    read_spares(g, rootfs, looked, q, with_extension(rootfs, "systemctl.tmp"@), p);
    remove_spares(g, rootfs, d.file_contains(rootfs, q, needle).0, q, p);
}

/// What follows the console among the comforts.
spec fn comforts_end(d: Dialog<Deed, News>, rootfs: Seq<char>) -> Dialog<Deed, News> {
    d.ipv6(rootfs).toolbox(rootfs).no_systemctl(rootfs)
}

proof fn no_systemctl_spares(g: Inside, rootfs: Seq<char>, d: Dialog<Deed, News>, p: Seq<char>)
    requires
        in_etc(p),
    ensures
        spares(g, rootfs, d, d.no_systemctl(rootfs), p),
{
    paths_are_words();
    reveal_strlit("/usr/local/bin/systemctl");
    reveal_strlit("/bin/systemctl");
    reveal_strlit("/usr/bin/systemctl");
    assert("/usr/local/bin/systemctl"@[1] == 'u' && "/bin/systemctl"@[1] == 'b'
        && "/usr/bin/systemctl"@[1] == 'u');
    remove_spares(g, rootfs, d, "/usr/local/bin/systemctl"@, p);
    let l = d.remove(rootfs, "/usr/local/bin/systemctl"@);
    marked_spares(g, rootfs, l, "/bin/systemctl"@, "Firecrab systemctl"@, p);
    let m = l.remove_marked(rootfs, "/bin/systemctl"@, "Firecrab systemctl"@);
    marked_spares(g, rootfs, m, "/usr/bin/systemctl"@, "Firecrab systemctl"@, p);
}

proof fn comforts_end_spares(g: Inside, rootfs: Seq<char>, d: Dialog<Deed, News>, p: Seq<char>)
    requires
        can_stage(rootfs),
        in_etc(p),
        p != "/etc/sysctl.d"@,
        p != IPV6_SYSCTL_PATH@,
    ensures
        spares(g, rootfs, d, comforts_end(d, rootfs), p),
{
    paths_are_words();
    mkdirs();
    mkdir_spares(g, rootfs, d, "mkdir /etc/sysctl.d"@, "/etc/sysctl.d"@, p);
    let i = d.debugfs(rootfs, "mkdir /etc/sysctl.d"@).0;
    put_spares(g, rootfs, i, IPV6_SYSCTL_PATH@, encode_utf8(IPV6_SYSCTL@), p);
    let j = d.ipv6(rootfs);
    toolbox_spares(g, rootfs, j, p);
    no_systemctl_spares(g, rootfs, j.toolbox(rootfs), p);
}

/// What comes before the console among the comforts.
spec fn comforts_front(d: Dialog<Deed, News>, rootfs: Seq<char>) -> Dialog<Deed, News> {
    d.debugfs(rootfs, "mkdir /etc/profile.d"@).0.debugfs(rootfs, "mkdir /etc/default"@).0.put(
        rootfs,
        "/etc/profile.d/firecrab-welcome.sh"@,
        FIRECRAB_WELCOME_PROFILE@,
    ).0.put(rootfs, "/etc/profile.d/firecrab-locale.sh"@, FIRECRAB_LOCALE_PROFILE@).0.put(
        rootfs,
        "/etc/default/locale"@,
        FIRECRAB_LOCALE_CONF@,
    ).0.put(rootfs, "/etc/locale.conf"@, FIRECRAB_LOCALE_CONF@).0
}

proof fn comforts_front_spares(g: Inside, rootfs: Seq<char>, d: Dialog<Deed, News>, p: Seq<char>)
    requires
        can_stage(rootfs),
        p != "/etc/profile.d"@,
        p != "/etc/default"@,
        p != "/etc/profile.d/firecrab-welcome.sh"@,
        p != "/etc/profile.d/firecrab-locale.sh"@,
        p != "/etc/default/locale"@,
        p != "/etc/locale.conf"@,
    ensures
        spares(g, rootfs, d, comforts_front(d, rootfs), p),
{
    paths_are_words();
    mkdirs();
    mkdir_spares(g, rootfs, d, "mkdir /etc/profile.d"@, "/etc/profile.d"@, p);
    let a = d.debugfs(rootfs, "mkdir /etc/profile.d"@).0;
    mkdir_spares(g, rootfs, a, "mkdir /etc/default"@, "/etc/default"@, p);
    let b = a.debugfs(rootfs, "mkdir /etc/default"@).0;
    let welcome = "/etc/profile.d/firecrab-welcome.sh"@;
    put_spares(g, rootfs, b, welcome, encode_utf8(FIRECRAB_WELCOME_PROFILE@), p);
    let c = b.put(rootfs, welcome, FIRECRAB_WELCOME_PROFILE@).0;
    let locale = "/etc/profile.d/firecrab-locale.sh"@;
    put_spares(g, rootfs, c, locale, encode_utf8(FIRECRAB_LOCALE_PROFILE@), p);
    let e = c.put(rootfs, locale, FIRECRAB_LOCALE_PROFILE@).0;
    put_spares(g, rootfs, e, "/etc/default/locale"@, encode_utf8(FIRECRAB_LOCALE_CONF@), p);
    let f = e.put(rootfs, "/etc/default/locale"@, FIRECRAB_LOCALE_CONF@).0;
    put_spares(g, rootfs, f, "/etc/locale.conf"@, encode_utf8(FIRECRAB_LOCALE_CONF@), p);
}

proof fn env_script_spares(g: Inside, rootfs: Seq<char>, d: Dialog<Deed, News>, p: Seq<char>)
    ensures
        spares(g, rootfs, d, d.env_script(rootfs).0, p),
{
    let staging = with_extension(rootfs, "vm-env.tmp"@);
    ask_spares(g, rootfs, d, Deed::Remove { path: staging }, p);
    let cleared = d.tell(Deed::Remove { path: staging });
    read_spares(g, rootfs, cleared, GUEST_VM_SERVICE@, staging, p);
    let dumped = cleared.dump(rootfs, GUEST_VM_SERVICE@, staging).0;
    let (read, news) = dumped.ask(Deed::ReadText { path: staging });
    if let News::Text(text) = news {
        ask_spares(g, rootfs, read, Deed::RewriteEnv { script: text }, p);
        ask_spares(
            g,
            rootfs,
            read.ask(Deed::RewriteEnv { script: text }).0,
            Deed::Remove { path: staging },
            p,
        );
    }
}

proof fn variables_spare(
    g: Inside,
    rootfs: Seq<char>,
    d: Dialog<Deed, News>,
    profile: Profile,
    p: Seq<char>,
)
    requires
        can_stage(rootfs),
        one_word(profile.env_path),
        p != profile.env_path,
        p != GUEST_VM_SERVICE@,
    ensures
        spares(g, rootfs, d, d.apply_env(rootfs, profile).0, p),
{
    paths_are_words();
    the_verbs();
    look_spares(g, rootfs, d, GUEST_VM_SERVICE@, p);
    let looked = d.exists_in(rootfs, GUEST_VM_SERVICE@).0;
    put_spares(g, rootfs, looked, profile.env_path, encode_utf8(profile.env_file), p);
    let put = looked.put(rootfs, profile.env_path, profile.env_file).0;
    mode_spares(g, rootfs, put, profile.env_path, "0100644"@, p);
    let kept = put.set_mode(rootfs, profile.env_path, "0100644"@);
    env_script_spares(g, rootfs, kept, p);
    let (end, script) = kept.env_script(rootfs);
    if let Ok(script) = script {
        put_spares(g, rootfs, end, GUEST_VM_SERVICE@, encode_utf8(script), p);
        mode_spares(
            g,
            rootfs,
            end.put(rootfs, GUEST_VM_SERVICE@, script).0,
            GUEST_VM_SERVICE@,
            "0100755"@,
            p,
        );
    }
}

proof fn stripping_spares(
    g: Inside,
    rootfs: Seq<char>,
    d: Dialog<Deed, News>,
    paths: Seq<Seq<char>>,
    p: Seq<char>,
)
    requires
        forall|i: int| 0 <= i < paths.len() ==> one_word(#[trigger] paths[i]),
        forall|i: int| 0 <= i < paths.len() ==> p != #[trigger] paths[i],
    ensures
        spares(g, rootfs, d, d.stripped(rootfs, paths), p),
    decreases paths.len(),
{
    if paths.len() > 0 {
        assert(one_word(paths[0]));
        remove_spares(g, rootfs, d, paths[0], p);
        let rest = paths.skip(1);
        assert forall|i: int| 0 <= i < rest.len() implies one_word(#[trigger] rest[i]) && p
            != rest[i] by {
            assert(rest[i] == paths[i + 1]);
        }
        stripping_spares(g, rootfs, d.remove(rootfs, paths[0]), rest, p);
    }
}

/// What was removed from the guest is gone.
proof fn stripped_is_gone(
    g: Inside,
    rootfs: Seq<char>,
    d: Dialog<Deed, News>,
    paths: Seq<Seq<char>>,
    p: Seq<char>,
)
    requires
        forall|i: int| 0 <= i < paths.len() ==> one_word(#[trigger] paths[i]),
        paths.contains(p) || !guest(g, rootfs, d).tree.contains_key(p),
        !d.stripped(rootfs, paths).waiting,
    ensures
        !guest(g, rootfs, d.stripped(rootfs, paths)).tree.contains_key(p),
        !d.waiting,
    decreases paths.len(),
{
    if paths.len() > 0 {
        assert(one_word(paths[0]));
        removing_step(g, rootfs, d, paths[0]);
        let rest = paths.skip(1);
        assert forall|i: int| 0 <= i < rest.len() implies one_word(#[trigger] rest[i]) by {
            assert(rest[i] == paths[i + 1]);
        }
        let next = d.remove(rootfs, paths[0]);
        if p != paths[0] && paths.contains(p) {
            let i = choose|i: int| 0 <= i < paths.len() && paths[i] == p;
            assert(rest[i - 1] == p);
        }
        if next.waiting {
            still_waiting(rootfs, next, rest);
        }
        stripped_is_gone(g, rootfs, next, rest, p);
    }
}

proof fn still_waiting(rootfs: Seq<char>, d: Dialog<Deed, News>, paths: Seq<Seq<char>>)
    requires
        d.waiting,
    ensures
        d.stripped(rootfs, paths).waiting,
    decreases paths.len(),
{
    if paths.len() > 0 {
        still_waiting(rootfs, d.remove(rootfs, paths[0]), paths.skip(1));
    }
}

proof fn secrets()
    ensures
        forall|i: int|
            0 <= i < texts(STRIP_PATHS@).len() ==> one_word(#[trigger] texts(STRIP_PATHS@)[i]),
        forall|i: int|
            0 <= i < texts(STRIP_PATHS@).len() ==> off_network(#[trigger] texts(STRIP_PATHS@)[i]),
        texts(STRIP_PATHS@).len() == 10,
{
    paths_are_words();
    secret_0_is_apart();
    secret_1_is_apart();
    secret_2_is_apart();
    secret_3_is_apart();
    secret_4_is_apart();
    secret_5_is_apart();
    secret_6_is_apart();
    secret_7_is_apart();
    secret_8_is_apart();
    secret_9_is_apart();
    let all = texts(STRIP_PATHS@);
    assert forall|i: int| 0 <= i < all.len() implies one_word(#[trigger] all[i]) && off_network(
        all[i],
    ) by {
        assert(i == 0 || i == 1 || i == 2 || i == 3 || i == 4 || i == 5 || i == 6 || i == 7 || i
            == 8 || i == 9);
    }
}

/// The states that giving a disk its identity goes through.
spec fn named(d: Dialog<Deed, News>, rootfs: Seq<char>, profile: Profile) -> Dialog<Deed, News> {
    d.recover(rootfs).0.put(rootfs, "/etc/hostname"@, profile.hostname + "\n"@).0
}

spec fn greeted(d: Dialog<Deed, News>, rootfs: Seq<char>, profile: Profile) -> Dialog<Deed, News> {
    named(d, rootfs, profile).put(rootfs, "/etc/motd"@, profile.motd).0
}

spec fn consoled(d: Dialog<Deed, News>, rootfs: Seq<char>, profile: Profile) -> Dialog<Deed, News> {
    comforts_front(greeted(d, rootfs, profile), rootfs).console(rootfs, profile.agent)
}

spec fn eased(d: Dialog<Deed, News>, rootfs: Seq<char>, profile: Profile) -> Dialog<Deed, News> {
    comforts_end(consoled(d, rootfs, profile), rootfs)
}

spec fn applied(d: Dialog<Deed, News>, rootfs: Seq<char>, profile: Profile) -> Dialog<Deed, News> {
    eased(d, rootfs, profile).apply_env(rootfs, profile).0
}

spec fn stripped(d: Dialog<Deed, News>, rootfs: Seq<char>, profile: Profile) -> Dialog<
    Deed,
    News,
> {
    applied(d, rootfs, profile).stripped(rootfs, texts(STRIP_PATHS@))
}

proof fn the_states(d: Dialog<Deed, News>, rootfs: Seq<char>, profile: Profile)
    requires
        d.specialize(rootfs, profile).1 is Ok,
    ensures
        d.specialize(rootfs, profile) == stripped(d, rootfs, profile).network_ready(
            rootfs,
            profile,
        ),
        d.recover(rootfs).0.put(rootfs, "/etc/hostname"@, profile.hostname + "\n"@).1 is Ok,
        named(d, rootfs, profile).put(rootfs, "/etc/motd"@, profile.motd).1 is Ok,
        eased(d, rootfs, profile).apply_env(rootfs, profile).1 is Ok,
        eased(d, rootfs, profile) == greeted(d, rootfs, profile).comforts(rootfs, profile),
{
}

/// What is in the guest at a path once the banner was written is there at the end.
proof fn the_end_spares(
    g: Inside,
    rootfs: Seq<char>,
    d: Dialog<Deed, News>,
    profile: Profile,
    p: Seq<char>,
)
    requires
        can_stage(rootfs),
        d.specialize(rootfs, profile).1 is Ok,
        off_network(p),
        forall|i: int| 0 <= i < texts(STRIP_PATHS@).len() ==> p != #[trigger] texts(STRIP_PATHS@)[i],
    ensures
        spares(
            g,
            rootfs,
            applied(d, rootfs, profile),
            d.specialize(rootfs, profile).0,
            p,
        ),
{
    the_states(d, rootfs, profile);
    secrets();
    let a = applied(d, rootfs, profile);
    stripping_spares(g, rootfs, a, texts(STRIP_PATHS@), p);
    network_spares(g, rootfs, stripped(d, rootfs, profile), profile, p);
}

proof fn the_middle_spares(
    g: Inside,
    rootfs: Seq<char>,
    d: Dialog<Deed, News>,
    profile: Profile,
    p: Seq<char>,
)
    requires
        can_stage(rootfs),
        one_word(profile.env_path),
        p != profile.env_path,
        p != GUEST_VM_SERVICE@,
        in_etc(p),
        p != "/etc/sysctl.d"@,
        p != IPV6_SYSCTL_PATH@,
    ensures
        spares(g, rootfs, consoled(d, rootfs, profile), applied(d, rootfs, profile), p),
{
    comforts_end_spares(g, rootfs, consoled(d, rootfs, profile), p);
    variables_spare(g, rootfs, eased(d, rootfs, profile), profile, p);
}

proof fn in_strip(p: Seq<char>)
    requires
        p != "/etc/ssh/ssh_host_rsa_key"@,
        p != "/etc/ssh/ssh_host_rsa_key.pub"@,
        p != "/etc/ssh/ssh_host_ecdsa_key"@,
        p != "/etc/ssh/ssh_host_ecdsa_key.pub"@,
        p != "/etc/ssh/ssh_host_ed25519_key"@,
        p != "/etc/ssh/ssh_host_ed25519_key.pub"@,
        p != "/var/lib/systemd/random-seed"@,
        p != "/var/lib/urandom/random-seed"@,
        p != "/var/lib/dhcp/dhclient.leases"@,
        p != "/var/lib/dhcpcd/dhcpcd-eth0.lease"@,
    ensures
        forall|i: int| 0 <= i < texts(STRIP_PATHS@).len() ==> p != #[trigger] texts(STRIP_PATHS@)[i],
{
    assert forall|i: int| 0 <= i < texts(STRIP_PATHS@).len() implies p != #[trigger] texts(
        STRIP_PATHS@,
    )[i] by {
        assert(i == 0 || i == 1 || i == 2 || i == 3 || i == 4 || i == 5 || i == 6 || i == 7 || i
            == 8 || i == 9);
    }
}

/// A disk that was given its identity holds the VM's name as its hostname, on a line of its
/// own, and the VM's banner. Where the VM's variables go is neither of the two files.
pub proof fn a_guest_knows_its_name(
    g: Inside,
    answers: Seq<News>,
    rootfs: Seq<char>,
    profile: Profile,
)
    requires
        can_stage(rootfs),
        one_word(profile.env_path),
        profile.env_path != "/etc/hostname"@,
        profile.env_path != "/etc/motd"@,
        !fresh(answers).specialize(rootfs, profile).0.waiting,
        fresh(answers).specialize(rootfs, profile).1 is Ok,
    ensures
        ({
            let tree = guest(g, rootfs, fresh(answers).specialize(rootfs, profile).0).tree;
            &&& tree.contains_key("/etc/hostname"@)
            &&& tree["/etc/hostname"@] is File
            &&& tree["/etc/hostname"@]->bytes == encode_utf8(profile.hostname + "\n"@)
            &&& tree.contains_key("/etc/motd"@)
            &&& tree["/etc/motd"@] is File
            &&& tree["/etc/motd"@]->bytes == encode_utf8(profile.motd)
        }),
{
    let d = fresh::<Deed, News>(answers);
    the_states(d, rootfs, profile);
    the_hostname_is_apart();
    the_banner_is_apart();
    paths_are_words();
    let host = "/etc/hostname"@;
    let motd = "/etc/motd"@;
    reveal_strlit("/etc/hostname");
    reveal_strlit("/etc/motd");
    in_strip(host);
    in_strip(motd);
    the_end_spares(g, rootfs, d, profile, host);
    the_end_spares(g, rootfs, d, profile, motd);
    the_middle_spares(g, rootfs, d, profile, host);
    the_middle_spares(g, rootfs, d, profile, motd);
    let hello = greeted(d, rootfs, profile);
    comforts_front_spares(g, rootfs, hello, host);
    comforts_front_spares(g, rootfs, hello, motd);
    let front = comforts_front(hello, rootfs);
    console_spares(g, rootfs, front, profile.agent, host);
    console_spares(g, rootfs, front, profile.agent, motd);
    let recovered = d.recover(rootfs).0;
    let name = encode_utf8(profile.hostname + "\n"@);
    putting_step(g, rootfs, recovered, host, name);
    putting_step(g, rootfs, named(d, rootfs, profile), motd, encode_utf8(profile.motd));
    put_spares(g, rootfs, named(d, rootfs, profile), motd, encode_utf8(profile.motd), host);
}

/// None of the keys, seeds and leases of the template are in a guest that was given its
/// identity.
pub proof fn a_guest_holds_no_secret_of_its_template(
    g: Inside,
    answers: Seq<News>,
    rootfs: Seq<char>,
    profile: Profile,
)
    requires
        can_stage(rootfs),
        !fresh(answers).specialize(rootfs, profile).0.waiting,
        fresh(answers).specialize(rootfs, profile).1 is Ok,
    ensures
        ({
            let tree = guest(g, rootfs, fresh(answers).specialize(rootfs, profile).0).tree;
            &&& !tree.contains_key("/etc/ssh/ssh_host_rsa_key"@)
            &&& !tree.contains_key("/etc/ssh/ssh_host_rsa_key.pub"@)
            &&& !tree.contains_key("/etc/ssh/ssh_host_ecdsa_key"@)
            &&& !tree.contains_key("/etc/ssh/ssh_host_ecdsa_key.pub"@)
            &&& !tree.contains_key("/etc/ssh/ssh_host_ed25519_key"@)
            &&& !tree.contains_key("/etc/ssh/ssh_host_ed25519_key.pub"@)
            &&& !tree.contains_key("/var/lib/systemd/random-seed"@)
            &&& !tree.contains_key("/var/lib/urandom/random-seed"@)
            &&& !tree.contains_key("/var/lib/dhcp/dhclient.leases"@)
            &&& !tree.contains_key("/var/lib/dhcpcd/dhcpcd-eth0.lease"@)
        }),
{
    let d = fresh::<Deed, News>(answers);
    the_states(d, rootfs, profile);
    secrets();
    let all = texts(STRIP_PATHS@);
    let a = applied(d, rootfs, profile);
    let b = stripped(d, rootfs, profile);
    assert forall|i: int| 0 <= i < all.len() implies !guest(
        g,
        rootfs,
        d.specialize(rootfs, profile).0,
    ).tree.contains_key(#[trigger] all[i]) by {
        network_spares(g, rootfs, b, profile, all[i]);
        assert(all.contains(all[i]));
        stripped_is_gone(g, rootfs, a, all, all[i]);
    }
    assert(all[0] == "/etc/ssh/ssh_host_rsa_key"@ && all[1] == "/etc/ssh/ssh_host_rsa_key.pub"@);
    assert(all[2] == "/etc/ssh/ssh_host_ecdsa_key"@ && all[3]
        == "/etc/ssh/ssh_host_ecdsa_key.pub"@);
    assert(all[4] == "/etc/ssh/ssh_host_ed25519_key"@ && all[5]
        == "/etc/ssh/ssh_host_ed25519_key.pub"@);
    assert(all[6] == "/var/lib/systemd/random-seed"@ && all[7] == "/var/lib/urandom/random-seed"@);
    assert(all[8] == "/var/lib/dhcp/dhclient.leases"@ && all[9]
        == "/var/lib/dhcpcd/dhcpcd-eth0.lease"@);
}

/// Whether a script was handed over for the VM's variables, and came back as that text, or
/// was kept where nothing came back.
pub open spec fn rewritten_as(d: Dialog<Deed, News>, text: Seq<char>) -> bool {
    exists|k: int|
        0 <= k < d.asked.len() && k < d.answers.len() && (
        #[trigger] d.asked[k] matches Deed::RewriteEnv { script } && text == match d.answers[k] {
            News::Text(new) => new,
            _ => script,
        })
}

proof fn rewritten_on(before: Dialog<Deed, News>, after: Dialog<Deed, News>, text: Seq<char>)
    requires
        rewritten_as(before, text),
        after.answers == before.answers,
        before.asked.len() <= after.asked.len(),
        forall|i: int|
            0 <= i < before.asked.len() ==> #[trigger] after.asked[i] == before.asked[i],
    ensures
        rewritten_as(after, text),
{
    let k = choose|k: int|
        0 <= k < before.asked.len() && k < before.answers.len() && (
        #[trigger] before.asked[k] matches Deed::RewriteEnv { script } && text
            == match before.answers[k] {
            News::Text(new) => new,
            _ => script,
        });
    assert(after.asked[k] == before.asked[k]);
}

proof fn a_script_is_rewritten(g: Inside, rootfs: Seq<char>, d: Dialog<Deed, News>)
    requires
        !d.env_script(rootfs).0.waiting,
        d.env_script(rootfs).1 is Ok,
    ensures
        rewritten_as(d.env_script(rootfs).0, d.env_script(rootfs).1->Ok_0),
{
    let none = Seq::<char>::empty();
    let staging = with_extension(rootfs, "vm-env.tmp"@);
    let cleared = d.tell(Deed::Remove { path: staging });
    one_step(g, rootfs, d, Deed::Remove { path: staging });
    dump_spares(g, rootfs, cleared, GUEST_VM_SERVICE@, staging, none);
    let dumped = cleared.dump(rootfs, GUEST_VM_SERVICE@, staging).0;
    one_step(g, rootfs, dumped, Deed::ReadText { path: staging });
    let (read, news) = dumped.ask(Deed::ReadText { path: staging });
    let text = news->Text_0;
    let rewrite = Deed::RewriteEnv { script: text };
    one_step(g, rootfs, read, rewrite);
    let put = read.ask(rewrite).0;
    one_step(g, rootfs, put, Deed::Remove { path: staging });
    let end = d.env_script(rootfs).0;
    assert(put.asked[read.asked.len() as int] == rewrite);
    assert(end.asked[read.asked.len() as int] == rewrite);
}

/// Where a guest has a service and is given the VM's variables, the service's script is the
/// one with the variables, and everybody may run it, so that the guest starts it; the file
/// with the variables is there too, for all to read. Both stay so to the end.
#[verifier::rlimit(40)]
#[verifier::spinoff_prover]
pub proof fn the_service_of_a_guest_may_be_run(
    g: Inside,
    answers: Seq<News>,
    rootfs: Seq<char>,
    profile: Profile,
)
    requires
        can_stage(rootfs),
        one_word(profile.env_path),
        profile.env_path != "/etc/firecrab/services.d/app"@,
        off_network(profile.env_path),
        forall|i: int|
            0 <= i < STRIP_PATHS@.len() ==> profile.env_path != (#[trigger] STRIP_PATHS[i])@,
        !fresh(answers).specialize(rootfs, profile).0.waiting,
        fresh(answers).specialize(rootfs, profile).1 is Ok,
    ensures
        ({
            let d = fresh(answers).specialize(rootfs, profile).0;
            let tree = guest(g, rootfs, d).tree;
            lacks(d, rootfs, "/etc/firecrab/services.d/app"@) || {
                &&& tree.contains_key("/etc/firecrab/services.d/app"@)
                &&& tree["/etc/firecrab/services.d/app"@] matches Entry::File { bytes, mode }
                    && mode == Some("0100755"@) && exists|text: Seq<char>| #[trigger]
                    rewritten_as(d, text) && bytes == encode_utf8(text)
                &&& tree.contains_key(profile.env_path)
                &&& tree[profile.env_path] == (Entry::File {
                    bytes: encode_utf8(profile.env_file),
                    mode: Some("0100644"@),
                })
            }
        }),
{
    let d = fresh::<Deed, News>(answers);
    the_states(d, rootfs, profile);
    the_service_is_apart();
    paths_are_words();
    the_verbs();
    let service = GUEST_VM_SERVICE@;
    let env = profile.env_path;
    in_strip(service);
    assert forall|i: int| 0 <= i < texts(STRIP_PATHS@).len() implies env != #[trigger] texts(
        STRIP_PATHS@,
    )[i] by {
        assert(env != STRIP_PATHS[i]@);
    }
    the_end_spares(g, rootfs, d, profile, service);
    the_end_spares(g, rootfs, d, profile, env);
    let last = d.specialize(rootfs, profile).0;
    let start = eased(d, rootfs, profile);
    let end = applied(d, rootfs, profile);
    look_spares(g, rootfs, start, service, service);
    let (looked, there) = start.exists_in(rootfs, service);
    if there {
        let file = encode_utf8(profile.env_file);
        putting_step(g, rootfs, looked, env, file);
        let put = looked.put(rootfs, env, profile.env_file).0;
        mode_step(g, rootfs, put, env, "0100644"@);
        let kept = put.set_mode(rootfs, env, "0100644"@);
        env_script_spares(g, rootfs, kept, env);
        let (read, script) = kept.env_script(rootfs);
        let text = script->Ok_0;
        putting_step(g, rootfs, read, service, encode_utf8(text));
        let written = read.put(rootfs, service, text).0;
        mode_step(g, rootfs, written, service, "0100755"@);
        put_spares(g, rootfs, read, service, encode_utf8(text), env);
        mode_spares(g, rootfs, written, service, "0100755"@, env);
        // Where nothing is looked at but the order of the deeds, any other path will do.
        let none = Seq::<char>::empty();
        reveal_strlit("/etc/firecrab/services.d/app");
        assert(none != service);
        put_spares(g, rootfs, read, service, encode_utf8(text), none);
        mode_spares(g, rootfs, written, service, "0100755"@, none);
        a_script_is_rewritten(g, rootfs, kept);
        rewritten_on(read, end, text);
        rewritten_on(end, last, text);
    } else {
        lacks_on(looked, last, rootfs);
    }
}

/// Whether a file that is there may be run.
spec fn runs_if_there(g: Inside, path: Seq<char>) -> bool {
    g.tree.contains_key(path) && g.tree[path] is File ==> g.tree[path]->mode == Some("0100755"@)
}

proof fn console_scripts_run(
    g: Inside,
    rootfs: Seq<char>,
    d: Dialog<Deed, News>,
    agent: Seq<char>,
)
    requires
        !d.console(rootfs, agent).waiting,
    ensures
        lacks(d.console(rootfs, agent), rootfs, "/etc/firecrab"@) || {
            let after = guest(g, rootfs, d.console(rootfs, agent));
            &&& runs_if_there(after, "/etc/firecrab/rc.boot"@)
            &&& runs_if_there(after, "/etc/firecrab/rc.console"@)
        },
{
    paths_are_words();
    the_verbs();
    the_boot_script_is_apart();
    let boot = "/etc/firecrab/rc.boot"@;
    let console = "/etc/firecrab/rc.console"@;
    look_spares(g, rootfs, d, "/etc/firecrab"@, boot);
    let (looked, there) = d.exists_in(rootfs, "/etc/firecrab"@);
    if there {
        let (c, agetty) = console_front(d, rootfs);
        let d1 = c.put(rootfs, "/etc/inittab"@, inittab_text(agetty)).0;
        let d2 = d1.put(rootfs, boot, boot_text(agent)).0;
        let d3 = d2.put(rootfs, console, console_text()).0;
        let d4 = d3.set_mode(rootfs, boot, "0100755"@);
        let d5 = d4.set_mode(rootfs, console, "0100755"@);
        assert(d.console(rootfs, agent) == d5);
        mode_step(g, rootfs, d3, boot, "0100755"@);
        mode_step(g, rootfs, d4, console, "0100755"@);
        mode_spares(g, rootfs, d4, console, "0100755"@, boot);
    }
}

/// Where a guest was made from a container image, its boot script and its console may be
/// run, where they are there.
pub proof fn the_scripts_of_a_guest_may_be_run(
    g: Inside,
    answers: Seq<News>,
    rootfs: Seq<char>,
    profile: Profile,
)
    requires
        can_stage(rootfs),
        one_word(profile.env_path),
        profile.env_path != "/etc/firecrab/rc.boot"@,
        profile.env_path != "/etc/firecrab/rc.console"@,
        !fresh(answers).specialize(rootfs, profile).0.waiting,
        fresh(answers).specialize(rootfs, profile).1 is Ok,
    ensures
        ({
            let d = fresh(answers).specialize(rootfs, profile).0;
            let tree = guest(g, rootfs, d).tree;
            lacks(d, rootfs, "/etc/firecrab"@) || {
                &&& tree.contains_key("/etc/firecrab/rc.boot"@) && tree["/etc/firecrab/rc.boot"@]
                    is File ==> tree["/etc/firecrab/rc.boot"@]->mode == Some("0100755"@)
                &&& tree.contains_key("/etc/firecrab/rc.console"@)
                    && tree["/etc/firecrab/rc.console"@] is File
                    ==> tree["/etc/firecrab/rc.console"@]->mode == Some("0100755"@)
            }
        }),
{
    let d = fresh::<Deed, News>(answers);
    the_states(d, rootfs, profile);
    the_boot_script_is_apart();
    the_console_is_apart();
    paths_are_words();
    the_verbs();
    let boot = "/etc/firecrab/rc.boot"@;
    let console = "/etc/firecrab/rc.console"@;
    reveal_strlit("/etc/firecrab/rc.boot");
    reveal_strlit("/etc/firecrab/rc.console");
    in_strip(boot);
    in_strip(console);
    the_end_spares(g, rootfs, d, profile, boot);
    the_end_spares(g, rootfs, d, profile, console);
    the_middle_spares(g, rootfs, d, profile, boot);
    the_middle_spares(g, rootfs, d, profile, console);
    let last = d.specialize(rootfs, profile).0;
    let front = comforts_front(greeted(d, rootfs, profile), rootfs);
    let after = consoled(d, rootfs, profile);
    console_scripts_run(g, rootfs, front, profile.agent);
    lacks_on(after, last, rootfs);
}

/// A guest tells the host when its network is up: it has the readiness script, which may be
/// run, or lacked it and has the readiness service instead, which may be run too, or has no
/// place for either.
pub proof fn a_guest_tells_when_its_network_is_up(
    g: Inside,
    answers: Seq<News>,
    rootfs: Seq<char>,
    profile: Profile,
)
    requires
        can_stage(rootfs),
        !fresh(answers).specialize(rootfs, profile).0.waiting,
        fresh(answers).specialize(rootfs, profile).1 is Ok,
    ensures
        ({
            let d = fresh(answers).specialize(rootfs, profile).0;
            let tree = guest(g, rootfs, d).tree;
            let script = "/usr/local/sbin/firecrab-network-ready.sh"@;
            let service = "/etc/init.d/firecrab-network-ready"@;
            ||| tree.contains_key(script) && tree[script] == (Entry::File {
                bytes: encode_utf8(profile.script()),
                mode: Some("0100755"@),
            })
            ||| lacks(d, rootfs, script) && tree.contains_key(service) && tree[service] == (
            Entry::File { bytes: encode_utf8(profile.service()), mode: Some("0100755"@) })
            ||| lacks(d, rootfs, script) && lacks(d, rootfs, service) && lacks(
                d,
                rootfs,
                "/usr/local"@,
            )
        }),
{
    let d = fresh::<Deed, News>(answers);
    the_states(d, rootfs, profile);
    paths_are_words();
    the_script_is_apart();
    the_openrc_service_is_apart();
    let start = stripped(d, rootfs, profile);
    let last = d.specialize(rootfs, profile).0;
    let script = NETWORK_READY_SCRIPT_PATH@;
    let service = NETWORK_READY_OPENRC_PATH@;
    let none = Seq::<char>::empty();
    nothing_is_no_path();
    look_spares(g, rootfs, start, script, script);
    let (looked, there) = start.exists_in(rootfs, script);
    let (scripted, found) = start.patch_script(rootfs, profile);
    patches_spare(g, rootfs, scripted, profile, script);
    let (served, other) = scripted.patch_service(rootfs, profile);
    if there {
        a_program_is_there(g, rootfs, looked, script, profile.script());
        let put = looked.program(rootfs, script, profile.script()).0;
        enabling_spares(g, rootfs, put, script);
        assert(last == served);
    } else {
        look_spares(g, rootfs, looked, service, service);
        let (sought, has_service) = looked.exists_in(rootfs, service);
        if has_service {
            a_program_is_there(g, rootfs, sought, service, profile.service());
            let put = sought.program(rootfs, service, profile.service()).0;
            service_enabled(g, rootfs, put);
            program_spares(g, rootfs, sought, service, profile.service(), none);
            assert(last == served);
            lacks_on(looked, last, rootfs);
        } else {
            fallback_spares(g, rootfs, sought, profile, none);
            let (found, usable) = sought.bin_dir(rootfs);
            lacks_on(looked, last, rootfs);
            lacks_on(sought, last, rootfs);
            if usable == Ok::<bool, super::Trouble>(true) {
                a_program_is_there(g, rootfs, found, script, profile.script());
                let put = found.program(rootfs, script, profile.script()).0;
                enabling_spares(g, rootfs, put, script);
                fallback_service_spares(g, rootfs, put.fallback_unit(rootfs).0, profile, script);
            } else {
                look_spares(g, rootfs, sought, "/usr/local/sbin"@, none);
                let a = sought.exists_in(rootfs, "/usr/local/sbin"@).0;
                look_spares(g, rootfs, a, "/usr/local"@, none);
            }
        }
    }
}

proof fn nothing_is_no_path()
    ensures
        off_network(Seq::<char>::empty()),
{
    reveal_strlit("/usr/local/sbin/firecrab-network-ready.sh");
    reveal_strlit("/etc/init.d/firecrab-network-ready");
    reveal_strlit("/etc/systemd/system/firecrab-network-ready.service");
    reveal_strlit("/etc/systemd/system/multi-user.target.wants/firecrab-network-ready.service");
    reveal_strlit("/etc/runlevels/default/firecrab-network-ready");
    reveal_strlit("/usr/local/sbin");
    let none = Seq::<char>::empty();
    assert(NETWORK_READY_SCRIPT_PATH@.len() > none.len());
    assert(NETWORK_READY_OPENRC_PATH@.len() > none.len());
    assert(NETWORK_READY_UNIT_PATH@.len() > none.len());
    assert(NETWORK_READY_UNIT_WANTS_PATH@.len() > none.len());
    assert(NETWORK_READY_OPENRC_RUNLEVEL_PATH@.len() > none.len());
    assert("/usr/local/sbin"@.len() > none.len());
}

proof fn service_enabled(g: Inside, rootfs: Seq<char>, d: Dialog<Deed, News>)
    ensures
        spares(g, rootfs, d, d.enable_service(rootfs).0, NETWORK_READY_OPENRC_PATH@),
        spares(g, rootfs, d, d.enable_service(rootfs).0, Seq::empty()),
{
    paths_are_words();
    the_openrc_service_is_apart();
    nothing_is_no_path();
    link_in_spares(
        g,
        rootfs,
        d,
        "/etc/runlevels/default"@,
        true,
        NETWORK_READY_OPENRC_RUNLEVEL_PATH@,
        NETWORK_READY_OPENRC_PATH@,
        NETWORK_READY_OPENRC_PATH@,
    );
    link_in_spares(
        g,
        rootfs,
        d,
        "/etc/runlevels/default"@,
        true,
        NETWORK_READY_OPENRC_RUNLEVEL_PATH@,
        NETWORK_READY_OPENRC_PATH@,
        Seq::empty(),
    );
}

} // verus!
