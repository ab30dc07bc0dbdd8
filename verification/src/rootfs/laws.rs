//! What holds of giving a disk its identity as a whole.

use vstd::prelude::*;

#[allow(unused_imports)]
use super::guest::{
    Profile, FIRECRAB_LOCALE_CONF, FIRECRAB_LOCALE_PROFILE, FIRECRAB_WELCOME_PROFILE,
    GUEST_VM_SERVICE, IPV6_SYSCTL, IPV6_SYSCTL_PATH, NETWORK_READY_OPENRC_PATH, NETWORK_READY_OPENRC_RUNLEVEL_PATH,
    NETWORK_READY_SCRIPT_PATH, NETWORK_READY_UNIT, NETWORK_READY_UNIT_PATH,
    NETWORK_READY_UNIT_WANTS_PATH, STRIP_PATHS,
};
#[allow(unused_imports)]
use super::{Deed, News};
#[allow(unused_imports)]
use crate::dialog::{fresh, Dialog};
#[allow(unused_imports)]
use crate::oci::provision::{
    applet_paths, boot_text, console_text, inittab_text, link_path, with_root_shell,
    GUEST_AGETTY_CANDIDATES, GUEST_BASH_CANDIDATES, GUEST_TOOLBOX, PATH_APPLETS,
};
#[allow(unused_imports)]
use crate::path::with_extension;
#[allow(unused_imports)]
use crate::text::texts;
#[allow(unused_imports)]
use vstd::utf8::encode_utf8;

verus! {

/// Whether a dialog is a later state of another one: what was asked stays asked, where it
/// was, and who waits goes on waiting.
pub open spec fn later(now: Dialog<Deed, News>, before: Dialog<Deed, News>) -> bool {
    &&& before.waiting ==> now.waiting
    &&& before.asked.len() <= now.asked.len()
    &&& forall|i: int| 0 <= i < before.asked.len() ==> #[trigger] now.asked[i] == before.asked[i]
    &&& forall|x: Deed| before.asked.contains(x) ==> #[trigger] now.asked.contains(x)
}

proof fn ask_grows(d: Dialog<Deed, News>, deed: Deed)
    ensures
        later(d.ask(deed).0, d),
        d.ask(deed).0.asked.contains(deed) || d.ask(deed).0.waiting,
{
    if !d.waiting {
        let next = d.ask(deed).0;
        assert(next.asked =~= d.asked.push(deed));
        assert(next.asked[d.asked.len() as int] == deed);
        assert forall|x: Deed| d.asked.contains(x) implies #[trigger] next.asked.contains(x) by {
            let i = choose|i: int| 0 <= i < d.asked.len() && d.asked[i] == x;
            assert(next.asked[i] == x);
        }
    }
}

proof fn debugfs_grows(d: Dialog<Deed, News>, rootfs: Seq<char>, command: Seq<char>)
    ensures
        later(d.debugfs(rootfs, command).0, d),
        d.debugfs(rootfs, command).0.asked.contains(
            (Deed::Run { program: "debugfs"@, args: seq!["-w"@, "-R"@, command].push(rootfs) }),
        ) || d.debugfs(rootfs, command).0.waiting,
{
    ask_grows(
        d,
        Deed::Run { program: "debugfs"@, args: seq!["-w"@, "-R"@, command].push(rootfs) },
    );
}

proof fn write_grows(d: Dialog<Deed, News>, rootfs: Seq<char>, guest_path: Seq<char>, content: Seq<u8>)
    ensures
        later(d.write(rootfs, guest_path, content).0, d),
        d.write(rootfs, guest_path, content).0.asked.contains(
            (Deed::Write { path: with_extension(rootfs, "specialize.tmp"@), bytes: content }),
        ) || d.write(rootfs, guest_path, content).0.waiting,
{
    let staging = with_extension(rootfs, "specialize.tmp"@);
    ask_grows(d, Deed::Write { path: staging, bytes: content });
    let (staged, news) = d.ask(Deed::Write { path: staging, bytes: content });
    debugfs_grows(staged, rootfs, "rm "@ + guest_path);
    let removed = staged.remove(rootfs, guest_path);
    debugfs_grows(removed, rootfs, "write "@ + staging + " "@ + guest_path);
    let ran = removed.debugfs(rootfs, "write "@ + staging + " "@ + guest_path).0;
    ask_grows(ran, Deed::Remove { path: staging });
}

proof fn set_mode_grows(d: Dialog<Deed, News>, rootfs: Seq<char>, guest_path: Seq<char>, mode: Seq<char>)
    ensures
        later(d.set_mode(rootfs, guest_path, mode), d),
{
    debugfs_grows(d, rootfs, "set_inode_field "@ + guest_path + " mode "@ + mode);
}

proof fn exists_grows(d: Dialog<Deed, News>, rootfs: Seq<char>, guest_path: Seq<char>)
    ensures
        later(d.exists_in(rootfs, guest_path).0, d),
{
    debugfs_grows(d, rootfs, "stat "@ + guest_path);
}

proof fn link_grows(d: Dialog<Deed, News>, rootfs: Seq<char>, link: Seq<char>, target: Seq<char>)
    ensures
        later(d.link(rootfs, link, target).0, d),
{
    debugfs_grows(d, rootfs, "rm "@ + link);
    let removed = d.remove(rootfs, link);
    debugfs_grows(removed, rootfs, "symlink "@ + link + " "@ + target);
    exists_grows(removed.debugfs(rootfs, "symlink "@ + link + " "@ + target).0, rootfs, link);
}

proof fn link_in_grows(
    d: Dialog<Deed, News>,
    rootfs: Seq<char>,
    directory: Seq<char>,
    missing: bool,
    link: Seq<char>,
    target: Seq<char>,
)
    ensures
        later(d.link_in(rootfs, directory, missing, link, target).0, d),
{
    exists_grows(d, rootfs, directory);
    let looked = d.exists_in(rootfs, directory).0;
    exists_grows(looked, rootfs, link);
    link_grows(looked.exists_in(rootfs, link).0, rootfs, link, target);
    link_grows(looked, rootfs, link, target);
}

proof fn program_grows(d: Dialog<Deed, News>, rootfs: Seq<char>, guest_path: Seq<char>, text: Seq<char>)
    ensures
        later(d.program(rootfs, guest_path, text).0, d),
{
    write_grows(d, rootfs, guest_path, encode_utf8(text));
    set_mode_grows(d.put(rootfs, guest_path, text).0, rootfs, guest_path, "0100755"@);
}

proof fn units_grow(d: Dialog<Deed, News>, rootfs: Seq<char>)
    ensures
        later(d.enable_unit(rootfs).0, d),
        later(d.enable_service(rootfs).0, d),
        later(d.fallback_unit(rootfs).0, d),
        later(d.bin_dir(rootfs).0, d),
{
    exists_grows(d, rootfs, "/etc/systemd/system"@);
    let looked = d.exists_in(rootfs, "/etc/systemd/system"@).0;
    exists_grows(looked, rootfs, NETWORK_READY_UNIT_PATH@);
    let found = looked.exists_in(rootfs, NETWORK_READY_UNIT_PATH@).0;
    write_grows(found, rootfs, NETWORK_READY_UNIT_PATH@, encode_utf8(NETWORK_READY_UNIT@));
    let put = found.put(rootfs, NETWORK_READY_UNIT_PATH@, NETWORK_READY_UNIT@).0;
    let wants = "/etc/systemd/system/multi-user.target.wants"@;
    link_in_grows(
        found,
        rootfs,
        wants,
        true,
        NETWORK_READY_UNIT_WANTS_PATH@,
        NETWORK_READY_UNIT_PATH@,
    );
    link_in_grows(
        put,
        rootfs,
        wants,
        true,
        NETWORK_READY_UNIT_WANTS_PATH@,
        NETWORK_READY_UNIT_PATH@,
    );
    link_in_grows(
        d,
        rootfs,
        "/etc/runlevels/default"@,
        true,
        NETWORK_READY_OPENRC_RUNLEVEL_PATH@,
        NETWORK_READY_OPENRC_PATH@,
    );
    write_grows(looked, rootfs, NETWORK_READY_UNIT_PATH@, encode_utf8(NETWORK_READY_UNIT@));
    link_in_grows(
        looked.put(rootfs, NETWORK_READY_UNIT_PATH@, NETWORK_READY_UNIT@).0,
        rootfs,
        wants,
        false,
        NETWORK_READY_UNIT_WANTS_PATH@,
        NETWORK_READY_UNIT_PATH@,
    );
    exists_grows(d, rootfs, "/usr/local/sbin"@);
    let a = d.exists_in(rootfs, "/usr/local/sbin"@).0;
    exists_grows(a, rootfs, "/usr/local"@);
    let b = a.exists_in(rootfs, "/usr/local"@).0;
    debugfs_grows(b, rootfs, "mkdir /usr/local/sbin"@);
    exists_grows(b.debugfs(rootfs, "mkdir /usr/local/sbin"@).0, rootfs, "/usr/local/sbin"@);
}

proof fn fallback_grows(d: Dialog<Deed, News>, rootfs: Seq<char>, profile: Profile)
    ensures
        later(d.fallback(rootfs, profile).0, d),
{
    units_grow(d, rootfs);
    let looked = d.bin_dir(rootfs).0;
    program_grows(looked, rootfs, NETWORK_READY_SCRIPT_PATH@, profile.script());
    let put = looked.program(rootfs, NETWORK_READY_SCRIPT_PATH@, profile.script()).0;
    units_grow(put, rootfs);
    let unit = put.fallback_unit(rootfs).0;
    exists_grows(unit, rootfs, "/etc/init.d"@);
    let openrc = unit.exists_in(rootfs, "/etc/init.d"@).0;
    program_grows(openrc, rootfs, NETWORK_READY_OPENRC_PATH@, profile.service());
    link_in_grows(
        openrc.program(rootfs, NETWORK_READY_OPENRC_PATH@, profile.service()).0,
        rootfs,
        "/etc/runlevels/default"@,
        false,
        NETWORK_READY_OPENRC_RUNLEVEL_PATH@,
        NETWORK_READY_OPENRC_PATH@,
    );
}

proof fn network_ready_grows(d: Dialog<Deed, News>, rootfs: Seq<char>, profile: Profile)
    ensures
        later(d.network_ready(rootfs, profile).0, d),
{
    exists_grows(d, rootfs, NETWORK_READY_SCRIPT_PATH@);
    let a = d.exists_in(rootfs, NETWORK_READY_SCRIPT_PATH@).0;
    program_grows(a, rootfs, NETWORK_READY_SCRIPT_PATH@, profile.script());
    units_grow(a.program(rootfs, NETWORK_READY_SCRIPT_PATH@, profile.script()).0, rootfs);
    let scripted = d.patch_script(rootfs, profile).0;
    assert(later(scripted, d));
    exists_grows(scripted, rootfs, NETWORK_READY_OPENRC_PATH@);
    let b = scripted.exists_in(rootfs, NETWORK_READY_OPENRC_PATH@).0;
    program_grows(b, rootfs, NETWORK_READY_OPENRC_PATH@, profile.service());
    units_grow(b.program(rootfs, NETWORK_READY_OPENRC_PATH@, profile.service()).0, rootfs);
    let served = scripted.patch_service(rootfs, profile).0;
    assert(later(served, scripted));
    fallback_grows(served, rootfs, profile);
}

proof fn search_grows(d: Dialog<Deed, News>, rootfs: Seq<char>, candidates: Seq<Seq<char>>)
    ensures
        later(d.first_there(rootfs, candidates).0, d),
    decreases candidates.len(),
{
    if candidates.len() > 0 {
        exists_grows(d, rootfs, candidates[0]);
        let (next, there) = d.exists_in(rootfs, candidates[0]);
        if !there {
            search_grows(next, rootfs, candidates.skip(1));
        }
    }
}

proof fn links_grow(
    d: Dialog<Deed, News>,
    rootfs: Seq<char>,
    usr_bin: bool,
    applets: Seq<Seq<char>>,
)
    ensures
        later(d.linked(rootfs, usr_bin, applets), d),
    decreases applets.len(),
{
    if applets.len() > 0 {
        search_grows(d, rootfs, applet_paths(applets[0]));
        let (looked, there) = d.first_there(rootfs, applet_paths(applets[0]));
        let command = "symlink "@ + link_path(usr_bin, applets[0]) + " "@ + GUEST_TOOLBOX@;
        debugfs_grows(looked, rootfs, command);
        let next = if there is Some {
            looked
        } else {
            looked.debugfs(rootfs, command).0
        };
        links_grow(next, rootfs, usr_bin, applets.skip(1));
    }
}

proof fn toolbox_grows(d: Dialog<Deed, News>, rootfs: Seq<char>)
    ensures
        later(d.toolbox(rootfs), d),
{
    exists_grows(d, rootfs, GUEST_TOOLBOX@);
    let looked = d.exists_in(rootfs, GUEST_TOOLBOX@).0;
    exists_grows(looked, rootfs, "/usr/bin"@);
    let (found, usr_bin) = looked.exists_in(rootfs, "/usr/bin"@);
    debugfs_grows(found, rootfs, "mkdir /bin"@);
    let next = if usr_bin {
        found
    } else {
        found.debugfs(rootfs, "mkdir /bin"@).0
    };
    links_grow(next, rootfs, usr_bin, texts(PATH_APPLETS@));
}

proof fn dump_grows(d: Dialog<Deed, News>, rootfs: Seq<char>, guest_path: Seq<char>, dest: Seq<char>)
    ensures
        later(d.dump(rootfs, guest_path, dest).0, d),
{
    let command = "dump "@ + guest_path + " "@ + dest;
    debugfs_grows(d, rootfs, command);
    let ran = d.debugfs(rootfs, command).0;
    ask_grows(ran, Deed::Length { path: dest });
    ask_grows(ran.ask(Deed::Length { path: dest }).0, Deed::Remove { path: dest });
}

/// A file of the guest is read by way of a file of the host.
proof fn reading_grows(
    d: Dialog<Deed, News>,
    rootfs: Seq<char>,
    guest_path: Seq<char>,
    staging: Seq<char>,
)
    ensures
        ({
            let dumped = d.dump(rootfs, guest_path, staging).0;
            let read = dumped.ask(Deed::ReadText { path: staging }).0;
            &&& later(dumped, d)
            &&& later(dumped.tell(Deed::Remove { path: staging }), d)
            &&& later(read, d)
            &&& later(read.tell(Deed::Remove { path: staging }), d)
        }),
{
    dump_grows(d, rootfs, guest_path, staging);
    let dumped = d.dump(rootfs, guest_path, staging).0;
    ask_grows(dumped, Deed::Remove { path: staging });
    ask_grows(dumped, Deed::ReadText { path: staging });
    ask_grows(dumped.ask(Deed::ReadText { path: staging }).0, Deed::Remove { path: staging });
}

proof fn root_shell_grows(d: Dialog<Deed, News>, rootfs: Seq<char>, shell: Seq<char>)
    ensures
        later(d.root_shell(rootfs, shell), d),
{
    reading_grows(d, rootfs, "/etc/passwd"@, with_extension(rootfs, "passwd.tmp"@));
    let (read, current) = d.accounts(rootfs);
    write_grows(read, rootfs, "/etc/passwd"@, encode_utf8(with_root_shell(current, shell)));
}

proof fn console_grows(d: Dialog<Deed, News>, rootfs: Seq<char>, agent: Seq<char>)
    ensures
        later(d.console(rootfs, agent), d),
{
    exists_grows(d, rootfs, "/etc/firecrab"@);
    let looked = d.exists_in(rootfs, "/etc/firecrab"@).0;
    debugfs_grows(looked, rootfs, "mkdir /etc/firecrab"@);
    let made = looked.debugfs(rootfs, "mkdir /etc/firecrab"@).0;
    search_grows(made, rootfs, texts(GUEST_AGETTY_CANDIDATES@));
    let (a, agetty) = made.first_there(rootfs, texts(GUEST_AGETTY_CANDIDATES@));
    search_grows(a, rootfs, texts(GUEST_BASH_CANDIDATES@));
    let (b, shell) = a.first_there(rootfs, texts(GUEST_BASH_CANDIDATES@));
    let c = match shell {
        Some(shell) => {
            root_shell_grows(b, rootfs, shell);
            b.root_shell(rootfs, shell)
        },
        None => b,
    };
    write_grows(c, rootfs, "/etc/inittab"@, encode_utf8(inittab_text(agetty)));
    let d1 = c.put(rootfs, "/etc/inittab"@, inittab_text(agetty)).0;
    write_grows(d1, rootfs, "/etc/firecrab/rc.boot"@, encode_utf8(boot_text(agent)));
    let d2 = d1.put(rootfs, "/etc/firecrab/rc.boot"@, boot_text(agent)).0;
    write_grows(d2, rootfs, "/etc/firecrab/rc.console"@, encode_utf8(console_text()));
    let d3 = d2.put(rootfs, "/etc/firecrab/rc.console"@, console_text()).0;
    set_mode_grows(d3, rootfs, "/etc/firecrab/rc.boot"@, "0100755"@);
    set_mode_grows(
        d3.set_mode(rootfs, "/etc/firecrab/rc.boot"@, "0100755"@),
        rootfs,
        "/etc/firecrab/rc.console"@,
        "0100755"@,
    );
}

proof fn marked_grows(
    d: Dialog<Deed, News>,
    rootfs: Seq<char>,
    guest_path: Seq<char>,
    needle: Seq<char>,
)
    ensures
        later(d.remove_marked(rootfs, guest_path, needle), d),
{
    exists_grows(d, rootfs, guest_path);
    let looked = d.exists_in(rootfs, guest_path).0;
    reading_grows(looked, rootfs, guest_path, with_extension(rootfs, "systemctl.tmp"@));
    let read = d.file_contains(rootfs, guest_path, needle).0;
    debugfs_grows(read, rootfs, "rm "@ + guest_path);
}

proof fn comforts_grow(d: Dialog<Deed, News>, rootfs: Seq<char>, profile: Profile)
    ensures
        later(d.comforts(rootfs, profile), d),
{
    debugfs_grows(d, rootfs, "mkdir /etc/profile.d"@);
    let a = d.debugfs(rootfs, "mkdir /etc/profile.d"@).0;
    debugfs_grows(a, rootfs, "mkdir /etc/default"@);
    let b = a.debugfs(rootfs, "mkdir /etc/default"@).0;
    let welcome = "/etc/profile.d/firecrab-welcome.sh"@;
    write_grows(b, rootfs, welcome, encode_utf8(FIRECRAB_WELCOME_PROFILE@));
    let c = b.put(rootfs, welcome, FIRECRAB_WELCOME_PROFILE@).0;
    let locale = "/etc/profile.d/firecrab-locale.sh"@;
    write_grows(c, rootfs, locale, encode_utf8(FIRECRAB_LOCALE_PROFILE@));
    let e = c.put(rootfs, locale, FIRECRAB_LOCALE_PROFILE@).0;
    write_grows(e, rootfs, "/etc/default/locale"@, encode_utf8(FIRECRAB_LOCALE_CONF@));
    let f = e.put(rootfs, "/etc/default/locale"@, FIRECRAB_LOCALE_CONF@).0;
    write_grows(f, rootfs, "/etc/locale.conf"@, encode_utf8(FIRECRAB_LOCALE_CONF@));
    let g = f.put(rootfs, "/etc/locale.conf"@, FIRECRAB_LOCALE_CONF@).0;
    console_grows(g, rootfs, profile.agent);
    let h = g.console(rootfs, profile.agent);
    debugfs_grows(h, rootfs, "mkdir /etc/sysctl.d"@);
    let i = h.debugfs(rootfs, "mkdir /etc/sysctl.d"@).0;
    write_grows(i, rootfs, IPV6_SYSCTL_PATH@, encode_utf8(IPV6_SYSCTL@));
    let j = h.ipv6(rootfs);
    toolbox_grows(j, rootfs);
    let k = j.toolbox(rootfs);
    debugfs_grows(k, rootfs, "rm "@ + "/usr/local/bin/systemctl"@);
    let l = k.remove(rootfs, "/usr/local/bin/systemctl"@);
    marked_grows(l, rootfs, "/bin/systemctl"@, "Firecrab systemctl"@);
    let m = l.remove_marked(rootfs, "/bin/systemctl"@, "Firecrab systemctl"@);
    marked_grows(m, rootfs, "/usr/bin/systemctl"@, "Firecrab systemctl"@);
}

proof fn variables_grow(d: Dialog<Deed, News>, rootfs: Seq<char>, profile: Profile)
    ensures
        later(d.apply_env(rootfs, profile).0, d),
{
    exists_grows(d, rootfs, GUEST_VM_SERVICE@);
    let looked = d.exists_in(rootfs, GUEST_VM_SERVICE@).0;
    write_grows(looked, rootfs, profile.env_path, encode_utf8(profile.env_file));
    let put = looked.put(rootfs, profile.env_path, profile.env_file).0;
    set_mode_grows(put, rootfs, profile.env_path, "0100644"@);
    let kept = put.set_mode(rootfs, profile.env_path, "0100644"@);
    let staging = with_extension(rootfs, "vm-env.tmp"@);
    ask_grows(kept, Deed::Remove { path: staging });
    let cleared = kept.tell(Deed::Remove { path: staging });
    reading_grows(cleared, rootfs, GUEST_VM_SERVICE@, staging);
    let dumped = cleared.dump(rootfs, GUEST_VM_SERVICE@, staging).0;
    let (read, news) = dumped.ask(Deed::ReadText { path: staging });
    if let News::Text(text) = news {
        ask_grows(read, Deed::RewriteEnv { script: text });
        ask_grows(
            read.ask(Deed::RewriteEnv { script: text }).0,
            Deed::Remove { path: staging },
        );
    }
    let (end, script) = kept.env_script(rootfs);
    if let Ok(script) = script {
        write_grows(end, rootfs, GUEST_VM_SERVICE@, encode_utf8(script));
        set_mode_grows(
            end.put(rootfs, GUEST_VM_SERVICE@, script).0,
            rootfs,
            GUEST_VM_SERVICE@,
            "0100755"@,
        );
    }
}

/// The command that removes a file of the guest.
pub open spec fn removal(rootfs: Seq<char>, guest_path: Seq<char>) -> Deed {
    Deed::Run { program: "debugfs"@, args: seq!["-w"@, "-R"@, "rm "@ + guest_path].push(rootfs) }
}

proof fn stripped_removes(d: Dialog<Deed, News>, rootfs: Seq<char>, paths: Seq<Seq<char>>)
    ensures
        later(d.stripped(rootfs, paths), d),
        forall|i: int|
            0 <= i < paths.len() && !d.stripped(rootfs, paths).waiting ==> d.stripped(
                rootfs,
                paths,
            ).asked.contains(#[trigger] removal(rootfs, paths[i])),
    decreases paths.len(),
{
    if paths.len() > 0 {
        debugfs_grows(d, rootfs, "rm "@ + paths[0]);
        let next = d.remove(rootfs, paths[0]);
        stripped_removes(next, rootfs, paths.skip(1));
        let end = d.stripped(rootfs, paths);
        assert forall|i: int|
            0 <= i < paths.len() && !end.waiting implies end.asked.contains(
            #[trigger] removal(rootfs, paths[i]),
        ) by {
            if i == 0 {
                assert(next.asked.contains(removal(rootfs, paths[0])));
            } else {
                assert(paths.skip(1)[i - 1] == paths[i]);
                assert(end.asked.contains(removal(rootfs, paths.skip(1)[i - 1])));
            }
        }
    }
}

/// A VM never keeps the keys, seeds and leases of its template: where a disk was given its
/// identity, each of them was removed.
pub proof fn secrets_of_the_template_are_removed(
    answers: Seq<News>,
    rootfs: Seq<char>,
    profile: Profile,
    i: int,
)
    requires
        0 <= i < STRIP_PATHS@.len(),
        !fresh(answers).specialize(rootfs, profile).0.waiting,
        fresh(answers).specialize(rootfs, profile).1 is Ok,
    ensures
        fresh(answers).specialize(rootfs, profile).0.asked.contains(
            removal(rootfs, STRIP_PATHS[i]@),
        ),
{
    let recovered = fresh(answers).recover(rootfs).0;
    let named = recovered.put(rootfs, "/etc/hostname"@, profile.hostname + "\n"@).0;
    let greeted = named.put(rootfs, "/etc/motd"@, profile.motd).0;
    let applied = greeted.comforts(rootfs, profile).apply_env(rootfs, profile).0;
    let paths = texts(STRIP_PATHS@);
    stripped_removes(applied, rootfs, paths);
    network_ready_grows(applied.stripped(rootfs, paths), rootfs, profile);
    assert(paths[i] == STRIP_PATHS[i]@);
    assert(removal(rootfs, paths[i]) == removal(rootfs, STRIP_PATHS[i]@));
}

/// The deeds that write a file of the guest, in place of what was there.
pub open spec fn writing(rootfs: Seq<char>, guest_path: Seq<char>, text: Seq<char>) -> Seq<Deed> {
    let staging = with_extension(rootfs, "specialize.tmp"@);
    seq![
        Deed::Write { path: staging, bytes: encode_utf8(text) },
        removal(rootfs, guest_path),
        Deed::Run {
            program: "debugfs"@,
            args: seq!["-w"@, "-R"@, "write "@ + staging + " "@ + guest_path].push(rootfs),
        },
        Deed::Remove { path: staging },
    ]
}

proof fn a_write_is_asked(d: Dialog<Deed, News>, rootfs: Seq<char>, guest_path: Seq<char>, text: Seq<char>)
    requires
        !d.put(rootfs, guest_path, text).0.waiting,
        d.put(rootfs, guest_path, text).1 is Ok,
    ensures
        !d.waiting,
        d.put(rootfs, guest_path, text).0.asked == d.asked + writing(rootfs, guest_path, text),
{
    write_grows(d, rootfs, guest_path, encode_utf8(text));
    assert(d.put(rootfs, guest_path, text).0.asked =~= d.asked + writing(rootfs, guest_path, text));
}

/// What follows the banner only adds to what was asked.
proof fn the_rest_grows(greeted: Dialog<Deed, News>, rootfs: Seq<char>, profile: Profile)
    ensures
        later(greeted.comforts(rootfs, profile).apply_env(rootfs, profile).0, greeted),
        later(
            greeted.comforts(rootfs, profile).apply_env(rootfs, profile).0.stripped(
                rootfs,
                texts(STRIP_PATHS@),
            ).network_ready(rootfs, profile).0,
            greeted,
        ),
{
    comforts_grow(greeted, rootfs, profile);
    let eased = greeted.comforts(rootfs, profile);
    variables_grow(eased, rootfs, profile);
    let applied = eased.apply_env(rootfs, profile).0;
    let paths = texts(STRIP_PATHS@);
    stripped_removes(applied, rootfs, paths);
    network_ready_grows(applied.stripped(rootfs, paths), rootfs, profile);
}

/// A disk that was given its identity was recovered first, and then got the VM's hostname and
/// its banner, before anything else.
pub proof fn a_vm_gets_its_hostname(answers: Seq<News>, rootfs: Seq<char>, profile: Profile)
    requires
        !fresh(answers).specialize(rootfs, profile).0.waiting,
        fresh(answers).specialize(rootfs, profile).1 is Ok,
    ensures
        ({
            let asked = fresh(answers).specialize(rootfs, profile).0.asked;
            let first = seq![Deed::Run { program: "e2fsck"@, args: seq!["-p"@, rootfs] }] + writing(
                rootfs,
                "/etc/hostname"@,
                profile.hostname + "\n"@,
            ) + writing(rootfs, "/etc/motd"@, profile.motd);
            asked.len() >= first.len() && asked.take(first.len() as int) == first
        }),
{
    let recovered = fresh(answers).recover(rootfs).0;
    let hostname = profile.hostname + "\n"@;
    let named = recovered.put(rootfs, "/etc/hostname"@, hostname).0;
    let greeted = named.put(rootfs, "/etc/motd"@, profile.motd).0;
    the_rest_grows(greeted, rootfs, profile);
    a_write_is_asked(named, rootfs, "/etc/motd"@, profile.motd);
    a_write_is_asked(recovered, rootfs, "/etc/hostname"@, hostname);
    assert(seq!["-p"@].push(rootfs) =~= seq!["-p"@, rootfs]);
    let check = seq![Deed::Run { program: "e2fsck"@, args: seq!["-p"@, rootfs] }];
    assert(recovered.asked =~= check);
    let end = fresh(answers).specialize(rootfs, profile).0;
    assert(end.asked.take(greeted.asked.len() as int) =~= greeted.asked);
}

/// Where the filesystem could not be recovered safely, the disk is left as it is: nothing but
/// the recovery was asked for.
pub proof fn a_failed_recovery_writes_nothing(
    answers: Seq<News>,
    rootfs: Seq<char>,
    profile: Profile,
)
    requires
        answers.len() > 0,
        fresh(answers).recover(rootfs).1 is Err,
    ensures
        fresh(answers).specialize(rootfs, profile).1 is Err,
        fresh(answers).specialize(rootfs, profile).0.asked == seq![
            Deed::Run { program: "e2fsck"@, args: seq!["-p"@, rootfs] },
        ],
{
    assert(seq!["-p"@].push(rootfs) =~= seq!["-p"@, rootfs]);
    assert(fresh(answers).specialize(rootfs, profile).0.asked =~= seq![
        Deed::Run { program: "e2fsck"@, args: seq!["-p"@, rootfs] },
    ]);
}

} // verus!
