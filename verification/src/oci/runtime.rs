//! What an injected guest runs, and where an injection puts it.

use vstd::prelude::*;

#[allow(unused_imports)]
use super::provision::{
    a_stopped_run_does_nothing, applet_paths, below, boot_text, console_text, dhcp_text,
    guest_name, guest_parent, inittab_text, is_absolute, link_path, mount_points, path_applets,
    place, steps, with_root_shell, with_serial_console, Answer, GuestParts, Question, Run,
    BASE_PACKAGE_INSTALL, BOOT_1, BOOT_2, BOOT_3, BOOT_4, BOOT_5, BOOT_6, BOOT_7, CONSOLE_1,
    CONSOLE_2, CONSOLE_3, DHCP_1, DHCP_2, DHCP_3, GUEST_BOOT_SCRIPT, GUEST_CONSOLE_SCRIPT,
    GUEST_DHCP_SCRIPT, GUEST_INIT, GUEST_INITTAB, GUEST_MOTD, GUEST_SERVICES, GUEST_TOOLBOX,
    SYMLINK_HOP_LIMIT,
};
#[allow(unused_imports)]
use super::order::{name_behind, name_in_place, names_hold_no_separator};
#[allow(unused_imports)]
use crate::path::join;
#[allow(unused_imports)]
use crate::text::{contains, occurs_at, split, starts_with, views};
#[allow(unused_imports)]
use vstd::utf8::encode_utf8;

verus! {

/// Whether a shell script runs under the toolbox, and has `BB` stand for it: the first line
/// names the toolbox as the interpreter, and where `BB` is first given a value, that value is
/// the toolbox.
pub open spec fn runs_on_the_toolbox(script: Seq<char>) -> bool {
    &&& starts_with(script, "#!/etc/firecrab/busybox sh\n"@)
    &&& exists|at: int|
        {
            &&& #[trigger] occurs_at(script, "\nBB=/etc/firecrab/busybox\n"@, at)
            &&& forall|i: int| 0 <= i < at ==> !#[trigger] occurs_at(script, "\nBB="@, i)
        }
}

proof fn stands_between(
    text: Seq<char>,
    front: Seq<char>,
    part: Seq<char>,
    back: Seq<char>,
)
    requires
        text == front + part + back,
    ensures
        occurs_at(text, part, front.len() as int),
        contains(text, part),
{
    assert(text.subrange(front.len() as int, (front.len() + part.len()) as int) =~= part);
    assert(occurs_at(text, part, front.len() as int));
}

/// A script whose first lines are a comment and the value of `BB`.
proof fn the_toolbox_comes_first(
    script: Seq<char>,
    second: Seq<char>,
    comment: Seq<char>,
    rest: Seq<char>,
)
    requires
        script == "#!"@ + GUEST_TOOLBOX@ + second + GUEST_TOOLBOX@ + rest,
        second == " sh\n"@ + comment + "\nBB="@,
        rest.len() > 0 && rest[0] == '\n',
        forall|i: int| 0 <= i < comment.len() ==> #[trigger] comment[i] != 'B',
    ensures
        runs_on_the_toolbox(script),
{
    reveal_strlit("#!");
    reveal_strlit(" sh\n");
    reveal_strlit("\nBB=");
    reveal_strlit("/etc/firecrab/busybox");
    reveal_strlit("#!/etc/firecrab/busybox sh\n");
    reveal_strlit("\nBB=/etc/firecrab/busybox\n");
    let first = "#!/etc/firecrab/busybox sh\n"@;
    let value = "\nBB=/etc/firecrab/busybox\n"@;
    assert(script.subrange(0, first.len() as int) =~= first);
    let front = "#!"@ + GUEST_TOOLBOX@ + " sh\n"@ + comment;
    assert(front.len() == 27 + comment.len());
    let back = rest.skip(1);
    assert(script =~= front + value + back);
    stands_between(script, front, value, back);
    let at = front.len() as int;
    assert forall|i: int| 0 <= i < at implies !#[trigger] occurs_at(script, "\nBB="@, i) by {
        if occurs_at(script, "\nBB="@, i) {
            let part = script.subrange(i, i + 4);
            assert(part[0] == '\n' && part[1] == 'B' && part[2] == 'B');
            assert(script[i] == '\n' && script[i + 1] == 'B' && script[i + 2] == 'B');
            if i + 1 < 27 {
                assert(script[i + 1] == first[i + 1]);
                no_b_in_front(i + 1);
            } else if i + 1 < at {
                assert(script[i + 1] == comment[i + 1 - 27]);
            } else {
                assert(i + 1 == at);
                assert(script[at] == value[0]);
            }
        }
    }
}

proof fn no_b_in_front(i: int)
    requires
        0 <= i < 27,
    ensures
        "#!/etc/firecrab/busybox sh\n"@[i] != 'B',
{
    reveal_strlit("#!/etc/firecrab/busybox sh\n");
    assert(i == 0 || i == 1 || i == 2 || i == 3 || i == 4 || i == 5 || i == 6 || i == 7 || i == 8
        || i == 9 || i == 10 || i == 11 || i == 12 || i == 13 || i == 14 || i == 15 || i == 16
        || i == 17 || i == 18 || i == 19 || i == 20 || i == 21 || i == 22 || i == 23 || i == 24
        || i == 25 || i == 26);
}

/// Whether a number is one of the first, one by one.
spec fn counted(i: int) -> bool {
    i == 0 || i == 1 || i == 2 || i == 3 || i == 4 || i == 5 || i == 6 || i == 7 || i == 8
        || i == 9 || i == 10 || i == 11 || i == 12 || i == 13 || i == 14 || i == 15 || i == 16
        || i == 17 || i == 18 || i == 19 || i == 20 || i == 21 || i == 22 || i == 23 || i == 24
        || i == 25 || i == 26 || i == 27 || i == 28 || i == 29 || i == 30 || i == 31 || i == 32
        || i == 33 || i == 34 || i == 35 || i == 36 || i == 37 || i == 38 || i == 39 || i == 40
        || i == 41 || i == 42 || i == 43 || i == 44 || i == 45 || i == 46 || i == 47 || i == 48
        || i == 49 || i == 50 || i == 51 || i == 52 || i == 53 || i == 54 || i == 55 || i == 56
        || i == 57 || i == 58 || i == 59 || i == 60 || i == 61 || i == 62 || i == 63 || i == 64
        || i == 65 || i == 66 || i == 67 || i == 68 || i == 69 || i == 70 || i == 71 || i == 72
        || i == 73 || i == 74 || i == 75 || i == 76 || i == 77 || i == 78 || i == 79 || i == 80
        || i == 81 || i == 82 || i == 83 || i == 84 || i == 85 || i == 86 || i == 87 || i == 88
        || i == 89 || i == 90 || i == 91 || i == 92 || i == 93 || i == 94 || i == 95 || i == 96
        || i == 97 || i == 98 || i == 99 || i == 100 || i == 101 || i == 102 || i == 103
        || i == 104 || i == 105 || i == 106 || i == 107 || i == 108 || i == 109 || i == 110
        || i == 111 || i == 112 || i == 113 || i == 114 || i == 115 || i == 116 || i == 117
        || i == 118 || i == 119 || i == 120 || i == 121 || i == 122 || i == 123 || i == 124
        || i == 125 || i == 126 || i == 127 || i == 128 || i == 129 || i == 130 || i == 131
        || i == 132 || i == 133 || i == 134 || i == 135 || i == 136 || i == 137 || i == 138
        || i == 139 || i == 140 || i == 141 || i == 142 || i == 143 || i == 144 || i == 145
        || i == 146 || i == 147 || i == 148 || i == 149 || i == 150 || i == 151 || i == 152
        || i == 153 || i == 154 || i == 155 || i == 156 || i == 157 || i == 158 || i == 159
        || i == 160 || i == 161 || i == 162 || i == 163 || i == 164 || i == 165 || i == 166
        || i == 167 || i == 168 || i == 169 || i == 170 || i == 171 || i == 172 || i == 173
        || i == 174 || i == 175 || i == 176 || i == 177 || i == 178 || i == 179 || i == 180
        || i == 181 || i == 182 || i == 183 || i == 184 || i == 185 || i == 186 || i == 187
        || i == 188 || i == 189 || i == 190 || i == 191 || i == 192 || i == 193 || i == 194
        || i == 195 || i == 196 || i == 197 || i == 198 || i == 199 || i == 200 || i == 201
        || i == 202 || i == 203 || i == 204 || i == 205 || i == 206 || i == 207 || i == 208
        || i == 209 || i == 210 || i == 211 || i == 212 || i == 213 || i == 214 || i == 215
        || i == 216 || i == 217 || i == 218
}

proof fn one_by_one(i: int)
    requires
        0 <= i < 219,
    ensures
        counted(i),
{
}

proof fn the_boot_script_begins()
    ensures
        BOOT_2@ == " sh\n"@ + "# Firecrab guest runtime for an imported OCI image (public-docs/oci.md).\n# Avoid `set -e`: one failed mount must not leave the host waiting out the full\n# readiness timeout for a sentinel that will now never be printed."@ + "\nBB="@,
        forall|i: int|
            0 <= i < "# Firecrab guest runtime for an imported OCI image (public-docs/oci.md).\n# Avoid `set -e`: one failed mount must not leave the host waiting out the full\n# readiness timeout for a sentinel that will now never be printed."@.len() ==> #[trigger] "# Firecrab guest runtime for an imported OCI image (public-docs/oci.md).\n# Avoid `set -e`: one failed mount must not leave the host waiting out the full\n# readiness timeout for a sentinel that will now never be printed."@[i] != 'B',
{
    reveal_strlit("# Firecrab guest runtime for an imported OCI image (public-docs/oci.md).\n# Avoid `set -e`: one failed mount must not leave the host waiting out the full\n# readiness timeout for a sentinel that will now never be printed.");
    reveal_strlit(" sh\n");
    reveal_strlit("\nBB=");
    reveal_strlit(" sh\n# Firecrab guest runtime for an imported OCI image (public-docs/oci.md).\n# Avoid `set -e`: one failed mount must not leave the host waiting out the full\n# readiness timeout for a sentinel that will now never be printed.\nBB=");
    assert(BOOT_2@ =~= " sh\n"@ + "# Firecrab guest runtime for an imported OCI image (public-docs/oci.md).\n# Avoid `set -e`: one failed mount must not leave the host waiting out the full\n# readiness timeout for a sentinel that will now never be printed."@ + "\nBB="@);
    let comment = "# Firecrab guest runtime for an imported OCI image (public-docs/oci.md).\n# Avoid `set -e`: one failed mount must not leave the host waiting out the full\n# readiness timeout for a sentinel that will now never be printed."@;
    assert forall|i: int| 0 <= i < comment.len() implies #[trigger] comment[i] != 'B' by {
        one_by_one(i);
    }
}

proof fn the_console_begins()
    ensures
        CONSOLE_2@ == " sh\n"@ + "# Firecrab injected console (public-docs/oci.md)."@ + "\nBB="@,
        forall|i: int|
            0 <= i < "# Firecrab injected console (public-docs/oci.md)."@.len() ==> #[trigger] "# Firecrab injected console (public-docs/oci.md)."@[i] != 'B',
{
    reveal_strlit("# Firecrab injected console (public-docs/oci.md).");
    reveal_strlit(" sh\n");
    reveal_strlit("\nBB=");
    reveal_strlit(" sh\n# Firecrab injected console (public-docs/oci.md).\nBB=");
    assert(CONSOLE_2@ =~= " sh\n"@ + "# Firecrab injected console (public-docs/oci.md)."@ + "\nBB="@);
    let comment = "# Firecrab injected console (public-docs/oci.md)."@;
    assert forall|i: int| 0 <= i < comment.len() implies #[trigger] comment[i] != 'B' by {
        one_by_one(i);
    }
}

proof fn the_dhcp_script_begins()
    ensures
        DHCP_2@ == " sh\n"@ + "# Firecrab guest DHCP hook for an imported OCI image (public-docs/oci.md)."@ + "\nBB="@,
        forall|i: int|
            0 <= i < "# Firecrab guest DHCP hook for an imported OCI image (public-docs/oci.md)."@.len() ==> #[trigger] "# Firecrab guest DHCP hook for an imported OCI image (public-docs/oci.md)."@[i] != 'B',
{
    reveal_strlit("# Firecrab guest DHCP hook for an imported OCI image (public-docs/oci.md).");
    reveal_strlit(" sh\n");
    reveal_strlit("\nBB=");
    reveal_strlit(" sh\n# Firecrab guest DHCP hook for an imported OCI image (public-docs/oci.md).\nBB=");
    assert(DHCP_2@ =~= " sh\n"@ + "# Firecrab guest DHCP hook for an imported OCI image (public-docs/oci.md)."@ + "\nBB="@);
    let comment = "# Firecrab guest DHCP hook for an imported OCI image (public-docs/oci.md)."@;
    assert forall|i: int| 0 <= i < comment.len() implies #[trigger] comment[i] != 'B' by {
        one_by_one(i);
    }
}

/// Every script of an injected guest runs under the toolbox at `/etc/firecrab/busybox`, and
/// has its `BB` stand for that program, whatever the path of the metrics agent.
pub proof fn injected_scripts_run_on_the_toolbox(agent: Seq<char>)
    ensures
        runs_on_the_toolbox(boot_text(agent)),
        runs_on_the_toolbox(console_text()),
        runs_on_the_toolbox(dhcp_text()),
{
    reveal_strlit("#!");
    the_boot_script_begins();
    the_console_begins();
    the_dhcp_script_begins();
    lines_end();
    let rest = BOOT_3@ + agent + BOOT_4@ + GUEST_DHCP_SCRIPT@ + BOOT_5@ + BASE_PACKAGE_INSTALL@
        + BOOT_6@ + GUEST_SERVICES@ + BOOT_7@;
    assert(boot_text(agent) =~= "#!"@ + GUEST_TOOLBOX@ + BOOT_2@ + GUEST_TOOLBOX@ + rest);
    the_toolbox_comes_first(
        boot_text(agent),
        BOOT_2@,
        "# Firecrab guest runtime for an imported OCI image (public-docs/oci.md).\n# Avoid `set -e`: one failed mount must not leave the host waiting out the full\n# readiness timeout for a sentinel that will now never be printed."@,
        rest,
    );
    the_toolbox_comes_first(
        console_text(),
        CONSOLE_2@,
        "# Firecrab injected console (public-docs/oci.md)."@,
        CONSOLE_3@,
    );
    the_toolbox_comes_first(
        dhcp_text(),
        DHCP_2@,
        "# Firecrab guest DHCP hook for an imported OCI image (public-docs/oci.md)."@,
        DHCP_3@,
    );
}

proof fn lines_end()
    ensures
        BOOT_3@.len() > 0 && BOOT_3@[0] == '\n',
        CONSOLE_3@.len() > 0 && CONSOLE_3@[0] == '\n',
        DHCP_3@.len() > 0 && DHCP_3@[0] == '\n',
        BOOT_3@.len() >= 19 && BOOT_3@.skip(BOOT_3@.len() - 19) == "\n$BB setsid $BB sh "@,
        BOOT_4@.len() >= 18 && BOOT_4@.take(18) == " >/dev/null 2>&1 &"@,
        BOOT_4@.len() >= 39 && BOOT_4@.skip(BOOT_4@.len() - 39)
            == "\n$BB udhcpc -i eth0 -n -q -t 8 -T 2 -s "@,
        BOOT_5@.len() > 0 && BOOT_5@[0] == ' ',
        BOOT_6@.len() >= 16 && BOOT_6@.skip(BOOT_6@.len() - 16) == "\nfor service in "@,
        BOOT_7@.len() >= 39 && BOOT_7@.take(39) == "/*; do\n  [ -x \"$service\" ] || continue\n"@,
{
    reveal_strlit("\n\n$BB mount -t proc -o nosuid,nodev,noexec proc /proc 2>/dev/null\n$BB mount -t sysfs -o nosuid,nodev,noexec sysfs /sys 2>/dev/null\n$BB mount -t devtmpfs devtmpfs /dev 2>/dev/null\n$BB mkdir -p /dev/pts\n$BB mount -t devpts -o nosuid,noexec devpts /dev/pts 2>/dev/null\n$BB mount -t tmpfs -o nosuid,nodev,mode=755 tmpfs /run 2>/dev/null\n# Official images expect the Linux fd nodes Docker always provides.\n# Bash process substitution (initdb, entrypoints) opens /dev/fd/N.\n[ -e /dev/fd ] || $BB ln -sf /proc/self/fd /dev/fd\n[ -e /dev/stdin ] || $BB ln -sf /proc/self/fd/0 /dev/stdin\n[ -e /dev/stdout ] || $BB ln -sf /proc/self/fd/1 /dev/stdout\n[ -e /dev/stderr ] || $BB ln -sf /proc/self/fd/2 /dev/stderr\n\n# specialize_guest writes /etc/hostname; systemd would apply it, busybox init does not.\nif [ -s /etc/hostname ]; then\n  $BB hostname -F /etc/hostname 2>/dev/null\n  $BB cat /etc/hostname > /proc/sys/kernel/hostname 2>/dev/null\nfi\n\n# UTF-8 so CJK typed on the serial console is not treated as POSIX C.\nexport LANG=\"${LANG:-C.UTF-8}\"\nexport LC_ALL=\"$LANG\" LC_CTYPE=\"$LANG\"\n$BB stty iutf8 2>/dev/null\n\n# Metrics first, so the dashboard has samples even when the network fails.\n$BB setsid $BB sh ");
    reveal_strlit("\nPATH=\"/usr/local/bin:/usr/local/sbin:$PATH\"\nexport PATH\nexport LANG=\"${LANG:-C.UTF-8}\"\nexport LC_ALL=\"$LANG\" LC_CTYPE=\"$LANG\"\n$BB stty iutf8 2>/dev/null\nif [ -s /etc/hostname ]; then\n  $BB hostname -F /etc/hostname 2>/dev/null\n  $BB cat /etc/hostname > /proc/sys/kernel/hostname 2>/dev/null\nfi\n[ -s /etc/motd ] && $BB cat /etc/motd\nif [ -x /usr/bin/fastfetch ]; then\n  /usr/bin/fastfetch\nelif [ -x /usr/bin/neofetch ]; then\n  /usr/bin/neofetch\nfi\nexec $BB sh\n");
    reveal_strlit("\n\ncase \"$1\" in\n  deconfig)\n    $BB ip addr flush dev \"$interface\" 2>/dev/null\n    $BB ip link set \"$interface\" up 2>/dev/null\n    ;;\n  bound|renew)\n    $BB ip addr flush dev \"$interface\" 2>/dev/null\n    $BB ip addr add \"$ip/${mask:-24}\" dev \"$interface\" 2>/dev/null\n    $BB ip link set \"$interface\" up 2>/dev/null\n    for gateway in $router; do\n      $BB ip route add default via \"$gateway\" dev \"$interface\" 2>/dev/null\n      break\n    done\n    # Some images symlink resolv.conf at a resolver stub they never ship, so\n    # the link target never appears. Replace the link with a real file.\n    [ -L /etc/resolv.conf ] && $BB rm -f /etc/resolv.conf\n    : >/etc/resolv.conf\n    for server in $dns; do\n      printf 'nameserver %s\\n' \"$server\" >>/etc/resolv.conf\n    done\n    ;;\nesac\nexit 0\n");
    reveal_strlit(" >/dev/null 2>&1 &\n\n$BB ip link set lo up 2>/dev/null\n# A bare udhcpc on an administratively down link never sends a single packet and\n# hangs forever, so the link comes up first, always.\nif ! $BB ip link set eth0 up 2>/dev/null; then\n  echo \"FIRECRAB_NETWORK_FAILED no-ipv4-address\" >/dev/console\n  exit 0\nfi\n\n$BB udhcpc -i eth0 -n -q -t 8 -T 2 -s ");
    reveal_strlit(" >/dev/console 2>&1\n\nipv4=\"\"\ntries=0\nwhile [ \"$tries\" -lt 15 ]; do\n  ipv4=$($BB ip -4 -o addr show eth0 2>/dev/null | $BB awk '{print $4; exit}' | $BB cut -d/ -f1)\n  [ -n \"$ipv4\" ] && break\n  tries=$((tries + 1))\n  $BB sleep 1\ndone\n\nif [ -z \"$ipv4\" ]; then\n  echo \"FIRECRAB_NETWORK_FAILED no-ipv4-address\" >/dev/console\n  exit 0\nfi\n\ndns_ok=0\ntries=0\nwhile [ \"$tries\" -lt 15 ]; do\n  if $BB nslookup example.com >/dev/null 2>&1; then\n    dns_ok=1\n    break\n  fi\n  tries=$((tries + 1))\n  $BB sleep 1\ndone\n\nif [ \"$dns_ok\" -ne 1 ]; then\n  echo \"FIRECRAB_NETWORK_FAILED dns-unreachable\" >/dev/console\n  exit 0\nfi\n\necho \"FIRECRAB_NETWORK_READY $ipv4\" >/dev/console\n\n");
    reveal_strlit("\n\n# Fallback only: glibc guests already received a pinned /usr/bin/fastfetch at\n# import. Alpine and other musl trees still try the guest package manager.\nif [ ! -x /usr/bin/fastfetch ]; then\n  if [ -x /usr/bin/apt-get ]; then\n    DEBIAN_FRONTEND=noninteractive /usr/bin/apt-get update -qq >/dev/null 2>&1\n    DEBIAN_FRONTEND=noninteractive /usr/bin/apt-get install -y -qq fastfetch >/dev/null 2>&1\n  elif [ -x /usr/bin/dnf ]; then\n    /usr/bin/dnf install -y -q fastfetch >/dev/null 2>&1\n  elif [ -x /sbin/apk ]; then\n    /sbin/apk add --no-cache fastfetch >/dev/null 2>&1\n  fi\nfi\n\n# A later import stage translates the image entrypoint into a program here.\n$BB mkdir -p /run/firecrab\nfor service in ");
    reveal_strlit("/*; do\n  [ -x \"$service\" ] || continue\n  name=${service##*/}\n  $BB setsid \"$service\" >/dev/console 2>&1 &\n  echo $! > /run/firecrab/$name.pid\n  [ \"$name\" = app ] && echo $! > /run/firecrab-app.pid\ndone\nexit 0\n");
    reveal_strlit("\n$BB setsid $BB sh ");
    reveal_strlit(" >/dev/null 2>&1 &");
    reveal_strlit("\n$BB udhcpc -i eth0 -n -q -t 8 -T 2 -s ");
    reveal_strlit("\nfor service in ");
    reveal_strlit("/*; do\n  [ -x \"$service\" ] || continue\n");
    assert(BOOT_3@.skip(BOOT_3@.len() - 19) =~= "\n$BB setsid $BB sh "@);
    assert(BOOT_4@.take(18) =~= " >/dev/null 2>&1 &"@);
    assert(BOOT_4@.skip(BOOT_4@.len() - 39) =~= "\n$BB udhcpc -i eth0 -n -q -t 8 -T 2 -s "@);
    assert(BOOT_6@.skip(BOOT_6@.len() - 16) =~= "\nfor service in "@);
    assert(BOOT_7@.take(39) =~= "/*; do\n  [ -x \"$service\" ] || continue\n"@);
}

/// The boot script of an injected guest starts the metrics agent that it is given, has the
/// DHCP client call the injected hook, and runs every executable in the directory of the
/// services.
pub proof fn the_boot_script_starts_what_is_injected(agent: Seq<char>)
    ensures
        contains(
            boot_text(agent),
            "\n$BB setsid $BB sh "@ + agent + " >/dev/null 2>&1 &"@,
        ),
        contains(
            boot_text(agent),
            "\n$BB udhcpc -i eth0 -n -q -t 8 -T 2 -s "@ + "/etc/firecrab/dhcp.script"@ + " "@,
        ),
        contains(
            boot_text(agent),
            "\nfor service in "@ + "/etc/firecrab/services.d"@
                + "/*; do\n  [ -x \"$service\" ] || continue\n"@,
        ),
{
    lines_end();
    reveal_strlit(" ");
    let text = boot_text(agent);
    let a = BOOT_1@ + GUEST_TOOLBOX@ + BOOT_2@ + GUEST_TOOLBOX@;
    let b = BOOT_5@ + BASE_PACKAGE_INSTALL@ + BOOT_6@ + GUEST_SERVICES@ + BOOT_7@;
    let agent_line = "\n$BB setsid $BB sh "@ + agent + " >/dev/null 2>&1 &"@;
    let before = a + BOOT_3@.take(BOOT_3@.len() - 19);
    let after = BOOT_4@.skip(18) + GUEST_DHCP_SCRIPT@ + b;
    assert(BOOT_3@ =~= BOOT_3@.take(BOOT_3@.len() - 19) + "\n$BB setsid $BB sh "@);
    assert(BOOT_4@ =~= " >/dev/null 2>&1 &"@ + BOOT_4@.skip(18));
    assert(text =~= before + agent_line + after);
    stands_between(text, before, agent_line, after);
    let dhcp_line = "\n$BB udhcpc -i eth0 -n -q -t 8 -T 2 -s "@ + "/etc/firecrab/dhcp.script"@
        + " "@;
    let before = a + BOOT_3@ + agent + BOOT_4@.take(BOOT_4@.len() - 39);
    let after = BOOT_5@.skip(1) + BASE_PACKAGE_INSTALL@ + BOOT_6@ + GUEST_SERVICES@ + BOOT_7@;
    assert(BOOT_4@ =~= BOOT_4@.take(BOOT_4@.len() - 39)
        + "\n$BB udhcpc -i eth0 -n -q -t 8 -T 2 -s "@);
    assert(BOOT_5@ =~= " "@ + BOOT_5@.skip(1));
    assert(text =~= before + dhcp_line + after);
    stands_between(text, before, dhcp_line, after);
    let loop_line = "\nfor service in "@ + "/etc/firecrab/services.d"@
        + "/*; do\n  [ -x \"$service\" ] || continue\n"@;
    let before = a + BOOT_3@ + agent + BOOT_4@ + GUEST_DHCP_SCRIPT@ + BOOT_5@
        + BASE_PACKAGE_INSTALL@ + BOOT_6@.take(BOOT_6@.len() - 16);
    let after = BOOT_7@.skip(39);
    assert(BOOT_6@ =~= BOOT_6@.take(BOOT_6@.len() - 16) + "\nfor service in "@);
    assert(BOOT_7@ =~= "/*; do\n  [ -x \"$service\" ] || continue\n"@ + BOOT_7@.skip(39));
    assert(text =~= before + loop_line + after);
    stands_between(text, before, loop_line, after);
}

/// The init of an injected guest runs the boot script once, under the toolbox, and keeps a
/// console: the getty of the image where it has one, which logs root in, and else the
/// injected console. It starts itself anew from `/sbin/init`.
#[verifier::rlimit(40)]
#[verifier::spinoff_prover]
pub proof fn the_job_table_runs_what_is_injected(agetty: Option<Seq<char>>)
    ensures
        contains(
            inittab_text(agetty),
            "\n::sysinit:/etc/firecrab/busybox sh /etc/firecrab/rc.boot\n"@,
        ),
        contains(inittab_text(agetty), "\n::restart:/sbin/init\n"@),
        agetty matches Some(getty) ==> contains(
            inittab_text(agetty),
            "\nttyS0::respawn:"@ + getty + " --autologin root "@,
        ),
        agetty is None ==> contains(
            inittab_text(agetty),
            "\n::respawn:-/etc/firecrab/busybox sh /etc/firecrab/rc.console\n"@,
        ),
{
    reveal_strlit("# Firecrab guest runtime for an imported OCI image (public-docs/oci.md).\n::sysinit:");
    reveal_strlit("# Firecrab guest runtime for an imported OCI image (public-docs/oci.md).");
    reveal_strlit("\n::sysinit:/etc/firecrab/busybox sh /etc/firecrab/rc.boot\n");
    reveal_strlit("/etc/firecrab/busybox");
    reveal_strlit("/etc/firecrab/rc.boot");
    reveal_strlit("/etc/firecrab/rc.console");
    reveal_strlit("/sbin/init");
    reveal_strlit(" sh ");
    reveal_strlit("\n");
    reveal_strlit("\n::ctrlaltdel:");
    reveal_strlit(" poweroff -f\n::shutdown:");
    reveal_strlit(" sync\n::restart:");
    reveal_strlit(" sync");
    reveal_strlit("\n::restart:/sbin/init\n");
    reveal_strlit("ttyS0::respawn:");
    reveal_strlit("\nttyS0::respawn:");
    reveal_strlit(" --autologin root ");
    reveal_strlit(" --autologin root --noclear --keep-baud 115200,57600,38400,9600 ttyS0 linux");
    reveal_strlit("--noclear --keep-baud 115200,57600,38400,9600 ttyS0 linux");
    reveal_strlit("::respawn:-");
    reveal_strlit("\n::respawn:-/etc/firecrab/busybox sh /etc/firecrab/rc.console\n");
    let text = inittab_text(agetty);
    let title = "# Firecrab guest runtime for an imported OCI image (public-docs/oci.md)."@;
    let console = match agetty {
        Some(getty) => "ttyS0::respawn:"@ + getty
            + " --autologin root --noclear --keep-baud 115200,57600,38400,9600 ttyS0 linux"@,
        None => "::respawn:-"@ + GUEST_TOOLBOX@ + " sh "@ + GUEST_CONSOLE_SCRIPT@,
    };
    let boot = "\n::sysinit:/etc/firecrab/busybox sh /etc/firecrab/rc.boot\n"@;
    let tail = "\n::ctrlaltdel:"@ + GUEST_TOOLBOX@ + " poweroff -f\n::shutdown:"@ + GUEST_TOOLBOX@
        + " sync\n::restart:"@ + GUEST_INIT@ + "\n"@;
    assert(title + "\n::sysinit:"@
        =~= "# Firecrab guest runtime for an imported OCI image (public-docs/oci.md).\n::sysinit:"@)
        by {
        reveal_strlit("\n::sysinit:");
    }
    assert(title + boot
        =~= "# Firecrab guest runtime for an imported OCI image (public-docs/oci.md).\n::sysinit:"@
        + GUEST_TOOLBOX@ + " sh "@ + GUEST_BOOT_SCRIPT@ + "\n"@);
    assert(text =~= title + boot + (console + tail));
    stands_between(text, title, boot, console + tail);
    let again = "\n::restart:/sbin/init\n"@;
    let front = title + boot + console + "\n::ctrlaltdel:"@ + GUEST_TOOLBOX@
        + " poweroff -f\n::shutdown:"@ + GUEST_TOOLBOX@ + " sync"@;
    assert(" sync\n::restart:"@ + GUEST_INIT@ + "\n"@ =~= " sync"@ + again);
    assert(text =~= front + again + Seq::<char>::empty());
    stands_between(text, front, again, Seq::empty());
    let head = title + boot.take(boot.len() - 1);
    assert(boot =~= boot.take(boot.len() - 1) + "\n"@);
    match agetty {
        Some(getty) => {
            let line = "\nttyS0::respawn:"@ + getty + " --autologin root "@;
            let rest = "--noclear --keep-baud 115200,57600,38400,9600 ttyS0 linux"@ + tail;
            assert("\n"@ + "ttyS0::respawn:"@ =~= "\nttyS0::respawn:"@);
            assert(" --autologin root "@
                + "--noclear --keep-baud 115200,57600,38400,9600 ttyS0 linux"@
                =~= " --autologin root --noclear --keep-baud 115200,57600,38400,9600 ttyS0 linux"@);
            assert(text =~= head + line + rest);
            stands_between(text, head, line, rest);
        },
        None => {
            let line = "\n::respawn:-/etc/firecrab/busybox sh /etc/firecrab/rc.console\n"@;
            let rest = tail.skip(1);
            assert(tail =~= "\n"@ + rest);
            assert("\n"@ + console + "\n"@ =~= line);
            assert(text =~= head + line + rest);
            stands_between(text, head, line, rest);
        },
    }
}

} // verus!
