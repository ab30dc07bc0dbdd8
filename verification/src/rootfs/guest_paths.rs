//! The paths of the guest that are written: each is one word, and they differ.

use vstd::prelude::*;

#[allow(unused_imports)]
use crate::templates::laws::one_word;
#[allow(unused_imports)]
use crate::text::is_space;

verus! {

/// Whether a number is one of the first, one by one.
spec fn counted(i: int) -> bool {
    i == 0 || i == 1 || i == 2 || i == 3 || i == 4 || i == 5 || i == 6 || i == 7 || i == 8
        || i == 9 || i == 10 || i == 11 || i == 12 || i == 13 || i == 14 || i == 15 || i == 16
        || i == 17 || i == 18 || i == 19 || i == 20 || i == 21 || i == 22 || i == 23 || i == 24
        || i == 25 || i == 26 || i == 27 || i == 28 || i == 29 || i == 30 || i == 31 || i == 32
        || i == 33 || i == 34 || i == 35 || i == 36 || i == 37 || i == 38 || i == 39 || i == 40
        || i == 41 || i == 42 || i == 43 || i == 44 || i == 45 || i == 46 || i == 47 || i == 48
        || i == 49 || i == 50 || i == 51 || i == 52 || i == 53 || i == 54 || i == 55 || i == 56
        || i == 57 || i == 58 || i == 59 || i == 60 || i == 61 || i == 62 || i == 63 || i == 64
        || i == 65 || i == 66 || i == 67 || i == 68 || i == 69 || i == 70 || i == 71 || i == 72
        || i == 73
}

proof fn one_by_one(i: int)
    requires
        0 <= i < 74,
    ensures
        counted(i),
{
}

/// The paths of the guest that are written are one word each.
pub(crate) proof fn paths_are_words()
    ensures
        one_word("/usr/local/sbin/firecrab-network-ready.sh"@),
        one_word("/etc/init.d/firecrab-network-ready"@),
        one_word("/etc/systemd/system/firecrab-network-ready.service"@),
        one_word("/etc/systemd/system/multi-user.target.wants/firecrab-network-ready.service"@),
        one_word("/etc/runlevels/default/firecrab-network-ready"@),
        one_word("/usr/local/sbin"@),
        one_word("/etc/firecrab/services.d/app"@),
        one_word("/etc/hostname"@),
        one_word("/etc/motd"@),
        one_word("/etc/profile.d/firecrab-welcome.sh"@),
        one_word("/etc/profile.d/firecrab-locale.sh"@),
        one_word("/etc/default/locale"@),
        one_word("/etc/locale.conf"@),
        one_word("/etc/inittab"@),
        one_word("/etc/firecrab/rc.boot"@),
        one_word("/etc/firecrab/rc.console"@),
        one_word("/etc/passwd"@),
        one_word("/etc/sysctl.d/99-firecrab-ipv6.conf"@),
        one_word("/usr/local/bin/systemctl"@),
        one_word("/bin/systemctl"@),
        one_word("/usr/bin/systemctl"@),
        one_word("/etc/profile.d"@),
        one_word("/etc/default"@),
        one_word("/etc/firecrab"@),
        one_word("/etc/sysctl.d"@),
        one_word("/bin"@),
        one_word("/etc/firecrab/busybox"@),
        one_word("/etc/ssh/ssh_host_rsa_key"@),
        one_word("/etc/ssh/ssh_host_rsa_key.pub"@),
        one_word("/etc/ssh/ssh_host_ecdsa_key"@),
        one_word("/etc/ssh/ssh_host_ecdsa_key.pub"@),
        one_word("/etc/ssh/ssh_host_ed25519_key"@),
        one_word("/etc/ssh/ssh_host_ed25519_key.pub"@),
        one_word("/var/lib/systemd/random-seed"@),
        one_word("/var/lib/urandom/random-seed"@),
        one_word("/var/lib/dhcp/dhclient.leases"@),
        one_word("/var/lib/dhcpcd/dhcpcd-eth0.lease"@),
{
    word_0();
    word_1();
    word_2();
    word_3();
    word_4();
    word_5();
    word_6();
    word_7();
    word_8();
    word_9();
    word_10();
    word_11();
    word_12();
    word_13();
    word_14();
    word_15();
    word_16();
    word_17();
    word_18();
    word_19();
    word_20();
    word_21();
    word_22();
    word_23();
    word_24();
    word_25();
    word_26();
    word_27();
    word_28();
    word_29();
    word_30();
    word_31();
    word_32();
    word_33();
    word_34();
    word_35();
    word_36();
}

proof fn word_0()
    ensures
        one_word("/usr/local/sbin/firecrab-network-ready.sh"@),
        "/usr/local/sbin/firecrab-network-ready.sh"@.len() == 41,
{
    reveal_strlit("/usr/local/sbin/firecrab-network-ready.sh");
    let path = "/usr/local/sbin/firecrab-network-ready.sh"@;
    assert forall|i: int| 0 <= i < path.len() implies !is_space(#[trigger] path[i]) by {
        one_by_one(i);
    }
}

proof fn word_1()
    ensures
        one_word("/etc/init.d/firecrab-network-ready"@),
        "/etc/init.d/firecrab-network-ready"@.len() == 34,
{
    reveal_strlit("/etc/init.d/firecrab-network-ready");
    let path = "/etc/init.d/firecrab-network-ready"@;
    assert forall|i: int| 0 <= i < path.len() implies !is_space(#[trigger] path[i]) by {
        one_by_one(i);
    }
}

proof fn word_2()
    ensures
        one_word("/etc/systemd/system/firecrab-network-ready.service"@),
        "/etc/systemd/system/firecrab-network-ready.service"@.len() == 50,
{
    reveal_strlit("/etc/systemd/system/firecrab-network-ready.service");
    let path = "/etc/systemd/system/firecrab-network-ready.service"@;
    assert forall|i: int| 0 <= i < path.len() implies !is_space(#[trigger] path[i]) by {
        one_by_one(i);
    }
}

proof fn word_3()
    ensures
        one_word("/etc/systemd/system/multi-user.target.wants/firecrab-network-ready.service"@),
        "/etc/systemd/system/multi-user.target.wants/firecrab-network-ready.service"@.len() == 74,
{
    reveal_strlit("/etc/systemd/system/multi-user.target.wants/firecrab-network-ready.service");
    let path = "/etc/systemd/system/multi-user.target.wants/firecrab-network-ready.service"@;
    assert forall|i: int| 0 <= i < path.len() implies !is_space(#[trigger] path[i]) by {
        one_by_one(i);
    }
}

proof fn word_4()
    ensures
        one_word("/etc/runlevels/default/firecrab-network-ready"@),
        "/etc/runlevels/default/firecrab-network-ready"@.len() == 45,
{
    reveal_strlit("/etc/runlevels/default/firecrab-network-ready");
    let path = "/etc/runlevels/default/firecrab-network-ready"@;
    assert forall|i: int| 0 <= i < path.len() implies !is_space(#[trigger] path[i]) by {
        one_by_one(i);
    }
}

proof fn word_5()
    ensures
        one_word("/usr/local/sbin"@),
        "/usr/local/sbin"@.len() == 15,
{
    reveal_strlit("/usr/local/sbin");
    let path = "/usr/local/sbin"@;
    assert forall|i: int| 0 <= i < path.len() implies !is_space(#[trigger] path[i]) by {
        one_by_one(i);
    }
}

proof fn word_6()
    ensures
        one_word("/etc/firecrab/services.d/app"@),
        "/etc/firecrab/services.d/app"@.len() == 28,
{
    reveal_strlit("/etc/firecrab/services.d/app");
    let path = "/etc/firecrab/services.d/app"@;
    assert forall|i: int| 0 <= i < path.len() implies !is_space(#[trigger] path[i]) by {
        one_by_one(i);
    }
}

proof fn word_7()
    ensures
        one_word("/etc/hostname"@),
        "/etc/hostname"@.len() == 13,
{
    reveal_strlit("/etc/hostname");
    let path = "/etc/hostname"@;
    assert forall|i: int| 0 <= i < path.len() implies !is_space(#[trigger] path[i]) by {
        one_by_one(i);
    }
}

proof fn word_8()
    ensures
        one_word("/etc/motd"@),
        "/etc/motd"@.len() == 9,
{
    reveal_strlit("/etc/motd");
    let path = "/etc/motd"@;
    assert forall|i: int| 0 <= i < path.len() implies !is_space(#[trigger] path[i]) by {
        one_by_one(i);
    }
}

proof fn word_9()
    ensures
        one_word("/etc/profile.d/firecrab-welcome.sh"@),
        "/etc/profile.d/firecrab-welcome.sh"@.len() == 34,
{
    reveal_strlit("/etc/profile.d/firecrab-welcome.sh");
    let path = "/etc/profile.d/firecrab-welcome.sh"@;
    assert forall|i: int| 0 <= i < path.len() implies !is_space(#[trigger] path[i]) by {
        one_by_one(i);
    }
}

proof fn word_10()
    ensures
        one_word("/etc/profile.d/firecrab-locale.sh"@),
        "/etc/profile.d/firecrab-locale.sh"@.len() == 33,
{
    reveal_strlit("/etc/profile.d/firecrab-locale.sh");
    let path = "/etc/profile.d/firecrab-locale.sh"@;
    assert forall|i: int| 0 <= i < path.len() implies !is_space(#[trigger] path[i]) by {
        one_by_one(i);
    }
}

proof fn word_11()
    ensures
        one_word("/etc/default/locale"@),
        "/etc/default/locale"@.len() == 19,
{
    reveal_strlit("/etc/default/locale");
    let path = "/etc/default/locale"@;
    assert forall|i: int| 0 <= i < path.len() implies !is_space(#[trigger] path[i]) by {
        one_by_one(i);
    }
}

proof fn word_12()
    ensures
        one_word("/etc/locale.conf"@),
        "/etc/locale.conf"@.len() == 16,
{
    reveal_strlit("/etc/locale.conf");
    let path = "/etc/locale.conf"@;
    assert forall|i: int| 0 <= i < path.len() implies !is_space(#[trigger] path[i]) by {
        one_by_one(i);
    }
}

proof fn word_13()
    ensures
        one_word("/etc/inittab"@),
        "/etc/inittab"@.len() == 12,
{
    reveal_strlit("/etc/inittab");
    let path = "/etc/inittab"@;
    assert forall|i: int| 0 <= i < path.len() implies !is_space(#[trigger] path[i]) by {
        one_by_one(i);
    }
}

proof fn word_14()
    ensures
        one_word("/etc/firecrab/rc.boot"@),
        "/etc/firecrab/rc.boot"@.len() == 21,
{
    reveal_strlit("/etc/firecrab/rc.boot");
    let path = "/etc/firecrab/rc.boot"@;
    assert forall|i: int| 0 <= i < path.len() implies !is_space(#[trigger] path[i]) by {
        one_by_one(i);
    }
}

proof fn word_15()
    ensures
        one_word("/etc/firecrab/rc.console"@),
        "/etc/firecrab/rc.console"@.len() == 24,
{
    reveal_strlit("/etc/firecrab/rc.console");
    let path = "/etc/firecrab/rc.console"@;
    assert forall|i: int| 0 <= i < path.len() implies !is_space(#[trigger] path[i]) by {
        one_by_one(i);
    }
}

proof fn word_16()
    ensures
        one_word("/etc/passwd"@),
        "/etc/passwd"@.len() == 11,
{
    reveal_strlit("/etc/passwd");
    let path = "/etc/passwd"@;
    assert forall|i: int| 0 <= i < path.len() implies !is_space(#[trigger] path[i]) by {
        one_by_one(i);
    }
}

proof fn word_17()
    ensures
        one_word("/etc/sysctl.d/99-firecrab-ipv6.conf"@),
        "/etc/sysctl.d/99-firecrab-ipv6.conf"@.len() == 35,
{
    reveal_strlit("/etc/sysctl.d/99-firecrab-ipv6.conf");
    let path = "/etc/sysctl.d/99-firecrab-ipv6.conf"@;
    assert forall|i: int| 0 <= i < path.len() implies !is_space(#[trigger] path[i]) by {
        one_by_one(i);
    }
}

proof fn word_18()
    ensures
        one_word("/usr/local/bin/systemctl"@),
        "/usr/local/bin/systemctl"@.len() == 24,
{
    reveal_strlit("/usr/local/bin/systemctl");
    let path = "/usr/local/bin/systemctl"@;
    assert forall|i: int| 0 <= i < path.len() implies !is_space(#[trigger] path[i]) by {
        one_by_one(i);
    }
}

proof fn word_19()
    ensures
        one_word("/bin/systemctl"@),
        "/bin/systemctl"@.len() == 14,
{
    reveal_strlit("/bin/systemctl");
    let path = "/bin/systemctl"@;
    assert forall|i: int| 0 <= i < path.len() implies !is_space(#[trigger] path[i]) by {
        one_by_one(i);
    }
}

proof fn word_20()
    ensures
        one_word("/usr/bin/systemctl"@),
        "/usr/bin/systemctl"@.len() == 18,
{
    reveal_strlit("/usr/bin/systemctl");
    let path = "/usr/bin/systemctl"@;
    assert forall|i: int| 0 <= i < path.len() implies !is_space(#[trigger] path[i]) by {
        one_by_one(i);
    }
}

proof fn word_21()
    ensures
        one_word("/etc/profile.d"@),
        "/etc/profile.d"@.len() == 14,
{
    reveal_strlit("/etc/profile.d");
    let path = "/etc/profile.d"@;
    assert forall|i: int| 0 <= i < path.len() implies !is_space(#[trigger] path[i]) by {
        one_by_one(i);
    }
}

proof fn word_22()
    ensures
        one_word("/etc/default"@),
        "/etc/default"@.len() == 12,
{
    reveal_strlit("/etc/default");
    let path = "/etc/default"@;
    assert forall|i: int| 0 <= i < path.len() implies !is_space(#[trigger] path[i]) by {
        one_by_one(i);
    }
}

proof fn word_23()
    ensures
        one_word("/etc/firecrab"@),
        "/etc/firecrab"@.len() == 13,
{
    reveal_strlit("/etc/firecrab");
    let path = "/etc/firecrab"@;
    assert forall|i: int| 0 <= i < path.len() implies !is_space(#[trigger] path[i]) by {
        one_by_one(i);
    }
}

proof fn word_24()
    ensures
        one_word("/etc/sysctl.d"@),
        "/etc/sysctl.d"@.len() == 13,
{
    reveal_strlit("/etc/sysctl.d");
    let path = "/etc/sysctl.d"@;
    assert forall|i: int| 0 <= i < path.len() implies !is_space(#[trigger] path[i]) by {
        one_by_one(i);
    }
}

proof fn word_25()
    ensures
        one_word("/bin"@),
        "/bin"@.len() == 4,
{
    reveal_strlit("/bin");
    let path = "/bin"@;
    assert forall|i: int| 0 <= i < path.len() implies !is_space(#[trigger] path[i]) by {
        one_by_one(i);
    }
}

proof fn word_26()
    ensures
        one_word("/etc/firecrab/busybox"@),
        "/etc/firecrab/busybox"@.len() == 21,
{
    reveal_strlit("/etc/firecrab/busybox");
    let path = "/etc/firecrab/busybox"@;
    assert forall|i: int| 0 <= i < path.len() implies !is_space(#[trigger] path[i]) by {
        one_by_one(i);
    }
}

proof fn word_27()
    ensures
        one_word("/etc/ssh/ssh_host_rsa_key"@),
        "/etc/ssh/ssh_host_rsa_key"@.len() == 25,
{
    reveal_strlit("/etc/ssh/ssh_host_rsa_key");
    let path = "/etc/ssh/ssh_host_rsa_key"@;
    assert forall|i: int| 0 <= i < path.len() implies !is_space(#[trigger] path[i]) by {
        one_by_one(i);
    }
}

proof fn word_28()
    ensures
        one_word("/etc/ssh/ssh_host_rsa_key.pub"@),
        "/etc/ssh/ssh_host_rsa_key.pub"@.len() == 29,
{
    reveal_strlit("/etc/ssh/ssh_host_rsa_key.pub");
    let path = "/etc/ssh/ssh_host_rsa_key.pub"@;
    assert forall|i: int| 0 <= i < path.len() implies !is_space(#[trigger] path[i]) by {
        one_by_one(i);
    }
}

proof fn word_29()
    ensures
        one_word("/etc/ssh/ssh_host_ecdsa_key"@),
        "/etc/ssh/ssh_host_ecdsa_key"@.len() == 27,
{
    reveal_strlit("/etc/ssh/ssh_host_ecdsa_key");
    let path = "/etc/ssh/ssh_host_ecdsa_key"@;
    assert forall|i: int| 0 <= i < path.len() implies !is_space(#[trigger] path[i]) by {
        one_by_one(i);
    }
}

proof fn word_30()
    ensures
        one_word("/etc/ssh/ssh_host_ecdsa_key.pub"@),
        "/etc/ssh/ssh_host_ecdsa_key.pub"@.len() == 31,
{
    reveal_strlit("/etc/ssh/ssh_host_ecdsa_key.pub");
    let path = "/etc/ssh/ssh_host_ecdsa_key.pub"@;
    assert forall|i: int| 0 <= i < path.len() implies !is_space(#[trigger] path[i]) by {
        one_by_one(i);
    }
}

proof fn word_31()
    ensures
        one_word("/etc/ssh/ssh_host_ed25519_key"@),
        "/etc/ssh/ssh_host_ed25519_key"@.len() == 29,
{
    reveal_strlit("/etc/ssh/ssh_host_ed25519_key");
    let path = "/etc/ssh/ssh_host_ed25519_key"@;
    assert forall|i: int| 0 <= i < path.len() implies !is_space(#[trigger] path[i]) by {
        one_by_one(i);
    }
}

proof fn word_32()
    ensures
        one_word("/etc/ssh/ssh_host_ed25519_key.pub"@),
        "/etc/ssh/ssh_host_ed25519_key.pub"@.len() == 33,
{
    reveal_strlit("/etc/ssh/ssh_host_ed25519_key.pub");
    let path = "/etc/ssh/ssh_host_ed25519_key.pub"@;
    assert forall|i: int| 0 <= i < path.len() implies !is_space(#[trigger] path[i]) by {
        one_by_one(i);
    }
}

proof fn word_33()
    ensures
        one_word("/var/lib/systemd/random-seed"@),
        "/var/lib/systemd/random-seed"@.len() == 28,
{
    reveal_strlit("/var/lib/systemd/random-seed");
    let path = "/var/lib/systemd/random-seed"@;
    assert forall|i: int| 0 <= i < path.len() implies !is_space(#[trigger] path[i]) by {
        one_by_one(i);
    }
}

proof fn word_34()
    ensures
        one_word("/var/lib/urandom/random-seed"@),
        "/var/lib/urandom/random-seed"@.len() == 28,
{
    reveal_strlit("/var/lib/urandom/random-seed");
    let path = "/var/lib/urandom/random-seed"@;
    assert forall|i: int| 0 <= i < path.len() implies !is_space(#[trigger] path[i]) by {
        one_by_one(i);
    }
}

proof fn word_35()
    ensures
        one_word("/var/lib/dhcp/dhclient.leases"@),
        "/var/lib/dhcp/dhclient.leases"@.len() == 29,
{
    reveal_strlit("/var/lib/dhcp/dhclient.leases");
    let path = "/var/lib/dhcp/dhclient.leases"@;
    assert forall|i: int| 0 <= i < path.len() implies !is_space(#[trigger] path[i]) by {
        one_by_one(i);
    }
}

proof fn word_36()
    ensures
        one_word("/var/lib/dhcpcd/dhcpcd-eth0.lease"@),
        "/var/lib/dhcpcd/dhcpcd-eth0.lease"@.len() == 33,
{
    reveal_strlit("/var/lib/dhcpcd/dhcpcd-eth0.lease");
    let path = "/var/lib/dhcpcd/dhcpcd-eth0.lease"@;
    assert forall|i: int| 0 <= i < path.len() implies !is_space(#[trigger] path[i]) by {
        one_by_one(i);
    }
}

pub(crate) proof fn the_service_is_apart()
    ensures
        "/etc/firecrab/services.d/app"@ != "/usr/local/sbin/firecrab-network-ready.sh"@,
        "/etc/firecrab/services.d/app"@ != "/etc/init.d/firecrab-network-ready"@,
        "/etc/firecrab/services.d/app"@ != "/etc/systemd/system/firecrab-network-ready.service"@,
        "/etc/firecrab/services.d/app"@ != "/etc/systemd/system/multi-user.target.wants/firecrab-network-ready.service"@,
        "/etc/firecrab/services.d/app"@ != "/etc/runlevels/default/firecrab-network-ready"@,
        "/etc/firecrab/services.d/app"@ != "/usr/local/sbin"@,
        "/etc/firecrab/services.d/app"@ != "/etc/ssh/ssh_host_rsa_key"@,
        "/etc/firecrab/services.d/app"@ != "/etc/ssh/ssh_host_rsa_key.pub"@,
        "/etc/firecrab/services.d/app"@ != "/etc/ssh/ssh_host_ecdsa_key"@,
        "/etc/firecrab/services.d/app"@ != "/etc/ssh/ssh_host_ecdsa_key.pub"@,
        "/etc/firecrab/services.d/app"@ != "/etc/ssh/ssh_host_ed25519_key"@,
        "/etc/firecrab/services.d/app"@ != "/etc/ssh/ssh_host_ed25519_key.pub"@,
        "/etc/firecrab/services.d/app"@ != "/var/lib/systemd/random-seed"@,
        "/etc/firecrab/services.d/app"@ != "/var/lib/urandom/random-seed"@,
        "/etc/firecrab/services.d/app"@ != "/var/lib/dhcp/dhclient.leases"@,
        "/etc/firecrab/services.d/app"@ != "/var/lib/dhcpcd/dhcpcd-eth0.lease"@,
{
    reveal_strlit("/etc/firecrab/services.d/app");
    reveal_strlit("/usr/local/sbin/firecrab-network-ready.sh");
    assert("/etc/firecrab/services.d/app"@.len() != "/usr/local/sbin/firecrab-network-ready.sh"@.len());
    reveal_strlit("/etc/init.d/firecrab-network-ready");
    assert("/etc/firecrab/services.d/app"@.len() != "/etc/init.d/firecrab-network-ready"@.len());
    reveal_strlit("/etc/systemd/system/firecrab-network-ready.service");
    assert("/etc/firecrab/services.d/app"@.len() != "/etc/systemd/system/firecrab-network-ready.service"@.len());
    reveal_strlit("/etc/systemd/system/multi-user.target.wants/firecrab-network-ready.service");
    assert("/etc/firecrab/services.d/app"@.len() != "/etc/systemd/system/multi-user.target.wants/firecrab-network-ready.service"@.len());
    reveal_strlit("/etc/runlevels/default/firecrab-network-ready");
    assert("/etc/firecrab/services.d/app"@.len() != "/etc/runlevels/default/firecrab-network-ready"@.len());
    reveal_strlit("/usr/local/sbin");
    assert("/etc/firecrab/services.d/app"@.len() != "/usr/local/sbin"@.len());
    reveal_strlit("/etc/ssh/ssh_host_rsa_key");
    assert("/etc/firecrab/services.d/app"@.len() != "/etc/ssh/ssh_host_rsa_key"@.len());
    reveal_strlit("/etc/ssh/ssh_host_rsa_key.pub");
    assert("/etc/firecrab/services.d/app"@.len() != "/etc/ssh/ssh_host_rsa_key.pub"@.len());
    reveal_strlit("/etc/ssh/ssh_host_ecdsa_key");
    assert("/etc/firecrab/services.d/app"@.len() != "/etc/ssh/ssh_host_ecdsa_key"@.len());
    reveal_strlit("/etc/ssh/ssh_host_ecdsa_key.pub");
    assert("/etc/firecrab/services.d/app"@.len() != "/etc/ssh/ssh_host_ecdsa_key.pub"@.len());
    reveal_strlit("/etc/ssh/ssh_host_ed25519_key");
    assert("/etc/firecrab/services.d/app"@.len() != "/etc/ssh/ssh_host_ed25519_key"@.len());
    reveal_strlit("/etc/ssh/ssh_host_ed25519_key.pub");
    assert("/etc/firecrab/services.d/app"@.len() != "/etc/ssh/ssh_host_ed25519_key.pub"@.len());
    reveal_strlit("/var/lib/systemd/random-seed");
    assert("/etc/firecrab/services.d/app"@[1] != "/var/lib/systemd/random-seed"@[1]);
    reveal_strlit("/var/lib/urandom/random-seed");
    assert("/etc/firecrab/services.d/app"@[1] != "/var/lib/urandom/random-seed"@[1]);
    reveal_strlit("/var/lib/dhcp/dhclient.leases");
    assert("/etc/firecrab/services.d/app"@.len() != "/var/lib/dhcp/dhclient.leases"@.len());
    reveal_strlit("/var/lib/dhcpcd/dhcpcd-eth0.lease");
    assert("/etc/firecrab/services.d/app"@.len() != "/var/lib/dhcpcd/dhcpcd-eth0.lease"@.len());
}

pub(crate) proof fn secret_0_is_apart()
    ensures
        "/etc/ssh/ssh_host_rsa_key"@ != "/usr/local/sbin/firecrab-network-ready.sh"@,
        "/etc/ssh/ssh_host_rsa_key"@ != "/etc/init.d/firecrab-network-ready"@,
        "/etc/ssh/ssh_host_rsa_key"@ != "/etc/systemd/system/firecrab-network-ready.service"@,
        "/etc/ssh/ssh_host_rsa_key"@ != "/etc/systemd/system/multi-user.target.wants/firecrab-network-ready.service"@,
        "/etc/ssh/ssh_host_rsa_key"@ != "/etc/runlevels/default/firecrab-network-ready"@,
        "/etc/ssh/ssh_host_rsa_key"@ != "/usr/local/sbin"@,
{
    reveal_strlit("/etc/ssh/ssh_host_rsa_key");
    reveal_strlit("/usr/local/sbin/firecrab-network-ready.sh");
    assert("/etc/ssh/ssh_host_rsa_key"@.len() != "/usr/local/sbin/firecrab-network-ready.sh"@.len());
    reveal_strlit("/etc/init.d/firecrab-network-ready");
    assert("/etc/ssh/ssh_host_rsa_key"@.len() != "/etc/init.d/firecrab-network-ready"@.len());
    reveal_strlit("/etc/systemd/system/firecrab-network-ready.service");
    assert("/etc/ssh/ssh_host_rsa_key"@.len() != "/etc/systemd/system/firecrab-network-ready.service"@.len());
    reveal_strlit("/etc/systemd/system/multi-user.target.wants/firecrab-network-ready.service");
    assert("/etc/ssh/ssh_host_rsa_key"@.len() != "/etc/systemd/system/multi-user.target.wants/firecrab-network-ready.service"@.len());
    reveal_strlit("/etc/runlevels/default/firecrab-network-ready");
    assert("/etc/ssh/ssh_host_rsa_key"@.len() != "/etc/runlevels/default/firecrab-network-ready"@.len());
    reveal_strlit("/usr/local/sbin");
    assert("/etc/ssh/ssh_host_rsa_key"@.len() != "/usr/local/sbin"@.len());
}

pub(crate) proof fn secret_1_is_apart()
    ensures
        "/etc/ssh/ssh_host_rsa_key.pub"@ != "/usr/local/sbin/firecrab-network-ready.sh"@,
        "/etc/ssh/ssh_host_rsa_key.pub"@ != "/etc/init.d/firecrab-network-ready"@,
        "/etc/ssh/ssh_host_rsa_key.pub"@ != "/etc/systemd/system/firecrab-network-ready.service"@,
        "/etc/ssh/ssh_host_rsa_key.pub"@ != "/etc/systemd/system/multi-user.target.wants/firecrab-network-ready.service"@,
        "/etc/ssh/ssh_host_rsa_key.pub"@ != "/etc/runlevels/default/firecrab-network-ready"@,
        "/etc/ssh/ssh_host_rsa_key.pub"@ != "/usr/local/sbin"@,
{
    reveal_strlit("/etc/ssh/ssh_host_rsa_key.pub");
    reveal_strlit("/usr/local/sbin/firecrab-network-ready.sh");
    assert("/etc/ssh/ssh_host_rsa_key.pub"@.len() != "/usr/local/sbin/firecrab-network-ready.sh"@.len());
    reveal_strlit("/etc/init.d/firecrab-network-ready");
    assert("/etc/ssh/ssh_host_rsa_key.pub"@.len() != "/etc/init.d/firecrab-network-ready"@.len());
    reveal_strlit("/etc/systemd/system/firecrab-network-ready.service");
    assert("/etc/ssh/ssh_host_rsa_key.pub"@.len() != "/etc/systemd/system/firecrab-network-ready.service"@.len());
    reveal_strlit("/etc/systemd/system/multi-user.target.wants/firecrab-network-ready.service");
    assert("/etc/ssh/ssh_host_rsa_key.pub"@.len() != "/etc/systemd/system/multi-user.target.wants/firecrab-network-ready.service"@.len());
    reveal_strlit("/etc/runlevels/default/firecrab-network-ready");
    assert("/etc/ssh/ssh_host_rsa_key.pub"@.len() != "/etc/runlevels/default/firecrab-network-ready"@.len());
    reveal_strlit("/usr/local/sbin");
    assert("/etc/ssh/ssh_host_rsa_key.pub"@.len() != "/usr/local/sbin"@.len());
}

pub(crate) proof fn secret_2_is_apart()
    ensures
        "/etc/ssh/ssh_host_ecdsa_key"@ != "/usr/local/sbin/firecrab-network-ready.sh"@,
        "/etc/ssh/ssh_host_ecdsa_key"@ != "/etc/init.d/firecrab-network-ready"@,
        "/etc/ssh/ssh_host_ecdsa_key"@ != "/etc/systemd/system/firecrab-network-ready.service"@,
        "/etc/ssh/ssh_host_ecdsa_key"@ != "/etc/systemd/system/multi-user.target.wants/firecrab-network-ready.service"@,
        "/etc/ssh/ssh_host_ecdsa_key"@ != "/etc/runlevels/default/firecrab-network-ready"@,
        "/etc/ssh/ssh_host_ecdsa_key"@ != "/usr/local/sbin"@,
{
    reveal_strlit("/etc/ssh/ssh_host_ecdsa_key");
    reveal_strlit("/usr/local/sbin/firecrab-network-ready.sh");
    assert("/etc/ssh/ssh_host_ecdsa_key"@.len() != "/usr/local/sbin/firecrab-network-ready.sh"@.len());
    reveal_strlit("/etc/init.d/firecrab-network-ready");
    assert("/etc/ssh/ssh_host_ecdsa_key"@.len() != "/etc/init.d/firecrab-network-ready"@.len());
    reveal_strlit("/etc/systemd/system/firecrab-network-ready.service");
    assert("/etc/ssh/ssh_host_ecdsa_key"@.len() != "/etc/systemd/system/firecrab-network-ready.service"@.len());
    reveal_strlit("/etc/systemd/system/multi-user.target.wants/firecrab-network-ready.service");
    assert("/etc/ssh/ssh_host_ecdsa_key"@.len() != "/etc/systemd/system/multi-user.target.wants/firecrab-network-ready.service"@.len());
    reveal_strlit("/etc/runlevels/default/firecrab-network-ready");
    assert("/etc/ssh/ssh_host_ecdsa_key"@.len() != "/etc/runlevels/default/firecrab-network-ready"@.len());
    reveal_strlit("/usr/local/sbin");
    assert("/etc/ssh/ssh_host_ecdsa_key"@.len() != "/usr/local/sbin"@.len());
}

pub(crate) proof fn secret_3_is_apart()
    ensures
        "/etc/ssh/ssh_host_ecdsa_key.pub"@ != "/usr/local/sbin/firecrab-network-ready.sh"@,
        "/etc/ssh/ssh_host_ecdsa_key.pub"@ != "/etc/init.d/firecrab-network-ready"@,
        "/etc/ssh/ssh_host_ecdsa_key.pub"@ != "/etc/systemd/system/firecrab-network-ready.service"@,
        "/etc/ssh/ssh_host_ecdsa_key.pub"@ != "/etc/systemd/system/multi-user.target.wants/firecrab-network-ready.service"@,
        "/etc/ssh/ssh_host_ecdsa_key.pub"@ != "/etc/runlevels/default/firecrab-network-ready"@,
        "/etc/ssh/ssh_host_ecdsa_key.pub"@ != "/usr/local/sbin"@,
{
    reveal_strlit("/etc/ssh/ssh_host_ecdsa_key.pub");
    reveal_strlit("/usr/local/sbin/firecrab-network-ready.sh");
    assert("/etc/ssh/ssh_host_ecdsa_key.pub"@.len() != "/usr/local/sbin/firecrab-network-ready.sh"@.len());
    reveal_strlit("/etc/init.d/firecrab-network-ready");
    assert("/etc/ssh/ssh_host_ecdsa_key.pub"@.len() != "/etc/init.d/firecrab-network-ready"@.len());
    reveal_strlit("/etc/systemd/system/firecrab-network-ready.service");
    assert("/etc/ssh/ssh_host_ecdsa_key.pub"@.len() != "/etc/systemd/system/firecrab-network-ready.service"@.len());
    reveal_strlit("/etc/systemd/system/multi-user.target.wants/firecrab-network-ready.service");
    assert("/etc/ssh/ssh_host_ecdsa_key.pub"@.len() != "/etc/systemd/system/multi-user.target.wants/firecrab-network-ready.service"@.len());
    reveal_strlit("/etc/runlevels/default/firecrab-network-ready");
    assert("/etc/ssh/ssh_host_ecdsa_key.pub"@.len() != "/etc/runlevels/default/firecrab-network-ready"@.len());
    reveal_strlit("/usr/local/sbin");
    assert("/etc/ssh/ssh_host_ecdsa_key.pub"@.len() != "/usr/local/sbin"@.len());
}

pub(crate) proof fn secret_4_is_apart()
    ensures
        "/etc/ssh/ssh_host_ed25519_key"@ != "/usr/local/sbin/firecrab-network-ready.sh"@,
        "/etc/ssh/ssh_host_ed25519_key"@ != "/etc/init.d/firecrab-network-ready"@,
        "/etc/ssh/ssh_host_ed25519_key"@ != "/etc/systemd/system/firecrab-network-ready.service"@,
        "/etc/ssh/ssh_host_ed25519_key"@ != "/etc/systemd/system/multi-user.target.wants/firecrab-network-ready.service"@,
        "/etc/ssh/ssh_host_ed25519_key"@ != "/etc/runlevels/default/firecrab-network-ready"@,
        "/etc/ssh/ssh_host_ed25519_key"@ != "/usr/local/sbin"@,
{
    reveal_strlit("/etc/ssh/ssh_host_ed25519_key");
    reveal_strlit("/usr/local/sbin/firecrab-network-ready.sh");
    assert("/etc/ssh/ssh_host_ed25519_key"@.len() != "/usr/local/sbin/firecrab-network-ready.sh"@.len());
    reveal_strlit("/etc/init.d/firecrab-network-ready");
    assert("/etc/ssh/ssh_host_ed25519_key"@.len() != "/etc/init.d/firecrab-network-ready"@.len());
    reveal_strlit("/etc/systemd/system/firecrab-network-ready.service");
    assert("/etc/ssh/ssh_host_ed25519_key"@.len() != "/etc/systemd/system/firecrab-network-ready.service"@.len());
    reveal_strlit("/etc/systemd/system/multi-user.target.wants/firecrab-network-ready.service");
    assert("/etc/ssh/ssh_host_ed25519_key"@.len() != "/etc/systemd/system/multi-user.target.wants/firecrab-network-ready.service"@.len());
    reveal_strlit("/etc/runlevels/default/firecrab-network-ready");
    assert("/etc/ssh/ssh_host_ed25519_key"@.len() != "/etc/runlevels/default/firecrab-network-ready"@.len());
    reveal_strlit("/usr/local/sbin");
    assert("/etc/ssh/ssh_host_ed25519_key"@.len() != "/usr/local/sbin"@.len());
}

pub(crate) proof fn secret_5_is_apart()
    ensures
        "/etc/ssh/ssh_host_ed25519_key.pub"@ != "/usr/local/sbin/firecrab-network-ready.sh"@,
        "/etc/ssh/ssh_host_ed25519_key.pub"@ != "/etc/init.d/firecrab-network-ready"@,
        "/etc/ssh/ssh_host_ed25519_key.pub"@ != "/etc/systemd/system/firecrab-network-ready.service"@,
        "/etc/ssh/ssh_host_ed25519_key.pub"@ != "/etc/systemd/system/multi-user.target.wants/firecrab-network-ready.service"@,
        "/etc/ssh/ssh_host_ed25519_key.pub"@ != "/etc/runlevels/default/firecrab-network-ready"@,
        "/etc/ssh/ssh_host_ed25519_key.pub"@ != "/usr/local/sbin"@,
{
    reveal_strlit("/etc/ssh/ssh_host_ed25519_key.pub");
    reveal_strlit("/usr/local/sbin/firecrab-network-ready.sh");
    assert("/etc/ssh/ssh_host_ed25519_key.pub"@.len() != "/usr/local/sbin/firecrab-network-ready.sh"@.len());
    reveal_strlit("/etc/init.d/firecrab-network-ready");
    assert("/etc/ssh/ssh_host_ed25519_key.pub"@.len() != "/etc/init.d/firecrab-network-ready"@.len());
    reveal_strlit("/etc/systemd/system/firecrab-network-ready.service");
    assert("/etc/ssh/ssh_host_ed25519_key.pub"@.len() != "/etc/systemd/system/firecrab-network-ready.service"@.len());
    reveal_strlit("/etc/systemd/system/multi-user.target.wants/firecrab-network-ready.service");
    assert("/etc/ssh/ssh_host_ed25519_key.pub"@.len() != "/etc/systemd/system/multi-user.target.wants/firecrab-network-ready.service"@.len());
    reveal_strlit("/etc/runlevels/default/firecrab-network-ready");
    assert("/etc/ssh/ssh_host_ed25519_key.pub"@.len() != "/etc/runlevels/default/firecrab-network-ready"@.len());
    reveal_strlit("/usr/local/sbin");
    assert("/etc/ssh/ssh_host_ed25519_key.pub"@.len() != "/usr/local/sbin"@.len());
}

pub(crate) proof fn secret_6_is_apart()
    ensures
        "/var/lib/systemd/random-seed"@ != "/usr/local/sbin/firecrab-network-ready.sh"@,
        "/var/lib/systemd/random-seed"@ != "/etc/init.d/firecrab-network-ready"@,
        "/var/lib/systemd/random-seed"@ != "/etc/systemd/system/firecrab-network-ready.service"@,
        "/var/lib/systemd/random-seed"@ != "/etc/systemd/system/multi-user.target.wants/firecrab-network-ready.service"@,
        "/var/lib/systemd/random-seed"@ != "/etc/runlevels/default/firecrab-network-ready"@,
        "/var/lib/systemd/random-seed"@ != "/usr/local/sbin"@,
{
    reveal_strlit("/var/lib/systemd/random-seed");
    reveal_strlit("/usr/local/sbin/firecrab-network-ready.sh");
    assert("/var/lib/systemd/random-seed"@.len() != "/usr/local/sbin/firecrab-network-ready.sh"@.len());
    reveal_strlit("/etc/init.d/firecrab-network-ready");
    assert("/var/lib/systemd/random-seed"@.len() != "/etc/init.d/firecrab-network-ready"@.len());
    reveal_strlit("/etc/systemd/system/firecrab-network-ready.service");
    assert("/var/lib/systemd/random-seed"@.len() != "/etc/systemd/system/firecrab-network-ready.service"@.len());
    reveal_strlit("/etc/systemd/system/multi-user.target.wants/firecrab-network-ready.service");
    assert("/var/lib/systemd/random-seed"@.len() != "/etc/systemd/system/multi-user.target.wants/firecrab-network-ready.service"@.len());
    reveal_strlit("/etc/runlevels/default/firecrab-network-ready");
    assert("/var/lib/systemd/random-seed"@.len() != "/etc/runlevels/default/firecrab-network-ready"@.len());
    reveal_strlit("/usr/local/sbin");
    assert("/var/lib/systemd/random-seed"@.len() != "/usr/local/sbin"@.len());
}

pub(crate) proof fn secret_7_is_apart()
    ensures
        "/var/lib/urandom/random-seed"@ != "/usr/local/sbin/firecrab-network-ready.sh"@,
        "/var/lib/urandom/random-seed"@ != "/etc/init.d/firecrab-network-ready"@,
        "/var/lib/urandom/random-seed"@ != "/etc/systemd/system/firecrab-network-ready.service"@,
        "/var/lib/urandom/random-seed"@ != "/etc/systemd/system/multi-user.target.wants/firecrab-network-ready.service"@,
        "/var/lib/urandom/random-seed"@ != "/etc/runlevels/default/firecrab-network-ready"@,
        "/var/lib/urandom/random-seed"@ != "/usr/local/sbin"@,
{
    reveal_strlit("/var/lib/urandom/random-seed");
    reveal_strlit("/usr/local/sbin/firecrab-network-ready.sh");
    assert("/var/lib/urandom/random-seed"@.len() != "/usr/local/sbin/firecrab-network-ready.sh"@.len());
    reveal_strlit("/etc/init.d/firecrab-network-ready");
    assert("/var/lib/urandom/random-seed"@.len() != "/etc/init.d/firecrab-network-ready"@.len());
    reveal_strlit("/etc/systemd/system/firecrab-network-ready.service");
    assert("/var/lib/urandom/random-seed"@.len() != "/etc/systemd/system/firecrab-network-ready.service"@.len());
    reveal_strlit("/etc/systemd/system/multi-user.target.wants/firecrab-network-ready.service");
    assert("/var/lib/urandom/random-seed"@.len() != "/etc/systemd/system/multi-user.target.wants/firecrab-network-ready.service"@.len());
    reveal_strlit("/etc/runlevels/default/firecrab-network-ready");
    assert("/var/lib/urandom/random-seed"@.len() != "/etc/runlevels/default/firecrab-network-ready"@.len());
    reveal_strlit("/usr/local/sbin");
    assert("/var/lib/urandom/random-seed"@.len() != "/usr/local/sbin"@.len());
}

pub(crate) proof fn secret_8_is_apart()
    ensures
        "/var/lib/dhcp/dhclient.leases"@ != "/usr/local/sbin/firecrab-network-ready.sh"@,
        "/var/lib/dhcp/dhclient.leases"@ != "/etc/init.d/firecrab-network-ready"@,
        "/var/lib/dhcp/dhclient.leases"@ != "/etc/systemd/system/firecrab-network-ready.service"@,
        "/var/lib/dhcp/dhclient.leases"@ != "/etc/systemd/system/multi-user.target.wants/firecrab-network-ready.service"@,
        "/var/lib/dhcp/dhclient.leases"@ != "/etc/runlevels/default/firecrab-network-ready"@,
        "/var/lib/dhcp/dhclient.leases"@ != "/usr/local/sbin"@,
{
    reveal_strlit("/var/lib/dhcp/dhclient.leases");
    reveal_strlit("/usr/local/sbin/firecrab-network-ready.sh");
    assert("/var/lib/dhcp/dhclient.leases"@.len() != "/usr/local/sbin/firecrab-network-ready.sh"@.len());
    reveal_strlit("/etc/init.d/firecrab-network-ready");
    assert("/var/lib/dhcp/dhclient.leases"@.len() != "/etc/init.d/firecrab-network-ready"@.len());
    reveal_strlit("/etc/systemd/system/firecrab-network-ready.service");
    assert("/var/lib/dhcp/dhclient.leases"@.len() != "/etc/systemd/system/firecrab-network-ready.service"@.len());
    reveal_strlit("/etc/systemd/system/multi-user.target.wants/firecrab-network-ready.service");
    assert("/var/lib/dhcp/dhclient.leases"@.len() != "/etc/systemd/system/multi-user.target.wants/firecrab-network-ready.service"@.len());
    reveal_strlit("/etc/runlevels/default/firecrab-network-ready");
    assert("/var/lib/dhcp/dhclient.leases"@.len() != "/etc/runlevels/default/firecrab-network-ready"@.len());
    reveal_strlit("/usr/local/sbin");
    assert("/var/lib/dhcp/dhclient.leases"@.len() != "/usr/local/sbin"@.len());
}

pub(crate) proof fn secret_9_is_apart()
    ensures
        "/var/lib/dhcpcd/dhcpcd-eth0.lease"@ != "/usr/local/sbin/firecrab-network-ready.sh"@,
        "/var/lib/dhcpcd/dhcpcd-eth0.lease"@ != "/etc/init.d/firecrab-network-ready"@,
        "/var/lib/dhcpcd/dhcpcd-eth0.lease"@ != "/etc/systemd/system/firecrab-network-ready.service"@,
        "/var/lib/dhcpcd/dhcpcd-eth0.lease"@ != "/etc/systemd/system/multi-user.target.wants/firecrab-network-ready.service"@,
        "/var/lib/dhcpcd/dhcpcd-eth0.lease"@ != "/etc/runlevels/default/firecrab-network-ready"@,
        "/var/lib/dhcpcd/dhcpcd-eth0.lease"@ != "/usr/local/sbin"@,
{
    reveal_strlit("/var/lib/dhcpcd/dhcpcd-eth0.lease");
    reveal_strlit("/usr/local/sbin/firecrab-network-ready.sh");
    assert("/var/lib/dhcpcd/dhcpcd-eth0.lease"@.len() != "/usr/local/sbin/firecrab-network-ready.sh"@.len());
    reveal_strlit("/etc/init.d/firecrab-network-ready");
    assert("/var/lib/dhcpcd/dhcpcd-eth0.lease"@.len() != "/etc/init.d/firecrab-network-ready"@.len());
    reveal_strlit("/etc/systemd/system/firecrab-network-ready.service");
    assert("/var/lib/dhcpcd/dhcpcd-eth0.lease"@.len() != "/etc/systemd/system/firecrab-network-ready.service"@.len());
    reveal_strlit("/etc/systemd/system/multi-user.target.wants/firecrab-network-ready.service");
    assert("/var/lib/dhcpcd/dhcpcd-eth0.lease"@.len() != "/etc/systemd/system/multi-user.target.wants/firecrab-network-ready.service"@.len());
    reveal_strlit("/etc/runlevels/default/firecrab-network-ready");
    assert("/var/lib/dhcpcd/dhcpcd-eth0.lease"@.len() != "/etc/runlevels/default/firecrab-network-ready"@.len());
    reveal_strlit("/usr/local/sbin");
    assert("/var/lib/dhcpcd/dhcpcd-eth0.lease"@.len() != "/usr/local/sbin"@.len());
}

pub(crate) proof fn the_hostname_is_apart()
    ensures
        "/etc/hostname"@ != "/etc/motd"@,
        "/etc/hostname"@ != "/etc/profile.d/firecrab-welcome.sh"@,
        "/etc/hostname"@ != "/etc/profile.d/firecrab-locale.sh"@,
        "/etc/hostname"@ != "/etc/default/locale"@,
        "/etc/hostname"@ != "/etc/locale.conf"@,
        "/etc/hostname"@ != "/etc/inittab"@,
        "/etc/hostname"@ != "/etc/firecrab/rc.boot"@,
        "/etc/hostname"@ != "/etc/firecrab/rc.console"@,
        "/etc/hostname"@ != "/etc/passwd"@,
        "/etc/hostname"@ != "/etc/profile.d"@,
        "/etc/hostname"@ != "/etc/default"@,
        "/etc/hostname"@ != "/etc/firecrab"@,
        "/etc/hostname"@ != "/etc/sysctl.d/99-firecrab-ipv6.conf"@,
        "/etc/hostname"@ != "/usr/local/bin/systemctl"@,
        "/etc/hostname"@ != "/bin/systemctl"@,
        "/etc/hostname"@ != "/usr/bin/systemctl"@,
        "/etc/hostname"@ != "/etc/sysctl.d"@,
        "/etc/hostname"@ != "/bin"@,
        "/etc/hostname"@ != "/etc/firecrab/services.d/app"@,
        "/etc/hostname"@ != "/etc/ssh/ssh_host_rsa_key"@,
        "/etc/hostname"@ != "/etc/ssh/ssh_host_rsa_key.pub"@,
        "/etc/hostname"@ != "/etc/ssh/ssh_host_ecdsa_key"@,
        "/etc/hostname"@ != "/etc/ssh/ssh_host_ecdsa_key.pub"@,
        "/etc/hostname"@ != "/etc/ssh/ssh_host_ed25519_key"@,
        "/etc/hostname"@ != "/etc/ssh/ssh_host_ed25519_key.pub"@,
        "/etc/hostname"@ != "/var/lib/systemd/random-seed"@,
        "/etc/hostname"@ != "/var/lib/urandom/random-seed"@,
        "/etc/hostname"@ != "/var/lib/dhcp/dhclient.leases"@,
        "/etc/hostname"@ != "/var/lib/dhcpcd/dhcpcd-eth0.lease"@,
        "/etc/hostname"@ != "/usr/local/sbin/firecrab-network-ready.sh"@,
        "/etc/hostname"@ != "/etc/init.d/firecrab-network-ready"@,
        "/etc/hostname"@ != "/etc/systemd/system/firecrab-network-ready.service"@,
        "/etc/hostname"@ != "/etc/systemd/system/multi-user.target.wants/firecrab-network-ready.service"@,
        "/etc/hostname"@ != "/etc/runlevels/default/firecrab-network-ready"@,
        "/etc/hostname"@ != "/usr/local/sbin"@,
{
    reveal_strlit("/etc/hostname");
    reveal_strlit("/etc/motd");
    assert("/etc/hostname"@.len() != "/etc/motd"@.len());
    reveal_strlit("/etc/profile.d/firecrab-welcome.sh");
    assert("/etc/hostname"@.len() != "/etc/profile.d/firecrab-welcome.sh"@.len());
    reveal_strlit("/etc/profile.d/firecrab-locale.sh");
    assert("/etc/hostname"@.len() != "/etc/profile.d/firecrab-locale.sh"@.len());
    reveal_strlit("/etc/default/locale");
    assert("/etc/hostname"@.len() != "/etc/default/locale"@.len());
    reveal_strlit("/etc/locale.conf");
    assert("/etc/hostname"@.len() != "/etc/locale.conf"@.len());
    reveal_strlit("/etc/inittab");
    assert("/etc/hostname"@.len() != "/etc/inittab"@.len());
    reveal_strlit("/etc/firecrab/rc.boot");
    assert("/etc/hostname"@.len() != "/etc/firecrab/rc.boot"@.len());
    reveal_strlit("/etc/firecrab/rc.console");
    assert("/etc/hostname"@.len() != "/etc/firecrab/rc.console"@.len());
    reveal_strlit("/etc/passwd");
    assert("/etc/hostname"@.len() != "/etc/passwd"@.len());
    reveal_strlit("/etc/profile.d");
    assert("/etc/hostname"@.len() != "/etc/profile.d"@.len());
    reveal_strlit("/etc/default");
    assert("/etc/hostname"@.len() != "/etc/default"@.len());
    reveal_strlit("/etc/firecrab");
    assert("/etc/hostname"@[5] != "/etc/firecrab"@[5]);
    reveal_strlit("/etc/sysctl.d/99-firecrab-ipv6.conf");
    assert("/etc/hostname"@.len() != "/etc/sysctl.d/99-firecrab-ipv6.conf"@.len());
    reveal_strlit("/usr/local/bin/systemctl");
    assert("/etc/hostname"@.len() != "/usr/local/bin/systemctl"@.len());
    reveal_strlit("/bin/systemctl");
    assert("/etc/hostname"@.len() != "/bin/systemctl"@.len());
    reveal_strlit("/usr/bin/systemctl");
    assert("/etc/hostname"@.len() != "/usr/bin/systemctl"@.len());
    reveal_strlit("/etc/sysctl.d");
    assert("/etc/hostname"@[5] != "/etc/sysctl.d"@[5]);
    reveal_strlit("/bin");
    assert("/etc/hostname"@.len() != "/bin"@.len());
    reveal_strlit("/etc/firecrab/services.d/app");
    assert("/etc/hostname"@.len() != "/etc/firecrab/services.d/app"@.len());
    reveal_strlit("/etc/ssh/ssh_host_rsa_key");
    assert("/etc/hostname"@.len() != "/etc/ssh/ssh_host_rsa_key"@.len());
    reveal_strlit("/etc/ssh/ssh_host_rsa_key.pub");
    assert("/etc/hostname"@.len() != "/etc/ssh/ssh_host_rsa_key.pub"@.len());
    reveal_strlit("/etc/ssh/ssh_host_ecdsa_key");
    assert("/etc/hostname"@.len() != "/etc/ssh/ssh_host_ecdsa_key"@.len());
    reveal_strlit("/etc/ssh/ssh_host_ecdsa_key.pub");
    assert("/etc/hostname"@.len() != "/etc/ssh/ssh_host_ecdsa_key.pub"@.len());
    reveal_strlit("/etc/ssh/ssh_host_ed25519_key");
    assert("/etc/hostname"@.len() != "/etc/ssh/ssh_host_ed25519_key"@.len());
    reveal_strlit("/etc/ssh/ssh_host_ed25519_key.pub");
    assert("/etc/hostname"@.len() != "/etc/ssh/ssh_host_ed25519_key.pub"@.len());
    reveal_strlit("/var/lib/systemd/random-seed");
    assert("/etc/hostname"@.len() != "/var/lib/systemd/random-seed"@.len());
    reveal_strlit("/var/lib/urandom/random-seed");
    assert("/etc/hostname"@.len() != "/var/lib/urandom/random-seed"@.len());
    reveal_strlit("/var/lib/dhcp/dhclient.leases");
    assert("/etc/hostname"@.len() != "/var/lib/dhcp/dhclient.leases"@.len());
    reveal_strlit("/var/lib/dhcpcd/dhcpcd-eth0.lease");
    assert("/etc/hostname"@.len() != "/var/lib/dhcpcd/dhcpcd-eth0.lease"@.len());
    reveal_strlit("/usr/local/sbin/firecrab-network-ready.sh");
    assert("/etc/hostname"@.len() != "/usr/local/sbin/firecrab-network-ready.sh"@.len());
    reveal_strlit("/etc/init.d/firecrab-network-ready");
    assert("/etc/hostname"@.len() != "/etc/init.d/firecrab-network-ready"@.len());
    reveal_strlit("/etc/systemd/system/firecrab-network-ready.service");
    assert("/etc/hostname"@.len() != "/etc/systemd/system/firecrab-network-ready.service"@.len());
    reveal_strlit("/etc/systemd/system/multi-user.target.wants/firecrab-network-ready.service");
    assert("/etc/hostname"@.len() != "/etc/systemd/system/multi-user.target.wants/firecrab-network-ready.service"@.len());
    reveal_strlit("/etc/runlevels/default/firecrab-network-ready");
    assert("/etc/hostname"@.len() != "/etc/runlevels/default/firecrab-network-ready"@.len());
    reveal_strlit("/usr/local/sbin");
    assert("/etc/hostname"@.len() != "/usr/local/sbin"@.len());
}

pub(crate) proof fn the_banner_is_apart()
    ensures
        "/etc/motd"@ != "/etc/profile.d/firecrab-welcome.sh"@,
        "/etc/motd"@ != "/etc/profile.d/firecrab-locale.sh"@,
        "/etc/motd"@ != "/etc/default/locale"@,
        "/etc/motd"@ != "/etc/locale.conf"@,
        "/etc/motd"@ != "/etc/inittab"@,
        "/etc/motd"@ != "/etc/firecrab/rc.boot"@,
        "/etc/motd"@ != "/etc/firecrab/rc.console"@,
        "/etc/motd"@ != "/etc/passwd"@,
        "/etc/motd"@ != "/etc/profile.d"@,
        "/etc/motd"@ != "/etc/default"@,
        "/etc/motd"@ != "/etc/firecrab"@,
        "/etc/motd"@ != "/etc/sysctl.d/99-firecrab-ipv6.conf"@,
        "/etc/motd"@ != "/usr/local/bin/systemctl"@,
        "/etc/motd"@ != "/bin/systemctl"@,
        "/etc/motd"@ != "/usr/bin/systemctl"@,
        "/etc/motd"@ != "/etc/sysctl.d"@,
        "/etc/motd"@ != "/bin"@,
        "/etc/motd"@ != "/etc/firecrab/services.d/app"@,
        "/etc/motd"@ != "/etc/ssh/ssh_host_rsa_key"@,
        "/etc/motd"@ != "/etc/ssh/ssh_host_rsa_key.pub"@,
        "/etc/motd"@ != "/etc/ssh/ssh_host_ecdsa_key"@,
        "/etc/motd"@ != "/etc/ssh/ssh_host_ecdsa_key.pub"@,
        "/etc/motd"@ != "/etc/ssh/ssh_host_ed25519_key"@,
        "/etc/motd"@ != "/etc/ssh/ssh_host_ed25519_key.pub"@,
        "/etc/motd"@ != "/var/lib/systemd/random-seed"@,
        "/etc/motd"@ != "/var/lib/urandom/random-seed"@,
        "/etc/motd"@ != "/var/lib/dhcp/dhclient.leases"@,
        "/etc/motd"@ != "/var/lib/dhcpcd/dhcpcd-eth0.lease"@,
        "/etc/motd"@ != "/usr/local/sbin/firecrab-network-ready.sh"@,
        "/etc/motd"@ != "/etc/init.d/firecrab-network-ready"@,
        "/etc/motd"@ != "/etc/systemd/system/firecrab-network-ready.service"@,
        "/etc/motd"@ != "/etc/systemd/system/multi-user.target.wants/firecrab-network-ready.service"@,
        "/etc/motd"@ != "/etc/runlevels/default/firecrab-network-ready"@,
        "/etc/motd"@ != "/usr/local/sbin"@,
{
    reveal_strlit("/etc/motd");
    reveal_strlit("/etc/profile.d/firecrab-welcome.sh");
    assert("/etc/motd"@.len() != "/etc/profile.d/firecrab-welcome.sh"@.len());
    reveal_strlit("/etc/profile.d/firecrab-locale.sh");
    assert("/etc/motd"@.len() != "/etc/profile.d/firecrab-locale.sh"@.len());
    reveal_strlit("/etc/default/locale");
    assert("/etc/motd"@.len() != "/etc/default/locale"@.len());
    reveal_strlit("/etc/locale.conf");
    assert("/etc/motd"@.len() != "/etc/locale.conf"@.len());
    reveal_strlit("/etc/inittab");
    assert("/etc/motd"@.len() != "/etc/inittab"@.len());
    reveal_strlit("/etc/firecrab/rc.boot");
    assert("/etc/motd"@.len() != "/etc/firecrab/rc.boot"@.len());
    reveal_strlit("/etc/firecrab/rc.console");
    assert("/etc/motd"@.len() != "/etc/firecrab/rc.console"@.len());
    reveal_strlit("/etc/passwd");
    assert("/etc/motd"@.len() != "/etc/passwd"@.len());
    reveal_strlit("/etc/profile.d");
    assert("/etc/motd"@.len() != "/etc/profile.d"@.len());
    reveal_strlit("/etc/default");
    assert("/etc/motd"@.len() != "/etc/default"@.len());
    reveal_strlit("/etc/firecrab");
    assert("/etc/motd"@.len() != "/etc/firecrab"@.len());
    reveal_strlit("/etc/sysctl.d/99-firecrab-ipv6.conf");
    assert("/etc/motd"@.len() != "/etc/sysctl.d/99-firecrab-ipv6.conf"@.len());
    reveal_strlit("/usr/local/bin/systemctl");
    assert("/etc/motd"@.len() != "/usr/local/bin/systemctl"@.len());
    reveal_strlit("/bin/systemctl");
    assert("/etc/motd"@.len() != "/bin/systemctl"@.len());
    reveal_strlit("/usr/bin/systemctl");
    assert("/etc/motd"@.len() != "/usr/bin/systemctl"@.len());
    reveal_strlit("/etc/sysctl.d");
    assert("/etc/motd"@.len() != "/etc/sysctl.d"@.len());
    reveal_strlit("/bin");
    assert("/etc/motd"@.len() != "/bin"@.len());
    reveal_strlit("/etc/firecrab/services.d/app");
    assert("/etc/motd"@.len() != "/etc/firecrab/services.d/app"@.len());
    reveal_strlit("/etc/ssh/ssh_host_rsa_key");
    assert("/etc/motd"@.len() != "/etc/ssh/ssh_host_rsa_key"@.len());
    reveal_strlit("/etc/ssh/ssh_host_rsa_key.pub");
    assert("/etc/motd"@.len() != "/etc/ssh/ssh_host_rsa_key.pub"@.len());
    reveal_strlit("/etc/ssh/ssh_host_ecdsa_key");
    assert("/etc/motd"@.len() != "/etc/ssh/ssh_host_ecdsa_key"@.len());
    reveal_strlit("/etc/ssh/ssh_host_ecdsa_key.pub");
    assert("/etc/motd"@.len() != "/etc/ssh/ssh_host_ecdsa_key.pub"@.len());
    reveal_strlit("/etc/ssh/ssh_host_ed25519_key");
    assert("/etc/motd"@.len() != "/etc/ssh/ssh_host_ed25519_key"@.len());
    reveal_strlit("/etc/ssh/ssh_host_ed25519_key.pub");
    assert("/etc/motd"@.len() != "/etc/ssh/ssh_host_ed25519_key.pub"@.len());
    reveal_strlit("/var/lib/systemd/random-seed");
    assert("/etc/motd"@.len() != "/var/lib/systemd/random-seed"@.len());
    reveal_strlit("/var/lib/urandom/random-seed");
    assert("/etc/motd"@.len() != "/var/lib/urandom/random-seed"@.len());
    reveal_strlit("/var/lib/dhcp/dhclient.leases");
    assert("/etc/motd"@.len() != "/var/lib/dhcp/dhclient.leases"@.len());
    reveal_strlit("/var/lib/dhcpcd/dhcpcd-eth0.lease");
    assert("/etc/motd"@.len() != "/var/lib/dhcpcd/dhcpcd-eth0.lease"@.len());
    reveal_strlit("/usr/local/sbin/firecrab-network-ready.sh");
    assert("/etc/motd"@.len() != "/usr/local/sbin/firecrab-network-ready.sh"@.len());
    reveal_strlit("/etc/init.d/firecrab-network-ready");
    assert("/etc/motd"@.len() != "/etc/init.d/firecrab-network-ready"@.len());
    reveal_strlit("/etc/systemd/system/firecrab-network-ready.service");
    assert("/etc/motd"@.len() != "/etc/systemd/system/firecrab-network-ready.service"@.len());
    reveal_strlit("/etc/systemd/system/multi-user.target.wants/firecrab-network-ready.service");
    assert("/etc/motd"@.len() != "/etc/systemd/system/multi-user.target.wants/firecrab-network-ready.service"@.len());
    reveal_strlit("/etc/runlevels/default/firecrab-network-ready");
    assert("/etc/motd"@.len() != "/etc/runlevels/default/firecrab-network-ready"@.len());
    reveal_strlit("/usr/local/sbin");
    assert("/etc/motd"@.len() != "/usr/local/sbin"@.len());
}

pub(crate) proof fn the_boot_script_is_apart()
    ensures
        "/etc/firecrab/rc.boot"@ != "/etc/firecrab/rc.console"@,
        "/etc/firecrab/rc.boot"@ != "/etc/sysctl.d/99-firecrab-ipv6.conf"@,
        "/etc/firecrab/rc.boot"@ != "/usr/local/bin/systemctl"@,
        "/etc/firecrab/rc.boot"@ != "/bin/systemctl"@,
        "/etc/firecrab/rc.boot"@ != "/usr/bin/systemctl"@,
        "/etc/firecrab/rc.boot"@ != "/etc/sysctl.d"@,
        "/etc/firecrab/rc.boot"@ != "/bin"@,
        "/etc/firecrab/rc.boot"@ != "/etc/firecrab/services.d/app"@,
        "/etc/firecrab/rc.boot"@ != "/etc/ssh/ssh_host_rsa_key"@,
        "/etc/firecrab/rc.boot"@ != "/etc/ssh/ssh_host_rsa_key.pub"@,
        "/etc/firecrab/rc.boot"@ != "/etc/ssh/ssh_host_ecdsa_key"@,
        "/etc/firecrab/rc.boot"@ != "/etc/ssh/ssh_host_ecdsa_key.pub"@,
        "/etc/firecrab/rc.boot"@ != "/etc/ssh/ssh_host_ed25519_key"@,
        "/etc/firecrab/rc.boot"@ != "/etc/ssh/ssh_host_ed25519_key.pub"@,
        "/etc/firecrab/rc.boot"@ != "/var/lib/systemd/random-seed"@,
        "/etc/firecrab/rc.boot"@ != "/var/lib/urandom/random-seed"@,
        "/etc/firecrab/rc.boot"@ != "/var/lib/dhcp/dhclient.leases"@,
        "/etc/firecrab/rc.boot"@ != "/var/lib/dhcpcd/dhcpcd-eth0.lease"@,
        "/etc/firecrab/rc.boot"@ != "/usr/local/sbin/firecrab-network-ready.sh"@,
        "/etc/firecrab/rc.boot"@ != "/etc/init.d/firecrab-network-ready"@,
        "/etc/firecrab/rc.boot"@ != "/etc/systemd/system/firecrab-network-ready.service"@,
        "/etc/firecrab/rc.boot"@ != "/etc/systemd/system/multi-user.target.wants/firecrab-network-ready.service"@,
        "/etc/firecrab/rc.boot"@ != "/etc/runlevels/default/firecrab-network-ready"@,
        "/etc/firecrab/rc.boot"@ != "/usr/local/sbin"@,
{
    reveal_strlit("/etc/firecrab/rc.boot");
    reveal_strlit("/etc/firecrab/rc.console");
    assert("/etc/firecrab/rc.boot"@.len() != "/etc/firecrab/rc.console"@.len());
    reveal_strlit("/etc/sysctl.d/99-firecrab-ipv6.conf");
    assert("/etc/firecrab/rc.boot"@.len() != "/etc/sysctl.d/99-firecrab-ipv6.conf"@.len());
    reveal_strlit("/usr/local/bin/systemctl");
    assert("/etc/firecrab/rc.boot"@.len() != "/usr/local/bin/systemctl"@.len());
    reveal_strlit("/bin/systemctl");
    assert("/etc/firecrab/rc.boot"@.len() != "/bin/systemctl"@.len());
    reveal_strlit("/usr/bin/systemctl");
    assert("/etc/firecrab/rc.boot"@.len() != "/usr/bin/systemctl"@.len());
    reveal_strlit("/etc/sysctl.d");
    assert("/etc/firecrab/rc.boot"@.len() != "/etc/sysctl.d"@.len());
    reveal_strlit("/bin");
    assert("/etc/firecrab/rc.boot"@.len() != "/bin"@.len());
    reveal_strlit("/etc/firecrab/services.d/app");
    assert("/etc/firecrab/rc.boot"@.len() != "/etc/firecrab/services.d/app"@.len());
    reveal_strlit("/etc/ssh/ssh_host_rsa_key");
    assert("/etc/firecrab/rc.boot"@.len() != "/etc/ssh/ssh_host_rsa_key"@.len());
    reveal_strlit("/etc/ssh/ssh_host_rsa_key.pub");
    assert("/etc/firecrab/rc.boot"@.len() != "/etc/ssh/ssh_host_rsa_key.pub"@.len());
    reveal_strlit("/etc/ssh/ssh_host_ecdsa_key");
    assert("/etc/firecrab/rc.boot"@.len() != "/etc/ssh/ssh_host_ecdsa_key"@.len());
    reveal_strlit("/etc/ssh/ssh_host_ecdsa_key.pub");
    assert("/etc/firecrab/rc.boot"@.len() != "/etc/ssh/ssh_host_ecdsa_key.pub"@.len());
    reveal_strlit("/etc/ssh/ssh_host_ed25519_key");
    assert("/etc/firecrab/rc.boot"@.len() != "/etc/ssh/ssh_host_ed25519_key"@.len());
    reveal_strlit("/etc/ssh/ssh_host_ed25519_key.pub");
    assert("/etc/firecrab/rc.boot"@.len() != "/etc/ssh/ssh_host_ed25519_key.pub"@.len());
    reveal_strlit("/var/lib/systemd/random-seed");
    assert("/etc/firecrab/rc.boot"@.len() != "/var/lib/systemd/random-seed"@.len());
    reveal_strlit("/var/lib/urandom/random-seed");
    assert("/etc/firecrab/rc.boot"@.len() != "/var/lib/urandom/random-seed"@.len());
    reveal_strlit("/var/lib/dhcp/dhclient.leases");
    assert("/etc/firecrab/rc.boot"@.len() != "/var/lib/dhcp/dhclient.leases"@.len());
    reveal_strlit("/var/lib/dhcpcd/dhcpcd-eth0.lease");
    assert("/etc/firecrab/rc.boot"@.len() != "/var/lib/dhcpcd/dhcpcd-eth0.lease"@.len());
    reveal_strlit("/usr/local/sbin/firecrab-network-ready.sh");
    assert("/etc/firecrab/rc.boot"@.len() != "/usr/local/sbin/firecrab-network-ready.sh"@.len());
    reveal_strlit("/etc/init.d/firecrab-network-ready");
    assert("/etc/firecrab/rc.boot"@.len() != "/etc/init.d/firecrab-network-ready"@.len());
    reveal_strlit("/etc/systemd/system/firecrab-network-ready.service");
    assert("/etc/firecrab/rc.boot"@.len() != "/etc/systemd/system/firecrab-network-ready.service"@.len());
    reveal_strlit("/etc/systemd/system/multi-user.target.wants/firecrab-network-ready.service");
    assert("/etc/firecrab/rc.boot"@.len() != "/etc/systemd/system/multi-user.target.wants/firecrab-network-ready.service"@.len());
    reveal_strlit("/etc/runlevels/default/firecrab-network-ready");
    assert("/etc/firecrab/rc.boot"@.len() != "/etc/runlevels/default/firecrab-network-ready"@.len());
    reveal_strlit("/usr/local/sbin");
    assert("/etc/firecrab/rc.boot"@.len() != "/usr/local/sbin"@.len());
}

pub(crate) proof fn the_console_is_apart()
    ensures
        "/etc/firecrab/rc.console"@ != "/etc/firecrab/rc.boot"@,
        "/etc/firecrab/rc.console"@ != "/etc/sysctl.d/99-firecrab-ipv6.conf"@,
        "/etc/firecrab/rc.console"@ != "/usr/local/bin/systemctl"@,
        "/etc/firecrab/rc.console"@ != "/bin/systemctl"@,
        "/etc/firecrab/rc.console"@ != "/usr/bin/systemctl"@,
        "/etc/firecrab/rc.console"@ != "/etc/sysctl.d"@,
        "/etc/firecrab/rc.console"@ != "/bin"@,
        "/etc/firecrab/rc.console"@ != "/etc/firecrab/services.d/app"@,
        "/etc/firecrab/rc.console"@ != "/etc/ssh/ssh_host_rsa_key"@,
        "/etc/firecrab/rc.console"@ != "/etc/ssh/ssh_host_rsa_key.pub"@,
        "/etc/firecrab/rc.console"@ != "/etc/ssh/ssh_host_ecdsa_key"@,
        "/etc/firecrab/rc.console"@ != "/etc/ssh/ssh_host_ecdsa_key.pub"@,
        "/etc/firecrab/rc.console"@ != "/etc/ssh/ssh_host_ed25519_key"@,
        "/etc/firecrab/rc.console"@ != "/etc/ssh/ssh_host_ed25519_key.pub"@,
        "/etc/firecrab/rc.console"@ != "/var/lib/systemd/random-seed"@,
        "/etc/firecrab/rc.console"@ != "/var/lib/urandom/random-seed"@,
        "/etc/firecrab/rc.console"@ != "/var/lib/dhcp/dhclient.leases"@,
        "/etc/firecrab/rc.console"@ != "/var/lib/dhcpcd/dhcpcd-eth0.lease"@,
        "/etc/firecrab/rc.console"@ != "/usr/local/sbin/firecrab-network-ready.sh"@,
        "/etc/firecrab/rc.console"@ != "/etc/init.d/firecrab-network-ready"@,
        "/etc/firecrab/rc.console"@ != "/etc/systemd/system/firecrab-network-ready.service"@,
        "/etc/firecrab/rc.console"@ != "/etc/systemd/system/multi-user.target.wants/firecrab-network-ready.service"@,
        "/etc/firecrab/rc.console"@ != "/etc/runlevels/default/firecrab-network-ready"@,
        "/etc/firecrab/rc.console"@ != "/usr/local/sbin"@,
{
    reveal_strlit("/etc/firecrab/rc.console");
    reveal_strlit("/etc/firecrab/rc.boot");
    assert("/etc/firecrab/rc.console"@.len() != "/etc/firecrab/rc.boot"@.len());
    reveal_strlit("/etc/sysctl.d/99-firecrab-ipv6.conf");
    assert("/etc/firecrab/rc.console"@.len() != "/etc/sysctl.d/99-firecrab-ipv6.conf"@.len());
    reveal_strlit("/usr/local/bin/systemctl");
    assert("/etc/firecrab/rc.console"@[1] != "/usr/local/bin/systemctl"@[1]);
    reveal_strlit("/bin/systemctl");
    assert("/etc/firecrab/rc.console"@.len() != "/bin/systemctl"@.len());
    reveal_strlit("/usr/bin/systemctl");
    assert("/etc/firecrab/rc.console"@.len() != "/usr/bin/systemctl"@.len());
    reveal_strlit("/etc/sysctl.d");
    assert("/etc/firecrab/rc.console"@.len() != "/etc/sysctl.d"@.len());
    reveal_strlit("/bin");
    assert("/etc/firecrab/rc.console"@.len() != "/bin"@.len());
    reveal_strlit("/etc/firecrab/services.d/app");
    assert("/etc/firecrab/rc.console"@.len() != "/etc/firecrab/services.d/app"@.len());
    reveal_strlit("/etc/ssh/ssh_host_rsa_key");
    assert("/etc/firecrab/rc.console"@.len() != "/etc/ssh/ssh_host_rsa_key"@.len());
    reveal_strlit("/etc/ssh/ssh_host_rsa_key.pub");
    assert("/etc/firecrab/rc.console"@.len() != "/etc/ssh/ssh_host_rsa_key.pub"@.len());
    reveal_strlit("/etc/ssh/ssh_host_ecdsa_key");
    assert("/etc/firecrab/rc.console"@.len() != "/etc/ssh/ssh_host_ecdsa_key"@.len());
    reveal_strlit("/etc/ssh/ssh_host_ecdsa_key.pub");
    assert("/etc/firecrab/rc.console"@.len() != "/etc/ssh/ssh_host_ecdsa_key.pub"@.len());
    reveal_strlit("/etc/ssh/ssh_host_ed25519_key");
    assert("/etc/firecrab/rc.console"@.len() != "/etc/ssh/ssh_host_ed25519_key"@.len());
    reveal_strlit("/etc/ssh/ssh_host_ed25519_key.pub");
    assert("/etc/firecrab/rc.console"@.len() != "/etc/ssh/ssh_host_ed25519_key.pub"@.len());
    reveal_strlit("/var/lib/systemd/random-seed");
    assert("/etc/firecrab/rc.console"@.len() != "/var/lib/systemd/random-seed"@.len());
    reveal_strlit("/var/lib/urandom/random-seed");
    assert("/etc/firecrab/rc.console"@.len() != "/var/lib/urandom/random-seed"@.len());
    reveal_strlit("/var/lib/dhcp/dhclient.leases");
    assert("/etc/firecrab/rc.console"@.len() != "/var/lib/dhcp/dhclient.leases"@.len());
    reveal_strlit("/var/lib/dhcpcd/dhcpcd-eth0.lease");
    assert("/etc/firecrab/rc.console"@.len() != "/var/lib/dhcpcd/dhcpcd-eth0.lease"@.len());
    reveal_strlit("/usr/local/sbin/firecrab-network-ready.sh");
    assert("/etc/firecrab/rc.console"@.len() != "/usr/local/sbin/firecrab-network-ready.sh"@.len());
    reveal_strlit("/etc/init.d/firecrab-network-ready");
    assert("/etc/firecrab/rc.console"@.len() != "/etc/init.d/firecrab-network-ready"@.len());
    reveal_strlit("/etc/systemd/system/firecrab-network-ready.service");
    assert("/etc/firecrab/rc.console"@.len() != "/etc/systemd/system/firecrab-network-ready.service"@.len());
    reveal_strlit("/etc/systemd/system/multi-user.target.wants/firecrab-network-ready.service");
    assert("/etc/firecrab/rc.console"@.len() != "/etc/systemd/system/multi-user.target.wants/firecrab-network-ready.service"@.len());
    reveal_strlit("/etc/runlevels/default/firecrab-network-ready");
    assert("/etc/firecrab/rc.console"@.len() != "/etc/runlevels/default/firecrab-network-ready"@.len());
    reveal_strlit("/usr/local/sbin");
    assert("/etc/firecrab/rc.console"@.len() != "/usr/local/sbin"@.len());
}

pub(crate) proof fn the_settings_are_apart()
    ensures
        "/etc/sysctl.d/99-firecrab-ipv6.conf"@ != "/usr/local/bin/systemctl"@,
        "/etc/sysctl.d/99-firecrab-ipv6.conf"@ != "/bin/systemctl"@,
        "/etc/sysctl.d/99-firecrab-ipv6.conf"@ != "/usr/bin/systemctl"@,
        "/etc/sysctl.d/99-firecrab-ipv6.conf"@ != "/bin"@,
        "/etc/sysctl.d/99-firecrab-ipv6.conf"@ != "/etc/firecrab/services.d/app"@,
        "/etc/sysctl.d/99-firecrab-ipv6.conf"@ != "/etc/ssh/ssh_host_rsa_key"@,
        "/etc/sysctl.d/99-firecrab-ipv6.conf"@ != "/etc/ssh/ssh_host_rsa_key.pub"@,
        "/etc/sysctl.d/99-firecrab-ipv6.conf"@ != "/etc/ssh/ssh_host_ecdsa_key"@,
        "/etc/sysctl.d/99-firecrab-ipv6.conf"@ != "/etc/ssh/ssh_host_ecdsa_key.pub"@,
        "/etc/sysctl.d/99-firecrab-ipv6.conf"@ != "/etc/ssh/ssh_host_ed25519_key"@,
        "/etc/sysctl.d/99-firecrab-ipv6.conf"@ != "/etc/ssh/ssh_host_ed25519_key.pub"@,
        "/etc/sysctl.d/99-firecrab-ipv6.conf"@ != "/var/lib/systemd/random-seed"@,
        "/etc/sysctl.d/99-firecrab-ipv6.conf"@ != "/var/lib/urandom/random-seed"@,
        "/etc/sysctl.d/99-firecrab-ipv6.conf"@ != "/var/lib/dhcp/dhclient.leases"@,
        "/etc/sysctl.d/99-firecrab-ipv6.conf"@ != "/var/lib/dhcpcd/dhcpcd-eth0.lease"@,
        "/etc/sysctl.d/99-firecrab-ipv6.conf"@ != "/usr/local/sbin/firecrab-network-ready.sh"@,
        "/etc/sysctl.d/99-firecrab-ipv6.conf"@ != "/etc/init.d/firecrab-network-ready"@,
        "/etc/sysctl.d/99-firecrab-ipv6.conf"@ != "/etc/systemd/system/firecrab-network-ready.service"@,
        "/etc/sysctl.d/99-firecrab-ipv6.conf"@ != "/etc/systemd/system/multi-user.target.wants/firecrab-network-ready.service"@,
        "/etc/sysctl.d/99-firecrab-ipv6.conf"@ != "/etc/runlevels/default/firecrab-network-ready"@,
        "/etc/sysctl.d/99-firecrab-ipv6.conf"@ != "/usr/local/sbin"@,
{
    reveal_strlit("/etc/sysctl.d/99-firecrab-ipv6.conf");
    reveal_strlit("/usr/local/bin/systemctl");
    assert("/etc/sysctl.d/99-firecrab-ipv6.conf"@.len() != "/usr/local/bin/systemctl"@.len());
    reveal_strlit("/bin/systemctl");
    assert("/etc/sysctl.d/99-firecrab-ipv6.conf"@.len() != "/bin/systemctl"@.len());
    reveal_strlit("/usr/bin/systemctl");
    assert("/etc/sysctl.d/99-firecrab-ipv6.conf"@.len() != "/usr/bin/systemctl"@.len());
    reveal_strlit("/bin");
    assert("/etc/sysctl.d/99-firecrab-ipv6.conf"@.len() != "/bin"@.len());
    reveal_strlit("/etc/firecrab/services.d/app");
    assert("/etc/sysctl.d/99-firecrab-ipv6.conf"@.len() != "/etc/firecrab/services.d/app"@.len());
    reveal_strlit("/etc/ssh/ssh_host_rsa_key");
    assert("/etc/sysctl.d/99-firecrab-ipv6.conf"@.len() != "/etc/ssh/ssh_host_rsa_key"@.len());
    reveal_strlit("/etc/ssh/ssh_host_rsa_key.pub");
    assert("/etc/sysctl.d/99-firecrab-ipv6.conf"@.len() != "/etc/ssh/ssh_host_rsa_key.pub"@.len());
    reveal_strlit("/etc/ssh/ssh_host_ecdsa_key");
    assert("/etc/sysctl.d/99-firecrab-ipv6.conf"@.len() != "/etc/ssh/ssh_host_ecdsa_key"@.len());
    reveal_strlit("/etc/ssh/ssh_host_ecdsa_key.pub");
    assert("/etc/sysctl.d/99-firecrab-ipv6.conf"@.len() != "/etc/ssh/ssh_host_ecdsa_key.pub"@.len());
    reveal_strlit("/etc/ssh/ssh_host_ed25519_key");
    assert("/etc/sysctl.d/99-firecrab-ipv6.conf"@.len() != "/etc/ssh/ssh_host_ed25519_key"@.len());
    reveal_strlit("/etc/ssh/ssh_host_ed25519_key.pub");
    assert("/etc/sysctl.d/99-firecrab-ipv6.conf"@.len() != "/etc/ssh/ssh_host_ed25519_key.pub"@.len());
    reveal_strlit("/var/lib/systemd/random-seed");
    assert("/etc/sysctl.d/99-firecrab-ipv6.conf"@.len() != "/var/lib/systemd/random-seed"@.len());
    reveal_strlit("/var/lib/urandom/random-seed");
    assert("/etc/sysctl.d/99-firecrab-ipv6.conf"@.len() != "/var/lib/urandom/random-seed"@.len());
    reveal_strlit("/var/lib/dhcp/dhclient.leases");
    assert("/etc/sysctl.d/99-firecrab-ipv6.conf"@.len() != "/var/lib/dhcp/dhclient.leases"@.len());
    reveal_strlit("/var/lib/dhcpcd/dhcpcd-eth0.lease");
    assert("/etc/sysctl.d/99-firecrab-ipv6.conf"@.len() != "/var/lib/dhcpcd/dhcpcd-eth0.lease"@.len());
    reveal_strlit("/usr/local/sbin/firecrab-network-ready.sh");
    assert("/etc/sysctl.d/99-firecrab-ipv6.conf"@.len() != "/usr/local/sbin/firecrab-network-ready.sh"@.len());
    reveal_strlit("/etc/init.d/firecrab-network-ready");
    assert("/etc/sysctl.d/99-firecrab-ipv6.conf"@.len() != "/etc/init.d/firecrab-network-ready"@.len());
    reveal_strlit("/etc/systemd/system/firecrab-network-ready.service");
    assert("/etc/sysctl.d/99-firecrab-ipv6.conf"@.len() != "/etc/systemd/system/firecrab-network-ready.service"@.len());
    reveal_strlit("/etc/systemd/system/multi-user.target.wants/firecrab-network-ready.service");
    assert("/etc/sysctl.d/99-firecrab-ipv6.conf"@.len() != "/etc/systemd/system/multi-user.target.wants/firecrab-network-ready.service"@.len());
    reveal_strlit("/etc/runlevels/default/firecrab-network-ready");
    assert("/etc/sysctl.d/99-firecrab-ipv6.conf"@.len() != "/etc/runlevels/default/firecrab-network-ready"@.len());
    reveal_strlit("/usr/local/sbin");
    assert("/etc/sysctl.d/99-firecrab-ipv6.conf"@.len() != "/usr/local/sbin"@.len());
}

pub(crate) proof fn the_script_is_apart()
    ensures
        "/usr/local/sbin/firecrab-network-ready.sh"@ != "/etc/init.d/firecrab-network-ready"@,
        "/usr/local/sbin/firecrab-network-ready.sh"@ != "/etc/systemd/system/firecrab-network-ready.service"@,
        "/usr/local/sbin/firecrab-network-ready.sh"@ != "/etc/systemd/system/multi-user.target.wants/firecrab-network-ready.service"@,
        "/usr/local/sbin/firecrab-network-ready.sh"@ != "/etc/runlevels/default/firecrab-network-ready"@,
{
    reveal_strlit("/usr/local/sbin/firecrab-network-ready.sh");
    reveal_strlit("/etc/init.d/firecrab-network-ready");
    assert("/usr/local/sbin/firecrab-network-ready.sh"@.len() != "/etc/init.d/firecrab-network-ready"@.len());
    reveal_strlit("/etc/systemd/system/firecrab-network-ready.service");
    assert("/usr/local/sbin/firecrab-network-ready.sh"@.len() != "/etc/systemd/system/firecrab-network-ready.service"@.len());
    reveal_strlit("/etc/systemd/system/multi-user.target.wants/firecrab-network-ready.service");
    assert("/usr/local/sbin/firecrab-network-ready.sh"@.len() != "/etc/systemd/system/multi-user.target.wants/firecrab-network-ready.service"@.len());
    reveal_strlit("/etc/runlevels/default/firecrab-network-ready");
    assert("/usr/local/sbin/firecrab-network-ready.sh"@.len() != "/etc/runlevels/default/firecrab-network-ready"@.len());
}

pub(crate) proof fn the_openrc_service_is_apart()
    ensures
        "/etc/init.d/firecrab-network-ready"@ != "/etc/runlevels/default/firecrab-network-ready"@,
{
    reveal_strlit("/etc/init.d/firecrab-network-ready");
    reveal_strlit("/etc/runlevels/default/firecrab-network-ready");
    assert("/etc/init.d/firecrab-network-ready"@.len() != "/etc/runlevels/default/firecrab-network-ready"@.len());
}

} // verus!
