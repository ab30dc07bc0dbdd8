//! Giving the disk of a VM the VM's identity, without mounting it.

use vstd::prelude::*;

#[allow(unused_imports)]
use super::{outcome, Deed, News, Trouble};
use super::{Answer, Progress, RootfsError, Task};
#[allow(unused_imports)]
use crate::dialog::{fresh, seen, stand, Dialog};
use crate::dialog::Steps;
use crate::oci::provision::{
    applet_link_path, boot_script, console_script, inittab, rewrite_root_shell,
    GUEST_AGETTY_CANDIDATES, GUEST_BASH_CANDIDATES, GUEST_TOOLBOX, PATH_APPLETS, PATH_LOOKUP_DIRS,
};
#[allow(unused_imports)]
use crate::oci::provision::{
    applet_paths, boot_text, console_text, inittab_text, link_path, with_root_shell,
};
use crate::path::path_with_extension;
#[allow(unused_imports)]
use crate::path::with_extension;
#[allow(unused_imports)]
use crate::text::{contains, opt_text, texts, views};
use crate::text::has;
#[allow(unused_imports)]
use vstd::utf8::encode_utf8;

verus! {

/// What every VM must have of its own, and what a template left behind: keys and seeds
/// would be the same in all VMs of a template, and a lease is stale.
pub const STRIP_PATHS: [&'static str; 10] = [
    "/etc/ssh/ssh_host_rsa_key",
    "/etc/ssh/ssh_host_rsa_key.pub",
    "/etc/ssh/ssh_host_ecdsa_key",
    "/etc/ssh/ssh_host_ecdsa_key.pub",
    "/etc/ssh/ssh_host_ed25519_key",
    "/etc/ssh/ssh_host_ed25519_key.pub",
    "/var/lib/systemd/random-seed",
    "/var/lib/urandom/random-seed",
    "/var/lib/dhcp/dhclient.leases",
    "/var/lib/dhcpcd/dhcpcd-eth0.lease",
];

/// What a login shell shows.
pub const FIRECRAB_WELCOME_PROFILE: &'static str = "# Firecrab console welcome. Printed after /etc/motd on interactive login.\nPATH=\"/usr/local/bin:/usr/local/sbin:$PATH\"\nexport PATH\n[ -x /usr/bin/fastfetch ] && /usr/bin/fastfetch\n[ -x /usr/bin/neofetch ] && [ ! -x /usr/bin/fastfetch ] && /usr/bin/neofetch\n";

/// What has a login shell take letters of every script.
pub const FIRECRAB_LOCALE_PROFILE: &'static str = "# Firecrab: UTF-8 for multilingual console input.\nif [ -z \"${LANG:-}\" ] || [ \"$LANG\" = C ] || [ \"$LANG\" = POSIX ]; then\n  LANG=C.UTF-8\nfi\nexport LANG\nexport LC_ALL=\"$LANG\" LC_CTYPE=\"$LANG\"\n";

/// The locale of the guest.
pub const FIRECRAB_LOCALE_CONF: &'static str = "LANG=C.UTF-8\nLC_ALL=C.UTF-8\n";

/// Where the guest's IPv6 settings go.
pub const IPV6_SYSCTL_PATH: &'static str = "/etc/sysctl.d/99-firecrab-ipv6.conf";

/// The guest's IPv6 settings: it must build the address that the host has pinned, so
/// neither a private nor a temporary one.
pub const IPV6_SYSCTL: &'static str = "# Managed by Firecrab. See public-docs/networking.md.\nnet.ipv6.conf.default.addr_gen_mode = 0\nnet.ipv6.conf.eth0.addr_gen_mode = 0\nnet.ipv6.conf.default.use_tempaddr = 0\nnet.ipv6.conf.eth0.use_tempaddr = 0\nnet.ipv6.conf.eth0.accept_ra = 2\n";

/// The script of the guest's service.
pub const GUEST_VM_SERVICE: &'static str = "/etc/firecrab/services.d/app";

/// The script that tells the host that the guest's network is up.
pub const NETWORK_READY_SCRIPT_PATH: &'static str = "/usr/local/sbin/firecrab-network-ready.sh";

/// The same as a service of OpenRC.
pub const NETWORK_READY_OPENRC_PATH: &'static str = "/etc/init.d/firecrab-network-ready";

/// The unit that runs the script.
pub const NETWORK_READY_UNIT_PATH: &'static str =
    "/etc/systemd/system/firecrab-network-ready.service";

/// The link that enables the unit.
pub const NETWORK_READY_UNIT_WANTS_PATH: &'static str =
    "/etc/systemd/system/multi-user.target.wants/firecrab-network-ready.service";

/// The link that enables the service.
pub const NETWORK_READY_OPENRC_RUNLEVEL_PATH: &'static str =
    "/etc/runlevels/default/firecrab-network-ready";

/// The script's check for an address and a name server.
pub const NETWORK_READY_PROBE: &'static str = r#"
ipv4=""
for _ in $(seq 1 15); do
  ipv4=$(ip -4 -o addr show scope global 2>/dev/null | \
    awk '$2 != "lo" { split($4, a, "/"); print a[1]; exit }')
  [ -n "$ipv4" ] && break
  sleep 1
done

if [ -z "$ipv4" ]; then
  echo "FIRECRAB_NETWORK_FAILED no-ipv4-address"
  exit 0
fi

gw=$(ip -4 route show default 2>/dev/null | awk '{print $3; exit}')

# Some images symlink resolv.conf to systemd-resolved's stub without shipping
# the package — /run/systemd/resolve/stub-resolv.conf never appears.
if [ -n "$gw" ] && [ ! -e /run/systemd/resolve/stub-resolv.conf ]; then
  if [ -L /etc/resolv.conf ] || [ ! -s /etc/resolv.conf ]; then
    rm -f /etc/resolv.conf
    printf 'nameserver %s\n' "$gw" > /etc/resolv.conf
  fi
fi

dns_ok() {
  getent hosts example.com >/dev/null 2>&1 && return 0
  if [ -n "$gw" ] && command -v dig >/dev/null 2>&1; then
    ans=$(dig +short +time=2 +tries=1 @"$gw" example.com A 2>/dev/null || true)
    [ -n "$ans" ] && return 0
  fi
  return 1
}

for _ in $(seq 1 15); do
  if dns_ok; then
    echo "FIRECRAB_NETWORK_READY $ipv4"
    exit 0
  fi
  sleep 1
done
echo "FIRECRAB_NETWORK_FAILED dns-unreachable"
"#;

/// The service's check for an address and a name server.
pub const NETWORK_READY_OPENRC_PROBE: &'static str = r#"
	ipv4=""
	for _ in $(seq 1 10); do
		ipv4=$(ip -4 -o addr show eth0 2>/dev/null | awk '{print $4}' | cut -d/ -f1)
		[ -n "$ipv4" ] && break
		sleep 1
	done
	if [ -z "$ipv4" ]; then
		echo "FIRECRAB_NETWORK_FAILED no-ipv4-address" >/dev/console
	elif getent hosts example.com >/dev/null 2>&1; then
		echo "FIRECRAB_NETWORK_READY $ipv4" >/dev/console
	else
		echo "FIRECRAB_NETWORK_FAILED dns-unreachable" >/dev/console
	fi
"#;

/// How the service begins.
pub const NETWORK_READY_OPENRC_HEAD: &'static str = r#"#!/sbin/openrc-run
description="Firecrab network readiness sentinel"

depend() {
	need net
	after dhcpcd
}

start() {
"#;

/// The unit.
pub const NETWORK_READY_UNIT: &'static str = r#"[Unit]
Description=Firecrab network readiness sentinel
After=network-online.target
Wants=network-online.target

[Service]
Type=oneshot
StandardOutput=tty
TTYPath=/dev/console
ExecStart=/usr/local/sbin/firecrab-network-ready.sh

[Install]
WantedBy=multi-user.target
"#;

/// The guest's IPv6 settings.
pub fn ipv6_sysctl_conf() -> (r: String)
    ensures
        r@ == IPV6_SYSCTL@,
{
    IPV6_SYSCTL.to_owned()
}

/// The script that tells the host that the guest's network is up; `kick` starts the
/// metrics agent.
pub fn network_ready_script(kick: &str) -> (r: String)
    ensures
        r@ == "#!/bin/sh\nset -eu\n\n"@ + kick@ + NETWORK_READY_PROBE@,
{
    "#!/bin/sh\nset -eu\n\n".to_owned().concat(kick).concat(NETWORK_READY_PROBE)
}

/// The same as a service of OpenRC.
pub fn network_ready_openrc(kick: &str) -> (r: String)
    ensures
        r@ == NETWORK_READY_OPENRC_HEAD@ + kick@ + NETWORK_READY_OPENRC_PROBE@ + "}\n"@,
{
    NETWORK_READY_OPENRC_HEAD.to_owned().concat(kick).concat(NETWORK_READY_OPENRC_PROBE).concat(
        "}\n",
    )
}

/// What a VM is given.
#[derive(Debug)]
pub struct GuestProfile {
    /// The VM's name.
    pub hostname: String,
    /// The banner of the console.
    pub motd: String,
    /// Where the metrics agent lies.
    pub agent: String,
    /// Where the VM's variables go.
    pub env_path: String,
    /// The VM's variables as a file.
    pub env_file: String,
    /// What starts the metrics agent from the readiness script.
    pub kick_systemd: String,
    /// What starts the metrics agent from the service of OpenRC.
    pub kick_openrc: String,
}

/// [`GuestProfile`] as contracts speak of it.
pub struct Profile {
    pub hostname: Seq<char>,
    pub motd: Seq<char>,
    pub agent: Seq<char>,
    pub env_path: Seq<char>,
    pub env_file: Seq<char>,
    pub kick_systemd: Seq<char>,
    pub kick_openrc: Seq<char>,
}

impl View for GuestProfile {
    type V = Profile;

    open spec fn view(&self) -> Profile {
        Profile {
            hostname: self.hostname@,
            motd: self.motd@,
            agent: self.agent@,
            env_path: self.env_path@,
            env_file: self.env_file@,
            kick_systemd: self.kick_systemd@,
            kick_openrc: self.kick_openrc@,
        }
    }
}

impl Profile {
    /// The readiness script.
    pub open spec fn script(self) -> Seq<char> {
        "#!/bin/sh\nset -eu\n\n"@ + self.kick_systemd + NETWORK_READY_PROBE@
    }

    /// The readiness service of OpenRC.
    pub open spec fn service(self) -> Seq<char> {
        NETWORK_READY_OPENRC_HEAD@ + self.kick_openrc + NETWORK_READY_OPENRC_PROBE@ + "}\n"@
    }
}

impl Dialog<Deed, News> {
    /// Writes a text as a file of the guest.
    pub open spec fn put(self, rootfs: Seq<char>, guest_path: Seq<char>, text: Seq<char>) -> (
        Self,
        Result<(), Trouble>,
    ) {
        self.write(rootfs, guest_path, encode_utf8(text))
    }

    /// The first of some paths of the guest at which there is something; those after it are
    /// not looked at.
    pub open spec fn first_there(self, rootfs: Seq<char>, candidates: Seq<Seq<char>>) -> (
        Self,
        Option<Seq<char>>,
    )
        decreases candidates.len(),
    {
        if candidates.len() == 0 {
            (self, None)
        } else {
            let (next, there) = self.exists_in(rootfs, candidates[0]);
            if there {
                (next, Some(candidates[0]))
            } else {
                next.first_there(rootfs, candidates.skip(1))
            }
        }
    }

    /// Puts links to the toolbox for those of the tools that the guest lacks.
    pub open spec fn linked(self, rootfs: Seq<char>, usr_bin: bool, applets: Seq<Seq<char>>) -> Self
        decreases applets.len(),
    {
        if applets.len() == 0 {
            self
        } else {
            let (looked, there) = self.first_there(rootfs, applet_paths(applets[0]));
            let next = if there is Some {
                looked
            } else {
                looked.debugfs(
                    rootfs,
                    "symlink "@ + link_path(usr_bin, applets[0]) + " "@ + GUEST_TOOLBOX@,
                ).0
            };
            next.linked(rootfs, usr_bin, applets.skip(1))
        }
    }

    /// Removes files of the guest.
    pub open spec fn stripped(self, rootfs: Seq<char>, paths: Seq<Seq<char>>) -> Self
        decreases paths.len(),
    {
        if paths.len() == 0 {
            self
        } else {
            self.remove(rootfs, paths[0]).stripped(rootfs, paths.skip(1))
        }
    }

    /// Writes the IPv6 settings.
    pub open spec fn ipv6(self, rootfs: Seq<char>) -> Self {
        self.debugfs(rootfs, "mkdir /etc/sysctl.d"@).0.put(
            rootfs,
            IPV6_SYSCTL_PATH@,
            IPV6_SYSCTL@,
        ).0
    }

    /// The accounts of the guest.
    pub open spec fn accounts(self, rootfs: Seq<char>) -> (Self, Seq<char>) {
        let staging = with_extension(rootfs, "passwd.tmp"@);
        let (dumped, result) = self.dump(rootfs, "/etc/passwd"@, staging);
        let (read, news) = if result is Ok {
            dumped.ask(Deed::ReadText { path: staging })
        } else {
            (dumped, News::Done)
        };
        (
            read.tell(Deed::Remove { path: staging }),
            match news {
                News::Text(text) => text,
                _ => Seq::empty(),
            },
        )
    }

    /// Gives root a shell.
    pub open spec fn root_shell(self, rootfs: Seq<char>, shell: Seq<char>) -> Self {
        let (read, current) = self.accounts(rootfs);
        read.put(rootfs, "/etc/passwd"@, with_root_shell(current, shell)).0
    }

    /// Writes the console of an imported guest anew.
    pub open spec fn console(self, rootfs: Seq<char>, agent: Seq<char>) -> Self {
        let (looked, imported) = self.exists_in(rootfs, "/etc/firecrab"@);
        if !imported {
            looked
        } else {
            let (a, agetty) = looked.debugfs(rootfs, "mkdir /etc/firecrab"@).0.first_there(
                rootfs,
                texts(GUEST_AGETTY_CANDIDATES@),
            );
            let (b, shell) = a.first_there(rootfs, texts(GUEST_BASH_CANDIDATES@));
            let c = match shell {
                Some(shell) => b.root_shell(rootfs, shell),
                None => b,
            };
            c.put(rootfs, "/etc/inittab"@, inittab_text(agetty)).0.put(
                rootfs,
                "/etc/firecrab/rc.boot"@,
                boot_text(agent),
            ).0.put(rootfs, "/etc/firecrab/rc.console"@, console_text()).0.set_mode(
                rootfs,
                "/etc/firecrab/rc.boot"@,
                "0100755"@,
            ).set_mode(rootfs, "/etc/firecrab/rc.console"@, "0100755"@)
        }
    }

    /// Puts the toolbox's tools on the path of an imported guest, where it lacks them.
    pub open spec fn toolbox(self, rootfs: Seq<char>) -> Self {
        let (looked, there) = self.exists_in(rootfs, GUEST_TOOLBOX@);
        if !there {
            looked
        } else {
            let (next, usr_bin) = looked.exists_in(rootfs, "/usr/bin"@);
            let next = if usr_bin {
                next
            } else {
                next.debugfs(rootfs, "mkdir /bin"@).0
            };
            next.linked(rootfs, usr_bin, texts(PATH_APPLETS@))
        }
    }

    /// Whether a file of the guest holds a text.
    pub open spec fn file_contains(
        self,
        rootfs: Seq<char>,
        guest_path: Seq<char>,
        needle: Seq<char>,
    ) -> (Self, bool) {
        let (looked, there) = self.exists_in(rootfs, guest_path);
        if !there {
            (looked, false)
        } else {
            let staging = with_extension(rootfs, "systemctl.tmp"@);
            let (dumped, result) = looked.dump(rootfs, guest_path, staging);
            let (read, news) = if result is Ok {
                dumped.ask(Deed::ReadText { path: staging })
            } else {
                (dumped, News::Done)
            };
            (
                read.tell(Deed::Remove { path: staging }),
                match news {
                    News::Text(text) => contains(text, needle),
                    _ => false,
                },
            )
        }
    }

    /// Removes a file of the guest where it holds a text.
    pub open spec fn remove_marked(
        self,
        rootfs: Seq<char>,
        guest_path: Seq<char>,
        needle: Seq<char>,
    ) -> Self {
        let (looked, marked) = self.file_contains(rootfs, guest_path, needle);
        if marked {
            looked.remove(rootfs, guest_path)
        } else {
            looked
        }
    }

    /// Removes the project's own stand-in for `systemctl`, and leaves a real one alone.
    pub open spec fn no_systemctl(self, rootfs: Seq<char>) -> Self {
        self.remove(rootfs, "/usr/local/bin/systemctl"@).remove_marked(
            rootfs,
            "/bin/systemctl"@,
            "Firecrab systemctl"@,
        ).remove_marked(rootfs, "/usr/bin/systemctl"@, "Firecrab systemctl"@)
    }

    /// The script of the guest's service with the VM's variables.
    pub open spec fn env_script(self, rootfs: Seq<char>) -> (Self, Result<Seq<char>, Trouble>) {
        let staging = with_extension(rootfs, "vm-env.tmp"@);
        let (dumped, result) = self.tell(Deed::Remove { path: staging }).dump(
            rootfs,
            GUEST_VM_SERVICE@,
            staging,
        );
        let (read, script) = match result {
            Err(trouble) => (dumped, Err(trouble)),
            Ok(_) => {
                let (read, news) = dumped.ask(Deed::ReadText { path: staging });
                match news {
                    News::Text(text) => {
                        let (put, news) = read.ask(Deed::RewriteEnv { script: text });
                        (
                            put,
                            Ok(
                                match news {
                                    News::Text(text) => text,
                                    _ => text,
                                },
                            ),
                        )
                    },
                    _ => (
                        read,
                        Err(
                            Trouble::Specialize {
                                path: rootfs,
                                detail: "failed to read "@ + GUEST_VM_SERVICE@ + ": "@
                                    + news.reason(),
                            },
                        ),
                    ),
                }
            },
        };
        (read.tell(Deed::Remove { path: staging }), script)
    }

    /// Gives the guest's service the VM's variables, where the guest has one.
    pub open spec fn apply_env(self, rootfs: Seq<char>, profile: Profile) -> (
        Self,
        Result<(), Trouble>,
    ) {
        let (looked, there) = self.exists_in(rootfs, GUEST_VM_SERVICE@);
        if !there {
            (looked, Ok(()))
        } else {
            let (put, result) = looked.put(rootfs, profile.env_path, profile.env_file);
            if result is Err {
                (put, result)
            } else {
                let (read, script) = put.set_mode(
                    rootfs,
                    profile.env_path,
                    "0100644"@,
                ).env_script(rootfs);
                match script {
                    Err(trouble) => (read, Err(trouble)),
                    Ok(script) => {
                        let (put, result) = read.put(rootfs, GUEST_VM_SERVICE@, script);
                        if result is Err {
                            (put, result)
                        } else {
                            (put.set_mode(rootfs, GUEST_VM_SERVICE@, "0100755"@), Ok(()))
                        }
                    },
                }
            }
        }
    }

    /// Makes a link in the guest, and looks whether it is there.
    pub open spec fn link(self, rootfs: Seq<char>, link: Seq<char>, target: Seq<char>) -> (
        Self,
        Result<(), Trouble>,
    ) {
        let (next, there) = self.remove(rootfs, link).debugfs(
            rootfs,
            "symlink "@ + link + " "@ + target,
        ).0.exists_in(rootfs, link);
        (
            next,
            if there {
                Ok(())
            } else {
                Err(
                    Trouble::Specialize {
                        path: rootfs,
                        detail: "debugfs failed to create symlink "@ + link + " → "@ + target,
                    },
                )
            },
        )
    }

    /// Makes a link in the guest where its directory is there, and where `missing` asks for
    /// that, where the link is not.
    pub open spec fn link_in(
        self,
        rootfs: Seq<char>,
        directory: Seq<char>,
        missing: bool,
        link: Seq<char>,
        target: Seq<char>,
    ) -> (Self, Result<(), Trouble>) {
        let (looked, there) = self.exists_in(rootfs, directory);
        if !there {
            (looked, Ok(()))
        } else if missing {
            let (looked, there) = looked.exists_in(rootfs, link);
            if there {
                (looked, Ok(()))
            } else {
                looked.link(rootfs, link, target)
            }
        } else {
            looked.link(rootfs, link, target)
        }
    }

    /// Enables the readiness unit of a guest that has the script, where it is not enabled.
    pub open spec fn enable_unit(self, rootfs: Seq<char>) -> (Self, Result<(), Trouble>) {
        let (looked, systemd) = self.exists_in(rootfs, "/etc/systemd/system"@);
        if !systemd {
            (looked, Ok(()))
        } else {
            let (looked, there) = looked.exists_in(rootfs, NETWORK_READY_UNIT_PATH@);
            let (put, result) = if there {
                (looked, Ok(()))
            } else {
                looked.put(rootfs, NETWORK_READY_UNIT_PATH@, NETWORK_READY_UNIT@)
            };
            if result is Err {
                (put, result)
            } else {
                put.link_in(
                    rootfs,
                    "/etc/systemd/system/multi-user.target.wants"@,
                    true,
                    NETWORK_READY_UNIT_WANTS_PATH@,
                    NETWORK_READY_UNIT_PATH@,
                )
            }
        }
    }

    /// Enables the readiness service of a guest that has it, where it is not enabled.
    pub open spec fn enable_service(self, rootfs: Seq<char>) -> (Self, Result<(), Trouble>) {
        self.link_in(
            rootfs,
            "/etc/runlevels/default"@,
            true,
            NETWORK_READY_OPENRC_RUNLEVEL_PATH@,
            NETWORK_READY_OPENRC_PATH@,
        )
    }

    /// Whether the guest has a directory for the readiness script; one is made where its
    /// parent is there.
    pub open spec fn bin_dir(self, rootfs: Seq<char>) -> (Self, Result<bool, Trouble>) {
        let (looked, there) = self.exists_in(rootfs, "/usr/local/sbin"@);
        if there {
            (looked, Ok(true))
        } else {
            let (looked, there) = looked.exists_in(rootfs, "/usr/local"@);
            if !there {
                (looked, Ok(false))
            } else {
                let (looked, there) = looked.debugfs(
                    rootfs,
                    "mkdir /usr/local/sbin"@,
                ).0.exists_in(rootfs, "/usr/local/sbin"@);
                (
                    looked,
                    if there {
                        Ok(true)
                    } else {
                        Err(
                            Trouble::Specialize {
                                path: rootfs,
                                detail: "debugfs failed to create /usr/local/sbin for network-ready fallback"@,
                            },
                        )
                    },
                )
            }
        }
    }

    /// Writes an executable text of the guest.
    pub open spec fn program(self, rootfs: Seq<char>, guest_path: Seq<char>, text: Seq<char>) -> (
        Self,
        Result<(), Trouble>,
    ) {
        let (put, result) = self.put(rootfs, guest_path, text);
        if result is Err {
            (put, result)
        } else {
            (put.set_mode(rootfs, guest_path, "0100755"@), Ok(()))
        }
    }

    /// Installs the unit of the readiness script, where the guest has systemd.
    pub open spec fn fallback_unit(self, rootfs: Seq<char>) -> (Self, Result<(), Trouble>) {
        let (looked, systemd) = self.exists_in(rootfs, "/etc/systemd/system"@);
        if !systemd {
            (looked, Ok(()))
        } else {
            let (put, result) = looked.put(
                rootfs,
                NETWORK_READY_UNIT_PATH@,
                NETWORK_READY_UNIT@,
            );
            if result is Err {
                (put, result)
            } else {
                put.link_in(
                    rootfs,
                    "/etc/systemd/system/multi-user.target.wants"@,
                    false,
                    NETWORK_READY_UNIT_WANTS_PATH@,
                    NETWORK_READY_UNIT_PATH@,
                )
            }
        }
    }

    /// Installs the readiness service, where the guest has OpenRC.
    pub open spec fn fallback_service(self, rootfs: Seq<char>, profile: Profile) -> (
        Self,
        Result<(), Trouble>,
    ) {
        let (looked, openrc) = self.exists_in(rootfs, "/etc/init.d"@);
        if !openrc {
            (looked, Ok(()))
        } else {
            let (put, result) = looked.program(
                rootfs,
                NETWORK_READY_OPENRC_PATH@,
                profile.service(),
            );
            if result is Err {
                (put, result)
            } else {
                put.link_in(
                    rootfs,
                    "/etc/runlevels/default"@,
                    false,
                    NETWORK_READY_OPENRC_RUNLEVEL_PATH@,
                    NETWORK_READY_OPENRC_PATH@,
                )
            }
        }
    }

    /// Installs the readiness script on a guest that has neither it nor the service.
    pub open spec fn fallback(self, rootfs: Seq<char>, profile: Profile) -> (
        Self,
        Result<(), Trouble>,
    ) {
        let (looked, usable) = self.bin_dir(rootfs);
        match usable {
            Err(trouble) => (looked, Err(trouble)),
            Ok(false) => (looked, Ok(())),
            Ok(true) => {
                let (put, result) = looked.program(
                    rootfs,
                    NETWORK_READY_SCRIPT_PATH@,
                    profile.script(),
                );
                if result is Err {
                    (put, result)
                } else {
                    let (unit, result) = put.fallback_unit(rootfs);
                    if result is Err {
                        (unit, result)
                    } else {
                        unit.fallback_service(rootfs, profile)
                    }
                }
            },
        }
    }

    /// Writes the readiness script anew where the guest has it, and enables it.
    pub open spec fn patch_script(self, rootfs: Seq<char>, profile: Profile) -> (
        Self,
        Result<bool, Trouble>,
    ) {
        let (looked, there) = self.exists_in(rootfs, NETWORK_READY_SCRIPT_PATH@);
        if !there {
            (looked, Ok(false))
        } else {
            let (put, result) = looked.program(
                rootfs,
                NETWORK_READY_SCRIPT_PATH@,
                profile.script(),
            );
            match result {
                Err(trouble) => (put, Err(trouble)),
                Ok(_) => {
                    let (enabled, result) = put.enable_unit(rootfs);
                    (
                        enabled,
                        match result {
                            Err(trouble) => Err(trouble),
                            Ok(_) => Ok(true),
                        },
                    )
                },
            }
        }
    }

    /// Writes the readiness service anew where the guest has it, and enables it.
    pub open spec fn patch_service(self, rootfs: Seq<char>, profile: Profile) -> (
        Self,
        Result<bool, Trouble>,
    ) {
        let (looked, there) = self.exists_in(rootfs, NETWORK_READY_OPENRC_PATH@);
        if !there {
            (looked, Ok(false))
        } else {
            let (put, result) = looked.program(
                rootfs,
                NETWORK_READY_OPENRC_PATH@,
                profile.service(),
            );
            match result {
                Err(trouble) => (put, Err(trouble)),
                Ok(_) => {
                    let (enabled, result) = put.enable_service(rootfs);
                    (
                        enabled,
                        match result {
                            Err(trouble) => Err(trouble),
                            Ok(_) => Ok(true),
                        },
                    )
                },
            }
        }
    }

    /// Has the guest tell the host that its network is up.
    pub open spec fn network_ready(self, rootfs: Seq<char>, profile: Profile) -> (
        Self,
        Result<(), Trouble>,
    ) {
        let (scripted, script) = self.patch_script(rootfs, profile);
        match script {
            Err(trouble) => (scripted, Err(trouble)),
            Ok(script) => {
                let (served, service) = scripted.patch_service(rootfs, profile);
                match service {
                    Err(trouble) => (served, Err(trouble)),
                    Ok(service) => if script || service {
                        (served, Ok(()))
                    } else {
                        served.fallback(rootfs, profile)
                    },
                }
            },
        }
    }

    /// What a guest may do without: profile, locale, console, IPv6 settings, tools.
    pub open spec fn comforts(self, rootfs: Seq<char>, profile: Profile) -> Self {
        self.debugfs(rootfs, "mkdir /etc/profile.d"@).0.debugfs(
            rootfs,
            "mkdir /etc/default"@,
        ).0.put(rootfs, "/etc/profile.d/firecrab-welcome.sh"@, FIRECRAB_WELCOME_PROFILE@).0.put(
            rootfs,
            "/etc/profile.d/firecrab-locale.sh"@,
            FIRECRAB_LOCALE_PROFILE@,
        ).0.put(rootfs, "/etc/default/locale"@, FIRECRAB_LOCALE_CONF@).0.put(
            rootfs,
            "/etc/locale.conf"@,
            FIRECRAB_LOCALE_CONF@,
        ).0.console(rootfs, profile.agent).ipv6(rootfs).toolbox(rootfs).no_systemctl(rootfs)
    }

    /// Gives the disk the VM's identity: first the filesystem is recovered, and where that
    /// fails nothing is written.
    pub open spec fn specialize(self, rootfs: Seq<char>, profile: Profile) -> (
        Self,
        Result<(), Trouble>,
    ) {
        let (recovered, result) = self.recover(rootfs);
        if result is Err {
            (recovered, result)
        } else {
            let (named, result) = recovered.put(
                rootfs,
                "/etc/hostname"@,
                profile.hostname + "\n"@,
            );
            if result is Err {
                (named, result)
            } else {
                let (greeted, result) = named.put(rootfs, "/etc/motd"@, profile.motd);
                if result is Err {
                    (greeted, result)
                } else {
                    let (applied, result) = greeted.comforts(rootfs, profile).apply_env(
                        rootfs,
                        profile,
                    );
                    if result is Err {
                        (applied, result)
                    } else {
                        applied.stripped(rootfs, texts(STRIP_PATHS@)).network_ready(
                            rootfs,
                            profile,
                        )
                    }
                }
            }
        }
    }

    /// Copies a program of the host into a guest that can load it: one that has a loader for
    /// it. What fails is left undone.
    pub open spec fn fastfetch(
        self,
        rootfs: Seq<char>,
        loaders: Seq<Seq<char>>,
        guest_path: Seq<char>,
        program: Option<Seq<u8>>,
    ) -> Self {
        let (looked, loader) = self.first_there(rootfs, loaders);
        if loader is None || program is None {
            looked
        } else {
            let (put, result) = looked.write(rootfs, guest_path, program->0);
            if result is Ok {
                put.set_mode(rootfs, guest_path, "0100755"@)
            } else {
                put
            }
        }
    }
}

impl Steps<Task, Answer> {
    fn put(&mut self, rootfs: &str, guest_path: &str, text: &str) -> (r: Result<(), RootfsError>)
        requires
            old(self).wf(),
        ensures
            final(self).wf(),
            (final(self)@, outcome(r)) == old(self)@.put(rootfs@, guest_path@, text@),
    {
        self.write_into_image(rootfs, guest_path, text.as_bytes_vec())
    }

    fn first_there<'a>(&mut self, rootfs: &str, candidates: &[&'a str]) -> (r: Option<&'a str>)
        requires
            old(self).wf(),
        ensures
            final(self).wf(),
            (final(self)@, opt_text(r)) == old(self)@.first_there(rootfs@, texts(candidates@)),
    {
        let ghost all = texts(candidates@);
        let ghost start = self@;
        let mut i: usize = 0;
        assert(all.skip(0) =~= all);
        while i < candidates.len()
            invariant
                self.wf(),
                i <= candidates@.len(),
                all == texts(candidates@),
                start == old(self)@,
                self@.first_there(rootfs@, all.skip(i as int)) == start.first_there(rootfs@, all),
            decreases candidates@.len() - i,
        {
            assert(all.skip(i as int)[0] == candidates@[i as int]@);
            assert(all.skip(i as int).skip(1) =~= all.skip(i + 1));
            if self.guest_path_exists(rootfs, candidates[i]) {
                return Some(candidates[i]);
            }
            i += 1;
        }
        None
    }

    fn any_there(&mut self, rootfs: &str, candidates: &[String]) -> (r: bool)
        requires
            old(self).wf(),
        ensures
            final(self).wf(),
            final(self)@ == old(self)@.first_there(rootfs@, views(candidates@)).0,
            r == (old(self)@.first_there(rootfs@, views(candidates@)).1 is Some),
    {
        let ghost all = views(candidates@);
        let ghost start = self@;
        let mut i: usize = 0;
        assert(all.skip(0) =~= all);
        while i < candidates.len()
            invariant
                self.wf(),
                i <= candidates@.len(),
                all == views(candidates@),
                start == old(self)@,
                self@.first_there(rootfs@, all.skip(i as int)) == start.first_there(rootfs@, all),
            decreases candidates@.len() - i,
        {
            assert(all.skip(i as int)[0] == candidates@[i as int]@);
            assert(all.skip(i as int).skip(1) =~= all.skip(i + 1));
            if self.guest_path_exists(rootfs, &candidates[i]) {
                return true;
            }
            i += 1;
        }
        false
    }

    fn install_ipv6_sysctl(&mut self, rootfs: &str)
        requires
            old(self).wf(),
        ensures
            final(self).wf(),
            final(self)@ == old(self)@.ipv6(rootfs@),
    {
        let _ = self.run_debugfs(rootfs, "mkdir /etc/sysctl.d");
        let _ = self.put(rootfs, IPV6_SYSCTL_PATH, &ipv6_sysctl_conf());
    }

    fn set_image_root_shell(&mut self, rootfs: &str, shell: &str)
        requires
            old(self).wf(),
        ensures
            final(self).wf(),
            final(self)@ == old(self)@.root_shell(rootfs@, shell@),
    {
        let staging = path_with_extension(rootfs, "passwd.tmp");
        let mut current = String::new();
        assert(current@ =~= Seq::empty());
        if self.dump_from_image(rootfs, "/etc/passwd", &staging).is_ok() {
            if let Answer::Text(text) = self.ask(Task::ReadText { path: staging.clone() }) {
                current = text;
            }
        }
        self.tell(Task::Remove { path: staging });
        let _ = self.put(rootfs, "/etc/passwd", &rewrite_root_shell(&current, shell));
    }

    fn patch_oci_console(&mut self, rootfs: &str, agent: &str)
        requires
            old(self).wf(),
        ensures
            final(self).wf(),
            final(self)@ == old(self)@.console(rootfs@, agent@),
    {
        if !self.guest_path_exists(rootfs, "/etc/firecrab") {
            return;
        }
        let _ = self.run_debugfs(rootfs, "mkdir /etc/firecrab");
        let agetty = self.first_there(rootfs, &GUEST_AGETTY_CANDIDATES);
        if let Some(shell) = self.first_there(rootfs, &GUEST_BASH_CANDIDATES) {
            self.set_image_root_shell(rootfs, shell);
        }
        let _ = self.put(rootfs, "/etc/inittab", &inittab(agetty));
        let _ = self.put(rootfs, "/etc/firecrab/rc.boot", &boot_script(agent));
        let _ = self.put(rootfs, "/etc/firecrab/rc.console", &console_script());
        self.set_guest_file_mode(rootfs, "/etc/firecrab/rc.boot", "0100755");
        self.set_guest_file_mode(rootfs, "/etc/firecrab/rc.console", "0100755");
    }

    fn install_guest_toolbox_commands(&mut self, rootfs: &str)
        requires
            old(self).wf(),
        ensures
            final(self).wf(),
            final(self)@ == old(self)@.toolbox(rootfs@),
    {
        if !self.guest_path_exists(rootfs, GUEST_TOOLBOX) {
            return;
        }
        let usr_bin = self.guest_path_exists(rootfs, "/usr/bin");
        if !usr_bin {
            let _ = self.run_debugfs(rootfs, "mkdir /bin");
        }
        let ghost all = texts(PATH_APPLETS@);
        let ghost start = self@;
        let mut i: usize = 0;
        assert(all.skip(0) =~= all);
        while i < 8
            invariant
                self.wf(),
                i <= 8,
                all == texts(PATH_APPLETS@),
                self@.linked(rootfs@, usr_bin, all.skip(i as int)) == start.linked(
                    rootfs@,
                    usr_bin,
                    all,
                ),
            decreases 8 - i,
        {
            let applet = PATH_APPLETS[i];
            assert(all.skip(i as int)[0] == applet@);
            assert(all.skip(i as int).skip(1) =~= all.skip(i + 1));
            let candidates = applet_places(applet);
            if !self.any_there(rootfs, &candidates) {
                let _ = self.run_debugfs(
                    rootfs,
                    &"symlink ".to_owned().concat(&applet_link_path(usr_bin, applet)).concat(
                        " ",
                    ).concat(GUEST_TOOLBOX),
                );
            }
            i += 1;
        }
        assert(all.skip(8).len() == 0);
    }

    fn guest_file_contains(&mut self, rootfs: &str, guest_path: &str, needle: &str) -> (r: bool)
        requires
            old(self).wf(),
        ensures
            final(self).wf(),
            (final(self)@, r) == old(self)@.file_contains(rootfs@, guest_path@, needle@),
    {
        if !self.guest_path_exists(rootfs, guest_path) {
            return false;
        }
        let staging = path_with_extension(rootfs, "systemctl.tmp");
        let mut found = false;
        if self.dump_from_image(rootfs, guest_path, &staging).is_ok() {
            if let Answer::Text(text) = self.ask(Task::ReadText { path: staging.clone() }) {
                found = has(&text, needle);
            }
        }
        self.tell(Task::Remove { path: staging });
        found
    }

    fn remove_injected_systemctl(&mut self, rootfs: &str)
        requires
            old(self).wf(),
        ensures
            final(self).wf(),
            final(self)@ == old(self)@.no_systemctl(rootfs@),
    {
        self.remove_from_image(rootfs, "/usr/local/bin/systemctl");
        if self.guest_file_contains(rootfs, "/bin/systemctl", "Firecrab systemctl") {
            self.remove_from_image(rootfs, "/bin/systemctl");
        }
        if self.guest_file_contains(rootfs, "/usr/bin/systemctl", "Firecrab systemctl") {
            self.remove_from_image(rootfs, "/usr/bin/systemctl");
        }
    }

    fn env_script(&mut self, rootfs: &str) -> (r: Result<String, RootfsError>)
        requires
            old(self).wf(),
        ensures
            final(self).wf(),
            (
                final(self)@,
                match r {
                    Ok(script) => Ok::<Seq<char>, Trouble>(script@),
                    Err(e) => Err(e@),
                },
            ) == old(self)@.env_script(rootfs@),
    {
        let staging = path_with_extension(rootfs, "vm-env.tmp");
        self.tell(Task::Remove { path: staging.clone() });
        let rewritten = match self.dump_from_image(rootfs, GUEST_VM_SERVICE, &staging) {
            Err(e) => Err(e),
            Ok(_) => {
                let answer = self.ask(Task::ReadText { path: staging.clone() });
                match answer {
                    Answer::Text(text) => {
                        match self.ask(Task::RewriteEnv { script: text.clone() }) {
                            Answer::Text(script) => Ok(script),
                            _ => Ok(text),
                        }
                    },
                    _ => Err(
                        RootfsError::Specialize {
                            path: rootfs.to_owned(),
                            detail: "failed to read ".to_owned().concat(GUEST_VM_SERVICE).concat(
                                ": ",
                            ).concat(&answer.reason()),
                        },
                    ),
                }
            },
        };
        self.tell(Task::Remove { path: staging });
        rewritten
    }

    fn apply_vm_env(&mut self, rootfs: &str, profile: &GuestProfile) -> (r: Result<(), RootfsError>)
        requires
            old(self).wf(),
        ensures
            final(self).wf(),
            (final(self)@, outcome(r)) == old(self)@.apply_env(rootfs@, profile@),
    {
        if !self.guest_path_exists(rootfs, GUEST_VM_SERVICE) {
            return Ok(());
        }
        if let Err(e) = self.put(rootfs, &profile.env_path, &profile.env_file) {
            return Err(e);
        }
        self.set_guest_file_mode(rootfs, &profile.env_path, "0100644");
        let script = match self.env_script(rootfs) {
            Ok(script) => script,
            Err(e) => return Err(e),
        };
        if let Err(e) = self.put(rootfs, GUEST_VM_SERVICE, &script) {
            return Err(e);
        }
        self.set_guest_file_mode(rootfs, GUEST_VM_SERVICE, "0100755");
        Ok(())
    }

    fn ensure_symlink(&mut self, rootfs: &str, link: &str, target: &str) -> (r: Result<
        (),
        RootfsError,
    >)
        requires
            old(self).wf(),
        ensures
            final(self).wf(),
            (final(self)@, outcome(r)) == old(self)@.link(rootfs@, link@, target@),
    {
        self.remove_from_image(rootfs, link);
        let _ = self.run_debugfs(
            rootfs,
            &"symlink ".to_owned().concat(link).concat(" ").concat(target),
        );
        if !self.guest_path_exists(rootfs, link) {
            return Err(
                RootfsError::Specialize {
                    path: rootfs.to_owned(),
                    detail: "debugfs failed to create symlink ".to_owned().concat(link).concat(
                        " → ",
                    ).concat(target),
                },
            );
        }
        Ok(())
    }

    fn link_in(
        &mut self,
        rootfs: &str,
        directory: &str,
        missing: bool,
        link: &str,
        target: &str,
    ) -> (r: Result<(), RootfsError>)
        requires
            old(self).wf(),
        ensures
            final(self).wf(),
            (final(self)@, outcome(r)) == old(self)@.link_in(
                rootfs@,
                directory@,
                missing,
                link@,
                target@,
            ),
    {
        if !self.guest_path_exists(rootfs, directory) {
            return Ok(());
        }
        if missing && self.guest_path_exists(rootfs, link) {
            return Ok(());
        }
        self.ensure_symlink(rootfs, link, target)
    }

    fn ensure_network_ready_unit_enabled(&mut self, rootfs: &str) -> (r: Result<(), RootfsError>)
        requires
            old(self).wf(),
        ensures
            final(self).wf(),
            (final(self)@, outcome(r)) == old(self)@.enable_unit(rootfs@),
    {
        if !self.guest_path_exists(rootfs, "/etc/systemd/system") {
            return Ok(());
        }
        if !self.guest_path_exists(rootfs, NETWORK_READY_UNIT_PATH) {
            if let Err(e) = self.put(rootfs, NETWORK_READY_UNIT_PATH, NETWORK_READY_UNIT) {
                return Err(e);
            }
        }
        self.link_in(
            rootfs,
            "/etc/systemd/system/multi-user.target.wants",
            true,
            NETWORK_READY_UNIT_WANTS_PATH,
            NETWORK_READY_UNIT_PATH,
        )
    }

    fn ensure_network_ready_openrc_enabled(&mut self, rootfs: &str) -> (r: Result<(), RootfsError>)
        requires
            old(self).wf(),
        ensures
            final(self).wf(),
            (final(self)@, outcome(r)) == old(self)@.enable_service(rootfs@),
    {
        self.link_in(
            rootfs,
            "/etc/runlevels/default",
            true,
            NETWORK_READY_OPENRC_RUNLEVEL_PATH,
            NETWORK_READY_OPENRC_PATH,
        )
    }

    fn ensure_bin_dir(&mut self, rootfs: &str) -> (r: Result<bool, RootfsError>)
        requires
            old(self).wf(),
        ensures
            final(self).wf(),
            (
                final(self)@,
                match r {
                    Ok(usable) => Ok::<bool, Trouble>(usable),
                    Err(e) => Err(e@),
                },
            ) == old(self)@.bin_dir(rootfs@),
    {
        if self.guest_path_exists(rootfs, "/usr/local/sbin") {
            return Ok(true);
        }
        if !self.guest_path_exists(rootfs, "/usr/local") {
            return Ok(false);
        }
        let _ = self.run_debugfs(rootfs, "mkdir /usr/local/sbin");
        if !self.guest_path_exists(rootfs, "/usr/local/sbin") {
            return Err(
                RootfsError::Specialize {
                    path: rootfs.to_owned(),
                    detail:
                        "debugfs failed to create /usr/local/sbin for network-ready fallback".to_owned(),
                },
            );
        }
        Ok(true)
    }

    fn program(&mut self, rootfs: &str, guest_path: &str, text: &str) -> (r: Result<
        (),
        RootfsError,
    >)
        requires
            old(self).wf(),
        ensures
            final(self).wf(),
            (final(self)@, outcome(r)) == old(self)@.program(rootfs@, guest_path@, text@),
    {
        if let Err(e) = self.put(rootfs, guest_path, text) {
            return Err(e);
        }
        self.set_guest_file_mode(rootfs, guest_path, "0100755");
        Ok(())
    }

    fn fallback_unit(&mut self, rootfs: &str) -> (r: Result<(), RootfsError>)
        requires
            old(self).wf(),
        ensures
            final(self).wf(),
            (final(self)@, outcome(r)) == old(self)@.fallback_unit(rootfs@),
    {
        if !self.guest_path_exists(rootfs, "/etc/systemd/system") {
            return Ok(());
        }
        if let Err(e) = self.put(rootfs, NETWORK_READY_UNIT_PATH, NETWORK_READY_UNIT) {
            return Err(e);
        }
        self.link_in(
            rootfs,
            "/etc/systemd/system/multi-user.target.wants",
            false,
            NETWORK_READY_UNIT_WANTS_PATH,
            NETWORK_READY_UNIT_PATH,
        )
    }

    fn fallback_service(&mut self, rootfs: &str, profile: &GuestProfile) -> (r: Result<
        (),
        RootfsError,
    >)
        requires
            old(self).wf(),
        ensures
            final(self).wf(),
            (final(self)@, outcome(r)) == old(self)@.fallback_service(rootfs@, profile@),
    {
        if !self.guest_path_exists(rootfs, "/etc/init.d") {
            return Ok(());
        }
        if let Err(e) = self.program(
            rootfs,
            NETWORK_READY_OPENRC_PATH,
            &network_ready_openrc(&profile.kick_openrc),
        ) {
            return Err(e);
        }
        self.link_in(
            rootfs,
            "/etc/runlevels/default",
            false,
            NETWORK_READY_OPENRC_RUNLEVEL_PATH,
            NETWORK_READY_OPENRC_PATH,
        )
    }

    fn install_network_ready_fallback(&mut self, rootfs: &str, profile: &GuestProfile) -> (r: Result<
        (),
        RootfsError,
    >)
        requires
            old(self).wf(),
        ensures
            final(self).wf(),
            (final(self)@, outcome(r)) == old(self)@.fallback(rootfs@, profile@),
    {
        match self.ensure_bin_dir(rootfs) {
            Err(e) => return Err(e),
            Ok(usable) => if !usable {
                return Ok(());
            },
        }
        if let Err(e) = self.program(
            rootfs,
            NETWORK_READY_SCRIPT_PATH,
            &network_ready_script(&profile.kick_systemd),
        ) {
            return Err(e);
        }
        if let Err(e) = self.fallback_unit(rootfs) {
            return Err(e);
        }
        self.fallback_service(rootfs, profile)
    }

    fn patch_network_ready_script(&mut self, rootfs: &str, profile: &GuestProfile) -> (r: Result<
        (),
        RootfsError,
    >)
        requires
            old(self).wf(),
        ensures
            final(self).wf(),
            (final(self)@, outcome(r)) == old(self)@.network_ready(rootfs@, profile@),
    {
        let has_systemd_script = self.guest_path_exists(rootfs, NETWORK_READY_SCRIPT_PATH);
        if has_systemd_script {
            if let Err(e) = self.program(
                rootfs,
                NETWORK_READY_SCRIPT_PATH,
                &network_ready_script(&profile.kick_systemd),
            ) {
                return Err(e);
            }
            if let Err(e) = self.ensure_network_ready_unit_enabled(rootfs) {
                return Err(e);
            }
        }
        let has_openrc_script = self.guest_path_exists(rootfs, NETWORK_READY_OPENRC_PATH);
        if has_openrc_script {
            if let Err(e) = self.program(
                rootfs,
                NETWORK_READY_OPENRC_PATH,
                &network_ready_openrc(&profile.kick_openrc),
            ) {
                return Err(e);
            }
            if let Err(e) = self.ensure_network_ready_openrc_enabled(rootfs) {
                return Err(e);
            }
        }
        if !has_systemd_script && !has_openrc_script {
            return self.install_network_ready_fallback(rootfs, profile);
        }
        Ok(())
    }

    fn add_comforts(&mut self, rootfs: &str, profile: &GuestProfile)
        requires
            old(self).wf(),
        ensures
            final(self).wf(),
            final(self)@ == old(self)@.comforts(rootfs@, profile@),
    {
        let _ = self.run_debugfs(rootfs, "mkdir /etc/profile.d");
        let _ = self.run_debugfs(rootfs, "mkdir /etc/default");
        let _ = self.put(
            rootfs,
            "/etc/profile.d/firecrab-welcome.sh",
            FIRECRAB_WELCOME_PROFILE,
        );
        let _ = self.put(rootfs, "/etc/profile.d/firecrab-locale.sh", FIRECRAB_LOCALE_PROFILE);
        let _ = self.put(rootfs, "/etc/default/locale", FIRECRAB_LOCALE_CONF);
        let _ = self.put(rootfs, "/etc/locale.conf", FIRECRAB_LOCALE_CONF);
        self.patch_oci_console(rootfs, &profile.agent);
        self.install_ipv6_sysctl(rootfs);
        self.install_guest_toolbox_commands(rootfs);
        self.remove_injected_systemctl(rootfs);
    }

    fn strip(&mut self, rootfs: &str)
        requires
            old(self).wf(),
        ensures
            final(self).wf(),
            final(self)@ == old(self)@.stripped(rootfs@, texts(STRIP_PATHS@)),
    {
        let ghost all = texts(STRIP_PATHS@);
        let ghost start = self@;
        let mut i: usize = 0;
        assert(all.skip(0) =~= all);
        while i < 10
            invariant
                self.wf(),
                i <= 10,
                all == texts(STRIP_PATHS@),
                self@.stripped(rootfs@, all.skip(i as int)) == start.stripped(rootfs@, all),
            decreases 10 - i,
        {
            assert(all.skip(i as int)[0] == STRIP_PATHS[i as int]@);
            assert(all.skip(i as int).skip(1) =~= all.skip(i + 1));
            self.remove_from_image(rootfs, STRIP_PATHS[i]);
            i += 1;
        }
        assert(all.skip(10).len() == 0);
    }

    fn specialize(&mut self, rootfs: &str, profile: &GuestProfile) -> (r: Result<(), RootfsError>)
        requires
            old(self).wf(),
        ensures
            final(self).wf(),
            (final(self)@, outcome(r)) == old(self)@.specialize(rootfs@, profile@),
    {
        if let Err(e) = self.recover_before_specialization(rootfs) {
            return Err(e);
        }
        if let Err(e) = self.put(
            rootfs,
            "/etc/hostname",
            &profile.hostname.clone().concat("\n"),
        ) {
            return Err(e);
        }
        if let Err(e) = self.put(rootfs, "/etc/motd", &profile.motd) {
            return Err(e);
        }
        self.add_comforts(rootfs, profile);
        if let Err(e) = self.apply_vm_env(rootfs, profile) {
            return Err(e);
        }
        self.strip(rootfs);
        self.patch_network_ready_script(rootfs, profile)
    }
}

fn applet_places(applet: &str) -> (r: Vec<String>)
    ensures
        views(r@) == applet_paths(applet@),
{
    let mut out: Vec<String> = Vec::new();
    let mut i: usize = 0;
    while i < 6
        invariant
            i <= 6,
            out@.len() == i,
            forall|j: int| 0 <= j < i ==> (#[trigger] out@[j])@ == applet_paths(applet@)[j],
        decreases 6 - i,
    {
        out.push(PATH_LOOKUP_DIRS[i].to_owned().concat("/").concat(applet));
        i += 1;
    }
    assert(views(out@) =~= applet_paths(applet@));
    out
}

/// Gives the disk of a VM the VM's identity: its name, the banner, the variables of its
/// service, no keys of the template's, and a script that tells the host when its network is
/// up. It may be done again on the same disk.
pub fn specialize_guest(rootfs: &str, profile: &GuestProfile, answers: Vec<Answer>) -> (r: Progress<
    (),
>)
    ensures
        r.stands() == stand(fresh(seen(answers@)).specialize(rootfs@, profile@)),
{
    let mut steps = Steps::new(answers);
    let result = steps.specialize(rootfs, profile);
    steps.finish(result)
}

/// Copies a file of the guest to the host.
pub fn dump_from_image(rootfs: &str, guest_path: &str, dest: &str, answers: Vec<Answer>) -> (r:
    Progress<()>)
    ensures
        r.stands() == stand(fresh(seen(answers@)).dump(rootfs@, guest_path@, dest@)),
{
    let mut steps = Steps::new(answers);
    let result = steps.dump_from_image(rootfs, guest_path, dest);
    steps.finish(result)
}

/// Writes a file of the guest, in place of what was there.
pub fn write_into_image(rootfs: &str, guest_path: &str, content: Vec<u8>, answers: Vec<Answer>) -> (r:
    Progress<()>)
    ensures
        r.stands() == stand(fresh(seen(answers@)).write(rootfs@, guest_path@, content@)),
{
    let mut steps = Steps::new(answers);
    let result = steps.write_into_image(rootfs, guest_path, content);
    steps.finish(result)
}

/// Copies a program of the host into a guest that can load it; `program` is its bytes where
/// they could be read, and `loaders` are the places of the loaders that would do.
pub fn install_guest_fastfetch(
    rootfs: &str,
    loaders: &[&str],
    guest_path: &str,
    program: Option<Vec<u8>>,
    answers: Vec<Answer>,
) -> (r: Progress<()>)
    ensures
        r.stands() == stand(
            (
                fresh(seen(answers@)).fastfetch(
                    rootfs@,
                    texts(loaders@),
                    guest_path@,
                    match program {
                        Some(bytes) => Some(bytes@),
                        None => None,
                    },
                ),
                Ok::<(), Trouble>(()),
            ),
        ),
{
    let mut steps = Steps::new(answers);
    if let Some(_) = steps.first_there(rootfs, loaders) {
        if let Some(bytes) = program {
            if steps.write_into_image(rootfs, guest_path, bytes).is_ok() {
                steps.set_guest_file_mode(rootfs, guest_path, "0100755");
            }
        }
    }
    steps.finish(Ok(()))
}

} // verus!
