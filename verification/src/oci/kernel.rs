//! The kernel that an imported container tree boots under: pinned by its digest, kept in
//! a cache below the image root, and verified each time that it is used.

use vstd::prelude::*;

use super::ResolveError;
#[allow(unused_imports)]
use super::archive::{
    archived_bytes, archived_path, bytes_of, calm, inflated, listing, long_map, over_at,
};
use super::archive::{inflate, long_maps, member_bytes, member_path, runs_over};
#[allow(unused_imports)]
use super::catalog::every_offered_kernel_is_sound;
#[allow(unused_imports)]
use super::Refusal;
#[allow(unused_imports)]
use crate::digest::{is_pin, pin};
use crate::digest::{is_pinned_digest, pin_of};
#[allow(unused_imports)]
use crate::files::{holds, reads};
use crate::path;
use crate::templates::{kernel_architecture, Architecture, KernelFormat};
#[allow(unused_imports)]
use crate::templates::kernel_format;
#[allow(unused_imports)]
use crate::text::{contains, decimal, opt_text, opt_view, quoted_text, replace, trim, trim_end_of};
use crate::text::{decimal_of, quoted, replaced, same, trimmed, trimmed_end_of};

verus! {

/// The variable that names a kernel on this host to use in place of the registry's.
pub const KERNEL_PATH_ENV: &'static str = "FIRECRAB_OCI_KERNEL_PATH";

/// The most bytes of a package.
pub const PACKAGE_MAX_BYTES: u64 = 536870912;

/// The most bytes of a kernel.
pub const KERNEL_MAX_BYTES: u64 = 268435456;

/// The command line of a kernel on x86_64.
pub const X86_64_BOOT_ARGS: &'static str = "console=ttyS0 reboot=k panic=1 pci=off root=/dev/vda rw";

/// The command line of a kernel on aarch64.
pub const AARCH64_BOOT_ARGS: &'static str =
    "keep_bootcon console=ttyS0 reboot=k panic=1 pci=off root=/dev/vda rw";

/// The kernel releases that can be installed, the newest first. A branch, that is a major
/// and a minor number, keeps its three newest.
pub const RELEASES: [(u64, u64, u64); 4] = [(7, 2, 2), (7, 1, 12), (7, 1, 9), (7, 1, 8)];

/// The digests of the packages for x86_64.
pub const X86_64_PACKAGES: [&'static str; 4] = [
    "sha256:716d7bcfcf9118a76d0c9f0b7ab06ba167f78b77cb16f928612809c75ebeffae",
    "sha256:b4666cdc2ded25c6e929c9b4a4d4bcad0bff58c6fcae831d9514d17819fac31e",
    "sha256:fd058e64d2173b3911ad09a15aa6bcf15531941254ce44ba6e935b876662ba65",
    "sha256:eb2efc87a8b64b9bcf5c4b7365193c578e6cf203c4773060ec157d6f34c11f53",
];

/// The digests of the kernels for x86_64.
pub const X86_64_IMAGES: [&'static str; 4] = [
    "sha256:351b23784e5e53de5af970ff6af7a074a916a55327ff802645f3583b39f3a4f1",
    "sha256:004c3031dfcc2deec974b55714a2ed1052903662531e8df2a3cb3380bda5674b",
    "sha256:079d2149a9378f5705da46232e99886187fecdd5517428d2c294b6bd1e0dca6b",
    "sha256:1d693ebb340ee418127aacf679080671679e455302a8f89ff8d4a45b6d293cdb",
];

/// The digests of the packages for aarch64.
pub const AARCH64_PACKAGES: [&'static str; 4] = [
    "sha256:885550806de246892df6f08b6d37a3062ac987228729ee50b9421d5caa98621f",
    "sha256:3cdf98523c4688ba6061cb025394931c696e67988d8367280639941f8a833c48",
    "sha256:3a8576656d45eb051874a4b1cf4b8838d54d96aa268bc53706118e0bbeb727f7",
    "sha256:bddbe93f83fc3180a23c1c55a0a40946e5906592ec6331969bd64d68a302a507",
];

/// The digests of the kernels for aarch64.
pub const AARCH64_IMAGES: [&'static str; 4] = [
    "sha256:f3acb729ded8213e4b157fd80746f6034cc4994888f73b82b1e34cea5813dbc0",
    "sha256:6d6205c7dccbadcd74fa0bf84082af2f13bd8492d7a489ee0e2a6891c00c10bd",
    "sha256:6d60d06429aa5e244cc5a0eb60383a97fde61f4aa40453d5cc6fecb59a64b58f",
    "sha256:f1ded792a87f2b2d798566d22485fe73367dc8f348670827638f1a6b43375a44",
];

/// A kernel that this release trusts.
#[derive(Debug, PartialEq, Eq)]
pub struct PinnedKernel {
    /// The name of its package.
    pub alias: String,
    /// Its version.
    pub version: String,
    /// The name of the kernel's file, in the package and in the cache.
    pub image: String,
    /// The digest of the package.
    pub package_digest: String,
    /// The digest of the kernel.
    pub image_digest: String,
    /// The command line that it boots an imported tree with.
    pub boot_args: String,
}

/// [`PinnedKernel`] as contracts speak of it.
pub struct Pinned {
    pub alias: Seq<char>,
    pub version: Seq<char>,
    pub image: Seq<char>,
    pub package_digest: Seq<char>,
    pub image_digest: Seq<char>,
    pub boot_args: Seq<char>,
}

impl Pinned {
    /// Whether the kernel is named after its version, its digests are digests, and its command
    /// line boots an imported tree on the machine.
    pub open spec fn sound(self, architecture: Architecture) -> bool {
        &&& self.alias == "vmlinux-"@ + self.version
        &&& is_pin(self.package_digest) && is_pin(self.image_digest)
        &&& contains(self.boot_args, "root=/dev/vda"@)
        &&& contains(self.boot_args, "keep_bootcon"@) == (architecture is Aarch64)
    }
}

impl View for PinnedKernel {
    type V = Pinned;

    open spec fn view(&self) -> Pinned {
        Pinned {
            alias: self.alias@,
            version: self.version@,
            image: self.image@,
            package_digest: self.package_digest@,
            image_digest: self.image_digest@,
            boot_args: self.boot_args@,
        }
    }
}

/// A release as its version is written.
pub open spec fn release_text(release: (u64, u64, u64)) -> Seq<char> {
    decimal(release.0 as nat) + "."@ + decimal(release.1 as nat) + "."@ + decimal(release.2 as nat)
}

/// The `i`-th kernel that this release trusts for a machine.
pub open spec fn offered(architecture: Architecture, i: int) -> Pinned {
    let version = release_text(RELEASES[i]);
    match architecture {
        Architecture::X86_64 => Pinned {
            alias: "vmlinux-"@ + version,
            version,
            image: "vmlinux-"@ + version + "-x86_64"@,
            package_digest: X86_64_PACKAGES[i]@,
            image_digest: X86_64_IMAGES[i]@,
            boot_args: X86_64_BOOT_ARGS@,
        },
        Architecture::Aarch64 => Pinned {
            alias: "vmlinux-"@ + version,
            version,
            image: "Image-"@ + version + "-aarch64"@,
            package_digest: AARCH64_PACKAGES[i]@,
            image_digest: AARCH64_IMAGES[i]@,
            boot_args: AARCH64_BOOT_ARGS@,
        },
    }
}

/// Whether a release is newer than another one.
pub open spec fn newer(a: (u64, u64, u64), b: (u64, u64, u64)) -> bool {
    a.0 > b.0 || (a.0 == b.0 && (a.1 > b.1 || (a.1 == b.1 && a.2 > b.2)))
}

/// Whether two releases are of the same branch.
pub open spec fn same_branch(a: (u64, u64, u64), b: (u64, u64, u64)) -> bool {
    a.0 == b.0 && a.1 == b.1
}

/// The releases stand from the newest to the oldest, and no four are of one branch.
pub proof fn a_branch_keeps_its_newest_releases()
    ensures
        forall|i: int, j: int|
            #![trigger RELEASES[i], RELEASES[j]]
            0 <= i < j < RELEASES@.len() ==> newer(RELEASES[i], RELEASES[j]),
        forall|i: int, j: int, k: int, l: int|
            #![trigger RELEASES[i], RELEASES[j], RELEASES[k], RELEASES[l]]
            0 <= i < j < k < l < RELEASES@.len() ==> !(same_branch(RELEASES[i], RELEASES[j])
                && same_branch(RELEASES[j], RELEASES[k]) && same_branch(RELEASES[k], RELEASES[l])),
{
}

fn version_of(release: (u64, u64, u64)) -> (r: String)
    ensures
        r@ == release_text(release),
{
    decimal_of(release.0).concat(".").concat(&decimal_of(release.1)).concat(".").concat(
        &decimal_of(release.2),
    )
}

/// The kernels that can be installed for a machine, the newest first. The first is the one
/// that imports use.
pub fn supported_kernels(architecture: Architecture) -> (r: Vec<PinnedKernel>)
    ensures
        r@.len() == RELEASES@.len(),
        forall|i: int| 0 <= i < r@.len() ==> (#[trigger] r@[i])@ == offered(architecture, i),
        forall|i: int| 0 <= i < r@.len() ==> (#[trigger] r@[i])@.sound(architecture),
{
    proof {
        assert forall|i: int| 0 <= i < RELEASES@.len() implies (#[trigger] offered(
            architecture,
            i,
        )).sound(architecture) by {
            every_offered_kernel_is_sound(architecture, i);
        }
    }
    let mut out: Vec<PinnedKernel> = Vec::new();
    let mut i: usize = 0;
    while i < 4
        invariant
            i <= 4,
            out@.len() == i,
            forall|j: int| 0 <= j < i ==> (#[trigger] out@[j])@ == offered(architecture, j),
        decreases 4 - i,
    {
        let version = version_of(RELEASES[i]);
        let alias = "vmlinux-".to_owned().concat(&version);
        let kernel = match architecture {
            Architecture::X86_64 => PinnedKernel {
                image: "vmlinux-".to_owned().concat(&version).concat("-x86_64"),
                alias,
                version,
                package_digest: X86_64_PACKAGES[i].to_owned(),
                image_digest: X86_64_IMAGES[i].to_owned(),
                boot_args: X86_64_BOOT_ARGS.to_owned(),
            },
            Architecture::Aarch64 => PinnedKernel {
                image: "Image-".to_owned().concat(&version).concat("-aarch64"),
                alias,
                version,
                package_digest: AARCH64_PACKAGES[i].to_owned(),
                image_digest: AARCH64_IMAGES[i].to_owned(),
                boot_args: AARCH64_BOOT_ARGS.to_owned(),
            },
        };
        out.push(kernel);
        i += 1;
    }
    out
}

/// The kernel that imports use on a machine.
pub fn pinned_kernel(architecture: Architecture) -> (r: Option<PinnedKernel>)
    ensures
        r is Some,
        r->0@ == offered(architecture, 0),
        offered(architecture, 0).sound(architecture),
{
    proof {
        every_offered_kernel_is_sound(architecture, 0);
    }
    let mut all = supported_kernels(architecture);
    Some(all.remove(0))
}

/// The kernel of a version for a machine.
pub fn kernel_for_version(architecture: Architecture, version: &str) -> (r: Option<PinnedKernel>)
    ensures
        match r {
            Some(kernel) => exists|i: int|
                0 <= i < RELEASES@.len() && kernel@ == #[trigger] offered(architecture, i)
                    && kernel@.version == version@ && forall|j: int|
                    0 <= j < i ==> (#[trigger] offered(architecture, j)).version != version@,
            None => forall|i: int|
                0 <= i < RELEASES@.len() ==> (#[trigger] offered(architecture, i)).version
                    != version@,
        },
{
    let mut all = supported_kernels(architecture);
    let mut i: usize = 0;
    while i < all.len()
        invariant
            i <= all@.len(),
            all@.len() == RELEASES@.len(),
            forall|j: int|
                0 <= j < all@.len() ==> (#[trigger] all@[j])@ == offered(architecture, j),
            forall|j: int| 0 <= j < i ==> (#[trigger] offered(architecture, j)).version != version@,
        decreases all@.len() - i,
    {
        assert(all@[i as int]@ == offered(architecture, i as int));
        if same(&all[i].version, version) {
            return Some(all.remove(i));
        }
        i += 1;
    }
    None
}

/// The kernel on this host that the operator names, by the value of the variable.
pub fn configured_kernel_override(value: Option<&str>) -> (r: Option<String>)
    ensures
        opt_view(r) == match value {
            Some(v) if trim(v@).len() > 0 => Some(trim(v@)),
            _ => None,
        },
{
    match value {
        None => None,
        Some(v) => {
            let path = trimmed(v);
            if path.as_str().is_empty() {
                None
            } else {
                Some(path)
            }
        },
    }
}

impl Pinned {
    /// Where the registry keeps the package.
    pub open spec fn key(self, architecture: Architecture) -> Seq<char> {
        "kernel/"@ + self.version + "/"@ + architecture.name() + "/"@ + self.alias + ".tar.zst"@
    }

    /// Where the kernel stands in its package.
    pub open spec fn member(self) -> Seq<char> {
        "kernel/"@ + self.image
    }

    /// Where the cache keeps the kernel, below the image root.
    pub open spec fn cached(self, architecture: Architecture) -> Seq<char> {
        path::join(path::join(".oci/kernel"@, architecture.name()), self.image)
    }
}

/// Where the registry keeps a package.
pub fn package_key(architecture: Architecture, pinned: &PinnedKernel) -> (r: String)
    ensures
        r@ == pinned@.key(architecture),
{
    "kernel/".to_owned().concat(&pinned.version).concat("/").concat(architecture.as_str()).concat(
        "/",
    ).concat(&pinned.alias).concat(".tar.zst")
}

/// Where the cache keeps a kernel, below the image root.
pub fn cache_relative(architecture: Architecture, pinned: &PinnedKernel) -> (r: String)
    ensures
        r@ == pinned@.cached(architecture),
{
    path::joined(&path::joined(".oci/kernel", architecture.as_str()), &pinned.image)
}

/// Where a kernel stands in its package.
pub fn package_member(pinned: &PinnedKernel) -> (r: String)
    ensures
        r@ == pinned@.member(),
{
    "kernel/".to_owned().concat(&pinned.image)
}

/// What to do with a member of a package.
#[derive(Debug)]
pub enum MemberStep {
    /// It is the kernel.
    Take,
    /// It is another file.
    Skip,
    /// There is no kernel to be had from the package.
    Stop(ResolveError),
}

/// [`MemberStep`] as contracts speak of it.
pub enum Membership {
    Take,
    Skip,
    Stop(Refusal),
}

impl View for MemberStep {
    type V = Membership;

    open spec fn view(&self) -> Membership {
        match self {
            MemberStep::Take => Membership::Take,
            MemberStep::Skip => Membership::Skip,
            MemberStep::Stop(e) => Membership::Stop(e@),
        }
    }
}

/// What to do with a member, by what was listed of it.
pub open spec fn membership(
    listed: Result<Option<Seq<char>>, (bool, Seq<char>)>,
    package: Seq<char>,
    key: Seq<char>,
    member: Seq<char>,
) -> Membership {
    match listed {
        Err((true, source)) => Membership::Stop(
            Refusal::CacheIo { operation: "decompress kernel package"@, path: package, source },
        ),
        Err((false, source)) => Membership::Stop(
            Refusal::CacheIo { operation: "read kernel package"@, path: package, source },
        ),
        Ok(None) => Membership::Stop(Refusal::KernelPackageMemberMissing { package: key, member }),
        Ok(Some(p)) => if replace(p, "\\"@, "/"@) == member {
            Membership::Take
        } else {
            Membership::Skip
        },
    }
}

/// What to do with a member, by what was listed of it.
pub fn member_step(
    listed: Result<Option<String>, (bool, String)>,
    package: &str,
    key: &str,
    member: &str,
) -> (r: MemberStep)
    ensures
        r@ == membership(listing(listed), package@, key@, member@),
{
    proof {
        reveal_strlit("\\");
    }
    match listed {
        Err((setup, source)) => MemberStep::Stop(
            ResolveError::CacheIo {
                operation: if setup {
                    "decompress kernel package"
                } else {
                    "read kernel package"
                },
                path: package.to_owned(),
                source,
            },
        ),
        Ok(None) => MemberStep::Stop(
            ResolveError::KernelPackageMemberMissing {
                package: key.to_owned(),
                member: member.to_owned(),
            },
        ),
        Ok(Some(p)) => if same(&replaced(&p, "\\", "/"), member) {
            MemberStep::Take
        } else {
            MemberStep::Skip
        },
    }
}

/// The kernel out of the bytes of its member, read one byte beyond the limit.
pub open spec fn kernel_bytes(
    read: Result<Seq<u8>, Seq<char>>,
    staged: Seq<char>,
    member: Seq<char>,
) -> Result<Seq<u8>, Refusal> {
    match read {
        Err(source) => Err(
            Refusal::CacheIo { operation: "write OCI kernel"@, path: staged, source },
        ),
        Ok(bytes) => if bytes.len() > KERNEL_MAX_BYTES {
            Err(
                Refusal::CacheIo {
                    operation: "write OCI kernel"@,
                    path: staged,
                    source: "member "@ + member + " exceeds the "@ + decimal(
                        KERNEL_MAX_BYTES as nat,
                    ) + "-byte limit"@,
                },
            )
        } else {
            Ok(bytes)
        },
    }
}

/// Some bytes, or why they were refused.
pub open spec fn bytes_or(r: Result<Vec<u8>, ResolveError>) -> Result<Seq<u8>, Refusal> {
    match r {
        Ok(bytes) => Ok(bytes@),
        Err(e) => Err(e@),
    }
}

/// The kernel out of the bytes of its member, read one byte beyond the limit.
pub fn kernel_of_member(read: Result<Vec<u8>, String>, staged: &str, member: &str) -> (r: Result<
    Vec<u8>,
    ResolveError,
>)
    ensures
        bytes_or(r) == kernel_bytes(bytes_of(read), staged@, member@),
{
    match read {
        Err(source) => Err(
            ResolveError::CacheIo {
                operation: "write OCI kernel",
                path: staged.to_owned(),
                source,
            },
        ),
        Ok(bytes) => if bytes.len() as u64 > KERNEL_MAX_BYTES {
            Err(
                ResolveError::CacheIo {
                    operation: "write OCI kernel",
                    path: staged.to_owned(),
                    source: "member ".to_owned().concat(member).concat(" exceeds the ").concat(
                        &decimal_of(KERNEL_MAX_BYTES),
                    ).concat("-byte limit"),
                },
            )
        } else {
            Ok(bytes)
        },
    }
}

/// The kernel out of a package, looked for from a place on. A package is not read on where
/// the position in it runs over.
pub open spec fn lifted(
    bytes: Seq<u8>,
    package: Seq<char>,
    key: Seq<char>,
    member: Seq<char>,
    staged: Seq<char>,
    from: nat,
) -> Result<Seq<u8>, Refusal>
    decreases usize::MAX - from,
{
    if from >= usize::MAX {
        Err(Refusal::KernelPackageMemberMissing { package: key, member })
    } else if over_at(inflated(bytes), from) {
        Err(
            Refusal::CacheIo {
                operation: "read kernel package"@,
                path: package,
                source: "size overflow"@,
            },
        )
    } else {
        match membership(archived_path(bytes, from), package, key, member) {
            Membership::Stop(refusal) => Err(refusal),
            Membership::Take => kernel_bytes(
                archived_bytes(bytes, from, (KERNEL_MAX_BYTES + 1) as u64),
                staged,
                member,
            ),
            Membership::Skip => lifted(bytes, package, key, member, staged, from + 1),
        }
    }
}

/// The kernel out of a package: the first member of its name. The package's file and where
/// the kernel goes only stand in errors.
pub fn lift_kernel(bytes: &[u8], package: &str, key: &str, member: &str, staged: &str) -> (r: Result<
    Vec<u8>,
    ResolveError,
>)
    ensures
        bytes_or(r) == lifted(bytes@, package@, key@, member@, staged@, 0),
{
    let archive = inflate(bytes);
    let maps = long_maps(&archive);
    let mut i: usize = 0;
    while i < usize::MAX
        invariant
            archive@ == inflated(bytes@),
            forall|k: int| 0 <= k < maps@.len() ==> #[trigger] long_map(
                archive@,
                maps@[k] as int,
            ),
            forall|a: int, b: int| 0 <= a < b < maps@.len() ==> maps@[a] < maps@[b],
            forall|j: int| #[trigger]
                long_map(archive@, j) ==> exists|k: int| 0 <= k < maps@.len() && maps@[k] == j,
            forall|m: nat| m < i ==> !#[trigger] over_at(archive@, m),
            lifted(bytes@, package@, key@, member@, staged@, 0) == lifted(
                bytes@,
                package@,
                key@,
                member@,
                staged@,
                i as nat,
            ),
        decreases usize::MAX - i,
    {
        if runs_over(&archive, &maps, i) {
            return Err(
                ResolveError::CacheIo {
                    operation: "read kernel package",
                    path: package.to_owned(),
                    source: "size overflow".to_owned(),
                },
            );
        }
        assert(calm(archive@, i as nat));
        match member_step(member_path(bytes, i), package, key, member) {
            MemberStep::Stop(e) => return Err(e),
            MemberStep::Take => {
                return kernel_of_member(
                    member_bytes(bytes, i, KERNEL_MAX_BYTES + 1),
                    staged,
                    member,
                );
            },
            MemberStep::Skip => {},
        }
        i += 1;
    }
    Err(
        ResolveError::KernelPackageMemberMissing {
            package: key.to_owned(),
            member: member.to_owned(),
        },
    )
}

/// What is said of a pinned digest that is none.
pub open spec fn malformed_pin(value: Seq<char>) -> Seq<char> {
    "pinned OCI kernel digest "@ + quoted_text(value) + ": not a SHA-256 digest"@
}

/// Whether some bytes are the kernel that was pinned, and one that a machine boots.
pub open spec fn kernel_verdict(
    subject: Seq<char>,
    bytes: Seq<u8>,
    architecture: Architecture,
    expected: Seq<char>,
) -> Result<(), Refusal> {
    if !is_pin(expected) {
        Err(Refusal::Malformed(malformed_pin(expected)))
    } else if pin(bytes) != expected {
        Err(Refusal::DigestMismatch { subject, expected, actual: pin(bytes) })
    } else {
        match kernel_format(bytes) {
            KernelFormat::Bootable(found) => if found == architecture {
                Ok(())
            } else {
                Err(
                    Refusal::KernelArchitectureMismatch {
                        path: subject,
                        found,
                        host: architecture,
                    },
                )
            },
            KernelFormat::Foreign { machine } => Err(
                Refusal::UnsupportedKernelArchitecture { path: subject, machine },
            ),
            KernelFormat::Unrecognized => Ok(()),
        }
    }
}

/// What a result comes to.
pub open spec fn outcome<T>(r: Result<T, ResolveError>) -> Result<(), Refusal> {
    match r {
        Ok(_) => Ok(()),
        Err(e) => Err(e@),
    }
}

fn parse_pin(value: &str) -> (r: Result<(), ResolveError>)
    ensures
        outcome(r) == if is_pin(value@) {
            Ok::<(), Refusal>(())
        } else {
            Err(Refusal::Malformed(malformed_pin(value@)))
        },
{
    if is_pinned_digest(value) {
        Ok(())
    } else {
        Err(
            ResolveError::Malformed(
                "pinned OCI kernel digest ".to_owned().concat(&quoted(value)).concat(
                    ": not a SHA-256 digest",
                ),
            ),
        )
    }
}

fn check_digest(subject: &str, bytes: &[u8], expected: &str) -> (r: Result<(), ResolveError>)
    ensures
        outcome(r) == if !is_pin(expected@) {
            Err::<(), Refusal>(Refusal::Malformed(malformed_pin(expected@)))
        } else if pin(bytes@) != expected@ {
            Err(
                Refusal::DigestMismatch {
                    subject: subject@,
                    expected: expected@,
                    actual: pin(bytes@),
                },
            )
        } else {
            Ok(())
        },
{
    if let Err(e) = parse_pin(expected) {
        return Err(e);
    }
    let actual = pin_of(bytes);
    if !same(&actual, expected) {
        return Err(
            ResolveError::DigestMismatch {
                subject: subject.to_owned(),
                expected: expected.to_owned(),
                actual,
            },
        );
    }
    Ok(())
}

/// Refuses bytes that are not the kernel that was pinned, or not one that a machine boots.
pub fn verify_kernel(subject: &str, bytes: &[u8], architecture: Architecture, expected: &str) -> (r:
    Result<(), ResolveError>)
    ensures
        outcome(r) == kernel_verdict(subject@, bytes@, architecture, expected@),
{
    if let Err(e) = check_digest(subject, bytes, expected) {
        return Err(e);
    }
    match kernel_architecture(bytes) {
        KernelFormat::Bootable(found) => if found == architecture {
            Ok(())
        } else {
            Err(
                ResolveError::KernelArchitectureMismatch {
                    path: subject.to_owned(),
                    found,
                    host: architecture,
                },
            )
        },
        KernelFormat::Foreign { machine } => Err(
            ResolveError::UnsupportedKernelArchitecture { path: subject.to_owned(), machine },
        ),
        KernelFormat::Unrecognized => Ok(()),
    }
}

/// What is said of a package that is too long.
pub open spec fn too_long(url: Seq<char>) -> Refusal {
    Refusal::KernelDownloadFailed {
        url,
        message: "body exceeds the "@ + decimal(PACKAGE_MAX_BYTES as nat) + "-byte limit"@,
    }
}

fn body_too_long(url: &str) -> (r: ResolveError)
    ensures
        r@ == too_long(url@),
{
    ResolveError::KernelDownloadFailed {
        url: url.to_owned(),
        message: "body exceeds the ".to_owned().concat(&decimal_of(PACKAGE_MAX_BYTES)).concat(
            "-byte limit",
        ),
    }
}

/// A download while its body comes in: no more than [`PACKAGE_MAX_BYTES`] are taken, so that
/// an endless body cannot fill the image volume.
#[derive(Debug)]
pub struct Download {
    url: String,
    written: u64,
}

impl Download {
    /// What is downloaded.
    pub closed spec fn source(self) -> Seq<char> {
        self.url@
    }

    /// The bytes taken so far.
    pub closed spec fn taken(self) -> nat {
        self.written as nat
    }

    /// A download whose reply has begun; one that is no success is refused.
    pub fn begin(url: &str, status: u16) -> (r: Result<Self, ResolveError>)
        ensures
            match r {
                Ok(download) => 200 <= status < 300 && download.source() == url@
                    && download.taken() == 0,
                Err(e) => !(200 <= status < 300) && e@ == (Refusal::KernelDownloadFailed {
                    url: url@,
                    message: "HTTP "@ + decimal(status as nat),
                }),
            },
    {
        if 200 <= status && status < 300 {
            Ok(Download { url: url.to_owned(), written: 0 })
        } else {
            Err(
                ResolveError::KernelDownloadFailed {
                    url: url.to_owned(),
                    message: "HTTP ".to_owned().concat(&decimal_of(status as u64)),
                },
            )
        }
    }

    /// Takes the next part of the body, or refuses the download where it is over the limit.
    pub fn take(&mut self, length: u64) -> (r: Result<(), ResolveError>)
        ensures
            final(self).source() == old(self).source(),
            match r {
                Ok(_) => old(self).taken() + length <= PACKAGE_MAX_BYTES && final(self).taken()
                    == old(self).taken() + length,
                Err(e) => old(self).taken() + length > PACKAGE_MAX_BYTES && e@ == too_long(
                    old(self).source(),
                ),
            },
    {
        self.written = self.written.saturating_add(length);
        if self.written > PACKAGE_MAX_BYTES {
            Err(body_too_long(&self.url))
        } else {
            Ok(())
        }
    }
}

/// A kernel with its command line, as a template records it.
#[derive(Debug, PartialEq, Eq)]
pub struct KernelBootPair {
    pub architecture: Architecture,
    pub source_alias: String,
    /// The kernel's path below the image root.
    pub kernel: String,
    pub initrd: Option<String>,
    pub boot_args: String,
}

/// [`KernelBootPair`] as contracts speak of it.
pub struct BootPair {
    pub architecture: Architecture,
    pub source_alias: Seq<char>,
    pub kernel: Seq<char>,
    pub initrd: Option<Seq<char>>,
    pub boot_args: Seq<char>,
}

impl View for KernelBootPair {
    type V = BootPair;

    open spec fn view(&self) -> BootPair {
        BootPair {
            architecture: self.architecture,
            source_alias: self.source_alias@,
            kernel: self.kernel@,
            initrd: opt_view(self.initrd),
            boot_args: self.boot_args@,
        }
    }
}

/// A kernel to be had, and where from.
#[derive(Debug)]
pub struct KernelJob {
    /// The image root.
    pub image_root: String,
    pub architecture: Architecture,
    pub pinned: PinnedKernel,
    /// A kernel on this host to use in place of the registry's.
    pub override_path: Option<String>,
    /// The registry.
    pub base_url: Option<String>,
    /// What makes the names of the temporary files unique.
    pub token: String,
}

/// [`KernelJob`] as contracts speak of it.
pub struct Job {
    pub image_root: Seq<char>,
    pub architecture: Architecture,
    pub pinned: Pinned,
    pub override_path: Option<Seq<char>>,
    pub base_url: Option<Seq<char>>,
    pub token: Seq<char>,
}

impl View for KernelJob {
    type V = Job;

    open spec fn view(&self) -> Job {
        Job {
            image_root: self.image_root@,
            architecture: self.architecture,
            pinned: self.pinned@,
            override_path: opt_view(self.override_path),
            base_url: opt_view(self.base_url),
            token: self.token@,
        }
    }
}

impl Job {
    /// The kernel's path below the image root.
    pub open spec fn relative(self) -> Seq<char> {
        self.pinned.cached(self.architecture)
    }

    /// The kernel's path in the cache.
    pub open spec fn cached(self) -> Seq<char> {
        path::join(self.image_root, self.relative())
    }

    /// The directory of the cache.
    pub open spec fn directory(self) -> Seq<char> {
        match path::parent(self.cached()) {
            Some(directory) => directory,
            None => self.cached(),
        }
    }

    /// Where the kernel is put together.
    pub open spec fn staged(self) -> Seq<char> {
        path::join(
            self.directory(),
            "."@ + self.pinned.image + "-"@ + self.token + ".partial"@,
        )
    }

    /// Where the package is downloaded to.
    pub open spec fn package(self) -> Seq<char> {
        path::join(
            path::join(self.image_root, ".oci/kernel"@),
            "."@ + self.pinned.alias + "-"@ + self.token + ".tar.zst"@,
        )
    }

    /// Where the registry serves the package.
    pub open spec fn url(self) -> Seq<char> {
        trim_end_of(self.base_url->0, '/') + "/"@ + self.pinned.key(self.architecture)
    }

    /// What the job gives.
    pub open spec fn pair(self) -> BootPair {
        BootPair {
            architecture: self.architecture,
            source_alias: self.pinned.alias,
            kernel: self.relative(),
            initrd: None,
            boot_args: self.pinned.boot_args,
        }
    }

    /// Whether some bytes are the kernel.
    pub open spec fn verdict(self, bytes: Seq<u8>) -> Result<(), Refusal> {
        kernel_verdict(self.relative(), bytes, self.architecture, self.pinned.image_digest)
    }
}

/// What is to be done next.
#[derive(Debug)]
pub enum KernelAction {
    /// Make a directory with all above it.
    MakeDirectory(String),
    /// Read a kernel, without following a link.
    Read(String),
    /// Remove a file; whether that succeeds does not matter.
    Remove(String),
    /// See what a path names, without following a link.
    Inspect(String),
    /// Copy a file.
    Copy { from: String, to: String },
    /// Download a package to a file, and give its bytes.
    Download { url: String, to: String },
    /// Write a kernel to a file that is not there yet.
    Write { to: String, bytes: Vec<u8> },
    /// Rename a file.
    Rename { from: String, to: String },
}

/// [`KernelAction`] as contracts speak of it.
pub enum Deed {
    MakeDirectory(Seq<char>),
    Read(Seq<char>),
    Remove(Seq<char>),
    Inspect(Seq<char>),
    Copy { from: Seq<char>, to: Seq<char> },
    Download { url: Seq<char>, to: Seq<char> },
    Write { to: Seq<char>, bytes: Seq<u8> },
    Rename { from: Seq<char>, to: Seq<char> },
}

impl View for KernelAction {
    type V = Deed;

    open spec fn view(&self) -> Deed {
        match self {
            KernelAction::MakeDirectory(p) => Deed::MakeDirectory(p@),
            KernelAction::Read(p) => Deed::Read(p@),
            KernelAction::Remove(p) => Deed::Remove(p@),
            KernelAction::Inspect(p) => Deed::Inspect(p@),
            KernelAction::Copy { from, to } => Deed::Copy { from: from@, to: to@ },
            KernelAction::Download { url, to } => Deed::Download { url: url@, to: to@ },
            KernelAction::Write { to, bytes } => Deed::Write { to: to@, bytes: bytes@ },
            KernelAction::Rename { from, to } => Deed::Rename { from: from@, to: to@ },
        }
    }
}

/// What came of an action.
#[derive(Debug)]
pub enum KernelEvent {
    /// It was done.
    Done,
    /// The bytes that were read or downloaded.
    Bytes(Vec<u8>),
    /// What a path names.
    Found { regular: bool, length: u64 },
    /// The file could not be opened.
    Unopened(String),
    /// The download failed.
    DownloadFailed(String),
    /// The download could not be kept.
    StorageFailed { operation: &'static str, path: String, source: String },
    /// It failed in another way.
    Failed(String),
}

/// [`KernelEvent`] as contracts speak of it.
pub enum News {
    Done,
    Bytes(Seq<u8>),
    Found { regular: bool, length: u64 },
    Unopened(Seq<char>),
    DownloadFailed(Seq<char>),
    StorageFailed { operation: Seq<char>, path: Seq<char>, source: Seq<char> },
    Failed(Seq<char>),
}

impl View for KernelEvent {
    type V = News;

    open spec fn view(&self) -> News {
        match self {
            KernelEvent::Done => News::Done,
            KernelEvent::Bytes(bytes) => News::Bytes(bytes@),
            KernelEvent::Found { regular, length } => News::Found {
                regular: *regular,
                length: *length,
            },
            KernelEvent::Unopened(why) => News::Unopened(why@),
            KernelEvent::DownloadFailed(why) => News::DownloadFailed(why@),
            KernelEvent::StorageFailed { operation, path, source } => News::StorageFailed {
                operation: operation@,
                path: path@,
                source: source@,
            },
            KernelEvent::Failed(why) => News::Failed(why@),
        }
    }
}

impl News {
    /// Why the action failed, where it did or gave nothing that helps.
    pub open spec fn reason(self) -> Seq<char> {
        match self {
            News::Unopened(why) => why,
            News::DownloadFailed(why) => why,
            News::StorageFailed { source, .. } => source,
            News::Failed(why) => why,
            _ => "nothing was read"@,
        }
    }
}

impl KernelEvent {
    fn reason(self) -> (r: String)
        ensures
            r@ == self@.reason(),
    {
        match self {
            KernelEvent::Unopened(why) => why,
            KernelEvent::DownloadFailed(why) => why,
            KernelEvent::StorageFailed { source, .. } => source,
            KernelEvent::Failed(why) => why,
            _ => "nothing was read".to_owned(),
        }
    }
}

/// How far a job is.
#[derive(Debug)]
pub enum KernelPhase {
    /// The directory of the cache is being made.
    Making,
    /// What the cache holds is being read.
    Checking,
    /// What the cache held is being removed.
    Clearing,
    /// The operator's kernel is being looked at.
    Inspecting,
    /// The operator's kernel is being copied.
    Copying,
    /// The package is being downloaded.
    Fetching,
    /// The kernel out of the package is being written.
    Writing,
    /// The package is being removed; the job has failed where there is an error.
    Dropping(Option<ResolveError>),
    /// What was put together is being removed, and the job has failed.
    Discarding(ResolveError),
    /// What was put together is being read.
    Verifying,
    /// What was put together is being moved into the cache.
    Publishing,
}

/// [`KernelPhase`] as contracts speak of it.
pub enum Phase {
    Making,
    Checking,
    Clearing,
    Inspecting,
    Copying,
    Fetching,
    Writing,
    Dropping(Option<Refusal>),
    Discarding(Refusal),
    Verifying,
    Publishing,
}

impl View for KernelPhase {
    type V = Phase;

    open spec fn view(&self) -> Phase {
        match self {
            KernelPhase::Making => Phase::Making,
            KernelPhase::Checking => Phase::Checking,
            KernelPhase::Clearing => Phase::Clearing,
            KernelPhase::Inspecting => Phase::Inspecting,
            KernelPhase::Copying => Phase::Copying,
            KernelPhase::Fetching => Phase::Fetching,
            KernelPhase::Writing => Phase::Writing,
            KernelPhase::Dropping(Some(e)) => Phase::Dropping(Some(e@)),
            KernelPhase::Dropping(None) => Phase::Dropping(None),
            KernelPhase::Discarding(e) => Phase::Discarding(e@),
            KernelPhase::Verifying => Phase::Verifying,
            KernelPhase::Publishing => Phase::Publishing,
        }
    }
}

/// How a job goes on.
pub enum Progress {
    /// The job is in a phase, and something is to be done.
    Next(Phase, Deed),
    /// The job is done or has failed.
    Over(Result<BootPair, Refusal>),
}

impl Job {
    /// The job fails, and what was put together goes.
    pub open spec fn discarding(self, refusal: Refusal) -> Progress {
        Progress::Next(Phase::Discarding(refusal), Deed::Remove(self.staged()))
    }

    /// The package goes, and where it was of no use the job fails.
    pub open spec fn dropping(self, refusal: Option<Refusal>) -> Progress {
        Progress::Next(Phase::Dropping(refusal), Deed::Remove(self.package()))
    }

    /// The kernel is put together: from the operator's where one is named, else from the
    /// registry where there is one.
    pub open spec fn staging(self) -> Progress {
        match (self.override_path, self.base_url) {
            (Some(supplied), _) => Progress::Next(Phase::Inspecting, Deed::Inspect(supplied)),
            (None, Some(_)) => Progress::Next(
                Phase::Fetching,
                Deed::Download { url: self.url(), to: self.package() },
            ),
            (None, None) => self.discarding(
                Refusal::KernelUnavailable {
                    architecture: self.architecture,
                    reason: "no "@ + KERNEL_PATH_ENV@
                        + " override and remote image install is disabled"@,
                },
            ),
        }
    }

    /// The operator's kernel, by what its path names.
    pub open spec fn inspected(self, news: News) -> Progress {
        let supplied = self.override_path->0;
        match news {
            News::Found { regular, length } => if !regular {
                self.discarding(
                    Refusal::KernelIo {
                        operation: "inspect operator kernel"@,
                        path: supplied,
                        source: "not a regular file"@,
                    },
                )
            } else if length > KERNEL_MAX_BYTES {
                self.discarding(
                    Refusal::KernelIo {
                        operation: "inspect operator kernel"@,
                        path: supplied,
                        source: decimal(length as nat) + " bytes exceeds the "@ + decimal(
                            KERNEL_MAX_BYTES as nat,
                        ) + "-byte limit"@,
                    },
                )
            } else {
                Progress::Next(Phase::Copying, Deed::Copy { from: supplied, to: self.staged() })
            },
            _ => self.discarding(
                Refusal::KernelIo {
                    operation: "inspect operator kernel"@,
                    path: supplied,
                    source: news.reason(),
                },
            ),
        }
    }

    /// The package, by what came of its download: one that is too long is refused, and only
    /// bytes of the pinned digest are unpacked.
    pub open spec fn fetched(self, news: News) -> Progress {
        match news {
            News::Bytes(bytes) => if bytes.len() > PACKAGE_MAX_BYTES {
                self.dropping(Some(too_long(self.url())))
            } else if !is_pin(self.pinned.package_digest) {
                self.dropping(
                    Some(
                        Refusal::Malformed(
                            malformed_pin(self.pinned.package_digest),
                        ),
                    ),
                )
            } else if pin(bytes) != self.pinned.package_digest {
                self.dropping(
                    Some(
                        Refusal::DigestMismatch {
                            subject: self.url(),
                            expected: self.pinned.package_digest,
                            actual: pin(bytes),
                        },
                    ),
                )
            } else {
                match lifted(
                    bytes,
                    self.package(),
                    self.pinned.key(self.architecture),
                    self.pinned.member(),
                    self.staged(),
                    0,
                ) {
                    Err(refusal) => self.dropping(Some(refusal)),
                    Ok(kernel) => Progress::Next(
                        Phase::Writing,
                        Deed::Write { to: self.staged(), bytes: kernel },
                    ),
                }
            },
            News::DownloadFailed(message) => self.dropping(
                Some(Refusal::KernelDownloadFailed { url: self.url(), message }),
            ),
            News::StorageFailed { operation, path, source } => self.dropping(
                Some(Refusal::CacheIo { operation, path, source }),
            ),
            _ => self.dropping(
                Some(
                    Refusal::CacheIo {
                        operation: "open kernel package"@,
                        path: self.package(),
                        source: news.reason(),
                    },
                ),
            ),
        }
    }

    /// What was put together, by what was read of it.
    pub open spec fn verified(self, news: News) -> Progress {
        match news {
            News::Bytes(bytes) => match self.verdict(bytes) {
                Ok(_) => Progress::Next(
                    Phase::Publishing,
                    Deed::Rename { from: self.staged(), to: self.cached() },
                ),
                Err(refusal) => self.discarding(refusal),
            },
            News::Unopened(source) => self.discarding(
                Refusal::KernelIo { operation: "open kernel"@, path: self.relative(), source },
            ),
            _ => self.discarding(
                Refusal::KernelIo {
                    operation: "read kernel"@,
                    path: self.relative(),
                    source: news.reason(),
                },
            ),
        }
    }

    /// The next phase and action, by what came of the last one.
    pub open spec fn advance(self, phase: Phase, news: News) -> Progress {
        match phase {
            Phase::Making => match news {
                News::Done => Progress::Next(Phase::Checking, Deed::Read(self.cached())),
                _ => Progress::Over(
                        Err(
                            Refusal::CacheIo {
                                operation: "create kernel cache"@,
                                path: self.directory(),
                                source: news.reason(),
                            },
                        ),
                    ),
            },
            Phase::Checking => match news {
                News::Bytes(bytes) if self.verdict(bytes) is Ok => Progress::Over(Ok(self.pair())),
                _ => Progress::Next(Phase::Clearing, Deed::Remove(self.cached())),
            },
            Phase::Clearing => self.staging(),
            Phase::Inspecting => self.inspected(news),
            Phase::Copying => match news {
                News::Done => Progress::Next(Phase::Verifying, Deed::Read(self.staged())),
                _ => self.discarding(
                    Refusal::KernelIo {
                        operation: "copy operator kernel"@,
                        path: self.override_path->0,
                        source: news.reason(),
                    },
                ),
            },
            Phase::Fetching => self.fetched(news),
            Phase::Writing => match news {
                News::Done => self.dropping(None),
                News::Unopened(source) => self.dropping(
                    Some(
                        Refusal::CacheIo {
                            operation: "stage OCI kernel"@,
                            path: self.staged(),
                            source,
                        },
                    ),
                ),
                _ => self.dropping(
                    Some(
                        Refusal::CacheIo {
                            operation: "write OCI kernel"@,
                            path: self.staged(),
                            source: news.reason(),
                        },
                    ),
                ),
            },
            Phase::Dropping(None) => Progress::Next(Phase::Verifying, Deed::Read(self.staged())),
            Phase::Dropping(Some(refusal)) => self.discarding(refusal),
            Phase::Discarding(refusal) => Progress::Over(Err(refusal)),
            Phase::Verifying => self.verified(news),
            Phase::Publishing => match news {
                News::Done => Progress::Over(Ok(self.pair())),
                _ => Progress::Over(
                        Err(
                            Refusal::CacheIo {
                                operation: "publish OCI kernel"@,
                                path: self.cached(),
                                source: news.reason(),
                            },
                        ),
                    ),
            },
        }
    }
}

/// A job that is under way.
#[derive(Debug)]
pub struct KernelRun {
    job: KernelJob,
    phase: KernelPhase,
}

/// How a job goes on.
#[derive(Debug)]
pub enum KernelProgress {
    /// Something is to be done, and what came of it handed to [`KernelRun::step`].
    Next(KernelRun, KernelAction),
    /// The job is done or has failed.
    Over(Result<KernelBootPair, ResolveError>),
}

impl View for KernelProgress {
    type V = Progress;

    open spec fn view(&self) -> Progress {
        match self {
            KernelProgress::Next(run, action) => Progress::Next(run.phase(), action@),
            KernelProgress::Over(Ok(pair)) => Progress::Over(Ok(pair@)),
            KernelProgress::Over(Err(e)) => Progress::Over(Err(e@)),
        }
    }
}

impl KernelProgress {
    /// Whether what goes on is still the same job.
    pub open spec fn of(self, job: Job) -> bool {
        self matches KernelProgress::Next(run, _) ==> run.job() == job
    }
}

/// Has a kernel in the cache: what the cache holds is used where it is the pinned kernel;
/// else the kernel comes from the operator or the registry, and is moved into the cache only
/// once it is found to be the pinned one. Gives the first thing to do.
pub fn ensure_pinned_kernel(job: KernelJob) -> (r: KernelProgress)
    ensures
        r.of(job@),
        r matches KernelProgress::Next(run, _) ==> run.wf(),
        r@ == Progress::Next(Phase::Making, Deed::MakeDirectory(job@.directory())),
{
    let directory = job.directory();
    KernelProgress::Next(
        KernelRun { job, phase: KernelPhase::Making },
        KernelAction::MakeDirectory(directory),
    )
}

impl KernelJob {
    fn relative(&self) -> (r: String)
        ensures
            r@ == self@.relative(),
    {
        cache_relative(self.architecture, &self.pinned)
    }

    fn cached(&self) -> (r: String)
        ensures
            r@ == self@.cached(),
    {
        path::joined(&self.image_root, &self.relative())
    }

    fn directory(&self) -> (r: String)
        ensures
            r@ == self@.directory(),
    {
        let cached = self.cached();
        match path::parent_of(&cached) {
            Some(directory) => directory,
            None => cached,
        }
    }

    fn staged(&self) -> (r: String)
        ensures
            r@ == self@.staged(),
    {
        let name = ".".to_owned().concat(&self.pinned.image).concat("-").concat(
            &self.token,
        ).concat(".partial");
        path::joined(&self.directory(), &name)
    }

    fn package(&self) -> (r: String)
        ensures
            r@ == self@.package(),
    {
        let name = ".".to_owned().concat(&self.pinned.alias).concat("-").concat(
            &self.token,
        ).concat(".tar.zst");
        path::joined(&path::joined(&self.image_root, ".oci/kernel"), &name)
    }

    fn pair(&self) -> (r: KernelBootPair)
        ensures
            r@ == self@.pair(),
    {
        KernelBootPair {
            architecture: self.architecture,
            source_alias: self.pinned.alias.clone(),
            kernel: self.relative(),
            initrd: None,
            boot_args: self.pinned.boot_args.clone(),
        }
    }

    fn verify(&self, bytes: &[u8]) -> (r: Result<(), ResolveError>)
        ensures
            outcome(r) == self@.verdict(bytes@),
    {
        verify_kernel(&self.relative(), bytes, self.architecture, &self.pinned.image_digest)
    }

    fn discarding(self, e: ResolveError) -> (r: KernelProgress)
        ensures
            r.of(self@),
            r@ == self@.discarding(e@),
    {
        let staged = self.staged();
        KernelProgress::Next(
            KernelRun { job: self, phase: KernelPhase::Discarding(e) },
            KernelAction::Remove(staged),
        )
    }

    fn dropping(self, e: Option<ResolveError>) -> (r: KernelProgress)
        ensures
            r.of(self@),
            r@ == self@.dropping(
                match e {
                    Some(e) => Some(e@),
                    None => None,
                },
            ),
    {
        let package = self.package();
        KernelProgress::Next(
            KernelRun { job: self, phase: KernelPhase::Dropping(e) },
            KernelAction::Remove(package),
        )
    }

    fn supplied(&self) -> (r: String)
        requires
            self@.override_path is Some,
        ensures
            r@ == self@.override_path->0,
    {
        match &self.override_path {
            Some(supplied) => supplied.clone(),
            None => String::new(),
        }
    }

    fn stage_kernel(self) -> (r: KernelProgress)
        ensures
            r.of(self@),
            r@ == self@.staging(),
    {
        if let Some(supplied) = &self.override_path {
            let supplied = supplied.clone();
            return KernelProgress::Next(
                KernelRun { job: self, phase: KernelPhase::Inspecting },
                KernelAction::Inspect(supplied),
            );
        }
        match &self.base_url {
            Some(_) => {
                let url = self.url();
                let to = self.package();
                KernelProgress::Next(
                    KernelRun { job: self, phase: KernelPhase::Fetching },
                    KernelAction::Download { url, to },
                )
            },
            None => {
                let architecture = self.architecture;
                let reason = "no ".to_owned().concat(KERNEL_PATH_ENV).concat(
                    " override and remote image install is disabled",
                );
                self.discarding(ResolveError::KernelUnavailable { architecture, reason })
            },
        }
    }

    fn url(&self) -> (r: String)
        requires
            self@.base_url is Some,
        ensures
            r@ == self@.url(),
    {
        let base = match &self.base_url {
            Some(base) => trimmed_end_of(base, '/'),
            None => String::new(),
        };
        base.concat("/").concat(&package_key(self.architecture, &self.pinned))
    }

    fn copy_operator_kernel(self, event: KernelEvent) -> (r: KernelProgress)
        requires
            self@.override_path is Some,
        ensures
            r.of(self@),
            r@ == self@.inspected(event@),
    {
        let path = self.supplied();
        let source = match event {
            KernelEvent::Found { regular, length } => if !regular {
                "not a regular file".to_owned()
            } else if length > KERNEL_MAX_BYTES {
                decimal_of(length).concat(" bytes exceeds the ").concat(
                    &decimal_of(KERNEL_MAX_BYTES),
                ).concat("-byte limit")
            } else {
                let to = self.staged();
                return KernelProgress::Next(
                    KernelRun { job: self, phase: KernelPhase::Copying },
                    KernelAction::Copy { from: path, to },
                );
            },
            _ => event.reason(),
        };
        self.discarding(
            ResolveError::KernelIo { operation: "inspect operator kernel", path, source },
        )
    }

    fn download_package(self, event: KernelEvent) -> (r: KernelProgress)
        requires
            self@.base_url is Some,
        ensures
            r.of(self@),
            r@ == self@.fetched(event@),
    {
        let e = match event {
            KernelEvent::Bytes(bytes) => if bytes.len() as u64 > PACKAGE_MAX_BYTES {
                body_too_long(&self.url())
            } else {
                match check_digest(&self.url(), &bytes, &self.pinned.package_digest) {
                    Err(e) => e,
                    Ok(_) => {
                        let key = package_key(self.architecture, &self.pinned);
                        let member = package_member(&self.pinned);
                        let to = self.staged();
                        match lift_kernel(&bytes, &self.package(), &key, &member, &to) {
                            Err(e) => e,
                            Ok(bytes) => return KernelProgress::Next(
                                KernelRun { job: self, phase: KernelPhase::Writing },
                                KernelAction::Write { to, bytes },
                            ),
                        }
                    },
                }
            },
            KernelEvent::DownloadFailed(message) => ResolveError::KernelDownloadFailed {
                url: self.url(),
                message,
            },
            KernelEvent::StorageFailed { operation, path, source } => ResolveError::CacheIo {
                operation,
                path,
                source,
            },
            _ => ResolveError::CacheIo {
                operation: "open kernel package",
                path: self.package(),
                source: event.reason(),
            },
        };
        self.dropping(Some(e))
    }

    fn publish(self, event: KernelEvent) -> (r: KernelProgress)
        ensures
            r.of(self@),
            r@ == self@.verified(event@),
    {
        let e = match event {
            KernelEvent::Bytes(bytes) => match self.verify(&bytes) {
                Err(e) => e,
                Ok(_) => {
                    let from = self.staged();
                    let to = self.cached();
                    return KernelProgress::Next(
                        KernelRun { job: self, phase: KernelPhase::Publishing },
                        KernelAction::Rename { from, to },
                    );
                },
            },
            KernelEvent::Unopened(source) => ResolveError::KernelIo {
                operation: "open kernel",
                path: self.relative(),
                source,
            },
            _ => ResolveError::KernelIo {
                operation: "read kernel",
                path: self.relative(),
                source: event.reason(),
            },
        };
        self.discarding(e)
    }
}

impl KernelRun {
    /// The job.
    pub closed spec fn job(self) -> Job {
        self.job@
    }

    /// How far it is.
    pub closed spec fn phase(self) -> Phase {
        self.phase@
    }

    /// Whether the job has what its phase needs: a kernel of the operator is only looked at
    /// where one is named, and a package only downloaded where there is a registry.
    pub open spec fn wf(self) -> bool {
        &&& self.phase() is Inspecting || self.phase() is Copying ==> self.job().override_path is Some
        &&& self.phase() is Fetching ==> self.job().base_url is Some && self.job().override_path
            is None
    }

    fn read(job: KernelJob, phase: KernelPhase, file: String) -> (r: KernelProgress)
        ensures
            r.of(job@),
            r@ == Progress::Next(phase@, Deed::Read(file@)),
    {
        KernelProgress::Next(KernelRun { job, phase }, KernelAction::Read(file))
    }

    /// Goes on with the job, by what came of the last action.
    pub fn step(self, event: KernelEvent) -> (r: KernelProgress)
        requires
            self.wf(),
        ensures
            r.of(self.job()),
            r matches KernelProgress::Next(run, _) ==> run.wf(),
            r@ == self.job().advance(self.phase(), event@),
    {
        let job = self.job;
        match self.phase {
            KernelPhase::Making => match event {
                KernelEvent::Done => {
                    let file = job.cached();
                    Self::read(job, KernelPhase::Checking, file)
                },
                _ => KernelProgress::Over(
                    Err(
                        ResolveError::CacheIo {
                            operation: "create kernel cache",
                            path: job.directory(),
                            source: event.reason(),
                        },
                    ),
                ),
            },
            KernelPhase::Checking => {
                if let KernelEvent::Bytes(bytes) = &event {
                    if job.verify(bytes).is_ok() {
                        return KernelProgress::Over(Ok(job.pair()));
                    }
                }
                let file = job.cached();
                KernelProgress::Next(
                    KernelRun { job, phase: KernelPhase::Clearing },
                    KernelAction::Remove(file),
                )
            },
            KernelPhase::Clearing => job.stage_kernel(),
            KernelPhase::Inspecting => job.copy_operator_kernel(event),
            KernelPhase::Copying => match event {
                KernelEvent::Done => {
                    let file = job.staged();
                    Self::read(job, KernelPhase::Verifying, file)
                },
                _ => {
                    let path = job.supplied();
                    job.discarding(
                        ResolveError::KernelIo {
                            operation: "copy operator kernel",
                            path,
                            source: event.reason(),
                        },
                    )
                },
            },
            KernelPhase::Fetching => job.download_package(event),
            KernelPhase::Writing => {
                let path = job.staged();
                match event {
                    KernelEvent::Done => job.dropping(None),
                    KernelEvent::Unopened(source) => job.dropping(
                        Some(ResolveError::CacheIo { operation: "stage OCI kernel", path, source }),
                    ),
                    _ => job.dropping(
                        Some(
                            ResolveError::CacheIo {
                                operation: "write OCI kernel",
                                path,
                                source: event.reason(),
                            },
                        ),
                    ),
                }
            },
            KernelPhase::Dropping(None) => {
                let file = job.staged();
                Self::read(job, KernelPhase::Verifying, file)
            },
            KernelPhase::Dropping(Some(e)) => job.discarding(e),
            KernelPhase::Discarding(e) => KernelProgress::Over(Err(e)),
            KernelPhase::Verifying => job.publish(event),
            KernelPhase::Publishing => match event {
                KernelEvent::Done => KernelProgress::Over(Ok(job.pair())),
                _ => KernelProgress::Over(
                    Err(
                        ResolveError::CacheIo {
                            operation: "publish OCI kernel",
                            path: job.cached(),
                            source: event.reason(),
                        },
                    ),
                ),
            },
        }
    }
}

/// Has a kernel of this release's list in the cache: the same cache that imports use, so
/// that a kernel is there once. Another version is refused.
pub fn ensure_managed_kernel(
    image_root: &str,
    architecture: Architecture,
    version: &str,
    base_url: Option<&str>,
    token: &str,
) -> (r: KernelProgress)
    ensures
        match r {
            KernelProgress::Over(done) => done is Err && done->Err_0@ == (
            Refusal::KernelUnavailable {
                architecture,
                reason: "kernel version "@ + version@ + " is not in the release catalog"@,
            }) && forall|i: int|
                0 <= i < RELEASES@.len() ==> (#[trigger] offered(architecture, i)).version
                    != version@,
            KernelProgress::Next(run, action) => {
                &&& run.wf()
                &&& run.phase() is Making
                &&& action@ == Deed::MakeDirectory(run.job().directory())
                &&& run.job().image_root == image_root@
                &&& run.job().architecture == architecture
                &&& run.job().override_path is None
                &&& run.job().base_url == opt_text(base_url)
                &&& run.job().token == token@
                &&& exists|i: int|
                    0 <= i < RELEASES@.len() && run.job().pinned == #[trigger] offered(
                        architecture,
                        i,
                    ) && run.job().pinned.version == version@ && forall|j: int|
                        0 <= j < i ==> (#[trigger] offered(architecture, j)).version != version@
            },
        },
{
    match kernel_for_version(architecture, version) {
        None => KernelProgress::Over(
            Err(
                ResolveError::KernelUnavailable {
                    architecture,
                    reason: "kernel version ".to_owned().concat(version).concat(
                        " is not in the release catalog",
                    ),
                },
            ),
        ),
        Some(pinned) => ensure_pinned_kernel(
            KernelJob {
                image_root: image_root.to_owned(),
                architecture,
                pinned,
                override_path: None,
                base_url: match base_url {
                    Some(base) => Some(base.to_owned()),
                    None => None,
                },
                token: token.to_owned(),
            },
        ),
    }
}

/// Whether the cache holds a kernel of this release's list, by what `read` gives for the
/// kernel's path: a file that is not the pinned kernel counts as none.
pub fn cached_kernel_is_valid<F: Fn(&str) -> Result<Vec<u8>, String>>(
    image_root: &str,
    architecture: Architecture,
    version: &str,
    read: &F,
) -> (r: bool)
    requires
        reads(*read),
    ensures
        r ==> exists|i: int|
            0 <= i < RELEASES@.len() && (#[trigger] offered(architecture, i)).version == version@,
        forall|contents: spec_fn(Seq<char>) -> Result<Seq<u8>, Seq<char>>, i: int|
            #![trigger holds(*read, contents), offered(architecture, i)]
            holds(*read, contents) && 0 <= i < RELEASES@.len() && offered(architecture, i).version
                == version@ && (forall|j: int|
                0 <= j < i ==> (#[trigger] offered(architecture, j)).version != version@) ==> r == (
            contents(path::join(image_root@, offered(architecture, i).cached(architecture))) matches Ok(
                bytes,
            ) && kernel_verdict(
                offered(architecture, i).cached(architecture),
                bytes,
                architecture,
                offered(architecture, i).image_digest,
            ) is Ok),
{
    match kernel_for_version(architecture, version) {
        None => false,
        Some(pinned) => {
            let ghost at = choose|i: int|
                0 <= i < RELEASES@.len() && pinned@ == #[trigger] offered(architecture, i)
                    && pinned@.version == version@ && forall|j: int|
                    0 <= j < i ==> (#[trigger] offered(architecture, j)).version != version@;
            assert(offered(architecture, at).version == version@);
            let relative = cache_relative(architecture, &pinned);
            let r = match read(&path::joined(image_root, &relative)) {
                Err(_) => false,
                Ok(bytes) => verify_kernel(
                    &relative,
                    &bytes,
                    architecture,
                    &pinned.image_digest,
                ).is_ok(),
            };
            proof {
                assert forall|i: int|
                    0 <= i < RELEASES@.len() && (#[trigger] offered(architecture, i)).version
                        == version@ && (forall|j: int|
                        0 <= j < i ==> (#[trigger] offered(architecture, j)).version
                            != version@) implies i == at by {
                    if i < at {
                        assert(offered(architecture, i).version != version@);
                    }
                    if at < i {
                        assert(offered(architecture, at).version != version@);
                    }
                }
            }
            r
        },
    }
}

impl Phase {
    /// How many steps a job can still take.
    pub open spec fn rank(self) -> nat {
        match self {
            Phase::Making => 9,
            Phase::Checking => 8,
            Phase::Clearing => 7,
            Phase::Inspecting => 6,
            Phase::Fetching => 6,
            Phase::Copying => 5,
            Phase::Writing => 5,
            Phase::Dropping(_) => 4,
            Phase::Verifying => 3,
            Phase::Publishing => 1,
            Phase::Discarding(_) => 1,
        }
    }
}

/// Every job ends, whatever comes of its actions.
pub proof fn a_job_ends(job: Job, phase: Phase, news: News)
    ensures
        job.advance(phase, news) matches Progress::Next(next, _) ==> next.rank() < phase.rank(),
{
}

/// Nothing is moved into the cache but bytes of the pinned digest that the machine boots,
/// as they were read back.
pub proof fn only_the_pinned_kernel_is_published(job: Job, phase: Phase, news: News)
    requires
        job.advance(phase, news) is Next,
        job.advance(phase, news)->Next_1 is Rename,
    ensures
        phase is Verifying,
        news is Bytes,
        pin(news->Bytes_0) == job.pinned.image_digest,
        kernel_format(news->Bytes_0) matches KernelFormat::Bootable(found) ==> found
            == job.architecture,
        job.advance(phase, news)->Next_1 == (Deed::Rename {
            from: job.staged(),
            to: job.cached(),
        }),
{
}

/// A job succeeds only where the cache held the pinned kernel already, or where a verified
/// one was moved into it, and always with the same result.
pub proof fn a_success_is_the_pinned_kernel(job: Job, phase: Phase, news: News)
    requires
        job.advance(phase, news) is Over,
        job.advance(phase, news)->Over_0 is Ok,
    ensures
        job.advance(phase, news)->Over_0->Ok_0 == job.pair(),
        (phase is Checking && news is Bytes && job.verdict(news->Bytes_0) is Ok) || (
        phase is Publishing && news is Done),
{
}

/// A host whose cache holds the pinned kernel asks nothing of the registry: the job is over.
pub proof fn a_cached_kernel_is_used(job: Job, bytes: Seq<u8>)
    requires
        job.verdict(bytes) is Ok,
    ensures
        job.advance(Phase::Checking, News::Bytes(bytes)) == Progress::Over(
            Ok::<BootPair, Refusal>(job.pair()),
        ),
{
}

/// The registry is asked only where the operator named no kernel and there is a registry.
pub proof fn the_operators_kernel_comes_first(job: Job, phase: Phase, news: News)
    requires
        job.advance(phase, news) is Next,
        job.advance(phase, news)->Next_1 is Download,
    ensures
        phase is Clearing,
        job.override_path is None,
        job.base_url is Some,
{
}

} // verus!
