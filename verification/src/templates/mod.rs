//! The templates that VMs boot from: an alias is pinned to a version whose files were
//! hashed, and every later use of a file holds it to that hash.

use vstd::prelude::*;

#[allow(unused_imports)]
use crate::digest::{hex, sha256};
use crate::digest::sha256_bytes;
#[allow(unused_imports)]
use crate::files::{agrees, answered, answers};
use crate::path;
use crate::text::{has_prefix, is_among, joined_strings, same, split_on, words_of};
#[allow(unused_imports)]
use crate::text::{join, opt_view, split, starts_with, views, words};

pub mod laws;
pub mod pinned;
pub mod registry;

verus! {

/// A machine that kernels are built for.
#[derive(Debug, Clone, Copy, PartialEq, Eq, Structural)]
pub enum Architecture {
    X86_64,
    Aarch64,
}

impl Architecture {
    /// The name of the machine.
    pub open spec fn name(self) -> Seq<char> {
        match self {
            Architecture::X86_64 => "x86_64"@,
            Architecture::Aarch64 => "aarch64"@,
        }
    }

    /// The name of the machine.
    pub fn as_str(&self) -> (r: &'static str)
        ensures
            r@ == self.name(),
    {
        match self {
            Architecture::X86_64 => "x86_64",
            Architecture::Aarch64 => "aarch64",
        }
    }

    /// The other machine.
    pub fn other(&self) -> (r: Architecture)
        ensures
            r != *self,
    {
        match self {
            Architecture::X86_64 => Architecture::Aarch64,
            Architecture::Aarch64 => Architecture::X86_64,
        }
    }
}

/// What the registry can fail at.
#[derive(Debug)]
pub enum TemplateError {
    /// The path of a file is absolute, empty, or leads out of the image root.
    InvalidPath,
    /// A path names something that is no regular file.
    NotRegularFile(String),
    /// A file is no longer what it was when the template was made.
    ArtifactChanged(String),
    /// Two templates have the same alias and version.
    DuplicateVersion(String, String),
    /// Two templates have the same alias.
    DuplicateAlias(String),
    /// A kernel is for another machine than this host.
    KernelArchitectureMismatch { path: String, found: Architecture, host: Architecture },
    /// A kernel is for a machine that no host can boot.
    UnsupportedKernelArchitecture { path: String, machine: u16 },
    /// A file operation failed.
    Io(String),
}

/// [`TemplateError`] as contracts speak of it.
pub enum Problem {
    InvalidPath,
    NotRegularFile(Seq<char>),
    ArtifactChanged(Seq<char>),
    DuplicateVersion(Seq<char>, Seq<char>),
    DuplicateAlias(Seq<char>),
    KernelArchitectureMismatch { path: Seq<char>, found: Architecture, host: Architecture },
    UnsupportedKernelArchitecture { path: Seq<char>, machine: u16 },
    Io(Seq<char>),
}

impl View for TemplateError {
    type V = Problem;

    open spec fn view(&self) -> Problem {
        match self {
            TemplateError::InvalidPath => Problem::InvalidPath,
            TemplateError::NotRegularFile(p) => Problem::NotRegularFile(p@),
            TemplateError::ArtifactChanged(p) => Problem::ArtifactChanged(p@),
            TemplateError::DuplicateVersion(a, v) => Problem::DuplicateVersion(a@, v@),
            TemplateError::DuplicateAlias(a) => Problem::DuplicateAlias(a@),
            TemplateError::KernelArchitectureMismatch { path, found, host } => {
                Problem::KernelArchitectureMismatch { path: path@, found: *found, host: *host }
            },
            TemplateError::UnsupportedKernelArchitecture { path, machine } => {
                Problem::UnsupportedKernelArchitecture { path: path@, machine: *machine }
            },
            TemplateError::Io(message) => Problem::Io(message@),
        }
    }
}

/// A number of 16 bits as four hexadecimal digits.
pub open spec fn hex16(n: u16) -> Seq<char> {
    hex(seq![(n / 256) as u8, (n % 256) as u8])
}

impl Problem {
    /// The problem in one line.
    pub open spec fn message(self) -> Seq<char> {
        match self {
            Problem::InvalidPath => "template artifact path must be a non-empty relative path"@,
            Problem::NotRegularFile(p) => "template artifact is not a regular file: "@ + p,
            Problem::ArtifactChanged(p) => {
                "template artifact changed after registry validation: "@ + p
            },
            Problem::DuplicateVersion(a, v) => {
                "template registry contains a duplicate version: "@ + a + "/"@ + v
            },
            Problem::DuplicateAlias(a) => "template registry contains a duplicate alias: "@ + a,
            Problem::KernelArchitectureMismatch { path, found, host } => "kernel "@ + path
                + " is built for "@ + found.name() + ", but this host is "@ + host.name(),
            Problem::UnsupportedKernelArchitecture { path, machine } => "kernel "@ + path
                + " targets an architecture firecrab does not support (ELF machine 0x"@ + hex16(
                machine,
            ) + ")"@,
            Problem::Io(message) => "template registry I/O failed: "@ + message,
        }
    }
}

impl TemplateError {
    /// The error in one line.
    pub fn message(&self) -> (r: String)
        ensures
            r@ == self@.message(),
    {
        match self {
            TemplateError::InvalidPath =>
                "template artifact path must be a non-empty relative path".to_owned(),
            TemplateError::NotRegularFile(p) => {
                "template artifact is not a regular file: ".to_owned().concat(p)
            },
            TemplateError::ArtifactChanged(p) => {
                "template artifact changed after registry validation: ".to_owned().concat(p)
            },
            TemplateError::DuplicateVersion(a, v) => {
                "template registry contains a duplicate version: ".to_owned().concat(a).concat(
                    "/",
                ).concat(v)
            },
            TemplateError::DuplicateAlias(a) => {
                "template registry contains a duplicate alias: ".to_owned().concat(a)
            },
            TemplateError::KernelArchitectureMismatch { path, found, host } => "kernel ".to_owned().concat(
                path,
            ).concat(" is built for ").concat(found.as_str()).concat(
                ", but this host is ",
            ).concat(host.as_str()),
            TemplateError::UnsupportedKernelArchitecture { path, machine } => {
                let bytes = [(*machine / 256) as u8, (*machine % 256) as u8];
                assert(bytes@ =~= seq![(*machine / 256) as u8, (*machine % 256) as u8]);
                "kernel ".to_owned().concat(path).concat(
                    " targets an architecture firecrab does not support (ELF machine 0x",
                ).concat(&crate::digest::hex_of(&bytes)).concat(")")
            },
            TemplateError::Io(message) => {
                "template registry I/O failed: ".to_owned().concat(message)
            },
        }
    }
}

/// A template to register: an alias, the version that it is pinned to, and the files of
/// that version, relative to the image root.
#[derive(Debug)]
pub struct TemplateSpec {
    /// The name that the API accepts.
    pub alias: String,
    /// The version.
    pub version: String,
    /// The kernel.
    pub kernel: String,
    /// The initrd, where the kernel needs one.
    pub initrd: Option<String>,
    /// The root filesystem.
    pub rootfs: String,
    /// The kernel's command line.
    pub boot_args: String,
}

/// [`TemplateSpec`] as contracts speak of it.
pub struct Wanted {
    pub alias: Seq<char>,
    pub version: Seq<char>,
    pub kernel: Seq<char>,
    pub initrd: Option<Seq<char>>,
    pub rootfs: Seq<char>,
    pub boot_args: Seq<char>,
}

impl View for TemplateSpec {
    type V = Wanted;

    open spec fn view(&self) -> Wanted {
        Wanted {
            alias: self.alias@,
            version: self.version@,
            kernel: self.kernel@,
            initrd: opt_view(self.initrd),
            rootfs: self.rootfs@,
            boot_args: self.boot_args@,
        }
    }
}

impl Wanted {
    /// The files of the template: kernel, root filesystem, initrd.
    pub open spec fn files(self) -> Seq<Seq<char>> {
        match self.initrd {
            Some(initrd) => seq![self.kernel, self.rootfs, initrd],
            None => seq![self.kernel, self.rootfs],
        }
    }
}

/// The wanted templates that `specs` stand for.
pub open spec fn all_wanted(specs: Seq<TemplateSpec>) -> Seq<Wanted> {
    specs.map_values(|s: TemplateSpec| s@)
}

impl TemplateSpec {
    /// Another one with the same contents.
    pub fn copy(&self) -> (r: Self)
        ensures
            r@ == self@,
    {
        TemplateSpec {
            alias: self.alias.clone(),
            version: self.version.clone(),
            kernel: self.kernel.clone(),
            initrd: match &self.initrd {
                Some(initrd) => Some(initrd.clone()),
                None => None,
            },
            rootfs: self.rootfs.clone(),
            boot_args: self.boot_args.clone(),
        }
    }
}

/// A file whose identity and contents are pinned.
#[derive(Debug)]
pub struct VerifiedArtifact {
    relative_path: String,
    device: u64,
    inode: u64,
    length: u64,
    sha256: String,
}

/// [`VerifiedArtifact`] as contracts speak of it.
pub struct Artifact {
    pub path: Seq<char>,
    pub device: u64,
    pub inode: u64,
    pub length: u64,
    pub sha256: Seq<char>,
}

impl View for VerifiedArtifact {
    type V = Artifact;

    closed spec fn view(&self) -> Artifact {
        Artifact {
            path: self.relative_path@,
            device: self.device,
            inode: self.inode,
            length: self.length,
            sha256: self.sha256@,
        }
    }
}

impl VerifiedArtifact {
    /// A file pinned to what was seen of it.
    pub(crate) fn new(path: &str, device: u64, inode: u64, length: u64, sha256: String) -> (r: Self)
        ensures
            r@ == (Artifact { path: path@, device, inode, length, sha256: sha256@ }),
    {
        VerifiedArtifact { relative_path: path.to_owned(), device, inode, length, sha256 }
    }

    /// The device that the file is on.
    pub fn device(&self) -> (r: u64)
        ensures
            r == self@.device,
    {
        self.device
    }

    /// The number of the file on its device.
    pub fn inode(&self) -> (r: u64)
        ensures
            r == self@.inode,
    {
        self.inode
    }

    /// The pinned digest in hexadecimal digits.
    pub fn sha256(&self) -> (r: &str)
        ensures
            r@ == self@.sha256,
    {
        &self.sha256
    }

    /// The pinned length in bytes.
    pub fn length(&self) -> (r: u64)
        ensures
            r == self@.length,
    {
        self.length
    }

    /// The path relative to the image root.
    pub fn relative_path(&self) -> (r: &str)
        ensures
            r@ == self@.path,
    {
        &self.relative_path
    }

    /// Another one with the same contents.
    pub fn copy(&self) -> (r: Self)
        ensures
            r@ == self@,
    {
        VerifiedArtifact {
            relative_path: self.relative_path.clone(),
            device: self.device,
            inode: self.inode,
            length: self.length,
            sha256: self.sha256.clone(),
        }
    }
}

/// A version of a template with its pinned files.
#[derive(Debug)]
pub struct TemplateVersion {
    /// The alias that it was registered under.
    pub name: String,
    /// The version.
    pub version: String,
    /// The kernel.
    pub kernel: VerifiedArtifact,
    /// The initrd, where the kernel needs one.
    pub initrd: Option<VerifiedArtifact>,
    /// The root filesystem.
    pub rootfs: VerifiedArtifact,
    /// The kernel's command line.
    pub boot_args: String,
}

/// [`TemplateVersion`] as contracts speak of it.
pub struct Template {
    pub name: Seq<char>,
    pub version: Seq<char>,
    pub kernel: Artifact,
    pub initrd: Option<Artifact>,
    pub rootfs: Artifact,
    pub boot_args: Seq<char>,
}

impl View for TemplateVersion {
    type V = Template;

    open spec fn view(&self) -> Template {
        Template {
            name: self.name@,
            version: self.version@,
            kernel: self.kernel@,
            initrd: match self.initrd {
                Some(initrd) => Some(initrd@),
                None => None,
            },
            rootfs: self.rootfs@,
            boot_args: self.boot_args@,
        }
    }
}

impl Template {
    /// The files of the template: kernel, root filesystem, initrd.
    pub open spec fn files(self) -> Seq<Seq<char>> {
        match self.initrd {
            Some(initrd) => seq![self.kernel.path, self.rootfs.path, initrd.path],
            None => seq![self.kernel.path, self.rootfs.path],
        }
    }
}

/// The arguments of a kernel's command line as a VM starts with them: with PCI the
/// kernel must not be told to leave it alone and must not rename the network interface,
/// and Rocky's initrd must load the network driver.
pub open spec fn runtime_args(args: Seq<Seq<char>>, pci: bool, rocky: bool) -> Seq<Seq<char>> {
    let kept = if pci {
        args.filter(|a: Seq<char>| a != "pci=off"@)
    } else {
        args
    };
    let kept = if rocky && !kept.contains("rd.driver.pre=virtio_net"@) {
        kept.push("rd.driver.pre=virtio_net"@)
    } else {
        kept
    };
    if pci && !kept.contains("net.ifnames=0"@) {
        kept.push("net.ifnames=0"@)
    } else {
        kept
    }
}

/// A VM with PCI is not told to leave PCI alone, and its network interface keeps its name;
/// a Rocky guest loads the network driver. Nothing else is taken away.
pub proof fn a_pci_guest_finds_its_devices(args: Seq<Seq<char>>, pci: bool, rocky: bool)
    ensures
        pci ==> !runtime_args(args, pci, rocky).contains("pci=off"@),
        pci ==> runtime_args(args, pci, rocky).contains("net.ifnames=0"@),
        rocky ==> runtime_args(args, pci, rocky).contains("rd.driver.pre=virtio_net"@),
        forall|a: Seq<char>|
            args.contains(a) && !(pci && a == "pci=off"@) ==> #[trigger] runtime_args(
                args,
                pci,
                rocky,
            ).contains(a),
{
    reveal_strlit("pci=off");
    reveal_strlit("net.ifnames=0");
    reveal_strlit("rd.driver.pre=virtio_net");
    let keep = |a: Seq<char>| a != "pci=off"@;
    let first = if pci {
        args.filter(keep)
    } else {
        args
    };
    assert forall|a: Seq<char>| args.contains(a) && !(pci && a == "pci=off"@) implies #[trigger] first.contains(a) by {
        if pci {
            args.lemma_filter_contains_rev(keep, a);
        }
    }
    if pci {
        assert forall|i: int| 0 <= i < first.len() implies #[trigger] first[i] != "pci=off"@ by {
            args.lemma_filter_pred(keep, i);
        }
    }
    let second = if rocky && !first.contains("rd.driver.pre=virtio_net"@) {
        first.push("rd.driver.pre=virtio_net"@)
    } else {
        first
    };
    assert forall|a: Seq<char>| first.contains(a) implies #[trigger] second.contains(a) by {
        let i = choose|i: int| 0 <= i < first.len() && first[i] == a;
        assert(second[i] == a);
    }
    if rocky && !first.contains("rd.driver.pre=virtio_net"@) {
        assert(second.last() == "rd.driver.pre=virtio_net"@);
    }
    let third = runtime_args(args, pci, rocky);
    assert forall|a: Seq<char>| second.contains(a) implies #[trigger] third.contains(a) by {
        let i = choose|i: int| 0 <= i < second.len() && second[i] == a;
        assert(third[i] == a);
    }
    if pci && !second.contains("net.ifnames=0"@) {
        assert(third.last() == "net.ifnames=0"@);
    }
    assert("pci=off"@.len() == 7 && "net.ifnames=0"@.len() == 13
        && "rd.driver.pre=virtio_net"@.len() == 24);
}

impl TemplateVersion {
    /// The digest of the command line, by which a change of it shows.
    pub fn boot_args_sha256(&self) -> (r: String)
        ensures
            r@ == hex(sha256(vstd::utf8::encode_utf8(self.boot_args@))),
    {
        sha256_bytes(self.boot_args.as_str().as_bytes())
    }

    /// Whether a VM of this template must be started with PCI on the given machine.
    pub fn requires_pci_transport(&self, manifest: &ImageManifest, architecture: &str) -> (r: bool)
        ensures
            r == needs_pci(*manifest, self.name@, architecture@),
    {
        requires_pci_transport_for_arch(manifest, &self.name, architecture)
    }

    /// The command line that a VM of this template starts with on the given machine.
    pub fn runtime_boot_args(&self, manifest: &ImageManifest, architecture: &str) -> (r: String)
        ensures
            r@ == command_line(*manifest, self.name@, self.boot_args@, architecture@),
    {
        let enable_pci = self.requires_pci_transport(manifest, architecture);
        let all = words_of(&self.boot_args);
        let ghost given = views(all@);
        let mut args: Vec<String> = Vec::new();
        let mut i: usize = 0;
        let ghost keep = |a: Seq<char>| a != "pci=off"@;
        assert(given.take(0).filter(keep) =~= Seq::<Seq<char>>::empty()) by {
            reveal(Seq::filter);
        }
        assert(views(args@) =~= Seq::<Seq<char>>::empty());
        while i < all.len()
            invariant
                i <= all@.len(),
                given == views(all@),
                keep == (|a: Seq<char>| a != "pci=off"@),
                views(args@) == if enable_pci {
                    given.take(i as int).filter(keep)
                } else {
                    given.take(i as int)
                },
            decreases all@.len() - i,
        {
            let ghost before = views(args@);
            assert(given.take(i + 1).drop_last() =~= given.take(i as int));
            assert(given.take(i + 1).last() == all@[i as int]@);
            assert(given.take(i + 1) =~= given.take(i as int).push(all@[i as int]@));
            proof {
                reveal(Seq::filter);
            }
            if !(enable_pci && same(&all[i], "pci=off")) {
                args.push(all[i].clone());
                assert(views(args@) =~= before.push(all@[i as int]@));
            }
            i += 1;
        }
        assert(given.take(i as int) =~= given);
        let ghost kept = views(args@);
        if has_prefix(&self.name, "rocky-") && !is_among(&args, "rd.driver.pre=virtio_net") {
            args.push("rd.driver.pre=virtio_net".to_owned());
            assert(views(args@) =~= kept.push("rd.driver.pre=virtio_net"@));
        }
        let ghost kept = views(args@);
        if enable_pci && !is_among(&args, "net.ifnames=0") {
            args.push("net.ifnames=0".to_owned());
            assert(views(args@) =~= kept.push("net.ifnames=0"@));
        }
        joined_strings(&args, " ")
    }

    /// Another one with the same contents.
    pub fn copy(&self) -> (r: Self)
        ensures
            r@ == self@,
    {
        TemplateVersion {
            name: self.name.clone(),
            version: self.version.clone(),
            kernel: self.kernel.copy(),
            initrd: match &self.initrd {
                Some(initrd) => Some(initrd.copy()),
                None => None,
            },
            rootfs: self.rootfs.copy(),
            boot_args: self.boot_args.clone(),
        }
    }
}

/// The files of an image for one machine.
#[derive(Debug)]
pub struct ImageArtifacts {
    pub kernel: String,
    pub initrd: Option<String>,
    pub rootfs: String,
    pub boot_args: String,
}

/// An image that the project publishes.
#[derive(Debug)]
pub struct ManifestImage {
    pub alias: String,
    pub template_version: String,
    pub distribution: String,
    pub x86_64: Option<ImageArtifacts>,
    pub aarch64: Option<ImageArtifacts>,
}

/// The images that the project publishes.
#[derive(Debug)]
pub struct ImageManifest {
    pub images: Vec<ManifestImage>,
}

impl ManifestImage {
    /// The files for a machine: any but `aarch64` counts as `x86_64`.
    pub open spec fn artifacts(self, architecture: Seq<char>) -> Option<ImageArtifacts> {
        if architecture == "aarch64"@ {
            self.aarch64
        } else {
            self.x86_64
        }
    }

    /// The template of the image for a machine.
    pub open spec fn wanted(self, architecture: Seq<char>) -> Wanted {
        let artifacts = self.artifacts(architecture)->0;
        Wanted {
            alias: self.alias@,
            version: self.template_version@,
            kernel: artifacts.kernel@,
            initrd: opt_view(artifacts.initrd),
            rootfs: artifacts.rootfs@,
            boot_args: artifacts.boot_args@,
        }
    }
}

impl ImageManifest {
    /// Whether every image has files for a machine.
    pub open spec fn covers(self, architecture: Seq<char>) -> bool {
        forall|i: int|
            0 <= i < self.images@.len() ==> (#[trigger] self.images@[i]).artifacts(architecture)
                is Some
    }

    /// The templates of the images for a machine.
    pub open spec fn wanted(self, architecture: Seq<char>) -> Seq<Wanted> {
        self.images@.map_values(|i: ManifestImage| i.wanted(architecture))
    }
}

/// Whether an image needs PCI on a machine: Rocky's kernel has no MMIO transport and
/// Ubuntu's refuses it, on all but aarch64.
pub open spec fn needs_pci(manifest: ImageManifest, name: Seq<char>, architecture: Seq<char>) -> bool {
    distribution_needs_pci(manifest.images@, name) && architecture != "aarch64"@
}

/// The command line that a VM of a template of that name starts with on a machine.
pub open spec fn command_line(
    manifest: ImageManifest,
    name: Seq<char>,
    boot_args: Seq<char>,
    architecture: Seq<char>,
) -> Seq<char> {
    join(
        runtime_args(
            words(boot_args),
            needs_pci(manifest, name, architecture),
            starts_with(name, "rocky-"@),
        ),
        " "@,
    )
}

/// Whether the first image of that name is of a distribution that needs PCI.
pub open spec fn distribution_needs_pci(images: Seq<ManifestImage>, name: Seq<char>) -> bool
    decreases images.len(),
{
    if images.len() == 0 {
        false
    } else if images[0].alias@ == name {
        images[0].distribution@ == "rocky"@ || images[0].distribution@ == "ubuntu"@
    } else {
        distribution_needs_pci(images.skip(1), name)
    }
}

/// Whether an image needs PCI on a machine.
pub fn requires_pci_transport_for_arch(
    manifest: &ImageManifest,
    name: &str,
    architecture: &str,
) -> (r: bool)
    ensures
        r == needs_pci(*manifest, name@, architecture@),
{
    let ghost all = manifest.images@;
    let mut i: usize = 0;
    assert(all.skip(0) =~= all);
    while i < manifest.images.len()
        invariant
            i <= manifest.images@.len(),
            all == manifest.images@,
            distribution_needs_pci(all.skip(i as int), name@) == distribution_needs_pci(
                all,
                name@,
            ),
        decreases manifest.images@.len() - i,
    {
        assert(all.skip(i as int)[0] == all[i as int]);
        assert(all.skip(i as int).skip(1) =~= all.skip(i + 1));
        let image = &manifest.images[i];
        if same(&image.alias, name) {
            return (same(&image.distribution, "rocky") || same(&image.distribution, "ubuntu"))
                && !same(architecture, "aarch64");
        }
        i += 1;
    }
    false
}

/// The templates of the images that the project publishes, for a machine.
pub fn default_specs_for_arch(manifest: &ImageManifest, host_arch: &str) -> (r: Vec<TemplateSpec>)
    requires
        manifest.covers(host_arch@),
    ensures
        all_wanted(r@) == manifest.wanted(host_arch@),
{
    let is_arm = same(host_arch, "aarch64");
    let mut out: Vec<TemplateSpec> = Vec::new();
    let mut i: usize = 0;
    while i < manifest.images.len()
        invariant
            i <= manifest.images@.len(),
            is_arm == (host_arch@ == "aarch64"@),
            manifest.covers(host_arch@),
            out@.len() == i,
            forall|j: int|
                0 <= j < i ==> (#[trigger] out@[j])@ == manifest.images@[j].wanted(host_arch@),
        decreases manifest.images@.len() - i,
    {
        let image = &manifest.images[i];
        assert(manifest.images@[i as int].artifacts(host_arch@) is Some);
        let chosen = if is_arm {
            &image.aarch64
        } else {
            &image.x86_64
        };
        if let Some(artifact) = chosen {
            out.push(
                TemplateSpec {
                    alias: image.alias.clone(),
                    version: image.template_version.clone(),
                    kernel: artifact.kernel.clone(),
                    initrd: match &artifact.initrd {
                        Some(initrd) => Some(initrd.clone()),
                        None => None,
                    },
                    rootfs: artifact.rootfs.clone(),
                    boot_args: artifact.boot_args.clone(),
                },
            );
        }
        i += 1;
    }
    assert(all_wanted(out@) =~= manifest.wanted(host_arch@));
    out
}

/// Whether two paths are the same.
pub open spec fn same_place(a: Seq<char>, b: Seq<char>) -> bool {
    path::components(a) == path::components(b)
}

/// Whether one of some paths is the same as `p`.
pub open spec fn among(paths: Seq<Seq<char>>, p: Seq<char>) -> bool {
    exists|i: int| 0 <= i < paths.len() && same_place(#[trigger] paths[i], p)
}

/// The alias of the first template that a file belongs to.
pub open spec fn owner(catalog: Seq<Wanted>, file: Seq<char>) -> Option<Seq<char>>
    decreases catalog.len(),
{
    if catalog.len() == 0 {
        None
    } else if among(catalog[0].files(), file) {
        Some(catalog[0].alias)
    } else {
        owner(catalog.skip(1), file)
    }
}

/// The alias of the first template that a file belongs to.
pub fn catalog_owner_of(catalog: &[TemplateSpec], relative: &str) -> (r: Option<String>)
    ensures
        opt_view(r) == owner(all_wanted(catalog@), relative@),
{
    let ghost all = all_wanted(catalog@);
    let mut i: usize = 0;
    assert(all.skip(0) =~= all);
    while i < catalog.len()
        invariant
            i <= catalog@.len(),
            all == all_wanted(catalog@),
            owner(all.skip(i as int), relative@) == owner(all, relative@),
        decreases catalog@.len() - i,
    {
        let spec = &catalog[i];
        let ghost files = spec@.files();
        assert(all.skip(i as int)[0] == spec@);
        assert(all.skip(i as int).skip(1) =~= all.skip(i + 1));
        let mut owned = path::same_path(&spec.kernel, relative) || path::same_path(
            &spec.rootfs,
            relative,
        );
        assert(files[0] == spec.kernel@ && files[1] == spec.rootfs@);
        if let Some(initrd) = &spec.initrd {
            owned = owned || path::same_path(initrd, relative);
            assert(files[2] == initrd@);
        }
        assert(owned == among(files, relative@));
        if owned {
            return Some(spec.alias.clone());
        }
        i += 1;
    }
    None
}

/// Whether the files of a template were looked for below an image root, with that outcome:
/// they are there where each was found, and not where one was not.
pub open spec fn sought<F: Fn(&str) -> bool>(
    is_file: F,
    root: Seq<char>,
    wanted: Wanted,
    there: bool,
) -> bool {
    let kernel = path::join(root, wanted.kernel);
    let rootfs = path::join(root, wanted.rootfs);
    let initrd = path::join(root, wanted.initrd->0);
    if there {
        &&& answered(is_file, kernel, true)
        &&& answered(is_file, rootfs, true)
        &&& wanted.initrd is Some ==> answered(is_file, initrd, true)
    } else {
        ||| answered(is_file, kernel, false)
        ||| answered(is_file, rootfs, false)
        ||| wanted.initrd is Some && answered(is_file, initrd, false)
    }
}

/// Whether every file of a template is there.
pub fn artifacts_present<F: Fn(&str) -> bool>(
    image_root: &str,
    spec: &TemplateSpec,
    is_file: &F,
) -> (r: bool)
    requires
        answers(*is_file),
    ensures
        sought(*is_file, image_root@, spec@, r),
        forall|files: spec_fn(Seq<char>) -> bool| #[trigger]
            agrees(*is_file, files) ==> r == (files(path::join(image_root@, spec.kernel@))
                && files(path::join(image_root@, spec.rootfs@)) && (spec.initrd is Some ==> files(
                path::join(image_root@, spec.initrd->0@),
            ))),
{
    let kernel = path::joined(image_root, &spec.kernel);
    let found = is_file(&kernel);
    assert(answered(*is_file, kernel@, found));
    if !found {
        return false;
    }
    let rootfs = path::joined(image_root, &spec.rootfs);
    let found = is_file(&rootfs);
    assert(answered(*is_file, rootfs@, found));
    if !found {
        return false;
    }
    match &spec.initrd {
        Some(initrd) => {
            let p = path::joined(image_root, initrd);
            let found = is_file(&p);
            assert(answered(*is_file, p@, found));
            found
        },
        None => true,
    }
}

/// Whether a path stays below where it starts: it is relative, names something, and has
/// neither `.` nor `..` between its separators.
pub open spec fn stays_below(p: Seq<char>) -> bool {
    let pieces = split(p, '/');
    &&& p.len() > 0
    &&& p[0] != '/'
    &&& forall|i: int| 0 <= i < pieces.len() ==> #[trigger] pieces[i] != "."@ && pieces[i] != ".."@
}

/// Refuses a path that does not stay below the image root.
pub fn validate_relative_path(p: &str) -> (r: Result<(), TemplateError>)
    ensures
        r is Ok == stays_below(p@),
        r is Err ==> r->Err_0@ == Problem::InvalidPath,
{
    proof {
        reveal_strlit("");
        assert(p@.len() == 0 ==> p@ =~= ""@);
    }
    if same(p, "") {
        return Err(TemplateError::InvalidPath);
    }
    if path::is_absolute(p) {
        return Err(TemplateError::InvalidPath);
    }
    let all = split_on(p, '/');
    let ghost pieces = split(p@, '/');
    let mut i: usize = 0;
    while i < all.len()
        invariant
            i <= all@.len(),
            pieces == views(all@),
            pieces == split(p@, '/'),
            forall|j: int| 0 <= j < i ==> #[trigger] pieces[j] != "."@ && pieces[j] != ".."@,
        decreases all@.len() - i,
    {
        assert(pieces[i as int] == all@[i as int]@);
        if same(&all[i], ".") || same(&all[i], "..") {
            return Err(TemplateError::InvalidPath);
        }
        i += 1;
    }
    Ok(())
}

/// What the header of a kernel says.
#[derive(Debug, Clone, Copy, PartialEq, Eq, Structural)]
pub enum KernelFormat {
    /// A kernel for a machine that hosts can be.
    Bootable(Architecture),
    /// A kernel for a machine that no host can boot.
    Foreign { machine: u16 },
    /// Nothing known. Templates from before kernels were looked at hold such files, so
    /// they are let through.
    Unrecognized,
}

/// What the header of a kernel says: an ELF file names its machine, and an `Image` for
/// aarch64 has a magic number.
pub open spec fn kernel_format(header: Seq<u8>) -> KernelFormat {
    if header.len() >= 4 && header.take(4) == seq![0x7fu8, 0x45u8, 0x4cu8, 0x46u8] {
        if header.len() < 20 {
            KernelFormat::Unrecognized
        } else {
            let machine = (header[18] + 256 * header[19]) as u16;
            if machine == 0x3e {
                KernelFormat::Bootable(Architecture::X86_64)
            } else if machine == 0xb7 {
                KernelFormat::Bootable(Architecture::Aarch64)
            } else {
                KernelFormat::Foreign { machine }
            }
        }
    } else if header.len() >= 60 && header.subrange(56, 60) == seq![0x41u8, 0x52u8, 0x4du8, 0x64u8] {
        KernelFormat::Bootable(Architecture::Aarch64)
    } else {
        KernelFormat::Unrecognized
    }
}

/// What the header of a kernel says.
pub fn kernel_architecture(header: &[u8]) -> (r: KernelFormat)
    ensures
        r == kernel_format(header@),
{
    if header.len() >= 4 {
        let is_elf = header[0] == 0x7f && header[1] == 0x45 && header[2] == 0x4c && header[3]
            == 0x46;
        let ghost magic = seq![0x7fu8, 0x45u8, 0x4cu8, 0x46u8];
        let ghost start = header@.take(4);
        assert(start[0] == header@[0] && start[1] == header@[1] && start[2] == header@[2]
            && start[3] == header@[3]);
        assert(is_elf == (start == magic)) by {
            if is_elf {
                assert(start =~= magic);
            }
        }
        if is_elf {
            if header.len() < 20 {
                return KernelFormat::Unrecognized;
            }
            let machine: u16 = header[18] as u16 + 256 * header[19] as u16;
            return if machine == 0x3e {
                KernelFormat::Bootable(Architecture::X86_64)
            } else if machine == 0xb7 {
                KernelFormat::Bootable(Architecture::Aarch64)
            } else {
                KernelFormat::Foreign { machine }
            };
        }
    }
    if header.len() >= 60 {
        let is_image = header[56] == 0x41 && header[57] == 0x52 && header[58] == 0x4d && header[59]
            == 0x64;
        let ghost magic = seq![0x41u8, 0x52u8, 0x4du8, 0x64u8];
        let ghost part = header@.subrange(56, 60);
        assert(part[0] == header@[56] && part[1] == header@[57] && part[2] == header@[58]
            && part[3] == header@[59]);
        assert(is_image == (part == magic)) by {
            if is_image {
                assert(part =~= magic);
            }
        }
        if is_image {
            return KernelFormat::Bootable(Architecture::Aarch64);
        }
    }
    KernelFormat::Unrecognized
}

/// Whether a host can boot a kernel, by its header.
pub open spec fn boot_verdict(
    p: Seq<char>,
    header: Seq<u8>,
    host: Architecture,
) -> Result<(), Problem> {
    match kernel_format(header) {
        KernelFormat::Bootable(found) => if found == host {
            Ok(())
        } else {
            Err(Problem::KernelArchitectureMismatch { path: p, found, host })
        },
        KernelFormat::Foreign { machine } => Err(
            Problem::UnsupportedKernelArchitecture { path: p, machine },
        ),
        KernelFormat::Unrecognized => Ok(()),
    }
}

/// What a result comes to.
pub open spec fn verdict<T>(r: Result<T, TemplateError>) -> Result<(), Problem> {
    match r {
        Ok(_) => Ok(()),
        Err(e) => Err(e@),
    }
}

/// Refuses a kernel that the host cannot boot: it would hang without a word.
pub fn verify_kernel_architecture(p: &str, header: &[u8], host: Architecture) -> (r: Result<
    (),
    TemplateError,
>)
    ensures
        verdict(r) == boot_verdict(p@, header@, host),
{
    match kernel_architecture(header) {
        KernelFormat::Bootable(found) => if found == host {
            Ok(())
        } else {
            Err(TemplateError::KernelArchitectureMismatch { path: p.to_owned(), found, host })
        },
        KernelFormat::Foreign { machine } => Err(
            TemplateError::UnsupportedKernelArchitecture { path: p.to_owned(), machine },
        ),
        KernelFormat::Unrecognized => Ok(()),
    }
}

} // verus!
