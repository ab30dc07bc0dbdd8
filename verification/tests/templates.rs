//! The registry of templates, on an image root in memory.

use firecrab::digest::sha256_bytes;
use firecrab::templates::registry::{forget_registration, FileStat, TemplateRegistry};
use firecrab::templates::{
    default_specs_for_arch, kernel_architecture, requires_pci_transport_for_arch,
    validate_relative_path, Architecture,
    ImageArtifacts, ImageManifest, KernelFormat, ManifestImage, TemplateError, TemplateSpec,
    TemplateVersion, VerifiedArtifact,
};
use std::cell::RefCell;
use std::collections::HashMap;

const HOST: Architecture = Architecture::X86_64;

struct MemoryFile {
    regular: bool,
    inode: u64,
    mtime: i64,
    bytes: Vec<u8>,
}

/// An image root, with the registrations that were written to it.
struct Root {
    files: RefCell<HashMap<String, MemoryFile>>,
    entries: RefCell<Vec<TemplateSpec>>,
    reads: RefCell<usize>,
    clock: RefCell<i64>,
}

impl Root {
    fn new(files: &[(&str, &[u8])]) -> Self {
        let root = Root {
            files: RefCell::new(HashMap::new()),
            entries: RefCell::new(Vec::new()),
            reads: RefCell::new(0),
            clock: RefCell::new(1),
        };
        for (path, bytes) in files {
            root.put(path, bytes);
        }
        root
    }

    fn put(&self, path: &str, bytes: &[u8]) {
        *self.clock.borrow_mut() += 1;
        let mtime = *self.clock.borrow();
        let mut files = self.files.borrow_mut();
        let inode = files.get(path).map_or(files.len() as u64 + 10, |f| f.inode);
        files.insert(
            path.to_owned(),
            MemoryFile {
                regular: true,
                inode,
                mtime,
                bytes: bytes.to_vec(),
            },
        );
    }

    fn stat(&self, path: &str) -> Result<FileStat, String> {
        let files = self.files.borrow();
        let file = files.get(path).ok_or_else(|| "no such file".to_owned())?;
        Ok(FileStat {
            regular: file.regular,
            device: 1,
            inode: file.inode,
            length: file.bytes.len() as u64,
            mtime: file.mtime,
            mtime_nsec: 0,
        })
    }

    fn read(&self, path: &str) -> Result<Vec<u8>, String> {
        *self.reads.borrow_mut() += 1;
        let files = self.files.borrow();
        let file = files.get(path).ok_or_else(|| "no such file".to_owned())?;
        Ok(file.bytes.clone())
    }

    fn is_file(&self, path: &str) -> bool {
        path.strip_prefix("/images/")
            .is_some_and(|p| self.files.borrow().contains_key(p))
    }

    fn from_specs(&self, specs: &[TemplateSpec]) -> Result<TemplateRegistry, TemplateError> {
        TemplateRegistry::from_specs(
            "/images",
            specs,
            &|p: &str| self.stat(p),
            &|p: &str| self.read(p),
        )
    }

    fn load(&self, published: &[TemplateSpec]) -> TemplateRegistry {
        TemplateRegistry::load_from(
            "/images",
            published,
            &self.entries.borrow(),
            HOST,
            &|p: &str| self.is_file(p),
            &|p: &str| self.stat(p),
            &|p: &str| self.read(p),
        )
        .expect("startup must not fail")
    }

    fn register(
        &self,
        registry: &mut TemplateRegistry,
        spec: &TemplateSpec,
    ) -> Result<TemplateVersion, TemplateError> {
        let entries: Vec<TemplateSpec> = self.entries.borrow().iter().map(|e| e.copy()).collect();
        registry.register_spec(
            spec,
            HOST,
            &entries,
            &|p: &str| self.stat(p),
            &|p: &str| self.read(p),
            &|all: &[TemplateSpec]| {
                *self.entries.borrow_mut() = all.iter().map(|e| e.copy()).collect();
                Ok(())
            },
        )
    }

    fn replace(
        &self,
        registry: &mut TemplateRegistry,
        spec: &TemplateSpec,
    ) -> Result<(TemplateVersion, Vec<String>), TemplateError> {
        let entries: Vec<TemplateSpec> = self.entries.borrow().iter().map(|e| e.copy()).collect();
        registry.replace_alias(
            spec,
            HOST,
            &[],
            &[],
            &entries,
            &|p: &str| self.stat(p),
            &|p: &str| self.read(p),
            &|all: &[TemplateSpec]| {
                *self.entries.borrow_mut() = all.iter().map(|e| e.copy()).collect();
                Ok(())
            },
        )
    }

    fn unregister(
        &self,
        registry: &mut TemplateRegistry,
        alias: &str,
        managed: &[String],
        published: &[TemplateSpec],
    ) -> Option<(TemplateVersion, Vec<String>)> {
        let entries: Vec<TemplateSpec> = self.entries.borrow().iter().map(|e| e.copy()).collect();
        let (template, orphans, kept) =
            registry.unregister_alias(alias, managed, published, &entries)?;
        if let Some(kept) = kept {
            *self.entries.borrow_mut() = kept;
        }
        Some((template, orphans))
    }

    fn open(
        &self,
        registry: &mut TemplateRegistry,
        artifact: &VerifiedArtifact,
    ) -> Result<(), TemplateError> {
        registry.open_verified(
            artifact,
            &|p: &str| self.stat(p),
            &|p: &str| self.read(p),
        )
    }
}

fn spec(alias: &str, version: &str, kernel: &str, rootfs: &str) -> TemplateSpec {
    TemplateSpec {
        alias: alias.to_owned(),
        version: version.to_owned(),
        kernel: kernel.to_owned(),
        initrd: None,
        rootfs: rootfs.to_owned(),
        boot_args: String::new(),
    }
}

fn artifacts(kernel: &str, initrd: Option<&str>, rootfs: &str, args: &str) -> ImageArtifacts {
    ImageArtifacts {
        kernel: kernel.to_owned(),
        initrd: initrd.map(str::to_owned),
        rootfs: rootfs.to_owned(),
        boot_args: args.to_owned(),
    }
}

fn manifest() -> ImageManifest {
    let image = |alias: &str, version: &str, distribution: &str, x86_64, aarch64| ManifestImage {
        alias: alias.to_owned(),
        template_version: version.to_owned(),
        distribution: distribution.to_owned(),
        x86_64: Some(x86_64),
        aarch64: Some(aarch64),
    };
    ImageManifest {
        images: vec![
            image(
                "alpine-3.24.1",
                "alpine-3.24.1-v1",
                "alpine",
                artifacts(
                    "kernel/vmlinux-alpine-virt-x86_64",
                    Some("kernel/initramfs-alpine-virt-x86_64"),
                    "rootfs/alpine-rootfs-3.24.1-x86_64.ext4",
                    "console=ttyS0 pci=off root=/dev/vda rootfstype=ext4 rw",
                ),
                artifacts(
                    "kernel/Image-alpine-virt-aarch64",
                    Some("kernel/initramfs-alpine-virt-aarch64"),
                    "rootfs/alpine-rootfs-3.24.1-aarch64.ext4",
                    "keep_bootcon console=ttyS0 pci=off root=/dev/vda rootfstype=ext4 rw",
                ),
            ),
            image(
                "ubuntu-26.04",
                "ubuntu-26.04-v1",
                "ubuntu",
                artifacts(
                    "kernel/vmlinux-ubuntu-26.04-x86_64",
                    None,
                    "rootfs/ubuntu-rootfs-26.04-amd64.ext4",
                    "console=ttyS0 pci=off root=/dev/vda rw",
                ),
                artifacts(
                    "kernel/Image-ubuntu-26.04-aarch64",
                    None,
                    "rootfs/ubuntu-rootfs-26.04-arm64.ext4",
                    "keep_bootcon console=ttyS0 pci=off root=/dev/vda rw",
                ),
            ),
            image(
                "rocky-9.8",
                "rocky-9.8-v4",
                "rocky",
                artifacts(
                    "kernel/vmlinux-rocky-9.8-x86_64",
                    Some("kernel/initramfs-rocky-9.8-x86_64"),
                    "rootfs/rocky-rootfs-9.8-x86_64.ext4",
                    "console=ttyS0 net.ifnames=0 root=/dev/vda rootfstype=ext4 rw",
                ),
                artifacts(
                    "kernel/Image-rocky-9.8-aarch64",
                    Some("kernel/initramfs-rocky-9.8-aarch64"),
                    "rootfs/rocky-rootfs-9.8-aarch64.ext4",
                    "keep_bootcon console=ttyS0 pci=off root=/dev/vda rootfstype=ext4 rw",
                ),
            ),
        ],
    }
}

#[test]
fn load_from_skips_templates_whose_images_are_not_built_yet() {
    let published = default_specs_for_arch(&manifest(), "x86_64");
    let root = Root::new(&[]);
    let registry = root.load(&published);
    assert!(registry.resolve_alias("alpine-3.24.1").is_none());

    let alpine = TemplateRegistry::known_spec(&manifest(), "x86_64", "alpine-3.24.1").unwrap();
    root.put(&alpine.kernel, b"image");
    root.put(&alpine.rootfs, b"image");
    root.put(alpine.initrd.as_deref().unwrap(), b"image");
    let registry = root.load(&published);
    assert!(registry.resolve_alias("alpine-3.24.1").is_some());
    assert!(registry.resolve_alias("ubuntu-26.04").is_none());
    assert!(registry.resolve_alias("rocky-9.8").is_none());
}

#[test]
fn registered_templates_survive_a_restart() {
    let root = Root::new(&[
        ("kernel/vmlinux", b"kernel"),
        ("my-nginx-base-abc123.ext4", b"rootfs"),
    ]);
    let mut registry = root.load(&[]);
    assert!(registry.resolve_alias("my-nginx-base").is_none());
    let mut wanted = spec(
        "my-nginx-base",
        "my-nginx-base-abc123",
        "kernel/vmlinux",
        "my-nginx-base-abc123.ext4",
    );
    wanted.boot_args = "console=ttyS0 root=/dev/vda rw".to_owned();
    root.register(&mut registry, &wanted).unwrap();

    let restarted = root.load(&[]);
    let restored = restarted
        .resolve_alias("my-nginx-base")
        .expect("a registered template must survive a restart");
    assert_eq!(restored.version, "my-nginx-base-abc123");
    assert_eq!(restored.boot_args, "console=ttyS0 root=/dev/vda rw");
    assert!(restarted
        .resolve_version("my-nginx-base", "my-nginx-base-abc123")
        .is_some());
}

fn elf_kernel(machine: u16) -> Vec<u8> {
    let mut header = vec![0_u8; 64];
    header[0..4].copy_from_slice(b"\x7fELF");
    header[4] = 2;
    header[5] = 1;
    header[6] = 1;
    header[16..18].copy_from_slice(&2_u16.to_le_bytes());
    header[18..20].copy_from_slice(&machine.to_le_bytes());
    header
}

fn arm64_image_kernel() -> Vec<u8> {
    let mut header = vec![0_u8; 64];
    header[0..2].copy_from_slice(b"MZ");
    header[56..60].copy_from_slice(&0x644d_5241_u32.to_le_bytes());
    header
}

fn kernel_bytes_for(architecture: Architecture) -> Vec<u8> {
    match architecture {
        Architecture::Aarch64 => arm64_image_kernel(),
        Architecture::X86_64 => elf_kernel(0x3e),
    }
}

#[test]
fn kernel_architecture_classifies_a_header_by_its_format() {
    let cases: [(&str, Vec<u8>, KernelFormat); 8] = [
        (
            "x86_64 ELF vmlinux",
            elf_kernel(0x3e),
            KernelFormat::Bootable(Architecture::X86_64),
        ),
        (
            "aarch64 ELF vmlinux",
            elf_kernel(0xb7),
            KernelFormat::Bootable(Architecture::Aarch64),
        ),
        (
            "aarch64 PE Image",
            arm64_image_kernel(),
            KernelFormat::Bootable(Architecture::Aarch64),
        ),
        (
            "32-bit ARM ELF",
            elf_kernel(0x28),
            KernelFormat::Foreign { machine: 0x28 },
        ),
        (
            "RISC-V ELF",
            elf_kernel(0xf3),
            KernelFormat::Foreign { machine: 0xf3 },
        ),
        (
            "ELF truncated before e_machine",
            b"\x7fELF\x02\x01\x01".to_vec(),
            KernelFormat::Unrecognized,
        ),
        (
            "pre-check placeholder",
            b"kernel".to_vec(),
            KernelFormat::Unrecognized,
        ),
        ("empty file", Vec::new(), KernelFormat::Unrecognized),
    ];

    for (name, header, expected) in cases {
        assert_eq!(kernel_architecture(&header), expected, "{name}");
    }
}

#[test]
fn registering_a_kernel_for_another_architecture_is_rejected() {
    let root = Root::new(&[
        ("kernel", &kernel_bytes_for(HOST.other())),
        ("rootfs", b"rootfs"),
    ]);
    let mut registry = root.load(&[]);
    let error = root
        .register(&mut registry, &spec("foreign", "foreign-v1", "kernel", "rootfs"))
        .unwrap_err();
    assert!(
        matches!(&error, TemplateError::KernelArchitectureMismatch { found, .. }
            if *found == HOST.other()),
        "{error:?}"
    );
    assert_eq!(
        error.message(),
        "kernel kernel is built for aarch64, but this host is x86_64"
    );
    assert!(registry.resolve_alias("foreign").is_none());
    assert!(root.entries.borrow().is_empty());
}

#[test]
fn registering_a_kernel_for_an_unsupported_architecture_is_rejected() {
    let root = Root::new(&[("kernel", &elf_kernel(0xf3)), ("rootfs", b"rootfs")]);
    let mut registry = root.load(&[]);
    let error = root
        .register(&mut registry, &spec("riscv", "riscv-v1", "kernel", "rootfs"))
        .unwrap_err();
    assert!(matches!(
        error,
        TemplateError::UnsupportedKernelArchitecture { .. }
    ));
    assert!(error.message().contains("0x00f3"), "{}", error.message());
    assert!(registry.resolve_alias("riscv").is_none());
}

#[test]
fn registering_an_unclassifiable_kernel_is_still_allowed() {
    let root = Root::new(&[("kernel", b"kernel"), ("rootfs", b"rootfs")]);
    let mut registry = root.load(&[]);
    root.register(&mut registry, &spec("legacy", "legacy-v1", "kernel", "rootfs"))
        .expect("an unclassifiable kernel must keep registering");
    assert!(registry.resolve_alias("legacy").is_some());
}

#[test]
fn registering_a_kernel_for_this_host_is_accepted() {
    let root = Root::new(&[("kernel", &kernel_bytes_for(HOST)), ("rootfs", b"rootfs")]);
    let mut registry = root.load(&[]);
    root.register(&mut registry, &spec("native", "native-v1", "kernel", "rootfs"))
        .expect("a kernel matching the host must register");
    assert!(registry.resolve_alias("native").is_some());
}

#[test]
fn a_registration_that_cannot_be_written_changes_nothing() {
    let root = Root::new(&[("kernel", b"kernel"), ("rootfs", b"rootfs")]);
    let mut registry = root.load(&[]);
    let error = registry
        .register_spec(
            &spec("demo", "v1", "kernel", "rootfs"),
            HOST,
            &[],
            &|p: &str| root.stat(p),
            &|p: &str| root.read(p),
            &|_: &[TemplateSpec]| Err("disk full".to_owned()),
        )
        .unwrap_err();
    assert_eq!(error.message(), "template registry I/O failed: disk full");
    assert!(registry.resolve_alias("demo").is_none());
}

#[test]
fn unregistering_a_template_drops_it_from_the_restart_manifest() {
    let root = Root::new(&[("kernel", b"kernel"), ("rootfs", b"rootfs")]);
    let mut registry = root.load(&[]);
    let derived = spec("derived", "derived-v1", "kernel", "rootfs");
    root.register(&mut registry, &derived).unwrap();
    root.register(&mut registry, &derived).unwrap();
    assert_eq!(root.entries.borrow().len(), 1);

    root.unregister(&mut registry, "derived", &[], &[]).unwrap();

    assert!(root.entries.borrow().is_empty());
    assert!(root.load(&[]).resolve_alias("derived").is_none());
    assert!(forget_registration(&[], "derived").is_none());
}

#[test]
fn a_registration_whose_artifacts_are_gone_is_skipped_at_startup() {
    let root = Root::new(&[("kernel", b"kernel"), ("rootfs", b"rootfs")]);
    let mut registry = root.load(&[]);
    root.register(&mut registry, &spec("derived", "derived-v1", "kernel", "rootfs"))
        .unwrap();
    root.files.borrow_mut().remove("rootfs");
    assert!(root.load(&[]).resolve_alias("derived").is_none());
}

fn create_registry(root: &Root) -> TemplateRegistry {
    root.put("kernel", b"kernel");
    root.put("rootfs", b"rootfs");
    root.from_specs(&[
        spec("ubuntu-rootfs-26.04", "v1", "kernel", "rootfs"),
        spec("ubuntu-26.04", "v1", "kernel", "rootfs"),
    ])
    .unwrap()
}

#[test]
fn resolves_an_immutable_version() {
    let root = Root::new(&[]);
    let registry = create_registry(&root);
    let template = registry.resolve_alias("ubuntu-rootfs-26.04").unwrap();
    assert_eq!(template.version, "v1");
    assert_eq!(template.rootfs.sha256(), sha256_bytes(b"rootfs"));
    assert!(registry.resolve_version(&template.name, "v1").is_some());
    assert_eq!(registry.artifact_path(&template.rootfs), "/images/rootfs");
    assert_eq!(template.rootfs.length(), 6);
}

#[test]
fn resolves_the_legacy_ubuntu_release_alias() {
    let root = Root::new(&[]);
    let registry = create_registry(&root);
    let template = registry.resolve_alias("ubuntu-26.04").unwrap();
    assert_eq!(template.version, "v1");
}

#[test]
fn aliases_are_listed_in_their_order() {
    let root = Root::new(&[("k", b"k")]);
    let specs: Vec<TemplateSpec> = ["ubuntu-26.04", "alpine-3.24.1", "rocky-9.8", "alpine-3"]
        .iter()
        .map(|alias| spec(alias, "v1", "k", "k"))
        .collect();
    let registry = root.from_specs(&specs).unwrap();
    let names: Vec<&str> = registry
        .list_aliases()
        .iter()
        .map(|t| t.name.as_str())
        .collect();
    assert_eq!(
        names,
        vec!["alpine-3", "alpine-3.24.1", "rocky-9.8", "ubuntu-26.04"]
    );
}

#[test]
fn duplicates_are_refused() {
    let root = Root::new(&[("k", b"k")]);
    let error = root
        .from_specs(&[spec("a", "v1", "k", "k"), spec("a", "v1", "k", "k")])
        .unwrap_err();
    assert_eq!(
        error.message(),
        "template registry contains a duplicate version: a/v1"
    );
    let error = root
        .from_specs(&[spec("a", "v1", "k", "k"), spec("a", "v2", "k", "k")])
        .unwrap_err();
    assert_eq!(
        error.message(),
        "template registry contains a duplicate alias: a"
    );
}

#[test]
fn unregister_alias_returns_orphan_paths_and_clears_resolve() {
    let root = Root::new(&[("kernel", b"kernel"), ("rootfs", b"rootfs")]);
    let mut registry = root
        .from_specs(&[spec("demo", "v1", "kernel", "rootfs")])
        .unwrap();
    assert!(registry.resolve_alias("demo").is_some());
    assert!(root.unregister(&mut registry, "missing", &[], &[]).is_none());

    let (version, orphans) = root.unregister(&mut registry, "demo", &[], &[]).unwrap();
    assert_eq!(version.name, "demo");
    assert!(registry.resolve_alias("demo").is_none());
    assert_eq!(orphans, vec!["/images/kernel", "/images/rootfs"]);
    assert_eq!(version.kernel.relative_path(), "kernel");
}

#[test]
fn unregister_keeps_shared_artifacts_referenced_by_another_alias() {
    let root = Root::new(&[("kernel", b"kernel"), ("rootfs-a", b"a"), ("rootfs-b", b"b")]);
    let mut registry = root
        .from_specs(&[
            spec("a", "v1", "kernel", "rootfs-a"),
            spec("b", "v1", "kernel", "rootfs-b"),
        ])
        .unwrap();
    let (_version, orphans) = root.unregister(&mut registry, "a", &[], &[]).unwrap();
    assert_eq!(orphans, vec!["/images/rootfs-a"]);
    assert!(registry.resolve_alias("b").is_some());
}

#[test]
fn unregistering_an_oci_alias_does_not_delete_the_catalog_kernel_it_borrowed() {
    let published = default_specs_for_arch(&manifest(), "x86_64");
    let ubuntu = TemplateRegistry::known_spec(&manifest(), "x86_64", "ubuntu-26.04").unwrap();
    let root = Root::new(&[
        (ubuntu.kernel.as_str(), b"catalog-kernel"),
        ("rootfs/nginx-1.27.ext4", b"oci-rootfs"),
    ]);
    let mut registry = root
        .from_specs(&[spec(
            "nginx-1.27",
            "1.27",
            &ubuntu.kernel,
            "rootfs/nginx-1.27.ext4",
        )])
        .unwrap();
    let (_version, orphans) = root
        .unregister(&mut registry, "nginx-1.27", &[], &published)
        .unwrap();
    assert!(
        !orphans.iter().any(|path| path.ends_with(&ubuntu.kernel)),
        "catalog kernel must stay for the next OCI import: {orphans:?}"
    );
    assert!(
        orphans
            .iter()
            .any(|path| path.ends_with("rootfs/nginx-1.27.ext4")),
        "the imported rootfs is this alias's own file: {orphans:?}"
    );
}

#[test]
fn managed_kernel_cache_survives_removing_its_last_image_reference() {
    let kernel = ".oci/kernel/x86_64/vmlinux-7.2.2-x86_64";
    let root = Root::new(&[(kernel, b"managed-kernel"), ("rootfs.ext4", b"rootfs")]);
    let mut registry = root
        .from_specs(&[spec("managed-image", "v1", kernel, "rootfs.ext4")])
        .unwrap();
    let (_version, orphans) = root
        .unregister(&mut registry, "managed-image", &[kernel.to_owned()], &[])
        .unwrap();
    assert!(!orphans.iter().any(|path| path.ends_with(kernel)));
    assert!(orphans.iter().any(|path| path.ends_with("rootfs.ext4")));
}

#[test]
fn replacing_an_alias_keeps_shared_rootfs_and_persists_the_new_pin() {
    let root = Root::new(&[
        ("kernel-old", b"old"),
        ("kernel-new", b"new"),
        ("rootfs", b"rootfs"),
    ]);
    let mut registry = root.load(&[]);
    root.register(&mut registry, &spec("demo", "v1", "kernel-old", "rootfs"))
        .unwrap();
    let (_updated, orphans) = root
        .replace(&mut registry, &spec("demo", "v2", "kernel-new", "rootfs"))
        .unwrap();
    assert_eq!(registry.resolve_alias("demo").unwrap().version, "v2");
    assert!(registry.resolve_version("demo", "v1").is_none());
    assert_eq!(orphans, vec!["/images/kernel-old"]);

    let restarted = root.load(&[]);
    assert_eq!(restarted.resolve_alias("demo").unwrap().version, "v2");
}

#[test]
fn unregistering_the_catalog_alias_still_deletes_its_own_kernel() {
    let published = default_specs_for_arch(&manifest(), "x86_64");
    let ubuntu = TemplateRegistry::known_spec(&manifest(), "x86_64", "ubuntu-26.04").unwrap();
    let root = Root::new(&[
        (ubuntu.kernel.as_str(), b"catalog-kernel"),
        (ubuntu.rootfs.as_str(), b"catalog-rootfs"),
    ]);
    let mut registry = root.from_specs(&[ubuntu.copy()]).unwrap();
    let (_version, orphans) = root
        .unregister(&mut registry, "ubuntu-26.04", &[], &published)
        .unwrap();
    assert!(orphans.iter().any(|path| path.ends_with(&ubuntu.kernel)));
    assert!(orphans.iter().any(|path| path.ends_with(&ubuntu.rootfs)));
}

#[test]
fn rejects_parent_and_symlink_paths() {
    let root = Root::new(&[("kernel", b"kernel")]);
    let result = root.from_specs(&[spec("bad", "v1", "../artifact", "../artifact")]);
    assert!(matches!(result, Err(TemplateError::InvalidPath)));
    for path in ["", "/kernel", "./kernel", "."] {
        let result = root.from_specs(&[spec("bad", "v1", path, "kernel")]);
        assert!(matches!(result, Err(TemplateError::InvalidPath)), "{path}");
    }
    // A link is not followed, so opening it fails.
    let result = root.from_specs(&[spec("bad", "v1", "link", "link")]);
    assert!(matches!(result, Err(TemplateError::Io(_))));
}

#[test]
fn a_directory_is_no_artifact() {
    let root = Root::new(&[("kernel", b"kernel")]);
    root.files.borrow_mut().get_mut("kernel").unwrap().regular = false;
    let error = root
        .from_specs(&[spec("bad", "v1", "kernel", "kernel")])
        .unwrap_err();
    assert_eq!(
        error.message(),
        "template artifact is not a regular file: kernel"
    );
}

#[test]
fn initrd_is_verified_like_kernel_and_rootfs_when_present() {
    let root = Root::new(&[
        ("kernel", b"kernel"),
        ("rootfs", b"rootfs"),
        ("initrd", b"initrd"),
    ]);
    let mut wanted = spec("alpine-virt", "v1", "kernel", "rootfs");
    wanted.initrd = Some("initrd".to_owned());
    let mut registry = root.from_specs(&[wanted]).unwrap();
    let initrd = registry
        .resolve_alias("alpine-virt")
        .unwrap()
        .initrd
        .as_ref()
        .expect("initrd was declared")
        .copy();
    assert_eq!(initrd.sha256(), sha256_bytes(b"initrd"));

    root.put("initrd", b"tampered");
    assert!(matches!(
        root.open(&mut registry, &initrd),
        Err(TemplateError::ArtifactChanged(_))
    ));
}

#[test]
fn default_specs_match_each_distros_own_kernel_and_initrd_requirement() {
    for arch in ["x86_64", "aarch64"] {
        let manifest = manifest();
        let specs = default_specs_for_arch(&manifest, arch);
        let by_alias = |alias: &str| specs.iter().find(|spec| spec.alias == alias).unwrap();
        let arm = arch == "aarch64";
        let pick = |on_arm: &'static str, otherwise: &'static str| if arm { on_arm } else { otherwise };

        let ubuntu = by_alias("ubuntu-26.04");
        assert_eq!(
            ubuntu.kernel,
            pick("kernel/Image-ubuntu-26.04-aarch64", "kernel/vmlinux-ubuntu-26.04-x86_64")
        );
        assert_eq!(ubuntu.initrd, None);
        assert_eq!(
            ubuntu.rootfs,
            pick("rootfs/ubuntu-rootfs-26.04-arm64.ext4", "rootfs/ubuntu-rootfs-26.04-amd64.ext4")
        );
        assert_eq!(ubuntu.boot_args.contains("keep_bootcon"), arm);

        let alpine = by_alias("alpine-3.24.1");
        assert_eq!(
            alpine.kernel,
            pick("kernel/Image-alpine-virt-aarch64", "kernel/vmlinux-alpine-virt-x86_64")
        );
        assert_eq!(alpine.initrd, Some(format!("kernel/initramfs-alpine-virt-{arch}")));
        assert!(alpine.boot_args.contains("rootfstype=ext4"));
        assert!(alpine.boot_args.contains("console=ttyS0"));
        assert_eq!(alpine.boot_args.contains("keep_bootcon"), arm);

        let rocky = by_alias("rocky-9.8");
        assert_eq!(rocky.version, "rocky-9.8-v4");
        assert_eq!(
            rocky.kernel,
            pick("kernel/Image-rocky-9.8-aarch64", "kernel/vmlinux-rocky-9.8-x86_64")
        );
        assert_eq!(
            rocky.initrd.as_deref(),
            Some(pick("kernel/initramfs-rocky-9.8-aarch64", "kernel/initramfs-rocky-9.8-x86_64"))
        );
        assert_eq!(
            rocky.rootfs,
            pick("rootfs/rocky-rootfs-9.8-aarch64.ext4", "rootfs/rocky-rootfs-9.8-x86_64.ext4")
        );
        assert_eq!(rocky.boot_args.contains("pci=off"), arm);
        if arm {
            assert!(rocky.boot_args.contains("keep_bootcon"));
        } else {
            assert!(rocky.boot_args.contains("net.ifnames=0"));
        }
        assert!(rocky.boot_args.contains("rootfstype=ext4"));

        let root = Root::new(&[]);
        for spec in &specs {
            root.put(&spec.kernel, b"image");
            root.put(&spec.rootfs, b"image");
            if let Some(initrd) = &spec.initrd {
                root.put(initrd, b"image");
            }
        }
        let registry = root.from_specs(&specs).unwrap();
        let pci = arch != "aarch64";

        let ubuntu = registry.resolve_alias("ubuntu-26.04").unwrap();
        let args = ubuntu.runtime_boot_args(&manifest, arch);
        assert_eq!(ubuntu.requires_pci_transport(&manifest, arch), pci);
        assert_eq!(args.contains("pci=off"), !pci);
        assert!(args.contains("root=/dev/vda"));
        assert_eq!(args.contains("net.ifnames=0"), pci);
        assert!(ubuntu.initrd.is_none());

        let rocky = registry.resolve_alias("rocky-9.8").unwrap();
        let args = rocky.runtime_boot_args(&manifest, arch);
        assert_eq!(rocky.requires_pci_transport(&manifest, arch), pci);
        assert_eq!(args.contains("pci=off"), !pci);
        assert_eq!(args.matches("rd.driver.pre=virtio_net").count(), 1);

        let alpine = registry.resolve_alias("alpine-3.24.1").unwrap();
        assert!(!alpine.requires_pci_transport(&manifest, arch));
        assert!(alpine.runtime_boot_args(&manifest, arch).contains("pci=off"));
    }
}

#[test]
fn runtime_boot_args_are_exact() {
    let root = Root::new(&[("k", b"k")]);
    let mut wanted = spec("rocky-9.8", "v1", "k", "k");
    wanted.boot_args = "  console=ttyS0 pci=off  root=/dev/vda ".to_owned();
    let registry = root.from_specs(&[wanted]).unwrap();
    let rocky = registry.resolve_alias("rocky-9.8").unwrap();
    assert_eq!(
        rocky.runtime_boot_args(&manifest(), "x86_64"),
        "console=ttyS0 root=/dev/vda rd.driver.pre=virtio_net net.ifnames=0"
    );
    assert_eq!(
        rocky.runtime_boot_args(&manifest(), "aarch64"),
        "console=ttyS0 pci=off root=/dev/vda rd.driver.pre=virtio_net"
    );
    assert_eq!(
        rocky.boot_args_sha256(),
        sha256_bytes(b"  console=ttyS0 pci=off  root=/dev/vda ")
    );
    for arch in ["x86_64", "aarch64"] {
        let adjusted = rocky.runtime_boot_args(&manifest(), arch);
        let mut again = spec("rocky-9.8", "v1", "k", "k");
        again.boot_args = adjusted.clone();
        let registry = root.from_specs(&[again]).unwrap();
        let again = registry.resolve_alias("rocky-9.8").unwrap();
        assert_eq!(again.runtime_boot_args(&manifest(), arch), adjusted);
    }
}

#[test]
fn arm64_default_specs_use_arm_artifacts_for_every_distribution() {
    let specs = default_specs_for_arch(&manifest(), "aarch64");
    assert_eq!(
        specs
            .iter()
            .map(|spec| spec.alias.as_str())
            .collect::<Vec<_>>(),
        vec!["alpine-3.24.1", "ubuntu-26.04", "rocky-9.8"]
    );

    let ubuntu = specs
        .iter()
        .find(|spec| spec.alias == "ubuntu-26.04")
        .unwrap();
    assert_eq!(ubuntu.kernel, "kernel/Image-ubuntu-26.04-aarch64");
    assert_eq!(ubuntu.rootfs, "rootfs/ubuntu-rootfs-26.04-arm64.ext4");
    assert!(ubuntu.boot_args.contains("keep_bootcon"));
    assert!(ubuntu.boot_args.contains("pci=off"));

    let alpine = specs
        .iter()
        .find(|spec| spec.alias == "alpine-3.24.1")
        .unwrap();
    assert_eq!(alpine.kernel, "kernel/Image-alpine-virt-aarch64");
    assert_eq!(
        alpine.initrd,
        Some("kernel/initramfs-alpine-virt-aarch64".to_owned())
    );
    assert_eq!(alpine.rootfs, "rootfs/alpine-rootfs-3.24.1-aarch64.ext4");

    let rocky = specs.iter().find(|spec| spec.alias == "rocky-9.8").unwrap();
    assert_eq!(rocky.version, "rocky-9.8-v4");
    assert_eq!(rocky.kernel, "kernel/Image-rocky-9.8-aarch64");
    assert_eq!(
        rocky.initrd,
        Some("kernel/initramfs-rocky-9.8-aarch64".to_owned())
    );
    assert_eq!(rocky.rootfs, "rootfs/rocky-rootfs-9.8-aarch64.ext4");
    assert!(rocky.boot_args.contains("keep_bootcon"));
    assert!(rocky.boot_args.contains("pci=off"));
    assert!(!requires_pci_transport_for_arch(
        &manifest(),
        "rocky-9.8",
        "aarch64"
    ));
    assert!(requires_pci_transport_for_arch(
        &manifest(),
        "rocky-9.8",
        "x86_64"
    ));
}

#[test]
fn detects_artifact_replacement() {
    let root = Root::new(&[]);
    let mut registry = create_registry(&root);
    let rootfs = registry
        .resolve_alias("ubuntu-rootfs-26.04")
        .unwrap()
        .rootfs
        .copy();
    root.put("rootfs", b"changed");
    assert!(matches!(
        root.open(&mut registry, &rootfs),
        Err(TemplateError::ArtifactChanged(_))
    ));
}

#[test]
fn open_verified_succeeds_repeatedly_for_an_unchanged_artifact() {
    let root = Root::new(&[]);
    let mut registry = create_registry(&root);
    let rootfs = registry
        .resolve_alias("ubuntu-rootfs-26.04")
        .unwrap()
        .rootfs
        .copy();
    root.open(&mut registry, &rootfs).unwrap();
    let reads = *root.reads.borrow();
    root.open(&mut registry, &rootfs).unwrap();
    root.open(&mut registry, &rootfs).unwrap();
    assert_eq!(*root.reads.borrow(), reads, "the digest is remembered");
}

#[test]
fn cache_is_invalidated_by_a_same_length_content_change() {
    let root = Root::new(&[]);
    let mut registry = create_registry(&root);
    let rootfs = registry
        .resolve_alias("ubuntu-rootfs-26.04")
        .unwrap()
        .rootfs
        .copy();
    root.open(&mut registry, &rootfs).unwrap();
    root.put("rootfs", b"ROOTFS");
    assert!(matches!(
        root.open(&mut registry, &rootfs),
        Err(TemplateError::ArtifactChanged(_))
    ));
}

#[test]
fn a_path_that_could_leave_the_root_is_refused() {
    for path in ["kernel", "kernel/vmlinux", "a//b", "a/...", ".hidden"] {
        assert!(validate_relative_path(path).is_ok(), "{path}");
    }
    for path in ["", "/", "/kernel", ".", "..", "./a", "a/.", "a/./b", "a/../b", "../a"] {
        assert!(
            matches!(validate_relative_path(path), Err(TemplateError::InvalidPath)),
            "{path}"
        );
    }
}

#[test]
fn a_pinned_file_is_held_to_the_digest_of_its_bytes() {
    let root = Root::new(&[("kernel", b"abc"), ("rootfs", b"rootfs")]);
    let mut registry = root.from_specs(&[spec("a", "v1", "kernel", "rootfs")]).unwrap();
    let kernel = registry.resolve_alias("a").unwrap().kernel.copy();
    assert_eq!(
        kernel.sha256(),
        "ba7816bf8f01cfea414140de5dae2223b00361a396177a9cb410ff61f20015ad"
    );
    root.open(&mut registry, &kernel).unwrap();
    root.put("kernel", b"abd");
    assert!(matches!(
        root.open(&mut registry, &kernel),
        Err(TemplateError::ArtifactChanged(path)) if path == "kernel"
    ));
    root.put("kernel", b"abc");
    root.open(&mut registry, &kernel).unwrap();
}
