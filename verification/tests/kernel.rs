//! The kernel of imported trees, on a host in memory.

use firecrab::digest::{is_pinned_digest, pin_of};
use firecrab::oci::kernel::{
    cached_kernel_is_valid, configured_kernel_override, ensure_managed_kernel,
    ensure_pinned_kernel, kernel_for_version, kernel_of_member, lift_kernel, member_step,
    package_key, pinned_kernel, supported_kernels, verify_kernel, Download, KernelAction, KernelBootPair,
    KernelEvent, KernelJob, KernelProgress, MemberStep, PinnedKernel, KERNEL_MAX_BYTES,
    PACKAGE_MAX_BYTES,
};
use firecrab::oci::ResolveError;
use firecrab::templates::Architecture;
use std::collections::HashMap;

const HOST: Architecture = Architecture::X86_64;

fn elf_kernel(machine: u16) -> Vec<u8> {
    let mut bytes = vec![0_u8; 4096];
    bytes[0..4].copy_from_slice(b"\x7fELF");
    bytes[4] = 2;
    bytes[5] = 1;
    bytes[6] = 1;
    bytes[16..18].copy_from_slice(&2_u16.to_le_bytes());
    bytes[18..20].copy_from_slice(&machine.to_le_bytes());
    bytes
}

fn arm64_image_kernel() -> Vec<u8> {
    let mut bytes = vec![0_u8; 4096];
    bytes[0..2].copy_from_slice(b"MZ");
    bytes[56..60].copy_from_slice(&0x644d_5241_u32.to_le_bytes());
    bytes
}

fn tar_entry(builder: &mut tar::Builder<Vec<u8>>, path: &str, data: &[u8]) {
    let mut header = tar::Header::new_gnu();
    header.set_entry_type(tar::EntryType::Regular);
    header.set_mode(0o644);
    header.set_size(data.len() as u64);
    builder.append_data(&mut header, path, data).unwrap();
}

fn kernel_package(member: &str, kernel: &[u8]) -> Vec<u8> {
    let mut builder = tar::Builder::new(Vec::new());
    tar_entry(&mut builder, "config/fixture.config", b"CONFIG_VIRTIO_BLK=y\n");
    tar_entry(&mut builder, member, kernel);
    let tar = builder.into_inner().unwrap();
    zstd::stream::encode_all(tar.as_slice(), 0).unwrap()
}

/// A host with files and a registry that serves one package.
struct Host {
    files: HashMap<String, Vec<u8>>,
    served: HashMap<String, Vec<u8>>,
    requests: usize,
}

fn published(kernel: &[u8], member: &str) -> (Host, PinnedKernel) {
    let package = kernel_package(member, kernel);
    let pinned = PinnedKernel {
        alias: "vmlinux-9.9.9".to_owned(),
        version: "9.9.9".to_owned(),
        image: "vmlinux-9.9.9-x86_64".to_owned(),
        package_digest: pin_of(&package),
        image_digest: pin_of(kernel),
        boot_args: "console=ttyS0 root=/dev/vda rw".to_owned(),
    };
    let url = format!("http://registry/{}", package_key(HOST, &pinned));
    let host = Host {
        files: HashMap::new(),
        served: HashMap::from([(url, package)]),
        requests: 0,
    };
    (host, pinned)
}

fn copy_of(pinned: &PinnedKernel) -> PinnedKernel {
    PinnedKernel {
        alias: pinned.alias.clone(),
        version: pinned.version.clone(),
        image: pinned.image.clone(),
        package_digest: pinned.package_digest.clone(),
        image_digest: pinned.image_digest.clone(),
        boot_args: pinned.boot_args.clone(),
    }
}

impl Host {
    fn act(&mut self, action: KernelAction) -> KernelEvent {
        match action {
            KernelAction::MakeDirectory(_) => KernelEvent::Done,
            KernelAction::Read(path) => match self.files.get(&path) {
                Some(bytes) => KernelEvent::Bytes(bytes.clone()),
                None => KernelEvent::Unopened("not found".to_owned()),
            },
            KernelAction::Remove(path) => {
                self.files.remove(&path);
                KernelEvent::Done
            }
            KernelAction::Inspect(path) => match self.files.get(&path) {
                Some(bytes) => KernelEvent::Found {
                    regular: true,
                    length: bytes.len() as u64,
                },
                None => KernelEvent::Found {
                    regular: false,
                    length: 0,
                },
            },
            KernelAction::Copy { from, to } => {
                let bytes = self.files[&from].clone();
                self.files.insert(to, bytes);
                KernelEvent::Done
            }
            KernelAction::Download { url, to } => {
                self.requests += 1;
                match self.served.get(&url) {
                    Some(bytes) => {
                        self.files.insert(to, bytes.clone());
                        KernelEvent::Bytes(bytes.clone())
                    }
                    None => KernelEvent::DownloadFailed("HTTP 404".to_owned()),
                }
            }
            KernelAction::Write { to, bytes } => {
                self.files.insert(to, bytes);
                KernelEvent::Done
            }
            KernelAction::Rename { from, to } => {
                let bytes = self.files.remove(&from).unwrap();
                self.files.insert(to, bytes);
                KernelEvent::Done
            }
        }
    }

    fn ensure(
        &mut self,
        pinned: &PinnedKernel,
        override_path: Option<&str>,
        base_url: Option<&str>,
    ) -> Result<KernelBootPair, ResolveError> {
        let mut progress = ensure_pinned_kernel(KernelJob {
            image_root: "/images".to_owned(),
            architecture: HOST,
            pinned: copy_of(pinned),
            override_path: override_path.map(str::to_owned),
            base_url: base_url.map(str::to_owned),
            token: "t".to_owned(),
        });
        loop {
            match progress {
                KernelProgress::Next(run, action) => {
                    let event = self.act(action);
                    progress = run.step(event);
                }
                KernelProgress::Over(result) => return result,
            }
        }
    }
}

const CACHED: &str = "/images/.oci/kernel/x86_64/vmlinux-9.9.9-x86_64";
const MEMBER: &str = "kernel/vmlinux-9.9.9-x86_64";

#[test]
fn a_fetched_kernel_is_cached_under_the_image_root_and_never_downloaded_twice() {
    let kernel = elf_kernel(0x3e);
    let (mut host, pinned) = published(&kernel, MEMBER);
    let first = host.ensure(&pinned, None, Some("http://registry/")).unwrap();
    let second = host.ensure(&pinned, None, Some("http://registry/")).unwrap();
    assert_eq!(first, second);
    assert_eq!(first.architecture, HOST);
    assert_eq!(first.source_alias, "vmlinux-9.9.9");
    assert_eq!(first.initrd, None);
    assert_eq!(first.boot_args, "console=ttyS0 root=/dev/vda rw");
    assert_eq!(first.kernel, ".oci/kernel/x86_64/vmlinux-9.9.9-x86_64");
    assert_eq!(host.files, HashMap::from([(CACHED.to_owned(), kernel)]));
    assert_eq!(host.requests, 1);
}

#[test]
fn a_corrupt_cached_kernel_is_refetched() {
    let kernel = elf_kernel(0x3e);
    let (mut host, pinned) = published(&kernel, MEMBER);
    let first = host.ensure(&pinned, None, Some("http://registry")).unwrap();
    host.files.insert(CACHED.to_owned(), b"truncated".to_vec());
    let second = host.ensure(&pinned, None, Some("http://registry")).unwrap();
    assert_eq!(first, second);
    assert_eq!(host.files[CACHED], kernel);
    assert_eq!(host.requests, 2);
}

#[test]
fn a_package_that_does_not_match_the_pinned_digest_is_refused() {
    let (mut host, mut pinned) = published(&elf_kernel(0x3e), MEMBER);
    pinned.package_digest = pin_of(b"another package");
    let error = host
        .ensure(&pinned, None, Some("http://registry"))
        .unwrap_err();
    assert!(matches!(error, ResolveError::DigestMismatch { .. }));
    assert!(host.files.is_empty(), "a refused package must publish nothing");
    pinned.package_digest = "latest".to_owned();
    let error = host
        .ensure(&pinned, None, Some("http://registry"))
        .unwrap_err();
    assert!(matches!(error, ResolveError::Malformed(_)));
}

#[test]
fn a_package_without_the_pinned_kernel_member_is_refused() {
    let (mut host, pinned) = published(&elf_kernel(0x3e), "kernel/some-other-build");
    match host
        .ensure(&pinned, None, Some("http://registry"))
        .unwrap_err()
    {
        ResolveError::KernelPackageMemberMissing { member, package } => {
            assert_eq!(member, MEMBER);
            assert_eq!(package, "kernel/9.9.9/x86_64/vmlinux-9.9.9.tar.zst");
        }
        other => panic!("{other:?}"),
    }
    assert!(host.files.is_empty());
}

#[test]
fn a_kernel_built_for_another_architecture_is_refused() {
    let (mut host, pinned) = published(&arm64_image_kernel(), MEMBER);
    match host
        .ensure(&pinned, None, Some("http://registry"))
        .unwrap_err()
    {
        ResolveError::KernelArchitectureMismatch { found, host, .. } => {
            assert_eq!(found, HOST.other());
            assert_eq!(host, HOST);
        }
        other => panic!("{other:?}"),
    }
    assert!(host.files.is_empty(), "a foreign kernel must publish nothing");
    let (mut host, pinned) = published(&elf_kernel(0xf3), MEMBER);
    assert!(matches!(
        host.ensure(&pinned, None, Some("http://registry")),
        Err(ResolveError::UnsupportedKernelArchitecture { machine: 0xf3, .. })
    ));
}

#[test]
fn an_operator_supplied_kernel_is_published_without_contacting_the_registry() {
    let kernel = elf_kernel(0x3e);
    let (mut host, pinned) = published(&kernel, MEMBER);
    host.files.insert("/operator".to_owned(), kernel.clone());
    host.ensure(&pinned, Some("/operator"), Some("http://registry"))
        .unwrap();
    assert_eq!(host.files[CACHED], kernel);
    assert_eq!(host.requests, 0);
}

#[test]
fn an_operator_supplied_kernel_must_still_match_the_pinned_digest() {
    let (mut host, pinned) = published(&elf_kernel(0x3e), MEMBER);
    host.files
        .insert("/operator".to_owned(), arm64_image_kernel());
    let error = host.ensure(&pinned, Some("/operator"), None).unwrap_err();
    assert!(matches!(error, ResolveError::DigestMismatch { .. }));
    assert!(!host.files.contains_key(CACHED));
}

#[test]
fn an_operator_path_that_is_not_a_regular_file_is_refused() {
    let (mut host, pinned) = published(&elf_kernel(0x3e), MEMBER);
    let error = host.ensure(&pinned, Some("/directory"), None).unwrap_err();
    match error {
        ResolveError::KernelIo { operation, source, .. } => {
            assert_eq!(operation, "inspect operator kernel");
            assert_eq!(source, "not a regular file");
        }
        other => panic!("{other:?}"),
    }
}

#[test]
fn a_registry_that_does_not_publish_the_pinned_version_is_reported() {
    let (mut host, mut pinned) = published(&elf_kernel(0x3e), MEMBER);
    pinned.version = "0.0.0".to_owned();
    match host
        .ensure(&pinned, None, Some("http://registry"))
        .unwrap_err()
    {
        ResolveError::KernelDownloadFailed { url, message } => {
            assert!(url.ends_with("kernel/0.0.0/x86_64/vmlinux-9.9.9.tar.zst"));
            assert_eq!(message, "HTTP 404");
        }
        other => panic!("{other:?}"),
    }
}

#[test]
fn the_kernel_source_defaults_to_the_public_registry_and_no_override() {
    assert!(configured_kernel_override(None).is_none());
    assert!(configured_kernel_override(Some("  ")).is_none());
    assert_eq!(
        configured_kernel_override(Some(" /k ")),
        Some("/k".to_owned())
    );
}

#[test]
fn a_host_with_no_kernel_source_is_told_so() {
    let (mut host, pinned) = published(&elf_kernel(0x3e), MEMBER);
    match host.ensure(&pinned, None, None).unwrap_err() {
        ResolveError::KernelUnavailable { reason, .. } => assert_eq!(
            reason,
            "no FIRECRAB_OCI_KERNEL_PATH override and remote image install is disabled"
        ),
        other => panic!("{other:?}"),
    }
}

#[test]
fn the_compiled_pins_name_the_latest_stable_registry_artifacts() {
    let expected = [
        (
            Architecture::X86_64,
            "vmlinux-7.2.2-x86_64",
            "kernel/7.2.2/x86_64/vmlinux-7.2.2.tar.zst",
            false,
        ),
        (
            Architecture::Aarch64,
            "Image-7.2.2-aarch64",
            "kernel/7.2.2/aarch64/vmlinux-7.2.2.tar.zst",
            true,
        ),
    ];

    for (architecture, image, key, needs_keep_bootcon) in expected {
        let pinned = pinned_kernel(architecture)
            .unwrap_or_else(|| panic!("{architecture:?} kernel is published"));

        assert_eq!(pinned.alias, "vmlinux-7.2.2");
        assert_eq!(pinned.version, "7.2.2");
        assert_eq!(pinned.image, image);
        assert_eq!(package_key(architecture, &pinned), key);
        assert!(
            is_pinned_digest(&pinned.package_digest),
            "package digest is pinned, not a tag"
        );
        assert!(
            is_pinned_digest(&pinned.image_digest),
            "kernel digest is pinned, not a tag"
        );
        assert!(pinned.boot_args.contains("root=/dev/vda"));
        assert!(pinned.boot_args.contains("console=ttyS0"));
        assert_eq!(
            pinned.boot_args.contains("keep_bootcon"),
            needs_keep_bootcon
        );
        for kernel in supported_kernels(architecture) {
            assert!(is_pinned_digest(&kernel.package_digest));
            assert!(is_pinned_digest(&kernel.image_digest));
        }
    }
}

#[test]
fn only_kernels_of_the_release_are_managed() {
    let versions: Vec<String> = supported_kernels(HOST).into_iter().map(|k| k.version).collect();
    assert_eq!(versions, vec!["7.2.2", "7.1.12", "7.1.9", "7.1.8"]);
    assert_eq!(kernel_for_version(HOST, "7.1.9").unwrap().alias, "vmlinux-7.1.9");
    assert!(kernel_for_version(HOST, "7.1.7").is_none());
    match ensure_managed_kernel("/images", HOST, "7.1.7", None, "t") {
        KernelProgress::Over(Err(ResolveError::KernelUnavailable { reason, .. })) => {
            assert_eq!(reason, "kernel version 7.1.7 is not in the release catalog");
        }
        other => panic!("{other:?}"),
    }
    assert!(matches!(
        ensure_managed_kernel("/images", HOST, "7.1.8", None, "t"),
        KernelProgress::Next(_, KernelAction::MakeDirectory(path)) if path == "/images/.oci/kernel/x86_64"
    ));
    let corrupt = |_: &str| Ok(b"corrupt".to_vec());
    assert!(!cached_kernel_is_valid("/images", HOST, "7.1.8", &corrupt));
    let absent = |_: &str| Err("not found".to_owned());
    assert!(!cached_kernel_is_valid("/images", HOST, "7.1.8", &absent));
}

#[test]
fn a_download_is_cut_off_at_its_limit() {
    let mut download = Download::begin("http://r/k", 200).unwrap();
    download.take(PACKAGE_MAX_BYTES).unwrap();
    match download.take(1).unwrap_err() {
        ResolveError::KernelDownloadFailed { message, .. } => {
            assert_eq!(message, "body exceeds the 536870912-byte limit");
        }
        other => panic!("{other:?}"),
    }
    assert!(download.take(u64::MAX).is_err());
    match Download::begin("http://r/k", 503).unwrap_err() {
        ResolveError::KernelDownloadFailed { message, .. } => assert_eq!(message, "HTTP 503"),
        other => panic!("{other:?}"),
    }
}

#[test]
fn a_package_is_read_member_by_member() {
    let kernel = elf_kernel(0x3e);
    let package = kernel_package(MEMBER, &kernel);
    assert_eq!(
        lift_kernel(&package, "/p", "key", MEMBER, "/s").unwrap(),
        kernel
    );
    match lift_kernel(b"no archive at all", "/p", "key", MEMBER, "/s").unwrap_err() {
        ResolveError::CacheIo { operation, path, .. } => {
            assert_eq!((operation, path.as_str()), ("read kernel package", "/p"));
        }
        other => panic!("{other:?}"),
    }
    assert!(matches!(
        member_step(Ok(Some("kernel\\x".to_owned())), "/p", "key", "kernel/x"),
        MemberStep::Take
    ));
    assert!(matches!(
        member_step(Ok(Some("kernel/y".to_owned())), "/p", "key", "kernel/x"),
        MemberStep::Skip
    ));
    assert!(matches!(
        member_step(Err((true, "x".to_owned())), "/p", "key", "m"),
        MemberStep::Stop(ResolveError::CacheIo { operation: "decompress kernel package", .. })
    ));
    assert!(matches!(
        kernel_of_member(Err("cut".to_owned()), "/s", "m"),
        Err(ResolveError::CacheIo { operation: "write OCI kernel", .. })
    ));
    assert_eq!(KERNEL_MAX_BYTES, 256 * 1024 * 1024);
}

/// The header of a sparse file with one block of data at its front and a map that goes on.
fn sparse_header(size: u64, real: u64) -> tar::Header {
    let mut header = tar::Header::new_gnu();
    header.set_path("kernel/vmlinux").unwrap();
    header.set_entry_type(tar::EntryType::GNUSparse);
    header.set_size(size);
    let gnu = header.as_gnu_mut().unwrap();
    gnu.set_is_extended(true);
    gnu.set_real_size(real);
    gnu.sparse[0].offset.copy_from_slice(b"00000000000\0");
    gnu.sparse[0].numbytes.copy_from_slice(b"00000001000\0");
    header.set_cksum();
    header
}

fn lift(archive: &[u8]) -> Result<Vec<u8>, ResolveError> {
    let package = zstd::stream::encode_all(archive, 0).unwrap();
    lift_kernel(&package, "/p", "k", "kernel/vmlinux", "/s")
}

fn complaint(archive: &[u8]) -> String {
    match lift(archive) {
        Err(ResolveError::CacheIo { operation: "read kernel package", source, .. }) => source,
        other => panic!("{other:?}"),
    }
}

#[test]
fn an_archive_whose_positions_run_over_is_refused() {
    // One block of the map is one too many behind a file that ends at 2^64 - 512.
    let mut bytes = sparse_header(u64::MAX - 1023, 0).as_bytes().to_vec();
    bytes.extend([0_u8; 512]);
    assert_eq!(complaint(&bytes), "size overflow");

    // Without that block nothing runs over.
    assert_eq!(complaint(&bytes[..512]), "failed to read extension");

    // Nor does it behind a file that ends a block earlier.
    let mut bytes = sparse_header(u64::MAX - 1535, 0).as_bytes().to_vec();
    bytes.extend([0_u8; 512]);
    let text = complaint(&bytes);
    assert!(text.starts_with("mismatch in sparse file chunks"), "{text}");

    // Two blocks of the map are too many there.
    let mut bytes = sparse_header(u64::MAX - 1535, 0).as_bytes().to_vec();
    bytes.extend([0_u8; 1024]);
    bytes[512 + 504] = 1;
    assert_eq!(complaint(&bytes), "size overflow");
}

#[test]
fn what_stands_before_a_position_that_runs_over_is_read() {
    let mut header = tar::Header::new_gnu();
    header.set_path("kernel/vmlinux").unwrap();
    header.set_size(512);
    header.set_cksum();
    let mut bytes = header.as_bytes().to_vec();
    bytes.extend([7_u8; 512]);
    bytes.extend(sparse_header(u64::MAX - 2047, 0).as_bytes());
    bytes.extend([0_u8; 512]);
    assert_eq!(lift(&bytes).unwrap(), vec![7_u8; 512]);

    // A sparse file before it hides it no more than an ordinary one.
    header.set_path("kernel/other").unwrap();
    header.set_cksum();
    bytes[..512].copy_from_slice(header.as_bytes());
    assert_eq!(complaint(&bytes), "size overflow");
}

#[test]
fn a_sparse_file_with_a_long_map_is_read() {
    let mut bytes = sparse_header(512, 512).as_bytes().to_vec();
    bytes.extend([0_u8; 512]);
    bytes.extend([9_u8; 512]);
    assert_eq!(lift(&bytes).unwrap(), vec![9_u8; 512]);

    // Its size may be in binary.
    let mut header = sparse_header(512, 512);
    header.as_old_mut().size = [0x80, 0, 0, 0, 0, 0, 0, 0, 0, 0, 2, 0];
    header.set_cksum();
    bytes[..512].copy_from_slice(header.as_bytes());
    assert_eq!(lift(&bytes).unwrap(), vec![9_u8; 512]);
}

#[test]
fn a_size_in_a_pax_header_counts() {
    let pax = |text: &str| {
        let mut header = tar::Header::new_ustar();
        header.set_path("pax").unwrap();
        header.set_entry_type(tar::EntryType::XHeader);
        header.set_size(text.len() as u64);
        header.set_cksum();
        let mut bytes = header.as_bytes().to_vec();
        bytes.extend(text.as_bytes());
        bytes.resize(1024, 0);
        bytes
    };
    // The file begins at block 3 and would end at 2^64 - 512.
    let mut bytes = pax("29 size=18446744073709549568\n");
    bytes.extend(sparse_header(512, 512).as_bytes());
    bytes.extend([0_u8; 512]);
    bytes.extend([9_u8; 512]);
    assert_eq!(complaint(&bytes), "size overflow");

    let mut bytes = pax("12 size=512\n");
    bytes.extend(sparse_header(0, 512).as_bytes());
    bytes.extend([0_u8; 512]);
    bytes.extend([9_u8; 512]);
    assert_eq!(lift(&bytes).unwrap(), vec![9_u8; 512]);
}

#[test]
fn a_digest_that_is_none_is_quoted() {
    let error = verify_kernel("k", b"", Architecture::X86_64, "sha256:\"x\"").unwrap_err();
    assert!(matches!(
        error,
        ResolveError::Malformed(text)
            if text == "pinned OCI kernel digest \"sha256:\\\"x\\\"\": not a SHA-256 digest"
    ));
}
