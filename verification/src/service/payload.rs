//! The files to install: from a directory of built programs with a checkout, or
//! from a downloaded release.

use vstd::prelude::*;

use super::Error;
use crate::digest::sha256_bytes;
#[allow(unused_imports)]
use crate::digest::{hex, sha256};
#[allow(unused_imports)]
use super::{failed, failed_fix, outcome, Failure};
#[allow(unused_imports)]
use crate::files::{agrees, answers, holds, reads};
use crate::path::{joined, parent_of};
#[allow(unused_imports)]
use crate::path::{join, parent};
use crate::shell::CommandRunner;
#[allow(unused_imports)]
use crate::shell::{host, Reply};
use crate::text::{chars_of, decode_lossy, same, trimmed};
#[allow(unused_imports)]
use crate::text::{opt_text, opt_view, texts, trim, utf8_lossy};

verus! {

pub const STEP: &'static str = "payload";

/// The programs that every source of files must have.
pub const BUNDLE_BINARIES: [&'static str; 3] = ["firecrab-api", "firecrab-net-helper", "firecrab"];

/// The scripts by which the API turns a kernel into the format it boots.
pub const EXTRACT_HELPERS: [&'static str; 2] = ["extract-vmlinux", "extract-arm64-image"];

/// The programs that every source of files must have.
pub open spec fn bundle_binaries() -> Seq<Seq<char>> {
    seq!["firecrab-api"@, "firecrab-net-helper"@, "firecrab"@]
}

/// The license texts that every release must have.
pub open spec fn compliance_artifacts() -> Seq<Seq<char>> {
    seq![
        "LICENSE"@,
        "THIRD_PARTY_NOTICES.txt"@,
        "release-license-inventory.json"@,
        "licenses/GPL-2.0-only.txt"@,
    ]
}

/// The machine that a 64-bit little-endian ELF program is for, by the name that
/// releases use.
pub open spec fn elf_machine(bytes: Seq<u8>) -> Option<Seq<char>> {
    if bytes.len() < 20 || bytes.take(4) != seq![0x7fu8, 0x45u8, 0x4cu8, 0x46u8] || bytes[4] != 2
        || bytes[5] != 1 {
        None
    } else if bytes[18] == 62 && bytes[19] == 0 {
        Some("x86_64"@)
    } else if bytes[18] == 183 && bytes[19] == 0 {
        Some("aarch64"@)
    } else {
        None
    }
}

/// The machine that a 64-bit little-endian ELF program is for, by the name that
/// releases use.
pub fn elf_arch(bytes: &[u8]) -> (r: Option<&'static str>)
    ensures
        opt_text(r) == elf_machine(bytes@),
{
    if bytes.len() < 20 {
        return None;
    }
    let is_elf = bytes[0] == 0x7f && bytes[1] == 0x45 && bytes[2] == 0x4c && bytes[3] == 0x46;
    proof {
        let magic = seq![0x7fu8, 0x45u8, 0x4cu8, 0x46u8];
        if is_elf {
            assert(bytes@.take(4) =~= magic);
        } else {
            assert(bytes@.take(4)[0] == bytes@[0] && bytes@.take(4)[1] == bytes@[1] && bytes@.take(
                4,
            )[2] == bytes@[2] && bytes@.take(4)[3] == bytes@[3]);
        }
    }
    if !is_elf || bytes[4] != 2 || bytes[5] != 1 {
        return None;
    }
    if bytes[18] == 62 && bytes[19] == 0 {
        Some("x86_64")
    } else if bytes[18] == 183 && bytes[19] == 0 {
        Some("aarch64")
    } else {
        None
    }
}

/// Where a program is taken from: from `src_dir` if it is there, else what is
/// installed already.
pub open spec fn binary_source(
    name: Seq<char>,
    src_dir: Option<Seq<char>>,
    dest_dir: Seq<char>,
    files: spec_fn(Seq<char>) -> bool,
) -> Option<Seq<char>> {
    if src_dir is Some && files(join(src_dir->0, name)) {
        Some(join(src_dir->0, name))
    } else if files(join(dest_dir, name)) {
        Some(join(dest_dir, name))
    } else {
        None
    }
}

/// Where a program is taken from: from `src_dir` if it is there, else what is
/// installed already. Whether it may be executed does not matter, since installing
/// sets that.
pub fn resolve_binary<F: Fn(&str) -> bool>(
    name: &str,
    src_dir: Option<&str>,
    dest_dir: &str,
    is_file: &F,
) -> (r: Option<String>)
    requires
        answers(*is_file),
    ensures
        forall|files: spec_fn(Seq<char>) -> bool| #[trigger]
            agrees(*is_file, files) ==> opt_view(r) == binary_source(
                name@,
                opt_text(src_dir),
                dest_dir@,
                files,
            ),
{
    if let Some(src) = src_dir {
        let candidate = joined(src, name);
        if is_file(&candidate) {
            return Some(candidate);
        }
    }
    let installed = joined(dest_dir, name);
    if is_file(&installed) {
        Some(installed)
    } else {
        None
    }
}

/// Whether `dir` is the root of a checkout.
pub open spec fn is_checkout(dir: Seq<char>, files: spec_fn(Seq<char>) -> bool) -> bool {
    files(join(dir, "Cargo.toml"@)) && files(join(dir, "packaging/systemd/firecrab-api.service"@))
}

/// The first of `dir` and the directories that it lies in that is the root of a
/// checkout.
pub open spec fn checkout_above(dir: Seq<char>, files: spec_fn(Seq<char>) -> bool) -> Option<
    Seq<char>,
>
    decreases dir.len(),
    via checkout_above_decreases
{
    if is_checkout(dir, files) {
        Some(dir)
    } else {
        match parent(dir) {
            Some(up) => checkout_above(up, files),
            None => None,
        }
    }
}

#[via_fn]
proof fn checkout_above_decreases(dir: Seq<char>, files: spec_fn(Seq<char>) -> bool) {
    crate::path::parent_is_shorter(dir);
}

/// The first of `start` and the directories that it lies in that is the root of a
/// checkout.
pub fn find_checkout<F: Fn(&str) -> bool>(start: &str, is_file: &F) -> (r: Option<String>)
    requires
        answers(*is_file),
    ensures
        forall|files: spec_fn(Seq<char>) -> bool| #[trigger]
            agrees(*is_file, files) ==> opt_view(r) == checkout_above(start@, files),
{
    let mut current = start.to_owned();
    loop
        invariant
            answers(*is_file),
            forall|files: spec_fn(Seq<char>) -> bool| #[trigger]
                agrees(*is_file, files) ==> checkout_above(start@, files) == checkout_above(
                    current@,
                    files,
                ),
        decreases current@.len(),
    {
        proof {
            crate::path::parent_is_shorter(current@);
        }
        let manifest = joined(&current, "Cargo.toml");
        let unit = joined(&current, "packaging/systemd/firecrab-api.service");
        if is_file(&manifest) && is_file(&unit) {
            return Some(current);
        }
        match parent_of(&current) {
            Some(up) => {
                current = up;
            },
            None => {
                return None;
            },
        }
    }
}

/// Whether the programs named are in `root` and are built for `arch`; the first that
/// is not is the failure.
pub open spec fn binaries_verdict(
    root: Seq<char>,
    arch: Seq<char>,
    names: Seq<Seq<char>>,
    files: spec_fn(Seq<char>) -> bool,
    contents: spec_fn(Seq<char>) -> Result<Seq<u8>, Seq<char>>,
) -> Result<(), Failure>
    decreases names.len(),
{
    if names.len() == 0 {
        Ok(())
    } else {
        let path = join(root, names[0]);
        if !files(path) {
            Err(failed(STEP@, "release bundle is missing "@ + names[0]))
        } else if contents(path) is Ok && elf_machine(contents(path)->Ok_0) == Some(arch) {
            binaries_verdict(root, arch, names.skip(1), files, contents)
        } else {
            Err(
                failed(
                    STEP@,
                    "release bundle: "@ + names[0] + " is not a "@ + arch + " binary"@,
                ),
            )
        }
    }
}

/// Whether the license texts named are in `root`; the first that is not is the
/// failure.
pub open spec fn compliance_verdict(
    root: Seq<char>,
    names: Seq<Seq<char>>,
    files: spec_fn(Seq<char>) -> bool,
) -> Result<(), Failure>
    decreases names.len(),
{
    if names.len() == 0 {
        Ok(())
    } else if !files(join(root, names[0])) {
        Err(failed(STEP@, "release bundle is missing compliance artifact "@ + names[0]))
    } else {
        compliance_verdict(root, names.skip(1), files)
    }
}

/// Whether an unpacked release has every member that it must have.
pub open spec fn bundle_verdict(
    root: Seq<char>,
    arch: Seq<char>,
    files: spec_fn(Seq<char>) -> bool,
    contents: spec_fn(Seq<char>) -> Result<Seq<u8>, Seq<char>>,
) -> Result<(), Failure> {
    match binaries_verdict(root, arch, bundle_binaries(), files, contents) {
        Err(failure) => Err(failure),
        Ok(_) => compliance_verdict(root, compliance_artifacts(), files),
    }
}

/// Whether an unpacked release has every member that it must have, with the
/// programs built for `arch`.
pub fn verify_bundle_members<
    F: Fn(&str) -> bool,
    B: Fn(&str) -> Result<Vec<u8>, String>,
>(root: &str, arch: &str, is_file: &F, read: &B) -> (r: Result<(), Error>)
    requires
        answers(*is_file),
        reads(*read),
    ensures
        forall|
            files: spec_fn(Seq<char>) -> bool,
            contents: spec_fn(Seq<char>) -> Result<Seq<u8>, Seq<char>>,
        |
            #![trigger agrees(*is_file, files), holds(*read, contents)]
            agrees(*is_file, files) && holds(*read, contents) ==> outcome(r) == bundle_verdict(
                root@,
                arch@,
                files,
                contents,
            ),
{
    let ghost names = bundle_binaries();
    let mut i: usize = 0;
    assert(names.skip(0) =~= names);
    while i < 3
        invariant
            i <= 3,
            names == bundle_binaries(),
            answers(*is_file),
            reads(*read),
            forall|
                files: spec_fn(Seq<char>) -> bool,
                contents: spec_fn(Seq<char>) -> Result<Seq<u8>, Seq<char>>,
            |
                #![trigger agrees(*is_file, files), holds(*read, contents)]
                agrees(*is_file, files) && holds(*read, contents) ==> binaries_verdict(
                    root@,
                    arch@,
                    names.skip(i as int),
                    files,
                    contents,
                ) == binaries_verdict(root@, arch@, names, files, contents),
        decreases 3 - i,
    {
        let name = BUNDLE_BINARIES[i];
        let ghost rest = names.skip(i as int);
        assert(rest[0] == name@);
        assert(rest.skip(1) =~= names.skip(i + 1));
        let path = joined(root, name);
        if !is_file(&path) {
            return Err(Error::step(STEP, "release bundle is missing ".to_owned().concat(name)));
        }
        let built_for = match read(&path) {
            Ok(bytes) => elf_arch(&bytes),
            Err(_) => None,
        };
        let fits = match built_for {
            Some(found) => same(found, arch),
            None => false,
        };
        if !fits {
            return Err(
                Error::step(
                    STEP,
                    "release bundle: ".to_owned().concat(name).concat(" is not a ").concat(
                        arch,
                    ).concat(" binary"),
                ),
            );
        }
        i += 1;
    }
    let artifacts = [
        "LICENSE",
        "THIRD_PARTY_NOTICES.txt",
        "release-license-inventory.json",
        "licenses/GPL-2.0-only.txt",
    ];
    let ghost wanted = compliance_artifacts();
    assert(wanted.skip(0) =~= wanted);
    let mut k: usize = 0;
    while k < 4
        invariant
            k <= 4,
            wanted == compliance_artifacts(),
            texts(artifacts@) == wanted,
            answers(*is_file),
            forall|
                files: spec_fn(Seq<char>) -> bool,
                contents: spec_fn(Seq<char>) -> Result<Seq<u8>, Seq<char>>,
            |
                #![trigger agrees(*is_file, files), holds(*read, contents)]
                agrees(*is_file, files) && holds(*read, contents) ==> binaries_verdict(
                    root@,
                    arch@,
                    bundle_binaries(),
                    files,
                    contents,
                ) is Ok,
            forall|files: spec_fn(Seq<char>) -> bool| #[trigger]
                agrees(*is_file, files) ==> compliance_verdict(
                    root@,
                    wanted.skip(k as int),
                    files,
                ) == compliance_verdict(root@, wanted, files),
        decreases 4 - k,
    {
        let ghost rest = wanted.skip(k as int);
        assert(rest[0] == texts(artifacts@)[k as int]);
        assert(rest.skip(1) =~= wanted.skip(k + 1));
        let path = joined(root, artifacts[k]);
        if !is_file(&path) {
            return Err(
                Error::step(
                    STEP,
                    "release bundle is missing compliance artifact ".to_owned().concat(
                        artifacts[k],
                    ),
                ),
            );
        }
        k += 1;
    }
    Ok(())
}

/// The release tag that a version stands for; none where the latest has to be
/// looked up.
pub open spec fn tag_of(version: Option<Seq<char>>) -> Option<Seq<char>> {
    match version {
        None => None,
        Some(v) => if v.len() == 0 || v == "latest"@ {
            None
        } else if v[0] == 'v' {
            Some(v)
        } else {
            Some("v"@ + v)
        },
    }
}

/// The release tag that a version stands for: a bare version gets a `v`, and none
/// is known where the latest has to be looked up.
pub fn normalize_tag(version: Option<&str>) -> (r: Option<String>)
    ensures
        opt_view(r) == tag_of(opt_text(version)),
{
    match version {
        None => None,
        Some(v) => {
            let chars = chars_of(v);
            if chars.len() == 0 || same(v, "latest") {
                None
            } else if chars[0] == 'v' {
                Some(v.to_owned())
            } else {
                Some("v".to_owned().concat(v))
            }
        },
    }
}

/// Where the files to install lie.
#[derive(Debug)]
pub struct Payload {
    /// The directory of the programs.
    pub bin: String,
    /// The directory of the unit templates.
    pub units: String,
    /// The directory of the kernel extraction scripts.
    pub extract: String,
    /// The dashboard; none keeps an installed one.
    pub dashboard: Option<String>,
    /// The license of the project.
    pub license: String,
    /// The text of the GPL.
    pub gpl: String,
    /// Notices of third parties; a checkout may lack them.
    pub third_party: Option<String>,
    /// The license inventory; a checkout may lack it.
    pub inventory: Option<String>,
    /// The root of the checkout.
    pub checkout: Option<String>,
}

/// [`Payload`] as contracts speak of it.
pub struct Sources {
    pub bin: Seq<char>,
    pub units: Seq<char>,
    pub extract: Seq<char>,
    pub dashboard: Option<Seq<char>>,
    pub license: Seq<char>,
    pub gpl: Seq<char>,
    pub third_party: Option<Seq<char>>,
    pub inventory: Option<Seq<char>>,
    pub checkout: Option<Seq<char>>,
}

impl View for Payload {
    type V = Sources;

    open spec fn view(&self) -> Sources {
        Sources {
            bin: self.bin@,
            units: self.units@,
            extract: self.extract@,
            dashboard: opt_view(self.dashboard),
            license: self.license@,
            gpl: self.gpl@,
            third_party: opt_view(self.third_party),
            inventory: opt_view(self.inventory),
            checkout: opt_view(self.checkout),
        }
    }
}

/// What a way of finding the files comes to.
pub open spec fn found(r: Result<Payload, Error>) -> Result<Sources, Failure> {
    match r {
        Ok(payload) => Ok(payload@),
        Err(e) => Err(e@),
    }
}

/// The first of the programs named that is not in `bin`.
pub open spec fn first_absent(
    bin: Seq<char>,
    names: Seq<Seq<char>>,
    files: spec_fn(Seq<char>) -> bool,
) -> Option<Seq<char>>
    decreases names.len(),
{
    if names.len() == 0 {
        None
    } else if !files(join(bin, names[0])) {
        Some(names[0])
    } else {
        first_absent(bin, names.skip(1), files)
    }
}

/// The files of a directory of built programs and a checkout.
pub open spec fn built_sources(
    bin_dir: Seq<char>,
    dashboard_dir: Option<Seq<char>>,
    checkout: Seq<char>,
    is_dir: bool,
    files: spec_fn(Seq<char>) -> bool,
) -> Result<Sources, Failure> {
    let license = join(checkout, "LICENSE"@);
    let gpl = join(checkout, "licenses/GPL-2.0-only.txt"@);
    let compliance = join(checkout, "dist/compliance"@);
    let notices = join(compliance, "THIRD_PARTY_NOTICES.txt"@);
    let inventory = join(compliance, "release-license-inventory.json"@);
    let complete = files(notices) && files(inventory);
    let built = join(checkout, "firecrab-frontend/dist"@);
    let absent = first_absent(bin_dir, bundle_binaries(), files);
    if !is_dir {
        Err(failed(STEP@, "--bin-dir is not a directory: "@ + bin_dir))
    } else if absent is Some {
        Err(
            failed_fix(
                STEP@,
                "no "@ + absent->0 + " in "@ + bin_dir,
                "cargo build --release -p firecrab-api -p firecrab-net-helper -p firecrab-cli"@,
            ),
        )
    } else if !files(license) {
        Err(failed(STEP@, "missing "@ + license + " in the checkout"@))
    } else if !files(gpl) {
        Err(failed(STEP@, "missing "@ + gpl + " in the checkout"@))
    } else {
        Ok(
            Sources {
                bin: bin_dir,
                units: join(checkout, "packaging/systemd"@),
                extract: join(checkout, "scripts/firecracker-menual"@),
                dashboard: if dashboard_dir is Some {
                    dashboard_dir
                } else if files(join(built, "index.html"@)) {
                    Some(built)
                } else {
                    None
                },
                license,
                gpl,
                third_party: if complete {
                    Some(notices)
                } else {
                    None
                },
                inventory: if complete {
                    Some(inventory)
                } else {
                    None
                },
                checkout: Some(checkout),
            },
        )
    }
}

/// The files of a release unpacked in `root`.
pub open spec fn release_sources(root: Seq<char>) -> Sources {
    Sources {
        bin: root,
        units: join(root, "systemd"@),
        extract: root,
        dashboard: Some(join(root, "dashboard"@)),
        license: join(root, "LICENSE"@),
        gpl: join(root, "licenses/GPL-2.0-only.txt"@),
        third_party: Some(join(root, "THIRD_PARTY_NOTICES.txt"@)),
        inventory: Some(join(root, "release-license-inventory.json"@)),
        checkout: None,
    }
}

/// What unpacking an archive came to.
pub open spec fn unpack_verdict(reply: Reply) -> Result<(), Failure> {
    match reply {
        Reply::Failed { message, .. } => Err(failed(STEP@, "tar: "@ + message)),
        Reply::Done { success, stderr, .. } => if success {
            Ok(())
        } else {
            Err(failed(STEP@, "tar failed: "@ + trim(utf8_lossy(stderr))))
        },
    }
}

/// Whether a downloaded archive is the one that the list of checksums names.
pub open spec fn checksum_verdict(
    tarball: Seq<char>,
    expected: Option<Seq<char>>,
    actual: Seq<char>,
) -> Result<(), Failure> {
    match expected {
        None => Err(failed(STEP@, tarball + " is not listed in SHA256SUMS"@)),
        Some(sum) => if sum == actual {
            Ok(())
        } else {
            Err(
                failed(
                    STEP@,
                    "checksum mismatch for "@ + tarball + ": expected "@ + sum + ", got "@
                        + actual,
                ),
            )
        },
    }
}

/// Whether a downloaded archive is the one that the list of checksums names;
/// `expected` is what the list says of it.
pub fn verify_checksum(tarball: &str, expected: Option<&str>, actual: &str) -> (r: Result<
    (),
    Error,
>)
    ensures
        outcome(r) == checksum_verdict(tarball@, opt_text(expected), actual@),
{
    match expected {
        None => Err(Error::step(STEP, tarball.to_owned().concat(" is not listed in SHA256SUMS"))),
        Some(sum) => if same(sum, actual) {
            Ok(())
        } else {
            Err(
                Error::step(
                    STEP,
                    "checksum mismatch for ".to_owned().concat(tarball).concat(
                        ": expected ",
                    ).concat(sum).concat(", got ").concat(actual),
                ),
            )
        },
    }
}

/// Whether an archive may be unpacked: it must be listed, readable, and the one listed.
pub open spec fn archive_verdict(
    tarball: Seq<char>,
    expected: Option<Seq<char>>,
    held: Result<Seq<u8>, Seq<char>>,
) -> Result<(), Failure> {
    match held {
        Err(why) => if expected is None {
            checksum_verdict(tarball, expected, Seq::empty())
        } else {
            Err(Failure::Bundle(why))
        },
        Ok(bytes) => checksum_verdict(tarball, expected, hex(sha256(bytes))),
    }
}

/// What a release comes to once its archive was unpacked in `root`.
pub open spec fn release_verdict(
    reply: Reply,
    root: Seq<char>,
    arch: Seq<char>,
    files: spec_fn(Seq<char>) -> bool,
    contents: spec_fn(Seq<char>) -> Result<Seq<u8>, Seq<char>>,
) -> Result<Sources, Failure> {
    match unpack_verdict(reply) {
        Err(failure) => Err(failure),
        Ok(_) => match bundle_verdict(root, arch, files, contents) {
            Ok(_) => Ok(release_sources(root)),
            Err(failure) => Err(failure),
        },
    }
}

impl Payload {
    /// The files of a directory of built programs, with a checkout for the rest.
    /// `is_dir` says whether `bin_dir` is a directory.
    pub fn from_bin_dir<F: Fn(&str) -> bool>(
        bin_dir: &str,
        dashboard_dir: Option<&str>,
        checkout: &str,
        is_dir: bool,
        is_file: &F,
    ) -> (r: Result<Self, Error>)
        requires
            answers(*is_file),
        ensures
            forall|files: spec_fn(Seq<char>) -> bool| #[trigger]
                agrees(*is_file, files) ==> found(r) == built_sources(
                    bin_dir@,
                    opt_text(dashboard_dir),
                    checkout@,
                    is_dir,
                    files,
                ),
    {
        if !is_dir {
            return Err(
                Error::step(STEP, "--bin-dir is not a directory: ".to_owned().concat(bin_dir)),
            );
        }
        let ghost names = bundle_binaries();
        assert(names.skip(0) =~= names);
        let mut i: usize = 0;
        while i < 3
            invariant
                i <= 3,
                is_dir,
                names == bundle_binaries(),
                answers(*is_file),
                forall|files: spec_fn(Seq<char>) -> bool| #[trigger]
                    agrees(*is_file, files) ==> first_absent(
                        bin_dir@,
                        names.skip(i as int),
                        files,
                    ) == first_absent(bin_dir@, names, files),
            decreases 3 - i,
        {
            let name = BUNDLE_BINARIES[i];
            let ghost rest = names.skip(i as int);
            assert(rest[0] == name@);
            assert(rest.skip(1) =~= names.skip(i + 1));
            if !is_file(&joined(bin_dir, name)) {
                return Err(
                    Error::step_fix(
                        STEP,
                        "no ".to_owned().concat(name).concat(" in ").concat(bin_dir),
                        "cargo build --release -p firecrab-api -p firecrab-net-helper -p firecrab-cli".to_owned(),
                    ),
                );
            }
            i += 1;
        }
        let license = joined(checkout, "LICENSE");
        let gpl = joined(checkout, "licenses/GPL-2.0-only.txt");
        if !is_file(&license) {
            return Err(
                Error::step(
                    STEP,
                    "missing ".to_owned().concat(&license).concat(" in the checkout"),
                ),
            );
        }
        if !is_file(&gpl) {
            return Err(
                Error::step(STEP, "missing ".to_owned().concat(&gpl).concat(" in the checkout")),
            );
        }
        let compliance = joined(checkout, "dist/compliance");
        let notices = joined(&compliance, "THIRD_PARTY_NOTICES.txt");
        let inv = joined(&compliance, "release-license-inventory.json");
        let (third_party, inventory) = if is_file(&notices) && is_file(&inv) {
            (Some(notices), Some(inv))
        } else {
            (None, None)
        };
        let dashboard = match dashboard_dir {
            Some(dir) => Some(dir.to_owned()),
            None => {
                let built = joined(checkout, "firecrab-frontend/dist");
                if is_file(&joined(&built, "index.html")) {
                    Some(built)
                } else {
                    None
                }
            },
        };
        Ok(
            Payload {
                bin: bin_dir.to_owned(),
                units: joined(checkout, "packaging/systemd"),
                extract: joined(checkout, "scripts/firecracker-menual"),
                dashboard,
                license,
                gpl,
                third_party,
                inventory,
                checkout: Some(checkout.to_owned()),
            },
        )
    }

    /// The files of a release. The downloaded `archive`, known as `tarball` to the list of
    /// checksums, must be the one that the list names, of which it says `expected`. It is then
    /// unpacked in the directory `root`, and its members are checked. An archive that is not
    /// the one listed is not unpacked.
    pub fn from_release<
        R: CommandRunner,
        F: Fn(&str) -> bool,
        B: Fn(&str) -> Result<Vec<u8>, String>,
    >(
        runner: &mut R,
        tarball: &str,
        expected: Option<&str>,
        archive: &str,
        root: &str,
        arch: &str,
        is_file: &F,
        read: &B,
    ) -> (r: Result<Self, Error>)
        requires
            answers(*is_file),
            reads(*read),
        ensures
            forall|
                files: spec_fn(Seq<char>) -> bool,
                contents: spec_fn(Seq<char>) -> Result<Seq<u8>, Seq<char>>,
            |
                #![trigger agrees(*is_file, files), holds(*read, contents)]
                agrees(*is_file, files) && holds(*read, contents) ==> match archive_verdict(
                    tarball@,
                    opt_text(expected),
                    contents(archive@),
                ) {
                    Err(failure) => {
                        &&& host(*final(runner)) == host(*old(runner))
                        &&& found(r) == Err::<Sources, Failure>(failure)
                    },
                    Ok(_) => {
                        let (after, reply) = host(*old(runner)).run(
                            "tar"@,
                            seq!["-xzf"@, archive@, "-C"@, root@],
                        );
                        &&& host(*final(runner)) == after
                        &&& found(r) == release_verdict(reply, root@, arch@, files, contents)
                    },
                },
    {
        if expected.is_none() {
            return Err(
                Error::step(STEP, tarball.to_owned().concat(" is not listed in SHA256SUMS")),
            );
        }
        match read(archive) {
            Err(why) => {
                return Err(Error::Bundle(why));
            },
            Ok(bytes) => match verify_checksum(tarball, expected, &sha256_bytes(&bytes)) {
                Ok(()) => {},
                Err(e) => {
                    return Err(e);
                },
            },
        }
        let args = ["-xzf", archive, "-C", root];
        assert(texts(args@) =~= seq!["-xzf"@, archive@, "-C"@, root@]);
        match runner.run("tar", &args) {
            Err(e) => {
                return Err(Error::step(STEP, "tar: ".to_owned().concat(&e.message)));
            },
            Ok(out) => {
                if !out.status.success() {
                    let stderr = trimmed(&decode_lossy(&out.stderr));
                    return Err(Error::step(STEP, "tar failed: ".to_owned().concat(&stderr)));
                }
            },
        }
        match verify_bundle_members(root, arch, is_file, read) {
            Ok(()) => {},
            Err(e) => {
                return Err(e);
            },
        }
        Ok(
            Payload {
                bin: root.to_owned(),
                units: joined(root, "systemd"),
                extract: root.to_owned(),
                dashboard: Some(joined(root, "dashboard")),
                license: joined(root, "LICENSE"),
                gpl: joined(root, "licenses/GPL-2.0-only.txt"),
                third_party: Some(joined(root, "THIRD_PARTY_NOTICES.txt")),
                inventory: Some(joined(root, "release-license-inventory.json")),
                checkout: None,
            },
        )
    }
}

} // verus!
