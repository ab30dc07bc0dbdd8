//! The registry of templates.

use vstd::prelude::*;

#[allow(unused_imports)]
use super::{
    all_wanted, among, boot_verdict, owner, same_place, sought, stays_below, verdict, Artifact,
    Problem, Template, Wanted,
};
use super::{
    artifacts_present, catalog_owner_of, default_specs_for_arch, validate_relative_path,
    verify_kernel_architecture, Architecture, ImageManifest, TemplateError, TemplateSpec,
    TemplateVersion, VerifiedArtifact,
};
#[allow(unused_imports)]
use crate::files::{agrees, answers};
use crate::digest::sha256_bytes;
#[allow(unused_imports)]
use crate::digest::{hex, sha256};
use crate::path;
use crate::table::Table;
#[allow(unused_imports)]
use crate::table::Key;
use crate::text::{precedes, same};
#[allow(unused_imports)]
use crate::text::{less, less_is_total, less_is_transitive, views};

verus! {

/// The file below the image root that keeps what was registered at run time.
pub const REGISTRATIONS_FILE: &'static str = ".templates.json";

/// What the file system says of a file without reading it.
#[derive(Debug, Clone, Copy, PartialEq, Eq, Structural)]
pub struct FileStat {
    /// Whether it is a regular file.
    pub regular: bool,
    pub device: u64,
    pub inode: u64,
    pub length: u64,
    /// When it was last written to, in whole seconds.
    pub mtime: i64,
    /// The nanoseconds beyond those seconds.
    pub mtime_nsec: i64,
}

/// The image root as a registry sees it: what each file is, and its bytes. Each may be had
/// or not.
pub struct Disk {
    pub stats: spec_fn(Seq<char>) -> Result<FileStat, Seq<char>>,
    pub bytes: spec_fn(Seq<char>) -> Result<Seq<u8>, Seq<char>>,
}

/// Whether both can be asked about every path.
pub open spec fn usable<
    S: Fn(&str) -> Result<FileStat, String>,
    B: Fn(&str) -> Result<Vec<u8>, String>,
>(stat: S, read: B) -> bool {
    &&& forall|p: &str| call_requires(stat, (p,))
    &&& forall|p: &str| call_requires(read, (p,))
}

/// What the file system said of a file.
pub open spec fn said(r: Result<FileStat, String>) -> Result<FileStat, Seq<char>> {
    match r {
        Ok(found) => Ok(found),
        Err(why) => Err(why@),
    }
}

/// What a file was found to hold.
pub open spec fn held(r: Result<Vec<u8>, String>) -> Result<Seq<u8>, Seq<char>> {
    match r {
        Ok(bytes) => Ok(bytes@),
        Err(why) => Err(why@),
    }
}

/// Whether `stat` was asked about a path, and gave that answer.
pub open spec fn told<S: Fn(&str) -> Result<FileStat, String>>(
    stat: S,
    p: Seq<char>,
    found: Result<FileStat, Seq<char>>,
) -> bool {
    exists|q: &str, r: Result<FileStat, String>| #[trigger]
        call_ensures(stat, (q,), r) && q@ == p && said(r) == found
}

/// Whether `read` was asked for a path, and gave that answer.
pub open spec fn given<B: Fn(&str) -> Result<Vec<u8>, String>>(
    read: B,
    p: Seq<char>,
    bytes: Result<Seq<u8>, Seq<char>>,
) -> bool {
    exists|q: &str, r: Result<Vec<u8>, String>| #[trigger]
        call_ensures(read, (q,), r) && q@ == p && held(r) == bytes
}

/// Whether both answer by `disk`, whenever they are asked.
pub open spec fn shows<
    S: Fn(&str) -> Result<FileStat, String>,
    B: Fn(&str) -> Result<Vec<u8>, String>,
>(stat: S, read: B, disk: Disk) -> bool {
    &&& forall|p: &str, r: Result<FileStat, String>| #[trigger]
        call_ensures(stat, (p,), r) ==> (disk.stats)(p@) == said(r)
    &&& forall|p: &str, r: Result<Vec<u8>, String>| #[trigger]
        call_ensures(read, (p,), r) ==> (disk.bytes)(p@) == held(r)
}

/// A regular file below the root, by what the file system said of it.
pub open spec fn regular_as(p: Seq<char>, found: Result<FileStat, Seq<char>>) -> Result<
    FileStat,
    Problem,
> {
    match found {
        Err(why) => Err(Problem::Io(why)),
        Ok(found) => if found.regular {
            Ok(found)
        } else {
            Err(Problem::NotRegularFile(p))
        },
    }
}

/// A file with its identity and the SHA-256 digest of its bytes.
pub open spec fn artifact_as(p: Seq<char>, found: FileStat, bytes: Result<Seq<u8>, Seq<char>>) -> Result<
    Artifact,
    Problem,
> {
    match bytes {
        Err(why) => Err(Problem::Io(why)),
        Ok(bytes) => Ok(
            Artifact {
                path: p,
                device: found.device,
                inode: found.inode,
                length: found.length,
                sha256: hex(sha256(bytes)),
            },
        ),
    }
}

/// The template of some files.
pub open spec fn template_as(
    wanted: Wanted,
    kernel: Artifact,
    initrd: Option<Artifact>,
    rootfs: Artifact,
) -> Template {
    Template {
        name: wanted.alias,
        version: wanted.version,
        kernel,
        initrd,
        rootfs,
        boot_args: wanted.boot_args,
    }
}

/// Whether looking at a path came to `r`.
pub open spec fn looks<S: Fn(&str) -> Result<FileStat, String>>(
    stat: S,
    p: Seq<char>,
    r: Result<FileStat, Problem>,
) -> bool {
    if !stays_below(p) {
        r == Err::<FileStat, Problem>(Problem::InvalidPath)
    } else {
        exists|found: Result<FileStat, Seq<char>>| #[trigger]
            told(stat, p, found) && r == regular_as(p, found)
    }
}

/// Whether pinning a file came to `r`, by the answers that were given.
pub open spec fn pins<
    S: Fn(&str) -> Result<FileStat, String>,
    B: Fn(&str) -> Result<Vec<u8>, String>,
>(stat: S, read: B, p: Seq<char>, r: Result<Artifact, Problem>) -> bool {
    exists|found: Result<FileStat, Problem>| #[trigger]
        looks(stat, p, found) && match found {
            Err(problem) => r == Err::<Artifact, Problem>(problem),
            Ok(found) => exists|bytes: Result<Seq<u8>, Seq<char>>| #[trigger]
                given(read, p, bytes) && r == artifact_as(p, found, bytes),
        }
}

/// Whether pinning a file that a template may lack came to `r`.
pub open spec fn pins_any<
    S: Fn(&str) -> Result<FileStat, String>,
    B: Fn(&str) -> Result<Vec<u8>, String>,
>(stat: S, read: B, p: Option<Seq<char>>, r: Result<Option<Artifact>, Problem>) -> bool {
    match p {
        None => r == Ok::<Option<Artifact>, Problem>(None),
        Some(p) => match r {
            Ok(artifact) => artifact is Some && pins(stat, read, p, Ok(artifact->0)),
            Err(problem) => pins(stat, read, p, Err(problem)),
        },
    }
}

/// Whether the question if a host can boot a kernel came to `r`.
pub open spec fn tries<B: Fn(&str) -> Result<Vec<u8>, String>>(
    read: B,
    p: Seq<char>,
    host: Option<Architecture>,
    r: Result<(), Problem>,
) -> bool {
    match host {
        None => r is Ok,
        Some(host) => if !stays_below(p) {
            r == Err::<(), Problem>(Problem::InvalidPath)
        } else {
            exists|bytes: Result<Seq<u8>, Seq<char>>| #[trigger]
                given(read, p, bytes) && r == match bytes {
                    Err(why) => Err(Problem::Io(why)),
                    Ok(bytes) => boot_verdict(p, bytes, host),
                }
        },
    }
}

/// Whether pinning the files of a template came to `r`, by the answers that were given.
pub open spec fn builds<
    S: Fn(&str) -> Result<FileStat, String>,
    B: Fn(&str) -> Result<Vec<u8>, String>,
>(
    stat: S,
    read: B,
    wanted: Wanted,
    host: Option<Architecture>,
    r: Result<Template, Problem>,
) -> bool {
    exists|initrd: Result<Option<Artifact>, Problem>| #[trigger]
        pins_any(stat, read, wanted.initrd, initrd) && match initrd {
            Err(problem) => r == Err::<Template, Problem>(problem),
            Ok(initrd) => exists|boots: Result<(), Problem>| #[trigger]
                tries(read, wanted.kernel, host, boots) && match boots {
                    Err(problem) => r == Err::<Template, Problem>(problem),
                    Ok(_) => builds_rest(stat, read, wanted, initrd, r),
                },
        }
}

/// Whether pinning the kernel and the root filesystem of a template came to `r`.
pub open spec fn builds_rest<
    S: Fn(&str) -> Result<FileStat, String>,
    B: Fn(&str) -> Result<Vec<u8>, String>,
>(stat: S, read: B, wanted: Wanted, initrd: Option<Artifact>, r: Result<Template, Problem>) -> bool {
    exists|kernel: Result<Artifact, Problem>| #[trigger]
        pins(stat, read, wanted.kernel, kernel) && match kernel {
            Err(problem) => r == Err::<Template, Problem>(problem),
            Ok(kernel) => exists|rootfs: Result<Artifact, Problem>| #[trigger]
                pins(stat, read, wanted.rootfs, rootfs) && r == match rootfs {
                    Err(problem) => Err(problem),
                    Ok(rootfs) => Ok(template_as(wanted, kernel, initrd, rootfs)),
                },
        }
}

impl Disk {
    /// A regular file below the root.
    pub open spec fn regular(self, p: Seq<char>) -> Result<FileStat, Problem> {
        if !stays_below(p) {
            Err(Problem::InvalidPath)
        } else {
            regular_as(p, (self.stats)(p))
        }
    }

    /// A file with its identity and the SHA-256 digest of its bytes.
    pub open spec fn artifact(self, p: Seq<char>) -> Result<Artifact, Problem> {
        match self.regular(p) {
            Err(problem) => Err(problem),
            Ok(found) => artifact_as(p, found, (self.bytes)(p)),
        }
    }

    /// Whether a host can boot a kernel below the root.
    pub open spec fn boots(self, p: Seq<char>, host: Architecture) -> Result<(), Problem> {
        if !stays_below(p) {
            Err(Problem::InvalidPath)
        } else {
            match (self.bytes)(p) {
                Err(why) => Err(Problem::Io(why)),
                Ok(bytes) => boot_verdict(p, bytes, host),
            }
        }
    }

    /// The files of a template: the initrd is looked at first, and the kernel before
    /// the root filesystem. With a `host`, its kernel must be one that the host boots.
    pub open spec fn template(self, wanted: Wanted, host: Option<Architecture>) -> Result<
        Template,
        Problem,
    > {
        let initrd = match wanted.initrd {
            None => Ok(None),
            Some(p) => match self.artifact(p) {
                Ok(artifact) => Ok(Some(artifact)),
                Err(problem) => Err(problem),
            },
        };
        let boots = match host {
            Some(host) => self.boots(wanted.kernel, host),
            None => Ok(()),
        };
        match (initrd, boots, self.artifact(wanted.kernel), self.artifact(wanted.rootfs)) {
            (Err(problem), _, _, _) => Err(problem),
            (_, Err(problem), _, _) => Err(problem),
            (_, _, Err(problem), _) => Err(problem),
            (_, _, _, Err(problem)) => Err(problem),
            (Ok(initrd), Ok(_), Ok(kernel), Ok(rootfs)) => Ok(
                template_as(wanted, kernel, initrd, rootfs),
            ),
        }
    }
}

/// What answers as a disk does comes to what the disk holds.
proof fn pins_of_a_disk<
    S: Fn(&str) -> Result<FileStat, String>,
    B: Fn(&str) -> Result<Vec<u8>, String>,
>(stat: S, read: B, disk: Disk)
    requires
        shows(stat, read, disk),
    ensures
        forall|p: Seq<char>, r: Result<FileStat, Problem>| #[trigger]
            looks(stat, p, r) ==> r == disk.regular(p),
        forall|p: Seq<char>, r: Result<Artifact, Problem>| #[trigger]
            pins(stat, read, p, r) ==> r == disk.artifact(p),
        forall|w: Wanted, h: Option<Architecture>, r: Result<Template, Problem>| #[trigger]
            builds(stat, read, w, h, r) ==> r == disk.template(w, h),
{
}

fn regular_file<S: Fn(&str) -> Result<FileStat, String>>(p: &str, stat: &S) -> (r: Result<
    FileStat,
    TemplateError,
>)
    requires
        forall|q: &str| call_requires(*stat, (q,)),
    ensures
        looks(
            *stat,
            p@,
            match r {
                Ok(found) => Ok::<FileStat, Problem>(found),
                Err(e) => Err(e@),
            },
        ),
{
    if let Err(e) = validate_relative_path(p) {
        return Err(e);
    }
    let answer = stat(p);
    assert(told(*stat, p@, said(answer)));
    match answer {
        Err(why) => Err(TemplateError::Io(why)),
        Ok(found) => if found.regular {
            Ok(found)
        } else {
            Err(TemplateError::NotRegularFile(p.to_owned()))
        },
    }
}

/// What pinning a file came to.
pub open spec fn pinned_as(r: Result<VerifiedArtifact, TemplateError>) -> Result<Artifact, Problem> {
    match r {
        Ok(artifact) => Ok(artifact@),
        Err(e) => Err(e@),
    }
}

/// What pinning the files of a template came to.
pub open spec fn built_as(r: Result<TemplateVersion, TemplateError>) -> Result<Template, Problem> {
    match r {
        Ok(template) => Ok(template@),
        Err(e) => Err(e@),
    }
}

/// Pins a file as it is now: its identity, and the SHA-256 digest of its bytes.
pub fn verify_artifact<
    S: Fn(&str) -> Result<FileStat, String>,
    B: Fn(&str) -> Result<Vec<u8>, String>,
>(p: &str, stat: &S, read: &B) -> (r: Result<VerifiedArtifact, TemplateError>)
    requires
        usable(*stat, *read),
    ensures
        pins(*stat, *read, p@, pinned_as(r)),
        forall|disk: Disk| #[trigger]
            shows(*stat, *read, disk) ==> pinned_as(r) == disk.artifact(p@),
{
    let r = match regular_file(p, stat) {
        Err(e) => {
            assert(looks(*stat, p@, Err(e@)));
            Err(e)
        },
        Ok(found) => {
            assert(looks(*stat, p@, Ok(found)));
            let answer = read(p);
            assert(given(*read, p@, held(answer)));
            match answer {
                Err(why) => Err(TemplateError::Io(why)),
                Ok(bytes) => Ok(
                    VerifiedArtifact::new(
                        p,
                        found.device,
                        found.inode,
                        found.length,
                        sha256_bytes(&bytes),
                    ),
                ),
            }
        },
    };
    proof {
        assert forall|disk: Disk| #[trigger] shows(*stat, *read, disk) implies pinned_as(r)
            == disk.artifact(p@) by {
            pins_of_a_disk(*stat, *read, disk);
        }
    }
    r
}

fn try_kernel<B: Fn(&str) -> Result<Vec<u8>, String>>(
    p: &str,
    host: Option<Architecture>,
    read: &B,
) -> (r: Result<(), TemplateError>)
    requires
        forall|q: &str| call_requires(*read, (q,)),
    ensures
        tries(*read, p@, host, verdict(r)),
{
    match host {
        None => Ok(()),
        Some(host) => {
            if let Err(e) = validate_relative_path(p) {
                return Err(e);
            }
            let answer = read(p);
            assert(given(*read, p@, held(answer)));
            match answer {
                Err(why) => Err(TemplateError::Io(why)),
                Ok(bytes) => verify_kernel_architecture(p, &bytes, host),
            }
        },
    }
}

/// Pins the files of a template as they are now.
pub fn build_version<
    S: Fn(&str) -> Result<FileStat, String>,
    B: Fn(&str) -> Result<Vec<u8>, String>,
>(spec: &TemplateSpec, host: Option<Architecture>, stat: &S, read: &B) -> (r: Result<
    TemplateVersion,
    TemplateError,
>)
    requires
        usable(*stat, *read),
    ensures
        builds(*stat, *read, spec@, host, built_as(r)),
        forall|disk: Disk| #[trigger]
            shows(*stat, *read, disk) ==> built_as(r) == disk.template(spec@, host),
        r is Ok ==> r->Ok_0@.name == spec@.alias && r->Ok_0@.version == spec@.version,
{
    let r = build(spec, host, stat, read);
    proof {
        assert forall|disk: Disk| #[trigger] shows(*stat, *read, disk) implies built_as(r)
            == disk.template(spec@, host) by {
            pins_of_a_disk(*stat, *read, disk);
        }
    }
    r
}

fn build<S: Fn(&str) -> Result<FileStat, String>, B: Fn(&str) -> Result<Vec<u8>, String>>(
    spec: &TemplateSpec,
    host: Option<Architecture>,
    stat: &S,
    read: &B,
) -> (r: Result<TemplateVersion, TemplateError>)
    requires
        usable(*stat, *read),
    ensures
        builds(*stat, *read, spec@, host, built_as(r)),
        r is Ok ==> r->Ok_0@.name == spec@.alias && r->Ok_0@.version == spec@.version,
{
    let initrd = match &spec.initrd {
        None => None,
        Some(p) => match verify_artifact(p, stat, read) {
            Ok(artifact) => Some(artifact),
            Err(e) => {
                assert(pins_any(*stat, *read, spec@.initrd, Err(e@)));
                return Err(e);
            },
        },
    };
    let ghost first = if initrd is Some {
        Some(initrd->0@)
    } else {
        None
    };
    assert(pins_any(*stat, *read, spec@.initrd, Ok(first)));
    if let Err(e) = try_kernel(&spec.kernel, host, read) {
        assert(tries(*read, spec@.kernel, host, Err(e@)));
        return Err(e);
    }
    assert(tries(*read, spec@.kernel, host, Ok(())));
    let kernel = match verify_artifact(&spec.kernel, stat, read) {
        Ok(artifact) => artifact,
        Err(e) => {
            assert(pins(*stat, *read, spec@.kernel, Err(e@)));
            assert(builds_rest(*stat, *read, spec@, first, Err(e@)));
            return Err(e);
        },
    };
    assert(pins(*stat, *read, spec@.kernel, Ok(kernel@)));
    let rootfs = match verify_artifact(&spec.rootfs, stat, read) {
        Ok(artifact) => artifact,
        Err(e) => {
            assert(pins(*stat, *read, spec@.rootfs, Err(e@)));
            assert(builds_rest(*stat, *read, spec@, first, Err(e@)));
            return Err(e);
        },
    };
    assert(pins(*stat, *read, spec@.rootfs, Ok(rootfs@)));
    let template = TemplateVersion {
        name: spec.alias.clone(),
        version: spec.version.clone(),
        kernel,
        initrd,
        rootfs,
        boot_args: spec.boot_args.clone(),
    };
    assert(builds_rest(*stat, *read, spec@, first, Ok(template@)));
    Ok(template)
}

/// The registrations without those of an alias.
pub open spec fn without(entries: Seq<Wanted>, alias: Seq<char>) -> Seq<Wanted> {
    entries.filter(|e: Wanted| e.alias != alias)
}

/// The registrations with that of `spec` in place of every other of its alias.
pub open spec fn recorded(entries: Seq<Wanted>, spec: Wanted) -> Seq<Wanted> {
    without(entries, spec.alias).push(spec)
}

fn retain_others(entries: &[TemplateSpec], alias: &str) -> (r: Vec<TemplateSpec>)
    ensures
        all_wanted(r@) == without(all_wanted(entries@), alias@),
        r@.len() <= entries@.len(),
{
    let ghost all = all_wanted(entries@);
    let ghost keep = |e: Wanted| e.alias != alias@;
    let mut out: Vec<TemplateSpec> = Vec::new();
    let mut i: usize = 0;
    assert(all.take(0).filter(keep) =~= Seq::<Wanted>::empty()) by {
        reveal(Seq::filter);
    }
    assert(all_wanted(out@) =~= Seq::<Wanted>::empty());
    while i < entries.len()
        invariant
            i <= entries@.len(),
            out@.len() <= i,
            all == all_wanted(entries@),
            keep == (|e: Wanted| e.alias != alias@),
            all_wanted(out@) == all.take(i as int).filter(keep),
        decreases entries@.len() - i,
    {
        let ghost before = all_wanted(out@);
        assert(all.take(i + 1).drop_last() =~= all.take(i as int));
        assert(all.take(i + 1).last() == entries@[i as int]@);
        proof {
            reveal(Seq::filter);
        }
        if !same(&entries[i].alias, alias) {
            out.push(entries[i].copy());
            assert(all_wanted(out@) =~= before.push(entries@[i as int]@));
        }
        i += 1;
    }
    assert(all.take(i as int) =~= all);
    out
}

/// The registrations to keep once `spec` is registered: there is one for each alias, so
/// an earlier one of the same alias goes.
pub fn record_registration(entries: &[TemplateSpec], spec: &TemplateSpec) -> (r: Vec<TemplateSpec>)
    ensures
        all_wanted(r@) == recorded(all_wanted(entries@), spec@),
{
    let mut out = retain_others(entries, &spec.alias);
    let ghost before = all_wanted(out@);
    out.push(spec.copy());
    assert(all_wanted(out@) =~= before.push(spec@));
    out
}

/// The registrations to keep once an alias is gone, where that changes them.
pub fn forget_registration(entries: &[TemplateSpec], alias: &str) -> (r: Option<Vec<TemplateSpec>>)
    ensures
        match r {
            Some(kept) => all_wanted(kept@) == without(all_wanted(entries@), alias@) && all_wanted(
                kept@,
            ) != all_wanted(entries@),
            None => without(all_wanted(entries@), alias@) == all_wanted(entries@),
        },
{
    let kept = retain_others(entries, alias);
    assert(all_wanted(kept@).len() == kept@.len() && all_wanted(entries@).len() == entries@.len());
    if kept.len() == entries.len() {
        proof {
            full_filter(all_wanted(entries@), |e: Wanted| e.alias != alias@);
        }
        None
    } else {
        Some(kept)
    }
}

proof fn full_filter(all: Seq<Wanted>, keep: spec_fn(Wanted) -> bool)
    ensures
        all.filter(keep).len() <= all.len(),
        all.filter(keep).len() == all.len() ==> all.filter(keep) == all,
    decreases all.len(),
{
    reveal(Seq::filter);
    if all.len() > 0 {
        full_filter(all.drop_last(), keep);
        assert(all.drop_last().push(all.last()) =~= all);
    }
}

/// A digest as it was computed earlier, and what the file looked like then.
#[derive(Debug)]
struct CachedHash {
    device: u64,
    inode: u64,
    length: u64,
    mtime: i64,
    mtime_nsec: i64,
    sha256: String,
}

/// A digest as it was computed earlier, and what the file looked like then.
pub struct Remembered {
    pub length: u64,
    pub mtime: i64,
    pub mtime_nsec: i64,
    pub sha256: Seq<char>,
}

/// A registry as contracts speak of it.
pub struct Catalog {
    /// The image root.
    pub root: Seq<char>,
    /// The version that each alias is pinned to.
    pub pins: Map<Seq<char>, Seq<char>>,
    /// The templates, by alias and version.
    pub templates: Map<(Seq<char>, Seq<char>), Template>,
    /// The digests computed so far, by device and inode.
    pub memory: Map<(u64, u64), Remembered>,
}

impl Catalog {
    /// What every registry keeps: an alias is pinned to a template that is there, and a
    /// template stands under its own alias and version.
    pub open spec fn consistent(self) -> bool {
        &&& forall|a: Seq<char>| #[trigger]
            self.pins.contains_key(a) ==> self.templates.contains_key((a, self.pins[a]))
        &&& forall|k: (Seq<char>, Seq<char>)| #[trigger]
            self.templates.contains_key(k) ==> self.templates[k].name == k.0
                && self.templates[k].version == k.1
    }

    /// The template that an alias stands for.
    pub open spec fn current(self, alias: Seq<char>) -> Option<Template> {
        if self.pins.contains_key(alias) {
            Some(self.templates[(alias, self.pins[alias])])
        } else {
            None
        }
    }

    /// The registry once a template is added and its alias pinned to it.
    pub open spec fn pinned(self, template: Template) -> Catalog {
        Catalog {
            pins: self.pins.insert(template.name, template.version),
            templates: self.templates.insert((template.name, template.version), template),
            ..self
        }
    }

    /// The registry without an alias and the template that it stands for.
    pub open spec fn unpinned(self, alias: Seq<char>) -> Catalog {
        Catalog {
            pins: self.pins.remove(alias),
            templates: self.templates.remove((alias, self.pins[alias])),
            ..self
        }
    }

    /// The registry once a template takes the place of what its alias stood for.
    pub open spec fn replaced(self, template: Template) -> Catalog {
        let next = self.pinned(template);
        match self.current(template.name) {
            Some(before) if before.version != template.version => Catalog {
                templates: next.templates.remove((before.name, before.version)),
                ..next
            },
            _ => next,
        }
    }

    /// Whether a template that is still there uses a file.
    pub open spec fn uses(self, file: Seq<char>) -> bool {
        exists|k: (Seq<char>, Seq<char>)| #[trigger]
            self.templates.contains_key(k) && among(self.templates[k].files(), file)
    }

    /// Whether a file of a template that is gone may go too: no other template uses it,
    /// it is no kernel that is managed on its own, and it is not a file of a published
    /// image of another alias.
    pub open spec fn may_go(
        self,
        gone: Template,
        managed: Seq<Seq<char>>,
        published: Seq<Wanted>,
        file: Seq<char>,
    ) -> bool {
        &&& !self.uses(file)
        &&& !among(managed, file)
        &&& owner(published, file) is Some ==> owner(published, file) == Some(gone.name)
    }

    /// The files of a template that is gone and that may go too, below the root.
    pub open spec fn orphans(
        self,
        gone: Template,
        managed: Seq<Seq<char>>,
        published: Seq<Wanted>,
    ) -> Seq<Seq<char>> {
        gone.files().filter(|f: Seq<char>| self.may_go(gone, managed, published, f)).map_values(
            |f: Seq<char>| path::join(self.root, f),
        )
    }

    /// The registry once a list of templates has been added, or the first problem: a
    /// file, a version that is there already, an alias that is there already.
    pub open spec fn extended(self, specs: Seq<Wanted>, disk: Disk) -> Result<Catalog, Problem>
        decreases specs.len(),
    {
        if specs.len() == 0 {
            Ok(self)
        } else {
            match disk.template(specs[0], None) {
                Err(problem) => Err(problem),
                Ok(t) => if self.templates.contains_key((t.name, t.version)) {
                    Err(Problem::DuplicateVersion(t.name, t.version))
                } else if self.pins.contains_key(t.name) {
                    Err(Problem::DuplicateAlias(t.name))
                } else {
                    self.pinned(t).extended(specs.skip(1), disk)
                },
            }
        }
    }

    /// The registry once templates have been added by what came of pinning their files, or the
    /// first problem.
    pub open spec fn extended_by(self, built: Seq<Result<Template, Problem>>) -> Result<
        Catalog,
        Problem,
    >
        decreases built.len(),
    {
        if built.len() == 0 {
            Ok(self)
        } else {
            match self.extended_by(built.drop_last()) {
                Err(problem) => Err(problem),
                Ok(catalog) => match built.last() {
                    Err(problem) => Err(problem),
                    Ok(t) => if catalog.templates.contains_key((t.name, t.version)) {
                        Err(Problem::DuplicateVersion(t.name, t.version))
                    } else if catalog.pins.contains_key(t.name) {
                        Err(Problem::DuplicateAlias(t.name))
                    } else {
                        Ok(catalog.pinned(t))
                    },
                },
            }
        }
    }

    /// The registry once registrations have been taken up, by what came of each: nothing where
    /// its files are missing.
    pub open spec fn taken_up(self, tried: Seq<Option<Result<Template, Problem>>>) -> Catalog
        decreases tried.len(),
    {
        if tried.len() == 0 {
            self
        } else {
            match tried.last() {
                Some(Ok(t)) => self.taken_up(tried.drop_last()).pinned(t),
                _ => self.taken_up(tried.drop_last()),
            }
        }
    }

    /// The registry once the registrations have been taken up again: those whose files
    /// are missing or not usable are passed over.
    pub open spec fn restored(
        self,
        specs: Seq<Wanted>,
        files: spec_fn(Seq<char>) -> bool,
        disk: Disk,
        host: Architecture,
    ) -> Catalog
        decreases specs.len(),
    {
        if specs.len() == 0 {
            self
        } else {
            let before = self.restored(specs.drop_last(), files, disk, host);
            if !present(self.root, specs.last(), files) {
                before
            } else {
                match disk.template(specs.last(), Some(host)) {
                    Ok(t) => before.pinned(t),
                    Err(_) => before,
                }
            }
        }
    }
}

/// A registry without templates.
pub open spec fn empty_catalog(root: Seq<char>) -> Catalog {
    Catalog { root, pins: Map::empty(), templates: Map::empty(), memory: Map::empty() }
}

/// Whether `built` is what came of pinning the files of some templates, up to the last that
/// was looked at.
pub open spec fn builds_all<
    S: Fn(&str) -> Result<FileStat, String>,
    B: Fn(&str) -> Result<Vec<u8>, String>,
>(stat: S, read: B, specs: Seq<Wanted>, built: Seq<Result<Template, Problem>>) -> bool {
    &&& built.len() <= specs.len()
    &&& forall|i: int|
        0 <= i < built.len() ==> builds(stat, read, specs[i], None, #[trigger] built[i])
}

/// Whether `tried` is what came of taking up some registrations.
pub open spec fn takes_up<
    F: Fn(&str) -> bool,
    S: Fn(&str) -> Result<FileStat, String>,
    B: Fn(&str) -> Result<Vec<u8>, String>,
>(
    is_file: F,
    stat: S,
    read: B,
    root: Seq<char>,
    specs: Seq<Wanted>,
    host: Architecture,
    tried: Seq<Option<Result<Template, Problem>>>,
) -> bool {
    &&& tried.len() == specs.len()
    &&& forall|i: int|
        0 <= i < tried.len() ==> match #[trigger] tried[i] {
            None => sought(is_file, root, specs[i], false),
            Some(built) => sought(is_file, root, specs[i], true) && builds(
                stat,
                read,
                specs[i],
                Some(host),
                built,
            ),
        }
}

/// Those of some templates whose files are there.
pub open spec fn chosen(specs: Seq<Wanted>, there: Seq<bool>) -> Seq<Wanted>
    decreases specs.len(),
{
    if specs.len() == 0 {
        Seq::empty()
    } else if there[specs.len() - 1] {
        chosen(specs.drop_last(), there).push(specs.last())
    } else {
        chosen(specs.drop_last(), there)
    }
}

/// Whether loading a registry came to `r`, by the answers that were given.
pub open spec fn loads<
    F: Fn(&str) -> bool,
    S: Fn(&str) -> Result<FileStat, String>,
    B: Fn(&str) -> Result<Vec<u8>, String>,
>(
    is_file: F,
    stat: S,
    read: B,
    root: Seq<char>,
    published: Seq<Wanted>,
    entries: Seq<Wanted>,
    host: Architecture,
    r: Result<Catalog, Problem>,
) -> bool {
    exists|there: Seq<bool>|
        #![trigger chosen(published, there)]
        there.len() == published.len() && (forall|i: int|
            0 <= i < there.len() ==> sought(is_file, root, published[i], #[trigger] there[i]))
            && exists|built: Seq<Result<Template, Problem>>| #[trigger]
            builds_all(stat, read, chosen(published, there), built) && match empty_catalog(
                root,
            ).extended_by(built) {
                Err(problem) => r == Err::<Catalog, Problem>(problem),
                Ok(first) => built.len() == chosen(published, there).len() && exists|
                    tried: Seq<Option<Result<Template, Problem>>>,
                | #[trigger]
                    takes_up(is_file, stat, read, root, entries, host, tried) && r == Ok::<
                        Catalog,
                        Problem,
                    >(first.taken_up(tried)),
            }
}

/// Whether every file of a template is below the root.
pub open spec fn present(
    root: Seq<char>,
    wanted: Wanted,
    files: spec_fn(Seq<char>) -> bool,
) -> bool {
    &&& files(path::join(root, wanted.kernel))
    &&& files(path::join(root, wanted.rootfs))
    &&& wanted.initrd is Some ==> files(path::join(root, wanted.initrd->0))
}

/// The templates by alias, each with its versions, and the digests that were computed.
#[derive(Debug)]
pub struct TemplateRegistry {
    image_root_path: String,
    aliases: Table<String, String>,
    versions: Table<(String, String), TemplateVersion>,
    verify_cache: Vec<CachedHash>,
}

spec fn find_hash(entries: Seq<CachedHash>, key: (u64, u64)) -> Option<Remembered>
    decreases entries.len(),
{
    if entries.len() == 0 {
        None
    } else if (entries[0].device, entries[0].inode) == key {
        Some(
            Remembered {
                length: entries[0].length,
                mtime: entries[0].mtime,
                mtime_nsec: entries[0].mtime_nsec,
                sha256: entries[0].sha256@,
            },
        )
    } else {
        find_hash(entries.skip(1), key)
    }
}

spec fn all_hashes(entries: Seq<CachedHash>) -> Map<(u64, u64), Remembered> {
    Map::new(
        |k: (u64, u64)| find_hash(entries, k) is Some,
        |k: (u64, u64)| find_hash(entries, k)->0,
    )
}

spec fn all_pins(aliases: Map<Seq<Seq<char>>, String>) -> Map<Seq<char>, Seq<char>> {
    Map::new(|a: Seq<char>| aliases.contains_key(seq![a]), |a: Seq<char>| aliases[seq![a]]@)
}

spec fn all_templates(versions: Map<Seq<Seq<char>>, TemplateVersion>) -> Map<
    (Seq<char>, Seq<char>),
    Template,
> {
    Map::new(
        |k: (Seq<char>, Seq<char>)| versions.contains_key(seq![k.0, k.1]),
        |k: (Seq<char>, Seq<char>)| versions[seq![k.0, k.1]]@,
    )
}

proof fn pins_change(aliases: Map<Seq<Seq<char>>, String>, alias: Seq<char>, version: String)
    ensures
        all_pins(aliases.insert(seq![alias], version)) == all_pins(aliases).insert(alias, version@),
        all_pins(aliases.remove(seq![alias])) == all_pins(aliases).remove(alias),
{
    assert forall|a: Seq<char>| #[trigger] seq![a] == seq![alias] implies a == alias by {
        assert(seq![a][0] == seq![alias][0]);
    }
    assert(all_pins(aliases.insert(seq![alias], version)) =~= all_pins(aliases).insert(
        alias,
        version@,
    ));
    assert(all_pins(aliases.remove(seq![alias])) =~= all_pins(aliases).remove(alias));
}

proof fn templates_change(
    versions: Map<Seq<Seq<char>>, TemplateVersion>,
    name: Seq<char>,
    version: Seq<char>,
    template: TemplateVersion,
)
    ensures
        all_templates(versions.insert(seq![name, version], template)) == all_templates(
            versions,
        ).insert((name, version), template@),
        all_templates(versions.remove(seq![name, version])) == all_templates(versions).remove(
            (name, version),
        ),
{
    assert forall|a: Seq<char>, b: Seq<char>| #[trigger]
        seq![a, b] == seq![name, version] implies a == name && b == version by {
        assert(seq![a, b][0] == seq![name, version][0]);
        assert(seq![a, b][1] == seq![name, version][1]);
    }
    assert(all_templates(versions.insert(seq![name, version], template)) =~= all_templates(
        versions,
    ).insert((name, version), template@));
    assert(all_templates(versions.remove(seq![name, version])) =~= all_templates(versions).remove(
        (name, version),
    ));
}

impl View for TemplateRegistry {
    type V = Catalog;

    closed spec fn view(&self) -> Catalog {
        Catalog {
            root: self.image_root_path@,
            pins: all_pins(self.aliases@),
            templates: all_templates(self.versions@),
            memory: all_hashes(self.verify_cache@),
        }
    }
}

impl TemplateRegistry {
    /// Whether no key stands twice in a table.
    pub closed spec fn tables_wf(self) -> bool {
        self.aliases.wf() && self.versions.wf()
    }

    /// What every registry keeps.
    pub open spec fn wf(self) -> bool {
        self.tables_wf() && self@.consistent()
    }

    fn empty(image_root: &str) -> (r: Self)
        ensures
            r.wf(),
            r@ == (Catalog {
                root: image_root@,
                pins: Map::empty(),
                templates: Map::empty(),
                memory: Map::empty(),
            }),
    {
        let r = TemplateRegistry {
            image_root_path: image_root.to_owned(),
            aliases: Table::new(),
            versions: Table::new(),
            verify_cache: Vec::new(),
        };
        assert(r@.pins =~= Map::empty());
        assert(r@.templates =~= Map::empty());
        assert(r@.memory =~= Map::empty());
        r
    }

    fn pin(&mut self, template: TemplateVersion)
        requires
            old(self).wf(),
        ensures
            final(self).wf(),
            final(self)@ == old(self)@.pinned(template@),
    {
        proof {
            pins_change(self.aliases@, template.name@, template.version);
            templates_change(self.versions@, template.name@, template.version@, template);
        }
        let ghost given = template@;
        let alias = template.name.clone();
        let version = template.version.clone();
        proof {
            pins_change(self.aliases@, alias@, version);
        }
        self.aliases.insert(alias, version);
        let key = (template.name.clone(), template.version.clone());
        self.versions.insert(key, template);
        proof {
            a_registered_template_is_current(old(self)@, given);
        }
    }

    /// A registry of the given templates, whose files are pinned as they are now. An alias
    /// stands there once.
    pub fn from_specs<
        S: Fn(&str) -> Result<FileStat, String>,
        B: Fn(&str) -> Result<Vec<u8>, String>,
    >(image_root: &str, specs: &[TemplateSpec], stat: &S, read: &B) -> (r: Result<
        Self,
        TemplateError,
    >)
        requires
            usable(*stat, *read),
        ensures
            exists|built: Seq<Result<Template, Problem>>| #[trigger]
                builds_all(*stat, *read, all_wanted(specs@), built) && empty_catalog(
                    image_root@,
                ).extended_by(built) == loaded_as(r) && (r is Ok ==> built.len() == specs@.len()),
            forall|disk: Disk| #[trigger]
                shows(*stat, *read, disk) ==> (Catalog {
                    root: image_root@,
                    pins: Map::empty(),
                    templates: Map::empty(),
                    memory: Map::empty(),
                }).extended(all_wanted(specs@), disk) == match r {
                    Ok(registry) => Ok::<Catalog, Problem>(registry@),
                    Err(e) => Err(e@),
                },
            r is Ok ==> r->Ok_0.wf(),
    {
        let mut registry = TemplateRegistry::empty(image_root);
        let ghost start = registry@;
        let ghost all = all_wanted(specs@);
        let ghost mut built: Seq<Result<Template, Problem>> = Seq::empty();
        let mut i: usize = 0;
        assert(all.skip(0) =~= all);
        while i < specs.len()
            invariant
                i <= specs@.len(),
                all == all_wanted(specs@),
                registry.wf(),
                built.len() == i,
                builds_all(*stat, *read, all, built),
                start == empty_catalog(image_root@),
                start.extended_by(built) == Ok::<Catalog, Problem>(registry@),
                usable(*stat, *read),
                start == (Catalog {
                    root: image_root@,
                    pins: Map::empty(),
                    templates: Map::empty(),
                    memory: Map::empty(),
                }),
                forall|disk: Disk| #[trigger]
                    shows(*stat, *read, disk) ==> start.extended(all, disk)
                        == registry@.extended(all.skip(i as int), disk),
            decreases specs@.len() - i,
        {
            assert(all.skip(i as int)[0] == specs@[i as int]@);
            assert(all.skip(i as int).skip(1) =~= all.skip(i + 1));
            let answer = build_version(&specs[i], None, stat, read);
            proof {
                let before = built;
                built = built.push(built_as(answer));
                assert(built.drop_last() =~= before);
                assert(all[i as int] == specs@[i as int]@);
                assert forall|j: int| 0 <= j < built.len() implies builds(
                    *stat,
                    *read,
                    all[j],
                    None,
                    #[trigger] built[j],
                ) by {
                    if j < before.len() {
                        assert(built[j] == before[j]);
                    }
                }
                assert(builds_all(*stat, *read, all_wanted(specs@), built));
            }
            match answer {
                Err(e) => return Err(e),
                Ok(template) => {
                    if registry.resolve_version(&template.name, &template.version).is_some() {
                        return Err(
                            TemplateError::DuplicateVersion(template.name, template.version),
                        );
                    }
                    if registry.resolve_alias(&template.name).is_some() {
                        return Err(TemplateError::DuplicateAlias(template.name));
                    }
                    registry.pin(template);
                },
            }
            i += 1;
        }
        assert(all.skip(i as int).len() == 0);
        Ok(registry)
    }

    /// The host's path of a pinned file.
    pub fn artifact_path(&self, artifact: &VerifiedArtifact) -> (r: String)
        ensures
            r@ == path::join(self@.root, artifact@.path),
    {
        path::joined(&self.image_root_path, artifact.relative_path())
    }

    /// The image root.
    pub fn image_root_path(&self) -> (r: &str)
        ensures
            r@ == self@.root,
    {
        &self.image_root_path
    }

    /// The host's path of the file that keeps the registrations.
    pub fn registrations_path(&self) -> (r: String)
        ensures
            r@ == path::join(self@.root, REGISTRATIONS_FILE@),
    {
        path::joined(&self.image_root_path, REGISTRATIONS_FILE)
    }

    /// The templates that the project publishes, installed or not.
    pub fn known_specs(manifest: &ImageManifest, architecture: &str) -> (r: Vec<TemplateSpec>)
        requires
            manifest.covers(architecture@),
        ensures
            all_wanted(r@) == manifest.wanted(architecture@),
    {
        default_specs_for_arch(manifest, architecture)
    }

    /// The first published template of an alias.
    pub fn known_spec(manifest: &ImageManifest, architecture: &str, alias: &str) -> (r: Option<
        TemplateSpec,
    >)
        requires
            manifest.covers(architecture@),
        ensures
            match r {
                Some(spec) => exists|i: int|
                    0 <= i < manifest.images@.len() && manifest.images@[i].alias@ == alias@
                        && spec@ == (#[trigger] manifest.images@[i]).wanted(architecture@)
                        && forall|j: int|
                        0 <= j < i ==> (#[trigger] manifest.images@[j]).alias@ != alias@,
                None => forall|j: int|
                    0 <= j < manifest.images@.len() ==> (#[trigger] manifest.images@[j]).alias@
                        != alias@,
            },
    {
        let all = default_specs_for_arch(manifest, architecture);
        assert(all_wanted(all@).len() == all@.len());
        let mut i: usize = 0;
        while i < all.len()
            invariant
                i <= all@.len(),
                all@.len() == manifest.images@.len(),
                all_wanted(all@) == manifest.wanted(architecture@),
                forall|j: int| 0 <= j < i ==> (#[trigger] manifest.images@[j]).alias@ != alias@,
            decreases all@.len() - i,
        {
            assert(all_wanted(all@)[i as int] == all@[i as int]@);
            assert(manifest.wanted(architecture@)[i as int] == manifest.images@[i as int].wanted(
                architecture@,
            ));
            if same(&all[i].alias, alias) {
                return Some(all[i].copy());
            }
            i += 1;
        }
        None
    }

    /// The template that an alias stands for.
    pub fn resolve_alias(&self, alias: &str) -> (r: Option<&TemplateVersion>)
        requires
            self.wf(),
        ensures
            match r {
                Some(template) => self@.current(alias@) == Some(template@),
                None => self@.current(alias@) is None,
            },
    {
        let key = alias.to_owned();
        assert(key.id() == seq![alias@]);
        assert(self@.pins.contains_key(alias@) == self.aliases@.contains_key(seq![alias@]));
        match self.aliases.get(&key) {
            None => None,
            Some(version) => {
                assert(self@.pins[alias@] == version@);
                assert(self@.templates.contains_key((alias@, self@.pins[alias@])));
                self.resolve_version(alias, version)
            },
        }
    }

    /// The template of an alias and a version.
    pub fn resolve_version(&self, name: &str, version: &str) -> (r: Option<&TemplateVersion>)
        ensures
            match r {
                Some(template) => self@.templates.contains_key((name@, version@))
                    && self@.templates[(name@, version@)] == template@,
                None => !self@.templates.contains_key((name@, version@)),
            },
    {
        let key = (name.to_owned(), version.to_owned());
        assert(key.id() == seq![name@, version@]);
        self.versions.get(&key)
    }
}

/// A registered template is what its alias stands for, other aliases stand for what they
/// did, and every other version stays.
pub proof fn a_registered_template_is_current(catalog: Catalog, template: Template)
    requires
        catalog.consistent(),
    ensures
        catalog.pinned(template).consistent(),
        catalog.pinned(template).current(template.name) == Some(template),
        forall|a: Seq<char>|
            a != template.name ==> #[trigger] catalog.pinned(template).current(a)
                == catalog.current(a),
        forall|k: (Seq<char>, Seq<char>)|
            k != (template.name, template.version) && #[trigger] catalog.templates.contains_key(k)
                ==> catalog.pinned(template).templates.contains_key(k) && catalog.pinned(
                template,
            ).templates[k] == catalog.templates[k],
{
}

/// Whether templates stand in the order of their names, each name once.
pub open spec fn in_order(all: Seq<&TemplateVersion>) -> bool {
    forall|i: int, j: int|
        #![trigger all[i], all[j]]
        0 <= i < j < all.len() ==> less(all[i].name@, all[j].name@)
}

/// Whether a template of that name is among some.
pub open spec fn listed(all: Seq<&TemplateVersion>, name: Seq<char>) -> bool {
    exists|i: int| 0 <= i < all.len() && (#[trigger] all[i]).name@ == name
}

fn place<'a>(all: &mut Vec<&'a TemplateVersion>, template: &'a TemplateVersion)
    requires
        in_order(old(all)@),
        !listed(old(all)@, template.name@),
    ensures
        in_order(final(all)@),
        forall|n: Seq<char>| #[trigger]
            listed(final(all)@, n) == (listed(old(all)@, n) || n == template.name@),
        forall|i: int|
            0 <= i < final(all)@.len() ==> old(all)@.contains(#[trigger] final(all)@[i])
                || final(all)@[i] == template,
{
    let ghost before = all@;
    let mut at: usize = 0;
    while at < all.len() && precedes(&all[at].name, &template.name)
        invariant
            at <= all@.len(),
            all@ == before,
            forall|j: int| 0 <= j < at ==> less((#[trigger] all@[j]).name@, template.name@),
        decreases all@.len() - at,
    {
        at += 1;
    }
    all.insert(at, template);
    let ghost after = all@;
    proof {
        assert(after == before.insert(at as int, template));
        if at < before.len() {
            assert(before[at as int].name@ != template.name@);
            less_is_total(before[at as int].name@, template.name@);
        }
        assert forall|i: int, j: int|
            #![trigger after[i], after[j]]
            0 <= i < j < after.len() implies less(after[i].name@, after[j].name@) by {
            if i < at && j == at {
                assert(after[i] == before[i]);
            } else if i == at && j > at {
                assert(after[j] == before[j - 1]);
                if j - 1 > at {
                    assert(less(before[at as int].name@, before[j - 1].name@));
                    less_is_transitive(
                        template.name@,
                        before[at as int].name@,
                        before[j - 1].name@,
                    );
                }
            } else if i < at && j > at {
                assert(after[i] == before[i] && after[j] == before[j - 1]);
            } else if i > at {
                assert(after[i] == before[i - 1] && after[j] == before[j - 1]);
            } else {
                assert(after[i] == before[i] && after[j] == before[j]);
            }
        }
        assert forall|n: Seq<char>| #[trigger] listed(after, n) == (listed(before, n) || n
            == template.name@) by {
            if listed(before, n) {
                let i = choose|i: int| 0 <= i < before.len() && (#[trigger] before[i]).name@ == n;
                if i < at {
                    assert(after[i] == before[i]);
                } else {
                    assert(after[i + 1] == before[i]);
                }
            }
            if n == template.name@ {
                assert(after[at as int] == template);
            }
            if listed(after, n) {
                let i = choose|i: int| 0 <= i < after.len() && (#[trigger] after[i]).name@ == n;
                if i < at {
                    assert(after[i] == before[i]);
                } else if i > at {
                    assert(after[i] == before[i - 1]);
                }
            }
        }
        assert forall|i: int| 0 <= i < after.len() implies before.contains(#[trigger] after[i])
            || after[i] == template by {
            if i < at {
                assert(after[i] == before[i]);
            } else if i > at {
                assert(after[i] == before[i - 1]);
            }
        }
    }
}

impl TemplateRegistry {
    /// The templates that the aliases stand for, in the order of the aliases.
    pub fn list_aliases(&self) -> (r: Vec<&TemplateVersion>)
        requires
            self.wf(),
        ensures
            in_order(r@),
            forall|a: Seq<char>| #[trigger] self@.pins.contains_key(a) == listed(r@, a),
            forall|i: int|
                0 <= i < r@.len() ==> self@.current((#[trigger] r@[i]).name@) == Some(r@[i]@),
    {
        let mut out: Vec<&TemplateVersion> = Vec::new();
        let mut i: usize = 0;
        proof {
            self.aliases.positions();
        }
        while i < self.aliases.len()
            invariant
                self.wf(),
                i <= self.aliases.size(),
                in_order(out@),
                forall|j: int|
                    0 <= j < i ==> listed(out@, (#[trigger] self.aliases.nth(j)).0@),
                forall|n: Seq<char>| #[trigger]
                    listed(out@, n) ==> exists|j: int|
                        0 <= j < i && (#[trigger] self.aliases.nth(j)).0@ == n,
                forall|k: int|
                    0 <= k < out@.len() ==> self@.current((#[trigger] out@[k]).name@) == Some(
                        out@[k]@,
                    ),
            decreases self.aliases.size() - i,
        {
            proof {
                self.aliases.positions();
            }
            let (alias, version) = self.aliases.at(i);
            assert(self.aliases.nth(i as int) == (*alias, *version));
            assert(alias.id() == seq![alias@]);
            assert(self.aliases@.contains_key(seq![alias@]));
            assert(self@.pins.contains_key(alias@) && self@.pins[alias@] == version@);
            let ghost before = out@;
            if let Some(template) = self.resolve_version(alias, version) {
                assert(template.name@ == alias@);
                assert(!listed(out@, alias@)) by {
                    if listed(out@, alias@) {
                        let j = choose|j: int|
                            0 <= j < i && (#[trigger] self.aliases.nth(j)).0@ == alias@;
                        assert(self.aliases.nth(j).0.id() == self.aliases.nth(i as int).0.id());
                    }
                }
                place(&mut out, template);
                assert(listed(out@, alias@));
                assert forall|n: Seq<char>| #[trigger] listed(out@, n) implies exists|j: int|
                    0 <= j < i + 1 && (#[trigger] self.aliases.nth(j)).0@ == n by {
                    if listed(before, n) {
                        let j = choose|j: int|
                            0 <= j < i && (#[trigger] self.aliases.nth(j)).0@ == n;
                        assert(self.aliases.nth(j).0@ == n);
                    } else {
                        assert(self.aliases.nth(i as int).0@ == n);
                    }
                }
                assert forall|k: int| 0 <= k < out@.len() implies self@.current(
                    (#[trigger] out@[k]).name@,
                ) == Some(out@[k]@) by {
                    if before.contains(out@[k]) {
                        let m = choose|m: int| 0 <= m < before.len() && before[m] == out@[k];
                        assert(before[m] == out@[k]);
                    }
                }
            }
            i += 1;
        }
        proof {
            self.aliases.positions();
            assert forall|a: Seq<char>| #[trigger] self@.pins.contains_key(a) == listed(
                out@,
                a,
            ) by {
                if self@.pins.contains_key(a) {
                    assert(self.aliases@.contains_key(seq![a]));
                    let j = choose|j: int|
                        0 <= j < self.aliases.size() && (#[trigger] self.aliases.nth(j)).0.id()
                            == seq![a];
                    assert(self.aliases.nth(j).0.id()[0] == seq![a][0]);
                    assert(listed(out@, self.aliases.nth(j).0@));
                }
                if listed(out@, a) {
                    let j = choose|j: int|
                        0 <= j < i && (#[trigger] self.aliases.nth(j)).0@ == a;
                    assert(self.aliases@.contains_key(self.aliases.nth(j).0.id()));
                    assert(self.aliases.nth(j).0.id() =~= seq![a]);
                }
            }
        }
        out
    }

    fn in_use(&self, file: &str) -> (r: bool)
        requires
            self.wf(),
        ensures
            r == self@.uses(file@),
    {
        let mut i: usize = 0;
        proof {
            self.versions.positions();
        }
        while i < self.versions.len()
            invariant
                self.wf(),
                i <= self.versions.size(),
                forall|j: int|
                    0 <= j < i ==> !among((#[trigger] self.versions.nth(j)).1@.files(), file@),
            decreases self.versions.size() - i,
        {
            proof {
                self.versions.positions();
            }
            let (key, template) = self.versions.at(i);
            assert(self.versions.nth(i as int) == (*key, *template));
            let ghost files = template@.files();
            let mut used = path::same_path(template.kernel.relative_path(), file)
                || path::same_path(template.rootfs.relative_path(), file);
            assert(files[0] == template.kernel@.path && files[1] == template.rootfs@.path);
            if let Some(initrd) = &template.initrd {
                used = used || path::same_path(initrd.relative_path(), file);
                assert(files[2] == initrd@.path);
            }
            assert(used == among(files, file@));
            if used {
                assert(self@.templates.contains_key((key.0@, key.1@)));
                assert(self@.templates[(key.0@, key.1@)] == template@);
                return true;
            }
            i += 1;
        }
        proof {
            self.versions.positions();
            assert(!self@.uses(file@)) by {
                if self@.uses(file@) {
                    let k = choose|k: (Seq<char>, Seq<char>)| #[trigger]
                        self@.templates.contains_key(k) && among(
                            self@.templates[k].files(),
                            file@,
                        );
                    assert(self.versions@.contains_key(seq![k.0, k.1]));
                    let j = choose|j: int|
                        0 <= j < self.versions.size() && (#[trigger] self.versions.nth(j)).0.id()
                            == seq![k.0, k.1];
                    assert(!among(self.versions.nth(j).1@.files(), file@));
                }
            }
        }
        false
    }

    fn may_go(
        &self,
        gone: &TemplateVersion,
        managed: &[String],
        published: &[TemplateSpec],
        file: &str,
    ) -> (r: bool)
        requires
            self.wf(),
        ensures
            r == self@.may_go(gone@, views(managed@), all_wanted(published@), file@),
    {
        if self.in_use(file) {
            return false;
        }
        let mut i: usize = 0;
        while i < managed.len()
            invariant
                i <= managed@.len(),
                forall|j: int| 0 <= j < i ==> !same_place(#[trigger] views(managed@)[j], file@),
            decreases managed@.len() - i,
        {
            if path::same_path(&managed[i], file) {
                assert(same_place(views(managed@)[i as int], file@));
                return false;
            }
            i += 1;
        }
        match catalog_owner_of(published, file) {
            Some(owner) => same(&owner, &gone.name),
            None => true,
        }
    }

    /// The files of a template that is gone and that may go too.
    fn orphan_paths(
        &self,
        removed: &TemplateVersion,
        managed: &[String],
        published: &[TemplateSpec],
    ) -> (r: Vec<String>)
        requires
            self.wf(),
        ensures
            views(r@) == self@.orphans(removed@, views(managed@), all_wanted(published@)),
    {
        let mut files: Vec<&str> = Vec::new();
        files.push(removed.kernel.relative_path());
        files.push(removed.rootfs.relative_path());
        if let Some(initrd) = &removed.initrd {
            files.push(initrd.relative_path());
        }
        let ghost all = removed@.files();
        assert(crate::text::texts(files@) =~= all);
        let ghost gone = removed@;
        let ghost keep = |f: Seq<char>|
            self@.may_go(gone, views(managed@), all_wanted(published@), f);
        let ghost place = |f: Seq<char>| path::join(self@.root, f);
        let mut out: Vec<String> = Vec::new();
        let mut i: usize = 0;
        proof {
            reveal(Seq::filter);
        }
        assert(all.take(0).filter(keep).map_values(place) =~= Seq::<Seq<char>>::empty());
        assert(views(out@) =~= Seq::<Seq<char>>::empty());
        while i < files.len()
            invariant
                self.wf(),
                i <= files@.len(),
                crate::text::texts(files@) == all,
                gone == removed@,
                keep == (|f: Seq<char>|
                    self@.may_go(gone, views(managed@), all_wanted(published@), f)),
                place == (|f: Seq<char>| path::join(self@.root, f)),
                views(out@) == all.take(i as int).filter(keep).map_values(place),
            decreases files@.len() - i,
        {
            let ghost before = views(out@);
            let file = files[i];
            assert(all[i as int] == file@);
            assert(all.take(i + 1).drop_last() =~= all.take(i as int));
            assert(all.take(i + 1).last() == file@);
            proof {
                reveal(Seq::filter);
            }
            let ghost kept = all.take(i as int).filter(keep);
            if self.may_go(removed, managed, published, file) {
                out.push(path::joined(&self.image_root_path, file));
                assert(kept.push(file@).map_values(place) =~= kept.map_values(place).push(
                    place(file@),
                ));
                assert(views(out@) =~= before.push(place(file@)));
            }
            i += 1;
        }
        assert(all.take(i as int) =~= all);
        assert(keep =~= |f: Seq<char>|
            self@.may_go(removed@, views(managed@), all_wanted(published@), f));
        out
    }

    /// Takes an alias and its template out of the registry. Gives the template, its files
    /// that may go too, and the registrations to keep where they change. Nothing on disk is
    /// touched.
    pub fn unregister_alias(
        &mut self,
        alias: &str,
        managed: &[String],
        published: &[TemplateSpec],
        entries: &[TemplateSpec],
    ) -> (r: Option<(TemplateVersion, Vec<String>, Option<Vec<TemplateSpec>>)>)
        requires
            old(self).wf(),
        ensures
            final(self).wf(),
            match r {
                None => old(self)@.current(alias@) is None && final(self)@ == old(self)@,
                Some((template, paths, kept)) => {
                    &&& old(self)@.current(alias@) == Some(template@)
                    &&& final(self)@ == old(self)@.unpinned(alias@)
                    &&& views(paths@) == final(self)@.orphans(
                        template@,
                        views(managed@),
                        all_wanted(published@),
                    )
                    &&& match kept {
                        Some(kept) => all_wanted(kept@) == without(all_wanted(entries@), alias@)
                            && all_wanted(kept@) != all_wanted(entries@),
                        None => without(all_wanted(entries@), alias@) == all_wanted(entries@),
                    }
                },
            },
    {
        let key = alias.to_owned();
        assert(key.id() == seq![alias@]);
        assert(self@.pins.contains_key(alias@) == self.aliases@.contains_key(seq![alias@]));
        if !self.aliases.has(&key) {
            return None;
        }
        let ghost start = *self;
        proof {
            pins_change(self.aliases@, alias@, key);
            assert(self@.templates.contains_key((alias@, self@.pins[alias@])));
        }
        match self.aliases.remove(&key) {
            None => None,
            Some(version) => {
                assert(version@ == start@.pins[alias@]);
                let at = (key, version);
                assert(at.id() == seq![alias@, version@]);
                proof {
                    templates_change(
                        start.versions@,
                        alias@,
                        version@,
                        start.versions@[seq![alias@, version@]],
                    );
                }
                match self.versions.remove(&at) {
                    None => {
                        assert(false);
                        None
                    },
                    Some(removed) => {
                        assert(self@ == start@.unpinned(alias@));
                        assert(self@.consistent()) by {
                            assert forall|a: Seq<char>| #[trigger]
                                self@.pins.contains_key(
                                    a,
                                ) implies self@.templates.contains_key((a, self@.pins[a])) by {
                                assert(start@.pins.contains_key(a));
                            }
                        }
                        let paths = self.orphan_paths(&removed, managed, published);
                        Some((removed, paths, forget_registration(entries, alias)))
                    },
                }
            },
        }
    }
}

/// Whether `write` can be handed every list.
pub open spec fn writable<W: Fn(&[TemplateSpec]) -> Result<(), String>>(write: W) -> bool {
    forall|given: &[TemplateSpec]| call_requires(write, (given,))
}

/// Whether `write` was handed `entries` and ended with `outcome`.
pub open spec fn wrote<W: Fn(&[TemplateSpec]) -> Result<(), String>>(
    write: W,
    entries: Seq<Wanted>,
    outcome: Result<(), String>,
) -> bool {
    exists|given: &[TemplateSpec]| #[trigger]
        call_ensures(write, (given,), outcome) && all_wanted(given@) == entries
}

impl TemplateRegistry {
    /// Pins the files of a template as they are now, and its alias to it. The registration
    /// is written first, through `write`: where that fails nothing changes, so no template
    /// is handed out that a restart would lose.
    pub fn register_spec<
        S: Fn(&str) -> Result<FileStat, String>,
        B: Fn(&str) -> Result<Vec<u8>, String>,
        W: Fn(&[TemplateSpec]) -> Result<(), String>,
    >(
        &mut self,
        spec: &TemplateSpec,
        host: Architecture,
        entries: &[TemplateSpec],
        stat: &S,
        read: &B,
        write: &W,
    ) -> (r: Result<TemplateVersion, TemplateError>)
        requires
            old(self).wf(),
            usable(*stat, *read),
            writable(*write),
        ensures
            final(self).wf(),
            r is Err ==> final(self)@ == old(self)@,
            r is Ok ==> final(self)@ == old(self)@.pinned(r->Ok_0@) && r->Ok_0@.name == spec@.alias
                && r->Ok_0@.version == spec@.version,
            exists|built: Result<Template, Problem>| #[trigger]
                builds(*stat, *read, spec@, Some(host), built) && match built {
                    Err(problem) => r is Err && r->Err_0@ == problem,
                    Ok(template) => exists|outcome: Result<(), String>| #[trigger]
                        wrote(*write, recorded(all_wanted(entries@), spec@), outcome) && match outcome {
                            Err(why) => r is Err && r->Err_0@ == Problem::Io(why@),
                            Ok(_) => r is Ok && r->Ok_0@ == template,
                        },
                },
            forall|disk: Disk| #[trigger]
                shows(*stat, *read, disk) ==> match disk.template(spec@, Some(host)) {
                    Err(problem) => r is Err && r->Err_0@ == problem,
                    Ok(template) => exists|outcome: Result<(), String>| #[trigger]
                        wrote(*write, recorded(all_wanted(entries@), spec@), outcome) && match outcome {
                            Err(why) => r is Err && r->Err_0@ == Problem::Io(why@),
                            Ok(_) => r is Ok && r->Ok_0@ == template,
                        },
                },
    {
        let built = build_version(spec, Some(host), stat, read);
        assert(builds(*stat, *read, spec@, Some(host), built_as(built)));
        let template = match built {
            Err(e) => return Err(e),
            Ok(template) => template,
        };
        let kept = record_registration(entries, spec);
        let outcome = write(&kept);
        assert(wrote(*write, recorded(all_wanted(entries@), spec@), outcome));
        match outcome {
            Err(why) => Err(TemplateError::Io(why)),
            Ok(_) => {
                self.pin(template.copy());
                Ok(template)
            },
        }
    }

    /// Puts a template in the place of what its alias stands for. Gives it with the files
    /// of the earlier one that may go. Where it fails the alias stands for what it did.
    pub fn replace_alias<
        S: Fn(&str) -> Result<FileStat, String>,
        B: Fn(&str) -> Result<Vec<u8>, String>,
        W: Fn(&[TemplateSpec]) -> Result<(), String>,
    >(
        &mut self,
        spec: &TemplateSpec,
        host: Architecture,
        managed: &[String],
        published: &[TemplateSpec],
        entries: &[TemplateSpec],
        stat: &S,
        read: &B,
        write: &W,
    ) -> (r: Result<(TemplateVersion, Vec<String>), TemplateError>)
        requires
            old(self).wf(),
            usable(*stat, *read),
            writable(*write),
        ensures
            final(self).wf(),
            match r {
                Err(_) => final(self)@ == old(self)@,
                Ok((template, paths)) => {
                    &&& template@.name == spec@.alias && template@.version == spec@.version
                    &&& final(self)@ == old(self)@.replaced(template@)
                    &&& views(paths@) == match old(self)@.current(template@.name) {
                        Some(before) if before.version != template@.version => final(self)@.orphans(
                            before,
                            views(managed@),
                            all_wanted(published@),
                        ),
                        _ => Seq::empty(),
                    }
                },
            },
            exists|built: Result<Template, Problem>| #[trigger]
                builds(*stat, *read, spec@, Some(host), built) && match built {
                    Err(problem) => r is Err && r->Err_0@ == problem,
                    Ok(template) => exists|outcome: Result<(), String>| #[trigger]
                        wrote(*write, recorded(all_wanted(entries@), spec@), outcome) && match outcome {
                            Err(why) => r is Err && r->Err_0@ == Problem::Io(why@),
                            Ok(_) => r is Ok && r->Ok_0.0@ == template,
                        },
                },
            forall|disk: Disk| #[trigger]
                shows(*stat, *read, disk) ==> match disk.template(spec@, Some(host)) {
                    Err(problem) => r is Err && r->Err_0@ == problem,
                    Ok(template) => exists|outcome: Result<(), String>| #[trigger]
                        wrote(*write, recorded(all_wanted(entries@), spec@), outcome) && match outcome {
                            Err(why) => r is Err && r->Err_0@ == Problem::Io(why@),
                            Ok(_) => r is Ok && r->Ok_0.0@ == template,
                        },
                },
    {
        let ghost start = *self;
        let before: Option<String> = match self.resolve_alias(&spec.alias) {
            Some(template) => Some(template.version.clone()),
            None => None,
        };
        let template = match self.register_spec(
            spec,
            host,
            entries,
            stat,
            read,
            write,
        ) {
            Err(e) => return Err(e),
            Ok(template) => template,
        };
        let ghost next = start@.pinned(template@);
        let mut paths: Vec<String> = Vec::new();
        if let Some(version) = before {
            if !same(&version, &template.version) {
                let at = (spec.alias.clone(), version);
                assert(at.id() == seq![spec.alias@, version@]);
                assert(start@.templates.contains_key((spec.alias@, version@)));
                assert(next.templates.contains_key((spec.alias@, version@)));
                proof {
                    templates_change(self.versions@, spec.alias@, version@, template);
                }
                let ghost earlier = self@.templates[(spec.alias@, version@)];
                if let Some(removed) = self.versions.remove(&at) {
                    assert(removed@ == earlier);
                    assert(self@ == start@.replaced(template@));
                    proof {
                        a_replaced_template_is_gone(start@, template@);
                    }
                    paths = self.orphan_paths(&removed, managed, published);
                }
            } else {
                assert(views(paths@) =~= Seq::empty());
            }
        } else {
            assert(views(paths@) =~= Seq::empty());
        }
        Ok((template, paths))
    }

    /// Takes up the registrations again. One whose files are missing or not usable is
    /// passed over, so that it cannot keep the others from being served.
    pub fn restore_registrations<
        F: Fn(&str) -> bool,
        S: Fn(&str) -> Result<FileStat, String>,
        B: Fn(&str) -> Result<Vec<u8>, String>,
    >(
        &mut self,
        entries: &[TemplateSpec],
        host: Architecture,
        is_file: &F,
        stat: &S,
        read: &B,
    )
        requires
            old(self).wf(),
            answers(*is_file),
            usable(*stat, *read),
        ensures
            final(self).wf(),
            exists|tried: Seq<Option<Result<Template, Problem>>>| #[trigger]
                takes_up(
                    *is_file,
                    *stat,
                    *read,
                    old(self)@.root,
                    all_wanted(entries@),
                    host,
                    tried,
                ) && final(self)@ == old(self)@.taken_up(tried),
            forall|files: spec_fn(Seq<char>) -> bool, disk: Disk|
                #[trigger] agrees(*is_file, files) && #[trigger] shows(*stat, *read, disk)
                    ==> final(self)@ == old(self)@.restored(
                    all_wanted(entries@),
                    files,
                    disk,
                    host,
                ),
    {
        let ghost all = all_wanted(entries@);
        let ghost start = self@;
        let ghost mut tried: Seq<Option<Result<Template, Problem>>> = Seq::empty();
        let mut i: usize = 0;
        assert(start.taken_up(tried) == start);
        while i < entries.len()
            invariant
                self.wf(),
                start == old(self)@,
                tried.len() == i,
                forall|j: int|
                    0 <= j < tried.len() ==> match #[trigger] tried[j] {
                        None => sought(*is_file, start.root, all[j], false),
                        Some(built) => sought(*is_file, start.root, all[j], true) && builds(
                            *stat,
                            *read,
                            all[j],
                            Some(host),
                            built,
                        ),
                    },
                self@ == start.taken_up(tried),
                i <= entries@.len(),
                all == all_wanted(entries@),
                answers(*is_file),
                usable(*stat, *read),
                self@.root == start.root,
                forall|files: spec_fn(Seq<char>) -> bool, disk: Disk|
                    #[trigger] agrees(*is_file, files) && #[trigger] shows(
                        *stat,
                        *read,
                        disk,
                    ) ==> self@ == start.restored(all.take(i as int), files, disk, host),
            decreases entries@.len() - i,
        {
            assert(all.take(i + 1).drop_last() =~= all.take(i as int));
            assert(all.take(i + 1).last() == entries@[i as int]@);
            let spec = &entries[i];
            let there = artifacts_present(&self.image_root_path, spec, is_file);
            assert forall|files: spec_fn(Seq<char>) -> bool| #[trigger]
                agrees(*is_file, files) implies there == present(start.root, spec@, files) by {}
            let ghost before = tried;
            if there {
                let answer = build_version(spec, Some(host), stat, read);
                proof {
                    tried = before.push(Some(built_as(answer)));
                }
                if let Ok(template) = answer {
                    self.pin(template);
                }
            } else {
                proof {
                    tried = before.push(None);
                }
            }
            assert(tried.drop_last() =~= before);
            assert(all[i as int] == spec@);
            assert forall|j: int| 0 <= j < tried.len() implies match #[trigger] tried[j] {
                None => sought(*is_file, start.root, all[j], false),
                Some(built) => sought(*is_file, start.root, all[j], true) && builds(
                    *stat,
                    *read,
                    all[j],
                    Some(host),
                    built,
                ),
            } by {
                if j < before.len() {
                    assert(tried[j] == before[j]);
                }
            }
            i += 1;
        }
        assert(all.take(i as int) =~= all);
        assert(takes_up(*is_file, *stat, *read, start.root, all, host, tried));
    }

    /// The registry as the service starts with it: the published templates whose files are
    /// all there, and what was registered at run time. A template whose files are missing
    /// is passed over; one that is there must be usable.
    pub fn load_from<
        F: Fn(&str) -> bool,
        S: Fn(&str) -> Result<FileStat, String>,
        B: Fn(&str) -> Result<Vec<u8>, String>,
    >(
        image_root: &str,
        published: &[TemplateSpec],
        entries: &[TemplateSpec],
        host: Architecture,
        is_file: &F,
        stat: &S,
        read: &B,
    ) -> (r: Result<Self, TemplateError>)
        requires
            answers(*is_file),
            usable(*stat, *read),
        ensures
            r is Ok ==> r->Ok_0.wf(),
            loads(
                *is_file,
                *stat,
                *read,
                image_root@,
                all_wanted(published@),
                all_wanted(entries@),
                host,
                loaded_as(r),
            ),
            forall|files: spec_fn(Seq<char>) -> bool, disk: Disk|
                #[trigger] agrees(*is_file, files) && #[trigger] shows(*stat, *read, disk)
                    ==> loaded(
                    image_root@,
                    all_wanted(published@),
                    all_wanted(entries@),
                    host,
                    files,
                    disk,
                ) == match r {
                    Ok(registry) => Ok::<Catalog, Problem>(registry@),
                    Err(e) => Err(e@),
                },
    {
        let ghost all = all_wanted(published@);
        let mut there: Vec<TemplateSpec> = Vec::new();
        let ghost mut seen: Seq<bool> = Seq::empty();
        let mut i: usize = 0;
        assert(all_wanted(there@) =~= Seq::<Wanted>::empty());
        assert forall|files: spec_fn(Seq<char>) -> bool| #[trigger]
            agrees(*is_file, files) implies all_wanted(there@) == all.take(0).filter(
            |w: Wanted| present(image_root@, w, files),
        ) by {
            reveal(Seq::filter);
        }
        while i < published.len()
            invariant
                i <= published@.len(),
                all == all_wanted(published@),
                answers(*is_file),
                seen.len() == i,
                forall|j: int|
                    0 <= j < seen.len() ==> sought(*is_file, image_root@, all[j], #[trigger] seen[j]),
                all_wanted(there@) == chosen(all.take(i as int), seen),
                forall|files: spec_fn(Seq<char>) -> bool| #[trigger]
                    agrees(*is_file, files) ==> all_wanted(there@) == all.take(i as int).filter(
                        |w: Wanted| present(image_root@, w, files),
                    ),
            decreases published@.len() - i,
        {
            let ghost before = all_wanted(there@);
            assert(all.take(i + 1).drop_last() =~= all.take(i as int));
            assert(all.take(i + 1).last() == published@[i as int]@);
            proof {
                reveal(Seq::filter);
            }
            let spec = &published[i];
            let found = artifacts_present(image_root, spec, is_file);
            assert forall|files: spec_fn(Seq<char>) -> bool| #[trigger]
                agrees(*is_file, files) implies found == present(image_root@, spec@, files) by {}
            if found {
                there.push(spec.copy());
                assert(all_wanted(there@) =~= before.push(spec@));
            }
            proof {
                let earlier = seen;
                seen = seen.push(found);
                chosen_by_the_first(all.take(i as int), earlier, seen);
                assert(all[i as int] == spec@);
                assert forall|j: int| 0 <= j < seen.len() implies sought(
                    *is_file,
                    image_root@,
                    all[j],
                    #[trigger] seen[j],
                ) by {
                    if j < earlier.len() {
                        assert(seen[j] == earlier[j]);
                    }
                }
            }
            i += 1;
        }
        assert(all.take(i as int) =~= all);
        let first = Self::from_specs(image_root, &there, stat, read);
        let ghost built = choose|built: Seq<Result<Template, Problem>>| #[trigger]
            builds_all(*stat, *read, all_wanted(there@), built) && empty_catalog(
                image_root@,
            ).extended_by(built) == loaded_as(first) && (first is Ok ==> built.len()
                == there@.len());
        assert(builds_all(*stat, *read, chosen(all, seen), built));
        match first {
            Err(e) => Err(e),
            Ok(registry) => {
                let mut registry = registry;
                proof {
                    extending_by_keeps_the_root(empty_catalog(image_root@), built);
                }
                registry.restore_registrations(entries, host, is_file, stat, read);
                Ok(registry)
            },
        }
    }
}

proof fn chosen_by_the_first(specs: Seq<Wanted>, there: Seq<bool>, more: Seq<bool>)
    requires
        specs.len() <= there.len() <= more.len(),
        forall|i: int| 0 <= i < there.len() ==> more[i] == there[i],
    ensures
        chosen(specs, more) == chosen(specs, there),
    decreases specs.len(),
{
    if specs.len() > 0 {
        chosen_by_the_first(specs.drop_last(), there, more);
    }
}

proof fn extending_by_keeps_the_root(catalog: Catalog, built: Seq<Result<Template, Problem>>)
    ensures
        catalog.extended_by(built) matches Ok(next) ==> next.root == catalog.root,
    decreases built.len(),
{
    if built.len() > 0 {
        extending_by_keeps_the_root(catalog, built.drop_last());
    }
}

/// What loading a registry came to.
pub open spec fn loaded_as(r: Result<TemplateRegistry, TemplateError>) -> Result<Catalog, Problem> {
    match r {
        Ok(registry) => Ok(registry@),
        Err(e) => Err(e@),
    }
}

/// The registry that a service starts with.
pub open spec fn loaded(
    root: Seq<char>,
    published: Seq<Wanted>,
    entries: Seq<Wanted>,
    host: Architecture,
    files: spec_fn(Seq<char>) -> bool,
    disk: Disk,
) -> Result<Catalog, Problem> {
    let empty = Catalog {
        root,
        pins: Map::empty(),
        templates: Map::empty(),
        memory: Map::empty(),
    };
    match empty.extended(published.filter(|w: Wanted| present(root, w, files)), disk) {
        Ok(catalog) => Ok(catalog.restored(entries, files, disk, host)),
        Err(problem) => Err(problem),
    }
}

/// Once a template takes the place of another, its alias stands for it and the earlier
/// version is gone. Other aliases stand for what they did.
pub proof fn a_replaced_template_is_gone(catalog: Catalog, template: Template)
    requires
        catalog.consistent(),
    ensures
        catalog.replaced(template).consistent(),
        catalog.replaced(template).current(template.name) == Some(template),
        catalog.current(template.name) matches Some(before) ==> before.version != template.version
            ==> !catalog.replaced(template).templates.contains_key((before.name, before.version)),
        forall|a: Seq<char>|
            a != template.name ==> #[trigger] catalog.replaced(template).current(a)
                == catalog.current(a),
{
}

/// Once an alias is taken out, it stands for nothing. Other aliases stand for what they did.
pub proof fn an_unregistered_alias_is_gone(catalog: Catalog, alias: Seq<char>)
    requires
        catalog.consistent(),
        catalog.current(alias) is Some,
    ensures
        catalog.unpinned(alias).consistent(),
        catalog.unpinned(alias).current(alias) is None,
        forall|a: Seq<char>|
            a != alias ==> #[trigger] catalog.unpinned(alias).current(a) == catalog.current(a),
{
}

/// A file that may go is no file of any template that is still there.
pub proof fn a_file_in_use_stays(
    catalog: Catalog,
    gone: Template,
    managed: Seq<Seq<char>>,
    published: Seq<Wanted>,
    key: (Seq<char>, Seq<char>),
    file: Seq<char>,
)
    requires
        catalog.templates.contains_key(key),
        catalog.may_go(gone, managed, published, file),
    ensures
        !among(catalog.templates[key].files(), file),
{
}

/// The registrations hold one entry for an alias that was registered, and none for one that
/// was forgotten.
pub proof fn an_alias_is_recorded_once(entries: Seq<Wanted>, spec: Wanted)
    ensures
        recorded(entries, spec).last() == spec,
        forall|i: int|
            0 <= i < recorded(entries, spec).len() - 1 ==> (#[trigger] recorded(entries, spec)[i]).alias
                != spec.alias,
        forall|i: int|
            0 <= i < without(entries, spec.alias).len() ==> (#[trigger] without(
                entries,
                spec.alias,
            )[i]).alias != spec.alias,
{
    let keep = |e: Wanted| e.alias != spec.alias;
    let kept = without(entries, spec.alias);
    assert forall|i: int| 0 <= i < kept.len() implies (#[trigger] kept[i]).alias != spec.alias by {
        entries.lemma_filter_pred(keep, i);
    }
    assert forall|i: int| 0 <= i < recorded(entries, spec).len() - 1 implies (#[trigger] recorded(
        entries,
        spec,
    )[i]).alias != spec.alias by {
        assert(recorded(entries, spec)[i] == kept[i]);
    }
}

/// What was registered is there again after a restart, as long as its files are.
pub proof fn a_registration_survives_a_restart(
    catalog: Catalog,
    entries: Seq<Wanted>,
    spec: Wanted,
    files: spec_fn(Seq<char>) -> bool,
    disk: Disk,
    host: Architecture,
)
    requires
        present(catalog.root, spec, files),
        disk.template(spec, Some(host)) is Ok,
    ensures
        catalog.restored(recorded(entries, spec), files, disk, host).current(spec.alias) == Some(
            disk.template(spec, Some(host))->Ok_0,
        ),
{
    let all = recorded(entries, spec);
    assert(all.last() == spec);
    assert(all.drop_last() =~= without(entries, spec.alias));
}

/// Once a template took the place of what its alias stood for, the alias stands for it, also
/// after a restart, as long as its files stay; the earlier version is gone; and no file that
/// may go with it is a file of a template that is there.
pub proof fn a_replacement_survives_a_restart(
    catalog: Catalog,
    entries: Seq<Wanted>,
    spec: Wanted,
    managed: Seq<Seq<char>>,
    published: Seq<Wanted>,
    files: spec_fn(Seq<char>) -> bool,
    disk: Disk,
    host: Architecture,
)
    requires
        catalog.consistent(),
        present(catalog.root, spec, files),
        disk.template(spec, Some(host)) is Ok,
    ensures
        ({
            let template = disk.template(spec, Some(host))->Ok_0;
            let next = catalog.replaced(template);
            &&& template.name == spec.alias && template.version == spec.version
            &&& next.current(spec.alias) == Some(template)
            &&& catalog.current(spec.alias) matches Some(before) ==> before.version != spec.version
                ==> {
                &&& !next.templates.contains_key((spec.alias, before.version))
                &&& forall|file: Seq<char>, key: (Seq<char>, Seq<char>)|
                    #![trigger next.may_go(before, managed, published, file), next.templates.contains_key(key)]
                    next.may_go(before, managed, published, file) && next.templates.contains_key(key)
                        ==> !among(next.templates[key].files(), file)
            }
            &&& loaded(catalog.root, published, recorded(entries, spec), host, files, disk) matches Ok(
                restarted,
            ) ==> restarted.current(spec.alias) == Some(template)
        }),
{
    let template = disk.template(spec, Some(host))->Ok_0;
    a_replaced_template_is_gone(catalog, template);
    let there = published.filter(|w: Wanted| present(catalog.root, w, files));
    let empty = Catalog {
        root: catalog.root,
        pins: Map::empty(),
        templates: Map::empty(),
        memory: Map::empty(),
    };
    if let Ok(first) = empty.extended(there, disk) {
        extending_keeps_the_root(empty, there, disk);
        a_registration_survives_a_restart(first, entries, spec, files, disk, host);
    }
}

proof fn extending_keeps_the_root(catalog: Catalog, specs: Seq<Wanted>, disk: Disk)
    ensures
        catalog.extended(specs, disk) matches Ok(next) ==> next.root == catalog.root,
    decreases specs.len(),
{
    if specs.len() > 0 {
        if let Ok(template) = disk.template(specs[0], None) {
            extending_keeps_the_root(catalog.pinned(template), specs.skip(1), disk);
        }
    }
}

/// What was forgotten is not brought back by a restart: an alias that no registration names
/// stands for what it stood for before they were taken up.
pub proof fn a_forgotten_registration_stays_gone(
    catalog: Catalog,
    entries: Seq<Wanted>,
    alias: Seq<char>,
    files: spec_fn(Seq<char>) -> bool,
    disk: Disk,
    host: Architecture,
)
    requires
        forall|i: int| 0 <= i < entries.len() ==> (#[trigger] entries[i]).alias != alias,
    ensures
        catalog.restored(entries, files, disk, host).current(alias) == catalog.current(alias),
    decreases entries.len(),
{
    if entries.len() > 0 {
        let rest = entries.drop_last();
        assert forall|i: int| 0 <= i < rest.len() implies (#[trigger] rest[i]).alias != alias by {
            assert(rest[i] == entries[i]);
        }
        a_forgotten_registration_stays_gone(catalog, rest, alias, files, disk, host);
        assert(entries.last().alias != alias);
    }
}

impl Catalog {
    /// The digest that was computed for a file, where the file still looks as it did.
    pub open spec fn recalled(self, found: FileStat) -> Option<Seq<char>> {
        let key = (found.device, found.inode);
        if self.memory.contains_key(key) && self.memory[key].length == found.length
            && self.memory[key].mtime == found.mtime && self.memory[key].mtime_nsec
            == found.mtime_nsec {
            Some(self.memory[key].sha256)
        } else {
            None
        }
    }

    /// The registry once it has computed the digest of a file.
    pub open spec fn memorized(self, found: FileStat, sha256: Seq<char>) -> Catalog {
        Catalog {
            memory: self.memory.insert(
                (found.device, found.inode),
                Remembered {
                    length: found.length,
                    mtime: found.mtime,
                    mtime_nsec: found.mtime_nsec,
                    sha256,
                },
            ),
            ..self
        }
    }

    /// The digest of a file, recalled or computed of its bytes, and the registry then.
    pub open spec fn digested(self, found: FileStat, bytes: Result<Seq<u8>, Seq<char>>) -> (
        Catalog,
        Result<Seq<char>, Seq<char>>,
    ) {
        match self.recalled(found) {
            Some(digest) => (self, Ok(digest)),
            None => match bytes {
                Ok(bytes) => (self.memorized(found, hex(sha256(bytes))), Ok(hex(sha256(bytes)))),
                Err(why) => (self, Err(why)),
            },
        }
    }

    /// Whether a pinned file is what it was, by what was found at its path and what it holds,
    /// and the registry after it has looked.
    pub open spec fn opened_as(
        self,
        artifact: Artifact,
        found: Result<FileStat, Problem>,
        bytes: Result<Seq<u8>, Seq<char>>,
    ) -> (Catalog, Result<(), Problem>) {
        match found {
            Err(problem) => (self, Err(problem)),
            Ok(found) => if !same_file(artifact, found) {
                (self, Err(Problem::ArtifactChanged(artifact.path)))
            } else {
                match self.digested(found, bytes) {
                    (next, Err(why)) => (next, Err(Problem::Io(why))),
                    (next, Ok(digest)) => if digest == artifact.sha256 {
                        (next, Ok(()))
                    } else {
                        (next, Err(Problem::ArtifactChanged(artifact.path)))
                    },
                }
            },
        }
    }

    /// Whether a pinned file is what it was, and the registry after it has looked.
    pub open spec fn opened(self, artifact: Artifact, disk: Disk) -> (Catalog, Result<(), Problem>) {
        self.opened_as(artifact, disk.regular(artifact.path), (disk.bytes)(artifact.path))
    }

    /// Whether the digest that is recalled of a file, where one is, is that of its bytes.
    pub open spec fn recalls(self, p: Seq<char>, disk: Disk) -> bool {
        disk.regular(p) matches Ok(found) ==> self.recalled(found) matches Some(digest) ==> (
        disk.bytes)(p) is Ok && digest == hex(sha256((disk.bytes)(p)->Ok_0))
    }
}

/// Whether what was found is the very file that was pinned, of the same length.
pub open spec fn same_file(artifact: Artifact, found: FileStat) -> bool {
    found.device == artifact.device && found.inode == artifact.inode && found.length
        == artifact.length
}

/// Whether holding a pinned file to what it was came to `r`, by the answers that were given:
/// its bytes are asked for where no digest is recalled.
pub open spec fn opens<
    S: Fn(&str) -> Result<FileStat, String>,
    B: Fn(&str) -> Result<Vec<u8>, String>,
>(
    stat: S,
    read: B,
    before: Catalog,
    artifact: Artifact,
    after: Catalog,
    r: Result<(), Problem>,
) -> bool {
    exists|found: Result<FileStat, Problem>| #[trigger]
        looks(stat, artifact.path, found) && if found is Ok && same_file(artifact, found->Ok_0)
            && before.recalled(found->Ok_0) is None {
            exists|bytes: Result<Seq<u8>, Seq<char>>| #[trigger]
                given(read, artifact.path, bytes) && (after, r) == before.opened_as(
                    artifact,
                    found,
                    bytes,
                )
        } else {
            (after, r) == before.opened_as(artifact, found, Err(Seq::empty()))
        }
}

proof fn hash_is_found(entries: Seq<CachedHash>, key: (u64, u64), at: int)
    requires
        0 <= at <= entries.len(),
        at < entries.len() ==> (entries[at].device, entries[at].inode) == key,
        forall|j: int|
            0 <= j < at ==> ((#[trigger] entries[j]).device, entries[j].inode) != key,
    ensures
        find_hash(entries, key) == if at < entries.len() {
            Some(
                Remembered {
                    length: entries[at].length,
                    mtime: entries[at].mtime,
                    mtime_nsec: entries[at].mtime_nsec,
                    sha256: entries[at].sha256@,
                },
            )
        } else {
            None
        },
    decreases at,
{
    if at > 0 {
        assert((entries[0].device, entries[0].inode) != key);
        assert forall|j: int| 0 <= j < at - 1 implies ((#[trigger] entries.skip(1)[j]).device, entries.skip(
            1,
        )[j].inode) != key by {
            assert(entries.skip(1)[j] == entries[j + 1]);
        }
        hash_is_found(entries.skip(1), key, at - 1);
    }
}

proof fn hash_of_others(entries: Seq<CachedHash>, changed: Seq<CachedHash>, at: int, key: (u64, u64))
    requires
        0 <= at <= entries.len(),
        changed.len() == if at < entries.len() {
            entries.len()
        } else {
            entries.len() + 1
        },
        forall|j: int| 0 <= j < entries.len() && j != at ==> #[trigger] changed[j] == entries[j],
        at < entries.len() ==> (entries[at].device, entries[at].inode) != key,
        (changed[at].device, changed[at].inode) != key,
    ensures
        find_hash(changed, key) == find_hash(entries, key),
    decreases entries.len(),
{
    if entries.len() == 0 {
        assert(find_hash(changed.skip(1), key) is None);
    } else {
        if at > 0 {
            assert(changed[0] == entries[0]);
            if (entries[0].device, entries[0].inode) != key {
                assert forall|j: int|
                    0 <= j < entries.skip(1).len() && j != at - 1 implies #[trigger] changed.skip(
                    1,
                )[j] == entries.skip(1)[j] by {
                    assert(changed[j + 1] == entries[j + 1]);
                }
                hash_of_others(entries.skip(1), changed.skip(1), at - 1, key);
            }
        } else {
            assert forall|j: int| 0 <= j < entries.skip(1).len() implies #[trigger] changed.skip(
                1,
            )[j] == entries.skip(1)[j] by {
                assert(changed[j + 1] == entries[j + 1]);
            }
            assert(changed.skip(1) =~= entries.skip(1));
        }
    }
}

impl TemplateRegistry {
    fn hash_slot(&self, found: FileStat) -> (r: usize)
        ensures
            r <= self.verify_cache@.len(),
            r < self.verify_cache@.len() ==> self.verify_cache@[r as int].device == found.device
                && self.verify_cache@[r as int].inode == found.inode,
            forall|j: int|
                0 <= j < r ==> ((#[trigger] self.verify_cache@[j]).device, self.verify_cache@[j].inode)
                    != (found.device, found.inode),
    {
        let mut i: usize = 0;
        while i < self.verify_cache.len() && !(self.verify_cache[i].device == found.device
            && self.verify_cache[i].inode == found.inode)
            invariant
                i <= self.verify_cache@.len(),
                forall|j: int|
                    0 <= j < i ==> ((#[trigger] self.verify_cache@[j]).device, self.verify_cache@[j].inode)
                        != (found.device, found.inode),
            decreases self.verify_cache@.len() - i,
        {
            i += 1;
        }
        i
    }

    /// The digest of a file: the one computed earlier where the file still looks as it did
    /// then, so that many VMs that start at once do not each read gigabytes.
    fn hash_cached<B: Fn(&str) -> Result<Vec<u8>, String>>(
        &mut self,
        p: &str,
        found: FileStat,
        read: &B,
    ) -> (r: Result<String, TemplateError>)
        requires
            old(self).wf(),
            forall|q: &str| call_requires(*read, (q,)),
        ensures
            final(self).wf(),
            r is Err ==> r->Err_0 is Io,
            ({
                let shown = match r {
                    Ok(digest) => Ok::<Seq<char>, Seq<char>>(digest@),
                    Err(TemplateError::Io(why)) => Err(why@),
                    Err(_) => Err(Seq::empty()),
                };
                if old(self)@.recalled(found) is Some {
                    (final(self)@, shown) == old(self)@.digested(found, Err(Seq::empty()))
                } else {
                    exists|bytes: Result<Seq<u8>, Seq<char>>| #[trigger]
                        given(*read, p@, bytes) && (final(self)@, shown) == old(self)@.digested(
                            found,
                            bytes,
                        )
                }
            }),
    {
        let ghost start = *self;
        let ghost key = (found.device, found.inode);
        let at: usize = self.hash_slot(found);
        proof {
            hash_is_found(self.verify_cache@, key, at as int);
            assert(self@.memory.contains_key(key) == (find_hash(self.verify_cache@, key) is Some));
        }
        if at < self.verify_cache.len() {
            let cached = &self.verify_cache[at];
            if cached.length == found.length && cached.mtime == found.mtime && cached.mtime_nsec
                == found.mtime_nsec {
                return Ok(cached.sha256.clone());
            }
        }
        assert(self@.recalled(found) is None);
        let answer = read(p);
        assert(given(*read, p@, held(answer)));
        match answer {
            Err(why) => Err(TemplateError::Io(why)),
            Ok(bytes) => {
                let digest = sha256_bytes(&bytes);
                let entry = CachedHash {
                    device: found.device,
                    inode: found.inode,
                    length: found.length,
                    mtime: found.mtime,
                    mtime_nsec: found.mtime_nsec,
                    sha256: digest.clone(),
                };
                if at < self.verify_cache.len() {
                    self.verify_cache.set(at, entry);
                } else {
                    self.verify_cache.push(entry);
                }
                proof {
                    hash_is_found(self.verify_cache@, key, at as int);
                    assert forall|k: (u64, u64)| k != key implies find_hash(self.verify_cache@, k)
                        == #[trigger] find_hash(start.verify_cache@, k) by {
                        hash_of_others(start.verify_cache@, self.verify_cache@, at as int, k);
                    }
                    assert(self@.memory =~= start@.memorized(found, digest@).memory);
                }
                Ok(digest)
            },
        }
    }

    /// Holds a pinned file to what it was: the same file, of the same length, whose bytes have
    /// the same SHA-256 digest.
    pub fn open_verified<
        S: Fn(&str) -> Result<FileStat, String>,
        B: Fn(&str) -> Result<Vec<u8>, String>,
    >(&mut self, artifact: &VerifiedArtifact, stat: &S, read: &B) -> (r: Result<(), TemplateError>)
        requires
            old(self).wf(),
            usable(*stat, *read),
        ensures
            final(self).wf(),
            opens(*stat, *read, old(self)@, artifact@, final(self)@, verdict(r)),
            forall|disk: Disk| #[trigger]
                shows(*stat, *read, disk) ==> old(self)@.opened(artifact@, disk) == (
                    final(self)@,
                    verdict(r),
                ),
    {
        let r = self.hold(artifact, stat, read);
        proof {
            assert forall|disk: Disk| #[trigger] shows(*stat, *read, disk) implies old(
                self,
            )@.opened(artifact@, disk) == (self@, verdict(r)) by {
                pins_of_a_disk(*stat, *read, disk);
            }
        }
        r
    }

    fn hold<S: Fn(&str) -> Result<FileStat, String>, B: Fn(&str) -> Result<Vec<u8>, String>>(
        &mut self,
        artifact: &VerifiedArtifact,
        stat: &S,
        read: &B,
    ) -> (r: Result<(), TemplateError>)
        requires
            old(self).wf(),
            usable(*stat, *read),
        ensures
            final(self).wf(),
            opens(*stat, *read, old(self)@, artifact@, final(self)@, verdict(r)),
    {
        let p = artifact.relative_path();
        let found = match regular_file(p, stat) {
            Err(e) => {
                assert(looks(*stat, artifact@.path, Err(e@)));
                return Err(e);
            },
            Ok(found) => found,
        };
        assert(looks(*stat, artifact@.path, Ok(found)));
        if found.device != artifact.device() || found.inode != artifact.inode() || found.length
            != artifact.length() {
            return Err(TemplateError::ArtifactChanged(p.to_owned()));
        }
        match self.hash_cached(p, found, read) {
            Err(e) => Err(e),
            Ok(digest) => if same(&digest, artifact.sha256()) {
                Ok(())
            } else {
                Err(TemplateError::ArtifactChanged(p.to_owned()))
            },
        }
    }
}

/// A template whose files stay as they were can be opened, again and again: what was pinned is
/// held to what is there.
pub proof fn an_unchanged_file_opens(catalog: Catalog, p: Seq<char>, disk: Disk)
    requires
        disk.artifact(p) is Ok,
        catalog.recalls(p, disk),
    ensures
        catalog.opened(disk.artifact(p)->Ok_0, disk).1 is Ok,
        catalog.opened(disk.artifact(p)->Ok_0, disk).0.recalls(p, disk),
{
}

/// A pinned file opens exactly where it is still the same file, of the same length, and the
/// SHA-256 digest of its bytes is the pinned one. Otherwise it is refused as changed.
pub proof fn a_changed_file_is_refused(catalog: Catalog, artifact: Artifact, disk: Disk)
    requires
        disk.artifact(artifact.path) is Ok,
        catalog.recalls(artifact.path, disk),
    ensures
        catalog.opened(artifact, disk).1 == if disk.artifact(artifact.path) == Ok::<
            Artifact,
            Problem,
        >(artifact) {
            Ok::<(), Problem>(())
        } else {
            Err(Problem::ArtifactChanged(artifact.path))
        },
        catalog.opened(artifact, disk).0.recalls(artifact.path, disk),
{
}

/// An edit made after a file was opened is found out, also one that keeps its length, as long
/// as an edit moves the file's time of writing.
pub proof fn a_later_edit_is_refused(catalog: Catalog, artifact: Artifact, before: Disk, after: Disk)
    requires
        before.artifact(artifact.path) is Ok,
        after.artifact(artifact.path) is Ok,
        catalog.recalls(artifact.path, before),
        catalog.opened(artifact, before).1 is Ok,
        ({
            let old_stat = before.regular(artifact.path)->Ok_0;
            let new_stat = after.regular(artifact.path)->Ok_0;
            (before.bytes)(artifact.path) != (after.bytes)(artifact.path) ==> (
            old_stat.mtime, old_stat.mtime_nsec) != (new_stat.mtime, new_stat.mtime_nsec)
        }),
    ensures
        catalog.opened(artifact, before).0.opened(artifact, after).1 == if after.artifact(
            artifact.path,
        ) == Ok::<Artifact, Problem>(artifact) {
            Ok::<(), Problem>(())
        } else {
            Err(Problem::ArtifactChanged(artifact.path))
        },
{
}

} // verus!
