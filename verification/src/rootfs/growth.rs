//! What preparing a disk leaves on the host.

use vstd::prelude::*;

#[allow(unused_imports)]
use super::disk::Places;
#[allow(unused_imports)]
use super::{Deed, News, Trouble};
#[allow(unused_imports)]
use crate::dialog::{fresh, Dialog};

verus! {

/// A file of the host, as far as it is known.
pub struct HostFile {
    /// Whether it holds all of the template.
    pub filled: bool,
    /// Whether what it holds has reached its device.
    pub synced: bool,
    /// Its length, once it was set or looked up.
    pub length: Option<u64>,
}

/// The files of the host, by their paths.
pub type HostFiles = Map<Seq<char>, HostFile>;

/// A file of which nothing is known.
pub open spec fn unknown() -> HostFile {
    HostFile { filled: false, synced: false, length: None }
}

/// What is known of a file.
pub open spec fn known(files: HostFiles, path: Seq<char>) -> HostFile {
    if files.contains_key(path) {
        files[path]
    } else {
        unknown()
    }
}

/// The files after a deed, by how it went.
pub open spec fn effect(files: HostFiles, deed: Deed, news: News) -> HostFiles {
    match deed {
        Deed::Length { path } => match news {
            News::Length(length) => files.insert(
                path,
                HostFile { length: Some(length), ..known(files, path) },
            ),
            _ => files,
        },
        Deed::SetLength { path, length } => if news == News::Done {
            files.insert(path, HostFile { length: Some(length), ..known(files, path) })
        } else {
            files.insert(path, unknown())
        },
        Deed::Clone { path } | Deed::CopyBytes { path } => files.insert(
            path,
            HostFile { filled: news == News::Done, synced: false, length: None },
        ),
        Deed::Sync { path } => files.insert(
            path,
            HostFile { synced: news == News::Done, ..known(files, path) },
        ),
        Deed::Rename { from, to } => if news == News::Done {
            files.remove(from).insert(to, known(files, from))
        } else {
            files
        },
        Deed::Create { path } | Deed::Remove { path } | Deed::Write { path, .. } => files.remove(
            path,
        ),
        _ => files,
    }
}

/// The files after some deeds, by how each went. Nothing is known of them at first.
pub open spec fn left(asked: Seq<Deed>, answers: Seq<News>) -> HostFiles
    decreases asked.len(),
{
    if asked.len() == 0 {
        Map::empty()
    } else {
        effect(
            left(asked.drop_last(), answers),
            asked.last(),
            answers[asked.len() - 1],
        )
    }
}

/// The length that a file was last found to have.
pub open spec fn last_seen(asked: Seq<Deed>, answers: Seq<News>, path: Seq<char>) -> Option<u64>
    decreases asked.len(),
{
    if asked.len() == 0 {
        None
    } else if asked.last() == (Deed::Length { path }) && answers[asked.len() - 1] is Length {
        Some(answers[asked.len() - 1]->Length_0)
    } else {
        last_seen(asked.drop_last(), answers, path)
    }
}

/// Whether a tool ran on a disk at a place of a dialog and exited with no more than `most`.
pub open spec fn tool_ran(
    d: Dialog<Deed, News>,
    i: int,
    program: Seq<char>,
    rootfs: Seq<char>,
    most: int,
) -> bool {
    &&& 0 <= i < d.asked.len() && i < d.answers.len()
    &&& d.asked[i] matches Deed::Run { program: p, args } && p == program && args.len() > 0
        && args.last() == rootfs
    &&& d.answers[i] matches News::Ran { code: Some(code), .. } && code <= most
}

proof fn one_deed(d: Dialog<Deed, News>, deed: Deed, rootfs: Seq<char>)
    ensures
        ({
            let (next, news) = d.ask(deed);
            &&& next.answers == d.answers
            &&& !next.waiting ==> {
                &&& !d.waiting
                &&& next.asked == d.asked.push(deed)
                &&& d.asked.len() < d.answers.len()
                &&& news == d.answers[d.asked.len() as int]
                &&& left(next.asked, next.answers) == effect(
                    left(d.asked, d.answers),
                    deed,
                    news,
                )
                &&& last_seen(next.asked, next.answers, rootfs) == if deed == (Deed::Length {
                    path: rootfs,
                }) && news is Length {
                    Some(news->Length_0)
                } else {
                    last_seen(d.asked, d.answers, rootfs)
                }
            }
        }),
{
    let (next, news) = d.ask(deed);
    if !next.waiting {
        assert(next.asked.drop_last() =~= d.asked);
    }
}

/// Whether a disk was grown from a dialog on.
spec fn grown(before: Dialog<Deed, News>, after: Dialog<Deed, News>, rootfs: Seq<char>, target: u64) -> bool {
    let n = before.asked.len() as int;
    let seen = after.answers[n]->Length_0;
    &&& after.answers == before.answers
    &&& last_seen(after.asked, after.answers, rootfs) == Some(seen)
    &&& left(after.asked, after.answers).contains_key(rootfs)
    &&& left(after.asked, after.answers)[rootfs] == (HostFile {
        length: Some(
            if seen < target {
                target
            } else {
                seen
            },
        ),
        ..known(left(before.asked, before.answers), rootfs)
    })
    &&& seen < target ==> {
        &&& n + 3 < after.asked.len()
        &&& after.asked[n + 1] == (Deed::SetLength { path: rootfs, length: target })
        &&& after.answers[n + 1] == News::Done
        &&& tool_ran(after, n + 2, "e2fsck"@, rootfs, 1)
        &&& tool_ran(after, n + 3, "resize2fs"@, rootfs, 0)
    }
}

proof fn growth_is_seen(d: Dialog<Deed, News>, rootfs: Seq<char>, target: u64)
    requires
        !d.grow(rootfs, target).0.waiting,
        d.grow(rootfs, target).1 is Ok,
    ensures
        grown(d, d.grow(rootfs, target).0, rootfs, target),
{
    let look = Deed::Length { path: rootfs };
    one_deed(d, look, rootfs);
    let (looked, news) = d.ask(look);
    let current = news->Length_0;
    if target > current {
        let set = Deed::SetLength { path: rootfs, length: target };
        one_deed(looked, set, rootfs);
        let longer = looked.ask(set).0;
        let check = Deed::Run { program: "e2fsck"@, args: seq!["-f"@, "-y"@].push(rootfs) };
        one_deed(longer, check, rootfs);
        let checked = longer.ask(check).0;
        let resize = Deed::Run {
            program: "resize2fs"@,
            args: Seq::<Seq<char>>::empty().push(rootfs),
        };
        one_deed(checked, resize, rootfs);
    }
}

proof fn publishing_is_seen(d: Dialog<Deed, News>, tmp: Seq<char>, rootfs: Seq<char>)
    requires
        !d.publish(tmp, rootfs).0.waiting,
        d.publish(tmp, rootfs).1 is Ok,
    ensures
        ({
            let put = d.publish(tmp, rootfs).0;
            &&& !d.waiting
            &&& put.answers == d.answers
            &&& left(put.asked, put.answers).contains_key(rootfs)
            &&& left(put.asked, put.answers)[rootfs].filled
            &&& left(put.asked, put.answers)[rootfs].synced
        }),
{
    let create = Deed::Create { path: tmp };
    one_deed(d, create, rootfs);
    let created = d.ask(create).0;
    let clone = Deed::Clone { path: tmp };
    one_deed(created, clone, rootfs);
    let (cloned, news) = created.ask(clone);
    let copy = Deed::CopyBytes { path: tmp };
    one_deed(cloned, copy, rootfs);
    let filled = if news == News::Done {
        cloned
    } else {
        cloned.ask(copy).0
    };
    let sync = Deed::Sync { path: tmp };
    one_deed(filled, sync, rootfs);
    one_deed(filled.ask(sync).0, Deed::Rename { from: tmp, to: rootfs }, rootfs);
}

/// Where preparing a disk succeeds, the disk is as long as was wanted, or as it was found to
/// be where that is more: its length is the greater of the two. Where it was found to be
/// shorter, its file was made exactly as long as wanted, and then the filesystem was checked
/// and made to fill it. A new disk holds all of its template by then, on its device.
pub proof fn a_prepared_disk_is_as_large_as_wanted(answers: Seq<News>, paths: Places, target: u64)
    requires
        !fresh(answers).prepare(paths, target).0.waiting,
        fresh(answers).prepare(paths, target).1 is Ok,
    ensures
        ({
            let d = fresh(answers).prepare(paths, target).0;
            let files = left(d.asked, answers);
            let seen = last_seen(d.asked, answers, paths.rootfs);
            &&& seen is Some
            &&& files.contains_key(paths.rootfs)
            &&& files[paths.rootfs].length is Some
            &&& files[paths.rootfs].length->0 >= target && files[paths.rootfs].length->0 >= seen->0
            &&& files[paths.rootfs].length->0 == target || files[paths.rootfs].length == seen
            &&& answers.len() > 1 && answers[1] is NotFound ==> files[paths.rootfs].filled
                && files[paths.rootfs].synced
            &&& seen->0 < target ==> exists|i: int|
                {
                    &&& #[trigger] tool_ran(d, i, "resize2fs"@, paths.rootfs, 0)
                    &&& tool_ran(d, i - 1, "e2fsck"@, paths.rootfs, 1)
                    &&& i >= 2 && d.asked[i - 2] == (Deed::SetLength {
                        path: paths.rootfs,
                        length: target,
                    })
                    &&& answers[i - 2] == News::Done
                }
        }),
{
    let start = fresh::<Deed, News>(answers);
    let make = Deed::MakeDirectories { path: paths.dir };
    one_deed(start, make, paths.rootfs);
    let made = start.ask(make).0;
    let look = Deed::Length { path: paths.rootfs };
    one_deed(made, look, paths.rootfs);
    let (looked, news) = made.ask(look);
    let clear = Deed::Remove { path: paths.rootfs_tmp };
    one_deed(looked, clear, paths.rootfs);
    let cleared = looked.tell(clear);
    let put = cleared.publish(paths.rootfs_tmp, paths.rootfs).0;
    let ready = if news is NotFound {
        put
    } else {
        looked
    };
    growth_is_seen(ready, paths.rootfs, target);
    let d = ready.grow(paths.rootfs, target).0;
    one_deed(ready, look, paths.rootfs);
    assert(!ready.waiting);
    if news is NotFound {
        publishing_is_seen(cleared, paths.rootfs_tmp, paths.rootfs);
    }
    let n = ready.asked.len() as int;
    if last_seen(d.asked, answers, paths.rootfs)->0 < target {
        assert(tool_ran(d, n + 3, "resize2fs"@, paths.rootfs, 0));
        assert(tool_ran(d, (n + 3) - 1, "e2fsck"@, paths.rootfs, 1));
        assert(d.asked[(n + 3) - 2] == (Deed::SetLength { path: paths.rootfs, length: target }));
    }
}

/// Where a disk that was there cannot be grown, it is as long at the end as it was found to
/// be, unless even that could not be set.
pub proof fn a_disk_that_cannot_grow_keeps_its_length(
    answers: Seq<News>,
    paths: Places,
    target: u64,
)
    requires
        answers.len() > 1 && answers[1] is Length,
        !fresh(answers).prepare(paths, target).0.waiting,
        fresh(answers).prepare(paths, target).1 is Err,
    ensures
        ({
            let d = fresh(answers).prepare(paths, target).0;
            let why = fresh(answers).prepare(paths, target).1->Err_0;
            let files = left(d.asked, answers);
            let seen = last_seen(d.asked, answers, paths.rootfs);
            why is ResizeTool || why is ResizeFailed ==> {
                &&& seen is Some && seen->0 < target
                &&& d.asked.last() == (Deed::SetLength { path: paths.rootfs, length: seen->0 })
                &&& answers[d.asked.len() - 1] == News::Done ==> files[paths.rootfs].length == seen
            }
        }),
{
    let start = fresh::<Deed, News>(answers);
    let make = Deed::MakeDirectories { path: paths.dir };
    one_deed(start, make, paths.rootfs);
    let made = start.ask(make).0;
    let look = Deed::Length { path: paths.rootfs };
    one_deed(made, look, paths.rootfs);
    let looked = made.ask(look).0;
    one_deed(looked, look, paths.rootfs);
    let (found, news) = looked.ask(look);
    let current = news->Length_0;
    let set = Deed::SetLength { path: paths.rootfs, length: target };
    one_deed(found, set, paths.rootfs);
    let longer = found.ask(set).0;
    let check = Deed::Run { program: "e2fsck"@, args: seq!["-f"@, "-y"@].push(paths.rootfs) };
    one_deed(longer, check, paths.rootfs);
    let checked = longer.ask(check).0;
    let resize = Deed::Run {
        program: "resize2fs"@,
        args: Seq::<Seq<char>>::empty().push(paths.rootfs),
    };
    one_deed(checked, resize, paths.rootfs);
    let resized = longer.resize(paths.rootfs).0;
    one_deed(resized, Deed::SetLength { path: paths.rootfs, length: current }, paths.rootfs);
}

} // verus!
