//! Making the disk of a VM, and making it larger.

use vstd::prelude::*;

#[allow(unused_imports)]
use super::{outcome, Deed, News, Trouble};
use super::{Answer, Progress, RootfsError, Task};
#[allow(unused_imports)]
use crate::dialog::{fresh, seen, stand, Dialog};
use crate::dialog::Steps;
use crate::text::decode_lossy;
#[allow(unused_imports)]
use crate::text::{texts, utf8_lossy};

verus! {

/// The paths of a VM's disk.
#[derive(Debug)]
pub struct DiskPaths {
    /// The directory of the VM.
    pub dir: String,
    /// The disk.
    pub rootfs: String,
    /// Where the disk is put together.
    pub rootfs_tmp: String,
}

/// [`DiskPaths`] as contracts speak of it.
pub struct Places {
    pub dir: Seq<char>,
    pub rootfs: Seq<char>,
    pub rootfs_tmp: Seq<char>,
}

impl View for DiskPaths {
    type V = Places;

    open spec fn view(&self) -> Places {
        Places { dir: self.dir@, rootfs: self.rootfs@, rootfs_tmp: self.rootfs_tmp@ }
    }
}

/// How a disk came to hold its template.
#[derive(Debug, Clone, Copy, PartialEq, Eq, Structural)]
pub enum CopyMode {
    /// It shares the template's blocks.
    Cloned,
    /// The template's bytes were copied.
    Copied,
}

impl Dialog<Deed, News> {
    /// Fills a file with the template: by sharing its blocks, and where the filesystem
    /// refuses that, for whatever reason, by copying its bytes.
    pub open spec fn clone_or_copy(self, path: Seq<char>) -> (
        Self,
        Result<CopyMode, Seq<char>>,
    ) {
        let (cloned, news) = self.ask(Deed::Clone { path });
        if news == News::Done {
            (cloned, Ok(CopyMode::Cloned))
        } else {
            let (copied, news) = cloned.ask(Deed::CopyBytes { path });
            (
                copied,
                if news == News::Done {
                    Ok(CopyMode::Copied)
                } else {
                    Err(news.reason())
                },
            )
        }
    }

    /// Copies the template to a temporary file, and moves that to its place.
    pub open spec fn publish(self, tmp: Seq<char>, rootfs: Seq<char>) -> (
        Self,
        Result<(), Trouble>,
    ) {
        let (created, news) = self.ask(Deed::Create { path: tmp });
        if news != News::Done {
            (created, Err(Trouble::Copy { path: tmp, source: news.reason() }))
        } else {
            let (filled, mode) = created.clone_or_copy(tmp);
            match mode {
                Err(source) => (filled, Err(Trouble::Copy { path: tmp, source })),
                Ok(_) => {
                    let (synced, news) = filled.ask(Deed::Sync { path: tmp });
                    if news != News::Done {
                        (synced, Err(Trouble::Copy { path: tmp, source: news.reason() }))
                    } else {
                        let (renamed, news) = synced.ask(Deed::Rename { from: tmp, to: rootfs });
                        (
                            renamed,
                            if news != News::Done {
                                Err(Trouble::Publish { path: rootfs, source: news.reason() })
                            } else {
                                Ok(())
                            },
                        )
                    }
                },
            }
        }
    }

    /// Runs a tool on the disk that is to exit with no more than `most`.
    pub open spec fn resize_tool(
        self,
        rootfs: Seq<char>,
        program: Seq<char>,
        args: Seq<Seq<char>>,
        most: i32,
    ) -> (Self, Result<(), Trouble>) {
        let (next, ran) = self.tool(rootfs, program, args);
        (
            next,
            match ran {
                Err(source) => Err(Trouble::ResizeTool { path: rootfs, tool: program, source }),
                Ok(output) => if output.code is Some && output.code->0 <= most {
                    Ok(())
                } else {
                    Err(
                        Trouble::ResizeFailed {
                            path: rootfs,
                            tool: program,
                            stderr: utf8_lossy(output.stderr),
                        },
                    )
                },
            },
        )
    }

    /// Has the filesystem checked, and made to fill its file. The check exits with 1 where
    /// it corrected something.
    pub open spec fn resize(self, rootfs: Seq<char>) -> (Self, Result<(), Trouble>) {
        let (checked, result) = self.resize_tool(rootfs, "e2fsck"@, seq!["-f"@, "-y"@], 1);
        match result {
            Err(trouble) => (checked, Err(trouble)),
            Ok(_) => checked.resize_tool(rootfs, "resize2fs"@, Seq::empty(), 0),
        }
    }

    /// Makes the disk larger where it is smaller than wanted. Where the filesystem could not
    /// follow, the file gets its earlier length back, so that a later try does not take it
    /// for a disk that has been made larger.
    pub open spec fn grow(self, rootfs: Seq<char>, target: u64) -> (Self, Result<(), Trouble>) {
        let (looked, news) = self.ask(Deed::Length { path: rootfs });
        match news {
            News::Length(current) => if target <= current {
                (looked, Ok(()))
            } else {
                let (longer, news) = looked.ask(
                    Deed::SetLength { path: rootfs, length: target },
                );
                if news != News::Done {
                    (longer, Err(Trouble::Extend { path: rootfs, source: news.reason() }))
                } else {
                    let (resized, result) = longer.resize(rootfs);
                    if result is Err {
                        (
                            resized.tell(Deed::SetLength { path: rootfs, length: current }),
                            result,
                        )
                    } else {
                        (resized, result)
                    }
                }
            },
            _ => (looked, Err(Trouble::Inspect { path: rootfs, source: news.reason() })),
        }
    }

    /// Makes a disk from the template where there is none, and grows it. A disk that was
    /// there is kept whatever happens; a new one that cannot be grown is removed.
    pub open spec fn prepare(self, paths: Places, target: u64) -> (Self, Result<(), Trouble>) {
        let (made, news) = self.ask(Deed::MakeDirectories { path: paths.dir });
        if news != News::Done {
            (made, Err(Trouble::CreateDirectory { path: paths.dir, source: news.reason() }))
        } else {
            let (looked, news) = made.ask(Deed::Length { path: paths.rootfs });
            match news {
                News::Length(_) => looked.grow(paths.rootfs, target),
                News::NotFound => {
                    let (put, result) = looked.tell(
                        Deed::Remove { path: paths.rootfs_tmp },
                    ).publish(paths.rootfs_tmp, paths.rootfs);
                    if result is Err {
                        (
                            put.tell(Deed::Remove { path: paths.rootfs_tmp }).tell(
                                Deed::Remove { path: paths.rootfs },
                            ),
                            result,
                        )
                    } else {
                        let (grown, result) = put.grow(paths.rootfs, target);
                        if result is Err {
                            (
                                grown.tell(Deed::Remove { path: paths.rootfs }).tell(
                                    Deed::Remove { path: paths.rootfs_tmp },
                                ),
                                result,
                            )
                        } else {
                            (grown, result)
                        }
                    }
                },
                _ => (
                    looked,
                    Err(Trouble::Inspect { path: paths.rootfs, source: news.reason() }),
                ),
            }
        }
    }
}

impl Steps<Task, Answer> {
    fn must(&mut self, task: Task) -> (r: Result<(), String>)
        requires
            old(self).wf(),
        ensures
            final(self).wf(),
            final(self)@ == old(self)@.ask(task@).0,
            match r {
                Ok(_) => old(self)@.ask(task@).1 == News::Done,
                Err(why) => old(self)@.ask(task@).1 != News::Done && why@ == old(self)@.ask(
                    task@).1.reason(),
            },
    {
        let answer = self.ask(task);
        match answer {
            Answer::Done => Ok(()),
            _ => Err(answer.reason()),
        }
    }

    fn clone_or_copy(&mut self, path: &str) -> (r: Result<CopyMode, String>)
        requires
            old(self).wf(),
        ensures
            final(self).wf(),
            (
                final(self)@,
                match r {
                    Ok(mode) => Ok::<CopyMode, Seq<char>>(mode),
                    Err(why) => Err(why@),
                },
            ) == old(self)@.clone_or_copy(path@),
    {
        if self.must(Task::Clone { path: path.to_owned() }).is_ok() {
            return Ok(CopyMode::Cloned);
        }
        match self.must(Task::CopyBytes { path: path.to_owned() }) {
            Ok(_) => Ok(CopyMode::Copied),
            Err(why) => Err(why),
        }
    }

    fn publish(&mut self, tmp: &str, rootfs: &str) -> (r: Result<(), RootfsError>)
        requires
            old(self).wf(),
        ensures
            final(self).wf(),
            (final(self)@, outcome(r)) == old(self)@.publish(tmp@, rootfs@),
    {
        if let Err(source) = self.must(Task::Create { path: tmp.to_owned() }) {
            return Err(RootfsError::Copy { path: tmp.to_owned(), source });
        }
        if let Err(source) = self.clone_or_copy(tmp) {
            return Err(RootfsError::Copy { path: tmp.to_owned(), source });
        }
        if let Err(source) = self.must(Task::Sync { path: tmp.to_owned() }) {
            return Err(RootfsError::Copy { path: tmp.to_owned(), source });
        }
        match self.must(Task::Rename { from: tmp.to_owned(), to: rootfs.to_owned() }) {
            Ok(_) => Ok(()),
            Err(source) => Err(RootfsError::Publish { path: rootfs.to_owned(), source }),
        }
    }

    fn run_resize_tool(&mut self, rootfs: &str, tool: &'static str, args: &[&str], most: i32) -> (r:
        Result<(), RootfsError>)
        requires
            old(self).wf(),
        ensures
            final(self).wf(),
            (final(self)@, outcome(r)) == old(self)@.resize_tool(
                rootfs@,
                tool@,
                texts(args@),
                most,
            ),
    {
        match self.run_tool(rootfs, tool, args) {
            Err(source) => Err(RootfsError::ResizeTool { path: rootfs.to_owned(), tool, source }),
            Ok(output) => {
                if let Some(code) = output.code {
                    if code <= most {
                        return Ok(());
                    }
                }
                Err(
                    RootfsError::ResizeFailed {
                        path: rootfs.to_owned(),
                        tool,
                        stderr: decode_lossy(&output.stderr),
                    },
                )
            },
        }
    }

    fn resize(&mut self, rootfs: &str) -> (r: Result<(), RootfsError>)
        requires
            old(self).wf(),
        ensures
            final(self).wf(),
            (final(self)@, outcome(r)) == old(self)@.resize(rootfs@),
    {
        let args = ["-f", "-y"];
        assert(texts(args@) =~= seq!["-f"@, "-y"@]);
        if let Err(e) = self.run_resize_tool(rootfs, "e2fsck", &args, 1) {
            return Err(e);
        }
        let none: [&str; 0] = [];
        assert(texts(none@) =~= Seq::empty());
        self.run_resize_tool(rootfs, "resize2fs", &none, 0)
    }

    fn grow(&mut self, rootfs: &str, target_bytes: u64) -> (r: Result<(), RootfsError>)
        requires
            old(self).wf(),
        ensures
            final(self).wf(),
            (final(self)@, outcome(r)) == old(self)@.grow(rootfs@, target_bytes),
    {
        let answer = self.ask(Task::Length { path: rootfs.to_owned() });
        let current: u64 = match answer {
            Answer::Length(length) => length,
            _ => return Err(
                RootfsError::Inspect { path: rootfs.to_owned(), source: answer.reason() },
            ),
        };
        if target_bytes <= current {
            return Ok(());
        }
        if let Err(source) = self.must(
            Task::SetLength { path: rootfs.to_owned(), length: target_bytes },
        ) {
            return Err(RootfsError::Extend { path: rootfs.to_owned(), source });
        }
        let resized = self.resize(rootfs);
        if resized.is_err() {
            self.tell(Task::SetLength { path: rootfs.to_owned(), length: current });
        }
        resized
    }

    fn prepare(&mut self, paths: &DiskPaths, target_bytes: u64) -> (r: Result<(), RootfsError>)
        requires
            old(self).wf(),
        ensures
            final(self).wf(),
            (final(self)@, outcome(r)) == old(self)@.prepare(paths@, target_bytes),
    {
        if let Err(source) = self.must(Task::MakeDirectories { path: paths.dir.clone() }) {
            return Err(RootfsError::CreateDirectory { path: paths.dir.clone(), source });
        }
        let answer = self.ask(Task::Length { path: paths.rootfs.clone() });
        let freshly_created = match answer {
            Answer::Length(_) => false,
            Answer::NotFound => true,
            _ => return Err(
                RootfsError::Inspect { path: paths.rootfs.clone(), source: answer.reason() },
            ),
        };
        if freshly_created {
            self.tell(Task::Remove { path: paths.rootfs_tmp.clone() });
            if let Err(e) = self.publish(&paths.rootfs_tmp, &paths.rootfs) {
                self.tell(Task::Remove { path: paths.rootfs_tmp.clone() });
                self.tell(Task::Remove { path: paths.rootfs.clone() });
                return Err(e);
            }
        }
        if let Err(e) = self.grow(&paths.rootfs, target_bytes) {
            if freshly_created {
                self.tell(Task::Remove { path: paths.rootfs.clone() });
                self.tell(Task::Remove { path: paths.rootfs_tmp.clone() });
            }
            return Err(e);
        }
        Ok(())
    }
}

/// Makes the disk of a VM from its template where there is none, and grows it to
/// `target_bytes` where it is smaller. Gives the disk's path.
pub fn prepare_rootfs(paths: &DiskPaths, target_bytes: u64, answers: Vec<Answer>) -> (r: Progress<
    String,
>)
    ensures
        r.stands() == stand(fresh(seen(answers@)).prepare(paths@, target_bytes)),
        r matches Progress::Over(Ok(rootfs)) ==> rootfs@ == paths@.rootfs,
{
    let mut steps = Steps::new(answers);
    let result = match steps.prepare(paths, target_bytes) {
        Ok(_) => Ok(paths.rootfs.clone()),
        Err(e) => Err(e),
    };
    steps.finish(result)
}

impl Deed {
    /// Whether it could cost a file its contents: it removes the file, writes it anew, or
    /// moves another one over it.
    pub open spec fn harms(self, file: Seq<char>) -> bool {
        match self {
            Deed::Remove { path } => path == file,
            Deed::Write { path, .. } => path == file,
            Deed::Create { path } => path == file,
            Deed::Clone { path } => path == file,
            Deed::CopyBytes { path } => path == file,
            Deed::Rename { from, to } => from == file || to == file,
            _ => false,
        }
    }
}

/// Whether no deed of a dialog could cost a file its contents.
pub open spec fn spared(dialog: Dialog<Deed, News>, file: Seq<char>) -> bool {
    forall|i: int| 0 <= i < dialog.asked.len() ==> !(#[trigger] dialog.asked[i]).harms(file)
}

/// Growing a disk keeps its contents.
pub proof fn growing_keeps_the_contents(dialog: Dialog<Deed, News>, rootfs: Seq<char>, target: u64)
    requires
        spared(dialog, rootfs),
    ensures
        spared(dialog.grow(rootfs, target).0, rootfs),
{
}

/// A disk that is there is kept, whatever the host answers: stopping and starting a VM
/// keeps the guest's data.
pub proof fn an_existing_disk_is_kept(answers: Seq<News>, paths: Places, target: u64)
    requires
        answers.len() >= 2,
        answers[1] is Length,
    ensures
        spared(fresh(answers).prepare(paths, target).0, paths.rootfs),
{
    let (made, news) = fresh(answers).ask(Deed::MakeDirectories { path: paths.dir });
    assert(spared(made, paths.rootfs));
    let (looked, news) = made.ask(Deed::Length { path: paths.rootfs });
    assert(spared(looked, paths.rootfs));
    growing_keeps_the_contents(looked, paths.rootfs, target);
}

/// A disk that is large enough is left as it is: only its length is looked up.
pub proof fn a_large_disk_is_left_alone(answers: Seq<News>, rootfs: Seq<char>, target: u64)
    requires
        answers.len() >= 1,
        answers[0] is Length,
        target <= answers[0]->Length_0,
    ensures
        fresh(answers).grow(rootfs, target).0.asked == seq![Deed::Length { path: rootfs }],
        fresh(answers).grow(rootfs, target).1 is Ok,
{
    assert(fresh(answers).grow(rootfs, target).0.asked =~= seq![Deed::Length { path: rootfs }]);
}

/// Where the filesystem could not be made to fill its file, the last thing done is to give
/// the file its earlier length back.
pub proof fn a_failed_growth_is_taken_back(answers: Seq<News>, rootfs: Seq<char>, target: u64)
    requires
        answers.len() >= 2,
        answers[0] is Length,
        target > answers[0]->Length_0,
        answers[1] is Done,
        !fresh(answers).grow(rootfs, target).0.waiting,
        fresh(answers).grow(rootfs, target).1 is Err,
    ensures
        fresh(answers).grow(rootfs, target).0.asked.last() == (Deed::SetLength {
            path: rootfs,
            length: answers[0]->Length_0,
        }),
{
}

/// A new disk appears whole or not at all: it is moved to its place only when the template
/// was copied and the copy was written to its device.
pub proof fn a_disk_appears_whole(answers: Seq<News>, tmp: Seq<char>, rootfs: Seq<char>, i: int)
    requires
        0 <= i < fresh(answers).publish(tmp, rootfs).0.asked.len(),
        fresh(answers).publish(tmp, rootfs).0.asked[i] == (Deed::Rename { from: tmp, to: rootfs }),
    ensures
        ({
            let asked = fresh(answers).publish(tmp, rootfs).0.asked;
            &&& 3 <= i <= answers.len()
            &&& asked[i - 1] == (Deed::Sync { path: tmp }) && answers[i - 1] == News::Done
            &&& asked[i - 2] == (Deed::Clone { path: tmp }) || asked[i - 2] == (Deed::CopyBytes {
                path: tmp,
            })
            &&& answers[i - 2] == News::Done
        }),
{
}

/// A new disk that could not be made or grown is removed, and its temporary file too.
pub proof fn a_failed_disk_is_removed(answers: Seq<News>, paths: Places, target: u64)
    requires
        answers.len() >= 2,
        answers[0] is Done,
        answers[1] is NotFound,
        !fresh(answers).prepare(paths, target).0.waiting,
        fresh(answers).prepare(paths, target).1 is Err,
    ensures
        ({
            let asked = fresh(answers).prepare(paths, target).0.asked;
            let end = asked.skip(asked.len() - 2);
            let removed = Deed::Remove { path: paths.rootfs };
            let cleared = Deed::Remove { path: paths.rootfs_tmp };
            end == seq![removed, cleared] || end == seq![cleared, removed]
        }),
{
    let asked = fresh(answers).prepare(paths, target).0.asked;
    let end = asked.skip(asked.len() - 2);
    let removed = Deed::Remove { path: paths.rootfs };
    let cleared = Deed::Remove { path: paths.rootfs_tmp };
    assert(end =~= seq![removed, cleared] || end =~= seq![cleared, removed]);
}

} // verus!
