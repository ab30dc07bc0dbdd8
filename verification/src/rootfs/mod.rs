//! The writable disk of a VM: copied from a template, grown, and given the VM's identity.
//!
//! Each operation is a function of the answers that the host has given so far. It gives
//! the next thing to ask the host, or its result.

use vstd::prelude::*;

#[allow(unused_imports)]
use crate::dialog::{stand, Dialog, Stand};
use crate::dialog::Steps;
use crate::path::path_with_extension;
#[allow(unused_imports)]
use crate::path::with_extension;
use crate::text::{decode_lossy, has, lowered, to_strings, trimmed};
#[allow(unused_imports)]
use crate::text::{ascii_lower, contains, texts, trim, utf8_lossy, views};

pub mod disk;
pub mod growth;
pub mod guest;
pub mod guest_paths;
pub mod identity;
pub mod laws;
pub mod readiness;
pub mod tree;

verus! {

/// Where the state of the VMs is kept, unless told otherwise.
pub fn default_vms_dir() -> (r: &'static str)
    ensures
        r@ == "data/vms"@,
{
    "data/vms"
}

/// What preparing a disk can fail at.
#[derive(Debug)]
pub enum RootfsError {
    /// The directories of the VM could not be made.
    CreateDirectory { path: String, source: String },
    /// The disk could not be looked at.
    Inspect { path: String, source: String },
    /// The template could not be copied.
    Copy { path: String, source: String },
    /// The copy could not be moved to its place.
    Publish { path: String, source: String },
    /// The file of the disk could not be made longer.
    Extend { path: String, source: String },
    /// A tool could not be started.
    ResizeTool { path: String, tool: &'static str, source: String },
    /// A tool reported a failure.
    ResizeFailed { path: String, tool: &'static str, stderr: String },
    /// The recovery of the filesystem could not be started.
    RecoveryTool { path: String, source: String },
    /// The filesystem could not be recovered safely. The disk is left as it is.
    RecoveryFailed { path: String, detail: String },
    /// Something could not be written into the filesystem.
    Specialize { path: String, detail: String },
}

/// [`RootfsError`] as contracts speak of it.
pub enum Trouble {
    CreateDirectory { path: Seq<char>, source: Seq<char> },
    Inspect { path: Seq<char>, source: Seq<char> },
    Copy { path: Seq<char>, source: Seq<char> },
    Publish { path: Seq<char>, source: Seq<char> },
    Extend { path: Seq<char>, source: Seq<char> },
    ResizeTool { path: Seq<char>, tool: Seq<char>, source: Seq<char> },
    ResizeFailed { path: Seq<char>, tool: Seq<char>, stderr: Seq<char> },
    RecoveryTool { path: Seq<char>, source: Seq<char> },
    RecoveryFailed { path: Seq<char>, detail: Seq<char> },
    Specialize { path: Seq<char>, detail: Seq<char> },
}

impl View for RootfsError {
    type V = Trouble;

    open spec fn view(&self) -> Trouble {
        match self {
            RootfsError::CreateDirectory { path, source } => Trouble::CreateDirectory {
                path: path@,
                source: source@,
            },
            RootfsError::Inspect { path, source } => Trouble::Inspect {
                path: path@,
                source: source@,
            },
            RootfsError::Copy { path, source } => Trouble::Copy { path: path@, source: source@ },
            RootfsError::Publish { path, source } => Trouble::Publish {
                path: path@,
                source: source@,
            },
            RootfsError::Extend { path, source } => Trouble::Extend {
                path: path@,
                source: source@,
            },
            RootfsError::ResizeTool { path, tool, source } => Trouble::ResizeTool {
                path: path@,
                tool: tool@,
                source: source@,
            },
            RootfsError::ResizeFailed { path, tool, stderr } => Trouble::ResizeFailed {
                path: path@,
                tool: tool@,
                stderr: stderr@,
            },
            RootfsError::RecoveryTool { path, source } => Trouble::RecoveryTool {
                path: path@,
                source: source@,
            },
            RootfsError::RecoveryFailed { path, detail } => Trouble::RecoveryFailed {
                path: path@,
                detail: detail@,
            },
            RootfsError::Specialize { path, detail } => Trouble::Specialize {
                path: path@,
                detail: detail@,
            },
        }
    }
}

impl Trouble {
    /// The error in one line.
    pub open spec fn message(self) -> Seq<char> {
        match self {
            Trouble::CreateDirectory { path, source } => "failed to create VM directory "@ + path
                + ": "@ + source,
            Trouble::Inspect { path, source } => "failed to inspect rootfs at "@ + path + ": "@
                + source,
            Trouble::Copy { path, source } => "failed to copy template rootfs into "@ + path
                + ": "@ + source,
            Trouble::Publish { path, source } => "failed to publish rootfs at "@ + path + ": "@
                + source,
            Trouble::Extend { path, source } => "failed to extend rootfs file at "@ + path
                + ": "@ + source,
            Trouble::ResizeTool { path, tool, source } => "failed to run '"@ + tool
                + "' on rootfs at "@ + path + ": "@ + source,
            Trouble::ResizeFailed { path, tool, stderr } => "'"@ + tool
                + "' reported a failure while resizing rootfs at "@ + path + ": "@ + stderr,
            Trouble::RecoveryTool { path, source } => "failed to run e2fsck recovery on rootfs at "@
                + path + ": "@ + source,
            Trouble::RecoveryFailed { path, detail } => {
                "e2fsck could not safely recover rootfs at "@ + path + ": "@ + detail
            },
            Trouble::Specialize { path, detail } => "failed to specialize guest rootfs at "@ + path
                + ": "@ + detail,
        }
    }
}

fn line(before: &str, path: &str, after: &str) -> (r: String)
    ensures
        r@ == before@ + path@ + ": "@ + after@,
{
    before.to_owned().concat(path).concat(": ").concat(after)
}

impl RootfsError {
    /// The error in one line.
    pub fn message(&self) -> (r: String)
        ensures
            r@ == self@.message(),
    {
        match self {
            RootfsError::CreateDirectory { path, source } => line(
                "failed to create VM directory ",
                path,
                source,
            ),
            RootfsError::Inspect { path, source } => line(
                "failed to inspect rootfs at ",
                path,
                source,
            ),
            RootfsError::Copy { path, source } => line(
                "failed to copy template rootfs into ",
                path,
                source,
            ),
            RootfsError::Publish { path, source } => line(
                "failed to publish rootfs at ",
                path,
                source,
            ),
            RootfsError::Extend { path, source } => line(
                "failed to extend rootfs file at ",
                path,
                source,
            ),
            RootfsError::ResizeTool { path, tool, source } => line(
                &"failed to run '".to_owned().concat(tool).concat("' on rootfs at "),
                path,
                source,
            ),
            RootfsError::ResizeFailed { path, tool, stderr } => line(
                &"'".to_owned().concat(tool).concat("' reported a failure while resizing rootfs at "),
                path,
                stderr,
            ),
            RootfsError::RecoveryTool { path, source } => line(
                "failed to run e2fsck recovery on rootfs at ",
                path,
                source,
            ),
            RootfsError::RecoveryFailed { path, detail } => line(
                "e2fsck could not safely recover rootfs at ",
                path,
                detail,
            ),
            RootfsError::Specialize { path, detail } => line(
                "failed to specialize guest rootfs at ",
                path,
                detail,
            ),
        }
    }
}

/// Something to ask of the host.
#[derive(Debug)]
pub enum Task {
    /// Run a program to its end.
    Run { program: &'static str, args: Vec<String> },
    /// Write a file.
    Write { path: String, bytes: Vec<u8> },
    /// Read a file as text.
    ReadText { path: String },
    /// Look up a file's length.
    Length { path: String },
    /// Remove a file; whether that succeeds does not matter.
    Remove { path: String },
    /// Set a file's length.
    SetLength { path: String, length: u64 },
    /// Make the directories of the VM.
    MakeDirectories { path: String },
    /// Make an empty file, to copy the template into.
    Create { path: String },
    /// Have the file share the template's blocks.
    Clone { path: String },
    /// Copy the template's bytes into the file.
    CopyBytes { path: String },
    /// Have the file written to its device.
    Sync { path: String },
    /// Rename a file.
    Rename { from: String, to: String },
    /// Put the VM's variables into the script of its service.
    RewriteEnv { script: String },
}

/// [`Task`] as contracts speak of it.
pub enum Deed {
    Run { program: Seq<char>, args: Seq<Seq<char>> },
    Write { path: Seq<char>, bytes: Seq<u8> },
    ReadText { path: Seq<char> },
    Length { path: Seq<char> },
    Remove { path: Seq<char> },
    SetLength { path: Seq<char>, length: u64 },
    MakeDirectories { path: Seq<char> },
    Create { path: Seq<char> },
    Clone { path: Seq<char> },
    CopyBytes { path: Seq<char> },
    Sync { path: Seq<char> },
    Rename { from: Seq<char>, to: Seq<char> },
    RewriteEnv { script: Seq<char> },
}

impl View for Task {
    type V = Deed;

    open spec fn view(&self) -> Deed {
        match self {
            Task::Run { program, args } => Deed::Run { program: program@, args: views(args@) },
            Task::Write { path, bytes } => Deed::Write { path: path@, bytes: bytes@ },
            Task::ReadText { path } => Deed::ReadText { path: path@ },
            Task::Length { path } => Deed::Length { path: path@ },
            Task::Remove { path } => Deed::Remove { path: path@ },
            Task::SetLength { path, length } => Deed::SetLength { path: path@, length: *length },
            Task::MakeDirectories { path } => Deed::MakeDirectories { path: path@ },
            Task::Create { path } => Deed::Create { path: path@ },
            Task::Clone { path } => Deed::Clone { path: path@ },
            Task::CopyBytes { path } => Deed::CopyBytes { path: path@ },
            Task::Sync { path } => Deed::Sync { path: path@ },
            Task::Rename { from, to } => Deed::Rename { from: from@, to: to@ },
            Task::RewriteEnv { script } => Deed::RewriteEnv { script: script@ },
        }
    }
}

/// What the host answered.
#[derive(Debug, Clone)]
pub enum Answer {
    /// The program ran: its exit code where it has one, its status in words, and what it
    /// printed.
    Ran { code: Option<i32>, status: String, stdout: Vec<u8>, stderr: Vec<u8> },
    /// The length of a file.
    Length(u64),
    /// The text of a file.
    Text(String),
    /// It was done.
    Done,
    /// There is no such file.
    NotFound,
    /// It failed.
    Failed(String),
}

/// [`Answer`] as contracts speak of it.
pub enum News {
    Ran { code: Option<i32>, status: Seq<char>, stdout: Seq<u8>, stderr: Seq<u8> },
    Length(u64),
    Text(Seq<char>),
    Done,
    NotFound,
    Failed(Seq<char>),
}

impl View for Answer {
    type V = News;

    open spec fn view(&self) -> News {
        match self {
            Answer::Ran { code, status, stdout, stderr } => News::Ran {
                code: *code,
                status: status@,
                stdout: stdout@,
                stderr: stderr@,
            },
            Answer::Length(length) => News::Length(*length),
            Answer::Text(text) => News::Text(text@),
            Answer::Done => News::Done,
            Answer::NotFound => News::NotFound,
            Answer::Failed(why) => News::Failed(why@),
        }
    }
}

impl News {
    /// Why something could not be done.
    pub open spec fn reason(self) -> Seq<char> {
        match self {
            News::Failed(why) => why,
            News::NotFound => "no such file"@,
            _ => "no answer"@,
        }
    }
}

impl Answer {
    fn reason(&self) -> (r: String)
        ensures
            r@ == self@.reason(),
    {
        match self {
            Answer::Failed(why) => why.clone(),
            Answer::NotFound => "no such file".to_owned(),
            _ => "no answer".to_owned(),
        }
    }
}

impl Dialog<Deed, News> {
    /// The dialog once something is asked, and the answer.
    pub open spec fn ask(self, deed: Deed) -> (Self, News) {
        self.put_question(deed, News::Done)
    }

    /// The dialog once something is asked whose answer does not matter.
    pub open spec fn tell(self, deed: Deed) -> Self {
        self.ask(deed).0
    }
}

/// What an operation has come to.
#[derive(Debug)]
pub enum Progress<T> {
    /// This is to be asked of the host.
    Ask(Task),
    /// This is the result.
    Over(Result<T, RootfsError>),
}

/// The result as contracts speak of it.
pub open spec fn outcome<T>(r: Result<T, RootfsError>) -> Result<(), Trouble> {
    match r {
        Ok(_) => Ok(()),
        Err(e) => Err(e@),
    }
}

impl<T> Progress<T> {
    /// Where the operation stands, whatever it gives in the end.
    pub open spec fn stands(self) -> Stand<Deed, Result<(), Trouble>> {
        match self {
            Progress::Ask(task) => Stand::Ask(task@),
            Progress::Over(r) => Stand::Over(outcome(r)),
        }
    }
}

impl Steps<Task, Answer> {
    fn ask(&mut self, task: Task) -> (r: Answer)
        requires
            old(self).wf(),
        ensures
            final(self).wf(),
            (final(self)@, r@) == old(self)@.ask(task@),
    {
        self.put_question(task, Answer::Done)
    }

    fn tell(&mut self, task: Task)
        requires
            old(self).wf(),
        ensures
            final(self).wf(),
            final(self)@ == old(self)@.tell(task@),
    {
        self.ask(task);
    }

    fn finish<T>(self, result: Result<T, RootfsError>) -> (r: Progress<T>)
        requires
            self.wf(),
        ensures
            r.stands() == stand((self@, outcome(result))),
            r matches Progress::Over(given) ==> given == result,
    {
        match self.pending() {
            Some(task) => Progress::Ask(task),
            None => Progress::Over(result),
        }
    }
}

/// What a program printed, with its exit code and its status in words.
pub struct Printed {
    pub code: Option<i32>,
    pub status: Seq<char>,
    pub stdout: Seq<u8>,
    pub stderr: Seq<u8>,
}

/// What a program printed, with its exit code and its status in words.
#[derive(Debug)]
pub struct Output {
    pub code: Option<i32>,
    pub status: String,
    pub stdout: Vec<u8>,
    pub stderr: Vec<u8>,
}

impl View for Output {
    type V = Printed;

    open spec fn view(&self) -> Printed {
        Printed {
            code: self.code,
            status: self.status@,
            stdout: self.stdout@,
            stderr: self.stderr@,
        }
    }
}

/// What a program printed, or why it could not be started.
pub open spec fn printed(r: Result<Output, RootfsError>) -> Result<Printed, Trouble> {
    match r {
        Ok(output) => Ok(output@),
        Err(e) => Err(e@),
    }
}

impl Dialog<Deed, News> {
    /// Runs a program on the disk; `args` come before the disk's path.
    pub open spec fn tool(self, rootfs: Seq<char>, program: Seq<char>, args: Seq<Seq<char>>) -> (
        Self,
        Result<Printed, Seq<char>>,
    ) {
        let (next, news) = self.ask(Deed::Run { program, args: args.push(rootfs) });
        (
            next,
            match news {
                News::Ran { code, status, stdout, stderr } => Ok(
                    Printed { code, status, stdout, stderr },
                ),
                _ => Err(news.reason()),
            },
        )
    }

    /// Runs one command of `debugfs` on the disk.
    pub open spec fn debugfs(self, rootfs: Seq<char>, command: Seq<char>) -> (
        Self,
        Result<Printed, Trouble>,
    ) {
        let (next, ran) = self.tool(rootfs, "debugfs"@, seq!["-w"@, "-R"@, command]);
        (
            next,
            match ran {
                Ok(output) => Ok(output),
                Err(source) => Err(
                    Trouble::ResizeTool { path: rootfs, tool: "debugfs"@, source },
                ),
            },
        )
    }

    /// Removes a file of the guest. `debugfs` does not say whether it did, so nobody asks.
    pub open spec fn remove(self, rootfs: Seq<char>, guest_path: Seq<char>) -> Self {
        self.debugfs(rootfs, "rm "@ + guest_path).0
    }

    /// Sets the mode of a file of the guest.
    pub open spec fn set_mode(
        self,
        rootfs: Seq<char>,
        guest_path: Seq<char>,
        mode: Seq<char>,
    ) -> Self {
        self.debugfs(rootfs, "set_inode_field "@ + guest_path + " mode "@ + mode).0
    }

    /// Whether there is something at a path of the guest.
    pub open spec fn exists_in(self, rootfs: Seq<char>, guest_path: Seq<char>) -> (Self, bool) {
        let (next, ran) = self.debugfs(rootfs, "stat "@ + guest_path);
        (
            next,
            match ran {
                Ok(output) => {
                    let text = utf8_lossy(output.stdout) + utf8_lossy(output.stderr);
                    !contains(text, "File not found"@) && !contains(
                        ascii_lower(text),
                        "doesn't exist"@,
                    )
                },
                Err(_) => false,
            },
        )
    }

    /// Writes a file of the guest, in place of what was there. `debugfs` exits with
    /// success whatever happened, so its word for a new file is looked for.
    pub open spec fn write(self, rootfs: Seq<char>, guest_path: Seq<char>, content: Seq<u8>) -> (
        Self,
        Result<(), Trouble>,
    ) {
        let staging = with_extension(rootfs, "specialize.tmp"@);
        let (staged, news) = self.ask(Deed::Write { path: staging, bytes: content });
        if news != News::Done {
            (
                staged,
                Err(
                    Trouble::Specialize {
                        path: rootfs,
                        detail: "failed to stage content for "@ + guest_path + ": "@
                            + news.reason(),
                    },
                ),
            )
        } else {
            let (ran, output) = staged.remove(rootfs, guest_path).debugfs(
                rootfs,
                "write "@ + staging + " "@ + guest_path,
            );
            (
                ran.tell(Deed::Remove { path: staging }),
                match output {
                    Err(trouble) => Err(trouble),
                    Ok(output) => if contains(utf8_lossy(output.stdout), "Allocated inode"@) {
                        Ok(())
                    } else {
                        Err(
                            Trouble::Specialize {
                                path: rootfs,
                                detail: "debugfs did not confirm writing "@ + guest_path + ": "@
                                    + utf8_lossy(output.stderr),
                            },
                        )
                    },
                },
            )
        }
    }

    /// Copies a file of the guest to the host. `debugfs` does not say whether it did, so a
    /// file that is not empty is looked for.
    pub open spec fn dump(self, rootfs: Seq<char>, guest_path: Seq<char>, dest: Seq<char>) -> (
        Self,
        Result<(), Trouble>,
    ) {
        let (ran, output) = self.debugfs(rootfs, "dump "@ + guest_path + " "@ + dest);
        match output {
            Err(trouble) => (ran, Err(trouble)),
            Ok(output) => {
                let (looked, news) = ran.ask(Deed::Length { path: dest });
                match news {
                    News::Length(length) if length > 0 => (looked, Ok(())),
                    _ => (
                        looked.tell(Deed::Remove { path: dest }),
                        Err(
                            Trouble::Specialize {
                                path: rootfs,
                                detail: "debugfs did not produce a non-empty "@ + dest + " for "@
                                    + guest_path + ": "@ + utf8_lossy(output.stderr),
                            },
                        ),
                    ),
                }
            },
        }
    }

    /// Has the filesystem of a guest that was stopped abruptly recovered, by safe repairs
    /// alone.
    pub open spec fn recover(self, rootfs: Seq<char>) -> (Self, Result<(), Trouble>) {
        let (next, ran) = self.tool(rootfs, "e2fsck"@, seq!["-p"@]);
        (
            next,
            match ran {
                Err(source) => Err(Trouble::RecoveryTool { path: rootfs, source }),
                Ok(output) => if output.code == Some(0i32) || output.code == Some(1i32) {
                    Ok(())
                } else {
                    Err(
                        Trouble::RecoveryFailed {
                            path: rootfs,
                            detail: recovery_detail(
                                trim(utf8_lossy(output.stdout)),
                                trim(utf8_lossy(output.stderr)),
                                output.status,
                            ),
                        },
                    )
                },
            },
        )
    }
}

/// What is said of a recovery that failed: what it printed, else its status.
pub open spec fn recovery_detail(
    stdout: Seq<char>,
    stderr: Seq<char>,
    status: Seq<char>,
) -> Seq<char> {
    if stdout.len() > 0 && stderr.len() > 0 {
        stdout + "\n"@ + stderr
    } else if stdout.len() > 0 {
        stdout
    } else if stderr.len() > 0 {
        stderr
    } else {
        "e2fsck exited with status "@ + status
    }
}

impl Steps<Task, Answer> {
    fn run_tool(&mut self, rootfs: &str, program: &'static str, args: &[&str]) -> (r: Result<
        Output,
        String,
    >)
        requires
            old(self).wf(),
        ensures
            final(self).wf(),
            (
                final(self)@,
                match r {
                    Ok(output) => Ok::<Printed, Seq<char>>(output@),
                    Err(why) => Err(why@),
                },
            ) == old(self)@.tool(rootfs@, program@, texts(args@)),
    {
        let mut all = to_strings(args);
        let ghost given = views(all@);
        all.push(rootfs.to_owned());
        assert(views(all@) =~= texts(args@).push(rootfs@));
        let answer = self.ask(Task::Run { program, args: all });
        match answer {
            Answer::Ran { code, status, stdout, stderr } => Ok(
                Output { code, status, stdout, stderr },
            ),
            _ => Err(answer.reason()),
        }
    }

    /// Runs one command of `debugfs` on the disk.
    pub(crate) fn run_debugfs(&mut self, rootfs: &str, command: &str) -> (r: Result<
        Output,
        RootfsError,
    >)
        requires
            old(self).wf(),
        ensures
            final(self).wf(),
            (final(self)@, printed(r)) == old(self)@.debugfs(rootfs@, command@),
    {
        let args = ["-w", "-R", command];
        assert(texts(args@) =~= seq!["-w"@, "-R"@, command@]);
        match self.run_tool(rootfs, "debugfs", &args) {
            Ok(output) => Ok(output),
            Err(source) => Err(
                RootfsError::ResizeTool { path: rootfs.to_owned(), tool: "debugfs", source },
            ),
        }
    }

    /// Removes a file of the guest, where it is there.
    pub(crate) fn remove_from_image(&mut self, rootfs: &str, guest_path: &str)
        requires
            old(self).wf(),
        ensures
            final(self).wf(),
            final(self)@ == old(self)@.remove(rootfs@, guest_path@),
    {
        let _ = self.run_debugfs(rootfs, &"rm ".to_owned().concat(guest_path));
    }

    /// Sets the mode of a file of the guest.
    pub(crate) fn set_guest_file_mode(&mut self, rootfs: &str, guest_path: &str, mode: &str)
        requires
            old(self).wf(),
        ensures
            final(self).wf(),
            final(self)@ == old(self)@.set_mode(rootfs@, guest_path@, mode@),
    {
        let _ = self.run_debugfs(
            rootfs,
            &"set_inode_field ".to_owned().concat(guest_path).concat(" mode ").concat(mode),
        );
    }

    /// Whether there is something at a path of the guest.
    pub(crate) fn guest_path_exists(&mut self, rootfs: &str, guest_path: &str) -> (r: bool)
        requires
            old(self).wf(),
        ensures
            final(self).wf(),
            (final(self)@, r) == old(self)@.exists_in(rootfs@, guest_path@),
    {
        match self.run_debugfs(rootfs, &"stat ".to_owned().concat(guest_path)) {
            Ok(output) => {
                let text = decode_lossy(&output.stdout).concat(&decode_lossy(&output.stderr));
                let missing = has(&text, "File not found") || has(
                    &lowered(&text),
                    "doesn't exist",
                );
                !missing
            },
            Err(_) => false,
        }
    }

    /// Writes a file of the guest, in place of what was there.
    pub(crate) fn write_into_image(&mut self, rootfs: &str, guest_path: &str, content: Vec<u8>) -> (r:
        Result<(), RootfsError>)
        requires
            old(self).wf(),
        ensures
            final(self).wf(),
            (final(self)@, outcome(r)) == old(self)@.write(rootfs@, guest_path@, content@),
    {
        let staging = path_with_extension(rootfs, "specialize.tmp");
        let answer = self.ask(Task::Write { path: staging.clone(), bytes: content });
        match answer {
            Answer::Done => {},
            _ => {
                return Err(
                    RootfsError::Specialize {
                        path: rootfs.to_owned(),
                        detail: "failed to stage content for ".to_owned().concat(
                            guest_path,
                        ).concat(": ").concat(&answer.reason()),
                    },
                );
            },
        }
        self.remove_from_image(rootfs, guest_path);
        let output = self.run_debugfs(
            rootfs,
            &"write ".to_owned().concat(&staging).concat(" ").concat(guest_path),
        );
        self.tell(Task::Remove { path: staging });
        match output {
            Err(e) => Err(e),
            Ok(output) => if has(&decode_lossy(&output.stdout), "Allocated inode") {
                Ok(())
            } else {
                Err(
                    RootfsError::Specialize {
                        path: rootfs.to_owned(),
                        detail: "debugfs did not confirm writing ".to_owned().concat(
                            guest_path,
                        ).concat(": ").concat(&decode_lossy(&output.stderr)),
                    },
                )
            },
        }
    }

    /// Copies a file of the guest to the host.
    pub(crate) fn dump_from_image(&mut self, rootfs: &str, guest_path: &str, dest: &str) -> (r: Result<
        (),
        RootfsError,
    >)
        requires
            old(self).wf(),
        ensures
            final(self).wf(),
            (final(self)@, outcome(r)) == old(self)@.dump(rootfs@, guest_path@, dest@),
    {
        let output = match self.run_debugfs(
            rootfs,
            &"dump ".to_owned().concat(guest_path).concat(" ").concat(dest),
        ) {
            Ok(output) => output,
            Err(e) => return Err(e),
        };
        if let Answer::Length(length) = self.ask(Task::Length { path: dest.to_owned() }) {
            if length > 0 {
                return Ok(());
            }
        }
        self.tell(Task::Remove { path: dest.to_owned() });
        Err(
            RootfsError::Specialize {
                path: rootfs.to_owned(),
                detail: "debugfs did not produce a non-empty ".to_owned().concat(dest).concat(
                    " for ",
                ).concat(guest_path).concat(": ").concat(&decode_lossy(&output.stderr)),
            },
        )
    }

    /// Has the filesystem recovered, by safe repairs alone.
    pub(crate) fn recover_before_specialization(&mut self, rootfs: &str) -> (r: Result<
        (),
        RootfsError,
    >)
        requires
            old(self).wf(),
        ensures
            final(self).wf(),
            (final(self)@, outcome(r)) == old(self)@.recover(rootfs@),
    {
        let args = ["-p"];
        assert(texts(args@) =~= seq!["-p"@]);
        let output = match self.run_tool(rootfs, "e2fsck", &args) {
            Ok(output) => output,
            Err(source) => return Err(
                RootfsError::RecoveryTool { path: rootfs.to_owned(), source },
            ),
        };
        if let Some(code) = output.code {
            if code == 0 || code == 1 {
                return Ok(());
            }
        }
        let stderr = trimmed(&decode_lossy(&output.stderr));
        let stdout = trimmed(&decode_lossy(&output.stdout));
        let detail = if !stdout.as_str().is_empty() && !stderr.as_str().is_empty() {
            stdout.concat("\n").concat(&stderr)
        } else if !stdout.as_str().is_empty() {
            stdout
        } else if !stderr.as_str().is_empty() {
            stderr
        } else {
            "e2fsck exited with status ".to_owned().concat(&output.status)
        };
        Err(RootfsError::RecoveryFailed { path: rootfs.to_owned(), detail })
    }
}

} // verus!
