//! Gives a merged container tree what a MicroVM needs to boot: an init, a DHCP
//! client, the readiness line and the metrics agent.
//!
//! The decisions are here; the file operations are the caller's. A run is a
//! function of the answers to the questions asked so far: it either names the
//! next [`Request`] or comes to its end. Whatever it changed is on record, so that
//! a run that fails can be undone.

use vstd::prelude::*;

use super::{GuestPathViolation, ResolveError};
#[allow(unused_imports)]
use super::Refusal;
#[allow(unused_imports)]
use crate::files::{agrees, answers};
use crate::path;
use crate::text::{
    chars_of, has_prefix, joined_strings, lines_of, same, split_on, string_of, trimmed,
    trimmed_start_of,
};
#[allow(unused_imports)]
use crate::text::{
    lines, opt_text, opt_view, split, starts_with, texts, trim, trim_start_of, views,
};
#[allow(unused_imports)]
use vstd::utf8::encode_utf8;

verus! {

/// What the kernel runs first when its command line names no init.
pub const GUEST_INIT: &'static str = "/sbin/init";

/// The injected toolbox. Its last component must be `busybox`: the toolbox takes
/// the name it is called by for the tool to run.
pub const GUEST_TOOLBOX: &'static str = "/etc/firecrab/busybox";

/// The job table of the init.
pub const GUEST_INITTAB: &'static str = "/etc/inittab";

/// What the init runs once, before anything else.
pub const GUEST_BOOT_SCRIPT: &'static str = "/etc/firecrab/rc.boot";

/// The console where the image has no getty.
pub const GUEST_CONSOLE_SCRIPT: &'static str = "/etc/firecrab/rc.console";

/// The banner of the console.
pub const GUEST_MOTD: &'static str = "/etc/motd";

/// What the DHCP client calls to apply an address.
pub const GUEST_DHCP_SCRIPT: &'static str = "/etc/firecrab/dhcp.script";

/// The directory of the programs that run as services.
pub const GUEST_SERVICES: &'static str = "/etc/firecrab/services.d";

/// Where a getty may lie.
pub const GUEST_AGETTY_CANDIDATES: [&'static str; 2] = ["/sbin/agetty", "/usr/sbin/agetty"];

/// Where bash may lie.
pub const GUEST_BASH_CANDIDATES: [&'static str; 2] = ["/bin/bash", "/usr/bin/bash"];

/// How many symbolic links may be followed on the way to one path.
pub const SYMLINK_HOP_LIMIT: usize = 40;

/// The tools that are put on the path where the image lacks them.
pub const PATH_APPLETS: [&'static str; 8] = [
    "ping",
    "ping6",
    "traceroute",
    "wget",
    "nc",
    "nslookup",
    "vi",
    "sh",
];

/// The directories that a login shell searches.
pub const PATH_LOOKUP_DIRS: [&'static str; 6] = [
    "/usr/local/sbin",
    "/usr/local/bin",
    "/usr/sbin",
    "/usr/bin",
    "/sbin",
    "/bin",
];

/// One file operation, or another question to the caller.
#[derive(Debug)]
pub enum Request {
    /// Whether the caller no longer waits: `Yes` or `No`.
    Cancelled,
    /// A name that no other answer has: `Text`.
    Token,
    /// What is at a path, without following a link: `Directory`, `Link`, `Other` or
    /// `Missing`.
    Inspect(String),
    /// Where a link points: `Text`.
    ReadLink(String),
    /// Whether a regular file or a link is at a path: `Yes` or `No`.
    IsFileOrLink(String),
    /// Whether a directory or a link is at a path: `Yes` or `No`.
    IsDirOrLink(String),
    /// The bytes of a file: `Bytes`.
    ReadFile(String),
    /// The text of a file: `Text` or `Missing`.
    ReadText(String),
    /// Make a directory with exactly this mode: `Done`, or `Partial` where it was
    /// made and its mode not set.
    CreateDir { path: String, mode: u32 },
    /// Make a directory and those it lies in, where they are missing: `Done`.
    CreateDirs(String),
    /// Set a mode: `Done`.
    SetMode { path: String, mode: u32 },
    /// Move what is at one path to another: `Done`.
    Rename { from: String, to: String },
    /// Make a file that is not there yet with exactly this mode: `Done`, or
    /// `Partial` where it was made and not finished.
    CreateFile { path: String, contents: Vec<u8>, mode: u32 },
    /// Make a symbolic link: `Done`.
    CreateLink { target: String, path: String },
    /// Write a file anew: `Done`.
    Overwrite { path: String, contents: Vec<u8> },
}

/// [`Request`] as contracts speak of it.
pub enum Question {
    Cancelled,
    Token,
    Inspect(Seq<char>),
    ReadLink(Seq<char>),
    IsFileOrLink(Seq<char>),
    IsDirOrLink(Seq<char>),
    ReadFile(Seq<char>),
    ReadText(Seq<char>),
    CreateDir { path: Seq<char>, mode: u32 },
    CreateDirs(Seq<char>),
    SetMode { path: Seq<char>, mode: u32 },
    Rename { from: Seq<char>, to: Seq<char> },
    CreateFile { path: Seq<char>, contents: Seq<u8>, mode: u32 },
    CreateLink { target: Seq<char>, path: Seq<char> },
    Overwrite { path: Seq<char>, contents: Seq<u8> },
}

impl View for Request {
    type V = Question;

    open spec fn view(&self) -> Question {
        match self {
            Request::Cancelled => Question::Cancelled,
            Request::Token => Question::Token,
            Request::Inspect(path) => Question::Inspect(path@),
            Request::ReadLink(path) => Question::ReadLink(path@),
            Request::IsFileOrLink(path) => Question::IsFileOrLink(path@),
            Request::IsDirOrLink(path) => Question::IsDirOrLink(path@),
            Request::ReadFile(path) => Question::ReadFile(path@),
            Request::ReadText(path) => Question::ReadText(path@),
            Request::CreateDir { path, mode } => Question::CreateDir { path: path@, mode: *mode },
            Request::CreateDirs(path) => Question::CreateDirs(path@),
            Request::SetMode { path, mode } => Question::SetMode { path: path@, mode: *mode },
            Request::Rename { from, to } => Question::Rename { from: from@, to: to@ },
            Request::CreateFile { path, contents, mode } => Question::CreateFile {
                path: path@,
                contents: contents@,
                mode: *mode,
            },
            Request::CreateLink { target, path } => Question::CreateLink {
                target: target@,
                path: path@,
            },
            Request::Overwrite { path, contents } => Question::Overwrite {
                path: path@,
                contents: contents@,
            },
        }
    }
}

/// What the caller answers to a [`Request`].
#[derive(Debug)]
pub enum Answer {
    Yes,
    No,
    Directory { mode: u32 },
    Link,
    Other,
    Missing,
    Text(String),
    Bytes(Vec<u8>),
    Done,
    /// The path was made, and what had to follow failed.
    Partial { while_writing: bool, message: String },
    /// The operation failed.
    Failed(String),
}

/// Why an answer is no success.
pub open spec fn complaint(answer: Answer) -> Seq<char> {
    match answer {
        Answer::Failed(message) => message@,
        Answer::Partial { message, .. } => message@,
        _ => "unexpected answer"@,
    }
}

fn complaint_of(answer: &Answer) -> (r: String)
    ensures
        r@ == complaint(*answer),
{
    match answer {
        Answer::Failed(message) => message.clone(),
        Answer::Partial { message, .. } => message.clone(),
        _ => "unexpected answer".to_owned(),
    }
}

/// One step of undoing a run.
#[derive(Debug)]
pub enum Undo {
    /// Remove the file, link or empty directory at a path; nothing if none is there.
    Remove(String),
    /// Move what is at one path back to another.
    Rename { from: String, to: String },
    /// Write a file as it was.
    Rewrite { path: String, contents: Vec<u8> },
    /// Set a mode as it was.
    SetMode { path: String, mode: u32 },
}

/// [`Undo`] as contracts speak of it.
pub enum Reversal {
    Remove(Seq<char>),
    Rename { from: Seq<char>, to: Seq<char> },
    Rewrite { path: Seq<char>, contents: Seq<u8> },
    SetMode { path: Seq<char>, mode: u32 },
}

impl View for Undo {
    type V = Reversal;

    open spec fn view(&self) -> Reversal {
        match self {
            Undo::Remove(path) => Reversal::Remove(path@),
            Undo::Rename { from, to } => Reversal::Rename { from: from@, to: to@ },
            Undo::Rewrite { path, contents } => Reversal::Rewrite {
                path: path@,
                contents: contents@,
            },
            Undo::SetMode { path, mode } => Reversal::SetMode { path: path@, mode: *mode },
        }
    }
}

/// The steps that `undo` stand for.
pub open spec fn reversals(undo: Seq<Undo>) -> Seq<Reversal> {
    undo.map_values(|u: Undo| u@)
}

/// What a run has changed, in the order in which it did, as contracts speak of it.
pub struct Log {
    /// Paths that were made.
    pub created: Seq<Seq<char>>,
    /// Paths that were moved aside: where to, and from where.
    pub displaced: Seq<(Seq<char>, Seq<char>)>,
    /// Files that were written anew, with what they held.
    pub rewritten: Seq<(Seq<char>, Seq<u8>)>,
    /// Directories that were made writable, with their modes before.
    pub chmodded: Seq<(Seq<char>, u32)>,
}

impl Log {
    /// Nothing was changed.
    pub open spec fn empty() -> Log {
        Log {
            created: Seq::empty(),
            displaced: Seq::empty(),
            rewritten: Seq::empty(),
            chmodded: Seq::empty(),
        }
    }

    /// Removing what was made, newest first.
    pub open spec fn removals(self) -> Seq<Reversal> {
        self.created.reverse().map_values(|p: Seq<char>| Reversal::Remove(p))
    }

    /// Moving back what was moved aside, newest first.
    pub open spec fn put_backs(self) -> Seq<Reversal> {
        self.displaced.reverse().map_values(
            |d: (Seq<char>, Seq<char>)| Reversal::Rename { from: d.0, to: d.1 },
        )
    }

    /// Writing back what was written anew, newest first.
    pub open spec fn rewrites(self) -> Seq<Reversal> {
        self.rewritten.reverse().map_values(
            |w: (Seq<char>, Seq<u8>)| Reversal::Rewrite { path: w.0, contents: w.1 },
        )
    }

    /// Setting the modes as they were, newest first.
    pub open spec fn modes(self) -> Seq<Reversal> {
        self.chmodded.reverse().map_values(
            |c: (Seq<char>, u32)| Reversal::SetMode { path: c.0, mode: c.1 },
        )
    }

    /// Undoing everything.
    pub open spec fn restore(self) -> Seq<Reversal> {
        self.removals() + self.put_backs() + self.rewrites() + self.modes()
    }
}

/// What a run has changed, so that it can be undone.
#[derive(Debug)]
pub struct InjectedPaths {
    created: Vec<String>,
    displaced: Vec<(String, String)>,
    rewritten: Vec<(String, Vec<u8>)>,
    chmodded: Vec<(String, u32)>,
    kept: bool,
}

impl View for InjectedPaths {
    type V = Log;

    closed spec fn view(&self) -> Log {
        Log {
            created: views(self.created@),
            displaced: self.displaced@.map_values(|d: (String, String)| (d.0@, d.1@)),
            rewritten: self.rewritten@.map_values(|w: (String, Vec<u8>)| (w.0@, w.1@)),
            chmodded: self.chmodded@.map_values(|c: (String, u32)| (c.0@, c.1)),
        }
    }
}

impl InjectedPaths {
    /// Whether everything stays.
    pub closed spec fn is_kept(&self) -> bool {
        self.kept
    }

    /// Nothing was changed yet.
    pub fn new() -> (r: Self)
        ensures
            r@ == Log::empty(),
            !r.is_kept(),
    {
        let r = InjectedPaths {
            created: Vec::new(),
            displaced: Vec::new(),
            rewritten: Vec::new(),
            chmodded: Vec::new(),
            kept: false,
        };
        assert(r@.created =~= Seq::empty());
        assert(r@.displaced =~= Seq::empty());
        assert(r@.rewritten =~= Seq::empty());
        assert(r@.chmodded =~= Seq::empty());
        r
    }

    /// Records a path that was made.
    pub fn created(&mut self, path: String)
        ensures
            final(self)@ == (Log { created: old(self)@.created.push(path@), ..old(self)@ }),
            final(self).is_kept() == old(self).is_kept(),
    {
        self.created.push(path);
        assert(self@.created =~= old(self)@.created.push(path@));
    }

    /// Records a path that was moved aside.
    pub fn displaced(&mut self, backup: String, original: String)
        ensures
            final(self)@ == (Log {
                displaced: old(self)@.displaced.push((backup@, original@)),
                ..old(self)@
            }),
            final(self).is_kept() == old(self).is_kept(),
    {
        self.displaced.push((backup, original));
        assert(self@.displaced =~= old(self)@.displaced.push((backup@, original@)));
    }

    /// Records a file that is written anew, with what it held.
    pub fn rewritten(&mut self, path: String, contents: Vec<u8>)
        ensures
            final(self)@ == (Log {
                rewritten: old(self)@.rewritten.push((path@, contents@)),
                ..old(self)@
            }),
            final(self).is_kept() == old(self).is_kept(),
    {
        self.rewritten.push((path, contents));
        assert(self@.rewritten =~= old(self)@.rewritten.push((path@, contents@)));
    }

    /// Records a directory that was made writable, with its mode before.
    pub fn chmodded(&mut self, path: String, mode: u32)
        ensures
            final(self)@ == (Log {
                chmodded: old(self)@.chmodded.push((path@, mode)),
                ..old(self)@
            }),
            final(self).is_kept() == old(self).is_kept(),
    {
        self.chmodded.push((path, mode));
        assert(self@.chmodded =~= old(self)@.chmodded.push((path@, mode)));
    }

    /// Everything stays: the run succeeded.
    pub fn keep(&mut self)
        ensures
            final(self)@ == old(self)@,
            final(self).is_kept(),
    {
        self.kept = true;
    }

    /// The steps that set the modes of directories as they were; they come at the
    /// end of every run.
    pub fn restore_modes(&mut self) -> (r: Vec<Undo>)
        ensures
            reversals(r@) == old(self)@.modes(),
            final(self)@ == (Log { chmodded: Seq::empty(), ..old(self)@ }),
            final(self).is_kept() == old(self).is_kept(),
    {
        let mut out: Vec<Undo> = Vec::new();
        let ghost all = self@;
        while self.chmodded.len() > 0
            invariant
                self@ == (Log { chmodded: self@.chmodded, ..all }),
                self.is_kept() == old(self).is_kept(),
                self@.chmodded.len() <= all.chmodded.len(),
                self@.chmodded == all.chmodded.take(self@.chmodded.len() as int),
                out@.len() == all.chmodded.len() - self@.chmodded.len(),
                forall|j: int|
                    0 <= j < out@.len() ==> (#[trigger] out@[j])@ == all.modes()[j],
            decreases self.chmodded@.len(),
        {
            let ghost before = self@.chmodded;
            if let Some((path, mode)) = self.chmodded.pop() {
                assert(self@.chmodded =~= before.drop_last());
                assert(before.last() == (path@, mode));
                assert(all.modes()[out@.len() as int] == (Reversal::SetMode { path: path@, mode }));
                out.push(Undo::SetMode { path, mode });
            }
        }
        assert(reversals(out@) =~= all.modes());
        assert(self@.chmodded =~= Seq::empty());
        out
    }

    /// The steps that undo the run; none once everything stays.
    pub fn restore(&mut self) -> (r: Vec<Undo>)
        ensures
            old(self).is_kept() ==> reversals(r@) == Seq::<Reversal>::empty() && final(self)@
                == old(self)@,
            !old(self).is_kept() ==> reversals(r@) == old(self)@.restore() && final(self)@
                == Log::empty(),
            final(self).is_kept() == old(self).is_kept(),
    {
        let mut out: Vec<Undo> = Vec::new();
        if self.kept {
            assert(reversals(out@) =~= Seq::<Reversal>::empty());
            return out;
        }
        let ghost all = self@;
        while self.created.len() > 0
            invariant
                self@ == (Log { created: self@.created, ..all }),
                self.is_kept() == old(self).is_kept(),
                self@.created.len() <= all.created.len(),
                self@.created == all.created.take(self@.created.len() as int),
                out@.len() == all.created.len() - self@.created.len(),
                forall|j: int|
                    0 <= j < out@.len() ==> (#[trigger] out@[j])@ == all.removals()[j],
            decreases self.created@.len(),
        {
            let ghost before = self@.created;
            if let Some(path) = self.created.pop() {
                assert(self@.created =~= before.drop_last());
                assert(before.last() == path@);
                assert(all.removals()[out@.len() as int] == Reversal::Remove(path@));
                out.push(Undo::Remove(path));
            }
        }
        assert(self@.created =~= Seq::empty());
        let ghost first = out@;
        assert(reversals(first) =~= all.removals());
        let mut returned: Vec<Undo> = Vec::new();
        while self.displaced.len() > 0
            invariant
                self@ == (Log { created: Seq::empty(), displaced: self@.displaced, ..all }),
                self.is_kept() == old(self).is_kept(),
                self@.displaced.len() <= all.displaced.len(),
                self@.displaced == all.displaced.take(self@.displaced.len() as int),
                returned@.len() == all.displaced.len() - self@.displaced.len(),
                forall|j: int|
                    0 <= j < returned@.len() ==> (#[trigger] returned@[j])@ == all.put_backs()[j],
            decreases self.displaced@.len(),
        {
            let ghost before = self@.displaced;
            if let Some((backup, original)) = self.displaced.pop() {
                assert(self@.displaced =~= before.drop_last());
                assert(before.last() == (backup@, original@));
                assert(all.put_backs()[returned@.len() as int] == (Reversal::Rename {
                    from: backup@,
                    to: original@,
                }));
                returned.push(Undo::Rename { from: backup, to: original });
            }
        }
        assert(self@.displaced =~= Seq::empty());
        assert(reversals(returned@) =~= all.put_backs());
        let mut rewrites: Vec<Undo> = Vec::new();
        while self.rewritten.len() > 0
            invariant
                self@ == (Log {
                    created: Seq::empty(),
                    displaced: Seq::empty(),
                    rewritten: self@.rewritten,
                    ..all
                }),
                self.is_kept() == old(self).is_kept(),
                self@.rewritten.len() <= all.rewritten.len(),
                self@.rewritten == all.rewritten.take(self@.rewritten.len() as int),
                rewrites@.len() == all.rewritten.len() - self@.rewritten.len(),
                forall|j: int|
                    0 <= j < rewrites@.len() ==> (#[trigger] rewrites@[j])@ == all.rewrites()[j],
            decreases self.rewritten@.len(),
        {
            let ghost before = self@.rewritten;
            if let Some((path, contents)) = self.rewritten.pop() {
                assert(self@.rewritten =~= before.drop_last());
                assert(before.last() == (path@, contents@));
                assert(all.rewrites()[rewrites@.len() as int] == (Reversal::Rewrite {
                    path: path@,
                    contents: contents@,
                }));
                rewrites.push(Undo::Rewrite { path, contents });
            }
        }
        assert(self@.rewritten =~= Seq::empty());
        assert(reversals(rewrites@) =~= all.rewrites());
        let mut modes = self.restore_modes();
        let ghost g_returned = returned@;
        let ghost g_rewrites = rewrites@;
        let ghost g_modes = modes@;
        out.append(&mut returned);
        out.append(&mut rewrites);
        out.append(&mut modes);
        assert(out@ =~= first + g_returned + g_rewrites + g_modes);
        assert(reversals(out@) =~= all.restore());
        out
    }
}

/// Why a run stopped before its end, as contracts speak of it.
pub enum Stop {
    /// A question has to be answered first.
    Ask(Question),
    /// The run failed.
    Fail(Refusal),
}

/// Why a run stopped before its end.
#[derive(Debug)]
pub enum Halt {
    /// A question has to be answered first.
    Ask(Request),
    /// The run failed.
    Fail(ResolveError),
}

impl View for Halt {
    type V = Stop;

    open spec fn view(&self) -> Stop {
        match self {
            Halt::Ask(request) => Stop::Ask(request@),
            Halt::Fail(error) => Stop::Fail(error@),
        }
    }
}

/// A run under way, as contracts speak of it: the answers that there are, how many
/// of them were used, the questions with their answers so far, what is on record, and
/// why the run stopped. A run that has stopped does nothing more.
pub struct Run {
    pub answers: Seq<Answer>,
    pub at: int,
    pub trace: Seq<(Question, Answer)>,
    pub log: Log,
    pub stop: Option<Stop>,
}

/// The path of a place in the tree, given by its components.
pub open spec fn place(tree: Seq<char>, components: Seq<Seq<char>>) -> Seq<char>
    decreases components.len(),
{
    if components.len() == 0 {
        tree
    } else {
        path::join(place(tree, components.drop_last()), components.last())
    }
}

/// The components of a path below the root of the guest: empty ones and `.` are
/// none.
pub open spec fn steps(pieces: Seq<Seq<char>>) -> Seq<Seq<char>> {
    path::ordinary(pieces, false)
}

/// Where the last component of a guest path begins.
pub open spec fn name_start(guest: Seq<char>) -> int
    decreases guest.len(),
{
    if guest.len() == 0 || guest.last() == '/' {
        guest.len() as int
    } else {
        name_start(guest.drop_last())
    }
}

/// The last component of a guest path.
pub open spec fn guest_name(guest: Seq<char>) -> Seq<char> {
    guest.skip(name_start(guest))
}

/// The components of the directory that a guest path lies in.
pub open spec fn guest_parent(guest: Seq<char>) -> Seq<Seq<char>> {
    steps(split(guest.take(name_start(guest)), '/'))
}

/// A path of the guest without the `/` in front.
pub open spec fn relative(guest: Seq<char>) -> Seq<char> {
    trim_start_of(guest, '/')
}

/// Where a guest path lies in the tree, taken as it is written.
pub open spec fn below(tree: Seq<char>, guest: Seq<char>) -> Seq<char> {
    path::join(tree, relative(guest))
}

/// Whether a path is absolute.
pub open spec fn is_absolute(p: Seq<char>) -> bool {
    p.len() > 0 && p[0] == '/'
}

/// The name that a path is moved aside to: `token` takes the place of its extension.
pub open spec fn backup_name(name: Seq<char>, token: Seq<char>) -> Seq<char> {
    stem(name) + ".firecrab-"@ + token
}

/// A file name without its extension: the last `.` and what follows it, unless the
/// name begins with that `.`.
pub open spec fn stem(name: Seq<char>) -> Seq<char> {
    let dot = last_dot(name);
    if dot > 0 {
        name.take(dot)
    } else {
        name
    }
}

/// The index of the last `.`, or -1.
pub open spec fn last_dot(name: Seq<char>) -> int
    decreases name.len(),
{
    if name.len() == 0 {
        -1
    } else if name.last() == '.' {
        name.len() - 1
    } else {
        last_dot(name.drop_last())
    }
}

impl Run {
    /// Asks a question.
    pub open spec fn ask(self, question: Question) -> (Run, Answer) {
        if self.stop is Some {
            (self, Answer::No)
        } else if self.at < self.answers.len() {
            let answer = self.answers[self.at];
            (Run { at: self.at + 1, trace: self.trace.push((question, answer)), ..self }, answer)
        } else {
            (Run { stop: Some(Stop::Ask(question)), ..self }, Answer::No)
        }
    }

    /// Ends the run.
    pub open spec fn fail(self, refusal: Refusal) -> Run {
        if self.stop is Some {
            self
        } else {
            Run { stop: Some(Stop::Fail(refusal)), ..self }
        }
    }

    /// Ends the run after a file operation that failed.
    pub open spec fn fail_io(self, operation: Seq<char>, path: Seq<char>, answer: Answer) -> Run {
        self.fail(Refusal::InjectionIo { operation, path, source: complaint(answer) })
    }

    /// Records something, unless the run has stopped.
    pub open spec fn record(self, log: Log) -> Run {
        if self.stop is Some {
            self
        } else {
            Run { log, ..self }
        }
    }

    /// Records a path that was made.
    pub open spec fn record_created(self, path: Seq<char>) -> Run {
        self.record(Log { created: self.log.created.push(path), ..self.log })
    }

    /// Stops where the caller no longer waits.
    pub open spec fn check(self, tree: Seq<char>) -> Run {
        let (after, answer) = self.ask(Question::Cancelled);
        if answer is No {
            after
        } else {
            after.fail(Refusal::Cancelled { path: tree })
        }
    }

    /// An operation that must succeed.
    pub open spec fn must(self, question: Question, operation: Seq<char>, path: Seq<char>) -> Run {
        let (after, answer) = self.ask(question);
        if answer is Done {
            after
        } else {
            after.fail_io(operation, path, answer)
        }
    }

    /// Makes a directory. It is on record as soon as it is there.
    pub open spec fn create_directory(self, path: Seq<char>, mode: u32) -> Run {
        let (after, answer) = self.ask(Question::CreateDir { path, mode });
        match answer {
            Answer::Done => after.record_created(path),
            Answer::Partial { .. } => after.record_created(path).fail_io(
                "set guest directory mode"@,
                path,
                answer,
            ),
            _ => after.fail_io("create guest directory"@, path, answer),
        }
    }

    /// Walks along `pending` from the place `resolved`, following at most `left`
    /// links and making what is missing, and says where that leads. A link that is
    /// absolute starts anew at the root of the tree, and `..` stops there.
    pub open spec fn walk(
        self,
        tree: Seq<char>,
        guest: Seq<char>,
        pending: Seq<Seq<char>>,
        resolved: Seq<Seq<char>>,
        left: nat,
    ) -> (Run, Seq<Seq<char>>)
        decreases left, pending.len(),
    {
        if self.stop is Some || pending.len() == 0 {
            (self, resolved)
        } else if pending[0] == ".."@ {
            let up = if resolved.len() > 0 {
                resolved.drop_last()
            } else {
                resolved
            };
            self.walk(tree, guest, pending.skip(1), up, left)
        } else {
            let candidate = resolved.push(pending[0]);
            let absolute = place(tree, candidate);
            let (after, answer) = self.ask(Question::Inspect(absolute));
            match answer {
                Answer::Directory { .. } => after.walk(
                    tree,
                    guest,
                    pending.skip(1),
                    candidate,
                    left,
                ),
                Answer::Link => if left == 0 {
                    (
                        after.fail(
                            Refusal::SymlinkLoop {
                                path: guest,
                                limit: SYMLINK_HOP_LIMIT as nat,
                            },
                        ),
                        resolved,
                    )
                } else {
                    let (after, answer) = after.ask(Question::ReadLink(absolute));
                    match answer {
                        Answer::Text(target) => after.walk(
                            tree,
                            guest,
                            steps(split(target@, '/')) + pending.skip(1),
                            if is_absolute(target@) {
                                Seq::empty()
                            } else {
                                resolved
                            },
                            (left - 1) as nat,
                        ),
                        _ => (
                            after.fail_io("read ancestor link"@, absolute, answer),
                            resolved,
                        ),
                    }
                },
                Answer::Other => (
                    after.fail(
                        Refusal::NonDirectoryAncestor {
                            path: guest,
                            ancestor: crate::text::join(candidate, "/"@),
                        },
                    ),
                    resolved,
                ),
                Answer::Missing => after.create_directory(absolute, 0o755).walk(
                    tree,
                    guest,
                    pending.skip(1),
                    candidate,
                    left,
                ),
                _ => (after.fail_io("inspect ancestor"@, absolute, answer), resolved),
            }
        }
    }

    /// Finds the directory in the tree that a guest path lies in.
    pub open spec fn resolve_parent(self, tree: Seq<char>, guest: Seq<char>) -> (
        Run,
        Seq<Seq<char>>,
    ) {
        self.walk(tree, guest, guest_parent(guest), Seq::empty(), SYMLINK_HOP_LIMIT as nat)
    }

    /// Makes a directory writable where the image left it read-only.
    pub open spec fn ensure_writable(self, parent: Seq<char>) -> Run {
        let (after, answer) = self.ask(Question::Inspect(parent));
        match answer {
            Answer::Directory { mode } => if mode & 0o200 != 0 {
                after
            } else {
                let unlocked = after.must(
                    Question::SetMode { path: parent, mode: mode | 0o200 },
                    "unlock guest parent"@,
                    parent,
                );
                unlocked.record(
                    Log { chmodded: unlocked.log.chmodded.push((parent, mode)), ..unlocked.log },
                )
            },
            Answer::Link | Answer::Other | Answer::Missing => after,
            _ => after.fail_io("inspect guest parent"@, parent, answer),
        }
    }

    /// Makes a directory of the guest, or leaves one that is there.
    pub open spec fn ensure_guest_directory(
        self,
        tree: Seq<char>,
        guest: Seq<char>,
        mode: u32,
    ) -> Run {
        let (after, parent) = self.resolve_parent(tree, guest);
        let destination = place(tree, parent.push(guest_name(guest)));
        let (after, answer) = after.ask(Question::Inspect(destination));
        match answer {
            Answer::Directory { .. } => after,
            Answer::Link | Answer::Other => after.fail(
                Refusal::NonDirectoryAncestor { path: guest, ancestor: relative(guest) },
            ),
            Answer::Missing => after.create_directory(destination, mode),
            _ => after.fail_io("inspect guest directory"@, destination, answer),
        }
    }

    /// Moves aside what the image has at the last component of a path, without
    /// following it. A directory is refused.
    pub open spec fn displace(
        self,
        tree: Seq<char>,
        parent: Seq<Seq<char>>,
        guest: Seq<char>,
    ) -> Run {
        let name = guest_name(guest);
        let destination = place(tree, parent.push(name));
        let (after, answer) = self.ask(Question::Inspect(destination));
        match answer {
            Answer::Directory { .. } => after.fail(
                Refusal::NonDirectoryAncestor { path: guest, ancestor: relative(guest) },
            ),
            Answer::Link | Answer::Other => {
                let (after, answer) = after.ensure_writable(place(tree, parent)).ask(
                    Question::Token,
                );
                match answer {
                    Answer::Text(token) => {
                        let backup = place(tree, parent.push(backup_name(name, token@)));
                        let moved = after.must(
                            Question::Rename { from: destination, to: backup },
                            "displace image path"@,
                            destination,
                        );
                        moved.record(
                            Log {
                                displaced: moved.log.displaced.push((backup, destination)),
                                ..moved.log
                            },
                        )
                    },
                    _ => after.fail_io("displace image path"@, destination, answer),
                }
            },
            Answer::Missing => after,
            _ => after.fail_io("inspect guest path"@, destination, answer),
        }
    }

    /// Makes room for a file or link at a guest path, and says where that lies.
    pub open spec fn make_room(self, tree: Seq<char>, guest: Seq<char>) -> (Run, Seq<char>) {
        let (after, parent) = self.resolve_parent(tree, guest);
        (
            after.ensure_writable(place(tree, parent)).displace(tree, parent, guest),
            place(tree, parent.push(guest_name(guest))),
        )
    }

    /// Writes a file of the guest in place of what the image has there. It is on
    /// record as soon as it is there.
    pub open spec fn install_file(
        self,
        tree: Seq<char>,
        guest: Seq<char>,
        contents: Seq<u8>,
        mode: u32,
    ) -> Run {
        let (after, destination) = self.make_room(tree, guest);
        let (after, answer) = after.ask(
            Question::CreateFile { path: destination, contents, mode },
        );
        match answer {
            Answer::Done => after.record_created(destination),
            Answer::Partial { while_writing, .. } => after.record_created(destination).fail_io(
                if while_writing {
                    "write guest file"@
                } else {
                    "set guest file mode"@
                },
                destination,
                answer,
            ),
            _ => after.fail_io("create guest file"@, destination, answer),
        }
    }

    /// Copies a program of the host into the guest.
    pub open spec fn install_program(
        self,
        tree: Seq<char>,
        guest: Seq<char>,
        source: Seq<char>,
    ) -> Run {
        let (after, answer) = self.ask(Question::ReadFile(source));
        match answer {
            Answer::Bytes(contents) => after.install_file(tree, guest, contents@, 0o755),
            _ => after.fail_io("read toolbox program"@, source, answer),
        }
    }

    /// Links one guest path to another in place of what the image has there.
    pub open spec fn install_symlink(
        self,
        tree: Seq<char>,
        guest: Seq<char>,
        target: Seq<char>,
    ) -> Run {
        let (after, destination) = self.make_room(tree, guest);
        after.must(
            Question::CreateLink { target, path: destination },
            "create guest symlink"@,
            destination,
        ).record_created(destination)
    }

    /// The first of the guest paths at which a file or link is.
    pub open spec fn first_existing(self, tree: Seq<char>, candidates: Seq<Seq<char>>) -> (
        Run,
        Option<Seq<char>>,
    )
        decreases candidates.len(),
    {
        if candidates.len() == 0 {
            (self, None)
        } else {
            let (after, answer) = self.ask(Question::IsFileOrLink(below(tree, candidates[0])));
            if after.stop is Some {
                (after, None)
            } else if answer is Yes {
                (after, Some(candidates[0]))
            } else {
                after.first_existing(tree, candidates.skip(1))
            }
        }
    }

    /// Links the tools named to the toolbox, where the image lacks them.
    pub open spec fn link_applets(
        self,
        tree: Seq<char>,
        applets: Seq<Seq<char>>,
        usr_bin: bool,
    ) -> Run
        decreases applets.len(),
    {
        if applets.len() == 0 {
            self
        } else {
            let (after, found) = self.first_existing(tree, applet_paths(applets[0]));
            let linked = if found is Some {
                after
            } else {
                after.install_symlink(tree, link_path(usr_bin, applets[0]), GUEST_TOOLBOX@)
            };
            linked.link_applets(tree, applets.skip(1), usr_bin)
        }
    }

    /// Links the tools that the image lacks to the toolbox.
    pub open spec fn install_toolbox_commands(self, tree: Seq<char>) -> Run {
        let (after, answer) = self.ask(Question::IsDirOrLink(path::join(tree, "usr/bin"@)));
        after.link_applets(tree, path_applets(), answer is Yes)
    }

    /// Writes a file anew; what it held is on record before that.
    pub open spec fn rewrite(
        self,
        path: Seq<char>,
        held: Seq<u8>,
        contents: Seq<u8>,
        operation: Seq<char>,
    ) -> Run {
        let noted = self.record(
            Log { rewritten: self.log.rewritten.push((path, held)), ..self.log },
        );
        let (after, answer) = self.ask(Question::Overwrite { path, contents });
        if after.stop is Some {
            after
        } else if answer is Done {
            Run { log: noted.log, ..after }
        } else {
            Run { log: noted.log, ..after }.fail_io(operation, path, answer)
        }
    }

    /// Makes `shell` the login shell of root.
    pub open spec fn set_root_shell(self, tree: Seq<char>, shell: Seq<char>) -> Run {
        let passwd = path::join(tree, "etc/passwd"@);
        let etc = path::join(tree, "etc"@);
        let (after, answer) = self.ask(Question::ReadText(passwd));
        match answer {
            Answer::Text(text) => after.must(
                Question::CreateDirs(etc),
                "create guest etc"@,
                etc,
            ).rewrite(
                passwd,
                encode_utf8(text@),
                encode_utf8(with_root_shell(text@, shell)),
                "write guest passwd"@,
            ),
            Answer::Missing => {
                let ready = after.must(Question::CreateDirs(etc), "create guest etc"@, etc);
                let (written, answer) = ready.ask(
                    Question::Overwrite {
                        path: passwd,
                        contents: encode_utf8(
                            with_root_shell("root:x:0:0:root:/root:/bin/sh\n"@, shell),
                        ),
                    },
                );
                let noted = written.record_created(passwd);
                if answer is Done {
                    noted
                } else {
                    noted.fail_io("write guest passwd"@, passwd, answer)
                }
            },
            _ => after.fail_io("read guest passwd"@, passwd, answer),
        }
    }

    /// Lets root log in on the serial console.
    pub open spec fn ensure_securetty(self, tree: Seq<char>) -> Run {
        let securetty = path::join(tree, "etc/securetty"@);
        let (after, answer) = self.ask(Question::ReadText(securetty));
        match answer {
            Answer::Text(text) => if lists_serial_console(text@) {
                after
            } else {
                after.rewrite(
                    securetty,
                    encode_utf8(text@),
                    encode_utf8(with_serial_console(text@)),
                    "update securetty"@,
                )
            },
            Answer::Missing => after.install_file(
                tree,
                "/etc/securetty"@,
                encode_utf8("ttyS0\n"@),
                0o644,
            ),
            _ => after.fail_io("read securetty"@, securetty, answer),
        }
    }
}

/// The paths at which a tool may lie.
pub open spec fn applet_paths(applet: Seq<char>) -> Seq<Seq<char>> {
    seq![
        "/usr/local/sbin"@ + "/"@ + applet,
        "/usr/local/bin"@ + "/"@ + applet,
        "/usr/sbin"@ + "/"@ + applet,
        "/usr/bin"@ + "/"@ + applet,
        "/sbin"@ + "/"@ + applet,
        "/bin"@ + "/"@ + applet,
    ]
}

/// The tools that are put on the path where the image lacks them.
pub open spec fn path_applets() -> Seq<Seq<char>> {
    seq!["ping"@, "ping6"@, "traceroute"@, "wget"@, "nc"@, "nslookup"@, "vi"@, "sh"@]
}

/// Where a tool is put.
pub open spec fn link_path(usr_bin: bool, applet: Seq<char>) -> Seq<char> {
    if usr_bin {
        "/usr/bin/"@ + applet
    } else {
        "/bin/"@ + applet
    }
}

/// Whether a list of terminals holds the serial console.
pub open spec fn lists_serial_console(text: Seq<char>) -> bool {
    lines(text).map_values(|l: Seq<char>| trim(l)).contains("ttyS0"@)
}

/// A list of terminals with the serial console at its end, on a line of its own.
pub open spec fn with_serial_console(text: Seq<char>) -> Seq<char> {
    if text.len() > 0 && text.last() != '\n' {
        text + "\n"@ + "ttyS0\n"@
    } else {
        text + "ttyS0\n"@
    }
}

/// The line of root in a list of accounts, with another shell.
pub open spec fn root_line(line: Seq<char>, shell: Seq<char>) -> Seq<char> {
    let fields = split(line, ':');
    if fields.len() >= 7 {
        crate::text::join(fields.update(6, shell), ":"@)
    } else {
        "root:x:0:0:root:/root:"@ + shell
    }
}

/// The lines of a list of accounts, the first of root with another shell.
pub open spec fn with_shell(all: Seq<Seq<char>>, shell: Seq<char>, seen: bool) -> Seq<char>
    decreases all.len(),
{
    if all.len() == 0 {
        if seen {
            Seq::empty()
        } else {
            "root:x:0:0:root:/root:"@ + shell + "\n"@
        }
    } else if !seen && starts_with(all[0], "root:"@) {
        root_line(all[0], shell) + "\n"@ + with_shell(all.skip(1), shell, true)
    } else {
        all[0] + "\n"@ + with_shell(all.skip(1), shell, seen)
    }
}

/// A list of accounts in which root has another shell; every other line stays.
pub open spec fn with_root_shell(passwd: Seq<char>, shell: Seq<char>) -> Seq<char> {
    with_shell(lines(passwd), shell, false)
}

/// Wraps a failed file operation.
pub fn injection_io(operation: &'static str, path: &str, source: String) -> (r: ResolveError)
    ensures
        r@ == (Refusal::InjectionIo { operation: operation@, path: path@, source: source@ }),
{
    ResolveError::GuestInjectionIo { operation, path: path.to_owned(), source }
}

/// Wraps the reason why a guest path cannot be used.
pub fn guest_path_unusable(guest_path: &str, reason: GuestPathViolation) -> (r: ResolveError)
    ensures
        r matches ResolveError::GuestPathUnusable { path, reason: why } && path@ == guest_path@
            && why == reason,
{
    ResolveError::GuestPathUnusable { path: guest_path.to_owned(), reason }
}

/// The place in the tree with the given components.
fn place_of(tree: &str, components: &[String]) -> (r: String)
    ensures
        r@ == place(tree@, views(components@)),
{
    let mut out = tree.to_owned();
    let mut i: usize = 0;
    while i < components.len()
        invariant
            i <= components@.len(),
            out@ == place(tree@, views(components@).take(i as int)),
        decreases components@.len() - i,
    {
        assert(views(components@).take(i + 1).drop_last() =~= views(components@).take(i as int));
        out = path::joined(&out, &components[i]);
        i += 1;
    }
    assert(views(components@).take(i as int) =~= views(components@));
    out
}

/// The components of the place `parent` and one more.
fn with_name(parent: &[String], name: &str) -> (r: Vec<String>)
    ensures
        views(r@) == views(parent@).push(name@),
{
    let mut out: Vec<String> = Vec::new();
    let mut i: usize = 0;
    while i < parent.len()
        invariant
            i <= parent@.len(),
            out@.len() == i,
            forall|j: int| 0 <= j < i ==> (#[trigger] out@[j])@ == parent@[j]@,
        decreases parent@.len() - i,
    {
        out.push(parent[i].clone());
        i += 1;
    }
    out.push(name.to_owned());
    assert(views(out@) =~= views(parent@).push(name@));
    out
}

/// The components of a path below the root of the guest.
fn steps_of(p: &str) -> (r: Vec<String>)
    ensures
        views(r@) == steps(split(p@, '/')),
{
    let pieces = split_on(p, '/');
    let ghost all = views(pieces@);
    let mut out: Vec<String> = Vec::new();
    let mut i: usize = 0;
    proof {
        reveal_strlit(".");
        assert("."@ =~= seq!['.']);
        assert(views(out@) =~= steps(all.take(0)));
    }
    while i < pieces.len()
        invariant
            i <= pieces@.len(),
            all == views(pieces@),
            "."@ == seq!['.'],
            views(out@) == steps(all.take(i as int)),
        decreases pieces@.len() - i,
    {
        let piece = &pieces[i];
        let ghost before = out@;
        assert(all.take(i + 1).drop_last() =~= all.take(i as int));
        assert(all.take(i + 1).last() == piece@);
        if !(piece.as_str().is_empty() || same(piece, ".")) {
            out.push(piece.clone());
            assert(views(out@) =~= views(before).push(piece@));
        }
        i += 1;
    }
    assert(all.take(i as int) =~= all);
    out
}

fn name_start_of(guest: &[char]) -> (r: usize)
    ensures
        r <= guest@.len(),
        r == name_start(guest@),
{
    let mut i: usize = guest.len();
    assert(guest@.take(i as int) =~= guest@);
    while i > 0 && guest[i - 1] != '/'
        invariant
            i <= guest@.len(),
            name_start(guest@.take(i as int)) == name_start(guest@),
        decreases i,
    {
        assert(guest@.take(i as int).drop_last() =~= guest@.take(i - 1));
        i -= 1;
    }
    i
}

/// The last component of a guest path.
fn guest_name_of(guest: &str) -> (r: String)
    ensures
        r@ == guest_name(guest@),
{
    let chars = chars_of(guest);
    let start: usize = name_start_of(&chars);
    let r = string_of(&chars, start, chars.len());
    assert(r@ =~= guest_name(guest@));
    r
}

/// The components of the directory that a guest path lies in.
fn guest_parent_of(guest: &str) -> (r: Vec<String>)
    ensures
        views(r@) == guest_parent(guest@),
{
    let chars = chars_of(guest);
    let start: usize = name_start_of(&chars);
    let dir = string_of(&chars, 0, start);
    assert(dir@ =~= guest@.take(name_start(guest@)));
    steps_of(&dir)
}

/// Where a guest path lies in the tree, taken as it is written.
fn below_of(tree: &str, guest: &str) -> (r: String)
    ensures
        r@ == below(tree@, guest@),
{
    path::joined(tree, &trimmed_start_of(guest, '/'))
}

/// The name that a path is moved aside to.
fn backup_name_of(name: &str, token: &str) -> (r: String)
    ensures
        r@ == backup_name(name@, token@),
{
    let chars = chars_of(name);
    let mut i: usize = chars.len();
    assert(chars@.take(i as int) =~= chars@);
    while i > 0 && chars[i - 1] != '.'
        invariant
            i <= chars@.len(),
            chars@ == name@,
            last_dot(chars@.take(i as int)) == last_dot(name@),
        decreases i,
    {
        assert(chars@.take(i as int).drop_last() =~= chars@.take(i - 1));
        i -= 1;
    }
    let end: usize = if i > 1 {
        i - 1
    } else {
        chars.len()
    };
    let base = string_of(&chars, 0, end);
    assert(base@ =~= stem(name@));
    base.concat(".firecrab-").concat(token)
}

/// A run under way.
struct Injection<'a> {
    answers: &'a [Answer],
    at: usize,
    trace: Ghost<Seq<(Question, Answer)>>,
    unwind: InjectedPaths,
}

impl<'a> Injection<'a> {
    spec fn run(&self) -> Run {
        Run {
            answers: self.answers@,
            at: self.at as int,
            trace: self.trace@,
            log: self.unwind@,
            stop: None,
        }
    }

    spec fn ended<T>(&self, r: Result<T, Halt>) -> Run {
        Run {
            stop: match r {
                Ok(_) => None,
                Err(halt) => Some(halt@),
            },
            ..self.run()
        }
    }

    /// Whether the record is not sealed and the answers are not overrun.
    spec fn open(&self) -> bool {
        self.at <= self.answers@.len() && !self.unwind.is_kept()
    }

    fn ask(&mut self, request: Request) -> (r: Result<&'a Answer, Halt>)
        requires
            old(self).open(),
        ensures
            final(self).open(),
            final(self).ended(r) == old(self).run().ask(request@).0,
            r matches Ok(answer) ==> *answer == old(self).run().ask(request@).1,
    {
        if self.at < self.answers.len() {
            self.trace = Ghost(self.trace@.push((request@, self.answers@[self.at as int])));
            self.at += 1;
            Ok(&self.answers[self.at - 1])
        } else {
            Err(Halt::Ask(request))
        }
    }

    fn failed<T>(&self, operation: &'static str, path: &str, answer: &Answer) -> (r: Result<T, Halt>)
        ensures
            r is Err,
            self.ended(r) == self.run().fail_io(operation@, path@, *answer),
    {
        Err(Halt::Fail(injection_io(operation, path, complaint_of(answer))))
    }

    /// Stops where the caller no longer waits.
    fn check(&mut self, tree: &str) -> (r: Result<(), Halt>)
        requires
            old(self).open(),
        ensures
            final(self).open(),
            final(self).ended(r) == old(self).run().check(tree@),
    {
        match self.ask(Request::Cancelled)? {
            Answer::No => Ok(()),
            _ => Err(
                Halt::Fail(ResolveError::GuestInjectionCancelled { path: tree.to_owned() }),
            ),
        }
    }

    /// An operation that must succeed.
    fn must(&mut self, request: Request, operation: &'static str, path: &str) -> (r: Result<
        (),
        Halt,
    >)
        requires
            old(self).open(),
        ensures
            final(self).open(),
            final(self).ended(r) == old(self).run().must(request@, operation@, path@),
    {
        match self.ask(request)? {
            Answer::Done => Ok(()),
            answer => self.failed(operation, path, answer),
        }
    }

    /// Makes a directory.
    fn create_directory(&mut self, path: &str, mode: u32) -> (r: Result<(), Halt>)
        requires
            old(self).open(),
        ensures
            final(self).open(),
            final(self).ended(r) == old(self).run().create_directory(path@, mode),
    {
        match self.ask(Request::CreateDir { path: path.to_owned(), mode })? {
            Answer::Done => {
                self.unwind.created(path.to_owned());
                Ok(())
            },
            answer => {
                if let Answer::Partial { .. } = answer {
                    self.unwind.created(path.to_owned());
                    return self.failed("set guest directory mode", path, answer);
                }
                self.failed("create guest directory", path, answer)
            },
        }
    }

    /// Finds the directory in the tree that a guest path lies in, making what is
    /// missing. Links on the way are followed, since many images have `/sbin` as a
    /// link, and cannot lead out of the tree. The last component is not followed.
    fn resolve_guest_parent(&mut self, tree: &str, guest_path: &str) -> (r: Result<
        Vec<String>,
        Halt,
    >)
        requires
            old(self).open(),
        ensures
            final(self).open(),
            final(self).ended(r) == old(self).run().resolve_parent(tree@, guest_path@).0,
            r matches Ok(parent) ==> views(parent@) == old(self).run().resolve_parent(
                tree@,
                guest_path@,
            ).1,
    {
        let mut pending = guest_parent_of(guest_path);
        let mut resolved: Vec<String> = Vec::new();
        let mut left: usize = SYMLINK_HOP_LIMIT;
        let ghost goal = old(self).run().resolve_parent(tree@, guest_path@);
        assert(views(resolved@) =~= Seq::<Seq<char>>::empty());
        while pending.len() > 0
            invariant
                self.open(),
                left <= SYMLINK_HOP_LIMIT,
                goal == old(self).run().resolve_parent(tree@, guest_path@),
                self.run().walk(
                    tree@,
                    guest_path@,
                    views(pending@),
                    views(resolved@),
                    left as nat,
                ) == goal,
            decreases left, pending@.len(),
        {
            let ghost before = views(pending@);
            let ghost from = views(resolved@);
            let component = pending.remove(0);
            assert(before[0] == component@);
            assert(views(pending@) =~= before.skip(1));
            if same(&component, "..") {
                resolved.pop();
                assert(views(resolved@) =~= if from.len() > 0 {
                    from.drop_last()
                } else {
                    from
                });
                continue ;
            }
            let candidate = with_name(&resolved, &component);
            let absolute = place_of(tree, &candidate);
            match self.ask(Request::Inspect(absolute.clone()))? {
                Answer::Directory { .. } => {
                    resolved = candidate;
                },
                Answer::Link => {
                    if left == 0 {
                        return Err(
                            Halt::Fail(
                                guest_path_unusable(
                                    guest_path,
                                    GuestPathViolation::SymlinkLoop { limit: SYMLINK_HOP_LIMIT },
                                ),
                            ),
                        );
                    }
                    match self.ask(Request::ReadLink(absolute.clone()))? {
                        Answer::Text(target) => {
                            left -= 1;
                            if path::is_absolute(target) {
                                resolved = Vec::new();
                                assert(views(resolved@) =~= Seq::<Seq<char>>::empty());
                            }
                            let mut spliced = steps_of(target);
                            let ghost rest = pending@;
                            let ghost link = spliced@;
                            spliced.append(&mut pending);
                            assert(views(spliced@) =~= views(link) + views(rest));
                            pending = spliced;
                        },
                        answer => {
                            return self.failed("read ancestor link", &absolute, answer);
                        },
                    }
                },
                Answer::Other => {
                    return Err(
                        Halt::Fail(
                            guest_path_unusable(
                                guest_path,
                                GuestPathViolation::NonDirectoryAncestor {
                                    ancestor: joined_strings(&candidate, "/"),
                                },
                            ),
                        ),
                    );
                },
                Answer::Missing => {
                    match self.create_directory(&absolute, 0o755) {
                        Ok(()) => {},
                        Err(halt) => {
                            let ghost stopped = self.ended(Err::<(), Halt>(halt));
                            assert(stopped.walk(
                                tree@,
                                guest_path@,
                                views(pending@),
                                views(candidate@),
                                left as nat,
                            ).0 == stopped);
                            return Err(halt);
                        },
                    }
                    resolved = candidate;
                },
                answer => {
                    return self.failed("inspect ancestor", &absolute, answer);
                },
            }
        }
        Ok(resolved)
    }

    /// Makes a directory writable where the image left it read-only.
    fn ensure_parent_writable(&mut self, parent: &str) -> (r: Result<(), Halt>)
        requires
            old(self).open(),
        ensures
            final(self).open(),
            final(self).ended(r) == old(self).run().ensure_writable(parent@),
    {
        match self.ask(Request::Inspect(parent.to_owned()))? {
            Answer::Directory { mode } => {
                let mode: u32 = *mode;
                if mode & 0o200 != 0 {
                    return Ok(());
                }
                self.must(
                    Request::SetMode { path: parent.to_owned(), mode: mode | 0o200 },
                    "unlock guest parent",
                    parent,
                )?;
                self.unwind.chmodded(parent.to_owned(), mode);
                Ok(())
            },
            Answer::Link | Answer::Other | Answer::Missing => Ok(()),
            answer => self.failed("inspect guest parent", parent, answer),
        }
    }

    /// Makes a directory of the guest, or leaves one that is there.
    fn ensure_guest_directory(&mut self, tree: &str, guest_path: &str, mode: u32) -> (r: Result<
        (),
        Halt,
    >)
        requires
            old(self).open(),
        ensures
            final(self).open(),
            final(self).ended(r) == old(self).run().ensure_guest_directory(
                tree@,
                guest_path@,
                mode,
            ),
    {
        let parent = self.resolve_guest_parent(tree, guest_path)?;
        let destination = place_of(tree, &with_name(&parent, &guest_name_of(guest_path)));
        match self.ask(Request::Inspect(destination.clone()))? {
            Answer::Directory { .. } => Ok(()),
            Answer::Link | Answer::Other => Err(
                Halt::Fail(
                    guest_path_unusable(
                        guest_path,
                        GuestPathViolation::NonDirectoryAncestor {
                            ancestor: trimmed_start_of(guest_path, '/'),
                        },
                    ),
                ),
            ),
            Answer::Missing => self.create_directory(&destination, mode),
            answer => self.failed("inspect guest directory", &destination, answer),
        }
    }

    /// Moves aside what the image has at the last component of a path.
    fn displace_existing(&mut self, tree: &str, parent: &[String], guest_path: &str) -> (r: Result<
        (),
        Halt,
    >)
        requires
            old(self).open(),
        ensures
            final(self).open(),
            final(self).ended(r) == old(self).run().displace(tree@, views(parent@), guest_path@),
    {
        let name = guest_name_of(guest_path);
        let destination = place_of(tree, &with_name(parent, &name));
        match self.ask(Request::Inspect(destination.clone()))? {
            Answer::Directory { .. } => Err(
                Halt::Fail(
                    guest_path_unusable(
                        guest_path,
                        GuestPathViolation::NonDirectoryAncestor {
                            ancestor: trimmed_start_of(guest_path, '/'),
                        },
                    ),
                ),
            ),
            Answer::Link | Answer::Other => {
                self.ensure_parent_writable(&place_of(tree, parent))?;
                match self.ask(Request::Token)? {
                    Answer::Text(token) => {
                        let backup = place_of(
                            tree,
                            &with_name(parent, &backup_name_of(&name, token)),
                        );
                        self.must(
                            Request::Rename { from: destination.clone(), to: backup.clone() },
                            "displace image path",
                            &destination,
                        )?;
                        self.unwind.displaced(backup, destination);
                        Ok(())
                    },
                    answer => self.failed("displace image path", &destination, answer),
                }
            },
            Answer::Missing => Ok(()),
            answer => self.failed("inspect guest path", &destination, answer),
        }
    }

    /// Makes room for a file or link at a guest path, and says where that lies.
    fn make_room(&mut self, tree: &str, guest_path: &str) -> (r: Result<String, Halt>)
        requires
            old(self).open(),
        ensures
            final(self).open(),
            final(self).ended(r) == old(self).run().make_room(tree@, guest_path@).0,
            r matches Ok(destination) ==> destination@ == old(self).run().make_room(
                tree@,
                guest_path@,
            ).1,
    {
        let parent = self.resolve_guest_parent(tree, guest_path)?;
        self.ensure_parent_writable(&place_of(tree, &parent))?;
        self.displace_existing(tree, &parent, guest_path)?;
        Ok(place_of(tree, &with_name(&parent, &guest_name_of(guest_path))))
    }

    /// Writes a file of the guest in place of what the image has there.
    fn install_file(&mut self, tree: &str, guest_path: &str, contents: &[u8], mode: u32) -> (r: Result<
        (),
        Halt,
    >)
        requires
            old(self).open(),
        ensures
            final(self).open(),
            final(self).ended(r) == old(self).run().install_file(
                tree@,
                guest_path@,
                contents@,
                mode,
            ),
    {
        let destination = self.make_room(tree, guest_path)?;
        let request = Request::CreateFile {
            path: destination.clone(),
            contents: vstd::slice::slice_to_vec(contents),
            mode,
        };
        match self.ask(request)? {
            Answer::Done => {
                self.unwind.created(destination);
                Ok(())
            },
            answer => {
                if let Answer::Partial { while_writing, .. } = answer {
                    self.unwind.created(destination.clone());
                    let operation = if *while_writing {
                        "write guest file"
                    } else {
                        "set guest file mode"
                    };
                    return self.failed(operation, &destination, answer);
                }
                self.failed("create guest file", &destination, answer)
            },
        }
    }

    /// Copies a program of the host into the guest.
    fn install_program(&mut self, tree: &str, guest_path: &str, source_path: &str) -> (r: Result<
        (),
        Halt,
    >)
        requires
            old(self).open(),
        ensures
            final(self).open(),
            final(self).ended(r) == old(self).run().install_program(
                tree@,
                guest_path@,
                source_path@,
            ),
    {
        match self.ask(Request::ReadFile(source_path.to_owned()))? {
            Answer::Bytes(contents) => self.install_file(tree, guest_path, contents, 0o755),
            answer => self.failed("read toolbox program", source_path, answer),
        }
    }

    /// Links one guest path to another in place of what the image has there.
    fn install_symlink(&mut self, tree: &str, guest_path: &str, target: &str) -> (r: Result<
        (),
        Halt,
    >)
        requires
            old(self).open(),
        ensures
            final(self).open(),
            final(self).ended(r) == old(self).run().install_symlink(
                tree@,
                guest_path@,
                target@,
            ),
    {
        let destination = self.make_room(tree, guest_path)?;
        self.must(
            Request::CreateLink { target: target.to_owned(), path: destination.clone() },
            "create guest symlink",
            &destination,
        )?;
        self.unwind.created(destination);
        Ok(())
    }

    /// The first of the guest paths at which a file or link is.
    fn first_existing(&mut self, tree: &str, candidates: &[String]) -> (r: Result<
        Option<String>,
        Halt,
    >)
        requires
            old(self).open(),
        ensures
            final(self).open(),
            final(self).ended(r) == old(self).run().first_existing(tree@, views(candidates@)).0,
            r matches Ok(found) ==> opt_view(found) == old(self).run().first_existing(
                tree@,
                views(candidates@),
            ).1,
    {
        let ghost all = views(candidates@);
        let mut i: usize = 0;
        assert(all.skip(0) =~= all);
        while i < candidates.len()
            invariant
                self.open(),
                i <= candidates@.len(),
                all == views(candidates@),
                self.run().first_existing(tree@, all.skip(i as int)) == old(
                    self,
                ).run().first_existing(tree@, all),
            decreases candidates@.len() - i,
        {
            assert(all.skip(i as int)[0] == candidates@[i as int]@);
            assert(all.skip(i as int).skip(1) =~= all.skip(i + 1));
            match self.ask(Request::IsFileOrLink(below_of(tree, &candidates[i])))? {
                Answer::Yes => {
                    return Ok(Some(candidates[i].clone()));
                },
                _ => {},
            }
            i += 1;
        }
        Ok(None)
    }

    /// Links the tools that the image lacks to the toolbox.
    fn install_toolbox_commands(&mut self, tree: &str) -> (r: Result<(), Halt>)
        requires
            old(self).open(),
        ensures
            final(self).open(),
            final(self).ended(r) == old(self).run().install_toolbox_commands(tree@),
    {
        let ghost all = path_applets();
        assert(all.skip(0) =~= all);
        let usr_bin = match self.ask(Request::IsDirOrLink(path::joined(tree, "usr/bin"))) {
            Ok(answer) => match answer {
                Answer::Yes => true,
                _ => false,
            },
            Err(halt) => {
                proof {
                    stopped_links_end(self.ended(Err::<(), Halt>(halt)), tree@, all, false);
                }
                return Err(halt);
            },
        };
        let ghost goal = old(self).run().install_toolbox_commands(tree@);
        let mut i: usize = 0;
        while i < 8
            invariant
                self.open(),
                i <= 8,
                all == path_applets(),
                goal == old(self).run().install_toolbox_commands(tree@),
                self.run().link_applets(tree@, all.skip(i as int), usr_bin) == goal,
            decreases 8 - i,
        {
            let applet = PATH_APPLETS[i];
            assert(all.skip(i as int)[0] == applet@);
            assert(all.skip(i as int).skip(1) =~= all.skip(i + 1));
            let done = match self.first_existing(tree, &applet_paths_of(applet)) {
                Ok(Some(_)) => Ok(()),
                Ok(None) => self.install_symlink(
                    tree,
                    &applet_link_path(usr_bin, applet),
                    GUEST_TOOLBOX,
                ),
                Err(halt) => {
                    proof {
                        stopped_link_ends(
                            self.ended(Err::<(), Halt>(halt)),
                            tree@,
                            link_path(usr_bin, applet@),
                            GUEST_TOOLBOX@,
                        );
                    }
                    Err(halt)
                },
            };
            if let Err(halt) = done {
                proof {
                    stopped_links_end(
                        self.ended(Err::<(), Halt>(halt)),
                        tree@,
                        all.skip(i + 1),
                        usr_bin,
                    );
                }
                return Err(halt);
            }
            i += 1;
        }
        Ok(())
    }

    /// Writes a file anew.
    fn rewrite(&mut self, path: &str, held: Vec<u8>, contents: Vec<u8>, operation: &'static str) -> (r: Result<
        (),
        Halt,
    >)
        requires
            old(self).open(),
        ensures
            final(self).open(),
            final(self).ended(r) == old(self).run().rewrite(path@, held@, contents@, operation@),
    {
        let answer = self.ask(Request::Overwrite { path: path.to_owned(), contents })?;
        self.unwind.rewritten(path.to_owned(), held);
        match answer {
            Answer::Done => Ok(()),
            answer => self.failed(operation, path, answer),
        }
    }

    /// Makes `shell` the login shell of root.
    fn set_root_shell(&mut self, tree: &str, shell: &str) -> (r: Result<(), Halt>)
        requires
            old(self).open(),
        ensures
            final(self).open(),
            final(self).ended(r) == old(self).run().set_root_shell(tree@, shell@),
    {
        let passwd = path::joined(tree, "etc/passwd");
        let etc = path::joined(tree, "etc");
        match self.ask(Request::ReadText(passwd.clone()))? {
            Answer::Text(text) => {
                self.must(Request::CreateDirs(etc.clone()), "create guest etc", &etc)?;
                let contents = rewrite_root_shell(text, shell).as_str().as_bytes_vec();
                self.rewrite(
                    &passwd,
                    text.as_str().as_bytes_vec(),
                    contents,
                    "write guest passwd",
                )
            },
            Answer::Missing => {
                self.must(Request::CreateDirs(etc.clone()), "create guest etc", &etc)?;
                let text = rewrite_root_shell("root:x:0:0:root:/root:/bin/sh\n", shell);
                let answer = self.ask(
                    Request::Overwrite {
                        path: passwd.clone(),
                        contents: text.as_str().as_bytes_vec(),
                    },
                )?;
                self.unwind.created(passwd.clone());
                match answer {
                    Answer::Done => Ok(()),
                    answer => self.failed("write guest passwd", &passwd, answer),
                }
            },
            answer => self.failed("read guest passwd", &passwd, answer),
        }
    }

    /// Lets root log in on the serial console.
    fn ensure_securetty(&mut self, tree: &str) -> (r: Result<(), Halt>)
        requires
            old(self).open(),
        ensures
            final(self).open(),
            final(self).ended(r) == old(self).run().ensure_securetty(tree@),
    {
        let securetty = path::joined(tree, "etc/securetty");
        match self.ask(Request::ReadText(securetty.clone()))? {
            Answer::Text(text) => {
                if holds_serial_console(text) {
                    return Ok(());
                }
                let next = add_serial_console(text);
                self.rewrite(
                    &securetty,
                    text.as_str().as_bytes_vec(),
                    next.as_str().as_bytes_vec(),
                    "update securetty",
                )
            },
            Answer::Missing => self.install_file(
                tree,
                "/etc/securetty",
                "ttyS0\n".as_bytes(),
                0o644,
            ),
            answer => self.failed("read securetty", &securetty, answer),
        }
    }
}

proof fn stopped_search_ends(run: Run, tree: Seq<char>, candidates: Seq<Seq<char>>)
    requires
        run.stop is Some,
    ensures
        run.first_existing(tree, candidates).0 == run,
{
}

proof fn stopped_room_ends(run: Run, tree: Seq<char>, guest: Seq<char>)
    requires
        run.stop is Some,
    ensures
        run.make_room(tree, guest).0 == run,
{
    let (after, parent) = run.resolve_parent(tree, guest);
    assert(after == run);
    assert(run.ensure_writable(place(tree, parent)) == run);
}

proof fn stopped_link_ends(run: Run, tree: Seq<char>, guest: Seq<char>, target: Seq<char>)
    requires
        run.stop is Some,
    ensures
        run.install_symlink(tree, guest, target) == run,
{
    stopped_room_ends(run, tree, guest);
}

proof fn stopped_links_end(run: Run, tree: Seq<char>, applets: Seq<Seq<char>>, usr_bin: bool)
    requires
        run.stop is Some,
    ensures
        run.link_applets(tree, applets, usr_bin) == run,
    decreases applets.len(),
{
    if applets.len() > 0 {
        stopped_search_ends(run, tree, applet_paths(applets[0]));
        stopped_link_ends(run, tree, link_path(usr_bin, applets[0]), GUEST_TOOLBOX@);
        stopped_links_end(run, tree, applets.skip(1), usr_bin);
    }
}

/// Whether a list of terminals holds the serial console.
fn holds_serial_console(text: &str) -> (r: bool)
    ensures
        r == lists_serial_console(text@),
{
    let all = lines_of(text);
    let ghost want = lines(text@).map_values(|l: Seq<char>| trim(l));
    let mut i: usize = 0;
    while i < all.len()
        invariant
            i <= all@.len(),
            views(all@) == lines(text@),
            want == lines(text@).map_values(|l: Seq<char>| trim(l)),
            forall|j: int| 0 <= j < i ==> want[j] != "ttyS0"@,
        decreases all@.len() - i,
    {
        assert(want[i as int] == trim(views(all@)[i as int]));
        if same(&trimmed(&all[i]), "ttyS0") {
            assert(want[i as int] == "ttyS0"@);
            return true;
        }
        i += 1;
    }
    assert(want.len() == all@.len());
    false
}

/// A list of terminals with the serial console at its end.
fn add_serial_console(text: &str) -> (r: String)
    ensures
        r@ == with_serial_console(text@),
{
    let chars = chars_of(text);
    let mut next = text.to_owned();
    if chars.len() > 0 && chars[chars.len() - 1] != '\n' {
        next = next.concat("\n");
    }
    next.concat("ttyS0\n")
}

/// The paths at which a tool may lie.
fn applet_paths_of(applet: &str) -> (r: Vec<String>)
    ensures
        views(r@) == applet_paths(applet@),
{
    let mut out: Vec<String> = Vec::new();
    let mut i: usize = 0;
    while i < 6
        invariant
            i <= 6,
            out@.len() == i,
            forall|j: int| 0 <= j < i ==> (#[trigger] out@[j])@ == applet_paths(applet@)[j],
        decreases 6 - i,
    {
        out.push(PATH_LOOKUP_DIRS[i].to_owned().concat("/").concat(applet));
        i += 1;
    }
    assert(views(out@) =~= applet_paths(applet@));
    out
}

/// Whether a tool is on the path; `present` says whether something is at a path of
/// the guest.
pub fn applet_on_path<F: Fn(&str) -> bool>(present: F, applet: &str) -> (r: bool)
    requires
        answers(present),
    ensures
        forall|paths: spec_fn(Seq<char>) -> bool| #[trigger]
            agrees(present, paths) ==> r == exists|i: int|
                0 <= i < 6 && paths(#[trigger] applet_paths(applet@)[i]),
{
    let all = applet_paths_of(applet);
    let mut i: usize = 0;
    assert(views(all@).len() == 6);
    while i < 6
        invariant
            i <= 6,
            answers(present),
            views(all@) == applet_paths(applet@),
            all@.len() == 6,
            forall|paths: spec_fn(Seq<char>) -> bool, j: int|
                #![trigger agrees(present, paths), applet_paths(applet@)[j]]
                agrees(present, paths) && 0 <= j < i ==> !paths(applet_paths(applet@)[j]),
        decreases 6 - i,
    {
        assert(applet_paths(applet@)[i as int] == all@[i as int]@);
        if present(&all[i]) {
            return true;
        }
        i += 1;
    }
    false
}

/// Where a tool is put: in `/usr/bin` where the guest has that.
pub fn applet_link_path(usr_bin_exists: bool, applet: &str) -> (r: String)
    ensures
        r@ == link_path(usr_bin_exists, applet@),
{
    if usr_bin_exists {
        "/usr/bin/".to_owned().concat(applet)
    } else {
        "/bin/".to_owned().concat(applet)
    }
}

/// The first of the paths that `paths` holds of.
pub open spec fn first_of(candidates: Seq<Seq<char>>, paths: spec_fn(Seq<char>) -> bool) -> Option<
    Seq<char>,
>
    decreases candidates.len(),
{
    if candidates.len() == 0 {
        None
    } else if paths(candidates[0]) {
        Some(candidates[0])
    } else {
        first_of(candidates.skip(1), paths)
    }
}

/// The first of the paths at which something is.
pub fn first_present<'a, F: Fn(&str) -> bool>(candidates: &[&'a str], present: F) -> (r: Option<
    &'a str,
>)
    requires
        answers(present),
    ensures
        forall|paths: spec_fn(Seq<char>) -> bool| #[trigger]
            agrees(present, paths) ==> opt_text(r) == first_of(texts(candidates@), paths),
{
    let ghost all = texts(candidates@);
    let mut i: usize = 0;
    assert(all.skip(0) =~= all);
    while i < candidates.len()
        invariant
            i <= candidates@.len(),
            all == texts(candidates@),
            answers(present),
            forall|paths: spec_fn(Seq<char>) -> bool| #[trigger]
                agrees(present, paths) ==> first_of(all.skip(i as int), paths) == first_of(
                    all,
                    paths,
                ),
        decreases candidates@.len() - i,
    {
        assert(all.skip(i as int)[0] == candidates@[i as int]@);
        assert(all.skip(i as int).skip(1) =~= all.skip(i + 1));
        if present(candidates[i]) {
            return Some(candidates[i]);
        }
        i += 1;
    }
    None
}

/// A list of accounts in which root has another shell; every other line stays.
pub fn rewrite_root_shell(passwd: &str, shell: &str) -> (r: String)
    ensures
        r@ == with_root_shell(passwd@, shell@),
{
    let rows = lines_of(passwd);
    let ghost all = views(rows@);
    let mut out = String::new();
    let mut seen_root: bool = false;
    let mut i: usize = 0;
    assert(all.skip(0) =~= all);
    assert(out@ + with_shell(all, shell@, false) =~= with_root_shell(passwd@, shell@));
    while i < rows.len()
        invariant
            i <= rows@.len(),
            all == views(rows@),
            out@ + with_shell(all.skip(i as int), shell@, seen_root) == with_root_shell(
                passwd@,
                shell@,
            ),
        decreases rows@.len() - i,
    {
        let ghost before = out@;
        let ghost seen = seen_root;
        let row = &rows[i];
        assert(all.skip(i as int)[0] == row@);
        assert(all.skip(i as int).skip(1) =~= all.skip(i + 1));
        if !seen_root && has_prefix(row, "root:") {
            seen_root = true;
            let mut fields = split_on(row, ':');
            if fields.len() >= 7 {
                let ghost old_fields = fields@;
                fields.set(6, shell.to_owned());
                assert(views(fields@) =~= views(old_fields).update(6, shell@));
                out = out.concat(&joined_strings(&fields, ":"));
            } else {
                out = out.concat("root:x:0:0:root:/root:").concat(shell);
            }
            assert(out@ =~= before + root_line(row@, shell@));
        } else {
            out = out.concat(row);
        }
        out = out.concat("\n");
        i += 1;
        assert(out@ + with_shell(all.skip(i as int), shell@, seen_root) =~= before + with_shell(
            all.skip(i - 1),
            shell@,
            seen,
        ));
    }
    if !seen_root {
        out = out.concat("root:x:0:0:root:/root:").concat(shell).concat("\n");
    }
    assert(out@ =~= with_root_shell(passwd@, shell@));
    out
}

/// Installs a small set of packages on the first boot. A failed attempt leaves no mark
/// and is made again on the next boot.
pub const BASE_PACKAGE_INSTALL: &'static str = r#"
# First boot only. Container images rarely ship ping/curl.
if [ ! -f /etc/firecrab/base-packages.ok ]; then
  ok=0
  if [ -x /usr/bin/apt-get ]; then
    if DEBIAN_FRONTEND=noninteractive /usr/bin/apt-get update -qq \
      && DEBIAN_FRONTEND=noninteractive /usr/bin/apt-get install -y -qq \
        iputils-ping iproute2 ca-certificates curl procps openssh-server udev; then
      ok=1
    fi
  elif [ -x /usr/bin/dnf ]; then
    /usr/bin/dnf install -y -q iputils iproute ca-certificates curl procps-ng openssh-server && ok=1
  elif [ -x /usr/bin/microdnf ]; then
    /usr/bin/microdnf -y install iputils iproute ca-certificates curl procps-ng openssh-server && ok=1
  elif [ -x /usr/bin/yum ]; then
    /usr/bin/yum install -y -q iputils iproute ca-certificates curl procps-ng openssh-server && ok=1
  elif [ -x /sbin/apk ]; then
    /sbin/apk add --no-cache iputils iproute2 ca-certificates curl procps openssh && ok=1
  elif [ -x /usr/bin/apk ]; then
    /usr/bin/apk add --no-cache iputils iproute2 ca-certificates curl procps openssh && ok=1
  elif [ -x /usr/bin/zypper ]; then
    /usr/bin/zypper --non-interactive install -y iputils iproute2 ca-certificates curl procps openssh udev && ok=1
  elif [ -x /usr/bin/pacman ]; then
    /usr/bin/pacman -Sy --noconfirm --needed iputils iproute2 ca-certificates curl procps-ng openssh && ok=1
  else
    ok=1
  fi
  [ "$ok" -eq 1 ] && $BB touch /etc/firecrab/base-packages.ok
fi
"#;

pub const BOOT_1: &'static str = r#"#!"#;

pub const BOOT_2: &'static str = r#" sh
# Firecrab guest runtime for an imported OCI image (public-docs/oci.md).
# Avoid `set -e`: one failed mount must not leave the host waiting out the full
# readiness timeout for a sentinel that will now never be printed.
BB="#;

pub const BOOT_3: &'static str = r#"

$BB mount -t proc -o nosuid,nodev,noexec proc /proc 2>/dev/null
$BB mount -t sysfs -o nosuid,nodev,noexec sysfs /sys 2>/dev/null
$BB mount -t devtmpfs devtmpfs /dev 2>/dev/null
$BB mkdir -p /dev/pts
$BB mount -t devpts -o nosuid,noexec devpts /dev/pts 2>/dev/null
$BB mount -t tmpfs -o nosuid,nodev,mode=755 tmpfs /run 2>/dev/null
# Official images expect the Linux fd nodes Docker always provides.
# Bash process substitution (initdb, entrypoints) opens /dev/fd/N.
[ -e /dev/fd ] || $BB ln -sf /proc/self/fd /dev/fd
[ -e /dev/stdin ] || $BB ln -sf /proc/self/fd/0 /dev/stdin
[ -e /dev/stdout ] || $BB ln -sf /proc/self/fd/1 /dev/stdout
[ -e /dev/stderr ] || $BB ln -sf /proc/self/fd/2 /dev/stderr

# specialize_guest writes /etc/hostname; systemd would apply it, busybox init does not.
if [ -s /etc/hostname ]; then
  $BB hostname -F /etc/hostname 2>/dev/null
  $BB cat /etc/hostname > /proc/sys/kernel/hostname 2>/dev/null
fi

# UTF-8 so CJK typed on the serial console is not treated as POSIX C.
export LANG="${LANG:-C.UTF-8}"
export LC_ALL="$LANG" LC_CTYPE="$LANG"
$BB stty iutf8 2>/dev/null

# Metrics first, so the dashboard has samples even when the network fails.
$BB setsid $BB sh "#;

pub const BOOT_4: &'static str = r#" >/dev/null 2>&1 &

$BB ip link set lo up 2>/dev/null
# A bare udhcpc on an administratively down link never sends a single packet and
# hangs forever, so the link comes up first, always.
if ! $BB ip link set eth0 up 2>/dev/null; then
  echo "FIRECRAB_NETWORK_FAILED no-ipv4-address" >/dev/console
  exit 0
fi

$BB udhcpc -i eth0 -n -q -t 8 -T 2 -s "#;

pub const BOOT_5: &'static str = r#" >/dev/console 2>&1

ipv4=""
tries=0
while [ "$tries" -lt 15 ]; do
  ipv4=$($BB ip -4 -o addr show eth0 2>/dev/null | $BB awk '{print $4; exit}' | $BB cut -d/ -f1)
  [ -n "$ipv4" ] && break
  tries=$((tries + 1))
  $BB sleep 1
done

if [ -z "$ipv4" ]; then
  echo "FIRECRAB_NETWORK_FAILED no-ipv4-address" >/dev/console
  exit 0
fi

dns_ok=0
tries=0
while [ "$tries" -lt 15 ]; do
  if $BB nslookup example.com >/dev/null 2>&1; then
    dns_ok=1
    break
  fi
  tries=$((tries + 1))
  $BB sleep 1
done

if [ "$dns_ok" -ne 1 ]; then
  echo "FIRECRAB_NETWORK_FAILED dns-unreachable" >/dev/console
  exit 0
fi

echo "FIRECRAB_NETWORK_READY $ipv4" >/dev/console

"#;

pub const BOOT_6: &'static str = r#"

# Fallback only: glibc guests already received a pinned /usr/bin/fastfetch at
# import. Alpine and other musl trees still try the guest package manager.
if [ ! -x /usr/bin/fastfetch ]; then
  if [ -x /usr/bin/apt-get ]; then
    DEBIAN_FRONTEND=noninteractive /usr/bin/apt-get update -qq >/dev/null 2>&1
    DEBIAN_FRONTEND=noninteractive /usr/bin/apt-get install -y -qq fastfetch >/dev/null 2>&1
  elif [ -x /usr/bin/dnf ]; then
    /usr/bin/dnf install -y -q fastfetch >/dev/null 2>&1
  elif [ -x /sbin/apk ]; then
    /sbin/apk add --no-cache fastfetch >/dev/null 2>&1
  fi
fi

# A later import stage translates the image entrypoint into a program here.
$BB mkdir -p /run/firecrab
for service in "#;

pub const BOOT_7: &'static str = r#"/*; do
  [ -x "$service" ] || continue
  name=${service##*/}
  $BB setsid "$service" >/dev/console 2>&1 &
  echo $! > /run/firecrab/$name.pid
  [ "$name" = app ] && echo $! > /run/firecrab-app.pid
done
exit 0
"#;

pub const CONSOLE_1: &'static str = r#"#!"#;

pub const CONSOLE_2: &'static str = r#" sh
# Firecrab injected console (public-docs/oci.md).
BB="#;

pub const CONSOLE_3: &'static str = r#"
PATH="/usr/local/bin:/usr/local/sbin:$PATH"
export PATH
export LANG="${LANG:-C.UTF-8}"
export LC_ALL="$LANG" LC_CTYPE="$LANG"
$BB stty iutf8 2>/dev/null
if [ -s /etc/hostname ]; then
  $BB hostname -F /etc/hostname 2>/dev/null
  $BB cat /etc/hostname > /proc/sys/kernel/hostname 2>/dev/null
fi
[ -s /etc/motd ] && $BB cat /etc/motd
if [ -x /usr/bin/fastfetch ]; then
  /usr/bin/fastfetch
elif [ -x /usr/bin/neofetch ]; then
  /usr/bin/neofetch
fi
exec $BB sh
"#;

pub const DHCP_1: &'static str = r#"#!"#;

pub const DHCP_2: &'static str = r#" sh
# Firecrab guest DHCP hook for an imported OCI image (public-docs/oci.md).
BB="#;

pub const DHCP_3: &'static str = r#"

case "$1" in
  deconfig)
    $BB ip addr flush dev "$interface" 2>/dev/null
    $BB ip link set "$interface" up 2>/dev/null
    ;;
  bound|renew)
    $BB ip addr flush dev "$interface" 2>/dev/null
    $BB ip addr add "$ip/${mask:-24}" dev "$interface" 2>/dev/null
    $BB ip link set "$interface" up 2>/dev/null
    for gateway in $router; do
      $BB ip route add default via "$gateway" dev "$interface" 2>/dev/null
      break
    done
    # Some images symlink resolv.conf at a resolver stub they never ship, so
    # the link target never appears. Replace the link with a real file.
    [ -L /etc/resolv.conf ] && $BB rm -f /etc/resolv.conf
    : >/etc/resolv.conf
    for server in $dns; do
      printf 'nameserver %s\n' "$server" >>/etc/resolv.conf
    done
    ;;
esac
exit 0
"#;

/// What the init runs once: it mounts what the guest needs, brings up the network, tells
/// the host whether that worked, and starts the services.
pub open spec fn boot_text(agent: Seq<char>) -> Seq<char> {
    BOOT_1@
        + GUEST_TOOLBOX@
        + BOOT_2@
        + GUEST_TOOLBOX@
        + BOOT_3@
        + agent
        + BOOT_4@
        + GUEST_DHCP_SCRIPT@
        + BOOT_5@
        + BASE_PACKAGE_INSTALL@
        + BOOT_6@
        + GUEST_SERVICES@
        + BOOT_7@
}

/// What the init runs once: it mounts what the guest needs, brings up the network, tells
/// the host whether that worked, and starts the services. `agent` is where the metrics agent lies.
pub fn boot_script(agent: &str) -> (r: String)
    ensures
        r@ == boot_text(agent@),
{
    BOOT_1.to_owned()
        .concat(GUEST_TOOLBOX)
        .concat(BOOT_2)
        .concat(GUEST_TOOLBOX)
        .concat(BOOT_3)
        .concat(agent)
        .concat(BOOT_4)
        .concat(GUEST_DHCP_SCRIPT)
        .concat(BOOT_5)
        .concat(BASE_PACKAGE_INSTALL)
        .concat(BOOT_6)
        .concat(GUEST_SERVICES)
        .concat(BOOT_7)
}

/// The console: the banner, a summary of the system where the guest has a tool for that,
/// and a shell.
pub open spec fn console_text() -> Seq<char> {
    CONSOLE_1@
        + GUEST_TOOLBOX@
        + CONSOLE_2@
        + GUEST_TOOLBOX@
        + CONSOLE_3@
}

/// The console: the banner, a summary of the system where the guest has a tool for that,
/// and a shell.
pub fn console_script() -> (r: String)
    ensures
        r@ == console_text(),
{
    CONSOLE_1.to_owned()
        .concat(GUEST_TOOLBOX)
        .concat(CONSOLE_2)
        .concat(GUEST_TOOLBOX)
        .concat(CONSOLE_3)
}

/// What the DHCP client calls: the lease comes in the environment, and `mask` is a prefix
/// length there.
pub open spec fn dhcp_text() -> Seq<char> {
    DHCP_1@
        + GUEST_TOOLBOX@
        + DHCP_2@
        + GUEST_TOOLBOX@
        + DHCP_3@
}

/// What the DHCP client calls: the lease comes in the environment, and `mask` is a prefix
/// length there.
pub fn dhcp_script() -> (r: String)
    ensures
        r@ == dhcp_text(),
{
    DHCP_1.to_owned()
        .concat(GUEST_TOOLBOX)
        .concat(DHCP_2)
        .concat(GUEST_TOOLBOX)
        .concat(DHCP_3)
}

/// The job table of the init. Its commands hold no character that would make the init
/// call a shell, which an image may lack.
pub open spec fn inittab_text(agetty: Option<Seq<char>>) -> Seq<char> {
    let console = match agetty {
        Some(getty) => "ttyS0::respawn:"@ + getty
            + " --autologin root --noclear --keep-baud 115200,57600,38400,9600 ttyS0 linux"@,
        None => "::respawn:-"@ + GUEST_TOOLBOX@ + " sh "@ + GUEST_CONSOLE_SCRIPT@,
    };
    "# Firecrab guest runtime for an imported OCI image (public-docs/oci.md).\n::sysinit:"@
        + GUEST_TOOLBOX@ + " sh "@ + GUEST_BOOT_SCRIPT@ + "\n"@ + console + "\n::ctrlaltdel:"@
        + GUEST_TOOLBOX@ + " poweroff -f\n::shutdown:"@ + GUEST_TOOLBOX@ + " sync\n::restart:"@
        + GUEST_INIT@ + "\n"@
}

/// The job table of the init: the console is a getty where the image has one.
pub fn inittab(agetty: Option<&str>) -> (r: String)
    ensures
        r@ == inittab_text(opt_text(agetty)),
{
    let console = match agetty {
        Some(getty) => "ttyS0::respawn:".to_owned().concat(getty).concat(
            " --autologin root --noclear --keep-baud 115200,57600,38400,9600 ttyS0 linux",
        ),
        None => "::respawn:-".to_owned().concat(GUEST_TOOLBOX).concat(" sh ").concat(
            GUEST_CONSOLE_SCRIPT,
        ),
    };
    "# Firecrab guest runtime for an imported OCI image (public-docs/oci.md).\n::sysinit:".to_owned().concat(
        GUEST_TOOLBOX,
    ).concat(" sh ").concat(GUEST_BOOT_SCRIPT).concat("\n").concat(&console).concat(
        "\n::ctrlaltdel:",
    ).concat(GUEST_TOOLBOX).concat(" poweroff -f\n::shutdown:").concat(GUEST_TOOLBOX).concat(
        " sync\n::restart:",
    ).concat(GUEST_INIT).concat("\n")
}

/// The programs and texts that are injected beside the toolbox.
#[derive(Debug)]
pub struct GuestParts {
    /// The banner of the console.
    pub motd: String,
    /// Where the metrics agent lies in the guest, and its script.
    pub agent_path: String,
    pub agent_script: String,
    /// Where the ssh service lies in the guest, and its script.
    pub sshd_path: String,
    pub sshd_script: String,
    /// Where the system summary lies in the guest, and its program on the host.
    pub fastfetch_path: String,
    pub fastfetch: Option<String>,
    /// Where the loader of the C library that the summary needs may lie.
    pub loaders: Vec<String>,
}

/// The directories that must be there for mounts, with their modes.
pub open spec fn mount_points() -> Seq<(Seq<char>, u32)> {
    seq![
        ("/proc"@, 0o755u32),
        ("/sys"@, 0o755u32),
        ("/dev"@, 0o755u32),
        ("/run"@, 0o755u32),
        ("/tmp"@, 0o1777u32),
    ]
}

impl Run {
    /// Makes the directories named.
    pub open spec fn ensure_directories(
        self,
        tree: Seq<char>,
        wanted: Seq<(Seq<char>, u32)>,
    ) -> Run
        decreases wanted.len(),
    {
        if wanted.len() == 0 {
            self
        } else {
            self.ensure_guest_directory(tree, wanted[0].0, wanted[0].1).ensure_directories(
                tree,
                wanted.skip(1),
            )
        }
    }

    /// Copies the system summary into a guest that can run it.
    pub open spec fn install_fastfetch(self, tree: Seq<char>, parts: GuestParts) -> Run {
        match parts.fastfetch {
            None => self,
            Some(source) => {
                let (after, loader) = self.first_existing(tree, views(parts.loaders@));
                if loader is Some {
                    after.install_program(tree, parts.fastfetch_path@, source@)
                } else {
                    after
                }
            },
        }
    }

    /// Sets up the console: a login shell where the image has bash, and the job table
    /// of the init.
    pub open spec fn set_up_console(self, tree: Seq<char>) -> Run {
        let (after, bash) = self.first_existing(tree, seq!["/bin/bash"@, "/usr/bin/bash"@]);
        let after = match bash {
            Some(shell) => after.set_root_shell(tree, shell),
            None => after,
        };
        let (after, agetty) = after.ensure_securetty(tree).first_existing(
            tree,
            seq!["/sbin/agetty"@, "/usr/sbin/agetty"@],
        );
        after.install_file(tree, GUEST_INITTAB@, encode_utf8(inittab_text(agetty)), 0o644)
    }

    /// Injects the guest runtime into the tree.
    pub open spec fn inject(self, tree: Seq<char>, toolbox: Seq<char>, parts: GuestParts) -> Run {
        self.check(tree).ensure_directories(tree, mount_points()).check(
            tree,
        ).ensure_guest_directory(tree, GUEST_SERVICES@, 0o755).check(tree).install_program(
            tree,
            GUEST_TOOLBOX@,
            toolbox,
        ).install_symlink(tree, GUEST_INIT@, GUEST_TOOLBOX@).install_toolbox_commands(
            tree,
        ).install_fastfetch(tree, parts).check(tree).set_up_console(tree).install_file(
            tree,
            GUEST_BOOT_SCRIPT@,
            encode_utf8(boot_text(parts.agent_path@)),
            0o755,
        ).install_file(
            tree,
            GUEST_CONSOLE_SCRIPT@,
            encode_utf8(console_text()),
            0o755,
        ).install_file(tree, GUEST_MOTD@, encode_utf8(parts.motd@), 0o644).install_file(
            tree,
            GUEST_DHCP_SCRIPT@,
            encode_utf8(dhcp_text()),
            0o755,
        ).install_file(
            tree,
            parts.sshd_path@,
            encode_utf8(parts.sshd_script@),
            0o755,
        ).check(tree).install_file(
            tree,
            parts.agent_path@,
            encode_utf8(parts.agent_script@),
            0o755,
        )
    }

    /// The start of a run with the answers that there are.
    pub open spec fn begin(answers: Seq<Answer>) -> Run {
        Run { answers, at: 0, trace: Seq::empty(), log: Log::empty(), stop: None }
    }
}

/// How far an injection has come.
#[derive(Debug)]
pub enum Progress {
    /// The next question; its answer joins the others.
    Ask(Request),
    /// The injection is over. The steps in `undo` have to be taken whatever `result`
    /// is: they undo a failed injection, and lock again what was made writable.
    Over { result: Result<(), ResolveError>, undo: Vec<Undo> },
}

/// Whether `progress` is what a run comes to.
pub open spec fn reached(run: Run, progress: Progress) -> bool {
    match run.stop {
        Some(Stop::Ask(question)) => progress matches Progress::Ask(request) && request@
            == question,
        Some(Stop::Fail(refusal)) => progress matches Progress::Over { result: Err(error), undo }
            && error@ == refusal && reversals(undo@) == run.log.restore(),
        None => progress matches Progress::Over { result: Ok(_), undo } && reversals(undo@)
            == run.log.modes(),
    }
}

proof fn stopped_directories_end(run: Run, tree: Seq<char>, wanted: Seq<(Seq<char>, u32)>)
    requires
        run.stop is Some,
    ensures
        run.ensure_directories(tree, wanted) == run,
    decreases wanted.len(),
{
    if wanted.len() > 0 {
        stopped_directory_ends(run, tree, wanted[0].0, wanted[0].1);
        stopped_directories_end(run, tree, wanted.skip(1));
    }
}

proof fn stopped_directory_ends(run: Run, tree: Seq<char>, guest: Seq<char>, mode: u32)
    requires
        run.stop is Some,
    ensures
        run.ensure_guest_directory(tree, guest, mode) == run,
{
    assert(run.resolve_parent(tree, guest).0 == run);
}

proof fn stopped_file_ends(
    run: Run,
    tree: Seq<char>,
    guest: Seq<char>,
    contents: Seq<u8>,
    mode: u32,
)
    requires
        run.stop is Some,
    ensures
        run.install_file(tree, guest, contents, mode) == run,
{
    stopped_room_ends(run, tree, guest);
}

proof fn stopped_console_ends(run: Run, tree: Seq<char>)
    requires
        run.stop is Some,
    ensures
        run.set_up_console(tree) == run,
{
    stopped_search_ends(run, tree, seq!["/bin/bash"@, "/usr/bin/bash"@]);
    stopped_search_ends(run, tree, seq!["/sbin/agetty"@, "/usr/sbin/agetty"@]);
    let agetty = run.first_existing(tree, seq!["/sbin/agetty"@, "/usr/sbin/agetty"@]).1;
    stopped_file_ends(run, tree, GUEST_INITTAB@, encode_utf8(inittab_text(agetty)), 0o644);
}

impl<'a> Injection<'a> {
    /// Makes the directories that must be there for mounts.
    fn ensure_mount_points(&mut self, tree: &str) -> (r: Result<(), Halt>)
        requires
            old(self).open(),
        ensures
            final(self).open(),
            final(self).ended(r) == old(self).run().ensure_directories(tree@, mount_points()),
    {
        let wanted = [
            ("/proc", 0o755u32),
            ("/sys", 0o755u32),
            ("/dev", 0o755u32),
            ("/run", 0o755u32),
            ("/tmp", 0o1777u32),
        ];
        let ghost all = mount_points();
        let mut i: usize = 0;
        assert(all.skip(0) =~= all);
        while i < 5
            invariant
                self.open(),
                i <= 5,
                all == mount_points(),
                forall|j: int| 0 <= j < 5 ==> (#[trigger] wanted@[j]).0@ == all[j].0 && wanted@[j].1 == all[j].1,
                self.run().ensure_directories(tree@, all.skip(i as int)) == old(
                    self,
                ).run().ensure_directories(tree@, all),
            decreases 5 - i,
        {
            assert(wanted@[i as int].0@ == all[i as int].0);
            assert(all.skip(i as int)[0] == all[i as int]);
            assert(all.skip(i as int).skip(1) =~= all.skip(i + 1));
            if let Err(halt) = self.ensure_guest_directory(tree, wanted[i].0, wanted[i].1) {
                proof {
                    stopped_directories_end(
                        self.ended(Err::<(), Halt>(halt)),
                        tree@,
                        all.skip(i + 1),
                    );
                }
                return Err(halt);
            }
            i += 1;
        }
        Ok(())
    }

    /// Copies the system summary into a guest that can run it.
    fn install_fastfetch(&mut self, tree: &str, parts: &GuestParts) -> (r: Result<(), Halt>)
        requires
            old(self).open(),
        ensures
            final(self).open(),
            final(self).ended(r) == old(self).run().install_fastfetch(tree@, *parts),
    {
        match &parts.fastfetch {
            None => Ok(()),
            Some(source) => {
                let loader = self.first_existing(tree, &parts.loaders)?;
                match loader {
                    Some(_) => self.install_program(tree, &parts.fastfetch_path, source),
                    None => Ok(()),
                }
            },
        }
    }

    /// Sets up the console.
    fn set_up_console(&mut self, tree: &str) -> (r: Result<(), Halt>)
        requires
            old(self).open(),
        ensures
            final(self).open(),
            final(self).ended(r) == old(self).run().set_up_console(tree@),
    {
        let shells = crate::text::to_strings(&GUEST_BASH_CANDIDATES);
        let gettys = crate::text::to_strings(&GUEST_AGETTY_CANDIDATES);
        proof {
            assert(texts(GUEST_BASH_CANDIDATES@) =~= seq!["/bin/bash"@, "/usr/bin/bash"@]);
            assert(texts(GUEST_AGETTY_CANDIDATES@) =~= seq!["/sbin/agetty"@, "/usr/sbin/agetty"@]);
        }
        match self.set_up_login(tree, &shells) {
            Ok(()) => {},
            Err(halt) => {
                proof {
                    let stopped = self.ended(Err::<(), Halt>(halt));
                    stopped_search_ends(stopped, tree@, views(gettys@));
                    let agetty = stopped.first_existing(tree@, views(gettys@)).1;
                    stopped_file_ends(
                        stopped,
                        tree@,
                        GUEST_INITTAB@,
                        encode_utf8(inittab_text(agetty)),
                        0o644,
                    );
                }
                return Err(halt);
            },
        }
        let agetty = match self.first_existing(tree, &gettys) {
            Ok(agetty) => agetty,
            Err(halt) => {
                proof {
                    let stopped = self.ended(Err::<(), Halt>(halt));
                    stopped_file_ends(
                        stopped,
                        tree@,
                        GUEST_INITTAB@,
                        encode_utf8(inittab_text(None)),
                        0o644,
                    );
                }
                return Err(halt);
            },
        };
        let table = match &agetty {
            Some(getty) => inittab(Some(getty.as_str())),
            None => inittab(None),
        };
        self.install_file(tree, GUEST_INITTAB, table.as_str().as_bytes(), 0o644)
    }

    /// Gives root a login shell where the image has bash, and lets root log in.
    fn set_up_login(&mut self, tree: &str, shells: &[String]) -> (r: Result<(), Halt>)
        requires
            old(self).open(),
        ensures
            final(self).open(),
            final(self).ended(r) == ({
                let (after, bash) = old(self).run().first_existing(tree@, views(shells@));
                match bash {
                    Some(shell) => after.set_root_shell(tree@, shell),
                    None => after,
                }
            }).ensure_securetty(tree@),
    {
        if let Some(shell) = self.first_existing(tree, shells)? {
            self.set_root_shell(tree, &shell)?;
        }
        self.ensure_securetty(tree)
    }
}

/// A run that has stopped does nothing more, whatever it is told to do.
pub proof fn a_stopped_run_does_nothing()
    ensures
        forall|run: Run, tree: Seq<char>| run.stop is Some ==> #[trigger] run.check(tree) == run,
        forall|run: Run, tree: Seq<char>, wanted: Seq<(Seq<char>, u32)>|
            run.stop is Some ==> #[trigger] run.ensure_directories(tree, wanted) == run,
        forall|run: Run, tree: Seq<char>, guest: Seq<char>, mode: u32|
            run.stop is Some ==> #[trigger] run.ensure_guest_directory(tree, guest, mode) == run,
        forall|run: Run, tree: Seq<char>, guest: Seq<char>, source: Seq<char>|
            run.stop is Some ==> #[trigger] run.install_program(tree, guest, source) == run,
        forall|run: Run, tree: Seq<char>, guest: Seq<char>, target: Seq<char>|
            run.stop is Some ==> #[trigger] run.install_symlink(tree, guest, target) == run,
        forall|run: Run, tree: Seq<char>| run.stop is Some ==> #[trigger]
            run.install_toolbox_commands(tree) == run,
        forall|run: Run, tree: Seq<char>, parts: GuestParts|
            run.stop is Some ==> #[trigger] run.install_fastfetch(tree, parts) == run,
        forall|run: Run, tree: Seq<char>| run.stop is Some ==> #[trigger] run.set_up_console(tree)
            == run,
        forall|run: Run, tree: Seq<char>, guest: Seq<char>, contents: Seq<u8>, mode: u32|
            run.stop is Some ==> #[trigger] run.install_file(tree, guest, contents, mode) == run,
{
    assert forall|run: Run, tree: Seq<char>, wanted: Seq<(Seq<char>, u32)>|
        run.stop is Some implies #[trigger] run.ensure_directories(tree, wanted) == run by {
        stopped_directories_end(run, tree, wanted);
    }
    assert forall|run: Run, tree: Seq<char>, guest: Seq<char>, mode: u32|
        run.stop is Some implies #[trigger] run.ensure_guest_directory(tree, guest, mode)
        == run by {
        stopped_directory_ends(run, tree, guest, mode);
    }
    assert forall|run: Run, tree: Seq<char>, guest: Seq<char>, target: Seq<char>|
        run.stop is Some implies #[trigger] run.install_symlink(tree, guest, target) == run by {
        stopped_link_ends(run, tree, guest, target);
    }
    assert forall|run: Run, tree: Seq<char>| run.stop is Some implies #[trigger]
        run.install_toolbox_commands(tree) == run by {
        stopped_links_end(run, tree, path_applets(), false);
    }
    assert forall|run: Run, tree: Seq<char>, parts: GuestParts|
        run.stop is Some implies #[trigger] run.install_fastfetch(tree, parts) == run by {
        stopped_search_ends(run, tree, views(parts.loaders@));
    }
    assert forall|run: Run, tree: Seq<char>| run.stop is Some implies #[trigger]
        run.set_up_console(tree) == run by {
        stopped_console_ends(run, tree);
    }
    assert forall|run: Run, tree: Seq<char>, guest: Seq<char>, contents: Seq<u8>, mode: u32|
        run.stop is Some implies #[trigger] run.install_file(tree, guest, contents, mode)
        == run by {
        stopped_file_ends(run, tree, guest, contents, mode);
    }
}

impl<'a> Injection<'a> {
    /// Injects the guest runtime into the tree.
    fn inject(&mut self, tree: &str, toolbox: &str, parts: &GuestParts) -> (r: Result<(), Halt>)
        requires
            old(self).open(),
        ensures
            final(self).open(),
            final(self).ended(r) == old(self).run().inject(tree@, toolbox@, *parts),
    {
        proof {
            a_stopped_run_does_nothing();
        }
        self.check(tree)?;
        self.ensure_mount_points(tree)?;
        self.check(tree)?;
        self.ensure_guest_directory(tree, GUEST_SERVICES, 0o755)?;

        self.check(tree)?;
        self.install_program(tree, GUEST_TOOLBOX, toolbox)?;
        self.install_symlink(tree, GUEST_INIT, GUEST_TOOLBOX)?;
        self.install_toolbox_commands(tree)?;
        self.install_fastfetch(tree, parts)?;

        self.check(tree)?;
        self.set_up_console(tree)?;
        self.install_file(
            tree,
            GUEST_BOOT_SCRIPT,
            boot_script(&parts.agent_path).as_str().as_bytes(),
            0o755,
        )?;
        self.install_file(
            tree,
            GUEST_CONSOLE_SCRIPT,
            console_script().as_str().as_bytes(),
            0o755,
        )?;
        self.install_file(tree, GUEST_MOTD, parts.motd.as_str().as_bytes(), 0o644)?;
        self.install_file(tree, GUEST_DHCP_SCRIPT, dhcp_script().as_str().as_bytes(), 0o755)?;
        self.install_file(
            tree,
            &parts.sshd_path,
            parts.sshd_script.as_str().as_bytes(),
            0o755,
        )?;

        self.check(tree)?;
        self.install_file(
            tree,
            &parts.agent_path,
            parts.agent_script.as_str().as_bytes(),
            0o755,
        )
    }
}

/// Injects the guest runtime into the tree, as far as the answers so far go; a run
/// begins without answers. An injection that fails is undone by the steps it names.
pub fn inject_blocking(
    tree: &str,
    toolbox: &str,
    parts: &GuestParts,
    answers: &[Answer],
) -> (r: Progress)
    ensures
        reached(Run::begin(answers@).inject(tree@, toolbox@, *parts), r),
{
    let mut injection = Injection {
        answers,
        at: 0,
        trace: Ghost(Seq::empty()),
        unwind: InjectedPaths::new(),
    };
    match injection.inject(tree, toolbox, parts) {
        Ok(()) => {
            let undo = injection.unwind.restore_modes();
            injection.unwind.keep();
            Progress::Over { result: Ok(()), undo }
        },
        Err(Halt::Ask(request)) => Progress::Ask(request),
        Err(Halt::Fail(error)) => {
            let undo = injection.unwind.restore();
            Progress::Over { result: Err(error), undo }
        },
    }
}

/// A component that neither names a place above nor spans several.
pub open spec fn plain(component: Seq<char>) -> bool {
    component.len() > 0 && !component.contains('/') && component != "."@ && component != ".."@
}

/// A component that may be met on the way: a plain one, or `..`.
pub open spec fn walkable(component: Seq<char>) -> bool {
    component.len() > 0 && !component.contains('/') && component != "."@
}

proof fn pieces_hold_no_separator(s: Seq<char>, c: char)
    ensures
        forall|i: int| 0 <= i < split(s, c).len() ==> !(#[trigger] split(s, c)[i]).contains(c),
    decreases s.len(),
{
    let at = crate::text::first_at(s, c);
    crate::text::first_at_bounds(s, c);
    if at < s.len() {
        pieces_hold_no_separator(s.skip(at + 1), c);
        let rest = split(s.skip(at + 1), c);
        assert forall|i: int| 0 <= i < split(s, c).len() implies !(#[trigger] split(
            s,
            c,
        )[i]).contains(c) by {
            if i > 0 {
                assert(split(s, c)[i] == rest[i - 1]);
            }
        }
    }
}

proof fn steps_are_walkable(pieces: Seq<Seq<char>>)
    requires
        forall|i: int| 0 <= i < pieces.len() ==> !(#[trigger] pieces[i]).contains('/'),
    ensures
        forall|i: int| 0 <= i < steps(pieces).len() ==> walkable(#[trigger] steps(pieces)[i]),
    decreases pieces.len(),
{
    if pieces.len() > 0 {
        reveal_strlit(".");
        assert("."@ =~= seq!['.']);
        let last = pieces[pieces.len() - 1];
        assert(!last.contains('/'));
        let before = pieces.drop_last();
        assert forall|i: int| 0 <= i < before.len() implies !(#[trigger] before[i]).contains(
            '/',
        ) by {
            assert(before[i] == pieces[i]);
        }
        steps_are_walkable(before);
        assert forall|i: int| 0 <= i < steps(pieces).len() implies walkable(
            #[trigger] steps(pieces)[i],
        ) by {
            if i < steps(before).len() {
                assert(steps(pieces)[i] == steps(before)[i]);
            } else {
                assert(steps(pieces)[i] == last);
            }
        }
    }
}

/// Whether every component is plain.
pub open spec fn all_plain(components: Seq<Seq<char>>) -> bool {
    forall|i: int| 0 <= i < components.len() ==> plain(#[trigger] components[i])
}

proof fn walking_stays_plain(
    run: Run,
    tree: Seq<char>,
    guest: Seq<char>,
    pending: Seq<Seq<char>>,
    resolved: Seq<Seq<char>>,
    left: nat,
)
    requires
        forall|i: int| 0 <= i < pending.len() ==> walkable(#[trigger] pending[i]),
        all_plain(resolved),
    ensures
        all_plain(run.walk(tree, guest, pending, resolved, left).1),
    decreases left, pending.len(),
{
    if !(run.stop is Some || pending.len() == 0) {
        let rest = pending.skip(1);
        assert(walkable(pending[0]));
        assert forall|i: int| 0 <= i < rest.len() implies walkable(#[trigger] rest[i]) by {
            assert(rest[i] == pending[i + 1]);
        }
        if pending[0] == ".."@ {
            let up = if resolved.len() > 0 {
                resolved.drop_last()
            } else {
                resolved
            };
            assert forall|i: int| 0 <= i < up.len() implies plain(#[trigger] up[i]) by {
                assert(up[i] == resolved[i]);
            }
            walking_stays_plain(run, tree, guest, rest, up, left);
        } else {
            let candidate = resolved.push(pending[0]);
            assert forall|i: int| 0 <= i < candidate.len() implies plain(
                #[trigger] candidate[i],
            ) by {
                if i < resolved.len() {
                    assert(candidate[i] == resolved[i]);
                }
            }
            let absolute = place(tree, candidate);
            let (after, answer) = run.ask(Question::Inspect(absolute));
            match answer {
                Answer::Directory { .. } => {
                    walking_stays_plain(after, tree, guest, rest, candidate, left);
                },
                Answer::Link => {
                    if left > 0 {
                        let (read, answer) = after.ask(Question::ReadLink(absolute));
                        if let Answer::Text(target) = answer {
                            pieces_hold_no_separator(target@, '/');
                            steps_are_walkable(split(target@, '/'));
                            let link = steps(split(target@, '/'));
                            let spliced = link + rest;
                            assert forall|i: int| 0 <= i < spliced.len() implies walkable(
                                #[trigger] spliced[i],
                            ) by {
                                if i < link.len() {
                                    assert(spliced[i] == link[i]);
                                } else {
                                    assert(spliced[i] == rest[i - link.len()]);
                                }
                            }
                            let from = if is_absolute(target@) {
                                Seq::empty()
                            } else {
                                resolved
                            };
                            walking_stays_plain(
                                read,
                                tree,
                                guest,
                                spliced,
                                from,
                                (left - 1) as nat,
                            );
                        }
                    }
                },
                Answer::Missing => {
                    walking_stays_plain(
                        after.create_directory(absolute, 0o755),
                        tree,
                        guest,
                        rest,
                        candidate,
                        left,
                    );
                },
                _ => {},
            }
        }
    }
}

proof fn plain_places_lie_below(tree: Seq<char>, components: Seq<Seq<char>>)
    requires
        all_plain(components),
    ensures
        starts_with(place(tree, components), tree),
    decreases components.len(),
{
    if components.len() == 0 {
        assert(tree.subrange(0, tree.len() as int) =~= tree);
    } else {
        let last = components.last();
        assert(plain(components[components.len() - 1]));
        plain_places_lie_below(tree, components.drop_last());
        let base = place(tree, components.drop_last());
        let whole = place(tree, components);
        assert(last[0] != '/') by {
            if last[0] == '/' {
                assert(last.contains('/'));
            }
        }
        assert(base.subrange(0, tree.len() as int) == tree);
        assert(whole.subrange(0, tree.len() as int) =~= base.subrange(0, tree.len() as int));
    }
}

/// Whatever links an image holds, the directory that a guest path is found to lie in is
/// a place of the tree: each of its components is an ordinary name, and its path begins
/// with that of the tree.
pub proof fn a_resolved_path_stays_in_the_tree(run: Run, tree: Seq<char>, guest: Seq<char>)
    ensures
        ({
            let parent = run.resolve_parent(tree, guest).1;
            &&& all_plain(parent)
            &&& starts_with(place(tree, parent), tree)
        }),
{
    let dir = guest.take(name_start(guest));
    pieces_hold_no_separator(dir, '/');
    steps_are_walkable(split(dir, '/'));
    walking_stays_plain(
        run,
        tree,
        guest,
        guest_parent(guest),
        Seq::empty(),
        SYMLINK_HOP_LIMIT as nat,
    );
    plain_places_lie_below(tree, run.resolve_parent(tree, guest).1);
}

} // verus!
