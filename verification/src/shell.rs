//! External commands: how one is run, and a runner with canned answers.
//!
//! Contracts speak of a [`Host`]: the commands run so far, and a `world` that
//! says how a command is answered after given earlier ones. Whatever the real
//! host answers in one run of the program is such a world.

use vstd::prelude::*;

use crate::text::{decimal_of, same, to_strings};
#[allow(unused_imports)]
use crate::text::{decimal, texts, views};
#[allow(unused_imports)]
use vstd::utf8::encode_utf8;

verus! {

/// One command line handed to the host, with what was written to its input.
pub struct Call {
    pub cmd: Seq<char>,
    pub args: Seq<Seq<char>>,
    pub stdin: Option<Seq<u8>>,
}

/// How the host answered a command.
pub enum Reply {
    /// The command could not be started.
    Failed { kind: SpawnErrorKind, message: Seq<char> },
    /// The command ran to its end.
    Done { success: bool, status: Seq<char>, stdout: Seq<u8>, stderr: Seq<u8> },
}

impl Reply {
    /// The command ran and reported success.
    pub open spec fn succeeded(self) -> bool {
        self matches Reply::Done { success, .. } && success
    }
}

/// The commands run so far, and the answer to each sequence of commands: it
/// answers the last of them.
pub struct Host {
    pub world: spec_fn(Seq<Call>) -> Reply,
    pub calls: Seq<Call>,
}

impl Host {
    /// The host after one more command, and its answer.
    pub open spec fn call(self, call: Call) -> (Host, Reply) {
        let calls = self.calls.push(call);
        (Host { world: self.world, calls }, (self.world)(calls))
    }

    /// The host after one more command without input, and its answer.
    pub open spec fn run(self, cmd: Seq<char>, args: Seq<Seq<char>>) -> (Host, Reply) {
        self.call(Call { cmd, args, stdin: None })
    }
}

/// Why a command could not be started.
#[derive(Debug, Clone, Copy, PartialEq, Eq, Structural)]
pub enum SpawnErrorKind {
    /// There is no such program.
    NotFound,
    /// Anything else.
    Other,
}

/// A command that could not be started.
#[derive(Debug)]
pub struct SpawnError {
    pub kind: SpawnErrorKind,
    /// What the host said.
    pub message: String,
}

impl SpawnError {
    /// The kind of failure.
    pub fn kind(&self) -> (r: SpawnErrorKind)
        ensures
            r == self.kind,
    {
        self.kind
    }
}

/// How a command ended.
#[derive(Debug)]
pub struct ExitStatus {
    pub success: bool,
    /// The status in words, such as `exit status: 1`.
    pub text: String,
}

impl ExitStatus {
    /// The command reported success.
    pub fn success(&self) -> (r: bool)
        ensures
            r == self.success,
    {
        self.success
    }
}

/// What a command that ran to its end left behind.
#[derive(Debug)]
pub struct Output {
    pub status: ExitStatus,
    pub stdout: Vec<u8>,
    pub stderr: Vec<u8>,
}

/// The answer that a result of [`CommandRunner::run`] stands for.
pub open spec fn reply(r: Result<Output, SpawnError>) -> Reply {
    match r {
        Ok(out) => Reply::Done {
            success: out.status.success,
            status: out.status.text@,
            stdout: out.stdout@,
            stderr: out.stderr@,
        },
        Err(e) => Reply::Failed { kind: e.kind, message: e.message@ },
    }
}

/// Runs external commands.
pub trait CommandRunner {
    /// How this host answers. Of a host outside the library nothing is known.
    closed spec fn world(&self) -> spec_fn(Seq<Call>) -> Reply {
        arbitrary()
    }

    /// The commands run so far.
    closed spec fn history(&self) -> Seq<Call> {
        arbitrary()
    }

    /// Runs a command: `Err` means that it could not even be started, a failing
    /// one is still `Ok`.
    fn run(&mut self, cmd: &str, args: &[&str]) -> (r: Result<Output, SpawnError>)
        ensures
            final(self).world() == old(self).world(),
            final(self).history() == old(self).history().push(
                Call { cmd: cmd@, args: texts(args@), stdin: None },
            ),
            reply(r) == (old(self).world())(final(self).history()),
    ;

    /// Like [`CommandRunner::run`], with `input` written to the command's input first.
    fn run_with_stdin(&mut self, cmd: &str, args: &[&str], input: &[u8]) -> (r: Result<
        Output,
        SpawnError,
    >)
        ensures
            final(self).world() == old(self).world(),
            final(self).history() == old(self).history().push(
                Call { cmd: cmd@, args: texts(args@), stdin: Some(input@) },
            ),
            reply(r) == (old(self).world())(final(self).history()),
    ;
}

/// The host that a runner works on.
pub open spec fn host<R: CommandRunner>(runner: R) -> Host {
    Host { world: runner.world(), calls: runner.history() }
}

/// One command as the fake runner keeps it.
struct Invocation {
    cmd: String,
    args: Vec<String>,
    stdin: Option<Vec<u8>>,
}

impl Invocation {
    spec fn call(self) -> Call {
        Call {
            cmd: self.cmd@,
            args: views(self.args@),
            stdin: match self.stdin {
                Some(bytes) => Some(bytes@),
                None => None,
            },
        }
    }
}

impl Invocation {
    fn line(&self) -> (r: String)
        ensures
            r@ == command_line(self.call().cmd, self.call().args),
    {
        let mut line = self.cmd.clone();
        let mut i: usize = 0;
        while i < self.args.len()
            invariant
                i <= self.args@.len(),
                line@ == command_line(self.cmd@, views(self.args@).take(i as int)),
            decreases self.args@.len() - i,
        {
            line = line.concat(" ").concat(self.args[i].as_str());
            assert(views(self.args@).take(i + 1).drop_last() =~= views(self.args@).take(i as int));
            i += 1;
        }
        assert(views(self.args@).take(i as int) =~= views(self.args@));
        line
    }
}

/// One canned answer.
struct Canned {
    code: i32,
    stdout: String,
    stderr: String,
}

impl Canned {
    spec fn reply(self) -> Reply {
        exited(self.code, encode_utf8(self.stdout@), encode_utf8(self.stderr@))
    }

    fn output(&self) -> (r: Output)
        ensures
            reply(Ok(r)) == self.reply(),
    {
        let low: i32 = self.code & 0xff;
        let code = self.code;
        assert(0 <= code & 0xff <= 0xff) by (bit_vector);
        let text = "exit status: ".to_owned().concat(&decimal_of(low as u64));
        Output {
            status: ExitStatus { success: self.code & 0xff_ffff == 0, text },
            stdout: self.stdout.as_str().as_bytes_vec(),
            stderr: self.stderr.as_str().as_bytes_vec(),
        }
    }
}

/// What a process that exits with `code` leaves behind: the low eight bits of the
/// code show in the message, and it counts as success when the low 24 are zero.
pub open spec fn exited(code: i32, stdout: Seq<u8>, stderr: Seq<u8>) -> Reply {
    Reply::Done {
        success: code & 0xff_ffff == 0,
        status: "exit status: "@ + decimal((code & 0xff) as nat),
        stdout,
        stderr,
    }
}

/// The answers registered for one command line, exec form.
struct Entry {
    since: usize,
    line: String,
    answers: Vec<Canned>,
}

impl Entry {
    spec fn registration(self) -> Registration {
        Registration {
            since: self.since as nat,
            line: self.line@,
            answers: self.answers@.map_values(|a: Canned| a.reply()),
        }
    }
}

/// The answers registered for one command line, in force once `since` commands
/// had been run.
pub struct Registration {
    pub since: nat,
    pub line: Seq<char>,
    pub answers: Seq<Reply>,
}

/// The command line of a call: the command and its arguments, with a space
/// between each and the next.
pub open spec fn command_line(cmd: Seq<char>, args: Seq<Seq<char>>) -> Seq<char>
    decreases args.len(),
{
    if args.len() == 0 {
        cmd
    } else {
        command_line(cmd, args.drop_last()) + " "@ + args.last()
    }
}

/// The answers of the last registration for `line` that was in force when `n`
/// commands had been run.
pub open spec fn in_force(registrations: Seq<Registration>, line: Seq<char>, n: int) -> Option<
    Seq<Reply>,
>
    decreases registrations.len(),
{
    if registrations.len() == 0 {
        None
    } else if registrations.last().line == line && registrations.last().since <= n {
        Some(registrations.last().answers)
    } else {
        in_force(registrations.drop_last(), line, n)
    }
}

/// How many answers for `line` the first `n` calls have used up; the last answer
/// of a sequence is never used up.
pub open spec fn used(
    registrations: Seq<Registration>,
    calls: Seq<Call>,
    line: Seq<char>,
    n: int,
) -> int
    decreases n,
{
    if n <= 0 {
        0
    } else {
        let before = used(registrations, calls, line, n - 1);
        let call = calls[n - 1];
        match in_force(registrations, line, n - 1) {
            Some(answers) => if command_line(call.cmd, call.args) == line && before + 1
                < answers.len() {
                before + 1
            } else {
                before
            },
            None => before,
        }
    }
}

/// The answer of a fake runner to the last of `calls`.
pub open spec fn canned_reply(
    registrations: Seq<Registration>,
    permissive: bool,
    calls: Seq<Call>,
) -> Reply {
    let n = calls.len() - 1;
    let line = command_line(calls[n].cmd, calls[n].args);
    let answers = in_force(registrations, line, n);
    if answers is Some && answers->0.len() > 0 {
        let at = used(registrations, calls, line, n);
        answers->0[if at < answers->0.len() {
            at
        } else {
            answers->0.len() - 1
        }]
    } else if permissive {
        exited(0, Seq::empty(), Seq::empty())
    } else {
        Reply::Failed {
            kind: SpawnErrorKind::NotFound,
            message: "no fake response for: "@ + line,
        }
    }
}

/// What the last of `calls` that has the given command line and an input wrote there.
pub open spec fn last_stdin(calls: Seq<Call>, line: Seq<char>) -> Option<Seq<u8>>
    decreases calls.len(),
{
    if calls.len() == 0 {
        None
    } else if calls.last().stdin is Some && command_line(calls.last().cmd, calls.last().args)
        == line {
        calls.last().stdin
    } else {
        last_stdin(calls.drop_last(), line)
    }
}

/// A runner with canned answers, for trying out what is built on [`CommandRunner`].
pub struct FakeCommandRunner {
    entries: Vec<Entry>,
    permissive: bool,
    record: Vec<Invocation>,
}

impl FakeCommandRunner {
    /// What the runner was told to answer, in the order in which it was told.
    pub closed spec fn registrations(&self) -> Seq<Registration> {
        self.entries@.map_values(|e: Entry| e.registration())
    }

    /// Whether a command that the runner was not told of succeeds.
    pub closed spec fn is_permissive(&self) -> bool {
        self.permissive
    }

    /// The commands run so far.
    pub closed spec fn recorded(&self) -> Seq<Call> {
        self.record@.map_values(|i: Invocation| i.call())
    }

    /// A runner on which a command that it was not told of cannot be started.
    pub fn new() -> (r: Self)
        ensures
            r.history() == Seq::<Call>::empty(),
            r.registrations() == Seq::<Registration>::empty(),
            !r.is_permissive(),
    {
        FakeCommandRunner { entries: Vec::new(), permissive: false, record: Vec::new() }
    }

    /// A runner on which a command that it was not told of succeeds without output.
    pub fn permissive() -> (r: Self)
        ensures
            r.history() == Seq::<Call>::empty(),
            r.registrations() == Seq::<Registration>::empty(),
            r.is_permissive(),
    {
        FakeCommandRunner { entries: Vec::new(), permissive: true, record: Vec::new() }
    }

    /// The command lines run so far, in order.
    pub fn calls(&self) -> (r: Vec<String>)
        ensures
            views(r@) == self.history().map_values(|c: Call| command_line(c.cmd, c.args)),
    {
        let mut out: Vec<String> = Vec::new();
        let mut i: usize = 0;
        while i < self.record.len()
            invariant
                i <= self.record@.len(),
                out@.len() == i,
                forall|j: int|
                    0 <= j < i ==> (#[trigger] out@[j])@ == command_line(
                        self.record@[j].call().cmd,
                        self.record@[j].call().args,
                    ),
            decreases self.record@.len() - i,
        {
            out.push(self.record[i].line());
            i += 1;
        }
        assert(views(out@) =~= self.history().map_values(
            |c: Call| command_line(c.cmd, c.args),
        ));
        out
    }

    /// What was last written to the input of the given command line, if anything was.
    pub fn stdin_of(&self, cmd_line: &str) -> (r: Option<Vec<u8>>)
        ensures
            match r {
                Some(bytes) => Some(bytes@),
                None => None,
            } == last_stdin(self.history(), cmd_line@),
    {
        let mut i: usize = self.record.len();
        assert(self.history().take(i as int) =~= self.history());
        while i > 0
            invariant
                i <= self.record@.len(),
                last_stdin(self.history().take(i as int), cmd_line@) == last_stdin(
                    self.history(),
                    cmd_line@,
                ),
            decreases i,
        {
            let invocation = &self.record[i - 1];
            assert(self.history().take(i as int).drop_last() =~= self.history().take(i - 1));
            assert(self.history().take(i as int).last() == invocation.call());
            let line = invocation.line();
            if same(&line, cmd_line) {
                if let Some(bytes) = &invocation.stdin {
                    let found = bytes.clone();
                    assert(found@ =~= bytes@);
                    return Some(found);
                }
            }
            i -= 1;
        }
        None
    }

    /// The command line of a command: the command and its arguments, with a space
    /// between each and the next.
    pub fn key(cmd: &str, args: &[&str]) -> (r: String)
        ensures
            r@ == command_line(cmd@, texts(args@)),
    {
        let mut line = cmd.to_owned();
        let mut i: usize = 0;
        while i < args.len()
            invariant
                i <= args@.len(),
                line@ == command_line(cmd@, texts(args@).take(i as int)),
            decreases args@.len() - i,
        {
            line = line.concat(" ").concat(args[i]);
            assert(texts(args@).take(i + 1).drop_last() =~= texts(args@).take(i as int));
            i += 1;
        }
        assert(texts(args@).take(i as int) =~= texts(args@));
        line
    }

    /// Makes every later run of the command exit with `exit_code` and the given output.
    pub fn set(&mut self, cmd: &str, args: &[&str], exit_code: i32, stdout: &str, stderr: &str)
        ensures
            final(self).history() == old(self).history(),
            final(self).is_permissive() == old(self).is_permissive(),
            final(self).registrations() == old(self).registrations().push(
                Registration {
                    since: old(self).history().len(),
                    line: command_line(cmd@, texts(args@)),
                    answers: seq![exited(exit_code, encode_utf8(stdout@), encode_utf8(stderr@))],
                },
            ),
    {
        self.set_seq(cmd, args, &[(exit_code, stdout, stderr)]);
        assert(final(self).registrations().last().answers =~= seq![
            exited(exit_code, encode_utf8(stdout@), encode_utf8(stderr@)),
        ]);
    }

    /// Makes later runs of the command give the answers in turn, and the last one
    /// again and again once all were given.
    pub fn set_seq(&mut self, cmd: &str, args: &[&str], responses: &[(i32, &str, &str)])
        requires
            responses@.len() > 0,
        ensures
            final(self).history() == old(self).history(),
            final(self).is_permissive() == old(self).is_permissive(),
            final(self).registrations() == old(self).registrations().push(
                Registration {
                    since: old(self).history().len(),
                    line: command_line(cmd@, texts(args@)),
                    answers: responses@.map_values(
                        |r: (i32, &str, &str)|
                            exited(r.0, encode_utf8(r.1@), encode_utf8(r.2@)),
                    ),
                },
            ),
    {
        let mut answers: Vec<Canned> = Vec::new();
        let mut i: usize = 0;
        while i < responses.len()
            invariant
                i <= responses@.len(),
                answers@.len() == i,
                forall|j: int|
                    0 <= j < i ==> (#[trigger] answers@[j]).reply() == exited(
                        responses@[j].0,
                        encode_utf8(responses@[j].1@),
                        encode_utf8(responses@[j].2@),
                    ),
            decreases responses@.len() - i,
        {
            let (code, stdout, stderr) = responses[i];
            answers.push(Canned { code, stdout: stdout.to_owned(), stderr: stderr.to_owned() });
            i += 1;
        }
        let entry = Entry { since: self.record.len(), line: Self::key(cmd, args), answers };
        assert(entry.registration().answers =~= responses@.map_values(
            |r: (i32, &str, &str)| exited(r.0, encode_utf8(r.1@), encode_utf8(r.2@)),
        ));
        self.entries.push(entry);
        assert(final(self).registrations() =~= old(self).registrations().push(
            entry.registration(),
        ));
    }

    /// The entry in force for `line` when `n` commands had been run.
    fn find(&self, line: &str, n: usize) -> (r: Option<usize>)
        ensures
            match r {
                Some(i) => i < self.entries@.len() && in_force(
                    self.registrations(),
                    line@,
                    n as int,
                ) == Some(self.entries@[i as int].registration().answers),
                None => in_force(self.registrations(), line@, n as int) is None,
            },
    {
        let mut i: usize = self.entries.len();
        assert(self.registrations().take(i as int) =~= self.registrations());
        while i > 0
            invariant
                i <= self.entries@.len(),
                in_force(self.registrations().take(i as int), line@, n as int) == in_force(
                    self.registrations(),
                    line@,
                    n as int,
                ),
            decreases i,
        {
            let entry = &self.entries[i - 1];
            assert(self.registrations().take(i as int).drop_last() =~= self.registrations().take(
                i - 1,
            ));
            assert(self.registrations().take(i as int).last() == entry.registration());
            if entry.since <= n && same(&entry.line, line) {
                return Some(i - 1);
            }
            i -= 1;
        }
        None
    }

    /// How many answers for `line` the first `n` commands have used up.
    fn used_up(&self, line: &str, n: usize) -> (r: usize)
        requires
            n <= self.record@.len(),
        ensures
            r == used(self.registrations(), self.history(), line@, n as int),
    {
        let mut count: usize = 0;
        let mut k: usize = 0;
        while k < n
            invariant
                k <= n <= self.record@.len(),
                count <= k,
                count == used(self.registrations(), self.history(), line@, k as int),
            decreases n - k,
        {
            assert(self.history()[k as int] == self.record@[k as int].call());
            if let Some(i) = self.find(line, k) {
                let made = self.record[k].line();
                if count + 1 < self.entries[i].answers.len() && same(&made, line) {
                    count += 1;
                }
            }
            k += 1;
        }
        count
    }

    /// The answer to the last command on record.
    fn respond(&self) -> (r: Result<Output, SpawnError>)
        requires
            self.record@.len() > 0,
        ensures
            reply(r) == canned_reply(self.registrations(), self.is_permissive(), self.history()),
    {
        let n: usize = self.record.len() - 1;
        assert(self.history()[n as int] == self.record@[n as int].call());
        let line = self.record[n].line();
        if let Some(i) = self.find(&line, n) {
            let answers = &self.entries[i].answers;
            if answers.len() > 0 {
                let cursor: usize = self.used_up(&line, n);
                let at: usize = if cursor < answers.len() {
                    cursor
                } else {
                    answers.len() - 1
                };
                return Ok(answers[at].output());
            }
        }
        if self.permissive {
            let done = Canned { code: 0, stdout: String::new(), stderr: String::new() };
            assert(encode_utf8(Seq::<char>::empty()) =~= Seq::<u8>::empty());
            return Ok(done.output());
        }
        Err(
            SpawnError {
                kind: SpawnErrorKind::NotFound,
                message: "no fake response for: ".to_owned().concat(&line),
            },
        )
    }
}

impl CommandRunner for FakeCommandRunner {
    open spec fn world(&self) -> spec_fn(Seq<Call>) -> Reply {
        let registrations = self.registrations();
        let permissive = self.is_permissive();
        |calls: Seq<Call>| canned_reply(registrations, permissive, calls)
    }

    open spec fn history(&self) -> Seq<Call> {
        self.recorded()
    }

    fn run(&mut self, cmd: &str, args: &[&str]) -> (r: Result<Output, SpawnError>) {
        let invocation = Invocation { cmd: cmd.to_owned(), args: to_strings(args), stdin: None };
        self.record.push(invocation);
        assert(self.history() =~= old(self).history().push(invocation.call()));
        self.respond()
    }

    fn run_with_stdin(&mut self, cmd: &str, args: &[&str], input: &[u8]) -> (r: Result<
        Output,
        SpawnError,
    >) {
        let invocation = Invocation {
            cmd: cmd.to_owned(),
            args: to_strings(args),
            stdin: Some(vstd::slice::slice_to_vec(input)),
        };
        self.record.push(invocation);
        assert(self.history() =~= old(self).history().push(invocation.call()));
        self.respond()
    }
}

/// How many of the first `n` calls have a command line.
pub open spec fn times(calls: Seq<Call>, line: Seq<char>, n: int) -> int
    decreases n,
{
    if n <= 0 {
        0
    } else {
        times(calls, line, n - 1) + if command_line(calls[n - 1].cmd, calls[n - 1].args) == line {
            1int
        } else {
            0
        }
    }
}

proof fn answers_are_used_in_turn(
    registration: Registration,
    calls: Seq<Call>,
    n: int,
)
    requires
        registration.since == 0,
        registration.answers.len() > 0,
        0 <= n <= calls.len(),
    ensures
        0 <= times(calls, registration.line, n),
        used(seq![registration], calls, registration.line, n) == if times(
            calls,
            registration.line,
            n,
        ) < registration.answers.len() {
            times(calls, registration.line, n)
        } else {
            registration.answers.len() - 1
        },
    decreases n,
{
    if n > 0 {
        answers_are_used_in_turn(registration, calls, n - 1);
        assert(in_force(seq![registration], registration.line, n - 1) == Some(
            registration.answers,
        ));
    }
}

/// A fake runner that was told a sequence of answers for a command line gives them in turn,
/// and goes on with the last.
pub proof fn a_sequence_is_answered_in_turn(
    registration: Registration,
    permissive: bool,
    calls: Seq<Call>,
)
    requires
        registration.since == 0,
        registration.answers.len() > 0,
        calls.len() > 0,
        command_line(calls.last().cmd, calls.last().args) == registration.line,
    ensures
        ({
            let before = times(calls, registration.line, calls.len() - 1);
            canned_reply(seq![registration], permissive, calls)
                == registration.answers[if before < registration.answers.len() {
                before
            } else {
                registration.answers.len() - 1
            }]
        }),
{
    answers_are_used_in_turn(registration, calls, calls.len() - 1);
    assert(in_force(seq![registration], registration.line, calls.len() - 1) == Some(
        registration.answers,
    ));
}

} // verus!
