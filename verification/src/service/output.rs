//! The lines that report progress to the operator.

use vstd::prelude::*;

verus! {

/// What a line reports.
#[derive(Debug, Clone, Copy, PartialEq, Eq, Structural)]
pub enum Level {
    /// A step is done.
    Log,
    /// Work begins.
    Step,
    /// Something is amiss, and the run goes on.
    Warn,
    /// The run has failed.
    Fail,
}

/// What a line says, as contracts speak of it.
pub struct Note {
    pub level: Level,
    pub text: Seq<char>,
}

/// One line for the operator.
#[derive(Debug)]
pub struct Line {
    pub level: Level,
    pub text: String,
}

impl View for Line {
    type V = Note;

    open spec fn view(&self) -> Note {
        Note { level: self.level, text: self.text@ }
    }
}

/// The lines that `lines` stand for.
pub open spec fn notes(lines: Seq<Line>) -> Seq<Note> {
    lines.map_values(|l: Line| l@)
}

/// The coloured mark that a line of this level begins with.
pub open spec fn mark(level: Level) -> Seq<char> {
    match level {
        Level::Log => "\x1b[1;32m==>\x1b[0m "@,
        Level::Step => "\x1b[1;36m--\x1b[0m  "@,
        Level::Warn => "\x1b[1;33m!!\x1b[0m  "@,
        Level::Fail => "\x1b[1;31mxx\x1b[0m  "@,
    }
}

impl Line {
    /// The line as a terminal shows it.
    pub fn render(&self) -> (r: String)
        ensures
            r@ == mark(self.level) + self.text@,
    {
        let mark = match self.level {
            Level::Log => "\x1b[1;32m==>\x1b[0m ",
            Level::Step => "\x1b[1;36m--\x1b[0m  ",
            Level::Warn => "\x1b[1;33m!!\x1b[0m  ",
            Level::Fail => "\x1b[1;31mxx\x1b[0m  ",
        };
        mark.to_owned().concat(&self.text)
    }

    /// Whether the line goes to the error stream.
    pub fn to_stderr(&self) -> (r: bool)
        ensures
            r == (self.level is Warn || self.level is Fail),
    {
        match self.level {
            Level::Warn | Level::Fail => true,
            Level::Log | Level::Step => false,
        }
    }
}

/// A line for a step that is done.
pub fn log(msg: &str) -> (r: Line)
    ensures
        r@ == (Note { level: Level::Log, text: msg@ }),
{
    Line { level: Level::Log, text: msg.to_owned() }
}

/// A line for work that begins.
pub fn step(msg: &str) -> (r: Line)
    ensures
        r@ == (Note { level: Level::Step, text: msg@ }),
{
    Line { level: Level::Step, text: msg.to_owned() }
}

/// A line for something amiss that does not stop the run.
pub fn warn(msg: &str) -> (r: Line)
    ensures
        r@ == (Note { level: Level::Warn, text: msg@ }),
{
    Line { level: Level::Warn, text: msg.to_owned() }
}

/// A line for a failure; the caller decides whether to end the run.
pub fn fail(msg: &str) -> (r: Line)
    ensures
        r@ == (Note { level: Level::Fail, text: msg@ }),
{
    Line { level: Level::Fail, text: msg.to_owned() }
}

} // verus!
