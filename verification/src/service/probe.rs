//! Waiting until the API answers.

use vstd::prelude::*;

verus! {

/// One thing done while the API is waited for.
#[derive(Debug, Clone, Copy, PartialEq, Eq, Structural)]
pub enum Step {
    /// The units were given the time to settle.
    Settled,
    /// The API was asked whether it answers.
    Asked,
    /// There was a pause between two questions.
    Paused,
}

/// How many questions are among `steps`.
pub open spec fn questions(steps: Seq<Step>) -> nat
    decreases steps.len(),
{
    if steps.len() == 0 {
        0
    } else {
        questions(steps.drop_last()) + if steps.last() == Step::Asked {
            1nat
        } else {
            0
        }
    }
}

/// `count` questions with a pause between each and the next.
pub open spec fn polling(count: nat) -> Seq<Step> {
    if count == 0 {
        Seq::empty()
    } else {
        Seq::new(
            (2 * count - 1) as nat,
            |i: int|
                if i % 2 == 0 {
                    Step::Asked
                } else {
                    Step::Paused
                },
        )
    }
}

/// How many questions are asked from question `from` on, until the first yes and
/// `attempts` at most.
pub open spec fn until_yes(plan: spec_fn(nat) -> bool, from: nat, attempts: nat) -> nat
    decreases attempts,
{
    if attempts == 0 {
        0
    } else if plan(from) {
        1
    } else {
        1 + until_yes(plan, from + 1, (attempts - 1) as nat)
    }
}

/// The wait for the API as it stands.
pub struct Watch {
    /// How each question is answered.
    pub plan: spec_fn(nat) -> bool,
    /// What was done so far.
    pub steps: Seq<Step>,
}

impl Watch {
    /// After the units were given the time to settle.
    pub open spec fn settled(self) -> Watch {
        Watch { steps: self.steps.push(Step::Settled), ..self }
    }

    /// How many questions a wait of `attempts` asks.
    pub open spec fn asks(self, attempts: u32) -> nat {
        until_yes(self.plan, questions(self.steps), attempts as nat)
    }

    /// After a wait of `attempts`.
    pub open spec fn waited(self, attempts: u32) -> Watch {
        Watch { steps: self.steps + polling(self.asks(attempts)), ..self }
    }

    /// Whether one of the next `attempts` questions is answered with yes.
    pub open spec fn answered(self, attempts: u32) -> bool {
        exists|i: nat|
            questions(self.steps) <= i < questions(self.steps) + attempts && #[trigger] (self.plan)(
                i,
            )
    }
}

/// Whoever asks the API and lets the time pass.
pub trait Probe {
    /// How each question is answered. Of an API outside the library nothing is known.
    closed spec fn plan(&self) -> spec_fn(nat) -> bool {
        arbitrary()
    }

    /// What was done so far.
    closed spec fn history(&self) -> Seq<Step> {
        arbitrary()
    }

    /// Gives the units the time to settle.
    fn settle(&mut self)
        ensures
            final(self).plan() == old(self).plan(),
            final(self).history() == old(self).history().push(Step::Settled),
    ;

    /// Asks whether the API answers.
    fn ask(&mut self) -> (r: bool)
        ensures
            final(self).plan() == old(self).plan(),
            final(self).history() == old(self).history().push(Step::Asked),
            r == (old(self).plan())(questions(old(self).history())),
    ;

    /// Lets the time between two questions pass.
    fn pause(&mut self)
        ensures
            final(self).plan() == old(self).plan(),
            final(self).history() == old(self).history().push(Step::Paused),
    ;
}

/// The wait that a probe keeps.
pub open spec fn watch<P: Probe>(probe: P) -> Watch {
    Watch { plan: probe.plan(), steps: probe.history() }
}

/// A probe with prepared answers, and no after the last of them.
pub struct Scripted {
    answers: Vec<bool>,
    record: Vec<Step>,
}

impl Scripted {
    /// The prepared answers.
    pub closed spec fn script(&self) -> Seq<bool> {
        self.answers@
    }

    /// What was done so far.
    pub closed spec fn recorded(&self) -> Seq<Step> {
        self.record@
    }

    /// A probe that gives `answers`, one after the other.
    pub fn new(answers: Vec<bool>) -> (r: Scripted)
        ensures
            r.history() == Seq::<Step>::empty(),
            r.script() == answers@,
    {
        Scripted { answers, record: Vec::new() }
    }

    /// What was done so far.
    pub fn steps(&self) -> (r: &Vec<Step>)
        ensures
            r@ == self.history(),
    {
        &self.record
    }

    /// How many questions were asked so far.
    fn asked(&self) -> (r: usize)
        ensures
            r == questions(self.recorded()),
    {
        let mut count: usize = 0;
        let mut i: usize = 0;
        while i < self.record.len()
            invariant
                count <= i <= self.record@.len(),
                count == questions(self.record@.take(i as int)),
            decreases self.record@.len() - i,
        {
            assert(self.record@.take(i + 1).drop_last() =~= self.record@.take(i as int));
            if self.record[i] == Step::Asked {
                count += 1;
            }
            i += 1;
        }
        assert(self.record@.take(i as int) =~= self.record@);
        count
    }
}

impl Probe for Scripted {
    open spec fn plan(&self) -> spec_fn(nat) -> bool {
        let script = self.script();
        |i: nat| i < script.len() && script[i as int]
    }

    open spec fn history(&self) -> Seq<Step> {
        self.recorded()
    }

    fn settle(&mut self) {
        self.record.push(Step::Settled);
    }

    fn ask(&mut self) -> (r: bool) {
        let turn = self.asked();
        self.record.push(Step::Asked);
        turn < self.answers.len() && self.answers[turn]
    }

    fn pause(&mut self) {
        self.record.push(Step::Paused);
    }
}

/// Asks until the API says yes, `attempts` times at most, with a pause between two
/// questions.
pub fn wait_for<P: Probe>(probe: &mut P, attempts: u32) -> (r: bool)
    ensures
        r == watch(*old(probe)).answered(attempts),
        watch(*final(probe)) == watch(*old(probe)).waited(attempts),
{
    let ghost begun = watch(*old(probe));
    let ghost first = questions(begun.steps);
    let mut asked: u32 = 0;
    while asked < attempts
        invariant
            begun == watch(*old(probe)),
            first == questions(begun.steps),
            asked <= attempts,
            probe.plan() == begun.plan,
            probe.history() == begun.steps + polling(asked as nat) + if 0 < asked < attempts {
                seq![Step::Paused]
            } else {
                Seq::empty()
            },
            questions(probe.history()) == first + asked,
            begun.asks(attempts) == asked + until_yes(
                begun.plan,
                first + asked as nat,
                (attempts - asked) as nat,
            ),
            forall|i: nat| first <= i < first + asked ==> !(#[trigger] (begun.plan)(i)),
        decreases attempts - asked,
    {
        let ghost before = probe.history();
        let answered = probe.ask();
        assert(probe.history().drop_last() =~= before);
        asked += 1;
        assert(questions(probe.history()) == first + asked);
        assert(probe.history() =~= begun.steps + polling(asked as nat));
        if answered {
            return true;
        }
        if asked < attempts {
            let ghost between = probe.history();
            probe.pause();
            assert(probe.history().drop_last() =~= between);
            assert(questions(probe.history()) == questions(between));
        }
        assert(probe.history() =~= begun.steps + polling(asked as nat) + if 0 < asked < attempts {
            seq![Step::Paused]
        } else {
            Seq::empty()
        });
    }
    assert(watch(*probe).steps =~= begun.waited(attempts).steps);
    false
}

proof fn the_first_yes(plan: spec_fn(nat) -> bool, from: nat, attempts: nat)
    ensures
        until_yes(plan, from, attempts) <= attempts,
        forall|i: nat|
            from <= i < from + until_yes(plan, from, attempts) - 1 ==> !(#[trigger] plan(i)),
        until_yes(plan, from, attempts) < attempts ==> until_yes(plan, from, attempts) > 0 && plan(
            (from + until_yes(plan, from, attempts) - 1) as nat,
        ),
    decreases attempts,
{
    if attempts > 0 && !plan(from) {
        the_first_yes(plan, from + 1, (attempts - 1) as nat);
    }
}

/// A wait asks at most `attempts` questions, each but the last is answered with no,
/// and it stops short of `attempts` only at a yes.
pub proof fn a_wait_ends_at_the_first_yes(watch: Watch, attempts: u32)
    ensures
        watch.asks(attempts) <= attempts,
        forall|i: nat|
            questions(watch.steps) <= i < questions(watch.steps) + watch.asks(attempts) - 1
                ==> !(#[trigger] (watch.plan)(i)),
        watch.asks(attempts) < attempts ==> watch.answered(attempts) && (watch.plan)(
            (questions(watch.steps) + watch.asks(attempts) - 1) as nat,
        ),
{
    the_first_yes(watch.plan, questions(watch.steps), attempts as nat);
}

} // verus!
