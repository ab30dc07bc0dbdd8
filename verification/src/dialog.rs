//! A dialog with the host: an operation that needs the host is a function of the answers
//! that the host has given so far. It gives the next question, or its result.

use vstd::prelude::*;

verus! {

/// What has been asked of the host, and what it has answered. Once an answer is missing,
/// nothing more is asked.
pub struct Dialog<Q, A> {
    pub answers: Seq<A>,
    pub asked: Seq<Q>,
    pub waiting: bool,
}

impl<Q, A> Dialog<Q, A> {
    /// The dialog once something is asked, and the answer; `silence` stands for one that is
    /// missing.
    pub open spec fn put_question(self, question: Q, silence: A) -> (Dialog<Q, A>, A) {
        if self.waiting {
            (self, silence)
        } else if self.asked.len() < self.answers.len() {
            (
                Dialog { asked: self.asked.push(question), ..self },
                self.answers[self.asked.len() as int],
            )
        } else {
            (Dialog { asked: self.asked.push(question), waiting: true, ..self }, silence)
        }
    }
}

/// A dialog at its start.
pub open spec fn fresh<Q, A>(answers: Seq<A>) -> Dialog<Q, A> {
    Dialog { answers, asked: Seq::empty(), waiting: false }
}

/// The views of some values.
pub open spec fn seen<T: View>(all: Seq<T>) -> Seq<T::V> {
    all.map_values(|x: T| x@)
}

/// Where an operation stands.
pub enum Stand<Q, T> {
    /// This is to be asked of the host.
    Ask(Q),
    /// This is the result.
    Over(T),
}

/// Where an operation stands, given its dialog and its result.
pub open spec fn stand<Q, A, T>(run: (Dialog<Q, A>, T)) -> Stand<Q, T> {
    if run.0.waiting {
        Stand::Ask(run.0.asked.last())
    } else {
        Stand::Over(run.1)
    }
}

/// A dialog with the host.
pub struct Steps<Q: View, A: View> {
    // The answers that are left, the next one last.
    left: Vec<A>,
    asked: Vec<Q>,
    waiting: bool,
    given: Ghost<Seq<A::V>>,
}

impl<Q: View, A: View> View for Steps<Q, A> {
    type V = Dialog<Q::V, A::V>;

    closed spec fn view(&self) -> Dialog<Q::V, A::V> {
        Dialog { answers: self.given@, asked: seen(self.asked@), waiting: self.waiting }
    }
}

impl<Q: View, A: View> Steps<Q, A> {
    /// What a dialog keeps: the answers that are left are those that were not used, and
    /// whoever waits has asked.
    pub closed spec fn wf(self) -> bool {
        &&& self.waiting ==> self.asked@.len() > 0
        &&& !self.waiting ==> {
            &&& self.asked@.len() + self.left@.len() == self.given@.len()
            &&& forall|i: int|
                0 <= i < self.left@.len() ==> (#[trigger] self.left@[i])@
                    == self.given@[self.given@.len() - 1 - i]
        }
    }

    /// A dialog with the given answers.
    pub(crate) fn new(answers: Vec<A>) -> (r: Self)
        ensures
            r.wf(),
            r@ == fresh::<Q::V, A::V>(seen(answers@)),
    {
        let ghost given = seen(answers@);
        let mut answers = answers;
        let mut left: Vec<A> = Vec::new();
        while answers.len() > 0
            invariant
                answers@.len() + left@.len() == given.len(),
                forall|i: int|
                    0 <= i < answers@.len() ==> (#[trigger] answers@[i])@ == given[i],
                forall|i: int|
                    0 <= i < left@.len() ==> (#[trigger] left@[i])@ == given[given.len() - 1 - i],
            decreases answers@.len(),
        {
            if let Some(answer) = answers.pop() {
                left.push(answer);
            }
        }
        let r = Steps { left, asked: Vec::new(), waiting: false, given: Ghost(given) };
        assert(r@.asked =~= Seq::empty());
        r
    }

    /// Asks something; `silence` stands for an answer that is missing.
    pub(crate) fn put_question(&mut self, question: Q, silence: A) -> (r: A)
        requires
            old(self).wf(),
        ensures
            final(self).wf(),
            (final(self)@, r@) == old(self)@.put_question(question@, silence@),
    {
        if self.waiting {
            return silence;
        }
        let ghost before = self@;
        self.asked.push(question);
        assert(self@.asked =~= before.asked.push(question@));
        match self.left.pop() {
            Some(answer) => answer,
            None => {
                self.waiting = true;
                silence
            },
        }
    }

    /// What is to be asked, where an answer is missing.
    pub(crate) fn pending(self) -> (r: Option<Q>)
        requires
            self.wf(),
        ensures
            match r {
                Some(question) => self@.waiting && question@ == self@.asked.last(),
                None => !self@.waiting,
            },
    {
        let mut asked = self.asked;
        if self.waiting {
            let last = asked.pop();
            assert(last is Some && last->0@ == self@.asked.last());
            last
        } else {
            None
        }
    }
}

} // verus!
