//! Bringing a chip up over a register bus.
//!
//! A chip is configured by a fixed list of steps. The list is walked one step at
//! a time: the caller performs a step and reports what the bus answered, and
//! learns what to do next. The first wrong answer ends the walk.

use vstd::prelude::*;

verus! {

/// One step.
#[derive(Debug, Clone, Copy, PartialEq, Eq, Structural)]
pub enum Step {
    /// Write a register.
    Write { reg: u8, value: u8 },
    /// Let time pass.
    Wait { ms: u64 },
    /// Set the bus clock.
    Clock { hz: u32 },
    /// Read a register that must identify the chip.
    Identify { reg: u8, value: u8 },
    /// Read back a register that must hold what was written to it.
    Confirm { reg: u8, value: u8 },
}

/// Why bringing a chip up failed.
#[derive(Debug, Clone, Copy, PartialEq, Eq, Structural)]
pub enum StepError {
    /// The transaction failed.
    Bus,
    /// The chip answered with another identity.
    WrongId(u8),
    /// The chip does not hold what was written.
    NotHeld,
}

/// What to do next.
#[derive(Debug, Clone, Copy, PartialEq, Eq, Structural)]
pub enum Next {
    Perform(Step),
    Ready,
    Failed(StepError),
}

/// What is wrong with an answer to a step, if anything. `None` is a failed
/// transaction; the byte only matters to a step that reads.
pub open spec fn fault(step: Step, answer: Option<u8>) -> Option<StepError> {
    match answer {
        None => Some(StepError::Bus),
        Some(b) => match step {
            Step::Identify { reg, value } => if b == value {
                None
            } else {
                Some(StepError::WrongId(b))
            },
            Step::Confirm { reg, value } => if b == value {
                None
            } else {
                Some(StepError::NotHeld)
            },
            _ => None,
        },
    }
}

fn judge(step: Step, answer: Option<u8>) -> (e: Option<StepError>)
    ensures
        e == fault(step, answer),
{
    match answer {
        None => Some(StepError::Bus),
        Some(b) => match step {
            Step::Identify { reg: _, value } => if b == value {
                None
            } else {
                Some(StepError::WrongId(b))
            },
            Step::Confirm { reg: _, value } => if b == value {
                None
            } else {
                Some(StepError::NotHeld)
            },
            _ => None,
        },
    }
}

/// A walk through a list of steps.
pub struct BringUp {
    pub steps: Vec<Step>,
    /// The step being performed.
    pub at: usize,
}

impl BringUp {
    pub open spec fn wf(&self) -> bool {
        self.at < self.steps@.len()
    }

    /// Begins a walk. An empty list is ready at once.
    pub fn new(steps: Vec<Step>) -> (out: (Self, Next))
        ensures
            out.0.steps@ == steps@,
            out.0.at == 0,
            out.1 == (if steps@.len() == 0 {
                Next::Ready
            } else {
                Next::Perform(steps@[0])
            }),
    {
        let next: Next = if steps.len() == 0 {
            Next::Ready
        } else {
            Next::Perform(steps[0])
        };
        (BringUp { steps, at: 0 }, next)
    }

    /// Takes the answer to the step being performed.
    pub fn answered(&mut self, answer: Option<u8>) -> (next: Next)
        requires
            old(self).wf(),
        ensures
            final(self).steps == old(self).steps,
            match fault(old(self).steps@[old(self).at as int], answer) {
                Some(e) => next == Next::Failed(e) && final(self).at == old(self).at,
                None => {
                    &&& final(self).at == old(self).at + 1
                    &&& next == (if old(self).at + 1 < old(self).steps@.len() {
                        Next::Perform(old(self).steps@[old(self).at + 1])
                    } else {
                        Next::Ready
                    })
                },
            },
    {
        let count: usize = self.steps.len();
        match judge(self.steps[self.at], answer) {
            Some(e) => Next::Failed(e),
            None => {
                self.at = self.at + 1;
                if self.at < count {
                    Next::Perform(self.steps[self.at])
                } else {
                    Next::Ready
                }
            },
        }
    }
}

/// How a whole walk ends from step `at` on, given the answer to each step.
pub open spec fn outcome(steps: Seq<Step>, answers: Seq<Option<u8>>, at: int) -> Next
    decreases steps.len() - at,
{
    if at < 0 || at >= steps.len() {
        Next::Ready
    } else {
        match fault(steps[at], answers[at]) {
            Some(e) => Next::Failed(e),
            None => outcome(steps, answers, at + 1),
        }
    }
}

// ---- Laws ----

/// A chip is ready exactly when every step got a right answer.
pub proof fn law_ready_when_every_answer_is_right(
    steps: Seq<Step>,
    answers: Seq<Option<u8>>,
    at: int,
)
    requires
        answers.len() == steps.len(),
        0 <= at <= steps.len(),
    ensures
        outcome(steps, answers, at) == Next::Ready <==> forall|i: int|
            at <= i < steps.len() ==> fault(#[trigger] steps[i], answers[i]) is None,
    decreases steps.len() - at,
{
    if at < steps.len() {
        law_ready_when_every_answer_is_right(steps, answers, at + 1);
        assert(fault(steps[at], answers[at]) is None ==> (outcome(steps, answers, at) == outcome(
            steps,
            answers,
            at + 1,
        )));
        assert forall|i: int| at <= i < steps.len() && outcome(steps, answers, at)
            == Next::Ready implies fault(#[trigger] steps[i], answers[i]) is None by {
            if i > at {
                assert(outcome(steps, answers, at + 1) == Next::Ready);
            }
        }
    }
}

/// The first wrong answer decides how a walk ends.
pub proof fn law_first_fault_ends_the_walk(
    steps: Seq<Step>,
    answers: Seq<Option<u8>>,
    at: int,
    bad: int,
)
    requires
        answers.len() == steps.len(),
        0 <= at <= bad < steps.len(),
        forall|i: int| at <= i < bad ==> fault(#[trigger] steps[i], answers[i]) is None,
        fault(steps[bad], answers[bad]) is Some,
    ensures
        outcome(steps, answers, at) == Next::Failed(fault(steps[bad], answers[bad])->0),
    decreases bad - at,
{
    if at < bad {
        assert(fault(steps[at], answers[at]) is None);
        law_first_fault_ends_the_walk(steps, answers, at + 1, bad);
    }
}

/// A step that does not answer has failed, whatever it is. A step that reads must
/// answer what it expects: another identity is reported as it was read, another value
/// as not held. Any answer does for the others.
pub proof fn law_answers(reg: u8, value: u8, b: u8, ms: u64, hz: u32, step: Step)
    ensures
        fault(step, None) == Some(StepError::Bus),
        fault(Step::Identify { reg, value }, Some(b)) == (if b != value {
            Some(StepError::WrongId(b))
        } else {
            None
        }),
        fault(Step::Confirm { reg, value }, Some(b)) == (if b != value {
            Some(StepError::NotHeld)
        } else {
            None
        }),
        fault(Step::Write { reg, value }, Some(b)) is None,
        fault(Step::Wait { ms }, Some(b)) is None,
        fault(Step::Clock { hz }, Some(b)) is None,
{
}

} // verus!
