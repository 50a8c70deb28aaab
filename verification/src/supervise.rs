//! Child supervision: what the parent owes a child that it has spawned, up
//! to the moment at which it lets go of it.

use vstd::prelude::*;

use crate::fork::exit_code_of;
use crate::fork::BodyOutcome;
use crate::fork::SpawnDescriptor;
use crate::fork::StreamDisposition;
use crate::fork::EXIT_SOFTWARE;

verus! {

/// How a child ended, as the operating system reports it.
#[derive(Clone, Copy, Debug, PartialEq, Eq, Structural)]
pub enum ChildExit {
    /// The child exited with this code.
    Code(i32),
    /// The child was terminated from outside, by a signal or an abort, and
    /// has no exit code.
    Signal,
}

impl ChildExit {
    /// The child ended as one whose body succeeded: it exited, with code
    /// zero.
    pub open spec fn succeeded(self) -> bool {
        self == ChildExit::Code(0)
    }

    /// Whether the child ended as one whose body succeeded.
    pub fn success(&self) -> (success: bool)
        ensures
            success == self.succeeded(),
    {
        match self {
            ChildExit::Code(code) => *code == 0,
            ChildExit::Signal => false,
        }
    }
}

/// One thing to do to a child when the parent lets go of it.
#[derive(Clone, Copy, Debug, PartialEq, Eq, Structural)]
pub enum TeardownStep {
    /// Ask the operating system to terminate the child, and ignore whether
    /// it could.
    Terminate,
    /// Read the child's standard output to its end and repeat it on the
    /// parent's standard output.
    DrainOutput,
    /// Read the child's standard error to its end and repeat it on the
    /// parent's standard error.
    DrainError,
}

/// The steps that release a child of which `exit` is known and whose
/// standard output and standard error are captured or not.
pub open spec fn teardown_steps(
    exit: Option<ChildExit>,
    stdout_captured: bool,
    stderr_captured: bool,
) -> Seq<TeardownStep> {
    (if exit is None {
        seq![TeardownStep::Terminate]
    } else {
        Seq::<TeardownStep>::empty()
    }) + (if stdout_captured {
        seq![TeardownStep::DrainOutput]
    } else {
        Seq::<TeardownStep>::empty()
    }) + (if stderr_captured {
        seq![TeardownStep::DrainError]
    } else {
        Seq::<TeardownStep>::empty()
    })
}

/// The parent's record of a child that it has spawned and has to release.
#[derive(Debug)]
pub struct ChildWrapper {
    exit: Option<ChildExit>,
    stdout_captured: bool,
    stderr_captured: bool,
    released: bool,
}

impl ChildWrapper {
    /// How the child ended, once the parent has waited for it.
    pub closed spec fn exit(&self) -> Option<ChildExit> {
        self.exit
    }

    /// The parent holds the other end of the child's standard output.
    pub closed spec fn stdout_captured(&self) -> bool {
        self.stdout_captured
    }

    /// The parent holds the other end of the child's standard error.
    pub closed spec fn stderr_captured(&self) -> bool {
        self.stderr_captured
    }

    /// The child has been released.
    pub closed spec fn released(&self) -> bool {
        self.released
    }

    /// The record of a child that was just spawned from `descriptor`: it has
    /// not been waited for, and not been released.
    pub fn new(descriptor: &SpawnDescriptor) -> (child: Self)
        ensures
            child.exit() is None,
            child.stdout_captured() == (descriptor.stdout == StreamDisposition::Captured),
            child.stderr_captured() == (descriptor.stderr == StreamDisposition::Captured),
            !child.released(),
    {
        ChildWrapper {
            exit: None,
            stdout_captured: descriptor.stdout == StreamDisposition::Captured,
            stderr_captured: descriptor.stderr == StreamDisposition::Captured,
            released: false,
        }
    }

    /// How the child ended, if the parent has waited for it.
    pub fn exit_status(&self) -> (exit: Option<ChildExit>)
        ensures
            exit == self.exit(),
    {
        self.exit
    }

    /// Let go of the child: the steps to take now, in order.
    ///
    /// The first release of a child asks for its termination unless the
    /// parent has waited for it, and for the draining of each captured
    /// stream. Any later release asks for nothing.
    pub fn release(&mut self) -> (steps: Vec<TeardownStep>)
        ensures
            final(self).released(),
            final(self).exit() == old(self).exit(),
            final(self).stdout_captured() == old(self).stdout_captured(),
            final(self).stderr_captured() == old(self).stderr_captured(),
            old(self).released() ==> steps@ == Seq::<TeardownStep>::empty(),
            !old(self).released() ==> steps@ == teardown_steps(
                old(self).exit(),
                old(self).stdout_captured(),
                old(self).stderr_captured(),
            ),
    {
        let mut steps: Vec<TeardownStep> = Vec::new();
        if !self.released {
            if self.exit.is_none() {
                steps.push(TeardownStep::Terminate);
            }
            if self.stdout_captured {
                steps.push(TeardownStep::DrainOutput);
            }
            if self.stderr_captured {
                steps.push(TeardownStep::DrainError);
            }
            self.released = true;
        }
        steps
    }
}

/// The default supervision of a child: the parent has waited for it, the
/// operating system reports that it ended as `exit`, and the invocation
/// fails unless that is a success.
///
/// The failure carries how the child ended.
pub fn supervise_child(child: &mut ChildWrapper, exit: ChildExit) -> (verdict: Result<
    (),
    ChildExit,
>)
    ensures
        final(child).exit() == Some(exit),
        final(child).stdout_captured() == old(child).stdout_captured(),
        final(child).stderr_captured() == old(child).stderr_captured(),
        final(child).released() == old(child).released(),
        exit.succeeded() ==> verdict == Ok::<(), ChildExit>(()),
        !exit.succeeded() ==> verdict == Err::<(), ChildExit>(exit),
{
    child.exit = Some(exit);
    if exit.success() {
        Ok(())
    } else {
        Err(exit)
    }
}

/// The default supervision lets an invocation succeed if and only if the
/// body returned and reported success: a child leaves with the exit code of
/// its body's outcome, and a body that failed or panicked gives the code of
/// an internal software error.
pub proof fn lemma_outcome_round_trip(outcome: BodyOutcome)
    ensures
        ChildExit::Code(exit_code_of(outcome)).succeeded() <==> outcome == (
            BodyOutcome::Completed { success: true }
        ),
        outcome != (BodyOutcome::Completed { success: true }) ==> exit_code_of(outcome)
            == EXIT_SOFTWARE,
{
}

} // verus!
