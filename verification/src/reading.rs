//! Reading two files one after the other, where the first failure ends the
//! run. The reading itself is the caller's; what to do next is decided here.

use vstd::prelude::*;

verus! {

/// How far a run has come.
#[derive(Clone, Copy, Debug, PartialEq, Eq, Structural)]
pub enum RunState {
    /// The first file is being read.
    ReadingFirst,
    /// The first file was read, and the second is being read.
    ReadingSecond,
}

/// What the caller is to do next.
pub enum RunStep<E> {
    /// Read the file at `path`, then come back in the state `then`.
    Read { path: &'static str, then: RunState },
    /// Stop: the run has ended in `outcome`.
    Finish { outcome: Result<(), E> },
}

/// What follows, in the state `state`, on a read that ended in `read`: a
/// failure ends the run with that failure, the first file read leads to the
/// second, and the second file read ends the run well.
pub open spec fn step_after<E>(state: RunState, read: Result<Seq<char>, E>) -> RunStep<E> {
    match read {
        Err(e) => RunStep::Finish { outcome: Err(e) },
        Ok(_) => match state {
            RunState::ReadingFirst => RunStep::Read {
                path: "foo2.txt",
                then: RunState::ReadingSecond,
            },
            RunState::ReadingSecond => RunStep::Finish { outcome: Ok(()) },
        },
    }
}

/// What a read ended in, with the text that was read as its characters.
pub open spec fn read_view<E>(read: Result<String, E>) -> Result<Seq<char>, E> {
    match read {
        Ok(text) => Ok(text@),
        Err(e) => Err(e),
    }
}

/// The step that opens a run: read the first file.
pub fn begin<E>() -> (step: RunStep<E>)
    ensures
        step == (RunStep::<E>::Read { path: "foo.txt", then: RunState::ReadingFirst }),
{
    RunStep::Read { path: "foo.txt", then: RunState::ReadingFirst }
}

/// Decides what follows a read that was made in the state `state`.
pub fn run<E>(state: RunState, read: Result<String, E>) -> (step: RunStep<E>)
    ensures
        step == step_after(state, read_view(read)),
{
    match read {
        Err(e) => RunStep::Finish { outcome: Err(e) },
        Ok(_) => match state {
            RunState::ReadingFirst => RunStep::Read {
                path: "foo2.txt",
                then: RunState::ReadingSecond,
            },
            RunState::ReadingSecond => RunStep::Finish { outcome: Ok(()) },
        },
    }
}

/// A run never lasts longer than two reads: after a second read it is over.
pub proof fn lemma_run_ends<E>(first: Result<Seq<char>, E>, second: Result<Seq<char>, E>)
    ensures
        first is Err ==> step_after(RunState::ReadingFirst, first) == (RunStep::Finish {
            outcome: Err::<(), E>(first->Err_0),
        }),
        first is Ok ==> step_after(RunState::ReadingFirst, first) is Read,
        step_after(RunState::ReadingSecond, second) == (RunStep::Finish {
            outcome: match second {
                Ok(_) => Ok::<(), E>(()),
                Err(e) => Err::<(), E>(e),
            },
        }),
{
}

} // verus!
