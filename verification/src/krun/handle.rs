//! What is done with a machine from another thread while it runs.
use vstd::prelude::*;

verus! {

/// Work on a machine whose processors stand still, such as a snapshot: the next thing that is
/// to be done.
pub enum PausedWork<E> {
    /// Pause the processors.
    Pause,
    /// Do the work.
    Work,
    /// Resume the processors; `worked` came of the work.
    Resume { worked: Result<(), E> },
    /// Nothing any more: this came of it all.
    Done { result: Result<(), E> },
}

/// Where `outcome` leads from `at`: a machine that cannot be paused is left alone; one that was
/// paused is resumed, whatever came of the work, and a failure to resume is what is reported.
pub open spec fn paused_step<E>(at: PausedWork<E>, outcome: Result<(), E>) -> PausedWork<E> {
    match at {
        PausedWork::Pause => match outcome {
            Ok(()) => PausedWork::Work,
            Err(e) => PausedWork::Done { result: Err(e) },
        },
        PausedWork::Work => PausedWork::Resume { worked: outcome },
        PausedWork::Resume { worked } => match outcome {
            Ok(()) => PausedWork::Done { result: worked },
            Err(e) => PausedWork::Done { result: Err(e) },
        },
        PausedWork::Done { result } => PausedWork::Done { result },
    }
}

impl<E> PausedWork<E> {
    pub fn begin() -> (res: PausedWork<E>)
        ensures
            res == PausedWork::<E>::Pause,
    {
        PausedWork::Pause
    }

    /// Takes what came of the thing that was to be done.
    pub fn step(self, outcome: Result<(), E>) -> (res: PausedWork<E>)
        ensures
            res == paused_step(self, outcome),
    {
        match self {
            PausedWork::Pause => match outcome {
                Ok(()) => PausedWork::Work,
                Err(e) => PausedWork::Done { result: Err(e) },
            },
            PausedWork::Work => PausedWork::Resume { worked: outcome },
            PausedWork::Resume { worked } => match outcome {
                Ok(()) => PausedWork::Done { result: worked },
                Err(e) => PausedWork::Done { result: Err(e) },
            },
            PausedWork::Done { result } => PausedWork::Done { result },
        }
    }
}

/// A machine that was paused is resumed, whether the work succeeded or not, and the work is
/// reported as successful exactly if all three things succeeded. A machine that could not be
/// paused is neither worked on nor resumed.
pub proof fn paused_machines_are_resumed<E>(
    paused: Result<(), E>,
    worked: Result<(), E>,
    resumed: Result<(), E>,
)
    ensures
        ({
            let after_pause = paused_step(PausedWork::Pause, paused);
            let after_work = paused_step(after_pause, worked);
            let end = paused_step(after_work, resumed);
            &&& paused is Ok ==> after_pause is Work && after_work is Resume
            &&& paused is Err ==> after_pause == (PausedWork::Done { result: paused })
            &&& end is Done
            &&& end->Done_result is Ok <==> paused is Ok && worked is Ok && resumed is Ok
        }),
{
}

/// What is reported of paused work is the failure to pause, or else the failure to resume, or
/// else what came of the work. What is done stays done.
pub proof fn failures_to_resume_are_reported<E>(
    paused: Result<(), E>,
    worked: Result<(), E>,
    resumed: Result<(), E>,
    more: Result<(), E>,
)
    ensures
        ({
            let after_pause = paused_step(PausedWork::Pause, paused);
            let after_work = paused_step(after_pause, worked);
            let end = paused_step(after_work, resumed);
            &&& paused is Ok ==> after_pause is Work && after_work is Resume
            &&& end->Done_result == if paused is Err {
                paused
            } else if resumed is Err {
                resumed
            } else {
                worked
            }
            &&& paused_step(end, more) == end
        }),
{
}

} // verus!
