//! The memory balloon: how much memory the guest is asked to give up.
use vstd::prelude::*;

verus! {

/// Pages of 4096 bytes in a MiB.
pub const PAGES_PER_MB: u64 = 256;

/// The most MiB whose number of pages has 32 bits.
pub const MAX_TARGET_MB: u64 = 16_777_215;

/// What came of waiting for a target.
#[derive(Clone, Copy, Debug, PartialEq, Eq, Structural)]
pub enum BalloonResult {
    /// The target was reached; the size is now so many MiB.
    Reached(u64),
    /// The guest stopped making progress at so many MiB.
    Stalled(u64),
}

#[derive(Clone, Copy, Debug, PartialEq, Eq, Structural)]
pub enum BalloonError {
    /// The time was over, at so many MiB.
    Timeout { actual: u64 },
    DeviceNotActive,
    /// The target has more pages than can be asked for.
    TargetTooLarge { max_mb: u64 },
}

/// The balloon device, as far as its size goes.
#[derive(Clone, Copy, Debug, PartialEq, Eq, Structural)]
pub struct BalloonHandle {
    pub activated: bool,
    /// The pages that the guest is asked to give up.
    pub num_pages: u32,
    /// The pages that the guest has given up.
    pub actual_pages: u32,
}

/// So many pages in MiB, rounded down.
pub open spec fn mb_of(pages: int) -> int {
    pages * 4096 / 1_048_576
}

impl BalloonHandle {
    /// A balloon without air in a device that is not active yet.
    pub fn new() -> (res: BalloonHandle)
        ensures
            res == (BalloonHandle { activated: false, num_pages: 0, actual_pages: 0 }),
    {
        BalloonHandle { activated: false, num_pages: 0, actual_pages: 0 }
    }

    /// Asks the guest for `target_mb` MiB. If it succeeds, the guest is to be told that the
    /// configuration has changed.
    pub fn resize(&mut self, target_mb: u64) -> (res: Result<(), BalloonError>)
        ensures
            res == if target_mb * PAGES_PER_MB > u32::MAX {
                Err::<(), BalloonError>(BalloonError::TargetTooLarge { max_mb: MAX_TARGET_MB })
            } else if !old(self).activated {
                Err(BalloonError::DeviceNotActive)
            } else {
                Ok(())
            },
            *final(self) == if res is Ok {
                BalloonHandle { num_pages: (target_mb * PAGES_PER_MB) as u32, ..*old(self) }
            } else {
                *old(self)
            },
    {
        if target_mb > MAX_TARGET_MB {
            return Err(BalloonError::TargetTooLarge { max_mb: MAX_TARGET_MB });
        }
        if !self.activated {
            return Err(BalloonError::DeviceNotActive);
        }
        self.num_pages = (target_mb * PAGES_PER_MB) as u32;
        Ok(())
    }

    /// The size of the balloon in MiB.
    pub fn actual(&self) -> (res: u64)
        ensures
            res == mb_of(self.actual_pages as int),
    {
        self.actual_pages as u64 * 4096 / 1_048_576
    }
}

/// A wait for the balloon to reach a size. The direction is settled when it begins.
#[derive(Clone, Copy, Debug, PartialEq, Eq, Structural)]
pub struct AwaitTarget {
    pub target_pages: u64,
    pub deflating: bool,
}

/// What a wait does next.
#[derive(Clone, Copy, Debug, PartialEq, Eq, Structural)]
pub enum AwaitStep {
    /// The wait is over.
    Done { result: BalloonResult },
    Failed { error: BalloonError },
    /// Wait for the guest to report, as long as it may stand still.
    Wait,
}

impl AwaitTarget {
    /// Begins to wait for `target_mb` MiB at `actual` pages.
    pub fn begin(target_mb: u64, actual: u64) -> (res: AwaitTarget)
        requires
            target_mb * 1_048_576 <= u64::MAX,
        ensures
            res.target_pages == target_mb * PAGES_PER_MB,
            res.deflating == (actual > target_mb * PAGES_PER_MB),
    {
        let target_pages: u64 = target_mb * PAGES_PER_MB;
        AwaitTarget { target_pages, deflating: actual > target_pages }
    }

    /// Whether `actual` pages are enough, or few enough.
    pub open spec fn reached(&self, actual: u64) -> bool {
        if self.deflating {
            actual <= self.target_pages
        } else {
            actual >= self.target_pages
        }
    }

    /// Decides at `actual` pages whether to go on waiting. The target comes before the time.
    pub fn check(&self, actual: u64, time_over: bool) -> (res: AwaitStep)
        requires
            actual * 4096 <= u64::MAX,
        ensures
            res == if self.reached(actual) {
                AwaitStep::Done { result: BalloonResult::Reached(mb_of(actual as int) as u64) }
            } else if time_over {
                AwaitStep::Failed {
                    error: BalloonError::Timeout { actual: mb_of(actual as int) as u64 },
                }
            } else {
                AwaitStep::Wait
            },
    {
        let reached = if self.deflating {
            actual <= self.target_pages
        } else {
            actual >= self.target_pages
        };
        let mb: u64 = actual * 4096 / 1_048_576;
        if reached {
            AwaitStep::Done { result: BalloonResult::Reached(mb) }
        } else if time_over {
            AwaitStep::Failed { error: BalloonError::Timeout { actual: mb } }
        } else {
            AwaitStep::Wait
        }
    }

    /// What came of a wait: nothing yet, if the guest has reported; if it stood still for too
    /// long, that it stalled at `actual` pages.
    pub fn after_wait(&self, actual: u64, timed_out: bool) -> (res: Option<BalloonResult>)
        requires
            actual * 4096 <= u64::MAX,
        ensures
            res == if timed_out {
                Some(BalloonResult::Stalled(mb_of(actual as int) as u64))
            } else {
                None
            },
    {
        if timed_out {
            Some(BalloonResult::Stalled(actual * 4096 / 1_048_576))
        } else {
            None
        }
    }
}

/// A target of `target_mb` MiB is accepted exactly if it is not larger than the greatest one
/// that is reported, and what was asked for is the target when it is reached exactly.
pub proof fn targets_are_exact(target_mb: u64)
    ensures
        target_mb * PAGES_PER_MB > u32::MAX <==> target_mb > MAX_TARGET_MB,
        MAX_TARGET_MB == mb_of(u32::MAX as int),
        mb_of(target_mb * PAGES_PER_MB) == target_mb,
{
}

/// A wait that began at `start` pages is over at once exactly if that is the target. One that
/// began above it ends exactly when the balloon is small enough, and one that began below it
/// exactly when it is large enough.
pub proof fn waits_are_one_way(wait: AwaitTarget, start: u64, actual: u64)
    requires
        wait.deflating == (start > wait.target_pages),
    ensures
        wait.reached(start) <==> start == wait.target_pages,
        start > wait.target_pages ==> (wait.reached(actual) <==> actual <= wait.target_pages),
        start < wait.target_pages ==> (wait.reached(actual) <==> actual >= wait.target_pages),
{
}

} // verus!
