//! In-place patching of code as one scoped operation: lift the protection
//! of the memory, write, restore the protection, flush the instruction
//! cache. The run decides the next step; its driver performs it and reports.
//! Once the protection is lifted, it is restored and the cache is flushed on
//! every path to the end, whatever fails on the way.

use vstd::prelude::*;

verus! {

/// The step that the driver has to perform next.
#[derive(Debug, Clone, Copy, PartialEq, Eq, Structural)]
pub enum PatchStep {
    /// Make the memory writable, keeping the old protection.
    Unprotect,
    /// Write the bytes.
    Write,
    /// Put the old protection back.
    Restore,
    /// Flush the instruction cache for the memory.
    Flush,
    /// Nothing is left to do.
    Done,
}

/// One patching run.
#[derive(Debug, Clone, Copy, PartialEq, Eq, Structural)]
pub struct PatchRun {
    /// The step to perform next.
    pub step: PatchStep,
    /// The protection was lifted.
    pub unprotected: bool,
    /// Restoring the protection was tried.
    pub restore_tried: bool,
    /// Flushing the cache was tried.
    pub flush_tried: bool,
    /// Some step failed.
    pub failed: bool,
}

impl PatchRun {
    /// What holds of a run at every step.
    pub open spec fn wf(&self) -> bool {
        match self.step {
            PatchStep::Unprotect => !self.unprotected && !self.restore_tried && !self.flush_tried
                && !self.failed,
            PatchStep::Write => self.unprotected && !self.restore_tried && !self.flush_tried
                && !self.failed,
            PatchStep::Restore => self.unprotected && !self.restore_tried && !self.flush_tried,
            PatchStep::Flush => self.unprotected && self.restore_tried && !self.flush_tried,
            PatchStep::Done => self.unprotected ==> self.restore_tried && self.flush_tried,
        }
    }

    /// The run after the step it asked for was performed and succeeded or
    /// failed.
    pub open spec fn after(&self, succeeded: bool) -> PatchRun {
        let failed = self.failed || !succeeded;
        match self.step {
            PatchStep::Unprotect => if succeeded {
                PatchRun { step: PatchStep::Write, unprotected: true, ..*self }
            } else {
                PatchRun { step: PatchStep::Done, failed: true, ..*self }
            },
            PatchStep::Write => PatchRun { step: PatchStep::Restore, failed, ..*self },
            PatchStep::Restore => PatchRun {
                step: PatchStep::Flush,
                restore_tried: true,
                failed,
                ..*self
            },
            PatchStep::Flush => PatchRun { step: PatchStep::Done, flush_tried: true, failed, ..*self },
            PatchStep::Done => *self,
        }
    }

    /// Starts a run on the memory at `target`. A null target is left alone:
    /// the run is over before it begins.
    pub fn begin(target: usize) -> (run: PatchRun)
        ensures
            run.wf(),
            run == (PatchRun {
                step: if target == 0 {
                    PatchStep::Done
                } else {
                    PatchStep::Unprotect
                },
                unprotected: false,
                restore_tried: false,
                flush_tried: false,
                failed: false,
            }),
    {
        PatchRun {
            step: if target == 0 {
                PatchStep::Done
            } else {
                PatchStep::Unprotect
            },
            unprotected: false,
            restore_tried: false,
            flush_tried: false,
            failed: false,
        }
    }

    /// Takes the result of the step that the run asked for. A failure to
    /// lift the protection ends the run, since nothing was changed; after
    /// that every step leads to the next, failed or not.
    pub fn report(&mut self, succeeded: bool)
        requires
            old(self).wf(),
        ensures
            final(self).wf(),
            *final(self) == old(self).after(succeeded),
    {
        let failed = self.failed || !succeeded;
        match self.step {
            PatchStep::Unprotect => {
                if succeeded {
                    self.step = PatchStep::Write;
                    self.unprotected = true;
                } else {
                    self.step = PatchStep::Done;
                    self.failed = true;
                }
            },
            PatchStep::Write => {
                self.step = PatchStep::Restore;
                self.failed = failed;
            },
            PatchStep::Restore => {
                self.step = PatchStep::Flush;
                self.restore_tried = true;
                self.failed = failed;
            },
            PatchStep::Flush => {
                self.step = PatchStep::Done;
                self.flush_tried = true;
                self.failed = failed;
            },
            PatchStep::Done => {},
        }
    }

    /// Whether the run is over and every step succeeded.
    pub fn succeeded(&self) -> (yes: bool)
        ensures
            yes == (self.step == PatchStep::Done && !self.failed),
    {
        match self.step {
            PatchStep::Done => !self.failed,
            _ => false,
        }
    }
}

/// Every run is over after four reports, whatever they say, and one that
/// lifted the protection has by then tried both to restore it and to flush
/// the cache.
pub proof fn protection_is_always_restored(run: PatchRun, r1: bool, r2: bool, r3: bool, r4: bool)
    requires
        run.wf(),
    ensures
        run.after(r1).after(r2).after(r3).after(r4).step == PatchStep::Done,
        run.after(r1).after(r2).after(r3).after(r4).unprotected ==> run.after(r1).after(r2).after(
            r3,
        ).after(r4).restore_tried && run.after(r1).after(r2).after(r3).after(r4).flush_tried,
{
}

} // verus!
