//! The per-epoch training decisions, separated from the external compute
//! engine that performs the steps: the caller hands each batch to the
//! engine, reports the outcome here, and obeys the returned action. A
//! failed step is counted and training proceeds; a fatal signal halts the
//! epoch loop.

use vstd::prelude::*;

verus! {

/// What the external compute engine reported for one training step.
#[derive(Clone, Copy, Debug, PartialEq, Eq, Structural)]
pub enum StepOutcome {
    /// The step succeeded.
    Stepped,
    /// The step failed, recoverably: training continues with the next
    /// batch.
    StepFailed,
    /// The engine signalled an unrecoverable condition.
    Fatal,
}

/// What the caller must do after reporting a step outcome.
#[derive(Clone, Copy, Debug, PartialEq, Eq, Structural)]
pub enum DriverAction {
    /// Hand the next batch to the engine.
    Continue,
    /// Stop the epoch loop and surface the fatal condition.
    Stop,
}

/// Drives epochs over batches: counts steps and recoverable failures, and
/// halts exactly when the engine has signalled a fatal condition.
pub struct TrainingDriver {
    /// How many batches have been handed to the engine.
    pub batches_seen: usize,
    /// How many steps failed recoverably.
    pub step_failures: usize,
    /// Whether the engine has signalled a fatal condition.
    pub halted: bool,
}

impl TrainingDriver {
    /// A fresh driver: nothing seen, nothing failed, not halted.
    pub fn new() -> (d: TrainingDriver)
        ensures
            d.batches_seen == 0,
            d.step_failures == 0,
            !d.halted,
    {
        TrainingDriver { batches_seen: 0, step_failures: 0, halted: false }
    }

    /// Records one step's outcome. A recoverable failure is counted and
    /// training continues; only a fatal signal stops the loop.
    pub fn on_batch_result(&mut self, outcome: StepOutcome) -> (a: DriverAction)
        requires
            old(self).batches_seen < usize::MAX,
            old(self).step_failures < usize::MAX,
        ensures
            final(self).batches_seen == old(self).batches_seen + 1,
            final(self).step_failures == old(self).step_failures + (
            if outcome == StepOutcome::StepFailed {
                1int
            } else {
                0int
            }),
            final(self).halted == (old(self).halted || outcome == StepOutcome::Fatal),
            a == (if outcome == StepOutcome::Fatal {
                DriverAction::Stop
            } else {
                DriverAction::Continue
            }),
    {
        self.batches_seen = self.batches_seen + 1;
        match outcome {
            StepOutcome::Stepped => DriverAction::Continue,
            StepOutcome::StepFailed => {
                self.step_failures = self.step_failures + 1;
                DriverAction::Continue
            },
            StepOutcome::Fatal => {
                self.halted = true;
                DriverAction::Stop
            },
        }
    }

    /// Whether another epoch may start: only while no fatal condition has
    /// been signalled.
    pub fn should_continue(&self) -> (b: bool)
        ensures
            b == !self.halted,
    {
        !self.halted
    }
}

} // verus!
