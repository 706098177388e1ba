//! Carrying out a plan of outputs: what is due next, and how the run ends.
//! A run goes through the plan in order and stops at the first output that
//! fails; what is left of the plan is then given up.

use crate::mapping::{outputs_of, EnvOutput, OutputModel};
use vstd::prelude::*;

verus! {

/// Why a run ended without success.
#[derive(Debug, Clone, Copy, PartialEq, Eq, Structural)]
pub enum ApplyError {
    /// The output at this place of the plan could not be written.
    IoFailure { at: usize },
}

/// A plan of outputs together with how far it has been carried out.
#[derive(Debug, Clone, PartialEq, Eq)]
pub struct ApplyRun {
    plan: Vec<EnvOutput>,
    done: usize,
    failed: bool,
}

/// What an [`ApplyRun`] stands for: the plan, the number of outputs that
/// went well, and whether the one after them failed.
pub struct RunModel {
    pub plan: Seq<OutputModel>,
    pub done: nat,
    pub failed: bool,
}

impl View for ApplyRun {
    type V = RunModel;

    closed spec fn view(&self) -> RunModel {
        RunModel { plan: outputs_of(self.plan@), done: self.done as nat, failed: self.failed }
    }
}

/// The run of `plan` before anything was carried out.
pub open spec fn start_of(plan: Seq<OutputModel>) -> RunModel {
    RunModel { plan, done: 0, failed: false }
}

/// Whether an output is due: none has failed and the plan is not used up.
pub open spec fn is_pending(run: RunModel) -> bool {
    !run.failed && run.done < run.plan.len()
}

/// The run after the output that was due went well or failed. A run with
/// nothing due stays as it is.
pub open spec fn after_report(run: RunModel, succeeded: bool) -> RunModel {
    if !is_pending(run) {
        run
    } else if succeeded {
        RunModel { done: run.done + 1, ..run }
    } else {
        RunModel { failed: true, ..run }
    }
}

/// The run after each of `reports`, in their order.
pub open spec fn after_reports(run: RunModel, reports: Seq<bool>) -> RunModel
    decreases reports.len(),
{
    if reports.len() == 0 {
        run
    } else {
        after_report(after_reports(run, reports.drop_last()), reports.last())
    }
}

/// How a run has ended: not yet, while an output is due; with the failure,
/// if one failed; else with success.
pub open spec fn outcome_of(run: RunModel) -> Option<Result<(), ApplyError>> {
    if is_pending(run) {
        None
    } else if run.failed {
        Some(Err(ApplyError::IoFailure { at: run.done as usize }))
    } else {
        Some(Ok(()))
    }
}

/// A plan without outputs ends in success before anything is carried out.
pub proof fn lemma_empty_plan_succeeds(plan: Seq<OutputModel>)
    requires
        plan.len() == 0,
    ensures
        outcome_of(start_of(plan)) == Some(Ok::<(), ApplyError>(())),
{
}

/// A failure is not passed over: once the output that was due has failed,
/// the run has ended with that failure, nothing more is due, and no later
/// report changes this.
pub proof fn lemma_failure_ends_the_run(run: RunModel, later: Seq<bool>)
    requires
        is_pending(run),
    ensures
        after_reports(after_report(run, false), later) == after_report(run, false),
        !is_pending(after_report(run, false)),
        outcome_of(after_report(run, false)) == Some(
            Err::<(), ApplyError>(ApplyError::IoFailure { at: run.done as usize }),
        ),
    decreases later.len(),
{
    if later.len() > 0 {
        lemma_failure_ends_the_run(run, later.drop_last());
    }
}

/// A run in which every output goes well ends in success, after as many
/// reports as the plan has outputs and not before.
pub proof fn lemma_all_well_succeeds(plan: Seq<OutputModel>, reports: Seq<bool>)
    requires
        reports.len() <= plan.len(),
        forall|i: int| 0 <= i < reports.len() ==> reports[i],
    ensures
        after_reports(start_of(plan), reports) == (RunModel {
            plan,
            done: reports.len(),
            failed: false,
        }),
        reports.len() == plan.len() ==> outcome_of(after_reports(start_of(plan), reports)) == Some(
            Ok::<(), ApplyError>(()),
        ),
        reports.len() < plan.len() ==> outcome_of(after_reports(start_of(plan), reports)) is None,
    decreases reports.len(),
{
    if reports.len() > 0 {
        lemma_all_well_succeeds(plan, reports.drop_last());
    }
}

impl ApplyRun {
    /// The run of `plan`, with nothing carried out yet.
    pub fn new(plan: Vec<EnvOutput>) -> (run: ApplyRun)
        ensures
            run@ == start_of(outputs_of(plan@)),
    {
        ApplyRun { plan, done: 0, failed: false }
    }

    /// The output to carry out next, if one is due.
    pub fn pending(&self) -> (next: Option<&EnvOutput>)
        ensures
            is_pending(self@) ==> next is Some && next->Some_0@ == self@.plan[self@.done as int],
            !is_pending(self@) ==> next is None,
    {
        if !self.failed && self.done < self.plan.len() {
            Some(&self.plan[self.done])
        } else {
            None
        }
    }

    /// Takes note of how the output that was due went.
    pub fn report(&mut self, succeeded: bool)
        ensures
            final(self)@ == after_report(old(self)@, succeeded),
    {
        if !self.failed && self.done < self.plan.len() {
            if succeeded {
                self.done = self.done + 1;
            } else {
                self.failed = true;
            }
        }
    }

    /// How the run has ended, once no output is due any more.
    pub fn outcome(&self) -> (outcome: Option<Result<(), ApplyError>>)
        ensures
            outcome == outcome_of(self@),
    {
        if self.failed {
            Some(Err(ApplyError::IoFailure { at: self.done }))
        } else if self.done < self.plan.len() {
            None
        } else {
            Some(Ok(()))
        }
    }
}

} // verus!
