//! Running a firewall plan: which command comes next, given how the last
//! one went. The commands themselves are run by the caller.

use vstd::prelude::*;
use crate::enforcement::firewall::{cmd_view, command_outcome, outcome_spec, steps_view, CmdV, FwCommand, FwStep, OnFailure, StepV};

verus! {

/// Where the run of a plan stands.
#[derive(Debug, Clone, Copy, PartialEq, Eq, Structural)]
pub enum PlanPos {
    /// About to start step `i`.
    Step(usize),
    /// The command of step `i` (a `Run`) was run.
    Ran(usize),
    /// The probe of step `i` (an `UnlessOk`) was run.
    Probed(usize),
    /// Command `j` of the fallback list of step `i` was run.
    Fallback(usize, usize),
    /// The command of step `i` (a `RepeatWhileOk`) was run.
    Repeated(usize),
}

/// What the caller does next.
#[derive(Debug)]
pub enum PlanAction {
    /// Run the command at this position (see `command_at`) and report how
    /// it went, at this position.
    Run(PlanPos),
    /// Report the failure as a warning, then continue at the position.
    Warn(String, PlanPos),
    /// The plan is over, with its result.
    Done(Result<(), String>),
}

pub enum ActionV {
    Run(PlanPos),
    Warn(Seq<char>, PlanPos),
    Done(Result<(), Seq<char>>),
}

pub open spec fn action_view(a: PlanAction) -> ActionV {
    match a {
        PlanAction::Run(p) => ActionV::Run(p),
        PlanAction::Warn(m, p) => ActionV::Warn(m@, p),
        PlanAction::Done(Ok(())) => ActionV::Done(Ok(())),
        PlanAction::Done(Err(m)) => ActionV::Done(Err(m@)),
    }
}

/// The command a position names, if it names one.
pub open spec fn cmd_at(s: Seq<StepV>, p: PlanPos) -> Option<CmdV> {
    match p {
        PlanPos::Step(_) => None,
        PlanPos::Ran(i) => if i < s.len() {
            match s[i as int] {
                StepV::Run(c, _) => Some(c),
                _ => None,
            }
        } else {
            None
        },
        PlanPos::Probed(i) => if i < s.len() {
            match s[i as int] {
                StepV::UnlessOk(p, _) => Some(p),
                _ => None,
            }
        } else {
            None
        },
        PlanPos::Fallback(i, j) => if i < s.len() {
            match s[i as int] {
                StepV::UnlessOk(_, t) => if j < t.len() {
                    Some(t[j as int])
                } else {
                    None
                },
                _ => None,
            }
        } else {
            None
        },
        PlanPos::Repeated(i) => if i < s.len() {
            match s[i as int] {
                StepV::RepeatWhileOk(c) => Some(c),
                _ => None,
            }
        } else {
            None
        },
    }
}

/// Starting step `i`: run its command (a `Run`'s command, an `UnlessOk`'s
/// probe, a `RepeatWhileOk`'s command); past the last step the plan
/// succeeded.
pub open spec fn start_at(s: Seq<StepV>, i: usize) -> ActionV {
    if i >= s.len() {
        ActionV::Done(Ok(()))
    } else {
        match s[i as int] {
            StepV::Run(..) => ActionV::Run(PlanPos::Ran(i)),
            StepV::UnlessOk(..) => ActionV::Run(PlanPos::Probed(i)),
            StepV::RepeatWhileOk(..) => ActionV::Run(PlanPos::Repeated(i)),
        }
    }
}

/// The next action after the command at `pos` ran with this exit status and
/// error output:
/// - a `Run` step goes on when its command's outcome is fine; a failure is
///   ignored, warned about, or ends the plan, as the step says;
/// - an `UnlessOk` step goes on when its probe succeeded, else runs its
///   fallback commands in order, the first failure ending the plan;
/// - a `RepeatWhileOk` step runs its command again until it does not
///   succeed.
/// A position that names no command of the plan ends it.
pub open spec fn next_spec(s: Seq<StepV>, pos: PlanPos, success: bool, stderr: Seq<char>) -> ActionV {
    match pos {
        PlanPos::Step(i) => start_at(s, i),
        PlanPos::Ran(i) => if i < s.len() {
            match s[i as int] {
                StepV::Run(c, f) => match outcome_spec(c, success, stderr) {
                    Ok(()) => start_at(s, (i + 1) as usize),
                    Err(m) => match f {
                        OnFailure::Ignore => start_at(s, (i + 1) as usize),
                        OnFailure::Warn => ActionV::Warn(m, PlanPos::Step((i + 1) as usize)),
                        OnFailure::Fail => ActionV::Done(Err(m)),
                    },
                },
                _ => ActionV::Done(Ok(())),
            }
        } else {
            ActionV::Done(Ok(()))
        },
        PlanPos::Probed(i) => if i < s.len() {
            match s[i as int] {
                StepV::UnlessOk(_, t) => if success || t.len() == 0 {
                    start_at(s, (i + 1) as usize)
                } else {
                    ActionV::Run(PlanPos::Fallback(i, 0))
                },
                _ => ActionV::Done(Ok(())),
            }
        } else {
            ActionV::Done(Ok(()))
        },
        PlanPos::Fallback(i, j) => if i < s.len() {
            match s[i as int] {
                StepV::UnlessOk(_, t) => if j < t.len() {
                    match outcome_spec(t[j as int], success, stderr) {
                        Err(m) => ActionV::Done(Err(m)),
                        Ok(()) => if j + 1 < t.len() {
                            ActionV::Run(PlanPos::Fallback(i, (j + 1) as usize))
                        } else {
                            start_at(s, (i + 1) as usize)
                        },
                    }
                } else {
                    ActionV::Done(Ok(()))
                },
                _ => ActionV::Done(Ok(())),
            }
        } else {
            ActionV::Done(Ok(()))
        },
        PlanPos::Repeated(i) => if i < s.len() {
            match s[i as int] {
                StepV::RepeatWhileOk(_) => if success {
                    ActionV::Run(PlanPos::Repeated(i))
                } else {
                    start_at(s, (i + 1) as usize)
                },
                _ => ActionV::Done(Ok(())),
            }
        } else {
            ActionV::Done(Ok(()))
        },
    }
}

/// The command a position names.
pub fn command_at(steps: &Vec<FwStep>, pos: PlanPos) -> (r: Option<&FwCommand>)
    ensures
        match cmd_at(steps_view(steps@), pos) {
            Some(c) => r matches Some(x) && cmd_view(*x) == c,
            None => r is None,
        },
{
    let ghost s = steps_view(steps@);
    match pos {
        PlanPos::Step(_) => None,
        PlanPos::Ran(i) => {
            if i < steps.len() {
                match &steps[i] {
                    FwStep::Run(c, _) => Some(c),
                    _ => None,
                }
            } else {
                None
            }
        },
        PlanPos::Probed(i) => {
            if i < steps.len() {
                match &steps[i] {
                    FwStep::UnlessOk(p, _) => Some(p),
                    _ => None,
                }
            } else {
                None
            }
        },
        PlanPos::Fallback(i, j) => {
            if i < steps.len() {
                match &steps[i] {
                    FwStep::UnlessOk(_, t) => {
                        if j < t.len() {
                            Some(&t[j])
                        } else {
                            None
                        }
                    },
                    _ => None,
                }
            } else {
                None
            }
        },
        PlanPos::Repeated(i) => {
            if i < steps.len() {
                match &steps[i] {
                    FwStep::RepeatWhileOk(c) => Some(c),
                    _ => None,
                }
            } else {
                None
            }
        },
    }
}

fn start_exec(steps: &Vec<FwStep>, i: usize) -> (r: PlanAction)
    ensures
        action_view(r) == start_at(steps_view(steps@), i),
{
    if i >= steps.len() {
        PlanAction::Done(Ok(()))
    } else {
        match &steps[i] {
            FwStep::Run(..) => PlanAction::Run(PlanPos::Ran(i)),
            FwStep::UnlessOk(..) => PlanAction::Run(PlanPos::Probed(i)),
            FwStep::RepeatWhileOk(..) => PlanAction::Run(PlanPos::Repeated(i)),
        }
    }
}

/// The next action of a plan's run, as `next_spec` says.
pub fn plan_next(steps: &Vec<FwStep>, pos: PlanPos, success: bool, stderr: &str) -> (r: PlanAction)
    ensures
        action_view(r) == next_spec(steps_view(steps@), pos, success, stderr@),
{
    match pos {
        PlanPos::Step(i) => start_exec(steps, i),
        PlanPos::Ran(i) => {
            if i >= steps.len() {
                return PlanAction::Done(Ok(()));
            }
            match &steps[i] {
                FwStep::Run(c, f) => match command_outcome(c, success, stderr) {
                    Ok(()) => start_exec(steps, i + 1),
                    Err(m) => match f {
                        OnFailure::Ignore => start_exec(steps, i + 1),
                        OnFailure::Warn => PlanAction::Warn(m, PlanPos::Step(i + 1)),
                        OnFailure::Fail => PlanAction::Done(Err(m)),
                    },
                },
                _ => PlanAction::Done(Ok(())),
            }
        },
        PlanPos::Probed(i) => {
            if i >= steps.len() {
                return PlanAction::Done(Ok(()));
            }
            match &steps[i] {
                FwStep::UnlessOk(_, t) => {
                    if success || t.len() == 0 {
                        start_exec(steps, i + 1)
                    } else {
                        PlanAction::Run(PlanPos::Fallback(i, 0))
                    }
                },
                _ => PlanAction::Done(Ok(())),
            }
        },
        PlanPos::Fallback(i, j) => {
            if i >= steps.len() {
                return PlanAction::Done(Ok(()));
            }
            match &steps[i] {
                FwStep::UnlessOk(_, t) => {
                    if j >= t.len() {
                        return PlanAction::Done(Ok(()));
                    }
                    match command_outcome(&t[j], success, stderr) {
                        Err(m) => PlanAction::Done(Err(m)),
                        Ok(()) => {
                            if j + 1 < t.len() {
                                PlanAction::Run(PlanPos::Fallback(i, j + 1))
                            } else {
                                start_exec(steps, i + 1)
                            }
                        },
                    }
                },
                _ => PlanAction::Done(Ok(())),
            }
        },
        PlanPos::Repeated(i) => {
            if i >= steps.len() {
                return PlanAction::Done(Ok(()));
            }
            match &steps[i] {
                FwStep::RepeatWhileOk(_) => {
                    if success {
                        PlanAction::Run(PlanPos::Repeated(i))
                    } else {
                        start_exec(steps, i + 1)
                    }
                },
                _ => PlanAction::Done(Ok(())),
            }
        },
    }
}

} // verus!
