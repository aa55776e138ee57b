//! The order of an uninstall run as a state machine. The caller performs each
//! action that the machine asks for (looking a program up, running its
//! uninstaller, emitting a report, pausing) and hands back what came of it.
use vstd::prelude::*;

use crate::programs::{copy_program, InstalledProgram};
use crate::uninstall::{
    begin_uninstall, begins_with, report_cleanup, report_outcome, reports_cleanup,
    reports_outcome, OutcomeReport, ProgramStart, RunOutcome, UninstallProgress,
};

verus! {

/// How long the run waits after each uninstaller, in milliseconds.
pub const PAUSE_AFTER_UNINSTALL_MS: u64 = 400;

/// Where an uninstall run stands.
#[derive(Debug)]
pub enum RunStage {
    /// Nothing was done yet.
    Start,
    /// The program selected at the current position is being looked up.
    LookingUp,
    /// The current program was skipped and its failure reported.
    Skipped,
    /// The current program was announced as running.
    Announced,
    /// The uninstaller of the current program is running.
    Running,
    /// The uninstaller at this path was reported missing; its leftover
    /// registry entry is removed next.
    CleanupAnnounced(String),
    /// The leftover registry entry of the current program is being removed
    /// (its uninstaller at this path was missing).
    Deleting(String),
    /// The final report of the current program was emitted.
    Reported,
    /// The pause after an uninstaller is under way.
    Pausing,
    /// The end of the run is being announced.
    Finishing,
    /// The run is over.
    Over,
}

/// What came of the last action.
#[derive(Debug)]
pub enum RunEvent {
    /// The action was performed; it has no result.
    Done,
    /// The lookup found this program, or none.
    Found(Option<InstalledProgram>),
    /// The lookup failed with this error.
    LookupFailed(String),
    /// The uninstaller ended so.
    Ran(Result<RunOutcome, String>),
    /// Removing the leftover registry entry ended so.
    Deleted(Result<(), String>),
}

/// What the caller is to do next.
#[derive(Debug)]
pub enum RunAction {
    /// End the run with this error.
    Fail(String),
    /// Look up the program with this id.
    LookUp(String),
    /// Emit this progress report (`uninstall-progress`).
    Emit(UninstallProgress),
    /// Run the uninstaller of this program.
    RunUninstaller(InstalledProgram),
    /// Remove the uninstall registry entry with this id.
    DeleteKey(String),
    /// Wait this many milliseconds.
    Pause(u64),
    /// Emit the end of the run (`uninstall-finished`).
    EmitFinished,
    /// End the run successfully.
    Finish,
}

/// An uninstall run over the programs selected by id, one after another.
pub struct UninstallRun {
    ids: Vec<String>,
    next: usize,
    current: Option<InstalledProgram>,
    stage: RunStage,
}

impl UninstallRun {
    /// The ids of the selected programs.
    pub closed spec fn ids(&self) -> Seq<Seq<char>> {
        self.ids@.map_values(|s: String| s@)
    }

    /// The position of the program being handled.
    pub closed spec fn position(&self) -> int {
        self.next as int
    }

    /// The program being uninstalled, once it was found.
    pub closed spec fn current(&self) -> Option<InstalledProgram> {
        self.current
    }

    pub closed spec fn stage(&self) -> RunStage {
        self.stage
    }

    /// The position is a selected program while one is handled, and the
    /// program being uninstalled is a found, unprotected one.
    pub closed spec fn wf(&self) -> bool {
        &&& self.next <= self.ids@.len()
        &&& match self.stage {
            RunStage::Start => self.next == 0,
            RunStage::LookingUp | RunStage::Skipped => self.next < self.ids@.len(),
            RunStage::Finishing | RunStage::Over => true,
            _ => {
                &&& self.next < self.ids@.len()
                &&& self.current matches Some(p) && !p.protected
            },
        }
    }

    /// Whether `event` answers the action that the run asked for last.
    pub open spec fn accepts(&self, event: RunEvent) -> bool {
        match self.stage() {
            RunStage::LookingUp => event is Found || event is LookupFailed,
            RunStage::Running => event is Ran,
            RunStage::Deleting(_) => event is Deleted,
            RunStage::Over => false,
            _ => event is Done,
        }
    }

    /// A run over the programs `ids`; its first step takes `RunEvent::Done`.
    pub fn new(ids: Vec<String>) -> (r: UninstallRun)
        ensures
            r.wf(),
            r.ids() == ids@.map_values(|s: String| s@),
            r.stage() == RunStage::Start,
            r.position() == 0,
            r.current() is None,
    {
        UninstallRun { ids, next: 0, current: None, stage: RunStage::Start }
    }

    /// Whether the run is over.
    pub fn is_over(&self) -> (r: bool)
        ensures
            r == (self.stage() is Over),
    {
        match self.stage {
            RunStage::Over => true,
            _ => false,
        }
    }

    fn look_up(&mut self) -> (action: RunAction)
        requires
            old(self).next < old(self).ids@.len(),
        ensures
            final(self).ids == old(self).ids,
            final(self).next == old(self).next,
            final(self).current is None,
            final(self).stage == RunStage::LookingUp,
            action matches RunAction::LookUp(id) && id@ == old(self).ids@[old(self).next as int]@,
    {
        self.current = None;
        self.stage = RunStage::LookingUp;
        RunAction::LookUp(String::from_str(self.ids[self.next].as_str()))
    }

    /// After a program: the next selected program is looked up, or, after
    /// the last one, the end of the run is announced.
    fn advance(&mut self) -> (action: RunAction)
        requires
            old(self).next < old(self).ids@.len(),
        ensures
            final(self).wf(),
            advances(*old(self), *final(self), action),
    {
        assert(self.next < self.ids.len());
        self.next = self.next + 1;
        if self.next < self.ids.len() {
            self.look_up()
        } else {
            self.current = None;
            self.stage = RunStage::Finishing;
            RunAction::EmitFinished
        }
    }

    /// Takes what came of the last action and says what to do next.
    pub fn step(&mut self, event: RunEvent) -> (action: RunAction)
        requires
            old(self).wf(),
            old(self).accepts(event),
        ensures
            final(self).wf(),
            final(self).ids() == old(self).ids(),
            run_step(*old(self), event, *final(self), action),
            action matches RunAction::RunUninstaller(p) ==> !p.protected,
    {
        // The arms that return `Finish` without a stage change are not reached:
        // `wf` keeps a current program in the stages that use it, and
        // `accepts` admits only the event that the stage waits for.
        let mut stage = RunStage::Over;
        std::mem::swap(&mut stage, &mut self.stage);
        match stage {
            RunStage::Start => {
                if self.ids.len() == 0 {
                    RunAction::Fail(String::from_str("No programs selected"))
                } else {
                    self.look_up()
                }
            },
            RunStage::LookingUp => match event {
                RunEvent::LookupFailed(e) => RunAction::Fail(e),
                RunEvent::Found(found) => {
                    let start = begin_uninstall(self.ids[self.next].as_str(), found.as_ref());
                    match start {
                        ProgramStart::Skip(report) => {
                            self.stage = RunStage::Skipped;
                            RunAction::Emit(report)
                        },
                        ProgramStart::Run(report) => {
                            self.current = found;
                            self.stage = RunStage::Announced;
                            RunAction::Emit(report)
                        },
                    }
                },
                _ => RunAction::Finish,
            },
            RunStage::Skipped | RunStage::Pausing => self.advance(),
            RunStage::Announced => {
                let program = match &self.current {
                    Some(p) => copy_program(p),
                    None => {
                        return RunAction::Finish;
                    },
                };
                self.stage = RunStage::Running;
                RunAction::RunUninstaller(program)
            },
            RunStage::Running => match event {
                RunEvent::Ran(outcome) => {
                    let report = match &self.current {
                        Some(p) => report_outcome(p, outcome),
                        None => {
                            return RunAction::Finish;
                        },
                    };
                    match report {
                        OutcomeReport::Done(p) => {
                            self.stage = RunStage::Reported;
                            RunAction::Emit(p)
                        },
                        OutcomeReport::CleanUp(p, path) => {
                            self.stage = RunStage::CleanupAnnounced(path);
                            RunAction::Emit(p)
                        },
                    }
                },
                _ => RunAction::Finish,
            },
            RunStage::CleanupAnnounced(path) => {
                let id = match &self.current {
                    Some(p) => String::from_str(p.id.as_str()),
                    None => {
                        return RunAction::Finish;
                    },
                };
                self.stage = RunStage::Deleting(path);
                RunAction::DeleteKey(id)
            },
            RunStage::Deleting(path) => match event {
                RunEvent::Deleted(result) => {
                    let report = match &self.current {
                        Some(p) => report_cleanup(p, path.as_str(), result),
                        None => {
                            return RunAction::Finish;
                        },
                    };
                    self.stage = RunStage::Reported;
                    RunAction::Emit(report)
                },
                _ => RunAction::Finish,
            },
            RunStage::Reported => {
                self.stage = RunStage::Pausing;
                RunAction::Pause(PAUSE_AFTER_UNINSTALL_MS)
            },
            RunStage::Finishing => RunAction::Finish,
            RunStage::Over => RunAction::Finish,
        }
    }
}

/// Going on after the program at the current position: the next selected
/// program is looked up, or, after the last one, the end is announced.
pub open spec fn advances(before: UninstallRun, after: UninstallRun, action: RunAction) -> bool {
    let n = before.position() + 1;
    &&& after.ids() == before.ids()
    &&& after.position() == n
    &&& after.current() is None
    &&& if n < before.ids().len() {
        &&& after.stage() == RunStage::LookingUp
        &&& action matches RunAction::LookUp(id) && id@ == before.ids()[n]
    } else {
        &&& after.stage() == RunStage::Finishing
        &&& action is EmitFinished
    }
}

/// One step of an uninstall run: from `before`, on `event`, the run moves to
/// `after` and asks for `action`.
pub open spec fn run_step(before: UninstallRun, event: RunEvent, after: UninstallRun, action: RunAction) -> bool {
    let ids = before.ids();
    let i = before.position();
    let same_program = after.position() == i && after.current() == before.current();
    match before.stage() {
        RunStage::Start => if ids.len() == 0 {
            &&& after.stage() == RunStage::Over
            &&& action matches RunAction::Fail(e) && e@ == "No programs selected"@
        } else {
            &&& after.stage() == RunStage::LookingUp
            &&& after.position() == 0
            &&& action matches RunAction::LookUp(id) && id@ == ids[0]
        },
        RunStage::LookingUp => match event {
            RunEvent::LookupFailed(e) => {
                &&& after.stage() == RunStage::Over
                &&& action matches RunAction::Fail(f) && f == e
            },
            RunEvent::Found(found) => {
                &&& after.position() == i
                &&& action matches RunAction::Emit(report)
                &&& {
                    ||| begins_with(ids[i], found, ProgramStart::Skip(report)) && after.stage()
                        == RunStage::Skipped
                    ||| {
                        &&& begins_with(ids[i], found, ProgramStart::Run(report))
                        &&& after.stage() == RunStage::Announced
                        &&& after.current() == found
                    }
                }
            },
            _ => false,
        },
        RunStage::Skipped | RunStage::Pausing => advances(before, after, action),
        RunStage::Announced => {
            &&& same_program
            &&& after.stage() == RunStage::Running
            &&& action matches RunAction::RunUninstaller(p) && before.current() == Some(p)
        },
        RunStage::Running => match event {
            RunEvent::Ran(outcome) => {
                &&& same_program
                &&& action matches RunAction::Emit(report)
                &&& {
                    ||| reports_outcome(before.current()->0, outcome, OutcomeReport::Done(report))
                        && after.stage() == RunStage::Reported
                    ||| after.stage() matches RunStage::CleanupAnnounced(path) && reports_outcome(
                        before.current()->0,
                        outcome,
                        OutcomeReport::CleanUp(report, path),
                    )
                }
            },
            _ => false,
        },
        RunStage::CleanupAnnounced(path) => {
            &&& same_program
            &&& after.stage() == RunStage::Deleting(path)
            &&& action matches RunAction::DeleteKey(id) && id@ == before.current()->0.id@
        },
        RunStage::Deleting(path) => match event {
            RunEvent::Deleted(result) => {
                &&& same_program
                &&& after.stage() == RunStage::Reported
                &&& action matches RunAction::Emit(report) && reports_cleanup(
                    before.current()->0,
                    path@,
                    result,
                    report,
                )
            },
            _ => false,
        },
        RunStage::Reported => {
            &&& same_program
            &&& after.stage() == RunStage::Pausing
            &&& action == RunAction::Pause(PAUSE_AFTER_UNINSTALL_MS)
        },
        RunStage::Finishing => after.stage() == RunStage::Over && action is Finish,
        RunStage::Over => false,
    }
}

} // verus!
