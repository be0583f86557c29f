//! The state machine of one run.
//!
//! A run inspects the target directory, scans it, plans, asks for
//! confirmation and renames. Everything that touches the world is done by
//! the caller: the session hands out an [`Action`], the caller performs it
//! and reports back with an [`Event`], and [`Session::step`] decides what
//! comes next.

use vstd::prelude::*;
use crate::command::{Command, CommandView};
use crate::confirm::{affirmative, is_affirmative};
use crate::plan::{
    build_plan, entry_views, plan_views, planned, Entry, EntryView, PlannedRename,
    PlannedRenameView,
};

verus! {

/// How a run ended.
#[derive(Clone, Copy, Debug, PartialEq, Eq, Structural)]
pub enum Outcome {
    /// The target path does not exist.
    DirectoryMissing,
    /// The target path is no directory.
    NotADirectory,
    /// The directory could not be read.
    ScanFailed,
    /// The directory holds no entry.
    EmptyDirectory,
    /// No entry changes its name.
    NothingToChange,
    /// The answer to the preview was not affirmative.
    Cancelled,
    /// Every planned rename was attempted once.
    Completed { succeeded: usize, failed: usize },
}

impl Outcome {
    /// The run failed before any plan was built.
    pub open spec fn fatal(self) -> bool {
        self is DirectoryMissing || self is NotADirectory || self is ScanFailed
    }

    /// Whether the run failed before any plan was built; every other outcome
    /// is a success, cancellation and failed renames included.
    pub fn is_fatal(&self) -> (fatal: bool)
        ensures
            fatal == self.fatal(),
    {
        match self {
            Outcome::DirectoryMissing => true,
            Outcome::NotADirectory => true,
            Outcome::ScanFailed => true,
            _ => false,
        }
    }
}

/// Where a run stands.
#[derive(Clone, Copy, Debug, PartialEq, Eq, Structural)]
pub enum Stage {
    /// Waiting to learn whether the target is a directory.
    Validating,
    /// Waiting for the directory's entries.
    Scanning,
    /// The plan is shown; waiting for the answer.
    Confirming,
    /// Waiting for the result of the next rename; so many have succeeded and
    /// failed so far.
    Applying { succeeded: usize, failed: usize },
    /// The run is over.
    Finished(Outcome),
}

/// What the caller is to do next.
#[derive(Clone, Copy, Debug, PartialEq, Eq, Structural)]
pub enum Action {
    /// Find out whether the target path exists and is a directory.
    InspectDirectory,
    /// List the direct entries of the target directory.
    ScanDirectory,
    /// Show the plan and read one line of answer.
    Confirm,
    /// Rename the entry of the plan at `index`.
    Rename { index: usize },
    /// Report the outcome and stop.
    Finish(Outcome),
}

/// What the caller found when it performed an [`Action`].
#[derive(Clone, Debug, PartialEq, Eq)]
pub enum Event {
    /// The target path was inspected.
    Inspected { exists: bool, is_dir: bool },
    /// The directory could not be read.
    ScanFailed,
    /// The directory holds these entries.
    Scanned(Vec<Entry>),
    /// This line was read in answer to the preview.
    Answered(String),
    /// The rename asked for was attempted.
    Renamed { succeeded: bool },
}

/// An [`Event`] over character sequences.
pub enum EventView {
    Inspected { exists: bool, is_dir: bool },
    ScanFailed,
    Scanned(Seq<EntryView>),
    Answered(Seq<char>),
    Renamed { succeeded: bool },
}

impl View for Event {
    type V = EventView;

    open spec fn view(&self) -> EventView {
        match self {
            Event::Inspected { exists, is_dir } => EventView::Inspected {
                exists: *exists,
                is_dir: *is_dir,
            },
            Event::ScanFailed => EventView::ScanFailed,
            Event::Scanned(entries) => EventView::Scanned(entry_views(entries@)),
            Event::Answered(answer) => EventView::Answered(answer@),
            Event::Renamed { succeeded } => EventView::Renamed { succeeded: *succeeded },
        }
    }
}

/// The state of a run: its command, its plan and its stage.
pub struct SessionView {
    pub command: CommandView,
    pub plan: Seq<PlannedRenameView>,
    pub stage: Stage,
}

impl SessionView {
    /// The state in which a run with `command` begins.
    pub open spec fn initial(command: CommandView) -> SessionView {
        SessionView { command, plan: Seq::empty(), stage: Stage::Validating }
    }

    /// How many renames have been attempted.
    pub open spec fn attempted(self) -> nat {
        match self.stage {
            Stage::Applying { succeeded, failed } => (succeeded + failed) as nat,
            Stage::Finished(Outcome::Completed { succeeded, failed }) => (succeeded
                + failed) as nat,
            _ => 0,
        }
    }

    /// The plan fits in memory and the counters of the stage agree with it: a
    /// plan that awaits confirmation is not empty, a rename that is awaited is
    /// one of the plan, and a completed run has attempted each rename of the
    /// plan.
    pub open spec fn wf(self) -> bool {
        &&& self.plan.len() <= usize::MAX
        &&& match self.stage {
            Stage::Confirming => self.plan.len() > 0,
            Stage::Applying { .. } => self.attempted() < self.plan.len(),
            Stage::Finished(Outcome::Completed { .. }) => self.attempted() == self.plan.len(),
            _ => true,
        }
    }

    /// The run ends with `outcome`.
    pub open spec fn finish(self, outcome: Outcome) -> (SessionView, Action) {
        (SessionView { stage: Stage::Finished(outcome), ..self }, Action::Finish(outcome))
    }

    /// The state that follows `event`, with the action to perform next; `None`
    /// where the stage does not await such an event.
    pub open spec fn step(self, event: EventView) -> Option<(SessionView, Action)> {
        match (self.stage, event) {
            (Stage::Validating, EventView::Inspected { exists, is_dir }) => Some(
                if !exists {
                    self.finish(Outcome::DirectoryMissing)
                } else if !is_dir {
                    self.finish(Outcome::NotADirectory)
                } else {
                    (SessionView { stage: Stage::Scanning, ..self }, Action::ScanDirectory)
                },
            ),
            (Stage::Scanning, EventView::ScanFailed) => Some(self.finish(Outcome::ScanFailed)),
            (Stage::Scanning, EventView::Scanned(entries)) => Some(
                if entries.len() == 0 {
                    self.finish(Outcome::EmptyDirectory)
                } else if planned(entries, self.command).len() == 0 {
                    self.finish(Outcome::NothingToChange)
                } else {
                    (
                        SessionView {
                            plan: planned(entries, self.command),
                            stage: Stage::Confirming,
                            ..self
                        },
                        Action::Confirm,
                    )
                },
            ),
            (Stage::Confirming, EventView::Answered(answer)) => Some(
                if affirmative(answer) {
                    (
                        SessionView { stage: Stage::Applying { succeeded: 0, failed: 0 }, ..self },
                        Action::Rename { index: 0 },
                    )
                } else {
                    self.finish(Outcome::Cancelled)
                },
            ),
            (Stage::Applying { succeeded, failed }, EventView::Renamed { succeeded: done }) => {
                let succeeded: int = if done {
                    succeeded + 1
                } else {
                    succeeded as int
                };
                let failed: int = if done {
                    failed as int
                } else {
                    failed + 1
                };
                Some(
                    if succeeded + failed < self.plan.len() {
                        (
                            SessionView {
                                stage: Stage::Applying {
                                    succeeded: succeeded as usize,
                                    failed: failed as usize,
                                },
                                ..self
                            },
                            Action::Rename { index: (succeeded + failed) as usize },
                        )
                    } else {
                        self.finish(
                            Outcome::Completed {
                                succeeded: succeeded as usize,
                                failed: failed as usize,
                            },
                        )
                    },
                )
            },
            _ => None,
        }
    }
}

/// One run of the renamer.
pub struct Session {
    command: Command,
    plan: Vec<PlannedRename>,
    stage: Stage,
}

impl View for Session {
    type V = SessionView;

    closed spec fn view(&self) -> SessionView {
        SessionView { command: self.command@, plan: plan_views(self.plan@), stage: self.stage }
    }
}

impl Session {
    /// Every session stands in a valid state.
    #[verifier::type_invariant]
    spec fn inv(self) -> bool {
        self@.wf()
    }

    /// Begins a run with `command`. The first thing to do is to inspect the
    /// target directory.
    pub fn start(command: Command) -> (started: (Session, Action))
        ensures
            started.0@ == SessionView::initial(command@),
            started.1 == Action::InspectDirectory,
    {
        let session = Session { command, plan: Vec::new(), stage: Stage::Validating };
        assert(plan_views(session.plan@) == Seq::<PlannedRenameView>::empty());
        (session, Action::InspectDirectory)
    }

    /// The command of the run.
    pub fn command(&self) -> (command: &Command)
        ensures
            command@ == self@.command,
    {
        &self.command
    }

    /// The plan: empty until the directory has been scanned, and fixed from
    /// then on.
    pub fn plan(&self) -> (plan: &Vec<PlannedRename>)
        ensures
            plan_views(plan@) == self@.plan,
    {
        &self.plan
    }

    /// The stage of the run.
    pub fn stage(&self) -> (stage: Stage)
        ensures
            stage == self@.stage,
            self@.wf(),
    {
        proof {
            use_type_invariant(self);
        }
        self.stage
    }

    /// Takes in what the caller found and decides what to do next.
    ///
    /// Returns `None`, and leaves the session as it is, where the event is
    /// not the one that the stage awaits.
    pub fn step(&mut self, event: Event) -> (action: Option<Action>)
        ensures
            old(self)@.wf(),
            final(self)@.wf(),
            match old(self)@.step(event@) {
                Some((next, act)) => final(self)@ == next && action == Some(act),
                None => final(self)@ == old(self)@ && action is None,
            },
            action matches Some(Action::Rename { index }) ==> index < final(self)@.plan.len(),
    {
        proof {
            use_type_invariant(&*self);
        }
        match event {
            Event::Inspected { exists, is_dir } => match self.stage {
                Stage::Validating => {
                    if !exists {
                        Some(self.finish(Outcome::DirectoryMissing))
                    } else if !is_dir {
                        Some(self.finish(Outcome::NotADirectory))
                    } else {
                        self.stage = Stage::Scanning;
                        Some(Action::ScanDirectory)
                    }
                },
                _ => None,
            },
            Event::ScanFailed => match self.stage {
                Stage::Scanning => Some(self.finish(Outcome::ScanFailed)),
                _ => None,
            },
            Event::Scanned(entries) => match self.stage {
                Stage::Scanning => {
                    if entries.len() == 0 {
                        Some(self.finish(Outcome::EmptyDirectory))
                    } else {
                        let plan = build_plan(&entries, &self.command);
                        if plan.len() == 0 {
                            Some(self.finish(Outcome::NothingToChange))
                        } else {
                            self.plan = plan;
                            self.stage = Stage::Confirming;
                            Some(Action::Confirm)
                        }
                    }
                },
                _ => None,
            },
            Event::Answered(answer) => match self.stage {
                Stage::Confirming => {
                    if is_affirmative(answer.as_str()) {
                        self.stage = Stage::Applying { succeeded: 0, failed: 0 };
                        Some(Action::Rename { index: 0 })
                    } else {
                        Some(self.finish(Outcome::Cancelled))
                    }
                },
                _ => None,
            },
            Event::Renamed { succeeded: done } => match self.stage {
                Stage::Applying { succeeded, failed } => {
                    let total: usize = self.plan.len();
                    let succeeded: usize = if done {
                        succeeded + 1
                    } else {
                        succeeded
                    };
                    let failed: usize = if done {
                        failed
                    } else {
                        failed + 1
                    };
                    if succeeded + failed < total {
                        self.stage = Stage::Applying { succeeded, failed };
                        Some(Action::Rename { index: succeeded + failed })
                    } else {
                        Some(self.finish(Outcome::Completed { succeeded, failed }))
                    }
                },
                _ => None,
            },
        }
    }

    /// Ends the run with `outcome`.
    fn finish(&mut self, outcome: Outcome) -> (action: Action)
        requires
            outcome matches Outcome::Completed { succeeded, failed } ==> succeeded + failed
                == old(self)@.plan.len(),
        ensures
            (final(self)@, action) == old(self)@.finish(outcome),
    {
        proof {
            use_type_invariant(&*self);
        }
        self.stage = Stage::Finished(outcome);
        Action::Finish(outcome)
    }
}

} // verus!
