//! The monitor between the things it has done and the things it has to do:
//! one cycle takes the text of a status report to the alert that has to be
//! shown, if any, and each event of the program's life to its next action.

use crate::alert::{alert_for, notification, Alert, AlertModel};
use crate::parser::{parse_status, parsed, ParseError};
use crate::raid::RaidModel;
use crate::tracker::{notifies, reconciled, well_formed, FailureTracker};
use vstd::prelude::*;

verus! {

/// Seconds to wait before each cycle: a quarter of an hour.
pub const SLEEP_DURATION: u64 = 60 * 15;

/// Where the kernel keeps the status report of its arrays.
pub const MDSTAT_PATH: &'static str = "/proc/mdstat";

/// The mathematical content of what a cycle gives: the alert to show, none,
/// or the error.
pub open spec fn outcome_view(out: Result<Option<Alert>, ParseError>) -> Result<
    Option<AlertModel>,
    ParseError,
> {
    match out {
        Ok(Some(alert)) => Ok(Some(alert@)),
        Ok(None) => Ok(None),
        Err(e) => Err(e),
    }
}

/// What a cycle gives for the tracked arrays `set` and the status report
/// `text`: an error if the report does not parse; else an alert about all
/// arrays that are tracked after the cycle if the report holds a new
/// failure, and nothing if it holds none.
pub open spec fn outcome(set: Seq<RaidModel>, text: Seq<char>) -> Result<
    Option<AlertModel>,
    ParseError,
> {
    match parsed(text) {
        Err(e) => Err(e),
        Ok(records) => if notifies(set, records) {
            Ok(Some(alert_for(reconciled(set, records))))
        } else {
            Ok(None)
        },
    }
}

/// The tracked arrays after a cycle: reconciled with the records of the
/// report, or unchanged if the report does not parse.
pub open spec fn tracked_after(set: Seq<RaidModel>, text: Seq<char>) -> Seq<RaidModel> {
    match parsed(text) {
        Err(_) => set,
        Ok(records) => reconciled(set, records),
    }
}

/// What the program has just done.
#[derive(Debug)]
pub enum Event {
    /// It has started.
    Started,
    /// It has waited for [`SLEEP_DURATION`] seconds.
    Waited,
    /// It has read the status report at [`MDSTAT_PATH`]; this is its text.
    Sampled(String),
    /// It has shown the alert.
    Alerted,
}

/// What the program has to do next.
#[derive(Debug)]
pub enum Action {
    /// Wait for [`SLEEP_DURATION`] seconds.
    Wait,
    /// Read the status report at [`MDSTAT_PATH`].
    Sample,
    /// Show this alert.
    Alert(Alert),
}

/// The mathematical content of an [`Action`].
pub enum ActionModel {
    Wait,
    Sample,
    Alert(AlertModel),
}

impl View for Action {
    type V = ActionModel;

    open spec fn view(&self) -> ActionModel {
        match self {
            Action::Wait => ActionModel::Wait,
            Action::Sample => ActionModel::Sample,
            Action::Alert(alert) => ActionModel::Alert(alert@),
        }
    }
}

/// The mathematical content of what an event gives: the next action, or
/// the error.
pub open spec fn action_view(out: Result<Action, ParseError>) -> Result<ActionModel, ParseError> {
    match out {
        Ok(action) => Ok(action@),
        Err(e) => Err(e),
    }
}

/// The action that follows an event. The program waits first, and after
/// every wait it reads the report. A report that holds a new failure is
/// followed by the alert, any other report by the next wait; after the
/// alert the program waits again. Only a report that does not parse has no
/// next action.
pub open spec fn next_action(set: Seq<RaidModel>, event: Event) -> Result<
    ActionModel,
    ParseError,
> {
    match event {
        Event::Started => Ok(ActionModel::Wait),
        Event::Waited => Ok(ActionModel::Sample),
        Event::Sampled(text) => match outcome(set, text@) {
            Err(e) => Err(e),
            Ok(Some(alert)) => Ok(ActionModel::Alert(alert)),
            Ok(None) => Ok(ActionModel::Wait),
        },
        Event::Alerted => Ok(ActionModel::Wait),
    }
}

/// The tracked arrays after an event: only a report changes them.
pub open spec fn tracked_after_event(set: Seq<RaidModel>, event: Event) -> Seq<RaidModel> {
    match event {
        Event::Sampled(text) => tracked_after(set, text@),
        _ => set,
    }
}

/// The monitor's state between cycles: the arrays it believes to be failing.
pub struct Monitor {
    failing: FailureTracker,
}

impl View for Monitor {
    type V = Seq<RaidModel>;

    closed spec fn view(&self) -> Seq<RaidModel> {
        self.failing@
    }
}

impl Monitor {
    /// A monitor that has seen no report yet and believes no array to be
    /// failing.
    pub fn new() -> (monitor: Monitor)
        ensures
            monitor@ == Seq::<RaidModel>::empty(),
    {
        Monitor { failing: FailureTracker::new() }
    }

    /// The arrays that are believed to be failing.
    pub fn failing(&self) -> (tracker: &FailureTracker)
        ensures
            tracker@ == self@,
    {
        &self.failing
    }

    /// Runs one cycle on the text of a status report: parses it, reconciles
    /// the tracked arrays with its records, and composes the alert if one
    /// of the records is a new failure.
    pub fn cycle(&mut self, text: &str) -> (out: Result<Option<Alert>, ParseError>)
        ensures
            outcome_view(out) == outcome(old(self)@, text@),
            final(self)@ == tracked_after(old(self)@, text@),
            well_formed(final(self)@),
    {
        proof {
            use_type_invariant(&self.failing);
        }
        let records = parse_status(text)?;
        if self.failing.reconcile(&records) {
            Ok(Some(notification(self.failing.raids())))
        } else {
            Ok(None)
        }
    }

    /// Takes what the program has just done and says what it has to do
    /// next. A status report that was read goes through one cycle.
    pub fn advance(&mut self, event: Event) -> (out: Result<Action, ParseError>)
        ensures
            action_view(out) == next_action(old(self)@, event),
            final(self)@ == tracked_after_event(old(self)@, event),
            well_formed(final(self)@),
    {
        proof {
            use_type_invariant(&self.failing);
        }
        match event {
            Event::Started => Ok(Action::Wait),
            Event::Waited => Ok(Action::Sample),
            Event::Sampled(text) => match self.cycle(text.as_str())? {
                Some(alert) => Ok(Action::Alert(alert)),
                None => Ok(Action::Wait),
            },
            Event::Alerted => Ok(Action::Wait),
        }
    }
}

} // verus!
