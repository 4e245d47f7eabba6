//! The outcomes of process-control calls, as the feature policies see them,
//! and the failures a pass collects from them.
use vstd::prelude::*;

use crate::action_log::{action_of_result, log_after, ActionLog, ActionLogEntryView, ActionLogFeature, ActionLogResult};
use crate::features::workload_engine::process_failure_message;
use crate::text::decimal;

verus! {

/// Why a process-control call failed.
#[derive(Debug, Clone, PartialEq, Eq)]
pub enum ProcessControlError {
    ProcessExited,
    AccessDenied(String),
    Unavailable(String),
    Failed(String),
}

/// The text of an error: the message it carries, or a fixed one for an
/// exited process.
pub open spec fn control_error_text(e: ProcessControlError) -> Seq<char> {
    match e {
        ProcessControlError::ProcessExited => "The process exited."@,
        ProcessControlError::AccessDenied(m) => m@,
        ProcessControlError::Unavailable(m) => m@,
        ProcessControlError::Failed(m) => m@,
    }
}

impl ProcessControlError {
    /// The error's text.
    pub fn message(&self) -> (r: String)
        ensures
            r@ == control_error_text(*self),
    {
        match self {
            ProcessControlError::ProcessExited => String::from_str("The process exited."),
            ProcessControlError::AccessDenied(m) => String::from_str(m.as_str()),
            ProcessControlError::Unavailable(m) => String::from_str(m.as_str()),
            ProcessControlError::Failed(m) => String::from_str(m.as_str()),
        }
    }
}

/// What applying a process property did.
#[derive(Debug, Clone, Copy, PartialEq, Eq, Structural)]
pub enum ProcessPropertyApplyOutcome {
    Applied,
    Unchanged,
    Preserved,
    Shadowed,
}

/// `<action> <process> (<pid>): <message>`, with `process` for an empty
/// name.
pub open spec fn failure_text(action: Seq<char>, process_id: u32, process_name: Seq<char>, message: Seq<char>) -> Seq<
    char,
> {
    action + " "@ + (if process_name.len() == 0 { "process"@ } else { process_name }) + " ("@ + decimal(process_id as nat)
        + "): "@ + message
}

/// The failures a pass collects: how many, and the first one's description.
pub struct PriorityFailures {
    pub count: usize,
    pub last_error: Option<String>,
}

impl PriorityFailures {
    pub fn new() -> (r: Self)
        ensures
            r.count == 0,
            r.last_error is None,
    {
        PriorityFailures { count: 0, last_error: None }
    }

    /// Adds the failures of another pass; the first description stays.
    pub fn merge(&mut self, other: PriorityFailures)
        requires
            old(self).count + other.count <= usize::MAX,
        ensures
            final(self).count == old(self).count + other.count,
            final(self).last_error == match old(self).last_error {
                Some(e) => Some(e),
                None => other.last_error,
            },
    {
        self.count = self.count + other.count;
        if self.last_error.is_none() {
            self.last_error = other.last_error;
        }
    }

    /// Counts a failure with its message, keeps the description of the first
    /// one, and logs it under `feature`.
    pub fn record_message(
        &mut self,
        feature: ActionLogFeature,
        action: &str,
        process_id: u32,
        process_name: &str,
        message: String,
        action_log: &mut ActionLog,
    )
        requires
            old(self).count < usize::MAX,
            old(action_log).wf(),
        ensures
            final(self).count == old(self).count + 1,
            old(self).last_error is Some ==> final(self).last_error == old(self).last_error,
            old(self).last_error is None ==> (final(self).last_error matches Some(e) && e@ == failure_text(
                action@,
                process_id,
                process_name@,
                message@,
            )),
            final(action_log).wf(),
            final(action_log).view_entries() == log_after(
                old(action_log).view_entries(),
                old(action_log).capacity_spec(),
                ActionLogEntryView {
                    feature,
                    process_id: Some(process_id),
                    process_name: process_name@,
                    action: action_of_result(ActionLogResult::Failed),
                    result: ActionLogResult::Failed,
                    reason: message@,
                },
            ),
    {
        self.count = self.count + 1;
        if self.last_error.is_none() {
            self.last_error = Some(process_failure_message(action, process_id, process_name, message.as_str()));
        }
        action_log.record(feature, Some(process_id), String::from_str(process_name), ActionLogResult::Failed, message);
    }

    /// Records a control error as a failure, except an exited process.
    pub fn record_control_error(
        &mut self,
        feature: ActionLogFeature,
        action: &str,
        process_id: u32,
        process_name: &str,
        error: &ProcessControlError,
        action_log: &mut ActionLog,
    )
        requires
            old(self).count < usize::MAX,
            old(action_log).wf(),
        ensures
            final(action_log).wf(),
            *error == ProcessControlError::ProcessExited ==> {
                &&& final(self).count == old(self).count
                &&& final(self).last_error == old(self).last_error
                &&& final(action_log).view_entries() == old(action_log).view_entries()
            },
            *error != ProcessControlError::ProcessExited ==> {
                &&& final(self).count == old(self).count + 1
                &&& old(self).last_error is Some ==> final(self).last_error == old(self).last_error
                &&& old(self).last_error is None ==> (final(self).last_error matches Some(e) && e@ == failure_text(
                    action@,
                    process_id,
                    process_name@,
                    control_error_text(*error),
                ))
                &&& final(action_log).view_entries() == log_after(
                    old(action_log).view_entries(),
                    old(action_log).capacity_spec(),
                    ActionLogEntryView {
                        feature,
                        process_id: Some(process_id),
                        process_name: process_name@,
                        action: action_of_result(ActionLogResult::Failed),
                        result: ActionLogResult::Failed,
                        reason: control_error_text(*error),
                    },
                )
            },
    {
        if let ProcessControlError::ProcessExited = error {
            return;
        }
        self.record_message(feature, action, process_id, process_name, error.message(), action_log);
    }
}

} // verus!
