//! I/O priority hints: raw values, status classification, labels, the
//! summary messages of the I/O priority feature, and the state it keeps
//! between passes (processes it changed, failures).
use std::collections::BTreeMap;
use vstd::prelude::*;

use crate::action_log::{action_of_result, log_after, ActionLog, ActionLogEntryView, ActionLogFeature, ActionLogResult};
use crate::rules::{
    check_and_report_suppression, failure_key, failure_keys_of, model_after_check, model_newly_suppressed, model_record,
    model_suppressed, stopped_retrying_message, tracker_key, ExecutionFailureTracker, FailureState,
};
use crate::text::{decimal, decimal_string, insert_sorted_unique, same_name, same_name_seq, string_views, strictly_sorted};

use crate::config::{IoPrioritySettings, ProcessIoPriority};
use crate::foreground::process_list::ProcessInfo;
use crate::foreground::process_list::{
    contains_process_name, core_builtin_exclusions, core_builtin_process_exclusions, count_label,
    list_contains_name, process_count_label,
};
use crate::gpu_priority::{
    gpu_foreground, ntstatus_message, ntstatus_text, open_process_message, open_process_text, status_bits,
    ERROR_ACCESS_DENIED, ERROR_INVALID_PARAMETER, STATUS_PROCESS_IS_TERMINATING,
};

verus! {

/// Why an I/O priority operation failed.
#[derive(Debug, Clone, PartialEq, Eq)]
pub enum IoPriorityError {
    AccessDenied,
    ProcessExited,
    Failed(String),
}

/// Classifies the status of an I/O priority call: success, a terminating
/// process, or a failure.
pub fn ntstatus_result(status: i32) -> (r: Result<(), IoPriorityError>)
    ensures
        status >= 0 ==> r is Ok,
        status < 0 && status_bits(status) == STATUS_PROCESS_IS_TERMINATING ==> r == Err::<(), IoPriorityError>(
            IoPriorityError::ProcessExited,
        ),
        status < 0 && status_bits(status) != STATUS_PROCESS_IS_TERMINATING ==> r is Err && r->Err_0 is Failed
            && r->Err_0->Failed_0@ == ntstatus_message(status),
{
    if status >= 0 {
        return Ok(());
    }
    let bits: u64 = (status as i64 + 0x1_0000_0000) as u64;
    if bits == STATUS_PROCESS_IS_TERMINATING as u64 {
        Err(IoPriorityError::ProcessExited)
    } else {
        Err(IoPriorityError::Failed(ntstatus_text(status)))
    }
}

/// Classifies a failed `OpenProcess`.
pub fn open_process_error(process_id: u32, error: u32) -> (r: IoPriorityError)
    ensures
        error == ERROR_ACCESS_DENIED ==> r == IoPriorityError::AccessDenied,
        error == ERROR_INVALID_PARAMETER ==> r == IoPriorityError::ProcessExited,
        error != ERROR_ACCESS_DENIED && error != ERROR_INVALID_PARAMETER ==> r is Failed
            && r->Failed_0@ == open_process_message(process_id, error),
{
    if error == ERROR_ACCESS_DENIED {
        IoPriorityError::AccessDenied
    } else if error == ERROR_INVALID_PARAMETER {
        IoPriorityError::ProcessExited
    } else {
        IoPriorityError::Failed(open_process_text(process_id, error))
    }
}

pub open spec fn io_raw(priority: ProcessIoPriority) -> u32 {
    match priority {
        ProcessIoPriority::Critical => 4,
        ProcessIoPriority::High => 3,
        ProcessIoPriority::Normal => 2,
        ProcessIoPriority::VeryLow => 0,
        ProcessIoPriority::Low => 1,
    }
}

pub open spec fn io_from_raw(priority: u32) -> ProcessIoPriority {
    if priority == 0 {
        ProcessIoPriority::VeryLow
    } else if priority == 1 {
        ProcessIoPriority::Low
    } else if priority == 3 {
        ProcessIoPriority::High
    } else if priority == 4 {
        ProcessIoPriority::Critical
    } else {
        ProcessIoPriority::Normal
    }
}

/// The I/O priority hint value of a priority.
pub fn io_priority_raw(priority: ProcessIoPriority) -> (r: u32)
    ensures
        r == io_raw(priority),
{
    match priority {
        ProcessIoPriority::Critical => 4,
        ProcessIoPriority::High => 3,
        ProcessIoPriority::Normal => 2,
        ProcessIoPriority::VeryLow => 0,
        ProcessIoPriority::Low => 1,
    }
}

/// The priority of a hint value; unknown values read as `Normal`.
pub fn io_priority_from_raw(priority: u32) -> (r: ProcessIoPriority)
    ensures
        r == io_from_raw(priority),
{
    match priority {
        0 => ProcessIoPriority::VeryLow,
        1 => ProcessIoPriority::Low,
        3 => ProcessIoPriority::High,
        4 => ProcessIoPriority::Critical,
        _ => ProcessIoPriority::Normal,
    }
}

pub open spec fn io_label(priority: ProcessIoPriority) -> Seq<char> {
    match priority {
        ProcessIoPriority::Critical => "Critical"@,
        ProcessIoPriority::High => "High"@,
        ProcessIoPriority::Normal => "Normal"@,
        ProcessIoPriority::Low => "Low"@,
        ProcessIoPriority::VeryLow => "Very Low"@,
    }
}

pub fn io_priority_label(priority: ProcessIoPriority) -> (r: &'static str)
    ensures
        r@ == io_label(priority),
{
    match priority {
        ProcessIoPriority::Critical => "Critical",
        ProcessIoPriority::High => "High",
        ProcessIoPriority::Normal => "Normal",
        ProcessIoPriority::Low => "Low",
        ProcessIoPriority::VeryLow => "Very Low",
    }
}

/// The text of an I/O priority error.
pub fn io_priority_error_message(error: IoPriorityError) -> (r: String)
    ensures
        r@ == match error {
            IoPriorityError::AccessDenied => "Access denied."@,
            IoPriorityError::ProcessExited => "Process exited."@,
            IoPriorityError::Failed(m) => m@,
        },
{
    match error {
        IoPriorityError::AccessDenied => String::from_str("Access denied."),
        IoPriorityError::ProcessExited => String::from_str("Process exited."),
        IoPriorityError::Failed(message) => message,
    }
}

/// `Restored previous I/O priority for <count>: <reason>.`
pub fn io_priority_restore_summary_message(count: usize, reason: &str) -> (r: String)
    ensures
        r@ == "Restored previous I/O priority for "@ + count_label(count as nat) + ": "@ + reason@ + "."@,
{
    let mut s = String::from_str("Restored previous I/O priority for ");
    s.append(process_count_label(count).as_str());
    s.append(": ");
    s.append(reason);
    s.append(".");
    s
}

/// `Applied I/O priority to <count>.`
pub fn io_priority_apply_summary_message(count: usize) -> (r: String)
    ensures
        r@ == "Applied I/O priority to "@ + count_label(count as nat) + "."@,
{
    let mut s = String::from_str("Applied I/O priority to ");
    s.append(process_count_label(count).as_str());
    s.append(".");
    s
}

/// Whether I/O priority leaves a process alone: the core Windows processes.
pub fn is_builtin_excluded(process_name: &str) -> (r: bool)
    ensures
        r == list_contains_name(core_builtin_exclusions(), process_name@),
{
    let list = core_builtin_process_exclusions();
    contains_process_name(list.as_slice(), process_name)
}

/// Law: every I/O priority survives the round trip through its hint value.
pub proof fn law_io_priority_round_trip(p: ProcessIoPriority)
    ensures
        io_from_raw(io_raw(p)) == p,
{
}

/// The text of an I/O priority error.
pub open spec fn io_error_text(error: IoPriorityError) -> Seq<char> {
    match error {
        IoPriorityError::AccessDenied => "Access denied."@,
        IoPriorityError::ProcessExited => "Process exited."@,
        IoPriorityError::Failed(m) => m@,
    }
}

impl IoPriorityError {
    /// A copy of the error.
    pub fn clone_error(&self) -> (r: IoPriorityError)
        ensures
            io_error_text(r) == io_error_text(*self),
    {
        match self {
            IoPriorityError::AccessDenied => IoPriorityError::AccessDenied,
            IoPriorityError::ProcessExited => IoPriorityError::ProcessExited,
            IoPriorityError::Failed(m) => IoPriorityError::Failed(String::from_str(m.as_str())),
        }
    }
}

/// The priority read back after a change either is the one requested, or
/// the change failed: `I/O priority remained <p> after requesting <q>.`
pub fn io_priority_refresh_result(refreshed: ProcessIoPriority, priority: ProcessIoPriority) -> (r: Result<(), IoPriorityError>)
    ensures
        refreshed == priority <==> r is Ok,
        r matches Err(e) ==> e matches IoPriorityError::Failed(m) && m@ == "I/O priority remained "@ + io_label(
            refreshed,
        ) + " after requesting "@ + io_label(priority) + "."@,
{
    if refreshed == priority {
        Ok(())
    } else {
        let mut m = String::from_str("I/O priority remained ");
        m.append(io_priority_label(refreshed));
        m.append(" after requesting ");
        m.append(io_priority_label(priority));
        m.append(".");
        Err(IoPriorityError::Failed(m))
    }
}

/// The priority read back after a restore either is the one restored, or the
/// restore failed: `I/O priority remained <p> after restoring <q>.`
pub fn io_priority_restore_refresh_result(refreshed: ProcessIoPriority, previous: ProcessIoPriority) -> (r: Result<(), IoPriorityError>)
    ensures
        refreshed == previous <==> r is Ok,
        r matches Err(e) ==> e matches IoPriorityError::Failed(m) && m@ == "I/O priority remained "@ + io_label(
            refreshed,
        ) + " after restoring "@ + io_label(previous) + "."@,
{
    if refreshed == previous {
        Ok(())
    } else {
        let mut m = String::from_str("I/O priority remained ");
        m.append(io_priority_label(refreshed));
        m.append(" after restoring ");
        m.append(io_priority_label(previous));
        m.append(".");
        Err(IoPriorityError::Failed(m))
    }
}

/// The failures of one I/O priority pass: how many, and the first one's
/// description.
pub struct IoPriorityFailures {
    pub count: usize,
    pub last_error: Option<String>,
}

impl IoPriorityFailures {
    pub fn new() -> (r: Self)
        ensures
            r.count == 0,
            r.last_error is None,
    {
        IoPriorityFailures { count: 0, last_error: None }
    }

    /// Counts a failure, keeps `<action> <process> (<pid>): <message>` for
    /// the first one, and logs it.
    pub fn record(
        &mut self,
        action: &str,
        process_id: u32,
        process_name: &str,
        error: &IoPriorityError,
        action_log: &mut ActionLog,
    )
        requires
            old(self).count < usize::MAX,
            old(action_log).wf(),
        ensures
            final(self).count == old(self).count + 1,
            old(self).last_error is Some ==> final(self).last_error == old(self).last_error,
            old(self).last_error is None ==> (final(self).last_error matches Some(e) && e@ == action@ + " "@
                + process_name@ + " ("@ + decimal(process_id as nat) + "): "@ + io_error_text(*error)),
            final(action_log).wf(),
            final(action_log).view_entries() == log_after(
                old(action_log).view_entries(),
                old(action_log).capacity_spec(),
                ActionLogEntryView {
                    feature: ActionLogFeature::IoPriority,
                    process_id: Some(process_id),
                    process_name: process_name@,
                    action: action_of_result(ActionLogResult::Failed),
                    result: ActionLogResult::Failed,
                    reason: io_error_text(*error),
                },
            ),
    {
        let message = io_priority_error_message(error.clone_error());
        if self.last_error.is_none() {
            let mut e = String::from_str(action);
            e.append(" ");
            e.append(process_name);
            e.append(" (");
            e.append(decimal_string(process_id as u64).as_str());
            e.append("): ");
            e.append(message.as_str());
            self.last_error = Some(e);
        }
        self.count = self.count + 1;
        action_log.record(
            ActionLogFeature::IoPriority,
            Some(process_id),
            String::from_str(process_name),
            ActionLogResult::Failed,
            message,
        );
    }
}

/// What I/O priority remembers of a process it changed.
pub struct IoAdjustedProcess {
    pub process_name: String,
    pub creation_time: u64,
    pub previous_priority: ProcessIoPriority,
    pub applied_priority: ProcessIoPriority,
}

/// A changed process as plain values.
pub struct IoAdjustedProcessView {
    pub process_name: Seq<char>,
    pub creation_time: u64,
    pub previous_priority: ProcessIoPriority,
    pub applied_priority: ProcessIoPriority,
}

impl View for IoAdjustedProcess {
    type V = IoAdjustedProcessView;

    open spec fn view(&self) -> IoAdjustedProcessView {
        IoAdjustedProcessView {
            process_name: self.process_name@,
            creation_time: self.creation_time,
            previous_priority: self.previous_priority,
            applied_priority: self.applied_priority,
        }
    }
}

/// What applying I/O priority to a process comes to, once its current
/// priority is known.
#[derive(Debug, Clone, Copy, PartialEq, Eq, Structural)]
pub enum IoApplyPlan {
    /// The process keeps its priority; the priority it had before this
    /// feature changed it is to be restored first, if it was changed.
    Preserve { restore: Option<ProcessIoPriority> },
    /// Nothing to do.
    AlreadyApplied,
    /// The priority is to be set and read back; then the change is recorded
    /// with `baseline` as the priority to restore.
    Change { baseline: ProcessIoPriority },
    /// The priority is already right: the change is recorded with `baseline`
    /// as the priority to restore.
    Record { baseline: ProcessIoPriority },
}

/// The result of applying I/O priority to a process.
#[derive(Debug, Clone, Copy, PartialEq, Eq, Structural)]
pub enum IoApplyOutcome {
    Applied { loggable: bool },
    AlreadyApplied,
    Preserved,
}

/// The record kept for a process id when it is still the same process (same
/// start time and name).
pub open spec fn io_reusable_adjustment(
    adjusted: Map<u32, IoAdjustedProcessView>,
    process_id: u32,
    process_name: Seq<char>,
    creation_time: u64,
) -> Option<IoAdjustedProcessView> {
    if adjusted.contains_key(process_id) && adjusted[process_id].creation_time == creation_time && same_name_seq(
        adjusted[process_id].process_name,
        process_name,
    ) {
        Some(adjusted[process_id])
    } else {
        None
    }
}

/// What applying `priority` to a process whose priority is `current` comes
/// to: a preserved priority restores the one this feature replaced; a record
/// with the same priority and the priority already right needs nothing;
/// otherwise the priority is set when it differs, and the change is recorded
/// against the priority first replaced.
pub open spec fn io_apply_plan(
    adjusted: Map<u32, IoAdjustedProcessView>,
    process_id: u32,
    process_name: Seq<char>,
    creation_time: u64,
    priority: ProcessIoPriority,
    foreground: bool,
    preserve_foreground: bool,
    preserve_background: bool,
    current: ProcessIoPriority,
) -> IoApplyPlan {
    let existing = io_reusable_adjustment(adjusted, process_id, process_name, creation_time);
    let baseline = match existing {
        Some(a) => a.previous_priority,
        None => current,
    };
    let preserve = if foreground {
        preserve_foreground && io_raw(baseline) >= io_raw(priority)
    } else {
        preserve_background && io_raw(baseline) <= io_raw(priority)
    };
    if preserve {
        IoApplyPlan::Preserve {
            restore: match existing {
                Some(a) => Some(a.previous_priority),
                None => None,
            },
        }
    } else if existing matches Some(a) && a.applied_priority == priority && current == priority {
        IoApplyPlan::AlreadyApplied
    } else if current != priority {
        IoApplyPlan::Change { baseline }
    } else {
        IoApplyPlan::Record { baseline }
    }
}

/// Applying a priority again to the same process this feature changed to it,
/// whose priority is still the one set, does nothing (unless the priority is
/// now preserved).
pub proof fn law_io_apply_is_idempotent(
    adjusted: Map<u32, IoAdjustedProcessView>,
    process_id: u32,
    process_name: Seq<char>,
    creation_time: u64,
    baseline: ProcessIoPriority,
    priority: ProcessIoPriority,
    foreground: bool,
    preserve_foreground: bool,
    preserve_background: bool,
)
    requires
        !(if foreground {
            preserve_foreground && io_raw(baseline) >= io_raw(priority)
        } else {
            preserve_background && io_raw(baseline) <= io_raw(priority)
        }),
    ensures
        io_apply_plan(
            adjusted.insert(
                process_id,
                IoAdjustedProcessView {
                    process_name,
                    creation_time,
                    previous_priority: baseline,
                    applied_priority: priority,
                },
            ),
            process_id,
            process_name,
            creation_time,
            priority,
            foreground,
            preserve_foreground,
            preserve_background,
            priority,
        ) == IoApplyPlan::AlreadyApplied,
{
}

/// Changing the same process again keeps, as the priority to restore, the
/// one this feature first replaced; a preserved priority restores it.
pub proof fn law_io_restores_the_first_priority(
    adjusted: Map<u32, IoAdjustedProcessView>,
    process_id: u32,
    process_name: Seq<char>,
    creation_time: u64,
    first: ProcessIoPriority,
    applied: ProcessIoPriority,
    priority: ProcessIoPriority,
    foreground: bool,
    preserve_foreground: bool,
    preserve_background: bool,
    current: ProcessIoPriority,
)
    ensures
        ({
            let m = adjusted.insert(
                process_id,
                IoAdjustedProcessView { process_name, creation_time, previous_priority: first, applied_priority: applied },
            );
            match io_apply_plan(
                m,
                process_id,
                process_name,
                creation_time,
                priority,
                foreground,
                preserve_foreground,
                preserve_background,
                current,
            ) {
                IoApplyPlan::Change { baseline } => baseline == first,
                IoApplyPlan::Record { baseline } => baseline == first,
                IoApplyPlan::Preserve { restore } => restore == Some(first),
                IoApplyPlan::AlreadyApplied => true,
            }
        }),
{
}

/// The log entry of an I/O priority summary.
pub open spec fn io_summary_entry(result: ActionLogResult, reason: Seq<char>) -> ActionLogEntryView {
    ActionLogEntryView {
        feature: ActionLogFeature::IoPriority,
        process_id: None,
        process_name: "I/O Priority"@,
        action: action_of_result(result),
        result,
        reason,
    }
}

/// The running totals of an I/O priority pass.
pub struct IoPriorityPass {
    pub skipped_processes: usize,
    pub applied_processes: usize,
    /// The failure keys of executables suppressed in this pass, sorted, each
    /// once.
    pub auto_excluded_processes: Vec<String>,
}

/// The state I/O priority keeps between passes.
pub struct IoPriorityManager {
    pub adjusted: BTreeMap<u32, IoAdjustedProcess>,
    pub failure_suppression: ExecutionFailureTracker,
}

impl IoPriorityManager {
    pub open spec fn wf(&self) -> bool {
        self.failure_suppression.wf()
    }

    /// The failure state per key.
    pub open spec fn failures(&self) -> Map<Seq<char>, FailureState> {
        self.failure_suppression@
    }

    /// The processes this feature changed, by process id.
    pub open spec fn adjustments(&self) -> Map<u32, IoAdjustedProcessView> {
        self.adjusted@.map_values(|a: IoAdjustedProcess| a@)
    }

    pub fn new() -> (r: Self)
        ensures
            r.wf(),
            r.failures() == Map::<Seq<char>, FailureState>::empty(),
            r.adjustments() == Map::<u32, IoAdjustedProcessView>::empty(),
    {
        let r = IoPriorityManager { adjusted: BTreeMap::new(), failure_suppression: ExecutionFailureTracker::new() };
        proof {
            assert(r.adjustments() =~= Map::<u32, IoAdjustedProcessView>::empty());
        }
        r
    }

    /// Counts a failure of the process.
    pub fn record_process_failure(&mut self, process_name: &str)
        requires
            old(self).wf(),
        ensures
            final(self).wf(),
            final(self).failures() == model_record(old(self).failures(), failure_key(process_name@)),
            final(self).adjustments() == old(self).adjustments(),
    {
        let _ = self.failure_suppression.record_process_failure(process_name);
    }

    /// Forgets the failures of the process.
    pub fn clear_process_failure(&mut self, process_name: &str)
        requires
            old(self).wf(),
        ensures
            final(self).wf(),
            final(self).failures() == old(self).failures().remove(failure_key(process_name@)),
            final(self).adjustments() == old(self).adjustments(),
    {
        self.failure_suppression.clear_process_failure(process_name);
    }

    /// Whether the process is suppressed; the first time it is, its failure
    /// key joins the auto-excluded set and the stop is logged.
    pub fn is_process_suppressed(
        &mut self,
        process_id: u32,
        process_name: &str,
        action_log: &mut ActionLog,
        auto_excluded_processes: &mut Vec<String>,
    ) -> (r: bool)
        requires
            old(self).wf(),
            old(action_log).wf(),
            strictly_sorted(string_views(old(auto_excluded_processes)@)),
        ensures
            final(self).wf(),
            final(action_log).wf(),
            strictly_sorted(string_views(final(auto_excluded_processes)@)),
            final(self).adjustments() == old(self).adjustments(),
            r == model_suppressed(old(self).failures(), failure_key(process_name@)),
            final(self).failures() == model_after_check(old(self).failures(), failure_key(process_name@)),
            model_newly_suppressed(old(self).failures(), failure_key(process_name@)) ==> {
                &&& string_views(final(auto_excluded_processes)@).to_set() == string_views(
                    old(auto_excluded_processes)@,
                ).to_set().insert(failure_key(process_name@))
                &&& final(action_log).view_entries() == log_after(
                    old(action_log).view_entries(),
                    old(action_log).capacity_spec(),
                    ActionLogEntryView {
                        feature: ActionLogFeature::IoPriority,
                        process_id: Some(process_id),
                        process_name: process_name@,
                        action: action_of_result(ActionLogResult::Skipped),
                        result: ActionLogResult::Skipped,
                        reason: stopped_retrying_message("I/O Priority"@),
                    },
                )
            },
            !model_newly_suppressed(old(self).failures(), failure_key(process_name@)) ==> {
                &&& final(auto_excluded_processes)@ == old(auto_excluded_processes)@
                &&& final(action_log).view_entries() == old(action_log).view_entries()
            },
    {
        let suppression = check_and_report_suppression(
            &mut self.failure_suppression,
            action_log,
            ActionLogFeature::IoPriority,
            "I/O Priority",
            process_id,
            process_name,
            process_name,
        );
        if suppression.newly_suppressed {
            let key = tracker_key(process_name);
            let _ = insert_sorted_unique(auto_excluded_processes, key.as_str());
        }
        suppression.suppressed
    }

    /// What applying `priority` to a process whose priority is `current`
    /// comes to (see `io_apply_plan`).
    pub fn plan_apply(
        &self,
        process_id: u32,
        process_name: &str,
        creation_time: u64,
        priority: ProcessIoPriority,
        foreground: bool,
        preserve_foreground: bool,
        preserve_background: bool,
        current: ProcessIoPriority,
    ) -> (r: IoApplyPlan)
        ensures
            r == io_apply_plan(
                self.adjustments(),
                process_id,
                process_name@,
                creation_time,
                priority,
                foreground,
                preserve_foreground,
                preserve_background,
                current,
            ),
    {
        proof {
            broadcast use vstd::std_specs::btree::group_btree_axioms;
        }
        let ghost m = self.adjustments();
        let (existing_previous, existing_priority): (Option<ProcessIoPriority>, Option<ProcessIoPriority>) =
            match self.adjusted.get(&process_id) {
            Some(a) => {
                proof {
                    assert(m.contains_key(process_id) && m[process_id] == a@);
                }
                if a.creation_time == creation_time && same_name(a.process_name.as_str(), process_name) {
                    (Some(a.previous_priority), Some(a.applied_priority))
                } else {
                    (None, None)
                }
            },
            None => (None, None),
        };
        proof {
            let e = io_reusable_adjustment(m, process_id, process_name@, creation_time);
            assert(existing_previous == match e { Some(a) => Some(a.previous_priority), None => None::<ProcessIoPriority> });
            assert(existing_priority == match e { Some(a) => Some(a.applied_priority), None => None::<ProcessIoPriority> });
        }
        let baseline = match existing_previous {
            Some(p) => p,
            None => current,
        };
        if should_preserve_io(foreground, preserve_foreground, preserve_background, baseline, priority) {
            return IoApplyPlan::Preserve { restore: existing_previous };
        }
        let same_priority = match existing_priority {
            Some(p) => p == priority,
            None => false,
        };
        if same_priority && current == priority {
            IoApplyPlan::AlreadyApplied
        } else if current != priority {
            IoApplyPlan::Change { baseline }
        } else {
            IoApplyPlan::Record { baseline }
        }
    }

    /// Records that this feature changed the process to `priority`, with
    /// `baseline` as the priority to restore.
    pub fn commit_apply(
        &mut self,
        process_id: u32,
        process_name: &str,
        creation_time: u64,
        priority: ProcessIoPriority,
        baseline: ProcessIoPriority,
    )
        ensures
            final(self).adjustments() == old(self).adjustments().insert(
                process_id,
                IoAdjustedProcessView {
                    process_name: process_name@,
                    creation_time,
                    previous_priority: baseline,
                    applied_priority: priority,
                },
            ),
            final(self).failure_suppression == old(self).failure_suppression,
    {
        proof {
            broadcast use vstd::std_specs::btree::group_btree_axioms;
        }
        let ghost before = self.adjustments();
        let a = IoAdjustedProcess {
            process_name: String::from_str(process_name),
            creation_time,
            previous_priority: baseline,
            applied_priority: priority,
        };
        let ghost v = a@;
        self.adjusted.insert(process_id, a);
        proof {
            assert(self.adjustments() =~= before.insert(process_id, v));
        }
    }

    /// Forgets every failure (when the feature is turned off).
    pub fn clear_failure_suppression(&mut self)
        ensures
            final(self).wf(),
            final(self).failures() == Map::<Seq<char>, FailureState>::empty(),
            final(self).adjustments() == old(self).adjustments(),
    {
        self.failure_suppression.clear();
    }

    /// Keeps the failures of this pass's targets only.
    pub fn retain_target_names(&mut self, names: &Vec<String>)
        requires
            old(self).wf(),
        ensures
            final(self).wf(),
            final(self).failures() == old(self).failures().restrict(failure_keys_of(names@)),
            final(self).adjustments() == old(self).adjustments(),
    {
        self.failure_suppression.retain_keys(names);
    }

    /// Forgets a changed process (after its priority was restored, or when it
    /// exited).
    pub fn forget_adjusted(&mut self, process_id: u32)
        ensures
            final(self).adjustments() == old(self).adjustments().remove(process_id),
            final(self).failure_suppression == old(self).failure_suppression,
    {
        proof {
            broadcast use vstd::std_specs::btree::group_btree_axioms;
        }
        let ghost before = self.adjustments();
        let _ = self.adjusted.remove(&process_id);
        proof {
            assert(self.adjustments() =~= before.remove(process_id));
        }
    }

    /// Takes the result of applying I/O priority to a target: success clears
    /// its failures (a logged change counts as applied, a preserved priority
    /// is skipped); an exited process is skipped; denied access is skipped,
    /// counts toward suppression and is logged; any other error counts toward
    /// suppression and is recorded.
    pub fn record_apply_result(
        &mut self,
        pass: &mut IoPriorityPass,
        failures: &mut IoPriorityFailures,
        process_id: u32,
        process_name: &str,
        result: &Result<IoApplyOutcome, IoPriorityError>,
        action_log: &mut ActionLog,
    )
        requires
            old(self).wf(),
            old(action_log).wf(),
            old(pass).skipped_processes < usize::MAX,
            old(pass).applied_processes < usize::MAX,
            old(failures).count < usize::MAX,
        ensures
            final(self).wf(),
            final(action_log).wf(),
            final(self).adjustments() == old(self).adjustments(),
            final(pass).auto_excluded_processes == old(pass).auto_excluded_processes,
            ({
                let key = failure_key(process_name@);
                let f = old(self).failures();
                let skipped = final(pass).skipped_processes - old(pass).skipped_processes;
                let applied = final(pass).applied_processes - old(pass).applied_processes;
                let failed = final(failures).count - old(failures).count;
                let entry = |result: ActionLogResult, text: Seq<char>| ActionLogEntryView {
                    feature: ActionLogFeature::IoPriority,
                    process_id: Some(process_id),
                    process_name: process_name@,
                    action: action_of_result(result),
                    result,
                    reason: text,
                };
                &&& (!(result matches Err(IoPriorityError::Failed(_)))) ==> final(failures).last_error
                    == old(failures).last_error
                &&& match result {
                    Ok(outcome) => {
                        &&& final(self).failures() == f.remove(key)
                        &&& skipped == (if *outcome == IoApplyOutcome::Preserved { 1int } else { 0 })
                        &&& applied == (if *outcome == (IoApplyOutcome::Applied { loggable: true }) { 1int } else { 0 })
                        &&& failed == 0
                        &&& final(action_log).view_entries() == old(action_log).view_entries()
                    },
                    Err(IoPriorityError::ProcessExited) => {
                        &&& final(self).failures() == f
                        &&& skipped == 1 && applied == 0 && failed == 0
                        &&& final(action_log).view_entries() == old(action_log).view_entries()
                    },
                    Err(IoPriorityError::AccessDenied) => {
                        &&& final(self).failures() == model_record(f, key)
                        &&& skipped == 1 && applied == 0 && failed == 0
                        &&& final(action_log).view_entries() == log_after(
                            old(action_log).view_entries(),
                            old(action_log).capacity_spec(),
                            entry(ActionLogResult::Skipped, "Skipped because the process could not be opened."@),
                        )
                    },
                    Err(e) => {
                        &&& final(self).failures() == model_record(f, key)
                        &&& skipped == 0 && applied == 0 && failed == 1
                        &&& old(failures).last_error is Some ==> final(failures).last_error == old(failures).last_error
                        &&& old(failures).last_error is None ==> (final(failures).last_error matches Some(m) && m@
                            == "Apply"@ + " "@ + process_name@ + " ("@ + decimal(process_id as nat) + "): "@ + io_error_text(*e))
                        &&& final(action_log).view_entries() == log_after(
                            old(action_log).view_entries(),
                            old(action_log).capacity_spec(),
                            entry(ActionLogResult::Failed, io_error_text(*e)),
                        )
                    },
                }
            }),
    {
        match result {
            Ok(outcome) => {
                match outcome {
                    IoApplyOutcome::Applied { loggable } => {
                        if *loggable {
                            pass.applied_processes = pass.applied_processes + 1;
                        }
                    },
                    IoApplyOutcome::AlreadyApplied => {},
                    IoApplyOutcome::Preserved => {
                        pass.skipped_processes = pass.skipped_processes + 1;
                    },
                }
                self.clear_process_failure(process_name);
            },
            Err(IoPriorityError::ProcessExited) => {
                pass.skipped_processes = pass.skipped_processes + 1;
            },
            Err(IoPriorityError::AccessDenied) => {
                pass.skipped_processes = pass.skipped_processes + 1;
                self.record_process_failure(process_name);
                action_log.record(
                    ActionLogFeature::IoPriority,
                    Some(process_id),
                    String::from_str(process_name),
                    ActionLogResult::Skipped,
                    String::from_str("Skipped because the process could not be opened."),
                );
            },
            Err(e) => {
                self.record_process_failure(process_name);
                failures.record("Apply", process_id, process_name, e, action_log);
            },
        }
    }

    /// Takes the result of restoring a changed process's priority, logged
    /// under `log_name`: success forgets the process, clears its failures and
    /// counts as restored; an exited process is forgotten; any other error
    /// keeps it, counts toward suppression and is recorded. Returns whether
    /// the priority was restored.
    pub fn record_restore_result(
        &mut self,
        failures: &mut IoPriorityFailures,
        process_id: u32,
        log_name: &str,
        result: &Result<(), IoPriorityError>,
        action_log: &mut ActionLog,
    ) -> (restored: bool)
        requires
            old(self).wf(),
            old(action_log).wf(),
            old(failures).count < usize::MAX,
        ensures
            final(self).wf(),
            final(action_log).wf(),
            restored == result is Ok,
            ({
                let key = failure_key(log_name@);
                match result {
                    Ok(()) => {
                        &&& final(self).adjustments() == old(self).adjustments().remove(process_id)
                        &&& final(self).failures() == old(self).failures().remove(key)
                        &&& final(failures).count == old(failures).count
                        &&& final(failures).last_error == old(failures).last_error
                        &&& final(action_log).view_entries() == old(action_log).view_entries()
                    },
                    Err(IoPriorityError::ProcessExited) => {
                        &&& final(self).adjustments() == old(self).adjustments().remove(process_id)
                        &&& final(self).failures() == old(self).failures()
                        &&& final(failures).count == old(failures).count
                        &&& final(failures).last_error == old(failures).last_error
                        &&& final(action_log).view_entries() == old(action_log).view_entries()
                    },
                    Err(e) => {
                        &&& final(self).adjustments() == old(self).adjustments()
                        &&& final(self).failures() == model_record(old(self).failures(), key)
                        &&& final(failures).count == old(failures).count + 1
                        &&& old(failures).last_error is Some ==> final(failures).last_error == old(failures).last_error
                        &&& old(failures).last_error is None ==> (final(failures).last_error matches Some(m) && m@
                            == "Restore"@ + " "@ + log_name@ + " ("@ + decimal(process_id as nat) + "): "@ + io_error_text(*e))
                        &&& final(action_log).view_entries() == log_after(
                            old(action_log).view_entries(),
                            old(action_log).capacity_spec(),
                            ActionLogEntryView {
                                feature: ActionLogFeature::IoPriority,
                                process_id: Some(process_id),
                                process_name: log_name@,
                                action: action_of_result(ActionLogResult::Failed),
                                result: ActionLogResult::Failed,
                                reason: io_error_text(*e),
                            },
                        )
                    },
                }
            }),
    {
        match result {
            Ok(()) => {
                self.forget_adjusted(process_id);
                self.clear_process_failure(log_name);
                true
            },
            Err(IoPriorityError::ProcessExited) => {
                self.forget_adjusted(process_id);
                false
            },
            Err(e) => {
                self.record_process_failure(log_name);
                failures.record("Restore", process_id, log_name, e, action_log);
                false
            },
        }
    }
}

/// Logs `Applied I/O priority to <count>.` when a pass applied any.
pub fn log_io_apply_summary(applied_processes: usize, action_log: &mut ActionLog)
    requires
        old(action_log).wf(),
    ensures
        final(action_log).wf(),
        final(action_log).view_entries() == if applied_processes > 0 {
            log_after(
                old(action_log).view_entries(),
                old(action_log).capacity_spec(),
                io_summary_entry(ActionLogResult::Applied, "Applied I/O priority to "@ + count_label(applied_processes as nat) + "."@),
            )
        } else {
            old(action_log).view_entries()
        },
{
    if applied_processes > 0 {
        action_log.record(
            ActionLogFeature::IoPriority,
            None,
            String::from_str("I/O Priority"),
            ActionLogResult::Applied,
            io_priority_apply_summary_message(applied_processes),
        );
    }
}

/// Logs `Restored previous I/O priority for <count>: <reason>.` when a
/// release restored any.
pub fn log_io_restore_summary(restored_processes: usize, reason: &str, action_log: &mut ActionLog)
    requires
        old(action_log).wf(),
    ensures
        final(action_log).wf(),
        final(action_log).view_entries() == if restored_processes > 0 {
            log_after(
                old(action_log).view_entries(),
                old(action_log).capacity_spec(),
                io_summary_entry(
                    ActionLogResult::Restored,
                    "Restored previous I/O priority for "@ + count_label(restored_processes as nat) + ": "@ + reason@ + "."@,
                ),
            )
        } else {
            old(action_log).view_entries()
        },
{
    if restored_processes > 0 {
        action_log.record(
            ActionLogFeature::IoPriority,
            None,
            String::from_str("I/O Priority"),
            ActionLogResult::Restored,
            io_priority_restore_summary_message(restored_processes, reason),
        );
    }
}

/// Whether a process keeps its current I/O priority: the foreground app when
/// it already has at least the desired rank, a background process when it
/// has at most the desired rank, each only when preserving is on.
pub fn should_preserve_io(
    foreground: bool,
    preserve_foreground: bool,
    preserve_background: bool,
    current: ProcessIoPriority,
    desired: ProcessIoPriority,
) -> (r: bool)
    ensures
        r == if foreground {
            preserve_foreground && io_raw(current) >= io_raw(desired)
        } else {
            preserve_background && io_raw(current) <= io_raw(desired)
        },
{
    let current_rank = io_priority_raw(current);
    let desired_rank = io_priority_raw(desired);
    crate::gpu_priority::should_preserve_priority(foreground, preserve_foreground, preserve_background, current_rank, desired_rank)
}

/// Why an I/O priority pass does not look at processes.
#[derive(Debug, Clone, Copy, PartialEq, Eq, Structural)]
pub enum IoPriorityHold {
    AutomationDisabled,
    FeatureDisabled,
    ForegroundUnknown,
    SessionUnknown,
}

impl IoPriorityHold {
    /// Whether the hold turns the feature off (and forgets the failures)
    /// rather than pausing it.
    pub fn turns_off(&self) -> (r: bool)
        ensures
            r == (*self is AutomationDisabled || *self is FeatureDisabled),
    {
        match self {
            IoPriorityHold::AutomationDisabled | IoPriorityHold::FeatureDisabled => true,
            _ => false,
        }
    }
}

/// Whether the foreground app gets another I/O priority than the background.
pub fn io_foreground_sensitive(settings: &IoPrioritySettings) -> (r: bool)
    ensures
        r == (settings.foreground_detection_enabled && settings.foreground_priority != settings.background_priority),
{
    settings.foreground_detection_enabled && settings.foreground_priority != settings.background_priority
}

/// The hold an I/O priority pass starts with, if any: automation off, the
/// defaults off, the foreground app unknown while it matters, or this
/// process's session unknown.
pub fn io_priority_hold(
    automation_enabled: bool,
    settings: &IoPrioritySettings,
    foreground_process_id: Option<u32>,
    current_session_id: Option<u32>,
) -> (r: Option<IoPriorityHold>)
    ensures
        r == if !automation_enabled {
            Some(IoPriorityHold::AutomationDisabled)
        } else if !settings.enabled {
            Some(IoPriorityHold::FeatureDisabled)
        } else if settings.foreground_detection_enabled && settings.foreground_priority != settings.background_priority
            && foreground_process_id is None {
            Some(IoPriorityHold::ForegroundUnknown)
        } else if current_session_id is None {
            Some(IoPriorityHold::SessionUnknown)
        } else {
            None
        },
{
    if !automation_enabled {
        Some(IoPriorityHold::AutomationDisabled)
    } else if !settings.enabled {
        Some(IoPriorityHold::FeatureDisabled)
    } else if io_foreground_sensitive(settings) && foreground_process_id.is_none() {
        Some(IoPriorityHold::ForegroundUnknown)
    } else if current_session_id.is_none() {
        Some(IoPriorityHold::SessionUnknown)
    } else {
        None
    }
}

/// The reason a hold releases the changed processes with, and the message
/// it reports.
pub fn io_priority_hold_texts(hold: IoPriorityHold) -> (r: (&'static str, &'static str))
    ensures
        r.0@ == match hold {
            IoPriorityHold::AutomationDisabled => "automation disabled"@,
            IoPriorityHold::FeatureDisabled => "I/O priority defaults disabled"@,
            IoPriorityHold::ForegroundUnknown => "foreground app is unknown"@,
            IoPriorityHold::SessionUnknown => "current Windows session is unknown"@,
        },
        r.1@ == match hold {
            IoPriorityHold::AutomationDisabled => "Automation disabled."@,
            IoPriorityHold::FeatureDisabled => "I/O priority defaults disabled."@,
            IoPriorityHold::ForegroundUnknown => "Paused: foreground app is unknown."@,
            IoPriorityHold::SessionUnknown => "Paused: current Windows session is unknown."@,
        },
{
    match hold {
        IoPriorityHold::AutomationDisabled => ("automation disabled", "Automation disabled."),
        IoPriorityHold::FeatureDisabled => ("I/O priority defaults disabled", "I/O priority defaults disabled."),
        IoPriorityHold::ForegroundUnknown => ("foreground app is unknown", "Paused: foreground app is unknown."),
        IoPriorityHold::SessionUnknown => (
            "current Windows session is unknown",
            "Paused: current Windows session is unknown.",
        ),
    }
}

/// The I/O priority targets by id, with name, priority and whether each is
/// the foreground app, as a map filled in list order: every process but the
/// idle one, this one, other sessions' and the core Windows processes, whose
/// default (foreground or background) names a priority.
pub open spec fn io_targets_map(
    ps: Seq<ProcessInfo>,
    current_process_id: u32,
    current_session_id: u32,
    foreground_process_id: Option<u32>,
    foreground_name: Option<Seq<char>>,
    settings: IoPrioritySettings,
) -> Map<u32, (Seq<char>, ProcessIoPriority, bool)>
    decreases ps.len(),
{
    if ps.len() == 0 {
        Map::empty()
    } else {
        let m = io_targets_map(
            ps.drop_last(),
            current_process_id,
            current_session_id,
            foreground_process_id,
            foreground_name,
            settings,
        );
        let p = ps.last();
        let foreground = settings.foreground_detection_enabled && gpu_foreground(p, foreground_process_id, foreground_name);
        let chosen = if foreground { settings.foreground_priority } else { settings.background_priority };
        if p.id == 0 || p.id == current_process_id || p.session_id != Some(current_session_id) || list_contains_name(
            core_builtin_exclusions(),
            p.name@,
        ) {
            m
        } else {
            match chosen {
                Some(priority) => m.insert(p.id, (p.name@, priority, foreground)),
                None => m,
            }
        }
    }
}

/// The I/O priority targets of a pass (see `io_targets_map`).
pub fn io_priority_targets(
    processes: &Vec<ProcessInfo>,
    current_process_id: u32,
    current_session_id: u32,
    foreground_process_id: Option<u32>,
    foreground_name: Option<&str>,
    settings: &IoPrioritySettings,
) -> (r: BTreeMap<u32, (String, ProcessIoPriority, bool)>)
    ensures
        r@.map_values(|v: (String, ProcessIoPriority, bool)| (v.0@, v.1, v.2)) == io_targets_map(
            processes@,
            current_process_id,
            current_session_id,
            foreground_process_id,
            match foreground_name {
                Some(n) => Some(n@),
                None => None,
            },
            *settings,
        ),
{
    proof {
        broadcast use vstd::std_specs::btree::group_btree_axioms;
    }
    let ghost fname = match foreground_name {
        Some(n) => Some(n@),
        None => None::<Seq<char>>,
    };
    let mut out: BTreeMap<u32, (String, ProcessIoPriority, bool)> = BTreeMap::new();
    let mut i: usize = 0;
    proof {
        assert(out@.map_values(|v: (String, ProcessIoPriority, bool)| (v.0@, v.1, v.2)) =~= Map::<
            u32,
            (Seq<char>, ProcessIoPriority, bool),
        >::empty());
    }
    while i < processes.len()
        invariant
            i <= processes@.len(),
            fname == match foreground_name {
                Some(n) => Some(n@),
                None => None::<Seq<char>>,
            },
            out@.map_values(|v: (String, ProcessIoPriority, bool)| (v.0@, v.1, v.2)) == io_targets_map(
                processes@.subrange(0, i as int),
                current_process_id,
                current_session_id,
                foreground_process_id,
                fname,
                *settings,
            ),
        decreases processes@.len() - i,
    {
        let p = &processes[i];
        let ghost next = processes@.subrange(0, i + 1);
        proof {
            assert(next.drop_last() =~= processes@.subrange(0, i as int));
            assert(next.last() == processes@[i as int]);
        }
        let same_session = match p.session_id {
            Some(sid) => sid == current_session_id,
            None => false,
        };
        if p.id != 0 && p.id != current_process_id && same_session && !is_builtin_excluded(p.name.as_str()) {
            let by_name = match foreground_name {
                Some(n) => same_name(n, p.name.as_str()),
                None => false,
            };
            let foreground = settings.foreground_detection_enabled && (foreground_process_id == Some(p.id) || by_name);
            let chosen = if foreground {
                settings.foreground_priority
            } else {
                settings.background_priority
            };
            match chosen {
                Some(priority) => {
                    let ghost before = out@.map_values(|v: (String, ProcessIoPriority, bool)| (v.0@, v.1, v.2));
                    let name = String::from_str(p.name.as_str());
                    let ghost entry = (name@, priority, foreground);
                    out.insert(p.id, (name, priority, foreground));
                    proof {
                        assert(out@.map_values(|v: (String, ProcessIoPriority, bool)| (v.0@, v.1, v.2)) =~= before.insert(
                            p.id,
                            entry,
                        ));
                    }
                },
                None => {},
            }
        }
        i = i + 1;
    }
    proof {
        assert(processes@.subrange(0, processes@.len() as int) =~= processes@);
    }
    out
}

/// The message a held I/O priority pass reports.
pub open spec fn io_hold_message(hold: IoPriorityHold) -> Seq<char> {
    match hold {
        IoPriorityHold::AutomationDisabled => "Automation disabled."@,
        IoPriorityHold::FeatureDisabled => "I/O priority defaults disabled."@,
        IoPriorityHold::ForegroundUnknown => "Paused: foreground app is unknown."@,
        IoPriorityHold::SessionUnknown => "Paused: current Windows session is unknown."@,
    }
}

/// What an I/O priority pass reports.
pub struct IoPrioritySnapshot {
    pub enabled: bool,
    pub scanned_processes: usize,
    pub adjusted_processes: usize,
    pub skipped_processes: usize,
    pub failed_processes: usize,
    pub adjusted_apps: Vec<String>,
    pub auto_excluded_processes: Vec<String>,
    pub message: String,
    pub last_error: Option<String>,
}

impl IoPriorityManager {
    /// Ends a held pass once every changed process was released with the
    /// hold's reason (`failures` are the release's): every failure is
    /// forgotten when the hold turns the feature off. The report: enabled
    /// unless turned off, the hold's message, the release's failures,
    /// nothing scanned, adjusted or skipped.
    pub fn hold_snapshot(&mut self, hold: IoPriorityHold, failures: IoPriorityFailures) -> (r: IoPrioritySnapshot)
        requires
            old(self).wf(),
        ensures
            final(self).wf(),
            final(self).adjustments() == old(self).adjustments(),
            final(self).failures() == if hold is AutomationDisabled || hold is FeatureDisabled {
                Map::<Seq<char>, FailureState>::empty()
            } else {
                old(self).failures()
            },
            r.enabled == !(hold is AutomationDisabled || hold is FeatureDisabled),
            r.scanned_processes == 0,
            r.adjusted_processes == 0,
            r.skipped_processes == 0,
            r.failed_processes == failures.count,
            r.adjusted_apps@.len() == 0,
            r.auto_excluded_processes@.len() == 0,
            r.message@ == io_hold_message(hold),
            r.last_error == failures.last_error,
    {
        let off = hold.turns_off();
        if off {
            self.clear_failure_suppression();
        }
        let (_, message) = io_priority_hold_texts(hold);
        IoPrioritySnapshot {
            enabled: !off,
            scanned_processes: 0,
            adjusted_processes: 0,
            skipped_processes: 0,
            failed_processes: failures.count,
            adjusted_apps: Vec::new(),
            auto_excluded_processes: Vec::new(),
            message: String::from_str(message),
            last_error: failures.last_error,
        }
    }

    /// The report of a pass whose process list could not be read, once every
    /// changed process was released: enabled, the list's error as message,
    /// the release's failures, nothing scanned, adjusted or skipped.
    pub fn list_unavailable_snapshot(&self, error: String, failures: IoPriorityFailures) -> (r: IoPrioritySnapshot)
        ensures
            r.enabled,
            r.scanned_processes == 0,
            r.adjusted_processes == 0,
            r.skipped_processes == 0,
            r.failed_processes == failures.count,
            r.adjusted_apps@.len() == 0,
            r.auto_excluded_processes@.len() == 0,
            r.message@ == error@,
            r.last_error == failures.last_error,
    {
        IoPrioritySnapshot {
            enabled: true,
            scanned_processes: 0,
            adjusted_processes: 0,
            skipped_processes: 0,
            failed_processes: failures.count,
            adjusted_apps: Vec::new(),
            auto_excluded_processes: Vec::new(),
            message: error,
            last_error: failures.last_error,
        }
    }

    /// The report of a finished pass over `scanned_processes` processes: its
    /// counts, the processes still changed and their app names, and
    /// `I/O priority defaults active.`
    pub fn pass_snapshot(
        &self,
        pass: IoPriorityPass,
        scanned_processes: usize,
        adjusted_apps: Vec<String>,
        failures: IoPriorityFailures,
    ) -> (r: IoPrioritySnapshot)
        ensures
            r.enabled,
            r.scanned_processes == scanned_processes,
            r.adjusted_processes == self.adjusted@.len(),
            r.skipped_processes == pass.skipped_processes,
            r.failed_processes == failures.count,
            r.adjusted_apps@ == adjusted_apps@,
            r.auto_excluded_processes@ == pass.auto_excluded_processes@,
            r.message@ == "I/O priority defaults active."@,
            r.last_error == failures.last_error,
    {
        proof {
            broadcast use vstd::std_specs::btree::group_btree_axioms;
        }
        IoPrioritySnapshot {
            enabled: true,
            scanned_processes,
            adjusted_processes: self.adjusted.len(),
            skipped_processes: pass.skipped_processes,
            failed_processes: failures.count,
            adjusted_apps,
            auto_excluded_processes: pass.auto_excluded_processes,
            message: String::from_str("I/O priority defaults active."),
            last_error: failures.last_error,
        }
    }
}

} // verus!
