//! Memory (page) priority: raw values, labels, the summary messages of the
//! memory priority feature, and the state it keeps between passes
//! (processes it changed, failures).
use std::collections::BTreeMap;
use vstd::prelude::*;

use crate::action_log::{action_of_result, log_after, ActionLog, ActionLogEntryView, ActionLogFeature, ActionLogResult};
use crate::rules::{
    check_and_report_suppression, failure_key, failure_keys_of, model_after_check, model_newly_suppressed, model_record,
    model_suppressed, stopped_retrying_message, ExecutionFailureTracker, FailureState,
};
use crate::text::{decimal, decimal_string, same_name, same_name_seq};
use crate::config::{MemoryPrioritySettings, ProcessMemoryPriority};
use crate::foreground::process_list::ProcessInfo;
use crate::foreground::process_list::{
    contains_process_name, core_builtin_exclusions, core_builtin_process_exclusions, count_label,
    list_contains_name, process_count_label,
};
use crate::gpu_priority::{gpu_foreground, open_process_message, open_process_text, ERROR_ACCESS_DENIED, ERROR_INVALID_PARAMETER};

verus! {

pub const MEMORY_PRIORITY_VERY_LOW: u32 = 1;
pub const MEMORY_PRIORITY_LOW: u32 = 2;
pub const MEMORY_PRIORITY_MEDIUM: u32 = 3;
pub const MEMORY_PRIORITY_BELOW_NORMAL: u32 = 4;
pub const MEMORY_PRIORITY_NORMAL: u32 = 5;

/// Why a memory priority operation failed.
#[derive(Debug, Clone, PartialEq, Eq)]
pub enum MemoryPriorityError {
    AccessDenied,
    ProcessExited,
    Failed(String),
}

/// Classifies a failed process call by its Win32 error.
pub fn open_process_error(process_id: u32, error: u32) -> (r: MemoryPriorityError)
    ensures
        error == ERROR_ACCESS_DENIED ==> r == MemoryPriorityError::AccessDenied,
        error == ERROR_INVALID_PARAMETER ==> r == MemoryPriorityError::ProcessExited,
        error != ERROR_ACCESS_DENIED && error != ERROR_INVALID_PARAMETER ==> r is Failed
            && r->Failed_0@ == open_process_message(process_id, error),
{
    if error == ERROR_ACCESS_DENIED {
        MemoryPriorityError::AccessDenied
    } else if error == ERROR_INVALID_PARAMETER {
        MemoryPriorityError::ProcessExited
    } else {
        MemoryPriorityError::Failed(open_process_text(process_id, error))
    }
}

pub open spec fn memory_raw(priority: ProcessMemoryPriority) -> u32 {
    match priority {
        ProcessMemoryPriority::VeryLow => MEMORY_PRIORITY_VERY_LOW,
        ProcessMemoryPriority::Low => MEMORY_PRIORITY_LOW,
        ProcessMemoryPriority::Medium => MEMORY_PRIORITY_MEDIUM,
        ProcessMemoryPriority::BelowNormal => MEMORY_PRIORITY_BELOW_NORMAL,
        ProcessMemoryPriority::Normal => MEMORY_PRIORITY_NORMAL,
    }
}

pub open spec fn memory_from_raw(priority: u32) -> ProcessMemoryPriority {
    if priority == MEMORY_PRIORITY_VERY_LOW {
        ProcessMemoryPriority::VeryLow
    } else if priority == MEMORY_PRIORITY_LOW {
        ProcessMemoryPriority::Low
    } else if priority == MEMORY_PRIORITY_MEDIUM {
        ProcessMemoryPriority::Medium
    } else if priority == MEMORY_PRIORITY_BELOW_NORMAL {
        ProcessMemoryPriority::BelowNormal
    } else {
        ProcessMemoryPriority::Normal
    }
}

/// The page priority value of a memory priority.
pub fn memory_priority_raw(priority: ProcessMemoryPriority) -> (r: u32)
    ensures
        r == memory_raw(priority),
{
    match priority {
        ProcessMemoryPriority::VeryLow => MEMORY_PRIORITY_VERY_LOW,
        ProcessMemoryPriority::Low => MEMORY_PRIORITY_LOW,
        ProcessMemoryPriority::Medium => MEMORY_PRIORITY_MEDIUM,
        ProcessMemoryPriority::BelowNormal => MEMORY_PRIORITY_BELOW_NORMAL,
        ProcessMemoryPriority::Normal => MEMORY_PRIORITY_NORMAL,
    }
}

/// The memory priority of a page priority value; unknown values read as
/// `Normal`.
pub fn memory_priority_from_raw(priority: u32) -> (r: ProcessMemoryPriority)
    ensures
        r == memory_from_raw(priority),
{
    if priority == MEMORY_PRIORITY_VERY_LOW {
        ProcessMemoryPriority::VeryLow
    } else if priority == MEMORY_PRIORITY_LOW {
        ProcessMemoryPriority::Low
    } else if priority == MEMORY_PRIORITY_MEDIUM {
        ProcessMemoryPriority::Medium
    } else if priority == MEMORY_PRIORITY_BELOW_NORMAL {
        ProcessMemoryPriority::BelowNormal
    } else {
        ProcessMemoryPriority::Normal
    }
}

/// The label of a memory priority.
pub open spec fn memory_label(priority: ProcessMemoryPriority) -> Seq<char> {
    match priority {
        ProcessMemoryPriority::VeryLow => "Very Low"@,
        ProcessMemoryPriority::Low => "Low"@,
        ProcessMemoryPriority::Medium => "Medium"@,
        ProcessMemoryPriority::BelowNormal => "Below Normal"@,
        ProcessMemoryPriority::Normal => "Normal"@,
    }
}

pub fn memory_priority_label(priority: ProcessMemoryPriority) -> (r: &'static str)
    ensures
        r@ == memory_label(priority),
        r@ == match priority {
            ProcessMemoryPriority::VeryLow => "Very Low"@,
            ProcessMemoryPriority::Low => "Low"@,
            ProcessMemoryPriority::Medium => "Medium"@,
            ProcessMemoryPriority::BelowNormal => "Below Normal"@,
            ProcessMemoryPriority::Normal => "Normal"@,
        },
{
    match priority {
        ProcessMemoryPriority::VeryLow => "Very Low",
        ProcessMemoryPriority::Low => "Low",
        ProcessMemoryPriority::Medium => "Medium",
        ProcessMemoryPriority::BelowNormal => "Below Normal",
        ProcessMemoryPriority::Normal => "Normal",
    }
}

/// Whether memory priority leaves a process alone: the core Windows
/// processes.
pub fn is_builtin_excluded(process_name: &str) -> (r: bool)
    ensures
        r == list_contains_name(core_builtin_exclusions(), process_name@),
{
    let list = core_builtin_process_exclusions();
    contains_process_name(list.as_slice(), process_name)
}

/// Whether a process is out of reach for memory priority: the idle process,
/// this utility itself, another session (an unknown session counts as
/// another), or a core Windows process.
pub fn should_skip_process(
    process_id: u32,
    process_name: &str,
    current_process_id: u32,
    current_session_id: u32,
    process_session_id: Option<u32>,
) -> (r: bool)
    ensures
        r == (process_id == 0 || process_id == current_process_id || process_session_id != Some(current_session_id)
            || list_contains_name(core_builtin_exclusions(), process_name@)),
{
    process_id == 0 || process_id == current_process_id || process_session_id != Some(current_session_id)
        || is_builtin_excluded(process_name)
}

/// The text of a memory priority error.
pub fn memory_priority_error_message(error: MemoryPriorityError) -> (r: String)
    ensures
        r@ == match error {
            MemoryPriorityError::AccessDenied => "Access denied."@,
            MemoryPriorityError::ProcessExited => "Process exited."@,
            MemoryPriorityError::Failed(m) => m@,
        },
{
    match error {
        MemoryPriorityError::AccessDenied => String::from_str("Access denied."),
        MemoryPriorityError::ProcessExited => String::from_str("Process exited."),
        MemoryPriorityError::Failed(message) => message,
    }
}

/// `Applied memory priority to <count>.`
pub fn memory_priority_apply_summary_message(count: usize) -> (r: String)
    ensures
        r@ == "Applied memory priority to "@ + count_label(count as nat) + "."@,
{
    let mut s = String::from_str("Applied memory priority to ");
    s.append(process_count_label(count).as_str());
    s.append(".");
    s
}

/// `Restored previous memory priority for <count>: <reason>.`
pub fn memory_priority_restore_summary_message(count: usize, reason: &str) -> (r: String)
    ensures
        r@ == "Restored previous memory priority for "@ + count_label(count as nat) + ": "@ + reason@ + "."@,
{
    let mut s = String::from_str("Restored previous memory priority for ");
    s.append(process_count_label(count).as_str());
    s.append(": ");
    s.append(reason);
    s.append(".");
    s
}

/// The name under which summaries are logged: Auto Balance when memory
/// priority acts for foreground responsiveness.
pub fn memory_priority_summary_process_name(action_log_feature: ActionLogFeature) -> (r: &'static str)
    ensures
        r@ == if action_log_feature == ActionLogFeature::ForegroundResponsiveness {
            "Auto Balance"@
        } else {
            "Memory Priority"@
        },
{
    match action_log_feature {
        ActionLogFeature::ForegroundResponsiveness => "Auto Balance",
        _ => "Memory Priority",
    }
}

/// Law: every memory priority survives the round trip through its page
/// priority value.
pub proof fn law_memory_priority_round_trip(p: ProcessMemoryPriority)
    ensures
        memory_from_raw(memory_raw(p)) == p,
{
}

/// The text of a memory priority error.
pub open spec fn memory_error_text(error: MemoryPriorityError) -> Seq<char> {
    match error {
        MemoryPriorityError::AccessDenied => "Access denied."@,
        MemoryPriorityError::ProcessExited => "Process exited."@,
        MemoryPriorityError::Failed(m) => m@,
    }
}

impl MemoryPriorityError {
    /// A copy of the error.
    pub fn clone_error(&self) -> (r: MemoryPriorityError)
        ensures
            memory_error_text(r) == memory_error_text(*self),
    {
        match self {
            MemoryPriorityError::AccessDenied => MemoryPriorityError::AccessDenied,
            MemoryPriorityError::ProcessExited => MemoryPriorityError::ProcessExited,
            MemoryPriorityError::Failed(m) => MemoryPriorityError::Failed(String::from_str(m.as_str())),
        }
    }
}

/// The priority read back after a change either is the one requested, or
/// the change failed: `Memory priority remained <p> after requesting <q>.`
pub fn memory_priority_refresh_result(refreshed: ProcessMemoryPriority, priority: ProcessMemoryPriority) -> (r: Result<
    (),
    MemoryPriorityError,
>)
    ensures
        refreshed == priority <==> r is Ok,
        r matches Err(e) ==> e matches MemoryPriorityError::Failed(m) && m@ == "Memory priority remained "@
            + memory_label(refreshed) + " after requesting "@ + memory_label(priority) + "."@,
{
    if refreshed == priority {
        Ok(())
    } else {
        let mut m = String::from_str("Memory priority remained ");
        m.append(memory_priority_label(refreshed));
        m.append(" after requesting ");
        m.append(memory_priority_label(priority));
        m.append(".");
        Err(MemoryPriorityError::Failed(m))
    }
}

/// The priority read back after a restore either is the one restored, or the
/// restore failed: `Memory priority remained <p> after restoring <q>.`
pub fn memory_priority_restore_refresh_result(
    refreshed: ProcessMemoryPriority,
    previous: ProcessMemoryPriority,
) -> (r: Result<(), MemoryPriorityError>)
    ensures
        refreshed == previous <==> r is Ok,
        r matches Err(e) ==> e matches MemoryPriorityError::Failed(m) && m@ == "Memory priority remained "@
            + memory_label(refreshed) + " after restoring "@ + memory_label(previous) + "."@,
{
    if refreshed == previous {
        Ok(())
    } else {
        let mut m = String::from_str("Memory priority remained ");
        m.append(memory_priority_label(refreshed));
        m.append(" after restoring ");
        m.append(memory_priority_label(previous));
        m.append(".");
        Err(MemoryPriorityError::Failed(m))
    }
}

/// A process memory priority is to be applied to, with how.
#[derive(Debug, Clone)]
pub struct MemoryPriorityTarget {
    pub process_id: u32,
    pub process_name: String,
    pub priority: ProcessMemoryPriority,
    pub foreground: bool,
    pub preserve_foreground_priority: bool,
    pub preserve_background_priority: bool,
}

/// A memory priority target as plain values.
pub struct MemoryPriorityTargetView {
    pub process_id: u32,
    pub process_name: Seq<char>,
    pub priority: ProcessMemoryPriority,
    pub foreground: bool,
    pub preserve_foreground_priority: bool,
    pub preserve_background_priority: bool,
}

impl View for MemoryPriorityTarget {
    type V = MemoryPriorityTargetView;

    open spec fn view(&self) -> MemoryPriorityTargetView {
        MemoryPriorityTargetView {
            process_id: self.process_id,
            process_name: self.process_name@,
            priority: self.priority,
            foreground: self.foreground,
            preserve_foreground_priority: self.preserve_foreground_priority,
            preserve_background_priority: self.preserve_background_priority,
        }
    }
}

/// The failures of one memory priority pass: how many, and the first one's
/// description.
pub struct MemoryPriorityFailures {
    pub count: usize,
    pub last_error: Option<String>,
}

impl MemoryPriorityFailures {
    pub fn new() -> (r: Self)
        ensures
            r.count == 0,
            r.last_error is None,
    {
        MemoryPriorityFailures { count: 0, last_error: None }
    }

    /// Counts a failure, keeps `<action> <process> (<pid>): <message>` for
    /// the first one, and logs it under `feature`.
    pub fn record(
        &mut self,
        action: &str,
        process_id: u32,
        process_name: &str,
        error: &MemoryPriorityError,
        feature: ActionLogFeature,
        action_log: &mut ActionLog,
    )
        requires
            old(self).count < usize::MAX,
            old(action_log).wf(),
        ensures
            final(self).count == old(self).count + 1,
            old(self).last_error is Some ==> final(self).last_error == old(self).last_error,
            old(self).last_error is None ==> (final(self).last_error matches Some(e) && e@ == action@ + " "@
                + process_name@ + " ("@ + decimal(process_id as nat) + "): "@ + memory_error_text(*error)),
            final(action_log).wf(),
            final(action_log).view_entries() == log_after(
                old(action_log).view_entries(),
                old(action_log).capacity_spec(),
                ActionLogEntryView {
                    feature,
                    process_id: Some(process_id),
                    process_name: process_name@,
                    action: action_of_result(ActionLogResult::Failed),
                    result: ActionLogResult::Failed,
                    reason: memory_error_text(*error),
                },
            ),
    {
        let message = memory_priority_error_message(error.clone_error());
        if self.last_error.is_none() {
            let mut e = String::from_str(action);
            e.append(" ");
            e.append(process_name);
            e.append(" (");
            e.append(decimal_string(process_id as u64).as_str());
            e.append("): ");
            e.append(message.as_str());
            self.last_error = Some(e);
        }
        self.count = self.count + 1;
        action_log.record(feature, Some(process_id), String::from_str(process_name), ActionLogResult::Failed, message);
    }
}

/// What memory priority remembers of a process it changed.
pub struct MemoryAdjustedProcess {
    pub process_name: String,
    pub previous_priority: ProcessMemoryPriority,
    pub applied_priority: ProcessMemoryPriority,
}

/// A changed process as plain values.
pub struct MemoryAdjustedProcessView {
    pub process_name: Seq<char>,
    pub previous_priority: ProcessMemoryPriority,
    pub applied_priority: ProcessMemoryPriority,
}

impl View for MemoryAdjustedProcess {
    type V = MemoryAdjustedProcessView;

    open spec fn view(&self) -> MemoryAdjustedProcessView {
        MemoryAdjustedProcessView {
            process_name: self.process_name@,
            previous_priority: self.previous_priority,
            applied_priority: self.applied_priority,
        }
    }
}

/// What applying memory priority to a process comes to, once its current
/// priority is known.
#[derive(Debug, Clone, Copy, PartialEq, Eq, Structural)]
pub enum MemoryApplyPlan {
    /// The process keeps its priority; the priority it had before this
    /// feature changed it is to be restored, if it was changed.
    Preserve { restore: Option<ProcessMemoryPriority> },
    /// Nothing to do.
    AlreadyApplied,
    /// The priority is to be set and read back; then the change is recorded
    /// with `baseline` as the priority to restore.
    Change { baseline: ProcessMemoryPriority },
    /// The priority is already right: the change is recorded with `baseline`
    /// as the priority to restore.
    Record { baseline: ProcessMemoryPriority },
}

/// The result of applying memory priority to a process.
#[derive(Debug, Clone, Copy, PartialEq, Eq, Structural)]
pub enum MemoryApplyOutcome {
    Applied { loggable: bool },
    AlreadyApplied,
    Preserved,
}

/// What applying `priority` to a process whose priority is `current` comes
/// to: a preserved priority restores the one this feature replaced (for the
/// process id, whatever its name); a record of the same process with the
/// same priority and the priority already right needs nothing; otherwise the
/// priority is set when it differs, and the change is recorded against the
/// priority first replaced.
pub open spec fn memory_apply_plan(
    adjusted: Map<u32, MemoryAdjustedProcessView>,
    process_id: u32,
    process_name: Seq<char>,
    priority: ProcessMemoryPriority,
    foreground: bool,
    preserve_foreground: bool,
    preserve_background: bool,
    current: ProcessMemoryPriority,
) -> MemoryApplyPlan {
    let existing = if adjusted.contains_key(process_id) && same_name_seq(adjusted[process_id].process_name, process_name) {
        Some(adjusted[process_id])
    } else {
        None
    };
    let baseline = match existing {
        Some(a) => a.previous_priority,
        None => current,
    };
    let preserve = if foreground {
        preserve_foreground && memory_raw(baseline) >= memory_raw(priority)
    } else {
        preserve_background && memory_raw(baseline) <= memory_raw(priority)
    };
    if preserve {
        MemoryApplyPlan::Preserve {
            restore: if adjusted.contains_key(process_id) {
                Some(adjusted[process_id].previous_priority)
            } else {
                None
            },
        }
    } else if existing matches Some(a) && a.applied_priority == priority && current == priority {
        MemoryApplyPlan::AlreadyApplied
    } else if current != priority {
        MemoryApplyPlan::Change { baseline }
    } else {
        MemoryApplyPlan::Record { baseline }
    }
}

/// Applying a priority again to a process this feature changed to it, whose
/// priority is still the one set, does nothing (unless the priority is now
/// preserved).
pub proof fn law_memory_apply_is_idempotent(
    adjusted: Map<u32, MemoryAdjustedProcessView>,
    process_id: u32,
    process_name: Seq<char>,
    baseline: ProcessMemoryPriority,
    priority: ProcessMemoryPriority,
    foreground: bool,
    preserve_foreground: bool,
    preserve_background: bool,
)
    requires
        !(if foreground {
            preserve_foreground && memory_raw(baseline) >= memory_raw(priority)
        } else {
            preserve_background && memory_raw(baseline) <= memory_raw(priority)
        }),
    ensures
        memory_apply_plan(
            adjusted.insert(
                process_id,
                MemoryAdjustedProcessView { process_name, previous_priority: baseline, applied_priority: priority },
            ),
            process_id,
            process_name,
            priority,
            foreground,
            preserve_foreground,
            preserve_background,
            priority,
        ) == MemoryApplyPlan::AlreadyApplied,
{
}

/// Changing a process again keeps, as the priority to restore, the one this
/// feature first replaced; a preserved priority restores it.
pub proof fn law_memory_restores_the_first_priority(
    adjusted: Map<u32, MemoryAdjustedProcessView>,
    process_id: u32,
    process_name: Seq<char>,
    first: ProcessMemoryPriority,
    applied: ProcessMemoryPriority,
    priority: ProcessMemoryPriority,
    foreground: bool,
    preserve_foreground: bool,
    preserve_background: bool,
    current: ProcessMemoryPriority,
)
    ensures
        ({
            let m = adjusted.insert(
                process_id,
                MemoryAdjustedProcessView { process_name, previous_priority: first, applied_priority: applied },
            );
            match memory_apply_plan(
                m,
                process_id,
                process_name,
                priority,
                foreground,
                preserve_foreground,
                preserve_background,
                current,
            ) {
                MemoryApplyPlan::Change { baseline } => baseline == first,
                MemoryApplyPlan::Record { baseline } => baseline == first,
                MemoryApplyPlan::Preserve { restore } => restore == Some(first),
                MemoryApplyPlan::AlreadyApplied => true,
            }
        }),
{
}

/// The log entry of a memory priority summary under `feature`.
pub open spec fn memory_summary_entry(feature: ActionLogFeature, result: ActionLogResult, reason: Seq<char>) -> ActionLogEntryView {
    ActionLogEntryView {
        feature,
        process_id: None,
        process_name: if feature == ActionLogFeature::ForegroundResponsiveness {
            "Auto Balance"@
        } else {
            "Memory Priority"@
        },
        action: action_of_result(result),
        result,
        reason,
    }
}

/// The state memory priority keeps between passes.
pub struct MemoryPriorityManager {
    pub adjusted: BTreeMap<u32, MemoryAdjustedProcess>,
    pub failure_suppression: ExecutionFailureTracker,
}

impl MemoryPriorityManager {
    pub open spec fn wf(&self) -> bool {
        self.failure_suppression.wf()
    }

    /// The failure state per key.
    pub open spec fn failures(&self) -> Map<Seq<char>, FailureState> {
        self.failure_suppression@
    }

    /// The processes this feature changed, by process id.
    pub open spec fn adjustments(&self) -> Map<u32, MemoryAdjustedProcessView> {
        self.adjusted@.map_values(|a: MemoryAdjustedProcess| a@)
    }

    pub fn new() -> (r: Self)
        ensures
            r.wf(),
            r.failures() == Map::<Seq<char>, FailureState>::empty(),
            r.adjustments() == Map::<u32, MemoryAdjustedProcessView>::empty(),
    {
        let r = MemoryPriorityManager { adjusted: BTreeMap::new(), failure_suppression: ExecutionFailureTracker::new() };
        proof {
            assert(r.adjustments() =~= Map::<u32, MemoryAdjustedProcessView>::empty());
        }
        r
    }

    /// Counts a failure of the process.
    pub fn record_process_failure(&mut self, process_name: &str)
        requires
            old(self).wf(),
        ensures
            final(self).wf(),
            final(self).failures() == model_record(old(self).failures(), failure_key(process_name@)),
            final(self).adjustments() == old(self).adjustments(),
    {
        let _ = self.failure_suppression.record_process_failure(process_name);
    }

    /// Forgets the failures of the process.
    pub fn clear_process_failure(&mut self, process_name: &str)
        requires
            old(self).wf(),
        ensures
            final(self).wf(),
            final(self).failures() == old(self).failures().remove(failure_key(process_name@)),
            final(self).adjustments() == old(self).adjustments(),
    {
        self.failure_suppression.clear_process_failure(process_name);
    }

    /// Whether the process is suppressed; the first time it is, the stop is
    /// logged under `feature`.
    pub fn is_process_suppressed(
        &mut self,
        process_id: u32,
        process_name: &str,
        feature: ActionLogFeature,
        action_log: &mut ActionLog,
    ) -> (r: bool)
        requires
            old(self).wf(),
            old(action_log).wf(),
        ensures
            final(self).wf(),
            final(action_log).wf(),
            final(self).adjustments() == old(self).adjustments(),
            r == model_suppressed(old(self).failures(), failure_key(process_name@)),
            final(self).failures() == model_after_check(old(self).failures(), failure_key(process_name@)),
            final(action_log).view_entries() == if model_newly_suppressed(old(self).failures(), failure_key(process_name@)) {
                log_after(
                    old(action_log).view_entries(),
                    old(action_log).capacity_spec(),
                    ActionLogEntryView {
                        feature,
                        process_id: Some(process_id),
                        process_name: process_name@,
                        action: action_of_result(ActionLogResult::Skipped),
                        result: ActionLogResult::Skipped,
                        reason: stopped_retrying_message("memory priority"@),
                    },
                )
            } else {
                old(action_log).view_entries()
            },
    {
        let suppression = check_and_report_suppression(
            &mut self.failure_suppression,
            action_log,
            feature,
            "memory priority",
            process_id,
            process_name,
            process_name,
        );
        suppression.suppressed
    }

    /// What applying `priority` to a process whose priority is `current`
    /// comes to (see `memory_apply_plan`); a preserved priority forgets the
    /// process.
    pub fn plan_apply(
        &mut self,
        process_id: u32,
        process_name: &str,
        priority: ProcessMemoryPriority,
        foreground: bool,
        preserve_foreground: bool,
        preserve_background: bool,
        current: ProcessMemoryPriority,
    ) -> (r: MemoryApplyPlan)
        ensures
            r == memory_apply_plan(
                old(self).adjustments(),
                process_id,
                process_name@,
                priority,
                foreground,
                preserve_foreground,
                preserve_background,
                current,
            ),
            final(self).adjustments() == if r is Preserve {
                old(self).adjustments().remove(process_id)
            } else {
                old(self).adjustments()
            },
            final(self).failure_suppression == old(self).failure_suppression,
    {
        proof {
            broadcast use vstd::std_specs::btree::group_btree_axioms;
        }
        let ghost before = self.adjustments();
        let (existing_previous, existing_priority): (Option<ProcessMemoryPriority>, Option<ProcessMemoryPriority>) =
            match self.adjusted.get(&process_id) {
            Some(a) => {
                proof {
                    assert(before.contains_key(process_id) && before[process_id] == a@);
                }
                if same_name(a.process_name.as_str(), process_name) {
                    (Some(a.previous_priority), Some(a.applied_priority))
                } else {
                    (None, None)
                }
            },
            None => (None, None),
        };
        let baseline = match existing_previous {
            Some(p) => p,
            None => current,
        };
        let baseline_rank = memory_priority_raw(baseline);
        let desired_rank = memory_priority_raw(priority);
        if crate::gpu_priority::should_preserve_priority(
            foreground,
            preserve_foreground,
            preserve_background,
            baseline_rank,
            desired_rank,
        ) {
            let removed = self.adjusted.remove(&process_id);
            proof {
                assert(self.adjustments() =~= before.remove(process_id));
            }
            let restore = match removed {
                Some(a) => {
                    proof {
                        assert(before[process_id] == a@);
                    }
                    Some(a.previous_priority)
                },
                None => None,
            };
            return MemoryApplyPlan::Preserve { restore };
        }
        let same_priority = match existing_priority {
            Some(p) => p == priority,
            None => false,
        };
        if same_priority && current == priority {
            MemoryApplyPlan::AlreadyApplied
        } else if current != priority {
            MemoryApplyPlan::Change { baseline }
        } else {
            MemoryApplyPlan::Record { baseline }
        }
    }

    /// Records that this feature changed the process to `priority`, with
    /// `baseline` as the priority to restore.
    pub fn commit_apply(
        &mut self,
        process_id: u32,
        process_name: &str,
        priority: ProcessMemoryPriority,
        baseline: ProcessMemoryPriority,
    )
        ensures
            final(self).adjustments() == old(self).adjustments().insert(
                process_id,
                MemoryAdjustedProcessView {
                    process_name: process_name@,
                    previous_priority: baseline,
                    applied_priority: priority,
                },
            ),
            final(self).failure_suppression == old(self).failure_suppression,
    {
        proof {
            broadcast use vstd::std_specs::btree::group_btree_axioms;
        }
        let ghost before = self.adjustments();
        let a = MemoryAdjustedProcess {
            process_name: String::from_str(process_name),
            previous_priority: baseline,
            applied_priority: priority,
        };
        let ghost v = a@;
        self.adjusted.insert(process_id, a);
        proof {
            assert(self.adjustments() =~= before.insert(process_id, v));
        }
    }

    /// Forgets every failure (when the feature is turned off).
    pub fn clear_failure_suppression(&mut self)
        ensures
            final(self).wf(),
            final(self).failures() == Map::<Seq<char>, FailureState>::empty(),
            final(self).adjustments() == old(self).adjustments(),
    {
        self.failure_suppression.clear();
    }

    /// Keeps the failures of this pass's targets only.
    pub fn retain_target_names(&mut self, names: &Vec<String>)
        requires
            old(self).wf(),
        ensures
            final(self).wf(),
            final(self).failures() == old(self).failures().restrict(failure_keys_of(names@)),
            final(self).adjustments() == old(self).adjustments(),
    {
        self.failure_suppression.retain_keys(names);
    }

    /// Takes the record of a changed process out, to restore it.
    pub fn take_adjusted(&mut self, process_id: u32) -> (r: Option<MemoryAdjustedProcess>)
        ensures
            final(self).adjustments() == old(self).adjustments().remove(process_id),
            match r {
                Some(a) => old(self).adjustments().contains_key(process_id) && a@ == old(self).adjustments()[process_id],
                None => !old(self).adjustments().contains_key(process_id),
            },
            final(self).failure_suppression == old(self).failure_suppression,
    {
        proof {
            broadcast use vstd::std_specs::btree::group_btree_axioms;
        }
        let ghost before = self.adjustments();
        let r = self.adjusted.remove(&process_id);
        proof {
            assert(self.adjustments() =~= before.remove(process_id));
        }
        r
    }

    /// Takes the result of applying memory priority to a target, logging
    /// under `feature`: success clears its failures (a logged change counts
    /// as applied, a preserved priority is skipped); an exited process is
    /// skipped; denied access is skipped, counts toward suppression and is
    /// logged; any other error counts toward suppression and is recorded.
    /// Returns the skipped and applied counts it adds.
    pub fn record_apply_result(
        &mut self,
        failures: &mut MemoryPriorityFailures,
        target: &MemoryPriorityTarget,
        result: &Result<MemoryApplyOutcome, MemoryPriorityError>,
        feature: ActionLogFeature,
        action_log: &mut ActionLog,
    ) -> (r: (usize, usize))
        requires
            old(self).wf(),
            old(action_log).wf(),
            old(failures).count < usize::MAX,
        ensures
            final(self).wf(),
            final(action_log).wf(),
            final(self).adjustments() == old(self).adjustments(),
            ({
                let key = failure_key(target.process_name@);
                let f = old(self).failures();
                let failed = final(failures).count - old(failures).count;
                let entry = |result: ActionLogResult, text: Seq<char>| ActionLogEntryView {
                    feature,
                    process_id: Some(target.process_id),
                    process_name: target.process_name@,
                    action: action_of_result(result),
                    result,
                    reason: text,
                };
                &&& (!(result matches Err(MemoryPriorityError::Failed(_)))) ==> final(failures).last_error
                    == old(failures).last_error
                &&& match result {
                    Ok(outcome) => {
                        &&& final(self).failures() == f.remove(key)
                        &&& r.0 == (if *outcome == MemoryApplyOutcome::Preserved { 1usize } else { 0 })
                        &&& r.1 == (if *outcome == (MemoryApplyOutcome::Applied { loggable: true }) { 1usize } else { 0 })
                        &&& failed == 0
                        &&& final(action_log).view_entries() == old(action_log).view_entries()
                    },
                    Err(MemoryPriorityError::ProcessExited) => {
                        &&& final(self).failures() == f
                        &&& r == (1usize, 0usize) && failed == 0
                        &&& final(action_log).view_entries() == old(action_log).view_entries()
                    },
                    Err(MemoryPriorityError::AccessDenied) => {
                        &&& final(self).failures() == model_record(f, key)
                        &&& r == (1usize, 0usize) && failed == 0
                        &&& final(action_log).view_entries() == log_after(
                            old(action_log).view_entries(),
                            old(action_log).capacity_spec(),
                            entry(
                                ActionLogResult::Skipped,
                                "Skipped because Windows denied memory priority access to the process."@,
                            ),
                        )
                    },
                    Err(e) => {
                        &&& final(self).failures() == model_record(f, key)
                        &&& r == (0usize, 0usize) && failed == 1
                        &&& old(failures).last_error is Some ==> final(failures).last_error == old(failures).last_error
                        &&& old(failures).last_error is None ==> (final(failures).last_error matches Some(m) && m@
                            == "Apply"@ + " "@ + target.process_name@ + " ("@ + decimal(target.process_id as nat) + "): "@
                            + memory_error_text(*e))
                        &&& final(action_log).view_entries() == log_after(
                            old(action_log).view_entries(),
                            old(action_log).capacity_spec(),
                            entry(ActionLogResult::Failed, memory_error_text(*e)),
                        )
                    },
                }
            }),
    {
        match result {
            Ok(outcome) => {
                self.clear_process_failure(target.process_name.as_str());
                match outcome {
                    MemoryApplyOutcome::Applied { loggable } => {
                        if *loggable {
                            (0, 1)
                        } else {
                            (0, 0)
                        }
                    },
                    MemoryApplyOutcome::AlreadyApplied => (0, 0),
                    MemoryApplyOutcome::Preserved => (1, 0),
                }
            },
            Err(MemoryPriorityError::ProcessExited) => (1, 0),
            Err(MemoryPriorityError::AccessDenied) => {
                self.record_process_failure(target.process_name.as_str());
                action_log.record(
                    feature,
                    Some(target.process_id),
                    String::from_str(target.process_name.as_str()),
                    ActionLogResult::Skipped,
                    String::from_str("Skipped because Windows denied memory priority access to the process."),
                );
                (1, 0)
            },
            Err(e) => {
                self.record_process_failure(target.process_name.as_str());
                failures.record("Apply", target.process_id, target.process_name.as_str(), e, feature, action_log);
                (0, 0)
            },
        }
    }

    /// Takes the result of restoring a changed process's priority, logged
    /// under `log_name` and `feature`: success clears its failures; an exited
    /// process is passed over; denied access counts toward suppression and
    /// logs the skip; any other error counts toward suppression and is
    /// recorded. Returns whether the priority was restored.
    pub fn record_restore_result(
        &mut self,
        failures: &mut MemoryPriorityFailures,
        process_id: u32,
        log_name: &str,
        result: &Result<(), MemoryPriorityError>,
        reason: &str,
        feature: ActionLogFeature,
        action_log: &mut ActionLog,
    ) -> (restored: bool)
        requires
            old(self).wf(),
            old(action_log).wf(),
            old(failures).count < usize::MAX,
        ensures
            final(self).wf(),
            final(action_log).wf(),
            final(self).adjustments() == old(self).adjustments(),
            restored == result is Ok,
            ({
                let key = failure_key(log_name@);
                let entry = |result: ActionLogResult, text: Seq<char>| ActionLogEntryView {
                    feature,
                    process_id: Some(process_id),
                    process_name: log_name@,
                    action: action_of_result(result),
                    result,
                    reason: text,
                };
                &&& (!(result matches Err(MemoryPriorityError::Failed(_)))) ==> final(failures).count
                    == old(failures).count && final(failures).last_error == old(failures).last_error
                &&& match result {
                    Ok(()) => {
                        &&& final(self).failures() == old(self).failures().remove(key)
                        &&& final(action_log).view_entries() == old(action_log).view_entries()
                    },
                    Err(MemoryPriorityError::ProcessExited) => {
                        &&& final(self).failures() == old(self).failures()
                        &&& final(action_log).view_entries() == old(action_log).view_entries()
                    },
                    Err(MemoryPriorityError::AccessDenied) => {
                        &&& final(self).failures() == model_record(old(self).failures(), key)
                        &&& final(action_log).view_entries() == log_after(
                            old(action_log).view_entries(),
                            old(action_log).capacity_spec(),
                            entry(
                                ActionLogResult::Skipped,
                                "Skipped restoring previous memory priority because Windows denied access: "@ + reason@
                                    + "."@,
                            ),
                        )
                    },
                    Err(e) => {
                        &&& final(self).failures() == model_record(old(self).failures(), key)
                        &&& final(failures).count == old(failures).count + 1
                        &&& old(failures).last_error is Some ==> final(failures).last_error == old(failures).last_error
                        &&& old(failures).last_error is None ==> (final(failures).last_error matches Some(m) && m@
                            == "Restore"@ + " "@ + log_name@ + " ("@ + decimal(process_id as nat) + "): "@
                            + memory_error_text(*e))
                        &&& final(action_log).view_entries() == log_after(
                            old(action_log).view_entries(),
                            old(action_log).capacity_spec(),
                            entry(ActionLogResult::Failed, memory_error_text(*e)),
                        )
                    },
                }
            }),
    {
        match result {
            Ok(()) => {
                self.clear_process_failure(log_name);
                true
            },
            Err(MemoryPriorityError::ProcessExited) => false,
            Err(MemoryPriorityError::AccessDenied) => {
                self.record_process_failure(log_name);
                let mut text = String::from_str("Skipped restoring previous memory priority because Windows denied access: ");
                text.append(reason);
                text.append(".");
                action_log.record(feature, Some(process_id), String::from_str(log_name), ActionLogResult::Skipped, text);
                false
            },
            Err(e) => {
                self.record_process_failure(log_name);
                failures.record("Restore", process_id, log_name, e, feature, action_log);
                false
            },
        }
    }
}

/// Logs `Applied memory priority to <count>.` under `feature` when a pass
/// applied any.
pub fn log_memory_apply_summary(applied_processes: usize, feature: ActionLogFeature, action_log: &mut ActionLog)
    requires
        old(action_log).wf(),
    ensures
        final(action_log).wf(),
        final(action_log).view_entries() == if applied_processes > 0 {
            log_after(
                old(action_log).view_entries(),
                old(action_log).capacity_spec(),
                memory_summary_entry(
                    feature,
                    ActionLogResult::Applied,
                    "Applied memory priority to "@ + count_label(applied_processes as nat) + "."@,
                ),
            )
        } else {
            old(action_log).view_entries()
        },
{
    if applied_processes > 0 {
        action_log.record(
            feature,
            None,
            String::from_str(memory_priority_summary_process_name(feature)),
            ActionLogResult::Applied,
            memory_priority_apply_summary_message(applied_processes),
        );
    }
}

/// Logs `Restored previous memory priority for <count>: <reason>.` under
/// `feature` when a release restored any.
pub fn log_memory_restore_summary(
    restored_processes: usize,
    reason: &str,
    feature: ActionLogFeature,
    action_log: &mut ActionLog,
)
    requires
        old(action_log).wf(),
    ensures
        final(action_log).wf(),
        final(action_log).view_entries() == if restored_processes > 0 {
            log_after(
                old(action_log).view_entries(),
                old(action_log).capacity_spec(),
                memory_summary_entry(
                    feature,
                    ActionLogResult::Restored,
                    "Restored previous memory priority for "@ + count_label(restored_processes as nat) + ": "@ + reason@
                        + "."@,
                ),
            )
        } else {
            old(action_log).view_entries()
        },
{
    if restored_processes > 0 {
        action_log.record(
            feature,
            None,
            String::from_str(memory_priority_summary_process_name(feature)),
            ActionLogResult::Restored,
            memory_priority_restore_summary_message(restored_processes, reason),
        );
    }
}

/// Why a memory priority pass does not look at processes.
#[derive(Debug, Clone, Copy, PartialEq, Eq, Structural)]
pub enum MemoryPriorityHold {
    AutomationDisabled,
    FeatureDisabled,
    ForegroundUnknown,
    SessionUnknown,
}

impl MemoryPriorityHold {
    /// Whether the hold turns the feature off (and forgets the failures)
    /// rather than pausing it.
    pub fn turns_off(&self) -> (r: bool)
        ensures
            r == (*self is AutomationDisabled || *self is FeatureDisabled),
    {
        match self {
            MemoryPriorityHold::AutomationDisabled | MemoryPriorityHold::FeatureDisabled => true,
            _ => false,
        }
    }

    /// The reason the changed processes are released with.
    pub fn reason(&self) -> (r: &'static str)
        ensures
            r@ == match *self {
                MemoryPriorityHold::AutomationDisabled => "automation disabled"@,
                MemoryPriorityHold::FeatureDisabled => "memory priority defaults disabled"@,
                MemoryPriorityHold::ForegroundUnknown => "foreground app is unknown"@,
                MemoryPriorityHold::SessionUnknown => "current Windows session is unknown"@,
            },
    {
        match self {
            MemoryPriorityHold::AutomationDisabled => "automation disabled",
            MemoryPriorityHold::FeatureDisabled => "memory priority defaults disabled",
            MemoryPriorityHold::ForegroundUnknown => "foreground app is unknown",
            MemoryPriorityHold::SessionUnknown => "current Windows session is unknown",
        }
    }
}

/// Whether the foreground app gets another memory priority than the
/// background.
pub fn memory_foreground_sensitive(settings: &MemoryPrioritySettings) -> (r: bool)
    ensures
        r == (settings.foreground_detection_enabled && settings.foreground_priority != settings.background_priority),
{
    settings.foreground_detection_enabled && settings.foreground_priority != settings.background_priority
}

/// The hold a memory priority pass starts with, if any: automation off, the
/// defaults off, the foreground app unknown while it matters, or this
/// process's session unknown.
pub fn memory_priority_hold(
    automation_enabled: bool,
    settings: &MemoryPrioritySettings,
    foreground_process_id: Option<u32>,
    current_session_id: Option<u32>,
) -> (r: Option<MemoryPriorityHold>)
    ensures
        r == if !automation_enabled {
            Some(MemoryPriorityHold::AutomationDisabled)
        } else if !settings.enabled {
            Some(MemoryPriorityHold::FeatureDisabled)
        } else if settings.foreground_detection_enabled && settings.foreground_priority != settings.background_priority
            && foreground_process_id is None {
            Some(MemoryPriorityHold::ForegroundUnknown)
        } else if current_session_id is None {
            Some(MemoryPriorityHold::SessionUnknown)
        } else {
            None
        },
{
    if !automation_enabled {
        Some(MemoryPriorityHold::AutomationDisabled)
    } else if !settings.enabled {
        Some(MemoryPriorityHold::FeatureDisabled)
    } else if memory_foreground_sensitive(settings) && foreground_process_id.is_none() {
        Some(MemoryPriorityHold::ForegroundUnknown)
    } else if current_session_id.is_none() {
        Some(MemoryPriorityHold::SessionUnknown)
    } else {
        None
    }
}

/// The memory priority targets of a pass, in list order: every process but
/// the idle one, this one, other sessions' and the core Windows processes,
/// whose default (foreground or background) names a priority, each with the
/// settings' preserve flags.
pub open spec fn memory_targets_seq(
    ps: Seq<ProcessInfo>,
    current_process_id: u32,
    current_session_id: u32,
    foreground_process_id: Option<u32>,
    foreground_name: Option<Seq<char>>,
    settings: MemoryPrioritySettings,
) -> Seq<MemoryPriorityTargetView>
    decreases ps.len(),
{
    if ps.len() == 0 {
        Seq::empty()
    } else {
        let s = memory_targets_seq(
            ps.drop_last(),
            current_process_id,
            current_session_id,
            foreground_process_id,
            foreground_name,
            settings,
        );
        let p = ps.last();
        let foreground = settings.foreground_detection_enabled && gpu_foreground(p, foreground_process_id, foreground_name);
        let chosen = if foreground { settings.foreground_priority } else { settings.background_priority };
        if p.id == 0 || p.id == current_process_id || p.session_id != Some(current_session_id) || list_contains_name(
            core_builtin_exclusions(),
            p.name@,
        ) {
            s
        } else {
            match chosen {
                Some(priority) => s.push(
                    MemoryPriorityTargetView {
                        process_id: p.id,
                        process_name: p.name@,
                        priority,
                        foreground,
                        preserve_foreground_priority: settings.preserve_foreground_priority,
                        preserve_background_priority: settings.preserve_background_priority,
                    },
                ),
                None => s,
            }
        }
    }
}

/// The memory priority targets of a pass (see `memory_targets_seq`).
pub fn memory_priority_targets(
    processes: &Vec<ProcessInfo>,
    current_process_id: u32,
    current_session_id: u32,
    foreground_process_id: Option<u32>,
    foreground_name: Option<&str>,
    settings: &MemoryPrioritySettings,
) -> (r: Vec<MemoryPriorityTarget>)
    ensures
        r@.map_values(|t: MemoryPriorityTarget| t@) == memory_targets_seq(
            processes@,
            current_process_id,
            current_session_id,
            foreground_process_id,
            match foreground_name {
                Some(n) => Some(n@),
                None => None,
            },
            *settings,
        ),
{
    let ghost fname = match foreground_name {
        Some(n) => Some(n@),
        None => None::<Seq<char>>,
    };
    let mut out: Vec<MemoryPriorityTarget> = Vec::new();
    let mut i: usize = 0;
    proof {
        assert(out@.map_values(|t: MemoryPriorityTarget| t@) =~= Seq::<MemoryPriorityTargetView>::empty());
    }
    while i < processes.len()
        invariant
            i <= processes@.len(),
            fname == match foreground_name {
                Some(n) => Some(n@),
                None => None::<Seq<char>>,
            },
            out@.map_values(|t: MemoryPriorityTarget| t@) == memory_targets_seq(
                processes@.subrange(0, i as int),
                current_process_id,
                current_session_id,
                foreground_process_id,
                fname,
                *settings,
            ),
        decreases processes@.len() - i,
    {
        let p = &processes[i];
        let ghost next = processes@.subrange(0, i + 1);
        proof {
            assert(next.drop_last() =~= processes@.subrange(0, i as int));
            assert(next.last() == processes@[i as int]);
        }
        if !should_skip_process(p.id, p.name.as_str(), current_process_id, current_session_id, p.session_id) {
            let by_name = match foreground_name {
                Some(n) => same_name(n, p.name.as_str()),
                None => false,
            };
            let foreground = settings.foreground_detection_enabled && (foreground_process_id == Some(p.id) || by_name);
            let chosen = if foreground {
                settings.foreground_priority
            } else {
                settings.background_priority
            };
            match chosen {
                Some(priority) => {
                    let ghost before = out@.map_values(|t: MemoryPriorityTarget| t@);
                    let target = MemoryPriorityTarget {
                        process_id: p.id,
                        process_name: String::from_str(p.name.as_str()),
                        priority,
                        foreground,
                        preserve_foreground_priority: settings.preserve_foreground_priority,
                        preserve_background_priority: settings.preserve_background_priority,
                    };
                    let ghost tv = target@;
                    out.push(target);
                    proof {
                        assert(out@.map_values(|t: MemoryPriorityTarget| t@) =~= before.push(tv));
                    }
                },
                None => {},
            }
        }
        i = i + 1;
    }
    proof {
        assert(processes@.subrange(0, processes@.len() as int) =~= processes@);
    }
    out
}

/// The targets' names by process id; a later target of the same id wins.
pub open spec fn target_names_map(ts: Seq<MemoryPriorityTargetView>) -> Map<u32, Seq<char>>
    decreases ts.len(),
{
    if ts.len() == 0 {
        Map::empty()
    } else {
        target_names_map(ts.drop_last()).insert(ts.last().process_id, ts.last().process_name)
    }
}

/// The targets' names by process id (see `target_names_map`): the names a
/// release logs, and the ids that stay changed.
pub fn target_names_by_id(targets: &Vec<MemoryPriorityTarget>) -> (r: BTreeMap<u32, String>)
    ensures
        r@.map_values(|n: String| n@) == target_names_map(targets@.map_values(|t: MemoryPriorityTarget| t@)),
{
    proof {
        broadcast use vstd::std_specs::btree::group_btree_axioms;
    }
    let ghost views = targets@.map_values(|t: MemoryPriorityTarget| t@);
    let mut out: BTreeMap<u32, String> = BTreeMap::new();
    let mut i: usize = 0;
    proof {
        assert(out@.map_values(|n: String| n@) =~= Map::<u32, Seq<char>>::empty());
        assert(views.subrange(0, 0) =~= Seq::<MemoryPriorityTargetView>::empty());
    }
    while i < targets.len()
        invariant
            i <= targets@.len(),
            views == targets@.map_values(|t: MemoryPriorityTarget| t@),
            out@.map_values(|n: String| n@) == target_names_map(views.subrange(0, i as int)),
        decreases targets@.len() - i,
    {
        let ghost before = out@.map_values(|n: String| n@);
        let name = String::from_str(targets[i].process_name.as_str());
        let ghost nv = name@;
        out.insert(targets[i].process_id, name);
        proof {
            let next = views.subrange(0, i + 1);
            assert(next.drop_last() =~= views.subrange(0, i as int));
            assert(next.last() == targets@[i as int]@);
            assert(out@.map_values(|n: String| n@) =~= before.insert(targets@[i as int].process_id, nv));
        }
        i = i + 1;
    }
    proof {
        assert(views.subrange(0, targets@.len() as int) =~= views);
    }
    out
}

/// What a memory priority pass reports.
pub struct MemoryPrioritySnapshot {
    pub enabled: bool,
    pub adjusted_processes: usize,
    pub skipped_processes: usize,
    pub failed_processes: usize,
    pub adjusted_apps: Vec<String>,
    pub last_error: Option<String>,
}

impl MemoryPriorityManager {
    /// Ends a held pass once every changed process was released with the
    /// hold's reason (`failures` are the release's): every failure is
    /// forgotten when the hold turns the feature off. The report: enabled
    /// unless turned off, the release's failures, nothing adjusted or
    /// skipped.
    pub fn hold_snapshot(&mut self, hold: MemoryPriorityHold, failures: MemoryPriorityFailures) -> (r:
        MemoryPrioritySnapshot)
        requires
            old(self).wf(),
        ensures
            final(self).wf(),
            final(self).adjustments() == old(self).adjustments(),
            final(self).failures() == if hold is AutomationDisabled || hold is FeatureDisabled {
                Map::<Seq<char>, FailureState>::empty()
            } else {
                old(self).failures()
            },
            r.enabled == !(hold is AutomationDisabled || hold is FeatureDisabled),
            r.adjusted_processes == 0,
            r.skipped_processes == 0,
            r.failed_processes == failures.count,
            r.adjusted_apps@.len() == 0,
            r.last_error == failures.last_error,
    {
        let off = hold.turns_off();
        if off {
            self.clear_failure_suppression();
        }
        MemoryPrioritySnapshot {
            enabled: !off,
            adjusted_processes: 0,
            skipped_processes: 0,
            failed_processes: failures.count,
            adjusted_apps: Vec::new(),
            last_error: failures.last_error,
        }
    }

    /// The report of a pass whose process list could not be read, once every
    /// changed process was released: enabled, the release's failures and the
    /// list's, the list's error as the last error, nothing adjusted or
    /// skipped.
    pub fn list_unavailable_snapshot(&self, error: String, failures: MemoryPriorityFailures) -> (r:
        MemoryPrioritySnapshot)
        requires
            failures.count < usize::MAX,
        ensures
            r.enabled,
            r.adjusted_processes == 0,
            r.skipped_processes == 0,
            r.failed_processes == failures.count + 1,
            r.adjusted_apps@.len() == 0,
            r.last_error == Some(error),
    {
        MemoryPrioritySnapshot {
            enabled: true,
            adjusted_processes: 0,
            skipped_processes: 0,
            failed_processes: failures.count + 1,
            adjusted_apps: Vec::new(),
            last_error: Some(error),
        }
    }

    /// The report of a finished pass: enabled, the processes still changed
    /// and their app names, the skipped count and the failures.
    pub fn pass_snapshot(&self, skipped_processes: usize, adjusted_apps: Vec<String>, failures: MemoryPriorityFailures) -> (r:
        MemoryPrioritySnapshot)
        ensures
            r.enabled,
            r.adjusted_processes == self.adjusted@.len(),
            r.skipped_processes == skipped_processes,
            r.failed_processes == failures.count,
            r.adjusted_apps@ == adjusted_apps@,
            r.last_error == failures.last_error,
    {
        proof {
            broadcast use vstd::std_specs::btree::group_btree_axioms;
        }
        MemoryPrioritySnapshot {
            enabled: true,
            adjusted_processes: self.adjusted.len(),
            skipped_processes,
            failed_processes: failures.count,
            adjusted_apps,
            last_error: failures.last_error,
        }
    }
}

} // verus!
