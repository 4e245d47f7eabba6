//! GPU scheduling priority: raw classes, status classification, labels, the
//! summary messages of the GPU priority feature, and the state it keeps
//! between passes (processes it changed, failures, processes waiting for a
//! GPU context, summaries not yet logged).
use std::collections::BTreeMap;
use vstd::prelude::*;

use crate::action_log::{action_of_result, log_after, ActionLog, ActionLogEntryView, ActionLogFeature, ActionLogResult};
use crate::rules::{
    failure_key, failure_keys_of, model_after_check, model_newly_suppressed, model_record, model_suppressed, tracker_key,
    ExecutionFailureTracker, FailureState,
};
use crate::text::{insert_sorted_unique, remove_sorted, same_name, same_name_seq, string_views, strictly_sorted};

use crate::config::{GpuPrioritySettings, ProcessGpuPriority, ProcessGpuPrioritySetting};
use crate::foreground::process_list::{
    ProcessInfo, contains_process_name, core_builtin_exclusions, core_builtin_process_exclusions, count_label,
    list_contains_name, process_count_label,
};
use crate::text::{decimal, decimal_string, hex_digits, push_hex};

verus! {

/// `NTSTATUS` of a process that is terminating.
pub const STATUS_PROCESS_IS_TERMINATING: u32 = 0xC000010A;

/// `NTSTATUS` of an invalid parameter; for GPU priority, a process without a
/// GPU scheduling context yet.
pub const STATUS_INVALID_PARAMETER: u32 = 0xC000000D;

/// How often a summary of skipped or applied processes may be logged, in
/// nanoseconds (thirty seconds).
pub const GPU_PRIORITY_SUMMARY_LOG_INTERVAL_NANOS: u128 = 30_000_000_000;

/// Win32 `ERROR_ACCESS_DENIED`.
pub const ERROR_ACCESS_DENIED: u32 = 5;

/// Win32 `ERROR_INVALID_PARAMETER`.
pub const ERROR_INVALID_PARAMETER: u32 = 87;

/// Why a GPU priority operation failed.
#[derive(Debug, Clone, PartialEq, Eq)]
pub enum GpuPriorityError {
    AccessDenied,
    ProcessExited,
    GpuContextUnavailable,
    Failed(String),
}

/// The unsigned bits of a signed status code.
pub open spec fn status_bits(status: i32) -> nat {
    if status >= 0 { status as nat } else { (status + 0x1_0000_0000) as nat }
}

/// `NTSTATUS 0x<8 upper-case hex digits>.`
pub open spec fn ntstatus_message(status: i32) -> Seq<char> {
    "NTSTATUS 0x"@ + hex_digits(status_bits(status), 8, true) + "."@
}

/// The text of an `NTSTATUS` failure.
pub fn ntstatus_text(status: i32) -> (r: String)
    ensures
        r@ == ntstatus_message(status),
{
    let bits: u64 = if status >= 0 { status as u64 } else { (status as i64 + 0x1_0000_0000) as u64 };
    let mut s = String::from_str("NTSTATUS 0x");
    push_hex(&mut s, bits, 8, true);
    s.append(".");
    s
}

/// `OpenProcess(<pid>) failed with error <error>.`
pub open spec fn open_process_message(process_id: u32, error: u32) -> Seq<char> {
    "OpenProcess("@ + decimal(process_id as nat) + ") failed with error "@ + decimal(error as nat) + "."@
}

pub fn open_process_text(process_id: u32, error: u32) -> (r: String)
    ensures
        r@ == open_process_message(process_id, error),
{
    let mut s = String::from_str("OpenProcess(");
    s.append(decimal_string(process_id as u64).as_str());
    s.append(") failed with error ");
    s.append(decimal_string(error as u64).as_str());
    s.append(".");
    s
}

/// Classifies the status of a GPU scheduling call: success, a terminating
/// process, a process without a GPU context yet, or a failure.
pub fn ntstatus_result(status: i32) -> (r: Result<(), GpuPriorityError>)
    ensures
        status >= 0 ==> r is Ok,
        status < 0 && status_bits(status) == STATUS_PROCESS_IS_TERMINATING ==> r == Err::<(), GpuPriorityError>(
            GpuPriorityError::ProcessExited,
        ),
        status < 0 && status_bits(status) == STATUS_INVALID_PARAMETER ==> r == Err::<(), GpuPriorityError>(
            GpuPriorityError::GpuContextUnavailable,
        ),
        status < 0 && status_bits(status) != STATUS_PROCESS_IS_TERMINATING && status_bits(status)
            != STATUS_INVALID_PARAMETER ==> r is Err && r->Err_0 is Failed && r->Err_0->Failed_0@
            == ntstatus_message(status),
{
    if status >= 0 {
        return Ok(());
    }
    let bits: u64 = (status as i64 + 0x1_0000_0000) as u64;
    if bits == STATUS_PROCESS_IS_TERMINATING as u64 {
        Err(GpuPriorityError::ProcessExited)
    } else if bits == STATUS_INVALID_PARAMETER as u64 {
        Err(GpuPriorityError::GpuContextUnavailable)
    } else {
        Err(GpuPriorityError::Failed(ntstatus_text(status)))
    }
}

/// Classifies a failed `OpenProcess`: access denied, an exited process, or a
/// failure.
pub fn open_process_error(process_id: u32, error: u32) -> (r: GpuPriorityError)
    ensures
        error == ERROR_ACCESS_DENIED ==> r == GpuPriorityError::AccessDenied,
        error == ERROR_INVALID_PARAMETER ==> r == GpuPriorityError::ProcessExited,
        error != ERROR_ACCESS_DENIED && error != ERROR_INVALID_PARAMETER ==> r is Failed
            && r->Failed_0@ == open_process_message(process_id, error),
{
    if error == ERROR_ACCESS_DENIED {
        GpuPriorityError::AccessDenied
    } else if error == ERROR_INVALID_PARAMETER {
        GpuPriorityError::ProcessExited
    } else {
        GpuPriorityError::Failed(open_process_text(process_id, error))
    }
}

pub open spec fn gpu_raw(priority: ProcessGpuPriority) -> u32 {
    match priority {
        ProcessGpuPriority::Realtime => 5,
        ProcessGpuPriority::High => 4,
        ProcessGpuPriority::AboveNormal => 3,
        ProcessGpuPriority::Normal => 2,
        ProcessGpuPriority::Idle => 0,
        ProcessGpuPriority::BelowNormal => 1,
    }
}

/// The WDDM scheduling priority class of a priority.
pub fn gpu_priority_raw(priority: ProcessGpuPriority) -> (r: u32)
    ensures
        r == gpu_raw(priority),
{
    match priority {
        ProcessGpuPriority::Realtime => 5,
        ProcessGpuPriority::High => 4,
        ProcessGpuPriority::AboveNormal => 3,
        ProcessGpuPriority::Normal => 2,
        ProcessGpuPriority::Idle => 0,
        ProcessGpuPriority::BelowNormal => 1,
    }
}

/// Whether a process keeps its current priority: the foreground app when it
/// already has at least the desired rank, a background process when it has
/// at most the desired rank, each only when preserving is on.
pub fn should_preserve_priority(
    foreground: bool,
    preserve_foreground: bool,
    preserve_background: bool,
    current_rank: u32,
    desired_rank: u32,
) -> (r: bool)
    ensures
        r == if foreground {
            preserve_foreground && current_rank >= desired_rank
        } else {
            preserve_background && current_rank <= desired_rank
        },
{
    if foreground {
        preserve_foreground && current_rank >= desired_rank
    } else {
        preserve_background && current_rank <= desired_rank
    }
}

pub open spec fn gpu_label(priority: ProcessGpuPriority) -> Seq<char> {
    match priority {
        ProcessGpuPriority::Realtime => "Realtime"@,
        ProcessGpuPriority::High => "High"@,
        ProcessGpuPriority::AboveNormal => "Above Normal"@,
        ProcessGpuPriority::Normal => "Normal"@,
        ProcessGpuPriority::BelowNormal => "Below Normal"@,
        ProcessGpuPriority::Idle => "Idle"@,
    }
}

pub fn gpu_priority_label(priority: ProcessGpuPriority) -> (r: &'static str)
    ensures
        r@ == gpu_label(priority),
{
    match priority {
        ProcessGpuPriority::Realtime => "Realtime",
        ProcessGpuPriority::High => "High",
        ProcessGpuPriority::AboveNormal => "Above Normal",
        ProcessGpuPriority::Normal => "Normal",
        ProcessGpuPriority::BelowNormal => "Below Normal",
        ProcessGpuPriority::Idle => "Idle",
    }
}

/// The label of a raw class; an unknown class reads `Unknown (<n>)`.
pub open spec fn gpu_raw_label(priority: u32) -> Seq<char> {
    if priority == 0 {
        "Idle"@
    } else if priority == 1 {
        "Below Normal"@
    } else if priority == 2 {
        "Normal"@
    } else if priority == 3 {
        "Above Normal"@
    } else if priority == 4 {
        "High"@
    } else if priority == 5 {
        "Realtime"@
    } else {
        "Unknown ("@ + decimal(priority as nat) + ")"@
    }
}

/// The label of a raw class; an unknown class reads `Unknown (<n>)`.
pub fn gpu_priority_raw_label(priority: u32) -> (r: String)
    ensures
        r@ == gpu_raw_label(priority),
        r@ == if priority == 0 {
            "Idle"@
        } else if priority == 1 {
            "Below Normal"@
        } else if priority == 2 {
            "Normal"@
        } else if priority == 3 {
            "Above Normal"@
        } else if priority == 4 {
            "High"@
        } else if priority == 5 {
            "Realtime"@
        } else {
            "Unknown ("@ + decimal(priority as nat) + ")"@
        },
{
    match priority {
        0 => String::from_str("Idle"),
        1 => String::from_str("Below Normal"),
        2 => String::from_str("Normal"),
        3 => String::from_str("Above Normal"),
        4 => String::from_str("High"),
        5 => String::from_str("Realtime"),
        other => {
            let mut s = String::from_str("Unknown (");
            s.append(decimal_string(other as u64).as_str());
            s.append(")");
            s
        },
    }
}

/// The text of a GPU priority error.
pub fn gpu_priority_error_message(error: GpuPriorityError) -> (r: String)
    ensures
        r@ == match error {
            GpuPriorityError::AccessDenied => "Access denied."@,
            GpuPriorityError::ProcessExited => "Process exited."@,
            GpuPriorityError::GpuContextUnavailable => "GPU scheduling priority is not available yet for this process."@,
            GpuPriorityError::Failed(m) => m@,
        },
{
    match error {
        GpuPriorityError::AccessDenied => String::from_str("Access denied."),
        GpuPriorityError::ProcessExited => String::from_str("Process exited."),
        GpuPriorityError::GpuContextUnavailable => String::from_str(
            "GPU scheduling priority is not available yet for this process.",
        ),
        GpuPriorityError::Failed(message) => message,
    }
}

/// `Applied GPU priority to <count>.`
pub fn gpu_priority_apply_summary_message(count: usize) -> (r: String)
    ensures
        r@ == "Applied GPU priority to "@ + count_label(count as nat) + "."@,
{
    let mut s = String::from_str("Applied GPU priority to ");
    s.append(process_count_label(count).as_str());
    s.append(".");
    s
}

pub open spec fn skip_summary(pending: nat, denied: nat) -> Seq<char> {
    if denied == 0 {
        "Skipped GPU priority for "@ + count_label(pending) + ": waiting for GPU scheduling context."@
    } else if pending == 0 {
        "Skipped GPU priority for "@ + count_label(denied) + ": Windows denied access."@
    } else {
        "Skipped GPU priority for "@ + count_label(pending + denied) + ": "@ + count_label(pending)
            + " waiting for GPU scheduling context, "@ + count_label(denied) + " denied access."@
    }
}

/// The summary of processes skipped while waiting for a GPU context or
/// denied by Windows.
pub fn gpu_priority_skip_summary_message(pending_context_count: usize, access_denied_count: usize) -> (r:
    String)
    requires
        pending_context_count + access_denied_count <= usize::MAX,
    ensures
        r@ == skip_summary(pending_context_count as nat, access_denied_count as nat),
{
    let mut s = String::from_str("Skipped GPU priority for ");
    if access_denied_count == 0 {
        s.append(process_count_label(pending_context_count).as_str());
        s.append(": waiting for GPU scheduling context.");
    } else if pending_context_count == 0 {
        s.append(process_count_label(access_denied_count).as_str());
        s.append(": Windows denied access.");
    } else {
        s.append(process_count_label(pending_context_count + access_denied_count).as_str());
        s.append(": ");
        s.append(process_count_label(pending_context_count).as_str());
        s.append(" waiting for GPU scheduling context, ");
        s.append(process_count_label(access_denied_count).as_str());
        s.append(" denied access.");
    }
    s
}

/// Whether a summary may be logged now: never logged, or logged at least the
/// interval ago (times in nanoseconds on one clock; an earlier `now` counts
/// as no time passed).
pub fn gpu_priority_summary_log_due(last_logged_at: Option<u128>, now: u128) -> (r: bool)
    ensures
        r == match last_logged_at {
            None => true,
            Some(last) => (if now >= last { now - last } else { 0 }) >= GPU_PRIORITY_SUMMARY_LOG_INTERVAL_NANOS,
        },
{
    match last_logged_at {
        None => true,
        Some(last) => {
            let elapsed = if now >= last { now - last } else { 0 };
            elapsed >= GPU_PRIORITY_SUMMARY_LOG_INTERVAL_NANOS
        },
    }
}

/// The status line of the GPU priority feature: failures first, then denied,
/// suppressed and pending processes.
pub fn gpu_priority_status_message(
    pending_processes: usize,
    denied_processes: usize,
    suppressed_processes: usize,
    failed_processes: usize,
) -> (r: String)
    ensures
        r@ == if failed_processes > 0 {
            "GPU priority defaults active with failures."@
        } else if denied_processes > 0 {
            "GPU priority defaults active; some protected processes were skipped."@
        } else if suppressed_processes > 0 {
            "GPU priority defaults active; repeated failures are being suppressed."@
        } else if pending_processes > 0 {
            "GPU priority defaults active; waiting for GPU scheduling contexts."@
        } else {
            "GPU priority defaults active."@
        },
{
    if failed_processes > 0 {
        String::from_str("GPU priority defaults active with failures.")
    } else if denied_processes > 0 {
        String::from_str("GPU priority defaults active; some protected processes were skipped.")
    } else if suppressed_processes > 0 {
        String::from_str("GPU priority defaults active; repeated failures are being suppressed.")
    } else if pending_processes > 0 {
        String::from_str("GPU priority defaults active; waiting for GPU scheduling contexts.")
    } else {
        String::from_str("GPU priority defaults active.")
    }
}

/// Whether GPU priority leaves a process alone: the core Windows processes.
pub fn is_builtin_excluded(process_name: &str) -> (r: bool)
    ensures
        r == list_contains_name(core_builtin_exclusions(), process_name@),
{
    let list = core_builtin_process_exclusions();
    contains_process_name(list.as_slice(), process_name)
}

/// What GPU priority remembers of a process it changed.
pub struct AdjustedProcess {
    pub process_name: String,
    pub previous_priority_raw: u32,
    pub applied_priority: ProcessGpuPriority,
}

/// A changed process as plain values.
pub struct AdjustedProcessView {
    pub process_name: Seq<char>,
    pub previous_priority_raw: u32,
    pub applied_priority: ProcessGpuPriority,
}

impl View for AdjustedProcess {
    type V = AdjustedProcessView;

    open spec fn view(&self) -> AdjustedProcessView {
        AdjustedProcessView {
            process_name: self.process_name@,
            previous_priority_raw: self.previous_priority_raw,
            applied_priority: self.applied_priority,
        }
    }
}

/// What applying GPU priority to a process comes to, once its current class
/// is known.
#[derive(Debug, Clone, Copy, PartialEq, Eq, Structural)]
pub enum GpuApplyPlan {
    /// The process keeps its priority; the class it had before this feature
    /// changed it is to be restored, if it was changed.
    Preserve { restore_raw: Option<u32> },
    /// Nothing to do.
    AlreadyApplied,
    /// The class is to be set to `desired_raw` and read back; then the change
    /// is recorded with `baseline_raw` as the class to restore.
    Change { desired_raw: u32, baseline_raw: u32, loggable: bool },
    /// The class is already right, but the priority recorded differs: the
    /// change is recorded with `baseline_raw` as the class to restore.
    Record { baseline_raw: u32 },
}

/// The result of applying GPU priority to a process.
#[derive(Debug, Clone, Copy, PartialEq, Eq, Structural)]
pub enum GpuApplyOutcome {
    Applied { loggable: bool },
    AlreadyApplied,
    Preserved,
}

/// The record kept for a process id when it is still the same process by
/// name.
pub open spec fn reusable_adjustment(
    adjusted: Map<u32, AdjustedProcessView>,
    process_id: u32,
    process_name: Seq<char>,
) -> Option<AdjustedProcessView> {
    if adjusted.contains_key(process_id) && same_name_seq(adjusted[process_id].process_name, process_name) {
        Some(adjusted[process_id])
    } else {
        None
    }
}

/// What applying `priority` to a process whose class is `current_raw` comes
/// to: a preserved priority restores the class this feature replaced; a
/// record with the same priority and the class already right needs nothing;
/// otherwise the class is set when it differs, and the change is recorded
/// against the class first replaced. A change is logged when the priority
/// recorded before (if any) differs.
pub open spec fn gpu_apply_plan(
    adjusted: Map<u32, AdjustedProcessView>,
    process_id: u32,
    process_name: Seq<char>,
    priority: ProcessGpuPriority,
    foreground: bool,
    preserve_foreground: bool,
    preserve_background: bool,
    current_raw: u32,
) -> GpuApplyPlan {
    let existing = reusable_adjustment(adjusted, process_id, process_name);
    let desired = gpu_raw(priority);
    let baseline = match existing {
        Some(a) => a.previous_priority_raw,
        None => current_raw,
    };
    let preserve = if foreground {
        preserve_foreground && baseline >= desired
    } else {
        preserve_background && baseline <= desired
    };
    if preserve {
        GpuApplyPlan::Preserve {
            restore_raw: if adjusted.contains_key(process_id) {
                Some(adjusted[process_id].previous_priority_raw)
            } else {
                None
            },
        }
    } else if existing matches Some(a) && a.applied_priority == priority && current_raw == desired {
        GpuApplyPlan::AlreadyApplied
    } else if current_raw != desired {
        GpuApplyPlan::Change {
            desired_raw: desired,
            baseline_raw: baseline,
            loggable: match existing {
                Some(a) => a.applied_priority != priority,
                None => true,
            },
        }
    } else if existing is None {
        GpuApplyPlan::AlreadyApplied
    } else {
        GpuApplyPlan::Record { baseline_raw: baseline }
    }
}

/// Applying a priority again to a process this feature changed to it, whose
/// class is still the one set, does nothing (unless the priority is now
/// preserved).
pub proof fn law_gpu_apply_is_idempotent(
    adjusted: Map<u32, AdjustedProcessView>,
    process_id: u32,
    process_name: Seq<char>,
    baseline_raw: u32,
    priority: ProcessGpuPriority,
    foreground: bool,
    preserve_foreground: bool,
    preserve_background: bool,
)
    requires
        !(if foreground {
            preserve_foreground && baseline_raw >= gpu_raw(priority)
        } else {
            preserve_background && baseline_raw <= gpu_raw(priority)
        }),
    ensures
        gpu_apply_plan(
            adjusted.insert(
                process_id,
                AdjustedProcessView { process_name, previous_priority_raw: baseline_raw, applied_priority: priority },
            ),
            process_id,
            process_name,
            priority,
            foreground,
            preserve_foreground,
            preserve_background,
            gpu_raw(priority),
        ) == GpuApplyPlan::AlreadyApplied,
{
}

/// Changing a process again keeps, as the class to restore, the one this
/// feature first replaced; a preserved priority restores that class.
pub proof fn law_gpu_restores_the_first_class(
    adjusted: Map<u32, AdjustedProcessView>,
    process_id: u32,
    process_name: Seq<char>,
    first_raw: u32,
    applied: ProcessGpuPriority,
    priority: ProcessGpuPriority,
    foreground: bool,
    preserve_foreground: bool,
    preserve_background: bool,
    current_raw: u32,
)
    ensures
        ({
            let m = adjusted.insert(
                process_id,
                AdjustedProcessView { process_name, previous_priority_raw: first_raw, applied_priority: applied },
            );
            match gpu_apply_plan(
                m,
                process_id,
                process_name,
                priority,
                foreground,
                preserve_foreground,
                preserve_background,
                current_raw,
            ) {
                GpuApplyPlan::Change { baseline_raw, .. } => baseline_raw == first_raw,
                GpuApplyPlan::Record { baseline_raw } => baseline_raw == first_raw,
                GpuApplyPlan::Preserve { restore_raw } => restore_raw == Some(first_raw),
                GpuApplyPlan::AlreadyApplied => true,
            }
        }),
{
}

/// The class read back after a change either is the one requested, or the
/// change failed: `GPU priority remained <class> after requesting <priority>.`
pub fn gpu_priority_refresh_result(refreshed_raw: u32, priority: ProcessGpuPriority) -> (r: Result<(), GpuPriorityError>)
    ensures
        refreshed_raw == gpu_raw(priority) <==> r is Ok,
        r matches Err(e) ==> e matches GpuPriorityError::Failed(m) && m@ == "GPU priority remained "@
            + gpu_raw_label(refreshed_raw) + " after requesting "@ + gpu_label(priority) + "."@,
{
    if refreshed_raw == gpu_priority_raw(priority) {
        Ok(())
    } else {
        let mut m = String::from_str("GPU priority remained ");
        m.append(gpu_priority_raw_label(refreshed_raw).as_str());
        m.append(" after requesting ");
        m.append(gpu_priority_label(priority));
        m.append(".");
        Err(GpuPriorityError::Failed(m))
    }
}

/// The class read back after a restore either is the one restored, or the
/// restore failed: `GPU priority remained <class> after restoring <class>.`
pub fn gpu_priority_restore_refresh_result(refreshed_raw: u32, previous_raw: u32) -> (r: Result<(), GpuPriorityError>)
    ensures
        refreshed_raw == previous_raw <==> r is Ok,
        r matches Err(e) ==> e matches GpuPriorityError::Failed(m) && m@ == "GPU priority remained "@
            + gpu_raw_label(refreshed_raw) + " after restoring "@ + gpu_raw_label(previous_raw) + "."@,
{
    if refreshed_raw == previous_raw {
        Ok(())
    } else {
        let mut m = String::from_str("GPU priority remained ");
        m.append(gpu_priority_raw_label(refreshed_raw).as_str());
        m.append(" after restoring ");
        m.append(gpu_priority_raw_label(previous_raw).as_str());
        m.append(".");
        Err(GpuPriorityError::Failed(m))
    }
}

/// The text of a GPU priority error.
pub open spec fn gpu_error_text(error: GpuPriorityError) -> Seq<char> {
    match error {
        GpuPriorityError::AccessDenied => "Access denied."@,
        GpuPriorityError::ProcessExited => "Process exited."@,
        GpuPriorityError::GpuContextUnavailable => "GPU scheduling priority is not available yet for this process."@,
        GpuPriorityError::Failed(m) => m@,
    }
}

/// The failures of one GPU priority pass: how many, and the first one's
/// description.
pub struct GpuPriorityFailures {
    pub count: usize,
    pub last_error: Option<String>,
}

impl GpuPriorityFailures {
    pub fn new() -> (r: Self)
        ensures
            r.count == 0,
            r.last_error is None,
    {
        GpuPriorityFailures { count: 0, last_error: None }
    }

    /// Counts a failure, keeps `<action> <process> (<pid>): <message>` for
    /// the first one, and logs it.
    pub fn record(
        &mut self,
        action: &str,
        process_id: u32,
        process_name: &str,
        error: &GpuPriorityError,
        action_log: &mut ActionLog,
    )
        requires
            old(self).count < usize::MAX,
            old(action_log).wf(),
        ensures
            final(self).count == old(self).count + 1,
            old(self).last_error is Some ==> final(self).last_error == old(self).last_error,
            old(self).last_error is None ==> (final(self).last_error matches Some(e) && e@ == action@ + " "@
                + process_name@ + " ("@ + decimal(process_id as nat) + "): "@ + gpu_error_text(*error)),
            final(action_log).wf(),
            final(action_log).view_entries() == log_after(
                old(action_log).view_entries(),
                old(action_log).capacity_spec(),
                ActionLogEntryView {
                    feature: ActionLogFeature::GpuPriority,
                    process_id: Some(process_id),
                    process_name: process_name@,
                    action: action_of_result(ActionLogResult::Failed),
                    result: ActionLogResult::Failed,
                    reason: gpu_error_text(*error),
                },
            ),
    {
        let message = gpu_priority_error_message(error.clone_error());
        if self.last_error.is_none() {
            let mut e = String::from_str(action);
            e.append(" ");
            e.append(process_name);
            e.append(" (");
            e.append(decimal_string(process_id as u64).as_str());
            e.append("): ");
            e.append(message.as_str());
            self.last_error = Some(e);
        }
        self.count = self.count + 1;
        action_log.record(
            ActionLogFeature::GpuPriority,
            Some(process_id),
            String::from_str(process_name),
            ActionLogResult::Failed,
            message,
        );
    }
}

impl GpuPriorityError {
    /// A copy of the error.
    pub fn clone_error(&self) -> (r: GpuPriorityError)
        ensures
            gpu_error_text(r) == gpu_error_text(*self),
            r is AccessDenied <==> self is AccessDenied,
            r is ProcessExited <==> self is ProcessExited,
            r is GpuContextUnavailable <==> self is GpuContextUnavailable,
    {
        match self {
            GpuPriorityError::AccessDenied => GpuPriorityError::AccessDenied,
            GpuPriorityError::ProcessExited => GpuPriorityError::ProcessExited,
            GpuPriorityError::GpuContextUnavailable => GpuPriorityError::GpuContextUnavailable,
            GpuPriorityError::Failed(m) => GpuPriorityError::Failed(String::from_str(m.as_str())),
        }
    }
}

/// Whether the foreground app gets another priority than the background.
pub fn gpu_foreground_sensitive(settings: &GpuPrioritySettings) -> (r: bool)
    ensures
        r == (settings.foreground_detection_enabled && settings.foreground_priority != settings.background_priority),
{
    settings.foreground_detection_enabled && settings.foreground_priority != settings.background_priority
}

/// The priority a process gets, from the override the settings hold for it
/// (`None`: no override; `Some(None)`: leave it alone): an automatic
/// override, or no override, takes the foreground or background default; a
/// setting without a priority leaves the process alone.
pub open spec fn gpu_target_priority_spec(
    settings: GpuPrioritySettings,
    foreground: bool,
    override_setting: Option<Option<ProcessGpuPrioritySetting>>,
) -> Option<ProcessGpuPriority> {
    let default = if foreground { settings.foreground_priority } else { settings.background_priority };
    let chosen = match override_setting {
        Some(Some(ProcessGpuPrioritySetting::Auto)) => Some(default),
        Some(Some(p)) => Some(p),
        Some(None) => None,
        None => Some(default),
    };
    match chosen {
        Some(ProcessGpuPrioritySetting::Realtime) => Some(ProcessGpuPriority::Realtime),
        Some(ProcessGpuPrioritySetting::High) => Some(ProcessGpuPriority::High),
        Some(ProcessGpuPrioritySetting::AboveNormal) => Some(ProcessGpuPriority::AboveNormal),
        Some(ProcessGpuPrioritySetting::Normal) => Some(ProcessGpuPriority::Normal),
        Some(ProcessGpuPrioritySetting::BelowNormal) => Some(ProcessGpuPriority::BelowNormal),
        Some(ProcessGpuPrioritySetting::Idle) => Some(ProcessGpuPriority::Idle),
        _ => None,
    }
}

/// The priority a process gets (see `gpu_target_priority_spec`).
pub fn gpu_target_priority(
    settings: &GpuPrioritySettings,
    foreground: bool,
    override_setting: Option<Option<ProcessGpuPrioritySetting>>,
) -> (r: Option<ProcessGpuPriority>)
    ensures
        r == gpu_target_priority_spec(*settings, foreground, override_setting),
{
    let default = if foreground {
        settings.foreground_priority
    } else {
        settings.background_priority
    };
    let chosen = match override_setting {
        Some(Some(ProcessGpuPrioritySetting::Auto)) => default,
        Some(Some(p)) => p,
        Some(None) => {
            return None;
        },
        None => default,
    };
    chosen.priority()
}

/// Whether a listed process is the foreground app: by id, or by the
/// foreground app's name.
pub open spec fn gpu_foreground(p: ProcessInfo, foreground_process_id: Option<u32>, foreground_name: Option<Seq<char>>) -> bool {
    foreground_process_id == Some(p.id) || (foreground_name matches Some(n) && same_name_seq(n, p.name@))
}

/// The GPU priority targets by id, with name, priority and whether each is
/// the foreground app, as a map filled in list order: every process but the
/// idle one, this one, other sessions' and the core Windows processes, that
/// the defaults give a priority to.
pub open spec fn gpu_targets_map(
    ps: Seq<ProcessInfo>,
    current_process_id: u32,
    current_session_id: u32,
    foreground_process_id: Option<u32>,
    foreground_name: Option<Seq<char>>,
    settings: GpuPrioritySettings,
) -> Map<u32, (Seq<char>, ProcessGpuPriority, bool)>
    decreases ps.len(),
{
    if ps.len() == 0 {
        Map::empty()
    } else {
        let m = gpu_targets_map(
            ps.drop_last(),
            current_process_id,
            current_session_id,
            foreground_process_id,
            foreground_name,
            settings,
        );
        let p = ps.last();
        let foreground = settings.foreground_detection_enabled && gpu_foreground(p, foreground_process_id, foreground_name);
        if p.id == 0 || p.id == current_process_id || p.session_id != Some(current_session_id) || list_contains_name(
            core_builtin_exclusions(),
            p.name@,
        ) {
            m
        } else {
            match gpu_target_priority_spec(settings, foreground, None) {
                Some(priority) => m.insert(p.id, (p.name@, priority, foreground)),
                None => m,
            }
        }
    }
}

/// The GPU priority targets of a pass (see `gpu_targets_map`); per-process
/// overrides are not read: each process gets the foreground or background
/// default.
pub fn gpu_priority_targets(
    processes: &Vec<ProcessInfo>,
    current_process_id: u32,
    current_session_id: u32,
    foreground_process_id: Option<u32>,
    foreground_name: Option<&str>,
    settings: &GpuPrioritySettings,
) -> (r: BTreeMap<u32, (String, ProcessGpuPriority, bool)>)
    ensures
        r@.map_values(|v: (String, ProcessGpuPriority, bool)| (v.0@, v.1, v.2)) == gpu_targets_map(
            processes@,
            current_process_id,
            current_session_id,
            foreground_process_id,
            match foreground_name {
                Some(n) => Some(n@),
                None => None,
            },
            *settings,
        ),
{
    proof {
        broadcast use vstd::std_specs::btree::group_btree_axioms;
    }
    let ghost fname = match foreground_name {
        Some(n) => Some(n@),
        None => None::<Seq<char>>,
    };
    let mut out: BTreeMap<u32, (String, ProcessGpuPriority, bool)> = BTreeMap::new();
    let mut i: usize = 0;
    proof {
        assert(out@.map_values(|v: (String, ProcessGpuPriority, bool)| (v.0@, v.1, v.2)) =~= Map::<
            u32,
            (Seq<char>, ProcessGpuPriority, bool),
        >::empty());
    }
    while i < processes.len()
        invariant
            i <= processes@.len(),
            fname == match foreground_name {
                Some(n) => Some(n@),
                None => None::<Seq<char>>,
            },
            out@.map_values(|v: (String, ProcessGpuPriority, bool)| (v.0@, v.1, v.2)) == gpu_targets_map(
                processes@.subrange(0, i as int),
                current_process_id,
                current_session_id,
                foreground_process_id,
                fname,
                *settings,
            ),
        decreases processes@.len() - i,
    {
        let p = &processes[i];
        let ghost next = processes@.subrange(0, i + 1);
        proof {
            assert(next.drop_last() =~= processes@.subrange(0, i as int));
            assert(next.last() == processes@[i as int]);
        }
        let same_session = match p.session_id {
            Some(sid) => sid == current_session_id,
            None => false,
        };
        if p.id != 0 && p.id != current_process_id && same_session && !is_builtin_excluded(p.name.as_str()) {
            let by_name = match foreground_name {
                Some(n) => same_name(n, p.name.as_str()),
                None => false,
            };
            let foreground = settings.foreground_detection_enabled && (foreground_process_id == Some(p.id) || by_name);
            match gpu_target_priority(settings, foreground, None) {
                Some(priority) => {
                    let ghost before = out@.map_values(|v: (String, ProcessGpuPriority, bool)| (v.0@, v.1, v.2));
                    let name = String::from_str(p.name.as_str());
                    let ghost entry = (name@, priority, foreground);
                    out.insert(p.id, (name, priority, foreground));
                    proof {
                        assert(out@.map_values(|v: (String, ProcessGpuPriority, bool)| (v.0@, v.1, v.2)) =~= before.insert(
                            p.id,
                            entry,
                        ));
                    }
                },
                None => {},
            }
        }
        i = i + 1;
    }
    proof {
        assert(processes@.subrange(0, processes@.len() as int) =~= processes@);
    }
    out
}

/// Why a GPU priority pass does not look at processes.
#[derive(Debug, Clone, Copy, PartialEq, Eq, Structural)]
pub enum GpuPriorityHold {
    AutomationDisabled,
    FeatureDisabled,
    ForegroundUnknown,
    SessionUnknown,
}

/// The hold a pass starts with, if any: automation off, the feature off, the
/// foreground app unknown while it matters, or this process's session
/// unknown.
pub fn gpu_priority_hold(
    automation_enabled: bool,
    settings: &GpuPrioritySettings,
    foreground_process_id: Option<u32>,
    current_session_id: Option<u32>,
) -> (r: Option<GpuPriorityHold>)
    ensures
        r == if !automation_enabled {
            Some(GpuPriorityHold::AutomationDisabled)
        } else if !settings.enabled {
            Some(GpuPriorityHold::FeatureDisabled)
        } else if settings.foreground_detection_enabled && settings.foreground_priority != settings.background_priority
            && foreground_process_id is None {
            Some(GpuPriorityHold::ForegroundUnknown)
        } else if current_session_id is None {
            Some(GpuPriorityHold::SessionUnknown)
        } else {
            None
        },
{
    if !automation_enabled {
        Some(GpuPriorityHold::AutomationDisabled)
    } else if !settings.enabled {
        Some(GpuPriorityHold::FeatureDisabled)
    } else if gpu_foreground_sensitive(settings) && foreground_process_id.is_none() {
        Some(GpuPriorityHold::ForegroundUnknown)
    } else if current_session_id.is_none() {
        Some(GpuPriorityHold::SessionUnknown)
    } else {
        None
    }
}

/// The reason a hold releases the changed processes with, and the message
/// it reports.
pub fn gpu_priority_hold_texts(hold: GpuPriorityHold) -> (r: (&'static str, &'static str))
    ensures
        r.0@ == match hold {
            GpuPriorityHold::AutomationDisabled => "automation disabled"@,
            GpuPriorityHold::FeatureDisabled => "GPU priority defaults disabled"@,
            GpuPriorityHold::ForegroundUnknown => "foreground app is unknown"@,
            GpuPriorityHold::SessionUnknown => "current Windows session is unknown"@,
        },
        r.1@ == match hold {
            GpuPriorityHold::AutomationDisabled => "Automation disabled."@,
            GpuPriorityHold::FeatureDisabled => "GPU priority defaults disabled."@,
            GpuPriorityHold::ForegroundUnknown => "Paused: foreground app is unknown."@,
            GpuPriorityHold::SessionUnknown => "Paused: current Windows session is unknown."@,
        },
{
    match hold {
        GpuPriorityHold::AutomationDisabled => ("automation disabled", "Automation disabled."),
        GpuPriorityHold::FeatureDisabled => ("GPU priority defaults disabled", "GPU priority defaults disabled."),
        GpuPriorityHold::ForegroundUnknown => ("foreground app is unknown", "Paused: foreground app is unknown."),
        GpuPriorityHold::SessionUnknown => (
            "current Windows session is unknown",
            "Paused: current Windows session is unknown.",
        ),
    }
}

/// The running totals of a GPU priority pass.
pub struct GpuPriorityPass {
    pub skipped_processes: usize,
    pub pending_processes: usize,
    pub denied_processes: usize,
    pub suppressed_processes: usize,
    pub applied_log_count: usize,
    pub pending_context_log_count: usize,
    pub access_denied_log_count: usize,
    /// The failure keys of executables suppressed in this pass, sorted, each
    /// once.
    pub auto_excluded_processes: Vec<String>,
}

impl GpuPriorityPass {
    pub fn new() -> (r: Self)
        ensures
            r.skipped_processes == 0,
            r.pending_processes == 0,
            r.denied_processes == 0,
            r.suppressed_processes == 0,
            r.applied_log_count == 0,
            r.pending_context_log_count == 0,
            r.access_denied_log_count == 0,
            r.auto_excluded_processes@.len() == 0,
    {
        GpuPriorityPass {
            skipped_processes: 0,
            pending_processes: 0,
            denied_processes: 0,
            suppressed_processes: 0,
            applied_log_count: 0,
            pending_context_log_count: 0,
            access_denied_log_count: 0,
            auto_excluded_processes: Vec::new(),
        }
    }
}

/// The log entry of a GPU priority summary.
pub open spec fn gpu_summary_entry(result: ActionLogResult, reason: Seq<char>) -> ActionLogEntryView {
    ActionLogEntryView {
        feature: ActionLogFeature::GpuPriority,
        process_id: None,
        process_name: "GPU Priority"@,
        action: action_of_result(result),
        result,
        reason,
    }
}

/// Whether a summary is due at `now` after one logged at `last`.
pub open spec fn gpu_summary_due(last: Option<u128>, now: u128) -> bool {
    match last {
        None => true,
        Some(t) => (if now >= t { now - t } else { 0 }) >= GPU_PRIORITY_SUMMARY_LOG_INTERVAL_NANOS,
    }
}

/// The state GPU priority keeps between passes.
pub struct GpuPriorityManager {
    pub adjusted: BTreeMap<u32, AdjustedProcess>,
    pub failure_suppression: ExecutionFailureTracker,
    /// The failure keys of processes waiting for a GPU scheduling context,
    /// sorted, each once.
    pub pending_context: Vec<String>,
    pub pending_apply_log_count: usize,
    pub pending_context_log_count: usize,
    pub pending_access_denied_log_count: usize,
    pub last_apply_summary_logged_at: Option<u128>,
    pub last_skip_summary_logged_at: Option<u128>,
}

impl GpuPriorityManager {
    pub open spec fn wf(&self) -> bool {
        &&& self.failure_suppression.wf()
        &&& strictly_sorted(string_views(self.pending_context@))
    }

    /// The failure state per key.
    pub open spec fn failures(&self) -> Map<Seq<char>, FailureState> {
        self.failure_suppression@
    }

    /// The failure keys of processes waiting for a GPU context.
    pub open spec fn pending(&self) -> Set<Seq<char>> {
        string_views(self.pending_context@).to_set()
    }

    /// The processes this feature changed, by process id.
    pub open spec fn adjustments(&self) -> Map<u32, AdjustedProcessView> {
        self.adjusted@.map_values(|a: AdjustedProcess| a@)
    }

    pub fn new() -> (r: Self)
        ensures
            r.wf(),
            r.failures() == Map::<Seq<char>, FailureState>::empty(),
            r.pending() == Set::<Seq<char>>::empty(),
            r.adjustments() == Map::<u32, AdjustedProcessView>::empty(),
            r.pending_apply_log_count == 0,
            r.pending_context_log_count == 0,
            r.pending_access_denied_log_count == 0,
            r.last_apply_summary_logged_at is None,
            r.last_skip_summary_logged_at is None,
    {
        let r = GpuPriorityManager {
            adjusted: BTreeMap::new(),
            failure_suppression: ExecutionFailureTracker::new(),
            pending_context: Vec::new(),
            pending_apply_log_count: 0,
            pending_context_log_count: 0,
            pending_access_denied_log_count: 0,
            last_apply_summary_logged_at: None,
            last_skip_summary_logged_at: None,
        };
        proof {
            assert(r.adjustments() =~= Map::<u32, AdjustedProcessView>::empty());
            assert(string_views(r.pending_context@) =~= Seq::<Seq<char>>::empty());
            assert(r.pending() =~= Set::<Seq<char>>::empty());
        }
        r
    }

    /// Counts a failure of the process; whether it is its first.
    pub fn record_process_failure(&mut self, process_name: &str) -> (first: bool)
        requires
            old(self).wf(),
        ensures
            final(self).wf(),
            final(self).failures() == model_record(old(self).failures(), failure_key(process_name@)),
            first == !old(self).failures().contains_key(failure_key(process_name@)),
            final(self).pending() == old(self).pending(),
            final(self).adjustments() == old(self).adjustments(),
    {
        self.failure_suppression.record_process_failure(process_name)
    }

    /// Forgets the failures of the process.
    pub fn clear_process_failure(&mut self, process_name: &str)
        requires
            old(self).wf(),
        ensures
            final(self).wf(),
            final(self).failures() == old(self).failures().remove(failure_key(process_name@)),
            final(self).pending() == old(self).pending(),
            final(self).adjustments() == old(self).adjustments(),
    {
        self.failure_suppression.clear_process_failure(process_name);
    }

    /// Whether the process is suppressed; the first time it is, its failure
    /// key joins the auto-excluded set.
    pub fn is_process_suppressed(&mut self, process_name: &str, auto_excluded_processes: &mut Vec<String>) -> (r: bool)
        requires
            old(self).wf(),
            strictly_sorted(string_views(old(auto_excluded_processes)@)),
        ensures
            final(self).wf(),
            strictly_sorted(string_views(final(auto_excluded_processes)@)),
            r == model_suppressed(old(self).failures(), failure_key(process_name@)),
            final(self).failures() == model_after_check(old(self).failures(), failure_key(process_name@)),
            string_views(final(auto_excluded_processes)@).to_set() == if model_newly_suppressed(
                old(self).failures(),
                failure_key(process_name@),
            ) {
                string_views(old(auto_excluded_processes)@).to_set().insert(failure_key(process_name@))
            } else {
                string_views(old(auto_excluded_processes)@).to_set()
            },
            final(self).pending() == old(self).pending(),
            final(self).adjustments() == old(self).adjustments(),
    {
        let suppression = self.failure_suppression.process_suppression(process_name);
        if suppression.newly_suppressed {
            let key = tracker_key(process_name);
            let _ = insert_sorted_unique(auto_excluded_processes, key.as_str());
        }
        suppression.suppressed
    }

    /// Notes that the process waits for a GPU scheduling context; whether it
    /// was not waiting already. Waiting never counts toward suppression.
    pub fn record_process_pending_context(&mut self, process_name: &str) -> (added: bool)
        requires
            old(self).wf(),
        ensures
            final(self).wf(),
            final(self).pending() == old(self).pending().insert(failure_key(process_name@)),
            added == !old(self).pending().contains(failure_key(process_name@)),
            final(self).failures() == old(self).failures(),
            final(self).adjustments() == old(self).adjustments(),
    {
        let key = tracker_key(process_name);
        insert_sorted_unique(&mut self.pending_context, key.as_str())
    }

    /// Notes that the process no longer waits for a GPU context.
    pub fn clear_process_pending_context(&mut self, process_name: &str)
        requires
            old(self).wf(),
        ensures
            final(self).wf(),
            final(self).pending() == old(self).pending().remove(failure_key(process_name@)),
            final(self).failures() == old(self).failures(),
            final(self).adjustments() == old(self).adjustments(),
    {
        let key = tracker_key(process_name);
        let _ = remove_sorted(&mut self.pending_context, key.as_str());
    }

    /// What applying `priority` to a process whose class is `current_raw`
    /// comes to (see `gpu_apply_plan`); a preserved priority forgets the
    /// process.
    pub fn plan_apply(
        &mut self,
        process_id: u32,
        process_name: &str,
        priority: ProcessGpuPriority,
        foreground: bool,
        preserve_foreground: bool,
        preserve_background: bool,
        current_raw: u32,
    ) -> (r: GpuApplyPlan)
        ensures
            r == gpu_apply_plan(
                old(self).adjustments(),
                process_id,
                process_name@,
                priority,
                foreground,
                preserve_foreground,
                preserve_background,
                current_raw,
            ),
            final(self).adjustments() == if r is Preserve {
                old(self).adjustments().remove(process_id)
            } else {
                old(self).adjustments()
            },
            final(self).failure_suppression == old(self).failure_suppression,
            final(self).pending_context == old(self).pending_context,
    {
        proof {
            broadcast use vstd::std_specs::btree::group_btree_axioms;
        }
        let ghost before = self.adjustments();
        let desired = gpu_priority_raw(priority);
        let (existing_previous, existing_priority): (Option<u32>, Option<ProcessGpuPriority>) = match self.adjusted.get(
            &process_id,
        ) {
            Some(a) => {
                proof {
                    assert(before.contains_key(process_id) && before[process_id] == a@);
                }
                if same_name(a.process_name.as_str(), process_name) {
                    (Some(a.previous_priority_raw), Some(a.applied_priority))
                } else {
                    (None, None)
                }
            },
            None => (None, None),
        };
        proof {
            let e = reusable_adjustment(before, process_id, process_name@);
            assert(existing_previous == match e { Some(a) => Some(a.previous_priority_raw), None => None::<u32> });
            assert(existing_priority == match e { Some(a) => Some(a.applied_priority), None => None::<ProcessGpuPriority> });
        }
        let baseline = match existing_previous {
            Some(p) => p,
            None => current_raw,
        };
        if should_preserve_priority(foreground, preserve_foreground, preserve_background, baseline, desired) {
            let removed = self.adjusted.remove(&process_id);
            proof {
                assert(self.adjustments() =~= before.remove(process_id));
            }
            let restore_raw = match removed {
                Some(a) => {
                    proof {
                        assert(before[process_id] == a@);
                    }
                    Some(a.previous_priority_raw)
                },
                None => None,
            };
            return GpuApplyPlan::Preserve { restore_raw };
        }
        let same_priority = match existing_priority {
            Some(p) => p == priority,
            None => false,
        };
        if same_priority && current_raw == desired {
            return GpuApplyPlan::AlreadyApplied;
        }
        if current_raw != desired {
            let loggable = match existing_priority {
                Some(p) => p != priority,
                None => true,
            };
            return GpuApplyPlan::Change { desired_raw: desired, baseline_raw: baseline, loggable };
        }
        if existing_previous.is_none() {
            GpuApplyPlan::AlreadyApplied
        } else {
            GpuApplyPlan::Record { baseline_raw: baseline }
        }
    }

    /// Records that this feature changed the process to `priority`, with
    /// `baseline_raw` as the class to restore.
    pub fn commit_apply(&mut self, process_id: u32, process_name: &str, priority: ProcessGpuPriority, baseline_raw: u32)
        ensures
            final(self).adjustments() == old(self).adjustments().insert(
                process_id,
                AdjustedProcessView {
                    process_name: process_name@,
                    previous_priority_raw: baseline_raw,
                    applied_priority: priority,
                },
            ),
            final(self).failure_suppression == old(self).failure_suppression,
            final(self).pending_context == old(self).pending_context,
    {
        proof {
            broadcast use vstd::std_specs::btree::group_btree_axioms;
        }
        let ghost before = self.adjustments();
        let a = AdjustedProcess {
            process_name: String::from_str(process_name),
            previous_priority_raw: baseline_raw,
            applied_priority: priority,
        };
        let ghost v = a@;
        self.adjusted.insert(process_id, a);
        proof {
            assert(self.adjustments() =~= before.insert(process_id, v));
        }
    }

    /// Takes the record of a changed process out, to restore it.
    pub fn take_adjusted(&mut self, process_id: u32) -> (r: Option<AdjustedProcess>)
        ensures
            final(self).adjustments() == old(self).adjustments().remove(process_id),
            match r {
                Some(a) => old(self).adjustments().contains_key(process_id) && a@ == old(self).adjustments()[process_id],
                None => !old(self).adjustments().contains_key(process_id),
            },
            final(self).failure_suppression == old(self).failure_suppression,
            final(self).pending_context == old(self).pending_context,
    {
        proof {
            broadcast use vstd::std_specs::btree::group_btree_axioms;
        }
        let ghost before = self.adjustments();
        let r = self.adjusted.remove(&process_id);
        proof {
            assert(self.adjustments() =~= before.remove(process_id));
        }
        r
    }

    /// Takes the result of applying GPU priority to a target: success clears
    /// its failures and its wait for a GPU context (a logged change counts
    /// toward the summary, a preserved priority is skipped); an exited
    /// process is skipped; denied access is skipped, counts toward
    /// suppression, and its first failure toward the summary; a missing GPU
    /// context is skipped and waits, its first wait counting toward the
    /// summary; any other error counts toward suppression and is recorded.
    pub fn record_apply_result(
        &mut self,
        pass: &mut GpuPriorityPass,
        failures: &mut GpuPriorityFailures,
        process_id: u32,
        process_name: &str,
        result: &Result<GpuApplyOutcome, GpuPriorityError>,
        action_log: &mut ActionLog,
    )
        requires
            old(self).wf(),
            old(action_log).wf(),
            old(pass).skipped_processes < usize::MAX,
            old(pass).pending_processes < usize::MAX,
            old(pass).denied_processes < usize::MAX,
            old(pass).applied_log_count < usize::MAX,
            old(pass).pending_context_log_count < usize::MAX,
            old(pass).access_denied_log_count < usize::MAX,
            old(failures).count < usize::MAX,
        ensures
            final(self).wf(),
            final(action_log).wf(),
            final(self).adjustments() == old(self).adjustments(),
            final(pass).suppressed_processes == old(pass).suppressed_processes,
            final(pass).auto_excluded_processes == old(pass).auto_excluded_processes,
            ({
                let key = failure_key(process_name@);
                let f = old(self).failures();
                let p = old(self).pending();
                let skipped = final(pass).skipped_processes - old(pass).skipped_processes;
                let pending = final(pass).pending_processes - old(pass).pending_processes;
                let denied = final(pass).denied_processes - old(pass).denied_processes;
                let applied_logs = final(pass).applied_log_count - old(pass).applied_log_count;
                let pending_logs = final(pass).pending_context_log_count - old(pass).pending_context_log_count;
                let denied_logs = final(pass).access_denied_log_count - old(pass).access_denied_log_count;
                let failed = final(failures).count - old(failures).count;
                &&& (!(result matches Err(GpuPriorityError::Failed(_)))) ==> {
                    &&& final(action_log).view_entries() == old(action_log).view_entries()
                    &&& final(failures).last_error == old(failures).last_error
                }
                &&& match result {
                    Ok(outcome) => {
                        &&& final(self).failures() == f.remove(key)
                        &&& final(self).pending() == p.remove(key)
                        &&& skipped == (if *outcome == GpuApplyOutcome::Preserved { 1int } else { 0 })
                        &&& applied_logs == (if *outcome == (GpuApplyOutcome::Applied { loggable: true }) { 1int } else { 0 })
                        &&& pending == 0 && denied == 0 && pending_logs == 0 && denied_logs == 0 && failed == 0
                    },
                    Err(GpuPriorityError::ProcessExited) => {
                        &&& final(self).failures() == f
                        &&& final(self).pending() == p
                        &&& skipped == 1 && pending == 0 && denied == 0 && applied_logs == 0
                        &&& pending_logs == 0 && denied_logs == 0 && failed == 0
                    },
                    Err(GpuPriorityError::AccessDenied) => {
                        &&& final(self).failures() == model_record(f, key)
                        &&& final(self).pending() == p.remove(key)
                        &&& skipped == 1 && denied == 1 && pending == 0 && applied_logs == 0
                        &&& denied_logs == (if f.contains_key(key) { 0int } else { 1 })
                        &&& pending_logs == 0 && failed == 0
                    },
                    Err(GpuPriorityError::GpuContextUnavailable) => {
                        &&& final(self).failures() == f
                        &&& final(self).pending() == p.insert(key)
                        &&& skipped == 1 && pending == 1 && denied == 0 && applied_logs == 0
                        &&& pending_logs == (if p.contains(key) { 0int } else { 1 })
                        &&& denied_logs == 0 && failed == 0
                    },
                    Err(e) => {
                        &&& final(self).failures() == model_record(f, key)
                        &&& final(self).pending() == p.remove(key)
                        &&& skipped == 0 && pending == 0 && denied == 0 && applied_logs == 0
                        &&& pending_logs == 0 && denied_logs == 0 && failed == 1
                        &&& old(failures).last_error is Some ==> final(failures).last_error == old(failures).last_error
                        &&& old(failures).last_error is None ==> (final(failures).last_error matches Some(m) && m@
                            == "Apply"@ + " "@ + process_name@ + " ("@ + decimal(process_id as nat) + "): "@ + gpu_error_text(*e))
                        &&& final(action_log).view_entries() == log_after(
                            old(action_log).view_entries(),
                            old(action_log).capacity_spec(),
                            ActionLogEntryView {
                                feature: ActionLogFeature::GpuPriority,
                                process_id: Some(process_id),
                                process_name: process_name@,
                                action: action_of_result(ActionLogResult::Failed),
                                result: ActionLogResult::Failed,
                                reason: gpu_error_text(*e),
                            },
                        )
                    },
                }
            }),
    {
        match result {
            Ok(outcome) => {
                match outcome {
                    GpuApplyOutcome::Applied { loggable } => {
                        if *loggable {
                            pass.applied_log_count = pass.applied_log_count + 1;
                        }
                    },
                    GpuApplyOutcome::AlreadyApplied => {},
                    GpuApplyOutcome::Preserved => {
                        pass.skipped_processes = pass.skipped_processes + 1;
                    },
                }
                self.clear_process_failure(process_name);
                self.clear_process_pending_context(process_name);
            },
            Err(GpuPriorityError::ProcessExited) => {
                pass.skipped_processes = pass.skipped_processes + 1;
            },
            Err(GpuPriorityError::AccessDenied) => {
                pass.skipped_processes = pass.skipped_processes + 1;
                pass.denied_processes = pass.denied_processes + 1;
                self.clear_process_pending_context(process_name);
                if self.record_process_failure(process_name) {
                    pass.access_denied_log_count = pass.access_denied_log_count + 1;
                }
            },
            Err(GpuPriorityError::GpuContextUnavailable) => {
                pass.skipped_processes = pass.skipped_processes + 1;
                pass.pending_processes = pass.pending_processes + 1;
                if self.record_process_pending_context(process_name) {
                    pass.pending_context_log_count = pass.pending_context_log_count + 1;
                }
            },
            Err(e) => {
                self.clear_process_pending_context(process_name);
                let _ = self.record_process_failure(process_name);
                failures.record("Apply", process_id, process_name, e, action_log);
            },
        }
    }

    /// Takes the result of restoring a changed process's class, logged under
    /// `log_name`: success clears its failures and logs the restore; an
    /// exited process is passed over; denied access or a missing GPU context
    /// counts toward suppression and logs the skip; any other error counts
    /// toward suppression and is recorded.
    pub fn record_restore_result(
        &mut self,
        failures: &mut GpuPriorityFailures,
        process_id: u32,
        log_name: &str,
        result: &Result<(), GpuPriorityError>,
        reason: &str,
        action_log: &mut ActionLog,
    )
        requires
            old(self).wf(),
            old(action_log).wf(),
            old(failures).count < usize::MAX,
        ensures
            final(self).wf(),
            final(action_log).wf(),
            final(self).adjustments() == old(self).adjustments(),
            final(self).pending() == old(self).pending(),
            ({
                let key = failure_key(log_name@);
                let entry = |result: ActionLogResult, text: Seq<char>| ActionLogEntryView {
                    feature: ActionLogFeature::GpuPriority,
                    process_id: Some(process_id),
                    process_name: log_name@,
                    action: action_of_result(result),
                    result,
                    reason: text,
                };
                let old_log = old(action_log).view_entries();
                let cap = old(action_log).capacity_spec();
                &&& (!(result matches Err(GpuPriorityError::Failed(_)))) ==> final(failures).count == old(failures).count
                    && final(failures).last_error == old(failures).last_error
                &&& match result {
                    Ok(()) => {
                        &&& final(self).failures() == old(self).failures().remove(key)
                        &&& final(action_log).view_entries() == log_after(
                            old_log,
                            cap,
                            entry(ActionLogResult::Restored, "Restored previous GPU priority: "@ + reason@ + "."@),
                        )
                    },
                    Err(GpuPriorityError::ProcessExited) => {
                        &&& final(self).failures() == old(self).failures()
                        &&& final(action_log).view_entries() == old_log
                    },
                    Err(GpuPriorityError::AccessDenied) => {
                        &&& final(self).failures() == model_record(old(self).failures(), key)
                        &&& final(action_log).view_entries() == log_after(
                            old_log,
                            cap,
                            entry(
                                ActionLogResult::Skipped,
                                "Skipped restoring previous GPU priority because Windows denied access: "@ + reason@
                                    + "."@,
                            ),
                        )
                    },
                    Err(GpuPriorityError::GpuContextUnavailable) => {
                        &&& final(self).failures() == model_record(old(self).failures(), key)
                        &&& final(action_log).view_entries() == log_after(
                            old_log,
                            cap,
                            entry(
                                ActionLogResult::Skipped,
                                "Skipped restoring previous GPU priority because GPU scheduling priority is unavailable: "@
                                    + reason@ + "."@,
                            ),
                        )
                    },
                    Err(e) => {
                        &&& final(self).failures() == model_record(old(self).failures(), key)
                        &&& final(failures).count == old(failures).count + 1
                        &&& old(failures).last_error is Some ==> final(failures).last_error == old(failures).last_error
                        &&& old(failures).last_error is None ==> (final(failures).last_error matches Some(m) && m@
                            == "Restore"@ + " "@ + log_name@ + " ("@ + decimal(process_id as nat) + "): "@ + gpu_error_text(*e))
                        &&& final(action_log).view_entries() == log_after(
                            old_log,
                            cap,
                            entry(ActionLogResult::Failed, gpu_error_text(*e)),
                        )
                    },
                }
            }),
    {
        match result {
            Ok(()) => {
                self.clear_process_failure(log_name);
                let mut text = String::from_str("Restored previous GPU priority: ");
                text.append(reason);
                text.append(".");
                action_log.record(
                    ActionLogFeature::GpuPriority,
                    Some(process_id),
                    String::from_str(log_name),
                    ActionLogResult::Restored,
                    text,
                );
            },
            Err(GpuPriorityError::ProcessExited) => {},
            Err(GpuPriorityError::AccessDenied) => {
                let _ = self.record_process_failure(log_name);
                let mut text = String::from_str("Skipped restoring previous GPU priority because Windows denied access: ");
                text.append(reason);
                text.append(".");
                action_log.record(
                    ActionLogFeature::GpuPriority,
                    Some(process_id),
                    String::from_str(log_name),
                    ActionLogResult::Skipped,
                    text,
                );
            },
            Err(GpuPriorityError::GpuContextUnavailable) => {
                let _ = self.record_process_failure(log_name);
                let mut text = String::from_str(
                    "Skipped restoring previous GPU priority because GPU scheduling priority is unavailable: ",
                );
                text.append(reason);
                text.append(".");
                action_log.record(
                    ActionLogFeature::GpuPriority,
                    Some(process_id),
                    String::from_str(log_name),
                    ActionLogResult::Skipped,
                    text,
                );
            },
            Err(e) => {
                let _ = self.record_process_failure(log_name);
                failures.record("Restore", process_id, log_name, e, action_log);
            },
        }
    }

    /// Keeps only the failures and the waits of this pass's targets (by
    /// name).
    pub fn retain_target_names(&mut self, names: &Vec<String>)
        requires
            old(self).wf(),
        ensures
            final(self).wf(),
            final(self).failures() == old(self).failures().restrict(failure_keys_of(names@)),
            final(self).pending() == old(self).pending().intersect(failure_keys_of(names@)),
            final(self).adjustments() == old(self).adjustments(),
    {
        self.failure_suppression.retain_keys(names);
        let ghost before = string_views(self.pending_context@);
        let ghost keys = failure_keys_of(names@);
        let mut kept: Vec<String> = Vec::new();
        let mut i: usize = 0;
        proof {
            assert(string_views(kept@) =~= Seq::<Seq<char>>::empty());
        }
        while i < self.pending_context.len()
            invariant
                i <= self.pending_context@.len(),
                before == string_views(self.pending_context@),
                strictly_sorted(before),
                strictly_sorted(string_views(kept@)),
                keys == failure_keys_of(names@),
                forall|a: int| 0 <= a < kept@.len() ==> exists|b: int| 0 <= b < i && (#[trigger] kept@[a])@ == before[b],
                string_views(kept@).to_set() == before.subrange(0, i as int).to_set().intersect(keys),
            decreases self.pending_context@.len() - i,
        {
            let ghost kept_before = kept@;
            let ghost x = before[i as int];
            let mut keep = false;
            let mut j: usize = 0;
            while j < names.len()
                invariant
                    j <= names@.len(),
                    x == before[i as int],
                    i < before.len(),
                    before == string_views(self.pending_context@),
                    keep == exists|b: int| 0 <= b < j && failure_key((#[trigger] names@[b])@) == x,
                decreases names@.len() - j,
            {
                let key = tracker_key(names[j].as_str());
                if crate::text::str_eq(key.as_str(), self.pending_context[i].as_str()) {
                    keep = true;
                }
                j = j + 1;
            }
            proof {
                assert(keep == keys.contains(x));
            }
            if keep {
                proof {
                    assert forall|a: int| 0 <= a < kept_before.len() implies crate::text::lex_lt(
                        #[trigger] kept_before[a]@,
                        x,
                    ) by {
                        let b = choose|b: int| 0 <= b < i && (#[trigger] kept_before[a])@ == before[b];
                        assert(crate::text::lex_lt(before[b], before[i as int]));
                    }
                    crate::text::lemma_insert_sorted(string_views(kept_before), kept_before.len() as int, x);
                    assert(string_views(kept_before).insert(kept_before.len() as int, x) =~= string_views(
                        kept_before,
                    ).push(x));
                }
                kept.push(String::from_str(self.pending_context[i].as_str()));
                proof {
                    assert(string_views(kept@) =~= string_views(kept_before).push(x));
                }
            }
            proof {
                let s2 = before.subrange(0, i + 1);
                assert(s2 =~= before.subrange(0, i as int).push(x));
                assert(string_views(kept@).to_set() =~= s2.to_set().intersect(keys)) by {
                    assert forall|y: Seq<char>| #[trigger] string_views(kept@).to_set().contains(y) <==> s2.to_set().intersect(keys).contains(y) by {
                        if string_views(kept@).contains(y) {
                            let a = choose|a: int| 0 <= a < string_views(kept@).len() && string_views(kept@)[a] == y;
                            if a < kept_before.len() {
                                assert(string_views(kept_before)[a] == y);
                                assert(string_views(kept_before).contains(y));
                                assert(string_views(kept_before).to_set().contains(y));
                                assert(before.subrange(0, i as int).to_set().intersect(keys).contains(y));
                                assert(before.subrange(0, i as int).contains(y));
                                let c = choose|c: int|
                                    0 <= c < before.subrange(0, i as int).len() && before.subrange(0, i as int)[c] == y;
                                assert(s2[c] == y);
                                assert(s2.contains(y));
                            } else {
                                assert(y == x);
                                assert(keep);
                                assert(s2[i as int] == y);
                                assert(s2.contains(y));
                            }
                        }
                        if s2.contains(y) && keys.contains(y) {
                            let c = choose|c: int| 0 <= c < s2.len() && s2[c] == y;
                            if c < i {
                                assert(before.subrange(0, i as int)[c] == y);
                                assert(before.subrange(0, i as int).contains(y));
                                assert(string_views(kept_before).to_set().contains(y));
                                let a = choose|a: int| 0 <= a < string_views(kept_before).len() && string_views(kept_before)[a] == y;
                                assert(string_views(kept@)[a] == y);
                            } else {
                                assert(y == x);
                                assert(string_views(kept@)[kept@.len() - 1] == y);
                            }
                        }
                    }
                }
                assert forall|a: int| 0 <= a < kept@.len() implies exists|b: int| 0 <= b < i + 1 && (#[trigger] kept@[a])@ == before[b] by {
                    if a < kept_before.len() {
                        assert(kept@[a] == kept_before[a]);
                        let b = choose|b: int| 0 <= b < i && (#[trigger] kept_before[a])@ == before[b];
                        assert(0 <= b < i + 1);
                    } else {
                        assert(kept@[a]@ == before[i as int]);
                    }
                }
            }
            i = i + 1;
        }
        proof {
            assert(before.subrange(0, before.len() as int) =~= before);
            assert(string_views(kept@).to_set() =~= before.to_set().intersect(keys));
        }
        self.pending_context = kept;
    }

    /// Forgets which processes wait for a GPU context.
    pub fn clear_pending_context(&mut self)
        requires
            old(self).wf(),
        ensures
            final(self).wf(),
            final(self).pending() == Set::<Seq<char>>::empty(),
            final(self).failures() == old(self).failures(),
            final(self).adjustments() == old(self).adjustments(),
    {
        self.pending_context = Vec::new();
        proof {
            assert(string_views(self.pending_context@) =~= Seq::<Seq<char>>::empty());
            assert(self.pending() =~= Set::<Seq<char>>::empty());
        }
    }

    /// Forgets every failure.
    pub fn clear_failure_suppression(&mut self)
        requires
            old(self).wf(),
        ensures
            final(self).wf(),
            final(self).failures() == Map::<Seq<char>, FailureState>::empty(),
            final(self).pending() == old(self).pending(),
            final(self).adjustments() == old(self).adjustments(),
    {
        self.failure_suppression.clear();
    }

    /// Forgets the summaries not yet logged and when the last ones were.
    pub fn reset_log_summaries(&mut self)
        ensures
            final(self).pending_apply_log_count == 0,
            final(self).pending_context_log_count == 0,
            final(self).pending_access_denied_log_count == 0,
            final(self).last_apply_summary_logged_at is None,
            final(self).last_skip_summary_logged_at is None,
            final(self).adjusted == old(self).adjusted,
            final(self).failure_suppression == old(self).failure_suppression,
            final(self).pending_context == old(self).pending_context,
    {
        self.pending_apply_log_count = 0;
        self.pending_context_log_count = 0;
        self.pending_access_denied_log_count = 0;
        self.last_apply_summary_logged_at = None;
        self.last_skip_summary_logged_at = None;
    }

    /// Adds this pass's counts to the summaries not yet logged, and logs each
    /// summary (applied; skipped while waiting or denied) that has something
    /// to say and whose interval has passed, starting its count over.
    pub fn record_pending_log_summaries(
        &mut self,
        applied_count: usize,
        pending_context_count: usize,
        access_denied_count: usize,
        now: u128,
        action_log: &mut ActionLog,
    )
        requires
            old(action_log).wf(),
            old(self).pending_apply_log_count + applied_count <= usize::MAX,
            old(self).pending_context_log_count + pending_context_count + old(self).pending_access_denied_log_count
                + access_denied_count <= usize::MAX,
        ensures
            final(action_log).wf(),
            final(self).adjusted == old(self).adjusted,
            final(self).failure_suppression == old(self).failure_suppression,
            final(self).pending_context == old(self).pending_context,
            ({
                let applied = old(self).pending_apply_log_count + applied_count;
                let pending = old(self).pending_context_log_count + pending_context_count;
                let denied = old(self).pending_access_denied_log_count + access_denied_count;
                let apply_due = applied > 0 && gpu_summary_due(old(self).last_apply_summary_logged_at, now);
                let skip_due = (pending > 0 || denied > 0) && gpu_summary_due(old(self).last_skip_summary_logged_at, now);
                let cap = old(action_log).capacity_spec();
                let after_apply = if apply_due {
                    log_after(
                        old(action_log).view_entries(),
                        cap,
                        gpu_summary_entry(
                            ActionLogResult::Applied,
                            "Applied GPU priority to "@ + crate::foreground::process_list::count_label(applied as nat) + "."@,
                        ),
                    )
                } else {
                    old(action_log).view_entries()
                };
                &&& final(self).pending_apply_log_count == if apply_due { 0 } else { applied }
                &&& final(self).last_apply_summary_logged_at == if apply_due {
                    Some(now)
                } else {
                    old(self).last_apply_summary_logged_at
                }
                &&& final(self).pending_context_log_count == if skip_due { 0 } else { pending }
                &&& final(self).pending_access_denied_log_count == if skip_due { 0 } else { denied }
                &&& final(self).last_skip_summary_logged_at == if skip_due {
                    Some(now)
                } else {
                    old(self).last_skip_summary_logged_at
                }
                &&& final(action_log).view_entries() == if skip_due {
                    log_after(
                        after_apply,
                        cap,
                        gpu_summary_entry(ActionLogResult::Skipped, skip_summary(pending as nat, denied as nat)),
                    )
                } else {
                    after_apply
                }
            }),
    {
        self.pending_apply_log_count = self.pending_apply_log_count + applied_count;
        self.pending_context_log_count = self.pending_context_log_count + pending_context_count;
        self.pending_access_denied_log_count = self.pending_access_denied_log_count + access_denied_count;
        if self.pending_apply_log_count > 0 && gpu_priority_summary_log_due(self.last_apply_summary_logged_at, now) {
            let count = self.pending_apply_log_count;
            self.pending_apply_log_count = 0;
            self.last_apply_summary_logged_at = Some(now);
            action_log.record(
                ActionLogFeature::GpuPriority,
                None,
                String::from_str("GPU Priority"),
                ActionLogResult::Applied,
                gpu_priority_apply_summary_message(count),
            );
        }
        if (self.pending_context_log_count > 0 || self.pending_access_denied_log_count > 0)
            && gpu_priority_summary_log_due(self.last_skip_summary_logged_at, now) {
            let pending = self.pending_context_log_count;
            let denied = self.pending_access_denied_log_count;
            self.pending_context_log_count = 0;
            self.pending_access_denied_log_count = 0;
            self.last_skip_summary_logged_at = Some(now);
            action_log.record(
                ActionLogFeature::GpuPriority,
                None,
                String::from_str("GPU Priority"),
                ActionLogResult::Skipped,
                gpu_priority_skip_summary_message(pending, denied),
            );
        }
    }
}

/// The process ids a feature changed that are not this pass's targets, each
/// once.
pub fn ids_not_in<V, W>(adjusted: &BTreeMap<u32, V>, keep: &BTreeMap<u32, W>) -> (r: Vec<u32>)
    ensures
        r@.to_set() == adjusted@.dom().difference(keep@.dom()),
        r@.no_duplicates(),
{
    proof {
        broadcast use vstd::std_specs::btree::group_btree_axioms;
    }
    let mut out: Vec<u32> = Vec::new();
    let ghost all = vstd::std_specs::iter::IteratorSpec::remaining(&vstd::std_specs::btree::spec_keys_iter(adjusted));
    for k in it: adjusted.keys()
        invariant
            it.seq() == all,
            all.unref().to_set() == adjusted@.dom(),
            all.no_duplicates(),
            out@.no_duplicates(),
            forall|x: u32|
                #![trigger out@.contains(x)]
                out@.contains(x) <==> (exists|j: int| 0 <= j < it.index() && *all[j] == x && !keep@.dom().contains(x)),
    {
        let ghost n = it.index();
        let ghost before = out@;
        proof {
            assert(*k == *all[n as int]);
        }
        if !keep.contains_key(k) {
            proof {
                if before.contains(*k) {
                    let j = choose|j: int| 0 <= j < n && *all[j] == *k && !keep@.dom().contains(*k);
                    assert(all[j] == all[n as int]);
                }
            }
            out.push(*k);
            proof {
                assert forall|x: u32| #[trigger] out@.contains(x) <==> (exists|j: int|
                    0 <= j < n + 1 && *all[j] == x && !keep@.dom().contains(x)) by {
                    if out@.contains(x) && x != *k {
                        let a = choose|a: int| 0 <= a < out@.len() && out@[a] == x;
                        assert(before[a] == x);
                        assert(before.contains(x));
                    }
                    if x == *k {
                        assert(out@[before.len() as int] == x);
                    }
                    if (exists|j: int| 0 <= j < n + 1 && *all[j] == x && !keep@.dom().contains(x)) && x != *k {
                        let j = choose|j: int| 0 <= j < n + 1 && *all[j] == x && !keep@.dom().contains(x);
                        assert(j < n);
                        assert(before.contains(x));
                        let a = choose|a: int| 0 <= a < before.len() && before[a] == x;
                        assert(out@[a] == x);
                    }
                }
            }
        } else {
            proof {
                assert forall|x: u32| #[trigger] out@.contains(x) <==> (exists|j: int|
                    0 <= j < n + 1 && *all[j] == x && !keep@.dom().contains(x)) by {
                    if (exists|j: int| 0 <= j < n + 1 && *all[j] == x && !keep@.dom().contains(x)) {
                        let j = choose|j: int| 0 <= j < n + 1 && *all[j] == x && !keep@.dom().contains(x);
                        assert(j != n);
                    }
                }
            }
        }
    }
    proof {
        assert forall|x: u32| #[trigger] out@.to_set().contains(x) == adjusted@.dom().difference(keep@.dom()).contains(x) by {
            if adjusted@.dom().contains(x) {
                assert(all.unref().to_set().contains(x));
                let j = choose|j: int| 0 <= j < all.unref().len() && all.unref()[j] == x;
                assert(*all[j] == x);
            }
            if out@.contains(x) {
                let j = choose|j: int| 0 <= j < all.len() && *all[j] == x && !keep@.dom().contains(x);
                assert(all.unref()[j] == x);
                assert(all.unref().to_set().contains(x));
            }
        }
        assert(out@.to_set() =~= adjusted@.dom().difference(keep@.dom()));
    }
    out
}

/// The message a held GPU priority pass reports.
pub open spec fn gpu_hold_message(hold: GpuPriorityHold) -> Seq<char> {
    match hold {
        GpuPriorityHold::AutomationDisabled => "Automation disabled."@,
        GpuPriorityHold::FeatureDisabled => "GPU priority defaults disabled."@,
        GpuPriorityHold::ForegroundUnknown => "Paused: foreground app is unknown."@,
        GpuPriorityHold::SessionUnknown => "Paused: current Windows session is unknown."@,
    }
}

/// Whether a hold turns the feature off rather than pausing it.
pub open spec fn gpu_hold_turns_off(hold: GpuPriorityHold) -> bool {
    hold is AutomationDisabled || hold is FeatureDisabled
}

/// What a GPU priority pass reports.
pub struct GpuPrioritySnapshot {
    pub enabled: bool,
    pub scanned_processes: usize,
    pub adjusted_processes: usize,
    pub skipped_processes: usize,
    pub pending_processes: usize,
    pub denied_processes: usize,
    pub suppressed_processes: usize,
    pub failed_processes: usize,
    pub adjusted_apps: Vec<String>,
    pub auto_excluded_processes: Vec<String>,
    pub message: String,
    pub last_error: Option<String>,
}

impl GpuPriorityManager {
    /// Forgets the processes waiting for a GPU context and the summaries not
    /// yet logged (after every changed process was released).
    fn forget_pass_state(&mut self)
        requires
            old(self).wf(),
        ensures
            final(self).wf(),
            final(self).pending() == Set::<Seq<char>>::empty(),
            final(self).failures() == old(self).failures(),
            final(self).adjustments() == old(self).adjustments(),
            final(self).pending_apply_log_count == 0,
            final(self).pending_context_log_count == 0,
            final(self).pending_access_denied_log_count == 0,
            final(self).last_apply_summary_logged_at is None,
            final(self).last_skip_summary_logged_at is None,
    {
        self.pending_context = Vec::new();
        self.pending_apply_log_count = 0;
        self.pending_context_log_count = 0;
        self.pending_access_denied_log_count = 0;
        self.last_apply_summary_logged_at = None;
        self.last_skip_summary_logged_at = None;
        proof {
            assert(string_views(self.pending_context@) =~= Seq::<Seq<char>>::empty());
        }
    }

    /// Ends a held pass once every changed process was released with the
    /// hold's reason (`failures` are the release's): the pass state is
    /// forgotten, and so is every failure when the hold turns the feature off.
    /// The report: enabled unless turned off, the hold's message, the
    /// release's failures, nothing scanned, adjusted or skipped.
    pub fn hold_snapshot(&mut self, hold: GpuPriorityHold, failures: GpuPriorityFailures) -> (r: GpuPrioritySnapshot)
        requires
            old(self).wf(),
        ensures
            final(self).wf(),
            final(self).adjustments() == old(self).adjustments(),
            final(self).pending() == Set::<Seq<char>>::empty(),
            final(self).failures() == if gpu_hold_turns_off(hold) {
                Map::<Seq<char>, FailureState>::empty()
            } else {
                old(self).failures()
            },
            final(self).pending_apply_log_count == 0,
            final(self).pending_context_log_count == 0,
            final(self).pending_access_denied_log_count == 0,
            final(self).last_apply_summary_logged_at is None,
            final(self).last_skip_summary_logged_at is None,
            r.enabled == !gpu_hold_turns_off(hold),
            r.scanned_processes == 0,
            r.adjusted_processes == 0,
            r.skipped_processes == 0,
            r.pending_processes == 0,
            r.denied_processes == 0,
            r.suppressed_processes == 0,
            r.failed_processes == failures.count,
            r.adjusted_apps@.len() == 0,
            r.auto_excluded_processes@.len() == 0,
            r.message@ == gpu_hold_message(hold),
            r.last_error == failures.last_error,
    {
        self.forget_pass_state();
        let off = match hold {
            GpuPriorityHold::AutomationDisabled | GpuPriorityHold::FeatureDisabled => true,
            _ => false,
        };
        if off {
            self.failure_suppression.clear();
        }
        let (_, message) = gpu_priority_hold_texts(hold);
        GpuPrioritySnapshot {
            enabled: !off,
            scanned_processes: 0,
            adjusted_processes: 0,
            skipped_processes: 0,
            pending_processes: 0,
            denied_processes: 0,
            suppressed_processes: 0,
            failed_processes: failures.count,
            adjusted_apps: Vec::new(),
            auto_excluded_processes: Vec::new(),
            message: String::from_str(message),
            last_error: failures.last_error,
        }
    }

    /// Ends a pass whose process list could not be read, once every changed
    /// process was released: the pass state is forgotten, the failures kept.
    /// The report: enabled, the list's error as message, the release's
    /// failures, nothing scanned, adjusted or skipped.
    pub fn list_unavailable_snapshot(&mut self, error: String, failures: GpuPriorityFailures) -> (r: GpuPrioritySnapshot)
        requires
            old(self).wf(),
        ensures
            final(self).wf(),
            final(self).adjustments() == old(self).adjustments(),
            final(self).pending() == Set::<Seq<char>>::empty(),
            final(self).failures() == old(self).failures(),
            final(self).pending_apply_log_count == 0,
            final(self).pending_context_log_count == 0,
            final(self).pending_access_denied_log_count == 0,
            r.enabled,
            r.scanned_processes == 0,
            r.adjusted_processes == 0,
            r.skipped_processes == 0,
            r.pending_processes == 0,
            r.denied_processes == 0,
            r.suppressed_processes == 0,
            r.failed_processes == failures.count,
            r.adjusted_apps@.len() == 0,
            r.auto_excluded_processes@.len() == 0,
            r.message@ == error@,
            r.last_error == failures.last_error,
    {
        self.forget_pass_state();
        GpuPrioritySnapshot {
            enabled: true,
            scanned_processes: 0,
            adjusted_processes: 0,
            skipped_processes: 0,
            pending_processes: 0,
            denied_processes: 0,
            suppressed_processes: 0,
            failed_processes: failures.count,
            adjusted_apps: Vec::new(),
            auto_excluded_processes: Vec::new(),
            message: error,
            last_error: failures.last_error,
        }
    }

    /// The report of a finished pass over `scanned_processes` processes:
    /// its counts, the processes still changed and their app names, and the
    /// status line (see `gpu_priority_status_message`).
    pub fn pass_snapshot(
        &self,
        pass: GpuPriorityPass,
        scanned_processes: usize,
        adjusted_apps: Vec<String>,
        failures: GpuPriorityFailures,
    ) -> (r: GpuPrioritySnapshot)
        ensures
            r.enabled,
            r.scanned_processes == scanned_processes,
            r.adjusted_processes == self.adjusted@.len(),
            r.skipped_processes == pass.skipped_processes,
            r.pending_processes == pass.pending_processes,
            r.denied_processes == pass.denied_processes,
            r.suppressed_processes == pass.suppressed_processes,
            r.failed_processes == failures.count,
            r.adjusted_apps@ == adjusted_apps@,
            r.auto_excluded_processes@ == pass.auto_excluded_processes@,
            r.message@ == if failures.count > 0 {
                "GPU priority defaults active with failures."@
            } else if pass.denied_processes > 0 {
                "GPU priority defaults active; some protected processes were skipped."@
            } else if pass.suppressed_processes > 0 {
                "GPU priority defaults active; repeated failures are being suppressed."@
            } else if pass.pending_processes > 0 {
                "GPU priority defaults active; waiting for GPU scheduling contexts."@
            } else {
                "GPU priority defaults active."@
            },
            r.last_error == failures.last_error,
    {
        proof {
            broadcast use vstd::std_specs::btree::group_btree_axioms;
        }
        let message = gpu_priority_status_message(
            pass.pending_processes,
            pass.denied_processes,
            pass.suppressed_processes,
            failures.count,
        );
        GpuPrioritySnapshot {
            enabled: true,
            scanned_processes,
            adjusted_processes: self.adjusted.len(),
            skipped_processes: pass.skipped_processes,
            pending_processes: pass.pending_processes,
            denied_processes: pass.denied_processes,
            suppressed_processes: pass.suppressed_processes,
            failed_processes: failures.count,
            adjusted_apps,
            auto_excluded_processes: pass.auto_excluded_processes,
            message,
            last_error: failures.last_error,
        }
    }
}

} // verus!
