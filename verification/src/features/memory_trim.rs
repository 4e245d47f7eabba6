//! Memory Trim: which processes may have their working set trimmed, when an
//! idle process is ready to be trimmed, and how trims and failures are
//! reported.
use std::collections::BTreeMap;
use vstd::prelude::*;

use crate::action_log::{ActionLog, ActionLogEntryView, ActionLogFeature, ActionLogResult};
use crate::foreground::process_list::{contains_process_name, extended_builtin_exclusions, extended_builtin_process_exclusions, list_contains_name};
use crate::rules::{
    check_and_report_suppression, failure_key, failure_keys_of, model_after_check, model_newly_suppressed, model_record,
    model_suppressed, ExecutionFailureTracker, FailureState,
};
use crate::config::{has_rule_for, MemoryTrimSettings};
use crate::cpu::{process_cpu_usage_percent, usage_between, CpuUsage, ProcessCpuSample, CPU_IDLE_THRESHOLD_PERCENT};
use crate::features::process_control::{control_error_text, ProcessControlError};
use crate::foreground::process_list::{
    same_executable_path, same_executable_path_spec, should_ignore_foreground_process, CanonicalPath, CanonicalPaths,
    ProcessInfo,
};
use crate::action_log::{action_of_result, log_after};
use crate::rules::model_suppress;
use crate::text::{decimal, decimal_string, insert_sorted_unique, string_views, strictly_sorted};

verus! {

/// One mebibyte.
pub const MB: u64 = 1024 * 1024;

/// Whether Memory Trim always leaves the process alone.
pub fn is_builtin_excluded(process_name: &str) -> (r: bool)
    ensures
        r == list_contains_name(extended_builtin_exclusions(), process_name@),
{
    let list = extended_builtin_process_exclusions();
    contains_process_name(list.as_slice(), process_name)
}

/// `<n> MiB` from one mebibyte up, else `<n> KiB`.
pub open spec fn size_label_spec(bytes: nat) -> Seq<char> {
    if bytes >= MB {
        decimal(bytes / (MB as nat)) + " MiB"@
    } else {
        decimal(bytes / 1024) + " KiB"@
    }
}

/// A byte count as whole MiB or KiB, rounded down.
pub fn size_label(bytes: u64) -> (r: String)
    ensures
        r@ == size_label_spec(bytes as nat),
{
    if bytes >= MB {
        let mut s = decimal_string(bytes / MB);
        s.append(" MiB");
        s
    } else {
        let mut s = decimal_string(bytes / 1024);
        s.append(" KiB");
        s
    }
}

/// Whether a pass trims idle processes on its own or every large one at once.
#[derive(Clone, Copy, Debug, PartialEq, Eq, Structural)]
pub enum MemoryTrimMode {
    Automatic,
    Manual,
}

pub open spec fn trim_action(mode: MemoryTrimMode) -> Seq<char> {
    match mode {
        MemoryTrimMode::Automatic => "Trimmed working set"@,
        MemoryTrimMode::Manual => "Manually trimmed working set"@,
    }
}

/// The reason logged for a trim.
pub open spec fn trim_reason_spec(mode: MemoryTrimMode, freed_bytes: Option<u64>) -> Seq<char> {
    match freed_bytes {
        Some(b) => trim_action(mode) + "; estimated freed "@ + size_label_spec(b as nat) + "."@,
        None => trim_action(mode) + "; freed-memory estimate unavailable."@,
    }
}

/// The reason logged for a trim, with the estimate of what it freed.
pub fn trim_reason(mode: MemoryTrimMode, freed_bytes: Option<u64>) -> (r: String)
    ensures
        r@ == trim_reason_spec(mode, freed_bytes),
{
    let mut s = match mode {
        MemoryTrimMode::Automatic => String::from_str("Trimmed working set"),
        MemoryTrimMode::Manual => String::from_str("Manually trimmed working set"),
    };
    match freed_bytes {
        Some(b) => {
            s.append("; estimated freed ");
            let label = size_label(b);
            s.append(label.as_str());
            s.append(".");
        },
        None => {
            s.append("; freed-memory estimate unavailable.");
        },
    }
    s
}

/// The working-set size from which a process is considered, in bytes
/// (`threshold_mb` MiB, saturating).
pub fn working_set_threshold_bytes(threshold_mb: u64) -> (r: u64)
    ensures
        r == if threshold_mb * MB <= u64::MAX { threshold_mb * MB } else { u64::MAX as int },
{
    match threshold_mb.checked_mul(MB) {
        Some(v) => v,
        None => u64::MAX,
    }
}

/// Whether an automatic pass waits because the system memory load is below
/// the threshold (capped at 100%). A manual pass never waits.
pub fn waits_for_memory_load(mode: MemoryTrimMode, memory_load_percent: u8, threshold_percent: u8) -> (r: bool)
    ensures
        r == (mode == MemoryTrimMode::Automatic && memory_load_percent < if threshold_percent
            < 100 { threshold_percent } else { 100 }),
{
    let threshold = if threshold_percent < 100 {
        threshold_percent
    } else {
        100
    };
    mode == MemoryTrimMode::Automatic && memory_load_percent < threshold
}

/// `Memory Trim waiting for system memory load >= <threshold>%.`
pub fn waiting_message(threshold_percent: u8) -> (r: String)
    ensures
        r@ == "Memory Trim waiting for system memory load >= "@ + decimal(
            (if threshold_percent < 100 { threshold_percent } else { 100 }) as nat,
        ) + "%."@,
{
    let threshold: u8 = if threshold_percent < 100 {
        threshold_percent
    } else {
        100
    };
    let mut s = String::from_str("Memory Trim waiting for system memory load >= ");
    s.append(decimal_string(threshold as u64).as_str());
    s.append("%.");
    s
}

/// What Memory Trim remembers of a process between passes.
#[derive(Clone, Debug)]
pub struct TrackedProcess {
    pub executable_path: String,
    pub creation_time: u64,
    pub previous_cpu_time: Option<ProcessCpuSample>,
    pub idle_since: Option<u128>,
    pub trimmed_while_idle: bool,
}

/// What is kept of a process, as plain values.
pub struct TrackedProcessView {
    pub executable_path: Seq<char>,
    pub creation_time: u64,
    pub previous_cpu_time: Option<ProcessCpuSample>,
    pub idle_since: Option<u128>,
    pub trimmed_while_idle: bool,
}

impl View for TrackedProcess {
    type V = TrackedProcessView;

    open spec fn view(&self) -> TrackedProcessView {
        TrackedProcessView {
            executable_path: self.executable_path@,
            creation_time: self.creation_time,
            previous_cpu_time: self.previous_cpu_time,
            idle_since: self.idle_since,
            trimmed_while_idle: self.trimmed_while_idle,
        }
    }
}

/// What one usage reading does to the record of a process: whether a trim
/// is due, and the new record. Activity re-arms the process and restarts its
/// idle time; an idle process is due once, after `idle_duration` nanoseconds.
pub open spec fn idle_step(s: TrackedProcessView, usage: CpuUsage, idle_duration: u128, now: u128) -> (bool, TrackedProcessView) {
    if usage.above_percent(CPU_IDLE_THRESHOLD_PERCENT as nat) {
        (false, TrackedProcessView { idle_since: None, trimmed_while_idle: false, ..s })
    } else if s.trimmed_while_idle {
        (false, s)
    } else {
        let since = match s.idle_since {
            Some(t) => t,
            None => now,
        };
        ((if now >= since { now - since } else { 0 }) >= idle_duration, TrackedProcessView { idle_since: Some(since), ..s })
    }
}

/// An idle process is trimmed once per idle period: once it has been
/// trimmed while idle, further idle readings leave its record as it is and
/// never make another trim due.
pub proof fn law_idle_process_trimmed_once(s: TrackedProcessView, usage: CpuUsage, idle_duration: u128, now: u128)
    requires
        s.trimmed_while_idle,
        !usage.above_percent(CPU_IDLE_THRESHOLD_PERCENT as nat),
    ensures
        idle_step(s, usage, idle_duration, now) == (false, s),
{
}

/// Activity re-arms a process: a reading above the idle threshold never
/// makes a trim due, and the next idle reading starts a new idle period, so
/// that a trim is due again only once `idle_duration` has passed from it.
pub proof fn law_activity_rearms(
    s: TrackedProcessView,
    active: CpuUsage,
    idle: CpuUsage,
    idle_duration: u128,
    t1: u128,
    t2: u128,
)
    requires
        active.above_percent(CPU_IDLE_THRESHOLD_PERCENT as nat),
        !idle.above_percent(CPU_IDLE_THRESHOLD_PERCENT as nat),
    ensures
        !idle_step(s, active, idle_duration, t1).0,
        !idle_step(s, active, idle_duration, t1).1.trimmed_while_idle,
        idle_step(idle_step(s, active, idle_duration, t1).1, idle, idle_duration, t2).1.idle_since == Some(t2),
        idle_step(idle_step(s, active, idle_duration, t1).1, idle, idle_duration, t2).0 == (idle_duration == 0),
{
}

/// Whether an idle process is due for a trim. Activity (usage above 1%)
/// re-arms it and restarts its idle time; an idle process is trimmed once,
/// after it has been idle for `idle_duration` nanoseconds.
pub fn ready_to_trim(state: &mut TrackedProcess, usage: CpuUsage, idle_duration: u128, now: u128) -> (r: bool)
    requires
        usage.busy_nanos <= u64::MAX as u128 * 100,
    ensures
        final(state).executable_path == old(state).executable_path,
        final(state).creation_time == old(state).creation_time,
        final(state).previous_cpu_time == old(state).previous_cpu_time,
        usage.above_percent(CPU_IDLE_THRESHOLD_PERCENT as nat) ==> {
            &&& !r
            &&& final(state).idle_since.is_none()
            &&& !final(state).trimmed_while_idle
        },
        !usage.above_percent(CPU_IDLE_THRESHOLD_PERCENT as nat) && old(state).trimmed_while_idle ==> {
            &&& !r
            &&& final(state).idle_since == old(state).idle_since
            &&& final(state).trimmed_while_idle
        },
        !usage.above_percent(CPU_IDLE_THRESHOLD_PERCENT as nat) && !old(state).trimmed_while_idle ==> {
            let since = match old(state).idle_since {
                Some(t) => t,
                None => now,
            };
            &&& final(state).idle_since == Some(since)
            &&& !final(state).trimmed_while_idle
            &&& r == ((if now >= since { now - since } else { 0 }) >= idle_duration)
        },
        (r, final(state)@) == idle_step(old(state)@, usage, idle_duration, now),
{
    if usage.is_active() {
        state.idle_since = None;
        state.trimmed_while_idle = false;
        return false;
    }
    if state.trimmed_while_idle {
        return false;
    }
    let since = match state.idle_since {
        Some(t) => t,
        None => now,
    };
    state.idle_since = Some(since);
    let idle_for = if now >= since {
        now - since
    } else {
        0
    };
    idle_for >= idle_duration
}

/// The results of one Memory Trim pass.
#[derive(Debug, Clone, PartialEq, Eq)]
pub struct MemoryTrimSnapshot {
    pub enabled: bool,
    pub scanned_processes: usize,
    pub candidate_processes: usize,
    pub trimmed_processes: usize,
    pub skipped_processes: usize,
    pub failed_processes: usize,
    pub memory_load_percent: Option<u8>,
    pub trimmed_apps: Vec<String>,
    pub auto_excluded_processes: Vec<String>,
    pub message: String,
    pub last_error: Option<String>,
}

impl Default for MemoryTrimSnapshot {
    fn default() -> (r: Self)
        ensures
            !r.enabled,
            r.scanned_processes == 0,
            r.candidate_processes == 0,
            r.trimmed_processes == 0,
            r.skipped_processes == 0,
            r.failed_processes == 0,
            r.memory_load_percent.is_none(),
            r.trimmed_apps@.len() == 0,
            r.auto_excluded_processes@.len() == 0,
            r.message@ == "Memory Trim disabled."@,
            r.last_error.is_none(),
    {
        MemoryTrimSnapshot {
            enabled: false,
            scanned_processes: 0,
            candidate_processes: 0,
            trimmed_processes: 0,
            skipped_processes: 0,
            failed_processes: 0,
            memory_load_percent: None,
            trimmed_apps: Vec::new(),
            auto_excluded_processes: Vec::new(),
            message: String::from_str("Memory Trim disabled."),
            last_error: None,
        }
    }
}

/// The failures of one pass: how many, and the first one's description.
pub struct MemoryTrimFailures {
    pub count: usize,
    pub last_error: Option<String>,
}

/// `Trim <process> (<pid>): <message>`
pub open spec fn trim_failure_text(process_id: u32, process_name: Seq<char>, message: Seq<char>) -> Seq<char> {
    "Trim "@ + process_name + " ("@ + decimal(process_id as nat) + "): "@ + message
}

impl MemoryTrimFailures {
    pub fn new() -> (r: Self)
        ensures
            r.count == 0,
            r.last_error.is_none(),
    {
        MemoryTrimFailures { count: 0, last_error: None }
    }

    /// Counts a failure, keeps the description of the first one, and logs it.
    pub fn record(&mut self, process_id: u32, process_name: &str, message: &str, action_log: &mut ActionLog)
        requires
            old(self).count < usize::MAX,
            old(action_log).wf(),
        ensures
            final(self).count == old(self).count + 1,
            final(self).last_error == match old(self).last_error {
                Some(e) => Some(e),
                None => Some(final(self).last_error.unwrap()),
            },
            old(self).last_error.is_none() ==> final(self).last_error.unwrap()@ == trim_failure_text(
                process_id,
                process_name@,
                message@,
            ),
            final(action_log).wf(),
            final(action_log).view_entries() == crate::action_log::log_after(
                old(action_log).view_entries(),
                old(action_log).capacity_spec(),
                ActionLogEntryView {
                    feature: ActionLogFeature::MemoryTrim,
                    process_id: Some(process_id),
                    process_name: process_name@,
                    action: crate::action_log::action_of_result(ActionLogResult::Failed),
                    result: ActionLogResult::Failed,
                    reason: message@,
                },
            ),
    {
        self.count = self.count + 1;
        if self.last_error.is_none() {
            let mut s = String::from_str("Trim ");
            s.append(process_name);
            s.append(" (");
            s.append(decimal_string(process_id as u64).as_str());
            s.append("): ");
            s.append(message);
            self.last_error = Some(s);
        }
        action_log.record(
            ActionLogFeature::MemoryTrim,
            Some(process_id),
            process_name.to_owned(),
            ActionLogResult::Failed,
            message.to_owned(),
        );
    }
}

/// The state Memory Trim keeps between passes: what it keeps of each
/// process, by process id, and its failures.
pub struct MemoryTrimManager {
    pub watched: BTreeMap<u32, TrackedProcess>,
    pub failure_suppression: ExecutionFailureTracker,
}

impl MemoryTrimManager {
    pub closed spec fn wf(&self) -> bool {
        self.failure_suppression.wf()
    }

    /// The failure state per key.
    pub closed spec fn failures(&self) -> Map<Seq<char>, FailureState> {
        self.failure_suppression@
    }

    /// What is kept of each process, by process id.
    pub open spec fn tracking(&self) -> Map<u32, TrackedProcessView> {
        self.watched@.map_values(|s: TrackedProcess| s@)
    }

    pub fn new() -> (r: Self)
        ensures
            r.wf(),
            r.failures() == Map::<Seq<char>, FailureState>::empty(),
            r.tracking() == Map::<u32, TrackedProcessView>::empty(),
    {
        let r = MemoryTrimManager { watched: BTreeMap::new(), failure_suppression: ExecutionFailureTracker::new() };
        proof {
            assert(r.tracking() =~= Map::<u32, TrackedProcessView>::empty());
        }
        r
    }

    /// Forgets what is kept of every process.
    pub fn clear_tracking(&mut self)
        ensures
            final(self).tracking() == Map::<u32, TrackedProcessView>::empty(),
            final(self).failures() == old(self).failures(),
            final(self).wf() == old(self).wf(),
    {
        self.watched.clear();
        proof {
            assert(self.tracking() =~= Map::<u32, TrackedProcessView>::empty());
        }
    }

    /// Takes a sample of a target whose working set is `working_set_bytes`:
    /// below the threshold it waits and is forgotten; a manual pass trims it
    /// at once; an automatic pass needs its CPU time, updates what is kept of
    /// it (see `tracking_step`) and trims it once it has been idle long
    /// enough.
    pub fn assess_process(
        &mut self,
        target: &MemoryTrimTarget,
        working_set_bytes: u64,
        cpu: Option<ProcessCpuSample>,
        settings: &MemoryTrimSettings,
        mode: MemoryTrimMode,
        processor_count: u32,
        canonical: &CanonicalPaths,
        now: u128,
    ) -> (r: Result<MemoryTrimAssessment, ProcessControlError>)
        requires
            processor_count >= 1,
        ensures
            final(self).failures() == old(self).failures(),
            final(self).wf() == old(self).wf(),
            ({
                let threshold = settings.process_working_set_threshold_mb * MB;
                let pid = target.process_id;
                let before = old(self).tracking();
                if working_set_bytes < threshold && working_set_bytes < u64::MAX {
                    &&& r == Ok::<MemoryTrimAssessment, ProcessControlError>(MemoryTrimAssessment::Waiting)
                    &&& final(self).tracking() == before.remove(pid)
                } else if mode == MemoryTrimMode::Manual {
                    &&& r == Ok::<MemoryTrimAssessment, ProcessControlError>(MemoryTrimAssessment::TrimDue)
                    &&& final(self).tracking() == before
                } else {
                    match cpu {
                        None => {
                            &&& r matches Err(ProcessControlError::Failed(m)) && m@ == "Memory Trim CPU sample is unavailable."@
                            &&& final(self).tracking() == before
                        },
                        Some(c) => {
                            let step = tracking_step(
                                if before.contains_key(pid) { Some(before[pid]) } else { None },
                                *target,
                                c,
                                processor_count,
                                settings.process_idle_seconds * 1_000_000_000,
                                canonical.entries@,
                                now,
                            );
                            &&& r == Ok::<MemoryTrimAssessment, ProcessControlError>(
                                if step.0 { MemoryTrimAssessment::TrimDue } else { MemoryTrimAssessment::Candidate },
                            )
                            &&& final(self).tracking() == before.insert(pid, step.1)
                        },
                    }
                }
            }),
    {
        proof {
            broadcast use vstd::std_specs::btree::group_btree_axioms;
        }
        let pid = target.process_id;
        let threshold = working_set_threshold_bytes(settings.process_working_set_threshold_mb);
        if working_set_bytes < threshold {
            self.forget_process(pid);
            return Ok(MemoryTrimAssessment::Waiting);
        }
        if mode == MemoryTrimMode::Manual {
            return Ok(MemoryTrimAssessment::TrimDue);
        }
        let sample = match cpu {
            Some(c) => c,
            None => {
                return Err(ProcessControlError::Failed(String::from_str("Memory Trim CPU sample is unavailable.")));
            },
        };
        let ghost before = self.tracking();
        let previous = self.watched.remove(&pid);
        proof {
            assert(self.tracking() =~= before.remove(pid));
            if previous.is_some() {
                assert(before.contains_key(pid) && before[pid] == previous->0@);
            } else {
                assert(!before.contains_key(pid));
            }
        }
        let mut state = match previous {
            Some(p) => {
                if p.creation_time == target.creation_time && same_executable_path(
                    p.executable_path.as_str(),
                    target.executable_path.as_str(),
                    canonical,
                ) {
                    p
                } else {
                    TrackedProcess {
                        executable_path: String::from_str(target.executable_path.as_str()),
                        creation_time: target.creation_time,
                        previous_cpu_time: None,
                        idle_since: None,
                        trimmed_while_idle: false,
                    }
                }
            },
            None => TrackedProcess {
                executable_path: String::from_str(target.executable_path.as_str()),
                creation_time: target.creation_time,
                previous_cpu_time: None,
                idle_since: None,
                trimmed_while_idle: false,
            },
        };
        state.executable_path = String::from_str(target.executable_path.as_str());
        let usage = match state.previous_cpu_time {
            Some(p) => process_cpu_usage_percent(p, sample, processor_count),
            None => None,
        };
        state.previous_cpu_time = Some(sample);
        let due = match usage {
            Some(u) => {
                let idle_duration = settings.process_idle_seconds as u128 * 1_000_000_000;
                ready_to_trim(&mut state, u, idle_duration, now)
            },
            None => false,
        };
        let ghost after = state@;
        self.watched.insert(pid, state);
        proof {
            assert(self.tracking() =~= before.insert(pid, after));
        }
        if due {
            Ok(MemoryTrimAssessment::TrimDue)
        } else {
            Ok(MemoryTrimAssessment::Candidate)
        }
    }

    /// Marks a process as trimmed while idle, after an automatic trim.
    pub fn mark_trimmed(&mut self, process_id: u32)
        ensures
            final(self).failures() == old(self).failures(),
            final(self).wf() == old(self).wf(),
            final(self).tracking() == if old(self).tracking().contains_key(process_id) {
                old(self).tracking().insert(
                    process_id,
                    TrackedProcessView { trimmed_while_idle: true, ..old(self).tracking()[process_id] },
                )
            } else {
                old(self).tracking()
            },
    {
        proof {
            broadcast use vstd::std_specs::btree::group_btree_axioms;
        }
        let ghost before = self.tracking();
        match self.watched.remove(&process_id) {
            Some(mut state) => {
                proof {
                    assert(before[process_id] == state@);
                }
                state.trimmed_while_idle = true;
                let ghost after = state@;
                self.watched.insert(process_id, state);
                proof {
                    assert(self.tracking() =~= before.insert(process_id, after));
                }
            },
            None => {
                proof {
                    assert(self.tracking() =~= before);
                }
            },
        }
    }

    /// Holds a pass back: forgets what is kept of every process, and with
    /// automation or the feature off also every failure.
    pub fn hold_pass(&mut self, hold: MemoryTrimHold) -> (r: MemoryTrimSnapshot)
        requires
            old(self).wf(),
        ensures
            final(self).wf(),
            final(self).tracking() == Map::<u32, TrackedProcessView>::empty(),
            final(self).failures() == if hold == MemoryTrimHold::ForegroundUnknown {
                old(self).failures()
            } else {
                Map::<Seq<char>, FailureState>::empty()
            },
            idle_snapshot(r, hold == MemoryTrimHold::ForegroundUnknown, None, hold_message(hold)),
            r.last_error is None,
    {
        self.clear_tracking();
        match hold {
            MemoryTrimHold::AutomationDisabled => {
                self.clear_failure_suppression();
                idle_snapshot_of(false, None, String::from_str("Automation disabled."))
            },
            MemoryTrimHold::FeatureDisabled => {
                self.clear_failure_suppression();
                idle_snapshot_of(false, None, String::from_str("Memory Trim disabled."))
            },
            MemoryTrimHold::ForegroundUnknown => idle_snapshot_of(
                true,
                None,
                String::from_str("Paused: foreground app is unknown."),
            ),
        }
    }

    /// The system memory load could not be read: forgets what is kept of
    /// every process and reports the error.
    pub fn memory_load_unavailable(&mut self, error: &str) -> (r: MemoryTrimSnapshot)
        ensures
            final(self).wf() == old(self).wf(),
            final(self).tracking() == Map::<u32, TrackedProcessView>::empty(),
            final(self).failures() == old(self).failures(),
            idle_snapshot(r, true, None, error@),
            r.last_error matches Some(e) && e@ == error@,
    {
        self.clear_tracking();
        let mut r = idle_snapshot_of(true, None, String::from_str(error));
        r.last_error = Some(String::from_str(error));
        r
    }

    /// An automatic pass waits for the memory load: forgets what is kept of
    /// every process.
    pub fn wait_for_memory_load(&mut self, memory_load_percent: u8, threshold_percent: u8) -> (r: MemoryTrimSnapshot)
        ensures
            final(self).wf() == old(self).wf(),
            final(self).tracking() == Map::<u32, TrackedProcessView>::empty(),
            final(self).failures() == old(self).failures(),
            idle_snapshot(
                r,
                true,
                Some(memory_load_percent),
                "Memory Trim waiting for system memory load >= "@ + decimal(
                    (if threshold_percent < 100 { threshold_percent } else { 100 }) as nat,
                ) + "%."@,
            ),
            r.last_error is None,
    {
        self.clear_tracking();
        idle_snapshot_of(true, Some(memory_load_percent), waiting_message(threshold_percent))
    }

    /// The process list could not be read: forgets what is kept of every
    /// process and reports the error as the message.
    pub fn process_list_unavailable(&mut self, memory_load_percent: u8, error: &str) -> (r: MemoryTrimSnapshot)
        ensures
            final(self).wf() == old(self).wf(),
            final(self).tracking() == Map::<u32, TrackedProcessView>::empty(),
            final(self).failures() == old(self).failures(),
            idle_snapshot(r, true, Some(memory_load_percent), error@),
            r.last_error is None,
    {
        self.clear_tracking();
        idle_snapshot_of(true, Some(memory_load_percent), String::from_str(error))
    }

    /// Keeps only what concerns this pass's targets: the records of their
    /// process ids and the failures of their executables.
    pub fn retain_targets(&mut self, targets: &Vec<MemoryTrimTarget>)
        requires
            old(self).wf(),
        ensures
            final(self).wf(),
            final(self).tracking() == old(self).tracking().restrict(target_ids(targets@)),
            final(self).failures() == old(self).failures().restrict(target_failure_keys(targets@)),
    {
        proof {
            broadcast use vstd::std_specs::btree::group_btree_axioms;
        }
        let ghost before = self.tracking();
        let mut kept: BTreeMap<u32, TrackedProcess> = BTreeMap::new();
        let mut paths: Vec<String> = Vec::new();
        let mut i: usize = 0;
        while i < targets.len()
            invariant
                i <= targets@.len(),
                self.failure_suppression == old(self).failure_suppression,
                paths@.len() == i,
                forall|j: int| 0 <= j < i ==> (#[trigger] paths@[j])@ == targets@[j].executable_path@,
                ({
                    let seen = Set::new(|id: u32| exists|j: int| 0 <= j < i && (#[trigger] targets@[j]).process_id == id);
                    &&& kept@.map_values(|s: TrackedProcess| s@) == before.restrict(seen)
                    &&& self.tracking() == before.remove_keys(seen)
                }),
            decreases targets@.len() - i,
        {
            let id = targets[i].process_id;
            let ghost seen = Set::new(|x: u32| exists|j: int| 0 <= j < i && (#[trigger] targets@[j]).process_id == x);
            let ghost seen2 = Set::new(|x: u32| exists|j: int| 0 <= j < i + 1 && (#[trigger] targets@[j]).process_id == x);
            proof {
                assert(seen2 =~= seen.insert(id)) by {
                    assert forall|x: u32| seen2.contains(x) implies #[trigger] seen.insert(id).contains(x) by {
                        let j = choose|j: int| 0 <= j < i + 1 && (#[trigger] targets@[j]).process_id == x;
                        if j < i {
                            assert(seen.contains(x));
                        }
                    }
                    assert forall|x: u32| seen.insert(id).contains(x) implies #[trigger] seen2.contains(x) by {
                        if x == id {
                            assert(targets@[i as int].process_id == x);
                        } else {
                            let j = choose|j: int| 0 <= j < i && (#[trigger] targets@[j]).process_id == x;
                            assert(targets@[j].process_id == x);
                        }
                    }
                }
            }
            let ghost kept_before = kept@.map_values(|s: TrackedProcess| s@);
            let ghost watched_before = self.tracking();
            match self.watched.remove(&id) {
                Some(state) => {
                    let ghost v = state@;
                    kept.insert(id, state);
                    proof {
                        assert(watched_before.contains_key(id) && watched_before[id] == v);
                        assert(kept@.map_values(|s: TrackedProcess| s@) =~= kept_before.insert(id, v));
                        assert(kept@.map_values(|s: TrackedProcess| s@) =~= before.restrict(seen2));
                        assert(self.tracking() =~= watched_before.remove(id));
                        assert(self.tracking() =~= before.remove_keys(seen2));
                    }
                },
                None => {
                    proof {
                        assert(!watched_before.contains_key(id));
                        assert(kept@.map_values(|s: TrackedProcess| s@) =~= before.restrict(seen2));
                        assert(self.tracking() =~= watched_before.remove(id));
                        assert(self.tracking() =~= before.remove_keys(seen2));
                    }
                },
            }
            paths.push(String::from_str(targets[i].executable_path.as_str()));
            i = i + 1;
        }
        self.watched = kept;
        self.failure_suppression.retain_keys(&paths);
        proof {
            assert(target_ids(targets@) =~= Set::new(
                |id: u32| exists|j: int| 0 <= j < targets@.len() && (#[trigger] targets@[j]).process_id == id,
            ));
            assert forall|k: Seq<char>| failure_keys_of(paths@).contains(k) implies #[trigger] target_failure_keys(
                targets@,
            ).contains(k) by {
                let j = choose|j: int| 0 <= j < paths@.len() && failure_key(#[trigger] paths@[j]@) == k;
                assert(failure_key(targets@[j].executable_path@) == k);
            }
            assert forall|k: Seq<char>| target_failure_keys(targets@).contains(k) implies #[trigger] failure_keys_of(
                paths@,
            ).contains(k) by {
                let j = choose|j: int| 0 <= j < targets@.len() && failure_key((#[trigger] targets@[j]).executable_path@) == k;
                assert(failure_key(paths@[j]@) == k);
            }
            assert(failure_keys_of(paths@) =~= target_failure_keys(targets@));
        }
    }

    /// Takes what came of a target in this pass: a process waiting or a
    /// candidate clears its failures; a trimmed one also counts as trimmed,
    /// joins the trimmed apps and is logged with `trim_reason`; an exited
    /// process is skipped and forgotten; denied access is skipped, logged and
    /// suppressed at once; any other error counts toward suppression and is
    /// recorded as a failure.
    pub fn record_update_result(
        &mut self,
        pass: &mut MemoryTrimPass,
        target: &MemoryTrimTarget,
        result: &Result<MemoryTrimProcessUpdate, ProcessControlError>,
        mode: MemoryTrimMode,
        action_log: &mut ActionLog,
    )
        requires
            old(self).wf(),
            old(action_log).wf(),
            old(pass).candidate_processes < usize::MAX,
            old(pass).trimmed_processes < usize::MAX,
            old(pass).skipped_processes < usize::MAX,
            old(pass).failures.count < usize::MAX,
            strictly_sorted(string_views(old(pass).trimmed_apps@)),
        ensures
            final(self).wf(),
            final(action_log).wf(),
            strictly_sorted(string_views(final(pass).trimmed_apps@)),
            ({
                let key = failure_key(target.executable_path@);
                let entry = |result: ActionLogResult, reason: Seq<char>| ActionLogEntryView {
                    feature: ActionLogFeature::MemoryTrim,
                    process_id: Some(target.process_id),
                    process_name: target.process_name@,
                    action: action_of_result(result),
                    result,
                    reason,
                };
                let old_log = old(action_log).view_entries();
                let cap = old(action_log).capacity_spec();
                let old_apps = string_views(old(pass).trimmed_apps@).to_set();
                let new_apps = string_views(final(pass).trimmed_apps@).to_set();
                match result {
                    Ok(update) => {
                        let counted: int = if update is Waiting { 0 } else { 1 };
                        &&& final(self).failures() == old(self).failures().remove(key)
                        &&& final(self).tracking() == old(self).tracking()
                        &&& final(pass).candidate_processes == old(pass).candidate_processes + counted
                        &&& final(pass).skipped_processes == old(pass).skipped_processes
                        &&& final(pass).failures.count == old(pass).failures.count
                        &&& match update {
                            MemoryTrimProcessUpdate::Trimmed { freed_bytes } => {
                                &&& final(pass).trimmed_processes == old(pass).trimmed_processes + 1
                                &&& new_apps == old_apps.insert(target.process_name@)
                                &&& final(action_log).view_entries() == log_after(
                                    old_log,
                                    cap,
                                    entry(ActionLogResult::Applied, trim_reason_spec(mode, *freed_bytes)),
                                )
                            },
                            _ => {
                                &&& final(pass).trimmed_processes == old(pass).trimmed_processes
                                &&& final(pass).trimmed_apps@ == old(pass).trimmed_apps@
                                &&& final(action_log).view_entries() == old_log
                            },
                        }
                    },
                    Err(ProcessControlError::ProcessExited) => {
                        &&& final(self).failures() == old(self).failures()
                        &&& final(self).tracking() == old(self).tracking().remove(target.process_id)
                        &&& final(pass).candidate_processes == old(pass).candidate_processes
                        &&& final(pass).trimmed_processes == old(pass).trimmed_processes
                        &&& final(pass).trimmed_apps@ == old(pass).trimmed_apps@
                        &&& final(pass).skipped_processes == old(pass).skipped_processes + 1
                        &&& final(pass).failures.count == old(pass).failures.count
                        &&& final(action_log).view_entries() == old_log
                    },
                    Err(ProcessControlError::AccessDenied(_)) => {
                        &&& final(self).failures() == model_suppress(old(self).failures(), key)
                        &&& final(self).tracking() == old(self).tracking()
                        &&& final(pass).candidate_processes == old(pass).candidate_processes
                        &&& final(pass).trimmed_processes == old(pass).trimmed_processes
                        &&& final(pass).trimmed_apps@ == old(pass).trimmed_apps@
                        &&& final(pass).skipped_processes == old(pass).skipped_processes + 1
                        &&& final(pass).failures.count == old(pass).failures.count
                        &&& final(action_log).view_entries() == log_after(
                            old_log,
                            cap,
                            entry(ActionLogResult::Skipped, "Skipped because the process could not be opened."@),
                        )
                    },
                    Err(e) => {
                        &&& final(self).failures() == model_record(old(self).failures(), key)
                        &&& final(self).tracking() == old(self).tracking()
                        &&& final(pass).candidate_processes == old(pass).candidate_processes
                        &&& final(pass).trimmed_processes == old(pass).trimmed_processes
                        &&& final(pass).trimmed_apps@ == old(pass).trimmed_apps@
                        &&& final(pass).skipped_processes == old(pass).skipped_processes
                        &&& final(pass).failures.count == old(pass).failures.count + 1
                        &&& (old(pass).failures.last_error is None ==> (final(pass).failures.last_error matches Some(m)
                            && m@ == trim_failure_text(target.process_id, target.process_name@, control_error_text(*e))))
                        &&& (old(pass).failures.last_error is Some ==> final(pass).failures.last_error
                            == old(pass).failures.last_error)
                        &&& final(action_log).view_entries() == log_after(
                            old_log,
                            cap,
                            entry(ActionLogResult::Failed, control_error_text(*e)),
                        )
                    },
                }
            }),
    {
        match result {
            Ok(update) => {
                self.clear_process_failure(target.executable_path.as_str());
                match update {
                    MemoryTrimProcessUpdate::Waiting => {},
                    MemoryTrimProcessUpdate::Candidate => {
                        pass.candidate_processes = pass.candidate_processes + 1;
                    },
                    MemoryTrimProcessUpdate::Trimmed { freed_bytes } => {
                        pass.candidate_processes = pass.candidate_processes + 1;
                        pass.trimmed_processes = pass.trimmed_processes + 1;
                        insert_sorted_unique(&mut pass.trimmed_apps, target.process_name.as_str());
                        action_log.record(
                            ActionLogFeature::MemoryTrim,
                            Some(target.process_id),
                            String::from_str(target.process_name.as_str()),
                            ActionLogResult::Applied,
                            trim_reason(mode, *freed_bytes),
                        );
                    },
                }
            },
            Err(ProcessControlError::ProcessExited) => {
                pass.skipped_processes = pass.skipped_processes + 1;
                self.forget_process(target.process_id);
            },
            Err(ProcessControlError::AccessDenied(_)) => {
                pass.skipped_processes = pass.skipped_processes + 1;
                self.failure_suppression.suppress_process_failure(target.executable_path.as_str());
                action_log.record(
                    ActionLogFeature::MemoryTrim,
                    Some(target.process_id),
                    String::from_str(target.process_name.as_str()),
                    ActionLogResult::Skipped,
                    String::from_str("Skipped because the process could not be opened."),
                );
            },
            Err(e) => {
                self.record_process_failure(target.executable_path.as_str());
                let message = e.message();
                pass.failures.record(target.process_id, target.process_name.as_str(), message.as_str(), action_log);
            },
        }
    }

    /// Takes the result of trimming a target whose trim was due: a trim in an
    /// automatic pass marks the process as trimmed while idle.
    pub fn finish_trim(&mut self, target: &MemoryTrimTarget, mode: MemoryTrimMode, trim: Result<Option<u64>, ProcessControlError>) -> (r:
        Result<MemoryTrimProcessUpdate, ProcessControlError>)
        ensures
            final(self).failures() == old(self).failures(),
            final(self).wf() == old(self).wf(),
            r == match trim {
                Ok(freed_bytes) => Ok(MemoryTrimProcessUpdate::Trimmed { freed_bytes }),
                Err(e) => Err::<MemoryTrimProcessUpdate, ProcessControlError>(e),
            },
            final(self).tracking() == if trim is Ok && mode == MemoryTrimMode::Automatic && old(self).tracking().contains_key(
                target.process_id,
            ) {
                old(self).tracking().insert(
                    target.process_id,
                    TrackedProcessView { trimmed_while_idle: true, ..old(self).tracking()[target.process_id] },
                )
            } else {
                old(self).tracking()
            },
    {
        match trim {
            Ok(freed_bytes) => {
                if mode == MemoryTrimMode::Automatic {
                    self.mark_trimmed(target.process_id);
                }
                Ok(MemoryTrimProcessUpdate::Trimmed { freed_bytes })
            },
            Err(e) => Err(e),
        }
    }

    /// Whether a target is skipped because its executable is suppressed; a
    /// skip counts, and a newly suppressed executable joins the pass's
    /// auto-excluded executables and is logged.
    pub fn skip_if_suppressed(&mut self, pass: &mut MemoryTrimPass, target: &MemoryTrimTarget, action_log: &mut ActionLog) -> (r:
        bool)
        requires
            old(self).wf(),
            old(action_log).wf(),
            old(pass).skipped_processes < usize::MAX,
            strictly_sorted(string_views(old(pass).auto_excluded_processes@)),
        ensures
            final(self).wf(),
            final(action_log).wf(),
            final(self).tracking() == old(self).tracking(),
            strictly_sorted(string_views(final(pass).auto_excluded_processes@)),
            r == model_suppressed(old(self).failures(), failure_key(target.executable_path@)),
            final(self).failures() == model_after_check(old(self).failures(), failure_key(target.executable_path@)),
            final(pass).skipped_processes == old(pass).skipped_processes + if r { 1int } else { 0 },
            final(pass).candidate_processes == old(pass).candidate_processes,
            final(pass).trimmed_processes == old(pass).trimmed_processes,
            final(pass).trimmed_apps == old(pass).trimmed_apps,
            final(pass).failures.count == old(pass).failures.count,
            final(pass).failures.last_error == old(pass).failures.last_error,
            model_newly_suppressed(old(self).failures(), failure_key(target.executable_path@)) ==> {
                &&& string_views(final(pass).auto_excluded_processes@).to_set() == string_views(
                    old(pass).auto_excluded_processes@,
                ).to_set().insert(target.executable_path@)
                &&& final(action_log).view_entries() == crate::action_log::log_after(
                    old(action_log).view_entries(),
                    old(action_log).capacity_spec(),
                    ActionLogEntryView {
                        feature: ActionLogFeature::MemoryTrim,
                        process_id: Some(target.process_id),
                        process_name: target.process_name@,
                        action: crate::action_log::action_of_result(ActionLogResult::Skipped),
                        result: ActionLogResult::Skipped,
                        reason: crate::rules::stopped_retrying_message("Memory Trim"@),
                    },
                )
            },
            !model_newly_suppressed(old(self).failures(), failure_key(target.executable_path@)) ==> {
                &&& final(pass).auto_excluded_processes@ == old(pass).auto_excluded_processes@
                &&& final(action_log).view_entries() == old(action_log).view_entries()
            },
    {
        let suppressed = self.is_process_suppressed(
            target.process_id,
            target.process_name.as_str(),
            target.executable_path.as_str(),
            action_log,
            &mut pass.auto_excluded_processes,
        );
        if suppressed {
            pass.skipped_processes = pass.skipped_processes + 1;
        }
        suppressed
    }

    /// Forgets what is kept of one process.
    pub fn forget_process(&mut self, process_id: u32)
        ensures
            final(self).tracking() == old(self).tracking().remove(process_id),
            final(self).failures() == old(self).failures(),
            final(self).wf() == old(self).wf(),
    {
        proof {
            broadcast use vstd::std_specs::btree::group_btree_axioms;
        }
        let _ = self.watched.remove(&process_id);
        proof {
            assert(self.tracking() =~= old(self).tracking().remove(process_id));
        }
    }

    /// Counts one more failure for the executable.
    pub fn record_process_failure(&mut self, executable_path: &str)
        requires
            old(self).wf(),
        ensures
            final(self).wf(),
            final(self).failures() == model_record(old(self).failures(), failure_key(executable_path@)),
            final(self).tracking() == old(self).tracking(),
    {
        self.failure_suppression.record_process_failure(executable_path);
    }

    /// Forgets the failures of the executable.
    pub fn clear_process_failure(&mut self, executable_path: &str)
        requires
            old(self).wf(),
        ensures
            final(self).wf(),
            final(self).failures() == old(self).failures().remove(failure_key(executable_path@)),
            final(self).tracking() == old(self).tracking(),
    {
        self.failure_suppression.clear_process_failure(executable_path);
    }

    /// Forgets every failure.
    pub fn clear_failure_suppression(&mut self)
        ensures
            final(self).wf(),
            final(self).failures() == Map::<Seq<char>, FailureState>::empty(),
            final(self).tracking() == old(self).tracking(),
    {
        self.failure_suppression.clear();
    }

    /// Whether the executable is suppressed; the first time it is, adds it to
    /// the auto-excluded set and logs that Memory Trim stopped retrying it.
    pub fn is_process_suppressed(
        &mut self,
        process_id: u32,
        process_name: &str,
        executable_path: &str,
        action_log: &mut ActionLog,
        auto_excluded_processes: &mut Vec<String>,
    ) -> (r: bool)
        requires
            old(self).wf(),
            old(action_log).wf(),
            strictly_sorted(string_views(old(auto_excluded_processes)@)),
        ensures
            final(self).wf(),
            final(action_log).wf(),
            strictly_sorted(string_views(final(auto_excluded_processes)@)),
            r == model_suppressed(old(self).failures(), failure_key(executable_path@)),
            final(self).failures() == model_after_check(old(self).failures(), failure_key(executable_path@)),
            final(self).tracking() == old(self).tracking(),
            model_newly_suppressed(old(self).failures(), failure_key(executable_path@)) ==> {
                &&& string_views(final(auto_excluded_processes)@).to_set() == string_views(
                    old(auto_excluded_processes)@,
                ).to_set().insert(executable_path@)
                &&& final(action_log).view_entries() == crate::action_log::log_after(
                    old(action_log).view_entries(),
                    old(action_log).capacity_spec(),
                    ActionLogEntryView {
                        feature: ActionLogFeature::MemoryTrim,
                        process_id: Some(process_id),
                        process_name: process_name@,
                        action: crate::action_log::action_of_result(ActionLogResult::Skipped),
                        result: ActionLogResult::Skipped,
                        reason: crate::rules::stopped_retrying_message("Memory Trim"@),
                    },
                )
            },
            !model_newly_suppressed(old(self).failures(), failure_key(executable_path@)) ==> {
                &&& final(auto_excluded_processes)@ == old(auto_excluded_processes)@
                &&& final(action_log).view_entries() == old(action_log).view_entries()
            },
    {
        let suppression = check_and_report_suppression(
            &mut self.failure_suppression,
            action_log,
            ActionLogFeature::MemoryTrim,
            "Memory Trim",
            process_id,
            process_name,
            executable_path,
        );
        if suppression.newly_suppressed {
            insert_sorted_unique(auto_excluded_processes, executable_path);
        }
        suppression.suppressed
    }
}

impl Default for MemoryTrimManager {
    fn default() -> (r: Self)
        ensures
            r.wf(),
            r.failures() == Map::<Seq<char>, FailureState>::empty(),
            r.tracking() == Map::<u32, TrackedProcessView>::empty(),
    {
        MemoryTrimManager::new()
    }
}

/// What a sample means for a process in this pass.
#[derive(Debug, Clone, Copy, PartialEq, Eq, Structural)]
pub enum MemoryTrimAssessment {
    /// Its working set is below the threshold.
    Waiting,
    /// It is large but not (yet) to be trimmed.
    Candidate,
    /// It is to be trimmed now.
    TrimDue,
}

/// A fresh record of a target.
pub open spec fn fresh_tracking(target: MemoryTrimTarget) -> TrackedProcessView {
    TrackedProcessView {
        executable_path: target.executable_path@,
        creation_time: target.creation_time,
        previous_cpu_time: None,
        idle_since: None,
        trimmed_while_idle: false,
    }
}

/// The record a target starts from: the one kept for its id when it is the
/// same process (same start time and executable), else a fresh one.
pub open spec fn kept_tracking(
    previous: Option<TrackedProcessView>,
    target: MemoryTrimTarget,
    canon: Seq<CanonicalPath>,
) -> TrackedProcessView {
    match previous {
        Some(s) => if s.creation_time == target.creation_time && same_executable_path_spec(
            s.executable_path,
            target.executable_path@,
            canon,
        ) {
            s
        } else {
            fresh_tracking(target)
        },
        None => fresh_tracking(target),
    }
}

/// What a CPU sample does to the record of a target: the record takes the
/// target's executable path and the sample; with an earlier sample and a
/// usage between the two, `idle_step` decides whether a trim is due.
pub open spec fn tracking_step(
    previous: Option<TrackedProcessView>,
    target: MemoryTrimTarget,
    cpu: ProcessCpuSample,
    processor_count: u32,
    idle_duration: int,
    canon: Seq<CanonicalPath>,
    now: u128,
) -> (bool, TrackedProcessView) {
    let kept = kept_tracking(previous, target, canon);
    let base = TrackedProcessView {
        executable_path: target.executable_path@,
        previous_cpu_time: Some(cpu),
        ..kept
    };
    match kept.previous_cpu_time {
        Some(p) => match usage_between(p, cpu, processor_count) {
            Some(u) => idle_step(base, u, idle_duration as u128, now),
            None => (false, base),
        },
        None => (false, base),
    }
}

/// What came of a process in a pass.
#[derive(Debug, Clone, Copy, PartialEq, Eq, Structural)]
pub enum MemoryTrimProcessUpdate {
    /// Its working set is below the threshold.
    Waiting,
    /// It is large but was not trimmed.
    Candidate,
    /// It was trimmed, with the estimate of what that freed.
    Trimmed { freed_bytes: Option<u64> },
}

/// The running totals of a pass.
pub struct MemoryTrimPass {
    pub candidate_processes: usize,
    pub trimmed_processes: usize,
    pub skipped_processes: usize,
    pub failures: MemoryTrimFailures,
    /// The names of the trimmed processes, sorted, each once.
    pub trimmed_apps: Vec<String>,
    /// The executables suppressed in this pass, sorted, each once.
    pub auto_excluded_processes: Vec<String>,
}

impl MemoryTrimPass {
    pub fn new() -> (r: Self)
        ensures
            r.candidate_processes == 0,
            r.trimmed_processes == 0,
            r.skipped_processes == 0,
            r.failures.count == 0,
            r.failures.last_error is None,
            r.trimmed_apps@.len() == 0,
            r.auto_excluded_processes@.len() == 0,
    {
        MemoryTrimPass {
            candidate_processes: 0,
            trimmed_processes: 0,
            skipped_processes: 0,
            failures: MemoryTrimFailures::new(),
            trimmed_apps: Vec::new(),
            auto_excluded_processes: Vec::new(),
        }
    }

    /// The snapshot of a finished pass over `scanned_processes` processes.
    pub fn snapshot(self, scanned_processes: usize, memory_load_percent: u8, mode: MemoryTrimMode) -> (r:
        MemoryTrimSnapshot)
        ensures
            r.enabled,
            r.scanned_processes == scanned_processes,
            r.candidate_processes == self.candidate_processes,
            r.trimmed_processes == self.trimmed_processes,
            r.skipped_processes == self.skipped_processes,
            r.failed_processes == self.failures.count,
            r.memory_load_percent == Some(memory_load_percent),
            r.trimmed_apps == self.trimmed_apps,
            r.auto_excluded_processes == self.auto_excluded_processes,
            r.message@ == match mode {
                MemoryTrimMode::Automatic => "Memory Trim active."@,
                MemoryTrimMode::Manual => "Manual Memory Trim pass completed."@,
            },
            r.last_error == self.failures.last_error,
    {
        MemoryTrimSnapshot {
            enabled: true,
            scanned_processes,
            candidate_processes: self.candidate_processes,
            trimmed_processes: self.trimmed_processes,
            skipped_processes: self.skipped_processes,
            failed_processes: self.failures.count,
            memory_load_percent: Some(memory_load_percent),
            trimmed_apps: self.trimmed_apps,
            auto_excluded_processes: self.auto_excluded_processes,
            message: match mode {
                MemoryTrimMode::Automatic => String::from_str("Memory Trim active."),
                MemoryTrimMode::Manual => String::from_str("Manual Memory Trim pass completed."),
            },
            last_error: self.failures.last_error,
        }
    }
}

/// A snapshot of a pass that looked at no process: nothing counted.
pub open spec fn idle_snapshot(
    s: MemoryTrimSnapshot,
    enabled: bool,
    memory_load_percent: Option<u8>,
    message: Seq<char>,
) -> bool {
    &&& s.enabled == enabled
    &&& s.scanned_processes == 0
    &&& s.candidate_processes == 0
    &&& s.trimmed_processes == 0
    &&& s.skipped_processes == 0
    &&& s.failed_processes == 0
    &&& s.memory_load_percent == memory_load_percent
    &&& s.trimmed_apps@.len() == 0
    &&& s.auto_excluded_processes@.len() == 0
    &&& s.message@ == message
}

fn idle_snapshot_of(enabled: bool, memory_load_percent: Option<u8>, message: String) -> (r: MemoryTrimSnapshot)
    ensures
        idle_snapshot(r, enabled, memory_load_percent, message@),
        r.last_error is None,
{
    MemoryTrimSnapshot {
        enabled,
        scanned_processes: 0,
        candidate_processes: 0,
        trimmed_processes: 0,
        skipped_processes: 0,
        failed_processes: 0,
        memory_load_percent,
        trimmed_apps: Vec::new(),
        auto_excluded_processes: Vec::new(),
        message,
        last_error: None,
    }
}

/// The message of a pass held back.
pub open spec fn hold_message(hold: MemoryTrimHold) -> Seq<char> {
    match hold {
        MemoryTrimHold::AutomationDisabled => "Automation disabled."@,
        MemoryTrimHold::FeatureDisabled => "Memory Trim disabled."@,
        MemoryTrimHold::ForegroundUnknown => "Paused: foreground app is unknown."@,
    }
}

/// The process ids of the targets.
pub open spec fn target_ids(targets: Seq<MemoryTrimTarget>) -> Set<u32> {
    Set::new(|id: u32| exists|i: int| 0 <= i < targets.len() && (#[trigger] targets[i]).process_id == id)
}

/// The failure keys of the targets' executables.
pub open spec fn target_failure_keys(targets: Seq<MemoryTrimTarget>) -> Set<Seq<char>> {
    Set::new(
        |k: Seq<char>| exists|i: int| 0 <= i < targets.len() && failure_key((#[trigger] targets[i]).executable_path@) == k,
    )
}

/// Why a Memory Trim pass does not look at processes.
#[derive(Debug, Clone, Copy, PartialEq, Eq, Structural)]
pub enum MemoryTrimHold {
    AutomationDisabled,
    FeatureDisabled,
    ForegroundUnknown,
}

/// The hold a pass starts with, if any. Automation or the feature being off
/// also forgets tracking and failures; an unknown foreground app forgets
/// tracking.
pub fn memory_trim_hold(automation_enabled: bool, settings: &MemoryTrimSettings, foreground_process_id: Option<u32>) -> (r:
    Option<MemoryTrimHold>)
    ensures
        r == if !automation_enabled {
            Some(MemoryTrimHold::AutomationDisabled)
        } else if !settings.enabled {
            Some(MemoryTrimHold::FeatureDisabled)
        } else if foreground_process_id is None {
            Some(MemoryTrimHold::ForegroundUnknown)
        } else {
            None
        },
{
    if !automation_enabled {
        Some(MemoryTrimHold::AutomationDisabled)
    } else if !settings.enabled {
        Some(MemoryTrimHold::FeatureDisabled)
    } else if foreground_process_id.is_none() {
        Some(MemoryTrimHold::ForegroundUnknown)
    } else {
        None
    }
}

/// A process Memory Trim looks at in this pass.
#[derive(Debug, Clone)]
pub struct MemoryTrimTarget {
    pub process_id: u32,
    pub process_name: String,
    pub executable_path: String,
    pub creation_time: u64,
}

/// Whether Memory Trim looks at a listed process: not the idle process nor
/// this one, verifiably not critical, not a built-in exclusion, with a start
/// time and an executable path, not the foreground app (by id or
/// executable) and not excluded by an enabled user exclusion.
pub open spec fn mt_eligible(
    p: ProcessInfo,
    current_process_id: u32,
    foreground_process_id: Option<u32>,
    foreground_path: Option<Seq<char>>,
    canon: Seq<CanonicalPath>,
    settings: MemoryTrimSettings,
) -> bool {
    &&& p.id != 0
    &&& p.is_critical == Some(false)
    &&& p.id != current_process_id
    &&& !list_contains_name(extended_builtin_exclusions(), p.name@)
    &&& p.creation_time is Some
    &&& p.image_path is Some
    &&& foreground_process_id != Some(p.id)
    &&& !(match foreground_path {
        Some(f) => same_executable_path_spec(f, p.image_path->0@, canon),
        None => false,
    })
    &&& !has_rule_for(settings.exclusions@, p.image_path->0@, true)
}

/// The executable path of the first listed process with the given id.
pub open spec fn first_path_with_id(ps: Seq<ProcessInfo>, id: u32) -> Option<Seq<char>>
    decreases ps.len(),
{
    if ps.len() == 0 {
        None
    } else if ps[0].id == id {
        match ps[0].image_path {
            Some(p) => Some(p@),
            None => None,
        }
    } else {
        first_path_with_id(ps.drop_first(), id)
    }
}

/// The foreground app's executable path, from the first listed process with
/// its id.
pub open spec fn foreground_path_of(ps: Seq<ProcessInfo>, foreground_process_id: Option<u32>) -> Option<Seq<char>> {
    match foreground_process_id {
        Some(id) => first_path_with_id(ps, id),
        None => None,
    }
}

fn foreground_executable_path(processes: &Vec<ProcessInfo>, foreground_process_id: Option<u32>) -> (r: Option<String>)
    ensures
        match r {
            Some(s) => foreground_path_of(processes@, foreground_process_id) == Some(s@),
            None => foreground_path_of(processes@, foreground_process_id) is None,
        },
{
    let id = match foreground_process_id {
        Some(id) => id,
        None => {
            return None;
        },
    };
    assert(processes@.subrange(0, processes@.len() as int) =~= processes@);
    let mut i: usize = 0;
    while i < processes.len()
        invariant
            i <= processes@.len(),
            foreground_process_id == Some(id),
            first_path_with_id(processes@, id) == first_path_with_id(processes@.subrange(i as int, processes@.len() as int), id),
        decreases processes@.len() - i,
    {
        let ghost rest = processes@.subrange(i as int, processes@.len() as int);
        assert(rest[0] == processes@[i as int]);
        assert(rest.len() > 0);
        if processes[i].id == id {
            assert(first_path_with_id(rest, id) == match rest[0].image_path {
                Some(p) => Some(p@),
                None => None::<Seq<char>>,
            });
            let r = match &processes[i].image_path {
                Some(p) => Some(String::from_str(p.as_str())),
                None => None,
            };
            assert(match r {
                Some(s) => first_path_with_id(rest, id) == Some(s@),
                None => first_path_with_id(rest, id) is None,
            });
            return r;
        }
        assert(rest.drop_first() =~= processes@.subrange(i + 1, processes@.len() as int));
        i = i + 1;
    }
    None
}

/// The eligible processes, in listed order.
pub open spec fn mt_candidates(
    ps: Seq<ProcessInfo>,
    current_process_id: u32,
    foreground_process_id: Option<u32>,
    foreground_path: Option<Seq<char>>,
    canon: Seq<CanonicalPath>,
    settings: MemoryTrimSettings,
) -> Seq<ProcessInfo>
    decreases ps.len(),
{
    if ps.len() == 0 {
        Seq::empty()
    } else {
        let rest = mt_candidates(ps.drop_last(), current_process_id, foreground_process_id, foreground_path, canon, settings);
        if mt_eligible(ps.last(), current_process_id, foreground_process_id, foreground_path, canon, settings) {
            rest.push(ps.last())
        } else {
            rest
        }
    }
}

/// Whether a target describes a listed process.
pub open spec fn mt_target_of(t: MemoryTrimTarget, p: ProcessInfo) -> bool {
    &&& t.process_id == p.id
    &&& t.process_name@ == p.name@
    &&& (p.image_path matches Some(path) && t.executable_path@ == path@)
    &&& p.creation_time == Some(t.creation_time)
}

/// The eligible processes as targets, in listed order.
pub fn memory_trim_candidates(
    processes: &Vec<ProcessInfo>,
    current_process_id: u32,
    foreground_process_id: Option<u32>,
    canonical: &CanonicalPaths,
    settings: &MemoryTrimSettings,
) -> (r: Vec<MemoryTrimTarget>)
    ensures
        ({
            let cs = mt_candidates(
                processes@,
                current_process_id,
                foreground_process_id,
                foreground_path_of(processes@, foreground_process_id),
                canonical.entries@,
                *settings,
            );
            &&& r@.len() == cs.len()
            &&& forall|k: int| 0 <= k < r@.len() ==> mt_target_of(#[trigger] r@[k], cs[k])
        }),
{
    let fg_path = foreground_executable_path(processes, foreground_process_id);
    let ghost fp = foreground_path_of(processes@, foreground_process_id);
    let mut out: Vec<MemoryTrimTarget> = Vec::new();
    let mut i: usize = 0;
    while i < processes.len()
        invariant
            i <= processes@.len(),
            match fg_path {
                Some(s) => fp == Some(s@),
                None => fp is None,
            },
            ({
                let cs = mt_candidates(processes@.subrange(0, i as int), current_process_id, foreground_process_id, fp, canonical.entries@, *settings);
                &&& out@.len() == cs.len()
                &&& forall|k: int| 0 <= k < out@.len() ==> mt_target_of(#[trigger] out@[k], cs[k])
            }),
        decreases processes@.len() - i,
    {
        let p = &processes[i];
        let ghost next = processes@.subrange(0, i + 1);
        proof {
            assert(next.drop_last() =~= processes@.subrange(0, i as int));
            assert(next.last() == processes@[i as int]);
        }
        let mut pushed = false;
        if p.id != 0 && p.is_critical == Some(false) && p.id != current_process_id && !is_builtin_excluded(p.name.as_str()) {
            match (p.creation_time, &p.image_path) {
                (Some(creation_time), Some(path)) => {
                    let fg_ref: Option<&str> = match &fg_path {
                        Some(s) => Some(s.as_str()),
                        None => None,
                    };
                    if !should_ignore_foreground_process(true, p.id, path.as_str(), foreground_process_id, fg_ref, canonical)
                        && !settings.exclusion_enabled_for(path.as_str()) {
                        let ghost before = out@;
                        out.push(MemoryTrimTarget {
                            process_id: p.id,
                            process_name: String::from_str(p.name.as_str()),
                            executable_path: String::from_str(path.as_str()),
                            creation_time,
                        });
                        pushed = true;
                        proof {
                            let cs = mt_candidates(next, current_process_id, foreground_process_id, fp, canonical.entries@, *settings);
                            assert forall|k: int| 0 <= k < out@.len() implies mt_target_of(#[trigger] out@[k], cs[k]) by {
                                if k < before.len() {
                                    assert(out@[k] == before[k]);
                                }
                            }
                        }
                    }
                },
                _ => {},
            }
        }
        proof {
            if !pushed {
                assert(!mt_eligible(processes@[i as int], current_process_id, foreground_process_id, fp, canonical.entries@, *settings));
            }
        }
        i = i + 1;
    }
    assert(processes@.subrange(0, processes@.len() as int) =~= processes@);
    out
}

/// A target as plain values: process id, name, executable path, start time.
pub open spec fn target_view(t: MemoryTrimTarget) -> (u32, Seq<char>, Seq<char>, u64) {
    (t.process_id, t.process_name@, t.executable_path@, t.creation_time)
}

/// Targets as plain values, in order.
pub open spec fn target_views(ts: Seq<MemoryTrimTarget>) -> Seq<(u32, Seq<char>, Seq<char>, u64)> {
    ts.map_values(|t: MemoryTrimTarget| target_view(t))
}

/// The target a listed process makes, as plain values.
pub open spec fn process_target_view(p: ProcessInfo) -> (u32, Seq<char>, Seq<char>, u64) {
    (
        p.id,
        p.name@,
        match p.image_path {
            Some(path) => path@,
            None => Seq::empty(),
        },
        match p.creation_time {
            Some(c) => c,
            None => 0,
        },
    )
}

/// Ids strictly increase along the sequence.
pub open spec fn sorted_by_id(s: Seq<(u32, Seq<char>, Seq<char>, u64)>) -> bool {
    forall|a: int, b: int| 0 <= a < b < s.len() ==> s[a].0 < s[b].0
}

/// How many entries at the front have an id below `id`: where an entry with
/// that id stands, or goes, in a sequence sorted by id.
pub open spec fn count_below(s: Seq<(u32, Seq<char>, Seq<char>, u64)>, id: u32) -> nat
    decreases s.len(),
{
    if s.len() == 0 {
        0
    } else if s[0].0 < id {
        1 + count_below(s.drop_first(), id)
    } else {
        0
    }
}

/// A sorted sequence keyed by id with `v` put in: it replaces the entry with
/// its id, or goes in where its id belongs.
pub open spec fn upsert(
    s: Seq<(u32, Seq<char>, Seq<char>, u64)>,
    v: (u32, Seq<char>, Seq<char>, u64),
) -> Seq<(u32, Seq<char>, Seq<char>, u64)> {
    let pos = count_below(s, v.0) as int;
    if pos < s.len() && s[pos].0 == v.0 {
        s.update(pos, v)
    } else {
        s.insert(pos, v)
    }
}

/// The entries put in one after the other, keyed by id: sorted by id, and for
/// each id the last entry put in with it.
pub open spec fn keyed(cs: Seq<(u32, Seq<char>, Seq<char>, u64)>) -> Seq<(u32, Seq<char>, Seq<char>, u64)>
    decreases cs.len(),
{
    if cs.len() == 0 {
        Seq::empty()
    } else {
        upsert(keyed(cs.drop_last()), cs.last())
    }
}

proof fn lemma_count_below_bounds(s: Seq<(u32, Seq<char>, Seq<char>, u64)>, id: u32)
    ensures
        count_below(s, id) <= s.len(),
        forall|a: int| 0 <= a < count_below(s, id) ==> s[a].0 < id,
        count_below(s, id) < s.len() ==> s[count_below(s, id) as int].0 >= id,
    decreases s.len(),
{
    if s.len() > 0 && s[0].0 < id {
        let t = s.drop_first();
        lemma_count_below_bounds(t, id);
        assert forall|a: int| 0 <= a < count_below(s, id) implies s[a].0 < id by {
            if a > 0 {
                assert(s[a] == t[a - 1]);
            }
        }
        if count_below(s, id) < s.len() {
            assert(s[count_below(s, id) as int] == t[count_below(t, id) as int]);
        }
    }
}

proof fn lemma_count_below_at(s: Seq<(u32, Seq<char>, Seq<char>, u64)>, id: u32, pos: int)
    requires
        0 <= pos <= s.len(),
        forall|a: int| 0 <= a < pos ==> s[a].0 < id,
        pos < s.len() ==> s[pos].0 >= id,
    ensures
        count_below(s, id) == pos,
    decreases s.len(),
{
    if s.len() > 0 && pos > 0 {
        let t = s.drop_first();
        assert forall|a: int| 0 <= a < pos - 1 implies t[a].0 < id by {
            assert(t[a] == s[a + 1]);
        }
        if pos - 1 < t.len() {
            assert(t[pos - 1] == s[pos]);
        }
        lemma_count_below_at(t, id, pos - 1);
    }
}

proof fn lemma_upsert_sorted(s: Seq<(u32, Seq<char>, Seq<char>, u64)>, v: (u32, Seq<char>, Seq<char>, u64))
    requires
        sorted_by_id(s),
    ensures
        sorted_by_id(upsert(s, v)),
{
    lemma_count_below_bounds(s, v.0);
    let pos = count_below(s, v.0) as int;
    let r = upsert(s, v);
    if pos < s.len() && s[pos].0 == v.0 {
        assert forall|a: int, b: int| 0 <= a < b < r.len() implies r[a].0 < r[b].0 by {
            assert(s[a].0 <= s[pos].0 || a > pos);
        }
    } else {
        assert forall|a: int, b: int| 0 <= a < b < r.len() implies r[a].0 < r[b].0 by {
            if b < pos {
                assert(r[a] == s[a] && r[b] == s[b]);
            } else if b == pos {
                assert(r[a] == s[a]);
            } else if a < pos {
                assert(r[a] == s[a] && r[b] == s[b - 1]);
                assert(s[b - 1].0 >= v.0 || b - 1 < pos);
                if b - 1 > pos {
                    assert(s[pos].0 < s[b - 1].0);
                }
            } else if a == pos {
                assert(r[b] == s[b - 1]);
                if b - 1 > pos {
                    assert(s[pos].0 < s[b - 1].0);
                }
            } else {
                assert(r[a] == s[a - 1] && r[b] == s[b - 1]);
            }
        }
    }
}

/// A copy of a target.
fn copy_target(t: &MemoryTrimTarget) -> (r: MemoryTrimTarget)
    ensures
        target_view(r) == target_view(*t),
{
    MemoryTrimTarget {
        process_id: t.process_id,
        process_name: String::from_str(t.process_name.as_str()),
        executable_path: String::from_str(t.executable_path.as_str()),
        creation_time: t.creation_time,
    }
}

/// Targets keyed by process id, by increasing id: for each id the last
/// target listed with it, as a map filled in list order keeps it.
pub fn key_by_process_id(cs: &Vec<MemoryTrimTarget>) -> (r: Vec<MemoryTrimTarget>)
    ensures
        target_views(r@) == keyed(target_views(cs@)),
        sorted_by_id(target_views(r@)),
{
    let mut out: Vec<MemoryTrimTarget> = Vec::new();
    let mut i: usize = 0;
    proof {
        assert(target_views(cs@).subrange(0, 0) =~= Seq::<(u32, Seq<char>, Seq<char>, u64)>::empty());
        assert(target_views(out@) =~= Seq::<(u32, Seq<char>, Seq<char>, u64)>::empty());
    }
    while i < cs.len()
        invariant
            i <= cs@.len(),
            target_views(out@) == keyed(target_views(cs@).subrange(0, i as int)),
            sorted_by_id(target_views(out@)),
        decreases cs@.len() - i,
    {
        let t = copy_target(&cs[i]);
        let id = t.process_id;
        let ghost before = target_views(out@);
        let ghost v = target_view(t);
        let mut pos: usize = 0;
        while pos < out.len() && out[pos].process_id < id
            invariant
                pos <= out@.len(),
                before == target_views(out@),
                id == v.0,
                forall|a: int| 0 <= a < pos ==> before[a].0 < id,
            decreases out@.len() - pos,
        {
            assert(before[pos as int] == target_view(out@[pos as int]));
            pos = pos + 1;
        }
        proof {
            if pos < out@.len() {
                assert(before[pos as int] == target_view(out@[pos as int]));
            }
            lemma_count_below_at(before, id, pos as int);
            lemma_upsert_sorted(before, v);
            let next = target_views(cs@).subrange(0, i + 1);
            assert(next.drop_last() =~= target_views(cs@).subrange(0, i as int));
            assert(next.last() == target_view(cs@[i as int]));
        }
        if pos < out.len() && out[pos].process_id == id {
            let ghost old_out = out@;
            out.set(pos, t);
            proof {
                assert(target_views(out@) =~= before.update(pos as int, v));
            }
        } else {
            proof {
                if pos < out@.len() {
                    assert(before[pos as int] == target_view(out@[pos as int]));
                }
            }
            out.insert(pos, t);
            proof {
                assert(target_views(out@) =~= before.insert(pos as int, v));
            }
        }
        i = i + 1;
    }
    proof {
        assert(target_views(cs@).subrange(0, cs@.len() as int) =~= target_views(cs@));
    }
    out
}

/// The processes Memory Trim looks at in this pass, by increasing id (for a
/// repeated id, the last eligible entry counts).
pub fn memory_trim_targets(
    processes: &Vec<ProcessInfo>,
    current_process_id: u32,
    foreground_process_id: Option<u32>,
    canonical: &CanonicalPaths,
    settings: &MemoryTrimSettings,
) -> (r: Vec<MemoryTrimTarget>)
    ensures
        target_views(r@) == keyed(
            mt_candidates(
                processes@,
                current_process_id,
                foreground_process_id,
                foreground_path_of(processes@, foreground_process_id),
                canonical.entries@,
                *settings,
            ).map_values(|p: ProcessInfo| process_target_view(p)),
        ),
        sorted_by_id(target_views(r@)),
{
    let all = memory_trim_candidates(processes, current_process_id, foreground_process_id, canonical, settings);
    proof {
        let cs = mt_candidates(
            processes@,
            current_process_id,
            foreground_process_id,
            foreground_path_of(processes@, foreground_process_id),
            canonical.entries@,
            *settings,
        );
        assert forall|k: int| 0 <= k < all@.len() implies target_views(all@)[k] == cs.map_values(
            |p: ProcessInfo| process_target_view(p),
        )[k] by {
            assert(mt_target_of(all@[k], cs[k]));
        }
        assert(target_views(all@) =~= cs.map_values(|p: ProcessInfo| process_target_view(p)));
    }
    key_by_process_id(&all)
}

} // verus!
