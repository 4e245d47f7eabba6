//! Background Efficiency: which processes may run in efficiency mode, and the
//! bookkeeping of its failures.
use vstd::prelude::*;

use crate::action_log::{ActionLog, ActionLogEntryView, ActionLogFeature, ActionLogResult};
use crate::config::{has_rule_for, BackgroundEfficiencyAggressiveness, BackgroundEfficiencySettings};
use crate::foreground::process_list::{
    contains_process_name, file_name_of, list_contains_name, path_file_name, names_view, same_executable_path_spec,
    CanonicalPath, CanonicalPaths, ProcessInfo, ProtectedProcesses,
};
use crate::features::process_control::{control_error_text, ProcessControlError, ProcessPropertyApplyOutcome};
use crate::action_log::{action_of_result, log_after};
use crate::rules::model_suppress;
use crate::rules::{
    check_and_report_suppression, failure_key, model_after_check, model_newly_suppressed, model_record,
    model_suppressed, ExecutionFailureTracker, ExecutionSuppression, FailureState,
};
use crate::text::{decimal, decimal_string};

verus! {

pub open spec fn safe_exclusions() -> Seq<Seq<char>> {
    seq![
        "audiodg.exe"@, "conhost.exe"@, "csrss.exe"@, "ctfmon.exe"@, "dwm.exe"@, "explorer.exe"@,
        "fontdrvhost.exe"@, "lsaiso.exe"@, "lsass.exe"@, "registry"@, "searchhost.exe"@,
        "securityhealthservice.exe"@, "securityhealthsystray.exe"@, "services.exe"@,
        "shellexperiencehost.exe"@, "sihost.exe"@, "smss.exe"@, "startmenuexperiencehost.exe"@,
        "system"@, "taskmgr.exe"@, "textinputhost.exe"@, "wininit.exe"@, "winlogon.exe"@,
        "wudfhost.exe"@,
    ]
}

pub open spec fn balanced_exclusions() -> Seq<Seq<char>> {
    seq![
        "audiodg.exe"@, "conhost.exe"@, "csrss.exe"@, "ctfmon.exe"@, "dwm.exe"@, "explorer.exe"@,
        "fontdrvhost.exe"@, "lsaiso.exe"@, "lsass.exe"@, "registry"@, "securityhealthservice.exe"@,
        "securityhealthsystray.exe"@, "services.exe"@, "sihost.exe"@, "smss.exe"@,
        "startmenuexperiencehost.exe"@, "system"@, "taskmgr.exe"@, "textinputhost.exe"@,
        "wininit.exe"@, "winlogon.exe"@,
    ]
}

pub open spec fn aggressive_exclusions() -> Seq<Seq<char>> {
    seq![
        "csrss.exe"@, "lsaiso.exe"@, "lsass.exe"@, "registry"@, "services.exe"@, "smss.exe"@,
        "system"@, "wininit.exe"@, "winlogon.exe"@,
    ]
}

/// The Windows processes that an aggressiveness level leaves alone.
pub open spec fn exclusions_for(a: BackgroundEfficiencyAggressiveness) -> Seq<Seq<char>> {
    match a {
        BackgroundEfficiencyAggressiveness::Safe => safe_exclusions(),
        BackgroundEfficiencyAggressiveness::Balanced => balanced_exclusions(),
        BackgroundEfficiencyAggressiveness::Aggressive => aggressive_exclusions(),
    }
}

/// The built-in exclusions of an aggressiveness level.
pub fn built_in_exclusions_for(aggressiveness: BackgroundEfficiencyAggressiveness) -> (r: Vec<&'static str>)
    ensures
        names_view(r@) == exclusions_for(aggressiveness),
{
    let r = match aggressiveness {
        BackgroundEfficiencyAggressiveness::Safe => vec![
            "audiodg.exe", "conhost.exe", "csrss.exe", "ctfmon.exe", "dwm.exe", "explorer.exe",
            "fontdrvhost.exe", "lsaiso.exe", "lsass.exe", "registry", "searchhost.exe",
            "securityhealthservice.exe", "securityhealthsystray.exe", "services.exe",
            "shellexperiencehost.exe", "sihost.exe", "smss.exe", "startmenuexperiencehost.exe",
            "system", "taskmgr.exe", "textinputhost.exe", "wininit.exe", "winlogon.exe",
            "wudfhost.exe",
        ],
        BackgroundEfficiencyAggressiveness::Balanced => vec![
            "audiodg.exe", "conhost.exe", "csrss.exe", "ctfmon.exe", "dwm.exe", "explorer.exe",
            "fontdrvhost.exe", "lsaiso.exe", "lsass.exe", "registry", "securityhealthservice.exe",
            "securityhealthsystray.exe", "services.exe", "sihost.exe", "smss.exe",
            "startmenuexperiencehost.exe", "system", "taskmgr.exe", "textinputhost.exe",
            "wininit.exe", "winlogon.exe",
        ],
        BackgroundEfficiencyAggressiveness::Aggressive => vec![
            "csrss.exe", "lsaiso.exe", "lsass.exe", "registry", "services.exe", "smss.exe",
            "system", "wininit.exe", "winlogon.exe",
        ],
    };
    assert(names_view(r@) =~= exclusions_for(aggressiveness));
    r
}

/// Whether the aggressiveness level leaves the process alone.
pub fn is_builtin_excluded_for(process_name: &str, aggressiveness: BackgroundEfficiencyAggressiveness) -> (r:
    bool)
    ensures
        r == list_contains_name(exclusions_for(aggressiveness), process_name@),
{
    let list = built_in_exclusions_for(aggressiveness);
    contains_process_name(list.as_slice(), process_name)
}

/// Whether the safe level leaves the process alone.
pub fn is_builtin_excluded(process_name: &str) -> (r: bool)
    ensures
        r == list_contains_name(safe_exclusions(), process_name@),
{
    is_builtin_excluded_for(process_name, BackgroundEfficiencyAggressiveness::Safe)
}

/// Whether Background Efficiency leaves a process alone: its file name is a
/// built-in exclusion of the level, or an enabled user rule names it.
pub fn is_process_excluded(process: &str, settings: &BackgroundEfficiencySettings) -> (r: bool)
    ensures
        r == (list_contains_name(
            exclusions_for(settings.aggressiveness),
            match file_name_of(process@) {
                Some(f) => f,
                None => process@,
            },
        ) || has_rule_for(settings.custom_rules@, process@, true)),
{
    let name = match path_file_name(process) {
        Some(f) => f,
        None => process,
    };
    is_builtin_excluded_for(name, settings.aggressiveness) || settings.custom_rule_enabled_for(process)
}

/// Whether a process may be told to ignore timer-resolution requests: only
/// when audio detection worked and the process is not playing audio.
pub fn ignore_timer_resolution_allowed(process_id: u32, active_audio_process_ids: Option<&Vec<u32>>) -> (r: bool)
    ensures
        r == match active_audio_process_ids {
            Some(ids) => !ids@.contains(process_id),
            None => false,
        },
{
    match active_audio_process_ids {
        Some(ids) => !crate::foreground::process_list::contains_id(ids, process_id),
        None => false,
    }
}

/// `<action> <process> (<pid>): <message>`
pub fn process_failure_message(action: &str, process_id: u32, process_name: &str, message: &str) -> (r: String)
    ensures
        r@ == action@ + " "@ + process_name@ + " ("@ + decimal(process_id as nat) + "): "@ + message@,
{
    let mut s = String::from_str(action);
    s.append(" ");
    s.append(process_name);
    s.append(" (");
    s.append(decimal_string(process_id as u64).as_str());
    s.append("): ");
    s.append(message);
    s
}

/// The state Background Efficiency keeps between passes: its failures.
pub struct BackgroundEfficiencyManager {
    pub failure_suppression: ExecutionFailureTracker,
}

impl BackgroundEfficiencyManager {
    pub closed spec fn wf(&self) -> bool {
        self.failure_suppression.wf()
    }

    /// The failure state per key.
    pub closed spec fn failures(&self) -> Map<Seq<char>, FailureState> {
        self.failure_suppression@
    }

    pub fn new() -> (r: Self)
        ensures
            r.wf(),
            r.failures() == Map::<Seq<char>, FailureState>::empty(),
    {
        BackgroundEfficiencyManager { failure_suppression: ExecutionFailureTracker::new() }
    }

    /// Counts one more failure for the executable.
    pub fn record_process_failure(&mut self, executable_path: &str)
        requires
            old(self).wf(),
        ensures
            final(self).wf(),
            final(self).failures() == model_record(old(self).failures(), failure_key(executable_path@)),
    {
        self.failure_suppression.record_process_failure(executable_path);
    }

    /// Forgets the failures of the executable.
    pub fn clear_process_failure(&mut self, executable_path: &str)
        requires
            old(self).wf(),
        ensures
            final(self).wf(),
            final(self).failures() == old(self).failures().remove(failure_key(executable_path@)),
    {
        self.failure_suppression.clear_process_failure(executable_path);
    }

    /// Whether the executable is suppressed; the first time it is, logs that
    /// Background Efficiency stopped retrying it.
    pub fn check_process_suppression(
        &mut self,
        process_id: u32,
        process_name: &str,
        executable_path: &str,
        action_log: &mut ActionLog,
    ) -> (r: ExecutionSuppression)
        requires
            old(self).wf(),
            old(action_log).wf(),
        ensures
            final(self).wf(),
            final(action_log).wf(),
            r.suppressed == model_suppressed(old(self).failures(), failure_key(executable_path@)),
            r.newly_suppressed == model_newly_suppressed(old(self).failures(), failure_key(executable_path@)),
            final(self).failures() == model_after_check(old(self).failures(), failure_key(executable_path@)),
            r.newly_suppressed ==> final(action_log).view_entries() == crate::action_log::log_after(
                old(action_log).view_entries(),
                old(action_log).capacity_spec(),
                ActionLogEntryView {
                    feature: ActionLogFeature::BackgroundEfficiency,
                    process_id: Some(process_id),
                    process_name: process_name@,
                    action: crate::action_log::action_of_result(ActionLogResult::Skipped),
                    result: ActionLogResult::Skipped,
                    reason: crate::rules::stopped_retrying_message("Background Efficiency"@),
                },
            ),
            !r.newly_suppressed ==> final(action_log).view_entries() == old(action_log).view_entries(),
    {
        check_and_report_suppression(
            &mut self.failure_suppression,
            action_log,
            ActionLogFeature::BackgroundEfficiency,
            "Background Efficiency",
            process_id,
            process_name,
            executable_path,
        )
    }

    /// Whether a process is suppressed, identified by its name.
    pub fn is_process_suppressed(&mut self, process_id: u32, process_name: &str, action_log: &mut ActionLog) -> (r:
        bool)
        requires
            old(self).wf(),
            old(action_log).wf(),
        ensures
            final(self).wf(),
            final(action_log).wf(),
            r == model_suppressed(old(self).failures(), failure_key(process_name@)),
    {
        self.check_process_suppression(process_id, process_name, process_name, action_log).suppressed
    }
}

impl Default for BackgroundEfficiencyManager {
    fn default() -> (r: Self)
        ensures
            r.wf(),
            r.failures() == Map::<Seq<char>, FailureState>::empty(),
    {
        BackgroundEfficiencyManager::new()
    }
}

/// The results of one Background Efficiency pass.
#[derive(Debug, Clone, PartialEq, Eq)]
pub struct BackgroundEfficiencySnapshot {
    pub enabled: bool,
    pub unsupported: bool,
    pub scanned_processes: usize,
    pub throttled_processes: usize,
    pub timer_resolution_ignored_processes: usize,
    pub skipped_processes: usize,
    pub access_denied_processes: usize,
    pub failed_processes: usize,
    pub message: String,
    pub last_error: Option<String>,
}

impl Default for BackgroundEfficiencySnapshot {
    fn default() -> (r: Self)
        ensures
            !r.enabled,
            !r.unsupported,
            r.scanned_processes == 0,
            r.throttled_processes == 0,
            r.timer_resolution_ignored_processes == 0,
            r.skipped_processes == 0,
            r.access_denied_processes == 0,
            r.failed_processes == 0,
            r.message@ == "Background Efficiency disabled."@,
            r.last_error.is_none(),
    {
        BackgroundEfficiencySnapshot {
            enabled: false,
            unsupported: false,
            scanned_processes: 0,
            throttled_processes: 0,
            timer_resolution_ignored_processes: 0,
            skipped_processes: 0,
            access_denied_processes: 0,
            failed_processes: 0,
            message: String::from_str("Background Efficiency disabled."),
            last_error: None,
        }
    }
}

/// Why a pass does not look at processes: the feature is off (everything is
/// released and failures forgotten) or paused (everything is released).
#[derive(Debug, Clone, Copy, PartialEq, Eq, Structural)]
pub enum BackgroundEfficiencyHold {
    AutomationDisabled,
    FeatureDisabled,
    ForegroundUnknown,
    VisibleWindowsUnavailable,
    SessionUnknown,
}

/// The hold a pass starts with, if any: automation off, the feature off, or
/// a protected foreground app that is unknown.
pub fn background_efficiency_hold(
    automation_enabled: bool,
    settings: &BackgroundEfficiencySettings,
    foreground_process_id: Option<u32>,
) -> (r: Option<BackgroundEfficiencyHold>)
    ensures
        r == if !automation_enabled {
            Some(BackgroundEfficiencyHold::AutomationDisabled)
        } else if !settings.enabled {
            Some(BackgroundEfficiencyHold::FeatureDisabled)
        } else if settings.protect_foreground_app && foreground_process_id is None {
            Some(BackgroundEfficiencyHold::ForegroundUnknown)
        } else {
            None
        },
{
    if !automation_enabled {
        Some(BackgroundEfficiencyHold::AutomationDisabled)
    } else if !settings.enabled {
        Some(BackgroundEfficiencyHold::FeatureDisabled)
    } else if settings.protect_foreground_app && foreground_process_id.is_none() {
        Some(BackgroundEfficiencyHold::ForegroundUnknown)
    } else {
        None
    }
}

/// A process Background Efficiency manages in this pass.
#[derive(Debug, Clone)]
pub struct BackgroundEfficiencyTarget {
    pub process_id: u32,
    pub process_name: String,
    pub executable_path: String,
    pub creation_time: u64,
    pub ignore_timer_resolution: bool,
}

/// Whether the protected processes cover a process, by id or executable.
pub open spec fn protected_spec(pp: ProtectedProcesses, pid: u32, path: Seq<char>, canon: Seq<CanonicalPath>) -> bool {
    pp.process_ids@.contains(pid) || exists|i: int|
        0 <= i < pp.executable_paths@.len() && same_executable_path_spec(
            #[trigger] pp.executable_paths@[i]@,
            path,
            canon,
        )
}

/// Whether Background Efficiency manages a listed process: not the idle
/// process nor this one, verifiably not critical, open to changes, not a
/// built-in exclusion of the level, in this session (unless cross-session
/// control is allowed), with an executable path and a start time, neither
/// protected nor excluded by an enabled user rule.
pub open spec fn be_candidate(
    p: ProcessInfo,
    current_process_id: u32,
    current_session_id: u32,
    allow_cross_session: bool,
    settings: BackgroundEfficiencySettings,
    pp: ProtectedProcesses,
    canon: Seq<CanonicalPath>,
) -> bool {
    &&& p.id != 0
    &&& p.id != current_process_id
    &&& p.is_critical == Some(false)
    &&& p.can_set_information
    &&& !list_contains_name(exclusions_for(settings.aggressiveness), p.name@)
    &&& (allow_cross_session || p.session_id == Some(current_session_id))
    &&& p.image_path is Some
    &&& p.creation_time is Some
    &&& !protected_spec(pp, p.id, p.image_path->0@, canon)
    &&& !has_rule_for(settings.custom_rules@, p.image_path->0@, true)
}

/// The managed processes, in listed order.
pub open spec fn be_candidates(
    ps: Seq<ProcessInfo>,
    current_process_id: u32,
    current_session_id: u32,
    allow_cross_session: bool,
    settings: BackgroundEfficiencySettings,
    pp: ProtectedProcesses,
    canon: Seq<CanonicalPath>,
) -> Seq<ProcessInfo>
    decreases ps.len(),
{
    if ps.len() == 0 {
        Seq::empty()
    } else {
        let rest = be_candidates(ps.drop_last(), current_process_id, current_session_id, allow_cross_session, settings, pp, canon);
        if be_candidate(ps.last(), current_process_id, current_session_id, allow_cross_session, settings, pp, canon) {
            rest.push(ps.last())
        } else {
            rest
        }
    }
}

/// Law: Background Efficiency never manages a protected process: no
/// process it manages has a protected id or runs the same executable as a
/// protected process (by `ProtectedProcesses::contains`); and each one it
/// manages is listed.
pub proof fn law_background_efficiency_spares_protected(
    ps: Seq<ProcessInfo>,
    current_process_id: u32,
    current_session_id: u32,
    allow_cross_session: bool,
    settings: BackgroundEfficiencySettings,
    pp: ProtectedProcesses,
    canon: Seq<CanonicalPath>,
)
    ensures
        ({
            let cs = be_candidates(ps, current_process_id, current_session_id, allow_cross_session, settings, pp, canon);
            forall|k: int|
                0 <= k < cs.len() ==> ps.contains(#[trigger] cs[k]) && (cs[k].image_path matches Some(path)
                    && !pp.protects(cs[k].id, path@, canon))
        }),
        ({
            let cs = be_candidates(ps, current_process_id, current_session_id, allow_cross_session, settings, pp, canon);
            forall|k: int|
                0 <= k < cs.len() ==> {
                    let p = #[trigger] cs[k];
                    &&& p.id != 0 && p.id != current_process_id
                    &&& p.is_critical == Some(false) && p.can_set_information
                    &&& allow_cross_session || p.session_id == Some(current_session_id)
                    &&& p.creation_time is Some
                    &&& !has_rule_for(settings.custom_rules@, p.image_path->0@, true)
                }
        }),
    decreases ps.len(),
{
    if ps.len() > 0 {
        let rest = ps.drop_last();
        law_background_efficiency_spares_protected(
            rest,
            current_process_id,
            current_session_id,
            allow_cross_session,
            settings,
            pp,
            canon,
        );
        let cs = be_candidates(ps, current_process_id, current_session_id, allow_cross_session, settings, pp, canon);
        let cr = be_candidates(rest, current_process_id, current_session_id, allow_cross_session, settings, pp, canon);
        assert forall|k: int| 0 <= k < cs.len() implies ps.contains(#[trigger] cs[k]) && (cs[k].image_path matches Some(
            path,
        ) && !pp.protects(cs[k].id, path@, canon)) by {
            if k < cr.len() {
                assert(cs[k] == cr[k]);
                assert(cr.contains(cr[k]));
                let j = choose|j: int| 0 <= j < rest.len() && rest[j] == cr[k];
                assert(ps[j] == rest[j]);
            } else {
                assert(cs[k] == ps.last());
                assert(ps[ps.len() - 1] == ps.last());
            }
        }
    }
}

/// Whether a target describes a listed process.
pub open spec fn target_of(t: BackgroundEfficiencyTarget, p: ProcessInfo, audio: Option<Seq<u32>>) -> bool {
    &&& t.process_id == p.id
    &&& t.process_name@ == p.name@
    &&& (p.image_path matches Some(path) && t.executable_path@ == path@)
    &&& p.creation_time == Some(t.creation_time)
    &&& t.ignore_timer_resolution == match audio {
        Some(ids) => !ids.contains(p.id),
        None => false,
    }
}

/// The processes Background Efficiency manages in this pass. Session ids
/// are those the process list reports; audio ids are `None` when audio
/// detection failed.
pub fn background_efficiency_targets(
    processes: &Vec<ProcessInfo>,
    current_process_id: u32,
    current_session_id: u32,
    allow_cross_session_process_control: bool,
    settings: &BackgroundEfficiencySettings,
    protected_processes: &ProtectedProcesses,
    canonical: &CanonicalPaths,
    active_audio_process_ids: Option<&Vec<u32>>,
) -> (r: Vec<BackgroundEfficiencyTarget>)
    ensures
        ({
            let cs = be_candidates(
                processes@,
                current_process_id,
                current_session_id,
                allow_cross_session_process_control,
                *settings,
                *protected_processes,
                canonical.entries@,
            );
            let audio = match active_audio_process_ids {
                Some(ids) => Some(ids@),
                None => None,
            };
            &&& r@.len() == cs.len()
            &&& forall|k: int| 0 <= k < r@.len() ==> target_of(#[trigger] r@[k], cs[k], audio)
        }),
        forall|k: int|
            0 <= k < r@.len() ==> !protected_processes.protects(
                #[trigger] r@[k].process_id,
                r@[k].executable_path@,
                canonical.entries@,
            ),
{
    let ghost audio = match active_audio_process_ids {
        Some(ids) => Some(ids@),
        None => None,
    };
    let mut out: Vec<BackgroundEfficiencyTarget> = Vec::new();
    let mut i: usize = 0;
    while i < processes.len()
        invariant
            i <= processes@.len(),
            audio == match active_audio_process_ids {
                Some(ids) => Some(ids@),
                None => None::<Seq<u32>>,
            },
            ({
                let cs = be_candidates(
                    processes@.subrange(0, i as int),
                    current_process_id,
                    current_session_id,
                    allow_cross_session_process_control,
                    *settings,
                    *protected_processes,
                    canonical.entries@,
                );
                &&& out@.len() == cs.len()
                &&& forall|k: int| 0 <= k < out@.len() ==> target_of(#[trigger] out@[k], cs[k], audio)
            }),
            forall|k: int|
                0 <= k < out@.len() ==> !protected_processes.protects(
                    #[trigger] out@[k].process_id,
                    out@[k].executable_path@,
                    canonical.entries@,
                ),
        decreases processes@.len() - i,
    {
        let p = &processes[i];
        let ghost prefix = processes@.subrange(0, i as int);
        let ghost next = processes@.subrange(0, i + 1);
        proof {
            assert(next.drop_last() =~= prefix);
            assert(next.last() == processes@[i as int]);
        }
        let basic = p.id != 0 && p.id != current_process_id && p.is_critical == Some(false) && p.can_set_information
            && !is_builtin_excluded_for(p.name.as_str(), settings.aggressiveness) && (
        allow_cross_session_process_control || p.session_id == Some(current_session_id));
        let mut pushed = false;
        if basic {
            match (&p.image_path, p.creation_time) {
                (Some(path), Some(creation_time)) => {
                    if !protected_processes.contains(p.id, path.as_str(), canonical)
                        && !settings.custom_rule_enabled_for(path.as_str()) {
                        let ghost before = out@;
                        out.push(
                            BackgroundEfficiencyTarget {
                                process_id: p.id,
                                process_name: String::from_str(p.name.as_str()),
                                executable_path: String::from_str(path.as_str()),
                                creation_time,
                                ignore_timer_resolution: ignore_timer_resolution_allowed(p.id, active_audio_process_ids),
                            },
                        );
                        pushed = true;
                        proof {
                            assert forall|k: int| 0 <= k < out@.len() implies target_of(
                                #[trigger] out@[k],
                                be_candidates(
                                    next,
                                    current_process_id,
                                    current_session_id,
                                    allow_cross_session_process_control,
                                    *settings,
                                    *protected_processes,
                                    canonical.entries@,
                                )[k],
                                audio,
                            ) by {
                                if k < before.len() {
                                    assert(out@[k] == before[k]);
                                }
                            }
                            assert forall|k: int| 0 <= k < out@.len() implies !protected_processes.protects(
                                #[trigger] out@[k].process_id,
                                out@[k].executable_path@,
                                canonical.entries@,
                            ) by {
                                if k < before.len() {
                                    assert(out@[k] == before[k]);
                                }
                            }
                        }
                    }
                },
                _ => {},
            }
        }
        proof {
            if !pushed {
                assert(!be_candidate(
                    processes@[i as int],
                    current_process_id,
                    current_session_id,
                    allow_cross_session_process_control,
                    *settings,
                    *protected_processes,
                    canonical.entries@,
                ));
            }
        }
        i = i + 1;
    }
    assert(processes@.subrange(0, processes@.len() as int) =~= processes@);
    out
}

/// The failures of one pass: how many, and the first one's description.
pub struct BackgroundEfficiencyFailures {
    pub count: usize,
    pub last_error: Option<String>,
}

impl BackgroundEfficiencyFailures {
    pub fn new() -> (r: Self)
        ensures
            r.count == 0,
            r.last_error.is_none(),
    {
        BackgroundEfficiencyFailures { count: 0, last_error: None }
    }

    /// Counts a failure, keeps the description of the first one, and logs it.
    pub fn record(
        &mut self,
        action: &str,
        process_id: u32,
        process_name: &str,
        error: &ProcessControlError,
        action_log: &mut ActionLog,
    )
        requires
            old(self).count < usize::MAX,
            old(action_log).wf(),
        ensures
            final(self).count == old(self).count + 1,
            old(self).last_error is Some ==> final(self).last_error == old(self).last_error,
            old(self).last_error is None ==> (final(self).last_error matches Some(e) && e@ == action@ + " "@
                + process_name@ + " ("@ + decimal(process_id as nat) + "): "@ + control_error_text(*error)),
            final(action_log).wf(),
            final(action_log).capacity_spec() == old(action_log).capacity_spec(),
            final(action_log).view_entries() == log_after(
                old(action_log).view_entries(),
                old(action_log).capacity_spec(),
                ActionLogEntryView {
                    feature: ActionLogFeature::BackgroundEfficiency,
                    process_id: Some(process_id),
                    process_name: process_name@,
                    action: action_of_result(ActionLogResult::Failed),
                    result: ActionLogResult::Failed,
                    reason: control_error_text(*error),
                },
            ),
    {
        let message = error.message();
        if self.last_error.is_none() {
            self.last_error = Some(process_failure_message(action, process_id, process_name, message.as_str()));
        }
        self.count = self.count + 1;
        action_log.record(
            ActionLogFeature::BackgroundEfficiency,
            Some(process_id),
            process_name.to_owned(),
            ActionLogResult::Failed,
            message,
        );
    }
}

/// `Applied Background Efficiency: enabled EcoQoS and lowered priority.`
pub open spec fn applied_reason() -> Seq<char> {
    "Applied Background Efficiency: enabled EcoQoS and lowered priority."@
}

/// The running totals of a pass.
pub struct BackgroundEfficiencyPass {
    pub skipped_processes: usize,
    pub access_denied_processes: usize,
    pub unsupported: bool,
    pub failures: BackgroundEfficiencyFailures,
}

impl BackgroundEfficiencyManager {
    /// Takes the result of applying efficiency mode to a target: a success
    /// clears the target's failures (and is logged when something changed);
    /// an exited process is skipped; denied access or an unavailable feature
    /// is skipped, logged and suppressed at once (the latter marks the pass
    /// unsupported); any other error is counted toward suppression and
    /// recorded as a failure.
    pub fn record_apply_result(
        &mut self,
        pass: &mut BackgroundEfficiencyPass,
        target: &BackgroundEfficiencyTarget,
        result: &Result<ProcessPropertyApplyOutcome, ProcessControlError>,
        action_log: &mut ActionLog,
    )
        requires
            old(self).wf(),
            old(action_log).wf(),
            old(pass).skipped_processes < usize::MAX,
            old(pass).access_denied_processes < usize::MAX,
            old(pass).failures.count < usize::MAX,
        ensures
            final(self).wf(),
            final(action_log).wf(),
            ({
                let key = failure_key(target.executable_path@);
                let entry = |result: ActionLogResult, reason: Seq<char>| ActionLogEntryView {
                    feature: ActionLogFeature::BackgroundEfficiency,
                    process_id: Some(target.process_id),
                    process_name: target.process_name@,
                    action: action_of_result(result),
                    result,
                    reason,
                };
                let old_log = old(action_log).view_entries();
                let cap = old(action_log).capacity_spec();
                match result {
                    Ok(outcome) => {
                        &&& final(self).failures() == old(self).failures().remove(key)
                        &&& final(pass).skipped_processes == old(pass).skipped_processes
                        &&& final(pass).access_denied_processes == old(pass).access_denied_processes
                        &&& final(pass).unsupported == old(pass).unsupported
                        &&& final(pass).failures.count == old(pass).failures.count
                        &&& final(action_log).view_entries() == if outcome == ProcessPropertyApplyOutcome::Applied {
                            log_after(old_log, cap, entry(ActionLogResult::Applied, applied_reason()))
                        } else {
                            old_log
                        }
                    },
                    Err(ProcessControlError::ProcessExited) => {
                        &&& final(self).failures() == old(self).failures()
                        &&& final(pass).skipped_processes == old(pass).skipped_processes + 1
                        &&& final(pass).access_denied_processes == old(pass).access_denied_processes
                        &&& final(pass).unsupported == old(pass).unsupported
                        &&& final(pass).failures.count == old(pass).failures.count
                        &&& final(action_log).view_entries() == old_log
                    },
                    Err(ProcessControlError::AccessDenied(m)) => {
                        &&& final(self).failures() == model_suppress(old(self).failures(), key)
                        &&& final(pass).skipped_processes == old(pass).skipped_processes + 1
                        &&& final(pass).access_denied_processes == old(pass).access_denied_processes + 1
                        &&& final(pass).unsupported == old(pass).unsupported
                        &&& final(pass).failures.count == old(pass).failures.count
                        &&& final(action_log).view_entries() == log_after(old_log, cap, entry(ActionLogResult::Skipped, m@))
                    },
                    Err(ProcessControlError::Unavailable(m)) => {
                        &&& final(self).failures() == model_suppress(old(self).failures(), key)
                        &&& final(pass).skipped_processes == old(pass).skipped_processes + 1
                        &&& final(pass).access_denied_processes == old(pass).access_denied_processes
                        &&& final(pass).unsupported
                        &&& final(pass).failures.count == old(pass).failures.count
                        &&& final(action_log).view_entries() == log_after(old_log, cap, entry(ActionLogResult::Skipped, m@))
                    },
                    Err(e) => {
                        &&& final(self).failures() == model_record(old(self).failures(), key)
                        &&& final(pass).skipped_processes == old(pass).skipped_processes
                        &&& final(pass).access_denied_processes == old(pass).access_denied_processes
                        &&& final(pass).unsupported == old(pass).unsupported
                        &&& final(pass).failures.count == old(pass).failures.count + 1
                        &&& final(action_log).view_entries() == log_after(old_log, cap, entry(ActionLogResult::Failed, control_error_text(*e)))
                    },
                }
            }),
    {
        match result {
            Ok(outcome) => {
                self.clear_process_failure(target.executable_path.as_str());
                if *outcome == ProcessPropertyApplyOutcome::Applied {
                    action_log.record(
                        ActionLogFeature::BackgroundEfficiency,
                        Some(target.process_id),
                        String::from_str(target.process_name.as_str()),
                        ActionLogResult::Applied,
                        String::from_str("Applied Background Efficiency: enabled EcoQoS and lowered priority."),
                    );
                }
            },
            Err(ProcessControlError::ProcessExited) => {
                pass.skipped_processes = pass.skipped_processes + 1;
            },
            Err(ProcessControlError::AccessDenied(m)) => {
                pass.skipped_processes = pass.skipped_processes + 1;
                pass.access_denied_processes = pass.access_denied_processes + 1;
                self.failure_suppression.suppress_process_failure(target.executable_path.as_str());
                action_log.record(
                    ActionLogFeature::BackgroundEfficiency,
                    Some(target.process_id),
                    String::from_str(target.process_name.as_str()),
                    ActionLogResult::Skipped,
                    String::from_str(m.as_str()),
                );
            },
            Err(ProcessControlError::Unavailable(m)) => {
                pass.skipped_processes = pass.skipped_processes + 1;
                pass.unsupported = true;
                self.failure_suppression.suppress_process_failure(target.executable_path.as_str());
                action_log.record(
                    ActionLogFeature::BackgroundEfficiency,
                    Some(target.process_id),
                    String::from_str(target.process_name.as_str()),
                    ActionLogResult::Skipped,
                    String::from_str(m.as_str()),
                );
            },
            Err(e) => {
                self.record_process_failure(target.executable_path.as_str());
                pass.failures.record("Apply", target.process_id, target.process_name.as_str(), e, action_log);
            },
        }
    }
}

/// A process whose efficiency settings could not be restored.
#[derive(Debug, Clone)]
pub struct ReleaseFailure {
    pub process_id: u32,
    pub process_name: String,
    pub executable_path: String,
    pub property: String,
    pub error: ProcessControlError,
}

/// What releasing efficiency settings did.
#[derive(Debug, Clone)]
pub struct PriorityEfficiencyReleaseSummary {
    pub restored_processes: usize,
    pub failures: Vec<ReleaseFailure>,
}

/// The failure state after counting one failure for each key in turn.
pub open spec fn record_all(m: Map<Seq<char>, FailureState>, fs: Seq<ReleaseFailure>) -> Map<Seq<char>, FailureState>
    decreases fs.len(),
{
    if fs.len() == 0 {
        m
    } else {
        model_record(record_all(m, fs.drop_last()), failure_key(fs.last().executable_path@))
    }
}

/// The log entry of a failed restore.
pub open spec fn restore_failure_entry(f: ReleaseFailure) -> ActionLogEntryView {
    ActionLogEntryView {
        feature: ActionLogFeature::BackgroundEfficiency,
        process_id: Some(f.process_id),
        process_name: f.process_name@,
        action: action_of_result(ActionLogResult::Failed),
        result: ActionLogResult::Failed,
        reason: control_error_text(f.error),
    }
}

/// The log after appending each entry in turn.
pub open spec fn log_all(entries: Seq<ActionLogEntryView>, cap: nat, es: Seq<ActionLogEntryView>) -> Seq<ActionLogEntryView>
    decreases es.len(),
{
    if es.len() == 0 {
        entries
    } else {
        log_after(log_all(entries, cap, es.drop_last()), cap, es.last())
    }
}

/// `Restored Background Efficiency for <n> process(es): <reason>.`
pub open spec fn restored_reason(n: nat, reason: Seq<char>) -> Seq<char> {
    "Restored Background Efficiency for "@ + decimal(n) + " process(es): "@ + reason + "."@
}

impl BackgroundEfficiencyManager {
    /// Takes what a release did: logs how many processes were restored (if
    /// any) and why, then records each failed restore (marking the pass
    /// unsupported when the feature was unavailable) and counts it toward
    /// suppression.
    pub fn merge_release_summary(
        &mut self,
        summary: &PriorityEfficiencyReleaseSummary,
        action_log: &mut ActionLog,
        reason: &str,
        failures: &mut BackgroundEfficiencyFailures,
        unsupported: &mut bool,
    )
        requires
            old(self).wf(),
            old(action_log).wf(),
            old(failures).count + summary.failures@.len() <= usize::MAX,
        ensures
            final(self).wf(),
            final(action_log).wf(),
            final(failures).count == old(failures).count + summary.failures@.len(),
            *final(unsupported) == (*old(unsupported) || exists|i: int|
                0 <= i < summary.failures@.len() && summary.failures@[i].error is Unavailable),
            final(self).failures() == record_all(old(self).failures(), summary.failures@),
            ({
                let start = if summary.restored_processes > 0 {
                    log_after(
                        old(action_log).view_entries(),
                        old(action_log).capacity_spec(),
                        ActionLogEntryView {
                            feature: ActionLogFeature::BackgroundEfficiency,
                            process_id: None,
                            process_name: "Background Efficiency"@,
                            action: action_of_result(ActionLogResult::Restored),
                            result: ActionLogResult::Restored,
                            reason: restored_reason(summary.restored_processes as nat, reason@),
                        },
                    )
                } else {
                    old(action_log).view_entries()
                };
                final(action_log).view_entries() == log_all(
                    start,
                    old(action_log).capacity_spec(),
                    summary.failures@.map_values(|f: ReleaseFailure| restore_failure_entry(f)),
                )
            }),
    {
        if summary.restored_processes > 0 {
            let mut message = String::from_str("Restored Background Efficiency for ");
            message.append(decimal_string(summary.restored_processes as u64).as_str());
            message.append(" process(es): ");
            message.append(reason);
            message.append(".");
            action_log.record(
                ActionLogFeature::BackgroundEfficiency,
                None,
                String::from_str("Background Efficiency"),
                ActionLogResult::Restored,
                message,
            );
        }
        let ghost start = action_log.view_entries();
        let ghost cap = action_log.capacity_spec();
        let ghost m0 = self.failures();
        let ghost u0 = *unsupported;
        let ghost c0 = failures.count;
        let ghost fs = summary.failures@;
        let mut i: usize = 0;
        while i < summary.failures.len()
            invariant
                fs == summary.failures@,
                i <= fs.len(),
                self.wf(),
                action_log.wf(),
                action_log.capacity_spec() == cap,
                failures.count == c0 + i,
                c0 + fs.len() <= usize::MAX,
                *unsupported == (u0 || exists|j: int| 0 <= j < i && fs[j].error is Unavailable),
                self.failures() == record_all(m0, fs.subrange(0, i as int)),
                action_log.view_entries() == log_all(
                    start,
                    cap,
                    fs.subrange(0, i as int).map_values(|f: ReleaseFailure| restore_failure_entry(f)),
                ),
            decreases fs.len() - i,
        {
            let failure = &summary.failures[i];
            let is_unavailable = match &failure.error {
                ProcessControlError::Unavailable(_) => true,
                _ => false,
            };
            *unsupported = *unsupported || is_unavailable;
            self.record_process_failure(failure.executable_path.as_str());
            let mut action = String::from_str("Restore ");
            action.append(failure.property.as_str());
            failures.record(action.as_str(), failure.process_id, failure.process_name.as_str(), &failure.error, action_log);
            proof {
                let next = fs.subrange(0, i + 1);
                assert(next.drop_last() =~= fs.subrange(0, i as int));
                assert(next.map_values(|f: ReleaseFailure| restore_failure_entry(f)).drop_last() =~= fs.subrange(
                    0,
                    i as int,
                ).map_values(|f: ReleaseFailure| restore_failure_entry(f)));
            }
            i = i + 1;
        }
        assert(fs.subrange(0, fs.len() as int) =~= fs);
    }
}

/// Whether a hold turns the feature off (rather than pausing it).
pub open spec fn be_hold_turns_off(hold: BackgroundEfficiencyHold) -> bool {
    hold is AutomationDisabled || hold is FeatureDisabled
}

/// The message of a held pass.
pub open spec fn be_hold_message(hold: BackgroundEfficiencyHold) -> Seq<char> {
    match hold {
        BackgroundEfficiencyHold::AutomationDisabled => "Automation disabled."@,
        BackgroundEfficiencyHold::FeatureDisabled => "Background Efficiency disabled."@,
        BackgroundEfficiencyHold::ForegroundUnknown => "Paused: foreground app is unknown."@,
        BackgroundEfficiencyHold::VisibleWindowsUnavailable => "Paused: visible windows are unavailable."@,
        BackgroundEfficiencyHold::SessionUnknown => "Paused: current Windows session is unknown."@,
    }
}

/// The reason a held pass releases everything with.
pub open spec fn be_hold_reason(hold: BackgroundEfficiencyHold) -> Seq<char> {
    match hold {
        BackgroundEfficiencyHold::AutomationDisabled => "automation disabled"@,
        BackgroundEfficiencyHold::FeatureDisabled => "Background Efficiency disabled"@,
        BackgroundEfficiencyHold::ForegroundUnknown => "foreground app is unknown"@,
        BackgroundEfficiencyHold::VisibleWindowsUnavailable => "visible windows are unavailable"@,
        BackgroundEfficiencyHold::SessionUnknown => "current Windows session is unknown"@,
    }
}

/// The snapshot of a held pass: off (not enabled) for disabled automation
/// or feature, paused (enabled) otherwise, with the message of the hold and
/// the release's failures.
pub fn hold_snapshot(
    hold: BackgroundEfficiencyHold,
    failures: BackgroundEfficiencyFailures,
    unsupported: bool,
) -> (r: BackgroundEfficiencySnapshot)
    ensures
        r.enabled == !be_hold_turns_off(hold),
        r.unsupported == unsupported,
        r.failed_processes == failures.count,
        r.last_error == failures.last_error,
        r.scanned_processes == 0 && r.throttled_processes == 0 && r.timer_resolution_ignored_processes == 0
            && r.skipped_processes == 0 && r.access_denied_processes == 0,
        r.message@ == be_hold_message(hold),
{
    let (enabled, message) = match hold {
        BackgroundEfficiencyHold::AutomationDisabled => (false, "Automation disabled."),
        BackgroundEfficiencyHold::FeatureDisabled => (false, "Background Efficiency disabled."),
        BackgroundEfficiencyHold::ForegroundUnknown => (true, "Paused: foreground app is unknown."),
        BackgroundEfficiencyHold::VisibleWindowsUnavailable => (true, "Paused: visible windows are unavailable."),
        BackgroundEfficiencyHold::SessionUnknown => (true, "Paused: current Windows session is unknown."),
    };
    BackgroundEfficiencySnapshot {
        enabled,
        unsupported,
        scanned_processes: 0,
        throttled_processes: 0,
        timer_resolution_ignored_processes: 0,
        skipped_processes: 0,
        access_denied_processes: 0,
        failed_processes: failures.count,
        message: String::from_str(message),
        last_error: failures.last_error,
    }
}

/// The reason a held pass releases everything with.
pub fn hold_release_reason(hold: BackgroundEfficiencyHold) -> (r: &'static str)
    ensures
        r@ == be_hold_reason(hold),
{
    match hold {
        BackgroundEfficiencyHold::AutomationDisabled => "automation disabled",
        BackgroundEfficiencyHold::FeatureDisabled => "Background Efficiency disabled",
        BackgroundEfficiencyHold::ForegroundUnknown => "foreground app is unknown",
        BackgroundEfficiencyHold::VisibleWindowsUnavailable => "visible windows are unavailable",
        BackgroundEfficiencyHold::SessionUnknown => "current Windows session is unknown",
    }
}

/// The log after a release of every claim is merged (see
/// `merge_release_summary`): the restored count, then each failed restore.
pub open spec fn release_log(
    entries: Seq<ActionLogEntryView>,
    cap: nat,
    summary: PriorityEfficiencyReleaseSummary,
    reason: Seq<char>,
) -> Seq<ActionLogEntryView> {
    let start = if summary.restored_processes > 0 {
        log_after(
            entries,
            cap,
            ActionLogEntryView {
                feature: ActionLogFeature::BackgroundEfficiency,
                process_id: None,
                process_name: "Background Efficiency"@,
                action: action_of_result(ActionLogResult::Restored),
                result: ActionLogResult::Restored,
                reason: restored_reason(summary.restored_processes as nat, reason),
            },
        )
    } else {
        entries
    };
    log_all(start, cap, summary.failures@.map_values(|f: ReleaseFailure| restore_failure_entry(f)))
}

/// What a Background Efficiency pass does before it applies anything.
pub enum BackgroundEfficiencyStep {
    /// Release every efficiency claim once, with `reason`, and apply none;
    /// the pass reports `hold` (`None`: the process list could not be read).
    ReleaseAll { hold: Option<BackgroundEfficiencyHold>, reason: &'static str },
    /// Look at the processes.
    Scan,
}

/// The step a pass takes from what it read: automation off, the feature
/// off, an unknown protected foreground app, unreadable visible windows
/// (when they are protected), an unknown session or an unreadable process
/// list (in that order) release every efficiency claim once and apply
/// none; otherwise the pass looks at the processes.
pub fn background_efficiency_step(
    automation_enabled: bool,
    settings: &BackgroundEfficiencySettings,
    foreground_process_id: Option<u32>,
    visible_windows_read: bool,
    current_session_id: Option<u32>,
    process_list_read: bool,
) -> (r: BackgroundEfficiencyStep)
    ensures
        ({
            let hold = if !automation_enabled {
                Some(BackgroundEfficiencyHold::AutomationDisabled)
            } else if !settings.enabled {
                Some(BackgroundEfficiencyHold::FeatureDisabled)
            } else if settings.protect_foreground_app && foreground_process_id is None {
                Some(BackgroundEfficiencyHold::ForegroundUnknown)
            } else if settings.protect_visible_window_apps && !visible_windows_read {
                Some(BackgroundEfficiencyHold::VisibleWindowsUnavailable)
            } else if current_session_id is None {
                Some(BackgroundEfficiencyHold::SessionUnknown)
            } else {
                None
            };
            if hold is None && process_list_read {
                r is Scan
            } else {
                &&& r matches BackgroundEfficiencyStep::ReleaseAll { hold: h, reason }
                &&& h == hold
                &&& reason@ == match hold {
                    Some(k) => be_hold_reason(k),
                    None => "process list unavailable"@,
                }
            }
        }),
{
    let hold = match background_efficiency_hold(automation_enabled, settings, foreground_process_id) {
        Some(h) => Some(h),
        None => if settings.protect_visible_window_apps && !visible_windows_read {
            Some(BackgroundEfficiencyHold::VisibleWindowsUnavailable)
        } else if current_session_id.is_none() {
            Some(BackgroundEfficiencyHold::SessionUnknown)
        } else if !process_list_read {
            None
        } else {
            return BackgroundEfficiencyStep::Scan;
        },
    };
    let reason = match hold {
        Some(h) => hold_release_reason(h),
        None => "process list unavailable",
    };
    BackgroundEfficiencyStep::ReleaseAll { hold, reason }
}

impl BackgroundEfficiencyManager {
    /// Ends a held pass with the one release of every claim it made (applying
    /// none): the release is merged with the hold's reason, the failures are
    /// forgotten when the hold turns the feature off, and the report is the
    /// hold's, counting the release's failures.
    pub fn held_pass(
        &mut self,
        hold: BackgroundEfficiencyHold,
        release: &PriorityEfficiencyReleaseSummary,
        action_log: &mut ActionLog,
    ) -> (r: BackgroundEfficiencySnapshot)
        requires
            old(self).wf(),
            old(action_log).wf(),
        ensures
            final(self).wf(),
            final(action_log).wf(),
            final(action_log).view_entries() == release_log(
                old(action_log).view_entries(),
                old(action_log).capacity_spec(),
                *release,
                be_hold_reason(hold),
            ),
            final(self).failures() == if be_hold_turns_off(hold) {
                Map::<Seq<char>, FailureState>::empty()
            } else {
                record_all(old(self).failures(), release.failures@)
            },
            r.enabled == !be_hold_turns_off(hold),
            r.unsupported == exists|i: int| 0 <= i < release.failures@.len() && release.failures@[i].error is Unavailable,
            r.failed_processes == release.failures@.len(),
            r.scanned_processes == 0 && r.throttled_processes == 0 && r.timer_resolution_ignored_processes == 0
                && r.skipped_processes == 0 && r.access_denied_processes == 0,
            r.message@ == be_hold_message(hold),
    {
        let mut failures = BackgroundEfficiencyFailures::new();
        let mut unsupported = false;
        let reason = hold_release_reason(hold);
        assert(release.failures@.len() == release.failures.len());
        self.merge_release_summary(release, action_log, reason, &mut failures, &mut unsupported);
        let off = match hold {
            BackgroundEfficiencyHold::AutomationDisabled | BackgroundEfficiencyHold::FeatureDisabled => true,
            _ => false,
        };
        if off {
            self.failure_suppression.clear();
        }
        hold_snapshot(hold, failures, unsupported)
    }

    /// Ends a pass whose process list could not be read, with the one release
    /// of every claim (applying none): the release is merged with reason
    /// `process list unavailable`, the failures kept; the report is enabled,
    /// with the list's error as message and the release's failures.
    pub fn list_unavailable_pass(
        &mut self,
        error: String,
        release: &PriorityEfficiencyReleaseSummary,
        action_log: &mut ActionLog,
    ) -> (r: BackgroundEfficiencySnapshot)
        requires
            old(self).wf(),
            old(action_log).wf(),
        ensures
            final(self).wf(),
            final(action_log).wf(),
            final(action_log).view_entries() == release_log(
                old(action_log).view_entries(),
                old(action_log).capacity_spec(),
                *release,
                "process list unavailable"@,
            ),
            final(self).failures() == record_all(old(self).failures(), release.failures@),
            r.enabled,
            r.unsupported == exists|i: int| 0 <= i < release.failures@.len() && release.failures@[i].error is Unavailable,
            r.failed_processes == release.failures@.len(),
            r.scanned_processes == 0 && r.throttled_processes == 0 && r.timer_resolution_ignored_processes == 0
                && r.skipped_processes == 0 && r.access_denied_processes == 0,
            r.message@ == error@,
    {
        let mut failures = BackgroundEfficiencyFailures::new();
        let mut unsupported = false;
        assert(release.failures@.len() == release.failures.len());
        self.merge_release_summary(release, action_log, "process list unavailable", &mut failures, &mut unsupported);
        BackgroundEfficiencySnapshot {
            enabled: true,
            unsupported,
            scanned_processes: 0,
            throttled_processes: 0,
            timer_resolution_ignored_processes: 0,
            skipped_processes: 0,
            access_denied_processes: 0,
            failed_processes: failures.count,
            message: error,
            last_error: failures.last_error,
        }
    }
}

/// The snapshot of a pass that looked at processes.
pub fn active_snapshot(
    scanned_processes: usize,
    throttled_processes: usize,
    timer_resolution_ignored_processes: usize,
    pass: BackgroundEfficiencyPass,
) -> (r: BackgroundEfficiencySnapshot)
    ensures
        r.enabled,
        r.unsupported == pass.unsupported,
        r.scanned_processes == scanned_processes,
        r.throttled_processes == throttled_processes,
        r.timer_resolution_ignored_processes == timer_resolution_ignored_processes,
        r.skipped_processes == pass.skipped_processes,
        r.access_denied_processes == pass.access_denied_processes,
        r.failed_processes == pass.failures.count,
        r.last_error == pass.failures.last_error,
        r.message@ == "Background Efficiency active."@,
{
    BackgroundEfficiencySnapshot {
        enabled: true,
        unsupported: pass.unsupported,
        scanned_processes,
        throttled_processes,
        timer_resolution_ignored_processes,
        skipped_processes: pass.skipped_processes,
        access_denied_processes: pass.access_denied_processes,
        failed_processes: pass.failures.count,
        message: String::from_str("Background Efficiency active."),
        last_error: pass.failures.last_error,
    }
}

} // verus!
