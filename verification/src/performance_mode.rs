//! Running App Detection: which running process a rule matches, which power
//! plan it asks for, and how the active decision is kept and released.
use vstd::prelude::*;

use crate::action_log::{log_after, ActionLog, ActionLogAction, ActionLogEntryView, ActionLogFeature, ActionLogResult};
use crate::config::{PerformanceModeRule, PerformanceModeSettings, PowerPlanSettings};
use crate::foreground::process_list::{contains_process_name, list_contains_name, names_view, ProcessInfo};
use crate::text::{eq_ignore_ascii_case, lower_seq, same_name, same_name_seq, trim, trim_seq};

verus! {

pub open spec fn performance_exclusions() -> Seq<Seq<char>> {
    seq![
        "audiodg.exe"@, "conhost.exe"@, "csrss.exe"@, "ctfmon.exe"@, "dwm.exe"@, "explorer.exe"@,
        "fontdrvhost.exe"@, "lsaiso.exe"@, "lsass.exe"@, "registry"@, "searchapp.exe"@, "searchhost.exe"@,
        "securityhealthservice.exe"@, "securityhealthsystray.exe"@, "services.exe"@,
        "shellexperiencehost.exe"@, "sihost.exe"@, "smss.exe"@, "startmenuexperiencehost.exe"@, "system"@,
        "systemsettings.exe"@, "taskmgr.exe"@, "textinputhost.exe"@, "wininit.exe"@, "winlogon.exe"@,
        "wudfhost.exe"@,
    ]
}

/// The processes Running App Detection never matches.
pub fn built_in_exclusions() -> (r: Vec<&'static str>)
    ensures
        names_view(r@) == performance_exclusions(),
{
    let r = vec![
        "audiodg.exe", "conhost.exe", "csrss.exe", "ctfmon.exe", "dwm.exe", "explorer.exe", "fontdrvhost.exe",
        "lsaiso.exe", "lsass.exe", "registry", "searchapp.exe", "searchhost.exe", "securityhealthservice.exe",
        "securityhealthsystray.exe", "services.exe", "shellexperiencehost.exe", "sihost.exe", "smss.exe",
        "startmenuexperiencehost.exe", "system", "systemsettings.exe", "taskmgr.exe", "textinputhost.exe",
        "wininit.exe", "winlogon.exe", "wudfhost.exe",
    ];
    assert(names_view(r@) =~= performance_exclusions());
    r
}

/// Whether Running App Detection never matches the process.
pub fn is_builtin_excluded(process_name: &str) -> (r: bool)
    ensures
        r == list_contains_name(performance_exclusions(), process_name@),
{
    let list = built_in_exclusions();
    contains_process_name(list.as_slice(), process_name)
}

/// Whether a running process may be matched: not the idle process nor this
/// one, not excluded, and in this session.
pub fn performance_mode_eligible(
    process_id: u32,
    process_name: &str,
    current_process_id: u32,
    current_session_id: u32,
    process_session_id: Option<u32>,
) -> (r: bool)
    ensures
        r == (process_id != 0 && process_id != current_process_id && !list_contains_name(
            performance_exclusions(),
            process_name@,
        ) && process_session_id == Some(current_session_id)),
{
    let same_session = match process_session_id {
        Some(s) => s == current_session_id,
        None => false,
    };
    process_id != 0 && process_id != current_process_id && !is_builtin_excluded(process_name) && same_session
}

/// A rule's display name: its trimmed name, or its trimmed process name
/// when it has none.
pub open spec fn rule_name_spec(rule: PerformanceModeRule) -> Seq<char> {
    if trim_seq(rule.name@).len() == 0 {
        trim_seq(rule.process_name@)
    } else {
        trim_seq(rule.name@)
    }
}

/// The rule's display name.
pub fn performance_rule_name(rule: &PerformanceModeRule) -> (r: String)
    ensures
        r@ == rule_name_spec(*rule),
{
    let name = trim(rule.name.as_str());
    if name.unicode_len() == 0 {
        String::from_str(trim(rule.process_name.as_str()))
    } else {
        String::from_str(name)
    }
}

/// The plan a rule asks for: its own, else the global performance plan.
pub open spec fn target_plan(rule: PerformanceModeRule, plans: PowerPlanSettings) -> Option<Seq<char>> {
    match rule.power_plan_guid {
        Some(g) => Some(g@),
        None => match plans.performance_guid {
            Some(g) => Some(g@),
            None => None,
        },
    }
}

/// Whether a process runs under a rule's process name (trimmed, ASCII
/// case-insensitive).
pub open spec fn runs_as(p: ProcessInfo, rule: PerformanceModeRule) -> bool {
    same_name_seq(p.name@, rule.process_name@)
}

/// Whether a rule can match: enabled, with a process name and a plan, and
/// a running process of that name.
pub open spec fn rule_applies(rule: PerformanceModeRule, plans: PowerPlanSettings, ps: Seq<ProcessInfo>) -> bool {
    &&& rule.enabled
    &&& trim_seq(rule.process_name@).len() > 0
    &&& target_plan(rule, plans) is Some
    &&& exists|j: int| 0 <= j < ps.len() && runs_as(ps[j], rule)
}

/// The rule that matched, the process it matched and the plan it asks for.
#[derive(Debug, Clone, PartialEq, Eq)]
pub struct PerformanceModeMatch {
    pub rule_name: String,
    pub process_id: u32,
    pub process_name: String,
    pub target_guid: String,
}

fn first_running(processes: &Vec<ProcessInfo>, rule: &PerformanceModeRule) -> (r: Option<usize>)
    ensures
        r is None ==> forall|j: int| 0 <= j < processes@.len() ==> !runs_as(#[trigger] processes@[j], *rule),
        r matches Some(j) ==> j < processes@.len() && runs_as(processes@[j as int], *rule) && forall|k: int|
            0 <= k < j ==> !runs_as(#[trigger] processes@[k], *rule),
{
    let name = trim(rule.process_name.as_str());
    let mut j: usize = 0;
    while j < processes.len()
        invariant
            j <= processes@.len(),
            name@ == trim_seq(rule.process_name@),
            forall|k: int| 0 <= k < j ==> !runs_as(#[trigger] processes@[k], *rule),
        decreases processes@.len() - j,
    {
        if same_name(processes[j].name.as_str(), rule.process_name.as_str()) {
            return Some(j);
        }
        j = j + 1;
    }
    None
}

/// The first rule (in order) that can match, with the first process that
/// runs under its name.
pub fn matching_rule_process(
    settings: &PerformanceModeSettings,
    power_plans: &PowerPlanSettings,
    processes: &Vec<ProcessInfo>,
) -> (r: Option<PerformanceModeMatch>)
    ensures
        r is None <==> forall|i: int|
            0 <= i < settings.rules@.len() ==> !rule_applies(#[trigger] settings.rules@[i], *power_plans, processes@),
        r matches Some(m) ==> exists|i: int, j: int|
            0 <= i < settings.rules@.len() && 0 <= j < processes@.len() && rule_applies(
                settings.rules@[i],
                *power_plans,
                processes@,
            ) && (forall|k: int|
                0 <= k < i ==> !rule_applies(#[trigger] settings.rules@[k], *power_plans, processes@))
                && runs_as(processes@[j], settings.rules@[i]) && (forall|k: int|
                0 <= k < j ==> !runs_as(#[trigger] processes@[k], settings.rules@[i])) && m.rule_name@
                == rule_name_spec(settings.rules@[i]) && m.process_id == processes@[j].id && m.process_name@
                == processes@[j].name@ && Some(m.target_guid@) == target_plan(settings.rules@[i], *power_plans),
{
    let mut i: usize = 0;
    while i < settings.rules.len()
        invariant
            i <= settings.rules@.len(),
            forall|k: int| 0 <= k < i ==> !rule_applies(#[trigger] settings.rules@[k], *power_plans, processes@),
        decreases settings.rules@.len() - i,
    {
        let rule = &settings.rules[i];
        if rule.enabled && trim(rule.process_name.as_str()).unicode_len() > 0 {
            let guid = match &rule.power_plan_guid {
                Some(g) => Some(String::from_str(g.as_str())),
                None => match &power_plans.performance_guid {
                    Some(g) => Some(String::from_str(g.as_str())),
                    None => None,
                },
            };
            match guid {
                Some(target_guid) => {
                    match first_running(processes, rule) {
                        Some(j) => {
                            let m = PerformanceModeMatch {
                                rule_name: performance_rule_name(rule),
                                process_id: processes[j].id,
                                process_name: String::from_str(processes[j].name.as_str()),
                                target_guid,
                            };
                            assert(rule_applies(settings.rules@[i as int], *power_plans, processes@));
                            return Some(m);
                        },
                        None => {},
                    }
                },
                None => {},
            }
        }
        i = i + 1;
    }
    None
}

/// Whether some enabled, named rule matches the process.
pub open spec fn matched_by_rule(p: ProcessInfo, rules: Seq<PerformanceModeRule>) -> bool {
    exists|i: int| 0 <= i < rules.len() && rules[i].enabled && trim_seq(rules[i].process_name@).len() > 0 && runs_as(p, rules[i])
}

fn matched_by_any_rule(process: &ProcessInfo, settings: &PerformanceModeSettings) -> (r: bool)
    ensures
        r == matched_by_rule(*process, settings.rules@),
{
    let mut i: usize = 0;
    while i < settings.rules.len()
        invariant
            i <= settings.rules@.len(),
            forall|k: int|
                0 <= k < i ==> !(settings.rules@[k].enabled && trim_seq(settings.rules@[k].process_name@).len() > 0
                    && runs_as(*process, #[trigger] settings.rules@[k])),
        decreases settings.rules@.len() - i,
    {
        let rule = &settings.rules[i];
        if rule.enabled && trim(rule.process_name.as_str()).unicode_len() > 0 && same_name(
            process.name.as_str(),
            rule.process_name.as_str(),
        ) {
            return true;
        }
        i = i + 1;
    }
    false
}

/// The names of the running processes some rule matches, sorted and
/// without repeats.
pub fn matching_process_names(settings: &PerformanceModeSettings, processes: &Vec<ProcessInfo>) -> (r: Vec<String>)
    ensures
        crate::text::strictly_sorted(crate::text::string_views(r@)),
        crate::text::string_views(r@).to_set() == Set::new(
            |n: Seq<char>|
                exists|j: int|
                    0 <= j < processes@.len() && processes@[j].name@ == n && matched_by_rule(
                        processes@[j],
                        settings.rules@,
                    ),
        ),
{
    let ghost target = Set::new(
        |n: Seq<char>|
            exists|j: int|
                0 <= j < processes@.len() && processes@[j].name@ == n && matched_by_rule(processes@[j], settings.rules@),
    );
    let mut names: Vec<String> = Vec::new();
    let mut j: usize = 0;
    while j < processes.len()
        invariant
            j <= processes@.len(),
            crate::text::strictly_sorted(crate::text::string_views(names@)),
            crate::text::string_views(names@).to_set() == Set::new(
                |n: Seq<char>|
                    exists|k: int|
                        0 <= k < j && processes@[k].name@ == n && matched_by_rule(processes@[k], settings.rules@),
            ),
        decreases processes@.len() - j,
    {
        let ghost before = crate::text::string_views(names@).to_set();
        if matched_by_any_rule(&processes[j], settings) {
            crate::text::insert_sorted_unique(&mut names, processes[j].name.as_str());
        }
        proof {
            let now = Set::new(
                |n: Seq<char>|
                    exists|k: int|
                        0 <= k < j + 1 && processes@[k].name@ == n && matched_by_rule(processes@[k], settings.rules@),
            );
            assert(crate::text::string_views(names@).to_set() =~= now) by {
                assert forall|n: Seq<char>| now.contains(n) implies crate::text::string_views(names@).to_set().contains(n) by {
                    let k = choose|k: int|
                        0 <= k < j + 1 && processes@[k].name@ == n && matched_by_rule(processes@[k], settings.rules@);
                    if k < j {
                        assert(before.contains(n));
                    }
                }
                assert forall|n: Seq<char>| crate::text::string_views(names@).to_set().contains(n) implies now.contains(n) by {
                    if before.contains(n) {
                        let k = choose|k: int|
                            0 <= k < j && processes@[k].name@ == n && matched_by_rule(processes@[k], settings.rules@);
                        assert(0 <= k < j + 1);
                    } else {
                        assert(processes@[j as int].name@ == n);
                    }
                }
            }
        }
        j = j + 1;
    }
    names
}

/// The decision Running App Detection holds.
#[derive(Debug, Clone)]
pub struct ActivePerformanceMode {
    pub rule_name: String,
    pub process_id: u32,
    pub process_name: String,
    pub target_guid: String,
}

/// The results of one Running App Detection pass.
#[derive(Debug, Clone, PartialEq, Eq)]
pub struct PerformanceModeSnapshot {
    pub enabled: bool,
    pub active: bool,
    pub scanned_processes: usize,
    pub matched_processes: usize,
    pub active_rule: Option<String>,
    pub active_process: Option<String>,
    pub target_guid: Option<String>,
    pub previous_guid: Option<String>,
    pub message: String,
    pub last_error: Option<String>,
}

impl Default for PerformanceModeSnapshot {
    fn default() -> (r: Self)
        ensures
            !r.enabled,
            !r.active,
            r.scanned_processes == 0,
            r.matched_processes == 0,
            r.active_rule.is_none(),
            r.active_process.is_none(),
            r.target_guid.is_none(),
            r.previous_guid.is_none(),
            r.message@ == "Running App Detection disabled."@,
            r.last_error.is_none(),
    {
        PerformanceModeSnapshot {
            enabled: false,
            active: false,
            scanned_processes: 0,
            matched_processes: 0,
            active_rule: None,
            active_process: None,
            target_guid: None,
            previous_guid: None,
            message: String::from_str("Running App Detection disabled."),
            last_error: None,
        }
    }
}

/// Running App Detection's state: the decision it holds, if any.
pub struct PerformanceModeManager {
    pub active: Option<ActivePerformanceMode>,
}

/// `<reason>; released Running App Detection decision.`
pub open spec fn release_reason(reason: Seq<char>) -> Seq<char> {
    reason + "; released Running App Detection decision."@
}

/// `Rule '<rule>' requested performance plan <guid>.`
pub open spec fn apply_reason(rule: Seq<char>, guid: Seq<char>) -> Seq<char> {
    "Rule '"@ + rule + "' requested performance plan "@ + guid + "."@
}

impl PerformanceModeManager {
    pub fn new() -> (r: Self)
        ensures
            r.active.is_none(),
    {
        PerformanceModeManager { active: None }
    }

    /// Whether a decision is held.
    pub fn is_active(&self) -> (r: bool)
        ensures
            r == self.active.is_some(),
    {
        self.active.is_some()
    }

    /// The held decision as rule name, process name and target plan, if any.
    pub fn active_decision(&self) -> (r: Option<(String, String, String)>)
        ensures
            match self.active {
                Some(a) => r matches Some(d) && d.0@ == a.rule_name@ && d.1@ == a.process_name@ && d.2@
                    == a.target_guid@,
                None => r is None,
            },
    {
        match &self.active {
            Some(a) => Some(
                (
                    String::from_str(a.rule_name.as_str()),
                    String::from_str(a.process_name.as_str()),
                    String::from_str(a.target_guid.as_str()),
                ),
            ),
            None => None,
        }
    }

    /// The process the held decision is for, if any.
    pub fn active_process_ids(&self) -> (r: Vec<u32>)
        ensures
            r@ == match self.active {
                Some(a) => seq![a.process_id],
                None => Seq::<u32>::empty(),
            },
    {
        match &self.active {
            Some(a) => {
                let mut v = Vec::new();
                v.push(a.process_id);
                v
            },
            None => Vec::new(),
        }
    }

    /// Whether the held decision is for the same process (id and name, ASCII
    /// case-insensitive) and the same plan (ASCII case-insensitive).
    pub fn active_matches(&self, matched: &PerformanceModeMatch) -> (r: bool)
        ensures
            r == match self.active {
                Some(a) => a.process_id == matched.process_id && lower_seq(a.process_name@) == lower_seq(
                    matched.process_name@,
                ) && lower_seq(a.target_guid@) == lower_seq(matched.target_guid@),
                None => false,
            },
    {
        match &self.active {
            Some(a) => a.process_id == matched.process_id && eq_ignore_ascii_case(
                a.process_name.as_str(),
                matched.process_name.as_str(),
            ) && eq_ignore_ascii_case(a.target_guid.as_str(), matched.target_guid.as_str()),
            None => false,
        }
    }

    /// Drops the held decision, logging that it was released and why.
    pub fn release(&mut self, action_log: &mut ActionLog, reason: &str)
        requires
            old(action_log).wf(),
        ensures
            final(self).active.is_none(),
            final(action_log).wf(),
            match old(self).active {
                Some(a) => final(action_log).view_entries() == log_after(
                    old(action_log).view_entries(),
                    old(action_log).capacity_spec(),
                    ActionLogEntryView {
                        feature: ActionLogFeature::PerformanceMode,
                        process_id: Some(a.process_id),
                        process_name: a.process_name@,
                        action: ActionLogAction::Restore,
                        result: ActionLogResult::Restored,
                        reason: release_reason(reason@),
                    },
                ),
                None => final(action_log).view_entries() == old(action_log).view_entries(),
            },
    {
        let active = self.active.take();
        match active {
            Some(a) => {
                let mut message = String::from_str(reason);
                message.append("; released Running App Detection decision.");
                action_log.record_action(
                    ActionLogFeature::PerformanceMode,
                    Some(a.process_id),
                    a.process_name,
                    ActionLogAction::Restore,
                    ActionLogResult::Restored,
                    message,
                );
            },
            None => {},
        }
    }

    /// Takes a match: keeps the held decision when it is the same, else logs
    /// the new decision and holds it.
    pub fn apply_match(&mut self, matched: PerformanceModeMatch, action_log: &mut ActionLog)
        requires
            old(action_log).wf(),
        ensures
            final(action_log).wf(),
            ({
                let same = match old(self).active {
                    Some(a) => a.process_id == matched.process_id && lower_seq(a.process_name@) == lower_seq(
                        matched.process_name@,
                    ) && lower_seq(a.target_guid@) == lower_seq(matched.target_guid@),
                    None => false,
                };
                if same {
                    final(self).active == old(self).active && final(action_log).view_entries() == old(
                        action_log,
                    ).view_entries()
                } else {
                    &&& final(self).active matches Some(a) && a.rule_name@ == matched.rule_name@ && a.process_id
                        == matched.process_id && a.process_name@ == matched.process_name@ && a.target_guid@
                        == matched.target_guid@
                    &&& final(action_log).view_entries() == log_after(
                        old(action_log).view_entries(),
                        old(action_log).capacity_spec(),
                        ActionLogEntryView {
                            feature: ActionLogFeature::PerformanceMode,
                            process_id: Some(matched.process_id),
                            process_name: matched.process_name@,
                            action: ActionLogAction::Apply,
                            result: ActionLogResult::Applied,
                            reason: apply_reason(matched.rule_name@, matched.target_guid@),
                        },
                    )
                }
            }),
    {
        if self.active_matches(&matched) {
            return;
        }
        let mut reason = String::from_str("Rule '");
        reason.append(matched.rule_name.as_str());
        reason.append("' requested performance plan ");
        reason.append(matched.target_guid.as_str());
        reason.append(".");
        action_log.record_action(
            ActionLogFeature::PerformanceMode,
            Some(matched.process_id),
            String::from_str(matched.process_name.as_str()),
            ActionLogAction::Apply,
            ActionLogResult::Applied,
            reason,
        );
        self.active = Some(
            ActivePerformanceMode {
                rule_name: matched.rule_name,
                process_id: matched.process_id,
                process_name: matched.process_name,
                target_guid: matched.target_guid,
            },
        );
    }

    /// The pass's results: the held decision, if any, or what it waits for.
    pub fn snapshot(
        &self,
        enabled: bool,
        scanned_processes: usize,
        matched_processes: usize,
        last_error: Option<String>,
    ) -> (r: PerformanceModeSnapshot)
        ensures
            r.enabled == enabled,
            r.scanned_processes == scanned_processes,
            r.matched_processes == matched_processes,
            r.last_error == last_error,
            r.previous_guid.is_none(),
            r.active == self.active.is_some(),
            match self.active {
                Some(a) => {
                    &&& r.active_rule matches Some(n) && n@ == a.rule_name@
                    &&& r.active_process matches Some(n) && n@ == a.process_name@
                    &&& r.target_guid matches Some(g) && g@ == a.target_guid@
                    &&& r.message@ == "Running App Detection active."@
                },
                None => {
                    &&& r.active_rule.is_none() && r.active_process.is_none() && r.target_guid.is_none()
                    &&& r.message@ == if enabled {
                        "Running App Detection waiting for a matching process."@
                    } else {
                        "Running App Detection disabled."@
                    }
                },
            },
    {
        match &self.active {
            None => PerformanceModeSnapshot {
                enabled,
                active: false,
                scanned_processes,
                matched_processes,
                active_rule: None,
                active_process: None,
                target_guid: None,
                previous_guid: None,
                message: if enabled {
                    String::from_str("Running App Detection waiting for a matching process.")
                } else {
                    String::from_str("Running App Detection disabled.")
                },
                last_error,
            },
            Some(a) => PerformanceModeSnapshot {
                enabled,
                active: true,
                scanned_processes,
                matched_processes,
                active_rule: Some(String::from_str(a.rule_name.as_str())),
                active_process: Some(String::from_str(a.process_name.as_str())),
                target_guid: Some(String::from_str(a.target_guid.as_str())),
                previous_guid: None,
                message: String::from_str("Running App Detection active."),
                last_error,
            },
        }
    }
}

impl Default for PerformanceModeManager {
    fn default() -> (r: Self)
        ensures
            r.active.is_none(),
    {
        PerformanceModeManager::new()
    }
}

/// A process Running App Detection looks at: not the idle process nor this
/// one, not excluded, and in this session.
pub open spec fn detection_eligible(p: ProcessInfo, current_process_id: u32, current_session_id: u32) -> bool {
    p.id != 0 && p.id != current_process_id && !list_contains_name(performance_exclusions(), p.name@)
        && p.session_id == Some(current_session_id)
}

/// The processes of a list that Running App Detection looks at, in order.
pub open spec fn eligible_seq(ps: Seq<ProcessInfo>, current_process_id: u32, current_session_id: u32) -> Seq<
    ProcessInfo,
>
    decreases ps.len(),
{
    if ps.len() == 0 {
        Seq::empty()
    } else {
        let e = eligible_seq(ps.drop_last(), current_process_id, current_session_id);
        if detection_eligible(ps.last(), current_process_id, current_session_id) {
            e.push(ps.last())
        } else {
            e
        }
    }
}

/// The names of the listed processes some enabled, named rule matches.
pub open spec fn matched_names(rules: Seq<PerformanceModeRule>, ps: Seq<ProcessInfo>) -> Set<Seq<char>> {
    Set::new(|n: Seq<char>| exists|j: int| 0 <= j < ps.len() && ps[j].name@ == n && matched_by_rule(ps[j], rules))
}

/// `m` is the match `matching_rule_process` gives for these rules and
/// processes: the first rule that can match and the first process of its
/// name.
pub open spec fn is_first_match(
    m: ActivePerformanceMode,
    rules: Seq<PerformanceModeRule>,
    plans: PowerPlanSettings,
    ps: Seq<ProcessInfo>,
) -> bool {
    exists|i: int, j: int|
        0 <= i < rules.len() && 0 <= j < ps.len() && rule_applies(rules[i], plans, ps) && (forall|k: int|
            0 <= k < i ==> !rule_applies(#[trigger] rules[k], plans, ps)) && runs_as(ps[j], rules[i]) && (forall|k: int|
            0 <= k < j ==> !runs_as(#[trigger] ps[k], rules[i])) && m.rule_name@ == rule_name_spec(rules[i])
            && m.process_id == ps[j].id && m.process_name@ == ps[j].name@ && Some(m.target_guid@) == target_plan(
            rules[i],
            plans,
        )
}

/// Whether the held decision is the same as `m`: the same process (id and
/// name, ASCII case-insensitive) and plan (ASCII case-insensitive).
pub open spec fn same_decision(active: Option<ActivePerformanceMode>, m: ActivePerformanceMode) -> bool {
    match active {
        Some(a) => a.process_id == m.process_id && lower_seq(a.process_name@) == lower_seq(m.process_name@)
            && lower_seq(a.target_guid@) == lower_seq(m.target_guid@),
        None => false,
    }
}

/// The log entry of a newly held decision.
pub open spec fn apply_entry(m: ActivePerformanceMode) -> ActionLogEntryView {
    ActionLogEntryView {
        feature: ActionLogFeature::PerformanceMode,
        process_id: Some(m.process_id),
        process_name: m.process_name@,
        action: ActionLogAction::Apply,
        result: ActionLogResult::Applied,
        reason: apply_reason(m.rule_name@, m.target_guid@),
    }
}

/// The log after releasing the held decision `active` with `reason`.
pub open spec fn log_after_release(
    entries: Seq<ActionLogEntryView>,
    capacity: nat,
    active: Option<ActivePerformanceMode>,
    reason: Seq<char>,
) -> Seq<ActionLogEntryView> {
    match active {
        Some(a) => log_after(
            entries,
            capacity,
            ActionLogEntryView {
                feature: ActionLogFeature::PerformanceMode,
                process_id: Some(a.process_id),
                process_name: a.process_name@,
                action: ActionLogAction::Restore,
                result: ActionLogResult::Restored,
                reason: release_reason(reason),
            },
        ),
        None => entries,
    }
}

/// Why a Running App Detection pass holds no decision before it looks for
/// a match, with the release reason and the message.
pub open spec fn detection_hold(
    automation_enabled: bool,
    enabled: bool,
    current_session_id: Option<u32>,
    processes: Result<Vec<ProcessInfo>, String>,
) -> Option<(bool, Seq<char>, Seq<char>)> {
    if !automation_enabled {
        Some((false, "automation disabled"@, "Automation disabled."@))
    } else if !enabled {
        Some((false, "Running App Detection disabled"@, "Running App Detection disabled."@))
    } else if current_session_id is None {
        Some((true, "current Windows session is unknown"@, "Paused: current Windows session is unknown."@))
    } else {
        match processes {
            Err(e) => Some((true, "process list unavailable"@, e@)),
            Ok(_) => None,
        }
    }
}

fn eligible_processes(processes: Vec<ProcessInfo>, current_process_id: u32, current_session_id: u32) -> (r: Vec<
    ProcessInfo,
>)
    ensures
        r@ == eligible_seq(processes@, current_process_id, current_session_id),
{
    let ghost all = processes@;
    let total = processes.len();
    let mut rest = processes;
    let mut kept: Vec<ProcessInfo> = Vec::new();
    let mut n: usize = 0;
    proof {
        assert(all.subrange(0, 0) =~= Seq::<ProcessInfo>::empty());
        assert(rest@ =~= all.subrange(0, all.len() as int));
    }
    while rest.len() > 0
        invariant
            n <= all.len(),
            all.len() == total,
            rest@ == all.subrange(n as int, all.len() as int),
            kept@ == eligible_seq(all.subrange(0, n as int), current_process_id, current_session_id),
        decreases rest@.len(),
    {
        let p = rest.remove(0);
        proof {
            assert(p == all[n as int]);
            let next = all.subrange(0, n + 1);
            assert(next.drop_last() =~= all.subrange(0, n as int));
            assert(next.last() == p);
        }
        let same_session = match p.session_id {
            Some(sid) => sid == current_session_id,
            None => false,
        };
        if p.id != 0 && p.id != current_process_id && !is_builtin_excluded(p.name.as_str()) && same_session {
            kept.push(p);
        }
        n = n + 1;
        proof {
            assert(rest@ =~= all.subrange(n as int, all.len() as int));
        }
    }
    proof {
        assert(all.subrange(0, n as int) =~= all);
    }
    kept
}

proof fn lemma_sorted_count(names: Seq<String>)
    requires
        crate::text::strictly_sorted(crate::text::string_views(names)),
    ensures
        crate::text::string_views(names).to_set().len() == names.len(),
{
    let v = crate::text::string_views(names);
    assert forall|i: int, j: int| 0 <= i < v.len() && 0 <= j < v.len() && i != j implies v[i] != v[j] by {
        if i < j {
            assert(crate::text::lex_lt(v[i], v[j]));
        } else {
            assert(crate::text::lex_lt(v[j], v[i]));
        }
        if v[i] == v[j] {
            crate::text::lemma_lex_irreflexive(v[i]);
        }
    }
    v.unique_seq_to_set();
}

impl PerformanceModeManager {
    /// One Running App Detection pass over this process's session and the
    /// process list as read (`Err` when it could not be read). Automation
    /// off, the feature off, an unknown session or an unreadable list
    /// release the held decision and report why; otherwise the eligible
    /// processes are matched against the rules: no match releases the
    /// decision and waits, a match is held (logged when it is new).
    pub fn update(
        &mut self,
        settings: &PerformanceModeSettings,
        power_plans: &PowerPlanSettings,
        automation_enabled: bool,
        current_process_id: u32,
        current_session_id: Option<u32>,
        processes: Result<Vec<ProcessInfo>, String>,
        action_log: &mut ActionLog,
    ) -> (r: PerformanceModeSnapshot)
        requires
            old(action_log).wf(),
        ensures
            final(action_log).wf(),
            r.previous_guid is None,
            r.last_error is None,
            match detection_hold(automation_enabled, settings.enabled, current_session_id, processes) {
                Some((enabled, reason, message)) => {
                    &&& final(self).active is None
                    &&& r.enabled == enabled
                    &&& !r.active
                    &&& r.scanned_processes == 0
                    &&& r.matched_processes == 0
                    &&& r.active_rule is None && r.active_process is None && r.target_guid is None
                    &&& r.message@ == message
                    &&& final(action_log).view_entries() == log_after_release(
                        old(action_log).view_entries(),
                        old(action_log).capacity_spec(),
                        old(self).active,
                        reason,
                    )
                },
                None => {
                    let ps = processes->Ok_0@;
                    let el = eligible_seq(ps, current_process_id, current_session_id->0);
                    &&& r.enabled
                    &&& r.scanned_processes == ps.len()
                    &&& r.matched_processes == matched_names(settings.rules@, el).len()
                    &&& if forall|i: int|
                        0 <= i < settings.rules@.len() ==> !rule_applies(#[trigger] settings.rules@[i], *power_plans, el) {
                        &&& final(self).active is None
                        &&& !r.active
                        &&& r.message@ == "Running App Detection waiting for a matching process."@
                        &&& final(action_log).view_entries() == log_after_release(
                            old(action_log).view_entries(),
                            old(action_log).capacity_spec(),
                            old(self).active,
                            "no Running App Detection process is running"@,
                        )
                    } else {
                        &&& final(self).active is Some
                        &&& exists|m: ActivePerformanceMode|
                            #[trigger] is_first_match(m, settings.rules@, *power_plans, el) && if same_decision(
                                old(self).active,
                                m,
                            ) {
                                final(self).active == old(self).active && final(action_log).view_entries() == old(
                                    action_log,
                                ).view_entries()
                            } else {
                                &&& final(self).active->0.rule_name@ == m.rule_name@
                                &&& final(self).active->0.process_id == m.process_id
                                &&& final(self).active->0.process_name@ == m.process_name@
                                &&& final(self).active->0.target_guid@ == m.target_guid@
                                &&& final(action_log).view_entries() == log_after(
                                    old(action_log).view_entries(),
                                    old(action_log).capacity_spec(),
                                    apply_entry(m),
                                )
                            }
                        &&& r.active
                        &&& r.message@ == "Running App Detection active."@
                        &&& r.active_rule is Some && r.active_rule->0@ == final(self).active->0.rule_name@
                        &&& r.active_process is Some && r.active_process->0@ == final(self).active->0.process_name@
                        &&& r.target_guid is Some && r.target_guid->0@ == final(self).active->0.target_guid@
                    }
                },
            },
    {
        if !automation_enabled {
            self.release(action_log, "automation disabled");
            let mut snapshot = self.snapshot(false, 0, 0, None);
            snapshot.message = String::from_str("Automation disabled.");
            return snapshot;
        }
        if !settings.enabled {
            self.release(action_log, "Running App Detection disabled");
            return self.snapshot(false, 0, 0, None);
        }
        let current_session_id = match current_session_id {
            Some(sid) => sid,
            None => {
                self.release(action_log, "current Windows session is unknown");
                let mut snapshot = self.snapshot(true, 0, 0, None);
                snapshot.message = String::from_str("Paused: current Windows session is unknown.");
                return snapshot;
            },
        };
        let processes = match processes {
            Ok(processes) => processes,
            Err(error) => {
                self.release(action_log, "process list unavailable");
                let mut snapshot = self.snapshot(true, 0, 0, None);
                snapshot.message = error;
                return snapshot;
            },
        };
        let scanned_processes = processes.len();
        let eligible = eligible_processes(processes, current_process_id, current_session_id);
        let names = matching_process_names(settings, &eligible);
        proof {
            lemma_sorted_count(names@);
            assert(crate::text::string_views(names@).to_set() =~= matched_names(settings.rules@, eligible@));
        }
        let matched_processes = names.len();
        match matching_rule_process(settings, power_plans, &eligible) {
            None => {
                self.release(action_log, "no Running App Detection process is running");
                self.snapshot(true, scanned_processes, matched_processes, None)
            },
            Some(matched) => {
                let ghost m = ActivePerformanceMode {
                    rule_name: matched.rule_name,
                    process_id: matched.process_id,
                    process_name: matched.process_name,
                    target_guid: matched.target_guid,
                };
                proof {
                    assert(is_first_match(m, settings.rules@, *power_plans, eligible@));
                }
                let ghost old_active = self.active;
                let ghost old_entries = action_log.view_entries();
                let ghost cap = action_log.capacity_spec();
                self.apply_match(matched, action_log);
                proof {
                    assert(is_first_match(m, settings.rules@, *power_plans, eligible@) && if same_decision(old_active, m) {
                        self.active == old_active && action_log.view_entries() == old_entries
                    } else {
                        &&& self.active->0.rule_name@ == m.rule_name@
                        &&& self.active->0.process_id == m.process_id
                        &&& self.active->0.process_name@ == m.process_name@
                        &&& self.active->0.target_guid@ == m.target_guid@
                        &&& action_log.view_entries() == log_after(old_entries, cap, apply_entry(m))
                    });
                }
                self.snapshot(true, scanned_processes, matched_processes, None)
            },
        }
    }
}

} // verus!
