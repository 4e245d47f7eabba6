//! Launch priority rules: which Image File Execution Options entries the
//! utility keeps in the registry, and with what values.
use vstd::prelude::*;

use crate::config::{
    cpu_priority_registry_value, LaunchPriorityRule, LaunchPrioritySettings, ProcessIoPrioritySetting,
    ProcessMemoryPrioritySetting,
};
use crate::text::{
    contains_char, decimal, decimal_string, lex_lt, lemma_insert_sorted, lower_seq, sorted_position,
    string_views, strictly_sorted, to_ascii_lowercase, trim, trim_seq,
};

verus! {

/// The registry key under which Windows reads per-image launch options.
pub const IFEO_SUB_KEY: &'static str = "SOFTWARE\\Microsoft\\Windows NT\\CurrentVersion\\Image File Execution Options";
pub const PERF_OPTIONS_SUB_KEY: &'static str = "PerfOptions";
/// The value that marks an entry as one this utility manages.
pub const POWERLEAF_MANAGED_VALUE: &'static str = "PowerLeafManaged";
pub const CPU_PRIORITY_VALUE: &'static str = "CpuPriorityClass";
pub const IO_PRIORITY_VALUE: &'static str = "IoPriority";
pub const PAGE_PRIORITY_VALUE: &'static str = "PagePriority";

/// The outcome of synchronizing the launch priority rules.
#[derive(Debug, Clone, Default, PartialEq, Eq)]
pub struct LaunchPrioritySnapshot {
    pub enabled: bool,
    pub configured_rules: usize,
    pub applied_rules: usize,
    pub cleared_rules: usize,
    pub failed_actions: usize,
    pub last_error: Option<String>,
    pub message: String,
}

/// The registry values of one rule.
#[derive(Debug, Clone, PartialEq, Eq)]
pub struct RegistryLaunchPriorityRule {
    pub process_name: String,
    pub cpu_priority: Option<u32>,
    pub io_priority: Option<u32>,
    pub memory_priority: Option<u32>,
}

/// The image-name form of a process name: trimmed and lower-cased, when it is
/// a plain file name (no separator, wildcard or NUL).
pub open spec fn image_name(name: Seq<char>) -> Option<Seq<char>> {
    let n = lower_seq(trim_seq(name));
    if n.len() > 0 && !n.contains('\\') && !n.contains('/') && !n.contains('*') && !n.contains('?')
        && !n.contains('\0') {
        Some(n)
    } else {
        None
    }
}

/// The image-name form of a process name (see [`image_name`]).
pub fn normalize_process_image_name(process_name: &str) -> (r: Option<String>)
    ensures
        match r {
            Some(n) => image_name(process_name@) == Some(n@),
            None => image_name(process_name@) is None,
        },
{
    let name = to_ascii_lowercase(trim(process_name));
    let s = name.as_str();
    if name.unicode_len() > 0 && !contains_char(s, '\\') && !contains_char(s, '/') && !contains_char(s, '*')
        && !contains_char(s, '?') && !contains_char(s, '\0') {
        Some(name)
    } else {
        None
    }
}

pub open spec fn io_registry_value(p: ProcessIoPrioritySetting) -> Option<u32> {
    match p {
        ProcessIoPrioritySetting::Default => None,
        ProcessIoPrioritySetting::VeryLow => Some(0),
        ProcessIoPrioritySetting::Low => Some(1),
        ProcessIoPrioritySetting::Normal => Some(2),
    }
}

pub open spec fn memory_registry_value(p: ProcessMemoryPrioritySetting) -> Option<u32> {
    match p {
        ProcessMemoryPrioritySetting::Default => None,
        ProcessMemoryPrioritySetting::VeryLow => Some(1),
        ProcessMemoryPrioritySetting::Low => Some(2),
        ProcessMemoryPrioritySetting::Medium => Some(3),
        ProcessMemoryPrioritySetting::BelowNormal => Some(4),
        ProcessMemoryPrioritySetting::Normal => Some(5),
    }
}

/// The `IoPriority` value of a launch I/O priority.
pub fn io_priority_registry_value(priority: ProcessIoPrioritySetting) -> (r: Option<u32>)
    ensures
        r == io_registry_value(priority),
{
    match priority {
        ProcessIoPrioritySetting::Default => None,
        ProcessIoPrioritySetting::VeryLow => Some(0),
        ProcessIoPrioritySetting::Low => Some(1),
        ProcessIoPrioritySetting::Normal => Some(2),
    }
}

/// The `PagePriority` value of a launch memory priority.
pub fn memory_priority_registry_value(priority: ProcessMemoryPrioritySetting) -> (r: Option<u32>)
    ensures
        r == memory_registry_value(priority),
{
    match priority {
        ProcessMemoryPrioritySetting::Default => None,
        ProcessMemoryPrioritySetting::VeryLow => Some(1),
        ProcessMemoryPrioritySetting::Low => Some(2),
        ProcessMemoryPrioritySetting::Medium => Some(3),
        ProcessMemoryPrioritySetting::BelowNormal => Some(4),
        ProcessMemoryPrioritySetting::Normal => Some(5),
    }
}

/// The registry path of an image's launch options.
pub fn perf_options_path(process_name: &str) -> (r: String)
    ensures
        r@ == IFEO_SUB_KEY@ + "\\"@ + process_name@ + "\\"@ + PERF_OPTIONS_SUB_KEY@,
{
    let mut s = String::from_str(IFEO_SUB_KEY);
    s.append("\\");
    s.append(process_name);
    s.append("\\");
    s.append(PERF_OPTIONS_SUB_KEY);
    s
}

/// `Failed to <action>: Windows error <status>.`
pub fn registry_error_message(action: &str, status: u32) -> (r: String)
    ensures
        r@ == "Failed to "@ + action@ + ": Windows error "@ + decimal(status as nat) + "."@,
{
    let mut s = String::from_str("Failed to ");
    s.append(action);
    s.append(": Windows error ");
    s.append(decimal_string(status as u64).as_str());
    s.append(".");
    s
}

/// The registry entry of a rule: enabled, with a plain image name and at
/// least one priority set.
pub open spec fn rule_entry(rule: LaunchPriorityRule) -> Option<(Seq<char>, Option<u32>, Option<u32>, Option<u32>)> {
    match image_name(rule.process_name@) {
        Some(n) => {
            let c = cpu_priority_registry_value(rule.cpu_priority);
            let i = io_registry_value(rule.io_priority);
            let m = memory_registry_value(rule.memory_priority);
            if rule.enabled && (c is Some || i is Some || m is Some) {
                Some((n, c, i, m))
            } else {
                None
            }
        },
        None => None,
    }
}

pub open spec fn entry_of(r: RegistryLaunchPriorityRule) -> (Seq<char>, Option<u32>, Option<u32>, Option<u32>) {
    (r.process_name@, r.cpu_priority, r.io_priority, r.memory_priority)
}

/// The registry entry of a rule (see [`rule_entry`]).
pub fn registry_rule_from_settings_rule(rule: &LaunchPriorityRule) -> (r: Option<RegistryLaunchPriorityRule>)
    ensures
        match r {
            Some(e) => rule_entry(*rule) == Some(entry_of(e)),
            None => rule_entry(*rule) is None,
        },
{
    if !rule.enabled {
        return None;
    }
    let process_name = match normalize_process_image_name(rule.process_name.as_str()) {
        Some(n) => n,
        None => return None,
    };
    let cpu_priority = rule.cpu_priority.registry_value();
    let io_priority = io_priority_registry_value(rule.io_priority);
    let memory_priority = memory_priority_registry_value(rule.memory_priority);
    if cpu_priority.is_some() || io_priority.is_some() || memory_priority.is_some() {
        Some(RegistryLaunchPriorityRule { process_name, cpu_priority, io_priority, memory_priority })
    } else {
        None
    }
}

/// The index of the last of the first `n` rules with an entry for image
/// `name`, or -1: a later rule for the same image replaces an earlier one.
pub open spec fn last_rule_for(rules: Seq<LaunchPriorityRule>, n: int, name: Seq<char>) -> int
    decreases n,
{
    if n <= 0 {
        -1
    } else if rule_entry(rules[n - 1]) matches Some(e) && e.0 == name {
        n - 1
    } else {
        last_rule_for(rules, n - 1, name)
    }
}

pub open spec fn desired_ok(out: Seq<RegistryLaunchPriorityRule>, rules: Seq<LaunchPriorityRule>, n: int) -> bool {
    &&& strictly_sorted(Seq::new(out.len(), |j: int| out[j].process_name@))
    &&& forall|j: int| 0 <= j < out.len() ==> {
        let l = last_rule_for(rules, n, (#[trigger] out[j]).process_name@);
        0 <= l && rule_entry(rules[l]) == Some(entry_of(out[j]))
    }
    &&& forall|k: int| 0 <= k < n && (#[trigger] rule_entry(rules[k])) is Some ==> exists|j: int|
        0 <= j < out.len() && out[j].process_name@ == rule_entry(rules[k])->Some_0.0
}

pub open spec fn names_of(out: Seq<RegistryLaunchPriorityRule>) -> Seq<Seq<char>> {
    Seq::new(out.len(), |j: int| out[j].process_name@)
}

/// The registry entries the settings ask for, one per image name in name
/// order, each from the last rule for that image; none when launch priority
/// is disabled.
#[verifier::spinoff_prover]
#[verifier::rlimit(40)]
pub fn desired_registry_rules(settings: &LaunchPrioritySettings) -> (r: Vec<RegistryLaunchPriorityRule>)
    ensures
        !settings.enabled ==> r@.len() == 0,
        settings.enabled ==> desired_ok(r@, settings.rules@, settings.rules@.len() as int),
{
    let mut out: Vec<RegistryLaunchPriorityRule> = Vec::new();
    if !settings.enabled {
        return out;
    }
    let mut names: Vec<String> = Vec::new();
    let mut i: usize = 0;
    while i < settings.rules.len()
        invariant
            i <= settings.rules@.len(),
            names@.len() == out@.len(),
            string_views(names@) == names_of(out@),
            desired_ok(out@, settings.rules@, i as int),
        decreases settings.rules@.len() - i,
    {
        let ghost rules = settings.rules@;
        let ghost old_out = out@;
        match registry_rule_from_settings_rule(&settings.rules[i]) {
            None => {
                proof {
                    lemma_desired_skip(out@, rules, i as int);
                }
            },
            Some(entry) => {
                let (pos, found) = sorted_position(&names, entry.process_name.as_str());
                let ghost ename = entry.process_name@;
                if found {
                    let name = names[pos].clone();
                    out.set(pos, entry);
                    proof {
                        assert(string_views(names@)[pos as int] == names@[pos as int]@);
                        assert(names_of(out@) =~= names_of(old_out));
                        assert(string_views(names@) =~= names_of(out@));
                        lemma_desired_replace(old_out, out@, rules, i as int, pos as int);
                    }
                } else {
                    proof {
                        let before = string_views(names@);
                        assert forall|j: int| 0 <= j < pos implies lex_lt(#[trigger] before[j], ename) by {
                            assert(before[j] == names@[j]@);
                        }
                        assert forall|j: int| pos <= j < before.len() implies lex_lt(ename, #[trigger] before[j]) by {
                            assert(before[j] == names@[j]@);
                        }
                        assert forall|j: int| 0 <= j < before.len() implies #[trigger] before[j] != ename by {
                            assert(before[j] == names@[j]@);
                        }
                        lemma_insert_sorted(before, pos as int, ename);
                        assert forall|j: int| 0 <= j < old_out.len() implies (#[trigger] old_out[j]).process_name@ != ename by {
                            assert(names_of(old_out)[j] == old_out[j].process_name@);
                            assert(before[j] != ename);
                        }
                    }
                    let name = entry.process_name.clone();
                    names.insert(pos, name);
                    out.insert(pos, entry);
                    proof {
                        assert(names_of(out@) =~= names_of(old_out).insert(pos as int, ename));
                        assert(string_views(names@) =~= names_of(out@));
                        lemma_desired_insert(old_out, out@, rules, i as int, pos as int);
                    }
                }
            },
        }
        i = i + 1;
    }
    out
}

proof fn lemma_desired_skip(os: Seq<RegistryLaunchPriorityRule>, rules: Seq<LaunchPriorityRule>, i: int)
    requires
        0 <= i < rules.len(),
        desired_ok(os, rules, i),
        rule_entry(rules[i]) is None,
    ensures
        desired_ok(os, rules, i + 1),
{
    assert forall|j: int| 0 <= j < os.len() implies {
        let l = last_rule_for(rules, i + 1, (#[trigger] os[j]).process_name@);
        0 <= l && rule_entry(rules[l]) == Some(entry_of(os[j]))
    } by {
        assert(last_rule_for(rules, i + 1, os[j].process_name@) == last_rule_for(rules, i, os[j].process_name@));
    }
}

proof fn lemma_desired_replace(
    os: Seq<RegistryLaunchPriorityRule>,
    ns: Seq<RegistryLaunchPriorityRule>,
    rules: Seq<LaunchPriorityRule>,
    i: int,
    pos: int,
)
    requires
        0 <= i < rules.len(),
        0 <= pos < os.len(),
        desired_ok(os, rules, i),
        rule_entry(rules[i]) == Some(entry_of(ns[pos])),
        ns[pos].process_name@ == os[pos].process_name@,
        ns.len() == os.len(),
        forall|j: int| 0 <= j < os.len() && j != pos ==> ns[j] == os[j],
    ensures
        desired_ok(ns, rules, i + 1),
{
    assert(Seq::new(ns.len(), |j: int| ns[j].process_name@) =~= Seq::new(os.len(), |j: int| os[j].process_name@));
    assert forall|j: int| 0 <= j < ns.len() implies {
        let l = last_rule_for(rules, i + 1, (#[trigger] ns[j]).process_name@);
        0 <= l && rule_entry(rules[l]) == Some(entry_of(ns[j]))
    } by {
        if j != pos {
            assert(ns[j] == os[j]);
            let names = Seq::new(os.len(), |q: int| os[q].process_name@);
            assert(names[j] == os[j].process_name@ && names[pos] == os[pos].process_name@);
            if j < pos {
                assert(lex_lt(names[j], names[pos]));
            } else {
                assert(lex_lt(names[pos], names[j]));
            }
            crate::text::lemma_lex_irreflexive(names[j]);
        }
    }
    assert forall|k: int| 0 <= k < i + 1 && (#[trigger] rule_entry(rules[k])) is Some implies exists|j: int|
        0 <= j < ns.len() && ns[j].process_name@ == rule_entry(rules[k])->Some_0.0 by {
        if k < i {
            let j = choose|j: int| 0 <= j < os.len() && os[j].process_name@ == rule_entry(rules[k])->Some_0.0;
            if j == pos {
                assert(ns[pos].process_name@ == os[pos].process_name@);
            } else {
                assert(ns[j] == os[j]);
            }
        } else {
            assert(ns[pos].process_name@ == rule_entry(rules[k])->Some_0.0);
        }
    }
}

proof fn lemma_desired_insert(
    os: Seq<RegistryLaunchPriorityRule>,
    ns: Seq<RegistryLaunchPriorityRule>,
    rules: Seq<LaunchPriorityRule>,
    i: int,
    pos: int,
)
    requires
        0 <= i < rules.len(),
        0 <= pos <= os.len(),
        desired_ok(os, rules, i),
        rule_entry(rules[i]) == Some(entry_of(ns[pos])),
        forall|j: int| 0 <= j < os.len() ==> (#[trigger] os[j]).process_name@ != ns[pos].process_name@,
        strictly_sorted(Seq::new(ns.len(), |j: int| ns[j].process_name@)),
        ns.len() == os.len() + 1,
        forall|j: int| 0 <= j < pos ==> ns[j] == os[j],
        forall|j: int| pos < j < ns.len() ==> ns[j] == os[j - 1],
    ensures
        desired_ok(ns, rules, i + 1),
{
    assert forall|j: int| 0 <= j < ns.len() implies {
        let l = last_rule_for(rules, i + 1, (#[trigger] ns[j]).process_name@);
        0 <= l && rule_entry(rules[l]) == Some(entry_of(ns[j]))
    } by {
        if j != pos {
            let oj = if j < pos { j } else { j - 1 };
            assert(ns[j] == os[oj]);
            assert(os[oj].process_name@ != ns[pos].process_name@);
        }
    }
    assert forall|k: int| 0 <= k < i + 1 && (#[trigger] rule_entry(rules[k])) is Some implies exists|j: int|
        0 <= j < ns.len() && ns[j].process_name@ == rule_entry(rules[k])->Some_0.0 by {
        if k < i {
            let j = choose|j: int| 0 <= j < os.len() && os[j].process_name@ == rule_entry(rules[k])->Some_0.0;
            let nj = if j < pos { j } else { j + 1 };
            assert(ns[nj] == os[j]);
        } else {
            assert(ns[pos].process_name@ == rule_entry(rules[k])->Some_0.0);
        }
    }
}

/// Whether no desired entry is for image `x`.
pub open spec fn not_desired(desired: Seq<RegistryLaunchPriorityRule>) -> spec_fn(Seq<char>) -> bool {
    |x: Seq<char>| forall|j: int| 0 <= j < desired.len() ==> #[trigger] desired[j].process_name@ != x
}

/// The managed images that no desired rule covers any more, in their order;
/// their options are cleared.
pub fn stale_launch_priority_processes(
    desired: &Vec<RegistryLaunchPriorityRule>,
    managed: &Vec<String>,
) -> (r: Vec<String>)
    ensures
        string_views(r@) == string_views(managed@).filter(not_desired(desired@)),
{
    let mut out: Vec<String> = Vec::new();
    let mut i: usize = 0;
    let ghost pred = not_desired(desired@);
    while i < managed.len()
        invariant
            i <= managed@.len(),
            pred == not_desired(desired@),
            string_views(out@) == string_views(managed@).subrange(0, i as int).filter(pred),
        decreases managed@.len() - i,
    {
        let name = &managed[i];
        let mut covered = false;
        let mut j: usize = 0;
        while j < desired.len()
            invariant
                j <= desired@.len(),
                covered == exists|q: int| 0 <= q < j && desired@[q].process_name@ == name@,
            decreases desired@.len() - j,
        {
            if crate::text::str_eq(desired[j].process_name.as_str(), name.as_str()) {
                covered = true;
            }
            j = j + 1;
        }
        let ghost pre = string_views(managed@).subrange(0, i as int);
        assert(string_views(managed@).subrange(0, i + 1) =~= pre.push(name@));
        proof {
            pre.lemma_filter_push(name@, pred);
            assert(pred(name@) == !covered);
        }
        if !covered {
            let ghost before = string_views(out@);
            out.push(name.clone());
            assert(string_views(out@) =~= before.push(name@));
        }
        i = i + 1;
    }
    assert(string_views(managed@).subrange(0, managed@.len() as int) =~= string_views(managed@));
    out
}

impl LaunchPrioritySnapshot {
    /// The snapshot before any registry work: enabled state, the number of
    /// desired rules and the matching message.
    pub fn for_settings(enabled: bool, configured_rules: usize) -> (r: Self)
        ensures
            r.enabled == enabled,
            r.configured_rules == configured_rules,
            r.applied_rules == 0 && r.cleared_rules == 0 && r.failed_actions == 0,
            r.last_error is None,
            r.message@ == if enabled {
                "Launch priority registry rules active."@
            } else {
                "Launch priority registry rules disabled."@
            },
    {
        LaunchPrioritySnapshot {
            enabled,
            configured_rules,
            applied_rules: 0,
            cleared_rules: 0,
            failed_actions: 0,
            last_error: None,
            message: if enabled {
                String::from_str("Launch priority registry rules active.")
            } else {
                String::from_str("Launch priority registry rules disabled.")
            },
        }
    }

    /// Counts a failed action; the first failure is kept as the last error.
    pub fn record_failure(&mut self, error: String)
        requires
            old(self).failed_actions < usize::MAX,
        ensures
            final(self).failed_actions == old(self).failed_actions + 1,
            old(self).last_error is None ==> final(self).last_error == Some(error),
            old(self).last_error is Some ==> final(self).last_error == old(self).last_error,
            final(self).enabled == old(self).enabled,
            final(self).configured_rules == old(self).configured_rules,
            final(self).applied_rules == old(self).applied_rules,
            final(self).cleared_rules == old(self).cleared_rules,
            final(self).message == old(self).message,
    {
        if self.last_error.is_none() {
            self.last_error = Some(error);
        }
        self.failed_actions = self.failed_actions + 1;
    }

    /// Marks a sync that had failures.
    pub fn finish(&mut self)
        ensures
            final(self).failed_actions == old(self).failed_actions,
            final(self).last_error == old(self).last_error,
            final(self).enabled == old(self).enabled,
            final(self).configured_rules == old(self).configured_rules,
            final(self).applied_rules == old(self).applied_rules,
            final(self).cleared_rules == old(self).cleared_rules,
            old(self).failed_actions > 0 ==> final(self).message@ == "Launch priority registry sync completed with errors."@,
            old(self).failed_actions == 0 ==> final(self).message == old(self).message,
    {
        if self.failed_actions > 0 {
            self.message = String::from_str("Launch priority registry sync completed with errors.");
        }
    }
}

/// How many of the results are failures.
pub open spec fn failed_count(rs: Seq<Result<(), String>>) -> nat
    decreases rs.len(),
{
    if rs.len() == 0 {
        0
    } else {
        failed_count(rs.drop_last()) + if rs.last() is Err {
            1nat
        } else {
            0nat
        }
    }
}

proof fn lemma_failed_count_bound(rs: Seq<Result<(), String>>)
    ensures
        failed_count(rs) <= rs.len(),
    decreases rs.len(),
{
    if rs.len() > 0 {
        lemma_failed_count_bound(rs.drop_last());
    }
}

/// The report of a sync whose registry root could not be opened or listed:
/// one failed action with that error.
pub fn launch_priority_root_failure(enabled: bool, configured_rules: usize, error: String) -> (r:
    LaunchPrioritySnapshot)
    ensures
        r.enabled == enabled,
        r.configured_rules == configured_rules,
        r.applied_rules == 0 && r.cleared_rules == 0,
        r.failed_actions == 1,
        r.last_error == Some(error),
        r.message@ == if enabled {
            "Launch priority registry rules active."@
        } else {
            "Launch priority registry rules disabled."@
        },
{
    let mut snapshot = LaunchPrioritySnapshot::for_settings(enabled, configured_rules);
    snapshot.record_failure(error);
    snapshot
}

/// The report of a sync from what each registry action did: the clears of
/// the stale managed images (in order), then the writes of the desired
/// rules (one result per rule, in order). Each success counts as cleared or
/// applied, each failure as a failed action (a write's failure named after
/// its rule); the first failure is the last error, and any failure makes
/// the message `Launch priority registry sync completed with errors.`
pub fn launch_priority_sync_snapshot(
    enabled: bool,
    desired: &Vec<RegistryLaunchPriorityRule>,
    clear_results: &Vec<Result<(), String>>,
    apply_results: &Vec<Result<(), String>>,
) -> (r: LaunchPrioritySnapshot)
    requires
        apply_results@.len() == desired@.len(),
        clear_results@.len() + apply_results@.len() <= usize::MAX,
    ensures
        r.enabled == enabled,
        r.configured_rules == desired@.len(),
        r.cleared_rules + failed_count(clear_results@) == clear_results@.len(),
        r.applied_rules + failed_count(apply_results@) == desired@.len(),
        r.failed_actions == failed_count(clear_results@) + failed_count(apply_results@),
        (r.last_error is None) == (r.failed_actions == 0),
        r.message@ == if r.failed_actions > 0 {
            "Launch priority registry sync completed with errors."@
        } else if enabled {
            "Launch priority registry rules active."@
        } else {
            "Launch priority registry rules disabled."@
        },
{
    let mut snapshot = LaunchPrioritySnapshot::for_settings(enabled, desired.len());
    let mut i: usize = 0;
    proof {
        assert(clear_results@.subrange(0, 0) =~= Seq::<Result<(), String>>::empty());
    }
    while i < clear_results.len()
        invariant
            i <= clear_results@.len(),
            snapshot.enabled == enabled,
            snapshot.configured_rules == desired@.len(),
            snapshot.applied_rules == 0,
            snapshot.cleared_rules + failed_count(clear_results@.subrange(0, i as int)) == i,
            snapshot.failed_actions == failed_count(clear_results@.subrange(0, i as int)),
            (snapshot.last_error is None) == (snapshot.failed_actions == 0),
            snapshot.message@ == if enabled {
                "Launch priority registry rules active."@
            } else {
                "Launch priority registry rules disabled."@
            },
        decreases clear_results@.len() - i,
    {
        proof {
            let next = clear_results@.subrange(0, i + 1);
            assert(next.drop_last() =~= clear_results@.subrange(0, i as int));
            lemma_failed_count_bound(clear_results@.subrange(0, i as int));
        }
        match &clear_results[i] {
            Ok(()) => {
                snapshot.cleared_rules = snapshot.cleared_rules + 1;
            },
            Err(e) => {
                snapshot.record_failure(e.clone());
            },
        }
        i = i + 1;
    }
    proof {
        assert(clear_results@.subrange(0, clear_results@.len() as int) =~= clear_results@);
        lemma_failed_count_bound(clear_results@);
    }
    let cleared_failures = snapshot.failed_actions;
    let mut k: usize = 0;
    proof {
        assert(apply_results@.subrange(0, 0) =~= Seq::<Result<(), String>>::empty());
    }
    while k < apply_results.len()
        invariant
            k <= apply_results@.len(),
            apply_results@.len() == desired@.len(),
            clear_results@.len() + apply_results@.len() <= usize::MAX,
            snapshot.enabled == enabled,
            snapshot.configured_rules == desired@.len(),
            cleared_failures == failed_count(clear_results@),
            cleared_failures <= clear_results@.len(),
            snapshot.cleared_rules + failed_count(clear_results@) == clear_results@.len(),
            snapshot.applied_rules + failed_count(apply_results@.subrange(0, k as int)) == k,
            snapshot.failed_actions == cleared_failures + failed_count(apply_results@.subrange(0, k as int)),
            (snapshot.last_error is None) == (snapshot.failed_actions == 0),
            snapshot.message@ == if enabled {
                "Launch priority registry rules active."@
            } else {
                "Launch priority registry rules disabled."@
            },
        decreases apply_results@.len() - k,
    {
        proof {
            let next = apply_results@.subrange(0, k + 1);
            assert(next.drop_last() =~= apply_results@.subrange(0, k as int));
            lemma_failed_count_bound(apply_results@.subrange(0, k as int));
        }
        match &apply_results[k] {
            Ok(()) => {
                snapshot.applied_rules = snapshot.applied_rules + 1;
            },
            Err(e) => {
                let mut message = String::from_str(desired[k].process_name.as_str());
                message.append(": ");
                message.append(e.as_str());
                snapshot.record_failure(message);
            },
        }
        k = k + 1;
    }
    proof {
        assert(apply_results@.subrange(0, apply_results@.len() as int) =~= apply_results@);
    }
    snapshot.finish();
    snapshot
}

} // verus!
