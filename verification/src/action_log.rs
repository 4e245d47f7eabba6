//! The bounded log of actions that the features take on processes.
use vstd::prelude::*;

verus! {

/// The feature that took an action.
#[derive(Debug, Clone, Copy, PartialEq, Eq, Structural)]
pub enum ActionLogFeature {
    AdaptiveEngine,
    BackgroundEfficiency,
    CpuScheduler,
    ForegroundResponsiveness,
    GpuPriority,
    IoPriority,
    MemoryPriority,
    MemoryTrim,
    PerformanceMode,
    WorkloadEngine,
}

/// What was attempted.
#[derive(Debug, Clone, Copy, PartialEq, Eq, Structural)]
pub enum ActionLogAction {
    Apply,
    Restore,
    Skip,
    Fail,
}

/// How it went.
#[derive(Debug, Clone, Copy, PartialEq, Eq, Structural)]
pub enum ActionLogResult {
    Applied,
    Restored,
    Skipped,
    Failed,
}

/// One logged action.
#[derive(Debug, Clone, PartialEq, Eq)]
pub struct ActionLogEntry {
    pub feature: ActionLogFeature,
    pub process_id: Option<u32>,
    pub process_name: String,
    pub action: ActionLogAction,
    pub result: ActionLogResult,
    pub reason: String,
}

/// An entry as plain values.
pub struct ActionLogEntryView {
    pub feature: ActionLogFeature,
    pub process_id: Option<u32>,
    pub process_name: Seq<char>,
    pub action: ActionLogAction,
    pub result: ActionLogResult,
    pub reason: Seq<char>,
}

pub open spec fn entry_view(e: ActionLogEntry) -> ActionLogEntryView {
    ActionLogEntryView {
        feature: e.feature,
        process_id: e.process_id,
        process_name: e.process_name@,
        action: e.action,
        result: e.result,
        reason: e.reason@,
    }
}

/// The most recent actions, at most `capacity` of them, oldest first.
pub struct ActionLog {
    entries: Vec<ActionLogEntry>,
    capacity: usize,
}

/// The attempt that a result reports.
pub open spec fn action_of_result(result: ActionLogResult) -> ActionLogAction {
    match result {
        ActionLogResult::Applied => ActionLogAction::Apply,
        ActionLogResult::Restored => ActionLogAction::Restore,
        ActionLogResult::Skipped => ActionLogAction::Skip,
        ActionLogResult::Failed => ActionLogAction::Fail,
    }
}

/// A log after one more entry: the entry is appended and, when the log is
/// over capacity, the oldest entry leaves.
pub open spec fn log_after(
    entries: Seq<ActionLogEntryView>,
    capacity: nat,
    e: ActionLogEntryView,
) -> Seq<ActionLogEntryView> {
    let all = entries.push(e);
    if all.len() > capacity {
        all.subrange(all.len() - capacity, all.len() as int)
    } else {
        all
    }
}

impl ActionLog {
    /// The logged entries, oldest first.
    pub closed spec fn view_entries(&self) -> Seq<ActionLogEntryView> {
        self.entries@.map_values(|e: ActionLogEntry| entry_view(e))
    }

    pub closed spec fn capacity_spec(&self) -> nat {
        self.capacity as nat
    }

    pub closed spec fn wf(&self) -> bool {
        self.entries@.len() <= self.capacity
    }

    /// An empty log that keeps the `capacity` most recent entries.
    pub fn new(capacity: usize) -> (r: Self)
        ensures
            r.wf(),
            r.view_entries() == Seq::<ActionLogEntryView>::empty(),
            r.capacity_spec() == capacity,
    {
        ActionLog { entries: Vec::new(), capacity }
    }

    /// The logged entries, oldest first.
    pub fn entries(&self) -> (r: &Vec<ActionLogEntry>)
        ensures
            r@.map_values(|e: ActionLogEntry| entry_view(e)) == self.view_entries(),
    {
        &self.entries
    }

    /// Logs an action with an explicit attempt kind.
    pub fn record_action(
        &mut self,
        feature: ActionLogFeature,
        process_id: Option<u32>,
        process_name: String,
        action: ActionLogAction,
        result: ActionLogResult,
        reason: String,
    )
        requires
            old(self).wf(),
        ensures
            final(self).wf(),
            final(self).capacity_spec() == old(self).capacity_spec(),
            final(self).view_entries() == log_after(
                old(self).view_entries(),
                old(self).capacity_spec(),
                ActionLogEntryView {
                    feature,
                    process_id,
                    process_name: process_name@,
                    action,
                    result,
                    reason: reason@,
                },
            ),
    {
        self.entries.push(ActionLogEntry { feature, process_id, process_name, action, result, reason });
        if self.entries.len() > self.capacity {
            let ghost all = self.entries@;
            self.entries.remove(0);
            assert(self.entries@ =~= all.subrange(all.len() - self.capacity as int, all.len() as int));
        }
        assert(self.view_entries() =~= log_after(
            old(self).view_entries(),
            old(self).capacity_spec(),
            entry_view(self.entries@.last()),
        ));
    }

    /// Logs an action whose attempt kind follows from its result.
    pub fn record(
        &mut self,
        feature: ActionLogFeature,
        process_id: Option<u32>,
        process_name: String,
        result: ActionLogResult,
        reason: String,
    )
        requires
            old(self).wf(),
        ensures
            final(self).wf(),
            final(self).capacity_spec() == old(self).capacity_spec(),
            final(self).view_entries() == log_after(
                old(self).view_entries(),
                old(self).capacity_spec(),
                ActionLogEntryView {
                    feature,
                    process_id,
                    process_name: process_name@,
                    action: action_of_result(result),
                    result,
                    reason: reason@,
                },
            ),
    {
        let action = match result {
            ActionLogResult::Applied => ActionLogAction::Apply,
            ActionLogResult::Restored => ActionLogAction::Restore,
            ActionLogResult::Skipped => ActionLogAction::Skip,
            ActionLogResult::Failed => ActionLogAction::Fail,
        };
        self.record_action(feature, process_id, process_name, action, result, reason);
    }
}

/// Law: the log never holds more than its capacity, and the newest entry is
/// always the last one kept (when the capacity is not zero).
pub proof fn law_log_keeps_newest(entries: Seq<ActionLogEntryView>, capacity: nat, e: ActionLogEntryView)
    requires
        entries.len() <= capacity,
    ensures
        log_after(entries, capacity, e).len() <= capacity,
        capacity > 0 ==> log_after(entries, capacity, e).last() == e,
        entries.len() < capacity ==> log_after(entries, capacity, e) == entries.push(e),
{
}

} // verus!
