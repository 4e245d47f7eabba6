//! Power-plan management in plain values: which plans are listed and active,
//! which plans this utility created, and which settings an apply writes, in
//! what order.
use vstd::prelude::*;

use crate::platform::power_plan::{is_valid_guid, parse_guid_spec};
use crate::power::plan::{
    boost_mode_of_value, boost_mode_value, normalized_values, values_of, PowerPlan, PowerPlanPersonality,
    ProcessorBoostMode, ProcessorPowerValues,
};
use crate::text::{eq_ignore_ascii_case, lower_seq, str_eq, strip_prefix};

verus! {

/// The name of the plan this utility creates for adaptive power.
pub const ADAPTIVE_PLAN_NAME: &'static str = "Winderust Adaptive";

/// The start of the description of that plan; the GUID of the plan to restore
/// follows it.
pub const ADAPTIVE_PLAN_DESCRIPTION_PREFIX: &'static str = "Winderust managed adaptive plan; restore=";

/// A power scheme as the system enumerates it.
#[derive(Debug, Clone, PartialEq, Eq)]
pub struct PowerSchemeRecord {
    pub guid: String,
    pub name: String,
}

/// The settings of a power plan that this utility reads or writes.
#[derive(Debug, Clone, Copy, PartialEq, Eq, Structural)]
pub enum PowerSetting {
    Personality,
    CoreParkingMinimum,
    PerformanceMinimum,
    PerformanceMaximum,
    BoostPolicy,
    BoostMode,
}

/// The steps of applying processor values to a plan, in order.
#[derive(Debug, Clone, Copy, PartialEq, Eq, Structural)]
pub enum ProcessorPowerApplyStage {
    ValidatePlan,
    AcCoreParkingMinimum,
    DcCoreParkingMinimum,
    AcPerformanceMinimum,
    DcPerformanceMinimum,
    AcPerformanceMaximum,
    DcPerformanceMaximum,
    AcBoostPolicy,
    DcBoostPolicy,
    AcBoostMode,
    DcBoostMode,
    ReactivatePlan,
}

/// Processor values on AC power (`ac`) and on battery (`dc`).
#[derive(Debug, Clone, Copy, PartialEq, Eq, Structural)]
pub struct ProcessorPowerAcDcValues {
    pub ac: ProcessorPowerValues,
    pub dc: ProcessorPowerValues,
}

/// One value written to a plan: the setting, the power source (`dc` for
/// battery), the value and the stage it belongs to.
#[derive(Debug, Clone, Copy, PartialEq, Eq, Structural)]
pub struct ProcessorPowerWrite {
    pub setting: PowerSetting,
    pub dc: bool,
    pub value: u32,
    pub stage: ProcessorPowerApplyStage,
}

/// A failed stage of applying processor values, with the cause.
#[derive(Debug, Clone, PartialEq, Eq)]
pub struct ProcessorPowerApplyError {
    pub stage: ProcessorPowerApplyStage,
    pub source: String,
}

/// The raw processor settings of one power source, as read from a plan.
#[derive(Debug, Clone, Copy, PartialEq, Eq, Structural)]
pub struct ProcessorPowerReading {
    pub core_parking_min: u32,
    pub performance_min: u32,
    pub performance_max: u32,
    pub boost_policy: u32,
    pub boost_mode: u32,
}

/// What to do with a plan left behind by an earlier run.
#[derive(Debug, Clone, PartialEq, Eq)]
pub enum StalePlanAction {
    /// Not a plan this utility manages, or its restore target is gone while
    /// it is active.
    Keep,
    /// Delete the plan.
    Delete,
    /// Activate the plan with this GUID, then delete the plan.
    ActivateThenDelete(String),
}

pub open spec fn invalid_guid_message() -> Seq<char> {
    "Invalid power plan GUID."@
}

pub open spec fn no_plans_message() -> Seq<char> {
    "No Windows power plans were detected."@
}

pub open spec fn same_guid(a: Seq<char>, b: Seq<char>) -> bool {
    lower_seq(a) == lower_seq(b)
}

/// The restore GUID that the description of a managed plan names.
pub open spec fn restore_guid_of(plan_name: Seq<char>, description: Seq<char>) -> Option<Seq<char>> {
    let prefix = ADAPTIVE_PLAN_DESCRIPTION_PREFIX@;
    if plan_name == ADAPTIVE_PLAN_NAME@ && description.len() >= prefix.len() && description.subrange(
        0,
        prefix.len() as int,
    ) == prefix {
        let rest = description.subrange(prefix.len() as int, description.len() as int);
        if parse_guid_spec(rest) is Some { Some(rest) } else { None }
    } else {
        None
    }
}

/// Whether one of the plans has GUID `g` (ignoring ASCII case).
pub open spec fn plans_contain_guid(plans: Seq<PowerPlan>, g: Seq<char>) -> bool {
    exists|j: int| 0 <= j < plans.len() && same_guid(#[trigger] plans[j].guid@, g)
}

pub open spec fn stage_label(stage: ProcessorPowerApplyStage) -> Seq<char> {
    match stage {
        ProcessorPowerApplyStage::ValidatePlan => "validate plan"@,
        ProcessorPowerApplyStage::AcCoreParkingMinimum => "write A/C core parking minimum"@,
        ProcessorPowerApplyStage::DcCoreParkingMinimum => "write battery core parking minimum"@,
        ProcessorPowerApplyStage::AcPerformanceMinimum => "write A/C processor minimum"@,
        ProcessorPowerApplyStage::DcPerformanceMinimum => "write battery processor minimum"@,
        ProcessorPowerApplyStage::AcPerformanceMaximum => "write A/C processor maximum"@,
        ProcessorPowerApplyStage::DcPerformanceMaximum => "write battery processor maximum"@,
        ProcessorPowerApplyStage::AcBoostPolicy => "write A/C boost policy"@,
        ProcessorPowerApplyStage::DcBoostPolicy => "write battery boost policy"@,
        ProcessorPowerApplyStage::AcBoostMode => "write A/C boost mode"@,
        ProcessorPowerApplyStage::DcBoostMode => "write battery boost mode"@,
        ProcessorPowerApplyStage::ReactivatePlan => "refresh the active plan"@,
    }
}

pub open spec fn write_of(
    setting: PowerSetting,
    dc: bool,
    value: u32,
    stage: ProcessorPowerApplyStage,
) -> ProcessorPowerWrite {
    ProcessorPowerWrite { setting, dc, value, stage }
}

/// The writes that apply (normalized) values: for each control, A/C then
/// battery.
pub open spec fn power_writes(values: ProcessorPowerAcDcValues) -> Seq<ProcessorPowerWrite> {
    let ac = normalized_values(values.ac);
    let dc = normalized_values(values.dc);
    seq![
        write_of(PowerSetting::CoreParkingMinimum, false, ac.core_parking_min, ProcessorPowerApplyStage::AcCoreParkingMinimum),
        write_of(PowerSetting::CoreParkingMinimum, true, dc.core_parking_min, ProcessorPowerApplyStage::DcCoreParkingMinimum),
        write_of(PowerSetting::PerformanceMinimum, false, ac.performance_min, ProcessorPowerApplyStage::AcPerformanceMinimum),
        write_of(PowerSetting::PerformanceMinimum, true, dc.performance_min, ProcessorPowerApplyStage::DcPerformanceMinimum),
        write_of(PowerSetting::PerformanceMaximum, false, ac.performance_max, ProcessorPowerApplyStage::AcPerformanceMaximum),
        write_of(PowerSetting::PerformanceMaximum, true, dc.performance_max, ProcessorPowerApplyStage::DcPerformanceMaximum),
        write_of(PowerSetting::BoostPolicy, false, ac.boost_policy, ProcessorPowerApplyStage::AcBoostPolicy),
        write_of(PowerSetting::BoostPolicy, true, dc.boost_policy, ProcessorPowerApplyStage::DcBoostPolicy),
        write_of(PowerSetting::BoostMode, false, boost_mode_value(ac.boost_mode), ProcessorPowerApplyStage::AcBoostMode),
        write_of(PowerSetting::BoostMode, true, boost_mode_value(dc.boost_mode), ProcessorPowerApplyStage::DcBoostMode),
    ]
}

pub open spec fn values_of_reading(r: ProcessorPowerReading) -> ProcessorPowerValues {
    values_of(r.core_parking_min, r.performance_min, r.performance_max, r.boost_policy, boost_mode_of_value(r.boost_mode))
}

impl ProcessorPowerAcDcValues {
    pub fn new(ac: ProcessorPowerValues, dc: ProcessorPowerValues) -> (r: Self)
        ensures
            r.ac == ac,
            r.dc == dc,
    {
        ProcessorPowerAcDcValues { ac, dc }
    }

    /// Both power sources normalized.
    pub fn normalized(self) -> (r: Self)
        ensures
            r.ac == normalized_values(self.ac),
            r.dc == normalized_values(self.dc),
    {
        ProcessorPowerAcDcValues { ac: self.ac.normalized(), dc: self.dc.normalized() }
    }
}

impl ProcessorPowerApplyStage {
    /// What the stage does, as the error message names it.
    pub fn label(self) -> (r: &'static str)
        ensures
            r@ == stage_label(self),
    {
        match self {
            ProcessorPowerApplyStage::ValidatePlan => "validate plan",
            ProcessorPowerApplyStage::AcCoreParkingMinimum => "write A/C core parking minimum",
            ProcessorPowerApplyStage::DcCoreParkingMinimum => "write battery core parking minimum",
            ProcessorPowerApplyStage::AcPerformanceMinimum => "write A/C processor minimum",
            ProcessorPowerApplyStage::DcPerformanceMinimum => "write battery processor minimum",
            ProcessorPowerApplyStage::AcPerformanceMaximum => "write A/C processor maximum",
            ProcessorPowerApplyStage::DcPerformanceMaximum => "write battery processor maximum",
            ProcessorPowerApplyStage::AcBoostPolicy => "write A/C boost policy",
            ProcessorPowerApplyStage::DcBoostPolicy => "write battery boost policy",
            ProcessorPowerApplyStage::AcBoostMode => "write A/C boost mode",
            ProcessorPowerApplyStage::DcBoostMode => "write battery boost mode",
            ProcessorPowerApplyStage::ReactivatePlan => "refresh the active plan",
        }
    }
}

impl ProcessorPowerApplyError {
    pub fn at(stage: ProcessorPowerApplyStage, source: String) -> (r: Self)
        ensures
            r.stage == stage,
            r.source@ == source@,
    {
        ProcessorPowerApplyError { stage, source }
    }

    pub fn stage(&self) -> (r: ProcessorPowerApplyStage)
        ensures
            r == self.stage,
    {
        self.stage
    }

    /// `Failed to <stage>: <cause>`.
    pub fn message(&self) -> (r: String)
        ensures
            r@ == "Failed to "@ + stage_label(self.stage) + ": "@ + self.source@,
    {
        let mut s = String::from_str("Failed to ");
        s.append(self.stage.label());
        s.append(": ");
        s.append(self.source.as_str());
        s
    }
}

/// The GUID of the plan to restore, when `plan_name` and `description` are
/// those of a plan this utility created and the description names a valid
/// GUID.
pub fn managed_adaptive_restore_guid<'a>(plan_name: &str, description: &'a str) -> (r: Option<&'a str>)
    ensures
        match r {
            Some(g) => restore_guid_of(plan_name@, description@) == Some(g@),
            None => restore_guid_of(plan_name@, description@) is None,
        },
{
    if !str_eq(plan_name, ADAPTIVE_PLAN_NAME) {
        return None;
    }
    match strip_prefix(description, ADAPTIVE_PLAN_DESCRIPTION_PREFIX) {
        Some(rest) => {
            if is_valid_guid(rest) {
                Some(rest)
            } else {
                None
            }
        },
        None => None,
    }
}

/// The description of a plan created to replace `source_guid`.
pub fn adaptive_plan_description(source_guid: &str) -> (r: String)
    ensures
        r@ == ADAPTIVE_PLAN_DESCRIPTION_PREFIX@ + source_guid@,
{
    let mut s = String::from_str(ADAPTIVE_PLAN_DESCRIPTION_PREFIX);
    s.append(source_guid);
    s
}

/// What to do next while creating the adaptive plan from a copy of a
/// source plan.
#[derive(Debug, PartialEq, Eq)]
pub enum AdaptivePlanStep {
    /// Write `name` as the copy's name.
    WriteName { guid: String, name: &'static str },
    /// Write `description` as the copy's description.
    WriteDescription { guid: String, description: String },
    /// Delete the copy, then fail with `error` (whatever the deletion gives).
    DeleteCopy { guid: String, error: String },
    /// Creation is over: the new plan's GUID, or why it failed.
    Finish(Result<String, String>),
}

/// The next step of creating the adaptive plan from `source_guid`, given
/// what duplicating it gave and the results of the writes done so far
/// (name, then description): a failed duplication ends it with its error;
/// a failed write deletes the copy and fails with the write's error, so no
/// half-written copy is kept; once both writes succeeded, the copy's GUID
/// is the result.
pub fn adaptive_plan_step(source_guid: &str, duplicate: &Result<String, String>, writes: &Vec<Result<(), String>>) -> (r:
    AdaptivePlanStep)
    ensures
        match duplicate {
            Err(e) => r matches AdaptivePlanStep::Finish(Err(x)) && x@ == e@,
            Ok(g) => if writes@.len() == 0 {
                r matches AdaptivePlanStep::WriteName { guid, name } && guid@ == g@ && name@ == ADAPTIVE_PLAN_NAME@
            } else if writes@[0] is Err {
                r matches AdaptivePlanStep::DeleteCopy { guid, error } && guid@ == g@ && error@
                    == writes@[0]->Err_0@
            } else if writes@.len() == 1 {
                r matches AdaptivePlanStep::WriteDescription { guid, description } && guid@ == g@ && description@
                    == ADAPTIVE_PLAN_DESCRIPTION_PREFIX@ + source_guid@
            } else if writes@[1] is Err {
                r matches AdaptivePlanStep::DeleteCopy { guid, error } && guid@ == g@ && error@
                    == writes@[1]->Err_0@
            } else {
                r matches AdaptivePlanStep::Finish(Ok(x)) && x@ == g@
            },
        },
{
    let guid = match duplicate {
        Err(e) => return AdaptivePlanStep::Finish(Err(e.clone())),
        Ok(g) => g,
    };
    if writes.len() == 0 {
        return AdaptivePlanStep::WriteName { guid: guid.clone(), name: ADAPTIVE_PLAN_NAME };
    }
    if let Err(e) = &writes[0] {
        return AdaptivePlanStep::DeleteCopy { guid: guid.clone(), error: e.clone() };
    }
    if writes.len() == 1 {
        return AdaptivePlanStep::WriteDescription {
            guid: guid.clone(),
            description: adaptive_plan_description(source_guid),
        };
    }
    if let Err(e) = &writes[1] {
        return AdaptivePlanStep::DeleteCopy { guid: guid.clone(), error: e.clone() };
    }
    AdaptivePlanStep::Finish(Ok(guid.clone()))
}

/// The plans of the enumerated schemes, each marked active when its GUID is
/// the active one (ignoring ASCII case); an error when enumeration failed or
/// found nothing.
pub fn list_plans(active_guid: Option<&str>, schemes: Result<Vec<PowerSchemeRecord>, String>) -> (r: Result<
    Vec<PowerPlan>,
    String,
>)
    ensures
        match schemes {
            Err(e) => r == Err::<Vec<PowerPlan>, String>(e),
            Ok(list) => if list@.len() == 0 {
                r is Err && r->Err_0@ == no_plans_message()
            } else {
                &&& r is Ok
                &&& r->Ok_0@.len() == list@.len()
                &&& forall|i: int|
                    0 <= i < list@.len() ==> {
                        &&& (#[trigger] r->Ok_0@[i]).guid@ == list@[i].guid@
                        &&& r->Ok_0@[i].name@ == list@[i].name@
                        &&& r->Ok_0@[i].active == match active_guid {
                            Some(a) => same_guid(a@, list@[i].guid@),
                            None => false,
                        }
                    }
            },
        },
{
    let list = match schemes {
        Ok(list) => list,
        Err(e) => return Err(e),
    };
    if list.len() == 0 {
        return Err(String::from_str("No Windows power plans were detected."));
    }
    let mut plans: Vec<PowerPlan> = Vec::new();
    let mut i: usize = 0;
    while i < list.len()
        invariant
            i <= list@.len(),
            plans@.len() == i,
            forall|j: int|
                0 <= j < i ==> {
                    &&& (#[trigger] plans@[j]).guid@ == list@[j].guid@
                    &&& plans@[j].name@ == list@[j].name@
                    &&& plans@[j].active == match active_guid {
                        Some(a) => same_guid(a@, list@[j].guid@),
                        None => false,
                    }
                },
        decreases list@.len() - i,
    {
        let scheme = &list[i];
        let active = match active_guid {
            Some(a) => eq_ignore_ascii_case(a, scheme.guid.as_str()),
            None => false,
        };
        plans.push(PowerPlan { guid: scheme.guid.clone(), name: scheme.name.clone(), active });
        i = i + 1;
    }
    Ok(plans)
}

/// The active plan, named generically, when its GUID could be read.
pub fn active_plan(active_guid: Result<String, String>) -> (r: Result<PowerPlan, String>)
    ensures
        match active_guid {
            Ok(g) => r is Ok && r->Ok_0.guid@ == g@ && r->Ok_0.name@ == "Active power plan"@
                && r->Ok_0.active,
            Err(e) => r == Err::<PowerPlan, String>(e),
        },
{
    match active_guid {
        Ok(guid) => Ok(PowerPlan { guid, name: String::from_str("Active power plan"), active: true }),
        Err(e) => Err(e),
    }
}

/// What to do with `plan` when cleaning up after an earlier run, given its
/// description and every listed plan: a plan this utility created that names
/// a valid restore GUID is deleted; when it is the active plan, the restore
/// plan is activated first, and the plan is kept if that plan is gone.
pub fn stale_adaptive_plan_action(plan: &PowerPlan, description: &str, plans: &Vec<PowerPlan>) -> (r:
    StalePlanAction)
    ensures
        match restore_guid_of(plan.name@, description@) {
            None => r == StalePlanAction::Keep,
            Some(g) => {
                if !plan.active {
                    r == StalePlanAction::Delete
                } else if plans_contain_guid(plans@, g) {
                    r is ActivateThenDelete && r->ActivateThenDelete_0@ == g
                } else {
                    r == StalePlanAction::Keep
                }
            },
        },
{
    let restore_guid = match managed_adaptive_restore_guid(plan.name.as_str(), description) {
        Some(g) => g,
        None => return StalePlanAction::Keep,
    };
    if !plan.active {
        return StalePlanAction::Delete;
    }
    let mut j: usize = 0;
    while j < plans.len()
        invariant
            j <= plans@.len(),
            plan.active,
            restore_guid_of(plan.name@, description@) == Some(restore_guid@),
            forall|k: int| 0 <= k < j ==> !same_guid(#[trigger] plans@[k].guid@, restore_guid@),
        decreases plans@.len() - j,
    {
        if eq_ignore_ascii_case(plans[j].guid.as_str(), restore_guid) {
            assert(same_guid(plans@[j as int].guid@, restore_guid@));
            let owned = restore_guid.to_owned();
            assert(owned@ == restore_guid@);
            let r = StalePlanAction::ActivateThenDelete(owned);
            assert(r is ActivateThenDelete && r->ActivateThenDelete_0@ == restore_guid@);

            return r;
        }
        j = j + 1;
    }
    StalePlanAction::Keep
}

/// The personality of a plan from its raw setting, after checking the GUID.
pub fn read_plan_personality(guid: &str, personality_value: Result<u32, String>) -> (r: Result<
    PowerPlanPersonality,
    String,
>)
    ensures
        parse_guid_spec(guid@) is None ==> r is Err && r->Err_0@ == invalid_guid_message(),
        parse_guid_spec(guid@) is Some ==> match personality_value {
            Ok(v) => r == Ok::<PowerPlanPersonality, String>(PowerPlanPersonality::from_value_spec(v)),
            Err(e) => r == Err::<PowerPlanPersonality, String>(e),
        },
{
    if !is_valid_guid(guid) {
        return Err(String::from_str("Invalid power plan GUID."));
    }
    match personality_value {
        Ok(v) => Ok(PowerPlanPersonality::from_power_value(v)),
        Err(e) => Err(e),
    }
}

/// The writes that apply `values` to plan `guid`, in order, after checking
/// the GUID; the caller performs them, stops at the first failure and
/// reports it with that write's stage.
pub fn apply_processor_power_values_staged(guid: &str, values: ProcessorPowerAcDcValues) -> (r: Result<
    Vec<ProcessorPowerWrite>,
    ProcessorPowerApplyError,
>)
    ensures
        parse_guid_spec(guid@) is None ==> r is Err && r->Err_0.stage == ProcessorPowerApplyStage::ValidatePlan
            && r->Err_0.source@ == invalid_guid_message(),
        parse_guid_spec(guid@) is Some ==> r is Ok && r->Ok_0@ == power_writes(values),
{
    if !is_valid_guid(guid) {
        return Err(
            ProcessorPowerApplyError::at(
                ProcessorPowerApplyStage::ValidatePlan,
                String::from_str("Invalid power plan GUID."),
            ),
        );
    }
    let v = values.normalized();
    let mut w: Vec<ProcessorPowerWrite> = Vec::new();
    w.push(ProcessorPowerWrite { setting: PowerSetting::CoreParkingMinimum, dc: false, value: v.ac.core_parking_min, stage: ProcessorPowerApplyStage::AcCoreParkingMinimum });
    w.push(ProcessorPowerWrite { setting: PowerSetting::CoreParkingMinimum, dc: true, value: v.dc.core_parking_min, stage: ProcessorPowerApplyStage::DcCoreParkingMinimum });
    w.push(ProcessorPowerWrite { setting: PowerSetting::PerformanceMinimum, dc: false, value: v.ac.performance_min, stage: ProcessorPowerApplyStage::AcPerformanceMinimum });
    w.push(ProcessorPowerWrite { setting: PowerSetting::PerformanceMinimum, dc: true, value: v.dc.performance_min, stage: ProcessorPowerApplyStage::DcPerformanceMinimum });
    w.push(ProcessorPowerWrite { setting: PowerSetting::PerformanceMaximum, dc: false, value: v.ac.performance_max, stage: ProcessorPowerApplyStage::AcPerformanceMaximum });
    w.push(ProcessorPowerWrite { setting: PowerSetting::PerformanceMaximum, dc: true, value: v.dc.performance_max, stage: ProcessorPowerApplyStage::DcPerformanceMaximum });
    w.push(ProcessorPowerWrite { setting: PowerSetting::BoostPolicy, dc: false, value: v.ac.boost_policy, stage: ProcessorPowerApplyStage::AcBoostPolicy });
    w.push(ProcessorPowerWrite { setting: PowerSetting::BoostPolicy, dc: true, value: v.dc.boost_policy, stage: ProcessorPowerApplyStage::DcBoostPolicy });
    w.push(ProcessorPowerWrite { setting: PowerSetting::BoostMode, dc: false, value: v.ac.boost_mode.power_value(), stage: ProcessorPowerApplyStage::AcBoostMode });
    w.push(ProcessorPowerWrite { setting: PowerSetting::BoostMode, dc: true, value: v.dc.boost_mode.power_value(), stage: ProcessorPowerApplyStage::DcBoostMode });
    assert(w@ =~= power_writes(values));
    Ok(w)
}

/// What to do next while applying processor values.
pub enum PowerWriteStep {
    /// Perform the write at this index.
    Write(usize),
    /// All writes are done, or one failed (with its stage and cause).
    Finished(Result<(), ProcessorPowerApplyError>),
}

/// The next step of applying `writes`, given the results of the writes done
/// so far (in order): after a failed write, the application ends with that
/// write's stage and cause; otherwise the next write is asked for, until
/// every write succeeded. So no write is asked for after a failure.
pub fn next_power_write(writes: &Vec<ProcessorPowerWrite>, results: &Vec<Result<(), String>>) -> (r: PowerWriteStep)
    requires
        results@.len() <= writes@.len(),
    ensures
        r matches PowerWriteStep::Write(i) ==> i == results@.len() && i < writes@.len() && forall|j: int|
            0 <= j < results@.len() ==> #[trigger] results@[j] is Ok,
        forall|i: int|
            0 <= i < results@.len() && #[trigger] results@[i] is Err && (forall|k: int|
                0 <= k < i ==> results@[k] is Ok) ==> (r matches PowerWriteStep::Finished(Err(e)) && e.stage
                == writes@[i].stage && e.source@ == results@[i]->Err_0@),
        (results@.len() == writes@.len() && forall|j: int| 0 <= j < results@.len() ==> #[trigger] results@[j] is Ok)
            ==> r matches PowerWriteStep::Finished(Ok(())),
        (results@.len() < writes@.len() && forall|j: int| 0 <= j < results@.len() ==> #[trigger] results@[j] is Ok)
            ==> r matches PowerWriteStep::Write(_),
{
    let n = results.len();
    let mut j: usize = 0;
    while j < n
        invariant
            n == results@.len(),
            n <= writes@.len(),
            j <= n,
            forall|k: int| 0 <= k < j ==> #[trigger] results@[k] is Ok,
        decreases n - j,
    {
        match &results[j] {
            Ok(()) => {},
            Err(message) => {
                return PowerWriteStep::Finished(
                    Err(ProcessorPowerApplyError::at(writes[j].stage, String::from_str(message.as_str()))),
                );
            },
        }
        j = j + 1;
    }
    if n < writes.len() {
        PowerWriteStep::Write(n)
    } else {
        PowerWriteStep::Finished(Ok(()))
    }
}

/// As [`apply_processor_power_values_staged`], with the error as its message.
pub fn apply_processor_power_values(guid: &str, values: ProcessorPowerAcDcValues) -> (r: Result<
    Vec<ProcessorPowerWrite>,
    String,
>)
    ensures
        parse_guid_spec(guid@) is None ==> r is Err && r->Err_0@ == "Failed to "@ + stage_label(
            ProcessorPowerApplyStage::ValidatePlan,
        ) + ": "@ + invalid_guid_message(),
        parse_guid_spec(guid@) is Some ==> r is Ok && r->Ok_0@ == power_writes(values),
{
    match apply_processor_power_values_staged(guid, values) {
        Ok(w) => Ok(w),
        Err(e) => Err(e.message()),
    }
}

/// Whether the plan written to is the active one and so must be activated
/// again for the new values to take effect.
pub fn reactivation_needed(active_guid: Option<&str>, guid: &str) -> (r: bool)
    ensures
        r == match active_guid {
            Some(a) => same_guid(a@, guid@),
            None => false,
        },
{
    match active_guid {
        Some(a) => eq_ignore_ascii_case(a, guid),
        None => false,
    }
}

/// The processor values of a plan from its raw AC and battery settings,
/// normalized, after checking the GUID.
pub fn read_processor_power_values(
    guid: &str,
    ac: Result<ProcessorPowerReading, String>,
    dc: Result<ProcessorPowerReading, String>,
) -> (r: Result<ProcessorPowerAcDcValues, String>)
    ensures
        parse_guid_spec(guid@) is None ==> r is Err && r->Err_0@ == invalid_guid_message(),
        parse_guid_spec(guid@) is Some ==> match (ac, dc) {
            (Ok(a), Ok(d)) => r is Ok && r->Ok_0.ac == normalized_values(values_of_reading(a))
                && r->Ok_0.dc == normalized_values(values_of_reading(d)),
            (Err(e), _) => r == Err::<ProcessorPowerAcDcValues, String>(e),
            (Ok(_), Err(e)) => r == Err::<ProcessorPowerAcDcValues, String>(e),
        },
{
    if !is_valid_guid(guid) {
        return Err(String::from_str("Invalid power plan GUID."));
    }
    let a = match ac {
        Ok(a) => a,
        Err(e) => return Err(e),
    };
    let d = match dc {
        Ok(d) => d,
        Err(e) => return Err(e),
    };
    Ok(
        ProcessorPowerAcDcValues::new(
            ProcessorPowerValues::new_with_boost_mode(
                a.core_parking_min,
                a.performance_min,
                a.performance_max,
                a.boost_policy,
                ProcessorBoostMode::from_power_value(a.boost_mode),
            ).normalized(),
            ProcessorPowerValues::new_with_boost_mode(
                d.core_parking_min,
                d.performance_min,
                d.performance_max,
                d.boost_policy,
                ProcessorBoostMode::from_power_value(d.boost_mode),
            ).normalized(),
        ),
    )
}

} // verus!
