//! Application startup: the single-instance mutex name, and the order in
//! which startup and shutdown steps run.
use vstd::prelude::*;

use crate::text::{hex_digits, push_hex};

verus! {

/// The FNV-1a 64-bit offset basis.
pub const FNV_OFFSET_BASIS: u64 = 0xcbf2_9ce4_8422_2325;

/// The FNV-1a 64-bit prime.
pub const FNV_PRIME: u64 = 0x0000_0100_0000_01b3;

/// The digest used when the executable path is unavailable.
pub const FALLBACK_INSTANCE_DIGEST: u64 = 0x5f3f_2a4e_13a5_59f0;

/// One FNV-1a step on a byte.
pub open spec fn fnv_step(h: u64, b: u8) -> u64 {
    (h ^ (b as u64)).wrapping_mul(FNV_PRIME)
}

/// FNV-1a over UTF-16 code units, each taken as two bytes, low byte first.
pub open spec fn fnv_units(h: u64, units: Seq<u16>) -> u64
    decreases units.len(),
{
    if units.len() == 0 {
        h
    } else {
        let prior = fnv_units(h, units.drop_last());
        fnv_step(fnv_step(prior, (units.last() & 0xff) as u8), (units.last() >> 8) as u8)
    }
}

/// The FNV-1a 64-bit hash of UTF-16 code units (unpaired surrogates kept as
/// they are).
pub fn fnv1a64(input: &Vec<u16>) -> (r: u64)
    ensures
        r == fnv_units(FNV_OFFSET_BASIS, input@),
{
    let mut hash: u64 = FNV_OFFSET_BASIS;
    let mut i: usize = 0;
    while i < input.len()
        invariant
            i <= input@.len(),
            hash == fnv_units(FNV_OFFSET_BASIS, input@.subrange(0, i as int)),
        decreases input@.len() - i,
    {
        let unit = input[i];
        let low = (unit & 0xff) as u8;
        let high = (unit >> 8) as u8;
        hash = (hash ^ low as u64).wrapping_mul(FNV_PRIME);
        hash = (hash ^ high as u64).wrapping_mul(FNV_PRIME);
        proof {
            let next = input@.subrange(0, i + 1);
            assert(next.drop_last() =~= input@.subrange(0, i as int));
        }
        i = i + 1;
    }
    assert(input@.subrange(0, input@.len() as int) =~= input@);
    hash
}

/// The digest of the executable path's UTF-16 units, or the fallback digest
/// when the path is unavailable.
pub fn single_instance_digest(executable_path_units: Option<&Vec<u16>>) -> (r: u64)
    ensures
        r == match executable_path_units {
            Some(units) => fnv_units(FNV_OFFSET_BASIS, units@),
            None => FALLBACK_INSTANCE_DIGEST,
        },
{
    match executable_path_units {
        Some(units) => fnv1a64(units),
        None => FALLBACK_INSTANCE_DIGEST,
    }
}

/// `Local\Winderust.SingleInstance.<digest as 16 lower-case hex digits>`
pub fn single_instance_mutex_name(digest: u64) -> (r: String)
    ensures
        r@ == "Local\\Winderust.SingleInstance."@ + hex_digits(digest as nat, 16, false),
{
    let mut s = String::from_str("Local\\Winderust.SingleInstance.");
    push_hex(&mut s, digest, 16, false);
    s
}

/// A step of the application's lifetime.
#[derive(Debug, Clone, Copy, PartialEq, Eq, Structural)]
pub enum StartupStep {
    RunWatchdogIfRequested,
    CheckElevatedRelaunch,
    AcquireSingleInstance,
    LoadSettings,
    StartRecoveryClient,
    RestoreStaleAdaptivePlans,
    StartRuntime,
    RunApplication,
    FinishRecoveryClient,
    Exit,
}

/// The position of a step in the lifetime.
pub open spec fn step_rank(s: StartupStep) -> int {
    match s {
        StartupStep::RunWatchdogIfRequested => 0,
        StartupStep::CheckElevatedRelaunch => 1,
        StartupStep::AcquireSingleInstance => 2,
        StartupStep::LoadSettings => 3,
        StartupStep::StartRecoveryClient => 4,
        StartupStep::RestoreStaleAdaptivePlans => 5,
        StartupStep::StartRuntime => 6,
        StartupStep::RunApplication => 7,
        StartupStep::FinishRecoveryClient => 8,
        StartupStep::Exit => 9,
    }
}

/// The step after `step`, given its outcome: the process ends right away
/// when it ran as the crash-recovery watchdog (`outcome` of the first step)
/// or could not take the single-instance mutex (`outcome` false at that
/// step); every other step just leads to the next.
pub open spec fn next_step_spec(step: StartupStep, outcome: bool) -> StartupStep {
    match step {
        StartupStep::RunWatchdogIfRequested => if outcome {
            StartupStep::Exit
        } else {
            StartupStep::CheckElevatedRelaunch
        },
        StartupStep::CheckElevatedRelaunch => StartupStep::AcquireSingleInstance,
        StartupStep::AcquireSingleInstance => if outcome {
            StartupStep::LoadSettings
        } else {
            StartupStep::Exit
        },
        StartupStep::LoadSettings => StartupStep::StartRecoveryClient,
        StartupStep::StartRecoveryClient => StartupStep::RestoreStaleAdaptivePlans,
        StartupStep::RestoreStaleAdaptivePlans => StartupStep::StartRuntime,
        StartupStep::StartRuntime => StartupStep::RunApplication,
        StartupStep::RunApplication => StartupStep::FinishRecoveryClient,
        StartupStep::FinishRecoveryClient => StartupStep::Exit,
        StartupStep::Exit => StartupStep::Exit,
    }
}

/// The step that follows `step` with the given outcome.
pub fn next_startup_step(step: StartupStep, outcome: bool) -> (r: StartupStep)
    ensures
        r == next_step_spec(step, outcome),
{
    match step {
        StartupStep::RunWatchdogIfRequested => if outcome {
            StartupStep::Exit
        } else {
            StartupStep::CheckElevatedRelaunch
        },
        StartupStep::CheckElevatedRelaunch => StartupStep::AcquireSingleInstance,
        StartupStep::AcquireSingleInstance => if outcome {
            StartupStep::LoadSettings
        } else {
            StartupStep::Exit
        },
        StartupStep::LoadSettings => StartupStep::StartRecoveryClient,
        StartupStep::StartRecoveryClient => StartupStep::RestoreStaleAdaptivePlans,
        StartupStep::RestoreStaleAdaptivePlans => StartupStep::StartRuntime,
        StartupStep::StartRuntime => StartupStep::RunApplication,
        StartupStep::RunApplication => StartupStep::FinishRecoveryClient,
        StartupStep::FinishRecoveryClient => StartupStep::Exit,
        StartupStep::Exit => StartupStep::Exit,
    }
}

/// The steps of a normal run, in order (no watchdog, mutex taken).
pub fn startup_sequence() -> (r: Vec<StartupStep>)
    ensures
        r@.len() == 9,
        r@[0] == StartupStep::RunWatchdogIfRequested,
        forall|i: int| 0 < i < r@.len() ==> #[trigger] r@[i] == next_step_spec(
            r@[i - 1],
            r@[i - 1] != StartupStep::RunWatchdogIfRequested,
        ),
        forall|i: int| 0 <= i < r@.len() ==> step_rank(#[trigger] r@[i]) == i,
{
    let mut steps: Vec<StartupStep> = Vec::new();
    let mut step = StartupStep::RunWatchdogIfRequested;
    let mut k: usize = 0;
    while k < 9
        invariant
            k <= 9,
            steps@.len() == k,
            step_rank(step) == k,
            k == 0 ==> step == StartupStep::RunWatchdogIfRequested,
            k > 0 ==> steps@[0] == StartupStep::RunWatchdogIfRequested,
            k > 0 ==> step == next_step_spec(steps@[k - 1], steps@[k - 1] != StartupStep::RunWatchdogIfRequested),
            forall|i: int| 0 < i < k ==> #[trigger] steps@[i] == next_step_spec(
                steps@[i - 1],
                steps@[i - 1] != StartupStep::RunWatchdogIfRequested,
            ),
            forall|i: int| 0 <= i < k ==> step_rank(#[trigger] steps@[i]) == i,
        decreases 9 - k,
    {
        steps.push(step);
        let outcome = step != StartupStep::RunWatchdogIfRequested;
        step = next_startup_step(step, outcome);
        k = k + 1;
    }
    steps
}

/// Law: every step leads to a later one (or stays at the exit), so a run
/// always ends.
pub proof fn law_startup_progresses(step: StartupStep, outcome: bool)
    ensures
        step != StartupStep::Exit ==> step_rank(next_step_spec(step, outcome)) > step_rank(step),
        step == StartupStep::Exit ==> next_step_spec(step, outcome) == StartupStep::Exit,
{
}

} // verus!
