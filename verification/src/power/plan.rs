//! Processor power values, presets and the adaptive power profile policy.
use vstd::prelude::*;

verus! {

/// How long demand must stay lower before the adaptive profile steps down, in
/// nanoseconds (five seconds).
pub const ADAPTIVE_POWER_DEESCALATION_DELAY_NANOS: u128 = 5_000_000_000;

/// What the adaptive power policy looks at. CPU usages are in thousandths of
/// a percent (`85.0 %` is `85000`); throughput is in whole bytes per second.
#[derive(Debug, Clone, Copy, PartialEq, Eq)]
pub struct AdaptivePowerDemand {
    pub focus_and_launch_profile_active: bool,
    pub background_pressure_active: bool,
    pub total_cpu_percent: Option<i64>,
    pub peak_cpu_percent: Option<i64>,
    pub performance_peak_cpu_percent: Option<i64>,
    pub efficiency_peak_cpu_percent: Option<i64>,
    pub foreground_cpu_percent: Option<i64>,
    pub io_bytes_per_second: Option<i64>,
}

/// The adaptive profiles, from the least to the most demanding.
#[derive(Debug, Clone, Copy, PartialEq, Eq, Structural, PartialOrd, Ord)]
pub enum AdaptivePowerProfile {
    Idle,
    Responsive,
    BackgroundPressure,
    FocusAndLaunch,
}

/// A power plan as the power configuration tool lists it.
#[derive(Debug, Clone, PartialEq, Eq)]
pub struct PowerPlan {
    pub guid: String,
    pub name: String,
    pub active: bool,
}

#[derive(Debug, Clone, Copy, PartialEq, Eq, Structural)]
pub enum PowerPlanPersonality {
    PowerSaver,
    HighPerformance,
    Balanced,
    Unknown,
}

#[derive(Debug, Clone, Copy, PartialEq, Eq, Structural)]
pub enum EffectivePowerMode {
    Unknown,
    BatterySaver,
    BetterBattery,
    Balanced,
    HighPerformance,
    MaxPerformance,
    GameMode,
    MixedReality,
}

#[derive(Debug, Clone, Copy, PartialEq, Eq, Structural)]
pub enum ProcessorPowerPreset {
    Performance,
    Balanced,
    Saver,
}

/// The processor performance boost modes, in the order of their power values.
#[derive(Debug, Clone, Copy, PartialEq, Eq, Structural)]
pub enum ProcessorBoostMode {
    Disabled,
    Enabled,
    Aggressive,
    EfficientEnabled,
    EfficientAggressive,
    AggressiveAtGuaranteed,
    EfficientAggressiveAtGuaranteed,
}

/// The processor controls of one power source, as percentages (the boost
/// mode aside).
#[derive(Debug, Clone, Copy, PartialEq, Eq, Structural)]
pub struct ProcessorPowerValues {
    pub core_parking_min: u32,
    pub performance_min: u32,
    pub performance_max: u32,
    pub boost_policy: u32,
    pub boost_mode: ProcessorBoostMode,
}

/// Boost policy and mode on AC power and on battery.
#[derive(Debug, Clone, Copy, PartialEq, Eq, Structural)]
pub struct AdaptivePowerBoostValues {
    pub ac_policy: u32,
    pub ac_mode: ProcessorBoostMode,
    pub battery_policy: u32,
    pub battery_mode: ProcessorBoostMode,
}

/// Processor values on AC power and on battery.
#[derive(Debug, Clone, Copy, PartialEq, Eq, Structural)]
pub struct ProcessorPowerSourceValues {
    pub ac: ProcessorPowerValues,
    pub battery: ProcessorPowerValues,
}

pub open spec fn min_u32(a: u32, b: u32) -> u32 {
    if a <= b { a } else { b }
}

pub open spec fn max_u32(a: u32, b: u32) -> u32 {
    if a >= b { a } else { b }
}

/// Values clamped to percentages, with the maximum raised to the minimum.
pub open spec fn normalized_values(v: ProcessorPowerValues) -> ProcessorPowerValues {
    ProcessorPowerValues {
        core_parking_min: min_u32(v.core_parking_min, 100),
        performance_min: min_u32(v.performance_min, 100),
        performance_max: max_u32(min_u32(v.performance_max, 100), min_u32(v.performance_min, 100)),
        boost_policy: min_u32(v.boost_policy, 100),
        boost_mode: v.boost_mode,
    }
}

/// Values that are percentages with the minimum performance not above the
/// maximum.
pub open spec fn is_normalized(v: ProcessorPowerValues) -> bool {
    &&& v.core_parking_min <= 100
    &&& v.performance_min <= 100
    &&& v.performance_max <= 100
    &&& v.boost_policy <= 100
    &&& v.performance_min <= v.performance_max
}

pub open spec fn normalized_boost(b: AdaptivePowerBoostValues) -> AdaptivePowerBoostValues {
    AdaptivePowerBoostValues {
        ac_policy: min_u32(b.ac_policy, 100),
        battery_policy: min_u32(b.battery_policy, 100),
        ..b
    }
}

pub open spec fn values_of(cp: u32, pmin: u32, pmax: u32, bp: u32, bm: ProcessorBoostMode) -> ProcessorPowerValues {
    ProcessorPowerValues {
        core_parking_min: cp,
        performance_min: pmin,
        performance_max: pmax,
        boost_policy: bp,
        boost_mode: bm,
    }
}

pub open spec fn preset_values(preset: ProcessorPowerPreset) -> ProcessorPowerValues {
    match preset {
        ProcessorPowerPreset::Performance => values_of(100, 100, 100, 100, ProcessorBoostMode::Aggressive),
        ProcessorPowerPreset::Balanced => values_of(50, 5, 100, 60, ProcessorBoostMode::Enabled),
        ProcessorPowerPreset::Saver => values_of(0, 5, 60, 0, ProcessorBoostMode::Disabled),
    }
}

/// The power value of a boost mode: its position in the declaration order.
pub open spec fn boost_mode_value(m: ProcessorBoostMode) -> u32 {
    match m {
        ProcessorBoostMode::Disabled => 0,
        ProcessorBoostMode::Enabled => 1,
        ProcessorBoostMode::Aggressive => 2,
        ProcessorBoostMode::EfficientEnabled => 3,
        ProcessorBoostMode::EfficientAggressive => 4,
        ProcessorBoostMode::AggressiveAtGuaranteed => 5,
        ProcessorBoostMode::EfficientAggressiveAtGuaranteed => 6,
    }
}

/// The boost mode of a power value; unknown values read as `Enabled`.
pub open spec fn boost_mode_of_value(v: u32) -> ProcessorBoostMode {
    if v == 0 {
        ProcessorBoostMode::Disabled
    } else if v == 1 {
        ProcessorBoostMode::Enabled
    } else if v == 2 {
        ProcessorBoostMode::Aggressive
    } else if v == 3 {
        ProcessorBoostMode::EfficientEnabled
    } else if v == 4 {
        ProcessorBoostMode::EfficientAggressive
    } else if v == 5 {
        ProcessorBoostMode::AggressiveAtGuaranteed
    } else if v == 6 {
        ProcessorBoostMode::EfficientAggressiveAtGuaranteed
    } else {
        ProcessorBoostMode::Enabled
    }
}

pub open spec fn spec_background_pressure_boost() -> AdaptivePowerBoostValues {
    AdaptivePowerBoostValues {
        ac_policy: 80,
        ac_mode: ProcessorBoostMode::EfficientAggressive,
        battery_policy: 60,
        battery_mode: ProcessorBoostMode::EfficientEnabled,
    }
}

pub open spec fn spec_focus_and_launch_boost() -> AdaptivePowerBoostValues {
    AdaptivePowerBoostValues {
        ac_policy: 100,
        ac_mode: ProcessorBoostMode::Aggressive,
        battery_policy: 80,
        battery_mode: ProcessorBoostMode::EfficientAggressive,
    }
}

/// The position of a profile in the order Idle < Responsive <
/// BackgroundPressure < FocusAndLaunch.
pub open spec fn profile_rank(p: AdaptivePowerProfile) -> int {
    match p {
        AdaptivePowerProfile::Idle => 0,
        AdaptivePowerProfile::Responsive => 1,
        AdaptivePowerProfile::BackgroundPressure => 2,
        AdaptivePowerProfile::FocusAndLaunch => 3,
    }
}

/// The fixed processor values of each profile.
pub open spec fn profile_values(p: AdaptivePowerProfile) -> ProcessorPowerSourceValues {
    match p {
        AdaptivePowerProfile::Idle => ProcessorPowerSourceValues {
            ac: values_of(0, 5, 55, 0, ProcessorBoostMode::Disabled),
            battery: values_of(0, 5, 45, 0, ProcessorBoostMode::Disabled),
        },
        AdaptivePowerProfile::Responsive => ProcessorPowerSourceValues {
            ac: values_of(25, 10, 85, 45, ProcessorBoostMode::EfficientEnabled),
            battery: values_of(10, 5, 70, 30, ProcessorBoostMode::EfficientEnabled),
        },
        AdaptivePowerProfile::BackgroundPressure => ProcessorPowerSourceValues {
            ac: values_of(60, 20, 100, 80, ProcessorBoostMode::EfficientAggressive),
            battery: values_of(30, 10, 90, 60, ProcessorBoostMode::EfficientEnabled),
        },
        AdaptivePowerProfile::FocusAndLaunch => ProcessorPowerSourceValues {
            ac: values_of(100, 35, 100, 100, ProcessorBoostMode::Aggressive),
            battery: values_of(60, 20, 100, 80, ProcessorBoostMode::EfficientAggressive),
        },
    }
}

/// Whether an optional reading is present and at least `threshold`.
pub open spec fn at_least(reading: Option<i64>, threshold: int) -> bool {
    match reading {
        Some(v) => v >= threshold,
        None => false,
    }
}

/// The profile that a demand asks for.
pub open spec fn demand_profile(d: AdaptivePowerDemand) -> AdaptivePowerProfile {
    if d.focus_and_launch_profile_active || at_least(d.foreground_cpu_percent, 25000) {
        AdaptivePowerProfile::FocusAndLaunch
    } else if d.background_pressure_active && d.foreground_cpu_percent is Some {
        AdaptivePowerProfile::BackgroundPressure
    } else if at_least(d.total_cpu_percent, 85000) || at_least(d.peak_cpu_percent, 85000)
        || at_least(d.performance_peak_cpu_percent, 85000) {
        AdaptivePowerProfile::FocusAndLaunch
    } else if at_least(d.total_cpu_percent, 55000) || at_least(d.peak_cpu_percent, 55000)
        || at_least(d.performance_peak_cpu_percent, 55000) || at_least(
        d.efficiency_peak_cpu_percent,
        85000,
    ) || at_least(d.foreground_cpu_percent, 8000) {
        AdaptivePowerProfile::BackgroundPressure
    } else if at_least(d.total_cpu_percent, 20000) || at_least(d.peak_cpu_percent, 20000)
        || at_least(d.foreground_cpu_percent, 2000) || at_least(
        d.performance_peak_cpu_percent,
        20000,
    ) || at_least(d.efficiency_peak_cpu_percent, 55000) || at_least(
        d.io_bytes_per_second,
        8388608,
    ) {
        AdaptivePowerProfile::Responsive
    } else {
        AdaptivePowerProfile::Idle
    }
}

/// Profile values with the boost of the pressure profiles replaced by the
/// configured one.
pub open spec fn with_boost(
    v: ProcessorPowerSourceValues,
    boost: AdaptivePowerBoostValues,
) -> ProcessorPowerSourceValues {
    ProcessorPowerSourceValues {
        ac: ProcessorPowerValues { boost_policy: boost.ac_policy, boost_mode: boost.ac_mode, ..v.ac },
        battery: ProcessorPowerValues {
            boost_policy: boost.battery_policy,
            boost_mode: boost.battery_mode,
            ..v.battery
        },
    }
}

/// On processors with efficiency cores the pressure profiles park fewer
/// cores and ask for less minimum performance.
pub open spec fn with_hybrid_floors(
    p: AdaptivePowerProfile,
    v: ProcessorPowerSourceValues,
) -> ProcessorPowerSourceValues {
    match p {
        AdaptivePowerProfile::BackgroundPressure => ProcessorPowerSourceValues {
            ac: ProcessorPowerValues { core_parking_min: 40, performance_min: 15, ..v.ac },
            ..v
        },
        AdaptivePowerProfile::FocusAndLaunch => ProcessorPowerSourceValues {
            ac: ProcessorPowerValues { core_parking_min: 50, performance_min: 20, ..v.ac },
            battery: ProcessorPowerValues { core_parking_min: 40, performance_min: 15, ..v.battery },
        },
        _ => v,
    }
}

/// Each control raised to at least the baseline's, then normalized.
pub open spec fn floor_by(v: ProcessorPowerValues, baseline: ProcessorPowerValues) -> ProcessorPowerValues {
    normalized_values(
        values_of(
            max_u32(v.core_parking_min, baseline.core_parking_min),
            max_u32(v.performance_min, baseline.performance_min),
            max_u32(v.performance_max, baseline.performance_max),
            max_u32(v.boost_policy, baseline.boost_policy),
            v.boost_mode,
        ),
    )
}

/// The values a profile applies on top of a configured baseline.
pub open spec fn calibrated_values(
    p: AdaptivePowerProfile,
    baseline: ProcessorPowerValues,
    has_efficiency_cores: bool,
    background_pressure_profile: AdaptivePowerBoostValues,
    focus_and_launch_profile: AdaptivePowerBoostValues,
) -> ProcessorPowerSourceValues {
    let b = normalized_values(baseline);
    if p == AdaptivePowerProfile::Idle {
        ProcessorPowerSourceValues { ac: b, battery: b }
    } else {
        let v0 = profile_values(p);
        let v1 = match p {
            AdaptivePowerProfile::BackgroundPressure => with_boost(v0, normalized_boost(background_pressure_profile)),
            AdaptivePowerProfile::FocusAndLaunch => with_boost(v0, normalized_boost(focus_and_launch_profile)),
            _ => v0,
        };
        let v2 = if has_efficiency_cores { with_hybrid_floors(p, v1) } else { v1 };
        ProcessorPowerSourceValues { ac: floor_by(v2.ac, b), battery: floor_by(v2.battery, b) }
    }
}

/// The profile after one step: a higher demand is taken at once, a lower one
/// only after the current profile has been held for the de-escalation delay.
pub open spec fn transition(
    current: AdaptivePowerProfile,
    desired: AdaptivePowerProfile,
    time_in_current_profile_nanos: u128,
) -> AdaptivePowerProfile {
    if profile_rank(desired) > profile_rank(current) || (profile_rank(desired) < profile_rank(current)
        && time_in_current_profile_nanos >= ADAPTIVE_POWER_DEESCALATION_DELAY_NANOS) {
        desired
    } else {
        current
    }
}

fn min_of(a: u32, b: u32) -> (r: u32)
    ensures
        r == min_u32(a, b),
{
    if a <= b { a } else { b }
}

fn max_of(a: u32, b: u32) -> (r: u32)
    ensures
        r == max_u32(a, b),
{
    if a >= b { a } else { b }
}

impl ProcessorPowerValues {
    pub fn new_with_boost_mode(
        core_parking_min: u32,
        performance_min: u32,
        performance_max: u32,
        boost_policy: u32,
        boost_mode: ProcessorBoostMode,
    ) -> (r: Self)
        ensures
            r == values_of(core_parking_min, performance_min, performance_max, boost_policy, boost_mode),
    {
        ProcessorPowerValues { core_parking_min, performance_min, performance_max, boost_policy, boost_mode }
    }

    /// The values of a fixed preset.
    pub fn for_preset(preset: ProcessorPowerPreset) -> (r: Self)
        ensures
            r == preset_values(preset),
    {
        match preset {
            ProcessorPowerPreset::Performance => Self::new_with_boost_mode(100, 100, 100, 100, ProcessorBoostMode::Aggressive),
            ProcessorPowerPreset::Balanced => Self::new_with_boost_mode(50, 5, 100, 60, ProcessorBoostMode::Enabled),
            ProcessorPowerPreset::Saver => Self::new_with_boost_mode(0, 5, 60, 0, ProcessorBoostMode::Disabled),
        }
    }

    /// Clamps every control to 100 and raises the maximum performance to the
    /// minimum.
    pub fn normalized(self) -> (r: Self)
        ensures
            r == normalized_values(self),
            is_normalized(r),
    {
        let performance_min = min_of(self.performance_min, 100);
        ProcessorPowerValues {
            core_parking_min: min_of(self.core_parking_min, 100),
            performance_min,
            performance_max: max_of(min_of(self.performance_max, 100), performance_min),
            boost_policy: min_of(self.boost_policy, 100),
            boost_mode: self.boost_mode,
        }
    }
}

impl AdaptivePowerBoostValues {
    /// The default boost of the background-pressure profile.
    pub fn background_pressure() -> (r: Self)
        ensures
            r == spec_background_pressure_boost(),
    {
        Self::new(80, ProcessorBoostMode::EfficientAggressive, 60, ProcessorBoostMode::EfficientEnabled)
    }

    /// The default boost of the focus-and-launch profile.
    pub fn focus_and_launch() -> (r: Self)
        ensures
            r == spec_focus_and_launch_boost(),
    {
        Self::new(100, ProcessorBoostMode::Aggressive, 80, ProcessorBoostMode::EfficientAggressive)
    }

    pub fn new(
        ac_policy: u32,
        ac_mode: ProcessorBoostMode,
        battery_policy: u32,
        battery_mode: ProcessorBoostMode,
    ) -> (r: Self)
        ensures
            r == (AdaptivePowerBoostValues { ac_policy, ac_mode, battery_policy, battery_mode }),
    {
        AdaptivePowerBoostValues { ac_policy, ac_mode, battery_policy, battery_mode }
    }

    /// Clamps both policies to 100.
    pub fn normalized(self) -> (r: Self)
        ensures
            r == normalized_boost(self),
    {
        AdaptivePowerBoostValues {
            ac_policy: min_of(self.ac_policy, 100),
            battery_policy: min_of(self.battery_policy, 100),
            ..self
        }
    }
}

impl ProcessorBoostMode {
    /// Every boost mode, in the order of their power values.
    pub fn all() -> (r: [ProcessorBoostMode; 7])
        ensures
            forall|i: int| 0 <= i < 7 ==> boost_mode_value(#[trigger] r@[i]) == i,
    {
        [
            ProcessorBoostMode::Disabled,
            ProcessorBoostMode::Enabled,
            ProcessorBoostMode::Aggressive,
            ProcessorBoostMode::EfficientEnabled,
            ProcessorBoostMode::EfficientAggressive,
            ProcessorBoostMode::AggressiveAtGuaranteed,
            ProcessorBoostMode::EfficientAggressiveAtGuaranteed,
        ]
    }

    /// The boost mode of a power value; an unknown value reads as `Enabled`.
    pub fn from_power_value(value: u32) -> (r: Self)
        ensures
            r == boost_mode_of_value(value),
    {
        match value {
            0 => ProcessorBoostMode::Disabled,
            1 => ProcessorBoostMode::Enabled,
            2 => ProcessorBoostMode::Aggressive,
            3 => ProcessorBoostMode::EfficientEnabled,
            4 => ProcessorBoostMode::EfficientAggressive,
            5 => ProcessorBoostMode::AggressiveAtGuaranteed,
            6 => ProcessorBoostMode::EfficientAggressiveAtGuaranteed,
            _ => ProcessorBoostMode::Enabled,
        }
    }

    pub fn power_value(self) -> (r: u32)
        ensures
            r == boost_mode_value(self),
    {
        match self {
            ProcessorBoostMode::Disabled => 0,
            ProcessorBoostMode::Enabled => 1,
            ProcessorBoostMode::Aggressive => 2,
            ProcessorBoostMode::EfficientEnabled => 3,
            ProcessorBoostMode::EfficientAggressive => 4,
            ProcessorBoostMode::AggressiveAtGuaranteed => 5,
            ProcessorBoostMode::EfficientAggressiveAtGuaranteed => 6,
        }
    }
}

impl ProcessorPowerSourceValues {
    pub fn new(ac: ProcessorPowerValues, battery: ProcessorPowerValues) -> (r: Self)
        ensures
            r.ac == ac,
            r.battery == battery,
    {
        ProcessorPowerSourceValues { ac, battery }
    }

    /// The same values on both power sources.
    pub fn same(values: ProcessorPowerValues) -> (r: Self)
        ensures
            r.ac == values,
            r.battery == values,
    {
        ProcessorPowerSourceValues { ac: values, battery: values }
    }

    pub fn normalized(self) -> (r: Self)
        ensures
            r.ac == normalized_values(self.ac),
            r.battery == normalized_values(self.battery),
    {
        ProcessorPowerSourceValues { ac: self.ac.normalized(), battery: self.battery.normalized() }
    }
}

fn at_least_exec(reading: Option<i64>, threshold: i64) -> (r: bool)
    ensures
        r == at_least(reading, threshold as int),
{
    match reading {
        Some(v) => v >= threshold,
        None => false,
    }
}

fn apply_floor(values: ProcessorPowerValues, baseline: ProcessorPowerValues) -> (r: ProcessorPowerValues)
    ensures
        r == floor_by(values, baseline),
{
    ProcessorPowerValues::new_with_boost_mode(
        max_of(values.core_parking_min, baseline.core_parking_min),
        max_of(values.performance_min, baseline.performance_min),
        max_of(values.performance_max, baseline.performance_max),
        max_of(values.boost_policy, baseline.boost_policy),
        values.boost_mode,
    ).normalized()
}

impl AdaptivePowerProfile {
    /// The position of the profile in the demand order.
    pub fn rank(self) -> (r: u8)
        ensures
            r == profile_rank(self),
    {
        match self {
            AdaptivePowerProfile::Idle => 0,
            AdaptivePowerProfile::Responsive => 1,
            AdaptivePowerProfile::BackgroundPressure => 2,
            AdaptivePowerProfile::FocusAndLaunch => 3,
        }
    }

    /// The profile a demand asks for: an active focus-and-launch window or a
    /// busy foreground app asks for the most, background pressure with a
    /// known foreground asks for background pressure, and otherwise the CPU
    /// and I/O readings decide by thresholds.
    pub fn for_demand(demand: AdaptivePowerDemand) -> (r: Self)
        ensures
            r == demand_profile(demand),
            demand.focus_and_launch_profile_active || at_least(demand.foreground_cpu_percent, 25000) ==> r
                == AdaptivePowerProfile::FocusAndLaunch,
            at_least(demand.total_cpu_percent, 55000) || at_least(demand.peak_cpu_percent, 55000) || at_least(
                demand.performance_peak_cpu_percent,
                55000,
            ) || at_least(demand.efficiency_peak_cpu_percent, 85000) || at_least(demand.foreground_cpu_percent, 8000)
                ==> profile_rank(r) >= 2,
            (at_least(demand.total_cpu_percent, 85000) || at_least(demand.peak_cpu_percent, 85000) || at_least(
                demand.performance_peak_cpu_percent,
                85000,
            )) && !(demand.background_pressure_active && demand.foreground_cpu_percent is Some) ==> r
                == AdaptivePowerProfile::FocusAndLaunch,
            at_least(demand.total_cpu_percent, 20000) || at_least(demand.peak_cpu_percent, 20000) || at_least(
                demand.foreground_cpu_percent,
                2000,
            ) || at_least(demand.performance_peak_cpu_percent, 20000) || at_least(
                demand.efficiency_peak_cpu_percent,
                55000,
            ) || at_least(demand.io_bytes_per_second, 8388608) || (demand.background_pressure_active
                && demand.foreground_cpu_percent is Some) ==> profile_rank(r) >= 1,
    {
        if demand.focus_and_launch_profile_active || at_least_exec(demand.foreground_cpu_percent, 25000) {
            AdaptivePowerProfile::FocusAndLaunch
        } else if demand.background_pressure_active && demand.foreground_cpu_percent.is_some() {
            AdaptivePowerProfile::BackgroundPressure
        } else if at_least_exec(demand.total_cpu_percent, 85000) || at_least_exec(demand.peak_cpu_percent, 85000)
            || at_least_exec(demand.performance_peak_cpu_percent, 85000) {
            AdaptivePowerProfile::FocusAndLaunch
        } else if at_least_exec(demand.total_cpu_percent, 55000) || at_least_exec(demand.peak_cpu_percent, 55000)
            || at_least_exec(demand.performance_peak_cpu_percent, 55000) || at_least_exec(
            demand.efficiency_peak_cpu_percent,
            85000,
        ) || at_least_exec(demand.foreground_cpu_percent, 8000) {
            AdaptivePowerProfile::BackgroundPressure
        } else if at_least_exec(demand.total_cpu_percent, 20000) || at_least_exec(demand.peak_cpu_percent, 20000)
            || at_least_exec(demand.foreground_cpu_percent, 2000) || at_least_exec(
            demand.performance_peak_cpu_percent,
            20000,
        ) || at_least_exec(demand.efficiency_peak_cpu_percent, 55000) || at_least_exec(
            demand.io_bytes_per_second,
            8 * 1024 * 1024,
        ) {
            AdaptivePowerProfile::Responsive
        } else {
            AdaptivePowerProfile::Idle
        }
    }

    pub fn label(self) -> (r: &'static str)
        ensures
            r@ == (match self {
                AdaptivePowerProfile::Idle => "Idle"@,
                AdaptivePowerProfile::Responsive => "Responsive"@,
                AdaptivePowerProfile::BackgroundPressure => "Background Pressure"@,
                AdaptivePowerProfile::FocusAndLaunch => "Focus and Launch"@,
            }),
    {
        match self {
            AdaptivePowerProfile::Idle => "Idle",
            AdaptivePowerProfile::Responsive => "Responsive",
            AdaptivePowerProfile::BackgroundPressure => "Background Pressure",
            AdaptivePowerProfile::FocusAndLaunch => "Focus and Launch",
        }
    }

    /// The fixed processor values of the profile.
    pub fn power_values(self) -> (r: ProcessorPowerSourceValues)
        ensures
            r == profile_values(self),
    {
        match self {
            AdaptivePowerProfile::Idle => ProcessorPowerSourceValues::new(
                ProcessorPowerValues::new_with_boost_mode(0, 5, 55, 0, ProcessorBoostMode::Disabled),
                ProcessorPowerValues::new_with_boost_mode(0, 5, 45, 0, ProcessorBoostMode::Disabled),
            ),
            AdaptivePowerProfile::Responsive => ProcessorPowerSourceValues::new(
                ProcessorPowerValues::new_with_boost_mode(25, 10, 85, 45, ProcessorBoostMode::EfficientEnabled),
                ProcessorPowerValues::new_with_boost_mode(10, 5, 70, 30, ProcessorBoostMode::EfficientEnabled),
            ),
            AdaptivePowerProfile::BackgroundPressure => {
                let boost = AdaptivePowerBoostValues::background_pressure();
                ProcessorPowerSourceValues::new(
                    ProcessorPowerValues::new_with_boost_mode(60, 20, 100, boost.ac_policy, boost.ac_mode),
                    ProcessorPowerValues::new_with_boost_mode(30, 10, 90, boost.battery_policy, boost.battery_mode),
                )
            },
            AdaptivePowerProfile::FocusAndLaunch => {
                let boost = AdaptivePowerBoostValues::focus_and_launch();
                ProcessorPowerSourceValues::new(
                    ProcessorPowerValues::new_with_boost_mode(100, 35, 100, boost.ac_policy, boost.ac_mode),
                    ProcessorPowerValues::new_with_boost_mode(60, 20, 100, boost.battery_policy, boost.battery_mode),
                )
            },
        }
    }

    /// The profile's values on top of a configured baseline: Idle applies the
    /// (normalized) baseline itself; the other profiles take their fixed
    /// values, with the configured boost for the two pressure profiles and
    /// lower floors on hybrid processors, and never go below the baseline.
    pub fn calibrated_power_values(
        self,
        baseline: ProcessorPowerValues,
        has_efficiency_cores: bool,
        background_pressure_profile: AdaptivePowerBoostValues,
        focus_and_launch_profile: AdaptivePowerBoostValues,
    ) -> (r: ProcessorPowerSourceValues)
        ensures
            r == calibrated_values(
                self,
                baseline,
                has_efficiency_cores,
                background_pressure_profile,
                focus_and_launch_profile,
            ),
    {
        let baseline = baseline.normalized();
        if self.rank() == 0 {
            return ProcessorPowerSourceValues::same(baseline);
        }
        let mut values = self.power_values();
        let boost = match self {
            AdaptivePowerProfile::BackgroundPressure => Some(background_pressure_profile.normalized()),
            AdaptivePowerProfile::FocusAndLaunch => Some(focus_and_launch_profile.normalized()),
            _ => None,
        };
        if let Some(boost) = boost {
            values.ac.boost_policy = boost.ac_policy;
            values.ac.boost_mode = boost.ac_mode;
            values.battery.boost_policy = boost.battery_policy;
            values.battery.boost_mode = boost.battery_mode;
        }
        if has_efficiency_cores {
            match self {
                AdaptivePowerProfile::BackgroundPressure => {
                    values.ac.core_parking_min = 40;
                    values.ac.performance_min = 15;
                },
                AdaptivePowerProfile::FocusAndLaunch => {
                    values.ac.core_parking_min = 50;
                    values.ac.performance_min = 20;
                    values.battery.core_parking_min = 40;
                    values.battery.performance_min = 15;
                },
                _ => {},
            }
        }
        ProcessorPowerSourceValues::new(apply_floor(values.ac, baseline), apply_floor(values.battery, baseline))
    }
}

/// One step of the adaptive profile: rise at once, fall only after the
/// de-escalation delay. `time_in_current_profile_nanos` is how long the
/// current profile has been held.
pub fn adaptive_power_profile_transition(
    current: AdaptivePowerProfile,
    desired: AdaptivePowerProfile,
    time_in_current_profile_nanos: u128,
) -> (r: AdaptivePowerProfile)
    ensures
        r == transition(current, desired, time_in_current_profile_nanos),
{
    let c = current.rank();
    let d = desired.rank();
    if d > c || (d < c && time_in_current_profile_nanos >= ADAPTIVE_POWER_DEESCALATION_DELAY_NANOS) {
        desired
    } else {
        current
    }
}

impl PowerPlan {
    /// The plan's name, marked when it is the active plan.
    pub fn display_name(&self) -> (r: String)
        ensures
            r@ == (if self.active { self.name@ + " (active)"@ } else { self.name@ }),
    {
        let mut s = self.name.clone();
        if self.active {
            s.append(" (active)");
        }
        s
    }
}

impl PowerPlanPersonality {
    /// The personality of a raw setting value.
    pub open spec fn from_value_spec(value: u32) -> Self {
        if value == 0 {
            PowerPlanPersonality::PowerSaver
        } else if value == 1 {
            PowerPlanPersonality::HighPerformance
        } else if value == 2 {
            PowerPlanPersonality::Balanced
        } else {
            PowerPlanPersonality::Unknown
        }
    }

    pub fn from_power_value(value: u32) -> (r: Self)
        ensures
            r == Self::from_value_spec(value),
    {
        match value {
            0 => PowerPlanPersonality::PowerSaver,
            1 => PowerPlanPersonality::HighPerformance,
            2 => PowerPlanPersonality::Balanced,
            _ => PowerPlanPersonality::Unknown,
        }
    }
}

impl EffectivePowerMode {
    pub fn from_raw(value: i32) -> (r: Self)
        ensures
            r == (if value == 0 {
                EffectivePowerMode::BatterySaver
            } else if value == 1 {
                EffectivePowerMode::BetterBattery
            } else if value == 2 {
                EffectivePowerMode::Balanced
            } else if value == 3 {
                EffectivePowerMode::HighPerformance
            } else if value == 4 {
                EffectivePowerMode::MaxPerformance
            } else if value == 5 {
                EffectivePowerMode::GameMode
            } else if value == 6 {
                EffectivePowerMode::MixedReality
            } else {
                EffectivePowerMode::Unknown
            }),
    {
        match value {
            0 => EffectivePowerMode::BatterySaver,
            1 => EffectivePowerMode::BetterBattery,
            2 => EffectivePowerMode::Balanced,
            3 => EffectivePowerMode::HighPerformance,
            4 => EffectivePowerMode::MaxPerformance,
            5 => EffectivePowerMode::GameMode,
            6 => EffectivePowerMode::MixedReality,
            _ => EffectivePowerMode::Unknown,
        }
    }
}

/// Law: normalizing is idempotent and yields percentages with the minimum
/// performance not above the maximum; normalized values stay as they are.
pub proof fn law_normalize_idempotent(v: ProcessorPowerValues)
    ensures
        is_normalized(normalized_values(v)),
        normalized_values(normalized_values(v)) == normalized_values(v),
        is_normalized(v) ==> normalized_values(v) == v,
{
}

/// Law: a boost mode survives the round trip through its power value, and
/// every power value up to 6 survives the round trip through its mode.
pub proof fn law_boost_mode_round_trip(m: ProcessorBoostMode, v: u32)
    ensures
        boost_mode_of_value(boost_mode_value(m)) == m,
        v <= 6 ==> boost_mode_value(boost_mode_of_value(v)) == v,
{
}

/// Law: every calibrated profile keeps the configured baseline as a floor on
/// both power sources, yields normalized values, and Idle is the baseline
/// itself.
pub proof fn law_calibrated_values_keep_baseline(
    p: AdaptivePowerProfile,
    baseline: ProcessorPowerValues,
    has_efficiency_cores: bool,
    background_pressure_profile: AdaptivePowerBoostValues,
    focus_and_launch_profile: AdaptivePowerBoostValues,
)
    ensures
        ({
            let r = calibrated_values(
                p,
                baseline,
                has_efficiency_cores,
                background_pressure_profile,
                focus_and_launch_profile,
            );
            let b = normalized_values(baseline);
            &&& is_normalized(r.ac) && is_normalized(r.battery)
            &&& r.ac.core_parking_min >= b.core_parking_min
            &&& r.ac.performance_min >= b.performance_min
            &&& r.ac.performance_max >= b.performance_max
            &&& r.ac.boost_policy >= b.boost_policy
            &&& r.battery.core_parking_min >= b.core_parking_min
            &&& r.battery.performance_min >= b.performance_min
            &&& r.battery.performance_max >= b.performance_max
            &&& r.battery.boost_policy >= b.boost_policy
            &&& p == AdaptivePowerProfile::Idle ==> r.ac == b && r.battery == b
        }),
{
}

/// Law: the adaptive profile rises to a higher demand at once, holds against
/// a lower one until the de-escalation delay has passed, and always lands on
/// the current or the desired profile.
pub proof fn law_transition_rises_at_once_and_falls_after_delay(
    current: AdaptivePowerProfile,
    desired: AdaptivePowerProfile,
    held_nanos: u128,
)
    ensures
        profile_rank(desired) > profile_rank(current) ==> transition(current, desired, held_nanos) == desired,
        held_nanos < ADAPTIVE_POWER_DEESCALATION_DELAY_NANOS ==> profile_rank(
            transition(current, desired, held_nanos),
        ) >= profile_rank(current),
        held_nanos >= ADAPTIVE_POWER_DEESCALATION_DELAY_NANOS ==> transition(current, desired, held_nanos)
            == desired,
        transition(current, desired, held_nanos) == current || transition(current, desired, held_nanos)
            == desired,
{
}

/// Law: an active focus-and-launch window, or a foreground app at 25 % or
/// more, always selects the focus-and-launch profile.
pub proof fn law_focus_demand_wins(d: AdaptivePowerDemand)
    requires
        d.focus_and_launch_profile_active || at_least(d.foreground_cpu_percent, 25000),
    ensures
        demand_profile(d) == AdaptivePowerProfile::FocusAndLaunch,
{
}

/// Law: the profile a demand asks for is fixed by thresholds on its
/// readings. Focus-and-launch (or a foreground app at 25 % or more) asks for
/// the most; a total, peak or performance-core peak of 85 % or more does too
/// unless background pressure with a known foreground holds it at
/// background pressure; 55 % total, peak or performance-core peak, 85 %
/// efficiency-core peak or 8 % foreground ask at least for background
/// pressure; 20 % total, peak or performance-core peak, 2 % foreground, 55 %
/// efficiency-core peak or 8 MiB/s of I/O ask at least for the responsive
/// profile. No profile is asked for without its reason.
pub proof fn law_demand_profile_thresholds(d: AdaptivePowerDemand)
    ensures
        ({
            let rank = profile_rank(demand_profile(d));
            let focus = d.focus_and_launch_profile_active || at_least(d.foreground_cpu_percent, 25000);
            let held = d.background_pressure_active && d.foreground_cpu_percent is Some;
            let high = at_least(d.total_cpu_percent, 85000) || at_least(d.peak_cpu_percent, 85000) || at_least(
                d.performance_peak_cpu_percent,
                85000,
            );
            let pressure = at_least(d.total_cpu_percent, 55000) || at_least(d.peak_cpu_percent, 55000) || at_least(
                d.performance_peak_cpu_percent,
                55000,
            ) || at_least(d.efficiency_peak_cpu_percent, 85000) || at_least(d.foreground_cpu_percent, 8000);
            let busy = at_least(d.total_cpu_percent, 20000) || at_least(d.peak_cpu_percent, 20000) || at_least(
                d.foreground_cpu_percent,
                2000,
            ) || at_least(d.performance_peak_cpu_percent, 20000) || at_least(d.efficiency_peak_cpu_percent, 55000)
                || at_least(d.io_bytes_per_second, 8388608);
            &&& focus ==> rank == 3
            &&& (high && !held) ==> rank == 3
            &&& (held || pressure) ==> rank >= 2
            &&& busy ==> rank >= 1
            &&& rank == 3 ==> focus || (high && !held)
            &&& (held && !focus) ==> rank == 2
            &&& rank >= 2 ==> focus || held || high || pressure
            &&& rank >= 1 ==> focus || held || high || pressure || busy
        }),
{
}

/// Law: more total CPU usage never asks for a lower profile (a missing
/// reading counts as none), all other readings being equal.
pub proof fn law_demand_profile_monotone_in_total_cpu(d: AdaptivePowerDemand, lower: Option<i64>, higher: i64)
    requires
        lower matches Some(l) ==> l <= higher,
    ensures
        profile_rank(demand_profile(AdaptivePowerDemand { total_cpu_percent: lower, ..d })) <= profile_rank(
            demand_profile(AdaptivePowerDemand { total_cpu_percent: Some(higher), ..d }),
        ),
{
    law_demand_profile_thresholds(AdaptivePowerDemand { total_cpu_percent: lower, ..d });
    law_demand_profile_thresholds(AdaptivePowerDemand { total_cpu_percent: Some(higher), ..d });
}

} // verus!
