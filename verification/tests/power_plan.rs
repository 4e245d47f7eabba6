use winderust::power::plan::{
    adaptive_power_profile_transition, AdaptivePowerBoostValues, AdaptivePowerDemand,
    AdaptivePowerProfile, EffectivePowerMode, PowerPlan, PowerPlanPersonality, ProcessorBoostMode,
    ProcessorPowerPreset, ProcessorPowerSourceValues, ProcessorPowerValues,
    ADAPTIVE_POWER_DEESCALATION_DELAY_NANOS,
};
use winderust::power::powercfg::{
    adaptive_plan_description, apply_processor_power_values, apply_processor_power_values_staged,
    list_plans, managed_adaptive_restore_guid, read_plan_personality, read_processor_power_values,
    stale_adaptive_plan_action, PowerSchemeRecord, PowerSetting, ProcessorPowerAcDcValues,
    ProcessorPowerApplyStage, ProcessorPowerReading, StalePlanAction, ADAPTIVE_PLAN_DESCRIPTION_PREFIX,
    ADAPTIVE_PLAN_NAME,
};

fn milli(percent: f32) -> Option<i64> {
    Some((percent as f64 * 1000.0).floor() as i64)
}

fn demand() -> AdaptivePowerDemand {
    AdaptivePowerDemand {
        focus_and_launch_profile_active: false,
        background_pressure_active: false,
        total_cpu_percent: milli(0.0),
        peak_cpu_percent: milli(0.0),
        performance_peak_cpu_percent: None,
        efficiency_peak_cpu_percent: None,
        foreground_cpu_percent: milli(0.0),
        io_bytes_per_second: Some(0),
    }
}

#[test]
fn adaptive_demand_selects_cpu_foreground_io_and_focus_and_launch_profiles() {
    assert_eq!(AdaptivePowerProfile::for_demand(demand()), AdaptivePowerProfile::Idle);
    assert_eq!(
        AdaptivePowerProfile::for_demand(AdaptivePowerDemand {
            io_bytes_per_second: Some((16.0 * 1024.0 * 1024.0) as i64),
            ..demand()
        }),
        AdaptivePowerProfile::Responsive
    );
    assert_eq!(
        AdaptivePowerProfile::for_demand(AdaptivePowerDemand {
            io_bytes_per_second: Some((256.0 * 1024.0 * 1024.0) as i64),
            ..demand()
        }),
        AdaptivePowerProfile::Responsive
    );
    assert_eq!(
        AdaptivePowerProfile::for_demand(AdaptivePowerDemand {
            foreground_cpu_percent: milli(9.0),
            ..demand()
        }),
        AdaptivePowerProfile::BackgroundPressure
    );
    assert_eq!(
        AdaptivePowerProfile::for_demand(AdaptivePowerDemand {
            peak_cpu_percent: milli(90.0),
            ..demand()
        }),
        AdaptivePowerProfile::FocusAndLaunch
    );
    assert_eq!(
        AdaptivePowerProfile::for_demand(AdaptivePowerDemand {
            background_pressure_active: true,
            total_cpu_percent: milli(95.0),
            peak_cpu_percent: milli(100.0),
            foreground_cpu_percent: milli(5.0),
            ..demand()
        }),
        AdaptivePowerProfile::BackgroundPressure
    );
    assert_eq!(
        AdaptivePowerProfile::for_demand(AdaptivePowerDemand {
            background_pressure_active: true,
            total_cpu_percent: milli(95.0),
            foreground_cpu_percent: None,
            ..demand()
        }),
        AdaptivePowerProfile::FocusAndLaunch
    );
    assert_eq!(
        AdaptivePowerProfile::for_demand(AdaptivePowerDemand {
            background_pressure_active: true,
            foreground_cpu_percent: milli(25.0),
            ..demand()
        }),
        AdaptivePowerProfile::FocusAndLaunch
    );
    assert_eq!(
        AdaptivePowerProfile::for_demand(AdaptivePowerDemand {
            efficiency_peak_cpu_percent: milli(90.0),
            peak_cpu_percent: None,
            ..demand()
        }),
        AdaptivePowerProfile::BackgroundPressure
    );
    assert_eq!(
        AdaptivePowerProfile::for_demand(AdaptivePowerDemand {
            performance_peak_cpu_percent: milli(90.0),
            peak_cpu_percent: None,
            ..demand()
        }),
        AdaptivePowerProfile::FocusAndLaunch
    );
    assert_eq!(
        AdaptivePowerProfile::for_demand(AdaptivePowerDemand {
            focus_and_launch_profile_active: true,
            ..demand()
        }),
        AdaptivePowerProfile::FocusAndLaunch
    );
}

#[test]
fn adaptive_profiles_scale_every_processor_control() {
    let idle = AdaptivePowerProfile::Idle.power_values().ac;
    let responsive = AdaptivePowerProfile::Responsive.power_values().ac;
    let background_pressure = AdaptivePowerProfile::BackgroundPressure.power_values().ac;
    let focus_and_launch = AdaptivePowerProfile::FocusAndLaunch.power_values().ac;

    assert!(idle.core_parking_min < responsive.core_parking_min);
    assert!(responsive.core_parking_min < background_pressure.core_parking_min);
    assert!(background_pressure.core_parking_min < focus_and_launch.core_parking_min);
    assert!(idle.performance_min < responsive.performance_min);
    assert!(responsive.performance_min < background_pressure.performance_min);
    assert!(background_pressure.performance_min < focus_and_launch.performance_min);
    assert!(idle.performance_max < responsive.performance_max);
    assert!(responsive.performance_max < background_pressure.performance_max);
    assert!(idle.boost_policy < responsive.boost_policy);
    assert!(responsive.boost_policy < background_pressure.boost_policy);
    assert!(background_pressure.boost_policy < focus_and_launch.boost_policy);
    assert_ne!(idle.boost_mode, responsive.boost_mode);
    assert_ne!(responsive.boost_mode, background_pressure.boost_mode);
    assert_ne!(background_pressure.boost_mode, focus_and_launch.boost_mode);
}

#[test]
fn adaptive_profiles_preserve_the_configured_baseline() {
    let baseline = ProcessorPowerValues::new_with_boost_mode(
        30,
        15,
        95,
        60,
        ProcessorBoostMode::EfficientEnabled,
    );

    assert_eq!(
        AdaptivePowerProfile::Idle.calibrated_power_values(
            baseline,
            false,
            AdaptivePowerBoostValues::background_pressure(),
            AdaptivePowerBoostValues::focus_and_launch(),
        ),
        ProcessorPowerSourceValues::same(baseline)
    );
    let focus_and_launch = AdaptivePowerProfile::FocusAndLaunch
        .calibrated_power_values(
            baseline,
            false,
            AdaptivePowerBoostValues::background_pressure(),
            AdaptivePowerBoostValues::focus_and_launch(),
        )
        .ac;
    assert_eq!(focus_and_launch.performance_max, 100);
    assert!(focus_and_launch.core_parking_min >= baseline.core_parking_min);
    assert!(focus_and_launch.performance_min >= baseline.performance_min);
    assert!(focus_and_launch.boost_policy >= baseline.boost_policy);
}

#[test]
fn adaptive_profiles_preserve_hybrid_turbo_headroom() {
    let baseline =
        ProcessorPowerValues::new_with_boost_mode(0, 5, 45, 0, ProcessorBoostMode::Disabled);
    let background_pressure = AdaptivePowerProfile::BackgroundPressure
        .calibrated_power_values(
            baseline,
            true,
            AdaptivePowerBoostValues::background_pressure(),
            AdaptivePowerBoostValues::focus_and_launch(),
        )
        .ac;
    let focus_and_launch = AdaptivePowerProfile::FocusAndLaunch
        .calibrated_power_values(
            baseline,
            true,
            AdaptivePowerBoostValues::background_pressure(),
            AdaptivePowerBoostValues::focus_and_launch(),
        )
        .ac;

    assert_eq!(
        (background_pressure.core_parking_min, background_pressure.performance_min),
        (40, 15)
    );
    assert_eq!(
        (focus_and_launch.core_parking_min, focus_and_launch.performance_min),
        (50, 20)
    );
    assert!(
        focus_and_launch.core_parking_min
            < AdaptivePowerProfile::FocusAndLaunch.power_values().ac.core_parking_min
    );
    assert_eq!(focus_and_launch.performance_max, 100);
    assert_eq!(focus_and_launch.boost_policy, 100);
    assert_eq!(focus_and_launch.boost_mode, ProcessorBoostMode::Aggressive);
}

#[test]
fn adaptive_pressure_and_focus_boost_values_are_tunable() {
    let baseline =
        ProcessorPowerValues::new_with_boost_mode(0, 5, 45, 0, ProcessorBoostMode::Disabled);
    let background = AdaptivePowerBoostValues::new(
        72,
        ProcessorBoostMode::EfficientEnabled,
        42,
        ProcessorBoostMode::Disabled,
    );
    let focus = AdaptivePowerBoostValues::new(
        91,
        ProcessorBoostMode::AggressiveAtGuaranteed,
        63,
        ProcessorBoostMode::EfficientAggressiveAtGuaranteed,
    );

    let background_pressure = AdaptivePowerProfile::BackgroundPressure
        .calibrated_power_values(baseline, false, background, focus);
    let focus_and_launch = AdaptivePowerProfile::FocusAndLaunch
        .calibrated_power_values(baseline, false, background, focus);

    assert_eq!(
        (background_pressure.ac.boost_policy, background_pressure.ac.boost_mode),
        (72, ProcessorBoostMode::EfficientEnabled)
    );
    assert_eq!(
        (background_pressure.battery.boost_policy, background_pressure.battery.boost_mode),
        (42, ProcessorBoostMode::Disabled)
    );
    assert_eq!(
        (focus_and_launch.ac.boost_policy, focus_and_launch.ac.boost_mode),
        (91, ProcessorBoostMode::AggressiveAtGuaranteed)
    );
    assert_eq!(
        (focus_and_launch.battery.boost_policy, focus_and_launch.battery.boost_mode),
        (63, ProcessorBoostMode::EfficientAggressiveAtGuaranteed)
    );
}

#[test]
fn adaptive_profiles_rise_immediately_and_fall_after_hysteresis() {
    assert_eq!(
        adaptive_power_profile_transition(
            AdaptivePowerProfile::Idle,
            AdaptivePowerProfile::FocusAndLaunch,
            std::time::Duration::ZERO.as_nanos(),
        ),
        AdaptivePowerProfile::FocusAndLaunch
    );
    assert_eq!(
        adaptive_power_profile_transition(
            AdaptivePowerProfile::FocusAndLaunch,
            AdaptivePowerProfile::Idle,
            std::time::Duration::from_secs(4).as_nanos(),
        ),
        AdaptivePowerProfile::FocusAndLaunch
    );
    assert_eq!(
        adaptive_power_profile_transition(
            AdaptivePowerProfile::FocusAndLaunch,
            AdaptivePowerProfile::Idle,
            ADAPTIVE_POWER_DEESCALATION_DELAY_NANOS,
        ),
        AdaptivePowerProfile::Idle
    );
}

#[test]
fn recognizes_only_winderust_managed_adaptive_plan() {
    let restore_guid = "381b4222-f694-41f0-9685-ff5bb260df2e";

    assert_eq!(
        managed_adaptive_restore_guid(
            ADAPTIVE_PLAN_NAME,
            &format!("{ADAPTIVE_PLAN_DESCRIPTION_PREFIX}{restore_guid}"),
        ),
        Some(restore_guid)
    );
    assert_eq!(
        managed_adaptive_restore_guid(
            "Another App Adaptive",
            &format!("Another App managed adaptive plan; restore={restore_guid}"),
        ),
        None
    );
}

#[test]
fn maps_windows_power_modes() {
    assert_eq!(PowerPlanPersonality::from_power_value(2), PowerPlanPersonality::Balanced);
    assert_eq!(EffectivePowerMode::from_raw(4), EffectivePowerMode::MaxPerformance);
    assert_eq!(EffectivePowerMode::from_raw(-1), EffectivePowerMode::Unknown);
}

#[test]
fn processor_power_presets_use_explicit_percentages() {
    let performance = ProcessorPowerValues::for_preset(ProcessorPowerPreset::Performance);
    assert_eq!(performance.core_parking_min, 100);
    assert_eq!(performance.performance_min, 100);
    assert_eq!(performance.performance_max, 100);
    assert_eq!(performance.boost_policy, 100);
    assert_eq!(performance.boost_mode, ProcessorBoostMode::Aggressive);

    let saver = ProcessorPowerValues::for_preset(ProcessorPowerPreset::Saver);
    assert_eq!(saver.core_parking_min, 0);
    assert_eq!(saver.performance_min, 5);
    assert_eq!(saver.performance_max, 60);
    assert_eq!(saver.boost_policy, 0);
    assert_eq!(saver.boost_mode, ProcessorBoostMode::Disabled);
}

#[test]
fn processor_power_values_normalize_to_valid_percentages() {
    let values =
        ProcessorPowerValues::new_with_boost_mode(140, 75, 20, 150, ProcessorBoostMode::Enabled)
            .normalized();

    assert_eq!(values.core_parking_min, 100);
    assert_eq!(values.performance_min, 75);
    assert_eq!(values.performance_max, 75);
    assert_eq!(values.boost_policy, 100);
    assert_eq!(values.boost_mode, ProcessorBoostMode::Enabled);
}

#[test]
fn processor_power_ac_dc_values_normalize_each_power_source() {
    let values = ProcessorPowerAcDcValues::new(
        ProcessorPowerValues::new_with_boost_mode(120, 90, 80, 120, ProcessorBoostMode::Enabled),
        ProcessorPowerValues::new_with_boost_mode(10, 20, 15, 30, ProcessorBoostMode::Enabled),
    )
    .normalized();

    assert_eq!(values.ac.core_parking_min, 100);
    assert_eq!(values.ac.performance_min, 90);
    assert_eq!(values.ac.performance_max, 90);
    assert_eq!(values.ac.boost_policy, 100);
    assert_eq!(values.dc.core_parking_min, 10);
    assert_eq!(values.dc.performance_min, 20);
    assert_eq!(values.dc.performance_max, 20);
    assert_eq!(values.dc.boost_policy, 30);
}

#[test]
fn boost_modes_round_trip_through_power_values() {
    for mode in ProcessorBoostMode::all() {
        assert_eq!(ProcessorBoostMode::from_power_value(mode.power_value()), mode);
    }
    assert_eq!(ProcessorBoostMode::from_power_value(99), ProcessorBoostMode::Enabled);
}

#[test]
fn display_name_marks_the_active_plan() {
    let plan = PowerPlan { guid: "g".to_owned(), name: "Balanced".to_owned(), active: true };
    assert_eq!(plan.display_name(), "Balanced (active)");
    let plan = PowerPlan { active: false, ..plan };
    assert_eq!(plan.display_name(), "Balanced");
}

#[test]
fn listed_plans_mark_the_active_guid_ignoring_case() {
    let schemes = vec![
        PowerSchemeRecord { guid: "381B4222-F694-41F0-9685-FF5BB260DF2E".to_owned(), name: "Balanced".to_owned() },
        PowerSchemeRecord { guid: "8c5e7fda-e8bf-4a96-9a85-a6e23a8c635c".to_owned(), name: "High".to_owned() },
    ];
    let plans = list_plans(Some("381b4222-f694-41f0-9685-ff5bb260df2e"), Ok(schemes)).unwrap();
    assert_eq!(plans.len(), 2);
    assert!(plans[0].active);
    assert!(!plans[1].active);
    assert_eq!(
        list_plans(None, Ok(Vec::new())),
        Err("No Windows power plans were detected.".to_owned())
    );
}

#[test]
fn stale_adaptive_plans_restore_their_source_before_deletion() {
    let restore = "381b4222-f694-41f0-9685-ff5bb260df2e";
    let description = adaptive_plan_description(restore);
    let managed = PowerPlan { guid: "a".to_owned(), name: ADAPTIVE_PLAN_NAME.to_owned(), active: true };
    let source = PowerPlan { guid: restore.to_uppercase(), name: "Balanced".to_owned(), active: false };
    let plans = vec![managed.clone(), source];
    assert_eq!(
        stale_adaptive_plan_action(&managed, &description, &plans),
        StalePlanAction::ActivateThenDelete(restore.to_owned())
    );
    let inactive = PowerPlan { active: false, ..managed.clone() };
    assert_eq!(stale_adaptive_plan_action(&inactive, &description, &plans), StalePlanAction::Delete);
    assert_eq!(
        stale_adaptive_plan_action(&managed, &description, &vec![managed.clone()]),
        StalePlanAction::Keep
    );
    assert_eq!(stale_adaptive_plan_action(&managed, "other", &plans), StalePlanAction::Keep);
}

#[test]
fn processor_power_writes_follow_the_stage_order() {
    let values = ProcessorPowerAcDcValues::new(
        ProcessorPowerValues::new_with_boost_mode(120, 90, 80, 120, ProcessorBoostMode::Aggressive),
        ProcessorPowerValues::new_with_boost_mode(10, 20, 15, 30, ProcessorBoostMode::Disabled),
    );
    let writes = apply_processor_power_values("381b4222-f694-41f0-9685-ff5bb260df2e", values).unwrap();
    assert_eq!(writes.len(), 10);
    assert_eq!(writes[0].stage, ProcessorPowerApplyStage::AcCoreParkingMinimum);
    assert_eq!(writes[0].value, 100);
    assert_eq!(writes[5].setting, PowerSetting::PerformanceMaximum);
    assert!(writes[5].dc);
    assert_eq!(writes[5].value, 20);
    assert_eq!(writes[8].value, 2);
    assert_eq!(writes[9].value, 0);
    let error = apply_processor_power_values_staged("not a guid", values).unwrap_err();
    assert_eq!(error.stage(), ProcessorPowerApplyStage::ValidatePlan);
    assert_eq!(
        apply_processor_power_values("not a guid", values),
        Err("Failed to validate plan: Invalid power plan GUID.".to_owned())
    );
}

#[test]
fn plan_reads_validate_the_guid_and_normalize() {
    let guid = "381b4222-f694-41f0-9685-ff5bb260df2e";
    assert_eq!(read_plan_personality(guid, Ok(0)), Ok(PowerPlanPersonality::PowerSaver));
    assert_eq!(
        read_plan_personality("bad", Ok(0)),
        Err("Invalid power plan GUID.".to_owned())
    );
    let reading = ProcessorPowerReading {
        core_parking_min: 150,
        performance_min: 50,
        performance_max: 40,
        boost_policy: 10,
        boost_mode: 4,
    };
    let values = read_processor_power_values(guid, Ok(reading), Ok(reading)).unwrap();
    assert_eq!(values.ac.core_parking_min, 100);
    assert_eq!(values.dc.performance_max, 50);
    assert_eq!(values.ac.boost_mode, ProcessorBoostMode::EfficientAggressive);
}
