use winderust::config::{BackgroundProcessorSelection, CpuSchedulerSettings, WorkloadEngineSettings};
use winderust::cpu_allocation::{choose_core_mask, mask_bit_count, masked_load_sum, CoreSelection, LogicalProcessorInfo, LogicalProcessorKind};
use winderust::features::cpu_scheduler::CpuSchedulerManager;
use winderust::features::workload_engine::{has_efficiency_cores, WorkloadEngineManager};

const SECOND: u128 = 1_000_000_000;

fn standard(count: usize) -> Vec<LogicalProcessorInfo> {
    (0..count)
        .map(|index| LogicalProcessorInfo {
            index,
            core_index: index as u32,
            kind: LogicalProcessorKind::Standard,
            efficiency_class: 0,
        })
        .collect()
}

#[test]
fn masks_are_counted_and_their_loads_summed() {
    assert_eq!(mask_bit_count(0b1011), 3);
    assert_eq!(mask_bit_count(u64::MAX), 64);
    assert_eq!(masked_load_sum(0b0110, &vec![5, 10, 20, 40]), (30, 2));
    assert_eq!(masked_load_sum(0b1_0000, &vec![5, 10]), (0, 0));
}

#[test]
fn a_recent_selection_stays_unless_the_new_one_is_much_less_loaded() {
    let previous = CoreSelection { mask: 0b0110, kind: None, selected_at: 10 * SECOND };
    let loads = vec![50_000, 30_000, 10_000, 5_000];
    // 20 points average on the kept mask against 7.5 on the new one: kept.
    assert_eq!(choose_core_mask(Some(previous), 0b1100, None, &loads, 11 * SECOND), (0b0110, previous));
    // Once the interval has passed, the new mask is taken from now.
    assert_eq!(
        choose_core_mask(Some(previous), 0b1100, None, &loads, 13 * SECOND),
        (0b1100, CoreSelection { mask: 0b1100, kind: None, selected_at: 13 * SECOND })
    );
    // A gain of 15 points or more replaces it at once.
    let busier = vec![50_000, 40_000, 20_000, 5_000];
    assert_eq!(choose_core_mask(Some(previous), 0b1100, None, &busier, 11 * SECOND).0, 0b1100);
    // Another processor count or kind replaces it too.
    assert_eq!(choose_core_mask(Some(previous), 0b1110, None, &loads, 11 * SECOND).0, 0b1110);
    let kind = Some(LogicalProcessorKind::Performance);
    assert_eq!(choose_core_mask(Some(previous), 0b1100, kind, &loads, 11 * SECOND).0, 0b1100);
}

#[test]
fn cpu_scheduler_keeps_its_least_used_selection() {
    let mut manager = CpuSchedulerManager::new();
    let processors = standard(4);
    let mut settings = CpuSchedulerSettings::default();
    settings.background_processor_selection = BackgroundProcessorSelection::LeastUsed;
    let first = vec![50_000, 10_000, 20_000, 90_000];
    assert_eq!(manager.cpu_allocation_mask(&settings, &processors, Some(&first), 50, SECOND), Some(0b0110));
    let second = vec![50_000, 30_000, 10_000, 5_000];
    assert_eq!(manager.cpu_allocation_mask(&settings, &processors, Some(&second), 50, 2 * SECOND), Some(0b0110));
    assert_eq!(manager.cpu_allocation_mask(&settings, &processors, None, 50, 3 * SECOND), None);
    assert!(manager.cpu_allocation_selection.is_some());
    assert_eq!(manager.cpu_allocation_mask(&settings, &processors, Some(&second), 50, 5 * SECOND), Some(0b1100));
    // Every processor is no restriction at all.
    assert_eq!(manager.cpu_allocation_mask(&settings, &processors, Some(&second), 100, 6 * SECOND), None);
    assert!(manager.cpu_allocation_selection.is_none());
}

#[test]
fn workload_engine_core_mask_prefers_load_then_efficiency_cores() {
    let mut manager = WorkloadEngineManager::new();
    let mut processors = standard(4);
    processors[3].kind = LogicalProcessorKind::Efficiency;
    processors[2].kind = LogicalProcessorKind::Efficiency;
    assert!(has_efficiency_cores(&processors));
    let mut settings = WorkloadEngineSettings::default();
    settings.lower_background_auto_cpu_percent = false;
    settings.workload_engine_cpu_percent = 50;
    settings.workload_engine_max_logical_processors = 0;
    let loads = vec![0, 0, 40_000, 10_000];
    let mask = manager.workload_engine_core_mask(&settings, None, &processors, Some(&loads), SECOND);
    assert!(mask.is_some());
    settings.workload_engine_cpu_percent = 100;
    assert_eq!(manager.workload_engine_core_mask(&settings, None, &processors, Some(&loads), SECOND), None);
}
