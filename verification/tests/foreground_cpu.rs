use winderust::cpu::ProcessCpuSample;
use winderust::features::cpu_scheduler::CpuSchedulerManager;
use winderust::features::workload_engine::WorkloadEngineManager;

fn sample(cpu_time_100ns: u64, sampled_at: u128) -> ProcessCpuSample {
    ProcessCpuSample { cpu_time_100ns, sampled_at }
}

#[test]
fn foreground_usage_needs_two_samples_of_the_same_group() {
    let mut manager = CpuSchedulerManager::new();
    let ids = vec![10, 11];
    assert_eq!(manager.update_foreground_cpu_usage(&ids, Some(sample(0, 1_000)), 2), None);
    let usage = manager.update_foreground_cpu_usage(&ids, Some(sample(10_000, 2_001_000)), 2).unwrap();
    assert_eq!(usage.busy_nanos, 1_000_000);
    assert_eq!(usage.capacity_nanos, 4_000_000);
    // Another group starts over.
    assert_eq!(manager.update_foreground_cpu_usage(&vec![12], Some(sample(20_000, 3_001_000)), 2), None);
}

#[test]
fn foreground_usage_forgets_on_empty_group_and_keeps_on_unreadable_sample() {
    let mut manager = WorkloadEngineManager::new();
    let ids = vec![7];
    assert_eq!(manager.update_foreground_cpu_usage(&ids, Some(sample(0, 0)), 1), None);
    assert_eq!(manager.update_foreground_cpu_usage(&ids, None, 1), None);
    let usage = manager.update_foreground_cpu_usage(&ids, Some(sample(5, 1_000)), 1).unwrap();
    assert_eq!((usage.busy_nanos, usage.capacity_nanos), (500, 1_000));
    assert_eq!(manager.update_foreground_cpu_usage(&Vec::new(), Some(sample(9, 2_000)), 1), None);
    assert!(manager.foreground_cpu_sample.is_none());
    assert_eq!(manager.update_foreground_cpu_usage(&ids, Some(sample(10, 3_000)), 1), None);
}
