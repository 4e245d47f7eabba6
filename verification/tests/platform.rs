use winderust::platform::cpu_allocation::{cpu_set_ids_for_mask_from_bytes, normalize_cpu_set_ids};
use winderust::platform::cpu_limiter::relative_due_time;
use winderust::platform::power_plan::{
    decode_power_string, encode_power_string, format_guid, is_valid_guid, parse_guid, Guid,
};
use winderust::platform::status::{gpu_status_result, io_status_result, GpuStatusError, IoStatusError};
use winderust::platform::suspension::{
    freeze_error, JobObjectError, JobObjectFreezeInformation, ERROR_NOT_SUPPORTED,
    JOB_OBJECT_FREEZE_OPERATION,
};
use winderust::platform::timer_resolution::{mm_result, period_ms_to_100ns, resolution_100ns_to_period_ms};
use winderust::gpu_priority::{ERROR_INVALID_PARAMETER, STATUS_INVALID_PARAMETER, STATUS_PROCESS_IS_TERMINATING};

#[test]
fn waitable_timer_due_times_are_relative_hundred_nanosecond_ticks() {
    assert_eq!(relative_due_time(std::time::Duration::from_millis(1).as_nanos()), -10_000);
    assert_eq!(relative_due_time(std::time::Duration::from_millis(99).as_nanos()), -990_000);
}

#[test]
fn due_times_are_at_least_one_tick() {
    assert_eq!(relative_due_time(0), -1);
    assert_eq!(relative_due_time(u128::MAX), -i64::MAX);
}

#[test]
fn status_classifies_exit_context_unavailable_and_other_failures() {
    assert_eq!(gpu_status_result(0), Ok(()));
    assert_eq!(
        gpu_status_result(STATUS_PROCESS_IS_TERMINATING as i32),
        Err(GpuStatusError::ProcessExited)
    );
    assert_eq!(
        gpu_status_result(STATUS_INVALID_PARAMETER as i32),
        Err(GpuStatusError::ContextUnavailable)
    );
    assert_eq!(gpu_status_result(0xC000_0001u32 as i32), Err(GpuStatusError::NtStatus(0xC000_0001)));
}

#[test]
fn status_classifies_exit_and_other_failures() {
    assert_eq!(io_status_result(0), Ok(()));
    assert_eq!(
        io_status_result(STATUS_PROCESS_IS_TERMINATING as i32),
        Err(IoStatusError::ProcessExited)
    );
    assert_eq!(io_status_result(0xC000_0001u32 as i32), Err(IoStatusError::NtStatus(0xC000_0001)));
}

#[test]
fn parses_and_formats_guid() {
    let raw = "381b4222-f694-41f0-9685-ff5bb260df2e";
    let guid = parse_guid(raw).unwrap();

    assert_eq!(format_guid(&guid), raw);
}

#[test]
fn rejects_non_ascii_guid_without_panicking() {
    assert!(parse_guid("381b4222-f694-41f0-測a-ff5bb260df2e").is_none());
}

#[test]
fn guid_parsing_accepts_braces_whitespace_and_upper_case() {
    let guid = parse_guid("  {381B4222-F694-41F0-9685-FF5BB260DF2E}  ").unwrap();
    assert_eq!(
        guid,
        Guid {
            data1: 0x381b4222,
            data2: 0xf694,
            data3: 0x41f0,
            data4: [0x96, 0x85, 0xff, 0x5b, 0xb2, 0x60, 0xdf, 0x2e],
        }
    );
    assert!(is_valid_guid("+81b4222-f694-41f0-9685-ff5bb260df2e"));
    assert!(!is_valid_guid("381b4222-f694-41f0-9685+ff5bb260df2e"));
    assert!(!is_valid_guid("381b4222f69441f09685ff5bb260df2e"));
}

#[test]
fn power_strings_round_trip() {
    let encoded = encode_power_string("Winderust Adaptive 計畫");

    assert_eq!(decode_power_string(&encoded), "Winderust Adaptive 計畫");
}

#[test]
fn power_strings_are_nul_terminated_utf16() {
    assert_eq!(encode_power_string("A😀"), vec![0x41, 0, 0x3D, 0xD8, 0x00, 0xDE, 0, 0]);
    assert_eq!(decode_power_string(&[0x41, 0, 0x00, 0xD8, 0x42, 0]), "A\u{FFFD}B");
}

#[test]
fn freeze_information_layout_matches_the_windows_contract() {
    assert_eq!(std::mem::size_of::<JobObjectFreezeInformation>(), 16);
    assert_eq!(std::mem::align_of::<JobObjectFreezeInformation>(), 4);

    let frozen = JobObjectFreezeInformation::new(true);
    assert_eq!(frozen.flags, JOB_OBJECT_FREEZE_OPERATION);
    assert_eq!(frozen.freeze, 1);
    assert_eq!(frozen.swap, 0);
    assert_eq!(frozen.spare, 0);
    assert_eq!(frozen.wake_filter_high, 0);
    assert_eq!(frozen.wake_filter_low, 0);
    assert_eq!(JobObjectFreezeInformation::new(false).freeze, 0);
}

#[test]
fn freeze_errors_have_stable_adapter_classification() {
    assert_eq!(freeze_error(true, ERROR_INVALID_PARAMETER), JobObjectError::Unsupported);
    assert_eq!(freeze_error(false, ERROR_NOT_SUPPORTED), JobObjectError::Unsupported);
    assert_eq!(
        freeze_error(true, 5),
        JobObjectError::Failed("SetInformationJobObject freeze=true failed with error 5.".to_owned())
    );
}

#[test]
fn timer_periods_round_up_and_saturate() {
    assert_eq!(resolution_100ns_to_period_ms(0), 1);
    assert_eq!(resolution_100ns_to_period_ms(10_000), 1);
    assert_eq!(resolution_100ns_to_period_ms(10_001), 2);
    assert_eq!(period_ms_to_100ns(5), 50_000);
    assert_eq!(period_ms_to_100ns(u32::MAX), u32::MAX);
    assert_eq!(mm_result("timeBeginPeriod", 0), Ok(()));
    assert_eq!(
        mm_result("timeBeginPeriod", 97),
        Err("timeBeginPeriod failed with MMRESULT 97.".to_owned())
    );
}

fn cpu_set_record(id: u32, group: u16, index: u8) -> Vec<u8> {
    let mut record = vec![0u8; 32];
    record[0..4].copy_from_slice(&32u32.to_le_bytes());
    record[8..12].copy_from_slice(&id.to_le_bytes());
    record[12..14].copy_from_slice(&group.to_le_bytes());
    record[14] = index;
    record
}

#[test]
fn empty_cpu_set_buffer_yields_no_ids() {
    assert!(cpu_set_ids_for_mask_from_bytes(&[], 0b11).is_empty());
}

#[test]
fn cpu_set_records_are_selected_by_mask_and_group() {
    let mut buffer = Vec::new();
    buffer.extend(cpu_set_record(0x102, 0, 1));
    buffer.extend(cpu_set_record(0x100, 0, 0));
    buffer.extend(cpu_set_record(0x200, 1, 0));
    buffer.extend(cpu_set_record(0x100, 0, 0));
    buffer.extend(cpu_set_record(0x103, 0, 2));
    buffer.extend([8, 0, 0]);
    assert_eq!(cpu_set_ids_for_mask_from_bytes(&buffer, 0b011), vec![0x100, 0x102]);
}

#[test]
fn cpu_set_ids_are_sorted_and_unique() {
    let mut ids = vec![5, 3, 5, 1, 3];
    normalize_cpu_set_ids(&mut ids);
    assert_eq!(ids, vec![1, 3, 5]);
}
