use host_telemetry::process::{
    bytes_to_kb, bytes_to_mb, create_process_info_internal, normalize_cpu_usage, ProcessInfo,
    RawProcess,
};

#[test]
fn usage_is_divided_by_the_number_of_cores() {
    assert_eq!(normalize_cpu_usage(50_000, 2), 25_000);
    assert_eq!(normalize_cpu_usage(20_000, 2), 10_000);
    assert_eq!(normalize_cpu_usage(100_000, 3), 33_333);
    assert_eq!(normalize_cpu_usage(800_000, 8), 100_000);
    assert_eq!(normalize_cpu_usage(7, 1), 7);
    assert_eq!(normalize_cpu_usage(u32::MAX, 1), u32::MAX);
}

#[test]
fn usage_without_cores_is_zero() {
    assert_eq!(normalize_cpu_usage(50_000, 0), 0);
    assert_eq!(normalize_cpu_usage(0, 0), 0);
    assert_eq!(normalize_cpu_usage(u32::MAX, 0), 0);
}

#[test]
fn more_cores_than_usage_give_zero() {
    assert_eq!(normalize_cpu_usage(3, 4), 0);
    assert_eq!(normalize_cpu_usage(u32::MAX, usize::MAX), 0);
}

#[test]
fn bytes_become_thousandths_of_a_mebibyte() {
    assert_eq!(bytes_to_mb(0), 0);
    assert_eq!(bytes_to_mb(1_048_576), 1_000);
    assert_eq!(bytes_to_mb(1_572_864), 1_500);
    assert_eq!(bytes_to_mb(1_048_575), 999);
    assert_eq!(bytes_to_mb(1_234_567), 1_177);
    assert_eq!(bytes_to_mb(u64::MAX), 17_592_186_044_415_999);
}

#[test]
fn bytes_become_thousandths_of_a_kibibyte() {
    assert_eq!(bytes_to_kb(0), 0);
    assert_eq!(bytes_to_kb(1_024), 1_000);
    assert_eq!(bytes_to_kb(1_536), 1_500);
    assert_eq!(bytes_to_kb(1), 0);
    assert_eq!(bytes_to_kb(2), 1);
    assert_eq!(bytes_to_kb(u64::MAX), 18_014_398_509_481_983_999);
}

#[test]
fn a_raw_reading_becomes_a_record() {
    let raw = RawProcess {
        pid: "4242".to_string(),
        name: "worker".to_string(),
        cpu_usage: 150_000,
        memory: 3 * 1_048_576 + 524_288,
        total_read_bytes: 2_048,
        total_written_bytes: 512,
    };
    assert_eq!(
        create_process_info_internal(&raw, 4),
        ProcessInfo {
            pid: "4242".to_string(),
            name: "worker".to_string(),
            cpu_usage: 37_500,
            memory_mb: 3_500,
            read_kb: 2_000,
            written_kb: 500,
        }
    );
    assert_eq!(create_process_info_internal(&raw, 0).cpu_usage, 0);
}

#[test]
fn a_copy_of_a_record_is_equal_to_it() {
    let info = ProcessInfo {
        pid: "1".to_string(),
        name: "init".to_string(),
        cpu_usage: 1,
        memory_mb: 2,
        read_kb: 3,
        written_kb: 4,
    };
    assert_eq!(info.clone(), info);
}
