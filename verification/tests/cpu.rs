use host_telemetry::cpu::{get_cpu_static_info, to_signed, CpuReading, CpuStaticInfo};

#[test]
fn the_first_processor_gives_brand_load_and_clock() {
    let reading =
        CpuReading { brand: "Example CPU 9000".to_string(), usage: 12_500, frequency: 3_600 };
    assert_eq!(
        get_cpu_static_info(Some(reading), 86_400, 312, 8),
        CpuStaticInfo {
            brand: "Example CPU 9000".to_string(),
            usage: 12_500,
            frequency: 3_600,
            core_count: 8,
            work_time: 86_400,
            process: 312,
        }
    );
}

#[test]
fn without_a_processor_the_brand_is_unknown() {
    assert_eq!(
        get_cpu_static_info(None, 5, 1, 0),
        CpuStaticInfo {
            brand: "Unknown".to_string(),
            usage: 0,
            frequency: 0,
            core_count: 0,
            work_time: 5,
            process: 1,
        }
    );
}

#[test]
fn counts_beyond_the_signed_range_wrap_around() {
    assert_eq!(to_signed(0), 0);
    assert_eq!(to_signed(i64::MAX as u64), i64::MAX);
    assert_eq!(to_signed(i64::MAX as u64 + 1), i64::MIN);
    assert_eq!(to_signed(u64::MAX), -1);
    assert_eq!(get_cpu_static_info(None, u64::MAX, 0, 0).work_time, -1);
}
