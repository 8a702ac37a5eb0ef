use host_telemetry::memory::{
    get_memory_static_info, get_modern_memory_format, get_ram_info_array, internal_get_ram_info,
    MemoryInfo, MemoryStaticInfo, Win32PhysicalMemory,
};

#[test]
fn smbios_codes_have_their_names() {
    assert_eq!(get_modern_memory_format(Some(20), None), "DDR");
    assert_eq!(get_modern_memory_format(Some(21), None), "DDR2");
    assert_eq!(get_modern_memory_format(Some(22), None), "DDR2 FB-DIMM");
    assert_eq!(get_modern_memory_format(Some(24), None), "DDR3");
    assert_eq!(get_modern_memory_format(Some(26), None), "DDR4");
    assert_eq!(get_modern_memory_format(Some(34), None), "DDR5");
    assert_eq!(get_modern_memory_format(Some(23), None), "Unknown");
    assert_eq!(get_modern_memory_format(Some(u32::MAX), None), "Unknown");
}

#[test]
fn smbios_code_wins_over_the_legacy_code() {
    assert_eq!(get_modern_memory_format(Some(26), Some(20)), "DDR4");
    assert_eq!(get_modern_memory_format(Some(99), Some(20)), "Unknown");
}

#[test]
fn legacy_code_decides_without_an_smbios_code() {
    assert_eq!(get_modern_memory_format(None, Some(20)), "DDR");
    assert_eq!(get_modern_memory_format(None, Some(21)), "DDR2");
    assert_eq!(get_modern_memory_format(None, Some(22)), "DDR2 FB-DIMM");
    assert_eq!(get_modern_memory_format(None, Some(24)), "DDR3");
    assert_eq!(get_modern_memory_format(Some(0), Some(24)), "DDR3");
    assert_eq!(get_modern_memory_format(Some(0), Some(21)), "DDR2");
}

#[test]
fn legacy_table_ends_with_ddr3() {
    assert_eq!(get_modern_memory_format(None, Some(26)), "Unknown");
    assert_eq!(get_modern_memory_format(None, Some(34)), "Unknown");
    assert_eq!(get_modern_memory_format(Some(0), Some(26)), "Unknown");
    assert_eq!(get_modern_memory_format(None, Some(0)), "Unknown");
}

#[test]
fn without_codes_the_format_is_unknown() {
    assert_eq!(get_modern_memory_format(None, None), "Unknown");
    assert_eq!(get_modern_memory_format(Some(0), None), "Unknown");
}

#[test]
fn memory_totals_are_whole_gibibytes() {
    let gib: u64 = 1024 * 1024 * 1024;
    assert_eq!(
        get_memory_static_info(16 * gib, 5 * gib + 1, 11 * gib - 1),
        MemoryStaticInfo {
            total: 16,
            used: 5,
            available: 10,
            speed: 2400,
            format: "DDR4".to_string(),
        }
    );
    assert_eq!(get_memory_static_info(0, gib - 1, u64::MAX).total, 0);
    assert_eq!(get_memory_static_info(0, gib - 1, u64::MAX).used, 0);
    assert_eq!(get_memory_static_info(0, gib - 1, u64::MAX).available, 17_179_869_183);
}

#[test]
fn firmware_records_become_modules() {
    let records = vec![
        Win32PhysicalMemory { speed: 3200, memory_type: Some(0), smbios_memory_type: Some(26) },
        Win32PhysicalMemory { speed: 1600, memory_type: Some(24), smbios_memory_type: None },
        Win32PhysicalMemory { speed: 800, memory_type: None, smbios_memory_type: Some(0) },
    ];
    assert_eq!(
        internal_get_ram_info(&records),
        vec![
            MemoryInfo { speed: 3200, memory_format: "DDR4".to_string() },
            MemoryInfo { speed: 1600, memory_format: "DDR3".to_string() },
            MemoryInfo { speed: 800, memory_format: "Unknown".to_string() },
        ]
    );
    assert!(internal_get_ram_info(&Vec::new()).is_empty());
}

#[test]
fn a_failed_lookup_gives_no_modules() {
    let array = get_ram_info_array(None);
    assert_eq!(array.len, 0);
    assert!(array.data.is_empty());
}

#[test]
fn a_lookup_hands_its_modules_on() {
    let modules = vec![
        MemoryInfo { speed: 3200, memory_format: "DDR4".to_string() },
        MemoryInfo { speed: 2666, memory_format: "DDR4".to_string() },
    ];
    let array = get_ram_info_array(Some(modules));
    assert_eq!(array.len, 2);
    assert_eq!(array.data[0].speed, 3200);
    assert_eq!(array.data[1].speed, 2666);
    assert_eq!(array.data[1].memory_format, "DDR4");
}
