use host_telemetry::gpu::{
    get_cpu_integrated_gpu_model_linux, get_cpu_integrated_gpu_model_macos,
    get_cpu_integrated_gpu_model_windows, get_gpu_info, get_integrated_gpu_model_windows,
    is_integrated_graphics, is_processor_maker, GpuReading,
};

fn chars(text: &str) -> Vec<char> {
    text.chars().collect()
}

fn reading(model: &str, total: &str, used: &str, free: &str, temperature: u32) -> GpuReading {
    GpuReading {
        model: model.to_string(),
        total_memory: total.to_string(),
        used_memory: used.to_string(),
        free_memory: free.to_string(),
        temperature,
    }
}

#[test]
fn rows_of_five_fields_are_adapters() {
    let output = "Example RTX 4000, 8192, 1024, 7168, 45\nExample GTX 1000 , 4096,512,3584 ,61\n";
    assert_eq!(
        get_gpu_info(output),
        Some(vec![
            reading("Example RTX 4000", "8192", "1024", "7168", 45),
            reading("Example GTX 1000", "4096", "512", "3584", 61),
        ])
    );
}

#[test]
fn rows_of_other_lengths_are_passed_over() {
    assert_eq!(get_gpu_info("a, b, c, d\n"), None);
    assert_eq!(get_gpu_info("a, b, c, d, e, f\n"), None);
    assert_eq!(get_gpu_info(""), None);
    assert_eq!(get_gpu_info("No devices were found\n"), None);
    assert_eq!(
        get_gpu_info("header\nm, 1, 2, 3, 4\n\n"),
        Some(vec![reading("m", "1", "2", "3", 4)])
    );
}

#[test]
fn a_temperature_that_is_no_number_is_zero() {
    assert_eq!(
        get_gpu_info("m, 1, 2, 3, [N/A]"),
        Some(vec![reading("m", "1", "2", "3", 0)])
    );
    assert_eq!(get_gpu_info(",,,,"), Some(vec![reading("", "", "", "", 0)]));
    assert_eq!(get_gpu_info("m,1,2,3,-5"), Some(vec![reading("m", "1", "2", "3", 0)]));
}

#[test]
fn makers_are_found_in_lower_case_text() {
    assert!(is_processor_maker(&chars("intel(r) hd graphics")));
    assert!(is_processor_maker(&chars("advanced amd radeon")));
    assert!(!is_processor_maker(&chars("uhd graphics 620")));
    assert!(!is_processor_maker(&chars("Intel AMD")));
    assert!(is_integrated_graphics(&chars("uhd graphics 620")));
    assert!(is_integrated_graphics(&chars("intel")));
    assert!(!is_integrated_graphics(&chars("nvidia geforce")));
    assert!(!is_integrated_graphics(&chars("")));
}

#[test]
fn the_second_line_names_the_first_controller() {
    assert_eq!(
        get_integrated_gpu_model_windows("Name\r\nIntel(R) UHD Graphics 620  \r\nOther\r\n"),
        Some("Intel(R) UHD Graphics 620".to_string())
    );
    assert_eq!(get_integrated_gpu_model_windows("Name\r\n   \r\nOther\r\n"), None);
    assert_eq!(get_integrated_gpu_model_windows("Name\r\n"), None);
    assert_eq!(get_integrated_gpu_model_windows(""), None);
}

#[test]
fn integrated_graphics_are_found_whatever_the_case() {
    let output = "Name\r\nNVIDIA GeForce\r\n\r\n  INTEL(R) Iris Xe  \r\nAMD Radeon\r\n";
    assert_eq!(
        get_cpu_integrated_gpu_model_windows(output),
        Some("INTEL(R) Iris Xe".to_string())
    );
    assert_eq!(
        get_cpu_integrated_gpu_model_windows("Name\nSome UHD Graphics\n"),
        Some("Some UHD Graphics".to_string())
    );
}

#[test]
fn the_heading_line_is_never_a_controller() {
    assert_eq!(get_cpu_integrated_gpu_model_windows("Intel\nNVIDIA\n"), None);
    assert_eq!(get_cpu_integrated_gpu_model_windows("Intel"), None);
    assert_eq!(get_cpu_integrated_gpu_model_windows(""), None);
    assert_eq!(get_cpu_integrated_gpu_model_windows("Name\nNVIDIA GeForce\n"), None);
}

#[test]
fn a_display_controller_by_a_processor_maker_is_found() {
    let output = "00:00.0 Host bridge: Intel Corporation Device\n\
                  01:00.0 VGA compatible controller: NVIDIA Corporation GP107\n\
                  00:02.0 VGA compatible controller: Intel Corporation UHD Graphics 620 (rev 07)\n\
                  02:00.0 VGA compatible controller: Advanced Micro Devices [AMD/ATI]\n";
    assert_eq!(
        get_cpu_integrated_gpu_model_linux(output),
        Some(
            "00:02.0 VGA compatible controller: Intel Corporation UHD Graphics 620 (rev 07)"
                .to_string()
        )
    );
    assert_eq!(
        get_cpu_integrated_gpu_model_linux("  VGA compatible controller: AMD  "),
        Some("  VGA compatible controller: AMD  ".to_string())
    );
    assert_eq!(get_cpu_integrated_gpu_model_linux("vga compatible controller: Intel"), None);
    assert_eq!(get_cpu_integrated_gpu_model_linux("VGA compatible controller: NVIDIA"), None);
    assert_eq!(get_cpu_integrated_gpu_model_linux(""), None);
}

#[test]
fn a_chipset_by_a_processor_maker_is_found() {
    let output = "Graphics/Displays:\n\n    NVIDIA GeForce GT 750M:\n\n      Chipset Model: NVIDIA GeForce GT 750M\n      Type: GPU\n\n    Intel Iris Pro:\n\n      Chipset Model: Intel Iris Pro\n      Type: GPU\n";
    assert_eq!(get_cpu_integrated_gpu_model_macos(output), Some("Intel Iris Pro".to_string()));
    assert_eq!(
        get_cpu_integrated_gpu_model_macos("Chipset Model:Chipset Model: AMD Radeon Pro"),
        Some("AMD Radeon Pro".to_string())
    );
    assert_eq!(get_cpu_integrated_gpu_model_macos("Chipset Model: Apple M1"), None);
    assert_eq!(get_cpu_integrated_gpu_model_macos("Model: Intel"), None);
}

#[test]
fn words_before_the_key_stay_in_the_model() {
    assert_eq!(
        get_cpu_integrated_gpu_model_macos("The Chipset Model: Intel HD"),
        Some("The Chipset Model: Intel HD".to_string())
    );
}

#[test]
fn lower_case_follows_unicode() {
    assert_eq!(
        get_cpu_integrated_gpu_model_windows("Name\n\u{c0}MD Graphics\n"),
        None
    );
    assert_eq!(
        get_cpu_integrated_gpu_model_windows("Name\nRADEON (AMD) \u{c9}dition\n"),
        Some("RADEON (AMD) \u{c9}dition".to_string())
    );
}
