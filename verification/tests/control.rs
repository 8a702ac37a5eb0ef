use host_telemetry::control::{
    get_proc_path, kill_process, KILL_NOT_OPENED, KILL_NOT_TERMINATED, KILL_SUCCEEDED,
};

#[test]
fn a_process_that_cannot_be_opened_is_reported_as_such() {
    assert_eq!(kill_process(false, false), -1);
    assert_eq!(kill_process(false, true), -1);
    assert_ne!(kill_process(false, false), KILL_NOT_TERMINATED);
    assert_eq!(KILL_NOT_OPENED, -1);
}

#[test]
fn a_process_that_cannot_be_ended_is_reported_as_such() {
    assert_eq!(kill_process(true, false), -2);
    assert_eq!(KILL_NOT_TERMINATED, -2);
}

#[test]
fn a_process_that_was_ended_is_reported_with_zero() {
    assert_eq!(kill_process(true, true), 0);
    assert_eq!(KILL_SUCCEEDED, 0);
}

#[test]
fn the_path_is_the_copied_part_of_the_buffer() {
    let buffer: Vec<u16> = "C:\\bin\\tool.exe\0\0\0\0".encode_utf16().collect();
    let path = get_proc_path(true, 15, &buffer).unwrap();
    assert_eq!(String::from_utf16_lossy(&path), "C:\\bin\\tool.exe");
    assert_eq!(get_proc_path(true, buffer.len() as u32, &buffer).unwrap(), buffer);
}

#[test]
fn there_is_no_path_without_a_process_or_without_a_copy() {
    let buffer: Vec<u16> = vec![67, 58, 92];
    assert_eq!(get_proc_path(false, 3, &buffer), None);
    assert_eq!(get_proc_path(true, 0, &buffer), None);
    assert_eq!(get_proc_path(false, 0, &buffer), None);
}
