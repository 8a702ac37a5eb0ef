use host_telemetry::collector::{
    get_process_info_array, process_collector_step, start_process_collector,
    stop_process_collector, ProcessCollector, TaskAction, TaskEvent, SAMPLING_INTERVAL_SECS,
};
use host_telemetry::process::RawProcess;

fn raw(pid: &str, cpu_usage: u32) -> RawProcess {
    RawProcess {
        pid: pid.to_string(),
        name: format!("proc{}", pid),
        cpu_usage,
        memory: 0,
        total_read_bytes: 0,
        total_written_bytes: 0,
    }
}

#[test]
fn start_twice_then_stop() {
    let mut collector = ProcessCollector::new();
    assert!(start_process_collector(&mut collector));
    assert!(!start_process_collector(&mut collector));
    assert!(collector.is_running());
    assert!(stop_process_collector(&mut collector));
    assert!(!collector.is_running());
    assert!(collector.fetch().is_empty());
    assert!(!stop_process_collector(&mut collector));
}

#[test]
fn stop_without_start_fails() {
    let mut collector = ProcessCollector::new();
    assert!(!stop_process_collector(&mut collector));
    assert!(!collector.is_running());
}

#[test]
fn fetch_before_start_is_empty() {
    let collector = ProcessCollector::new();
    assert!(collector.fetch().is_empty());
    let array = get_process_info_array(&collector);
    assert_eq!(array.len, 0);
    assert!(array.data.is_empty());
}

#[test]
fn fetch_after_start_and_before_a_reading_is_empty() {
    let mut collector = ProcessCollector::new();
    assert!(start_process_collector(&mut collector));
    assert!(collector.fetch().is_empty());
}

#[test]
fn of_many_starts_one_succeeds() {
    let mut collector = ProcessCollector::new();
    let mut successes = 0;
    for _ in 0..16 {
        if start_process_collector(&mut collector) {
            successes += 1;
        }
    }
    assert_eq!(successes, 1);
    assert!(collector.is_running());
}

#[test]
fn the_sampler_sleeps_for_one_second() {
    assert_eq!(SAMPLING_INTERVAL_SECS, 1);
}

#[test]
fn two_ticks_on_two_cores() {
    let mut collector = ProcessCollector::new();
    assert!(start_process_collector(&mut collector));
    assert_eq!(process_collector_step(&mut collector, TaskEvent::Woke), TaskAction::Sample);
    let table = vec![raw("1", 50_000), raw("2", 20_000)];
    assert_eq!(
        process_collector_step(&mut collector, TaskEvent::Sampled(Some(table.clone()), 2)),
        TaskAction::Sleep(1)
    );
    assert_eq!(process_collector_step(&mut collector, TaskEvent::Woke), TaskAction::Sample);
    assert_eq!(
        process_collector_step(&mut collector, TaskEvent::Sampled(Some(table), 2)),
        TaskAction::Sleep(1)
    );
    let array = get_process_info_array(&collector);
    assert_eq!(array.len, 2);
    assert_eq!(array.data[0].pid, "1");
    assert_eq!(array.data[0].cpu_usage, 25_000);
    assert_eq!(array.data[1].pid, "2");
    assert_eq!(array.data[1].cpu_usage, 10_000);
}

#[test]
fn a_failed_reading_keeps_the_latest_snapshot() {
    let mut collector = ProcessCollector::new();
    assert!(start_process_collector(&mut collector));
    let table = vec![raw("7", 10_000), raw("8", 90_000)];
    process_collector_step(&mut collector, TaskEvent::Sampled(Some(table), 1));
    assert_eq!(
        process_collector_step(&mut collector, TaskEvent::Sampled(None, 1)),
        TaskAction::Sleep(1)
    );
    let snapshot = collector.fetch();
    assert_eq!(snapshot.len(), 2);
    assert_eq!(snapshot[0].pid, "8");
    assert_eq!(snapshot[1].pid, "7");
}

#[test]
fn a_new_reading_replaces_the_latest_snapshot() {
    let mut collector = ProcessCollector::new();
    assert!(start_process_collector(&mut collector));
    process_collector_step(&mut collector, TaskEvent::Sampled(Some(vec![raw("7", 1)]), 1));
    process_collector_step(
        &mut collector,
        TaskEvent::Sampled(Some(vec![raw("8", 1), raw("9", 2)]), 1),
    );
    let snapshot = collector.fetch();
    assert_eq!(snapshot.len(), 2);
    assert_eq!(snapshot[0].pid, "9");
    assert_eq!(snapshot[1].pid, "8");
}

#[test]
fn the_sampler_ends_once_the_collector_is_stopped() {
    let mut collector = ProcessCollector::new();
    assert_eq!(process_collector_step(&mut collector, TaskEvent::Woke), TaskAction::Exit);
    assert!(start_process_collector(&mut collector));
    process_collector_step(&mut collector, TaskEvent::Sampled(Some(vec![raw("7", 1)]), 1));
    assert!(stop_process_collector(&mut collector));
    assert_eq!(process_collector_step(&mut collector, TaskEvent::Woke), TaskAction::Exit);
    assert_eq!(
        process_collector_step(&mut collector, TaskEvent::Sampled(Some(vec![raw("7", 1)]), 1)),
        TaskAction::Exit
    );
    assert!(collector.fetch().is_empty());
}

#[test]
fn a_fetched_snapshot_is_a_copy() {
    let mut collector = ProcessCollector::new();
    assert!(start_process_collector(&mut collector));
    process_collector_step(&mut collector, TaskEvent::Sampled(Some(vec![raw("7", 1)]), 1));
    let mut first = collector.fetch();
    first[0].pid.push('x');
    first.clear();
    let second = collector.fetch();
    assert_eq!(second.len(), 1);
    assert_eq!(second[0].pid, "7");
}

#[test]
fn a_collector_can_be_started_again() {
    let mut collector = ProcessCollector::new();
    assert!(start_process_collector(&mut collector));
    process_collector_step(&mut collector, TaskEvent::Sampled(Some(vec![raw("7", 1)]), 1));
    assert!(stop_process_collector(&mut collector));
    assert!(start_process_collector(&mut collector));
    assert!(collector.fetch().is_empty());
    assert_eq!(process_collector_step(&mut collector, TaskEvent::Woke), TaskAction::Sample);
}
