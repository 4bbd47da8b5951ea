use gpu_report::gpu::{DeviceReadings, GPUStats, Reading};
use gpu_report::machine::{open_session, scan, Action, Collector, Event, ReportError};
use gpu_report::order::{insert_device, sort_by_index};
use gpu_report::pids::{insert_pid, insert_pids, unique_pids};
use gpu_report::throttle::ThrottleFlags;

const FREE: &str = "total used free shared buff/cache available Mem: 31Gi 5.2Gi 20Gi";
const IOSTAT: &str = "avg-cpu: %user %nice %system %iowait %steal %idle 3.41 0.02 1.12 0.25 0.00 95.20";

fn device(index: u32, processes: Vec<u32>) -> GPUStats {
    GPUStats::from_readings(DeviceReadings {
        index: Reading::Value(index),
        name: Reading::Value("NVIDIA GeForce RTX 3090".to_string()),
        temperature: Reading::Value(54),
        power_usage: Reading::Value(150000),
        power_limit: Reading::Value(350000),
        utilization: Reading::Value((97, 41)),
        memory: Reading::Value((8_589_934_592, 25_769_803_776)),
        capability: Reading::Value((8, 6)),
        cores: Reading::Value(10496),
        throttle: Reading::Value(ThrottleFlags::empty()),
        fans: Reading::Value(vec![30, 41]),
        display_connected: Reading::Value(false),
        display_active: Reading::Value(false),
        processes: Reading::Value(processes),
    })
    .expect("the readings are complete")
}

fn start(devices: Vec<GPUStats>) -> Collector {
    Collector::start("535.104.05".to_string(), "12.2".to_string(), devices)
}

fn line(pid: u32) -> Event {
    Event::ProcessTable(format!("{} alice 1.0 2.0 00:10 job{}", pid, pid))
}

fn host() -> Event {
    Event::HostOutputs("8\n".to_string(), FREE.to_string(), IOSTAT.to_string())
}

#[test]
fn ids_are_put_in_order_once() {
    let mut set = vec![];
    insert_pid(&mut set, 30);
    insert_pid(&mut set, 10);
    insert_pid(&mut set, 20);
    insert_pid(&mut set, 10);
    insert_pid(&mut set, 30);
    assert_eq!(set, vec![10, 20, 30]);
    insert_pids(&mut set, &vec![25, 5, 20, 40, 5]);
    assert_eq!(set, vec![5, 10, 20, 25, 30, 40]);
    insert_pid(&mut set, 0);
    insert_pid(&mut set, u32::MAX);
    assert_eq!(set, vec![0, 5, 10, 20, 25, 30, 40, u32::MAX]);
}

#[test]
fn a_process_on_two_devices_is_inspected_once() {
    let devices = vec![device(0, vec![300, 100]), device(1, vec![200, 100]), device(2, vec![])];
    assert_eq!(unique_pids(&devices), vec![100, 200, 300]);
    assert_eq!(unique_pids(&vec![]), Vec::<u32>::new());
}

#[test]
fn processes_are_inspected_in_increasing_order_and_then_the_host() {
    let mut c = start(vec![device(0, vec![300, 100]), device(1, vec![200, 100])]);
    assert_eq!(c.action(), Action::InspectProcess(100));
    c = c.advance(line(100));
    assert_eq!(c.action(), Action::InspectProcess(200));
    c = c.advance(line(200));
    assert_eq!(c.action(), Action::InspectProcess(300));
    c = c.advance(line(300));
    assert_eq!(c.action(), Action::QueryHost);
    c = c.advance(host());
    assert_eq!(c.action(), Action::Done);
    let report = c.finish().expect("nothing is left to do");
    let pids: Vec<u32> = report.processes().iter().map(|p| p.pid()).collect();
    assert_eq!(pids, vec![100, 200, 300]);
    assert_eq!(report.processes()[1].command(), "job200");
    assert_eq!(report.gpus().len(), 2);
    assert_eq!(report.driver_version(), "535.104.05");
    assert_eq!(report.cuda_version(), "12.2");
    assert!(report.host().is_some());
}

#[test]
fn without_processes_the_host_comes_first() {
    let c = start(vec![device(0, vec![])]);
    assert_eq!(c.action(), Action::QueryHost);
    let c = start(vec![]);
    assert_eq!(c.action(), Action::QueryHost);
}

#[test]
fn a_process_that_is_gone_is_left_out() {
    let mut c = start(vec![device(0, vec![1, 2, 3])]);
    c = c.advance(line(1));
    c = c.advance(Event::ProcessTable(String::new()));
    c = c.advance(line(3));
    c = c.advance(host());
    let report = c.finish().unwrap();
    let pids: Vec<u32> = report.processes().iter().map(|p| p.pid()).collect();
    assert_eq!(pids, vec![1, 3]);
}

#[test]
fn a_line_that_cannot_be_read_or_asked_for_is_left_out() {
    let mut c = start(vec![device(0, vec![1, 2, 3])]);
    c = c.advance(Event::ProcessTable("1 alice".to_string()));
    c = c.advance(Event::ProcessQueryFailed);
    assert_eq!(c.action(), Action::InspectProcess(3));
    c = c.advance(line(3));
    c = c.advance(Event::HostQueryFailed);
    let report = c.finish().unwrap();
    let pids: Vec<u32> = report.processes().iter().map(|p| p.pid()).collect();
    assert_eq!(pids, vec![3]);
}

#[test]
fn an_event_that_answers_nothing_changes_nothing() {
    let mut c = start(vec![device(0, vec![7])]);
    c = c.advance(host());
    assert_eq!(c.action(), Action::InspectProcess(7));
    c = c.advance(Event::HostQueryFailed);
    assert_eq!(c.action(), Action::InspectProcess(7));
    c = c.advance(line(7));
    assert_eq!(c.action(), Action::QueryHost);
    c = c.advance(line(8));
    assert_eq!(c.action(), Action::QueryHost);
    c = c.advance(Event::ProcessQueryFailed);
    assert_eq!(c.action(), Action::QueryHost);
    c = c.advance(host());
    assert_eq!(c.action(), Action::Done);
    c = c.advance(line(9));
    c = c.advance(Event::HostQueryFailed);
    assert_eq!(c.action(), Action::Done);
    let report = c.finish().unwrap();
    assert_eq!(report.processes().len(), 1);
    assert!(report.host().is_some());
}

#[test]
fn no_report_before_the_end() {
    let c = start(vec![device(0, vec![7])]);
    assert!(c.finish().is_none());
    let c = start(vec![device(0, vec![7])]).advance(line(7));
    assert!(c.finish().is_none());
}

#[test]
fn a_host_that_cannot_be_asked_is_absent() {
    let c = start(vec![device(0, vec![])]).advance(Event::HostQueryFailed);
    let report = c.finish().expect("the collection is at its end");
    assert!(report.host().is_none());
}

#[test]
fn a_host_with_a_bad_output_is_absent() {
    let bad = Event::HostOutputs("8\n".to_string(), FREE.to_string(), "".to_string());
    let c = start(vec![device(0, vec![])]).advance(bad);
    let report = c.finish().expect("the collection is at its end");
    assert!(report.host().is_none());
}

#[test]
fn a_session_opens_or_fails_with_the_initialization_failure() {
    match open_session() {
        Ok(nvml) => {
            let c = scan(&nvml);
            match c.action() {
                Action::InspectProcess(_) | Action::QueryHost => {}
                Action::Done => panic!("the host is never dealt with at the start"),
            }
        }
        Err(e) => assert_eq!(e, ReportError::InitializationFailure),
    }
}

fn ordinals(devices: &Vec<GPUStats>) -> Vec<u32> {
    devices.iter().map(|d| d.index().expect("the ordinal was read")).collect()
}

fn first_process(device: &GPUStats) -> u32 {
    device.process_ids().as_ref().expect("the processes were read")[0]
}

fn without_ordinal(processes: Vec<u32>) -> GPUStats {
    GPUStats::from_readings(DeviceReadings {
        index: Reading::Unsupported,
        name: Reading::Value("Tesla T4".to_string()),
        temperature: Reading::Value(54),
        power_usage: Reading::Value(150000),
        power_limit: Reading::Value(350000),
        utilization: Reading::Value((97, 41)),
        memory: Reading::Value((8_589_934_592, 25_769_803_776)),
        capability: Reading::Value((8, 6)),
        cores: Reading::Value(10496),
        throttle: Reading::Value(ThrottleFlags::empty()),
        fans: Reading::Value(vec![30, 41]),
        display_connected: Reading::Value(false),
        display_active: Reading::Value(false),
        processes: Reading::Value(processes),
    })
    .expect("want of support drops no device")
}

#[test]
fn devices_without_an_ordinal_come_last() {
    let sorted = sort_by_index(vec![
        without_ordinal(vec![1]),
        device(u32::MAX, vec![2]),
        without_ordinal(vec![3]),
        device(0, vec![4]),
    ]);
    let indices: Vec<Option<u32>> = sorted.iter().map(|d| d.index()).collect();
    assert_eq!(indices, vec![Some(0), Some(u32::MAX), None, None]);
    let first: Vec<u32> = sorted.iter().map(first_process).collect();
    assert_eq!(first, vec![4, 2, 1, 3]);
}

#[test]
fn a_device_that_does_not_tell_its_processes_has_none_inspected() {
    let mut r = DeviceReadings {
        index: Reading::Value(1),
        name: Reading::Value("Tesla T4".to_string()),
        temperature: Reading::Value(54),
        power_usage: Reading::Value(150000),
        power_limit: Reading::Value(350000),
        utilization: Reading::Value((97, 41)),
        memory: Reading::Value((8_589_934_592, 25_769_803_776)),
        capability: Reading::Value((8, 6)),
        cores: Reading::Value(10496),
        throttle: Reading::Value(ThrottleFlags::empty()),
        fans: Reading::Value(vec![30, 41]),
        display_connected: Reading::Value(false),
        display_active: Reading::Value(false),
        processes: Reading::Unsupported,
    };
    r.processes = Reading::Unsupported;
    let silent = GPUStats::from_readings(r).unwrap();
    assert_eq!(unique_pids(&vec![device(0, vec![9, 8]), silent]), vec![8, 9]);
}

#[test]
fn devices_are_put_in_the_order_of_their_ordinals() {
    let sorted = sort_by_index(vec![device(2, vec![]), device(0, vec![]), device(1, vec![])]);
    assert_eq!(ordinals(&sorted), vec![0, 1, 2]);
    assert_eq!(ordinals(&sort_by_index(vec![])), Vec::<u32>::new());
    let kept = sort_by_index(vec![device(0, vec![]), device(1, vec![]), device(5, vec![])]);
    assert_eq!(ordinals(&kept), vec![0, 1, 5]);
}

#[test]
fn devices_of_the_same_ordinal_keep_their_order() {
    let sorted = sort_by_index(vec![
        device(1, vec![10]),
        device(0, vec![20]),
        device(1, vec![30]),
        device(0, vec![40]),
    ]);
    assert_eq!(ordinals(&sorted), vec![0, 0, 1, 1]);
    let first: Vec<u32> = sorted.iter().map(first_process).collect();
    assert_eq!(first, vec![20, 40, 10, 30]);
}

#[test]
fn a_device_goes_behind_those_that_are_not_above_it() {
    let mut devices = vec![device(0, vec![]), device(2, vec![1]), device(4, vec![])];
    insert_device(&mut devices, device(2, vec![2]));
    insert_device(&mut devices, device(9, vec![]));
    insert_device(&mut devices, device(0, vec![3]));
    assert_eq!(ordinals(&devices), vec![0, 0, 2, 2, 4, 9]);
    assert_eq!(devices[1].process_ids(), &Some(vec![3]));
    assert_eq!(devices[3].process_ids(), &Some(vec![2]));
}

#[test]
fn the_report_lists_the_devices_by_their_ordinals() {
    let c = start(vec![device(3, vec![]), device(1, vec![])]).advance(Event::HostQueryFailed);
    let report = c.finish().unwrap();
    assert_eq!(ordinals(report.gpus()), vec![1, 3]);
}
