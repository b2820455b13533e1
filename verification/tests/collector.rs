use netdisk_monitor::collector::{
    connection_counts, observed_duration_secs, process_network_connections, process_session_bytes,
    sort_by_activity, InterfaceSample, ProcessMetric, ProcessSample, SystemCollector,
};
use std::collections::HashMap;

const SECOND: u64 = 1_000_000_000;

#[test]
fn session_bytes_start_from_the_first_observed_counter() {
    assert_eq!(process_session_bytes(1_700, 1_000), 700);
}

#[test]
fn process_duration_starts_when_monitor_first_observes_it() {
    let observed_at: u64 = 5 * SECOND + 123;
    let current = observed_at + 15 * SECOND;

    assert_eq!(observed_duration_secs(observed_at, current), 15);
}

#[test]
fn network_connections_are_aggregated_by_owner_pid() {
    let connections = connection_counts(&vec![42, 42, 18, 42, 18]);

    assert_eq!(connections.get(&42), Some(&3));
    assert_eq!(connections.get(&18), Some(&2));
}

#[test]
fn session_bytes_never_negative() {
    assert_eq!(process_session_bytes(900, 1_000), 0);
}

#[test]
fn duration_is_zero_when_clock_reads_earlier() {
    assert_eq!(observed_duration_secs(10 * SECOND, 3 * SECOND), 0);
    assert_eq!(observed_duration_secs(0, 2 * SECOND - 1), 1);
}

#[test]
fn connection_counts_of_no_pids_is_empty() {
    assert!(connection_counts(&vec![]).is_empty());
}

#[test]
fn tcp_and_udp_connections_are_counted_together() {
    let counts = process_network_connections(&vec![7, 9, 7], &vec![9, 11]);
    assert_eq!(counts.len(), 3);
    assert_eq!(counts.get(&7), Some(&2));
    assert_eq!(counts.get(&9), Some(&2));
    assert_eq!(counts.get(&11), Some(&1));
}

fn metric(pid: u32, read_bps: u64, write_bps: u64, session_read: u64, session_write: u64) -> ProcessMetric {
    ProcessMetric {
        pid,
        name: format!("p{pid}"),
        memory_bytes: 0,
        disk_read_bps: read_bps,
        disk_write_bps: write_bps,
        session_disk_read: session_read,
        session_disk_write: session_write,
        uptime_secs: 0,
        network_connections: 0,
        network_down_bps: 0,
        network_up_bps: 0,
    }
}

#[test]
fn busiest_process_comes_first() {
    let mut processes = vec![
        metric(1, 10, 0, 100, 0),
        metric(2, 0, 50, 0, 0),
        metric(3, 5, 5, 900, 0),
        metric(4, 5, 5, 1_000, 0),
        metric(5, 0, 0, 0, 0),
    ];
    sort_by_activity(&mut processes);
    let order: Vec<u32> = processes.iter().map(|p| p.pid).collect();
    assert_eq!(order, vec![2, 4, 3, 1, 5]);
}

#[test]
fn sorting_wide_sums_does_not_overflow() {
    let mut processes = vec![metric(1, u64::MAX, 0, 0, 0), metric(2, u64::MAX, 1, 0, 0)];
    sort_by_activity(&mut processes);
    assert_eq!(processes[0].pid, 2);
}

fn sample(pid: u32, read_bytes: u64, total_read: u64, total_written: u64) -> ProcessSample {
    ProcessSample {
        pid,
        name: format!("proc-{pid}"),
        memory_bytes: 4_096,
        read_bytes,
        written_bytes: 0,
        total_read_bytes: total_read,
        total_written_bytes: total_written,
    }
}

fn interfaces() -> Vec<InterfaceSample> {
    vec![
        InterfaceSample { name: "eth0".to_string(), total_received: 1_000, total_transmitted: 10 },
        InterfaceSample { name: "wlan0".to_string(), total_received: 500, total_transmitted: 20 },
    ]
}

#[test]
fn collect_sums_interfaces_and_processes() {
    let mut collector = SystemCollector::new();
    let collection =
        collector.collect(&vec![sample(1, 0, 100, 7), sample(2, 0, 50, 3)], &interfaces(), &HashMap::new(), 0);
    assert_eq!(collection.counters.network_down, 1_500);
    assert_eq!(collection.counters.network_up, 30);
    assert_eq!(collection.counters.disk_read, 150);
    assert_eq!(collection.counters.disk_write, 10);
    assert_eq!(collection.interfaces, vec!["eth0".to_string(), "wlan0".to_string()]);
    assert_eq!(collection.processes.len(), 2);
}

#[test]
fn collect_tracks_session_uptime_and_exited_processes() {
    let mut collector = SystemCollector::new();
    let mut connections = HashMap::new();
    connections.insert(1u32, 4u32);

    let first = collector.collect(&vec![sample(1, 0, 1_000, 0), sample(2, 0, 300, 0)], &vec![], &connections, 0);
    for p in &first.processes {
        assert_eq!(p.session_disk_read, 0);
        assert_eq!(p.uptime_secs, 0);
    }

    let second = collector.collect(
        &vec![sample(1, 40, 1_700, 0), sample(2, 10, 350, 0)],
        &vec![],
        &connections,
        5 * SECOND + 1,
    );
    let by_pid: HashMap<u32, &ProcessMetric> = second.processes.iter().map(|p| (p.pid, p)).collect();
    assert_eq!(by_pid[&1].session_disk_read, 700);
    assert_eq!(by_pid[&1].uptime_secs, 5);
    assert_eq!(by_pid[&1].network_connections, 4);
    assert_eq!(by_pid[&2].session_disk_read, 50);
    assert_eq!(by_pid[&2].network_connections, 0);
    // Per-process network traffic is not measured, so it is never estimated.
    assert!(second.processes.iter().all(|p| p.network_down_bps == 0 && p.network_up_bps == 0));
    assert_eq!(second.processes[0].pid, 1);

    // Process 2 exits: it stays listed with its session totals and no rates.
    let third = collector.collect(&vec![sample(1, 0, 1_700, 0)], &vec![], &connections, 6 * SECOND);
    assert_eq!(third.processes.len(), 2);
    let exited = third.processes.iter().find(|p| p.pid == 2).unwrap();
    assert_eq!(exited.session_disk_read, 50);
    assert_eq!(exited.disk_read_bps, 0);
    assert_eq!(exited.memory_bytes, 0);
    assert_eq!(exited.name, "proc-2");

    // When it comes back under the same pid its uptime starts over.
    let fourth = collector.collect(&vec![sample(1, 0, 1_700, 0), sample(2, 0, 400, 0)], &vec![], &connections, 9 * SECOND);
    let back = fourth.processes.iter().find(|p| p.pid == 2).unwrap();
    assert_eq!(back.uptime_secs, 0);
    assert_eq!(back.session_disk_read, 100);
}

#[test]
fn exited_process_without_activity_is_dropped() {
    let mut collector = SystemCollector::new();
    collector.collect(&vec![sample(1, 0, 100, 0), sample(2, 0, 100, 0)], &vec![], &HashMap::new(), 0);
    let next = collector.collect(&vec![sample(1, 0, 100, 0)], &vec![], &HashMap::new(), SECOND);
    assert_eq!(next.processes.len(), 1);
    assert_eq!(next.processes[0].pid, 1);
}

#[test]
fn reset_restarts_baselines_and_forgets_exited_processes() {
    let mut collector = SystemCollector::new();
    collector.collect(&vec![sample(1, 0, 100, 0), sample(2, 0, 100, 0)], &vec![], &HashMap::new(), 0);
    collector.collect(&vec![sample(1, 0, 200, 0), sample(2, 0, 160, 0)], &vec![], &HashMap::new(), SECOND);
    collector.reset_session_totals();
    let after = collector.collect(&vec![sample(1, 0, 260, 0)], &vec![], &HashMap::new(), 2 * SECOND);
    assert_eq!(after.processes.len(), 1);
    assert_eq!(after.processes[0].session_disk_read, 0);
    // Uptime is kept across a reset.
    assert_eq!(after.processes[0].uptime_secs, 2);
    let later = collector.collect(&vec![sample(1, 0, 300, 0)], &vec![], &HashMap::new(), 3 * SECOND);
    assert_eq!(later.processes[0].session_disk_read, 40);
}
