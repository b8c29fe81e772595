use stomata::tracker::{
    DiskUsage, NetworkInterfaceData, NetworkInterfaces, NetworkTracker, SingleProcessDiskUsage,
    DISK_HISTORY_LIMIT, NETWORK_HISTORY_CAPACITY,
};

fn disk(read: u64, written: u64) -> DiskUsage {
    DiskUsage {
        total_written_bytes: 0,
        written_bytes: written,
        total_read_bytes: 0,
        read_bytes: read,
    }
}

fn snapshot(name: &str, v: u64) -> NetworkInterfaces {
    NetworkInterfaces {
        name: name.to_string(),
        bytes_received: v,
        bytes_transmitted: v + 1,
        packets_received: v + 2,
        packets_transmitted: v + 3,
        errors_on_received: v + 4,
        errors_on_transmitted: v + 5,
        total_bytes_received: 0,
        total_bytes_transmitted: 0,
        total_packets_received: 0,
        total_packets_transmitted: 0,
        total_errors_on_received: 0,
        total_errors_on_transmitted: 0,
    }
}

#[test]
fn disk_history_appends_for_same_pid() {
    let mut d = SingleProcessDiskUsage::default();
    d.update_disk_history(0, &disk(1, 2));
    d.update_disk_history(0, &disk(3, 4));
    assert_eq!(d.disk_read_usage, vec![1, 3]);
    assert_eq!(d.disk_write_usage, vec![2, 4]);
}

#[test]
fn switching_pid_clears_history() {
    let mut d = SingleProcessDiskUsage::default();
    d.update_disk_history(100, &disk(10, 11));
    d.update_disk_history(100, &disk(12, 13));
    assert_eq!(d.pid, 100);
    d.update_disk_history(200, &disk(50, 51));
    assert_eq!(d.pid, 200);
    assert_eq!(d.disk_read_usage, vec![50]);
    assert_eq!(d.disk_write_usage, vec![51]);
}

#[test]
fn disk_history_is_bounded() {
    let mut d = SingleProcessDiskUsage::default();
    for i in 0..(DISK_HISTORY_LIMIT as u64 + 5) {
        d.update_disk_history(7, &disk(i, i * 2));
    }
    assert_eq!(d.disk_read_usage.len(), DISK_HISTORY_LIMIT);
    assert_eq!(d.disk_read_usage.front(), Some(&5));
    assert_eq!(d.disk_read_usage.back(), Some(&(DISK_HISTORY_LIMIT as u64 + 4)));
    assert_eq!(d.disk_write_usage.len(), DISK_HISTORY_LIMIT);
}

#[test]
fn interface_history_records_all_six_counters() {
    let mut h = NetworkInterfaceData::default();
    h.update_network_history(&snapshot("eth0", 10));
    assert_eq!(h.received_bytes.make_contiguous().to_vec(), vec![10]);
    assert_eq!(h.transmitted_bytes.make_contiguous().to_vec(), vec![11]);
    assert_eq!(h.packets_received.make_contiguous().to_vec(), vec![12]);
    assert_eq!(h.packets_transmitted.make_contiguous().to_vec(), vec![13]);
    assert_eq!(h.errors_received.make_contiguous().to_vec(), vec![14]);
    assert_eq!(h.errors_transmitted.make_contiguous().to_vec(), vec![15]);
}

#[test]
fn interface_history_clamps_spikes() {
    let mut h = NetworkInterfaceData::default();
    for _ in 0..20 {
        h.update_network_history(&snapshot("eth0", 100));
    }
    h.update_network_history(&snapshot("eth0", 1_000_000));
    let rx = h.received_bytes.make_contiguous().to_vec();
    assert_eq!(rx.len(), 21);
    assert_eq!(*rx.last().unwrap(), 100);
}

#[test]
fn interface_history_capacity() {
    let mut h = NetworkInterfaceData::default();
    for i in 0..(NETWORK_HISTORY_CAPACITY as u64 + 3) {
        h.update_network_history(&snapshot("lo", i));
    }
    assert_eq!(h.received_bytes.len(), NETWORK_HISTORY_CAPACITY);
}

#[test]
fn tracker_creates_and_keeps_interfaces() {
    let mut t = NetworkTracker::new();
    assert_eq!(t.len(), 0);
    t.update(&vec![snapshot("eth0", 1), snapshot("wlan0", 5)]);
    assert_eq!(t.len(), 2);
    // wlan0 absent from the next refresh keeps its history.
    t.update(&vec![snapshot("eth0", 2)]);
    assert_eq!(t.len(), 2);
    let mut eth = Vec::new();
    let mut wlan = Vec::new();
    if let Some(h) = t.history(&"eth0".to_string()) {
        eth.push(h.received_bytes.len());
    }
    if let Some(h) = t.history(&"wlan0".to_string()) {
        wlan.push(h.received_bytes.len());
    }
    assert_eq!(eth, vec![2]);
    assert_eq!(wlan, vec![1]);
    assert!(t.history(&"docker0".to_string()).is_none());
}

#[test]
fn tracker_records_values_under_the_right_name() {
    let mut t = NetworkTracker::new();
    t.record(&snapshot("a", 3));
    t.record(&snapshot("b", 9));
    t.record(&snapshot("a", 4));
    let a = t.history(&"a".to_string()).unwrap();
    assert_eq!(a.received_bytes.len(), 2);
    let b = t.history(&"b".to_string()).unwrap();
    assert_eq!(b.received_bytes.len(), 1);
}
