use monitor_app::delta::CounterPair;
use monitor_app::sample::Sample;
use monitor_app::telemetry::{
    disk_usage, get_disk_usage, gibibytes, network_counters, network_deltas, network_totals,
    sum_deltas, sum_totals,
};
use sysinfo::{Disks, Networks};

const GIB: u64 = 1_073_741_824;

#[test]
fn sums_over_no_interfaces_are_zero() {
    assert_eq!(sum_deltas(&vec![]), (0, 0));
    assert_eq!(sum_totals(&vec![]), CounterPair { rx: 0, tx: 0 });
}

#[test]
fn deltas_add_up_over_interfaces() {
    let entries = vec![(10, 1, 1000, 100), (20, 2, 2000, 200), (30, 3, 3000, 300)];
    assert_eq!(sum_deltas(&entries), (60, 6));
    assert_eq!(sum_totals(&entries), CounterPair { rx: 6000, tx: 600 });
}

#[test]
fn sums_do_not_depend_on_the_order_of_interfaces() {
    let one = vec![(1, 2, 3, 4), (50, 60, 70, 80), (900, 800, 700, 600)];
    let other = vec![(900, 800, 700, 600), (1, 2, 3, 4), (50, 60, 70, 80)];
    assert_eq!(sum_deltas(&one), sum_deltas(&other));
    assert_eq!(sum_totals(&one), sum_totals(&other));
}

#[test]
fn sums_saturate() {
    let entries = vec![(u64::MAX, 1, u64::MAX - 1, 5), (1, 2, 1, 6), (7, 3, 9, u64::MAX)];
    assert_eq!(sum_deltas(&entries), (u64::MAX, 6));
    assert_eq!(sum_totals(&entries), CounterPair { rx: u64::MAX, tx: u64::MAX });
}

#[test]
fn gibibytes_are_bytes_over_two_to_the_thirty() {
    assert_eq!(gibibytes(0), Sample::zero());
    assert_eq!(gibibytes(GIB), Sample::from_units(1));
    assert_eq!(gibibytes(GIB + GIB / 2).micros(), 1_500_000);
    assert_eq!(gibibytes(GIB - 1).micros(), 999_999);
    assert_eq!(gibibytes(u64::MAX).micros(), 17_179_869_183_999_999);
}

#[test]
fn disk_usage_of_no_volumes_is_zero() {
    assert_eq!(disk_usage(&vec![]), (Sample::zero(), 0, 0));
}

#[test]
fn disk_usage_adds_up_volumes() {
    let volumes = vec![(100 * GIB, 25 * GIB), (50 * GIB, 50 * GIB)];
    assert_eq!(disk_usage(&volumes), (Sample::from_units(50), 75, 150));
}

#[test]
fn disk_usage_rounds_gibibytes_down() {
    let volumes = vec![(3 * GIB - 1, GIB)];
    let (percent, used_gb, total_gb) = disk_usage(&volumes);
    assert_eq!(used_gb, 1);
    assert_eq!(total_gb, 2);
    assert_eq!(percent.micros(), 66_666_666);
}

#[test]
fn disk_usage_guards_a_zero_total() {
    assert_eq!(disk_usage(&vec![(0, 0)]), (Sample::zero(), 0, 0));
    assert_eq!(disk_usage(&vec![(0, 5 * GIB)]), (Sample::zero(), 0, 0));
}

#[test]
fn disk_usage_counts_nothing_used_where_more_is_available_than_there_is() {
    let volumes = vec![(10 * GIB, 20 * GIB), (10 * GIB, 0)];
    assert_eq!(disk_usage(&volumes), (Sample::from_units(50), 10, 20));
}

#[test]
fn disk_usage_saturates() {
    let volumes = vec![(u64::MAX, 0), (u64::MAX, u64::MAX)];
    let (percent, used_gb, total_gb) = disk_usage(&volumes);
    assert_eq!(percent, Sample::from_units(100));
    assert_eq!(used_gb, u64::MAX / GIB);
    assert_eq!(total_gb, u64::MAX / GIB);
}

#[test]
fn empty_interface_list_has_no_traffic() {
    let networks = Networks::new();
    assert_eq!(network_deltas(&networks), (0, 0));
    assert_eq!(network_counters(&networks), CounterPair { rx: 0, tx: 0 });
    assert_eq!(network_totals(&networks), (Sample::zero(), Sample::zero()));
}

#[test]
fn empty_volume_list_has_no_usage() {
    let disks = Disks::new();
    assert_eq!(get_disk_usage(&disks), (Sample::zero(), 0, 0));
}

#[test]
fn refreshed_interface_list_is_read_entry_by_entry() {
    let networks = Networks::new_with_refreshed_list();
    let mut rx = 0u64;
    let mut tx = 0u64;
    let mut total_rx = 0u64;
    let mut total_tx = 0u64;
    for (_name, data) in networks.list().iter() {
        rx = rx.saturating_add(data.received());
        tx = tx.saturating_add(data.transmitted());
        total_rx = total_rx.saturating_add(data.total_received());
        total_tx = total_tx.saturating_add(data.total_transmitted());
    }
    assert_eq!(network_deltas(&networks), (rx, tx));
    assert_eq!(network_counters(&networks), CounterPair { rx: total_rx, tx: total_tx });
    assert_eq!(network_totals(&networks), (gibibytes(total_rx), gibibytes(total_tx)));
}

#[test]
fn refreshed_volume_list_is_read_entry_by_entry() {
    let disks = Disks::new_with_refreshed_list();
    let volumes: Vec<(u64, u64)> =
        disks.list().iter().map(|d| (d.total_space(), d.available_space())).collect();
    assert_eq!(get_disk_usage(&disks), disk_usage(&volumes));
}
