//! Readings taken from the host's interface and volume lists.
//!
//! The lists are those of the `sysinfo` crate. They are refreshed elsewhere;
//! here their entries are read out and added up. All sums saturate at the
//! largest `u64`.

use vstd::prelude::*;
use vstd::multiset::Multiset;
use sysinfo::{Disks, Networks};
use crate::delta::CounterPair;
use crate::sample::{percentage, saturate_u64, spec_percentage, Sample, MICROS_PER_UNIT};

verus! {

/// Bytes in one gibibyte.
pub const BYTES_PER_GIBIBYTE: u64 = 1_073_741_824;

/// `sysinfo::Networks`, the list of network interfaces, taken as opaque.
#[verifier::external_type_specification]
#[verifier::external_body]
pub struct ExNetworks(sysinfo::Networks);

/// `sysinfo::Disks`, the list of volumes, taken as opaque.
#[verifier::external_type_specification]
#[verifier::external_body]
pub struct ExDisks(sysinfo::Disks);

/// `sysinfo::NetworkData`, one entry of the interface list, taken as opaque.
#[verifier::external_type_specification]
#[verifier::external_body]
pub struct ExNetworkData(sysinfo::NetworkData);

/// `sysinfo::Disk`, one entry of the volume list, taken as opaque.
#[verifier::external_type_specification]
#[verifier::external_body]
pub struct ExDisk(sysinfo::Disk);

/// What a `sysinfo::Networks` list holds: one entry per interface, made of
/// the bytes received and transmitted between its last two refreshes, and
/// the bytes received and transmitted in total, in this order. The list is
/// a hash map, so its entries have no order.
pub uninterp spec fn interface_counters(networks: Networks) -> Multiset<(u64, u64, u64, u64)>;

/// What a `sysinfo::Disks` list holds, in list order: for each volume its
/// total space and its available space, in bytes.
pub uninterp spec fn volume_sizes(disks: Disks) -> Seq<(u64, u64)>;

/// One of the four counters of an interface.
#[derive(Clone, Copy, Debug, PartialEq, Eq, Structural)]
pub enum Counter {
    /// Bytes received in the last interval.
    Received,
    /// Bytes transmitted in the last interval.
    Transmitted,
    /// Bytes received since the interface came up.
    TotalReceived,
    /// Bytes transmitted since the interface came up.
    TotalTransmitted,
}

/// The chosen counter of one interface entry.
pub open spec fn counter_of(entry: (u64, u64, u64, u64), counter: Counter) -> u64 {
    match counter {
        Counter::Received => entry.0,
        Counter::Transmitted => entry.1,
        Counter::TotalReceived => entry.2,
        Counter::TotalTransmitted => entry.3,
    }
}

/// The chosen counter added up over `entries`, without limit.
pub open spec fn sum_counter(entries: Seq<(u64, u64, u64, u64)>, counter: Counter) -> int
    decreases entries.len(),
{
    if entries.len() == 0 {
        0
    } else {
        sum_counter(entries.drop_last(), counter) + counter_of(entries.last(), counter)
    }
}

/// The chosen counter added up over all interfaces of an unordered list.
pub open spec fn total_counter(interfaces: Multiset<(u64, u64, u64, u64)>, counter: Counter) -> int {
    sum_counter(choose|entries: Seq<(u64, u64, u64, u64)>| entries.to_multiset() == interfaces, counter)
}

/// Total space added up over `volumes`, without limit.
pub open spec fn sum_total_space(volumes: Seq<(u64, u64)>) -> int
    decreases volumes.len(),
{
    if volumes.len() == 0 {
        0
    } else {
        sum_total_space(volumes.drop_last()) + volumes.last().0
    }
}

/// Space in use on one volume: what is not available of its total; zero
/// where more is reported available than there is.
pub open spec fn used_space(volume: (u64, u64)) -> int {
    if volume.0 >= volume.1 {
        volume.0 - volume.1
    } else {
        0
    }
}

/// Space in use added up over `volumes`, without limit.
pub open spec fn sum_used_space(volumes: Seq<(u64, u64)>) -> int
    decreases volumes.len(),
{
    if volumes.len() == 0 {
        0
    } else {
        sum_used_space(volumes.drop_last()) + used_space(volumes.last())
    }
}

/// `bytes` in millionths of a gibibyte, rounded down.
pub open spec fn spec_gibibytes_micros(bytes: u64) -> int {
    (bytes as int * MICROS_PER_UNIT as int) / BYTES_PER_GIBIBYTE as int
}

/// Usage of a set of volumes: the percentage in use, then the used and the
/// total space in whole gibibytes.
pub open spec fn spec_disk_usage(volumes: Seq<(u64, u64)>) -> (int, int, int) {
    let total = saturate_u64(sum_total_space(volumes));
    let used = saturate_u64(sum_used_space(volumes));
    (
        spec_percentage(used as u64, total as u64),
        used / BYTES_PER_GIBIBYTE as int,
        total / BYTES_PER_GIBIBYTE as int,
    )
}

/// Reads the entries of a `sysinfo::Networks` list with `received`,
/// `transmitted`, `total_received` and `total_transmitted` of
/// `sysinfo::NetworkData`. Trusted: the entries returned are those that the
/// list holds, each once, in the order in which the map happens to be walked.
#[verifier::external_body]
pub(crate) fn read_interfaces(networks: &Networks) -> (entries: Vec<(u64, u64, u64, u64)>)
    ensures
        entries@.to_multiset() == interface_counters(*networks),
{
    let mut entries = Vec::new();
    for (_name, data) in networks.list().iter() {
        entries.push(
            (data.received(), data.transmitted(), data.total_received(), data.total_transmitted()),
        );
    }
    entries
}

/// Reads the entries of a `sysinfo::Disks` list with `total_space` and
/// `available_space` of `sysinfo::Disk`. Trusted: the entries returned are
/// those that the list holds, in list order.
#[verifier::external_body]
pub(crate) fn read_volumes(disks: &Disks) -> (volumes: Vec<(u64, u64)>)
    ensures
        volumes@ == volume_sizes(*disks),
{
    let mut volumes = Vec::new();
    for disk in disks.list().iter() {
        volumes.push((disk.total_space(), disk.available_space()));
    }
    volumes
}

/// `accumulated + value`, limited to the largest `u64`.
fn add_saturating(accumulated: u64, value: u64) -> (sum: u64)
    ensures
        sum == saturate_u64(accumulated + value),
{
    if value > u64::MAX - accumulated {
        u64::MAX
    } else {
        accumulated + value
    }
}

/// Bytes received and transmitted in the last interval, added up over
/// `entries`.
pub fn sum_deltas(entries: &Vec<(u64, u64, u64, u64)>) -> (d: (u64, u64))
    ensures
        d.0 == saturate_u64(sum_counter(entries@, Counter::Received)),
        d.1 == saturate_u64(sum_counter(entries@, Counter::Transmitted)),
{
    let mut rx: u64 = 0;
    let mut tx: u64 = 0;
    let mut index: usize = 0;
    while index < entries.len()
        invariant
            index <= entries@.len(),
            rx == saturate_u64(sum_counter(entries@.subrange(0, index as int), Counter::Received)),
            tx == saturate_u64(
                sum_counter(entries@.subrange(0, index as int), Counter::Transmitted),
            ),
        decreases entries@.len() - index,
    {
        proof {
            lemma_sum_counter_step(entries@, index as int, Counter::Received);
            lemma_sum_counter_step(entries@, index as int, Counter::Transmitted);
        }
        rx = add_saturating(rx, entries[index].0);
        tx = add_saturating(tx, entries[index].1);
        index += 1;
    }
    assert(entries@.subrange(0, index as int) =~= entries@);
    (rx, tx)
}

/// Bytes received and transmitted in total, added up over `entries`.
pub fn sum_totals(entries: &Vec<(u64, u64, u64, u64)>) -> (totals: CounterPair)
    ensures
        totals.rx == saturate_u64(sum_counter(entries@, Counter::TotalReceived)),
        totals.tx == saturate_u64(sum_counter(entries@, Counter::TotalTransmitted)),
{
    let mut rx: u64 = 0;
    let mut tx: u64 = 0;
    let mut index: usize = 0;
    while index < entries.len()
        invariant
            index <= entries@.len(),
            rx == saturate_u64(
                sum_counter(entries@.subrange(0, index as int), Counter::TotalReceived),
            ),
            tx == saturate_u64(
                sum_counter(entries@.subrange(0, index as int), Counter::TotalTransmitted),
            ),
        decreases entries@.len() - index,
    {
        proof {
            lemma_sum_counter_step(entries@, index as int, Counter::TotalReceived);
            lemma_sum_counter_step(entries@, index as int, Counter::TotalTransmitted);
        }
        rx = add_saturating(rx, entries[index].2);
        tx = add_saturating(tx, entries[index].3);
        index += 1;
    }
    assert(entries@.subrange(0, index as int) =~= entries@);
    CounterPair { rx, tx }
}

/// `bytes` as a size in gibibytes.
pub fn gibibytes(bytes: u64) -> (size: Sample)
    ensures
        size.micros == spec_gibibytes_micros(bytes),
        0 <= size.micros,
{
    let scaled: u128 = (bytes as u128) * 1_000_000;
    let micros: u128 = scaled / 1_073_741_824;
    Sample { micros: micros as i64 }
}

/// Usage of `volumes`, each given as total and available bytes: the
/// percentage in use (zero where the total is zero), then used and total
/// space in whole gibibytes.
pub fn disk_usage(volumes: &Vec<(u64, u64)>) -> (usage: (Sample, u64, u64))
    ensures
        usage.0.micros == spec_disk_usage(volumes@).0,
        usage.1 == spec_disk_usage(volumes@).1,
        usage.2 == spec_disk_usage(volumes@).2,
        0 <= usage.0.micros <= 100_000_000,
        usage.1 <= usage.2,
{
    let mut total: u64 = 0;
    let mut used: u64 = 0;
    let mut index: usize = 0;
    while index < volumes.len()
        invariant
            index <= volumes@.len(),
            total == saturate_u64(sum_total_space(volumes@.subrange(0, index as int))),
            used == saturate_u64(sum_used_space(volumes@.subrange(0, index as int))),
            0 <= sum_used_space(volumes@.subrange(0, index as int)) <= sum_total_space(
                volumes@.subrange(0, index as int),
            ),
        decreases volumes@.len() - index,
    {
        assert(volumes@.subrange(0, index + 1).drop_last() =~= volumes@.subrange(0, index as int));
        let volume = volumes[index];
        let in_use: u64 = if volume.0 >= volume.1 {
            volume.0 - volume.1
        } else {
            0
        };
        total = add_saturating(total, volume.0);
        used = add_saturating(used, in_use);
        index += 1;
    }
    assert(volumes@.subrange(0, index as int) =~= volumes@);
    (percentage(used, total), used / BYTES_PER_GIBIBYTE, total / BYTES_PER_GIBIBYTE)
}

/// Bytes received and transmitted over all interfaces of `networks` in the
/// last refresh interval.
pub fn network_deltas(networks: &Networks) -> (d: (u64, u64))
    ensures
        d.0 == saturate_u64(total_counter(interface_counters(*networks), Counter::Received)),
        d.1 == saturate_u64(total_counter(interface_counters(*networks), Counter::Transmitted)),
{
    let entries = read_interfaces(networks);
    proof {
        lemma_total_of_listing(entries@, Counter::Received);
        lemma_total_of_listing(entries@, Counter::Transmitted);
    }
    sum_deltas(&entries)
}

/// Cumulative bytes received and transmitted over all interfaces of
/// `networks`.
pub fn network_counters(networks: &Networks) -> (totals: CounterPair)
    ensures
        totals.rx == saturate_u64(
            total_counter(interface_counters(*networks), Counter::TotalReceived),
        ),
        totals.tx == saturate_u64(
            total_counter(interface_counters(*networks), Counter::TotalTransmitted),
        ),
{
    let entries = read_interfaces(networks);
    proof {
        lemma_total_of_listing(entries@, Counter::TotalReceived);
        lemma_total_of_listing(entries@, Counter::TotalTransmitted);
    }
    sum_totals(&entries)
}

/// Cumulative traffic over all interfaces of `networks`, received and
/// transmitted, in gibibytes.
pub fn network_totals(networks: &Networks) -> (totals: (Sample, Sample))
    ensures
        totals.0.micros == spec_gibibytes_micros(
            saturate_u64(
                total_counter(interface_counters(*networks), Counter::TotalReceived),
            ) as u64,
        ),
        totals.1.micros == spec_gibibytes_micros(
            saturate_u64(
                total_counter(interface_counters(*networks), Counter::TotalTransmitted),
            ) as u64,
        ),
{
    let bytes = network_counters(networks);
    (gibibytes(bytes.rx), gibibytes(bytes.tx))
}

/// Usage over all volumes of `disks`: the percentage in use, then used and
/// total space in whole gibibytes.
pub fn get_disk_usage(disks: &Disks) -> (usage: (Sample, u64, u64))
    ensures
        usage.0.micros == spec_disk_usage(volume_sizes(*disks)).0,
        usage.1 == spec_disk_usage(volume_sizes(*disks)).1,
        usage.2 == spec_disk_usage(volume_sizes(*disks)).2,
{
    let volumes = read_volumes(disks);
    disk_usage(&volumes)
}

/// Taking one more entry into a sum adds its counter.
proof fn lemma_sum_counter_step(entries: Seq<(u64, u64, u64, u64)>, index: int, counter: Counter)
    requires
        0 <= index < entries.len(),
    ensures
        sum_counter(entries.subrange(0, index + 1), counter) == sum_counter(
            entries.subrange(0, index),
            counter,
        ) + counter_of(entries[index], counter),
        0 <= sum_counter(entries.subrange(0, index), counter),
{
    assert(entries.subrange(0, index + 1).drop_last() =~= entries.subrange(0, index));
    lemma_sum_counter_nonnegative(entries.subrange(0, index), counter);
}

/// A sum of counters is not negative.
pub proof fn lemma_sum_counter_nonnegative(entries: Seq<(u64, u64, u64, u64)>, counter: Counter)
    ensures
        0 <= sum_counter(entries, counter),
    decreases entries.len(),
{
    if entries.len() > 0 {
        lemma_sum_counter_nonnegative(entries.drop_last(), counter);
    }
}

/// Leaving one entry out of a sum takes its counter away.
pub proof fn lemma_sum_counter_remove(
    entries: Seq<(u64, u64, u64, u64)>,
    index: int,
    counter: Counter,
)
    requires
        0 <= index < entries.len(),
    ensures
        sum_counter(entries, counter) == sum_counter(entries.remove(index), counter) + counter_of(
            entries[index],
            counter,
        ),
    decreases entries.len(),
{
    if index == entries.len() - 1 {
        assert(entries.remove(index) =~= entries.drop_last());
    } else {
        lemma_sum_counter_remove(entries.drop_last(), index, counter);
        assert(entries.remove(index).drop_last() =~= entries.drop_last().remove(index));
        assert(entries.remove(index).last() == entries.last());
    }
}

/// The sum of a counter does not depend on the order of the entries: two
/// listings of the same interfaces give the same sum.
pub proof fn lemma_sum_counter_unordered(
    first: Seq<(u64, u64, u64, u64)>,
    second: Seq<(u64, u64, u64, u64)>,
    counter: Counter,
)
    requires
        first.to_multiset() == second.to_multiset(),
    ensures
        sum_counter(first, counter) == sum_counter(second, counter),
    decreases first.len(),
{
    broadcast use vstd::seq_lib::group_to_multiset_ensures;

    first.to_multiset_ensures();
    second.to_multiset_ensures();
    if first.len() == 0 {
        assert(second.to_multiset().len() == 0);
    } else {
        let entry = first.last();
        let earlier = first.drop_last();
        assert(earlier.push(entry) =~= first);
        assert(first.to_multiset() =~= earlier.to_multiset().insert(entry));
        assert(second.to_multiset().count(entry) > 0);
        assert(second.contains(entry));
        let at = choose|at: int| 0 <= at < second.len() && second[at] == entry;
        let others = second.remove(at);
        assert(others.to_multiset() =~= second.to_multiset().remove(entry));
        assert(earlier.to_multiset() =~= others.to_multiset());
        lemma_sum_counter_unordered(earlier, others, counter);
        lemma_sum_counter_remove(second, at, counter);
    }
}

/// The total over an unordered list is the sum over any listing of it.
pub proof fn lemma_total_of_listing(entries: Seq<(u64, u64, u64, u64)>, counter: Counter)
    ensures
        total_counter(entries.to_multiset(), counter) == sum_counter(entries, counter),
{
    let chosen = choose|listing: Seq<(u64, u64, u64, u64)>|
        listing.to_multiset() == entries.to_multiset();
    lemma_sum_counter_unordered(chosen, entries, counter);
}

} // verus!
