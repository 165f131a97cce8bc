//! One tick of sampling: from the provider's lists to the view model.
//!
//! Refreshing the lists is the caller's part. A list whose refresh failed is
//! passed as `None`; its metrics then keep their previous reading and their
//! histories get no entry.

use vstd::prelude::*;
use vstd::multiset::Multiset;
use sysinfo::{Disks, Networks};
use crate::history::retained;
use crate::sample::Sample;
use crate::delta::CounterPair;
use crate::sample::saturate_u64;
use crate::telemetry::{
    interface_counters, lemma_sum_counter_unordered, lemma_total_of_listing, read_interfaces,
    read_volumes, total_counter, volume_sizes, Counter,
};
use crate::view_model::{
    spec_counters_of, spec_cumulative, spec_ram_percent, spec_select, spec_step, spec_tick,
    window_of, BatteryReading, Measurement, Metric, MetricsConfig, SystemCounters, ViewId,
    ViewModel, ViewModelView,
};

verus! {

/// Milliseconds from one tick to the next. Rates are per tick, and this is
/// what makes them rates per second.
pub const TICK_INTERVAL_MS: u64 = 1_000;

/// Whether `measurement` is what the given lists and values hold: values as
/// passed, volumes in list order, interfaces in any order.
pub open spec fn measured(
    measurement: Measurement,
    system: Option<SystemCounters>,
    networks: Option<&Networks>,
    disks: Option<&Disks>,
    battery: Option<BatteryReading>,
) -> bool {
    &&& measurement.system == system
    &&& measurement.battery == battery
    &&& match networks {
        Some(list) => measurement.interfaces is Some
            && measurement.interfaces->0@.to_multiset() == interface_counters(*list),
        None => measurement.interfaces is None,
    }
    &&& match disks {
        Some(list) => measurement.volumes is Some && measurement.volumes->0@ == volume_sizes(
            *list,
        ),
        None => measurement.volumes is None,
    }
}

/// The cumulative counters over all interfaces of an unordered list.
pub open spec fn spec_cumulative_total(interfaces: Multiset<(u64, u64, u64, u64)>) -> CounterPair {
    CounterPair {
        rx: saturate_u64(total_counter(interfaces, Counter::TotalReceived)) as u64,
        tx: saturate_u64(total_counter(interfaces, Counter::TotalTransmitted)) as u64,
    }
}

/// The model after one tick that read the given lists and values.
pub open spec fn spec_sample(
    model: ViewModelView,
    system: Option<SystemCounters>,
    networks: Option<&Networks>,
    disks: Option<&Disks>,
    battery: Option<BatteryReading>,
) -> ViewModelView {
    spec_step(
        model,
        system,
        match networks {
            Some(list) => Some(spec_cumulative_total(interface_counters(*list))),
            None => None,
        },
        match disks {
            Some(list) => Some(volume_sizes(*list)),
            None => None,
        },
        battery,
    )
}

/// Whether every history of `model` holds no more than its capacity.
pub open spec fn all_bounded(model: ViewModelView) -> bool {
    forall|metric: Metric| (#[trigger] window_of(model, metric)).bounded()
}

/// The model after the ticks of `measurements`, one after the other.
pub open spec fn spec_run(model: ViewModelView, measurements: Seq<Measurement>) -> ViewModelView
    decreases measurements.len(),
{
    if measurements.len() == 0 {
        model
    } else {
        spec_tick(spec_run(model, measurements.drop_last()), measurements.last())
    }
}

/// Whether a tick with `measurement` has a value for `metric`: its class is
/// tracked and was read.
pub open spec fn is_read(measurement: Measurement, metric: Metric, config: MetricsConfig) -> bool {
    match metric {
        Metric::Cpu => measurement.system is Some,
        Metric::Ram => measurement.system is Some,
        Metric::Down => config.network && measurement.interfaces is Some,
        Metric::Up => config.network && measurement.interfaces is Some,
        Metric::Disk => config.disk && measurement.volumes is Some,
        Metric::Battery => config.battery && measurement.battery is Some,
    }
}

/// How many of `measurements` have a value for `metric`.
pub open spec fn reads(measurements: Seq<Measurement>, metric: Metric, config: MetricsConfig) -> nat
    decreases measurements.len(),
{
    if measurements.len() == 0 {
        0
    } else {
        reads(measurements.drop_last(), metric, config) + if is_read(
            measurements.last(),
            metric,
            config,
        ) {
            1nat
        } else {
            0nat
        }
    }
}

/// The processor loads that `measurements` hold, in order.
pub open spec fn cpu_values(measurements: Seq<Measurement>) -> Seq<Sample>
    decreases measurements.len(),
{
    if measurements.len() == 0 {
        Seq::empty()
    } else {
        match measurements.last().system {
            Some(counters) => cpu_values(measurements.drop_last()).push(counters.cpu),
            None => cpu_values(measurements.drop_last()),
        }
    }
}

/// The memory percentages that `measurements` give, in order.
pub open spec fn ram_values(measurements: Seq<Measurement>) -> Seq<Sample>
    decreases measurements.len(),
{
    if measurements.len() == 0 {
        Seq::empty()
    } else {
        match measurements.last().system {
            Some(counters) => ram_values(measurements.drop_last()).push(
                spec_ram_percent(counters),
            ),
            None => ram_values(measurements.drop_last()),
        }
    }
}

/// Reads the entries of the lists into a measurement.
pub fn measure(
    system: Option<SystemCounters>,
    networks: Option<&Networks>,
    disks: Option<&Disks>,
    battery: Option<BatteryReading>,
) -> (measurement: Measurement)
    ensures
        measured(measurement, system, networks, disks, battery),
{
    let interfaces = match networks {
        Some(list) => Some(read_interfaces(list)),
        None => None,
    };
    let volumes = match disks {
        Some(list) => Some(read_volumes(list)),
        None => None,
    };
    Measurement { system, interfaces, volumes, battery }
}

/// One tick: reads the lists and takes the measurement into `state`.
pub fn sample(
    state: &mut ViewModel,
    system: Option<SystemCounters>,
    networks: Option<&Networks>,
    disks: Option<&Disks>,
    battery: Option<BatteryReading>,
)
    ensures
        final(state)@ == spec_sample(old(state)@, system, networks, disks, battery),
{
    let measurement = measure(system, networks, disks, battery);
    proof {
        lemma_tick_of_measured(old(state)@, measurement, system, networks, disks, battery);
    }
    state.tick(&measurement);
}

/// A tick with a measurement of the lists is the tick that read the lists,
/// in whatever order the interfaces were listed.
pub proof fn lemma_tick_of_measured(
    model: ViewModelView,
    measurement: Measurement,
    system: Option<SystemCounters>,
    networks: Option<&Networks>,
    disks: Option<&Disks>,
    battery: Option<BatteryReading>,
)
    requires
        measured(measurement, system, networks, disks, battery),
    ensures
        spec_tick(model, measurement) == spec_sample(model, system, networks, disks, battery),
{
    if let Some(list) = networks {
        let entries = measurement.interfaces->0@;
        lemma_total_of_listing(entries, Counter::TotalReceived);
        lemma_total_of_listing(entries, Counter::TotalTransmitted);
        assert(spec_cumulative(entries) == spec_cumulative_total(interface_counters(*list)));
    }
}

/// The order in which the interfaces are listed makes no difference to a
/// tick.
pub proof fn lemma_tick_ignores_interface_order(
    model: ViewModelView,
    first: Measurement,
    second: Measurement,
)
    requires
        first.system == second.system,
        first.battery == second.battery,
        first.volumes == second.volumes,
        first.interfaces is Some <==> second.interfaces is Some,
        first.interfaces is Some ==> first.interfaces->0@.to_multiset()
            == second.interfaces->0@.to_multiset(),
    ensures
        spec_tick(model, first) == spec_tick(model, second),
{
    if first.interfaces is Some {
        let a = first.interfaces->0@;
        let b = second.interfaces->0@;
        lemma_sum_counter_unordered(a, b, Counter::TotalReceived);
        lemma_sum_counter_unordered(a, b, Counter::TotalTransmitted);
        assert(spec_cumulative(a) == spec_cumulative(b));
    }
    assert(spec_counters_of(first) == spec_counters_of(second));
}

/// Sampling does not depend on the selected view, and leaves it alone:
/// selecting before a tick or after it gives the same model.
pub proof fn lemma_selection_and_sampling_commute(
    model: ViewModelView,
    measurement: Measurement,
    view: ViewId,
)
    ensures
        spec_tick(spec_select(model, view), measurement) == spec_select(
            spec_tick(model, measurement),
            view,
        ),
        spec_tick(model, measurement).selected == model.selected,
        spec_tick(model, measurement).config == model.config,
{
}

/// Selecting a view touches neither the reading nor any history, and every
/// view can be reached from every other in one step.
pub proof fn lemma_selection_is_local(model: ViewModelView, view: ViewId)
    ensures
        spec_select(model, view).selected == view,
        spec_select(model, view).reading == model.reading,
        spec_select(model, view).previous == model.previous,
        forall|metric: Metric| #[trigger]
            window_of(spec_select(model, view), metric) == window_of(model, metric),
{
}

/// A class whose read failed, or which is not tracked, keeps its reading,
/// and its histories get no entry.
pub proof fn lemma_failed_read_is_skipped(model: ViewModelView, measurement: Measurement)
    ensures
        measurement.system is None ==> {
            &&& spec_tick(model, measurement).cpu == model.cpu
            &&& spec_tick(model, measurement).ram == model.ram
            &&& spec_tick(model, measurement).reading.cpu == model.reading.cpu
            &&& spec_tick(model, measurement).reading.ram_percent == model.reading.ram_percent
            &&& spec_tick(model, measurement).reading.used_mem_mb == model.reading.used_mem_mb
            &&& spec_tick(model, measurement).reading.total_mem_mb == model.reading.total_mem_mb
        },
        measurement.interfaces is None || !model.config.network ==> {
            &&& spec_tick(model, measurement).down == model.down
            &&& spec_tick(model, measurement).up == model.up
            &&& spec_tick(model, measurement).reading.network == model.reading.network
            &&& spec_tick(model, measurement).previous == model.previous
        },
        measurement.volumes is None || !model.config.disk ==> {
            &&& spec_tick(model, measurement).disk == model.disk
            &&& spec_tick(model, measurement).reading.disk == model.reading.disk
        },
        measurement.battery is None || !model.config.battery ==> {
            &&& spec_tick(model, measurement).battery == model.battery
            &&& spec_tick(model, measurement).reading.battery == model.reading.battery
        },
{
}

/// A class that was read and is tracked gets exactly one push per history,
/// and the remembered counters become those of this tick.
pub proof fn lemma_successful_read_is_pushed(model: ViewModelView, measurement: Measurement)
    ensures
        measurement.system is Some ==> {
            &&& spec_tick(model, measurement).cpu == model.cpu.push(measurement.system->0.cpu)
            &&& spec_tick(model, measurement).ram == model.ram.push(
                spec_tick(model, measurement).reading.ram_percent,
            )
        },
        measurement.interfaces is Some && model.config.network ==> {
            &&& spec_tick(model, measurement).reading.network is Some
            &&& spec_tick(model, measurement).down == model.down.push(
                spec_tick(model, measurement).reading.network->0.down,
            )
            &&& spec_tick(model, measurement).up == model.up.push(
                spec_tick(model, measurement).reading.network->0.up,
            )
            &&& spec_tick(model, measurement).previous == spec_cumulative(
                measurement.interfaces->0@,
            )
        },
        measurement.volumes is Some && model.config.disk ==> {
            &&& spec_tick(model, measurement).reading.disk is Some
            &&& spec_tick(model, measurement).disk == model.disk.push(
                spec_tick(model, measurement).reading.disk->0.percent,
            )
        },
        measurement.battery is Some && model.config.battery ==> {
            &&& spec_tick(model, measurement).reading.battery == measurement.battery
            &&& spec_tick(model, measurement).battery == model.battery.push(
                measurement.battery->0.percent,
            )
        },
{
}

/// A tick keeps every history within its capacity and adds at most one
/// entry to each.
pub proof fn lemma_tick_keeps_histories_bounded(model: ViewModelView, measurement: Measurement)
    requires
        all_bounded(model),
    ensures
        all_bounded(spec_tick(model, measurement)),
        forall|metric: Metric| #[trigger]
            window_of(spec_tick(model, measurement), metric).entries.len() <= window_of(
                model,
                metric,
            ).entries.len() + 1,
        forall|metric: Metric| #[trigger]
            window_of(spec_tick(model, measurement), metric).capacity == window_of(
                model,
                metric,
            ).capacity,
{
    let after = spec_tick(model, measurement);
    assert forall|metric: Metric| {
        &&& (#[trigger] window_of(after, metric)).bounded()
        &&& window_of(after, metric).entries.len() <= window_of(model, metric).entries.len() + 1
        &&& window_of(after, metric).capacity == window_of(model, metric).capacity
    } by {
        assert(window_of(model, metric).bounded());
        lemma_tick_length(model, measurement, metric);
    }
}

/// One tick adds one entry to the history of a metric that was read, until
/// the history is full, and none to the history of a metric that was not.
pub proof fn lemma_tick_length(model: ViewModelView, measurement: Measurement, metric: Metric)
    requires
        window_of(model, metric).bounded(),
    ensures
        window_of(spec_tick(model, measurement), metric).capacity == window_of(
            model,
            metric,
        ).capacity,
        window_of(spec_tick(model, measurement), metric).bounded(),
        is_read(measurement, metric, model.config) ==> window_of(
            spec_tick(model, measurement),
            metric,
        ).entries.len() == if window_of(model, metric).entries.len() < window_of(
            model,
            metric,
        ).capacity {
            window_of(model, metric).entries.len() + 1
        } else {
            window_of(model, metric).entries.len()
        },
        !is_read(measurement, metric, model.config) ==> window_of(
            spec_tick(model, measurement),
            metric,
        ) == window_of(model, metric),
{
    lemma_successful_read_is_pushed(model, measurement);
    lemma_failed_read_is_skipped(model, measurement);
}

/// Over any run of ticks, each history grows by the number of ticks that
/// read its metric, up to its capacity. So a metric whose read failed on
/// some ticks has that many entries fewer than one that was read on all.
pub proof fn lemma_run_lengths(
    model: ViewModelView,
    measurements: Seq<Measurement>,
    metric: Metric,
)
    requires
        window_of(model, metric).bounded(),
    ensures
        spec_run(model, measurements).config == model.config,
        spec_run(model, measurements).selected == model.selected,
        window_of(spec_run(model, measurements), metric).capacity == window_of(
            model,
            metric,
        ).capacity,
        window_of(spec_run(model, measurements), metric).entries.len() == if window_of(
            model,
            metric,
        ).entries.len() + reads(measurements, metric, model.config) <= window_of(
            model,
            metric,
        ).capacity {
            window_of(model, metric).entries.len() + reads(measurements, metric, model.config)
        } else {
            window_of(model, metric).capacity
        },
    decreases measurements.len(),
{
    if measurements.len() > 0 {
        let earlier = measurements.drop_last();
        lemma_run_lengths(model, earlier, metric);
        lemma_tick_length(spec_run(model, earlier), measurements.last(), metric);
    }
}

/// Over any run of ticks, the histories of processor load and memory hold
/// the newest values that the ticks have read, oldest first, as many as the
/// capacity allows.
pub proof fn lemma_run_keeps_newest(model: ViewModelView, measurements: Seq<Measurement>)
    requires
        model.cpu.bounded(),
        model.ram.bounded(),
    ensures
        spec_run(model, measurements).cpu.capacity == model.cpu.capacity,
        spec_run(model, measurements).ram.capacity == model.ram.capacity,
        spec_run(model, measurements).cpu.entries == retained(
            model.cpu.entries + cpu_values(measurements),
            model.cpu.capacity,
        ),
        spec_run(model, measurements).ram.entries == retained(
            model.ram.entries + ram_values(measurements),
            model.ram.capacity,
        ),
    decreases measurements.len(),
{
    if measurements.len() == 0 {
        assert(model.cpu.entries + cpu_values(measurements) =~= model.cpu.entries);
        assert(model.ram.entries + ram_values(measurements) =~= model.ram.entries);
    } else {
        let earlier = measurements.drop_last();
        let last = measurements.last();
        lemma_run_keeps_newest(model, earlier);
        let before = spec_run(model, earlier);
        lemma_successful_read_is_pushed(before, last);
        lemma_failed_read_is_skipped(before, last);
        match last.system {
            Some(counters) => {
                let cpus = model.cpu.entries + cpu_values(earlier);
                let rams = model.ram.entries + ram_values(earlier);
                assert(cpus.push(counters.cpu) =~= model.cpu.entries + cpu_values(measurements));
                assert(rams.push(spec_ram_percent(counters)) =~= model.ram.entries + ram_values(
                    measurements,
                ));
                assert(retained(
                    retained(cpus, model.cpu.capacity).push(counters.cpu),
                    model.cpu.capacity,
                ) =~= retained(cpus.push(counters.cpu), model.cpu.capacity));
                assert(retained(
                    retained(rams, model.ram.capacity).push(spec_ram_percent(counters)),
                    model.ram.capacity,
                ) =~= retained(rams.push(spec_ram_percent(counters)), model.ram.capacity));
            },
            None => {},
        }
    }
}

} // verus!
