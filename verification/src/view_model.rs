//! The read model that a renderer draws from, and the two ways to change it:
//! taking in the measurement of a tick, and selecting a view.

use vstd::prelude::*;
use crate::delta::{megabits_per_second, spec_delta, spec_rate_micros, CounterPair, DeltaTracker};
use crate::history::{RollingHistory, Window, HISTORY_CAPACITY};
use crate::sample::{percentage, saturate_u64, spec_percentage, Sample};
use crate::telemetry::{disk_usage, spec_disk_usage, sum_counter, sum_totals, Counter};

verus! {

/// Units of the provider's memory counters in one unit of the readings.
pub const MEMORY_DIVISOR: u64 = 1024;

/// The views a user can select. The selection decides what is shown, never
/// what is sampled.
#[derive(Clone, Copy, Debug, PartialEq, Eq, Structural)]
pub enum ViewId {
    System,
    Network,
    Power,
}

/// The plotted metrics, one rolling history each.
#[derive(Clone, Copy, Debug, PartialEq, Eq, Structural)]
pub enum Metric {
    Cpu,
    Ram,
    Down,
    Up,
    Battery,
    Disk,
}

/// Which optional classes of metrics are tracked.
#[derive(Clone, Copy, Debug, PartialEq, Eq, Structural)]
pub struct MetricsConfig {
    pub network: bool,
    pub disk: bool,
    pub battery: bool,
}

/// Network throughput of one tick, in megabits per second.
#[derive(Clone, Copy, Debug, PartialEq, Eq, Structural)]
pub struct NetworkReading {
    pub down: Sample,
    pub up: Sample,
}

/// Disk usage over all volumes.
#[derive(Clone, Copy, Debug, PartialEq, Eq, Structural)]
pub struct DiskReading {
    pub percent: Sample,
    pub used_gb: u64,
    pub total_gb: u64,
}

/// Battery charge in percent, and whether the battery is charging.
#[derive(Clone, Copy, Debug, PartialEq, Eq, Structural)]
pub struct BatteryReading {
    pub percent: Sample,
    pub charging: bool,
}

/// The current values. A class of metrics that is not tracked is absent.
#[derive(Clone, Copy, Debug, PartialEq, Eq)]
pub struct Reading {
    pub cpu: Sample,
    pub used_mem_mb: u64,
    pub total_mem_mb: u64,
    pub ram_percent: Sample,
    pub network: Option<NetworkReading>,
    pub disk: Option<DiskReading>,
    pub battery: Option<BatteryReading>,
}

/// Processor load and memory counters as the provider reports them.
#[derive(Clone, Copy, Debug, PartialEq, Eq, Structural)]
pub struct SystemCounters {
    pub cpu: Sample,
    pub used_memory: u64,
    pub total_memory: u64,
}

/// What one tick has read from the provider. A class whose read failed is
/// absent.
#[derive(Debug)]
pub struct Measurement {
    /// Processor load and memory.
    pub system: Option<SystemCounters>,
    /// Per interface: bytes received and transmitted in the last interval,
    /// then in total.
    pub interfaces: Option<Vec<(u64, u64, u64, u64)>>,
    /// Per volume: total and available bytes.
    pub volumes: Option<Vec<(u64, u64)>>,
    /// Battery charge and charging flag.
    pub battery: Option<BatteryReading>,
}

/// The view model as contracts see it.
pub struct ViewModelView {
    pub reading: Reading,
    pub cpu: Window<Sample>,
    pub ram: Window<Sample>,
    pub down: Window<Sample>,
    pub up: Window<Sample>,
    pub battery: Window<Sample>,
    pub disk: Window<Sample>,
    pub selected: ViewId,
    pub config: MetricsConfig,
    /// The cumulative network counters of the last tick that read them.
    pub previous: CounterPair,
}

/// The reading of a fresh model: zero everywhere, untracked classes absent.
pub open spec fn spec_initial_reading(config: MetricsConfig) -> Reading {
    Reading {
        cpu: Sample { micros: 0 },
        used_mem_mb: 0,
        total_mem_mb: 0,
        ram_percent: Sample { micros: 0 },
        network: if config.network {
            Some(NetworkReading { down: Sample { micros: 0 }, up: Sample { micros: 0 } })
        } else {
            None
        },
        disk: if config.disk {
            Some(DiskReading { percent: Sample { micros: 0 }, used_gb: 0, total_gb: 0 })
        } else {
            None
        },
        battery: if config.battery {
            Some(BatteryReading { percent: Sample { micros: 0 }, charging: false })
        } else {
            None
        },
    }
}

/// A fresh model: empty histories of the standard capacity, a zero reading,
/// the system view selected.
pub open spec fn spec_initial(config: MetricsConfig, baseline: CounterPair) -> ViewModelView {
    ViewModelView {
        reading: spec_initial_reading(config),
        cpu: Window::empty(HISTORY_CAPACITY as nat),
        ram: Window::empty(HISTORY_CAPACITY as nat),
        down: Window::empty(HISTORY_CAPACITY as nat),
        up: Window::empty(HISTORY_CAPACITY as nat),
        battery: Window::empty(HISTORY_CAPACITY as nat),
        disk: Window::empty(HISTORY_CAPACITY as nat),
        selected: ViewId::System,
        config,
        previous: baseline,
    }
}

/// The history of one metric.
pub open spec fn window_of(model: ViewModelView, metric: Metric) -> Window<Sample> {
    match metric {
        Metric::Cpu => model.cpu,
        Metric::Ram => model.ram,
        Metric::Down => model.down,
        Metric::Up => model.up,
        Metric::Battery => model.battery,
        Metric::Disk => model.disk,
    }
}

/// The model after `view` was selected.
pub open spec fn spec_select(model: ViewModelView, view: ViewId) -> ViewModelView {
    ViewModelView { selected: view, ..model }
}

/// Memory use in percent, from counters in the reading's unit.
pub open spec fn spec_ram_percent(counters: SystemCounters) -> Sample {
    Sample {
        micros: spec_percentage(
            counters.used_memory / MEMORY_DIVISOR,
            counters.total_memory / MEMORY_DIVISOR,
        ) as i64,
    }
}

/// Takes in processor load and memory. A failed read changes nothing.
pub open spec fn spec_apply_system(
    model: ViewModelView,
    system: Option<SystemCounters>,
) -> ViewModelView {
    match system {
        Some(counters) => ViewModelView {
            reading: Reading {
                cpu: counters.cpu,
                used_mem_mb: counters.used_memory / MEMORY_DIVISOR,
                total_mem_mb: counters.total_memory / MEMORY_DIVISOR,
                ram_percent: spec_ram_percent(counters),
                ..model.reading
            },
            cpu: model.cpu.push(counters.cpu),
            ram: model.ram.push(spec_ram_percent(counters)),
            ..model
        },
        None => model,
    }
}

/// The cumulative counters over all of `entries`.
pub open spec fn spec_cumulative(entries: Seq<(u64, u64, u64, u64)>) -> CounterPair {
    CounterPair {
        rx: saturate_u64(sum_counter(entries, Counter::TotalReceived)) as u64,
        tx: saturate_u64(sum_counter(entries, Counter::TotalTransmitted)) as u64,
    }
}

/// The throughput between two cumulative readings one tick apart.
pub open spec fn spec_throughput(previous: CounterPair, current: CounterPair) -> NetworkReading {
    NetworkReading {
        down: Sample { micros: spec_rate_micros(spec_delta(previous, current).0) as i64 },
        up: Sample { micros: spec_rate_micros(spec_delta(previous, current).1) as i64 },
    }
}

/// Takes in the cumulative network counters of this tick. Where the class
/// is not tracked or the read failed, nothing changes; the remembered
/// counters stay as they are.
pub open spec fn spec_apply_network(
    model: ViewModelView,
    counters: Option<CounterPair>,
) -> ViewModelView {
    match counters {
        Some(current) if model.config.network => {
            let rates = spec_throughput(model.previous, current);
            ViewModelView {
                reading: Reading { network: Some(rates), ..model.reading },
                down: model.down.push(rates.down),
                up: model.up.push(rates.up),
                previous: current,
                ..model
            }
        },
        _ => model,
    }
}

/// The disk reading over `volumes`.
pub open spec fn spec_disk_reading(volumes: Seq<(u64, u64)>) -> DiskReading {
    DiskReading {
        percent: Sample { micros: spec_disk_usage(volumes).0 as i64 },
        used_gb: spec_disk_usage(volumes).1 as u64,
        total_gb: spec_disk_usage(volumes).2 as u64,
    }
}

/// Takes in the volume sizes. Where the class is not tracked or the read
/// failed, nothing changes.
pub open spec fn spec_apply_disk(
    model: ViewModelView,
    volumes: Option<Seq<(u64, u64)>>,
) -> ViewModelView {
    match volumes {
        Some(sizes) if model.config.disk => {
            let usage = spec_disk_reading(sizes);
            ViewModelView {
                reading: Reading { disk: Some(usage), ..model.reading },
                disk: model.disk.push(usage.percent),
                ..model
            }
        },
        _ => model,
    }
}

/// Takes in the battery status. Where the class is not tracked or the read
/// failed, nothing changes.
pub open spec fn spec_apply_battery(
    model: ViewModelView,
    battery: Option<BatteryReading>,
) -> ViewModelView {
    match battery {
        Some(status) if model.config.battery => ViewModelView {
            reading: Reading { battery: Some(status), ..model.reading },
            battery: model.battery.push(status.percent),
            ..model
        },
        _ => model,
    }
}

/// The model after one tick took in what was read of each class: processor
/// load and memory, the cumulative network counters, the volume sizes and
/// the battery status.
pub open spec fn spec_step(
    model: ViewModelView,
    system: Option<SystemCounters>,
    counters: Option<CounterPair>,
    volumes: Option<Seq<(u64, u64)>>,
    battery: Option<BatteryReading>,
) -> ViewModelView {
    spec_apply_battery(
        spec_apply_disk(spec_apply_network(spec_apply_system(model, system), counters), volumes),
        battery,
    )
}

/// The cumulative network counters that `measurement` holds, if the
/// interfaces were read.
pub open spec fn spec_counters_of(measurement: Measurement) -> Option<CounterPair> {
    match measurement.interfaces {
        Some(entries) => Some(spec_cumulative(entries@)),
        None => None,
    }
}

/// The volume sizes that `measurement` holds, if the volumes were read.
pub open spec fn spec_volumes_of(measurement: Measurement) -> Option<Seq<(u64, u64)>> {
    match measurement.volumes {
        Some(sizes) => Some(sizes@),
        None => None,
    }
}

/// The model after one tick took in `measurement`.
pub open spec fn spec_tick(model: ViewModelView, measurement: Measurement) -> ViewModelView {
    spec_step(
        model,
        measurement.system,
        spec_counters_of(measurement),
        spec_volumes_of(measurement),
        measurement.battery,
    )
}

/// The single mutable aggregate: the current reading, one rolling history
/// per plotted metric, and the selected view.
pub struct ViewModel {
    reading: Reading,
    cpu_history: RollingHistory<Sample>,
    ram_history: RollingHistory<Sample>,
    down_history: RollingHistory<Sample>,
    up_history: RollingHistory<Sample>,
    battery_history: RollingHistory<Sample>,
    disk_history: RollingHistory<Sample>,
    selected: ViewId,
    config: MetricsConfig,
    tracker: DeltaTracker,
}

impl View for ViewModel {
    type V = ViewModelView;

    closed spec fn view(&self) -> ViewModelView {
        ViewModelView {
            reading: self.reading,
            cpu: self.cpu_history.window(),
            ram: self.ram_history.window(),
            down: self.down_history.window(),
            up: self.up_history.window(),
            battery: self.battery_history.window(),
            disk: self.disk_history.window(),
            selected: self.selected,
            config: self.config,
            previous: self.tracker.spec_previous(),
        }
    }
}

impl ViewModel {
    /// The model at startup. Network deltas will be counted from `baseline`.
    pub fn new(config: MetricsConfig, baseline: CounterPair) -> (model: Self)
        ensures
            model@ == spec_initial(config, baseline),
    {
        let zero = Sample { micros: 0 };
        let reading = Reading {
            cpu: zero,
            used_mem_mb: 0,
            total_mem_mb: 0,
            ram_percent: zero,
            network: if config.network {
                Some(NetworkReading { down: zero, up: zero })
            } else {
                None
            },
            disk: if config.disk {
                Some(DiskReading { percent: zero, used_gb: 0, total_gb: 0 })
            } else {
                None
            },
            battery: if config.battery {
                Some(BatteryReading { percent: zero, charging: false })
            } else {
                None
            },
        };
        ViewModel {
            reading,
            cpu_history: RollingHistory::new(),
            ram_history: RollingHistory::new(),
            down_history: RollingHistory::new(),
            up_history: RollingHistory::new(),
            battery_history: RollingHistory::new(),
            disk_history: RollingHistory::new(),
            selected: ViewId::System,
            config,
            tracker: DeltaTracker::new(baseline),
        }
    }

    /// The current values.
    pub fn reading(&self) -> (r: Reading)
        ensures
            r == self@.reading,
    {
        self.reading
    }

    /// The history of `metric`, oldest sample first.
    pub fn history(&self, metric: Metric) -> (h: &RollingHistory<Sample>)
        ensures
            h.window() == window_of(self@, metric),
            h.window().bounded(),
    {
        let h = match metric {
            Metric::Cpu => &self.cpu_history,
            Metric::Ram => &self.ram_history,
            Metric::Down => &self.down_history,
            Metric::Up => &self.up_history,
            Metric::Battery => &self.battery_history,
            Metric::Disk => &self.disk_history,
        };
        // the buffer states its bound with its length
        let _held = h.len();
        h
    }

    /// The view that is selected.
    pub fn selected_view(&self) -> (v: ViewId)
        ensures
            v == self@.selected,
    {
        self.selected
    }

    /// The classes of metrics that are tracked.
    pub fn config(&self) -> (c: MetricsConfig)
        ensures
            c == self@.config,
    {
        self.config
    }

    /// Selects `view`. Readings and histories are left as they are, and no
    /// sampling is set off.
    pub fn select_view(&mut self, view: ViewId)
        ensures
            final(self)@ == spec_select(old(self)@, view),
    {
        self.selected = view;
    }

    /// Takes in processor load and memory, if they were read.
    fn apply_system(&mut self, system: Option<SystemCounters>)
        ensures
            final(self)@ == spec_apply_system(old(self)@, system),
    {
        if let Some(counters) = system {
            let used_mem_mb: u64 = counters.used_memory / MEMORY_DIVISOR;
            let total_mem_mb: u64 = counters.total_memory / MEMORY_DIVISOR;
            let ram_percent = percentage(used_mem_mb, total_mem_mb);
            self.reading.cpu = counters.cpu;
            self.reading.used_mem_mb = used_mem_mb;
            self.reading.total_mem_mb = total_mem_mb;
            self.reading.ram_percent = ram_percent;
            self.cpu_history.push(counters.cpu);
            self.ram_history.push(ram_percent);
        }
    }

    /// Takes in the interface counters, if the class is tracked and they
    /// were read.
    fn apply_network(&mut self, interfaces: &Option<Vec<(u64, u64, u64, u64)>>)
        ensures
            final(self)@ == spec_apply_network(
                old(self)@,
                match *interfaces {
                    Some(entries) => Some(spec_cumulative(entries@)),
                    None => None,
                },
            ),
    {
        if !self.config.network {
            return ;
        }
        if let Some(entries) = interfaces {
            let current = sum_totals(entries);
            let (down_bytes, up_bytes) = self.tracker.advance(current);
            let rates = NetworkReading {
                down: megabits_per_second(down_bytes),
                up: megabits_per_second(up_bytes),
            };
            self.reading.network = Some(rates);
            self.down_history.push(rates.down);
            self.up_history.push(rates.up);
        }
    }

    /// Takes in the volume sizes, if the class is tracked and they were
    /// read.
    fn apply_disk(&mut self, volumes: &Option<Vec<(u64, u64)>>)
        ensures
            final(self)@ == spec_apply_disk(
                old(self)@,
                match *volumes {
                    Some(sizes) => Some(sizes@),
                    None => None,
                },
            ),
    {
        if !self.config.disk {
            return ;
        }
        if let Some(sizes) = volumes {
            let (percent, used_gb, total_gb) = disk_usage(sizes);
            self.reading.disk = Some(DiskReading { percent, used_gb, total_gb });
            self.disk_history.push(percent);
        }
    }

    /// Takes in the battery status, if the class is tracked and it was
    /// read.
    fn apply_battery(&mut self, battery: Option<BatteryReading>)
        ensures
            final(self)@ == spec_apply_battery(old(self)@, battery),
    {
        if !self.config.battery {
            return ;
        }
        if let Some(status) = battery {
            self.reading.battery = Some(status);
            self.battery_history.push(status.percent);
        }
    }

    /// Takes in the measurement of one tick: computes the percentages and
    /// rates, writes them into the reading and appends each plotted value to
    /// its history. A class whose read failed keeps its previous reading and
    /// gets no history entry for this tick.
    pub fn tick(&mut self, measurement: &Measurement)
        ensures
            final(self)@ == spec_tick(old(self)@, *measurement),
    {
        self.apply_system(measurement.system);
        self.apply_network(&measurement.interfaces);
        self.apply_disk(&measurement.volumes);
        self.apply_battery(measurement.battery);
    }
}

} // verus!
