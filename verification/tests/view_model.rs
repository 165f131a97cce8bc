use monitor_app::delta::CounterPair;
use monitor_app::sample::Sample;
use monitor_app::sampler::{measure, sample, TICK_INTERVAL_MS};
use monitor_app::view_model::{
    BatteryReading, DiskReading, Measurement, Metric, MetricsConfig, NetworkReading, Reading,
    SystemCounters, ViewId, ViewModel, MEMORY_DIVISOR,
};
use sysinfo::{Disks, Networks};

const GIB: u64 = 1_073_741_824;

fn everything() -> MetricsConfig {
    MetricsConfig { network: true, disk: true, battery: true }
}

fn nothing() -> MetricsConfig {
    MetricsConfig { network: false, disk: false, battery: false }
}

fn system(cpu_percent: u32, used: u64, total: u64) -> Option<SystemCounters> {
    Some(SystemCounters {
        cpu: Sample::from_units(cpu_percent),
        used_memory: used,
        total_memory: total,
    })
}

fn only_system(cpu_percent: u32, used: u64, total: u64) -> Measurement {
    Measurement { system: system(cpu_percent, used, total), interfaces: None, volumes: None, battery: None }
}

fn lengths(model: &ViewModel) -> [usize; 6] {
    [
        model.history(Metric::Cpu).len(),
        model.history(Metric::Ram).len(),
        model.history(Metric::Down).len(),
        model.history(Metric::Up).len(),
        model.history(Metric::Battery).len(),
        model.history(Metric::Disk).len(),
    ]
}

#[test]
fn fresh_model_is_zeroed_and_empty() {
    let model = ViewModel::new(everything(), CounterPair { rx: 0, tx: 0 });
    assert_eq!(lengths(&model), [0; 6]);
    assert_eq!(model.selected_view(), ViewId::System);
    assert_eq!(model.config(), everything());
    assert_eq!(
        model.reading(),
        Reading {
            cpu: Sample::zero(),
            used_mem_mb: 0,
            total_mem_mb: 0,
            ram_percent: Sample::zero(),
            network: Some(NetworkReading { down: Sample::zero(), up: Sample::zero() }),
            disk: Some(DiskReading { percent: Sample::zero(), used_gb: 0, total_gb: 0 }),
            battery: Some(BatteryReading { percent: Sample::zero(), charging: false }),
        }
    );
    for metric in [Metric::Cpu, Metric::Ram, Metric::Down, Metric::Up, Metric::Battery, Metric::Disk] {
        assert_eq!(model.history(metric).capacity(), 120);
    }
}

#[test]
fn untracked_classes_are_absent() {
    let mut model = ViewModel::new(nothing(), CounterPair { rx: 0, tx: 0 });
    assert_eq!(model.reading().network, None);
    assert_eq!(model.reading().disk, None);
    assert_eq!(model.reading().battery, None);
    let m = Measurement {
        system: system(10, 2048, 4096),
        interfaces: Some(vec![(1, 1, 100, 100)]),
        volumes: Some(vec![(10 * GIB, 5 * GIB)]),
        battery: Some(BatteryReading { percent: Sample::from_units(80), charging: true }),
    };
    model.tick(&m);
    assert_eq!(lengths(&model), [1, 1, 0, 0, 0, 0]);
    assert_eq!(model.reading().network, None);
    assert_eq!(model.reading().disk, None);
    assert_eq!(model.reading().battery, None);
}

#[test]
fn first_tick_yields_fifty_percent_ram() {
    let mut model = ViewModel::new(everything(), CounterPair { rx: 0, tx: 0 });
    model.tick(&only_system(12, 4096, 8192));
    let reading = model.reading();
    assert_eq!(reading.ram_percent, Sample::from_units(50));
    assert_eq!(reading.ram_percent.micros() as f64 / 1e6, 50.0);
    assert_eq!(reading.used_mem_mb, 4);
    assert_eq!(reading.total_mem_mb, 8);
    assert_eq!(reading.cpu, Sample::from_units(12));
    assert_eq!(model.history(Metric::Ram).as_slice(), &[Sample::from_units(50)]);
    assert_eq!(model.history(Metric::Cpu).as_slice(), &[Sample::from_units(12)]);
}

#[test]
fn tick_121_evicts_the_reading_of_tick_1() {
    let mut model = ViewModel::new(everything(), CounterPair { rx: 0, tx: 0 });
    for tick in 1..=120u64 {
        model.tick(&only_system(tick as u32 % 100, tick * 1024, 1000 * 1024));
    }
    assert_eq!(model.history(Metric::Ram).len(), 120);
    assert_eq!(model.history(Metric::Ram).as_slice()[0], Sample::from_micros(100_000));
    model.tick(&only_system(21, 121 * 1024, 1000 * 1024));
    let ram = model.history(Metric::Ram);
    assert_eq!(ram.len(), 120);
    assert_eq!(ram.as_slice()[0], Sample::from_micros(200_000));
    assert_eq!(ram.as_slice()[119], Sample::from_micros(12_100_000));
    assert_eq!(model.history(Metric::Cpu).len(), 120);
    assert_eq!(model.history(Metric::Cpu).as_slice()[0], Sample::from_units(2));
}

#[test]
fn zero_total_memory_reads_as_zero_percent() {
    let mut model = ViewModel::new(nothing(), CounterPair { rx: 0, tx: 0 });
    model.tick(&only_system(5, 0, 0));
    assert_eq!(model.reading().ram_percent, Sample::zero());
    model.tick(&only_system(5, 900, 1000));
    assert_eq!(model.reading().total_mem_mb, 0);
    assert_eq!(model.reading().ram_percent, Sample::zero());
    assert_eq!(model.history(Metric::Ram).as_slice(), &[Sample::zero(), Sample::zero()]);
}

#[test]
fn failed_network_read_leaves_no_gap_placeholder() {
    let mut model = ViewModel::new(everything(), CounterPair { rx: 0, tx: 0 });
    for tick in 1..=6u64 {
        let interfaces = if tick == 5 {
            None
        } else {
            Some(vec![(0, 0, tick * 1000, tick * 100), (0, 0, tick * 500, 0)])
        };
        let m = Measurement {
            system: system(1, 1024, 2048),
            interfaces,
            volumes: None,
            battery: None,
        };
        let before = model.reading().network;
        let down_before = model.history(Metric::Down).len();
        model.tick(&m);
        if tick == 5 {
            assert_eq!(model.reading().network, before);
            assert_eq!(model.history(Metric::Down).len(), down_before);
        }
    }
    assert_eq!(model.history(Metric::Cpu).len(), 6);
    assert_eq!(model.history(Metric::Ram).len(), 6);
    assert_eq!(model.history(Metric::Down).len(), 5);
    assert_eq!(model.history(Metric::Up).len(), 5);
    // tick 6 is counted from the last reading that succeeded, tick 4
    assert_eq!(
        model.reading().network,
        Some(NetworkReading { down: Sample::from_micros(3000 * 8), up: Sample::from_micros(200 * 8) })
    );
}

#[test]
fn network_rates_come_from_cumulative_counters() {
    let mut model = ViewModel::new(everything(), CounterPair { rx: 100, tx: 50 });
    let m = Measurement {
        system: None,
        interfaces: Some(vec![(7, 7, 100, 40), (9, 9, 80, 30)]),
        volumes: None,
        battery: None,
    };
    model.tick(&m);
    assert_eq!(
        model.reading().network,
        Some(NetworkReading { down: Sample::from_micros(640), up: Sample::from_micros(160) })
    );
    assert_eq!(model.history(Metric::Down).as_slice(), &[Sample::from_micros(640)]);
    assert_eq!(model.history(Metric::Up).as_slice(), &[Sample::from_micros(160)]);
    assert_eq!(lengths(&model), [0, 0, 1, 1, 0, 0]);
}

#[test]
fn counter_reset_reads_as_zero_rate() {
    let mut model = ViewModel::new(everything(), CounterPair { rx: 5000, tx: 5000 });
    let m = Measurement {
        system: None,
        interfaces: Some(vec![(0, 0, 10, 6000)]),
        volumes: None,
        battery: None,
    };
    model.tick(&m);
    assert_eq!(
        model.reading().network,
        Some(NetworkReading { down: Sample::zero(), up: Sample::from_micros(8000) })
    );
    let next = Measurement {
        system: None,
        interfaces: Some(vec![(0, 0, 135, 6000)]),
        volumes: None,
        battery: None,
    };
    model.tick(&next);
    assert_eq!(
        model.reading().network,
        Some(NetworkReading { down: Sample::from_micros(1000), up: Sample::zero() })
    );
}

#[test]
fn disk_and_battery_are_taken_in() {
    let mut model = ViewModel::new(everything(), CounterPair { rx: 0, tx: 0 });
    let m = Measurement {
        system: None,
        interfaces: None,
        volumes: Some(vec![(100 * GIB, 25 * GIB), (50 * GIB, 50 * GIB)]),
        battery: Some(BatteryReading { percent: Sample::from_units(100), charging: false }),
    };
    model.tick(&m);
    assert_eq!(
        model.reading().disk,
        Some(DiskReading { percent: Sample::from_units(50), used_gb: 75, total_gb: 150 })
    );
    assert_eq!(
        model.reading().battery,
        Some(BatteryReading { percent: Sample::from_units(100), charging: false })
    );
    assert_eq!(model.history(Metric::Disk).as_slice(), &[Sample::from_units(50)]);
    assert_eq!(model.history(Metric::Battery).as_slice(), &[Sample::from_units(100)]);
    assert_eq!(lengths(&model), [0, 0, 0, 0, 1, 1]);
    assert_eq!(model.reading().cpu, Sample::zero());
}

#[test]
fn empty_volume_list_reads_as_zero_percent() {
    let mut model = ViewModel::new(everything(), CounterPair { rx: 0, tx: 0 });
    let m = Measurement { system: None, interfaces: None, volumes: Some(vec![]), battery: None };
    model.tick(&m);
    assert_eq!(
        model.reading().disk,
        Some(DiskReading { percent: Sample::zero(), used_gb: 0, total_gb: 0 })
    );
    assert_eq!(model.history(Metric::Disk).as_slice(), &[Sample::zero()]);
}

#[test]
fn a_tick_with_nothing_read_changes_nothing() {
    let mut model = ViewModel::new(everything(), CounterPair { rx: 0, tx: 0 });
    model.tick(&only_system(40, 1024, 4096));
    let before = model.reading();
    let m = Measurement { system: None, interfaces: None, volumes: None, battery: None };
    model.tick(&m);
    assert_eq!(model.reading(), before);
    assert_eq!(lengths(&model), [1, 1, 0, 0, 0, 0]);
}

#[test]
fn selecting_a_view_touches_nothing_else() {
    let mut model = ViewModel::new(everything(), CounterPair { rx: 0, tx: 0 });
    model.tick(&only_system(40, 1024, 4096));
    let reading = model.reading();
    let sizes = lengths(&model);
    for view in [ViewId::Network, ViewId::Power, ViewId::System, ViewId::Power, ViewId::Network] {
        model.select_view(view);
        assert_eq!(model.selected_view(), view);
        assert_eq!(model.reading(), reading);
        assert_eq!(lengths(&model), sizes);
    }
}

#[test]
fn sampling_runs_whatever_view_is_selected() {
    let mut shown = ViewModel::new(everything(), CounterPair { rx: 0, tx: 0 });
    let mut hidden = ViewModel::new(everything(), CounterPair { rx: 0, tx: 0 });
    hidden.select_view(ViewId::Power);
    let m = Measurement {
        system: system(33, 3 * 1024, 4 * 1024),
        interfaces: Some(vec![(0, 0, 1_000_000, 250_000)]),
        volumes: Some(vec![(4 * GIB, GIB)]),
        battery: Some(BatteryReading { percent: Sample::from_units(64), charging: true }),
    };
    shown.tick(&m);
    hidden.tick(&m);
    assert_eq!(hidden.selected_view(), ViewId::Power);
    assert_eq!(shown.selected_view(), ViewId::System);
    assert_eq!(shown.reading(), hidden.reading());
    for metric in [Metric::Cpu, Metric::Ram, Metric::Down, Metric::Up, Metric::Battery, Metric::Disk] {
        assert_eq!(shown.history(metric).as_slice(), hidden.history(metric).as_slice());
        assert_eq!(shown.history(metric).len(), 1);
    }
    assert_eq!(shown.reading().ram_percent, Sample::from_units(75));
    assert_eq!(
        shown.reading().network,
        Some(NetworkReading { down: Sample::from_units(8), up: Sample::from_units(2) })
    );
}

#[test]
fn measuring_without_lists_reports_failed_reads() {
    let m = measure(system(1, 2, 3), None, None, None);
    assert_eq!(m.system, system(1, 2, 3));
    assert!(m.interfaces.is_none());
    assert!(m.volumes.is_none());
    assert!(m.battery.is_none());
}

#[test]
fn measuring_empty_lists_reports_no_entries() {
    let networks = Networks::new();
    let disks = Disks::new();
    let battery = Some(BatteryReading { percent: Sample::from_units(100), charging: false });
    let m = measure(None, Some(&networks), Some(&disks), battery);
    assert_eq!(m.interfaces, Some(vec![]));
    assert_eq!(m.volumes, Some(vec![]));
    assert_eq!(m.battery, battery);
    assert!(m.system.is_none());
}

#[test]
fn measuring_refreshed_lists_reads_every_entry() {
    let networks = Networks::new_with_refreshed_list();
    let disks = Disks::new_with_refreshed_list();
    let m = measure(None, Some(&networks), Some(&disks), None);
    assert_eq!(m.interfaces.map(|v| v.len()), Some(networks.list().len()));
    let volumes: Vec<(u64, u64)> =
        disks.list().iter().map(|d| (d.total_space(), d.available_space())).collect();
    assert_eq!(m.volumes, Some(volumes));
}

#[test]
fn sampling_from_lists_is_one_tick() {
    let networks = Networks::new();
    let disks = Disks::new();
    let mut model = ViewModel::new(everything(), CounterPair { rx: 0, tx: 0 });
    let battery = Some(BatteryReading { percent: Sample::from_units(100), charging: false });
    sample(&mut model, system(9, 4096, 8192), Some(&networks), Some(&disks), battery);
    assert_eq!(lengths(&model), [1; 6]);
    assert_eq!(model.reading().ram_percent, Sample::from_units(50));
    assert_eq!(
        model.reading().network,
        Some(NetworkReading { down: Sample::zero(), up: Sample::zero() })
    );
    sample(&mut model, system(9, 4096, 8192), None, None, None);
    assert_eq!(lengths(&model), [2, 2, 1, 1, 1, 1]);
}

#[test]
fn fixed_constants() {
    assert_eq!(TICK_INTERVAL_MS, 1000);
    assert_eq!(MEMORY_DIVISOR, 1024);
    assert_eq!(monitor_app::history::HISTORY_CAPACITY, 120);
    assert_eq!(monitor_app::telemetry::BYTES_PER_GIBIBYTE, 1_073_741_824);
    assert_eq!(monitor_app::delta::BITS_PER_BYTE, 8);
    assert_eq!(monitor_app::delta::BITS_PER_MEGABIT, 1_000_000);
}

#[test]
fn histories_grow_by_the_ticks_that_read_them() {
    let mut model = ViewModel::new(everything(), CounterPair { rx: 0, tx: 0 });
    let mut system_reads = 0;
    let mut battery_reads = 0;
    for tick in 0..150u64 {
        let with_system = tick % 3 != 0;
        let with_battery = tick % 5 == 0;
        let m = Measurement {
            system: if with_system { system(tick as u32, tick * 1024, 200 * 1024) } else { None },
            interfaces: None,
            volumes: None,
            battery: if with_battery {
                Some(BatteryReading { percent: Sample::from_units(tick as u32), charging: false })
            } else {
                None
            },
        };
        model.tick(&m);
        system_reads += with_system as usize;
        battery_reads += with_battery as usize;
        assert_eq!(model.history(Metric::Cpu).len(), system_reads.min(120));
        assert_eq!(model.history(Metric::Ram).len(), system_reads.min(120));
        assert_eq!(model.history(Metric::Battery).len(), battery_reads.min(120));
        assert_eq!(model.history(Metric::Down).len(), 0);
    }
    assert_eq!(system_reads, 100);
    assert_eq!(model.history(Metric::Cpu).as_slice()[99], Sample::from_units(149));
    assert_eq!(model.history(Metric::Cpu).as_slice()[0], Sample::from_units(1));
}
