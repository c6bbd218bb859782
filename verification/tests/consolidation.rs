use system_dashboard::consolidation::consolidate_all_stats;
use system_dashboard::stats::{
    AllStats, CpuStats, GeneralStats, LoadAverages, MemoryStats, MountStats, NetworkInterfaceStats,
    NetworkStats, SocketStats,
};

fn bare(collection_time: i64) -> AllStats {
    AllStats {
        general: GeneralStats { uptime_seconds: None, boot_timestamp: None, load_averages: None },
        cpu: CpuStats {
            per_logical_cpu_load_percent: None,
            aggregate_load_percent: None,
            temp_celsius: None,
        },
        memory: None,
        filesystems: None,
        network: NetworkStats { interfaces: None, sockets: None },
        collection_time,
    }
}

fn with_aggregate_load(load: i64) -> AllStats {
    let mut stats = bare(0);
    stats.cpu.aggregate_load_percent = Some(load);
    stats
}

fn with_tcp_in_use(tcp_in_use: usize) -> AllStats {
    let mut stats = bare(0);
    stats.network.sockets = Some(SocketStats {
        tcp_in_use,
        tcp_orphaned: 0,
        udp_in_use: 0,
        tcp6_in_use: 0,
        udp6_in_use: 0,
    });
    stats
}

fn mount(name: &str) -> MountStats {
    MountStats {
        fs_type: "ext4".to_string(),
        mounted_from: name.to_string(),
        mounted_on: "/".to_string(),
        used_mb: 1,
        total_mb: 2,
    }
}

fn interface(name: &str) -> NetworkInterfaceStats {
    NetworkInterfaceStats {
        name: name.to_string(),
        addresses: vec!["10.0.0.1".to_string()],
        sent_bytes: 1,
        received_bytes: 2,
        sent_packets: 3,
        received_packets: 4,
        send_errors: 5,
        receive_errors: 6,
    }
}

#[test]
fn aggregate_cpu_loads_are_averaged() {
    let batch =
        vec![with_aggregate_load(10_000), with_aggregate_load(20_000), with_aggregate_load(30_000)];
    let consolidated = consolidate_all_stats(batch);
    assert_eq!(consolidated.cpu.aggregate_load_percent, Some(20_000));
}

#[test]
fn socket_counts_are_averaged_and_rounded() {
    let batch = vec![with_tcp_in_use(4), with_tcp_in_use(5), with_tcp_in_use(6)];
    let consolidated = consolidate_all_stats(batch);
    assert_eq!(consolidated.network.sockets.unwrap().tcp_in_use, 5);

    let batch = vec![with_tcp_in_use(1), with_tcp_in_use(2)];
    let consolidated = consolidate_all_stats(batch);
    assert_eq!(consolidated.network.sockets.unwrap().tcp_in_use, 2);

    let batch = vec![with_tcp_in_use(1), with_tcp_in_use(1), with_tcp_in_use(2)];
    let consolidated = consolidate_all_stats(batch);
    assert_eq!(consolidated.network.sockets.unwrap().tcp_in_use, 1);
}

#[test]
fn every_socket_count_has_its_own_mean() {
    let mut first = bare(0);
    first.network.sockets = Some(SocketStats {
        tcp_in_use: 10,
        tcp_orphaned: 0,
        udp_in_use: 7,
        tcp6_in_use: 100,
        udp6_in_use: 1,
    });
    let mut second = bare(0);
    second.network.sockets = Some(SocketStats {
        tcp_in_use: 20,
        tcp_orphaned: 4,
        udp_in_use: 7,
        tcp6_in_use: 0,
        udp6_in_use: 2,
    });
    let consolidated = consolidate_all_stats(vec![first, second]);
    assert_eq!(
        consolidated.network.sockets,
        Some(SocketStats {
            tcp_in_use: 15,
            tcp_orphaned: 2,
            udp_in_use: 7,
            tcp6_in_use: 50,
            udp6_in_use: 2,
        })
    );
}

#[test]
fn a_single_memory_reading_is_kept_unchanged() {
    let mut first = bare(1);
    first.memory = Some(MemoryStats { used_mb: 100, total_mb: 1000 });
    let consolidated = consolidate_all_stats(vec![first, bare(2), bare(3)]);
    assert_eq!(consolidated.memory, Some(MemoryStats { used_mb: 100, total_mb: 1000 }));
}

#[test]
fn memory_is_averaged_over_the_snapshots_that_have_it() {
    let mut first = bare(1);
    first.memory = Some(MemoryStats { used_mb: 100, total_mb: 1000 });
    let mut third = bare(3);
    third.memory = Some(MemoryStats { used_mb: 301, total_mb: 1000 });
    let consolidated = consolidate_all_stats(vec![first, bare(2), third]);
    assert_eq!(consolidated.memory, Some(MemoryStats { used_mb: 201, total_mb: 1000 }));
}

#[test]
fn the_total_of_memory_is_averaged_like_the_memory_used() {
    let mut first = bare(1);
    first.memory = Some(MemoryStats { used_mb: 10, total_mb: 1_000 });
    let mut second = bare(2);
    second.memory = Some(MemoryStats { used_mb: 11, total_mb: 2_000 });
    let consolidated = consolidate_all_stats(vec![first, second]);
    assert_eq!(consolidated.memory, Some(MemoryStats { used_mb: 11, total_mb: 1_500 }));
}

#[test]
fn absent_values_are_skipped_not_counted_as_zero() {
    let batch = vec![with_aggregate_load(10_000), bare(0), with_aggregate_load(30_000)];
    let consolidated = consolidate_all_stats(batch);
    assert_eq!(consolidated.cpu.aggregate_load_percent, Some(20_000));

    let mut hot = bare(0);
    hot.cpu.temp_celsius = Some(61_500);
    let consolidated = consolidate_all_stats(vec![bare(0), bare(0), hot, bare(0)]);
    assert_eq!(consolidated.cpu.temp_celsius, Some(61_500));
}

#[test]
fn load_averages_are_averaged() {
    let mut first = bare(0);
    first.general.load_averages =
        Some(LoadAverages { one_minute: 1_000, five_minutes: 500, fifteen_minutes: 250 });
    let mut second = bare(0);
    second.general.load_averages =
        Some(LoadAverages { one_minute: 2_000, five_minutes: 1_500, fifteen_minutes: 251 });
    let consolidated = consolidate_all_stats(vec![first, second, bare(0)]);
    assert_eq!(
        consolidated.general.load_averages,
        Some(LoadAverages { one_minute: 1_500, five_minutes: 1_000, fifteen_minutes: 251 })
    );
}

#[test]
fn socket_counts_are_rounded_once_from_their_sum() {
    let mut batch: Vec<AllStats> = (0..26).map(|_| with_tcp_in_use(0)).collect();
    batch.extend((0..27).map(|_| with_tcp_in_use(1)));
    let consolidated = consolidate_all_stats(batch);
    assert_eq!(consolidated.network.sockets.unwrap().tcp_in_use, 1);

    let mut batch: Vec<AllStats> = (0..27).map(|_| with_tcp_in_use(0)).collect();
    batch.extend((0..26).map(|_| with_tcp_in_use(1)));
    let consolidated = consolidate_all_stats(batch);
    assert_eq!(consolidated.network.sockets.unwrap().tcp_in_use, 0);

    let counts = |counts: &[usize]| {
        let batch = counts.iter().map(|count| with_tcp_in_use(*count)).collect();
        consolidate_all_stats(batch).network.sockets.unwrap().tcp_in_use
    };
    assert_eq!(counts(&[0, 0, 1, 1]), 1);
    assert_eq!(counts(&[2, 2, 3, 3]), 3);
    assert_eq!(counts(&[2, 2, 2, 3]), 2);
    assert_eq!(counts(&[usize::MAX, usize::MAX, usize::MAX - 1]), usize::MAX);
}

#[test]
fn memory_is_rounded_once_from_its_sum() {
    let batch = [100, 100, 101, 101]
        .iter()
        .map(|used_mb| {
            let mut stats = bare(0);
            stats.memory = Some(MemoryStats { used_mb: *used_mb, total_mb: u64::MAX });
            stats
        })
        .collect();
    let consolidated = consolidate_all_stats(batch);
    assert_eq!(consolidated.memory, Some(MemoryStats { used_mb: 101, total_mb: u64::MAX }));
}

#[test]
fn fractions_are_rounded_once_to_the_nearest_thousandth() {
    let loads: Vec<AllStats> = (1..=1000).map(with_aggregate_load).collect();
    let consolidated = consolidate_all_stats(loads);
    assert_eq!(consolidated.cpu.aggregate_load_percent, Some(501));

    let thirds = vec![with_aggregate_load(0), with_aggregate_load(0), with_aggregate_load(1_000)];
    assert_eq!(consolidate_all_stats(thirds).cpu.aggregate_load_percent, Some(333));
    let thirds = vec![with_aggregate_load(0), with_aggregate_load(1_000), with_aggregate_load(1_000)];
    assert_eq!(consolidate_all_stats(thirds).cpu.aggregate_load_percent, Some(667));
    let thirds = vec![with_aggregate_load(0), with_aggregate_load(-1_000), with_aggregate_load(-1_000)];
    assert_eq!(consolidate_all_stats(thirds).cpu.aggregate_load_percent, Some(-667));
}

#[test]
fn the_mean_lies_between_the_least_and_the_greatest_reading() {
    let batch = vec![
        with_aggregate_load(40_000),
        bare(0),
        with_aggregate_load(40_001),
        with_aggregate_load(40_001),
    ];
    assert_eq!(consolidate_all_stats(batch).cpu.aggregate_load_percent, Some(40_001));
    let batch = vec![with_aggregate_load(i64::MAX), with_aggregate_load(i64::MAX)];
    assert_eq!(consolidate_all_stats(batch).cpu.aggregate_load_percent, Some(i64::MAX));
    let batch = vec![with_aggregate_load(i64::MIN), bare(0), with_aggregate_load(i64::MIN)];
    assert_eq!(consolidate_all_stats(batch).cpu.aggregate_load_percent, Some(i64::MIN));
}

#[test]
fn a_list_too_short_for_a_cpu_counts_as_having_its_mean() {
    let lists: [&[i64]; 4] = [&[1_000, 2_000, 3_000], &[3_000], &[], &[2_000, 6_000, 7_000]];
    let batch = lists
        .iter()
        .map(|loads| {
            let mut stats = bare(0);
            stats.cpu.per_logical_cpu_load_percent = Some(loads.to_vec());
            stats
        })
        .collect();
    let consolidated = consolidate_all_stats(batch);
    assert_eq!(consolidated.cpu.per_logical_cpu_load_percent, Some(vec![2_000, 3_000, 4_000]));
}

#[test]
fn negative_temperatures_are_averaged() {
    let mut first = bare(0);
    first.cpu.temp_celsius = Some(-10_000);
    let mut second = bare(0);
    second.cpu.temp_celsius = Some(-3_000);
    let consolidated = consolidate_all_stats(vec![first, second]);
    assert_eq!(consolidated.cpu.temp_celsius, Some(-6_500));
}

#[test]
fn per_cpu_loads_are_averaged_position_by_position() {
    let mut first = bare(0);
    first.cpu.per_logical_cpu_load_percent = Some(vec![10_000, 20_000]);
    let mut second = bare(0);
    second.cpu.per_logical_cpu_load_percent = Some(vec![30_000, 40_000]);
    let consolidated = consolidate_all_stats(vec![first, bare(0), second]);
    assert_eq!(consolidated.cpu.per_logical_cpu_load_percent, Some(vec![20_000, 30_000]));
}

#[test]
fn per_cpu_loads_of_different_lengths_are_padded_with_zeroes() {
    let mut first = bare(0);
    first.cpu.per_logical_cpu_load_percent = Some(vec![10_000, 20_000]);
    let mut second = bare(0);
    second.cpu.per_logical_cpu_load_percent = Some(vec![30_000, 40_000, 50_000]);
    let mut third = bare(0);
    third.cpu.per_logical_cpu_load_percent = Some(vec![20_000]);
    let consolidated = consolidate_all_stats(vec![first, second, third]);
    assert_eq!(consolidated.cpu.per_logical_cpu_load_percent, Some(vec![20_000, 30_000, 25_000]));
}

#[test]
fn what_is_not_averaged_comes_from_the_last_snapshot() {
    let mut first = bare(100);
    first.general.uptime_seconds = Some(10);
    first.general.boot_timestamp = Some(1_600_000_000);
    first.filesystems = Some(vec![mount("/dev/sda1")]);
    first.network.interfaces = Some(vec![interface("eth0")]);
    let mut last = bare(200);
    last.general.uptime_seconds = Some(13);
    last.general.boot_timestamp = Some(1_600_000_001);
    last.filesystems = Some(vec![mount("/dev/sdb1"), mount("/dev/sdb2")]);
    last.network.interfaces = Some(vec![interface("wlan0")]);
    let consolidated = consolidate_all_stats(vec![first, last]);
    assert_eq!(consolidated.general.uptime_seconds, Some(13));
    assert_eq!(consolidated.general.boot_timestamp, Some(1_600_000_001));
    assert_eq!(consolidated.filesystems, Some(vec![mount("/dev/sdb1"), mount("/dev/sdb2")]));
    assert_eq!(consolidated.network.interfaces, Some(vec![interface("wlan0")]));
    assert_eq!(consolidated.collection_time, 200);
}

#[test]
fn what_the_last_snapshot_lacks_is_absent() {
    let mut first = bare(100);
    first.general.uptime_seconds = Some(10);
    first.filesystems = Some(vec![mount("/dev/sda1")]);
    first.network.interfaces = Some(vec![interface("eth0")]);
    let consolidated = consolidate_all_stats(vec![first, bare(200)]);
    assert_eq!(consolidated.general.uptime_seconds, None);
    assert_eq!(consolidated.general.boot_timestamp, None);
    assert_eq!(consolidated.filesystems, None);
    assert_eq!(consolidated.network.interfaces, None);
}

#[test]
fn a_metric_that_no_snapshot_has_stays_absent() {
    let consolidated = consolidate_all_stats(vec![bare(1), bare(2)]);
    assert_eq!(consolidated.general.load_averages, None);
    assert_eq!(consolidated.cpu.per_logical_cpu_load_percent, None);
    assert_eq!(consolidated.cpu.aggregate_load_percent, None);
    assert_eq!(consolidated.cpu.temp_celsius, None);
    assert_eq!(consolidated.memory, None);
    assert_eq!(consolidated.network.sockets, None);
    assert_eq!(consolidated, bare(2));
}

#[test]
fn each_metric_is_absent_or_present_by_itself() {
    let mut loaded = bare(1);
    loaded.cpu.aggregate_load_percent = Some(0);
    loaded.cpu.per_logical_cpu_load_percent = Some(Vec::new());
    let consolidated = consolidate_all_stats(vec![loaded, bare(2)]);
    assert_eq!(consolidated.cpu.aggregate_load_percent, Some(0));
    assert_eq!(consolidated.cpu.per_logical_cpu_load_percent, Some(Vec::new()));
    assert_eq!(consolidated.cpu.temp_celsius, None);
    assert_eq!(consolidated.general.load_averages, None);
    assert_eq!(consolidated.memory, None);
    assert_eq!(consolidated.network.sockets, None);

    let mut idle = bare(1);
    idle.memory = Some(MemoryStats { used_mb: 0, total_mb: 0 });
    idle.network.sockets = Some(SocketStats {
        tcp_in_use: 0,
        tcp_orphaned: 0,
        udp_in_use: 0,
        tcp6_in_use: 0,
        udp6_in_use: 0,
    });
    idle.general.load_averages =
        Some(LoadAverages { one_minute: 0, five_minutes: 0, fifteen_minutes: 0 });
    let consolidated = consolidate_all_stats(vec![bare(0), idle.clone()]);
    assert_eq!(consolidated.memory, idle.memory);
    assert_eq!(consolidated.network.sockets, idle.network.sockets);
    assert_eq!(consolidated.general.load_averages, idle.general.load_averages);
    assert_eq!(consolidated.cpu.aggregate_load_percent, None);
}

#[test]
fn a_batch_of_one_is_its_snapshot() {
    let mut only = bare(5);
    only.general.load_averages =
        Some(LoadAverages { one_minute: 1, five_minutes: 2, fifteen_minutes: 3 });
    only.cpu.per_logical_cpu_load_percent = Some(vec![1, 2, 3]);
    only.cpu.aggregate_load_percent = Some(2);
    only.cpu.temp_celsius = Some(40_000);
    only.memory = Some(MemoryStats { used_mb: u64::MAX, total_mb: u64::MAX });
    only.network.sockets = Some(SocketStats {
        tcp_in_use: usize::MAX,
        tcp_orphaned: 1,
        udp_in_use: 2,
        tcp6_in_use: 3,
        udp6_in_use: 4,
    });
    let consolidated = consolidate_all_stats(vec![only.clone()]);
    assert_eq!(consolidated, only);
}

#[test]
fn a_copy_of_a_snapshot_equals_it() {
    let mut stats = bare(5);
    stats.cpu.per_logical_cpu_load_percent = Some(vec![1, 2, 3]);
    stats.filesystems = Some(vec![mount("/dev/sda1"), mount("/dev/sda2")]);
    stats.network.interfaces = Some(vec![interface("eth0"), interface("lo")]);
    assert_eq!(stats.clone(), stats);
}
