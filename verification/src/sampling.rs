//! From what the platform reports to a snapshot.
//!
//! Reading the platform is the caller's. A reading that failed is `None`,
//! and the stat made from it is absent; nothing else in the snapshot is
//! touched by the failure.

use crate::average::present;
use crate::stats::{
    AllStats, AllStatsView, CpuStats, CpuStatsView, GeneralStats, LoadAverages, MemoryStats,
    MountStats, MountStatsView, NetworkInterfaceStats, NetworkInterfaceStatsView, NetworkStats,
    NetworkStatsView, SocketStats,
};
use vstd::prelude::*;
use vstd::string::StringExecFns;

verus! {

/// How many bytes make a megabyte.
pub const BYTES_PER_MB: u64 = 1_000_000;

/// The level that a failed reading is logged at.
#[derive(Clone, Copy, Debug, PartialEq, Eq)]
pub enum LogLevel {
    Debug,
    Error,
}

/// A line for the log.
#[derive(Debug, PartialEq, Eq)]
pub struct LogRecord {
    pub level: LogLevel,
    pub text: String,
}

/// What the platform reports of the CPU. A load is reported by the share of
/// time that the CPU was idle, in thousandths of the whole.
pub struct CpuReading {
    /// The idle share of each logical CPU
    pub per_logical_cpu_idle: Option<Vec<i64>>,
    /// The idle share of the CPU as a whole
    pub aggregate_idle: Option<i64>,
    /// Temperature of the CPU in thousandths of a degree Celsius
    pub temp_celsius: Option<i64>,
}

/// What the platform reports of memory, in bytes.
#[derive(Clone, Copy, Debug, PartialEq, Eq)]
pub struct MemoryReading {
    pub total: u64,
    pub free: u64,
}

/// What the platform reports of a mounted filesystem, sizes in bytes.
pub struct MountReading {
    pub fs_type: String,
    pub fs_mounted_from: String,
    pub fs_mounted_on: String,
    pub total: u64,
    pub avail: u64,
}

/// The counters of a network interface.
#[derive(Clone, Copy, Debug, PartialEq, Eq)]
pub struct InterfaceCounters {
    pub tx_bytes: u64,
    pub rx_bytes: u64,
    pub tx_packets: u64,
    pub rx_packets: u64,
    pub tx_errors: u64,
    pub rx_errors: u64,
}

/// What the platform reports of a network interface.
pub struct InterfaceReading {
    pub name: String,
    /// The addresses of the interface as text; `None` for an address that
    /// is neither IPv4 nor IPv6.
    pub addresses: Vec<Option<String>>,
    /// The counters of the interface; `None` where reading them failed.
    pub counters: Option<InterfaceCounters>,
}

/// What the platform reports of socket usage.
#[derive(Clone, Copy, Debug, PartialEq, Eq)]
pub struct SocketReading {
    pub tcp_sockets_in_use: usize,
    pub tcp_sockets_orphaned: usize,
    pub udp_sockets_in_use: usize,
    pub tcp6_sockets_in_use: usize,
    pub udp6_sockets_in_use: usize,
}

/// All that the platform reports for one snapshot.
pub struct SystemReading {
    /// Number of seconds the system has been running
    pub uptime_seconds: Option<u64>,
    /// Boot time in seconds since the UNIX epoch
    pub boot_timestamp: Option<i64>,
    /// Load average values, in thousandths
    pub load_averages: Option<LoadAverages>,
    pub cpu: CpuReading,
    pub memory: Option<MemoryReading>,
    pub mounts: Option<Vec<MountReading>>,
    pub interfaces: Option<Vec<InterfaceReading>>,
    pub sockets: Option<SocketReading>,
    /// When the readings were taken, in milliseconds since the UNIX epoch
    pub collection_time: i64,
}

/// The text that the platform gives for a stat that it does not support.
pub open spec fn not_supported() -> Seq<char> {
    "Not supported"@
}

/// The level for a failed reading: a stat that the platform does not
/// support is no more than a note for debugging.
pub open spec fn level_of(error: Seq<char>) -> LogLevel {
    if error == not_supported() {
        LogLevel::Debug
    } else {
        LogLevel::Error
    }
}

/// One byte count less another, zero where the other is the larger.
pub open spec fn spec_saturating_sub(l: u64, r: u64) -> u64 {
    if l >= r {
        (l - r) as u64
    } else {
        0
    }
}

/// The number of whole megabytes in a number of bytes.
pub open spec fn spec_bytes_to_mb(bytes: u64) -> u64 {
    bytes / BYTES_PER_MB
}

/// The load in thousandths of a percent for an idle share in thousandths of
/// the whole, kept within the range of the machine integer.
pub open spec fn load_percent(idle: i64) -> i64 {
    let load = (1000 - idle) * 100;
    if load > i64::MAX {
        i64::MAX
    } else if load < i64::MIN {
        i64::MIN
    } else {
        load as i64
    }
}

/// The loads for a list of idle shares.
pub open spec fn load_percents(idle: Seq<i64>) -> Seq<i64> {
    Seq::new(idle.len(), |i: int| load_percent(idle[i]))
}

/// The CPU stats for a reading.
pub open spec fn cpu_stats(reading: CpuReading) -> CpuStatsView {
    CpuStatsView {
        per_logical_cpu_load_percent: match reading.per_logical_cpu_idle {
            Some(idle) => Some(load_percents(idle@)),
            None => None,
        },
        aggregate_load_percent: match reading.aggregate_idle {
            Some(idle) => Some(load_percent(idle)),
            None => None,
        },
        temp_celsius: reading.temp_celsius,
    }
}

/// The memory stats for a reading: what is not free is used.
pub open spec fn memory_stats(reading: MemoryReading) -> MemoryStats {
    MemoryStats {
        used_mb: spec_bytes_to_mb(spec_saturating_sub(reading.total, reading.free)),
        total_mb: spec_bytes_to_mb(reading.total),
    }
}

/// The stats for a mount: what is not available is used.
pub open spec fn mount_stats(reading: MountReading) -> MountStatsView {
    MountStatsView {
        fs_type: reading.fs_type@,
        mounted_from: reading.fs_mounted_from@,
        mounted_on: reading.fs_mounted_on@,
        used_mb: spec_bytes_to_mb(spec_saturating_sub(reading.total, reading.avail)),
        total_mb: spec_bytes_to_mb(reading.total),
    }
}

/// The stats for the mounts that have any space at all, in their order.
pub open spec fn mounts_stats(readings: Seq<MountReading>) -> Seq<MountStatsView>
    decreases readings.len(),
{
    if readings.len() == 0 {
        Seq::empty()
    } else if readings.last().total == 0 {
        mounts_stats(readings.drop_last())
    } else {
        mounts_stats(readings.drop_last()).push(mount_stats(readings.last()))
    }
}

/// A list of texts as mathematical values.
pub open spec fn texts(list: Seq<String>) -> Seq<Seq<char>> {
    Seq::new(list.len(), |i: int| list[i]@)
}

/// The stats for an interface whose counters were read.
pub open spec fn interface_stats(
    reading: InterfaceReading,
    counters: InterfaceCounters,
) -> NetworkInterfaceStatsView {
    NetworkInterfaceStatsView {
        name: reading.name@,
        addresses: texts(present(reading.addresses@)),
        sent_bytes: counters.tx_bytes,
        received_bytes: counters.rx_bytes,
        sent_packets: counters.tx_packets,
        received_packets: counters.rx_packets,
        send_errors: counters.tx_errors,
        receive_errors: counters.rx_errors,
    }
}

/// The stats for the interfaces whose counters were read, in their order.
pub open spec fn interfaces_stats(readings: Seq<InterfaceReading>) -> Seq<
    NetworkInterfaceStatsView,
>
    decreases readings.len(),
{
    if readings.len() == 0 {
        Seq::empty()
    } else {
        match readings.last().counters {
            Some(counters) => interfaces_stats(readings.drop_last()).push(
                interface_stats(readings.last(), counters),
            ),
            None => interfaces_stats(readings.drop_last()),
        }
    }
}

/// The socket stats for a reading.
pub open spec fn socket_stats(reading: SocketReading) -> SocketStats {
    SocketStats {
        tcp_in_use: reading.tcp_sockets_in_use,
        tcp_orphaned: reading.tcp_sockets_orphaned,
        udp_in_use: reading.udp_sockets_in_use,
        tcp6_in_use: reading.tcp6_sockets_in_use,
        udp6_in_use: reading.udp6_sockets_in_use,
    }
}

/// The snapshot for the readings of one moment.
pub open spec fn all_stats(reading: SystemReading) -> AllStatsView {
    AllStatsView {
        general: GeneralStats {
            uptime_seconds: reading.uptime_seconds,
            boot_timestamp: reading.boot_timestamp,
            load_averages: reading.load_averages,
        },
        cpu: cpu_stats(reading.cpu),
        memory: match reading.memory {
            Some(memory) => Some(memory_stats(memory)),
            None => None,
        },
        filesystems: match reading.mounts {
            Some(mounts) => Some(mounts_stats(mounts@)),
            None => None,
        },
        network: NetworkStatsView {
            interfaces: match reading.interfaces {
                Some(interfaces) => Some(interfaces_stats(interfaces@)),
                None => None,
            },
            sockets: match reading.sockets {
                Some(sockets) => Some(socket_stats(sockets)),
                None => None,
            },
        },
        collection_time: reading.collection_time,
    }
}

/// Calls `systemstat::saturating_sub_bytes` on two byte counts. What is
/// said of the result is taken on trust of that function: it is the second
/// count taken from the first, and zero where the second is the larger.
#[verifier::external_body]
fn saturating_sub_bytes(l: u64, r: u64) -> (difference: u64)
    ensures
        difference == spec_saturating_sub(l, r),
{
    systemstat::saturating_sub_bytes(systemstat::ByteSize::b(l), systemstat::ByteSize::b(r)).as_u64()
}

/// Gets the number of megabytes represented by the provided number of bytes.
pub fn bytes_to_mb(byte_size: u64) -> (megabytes: u64)
    ensures
        megabytes == spec_bytes_to_mb(byte_size),
{
    byte_size / BYTES_PER_MB
}

/// Makes the line to log for a reading that failed. If the error is for a stat that isn't supported, the level is debug. Otherwise it is error.
/// # Params
/// * `message` - What was being read.
/// * `e` - The text of the error.
pub fn log(message: &str, e: &str) -> (record: LogRecord)
    ensures
        record.level == level_of(e@),
        record.text@ == message@ + e@,
{
    let error = String::from_str(e);
    let level = if error == String::from_str("Not supported") {
        LogLevel::Debug
    } else {
        LogLevel::Error
    };
    LogRecord { level, text: String::from_str(message).concat(e) }
}

/// The load for an idle share.
fn load_percent_of(idle: i64) -> (load: i64)
    ensures
        load == load_percent(idle),
{
    let load: i128 = (1000 - idle as i128) * 100;
    if load > i64::MAX as i128 {
        i64::MAX
    } else if load < i64::MIN as i128 {
        i64::MIN
    } else {
        load as i64
    }
}

impl GeneralStats {
    /// Makes general stats from what was read.
    pub fn from(
        uptime_seconds: Option<u64>,
        boot_timestamp: Option<i64>,
        load_averages: Option<LoadAverages>,
    ) -> (stats: GeneralStats)
        ensures
            stats == (GeneralStats { uptime_seconds, boot_timestamp, load_averages }),
    {
        GeneralStats { uptime_seconds, boot_timestamp, load_averages }
    }
}

impl CpuStats {
    /// Makes CPU stats from what was read: a load is what is left of the
    /// whole once the idle share is taken away, as a percentage.
    pub fn from(reading: CpuReading) -> (stats: CpuStats)
        ensures
            stats@ == cpu_stats(reading),
    {
        let per_logical_cpu_load_percent = match reading.per_logical_cpu_idle {
            Some(cpus) => {
                let mut loads: Vec<i64> = Vec::new();
                let mut i: usize = 0;
                while i < cpus.len()
                    invariant
                        i <= cpus.len(),
                        loads@ == load_percents(cpus@.take(i as int)),
                    decreases cpus.len() - i,
                {
                    loads.push(load_percent_of(cpus[i]));
                    assert(loads@ =~= load_percents(cpus@.take(i + 1)));
                    i += 1;
                }
                assert(cpus@.take(cpus.len() as int) =~= cpus@);
                assert(loads.deep_view() =~= load_percents(cpus@));
                Some(loads)
            },
            None => None,
        };

        let aggregate_load_percent = match reading.aggregate_idle {
            Some(idle) => Some(load_percent_of(idle)),
            None => None,
        };

        CpuStats {
            per_logical_cpu_load_percent,
            aggregate_load_percent,
            temp_celsius: reading.temp_celsius,
        }
    }
}

impl MemoryStats {
    /// Makes memory stats from what was read. Returns `None` if the reading failed.
    pub fn from(reading: Option<MemoryReading>) -> (stats: Option<MemoryStats>)
        ensures
            stats == match reading {
                Some(mem) => Some(memory_stats(mem)),
                None => None,
            },
    {
        match reading {
            Some(mem) => {
                let used_mem = saturating_sub_bytes(mem.total, mem.free);
                Some(MemoryStats { used_mb: bytes_to_mb(used_mem), total_mb: bytes_to_mb(mem.total) })
            },
            None => None,
        }
    }
}

impl MountStats {
    /// Makes a list of mount stats from what was read. Only mounts with more than 0 bytes of total space are included. Returns `None` if the reading failed.
    pub fn from(reading: Option<Vec<MountReading>>) -> (stats: Option<Vec<MountStats>>)
        ensures
            stats.deep_view() == match reading {
                Some(mounts) => Some(mounts_stats(mounts@)),
                None => None,
            },
    {
        match reading {
            Some(mounts) => {
                let ghost readings = mounts@;
                let mut stats: Vec<MountStats> = Vec::new();
                for mount in it: mounts.into_iter()
                    invariant
                        it.seq() == readings,
                        stats.deep_view() == mounts_stats(readings.take(it.index() as int)),
                {
                    proof {
                        assert(readings.take(it.index() + 1).drop_last() =~= readings.take(
                            it.index() as int,
                        ));
                    }
                    if mount.total != 0 {
                        let used = saturating_sub_bytes(mount.total, mount.avail);
                        let ghost before = stats.deep_view();
                        stats.push(
                            MountStats {
                                fs_type: mount.fs_type,
                                mounted_from: mount.fs_mounted_from,
                                mounted_on: mount.fs_mounted_on,
                                used_mb: bytes_to_mb(used),
                                total_mb: bytes_to_mb(mount.total),
                            },
                        );
                        assert(stats.deep_view() =~= before.push(mount_stats(mount)));
                    }
                }
                assert(readings.take(readings.len() as int) =~= readings);
                Some(stats)
            },
            None => None,
        }
    }
}

impl NetworkInterfaceStats {
    /// Makes a list of network interface stats from what was read. An interface whose counters could not be read is left out, and so is an address that is neither IPv4 nor IPv6. Returns `None` if the reading failed.
    pub fn from(reading: Option<Vec<InterfaceReading>>) -> (stats: Option<
        Vec<NetworkInterfaceStats>,
    >)
        ensures
            stats.deep_view() == match reading {
                Some(interfaces) => Some(interfaces_stats(interfaces@)),
                None => None,
            },
    {
        match reading {
            Some(interfaces) => {
                let ghost readings = interfaces@;
                let mut stats: Vec<NetworkInterfaceStats> = Vec::new();
                for interface in it: interfaces.into_iter()
                    invariant
                        it.seq() == readings,
                        stats.deep_view() == interfaces_stats(readings.take(it.index() as int)),
                {
                    proof {
                        assert(readings.take(it.index() + 1).drop_last() =~= readings.take(
                            it.index() as int,
                        ));
                    }
                    match interface.counters {
                        Some(counters) => {
                            let ghost listed = interface.addresses@;
                            let mut addresses: Vec<String> = Vec::new();
                            for address in at: interface.addresses.into_iter()
                                invariant
                                    at.seq() == listed,
                                    addresses@ == present(listed.take(at.index() as int)),
                            {
                                proof {
                                    assert(listed.take(at.index() + 1).drop_last() =~= listed.take(
                                        at.index() as int,
                                    ));
                                }
                                match address {
                                    Some(text) => addresses.push(text),
                                    None => {},
                                }
                            }
                            assert(listed.take(listed.len() as int) =~= listed);
                            let ghost before = stats.deep_view();
                            let made = NetworkInterfaceStats {
                                name: interface.name,
                                addresses,
                                sent_bytes: counters.tx_bytes,
                                received_bytes: counters.rx_bytes,
                                sent_packets: counters.tx_packets,
                                received_packets: counters.rx_packets,
                                send_errors: counters.tx_errors,
                                receive_errors: counters.rx_errors,
                            };
                            assert(made.addresses.deep_view() =~= texts(present(listed)));
                            assert(made@ == interface_stats(interface, counters));
                            stats.push(made);
                            assert(stats.deep_view() =~= before.push(
                                interface_stats(interface, counters),
                            ));
                        },
                        None => {},
                    }
                }
                assert(readings.take(readings.len() as int) =~= readings);
                Some(stats)
            },
            None => None,
        }
    }
}

impl SocketStats {
    /// Makes socket stats from what was read. Returns `None` if the reading failed.
    pub fn from(reading: Option<SocketReading>) -> (stats: Option<SocketStats>)
        ensures
            stats == match reading {
                Some(sockets) => Some(socket_stats(sockets)),
                None => None,
            },
    {
        match reading {
            Some(stats) => Some(
                SocketStats {
                    tcp_in_use: stats.tcp_sockets_in_use,
                    tcp_orphaned: stats.tcp_sockets_orphaned,
                    udp_in_use: stats.udp_sockets_in_use,
                    tcp6_in_use: stats.tcp6_sockets_in_use,
                    udp6_in_use: stats.udp6_sockets_in_use,
                },
            ),
            None => None,
        }
    }
}

impl NetworkStats {
    /// Makes network stats from what was read.
    pub fn from(interfaces: Option<Vec<InterfaceReading>>, sockets: Option<SocketReading>) -> (stats:
        NetworkStats)
        ensures
            stats@ == (NetworkStatsView {
                interfaces: match interfaces {
                    Some(list) => Some(interfaces_stats(list@)),
                    None => None,
                },
                sockets: match sockets {
                    Some(reading) => Some(socket_stats(reading)),
                    None => None,
                },
            }),
    {
        NetworkStats {
            interfaces: NetworkInterfaceStats::from(interfaces),
            sockets: SocketStats::from(sockets),
        }
    }
}

impl AllStats {
    /// Makes all stats from what was read of the system at one moment.
    pub fn from(reading: SystemReading) -> (stats: AllStats)
        ensures
            stats@ == all_stats(reading),
    {
        AllStats {
            general: GeneralStats::from(
                reading.uptime_seconds,
                reading.boot_timestamp,
                reading.load_averages,
            ),
            cpu: CpuStats::from(reading.cpu),
            memory: MemoryStats::from(reading.memory),
            filesystems: MountStats::from(reading.mounts),
            network: NetworkStats::from(reading.interfaces, reading.sockets),
            collection_time: reading.collection_time,
        }
    }
}

} // verus!
