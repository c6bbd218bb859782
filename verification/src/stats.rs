//! The snapshot: one point-in-time record of system stats.
//!
//! Every metric is optional by itself: a metric that the platform cannot
//! report is absent, and the rest of the snapshot stands. Quantities that are
//! fractions by nature (load averages, load percentages, temperatures) are
//! held as whole thousandths of their unit.

use vstd::prelude::*;

verus! {

/// All system stats
#[derive(Debug, PartialEq, Eq)]
pub struct AllStats {
    /// General system stats
    pub general: GeneralStats,
    /// CPU stats
    pub cpu: CpuStats,
    /// Memory stats
    pub memory: Option<MemoryStats>,
    /// Stats for each mounted filesystem
    pub filesystems: Option<Vec<MountStats>>,
    /// Network stats
    pub network: NetworkStats,
    /// When these stats were collected, in milliseconds since the UNIX epoch
    pub collection_time: i64,
}

/// General system stats
#[derive(Clone, Copy, Debug, PartialEq, Eq)]
pub struct GeneralStats {
    /// Number of seconds the system has been running
    pub uptime_seconds: Option<u64>,
    /// Boot time in seconds since the UNIX epoch
    pub boot_timestamp: Option<i64>,
    /// Load average values for the system
    pub load_averages: Option<LoadAverages>,
}

/// Load average values, in thousandths
#[derive(Clone, Copy, Debug, PartialEq, Eq)]
pub struct LoadAverages {
    /// Load average over the last minute
    pub one_minute: i64,
    /// Load average over the last 5 minutes
    pub five_minutes: i64,
    /// Load average over the last 15 minutes
    pub fifteen_minutes: i64,
}

/// CPU stats
#[derive(Debug, PartialEq, Eq)]
pub struct CpuStats {
    /// Load percentages for each logical CPU, in thousandths of a percent
    pub per_logical_cpu_load_percent: Option<Vec<i64>>,
    /// Load percentage of the CPU as a whole, in thousandths of a percent
    pub aggregate_load_percent: Option<i64>,
    /// Temperature of the CPU in thousandths of a degree Celsius
    pub temp_celsius: Option<i64>,
}

/// Memory stats
#[derive(Clone, Copy, Debug, PartialEq, Eq)]
pub struct MemoryStats {
    /// Megabytes of memory used
    pub used_mb: u64,
    /// Megabytes of memory total
    pub total_mb: u64,
}

/// Stats for a mounted filesystem
#[derive(Debug, PartialEq, Eq)]
pub struct MountStats {
    /// Type of filesystem (NTFS, ext3, etc.)
    pub fs_type: String,
    /// Name of the device corresponding to this mount
    pub mounted_from: String,
    /// Root path corresponding to this mount
    pub mounted_on: String,
    /// Space of this mount used in megabytes
    pub used_mb: u64,
    /// Total space for this mount in megabytes
    pub total_mb: u64,
}

/// Network stats
#[derive(Debug, PartialEq, Eq)]
pub struct NetworkStats {
    /// Stats for network interfaces
    pub interfaces: Option<Vec<NetworkInterfaceStats>>,
    /// Stats for sockets
    pub sockets: Option<SocketStats>,
}

/// Stats for a network interface
#[derive(Debug, PartialEq, Eq)]
pub struct NetworkInterfaceStats {
    /// The name of the interface
    pub name: String,
    /// IP addresses associated with this interface
    pub addresses: Vec<String>,
    /// Total bytes sent via this interface
    pub sent_bytes: u64,
    /// Total bytes received via this interface
    pub received_bytes: u64,
    /// Total packets sent via this interface
    pub sent_packets: u64,
    /// Total packets received via this interface
    pub received_packets: u64,
    /// Total number of errors that occured while sending data via this interface
    pub send_errors: u64,
    /// Total number of errors that occured while receiving data via this interface
    pub receive_errors: u64,
}

/// Stats for sockets
#[derive(Clone, Copy, Debug, PartialEq, Eq)]
pub struct SocketStats {
    /// Number of TCP sockets in use
    pub tcp_in_use: usize,
    /// Number of orphaned TCP sockets
    pub tcp_orphaned: usize,
    /// Number of UDP sockets in use
    pub udp_in_use: usize,
    /// Number of IPv6 TCP sockets in use
    pub tcp6_in_use: usize,
    /// Number of IPv6 UDP sockets in use
    pub udp6_in_use: usize,
}

/// What a [`CpuStats`] holds, as mathematical values.
pub struct CpuStatsView {
    pub per_logical_cpu_load_percent: Option<Seq<i64>>,
    pub aggregate_load_percent: Option<i64>,
    pub temp_celsius: Option<i64>,
}

/// What a [`MountStats`] holds, as mathematical values.
pub struct MountStatsView {
    pub fs_type: Seq<char>,
    pub mounted_from: Seq<char>,
    pub mounted_on: Seq<char>,
    pub used_mb: u64,
    pub total_mb: u64,
}

/// What a [`NetworkInterfaceStats`] holds, as mathematical values.
pub struct NetworkInterfaceStatsView {
    pub name: Seq<char>,
    pub addresses: Seq<Seq<char>>,
    pub sent_bytes: u64,
    pub received_bytes: u64,
    pub sent_packets: u64,
    pub received_packets: u64,
    pub send_errors: u64,
    pub receive_errors: u64,
}

/// What a [`NetworkStats`] holds, as mathematical values.
pub struct NetworkStatsView {
    pub interfaces: Option<Seq<NetworkInterfaceStatsView>>,
    pub sockets: Option<SocketStats>,
}

/// What an [`AllStats`] holds, as mathematical values.
pub struct AllStatsView {
    pub general: GeneralStats,
    pub cpu: CpuStatsView,
    pub memory: Option<MemoryStats>,
    pub filesystems: Option<Seq<MountStatsView>>,
    pub network: NetworkStatsView,
    pub collection_time: i64,
}

impl DeepView for CpuStats {
    type V = CpuStatsView;

    open spec fn deep_view(&self) -> CpuStatsView {
        CpuStatsView {
            per_logical_cpu_load_percent: self.per_logical_cpu_load_percent.deep_view(),
            aggregate_load_percent: self.aggregate_load_percent,
            temp_celsius: self.temp_celsius,
        }
    }
}

impl View for CpuStats {
    type V = CpuStatsView;

    open spec fn view(&self) -> CpuStatsView {
        self.deep_view()
    }
}

impl DeepView for MountStats {
    type V = MountStatsView;

    open spec fn deep_view(&self) -> MountStatsView {
        MountStatsView {
            fs_type: self.fs_type@,
            mounted_from: self.mounted_from@,
            mounted_on: self.mounted_on@,
            used_mb: self.used_mb,
            total_mb: self.total_mb,
        }
    }
}

impl View for MountStats {
    type V = MountStatsView;

    open spec fn view(&self) -> MountStatsView {
        self.deep_view()
    }
}

impl DeepView for NetworkInterfaceStats {
    type V = NetworkInterfaceStatsView;

    open spec fn deep_view(&self) -> NetworkInterfaceStatsView {
        NetworkInterfaceStatsView {
            name: self.name@,
            addresses: self.addresses.deep_view(),
            sent_bytes: self.sent_bytes,
            received_bytes: self.received_bytes,
            sent_packets: self.sent_packets,
            received_packets: self.received_packets,
            send_errors: self.send_errors,
            receive_errors: self.receive_errors,
        }
    }
}

impl View for NetworkInterfaceStats {
    type V = NetworkInterfaceStatsView;

    open spec fn view(&self) -> NetworkInterfaceStatsView {
        self.deep_view()
    }
}

impl DeepView for NetworkStats {
    type V = NetworkStatsView;

    open spec fn deep_view(&self) -> NetworkStatsView {
        NetworkStatsView { interfaces: self.interfaces.deep_view(), sockets: self.sockets }
    }
}

impl View for NetworkStats {
    type V = NetworkStatsView;

    open spec fn view(&self) -> NetworkStatsView {
        self.deep_view()
    }
}

impl DeepView for AllStats {
    type V = AllStatsView;

    open spec fn deep_view(&self) -> AllStatsView {
        AllStatsView {
            general: self.general,
            cpu: self.cpu.deep_view(),
            memory: self.memory,
            filesystems: self.filesystems.deep_view(),
            network: self.network.deep_view(),
            collection_time: self.collection_time,
        }
    }
}

impl View for AllStats {
    type V = AllStatsView;

    open spec fn view(&self) -> AllStatsView {
        self.deep_view()
    }
}

/// A copy of a list of numbers.
fn clone_numbers(values: &Vec<i64>) -> (copy: Vec<i64>)
    ensures
        copy@ == values@,
{
    let mut copy: Vec<i64> = Vec::with_capacity(values.len());
    let mut i: usize = 0;
    while i < values.len()
        invariant
            i <= values.len(),
            copy@ == values@.take(i as int),
        decreases values.len() - i,
    {
        copy.push(values[i]);
        assert(values@.take(i + 1) =~= values@.take(i as int).push(values@[i as int]));
        i += 1;
    }
    assert(values@.take(values.len() as int) =~= values@);
    copy
}

/// A copy of a list of texts.
fn clone_texts(texts: &Vec<String>) -> (copy: Vec<String>)
    ensures
        copy@ == texts@,
{
    let mut copy: Vec<String> = Vec::with_capacity(texts.len());
    let mut i: usize = 0;
    while i < texts.len()
        invariant
            i <= texts.len(),
            copy@ == texts@.take(i as int),
        decreases texts.len() - i,
    {
        copy.push(texts[i].clone());
        assert(texts@.take(i + 1) =~= texts@.take(i as int).push(texts@[i as int]));
        i += 1;
    }
    assert(texts@.take(texts.len() as int) =~= texts@);
    copy
}

impl Clone for CpuStats {
    fn clone(&self) -> (copy: Self)
        ensures
            copy@ == self@,
    {
        let per_logical_cpu_load_percent = match &self.per_logical_cpu_load_percent {
            Some(loads) => Some(clone_numbers(loads)),
            None => None,
        };
        CpuStats {
            per_logical_cpu_load_percent,
            aggregate_load_percent: self.aggregate_load_percent,
            temp_celsius: self.temp_celsius,
        }
    }
}

impl Clone for MountStats {
    fn clone(&self) -> (copy: Self)
        ensures
            copy == *self,
    {
        MountStats {
            fs_type: self.fs_type.clone(),
            mounted_from: self.mounted_from.clone(),
            mounted_on: self.mounted_on.clone(),
            used_mb: self.used_mb,
            total_mb: self.total_mb,
        }
    }
}

impl Clone for NetworkInterfaceStats {
    fn clone(&self) -> (copy: Self)
        ensures
            copy@ == self@,
            copy.addresses@ == self.addresses@,
    {
        NetworkInterfaceStats {
            name: self.name.clone(),
            addresses: clone_texts(&self.addresses),
            sent_bytes: self.sent_bytes,
            received_bytes: self.received_bytes,
            sent_packets: self.sent_packets,
            received_packets: self.received_packets,
            send_errors: self.send_errors,
            receive_errors: self.receive_errors,
        }
    }
}

/// A copy of a list of mounts.
fn clone_mounts(mounts: &Vec<MountStats>) -> (copy: Vec<MountStats>)
    ensures
        copy@ == mounts@,
{
    let mut copy: Vec<MountStats> = Vec::with_capacity(mounts.len());
    let mut i: usize = 0;
    while i < mounts.len()
        invariant
            i <= mounts.len(),
            copy@ == mounts@.take(i as int),
        decreases mounts.len() - i,
    {
        copy.push(mounts[i].clone());
        assert(mounts@.take(i + 1) =~= mounts@.take(i as int).push(mounts@[i as int]));
        i += 1;
    }
    assert(mounts@.take(mounts.len() as int) =~= mounts@);
    copy
}

/// A copy of a list of interfaces.
fn clone_interfaces(interfaces: &Vec<NetworkInterfaceStats>) -> (copy: Vec<NetworkInterfaceStats>)
    ensures
        copy.deep_view() == interfaces.deep_view(),
{
    let mut copy: Vec<NetworkInterfaceStats> = Vec::with_capacity(interfaces.len());
    let mut i: usize = 0;
    while i < interfaces.len()
        invariant
            i <= interfaces.len(),
            copy.len() == i,
            forall|k: int| 0 <= k < i ==> copy[k]@ == interfaces[k]@,
        decreases interfaces.len() - i,
    {
        copy.push(interfaces[i].clone());
        i += 1;
    }
    assert(copy.deep_view() =~= interfaces.deep_view());
    copy
}

impl Clone for NetworkStats {
    fn clone(&self) -> (copy: Self)
        ensures
            copy@ == self@,
    {
        let interfaces = match &self.interfaces {
            Some(list) => Some(clone_interfaces(list)),
            None => None,
        };
        NetworkStats { interfaces, sockets: self.sockets }
    }
}

impl Clone for AllStats {
    fn clone(&self) -> (copy: Self)
        ensures
            copy@ == self@,
    {
        let filesystems = match &self.filesystems {
            Some(mounts) => Some(clone_mounts(mounts)),
            None => None,
        };
        AllStats {
            general: self.general,
            cpu: self.cpu.clone(),
            memory: self.memory,
            filesystems,
            network: self.network.clone(),
            collection_time: self.collection_time,
        }
    }
}

} // verus!
