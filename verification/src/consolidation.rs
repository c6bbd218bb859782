//! Consolidation: a batch of snapshots reduced to one.
//!
//! Numeric metrics come out as the mean of the snapshots that carry them:
//! the sum of what they read over their number, rounded once. What describes
//! the machine rather than measures it is taken from the last snapshot of
//! the batch.

use crate::average::{
    as_ints, counted, lemma_counted_bounds, lemma_counted_unseen, lemma_mean_of_bounds,
    lemma_mean_of_single, lemma_present_add, lemma_present_bounds, lemma_present_len, longest,
    mean_of, means_of_lists, present, update_averages, RunningMean,
};
use crate::stats::{
    AllStats, AllStatsView, CpuStats, CpuStatsView, GeneralStats, LoadAverages, MemoryStats,
    NetworkStats, NetworkStatsView, SocketStats,
};
use vstd::prelude::*;

verus! {

/// The metrics that consolidation averages one value at a time.
#[derive(Clone, Copy, Debug, PartialEq, Eq)]
pub enum Metric {
    LoadOneMinute,
    LoadFiveMinutes,
    LoadFifteenMinutes,
    CpuAggregateLoad,
    CpuTemperature,
    MemoryUsed,
    MemoryTotal,
    TcpInUse,
    TcpOrphaned,
    UdpInUse,
    Tcp6InUse,
    Udp6InUse,
}

/// What a snapshot reads for a metric, where it carries it: in thousandths
/// for load averages, loads and temperature, in whole numbers for
/// megabytes and socket counts.
pub open spec fn reading(stats: AllStatsView, metric: Metric) -> Option<int> {
    match metric {
        Metric::LoadOneMinute => match stats.general.load_averages {
            Some(loads) => Some(loads.one_minute as int),
            None => None,
        },
        Metric::LoadFiveMinutes => match stats.general.load_averages {
            Some(loads) => Some(loads.five_minutes as int),
            None => None,
        },
        Metric::LoadFifteenMinutes => match stats.general.load_averages {
            Some(loads) => Some(loads.fifteen_minutes as int),
            None => None,
        },
        Metric::CpuAggregateLoad => match stats.cpu.aggregate_load_percent {
            Some(load) => Some(load as int),
            None => None,
        },
        Metric::CpuTemperature => match stats.cpu.temp_celsius {
            Some(temp) => Some(temp as int),
            None => None,
        },
        Metric::MemoryUsed => match stats.memory {
            Some(memory) => Some(memory.used_mb as int),
            None => None,
        },
        Metric::MemoryTotal => match stats.memory {
            Some(memory) => Some(memory.total_mb as int),
            None => None,
        },
        Metric::TcpInUse => match stats.network.sockets {
            Some(sockets) => Some(sockets.tcp_in_use as int),
            None => None,
        },
        Metric::TcpOrphaned => match stats.network.sockets {
            Some(sockets) => Some(sockets.tcp_orphaned as int),
            None => None,
        },
        Metric::UdpInUse => match stats.network.sockets {
            Some(sockets) => Some(sockets.udp_in_use as int),
            None => None,
        },
        Metric::Tcp6InUse => match stats.network.sockets {
            Some(sockets) => Some(sockets.tcp6_in_use as int),
            None => None,
        },
        Metric::Udp6InUse => match stats.network.sockets {
            Some(sockets) => Some(sockets.udp6_in_use as int),
            None => None,
        },
    }
}

/// What each snapshot of a batch reads for a metric, in the batch's order.
pub open spec fn readings(batch: Seq<AllStatsView>, metric: Metric) -> Seq<Option<int>> {
    Seq::new(batch.len(), |i: int| reading(batch[i], metric))
}

/// The mean of a metric over the snapshots of a batch that carry it: the
/// sum of what they read over their number, to the nearest whole number of
/// what the metric is read in. (Zero where none carries it.)
pub open spec fn mean(batch: Seq<AllStatsView>, metric: Metric) -> int {
    mean_of(present(readings(batch, metric)))
}

/// The per-CPU loads of each snapshot of a batch, where it carries them.
pub open spec fn core_loads(batch: Seq<AllStatsView>) -> Seq<Option<Seq<int>>> {
    Seq::new(
        batch.len(),
        |i: int|
            match batch[i].cpu.per_logical_cpu_load_percent {
                Some(loads) => Some(as_ints(loads)),
                None => None,
            },
    )
}

/// The means of the per-CPU loads over the snapshots of a batch that carry
/// them, one for each position of the longest list among them. A list that
/// is too short for a position counts for it as carrying the position's
/// mean so far, which is zero before any list had the position.
pub open spec fn core_means(batch: Seq<AllStatsView>) -> Seq<int> {
    means_of_lists(present(core_loads(batch)))
}

/// The least value that a reading of a metric can have.
pub open spec fn least(metric: Metric) -> int {
    match metric {
        Metric::LoadOneMinute
        | Metric::LoadFiveMinutes
        | Metric::LoadFifteenMinutes
        | Metric::CpuAggregateLoad
        | Metric::CpuTemperature => i64::MIN as int,
        _ => 0,
    }
}

/// The greatest value that a reading of a metric can have.
pub open spec fn greatest(metric: Metric) -> int {
    match metric {
        Metric::LoadOneMinute
        | Metric::LoadFiveMinutes
        | Metric::LoadFifteenMinutes
        | Metric::CpuAggregateLoad
        | Metric::CpuTemperature => i64::MAX as int,
        Metric::MemoryUsed | Metric::MemoryTotal => u64::MAX as int,
        _ => usize::MAX as int,
    }
}

/// Whether any snapshot of a batch carries a metric.
pub open spec fn carried(batch: Seq<AllStatsView>, metric: Metric) -> bool {
    present(readings(batch, metric)).len() > 0
}

/// Whether any snapshot of a batch carries per-CPU loads.
pub open spec fn core_loads_carried(batch: Seq<AllStatsView>) -> bool {
    present(core_loads(batch)).len() > 0
}

/// What a batch consolidates to.
///
/// Load averages, CPU loads, temperature, memory and socket counts are the
/// means of the snapshots that carry them, each rounded once, to the
/// nearest of what it is read in; a metric that no snapshot carries stays
/// absent. Uptime, boot time, filesystems, network interfaces and the
/// collection time are those of the last snapshot.
pub open spec fn consolidated(batch: Seq<AllStatsView>) -> AllStatsView {
    let last = batch.last();
    let means = core_means(batch);
    AllStatsView {
        general: GeneralStats {
            uptime_seconds: last.general.uptime_seconds,
            boot_timestamp: last.general.boot_timestamp,
            load_averages: if carried(batch, Metric::LoadOneMinute) {
                Some(
                    LoadAverages {
                        one_minute: mean(batch, Metric::LoadOneMinute) as i64,
                        five_minutes: mean(batch, Metric::LoadFiveMinutes) as i64,
                        fifteen_minutes: mean(batch, Metric::LoadFifteenMinutes) as i64,
                    },
                )
            } else {
                None
            },
        },
        cpu: CpuStatsView {
            per_logical_cpu_load_percent: if core_loads_carried(batch) {
                Some(Seq::new(means.len(), |i: int| means[i] as i64))
            } else {
                None
            },
            aggregate_load_percent: if carried(batch, Metric::CpuAggregateLoad) {
                Some(mean(batch, Metric::CpuAggregateLoad) as i64)
            } else {
                None
            },
            temp_celsius: if carried(batch, Metric::CpuTemperature) {
                Some(mean(batch, Metric::CpuTemperature) as i64)
            } else {
                None
            },
        },
        memory: if carried(batch, Metric::MemoryUsed) {
            Some(
                MemoryStats {
                    used_mb: mean(batch, Metric::MemoryUsed) as u64,
                    total_mb: mean(batch, Metric::MemoryTotal) as u64,
                },
            )
        } else {
            None
        },
        filesystems: last.filesystems,
        network: NetworkStatsView {
            interfaces: last.network.interfaces,
            sockets: if carried(batch, Metric::TcpInUse) {
                Some(
                    SocketStats {
                        tcp_in_use: mean(batch, Metric::TcpInUse) as usize,
                        tcp_orphaned: mean(batch, Metric::TcpOrphaned) as usize,
                        udp_in_use: mean(batch, Metric::UdpInUse) as usize,
                        tcp6_in_use: mean(batch, Metric::Tcp6InUse) as usize,
                        udp6_in_use: mean(batch, Metric::Udp6InUse) as usize,
                    },
                )
            } else {
                None
            },
        },
        collection_time: last.collection_time,
    }
}

/// The mean of a metric stays within the range of its readings.
pub proof fn lemma_mean_bounds(batch: Seq<AllStatsView>, metric: Metric)
    ensures
        least(metric) <= mean(batch, metric) <= greatest(metric),
        present(readings(batch, metric)).len() <= batch.len(),
{
    let all = readings(batch, metric);
    lemma_present_len(all);
    lemma_present_bounds(all, least(metric), greatest(metric));
    lemma_mean_of_bounds(present(all), least(metric), greatest(metric));
}

/// The mean of a metric that some snapshot of the batch carries lies
/// between the least and the greatest of what the snapshots read for it.
pub proof fn lemma_mean_between_readings(batch: Seq<AllStatsView>, metric: Metric, lo: int, hi: int)
    requires
        carried(batch, metric),
        forall|k: int|
            0 <= k < batch.len() ==> (reading(#[trigger] batch[k], metric) matches Some(v) ==> lo
                <= v <= hi),
    ensures
        lo <= mean(batch, metric) <= hi,
{
    let all = readings(batch, metric);
    assert forall|k: int| 0 <= k < all.len() implies (#[trigger] all[k] matches Some(v) ==> lo
        <= v <= hi) by {
        assert(all[k] == reading(batch[k], metric));
    }
    lemma_present_bounds(all, lo, hi);
    lemma_mean_of_bounds(present(all), lo, hi);
}

/// A metric that no snapshot of a batch carries is not carried by the
/// batch: it stays absent when the batch is consolidated, and no zero
/// stands in for it.
pub proof fn lemma_absent_everywhere_stays_absent(batch: Seq<AllStatsView>, metric: Metric)
    requires
        forall|k: int| 0 <= k < batch.len() ==> reading(#[trigger] batch[k], metric) is None,
    ensures
        !carried(batch, metric),
{
    let all = readings(batch, metric);
    assert forall|k: int| 0 <= k < all.len() implies (#[trigger] all[k]) is None by {
        assert(all[k] == reading(batch[k], metric));
    }
    lemma_none_present(all);
}

/// Per-CPU loads that no snapshot of a batch carries are not carried by the
/// batch: they stay absent when the batch is consolidated.
pub proof fn lemma_core_loads_absent_everywhere_stay_absent(batch: Seq<AllStatsView>)
    requires
        forall|k: int|
            0 <= k < batch.len() ==> (#[trigger] batch[k]).cpu.per_logical_cpu_load_percent is None,
    ensures
        !core_loads_carried(batch),
{
    let all = core_loads(batch);
    assert forall|k: int| 0 <= k < all.len() implies (#[trigger] all[k]) is None by {
        assert(batch[k].cpu.per_logical_cpu_load_percent is None);
    }
    lemma_none_present(all);
}

/// A snapshot that does not carry a metric has no part in the mean of the
/// metric: the mean is what it is without the snapshot. An absent value is
/// skipped; it does not count as zero.
pub proof fn lemma_absent_is_skipped(batch: Seq<AllStatsView>, metric: Metric, i: int)
    requires
        0 <= i < batch.len(),
        reading(batch[i], metric) is None,
    ensures
        mean(batch, metric) == mean(batch.remove(i), metric),
{
    let all = readings(batch, metric);
    let before = all.take(i);
    let after = all.skip(i + 1);
    let absent = seq![all[i]];
    assert(all =~= before + absent + after);
    assert(readings(batch.remove(i), metric) =~= before + after);
    lemma_present_add(before + absent, after);
    lemma_present_add(before, absent);
    lemma_present_add(before, after);
    assert(absent.drop_last() =~= Seq::<Option<int>>::empty());
    assert(present(Seq::<Option<int>>::empty()) =~= Seq::<int>::empty());
    assert(absent.last() == all[i]);
    assert(present(absent) =~= Seq::<int>::empty());
    assert(present(before) + present(absent) =~= present(before));
}

/// A metric that a single snapshot of the batch carries comes out as that
/// snapshot read it: the mean of one value is the value.
pub proof fn lemma_single_reading_is_kept(batch: Seq<AllStatsView>, metric: Metric, i: int)
    requires
        0 <= i < batch.len(),
        reading(batch[i], metric) is Some,
        forall|k: int| 0 <= k < batch.len() && k != i ==> reading(#[trigger] batch[k], metric) is None,
    ensures
        carried(batch, metric),
        Some(mean(batch, metric)) == reading(batch[i], metric),
{
    let value = reading(batch[i], metric).unwrap();
    lemma_single_present(readings(batch, metric), i);
    lemma_mean_of_single(value);
}

/// Where one reading alone is present, it is all that is present.
proof fn lemma_single_present<T>(all: Seq<Option<T>>, i: int)
    requires
        0 <= i < all.len(),
        all[i] is Some,
        forall|k: int| 0 <= k < all.len() && k != i ==> (#[trigger] all[k]) is None,
    ensures
        present(all) == seq![all[i].unwrap()],
    decreases all.len(),
{
    let rest = all.drop_last();
    if i == all.len() - 1 {
        lemma_none_present(rest);
        assert(present(all) =~= seq![all[i].unwrap()]);
    } else {
        assert(rest[i] == all[i]);
        lemma_single_present(rest, i);
    }
}

/// Where no reading is present, nothing is.
proof fn lemma_none_present<T>(all: Seq<Option<T>>)
    requires
        forall|k: int| 0 <= k < all.len() ==> (#[trigger] all[k]) is None,
    ensures
        present(all) == Seq::<T>::empty(),
    decreases all.len(),
{
    if all.len() > 0 {
        lemma_none_present(all.drop_last());
    }
}

/// The present readings of one more snapshot are those before it, followed
/// by its own where it has one.
proof fn lemma_readings_step(batch: Seq<AllStatsView>, i: int, metric: Metric)
    requires
        0 <= i < batch.len(),
    ensures
        present(readings(batch.take(i + 1), metric)) == match reading(batch[i], metric) {
            Some(v) => present(readings(batch.take(i), metric)).push(v),
            None => present(readings(batch.take(i), metric)),
        },
        present(readings(batch.take(i), metric)).len() <= i,
{
    let longer = readings(batch.take(i + 1), metric);
    assert(longer.drop_last() =~= readings(batch.take(i), metric));
    assert(longer.last() == reading(batch[i], metric));
    lemma_present_len(readings(batch.take(i), metric));
}

/// Every per-CPU load of a batch fits the machine integer that it is read
/// in.
proof fn lemma_core_lists_bounds(batch: Seq<AllStatsView>)
    ensures
        forall|j: int, k: int|
            0 <= j < present(core_loads(batch)).len() && 0 <= k < present(
                core_loads(batch),
            )[j].len() ==> i64::MIN <= #[trigger] present(core_loads(batch))[j][k] <= i64::MAX,
    decreases batch.len(),
{
    if batch.len() > 0 {
        let rest = batch.drop_last();
        lemma_core_lists_bounds(rest);
        let all = core_loads(batch);
        let lists = present(all);
        assert(all.drop_last() =~= core_loads(rest));
        assert forall|j: int, k: int| 0 <= j < lists.len() && 0 <= k < lists[j].len() implies i64::MIN
            <= #[trigger] lists[j][k] <= i64::MAX by {
            if j < present(core_loads(rest)).len() {
                assert(lists[j] == present(core_loads(rest))[j]);
            } else {
                let loads = batch.last().cpu.per_logical_cpu_load_percent.unwrap();
                assert(lists[j] == as_ints(loads));
            }
        }
    }
}

/// The present per-CPU lists of one more snapshot are those before it,
/// followed by its own where it has one.
proof fn lemma_core_loads_step(batch: Seq<AllStatsView>, i: int)
    requires
        0 <= i < batch.len(),
    ensures
        present(core_loads(batch.take(i + 1))) == match batch[i].cpu.per_logical_cpu_load_percent {
            Some(loads) => present(core_loads(batch.take(i))).push(as_ints(loads)),
            None => present(core_loads(batch.take(i))),
        },
        present(core_loads(batch.take(i))).len() <= i,
{
    let longer = core_loads(batch.take(i + 1));
    assert(longer.drop_last() =~= core_loads(batch.take(i)));
    lemma_present_len(core_loads(batch.take(i)));
}

/// What a snapshot reads for a metric, where it carries it.
pub fn reading_of(stats: &AllStats, metric: Metric) -> (value: Option<i128>)
    ensures
        match value {
            Some(v) => reading(stats@, metric) == Some(v as int),
            None => reading(stats@, metric).is_none(),
        },
{
    match metric {
        Metric::LoadOneMinute => match &stats.general.load_averages {
            Some(loads) => Some(loads.one_minute as i128),
            None => None,
        },
        Metric::LoadFiveMinutes => match &stats.general.load_averages {
            Some(loads) => Some(loads.five_minutes as i128),
            None => None,
        },
        Metric::LoadFifteenMinutes => match &stats.general.load_averages {
            Some(loads) => Some(loads.fifteen_minutes as i128),
            None => None,
        },
        Metric::CpuAggregateLoad => match stats.cpu.aggregate_load_percent {
            Some(load) => Some(load as i128),
            None => None,
        },
        Metric::CpuTemperature => match stats.cpu.temp_celsius {
            Some(temp) => Some(temp as i128),
            None => None,
        },
        Metric::MemoryUsed => match &stats.memory {
            Some(memory) => Some(memory.used_mb as i128),
            None => None,
        },
        Metric::MemoryTotal => match &stats.memory {
            Some(memory) => Some(memory.total_mb as i128),
            None => None,
        },
        Metric::TcpInUse => match &stats.network.sockets {
            Some(sockets) => Some(sockets.tcp_in_use as i128),
            None => None,
        },
        Metric::TcpOrphaned => match &stats.network.sockets {
            Some(sockets) => Some(sockets.tcp_orphaned as i128),
            None => None,
        },
        Metric::UdpInUse => match &stats.network.sockets {
            Some(sockets) => Some(sockets.udp_in_use as i128),
            None => None,
        },
        Metric::Tcp6InUse => match &stats.network.sockets {
            Some(sockets) => Some(sockets.tcp6_in_use as i128),
            None => None,
        },
        Metric::Udp6InUse => match &stats.network.sockets {
            Some(sockets) => Some(sockets.udp6_in_use as i128),
            None => None,
        },
    }
}

/// Consolidates a batch of snapshots into one.
///
/// The batch must not be empty. Each numeric metric is averaged over the
/// snapshots that carry it, an absent value being skipped, not counted as
/// zero, and a metric that none of them carries staying absent; the rest is
/// taken from the last snapshot.
pub fn consolidate_all_stats(stats_list: Vec<AllStats>) -> (result: AllStats)
    requires
        stats_list.len() > 0,
    ensures
        result@ == consolidated(stats_list.deep_view()),
{
    let mut stats_list = stats_list;
    let ghost batch = stats_list.deep_view();

    // deal with stats we need to calculate averages for first
    let mut average_one_min_load_average = RunningMean::new();
    let mut average_five_min_load_average = RunningMean::new();
    let mut average_fifteen_min_load_average = RunningMean::new();

    let mut average_per_logical_cpu_loads: Vec<RunningMean> = Vec::new();
    let mut per_logical_cpu_loads_seen: usize = 0;
    let mut average_aggregate_cpu_load = RunningMean::new();
    let mut average_temp = RunningMean::new();

    let mut average_mem_used = RunningMean::new();
    let mut average_mem_total = RunningMean::new();

    let mut average_tcp_used = RunningMean::new();
    let mut average_tcp_orphaned = RunningMean::new();
    let mut average_udp_used = RunningMean::new();
    let mut average_tcp6_used = RunningMean::new();
    let mut average_udp6_used = RunningMean::new();

    let mut i: usize = 0;
    while i < stats_list.len()
        invariant
            i <= stats_list.len(),
            batch == stats_list.deep_view(),
            average_one_min_load_average.wf(),
            average_one_min_load_average.values() == present(
                readings(batch.take(i as int), Metric::LoadOneMinute),
            ),
            average_five_min_load_average.wf(),
            average_five_min_load_average.values() == present(
                readings(batch.take(i as int), Metric::LoadFiveMinutes),
            ),
            average_fifteen_min_load_average.wf(),
            average_fifteen_min_load_average.values() == present(
                readings(batch.take(i as int), Metric::LoadFifteenMinutes),
            ),
            per_logical_cpu_loads_seen == present(core_loads(batch.take(i as int))).len(),
            average_per_logical_cpu_loads.len() == longest(
                present(core_loads(batch.take(i as int))),
            ),
            forall|k: int|
                0 <= k < average_per_logical_cpu_loads.len() ==> (
                #[trigger] average_per_logical_cpu_loads[k]).wf()
                    && average_per_logical_cpu_loads[k].values() == counted(
                    present(core_loads(batch.take(i as int))),
                    k,
                ),
            average_aggregate_cpu_load.wf(),
            average_aggregate_cpu_load.values() == present(
                readings(batch.take(i as int), Metric::CpuAggregateLoad),
            ),
            average_temp.wf(),
            average_temp.values() == present(
                readings(batch.take(i as int), Metric::CpuTemperature),
            ),
            average_mem_used.wf(),
            average_mem_used.values() == present(
                readings(batch.take(i as int), Metric::MemoryUsed),
            ),
            average_mem_total.wf(),
            average_mem_total.values() == present(
                readings(batch.take(i as int), Metric::MemoryTotal),
            ),
            average_tcp_used.wf(),
            average_tcp_used.values() == present(readings(batch.take(i as int), Metric::TcpInUse)),
            average_tcp_orphaned.wf(),
            average_tcp_orphaned.values() == present(
                readings(batch.take(i as int), Metric::TcpOrphaned),
            ),
            average_udp_used.wf(),
            average_udp_used.values() == present(readings(batch.take(i as int), Metric::UdpInUse)),
            average_tcp6_used.wf(),
            average_tcp6_used.values() == present(
                readings(batch.take(i as int), Metric::Tcp6InUse),
            ),
            average_udp6_used.wf(),
            average_udp6_used.values() == present(
                readings(batch.take(i as int), Metric::Udp6InUse),
            ),
        decreases stats_list.len() - i,
    {
        let all_stats = &stats_list[i];
        proof {
            assert(batch[i as int] == all_stats.deep_view());
            lemma_readings_step(batch, i as int, Metric::LoadOneMinute);
            lemma_readings_step(batch, i as int, Metric::LoadFiveMinutes);
            lemma_readings_step(batch, i as int, Metric::LoadFifteenMinutes);
            lemma_core_loads_step(batch, i as int);
            lemma_readings_step(batch, i as int, Metric::CpuAggregateLoad);
            lemma_readings_step(batch, i as int, Metric::CpuTemperature);
            lemma_readings_step(batch, i as int, Metric::MemoryUsed);
            lemma_readings_step(batch, i as int, Metric::MemoryTotal);
            lemma_readings_step(batch, i as int, Metric::TcpInUse);
            lemma_readings_step(batch, i as int, Metric::TcpOrphaned);
            lemma_readings_step(batch, i as int, Metric::UdpInUse);
            lemma_readings_step(batch, i as int, Metric::Tcp6InUse);
            lemma_readings_step(batch, i as int, Metric::Udp6InUse);
        }

        if let Some(load_averages) = &all_stats.general.load_averages {
            average_one_min_load_average = average_one_min_load_average.updated_average(load_averages.one_minute as i128);
            average_five_min_load_average = average_five_min_load_average.updated_average(load_averages.five_minutes as i128);
            average_fifteen_min_load_average = average_fifteen_min_load_average.updated_average(load_averages.fifteen_minutes as i128);
        }

        if let Some(loads) = &all_stats.cpu.per_logical_cpu_load_percent {
            per_logical_cpu_loads_seen = per_logical_cpu_loads_seen + 1;
            let ghost lists = present(core_loads(batch.take(i as int)));
            let ghost longer = present(core_loads(batch.take(i + 1)));
            proof {
                assert(longer.drop_last() =~= lists);
                assert(longer.last() == as_ints(loads@));
                lemma_core_lists_bounds(batch.take(i as int));
                assert forall|k: int| 0 <= k < average_per_logical_cpu_loads.len() implies (
                #[trigger] average_per_logical_cpu_loads[k]).values().len()
                    == per_logical_cpu_loads_seen - 1 by {
                    lemma_counted_bounds(lists, k, i64::MIN as int, i64::MAX as int);
                }
            }
            let ghost before = average_per_logical_cpu_loads@;
            update_averages(
                &mut average_per_logical_cpu_loads,
                loads.as_slice(),
                per_logical_cpu_loads_seen,
            );
            proof {
                assert forall|k: int| 0 <= k < average_per_logical_cpu_loads.len() implies (
                #[trigger] average_per_logical_cpu_loads[k]).values() == counted(longer, k) by {
                    if k >= before.len() {
                        lemma_counted_unseen(lists, k);
                    }
                }
            }
        }

        if let Some(aggregate) = &all_stats.cpu.aggregate_load_percent {
            average_aggregate_cpu_load = average_aggregate_cpu_load.updated_average(*aggregate as i128);
        }

        if let Some(temp) = &all_stats.cpu.temp_celsius {
            average_temp = average_temp.updated_average(*temp as i128);
        }

        if let Some(memory_stats) = &all_stats.memory {
            average_mem_used = average_mem_used.updated_average(memory_stats.used_mb as i128);
            average_mem_total = average_mem_total.updated_average(memory_stats.total_mb as i128);
        }

        if let Some(socket_stats) = &all_stats.network.sockets {
            average_tcp_used = average_tcp_used.updated_average(socket_stats.tcp_in_use as i128);
            average_tcp_orphaned = average_tcp_orphaned.updated_average(socket_stats.tcp_orphaned as i128);
            average_udp_used = average_udp_used.updated_average(socket_stats.udp_in_use as i128);
            average_tcp6_used = average_tcp6_used.updated_average(socket_stats.tcp6_in_use as i128);
            average_udp6_used = average_udp6_used.updated_average(socket_stats.udp6_in_use as i128);
        }

        i += 1;
    }

    proof {
        assert(batch.take(i as int) =~= batch);
        lemma_mean_bounds(batch, Metric::LoadOneMinute);
        lemma_mean_bounds(batch, Metric::LoadFiveMinutes);
        lemma_mean_bounds(batch, Metric::LoadFifteenMinutes);
        lemma_mean_bounds(batch, Metric::CpuAggregateLoad);
        lemma_mean_bounds(batch, Metric::CpuTemperature);
        lemma_mean_bounds(batch, Metric::MemoryUsed);
        lemma_mean_bounds(batch, Metric::MemoryTotal);
        lemma_mean_bounds(batch, Metric::TcpInUse);
        lemma_mean_bounds(batch, Metric::TcpOrphaned);
        lemma_mean_bounds(batch, Metric::UdpInUse);
        lemma_mean_bounds(batch, Metric::Tcp6InUse);
        lemma_mean_bounds(batch, Metric::Udp6InUse);
        assert(batch.last() == stats_list@.last().deep_view());
    }

    let last_stats = stats_list.pop().unwrap();
    let load_averages = if average_one_min_load_average.count() > 0 {
        Some(
            LoadAverages {
                one_minute: average_one_min_load_average.mean() as i64,
                five_minutes: average_five_min_load_average.mean() as i64,
                fifteen_minutes: average_fifteen_min_load_average.mean() as i64,
            },
        )
    } else {
        None
    };
    let general = GeneralStats {
        uptime_seconds: last_stats.general.uptime_seconds,
        boot_timestamp: last_stats.general.boot_timestamp,
        load_averages,
    };

    let per_logical_cpu_load_percent = if per_logical_cpu_loads_seen > 0 {
        let ghost lists = present(core_loads(batch));
        let mut means: Vec<i64> = Vec::new();
        let mut cpu: usize = 0;
        while cpu < average_per_logical_cpu_loads.len()
            invariant
                cpu <= average_per_logical_cpu_loads.len(),
                lists == present(core_loads(batch)),
                average_per_logical_cpu_loads.len() == longest(lists),
                forall|k: int|
                    0 <= k < average_per_logical_cpu_loads.len() ==> (
                    #[trigger] average_per_logical_cpu_loads[k]).wf()
                        && average_per_logical_cpu_loads[k].values() == counted(lists, k),
                means.len() == cpu,
                forall|k: int| 0 <= k < cpu ==> means[k] == mean_of(counted(lists, k)),
            decreases average_per_logical_cpu_loads.len() - cpu,
        {
            proof {
                lemma_core_lists_bounds(batch);
                lemma_counted_bounds(lists, cpu as int, i64::MIN as int, i64::MAX as int);
            }
            means.push(average_per_logical_cpu_loads[cpu].mean() as i64);
            cpu += 1;
        }
        proof {
            let expected = core_means(batch);
            assert(means.deep_view() =~= Seq::new(expected.len(), |k: int| expected[k] as i64));
        }
        Some(means)
    } else {
        None
    };
    let aggregate_load_percent = if average_aggregate_cpu_load.count() > 0 {
        Some(average_aggregate_cpu_load.mean() as i64)
    } else {
        None
    };
    let temp_celsius = if average_temp.count() > 0 {
        Some(average_temp.mean() as i64)
    } else {
        None
    };

    let memory = if average_mem_used.count() > 0 {
        Some(
            MemoryStats {
                used_mb: average_mem_used.mean() as u64,
                total_mb: average_mem_total.mean() as u64,
            },
        )
    } else {
        None
    };

    let filesystems = last_stats.filesystems;

    let sockets = if average_tcp_used.count() > 0 {
        Some(
            SocketStats {
                tcp_in_use: average_tcp_used.mean() as usize,
                tcp_orphaned: average_tcp_orphaned.mean() as usize,
                udp_in_use: average_udp_used.mean() as usize,
                tcp6_in_use: average_tcp6_used.mean() as usize,
                udp6_in_use: average_udp6_used.mean() as usize,
            },
        )
    } else {
        None
    };
    let network = NetworkStats { interfaces: last_stats.network.interfaces, sockets };

    let collection_time = last_stats.collection_time;

    AllStats {
        general,
        cpu: CpuStats { per_logical_cpu_load_percent, aggregate_load_percent, temp_celsius },
        memory,
        filesystems,
        network,
        collection_time,
    }
}

} // verus!
