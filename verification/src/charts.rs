//! The series that the charts show: what the history holds of a metric,
//! snapshot by snapshot, oldest first.

use crate::average::THOUSANDTHS_PER_UNIT;
use crate::consolidation::{reading, reading_of, Metric};
use crate::stats::{AllStats, AllStatsView, NetworkInterfaceStatsView};
use crate::stats_history::StatsHistory;
use vstd::prelude::*;

verus! {

/// The counters of a network interface that the charts add up.
#[derive(Clone, Copy, Debug, PartialEq, Eq)]
pub enum InterfaceCounter {
    SentBytes,
    ReceivedBytes,
    SendErrors,
    ReceiveErrors,
}

/// How many thousandths one of what a metric is read in comes to: one for
/// what is read in thousandths, a thousand for what is read in whole
/// numbers.
pub open spec fn thousandths_in(metric: Metric) -> int {
    match metric {
        Metric::LoadOneMinute
        | Metric::LoadFiveMinutes
        | Metric::LoadFifteenMinutes
        | Metric::CpuAggregateLoad
        | Metric::CpuTemperature => 1,
        _ => 1000,
    }
}

/// What a chart shows of a snapshot for a metric, in thousandths: what the
/// snapshot reads, zero where it does not carry the metric.
pub open spec fn chart_value(stats: AllStatsView, metric: Metric) -> int {
    match reading(stats, metric) {
        Some(value) => value * thousandths_in(metric),
        None => 0,
    }
}

/// What a chart shows of a series of snapshots for a metric.
pub open spec fn series(entries: Seq<AllStatsView>, metric: Metric) -> Seq<i128> {
    Seq::new(entries.len(), |i: int| chart_value(entries[i], metric) as i128)
}

/// A counter of an interface.
pub open spec fn counter_of(interface: NetworkInterfaceStatsView, counter: InterfaceCounter) -> int {
    match counter {
        InterfaceCounter::SentBytes => interface.sent_bytes as int,
        InterfaceCounter::ReceivedBytes => interface.received_bytes as int,
        InterfaceCounter::SendErrors => interface.send_errors as int,
        InterfaceCounter::ReceiveErrors => interface.receive_errors as int,
    }
}

/// A counter added up over interfaces.
pub open spec fn interfaces_total(
    interfaces: Seq<NetworkInterfaceStatsView>,
    counter: InterfaceCounter,
) -> int
    decreases interfaces.len(),
{
    if interfaces.len() == 0 {
        0
    } else {
        interfaces_total(interfaces.drop_last(), counter) + counter_of(interfaces.last(), counter)
    }
}

/// What a chart shows of a snapshot for a counter: the counter added up
/// over the interfaces, zero where the snapshot has none.
pub open spec fn traffic_total(stats: AllStatsView, counter: InterfaceCounter) -> int {
    match stats.network.interfaces {
        Some(interfaces) => interfaces_total(interfaces, counter),
        None => 0,
    }
}

/// What a chart shows of a snapshot for a counter, in thousandths of the
/// chart's unit: thousandths of a megabyte for bytes, thousandths of one
/// for errors, no more than the machine integer holds.
pub open spec fn traffic_value(stats: AllStatsView, counter: InterfaceCounter) -> i128 {
    let total = traffic_total(stats, counter);
    match counter {
        InterfaceCounter::SentBytes | InterfaceCounter::ReceivedBytes => (total / 1000) as i128,
        _ => if total * 1000 > i128::MAX {
            i128::MAX
        } else {
            (total * 1000) as i128
        },
    }
}

/// What a chart shows of a series of snapshots for a counter.
pub open spec fn traffic_series(entries: Seq<AllStatsView>, counter: InterfaceCounter) -> Seq<
    i128,
> {
    Seq::new(entries.len(), |i: int| traffic_value(entries[i], counter))
}

/// The number of logical CPUs that the charts show: as many as the oldest
/// snapshot has loads for.
pub open spec fn cpu_count(entries: Seq<AllStatsView>) -> nat {
    if entries.len() == 0 {
        0
    } else {
        match entries[0].cpu.per_logical_cpu_load_percent {
            Some(loads) => loads.len(),
            None => 0,
        }
    }
}

/// The loads of one logical CPU over the snapshots that have a load for it,
/// oldest first, in thousandths of a percent.
pub open spec fn cpu_series(entries: Seq<AllStatsView>, cpu: int) -> Seq<i128>
    decreases entries.len(),
{
    if entries.len() == 0 {
        Seq::empty()
    } else {
        match entries.last().cpu.per_logical_cpu_load_percent {
            Some(loads) => if 0 <= cpu < loads.len() {
                cpu_series(entries.drop_last(), cpu).push(loads[cpu] as i128)
            } else {
                cpu_series(entries.drop_last(), cpu)
            },
            None => cpu_series(entries.drop_last(), cpu),
        }
    }
}

/// The largest total of memory among snapshots, in megabytes; zero where
/// none has memory stats.
pub open spec fn largest_memory_total(entries: Seq<AllStatsView>) -> int
    decreases entries.len(),
{
    if entries.len() == 0 {
        0
    } else {
        let before = largest_memory_total(entries.drop_last());
        match entries.last().memory {
            Some(memory) => if memory.total_mb > before {
                memory.total_mb as int
            } else {
                before
            },
            None => before,
        }
    }
}

/// A counter added up over the interfaces of a snapshot.
fn traffic_total_of(stats: &AllStats, counter: InterfaceCounter) -> (total: u128)
    ensures
        total == traffic_total(stats@, counter),
{
    match &stats.network.interfaces {
        Some(interfaces) => {
            let ghost all = interfaces.deep_view();
            let mut total: u128 = 0;
            let mut i: usize = 0;
            while i < interfaces.len()
                invariant
                    i <= interfaces.len(),
                    all == interfaces.deep_view(),
                    total == interfaces_total(all.take(i as int), counter),
                    total <= i * u64::MAX,
                decreases interfaces.len() - i,
            {
                let interface = &interfaces[i];
                let value = match counter {
                    InterfaceCounter::SentBytes => interface.sent_bytes,
                    InterfaceCounter::ReceivedBytes => interface.received_bytes,
                    InterfaceCounter::SendErrors => interface.send_errors,
                    InterfaceCounter::ReceiveErrors => interface.receive_errors,
                };
                proof {
                    assert(all.take(i + 1).drop_last() =~= all.take(i as int));
                    assert(all[i as int] == interface@);
                    assert((i + 1) * u64::MAX == i * u64::MAX + u64::MAX) by (nonlinear_arith);
                    assert(i * u64::MAX <= usize::MAX * u64::MAX) by (nonlinear_arith)
                        requires
                            i <= usize::MAX,
                    ;
                }
                total = total + value as u128;
                i += 1;
            }
            assert(all.take(interfaces.len() as int) =~= all);
            total
        },
        None => 0,
    }
}

/// The snapshots of the history, oldest first.
fn snapshots(history: &StatsHistory) -> (entries: Vec<&AllStats>)
    requires
        history.wf(),
    ensures
        entries.len() == history@.len(),
        forall|i: int| 0 <= i < entries.len() ==> (#[trigger] entries[i])@ == history@[i],
{
    let mut entries: Vec<&AllStats> = Vec::new();
    let mut walk = history.into_iter();
    proof {
        history.lemma_entries_len();
    }
    loop
        invariant
            walk.wf(),
            walk.history() == history,
            entries.len() <= history.entries().len(),
            history@.len() == history.entries().len(),
            walk.remaining() == history.entries().skip(entries.len() as int),
            forall|i: int| 0 <= i < entries.len() ==> (#[trigger] entries[i])@ == history@[i],
        ensures
            entries.len() == history@.len(),
            forall|i: int| 0 <= i < entries.len() ==> (#[trigger] entries[i])@ == history@[i],
        decreases history.entries().len() - entries.len(),
    {
        match walk.next() {
            Some(stats) => {
                assert(stats@ == history@[entries.len() as int]);
                assert(history.entries().skip(entries.len() as int).drop_first()
                    =~= history.entries().skip(entries.len() + 1));
                entries.push(stats);
            },
            None => {
                break ;
            },
        }
    }
    entries
}

/// The values of a chart: for each snapshot of the history, oldest first,
/// what it reads for the metric, in thousandths, zero where it does not
/// carry it.
pub fn chart_values(history: &StatsHistory, metric: Metric) -> (values: Vec<i128>)
    requires
        history.wf(),
    ensures
        values@ == series(history@, metric),
{
    let entries = snapshots(history);
    let mut values: Vec<i128> = Vec::new();
    let mut i: usize = 0;
    while i < entries.len()
        invariant
            i <= entries.len(),
            entries.len() == history@.len(),
            forall|k: int| 0 <= k < entries.len() ==> (#[trigger] entries[k])@ == history@[k],
            values@ == series(history@.take(i as int), metric),
        decreases entries.len() - i,
    {
        let value = match reading_of(entries[i], metric) {
            Some(value) => match metric {
                Metric::LoadOneMinute
                | Metric::LoadFiveMinutes
                | Metric::LoadFifteenMinutes
                | Metric::CpuAggregateLoad
                | Metric::CpuTemperature => value,
                _ => value * THOUSANDTHS_PER_UNIT,
            },
            None => 0,
        };
        values.push(value);
        assert(values@ =~= series(history@.take(i + 1), metric));
        i += 1;
    }
    assert(history@.take(entries.len() as int) =~= history@);
    values
}

/// The values of a traffic chart: for each snapshot of the history, oldest
/// first, the counter added up over its interfaces, zero where it has none.
pub fn traffic_totals(history: &StatsHistory, counter: InterfaceCounter) -> (totals: Vec<u128>)
    requires
        history.wf(),
    ensures
        totals.len() == history@.len(),
        forall|i: int| 0 <= i < totals.len() ==> totals[i] == traffic_total(history@[i], counter),
{
    let entries = snapshots(history);
    let mut totals: Vec<u128> = Vec::new();
    let mut i: usize = 0;
    while i < entries.len()
        invariant
            i <= entries.len(),
            entries.len() == history@.len(),
            forall|k: int| 0 <= k < entries.len() ==> (#[trigger] entries[k])@ == history@[k],
            totals.len() == i,
            forall|k: int| 0 <= k < i ==> totals[k] == traffic_total(history@[k], counter),
        decreases entries.len() - i,
    {
        totals.push(traffic_total_of(entries[i], counter));
        i += 1;
    }
    totals
}

/// When each snapshot of the history was collected, oldest first, in
/// milliseconds since the UNIX epoch.
pub fn collection_times(history: &StatsHistory) -> (times: Vec<i64>)
    requires
        history.wf(),
    ensures
        times.len() == history@.len(),
        forall|i: int| 0 <= i < times.len() ==> times[i] == history@[i].collection_time,
{
    let entries = snapshots(history);
    let mut times: Vec<i64> = Vec::new();
    let mut i: usize = 0;
    while i < entries.len()
        invariant
            i <= entries.len(),
            entries.len() == history@.len(),
            forall|k: int| 0 <= k < entries.len() ==> (#[trigger] entries[k])@ == history@[k],
            times.len() == i,
            forall|k: int| 0 <= k < i ==> times[k] == history@[k].collection_time,
        decreases entries.len() - i,
    {
        times.push(entries[i].collection_time);
        i += 1;
    }
    times
}

/// The largest total of memory among the snapshots of the history, in
/// megabytes: the height of the memory chart.
pub fn memory_total_max(history: &StatsHistory) -> (memory_total_mb: u64)
    requires
        history.wf(),
    ensures
        memory_total_mb == largest_memory_total(history@),
{
    let entries = snapshots(history);
    let mut memory_total_mb: u64 = 0;
    let mut i: usize = 0;
    while i < entries.len()
        invariant
            i <= entries.len(),
            entries.len() == history@.len(),
            forall|k: int| 0 <= k < entries.len() ==> (#[trigger] entries[k])@ == history@[k],
            memory_total_mb == largest_memory_total(history@.take(i as int)),
        decreases entries.len() - i,
    {
        proof {
            assert(history@.take(i + 1).drop_last() =~= history@.take(i as int));
        }
        if let Some(x) = &entries[i].memory {
            if x.total_mb > memory_total_mb {
                memory_total_mb = x.total_mb;
            }
        }
        i += 1;
    }
    assert(history@.take(entries.len() as int) =~= history@);
    memory_total_mb
}

/// The loads of one logical CPU over the snapshots of the history that
/// have a load for it, oldest first.
pub fn cpu_values(history: &StatsHistory, cpu: usize) -> (values: Vec<i128>)
    requires
        history.wf(),
    ensures
        values@ == cpu_series(history@, cpu as int),
{
    let entries = snapshots(history);
    let mut values: Vec<i128> = Vec::new();
    let mut i: usize = 0;
    while i < entries.len()
        invariant
            i <= entries.len(),
            entries.len() == history@.len(),
            forall|k: int| 0 <= k < entries.len() ==> (#[trigger] entries[k])@ == history@[k],
            values@ == cpu_series(history@.take(i as int), cpu as int),
        decreases entries.len() - i,
    {
        proof {
            assert(history@.take(i + 1).drop_last() =~= history@.take(i as int));
        }
        if let Some(loads) = &entries[i].cpu.per_logical_cpu_load_percent {
            if cpu < loads.len() {
                values.push(loads[cpu] as i128);
            }
        }
        i += 1;
    }
    assert(history@.take(entries.len() as int) =~= history@);
    values
}

/// The loads of each logical CPU over the history: one series for each
/// logical CPU that the oldest snapshot has a load for, each holding the
/// loads of that CPU in the snapshots that have one, oldest first.
pub fn per_cpu_values(history: &StatsHistory) -> (series: Vec<Vec<i128>>)
    requires
        history.wf(),
    ensures
        series.len() == cpu_count(history@),
        forall|cpu: int| 0 <= cpu < series.len() ==> series[cpu]@ == cpu_series(history@, cpu),
{
    proof {
        history.lemma_entries_len();
    }
    let mut oldest = history.into_iter();
    let num_logical_cpus = match oldest.next() {
        Some(first) => {
            assert(first@ == history@[0]);
            match &first.cpu.per_logical_cpu_load_percent {
                Some(x) => x.len(),
                None => 0,
            }
        },
        None => 0,
    };
    let mut per_logical_cpu_values_flipped: Vec<Vec<i128>> = Vec::new();
    let mut cpu: usize = 0;
    while cpu < num_logical_cpus
        invariant
            history.wf(),
            cpu <= num_logical_cpus,
            per_logical_cpu_values_flipped.len() == cpu,
            forall|k: int|
                0 <= k < cpu ==> per_logical_cpu_values_flipped[k]@ == cpu_series(history@, k),
        decreases num_logical_cpus - cpu,
    {
        per_logical_cpu_values_flipped.push(cpu_values(history, cpu));
        cpu += 1;
    }
    per_logical_cpu_values_flipped
}

/// The values of a traffic chart in thousandths of its unit: for each
/// snapshot of the history, oldest first, the counter added up over its
/// interfaces, in thousandths of a megabyte for bytes and in thousandths of
/// one for errors.
pub fn traffic_values(history: &StatsHistory, counter: InterfaceCounter) -> (values: Vec<i128>)
    requires
        history.wf(),
    ensures
        values@ == traffic_series(history@, counter),
{
    let totals = traffic_totals(history, counter);
    let mut values: Vec<i128> = Vec::new();
    let mut i: usize = 0;
    while i < totals.len()
        invariant
            i <= totals.len(),
            totals.len() == history@.len(),
            forall|k: int|
                0 <= k < totals.len() ==> totals[k] == traffic_total(history@[k], counter),
            values@ == traffic_series(history@.take(i as int), counter),
        decreases totals.len() - i,
    {
        let total = totals[i];
        let value = match counter {
            InterfaceCounter::SentBytes | InterfaceCounter::ReceivedBytes => (total / 1000) as i128,
            _ => if total > i128::MAX as u128 / 1000 {
                i128::MAX
            } else {
                (total * 1000) as i128
            },
        };
        values.push(value);
        assert(values@ =~= traffic_series(history@.take(i + 1), counter));
        i += 1;
    }
    assert(history@.take(totals.len() as int) =~= history@);
    values
}

} // verus!
