//! The dashboard: what the newest snapshot says, in words, and what the
//! history says, in series for charts.
//!
//! Times of day and dates are put into words by the caller, who knows the
//! time zone; so are the numbers of the charts.

use crate::charts::{
    chart_values, cpu_count, cpu_series, largest_memory_total, memory_total_max, per_cpu_values,
    series, traffic_series, traffic_values, InterfaceCounter,
};
use crate::consolidation::Metric;
use crate::stats::{AllStats, AllStatsView, GeneralStats, MemoryStats, MountStats, NetworkStats};
use crate::stats_history::StatsHistory;
use crate::text::{
    decimal, decimal_text, trimmed, trimmed_text, two_decimals, two_decimals_text,
};
use vstd::prelude::*;
use vstd::string::StringExecFns;

verus! {

/// A section of the dashboard.
#[derive(Debug, PartialEq, Eq)]
pub struct DashboardSectionContext {
    pub name: String,
    pub stats: Vec<String>,
    pub subsections: Vec<DashboardSubsectionContext>,
}

/// A part of a section of the dashboard.
#[derive(Debug, PartialEq, Eq)]
pub struct DashboardSubsectionContext {
    pub name: String,
    pub stats: Vec<String>,
}

/// What a [`DashboardSubsectionContext`] holds, as mathematical values.
pub struct DashboardSubsectionView {
    pub name: Seq<char>,
    pub stats: Seq<Seq<char>>,
}

/// What a [`DashboardSectionContext`] holds, as mathematical values.
pub struct DashboardSectionView {
    pub name: Seq<char>,
    pub stats: Seq<Seq<char>>,
    pub subsections: Seq<DashboardSubsectionView>,
}

impl DeepView for DashboardSubsectionContext {
    type V = DashboardSubsectionView;

    open spec fn deep_view(&self) -> DashboardSubsectionView {
        DashboardSubsectionView { name: self.name@, stats: self.stats.deep_view() }
    }
}

impl View for DashboardSubsectionContext {
    type V = DashboardSubsectionView;

    open spec fn view(&self) -> DashboardSubsectionView {
        self.deep_view()
    }
}

impl DeepView for DashboardSectionContext {
    type V = DashboardSectionView;

    open spec fn deep_view(&self) -> DashboardSectionView {
        DashboardSectionView {
            name: self.name@,
            stats: self.stats.deep_view(),
            subsections: self.subsections.deep_view(),
        }
    }
}

impl View for DashboardSectionContext {
    type V = DashboardSectionView;

    open spec fn view(&self) -> DashboardSectionView {
        self.deep_view()
    }
}

/// A section with a heading and nothing under it.
pub open spec fn heading(name: Seq<char>) -> DashboardSectionView {
    DashboardSectionView { name, stats: Seq::empty(), subsections: Seq::empty() }
}

/// The lines of the general section: the uptime, where it is known, then
/// the boot time, where it is known and was put into words.
pub open spec fn general_lines(stats: GeneralStats, boot_time: Option<Seq<char>>) -> Seq<
    Seq<char>,
> {
    let uptime = match stats.uptime_seconds {
        Some(seconds) => seq!["Uptime: "@ + decimal(seconds as nat) + " seconds"@],
        None => Seq::empty(),
    };
    let boot = match (stats.boot_timestamp, boot_time) {
        (Some(_), Some(time)) => seq!["Boot time: "@ + time],
        _ => Seq::empty(),
    };
    uptime + boot
}

/// The general section; none where it would have no line.
pub open spec fn general_section(stats: GeneralStats, boot_time: Option<Seq<char>>) -> Option<
    DashboardSectionView,
> {
    let lines = general_lines(stats, boot_time);
    if lines.len() == 0 {
        None
    } else {
        Some(DashboardSectionView { name: "General"@, stats: lines, subsections: Seq::empty() })
    }
}

/// The sections of the dashboard for the newest snapshot: the general one,
/// where it has a line, and the one on filesystems, where the snapshot has
/// any; for a history without a snapshot, one section that says so.
pub open spec fn sections(most_recent: Option<AllStatsView>, boot_time: Option<Seq<char>>) -> Seq<
    DashboardSectionView,
> {
    match most_recent {
        None => seq![heading("No stats yet"@)],
        Some(stats) => {
            let general = match general_section(stats.general, boot_time) {
                Some(section) => seq![section],
                None => Seq::empty(),
            };
            let filesystems = match stats.filesystems {
                Some(_) => seq![heading("Filesystems"@)],
                None => Seq::empty(),
            };
            general + filesystems
        },
    }
}

/// The general section of the dashboard.
/// # Params
/// * `stats` - The general stats of the newest snapshot.
/// * `boot_time` - The boot time of those stats in words. It is left out where the stats have no boot time.
pub fn build_general_section(stats: &GeneralStats, boot_time: Option<&str>) -> (section: Option<
    DashboardSectionContext,
>)
    ensures
        section.deep_view() == general_section(
            *stats,
            match boot_time {
                Some(time) => Some(time@),
                None => None,
            },
        ),
{
    let mut stat_strings: Vec<String> = Vec::new();
    if let Some(x) = stats.uptime_seconds {
        let line = String::from_str("Uptime: ").concat(decimal_text(x as u128).as_str()).concat(" seconds");
        stat_strings.push(line);
    }
    if stats.boot_timestamp.is_some() {
        if let Some(time) = boot_time {
            stat_strings.push(String::from_str("Boot time: ").concat(time));
        }
    }
    proof {
        let lines = general_lines(
            *stats,
            match boot_time {
                Some(time) => Some(time@),
                None => None,
            },
        );
        assert(stat_strings.deep_view() =~= lines);
    }

    if stat_strings.is_empty() {
        None
    } else {
        let section = DashboardSectionContext {
            name: String::from_str("General"),
            stats: stat_strings,
            subsections: Vec::new(),
        };
        assert(section.subsections.deep_view() =~= Seq::<DashboardSubsectionView>::empty());
        Some(section)
    }
}

/// The section on filesystems: so far a heading with nothing under it,
/// whatever is mounted.
pub fn build_filesystems_section(mount_stats: &[MountStats]) -> (section: DashboardSectionContext)
    ensures
        section@ == heading("Filesystems"@),
{
    let section = DashboardSectionContext {
        name: String::from_str("Filesystems"),
        stats: Vec::new(),
        subsections: Vec::new(),
    };
    assert(section.stats.deep_view() =~= Seq::<Seq<char>>::empty());
    assert(section.subsections.deep_view() =~= Seq::<DashboardSubsectionView>::empty());
    section
}

/// The section on the network: so far there is none, whatever the stats.
pub fn build_network_section(stats: &NetworkStats) -> (section: Option<DashboardSectionContext>)
    ensures
        section.is_none(),
{
    None
}

/// The sections of the dashboard.
/// # Params
/// * `most_recent_stats` - The newest snapshot of the history, if it has one.
/// * `boot_time` - The boot time of that snapshot in words. It is left out where the snapshot has no boot time.
pub fn build_sections(most_recent_stats: Option<&AllStats>, boot_time: Option<&str>) -> (built: Vec<
    DashboardSectionContext,
>)
    ensures
        built.deep_view() == sections(
            match most_recent_stats {
                Some(stats) => Some(stats@),
                None => None,
            },
            match boot_time {
                Some(time) => Some(time@),
                None => None,
            },
        ),
{
    let mut built: Vec<DashboardSectionContext> = Vec::new();
    let most_recent_stats = match most_recent_stats {
        Some(x) => x,
        None => {
            let section = DashboardSectionContext {
                name: String::from_str("No stats yet"),
                stats: Vec::new(),
                subsections: Vec::new(),
            };
            assert(section.stats.deep_view() =~= Seq::<Seq<char>>::empty());
            assert(section.subsections.deep_view() =~= Seq::<DashboardSubsectionView>::empty());
            built.push(section);
            assert(built.deep_view() =~= seq![heading("No stats yet"@)]);
            return built;
        },
    };

    if let Some(x) = build_general_section(&most_recent_stats.general, boot_time) {
        built.push(x);
    }
    if let Some(x) = &most_recent_stats.filesystems {
        built.push(build_filesystems_section(x.as_slice()));
    }
    if let Some(x) = build_network_section(&most_recent_stats.network) {
        built.push(x);
    }
    proof {
        let expected = sections(
            Some(most_recent_stats@),
            match boot_time {
                Some(time) => Some(time@),
                None => None,
            },
        );
        assert(built.deep_view() =~= expected);
    }
    built
}

pub const CPU_PER_LOGICAL_CPU_LINE_COLOR_LIGHT_MODE: &'static str = "#00000044";  // gray

pub const CPU_PER_LOGICAL_CPU_LINE_COLOR_DARK_MODE: &'static str = "#ffffff44";  // gray

pub const CPU_AGGREGATE_LINE_COLOR: &'static str = "#ffcc00";  // yellow

pub const CPU_AGGREGATE_FILL_COLOR: &'static str = "#ffcc0099";  // yellow

pub const TEMPERATURE_LINE_COLOR: &'static str = "#990000";  // red

pub const TEMPERATURE_FILL_COLOR: &'static str = "#99000099";  // red

pub const MEM_LINE_COLOR: &'static str = "#0055ff";  // blue

pub const MEM_FILL_COLOR: &'static str = "#0055ff99";  // blue

pub const SENT_LINE_COLOR: &'static str = "#44eeaa";  // blue-green

pub const SENT_FILL_COLOR: &'static str = "#44eeaa99";  // blue-green

pub const RECEIVED_LINE_COLOR: &'static str = "#44ee77";  // green

pub const RECEIVED_FILL_COLOR: &'static str = "#44ee7799";  // green

pub const SEND_ERRORS_LINE_COLOR: &'static str = "#ff8800";  // yellow-orange

pub const SEND_ERRORS_FILL_COLOR: &'static str = "#ff880099";  // yellow-orange

pub const RECEIVE_ERRORS_LINE_COLOR: &'static str = "#ff6600";  // orange

pub const RECEIVE_ERRORS_FILL_COLOR: &'static str = "#ff660099";  // orange

pub const TCP_LINE_COLOR: &'static str = "#44eedd";  // teal

pub const TCP_FILL_COLOR: &'static str = "#44eedd99";  // teal

pub const UDP_LINE_COLOR: &'static str = "#44bbdd";  // light blue

pub const UDP_FILL_COLOR: &'static str = "#44bbdd99";  // light blue

pub const LOAD_AVERAGE_1_LINE_COLOR: &'static str = "#ff00ff";  // pink

pub const LOAD_AVERAGE_1_FILL_COLOR: &'static str = "#ff00ff99";  // pink

pub const LOAD_AVERAGE_5_LINE_COLOR: &'static str = "#bb00ff";  // purple

pub const LOAD_AVERAGE_5_FILL_COLOR: &'static str = "#bb00ff99";  // purple

pub const LOAD_AVERAGE_15_LINE_COLOR: &'static str = "#7700ff";  // dark purple

pub const LOAD_AVERAGE_15_FILL_COLOR: &'static str = "#7700ff99";  // dark purple

/// The context that the dashboard is rendered with.
#[derive(Debug, PartialEq, Eq)]
pub struct DashboardContext {
    pub title: String,
    pub dark_mode: bool,
    pub charts: Vec<ChartContext>,
    pub sections: Vec<DashboardSectionContext>,
    pub last_update_time: String,
}

/// A chart of the dashboard. All its numbers are thousandths of the unit
/// that the Y axis is labelled with.
#[derive(Debug, PartialEq, Eq)]
pub struct ChartContext {
    /// The id of this chart. Must be unique.
    pub id: String,
    /// The title of this chart.
    pub title: String,
    /// The datasets displayed on this chart.
    pub datasets: Vec<DatasetContext>,
    /// The label for the X axis.
    pub x_label: String,
    /// The label for the Y axis.
    pub y_label: String,
    /// Names of the markers on the X axis.
    pub x_values: Vec<String>,
    /// The lowest possible Y value expected for this chart.
    pub min_y: i128,
    /// The highest possible Y value expected for this chart.
    pub max_y: i128,
    /// First line of text to diplay beside the chart.
    pub accompanying_text_1: String,
    /// Second line of text to diplay beside the chart.
    pub accompanying_text_2: String,
}

/// One line of a chart.
#[derive(Debug, PartialEq, Eq)]
pub struct DatasetContext {
    /// The name of this dataset.
    pub name: String,
    /// Color code used for the line.
    pub line_color_code: String,
    /// Color code used for the area under the line. Only relevant if `fill` is `true`.
    pub fill_color_code: String,
    /// The values in this dataset.
    pub values: Vec<i128>,
    /// Whether to fill the area under the line.
    pub fill: bool,
}

/// The times of a dashboard in words. Putting a time into words takes a
/// time zone, which is the caller's to know.
#[derive(Debug, PartialEq, Eq)]
pub struct DashboardTimes {
    /// The time of day at which each snapshot of the history was
    /// collected, oldest first, one for each snapshot: the markers on the
    /// X axis of every chart.
    pub collection_times: Vec<String>,
    /// The moment at which the newest snapshot was collected.
    pub last_update_time: String,
    /// The moment at which the system was booted. It is left out where
    /// the newest snapshot has no boot time.
    pub boot_time: Option<String>,
}

/// What a [`DatasetContext`] holds, as mathematical values.
pub struct DatasetView {
    pub name: Seq<char>,
    pub line_color_code: Seq<char>,
    pub fill_color_code: Seq<char>,
    pub values: Seq<i128>,
    pub fill: bool,
}

/// What a [`ChartContext`] holds, as mathematical values.
pub struct ChartView {
    pub id: Seq<char>,
    pub title: Seq<char>,
    pub datasets: Seq<DatasetView>,
    pub x_label: Seq<char>,
    pub y_label: Seq<char>,
    pub x_values: Seq<Seq<char>>,
    pub min_y: i128,
    pub max_y: i128,
    pub accompanying_text_1: Seq<char>,
    pub accompanying_text_2: Seq<char>,
}

/// What a [`DashboardContext`] holds, as mathematical values.
pub struct DashboardView {
    pub title: Seq<char>,
    pub dark_mode: bool,
    pub charts: Seq<ChartView>,
    pub sections: Seq<DashboardSectionView>,
    pub last_update_time: Seq<char>,
}

/// What a [`DashboardTimes`] holds, as mathematical values.
pub struct DashboardTimesView {
    pub collection_times: Seq<Seq<char>>,
    pub last_update_time: Seq<char>,
    pub boot_time: Option<Seq<char>>,
}

impl DeepView for DatasetContext {
    type V = DatasetView;

    open spec fn deep_view(&self) -> DatasetView {
        DatasetView {
            name: self.name@,
            line_color_code: self.line_color_code@,
            fill_color_code: self.fill_color_code@,
            values: self.values@,
            fill: self.fill,
        }
    }
}

impl View for DatasetContext {
    type V = DatasetView;

    open spec fn view(&self) -> DatasetView {
        self.deep_view()
    }
}

impl DeepView for ChartContext {
    type V = ChartView;

    open spec fn deep_view(&self) -> ChartView {
        ChartView {
            id: self.id@,
            title: self.title@,
            datasets: self.datasets.deep_view(),
            x_label: self.x_label@,
            y_label: self.y_label@,
            x_values: self.x_values.deep_view(),
            min_y: self.min_y,
            max_y: self.max_y,
            accompanying_text_1: self.accompanying_text_1@,
            accompanying_text_2: self.accompanying_text_2@,
        }
    }
}

impl View for ChartContext {
    type V = ChartView;

    open spec fn view(&self) -> ChartView {
        self.deep_view()
    }
}

impl DeepView for DashboardContext {
    type V = DashboardView;

    open spec fn deep_view(&self) -> DashboardView {
        DashboardView {
            title: self.title@,
            dark_mode: self.dark_mode,
            charts: self.charts.deep_view(),
            sections: self.sections.deep_view(),
            last_update_time: self.last_update_time@,
        }
    }
}

impl View for DashboardContext {
    type V = DashboardView;

    open spec fn view(&self) -> DashboardView {
        self.deep_view()
    }
}

impl DeepView for DashboardTimes {
    type V = DashboardTimesView;

    open spec fn deep_view(&self) -> DashboardTimesView {
        DashboardTimesView {
            collection_times: self.collection_times.deep_view(),
            last_update_time: self.last_update_time@,
            boot_time: self.boot_time.deep_view(),
        }
    }
}

impl View for DashboardTimes {
    type V = DashboardTimesView;

    open spec fn view(&self) -> DashboardTimesView {
        self.deep_view()
    }
}

/// The last value of a series; zero for an empty one.
pub open spec fn last_or_zero(values: Seq<i128>) -> int {
    if values.len() == 0 {
        0
    } else {
        values.last() as int
    }
}

/// A dataset drawn as a line with the area under it filled.
pub open spec fn filled(
    name: Seq<char>,
    line_color_code: Seq<char>,
    fill_color_code: Seq<char>,
    values: Seq<i128>,
) -> DatasetView {
    DatasetView { name, line_color_code, fill_color_code, values, fill: true }
}

/// The dataset of one logical CPU: a bare line, gray against the
/// background.
pub open spec fn cpu_dataset(entries: Seq<AllStatsView>, cpu: int, dark_mode: bool) -> DatasetView {
    DatasetView {
        name: "CPU "@ + decimal(cpu as nat),
        line_color_code: if dark_mode {
            CPU_PER_LOGICAL_CPU_LINE_COLOR_DARK_MODE@
        } else {
            CPU_PER_LOGICAL_CPU_LINE_COLOR_LIGHT_MODE@
        },
        fill_color_code: ""@,
        values: cpu_series(entries, cpu),
        fill: false,
    }
}

/// The datasets of the logical CPUs below `count`.
pub open spec fn cpu_datasets(entries: Seq<AllStatsView>, count: nat, dark_mode: bool) -> Seq<
    DatasetView,
> {
    Seq::new(count, |cpu: int| cpu_dataset(entries, cpu, dark_mode))
}

/// The chart of CPU usage: the load of the CPU as a whole, then that of
/// each logical CPU, with the newest load of the whole beside it.
pub open spec fn cpu_usage_chart(
    entries: Seq<AllStatsView>,
    dark_mode: bool,
    x_values: Seq<Seq<char>>,
) -> ChartView {
    let aggregate = series(entries, Metric::CpuAggregateLoad);
    ChartView {
        id: "cpu-usage-chart"@,
        title: "CPU Usage"@,
        datasets: seq![
            filled("Aggregate"@, CPU_AGGREGATE_LINE_COLOR@, CPU_AGGREGATE_FILL_COLOR@, aggregate),
        ] + cpu_datasets(entries, cpu_count(entries), dark_mode),
        x_label: "Time"@,
        y_label: "Usage (%)"@,
        x_values,
        min_y: 0,
        max_y: 100_000,
        accompanying_text_1: two_decimals(last_or_zero(aggregate)) + "%"@,
        accompanying_text_2: ""@,
    }
}

/// The chart of the CPU temperature, with the newest temperature beside it.
pub open spec fn cpu_temp_chart(entries: Seq<AllStatsView>, x_values: Seq<Seq<char>>) -> ChartView {
    let temperatures = series(entries, Metric::CpuTemperature);
    ChartView {
        id: "cpu-temp-chart"@,
        title: "Temperature"@,
        datasets: seq![
            filled("Celsius"@, TEMPERATURE_LINE_COLOR@, TEMPERATURE_FILL_COLOR@, temperatures),
        ],
        x_label: "Time"@,
        y_label: "Temperature (C)"@,
        x_values,
        min_y: 0,
        max_y: 85_000,
        accompanying_text_1: two_decimals(last_or_zero(temperatures)) + "\u{b0}C"@,
        accompanying_text_2: ""@,
    }
}

/// The share of memory in use, in thousandths of a percent.
pub open spec fn used_share(memory: MemoryStats) -> int {
    memory.used_mb * 100_000 / (memory.total_mb as int)
}

/// What stands beside the memory chart: the memory used and the memory in
/// all, and the share of the one in the other; dashes where the newest
/// snapshot has no memory stats, or no memory to have a share of.
pub open spec fn memory_texts(memory: Option<MemoryStats>) -> (Seq<char>, Seq<char>) {
    match memory {
        Some(mem) => (
            decimal(mem.used_mb as nat) + " / "@ + decimal(mem.total_mb as nat) + " MB"@,
            if mem.total_mb == 0 {
                "--%"@
            } else {
                two_decimals(used_share(mem)) + "%"@
            },
        ),
        None => ("-- / -- MB"@, "--%"@),
    }
}

/// The chart of memory usage, as high as the largest memory seen.
pub open spec fn memory_chart(entries: Seq<AllStatsView>, x_values: Seq<Seq<char>>) -> ChartView {
    let texts = memory_texts(
        if entries.len() == 0 {
            None
        } else {
            entries.last().memory
        },
    );
    ChartView {
        id: "ram-chart"@,
        title: "Memory Usage"@,
        datasets: seq![
            filled("MB Used"@, MEM_LINE_COLOR@, MEM_FILL_COLOR@, series(entries, Metric::MemoryUsed)),
        ],
        x_label: "Time"@,
        y_label: "Usage (MB)"@,
        x_values,
        min_y: 0,
        max_y: (largest_memory_total(entries) * 1000) as i128,
        accompanying_text_1: texts.0,
        accompanying_text_2: texts.1,
    }
}

/// The chart of the load averages, with the newest of each beside it.
pub open spec fn load_average_chart(entries: Seq<AllStatsView>, x_values: Seq<Seq<char>>) -> ChartView {
    let one = series(entries, Metric::LoadOneMinute);
    let five = series(entries, Metric::LoadFiveMinutes);
    let fifteen = series(entries, Metric::LoadFifteenMinutes);
    ChartView {
        id: "load-average-chart"@,
        title: "Load Averages"@,
        datasets: seq![
            filled("1 minute"@, LOAD_AVERAGE_1_LINE_COLOR@, LOAD_AVERAGE_1_FILL_COLOR@, one),
            filled("5 minutes"@, LOAD_AVERAGE_5_LINE_COLOR@, LOAD_AVERAGE_5_FILL_COLOR@, five),
            filled("15 minutes"@, LOAD_AVERAGE_15_LINE_COLOR@, LOAD_AVERAGE_15_FILL_COLOR@, fifteen),
        ],
        x_label: "Time"@,
        y_label: "Load average"@,
        x_values,
        min_y: 0,
        max_y: 0,
        accompanying_text_1: "1: "@ + trimmed(last_or_zero(one)) + ", 5: "@ + trimmed(
            last_or_zero(five),
        ) + ", 15: "@ + trimmed(last_or_zero(fifteen)),
        accompanying_text_2: ""@,
    }
}

/// The chart of what went over the network, in megabytes.
pub open spec fn network_usage_chart(entries: Seq<AllStatsView>, x_values: Seq<Seq<char>>) -> ChartView {
    let sent = traffic_series(entries, InterfaceCounter::SentBytes);
    let received = traffic_series(entries, InterfaceCounter::ReceivedBytes);
    ChartView {
        id: "network-usage-chart"@,
        title: "Cumulative Network Usage"@,
        datasets: seq![
            filled("Sent"@, SENT_LINE_COLOR@, SENT_FILL_COLOR@, sent),
            filled("Received"@, RECEIVED_LINE_COLOR@, RECEIVED_FILL_COLOR@, received),
        ],
        x_label: "Time"@,
        y_label: "Total (MB)"@,
        x_values,
        min_y: 0,
        max_y: 0,
        accompanying_text_1: trimmed(last_or_zero(sent)) + " MB sent, "@ + trimmed(
            last_or_zero(received),
        ) + " MB received"@,
        accompanying_text_2: ""@,
    }
}

/// The chart of the errors on the network.
pub open spec fn network_errors_chart(entries: Seq<AllStatsView>, x_values: Seq<Seq<char>>) -> ChartView {
    let send = traffic_series(entries, InterfaceCounter::SendErrors);
    let receive = traffic_series(entries, InterfaceCounter::ReceiveErrors);
    ChartView {
        id: "network-errors-chart"@,
        title: "Cumulative Network Errors"@,
        datasets: seq![
            filled("Send"@, SEND_ERRORS_LINE_COLOR@, SEND_ERRORS_FILL_COLOR@, send),
            filled("Receive"@, RECEIVE_ERRORS_LINE_COLOR@, RECEIVE_ERRORS_FILL_COLOR@, receive),
        ],
        x_label: "Time"@,
        y_label: "Total errors"@,
        x_values,
        min_y: 0,
        max_y: 0,
        accompanying_text_1: trimmed(last_or_zero(send)) + " send, "@ + trimmed(
            last_or_zero(receive),
        ) + " receive"@,
        accompanying_text_2: ""@,
    }
}

/// The chart of the sockets in use.
pub open spec fn sockets_chart(entries: Seq<AllStatsView>, x_values: Seq<Seq<char>>) -> ChartView {
    let tcp = series(entries, Metric::TcpInUse);
    let udp = series(entries, Metric::UdpInUse);
    ChartView {
        id: "sockets-chart"@,
        title: "Socket Usage"@,
        datasets: seq![
            filled("TCP"@, TCP_LINE_COLOR@, TCP_FILL_COLOR@, tcp),
            filled("UDP"@, UDP_LINE_COLOR@, UDP_FILL_COLOR@, udp),
        ],
        x_label: "Time"@,
        y_label: "Sockets"@,
        x_values,
        min_y: 0,
        max_y: 0,
        accompanying_text_1: trimmed(last_or_zero(tcp)) + " TCP, "@ + trimmed(last_or_zero(udp))
            + " UDP"@,
        accompanying_text_2: ""@,
    }
}

/// The charts of the dashboard, in their order.
pub open spec fn charts(entries: Seq<AllStatsView>, dark_mode: bool, x_values: Seq<Seq<char>>) -> Seq<
    ChartView,
> {
    seq![
        cpu_usage_chart(entries, dark_mode, x_values),
        cpu_temp_chart(entries, x_values),
        memory_chart(entries, x_values),
        load_average_chart(entries, x_values),
        network_usage_chart(entries, x_values),
        network_errors_chart(entries, x_values),
        sockets_chart(entries, x_values),
    ]
}

/// The dashboard for a history: the sections for its newest snapshot and
/// the charts of all its snapshots; for a history without a snapshot, the
/// one section that says so, and no chart.
pub open spec fn dashboard(
    entries: Seq<AllStatsView>,
    dark_mode: bool,
    times: DashboardTimesView,
) -> DashboardView {
    if entries.len() == 0 {
        DashboardView {
            title: "Dashboard"@,
            dark_mode,
            charts: Seq::empty(),
            sections: sections(None, times.boot_time),
            last_update_time: "N/A"@,
        }
    } else {
        DashboardView {
            title: "Dashboard"@,
            dark_mode,
            charts: charts(entries, dark_mode, times.collection_times),
            sections: sections(Some(entries.last()), times.boot_time),
            last_update_time: times.last_update_time,
        }
    }
}

/// A copy of a list of texts.
fn copy_texts(texts: &Vec<String>) -> (copy: Vec<String>)
    ensures
        copy.deep_view() == texts.deep_view(),
{
    let mut copy: Vec<String> = Vec::new();
    let mut i: usize = 0;
    while i < texts.len()
        invariant
            i <= texts.len(),
            copy@ == texts@.take(i as int),
        decreases texts.len() - i,
    {
        copy.push(texts[i].clone());
        assert(copy@ =~= texts@.take(i + 1));
        i += 1;
    }
    assert(texts@.take(texts.len() as int) =~= texts@);
    assert(copy.deep_view() =~= texts.deep_view());
    copy
}

/// The last value of a series; zero for an empty one.
fn last_or_zero_of(values: &Vec<i128>) -> (last: i128)
    ensures
        last == last_or_zero(values@),
{
    if values.len() == 0 {
        0
    } else {
        values[values.len() - 1]
    }
}

/// A dataset drawn as a line with the area under it filled.
fn filled_dataset(name: &str, line_color_code: &str, fill_color_code: &str, values: Vec<i128>) -> (dataset:
    DatasetContext)
    ensures
        dataset@ == filled(name@, line_color_code@, fill_color_code@, values@),
{
    DatasetContext {
        name: String::from_str(name),
        line_color_code: String::from_str(line_color_code),
        fill_color_code: String::from_str(fill_color_code),
        values,
        fill: true,
    }
}

/// The charts of the CPU: its usage and its temperature. `x_values` holds
/// the marker on the X axis for each snapshot of the history, oldest first.
pub fn build_cpu_charts(stats_history: &StatsHistory, dark_mode: bool, x_values: &Vec<String>) -> (built:
    Vec<ChartContext>)
    requires
        stats_history.wf(),
        x_values.len() == stats_history@.len(),
    ensures
        built.deep_view() == seq![
            cpu_usage_chart(stats_history@, dark_mode, x_values.deep_view()),
            cpu_temp_chart(stats_history@, x_values.deep_view()),
        ],
{
    let ghost entries = stats_history@;
    let mut charts: Vec<ChartContext> = Vec::new();
    let mut cpu_datasets: Vec<DatasetContext> = Vec::new();
    let aggregate_values = chart_values(stats_history, Metric::CpuAggregateLoad);
    let temp_values = chart_values(stats_history, Metric::CpuTemperature);

    let usage_accompanying_text = two_decimals_text(last_or_zero_of(&aggregate_values)).concat("%");

    cpu_datasets.push(
        filled_dataset(
            "Aggregate",
            CPU_AGGREGATE_LINE_COLOR,
            CPU_AGGREGATE_FILL_COLOR,
            aggregate_values,
        ),
    );

    let per_logical_cpu_line_color = if dark_mode {
        CPU_PER_LOGICAL_CPU_LINE_COLOR_DARK_MODE
    } else {
        CPU_PER_LOGICAL_CPU_LINE_COLOR_LIGHT_MODE
    };
    let per_logical_cpu_values = per_cpu_values(stats_history);
    let ghost count = per_logical_cpu_values.len() as nat;
    let ghost first = cpu_datasets.deep_view();
    let mut i: usize = 0;
    for values in it: per_logical_cpu_values.into_iter()
        invariant
            i == it.index(),
            it.seq().len() == count,
            count <= usize::MAX,
            count == cpu_count(entries),
            forall|cpu: int| 0 <= cpu < count ==> (#[trigger] it.seq()[cpu])@ == cpu_series(entries, cpu),
            per_logical_cpu_line_color@ == if dark_mode {
                CPU_PER_LOGICAL_CPU_LINE_COLOR_DARK_MODE@
            } else {
                CPU_PER_LOGICAL_CPU_LINE_COLOR_LIGHT_MODE@
            },
            cpu_datasets.deep_view() == first + crate::dashboard_context::cpu_datasets(
                entries,
                i as nat,
                dark_mode,
            ),
    {
        let ghost before = cpu_datasets.deep_view();
        cpu_datasets.push(
            DatasetContext {
                name: String::from_str("CPU ").concat(decimal_text(i as u128).as_str()),
                line_color_code: String::from_str(per_logical_cpu_line_color),
                fill_color_code: String::from_str(""),
                values,
                fill: false,
            },
        );
        proof {
            assert(cpu_datasets.deep_view() =~= before.push(cpu_dataset(entries, i as int, dark_mode)));
            assert(cpu_datasets.deep_view() =~= first + crate::dashboard_context::cpu_datasets(
                entries,
                (i + 1) as nat,
                dark_mode,
            ));
        }
        i = i + 1;
    }

    charts.push(
        ChartContext {
            id: String::from_str("cpu-usage-chart"),
            title: String::from_str("CPU Usage"),
            datasets: cpu_datasets,
            x_label: String::from_str("Time"),
            y_label: String::from_str("Usage (%)"),
            x_values: copy_texts(x_values),
            min_y: 0,
            max_y: 100_000,
            accompanying_text_1: usage_accompanying_text,
            accompanying_text_2: String::from_str(""),
        },
    );

    let temp_accompanying_text = two_decimals_text(last_or_zero_of(&temp_values)).concat("\u{b0}C");
    let mut temp_datasets: Vec<DatasetContext> = Vec::new();
    temp_datasets.push(
        filled_dataset("Celsius", TEMPERATURE_LINE_COLOR, TEMPERATURE_FILL_COLOR, temp_values),
    );
    proof {
        assert(temp_datasets.deep_view() =~= seq![
            filled(
                "Celsius"@,
                TEMPERATURE_LINE_COLOR@,
                TEMPERATURE_FILL_COLOR@,
                series(entries, Metric::CpuTemperature),
            ),
        ]);
        assert(first =~= seq![
            filled(
                "Aggregate"@,
                CPU_AGGREGATE_LINE_COLOR@,
                CPU_AGGREGATE_FILL_COLOR@,
                series(entries, Metric::CpuAggregateLoad),
            ),
        ]);
    }
    charts.push(
        ChartContext {
            id: String::from_str("cpu-temp-chart"),
            title: String::from_str("Temperature"),
            datasets: temp_datasets,
            x_label: String::from_str("Time"),
            y_label: String::from_str("Temperature (C)"),
            x_values: copy_texts(x_values),
            min_y: 0,
            max_y: 85_000,
            accompanying_text_1: temp_accompanying_text,
            accompanying_text_2: String::from_str(""),
        },
    );
    proof {
        assert(charts.deep_view() =~= seq![
            cpu_usage_chart(entries, dark_mode, x_values.deep_view()),
            cpu_temp_chart(entries, x_values.deep_view()),
        ]);
    }
    charts
}

/// The chart of memory usage. `x_values` holds the marker on the X axis for
/// each snapshot of the history, oldest first.
pub fn build_memory_chart(stats_history: &StatsHistory, x_values: &Vec<String>) -> (chart:
    ChartContext)
    requires
        stats_history.wf(),
        x_values.len() == stats_history@.len(),
    ensures
        chart@ == memory_chart(stats_history@, x_values.deep_view()),
{
    let ghost entries = stats_history@;
    let memory_values = chart_values(stats_history, Metric::MemoryUsed);
    let memory_total_mb = memory_total_max(stats_history);
    proof {
        stats_history.lemma_entries_len();
    }

    let (accompanying_text_1, accompanying_text_2) = {
        match stats_history.get_most_recent_stats() {
            Some(x) => {
                assert(x@ == entries.last());
                match &x.memory {
                    Some(mem) => {
                        let used = decimal_text(mem.used_mb as u128).concat(" / ").concat(
                            decimal_text(mem.total_mb as u128).as_str(),
                        ).concat(" MB");
                        let share = if mem.total_mb == 0 {
                            String::from_str("--%")
                        } else {
                            let used_pct: u128 = mem.used_mb as u128 * 100_000
                                / mem.total_mb as u128;
                            two_decimals_text(used_pct as i128).concat("%")
                        };
                        (used, share)
                    },
                    None => (String::from_str("-- / -- MB"), String::from_str("--%")),
                }
            },
            None => (String::from_str("-- / -- MB"), String::from_str("--%")),
        }
    };

    let mut datasets: Vec<DatasetContext> = Vec::new();
    datasets.push(filled_dataset("MB Used", MEM_LINE_COLOR, MEM_FILL_COLOR, memory_values));
    proof {
        assert(datasets.deep_view() =~= seq![
            filled(
                "MB Used"@,
                MEM_LINE_COLOR@,
                MEM_FILL_COLOR@,
                series(entries, Metric::MemoryUsed),
            ),
        ]);
    }
    ChartContext {
        id: String::from_str("ram-chart"),
        title: String::from_str("Memory Usage"),
        datasets,
        x_label: String::from_str("Time"),
        y_label: String::from_str("Usage (MB)"),
        x_values: copy_texts(x_values),
        min_y: 0,
        max_y: memory_total_mb as i128 * 1000,
        accompanying_text_1,
        accompanying_text_2,
    }
}

/// The chart of the load averages. `x_values` holds the marker on the X
/// axis for each snapshot of the history, oldest first.
pub fn build_load_average_chart(stats_history: &StatsHistory, x_values: &Vec<String>) -> (chart:
    ChartContext)
    requires
        stats_history.wf(),
        x_values.len() == stats_history@.len(),
    ensures
        chart@ == load_average_chart(stats_history@, x_values.deep_view()),
{
    let ghost entries = stats_history@;
    let one_min_values = chart_values(stats_history, Metric::LoadOneMinute);
    let five_min_values = chart_values(stats_history, Metric::LoadFiveMinutes);
    let fifteen_min_values = chart_values(stats_history, Metric::LoadFifteenMinutes);

    let accompanying_text = String::from_str("1: ").concat(
        trimmed_text(last_or_zero_of(&one_min_values)).as_str(),
    ).concat(", 5: ").concat(trimmed_text(last_or_zero_of(&five_min_values)).as_str()).concat(
        ", 15: ",
    ).concat(trimmed_text(last_or_zero_of(&fifteen_min_values)).as_str());
    let mut datasets: Vec<DatasetContext> = Vec::new();
    datasets.push(
        filled_dataset(
            "1 minute",
            LOAD_AVERAGE_1_LINE_COLOR,
            LOAD_AVERAGE_1_FILL_COLOR,
            one_min_values,
        ),
    );
    datasets.push(
        filled_dataset(
            "5 minutes",
            LOAD_AVERAGE_5_LINE_COLOR,
            LOAD_AVERAGE_5_FILL_COLOR,
            five_min_values,
        ),
    );
    datasets.push(
        filled_dataset(
            "15 minutes",
            LOAD_AVERAGE_15_LINE_COLOR,
            LOAD_AVERAGE_15_FILL_COLOR,
            fifteen_min_values,
        ),
    );
    proof {
        assert(datasets.deep_view() =~= load_average_chart(entries, x_values.deep_view()).datasets);
    }

    ChartContext {
        id: String::from_str("load-average-chart"),
        title: String::from_str("Load Averages"),
        datasets,
        x_label: String::from_str("Time"),
        y_label: String::from_str("Load average"),
        x_values: copy_texts(x_values),
        min_y: 0,
        max_y: 0,
        accompanying_text_1: accompanying_text,
        accompanying_text_2: String::from_str(""),
    }
}

/// A chart of two filled datasets, with what the newest value of each is
/// beside it.
fn build_pair_chart(
    id: &str,
    title: &str,
    y_label: &str,
    first: DatasetContext,
    second: DatasetContext,
    between: &str,
    after: &str,
    x_values: &Vec<String>,
) -> (chart: ChartContext)
    ensures
        chart@ == (ChartView {
            id: id@,
            title: title@,
            datasets: seq![first@, second@],
            x_label: "Time"@,
            y_label: y_label@,
            x_values: x_values.deep_view(),
            min_y: 0,
            max_y: 0,
            accompanying_text_1: trimmed(last_or_zero(first.values@)) + between@ + trimmed(
                last_or_zero(second.values@),
            ) + after@,
            accompanying_text_2: ""@,
        }),
{
    let accompanying_text = trimmed_text(last_or_zero_of(&first.values)).concat(between).concat(
        trimmed_text(last_or_zero_of(&second.values)).as_str(),
    ).concat(after);
    let ghost pair = seq![first@, second@];
    let mut datasets: Vec<DatasetContext> = Vec::new();
    datasets.push(first);
    datasets.push(second);
    assert(datasets.deep_view() =~= pair);
    ChartContext {
        id: String::from_str(id),
        title: String::from_str(title),
        datasets,
        x_label: String::from_str("Time"),
        y_label: String::from_str(y_label),
        x_values: copy_texts(x_values),
        min_y: 0,
        max_y: 0,
        accompanying_text_1: accompanying_text,
        accompanying_text_2: String::from_str(""),
    }
}

/// The charts of the network: what went over it, the errors on it, and the
/// sockets in use. `x_values` holds the marker on the X axis for each
/// snapshot of the history, oldest first.
pub fn build_network_charts(stats_history: &StatsHistory, x_values: &Vec<String>) -> (built: Vec<
    ChartContext,
>)
    requires
        stats_history.wf(),
        x_values.len() == stats_history@.len(),
    ensures
        built.deep_view() == seq![
            network_usage_chart(stats_history@, x_values.deep_view()),
            network_errors_chart(stats_history@, x_values.deep_view()),
            sockets_chart(stats_history@, x_values.deep_view()),
        ],
{
    let ghost entries = stats_history@;
    let sent_mb_values = traffic_values(stats_history, InterfaceCounter::SentBytes);
    let received_mb_values = traffic_values(stats_history, InterfaceCounter::ReceivedBytes);
    let send_errors_values = traffic_values(stats_history, InterfaceCounter::SendErrors);
    let receive_errors_values = traffic_values(stats_history, InterfaceCounter::ReceiveErrors);
    let tcp_sockets_values = chart_values(stats_history, Metric::TcpInUse);
    let udp_sockets_values = chart_values(stats_history, Metric::UdpInUse);

    let mut charts: Vec<ChartContext> = Vec::new();

    charts.push(
        build_pair_chart(
            "network-usage-chart",
            "Cumulative Network Usage",
            "Total (MB)",
            filled_dataset("Sent", SENT_LINE_COLOR, SENT_FILL_COLOR, sent_mb_values),
            filled_dataset("Received", RECEIVED_LINE_COLOR, RECEIVED_FILL_COLOR, received_mb_values),
            " MB sent, ",
            " MB received",
            x_values,
        ),
    );

    charts.push(
        build_pair_chart(
            "network-errors-chart",
            "Cumulative Network Errors",
            "Total errors",
            filled_dataset(
                "Send",
                SEND_ERRORS_LINE_COLOR,
                SEND_ERRORS_FILL_COLOR,
                send_errors_values,
            ),
            filled_dataset(
                "Receive",
                RECEIVE_ERRORS_LINE_COLOR,
                RECEIVE_ERRORS_FILL_COLOR,
                receive_errors_values,
            ),
            " send, ",
            " receive",
            x_values,
        ),
    );

    charts.push(
        build_pair_chart(
            "sockets-chart",
            "Socket Usage",
            "Sockets",
            filled_dataset("TCP", TCP_LINE_COLOR, TCP_FILL_COLOR, tcp_sockets_values),
            filled_dataset("UDP", UDP_LINE_COLOR, UDP_FILL_COLOR, udp_sockets_values),
            " TCP, ",
            " UDP",
            x_values,
        ),
    );
    proof {
        assert(charts.deep_view() =~= seq![
            network_usage_chart(entries, x_values.deep_view()),
            network_errors_chart(entries, x_values.deep_view()),
            sockets_chart(entries, x_values.deep_view()),
        ]);
    }
    charts
}

/// The views of two lists of charts, one after the other, are the views of
/// the list of them all.
proof fn lemma_chart_views_add(first: Seq<ChartContext>, second: Seq<ChartContext>)
    ensures
        Seq::new((first + second).len(), |i: int| (first + second)[i]@) == Seq::new(
            first.len(),
            |i: int| first[i]@,
        ) + Seq::new(second.len(), |i: int| second[i]@),
{
    assert(Seq::new((first + second).len(), |i: int| (first + second)[i]@) =~= Seq::new(
        first.len(),
        |i: int| first[i]@,
    ) + Seq::new(second.len(), |i: int| second[i]@));
}

/// The charts of the dashboard. `x_values` holds the marker on the X axis
/// for each snapshot of the history, oldest first.
pub fn build_charts(stats_history: &StatsHistory, dark_mode: bool, x_values: &Vec<String>) -> (built:
    Vec<ChartContext>)
    requires
        stats_history.wf(),
        x_values.len() == stats_history@.len(),
    ensures
        built.deep_view() == charts(stats_history@, dark_mode, x_values.deep_view()),
{
    let ghost entries = stats_history@;
    let ghost markers = x_values.deep_view();
    let mut charts = build_cpu_charts(stats_history, dark_mode, x_values);
    let ghost cpu = charts.deep_view();
    let memory = build_memory_chart(stats_history, x_values);
    let load = build_load_average_chart(stats_history, x_values);
    let ghost middle = seq![memory@, load@];
    charts.push(memory);
    charts.push(load);
    assert(charts.deep_view() =~= cpu + middle);
    let mut network_charts = build_network_charts(stats_history, x_values);
    let ghost network = network_charts.deep_view();
    let ghost before = charts@;
    let ghost added = network_charts@;
    charts.append(&mut network_charts);
    proof {
        lemma_chart_views_add(before, added);
        assert(charts@ == before + added);
        assert(charts.deep_view() == cpu + middle + network);
        assert(cpu + middle + network =~= crate::dashboard_context::charts(
            entries,
            dark_mode,
            markers,
        ));
    }
    charts
}

impl DashboardContext {
    /// Builds a `DashboardContext` from the provided stats history.
    /// # Params
    /// * `stats_history` - The stats history to use to populate the context.
    /// * `dark_mode` - Whether dark mode is enabled or not.
    /// * `times` - The times of the history in words.
    pub fn from(stats_history: &StatsHistory, dark_mode: bool, times: &DashboardTimes) -> (context:
        DashboardContext)
        requires
            stats_history.wf(),
            stats_history@.len() > 0 ==> times.collection_times.len() == stats_history@.len(),
        ensures
            context@ == dashboard(stats_history@, dark_mode, times@),
    {
        let ghost entries = stats_history@;
        let title = String::from_str("Dashboard");
        proof {
            stats_history.lemma_entries_len();
        }

        let most_recent_stats = stats_history.get_most_recent_stats();
        let boot_time = match &times.boot_time {
            Some(time) => Some(time.as_str()),
            None => None,
        };
        let sections = build_sections(most_recent_stats, boot_time);
        if most_recent_stats.is_none() {
            let charts: Vec<ChartContext> = Vec::new();
            assert(charts.deep_view() =~= Seq::<ChartView>::empty());
            return DashboardContext {
                title,
                dark_mode,
                charts,
                sections,
                last_update_time: String::from_str("N/A"),
            };
        }
        assert(most_recent_stats.unwrap()@ == entries.last());

        let charts = build_charts(stats_history, dark_mode, &times.collection_times);

        DashboardContext {
            title,
            dark_mode,
            charts,
            sections,
            last_update_time: times.last_update_time.clone(),
        }
    }
}

} // verus!
