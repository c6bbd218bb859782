use system_dashboard::consolidation::consolidate_all_stats;
use system_dashboard::persistence::HistoryPersistenceConfig;
use system_dashboard::stats::{AllStats, CpuStats, GeneralStats, NetworkStats};
use system_dashboard::stats_history::StatsHistory;
use system_dashboard::update_loop::{ConfigError, UpdatingStatsHistory};

fn sample(collection_time: i64, load: i64) -> AllStats {
    AllStats {
        general: GeneralStats { uptime_seconds: None, boot_timestamp: None, load_averages: None },
        cpu: CpuStats {
            per_logical_cpu_load_percent: None,
            aggregate_load_percent: Some(load),
            temp_celsius: None,
        },
        memory: None,
        filesystems: None,
        network: NetworkStats { interfaces: None, sockets: None },
        collection_time,
    }
}

fn entries(history: &StatsHistory) -> Vec<AllStats> {
    let mut entries = Vec::new();
    let mut walk = history.into_iter();
    while let Some(stats) = walk.next() {
        entries.push(stats.clone());
    }
    entries
}

fn enabled() -> HistoryPersistenceConfig {
    HistoryPersistenceConfig::Enabled { dir: "./stats_history".to_string(), size_limit: 2_000_000 }
}

fn updating(history_size: usize, consolidation_limit: usize) -> UpdatingStatsHistory {
    match UpdatingStatsHistory::new(500, 3_000, history_size, consolidation_limit, enabled()) {
        Ok(updating) => updating,
        Err(error) => panic!("not set up: {:?}", error),
    }
}

#[test]
fn five_samples_in_batches_of_two_fill_a_history_of_three() {
    let mut updating = updating(3, 2);
    for t in 1..=5 {
        updating.update(sample(t, 1_000 * t));
    }
    assert_eq!(updating.stats_history().len(), 3);
    let second_batch = consolidate_all_stats(vec![sample(3, 3_000), sample(4, 4_000)]);
    assert_eq!(
        entries(updating.stats_history()),
        vec![sample(3, 3_000), second_batch, sample(5, 5_000)]
    );
    assert_eq!(updating.stats_history().get_most_recent_stats(), Some(&sample(5, 5_000)));
}

#[test]
fn a_sample_short_of_a_batch_refreshes_the_newest_entry() {
    let mut updating = updating(4, 3);
    assert!(updating.update(sample(1, 10_000)).is_none());
    assert_eq!(entries(updating.stats_history()), vec![sample(1, 10_000)]);
    assert!(updating.update(sample(2, 20_000)).is_none());
    assert_eq!(entries(updating.stats_history()), vec![sample(2, 20_000)]);
}

#[test]
fn a_complete_batch_is_consolidated_and_handed_back() {
    let mut updating = updating(4, 3);
    updating.update(sample(1, 10_000));
    updating.update(sample(2, 20_000));
    let persisted = updating.update(sample(3, 30_000)).unwrap();
    assert_eq!(persisted.cpu.aggregate_load_percent, Some(20_000));
    assert_eq!(persisted.collection_time, 3);
    assert_eq!(
        entries(updating.stats_history()),
        vec![sample(2, 20_000), persisted, sample(3, 30_000)]
    );
    // The batch starts anew.
    assert!(updating.update(sample(4, 40_000)).is_none());
    assert!(updating.update(sample(5, 50_000)).is_none());
    let persisted = updating.update(sample(6, 60_000)).unwrap();
    assert_eq!(persisted.cpu.aggregate_load_percent, Some(50_000));
}

#[test]
fn what_is_to_be_persisted_is_known_before_the_sample_is_taken_in() {
    let mut updating = updating(4, 3);
    assert!(updating.consolidation_due(&sample(1, 10_000)).is_none());
    updating.update(sample(1, 10_000));
    assert!(updating.consolidation_due(&sample(2, 20_000)).is_none());
    updating.update(sample(2, 20_000));
    let due = updating.consolidation_due(&sample(3, 30_000)).unwrap();
    assert_eq!(due.cpu.aggregate_load_percent, Some(20_000));
    // Nothing has changed by asking.
    assert_eq!(entries(updating.stats_history()), vec![sample(2, 20_000)]);
    assert_eq!(updating.consolidation_due(&sample(3, 30_000)), Some(due.clone()));
    assert_eq!(updating.update(sample(3, 30_000)), Some(due));

    let mut disabled =
        UpdatingStatsHistory::new(500, 3_000, 3, 1, HistoryPersistenceConfig::Disabled)
            .ok()
            .unwrap();
    assert!(disabled.consolidation_due(&sample(1, 10_000)).is_none());
    assert!(disabled.update(sample(1, 10_000)).is_none());
}

#[test]
fn batches_of_one_consolidate_every_sample() {
    let mut updating = updating(2, 1);
    let persisted = updating.update(sample(1, 10_000)).unwrap();
    assert_eq!(persisted, consolidate_all_stats(vec![sample(1, 10_000)]));
    assert_eq!(entries(updating.stats_history()), vec![persisted, sample(1, 10_000)]);
}

#[test]
fn nothing_is_handed_back_where_persistence_is_disabled() {
    let mut updating =
        UpdatingStatsHistory::new(500, 3_000, 3, 2, HistoryPersistenceConfig::Disabled)
            .ok()
            .unwrap();
    assert!(updating.update(sample(1, 10_000)).is_none());
    assert!(updating.update(sample(2, 20_000)).is_none());
    assert_eq!(updating.stats_history().len(), 3);
    assert_eq!(updating.persistence_config(), &HistoryPersistenceConfig::Disabled);
}

#[test]
fn the_sleep_is_what_sampling_leaves_of_the_update_frequency() {
    let updating = updating(3, 2);
    assert_eq!(updating.sleep_duration_millis(), 2_500);
    assert_eq!(updating.cpu_sample_duration(), 500);
    assert_eq!(updating.persistence_config(), &enabled());
    assert_eq!(updating.stats_history().max_size(), 3);
    assert_eq!(updating.stats_history().len(), 0);
}

#[test]
fn a_configuration_that_cannot_work_is_refused() {
    let refused = |cpu, frequency, size, limit| {
        UpdatingStatsHistory::new(cpu, frequency, size, limit, HistoryPersistenceConfig::Disabled)
            .err()
    };
    assert_eq!(refused(500, 3_000, 0, 2), Some(ConfigError::ZeroHistorySize));
    assert_eq!(refused(500, 3_000, 0, 0), Some(ConfigError::ZeroHistorySize));
    assert_eq!(refused(500, 3_000, 3, 0), Some(ConfigError::ZeroConsolidationLimit));
    assert_eq!(refused(500, 500, 3, 2), Some(ConfigError::UpdateFrequencyTooShort));
    assert_eq!(refused(501, 500, 3, 2), Some(ConfigError::UpdateFrequencyTooShort));
    assert_eq!(refused(0, 0, 3, 2), Some(ConfigError::UpdateFrequencyTooShort));
    assert_eq!(refused(500, 501, 1, 1), None);
}
