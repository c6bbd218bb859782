use system_dashboard::stats::{AllStats, CpuStats, GeneralStats, NetworkStats};
use system_dashboard::stats_history::{HistoryFile, LoadError, StatsHistory};

fn snapshot(collection_time: i64) -> AllStats {
    AllStats {
        general: GeneralStats { uptime_seconds: None, boot_timestamp: None, load_averages: None },
        cpu: CpuStats {
            per_logical_cpu_load_percent: None,
            aggregate_load_percent: None,
            temp_celsius: None,
        },
        memory: None,
        filesystems: None,
        network: NetworkStats { interfaces: None, sockets: None },
        collection_time,
    }
}

fn times(history: &StatsHistory) -> Vec<i64> {
    let mut times = Vec::new();
    let mut walk = history.into_iter();
    while let Some(stats) = walk.next() {
        times.push(stats.collection_time);
    }
    times
}

fn lines(times: &[i64]) -> Vec<Option<AllStats>> {
    times.iter().map(|t| Some(snapshot(*t))).collect()
}

#[test]
fn empty_history_has_no_most_recent_stats() {
    let history = StatsHistory::new(3);
    assert!(history.get_most_recent_stats().is_none());
    assert_eq!(times(&history), Vec::<i64>::new());
    assert_eq!(history.len(), 0);
    assert_eq!(history.max_size(), 3);
}

#[test]
fn pushes_within_capacity_are_kept_in_order() {
    let mut history = StatsHistory::new(3);
    for t in 1..=3 {
        history.push(snapshot(t));
        assert_eq!(history.get_most_recent_stats().unwrap().collection_time, t);
        assert_eq!(times(&history), (1..=t).collect::<Vec<i64>>());
    }
    assert_eq!(history.len(), 3);
}

#[test]
fn pushes_beyond_capacity_drop_the_oldest() {
    for capacity in 1..=5usize {
        for extra in 0..=7i64 {
            let mut history = StatsHistory::new(capacity);
            let total = capacity as i64 + extra;
            for t in 1..=total {
                history.push(snapshot(t));
                assert_eq!(history.get_most_recent_stats().unwrap().collection_time, t);
            }
            assert_eq!(times(&history), (extra + 1..=total).collect::<Vec<i64>>());
            assert_eq!(history.len(), capacity);
        }
    }
}

#[test]
fn every_slot_of_a_larger_ring_is_used() {
    let mut history = StatsHistory::new(4);
    for t in 1..=9 {
        history.push(snapshot(t));
    }
    assert_eq!(times(&history), vec![6, 7, 8, 9]);
    history.push(snapshot(10));
    assert_eq!(times(&history), vec![7, 8, 9, 10]);
}

#[test]
fn capacity_of_one_keeps_the_last_push() {
    let mut history = StatsHistory::new(1);
    history.push(snapshot(1));
    assert_eq!(times(&history), vec![1]);
    history.push(snapshot(2));
    assert_eq!(times(&history), vec![2]);
    history.update_most_recent_stats(snapshot(3));
    assert_eq!(times(&history), vec![3]);
    history.push(snapshot(4));
    assert_eq!(times(&history), vec![4]);
    assert_eq!(history.get_most_recent_stats().unwrap().collection_time, 4);
}

#[test]
fn update_of_an_empty_history_is_a_push() {
    let mut history = StatsHistory::new(2);
    history.update_most_recent_stats(snapshot(7));
    assert_eq!(times(&history), vec![7]);
    assert_eq!(history.get_most_recent_stats().unwrap().collection_time, 7);
    history.push(snapshot(8));
    assert_eq!(times(&history), vec![7, 8]);
}

#[test]
fn update_replaces_the_newest_entry_in_place() {
    let mut history = StatsHistory::new(3);
    history.push(snapshot(1));
    history.push(snapshot(2));
    history.update_most_recent_stats(snapshot(20));
    assert_eq!(history.len(), 2);
    assert_eq!(times(&history), vec![1, 20]);
    history.update_most_recent_stats(snapshot(21));
    assert_eq!(times(&history), vec![1, 21]);
}

#[test]
fn push_after_update_advances_from_the_same_slot() {
    let mut plain = StatsHistory::new(3);
    let mut updated = StatsHistory::new(3);
    for t in 1..=4 {
        plain.push(snapshot(t));
        updated.push(snapshot(t));
    }
    updated.update_most_recent_stats(snapshot(40));
    assert_eq!(updated.len(), plain.len());
    plain.push(snapshot(5));
    updated.push(snapshot(5));
    assert_eq!(times(&plain), vec![3, 4, 5]);
    assert_eq!(times(&updated), vec![3, 40, 5]);
}

#[test]
fn a_walk_can_be_started_again() {
    let mut history = StatsHistory::new(3);
    for t in 1..=5 {
        history.push(snapshot(t));
    }
    let mut walk = history.into_iter();
    assert_eq!(walk.next().unwrap().collection_time, 3);
    assert_eq!(walk.next().unwrap().collection_time, 4);
    assert_eq!(times(&history), vec![3, 4, 5]);
    assert_eq!(walk.next().unwrap().collection_time, 5);
    assert!(walk.next().is_none());
    assert!(walk.next().is_none());
    assert_eq!(times(&history), vec![3, 4, 5]);
}

#[test]
fn loading_nothing_gives_an_empty_history_of_capacity_one() {
    let history = StatsHistory::load_from(Vec::new(), Vec::new()).unwrap();
    assert_eq!(history.max_size(), 1);
    assert_eq!(history.len(), 0);
    assert!(history.get_most_recent_stats().is_none());
}

#[test]
fn loading_reads_the_old_file_before_the_current_one() {
    let history = StatsHistory::load_from(lines(&[1, 2, 3]), lines(&[4, 5])).unwrap();
    assert_eq!(times(&history), vec![1, 2, 3, 4, 5]);
    assert_eq!(history.max_size(), 5);
    assert_eq!(history.get_most_recent_stats().unwrap().collection_time, 5);
}

#[test]
fn loading_one_file_alone() {
    let old_only = StatsHistory::load_from(lines(&[1, 2]), Vec::new()).unwrap();
    assert_eq!(times(&old_only), vec![1, 2]);
    assert_eq!(old_only.max_size(), 2);
    let current_only = StatsHistory::load_from(Vec::new(), lines(&[9])).unwrap();
    assert_eq!(times(&current_only), vec![9]);
    assert_eq!(current_only.max_size(), 1);
}

#[test]
fn a_loaded_history_is_full() {
    let mut history = StatsHistory::load_from(lines(&[1, 2]), lines(&[3])).unwrap();
    history.push(snapshot(4));
    assert_eq!(times(&history), vec![2, 3, 4]);
    assert_eq!(history.len(), 3);
}

#[test]
fn a_malformed_line_fails_the_load() {
    let mut old = lines(&[1, 2, 3]);
    old[1] = None;
    let mut current = lines(&[4, 5]);
    current[0] = None;
    match StatsHistory::load_from(old, current) {
        Err(error) => {
            assert_eq!(error, LoadError::MalformedLine { file: HistoryFile::Old, line: 1 })
        }
        Ok(_) => panic!("a malformed line was loaded"),
    }

    let mut current = lines(&[4, 5, 6]);
    current[2] = None;
    current[1] = None;
    match StatsHistory::load_from(lines(&[1]), current) {
        Err(error) => {
            assert_eq!(error, LoadError::MalformedLine { file: HistoryFile::Current, line: 1 })
        }
        Ok(_) => panic!("a malformed line was loaded"),
    }
}
