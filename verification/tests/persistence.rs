use system_dashboard::persistence::{
    persist_stats, rotation_is_due, HistoryFiles, HistoryPersistenceConfig,
    CURRENT_HISTORY_FILE_NAME, OLD_HISTORY_FILE_NAME,
};
use system_dashboard::stats::{AllStats, CpuStats, GeneralStats, NetworkStats};
use system_dashboard::stats_history::{HistoryFile, LoadError, StatsHistory};

fn stats_at(collection_time: i64, temp_celsius: Option<i64>) -> AllStats {
    AllStats {
        general: GeneralStats { uptime_seconds: None, boot_timestamp: None, load_averages: None },
        cpu: CpuStats {
            per_logical_cpu_load_percent: None,
            aggregate_load_percent: None,
            temp_celsius,
        },
        memory: None,
        filesystems: None,
        network: NetworkStats { interfaces: None, sockets: None },
        collection_time,
    }
}

/// A line for the stats: the collection time, and the temperature if there is one.
fn written(stats: &AllStats) -> String {
    match stats.cpu.temp_celsius {
        Some(temp) => format!("{} {}", stats.collection_time, temp),
        None => format!("{}", stats.collection_time),
    }
}

/// The stats that a line holds, if it holds any.
fn read(line: &str) -> Option<AllStats> {
    let mut words = line.split(' ');
    let collection_time = words.next()?.parse().ok()?;
    let temp_celsius = match words.next() {
        Some(word) => Some(word.parse().ok()?),
        None => None,
    };
    Some(stats_at(collection_time, temp_celsius))
}

fn size_of_lines(lines: &[String]) -> u128 {
    lines.iter().map(|line| line.len() as u128 + 1).sum()
}

#[test]
fn the_two_files_have_their_names() {
    assert_eq!(CURRENT_HISTORY_FILE_NAME, "current_stats.txt");
    assert_eq!(OLD_HISTORY_FILE_NAME, "old_stats.txt");
}

#[test]
fn a_snapshot_is_persisted_as_one_line() {
    let plan = persist_stats("{\"a\":1}", None, 100);
    assert_eq!(plan.line, "{\"a\":1}\n");
    assert!(!plan.rotate);
}

#[test]
fn rotation_is_due_at_half_the_limit() {
    assert!(!persist_stats("x", Some(49), 100).rotate);
    assert!(persist_stats("x", Some(50), 100).rotate);
    assert!(persist_stats("x", Some(51), 100).rotate);
    assert!(!persist_stats("x", Some(49), 101).rotate);
    assert!(persist_stats("x", Some(50), 101).rotate);
}

#[test]
fn rotation_is_due_as_the_plan_says() {
    for limit in [0, 1, 2, 3, 100, 101, u64::MAX] {
        for size in [None, Some(0), Some(1), Some(49), Some(50), Some(51), Some(u64::MAX)] {
            assert_eq!(rotation_is_due(size, limit), persist_stats("x", size, limit).rotate);
        }
    }
    assert!(rotation_is_due(Some(50), 100));
    assert!(!rotation_is_due(Some(49), 100));
    assert!(!rotation_is_due(None, 0));
}

#[test]
fn no_rotation_without_a_current_file() {
    assert!(!persist_stats("x", None, 0).rotate);
    assert!(!persist_stats("x", None, 100).rotate);
}

#[test]
fn a_limit_of_nothing_rotates_every_time() {
    assert!(persist_stats("x", Some(0), 0).rotate);
    assert!(persist_stats("x", Some(0), 1).rotate);
    assert!(persist_stats("x", Some(u64::MAX), u64::MAX).rotate);
    assert!(!persist_stats("x", Some(0), 2).rotate);
}

#[test]
fn what_was_appended_is_read_back_in_order() {
    let mut files = HistoryFiles::new();
    assert_eq!(files.lines(), Vec::<String>::new());
    assert_eq!(files.current_size(), None);
    let written = ["first", "second", "third", "fourth", "fifth"];
    for (i, line) in written.iter().enumerate() {
        assert!(!files.append(line, 1_000));
        assert_eq!(files.lines(), written[..=i].to_vec());
    }
    assert_eq!(files.current_size(), Some(5 + 1 + 6 + 1 + 5 + 1 + 6 + 1 + 5 + 1));
}

#[test]
fn what_was_appended_is_read_back_across_one_rotation() {
    let mut files = HistoryFiles::new();
    let written: Vec<String> = (0..5).map(|i| format!("line number {}", i)).collect();
    let mut rotations = 0;
    for line in &written {
        if files.append(line, 60) {
            rotations += 1;
        }
    }
    assert_eq!(rotations, 1);
    assert_eq!(files.lines(), written);
}

#[test]
fn the_current_file_is_rotated_once_it_crosses_half_the_limit() {
    let mut files = HistoryFiles::new();
    let line = "12345678901234567890";
    assert!(!files.append(line, 100));
    assert_eq!(files.current_size(), Some(21));
    assert!(!files.append(line, 100));
    assert_eq!(files.current_size(), Some(42));
    assert!(!files.append(line, 100));
    assert_eq!(files.current_size(), Some(63));
    assert!(files.append("fresh", 100));
    assert_eq!(files.current_size(), Some(6));
    assert_eq!(files.lines(), vec![line, line, line, "fresh"]);
}

#[test]
fn a_rotation_replaces_the_old_file() {
    let mut files = HistoryFiles::new();
    for i in 0..4 {
        files.append(&format!("{}", i), 4);
    }
    // Every line of two bytes fills half the limit: each append after the
    // first rotates, and only the last two lines are left.
    assert_eq!(files.lines(), vec!["2", "3"]);
}

#[test]
fn the_size_stays_near_the_limit_over_many_appends() {
    let limit = 100;
    let longest = 20;
    let mut files = HistoryFiles::new();
    let mut rotations = 0;
    for i in 0..500 {
        let line = "x".repeat(1 + (i * 7) % longest);
        if files.append(&line, limit) {
            rotations += 1;
        }
        let total = size_of_lines(&files.lines());
        assert!(total <= limit as u128 + 2 * (longest as u128 + 1));
        assert_eq!(files.lines().last().unwrap(), &line);
    }
    assert!(rotations > 50);
}

#[test]
fn a_configuration_can_be_copied() {
    let enabled =
        HistoryPersistenceConfig::Enabled { dir: "./stats_history".to_string(), size_limit: 2_000_000 };
    assert_eq!(enabled.clone(), enabled);
    assert_eq!(HistoryPersistenceConfig::Disabled.clone(), HistoryPersistenceConfig::Disabled);
    assert_ne!(enabled, HistoryPersistenceConfig::Disabled);
}

#[test]
fn a_persisted_history_is_loaded_back_field_for_field() {
    let persisted: Vec<AllStats> =
        (1..=6).map(|t| stats_at(t, if t % 2 == 0 { Some(40_000 + t) } else { None })).collect();
    let mut files = HistoryFiles::new();
    let mut rotations = 0;
    for stats in &persisted {
        if files.append(&written(stats), 40) {
            rotations += 1;
        }
    }
    assert_eq!(rotations, 1);
    let lines: Vec<Option<AllStats>> = files.lines().iter().map(|line| read(line)).collect();
    let history = match StatsHistory::load_from(Vec::new(), lines) {
        Ok(history) => history,
        Err(error) => panic!("not loaded: {:?}", error),
    };
    assert_eq!(history.max_size(), 6);
    let mut loaded = Vec::new();
    let mut walk = history.into_iter();
    while let Some(stats) = walk.next() {
        loaded.push(stats.clone());
    }
    assert_eq!(loaded, persisted);
    assert_eq!(history.get_most_recent_stats(), persisted.last());
}

#[test]
fn a_line_that_holds_no_stats_fails_the_load_of_what_was_persisted() {
    let mut files = HistoryFiles::new();
    for line in ["1 40000", "2", "three", "4"] {
        files.append(line, 1_000);
    }
    let lines: Vec<Option<AllStats>> = files.lines().iter().map(|line| read(line)).collect();
    assert_eq!(
        StatsHistory::load_from(Vec::new(), lines).err(),
        Some(LoadError::MalformedLine { file: HistoryFile::Current, line: 2 })
    );
}
