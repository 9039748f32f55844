use monitr::history::{History, Series, CAPACITY};

#[test]
fn records_system_series_and_exposes_recent_values() {
    let mut history: History<f64> = History::new();
    history.record(0.0, 0.0, &Vec::new());
    history.record(100.0, 100.0, &Vec::new());

    assert_eq!(history.cpu_recent(8), vec![0.0, 100.0]);
    assert_eq!(history.memory_recent(8), vec![0.0, 100.0]);
}

#[test]
fn records_usage_without_process_state() {
    let mut history: History<f64> = History::new();
    history.record_usage(25.0, 40.0);

    assert_eq!(history.cpu_recent(8), vec![25.0]);
    assert_eq!(history.memory_recent(8), vec![40.0]);
}

#[test]
fn process_series_needs_two_samples_and_drops_dead_pids() {
    let mut history: History<f64> = History::new();
    history.record(0.0, 0.0, &vec![(1, 10.0)]);
    assert!(history.process_cpu_recent(1, 8).is_none());

    history.record(0.0, 0.0, &vec![(1, 20.0)]);
    assert!(history.process_cpu_recent(1, 8).is_some());

    history.record(0.0, 0.0, &vec![(2, 5.0)]);
    assert!(history.process_cpu_recent(1, 8).is_none());
}

#[test]
fn series_length_is_bounded_by_capacity() {
    let mut history: History<f64> = History::new();
    for _ in 0..(CAPACITY + 50) {
        history.record(50.0, 50.0, &vec![(1, 50.0)]);
    }
    assert_eq!(history.cpu_recent(CAPACITY + 50).len(), CAPACITY);
}

#[test]
fn recent_values_are_the_newest() {
    let mut series: Series<u32> = Series::new();
    for v in 0..(CAPACITY as u32 + 5) {
        series.push(v);
    }
    assert_eq!(series.len(), CAPACITY);
    assert_eq!(series.recent(3), vec![122, 123, 124]);
    assert_eq!(series.recent(0), Vec::<u32>::new());
    assert_eq!(series.recent(1_000)[0], 5);
}

#[test]
fn process_series_keep_their_samples() {
    let mut history: History<u32> = History::new();
    history.record(0, 0, &vec![(7, 1), (8, 2)]);
    history.record(0, 0, &vec![(7, 3), (8, 4)]);
    history.record(0, 0, &vec![(7, 5)]);
    assert_eq!(history.process_cpu_recent(7, 8), Some(vec![1, 3, 5]));
    assert_eq!(history.process_cpu_recent(7, 2), Some(vec![3, 5]));
    assert_eq!(history.process_cpu_recent(8, 8), None);
}

#[test]
fn recent_series_hold_the_last_recorded_values() {
    let mut history: History<u32> = History::new();
    for v in 0..170u32 {
        history.record_usage(v, v + 1000);
    }
    let cpu = history.cpu_recent(170);
    assert_eq!(cpu.len(), CAPACITY);
    assert_eq!(cpu[0], 50);
    assert_eq!(history.cpu_recent(4), vec![166, 167, 168, 169]);
    assert_eq!(history.memory_recent(2), vec![1168, 1169]);
}
