use binance_wallet::history::{
    plan_windows, HistoryWalk, Next, RecordHistory, TimeWindow, WindowError, DAY_MILLIS,
    DEFAULT_HISTORY_MILLIS,
};

const T: u64 = 1_700_000_000_000;

/// Drives a walk as a client does: queries each window it asks for, answering
/// with the next of `pages`, and records the windows queried.
fn drive(
    mut walk: HistoryWalk<u32>,
    pages: Vec<Result<Vec<u32>, String>>,
    queried: &mut Vec<TimeWindow>,
) -> Result<Vec<RecordHistory<u32>>, String> {
    let mut pages = pages.into_iter();
    loop {
        match walk.next_step() {
            Next::Query(w, window) => {
                queried.push(window);
                let page = pages.next().expect("more queries than pages");
                walk = w.receive(page)?;
            }
            Next::Done(batches) => return Ok(batches),
        }
    }
}

#[test]
fn two_windows_for_180_days() {
    let windows = plan_windows(T, 180 * DAY_MILLIS, 90 * DAY_MILLIS).unwrap();
    assert_eq!(
        windows,
        vec![
            TimeWindow { start: T - 90 * DAY_MILLIS, end: T },
            TimeWindow { start: T - 180 * DAY_MILLIS, end: T - 90 * DAY_MILLIS },
        ]
    );
    let walk = HistoryWalk::<u32>::plan(T, 180 * DAY_MILLIS, 90 * DAY_MILLIS).unwrap();
    let mut queried = Vec::new();
    let out = drive(walk, vec![Ok(vec![1]), Ok(vec![2])], &mut queried).unwrap();
    assert_eq!(queried, windows);
    assert_eq!(out.len(), 2);
}

#[test]
fn empty_page_is_skipped_and_walk_continues() {
    let walk = HistoryWalk::<u32>::plan(T, 270 * DAY_MILLIS, 90 * DAY_MILLIS).unwrap();
    let mut queried = Vec::new();
    let out = drive(walk, vec![Ok(vec![]), Ok(vec![7, 8]), Ok(vec![])], &mut queried).unwrap();
    assert_eq!(queried.len(), 3);
    assert_eq!(out.len(), 1);
    assert_eq!(out[0].records, vec![7, 8]);
    assert_eq!(out[0].start_at, T - 180 * DAY_MILLIS);
    assert_eq!(out[0].end_at, T - 90 * DAY_MILLIS);
}

#[test]
fn failure_in_second_window_aborts_without_partial_results() {
    let walk = HistoryWalk::<u32>::plan(T, 270 * DAY_MILLIS, 90 * DAY_MILLIS).unwrap();
    let mut queried = Vec::new();
    let out = drive(
        walk,
        vec![Ok(vec![1]), Err("remote failure".to_string()), Ok(vec![3])],
        &mut queried,
    );
    assert_eq!(out.unwrap_err(), "remote failure");
    assert_eq!(queried.len(), 2);
}

#[test]
fn batches_come_newest_first_tagged_with_their_windows() {
    let walk = HistoryWalk::<u32>::plan(T, 270 * DAY_MILLIS, 90 * DAY_MILLIS).unwrap();
    let mut queried = Vec::new();
    let out = drive(walk, vec![Ok(vec![1]), Ok(vec![2]), Ok(vec![3])], &mut queried).unwrap();
    assert_eq!(out.len(), 3);
    for (i, batch) in out.iter().enumerate() {
        assert_eq!(batch.records, vec![i as u32 + 1]);
        assert_eq!(TimeWindow { start: batch.start_at, end: batch.end_at }, queried[i]);
    }
    assert!(out[1].end_at <= out[0].start_at);
    assert!(out[2].end_at <= out[1].start_at);
}

#[test]
fn default_lookback_is_one_window() {
    let walk = HistoryWalk::<u32>::with_defaults(Some(T), None, T + 5 * DAY_MILLIS).unwrap();
    assert_eq!(walk.start_from(), T);
    let mut queried = Vec::new();
    let out = drive(walk, vec![Ok(vec![5])], &mut queried).unwrap();
    assert_eq!(queried, vec![TimeWindow { start: T - DEFAULT_HISTORY_MILLIS, end: T }]);
    assert_eq!(out.len(), 1);
}

#[test]
fn default_start_is_now() {
    let now = std::time::SystemTime::now()
        .duration_since(std::time::UNIX_EPOCH)
        .unwrap()
        .as_millis() as u64;
    let walk = HistoryWalk::<u32>::with_defaults(None, None, now).unwrap();
    assert_eq!(walk.start_from(), now);
    let mut queried = Vec::new();
    drive(walk, vec![Ok(vec![1])], &mut queried).unwrap();
    assert_eq!(queried, vec![TimeWindow { start: now - DEFAULT_HISTORY_MILLIS, end: now }]);
}

#[test]
fn given_start_wins_over_now() {
    let walk = HistoryWalk::<u32>::with_defaults(Some(T), Some(180 * DAY_MILLIS), T + 1).unwrap();
    assert_eq!(walk.start_from(), T);
    assert_eq!(
        HistoryWalk::<u32>::with_defaults(None, Some(180 * DAY_MILLIS), DAY_MILLIS).err(),
        Some(WindowError::BeforeEpoch)
    );
}

#[test]
fn uneven_lookback_overshoots_the_cutoff() {
    let windows = plan_windows(T, 100 * DAY_MILLIS, 90 * DAY_MILLIS).unwrap();
    assert_eq!(windows.len(), 2);
    assert_eq!(windows[1].start, T - 180 * DAY_MILLIS);
}

#[test]
fn longer_lookback_takes_ninety_day_steps() {
    let windows = plan_windows(T, 5 * 365 * DAY_MILLIS, DEFAULT_HISTORY_MILLIS).unwrap();
    assert_eq!(windows.len(), 21);
    assert_eq!(windows[20].end, T - 20 * DEFAULT_HISTORY_MILLIS);
}

#[test]
fn zero_lookback_queries_nothing() {
    assert_eq!(plan_windows(T, 0, DEFAULT_HISTORY_MILLIS).unwrap(), vec![]);
    let walk = HistoryWalk::<u32>::plan(T, 0, DEFAULT_HISTORY_MILLIS).unwrap();
    let mut queried = Vec::new();
    assert!(drive(walk, vec![], &mut queried).unwrap().is_empty());
    assert!(queried.is_empty());
}

#[test]
fn zero_interval_is_refused() {
    assert_eq!(plan_windows(T, DAY_MILLIS, 0), Err(WindowError::ZeroInterval));
}

#[test]
fn window_before_epoch_is_refused() {
    assert_eq!(
        plan_windows(100 * DAY_MILLIS, 100 * DAY_MILLIS, 90 * DAY_MILLIS),
        Err(WindowError::BeforeEpoch)
    );
    assert_eq!(
        plan_windows(180 * DAY_MILLIS, 100 * DAY_MILLIS, 90 * DAY_MILLIS).unwrap().len(),
        2
    );
}

#[test]
fn empty_lookback_from_now_always_plans() {
    let walk = HistoryWalk::<u32>::with_defaults(None, Some(0), 0).unwrap();
    let mut queried = Vec::new();
    assert!(drive(walk, vec![], &mut queried).unwrap().is_empty());
    assert!(queried.is_empty());
}
