use slatedb_cache::decimal::append_decimal;
use slatedb_cache::error::SlateDBError;
use slatedb_cache::io_pool::default_size;
use slatedb_cache::io_pool::run_outcome;
use slatedb_cache::io_pool::thread_name;
use slatedb_cache::io_pool::PoolStart;

#[test]
fn a_pool_is_sized_from_the_machine() {
    assert_eq!(default_size(None), 32);
    assert_eq!(default_size(Some(0)), 8);
    assert_eq!(default_size(Some(1)), 8);
    assert_eq!(default_size(Some(2)), 8);
    assert_eq!(default_size(Some(3)), 12);
    assert_eq!(default_size(Some(32)), 128);
    assert_eq!(default_size(Some(33)), 128);
    assert_eq!(default_size(Some(1000)), 128);
}

#[test]
fn threads_are_numbered_from_zero() {
    assert_eq!(thread_name(0), "slatedb-cache-io-0");
    assert_eq!(thread_name(9), "slatedb-cache-io-9");
    assert_eq!(thread_name(10), "slatedb-cache-io-10");
    assert_eq!(thread_name(127), "slatedb-cache-io-127");
    assert_ne!(thread_name(1), thread_name(11));
    let mut text = String::new();
    append_decimal(&mut text, usize::MAX);
    assert_eq!(text, format!("{}", usize::MAX));
    text.clear();
    append_decimal(&mut text, 9876543210);
    assert_eq!(text, "9876543210");
}

#[test]
fn a_pool_starts_at_least_one_thread() {
    let mut start: PoolStart<u32> = PoolStart::new(0);
    assert_eq!(start.next_name().as_deref(), Some("slatedb-cache-io-0"));
    start.record(Some(5));
    assert!(start.next_name().is_none());
    assert_eq!(start.into_handles(), vec![5]);
}

#[test]
fn threads_that_fail_to_start_are_left_out() {
    let mut start: PoolStart<u32> = PoolStart::new(4);
    let mut names = Vec::new();
    let mut attempts = vec![Some(10), None, Some(12), None].into_iter();
    while let Some(name) = start.next_name() {
        names.push(name);
        start.record(attempts.next().unwrap());
    }
    assert_eq!(
        names,
        vec![
            "slatedb-cache-io-0",
            "slatedb-cache-io-1",
            "slatedb-cache-io-2",
            "slatedb-cache-io-3"
        ]
    );
    assert_eq!(start.into_handles(), vec![10, 12]);
}

fn is_cancelled<T>(outcome: Result<T, SlateDBError>) -> bool {
    match outcome {
        Err(SlateDBError::BackgroundTaskCancelled(text)) => text == "cache I/O pool stopped",
        _ => false,
    }
}

#[test]
fn a_stopped_pool_cancels_jobs() {
    assert_eq!(run_outcome(true, Some(2)).unwrap(), 2);
    assert!(is_cancelled(run_outcome::<u32>(false, None)));
    assert!(is_cancelled(run_outcome::<u32>(true, None)));
    assert!(is_cancelled(run_outcome(false, Some(2))));
}
