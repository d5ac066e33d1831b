use slatedb_cache::state_lock::increments;
use slatedb_cache::state_lock::LockCounter;
use slatedb_cache::state_lock::LockEvent;
use slatedb_cache::state_lock::StateLockCounters;
use slatedb_cache::state_lock::StateLockStats;

#[test]
fn only_long_times_count() {
    assert!(increments(LockEvent::Read(None)).is_empty());
    assert!(increments(LockEvent::Read(Some(999_999))).is_empty());
    assert_eq!(
        increments(LockEvent::Read(Some(1_000_000))),
        vec![LockCounter::ReadWaitOver1ms]
    );
    assert_eq!(
        increments(LockEvent::Write(9_999_999)),
        vec![LockCounter::WriteWaitOver1ms]
    );
    assert_eq!(
        increments(LockEvent::Write(10_000_000)),
        vec![LockCounter::WriteWaitOver1ms, LockCounter::WriteWaitOver10ms]
    );
    assert_eq!(
        increments(LockEvent::Read(Some(u128::MAX))),
        vec![LockCounter::ReadWaitOver1ms, LockCounter::ReadWaitOver10ms]
    );
    assert_eq!(
        increments(LockEvent::WriteReleased(12_000_000)),
        vec![LockCounter::WriteHoldOver1ms, LockCounter::WriteHoldOver10ms]
    );
    assert!(increments(LockEvent::WriteReleased(0)).is_empty());
}

#[test]
fn long_waits_never_outnumber_waits() {
    let mut counts = [0u32; 6];
    for n in 0..30u128 {
        for event in [
            LockEvent::Read(Some(n * 700_000)),
            LockEvent::Read(None),
            LockEvent::Write(n * 900_000),
            LockEvent::WriteReleased(n * 1_100_000),
        ] {
            for counter in increments(event) {
                counts[counter as usize] += 1;
            }
        }
    }
    assert_eq!(counts, [28, 15, 28, 18, 29, 20]);
}

#[test]
fn the_lock_keeps_each_handle() {
    let counters = StateLockCounters::new(&StateLockStats {
        state_lock_read_wait_over_1ms: "r1",
        state_lock_read_wait_over_10ms: "r10",
        state_lock_write_wait_over_1ms: "w1",
        state_lock_write_wait_over_10ms: "w10",
        state_lock_write_hold_over_1ms: "h1",
        state_lock_write_hold_over_10ms: "h10",
    });
    assert_eq!(*counters.get(LockCounter::ReadWaitOver1ms), "r1");
    assert_eq!(*counters.get(LockCounter::ReadWaitOver10ms), "r10");
    assert_eq!(*counters.get(LockCounter::WriteWaitOver1ms), "w1");
    assert_eq!(*counters.get(LockCounter::WriteWaitOver10ms), "w10");
    assert_eq!(*counters.get(LockCounter::WriteHoldOver1ms), "h1");
    assert_eq!(*counters.get(LockCounter::WriteHoldOver10ms), "h10");
}
