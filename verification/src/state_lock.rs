//! Counters that attribute latency spikes to the database state lock.
//!
//! The lock prefers writers: one queued writer blocks every newly arriving
//! reader, so a writer that waits or holds for milliseconds stalls the whole
//! read path. The counters split that into read waits, write waits and write
//! holds past one and ten milliseconds, which tells whether spikes come from
//! writers holding too long or from writers queueing behind reader bursts.
//!
//! A read that gets the lock at once is not timed and counts nowhere.

use vstd::prelude::*;

verus! {

/// One millisecond in nanoseconds.
pub const OVER_1MS: u128 = 1_000_000;

/// Ten milliseconds in nanoseconds.
pub const OVER_10MS: u128 = 10_000_000;

/// A counter of the state lock.
#[derive(Clone, Copy, Debug, PartialEq, Eq, Structural)]
pub enum LockCounter {
    ReadWaitOver1ms,
    ReadWaitOver10ms,
    WriteWaitOver1ms,
    WriteWaitOver10ms,
    WriteHoldOver1ms,
    WriteHoldOver10ms,
}

/// What happened at the lock, with a time in nanoseconds.
#[derive(Clone, Copy, Debug, PartialEq, Eq, Structural)]
pub enum LockEvent {
    /// A reader got the lock: at once, or after the given wait.
    Read(Option<u128>),
    /// A writer got the lock after the given wait.
    Write(u128),
    /// A writer let go of the lock after holding it for the given time.
    WriteReleased(u128),
}

/// The counters to increment for a time: the first from one millisecond on,
/// the second too from ten.
pub open spec fn past_thresholds(
    nanos: u128,
    over_1ms: LockCounter,
    over_10ms: LockCounter,
) -> Seq<LockCounter> {
    if nanos < OVER_1MS {
        Seq::empty()
    } else if nanos < OVER_10MS {
        seq![over_1ms]
    } else {
        seq![over_1ms, over_10ms]
    }
}

/// The counters to increment for an event.
pub open spec fn event_increments(event: LockEvent) -> Seq<LockCounter> {
    match event {
        LockEvent::Read(None) => Seq::empty(),
        LockEvent::Read(Some(waited)) => past_thresholds(
            waited,
            LockCounter::ReadWaitOver1ms,
            LockCounter::ReadWaitOver10ms,
        ),
        LockEvent::Write(waited) => past_thresholds(
            waited,
            LockCounter::WriteWaitOver1ms,
            LockCounter::WriteWaitOver10ms,
        ),
        LockEvent::WriteReleased(held) => past_thresholds(
            held,
            LockCounter::WriteHoldOver1ms,
            LockCounter::WriteHoldOver10ms,
        ),
    }
}

fn thresholds_passed(
    nanos: u128,
    over_1ms: LockCounter,
    over_10ms: LockCounter,
) -> (increments: Vec<LockCounter>)
    ensures
        increments@ == past_thresholds(nanos, over_1ms, over_10ms),
{
    let mut increments: Vec<LockCounter> = Vec::new();
    if nanos >= OVER_1MS {
        increments.push(over_1ms);
        if nanos >= OVER_10MS {
            increments.push(over_10ms);
        }
    }
    assert(increments@ =~= past_thresholds(nanos, over_1ms, over_10ms));
    increments
}

/// The counters to increment by one for an event.
pub fn increments(event: LockEvent) -> (increments: Vec<LockCounter>)
    ensures
        increments@ == event_increments(event),
        increments@.no_duplicates(),
        forall|counter: LockCounter| #[trigger]
            increments@.contains(counter) <==> match event {
                LockEvent::Read(None) => false,
                LockEvent::Read(Some(waited)) => {
                    ||| counter == LockCounter::ReadWaitOver1ms && waited >= 1_000_000
                    ||| counter == LockCounter::ReadWaitOver10ms && waited >= 10_000_000
                },
                LockEvent::Write(waited) => {
                    ||| counter == LockCounter::WriteWaitOver1ms && waited >= 1_000_000
                    ||| counter == LockCounter::WriteWaitOver10ms && waited >= 10_000_000
                },
                LockEvent::WriteReleased(held) => {
                    ||| counter == LockCounter::WriteHoldOver1ms && held >= 1_000_000
                    ||| counter == LockCounter::WriteHoldOver10ms && held >= 10_000_000
                },
            },
{
    proof {
        increments_are_distinct(event);
        lemma_increments(event);
    }
    match event {
        LockEvent::Read(None) => Vec::new(),
        LockEvent::Read(Some(waited)) => thresholds_passed(
            waited,
            LockCounter::ReadWaitOver1ms,
            LockCounter::ReadWaitOver10ms,
        ),
        LockEvent::Write(waited) => thresholds_passed(
            waited,
            LockCounter::WriteWaitOver1ms,
            LockCounter::WriteWaitOver10ms,
        ),
        LockEvent::WriteReleased(held) => thresholds_passed(
            held,
            LockCounter::WriteHoldOver1ms,
            LockCounter::WriteHoldOver10ms,
        ),
    }
}

/// The handles of the six counters, as the database's statistics name them.
#[derive(Debug)]
pub struct StateLockStats<C> {
    pub state_lock_read_wait_over_1ms: C,
    pub state_lock_read_wait_over_10ms: C,
    pub state_lock_write_wait_over_1ms: C,
    pub state_lock_write_wait_over_10ms: C,
    pub state_lock_write_hold_over_1ms: C,
    pub state_lock_write_hold_over_10ms: C,
}

impl<C> StateLockStats<C> {
    /// The handle of a counter.
    pub open spec fn handle(self, counter: LockCounter) -> C {
        match counter {
            LockCounter::ReadWaitOver1ms => self.state_lock_read_wait_over_1ms,
            LockCounter::ReadWaitOver10ms => self.state_lock_read_wait_over_10ms,
            LockCounter::WriteWaitOver1ms => self.state_lock_write_wait_over_1ms,
            LockCounter::WriteWaitOver10ms => self.state_lock_write_wait_over_10ms,
            LockCounter::WriteHoldOver1ms => self.state_lock_write_hold_over_1ms,
            LockCounter::WriteHoldOver10ms => self.state_lock_write_hold_over_10ms,
        }
    }
}

/// The handles of the six counters, as the lock keeps them.
#[derive(Debug)]
pub struct StateLockCounters<C> {
    read_wait_over_1ms: C,
    read_wait_over_10ms: C,
    write_wait_over_1ms: C,
    write_wait_over_10ms: C,
    write_hold_over_1ms: C,
    write_hold_over_10ms: C,
}

impl<C> StateLockCounters<C> {
    /// The handle of a counter.
    pub closed spec fn handle(self, counter: LockCounter) -> C {
        match counter {
            LockCounter::ReadWaitOver1ms => self.read_wait_over_1ms,
            LockCounter::ReadWaitOver10ms => self.read_wait_over_10ms,
            LockCounter::WriteWaitOver1ms => self.write_wait_over_1ms,
            LockCounter::WriteWaitOver10ms => self.write_wait_over_10ms,
            LockCounter::WriteHoldOver1ms => self.write_hold_over_1ms,
            LockCounter::WriteHoldOver10ms => self.write_hold_over_10ms,
        }
    }

    /// Copies the handles out of the statistics.
    pub fn new(stats: &StateLockStats<C>) -> (counters: Self) where C: Clone
        ensures
            forall|counter: LockCounter|
                cloned(stats.handle(counter), #[trigger] counters.handle(counter)),
            cloned(
                stats.state_lock_read_wait_over_1ms,
                counters.handle(LockCounter::ReadWaitOver1ms),
            ),
            cloned(
                stats.state_lock_read_wait_over_10ms,
                counters.handle(LockCounter::ReadWaitOver10ms),
            ),
            cloned(
                stats.state_lock_write_wait_over_1ms,
                counters.handle(LockCounter::WriteWaitOver1ms),
            ),
            cloned(
                stats.state_lock_write_wait_over_10ms,
                counters.handle(LockCounter::WriteWaitOver10ms),
            ),
            cloned(
                stats.state_lock_write_hold_over_1ms,
                counters.handle(LockCounter::WriteHoldOver1ms),
            ),
            cloned(
                stats.state_lock_write_hold_over_10ms,
                counters.handle(LockCounter::WriteHoldOver10ms),
            ),
    {
        StateLockCounters {
            read_wait_over_1ms: stats.state_lock_read_wait_over_1ms.clone(),
            read_wait_over_10ms: stats.state_lock_read_wait_over_10ms.clone(),
            write_wait_over_1ms: stats.state_lock_write_wait_over_1ms.clone(),
            write_wait_over_10ms: stats.state_lock_write_wait_over_10ms.clone(),
            write_hold_over_1ms: stats.state_lock_write_hold_over_1ms.clone(),
            write_hold_over_10ms: stats.state_lock_write_hold_over_10ms.clone(),
        }
    }

    /// The handle of a counter.
    pub fn get(&self, counter: LockCounter) -> (handle: &C)
        ensures
            *handle == self.handle(counter),
    {
        match counter {
            LockCounter::ReadWaitOver1ms => &self.read_wait_over_1ms,
            LockCounter::ReadWaitOver10ms => &self.read_wait_over_10ms,
            LockCounter::WriteWaitOver1ms => &self.write_wait_over_1ms,
            LockCounter::WriteWaitOver10ms => &self.write_wait_over_10ms,
            LockCounter::WriteHoldOver1ms => &self.write_hold_over_1ms,
            LockCounter::WriteHoldOver10ms => &self.write_hold_over_10ms,
        }
    }
}

/// The count of a counter that started at zero, after `events`.
pub open spec fn tally(events: Seq<LockEvent>, counter: LockCounter) -> nat
    decreases events.len(),
{
    if events.len() == 0 {
        0
    } else {
        tally(events.drop_last(), counter) + if event_increments(events.last()).contains(counter) {
            1nat
        } else {
            0nat
        }
    }
}

/// An event increments no counter twice.
pub proof fn increments_are_distinct(event: LockEvent)
    ensures
        event_increments(event).no_duplicates(),
{
}

/// `counter` measures the time of `event`. A read that gets the lock at once
/// has none.
pub open spec fn measures(counter: LockCounter, event: LockEvent) -> bool {
    match counter {
        LockCounter::ReadWaitOver1ms | LockCounter::ReadWaitOver10ms => {
            event matches LockEvent::Read(waited) && waited is Some
        },
        LockCounter::WriteWaitOver1ms | LockCounter::WriteWaitOver10ms => event is Write,
        LockCounter::WriteHoldOver1ms | LockCounter::WriteHoldOver10ms => event is WriteReleased,
    }
}

/// The number of events whose time `counter` measures.
pub open spec fn measured(events: Seq<LockEvent>, counter: LockCounter) -> nat
    decreases events.len(),
{
    if events.len() == 0 {
        0
    } else {
        measured(events.drop_last(), counter) + if measures(counter, events.last()) {
            1nat
        } else {
            0nat
        }
    }
}

/// A longer time of the same event increments every counter that a shorter one
/// does. A time counts from one millisecond on, and a second time from ten.
pub proof fn longer_times_count_more(shorter: u128, longer: u128)
    requires
        shorter <= longer,
    ensures
        forall|counter: LockCounter| #[trigger]
            event_increments(LockEvent::Read(Some(shorter))).contains(counter)
                ==> event_increments(LockEvent::Read(Some(longer))).contains(counter),
        forall|counter: LockCounter| #[trigger]
            event_increments(LockEvent::Write(shorter)).contains(counter) ==> event_increments(
                LockEvent::Write(longer),
            ).contains(counter),
        forall|counter: LockCounter| #[trigger]
            event_increments(LockEvent::WriteReleased(shorter)).contains(counter)
                ==> event_increments(LockEvent::WriteReleased(longer)).contains(counter),
        event_increments(LockEvent::Read(Some(longer))).len() == event_increments(
            LockEvent::Write(longer),
        ).len() == event_increments(LockEvent::WriteReleased(longer)).len(),
        event_increments(LockEvent::Write(longer)).len() >= 1 <==> longer >= 1_000_000,
        event_increments(LockEvent::Write(longer)).len() >= 2 <==> longer >= 10_000_000,
        event_increments(LockEvent::Write(longer)).len() <= 2,
{
    lemma_increments(LockEvent::Read(Some(shorter)));
    lemma_increments(LockEvent::Read(Some(longer)));
    lemma_increments(LockEvent::Write(shorter));
    lemma_increments(LockEvent::Write(longer));
    lemma_increments(LockEvent::WriteReleased(shorter));
    lemma_increments(LockEvent::WriteReleased(longer));
}

/// Whatever happens at the lock, no counter for ten milliseconds is ahead of
/// its counter for one, and neither is ahead of the number of its own events:
/// reads that waited, writes, or releases.
pub proof fn long_waits_are_waits(events: Seq<LockEvent>)
    ensures
        tally(events, LockCounter::ReadWaitOver10ms) <= tally(events, LockCounter::ReadWaitOver1ms),
        tally(events, LockCounter::WriteWaitOver10ms) <= tally(
            events,
            LockCounter::WriteWaitOver1ms,
        ),
        tally(events, LockCounter::WriteHoldOver10ms) <= tally(
            events,
            LockCounter::WriteHoldOver1ms,
        ),
        tally(events, LockCounter::ReadWaitOver1ms) <= measured(
            events,
            LockCounter::ReadWaitOver1ms,
        ),
        tally(events, LockCounter::WriteWaitOver1ms) <= measured(
            events,
            LockCounter::WriteWaitOver1ms,
        ),
        tally(events, LockCounter::WriteHoldOver1ms) <= measured(
            events,
            LockCounter::WriteHoldOver1ms,
        ),
    decreases events.len(),
{
    if events.len() > 0 {
        long_waits_are_waits(events.drop_last());
        lemma_increments(events.last());
    }
}

/// Reads that get the lock at once leave every counter as it is.
pub proof fn fast_reads_count_nowhere(events: Seq<LockEvent>, counter: LockCounter)
    ensures
        tally(events.push(LockEvent::Read(None)), counter) == tally(events, counter),
{
    assert(events.push(LockEvent::Read(None)).drop_last() =~= events);
}

/// Which counters an event increments.
proof fn lemma_increments(event: LockEvent)
    ensures
        forall|counter: LockCounter| #[trigger]
            event_increments(event).contains(counter) <==> match event {
                LockEvent::Read(None) => false,
                LockEvent::Read(Some(waited)) => {
                    ||| counter == LockCounter::ReadWaitOver1ms && waited >= OVER_1MS
                    ||| counter == LockCounter::ReadWaitOver10ms && waited >= OVER_10MS
                },
                LockEvent::Write(waited) => {
                    ||| counter == LockCounter::WriteWaitOver1ms && waited >= OVER_1MS
                    ||| counter == LockCounter::WriteWaitOver10ms && waited >= OVER_10MS
                },
                LockEvent::WriteReleased(held) => {
                    ||| counter == LockCounter::WriteHoldOver1ms && held >= OVER_1MS
                    ||| counter == LockCounter::WriteHoldOver10ms && held >= OVER_10MS
                },
            },
{
    let found = event_increments(event);
    if found.len() > 0 {
        assert(found[0] == found.first());
        assert(found.contains(found[0]));
    }
    if found.len() > 1 {
        assert(found.contains(found[1]));
    }
}

} // verus!
