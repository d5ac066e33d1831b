//! A fixed pool of threads for disk-cache reads.
//!
//! Cache reads are synchronous file I/O, so they run on threads of their own.
//! The threads are started once, up front, and work is handed over through a
//! channel. This module decides how many threads there are, what they are
//! called, which of them count as running, and what a caller gets for a job;
//! its users start the threads and move the jobs.

use crate::decimal::append_decimal;
use crate::decimal::decimal;
use crate::decimal::decimal_is_injective;
use crate::decimal::decimal_reads_back;
use crate::decimal::decimal_value;
use crate::error::SlateDBError;
use vstd::prelude::*;

verus! {

/// Reported when the pool is gone and a read can no longer be run.
pub const POOL_STOPPED: &'static str = "cache I/O pool stopped";

/// What every thread's name begins with; the thread's number follows.
pub const THREAD_NAME_PREFIX: &'static str = "slatedb-cache-io-";

/// Assumed core count when the machine won't say.
pub const DEFAULT_PARALLELISM: usize = 8;

/// Threads per core. Reads block, so this is about overlap, not compute.
pub const READS_PER_CORE: usize = 4;

/// The fewest threads of a pool that is sized from the machine.
pub const MIN_THREADS: usize = 8;

/// The most threads of a pool that is sized from the machine.
pub const MAX_THREADS: usize = 128;

/// The number of threads that a pool starts when `threads` are asked for: at
/// least one.
pub open spec fn pool_size(threads: nat) -> nat {
    if threads == 0 {
        1
    } else {
        threads
    }
}

/// The number of threads for a machine with the given number of cores.
pub open spec fn size_for_cores(cores: nat) -> nat {
    let wanted = cores * READS_PER_CORE as nat;
    if wanted < MIN_THREADS {
        MIN_THREADS as nat
    } else if wanted > MAX_THREADS {
        MAX_THREADS as nat
    } else {
        wanted
    }
}

/// Sizes a pool from the machine's core count, where the machine says it.
/// Several reads per core: they block rather than compute, so the useful count
/// is set by how many can be outstanding, not by cores.
pub fn default_size(parallelism: Option<usize>) -> (threads: usize)
    requires
        parallelism matches Some(cores) ==> cores * READS_PER_CORE <= usize::MAX,
    ensures
        threads == size_for_cores(
            match parallelism {
                Some(cores) => cores as nat,
                None => DEFAULT_PARALLELISM as nat,
            },
        ),
        parallelism is None ==> threads == 32,
        parallelism matches Some(cores) ==> (cores * 4 < 8 ==> threads == 8),
        parallelism matches Some(cores) ==> (8 <= cores * 4 <= 128 ==> threads == cores * 4),
        parallelism matches Some(cores) ==> (cores * 4 > 128 ==> threads == 128),
{
    let cores: usize = match parallelism {
        Some(cores) => cores,
        None => DEFAULT_PARALLELISM,
    };
    let wanted: usize = cores * READS_PER_CORE;
    if wanted < MIN_THREADS {
        MIN_THREADS
    } else if wanted > MAX_THREADS {
        MAX_THREADS
    } else {
        wanted
    }
}

/// A pool sized from the machine has between the fewest and the most threads,
/// and more cores never give fewer threads.
pub proof fn size_for_cores_is_bounded(cores: nat, more: nat)
    requires
        cores <= more,
    ensures
        MIN_THREADS <= size_for_cores(cores) <= MAX_THREADS,
        size_for_cores(cores) <= size_for_cores(more),
        pool_size(size_for_cores(cores)) == size_for_cores(cores),
{
}

/// A pool sized from the machine has four threads per core, or as near to that
/// as the bounds allow: no number within them is nearer.
pub proof fn size_is_nearest_to_four_per_core(cores: nat, other: nat)
    requires
        8 <= other <= 128,
    ensures
        8 <= size_for_cores(cores) <= 128,
        8 <= cores * 4 <= 128 ==> size_for_cores(cores) == cores * 4,
        cores * 4 < 8 ==> size_for_cores(cores) == 8,
        cores * 4 > 128 ==> size_for_cores(cores) == 128,
        other <= cores * 4 ==> other <= size_for_cores(cores),
        other >= cores * 4 ==> other >= size_for_cores(cores),
{
}

/// A pool starts every thread that is asked for and at least one, and no more
/// than that: any number that is enough is no smaller.
pub proof fn pool_starts_what_is_asked_for(threads: nat, enough: nat)
    requires
        1 <= enough,
        threads <= enough,
    ensures
        1 <= pool_size(threads),
        threads <= pool_size(threads) <= enough,
        threads >= 1 ==> pool_size(threads) == threads,
        threads == 0 ==> pool_size(threads) == 1,
{
}

/// The name of thread `index`.
pub open spec fn thread_name_text(index: nat) -> Seq<char> {
    THREAD_NAME_PREFIX@ + decimal(index)
}

/// The name of thread `index`.
pub fn thread_name(index: usize) -> (name: String)
    ensures
        name@ == thread_name_text(index as nat),
        name@ == "slatedb-cache-io-"@ + decimal(index as nat),
{
    let mut name = THREAD_NAME_PREFIX.to_owned();
    append_decimal(&mut name, index);
    name
}

/// No two threads of a pool have the same name.
pub proof fn thread_names_differ(a: nat, b: nat)
    requires
        thread_name_text(a) == thread_name_text(b),
    ensures
        a == b,
{
    let prefix = THREAD_NAME_PREFIX@;
    assert(thread_name_text(a).skip(prefix.len() as int) =~= decimal(a));
    assert(thread_name_text(b).skip(prefix.len() as int) =~= decimal(b));
    decimal_is_injective(a, b);
}

/// The name of a thread is the prefix and then the thread's number, which can
/// be read back from it.
pub proof fn thread_names_hold_the_number(index: nat)
    ensures
        thread_name_text(index).take(17) == "slatedb-cache-io-"@,
        decimal_value(thread_name_text(index).skip(17)) == index,
{
    reveal_strlit("slatedb-cache-io-");
    assert(thread_name_text(index).take(17) =~= "slatedb-cache-io-"@);
    assert(thread_name_text(index).skip(17) =~= decimal(index));
    decimal_reads_back(index);
}

/// The handles among the outcomes of the attempts to start threads.
pub open spec fn started<H>(attempts: Seq<Option<H>>) -> Seq<H>
    decreases attempts.len(),
{
    if attempts.len() == 0 {
        Seq::empty()
    } else {
        match attempts.last() {
            Some(handle) => started(attempts.drop_last()).push(handle),
            None => started(attempts.drop_last()),
        }
    }
}

/// A pool whose threads are being started one after the other.
pub struct PoolStart<H> {
    threads: usize,
    next: usize,
    handles: Vec<H>,
    attempts: Ghost<Seq<Option<H>>>,
}

impl<H> PoolStart<H> {
    /// The number of threads to start.
    pub closed spec fn threads(self) -> nat {
        self.threads as nat
    }

    /// The outcomes of the attempts so far, in order.
    pub closed spec fn attempts(self) -> Seq<Option<H>> {
        self.attempts@
    }

    /// No more attempts were made than threads are wanted, and the handles are
    /// those of the attempts that succeeded.
    pub closed spec fn inv(self) -> bool {
        &&& self.next <= self.threads
        &&& self.next == self.attempts@.len()
        &&& self.handles@ == started(self.attempts@)
    }

    /// A pool of `threads` threads, at least one, none of which is started.
    pub fn new(threads: usize) -> (start: Self)
        ensures
            start.inv(),
            start.threads() == pool_size(threads as nat),
            threads >= 1 ==> start.threads() == threads,
            threads == 0 ==> start.threads() == 1,
            start.attempts() == Seq::<Option<H>>::empty(),
    {
        let threads: usize = if threads == 0 { 1 } else { threads };
        PoolStart { threads, next: 0, handles: Vec::new(), attempts: Ghost(Seq::empty()) }
    }

    /// The name of the thread to start next, or `None` when every thread was
    /// tried.
    pub fn next_name(&self) -> (name: Option<String>)
        requires
            self.inv(),
        ensures
            name is Some <==> self.attempts().len() < self.threads(),
            name matches Some(n) ==> n@ == thread_name_text(self.attempts().len()),
            name matches Some(n) ==> n@ == "slatedb-cache-io-"@ + decimal(self.attempts().len()),
    {
        if self.next < self.threads {
            Some(thread_name(self.next))
        } else {
            None
        }
    }

    /// Records the attempt to start the next thread: its handle, or `None` if
    /// it could not be started. A thread that could not be started is left
    /// out; the pool goes on without it.
    pub fn record(&mut self, attempt: Option<H>)
        requires
            old(self).inv(),
            old(self).attempts().len() < old(self).threads(),
        ensures
            final(self).inv(),
            final(self).threads() == old(self).threads(),
            final(self).attempts() == old(self).attempts().push(attempt),
    {
        let ghost before = self.attempts@;
        proof {
            assert(before.push(attempt).drop_last() =~= before);
        }
        self.next = self.next + 1;
        self.attempts = Ghost(before.push(attempt));
        if let Some(handle) = attempt {
            self.handles.push(handle);
        }
    }

    /// The handles of the threads that were started, in the order of their
    /// numbers.
    pub fn into_handles(self) -> (handles: Vec<H>)
        requires
            self.inv(),
        ensures
            handles@ == started(self.attempts()),
    {
        self.handles
    }
}

/// A pool never has more running threads than attempts were made, and has as
/// many if none of them failed.
pub proof fn started_is_bounded<H>(attempts: Seq<Option<H>>)
    ensures
        started(attempts).len() <= attempts.len(),
        (forall|i: int| 0 <= i < attempts.len() ==> #[trigger] attempts[i] is Some) ==> started(
            attempts,
        ).len() == attempts.len(),
    decreases attempts.len(),
{
    if attempts.len() > 0 {
        let rest = attempts.drop_last();
        started_is_bounded(rest);
        if forall|i: int| 0 <= i < attempts.len() ==> #[trigger] attempts[i] is Some {
            assert forall|i: int| 0 <= i < rest.len() implies #[trigger] rest[i] is Some by {
                assert(attempts[i] is Some);
            }
            assert(attempts[attempts.len() - 1] is Some);
        }
    }
}

/// The handles of the threads that were started are kept in order, all of them
/// and nothing else: attempts in a row give the handles of the first ones and
/// then those of the rest, one that succeeded gives its handle, and one that
/// failed gives none.
pub proof fn started_keeps_every_handle<H>(first: Seq<Option<H>>, rest: Seq<Option<H>>, handle: H)
    ensures
        started(first + rest) == started(first) + started(rest),
        started(seq![Some(handle)]) == seq![handle],
        started(seq![None::<H>]).len() == 0,
        started(Seq::<Option<H>>::empty()).len() == 0,
    decreases rest.len(),
{
    reveal_with_fuel(started, 2);
    assert(seq![Some(handle)].drop_last() =~= Seq::<Option<H>>::empty());
    assert(seq![None::<H>].drop_last() =~= Seq::<Option<H>>::empty());
    assert(started(seq![Some(handle)]) =~= seq![handle]);
    if rest.len() == 0 {
        assert(first + rest =~= first);
        assert(started(first) + started(rest) =~= started(first));
    } else {
        started_keeps_every_handle(first, rest.drop_last(), handle);
        assert((first + rest).drop_last() =~= first + rest.drop_last());
        assert((first + rest).last() == rest.last());
        assert(started(first + rest) =~= started(first) + started(rest));
    }
}

/// What the caller of a job gets. `queued` says whether the job could be
/// handed to the pool, `result` holds what came back for it: nothing, if the
/// pool dropped the job. In both cases the pool can no longer run work.
pub fn run_outcome<T>(queued: bool, result: Option<T>) -> (outcome: Result<T, SlateDBError>)
    ensures
        match outcome {
            Ok(value) => queued && result == Some(value),
            Err(SlateDBError::BackgroundTaskCancelled(text)) => {
                &&& !queued || result is None
                &&& text@ == POOL_STOPPED@
                &&& text@ == "cache I/O pool stopped"@
            },
            Err(_) => false,
        },
{
    if !queued {
        return Err(SlateDBError::BackgroundTaskCancelled(POOL_STOPPED.to_owned()));
    }
    match result {
        Some(value) => Ok(value),
        None => Err(SlateDBError::BackgroundTaskCancelled(POOL_STOPPED.to_owned())),
    }
}

} // verus!
