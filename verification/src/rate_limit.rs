//! Global pacing of table uploads to the object store.
//!
//! A single shared leaky bucket bounds the aggregate upload rate across all
//! concurrent writers. Unpaced, concurrent compaction output can saturate the
//! network egress allowance of a machine, causing packet loss and retransmit
//! stalls on foreground reads.
//!
//! A claim for a payload carries its cost: the time that the payload takes at
//! the configured rate.

use crate::time::datetime_add;
use crate::time::datetime_sub;
use crate::time::delta_from_std;
use crate::time::delta_to_std;
use crate::time::max_timestamp;
use crate::time::Span;
use crate::time::Timestamp;
use vstd::prelude::*;

verus! {

/// When a claim made at `now` may start, if the schedule is taken until
/// `next_free`.
pub open spec fn start_time(next_free: int, now: int) -> int {
    if next_free < now {
        now
    } else {
        next_free
    }
}

/// Where the schedule ends after a claim that starts at `start` and takes
/// `cost`: a claim that ends after the last point that chrono can represent
/// takes the schedule until that point.
pub open spec fn taken_until(start: int, cost: int) -> int {
    if start + cost <= max_timestamp() {
        start + cost
    } else {
        max_timestamp()
    }
}

/// The schedule that all uploads share.
#[derive(Debug)]
pub struct UploadRateLimiter {
    /// The time when the next payload may start; claiming a payload advances
    /// it by the cost of the payload.
    next_free: Timestamp,
}

impl UploadRateLimiter {
    /// The time when the next payload may start.
    pub closed spec fn next_free(self) -> int {
        self.next_free@
    }

    /// The schedule ends at a point that chrono can represent.
    pub closed spec fn inv(self) -> bool {
        self.next_free.valid()
    }

    /// An idle limiter: a claim made now may start at once.
    pub fn new(now: Timestamp) -> (limiter: Self)
        requires
            now.valid(),
        ensures
            limiter.inv(),
            limiter.next_free() == now@,
    {
        UploadRateLimiter { next_free: now }
    }

    /// Claims the schedule for a payload of the given cost and returns how
    /// long the caller must wait before it sends the payload: `None` if it may
    /// start at once.
    ///
    /// Claims are serialized through the schedule, so any number of concurrent
    /// uploads together average the configured rate. An idle limiter admits
    /// immediately, and idle time earns no credit. A cost that leads past the
    /// last point that chrono can represent takes all the time until then.
    pub fn acquire(&mut self, now: Timestamp, cost: Span) -> (wait: Option<Span>)
        requires
            old(self).inv(),
            now.valid(),
            cost.valid(),
        ensures
            final(self).inv(),
            final(self).next_free() == taken_until(
                start_time(old(self).next_free(), now@),
                cost@,
            ),
            old(self).next_free() <= now@ && now@ + cost@ <= max_timestamp()
                ==> final(self).next_free() == now@ + cost@,
            old(self).next_free() >= now@ && old(self).next_free() + cost@ <= max_timestamp()
                ==> final(self).next_free() == old(self).next_free() + cost@,
            now@ + cost@ > max_timestamp() || old(self).next_free() + cost@ > max_timestamp()
                ==> final(self).next_free() == max_timestamp(),
            wait is None <==> old(self).next_free() <= now@,
            wait matches Some(w) ==> w.valid() && w@ == old(self).next_free() - now@,
    {
        let start = self.next_free.max(now);
        let end = match delta_from_std(cost) {
            Some(delta) => datetime_add(start, delta),
            None => None,
        };
        self.next_free = match end {
            Some(point) => point,
            None => Timestamp::last(),
        };
        let wait = match delta_to_std(datetime_sub(start, now)) {
            Some(span) => span,
            None => Span { secs: 0, nanos: 0 },
        };
        if wait.is_zero() {
            None
        } else {
            Some(wait)
        }
    }
}

/// A claim as the schedule sees it: when it was made, and the time that its
/// payload takes at the configured rate.
pub struct Claim {
    pub now: int,
    pub cost: nat,
}

/// Where the schedule ends after `claims`, if it ended at `next_free` before.
pub open spec fn schedule_end(next_free: int, claims: Seq<Claim>) -> int
    decreases claims.len(),
{
    if claims.len() == 0 {
        next_free
    } else {
        taken_until(
            start_time(schedule_end(next_free, claims.drop_last()), claims.last().now),
            claims.last().cost as int,
        )
    }
}

/// One claim more moves the end of the schedule as [`UploadRateLimiter::acquire`]
/// does.
pub proof fn schedule_follows_claims(next_free: int, claims: Seq<Claim>, claim: Claim)
    ensures
        schedule_end(next_free, Seq::empty()) == next_free,
        schedule_end(next_free, claims.push(claim)) == taken_until(
            start_time(schedule_end(next_free, claims), claim.now),
            claim.cost as int,
        ),
        schedule_end(next_free, claims) <= claim.now && claim.now + claim.cost <= max_timestamp()
            ==> schedule_end(next_free, claims.push(claim)) == claim.now + claim.cost,
        claim.now <= schedule_end(next_free, claims) && schedule_end(next_free, claims) + claim.cost
            <= max_timestamp() ==> schedule_end(next_free, claims.push(claim)) == schedule_end(
            next_free,
            claims,
        ) + claim.cost,
{
    assert(claims.push(claim).drop_last() =~= claims);
}

/// When claim `k` of `claims` may start.
pub open spec fn claim_start(next_free: int, claims: Seq<Claim>, k: int) -> int {
    start_time(schedule_end(next_free, claims.take(k)), claims[k].now)
}

/// The costs of the claims from `i` on and before `j`.
pub open spec fn cost_between(claims: Seq<Claim>, i: int, j: int) -> nat
    decreases j - i,
{
    if j <= i {
        0
    } else {
        cost_between(claims, i, j - 1) + claims[j - 1].cost
    }
}

/// Where the schedule ends after one claim more.
proof fn lemma_schedule_step(next_free: int, claims: Seq<Claim>, k: int)
    requires
        0 <= k < claims.len(),
    ensures
        schedule_end(next_free, claims.take(k + 1)) == taken_until(
            claim_start(next_free, claims, k),
            claims[k].cost as int,
        ),
{
    let prefix = claims.take(k + 1);
    assert(prefix.drop_last() =~= claims.take(k));
    assert(prefix.last() == claims[k]);
}

/// Claims are paced: between the starts of two claims lies at least the cost
/// of all claims from the first one on, whenever they were made and whatever
/// they cost, as far as chrono can represent the time.
pub proof fn claims_are_paced(next_free: int, claims: Seq<Claim>, i: int, j: int)
    requires
        0 <= i <= j < claims.len(),
    ensures
        taken_until(claim_start(next_free, claims, i), cost_between(claims, i, j) as int)
            <= claim_start(next_free, claims, j),
        claim_start(next_free, claims, i) + cost_between(claims, i, j) <= max_timestamp()
            ==> claim_start(next_free, claims, i) + cost_between(claims, i, j) <= claim_start(
            next_free,
            claims,
            j,
        ),
    decreases j - i,
{
    if i < j {
        claims_are_paced(next_free, claims, i, j - 1);
        lemma_schedule_step(next_free, claims, j - 1);
    }
}

/// Claims that find the schedule taken follow each other without a gap: the
/// uploads together average exactly the configured rate, as far as chrono can
/// represent the time.
pub proof fn busy_claims_average_the_rate(next_free: int, claims: Seq<Claim>, i: int, j: int)
    requires
        0 <= i <= j < claims.len(),
        next_free <= max_timestamp(),
        claims[i].now <= max_timestamp(),
        forall|k: int|
            i < k <= j ==> (#[trigger] claims[k]).now <= schedule_end(next_free, claims.take(k)),
    ensures
        taken_until(claim_start(next_free, claims, i), cost_between(claims, i, j) as int)
            == claim_start(next_free, claims, j),
        claim_start(next_free, claims, i) + cost_between(claims, i, j) <= max_timestamp()
            ==> claim_start(next_free, claims, i) + cost_between(claims, i, j) == claim_start(
            next_free,
            claims,
            j,
        ),
    decreases j - i,
{
    if i < j {
        busy_claims_average_the_rate(next_free, claims, i, j - 1);
        lemma_schedule_step(next_free, claims, j - 1);
        assert(claims[j].now <= schedule_end(next_free, claims.take(j)));
    } else {
        lemma_schedule_within_time(next_free, claims.take(i));
    }
}

/// The schedule never ends after the last point that chrono can represent.
proof fn lemma_schedule_within_time(next_free: int, claims: Seq<Claim>)
    requires
        next_free <= max_timestamp(),
    ensures
        schedule_end(next_free, claims) <= max_timestamp(),
{
}

/// A claim that finds the limiter idle starts at once, and the schedule then
/// ends one cost later however long the limiter was idle.
pub proof fn idle_claim_earns_no_credit(next_free: int, claims: Seq<Claim>, k: int)
    requires
        0 <= k < claims.len(),
        schedule_end(next_free, claims.take(k)) <= claims[k].now,
    ensures
        claim_start(next_free, claims, k) == claims[k].now,
        schedule_end(next_free, claims.take(k + 1)) == taken_until(
            claims[k].now,
            claims[k].cost as int,
        ),
        claims[k].now + claims[k].cost <= max_timestamp() ==> schedule_end(
            next_free,
            claims.take(k + 1),
        ) == claims[k].now + claims[k].cost,
{
    lemma_schedule_step(next_free, claims, k);
}

/// No claim starts before it is made, and the schedule never goes back.
pub proof fn schedule_never_goes_back(next_free: int, claims: Seq<Claim>, k: int)
    requires
        0 <= k < claims.len(),
        next_free <= max_timestamp(),
        claims[k].now <= max_timestamp(),
    ensures
        claims[k].now <= claim_start(next_free, claims, k),
        schedule_end(next_free, claims.take(k)) <= claim_start(next_free, claims, k),
        claim_start(next_free, claims, k) <= schedule_end(next_free, claims.take(k + 1)),
{
    lemma_schedule_step(next_free, claims, k);
    lemma_schedule_within_time(next_free, claims.take(k));
}

/// A claim takes exactly its cost, from when it is made or from when the
/// schedule is free, whichever is later: while the end can be represented, it
/// moves with the cost one for one, and with the start too.
pub proof fn claims_take_their_cost(next_free: int, now: int, cost: int, more: int)
    requires
        cost >= 0,
        more >= 0,
        start_time(next_free, now) + cost + more <= max_timestamp(),
    ensures
        start_time(next_free, now) >= next_free,
        start_time(next_free, now) >= now,
        start_time(next_free, now) == next_free || start_time(next_free, now) == now,
        taken_until(start_time(next_free, now), cost) - start_time(next_free, now) == cost,
        taken_until(start_time(next_free, now), cost + more) == taken_until(
            start_time(next_free, now),
            cost,
        ) + more,
        taken_until(taken_until(start_time(next_free, now), cost), more) == start_time(
            next_free,
            now,
        ) + cost + more,
{
}

/// A claim never takes the schedule past the last point, and takes it up to
/// that point if its cost leads there or further.
pub proof fn claims_end_within_time(start: int, cost: int)
    requires
        start <= max_timestamp(),
        cost >= 0,
    ensures
        start <= taken_until(start, cost) <= max_timestamp(),
        start + cost >= max_timestamp() ==> taken_until(start, cost) == max_timestamp(),
{
}

/// Costs add up: those of a stretch of claims are those of its two parts, and a
/// single claim counts its own.
pub proof fn costs_add_up(claims: Seq<Claim>, i: int, j: int, k: int)
    requires
        0 <= i <= j <= k <= claims.len(),
    ensures
        cost_between(claims, i, k) == cost_between(claims, i, j) + cost_between(claims, j, k),
        j < k ==> cost_between(claims, j, j + 1) == claims[j].cost,
        cost_between(claims, i, i) == 0,
    decreases k - j,
{
    reveal_with_fuel(cost_between, 2);
    if j < k {
        costs_add_up(claims, i, j, k - 1);
    }
}

} // verus!
