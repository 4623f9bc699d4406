//! Pacing: when an operation may be dispatched, when it was due, and what its
//! times say. All times are nanoseconds from one common origin.

use crate::fairness::measure::Measure;
use crate::text::string_from;
use vstd::prelude::*;

verus! {

/// Rate limiting strategy.
#[derive(Debug, Clone, Copy, PartialEq, Eq, Structural)]
pub enum RateLimitStrategy {
    /// No rate limiting: run as fast as possible.
    Unlimited,
    /// Fixed delay between operations.
    FixedDelay,
    /// Adaptive rate adjustment; it waits as the fixed delay does.
    Adaptive,
}

impl Default for RateLimitStrategy {
    fn default() -> (r: RateLimitStrategy)
        ensures
            r == RateLimitStrategy::Unlimited,
    {
        RateLimitStrategy::Unlimited
    }
}

impl RateLimitStrategy {
    /// The strategy in words.
    pub open spec fn text(self) -> Seq<char> {
        match self {
            RateLimitStrategy::Unlimited => "Unlimited"@,
            RateLimitStrategy::FixedDelay => "Fixed Delay"@,
            RateLimitStrategy::Adaptive => "Adaptive"@,
        }
    }

    /// The strategy in words.
    pub fn label(&self) -> (r: String)
        ensures
            r@ == self.text(),
    {
        match self {
            RateLimitStrategy::Unlimited => string_from("Unlimited"),
            RateLimitStrategy::FixedDelay => string_from("Fixed Delay"),
            RateLimitStrategy::Adaptive => string_from("Adaptive"),
        }
    }
}

/// Holds a stream of operations to a rate: at least `interval` lies between two
/// of them. One limiter belongs to one stream.
#[derive(Debug, Clone, Copy)]
pub struct RateLimiter {
    pub strategy: RateLimitStrategy,
    interval: u64,
    last_request: Option<u64>,
}

/// The time between two operations at a rate whose period is given, in
/// nanoseconds: none where the rate is no positive finite number, for such a rate
/// paces nothing.
pub open spec fn paced_interval(rate: Measure, period: u64) -> u64 {
    if rate.finite() && (Measure { bits: 0 }).less(rate) {
        period
    } else {
        0
    }
}

/// The time between two operations at a rate whose period is given, in
/// nanoseconds.
pub fn pacing_interval(rate: Measure, period: u64) -> (r: u64)
    ensures
        r == paced_interval(rate, period),
{
    if rate.is_finite() && Measure::zero().is_below(rate) {
        period
    } else {
        0
    }
}

/// How long the next operation has to wait at `now`: what is left of the
/// interval since the last one.
pub open spec fn delay_at(
    strategy: RateLimitStrategy,
    interval: int,
    last: Option<u64>,
    now: int,
) -> int {
    match last {
        Some(last) => if strategy is Unlimited {
            0
        } else {
            let elapsed = if now < last {
                0
            } else {
                now - last
            };
            if elapsed < interval {
                interval - elapsed
            } else {
                0
            }
        },
        None => 0,
    }
}

impl RateLimiter {
    /// The least time between two operations, in nanoseconds.
    pub closed spec fn gap(self) -> int {
        self.interval as int
    }

    /// How the rate is limited.
    pub closed spec fn policy(self) -> RateLimitStrategy {
        self.strategy
    }

    /// When the last operation was dispatched, if one was.
    pub closed spec fn last(self) -> Option<u64> {
        self.last_request
    }

    /// A limiter with the given strategy and least time between two operations.
    pub fn new(strategy: RateLimitStrategy, interval: u64) -> (r: RateLimiter)
        ensures
            r.policy() == strategy,
            r.gap() == interval,
            r.last() is None,
    {
        RateLimiter { strategy, interval, last_request: None }
    }

    /// A limiter that never waits.
    pub fn unlimited() -> (r: RateLimiter)
        ensures
            r.policy() is Unlimited,
            r.gap() == 0,
            r.last() is None,
    {
        RateLimiter::new(RateLimitStrategy::Unlimited, 0)
    }

    /// A limiter that keeps a fixed delay.
    pub fn fixed_delay(interval: u64) -> (r: RateLimiter)
        ensures
            r.policy() is FixedDelay,
            r.gap() == interval,
            r.last() is None,
    {
        RateLimiter::new(RateLimitStrategy::FixedDelay, interval)
    }

    /// The least time between two operations, in nanoseconds.
    pub fn interval(&self) -> (r: u64)
        ensures
            r == self.gap(),
    {
        self.interval
    }

    /// How long the next operation has to wait at `now`.
    pub fn wait(&self, now: u64) -> (r: u64)
        ensures
            r == delay_at(self.policy(), self.gap(), self.last(), now as int),
    {
        match self.strategy {
            RateLimitStrategy::Unlimited => 0,
            RateLimitStrategy::FixedDelay | RateLimitStrategy::Adaptive => {
                match self.last_request {
                    Some(last) => {
                        let elapsed: u64 = now.saturating_sub(last);
                        if elapsed < self.interval {
                            self.interval - elapsed
                        } else {
                            0
                        }
                    },
                    None => 0,
                }
            },
        }
    }

    /// Notes that an operation is dispatched at `now`, after its wait. A limiter
    /// that never waits notes nothing.
    pub fn dispatch(&mut self, now: u64)
        ensures
            final(self).policy() == old(self).policy(),
            final(self).gap() == old(self).gap(),
            final(self).last() == if old(self).policy() is Unlimited {
                old(self).last()
            } else {
                Some(now)
            },
    {
        if !matches!(self.strategy, RateLimitStrategy::Unlimited) {
            self.last_request = Some(now);
        }
    }
}

/// An operation was asked for at `asked`, no earlier than the one before it was
/// dispatched, and waited at least as long as it was told.
pub open spec fn waited(
    strategy: RateLimitStrategy,
    interval: int,
    before: u64,
    time: u64,
    asked: int,
) -> bool {
    before <= asked && time >= asked + delay_at(strategy, interval, Some(before), asked)
}

/// Operation `k + 1` was dispatched as a limiter asks.
pub open spec fn follows(
    strategy: RateLimitStrategy,
    interval: int,
    times: Seq<u64>,
    k: int,
) -> bool {
    let before = times[k];
    let time = times[k + 1];
    exists|asked: int| waited(strategy, interval, before, time, asked)
}

/// The rate is kept: operations that a limiter with a delay held back lie at
/// least an interval apart, so that `n` of them take `n - 1` intervals.
pub proof fn limited_operations_keep_the_rate(
    strategy: RateLimitStrategy,
    interval: int,
    times: Seq<u64>,
)
    requires
        !(strategy is Unlimited),
        interval >= 0,
        times.len() > 0,
        forall|k: int| 0 <= k < times.len() - 1 ==> #[trigger] follows(strategy, interval, times, k),
    ensures
        times.last() >= times[0] + (times.len() - 1) * interval,
    decreases times.len(),
{
    if times.len() > 1 {
        let before = times.drop_last();
        let n = times.len() - 1;
        assert forall|k: int| 0 <= k < before.len() - 1 implies #[trigger] follows(
            strategy,
            interval,
            before,
            k,
        ) by {
            assert(follows(strategy, interval, times, k));
            assert(before[k] == times[k] && before[k + 1] == times[k + 1]);
        }
        limited_operations_keep_the_rate(strategy, interval, before);
        assert(follows(strategy, interval, times, n - 1));
        let (last, time) = (times[n - 1], times[n]);
        let asked = choose|asked: int| waited(strategy, interval, last, time, asked);
        assert(waited(strategy, interval, last, time, asked));
        assert(times[n] >= times[n - 1] + interval);
        assert(before.last() == times[n - 1]);
        assert(before[0] == times[0]);
        assert((before.len() - 1) * interval == (n - 1) * interval);
        assert(n * interval == (n - 1) * interval + interval) by (nonlinear_arith);
    } else {
        let n = times.len() - 1;
        assert(n * interval == 0) by (nonlinear_arith)
            requires
                n == 0,
        ;
    }
}

/// A limiter without a limit never waits.
pub proof fn unlimited_never_waits(interval: int, last: Option<u64>, now: int)
    ensures
        delay_at(RateLimitStrategy::Unlimited, interval, last, now) == 0,
{
}

/// A limiter with a delay holds the next operation back exactly until an
/// interval has passed since the last one, and not at all after that or before
/// the first; the adaptive one waits as the fixed one does.
pub proof fn a_limiter_waits_for_the_interval(
    strategy: RateLimitStrategy,
    interval: int,
    last: u64,
    now: int,
)
    requires
        !(strategy is Unlimited),
        interval >= 0,
        last <= now,
    ensures
        now + delay_at(strategy, interval, Some(last), now) >= last + interval,
        delay_at(strategy, interval, Some(last), now) > 0 ==> now + delay_at(
            strategy,
            interval,
            Some(last),
            now,
        ) == last + interval,
        now >= last + interval ==> delay_at(strategy, interval, Some(last), now) == 0,
        delay_at(strategy, interval, None, now) == 0,
        delay_at(RateLimitStrategy::Adaptive, interval, Some(last), now) == delay_at(
            RateLimitStrategy::FixedDelay,
            interval,
            Some(last),
            now,
        ),
{
}

/// Only a rate that is a positive number paces anything.
pub proof fn only_a_positive_rate_paces(rate: Measure, period: u64)
    ensures
        !rate.finite() || rate.at_most(Measure { bits: 0 }) ==> paced_interval(rate, period) == 0,
        rate.finite() && !rate.at_most(Measure { bits: 0 }) ==> paced_interval(rate, period)
            == period,
{
}

// ---- Schedules -------------------------------------------------------------

/// A fixed dispatch schedule for a stream of operations: the intended time of
/// operation `k` is `k` intervals after the start, however long the operations
/// before it took. Without an interval every operation is due when it is asked
/// for.
#[derive(Debug, Clone, Copy)]
pub struct OperationSchedule {
    start: u64,
    interval: u64,
    issued: u64,
}

/// A slot of a schedule.
#[derive(Debug, Clone, Copy, PartialEq, Eq, Structural)]
pub struct Slot {
    /// When the operation was due: the point its response time is measured from.
    pub due: u128,
    /// How long to wait before it is dispatched.
    pub wait: u128,
}

/// When operation number `k` is due.
pub open spec fn due_at(start: int, interval: int, k: int) -> int {
    start + interval * k
}

impl OperationSchedule {
    /// When the schedule starts.
    pub closed spec fn origin(self) -> int {
        self.start as int
    }

    /// The time between two slots; none where the operations are not paced.
    pub closed spec fn step(self) -> int {
        self.interval as int
    }

    /// How many operations were dispatched.
    pub closed spec fn count(self) -> int {
        self.issued as int
    }

    /// A schedule from `start` on with `interval` between two operations; an
    /// interval of zero means as fast as possible.
    pub fn new(start: u64, interval: u64) -> (r: OperationSchedule)
        ensures
            r.origin() == start,
            r.step() == interval,
            r.count() == 0,
    {
        OperationSchedule { start, interval, issued: 0 }
    }

    /// Time origin of the schedule.
    pub fn start(&self) -> (r: u64)
        ensures
            r == self.origin(),
    {
        self.start
    }

    /// Intended dispatch time of the next operation, without consuming the slot.
    pub fn next_intended(&self) -> (r: u128)
        ensures
            r == due_at(self.origin(), self.step(), self.count()),
    {
        proof {
            product_fits(self.interval as int, self.issued as int);
        }
        self.start as u128 + self.interval as u128 * self.issued as u128
    }

    /// Takes the next slot at `now`: when it was due, and how long to wait for
    /// it. The due time lies in the past whenever the stream has fallen behind.
    pub fn next_slot(&mut self, now: u64) -> (r: Slot)
        requires
            old(self).count() < u64::MAX,
        ensures
            final(self).origin() == old(self).origin(),
            final(self).step() == old(self).step(),
            final(self).count() == old(self).count() + 1,
            old(self).step() == 0 ==> r == (Slot { due: now as u128, wait: 0 }),
            old(self).step() > 0 ==> r.due == due_at(
                old(self).origin(),
                old(self).step(),
                old(self).count(),
            ) && r.wait == if r.due > now {
                r.due - now
            } else {
                0
            },
            r == slot_at(old(self).origin(), old(self).step(), old(self).count(), now as int),
    {
        let intended: u128 = self.next_intended();
        proof {
            product_fits(self.interval as int, self.issued as int);
        }
        self.issued = self.issued + 1;
        if self.interval == 0 {
            return Slot { due: now as u128, wait: 0 };
        }
        let now: u128 = now as u128;
        let wait: u128 = if intended > now {
            intended - now
        } else {
            0
        };
        Slot { due: intended, wait }
    }

    /// Operations dispatched so far.
    pub fn issued(&self) -> (r: u64)
        ensures
            r == self.count(),
    {
        self.issued
    }
}

/// The slot that a schedule gives at `now`, after `count` others.
pub open spec fn slot_at(start: int, interval: int, count: int, now: int) -> Slot {
    let due = if interval == 0 {
        now
    } else {
        due_at(start, interval, count)
    };
    Slot {
        due: due as u128,
        wait: (if due > now {
            due - now
        } else {
            0
        }) as u128,
    }
}

/// A slot is waited for until it is due and no longer: who comes early is held
/// back exactly to the due time, who comes late is not held back at all, and
/// the due time stays what the schedule says. Where the operations are not
/// paced, each is due when it is asked for.
pub proof fn a_slot_is_waited_for_until_it_is_due(
    start: u64,
    interval: u64,
    count: u64,
    now: u64,
)
    ensures
        ({
            let slot = slot_at(start as int, interval as int, count as int, now as int);
            &&& interval == 0 ==> slot.due == now && slot.wait == 0
            &&& interval > 0 ==> slot.due == start + interval * count
            &&& now + slot.wait >= slot.due
            &&& slot.wait > 0 ==> now + slot.wait == slot.due
            &&& now >= slot.due ==> slot.wait == 0
        }),
{
    product_fits(interval as int, count as int);
}

proof fn product_fits(a: int, b: int)
    requires
        0 <= a <= u64::MAX,
        0 <= b <= u64::MAX,
    ensures
        0 <= a * b <= u128::MAX - u64::MAX,
{
    assert(0 <= a * b <= 0xffff_ffff_ffff_ffff * 0xffff_ffff_ffff_ffff) by (nonlinear_arith)
        requires
            0 <= a <= 0xffff_ffff_ffff_ffff,
            0 <= b <= 0xffff_ffff_ffff_ffff,
    ;
}

/// Slots do not drift: a paced slot is due when its number says, whenever the
/// earlier ones were taken, and two slots in a row lie one interval apart.
pub proof fn slots_do_not_drift(start: int, interval: int, k: int)
    ensures
        due_at(start, interval, k + 1) == due_at(start, interval, k) + interval,
        due_at(start, interval, 0) == start,
{
    assert(interval * (k + 1) == interval * k + interval) by (nonlinear_arith);
}

// ---- Timing ----------------------------------------------------------------

/// What was measured of one operation, in nanoseconds.
#[derive(Debug, Clone, Copy, PartialEq, Eq, Structural)]
pub struct OperationTiming {
    /// When it was dispatched, from the start of the phase: a clock.
    pub timestamp: u128,
    /// From its dispatch to its completion: the latency that is reported.
    pub latency: u128,
    /// From its slot to its completion: it also counts the wait for a worker.
    pub scheduled_latency: u128,
    /// When it was due, from the start of the phase: a count of operations.
    pub slot_timestamp: u128,
}

/// How much later `b` is than `a`, and nothing where it is not.
pub open spec fn since(a: int, b: int) -> int {
    if b > a {
        b - a
    } else {
        0
    }
}

/// What is measured of an operation that was due, dispatched and completed at
/// the given times.
pub open spec fn timed(start: int, intended: int, dispatched: int, completed: int) -> OperationTiming {
    OperationTiming {
        timestamp: since(start, dispatched) as u128,
        latency: since(dispatched, completed) as u128,
        scheduled_latency: since(intended, completed) as u128,
        slot_timestamp: since(start, intended) as u128,
    }
}

/// What is measured of an operation that was due, dispatched and completed at
/// the given times.
pub fn time_operation(start: u128, intended: u128, dispatched: u128, completed: u128) -> (r:
    OperationTiming)
    ensures
        r.timestamp == since(start as int, dispatched as int),
        r.latency == since(dispatched as int, completed as int),
        r.scheduled_latency == since(intended as int, completed as int),
        r.slot_timestamp == since(start as int, intended as int),
        r == timed(start as int, intended as int, dispatched as int, completed as int),
{
    OperationTiming {
        timestamp: dispatched.saturating_sub(start),
        latency: completed.saturating_sub(dispatched),
        scheduled_latency: completed.saturating_sub(intended),
        slot_timestamp: intended.saturating_sub(start),
    }
}

/// A response is never faster than its service: measured from the slot an
/// operation takes at least as long as from its dispatch, and just as long where
/// the stream kept up.
pub proof fn responses_include_their_service(intended: int, dispatched: int, completed: int)
    requires
        intended <= dispatched <= completed,
    ensures
        since(intended, completed) >= since(dispatched, completed),
        intended == dispatched ==> since(intended, completed) == since(dispatched, completed),
        since(intended, completed) == since(dispatched, completed) + since(intended, dispatched),
{
}


/// The two ways of timing an operation agree on when it was done: dispatch time
/// and latency, and slot time and scheduled latency, both end at its completion.
/// Only the dispatched latency is free of the wait for a worker.
pub proof fn both_timings_end_at_the_completion(
    start: int,
    intended: int,
    dispatched: int,
    completed: int,
)
    requires
        0 <= start <= intended <= dispatched <= completed <= u128::MAX,
    ensures
        ({
            let timing = timed(start, intended, dispatched, completed);
            &&& start + timing.timestamp + timing.latency == completed
            &&& start + timing.slot_timestamp + timing.scheduled_latency == completed
            &&& start + timing.timestamp == dispatched
            &&& start + timing.slot_timestamp == intended
            &&& timing.scheduled_latency - timing.latency == dispatched - intended
        }),
{
}

}
