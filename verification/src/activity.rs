//! Bookkeeping of the requests that pass through the supervising proxy, and
//! the rule by which an idle worker child is reaped.
//!
//! Points in time are nanoseconds since a moment of the caller's choice.

use vstd::prelude::*;

verus! {

/// Nanoseconds in a second.
pub const NANOS_PER_SEC: u128 = 1_000_000_000;

/// One more than the largest generation number.
pub const GENERATIONS: u128 = 0x1_0000_0000_0000_0000;

/// A wait after whose end an idle worker child may be reaped.
#[derive(Debug, Clone, Copy, PartialEq, Eq, Structural)]
pub struct ReapTimer {
    /// The generation in which the wait began.
    pub generation: u64,
    /// How long to wait, in seconds.
    pub delay_secs: u64,
}

/// What is known of a worker child that is to be reaped.
#[derive(Debug, Clone, Copy, PartialEq, Eq, Structural)]
pub struct ReapReport {
    /// Whole seconds since the last request was completed.
    pub idle_secs: u128,
    /// Requests still under way.
    pub active_requests: usize,
}

/// The requests that pass through the proxy.
pub struct ProxyActivity {
    active_requests: usize,
    idle_generation: u64,
    last_completed_at: u128,
    idle_reap_secs: u64,
}

/// The state of a `ProxyActivity`.
pub struct ActivityView {
    /// Requests under way.
    pub active: int,
    /// Moves on with every start, and with every end where reaping is on.
    pub generation: int,
    /// When the last request was completed.
    pub last_completed: int,
    /// How long the worker child may be idle, in seconds. Zero: for ever.
    pub reap_secs: int,
}

/// A count that has moved by one, on the range of `usize`, which wraps around.
pub open spec fn wrapped_count(count: int) -> int {
    if count < 0 {
        count + usize::MAX + 1
    } else if count > usize::MAX {
        count - usize::MAX - 1
    } else {
        count
    }
}

/// The nanoseconds from `since` to `now`, none if `now` is earlier.
pub open spec fn elapsed(since: int, now: int) -> int {
    if now <= since {
        0
    } else {
        now - since
    }
}

impl ActivityView {
    /// The next generation. The numbers wrap around.
    pub open spec fn next_generation(self) -> int {
        (self.generation + 1) % (GENERATIONS as int)
    }

    /// After a request has started.
    pub open spec fn begun(self) -> ActivityView {
        ActivityView {
            active: wrapped_count(self.active + 1),
            generation: self.next_generation(),
            ..self
        }
    }

    /// After a request has been completed at `now`.
    pub open spec fn finished(self, now: int) -> ActivityView {
        ActivityView {
            active: wrapped_count(self.active - 1),
            generation: if self.reap_secs == 0 {
                self.generation
            } else {
                self.next_generation()
            },
            last_completed: now,
            ..self
        }
    }

    /// Whether the end of `timer` at `now` reaps the worker child: nothing has
    /// started or ended since the timer was set, and the last request was
    /// completed long enough ago.
    pub open spec fn reap_due(self, timer: ReapTimer, now: int) -> bool {
        &&& self.generation == timer.generation
        &&& elapsed(self.last_completed, now) >= timer.delay_secs * NANOS_PER_SEC
    }

    /// The values that the counters can take.
    pub open spec fn in_range(self) -> bool {
        &&& 0 <= self.active <= usize::MAX
        &&& 0 <= self.generation < GENERATIONS
        &&& 0 <= self.last_completed
        &&& 0 <= self.reap_secs <= u64::MAX
    }
}

impl View for ProxyActivity {
    type V = ActivityView;

    closed spec fn view(&self) -> ActivityView {
        ActivityView {
            active: self.active_requests as int,
            generation: self.idle_generation as int,
            last_completed: self.last_completed_at as int,
            reap_secs: self.idle_reap_secs as int,
        }
    }
}

impl ProxyActivity {
    /// The counters are within their ranges.
    pub proof fn counters_in_range(&self)
        ensures
            self@.in_range(),
    {
    }

    /// No request yet, at `now`.
    pub fn new(idle_reap_secs: u64, now: u128) -> (res: Self)
        ensures
            res@ == (ActivityView {
                active: 0,
                generation: 0,
                last_completed: now as int,
                reap_secs: idle_reap_secs as int,
            }),
    {
        ProxyActivity {
            active_requests: 0,
            idle_generation: 0,
            last_completed_at: now,
            idle_reap_secs,
        }
    }

    /// A request starts.
    pub fn begin(&mut self)
        ensures
            final(self)@ == old(self)@.begun(),
            old(self)@.active < usize::MAX ==> final(self)@.active == old(self)@.active + 1,
            old(self)@.generation < u64::MAX ==> final(self)@.generation == old(self)@.generation
                + 1,
            final(self)@.last_completed == old(self)@.last_completed,
            final(self)@.reap_secs == old(self)@.reap_secs,
    {
        self.active_requests = self.active_requests.wrapping_add(1);
        self.idle_generation = self.idle_generation.wrapping_add(1);
    }

    /// A request is completed at `now`. Where reaping is on, the answer is the
    /// timer to set.
    pub fn finish(&mut self, now: u128) -> (res: Option<ReapTimer>)
        ensures
            final(self)@ == old(self)@.finished(now as int),
            old(self)@.active > 0 ==> final(self)@.active == old(self)@.active - 1,
            final(self)@.last_completed == now,
            final(self)@.reap_secs == old(self)@.reap_secs,
            if old(self)@.reap_secs == 0 {
                res is None
            } else {
                res matches Some(timer) && timer.generation == final(self)@.generation
                    && timer.delay_secs == old(self)@.reap_secs && timer == timer_set(final(self)@)
            },
    {
        self.last_completed_at = now;
        self.active_requests = self.active_requests.wrapping_sub(1);
        if self.idle_reap_secs == 0 {
            return None;
        }
        self.idle_generation = self.idle_generation.wrapping_add(1);
        Some(ReapTimer { generation: self.idle_generation, delay_secs: self.idle_reap_secs })
    }

    /// Decides at the end of `timer`, at `now`, whether to reap the worker
    /// child.
    pub fn timer_ended(&self, timer: ReapTimer, now: u128) -> (res: Option<ReapReport>)
        ensures
            if self@.reap_due(timer, now as int) {
                res matches Some(report) && report.idle_secs == elapsed(
                    self@.last_completed,
                    now as int,
                ) / (NANOS_PER_SEC as int) && report.active_requests == self@.active
            } else {
                res is None
            },
            res is Some <==> self@.generation == timer.generation && (timer.delay_secs == 0 || now
                - self@.last_completed >= timer.delay_secs * 1_000_000_000),
            res matches Some(report) ==> report.active_requests == self@.active && (now
                >= self@.last_completed ==> report.idle_secs * 1_000_000_000 <= now
                - self@.last_completed < (report.idle_secs + 1) * 1_000_000_000) && (now
                < self@.last_completed ==> report.idle_secs == 0),
    {
        if self.idle_generation != timer.generation {
            return None;
        }
        let idle_for: u128 = now.saturating_sub(self.last_completed_at);
        let delay: u128 = timer.delay_secs as u128 * NANOS_PER_SEC;
        if idle_for < delay {
            return None;
        }
        Some(
            ReapReport {
                idle_secs: idle_for / NANOS_PER_SEC,
                active_requests: self.active_requests,
            },
        )
    }
}

/// Something that happens to the proxy.
pub enum ActivityEvent {
    /// A request starts.
    Begin,
    /// A request is completed at this time.
    Finish { now: int },
}

/// The state after `events`, first to last.
pub open spec fn after_events(state: ActivityView, events: Seq<ActivityEvent>) -> ActivityView
    decreases events.len(),
{
    if events.len() == 0 {
        state
    } else {
        let before = after_events(state, events.drop_last());
        match events.last() {
            ActivityEvent::Begin => before.begun(),
            ActivityEvent::Finish { now } => before.finished(now),
        }
    }
}

/// Requests started less requests completed in `events`.
pub open spec fn net_requests(events: Seq<ActivityEvent>) -> int
    decreases events.len(),
{
    if events.len() == 0 {
        0
    } else {
        net_requests(events.drop_last()) + (if events.last() is Begin {
            1int
        } else {
            -1int
        })
    }
}

/// A request that starts and is completed leaves the number of requests under
/// way as it was.
pub proof fn completed_request_leaves_count(state: ActivityView, now: int)
    requires
        state.in_range(),
    ensures
        state.begun().finished(now).active == state.active,
{
}

/// A count that wraps around is where it would be without a limit, less some
/// whole rounds. After a step of one this still holds, for the rounds returned.
pub proof fn lemma_rounds_after_step(from: int, exact: int, rounds: int, step: int) -> (after: int)
    requires
        0 <= from <= usize::MAX,
        from == exact - rounds * (usize::MAX + 1),
        step == 1 || step == -1,
    ensures
        0 <= wrapped_count(from + step) <= usize::MAX,
        wrapped_count(from + step) == exact + step - after * (usize::MAX + 1),
{
    let after = if from + step < 0 {
        rounds - 1
    } else if from + step > usize::MAX {
        rounds + 1
    } else {
        rounds
    };
    let range = usize::MAX + 1;
    assert((rounds - 1) * range == rounds * range - range) by (nonlinear_arith);
    assert((rounds + 1) * range == rounds * range + range) by (nonlinear_arith);
    after
}

/// A count that is within its range without a limit has gone no whole rounds.
pub proof fn lemma_no_rounds(count: int, exact: int, rounds: int)
    requires
        0 <= count <= usize::MAX,
        0 <= exact <= usize::MAX,
        count == exact - rounds * (usize::MAX + 1),
    ensures
        count == exact,
{
    let range = usize::MAX + 1;
    assert(rounds == 0) by (nonlinear_arith)
        requires
            range > 0,
            -range < rounds * range < range,
    ;
}

proof fn lemma_active_up_to_rounds(state: ActivityView, events: Seq<ActivityEvent>) -> (rounds: int)
    requires
        state.in_range(),
    ensures
        0 <= after_events(state, events).active <= usize::MAX,
        after_events(state, events).active == state.active + net_requests(events) - rounds * (
        usize::MAX + 1),
    decreases events.len(),
{
    if events.len() == 0 {
        0
    } else {
        let rounds = lemma_active_up_to_rounds(state, events.drop_last());
        let before = after_events(state, events.drop_last());
        let exact = state.active + net_requests(events.drop_last());
        let step = if events.last() is Begin {
            1int
        } else {
            -1int
        };
        lemma_rounds_after_step(before.active, exact, rounds, step)
    }
}

/// The number of requests under way is the number before, and those started
/// less those completed since, wherever that number is one that a count can
/// take.
pub proof fn active_count_is_exact(state: ActivityView, events: Seq<ActivityEvent>)
    requires
        state.in_range(),
        0 <= state.active + net_requests(events) <= usize::MAX,
    ensures
        after_events(state, events).active == state.active + net_requests(events),
{
    let rounds = lemma_active_up_to_rounds(state, events);
    lemma_no_rounds(
        after_events(state, events).active,
        state.active + net_requests(events),
        rounds,
    );
}

/// Where reaping is on, every start and every end moves the generation on by
/// one, and nothing changes the reaping delay.
proof fn lemma_generation_counts_events(state: ActivityView, events: Seq<ActivityEvent>)
    requires
        state.in_range(),
        state.reap_secs != 0,
    ensures
        after_events(state, events).generation == (state.generation + events.len()) % (
        GENERATIONS as int),
        after_events(state, events).reap_secs == state.reap_secs,
    decreases events.len(),
{
    if events.len() > 0 {
        lemma_generation_counts_events(state, events.drop_last());
        let before = after_events(state, events.drop_last());
        assert(after_events(state, events).generation == (before.generation + 1) % (
        GENERATIONS as int));
    }
}

/// Only the latest timer can reap: once another request has started or ended,
/// a timer set before that does nothing, whenever it ends. The generation
/// numbers repeat only after two to the power of 64 events.
pub proof fn stale_timer_never_reaps(
    state: ActivityView,
    timer: ReapTimer,
    events: Seq<ActivityEvent>,
    now: int,
)
    requires
        state.in_range(),
        state.reap_secs != 0,
        timer.generation == state.generation,
        0 < events.len() < GENERATIONS,
    ensures
        !after_events(state, events).reap_due(timer, now),
{
    lemma_generation_counts_events(state, events);
}

/// A timer set by the end of a request reaps, if nothing starts or ends before
/// it ends, exactly when its delay has passed since.
pub proof fn quiet_timer_reaps_on_time(
    state: ActivityView,
    finished_at: int,
    timer: ReapTimer,
    now: int,
)
    requires
        state.reap_secs != 0,
        timer.generation == state.finished(finished_at).generation,
        timer.delay_secs == state.reap_secs,
        finished_at <= now,
    ensures
        state.finished(finished_at).reap_due(timer, now) <==> now - finished_at
            >= state.reap_secs * NANOS_PER_SEC,
{
}

/// The generation never goes back: after fewer events than there are numbers
/// left, it is at least what it was, and has moved on by at most one for each.
pub proof fn generation_never_goes_back(state: ActivityView, events: Seq<ActivityEvent>)
    requires
        state.in_range(),
        state.generation + events.len() < GENERATIONS,
    ensures
        state.generation <= after_events(state, events).generation <= state.generation
            + events.len(),
        after_events(state, events).reap_secs == state.reap_secs,
    decreases events.len(),
{
    if events.len() > 0 {
        generation_never_goes_back(state, events.drop_last());
    }
}

/// The timer that the end of a request sets, where `state` is the state after
/// it.
pub open spec fn timer_set(state: ActivityView) -> ReapTimer {
    ReapTimer { generation: state.generation as u64, delay_secs: state.reap_secs as u64 }
}

/// A burst of requests is reaped after once. Let `events` end with the end of a
/// request, after which nothing starts or ends, and let less than the delay lie
/// between any end in it and the last. Each end sets a timer; `ended[k]` is when
/// the timer set by event `k` ends, which is not before its delay has passed.
/// Then every timer ends after the last of the events, so that it finds the
/// state they leave, and exactly the last timer reaps.
pub proof fn burst_is_reaped_after_once(
    state: ActivityView,
    events: Seq<ActivityEvent>,
    ended: Seq<int>,
    last: int,
)
    requires
        state.in_range(),
        state.reap_secs != 0,
        0 < events.len() < GENERATIONS,
        ended.len() == events.len(),
        events.last() == (ActivityEvent::Finish { now: last }),
        forall|k: int|
            0 <= k < events.len() ==> ((#[trigger] events[k]) matches ActivityEvent::Finish { now }
                ==> now <= last < now + state.reap_secs * NANOS_PER_SEC && now + state.reap_secs
                * NANOS_PER_SEC <= ended[k]),
    ensures
        forall|k: int|
            0 <= k < events.len() && (#[trigger] events[k]) is Finish ==> {
                &&& ended[k] > last
                &&& after_events(state, events).reap_due(
                    timer_set(after_events(state, events.take(k + 1))),
                    ended[k],
                ) <==> k == events.len() - 1
            },
        ended.last() >= last + state.reap_secs * NANOS_PER_SEC,
{
    let done = after_events(state, events);
    lemma_generation_counts_events(state, events);
    assert(events[events.len() - 1] == events.last());
    assert forall|k: int| 0 <= k < events.len() && (#[trigger] events[k]) is Finish implies {
        &&& ended[k] > last
        &&& done.reap_due(timer_set(after_events(state, events.take(k + 1))), ended[k]) <==> k
            == events.len() - 1
    } by {
        lemma_generation_counts_events(state, events.take(k + 1));
        let then = after_events(state, events.take(k + 1));
        assert(0 <= then.generation < GENERATIONS);
        assert(timer_set(then).generation == then.generation);
        assert(timer_set(then).delay_secs == state.reap_secs);
        if k == events.len() - 1 {
            assert(events.take(k + 1) =~= events);
            assert(done.last_completed == last);
        } else {
            lemma_generations_differ(state.generation, k + 1, events.len() as int);
        }
    }
}

/// Fewer steps than there are numbers do not lead back to a generation.
proof fn lemma_generations_differ(start: int, i: int, j: int)
    requires
        0 <= i < j < GENERATIONS,
    ensures
        (start + i) % (GENERATIONS as int) != (start + j) % (GENERATIONS as int),
{
}

/// The counters stay within their ranges.
pub proof fn events_keep_range(state: ActivityView, event: ActivityEvent)
    requires
        state.in_range(),
        event matches ActivityEvent::Finish { now } ==> 0 <= now,
    ensures
        after_events(state, seq![event]).in_range(),
{
    assert(seq![event].drop_last() =~= Seq::empty());
    assert(after_events(state, Seq::empty()) == state);
}

/// A request that starts adds one to the requests under way and moves the
/// generation on by one, and changes nothing else. Both go on from zero behind
/// their largest values.
pub proof fn start_counts_one_more(state: ActivityView)
    requires
        state.in_range(),
    ensures
        state.begun().active == (if state.active == usize::MAX {
            0
        } else {
            state.active + 1
        }),
        state.begun().generation == (if state.generation == u64::MAX {
            0
        } else {
            state.generation + 1
        }),
        state.begun().last_completed == state.last_completed,
        state.begun().reap_secs == state.reap_secs,
{
}

/// A request that is completed takes one from the requests under way and sets
/// the time of the last completion. It moves the generation on by one where
/// reaping is on, and leaves it where reaping is off.
pub proof fn completion_counts_one_less(state: ActivityView, now: int)
    requires
        state.in_range(),
    ensures
        state.finished(now).active == (if state.active == 0 {
            usize::MAX as int
        } else {
            state.active - 1
        }),
        state.finished(now).last_completed == now,
        state.finished(now).reap_secs == state.reap_secs,
        state.reap_secs == 0 ==> state.finished(now).generation == state.generation,
        state.reap_secs != 0 ==> state.finished(now).generation == state.begun().generation,
{
}

/// A timer reaps exactly when it was set in the present generation and its
/// delay, in seconds of a thousand million nanoseconds, has passed since the
/// last completion.
pub proof fn timer_reaps_after_its_delay(state: ActivityView, timer: ReapTimer, now: int)
    ensures
        timer.delay_secs > 0 ==> (state.reap_due(timer, now) <==> state.generation
            == timer.generation && state.last_completed + timer.delay_secs * 1_000_000_000 <= now),
        timer.delay_secs == 0 ==> (state.reap_due(timer, now) <==> state.generation
            == timer.generation),
{
}

/// The time elapsed is what is missing from the earlier to the later moment, and
/// none where the second is not later.
pub proof fn elapsed_time_adds_up(since: int, now: int)
    ensures
        now >= since ==> since + elapsed(since, now) == now,
        now <= since ==> elapsed(since, now) == 0,
{
}

} // verus!
