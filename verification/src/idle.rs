//! When the worker process exits: on request, or after a time without activity.
//!
//! Points in time are nanoseconds since a moment of the caller's choice.

use crate::activity;
use crate::activity::NANOS_PER_SEC;
use vstd::prelude::*;

verus! {

/// How long to sleep, in nanoseconds, where no idle time is set: a minute.
pub const DEFAULT_SLEEP: u128 = 60_000_000_000;

/// What the listeners tell the main loop of the worker.
#[derive(Debug, Clone, Copy, PartialEq, Eq, Structural)]
pub enum WorkerSignal {
    /// A request has come in.
    Activity,
    /// The worker is asked to exit.
    Shutdown,
}

/// Whether the main loop goes on.
#[derive(Debug, Clone, Copy, PartialEq, Eq, Structural)]
pub enum LoopStep {
    /// It does.
    Continue,
    /// It ends: the worker was asked to exit.
    ExitOnRequest,
    /// It ends: the worker has been idle for so many whole seconds.
    ExitIdle(u128),
}

/// The idle clock of the main loop.
pub struct IdleMonitor {
    idle_exit: Option<u128>,
    last_activity: u128,
}

/// The state of an `IdleMonitor`, in nanoseconds.
pub struct IdleView {
    /// The idle time after which the worker exits, if any.
    pub idle_exit: Option<int>,
    /// When the last activity was seen.
    pub last_activity: int,
}

/// `nanos`, or the largest number that a `u128` holds where `nanos` is larger.
pub open spec fn capped(nanos: int) -> int {
    if nanos > u128::MAX {
        u128::MAX as int
    } else {
        nanos
    }
}

impl IdleView {
    /// How long to sleep at `now`: until the idle time is over.
    pub open spec fn sleep_at(self, now: int) -> int {
        match self.idle_exit {
            Some(idle) => activity::elapsed(now, capped(self.last_activity + idle)),
            None => DEFAULT_SLEEP as int,
        }
    }

    /// After a signal at `now`.
    pub open spec fn after_signal(self, signal: WorkerSignal, now: int) -> IdleView {
        match signal {
            WorkerSignal::Activity => IdleView { last_activity: now, ..self },
            WorkerSignal::Shutdown => self,
        }
    }

    /// Whether the idle time is over at `now`.
    pub open spec fn expired_at(self, now: int) -> bool {
        match self.idle_exit {
            Some(idle) => activity::elapsed(self.last_activity, now) >= idle,
            None => false,
        }
    }
}

impl View for IdleMonitor {
    type V = IdleView;

    closed spec fn view(&self) -> IdleView {
        IdleView {
            idle_exit: match self.idle_exit {
                Some(idle) => Some(idle as int),
                None => None,
            },
            last_activity: self.last_activity as int,
        }
    }
}

impl IdleMonitor {
    /// A clock started at `now`. With zero seconds the worker never exits for
    /// want of activity.
    pub fn new(idle_exit_secs: u64, now: u128) -> (res: Self)
        ensures
            res@ == (IdleView {
                idle_exit: if idle_exit_secs == 0 {
                    None
                } else {
                    Some(idle_exit_secs * NANOS_PER_SEC)
                },
                last_activity: now as int,
            }),
            idle_exit_secs == 0 <==> res@.idle_exit is None,
            res@.idle_exit matches Some(idle) ==> idle == idle_exit_secs * 1_000_000_000,
    {
        let idle_exit = if idle_exit_secs == 0 {
            None
        } else {
            Some(idle_exit_secs as u128 * NANOS_PER_SEC)
        };
        IdleMonitor { idle_exit, last_activity: now }
    }

    /// How long to wait for a signal before looking at the clock again.
    pub fn sleep_for(&self, now: u128) -> (res: u128)
        ensures
            res == self@.sleep_at(now as int),
            self@.idle_exit is None ==> res == 60_000_000_000,
            self@.idle_exit matches Some(idle) ==> self@.last_activity + idle <= u128::MAX ==> if now
                <= self@.last_activity + idle {
                now + res == self@.last_activity + idle
            } else {
                res == 0
            },
    {
        match self.idle_exit {
            Some(idle) => self.last_activity.saturating_add(idle).saturating_sub(now),
            None => DEFAULT_SLEEP,
        }
    }

    /// A signal has come at `now`.
    pub fn on_signal(&mut self, signal: WorkerSignal, now: u128) -> (res: LoopStep)
        ensures
            final(self)@ == old(self)@.after_signal(signal, now as int),
            final(self)@.idle_exit == old(self)@.idle_exit,
            final(self)@.last_activity == (if signal == WorkerSignal::Activity {
                now as int
            } else {
                old(self)@.last_activity
            }),
            res == (match signal {
                WorkerSignal::Activity => LoopStep::Continue,
                WorkerSignal::Shutdown => LoopStep::ExitOnRequest,
            }),
    {
        match signal {
            WorkerSignal::Activity => {
                self.last_activity = now;
                LoopStep::Continue
            },
            WorkerSignal::Shutdown => LoopStep::ExitOnRequest,
        }
    }

    /// The sleep is over at `now`, without a signal.
    pub fn on_timer(&self, now: u128) -> (res: LoopStep)
        ensures
            if self@.expired_at(now as int) {
                res matches LoopStep::ExitIdle(secs) && secs == activity::elapsed(
                    self@.last_activity,
                    now as int,
                ) / (NANOS_PER_SEC as int)
            } else {
                res == LoopStep::Continue
            },
            res != LoopStep::ExitOnRequest,
            res is ExitIdle <==> (self@.idle_exit matches Some(idle) && (idle <= 0 || now
                - self@.last_activity >= idle)),
            res matches LoopStep::ExitIdle(secs) ==> now >= self@.last_activity ==> secs
                * 1_000_000_000 <= now - self@.last_activity < (secs + 1) * 1_000_000_000,
    {
        match self.idle_exit {
            Some(idle) => {
                let idle_for: u128 = now.saturating_sub(self.last_activity);
                if idle_for >= idle {
                    LoopStep::ExitIdle(idle_for / NANOS_PER_SEC)
                } else {
                    LoopStep::Continue
                }
            },
            None => LoopStep::Continue,
        }
    }
}

/// Something that wakes the main loop.
pub enum LoopEvent {
    /// A signal came in.
    Signal { signal: WorkerSignal, now: int },
    /// The sleep is over.
    Timer { now: int },
}

/// The clock after `events`, first to last.
pub open spec fn after_events(state: IdleView, events: Seq<LoopEvent>) -> IdleView
    decreases events.len(),
{
    if events.len() == 0 {
        state
    } else {
        let before = after_events(state, events.drop_last());
        match events.last() {
            LoopEvent::Signal { signal, now } => before.after_signal(signal, now),
            LoopEvent::Timer { now } => before,
        }
    }
}

/// Whether `event` ends the main loop.
pub open spec fn ends_loop(state: IdleView, event: LoopEvent) -> bool {
    match event {
        LoopEvent::Signal { signal, now } => signal == WorkerSignal::Shutdown,
        LoopEvent::Timer { now } => state.expired_at(now),
    }
}

/// Without an idle time only a request to exit ends the main loop.
pub proof fn without_idle_time_only_a_request_ends(
    state: IdleView,
    events: Seq<LoopEvent>,
    event: LoopEvent,
)
    requires
        state.idle_exit is None,
        ends_loop(after_events(state, events), event),
    ensures
        event matches LoopEvent::Signal { signal, .. } && signal == WorkerSignal::Shutdown,
{
    lemma_idle_time_is_kept(state, events);
}

proof fn lemma_idle_time_is_kept(state: IdleView, events: Seq<LoopEvent>)
    ensures
        after_events(state, events).idle_exit == state.idle_exit,
    decreases events.len(),
{
    if events.len() > 0 {
        lemma_idle_time_is_kept(state, events.drop_last());
    }
}

/// The worker does not exit for want of activity before the idle time has
/// passed since its last activity: after an activity at `seen` and any number
/// of timers, a timer ends the loop exactly when the idle time has passed.
pub proof fn activity_postpones_exit(
    state: IdleView,
    idle: int,
    seen: int,
    timers: Seq<LoopEvent>,
    now: int,
)
    requires
        state.idle_exit == Some(idle),
        idle > 0,
        forall|i: int| 0 <= i < timers.len() ==> (#[trigger] timers[i]) is Timer,
    ensures
        ends_loop(
            after_events(state.after_signal(WorkerSignal::Activity, seen), timers),
            LoopEvent::Timer { now },
        ) <==> now - seen >= idle,
{
    lemma_timers_change_nothing(state.after_signal(WorkerSignal::Activity, seen), timers);
}

proof fn lemma_timers_change_nothing(state: IdleView, timers: Seq<LoopEvent>)
    requires
        forall|i: int| 0 <= i < timers.len() ==> (#[trigger] timers[i]) is Timer,
    ensures
        after_events(state, timers) == state,
    decreases timers.len(),
{
    if timers.len() > 0 {
        let before = timers.drop_last();
        assert forall|i: int| 0 <= i < before.len() implies (#[trigger] before[i]) is Timer by {
            assert(before[i] == timers[i]);
        }
        lemma_timers_change_nothing(state, before);
        assert(timers.last() is Timer);
    }
}

/// Sleeping as long as the clock says is enough: if no signal comes meanwhile,
/// the timer ends the loop. Sleeping less than that is not.
pub proof fn sleep_reaches_the_deadline(state: IdleView, idle: int, now: int, woken: int)
    requires
        state.idle_exit == Some(idle),
        0 < idle,
        0 <= state.last_activity,
        state.last_activity + idle <= u128::MAX,
        state.last_activity <= now <= woken,
    ensures
        ends_loop(state, LoopEvent::Timer { now: woken }) <==> woken >= now + state.sleep_at(now),
{
}

/// A signal of activity restarts the clock at its time; a request to exit does
/// not. Neither changes the idle time.
pub proof fn activity_restarts_the_clock(state: IdleView, now: int)
    ensures
        state.after_signal(WorkerSignal::Activity, now).last_activity == now,
        state.after_signal(WorkerSignal::Activity, now).idle_exit == state.idle_exit,
        state.after_signal(WorkerSignal::Shutdown, now).last_activity == state.last_activity,
        state.after_signal(WorkerSignal::Shutdown, now).idle_exit == state.idle_exit,
{
}

/// The idle time is over exactly when it has passed since the last activity, and
/// never where none is set.
pub proof fn idle_time_runs_from_the_last_activity(state: IdleView, now: int)
    ensures
        state.idle_exit is None ==> !state.expired_at(now),
        state.idle_exit matches Some(idle) ==> idle > 0 ==> (state.expired_at(now)
            <==> state.last_activity + idle <= now),
{
}

/// The sleep lasts a minute where no idle time is set. Otherwise it lasts to the
/// moment at which the idle time is over, or to the last moment there is if that
/// comes first, and not at all if that moment has passed.
pub proof fn sleep_lasts_to_the_deadline(state: IdleView, now: int)
    ensures
        state.idle_exit is None ==> state.sleep_at(now) == 60_000_000_000,
        state.idle_exit matches Some(idle) ==> {
            let deadline = vstd::math::min(state.last_activity + idle, u128::MAX as int);
            state.sleep_at(now) == vstd::math::max(deadline - now, 0)
        },
{
}

} // verus!
