//! When a reconciliation pass runs: the scheduler merges a fixed-period
//! timer with change notifications, collapses bursts of notifications into
//! one pass through a settle window, and never lets two passes overlap —
//! triggers that fire while a pass is running are coalesced into exactly
//! one follow-up pass.
//!
//! The scheduler is a pure state machine: a driver feeds it events (timer
//! ticks, notifications with their arrival time, settle-window expiries,
//! pass completions) and performs the actions it returns. Time is carried
//! in the events, in milliseconds, so the machine itself never reads a
//! clock.

use vstd::prelude::*;

verus! {

/// Whether a reconciliation pass is in progress.
#[derive(Clone, Copy, PartialEq, Eq, Structural, Debug)]
pub enum Phase {
    Idle,
    Running,
}

/// What the scheduler asks its driver to do after one event.
#[derive(Clone, Copy, PartialEq, Eq, Structural, Debug)]
pub enum Action {
    /// Keep waiting for the next event (and for the settle deadline, when
    /// one is set).
    Wait,
    /// Start exactly one reconciliation pass now.
    StartPass,
}

/// An event handed to the scheduler by its driver.
#[derive(Clone, Copy, PartialEq, Eq, Structural, Debug)]
pub enum Event {
    /// The fixed-period timer fired.
    TimerTick,
    /// A change notification arrived at time `now`.
    Notification { now: u64 },
    /// The settle window elapsed at time `now` with no further
    /// notification having restarted it.
    SettleElapsed { now: u64 },
    /// The pass that was running has finished.
    PassCompleted,
}

/// The time an event carries, where it carries one.
pub open spec fn event_time(e: Event) -> u64 {
    match e {
        Event::Notification { now } => now,
        Event::SettleElapsed { now } => now,
        Event::TimerTick => 0,
        Event::PassCompleted => 0,
    }
}

/// The debouncing scheduler's whole state.
#[derive(Clone, Copy, Debug)]
pub struct Scheduler {
    /// Whether a pass is running.
    pub phase: Phase,
    /// Whether a trigger fired while the pass was running; at most one
    /// follow-up pass is ever queued.
    pub pending: bool,
    /// The time at which the open settle window closes, if one is open.
    pub settle_deadline: Option<u64>,
    /// The length of the settle window.
    pub settle_ms: u64,
}

/// The scheduler's invariant: a follow-up pass is queued only while a pass
/// is running.
pub open spec fn scheduler_wf(s: Scheduler) -> bool {
    s.phase is Idle ==> !s.pending
}

/// When an event may be handed to the scheduler: notifications must not
/// overflow the clock, a settle expiry only reports an open window whose
/// deadline has passed, and only a running pass completes.
pub open spec fn event_ok(s: Scheduler, e: Event) -> bool {
    match e {
        Event::TimerTick => true,
        Event::Notification { now } => now + s.settle_ms <= u64::MAX,
        Event::SettleElapsed { now } => s.settle_deadline matches Some(d) && now >= d,
        Event::PassCompleted => s.phase is Running,
    }
}

/// The transition function. A timer tick triggers a pass at once; a
/// notification only (re)starts the settle window; a settled window
/// triggers one pass; any trigger that finds a pass running is recorded in
/// `pending` instead. Starting a pass closes the settle window: the pass
/// covers every notification seen so far.
pub open spec fn scheduler_step(s: Scheduler, e: Event) -> (Scheduler, Action) {
    match e {
        Event::TimerTick => {
            if s.phase is Idle {
                (
                    Scheduler { phase: Phase::Running, settle_deadline: None, ..s },
                    Action::StartPass,
                )
            } else {
                (Scheduler { pending: true, ..s }, Action::Wait)
            }
        },
        Event::Notification { now } => (
            Scheduler { settle_deadline: Some((now + s.settle_ms) as u64), ..s },
            Action::Wait,
        ),
        Event::SettleElapsed { .. } => {
            if s.phase is Idle {
                (
                    Scheduler { phase: Phase::Running, settle_deadline: None, ..s },
                    Action::StartPass,
                )
            } else {
                (Scheduler { pending: true, settle_deadline: None, ..s }, Action::Wait)
            }
        },
        Event::PassCompleted => {
            if s.pending {
                (
                    Scheduler { pending: false, settle_deadline: None, ..s },
                    Action::StartPass,
                )
            } else {
                (Scheduler { phase: Phase::Idle, ..s }, Action::Wait)
            }
        },
    }
}

impl Scheduler {
    /// A fresh scheduler: idle, nothing pending, no settle window open.
    pub fn new(settle_ms: u64) -> (s: Scheduler)
        ensures
            s.phase is Idle,
            !s.pending,
            s.settle_deadline is None,
            s.settle_ms == settle_ms,
            scheduler_wf(s),
    {
        Scheduler { phase: Phase::Idle, pending: false, settle_deadline: None, settle_ms }
    }

    /// Take one event and return the action the driver must perform; the
    /// new state and the action are exactly those of the transition
    /// function.
    pub fn step(&mut self, event: Event) -> (a: Action)
        requires
            scheduler_wf(*old(self)),
            event_ok(*old(self), event),
        ensures
            *final(self) == scheduler_step(*old(self), event).0,
            a == scheduler_step(*old(self), event).1,
            scheduler_wf(*final(self)),
    {
        match event {
            Event::TimerTick => {
                match self.phase {
                    Phase::Idle => {
                        self.phase = Phase::Running;
                        self.settle_deadline = None;
                        Action::StartPass
                    },
                    Phase::Running => {
                        self.pending = true;
                        Action::Wait
                    },
                }
            },
            Event::Notification { now } => {
                self.settle_deadline = Some(now + self.settle_ms);
                Action::Wait
            },
            Event::SettleElapsed { .. } => {
                match self.phase {
                    Phase::Idle => {
                        self.phase = Phase::Running;
                        self.settle_deadline = None;
                        Action::StartPass
                    },
                    Phase::Running => {
                        self.pending = true;
                        self.settle_deadline = None;
                        Action::Wait
                    },
                }
            },
            Event::PassCompleted => {
                if self.pending {
                    self.pending = false;
                    self.settle_deadline = None;
                    Action::StartPass
                } else {
                    self.phase = Phase::Idle;
                    Action::Wait
                }
            },
        }
    }
}

/// The state after a run of events.
pub open spec fn state_after(s: Scheduler, evs: Seq<Event>) -> Scheduler
    decreases evs.len(),
{
    if evs.len() == 0 {
        s
    } else {
        state_after(scheduler_step(s, evs[0]).0, evs.drop_first())
    }
}

/// How many passes a run of events starts.
pub open spec fn passes_started(s: Scheduler, evs: Seq<Event>) -> nat
    decreases evs.len(),
{
    if evs.len() == 0 {
        0
    } else {
        (if scheduler_step(s, evs[0]).1 is StartPass {
            1nat
        } else {
            0nat
        }) + passes_started(scheduler_step(s, evs[0]).0, evs.drop_first())
    }
}

/// Whether each event of a run may be handed over in the state it finds.
pub open spec fn events_ok(s: Scheduler, evs: Seq<Event>) -> bool
    decreases evs.len(),
{
    evs.len() == 0 || (event_ok(s, evs[0]) && events_ok(
        scheduler_step(s, evs[0]).0,
        evs.drop_first(),
    ))
}

/// Counting started passes distributes over splitting a run of events.
proof fn lemma_passes_started_concat(s: Scheduler, a: Seq<Event>, b: Seq<Event>)
    ensures
        state_after(s, a + b) == state_after(state_after(s, a), b),
        passes_started(s, a + b) == passes_started(s, a) + passes_started(state_after(s, a), b),
    decreases a.len(),
{
    if a.len() == 0 {
        assert(a + b =~= b);
    } else {
        assert((a + b)[0] == a[0]);
        assert((a + b).drop_first() =~= a.drop_first() + b);
        lemma_passes_started_concat(scheduler_step(s, a[0]).0, a.drop_first(), b);
    }
}

/// Notifications alone never start a pass: they only keep the settle
/// window open, and the last one fixes its deadline.
proof fn lemma_notifications_quiet(s0: Scheduler, notifs: Seq<Event>)
    requires
        events_ok(s0, notifs),
        forall|i: int| 0 <= i < notifs.len() ==> notifs[i] is Notification,
    ensures
        passes_started(s0, notifs) == 0,
        state_after(s0, notifs).phase == s0.phase,
        state_after(s0, notifs).pending == s0.pending,
        state_after(s0, notifs).settle_ms == s0.settle_ms,
        notifs.len() == 0 ==> state_after(s0, notifs) == s0,
        notifs.len() > 0 ==> event_time(notifs.last()) + s0.settle_ms <= u64::MAX,
        notifs.len() > 0 ==> state_after(s0, notifs).settle_deadline == Some(
            (event_time(notifs.last()) + s0.settle_ms) as u64,
        ),
    decreases notifs.len(),
{
    if notifs.len() > 0 {
        let s1 = scheduler_step(s0, notifs[0]).0;
        lemma_notifications_quiet(s1, notifs.drop_first());
        if notifs.len() > 1 {
            assert(notifs.drop_first().last() == notifs.last());
        }
    }
}

/// Debounce coalescing: a burst of notifications starts no pass by
/// itself; the settle window stands at the last notification's time plus
/// the settle interval; and when that window elapses, exactly one pass
/// starts — however many notifications arrived.
pub proof fn lemma_debounce_coalescing(s0: Scheduler, notifs: Seq<Event>, now: u64)
    requires
        scheduler_wf(s0),
        s0.phase is Idle,
        notifs.len() > 0,
        forall|i: int| 0 <= i < notifs.len() ==> notifs[i] is Notification,
        events_ok(s0, notifs),
        event_ok(state_after(s0, notifs), Event::SettleElapsed { now }),
    ensures
        passes_started(s0, notifs) == 0,
        state_after(s0, notifs).settle_deadline == Some(
            (event_time(notifs.last()) + s0.settle_ms) as u64,
        ),
        now >= event_time(notifs.last()) + s0.settle_ms,
        passes_started(s0, notifs.push(Event::SettleElapsed { now })) == 1,
{
    lemma_notifications_quiet(s0, notifs);
    let s1 = state_after(s0, notifs);
    let ev = Event::SettleElapsed { now };
    assert(notifs.push(ev) =~= notifs + seq![ev]);
    lemma_passes_started_concat(s0, notifs, seq![ev]);
    assert(seq![ev].len() == 1 && seq![ev][0] == ev);
    assert(seq![ev].drop_first() =~= Seq::<Event>::empty());
    assert(s1.phase is Idle);
    assert(scheduler_step(s1, ev).1 is StartPass);
    assert(passes_started(scheduler_step(s1, ev).0, seq![ev].drop_first()) == 0);
    assert(passes_started(s1, seq![ev]) == 1);
}

/// Never two passes at once: while a pass runs, no event but its own
/// completion starts another; and a pass only ever starts with the
/// scheduler in its running phase.
pub proof fn lemma_no_overlapping_passes(s: Scheduler, e: Event)
    requires
        scheduler_wf(s),
        event_ok(s, e),
    ensures
        s.phase is Running && !(e is PassCompleted) ==> scheduler_step(s, e).1 is Wait,
        scheduler_step(s, e).1 is StartPass ==> scheduler_step(s, e).0.phase is Running,
{
}

/// No dropped pending trigger: triggers that fire while a pass is running
/// start nothing at once, however many there are; when the pass
/// completes, exactly one follow-up pass starts; and when that follow-up
/// completes with nothing further, the scheduler is idle with nothing
/// queued.
pub proof fn lemma_pending_trigger_coalesced(s0: Scheduler, triggers: Seq<Event>)
    requires
        s0.phase is Running,
        triggers.len() > 0,
        forall|i: int|
            0 <= i < triggers.len() ==> (triggers[i] is TimerTick || triggers[i] is SettleElapsed),
        events_ok(s0, triggers),
    ensures
        passes_started(s0, triggers) == 0,
        state_after(s0, triggers).phase is Running,
        state_after(s0, triggers).pending,
        scheduler_step(state_after(s0, triggers), Event::PassCompleted).1 is StartPass,
        ({
            let s1 = scheduler_step(state_after(s0, triggers), Event::PassCompleted).0;
            &&& s1.phase is Running
            &&& !s1.pending
            &&& scheduler_step(s1, Event::PassCompleted).1 is Wait
            &&& scheduler_step(s1, Event::PassCompleted).0.phase is Idle
        }),
    decreases triggers.len(),
{
    let e0 = triggers[0];
    assert(e0 is TimerTick || e0 is SettleElapsed);
    let s1 = scheduler_step(s0, e0).0;
    assert(scheduler_step(s0, e0).1 is Wait);
    assert(s1.phase is Running && s1.pending);
    if triggers.len() == 1 {
        assert(triggers.drop_first().len() == 0);
        assert(state_after(s1, triggers.drop_first()) == s1);
        assert(passes_started(s1, triggers.drop_first()) == 0);
    } else {
        assert(forall|i: int|
            0 <= i < triggers.drop_first().len() ==> triggers.drop_first()[i] == triggers[i + 1]);
        lemma_pending_trigger_coalesced(s1, triggers.drop_first());
    }
}

} // verus!
