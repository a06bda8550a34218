//! The decisions of the tray's main loop: what to wait for, what each event
//! asks of the bus, and what state the tray shows afterwards.
//!
//! The loop itself, with its timers, D-Bus reads and clock, runs outside;
//! each turn it calls `begin`, `waits`, `react` and `conclude` in that order.

use vstd::prelude::*;

use crate::idle::{Span, idle_left, remaining};
use crate::state::State;

verus! {

/// What woke the loop.
#[derive(Clone, Copy, PartialEq, Eq, Structural, Debug)]
pub enum Event {
    /// The regular poll timer fired.
    Tick,
    /// The short re-check while a session is starting fired.
    StartingPoll,
    /// The idle timeout of a frozen session ran out.
    IdleDue,
    /// A menu action asked for a fresh look.
    Poked,
    /// The container manager's bus name gained or lost its owner.
    ContainerOwner { gained: bool },
    /// The session manager's bus name gained or lost its owner.
    SessionOwner { gained: bool },
}

/// Where the next state comes from.
#[derive(Clone, Copy, PartialEq, Eq, Structural, Debug)]
pub enum Next {
    /// The state stays as it was.
    Keep,
    /// The state is known without asking the container.
    Become(State),
    /// The state is read from the container, after a pause to let a menu
    /// action settle if `settle`. With `stuck_without_session`, a session the
    /// container still reports once the session manager is gone is Stuck.
    Read { settle: bool, stuck_without_session: bool },
}

/// What the loop does about an event.
#[derive(Clone, Copy, PartialEq, Eq, Structural, Debug)]
pub struct Step {
    pub next: Next,
    /// Run `waydroid session stop`.
    pub stop_session: bool,
}

/// What the loop waits for in one turn.
#[derive(Clone, Copy, PartialEq, Eq, Structural, Debug)]
pub struct Waits {
    /// Whether a tick of the poll timer reads the state (otherwise it only
    /// looks at the apps).
    pub poll_on_tick: bool,
    /// Whether to re-check soon because a session is on its way up.
    pub starting_poll: bool,
    /// How long until the idle stop, when it is armed and the session frozen.
    pub idle: Option<Span>,
}

/// What the loop remembers between turns.
pub struct Watch {
    state: State,
    session_up: bool,
    container_up: bool,
    frozen_since: Option<Span>,
    was_armed: bool,
    container_up_before: bool,
}

/// The loop's memory, with times in nanoseconds.
pub struct WatchView {
    pub state: State,
    pub session_up: bool,
    pub container_up: bool,
    pub frozen_since: Option<nat>,
    pub was_armed: bool,
    pub container_up_before: bool,
}

/// A span's length, if there is a span.
pub open spec fn opt_nanos(s: Option<Span>) -> Option<nat> {
    match s {
        Some(x) => Some(x@),
        None => None,
    }
}

/// Only a frozen session has a time it froze at.
pub open spec fn consistent(v: WatchView) -> bool {
    v.frozen_since is Some ==> v.state == State::Frozen
}

/// The start of a turn: arming the idle stop restarts the clock of a session
/// already frozen, so a session is never stopped sooner than the timeout
/// after the user asked for it.
pub open spec fn begun(v: WatchView, armed: bool, now: nat) -> WatchView {
    WatchView {
        frozen_since: if armed && !v.was_armed && v.frozen_since is Some {
            Some(now)
        } else {
            v.frozen_since
        },
        was_armed: armed,
        container_up_before: v.container_up,
        ..v
    }
}

/// Whether a tick reads the state: only while a session exists or one is
/// stuck, so a stopped session's container is never asked.
pub open spec fn polls(v: WatchView) -> bool {
    v.session_up || v.state == State::Stuck
}

/// How long until the idle stop: only armed, and only for a frozen session.
pub open spec fn idle_wait(v: WatchView, armed: bool, now: nat, timeout: nat) -> Option<nat> {
    if armed {
        match v.frozen_since {
            Some(since) => Some(remaining(since, now, timeout)),
            None => None,
        }
    } else {
        None
    }
}

/// What an event does to the loop's memory, and what the loop does about it.
pub open spec fn reacted(v: WatchView, event: Event) -> (WatchView, Step) {
    match event {
        Event::Tick => (v, Step {
            next: if polls(v) {
                Next::Read { settle: false, stuck_without_session: false }
            } else {
                Next::Keep
            },
            stop_session: false,
        }),
        Event::StartingPoll => (v, Step {
            next: Next::Read { settle: false, stuck_without_session: false },
            stop_session: false,
        }),
        Event::IdleDue => (WatchView { frozen_since: None, ..v }, Step {
            next: Next::Keep,
            stop_session: true,
        }),
        Event::Poked => (v, Step {
            next: Next::Read { settle: true, stuck_without_session: false },
            stop_session: false,
        }),
        Event::ContainerOwner { gained } => (WatchView { container_up: gained, ..v }, Step {
            next: if gained {
                Next::Read { settle: false, stuck_without_session: false }
            } else {
                Next::Become(State::Stopped)
            },
            stop_session: false,
        }),
        Event::SessionOwner { gained } => (WatchView { session_up: gained, ..v }, Step {
            next: Next::Read { settle: false, stuck_without_session: true },
            stop_session: false,
        }),
    }
}

/// The state a turn ends in, before the session manager is taken into account.
pub open spec fn next_state(v: WatchView, next: Next, read: State) -> State {
    match next {
        Next::Keep => v.state,
        Next::Become(s) => s,
        Next::Read { settle, stuck_without_session } => if stuck_without_session && !v.session_up
            && read != State::Stopped {
            State::Stuck
        } else {
            read
        },
    }
}

/// The end of a turn: the new state, with the session manager taken into
/// account, and the time the session froze, kept while it stays frozen and
/// started now when it has just frozen.
pub open spec fn concluded(v: WatchView, next: Next, read: State, now: nat) -> WatchView {
    let s = next_state(v, next, read).spec_with_session(v.session_up);
    WatchView {
        state: s,
        frozen_since: if s == State::Frozen {
            match v.frozen_since {
                Some(t) => Some(t),
                None => Some(now),
            }
        } else {
            None
        },
        ..v
    }
}

/// Whether the tray needs an update after the turn.
pub open spec fn changed(before: WatchView, after: WatchView) -> bool {
    after.state != before.state || after.container_up != after.container_up_before
}

impl View for Watch {
    type V = WatchView;

    closed spec fn view(&self) -> WatchView {
        WatchView {
            state: self.state,
            session_up: self.session_up,
            container_up: self.container_up,
            frozen_since: opt_nanos(self.frozen_since),
            was_armed: self.was_armed,
            container_up_before: self.container_up_before,
        }
    }
}

impl Watch {
    #[verifier::type_invariant]
    spec fn frozen_only_when_frozen(self) -> bool {
        self.frozen_since is Some ==> self.state == State::Frozen
    }

    /// The loop's memory at start-up: the state read from the container,
    /// taken with the session manager, and the idle stop not yet armed.
    pub fn new(read: State, session_up: bool, container_up: bool) -> (w: Watch)
        ensures
            w@ == (WatchView {
                state: read.spec_with_session(session_up),
                session_up,
                container_up,
                frozen_since: None,
                was_armed: false,
                container_up_before: container_up,
            }),
    {
        Watch {
            state: read.with_session(session_up),
            session_up,
            container_up,
            frozen_since: None,
            was_armed: false,
            container_up_before: container_up,
        }
    }

    /// The state the tray shows.
    pub fn state(&self) -> (s: State)
        ensures
            s == self@.state,
    {
        self.state
    }

    /// Whether the container service is up.
    pub fn container_up(&self) -> (b: bool)
        ensures
            b == self@.container_up,
    {
        self.container_up
    }

    /// Whether the session manager is up.
    pub fn session_up(&self) -> (b: bool)
        ensures
            b == self@.session_up,
    {
        self.session_up
    }

    /// Starts a turn, with the idle stop `armed` or not at time `now`.
    pub fn begin(&mut self, armed: bool, now: Span)
        ensures
            final(self)@ == begun(old(self)@, armed, now@),
            consistent(final(self)@),
    {
        proof {
            use_type_invariant(&*self);
        }
        let frozen_since = if armed && !self.was_armed {
            match self.frozen_since {
                Some(_) => Some(now),
                None => None,
            }
        } else {
            self.frozen_since
        };
        *self = Watch {
            state: self.state,
            session_up: self.session_up,
            container_up: self.container_up,
            frozen_since,
            was_armed: armed,
            container_up_before: self.container_up,
        };
    }

    /// What the loop waits for this turn, with the idle stop `armed` or not,
    /// at time `now`, with an idle timeout of `timeout`.
    pub fn waits(&self, armed: bool, now: Span, timeout: Span) -> (w: Waits)
        ensures
            w.poll_on_tick == polls(self@),
            w.starting_poll == (self@.state == State::Starting),
            opt_nanos(w.idle) == idle_wait(self@, armed, now@, timeout@),
            w.idle is Some ==> armed && self@.state == State::Frozen,
    {
        proof {
            use_type_invariant(self);
        }
        Waits {
            poll_on_tick: self.session_up || self.state == State::Stuck,
            starting_poll: self.state == State::Starting,
            idle: if armed {
                idle_left(self.frozen_since, now, timeout)
            } else {
                None
            },
        }
    }

    /// Takes in an event: updates what the loop knows and says what to do.
    pub fn react(&mut self, event: Event) -> (step: Step)
        ensures
            (final(self)@, step) == reacted(old(self)@, event),
            consistent(final(self)@),
            event == Event::Tick && (old(self)@.session_up || old(self)@.state == State::Stuck)
                ==> step.next == (Next::Read { settle: false, stuck_without_session: false }),
            final(self)@.state == old(self)@.state,
    {
        proof {
            use_type_invariant(&*self);
        }
        let read = Next::Read { settle: false, stuck_without_session: false };
        match event {
            Event::Tick => {
                let next = if self.session_up || self.state == State::Stuck {
                    read
                } else {
                    Next::Keep
                };
                Step { next, stop_session: false }
            },
            Event::StartingPoll => Step { next: read, stop_session: false },
            Event::IdleDue => {
                self.frozen_since = None;
                Step { next: Next::Keep, stop_session: true }
            },
            Event::Poked => Step {
                next: Next::Read { settle: true, stuck_without_session: false },
                stop_session: false,
            },
            Event::ContainerOwner { gained } => {
                self.container_up = gained;
                let next = if gained {
                    read
                } else {
                    Next::Become(State::Stopped)
                };
                Step { next, stop_session: false }
            },
            Event::SessionOwner { gained } => {
                self.session_up = gained;
                Step {
                    next: Next::Read { settle: false, stuck_without_session: true },
                    stop_session: false,
                }
            },
        }
    }

    /// Ends a turn: `read` is the state read from the container when `next`
    /// asked for a read (and is not looked at otherwise); `now` is the time.
    /// Says whether the state or the container service changed this turn.
    pub fn conclude(&mut self, next: Next, read: State, now: Span) -> (c: bool)
        ensures
            final(self)@ == concluded(old(self)@, next, read, now@),
            c == changed(old(self)@, final(self)@),
            consistent(final(self)@),
            old(self)@.frozen_since is Some && final(self)@.state == State::Frozen
                ==> final(self)@.frozen_since == old(self)@.frozen_since,
    {
        let base = match next {
            Next::Keep => self.state,
            Next::Become(s) => s,
            Next::Read { settle: _, stuck_without_session } => if stuck_without_session
                && !self.session_up && read != State::Stopped {
                State::Stuck
            } else {
                read
            },
        };
        let s = base.with_session(self.session_up);
        let frozen_since = if s == State::Frozen {
            match self.frozen_since {
                Some(t) => Some(t),
                None => Some(now),
            }
        } else {
            None
        };
        let c = s != self.state || self.container_up != self.container_up_before;
        *self = Watch {
            state: s,
            session_up: self.session_up,
            container_up: self.container_up,
            frozen_since,
            was_armed: self.was_armed,
            container_up_before: self.container_up_before,
        };
        c
    }
}

/// Every turn keeps the loop's memory consistent: only a frozen session
/// carries the time it froze.
pub proof fn lemma_turn_consistent(
    v: WatchView,
    armed: bool,
    start: nat,
    event: Event,
    read: State,
    end: nat,
)
    requires
        consistent(v),
    ensures
        consistent(begun(v, armed, start)),
        consistent(reacted(begun(v, armed, start), event).0),
        consistent(
            concluded(
                reacted(begun(v, armed, start), event).0,
                reacted(begun(v, armed, start), event).1.next,
                read,
                end,
            ),
        ),
{
}

/// A running, starting, stopped or stuck session is never idle-stopped: the
/// idle wait exists only while armed and frozen.
pub proof fn lemma_idle_only_when_frozen(v: WatchView, armed: bool, now: nat, timeout: nat)
    requires
        consistent(v),
    ensures
        idle_wait(v, armed, now, timeout) is Some ==> armed && v.state == State::Frozen,
{
}

/// Arming the idle stop restarts the clock: a session already frozen gets
/// the whole timeout from the moment it was armed.
pub proof fn lemma_arming_restarts(v: WatchView, now: nat, timeout: nat)
    requires
        !v.was_armed,
        v.frozen_since is Some,
    ensures
        idle_wait(begun(v, true, now), true, now, timeout) == Some(timeout),
{
}

/// The idle stop runs `session stop` and forgets when the session froze, so
/// a session still frozen after it waits out the whole timeout again.
pub proof fn lemma_idle_stop_rearms(v: WatchView, now: nat, timeout: nat)
    requires
        v.state == State::Frozen,
    ensures
        reacted(v, Event::IdleDue).1.stop_session,
        ({
            let after = concluded(reacted(v, Event::IdleDue).0, Next::Keep, v.state, now);
            after.frozen_since == Some(now) && idle_wait(after, true, now, timeout) == Some(timeout)
        }),
{
}

/// A tick leaves a stopped session alone: nothing is read from the
/// container, and the state stays Stopped.
pub proof fn lemma_no_reads_while_stopped(v: WatchView, read: State, now: nat)
    requires
        v.state == State::Stopped,
        !v.session_up,
    ensures
        reacted(v, Event::Tick).1.next == Next::Keep,
        concluded(v, Next::Keep, read, now).state == State::Stopped,
{
}

/// When the session manager goes away but the container still reports a
/// session (a stop that failed partway), the tray shows it Stuck.
pub proof fn lemma_failed_stop_is_stuck(v: WatchView, read: State, now: nat)
    requires
        read != State::Stopped,
    ensures
        ({
            let (w, step) = reacted(v, Event::SessionOwner { gained: false });
            concluded(w, step.next, read, now).state == State::Stuck
        }),
{
}

/// When the container manager goes away, the session is Stopped at once,
/// without asking the container.
pub proof fn lemma_container_gone_is_stopped(v: WatchView, read: State, now: nat)
    requires
        !v.session_up,
    ensures
        ({
            let (w, step) = reacted(v, Event::ContainerOwner { gained: false });
            step.next == Next::Become(State::Stopped) && concluded(w, step.next, read, now).state
                == State::Stopped && !w.container_up
        }),
{
}

/// A tick reads the container whenever a session exists or one is stuck,
/// and only then; it changes nothing the loop remembers and stops nothing.
pub proof fn lemma_tick_reads_while_a_session_exists(v: WatchView)
    ensures
        reacted(v, Event::Tick).0 == v,
        !reacted(v, Event::Tick).1.stop_session,
        v.session_up ==> reacted(v, Event::Tick).1.next == (Next::Read {
            settle: false,
            stuck_without_session: false,
        }),
        v.state == State::Stuck ==> reacted(v, Event::Tick).1.next == (Next::Read {
            settle: false,
            stuck_without_session: false,
        }),
        !v.session_up && v.state != State::Stuck ==> reacted(v, Event::Tick).1.next == Next::Keep,
{
}

/// What a plain read decides: the state the container reports, except that a
/// container with no session while the session manager is up is Starting.
pub proof fn lemma_read_decides(v: WatchView, read: State, now: nat)
    ensures
        ({
            let after = concluded(
                v,
                Next::Read { settle: false, stuck_without_session: false },
                read,
                now,
            );
            &&& read != State::Stopped ==> after.state == read
            &&& read == State::Stopped && v.session_up ==> after.state == State::Starting
            &&& read == State::Stopped && !v.session_up ==> after.state == State::Stopped
        }),
{
}

/// A session that stays frozen keeps the time it froze at; one that has just
/// frozen starts its clock now; one that is not frozen has no such time.
pub proof fn lemma_frozen_keeps_its_time(v: WatchView, next: Next, read: State, now: nat)
    ensures
        ({
            let after = concluded(v, next, read, now);
            &&& after.state == State::Frozen && v.frozen_since is Some ==> after.frozen_since
                == v.frozen_since
            &&& after.state == State::Frozen && v.frozen_since is None ==> after.frozen_since
                == Some(now)
            &&& after.state != State::Frozen ==> after.frozen_since is None
        }),
{
}

/// The idle wait counts down across polls: while the idle stop stays armed
/// and the session stays frozen, a turn that polls and reads Frozen keeps the
/// freeze time, so later the wait is what is left of the timeout, and zero
/// once the session has been frozen for the whole timeout.
pub proof fn lemma_idle_counts_down(v: WatchView, now: nat, later: nat, timeout: nat, t: nat)
    requires
        v.was_armed,
        v.session_up,
        v.state == State::Frozen,
        v.frozen_since == Some(t),
    ensures
        ({
            let (w, step) = reacted(begun(v, true, now), Event::Tick);
            let after = concluded(w, step.next, State::Frozen, now);
            &&& after.state == State::Frozen
            &&& after.frozen_since == Some(t)
            &&& t <= later <= t + timeout ==> idle_wait(begun(after, true, later), true, later, timeout)
                == Some((t + timeout - later) as nat)
            &&& later >= t + timeout ==> idle_wait(begun(after, true, later), true, later, timeout)
                == Some(0nat)
        }),
{
}

/// What each other event asks for: a starting poll reads at once; a poke
/// reads after letting the action settle; the idle stop runs `session stop`,
/// forgets the freeze time and keeps the state; the container manager
/// appearing is read, its leaving is Stopped without a read; the session
/// manager coming or going is read, a session still reported once it is gone
/// being Stuck. Only the idle stop stops the session, and no event changes
/// the state by itself.
pub proof fn lemma_react_events(v: WatchView, event: Event)
    ensures
        reacted(v, event).0.state == v.state,
        reacted(v, event).1.stop_session <==> event == Event::IdleDue,
        event == Event::StartingPoll ==> reacted(v, event).1.next == (Next::Read {
            settle: false,
            stuck_without_session: false,
        }) && reacted(v, event).0 == v,
        event == Event::Poked ==> reacted(v, event).1.next == (Next::Read {
            settle: true,
            stuck_without_session: false,
        }) && reacted(v, event).0 == v,
        event == Event::IdleDue ==> reacted(v, event).1.next == Next::Keep
            && reacted(v, event).0.frozen_since is None,
        event == (Event::ContainerOwner { gained: true }) ==> reacted(v, event).0.container_up
            && reacted(v, event).1.next == (Next::Read {
            settle: false,
            stuck_without_session: false,
        }),
        event == (Event::ContainerOwner { gained: false }) ==> !reacted(v, event).0.container_up
            && reacted(v, event).1.next == Next::Become(State::Stopped),
        event == (Event::SessionOwner { gained: true }) ==> reacted(v, event).0.session_up
            && reacted(v, event).1.next == (Next::Read {
            settle: false,
            stuck_without_session: true,
        }),
        event == (Event::SessionOwner { gained: false }) ==> !reacted(v, event).0.session_up
            && reacted(v, event).1.next == (Next::Read {
            settle: false,
            stuck_without_session: true,
        }),
{
}

/// The start of a turn restarts the freeze clock exactly when the idle stop
/// has just been armed and the session is frozen, and otherwise leaves it.
pub proof fn lemma_begin_restarts_only_on_arming(v: WatchView, armed: bool, now: nat)
    ensures
        begun(v, armed, now).was_armed == armed,
        begun(v, armed, now).state == v.state,
        begun(v, armed, now).session_up == v.session_up,
        begun(v, armed, now).container_up == v.container_up,
        armed && !v.was_armed && v.frozen_since is Some ==> begun(v, armed, now).frozen_since
            == Some(now),
        !(armed && !v.was_armed) ==> begun(v, armed, now).frozen_since == v.frozen_since,
        v.frozen_since is None ==> begun(v, armed, now).frozen_since is None,
{
}

/// The idle wait exists exactly while the stop is armed and the session has a
/// freeze time, and is never longer than the timeout.
pub proof fn lemma_idle_wait_bounds(v: WatchView, armed: bool, now: nat, timeout: nat)
    ensures
        idle_wait(v, armed, now, timeout) is Some <==> armed && v.frozen_since is Some,
        idle_wait(v, armed, now, timeout) matches Some(w) ==> w <= timeout,
{
}

/// The tray needs an update exactly when the state or the container service
/// changed during the turn.
pub proof fn lemma_changed_means_different(v: WatchView, armed: bool, start: nat, event: Event, read: State, end: nat)
    ensures
        ({
            let b = begun(v, armed, start);
            let (w, step) = reacted(b, event);
            let after = concluded(w, step.next, read, end);
            changed(w, after) <==> (after.state != v.state || after.container_up != v.container_up)
        }),
{
}

} // verus!
