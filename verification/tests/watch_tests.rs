use waydroid_tray::idle::Span;
use waydroid_tray::state::State;
use waydroid_tray::watch::{Event, Next, Watch};

fn secs(n: u64) -> Span {
    Span::from_secs(n)
}

fn timeout() -> Span {
    secs(60)
}

/// One turn of the loop, with the container reporting `read` if asked.
fn turn(w: &mut Watch, armed: bool, now: u64, event: Event, read: State) -> (bool, bool) {
    w.begin(armed, secs(now));
    let step = w.react(event);
    let changed = w.conclude(step.next, read, secs(now));
    (step.stop_session, changed)
}

#[test]
fn no_get_session_calls_while_stopped() {
    let mut w = Watch::new(State::Stopped, false, true);
    w.begin(false, secs(0));
    let waits = w.waits(false, secs(0), timeout());
    assert!(!waits.poll_on_tick);
    assert_eq!(w.react(Event::Tick).next, Next::Keep);
}

#[test]
fn session_start_is_seen_as_starting_then_read() {
    let mut w = Watch::new(State::Stopped, false, true);
    let (_, changed) = turn(&mut w, false, 0, Event::SessionOwner { gained: true }, State::Stopped);
    assert!(changed);
    assert_eq!(w.state(), State::Starting);
    assert!(w.waits(false, secs(0), timeout()).starting_poll);
    let (_, changed) = turn(&mut w, false, 1, Event::StartingPoll, State::Running);
    assert!(changed);
    assert_eq!(w.state(), State::Running);
}

#[test]
fn session_stop_is_immediate() {
    let mut w = Watch::new(State::Running, true, true);
    turn(&mut w, false, 0, Event::SessionOwner { gained: false }, State::Stopped);
    assert_eq!(w.state(), State::Stopped);
}

#[test]
fn failed_stop_leaves_it_stuck() {
    let mut w = Watch::new(State::Running, true, true);
    turn(&mut w, false, 0, Event::SessionOwner { gained: false }, State::from_session(Some("STOPPED")));
    assert_eq!(w.state(), State::Stuck);
    w.begin(false, secs(1));
    assert!(w.waits(false, secs(1), timeout()).poll_on_tick);
}

#[test]
fn container_loss_stops_without_a_read() {
    let mut w = Watch::new(State::Running, false, true);
    w.begin(false, secs(0));
    let step = w.react(Event::ContainerOwner { gained: false });
    assert_eq!(step.next, Next::Become(State::Stopped));
    assert!(w.conclude(step.next, State::Running, secs(0)));
    assert_eq!(w.state(), State::Stopped);
    assert!(!w.container_up());
}

#[test]
fn frozen_session_stops_once_idle() {
    let mut w = Watch::new(State::Frozen, true, true);
    turn(&mut w, true, 0, Event::Tick, State::Frozen);
    w.begin(true, secs(10));
    assert_eq!(w.waits(true, secs(10), timeout()).idle, Some(secs(50)));
    let step = w.react(Event::IdleDue);
    assert!(step.stop_session);
}

#[test]
fn running_session_is_never_idle_stopped() {
    let mut w = Watch::new(State::Running, true, true);
    turn(&mut w, true, 0, Event::Tick, State::Running);
    w.begin(true, secs(1000));
    assert_eq!(w.waits(true, secs(1000), timeout()).idle, None);
}

#[test]
fn frozen_session_stays_up_while_the_toggle_is_off() {
    let mut w = Watch::new(State::Frozen, true, true);
    turn(&mut w, false, 0, Event::Tick, State::Frozen);
    w.begin(false, secs(1000));
    assert_eq!(w.waits(false, secs(1000), timeout()).idle, None);
}

#[test]
fn arming_the_toggle_restarts_the_clock() {
    let mut w = Watch::new(State::Frozen, true, true);
    turn(&mut w, false, 0, Event::Tick, State::Frozen);
    turn(&mut w, false, 500, Event::Tick, State::Frozen);
    w.begin(true, secs(1000));
    assert_eq!(w.waits(true, secs(1000), timeout()).idle, Some(timeout()));
}

#[test]
fn a_stop_that_leaves_it_frozen_waits_out_the_timeout_again() {
    let mut w = Watch::new(State::Frozen, true, true);
    turn(&mut w, true, 0, Event::Tick, State::Frozen);
    let (stop, _) = turn(&mut w, true, 60, Event::IdleDue, State::Frozen);
    assert!(stop);
    assert_eq!(w.state(), State::Frozen);
    w.begin(true, secs(60));
    assert_eq!(w.waits(true, secs(60), timeout()).idle, Some(timeout()));
}

#[test]
fn poke_reads_after_settling() {
    let mut w = Watch::new(State::Stopped, false, false);
    w.begin(false, secs(0));
    assert_eq!(w.react(Event::Poked).next, Next::Read { settle: true, stuck_without_session: false });
}

#[test]
fn nothing_changes_on_a_quiet_tick() {
    let mut w = Watch::new(State::Running, true, true);
    let (_, changed) = turn(&mut w, false, 0, Event::Tick, State::Running);
    assert!(!changed);
}
