//! The session state the tray shows.

use vstd::prelude::*;

use crate::text::{chars_of, range_eq};

verus! {

/// Where the Waydroid session stands, as far as the tray can tell.
#[derive(Clone, Copy, PartialEq, Eq, Structural, Debug)]
pub enum State {
    Stopped,
    /// Waydroid's session manager is up, but the container has no session yet.
    Starting,
    Running,
    Frozen,
    /// The container holds on to a session that nothing owns any more, left
    /// behind by a stop that failed partway.
    Stuck,
}

/// The text the menu header and tool tip show for a state.
pub open spec fn label_text(s: State) -> Seq<char> {
    match s {
        State::Stopped => "Stopped"@,
        State::Starting => "Starting..."@,
        State::Running => "Running"@,
        State::Frozen => "Frozen (idle)"@,
        State::Stuck => "Stuck (stop the session to reset)"@,
    }
}

/// The themed icon name for a state. Starting and Stuck share the outline of
/// a stopped session; the menu header tells them apart.
pub open spec fn icon_text(s: State) -> Seq<char> {
    match s {
        State::Stopped | State::Starting | State::Stuck => "waydroid-tray-stopped-symbolic"@,
        State::Running => "waydroid-tray-running-symbolic"@,
        State::Frozen => "waydroid-tray-frozen-symbolic"@,
    }
}

/// The state that the container manager's `GetSession` reply stands for,
/// given the value under its `state` key: no session is Stopped, a session
/// the container reports as `STOPPED` is one left Stuck, `FROZEN` is Frozen,
/// and anything else is Running.
pub open spec fn session_state(value: Option<Seq<char>>) -> State {
    match value {
        None => State::Stopped,
        Some(v) => if v == "STOPPED"@ {
            State::Stuck
        } else if v == "FROZEN"@ {
            State::Frozen
        } else {
            State::Running
        },
    }
}

/// The text of an optional string.
pub open spec fn opt_text(value: Option<&str>) -> Option<Seq<char>> {
    match value {
        Some(v) => Some(v@),
        None => None,
    }
}

impl State {
    /// How the state is named in the menu header and tool tip.
    pub fn label(self) -> (l: &'static str)
        ensures
            l@ == label_text(self),
    {
        match self {
            State::Stopped => "Stopped",
            State::Starting => "Starting...",
            State::Running => "Running",
            State::Frozen => "Frozen (idle)",
            State::Stuck => "Stuck (stop the session to reset)",
        }
    }

    /// The icon the tray shows for the state.
    pub fn icon(self) -> (i: &'static str)
        ensures
            i@ == icon_text(self),
    {
        match self {
            State::Stopped | State::Starting | State::Stuck => "waydroid-tray-stopped-symbolic",
            State::Running => "waydroid-tray-running-symbolic",
            State::Frozen => "waydroid-tray-frozen-symbolic",
        }
    }

    /// The state a session reply stands for; `value` is what it holds under
    /// the `state` key, or `None` when there is no session to read.
    pub fn from_session(value: Option<&str>) -> (s: State)
        ensures
            s == session_state(opt_text(value)),
    {
        match value {
            None => State::Stopped,
            Some(v) => {
                let c = chars_of(v);
                assert(c@.subrange(0, c@.len() as int) =~= c@);
                if range_eq(&c, 0, c.len(), "STOPPED") {
                    State::Stuck
                } else if range_eq(&c, 0, c.len(), "FROZEN") {
                    State::Frozen
                } else {
                    State::Running
                }
            },
        }
    }

    /// What `with_session` gives: a stopped container with its session
    /// manager up is a session on its way up.
    pub open spec fn spec_with_session(self, session_up: bool) -> State {
        if session_up && self == State::Stopped { State::Starting } else { self }
    }

    /// While the session manager is up, "no session" from the container just
    /// means it hasn't started one yet.
    pub fn with_session(self, session_up: bool) -> (s: State)
        ensures
            s == self.spec_with_session(session_up),
    {
        if session_up && self == State::Stopped { State::Starting } else { self }
    }
}

/// The session manager being up turns a stopped state into Starting and
/// leaves every other state alone; without it nothing changes; taking it into
/// account twice is the same as once.
pub proof fn lemma_with_session(s: State, session_up: bool)
    ensures
        session_up && s == State::Stopped ==> s.spec_with_session(session_up) == State::Starting,
        s != State::Stopped ==> s.spec_with_session(session_up) == s,
        !session_up ==> s.spec_with_session(session_up) == s,
        s.spec_with_session(session_up).spec_with_session(session_up) == s.spec_with_session(
            session_up,
        ),
{
}

/// How a session reply maps to a state: no session is Stopped, `STOPPED` is
/// Stuck, `FROZEN` is Frozen, and any other value is Running.
pub proof fn lemma_session_replies(v: Seq<char>)
    ensures
        session_state(None) == State::Stopped,
        v == "STOPPED"@ ==> session_state(Some(v)) == State::Stuck,
        v == "FROZEN"@ ==> session_state(Some(v)) == State::Frozen,
        v != "STOPPED"@ && v != "FROZEN"@ ==> session_state(Some(v)) == State::Running,
        session_state(Some(v)) != State::Stopped && session_state(Some(v)) != State::Starting,
{
    reveal_strlit("FROZEN");
    reveal_strlit("STOPPED");
    assert("FROZEN"@.len() != "STOPPED"@.len());
}

/// The label and the icon of every state. The three states without a live
/// session share the stopped outline.
pub proof fn lemma_state_texts(s: State)
    ensures
        s == State::Stopped ==> label_text(s) == "Stopped"@,
        s == State::Starting ==> label_text(s) == "Starting..."@,
        s == State::Running ==> label_text(s) == "Running"@,
        s == State::Frozen ==> label_text(s) == "Frozen (idle)"@,
        s == State::Stuck ==> label_text(s) == "Stuck (stop the session to reset)"@,
        s == State::Stopped || s == State::Starting || s == State::Stuck ==> icon_text(s)
            == "waydroid-tray-stopped-symbolic"@,
        s == State::Running ==> icon_text(s) == "waydroid-tray-running-symbolic"@,
        s == State::Frozen ==> icon_text(s) == "waydroid-tray-frozen-symbolic"@,
{
}

} // verus!
