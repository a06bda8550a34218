//! The `waydroid` commands the tray runs, and when a run is worth a notification.

use vstd::prelude::*;

use crate::text::{chars_of, join, join_strings, line_ranges, lines, range_texts, ranges_within, strings_text, substring};

verus! {

/// How long `session start` has to keep running to count as a start: it only
/// returns when the session ends, so exiting sooner is a failure.
pub const START_GRACE_SECS: u64 = 5;

/// How many lines of a failed command's error output to show.
pub const ERROR_LINES: usize = 5;

/// A `waydroid` command line the tray runs.
#[derive(Clone, Debug)]
pub enum WaydroidCommand {
    SessionStart,
    SessionStop,
    ShowFullUi,
    /// `app launch` with an Android package name.
    AppLaunch(String),
}

/// How a run of a command ended, as far as the tray waited for it.
#[derive(Clone, Copy, PartialEq, Eq, Structural, Debug)]
pub enum RunOutcome {
    /// The process could not be started.
    SpawnFailed,
    /// `session start` was still running when its grace period ran out.
    StillRunning,
    /// The process exited, with a success status or not.
    Exited { success: bool },
    /// Waiting for the process failed.
    WaitFailed,
}

/// The arguments given to `waydroid` for a command.
pub open spec fn command_args(c: WaydroidCommand) -> Seq<Seq<char>> {
    match c {
        WaydroidCommand::SessionStart => seq!["session"@, "start"@],
        WaydroidCommand::SessionStop => seq!["session"@, "stop"@],
        WaydroidCommand::ShowFullUi => seq!["show-full-ui"@],
        WaydroidCommand::AppLaunch(package) => seq!["app"@, "launch"@, package@],
    }
}

/// The command as a shell would show it.
pub open spec fn command_text(c: WaydroidCommand) -> Seq<char> {
    "waydroid "@ + join(command_args(c), " "@)
}

/// Whether a run that ended so is a failure to report. A `session start`
/// that exits within its grace period failed whatever its status (Waydroid
/// exits 0 when the container isn't listening); one still running started.
pub open spec fn is_failure(c: WaydroidCommand, outcome: RunOutcome) -> bool {
    match outcome {
        RunOutcome::SpawnFailed => true,
        RunOutcome::StillRunning => false,
        RunOutcome::Exited { success } => (c is SessionStart) || !success,
        RunOutcome::WaitFailed => true,
    }
}

/// The end of a failed command's error output: its last `ERROR_LINES` lines,
/// joined by `\n`, or nothing when that is empty.
pub open spec fn error_tail(text: Seq<char>) -> Option<Seq<char>> {
    let ls = lines(text);
    let tail = join(ls.skip(if ls.len() > ERROR_LINES { ls.len() - ERROR_LINES } else { 0 }), "\n"@);
    if tail.len() == 0 {
        None
    } else {
        Some(tail)
    }
}

impl WaydroidCommand {
    /// The arguments given to `waydroid`.
    pub fn args(&self) -> (a: Vec<String>)
        ensures
            strings_text(a@) == command_args(*self),
    {
        let mut a: Vec<String> = Vec::new();
        match self {
            WaydroidCommand::SessionStart => {
                a.push(String::from_str("session"));
                a.push(String::from_str("start"));
            },
            WaydroidCommand::SessionStop => {
                a.push(String::from_str("session"));
                a.push(String::from_str("stop"));
            },
            WaydroidCommand::ShowFullUi => {
                a.push(String::from_str("show-full-ui"));
            },
            WaydroidCommand::AppLaunch(package) => {
                a.push(String::from_str("app"));
                a.push(String::from_str("launch"));
                a.push(package.clone());
            },
        }
        assert(strings_text(a@) =~= command_args(*self));
        a
    }

    /// The command line, `waydroid` and its arguments separated by spaces.
    pub fn line(&self) -> (l: String)
        ensures
            l@ == command_text(*self),
    {
        let mut l = String::from_str("waydroid ");
        let args = self.args();
        let rest = join_strings(&args, " ");
        l.append(rest.as_str());
        l
    }

    /// Whether this is `session start`, the one command that keeps running.
    pub fn starts_session(&self) -> (b: bool)
        ensures
            b == (*self is SessionStart),
    {
        match self {
            WaydroidCommand::SessionStart => true,
            _ => false,
        }
    }

    /// The summary of the notification a run that ended so is worth: the
    /// command line and "failed", or nothing when the run did not fail.
    pub fn failure_summary(&self, outcome: RunOutcome) -> (s: Option<String>)
        ensures
            match s {
                Some(t) => is_failure(*self, outcome) && t@ == command_text(*self) + " failed"@,
                None => !is_failure(*self, outcome),
            },
            outcome == (RunOutcome::Exited { success: false }) ==> s is Some,
            outcome == RunOutcome::SpawnFailed || outcome == RunOutcome::WaitFailed ==> s is Some,
            outcome == RunOutcome::StillRunning ==> s is None,
    {
        let failed = match outcome {
            RunOutcome::SpawnFailed => true,
            RunOutcome::StillRunning => false,
            RunOutcome::Exited { success } => self.starts_session() || !success,
            RunOutcome::WaitFailed => true,
        };
        if failed {
            let mut t = self.line();
            t.append(" failed");
            Some(t)
        } else {
            None
        }
    }
}

/// The last lines of a failed command's error output, for the notification.
pub fn last_lines(text: &str) -> (tail: Option<String>)
    ensures
        match tail {
            Some(t) => error_tail(text@) == Some(t@),
            None => error_tail(text@) is None,
        },
{
    let v = chars_of(text);
    let ranges = line_ranges(&v);
    let ghost ls = lines(v@);
    let n = ranges.len();
    let start = if n > ERROR_LINES { n - ERROR_LINES } else { 0 };
    let mut t = String::new();
    let mut k = start;
    assert(ls.subrange(start as int, start as int) =~= Seq::<Seq<char>>::empty());
    while k < n
        invariant
            v@ == text@,
            n == ranges@.len(),
            ranges_within(v@, ranges@),
            range_texts(v@, ranges@) == ls,
            ls == lines(text@),
            start <= k <= n,
            t@ == join(ls.subrange(start as int, k as int), "\n"@),
        decreases n - k,
    {
        let (a, b) = ranges[k];
        assert(ls.subrange(start as int, k + 1).drop_last() =~= ls.subrange(start as int, k as int));
        if k > start {
            t.append("\n");
        }
        let line = substring(text, a, b);
        t.append(line.as_str());
        k = k + 1;
    }
    assert(ls.subrange(start as int, n as int) =~= ls.skip(start as int));
    if t.as_str().is_empty() {
        None
    } else {
        Some(t)
    }
}

/// When a run is reported: a command that exits with a failure status, or
/// could not be started or waited for, always is; a command other than
/// `session start` is reported exactly when it did not succeed; a
/// `session start` is reported whenever it exits within its grace period,
/// whatever its status, and never while it keeps running.
pub proof fn lemma_failures_reported(c: WaydroidCommand, success: bool)
    ensures
        is_failure(c, RunOutcome::Exited { success: false }),
        is_failure(c, RunOutcome::SpawnFailed),
        is_failure(c, RunOutcome::WaitFailed),
        !(c is SessionStart) ==> (is_failure(c, RunOutcome::Exited { success }) <==> !success),
        c is SessionStart ==> is_failure(c, RunOutcome::Exited { success }),
        !is_failure(c, RunOutcome::StillRunning),
{
}

/// The arguments given to `waydroid` for each command.
pub proof fn lemma_command_args(c: WaydroidCommand)
    ensures
        c is SessionStart ==> command_args(c) == seq!["session"@, "start"@],
        c is SessionStop ==> command_args(c) == seq!["session"@, "stop"@],
        c is ShowFullUi ==> command_args(c) == seq!["show-full-ui"@],
        c matches WaydroidCommand::AppLaunch(p) ==> command_args(c) == seq![
            "app"@,
            "launch"@,
            p@,
        ],
{
}

} // verus!
