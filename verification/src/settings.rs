//! The settings, where they are saved, and the shared copy of the one flag
//! that the main loop reads too.

use std::path::PathBuf;
use std::sync::atomic::AtomicBool;
use std::sync::atomic::Ordering;
use std::sync::Arc;

use vstd::prelude::*;

use crate::config::{Config, ConfigField};

verus! {

/// A path on disk, carried through unread.
#[verifier::external_type_specification]
#[verifier::external_body]
pub struct ExPathBuf(PathBuf);

/// The config, where it lives, and a shared copy of `auto_stop_when_idle`
/// for the main loop. Toggling through here keeps them in step.
pub struct Settings {
    pub config: Config,
    path: PathBuf,
    auto_stop: Arc<AtomicBool>,
}

impl Settings {
    /// The settings in force.
    pub closed spec fn current(&self) -> Config {
        self.config
    }

    /// The shared idle flag.
    pub closed spec fn flag(&self) -> Arc<AtomicBool> {
        self.auto_stop
    }

    /// Where the settings are saved.
    pub closed spec fn location(&self) -> PathBuf {
        self.path
    }

    /// Settings read from `path`, with the idle flag published as `config` has it.
    pub fn new(config: Config, path: PathBuf) -> (s: Settings)
        ensures
            s.current() == config,
            s.location() == path,
    {
        let auto_stop = Arc::new(AtomicBool::new(config.auto_stop_when_idle));
        Settings { config, path, auto_stop }
    }

    /// Where the settings are saved.
    pub fn path(&self) -> (p: &PathBuf)
        ensures
            *p == self.location(),
    {
        &self.path
    }

    /// The settings in force.
    pub fn config(&self) -> (c: Config)
        ensures
            c == self.current(),
    {
        self.config
    }

    /// The shared idle flag, for the main loop, which owns the idle timer.
    pub fn auto_stop(&self) -> (f: Arc<AtomicBool>)
        ensures
            f == self.flag(),
    {
        share(&self.auto_stop)
    }

    /// Flips one setting and publishes the idle flag. Writing the file back
    /// is left to the caller, which owns the disk.
    pub fn toggle(&mut self, field: ConfigField)
        ensures
            final(self).current() == old(self).current().set(field, !old(self).current().get(field)),
            final(self).location() == old(self).location(),
            final(self).flag() == old(self).flag(),
    {
        self.config = self.config.toggled(field);
        publish(&self.auto_stop, self.config.auto_stop_when_idle);
    }
}

/// Another handle on the same flag, by `Arc::clone`, which points the new
/// `Arc` at the same allocation: the contract claims the two are the same flag.
#[verifier::external_body]
fn share(flag: &Arc<AtomicBool>) -> (f: Arc<AtomicBool>)
    ensures
        f == *flag,
{
    Arc::clone(flag)
}

/// Stores `value` in the shared flag. What the flag holds is not stated by
/// any contract here: vstd gives `AtomicBool` no model of its value, so the
/// flag's contents after `new` and `toggle` rest on this body alone.
fn publish(flag: &Arc<AtomicBool>, value: bool) {
    flag.store(value, Ordering::Relaxed);
}

} // verus!
