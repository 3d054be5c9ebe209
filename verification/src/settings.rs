//! Process configuration: a secret key and a debug flag.
//!
//! Configuration is modelled as an explicit store holding an immutable
//! snapshot per reader: a request reads a copy of the current settings, and
//! replacing the current settings never mutates a snapshot already handed
//! out.  Loading settings from a file is left to the host program, which
//! passes the loaded values in as the store's boot settings.

use vstd::prelude::*;

verus! {

/// The configuration surface the core consumes: an empty `secret_key`
/// disables request signing.
#[derive(Debug)]
pub struct Settings {
    pub debug: bool,
    pub secret_key: String,
}

/// Holds the settings as loaded at startup (`boot`) and the settings
/// currently in force (`current`).
#[derive(Debug)]
pub struct SettingsStore {
    pub boot: Settings,
    pub current: Settings,
}

impl Clone for Settings {
    fn clone(&self) -> (r: Self)
        ensures
            r.debug == self.debug,
            r.secret_key == self.secret_key,
    {
        Settings { debug: self.debug, secret_key: self.secret_key.clone() }
    }
}

impl Default for Settings {
    /// Signing disabled, debug off.
    fn default() -> (r: Self)
        ensures
            !r.debug,
            r.secret_key@ == Seq::<char>::empty(),
    {
        Settings { debug: false, secret_key: String::new() }
    }
}

impl SettingsStore {
    /// A fresh store: the boot settings are remembered, and the settings in
    /// force start out as the defaults until `Settings::start` installs the
    /// boot settings.
    pub fn new(boot: Settings) -> (r: Self)
        ensures
            r.boot == boot,
            !r.current.debug,
            r.current.secret_key@ == Seq::<char>::empty(),
    {
        SettingsStore { boot, current: Settings::default() }
    }
}

impl Settings {
    /// A snapshot of the settings currently in force.
    pub fn current(store: &SettingsStore) -> (r: Settings)
        ensures
            r.debug == store.current.debug,
            r.secret_key == store.current.secret_key,
    {
        store.current.clone()
    }

    /// Install these settings as the ones in force.  Snapshots handed out
    /// earlier are unaffected.
    pub fn make_current(self, store: &mut SettingsStore)
        ensures
            final(store).current == self,
            final(store).boot == old(store).boot,
    {
        store.current = self;
    }

    /// Install the boot settings as the ones in force.
    pub fn start(store: &mut SettingsStore)
        ensures
            final(store).current.debug == old(store).boot.debug,
            final(store).current.secret_key == old(store).boot.secret_key,
            final(store).boot == old(store).boot,
    {
        store.current = store.boot.clone();
    }
}

/// A snapshot of the settings currently in force.
pub fn conf(store: &SettingsStore) -> (r: Settings)
    ensures
        r.debug == store.current.debug,
        r.secret_key == store.current.secret_key,
{
    Settings::current(store)
}

} // verus!
