//! The persisted configuration: how often the wallpaper refreshes.

use vstd::prelude::*;

verus! {

/// Default refresh interval: five minutes, stored in milliseconds.
pub const DEFAULT_INTERVAL_MILLIS: u64 = 5 * 60 * 1000;

/// The settings of the program.  Only the refresh interval is configurable;
/// it is stored in milliseconds.
#[derive(Debug)]
pub struct Config {
    interval: u64,
}

impl Config {
    /// The refresh interval in milliseconds, as an abstract value.
    pub closed spec fn spec_interval_millis(&self) -> u64 {
        self.interval
    }

    /// Builds a configuration with the given refresh interval in milliseconds.
    pub fn new(interval_millis: u64) -> (r: Config)
        ensures
            r.spec_interval_millis() == interval_millis,
    {
        Config { interval: interval_millis }
    }

    /// The refresh interval in milliseconds.
    pub fn interval_millis(&self) -> (r: u64)
        ensures
            r == self.spec_interval_millis(),
    {
        self.interval
    }

    /// Replaces the refresh interval with a new value in milliseconds.
    pub fn set_interval_millis(&mut self, interval_millis: u64)
        ensures
            final(self).spec_interval_millis() == interval_millis,
    {
        self.interval = interval_millis;
    }
}

impl Default for Config {
    /// The default configuration refreshes every five minutes.
    fn default() -> (r: Config)
        ensures
            r.spec_interval_millis() == DEFAULT_INTERVAL_MILLIS,
    {
        Config { interval: DEFAULT_INTERVAL_MILLIS }
    }
}

} // verus!
