//! The settings the process hands to the library's subsystems, as plain
//! values. Reading and deserializing configuration files is process-edge
//! work and stays outside the library.

use vstd::prelude::*;

verus! {

/// Session store settings: whether the background reaper runs, how often,
/// and the TTL of new sessions. All intervals are in milliseconds.
#[derive(PartialEq, Eq, Structural, Debug, Clone, Copy)]
pub struct SessionSettings {
    pub cleanup_enabled: bool,
    pub cleanup_interval_milliseconds: i64,
    pub ttl: i64,
}

impl SessionSettings {
    /// The reaper's sweep interval, in milliseconds.
    pub fn cleanup_interval(&self) -> (r: i64)
        ensures
            r == self.cleanup_interval_milliseconds,
    {
        self.cleanup_interval_milliseconds
    }

    /// The TTL of newly saved sessions, in milliseconds.
    pub fn ttl(&self) -> (r: i64)
        ensures
            r == self.ttl,
    {
        self.ttl
    }
}

} // verus!
