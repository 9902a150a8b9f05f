//! Errors of configuration.

use vstd::prelude::*;

verus! {

/// Error variants related to configuration.
#[derive(Debug, PartialEq, Eq)]
pub enum ConfigError {
    /// The arguments could not be parsed; `source` describes why.
    ParseError { source: String, args: Vec<String> },
    /// The min election timeout is not smaller than the max election timeout.
    ElectionTimeout { min: u64, max: u64 },
    /// The min election timeout is not greater than the heartbeat interval.
    ElectionTimeoutLTHeartBeat { election_timeout_min: u64, heartbeat_interval: u64 },
}

} // verus!
