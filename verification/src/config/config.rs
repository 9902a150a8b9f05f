//! The runtime configuration of a node.

use vstd::prelude::*;

use crate::config::errors::ConfigError;

verus! {

/// The runtime configuration for a node, times in milliseconds.
///
/// Keep `broadcastTime << electionTimeout << MTBF`: the election timeout high
/// enough that the network does not cause elections, low enough that a
/// leader crash does not cause a long downtime.
#[derive(Clone, Copy, Debug, PartialEq, Eq, Structural)]
pub struct Config {
    /// The minimum election timeout.
    pub election_timeout_min: u64,
    /// The maximum election timeout.
    pub election_timeout_max: u64,
    /// The interval at which leaders send heartbeats to followers.
    pub heartbeat_interval: u64,
    /// Whether ticks happen; without them no timeout-based event happens.
    pub enable_tick: bool,
    /// Whether a leader sends heartbeats.
    pub enable_heartbeat: bool,
    /// Whether a follower elects itself when its leader's lease runs out.
    pub enable_elect: bool,
}

/// `rand::thread_rng().gen_range(low..high)`: a value drawn at random from
/// `low..high`. It panics on an empty range; which value comes is chance.
#[verifier::external_body]
fn random_in_range(low: u64, high: u64) -> (r: u64)
    requires
        low < high,
    ensures
        low <= r < high,
{
    rand::Rng::gen_range(&mut rand::thread_rng(), low..high)
}

impl Default for Config {
    fn default() -> (r: Config)
        ensures
            r == (Config {
                election_timeout_min: 150,
                election_timeout_max: 300,
                heartbeat_interval: 50,
                enable_tick: true,
                enable_heartbeat: true,
                enable_elect: true,
            }),
    {
        Config {
            election_timeout_min: 150,
            election_timeout_max: 300,
            heartbeat_interval: 50,
            enable_tick: true,
            enable_heartbeat: true,
            enable_elect: true,
        }
    }
}

impl Config {
    /// A random election timeout within the configured min (inclusive) and
    /// max (exclusive).
    pub fn new_rand_election_timeout(&self) -> (r: u64)
        requires
            self.election_timeout_min < self.election_timeout_max,
        ensures
            self.election_timeout_min <= r < self.election_timeout_max,
    {
        random_in_range(self.election_timeout_min, self.election_timeout_max)
    }

    /// Validates the config: the min election timeout must be below the max
    /// and above the heartbeat interval.
    pub fn validate(self) -> (r: Result<Config, ConfigError>)
        ensures
            self.election_timeout_min >= self.election_timeout_max ==> r == Err::<Config, ConfigError>(
                ConfigError::ElectionTimeout {
                    min: self.election_timeout_min,
                    max: self.election_timeout_max,
                },
            ),
            self.election_timeout_min < self.election_timeout_max && self.election_timeout_min
                <= self.heartbeat_interval ==> r == Err::<Config, ConfigError>(
                ConfigError::ElectionTimeoutLTHeartBeat {
                    election_timeout_min: self.election_timeout_min,
                    heartbeat_interval: self.heartbeat_interval,
                },
            ),
            self.heartbeat_interval < self.election_timeout_min < self.election_timeout_max ==> r
                == Ok::<Config, ConfigError>(self),
    {
        if self.election_timeout_min >= self.election_timeout_max {
            return Err(
                ConfigError::ElectionTimeout {
                    min: self.election_timeout_min,
                    max: self.election_timeout_max,
                },
            );
        }
        if self.election_timeout_min <= self.heartbeat_interval {
            return Err(
                ConfigError::ElectionTimeoutLTHeartBeat {
                    election_timeout_min: self.election_timeout_min,
                    heartbeat_interval: self.heartbeat_interval,
                },
            );
        }
        Ok(self)
    }

    /// The interval between ticks: one and a half heartbeat intervals.
    pub fn tick_interval(&self) -> (r: u64)
        requires
            self.heartbeat_interval * 3 <= u64::MAX,
        ensures
            r == self.heartbeat_interval * 3 / 2,
    {
        self.heartbeat_interval * 3 / 2
    }
}

} // verus!
