//! The server's parameters and where they come from.

use crate::text::{number, parse_number};
use vstd::prelude::*;

verus! {

/// The parameters of the server.
#[derive(Clone, Copy, Debug, PartialEq, Eq, Structural)]
pub struct Params {
    /// The share of the bandwidth of a session above which it is slowed down, in hundredths.
    pub downgrade_threshold_100: u64,
    /// How long a session runs before its share is looked at, in milliseconds.
    pub downgrade_start_check: u64,
    /// The speed of a session that is slowed down, in bits per second.
    pub limit_speed: u64,
    /// The bandwidth of all sessions together, in bits per second.
    pub total_bandwidth: u64,
    /// The bandwidth of one session, in bits per second.
    pub single_bandwidth: u64,
}

/// The parameters that are written as a decimal fraction, in hundredths or in megabits.
#[derive(Clone, Copy, Debug, PartialEq, Eq, Structural)]
pub enum Scaled {
    DowngradeThreshold,
    LimitSpeed,
    TotalBandwidth,
    SingleBandwidth,
}

/// The parameters that a server starts with.
pub open spec fn initial_params() -> Params {
    Params {
        downgrade_threshold_100: 66,
        downgrade_start_check: 1_800_000,
        limit_speed: 4_194_304,
        total_bandwidth: 1_073_741_824,
        single_bandwidth: 16_777_216,
    }
}

/// The environment's word on the parameters.
///
/// A scaled parameter is the number that its variable holds, in units of the parameter, if that
/// number is above zero. The start check is the text of its variable.
pub struct EnvParams {
    pub downgrade_threshold_100: Option<u64>,
    pub downgrade_start_check: Option<String>,
    pub limit_speed: Option<u64>,
    pub total_bandwidth: Option<u64>,
    pub single_bandwidth: Option<u64>,
}

/// The seconds that a text stands for, zero if it is no number.
pub open spec fn seconds_in(text: Seq<char>) -> nat {
    match number(text, u64::MAX as nat) {
        Ok(v) => v,
        Err(_) => 0,
    }
}

/// A value, or another where there is none.
pub open spec fn or_else(value: Option<u64>, other: u64) -> u64 {
    match value {
        Some(v) => v,
        None => other,
    }
}

impl EnvParams {
    /// The start check in seconds, zero where the environment does not set it.
    pub open spec fn start_check_seconds(&self) -> nat {
        match self.downgrade_start_check {
            Some(text) => seconds_in(text@),
            None => 0,
        }
    }

    /// Whether the start check can be held in milliseconds.
    pub fn in_range(&self) -> (yes: bool)
        ensures
            yes == (self.start_check_seconds() * 1000 <= u64::MAX),
    {
        match &self.downgrade_start_check {
            Some(text) => match parse_number(text.as_str(), u64::MAX) {
                Ok(v) => v <= u64::MAX / 1000,
                Err(_) => true,
            },
            None => true,
        }
    }
}

/// The parameters after the environment was asked: what it sets, and else what was there.
pub open spec fn env_params(params: Params, env: EnvParams) -> Params {
    Params {
        downgrade_threshold_100: or_else(
            env.downgrade_threshold_100,
            params.downgrade_threshold_100,
        ),
        downgrade_start_check: if env.start_check_seconds() > 0 {
            (env.start_check_seconds() * 1000) as u64
        } else {
            params.downgrade_start_check
        },
        limit_speed: or_else(env.limit_speed, params.limit_speed),
        total_bandwidth: or_else(env.total_bandwidth, params.total_bandwidth),
        single_bandwidth: or_else(env.single_bandwidth, params.single_bandwidth),
    }
}

impl Default for Params {
    fn default() -> (params: Self)
        ensures
            params == initial_params(),
    {
        Params {
            downgrade_threshold_100: 66,
            downgrade_start_check: 1_800_000,
            limit_speed: 4_194_304,
            total_bandwidth: 1_073_741_824,
            single_bandwidth: 16_777_216,
        }
    }
}

impl Params {
    /// The value of a scaled parameter.
    pub open spec fn spec_get(self, which: Scaled) -> u64 {
        match which {
            Scaled::DowngradeThreshold => self.downgrade_threshold_100,
            Scaled::LimitSpeed => self.limit_speed,
            Scaled::TotalBandwidth => self.total_bandwidth,
            Scaled::SingleBandwidth => self.single_bandwidth,
        }
    }

    /// The parameters with another value of one scaled parameter.
    pub open spec fn spec_set(self, which: Scaled, value: u64) -> Params {
        match which {
            Scaled::DowngradeThreshold => Params { downgrade_threshold_100: value, ..self },
            Scaled::LimitSpeed => Params { limit_speed: value, ..self },
            Scaled::TotalBandwidth => Params { total_bandwidth: value, ..self },
            Scaled::SingleBandwidth => Params { single_bandwidth: value, ..self },
        }
    }

    /// Reads a scaled parameter.
    pub fn get(&self, which: Scaled) -> (value: u64)
        ensures
            value == self.spec_get(which),
    {
        match which {
            Scaled::DowngradeThreshold => self.downgrade_threshold_100,
            Scaled::LimitSpeed => self.limit_speed,
            Scaled::TotalBandwidth => self.total_bandwidth,
            Scaled::SingleBandwidth => self.single_bandwidth,
        }
    }

    /// Writes a scaled parameter.
    pub fn set(&mut self, which: Scaled, value: u64)
        ensures
            *final(self) == old(self).spec_set(which, value),
    {
        match which {
            Scaled::DowngradeThreshold => {
                self.downgrade_threshold_100 = value;
            },
            Scaled::LimitSpeed => {
                self.limit_speed = value;
            },
            Scaled::TotalBandwidth => {
                self.total_bandwidth = value;
            },
            Scaled::SingleBandwidth => {
                self.single_bandwidth = value;
            },
        }
    }

    /// Takes over what the environment sets; what it does not set stays.
    pub fn check_params(&mut self, env: &EnvParams)
        requires
            env.start_check_seconds() * 1000 <= u64::MAX,
        ensures
            *final(self) == env_params(*old(self), *env),
    {
        if let Some(v) = env.downgrade_threshold_100 {
            self.downgrade_threshold_100 = v;
        }
        if let Some(text) = &env.downgrade_start_check {
            if let Ok(v) = parse_number(text.as_str(), u64::MAX) {
                if v > 0 {
                    self.downgrade_start_check = v * 1000;
                }
            }
        }
        if let Some(v) = env.limit_speed {
            self.limit_speed = v;
        }
        if let Some(v) = env.total_bandwidth {
            self.total_bandwidth = v;
        }
        if let Some(v) = env.single_bandwidth {
            self.single_bandwidth = v;
        }
    }
}

} // verus!
