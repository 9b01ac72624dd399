//! The configuration surface, read-only to the core: tick duration, send
//! cadence, interpolation delay, input delay, and the correction knobs.
//! Validation rejects settings under which the simulation could not run at
//! all; everything else is policy left to the caller.

use vstd::prelude::*;

verus! {

/// The transport a client connects over. The core never opens a socket;
/// this tag is handed through to the transport layer outside.
#[derive(Clone, Copy, Debug, PartialEq, Eq, Structural, PartialOrd, Ord)]
pub enum ClientTransports {
    Udp,
    Steam { app_id: u32 },
}

/// Why a configuration was rejected.
#[derive(Clone, Copy, Debug, PartialEq, Eq, Structural)]
pub enum ConfigError {
    /// A zero tick duration cannot schedule fixed steps.
    ZeroTickDuration,
    /// A zero send interval would never reach a send boundary.
    ZeroSendInterval,
}

/// The knobs the prediction / reconciliation / interpolation core consumes.
#[derive(Clone, Copy, Debug, PartialEq, Eq, Structural)]
pub struct SimConfig {
    /// Fixed duration of one simulation tick, in microseconds.
    pub tick_duration_us: u64,
    /// Replication send interval, in ticks: a multiple of, or independent
    /// of, the simulation rate, bounding bandwidth.
    pub send_interval_ticks: u64,
    /// How far interpolated entities lag behind confirmed state, in ticks.
    pub interpolation_delay_ticks: u64,
    /// How many ticks the client delays its own sent commands, so the
    /// server sees them before they are due.
    pub min_input_delay_ticks: u64,
    /// The epsilon under which prediction and confirmation count as equal.
    pub correction_tolerance: u64,
    /// Over how many ticks the displayed value eases onto a correction.
    pub correction_smoothing_ticks: u64,
    /// The largest backlog of ticks one frame steps before fast-forwarding.
    pub catchup_budget_ticks: u64,
}

impl SimConfig {
    /// What every consumer may assume of a validated configuration.
    pub open spec fn valid(self) -> bool {
        self.tick_duration_us >= 1 && self.send_interval_ticks >= 1
    }

    /// Validates a configuration: rejected exactly when the tick duration
    /// is zero (first) or the send interval is zero; accepted unchanged
    /// otherwise.
    pub fn validated(self) -> (r: Result<SimConfig, ConfigError>)
        ensures
            self.tick_duration_us == 0 ==> r == Result::<SimConfig, ConfigError>::Err(
                ConfigError::ZeroTickDuration,
            ),
            self.tick_duration_us != 0 && self.send_interval_ticks == 0 ==> r
                == Result::<SimConfig, ConfigError>::Err(ConfigError::ZeroSendInterval),
            self.valid() ==> r == Result::<SimConfig, ConfigError>::Ok(self),
            r is Ok <==> self.valid(),
    {
        if self.tick_duration_us == 0 {
            Err(ConfigError::ZeroTickDuration)
        } else if self.send_interval_ticks == 0 {
            Err(ConfigError::ZeroSendInterval)
        } else {
            Ok(self)
        }
    }

    /// The tick a command sampled at `current_tick` is issued for: the
    /// client intentionally schedules its own input ahead, so the server
    /// sees it before it is due and divergence is rarer.
    pub fn delayed_input_tick(&self, current_tick: u64) -> (t: u64)
        requires
            current_tick + self.min_input_delay_ticks <= u64::MAX,
        ensures
            t == current_tick + self.min_input_delay_ticks,
    {
        current_tick + self.min_input_delay_ticks
    }
}

} // verus!
