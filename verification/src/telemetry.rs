//! Response assembly for the antenna-subsystem service that ships alongside
//! the file-transfer service.
//!
//! The hardware API hands back one `Result` per reading; the service's
//! responses substitute a default for every reading that failed and carry
//! the error text of a failed command. The assembly is pure and exactly
//! specified; the hardware calls themselves stay with the caller.

use vstd::prelude::*;

verus! {

/// A failure reported by the antenna hardware API.
#[derive(Clone, Copy, PartialEq, Eq, Structural, Debug)]
pub enum AntsError {
    /// The subsystem is misconfigured or unreachable.
    ConfigError,
    /// Any other hardware failure.
    GenericError,
}

impl AntsError {
    /// The error text a response carries.
    pub fn message(&self) -> (r: &'static str)
        ensures
            r@ == self.spec_message(),
    {
        match self {
            AntsError::ConfigError => "Configuration error",
            AntsError::GenericError => "Generic error",
        }
    }

    /// What `message` returns, as a sequence of characters.
    pub open spec fn spec_message(self) -> Seq<char> {
        match self {
            AntsError::ConfigError => "Configuration error"@,
            AntsError::GenericError => "Generic error"@,
        }
    }
}

/// The outcome of a mutation: its error text and whether it succeeded.
pub struct MutationResponse {
    /// The error text, empty on success.
    pub errors: String,
    /// Whether the command succeeded.
    pub success: bool,
}

/// The no-op mutation: a bare watchdog kick, reported as it went.
pub fn noop(kick: Result<(), AntsError>) -> (r: MutationResponse)
    ensures
        r.success == kick.is_ok(),
        kick is Ok ==> r.errors@ == Seq::<char>::empty(),
        kick matches Err(e) ==> r.errors@ == e.spec_message(),
{
    match kick {
        Ok(_) => MutationResponse { errors: String::new(), success: true },
        Err(e) => MutationResponse {
            errors: crate::message::str_to_string(e.message()),
            success: false,
        },
    }
}

/// One antenna's activation history.
#[derive(Clone, Copy, PartialEq, Eq, Structural, Debug)]
pub struct AntennaStats {
    /// How many times activation was attempted.
    pub activation_count: u32,
    /// How long the antenna was active, in seconds.
    pub activation_time: u32,
}

/// One antenna's activation history, with zero standing in for a reading
/// the hardware would not give.
pub fn antenna_stats(count: Result<u32, AntsError>, time: Result<u32, AntsError>) -> (r:
    AntennaStats)
    ensures
        r.activation_count == (match count {
            Ok(c) => c,
            Err(_) => 0u32,
        }),
        r.activation_time == (match time {
            Ok(t) => t,
            Err(_) => 0u32,
        }),
{
    AntennaStats {
        activation_count: match count {
            Ok(c) => c,
            Err(_) => 0,
        },
        activation_time: match time {
            Ok(t) => t,
            Err(_) => 0,
        },
    }
}

/// The debug telemetry block: each antenna's activation history.
#[derive(Clone, Copy, PartialEq, Eq, Structural, Debug)]
pub struct TelemetryDebug {
    /// Antenna 1.
    pub ant_1: AntennaStats,
    /// Antenna 2.
    pub ant_2: AntennaStats,
    /// Antenna 3.
    pub ant_3: AntennaStats,
    /// Antenna 4.
    pub ant_4: AntennaStats,
}

/// The debug telemetry block assembled from one reading pair per antenna.
pub fn telemetry_debug(
    ant_1: AntennaStats,
    ant_2: AntennaStats,
    ant_3: AntennaStats,
    ant_4: AntennaStats,
) -> (r: TelemetryDebug)
    ensures
        r == (TelemetryDebug { ant_1, ant_2, ant_3, ant_4 }),
{
    TelemetryDebug { ant_1, ant_2, ant_3, ant_4 }
}

/// The deployment status flags of the whole system.
#[derive(Clone, Copy, PartialEq, Eq, Structural, Debug)]
pub struct DeployStatus {
    /// The system is burning a deployment.
    pub sys_burn_active: bool,
    /// Deployment switches are ignored.
    pub sys_ignore_deploy: bool,
    /// The system is armed.
    pub sys_armed: bool,
    /// Antenna 1 is not deployed.
    pub ant_1_not_deployed: bool,
    /// Antenna 1's deployment stopped on time limit.
    pub ant_1_stopped_time: bool,
    /// Antenna 1's deployment is active.
    pub ant_1_active: bool,
    /// Antenna 2 is not deployed.
    pub ant_2_not_deployed: bool,
    /// Antenna 2's deployment stopped on time limit.
    pub ant_2_stopped_time: bool,
    /// Antenna 2's deployment is active.
    pub ant_2_active: bool,
    /// Antenna 3 is not deployed.
    pub ant_3_not_deployed: bool,
    /// Antenna 3's deployment stopped on time limit.
    pub ant_3_stopped_time: bool,
    /// Antenna 3's deployment is active.
    pub ant_3_active: bool,
    /// Antenna 4 is not deployed.
    pub ant_4_not_deployed: bool,
    /// Antenna 4's deployment stopped on time limit.
    pub ant_4_stopped_time: bool,
    /// Antenna 4's deployment is active.
    pub ant_4_active: bool,
}

impl Default for DeployStatus {
    /// Every flag clear.
    fn default() -> (r: Self)
        ensures
            r == (DeployStatus {
                sys_burn_active: false,
                sys_ignore_deploy: false,
                sys_armed: false,
                ant_1_not_deployed: false,
                ant_1_stopped_time: false,
                ant_1_active: false,
                ant_2_not_deployed: false,
                ant_2_stopped_time: false,
                ant_2_active: false,
                ant_3_not_deployed: false,
                ant_3_stopped_time: false,
                ant_3_active: false,
                ant_4_not_deployed: false,
                ant_4_stopped_time: false,
                ant_4_active: false,
            }),
    {
        DeployStatus {
            sys_burn_active: false,
            sys_ignore_deploy: false,
            sys_armed: false,
            ant_1_not_deployed: false,
            ant_1_stopped_time: false,
            ant_1_active: false,
            ant_2_not_deployed: false,
            ant_2_stopped_time: false,
            ant_2_active: false,
            ant_3_not_deployed: false,
            ant_3_stopped_time: false,
            ant_3_active: false,
            ant_4_not_deployed: false,
            ant_4_stopped_time: false,
            ant_4_active: false,
        }
    }
}

/// The nominal telemetry the hardware reports as one block.
#[derive(Clone, Copy, PartialEq, Eq, Structural, Debug)]
pub struct AntsTelemetry {
    /// The raw temperature reading.
    pub raw_temp: u16,
    /// Seconds since the subsystem booted.
    pub uptime: u32,
    /// The deployment status flags.
    pub deploy_status: DeployStatus,
}

/// The nominal telemetry block of a query response.
#[derive(Clone, Copy, PartialEq, Eq, Structural, Debug)]
pub struct TelemetryNominal {
    /// The raw temperature reading, zero when the reading failed.
    pub raw_temp: u16,
    /// Seconds since boot, zero when the reading failed.
    pub uptime: u32,
    /// The deployment status flags, all clear when the reading failed.
    pub deploy_status: DeployStatus,
}

/// The nominal telemetry block, with every default standing in for a
/// reading the hardware would not give.
pub fn telemetry_nominal(reading: Result<AntsTelemetry, AntsError>) -> (r: TelemetryNominal)
    ensures
        reading matches Ok(t) ==> r == (TelemetryNominal {
            raw_temp: t.raw_temp,
            uptime: t.uptime,
            deploy_status: t.deploy_status,
        }),
        reading is Err ==> r == (TelemetryNominal {
            raw_temp: 0u16,
            uptime: 0u32,
            deploy_status: DeployStatus {
                sys_burn_active: false,
                sys_ignore_deploy: false,
                sys_armed: false,
                ant_1_not_deployed: false,
                ant_1_stopped_time: false,
                ant_1_active: false,
                ant_2_not_deployed: false,
                ant_2_stopped_time: false,
                ant_2_active: false,
                ant_3_not_deployed: false,
                ant_3_stopped_time: false,
                ant_3_active: false,
                ant_4_not_deployed: false,
                ant_4_stopped_time: false,
                ant_4_active: false,
            },
        }),
{
    match reading {
        Ok(t) => TelemetryNominal {
            raw_temp: t.raw_temp,
            uptime: t.uptime,
            deploy_status: t.deploy_status,
        },
        Err(_) => TelemetryNominal {
            raw_temp: 0,
            uptime: 0,
            deploy_status: Default::default(),
        },
    }
}

/// The whole telemetry response: the nominal and the debug block.
#[derive(Clone, Copy, PartialEq, Eq, Structural, Debug)]
pub struct Telemetry {
    /// The nominal block.
    pub nominal: TelemetryNominal,
    /// The debug block.
    pub debug: TelemetryDebug,
}

/// The whole telemetry response from its two blocks.
pub fn telemetry(nominal: TelemetryNominal, debug: TelemetryDebug) -> (r: Telemetry)
    ensures
        r == (Telemetry { nominal, debug }),
{
    Telemetry { nominal, debug }
}

} // verus!
