//! The antenna-subsystem service's response assembly, exercised with the
//! same readings and expected values as the service's own suite: a mocked
//! hardware API hands back one `Result` per reading, and the assembled
//! response substitutes defaults for failed readings.

use file_protocol::telemetry::{
    antenna_stats, noop, telemetry, telemetry_debug, telemetry_nominal, AntennaStats,
    AntsError, AntsTelemetry, DeployStatus, TelemetryDebug, TelemetryNominal,
};

#[test]
fn noop_good() {
    let response = noop(Ok(()));

    assert_eq!(response.errors, "");
    assert_eq!(response.success, true);
}

#[test]
fn noop_bad() {
    // An unconfigured subsystem reports a configuration error.
    let response = noop(Err(AntsError::ConfigError));

    assert_eq!(response.errors, "Configuration error");
    assert_eq!(response.success, false);
}

#[test]
fn debug_telem_good() {
    let debug = telemetry_debug(
        antenna_stats(Ok(1), Ok(11)),
        antenna_stats(Ok(2), Ok(22)),
        antenna_stats(Ok(3), Ok(33)),
        antenna_stats(Ok(4), Ok(44)),
    );

    let expected = TelemetryDebug {
        ant_1: AntennaStats { activation_count: 1, activation_time: 11 },
        ant_2: AntennaStats { activation_count: 2, activation_time: 22 },
        ant_3: AntennaStats { activation_count: 3, activation_time: 33 },
        ant_4: AntennaStats { activation_count: 4, activation_time: 44 },
    };

    assert_eq!(debug, expected);
}

#[test]
fn debug_telem_bad() {
    let debug = telemetry_debug(
        antenna_stats(Err(AntsError::GenericError), Err(AntsError::GenericError)),
        antenna_stats(Err(AntsError::GenericError), Err(AntsError::GenericError)),
        antenna_stats(Err(AntsError::GenericError), Err(AntsError::GenericError)),
        antenna_stats(Err(AntsError::GenericError), Err(AntsError::GenericError)),
    );

    let expected = TelemetryDebug {
        ant_1: AntennaStats { activation_count: 0, activation_time: 0 },
        ant_2: AntennaStats { activation_count: 0, activation_time: 0 },
        ant_3: AntennaStats { activation_count: 0, activation_time: 0 },
        ant_4: AntennaStats { activation_count: 0, activation_time: 0 },
    };

    assert_eq!(debug, expected);
}

#[test]
fn nominal_telem_good() {
    let nominal = AntsTelemetry {
        raw_temp: 15,
        uptime: 35,
        deploy_status: DeployStatus {
            sys_armed: true,
            ant_1_active: true,
            ant_4_not_deployed: false,
            ..Default::default()
        },
    };

    let result = telemetry_nominal(Ok(nominal));

    let expected = TelemetryNominal {
        raw_temp: 15,
        uptime: 35,
        deploy_status: DeployStatus {
            sys_burn_active: false,
            sys_ignore_deploy: false,
            sys_armed: true,
            ant_1_not_deployed: false,
            ant_1_stopped_time: false,
            ant_1_active: true,
            ant_2_not_deployed: false,
            ant_2_stopped_time: false,
            ant_2_active: false,
            ant_3_not_deployed: false,
            ant_3_stopped_time: false,
            ant_3_active: false,
            ant_4_not_deployed: false,
            ant_4_stopped_time: false,
            ant_4_active: false,
        },
    };

    assert_eq!(result, expected);
}

#[test]
fn nominal_telem_nondefault() {
    let nominal = AntsTelemetry {
        raw_temp: 15,
        uptime: 35,
        deploy_status: DeployStatus {
            sys_burn_active: true,
            sys_ignore_deploy: true,
            sys_armed: true,
            ant_1_not_deployed: true,
            ant_1_stopped_time: true,
            ant_1_active: true,
            ant_2_not_deployed: true,
            ant_2_stopped_time: true,
            ant_2_active: true,
            ant_3_not_deployed: true,
            ant_3_stopped_time: true,
            ant_3_active: true,
            ant_4_not_deployed: true,
            ant_4_stopped_time: true,
            ant_4_active: true,
        },
    };

    let result = telemetry_nominal(Ok(nominal.clone()));

    assert_eq!(result.raw_temp, 15);
    assert_eq!(result.uptime, 35);
    assert_eq!(result.deploy_status, nominal.deploy_status);
}

#[test]
fn nominal_telem_bad() {
    let result = telemetry_nominal(Err(AntsError::GenericError));

    let expected = TelemetryNominal {
        raw_temp: 0,
        uptime: 0,
        deploy_status: Default::default(),
    };

    assert_eq!(result, expected);
}

#[test]
fn telemetry_full() {
    let nominal = AntsTelemetry {
        raw_temp: 15,
        uptime: 35,
        deploy_status: DeployStatus {
            sys_armed: true,
            ant_1_active: true,
            ant_4_not_deployed: false,
            ..Default::default()
        },
    };

    let full = telemetry(
        telemetry_nominal(Ok(nominal.clone())),
        telemetry_debug(
            antenna_stats(Ok(1), Ok(11)),
            antenna_stats(Ok(2), Ok(22)),
            antenna_stats(Ok(3), Ok(33)),
            antenna_stats(Ok(4), Ok(44)),
        ),
    );

    assert_eq!(full.debug.ant_1, AntennaStats { activation_count: 1, activation_time: 11 });
    assert_eq!(full.debug.ant_2, AntennaStats { activation_count: 2, activation_time: 22 });
    assert_eq!(full.debug.ant_3, AntennaStats { activation_count: 3, activation_time: 33 });
    assert_eq!(full.debug.ant_4, AntennaStats { activation_count: 4, activation_time: 44 });
    assert_eq!(full.nominal.raw_temp, 15);
    assert_eq!(full.nominal.uptime, 35);
    assert_eq!(full.nominal.deploy_status.sys_armed, true);
    assert_eq!(full.nominal.deploy_status.ant_1_active, true);
    assert_eq!(full.nominal.deploy_status.ant_4_not_deployed, false);
    assert_eq!(full.nominal.deploy_status.sys_burn_active, false);
    assert_eq!(full.nominal.deploy_status.sys_ignore_deploy, false);
}
