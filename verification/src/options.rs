//! Plain configuration values assembled by a command-line front end.
//!
//! The front end parses flags; the decisions about what the flags mean
//! (when a simulation is enabled, which verbosity level wins) live here.

use vstd::prelude::*;

verus! {

/// Configuration of the simulated virtual current meter.
#[derive(Debug, Clone)]
pub struct CurrentMeter {
    /// Overrides the current meter scale.
    pub scale: Option<i16>,
    /// Overrides the current meter offset.
    pub offset: Option<i16>,
}

impl Default for CurrentMeter {
    fn default() -> (r: Self)
        ensures
            r.scale is None,
            r.offset is None,
    {
        CurrentMeter { scale: None, offset: None }
    }
}

/// Configuration of the simulated inertial measurement unit.
#[derive(Debug, Clone)]
pub struct Imu {
    /// Includes a degrees marker in the tilt/roll/heading header.
    pub deg_in_names: bool,
    /// Ignores the magnetometer when computing heading.
    pub ignore_mag: bool,
}

impl Default for Imu {
    fn default() -> (r: Self)
        ensures
            !r.deg_in_names,
            !r.ignore_mag,
    {
        Imu { deg_in_names: false, ignore_mag: false }
    }
}

/// The current-meter simulation runs when its switch is set or either
/// override is given.
pub open spec fn spec_current_meter_config(
    meter: bool,
    scale: Option<i16>,
    offset: Option<i16>,
) -> Option<CurrentMeter> {
    if meter || scale is Some || offset is Some {
        Some(CurrentMeter { scale, offset })
    } else {
        None
    }
}

/// Decides whether the current-meter simulation is enabled, from its
/// switch and the two overrides (either override implies the switch).
pub fn current_meter_config(meter: bool, scale: Option<i16>, offset: Option<i16>) -> (r: Option<
    CurrentMeter,
>)
    ensures
        r == spec_current_meter_config(meter, scale, offset),
{
    if meter || scale.is_some() || offset.is_some() {
        Some(CurrentMeter { scale, offset })
    } else {
        None
    }
}

/// The IMU simulation runs when its switch or either sub-option is set.
pub open spec fn spec_imu_config(imu: bool, deg_in_names: bool, ignore_mag: bool) -> Option<Imu> {
    if imu || deg_in_names || ignore_mag {
        Some(Imu { deg_in_names, ignore_mag })
    } else {
        None
    }
}

/// Decides whether the IMU simulation is enabled, from its switch and the
/// two sub-options (either sub-option implies the switch).
pub fn imu_config(imu: bool, deg_in_names: bool, ignore_mag: bool) -> (r: Option<Imu>)
    ensures
        r == spec_imu_config(imu, deg_in_names, ignore_mag),
{
    if imu || deg_in_names || ignore_mag {
        Some(Imu { deg_in_names, ignore_mag })
    } else {
        None
    }
}

/// The number of verbosity levels (off, error, warn, info, debug, trace).
pub const VERBOSITY_LEVELS: usize = 6;

/// The debug switch forces the highest level; otherwise each verbose flag
/// raises the default by one and each quiet flag lowers it, clamped to the
/// available levels.
pub open spec fn spec_verbosity_level(
    debug: bool,
    verbose: usize,
    quiet: usize,
    default_level: usize,
) -> int {
    if debug {
        VERBOSITY_LEVELS - 1
    } else {
        let raised = verbose + default_level;
        let lowered = if raised >= quiet {
            raised - quiet
        } else {
            0
        };
        if lowered <= VERBOSITY_LEVELS - 1 {
            lowered
        } else {
            VERBOSITY_LEVELS - 1
        }
    }
}

/// Picks the verbosity level index from the flag counts.
pub fn verbosity_level(debug: bool, verbose: usize, quiet: usize, default_level: usize) -> (r:
    usize)
    requires
        default_level < VERBOSITY_LEVELS,
        verbose + default_level <= usize::MAX,
    ensures
        r as int == spec_verbosity_level(debug, verbose, quiet, default_level),
        r < VERBOSITY_LEVELS,
{
    if debug {
        VERBOSITY_LEVELS - 1
    } else {
        let raised = verbose + default_level;
        let lowered = if raised >= quiet {
            raised - quiet
        } else {
            0
        };
        if lowered <= VERBOSITY_LEVELS - 1 {
            lowered
        } else {
            VERBOSITY_LEVELS - 1
        }
    }
}

} // verus!
