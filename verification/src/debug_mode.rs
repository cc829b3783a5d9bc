//! The firmware-variant keyed debug-mode table.
//!
//! A raw numeric debug-mode code from the headers means a different mode
//! under each firmware family; this table maps `(code, firmware)` to the
//! mode and each mode to its display name.

use crate::headers::Firmware;
use vstd::prelude::*;

verus! {

/// A debug mode, as selected in the flight controller's configuration.
#[derive(Debug, Clone, Copy, PartialEq, Eq, Hash, Structural)]
pub enum DebugMode {
    /// `AC_CORRECTION` (Betaflight only)
    AcCorrection,
    /// `AC_ERROR` (Betaflight only)
    AcError,
    /// `ACC` (INAV only)
    Acc,
    /// `ACCELEROMETER` (Betaflight only)
    Accelerometer,
    /// `ACRO_TRAINER` (Betaflight only)
    AcroTrainer,
    /// `ADC_INTERNAL` (Betaflight only)
    AdcInternal,
    /// `AGL` (INAV only)
    Agl,
    /// `ALTITUDE`
    Altitude,
    /// `ALWAYS` (INAV only)
    Always,
    /// `ANGLERATE` (Betaflight only)
    Anglerate,
    /// `ANTI_GRAVITY` (Betaflight only)
    AntiGravity,
    /// `ATTITUDE` (Betaflight only)
    Attitude,
    /// `AUTOLEVEL` (INAV only)
    AutoLevel,
    /// `AUTOTRIM` (INAV only)
    AutoTrim,
    /// `AUTOTUNE` (INAV only)
    AutoTune,
    /// `BARO` (Betaflight only)
    Baro,
    /// `BATTERY` (Betaflight only)
    Battery,
    /// `BLACKBOX_OUTPUT` (Betaflight only)
    BlackboxOutput,
    /// `CRSF_LINK_STATISTICS_DOWN` (Betaflight only)
    CrsfLinkStatisticsDown,
    /// `CRSF_LINK_STATISTICS_PWR` (Betaflight only)
    CrsfLinkStatisticsPwr,
    /// `CRSF_LINK_STATISTICS_UPLINK` (Betaflight only)
    CrsfLinkStatisticsUplink,
    /// `CRUISE` (INAV only)
    Cruise,
    /// `CURRENT_SENSOR` (Betaflight only)
    CurrentSensor,
    /// `CYCLETIME` (Betaflight only)
    Cycletime,
    /// `D_LPF` (Betaflight only)
    DLpf,
    /// `D_MIN` (Betaflight only)
    DMin,
    /// `DSHOT_RPM_ERRORS` (Betaflight only)
    DshotRpmErrors,
    /// `DSHOT_RPM_TELEMETRY` (Betaflight only)
    DshotRpmTelemetry,
    /// `DUAL_GYRO_DIFF` (Betaflight only)
    DualGyroDiff,
    /// `DUAL_GYRO_RAW` (Betaflight only)
    DualGyroRaw,
    /// `DUAL_GYRO_SCALED` (Betaflight only)
    DualGyroScaled,
    /// `DYN_IDLE` (Betaflight only)
    DynIdle,
    /// `DYN_LPF` (Betaflight only)
    DynLpf,
    /// `DYNAMIC_GYRO_LPF` (INAV only)
    DynamicGyroLpf,
    /// `ESC_SENSOR` (Betaflight only)
    EscSensor,
    /// `ESC_SENSOR_RPM` (Betaflight only)
    EscSensorRpm,
    /// `ESC_SENSOR_TMP` (Betaflight only)
    EscSensorTmp,
    /// `FEEDFORWARD` (Betaflight only)
    Feedforward,
    /// `FEEDFORWARD_LIMIT` (Betaflight only)
    FeedforwardLimit,
    /// `FFT` (Betaflight only)
    Fft,
    /// `FFT_FREQ` (Betaflight only)
    FftFreq,
    /// `FFT_TIME` (Betaflight only)
    FftTime,
    /// `FLOW` (INAV only)
    Flow,
    /// `FLOW_RAW` (INAV only)
    FlowRaw,
    /// `FPORT` (Betaflight only)
    Fport,
    /// `GHST` (Betaflight only)
    Ghst,
    /// `GHST_MSP` (Betaflight only)
    GhstMsp,
    /// `GPS_RESCUE_HEADING` (Betaflight only)
    GpsRescueHeading,
    /// `GPS_RESCUE_THROTTLE_PID` (Betaflight only)
    GpsRescueThrottlePid,
    /// `GPS_RESCUE_TRACKING` (Betaflight only)
    GpsRescueTracking,
    /// `GPS_RESCUE_VELOCITY` (Betaflight only)
    GpsRescueVelocity,
    /// `GYRO_FILTERED` (Betaflight only)
    GyroFiltered,
    /// `GYRO_RAW` (Betaflight only)
    GyroRaw,
    /// `GYRO_SAMPLE` (Betaflight only)
    GyroSample,
    /// `GYRO_SCALED` (Betaflight only)
    GyroScaled,
    /// `ITERM_RELAX` (Betaflight only)
    ItermRelax,
    /// `LANDING` (INAV only)
    Landing,
    /// `LIDAR_TF` (Betaflight only)
    LidarTf,
    /// `MAX745_SIGNAL` (Betaflight only)
    Max745Signal,
    /// `MAX745_SPICLOCK` (Betaflight only)
    Max745Spiclock,
    /// `NAV_YAW` (INAV only)
    NavYaw,
    /// `NONE`
    NoneMode,
    /// `PCF8574` (INAV only)
    Pcf8574,
    /// `PIDLOOP` (Betaflight only)
    Pidloop,
    /// `RANGEFINDER` (Betaflight only)
    Rangefinder,
    /// `RANGEFINDER_QUALITY` (Betaflight only)
    RangefinderQuality,
    /// `RATE_DYNAMICS` (INAV only)
    RateDynamics,
    /// `RC_INTERPOLATION` (Betaflight only)
    RcInterpolation,
    /// `RC_SMOOTHING` (Betaflight only)
    RcSmoothing,
    /// `RC_SMOOTHING_RATE` (Betaflight only)
    RcSmoothingRate,
    /// `REM_FLIGHT_TIME` (INAV only)
    RemFlightTime,
    /// `RPM_FILTER` (Betaflight only)
    RpmFilter,
    /// `RTH` (Betaflight only)
    Rth,
    /// `RUNAWAY_TAKEOFF` (Betaflight only)
    RunawayTakeoff,
    /// `RX_EXPRESSLRS_PHASELOCK` (Betaflight only)
    RxExpresslrsPhaselock,
    /// `RX_EXPRESSLRS_SPI` (Betaflight only)
    RxExpresslrsSpi,
    /// `RX_FRSKY_SPI` (Betaflight only)
    RxFrskySpi,
    /// `RX_SFHSS_SPI` (Betaflight only)
    RxSfhssSpi,
    /// `RX_SIGNAL_LOSS` (Betaflight only)
    RxSignalLoss,
    /// `RX_SPEKTRUM_SPI` (Betaflight only)
    RxSpektrumSpi,
    /// `RX_STATE_TIME` (Betaflight only)
    RxStateTime,
    /// `RX_TIMING` (Betaflight only)
    RxTiming,
    /// `SAG_COMP_VOLTAGE` (INAV only)
    SagCompVoltage,
    /// `SBUS` (Betaflight only)
    Sbus,
    /// `SCHEDULER` (Betaflight only)
    Scheduler,
    /// `SCHEDULER_DETERMINISM` (Betaflight only)
    SchedulerDeterminism,
    /// `SDIO` (Betaflight only)
    Sdio,
    /// `SMARTAUDIO`
    Smartaudio,
    /// `STACK` (Betaflight only)
    Stack,
    /// `TIMING_ACCURACY` (Betaflight only)
    TimingAccuracy,
    /// `USB` (Betaflight only)
    Usb,
    /// `VIBE` (INAV only)
    Vibe,
    /// `VTX_MSP` (Betaflight only)
    VtxMsp,
    /// `VTX_TRAMP` (Betaflight only)
    VtxTramp,
}

impl DebugMode {
    /// The display name of each mode.
    pub open spec fn spec_name(self) -> Seq<char> {
        match self {
            DebugMode::AcCorrection => "AC_CORRECTION"@,
            DebugMode::AcError => "AC_ERROR"@,
            DebugMode::Acc => "ACC"@,
            DebugMode::Accelerometer => "ACCELEROMETER"@,
            DebugMode::AcroTrainer => "ACRO_TRAINER"@,
            DebugMode::AdcInternal => "ADC_INTERNAL"@,
            DebugMode::Agl => "AGL"@,
            DebugMode::Altitude => "ALTITUDE"@,
            DebugMode::Always => "ALWAYS"@,
            DebugMode::Anglerate => "ANGLERATE"@,
            DebugMode::AntiGravity => "ANTI_GRAVITY"@,
            DebugMode::Attitude => "ATTITUDE"@,
            DebugMode::AutoLevel => "AUTOLEVEL"@,
            DebugMode::AutoTrim => "AUTOTRIM"@,
            DebugMode::AutoTune => "AUTOTUNE"@,
            DebugMode::Baro => "BARO"@,
            DebugMode::Battery => "BATTERY"@,
            DebugMode::BlackboxOutput => "BLACKBOX_OUTPUT"@,
            DebugMode::CrsfLinkStatisticsDown => "CRSF_LINK_STATISTICS_DOWN"@,
            DebugMode::CrsfLinkStatisticsPwr => "CRSF_LINK_STATISTICS_PWR"@,
            DebugMode::CrsfLinkStatisticsUplink => "CRSF_LINK_STATISTICS_UPLINK"@,
            DebugMode::Cruise => "CRUISE"@,
            DebugMode::CurrentSensor => "CURRENT_SENSOR"@,
            DebugMode::Cycletime => "CYCLETIME"@,
            DebugMode::DLpf => "D_LPF"@,
            DebugMode::DMin => "D_MIN"@,
            DebugMode::DshotRpmErrors => "DSHOT_RPM_ERRORS"@,
            DebugMode::DshotRpmTelemetry => "DSHOT_RPM_TELEMETRY"@,
            DebugMode::DualGyroDiff => "DUAL_GYRO_DIFF"@,
            DebugMode::DualGyroRaw => "DUAL_GYRO_RAW"@,
            DebugMode::DualGyroScaled => "DUAL_GYRO_SCALED"@,
            DebugMode::DynIdle => "DYN_IDLE"@,
            DebugMode::DynLpf => "DYN_LPF"@,
            DebugMode::DynamicGyroLpf => "DYNAMIC_GYRO_LPF"@,
            DebugMode::EscSensor => "ESC_SENSOR"@,
            DebugMode::EscSensorRpm => "ESC_SENSOR_RPM"@,
            DebugMode::EscSensorTmp => "ESC_SENSOR_TMP"@,
            DebugMode::Feedforward => "FEEDFORWARD"@,
            DebugMode::FeedforwardLimit => "FEEDFORWARD_LIMIT"@,
            DebugMode::Fft => "FFT"@,
            DebugMode::FftFreq => "FFT_FREQ"@,
            DebugMode::FftTime => "FFT_TIME"@,
            DebugMode::Flow => "FLOW"@,
            DebugMode::FlowRaw => "FLOW_RAW"@,
            DebugMode::Fport => "FPORT"@,
            DebugMode::Ghst => "GHST"@,
            DebugMode::GhstMsp => "GHST_MSP"@,
            DebugMode::GpsRescueHeading => "GPS_RESCUE_HEADING"@,
            DebugMode::GpsRescueThrottlePid => "GPS_RESCUE_THROTTLE_PID"@,
            DebugMode::GpsRescueTracking => "GPS_RESCUE_TRACKING"@,
            DebugMode::GpsRescueVelocity => "GPS_RESCUE_VELOCITY"@,
            DebugMode::GyroFiltered => "GYRO_FILTERED"@,
            DebugMode::GyroRaw => "GYRO_RAW"@,
            DebugMode::GyroSample => "GYRO_SAMPLE"@,
            DebugMode::GyroScaled => "GYRO_SCALED"@,
            DebugMode::ItermRelax => "ITERM_RELAX"@,
            DebugMode::Landing => "LANDING"@,
            DebugMode::LidarTf => "LIDAR_TF"@,
            DebugMode::Max745Signal => "MAX745_SIGNAL"@,
            DebugMode::Max745Spiclock => "MAX745_SPICLOCK"@,
            DebugMode::NavYaw => "NAV_YAW"@,
            DebugMode::NoneMode => "NONE"@,
            DebugMode::Pcf8574 => "PCF8574"@,
            DebugMode::Pidloop => "PIDLOOP"@,
            DebugMode::Rangefinder => "RANGEFINDER"@,
            DebugMode::RangefinderQuality => "RANGEFINDER_QUALITY"@,
            DebugMode::RateDynamics => "RATE_DYNAMICS"@,
            DebugMode::RcInterpolation => "RC_INTERPOLATION"@,
            DebugMode::RcSmoothing => "RC_SMOOTHING"@,
            DebugMode::RcSmoothingRate => "RC_SMOOTHING_RATE"@,
            DebugMode::RemFlightTime => "REM_FLIGHT_TIME"@,
            DebugMode::RpmFilter => "RPM_FILTER"@,
            DebugMode::Rth => "RTH"@,
            DebugMode::RunawayTakeoff => "RUNAWAY_TAKEOFF"@,
            DebugMode::RxExpresslrsPhaselock => "RX_EXPRESSLRS_PHASELOCK"@,
            DebugMode::RxExpresslrsSpi => "RX_EXPRESSLRS_SPI"@,
            DebugMode::RxFrskySpi => "RX_FRSKY_SPI"@,
            DebugMode::RxSfhssSpi => "RX_SFHSS_SPI"@,
            DebugMode::RxSignalLoss => "RX_SIGNAL_LOSS"@,
            DebugMode::RxSpektrumSpi => "RX_SPEKTRUM_SPI"@,
            DebugMode::RxStateTime => "RX_STATE_TIME"@,
            DebugMode::RxTiming => "RX_TIMING"@,
            DebugMode::SagCompVoltage => "SAG_COMP_VOLTAGE"@,
            DebugMode::Sbus => "SBUS"@,
            DebugMode::Scheduler => "SCHEDULER"@,
            DebugMode::SchedulerDeterminism => "SCHEDULER_DETERMINISM"@,
            DebugMode::Sdio => "SDIO"@,
            DebugMode::Smartaudio => "SMARTAUDIO"@,
            DebugMode::Stack => "STACK"@,
            DebugMode::TimingAccuracy => "TIMING_ACCURACY"@,
            DebugMode::Usb => "USB"@,
            DebugMode::Vibe => "VIBE"@,
            DebugMode::VtxMsp => "VTX_MSP"@,
            DebugMode::VtxTramp => "VTX_TRAMP"@,
        }
    }

    /// The display name of this mode.
    pub fn as_name(&self) -> (r: &'static str)
        ensures
            r@ == self.spec_name(),
    {
        match self {
            DebugMode::AcCorrection => "AC_CORRECTION",
            DebugMode::AcError => "AC_ERROR",
            DebugMode::Acc => "ACC",
            DebugMode::Accelerometer => "ACCELEROMETER",
            DebugMode::AcroTrainer => "ACRO_TRAINER",
            DebugMode::AdcInternal => "ADC_INTERNAL",
            DebugMode::Agl => "AGL",
            DebugMode::Altitude => "ALTITUDE",
            DebugMode::Always => "ALWAYS",
            DebugMode::Anglerate => "ANGLERATE",
            DebugMode::AntiGravity => "ANTI_GRAVITY",
            DebugMode::Attitude => "ATTITUDE",
            DebugMode::AutoLevel => "AUTOLEVEL",
            DebugMode::AutoTrim => "AUTOTRIM",
            DebugMode::AutoTune => "AUTOTUNE",
            DebugMode::Baro => "BARO",
            DebugMode::Battery => "BATTERY",
            DebugMode::BlackboxOutput => "BLACKBOX_OUTPUT",
            DebugMode::CrsfLinkStatisticsDown => "CRSF_LINK_STATISTICS_DOWN",
            DebugMode::CrsfLinkStatisticsPwr => "CRSF_LINK_STATISTICS_PWR",
            DebugMode::CrsfLinkStatisticsUplink => "CRSF_LINK_STATISTICS_UPLINK",
            DebugMode::Cruise => "CRUISE",
            DebugMode::CurrentSensor => "CURRENT_SENSOR",
            DebugMode::Cycletime => "CYCLETIME",
            DebugMode::DLpf => "D_LPF",
            DebugMode::DMin => "D_MIN",
            DebugMode::DshotRpmErrors => "DSHOT_RPM_ERRORS",
            DebugMode::DshotRpmTelemetry => "DSHOT_RPM_TELEMETRY",
            DebugMode::DualGyroDiff => "DUAL_GYRO_DIFF",
            DebugMode::DualGyroRaw => "DUAL_GYRO_RAW",
            DebugMode::DualGyroScaled => "DUAL_GYRO_SCALED",
            DebugMode::DynIdle => "DYN_IDLE",
            DebugMode::DynLpf => "DYN_LPF",
            DebugMode::DynamicGyroLpf => "DYNAMIC_GYRO_LPF",
            DebugMode::EscSensor => "ESC_SENSOR",
            DebugMode::EscSensorRpm => "ESC_SENSOR_RPM",
            DebugMode::EscSensorTmp => "ESC_SENSOR_TMP",
            DebugMode::Feedforward => "FEEDFORWARD",
            DebugMode::FeedforwardLimit => "FEEDFORWARD_LIMIT",
            DebugMode::Fft => "FFT",
            DebugMode::FftFreq => "FFT_FREQ",
            DebugMode::FftTime => "FFT_TIME",
            DebugMode::Flow => "FLOW",
            DebugMode::FlowRaw => "FLOW_RAW",
            DebugMode::Fport => "FPORT",
            DebugMode::Ghst => "GHST",
            DebugMode::GhstMsp => "GHST_MSP",
            DebugMode::GpsRescueHeading => "GPS_RESCUE_HEADING",
            DebugMode::GpsRescueThrottlePid => "GPS_RESCUE_THROTTLE_PID",
            DebugMode::GpsRescueTracking => "GPS_RESCUE_TRACKING",
            DebugMode::GpsRescueVelocity => "GPS_RESCUE_VELOCITY",
            DebugMode::GyroFiltered => "GYRO_FILTERED",
            DebugMode::GyroRaw => "GYRO_RAW",
            DebugMode::GyroSample => "GYRO_SAMPLE",
            DebugMode::GyroScaled => "GYRO_SCALED",
            DebugMode::ItermRelax => "ITERM_RELAX",
            DebugMode::Landing => "LANDING",
            DebugMode::LidarTf => "LIDAR_TF",
            DebugMode::Max745Signal => "MAX745_SIGNAL",
            DebugMode::Max745Spiclock => "MAX745_SPICLOCK",
            DebugMode::NavYaw => "NAV_YAW",
            DebugMode::NoneMode => "NONE",
            DebugMode::Pcf8574 => "PCF8574",
            DebugMode::Pidloop => "PIDLOOP",
            DebugMode::Rangefinder => "RANGEFINDER",
            DebugMode::RangefinderQuality => "RANGEFINDER_QUALITY",
            DebugMode::RateDynamics => "RATE_DYNAMICS",
            DebugMode::RcInterpolation => "RC_INTERPOLATION",
            DebugMode::RcSmoothing => "RC_SMOOTHING",
            DebugMode::RcSmoothingRate => "RC_SMOOTHING_RATE",
            DebugMode::RemFlightTime => "REM_FLIGHT_TIME",
            DebugMode::RpmFilter => "RPM_FILTER",
            DebugMode::Rth => "RTH",
            DebugMode::RunawayTakeoff => "RUNAWAY_TAKEOFF",
            DebugMode::RxExpresslrsPhaselock => "RX_EXPRESSLRS_PHASELOCK",
            DebugMode::RxExpresslrsSpi => "RX_EXPRESSLRS_SPI",
            DebugMode::RxFrskySpi => "RX_FRSKY_SPI",
            DebugMode::RxSfhssSpi => "RX_SFHSS_SPI",
            DebugMode::RxSignalLoss => "RX_SIGNAL_LOSS",
            DebugMode::RxSpektrumSpi => "RX_SPEKTRUM_SPI",
            DebugMode::RxStateTime => "RX_STATE_TIME",
            DebugMode::RxTiming => "RX_TIMING",
            DebugMode::SagCompVoltage => "SAG_COMP_VOLTAGE",
            DebugMode::Sbus => "SBUS",
            DebugMode::Scheduler => "SCHEDULER",
            DebugMode::SchedulerDeterminism => "SCHEDULER_DETERMINISM",
            DebugMode::Sdio => "SDIO",
            DebugMode::Smartaudio => "SMARTAUDIO",
            DebugMode::Stack => "STACK",
            DebugMode::TimingAccuracy => "TIMING_ACCURACY",
            DebugMode::Usb => "USB",
            DebugMode::Vibe => "VIBE",
            DebugMode::VtxMsp => "VTX_MSP",
            DebugMode::VtxTramp => "VTX_TRAMP",
        }
    }

    /// The mode a raw header code selects under each firmware family;
    /// codes outside the table select none.
    pub open spec fn spec_new(raw: u32, fw: Firmware) -> Option<DebugMode> {
        if raw == 0 {
            Some(DebugMode::NoneMode)
        } else if raw == 1 {
            if fw is Betaflight {
                Some(DebugMode::Cycletime)
            } else {
                Some(DebugMode::Agl)
            }
        } else if raw == 2 {
            if fw is Betaflight {
                Some(DebugMode::Battery)
            } else {
                Some(DebugMode::FlowRaw)
            }
        } else if raw == 3 {
            if fw is Betaflight {
                Some(DebugMode::GyroFiltered)
            } else {
                Some(DebugMode::Flow)
            }
        } else if raw == 4 {
            if fw is Betaflight {
                Some(DebugMode::Accelerometer)
            } else {
                Some(DebugMode::Always)
            }
        } else if raw == 5 {
            if fw is Betaflight {
                Some(DebugMode::Pidloop)
            } else {
                Some(DebugMode::SagCompVoltage)
            }
        } else if raw == 6 {
            if fw is Betaflight {
                Some(DebugMode::GyroScaled)
            } else {
                Some(DebugMode::Vibe)
            }
        } else if raw == 7 {
            if fw is Betaflight {
                Some(DebugMode::RcInterpolation)
            } else {
                Some(DebugMode::Cruise)
            }
        } else if raw == 8 {
            if fw is Betaflight {
                Some(DebugMode::Anglerate)
            } else {
                Some(DebugMode::RemFlightTime)
            }
        } else if raw == 9 {
            if fw is Betaflight {
                Some(DebugMode::EscSensor)
            } else {
                Some(DebugMode::Smartaudio)
            }
        } else if raw == 10 {
            if fw is Betaflight {
                Some(DebugMode::Scheduler)
            } else {
                Some(DebugMode::Acc)
            }
        } else if raw == 11 {
            if fw is Betaflight {
                Some(DebugMode::Stack)
            } else {
                Some(DebugMode::NavYaw)
            }
        } else if raw == 12 {
            if fw is Betaflight {
                Some(DebugMode::EscSensorRpm)
            } else {
                Some(DebugMode::Pcf8574)
            }
        } else if raw == 13 {
            if fw is Betaflight {
                Some(DebugMode::EscSensorTmp)
            } else {
                Some(DebugMode::DynamicGyroLpf)
            }
        } else if raw == 14 {
            if fw is Betaflight {
                Some(DebugMode::Altitude)
            } else {
                Some(DebugMode::AutoLevel)
            }
        } else if raw == 15 {
            if fw is Betaflight {
                Some(DebugMode::Fft)
            } else {
                Some(DebugMode::Altitude)
            }
        } else if raw == 16 {
            if fw is Betaflight {
                Some(DebugMode::FftTime)
            } else {
                Some(DebugMode::AutoTrim)
            }
        } else if raw == 17 {
            if fw is Betaflight {
                Some(DebugMode::FftFreq)
            } else {
                Some(DebugMode::AutoTune)
            }
        } else if raw == 18 {
            if fw is Betaflight {
                Some(DebugMode::RxFrskySpi)
            } else {
                Some(DebugMode::RateDynamics)
            }
        } else if raw == 19 {
            if fw is Betaflight {
                Some(DebugMode::RxSfhssSpi)
            } else {
                Some(DebugMode::Landing)
            }
        } else if raw == 20 {
            if fw is Betaflight {
                Some(DebugMode::GyroRaw)
            } else {
                None
            }
        } else if raw == 21 {
            if fw is Betaflight {
                Some(DebugMode::DualGyroRaw)
            } else {
                None
            }
        } else if raw == 22 {
            if fw is Betaflight {
                Some(DebugMode::DualGyroDiff)
            } else {
                None
            }
        } else if raw == 23 {
            if fw is Betaflight {
                Some(DebugMode::Max745Signal)
            } else {
                None
            }
        } else if raw == 24 {
            if fw is Betaflight {
                Some(DebugMode::Max745Spiclock)
            } else {
                None
            }
        } else if raw == 25 {
            if fw is Betaflight {
                Some(DebugMode::Sbus)
            } else {
                None
            }
        } else if raw == 26 {
            if fw is Betaflight {
                Some(DebugMode::Fport)
            } else {
                None
            }
        } else if raw == 27 {
            if fw is Betaflight {
                Some(DebugMode::Rangefinder)
            } else {
                None
            }
        } else if raw == 28 {
            if fw is Betaflight {
                Some(DebugMode::RangefinderQuality)
            } else {
                None
            }
        } else if raw == 29 {
            if fw is Betaflight {
                Some(DebugMode::LidarTf)
            } else {
                None
            }
        } else if raw == 30 {
            if fw is Betaflight {
                Some(DebugMode::AdcInternal)
            } else {
                None
            }
        } else if raw == 31 {
            if fw is Betaflight {
                Some(DebugMode::RunawayTakeoff)
            } else {
                None
            }
        } else if raw == 32 {
            if fw is Betaflight {
                Some(DebugMode::Sdio)
            } else {
                None
            }
        } else if raw == 33 {
            if fw is Betaflight {
                Some(DebugMode::CurrentSensor)
            } else {
                None
            }
        } else if raw == 34 {
            if fw is Betaflight {
                Some(DebugMode::Usb)
            } else {
                None
            }
        } else if raw == 35 {
            if fw is Betaflight {
                Some(DebugMode::Smartaudio)
            } else {
                None
            }
        } else if raw == 36 {
            if fw is Betaflight {
                Some(DebugMode::Rth)
            } else {
                None
            }
        } else if raw == 37 {
            if fw is Betaflight {
                Some(DebugMode::ItermRelax)
            } else {
                None
            }
        } else if raw == 38 {
            if fw is Betaflight {
                Some(DebugMode::AcroTrainer)
            } else {
                None
            }
        } else if raw == 39 {
            if fw is Betaflight {
                Some(DebugMode::RcSmoothing)
            } else {
                None
            }
        } else if raw == 40 {
            if fw is Betaflight {
                Some(DebugMode::RxSignalLoss)
            } else {
                None
            }
        } else if raw == 41 {
            if fw is Betaflight {
                Some(DebugMode::RcSmoothingRate)
            } else {
                None
            }
        } else if raw == 42 {
            if fw is Betaflight {
                Some(DebugMode::AntiGravity)
            } else {
                None
            }
        } else if raw == 43 {
            if fw is Betaflight {
                Some(DebugMode::DynLpf)
            } else {
                None
            }
        } else if raw == 44 {
            if fw is Betaflight {
                Some(DebugMode::RxSpektrumSpi)
            } else {
                None
            }
        } else if raw == 45 {
            if fw is Betaflight {
                Some(DebugMode::DshotRpmTelemetry)
            } else {
                None
            }
        } else if raw == 46 {
            if fw is Betaflight {
                Some(DebugMode::RpmFilter)
            } else {
                None
            }
        } else if raw == 47 {
            if fw is Betaflight {
                Some(DebugMode::DMin)
            } else {
                None
            }
        } else if raw == 48 {
            if fw is Betaflight {
                Some(DebugMode::AcCorrection)
            } else {
                None
            }
        } else if raw == 49 {
            if fw is Betaflight {
                Some(DebugMode::AcError)
            } else {
                None
            }
        } else if raw == 50 {
            if fw is Betaflight {
                Some(DebugMode::DualGyroScaled)
            } else {
                None
            }
        } else if raw == 51 {
            if fw is Betaflight {
                Some(DebugMode::DshotRpmErrors)
            } else {
                None
            }
        } else if raw == 52 {
            if fw is Betaflight {
                Some(DebugMode::CrsfLinkStatisticsUplink)
            } else {
                None
            }
        } else if raw == 53 {
            if fw is Betaflight {
                Some(DebugMode::CrsfLinkStatisticsPwr)
            } else {
                None
            }
        } else if raw == 54 {
            if fw is Betaflight {
                Some(DebugMode::CrsfLinkStatisticsDown)
            } else {
                None
            }
        } else if raw == 55 {
            if fw is Betaflight {
                Some(DebugMode::Baro)
            } else {
                None
            }
        } else if raw == 56 {
            if fw is Betaflight {
                Some(DebugMode::GpsRescueThrottlePid)
            } else {
                None
            }
        } else if raw == 57 {
            if fw is Betaflight {
                Some(DebugMode::DynIdle)
            } else {
                None
            }
        } else if raw == 58 {
            if fw is Betaflight {
                Some(DebugMode::FeedforwardLimit)
            } else {
                None
            }
        } else if raw == 59 {
            if fw is Betaflight {
                Some(DebugMode::Feedforward)
            } else {
                None
            }
        } else if raw == 60 {
            if fw is Betaflight {
                Some(DebugMode::BlackboxOutput)
            } else {
                None
            }
        } else if raw == 61 {
            if fw is Betaflight {
                Some(DebugMode::GyroSample)
            } else {
                None
            }
        } else if raw == 62 {
            if fw is Betaflight {
                Some(DebugMode::RxTiming)
            } else {
                None
            }
        } else if raw == 63 {
            if fw is Betaflight {
                Some(DebugMode::DLpf)
            } else {
                None
            }
        } else if raw == 64 {
            if fw is Betaflight {
                Some(DebugMode::VtxTramp)
            } else {
                None
            }
        } else if raw == 65 {
            if fw is Betaflight {
                Some(DebugMode::Ghst)
            } else {
                None
            }
        } else if raw == 66 {
            if fw is Betaflight {
                Some(DebugMode::GhstMsp)
            } else {
                None
            }
        } else if raw == 67 {
            if fw is Betaflight {
                Some(DebugMode::SchedulerDeterminism)
            } else {
                None
            }
        } else if raw == 68 {
            if fw is Betaflight {
                Some(DebugMode::TimingAccuracy)
            } else {
                None
            }
        } else if raw == 69 {
            if fw is Betaflight {
                Some(DebugMode::RxExpresslrsSpi)
            } else {
                None
            }
        } else if raw == 70 {
            if fw is Betaflight {
                Some(DebugMode::RxExpresslrsPhaselock)
            } else {
                None
            }
        } else if raw == 71 {
            if fw is Betaflight {
                Some(DebugMode::RxStateTime)
            } else {
                None
            }
        } else if raw == 72 {
            if fw is Betaflight {
                Some(DebugMode::GpsRescueVelocity)
            } else {
                None
            }
        } else if raw == 73 {
            if fw is Betaflight {
                Some(DebugMode::GpsRescueHeading)
            } else {
                None
            }
        } else if raw == 74 {
            if fw is Betaflight {
                Some(DebugMode::GpsRescueTracking)
            } else {
                None
            }
        } else if raw == 75 {
            if fw is Betaflight {
                Some(DebugMode::Attitude)
            } else {
                None
            }
        } else if raw == 76 {
            if fw is Betaflight {
                Some(DebugMode::VtxMsp)
            } else {
                None
            }
        } else {
            None
        }
    }

    /// Looks up the mode a raw header code selects under `fw`.
    pub fn new(raw: u32, fw: Firmware) -> (r: Option<DebugMode>)
        ensures
            r == DebugMode::spec_new(raw, fw),
    {
        match raw {
            0u32 => Some(DebugMode::NoneMode),
            1u32 => if fw.is_betaflight() {
                Some(DebugMode::Cycletime)
            } else {
                Some(DebugMode::Agl)
            },
            2u32 => if fw.is_betaflight() {
                Some(DebugMode::Battery)
            } else {
                Some(DebugMode::FlowRaw)
            },
            3u32 => if fw.is_betaflight() {
                Some(DebugMode::GyroFiltered)
            } else {
                Some(DebugMode::Flow)
            },
            4u32 => if fw.is_betaflight() {
                Some(DebugMode::Accelerometer)
            } else {
                Some(DebugMode::Always)
            },
            5u32 => if fw.is_betaflight() {
                Some(DebugMode::Pidloop)
            } else {
                Some(DebugMode::SagCompVoltage)
            },
            6u32 => if fw.is_betaflight() {
                Some(DebugMode::GyroScaled)
            } else {
                Some(DebugMode::Vibe)
            },
            7u32 => if fw.is_betaflight() {
                Some(DebugMode::RcInterpolation)
            } else {
                Some(DebugMode::Cruise)
            },
            8u32 => if fw.is_betaflight() {
                Some(DebugMode::Anglerate)
            } else {
                Some(DebugMode::RemFlightTime)
            },
            9u32 => if fw.is_betaflight() {
                Some(DebugMode::EscSensor)
            } else {
                Some(DebugMode::Smartaudio)
            },
            10u32 => if fw.is_betaflight() {
                Some(DebugMode::Scheduler)
            } else {
                Some(DebugMode::Acc)
            },
            11u32 => if fw.is_betaflight() {
                Some(DebugMode::Stack)
            } else {
                Some(DebugMode::NavYaw)
            },
            12u32 => if fw.is_betaflight() {
                Some(DebugMode::EscSensorRpm)
            } else {
                Some(DebugMode::Pcf8574)
            },
            13u32 => if fw.is_betaflight() {
                Some(DebugMode::EscSensorTmp)
            } else {
                Some(DebugMode::DynamicGyroLpf)
            },
            14u32 => if fw.is_betaflight() {
                Some(DebugMode::Altitude)
            } else {
                Some(DebugMode::AutoLevel)
            },
            15u32 => if fw.is_betaflight() {
                Some(DebugMode::Fft)
            } else {
                Some(DebugMode::Altitude)
            },
            16u32 => if fw.is_betaflight() {
                Some(DebugMode::FftTime)
            } else {
                Some(DebugMode::AutoTrim)
            },
            17u32 => if fw.is_betaflight() {
                Some(DebugMode::FftFreq)
            } else {
                Some(DebugMode::AutoTune)
            },
            18u32 => if fw.is_betaflight() {
                Some(DebugMode::RxFrskySpi)
            } else {
                Some(DebugMode::RateDynamics)
            },
            19u32 => if fw.is_betaflight() {
                Some(DebugMode::RxSfhssSpi)
            } else {
                Some(DebugMode::Landing)
            },
            20u32 => if fw.is_betaflight() {
                Some(DebugMode::GyroRaw)
            } else {
                None
            },
            21u32 => if fw.is_betaflight() {
                Some(DebugMode::DualGyroRaw)
            } else {
                None
            },
            22u32 => if fw.is_betaflight() {
                Some(DebugMode::DualGyroDiff)
            } else {
                None
            },
            23u32 => if fw.is_betaflight() {
                Some(DebugMode::Max745Signal)
            } else {
                None
            },
            24u32 => if fw.is_betaflight() {
                Some(DebugMode::Max745Spiclock)
            } else {
                None
            },
            25u32 => if fw.is_betaflight() {
                Some(DebugMode::Sbus)
            } else {
                None
            },
            26u32 => if fw.is_betaflight() {
                Some(DebugMode::Fport)
            } else {
                None
            },
            27u32 => if fw.is_betaflight() {
                Some(DebugMode::Rangefinder)
            } else {
                None
            },
            28u32 => if fw.is_betaflight() {
                Some(DebugMode::RangefinderQuality)
            } else {
                None
            },
            29u32 => if fw.is_betaflight() {
                Some(DebugMode::LidarTf)
            } else {
                None
            },
            30u32 => if fw.is_betaflight() {
                Some(DebugMode::AdcInternal)
            } else {
                None
            },
            31u32 => if fw.is_betaflight() {
                Some(DebugMode::RunawayTakeoff)
            } else {
                None
            },
            32u32 => if fw.is_betaflight() {
                Some(DebugMode::Sdio)
            } else {
                None
            },
            33u32 => if fw.is_betaflight() {
                Some(DebugMode::CurrentSensor)
            } else {
                None
            },
            34u32 => if fw.is_betaflight() {
                Some(DebugMode::Usb)
            } else {
                None
            },
            35u32 => if fw.is_betaflight() {
                Some(DebugMode::Smartaudio)
            } else {
                None
            },
            36u32 => if fw.is_betaflight() {
                Some(DebugMode::Rth)
            } else {
                None
            },
            37u32 => if fw.is_betaflight() {
                Some(DebugMode::ItermRelax)
            } else {
                None
            },
            38u32 => if fw.is_betaflight() {
                Some(DebugMode::AcroTrainer)
            } else {
                None
            },
            39u32 => if fw.is_betaflight() {
                Some(DebugMode::RcSmoothing)
            } else {
                None
            },
            40u32 => if fw.is_betaflight() {
                Some(DebugMode::RxSignalLoss)
            } else {
                None
            },
            41u32 => if fw.is_betaflight() {
                Some(DebugMode::RcSmoothingRate)
            } else {
                None
            },
            42u32 => if fw.is_betaflight() {
                Some(DebugMode::AntiGravity)
            } else {
                None
            },
            43u32 => if fw.is_betaflight() {
                Some(DebugMode::DynLpf)
            } else {
                None
            },
            44u32 => if fw.is_betaflight() {
                Some(DebugMode::RxSpektrumSpi)
            } else {
                None
            },
            45u32 => if fw.is_betaflight() {
                Some(DebugMode::DshotRpmTelemetry)
            } else {
                None
            },
            46u32 => if fw.is_betaflight() {
                Some(DebugMode::RpmFilter)
            } else {
                None
            },
            47u32 => if fw.is_betaflight() {
                Some(DebugMode::DMin)
            } else {
                None
            },
            48u32 => if fw.is_betaflight() {
                Some(DebugMode::AcCorrection)
            } else {
                None
            },
            49u32 => if fw.is_betaflight() {
                Some(DebugMode::AcError)
            } else {
                None
            },
            50u32 => if fw.is_betaflight() {
                Some(DebugMode::DualGyroScaled)
            } else {
                None
            },
            51u32 => if fw.is_betaflight() {
                Some(DebugMode::DshotRpmErrors)
            } else {
                None
            },
            52u32 => if fw.is_betaflight() {
                Some(DebugMode::CrsfLinkStatisticsUplink)
            } else {
                None
            },
            53u32 => if fw.is_betaflight() {
                Some(DebugMode::CrsfLinkStatisticsPwr)
            } else {
                None
            },
            54u32 => if fw.is_betaflight() {
                Some(DebugMode::CrsfLinkStatisticsDown)
            } else {
                None
            },
            55u32 => if fw.is_betaflight() {
                Some(DebugMode::Baro)
            } else {
                None
            },
            56u32 => if fw.is_betaflight() {
                Some(DebugMode::GpsRescueThrottlePid)
            } else {
                None
            },
            57u32 => if fw.is_betaflight() {
                Some(DebugMode::DynIdle)
            } else {
                None
            },
            58u32 => if fw.is_betaflight() {
                Some(DebugMode::FeedforwardLimit)
            } else {
                None
            },
            59u32 => if fw.is_betaflight() {
                Some(DebugMode::Feedforward)
            } else {
                None
            },
            60u32 => if fw.is_betaflight() {
                Some(DebugMode::BlackboxOutput)
            } else {
                None
            },
            61u32 => if fw.is_betaflight() {
                Some(DebugMode::GyroSample)
            } else {
                None
            },
            62u32 => if fw.is_betaflight() {
                Some(DebugMode::RxTiming)
            } else {
                None
            },
            63u32 => if fw.is_betaflight() {
                Some(DebugMode::DLpf)
            } else {
                None
            },
            64u32 => if fw.is_betaflight() {
                Some(DebugMode::VtxTramp)
            } else {
                None
            },
            65u32 => if fw.is_betaflight() {
                Some(DebugMode::Ghst)
            } else {
                None
            },
            66u32 => if fw.is_betaflight() {
                Some(DebugMode::GhstMsp)
            } else {
                None
            },
            67u32 => if fw.is_betaflight() {
                Some(DebugMode::SchedulerDeterminism)
            } else {
                None
            },
            68u32 => if fw.is_betaflight() {
                Some(DebugMode::TimingAccuracy)
            } else {
                None
            },
            69u32 => if fw.is_betaflight() {
                Some(DebugMode::RxExpresslrsSpi)
            } else {
                None
            },
            70u32 => if fw.is_betaflight() {
                Some(DebugMode::RxExpresslrsPhaselock)
            } else {
                None
            },
            71u32 => if fw.is_betaflight() {
                Some(DebugMode::RxStateTime)
            } else {
                None
            },
            72u32 => if fw.is_betaflight() {
                Some(DebugMode::GpsRescueVelocity)
            } else {
                None
            },
            73u32 => if fw.is_betaflight() {
                Some(DebugMode::GpsRescueHeading)
            } else {
                None
            },
            74u32 => if fw.is_betaflight() {
                Some(DebugMode::GpsRescueTracking)
            } else {
                None
            },
            75u32 => if fw.is_betaflight() {
                Some(DebugMode::Attitude)
            } else {
                None
            },
            76u32 => if fw.is_betaflight() {
                Some(DebugMode::VtxMsp)
            } else {
                None
            },
            _ => None,
        }
    }
}

} // verus!
