//! Tests of the firmware-variant keyed debug-mode table.

use blackbox_log::{DebugMode, Firmware};

#[test]
fn code_zero_means_no_debug_under_both_firmwares() {
    assert_eq!(Some(DebugMode::NoneMode), DebugMode::new(0, Firmware::Betaflight));
    assert_eq!(Some(DebugMode::NoneMode), DebugMode::new(0, Firmware::Inav));
}

#[test]
fn shared_codes_split_by_firmware() {
    assert_eq!(Some(DebugMode::Cycletime), DebugMode::new(1, Firmware::Betaflight));
    assert_eq!(Some(DebugMode::Agl), DebugMode::new(1, Firmware::Inav));
    assert_eq!(Some(DebugMode::Battery), DebugMode::new(2, Firmware::Betaflight));
    assert_eq!(Some(DebugMode::FlowRaw), DebugMode::new(2, Firmware::Inav));
    assert_eq!(Some(DebugMode::Altitude), DebugMode::new(14, Firmware::Betaflight));
    assert_eq!(Some(DebugMode::AutoLevel), DebugMode::new(14, Firmware::Inav));
}

#[test]
fn codes_past_a_firmware_table_select_nothing() {
    assert_eq!(Some(DebugMode::GyroRaw), DebugMode::new(20, Firmware::Betaflight));
    assert_eq!(None, DebugMode::new(20, Firmware::Inav));
    assert_eq!(Some(DebugMode::VtxMsp), DebugMode::new(76, Firmware::Betaflight));
    assert_eq!(None, DebugMode::new(76, Firmware::Inav));
    assert_eq!(None, DebugMode::new(77, Firmware::Betaflight));
    assert_eq!(None, DebugMode::new(9999, Firmware::Betaflight));
}

#[test]
fn names_follow_the_firmware_conventions() {
    assert_eq!("NONE", DebugMode::new(0, Firmware::Inav).unwrap().as_name());
    assert_eq!("AC_CORRECTION", DebugMode::new(48, Firmware::Betaflight).unwrap().as_name());
    assert_eq!("CYCLETIME", DebugMode::Cycletime.as_name());
    assert_eq!("SAG_COMP_VOLTAGE", DebugMode::SagCompVoltage.as_name());
    assert_eq!("RX_EXPRESSLRS_PHASELOCK", DebugMode::RxExpresslrsPhaselock.as_name());
}

#[test]
fn smartaudio_is_shared_under_different_codes() {
    assert_eq!(Some(DebugMode::Smartaudio), DebugMode::new(35, Firmware::Betaflight));
    assert_eq!(Some(DebugMode::Smartaudio), DebugMode::new(9, Firmware::Inav));
}
