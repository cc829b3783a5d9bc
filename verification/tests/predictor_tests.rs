//! Tests of the predictor engine.

use blackbox_log::predictor::{
    average_2_signed as lib_average_2_signed, average_2_unsigned as lib_average_2_unsigned,
    straight_line_i8,
};
use blackbox_log::{
    as_unsigned, FieldDef, Firmware, FrameDef, Headers, MotorOutputRange, ParseError, Predictor,
    Encoding, Unit,
};

fn field(name: &str, predictor: Predictor) -> FieldDef {
    FieldDef {
        name: name.to_string(),
        signed: false,
        encoding: Encoding::Variable,
        predictor,
        unit: Unit::Unitless,
    }
}

fn headers(motor_0: Option<usize>) -> Headers {
    Headers {
        firmware: Firmware::Betaflight,
        min_throttle: 1000,
        vbat_reference: 420,
        motor_output_range: MotorOutputRange::new(48, 2047),
        main_frame_def: FrameDef::new(
            vec![field("motor[0]", Predictor::MinMotor), field("motor[1]", Predictor::Motor0)],
            motor_0,
        ),
        slow_frame_def: FrameDef::new(vec![], None),
        gps_frame_def: None,
    }
}

#[test]
fn straight_line() {
    assert_eq!(0, straight_line_i8(None, None));
    assert_eq!(10, straight_line_i8(Some(10), None));
    assert_eq!(-2, straight_line_i8(Some(-2), None));
    assert_eq!(14, straight_line_i8(Some(12), Some(10)));
    assert_eq!(8, straight_line_i8(Some(10), Some(12)));
    // Underflow falls back to the last value.
    assert_eq!(0, straight_line_i8(Some(0), Some(i8::MIN)));
    // Overflow falls back to the last value.
    assert_eq!(126, straight_line_i8(Some(126), Some(0)));
}

#[test]
fn average_2_signed() {
    assert_eq!(0, lib_average_2_signed(None, None));
    assert_eq!(-1, lib_average_2_signed(Some(-1), None));
    assert_eq!(0, lib_average_2_signed(Some(2), Some(-1)));
    // Doubled-width arithmetic keeps the overflowing sum exact.
    assert_eq!(0x4000_0000, lib_average_2_signed(Some(i32::MAX), Some(1)));
}

#[test]
fn average_2_unsigned() {
    assert_eq!(0, lib_average_2_unsigned(None, None));
    assert_eq!(1, lib_average_2_unsigned(Some(1), None));
    assert_eq!(6, lib_average_2_unsigned(Some(2), Some(10)));
    assert_eq!(0x8000_0000, lib_average_2_unsigned(Some(u32::MAX), Some(1)));
}

#[test]
fn apply_zero_returns_the_raw_value() {
    let h = headers(Some(0));
    assert_eq!(Ok(42), Predictor::Zero.apply(&h, 42, false, &[], None, None, 0));
}

#[test]
fn apply_previous_adds_the_last_value() {
    let h = headers(Some(0));
    assert_eq!(Ok(7), Predictor::Previous.apply(&h, 7, false, &[], None, None, 0));
    assert_eq!(Ok(12), Predictor::Previous.apply(&h, 7, false, &[], Some(5), None, 0));
}

#[test]
fn apply_straight_line_signed_falls_back_on_overflow() {
    let h = headers(Some(0));
    // Extrapolation 2*MAX - 0 overflows: the difference falls back to last.
    let last = Some(as_unsigned(i32::MAX));
    let last_last = Some(0);
    assert_eq!(
        Ok(as_unsigned(i32::MAX)),
        Predictor::StraightLine.apply(&h, 0, true, &[], last, last_last, 0)
    );
    // Plain extrapolation: 12 + (12 - 10) = 14.
    assert_eq!(
        Ok(14),
        Predictor::StraightLine.apply(&h, 0, true, &[], Some(12), Some(10), 0)
    );
}

#[test]
fn apply_average_2_unsigned_halves_the_sum() {
    let h = headers(Some(0));
    assert_eq!(Ok(6), Predictor::Average2.apply(&h, 0, false, &[], Some(2), Some(10), 0));
}

#[test]
fn apply_header_constants() {
    let h = headers(Some(0));
    assert_eq!(Ok(1000), Predictor::MinThrottle.apply(&h, 0, false, &[], None, None, 0));
    assert_eq!(Ok(420), Predictor::VBatReference.apply(&h, 0, false, &[], None, None, 0));
    assert_eq!(Ok(48), Predictor::MinMotor.apply(&h, 0, false, &[], None, None, 0));
    assert_eq!(Ok(1500), Predictor::FifteenHundred.apply(&h, 0, false, &[], None, None, 0));
}

#[test]
fn apply_motor_0_reads_the_frame_under_construction() {
    let h = headers(Some(0));
    let current = [1048u32];
    assert_eq!(Ok(1058), Predictor::Motor0.apply(&h, 10, false, &current, None, None, 0));
}

#[test]
fn apply_motor_0_without_a_motor_field_is_an_invalid_header_reference() {
    let h = headers(None);
    assert_eq!(
        Err(ParseError::InvalidHeaderReference),
        Predictor::Motor0.apply(&h, 10, false, &[1048], None, None, 0)
    );
    // Not yet decoded: same failure.
    let h = headers(Some(0));
    assert_eq!(
        Err(ParseError::InvalidHeaderReference),
        Predictor::Motor0.apply(&h, 10, false, &[], None, None, 0)
    );
}

#[test]
fn apply_increment_counts_skipped_frames() {
    let h = headers(Some(0));
    assert_eq!(Ok(1), Predictor::Increment.apply(&h, 0, false, &[], None, None, 0));
    assert_eq!(Ok(7), Predictor::Increment.apply(&h, 0, false, &[], Some(4), None, 2));
    // 32-bit wraparound is preserved.
    assert_eq!(Ok(0), Predictor::Increment.apply(&h, 0, false, &[], Some(u32::MAX), None, 0));
}

#[test]
fn apply_stubbed_predictors_contribute_nothing() {
    let h = headers(Some(0));
    assert_eq!(Ok(9), Predictor::HomeLat.apply(&h, 9, false, &[], Some(3), None, 0));
    assert_eq!(Ok(9), Predictor::LastMainFrameTime.apply(&h, 9, false, &[], Some(3), None, 0));
}

#[test]
fn predictor_from_raw_follows_the_header_codes() {
    assert_eq!(Some(Predictor::Zero), Predictor::from_raw(0));
    assert_eq!(Some(Predictor::Previous), Predictor::from_raw(1));
    assert_eq!(Some(Predictor::StraightLine), Predictor::from_raw(2));
    assert_eq!(Some(Predictor::Average2), Predictor::from_raw(3));
    assert_eq!(Some(Predictor::MinThrottle), Predictor::from_raw(4));
    assert_eq!(Some(Predictor::Motor0), Predictor::from_raw(5));
    assert_eq!(Some(Predictor::Increment), Predictor::from_raw(6));
    assert_eq!(Some(Predictor::HomeLat), Predictor::from_raw(7));
    assert_eq!(Some(Predictor::FifteenHundred), Predictor::from_raw(8));
    assert_eq!(Some(Predictor::VBatReference), Predictor::from_raw(9));
    assert_eq!(Some(Predictor::LastMainFrameTime), Predictor::from_raw(10));
    assert_eq!(Some(Predictor::MinMotor), Predictor::from_raw(11));
    assert_eq!(None, Predictor::from_raw(12));
}

#[test]
fn headers_validity_checks_motor_0_ordering() {
    assert!(headers(Some(0)).is_valid());
    assert!(!headers(None).is_valid());
    // Motor-0 lookup pointing at or after its consumer is invalid.
    assert!(!headers(Some(1)).is_valid());
}
