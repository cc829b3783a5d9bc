//! Tests of the front-end configuration decisions.

use blackbox_log::options::{current_meter_config, imu_config, verbosity_level};

#[test]
fn current_meter_needs_a_switch_or_an_override() {
    assert!(current_meter_config(false, None, None).is_none());

    let c = current_meter_config(true, None, None).unwrap();
    assert_eq!(None, c.scale);
    assert_eq!(None, c.offset);

    let c = current_meter_config(false, Some(400), None).unwrap();
    assert_eq!(Some(400), c.scale);
    assert_eq!(None, c.offset);

    let c = current_meter_config(false, None, Some(-10)).unwrap();
    assert_eq!(Some(-10), c.offset);
}

#[test]
fn imu_needs_a_switch_or_a_sub_option() {
    assert!(imu_config(false, false, false).is_none());

    let i = imu_config(true, false, false).unwrap();
    assert!(!i.deg_in_names);
    assert!(!i.ignore_mag);

    let i = imu_config(false, true, false).unwrap();
    assert!(i.deg_in_names);

    let i = imu_config(false, false, true).unwrap();
    assert!(i.ignore_mag);
}

#[test]
fn verbosity_counts_flags_and_clamps() {
    // The debug switch forces the trace level.
    assert_eq!(5, verbosity_level(true, 0, 9, 3));
    // No flags: the default.
    assert_eq!(3, verbosity_level(false, 0, 0, 3));
    // Verbose raises, quiet lowers.
    assert_eq!(5, verbosity_level(false, 2, 0, 3));
    assert_eq!(1, verbosity_level(false, 0, 2, 3));
    // Clamped to the available levels on both ends.
    assert_eq!(5, verbosity_level(false, 7, 0, 3));
    assert_eq!(0, verbosity_level(false, 0, 9, 3));
}
