//! The predictor engine.
//!
//! A stored field is a raw delta; a predictor reconstructs the absolute
//! value from frame history and header constants. All arithmetic is 32-bit
//! with wraparound, signed or unsigned as the field's encoding says,
//! matching the embedded firmware's native integer width.

use crate::decode::{spec_as_signed, spec_as_unsigned, as_signed, as_unsigned};
use crate::headers::Headers;
use vstd::prelude::*;

verus! {

/// The one fatal decode-time error: a predictor needs header state that is
/// absent or out of range, which means the header-derived frame definition
/// itself is broken (not that a data frame is corrupted).
#[derive(Debug, Clone, Copy, PartialEq, Eq, Structural)]
pub enum ParseError {
    InvalidHeaderReference,
}

pub type ParseResult<T> = Result<T, ParseError>;

/// Truncating division by two (toward zero), as the firmware computes
/// signed averages.
pub open spec fn div2_trunc(x: int) -> int {
    if x >= 0 {
        x / 2
    } else {
        -((-x) / 2)
    }
}

/// Linear extrapolation from the two previous values: `last + (last -
/// last_last)`; when the extrapolated value does not fit the 32-bit signed
/// width, falls back to `last` rather than wrapping. Absent history decays
/// to `last`, then to 0.
pub open spec fn spec_straight_line_i32(last: Option<i32>, last_last: Option<i32>) -> i32 {
    match (last, last_last) {
        (Some(l), Some(ll)) => {
            let ext = 2 * (l as int) - (ll as int);
            if i32::MIN <= ext <= i32::MAX {
                ext as i32
            } else {
                l
            }
        },
        (Some(l), None) => l,
        (None, _) => 0,
    }
}

/// Linear extrapolation in the 32-bit unsigned domain, with the same
/// fall-back-to-`last` rule on overflow or underflow.
pub open spec fn spec_straight_line_u32(last: Option<u32>, last_last: Option<u32>) -> u32 {
    match (last, last_last) {
        (Some(l), Some(ll)) => {
            let ext = 2 * (l as int) - (ll as int);
            if 0 <= ext <= u32::MAX {
                ext as u32
            } else {
                l
            }
        },
        (Some(l), None) => l,
        (None, _) => 0,
    }
}

/// Linear extrapolation in the 8-bit signed domain, with the same
/// fall-back-to-`last` rule.
pub open spec fn spec_straight_line_i8(last: Option<i8>, last_last: Option<i8>) -> i8 {
    match (last, last_last) {
        (Some(l), Some(ll)) => {
            let ext = 2 * (l as int) - (ll as int);
            if i8::MIN <= ext <= i8::MAX {
                ext as i8
            } else {
                l
            }
        },
        (Some(l), None) => l,
        (None, _) => 0,
    }
}

/// The average of the two previous values, truncated toward zero; computed
/// in doubled width, so it always fits back in 32 bits and needs no
/// fallback. Absent history decays as for the straight line.
pub open spec fn spec_average_2_signed(last: Option<i32>, last_last: Option<i32>) -> i32 {
    let l: i32 = match last {
        Some(l) => l,
        None => 0,
    };
    match last_last {
        Some(ll) => div2_trunc(l + ll) as i32,
        None => l,
    }
}

/// The unsigned average of the two previous values.
pub open spec fn spec_average_2_unsigned(last: Option<u32>, last_last: Option<u32>) -> u32 {
    let l: u32 = match last {
        Some(l) => l,
        None => 0,
    };
    match last_last {
        Some(ll) => ((l + ll) / 2) as u32,
        None => l,
    }
}

/// Extrapolates the next 32-bit signed value from the last two.
pub fn straight_line_i32(last: Option<i32>, last_last: Option<i32>) -> (r: i32)
    ensures
        r == spec_straight_line_i32(last, last_last),
{
    match (last, last_last) {
        (Some(l), Some(ll)) => {
            let ext: i64 = 2 * (l as i64) - (ll as i64);
            if ext >= i32::MIN as i64 && ext <= i32::MAX as i64 {
                ext as i32
            } else {
                l
            }
        },
        (Some(l), None) => l,
        (None, _) => 0,
    }
}

/// Extrapolates the next 32-bit unsigned value from the last two.
pub fn straight_line_u32(last: Option<u32>, last_last: Option<u32>) -> (r: u32)
    ensures
        r == spec_straight_line_u32(last, last_last),
{
    match (last, last_last) {
        (Some(l), Some(ll)) => {
            let ext: i64 = 2 * (l as i64) - (ll as i64);
            if ext >= 0 && ext <= u32::MAX as i64 {
                ext as u32
            } else {
                l
            }
        },
        (Some(l), None) => l,
        (None, _) => 0,
    }
}

/// Extrapolates the next 8-bit signed value from the last two; the small
/// domain makes the overflow fallback easy to exercise.
pub fn straight_line_i8(last: Option<i8>, last_last: Option<i8>) -> (r: i8)
    ensures
        r == spec_straight_line_i8(last, last_last),
{
    match (last, last_last) {
        (Some(l), Some(ll)) => {
            let ext: i16 = 2 * (l as i16) - (ll as i16);
            if ext >= i8::MIN as i16 && ext <= i8::MAX as i16 {
                ext as i8
            } else {
                l
            }
        },
        (Some(l), None) => l,
        (None, _) => 0,
    }
}

/// Averages the last two 32-bit signed values, truncating toward zero.
pub fn average_2_signed(last: Option<i32>, last_last: Option<i32>) -> (r: i32)
    ensures
        r == spec_average_2_signed(last, last_last),
{
    let l: i32 = match last {
        Some(l) => l,
        None => 0,
    };
    match last_last {
        Some(ll) => {
            let sum: i64 = l as i64 + ll as i64;
            let avg = sum / 2;
            avg as i32
        },
        None => l,
    }
}

/// Averages the last two 32-bit unsigned values.
pub fn average_2_unsigned(last: Option<u32>, last_last: Option<u32>) -> (r: u32)
    ensures
        r == spec_average_2_unsigned(last, last_last),
{
    let l: u32 = match last {
        Some(l) => l,
        None => 0,
    };
    match last_last {
        Some(ll) => {
            let sum: u64 = l as u64 + ll as u64;
            let avg = sum / 2;
            avg as u32
        },
        None => l,
    }
}

/// A reconstruction rule turning a stored delta into an absolute field
/// value using frame history and header constants.
#[derive(Debug, Clone, Copy, PartialEq, Eq, Hash, Structural)]
pub enum Predictor {
    /// No prediction: the stored word is the value.
    Zero,
    /// The value of the same field in the previous frame.
    Previous,
    /// Linear extrapolation from the two previous frames.
    StraightLine,
    /// Average of the two previous frames.
    Average2,
    /// The minimum-throttle header constant.
    MinThrottle,
    /// The already-decoded motor-0 value of the frame under construction.
    Motor0,
    /// A counter that advances by one per frame, including frames lost to
    /// corruption.
    Increment,
    /// Home latitude reference; not implemented, predicts 0.
    HomeLat,
    /// The constant 1500, the neutral RC-stick reference.
    FifteenHundred,
    /// The reference battery voltage header constant.
    VBatReference,
    /// Time of the last main frame; not implemented, predicts 0.
    LastMainFrameTime,
    /// The minimum of the configured motor output range.
    MinMotor,
}

impl Predictor {
    /// The predictor for a raw header code, in code order; codes past the
    /// table are unknown.
    pub open spec fn spec_from_raw(raw: u8) -> Option<Predictor> {
        if raw == 0 {
            Some(Predictor::Zero)
        } else if raw == 1 {
            Some(Predictor::Previous)
        } else if raw == 2 {
            Some(Predictor::StraightLine)
        } else if raw == 3 {
            Some(Predictor::Average2)
        } else if raw == 4 {
            Some(Predictor::MinThrottle)
        } else if raw == 5 {
            Some(Predictor::Motor0)
        } else if raw == 6 {
            Some(Predictor::Increment)
        } else if raw == 7 {
            Some(Predictor::HomeLat)
        } else if raw == 8 {
            Some(Predictor::FifteenHundred)
        } else if raw == 9 {
            Some(Predictor::VBatReference)
        } else if raw == 10 {
            Some(Predictor::LastMainFrameTime)
        } else if raw == 11 {
            Some(Predictor::MinMotor)
        } else {
            None
        }
    }

    /// Looks up the predictor for a raw header code.
    pub fn from_raw(raw: u8) -> (r: Option<Predictor>)
        ensures
            r == Predictor::spec_from_raw(raw),
    {
        match raw {
            0u8 => Some(Predictor::Zero),
            1u8 => Some(Predictor::Previous),
            2u8 => Some(Predictor::StraightLine),
            3u8 => Some(Predictor::Average2),
            4u8 => Some(Predictor::MinThrottle),
            5u8 => Some(Predictor::Motor0),
            6u8 => Some(Predictor::Increment),
            7u8 => Some(Predictor::HomeLat),
            8u8 => Some(Predictor::FifteenHundred),
            9u8 => Some(Predictor::VBatReference),
            10u8 => Some(Predictor::LastMainFrameTime),
            11u8 => Some(Predictor::MinMotor),
            _ => None,
        }
    }

    /// The difference this predictor adds to the stored word, or the
    /// invalid-header-reference error for a motor-0 lookup that cannot be
    /// satisfied. The two stubbed predictors contribute 0.
    pub open spec fn spec_diff(
        self,
        headers: Headers,
        signed: bool,
        current: Seq<u32>,
        last: Option<u32>,
        last_last: Option<u32>,
        skipped_frames: u32,
    ) -> Result<u32, ParseError> {
        match self {
            Predictor::Zero => Ok(0u32),
            Predictor::Previous => Ok(
                match last {
                    Some(l) => l,
                    None => 0u32,
                },
            ),
            Predictor::StraightLine => Ok(
                if signed {
                    spec_as_unsigned(
                        spec_straight_line_i32(opt_signed(last), opt_signed(last_last)),
                    )
                } else {
                    spec_straight_line_u32(last, last_last)
                },
            ),
            Predictor::Average2 => Ok(
                if signed {
                    spec_as_unsigned(spec_average_2_signed(opt_signed(last), opt_signed(last_last)))
                } else {
                    spec_average_2_unsigned(last, last_last)
                },
            ),
            Predictor::MinThrottle => Ok(headers.min_throttle as u32),
            Predictor::Motor0 => headers.main_frame_def.spec_get_motor_0(current),
            Predictor::Increment => Ok(
                (match last {
                    Some(l) => l,
                    None => 0u32,
                }).wrapping_add(skipped_frames).wrapping_add(1),
            ),
            Predictor::FifteenHundred => Ok(1500u32),
            Predictor::VBatReference => Ok(headers.vbat_reference as u32),
            Predictor::MinMotor => Ok(headers.motor_output_range.min as u32),
            Predictor::HomeLat | Predictor::LastMainFrameTime => Ok(0u32),
        }
    }

    /// The reconstructed field value: the stored word plus the predictor's
    /// difference, with 32-bit wraparound (the bit pattern is the same
    /// whether the field is read back signed or unsigned).
    pub open spec fn spec_apply(
        self,
        headers: Headers,
        value: u32,
        signed: bool,
        current: Seq<u32>,
        last: Option<u32>,
        last_last: Option<u32>,
        skipped_frames: u32,
    ) -> Result<u32, ParseError> {
        match self.spec_diff(headers, signed, current, last, last_last, skipped_frames) {
            Ok(diff) => Ok(value.wrapping_add(diff)),
            Err(e) => Err(e),
        }
    }

    /// Reconstructs a field value from its stored word, the frame history
    /// and the header constants.
    pub fn apply(
        self,
        headers: &Headers,
        value: u32,
        signed: bool,
        current: &[u32],
        last: Option<u32>,
        last_last: Option<u32>,
        skipped_frames: u32,
    ) -> (r: ParseResult<u32>)
        ensures
            r == self.spec_apply(*headers, value, signed, current@, last, last_last, skipped_frames),
    {
        let diff: u32 = match self {
            Predictor::Zero => 0,
            Predictor::Previous => last.unwrap_or(0),
            Predictor::StraightLine => {
                if signed {
                    as_unsigned(straight_line_i32(map_signed(last), map_signed(last_last)))
                } else {
                    straight_line_u32(last, last_last)
                }
            },
            Predictor::Average2 => {
                if signed {
                    as_unsigned(average_2_signed(map_signed(last), map_signed(last_last)))
                } else {
                    average_2_unsigned(last, last_last)
                }
            },
            Predictor::MinThrottle => headers.min_throttle as u32,
            Predictor::Motor0 => {
                match headers.main_frame_def.get_motor_0_from(current) {
                    Ok(v) => v,
                    Err(e) => {
                        return Err(e);
                    },
                }
            },
            Predictor::Increment => last.unwrap_or(0).wrapping_add(skipped_frames).wrapping_add(
                1,
            ),
            Predictor::FifteenHundred => 1500,
            Predictor::VBatReference => headers.vbat_reference as u32,
            Predictor::MinMotor => headers.motor_output_range.min() as u32,
            Predictor::HomeLat | Predictor::LastMainFrameTime => 0,
        };
        Ok(value.wrapping_add(diff))
    }
}

/// The words of the frame history reinterpreted as signed values.
pub open spec fn opt_signed(v: Option<u32>) -> Option<i32> {
    match v {
        Some(x) => Some(spec_as_signed(x)),
        None => None,
    }
}

/// Reinterprets an optional history word as signed.
fn map_signed(v: Option<u32>) -> (r: Option<i32>)
    ensures
        r == opt_signed(v),
{
    match v {
        Some(x) => Some(as_signed(x)),
        None => None,
    }
}

} // verus!
