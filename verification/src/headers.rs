//! Header-derived constants and frame definitions.
//!
//! A separate collaborator parses the log's header text; the decode
//! pipeline only reads the values collected here: predictor constants, the
//! firmware variant, and the ordered field definitions of each frame kind.

use crate::decode::Encoding;
use crate::predictor::{ParseError, Predictor};
use vstd::prelude::*;

verus! {

/// The firmware family that wrote the log. A discriminator: it changes the
/// meaning of raw numeric codes (such as debug modes), not the decode
/// arithmetic.
#[derive(Debug, Clone, Copy, PartialEq, Eq, Hash, Structural)]
pub enum Firmware {
    Betaflight,
    Inav,
}

impl Firmware {
    pub fn is_betaflight(&self) -> (r: bool)
        ensures
            r == (self is Betaflight),
    {
        matches!(self, Firmware::Betaflight)
    }

    pub fn is_inav(&self) -> (r: bool)
        ensures
            r == (self is Inav),
    {
        matches!(self, Firmware::Inav)
    }
}

/// The configured motor output range; its minimum feeds the min-motor
/// predictor.
#[derive(Debug, Clone, Copy, PartialEq, Eq, Structural)]
pub struct MotorOutputRange {
    pub min: u16,
    pub max: u16,
}

impl MotorOutputRange {
    pub fn new(min: u16, max: u16) -> (r: MotorOutputRange)
        ensures
            r.min == min,
            r.max == max,
    {
        MotorOutputRange { min, max }
    }

    pub fn min(&self) -> (r: u16)
        ensures
            r == self.min,
    {
        self.min
    }
}

/// The semantic unit tag of a field; carried through to callers unchanged.
#[derive(Debug, Clone, Copy, PartialEq, Eq, Structural)]
pub enum Unit {
    FrameTime,
    Amperage,
    Voltage,
    Acceleration,
    Rotation,
    FlightMode,
    State,
    FailsafePhase,
    Boolean,
    GpsCoordinate,
    Altitude,
    Velocity,
    GpsHeading,
    Unitless,
}

/// One field of a frame: its name, signedness, storage encoding,
/// reconstruction predictor and unit tag. Immutable once built from
/// headers.
#[derive(Debug, Clone)]
pub struct FieldDef {
    pub name: String,
    pub signed: bool,
    pub encoding: Encoding,
    pub predictor: Predictor,
    pub unit: Unit,
}

/// The ordered field definitions of one frame kind. Field order is
/// load-bearing: cross-field predictors rely on earlier fields of the same
/// frame being decoded first.
#[derive(Debug, Clone)]
pub struct FrameDef {
    /// The fields, in decode order.
    pub fields: Vec<FieldDef>,
    /// Index of the first motor output field, when the frame has one; the
    /// motor-0 predictor reads it.
    pub motor_0: Option<usize>,
}

impl FrameDef {
    /// The motor-0 lookup: the already-decoded value at the motor-0 field
    /// index, or an invalid-header-reference error when the frame has no
    /// motor field or it has not been decoded yet.
    pub open spec fn spec_get_motor_0(self, current: Seq<u32>) -> Result<u32, ParseError> {
        match self.motor_0 {
            Some(i) => if i < current.len() {
                Ok(current[i as int])
            } else {
                Err(ParseError::InvalidHeaderReference)
            },
            None => Err(ParseError::InvalidHeaderReference),
        }
    }

    pub fn new(fields: Vec<FieldDef>, motor_0: Option<usize>) -> (r: FrameDef)
        ensures
            r.fields == fields,
            r.motor_0 == motor_0,
    {
        FrameDef { fields, motor_0 }
    }

    pub fn len(&self) -> (r: usize)
        ensures
            r == self.fields@.len(),
    {
        self.fields.len()
    }

    /// Reads the decoded motor-0 value out of the fields decoded so far in
    /// the frame under construction.
    pub fn get_motor_0_from(&self, current: &[u32]) -> (r: Result<u32, ParseError>)
        ensures
            r == self.spec_get_motor_0(current@),
    {
        match self.motor_0 {
            Some(i) => if i < current.len() {
                Ok(current[i])
            } else {
                Err(ParseError::InvalidHeaderReference)
            },
            None => Err(ParseError::InvalidHeaderReference),
        }
    }
}

/// The GPS frame definitions: the position frame decoded by the parser,
/// and the distinct home-reference field set consumed by home-position
/// predictors (currently stubbed).
#[derive(Debug, Clone)]
pub struct GpsFrameDef {
    /// Fields of the position frame, in decode order.
    pub fields: Vec<FieldDef>,
    /// Fields of the home-reference frame, in decode order.
    pub home_fields: Vec<FieldDef>,
}

/// Everything the decode pipeline reads from the parsed log headers.
#[derive(Debug, Clone)]
pub struct Headers {
    pub firmware: Firmware,
    /// Minimum throttle; the min-throttle predictor's constant.
    pub min_throttle: u16,
    /// Reference battery voltage; the vbat-reference predictor's constant.
    pub vbat_reference: u16,
    /// Motor output range; its minimum is the min-motor predictor's
    /// constant.
    pub motor_output_range: MotorOutputRange,
    pub main_frame_def: FrameDef,
    pub slow_frame_def: FrameDef,
    pub gps_frame_def: Option<GpsFrameDef>,
}

/// The motor-0 ordering contract: every field reconstructed by the motor-0
/// predictor stands after the motor-0 field, so its lookup always finds an
/// already-decoded value.
pub open spec fn motor0_wf(fields: Seq<FieldDef>, motor_0: Option<usize>) -> bool {
    forall|j: int|
        0 <= j < fields.len() && (#[trigger] fields[j]).predictor is Motor0 ==> motor_0 is Some
            && motor_0->0 < j
}

/// Checks the motor-0 ordering contract over one field list.
fn motor0_ok(fields: &Vec<FieldDef>, motor_0: Option<usize>) -> (r: bool)
    ensures
        r == motor0_wf(fields@, motor_0),
{
    let mut j: usize = 0;
    while j < fields.len()
        invariant
            j <= fields@.len(),
            forall|k: int|
                0 <= k < j && (#[trigger] fields@[k]).predictor is Motor0 ==> motor_0 is Some
                    && motor_0->0 < k,
        decreases fields@.len() - j,
    {
        if matches!(fields[j].predictor, crate::predictor::Predictor::Motor0) {
            match motor_0 {
                Some(i) => if i >= j {
                    return false;
                },
                None => {
                    return false;
                },
            }
        }
        j = j + 1;
    }
    true
}

impl Headers {
    /// A well-formed set of headers: each frame definition honours the
    /// motor-0 ordering contract, so no decode can hit an invalid header
    /// reference. Violating it marks the header-derived definitions
    /// themselves as broken.
    pub open spec fn valid(self) -> bool {
        &&& motor0_wf(self.main_frame_def.fields@, self.main_frame_def.motor_0)
        &&& motor0_wf(self.slow_frame_def.fields@, self.main_frame_def.motor_0)
        &&& match self.gps_frame_def {
            Some(g) => motor0_wf(g.fields@, self.main_frame_def.motor_0),
            None => true,
        }
    }

    /// Checks that these headers satisfy the parser's precondition.
    pub fn is_valid(&self) -> (r: bool)
        ensures
            r == self.valid(),
    {
        let main_ok = motor0_ok(&self.main_frame_def.fields, self.main_frame_def.motor_0);
        let slow_ok = motor0_ok(&self.slow_frame_def.fields, self.main_frame_def.motor_0);
        let gps_ok = match &self.gps_frame_def {
            Some(g) => motor0_ok(&g.fields, self.main_frame_def.motor_0),
            None => true,
        };
        main_ok && slow_ok && gps_ok
    }
}

} // verus!
