//! Decoder core for flight-controller blackbox logs.
//!
//! Blackbox logs store telemetry as a dense, delta-compressed binary stream:
//! most field values are never written directly, only deltas against prior
//! frames, packed with one of several variable-width bit encodings and
//! reconstructed with a firmware-specific predictor.
//!
//! The crate is organised bottom-up:
//! - [`reader`]: the bit reader over the raw byte buffer;
//! - [`decode`]: the field-encoding decoders (variable-byte integers,
//!   zig-zag, tagged groups);
//! - [`predictor`]: the predictor engine that turns raw deltas into
//!   absolute field values;
//! - [`headers`]: header-derived constants and frame definitions;
//! - [`debug_mode`]: the firmware-variant keyed debug-mode table;
//! - [`parser`]: the streaming frame parser with corruption resync;
//! - [`options`]: plain configuration values assembled by a front end.

pub mod debug_mode;
pub mod decode;
pub mod headers;
pub mod options;
pub mod parser;
pub mod predictor;
pub mod reader;

pub use debug_mode::DebugMode;
pub use decode::as_signed;
pub use decode::as_unsigned;
pub use decode::sign_extend;
pub use decode::zig_zag_decode;
pub use decode::zig_zag_encode;
pub use decode::DecodeError;
pub use decode::Encoding;
pub use headers::FieldDef;
pub use headers::Firmware;
pub use headers::FrameDef;
pub use headers::GpsFrameDef;
pub use headers::Headers;
pub use headers::MotorOutputRange;
pub use headers::Unit;
pub use options::CurrentMeter;
pub use options::Imu;
pub use parser::DataParser;
pub use parser::ParserEvent;
pub use parser::Stats;
pub use predictor::ParseError;
pub use predictor::ParseResult;
pub use predictor::Predictor;
pub use reader::Reader;
