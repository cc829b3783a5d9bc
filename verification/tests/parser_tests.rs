//! Tests of the streaming frame parser: frame decoding, corruption
//! recovery, statistics, and idempotence.

use blackbox_log::{
    DataParser, Encoding, FieldDef, Firmware, FrameDef, GpsFrameDef, Headers, MotorOutputRange,
    ParserEvent, Predictor, Unit,
};

fn field(name: &str, signed: bool, encoding: Encoding, predictor: Predictor) -> FieldDef {
    FieldDef { name: name.to_string(), signed, encoding, predictor, unit: Unit::Unitless }
}

/// Main frames: an incrementing iteration counter and one delta-coded
/// signed value. Slow frames: one plain unsigned value.
fn simple_headers() -> Headers {
    Headers {
        firmware: Firmware::Betaflight,
        min_throttle: 1000,
        vbat_reference: 420,
        motor_output_range: MotorOutputRange::new(48, 2047),
        main_frame_def: FrameDef::new(
            vec![
                field("loopIteration", false, Encoding::Variable, Predictor::Increment),
                field("axis[0]", true, Encoding::VariableSigned, Predictor::Previous),
            ],
            None,
        ),
        slow_frame_def: FrameDef::new(
            vec![field("flightModeFlags", false, Encoding::Variable, Predictor::Zero)],
            None,
        ),
        gps_frame_def: Some(GpsFrameDef {
            fields: vec![field("GPS_coord[0]", true, Encoding::VariableSigned, Predictor::Previous)],
            home_fields: vec![],
        }),
    }
}

#[test]
fn decodes_consecutive_main_frames() {
    // 'M' it=+1 x=2 | 'M' it=+1 x=+1
    let data = vec![0x4D, 0x00, 0x04, 0x4D, 0x00, 0x02];
    let mut parser = DataParser::new(data, simple_headers());

    assert_eq!(Some(ParserEvent::Main(vec![1, 2])), parser.next());
    assert_eq!(Some(ParserEvent::Main(vec![2, 3])), parser.next());
    assert_eq!(None, parser.next());
    assert_eq!(None, parser.next());

    let stats = parser.stats();
    assert_eq!(2, stats.main_frames);
    assert_eq!(0, stats.corrupted_frames);
    assert_eq!(6, stats.bytes);
}

#[test]
fn decodes_slow_gps_and_event_frames() {
    // 'S' 5 | 'E' 7 | 'G' -3
    let data = vec![0x53, 0x05, 0x45, 0x07, 0x47, 0x05];
    let mut parser = DataParser::new(data, simple_headers());

    assert_eq!(Some(ParserEvent::Slow(vec![5])), parser.next());
    assert_eq!(Some(ParserEvent::Event(7)), parser.next());
    assert_eq!(Some(ParserEvent::Gps(vec![(-3i32) as u32])), parser.next());
    assert_eq!(None, parser.next());

    let stats = parser.stats();
    assert_eq!(0, stats.main_frames);
    assert_eq!(1, stats.slow_frames);
    assert_eq!(1, stats.gps_frames);
    assert_eq!(1, stats.events);
    assert_eq!(0, stats.corrupted_frames);
    assert_eq!(6, stats.bytes);
}

#[test]
fn resyncs_past_a_corrupt_byte_run() {
    // A well-formed frame, then a frame whose field data overflows the
    // variable-byte decoder, then another well-formed frame.
    let data = vec![
        0x4D, 0x00, 0x04, // Main [1, 2]
        0x4D, 0xFF, 0xFF, 0xFF, 0xFF, 0xFF, 0xFF, // corrupt run
        0x4D, 0x00, 0x02, // Main decoded after resync
    ];
    let mut parser = DataParser::new(data, simple_headers());

    assert_eq!(Some(ParserEvent::Main(vec![1, 2])), parser.next());
    // The skipped-frame count feeds the increment predictor: 1 + 1 + 1.
    assert_eq!(Some(ParserEvent::Main(vec![3, 3])), parser.next());
    assert_eq!(None, parser.next());

    let stats = parser.stats();
    assert_eq!(2, stats.main_frames);
    assert!(stats.corrupted_frames >= 1);
    assert_eq!(13, stats.bytes);
}

#[test]
fn counts_garbage_between_frames_once() {
    let data = vec![
        0x4D, 0x00, 0x04, // Main [1, 2]
        0x00, 0x01, 0x02, 0x03, // garbage, no marker bytes
        0x53, 0x09, // Slow [9]
    ];
    let mut parser = DataParser::new(data, simple_headers());

    assert_eq!(Some(ParserEvent::Main(vec![1, 2])), parser.next());
    assert_eq!(Some(ParserEvent::Slow(vec![9])), parser.next());
    assert_eq!(None, parser.next());
    assert_eq!(1, parser.stats().corrupted_frames);
}

#[test]
fn gps_marker_without_a_gps_definition_is_corruption() {
    let mut headers = simple_headers();
    headers.gps_frame_def = None;
    let data = vec![0x47, 0x05, 0x53, 0x09];
    let mut parser = DataParser::new(data, headers);

    // The resync scan lands on the slow marker.
    assert_eq!(Some(ParserEvent::Slow(vec![9])), parser.next());
    assert_eq!(None, parser.next());
    assert_eq!(1, parser.stats().corrupted_frames);
}

#[test]
fn truncated_final_frame_is_counted_and_parse_ends() {
    let data = vec![0x4D, 0x00, 0x04, 0x4D, 0x00];
    let mut parser = DataParser::new(data, simple_headers());

    assert_eq!(Some(ParserEvent::Main(vec![1, 2])), parser.next());
    assert_eq!(None, parser.next());
    let stats = parser.stats();
    assert_eq!(1, stats.main_frames);
    assert_eq!(1, stats.corrupted_frames);
}

#[test]
fn tagged_16_fields_inside_a_frame() {
    let headers = Headers {
        main_frame_def: FrameDef::new(
            vec![
                field("debug[0]", true, Encoding::Tagged16, Predictor::Zero),
                field("debug[1]", true, Encoding::Tagged16, Predictor::Zero),
                field("debug[2]", true, Encoding::Tagged16, Predictor::Zero),
                field("debug[3]", true, Encoding::Tagged16, Predictor::Zero),
            ],
            None,
        ),
        ..simple_headers()
    };
    let data = vec![0x4D, 0xE4, 0xF7, 0xF8, 0x00, 0x00];
    let mut parser = DataParser::new(data, headers);

    assert_eq!(
        Some(ParserEvent::Main(vec![0, (-1i32) as u32, 127, (-32768i32) as u32])),
        parser.next()
    );
    assert_eq!(None, parser.next());
    assert_eq!(6, parser.stats().bytes);
}

#[test]
fn motor_0_lookup_inside_a_frame() {
    let headers = Headers {
        main_frame_def: FrameDef::new(
            vec![
                field("motor[0]", false, Encoding::Variable, Predictor::MinMotor),
                field("motor[1]", false, Encoding::Variable, Predictor::Motor0),
            ],
            Some(0),
        ),
        ..simple_headers()
    };
    // motor[0] = 48 + 10, motor[1] = 58 + 4.
    let data = vec![0x4D, 0x0A, 0x04];
    let mut parser = DataParser::new(data, headers);

    assert_eq!(Some(ParserEvent::Main(vec![58, 62])), parser.next());
    assert_eq!(None, parser.next());
}

#[test]
fn straight_line_uses_both_history_generations() {
    let headers = Headers {
        main_frame_def: FrameDef::new(
            vec![field("alt", true, Encoding::VariableSigned, Predictor::StraightLine)],
            None,
        ),
        ..simple_headers()
    };
    // Deltas 10, 2, 0, -1 on top of the extrapolation.
    let data = vec![0x4D, 0x14, 0x4D, 0x04, 0x4D, 0x00, 0x4D, 0x01];
    let mut parser = DataParser::new(data, headers);

    assert_eq!(Some(ParserEvent::Main(vec![10])), parser.next());
    assert_eq!(Some(ParserEvent::Main(vec![12])), parser.next());
    // Extrapolation 12 + (12 - 10) = 14.
    assert_eq!(Some(ParserEvent::Main(vec![14])), parser.next());
    // 14 + (14 - 12) - 1 = 15.
    assert_eq!(Some(ParserEvent::Main(vec![15])), parser.next());
    assert_eq!(None, parser.next());
}

#[test]
fn average_2_uses_both_history_generations() {
    let headers = Headers {
        main_frame_def: FrameDef::new(
            vec![field("rssi", true, Encoding::VariableSigned, Predictor::Average2)],
            None,
        ),
        ..simple_headers()
    };
    // Deltas 6, 1, 0 on top of the average.
    let data = vec![0x4D, 0x0C, 0x4D, 0x02, 0x4D, 0x00];
    let mut parser = DataParser::new(data, headers);

    assert_eq!(Some(ParserEvent::Main(vec![6])), parser.next());
    assert_eq!(Some(ParserEvent::Main(vec![7])), parser.next());
    // Average of the last two frames: (7 + 6) / 2 = 6.
    assert_eq!(Some(ParserEvent::Main(vec![6])), parser.next());
    assert_eq!(None, parser.next());
}

#[test]
fn parse_all_collects_every_event() {
    let data = vec![0x4D, 0x00, 0x04, 0x53, 0x05, 0x4D, 0x00, 0x02];
    let mut parser = DataParser::new(data, simple_headers());
    let events = parser.parse_all();
    assert_eq!(
        vec![
            ParserEvent::Main(vec![1, 2]),
            ParserEvent::Slow(vec![5]),
            ParserEvent::Main(vec![2, 3]),
        ],
        events
    );
    assert!(parser.is_done());
}

#[test]
fn parsing_twice_yields_identical_events_and_stats() {
    let data = vec![
        0x4D, 0x00, 0x04, 0x4D, 0xFF, 0xFF, 0xFF, 0xFF, 0xFF, 0xFF, 0x53, 0x05, 0x45, 0x30,
        0x4D, 0x00, 0x02,
    ];

    let mut first = DataParser::new(data.clone(), simple_headers());
    let mut first_events = Vec::new();
    while let Some(event) = first.next() {
        first_events.push(event);
    }

    let mut second = DataParser::new(data, simple_headers());
    let mut second_events = Vec::new();
    while let Some(event) = second.next() {
        second_events.push(event);
    }

    assert_eq!(first_events, second_events);
    assert_eq!(first.stats(), second.stats());
}

#[test]
fn empty_input_yields_nothing() {
    let mut parser = DataParser::new(Vec::new(), simple_headers());
    assert_eq!(None, parser.next());
    let stats = parser.stats();
    assert_eq!(0, stats.main_frames + stats.slow_frames + stats.gps_frames + stats.events);
    assert_eq!(0, stats.corrupted_frames);
    assert_eq!(0, stats.bytes);
}
