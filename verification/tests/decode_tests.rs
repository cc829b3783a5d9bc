//! Tests of the bit reader and the field-encoding decoders.

use blackbox_log::decode::{
    encode_variable, encode_variable_signed, negative_14_bit, tagged_16, tagged_32,
    tagged_variable, variable, variable_signed,
};
use blackbox_log::{sign_extend as lib_sign_extend, zig_zag_decode as lib_zig_zag_decode, zig_zag_encode, DecodeError, Encoding, Reader};

#[test]
fn sign_extend() {
    assert_eq!(0, lib_sign_extend::<2>(0b00));
    assert_eq!(1, lib_sign_extend::<2>(0b01));
    assert_eq!(-2, lib_sign_extend::<2>(0b10));
    assert_eq!(-1, lib_sign_extend::<2>(0b11));
}

#[test]
fn zig_zag_decode() {
    assert_eq!(0, lib_zig_zag_decode(0));
    assert_eq!(-1, lib_zig_zag_decode(1));
    assert_eq!(1, lib_zig_zag_decode(2));
    assert_eq!(-2, lib_zig_zag_decode(3));

    assert_eq!(i32::MIN, lib_zig_zag_decode(u32::MAX));
    assert_eq!(i32::MAX, lib_zig_zag_decode(u32::MAX - 1));
}

#[test]
fn zig_zag_round_trip_samples() {
    for x in [0, 1, -1, 2, -2, 1000, -1000, i32::MAX, i32::MIN] {
        assert_eq!(x, lib_zig_zag_decode(zig_zag_encode(x)));
    }
}

#[test]
fn sign_extend_wider_widths() {
    assert_eq!(-1, lib_sign_extend::<4>(0xF));
    assert_eq!(7, lib_sign_extend::<4>(0x7));
    assert_eq!(-128, lib_sign_extend::<8>(0x80));
    assert_eq!(127, lib_sign_extend::<8>(0x7F));
    assert_eq!(-32768, lib_sign_extend::<16>(0x8000));
    assert_eq!(-1, lib_sign_extend::<32>(u32::MAX));
    // Bits above the field width are ignored.
    assert_eq!(1, lib_sign_extend::<2>(0b101));
}

#[test]
fn reader_reads_bits_most_significant_first() {
    let mut r = Reader::new(vec![0b1011_0001, 0b1000_0000]);
    assert_eq!(Some(1), r.read_bits(1));
    assert_eq!(Some(0b011), r.read_bits(3));
    assert_eq!(Some(0b00011), r.read_bits(5));
    assert_eq!(Some(0), r.read_bits(7));
    assert_eq!(None, r.read_bits(1));
}

#[test]
fn reader_read_u8_realigns() {
    let mut r = Reader::new(vec![0xAB, 0xCD]);
    assert!(!r.is_at_end());
    assert_eq!(Some(0b1010), r.read_bits(4));
    // A byte read skips the rest of the started byte.
    assert_eq!(Some(0xCD), r.read_u8());
    assert!(r.is_at_end());
    assert_eq!(None, r.read_u8());
}

#[test]
fn byte_aligned_bit_reads_skip_the_started_byte() {
    let mut r = Reader::new(vec![0b1010_0000, 0b1100_0000]);
    assert_eq!(Some(0b101), r.read_bits(3));
    assert_eq!(Some(0b1100), r.read_byte_aligned_bits(4));
    assert_eq!(None, r.read_byte_aligned_bits(8));
}

#[test]
fn variable_decodes_seven_bit_groups() {
    assert_eq!(Ok(0), variable(&mut Reader::new(vec![0x00])));
    assert_eq!(Ok(127), variable(&mut Reader::new(vec![0x7F])));
    assert_eq!(Ok(128), variable(&mut Reader::new(vec![0x80, 0x01])));
    assert_eq!(Ok(0xFFFF_FFFF), variable(&mut Reader::new(vec![0xFF, 0xFF, 0xFF, 0xFF, 0x0F])));
}

#[test]
fn variable_round_trips_through_the_encoder() {
    for value in [0u32, 1, 127, 128, 300, 0x3FFF, 0x4000, 123_456_789, u32::MAX] {
        let bytes = encode_variable(value);
        assert_eq!(Ok(value), variable(&mut Reader::new(bytes)));
    }
}

#[test]
fn variable_signed_round_trips_through_the_encoder() {
    for x in [0i32, 1, -1, 8191, -8192, i32::MAX, i32::MIN] {
        let bytes = encode_variable_signed(x);
        assert_eq!(Ok(x), variable_signed(&mut Reader::new(bytes)));
    }
}

#[test]
fn variable_reports_end_of_data() {
    assert_eq!(Err(DecodeError::EndOfData), variable(&mut Reader::new(vec![])));
    assert_eq!(Err(DecodeError::EndOfData), variable(&mut Reader::new(vec![0x80])));
}

#[test]
fn variable_reports_overflow_as_malformed() {
    // A sixth continuation byte would carry data past bit 31.
    let mut r = Reader::new(vec![0xFF, 0xFF, 0xFF, 0xFF, 0xFF, 0xFF, 0x01]);
    assert_eq!(Err(DecodeError::Malformed), variable(&mut r));
}

#[test]
fn variable_signed_zig_zags() {
    assert_eq!(Ok(0), variable_signed(&mut Reader::new(vec![0x00])));
    assert_eq!(Ok(-1), variable_signed(&mut Reader::new(vec![0x01])));
    assert_eq!(Ok(1), variable_signed(&mut Reader::new(vec![0x02])));
    assert_eq!(Ok(-2), variable_signed(&mut Reader::new(vec![0x03])));
}

#[test]
fn negative_14_bit_zero() {
    assert_eq!(Ok(0), negative_14_bit(&mut Reader::new(vec![0x00])));
}

#[test]
fn negative_14_bit_min() {
    assert_eq!(Ok(-0x1FFF), negative_14_bit(&mut Reader::new(vec![0xFF, 0x3F])));
}

#[test]
fn negative_14_bit_max() {
    assert_eq!(Ok(0x2000), negative_14_bit(&mut Reader::new(vec![0x80, 0x40])));
}

#[test]
fn negative_14_bit_all_bits_set() {
    assert_eq!(Ok(1), negative_14_bit(&mut Reader::new(vec![0xFF, 0x7F])));
}

#[test]
fn negative_14_bit_leaves_trailing_bytes_unread() {
    let mut r = Reader::new(vec![0x00, 0xAB, 0xCD]);
    assert_eq!(Ok(0), negative_14_bit(&mut r));
    assert_eq!(Some(0xAB), r.read_u8());
}

#[test]
fn negative_14_bit_extra_bits_ignored() {
    let mut r = Reader::new(vec![0xFF, 0xFF, 0xFF, 0xFF, 0x7F]);
    assert_eq!(Ok(1), negative_14_bit(&mut r));
}

#[test]
fn tagged_variable_presence_bits() {
    // Fields 0 and 2 present (tag 0b101), field 1 absent.
    let mut r = Reader::new(vec![0b0000_0101, 0x02, 0x03]);
    assert_eq!(Ok(vec![1, 0, -2]), tagged_variable(&mut r, 2));
}

#[test]
fn tagged_variable_rejects_tag_bits_past_group() {
    let mut r = Reader::new(vec![0b0000_0010, 0x02]);
    assert_eq!(Err(DecodeError::Malformed), tagged_variable(&mut r, 0));
}

#[test]
fn tagged_32_width_classes() {
    // Field 0: 0 bits; field 1: 8 bits (0xFF = -1); field 2: 16 bits (0x0102).
    let mut r = Reader::new(vec![0x24, 0xFF, 0x01, 0x02]);
    assert_eq!(Ok(vec![0, -1, 0x0102]), tagged_32(&mut r));
}

#[test]
fn tagged_16_width_classes() {
    // Codes (low bits first): 0, 1 (4 bits), 2 (8 bits), 3 (16 bits).
    let mut r = Reader::new(vec![0xE4, 0xF7, 0xF8, 0x00, 0x00]);
    assert_eq!(Ok(vec![0, -1, 127, -32768]), tagged_16(&mut r));
}

#[test]
fn tagged_16_reports_truncated_group() {
    let mut r = Reader::new(vec![0xE4, 0xF7]);
    assert_eq!(Err(DecodeError::EndOfData), tagged_16(&mut r));
}

#[test]
fn encoding_properties_match_the_format() {
    assert!(Encoding::VariableSigned.is_signed());
    assert!(!Encoding::Variable.is_signed());
    assert!(Encoding::Negative14Bit.is_signed());
    assert!(Encoding::TaggedVariable.is_signed());
    assert!(Encoding::Tagged32.is_signed());
    assert!(Encoding::Tagged16.is_signed());
    assert!(!Encoding::Null.is_signed());

    assert_eq!(8, Encoding::TaggedVariable.max_chunk_size());
    assert_eq!(3, Encoding::Tagged32.max_chunk_size());
    assert_eq!(4, Encoding::Tagged16.max_chunk_size());
    assert_eq!(1, Encoding::VariableSigned.max_chunk_size());
    assert_eq!(1, Encoding::Variable.max_chunk_size());
    assert_eq!(1, Encoding::Negative14Bit.max_chunk_size());
    assert_eq!(1, Encoding::Null.max_chunk_size());
}

#[test]
fn decode_into_appends_words() {
    let mut out: Vec<u32> = vec![7];
    let mut r = Reader::new(vec![0x03]);
    Encoding::VariableSigned.decode_into(&mut r, 0, &mut out).unwrap();
    assert_eq!(vec![7, (-2i32) as u32], out);

    let mut out: Vec<u32> = Vec::new();
    let mut r = Reader::new(vec![]);
    Encoding::Null.decode_into(&mut r, 0, &mut out).unwrap();
    assert_eq!(vec![0], out);

    let mut out: Vec<u32> = Vec::new();
    let mut r = Reader::new(vec![0x24, 0xFF, 0x01, 0x02]);
    Encoding::Tagged32.decode_into(&mut r, 1, &mut out).unwrap();
    // Only the two wanted slots are returned, all three were consumed.
    assert_eq!(vec![0, (-1i32) as u32], out);
    assert_eq!(None, r.read_u8());
}
