use bytestream::byte_order::{native_byte_order, order_of_probe, ByteOrder};
use bytestream::reader;
use bytestream::reader::code_unit_count;
use bytestream::writer;
use bytestream::ByteStreamError;

fn in_native_order(units: &[u16]) -> Vec<u8> {
    let mut bytes = Vec::new();
    for unit in units {
        bytes.extend_from_slice(&unit.to_ne_bytes());
    }
    bytes
}

#[test]
fn the_native_order_is_the_order_of_the_machine() {
    let expected = if 1u16.to_ne_bytes()[0] == 1 {
        ByteOrder::LittleEndian
    } else {
        ByteOrder::BigEndian
    };
    assert_eq!(native_byte_order(), expected);
}

#[test]
fn the_probe_tells_the_order() {
    assert_eq!(order_of_probe(0x0001), ByteOrder::BigEndian);
    assert_eq!(order_of_probe(0x0100), ByteOrder::LittleEndian);
    assert_eq!(order_of_probe(u16::from_ne_bytes([0, 1])), native_byte_order());
    assert_eq!(order_of_probe(0), ByteOrder::LittleEndian);
    assert_eq!(order_of_probe(0xFFFF), ByteOrder::LittleEndian);
}

#[test]
fn bytes_are_joined_in_the_given_order() {
    assert_eq!(ByteOrder::BigEndian.join(0x12, 0x34), 0x1234);
    assert_eq!(ByteOrder::LittleEndian.join(0x12, 0x34), 0x3412);
    assert_eq!(ByteOrder::BigEndian.join(0xFF, 0x00), 0xFF00);
    assert_eq!(ByteOrder::LittleEndian.join(0xFF, 0x00), 0x00FF);
}

#[test]
fn units_are_split_in_the_given_order() {
    assert_eq!(ByteOrder::BigEndian.split(0x1234), (0x12, 0x34));
    assert_eq!(ByteOrder::LittleEndian.split(0x1234), (0x34, 0x12));
    assert_eq!(ByteOrder::BigEndian.split(0x00FF), (0x00, 0xFF));
}

#[test]
fn an_even_distance_is_half_as_many_units() {
    assert_eq!(code_unit_count(0).unwrap(), 0);
    assert_eq!(code_unit_count(6).unwrap(), 3);
}

#[test]
fn an_odd_distance_is_misaligned() {
    match code_unit_count(3) {
        Err(ByteStreamError::Message(message)) => {
            assert_eq!(message, "The determined string length must be a multiple of 2.")
        }
        other => panic!("unexpected {:?}", other),
    }
    assert!(matches!(code_unit_count(usize::MAX), Err(ByteStreamError::Message(_))));
}

#[test]
fn terminated_text_is_read_in_big_endian_order() {
    let data = [0x00u8, 0x68, 0x00, 0x69, 0x00, 0x00, 0x00, 0x61];
    let mut r = reader::from_slice(&data);
    assert_eq!(r.read_utf16_string_terminated_as(ByteOrder::BigEndian).unwrap(), "hi");
    assert_eq!(r.index, 6);
}

#[test]
fn terminated_text_is_read_in_little_endian_order() {
    let data = [0x68u8, 0x00, 0x69, 0x00, 0x00, 0x00, 0x61, 0x00];
    let mut r = reader::from_slice(&data);
    assert_eq!(r.read_utf16_string_terminated_as(ByteOrder::LittleEndian).unwrap(), "hi");
    assert_eq!(r.index, 6);
}

#[test]
fn the_byte_order_decides_what_is_read() {
    let data = [0x00u8, 0x68, 0x00, 0x00];
    let mut r = reader::from_slice(&data);
    assert_eq!(r.read_utf16_string_terminated_as(ByteOrder::LittleEndian).unwrap(), "\u{6800}");
    assert_eq!(r.index, 4);
}

#[test]
fn a_zero_unit_needs_two_zero_bytes_of_one_unit() {
    let data = [0x68u8, 0x00, 0x00, 0x69, 0x00, 0x00];
    let mut r = reader::from_slice(&data);
    assert_eq!(
        r.read_utf16_string_terminated_as(ByteOrder::LittleEndian).unwrap(),
        "h\u{6900}"
    );
    assert_eq!(r.index, 6);
}

#[test]
fn a_single_zero_unit_is_the_empty_text() {
    let data = [0u8, 0];
    let mut r = reader::from_slice(&data);
    assert_eq!(r.read_utf16_string_terminated().unwrap(), "");
    assert_eq!(r.index, 2);
}

#[test]
fn wide_text_without_a_zero_unit_is_unterminated() {
    let data = in_native_order(&[0x68, 0x69]);
    let mut r = reader::from_vec(&data);
    match r.read_utf16_string_terminated() {
        Err(ByteStreamError::Message(message)) => {
            assert_eq!(message, "Unable to find null terminator for string.")
        }
        other => panic!("unexpected {:?}", other),
    }
    assert_eq!(r.index, 0);
}

#[test]
fn a_last_byte_alone_is_no_unit() {
    let data = [0x68u8, 0x00, 0x00];
    let mut r = reader::from_slice(&data);
    assert!(matches!(
        r.read_utf16_string_terminated_as(ByteOrder::LittleEndian),
        Err(ByteStreamError::Message(_))
    ));
    assert_eq!(r.index, 0);
}

#[test]
fn a_scan_from_an_odd_cursor_goes_in_steps_of_two_from_there() {
    let data = [0xAAu8, 0x68, 0x00, 0x69, 0x00, 0x00, 0x00];
    let mut r = reader::from_slice(&data);
    assert_eq!(r.read_u8(), 0xAA);
    assert_eq!(r.read_utf16_string_terminated_as(ByteOrder::LittleEndian).unwrap(), "hi");
    assert_eq!(r.index, 7);
}

#[test]
fn a_surrogate_pair_is_one_character() {
    let data = [0xD8u8, 0x34, 0xDD, 0x1E, 0x00, 0x00];
    let mut r = reader::from_slice(&data);
    assert_eq!(r.read_utf16_string_terminated_as(ByteOrder::BigEndian).unwrap(), "\u{1d11e}");
    assert_eq!(r.index, 6);
}

#[test]
fn a_surrogate_without_its_partner_is_not_utf16() {
    let data = [0xD8u8, 0x00, 0x00, 0x61, 0x00, 0x00];
    let mut r = reader::from_slice(&data);
    assert!(matches!(
        r.read_utf16_string_terminated_as(ByteOrder::BigEndian),
        Err(ByteStreamError::FromUtf16Error(_))
    ));
    assert_eq!(r.index, 4);
}

#[test]
fn a_low_surrogate_first_is_not_utf16() {
    let data = [0xDCu8, 0x00, 0xD8, 0x00];
    let mut r = reader::from_slice(&data);
    assert!(matches!(
        r.read_utf16_string_fixed_as(ByteOrder::BigEndian, 2),
        Err(ByteStreamError::FromUtf16Error(_))
    ));
    assert_eq!(r.index, 4);
}

#[test]
fn fixed_wide_text_takes_two_bytes_for_each_unit() {
    let data = [0x00u8, 0x68, 0x00, 0x69, 0x00, 0x00, 0x00, 0x21];
    let mut r = reader::from_slice(&data);
    assert_eq!(r.read_utf16_string_fixed_as(ByteOrder::BigEndian, 2).unwrap(), "hi");
    assert_eq!(r.index, 4);
    assert_eq!(r.read_utf16_string_fixed_as(ByteOrder::BigEndian, 0).unwrap(), "");
    assert_eq!(r.index, 4);
    assert_eq!(r.read_utf16_string_fixed_as(ByteOrder::BigEndian, 2).unwrap(), "\0!");
    assert_eq!(r.index, 8);
}

#[test]
fn fixed_wide_text_is_read_in_the_native_order() {
    let data = in_native_order(&[0x68, 0xE9, 0xD834, 0xDD1E]);
    let mut r = reader::from_vec(&data);
    assert_eq!(r.read_utf16_string_fixed(4).unwrap(), "h\u{e9}\u{1d11e}");
    assert_eq!(r.index, 8);
}

#[test]
fn fixed_wide_units_that_are_not_utf16_are_still_consumed() {
    let data = in_native_order(&[0xD800, 0x61]);
    let mut r = reader::from_vec(&data);
    assert!(matches!(r.read_utf16_string_fixed(1), Err(ByteStreamError::FromUtf16Error(_))));
    assert_eq!(r.index, 2);
    assert_eq!(r.read_utf16_string_fixed(1).unwrap(), "a");
}

#[test]
fn terminated_wide_write_lays_units_out_in_the_given_order() {
    let mut big = writer::create();
    big.write_utf16_string_terminated_as(ByteOrder::BigEndian, String::from("hi"));
    assert_eq!(big.get(), &vec![0x00u8, 0x68, 0x00, 0x69, 0x00, 0x00]);

    let mut little = writer::create();
    little.write_utf16_string_terminated_as(ByteOrder::LittleEndian, String::from("hi"));
    assert_eq!(little.get(), &vec![0x68u8, 0x00, 0x69, 0x00, 0x00, 0x00]);
}

#[test]
fn a_character_above_the_basic_plane_is_written_as_a_pair() {
    let mut stream = writer::create();
    stream.write_utf16_string_terminated_as(ByteOrder::BigEndian, String::from("\u{1d11e}"));
    assert_eq!(stream.get(), &vec![0xD8u8, 0x34, 0xDD, 0x1E, 0x00, 0x00]);

    let mut edges = writer::create();
    edges.write_utf16_string_fixed_as(
        ByteOrder::BigEndian,
        String::from("\u{ffff}\u{10000}\u{10ffff}"),
    );
    assert_eq!(
        edges.get(),
        &vec![0xFFu8, 0xFF, 0xD8, 0x00, 0xDC, 0x00, 0xDB, 0xFF, 0xDF, 0xFF]
    );
}

#[test]
fn terminated_wide_write_adds_nothing_after_a_last_zero_unit() {
    let mut stream = writer::create();
    stream.write_utf16_string_terminated_as(ByteOrder::BigEndian, String::from("a\0"));
    assert_eq!(stream.get(), &vec![0x00u8, 0x61, 0x00, 0x00]);
}

#[test]
fn terminated_wide_write_of_the_empty_text_is_the_terminator() {
    let mut stream = writer::create();
    stream.write_utf16_string_terminated(String::new());
    assert_eq!(stream.get(), &vec![0x00u8, 0x00]);
    let mut r = reader::from_vec(stream.get());
    assert_eq!(r.read_utf16_string_terminated().unwrap(), "");
    assert_eq!(r.index, 2);
}

#[test]
fn terminated_wide_write_uses_the_native_order() {
    let mut stream = writer::create();
    stream.write_utf16_string_terminated(String::from("hi"));
    assert_eq!(stream.get(), &in_native_order(&[0x68, 0x69, 0]));
}

#[test]
fn fixed_wide_write_drops_every_trailing_zero_unit() {
    let mut stream = writer::create();
    stream.write_utf16_string_fixed_as(ByteOrder::BigEndian, String::from("ab\0\0"));
    assert_eq!(stream.get(), &vec![0x00u8, 0x61, 0x00, 0x62]);
    stream.write_utf16_string_fixed_as(ByteOrder::BigEndian, String::from("\0"));
    assert_eq!(stream.get(), &vec![0x00u8, 0x61, 0x00, 0x62]);
    stream.write_utf16_string_fixed_as(ByteOrder::LittleEndian, String::from("\u{100}\0c"));
    assert_eq!(
        stream.get(),
        &vec![0x00u8, 0x61, 0x00, 0x62, 0x00, 0x01, 0x00, 0x00, 0x63, 0x00]
    );
}

#[test]
fn fixed_wide_write_uses_the_native_order() {
    let mut stream = writer::create();
    stream.write_utf16_string_fixed(String::from("h\u{e9}\0"));
    assert_eq!(stream.get(), &in_native_order(&[0x68, 0xE9]));
}

#[test]
fn wide_text_comes_back_as_it_was_written() {
    for order in [ByteOrder::BigEndian, ByteOrder::LittleEndian] {
        for text in ["", "a", "hello, world", "h\u{e9}llo", "\u{20ac}\u{1d11e}\u{100}"] {
            let units = text.encode_utf16().count();
            let mut stream = writer::create();
            stream.write_u8(0x01);
            stream.write_utf16_string_terminated_as(order, String::from(text));
            stream.write_u8(0x7E);
            let mut r = reader::from_vec(stream.get());
            assert_eq!(r.read_u8(), 0x01);
            assert_eq!(r.read_utf16_string_terminated_as(order).unwrap(), text);
            assert_eq!(r.index, 1 + 2 * units + 2);
            assert_eq!(r.read_u8(), 0x7E);
        }
    }
}

#[test]
fn two_wide_texts_are_written_and_read_in_order() {
    let mut stream = writer::create();
    stream.write_utf16_string_terminated(String::from("hi"));
    stream.write_utf16_string_terminated(String::from("bye"));
    assert_eq!(stream.get(), &in_native_order(&[0x68, 0x69, 0, 0x62, 0x79, 0x65, 0]));

    let mut r = reader::from_vec(stream.get());
    assert_eq!(r.read_utf16_string_terminated().unwrap(), "hi");
    assert_eq!(r.index, 6);
    assert_eq!(r.read_utf16_string_terminated().unwrap(), "bye");
    assert_eq!(r.index, 14);
}

#[test]
fn fixed_wide_text_comes_back_when_read_with_its_length() {
    let text = "gr\u{fc}n\u{1f600}";
    let mut stream = writer::create();
    stream.write_utf16_string_fixed(String::from(text));
    let mut r = reader::from_vec(stream.get());
    assert_eq!(r.read_utf16_string_fixed(6).unwrap(), text);
    assert_eq!(r.index, 12);
}
