use bytestream::reader;
use bytestream::writer;
use bytestream::ByteStreamError;

#[test]
fn terminated_text_is_read_up_to_the_zero_byte() {
    let data = [0x68u8, 0x69, 0x00];
    let mut r = reader::from_slice(&data);
    assert_eq!(r.read_utf8_string_terminated().unwrap(), "hi");
    assert_eq!(r.index, 3);
}

#[test]
fn two_terminated_texts_are_written_and_read_in_order() {
    let mut stream = writer::create();
    stream.write_utf8_string_terminated(String::from("hi"));
    stream.write_utf8_string_terminated(String::from("bye"));
    assert_eq!(stream.get(), &vec![0x68u8, 0x69, 0x00, 0x62, 0x79, 0x65, 0x00]);

    let mut r = reader::from_vec(stream.get());
    assert_eq!(r.read_utf8_string_terminated().unwrap(), "hi");
    assert_eq!(r.index, 3);
    assert_eq!(r.read_utf8_string_terminated().unwrap(), "bye");
    assert_eq!(r.index, 7);
}

#[test]
fn a_single_zero_byte_is_the_empty_text() {
    let data = [0u8];
    let mut r = reader::from_slice(&data);
    assert_eq!(r.read_utf8_string_terminated().unwrap(), "");
    assert_eq!(r.index, 1);
}

#[test]
fn text_without_a_zero_byte_is_unterminated() {
    let data = [0x68u8, 0x69];
    let mut r = reader::from_slice(&data);
    match r.read_utf8_string_terminated() {
        Err(ByteStreamError::Message(message)) => {
            assert_eq!(message, "Unable to find null terminator for string.")
        }
        other => panic!("unexpected {:?}", other),
    }
    assert_eq!(r.index, 0);
}

#[test]
fn an_empty_buffer_is_unterminated() {
    let data: [u8; 0] = [];
    let mut r = reader::from_slice(&data);
    assert!(matches!(r.read_utf8_string_terminated(), Err(ByteStreamError::Message(_))));
    assert_eq!(r.index, 0);
}

#[test]
fn a_zero_byte_before_the_cursor_does_not_count() {
    let data = [0x00u8, 0x68, 0x69];
    let mut r = reader::from_slice(&data);
    assert_eq!(r.read_u8(), 0);
    assert!(matches!(r.read_utf8_string_terminated(), Err(ByteStreamError::Message(_))));
    assert_eq!(r.index, 1);
}

#[test]
fn terminated_bytes_that_are_not_utf8_stop_on_the_terminator() {
    let data = [0xFFu8, 0xFE, 0x00, 0x61];
    let mut r = reader::from_slice(&data);
    assert!(matches!(r.read_utf8_string_terminated(), Err(ByteStreamError::FromUtf8Error(_))));
    assert_eq!(r.index, 2);
}

#[test]
fn fixed_text_takes_exactly_the_bytes_asked_for() {
    let data = "h\u{e9}llo!".as_bytes();
    assert_eq!(data.len(), 7);
    let mut r = reader::from_slice(data);
    assert_eq!(r.read_utf8_string_fixed(6).unwrap(), "h\u{e9}llo");
    assert_eq!(r.index, 6);
    assert_eq!(r.read_utf8_string_fixed(0).unwrap(), "");
    assert_eq!(r.index, 6);
    assert_eq!(r.read_utf8_string_fixed(1).unwrap(), "!");
    assert_eq!(r.index, 7);
}

#[test]
fn fixed_text_keeps_zero_bytes() {
    let data = [0x68u8, 0x00, 0x69, 0x00];
    let mut r = reader::from_slice(&data);
    assert_eq!(r.read_utf8_string_fixed(4).unwrap(), "h\0i\0");
    assert_eq!(r.index, 4);
}

#[test]
fn fixed_bytes_that_are_not_utf8_are_still_consumed() {
    let data = [0xC3u8, 0x28, 0x61];
    let mut r = reader::from_slice(&data);
    assert!(matches!(r.read_utf8_string_fixed(2), Err(ByteStreamError::FromUtf8Error(_))));
    assert_eq!(r.index, 2);
    assert_eq!(r.read_utf8_string_fixed(1).unwrap(), "a");
}

#[test]
fn a_text_cut_inside_a_character_is_not_utf8() {
    let data = "\u{20ac}".as_bytes();
    let mut r = reader::from_slice(data);
    assert!(matches!(r.read_utf8_string_fixed(2), Err(ByteStreamError::FromUtf8Error(_))));
}

#[test]
fn text_of_every_width_of_character_is_decoded() {
    let text = "a\u{e9}\u{20ac}\u{1d11e}";
    let mut data = text.as_bytes().to_vec();
    assert_eq!(data, vec![0x61u8, 0xC3, 0xA9, 0xE2, 0x82, 0xAC, 0xF0, 0x9D, 0x84, 0x9E]);
    data.push(0);
    let mut r = reader::from_vec(&data);
    assert_eq!(r.read_utf8_string_terminated().unwrap(), text);
    assert_eq!(r.index, 11);
}

#[test]
fn fixed_write_drops_every_trailing_zero_byte() {
    let mut stream = writer::create();
    stream.write_utf8_string_fixed(String::from("ab\0\0"));
    assert_eq!(stream.get(), &vec![0x61u8, 0x62]);
    stream.write_utf8_string_fixed(String::from("\0\0\0"));
    assert_eq!(stream.get(), &vec![0x61u8, 0x62]);
    stream.write_utf8_string_fixed(String::new());
    assert_eq!(stream.get(), &vec![0x61u8, 0x62]);
}

#[test]
fn fixed_write_keeps_zero_bytes_inside_the_text() {
    let mut stream = writer::create();
    stream.write_utf8_string_fixed(String::from("a\0b\0"));
    assert_eq!(stream.get(), &vec![0x61u8, 0x00, 0x62]);
}

#[test]
fn fixed_write_does_not_pad_or_terminate() {
    let mut stream = writer::create();
    stream.write_utf8_string_fixed(String::from("h\u{e9}"));
    assert_eq!(stream.get(), &vec![0x68u8, 0xC3, 0xA9]);
}

#[test]
fn terminated_write_appends_one_zero_byte() {
    let mut stream = writer::create();
    stream.write_utf8_string_terminated(String::from("h\u{e9}"));
    assert_eq!(stream.get(), &vec![0x68u8, 0xC3, 0xA9, 0x00]);
}

#[test]
fn terminated_write_adds_nothing_after_a_last_zero_byte() {
    let mut stream = writer::create();
    stream.write_utf8_string_terminated(String::from("hi\0"));
    assert_eq!(stream.get(), &vec![0x68u8, 0x69, 0x00]);
}

#[test]
fn terminated_write_of_the_empty_text_is_the_terminator() {
    let mut stream = writer::create();
    stream.write_utf8_string_terminated(String::new());
    assert_eq!(stream.get(), &vec![0x00u8]);
    let mut r = reader::from_vec(stream.get());
    assert_eq!(r.read_utf8_string_terminated().unwrap(), "");
    assert_eq!(r.index, 1);
}

#[test]
fn terminated_text_comes_back_as_it_was_written() {
    for text in ["", "a", "hello, world", "h\u{e9}llo", "\u{20ac}\u{1d11e}", "tab\tand\nline"] {
        let mut stream = writer::create();
        stream.write_u16(0xBEEF);
        stream.write_utf8_string_terminated(String::from(text));
        stream.write_u8(0x7E);
        let mut r = reader::from_vec(stream.get());
        assert_eq!(r.read_u16(), 0xBEEF);
        assert_eq!(r.read_utf8_string_terminated().unwrap(), text);
        assert_eq!(r.index, 2 + text.len() + 1);
        assert_eq!(r.read_u8(), 0x7E);
    }
}

#[test]
fn fixed_text_comes_back_when_read_with_its_length() {
    let text = "gr\u{fc}n";
    let mut stream = writer::create();
    stream.write_utf8_string_fixed(String::from(text));
    let mut r = reader::from_vec(stream.get());
    assert_eq!(r.read_utf8_string_fixed(text.len()).unwrap(), text);
    assert_eq!(r.index, 5);
}
