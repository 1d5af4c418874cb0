use gsm7::{Gsm7Error, Gsm7Reader, Gsm7Writer};

fn decode_string(bytes: Vec<u8>) -> Result<String, Gsm7Error> {
    let mut reader = Gsm7Reader::new(bytes);
    reader.decode_all().map(|chars| chars.into_iter().collect())
}

#[test]
fn it_works() {
    let mut writer = Gsm7Writer::new();
    writer.write_str("Hello").unwrap();

    let v = writer.into_writer();
    println!("v: {:?}", v);

    let s = decode_string(v).unwrap();
    assert_eq!(s.as_str(), "Hello");
}

#[test]
fn it_works_correctly() {
    let v: Vec<u8> = vec![84, 58, 157, 14].into_iter().collect();
    let s = decode_string(v).unwrap();
    assert_eq!(&s, "Tttt");

    let v = vec![0xD4, 0xF2, 0x9C, 0x0E];
    let s = decode_string(v).unwrap();
    assert_eq!(&s, "Test");
}

#[test]
fn empty_stream_is_clean_end() {
    let s = decode_string(Vec::new()).unwrap();
    assert_eq!(&s, "");
}

#[test]
fn single_reads_on_empty_stream() {
    let mut reader = Gsm7Reader::new(Vec::new());
    assert_eq!(reader.next(), None);
    assert_eq!(reader.next(), None);
}

#[test]
fn aligned_stream_gets_no_extra_byte() {
    let mut writer = Gsm7Writer::new();
    writer.write_str("ABCDEFGH").unwrap();
    let v = writer.into_writer();
    assert_eq!(v.len(), 7);
    assert_eq!(decode_string(v).unwrap().as_str(), "ABCDEFGH");
}

#[test]
fn one_septet_gets_filler_bit() {
    let mut writer = Gsm7Writer::new();
    writer.write_char('A').unwrap();
    let v = writer.into_writer();
    assert_eq!(v, vec![0xC1]);
    assert_eq!(decode_string(v).unwrap().as_str(), "A");
}

#[test]
fn seven_septets_zero_padding_reads_back_filler_at() {
    let mut writer = Gsm7Writer::new();
    writer.write_str("Hello w").unwrap();
    let v = writer.into_writer();
    assert_eq!(v.len(), 7);
    let s = decode_string(v).unwrap();
    assert_eq!(s.as_str(), "Hello w@");
}

#[test]
fn escape_characters_round_trip_as_two_units() {
    let ext = ['\u{C}', '^', '{', '}', '\\', '[', '~', ']', '|', '€'];
    for c in ext {
        let mut writer = Gsm7Writer::new();
        writer.write_char(c).unwrap();
        let v = writer.into_writer();
        assert_eq!(v.len(), 2);
        assert_eq!(v[0] & 0x7F, 0x1B);
        let s = decode_string(v).unwrap();
        let chars: Vec<char> = s.chars().collect();
        assert_eq!(chars, vec![c]);
    }
}

#[test]
fn unknown_character_fails_and_writer_continues() {
    let mut writer = Gsm7Writer::new();
    writer.write_char('T').unwrap();
    assert_eq!(writer.write_char('\u{4E2D}'), Err(Gsm7Error::NotEncodable));
    writer.write_char('t').unwrap();
    let v = writer.into_writer();
    assert_eq!(decode_string(v).unwrap().as_str(), "Tt");
}

#[test]
fn write_str_stops_at_first_unknown_character() {
    let mut writer = Gsm7Writer::new();
    assert_eq!(writer.write_str("ab\u{4E2D}cd"), Err(Gsm7Error::NotEncodable));
    writer.write_char('!').unwrap();
    let v = writer.into_writer();
    assert_eq!(decode_string(v).unwrap().as_str(), "ab!");
}

#[test]
fn escape_marker_alone_is_not_encodable() {
    let mut writer = Gsm7Writer::new();
    assert_eq!(writer.write_char('\u{1B}'), Err(Gsm7Error::NotEncodable));
}

#[test]
fn unknown_second_septet_is_invalid_code() {
    let r = decode_string(vec![0x1B, 0x00]);
    assert_eq!(r, Err(Gsm7Error::InvalidCode));
}

#[test]
fn escape_marker_at_stream_end_is_truncated_escape() {
    let r = decode_string(vec![0x1B]);
    assert_eq!(r, Err(Gsm7Error::TruncatedEscape));
}

#[test]
fn raw_septets_written_by_value_decode_as_characters() {
    let mut writer = Gsm7Writer::new();
    writer.write(7, 84);
    writer.write(7, 116);
    let v = writer.into_writer();
    assert_eq!(decode_string(v).unwrap().as_str(), "Tt");
}

#[test]
fn raw_bits_written_one_by_one_decode_as_a_character() {
    let mut writer = Gsm7Writer::new();
    for bit in [true, false, false, false, false, true, true] {
        writer.write_bit(bit);
    }
    let v = writer.into_writer();
    assert_eq!(decode_string(v).unwrap().as_str(), "a");
}

#[test]
fn whole_bytes_pass_through_unchanged() {
    let mut writer = Gsm7Writer::new();
    writer.write_bytes(&[0xD4, 0xF2, 0x9C, 0x0E]);
    let v = writer.into_writer();
    assert_eq!(v, vec![0xD4, 0xF2, 0x9C, 0x0E]);
    assert_eq!(decode_string(v).unwrap().as_str(), "Test");
}

#[test]
fn base_table_lookups_match() {
    assert_eq!(gsm7::charset::decode_base(0), '@');
    assert_eq!(gsm7::charset::decode_base(13), '\r');
    assert_eq!(gsm7::charset::decode_base(84), 'T');
    assert_eq!(gsm7::charset::decode_base(127), 'à');
    assert_eq!(gsm7::charset::encode_base('T'), Some(84));
    assert_eq!(gsm7::charset::encode_base('€'), None);
    assert_eq!(gsm7::charset::decode_escape(0x65), Some('€'));
    assert_eq!(gsm7::charset::decode_escape(0x00), None);
    assert_eq!(gsm7::charset::encode_escape('€'), Some(0x65));
    assert_eq!(gsm7::charset::encode_escape('T'), None);
}

#[test]
fn every_base_character_round_trips() {
    let mut writer = Gsm7Writer::new();
    let mut expected = String::new();
    for v in 0u8..128 {
        if v == 0x1B {
            continue;
        }
        let c = gsm7::charset::decode_base(v);
        writer.write_char(c).unwrap();
        expected.push(c);
    }
    let v = writer.into_writer();
    // 127 septets are 889 bits: seven zero pad bits read back as '@'.
    expected.push('@');
    assert_eq!(decode_string(v).unwrap(), expected);
}
