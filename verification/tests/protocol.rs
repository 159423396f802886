use kmcu::binary::Binary;
use kmcu::command::{CommandArgFilled, CommandArgOutline, CommandFilled};
use kmcu::commands::{recv_command_id_for_name, send_command_id_for_name};
use kmcu::crc::{crc16_ccitt, crc16_xmodem, CrcWriter};
use kmcu::dictionary::{DictionaryRecv, DictionarySend};
use kmcu::error::IOError;
use kmcu::frame::{find_frame, Frame, FrameBuffer, FramePayload};
use kmcu::message::Message;
use kmcu::reader::ByteReader;
use kmcu::vlq::{encode_int, encode_int_to, encode_msgid, encode_msgid_to, parse_int, parse_msgid, vlq_int_size};

#[test]
fn vlq_encodes_known_values() {
    assert_eq!(encode_int(0), vec![0x00]);
    assert_eq!(encode_int(0x5f), vec![0x5f]);
    assert_eq!(encode_int(0x60), vec![0x80, 0x60]);
    assert_eq!(encode_int(1000), vec![0x87, 0x68]);
    assert_eq!(encode_int(u32::MAX), vec![0x7f]);
    assert_eq!(encode_int((-100i32) as u32), vec![0xff, 0x1c]);
    assert_eq!(encode_int(0x1234_5678).len(), 5);
}

#[test]
fn vlq_size_matches_encoding() {
    for v in [0u32, 1, 0x5f, 0x60, 0x2fff, 0x3000, 0x17_ffff, 0x18_0000, 0x0bff_ffff, 0x0c00_0000, 0xffff_ff00, u32::MAX] {
        assert_eq!(vlq_int_size(v), encode_int(v).len(), "value {v:#x}");
    }
}

#[test]
fn vlq_parse_undoes_encode() {
    for v in [0u32, 7, 0x5f, 0x60, 1000, 0x3000, 0x18_0000, 0x0c00_0000, 0x1234_5678, 0xdead_beef, u32::MAX, (-1000i32) as u32] {
        let mut bytes = Vec::new();
        encode_int_to(v, &mut bytes).unwrap();
        bytes.push(0xaa);
        let mut reader = ByteReader::new(bytes);
        assert_eq!(parse_int(&mut reader), Ok(v));
        assert_eq!(reader.remaining(), 1);
    }
}

#[test]
fn vlq_parse_of_truncated_input_is_eof() {
    let mut reader = ByteReader::from_slice(&[0x87]);
    assert_eq!(parse_int(&mut reader), Err(IOError::UnexpectedEof));
    let mut empty = ByteReader::from_slice(&[]);
    assert_eq!(parse_int(&mut empty), Err(IOError::UnexpectedEof));
}

#[test]
fn msgid_roundtrip() {
    assert_eq!(encode_msgid(5), vec![5]);
    assert_eq!(encode_msgid(0x80), vec![0x81, 0x00]);
    for id in [0i16, 1, 0x7f, 0x80, 0x1234, 0x3fff] {
        let mut bytes = Vec::new();
        encode_msgid_to(id, &mut bytes).unwrap();
        let mut reader = ByteReader::new(bytes);
        assert_eq!(parse_msgid(&mut reader), Ok(id));
        assert_eq!(reader.remaining(), 0);
    }
}

#[test]
fn crc16_check_values() {
    assert_eq!(crc16_ccitt(b"123456789"), [0x6f, 0x91]);
    assert_eq!(crc16_ccitt(&[5, 0x10]), [0x9e, 0x81]);
    assert_eq!(crc16_xmodem(b"123456789"), [0x31, 0xc3]);
    assert_eq!(crc16_xmodem(&[0x12, 0x34, 0x56, 0x78]), [0xb4, 0x2c]);
}

#[test]
fn crc_writer_matches_one_shot_crc() {
    let mut w = CrcWriter::new(Vec::new());
    w.write(b"1234").unwrap();
    w.write(b"56789").unwrap();
    w.flush().unwrap();
    let (inner, crc) = w.finish();
    assert_eq!(inner, b"123456789".to_vec());
    assert_eq!(crc, crc16_ccitt(b"123456789"));
}

#[test]
fn message_new_and_encode() {
    let m = Message::new(vec![], 3).unwrap();
    assert_eq!(m.length, 5);
    assert_eq!(m.sequence, 3);
    let crc = crc16_ccitt(&[5, 0x13]);
    assert_eq!(m.encode(), vec![5, 0x13, crc[0], crc[1], 0x7e]);
    assert!(Message::new(vec![0; 60], 0).is_none());
    assert!(Message::new(vec![0; 59], 0).is_some());
    assert_eq!(Message::new(vec![1], 0x1f).unwrap().sequence, 0x0f);
}

#[test]
fn message_decode_roundtrip_and_errors() {
    let m = Message::new(vec![1, 2, 3], 7).unwrap();
    let bytes = m.encode();
    let mut reader = ByteReader::new(bytes.clone());
    let d = Message::decode(&mut reader).unwrap();
    assert_eq!(d.length, 8);
    assert_eq!(d.sequence, 7);
    assert_eq!(d.payload, vec![1, 2, 3]);
    assert_eq!(d.crc, m.crc);

    assert!(matches!(Message::decode(&mut ByteReader::from_slice(&[0])), Err(IOError::NullPacket)));
    assert!(matches!(Message::decode(&mut ByteReader::from_slice(&[4])), Err(IOError::PacketTooSmall)));
    assert!(matches!(Message::decode(&mut ByteReader::from_slice(&[65])), Err(IOError::PacketTooLarge)));
    let mut bad_sync = bytes.clone();
    *bad_sync.last_mut().unwrap() = 0x7d;
    assert!(matches!(Message::decode(&mut ByteReader::new(bad_sync)), Err(IOError::InvalidSync)));
    let mut bad_crc = bytes.clone();
    bad_crc[2] ^= 0xff;
    assert!(matches!(Message::decode(&mut ByteReader::new(bad_crc)), Err(IOError::InvalidCrc)));
}

#[test]
fn command_table_ids() {
    assert_eq!(send_command_id_for_name("identify"), 0);
    assert_eq!(send_command_id_for_name("config_stepper"), 13);
    assert_eq!(send_command_id_for_name("tmcuart_send"), 59);
    assert_eq!(send_command_id_for_name("no_such_command"), u16::MAX);
    assert_eq!(recv_command_id_for_name("identify_response"), 0);
    assert_eq!(recv_command_id_for_name("tmcuart_response"), 17);
}

#[test]
fn outline_matches_kind() {
    assert!(CommandArgOutline::uint32.matches(&CommandArgFilled::uint32(1)));
    assert!(!CommandArgOutline::uint32.matches(&CommandArgFilled::byte(1)));
    assert!(CommandArgOutline::buffer.matches(&CommandArgFilled::buffer(vec![1])));
    assert!(!CommandArgOutline::buffer.matches(&CommandArgFilled::progmem_buffer(vec![1])));
}

#[test]
fn argument_encoding_and_decoding() {
    let mut w = Vec::new();
    CommandArgFilled::byte(0xab).encode(&mut w);
    CommandArgFilled::uint16(1000).encode(&mut w);
    CommandArgFilled::buffer(vec![9, 8]).encode(&mut w);
    CommandArgFilled::string("hi".to_string()).encode(&mut w);
    assert_eq!(w, vec![0xab, 0x87, 0x68, 2, 9, 8, 2, b'h', b'i']);
    assert_eq!(CommandArgFilled::buffer(vec![9, 8]).size(), 3);
    assert_eq!(CommandArgFilled::uint32(1000).size(), 2);

    let mut r = ByteReader::new(w);
    assert_eq!(CommandArgFilled::decode(&mut r, CommandArgOutline::byte), Ok(CommandArgFilled::byte(0xab)));
    assert_eq!(CommandArgFilled::decode(&mut r, CommandArgOutline::uint16), Ok(CommandArgFilled::uint16(1000)));
    assert_eq!(CommandArgFilled::decode(&mut r, CommandArgOutline::buffer), Ok(CommandArgFilled::buffer(vec![9, 8])));
    assert_eq!(CommandArgFilled::decode(&mut r, CommandArgOutline::string), Ok(CommandArgFilled::string("hi".to_string())));
    assert_eq!(CommandArgFilled::decode(&mut r, CommandArgOutline::byte), Err(IOError::UnexpectedEof));
}

#[test]
fn string_argument_must_be_utf8() {
    let mut r = ByteReader::from_slice(&[2, 0xff, 0xfe]);
    assert_eq!(CommandArgFilled::decode(&mut r, CommandArgOutline::string), Err(IOError::InvalidUTF8));
}

#[test]
fn send_dictionary_read_after_write() {
    let mut d = DictionarySend::new();
    assert_eq!(d.get_dynamic_id(13), None);
    d.add_definition(13, 42);
    assert_eq!(d.get_dynamic_id(13), Some(42));
    assert_eq!(d.get_dynamic_id(14), None);
    assert_eq!(d.get_dynamic_id(200), None);
    let def = DictionarySend::default_dict();
    assert_eq!(def.get_dynamic_id(0), Some(1));
    assert_eq!(def.get_dynamic_id(1), None);
}

#[test]
fn recv_dictionary_read_after_write() {
    let mut d = DictionaryRecv::new();
    assert_eq!(d.get_static_id(30), None);
    d.add_definition(17, 30);
    assert_eq!(d.get_static_id(30), Some(17));
    assert_eq!(d.get_static_id(31), None);
    assert_eq!(d.get_static_id(-1), None);
    let def = DictionaryRecv::default_dict();
    assert_eq!(def.get_static_id(0), Some(0));
}

#[test]
fn dictionaries_from_identify_entries() {
    let entries = vec![
        ("identify offset=%u count=%c".to_string(), 1i16),
        ("config_stepper oid=%c step_pin=%c dir_pin=%c invert_step=%c step_pulse_ticks=%u".to_string(), 40),
        ("not_a_command x=%u".to_string(), 41),
    ];
    let s = DictionarySend::from_entries(&entries);
    assert_eq!(s.get_dynamic_id(0), Some(1));
    assert_eq!(s.get_dynamic_id(13), Some(40));
    let responses = vec![("identify_response offset=%u data=%.*s".to_string(), 0i16), ("tmcuart_response oid=%c read=%*s".to_string(), 77)];
    let r = DictionaryRecv::from_entries(&responses);
    assert_eq!(r.get_static_id(0), Some(0));
    assert_eq!(r.get_static_id(77), Some(17));
}

#[test]
fn command_encode_uses_dynamic_id() {
    let mut d = DictionarySend::new();
    d.add_definition(1, 7);
    let cmd = CommandFilled(1, vec![CommandArgFilled::byte(3)]);
    assert_eq!(cmd.size(&d), 2);
    let mut w = Vec::new();
    cmd.encode(&mut w, &d).unwrap();
    assert_eq!(w, vec![7, 3]);
    let unregistered = CommandFilled(5, vec![CommandArgFilled::uint32(0)]);
    let mut w2 = vec![1];
    assert_eq!(unregistered.encode(&mut w2, &d), Err(IOError::UnregisteredCommand { static_id: 5 }));
    assert_eq!(w2, vec![1]);
}

#[test]
fn command_decode_through_recv_dictionary() {
    let mut d = DictionaryRecv::new();
    d.add_definition(17, 30);
    let mut r = ByteReader::from_slice(&[30, 4, 2, 0xaa, 0xbb]);
    let c = CommandFilled::decode(&mut r, &d).unwrap();
    assert_eq!(c.0, 17);
    assert_eq!(c.1, vec![CommandArgFilled::byte(4), CommandArgFilled::buffer(vec![0xaa, 0xbb])]);
    let mut r2 = ByteReader::from_slice(&[31, 0]);
    assert!(matches!(CommandFilled::decode(&mut r2, &d), Err(IOError::UnregisteredCommandId { id: 31 })));
}

#[test]
fn conforms_checks_argument_kinds() {
    let c = CommandFilled(0, vec![CommandArgFilled::uint32(0), CommandArgFilled::byte(40)]);
    assert!(c.conforms(&vec![CommandArgOutline::uint32, CommandArgOutline::byte]));
    assert!(!c.conforms(&vec![CommandArgOutline::uint32]));
    assert!(!c.conforms(&vec![CommandArgOutline::byte, CommandArgOutline::byte]));
}

#[test]
fn frame_send_seq_and_empty() {
    let f = Frame::send(4, CommandFilled(0, vec![]));
    assert_eq!(f.seq(), 4);
    assert!(!f.is_empty());
    let ack = Frame { seq: 2, payload: FramePayload::Empty };
    assert!(ack.is_empty());
}

#[test]
fn frame_encode_identify() {
    let dict = DictionarySend::default_dict();
    let f = Frame::send(1, CommandFilled(0, vec![CommandArgFilled::uint32(0), CommandArgFilled::byte(40)]));
    assert_eq!(f.size(&dict), 8);
    let mut w = Vec::new();
    f.encode(&mut w, &dict).unwrap();
    let crc = crc16_ccitt(&[8, 0x11, 1, 0, 40]);
    assert_eq!(w, vec![8, 0x11, 1, 0, 40, crc[0], crc[1], 0x7e]);
}

#[test]
fn frame_encode_unregistered_fails() {
    let dict = DictionarySend::new();
    let f = Frame::send(0, CommandFilled(13, vec![]));
    let mut w = Vec::new();
    assert_eq!(f.encode(&mut w, &dict), Err(IOError::UnregisteredCommand { static_id: 13 }));
}

#[test]
fn frame_decode_ack_and_response() {
    let recv = DictionaryRecv::default_dict();
    let crc = crc16_ccitt(&[5, 0x12]);
    let mut r = ByteReader::new(vec![5, 0x12, crc[0], crc[1], 0x7e]);
    let f = Frame::decode(&mut r, &recv).unwrap();
    assert_eq!(f.seq(), 2);
    assert!(f.is_empty());

    let body = [11u8, 0x13, 0, 0, 3, 1, 2, 3];
    let crc = crc16_ccitt(&body);
    let mut bytes = body.to_vec();
    bytes.extend_from_slice(&[crc[0], crc[1], 0x7e]);
    let f = Frame::decode(&mut ByteReader::new(bytes), &recv).unwrap();
    assert_eq!(f.seq(), 3);
    match f.payload {
        FramePayload::RecvCommand(c) => {
            assert_eq!(c.0, 0);
            assert_eq!(c.1, vec![CommandArgFilled::uint32(0), CommandArgFilled::buffer(vec![1, 2, 3])]);
        },
        _ => panic!("expected a command"),
    }
}

#[test]
fn find_frame_locates_valid_frame() {
    let crc = crc16_ccitt(&[5, 0x11]);
    let mut buf = vec![0x00, 0x7e];
    buf.extend_from_slice(&[5, 0x11, crc[0], crc[1], 0x7e]);
    assert_eq!(find_frame(&buf), Some((2, 5)));
    assert_eq!(find_frame(&[1, 2, 3]), None);
}

#[test]
fn frame_buffer_fill_and_find() {
    let crc = crc16_ccitt(&[5, 0x11]);
    let mut fb = FrameBuffer::new();
    fb.fill(&[0xff, 5, 0x11]);
    assert_eq!(fb.find(), None);
    fb.fill(&[crc[0], crc[1], 0x7e]);
    let (start, len) = fb.find().unwrap();
    assert_eq!(len, 5);
    let f = fb.frame_at_found(start, len, &DictionaryRecv::default_dict()).unwrap();
    assert!(f.is_empty());
    assert_eq!(f.seq(), 1);
}

#[test]
fn binary_primitives() {
    let mut w = Vec::new();
    1000u32.encode(&mut w, &()).unwrap();
    7u8.encode(&mut w, &()).unwrap();
    (-2i16).encode(&mut w, &()).unwrap();
    vec![1u8, 2].encode(&mut w, &()).unwrap();
    assert_eq!(w, vec![0x87, 0x68, 7, 0x7e, 2, 1, 2]);
    assert_eq!(1000u32.size(&()), 2);
    assert_eq!(7u8.size(&()), 1);
    assert_eq!(vec![1u8, 2].size(&()), 3);
    let mut r = ByteReader::new(w);
    assert_eq!(<u32 as Binary>::decode(&mut r, &()), Ok(1000));
    assert_eq!(<u8 as Binary>::decode(&mut r, &()), Ok(7));
    assert_eq!(<i16 as Binary>::decode(&mut r, &()), Ok(-2));
    assert_eq!(<Vec<u8> as Binary>::decode(&mut r, &()), Ok(vec![1, 2]));
    assert_eq!(<u8 as Binary>::decode(&mut r, &()), Err(IOError::UnexpectedEof));
}
