use endi::WriteBytes;
use greengrass_sdk_rs::protocol::checksum::checksum;
use greengrass_sdk_rs::protocol::headers::{BitFlags, Headers, MessageFlags, MessageType, Value};
use greengrass_sdk_rs::protocol::identifier::Uuid;
use greengrass_sdk_rs::protocol::message::Message;
use greengrass_sdk_rs::protocol::prelude::{Prelude, PRELUDE_SIZE};
use greengrass_sdk_rs::Error;

/// A frame with the given header bytes and payload, with a prelude and checksums that fit.
fn frame(headers: &[u8], payload: &[u8]) -> Vec<u8> {
    let mut bytes = Vec::new();
    Prelude::new(16 + headers.len() + payload.len(), headers.len())
        .unwrap()
        .write_as_bytes(&mut bytes);
    bytes.extend_from_slice(headers);
    bytes.extend_from_slice(payload);
    let crc = checksum(&bytes);
    bytes.extend_from_slice(&crc.to_be_bytes());
    bytes
}

/// The bytes of one header.
fn header(name: &str, value: Value) -> Vec<u8> {
    let mut bytes = vec![name.len() as u8];
    bytes.extend_from_slice(name.as_bytes());
    value.write_as_bytes(&mut bytes).unwrap();
    bytes
}

/// The bytes of the three reserved headers.
fn reserved(stream_id: i32, message_type: i32, flags: i32) -> Vec<u8> {
    let mut bytes = header(":message-type", Value::Int32(message_type));
    bytes.extend(header(":message-flags", Value::Int32(flags)));
    bytes.extend(header(":stream-id", Value::Int32(stream_id)));
    bytes
}

#[test]
fn checksum_is_crc32_iso_hdlc() {
    assert_eq!(checksum(b""), 0);
    assert_eq!(checksum(b"123456789"), 0xCBF4_3926);
    let reference = crc::Crc::<u32>::new(&crc::CRC_32_ISO_HDLC);
    let mut data = Vec::new();
    for i in 0..600u32 {
        assert_eq!(checksum(&data), reference.checksum(&data));
        data.push((i.wrapping_mul(2654435761) >> 24) as u8);
    }
}

#[test]
fn checksum_notices_a_changed_byte() {
    let data = b"the quick brown fox".to_vec();
    for i in 0..data.len() {
        let mut changed = data.clone();
        changed[i] = changed[i].wrapping_add(1);
        assert_ne!(checksum(&changed), checksum(&data));
    }
}

#[test]
fn prelude_is_twelve_bytes_with_its_checksum() {
    assert_eq!(PRELUDE_SIZE, 12);
    let prelude = Prelude::new(0x47, 0x37).unwrap();
    assert_eq!(prelude.total_len(), 0x47);
    assert_eq!(prelude.headers_len(), 0x37);
    assert_eq!(prelude.crc_checksum(), 0x374C_FE3F);
    assert_eq!(prelude.crc_checksum(), checksum(&[0, 0, 0, 0x47, 0, 0, 0, 0x37]));
    let mut bytes = vec![0xEE];
    prelude.write_as_bytes(&mut bytes);
    assert_eq!(bytes, [0xEE, 0, 0, 0, 0x47, 0, 0, 0, 0x37, 0x37, 0x4C, 0xFE, 0x3F]);
    let mut input = &bytes[1..];
    assert_eq!(Prelude::from_bytes(&mut input).unwrap(), prelude);
    assert!(input.is_empty());
}

#[test]
fn prelude_new_refuses_lengths_that_cannot_stand_in_a_frame() {
    assert!(Prelude::new(16, 0).is_ok());
    assert!(Prelude::new(100, 84).is_ok());
    assert!(matches!(Prelude::new(15, 0), Err(Error::Protocol(_))));
    assert!(matches!(Prelude::new(100, 85), Err(Error::Protocol(_))));
    assert!(Prelude::new(u32::MAX as usize, 0).is_ok());
    if usize::BITS > 32 {
        let too_long = u32::MAX as usize + 1;
        assert!(matches!(
            Prelude::new(too_long, 0),
            Err(Error::BufferTooLarge { size, max_size })
                if size == too_long && max_size == u32::MAX as usize
        ));
        assert!(matches!(
            Prelude::new(16, too_long),
            Err(Error::BufferTooLarge { size, max_size })
                if size == too_long && max_size == u32::MAX as usize
        ));
    }
}

#[test]
fn prelude_decoding_fails_on_bad_lengths_and_on_a_bad_checksum() {
    let with_crc = |total: u32, headers: u32| {
        let mut bytes = Vec::new();
        bytes.extend_from_slice(&total.to_be_bytes());
        bytes.extend_from_slice(&headers.to_be_bytes());
        let crc = checksum(&bytes);
        bytes.extend_from_slice(&crc.to_be_bytes());
        bytes
    };
    // headers_len > total_len - 16
    let bytes = with_crc(100, 85);
    let mut input = &bytes[..];
    assert!(matches!(Prelude::from_bytes(&mut input), Err(Error::Protocol(_))));
    assert_eq!(input.len(), 12);
    // total_len < 16
    let bytes = with_crc(15, 0);
    assert!(matches!(Prelude::from_bytes(&mut &bytes[..]), Err(Error::Protocol(_))));
    // the checksum does not fit
    let mut bytes = with_crc(100, 84);
    assert!(Prelude::from_bytes(&mut &bytes[..]).is_ok());
    bytes[11] ^= 1;
    assert!(matches!(Prelude::from_bytes(&mut &bytes[..]), Err(Error::Protocol(_))));
    // too few bytes
    assert!(matches!(Prelude::from_bytes(&mut &bytes[..11]), Err(Error::Protocol(_))));
    assert!(matches!(Prelude::from_bytes(&mut &[][..]), Err(Error::Protocol(_))));
}

#[test]
fn values_are_written_as_the_wire_format_says() {
    let uuid = Uuid::from_bytes([
        0xa1, 0xa2, 0xa3, 0xa4, 0xb1, 0xb2, 0xc1, 0xc2, 0xd1, 0xd2, 0xd3, 0xd4, 0xd5, 0xd6, 0xd7,
        0xd8,
    ]);
    let cases: Vec<(Value, Vec<u8>)> = vec![
        (Value::Bool(false), vec![0]),
        (Value::Bool(true), vec![1]),
        (Value::Byte(0x7F), vec![2, 0x7F]),
        (Value::Int16(0x0102), vec![3, 1, 2]),
        (Value::Int16(-1), vec![3, 0xFF, 0xFF]),
        (Value::Int32(0x01020304), vec![4, 1, 2, 3, 4]),
        (Value::Int32(-2), vec![4, 0xFF, 0xFF, 0xFF, 0xFE]),
        (Value::Int64(0x0102030405060708), vec![5, 1, 2, 3, 4, 5, 6, 7, 8]),
        (Value::Int64(i64::MIN), vec![5, 0x80, 0, 0, 0, 0, 0, 0, 0]),
        (Value::ByteBuffer(vec![9, 8, 7]), vec![6, 0, 3, 9, 8, 7]),
        (Value::ByteBuffer(vec![]), vec![6, 0, 0]),
        (Value::String("h\u{e9}".to_string()), vec![7, 0, 3, b'h', 0xC3, 0xA9]),
        (Value::Timestamp(-1), vec![8, 0xFF, 0xFF, 0xFF, 0xFF, 0xFF, 0xFF, 0xFF, 0xFF]),
        (
            Value::Uuid(uuid),
            vec![
                9, 0xa1, 0xa2, 0xa3, 0xa4, 0xb1, 0xb2, 0xc1, 0xc2, 0xd1, 0xd2, 0xd3, 0xd4, 0xd5,
                0xd6, 0xd7, 0xd8,
            ],
        ),
    ];
    for (value, bytes) in cases {
        let mut out = vec![0xEE];
        let written = value.write_as_bytes(&mut out).unwrap();
        assert_eq!(&out[1..], &bytes[..], "{value:?}");
        assert_eq!(written, bytes.len());
        assert_eq!(value.size_in_bytes().unwrap() as usize, bytes.len());
        assert_eq!(value.type_code(), bytes[0]);
        let mut stream = bytes.clone();
        stream.extend_from_slice(&[0xAA, 0xBB]);
        let mut input = &stream[..];
        assert_eq!(Value::from_bytes(&mut input).unwrap(), value);
        assert_eq!(input, &[0xAA, 0xBB]);
        assert_eq!(value.to_owned(), value);
    }
}

#[test]
fn integers_are_written_as_endi_writes_them() {
    for v in [0i64, 1, -1, 255, 256, -32768, 32767, 65536, i32::MAX as i64, i32::MIN as i64] {
        let mut expected = vec![4u8];
        expected.write_i32(endi::Endian::Big, v as i32).unwrap();
        let mut out = Vec::new();
        Value::Int32(v as i32).write_as_bytes(&mut out).unwrap();
        assert_eq!(out, expected);

        let mut expected = vec![3u8];
        expected.write_i16(endi::Endian::Big, v as i16).unwrap();
        let mut out = Vec::new();
        Value::Int16(v as i16).write_as_bytes(&mut out).unwrap();
        assert_eq!(out, expected);
    }
    for v in [0i64, -1, i64::MAX, i64::MIN, 0x0123_4567_89AB_CDEF, -0x0123_4567_89AB_CDEF] {
        let mut expected = vec![5u8];
        expected.write_i64(endi::Endian::Big, v).unwrap();
        let mut out = Vec::new();
        Value::Int64(v).write_as_bytes(&mut out).unwrap();
        assert_eq!(out, expected);
        assert_eq!(Value::from_bytes(&mut &out[..]).unwrap(), Value::Int64(v));
    }
}

#[test]
fn values_are_read_only_when_whole_and_known() {
    let refused: Vec<Vec<u8>> = vec![
        vec![],
        vec![2],
        vec![3, 0],
        vec![4, 0, 0, 0],
        vec![5, 0, 0, 0, 0, 0, 0, 0],
        vec![6, 0],
        vec![6, 0, 2, 1],
        vec![7, 0],
        vec![7, 0, 2, b'a'],
        vec![7, 0, 2, 0xC3, 0x28],
        vec![8, 0, 0, 0, 0, 0, 0, 0],
        vec![9, 1, 2, 3, 4, 5, 6, 7, 8, 9, 10, 11, 12, 13, 14, 15],
        vec![10],
        vec![255, 0, 0],
    ];
    for bytes in refused {
        let mut input = &bytes[..];
        let result = Value::from_bytes(&mut input);
        assert!(matches!(result, Err(Error::Protocol(_))), "{bytes:?}");
        assert_eq!(input, &bytes[..]);
    }
}

#[test]
fn values_know_what_they_are() {
    let uuid = Uuid::from_bytes([7; 16]);
    assert_eq!(Value::Bool(true).as_bool(), Some(true));
    assert_eq!(Value::Byte(1).as_bool(), None);
    assert_eq!(Value::Byte(1).as_byte(), Some(1));
    assert_eq!(Value::Int16(2).as_int16(), Some(2));
    assert_eq!(Value::Int32(3).as_int32(), Some(3));
    assert_eq!(Value::Int64(3).as_int32(), None);
    assert_eq!(Value::Int64(4).as_int64(), Some(4));
    assert_eq!(Value::ByteBuffer(vec![5]).as_byte_buffer(), Some(&[5u8][..]));
    assert_eq!(Value::String("six".to_string()).as_str(), Some("six"));
    assert_eq!(Value::String("six".to_string()).as_byte_buffer(), None);
    assert_eq!(Value::Timestamp(7).as_timestamp(), Some(7));
    assert_eq!(Value::Int64(7).as_timestamp(), None);
    assert_eq!(Value::Uuid(uuid).as_uuid(), Some(uuid));
    assert_eq!(Value::Timestamp(7).as_uuid(), None);
}

#[test]
fn values_that_are_too_long_are_not_written() {
    let at_limit = Value::ByteBuffer(vec![0; 65535]);
    assert_eq!(at_limit.size_in_bytes().unwrap(), 65538);
    let mut out = Vec::new();
    assert_eq!(at_limit.write_as_bytes(&mut out).unwrap(), 65538);
    assert_eq!(&out[..3], &[6, 0xFF, 0xFF]);

    for value in [Value::ByteBuffer(vec![0; 65536]), Value::String("x".repeat(65536))] {
        assert!(matches!(
            value.size_in_bytes(),
            Err(Error::BufferTooLarge { size: 65536, max_size: 65535 })
        ));
        let mut out = vec![1, 2];
        assert!(matches!(
            value.write_as_bytes(&mut out),
            Err(Error::BufferTooLarge { size: 65536, max_size: 65535 })
        ));
        assert_eq!(out, [1, 2]);
    }
}

#[test]
fn message_types_have_the_codes_zero_to_eight() {
    let types = [
        MessageType::Application,
        MessageType::ApplicationError,
        MessageType::Ping,
        MessageType::Pong,
        MessageType::Connect,
        MessageType::ConnectAck,
        MessageType::ProtocolError,
        MessageType::InternalError,
        MessageType::Count,
    ];
    for (code, message_type) in types.iter().enumerate() {
        assert_eq!(message_type.code(), code as i32);
        assert_eq!(i32::from(*message_type), code as i32);
        assert_eq!(MessageType::try_from(code as i32).unwrap(), *message_type);
    }
    assert!(matches!(MessageType::try_from(9), Err(Error::Protocol(_))));
    assert!(matches!(MessageType::try_from(-1), Err(Error::Protocol(_))));
    assert_eq!(MessageType::ConnectAck.to_string(), "ConnectAck");
    assert_eq!(MessageType::ApplicationError.to_string(), "ApplicationError");
}

#[test]
fn message_flags_are_two_bits_among_thirty_two() {
    assert_eq!(MessageFlags::ConnectionAccepted.bit(), 0x1);
    assert_eq!(MessageFlags::TerminateStream.bit(), 0x2);
    assert_eq!(MessageFlags::none().bits(), 0);
    assert_eq!(MessageFlags::both().bits(), 3);
    assert!(MessageFlags::none().is_empty());
    assert!(!MessageFlags::both().is_empty());
    let accepted = BitFlags::from(MessageFlags::ConnectionAccepted);
    assert_eq!(accepted.bits(), 1);
    assert!(accepted.contains(MessageFlags::ConnectionAccepted));
    assert!(!accepted.contains(MessageFlags::TerminateStream));
    let terminate = BitFlags::from(MessageFlags::TerminateStream);
    assert_eq!(terminate.bits(), 2);
    assert!(!terminate.contains(MessageFlags::ConnectionAccepted));
    assert!(terminate.contains(MessageFlags::TerminateStream));
    assert_eq!(accepted.union(terminate), MessageFlags::both());
    for bits in [0, 1, 2, 3, 4, 7, 0x8000_0001, u32::MAX] {
        let flags = MessageFlags::from_bits(bits);
        assert_eq!(flags.bits(), bits);
        assert_eq!(flags.contains(MessageFlags::ConnectionAccepted), bits & 1 != 0);
        assert_eq!(flags.contains(MessageFlags::TerminateStream), bits & 2 != 0);
        assert_eq!(flags.is_empty(), bits == 0);
        assert_eq!(flags.union(accepted).bits(), bits | 1);
    }
}

#[test]
fn flag_bits_without_a_meaning_are_kept() {
    for bits in [4u32, 0x10, 0x7FFF_FFFC, 0x8000_0002, u32::MAX] {
        let headers = Headers::new(1, MessageType::Application, MessageFlags::from_bits(bits));
        assert_eq!(headers.get(":message-flags"), Some(&Value::Int32(bits as i32)));
        let message = Message::new(headers, None);
        let bytes = message.to_bytes().unwrap();
        assert_eq!(bytes, frame(&reserved(1, 0, bits as i32), b""));
        let decoded = Message::from_bytes(&mut &bytes[..]).unwrap();
        assert_eq!(decoded, message);
        assert_eq!(decoded.headers().message_flags().bits(), bits);
        assert_eq!(decoded.to_bytes().unwrap(), bytes);
    }
}

#[test]
fn headers_hold_the_reserved_headers_first() {
    let headers = Headers::new(5, MessageType::Application, MessageFlags::TerminateStream.into());
    assert_eq!(headers.stream_id(), 5);
    assert_eq!(headers.message_type(), MessageType::Application);
    assert_eq!(headers.message_flags().bits(), 2);
    assert_eq!(headers.get(":stream-id"), Some(&Value::Int32(5)));
    assert_eq!(headers.get(":message-type"), Some(&Value::Int32(0)));
    assert_eq!(headers.get(":message-flags"), Some(&Value::Int32(2)));
    let names: Vec<&str> = headers.iter().into_iter().map(|(name, _)| name).collect();
    assert_eq!(names, [":message-type", ":message-flags", ":stream-id"]);
    let mut bytes = Vec::new();
    assert_eq!(headers.write_as_bytes(&mut bytes).unwrap(), 55);
    assert_eq!(bytes, reserved(5, 0, 2));
    let decoded = Headers::from_bytes(&mut &bytes[..]).unwrap();
    assert_eq!(decoded, headers);
    assert_eq!(decoded.to_owned(), headers);
}

#[test]
fn inserting_a_header_again_replaces_it() {
    let mut headers = Headers::new(1, MessageType::Application, MessageFlags::none());
    headers.insert("operation", Value::String("first".to_string()));
    headers.insert("other", Value::Bool(true));
    headers.insert("operation", Value::String("second".to_string()));
    assert_eq!(headers.iter().len(), 5);
    assert_eq!(headers.get("operation"), Some(&Value::String("second".to_string())));
    let names: Vec<&str> = headers.iter().into_iter().map(|(name, _)| name).collect();
    assert_eq!(names, [":message-type", ":message-flags", ":stream-id", "operation", "other"]);
}

#[test]
fn header_names_of_more_than_255_bytes_are_refused() {
    let mut headers = Headers::new(1, MessageType::Application, MessageFlags::none());
    headers.insert(&"n".repeat(255), Value::Bool(true));
    assert_eq!(headers.size_in_bytes().unwrap(), 55 + 1 + 255 + 1);
    assert!(Message::new(headers.to_owned(), None).to_bytes().is_ok());
    headers.insert(&"n".repeat(256), Value::Bool(true));
    assert!(matches!(
        headers.size_in_bytes(),
        Err(Error::BufferTooLarge { size: 256, max_size: 255 })
    ));
    let mut out = vec![9];
    assert!(matches!(
        headers.write_as_bytes(&mut out),
        Err(Error::BufferTooLarge { size: 256, max_size: 255 })
    ));
    assert_eq!(out, [9]);
    assert!(matches!(
        Message::new(headers, None).to_bytes(),
        Err(Error::BufferTooLarge { size: 256, max_size: 255 })
    ));
}

#[test]
fn a_frame_without_a_reserved_header_is_refused() {
    let all = [
        header(":message-type", Value::Int32(0)),
        header(":message-flags", Value::Int32(0)),
        header(":stream-id", Value::Int32(1)),
    ];
    let names = [":message-type", ":message-flags", ":stream-id"];
    for missing in 0..3 {
        let mut headers = Vec::new();
        for (i, bytes) in all.iter().enumerate() {
            if i != missing {
                headers.extend_from_slice(bytes);
            }
        }
        let bytes = frame(&headers, b"");
        let result = Message::from_bytes(&mut &bytes[..]);
        assert!(matches!(result, Err(Error::MissingHeader(name)) if name == names[missing]));
        let result = Headers::from_bytes(&mut &headers[..]);
        assert!(matches!(result, Err(Error::MissingHeader(name)) if name == names[missing]));
    }
    let bytes = frame(b"", b"");
    assert!(matches!(
        Message::from_bytes(&mut &bytes[..]),
        Err(Error::MissingHeader(":stream-id"))
    ));
}

#[test]
fn a_reserved_header_that_is_no_int32_is_missing() {
    let mut headers = header(":message-type", Value::Int32(0));
    headers.extend(header(":message-flags", Value::Int32(0)));
    headers.extend(header(":stream-id", Value::Int64(1)));
    let bytes = frame(&headers, b"");
    assert!(matches!(
        Message::from_bytes(&mut &bytes[..]),
        Err(Error::MissingHeader(":stream-id"))
    ));
}

#[test]
fn a_message_type_that_stands_for_nothing_is_a_protocol_error() {
    for code in [9, 100, -1, i32::MIN, i32::MAX] {
        let bytes = frame(&reserved(1, code, 0), b"");
        assert!(matches!(Message::from_bytes(&mut &bytes[..]), Err(Error::Protocol(_))));
    }
    // The code of `Count` is a known code.
    let bytes = frame(&reserved(1, 8, 3), b"");
    let message = Message::from_bytes(&mut &bytes[..]).unwrap();
    assert_eq!(message.headers().message_type(), MessageType::Count);
    assert_eq!(message.headers().message_flags(), MessageFlags::both());
}

#[test]
fn a_frame_with_a_header_twice_is_refused() {
    let mut headers = reserved(1, 0, 0);
    headers.extend(header("twice", Value::Byte(1)));
    headers.extend(header("twice", Value::String("a longer value".to_string())));
    let bytes = frame(&headers, b"");
    assert!(matches!(Message::from_bytes(&mut &bytes[..]), Err(Error::Protocol(_))));
    // The headers alone are read, and the later header takes the place of the earlier.
    let decoded = Headers::from_bytes(&mut &headers[..]).unwrap();
    assert_eq!(decoded.iter().len(), 4);
    assert_eq!(decoded.get("twice"), Some(&Value::String("a longer value".to_string())));
}

#[test]
fn malformed_headers_are_a_protocol_error() {
    let good = reserved(1, 0, 0);
    let broken: Vec<Vec<u8>> = vec![
        [&good[..], &[5, b'a', b'b'][..]].concat(),
        [&good[..], &[2, 0xC3, 0x28, 0][..]].concat(),
        [&good[..], &[1, b'a'][..]].concat(),
        [&good[..], &[1, b'a', 42][..]].concat(),
        [&good[..], &[1, b'a', 4, 0, 0][..]].concat(),
    ];
    for headers in broken {
        let bytes = frame(&headers, b"");
        assert!(matches!(Message::from_bytes(&mut &bytes[..]), Err(Error::Protocol(_))));
    }
}

#[test]
fn an_application_error_frame_is_read_as_the_error() {
    let headers = reserved(3, 1, 2);
    let bytes = frame(&headers, b"\"access \\\"denied\\\"\"");
    match Message::from_bytes(&mut &bytes[..]) {
        Err(Error::Application(message)) => assert_eq!(message, "access \"denied\""),
        other => panic!("unexpected result: {other:?}"),
    }
    let bytes = frame(&headers, b"{\"message\":\"no\"}");
    match Message::from_bytes(&mut &bytes[..]) {
        Err(Error::Application(message)) => assert_eq!(message, "{\"message\":\"no\"}"),
        other => panic!("unexpected result: {other:?}"),
    }
    let bytes = frame(&headers, b"");
    match Message::from_bytes(&mut &bytes[..]) {
        Err(Error::Application(message)) => assert_eq!(message, ""),
        other => panic!("unexpected result: {other:?}"),
    }
    for payload in [&b"12"[..], &b"[\"a\"]"[..], &b"{oops"[..]] {
        let bytes = frame(&headers, payload);
        assert!(matches!(Message::from_bytes(&mut &bytes[..]), Err(Error::Protocol(_))));
    }
}

#[test]
fn a_payload_must_be_json() {
    let headers = Headers::new(1, MessageType::Application, MessageFlags::none());
    for payload in [&b"{\"a\":1"[..], &b"hello"[..], &b""[..], &b"{} {}"[..]] {
        let message = Message::new(headers.to_owned(), Some(payload.to_vec()));
        assert!(matches!(message.to_bytes(), Err(Error::Json(_))), "{payload:?}");
    }
    for payload in [&b"{\"a\":1"[..], &b"hello"[..], &b"{} {}"[..]] {
        let bytes = frame(&reserved(1, 0, 0), payload);
        assert!(matches!(Message::from_bytes(&mut &bytes[..]), Err(Error::Protocol(_))));
    }
    for payload in [&b"null"[..], &b" {\"a\": [1, 2.5e3, \"x\"]} "[..], &b"\"text\""[..]] {
        let message = Message::new(headers.to_owned(), Some(payload.to_vec()));
        let bytes = message.to_bytes().unwrap();
        assert_eq!(Message::from_bytes(&mut &bytes[..]).unwrap(), message);
    }
    let message = Message::new(headers, None);
    let bytes = message.to_bytes().unwrap();
    assert_eq!(bytes.len(), 16 + 55);
    assert_eq!(Message::from_bytes(&mut &bytes[..]).unwrap().payload(), &None);
}

#[test]
fn a_frame_whose_prelude_does_not_fit_its_headers_is_refused() {
    // The prelude says one byte of headers more than there is.
    let headers = reserved(1, 0, 0);
    let mut bytes = Vec::new();
    Prelude::new(16 + headers.len() + 2, headers.len() + 1).unwrap().write_as_bytes(&mut bytes);
    bytes.extend_from_slice(&headers);
    bytes.extend_from_slice(b"{}");
    let crc = checksum(&bytes);
    bytes.extend_from_slice(&crc.to_be_bytes());
    assert!(matches!(Message::from_bytes(&mut &bytes[..]), Err(Error::Protocol(_))));
}
