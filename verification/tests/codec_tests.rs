use xrs::buffer::FrameReader;
use xrs::codec::get_u16;
use xrs::codec::get_u32;
use xrs::codec::get_u8;
use xrs::codec::peek_u16;
use xrs::codec::peek_u32;
use xrs::codec::peek_u8;
use xrs::codec::skip;
use xrs::codec::Cursor;
use xrs::codec::FrameError;
use xrs::codec::X11Frame;

fn reply_frame(length: u32) -> X11Frame {
    let body = 24 + 4 * (length as usize);
    let chunk: Vec<u8> = (0..body).map(|i| (i % 251) as u8).collect();
    X11Frame::Reply {
        metabyte: 0x17,
        sequence: 0x0102,
        length,
        chunk,
    }
}

#[test]
fn serialize_request_exact_bytes() {
    let frame = X11Frame::Request {
        major_opcode: 5,
        metabyte: 7,
        length: 2,
        chunk: vec![10, 11, 12, 13],
    };
    assert_eq!(frame.serialize(), vec![5, 7, 0, 2, 10, 11, 12, 13]);
}

#[test]
fn serialize_reply_big_endian_fields() {
    let frame = reply_frame(1);
    let bytes = frame.serialize();
    assert_eq!(bytes.len(), 36);
    assert_eq!(bytes[0], 1);
    assert_eq!(bytes[1], 0x17);
    assert_eq!(&bytes[2..4], &[0x01, 0x02]);
    assert_eq!(&bytes[4..8], &[0, 0, 0, 1]);
}

#[test]
fn serialize_error_exact_bytes() {
    let frame = X11Frame::Error {
        code: 2,
        sequence: 0xABCD,
        metablock: vec![1, 2, 3, 4],
        minor_opcode: 0x0304,
        major_opcode: 42,
        chunk: vec![9; 21],
    };
    let bytes = frame.serialize();
    assert_eq!(bytes.len(), 32);
    assert_eq!(bytes[0], 0);
    assert_eq!(bytes[1], 2);
    assert_eq!(&bytes[2..4], &[0xAB, 0xCD]);
    assert_eq!(&bytes[4..8], &[1, 2, 3, 4]);
    assert_eq!(&bytes[8..10], &[0x03, 0x04]);
    assert_eq!(bytes[10], 42);
    assert_eq!(&bytes[11..32], &[9; 21][..]);
}

#[test]
fn round_trip_reply() {
    let frame = reply_frame(3);
    let mut reader = FrameReader::new();
    reader.append(&frame.serialize());
    let parsed = reader.parse_frame().unwrap().unwrap();
    assert_eq!(parsed, frame);
    assert_eq!(reader.buffered_len(), 0);
}

#[test]
fn round_trip_event() {
    let chunk: Vec<u8> = (0..31).map(|i| i as u8).collect();
    let frame = X11Frame::Event { code: 33, chunk };
    let mut reader = FrameReader::new();
    reader.append(&frame.serialize());
    let parsed = reader.parse_frame().unwrap().unwrap();
    assert_eq!(parsed, frame);
    assert_eq!(reader.buffered_len(), 0);
}

#[test]
fn round_trip_error() {
    let frame = X11Frame::Error {
        code: 8,
        sequence: 517,
        metablock: vec![0xDE, 0xAD, 0xBE, 0xEF],
        minor_opcode: 3,
        major_opcode: 91,
        chunk: (0..21).map(|i| (i * 3) as u8).collect(),
    };
    let mut reader = FrameReader::new();
    reader.append(&frame.serialize());
    let parsed = reader.parse_frame().unwrap().unwrap();
    assert_eq!(parsed, frame);
    assert_eq!(reader.buffered_len(), 0);
}

#[test]
fn one_byte_at_a_time_completes_exactly_on_time() {
    let frame = reply_frame(2);
    let bytes = frame.serialize();
    let mut reader = FrameReader::new();
    for (i, b) in bytes.iter().enumerate() {
        if i > 0 {
            // Every strict prefix is incomplete.
            assert_eq!(reader.parse_frame().unwrap(), None);
        }
        reader.append(&[*b]);
    }
    let parsed = reader.parse_frame().unwrap().unwrap();
    assert_eq!(parsed, frame);
    assert_eq!(reader.buffered_len(), 0);
}

#[test]
fn reply_sizes_and_exact_consumption() {
    assert_eq!(reply_frame(0).serialize().len(), 32);
    assert_eq!(reply_frame(3).serialize().len(), 44);

    // Decoding consumes exactly the frame and leaves the rest buffered.
    let mut reader = FrameReader::new();
    reader.append(&reply_frame(3).serialize());
    reader.append(&[1, 2, 3, 4, 5]);
    let parsed = reader.parse_frame().unwrap().unwrap();
    assert_eq!(parsed, reply_frame(3));
    assert_eq!(reader.buffered_len(), 5);
}

#[test]
fn end_of_stream_classification() {
    let reader = FrameReader::new();
    assert_eq!(reader.end_of_stream(), Ok(None));

    let mut reader = FrameReader::new();
    reader.append(&[1, 0, 0, 0, 0, 0, 0, 0, 0, 0]);
    assert_eq!(reader.end_of_stream(), Err(FrameError::ConnectionReset));
}

#[test]
fn discriminant_selects_frame_kind() {
    let mut reader = FrameReader::new();
    let mut bytes = vec![0u8; 32];
    bytes[0] = 0;
    reader.append(&bytes);
    assert!(matches!(
        reader.parse_frame().unwrap().unwrap(),
        X11Frame::Error { .. }
    ));

    let mut reader = FrameReader::new();
    let mut bytes = vec![0u8; 32];
    bytes[0] = 1;
    reader.append(&bytes);
    assert!(matches!(
        reader.parse_frame().unwrap().unwrap(),
        X11Frame::Reply { .. }
    ));

    let mut reader = FrameReader::new();
    let mut bytes = vec![0u8; 32];
    bytes[0] = 2;
    reader.append(&bytes);
    assert!(matches!(
        reader.parse_frame().unwrap().unwrap(),
        X11Frame::Event { code: 2, .. }
    ));
}

#[test]
fn incomplete_reply_header_waits() {
    let mut reader = FrameReader::new();
    reader.append(&[1, 0, 0, 0]);
    assert_eq!(reader.parse_frame().unwrap(), None);
}

#[test]
fn cursor_accessors() {
    let data = [0x01u8, 0x02, 0x03, 0x04, 0x05, 0x06, 0x07];
    let mut cur = Cursor::new(&data);
    assert_eq!(peek_u8(&mut cur), Ok(0x01));
    assert_eq!(cur.position(), 0);
    assert_eq!(get_u8(&mut cur), Ok(0x01));
    assert_eq!(peek_u16(&mut cur), Ok(0x0203));
    assert_eq!(get_u16(&mut cur), Ok(0x0203));
    assert_eq!(peek_u32(&mut cur), Ok(0x04050607));
    assert_eq!(get_u32(&mut cur), Ok(0x04050607));
    assert_eq!(cur.position(), 7);
    assert_eq!(cur.remaining(), 0);
    assert_eq!(get_u8(&mut cur), Err(FrameError::Incomplete));
}

#[test]
fn cursor_skip_checks_bounds() {
    let data = [1u8, 2, 3];
    let mut cur = Cursor::new(&data);
    assert_eq!(skip(&mut cur, 2), Ok(()));
    assert_eq!(cur.position(), 2);
    assert_eq!(skip(&mut cur, 2), Err(FrameError::Incomplete));
    assert_eq!(cur.position(), 2);
    assert_eq!(skip(&mut cur, 1), Ok(()));
}

#[test]
fn check_advances_past_whole_frame() {
    let frame = reply_frame(1);
    let bytes = frame.serialize();
    let mut cur = Cursor::new(&bytes);
    assert_eq!(X11Frame::check(&mut cur), Ok(()));
    assert_eq!(cur.position(), 36);

    let short = &bytes[..35];
    let mut cur = Cursor::new(short);
    assert_eq!(X11Frame::check(&mut cur), Err(FrameError::Incomplete));
}
