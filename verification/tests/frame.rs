use websocket_std::frame::{DataFrame, ControlFrame, Frame, FrameKind, bytes_to_frame, read_frame};
use websocket_std::header::{FLAG, OPCODE};
use websocket_std::mask::{gen_mask, Mask};
use websocket_std::binary::bytes_to_u16;
use websocket_std::result::WebSocketError;
use websocket_std::traits::Serialize;

fn equals(b1: Vec<u8>, b2: Vec<u8>) -> bool {
    if b1.len() != b2.len() {
        return false;
    }
    let mut i = 0;
    while i < b1.len() {
        if b1.get(i).unwrap() != b2.get(i).unwrap() {
            return false;
        }
        i += 1;
    }
    true
}

fn apply_mask(data: &[u8], mask: &Mask) -> Vec<u8> {
    let mut masked_data = Vec::new();
    let mut i = 0;
    for byte in data {
        masked_data.push(byte ^ mask[i]);
        i += 1;
        if i >= 4 {
            i = 0;
        }
    }
    masked_data
}

#[test]
fn serialize_data_masked() {
    let flag = FLAG::FIN;
    let opcode = OPCODE::TEXT;
    let data = String::from("hello");
    let mask = gen_mask();

    let dataframe = DataFrame::new(flag, opcode, data.as_bytes().to_vec(), false, Some(mask));
    let frame = Frame::Data(dataframe);
    let serialized_frame = frame.serialize();
    let serialized_data =
        serialized_frame[serialized_frame.len() - data.len()..serialized_frame.len()].to_vec();
    let _d = apply_mask(serialized_data.as_slice(), &mask);
    let _d = String::from_utf8(_d).unwrap();

    let expected_data = apply_mask(data.as_bytes(), &mask);
    let mut expected_frame = Vec::new();
    expected_frame.extend_from_slice(&[0x81, 0x85]);
    expected_frame.extend_from_slice(&mask);
    expected_frame.extend_from_slice(expected_data.as_slice());

    assert!(equals(serialized_data, expected_data));
    assert!(equals(serialized_frame, expected_frame));
    assert_eq!(_d, data);
}

#[test]
fn serialize_data_unmasked() {
    let flag = FLAG::FIN;
    let opcode = OPCODE::TEXT;
    let data = String::from("hello");

    let dataframe = DataFrame::new(flag, opcode, data.as_bytes().to_vec(), false, None);
    let frame = Frame::Data(dataframe);
    let serialized_frame = frame.serialize();
    let serialized_data =
        serialized_frame[serialized_frame.len() - data.len()..serialized_frame.len()].to_vec();

    let mut expected_frame = Vec::new();
    expected_frame.extend_from_slice(&[0x81, 0x05]);
    expected_frame.extend_from_slice(data.as_bytes());

    assert!(equals(serialized_data, data.as_bytes().to_vec()));
    assert!(equals(serialized_frame, expected_frame));
}

#[test]
fn serialize_controlframe_unmasked_without_status_code() {
    let flag = FLAG::FIN;
    let opcode = OPCODE::PING;
    let data = String::from("hello");

    let controlframe = ControlFrame::new(flag, opcode, None, data.as_bytes().to_vec(), false, None);
    let frame = Frame::Control(controlframe);
    let serialized_frame = frame.serialize();
    let serialized_data =
        serialized_frame[serialized_frame.len() - data.len()..serialized_frame.len()].to_vec();

    let mut expected_frame = Vec::new();
    expected_frame.extend_from_slice(&[0x89, 0x05]);
    expected_frame.extend_from_slice(data.as_bytes());

    assert!(equals(serialized_data, data.as_bytes().to_vec()));
    assert!(equals(serialized_frame, expected_frame));
}

#[test]
fn serialize_controlframe_unmasked_with_status_code() {
    let flag = FLAG::FIN;
    let opcode = OPCODE::PING;
    let data = String::from("hello");
    let status_code = 1000;

    let controlframe =
        ControlFrame::new(flag, opcode, Some(status_code), data.as_bytes().to_vec(), false, None);
    let frame = Frame::Control(controlframe);
    let serialized_frame = frame.serialize();
    let serialized_data =
        serialized_frame[serialized_frame.len() - data.len()..serialized_frame.len()].to_vec();

    let mut expected_frame = Vec::new();
    expected_frame.extend_from_slice(&[0x89, 0x07, 0x03, 0xE8]);
    expected_frame.extend_from_slice(data.as_bytes());

    assert!(equals(serialized_data, data.as_bytes().to_vec()));
    assert!(equals(serialized_frame, expected_frame));
}

#[test]
fn serialize_controlframe_masked_without_status_code() {
    let flag = FLAG::FIN;
    let opcode = OPCODE::PONG;
    let data = String::from("hello");
    let mask = gen_mask();

    let controlframe =
        ControlFrame::new(flag, opcode, None, data.as_bytes().to_vec(), false, Some(mask));
    let frame = Frame::Control(controlframe);
    let serialized_frame = frame.serialize();
    let serialized_data =
        serialized_frame[serialized_frame.len() - data.len()..serialized_frame.len()].to_vec();
    let _d = apply_mask(serialized_data.as_slice(), &mask);
    let _d = String::from_utf8(_d).unwrap();

    let expected_data = apply_mask(data.as_bytes(), &mask);
    let mut expected_frame = Vec::new();
    expected_frame.extend_from_slice(&[0x8A, 0x85]);
    expected_frame.extend_from_slice(&mask);
    expected_frame.extend_from_slice(expected_data.as_slice());

    assert!(equals(serialized_data, expected_data));
    assert!(equals(serialized_frame, expected_frame));
    assert_eq!(_d, data);
}

#[test]
fn serialize_controlframe_masked_with_status_code() {
    let flag = FLAG::FIN;
    let opcode = OPCODE::PONG;
    let data = String::from("hello");
    let mask = gen_mask();
    let status_code: u16 = 1000;

    let controlframe =
        ControlFrame::new(flag, opcode, Some(status_code), data.as_bytes().to_vec(), false,
            Some(mask));
    let frame = Frame::Control(controlframe);
    let serialized_frame = frame.serialize();
    let serialized_data =
        serialized_frame[serialized_frame.len() - data.len() - 2..serialized_frame.len()].to_vec();

    let mut _data = Vec::new();
    _data.extend_from_slice(&status_code.to_be_bytes());
    _data.extend_from_slice(&data.as_bytes());
    let expected_data = apply_mask(_data.as_slice(), &mask);
    let mut expected_frame = Vec::new();
    expected_frame.extend_from_slice(&[0x8A, 0x87]);
    expected_frame.extend_from_slice(&mask);
    expected_frame.extend_from_slice(expected_data.as_slice());

    assert!(equals(serialized_data.clone(), expected_data));
    assert!(equals(serialized_frame, expected_frame));

    let serialized_data = apply_mask(&serialized_data, &mask);
    let _status = bytes_to_u16(&serialized_data.as_slice()[0..2]).unwrap();
    let _data = String::from_utf8((&serialized_data[2..serialized_data.len()]).to_vec()).unwrap();

    assert_eq!(status_code, _status);
    assert_eq!(data, _data);
}

// ------------------- parsing ------------------- //

#[test]
fn parse_round_trip_unmasked_text() {
    let frame = Frame::Data(DataFrame::new(FLAG::FIN, OPCODE::TEXT, b"hello".to_vec(), false,
        None));
    let bytes = frame.serialize();
    let parsed = bytes_to_frame(bytes.as_slice()).unwrap().unwrap();
    let (parsed_frame, used) = parsed;
    assert_eq!(used, bytes.len());
    match parsed_frame {
        Frame::Data(d) => {
            assert_eq!(d.data, b"hello".to_vec());
            assert_eq!(d.header.payload_len, 5);
            assert_eq!(d.header.flag, FLAG::FIN);
            assert_eq!(d.header.code, OPCODE::TEXT);
            assert!(d.header.mask_key.is_none());
        },
        Frame::Control(_) => panic!("expected a data frame"),
    }
}

#[test]
fn parse_round_trip_masked_text_recovers_payload() {
    let mask = gen_mask();
    let frame = Frame::Data(DataFrame::new(FLAG::NOFLAG, OPCODE::BINARY, b"abcdefgh".to_vec(),
        false, Some(mask)));
    let bytes = frame.serialize();
    let parsed = bytes_to_frame(bytes.as_slice()).unwrap().unwrap();
    let (parsed_frame, used) = parsed;
    assert_eq!(used, bytes.len());
    match parsed_frame {
        Frame::Data(d) => {
            assert_eq!(d.data, b"abcdefgh".to_vec());
            assert_eq!(d.header.mask_key, Some(mask));
            assert_eq!(d.header.flag, FLAG::NOFLAG);
        },
        Frame::Control(_) => panic!("expected a data frame"),
    }
}

#[test]
fn parse_round_trip_close_frame() {
    let frame = Frame::Control(ControlFrame::new(FLAG::FIN, OPCODE::CLOSE, Some(1000),
        b"bye".to_vec(), false, None));
    let bytes = frame.serialize();
    let parsed = bytes_to_frame(bytes.as_slice()).unwrap().unwrap();
    let (parsed_frame, used) = parsed;
    assert_eq!(used, bytes.len());
    match parsed_frame {
        Frame::Control(c) => {
            assert_eq!(c.status_code, Some(1000));
            assert_eq!(c.data, b"bye".to_vec());
            assert_eq!(c.header.code, OPCODE::CLOSE);
        },
        Frame::Data(_) => panic!("expected a control frame"),
    }
}

#[test]
fn parse_incomplete_frame_waits() {
    // One byte only: too few even for the two header bytes.
    assert!(bytes_to_frame(&[0x81]).unwrap().is_none());
    // Declared length extends past the available bytes.
    assert!(bytes_to_frame(&[0x81, 0x05, b'h', b'e']).unwrap().is_none());
    // The 16-bit length extension itself is not complete yet.
    assert!(bytes_to_frame(&[0x81, 0x7E, 0x01]).unwrap().is_none());
}

#[test]
fn parse_invalid_opcode_is_an_error() {
    let res = bytes_to_frame(&[0x83, 0x00]);
    assert_eq!(res.unwrap_err(), WebSocketError::InvalidFrame);
}

#[test]
fn parse_invalid_flag_is_an_error() {
    // A reserved bit set in the flag nibble is not a defined flag value.
    let res = bytes_to_frame(&[0xC1, 0x00]);
    assert_eq!(res.unwrap_err(), WebSocketError::InvalidFrame);
}

#[test]
fn control_frame_payload_is_bounded() {
    // Payload plus status-code bytes beyond 125 is truncated to stay wire-valid.
    let big = vec![7u8; 300];
    let frame = ControlFrame::new(FLAG::FIN, OPCODE::CLOSE, Some(1000), big, false, None);
    assert_eq!(frame.header.payload_len, 125);
    assert_eq!(frame.data.len(), 123);
    let bytes = Frame::Control(frame).serialize();
    assert_eq!(bytes[1] as usize & 0x7F, 125);
    assert_eq!(bytes.len(), 2 + 125);
}

#[test]
fn read_frame_accumulates_bytes_across_calls() {
    let mut storage: Vec<u8> = Vec::new();
    let first = read_frame(&mut storage, &[0x81, 0x05, b'h', b'e']).unwrap();
    assert!(first.is_none());
    assert_eq!(storage.len(), 4);
    let second = read_frame(&mut storage, &[b'l', b'l', b'o']).unwrap();
    let frame = second.unwrap();
    match frame {
        Frame::Data(d) => assert_eq!(d.data, b"hello".to_vec()),
        Frame::Control(_) => panic!("expected a data frame"),
    }
    assert_eq!(storage.len(), 0);
}

#[test]
fn frame_kind_follows_opcode() {
    let ping = Frame::Control(ControlFrame::new(FLAG::FIN, OPCODE::PING, None, Vec::new(), false,
        None));
    assert_eq!(ping.kind(), FrameKind::Control);
    let text = Frame::Data(DataFrame::new(FLAG::FIN, OPCODE::TEXT, Vec::new(), false, None));
    assert_eq!(text.kind(), FrameKind::Data);
}
