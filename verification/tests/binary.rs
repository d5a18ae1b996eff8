use websocket_std::binary::{bytes_to_u16, bytes_to_u64};
use websocket_std::net::{read_into_buffer, RawRead};
use websocket_std::result::WebSocketError;

#[test]
fn valid_bytes_to_u16() {
    let bytes = [67, 218];
    let res = bytes_to_u16(bytes.as_slice());
    assert!(res.is_ok());
    let value: u16 = (256u16.pow(1) * 67) + (256u16.pow(0) * 218);
    assert_eq!(res.unwrap(), value);
}

#[test]
fn invalid_bytes_to_u16() {
    let bytes = [8, 0, 1];
    let res = bytes_to_u16(bytes.as_slice());
    assert!(res.is_err());
}

#[test]
fn valid_bytes_to_u64() {
    let bytes = [1, 0, 0, 0, 0, 0, 5, 255];
    let res = bytes_to_u64(bytes.as_slice());
    assert!(res.is_ok());
    let value: u64 = (256u64.pow(7) * 1) + (256u64.pow(1) * 5) + (256u64.pow(0) * 255);
    assert_eq!(res.unwrap(), value);
}

#[test]
fn invalid_bytes_to_u64() {
    let bytes = [8, 0, 1];
    let res = bytes_to_u64(bytes.as_slice());
    assert!(res.is_err());
}

#[test]
fn no_bytes_ready_to_read() {
    let res = read_into_buffer(RawRead::WouldBlock);
    assert!(res.is_ok());
    assert_eq!(0, res.unwrap());
}

#[test]
fn eof_reached() {
    let res = read_into_buffer(RawRead::Count(0));
    assert!(res.is_err());
    assert_eq!(res.unwrap_err(), WebSocketError::ConnectionClose);
}

#[test]
fn read_less_than_buffer_capacity() {
    let res = read_into_buffer(RawRead::Count(5));
    assert!(res.is_ok());
    assert_eq!(5, res.unwrap());
}

#[test]
fn read_same_as_buffer_capacity() {
    let res = read_into_buffer(RawRead::Count(1024));
    assert!(res.is_ok());
    assert_eq!(1024, res.unwrap());
}

#[test]
fn read_more_than_buffer_capacity() {
    let res = read_into_buffer(RawRead::Count(2048));
    assert!(res.is_ok());
    assert_eq!(2048, res.unwrap());
}

#[test]
fn read_failure_is_io_error() {
    let res = read_into_buffer(RawRead::Failed);
    assert!(res.is_err());
    assert_eq!(res.unwrap_err(), WebSocketError::IOError);
}
