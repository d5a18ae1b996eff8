use websocket_std::status_code::{evaulate_status_code, NORMAL_CLOSURE, GOING_AWAY,
    PROTOCOL_ERROR, RESERVED_1004};
use websocket_std::result::{rust_error_to_c_error, WebSocketError, WSStatus};
use websocket_std::extension::{Extension, Parameter};

#[test]
fn clean_close_codes_are_not_errors() {
    assert_eq!(evaulate_status_code(NORMAL_CLOSURE), (false, true));
    assert_eq!(evaulate_status_code(GOING_AWAY), (false, true));
}

#[test]
fn reserved_code_neither_errs_nor_closes() {
    assert_eq!(evaulate_status_code(RESERVED_1004), (false, false));
}

#[test]
fn other_codes_are_errors_that_close() {
    assert_eq!(evaulate_status_code(PROTOCOL_ERROR), (true, true));
    assert_eq!(evaulate_status_code(1003), (true, true));
    assert_eq!(evaulate_status_code(1005), (true, true));
    assert_eq!(evaulate_status_code(3500), (true, true));
    assert_eq!(evaulate_status_code(0), (true, true));
}

#[test]
fn every_error_maps_to_its_c_status() {
    assert_eq!(rust_error_to_c_error(WebSocketError::UnreachableHost), WSStatus::UnreachableHost);
    assert_eq!(rust_error_to_c_error(WebSocketError::HandShake), WSStatus::HandShake);
    assert_eq!(rust_error_to_c_error(WebSocketError::InvalidFrame), WSStatus::InvalidFrame);
    assert_eq!(rust_error_to_c_error(WebSocketError::ConnectionClose), WSStatus::ConnectionClose);
    assert_eq!(
        rust_error_to_c_error(WebSocketError::DecodingFromUTF8),
        WSStatus::DecodingFromUTF8
    );
    assert_eq!(rust_error_to_c_error(WebSocketError::IOError), WSStatus::IOError);
}

#[test]
fn extension_offers_hold_their_parts() {
    let param = Parameter::new("client_max_window_bits".to_string(), None);
    assert_eq!(param.name, "client_max_window_bits");
    assert!(param.args.is_none());
    let ext = Extension::new("permessage-deflate".to_string(), vec![param]);
    assert_eq!(ext.name, "permessage-deflate");
    assert_eq!(ext.params.len(), 1);
}
