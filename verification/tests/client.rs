use websocket_std::client::{WSClient, WSEvent, Reason, ReadInput, Action, ConnectionStatus};
use websocket_std::result::WebSocketError;
use base64::Engine;

// Globally Unique Identifier
const GUID: &str = "258EAFA5-E914-47DA-95CA-C5AB0DC85B11";

fn sec_websocket_accept(sec_websocket_key: &str) -> String {
    let mut accept_key = String::with_capacity(sec_websocket_key.len() + GUID.len());
    accept_key.push_str(sec_websocket_key);
    accept_key.push_str(GUID);
    let mut hasher = sha1_smol::Sha1::new();
    hasher.update(accept_key.as_bytes());
    let digest = hasher.digest().bytes();
    base64::engine::general_purpose::STANDARD.encode(digest)
}

fn extract_key(request: &str) -> String {
    let lower = request.to_lowercase();
    let at = lower.find("sec-websocket-key").expect("key header missing");
    let rest = &request[at..];
    let colon = rest.find(':').unwrap();
    let rest = &rest[colon + 1..];
    let end = rest.find("\r\n").unwrap();
    rest[..end].trim().to_string()
}

fn unmask(bytes: &[u8]) -> Vec<u8> {
    // Frame with a short payload: mask key at 2..6, payload after it.
    let mask = &bytes[2..6];
    bytes[6..].iter().enumerate().map(|(i, b)| b ^ mask[i % 4]).collect()
}

/// Drives a fresh client through connect and handshake against an accepting
/// mock server, and returns it in the `Open` state.
fn open_client() -> WSClient {
    let mut client = WSClient::new();
    client.init("localhost", 9000, "/", None);
    let action = client.event_loop(ReadInput::WouldBlock).unwrap();
    assert!(matches!(action, Action::Connect));
    client.connect_result(true).unwrap();
    let action = client.event_loop(ReadInput::WouldBlock).unwrap();
    let request_bytes = match action {
        Action::Write(b) => b,
        _ => panic!("expected the upgrade request"),
    };
    client.write_result(true).unwrap();
    let request = String::from_utf8(request_bytes).unwrap();
    assert!(request.starts_with("GET / HTTP/1.1\r\n"));
    let key = extract_key(&request);
    let accept = sec_websocket_accept(&key);
    let response = format!(
        "HTTP/1.1 101 Switching Protocols\r\nUpgrade: websocket\r\nConnection: Upgrade\r\nSec-WebSocket-Accept: {}\r\n\r\n",
        accept
    );
    client.event_loop(ReadInput::Data(response.into_bytes())).unwrap();
    assert_eq!(client.connection_status, ConnectionStatus::Open);
    let events = client.take_events();
    assert_eq!(events.len(), 1);
    assert!(matches!(events[0], WSEvent::ON_CONNECT(None)));
    client
}

#[test]
fn scenario_happy_path() {
    let mut client = open_client();

    client.send("Hello");
    let action = client.event_loop(ReadInput::WouldBlock).unwrap();
    let frame_bytes = match action {
        Action::Write(b) => b,
        _ => panic!("expected the data frame"),
    };
    client.write_result(true).unwrap();
    // Exactly one masked TEXT frame carrying "Hello".
    assert_eq!(frame_bytes[0], 0x81);
    assert_eq!(frame_bytes[1], 0x85);
    assert_eq!(unmask(&frame_bytes), b"Hello".to_vec());
    // No second frame follows.
    let action = client.event_loop(ReadInput::WouldBlock).unwrap();
    assert!(matches!(action, Action::Wait));

    // The server echoes a text frame; the message event fires with it.
    let mut echo = vec![0x81u8, 0x05];
    echo.extend_from_slice(b"Hello");
    client.event_loop(ReadInput::Data(echo)).unwrap();
    let events = client.take_events();
    assert_eq!(events.len(), 1);
    match &events[0] {
        WSEvent::ON_TEXT(s) => assert_eq!(s, "Hello"),
        _ => panic!("expected the text event"),
    }
}

#[test]
fn scenario_fragmented_send() {
    let mut client = open_client();
    client.set_message_size(3);
    client.send("Hello");

    let first = match client.event_loop(ReadInput::WouldBlock).unwrap() {
        Action::Write(b) => b,
        _ => panic!("expected the first fragment"),
    };
    client.write_result(true).unwrap();
    let second = match client.event_loop(ReadInput::WouldBlock).unwrap() {
        Action::Write(b) => b,
        _ => panic!("expected the second fragment"),
    };
    client.write_result(true).unwrap();
    // Exactly two frames.
    assert!(matches!(client.event_loop(ReadInput::WouldBlock).unwrap(), Action::Wait));

    // TEXT without FIN, then CONTINUATION with FIN.
    assert_eq!(first[0], 0x01);
    assert_eq!(second[0], 0x80);
    assert_eq!(first[1], 0x83);
    assert_eq!(second[1], 0x82);
    // Server-side reassembly yields the original message.
    let mut joined = unmask(&first);
    joined.extend_from_slice(&unmask(&second));
    assert_eq!(joined, b"Hello".to_vec());
}

#[test]
fn scenario_handshake_rejection() {
    let mut client = WSClient::new();
    client.init("localhost", 9000, "/", None);
    assert!(matches!(client.event_loop(ReadInput::WouldBlock).unwrap(), Action::Connect));
    client.connect_result(true).unwrap();
    let action = client.event_loop(ReadInput::WouldBlock).unwrap();
    assert!(matches!(action, Action::Write(_)));
    client.write_result(true).unwrap();

    let response = b"HTTP/1.1 400 Bad Request\r\nContent-Length: 0\r\n\r\n".to_vec();
    let res = client.event_loop(ReadInput::Data(response));
    assert_eq!(res.unwrap_err(), WebSocketError::HandShake);
    // The state never reaches Open and the connect event never fires.
    assert_ne!(client.connection_status, ConnectionStatus::Open);
    assert!(client.take_events().is_empty());
}

#[test]
fn scenario_peer_initiated_close() {
    let mut client = open_client();

    // CLOSE with status 1000 and reason "bye".
    let mut close = vec![0x88u8, 0x05, 0x03, 0xE8];
    close.extend_from_slice(b"bye");
    client.event_loop(ReadInput::Data(close)).unwrap();
    assert_eq!(client.connection_status, ConnectionStatus::ServerWantsToClose);

    // The next tick transmits the echo, reusing status and reason.
    let echo = match client.event_loop(ReadInput::WouldBlock).unwrap() {
        Action::Write(b) => b,
        _ => panic!("expected the close echo"),
    };
    assert_eq!(echo[0], 0x88);
    let payload = unmask(&echo);
    assert_eq!(payload[0..2], [0x03, 0xE8]);
    assert_eq!(&payload[2..], b"bye");

    // Completing the write closes the connection and reports it.
    let action = client.write_result(true).unwrap();
    assert!(matches!(action, Action::Shutdown));
    assert_eq!(client.connection_status, ConnectionStatus::Close);
    let events = client.take_events();
    assert_eq!(events.len(), 1);
    assert!(matches!(events[0], WSEvent::ON_CLOSE(Reason::SERVER_CLOSE(1000))));
}

#[test]
fn scenario_client_initiated_teardown() {
    let mut client = open_client();
    client.start_close();
    assert_eq!(client.connection_status, ConnectionStatus::ClientWantsToClose);

    // The client transmits CLOSE(1000, "Done").
    let close = match client.event_loop(ReadInput::WouldBlock).unwrap() {
        Action::Write(b) => b,
        _ => panic!("expected the close frame"),
    };
    client.write_result(true).unwrap();
    assert_eq!(close[0], 0x88);
    let payload = unmask(&close);
    assert_eq!(payload[0..2], [0x03, 0xE8]);
    assert_eq!(&payload[2..], b"Done");

    // The peer's echo completes the handshake and shuts the transport down.
    let mut echo = vec![0x88u8, 0x06, 0x03, 0xE8];
    echo.extend_from_slice(b"Done");
    let action = client.event_loop(ReadInput::Data(echo)).unwrap();
    assert!(matches!(action, Action::Shutdown));
    assert_eq!(client.connection_status, ConnectionStatus::Close);
    let events = client.take_events();
    assert_eq!(events.len(), 1);
    assert!(matches!(events[0], WSEvent::ON_CLOSE(Reason::CLIENT_CLOSE(1000))));
}

#[test]
fn ping_is_answered_with_pong() {
    let mut client = open_client();
    client.event_loop(ReadInput::Data(vec![0x89, 0x03, 1, 2, 3])).unwrap();
    let pong = match client.event_loop(ReadInput::WouldBlock).unwrap() {
        Action::Write(b) => b,
        _ => panic!("expected the pong"),
    };
    assert_eq!(pong[0], 0x8A);
    assert_eq!(pong[1], 0x83);
    assert_eq!(unmask(&pong), vec![1, 2, 3]);
}

#[test]
fn pong_is_accepted_and_ignored() {
    let mut client = open_client();
    let res = client.event_loop(ReadInput::Data(vec![0x8A, 0x00]));
    assert!(res.is_ok());
    assert!(client.take_events().is_empty());
}

#[test]
fn fragmented_message_is_reassembled_into_one_event() {
    let mut client = open_client();
    // "He" without FIN, "llo" as the final continuation.
    client.event_loop(ReadInput::Data(vec![0x01, 0x02, b'H', b'e'])).unwrap();
    assert!(client.take_events().is_empty());
    client.event_loop(ReadInput::Data(vec![0x80, 0x03, b'l', b'l', b'o'])).unwrap();
    let events = client.take_events();
    assert_eq!(events.len(), 1);
    match &events[0] {
        WSEvent::ON_TEXT(s) => assert_eq!(s, "Hello"),
        _ => panic!("expected the reassembled text"),
    }
}

#[test]
fn invalid_utf8_text_is_a_decoding_error() {
    let mut client = open_client();
    let res = client.event_loop(ReadInput::Data(vec![0x81, 0x02, 0xFF, 0xFE]));
    assert_eq!(res.unwrap_err(), WebSocketError::DecodingFromUTF8);
}

#[test]
fn invalid_frame_is_a_protocol_error() {
    let mut client = open_client();
    let res = client.event_loop(ReadInput::Data(vec![0x83, 0x00]));
    assert_eq!(res.unwrap_err(), WebSocketError::InvalidFrame);
}

#[test]
fn eof_is_promoted_to_connection_close() {
    let mut client = open_client();
    let res = client.event_loop(ReadInput::Eof);
    assert_eq!(res.unwrap_err(), WebSocketError::ConnectionClose);
}

#[test]
fn sends_are_buffered_until_the_handshake_completes() {
    let mut client = WSClient::new();
    client.init("localhost", 9000, "/", None);
    client.event_loop(ReadInput::WouldBlock).unwrap();
    client.connect_result(true).unwrap();
    client.send("early");
    // The upgrade request goes out first.
    let request = match client.event_loop(ReadInput::WouldBlock).unwrap() {
        Action::Write(b) => b,
        _ => panic!("expected the upgrade request"),
    };
    client.write_result(true).unwrap();
    // While handshaking, the buffered frame is held back.
    assert!(matches!(client.event_loop(ReadInput::WouldBlock).unwrap(), Action::Wait));
    // Once open, it is transmitted.
    let key = extract_key(&String::from_utf8(request).unwrap());
    let accept = sec_websocket_accept(&key);
    let response = format!("HTTP/1.1 101 S\r\nSec-WebSocket-Accept: {}\r\n\r\n", accept);
    client.event_loop(ReadInput::Data(response.into_bytes())).unwrap();
    assert_eq!(client.connection_status, ConnectionStatus::Open);
    let frame = match client.event_loop(ReadInput::WouldBlock).unwrap() {
        Action::Write(b) => b,
        _ => panic!("expected the buffered frame"),
    };
    assert_eq!(unmask(&frame), b"early".to_vec());
}

#[test]
fn blocked_write_is_retried_without_loss() {
    let mut client = open_client();
    client.send("abc");
    let first = match client.event_loop(ReadInput::WouldBlock).unwrap() {
        Action::Write(b) => b,
        _ => panic!("expected the frame"),
    };
    // The transport would block: the frame goes back to the queue front.
    client.write_result(false).unwrap();
    let second = match client.event_loop(ReadInput::WouldBlock).unwrap() {
        Action::Write(b) => b,
        _ => panic!("expected the retry"),
    };
    assert_eq!(first, second);
    client.write_result(true).unwrap();
    assert!(matches!(client.event_loop(ReadInput::WouldBlock).unwrap(), Action::Wait));
}

#[test]
fn negotiated_protocol_is_recorded() {
    let mut client = WSClient::new();
    client.init("localhost", 9000, "/", Some(vec!["chat".to_string(), "echo".to_string()]));
    client.event_loop(ReadInput::WouldBlock).unwrap();
    client.connect_result(true).unwrap();
    let request = match client.event_loop(ReadInput::WouldBlock).unwrap() {
        Action::Write(b) => b,
        _ => panic!("expected the upgrade request"),
    };
    client.write_result(true).unwrap();
    let request = String::from_utf8(request).unwrap();
    assert!(request.contains("Sec-WebSocket-Protocol: chat, echo\r\n"));
    let key = extract_key(&request);
    let accept = sec_websocket_accept(&key);
    let response = format!(
        "HTTP/1.1 101 S\r\nSec-WebSocket-Accept: {}\r\nSec-WebSocket-Protocol: chat\r\n\r\n",
        accept
    );
    client.event_loop(ReadInput::Data(response.into_bytes())).unwrap();
    assert_eq!(client.protocol(), Some("chat"));
}

#[test]
fn send_on_a_closed_connection_does_nothing() {
    let mut client = open_client();
    let mut close = vec![0x88u8, 0x02, 0x03, 0xE8];
    client.event_loop(ReadInput::Data(close.drain(..).collect())).unwrap();
    let echo = client.event_loop(ReadInput::WouldBlock).unwrap();
    assert!(matches!(echo, Action::Write(_)));
    client.write_result(true).unwrap();
    assert_eq!(client.connection_status, ConnectionStatus::Close);
    client.send("late");
    let res = client.event_loop(ReadInput::WouldBlock);
    assert_eq!(res.unwrap_err(), WebSocketError::ConnectionClose);
}

#[test]
fn close_with_unknown_status_escalates_to_protocol_error() {
    let mut client = open_client();
    // Status 3500 is not among the known-safe codes.
    client.event_loop(ReadInput::Data(vec![0x88, 0x02, 0x0D, 0xAC])).unwrap();
    let echo = match client.event_loop(ReadInput::WouldBlock).unwrap() {
        Action::Write(b) => b,
        _ => panic!("expected the close echo"),
    };
    let payload = unmask(&echo);
    // The echoed status is 1002.
    assert_eq!(payload[0..2], [0x03, 0xEA]);
}
