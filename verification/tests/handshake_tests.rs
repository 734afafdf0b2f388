use mio_websocket::client::gen_key;
use mio_websocket::client::ClientState;
use mio_websocket::client::Interest;
use mio_websocket::client::WebSocketClient;
use mio_websocket::http::HttpParser;
use mio_websocket::interface::Token;
use mio_websocket::interface::WebSocketEvent;

#[test]
fn accept_key_matches_rfc_vector() {
    let key = gen_key(b"dGhlIHNhbXBsZSBub25jZQ==");
    assert_eq!(key, "s3pPLMBiTxaQ9kYGzzhZRbK+xOo=");
}

#[test]
fn accept_key_of_empty_key_is_guid_hash() {
    // SHA-1 of the bare GUID, base64-encoded.
    let key = gen_key(b"");
    assert_eq!(key.len(), 28);
    assert!(key.ends_with('='));
}

#[test]
fn header_parser_stores_value_under_last_field() {
    let mut p = HttpParser::new();
    assert!(p.on_header_field(b"Host"));
    assert!(p.on_header_value(b"example.org"));
    assert!(p.on_header_field(b"Upgrade"));
    assert!(p.on_header_value(b"websocket"));
    assert_eq!(p.headers.get(b"Host").map(|v| v.as_slice()), Some(&b"example.org"[..]));
    assert_eq!(p.headers.get(b"Upgrade").map(|v| v.as_slice()), Some(&b"websocket"[..]));
    assert_eq!(p.headers.get(b"Missing"), None);
}

#[test]
fn header_parser_last_write_wins() {
    let mut p = HttpParser::new();
    p.on_header_field(b"X-Thing");
    p.on_header_value(b"one");
    p.on_header_field(b"X-Thing");
    p.on_header_value(b"two");
    assert_eq!(p.headers.get(b"X-Thing").map(|v| v.as_slice()), Some(&b"two"[..]));
}

#[test]
fn header_parser_value_without_field_is_dropped() {
    let mut p = HttpParser::new();
    assert!(p.on_header_value(b"orphan"));
    assert_eq!(p.headers.get(b"orphan"), None);
}

#[test]
fn headers_complete_stops_parsing() {
    let mut p = HttpParser::new();
    assert!(!p.on_headers_complete());
}

#[test]
fn upgrade_request_moves_to_handshake_response_with_write_interest() {
    let mut client = WebSocketClient::new(Token(3));
    assert!(matches!(client.state, ClientState::AwaitingHandshake(_)));
    assert_eq!(client.interest, Interest::Read);

    client.on_header_field(b"Sec-WebSocket-Key");
    client.on_header_value(b"dGhlIHNhbXBsZSBub25jZQ==");
    client.on_handshake(true);

    assert!(matches!(client.state, ClientState::HandshakeResponse));
    assert_eq!(client.interest, Interest::Write);
}

#[test]
fn incomplete_handshake_keeps_waiting() {
    let mut client = WebSocketClient::new(Token(3));
    client.on_header_field(b"Host");
    client.on_header_value(b"example.org");
    client.on_handshake(false);
    assert!(matches!(client.state, ClientState::AwaitingHandshake(_)));
    assert_eq!(client.interest, Interest::Read);
}

#[test]
fn handshake_response_carries_accept_key() {
    let mut client = WebSocketClient::new(Token(3));
    client.on_header_field(b"Sec-WebSocket-Key");
    client.on_header_value(b"dGhlIHNhbXBsZSBub25jZQ==");
    client.on_handshake(true);

    let out = client.write();
    assert!(!out.abandoned);
    assert_eq!(out.data.len(), 1);
    let response = String::from_utf8(out.data[0].clone()).expect("response is text");
    assert_eq!(
        response,
        "HTTP/1.1 101 Switching Protocols\r\nConnection: Upgrade\r\n\
         Sec-WebSocket-Accept: s3pPLMBiTxaQ9kYGzzhZRbK+xOo=\r\nUpgrade: websocket\r\n\r\n"
    );
    assert_eq!(out.events.len(), 1);
    assert!(matches!(out.events[0], WebSocketEvent::Connect(Token(3))));
    assert!(matches!(client.state, ClientState::Connected));
    assert_eq!(client.interest, Interest::Read);
}

#[test]
fn handshake_without_key_is_abandoned() {
    let mut client = WebSocketClient::new(Token(4));
    client.on_header_field(b"Host");
    client.on_header_value(b"example.org");
    client.on_handshake(true);

    let out = client.write();
    assert!(out.abandoned);
    assert!(out.data.is_empty());
    assert!(out.events.is_empty());
}
