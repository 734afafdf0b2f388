use mio_websocket::client::Interest;
use mio_websocket::interface::Token;
use mio_websocket::interface::WebSocketEvent;
use mio_websocket::server::WebSocketServerState;

#[test]
fn tokens_are_monotone_from_one() {
    let mut reg = WebSocketServerState::new();
    let a = reg.new_client();
    let b = reg.new_client();
    let c = reg.new_client();
    assert_eq!(a, Token(1));
    assert_eq!(b, Token(2));
    assert_eq!(c, Token(3));
    assert_eq!(reg.get_peers(), Some(vec![a, b, c]));
}

#[test]
fn removed_token_is_not_reused() {
    let mut reg = WebSocketServerState::new();
    let a = reg.new_client();
    assert!(reg.remove_client(&a).is_some());
    let b = reg.new_client();
    assert_ne!(a, b);
    assert_eq!(b, Token(2));
}

#[test]
fn remove_client_detaches_exactly_that_entry() {
    let mut reg = WebSocketServerState::new();
    let a = reg.new_client();
    let b = reg.new_client();
    let removed = reg.remove_client(&a).expect("known token");
    assert_eq!(removed.token, a);
    assert_eq!(reg.get_peers(), Some(vec![b]));
    assert!(reg.remove_client(&a).is_none());
}

#[test]
fn send_to_unknown_token_is_refused() {
    let mut reg = WebSocketServerState::new();
    let r = reg.send_message(WebSocketEvent::TextMessage(Token(41), "x".to_string()));
    assert!(r.is_err());
}

#[test]
fn send_without_destination_is_ignored() {
    let mut reg = WebSocketServerState::new();
    let r = reg.send_message(WebSocketEvent::Reregister(Token(1)));
    assert!(matches!(r, Ok(None)));
    let r = reg.send_message(WebSocketEvent::Pong(Token(1), vec![]));
    assert!(matches!(r, Ok(None)));
}

#[test]
fn interleaved_sends_each_appear_exactly_once() {
    // Two producers' sends reach the registry one after the other, in
    // whichever order its exclusive access admitted them.
    let mut reg = WebSocketServerState::new();
    let t = reg.new_client();
    // Walk the connection to the connected state first.
    reg.client_on_header_field(t, b"Sec-WebSocket-Key").unwrap();
    reg.client_on_header_value(t, b"dGhlIHNhbXBsZSBub25jZQ==").unwrap();
    assert!(reg.client_on_handshake(t, true));
    reg.client_write(t).unwrap();

    let first = reg
        .send_message(WebSocketEvent::TextMessage(t, "from thread A".to_string()))
        .expect("send failed");
    assert!(matches!(first, Some(WebSocketEvent::Reregister(tok)) if tok == t));
    let second = reg
        .send_message(WebSocketEvent::TextMessage(t, "from thread B".to_string()))
        .expect("send failed");
    assert!(second.is_none());

    // Draining the queue shows both messages, each once, in order.
    let out = reg.client_write(t).expect("known token");
    assert_eq!(out.data.len(), 2);
    assert_eq!(&out.data[0][2..], b"from thread A");
    assert_eq!(&out.data[1][2..], b"from thread B");
}

#[test]
fn end_to_end_handshake_echo_and_close() {
    let mut reg = WebSocketServerState::new();
    let t = reg.new_client();
    assert_eq!(reg.client_interest(t), Some(Interest::Read));

    // The client connects and sends an upgrade-requesting handshake.
    assert_eq!(reg.client_on_header_field(t, b"Upgrade"), Some(true));
    assert_eq!(reg.client_on_header_value(t, b"websocket"), Some(true));
    assert_eq!(reg.client_on_header_field(t, b"Sec-WebSocket-Key"), Some(true));
    assert_eq!(
        reg.client_on_header_value(t, b"dGhlIHNhbXBsZSBub25jZQ=="),
        Some(true)
    );
    assert!(reg.client_on_handshake(t, true));
    assert_eq!(reg.client_interest(t), Some(Interest::Write));

    // The server answers 101 with the correct accept key.
    let out = reg.client_write(t).expect("known token");
    assert!(!out.abandoned);
    let response = String::from_utf8(out.data[0].clone()).expect("text response");
    assert!(response.starts_with("HTTP/1.1 101 Switching Protocols\r\n"));
    assert!(response.contains("Sec-WebSocket-Accept: s3pPLMBiTxaQ9kYGzzhZRbK+xOo=\r\n"));
    assert!(matches!(out.events[0], WebSocketEvent::Connect(tok) if tok == t));
    assert_eq!(reg.client_interest(t), Some(Interest::Read));

    // The client sends a Text frame "hi" (masked, as clients must).
    let mask = [9u8, 8, 7, 6];
    let frame = vec![
        0x81,
        0x80 | 0x02,
        mask[0],
        mask[1],
        mask[2],
        mask[3],
        b'h' ^ mask[0],
        b'i' ^ mask[1],
    ];
    let read = reg.client_read(t, &frame).expect("known token");
    assert!(read.error.is_none());
    assert_eq!(read.events.len(), 1);
    let text = match &read.events[0] {
        WebSocketEvent::TextMessage(tok, s) => {
            assert_eq!(*tok, t);
            s.clone()
        }
        other => panic!("unexpected event: {:?}", other),
    };
    assert_eq!(text, "hi");

    // The application glue echoes to all other peers: there are none, and
    // the sender gets no echo.
    let peers = reg.get_peers().expect("snapshot");
    let others: Vec<Token> = peers.into_iter().filter(|p| *p != t).collect();
    assert!(others.is_empty());

    // The client sends Close; the server echoes it and awaits the hangup.
    let close = vec![0x88, 0x02, 0x03, 0xE8];
    let read = reg.client_read(t, &close).expect("known token");
    assert!(matches!(read.events[0], WebSocketEvent::Close(tok) if tok == t));
    let out = reg.client_write(t).expect("known token");
    assert_eq!(out.data.len(), 1);
    assert_eq!(out.data[0], vec![0x88, 0x02, 0x03, 0xE8]);
    assert_eq!(reg.client_interest(t), Some(Interest::WaitHangup));

    // Hangup: the connection leaves the registry.
    assert!(reg.remove_client(&t).is_some());
    assert_eq!(reg.get_peers(), Some(Vec::new()));
    assert_eq!(reg.client_interest(t), None);
}
