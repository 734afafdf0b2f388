use mio_websocket::client::ClientState;
use mio_websocket::client::Interest;
use mio_websocket::client::WebSocketClient;
use mio_websocket::frame::DecodeError;
use mio_websocket::frame::OpCode;
use mio_websocket::frame::WebSocketFrame;
use mio_websocket::http::HeaderMap;
use mio_websocket::interface::Token;
use mio_websocket::interface::WebSocketEvent;

fn connected_client(token: Token) -> WebSocketClient {
    WebSocketClient {
        state: ClientState::Connected,
        headers: HeaderMap::new(),
        interest: Interest::Read,
        outgoing: Vec::new(),
        token,
    }
}

fn masked_text_frame(text: &str) -> Vec<u8> {
    let mask = [0xA5u8, 0x5A, 0x0F, 0xF0];
    let payload = text.as_bytes();
    assert!(payload.len() < 126);
    let mut bytes = vec![0x81, 0x80 | payload.len() as u8];
    bytes.extend_from_slice(&mask);
    for (i, b) in payload.iter().enumerate() {
        bytes.push(b ^ mask[i % 4]);
    }
    bytes
}

fn close_frame_bytes(status: u16) -> Vec<u8> {
    vec![0x88, 0x02, (status >> 8) as u8, status as u8]
}

#[test]
fn text_frame_produces_text_message_event() {
    let mut client = connected_client(Token(7));
    let bytes = masked_text_frame("hi");
    let out = client.read(&bytes);
    assert!(out.error.is_none());
    assert_eq!(out.consumed, bytes.len());
    assert_eq!(out.events.len(), 1);
    match &out.events[0] {
        WebSocketEvent::TextMessage(t, s) => {
            assert_eq!(*t, Token(7));
            assert_eq!(s, "hi");
        }
        other => panic!("unexpected event: {:?}", other),
    }
    assert!(client.outgoing.is_empty());
    assert_eq!(client.interest, Interest::Read);
}

#[test]
fn binary_frame_produces_binary_message_event() {
    let mut client = connected_client(Token(7));
    let mut bytes = Vec::new();
    WebSocketFrame::from_binary(vec![1, 2, 3]).write(&mut bytes);
    let out = client.read(&bytes);
    assert_eq!(out.events.len(), 1);
    match &out.events[0] {
        WebSocketEvent::BinaryMessage(t, b) => {
            assert_eq!(*t, Token(7));
            assert_eq!(b, &vec![1, 2, 3]);
        }
        other => panic!("unexpected event: {:?}", other),
    }
}

#[test]
fn ping_queues_exactly_one_pong() {
    let mut client = connected_client(Token(7));
    let mut bytes = Vec::new();
    WebSocketFrame::ping(vec![42]).write(&mut bytes);
    let out = client.read(&bytes);
    assert!(out.events.is_empty());
    assert_eq!(client.outgoing.len(), 1);
    assert_eq!(client.outgoing[0].get_opcode(), OpCode::Pong);
    assert_eq!(client.outgoing[0].payload, vec![42]);
    assert_eq!(client.interest, Interest::Write);
}

#[test]
fn close_frame_emits_event_and_queues_exactly_one_echo() {
    let mut client = connected_client(Token(9));
    let bytes = close_frame_bytes(1000);
    let out = client.read(&bytes);
    assert_eq!(out.events.len(), 1);
    assert!(matches!(out.events[0], WebSocketEvent::Close(Token(9))));
    assert_eq!(client.outgoing.len(), 1);
    assert!(client.outgoing[0].is_close());
    assert_eq!(client.outgoing[0].payload, vec![0x03, 0xE8]);
    assert!(matches!(client.state, ClientState::Closing));
    assert_eq!(client.interest, Interest::Write);
}

#[test]
fn decode_failure_keeps_connection_open() {
    let mut client = connected_client(Token(7));
    let out = client.read(&[0x83, 0x00]);
    assert!(matches!(out.error, Some(DecodeError::UnknownOpcode)));
    assert!(out.events.is_empty());
    assert_eq!(out.consumed, 0);
    assert!(matches!(client.state, ClientState::Connected));
    assert_eq!(client.interest, Interest::Read);
}

#[test]
fn writing_queued_close_expects_hangup() {
    let mut client = connected_client(Token(9));
    let bytes = close_frame_bytes(1001);
    client.read(&bytes);
    let out = client.write();
    assert_eq!(out.data.len(), 1);
    assert_eq!(out.data[0], vec![0x88, 0x02, 0x03, 0xE9]);
    assert!(client.outgoing.is_empty());
    assert!(matches!(client.state, ClientState::Closing));
    assert_eq!(client.interest, Interest::WaitHangup);
}

#[test]
fn writing_data_frames_returns_to_read_interest() {
    let mut client = connected_client(Token(9));
    client
        .send_message(WebSocketEvent::TextMessage(Token(9), "a".to_string()))
        .expect("send failed");
    client
        .send_message(WebSocketEvent::BinaryMessage(Token(9), vec![1]))
        .expect("send failed");
    let out = client.write();
    assert_eq!(out.data.len(), 2);
    assert_eq!(out.data[0], vec![0x81, 0x01, b'a']);
    assert_eq!(out.data[1], vec![0x82, 0x01, 1]);
    assert!(client.outgoing.is_empty());
    assert!(matches!(client.state, ClientState::Connected));
    assert_eq!(client.interest, Interest::Read);
}

#[test]
fn send_message_flips_interest_once_and_asks_reregistration() {
    let mut client = connected_client(Token(5));
    let first = client
        .send_message(WebSocketEvent::TextMessage(Token(5), "one".to_string()))
        .expect("send failed");
    assert!(matches!(first, Some(WebSocketEvent::Reregister(Token(5)))));
    assert_eq!(client.interest, Interest::Write);

    let second = client
        .send_message(WebSocketEvent::TextMessage(Token(5), "two".to_string()))
        .expect("send failed");
    assert!(second.is_none());

    // Both messages stand in the queue, each exactly once, in send order.
    assert_eq!(client.outgoing.len(), 2);
    assert_eq!(client.outgoing[0].payload, b"one".to_vec());
    assert_eq!(client.outgoing[1].payload, b"two".to_vec());
}

#[test]
fn send_message_builds_the_frame_the_message_names() {
    let mut client = connected_client(Token(5));
    client
        .send_message(WebSocketEvent::Ping(Token(5), vec![7, 8]))
        .expect("send failed");
    client
        .send_message(WebSocketEvent::Close(Token(5)))
        .expect("send failed");
    assert_eq!(client.outgoing.len(), 2);
    assert_eq!(client.outgoing[0].get_opcode(), OpCode::Ping);
    assert_eq!(client.outgoing[0].payload, vec![7, 8]);
    assert!(client.outgoing[1].is_close());
    let mut expected = vec![0x00u8, 0x00];
    expected.extend_from_slice(b"Server-initiated close");
    assert_eq!(client.outgoing[1].payload, expected);
}

#[test]
fn send_message_refuses_non_sends() {
    let mut client = connected_client(Token(5));
    assert!(client.send_message(WebSocketEvent::Connect(Token(5))).is_err());
    assert!(client
        .send_message(WebSocketEvent::Reregister(Token(5)))
        .is_err());
    assert!(client.outgoing.is_empty());
    assert_eq!(client.interest, Interest::Read);
}

#[test]
fn text_frame_decodes_multibyte_utf8() {
    // "é" is two UTF-8 bytes but one character: the decoded text must be
    // the character, not the raw bytes.
    let mut client = connected_client(Token(7));
    let payload = "é".as_bytes();
    assert_eq!(payload.len(), 2);
    let mut bytes = vec![0x81u8, payload.len() as u8];
    bytes.extend_from_slice(payload);
    let out = client.read(&bytes);
    match &out.events[0] {
        WebSocketEvent::TextMessage(_, s) => {
            assert_eq!(s, "é");
            assert_eq!(s.chars().count(), 1);
        }
        other => panic!("unexpected event: {:?}", other),
    }
}

#[test]
fn read_while_awaiting_handshake_changes_nothing() {
    let mut client = WebSocketClient::new(Token(2));
    let out = client.read(&[0x81, 0x00]);
    assert!(out.events.is_empty());
    assert_eq!(out.consumed, 0);
    assert!(out.error.is_none());
    assert!(matches!(client.state, ClientState::AwaitingHandshake(_)));
}
