//! The engine's outward interface: connection tokens and the domain events
//! exchanged with the application glue.

use vstd::prelude::*;

verus! {

/// Opaque per-connection identifier: unique while the connection lives,
/// never reused; 0 is reserved for the listening socket.
#[derive(Clone, Copy, Debug, PartialEq, Eq, Hash, Structural)]
pub struct Token(pub usize);

/// Domain events: what the engine reports outward, and what the application
/// glue hands back to be sent. `Reregister` is the engine's out-of-band
/// instruction to the event loop to refresh a token's registered interest.
#[derive(Clone, Debug)]
pub enum WebSocketEvent {
    Connect(Token),
    Close(Token),
    Ping(Token, Vec<u8>),
    Pong(Token, Vec<u8>),
    TextMessage(Token, String),
    BinaryMessage(Token, Vec<u8>),
    Reregister(Token),
}

impl WebSocketEvent {
    /// The destination token an outbound send is routed by. `Pong` replies
    /// are queued by the engine itself and `Reregister` is not a send, so
    /// neither is routed.
    pub open spec fn route_token(self) -> Option<Token> {
        match self {
            WebSocketEvent::Connect(t) => Some(t),
            WebSocketEvent::Close(t) => Some(t),
            WebSocketEvent::Ping(t, _) => Some(t),
            WebSocketEvent::TextMessage(t, _) => Some(t),
            WebSocketEvent::BinaryMessage(t, _) => Some(t),
            WebSocketEvent::Pong(_, _) => None,
            WebSocketEvent::Reregister(_) => None,
        }
    }
}

} // verus!
