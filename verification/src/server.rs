//! The shared connection registry: the token-to-connection table that the
//! event-loop thread and outside producer threads both reach. Exclusive
//! access wraps it from outside; every way to touch one connection goes
//! through the accessors here, so no two callers interleave on one entry.

use vstd::prelude::*;

use crate::client::ReadResult;
use crate::client::WebSocketClient;
use crate::client::WriteResult;
use crate::interface::Token;
use crate::interface::WebSocketEvent;

verus! {

/// The registry: monotone token counter and the live connections, in
/// insertion order. Token 0 stays reserved for the listening socket.
pub struct WebSocketServerState {
    token_counter: usize,
    clients: Vec<(Token, WebSocketClient)>,
}

impl WebSocketServerState {
    /// The next token value to hand out.
    pub closed spec fn counter(self) -> int {
        self.token_counter as int
    }

    /// The live (token, connection) entries, in insertion order.
    pub closed spec fn entries(self) -> Seq<(Token, WebSocketClient)> {
        self.clients@
    }

    /// The live tokens, in insertion order.
    pub open spec fn tokens(self) -> Seq<Token> {
        Seq::new(self.entries().len(), |i: int| self.entries()[i].0)
    }

    /// Whether a token is live.
    pub open spec fn has_token(self, t: Token) -> bool {
        exists|i: int| 0 <= i < self.entries().len() && (#[trigger] self.entries()[i]).0 == t
    }

    /// Registry validity: tokens are pairwise distinct, at least 1 and
    /// below the counter, and each connection is well-formed and carries
    /// its own token.
    pub open spec fn wf(self) -> bool {
        &&& 1 <= self.counter()
        &&& (forall|i: int, j: int|
            0 <= i < j < self.entries().len() ==> (#[trigger] self.entries()[i]).0 != (
            #[trigger] self.entries()[j]).0)
        &&& (forall|i: int|
            0 <= i < self.entries().len() ==> 1 <= (#[trigger] self.entries()[i]).0.0
                < self.counter())
        &&& (forall|i: int|
            0 <= i < self.entries().len() ==> (#[trigger] self.entries()[i]).1.wf()
                && self.entries()[i].1.token == self.entries()[i].0)
    }

    /// All entries but the one at `i` stand as before, that one keeps its
    /// token, and the counter is unchanged.
    pub open spec fn updated_at(old_s: Self, new_s: Self, i: int) -> bool {
        &&& new_s.entries().len() == old_s.entries().len()
        &&& (forall|j: int|
            0 <= j < old_s.entries().len() && j != i ==> (#[trigger] new_s.entries()[j])
                == old_s.entries()[j])
        &&& new_s.entries()[i].0 == old_s.entries()[i].0
        &&& new_s.counter() == old_s.counter()
    }

    pub fn new() -> (s: WebSocketServerState)
        ensures
            s.wf(),
            s.counter() == 1,
            s.entries().len() == 0,
    {
        WebSocketServerState { token_counter: 1, clients: Vec::new() }
    }

    /// The position of a token's entry, if the token is live.
    fn find(&self, tkn: Token) -> (r: Option<usize>)
        ensures
            (match r {
                Some(i) => i < self.entries().len() && self.entries()[i as int].0 == tkn,
                None => !self.has_token(tkn),
            }),
    {
        let n = self.clients.len();
        let mut i: usize = 0;
        while i < n
            invariant
                i <= n,
                n == self.entries().len(),
                forall|j: int| 0 <= j < i ==> (#[trigger] self.entries()[j]).0 != tkn,
            decreases n - i,
        {
            if self.clients[i].0 == tkn {
                return Some(i);
            }
            i += 1;
        }
        None
    }

    /// Whether another token can still be allocated: the counter is
    /// monotone and never reused, so it can in principle run out.
    pub fn can_accept(&self) -> (r: bool)
        ensures
            r == (self.counter() < usize::MAX),
    {
        self.token_counter < usize::MAX
    }

    /// Allocates the next token and inserts a fresh connection awaiting
    /// its handshake. The token was not live before and is live after.
    pub fn new_client(&mut self) -> (t: Token)
        requires
            old(self).wf(),
            old(self).counter() < usize::MAX,
        ensures
            final(self).wf(),
            t.0 == old(self).counter(),
            !old(self).has_token(t),
            final(self).has_token(t),
            final(self).counter() == old(self).counter() + 1,
            final(self).entries().len() == old(self).entries().len() + 1,
            final(self).entries().subrange(0, old(self).entries().len() as int) == old(
                self,
            ).entries(),
            final(self).entries().last().0 == t,
            WebSocketClient::fresh_spec(final(self).entries().last().1, t),
    {
        let new_token = Token(self.token_counter);
        self.token_counter = self.token_counter + 1;
        let client = WebSocketClient::new(new_token);
        self.clients.push((new_token, client));
        proof {
            assert(self.entries().subrange(0, old(self).entries().len() as int) =~= old(
                self,
            ).entries());
            assert(self.entries().last().0 == new_token);
        }
        new_token
    }

    /// A snapshot of the live tokens. The registry never poisons: the
    /// snapshot is always produced.
    pub fn get_peers(&self) -> (r: Option<Vec<Token>>)
        ensures
            r matches Some(v) && v@ == self.tokens(),
    {
        let n = self.clients.len();
        let mut peers: Vec<Token> = Vec::new();
        let mut i: usize = 0;
        while i < n
            invariant
                i <= n,
                n == self.entries().len(),
                peers@.len() == i,
                forall|j: int| 0 <= j < i ==> peers@[j] == (#[trigger] self.entries()[j]).0,
            decreases n - i,
        {
            peers.push(self.clients[i].0);
            i += 1;
        }
        proof {
            assert(peers@ =~= self.tokens());
        }
        Some(peers)
    }

    /// Detaches a connection and hands back its ownership for teardown;
    /// the token is retired.
    pub fn remove_client(&mut self, tkn: &Token) -> (r: Option<WebSocketClient>)
        requires
            old(self).wf(),
        ensures
            final(self).wf(),
            final(self).counter() == old(self).counter(),
            (match r {
                Some(c) => !final(self).has_token(*tkn) && exists|i: int|
                    0 <= i < old(self).entries().len() && (#[trigger] old(self).entries()[i]).0
                        == *tkn && c == old(self).entries()[i].1 && final(self).entries() == old(
                        self,
                    ).entries().remove(i),
                None => *final(self) == *old(self) && !old(self).has_token(*tkn),
            }),
    {
        match self.find(*tkn) {
            None => None,
            Some(i) => {
                let ghost idx = i as int;
                let entry = self.clients.remove(i);
                proof {
                    assert(old(self).entries()[idx].0 == *tkn);
                    assert(self.entries() == old(self).entries().remove(idx));
                    assert forall|j: int|
                        0 <= j < self.entries().len() implies (#[trigger] self.entries()[j]).0
                        != *tkn by {
                        if j < idx {
                            assert(self.entries()[j] == old(self).entries()[j]);
                        } else {
                            assert(self.entries()[j] == old(self).entries()[j + 1]);
                        }
                    }
                }
                Some(entry.1)
            },
        }
    }

    /// Routes an outbound message to the connection its token names and
    /// enqueues it there; hands back the reregistration instruction when
    /// that connection was waiting to read. A message without a
    /// destination is ignored; an unknown token is refused.
    pub fn send_message(&mut self, msg: WebSocketEvent) -> (r: Result<
        Option<WebSocketEvent>,
        String,
    >)
        requires
            old(self).wf(),
        ensures
            final(self).wf(),
            (match msg.route_token() {
                None => r == Ok::<Option<WebSocketEvent>, String>(None) && *final(self) == *old(
                    self,
                ),
                Some(t) => {
                    if old(self).has_token(t) {
                        exists|i: int|
                            0 <= i < old(self).entries().len() && (#[trigger] old(
                                self,
                            ).entries()[i]).0 == t && Self::updated_at(*old(self), *final(self), i)
                                && WebSocketClient::send_post(
                                old(self).entries()[i].1,
                                final(self).entries()[i].1,
                                msg,
                                r,
                            )
                    } else {
                        r is Err && *final(self) == *old(self)
                    }
                },
            }),
    {
        let tkn: Option<Token> = match &msg {
            WebSocketEvent::Connect(t) => Some(*t),
            WebSocketEvent::Close(t) => Some(*t),
            WebSocketEvent::Ping(t, _) => Some(*t),
            WebSocketEvent::TextMessage(t, _) => Some(*t),
            WebSocketEvent::BinaryMessage(t, _) => Some(*t),
            WebSocketEvent::Pong(_, _) => None,
            WebSocketEvent::Reregister(_) => None,
        };
        match tkn {
            None => Ok(None),
            Some(t) => match self.find(t) {
                None => Err(String::from_str("no connection for that token")),
                Some(i) => {
                    let ghost idx = i as int;
                    let res = self.clients[i].1.send_message(msg);
                    proof {
                        assert(old(self).entries()[idx].0 == t);
                        assert(Self::updated_at(*old(self), *self, idx));
                    }
                    res
                },
            },
        }
    }

    /// Relays a header-name callback to the connection a token names.
    /// `None` when the token is not live.
    pub fn client_on_header_field(&mut self, tkn: Token, s: &[u8]) -> (r: Option<bool>)
        requires
            old(self).wf(),
        ensures
            final(self).wf(),
            (match r {
                Some(b) => exists|i: int|
                    0 <= i < old(self).entries().len() && (#[trigger] old(self).entries()[i]).0
                        == tkn && Self::updated_at(*old(self), *final(self), i)
                        && WebSocketClient::header_field_post(
                        old(self).entries()[i].1,
                        final(self).entries()[i].1,
                        s@,
                        b,
                    ),
                None => *final(self) == *old(self) && !old(self).has_token(tkn),
            }),
    {
        match self.find(tkn) {
            None => None,
            Some(i) => {
                let ghost idx = i as int;
                let b = self.clients[i].1.on_header_field(s);
                proof {
                    assert(Self::updated_at(*old(self), *self, idx));
                }
                Some(b)
            },
        }
    }

    /// Relays a header-value callback to the connection a token names.
    /// `None` when the token is not live.
    pub fn client_on_header_value(&mut self, tkn: Token, s: &[u8]) -> (r: Option<bool>)
        requires
            old(self).wf(),
        ensures
            final(self).wf(),
            (match r {
                Some(b) => exists|i: int|
                    0 <= i < old(self).entries().len() && (#[trigger] old(self).entries()[i]).0
                        == tkn && Self::updated_at(*old(self), *final(self), i)
                        && WebSocketClient::header_value_post(
                        old(self).entries()[i].1,
                        final(self).entries()[i].1,
                        s@,
                        b,
                    ),
                None => *final(self) == *old(self) && !old(self).has_token(tkn),
            }),
    {
        match self.find(tkn) {
            None => None,
            Some(i) => {
                let ghost idx = i as int;
                let b = self.clients[i].1.on_header_value(s);
                proof {
                    assert(Self::updated_at(*old(self), *self, idx));
                }
                Some(b)
            },
        }
    }

    /// Hands one parser feed's outcome to the connection a token names;
    /// true when the token was live.
    pub fn client_on_handshake(&mut self, tkn: Token, is_upgrade: bool) -> (r: bool)
        requires
            old(self).wf(),
        ensures
            final(self).wf(),
            (if r {
                exists|i: int|
                    0 <= i < old(self).entries().len() && (#[trigger] old(self).entries()[i]).0
                        == tkn && Self::updated_at(*old(self), *final(self), i)
                        && WebSocketClient::handshake_post(
                        old(self).entries()[i].1,
                        final(self).entries()[i].1,
                        is_upgrade,
                    )
            } else {
                *final(self) == *old(self) && !old(self).has_token(tkn)
            }),
    {
        match self.find(tkn) {
            None => false,
            Some(i) => {
                let ghost idx = i as int;
                self.clients[i].1.on_handshake(is_upgrade);
                proof {
                    assert(Self::updated_at(*old(self), *self, idx));
                }
                true
            },
        }
    }

    /// Runs one readable notification for the connection a token names:
    /// the only sanctioned way the event loop reads on it. `None` when the
    /// token is not live.
    pub fn client_read(&mut self, tkn: Token, input: &[u8]) -> (r: Option<ReadResult>)
        requires
            old(self).wf(),
        ensures
            final(self).wf(),
            (match r {
                Some(rr) => exists|i: int|
                    0 <= i < old(self).entries().len() && (#[trigger] old(self).entries()[i]).0
                        == tkn && Self::updated_at(*old(self), *final(self), i)
                        && WebSocketClient::read_dispatch_post(
                        old(self).entries()[i].1,
                        final(self).entries()[i].1,
                        input@,
                        rr,
                    ),
                None => *final(self) == *old(self) && !old(self).has_token(tkn),
            }),
    {
        match self.find(tkn) {
            None => None,
            Some(i) => {
                let ghost idx = i as int;
                let rr = self.clients[i].1.read(input);
                proof {
                    assert(Self::updated_at(*old(self), *self, idx));
                }
                Some(rr)
            },
        }
    }

    /// Runs one writable notification for the connection a token names:
    /// the only sanctioned way the event loop writes on it. `None` when
    /// the token is not live.
    pub fn client_write(&mut self, tkn: Token) -> (r: Option<WriteResult>)
        requires
            old(self).wf(),
        ensures
            final(self).wf(),
            (match r {
                Some(wr) => exists|i: int|
                    0 <= i < old(self).entries().len() && (#[trigger] old(self).entries()[i]).0
                        == tkn && Self::updated_at(*old(self), *final(self), i)
                        && WebSocketClient::write_dispatch_post(
                        old(self).entries()[i].1,
                        final(self).entries()[i].1,
                        wr,
                    ),
                None => *final(self) == *old(self) && !old(self).has_token(tkn),
            }),
    {
        match self.find(tkn) {
            None => None,
            Some(i) => {
                let ghost idx = i as int;
                let wr = self.clients[i].1.write();
                proof {
                    assert(Self::updated_at(*old(self), *self, idx));
                }
                Some(wr)
            },
        }
    }

    /// The interest the connection a token names currently asks for, so
    /// the event loop can reregister it. `None` when the token is not
    /// live.
    pub fn client_interest(&self, tkn: Token) -> (r: Option<crate::client::Interest>)
        ensures
            (match r {
                Some(interest) => exists|i: int|
                    0 <= i < self.entries().len() && (#[trigger] self.entries()[i]).0 == tkn
                        && self.entries()[i].1.interest == interest,
                None => !self.has_token(tkn),
            }),
    {
        match self.find(tkn) {
            None => None,
            Some(i) => Some(self.clients[i].1.interest),
        }
    }
}

} // verus!
