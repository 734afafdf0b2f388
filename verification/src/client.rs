//! One client connection: the accept-key derivation, the per-connection
//! protocol state machine, and the outbound frame queue.
//!
//! The connection owns no socket: readable notifications hand bytes in,
//! writable notifications take byte buffers out, and the surrounding event
//! loop performs the I/O.

use vstd::prelude::*;
use vstd::slice::slice_to_vec;
use vstd::string::StrSliceExecFns;
use vstd::string::StringSliceAdditionalSpecFns;
use vstd::utf8::decode_utf8;
use vstd::utf8::encode_utf8;
use vstd::utf8::valid_utf8;

use sha1::Digest;

use crate::frame::built_header;
use crate::frame::decode_spec;
use crate::frame::DecodeError;
use crate::frame::FrameView;
use crate::frame::OpCode;
use crate::frame::WebSocketFrame;
use crate::http::HeaderMap;
use crate::http::HttpParser;
use crate::interface::Token;
use crate::interface::WebSocketEvent;

verus! {

/// The fixed GUID of RFC 6455 appended to the client's nonce before
/// hashing.
pub const WEBSOCKET_KEY: &'static str = "258EAFA5-E914-47DA-95CA-C5AB0DC85B11";

/// The header the handshake cannot complete without.
pub const SEC_WEBSOCKET_KEY: &'static str = "Sec-WebSocket-Key";

/// The 101 response up to the accept key.
pub const RESPONSE_PREFIX: &'static str = "HTTP/1.1 101 Switching Protocols\r\nConnection: Upgrade\r\nSec-WebSocket-Accept: ";

/// The 101 response after the accept key.
pub const RESPONSE_SUFFIX: &'static str = "\r\nUpgrade: websocket\r\n\r\n";

/// The SHA-1 digest of a byte string, by name: it is computed only by the
/// outside hash implementation, and depends on the input bytes alone.
pub uninterp spec fn sha1_of(bytes: Seq<u8>) -> Seq<u8>;

/// The RFC 4648 standard base64 encoding of a byte string, by name: it is
/// computed only by the outside encoder, and depends on the input bytes
/// alone.
pub uninterp spec fn base64_of(bytes: Seq<u8>) -> Seq<char>;

/// Relies on the sha1 crate's `Sha1` through `Digest::digest`: the SHA-1
/// digest of the input, always 20 bytes, a function of the input alone.
#[verifier::external_body]
fn sha1_digest(input: &Vec<u8>) -> (r: Vec<u8>)
    ensures
        r@ == sha1_of(input@),
        r@.len() == 20,
{
    sha1::Sha1::digest(input.as_slice()).to_vec()
}

/// Relies on rustc_serialize's `ToBase64` with the `STANDARD` config:
/// RFC 4648 base64 with padding and no line wraps, four characters for
/// every three input bytes, a function of the input alone.
#[verifier::external_body]
fn to_base64_standard(input: &Vec<u8>) -> (r: String)
    ensures
        r@ == base64_of(input@),
        r@.len() == ((input@.len() + 2) / 3) * 4,
{
    rustc_serialize::base64::ToBase64::to_base64(
        input.as_slice(),
        rustc_serialize::base64::STANDARD,
    )
}

/// Relies on `String::from_utf8_lossy`: bytes that are valid UTF-8 decode
/// to exactly their characters. (On invalid input the replacement
/// character appears, and nothing more is claimed here.)
#[verifier::external_body]
fn utf8_lossy_string(bytes: &Vec<u8>) -> (r: String)
    ensures
        valid_utf8(bytes@) ==> r@ == decode_utf8(bytes@),
{
    String::from_utf8_lossy(bytes.as_slice()).into_owned()
}

/// The accept key owed for a client key: base64 of the SHA-1 digest of the
/// key bytes followed by the fixed GUID.
pub open spec fn accept_key_spec(key: Seq<u8>) -> Seq<char> {
    base64_of(sha1_of(key + WEBSOCKET_KEY.spec_bytes()))
}

/// Derives the accept key proving the handshake was understood.
pub fn gen_key(key: &[u8]) -> (r: String)
    ensures
        r@ == accept_key_spec(key@),
{
    let mut input: Vec<u8> = slice_to_vec(key);
    let mut guid: Vec<u8> = WEBSOCKET_KEY.as_bytes_vec();
    input.append(&mut guid);
    let digest = sha1_digest(&input);
    to_base64_standard(&digest)
}

/// The full 101 response announcing the upgrade, as bytes: the literal
/// status line and headers around the accept key for `key`.
pub open spec fn handshake_response_spec(key: Seq<u8>) -> Seq<u8> {
    RESPONSE_PREFIX.spec_bytes() + encode_utf8(accept_key_spec(key)) + RESPONSE_SUFFIX.spec_bytes()
}

/// Builds the 101 response carrying the given accept key.
fn build_response(accept: &String) -> (r: Vec<u8>)
    ensures
        r@ == RESPONSE_PREFIX.spec_bytes() + encode_utf8(accept@) + RESPONSE_SUFFIX.spec_bytes(),
{
    let mut r: Vec<u8> = RESPONSE_PREFIX.as_bytes_vec();
    let mut key_bytes: Vec<u8> = accept.as_str().as_bytes_vec();
    r.append(&mut key_bytes);
    let mut suffix: Vec<u8> = RESPONSE_SUFFIX.as_bytes_vec();
    r.append(&mut suffix);
    proof {
        assert(r@ =~= RESPONSE_PREFIX.spec_bytes() + encode_utf8(accept@)
            + RESPONSE_SUFFIX.spec_bytes());
    }
    r
}

/// The readiness a connection currently asks to be told about. Exactly one
/// at a time; after a close is sent only the peer's hangup is awaited.
#[derive(Clone, Copy, Debug, PartialEq, Eq, Structural)]
pub enum Interest {
    Read,
    Write,
    WaitHangup,
}

/// One client's protocol state. Only the handshake state carries the
/// header-parser adapter.
pub enum ClientState {
    AwaitingHandshake(HttpParser),
    HandshakeResponse,
    Connected,
    Closing,
}

/// One client socket's engine-side state: protocol state, the headers the
/// completed handshake left, current interest, the outbound frame queue and
/// the routing token.
pub struct WebSocketClient {
    pub state: ClientState,
    pub headers: HeaderMap,
    pub interest: Interest,
    pub outgoing: Vec<WebSocketFrame>,
    pub token: Token,
}

impl WebSocketClient {
    /// Every queued outbound frame was built in memory, so its header
    /// agrees with its payload length.
    pub open spec fn wf(self) -> bool {
        forall|i: int| 0 <= i < self.outgoing@.len() ==> (#[trigger] self.outgoing@[i]).wf()
    }

    /// What a freshly accepted connection looks like: awaiting the
    /// handshake with an empty adapter, read interest, nothing queued.
    pub open spec fn fresh_spec(c: WebSocketClient, token: Token) -> bool {
        &&& c.state matches ClientState::AwaitingHandshake(p) && p.current_key is None
            && p.headers@ == Map::<Seq<u8>, Seq<u8>>::empty()
        &&& c.headers@ == Map::<Seq<u8>, Seq<u8>>::empty()
        &&& c.interest == Interest::Read
        &&& c.outgoing@ == Seq::<WebSocketFrame>::empty()
        &&& c.token == token
        &&& c.wf()
    }

    pub fn new(token: Token) -> (c: WebSocketClient)
        ensures
            Self::fresh_spec(c, token),
    {
        WebSocketClient {
            state: ClientState::AwaitingHandshake(HttpParser::new()),
            headers: HeaderMap::new(),
            interest: Interest::Read,
            outgoing: Vec::new(),
            token: token,
        }
    }

    /// Fields no parser callback touches.
    pub open spec fn callback_frame_unchanged(old_c: WebSocketClient, new_c: WebSocketClient) -> bool {
        &&& new_c.headers == old_c.headers
        &&& new_c.interest == old_c.interest
        &&& new_c.outgoing == old_c.outgoing
        &&& new_c.token == old_c.token
    }

    /// Effect of the header-name callback: remembered by the adapter while
    /// the handshake is awaited, ignored in any other state.
    pub open spec fn header_field_post(
        old_c: WebSocketClient,
        new_c: WebSocketClient,
        s: Seq<u8>,
        r: bool,
    ) -> bool {
        &&& r
        &&& Self::callback_frame_unchanged(old_c, new_c)
        &&& (match old_c.state {
            ClientState::AwaitingHandshake(p) => (new_c.state matches ClientState::AwaitingHandshake(
                q,
            ) && (q.current_key matches Some(k) && k@ == s) && q.headers == p.headers),
            _ => new_c == old_c,
        })
    }

    /// Header-name callback relay. Always asks the parser to continue.
    pub fn on_header_field(&mut self, s: &[u8]) -> (r: bool)
        ensures
            Self::header_field_post(*old(self), *final(self), s@, r),
    {
        match &mut self.state {
            ClientState::AwaitingHandshake(p) => p.on_header_field(s),
            _ => true,
        }
    }

    /// Effect of the header-value callback: stored by the adapter under the
    /// remembered name while the handshake is awaited, ignored otherwise.
    pub open spec fn header_value_post(
        old_c: WebSocketClient,
        new_c: WebSocketClient,
        s: Seq<u8>,
        r: bool,
    ) -> bool {
        &&& r
        &&& Self::callback_frame_unchanged(old_c, new_c)
        &&& (match old_c.state {
            ClientState::AwaitingHandshake(p) => (new_c.state matches ClientState::AwaitingHandshake(
                q,
            ) && q.current_key == p.current_key && (match p.current_key {
                Some(k) => q.headers@ == p.headers@.insert(k@, s),
                None => q.headers@ == p.headers@,
            })),
            _ => new_c == old_c,
        })
    }

    /// Header-value callback relay. Always asks the parser to continue.
    pub fn on_header_value(&mut self, s: &[u8]) -> (r: bool)
        ensures
            Self::header_value_post(*old(self), *final(self), s@, r),
    {
        match &mut self.state {
            ClientState::AwaitingHandshake(p) => p.on_header_value(s),
            _ => true,
        }
    }

    /// Effect of learning whether the header section is complete and asks
    /// for the upgrade: if it does, the collected headers are adopted, the
    /// 101 response becomes owed and interest flips to write-only;
    /// otherwise nothing changes and more bytes are awaited.
    pub open spec fn handshake_post(
        old_c: WebSocketClient,
        new_c: WebSocketClient,
        is_upgrade: bool,
    ) -> bool {
        &&& new_c.outgoing == old_c.outgoing
        &&& new_c.token == old_c.token
        &&& (match old_c.state {
            ClientState::AwaitingHandshake(p) => if is_upgrade {
                &&& new_c.state is HandshakeResponse
                &&& new_c.headers == p.headers
                &&& new_c.interest == Interest::Write
            } else {
                new_c == old_c
            },
            _ => new_c == old_c,
        })
    }

    /// Takes the outcome of one parser feed while the handshake is
    /// awaited.
    pub fn on_handshake(&mut self, is_upgrade: bool)
        ensures
            Self::handshake_post(*old(self), *final(self), is_upgrade),
    {
        if !is_upgrade {
            return ;
        }
        let mut st = ClientState::HandshakeResponse;
        core::mem::swap(&mut self.state, &mut st);
        match st {
            ClientState::AwaitingHandshake(p) => {
                self.headers = p.headers;
                self.interest = Interest::Write;
            },
            ClientState::HandshakeResponse => {
                self.state = ClientState::HandshakeResponse;
            },
            ClientState::Connected => {
                self.state = ClientState::Connected;
            },
            ClientState::Closing => {
                self.state = ClientState::Closing;
            },
        }
    }
}

/// What one readable notification produced: events for the application
/// glue, how many input bytes the decoded frame occupied, and the decode
/// error that abandoned the read attempt, if one arose.
pub struct ReadResult {
    pub events: Vec<WebSocketEvent>,
    pub consumed: usize,
    pub error: Option<DecodeError>,
}

/// The Pong frame answering a Ping: the ping's payload, verbatim.
pub open spec fn is_pong_of(g: FrameView, f: FrameView) -> bool {
    &&& g.payload == f.payload
    &&& g.mask is None
    &&& g.header == built_header(f.payload.len(), OpCode::Pong)
}

/// The Close echo answering a received Close: the leading two status-code
/// bytes when the peer sent them, an empty payload otherwise.
pub open spec fn is_close_echo_of(g: FrameView, f: FrameView) -> bool {
    &&& g.payload == (if f.payload.len() >= 2 {
        f.payload.subrange(0, 2)
    } else {
        Seq::<u8>::empty()
    })
    &&& g.mask is None
    &&& g.header == built_header(g.payload.len(), OpCode::ConnectionClose)
}

/// The events one decoded frame reports outward: the message for a data
/// frame, the close notice for a Close frame, nothing for Ping and Pong.
pub open spec fn frame_events(token: Token, f: FrameView, events: Seq<WebSocketEvent>) -> bool {
    match f.header.opcode {
        OpCode::TextFrame => events.len() == 1 && (events[0] matches WebSocketEvent::TextMessage(
            t,
            s,
        ) && t == token && (valid_utf8(f.payload) ==> s@ == decode_utf8(f.payload))),
        OpCode::BinaryFrame => events.len() == 1 && (events[0]
            matches WebSocketEvent::BinaryMessage(t, b) && t == token && b@ == f.payload),
        OpCode::ConnectionClose => events.len() == 1 && events[0] == WebSocketEvent::Close(token),
        OpCode::Ping => events.len() == 0,
        OpCode::Pong => events.len() == 0,
    }
}

/// What one decoded frame does to the outbound queue: a Ping queues
/// exactly its Pong, a Close queues exactly its echo, anything else queues
/// nothing.
pub open spec fn frame_queue_effect(
    f: FrameView,
    oldq: Seq<WebSocketFrame>,
    newq: Seq<WebSocketFrame>,
) -> bool {
    match f.header.opcode {
        OpCode::Ping => newq.len() == oldq.len() + 1 && newq.subrange(0, oldq.len() as int) == oldq
            && is_pong_of(newq.last()@, f),
        OpCode::ConnectionClose => newq.len() == oldq.len() + 1 && newq.subrange(
            0,
            oldq.len() as int,
        ) == oldq && is_close_echo_of(newq.last()@, f),
        _ => newq == oldq,
    }
}

impl WebSocketClient {
    /// Effect of one readable notification once connected: exactly one
    /// frame is decoded and routed by opcode; a received Close moves the
    /// connection toward closing; a decode failure abandons only this read
    /// attempt; a non-empty queue afterwards flips interest to write.
    pub open spec fn read_post(
        old_c: WebSocketClient,
        new_c: WebSocketClient,
        input: Seq<u8>,
        r: ReadResult,
    ) -> bool {
        &&& new_c.token == old_c.token
        &&& new_c.headers == old_c.headers
        &&& (match decode_spec(input) {
            Err(e) => r.error == Some(e) && r.events@.len() == 0 && r.consumed == 0 && new_c
                == old_c,
            Ok((f, n)) => {
                &&& r.error is None
                &&& r.consumed == n
                &&& frame_events(old_c.token, f, r.events@)
                &&& frame_queue_effect(f, old_c.outgoing@, new_c.outgoing@)
                &&& (if f.header.opcode is ConnectionClose {
                    new_c.state is Closing
                } else {
                    new_c.state is Connected
                })
                &&& new_c.interest == (if new_c.outgoing@.len() > 0 {
                    Interest::Write
                } else {
                    old_c.interest
                })
            },
        })
    }

    /// Decodes and routes exactly one frame. Only called once connected.
    pub fn read_frame(&mut self, input: &[u8]) -> (r: ReadResult)
        requires
            old(self).state is Connected,
            old(self).wf(),
        ensures
            final(self).wf(),
            Self::read_post(*old(self), *final(self), input@, r),
    {
        match WebSocketFrame::read(input) {
            Err(e) => ReadResult { events: Vec::new(), consumed: 0, error: Some(e) },
            Ok((frame, n)) => {
                let mut events: Vec<WebSocketEvent> = Vec::new();
                match frame.get_opcode() {
                    OpCode::TextFrame => {
                        let text = utf8_lossy_string(&frame.payload);
                        events.push(WebSocketEvent::TextMessage(self.token, text));
                    },
                    OpCode::BinaryFrame => {
                        events.push(WebSocketEvent::BinaryMessage(self.token, frame.payload));
                    },
                    OpCode::Ping => {
                        let pong = WebSocketFrame::pong(&frame);
                        self.outgoing.push(pong);
                        proof {
                            assert(self.outgoing@.subrange(0, old(self).outgoing@.len() as int)
                                =~= old(self).outgoing@);
                        }
                    },
                    OpCode::ConnectionClose => {
                        events.push(WebSocketEvent::Close(self.token));
                        let echo = WebSocketFrame::close_from(&frame);
                        self.outgoing.push(echo);
                        self.state = ClientState::Closing;
                        proof {
                            assert(self.outgoing@.subrange(0, old(self).outgoing@.len() as int)
                                =~= old(self).outgoing@);
                        }
                    },
                    OpCode::Pong => {},
                }
                if self.outgoing.len() > 0 {
                    self.interest = Interest::Write;
                }
                ReadResult { events, consumed: n, error: None }
            },
        }
    }

    /// Effect of one readable notification in any state: a frame is
    /// decoded only once connected; in every other state the bytes belong
    /// to the handshake path and nothing changes here.
    pub open spec fn read_dispatch_post(
        old_c: WebSocketClient,
        new_c: WebSocketClient,
        input: Seq<u8>,
        r: ReadResult,
    ) -> bool {
        match old_c.state {
            ClientState::Connected => Self::read_post(old_c, new_c, input, r),
            _ => new_c == old_c && r.events@.len() == 0 && r.consumed == 0 && r.error is None,
        }
    }

    /// Effect of one readable notification: a frame is decoded only once
    /// connected; in every other state the bytes belong to the handshake
    /// path and nothing changes here.
    pub fn read(&mut self, input: &[u8]) -> (r: ReadResult)
        requires
            old(self).wf(),
        ensures
            final(self).wf(),
            Self::read_dispatch_post(*old(self), *final(self), input@, r),
    {
        let connected = match &self.state {
            ClientState::Connected => true,
            _ => false,
        };
        if connected {
            self.read_frame(input)
        } else {
            ReadResult { events: Vec::new(), consumed: 0, error: None }
        }
    }
}

/// What one writable notification produced: byte buffers to write in
/// order, events for the application glue, and whether the connection was
/// abandoned for want of the client's key.
pub struct WriteResult {
    pub data: Vec<Vec<u8>>,
    pub events: Vec<WebSocketEvent>,
    pub abandoned: bool,
}

impl WebSocketClient {
    /// Effect of one writable notification while the 101 response is owed:
    /// with the client's key at hand the response goes out, the connection
    /// is connected with read interest and the connect event is reported.
    /// A handshake without the key is a protocol violation: no response,
    /// and the connection is abandoned.
    pub open spec fn handshake_write_post(
        old_c: WebSocketClient,
        new_c: WebSocketClient,
        r: WriteResult,
    ) -> bool {
        &&& new_c.outgoing == old_c.outgoing
        &&& new_c.headers == old_c.headers
        &&& new_c.token == old_c.token
        &&& (if old_c.headers@.contains_key(SEC_WEBSOCKET_KEY.spec_bytes()) {
            &&& !r.abandoned
            &&& r.data@.len() == 1
            &&& r.data@[0]@ == handshake_response_spec(
                old_c.headers@[SEC_WEBSOCKET_KEY.spec_bytes()],
            )
            &&& r.events@.len() == 1
            &&& r.events@[0] == WebSocketEvent::Connect(old_c.token)
            &&& new_c.state is Connected
            &&& new_c.interest == Interest::Read
        } else {
            &&& r.abandoned
            &&& r.data@.len() == 0
            &&& r.events@.len() == 0
            &&& new_c == old_c
        })
    }

    /// Computes the accept key and produces the 101 response. Only called
    /// while the response is owed.
    pub fn write_handshake(&mut self) -> (r: WriteResult)
        requires
            old(self).state is HandshakeResponse,
            old(self).wf(),
        ensures
            final(self).wf(),
            Self::handshake_write_post(*old(self), *final(self), r),
    {
        let key_name: &[u8] = SEC_WEBSOCKET_KEY.as_bytes();
        let accept: Option<String> = match self.headers.get(key_name) {
            None => None,
            Some(k) => Some(gen_key(k.as_slice())),
        };
        match accept {
            None => WriteResult { data: Vec::new(), events: Vec::new(), abandoned: true },
            Some(a) => {
                let resp = build_response(&a);
                let mut data: Vec<Vec<u8>> = Vec::new();
                data.push(resp);
                let mut events: Vec<WebSocketEvent> = Vec::new();
                events.push(WebSocketEvent::Connect(self.token));
                self.state = ClientState::Connected;
                self.interest = Interest::Read;
                WriteResult { data, events, abandoned: false }
            },
        }
    }

    /// Effect of one writable notification once connected or closing:
    /// every queued frame is encoded in enqueue order and the queue is
    /// cleared; if a Close went out only the peer's hangup is awaited,
    /// otherwise interest returns to read.
    pub open spec fn frames_write_post(
        old_c: WebSocketClient,
        new_c: WebSocketClient,
        r: WriteResult,
    ) -> bool {
        let closed = exists|i: int|
            0 <= i < old_c.outgoing@.len() && (#[trigger] old_c.outgoing@[i])@.header.opcode
                is ConnectionClose;
        &&& r.data@.len() == old_c.outgoing@.len()
        &&& (forall|i: int|
            0 <= i < r.data@.len() ==> (#[trigger] r.data@[i])@ == old_c.outgoing@[i]@.wire_bytes())
        &&& r.events@.len() == 0
        &&& !r.abandoned
        &&& new_c.outgoing@.len() == 0
        &&& new_c.headers == old_c.headers
        &&& new_c.token == old_c.token
        &&& (if closed {
            new_c.state is Closing && new_c.interest == Interest::WaitHangup
        } else {
            new_c.state == old_c.state && new_c.interest == Interest::Read
        })
    }

    /// Encodes and hands out every queued frame, in enqueue order. Only
    /// called once connected or closing.
    pub fn write_frames(&mut self) -> (r: WriteResult)
        requires
            old(self).state is Connected || old(self).state is Closing,
            old(self).wf(),
        ensures
            final(self).wf(),
            Self::frames_write_post(*old(self), *final(self), r),
    {
        let mut data: Vec<Vec<u8>> = Vec::new();
        let mut close_sent = false;
        let n = self.outgoing.len();
        let mut i: usize = 0;
        while i < n
            invariant
                i <= n,
                n == self.outgoing@.len(),
                self.wf(),
                data@.len() == i,
                forall|k: int|
                    0 <= k < i ==> (#[trigger] data@[k])@ == self.outgoing@[k]@.wire_bytes(),
                close_sent == exists|k: int|
                    0 <= k < i && (#[trigger] self.outgoing@[k])@.header.opcode is ConnectionClose,
            decreases n - i,
        {
            let mut buf: Vec<u8> = Vec::new();
            self.outgoing[i].write(&mut buf);
            proof {
                assert(buf@ =~= self.outgoing@[i as int]@.wire_bytes());
            }
            if self.outgoing[i].is_close() {
                close_sent = true;
            }
            data.push(buf);
            i += 1;
        }
        self.outgoing.clear();
        if close_sent {
            self.state = ClientState::Closing;
            self.interest = Interest::WaitHangup;
        } else {
            self.interest = Interest::Read;
        }
        WriteResult { data, events: Vec::new(), abandoned: false }
    }

    /// Effect of one writable notification in any state: the 101 response
    /// while it is owed, the queued frames once connected or closing,
    /// nothing while the handshake is still being read.
    pub open spec fn write_dispatch_post(
        old_c: WebSocketClient,
        new_c: WebSocketClient,
        r: WriteResult,
    ) -> bool {
        match old_c.state {
            ClientState::HandshakeResponse => Self::handshake_write_post(old_c, new_c, r),
            ClientState::Connected => Self::frames_write_post(old_c, new_c, r),
            ClientState::Closing => Self::frames_write_post(old_c, new_c, r),
            ClientState::AwaitingHandshake(_) => new_c == old_c && r.data@.len() == 0
                && r.events@.len() == 0 && !r.abandoned,
        }
    }

    /// Effect of one writable notification, by state: the 101 response
    /// while it is owed, the queued frames once connected or closing,
    /// nothing while the handshake is still being read.
    pub fn write(&mut self) -> (r: WriteResult)
        requires
            old(self).wf(),
        ensures
            final(self).wf(),
            Self::write_dispatch_post(*old(self), *final(self), r),
    {
        let tag: u8 = match &self.state {
            ClientState::AwaitingHandshake(_) => 0,
            ClientState::HandshakeResponse => 1,
            ClientState::Connected => 2,
            ClientState::Closing => 3,
        };
        if tag == 1 {
            self.write_handshake()
        } else if tag == 2 || tag == 3 {
            self.write_frames()
        } else {
            WriteResult { data: Vec::new(), events: Vec::new(), abandoned: false }
        }
    }
}

/// The reason a server-initiated Close carries.
pub const SERVER_CLOSE_REASON: &'static str = "Server-initiated close";

/// Whether a message is one the engine can frame and send.
pub open spec fn is_sendable(msg: WebSocketEvent) -> bool {
    match msg {
        WebSocketEvent::TextMessage(_, _) => true,
        WebSocketEvent::BinaryMessage(_, _) => true,
        WebSocketEvent::Close(_) => true,
        WebSocketEvent::Ping(_, _) => true,
        _ => false,
    }
}

/// The outbound frame a sendable message calls for.
pub open spec fn message_frame(msg: WebSocketEvent, g: FrameView) -> bool {
    match msg {
        WebSocketEvent::TextMessage(_, data) => g.mask is None && g.payload == encode_utf8(data@)
            && g.header == built_header(g.payload.len(), OpCode::TextFrame),
        WebSocketEvent::BinaryMessage(_, data) => g.mask is None && g.payload == data@ && g.header
            == built_header(data@.len(), OpCode::BinaryFrame),
        WebSocketEvent::Close(_) => g.mask is None && g.payload == crate::frame::be16_of(0)
            + SERVER_CLOSE_REASON.spec_bytes() && g.header == built_header(
            g.payload.len(),
            OpCode::ConnectionClose,
        ),
        WebSocketEvent::Ping(_, payload) => g.mask is None && g.payload == payload@ && g.header
            == built_header(payload@.len(), OpCode::Ping),
        _ => false,
    }
}

impl WebSocketClient {
    /// Effect of enqueueing one outbound message: the frame it calls for
    /// is appended exactly once, everything before it untouched; when
    /// interest was read-only it flips to write and the reregistration
    /// instruction for the event loop is returned. A message that is no
    /// send is refused and nothing changes.
    pub open spec fn send_post(
        old_c: WebSocketClient,
        new_c: WebSocketClient,
        msg: WebSocketEvent,
        r: Result<Option<WebSocketEvent>, String>,
    ) -> bool {
        match r {
            Ok(opt) => {
                &&& is_sendable(msg)
                &&& new_c.outgoing@.len() == old_c.outgoing@.len() + 1
                &&& new_c.outgoing@.subrange(0, old_c.outgoing@.len() as int) == old_c.outgoing@
                &&& message_frame(msg, new_c.outgoing@.last()@)
                &&& new_c.headers == old_c.headers
                &&& new_c.state == old_c.state
                &&& new_c.token == old_c.token
                &&& (if old_c.interest == Interest::Read {
                    new_c.interest == Interest::Write && opt == Some(
                        WebSocketEvent::Reregister(old_c.token),
                    )
                } else {
                    new_c.interest == old_c.interest && opt is None
                })
            },
            Err(_) => !is_sendable(msg) && new_c == old_c,
        }
    }

    /// Frames an outbound message and appends it to the queue exactly
    /// once; flips interest to write and asks for reregistration when the
    /// connection was waiting to read.
    pub fn send_message(&mut self, msg: WebSocketEvent) -> (r: Result<
        Option<WebSocketEvent>,
        String,
    >)
        requires
            old(self).wf(),
        ensures
            final(self).wf(),
            Self::send_post(*old(self), *final(self), msg, r),
    {
        let frame: Option<WebSocketFrame> = match msg {
            WebSocketEvent::TextMessage(_, data) => Some(WebSocketFrame::from_text(data.as_str())),
            WebSocketEvent::BinaryMessage(_, data) => Some(WebSocketFrame::from_binary(data)),
            WebSocketEvent::Close(_) => match WebSocketFrame::close(
                0,
                SERVER_CLOSE_REASON.as_bytes(),
            ) {
                Ok(f) => Some(f),
                Err(_) => None,
            },
            WebSocketEvent::Ping(_, payload) => Some(WebSocketFrame::ping(payload)),
            _ => None,
        };
        match frame {
            None => Err(String::from_str("Wrong message type to send")),
            Some(f) => {
                self.outgoing.push(f);
                proof {
                    assert(self.outgoing@.subrange(0, old(self).outgoing@.len() as int) =~= old(
                        self,
                    ).outgoing@);
                }
                if self.interest == Interest::Read {
                    self.interest = Interest::Write;
                    Ok(Some(WebSocketEvent::Reregister(self.token)))
                } else {
                    Ok(None)
                }
            },
        }
    }
}

/// Two outbound sends for one connection are admitted by the registry's
/// exclusive access in some order; whichever ran first, each appends
/// exactly once: the queue grows by exactly the two frames, and both
/// orders leave the same collection of queued frames.
pub proof fn lemma_enqueue_exactly_once(q: Seq<WebSocketFrame>, a: WebSocketFrame, b: WebSocketFrame)
    ensures
        q.push(a).push(b).len() == q.len() + 2,
        q.push(a).push(b).to_multiset() == q.to_multiset().insert(a).insert(b),
        q.push(b).push(a).to_multiset() == q.push(a).push(b).to_multiset(),
{
    broadcast use vstd::seq_lib::group_to_multiset_ensures;

    assert(q.push(a).push(b).to_multiset() =~= q.to_multiset().insert(a).insert(b));
    assert(q.push(b).push(a).to_multiset() =~= q.to_multiset().insert(b).insert(a));
    assert(q.to_multiset().insert(b).insert(a) =~= q.to_multiset().insert(a).insert(b));
}

} // verus!
