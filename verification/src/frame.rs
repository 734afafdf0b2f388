//! WebSocket frame codec: bit-level header packing and parsing, extended
//! length encoding, payload masking, and the frame builders.
//!
//! Encoding appends to a byte buffer and decoding consumes one, so the codec
//! is pure; reading from and writing to sockets happens outside the engine.

use vstd::prelude::*;
use vstd::string::StrSliceExecFns;
use vstd::string::StringSliceAdditionalSpecFns;

verus! {

/// Value of the 7-bit length field that announces a 16-bit extended length.
pub const PAYLOAD_LEN_U16: u8 = 126;

/// Value of the 7-bit length field that announces a 64-bit extended length.
pub const PAYLOAD_LEN_U64: u8 = 127;

#[derive(Clone, Copy, Debug, PartialEq, Eq, Structural)]
pub enum OpCode {
    TextFrame,
    BinaryFrame,
    ConnectionClose,
    Ping,
    Pong,
}

impl OpCode {
    /// The 4-bit value this opcode takes on the wire.
    pub open spec fn num_spec(self) -> u8 {
        match self {
            OpCode::TextFrame => 1,
            OpCode::BinaryFrame => 2,
            OpCode::ConnectionClose => 8,
            OpCode::Ping => 9,
            OpCode::Pong => 0xA,
        }
    }

    pub fn num(self) -> (r: u8)
        ensures
            r == self.num_spec(),
    {
        match self {
            OpCode::TextFrame => 1,
            OpCode::BinaryFrame => 2,
            OpCode::ConnectionClose => 8,
            OpCode::Ping => 9,
            OpCode::Pong => 0xA,
        }
    }

    /// The opcode a 4-bit wire value stands for, if any.
    pub open spec fn from_spec(op: u8) -> Option<OpCode> {
        if op == 1 {
            Some(OpCode::TextFrame)
        } else if op == 2 {
            Some(OpCode::BinaryFrame)
        } else if op == 8 {
            Some(OpCode::ConnectionClose)
        } else if op == 9 {
            Some(OpCode::Ping)
        } else if op == 0xA {
            Some(OpCode::Pong)
        } else {
            None
        }
    }

    pub fn from(op: u8) -> (r: Option<OpCode>)
        ensures
            r == Self::from_spec(op),
    {
        if op == 1 {
            Some(OpCode::TextFrame)
        } else if op == 2 {
            Some(OpCode::BinaryFrame)
        } else if op == 8 {
            Some(OpCode::ConnectionClose)
        } else if op == 9 {
            Some(OpCode::Ping)
        } else if op == 0xA {
            Some(OpCode::Pong)
        } else {
            None
        }
    }
}

#[derive(Clone, Copy, Debug, PartialEq, Eq, Structural)]
pub struct WebSocketFrameHeader {
    pub fin: bool,
    pub rsv1: bool,
    pub rsv2: bool,
    pub rsv3: bool,
    pub masked: bool,
    pub opcode: OpCode,
    pub payload_length: u8,
}

/// The 7-bit length field that a payload of `len` bytes selects: the length
/// itself below 126, the 16-bit marker below 65536, the 64-bit marker above.
pub open spec fn determine_len_spec(len: nat) -> u8 {
    if len < 126 {
        len as u8
    } else if len < 65536 {
        126
    } else {
        127
    }
}

/// The header every in-memory builder constructs: fin set, reserved flags
/// clear, unmasked, length field matching the payload length.
pub open spec fn built_header(len: nat, opcode: OpCode) -> WebSocketFrameHeader {
    WebSocketFrameHeader {
        fin: true,
        rsv1: false,
        rsv2: false,
        rsv3: false,
        masked: false,
        opcode: opcode,
        payload_length: determine_len_spec(len),
    }
}

impl WebSocketFrameHeader {
    /// A well-formed header states a 7-bit length field (the top bit of the
    /// second header byte is the mask flag).
    pub open spec fn wf(self) -> bool {
        self.payload_length < 128
    }

    pub fn new_header(len: usize, opcode: OpCode) -> (h: WebSocketFrameHeader)
        ensures
            h == built_header(len as nat, opcode),
    {
        WebSocketFrameHeader {
            fin: true,
            rsv1: false,
            rsv2: false,
            rsv3: false,
            masked: false,
            payload_length: Self::determine_len(len),
            opcode: opcode,
        }
    }

    pub fn determine_len(len: usize) -> (r: u8)
        ensures
            r == determine_len_spec(len as nat),
    {
        if len < (PAYLOAD_LEN_U16 as usize) {
            len as u8
        } else if len < 65536 {
            PAYLOAD_LEN_U16
        } else {
            PAYLOAD_LEN_U64
        }
    }
}

/// Why decoding one frame from a byte buffer failed: an opcode nibble that
/// names no known opcode, or a buffer that ends before the frame does.
#[derive(Clone, Copy, Debug, PartialEq, Eq, Structural)]
pub enum DecodeError {
    UnknownOpcode,
    Io,
}

/// First header byte: fin and the reserved flags in the top four bits, the
/// opcode in the bottom four.
pub open spec fn header_byte0(h: WebSocketFrameHeader) -> u8 {
    ((if h.fin {
        128int
    } else {
        0int
    }) + (if h.rsv1 {
        64int
    } else {
        0int
    }) + (if h.rsv2 {
        32int
    } else {
        0int
    }) + (if h.rsv3 {
        16int
    } else {
        0int
    }) + h.opcode.num_spec()) as u8
}

/// Second header byte: the mask flag in the top bit, the 7-bit length field
/// below it.
pub open spec fn header_byte1(h: WebSocketFrameHeader) -> u8 {
    ((if h.masked {
        128int
    } else {
        0int
    }) + h.payload_length % 128) as u8
}

/// The two header bytes packed big-endian into one word.
pub open spec fn header_word(h: WebSocketFrameHeader) -> u16 {
    (header_byte0(h) * 256 + header_byte1(h)) as u16
}

/// The header a 16-bit wire word parses to, if its opcode nibble is known.
pub open spec fn parse_header_spec(buf: u16) -> Option<WebSocketFrameHeader> {
    let hi = buf / 256;
    let lo = buf % 256;
    match OpCode::from_spec((hi % 16) as u8) {
        Some(op) => Some(
            WebSocketFrameHeader {
                fin: hi / 128 % 2 == 1,
                rsv1: hi / 64 % 2 == 1,
                rsv2: hi / 32 % 2 == 1,
                rsv3: hi / 16 % 2 == 1,
                masked: lo / 128 % 2 == 1,
                opcode: op,
                payload_length: (lo % 128) as u8,
            },
        ),
        None => None,
    }
}

/// One WebSocket frame: header, the mask key if the frame arrived masked,
/// and the (unmasked) payload bytes.
#[derive(Debug, Clone)]
pub struct WebSocketFrame {
    pub header: WebSocketFrameHeader,
    pub mask: Option<[u8; 4]>,
    pub payload: Vec<u8>,
}

/// The mathematical shape of a frame: its header, mask key and payload as
/// sequences.
#[verifier::ext_equal]
pub ghost struct FrameView {
    pub header: WebSocketFrameHeader,
    pub mask: Option<Seq<u8>>,
    pub payload: Seq<u8>,
}

impl View for WebSocketFrame {
    type V = FrameView;

    open spec fn view(&self) -> FrameView {
        FrameView {
            header: self.header,
            mask: match self.mask {
                Some(m) => Some(m@),
                None => None,
            },
            payload: self.payload@,
        }
    }
}

impl WebSocketFrame {
    /// Packs fin, the reserved flags, the opcode, the mask flag and the 7-bit
    /// length field into the 16-bit base header word.
    pub fn serialize_header(hdr: &WebSocketFrameHeader) -> (r: u16)
        ensures
            r == header_word(*hdr),
    {
        let mut b0: u8 = hdr.opcode.num();
        if hdr.fin {
            b0 = b0 + 128;
        }
        if hdr.rsv1 {
            b0 = b0 + 64;
        }
        if hdr.rsv2 {
            b0 = b0 + 32;
        }
        if hdr.rsv3 {
            b0 = b0 + 16;
        }
        let mut b1: u8 = hdr.payload_length % 128;
        if hdr.masked {
            b1 = b1 + 128;
        }
        (b0 as u16) * 256 + (b1 as u16)
    }

    /// Unpacks the 16-bit base header word; fails if the opcode nibble names
    /// no known opcode.
    pub fn parse_header(buf: u16) -> (r: Result<WebSocketFrameHeader, DecodeError>)
        ensures
            (match parse_header_spec(buf) {
                Some(h) => r == Ok::<WebSocketFrameHeader, DecodeError>(h),
                None => r == Err::<WebSocketFrameHeader, DecodeError>(DecodeError::UnknownOpcode),
            }),
    {
        let hi: u16 = buf / 256;
        let lo: u16 = buf % 256;
        match OpCode::from((hi % 16) as u8) {
            Some(op) => Ok(
                WebSocketFrameHeader {
                    fin: hi / 128 % 2 == 1,
                    rsv1: hi / 64 % 2 == 1,
                    rsv2: hi / 32 % 2 == 1,
                    rsv3: hi / 16 % 2 == 1,
                    opcode: op,
                    masked: lo / 128 % 2 == 1,
                    payload_length: (lo % 128) as u8,
                },
            ),
            None => Err(DecodeError::UnknownOpcode),
        }
    }
}

/// The two big-endian bytes of a 16-bit value.
pub open spec fn be16_of(x: u16) -> Seq<u8> {
    seq![(x >> 8) as u8, x as u8]
}

/// The 16-bit value two big-endian bytes hold.
pub open spec fn be16_val(b0: u8, b1: u8) -> u16 {
    ((b0 as u16) << 8) | (b1 as u16)
}

/// The eight big-endian bytes of a 64-bit value.
pub open spec fn be64_of(x: u64) -> Seq<u8> {
    seq![
        (x >> 56) as u8,
        (x >> 48) as u8,
        (x >> 40) as u8,
        (x >> 32) as u8,
        (x >> 24) as u8,
        (x >> 16) as u8,
        (x >> 8) as u8,
        x as u8,
    ]
}

/// The 64-bit value eight big-endian bytes hold.
pub open spec fn be64_val(b0: u8, b1: u8, b2: u8, b3: u8, b4: u8, b5: u8, b6: u8, b7: u8) -> u64 {
    ((b0 as u64) << 56) | ((b1 as u64) << 48) | ((b2 as u64) << 40) | ((b3 as u64) << 32) | ((b4
        as u64) << 24) | ((b5 as u64) << 16) | ((b6 as u64) << 8) | (b7 as u64)
}

/// XOR of each payload byte with the mask byte at its index modulo four: the
/// masking of RFC 6455, its own inverse.
pub open spec fn masked_payload(data: Seq<u8>, mask: Seq<u8>) -> Seq<u8> {
    Seq::new(data.len(), |i: int| data[i] ^ mask[i % 4])
}

impl FrameView {
    /// The length field of the header matches the class the payload length
    /// selects, so the header and the extended length bytes agree.
    pub open spec fn wf(self) -> bool {
        self.header.payload_length == determine_len_spec(self.payload.len())
    }

    /// The extended length bytes the header's length field calls for.
    pub open spec fn length_bytes(self) -> Seq<u8> {
        if self.header.payload_length == 127 {
            be64_of(self.payload.len() as u64)
        } else if self.header.payload_length == 126 {
            be16_of(self.payload.len() as u16)
        } else {
            Seq::<u8>::empty()
        }
    }

    /// Every byte the encoder writes for this frame: base header, extended
    /// length, payload. A server frame carries no mask key.
    pub open spec fn wire_bytes(self) -> Seq<u8> {
        seq![header_byte0(self.header), header_byte1(self.header)] + self.length_bytes()
            + self.payload
    }
}

impl WebSocketFrame {
    /// Whether the frame's header agrees with its payload length, as every
    /// frame built in memory does.
    pub open spec fn wf(self) -> bool {
        self@.wf()
    }
}

/// Decoding one frame from the front of `bytes`: the frame and how many
/// bytes it occupies, or the reason none can be had. `Io` stands for a
/// buffer that ends before the frame does.
pub open spec fn decode_spec(bytes: Seq<u8>) -> Result<(FrameView, int), DecodeError> {
    if bytes.len() < 2 {
        Err(DecodeError::Io)
    } else {
        match parse_header_spec(be16_val(bytes[0], bytes[1])) {
            None => Err(DecodeError::UnknownOpcode),
            Some(h) => {
                let ext: int = if h.payload_length == 127 {
                    8
                } else if h.payload_length == 126 {
                    2
                } else {
                    0
                };
                if bytes.len() < 2 + ext {
                    Err(DecodeError::Io)
                } else {
                    let plen: int = if h.payload_length == 127 {
                        be64_val(
                            bytes[2],
                            bytes[3],
                            bytes[4],
                            bytes[5],
                            bytes[6],
                            bytes[7],
                            bytes[8],
                            bytes[9],
                        ) as int
                    } else if h.payload_length == 126 {
                        be16_val(bytes[2], bytes[3]) as int
                    } else {
                        h.payload_length as int
                    };
                    let mpos = 2 + ext;
                    if h.masked && bytes.len() < mpos + 4 {
                        Err(DecodeError::Io)
                    } else {
                        let mask = bytes.subrange(mpos, mpos + 4);
                        let ppos = if h.masked {
                            mpos + 4
                        } else {
                            mpos
                        };
                        if bytes.len() < ppos + plen {
                            Err(DecodeError::Io)
                        } else {
                            let raw = bytes.subrange(ppos, ppos + plen);
                            Ok(
                                (
                                    FrameView {
                                        header: h,
                                        mask: if h.masked {
                                            Some(mask)
                                        } else {
                                            None
                                        },
                                        payload: if h.masked {
                                            masked_payload(raw, mask)
                                        } else {
                                            raw
                                        },
                                    },
                                    ppos + plen,
                                ),
                            )
                        }
                    }
                }
            },
        }
    }
}

impl WebSocketFrame {
    /// Masks or unmasks a payload in place: XOR of byte `i` with mask byte
    /// `i % 4`. Applying it twice restores the payload.
    pub fn apply_mask(mask: [u8; 4], bytes: &mut Vec<u8>)
        ensures
            final(bytes)@ == masked_payload(old(bytes)@, mask@),
    {
        let n = bytes.len();
        let mut idx: usize = 0;
        while idx < n
            invariant
                idx <= n,
                n == bytes@.len(),
                bytes@.len() == old(bytes)@.len(),
                forall|k: int| 0 <= k < idx ==> bytes@[k] == (old(bytes)@[k] ^ mask@[k % 4]),
                forall|k: int| idx <= k < n ==> bytes@[k] == old(bytes)@[k],
            decreases n - idx,
        {
            let j: usize = idx % 4;
            let c: u8 = bytes[idx] ^ mask[j];
            bytes[idx] = c;
            idx += 1;
        }
        proof {
            assert(bytes@ =~= masked_payload(old(bytes)@, mask@));
        }
    }

    /// Reads the 4-byte mask key standing at `pos`.
    pub fn read_mask(input: &[u8], pos: usize) -> (r: [u8; 4])
        requires
            pos + 4 <= input@.len(),
        ensures
            r@ == input@.subrange(pos as int, pos as int + 4),
    {
        let r: [u8; 4] = [input[pos], input[pos + 1], input[pos + 2], input[pos + 3]];
        proof {
            assert(r@ =~= input@.subrange(pos as int, pos as int + 4));
        }
        r
    }

    /// Copies the `payload_len` payload bytes standing at `pos`.
    pub fn read_payload(payload_len: usize, input: &[u8], pos: usize) -> (r: Vec<u8>)
        requires
            pos + payload_len <= input@.len(),
        ensures
            r@ == input@.subrange(pos as int, pos as int + payload_len as int),
    {
        let ilen: usize = input.len();
        let mut payload: Vec<u8> = Vec::new();
        let mut idx: usize = 0;
        while idx < payload_len
            invariant
                idx <= payload_len,
                ilen == input@.len(),
                pos + payload_len <= ilen,
                payload@.len() == idx,
                forall|k: int| 0 <= k < idx ==> payload@[k] == input@[pos + k],
            decreases payload_len - idx,
        {
            payload.push(input[pos + idx]);
            idx += 1;
        }
        proof {
            assert(payload@ =~= input@.subrange(pos as int, pos as int + payload_len as int));
        }
        payload
    }

    /// Reads the extended length field that the 7-bit length field calls
    /// for; returns the payload length and the position after the field.
    pub fn read_length(payload_len: u8, input: &[u8], pos: usize) -> (r: Result<
        (u64, usize),
        DecodeError,
    >)
        requires
            pos <= input@.len(),
        ensures
            ({
                let ext: int = if payload_len == 127 {
                    8int
                } else if payload_len == 126 {
                    2int
                } else {
                    0int
                };
                if input@.len() < pos + ext {
                    r == Err::<(u64, usize), DecodeError>(DecodeError::Io)
                } else {
                    r matches Ok((v, p)) && p == pos + ext && v as int == (if payload_len == 127 {
                        be64_val(
                            input@[pos as int],
                            input@[pos as int + 1],
                            input@[pos as int + 2],
                            input@[pos as int + 3],
                            input@[pos as int + 4],
                            input@[pos as int + 5],
                            input@[pos as int + 6],
                            input@[pos as int + 7],
                        ) as int
                    } else if payload_len == 126 {
                        be16_val(input@[pos as int], input@[pos as int + 1]) as int
                    } else {
                        payload_len as int
                    })
                }
            }),
    {
        if payload_len == PAYLOAD_LEN_U64 {
            if input.len() - pos < 8 {
                return Err(DecodeError::Io);
            }
            let v: u64 = ((input[pos] as u64) << 56) | ((input[pos + 1] as u64) << 48) | ((input[pos
                + 2] as u64) << 40) | ((input[pos + 3] as u64) << 32) | ((input[pos + 4] as u64)
                << 24) | ((input[pos + 5] as u64) << 16) | ((input[pos + 6] as u64) << 8) | (
            input[pos + 7] as u64);
            Ok((v, pos + 8))
        } else if payload_len == PAYLOAD_LEN_U16 {
            if input.len() - pos < 2 {
                return Err(DecodeError::Io);
            }
            let v: u16 = ((input[pos] as u16) << 8) | (input[pos + 1] as u16);
            Ok((v as u64, pos + 2))
        } else {
            Ok((payload_len as u64, pos))
        }
    }

    /// Decodes exactly one frame from the front of `input`: the frame and
    /// the number of bytes it occupied. A masked payload comes back
    /// unmasked.
    pub fn read(input: &[u8]) -> (r: Result<(WebSocketFrame, usize), DecodeError>)
        ensures
            (match r {
                Ok((f, n)) => decode_spec(input@) == Ok::<(FrameView, int), DecodeError>(
                    (f@, n as int),
                ),
                Err(e) => decode_spec(input@) == Err::<(FrameView, int), DecodeError>(e),
            }),
    {
        if input.len() < 2 {
            return Err(DecodeError::Io);
        }
        let word: u16 = ((input[0] as u16) << 8) | (input[1] as u16);
        let header = match Self::parse_header(word) {
            Ok(h) => h,
            Err(e) => {
                return Err(e);
            },
        };
        let (plen64, len_end) = match Self::read_length(header.payload_length, input, 2) {
            Ok(v) => v,
            Err(e) => {
                return Err(e);
            },
        };
        let mut pos = len_end;
        let mask_key: Option<[u8; 4]>;
        if header.masked {
            if input.len() - pos < 4 {
                return Err(DecodeError::Io);
            }
            mask_key = Some(Self::read_mask(input, pos));
            pos = pos + 4;
        } else {
            mask_key = None;
        }
        let avail: u64 = (input.len() - pos) as u64;
        if plen64 > avail {
            return Err(DecodeError::Io);
        }
        let plen = plen64 as usize;
        let mut payload = Self::read_payload(plen, input, pos);
        if let Some(mask) = mask_key {
            Self::apply_mask(mask, &mut payload);
        }
        Ok((WebSocketFrame { header, payload, mask: mask_key }, pos + plen))
    }

    /// Encodes this frame onto the end of `output`: base header word,
    /// extended length bytes, then the payload. Server frames are sent
    /// unmasked, so no mask key is written.
    pub fn write(&self, output: &mut Vec<u8>)
        requires
            self.wf(),
        ensures
            final(output)@ == old(output)@ + self@.wire_bytes(),
    {
        let hdr: u16 = Self::serialize_header(&self.header);
        output.push((hdr >> 8) as u8);
        output.push(hdr as u8);
        proof {
            let b0 = header_byte0(self.header);
            let b1 = header_byte1(self.header);
            let w = hdr;
            assert(b0 * 256 + b1 <= 65535);
            assert(((w >> 8) as u8) == b0 && (w as u8) == b1) by (bit_vector)
                requires
                    w == (b0 as u16) * 256 + (b1 as u16),
            ;
        }
        if self.header.payload_length == PAYLOAD_LEN_U16 {
            let len16: u16 = self.payload.len() as u16;
            output.push((len16 >> 8) as u8);
            output.push(len16 as u8);
        } else if self.header.payload_length == PAYLOAD_LEN_U64 {
            let len64: u64 = self.payload.len() as u64;
            output.push((len64 >> 56) as u8);
            output.push((len64 >> 48) as u8);
            output.push((len64 >> 40) as u8);
            output.push((len64 >> 32) as u8);
            output.push((len64 >> 24) as u8);
            output.push((len64 >> 16) as u8);
            output.push((len64 >> 8) as u8);
            output.push(len64 as u8);
        }
        let ghost mid = output@;
        proof {
            assert(mid =~= old(output)@ + seq![
                header_byte0(self.header),
                header_byte1(self.header),
            ] + self@.length_bytes());
        }
        let mut idx: usize = 0;
        let n = self.payload.len();
        while idx < n
            invariant
                idx <= n,
                n == self.payload@.len(),
                output@ == mid + self.payload@.subrange(0, idx as int),
            decreases n - idx,
        {
            output.push(self.payload[idx]);
            proof {
                assert(output@ =~= mid + self.payload@.subrange(0, idx + 1));
            }
            idx += 1;
        }
        proof {
            assert(self.payload@.subrange(0, n as int) =~= self.payload@);
            assert(output@ =~= old(output)@ + self@.wire_bytes());
        }
    }
}

impl WebSocketFrame {
    /// A Close frame built in memory: a 2-byte big-endian status code, then
    /// the reason bytes.
    pub fn close(status_code: u16, reason: &[u8]) -> (r: Result<WebSocketFrame, String>)
        ensures
            r matches Ok(f) && f@.payload == be16_of(status_code) + reason@ && f@.mask is None
                && f@.header == built_header(f@.payload.len(), OpCode::ConnectionClose),
    {
        let mut body: Vec<u8> = Vec::new();
        body.push((status_code >> 8) as u8);
        body.push(status_code as u8);
        proof {
            assert(body@ =~= be16_of(status_code) + reason@.subrange(0, 0));
        }
        let n = reason.len();
        let mut i: usize = 0;
        while i < n
            invariant
                i <= n,
                n == reason@.len(),
                body@ == be16_of(status_code) + reason@.subrange(0, i as int),
            decreases n - i,
        {
            body.push(reason[i]);
            proof {
                assert(body@ =~= be16_of(status_code) + reason@.subrange(0, i + 1));
            }
            i += 1;
        }
        proof {
            assert(body@ =~= be16_of(status_code) + reason@);
        }
        let len = body.len();
        Ok(
            WebSocketFrame {
                header: WebSocketFrameHeader::new_header(len, OpCode::ConnectionClose),
                payload: body,
                mask: None,
            },
        )
    }

    /// Echoes a received Close frame: the leading two status-code bytes when
    /// the peer's payload holds at least two, an empty payload otherwise.
    pub fn close_from(recv_frame: &WebSocketFrame) -> (f: WebSocketFrame)
        ensures
            f@.mask is None,
            f@.payload == (if recv_frame@.payload.len() >= 2 {
                recv_frame@.payload.subrange(0, 2)
            } else {
                Seq::<u8>::empty()
            }),
            f@.header == built_header(f@.payload.len(), OpCode::ConnectionClose),
    {
        let body: Vec<u8> = if recv_frame.payload.len() >= 2 {
            let mut b: Vec<u8> = Vec::new();
            b.push(recv_frame.payload[0]);
            b.push(recv_frame.payload[1]);
            proof {
                assert(b@ =~= recv_frame.payload@.subrange(0, 2));
            }
            b
        } else {
            Vec::new()
        };
        let len = body.len();
        WebSocketFrame {
            header: WebSocketFrameHeader::new_header(len, OpCode::ConnectionClose),
            payload: body,
            mask: None,
        }
    }

    /// A Pong frame answering a Ping: the ping's payload, copied verbatim.
    pub fn pong(ping_frame: &WebSocketFrame) -> (f: WebSocketFrame)
        ensures
            f@.mask is None,
            f@.payload == ping_frame@.payload,
            f@.header == built_header(ping_frame@.payload.len(), OpCode::Pong),
    {
        let payload = Self::read_payload(ping_frame.payload.len(), ping_frame.payload.as_slice(), 0);
        proof {
            assert(payload@ =~= ping_frame.payload@);
        }
        let len = payload.len();
        WebSocketFrame {
            header: WebSocketFrameHeader::new_header(len, OpCode::Pong),
            payload: payload,
            mask: None,
        }
    }

    /// A Ping frame wrapping the given bytes.
    pub fn ping(payload: Vec<u8>) -> (f: WebSocketFrame)
        ensures
            f@.mask is None,
            f@.payload == payload@,
            f@.header == built_header(payload@.len(), OpCode::Ping),
    {
        let len = payload.len();
        WebSocketFrame {
            header: WebSocketFrameHeader::new_header(len, OpCode::Ping),
            payload: payload,
            mask: None,
        }
    }

    /// A Text frame whose payload is the UTF-8 encoding of `payload`, fin
    /// set, unfragmented.
    pub fn from_text(payload: &str) -> (f: WebSocketFrame)
        ensures
            f@.mask is None,
            f@.payload == payload.spec_bytes(),
            f@.header == built_header(payload.spec_bytes().len(), OpCode::TextFrame),
    {
        let bytes = payload.as_bytes_vec();
        let len = bytes.len();
        WebSocketFrame {
            header: WebSocketFrameHeader::new_header(len, OpCode::TextFrame),
            payload: bytes,
            mask: None,
        }
    }

    /// A Binary frame wrapping the given bytes, fin set, unfragmented.
    pub fn from_binary(payload: Vec<u8>) -> (f: WebSocketFrame)
        ensures
            f@.mask is None,
            f@.payload == payload@,
            f@.header == built_header(payload@.len(), OpCode::BinaryFrame),
    {
        let len = payload.len();
        WebSocketFrame {
            header: WebSocketFrameHeader::new_header(len, OpCode::BinaryFrame),
            payload: payload,
            mask: None,
        }
    }

    pub fn get_opcode(&self) -> (r: OpCode)
        ensures
            r == self.header.opcode,
    {
        self.header.opcode
    }

    pub fn is_close(&self) -> (r: bool)
        ensures
            r == (self.header.opcode is ConnectionClose),
    {
        self.header.opcode == OpCode::ConnectionClose
    }
}

/// Parsing the packed header word of a well-formed header yields that
/// header back.
pub proof fn lemma_parse_header_roundtrip(h: WebSocketFrameHeader)
    requires
        h.wf(),
    ensures
        parse_header_spec(header_word(h)) == Some(h),
{
    let b0 = header_byte0(h);
    let b1 = header_byte1(h);
    let w = header_word(h);
    assert(b0 * 256 + b1 <= 65535);
    assert(w == b0 * 256 + b1);
    assert(w / 256 == b0 && w % 256 == b1) by (bit_vector)
        requires
            w == (b0 as u16) * 256 + (b1 as u16),
    ;
}

/// The two big-endian bytes of a 16-bit value recombine to that value.
pub proof fn lemma_be16_roundtrip(x: u16)
    ensures
        be16_val((x >> 8) as u8, x as u8) == x,
{
    assert(((((x >> 8) as u8) as u16) << 8 | ((x as u8) as u16)) == x) by (bit_vector);
}

/// The eight big-endian bytes of a 64-bit value recombine to that value.
pub proof fn lemma_be64_roundtrip(x: u64)
    ensures
        be64_val(
            (x >> 56) as u8,
            (x >> 48) as u8,
            (x >> 40) as u8,
            (x >> 32) as u8,
            (x >> 24) as u8,
            (x >> 16) as u8,
            (x >> 8) as u8,
            x as u8,
        ) == x,
{
    assert((((x >> 56) as u8 as u64) << 56) | (((x >> 48) as u8 as u64) << 48) | (((x >> 40) as u8
        as u64) << 40) | (((x >> 32) as u8 as u64) << 32) | (((x >> 24) as u8 as u64) << 24) | (((x
        >> 16) as u8 as u64) << 16) | (((x >> 8) as u8 as u64) << 8) | ((x as u8) as u64) == x)
        by (bit_vector);
}

/// Round trip: decoding the bytes the encoder writes for a well-formed
/// unmasked frame yields that frame back, consuming exactly those bytes.
/// Every frame built in memory for sending is of this shape.
pub proof fn lemma_round_trip(f: FrameView)
    requires
        f.wf(),
        !f.header.masked,
        f.mask is None,
        f.payload.len() < 0x1_0000_0000_0000_0000,
    ensures
        decode_spec(f.wire_bytes()) == Ok::<(FrameView, int), DecodeError>(
            (f, f.wire_bytes().len() as int),
        ),
{
    let bytes = f.wire_bytes();
    let h = f.header;
    let b0 = header_byte0(h);
    let b1 = header_byte1(h);
    let len = f.payload.len();
    assert(bytes[0] == b0 && bytes[1] == b1);
    assert(((b0 as u16) << 8 | (b1 as u16)) == (b0 as u16) * 256 + (b1 as u16)) by (bit_vector);
    assert(be16_val(bytes[0], bytes[1]) == header_word(h));
    lemma_parse_header_roundtrip(h);
    if h.payload_length == 127 {
        let x = len as u64;
        lemma_be64_roundtrip(x);
        assert(bytes.subrange(2, 10) =~= be64_of(x));
        assert(be64_val(
            bytes[2],
            bytes[3],
            bytes[4],
            bytes[5],
            bytes[6],
            bytes[7],
            bytes[8],
            bytes[9],
        ) == x);
        assert(bytes.subrange(10, 10 + len as int) =~= f.payload);
        assert(decode_spec(bytes) matches Ok((g, n)) && g =~= f && n == bytes.len());
    } else if h.payload_length == 126 {
        let x = len as u16;
        lemma_be16_roundtrip(x);
        assert(bytes[2] == (x >> 8) as u8 && bytes[3] == x as u8);
        assert(be16_val(bytes[2], bytes[3]) == x);
        assert(bytes.subrange(4, 4 + len as int) =~= f.payload);
        assert(decode_spec(bytes) matches Ok((g, n)) && g =~= f && n == bytes.len());
    } else {
        assert(h.payload_length == len);
        assert(bytes.subrange(2, 2 + len as int) =~= f.payload);
        assert(decode_spec(bytes) matches Ok((g, n)) && g =~= f && n == bytes.len());
    }
}

/// Masking is an involution: applying the same 4-byte mask twice restores
/// the payload.
pub proof fn lemma_mask_involution(data: Seq<u8>, mask: Seq<u8>)
    requires
        mask.len() == 4,
    ensures
        masked_payload(masked_payload(data, mask), mask) == data,
{
    assert(forall|a: u8, b: u8| #[trigger] ((a ^ b) ^ b) == a) by (bit_vector);
    assert(masked_payload(masked_payload(data, mask), mask) =~= data);
}

} // verus!

