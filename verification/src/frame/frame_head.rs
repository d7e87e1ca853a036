use crate::frame::{frame_kind_max_payload, WsControlFrameKind, WsDataFrameKind, WsFrameKind};
use vstd::prelude::*;

verus! {

/// The six frame opcodes of the protocol.
#[derive(Clone, Copy, Debug, PartialEq, Eq, Structural)]
pub enum WsOpcode {
    Continuation,
    Text,
    Binary,
    Close,
    Ping,
    Pong,
}

pub open spec fn opcode_bits(op: WsOpcode) -> u8 {
    match op {
        WsOpcode::Continuation => 0x0,
        WsOpcode::Text => 0x1,
        WsOpcode::Binary => 0x2,
        WsOpcode::Close => 0x8,
        WsOpcode::Ping => 0x9,
        WsOpcode::Pong => 0xA,
    }
}

pub open spec fn opcode_from_bits(b: u8) -> Option<WsOpcode> {
    if b == 0x0 {
        Some(WsOpcode::Continuation)
    } else if b == 0x1 {
        Some(WsOpcode::Text)
    } else if b == 0x2 {
        Some(WsOpcode::Binary)
    } else if b == 0x8 {
        Some(WsOpcode::Close)
    } else if b == 0x9 {
        Some(WsOpcode::Ping)
    } else if b == 0xA {
        Some(WsOpcode::Pong)
    } else {
        None
    }
}

pub open spec fn opcode_frame_kind(op: WsOpcode) -> WsFrameKind {
    match op {
        WsOpcode::Continuation => WsFrameKind::Data(WsDataFrameKind::Continuation),
        WsOpcode::Text => WsFrameKind::Data(WsDataFrameKind::Text),
        WsOpcode::Binary => WsFrameKind::Data(WsDataFrameKind::Binary),
        WsOpcode::Close => WsFrameKind::Control(WsControlFrameKind::Close),
        WsOpcode::Ping => WsFrameKind::Control(WsControlFrameKind::Ping),
        WsOpcode::Pong => WsFrameKind::Control(WsControlFrameKind::Pong),
    }
}

pub open spec fn opcode_is_control(op: WsOpcode) -> bool {
    opcode_frame_kind(op) is Control
}

impl WsOpcode {
    pub fn frame_kind(self) -> (k: WsFrameKind)
        ensures
            k == opcode_frame_kind(self),
    {
        match self {
            WsOpcode::Continuation => WsFrameKind::Data(WsDataFrameKind::Continuation),
            WsOpcode::Text => WsFrameKind::Data(WsDataFrameKind::Text),
            WsOpcode::Binary => WsFrameKind::Data(WsDataFrameKind::Binary),
            WsOpcode::Close => WsFrameKind::Control(WsControlFrameKind::Close),
            WsOpcode::Ping => WsFrameKind::Control(WsControlFrameKind::Ping),
            WsOpcode::Pong => WsFrameKind::Control(WsControlFrameKind::Pong),
        }
    }
}

/// A parsed frame header.  A mask of `[0, 0, 0, 0]` stands for "unmasked":
/// such a header is serialized without the mask bit.
#[derive(Clone, Copy, Debug)]
pub struct FrameHead {
    pub fin: bool,
    pub opcode: WsOpcode,
    pub mask: [u8; 4],
    pub payload_len: u64,
}

/// The mathematical model of a frame header; the mask key is a 4-byte
/// sequence.
pub struct SpecFrameHead {
    pub fin: bool,
    pub opcode: WsOpcode,
    pub mask: Seq<u8>,
    pub payload_len: u64,
}

impl View for FrameHead {
    type V = SpecFrameHead;

    open spec fn view(&self) -> SpecFrameHead {
        SpecFrameHead {
            fin: self.fin,
            opcode: self.opcode,
            mask: self.mask@,
            payload_len: self.payload_len,
        }
    }
}

pub open spec fn mask_is_zero(m: Seq<u8>) -> bool {
    m[0] == 0 && m[1] == 0 && m[2] == 0 && m[3] == 0
}

/// A header the codec may legitimately carry: the mask key has four bytes,
/// control frames are final, and the payload length respects the cap of the
/// frame's kind.
pub open spec fn head_wf(h: SpecFrameHead) -> bool {
    &&& h.mask.len() == 4
    &&& opcode_is_control(h.opcode) ==> h.fin
    &&& h.payload_len <= frame_kind_max_payload(opcode_frame_kind(h.opcode))
}

/// The 7-bit length field of the second header byte.
pub open spec fn len_field(l: u64) -> u8 {
    if l <= 125 {
        l as u8
    } else if l <= 65535 {
        126
    } else {
        127
    }
}

/// The extended payload-length bytes (0, 2 or 8 of them, big endian).
pub open spec fn ext_len_bytes(l: u64) -> Seq<u8> {
    if l <= 125 {
        seq![]
    } else if l <= 65535 {
        seq![((l >> 8) & 0xff) as u8, (l & 0xff) as u8]
    } else {
        seq![
            ((l >> 56) & 0xff) as u8,
            ((l >> 48) & 0xff) as u8,
            ((l >> 40) & 0xff) as u8,
            ((l >> 32) & 0xff) as u8,
            ((l >> 24) & 0xff) as u8,
            ((l >> 16) & 0xff) as u8,
            ((l >> 8) & 0xff) as u8,
            (l & 0xff) as u8,
        ]
    }
}

/// The serialized form of a header: 2 fixed bytes, the extended length, and
/// the mask key when one is present.
pub open spec fn head_bytes(h: SpecFrameHead) -> Seq<u8> {
    let fin_bit: u8 = if h.fin {
        0x80
    } else {
        0
    };
    let mask_bit: u8 = if !mask_is_zero(h.mask) {
        0x80
    } else {
        0
    };
    seq![(fin_bit + opcode_bits(h.opcode)) as u8, (mask_bit + len_field(h.payload_len)) as u8]
        + ext_len_bytes(h.payload_len) + if !mask_is_zero(h.mask) {
        h.mask
    } else {
        seq![]
    }
}

/// The length of the serialized header, between 2 and 14 bytes.
pub open spec fn head_len(h: SpecFrameHead) -> int {
    head_bytes(h).len() as int
}

/// A big-endian 64-bit integer read at position `i`.
pub open spec fn be64(b: Seq<u8>, i: int) -> u64 {
    ((b[i] as u64) << 56) | ((b[i + 1] as u64) << 48) | ((b[i + 2] as u64) << 40) | ((b[i
        + 3] as u64) << 32) | ((b[i + 4] as u64) << 24) | ((b[i + 5] as u64) << 16) | ((b[i
        + 6] as u64) << 8) | (b[i + 7] as u64)
}

/// The outcome of parsing a header from the front of a byte sequence.
pub enum SpecHeadParse {
    /// A complete header occupying the first `int` bytes.
    Head(SpecFrameHead, int),
    /// At least this many bytes are needed before parsing can continue.
    Incomplete(int),
    RsvBit,
    InvalidOpcode(u8),
    FragmentedControl,
    PayloadTooLong,
}

/// What the header grammar of the protocol says about the front of `b`.
/// Presence of the full header is established before its bits are judged.
pub open spec fn head_parse(b: Seq<u8>) -> SpecHeadParse {
    if b.len() < 2 {
        SpecHeadParse::Incomplete(2)
    } else {
        let masked = b[1] >= 128;
        let len7 = b[1] & 127;
        let extra: int = if len7 <= 125 {
            0
        } else if len7 == 126 {
            2
        } else {
            8
        };
        let expected: int = 2 + extra + if masked {
            4int
        } else {
            0int
        };
        if b.len() < expected {
            SpecHeadParse::Incomplete(expected)
        } else if b[0] & 0xf0 != 0x00 && b[0] & 0xf0 != 0x80 {
            SpecHeadParse::RsvBit
        } else {
            let fin = b[0] & 0xf0 == 0x80;
            match opcode_from_bits(b[0] & 0x0f) {
                None => SpecHeadParse::InvalidOpcode(b[0] & 0x0f),
                Some(opcode) => {
                    let payload_len: u64 = if extra == 0 {
                        len7 as u64
                    } else if extra == 2 {
                        ((b[2] as u64) << 8) | (b[3] as u64)
                    } else {
                        be64(b, 2)
                    };
                    let mask: Seq<u8> = if masked {
                        b.subrange(2 + extra, 6 + extra)
                    } else {
                        seq![0u8, 0u8, 0u8, 0u8]
                    };
                    if opcode_is_control(opcode) && !fin {
                        SpecHeadParse::FragmentedControl
                    } else if payload_len > frame_kind_max_payload(opcode_frame_kind(opcode)) {
                        SpecHeadParse::PayloadTooLong
                    } else {
                        SpecHeadParse::Head(
                            SpecFrameHead { fin, opcode, mask, payload_len },
                            expected,
                        )
                    }
                },
            }
        }
    }
}

#[derive(Clone, Copy, Debug, PartialEq, Eq, Structural)]
pub enum FrameHeadParseError {
    /// The buffer holds fewer bytes than the header needs; the payload is the
    /// least buffer length on which parsing can continue.
    Incomplete(usize),
    RsvBit,
    InvalidOpcode(u8),
    PayloadLengthTooLong,
    FragmentedControl,
}

/// The exec parse outcome agrees with the grammar's judgment of the bytes.
pub open spec fn parse_matches(
    r: Result<FrameHead, FrameHeadParseError>,
    s: SpecHeadParse,
) -> bool {
    match r {
        Ok(h) => s matches SpecHeadParse::Head(hs, n) && h@ == hs,
        Err(FrameHeadParseError::Incomplete(m)) => s == SpecHeadParse::Incomplete(m as int),
        Err(FrameHeadParseError::RsvBit) => s == SpecHeadParse::RsvBit,
        Err(FrameHeadParseError::InvalidOpcode(x)) => s == SpecHeadParse::InvalidOpcode(x),
        Err(FrameHeadParseError::PayloadLengthTooLong) => s == SpecHeadParse::PayloadTooLong,
        Err(FrameHeadParseError::FragmentedControl) => s == SpecHeadParse::FragmentedControl,
    }
}

impl FrameHead {
    /// Parse a header from the front of `buffer`.  `Incomplete(n)` asks the
    /// caller to grow the buffer to at least `n` bytes and retry.
    pub fn parse(buffer: &Vec<u8>) -> (r: Result<FrameHead, FrameHeadParseError>)
        ensures
            parse_matches(r, head_parse(buffer@)),
    {
        if buffer.len() < 2 {
            return Err(FrameHeadParseError::Incomplete(2));
        }
        let b1 = buffer[1];
        let masked = b1 >= 128;
        let len7 = b1 & 127;
        let extra: usize = if len7 <= 125 {
            0
        } else if len7 == 126 {
            2
        } else {
            8
        };
        let expected: usize = 2 + extra + if masked {
            4
        } else {
            0
        };
        if buffer.len() < expected {
            return Err(FrameHeadParseError::Incomplete(expected));
        }
        let b0 = buffer[0];
        let fin = if b0 & 0xf0 == 0x00 {
            false
        } else if b0 & 0xf0 == 0x80 {
            true
        } else {
            return Err(FrameHeadParseError::RsvBit);
        };
        let op4 = b0 & 0x0f;
        let opcode = if op4 == 0x0 {
            WsOpcode::Continuation
        } else if op4 == 0x1 {
            WsOpcode::Text
        } else if op4 == 0x2 {
            WsOpcode::Binary
        } else if op4 == 0x8 {
            WsOpcode::Close
        } else if op4 == 0x9 {
            WsOpcode::Ping
        } else if op4 == 0xA {
            WsOpcode::Pong
        } else {
            return Err(FrameHeadParseError::InvalidOpcode(op4));
        };
        let payload_len: u64 = if extra == 0 {
            len7 as u64
        } else if extra == 2 {
            ((buffer[2] as u64) << 8) | (buffer[3] as u64)
        } else {
            ((buffer[2] as u64) << 56) | ((buffer[3] as u64) << 48) | ((buffer[4] as u64) << 40) | (
            (buffer[5] as u64) << 32) | ((buffer[6] as u64) << 24) | ((buffer[7] as u64) << 16) | ((
            buffer[8] as u64) << 8) | (buffer[9] as u64)
        };
        let mask: [u8; 4] = if masked {
            [buffer[2 + extra], buffer[3 + extra], buffer[4 + extra], buffer[5 + extra]]
        } else {
            [0u8, 0u8, 0u8, 0u8]
        };
        let kind = opcode.frame_kind();
        if matches!(kind, WsFrameKind::Control(_)) && !fin {
            return Err(FrameHeadParseError::FragmentedControl);
        }
        if payload_len > kind.max_payload_len() {
            return Err(FrameHeadParseError::PayloadLengthTooLong);
        }
        let head = FrameHead { fin, opcode, mask, payload_len };
        proof {
            assert(head@.mask =~= match head_parse(buffer@) {
                SpecHeadParse::Head(hs, _) => hs.mask,
                _ => head@.mask,
            });
        }
        Ok(head)
    }

    /// The length of this header once serialized, between 2 and 14 bytes.
    pub fn len_bytes(&self) -> (r: usize)
        ensures
            r == head_len(self@),
            2 <= r <= 14,
    {
        let extra: usize = if self.payload_len <= 125 {
            0
        } else if self.payload_len <= 65535 {
            2
        } else {
            8
        };
        2 + extra + if self.masked() {
            4
        } else {
            0
        }
    }

    /// Whether this header carries a real mask key.
    pub fn masked(&self) -> (r: bool)
        ensures
            r == !mask_is_zero(self.mask@),
    {
        self.mask[0] != 0 || self.mask[1] != 0 || self.mask[2] != 0 || self.mask[3] != 0
    }

    /// Serialize this header.
    pub fn encode(&self) -> (r: Vec<u8>)
        ensures
            r@ == head_bytes(self@),
    {
        let mut out: Vec<u8> = Vec::new();
        let fin_bit: u8 = if self.fin {
            0x80
        } else {
            0
        };
        let op_bits: u8 = match self.opcode {
            WsOpcode::Continuation => 0x0,
            WsOpcode::Text => 0x1,
            WsOpcode::Binary => 0x2,
            WsOpcode::Close => 0x8,
            WsOpcode::Ping => 0x9,
            WsOpcode::Pong => 0xA,
        };
        out.push(fin_bit + op_bits);
        let masked = self.masked();
        let mask_bit: u8 = if masked {
            0x80
        } else {
            0
        };
        if self.payload_len <= 125 {
            out.push(mask_bit + (self.payload_len as u8));
        } else if self.payload_len <= 65535 {
            out.push(mask_bit + 126);
            out.push(((self.payload_len >> 8) & 0xff) as u8);
            out.push((self.payload_len & 0xff) as u8);
        } else {
            out.push(mask_bit + 127);
            out.push(((self.payload_len >> 56) & 0xff) as u8);
            out.push(((self.payload_len >> 48) & 0xff) as u8);
            out.push(((self.payload_len >> 40) & 0xff) as u8);
            out.push(((self.payload_len >> 32) & 0xff) as u8);
            out.push(((self.payload_len >> 24) & 0xff) as u8);
            out.push(((self.payload_len >> 16) & 0xff) as u8);
            out.push(((self.payload_len >> 8) & 0xff) as u8);
            out.push((self.payload_len & 0xff) as u8);
        }
        if masked {
            out.push(self.mask[0]);
            out.push(self.mask[1]);
            out.push(self.mask[2]);
            out.push(self.mask[3]);
        }
        proof {
            assert(out@ =~= head_bytes(self@));
        }
        out
    }
}

/// Any header produced by the grammar is well formed, occupies the bytes the
/// grammar says, and those bytes are all present.
pub proof fn lemma_head_parse_wf(b: Seq<u8>, h: SpecFrameHead, n: int)
    requires
        head_parse(b) == SpecHeadParse::Head(h, n),
    ensures
        head_wf(h),
        2 <= n <= 14,
        b.len() >= n,
        h.mask.len() == 4,
{
}

/// Deserializing a serialized well-formed header gives the header back:
/// the decode direction of the codec round trip.
pub proof fn lemma_head_roundtrip(h: SpecFrameHead)
    requires
        head_wf(h),
    ensures
        head_parse(head_bytes(h)) == SpecHeadParse::Head(h, head_len(h)),
{
    let b = head_bytes(h);
    let fin_bit: u8 = if h.fin {
        0x80
    } else {
        0
    };
    let mask_bit: u8 = if !mask_is_zero(h.mask) {
        0x80
    } else {
        0
    };
    let op = opcode_bits(h.opcode);
    let lf = len_field(h.payload_len);
    let pl = h.payload_len;
    assert(op <= 0xA);
    assert(lf <= 127) by {
        if pl <= 125 {
            assert(pl as u8 <= 125) by (bit_vector)
                requires
                    pl <= 125,
            ;
        }
    }
    assert(b[0] == (fin_bit + op) as u8);
    assert(b[1] == (mask_bit + lf) as u8);
    assert((mask_bit + lf) as u8 >= 128 <==> mask_bit == 0x80) by (bit_vector)
        requires
            (mask_bit == 0x80 || mask_bit == 0) && lf <= 127,
    ;
    assert(((mask_bit + lf) as u8) & 127 == lf) by (bit_vector)
        requires
            (mask_bit == 0x80 || mask_bit == 0) && lf <= 127,
    ;
    assert(((fin_bit + op) as u8) & 0xf0 == fin_bit && ((fin_bit + op) as u8) & 0x0f == op)
        by (bit_vector)
        requires
            (fin_bit == 0x80 || fin_bit == 0) && op <= 0xA,
    ;
    assert(opcode_from_bits(op) == Some(h.opcode));
    let l = h.payload_len;
    if l <= 125 {
        assert((l as u8) as u64 == l) by (bit_vector)
            requires
                l <= 125,
        ;
    } else if l <= 65535 {
        assert(((((l >> 8) & 0xff) as u8) as u64) << 8 | (((l & 0xff) as u8) as u64) == l)
            by (bit_vector)
            requires
                l <= 65535,
        ;
        assert(lf == 126);
    } else {
        assert(lf == 127);
        assert(((((l >> 56) & 0xff) as u8 as u64) << 56) | ((((l >> 48) & 0xff) as u8 as u64) << 48)
            | ((((l >> 40) & 0xff) as u8 as u64) << 40) | ((((l >> 32) & 0xff) as u8 as u64) << 32)
            | ((((l >> 24) & 0xff) as u8 as u64) << 24) | ((((l >> 16) & 0xff) as u8 as u64) << 16)
            | ((((l >> 8) & 0xff) as u8 as u64) << 8) | ((l & 0xff) as u8 as u64) == l)
            by (bit_vector);
    }
    match head_parse(b) {
        SpecHeadParse::Head(hs, n) => {
            assert(hs.mask =~= h.mask);
            assert(hs == h);
            assert(n == head_len(h));
        },
        _ => {
            assert(false);
        },
    }
}

/// Serializing a parsed header reproduces the bytes it was parsed from,
/// provided those bytes are canonical: the shortest length form, and the mask
/// bit only together with a non-zero key.
pub open spec fn canonical_head_bytes(b: Seq<u8>) -> bool {
    b.len() >= 2 && {
        let len7 = b[1] & 127;
        let extra: int = if len7 <= 125 {
            0
        } else if len7 == 126 {
            2
        } else {
            8
        };
        &&& (len7 == 126 ==> b.len() >= 4 && (((b[2] as u64) << 8) | (b[3] as u64)) > 125)
        &&& (len7 == 127 ==> b.len() >= 10 && be64(b, 2) > 65535)
        &&& (b[1] >= 128 ==> b.len() >= 6 + extra && !mask_is_zero(b.subrange(2 + extra, 6 + extra)))
    }
}

/// The encode direction of the codec round trip: a header parsed from
/// canonical bytes serializes back to exactly those bytes.
pub proof fn lemma_head_serialize_roundtrip(b: Seq<u8>, h: SpecFrameHead, n: int)
    requires
        head_parse(b) == SpecHeadParse::Head(h, n),
        canonical_head_bytes(b),
    ensures
        head_bytes(h) == b.subrange(0, n),
{
    let b0v = b[0];
    let b1v = b[1];
    let len7 = b1v & 127;
    let masked = b1v >= 128;
    let extra: int = if len7 <= 125 {
        0
    } else if len7 == 126 {
        2
    } else {
        8
    };
    assert(b1v & 127 <= 127) by (bit_vector);
    assert(b0v & 0x0f <= 0xf) by (bit_vector);
    assert(opcode_bits(h.opcode) == b0v & 0x0f);
    let fin_bit: u8 = if h.fin {
        0x80
    } else {
        0
    };
    assert(b0v & 0xf0 == fin_bit);
    assert(((b0v & 0xf0) + (b0v & 0x0f)) as u8 == b0v) by (bit_vector)
        requires
            b0v & 0xf0 == 0x00 || b0v & 0xf0 == 0x80,
    ;
    let l = h.payload_len;
    if extra == 0 {
        assert(l == len7 as u64);
        assert((b1v & 127) as u64 <= 125 && ((b1v & 127) as u64) as u8 == b1v & 127)
            by (bit_vector)
            requires
                b1v & 127 <= 125,
        ;
        assert(len_field(l) == len7);
    } else if extra == 2 {
        let b2 = b[2];
        let b3 = b[3];
        assert(l == ((b2 as u64) << 8) | (b3 as u64));
        assert({
            let v = ((b2 as u64) << 8) | (b3 as u64);
            v <= 65535 && ((v >> 8) & 0xff) as u8 == b2 && (v & 0xff) as u8 == b3
        }) by (bit_vector);
        assert(l > 125);
        assert(len_field(l) == 126);
        assert(ext_len_bytes(l) =~= seq![b[2], b[3]]);
    } else {
        let b2 = b[2];
        let b3 = b[3];
        let b4 = b[4];
        let b5 = b[5];
        let b6 = b[6];
        let b7 = b[7];
        let b8 = b[8];
        let b9 = b[9];
        assert(l == ((b2 as u64) << 56) | ((b3 as u64) << 48) | ((b4 as u64) << 40) | ((b5
            as u64) << 32) | ((b6 as u64) << 24) | ((b7 as u64) << 16) | ((b8 as u64) << 8) | (b9
            as u64));
        assert({
            let v = ((b2 as u64) << 56) | ((b3 as u64) << 48) | ((b4 as u64) << 40) | ((b5
                as u64) << 32) | ((b6 as u64) << 24) | ((b7 as u64) << 16) | ((b8 as u64) << 8) | (
            b9 as u64);
            &&& ((v >> 56) & 0xff) as u8 == b2
            &&& ((v >> 48) & 0xff) as u8 == b3
            &&& ((v >> 40) & 0xff) as u8 == b4
            &&& ((v >> 32) & 0xff) as u8 == b5
            &&& ((v >> 24) & 0xff) as u8 == b6
            &&& ((v >> 16) & 0xff) as u8 == b7
            &&& ((v >> 8) & 0xff) as u8 == b8
            &&& (v & 0xff) as u8 == b9
        }) by (bit_vector);
        assert(l > 65535);
        assert(len_field(l) == 127);
        assert(ext_len_bytes(l) =~= seq![b[2], b[3], b[4], b[5], b[6], b[7], b[8], b[9]]);
    }
    if masked {
        assert(h.mask == b.subrange(2 + extra, 6 + extra));
        assert(!mask_is_zero(h.mask));
        let lf = len_field(l);
        assert(lf == len7);
        assert((0x80 + (b1v & 127)) as u8 == b1v) by (bit_vector)
            requires
                b1v >= 128,
        ;
    } else {
        assert(h.mask =~= seq![0u8, 0u8, 0u8, 0u8]);
        assert(mask_is_zero(h.mask));
        let lf = len_field(l);
        assert(lf == len7);
        assert((0 + (b1v & 127)) as u8 == b1v) by (bit_vector)
            requires
                b1v < 128,
        ;
    }
    assert(head_bytes(h) =~= b.subrange(0, n));
}

} // verus!
