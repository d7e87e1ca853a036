mod decode;
mod frame_head;
mod frame_payload;

pub use decode::control_frame_bytes;
pub use decode::data_frame_head;
pub use decode::FrameDecodeError;
pub use decode::FrameDecoderState;
pub use decode::FrameHeadDecodeState;
pub use decode::FramePoll;
pub use decode::HeadPoll;
pub use frame_head::parse_matches;
pub use frame_head::FrameHead;
pub use frame_head::FrameHeadParseError;
pub use frame_head::SpecFrameHead;
pub use frame_head::SpecHeadParse;
pub use frame_head::WsOpcode;
pub use frame_head::canonical_head_bytes;
pub use frame_head::head_bytes;
pub use frame_head::head_len;
pub use frame_head::head_parse;
pub use frame_head::head_wf;
pub use frame_head::lemma_head_parse_wf;
pub use frame_head::lemma_head_roundtrip;
pub use frame_head::lemma_head_serialize_roundtrip;
pub use frame_head::mask_is_zero;
pub use frame_head::opcode_frame_kind;
pub use frame_head::opcode_is_control;
pub use frame_payload::FramePayloadReaderState;
pub use frame_payload::PayloadRead;
pub use frame_payload::lemma_mask_append;
pub use frame_payload::lemma_mask_offset_mod;
pub use frame_payload::lemma_mask_self_inverse;
pub use frame_payload::lemma_zero_mask_identity;
pub use frame_payload::mask_seq;
pub use frame_payload::max_payload_len;
pub use frame_payload::max_payload_len_spec;
pub use frame_payload::payload_mask;

use crate::message::WsMessageKind;
use vstd::prelude::*;

verus! {

/// Whether a frame carries message data or control traffic.
#[derive(Clone, Copy, Debug, PartialEq, Eq, Structural)]
pub enum WsFrameKind {
    Control(WsControlFrameKind),
    Data(WsDataFrameKind),
}

impl WsFrameKind {
    /// The longest payload a frame of this kind may declare: control frames
    /// are capped at 125 bytes by the protocol, data frames at 2^30 bytes by
    /// this implementation.
    pub fn max_payload_len(self) -> (r: u64)
        ensures
            r == frame_kind_max_payload(self),
    {
        match self {
            WsFrameKind::Control(_) => 125,
            WsFrameKind::Data(_) => 1073741824,
        }
    }
}

pub open spec fn frame_kind_max_payload(kind: WsFrameKind) -> u64 {
    match kind {
        WsFrameKind::Control(_) => 125,
        WsFrameKind::Data(_) => 1073741824,
    }
}

/// A whole frame on the wire: the serialized header followed by the payload,
/// masked with the header's key.
pub open spec fn frame_bytes(h: SpecFrameHead, payload: Seq<u8>) -> Seq<u8> {
    head_bytes(h) + mask_seq(h.mask, 0, payload)
}

/// The model of one transmitted frame: its header and its unmasked payload.
pub struct SpecFrame {
    pub head: SpecFrameHead,
    pub payload: Seq<u8>,
}

/// The byte stream that a sequence of frames puts on the wire: each frame's
/// serialization in full, one after the other.  A stream of this shape holds
/// no control frame's bytes inside another frame.
pub open spec fn frames_wire(fs: Seq<SpecFrame>) -> Seq<u8>
    decreases fs.len(),
{
    if fs.len() == 0 {
        Seq::empty()
    } else {
        frame_bytes(fs[0].head, fs[0].payload) + frames_wire(fs.skip(1))
    }
}

/// Every frame of the sequence is legal on the wire: a well-formed header
/// whose declared length is its payload's length.
pub open spec fn frames_wf(fs: Seq<SpecFrame>) -> bool {
    forall|i: int|
        0 <= i < fs.len() ==> head_wf(#[trigger] fs[i].head) && fs[i].head.payload_len
            == fs[i].payload.len()
}

/// Appending a frame extends the wire stream by that frame's serialization.
pub proof fn lemma_frames_wire_push(fs: Seq<SpecFrame>, f: SpecFrame)
    ensures
        frames_wire(fs.push(f)) == frames_wire(fs) + frame_bytes(f.head, f.payload),
    decreases fs.len(),
{
    if fs.len() == 0 {
        assert(fs.push(f).skip(1) =~= Seq::<SpecFrame>::empty());
        assert(frames_wire(fs) =~= Seq::<u8>::empty());
        assert(frames_wire(fs.push(f)) =~= frame_bytes(f.head, f.payload) + frames_wire(
            fs.push(f).skip(1),
        ));
        assert(frames_wire(fs.push(f)) =~= frames_wire(fs) + frame_bytes(f.head, f.payload));
    } else {
        assert(fs.push(f).skip(1) =~= fs.skip(1).push(f));
        assert(fs.push(f)[0] == fs[0]);
        lemma_frames_wire_push(fs.skip(1), f);
        assert(frames_wire(fs.push(f)) =~= frames_wire(fs) + frame_bytes(f.head, f.payload));
    }
}

/// The codec round trip at frame level: a serialized well-formed frame
/// splits back into exactly its header, and its payload bytes unmask to the
/// payload that was sent.
pub proof fn lemma_frame_roundtrip(h: SpecFrameHead, payload: Seq<u8>)
    requires
        head_wf(h),
        h.payload_len == payload.len(),
    ensures
        frame_bytes(h, payload).len() == head_len(h) + payload.len(),
        head_parse(frame_bytes(h, payload).take(head_len(h))) == SpecHeadParse::Head(
            h,
            head_len(h),
        ),
        mask_seq(h.mask, 0, frame_bytes(h, payload).skip(head_len(h))) == payload,
{
    let b = frame_bytes(h, payload);
    assert(b.take(head_len(h)) =~= head_bytes(h));
    assert(b.skip(head_len(h)) =~= mask_seq(h.mask, 0, payload));
    lemma_head_roundtrip(h);
    lemma_mask_self_inverse(h.mask, 0, payload);
}

/// Every frame of a well-formed sequence survives the wire: its serialized
/// bytes parse back to its own header, and its payload bytes unmask to its
/// own payload.  Together with a connection's framing invariant — the
/// output is `frames_wire` of the frames it sent — the peer can recover
/// every message exactly as it was written.
pub proof fn lemma_wire_carries_frames(fs: Seq<SpecFrame>)
    requires
        frames_wf(fs),
    ensures
        forall|i: int|
            0 <= i < fs.len() ==> {
                let b = frame_bytes(#[trigger] fs[i].head, fs[i].payload);
                &&& head_parse(b.take(head_len(fs[i].head))) == SpecHeadParse::Head(
                    fs[i].head,
                    head_len(fs[i].head),
                )
                &&& mask_seq(fs[i].head.mask, 0, b.skip(head_len(fs[i].head))) == fs[i].payload
            },
{
    assert forall|i: int| 0 <= i < fs.len() implies {
        let b = frame_bytes(#[trigger] fs[i].head, fs[i].payload);
        &&& head_parse(b.take(head_len(fs[i].head))) == SpecHeadParse::Head(
            fs[i].head,
            head_len(fs[i].head),
        )
        &&& mask_seq(fs[i].head.mask, 0, b.skip(head_len(fs[i].head))) == fs[i].payload
    } by {
        lemma_frame_roundtrip(fs[i].head, fs[i].payload);
    }
}

/// The wire stream of concatenated frame sequences is the concatenation of
/// their wire streams.
pub proof fn lemma_frames_wire_concat(a: Seq<SpecFrame>, b: Seq<SpecFrame>)
    ensures
        frames_wire(a + b) == frames_wire(a) + frames_wire(b),
    decreases a.len(),
{
    if a.len() == 0 {
        assert(a + b =~= b);
        assert(frames_wire(a) =~= Seq::<u8>::empty());
        assert(frames_wire(a) + frames_wire(b) =~= frames_wire(b));
    } else {
        assert((a + b)[0] == a[0]);
        assert((a + b).skip(1) =~= a.skip(1) + b);
        lemma_frames_wire_concat(a.skip(1), b);
        assert(frames_wire(a + b) =~= frames_wire(a) + frames_wire(b));
    }
}

/// A close code the protocol allows a peer to carry in a Close body.
pub open spec fn valid_close_code(c: u16) -> bool {
    (1000 <= c && c <= 1003) || (1007 <= c && c <= 1015) || c >= 3000
}

/// A legal Close frame body: either empty, or a valid code followed by a
/// UTF-8 reason.  A single stray byte is malformed.
pub open spec fn valid_close_body(body: Seq<u8>) -> bool {
    body.len() == 0 || (body.len() >= 2 && valid_close_code(
        ((body[0] as u16) << 8) | (body[1] as u16),
    ) && crate::utf8::is_utf8(body.skip(2)))
}

/// Check a Close frame body: empty, or 2-byte code in the allowed ranges
/// plus a UTF-8 reason.
pub fn close_body_valid(body: &Vec<u8>) -> (r: bool)
    ensures
        r == valid_close_body(body@),
{
    if body.len() == 0 {
        return true;
    }
    if body.len() == 1 {
        return false;
    }
    let code: u16 = ((body[0] as u16) << 8) | (body[1] as u16);
    if !((1000 <= code && code <= 1003) || (1007 <= code && code <= 1015) || code >= 3000) {
        return false;
    }
    let mut reason: Vec<u8> = Vec::new();
    let mut i: usize = 2;
    while i < body.len()
        invariant
            2 <= i <= body@.len(),
            reason@ == body@.subrange(2, i as int),
        decreases body@.len() - i,
    {
        reason.push(body[i]);
        i += 1;
        proof {
            assert(reason@ =~= body@.subrange(2, i as int));
        }
    }
    proof {
        assert(body@.subrange(2, body@.len() as int) =~= body@.skip(2));
    }
    crate::utf8::is_utf8_exec(&reason)
}

/// The inline payload of a control frame: at most 125 bytes.
#[derive(Debug)]
pub struct WsControlFramePayload {
    pub data: Vec<u8>,
}

impl WsControlFramePayload {
    pub open spec fn view_bytes(self) -> Seq<u8> {
        self.data@
    }

    pub open spec fn wf(self) -> bool {
        self.data@.len() <= 125
    }

    /// Keep the first 125 bytes of `data`.
    pub fn new(data: &Vec<u8>) -> (r: WsControlFramePayload)
        ensures
            r.wf(),
            r.view_bytes() == if data@.len() <= 125 {
                data@
            } else {
                data@.subrange(0, 125)
            },
    {
        let len = if data.len() <= 125 {
            data.len()
        } else {
            125
        };
        let mut buf: Vec<u8> = Vec::new();
        let mut i: usize = 0;
        while i < len
            invariant
                i <= len,
                len <= data@.len(),
                buf@ == data@.subrange(0, i as int),
            decreases len - i,
        {
            buf.push(data[i]);
            i += 1;
            proof {
                assert(buf@ =~= data@.subrange(0, i as int));
            }
        }
        proof {
            if data@.len() <= 125 {
                assert(data@.subrange(0, data@.len() as int) =~= data@);
            }
        }
        WsControlFramePayload { data: buf }
    }

    /// The body of a Close frame: a 2-byte big-endian code followed by the
    /// reason, the reason cut off at 123 bytes so the body fits a control
    /// frame.
    pub fn for_close(code: u16, reason: &Vec<u8>) -> (r: WsControlFramePayload)
        ensures
            r.wf(),
            r.view_bytes() == seq![((code >> 8) & 0xff) as u8, (code & 0xff) as u8] + if reason@.len()
                <= 123 {
                reason@
            } else {
                reason@.subrange(0, 123)
            },
    {
        let cut = if reason.len() <= 123 {
            reason.len()
        } else {
            123
        };
        let mut buf: Vec<u8> = Vec::new();
        buf.push(((code >> 8) & 0xff) as u8);
        buf.push((code & 0xff) as u8);
        let mut i: usize = 0;
        while i < cut
            invariant
                i <= cut,
                cut <= reason@.len(),
                buf@ == seq![((code >> 8) & 0xff) as u8, (code & 0xff) as u8] + reason@.subrange(
                    0,
                    i as int,
                ),
            decreases cut - i,
        {
            buf.push(reason[i]);
            i += 1;
            proof {
                assert(buf@ =~= seq![((code >> 8) & 0xff) as u8, (code & 0xff) as u8]
                    + reason@.subrange(0, i as int));
            }
        }
        proof {
            if reason@.len() <= 123 {
                assert(reason@.subrange(0, reason@.len() as int) =~= reason@);
            }
        }
        WsControlFramePayload { data: buf }
    }

    pub fn data(&self) -> (r: &Vec<u8>)
        ensures
            r@ == self.view_bytes(),
    {
        &self.data
    }

    pub fn len(&self) -> (r: usize)
        ensures
            r == self.view_bytes().len(),
    {
        self.data.len()
    }

    /// A copy with the same bytes.
    pub fn duplicate(&self) -> (r: WsControlFramePayload)
        ensures
            r.view_bytes() == self.view_bytes(),
            r.wf() == self.wf(),
    {
        let mut buf: Vec<u8> = Vec::new();
        buf.extend_from_slice(self.data.as_slice());
        proof {
            assert(buf@ =~= self.data@);
        }
        WsControlFramePayload { data: buf }
    }
}

/// A data frame's header as the decoder hands it on: the payload is still on
/// the wire, to be consumed through a payload reader.
#[derive(Clone, Copy, Debug)]
pub struct WsDataFrame {
    pub kind: WsDataFrameKind,
    pub fin: bool,
    pub mask: [u8; 4],
    pub payload_len: u64,
}

impl WsDataFrame {
    pub open spec fn wf(self) -> bool {
        self.payload_len <= 0x4000_0000
    }

    /// A reader for this frame's payload.
    pub fn payload_reader(&self) -> (r: FramePayloadReaderState)
        requires
            self.wf(),
        ensures
            r.wf(),
            r.mask_key() == self.mask@,
            r.total_len() == self.payload_len,
            r.consumed() == 0,
    {
        FramePayloadReaderState::new(self.mask, self.payload_len)
    }

    pub fn kind(&self) -> (r: WsDataFrameKind)
        ensures
            r == self.kind,
    {
        self.kind
    }

    pub fn fin(&self) -> (r: bool)
        ensures
            r == self.fin,
    {
        self.fin
    }

    pub fn mask(&self) -> (r: [u8; 4])
        ensures
            r@ == self.mask@,
    {
        self.mask
    }

    pub fn payload_len(&self) -> (r: u64)
        ensures
            r == self.payload_len,
    {
        self.payload_len
    }
}

/// A fully buffered control frame.
#[derive(Debug)]
pub struct WsControlFrame {
    pub kind: WsControlFrameKind,
    pub payload: WsControlFramePayload,
}

impl WsControlFrame {
    pub open spec fn wf(self) -> bool {
        self.payload.wf()
    }

    pub fn new(kind: WsControlFrameKind, payload: &Vec<u8>) -> (r: WsControlFrame)
        ensures
            r.wf(),
            r.kind == kind,
            r.payload.view_bytes() == if payload@.len() <= 125 {
                payload@
            } else {
                payload@.subrange(0, 125)
            },
    {
        let payload = WsControlFramePayload::new(payload);
        WsControlFrame { kind, payload }
    }

    pub fn payload(&self) -> (r: &Vec<u8>)
        ensures
            r@ == self.payload.view_bytes(),
    {
        self.payload.data()
    }

    pub fn kind(&self) -> (r: WsControlFrameKind)
        ensures
            r == self.kind,
    {
        self.kind
    }

    /// A copy with the same kind and bytes.
    pub fn duplicate(&self) -> (r: WsControlFrame)
        ensures
            r.kind == self.kind,
            r.payload.view_bytes() == self.payload.view_bytes(),
            r.wf() == self.wf(),
    {
        WsControlFrame { kind: self.kind, payload: self.payload.duplicate() }
    }
}

/// One decoded frame.
#[derive(Debug)]
pub enum WsFrame {
    Control(WsControlFrame),
    Data(WsDataFrame),
}

impl WsFrame {
    /// Serialize a frame into the tail of `buffer`: the header, then the
    /// payload masked with the header's key.  Returns the number of bytes
    /// written.
    pub fn encode(frame_head: FrameHead, frame_payload: &Vec<u8>, buffer: &mut Vec<u8>) -> (n:
        usize)
        requires
            frame_head.payload_len == frame_payload@.len(),
        ensures
            final(buffer)@ == old(buffer)@ + frame_bytes(frame_head@, frame_payload@),
            n == frame_bytes(frame_head@, frame_payload@).len(),
    {
        let start = buffer.len();
        let head = frame_head.encode();
        buffer.extend_from_slice(head.as_slice());
        let mut masked: Vec<u8> = Vec::new();
        masked.extend_from_slice(frame_payload.as_slice());
        proof {
            assert(masked@ =~= frame_payload@);
        }
        payload_mask(frame_head.mask, 0, &mut masked);
        buffer.extend_from_slice(masked.as_slice());
        proof {
            assert(buffer@ =~= old(buffer)@ + frame_bytes(frame_head@, frame_payload@));
        }
        buffer.len() - start
    }

    /// Serialize a frame into a fresh vector.
    pub fn encode_vec(frame_head: FrameHead, frame_payload: &Vec<u8>) -> (r: Vec<u8>)
        requires
            frame_head.payload_len == frame_payload@.len(),
        ensures
            r@ == frame_bytes(frame_head@, frame_payload@),
    {
        let mut buffer: Vec<u8> = Vec::new();
        WsFrame::encode(frame_head, frame_payload, &mut buffer);
        proof {
            assert(Seq::<u8>::empty() + frame_bytes(frame_head@, frame_payload@) =~= frame_bytes(
                frame_head@,
                frame_payload@,
            ));
        }
        buffer
    }
}

#[derive(Clone, Copy, Debug, PartialEq, Eq, Structural)]
pub enum WsDataFrameKind {
    Text,
    Binary,
    Continuation,
}

impl WsDataFrameKind {
    pub fn opcode(self) -> (op: WsOpcode)
        ensures
            op == self.opcode_spec(),
    {
        match self {
            WsDataFrameKind::Text => WsOpcode::Text,
            WsDataFrameKind::Binary => WsOpcode::Binary,
            WsDataFrameKind::Continuation => WsOpcode::Continuation,
        }
    }

    pub open spec fn opcode_spec(self) -> WsOpcode {
        match self {
            WsDataFrameKind::Text => WsOpcode::Text,
            WsDataFrameKind::Binary => WsOpcode::Binary,
            WsDataFrameKind::Continuation => WsOpcode::Continuation,
        }
    }

    /// The message kind a frame of this kind starts, if any.
    pub fn message_kind(self) -> (r: Option<WsMessageKind>)
        ensures
            r == self.message_kind_spec(),
    {
        match self {
            WsDataFrameKind::Text => Some(WsMessageKind::Text),
            WsDataFrameKind::Binary => Some(WsMessageKind::Binary),
            WsDataFrameKind::Continuation => None,
        }
    }

    pub open spec fn message_kind_spec(self) -> Option<WsMessageKind> {
        match self {
            WsDataFrameKind::Text => Some(WsMessageKind::Text),
            WsDataFrameKind::Binary => Some(WsMessageKind::Binary),
            WsDataFrameKind::Continuation => None,
        }
    }
}

#[derive(Clone, Copy, Debug, PartialEq, Eq, Structural)]
pub enum WsControlFrameKind {
    Ping,
    Pong,
    Close,
}

impl WsControlFrameKind {
    pub fn opcode(self) -> (op: WsOpcode)
        ensures
            op == self.opcode_spec(),
    {
        match self {
            WsControlFrameKind::Ping => WsOpcode::Ping,
            WsControlFrameKind::Pong => WsOpcode::Pong,
            WsControlFrameKind::Close => WsOpcode::Close,
        }
    }

    pub open spec fn opcode_spec(self) -> WsOpcode {
        match self {
            WsControlFrameKind::Ping => WsOpcode::Ping,
            WsControlFrameKind::Pong => WsOpcode::Pong,
            WsControlFrameKind::Close => WsOpcode::Close,
        }
    }
}

} // verus!
