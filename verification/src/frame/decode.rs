use crate::frame::{
    close_body_valid, mask_seq, valid_close_body, FrameHead, FrameHeadParseError,
    FramePayloadReaderState, PayloadRead, SpecFrameHead, SpecHeadParse, WsControlFrame,
    WsControlFrameKind, WsControlFramePayload, WsDataFrame, WsFrame, WsFrameKind,
};
use crate::frame::frame_head::head_parse;
use crate::input::WireInput;
use vstd::prelude::*;

verus! {

/// Why decoding a frame failed.
#[derive(Clone, Copy, Debug, PartialEq, Eq, Structural)]
pub enum FrameDecodeError {
    /// The transport ended inside a frame.
    Io,
    /// The header violated the grammar.
    ParseErr(FrameHeadParseError),
    /// A Close frame carried an illegal body.
    InvalidCloseBody,
}

/// What one poll of the header decoder produced.
pub enum HeadPoll {
    Ready(FrameHead),
    Pending,
    Eof,
    ParseErr(FrameHeadParseError),
}

/// The collected bytes never run past the header: when they parse, they are
/// exactly the header.
spec fn exact_head(b: Seq<u8>) -> bool {
    match head_parse(b) {
        SpecHeadParse::Head(_, n) => n == b.len() as int,
        _ => true,
    }
}

/// Collects header bytes from the wire until a full header is present.
pub struct FrameHeadDecodeState {
    buffer: Vec<u8>,
}

impl FrameHeadDecodeState {
    /// The header bytes collected so far.
    pub closed spec fn bytes(self) -> Seq<u8> {
        self.buffer@
    }

    /// Between polls the collected bytes are a proper header prefix.
    pub closed spec fn wf(self) -> bool {
        head_parse(self.buffer@) is Incomplete
    }

    /// A fresh or well-formed state never overshoots the header.
    spec fn exact(self) -> bool {
        exact_head(self.buffer@)
    }

    pub fn new() -> (r: FrameHeadDecodeState)
        ensures
            r.wf(),
            r.bytes() == Seq::<u8>::empty(),
    {
        FrameHeadDecodeState { buffer: Vec::new() }
    }

    /// Pull bytes from `rx` until a full header parses, the grammar rejects
    /// the bytes, or the input runs dry.
    pub fn poll(&mut self, rx: &mut WireInput) -> (r: HeadPoll)
        requires
            old(self).wf(),
            old(rx).wf(),
        ensures
            final(rx).wf(),
            final(rx).is_closed() == old(rx).is_closed(),
            final(rx).remaining().len() <= old(rx).remaining().len(),
            old(self).bytes() + old(rx).remaining() == final(self).bytes() + final(rx).remaining(),
            old(self).bytes().len() <= final(self).bytes().len(),
            final(self).bytes().subrange(0, old(self).bytes().len() as int) == old(self).bytes(),
            match r {
                HeadPoll::Ready(h) => head_parse(final(self).bytes()) == SpecHeadParse::Head(
                    h@,
                    final(self).bytes().len() as int,
                ) && final(rx).remaining().len() < old(rx).remaining().len(),
                HeadPoll::Pending => final(self).wf() && final(rx).remaining().len() == 0 && !final(rx).is_closed(),
                HeadPoll::Eof => final(self).wf() && final(rx).remaining().len() == 0 && final(rx).is_closed(),
                HeadPoll::ParseErr(e) => !(e is Incomplete) && crate::frame::frame_head::parse_matches(
                    Err(e),
                    head_parse(final(self).bytes()),
                ) && final(rx).remaining().len() < old(rx).remaining().len(),
            },
    {
        loop
            invariant
                rx.wf(),
                rx.is_closed() == old(rx).is_closed(),
                old(self).wf(),
                self.exact(),
                old(self).bytes() + old(rx).remaining() == self.buffer@ + rx.remaining(),
                old(self).bytes().len() <= self.buffer@.len(),
                self.buffer@.subrange(0, old(self).bytes().len() as int) == old(self).bytes(),
                rx.remaining().len() <= old(rx).remaining().len(),
                rx.remaining().len() < old(rx).remaining().len() || self.buffer@ == old(self).bytes(),
            decreases rx.remaining().len(),
        {
            let min: usize = match FrameHead::parse(&self.buffer) {
                Ok(h) => {
                    proof {
                        assert(self.buffer@ != old(self).bytes());
                    }
                    return HeadPoll::Ready(h);
                },
                Err(FrameHeadParseError::Incomplete(m)) => m,
                Err(e) => {
                    proof {
                        assert(self.buffer@ != old(self).bytes());
                    }
                    return HeadPoll::ParseErr(e);
                },
            };
            proof {
                assert(self.buffer@.len() < min);
            }
            let avail = rx.available();
            if avail == 0 {
                if rx.is_eof() {
                    return HeadPoll::Eof;
                }
                return HeadPoll::Pending;
            }
            let need = min - self.buffer.len();
            let take = if need <= avail {
                need
            } else {
                avail
            };
            let ghost bpre = self.buffer@;
            let chunk = rx.take(take);
            self.buffer.extend_from_slice(chunk.as_slice());
            proof {
                assert(old(self).bytes() + old(rx).remaining() =~= self.buffer@ + rx.remaining());
                let b2 = self.buffer@;
                assert(b2.len() <= min);
                assert(forall|k: int| 0 <= k < bpre.len() ==> b2[k] == bpre[k]);
                if bpre.len() >= 2 {
                    assert(b2[1] == bpre[1]);
                    assert(exact_head(b2));
                } else if b2.len() >= 2 {
                    assert(min == 2);
                    assert(b2.len() == 2);
                    assert(exact_head(b2));
                } else {
                    assert(exact_head(b2));
                }
            }
        }
    }
}

/// The decoder's position inside the current frame.
enum DecoderPhase {
    /// Reading the header.
    Head(FrameHeadDecodeState),
    /// Buffering the payload of a control frame.
    ControlPayload { kind: WsControlFrameKind, payload: Vec<u8>, reader: FramePayloadReaderState },
}

/// What one poll of the frame decoder produced.
pub enum FramePoll {
    Frame(WsFrame),
    Pending,
    Failed(FrameDecodeError),
}

/// The model of a data frame's header.
pub open spec fn data_frame_head(df: WsDataFrame) -> SpecFrameHead {
    SpecFrameHead {
        fin: df.fin,
        opcode: df.kind.opcode_spec(),
        mask: df.mask@,
        payload_len: df.payload_len,
    }
}

/// The consumed bytes of a finished control frame: a header declaring a
/// final control frame of `kind`, followed by its masked payload, which
/// unmasks to `body`.
pub open spec fn control_frame_bytes(
    kind: WsControlFrameKind,
    body: Seq<u8>,
    consumed: Seq<u8>,
) -> bool {
    let hn = consumed.len() - body.len();
    &&& consumed.len() >= body.len()
    &&& match head_parse(consumed.take(hn as int)) {
        SpecHeadParse::Head(h, n) => {
            &&& n == hn
            &&& h.opcode == kind.opcode_spec()
            &&& h.fin
            &&& h.payload_len == body.len()
            &&& body == mask_seq(h.mask, 0, consumed.skip(hn as int))
        },
        _ => false,
    }
}

spec fn control_ok(
    kind: WsControlFrameKind,
    payload: Seq<u8>,
    reader: FramePayloadReaderState,
    consumed: Seq<u8>,
) -> bool {
    let hn = consumed.len() - reader.consumed();
    &&& reader.wf()
    &&& reader.total_len() <= 125
    &&& reader.consumed() < reader.total_len()
    &&& payload.len() == reader.consumed()
    &&& consumed.len() >= reader.consumed()
    &&& match head_parse(consumed.take(hn as int)) {
        SpecHeadParse::Head(h, n) => {
            &&& n == hn
            &&& h.opcode == kind.opcode_spec()
            &&& h.fin
            &&& h.payload_len == reader.total_len()
            &&& h.mask == reader.mask_key()
            &&& payload == mask_seq(h.mask, 0, consumed.skip(hn as int))
        },
        _ => false,
    }
}

/// A restartable decoder for one frame: header first, and for control
/// frames the buffered payload too.
pub struct FrameDecoderState {
    phase: DecoderPhase,
    taken: Ghost<Seq<u8>>,
}

impl FrameDecoderState {
    /// All wire bytes of the frame being decoded that were consumed so far.
    pub closed spec fn consumed(self) -> Seq<u8> {
        self.taken@
    }

    pub closed spec fn wf(self) -> bool {
        match self.phase {
            DecoderPhase::Head(st) => st.wf() && self.taken@ == st.bytes(),
            DecoderPhase::ControlPayload { kind, payload, reader } => control_ok(
                kind,
                payload@,
                reader,
                self.taken@,
            ),
        }
    }

    pub fn new() -> (r: FrameDecoderState)
        ensures
            r.wf(),
            r.consumed() == Seq::<u8>::empty(),
    {
        FrameDecoderState {
            phase: DecoderPhase::Head(FrameHeadDecodeState::new()),
            taken: Ghost(Seq::empty()),
        }
    }

    /// Decode one frame from `rx`.  A data frame is handed on as soon as its
    /// header is complete; a control frame once its payload is buffered and,
    /// for Close, its body validated.
    pub fn poll(&mut self, rx: &mut WireInput) -> (r: FramePoll)
        requires
            old(self).wf(),
            old(rx).wf(),
        ensures
            final(rx).wf(),
            final(rx).is_closed() == old(rx).is_closed(),
            final(rx).remaining().len() <= old(rx).remaining().len(),
            old(self).consumed() + old(rx).remaining() == final(self).consumed() + final(rx).remaining(),
            old(self).consumed().len() <= final(self).consumed().len(),
            final(self).consumed().subrange(0, old(self).consumed().len() as int) == old(self).consumed(),
            match r {
                FramePoll::Frame(f) => final(rx).remaining().len() < old(rx).remaining().len()
                    && match f {
                    WsFrame::Data(df) => df.wf() && head_parse(final(self).consumed())
                        == SpecHeadParse::Head(
                        data_frame_head(df),
                        final(self).consumed().len() as int,
                    ),
                    WsFrame::Control(cf) => cf.wf() && control_frame_bytes(
                        cf.kind,
                        cf.payload.view_bytes(),
                        final(self).consumed(),
                    ) && (cf.kind is Close ==> valid_close_body(cf.payload.view_bytes())),
                },
                FramePoll::Pending => final(self).wf() && final(rx).remaining().len() == 0
                    && !final(rx).is_closed(),
                FramePoll::Failed(e) => match e {
                    FrameDecodeError::Io => final(rx).remaining().len() == 0 && final(rx).is_closed(),
                    FrameDecodeError::ParseErr(pe) => !(pe is Incomplete)
                        && crate::frame::frame_head::parse_matches(
                        Err(pe),
                        head_parse(final(self).consumed()),
                    ) && final(rx).remaining().len() < old(rx).remaining().len(),
                    FrameDecodeError::InvalidCloseBody => final(rx).remaining().len() < old(
                        rx,
                    ).remaining().len() && exists|b: Seq<u8>|
                        control_frame_bytes(
                            WsControlFrameKind::Close,
                            b,
                            final(self).consumed(),
                        ) && !valid_close_body(b),
                },
            },
    {
        loop
            invariant
                self.wf(),
                rx.wf(),
                rx.is_closed() == old(rx).is_closed(),
                old(self).consumed() + old(rx).remaining() == self.consumed() + rx.remaining(),
                old(self).consumed().len() <= self.consumed().len(),
                self.consumed().subrange(0, old(self).consumed().len() as int) == old(self).consumed(),
                rx.remaining().len() <= old(rx).remaining().len(),
            decreases rx.remaining().len(),
        {
            let mut phase = DecoderPhase::Head(FrameHeadDecodeState::new());
            core::mem::swap(&mut phase, &mut self.phase);
            match phase {
                DecoderPhase::Head(mut st) => {
                    match st.poll(rx) {
                        HeadPoll::Ready(h) => {
                            self.taken = Ghost(st.bytes());
                            proof {
                                crate::frame::lemma_head_parse_wf(
                                    st.bytes(),
                                    h@,
                                    st.bytes().len() as int,
                                );
                            }
                            match h.opcode.frame_kind() {
                                WsFrameKind::Data(kind) => {
                                    let df = WsDataFrame {
                                        kind,
                                        fin: h.fin,
                                        mask: h.mask,
                                        payload_len: h.payload_len,
                                    };
                                    self.phase = DecoderPhase::Head(st);
                                    return FramePoll::Frame(WsFrame::Data(df));
                                },
                                WsFrameKind::Control(kind) => {
                                    proof {
                                        let c = self.taken@;
                                        assert(c.take(c.len() as int) =~= c);
                                        assert(mask_seq(h.mask@, 0, c.skip(c.len() as int))
                                            =~= Seq::<u8>::empty());
                                    }
                                    if h.payload_len == 0 {
                                        let empty: Vec<u8> = Vec::new();
                                        let body = WsControlFramePayload::new(&empty);
                                        if matches!(kind, WsControlFrameKind::Close) {
                                            if !close_body_valid(&empty) {
                                                proof {
                                                    assert(control_frame_bytes(
                                                        WsControlFrameKind::Close,
                                                        empty@,
                                                        self.taken@,
                                                    ));
                                                }
                                                self.phase = DecoderPhase::Head(st);
                                                return FramePoll::Failed(
                                                    FrameDecodeError::InvalidCloseBody,
                                                );
                                            }
                                        }
                                        self.phase = DecoderPhase::Head(st);
                                        return FramePoll::Frame(
                                            WsFrame::Control(WsControlFrame { kind, payload: body }),
                                        );
                                    }
                                    let reader = FramePayloadReaderState::new(
                                        h.mask,
                                        h.payload_len,
                                    );
                                    self.phase = DecoderPhase::ControlPayload {
                                        kind,
                                        payload: Vec::new(),
                                        reader,
                                    };
                                },
                            }
                        },
                        HeadPoll::Pending => {
                            self.taken = Ghost(st.bytes());
                            self.phase = DecoderPhase::Head(st);
                            return FramePoll::Pending;
                        },
                        HeadPoll::Eof => {
                            self.taken = Ghost(st.bytes());
                            self.phase = DecoderPhase::Head(st);
                            return FramePoll::Failed(FrameDecodeError::Io);
                        },
                        HeadPoll::ParseErr(e) => {
                            self.taken = Ghost(st.bytes());
                            self.phase = DecoderPhase::Head(st);
                            return FramePoll::Failed(FrameDecodeError::ParseErr(e));
                        },
                    }
                },
                DecoderPhase::ControlPayload { kind, mut payload, mut reader } => {
                    let ghost pre_taken = self.taken@;
                    let ghost pre_reader = reader;
                    let ghost pre_rx = rx.remaining();
                    match reader.poll_read(rx, 125) {
                        PayloadRead::Data(v) => {
                            if v.len() == 0 {
                                proof {
                                    assert(false);
                                }
                                self.phase = DecoderPhase::ControlPayload { kind, payload, reader };
                                return FramePoll::Pending;
                            }
                            let ghost n = v@.len() as int;
                            let ghost raw = pre_rx.subrange(0, n);
                            self.taken = Ghost(pre_taken + raw);
                            payload.extend_from_slice(v.as_slice());
                            proof {
                                let hn = pre_taken.len() - pre_reader.consumed();
                                let c = self.taken@;
                                assert(c.take(hn as int) =~= pre_taken.take(hn as int));
                                assert(c.skip(hn as int) =~= pre_taken.skip(hn as int) + raw);
                                crate::frame::lemma_mask_append(
                                    pre_reader.mask_key(),
                                    0,
                                    pre_taken.skip(hn as int),
                                    raw,
                                );
                                assert(payload@ =~= mask_seq(
                                    pre_reader.mask_key(),
                                    0,
                                    c.skip(hn as int),
                                ));
                                assert(old(self).consumed() + old(rx).remaining() =~= self.consumed()
                                    + rx.remaining());
                            }
                            if reader.finished() {
                                let body = WsControlFramePayload::new(&payload);
                                proof {
                                    assert(payload@.len() <= 125);
                                    assert(body.view_bytes() == payload@);
                                }
                                if matches!(kind, WsControlFrameKind::Close) {
                                    if !close_body_valid(&payload) {
                                        proof {
                                            assert(control_frame_bytes(
                                                WsControlFrameKind::Close,
                                                payload@,
                                                self.taken@,
                                            ));
                                        }
                                        self.phase = DecoderPhase::Head(FrameHeadDecodeState::new());
                                        return FramePoll::Failed(FrameDecodeError::InvalidCloseBody);
                                    }
                                }
                                self.phase = DecoderPhase::Head(FrameHeadDecodeState::new());
                                return FramePoll::Frame(
                                    WsFrame::Control(WsControlFrame { kind, payload: body }),
                                );
                            }
                            self.phase = DecoderPhase::ControlPayload { kind, payload, reader };
                        },
                        PayloadRead::Pending => {
                            self.phase = DecoderPhase::ControlPayload { kind, payload, reader };
                            return FramePoll::Pending;
                        },
                        PayloadRead::Eof => {
                            self.phase = DecoderPhase::ControlPayload { kind, payload, reader };
                            return FramePoll::Failed(FrameDecodeError::Io);
                        },
                    }
                },
            }
        }
    }
}

} // verus!
