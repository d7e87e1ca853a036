use crate::connection::WsConnectionError;
use crate::frame::{
    control_frame_bytes, head_parse, mask_seq, opcode_is_control, FrameDecodeError,
    FrameDecoderState, FramePayloadReaderState, FramePoll, PayloadRead, SpecHeadParse,
    WsControlFrame, WsControlFrameKind, WsDataFrame, WsFrame,
};
use crate::input::WireInput;
use crate::message::WsMessageKind;
use crate::utf8::{is_utf8, Utf8Validator};
use vstd::prelude::*;

verus! {

/// What the incoming half is ready with.
#[derive(Clone, Copy, Debug, PartialEq, Eq, Structural)]
pub enum DecodeReady {
    Control(WsControlFrameKind),
    MessageStart,
    MessageData,
    MessageEnd,
    Error,
    Done,
    Pending,
}

/// What a message read step produced.
pub enum DataPoll {
    /// Unmasked message bytes; empty when no message data is readable here.
    Data(Vec<u8>),
    /// Reading needs more input.
    Pending,
}

enum DecodePhase {
    WaitingForMessageStart { frame_decoder: FrameDecoderState },
    MessageStart { kind: WsMessageKind, first_frame_mask: [u8; 4], first_frame_payload_len: u64, fin: bool },
    WaitingForMessageContinuation { frame_decoder: FrameDecoderState, utf8: Option<Utf8Validator> },
    ReadingDataFramePayload { payload: FramePayloadReaderState, fin: bool, utf8: Option<Utf8Validator> },
    MessageEnd,
    Control { frame: WsControlFrame, continue_message: Option<Option<Utf8Validator>> },
    Failed(WsConnectionError),
    Done,
}

/// `frame` is the wire form of one data frame — a parseable header and then
/// masked payload bytes — and `frag` is the unmasked front of that payload.
pub open spec fn data_frame_tied(frame: Seq<u8>, frag: Seq<u8>) -> bool {
    let hn = frame.len() - frag.len();
    &&& frag.len() <= frame.len()
    &&& match head_parse(frame.take(hn as int)) {
        SpecHeadParse::Head(h, n) => {
            &&& n == hn
            &&& !opcode_is_control(h.opcode)
            &&& frag == mask_seq(h.mask, 0, frame.skip(hn as int))
            &&& frag.len() <= h.payload_len
        },
        _ => false,
    }
}

/// As `data_frame_tied`, with the whole declared payload present: `frag` is
/// exactly the frame's unmasked payload.
pub open spec fn data_frame_complete(frame: Seq<u8>, frag: Seq<u8>) -> bool {
    let hn = frame.len() - frag.len();
    &&& data_frame_tied(frame, frag)
    &&& match head_parse(frame.take(hn as int)) {
        SpecHeadParse::Head(h, n) => frag.len() == h.payload_len,
        _ => false,
    }
}

/// Every fragment is exactly the unmasked payload of its own wire frame.
pub open spec fn fragments_complete(fw: Seq<Seq<u8>>, frags: Seq<Seq<u8>>) -> bool {
    fw.len() == frags.len() && (forall|i: int|
        0 <= i < fw.len() ==> data_frame_complete(#[trigger] fw[i], frags[i]))
}

proof fn lemma_prefix_cancel(a: Seq<u8>, x: Seq<u8>, y: Seq<u8>)
    requires
        a + x == a + y,
    ensures
        x == y,
{
    assert((a + x).len() == (a + y).len());
    assert((a + x).len() == a.len() + x.len());
    assert((a + y).len() == a.len() + y.len());
    assert(x.len() == y.len());
    assert forall|i: int| 0 <= i < x.len() implies x[i] == y[i] by {
        assert((a + x)[a.len() + i] == x[i]);
        assert((a + y)[a.len() + i] == y[i]);
    }
    assert(x =~= y);
}

/// The incoming half of a connection: frames are decoded, data frames are
/// reassembled into one message at a time, control frames are handed out
/// between them.
pub struct DecodeState {
    phase: DecodePhase,
    /// Kind of the message being reassembled.
    mkind: Ghost<WsMessageKind>,
    /// Unmasked payloads of the completed fragments of the current message.
    frags: Ghost<Seq<Seq<u8>>>,
    /// Wire bytes of those same fragments' frames, in the same order.
    fwire: Ghost<Seq<Seq<u8>>>,
    /// Unmasked bytes of the current fragment handed out so far.
    cur: Ghost<Seq<u8>>,
    /// All message bytes handed out for the current message, in order.
    delivered: Ghost<Seq<u8>>,
    /// Every wire byte this decoder has consumed, in order.
    stream: Ghost<Seq<u8>>,
    /// The wire bytes of the frame currently being decoded or read.
    ft: Ghost<Seq<u8>>,
}

impl DecodeState {
    /// The kind of the message currently being reassembled.
    pub closed spec fn message_kind(self) -> WsMessageKind {
        self.mkind@
    }

    /// The unmasked payloads of the data fragments of the current message
    /// that have been fully consumed.
    pub closed spec fn fragments(self) -> Seq<Seq<u8>> {
        self.frags@
    }

    /// Every message byte handed to the reader for the current message.
    pub closed spec fn delivered(self) -> Seq<u8> {
        self.delivered@
    }

    pub closed spec fn is_waiting_start(self) -> bool {
        self.phase is WaitingForMessageStart
    }

    pub closed spec fn is_message_start(self) -> bool {
        self.phase is MessageStart
    }

    pub closed spec fn is_reading(self) -> bool {
        self.phase is ReadingDataFramePayload
    }

    pub closed spec fn is_message_end(self) -> bool {
        self.phase is MessageEnd
    }

    pub closed spec fn is_control(self) -> bool {
        self.phase is Control
    }

    pub closed spec fn is_failed(self) -> bool {
        self.phase is Failed
    }

    pub closed spec fn is_done(self) -> bool {
        self.phase is Done
    }

    /// The latched error, if decoding failed.
    pub closed spec fn error_of(self) -> Option<WsConnectionError> {
        match self.phase {
            DecodePhase::Failed(e) => Some(e),
            _ => None,
        }
    }

    /// A message is mid-flight: between fragments or inside one.
    pub closed spec fn in_message(self) -> bool {
        self.phase is ReadingDataFramePayload || self.phase is WaitingForMessageContinuation
            || self.phase is MessageEnd || (match self.phase {
            DecodePhase::Control { continue_message, .. } => continue_message is Some,
            _ => false,
        })
    }

    /// The phases exclude one another, and how each relates to being
    /// inside a message.
    pub proof fn lemma_phases(self)
        ensures
            self.is_message_start() ==> !self.in_message() && !self.is_failed() && !self.is_done()
                && !self.is_reading() && !self.is_control() && !self.is_message_end()
                && !self.is_waiting_start() && !self.phase_is_continuation(),
            self.is_reading() ==> self.in_message() && !self.is_control() && !self.is_message_end()
                && !self.is_failed() && !self.is_done() && !self.is_waiting_start()
                && !self.phase_is_continuation(),
            self.is_message_end() ==> self.in_message() && !self.is_control() && !self.is_reading()
                && !self.is_failed() && !self.is_done() && !self.is_waiting_start()
                && !self.phase_is_continuation(),
            self.phase_is_continuation() ==> self.in_message() && !self.is_reading()
                && !self.is_control() && !self.is_message_end() && !self.is_failed()
                && !self.is_done() && !self.is_waiting_start(),
            self.is_waiting_start() ==> !self.in_message() && !self.is_failed() && !self.is_done()
                && !self.is_reading() && !self.is_control() && !self.is_message_end(),
            self.is_failed() ==> !self.is_done() && !self.in_message() && !self.is_reading()
                && !self.is_control() && !self.is_message_end(),
            self.is_done() ==> !self.in_message() && !self.is_reading() && !self.is_control()
                && !self.is_message_end(),
            self.is_control() ==> !self.is_failed() && !self.is_done() && !self.is_reading()
                && !self.is_message_end(),
            self.is_waiting_start() || self.is_message_start() || self.phase_is_continuation()
                || self.is_reading() || self.is_message_end() || self.is_control()
                || self.is_failed() || self.is_done(),
            self.is_failed() == (self.error_of() is Some),
    {
    }

    /// Every wire byte this decoder has consumed, in order.
    pub closed spec fn stream_consumed(self) -> Seq<u8> {
        self.stream@
    }

    /// The wire bytes of the frame currently being decoded or read: its
    /// header once complete, then its masked payload as far as consumed.
    pub closed spec fn frame_taken(self) -> Seq<u8> {
        self.ft@
    }

    /// The wire bytes, frame by frame, of the completed fragments of the
    /// current message.
    pub closed spec fn fragment_frames(self) -> Seq<Seq<u8>> {
        self.fwire@
    }

    /// The bytes of the current fragment handed out so far.
    pub closed spec fn fragment_delivered(self) -> Seq<u8> {
        self.cur@
    }

    spec fn text_ok(utf8: Option<Utf8Validator>, kind: WsMessageKind, fed: Seq<u8>) -> bool {
        match utf8 {
            Some(v) => kind is Text && v.wf() && v.fed() == fed,
            None => kind is Binary,
        }
    }

    pub closed spec fn wf(self) -> bool {
        &&& self.ft@.len() <= self.stream@.len()
        &&& self.stream@.skip((self.stream@.len() - self.ft@.len()) as int) == self.ft@
        &&& match self.phase {
            DecodePhase::WaitingForMessageStart { frame_decoder } => {
                &&& frame_decoder.wf()
                &&& self.ft@ == frame_decoder.consumed()
            },
            DecodePhase::MessageStart { kind, first_frame_mask, first_frame_payload_len, fin } => {
                &&& first_frame_payload_len <= 0x4000_0000
                &&& match head_parse(self.ft@) {
                    SpecHeadParse::Head(h, n) => {
                        &&& n == self.ft@.len()
                        &&& h.opcode == kind.frame_kind_spec().opcode_spec()
                        &&& h.fin == fin
                        &&& h.payload_len == first_frame_payload_len
                        &&& h.mask == first_frame_mask@
                    },
                    _ => false,
                }
            },
            DecodePhase::WaitingForMessageContinuation { frame_decoder, utf8 } => {
                &&& frame_decoder.wf()
                &&& self.ft@ == frame_decoder.consumed()
                &&& self.delivered@ == self.frags@.flatten()
                &&& Self::text_ok(utf8, self.mkind@, self.delivered@)
                &&& fragments_complete(self.fwire@, self.frags@)
            },
            DecodePhase::ReadingDataFramePayload { payload, fin, utf8 } => {
                &&& payload.wf()
                &&& payload.consumed() <= payload.total_len()
                &&& self.cur@.len() == payload.consumed()
                &&& self.delivered@ == self.frags@.flatten() + self.cur@
                &&& Self::text_ok(utf8, self.mkind@, self.delivered@)
                &&& self.cur@.len() <= self.ft@.len()
                &&& match head_parse(self.ft@.take((self.ft@.len() - self.cur@.len()) as int)) {
                    SpecHeadParse::Head(h, n) => {
                        &&& n == self.ft@.len() - self.cur@.len()
                        &&& !opcode_is_control(h.opcode)
                        &&& h.fin == fin
                        &&& h.payload_len == payload.total_len()
                        &&& h.mask == payload.mask_key()
                        &&& self.cur@ == mask_seq(
                            h.mask,
                            0,
                            self.ft@.skip((self.ft@.len() - self.cur@.len()) as int),
                        )
                    },
                    _ => false,
                }
                &&& fragments_complete(self.fwire@, self.frags@)
            },
            DecodePhase::MessageEnd => {
                &&& self.delivered@ == self.frags@.flatten()
                &&& (self.mkind@ is Text ==> is_utf8(self.delivered@))
                &&& fragments_complete(self.fwire@, self.frags@)
            },
            DecodePhase::Control { frame, continue_message } => {
                &&& frame.wf()
                &&& control_frame_bytes(frame.kind, frame.payload.view_bytes(), self.ft@)
                &&& match continue_message {
                    Some(utf8) => self.delivered@ == self.frags@.flatten() && Self::text_ok(
                        utf8,
                        self.mkind@,
                        self.delivered@,
                    ) && fragments_complete(self.fwire@, self.frags@),
                    None => true,
                }
            },
            DecodePhase::Failed(_) => true,
            DecodePhase::Done => true,
        }
    }

    pub fn new() -> (r: DecodeState)
        ensures
            r.wf(),
            r.is_waiting_start(),
            !r.in_message(),
            !r.is_done(),
            !r.is_failed(),
            r.error_of() is None,
            r.stream_consumed() == Seq::<u8>::empty(),
            r.frame_taken() == Seq::<u8>::empty(),
    {
        let r = DecodeState {
            phase: DecodePhase::WaitingForMessageStart {
                frame_decoder: FrameDecoderState::new(),
            },
            mkind: Ghost(WsMessageKind::Binary),
            frags: Ghost(Seq::empty()),
            fwire: Ghost(Seq::empty()),
            cur: Ghost(Seq::empty()),
            delivered: Ghost(Seq::empty()),
            stream: Ghost(Seq::empty()),
            ft: Ghost(Seq::empty()),
        };
        proof {
            assert(r.stream@.skip(0) =~= r.ft@);
        }
        r
    }

    /// Latch an error; decoding is over.
    pub fn set_err(&mut self, err: WsConnectionError)
        requires
            old(self).wf(),
        ensures
            final(self).wf(),
            final(self).is_failed(),
            !final(self).is_done(),
            final(self).error_of() == Some(err),
            final(self).stream_consumed() == old(self).stream_consumed(),
    {
        self.phase = DecodePhase::Failed(err);
    }

    /// Surface the latched error once; the state becomes terminal.
    pub fn take_err(&mut self) -> (r: Option<WsConnectionError>)
        requires
            old(self).wf(),
        ensures
            final(self).wf(),
            final(self).stream_consumed() == old(self).stream_consumed(),
            r == old(self).error_of(),
            old(self).is_failed() ==> final(self).is_done(),
            !old(self).is_failed() ==> *final(self) == *old(self),
            r is None ==> *final(self) == *old(self),
    {
        let mut phase = DecodePhase::Done;
        core::mem::swap(&mut phase, &mut self.phase);
        match phase {
            DecodePhase::Failed(e) => {
                self.phase = DecodePhase::Done;
                Some(e)
            },
            other => {
                self.phase = other;
                None
            },
        }
    }

    /// Advance until something is ready: decode the next frame when between
    /// frames, otherwise report the ready state.
    #[verifier::rlimit(60)]
    pub fn poll(&mut self, rx: &mut WireInput) -> (r: DecodeReady)
        requires
            old(self).wf(),
            old(rx).wf(),
        ensures
            final(self).wf(),
            final(rx).wf(),
            final(rx).is_closed() == old(rx).is_closed(),
            match r {
                DecodeReady::Control(k) => final(self).is_control() && final(self).in_message()
                    == old(self).in_message(),
                DecodeReady::MessageStart => final(self).is_message_start(),
                DecodeReady::MessageData => final(self).is_reading(),
                DecodeReady::MessageEnd => final(self).is_message_end(),
                DecodeReady::Error => final(self).is_failed(),
                DecodeReady::Done => final(self).is_done(),
                DecodeReady::Pending => final(rx).remaining().len() == 0 && !final(rx).is_closed(),
            },
            final(rx).remaining().len() <= old(rx).remaining().len(),
            old(self).stream_consumed() + old(rx).remaining() == final(self).stream_consumed()
                + final(rx).remaining(),
            old(self).stream_consumed().len() <= final(self).stream_consumed().len(),
            final(self).stream_consumed().subrange(0, old(self).stream_consumed().len() as int)
                == old(self).stream_consumed(),
            final(self).delivered() == old(self).delivered(),
            final(self).fragments() == old(self).fragments(),
            final(self).message_kind() == old(self).message_kind(),
            r is MessageStart && old(self).is_waiting_start() ==> match head_parse(
                final(self).frame_taken(),
            ) {
                SpecHeadParse::Head(h, n) => n == final(self).frame_taken().len()
                    && !opcode_is_control(h.opcode) && !(h.opcode is Continuation),
                _ => false,
            },
            r is MessageData && old(self).phase_is_continuation() ==> match head_parse(
                final(self).frame_taken(),
            ) {
                SpecHeadParse::Head(h, n) => n == final(self).frame_taken().len()
                    && h.opcode is Continuation,
                _ => false,
            },
            (old(self).is_waiting_start() || old(self).phase_is_continuation()) && (r is Control
                || r is MessageStart || r is MessageData) ==> final(rx).remaining().len() < old(rx).remaining().len(),
            r is MessageStart ==> old(self).is_waiting_start() || old(self).is_message_start(),
            r is MessageEnd ==> old(self).is_message_end(),
            r is Pending ==> !final(self).is_failed() && final(self).error_of() is None,
            r is Done ==> old(self).is_done(),
            final(self).is_done() ==> old(self).is_done(),
            old(self).in_message() ==> final(self).in_message() || final(self).is_failed(),
            r is Error && !old(self).is_failed() ==> {
                &&& (old(self).is_waiting_start() || old(self).phase_is_continuation())
                &&& final(self).error_of() is Some
                &&& match final(self).error_of()->0 {
                    WsConnectionError::UnexpectedFrameKind(k) => final(rx).remaining().len() < old(rx).remaining().len() && (old(self).is_waiting_start() ==> k is Continuation)
                        && (old(self).phase_is_continuation() ==> k is Text || k is Binary)
                        && match head_parse(final(self).frame_taken()) {
                        SpecHeadParse::Head(h, n) => n == final(self).frame_taken().len()
                            && h.opcode == k.opcode_spec(),
                        _ => false,
                    },
                    WsConnectionError::FrameDecodeError(fe) => (fe is Io ==> final(rx).remaining().len() == 0 && final(rx).is_closed()) && (!(fe is Io) ==> final(rx).remaining().len() < old(rx).remaining().len()),
                    _ => false,
                }
            },
            old(self).is_reading() || old(self).is_message_start() || old(self).is_message_end()
                || old(self).is_control() || old(self).is_failed() || old(self).is_done() ==> *final(self) == *old(self),
    {
        let mut phase = DecodePhase::Done;
        core::mem::swap(&mut phase, &mut self.phase);
        match phase {
            DecodePhase::WaitingForMessageStart { mut frame_decoder } => {
                let ghost pre_c = frame_decoder.consumed();
                let fr = frame_decoder.poll(rx);
                self.stream = Ghost(
                    self.stream@ + frame_decoder.consumed().skip(pre_c.len() as int),
                );
                self.ft = Ghost(frame_decoder.consumed());
                proof {
                    assert(frame_decoder.consumed() =~= pre_c + frame_decoder.consumed().skip(
                        pre_c.len() as int,
                    ));
                    assert(frame_decoder.consumed() + rx.remaining() =~= pre_c + (
                    frame_decoder.consumed().skip(pre_c.len() as int) + rx.remaining()));
                    lemma_prefix_cancel(
                        pre_c,
                        old(rx).remaining(),
                        frame_decoder.consumed().skip(pre_c.len() as int) + rx.remaining(),
                    );
                    assert(self.stream@.skip((self.stream@.len() - self.ft@.len()) as int)
                        =~= self.ft@);
                    assert(self.stream@ + rx.remaining() =~= old(self).stream@ + old(
                        rx,
                    ).remaining());
                }
                match fr {
                    FramePoll::Frame(WsFrame::Control(frame)) => {
                        let k = frame.kind();
                        self.phase = DecodePhase::Control { frame, continue_message: None };
                        DecodeReady::Control(k)
                    },
                    FramePoll::Frame(WsFrame::Data(frame)) => {
                        match frame.kind().message_kind() {
                            Some(kind) => {
                                self.phase = DecodePhase::MessageStart {
                                    kind,
                                    first_frame_mask: frame.mask(),
                                    first_frame_payload_len: frame.payload_len(),
                                    fin: frame.fin(),
                                };
                                DecodeReady::MessageStart
                            },
                            None => {
                                self.phase = DecodePhase::Failed(
                                    WsConnectionError::UnexpectedFrameKind(frame.kind()),
                                );
                                DecodeReady::Error
                            },
                        }
                    },
                    FramePoll::Pending => {
                        self.phase = DecodePhase::WaitingForMessageStart { frame_decoder };
                        DecodeReady::Pending
                    },
                    FramePoll::Failed(e) => {
                        self.phase = DecodePhase::Failed(WsConnectionError::FrameDecodeError(e));
                        DecodeReady::Error
                    },
                }
            },
            DecodePhase::WaitingForMessageContinuation { mut frame_decoder, utf8 } => {
                let ghost pre_c = frame_decoder.consumed();
                let fr = frame_decoder.poll(rx);
                self.stream = Ghost(
                    self.stream@ + frame_decoder.consumed().skip(pre_c.len() as int),
                );
                self.ft = Ghost(frame_decoder.consumed());
                proof {
                    assert(frame_decoder.consumed() =~= pre_c + frame_decoder.consumed().skip(
                        pre_c.len() as int,
                    ));
                    assert(frame_decoder.consumed() + rx.remaining() =~= pre_c + (
                    frame_decoder.consumed().skip(pre_c.len() as int) + rx.remaining()));
                    lemma_prefix_cancel(
                        pre_c,
                        old(rx).remaining(),
                        frame_decoder.consumed().skip(pre_c.len() as int) + rx.remaining(),
                    );
                    assert(self.stream@.skip((self.stream@.len() - self.ft@.len()) as int)
                        =~= self.ft@);
                    assert(self.stream@ + rx.remaining() =~= old(self).stream@ + old(
                        rx,
                    ).remaining());
                }
                match fr {
                    FramePoll::Frame(WsFrame::Control(frame)) => {
                        let k = frame.kind();
                        self.phase = DecodePhase::Control {
                            frame,
                            continue_message: Some(utf8),
                        };
                        DecodeReady::Control(k)
                    },
                    FramePoll::Frame(WsFrame::Data(frame)) => {
                        match frame.kind().message_kind() {
                            None => {
                                let reader = frame.payload_reader();
                                self.cur = Ghost(Seq::empty());
                                self.phase = DecodePhase::ReadingDataFramePayload {
                                    payload: reader,
                                    fin: frame.fin(),
                                    utf8,
                                };
                                proof {
                                    assert(self.delivered@ =~= self.frags@.flatten()
                                        + self.cur@);
                                    assert(self.ft@.take(self.ft@.len() as int) =~= self.ft@);
                                    assert(self.cur@ =~= mask_seq(
                                        frame.mask@,
                                        0,
                                        self.ft@.skip(self.ft@.len() as int),
                                    ));
                                }
                                DecodeReady::MessageData
                            },
                            Some(_) => {
                                self.phase = DecodePhase::Failed(
                                    WsConnectionError::UnexpectedFrameKind(frame.kind()),
                                );
                                DecodeReady::Error
                            },
                        }
                    },
                    FramePoll::Pending => {
                        self.phase = DecodePhase::WaitingForMessageContinuation {
                            frame_decoder,
                            utf8,
                        };
                        DecodeReady::Pending
                    },
                    FramePoll::Failed(e) => {
                        self.phase = DecodePhase::Failed(WsConnectionError::FrameDecodeError(e));
                        DecodeReady::Error
                    },
                }
            },
            DecodePhase::ReadingDataFramePayload { payload, fin, utf8 } => {
                self.phase = DecodePhase::ReadingDataFramePayload { payload, fin, utf8 };
                DecodeReady::MessageData
            },
            DecodePhase::MessageStart { kind, first_frame_mask, first_frame_payload_len, fin } => {
                self.phase = DecodePhase::MessageStart {
                    kind,
                    first_frame_mask,
                    first_frame_payload_len,
                    fin,
                };
                DecodeReady::MessageStart
            },
            DecodePhase::MessageEnd => {
                self.phase = DecodePhase::MessageEnd;
                DecodeReady::MessageEnd
            },
            DecodePhase::Control { frame, continue_message } => {
                let k = frame.kind();
                self.phase = DecodePhase::Control { frame, continue_message };
                DecodeReady::Control(k)
            },
            DecodePhase::Failed(e) => {
                self.phase = DecodePhase::Failed(e);
                DecodeReady::Error
            },
            DecodePhase::Done => {
                self.phase = DecodePhase::Done;
                DecodeReady::Done
            },
        }
    }

    /// Begin reading the message announced by `MessageStart`; the returned
    /// kind is the message's.  The fragment log starts empty.
    pub fn take_message_start(&mut self) -> (r: Option<WsMessageKind>)
        requires
            old(self).wf(),
        ensures
            final(self).wf(),
            r is Some == old(self).is_message_start(),
            final(self).stream_consumed() == old(self).stream_consumed(),
            old(self).is_message_start() ==> {
                &&& final(self).is_reading()
                &&& final(self).message_kind() == r->0
                &&& final(self).delivered() == Seq::<u8>::empty()
                &&& final(self).fragments() == Seq::<Seq<u8>>::empty()
                &&& final(self).fragment_frames() == Seq::<Seq<u8>>::empty()
                &&& final(self).in_message()
                &&& final(self).frame_taken() == old(self).frame_taken()
                &&& match head_parse(old(self).frame_taken()) {
                    SpecHeadParse::Head(h, n) => n == old(self).frame_taken().len() && h.opcode
                        == (r->0).frame_kind_spec().opcode_spec(),
                    _ => false,
                }
            },
            !old(self).is_message_start() ==> *final(self) == *old(self),
    {
        let mut phase = DecodePhase::Done;
        core::mem::swap(&mut phase, &mut self.phase);
        match phase {
            DecodePhase::MessageStart { kind, first_frame_mask, first_frame_payload_len, fin } => {
                let reader = FramePayloadReaderState::new(
                    first_frame_mask,
                    first_frame_payload_len,
                );
                let utf8 = match kind {
                    WsMessageKind::Binary => None,
                    WsMessageKind::Text => Some(Utf8Validator::new()),
                };
                self.mkind = Ghost(kind);
                self.frags = Ghost(Seq::empty());
                self.fwire = Ghost(Seq::empty());
                self.cur = Ghost(Seq::empty());
                self.delivered = Ghost(Seq::empty());
                self.phase = DecodePhase::ReadingDataFramePayload { payload: reader, fin, utf8 };
                proof {
                    assert(self.frags@.flatten() =~= Seq::<u8>::empty());
                    assert(self.ft@.take(self.ft@.len() as int) =~= self.ft@);
                    assert(self.cur@ =~= mask_seq(
                        first_frame_mask@,
                        0,
                        self.ft@.skip(self.ft@.len() as int),
                    ));
                }
                Some(kind)
            },
            other => {
                self.phase = other;
                None
            },
        }
    }

    /// Acknowledge the end of the current message and return to waiting for
    /// the next one.  When this succeeds, all bytes handed out for the
    /// message were exactly the concatenation of its fragments' payloads,
    /// however it was fragmented; a text message's bytes are valid UTF-8.
    pub fn take_message_end(&mut self) -> (r: bool)
        requires
            old(self).wf(),
        ensures
            final(self).wf(),
            r == old(self).is_message_end(),
            final(self).stream_consumed() == old(self).stream_consumed(),
            final(self).delivered() == old(self).delivered(),
            final(self).fragments() == old(self).fragments(),
            final(self).message_kind() == old(self).message_kind(),
            r ==> {
                &&& final(self).is_waiting_start()
                &&& !final(self).in_message()
                &&& old(self).delivered() == old(self).fragments().flatten()
                &&& (old(self).message_kind() is Text ==> is_utf8(old(self).delivered()))
                &&& fragments_complete(old(self).fragment_frames(), old(self).fragments())
            },
            !r ==> *final(self) == *old(self),
    {
        let mut phase = DecodePhase::Done;
        core::mem::swap(&mut phase, &mut self.phase);
        match phase {
            DecodePhase::MessageEnd => {
                self.ft = Ghost(Seq::empty());
                self.phase = DecodePhase::WaitingForMessageStart {
                    frame_decoder: FrameDecoderState::new(),
                };
                proof {
                    assert(self.stream@.skip(self.stream@.len() as int) =~= self.ft@);
                }
                true
            },
            other => {
                self.phase = other;
                false
            },
        }
    }

    /// Hand out the control frame announced by `Control` and resume the
    /// stream where it was interrupted.
    pub fn take_control(&mut self) -> (r: Option<WsControlFrame>)
        requires
            old(self).wf(),
        ensures
            final(self).wf(),
            r is Some == old(self).is_control(),
            final(self).stream_consumed() == old(self).stream_consumed(),
            old(self).is_control() ==> old(self).frame_taken().len() <= old(self).stream_consumed().len()
                && old(self).stream_consumed().skip(
                (old(self).stream_consumed().len() - old(self).frame_taken().len()) as int,
            ) == old(self).frame_taken() && control_frame_bytes(
                r->0.kind,
                r->0.payload.view_bytes(),
                old(self).frame_taken(),
            ) && r->0.wf() && (final(self).is_waiting_start() || final(self).phase_is_continuation()) && final(self).in_message() == old(self).in_message()
                && final(self).message_kind() == old(self).message_kind() && final(self).delivered() == old(self).delivered() && final(self).fragments() == old(self).fragments(),
            !old(self).is_control() ==> *final(self) == *old(self),
    {
        let mut phase = DecodePhase::Done;
        core::mem::swap(&mut phase, &mut self.phase);
        match phase {
            DecodePhase::Control { frame, continue_message } => {
                self.ft = Ghost(Seq::empty());
                proof {
                    assert(self.stream@.skip(self.stream@.len() as int) =~= self.ft@);
                }
                match continue_message {
                    Some(utf8) => {
                        self.phase = DecodePhase::WaitingForMessageContinuation {
                            frame_decoder: FrameDecoderState::new(),
                            utf8,
                        };
                    },
                    None => {
                        self.phase = DecodePhase::WaitingForMessageStart {
                            frame_decoder: FrameDecoderState::new(),
                        };
                    },
                }
                Some(frame)
            },
            other => {
                self.phase = other;
                None
            },
        }
    }

    pub closed spec fn phase_is_continuation(self) -> bool {
        self.phase is WaitingForMessageContinuation
    }

    /// Read up to `max` unmasked message bytes.  The bytes handed out extend
    /// `delivered` in order; fragment boundaries move the stream on, and the
    /// final fragment's end is observable through `MessageEnd`.
    #[verifier::rlimit(60)]
    pub fn poll_read(&mut self, rx: &mut WireInput, max: usize) -> (r: DataPoll)
        requires
            old(self).wf(),
            old(rx).wf(),
        ensures
            final(self).wf(),
            final(rx).wf(),
            final(rx).is_closed() == old(rx).is_closed(),
            final(rx).remaining().len() <= old(rx).remaining().len(),
            old(self).stream_consumed() + old(rx).remaining() == final(self).stream_consumed()
                + final(rx).remaining(),
            old(self).stream_consumed().len() <= final(self).stream_consumed().len(),
            final(self).stream_consumed().subrange(0, old(self).stream_consumed().len() as int)
                == old(self).stream_consumed(),
            match r {
                DataPoll::Data(v) => {
                    &&& final(self).message_kind() == old(self).message_kind()
                    &&& v@.len() > 0 ==> final(rx).remaining().len() < old(rx).remaining().len()
                    &&& v@.len() == 0 && !final(self).is_failed() ==> final(self).delivered()
                        == old(self).delivered()
                    &&& old(self).is_reading() && v@.len() > 0 ==> {
                        &&& final(self).delivered() == old(self).delivered() + v@
                        &&& final(self).message_kind() == old(self).message_kind()
                        &&& (final(self).is_reading() || final(self).phase_is_continuation()
                            || final(self).is_message_end())
                    }
                    &&& old(self).is_reading() && !final(self).is_failed() && final(self).is_reading()
                        ==> data_frame_tied(final(self).frame_taken(), final(self).fragment_delivered())
                        && final(self).fragment_delivered() == old(self).fragment_delivered() + v@
                    &&& old(self).is_reading() && !final(self).is_failed() && (final(self).is_message_end()
                        || final(self).phase_is_continuation()) ==> fragments_complete(
                        final(self).fragment_frames(),
                        final(self).fragments(),
                    ) && final(self).fragments() == old(self).fragments().push(
                        old(self).fragment_delivered() + v@,
                    )
                    &&& v@.len() == 0 ==> *final(self) == *old(self) || final(self).is_failed()
                        || final(self).is_message_end() || final(self).phase_is_continuation()
                    &&& old(self).is_reading() && max > 0 && v@.len() == 0 ==> !final(self).is_reading()
                    &&& final(self).is_done() ==> old(self).is_done()
                    &&& !old(self).is_reading() ==> *final(self) == *old(self)
                    &&& old(self).is_reading() && v@.len() > 0 && old(self).message_kind() is Text
                        && !final(self).is_failed() ==> crate::utf8::is_utf8_prefix(
                        final(self).delivered(),
                    )
                    &&& !old(self).is_failed() && final(self).is_failed() ==> {
                        &&& final(self).error_of() is Some
                        &&& match final(self).error_of()->0 {
                            WsConnectionError::InvalidUtf8 => old(self).message_kind() is Text
                                && !crate::utf8::is_utf8_prefix(final(self).delivered())
                                && crate::utf8::is_utf8_prefix(old(self).delivered()),
                            WsConnectionError::IncompleteUtf8 => old(self).message_kind() is Text
                                && crate::utf8::is_utf8_prefix(final(self).delivered())
                                && !is_utf8(final(self).delivered()),
                            WsConnectionError::Io => final(rx).remaining().len() == 0 && final(rx).is_closed(),
                            _ => false,
                        }
                    }
                },
                DataPoll::Pending => *final(self) == *old(self) && final(rx).remaining().len()
                    == 0 && !final(rx).is_closed(),
            },
    {
        let mut phase = DecodePhase::Done;
        core::mem::swap(&mut phase, &mut self.phase);
        match phase {
            DecodePhase::ReadingDataFramePayload { mut payload, fin, utf8 } => {
                let ghost pre_rem = rx.remaining();
                let pr = payload.poll_read(rx, max);
                match pr {
                    PayloadRead::Data(v) => {
                        let ghost raw = pre_rem.subrange(0, v@.len() as int);
                        let ghost hn = self.ft@.len() - self.cur@.len();
                        if v.len() > 0 {
                            self.stream = Ghost(self.stream@ + raw);
                            self.ft = Ghost(self.ft@ + raw);
                            proof {
                                assert(pre_rem =~= raw + rx.remaining());
                                assert(self.stream@ + rx.remaining() =~= old(self).stream@
                                    + pre_rem);
                                assert(self.stream@.skip((self.stream@.len()
                                    - self.ft@.len()) as int) =~= self.ft@);
                                assert(self.ft@.take(hn as int) =~= old(self).ft@.take(hn as int));
                                assert(self.ft@.skip(hn as int) =~= old(self).ft@.skip(hn as int)
                                    + raw);
                                match head_parse(old(self).ft@.take(hn as int)) {
                                    SpecHeadParse::Head(h, n) => {
                                        crate::frame::lemma_mask_append(
                                            h.mask,
                                            0,
                                            old(self).ft@.skip(hn as int),
                                            raw,
                                        );
                                    },
                                    _ => {
                                        assert(false);
                                    },
                                }
                            }
                        }
                        let mut utf8 = utf8;
                        if v.len() > 0 {
                            utf8 = match utf8 {
                                Some(mut validator) => {
                                    proof {
                                        validator.lemma_fed_prefix();
                                    }
                                    let ok = validator.feed(&v);
                                    if !ok {
                                        self.cur = Ghost(self.cur@ + v@);
                                        self.delivered = Ghost(self.delivered@ + v@);
                                        self.phase = DecodePhase::Failed(
                                            WsConnectionError::InvalidUtf8,
                                        );
                                        return DataPoll::Data(Vec::new());
                                    }
                                    proof {
                                        validator.lemma_fed_prefix();
                                    }
                                    Some(validator)
                                },
                                None => None,
                            };
                            self.cur = Ghost(self.cur@ + v@);
                            self.delivered = Ghost(self.delivered@ + v@);
                            proof {
                                assert(self.cur@ =~= mask_seq(
                                    payload.mask_key(),
                                    0,
                                    self.ft@.skip(hn as int),
                                ));
                            }
                        }
                        proof {
                            assert(self.delivered@ =~= self.frags@.flatten() + self.cur@);
                        }
                        let frame_finished = payload.finished();
                        if frame_finished {
                            let ghost done_frag = self.cur@;
                            let ghost done_frame = self.ft@;
                            self.frags = Ghost(self.frags@.push(done_frag));
                            self.fwire = Ghost(self.fwire@.push(done_frame));
                            self.cur = Ghost(Seq::empty());
                            self.ft = Ghost(Seq::empty());
                            proof {
                                assert(self.stream@.skip(self.stream@.len() as int) =~= self.ft@);
                                crate::connection::lemma_flatten_push(
                                    old(self).frags@,
                                    done_frag,
                                );
                                assert(self.delivered@ =~= self.frags@.flatten());
                                assert(data_frame_complete(done_frame, done_frag));
                                assert forall|i: int|
                                    0 <= i < self.fwire@.len() implies data_frame_complete(
                                    #[trigger] self.fwire@[i],
                                    self.frags@[i],
                                ) by {
                                    if i < self.fwire@.len() - 1 {
                                        assert(self.fwire@[i] == old(self).fwire@[i]);
                                        assert(self.frags@[i] == old(self).frags@[i]);
                                    }
                                }
                            }
                            if fin {
                                let complete = match &utf8 {
                                    Some(validator) => {
                                        proof {
                                            validator.lemma_fed_prefix();
                                        }
                                        validator.is_complete()
                                    },
                                    None => true,
                                };
                                if !complete {
                                    self.phase = DecodePhase::Failed(
                                        WsConnectionError::IncompleteUtf8,
                                    );
                                    return DataPoll::Data(Vec::new());
                                }
                                self.phase = DecodePhase::MessageEnd;
                            } else {
                                self.phase = DecodePhase::WaitingForMessageContinuation {
                                    frame_decoder: FrameDecoderState::new(),
                                    utf8,
                                };
                            }
                        } else {
                            self.phase = DecodePhase::ReadingDataFramePayload {
                                payload,
                                fin,
                                utf8,
                            };
                        }
                        DataPoll::Data(v)
                    },
                    PayloadRead::Pending => {
                        self.phase = DecodePhase::ReadingDataFramePayload { payload, fin, utf8 };
                        DataPoll::Pending
                    },
                    PayloadRead::Eof => {
                        self.phase = DecodePhase::Failed(WsConnectionError::Io);
                        DataPoll::Data(Vec::new())
                    },
                }
            },
            other => {
                self.phase = other;
                DataPoll::Data(Vec::new())
            },
        }
    }
}

} // verus!
