use crate::frame::{
    frame_bytes, frames_wf, frames_wire, head_wf, lemma_frames_wire_push, lemma_mask_append,
    mask_is_zero, mask_seq, FrameHead, SpecFrame, SpecFrameHead, WsControlFrame,
    WsControlFrameKind, WsDataFrameKind, WsFrameKind,
};
use crate::message::WsMessageKind;
use vstd::prelude::*;

verus! {

/// Bytes of payload one staged frame can hold: a 1300-byte staging frame
/// minus the longest header this endpoint emits.
pub const MAX_FRAME_PAYLOAD: usize = 1292;

/// Relies on rand::thread_rng().next_u32 for fresh mask keys; nothing is
/// assumed of the value.
#[verifier::external_body]
fn random_u32() -> u32 {
    rand::RngCore::next_u32(&mut rand::thread_rng())
}

/// A fresh non-zero 4-byte mask key, from the process-global random source.
fn fresh_mask_key() -> (k: [u8; 4])
    ensures
        !mask_is_zero(k@),
{
    let mut r = random_u32();
    if r == 0 {
        // An all-zero key would mark the frame as unmasked on the wire.
        r = 1;
    }
    let k: [u8; 4] = [
        ((r >> 24) & 0xff) as u8,
        ((r >> 16) & 0xff) as u8,
        ((r >> 8) & 0xff) as u8,
        (r & 0xff) as u8,
    ];
    proof {
        assert(!(((r >> 24) & 0xff) as u8 == 0 && ((r >> 16) & 0xff) as u8 == 0 && ((r >> 8)
            & 0xff) as u8 == 0 && (r & 0xff) as u8 == 0)) by (bit_vector)
            requires
                r != 0,
        ;
    }
    k
}

/// One outgoing frame being staged: its payload is masked as it is copied
/// in; the header is chosen when the frame is finalized.
pub struct FrameInProgress {
    kind: WsFrameKind,
    mask: [u8; 4],
    payload_buf: Vec<u8>,
    raw: Ghost<Seq<u8>>,
    fin_flag: Option<bool>,
}

impl FrameInProgress {
    /// The unmasked payload staged so far.
    pub closed spec fn raw_payload(self) -> Seq<u8> {
        self.raw@
    }

    pub closed spec fn frame_kind(self) -> WsFrameKind {
        self.kind
    }

    /// `Some(fin)` once the frame is finalized and awaiting emission.
    pub closed spec fn finalized(self) -> Option<bool> {
        self.fin_flag
    }

    pub closed spec fn mask_key(self) -> Seq<u8> {
        self.mask@
    }

    pub closed spec fn wf(self) -> bool {
        &&& self.payload_buf@ == mask_seq(self.mask@, 0, self.raw@)
        &&& self.raw@.len() == self.payload_buf@.len()
        &&& self.payload_buf@.len() <= MAX_FRAME_PAYLOAD
        &&& self.kind is Control ==> self.fin_flag == Some(true) && self.raw@.len() <= 125
    }

    /// The header this frame will carry if finalized with `fin`.
    pub open spec fn head_for(self, fin: bool) -> SpecFrameHead {
        SpecFrameHead {
            fin,
            opcode: match self.frame_kind() {
                WsFrameKind::Control(k) => k.opcode_spec(),
                WsFrameKind::Data(k) => k.opcode_spec(),
            },
            mask: self.mask_key(),
            payload_len: self.raw_payload().len() as u64,
        }
    }

    fn new(kind: WsFrameKind, mask: bool) -> (r: FrameInProgress)
        requires
            kind is Data,
        ensures
            r.wf(),
            r.frame_kind() == kind,
            r.raw_payload() == Seq::<u8>::empty(),
            r.finalized() is None,
            mask == !mask_is_zero(r.mask_key()),
    {
        let key: [u8; 4] = if mask {
            fresh_mask_key()
        } else {
            [0u8, 0u8, 0u8, 0u8]
        };
        let r = FrameInProgress {
            kind,
            mask: key,
            payload_buf: Vec::new(),
            raw: Ghost(Seq::empty()),
            fin_flag: None,
        };
        proof {
            assert(r.payload_buf@ =~= mask_seq(r.mask@, 0, r.raw@));
        }
        r
    }

    fn new_control(control: &WsControlFrame, mask: bool) -> (r: FrameInProgress)
        requires
            control.wf(),
        ensures
            r.wf(),
            r.frame_kind() == WsFrameKind::Control(control.kind),
            r.raw_payload() == control.payload.view_bytes(),
            r.finalized() == Some(true),
            mask == !mask_is_zero(r.mask_key()),
    {
        let key: [u8; 4] = if mask {
            fresh_mask_key()
        } else {
            [0u8, 0u8, 0u8, 0u8]
        };
        let mut buf: Vec<u8> = Vec::new();
        buf.extend_from_slice(control.payload().as_slice());
        proof {
            assert(buf@ =~= control.payload.view_bytes());
        }
        let ghost raw = buf@;
        crate::frame::payload_mask(key, 0, &mut buf);
        FrameInProgress {
            kind: WsFrameKind::Control(control.kind),
            mask: key,
            payload_buf: buf,
            raw: Ghost(raw),
            fin_flag: Some(true),
        }
    }

    /// Copy bytes of `buf` starting at `offset` into the staging buffer,
    /// masking them on the way; a frame that fills up is finalized with
    /// fin=0.  Returns how many bytes were taken.
    fn append_data(&mut self, buf: &Vec<u8>, offset: usize) -> (n: usize)
        requires
            old(self).wf(),
            old(self).finalized() is None,
            offset < buf@.len(),
        ensures
            final(self).wf(),
            final(self).frame_kind() == old(self).frame_kind(),
            final(self).mask_key() == old(self).mask_key(),
            n == if buf@.len() - offset <= MAX_FRAME_PAYLOAD - old(self).raw_payload().len() {
                buf@.len() - offset
            } else {
                MAX_FRAME_PAYLOAD - old(self).raw_payload().len()
            },
            final(self).raw_payload() == old(self).raw_payload() + buf@.subrange(
                offset as int,
                offset + n,
            ),
            final(self).finalized() == if offset + n < buf@.len() {
                Some(false)
            } else {
                None::<bool>
            },
    {
        let space = MAX_FRAME_PAYLOAD - self.payload_buf.len();
        let blen = buf.len();
        let want = blen - offset;
        let n = if want <= space {
            want
        } else {
            space
        };
        let mut chunk: Vec<u8> = Vec::new();
        let mut i: usize = 0;
        while i < n
            invariant
                i <= n,
                offset + n <= blen,
                blen == buf@.len(),
                chunk@ == buf@.subrange(offset as int, offset + i),
            decreases n - i,
        {
            chunk.push(buf[offset + i]);
            i += 1;
            proof {
                assert(chunk@ =~= buf@.subrange(offset as int, offset + i));
            }
        }
        let cur = self.payload_buf.len();
        crate::frame::payload_mask(self.mask, cur, &mut chunk);
        self.payload_buf.extend_from_slice(chunk.as_slice());
        proof {
            lemma_mask_append(
                self.mask@,
                0,
                old(self).raw_payload(),
                buf@.subrange(offset as int, offset + n as int),
            );
        }
        self.raw = Ghost(self.raw@ + buf@.subrange(offset as int, offset + n as int));
        proof {
            assert(self.payload_buf@ =~= mask_seq(self.mask@, 0, self.raw@));
        }
        if offset + n < buf.len() {
            self.fin_flag = Some(false);
        }
        n
    }

    /// Decide the frame's fin bit; it is then ready for emission.
    fn finalize(&mut self, fin: bool)
        requires
            old(self).wf(),
            old(self).finalized() is None,
        ensures
            final(self).wf(),
            final(self).frame_kind() == old(self).frame_kind(),
            final(self).mask_key() == old(self).mask_key(),
            final(self).raw_payload() == old(self).raw_payload(),
            final(self).finalized() == Some(fin),
    {
        self.fin_flag = Some(fin);
    }

    /// Emit the finalized frame: header then masked payload, appended to
    /// `tx` in one piece.
    fn emit(&self, tx: &mut Vec<u8>) -> (f: Ghost<SpecFrame>)
        requires
            self.wf(),
            self.finalized() is Some,
        ensures
            f@ == (SpecFrame {
                head: self.head_for(self.finalized()->0),
                payload: self.raw_payload(),
            }),
            final(tx)@ == old(tx)@ + frame_bytes(f@.head, f@.payload),
            head_wf(f@.head),
            f@.head.payload_len == f@.payload.len(),
    {
        let fin = match self.fin_flag {
            Some(f) => f,
            None => false,
        };
        let opcode = match self.kind {
            WsFrameKind::Control(k) => k.opcode(),
            WsFrameKind::Data(k) => k.opcode(),
        };
        let head = FrameHead {
            fin,
            opcode,
            mask: self.mask,
            payload_len: self.payload_buf.len() as u64,
        };
        let hb = head.encode();
        tx.extend_from_slice(hb.as_slice());
        tx.extend_from_slice(self.payload_buf.as_slice());
        proof {
            assert(head@ == self.head_for(fin));
            assert(tx@ =~= old(tx)@ + frame_bytes(head@, self.raw@));
            assert(head_wf(head@));
        }
        Ghost(SpecFrame { head: self.head_for(fin), payload: self.raw@ })
    }
}

/// Every control frame of `delta` is the one that was queued as `model`,
/// and there is at most one.
pub open spec fn delta_controls_ok(
    model: Option<(WsControlFrameKind, Seq<u8>)>,
    delta: Seq<SpecFrame>,
) -> bool {
    &&& (forall|i: int|
        0 <= i < delta.len() && crate::frame::opcode_is_control(
            #[trigger] delta[i].head.opcode,
        ) ==> model is Some && delta[i].head.opcode == (model->0).0.opcode_spec()
            && delta[i].payload == (model->0).1)
    &&& (forall|i: int, j: int|
        0 <= i < delta.len() && 0 <= j < delta.len() && crate::frame::opcode_is_control(
            #[trigger] delta[i].head.opcode,
        ) && crate::frame::opcode_is_control(#[trigger] delta[j].head.opcode) ==> i == j)
}

/// The message bytes a frame sequence carries: the payloads of its data
/// frames, in order; control frames carry none.
pub open spec fn data_payloads(fs: Seq<SpecFrame>) -> Seq<u8>
    decreases fs.len(),
{
    if fs.len() == 0 {
        Seq::empty()
    } else {
        (if crate::frame::opcode_is_control(fs[0].head.opcode) {
            Seq::empty()
        } else {
            fs[0].payload
        }) + data_payloads(fs.skip(1))
    }
}

/// Appending a frame appends its data payload, if it has one.
pub proof fn lemma_data_payloads_push(fs: Seq<SpecFrame>, f: SpecFrame)
    ensures
        data_payloads(fs.push(f)) == data_payloads(fs) + (if crate::frame::opcode_is_control(
            f.head.opcode,
        ) {
            Seq::<u8>::empty()
        } else {
            f.payload
        }),
    decreases fs.len(),
{
    if fs.len() == 0 {
        assert(fs.push(f).skip(1) =~= Seq::<SpecFrame>::empty());
        assert(fs.push(f)[0] == f);
        assert(data_payloads(fs.push(f).skip(1)) =~= Seq::<u8>::empty());
        assert(data_payloads(fs) =~= Seq::<u8>::empty());
        assert(data_payloads(fs.push(f)) =~= data_payloads(fs) + (
        if crate::frame::opcode_is_control(f.head.opcode) {
            Seq::<u8>::empty()
        } else {
            f.payload
        }));
    } else {
        assert(fs.push(f).skip(1) =~= fs.skip(1).push(f));
        assert(fs.push(f)[0] == fs[0]);
        lemma_data_payloads_push(fs.skip(1), f);
        assert(data_payloads(fs.push(f)) =~= data_payloads(fs) + (
        if crate::frame::opcode_is_control(f.head.opcode) {
            Seq::<u8>::empty()
        } else {
            f.payload
        }));
    }
}

/// Some frame of the sequence is a Close frame.
pub open spec fn has_close(fs: Seq<SpecFrame>) -> bool {
    exists|i: int| 0 <= i < fs.len() && (#[trigger] fs[i].head.opcode) is Close
}

/// In the client role every frame carries a real mask key; in the server
/// role none does.
pub open spec fn frames_masked(fs: Seq<SpecFrame>, client: bool) -> bool {
    forall|i: int|
        0 <= i < fs.len() ==> client == !mask_is_zero(#[trigger] fs[i].head.mask)
}

proof fn lemma_has_close_push(fs: Seq<SpecFrame>, f: SpecFrame)
    ensures
        has_close(fs) ==> has_close(fs.push(f)),
        f.head.opcode is Close ==> has_close(fs.push(f)),
{
    if has_close(fs) {
        let i = choose|i: int| 0 <= i < fs.len() && (#[trigger] fs[i].head.opcode) is Close;
        assert(fs.push(f)[i] == fs[i]);
        assert((fs.push(f)[i].head.opcode) is Close);
    }
    if f.head.opcode is Close {
        assert(fs.push(f)[fs.len() as int] == f);
        assert((fs.push(f)[fs.len() as int].head.opcode) is Close);
    }
}

/// Some frame of `delta` is a control frame.
pub open spec fn has_control(delta: Seq<SpecFrame>) -> bool {
    exists|i: int|
        0 <= i < delta.len() && crate::frame::opcode_is_control(#[trigger] delta[i].head.opcode)
}

/// What the encoder reports after a poll.
#[derive(Clone, Copy, Debug, PartialEq, Eq, Structural)]
pub enum EncodeReady {
    /// A data frame is buffering and can take more bytes.
    Buffering,
    /// Everything staged was emitted and flushed; a message is still open.
    FlushedFrames,
    /// Everything was emitted and flushed and no message is open.
    FlushedMessages,
    /// All bytes were handed to `tx`; the transport must now be flushed and
    /// `confirm_flush` called.
    Flushing,
    /// A write error was reported.
    Error,
    /// The Close frame was sent and flushed; the send side is finished.
    Done,
}

enum SendPhase {
    Sending {
        frame_in_progress: Option<FrameInProgress>,
        next_data_frame_kind: Option<WsDataFrameKind>,
        queued_control: Option<WsControlFrame>,
        flushed: Option<bool>,
        closing: bool,
    },
    Failed,
    Done,
}

/// The outgoing half of a connection: stages at most one frame, holds at
/// most one queued control frame, and emits every frame into the outgoing
/// byte queue in one piece.
pub struct EncodeState {
    st: SendPhase,
    emitted: Ghost<Seq<SpecFrame>>,
    msg_sent: Ghost<Seq<u8>>,
    fin_sent: Ghost<bool>,
    first_sent: Ghost<bool>,
    mk: Ghost<WsDataFrameKind>,
    role: Ghost<bool>,
}

impl EncodeState {
    /// Every frame emitted so far, in order.  The bytes handed to `tx` are
    /// exactly `frames_wire` of this log: whole frames, one after another,
    /// so no control frame's bytes ever stand inside another frame.
    pub closed spec fn emitted(self) -> Seq<SpecFrame> {
        self.emitted@
    }

    pub closed spec fn is_sending(self) -> bool {
        self.st is Sending
    }

    pub closed spec fn is_failed(self) -> bool {
        self.st is Failed
    }

    pub closed spec fn is_done(self) -> bool {
        self.st is Done
    }

    pub closed spec fn closing(self) -> bool {
        match self.st {
            SendPhase::Sending { closing, .. } => closing,
            SendPhase::Failed => false,
            SendPhase::Done => true,
        }
    }

    /// A message has been started and not yet ended.
    pub closed spec fn message_in_progress(self) -> bool {
        match self.st {
            SendPhase::Sending { next_data_frame_kind, .. } => next_data_frame_kind is Some,
            _ => false,
        }
    }

    /// A new message may be started.
    pub closed spec fn can_start_message(self) -> bool {
        match self.st {
            SendPhase::Sending { frame_in_progress, next_data_frame_kind, closing, .. } => {
                frame_in_progress is None && next_data_frame_kind is None && !closing
            },
            _ => false,
        }
    }

    /// Data may be appended: a message is open and any staged frame is
    /// still buffering.
    pub closed spec fn can_append(self) -> bool {
        match self.st {
            SendPhase::Sending { frame_in_progress, next_data_frame_kind, closing, .. } => {
                &&& next_data_frame_kind is Some
                &&& !closing
                &&& match frame_in_progress {
                    Some(f) => f.finalized() is None,
                    None => true,
                }
            },
            _ => false,
        }
    }

    pub closed spec fn a_control_is_queued(self) -> bool {
        match self.st {
            SendPhase::Sending { queued_control, .. } => queued_control is Some,
            _ => false,
        }
    }

    /// The sending, failed and done phases exclude one another.
    pub proof fn lemma_phases_exclusive(self)
        ensures
            !(self.is_sending() && self.is_done()),
            !(self.is_sending() && self.is_failed()),
            !(self.is_done() && self.is_failed()),
            self.is_done() ==> !self.message_in_progress(),
            self.is_failed() ==> !self.message_in_progress(),
    {
    }

    /// A flush has been requested and not yet confirmed complete.
    pub closed spec fn flush_requested(self) -> bool {
        match self.st {
            SendPhase::Sending { flushed, .. } => flushed is Some,
            _ => true,
        }
    }

    /// A flush was requested and its completion has not been confirmed.
    pub closed spec fn flush_pending(self) -> bool {
        match self.st {
            SendPhase::Sending { flushed, .. } => flushed == Some(false),
            _ => false,
        }
    }

    /// Everything emitted so far has been confirmed flushed.
    pub closed spec fn flush_done(self) -> bool {
        match self.st {
            SendPhase::Sending { flushed, .. } => flushed == Some(true),
            _ => false,
        }
    }

    /// A data frame carrying fin=1 is staged for emission: the message's
    /// final frame is on its way out.
    pub closed spec fn staged_fin(self) -> bool {
        match self.st {
            SendPhase::Sending { frame_in_progress, .. } => match frame_in_progress {
                Some(f) => f.frame_kind() is Data && f.finalized() == Some(true),
                None => false,
            },
            _ => false,
        }
    }

    /// A data frame carrying fin=1 has been emitted for the current
    /// message: the message is finished on the wire.
    pub closed spec fn msg_finned(self) -> bool {
        self.fin_sent@
    }

    /// The current message's opening data frame has been emitted: every
    /// further data frame of the message is a Continuation.
    pub closed spec fn first_emitted(self) -> bool {
        self.first_sent@
    }

    /// The data-frame kind the current message was started with.
    pub closed spec fn started_kind(self) -> WsDataFrameKind {
        self.mk@
    }

    /// Whether this encoder masks its frames: true for the client role.
    pub closed spec fn role(self) -> bool {
        self.role@
    }

    /// A control frame is staged for emission.
    pub closed spec fn staged_control(self) -> bool {
        match self.st {
            SendPhase::Sending { frame_in_progress: Some(f), .. } => f.frame_kind() is Control,
            _ => false,
        }
    }

    /// The staged control frame is the queued one.
    pub closed spec fn staged_control_matches(self, m: (WsControlFrameKind, Seq<u8>)) -> bool {
        match self.st {
            SendPhase::Sending { frame_in_progress: Some(f), .. } => f.frame_kind()
                == WsFrameKind::Control(m.0) && f.raw_payload() == m.1 && f.finalized() == Some(
                true,
            ),
            _ => false,
        }
    }

    /// The send side is on its way out: a Close is queued, sent, or the
    /// encoder is finished.
    pub fn send_closing(&self) -> (r: bool)
        ensures
            r == (self.queued_close() || self.closing() || self.is_done() || self.is_failed()),
    {
        match &self.st {
            SendPhase::Sending { queued_control, closing, .. } => {
                *closing || match queued_control {
                    Some(c) => matches!(c.kind, WsControlFrameKind::Close),
                    None => false,
                }
            },
            SendPhase::Failed => true,
            SendPhase::Done => true,
        }
    }

    /// The kind and body of the queued control frame, if any.
    pub closed spec fn queued_model(self) -> Option<(WsControlFrameKind, Seq<u8>)> {
        match self.st {
            SendPhase::Sending { queued_control, .. } => match queued_control {
                Some(c) => Some((c.kind, c.payload.view_bytes())),
                None => None,
            },
            _ => None,
        }
    }

    pub closed spec fn queued_close(self) -> bool {
        match self.st {
            SendPhase::Sending { queued_control, .. } => match queued_control {
                Some(c) => c.kind is Close,
                None => false,
            },
            _ => false,
        }
    }

    /// Holds also mid-poll, while a control frame is staged.
    spec fn wf_mid(self) -> bool {
        &&& frames_wf(self.emitted@)
        &&& (self.st is Done ==> has_close(self.emitted@))
        &&& frames_masked(self.emitted@, self.role@)
        &&& (match self.st {
            SendPhase::Sending { frame_in_progress, .. } => match frame_in_progress {
                Some(f) => self.role@ == !mask_is_zero(f.mask_key()),
                None => true,
            },
            _ => true,
        })
        &&& match self.st {
            SendPhase::Sending {
                frame_in_progress,
                next_data_frame_kind,
                queued_control,
                flushed,
                closing,
            } => {
                &&& (flushed is None ==> next_data_frame_kind is Some)
                &&& (closing ==> flushed is Some)
                &&& (closing ==> has_close(self.emitted@) || (match frame_in_progress {
                    Some(f) => f.frame_kind() == WsFrameKind::Control(WsControlFrameKind::Close),
                    None => false,
                }))
                &&& match frame_in_progress {
                    Some(f) => f.wf() && (f.finalized() != Some(true)
                        ==> next_data_frame_kind is Some),
                    None => true,
                }
                &&& (next_data_frame_kind is None ==> (match frame_in_progress {
                    Some(f) => f.frame_kind() is Data && f.finalized() == Some(true),
                    None => false,
                }) || self.msg_sent@.len() == 0 || self.fin_sent@)
                &&& (match frame_in_progress {
                    Some(f) => f.frame_kind() is Data ==> ((f.frame_kind() == WsFrameKind::Data(
                        WsDataFrameKind::Continuation,
                    )) == self.first_sent@),
                    None => true,
                })
                &&& (match next_data_frame_kind {
                    Some(k) => !(k is Continuation) ==> !self.first_sent@ && k == self.mk@ && (
                    match frame_in_progress {
                        Some(f) => f.frame_kind() is Control,
                        None => true,
                    }),
                    None => true,
                })
                &&& (match frame_in_progress {
                    Some(f) => match f.frame_kind() {
                        WsFrameKind::Data(k) => !(k is Continuation) ==> k == self.mk@,
                        WsFrameKind::Control(_) => true,
                    },
                    None => true,
                })
                &&& (next_data_frame_kind == Some(WsDataFrameKind::Continuation)
                    ==> self.first_sent@ || (match frame_in_progress {
                    Some(f) => f.frame_kind() is Data,
                    None => false,
                }))
                &&& match queued_control {
                    Some(c) => c.wf(),
                    None => true,
                }
            },
            _ => true,
        }
    }

    /// Between public calls the staged frame, if any, is a data frame.
    pub closed spec fn wf(self) -> bool {
        self.wf_mid() && !self.staged_control()
    }

    pub fn new(mask: bool) -> (r: EncodeState)
        ensures
            r.wf(),
            r.is_sending(),
            r.emitted() == Seq::<SpecFrame>::empty(),
            !r.message_in_progress(),
            r.can_start_message(),
            r.staged_frame_open(),
            !r.closing(),
            r.role() == mask,
    {
        EncodeState {
            st: SendPhase::Sending {
                frame_in_progress: None,
                next_data_frame_kind: None,
                queued_control: None,
                flushed: Some(true),
                closing: false,
            },
            emitted: Ghost(Seq::empty()),
            msg_sent: Ghost(Seq::empty()),
            fin_sent: Ghost(false),
            first_sent: Ghost(false),
            mk: Ghost(WsDataFrameKind::Binary),
            role: Ghost(mask),
        }
    }

    /// Open a new message of the given kind.
    pub fn start_message(&mut self, kind: WsMessageKind)
        requires
            old(self).wf(),
            old(self).can_start_message(),
        ensures
            final(self).wf(),
            final(self).is_sending(),
            final(self).message_in_progress(),
            !final(self).closing(),
            final(self).emitted() == old(self).emitted(),
            final(self).message_written() == Seq::<u8>::empty(),
            final(self).role() == old(self).role(),
            !final(self).msg_finned(),
            final(self).started_kind() == kind.frame_kind_spec(),
            !final(self).flush_requested(),
    {
        self.msg_sent = Ghost(Seq::empty());
        self.fin_sent = Ghost(false);
        self.first_sent = Ghost(false);
        self.mk = Ghost(kind.frame_kind_spec());
        let mut st = SendPhase::Failed;
        core::mem::swap(&mut st, &mut self.st);
        match st {
            SendPhase::Sending { frame_in_progress, queued_control, closing, .. } => {
                self.st = SendPhase::Sending {
                    frame_in_progress,
                    next_data_frame_kind: Some(kind.frame_kind()),
                    queued_control,
                    flushed: None,
                    closing,
                };
                proof {
                    assert(self.message_written() =~= Seq::<u8>::empty());
                }
            },
            _ => {
                proof {
                    assert(false);
                }
            },
        }
    }

    /// Any staged frame can still take the fin bit.
    pub closed spec fn staged_frame_open(self) -> bool {
        match self.st {
            SendPhase::Sending { frame_in_progress, .. } => match frame_in_progress {
                Some(f) => f.finalized() is None,
                None => true,
            },
            _ => true,
        }
    }

    /// Finalize the open message with fin=1 (an empty frame if none is
    /// staged) and request a flush.  Without an open message this does
    /// nothing.
    pub fn end_message(&mut self, mask: bool)
        requires
            old(self).wf(),
            old(self).staged_frame_open(),
            mask == old(self).role(),
        ensures
            final(self).wf(),
            final(self).emitted() == old(self).emitted(),
            final(self).is_sending() == old(self).is_sending(),
            final(self).is_done() == old(self).is_done(),
            final(self).is_failed() == old(self).is_failed(),
            final(self).closing() == old(self).closing(),
            !final(self).message_in_progress(),
            final(self).a_control_is_queued() == old(self).a_control_is_queued(),
            final(self).queued_close() == old(self).queued_close(),
            old(self).is_sending() && old(self).message_in_progress() ==> final(self).flush_requested(),
            old(self).is_sending() && old(self).message_in_progress() ==> final(self).staged_fin(),
            final(self).message_written() == old(self).message_written(),
            final(self).role() == old(self).role(),
    {
        let mut st = SendPhase::Failed;
        core::mem::swap(&mut st, &mut self.st);
        match st {
            SendPhase::Sending {
                frame_in_progress,
                next_data_frame_kind,
                queued_control,
                flushed,
                closing,
            } => {
                let mut frame_in_progress = frame_in_progress;
                let mut flushed = flushed;
                if let Some(kind) = next_data_frame_kind {
                    match frame_in_progress {
                        Some(mut frame) => {
                            frame.finalize(true);
                            frame_in_progress = Some(frame);
                        },
                        None => {
                            let mut frame = FrameInProgress::new(WsFrameKind::Data(kind), mask);
                            frame.finalize(true);
                            frame_in_progress = Some(frame);
                        },
                    }
                    if flushed.is_none() {
                        flushed = Some(false);
                    }
                }
                self.st = SendPhase::Sending {
                    frame_in_progress,
                    next_data_frame_kind: None,
                    queued_control,
                    flushed,
                    closing,
                };
            },
            other => {
                self.st = other;
            },
        }
    }

    /// Store a control frame for emission at the next frame boundary; a
    /// queued Close is never displaced.
    pub fn queue_control(&mut self, control: WsControlFrame)
        requires
            old(self).wf(),
            control.wf(),
        ensures
            final(self).wf(),
            final(self).emitted() == old(self).emitted(),
            final(self).is_sending() == old(self).is_sending(),
            final(self).is_done() == old(self).is_done(),
            final(self).is_failed() == old(self).is_failed(),
            final(self).closing() == old(self).closing(),
            final(self).message_in_progress() == old(self).message_in_progress(),
            final(self).can_start_message() == old(self).can_start_message(),
            final(self).staged_frame_open() == old(self).staged_frame_open(),
            old(self).is_sending() && !old(self).queued_close() ==> final(self).a_control_is_queued() && final(self).queued_close() == (control.kind is Close)
                && final(self).queued_model() == Some((control.kind, control.payload.view_bytes())),
            old(self).queued_close() ==> final(self).queued_model() == old(self).queued_model(),
            final(self).message_written() == old(self).message_written(),
            final(self).role() == old(self).role(),
    {
        let mut st = SendPhase::Failed;
        core::mem::swap(&mut st, &mut self.st);
        match st {
            SendPhase::Sending {
                frame_in_progress,
                next_data_frame_kind,
                queued_control,
                flushed,
                closing,
            } => {
                let keep = match &queued_control {
                    Some(queued) => matches!(queued.kind, WsControlFrameKind::Close),
                    None => false,
                };
                let queued_control = if keep {
                    queued_control
                } else {
                    Some(control)
                };
                self.st = SendPhase::Sending {
                    frame_in_progress,
                    next_data_frame_kind,
                    queued_control,
                    flushed,
                    closing,
                };
            },
            other => {
                self.st = other;
            },
        }
    }

    /// Ask for the staged bytes to be flushed once buffering ends.
    pub fn start_flushing(&mut self)
        requires
            old(self).wf(),
        ensures
            final(self).wf(),
            final(self).emitted() == old(self).emitted(),
            final(self).is_sending() == old(self).is_sending(),
            final(self).is_done() == old(self).is_done(),
            final(self).is_failed() == old(self).is_failed(),
            final(self).closing() == old(self).closing(),
            final(self).message_in_progress() == old(self).message_in_progress(),
            final(self).staged_frame_open() == old(self).staged_frame_open(),
            final(self).flush_requested(),
            final(self).message_written() == old(self).message_written(),
            final(self).role() == old(self).role(),
    {
        let mut st = SendPhase::Failed;
        core::mem::swap(&mut st, &mut self.st);
        match st {
            SendPhase::Sending {
                frame_in_progress,
                next_data_frame_kind,
                queued_control,
                flushed,
                closing,
            } => {
                let flushed = match flushed {
                    None => Some(false),
                    other => other,
                };
                self.st = SendPhase::Sending {
                    frame_in_progress,
                    next_data_frame_kind,
                    queued_control,
                    flushed,
                    closing,
                };
            },
            other => {
                self.st = other;
            },
        }
    }

    /// The application reports that the transport flush completed.
    pub fn confirm_flush(&mut self)
        requires
            old(self).wf(),
        ensures
            final(self).wf(),
            final(self).emitted() == old(self).emitted(),
            final(self).is_sending() == old(self).is_sending(),
            final(self).is_done() == old(self).is_done(),
            final(self).is_failed() == old(self).is_failed(),
            final(self).closing() == old(self).closing(),
            final(self).message_in_progress() == old(self).message_in_progress(),
            final(self).staged_frame_open() == old(self).staged_frame_open(),
            final(self).message_written() == old(self).message_written(),
            old(self).flush_pending() ==> final(self).flush_done(),
            !old(self).flush_pending() ==> final(self).flush_pending() == old(self).flush_pending()
                && final(self).flush_done() == old(self).flush_done(),
            final(self).role() == old(self).role(),
    {
        let mut st = SendPhase::Failed;
        core::mem::swap(&mut st, &mut self.st);
        match st {
            SendPhase::Sending {
                frame_in_progress,
                next_data_frame_kind,
                queued_control,
                flushed,
                closing,
            } => {
                let flushed = match flushed {
                    Some(false) => Some(true),
                    other => other,
                };
                self.st = SendPhase::Sending {
                    frame_in_progress,
                    next_data_frame_kind,
                    queued_control,
                    flushed,
                    closing,
                };
            },
            other => {
                self.st = other;
            },
        }
    }

    /// The application reports a transport write error; the send side is
    /// finished.
    pub fn set_failed(&mut self)
        ensures
            final(self).is_failed(),
            final(self).emitted() == old(self).emitted(),
            old(self).wf() ==> final(self).wf(),
            final(self).role() == old(self).role(),
    {
        self.st = SendPhase::Failed;
    }

    /// Append message bytes from `buf` starting at `offset`; returns how
    /// many were taken.  A frame that fills up is finalized with fin=0 and
    /// emitted on the next poll.
    pub fn append_data(&mut self, buf: &Vec<u8>, offset: usize, mask: bool) -> (n: usize)
        requires
            old(self).wf(),
            old(self).can_append(),
            offset < buf@.len(),
            mask == old(self).role(),
        ensures
            final(self).wf(),
            final(self).emitted() == old(self).emitted(),
            final(self).is_sending(),
            final(self).message_in_progress(),
            !final(self).closing(),
            n <= buf@.len() - offset,
            n == if buf@.len() - offset <= MAX_FRAME_PAYLOAD - old(self).message_bytes().len() {
                buf@.len() - offset
            } else {
                MAX_FRAME_PAYLOAD - old(self).message_bytes().len()
            },
            offset + n == buf@.len() || !final(self).staged_frame_open(),
            offset + n == buf@.len() ==> final(self).staged_frame_open(),
            final(self).role() == old(self).role(),
            final(self).message_bytes() == old(self).message_bytes() + buf@.subrange(
                offset as int,
                offset + n,
            ),
            final(self).message_written() == old(self).message_written() + buf@.subrange(
                offset as int,
                offset + n,
            ),
    {
        let mut st = SendPhase::Failed;
        core::mem::swap(&mut st, &mut self.st);
        match st {
            SendPhase::Sending {
                frame_in_progress,
                next_data_frame_kind,
                queued_control,
                flushed,
                closing,
            } => {
                let kind = match next_data_frame_kind {
                    Some(k) => k,
                    None => WsDataFrameKind::Continuation,
                };
                let mut frame = match frame_in_progress {
                    Some(f) => f,
                    None => FrameInProgress::new(WsFrameKind::Data(kind), mask),
                };
                let n = frame.append_data(buf, offset);
                self.st = SendPhase::Sending {
                    frame_in_progress: Some(frame),
                    next_data_frame_kind: Some(WsDataFrameKind::Continuation),
                    queued_control,
                    flushed: None,
                    closing,
                };
                proof {
                    assert(self.message_written() =~= old(self).message_written() + buf@.subrange(
                        offset as int,
                        offset + n,
                    ));
                }
                n
            },
            _ => {
                proof {
                    assert(false);
                }
                0
            },
        }
    }

    /// Drive the encoder: emit any finalized frame, cut the staged frame at
    /// a boundary when a control frame or flush waits, emit queued control
    /// frames, and report the state reached.
    #[verifier::rlimit(80)]
    pub fn poll(&mut self, tx: &mut Vec<u8>, mask: bool) -> (r: EncodeReady)
        requires
            old(self).wf(),
            mask == old(self).role(),
        ensures
            final(self).wf(),
            old(self).emitted().len() <= final(self).emitted().len(),
            final(self).emitted().subrange(0, old(self).emitted().len() as int) == old(self).emitted(),
            final(tx)@ == old(tx)@ + frames_wire(
                final(self).emitted().skip(old(self).emitted().len() as int),
            ),
            match r {
                EncodeReady::Buffering => final(self).is_sending() && !final(self).closing()
                    && final(self).message_in_progress() && final(self).can_append() && final(self).staged_frame_open() && !final(self).flush_requested(),
                EncodeReady::FlushedFrames => final(self).is_sending() && !final(self).closing()
                    && final(self).message_in_progress() && final(self).can_append() && final(self).staged_frame_open() && final(self).flush_done(),
                EncodeReady::FlushedMessages => final(self).is_sending() && final(self).can_start_message() && !final(self).message_in_progress() && final(self).staged_frame_open()
                    && final(self).flush_done() && final(self).message_bytes() == Seq::<u8>::empty()
                    && !final(self).staged_fin() && (final(self).msg_finned() || final(self).message_written() == Seq::<u8>::empty()),
                EncodeReady::Flushing => final(self).is_sending() && final(self).staged_frame_open() && final(self).flush_pending(),
                EncodeReady::Error => final(self).is_failed(),
                EncodeReady::Done => final(self).is_done(),
            },
            old(self).is_sending() && final(self).is_sending() ==> final(self).message_in_progress() == old(self).message_in_progress(),
            old(self).is_sending() && old(self).flush_requested() && final(self).is_sending()
                ==> final(self).flush_requested(),
            old(self).is_sending() ==> final(self).is_sending() || final(self).is_done(),
            old(self).is_done() ==> final(self).is_done(),
            old(self).is_failed() ==> final(self).is_failed(),
            final(self).is_done() ==> has_close(final(self).emitted()),
            frames_wf(final(self).emitted()),
            final(self).staged_frame_open(),
            final(self).msg_sent() == old(self).msg_sent() + data_payloads(
                final(self).emitted().skip(old(self).emitted().len() as int),
            ),
            old(self).is_sending() ==> final(self).message_written() == old(self).message_written(),
            old(self).is_done() ==> final(self).message_written() == old(self).message_written(),
            old(self).is_failed() ==> final(self).message_written() == old(self).message_written(),
            old(self).msg_finned() ==> final(self).msg_finned(),
            old(self).staged_fin() ==> final(self).staged_fin() || final(self).msg_finned(),
            final(self).started_kind() == old(self).started_kind(),
            final(self).role() == old(self).role(),
            frames_masked(final(self).emitted(), old(self).role()),
            forall|i: int|
                old(self).emitted().len() <= i < final(self).emitted().len()
                    && !crate::frame::opcode_is_control(
                    #[trigger] final(self).emitted()[i].head.opcode,
                ) && !(final(self).emitted()[i].head.opcode is Continuation) ==> final(self).emitted()[i].head.opcode
                    == old(self).started_kind().opcode_spec(),
            old(self).first_emitted() ==> final(self).first_emitted() && (forall|i: int|
                old(self).emitted().len() <= i < final(self).emitted().len()
                    && !crate::frame::opcode_is_control(
                    #[trigger] final(self).emitted()[i].head.opcode,
                ) ==> final(self).emitted()[i].head.opcode is Continuation),
            forall|i: int, j: int|
                old(self).emitted().len() <= i < j < final(self).emitted().len()
                    && !crate::frame::opcode_is_control(
                    #[trigger] final(self).emitted()[i].head.opcode,
                ) && !crate::frame::opcode_is_control(
                    #[trigger] final(self).emitted()[j].head.opcode,
                ) ==> final(self).emitted()[j].head.opcode is Continuation,
            old(self).is_sending() && !old(self).queued_close() && !old(self).closing()
                ==> final(self).is_sending() && !final(self).queued_close() && !final(self).closing(),
            final(self).is_sending() ==> (final(self).message_bytes() == old(self).message_bytes()
                && (final(self).staged_frame_open() ==> old(self).staged_frame_open())) || final(self).message_bytes() == Seq::<u8>::empty(),
            final(self).is_sending() ==> !final(self).a_control_is_queued(),
            delta_controls_ok(
                old(self).queued_model(),
                final(self).emitted().skip(old(self).emitted().len() as int),
            ),
            old(self).a_control_is_queued() ==> has_control(
                final(self).emitted().skip(old(self).emitted().len() as int),
            ),
    {
        loop
            invariant
                self.wf_mid(),
                old(self).emitted().len() <= self.emitted@.len(),
                self.emitted@.subrange(0, old(self).emitted().len() as int) == old(self).emitted(),
                tx@ == old(tx)@ + frames_wire(
                    self.emitted@.skip(old(self).emitted().len() as int),
                ),
                old(self).is_sending() && self.is_sending() ==> self.message_in_progress() == old(self).message_in_progress(),
                old(self).is_sending() && old(self).flush_requested() && self.is_sending()
                    ==> self.flush_requested(),
                self.msg_sent@ == old(self).msg_sent@ + data_payloads(
                    self.emitted@.skip(old(self).emitted().len() as int),
                ),
                old(self).is_sending() ==> self.message_written() == old(self).message_written(),
                old(self).is_done() ==> self.message_written() == old(self).message_written(),
                old(self).is_failed() ==> self.message_written() == old(self).message_written(),
                old(self).fin_sent@ ==> self.fin_sent@,
                old(self).staged_fin() ==> self.staged_fin() || self.fin_sent@,
                self.mk@ == old(self).mk@,
                self.role@ == old(self).role@,
                mask == self.role@,
                forall|i: int|
                    old(self).emitted().len() <= i < self.emitted@.len()
                        && !crate::frame::opcode_is_control(
                        #[trigger] self.emitted@[i].head.opcode,
                    ) && !(self.emitted@[i].head.opcode is Continuation) ==> self.emitted@[i].head.opcode
                        == old(self).mk@.opcode_spec(),
                old(self).first_sent@ ==> self.first_sent@ && (forall|i: int|
                    old(self).emitted().len() <= i < self.emitted@.len()
                        && !crate::frame::opcode_is_control(
                        #[trigger] self.emitted@[i].head.opcode,
                    ) ==> self.emitted@[i].head.opcode is Continuation),
                forall|i: int, j: int|
                    old(self).emitted().len() <= i < j < self.emitted@.len()
                        && !crate::frame::opcode_is_control(
                        #[trigger] self.emitted@[i].head.opcode,
                    ) && !crate::frame::opcode_is_control(
                        #[trigger] self.emitted@[j].head.opcode,
                    ) ==> self.emitted@[j].head.opcode is Continuation,
                (exists|i: int|
                    old(self).emitted().len() <= i < self.emitted@.len()
                        && !crate::frame::opcode_is_control(
                        #[trigger] self.emitted@[i].head.opcode,
                    )) ==> self.first_sent@,
                old(self).is_sending() && !old(self).queued_close() && !old(self).closing()
                    ==> self.is_sending() && !self.queued_close() && !self.closing(),
                delta_controls_ok(
                    old(self).queued_model(),
                    self.emitted@.skip(old(self).emitted().len() as int),
                ),
                self.a_control_is_queued() ==> self.queued_model() == old(self).queued_model()
                    && !has_control(self.emitted@.skip(old(self).emitted().len() as int))
                    && !self.staged_control(),
                self.staged_control() ==> old(self).queued_model() is Some
                    && self.staged_control_matches(old(self).queued_model()->0) && !has_control(
                    self.emitted@.skip(old(self).emitted().len() as int),
                ) && !self.a_control_is_queued(),
                old(self).a_control_is_queued() ==> has_control(
                    self.emitted@.skip(old(self).emitted().len() as int),
                ) || self.a_control_is_queued() || self.staged_control(),
                old(self).is_sending() ==> self.is_sending() || self.is_done(),
                old(self).is_done() ==> self.is_done(),
                old(self).is_failed() ==> self.is_failed(),
                self.is_sending() ==> (self.message_bytes() == old(self).message_bytes() && (
                self.staged_frame_open() ==> old(self).staged_frame_open())) || self.message_bytes()
                    == Seq::<u8>::empty(),
            decreases (match self.st {
                SendPhase::Sending { frame_in_progress, queued_control, .. } => (match
                    frame_in_progress {
                    Some(f) => if f.finalized() is None {
                        2int
                    } else {
                        1int
                    },
                    None => 0int,
                }) + (match queued_control {
                    Some(_) => 2int,
                    None => 0int,
                }),
                _ => 0int,
            }),
        {
            let mut st = SendPhase::Failed;
            core::mem::swap(&mut st, &mut self.st);
            match st {
                SendPhase::Sending {
                    frame_in_progress,
                    next_data_frame_kind,
                    queued_control,
                    flushed,
                    closing,
                } => {
                    match frame_in_progress {
                        Some(frame) => {
                            if frame.fin_flag.is_some() {
                                let ghost base = old(self).emitted().len() as int;
                                let ghost pre_delta = self.emitted@.skip(base);
                                let f = frame.emit(tx);
                                proof {
                                    lemma_has_close_push(self.emitted@, f@);
                                    lemma_frames_wire_push(pre_delta, f@);
                                    assert(pre_delta.push(f@) =~= self.emitted@.push(f@).skip(
                                        base,
                                    ));
                                    assert(self.emitted@.push(f@).subrange(0, base) =~= self.emitted@.subrange(
                                        0,
                                        base,
                                    ));
                                }
                                self.emitted = Ghost(self.emitted@.push(f@));
                                let flushed = match flushed {
                                    Some(true) => Some(false),
                                    other => other,
                                };
                                proof {
                                    assert forall|i: int|
                                        0 <= i < self.emitted@.len() implies self.role@
                                        == !mask_is_zero(
                                        #[trigger] self.emitted@[i].head.mask,
                                    ) by {
                                        if i == self.emitted@.len() - 1 {
                                            assert(self.emitted@[i] == f@);
                                        }
                                    }
                                    let d = self.emitted@.skip(base);
                                    assert(d =~= pre_delta.push(f@));
                                    assert(d[d.len() - 1] == f@);
                                    assert forall|i: int| 0 <= i < d.len() - 1 implies d[i]
                                        == pre_delta[i] by {}
                                    if frame.frame_kind() is Control {
                                        assert(crate::frame::opcode_is_control(f@.head.opcode));
                                    } else {
                                        assert(!crate::frame::opcode_is_control(f@.head.opcode));
                                    }
                                    if frame.frame_kind() == WsFrameKind::Control(
                                        WsControlFrameKind::Close,
                                    ) {
                                        assert(self.emitted@[self.emitted@.len() - 1].head.opcode
                                            is Close);
                                    }
                                    lemma_data_payloads_push(pre_delta, f@);
                                }
                                if matches!(frame.kind, WsFrameKind::Data(_)) {
                                    self.msg_sent = Ghost(self.msg_sent@ + f@.payload);
                                    self.first_sent = Ghost(true);
                                    if matches!(frame.fin_flag, Some(true)) {
                                        self.fin_sent = Ghost(true);
                                    }
                                    proof {
                                        assert(self.msg_sent@ =~= old(self).msg_sent@
                                            + data_payloads(self.emitted@.skip(base)));
                                    }
                                } else {
                                    proof {
                                        assert(self.msg_sent@ =~= old(self).msg_sent@
                                            + data_payloads(self.emitted@.skip(base)));
                                    }
                                }
                                self.st = SendPhase::Sending {
                                    frame_in_progress: None,
                                    next_data_frame_kind,
                                    queued_control,
                                    flushed,
                                    closing,
                                };
                            } else {
                                if flushed.is_none() && queued_control.is_none() {
                                    self.st = SendPhase::Sending {
                                        frame_in_progress: Some(frame),
                                        next_data_frame_kind,
                                        queued_control,
                                        flushed,
                                        closing,
                                    };
                                    return EncodeReady::Buffering;
                                }
                                let mut frame = frame;
                                frame.finalize(false);
                                self.st = SendPhase::Sending {
                                    frame_in_progress: Some(frame),
                                    next_data_frame_kind,
                                    queued_control,
                                    flushed,
                                    closing,
                                };
                            }
                        },
                        None => {
                            match queued_control {
                                Some(control) => {
                                    let closing = closing || matches!(
                                        control.kind,
                                        WsControlFrameKind::Close,
                                    );
                                    let frame = FrameInProgress::new_control(&control, mask);
                                    let flushed = match flushed {
                                        None => Some(false),
                                        other => other,
                                    };
                                    self.st = SendPhase::Sending {
                                        frame_in_progress: Some(frame),
                                        next_data_frame_kind,
                                        queued_control: None,
                                        flushed,
                                        closing,
                                    };
                                },
                                None => {
                                    match flushed {
                                        None => {
                                            self.st = SendPhase::Sending {
                                                frame_in_progress: None,
                                                next_data_frame_kind,
                                                queued_control: None,
                                                flushed: None,
                                                closing,
                                            };
                                            return EncodeReady::Buffering;
                                        },
                                        Some(false) => {
                                            self.st = SendPhase::Sending {
                                                frame_in_progress: None,
                                                next_data_frame_kind,
                                                queued_control: None,
                                                flushed: Some(false),
                                                closing,
                                            };
                                            return EncodeReady::Flushing;
                                        },
                                        Some(true) => {
                                            if closing {
                                                self.st = SendPhase::Done;
                                                return EncodeReady::Done;
                                            }
                                            self.st = SendPhase::Sending {
                                                frame_in_progress: None,
                                                next_data_frame_kind,
                                                queued_control: None,
                                                flushed: Some(true),
                                                closing,
                                            };
                                            if next_data_frame_kind.is_some() {
                                                return EncodeReady::FlushedFrames;
                                            }
                                            return EncodeReady::FlushedMessages;
                                        },
                                    }
                                },
                            }
                        },
                    }
                },
                SendPhase::Failed => {
                    self.st = SendPhase::Failed;
                    return EncodeReady::Error;
                },
                SendPhase::Done => {
                    self.st = SendPhase::Done;
                    return EncodeReady::Done;
                },
            }
        }
    }

    /// The unmasked bytes of the current message already emitted in data
    /// frames.
    pub closed spec fn msg_sent(self) -> Seq<u8> {
        self.msg_sent@
    }

    /// Every byte of the current message in emission order: what already
    /// went out in data frames, then what is still staged.  The writer's
    /// accepted bytes accumulate here, so the data frames of a finished
    /// message carry exactly what was written.
    pub open spec fn message_written(self) -> Seq<u8> {
        self.msg_sent() + self.message_bytes()
    }

    /// The unmasked bytes of the open message that are staged and not yet
    /// emitted.
    pub closed spec fn message_bytes(self) -> Seq<u8> {
        match self.st {
            SendPhase::Sending { frame_in_progress, .. } => match frame_in_progress {
                Some(f) => if f.frame_kind() is Data {
                    f.raw_payload()
                } else {
                    Seq::empty()
                },
                None => Seq::empty(),
            },
            _ => Seq::empty(),
        }
    }
}

} // verus!
