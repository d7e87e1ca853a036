mod close;
mod decode;
mod encode;

pub use close::CloseState;
pub use decode::DataPoll;
pub use decode::DecodeReady;
pub use decode::DecodeState;
pub use encode::data_payloads;
pub use encode::delta_controls_ok;
pub use encode::frames_masked;
pub use encode::has_close;
pub use encode::has_control;
pub use encode::lemma_data_payloads_push;
pub use encode::EncodeReady;
pub use encode::EncodeState;
pub use encode::FrameInProgress;
pub use encode::MAX_FRAME_PAYLOAD;

use crate::frame::{
    frames_wf, frames_wire, lemma_frames_wire_concat, FrameDecodeError, SpecFrame, WsControlFrame,
    WsControlFrameKind, WsControlFramePayload, WsDataFrameKind,
};
use crate::input::WireInput;
use crate::message::WsMessageKind;
use vstd::prelude::*;

verus! {

/// Why a connection failed; every error is terminal.
#[derive(Clone, Copy, Debug, PartialEq, Eq, Structural)]
pub enum WsConnectionError {
    /// A text message's bytes went irrecoverably invalid.
    InvalidUtf8,
    /// A text message ended inside a character.
    IncompleteUtf8,
    /// The transport failed or ended inside a frame.
    Io,
    /// A frame could not be decoded.
    FrameDecodeError(FrameDecodeError),
    /// No Pong arrived within the keep-alive deadline after a Ping.
    Timeout,
    /// A Continuation outside a message, or a fresh Text/Binary inside one.
    UnexpectedFrameKind(WsDataFrameKind),
}

/// Connection options: whether outgoing frames are masked (the client role
/// masks, the server role does not), and the keep-alive interval in
/// milliseconds.
pub struct WsConfig {
    pub mask: bool,
    pub timeout_ms: u64,
}

impl WsConfig {
    /// Options for the client side of a connection.
    pub fn client() -> (r: WsConfig)
        ensures
            r.mask,
            r.timeout_ms == 10000,
    {
        WsConfig { mask: true, timeout_ms: 10000 }
    }

    /// Options for the server side of a connection.
    pub fn server() -> (r: WsConfig)
        ensures
            !r.mask,
            r.timeout_ms == 10000,
    {
        WsConfig { mask: false, timeout_ms: 10000 }
    }

    /// The same options with another keep-alive interval.
    pub fn with_timeout_ms(self, timeout_ms: u64) -> (r: WsConfig)
        ensures
            r.mask == self.mask,
            r.timeout_ms == timeout_ms,
    {
        WsConfig { mask: self.mask, timeout_ms }
    }
}

/// What polling for the next incoming message produced.
pub enum NextReader {
    /// A message of this kind begins; the reader is now attached.
    Message(WsMessageKind),
    /// The connection failed with this error; reported exactly once.
    Failed(WsConnectionError),
    /// The connection is over.
    Closed,
    /// Nothing is ready.
    Pending,
}

/// What one read step produced.
pub enum ReadStep {
    /// Message bytes, in order; never empty.
    Data(Vec<u8>),
    /// The message ended; the reader is detached.
    End,
    /// Reading needs more input.
    Pending,
    /// The connection failed; the error is latched for the message stream.
    Failed,
}

/// What polling for a writer slot produced.
#[derive(Clone, Copy, Debug, PartialEq, Eq, Structural)]
pub enum NextWriter {
    /// A message was started; bytes may now be written.
    Ready,
    /// The send side is finished.
    Closed,
    /// The previous message is still flushing.
    Pending,
}

/// What one write step produced.
pub enum WriteStep {
    /// This many bytes were accepted.
    Accepted(usize),
    /// The encoder cannot take bytes until the transport is flushed.
    Pending,
    /// The send side is finished.
    Failed,
}

/// What a flush or close-writer step produced.
#[derive(Clone, Copy, Debug, PartialEq, Eq, Structural)]
pub enum FlushStep {
    /// Everything staged was handed to the output and confirmed flushed.
    Flushed,
    /// The application must drain the output, flush the transport and call
    /// `on_flush_done`.
    Pending,
    /// The send side is finished.
    Failed,
}

struct OpenState {
    decode_state: DecodeState,
    encode_state: EncodeState,
    reader_is_attached: bool,
    ping_outstanding: bool,
    received_close: Option<WsControlFramePayload>,
}

enum ConnState {
    Open(OpenState),
    ClosedOk(WsControlFramePayload),
    ClosedErr(WsConnectionError),
    ClosedErrConsumed,
}

/// The close code the engine sends when it detects this error itself:
/// 1007 for UTF-8 violations, 1002 for protocol violations, none for
/// transport failures and timeouts.
pub open spec fn error_close_code(e: WsConnectionError) -> Option<u16> {
    match e {
        WsConnectionError::InvalidUtf8 | WsConnectionError::IncompleteUtf8 => Some(1007),
        WsConnectionError::FrameDecodeError(_) | WsConnectionError::UnexpectedFrameKind(_) => Some(
            1002,
        ),
        _ => None,
    }
}

/// The body of the error Close: the code, big endian, with no reason.
pub open spec fn error_close_body(e: WsConnectionError) -> Seq<u8> {
    let c = error_close_code(e)->0;
    seq![((c >> 8) & 0xff) as u8, (c & 0xff) as u8]
}

spec fn decode_rank(d: DecodeState) -> int {
    if d.is_reading() {
        4
    } else if d.is_control() {
        3
    } else if d.is_message_end() {
        2
    } else {
        1
    }
}

proof fn lemma_history_sync(
    taken: Seq<u8>,
    tx_old: Seq<u8>,
    tx_new: Seq<u8>,
    sent_old: Seq<SpecFrame>,
    sent_new: Seq<SpecFrame>,
)
    requires
        sent_old.len() <= sent_new.len(),
        sent_new.subrange(0, sent_old.len() as int) == sent_old,
        tx_new == tx_old + frames_wire(sent_new.skip(sent_old.len() as int)),
        taken + tx_old == frames_wire(sent_old),
    ensures
        taken + tx_new == frames_wire(sent_new),
{
    assert(sent_new =~= sent_old + sent_new.skip(sent_old.len() as int));
    lemma_frames_wire_concat(sent_old, sent_new.skip(sent_old.len() as int));
    assert(taken + tx_new =~= frames_wire(sent_new));
}

/// One WebSocket connection over an application-owned transport.  The
/// application feeds received bytes in, drains the bytes to be written,
/// reports flush completion, write errors, end-of-stream and keep-alive
/// ticks; all protocol decisions happen here.
pub struct WsConnection {
    config: WsConfig,
    rx: WireInput,
    tx: Vec<u8>,
    tx_taken: Ghost<Seq<u8>>,
    sent: Ghost<Seq<SpecFrame>>,
    eaten: Ghost<Seq<u8>>,
    state: ConnState,
}

impl WsConnection {
    /// Every frame this connection has handed to the output, in order.
    pub closed spec fn frames_sent(self) -> Seq<SpecFrame> {
        self.sent@
    }

    /// Every byte this connection has handed to the output, in order:
    /// bytes already taken by the application, then the pending ones.
    pub closed spec fn output_history(self) -> Seq<u8> {
        self.tx_taken@ + self.tx@
    }

    pub closed spec fn is_open(self) -> bool {
        self.state is Open
    }

    pub closed spec fn is_closed_ok(self) -> bool {
        self.state is ClosedOk
    }

    pub closed spec fn is_closed_err(self) -> bool {
        self.state is ClosedErr
    }

    pub closed spec fn is_err_consumed(self) -> bool {
        self.state is ClosedErrConsumed
    }

    /// A reader handle is attached to the incoming message.
    pub closed spec fn reader_attached(self) -> bool {
        match self.state {
            ConnState::Open(o) => o.reader_is_attached,
            _ => false,
        }
    }

    /// An outgoing message has been started and not yet finished: the writer
    /// slot is taken.
    pub closed spec fn writer_attached(self) -> bool {
        match self.state {
            ConnState::Open(o) => o.encode_state.message_in_progress(),
            _ => false,
        }
    }

    /// The kind the current outgoing message was started with.
    pub closed spec fn writer_kind(self) -> crate::frame::WsDataFrameKind {
        match self.state {
            ConnState::Open(o) => o.encode_state.started_kind(),
            _ => crate::frame::WsDataFrameKind::Binary,
        }
    }

    /// A Ping has gone out and no frame has arrived since.
    pub closed spec fn ping_outstanding_spec(self) -> bool {
        match self.state {
            ConnState::Open(o) => o.ping_outstanding,
            _ => false,
        }
    }

    /// A Close is queued for sending.
    pub closed spec fn close_queued(self) -> bool {
        match self.state {
            ConnState::Open(o) => o.encode_state.queued_close() || o.encode_state.closing()
                || o.encode_state.is_done(),
            _ => true,
        }
    }

    /// The bytes fed from the transport and not yet consumed by decoding.
    pub closed spec fn input_buffered(self) -> Seq<u8> {
        self.rx.remaining()
    }

    /// Every fed byte the decoder has consumed, in order: consumption moves
    /// bytes from `input_buffered` here, through the decoder's grammar.
    pub closed spec fn input_consumed(self) -> Seq<u8> {
        self.eaten@
    }

    /// The transport was reported as ended.
    pub closed spec fn input_is_closed(self) -> bool {
        self.rx.is_closed()
    }

    /// The bytes waiting to be taken for writing.
    pub closed spec fn output_pending(self) -> Seq<u8> {
        self.tx@
    }

    /// The bytes already taken by the application, in order.
    pub closed spec fn output_taken(self) -> Seq<u8> {
        self.tx_taken@
    }

    /// The peer's Close frame has been received.
    pub closed spec fn close_received(self) -> bool {
        match self.state {
            ConnState::Open(o) => o.received_close is Some,
            ConnState::ClosedOk(_) => true,
            _ => false,
        }
    }

    /// The send side is finished for good.
    pub closed spec fn send_closed(self) -> bool {
        match self.state {
            ConnState::Open(o) => o.encode_state.is_done() || o.encode_state.is_failed(),
            _ => true,
        }
    }

    /// A flush was requested and the application has not yet confirmed it.
    pub closed spec fn flush_pending(self) -> bool {
        match self.state {
            ConnState::Open(o) => o.encode_state.flush_pending(),
            _ => false,
        }
    }

    /// Everything handed to the output so far was confirmed flushed.
    pub closed spec fn flush_done(self) -> bool {
        match self.state {
            ConnState::Open(o) => o.encode_state.flush_done(),
            _ => false,
        }
    }

    /// No written byte is still staged: every accepted byte stands in an
    /// emitted frame.
    pub closed spec fn message_flushed(self) -> bool {
        match self.state {
            ConnState::Open(o) => o.encode_state.message_bytes().len() == 0,
            _ => true,
        }
    }

    /// A data frame carrying fin=1 went out for the current message.
    pub closed spec fn message_finished(self) -> bool {
        match self.state {
            ConnState::Open(o) => o.encode_state.msg_finned(),
            _ => false,
        }
    }

    /// The current message's final frame, fin=1, is staged for emission.
    pub closed spec fn message_staged_fin(self) -> bool {
        match self.state {
            ConnState::Open(o) => o.encode_state.staged_fin(),
            _ => false,
        }
    }

    /// The error waiting to be surfaced, if any.
    pub closed spec fn pending_error(self) -> Option<WsConnectionError> {
        match self.state {
            ConnState::Open(o) => o.decode_state.error_of(),
            ConnState::ClosedErr(e) => Some(e),
            _ => None,
        }
    }

    /// Every byte of the outgoing message accepted so far, in order: what
    /// already went out in data frames, then what is still staged.  The
    /// data frames of a finished message carry exactly these bytes.
    pub closed spec fn message_written(self) -> Seq<u8> {
        match self.state {
            ConnState::Open(o) => o.encode_state.message_written(),
            _ => Seq::empty(),
        }
    }

    /// The bytes delivered so far for the incoming message.
    pub closed spec fn message_delivered(self) -> Seq<u8> {
        match self.state {
            ConnState::Open(o) => o.decode_state.delivered(),
            _ => Seq::empty(),
        }
    }

    /// The consumed fragments of the incoming message.
    pub closed spec fn message_fragments(self) -> Seq<Seq<u8>> {
        match self.state {
            ConnState::Open(o) => o.decode_state.fragments(),
            _ => Seq::empty(),
        }
    }

    /// The kind of the incoming message.
    pub closed spec fn message_kind(self) -> WsMessageKind {
        match self.state {
            ConnState::Open(o) => o.decode_state.message_kind(),
            _ => WsMessageKind::Binary,
        }
    }

    pub closed spec fn wf(self) -> bool {
        &&& self.rx.wf()
        &&& frames_wf(self.sent@)
        &&& frames_masked(self.sent@, self.config.mask)
        &&& self.tx_taken@ + self.tx@ == frames_wire(self.sent@)
        &&& match self.state {
            ConnState::Open(o) => {
                &&& o.decode_state.wf()
                &&& self.eaten@ == o.decode_state.stream_consumed()
                &&& o.encode_state.wf()
                &&& (o.encode_state.is_sending() || o.encode_state.is_done())
                &&& o.encode_state.emitted() == self.sent@
                &&& o.encode_state.role() == self.config.mask
                &&& match o.received_close {
                    Some(p) => p.wf(),
                    None => true,
                }
                &&& !o.decode_state.is_done()
                &&& (o.reader_is_attached ==> o.decode_state.in_message()
                    || o.decode_state.is_failed())
            },
            _ => true,
        }
    }

    /// Whether this side plays the client role and masks its frames.
    pub closed spec fn is_client(self) -> bool {
        self.config.mask
    }

    /// Framing integrity: everything this connection ever hands to its
    /// output is a sequence of whole, legal frames laid end to end, so no
    /// control frame's bytes stand between the header and payload of
    /// another frame.
    pub proof fn lemma_output_framed(self)
        requires
            self.wf(),
        ensures
            self.output_history() == frames_wire(self.frames_sent()),
            frames_wf(self.frames_sent()),
    {
    }

    /// Masking policy: in the client role every sent frame carries a
    /// non-zero mask key; in the server role none does.
    pub proof fn lemma_output_masked(self)
        requires
            self.wf(),
        ensures
            frames_masked(self.frames_sent(), self.is_client()),
    {
    }

    /// A fresh connection over a just-upgraded transport.
    pub fn with_config(config: WsConfig) -> (r: WsConnection)
        ensures
            r.wf(),
            r.is_open(),
            !r.reader_attached(),
            !r.writer_attached(),
            !r.ping_outstanding_spec(),
            r.frames_sent() == Seq::<SpecFrame>::empty(),
            r.output_history() == Seq::<u8>::empty(),
            r.input_buffered() == Seq::<u8>::empty(),
            !r.input_is_closed(),
            r.pending_error() is None,
            !r.close_received(),
    {
        let mask = config.mask;
        let r = WsConnection {
            config,
            rx: WireInput::new(),
            tx: Vec::new(),
            tx_taken: Ghost(Seq::empty()),
            sent: Ghost(Seq::empty()),
            eaten: Ghost(Seq::empty()),
            state: ConnState::Open(
                OpenState {
                    decode_state: DecodeState::new(),
                    encode_state: EncodeState::new(mask),
                    reader_is_attached: false,
                    ping_outstanding: false,
                    received_close: None,
                },
            ),
        };
        proof {
            assert(r.tx_taken@ + r.tx@ =~= frames_wire(r.sent@));
            assert(r.output_history() =~= Seq::<u8>::empty());
        }
        r
    }

    /// Hand bytes read from the transport to the connection.
    pub fn feed_input(&mut self, bytes: &Vec<u8>)
        requires
            old(self).wf(),
        ensures
            final(self).wf(),
            final(self).frames_sent() == old(self).frames_sent(),
            final(self).output_history() == old(self).output_history(),
            final(self).output_pending() == old(self).output_pending(),
            final(self).input_buffered() == old(self).input_buffered() + bytes@,
            final(self).input_is_closed() == old(self).input_is_closed(),
            final(self).is_open() == old(self).is_open(),
            final(self).is_closed_ok() == old(self).is_closed_ok(),
            final(self).is_closed_err() == old(self).is_closed_err(),
            final(self).reader_attached() == old(self).reader_attached(),
            final(self).writer_attached() == old(self).writer_attached(),
            final(self).pending_error() == old(self).pending_error(),
    {
        self.rx.feed(bytes);
    }

    /// The transport reached end-of-stream.
    pub fn input_closed(&mut self)
        requires
            old(self).wf(),
        ensures
            final(self).wf(),
            final(self).frames_sent() == old(self).frames_sent(),
            final(self).output_history() == old(self).output_history(),
            final(self).output_pending() == old(self).output_pending(),
            final(self).input_buffered() == old(self).input_buffered(),
            final(self).input_is_closed(),
            final(self).is_open() == old(self).is_open(),
            final(self).is_closed_ok() == old(self).is_closed_ok(),
            final(self).is_closed_err() == old(self).is_closed_err(),
            final(self).reader_attached() == old(self).reader_attached(),
            final(self).writer_attached() == old(self).writer_attached(),
            final(self).pending_error() == old(self).pending_error(),
    {
        self.rx.close();
    }

    /// Take the bytes waiting to be written to the transport.
    pub fn take_output(&mut self) -> (r: Vec<u8>)
        requires
            old(self).wf(),
        ensures
            final(self).wf(),
            final(self).frames_sent() == old(self).frames_sent(),
            final(self).output_history() == old(self).output_history(),
            r@ == old(self).output_pending(),
            final(self).output_pending() == Seq::<u8>::empty(),
            final(self).output_taken() == old(self).output_taken() + r@,
            final(self).input_buffered() == old(self).input_buffered(),
            final(self).input_is_closed() == old(self).input_is_closed(),
            final(self).is_open() == old(self).is_open(),
            final(self).is_closed_ok() == old(self).is_closed_ok(),
            final(self).is_closed_err() == old(self).is_closed_err(),
            final(self).reader_attached() == old(self).reader_attached(),
            final(self).writer_attached() == old(self).writer_attached(),
            final(self).pending_error() == old(self).pending_error(),
    {
        let mut out: Vec<u8> = Vec::new();
        core::mem::swap(&mut out, &mut self.tx);
        self.tx_taken = Ghost(self.tx_taken@ + out@);
        proof {
            assert(self.tx_taken@ + self.tx@ =~= old(self).tx_taken@ + out@);
        }
        out
    }

    /// The transport flush the application started has completed.
    pub fn on_flush_done(&mut self)
        requires
            old(self).wf(),
        ensures
            final(self).wf(),
            final(self).frames_sent() == old(self).frames_sent(),
            final(self).output_history() == old(self).output_history(),
            final(self).output_pending() == old(self).output_pending(),
            final(self).input_buffered() == old(self).input_buffered(),
            final(self).input_is_closed() == old(self).input_is_closed(),
            old(self).flush_pending() ==> final(self).flush_done(),
            old(self).is_open() && !old(self).flush_pending() ==> final(self).flush_pending()
                == old(self).flush_pending() && final(self).flush_done() == old(self).flush_done(),
            final(self).message_written() == old(self).message_written(),
            final(self).is_open() == old(self).is_open(),
            final(self).is_closed_ok() == old(self).is_closed_ok(),
            final(self).is_closed_err() == old(self).is_closed_err(),
            final(self).reader_attached() == old(self).reader_attached(),
            final(self).writer_attached() == old(self).writer_attached(),
            final(self).pending_error() == old(self).pending_error(),
    {
        let mut st = ConnState::ClosedErrConsumed;
        core::mem::swap(&mut st, &mut self.state);
        match st {
            ConnState::Open(mut o) => {
                o.encode_state.confirm_flush();
                self.state = ConnState::Open(o);
            },
            other => {
                self.state = other;
            },
        }
    }

    /// A transport write failed; the connection is over.
    pub fn on_write_error(&mut self)
        requires
            old(self).wf(),
        ensures
            final(self).wf(),
            final(self).frames_sent() == old(self).frames_sent(),
            final(self).output_history() == old(self).output_history(),
            final(self).output_pending() == old(self).output_pending(),
            final(self).input_buffered() == old(self).input_buffered(),
            old(self).is_open() ==> final(self).is_closed_err() && final(self).pending_error()
                == Some(WsConnectionError::Io),
            !old(self).is_open() ==> *final(self) == *old(self),
    {
        let mut st = ConnState::ClosedErrConsumed;
        core::mem::swap(&mut st, &mut self.state);
        match st {
            ConnState::Open(_) => {
                self.state = ConnState::ClosedErr(WsConnectionError::Io);
            },
            other => {
                self.state = other;
            },
        }
    }

    /// The latched error, for a handle that wants to know why the
    /// connection is over; the error itself stays latched.
    pub fn err(&self) -> (r: Option<WsConnectionError>)
        ensures
            r == if self.is_closed_err() {
                self.pending_error()
            } else {
                None::<WsConnectionError>
            },
    {
        match &self.state {
            ConnState::ClosedErr(e) => Some(*e),
            _ => None,
        }
    }

    /// Whether a keep-alive Ping awaits its Pong; for the application's
    /// timer handling.
    pub fn ping_outstanding(&self) -> (r: bool)
        ensures
            r == self.ping_outstanding_spec(),
    {
        match &self.state {
            ConnState::Open(o) => o.ping_outstanding,
            _ => false,
        }
    }

    /// A keep-alive interval elapsed with no frame from the peer.  On the
    /// first missed interval exactly one empty Ping goes out (unless a
    /// Close already is, or was, on its way); on the second the connection
    /// fails with `Timeout`.
    pub fn on_tick(&mut self)
        requires
            old(self).wf(),
        ensures
            final(self).wf(),
            !old(self).is_open() ==> *final(self) == *old(self),
            old(self).is_open() ==> final(self).is_open(),
            final(self).input_buffered() == old(self).input_buffered(),
            final(self).input_is_closed() == old(self).input_is_closed(),
            final(self).reader_attached() == old(self).reader_attached(),
            old(self).is_open() && old(self).ping_outstanding_spec() ==> {
                &&& final(self).frames_sent() == old(self).frames_sent()
                &&& final(self).pending_error() == Some(WsConnectionError::Timeout)
            },
            old(self).is_open() && !old(self).ping_outstanding_spec() && old(self).close_queued()
                ==> final(self).frames_sent() == old(self).frames_sent() && final(self).output_pending()
                    == old(self).output_pending() && final(self).ping_outstanding_spec() == old(self).ping_outstanding_spec(),
            old(self).is_open() && !old(self).ping_outstanding_spec() && !old(self).close_queued()
                ==> {
                &&& final(self).ping_outstanding_spec()
                &&& final(self).frames_sent().subrange(0, old(self).frames_sent().len() as int)
                    == old(self).frames_sent()
                &&& has_control(
                    final(self).frames_sent().skip(old(self).frames_sent().len() as int),
                )
                &&& delta_controls_ok(
                    Some((WsControlFrameKind::Ping, Seq::<u8>::empty())),
                    final(self).frames_sent().skip(old(self).frames_sent().len() as int),
                )
            },
    {
        let mut st = ConnState::ClosedErrConsumed;
        core::mem::swap(&mut st, &mut self.state);
        match st {
            ConnState::Open(mut o) => {
                proof {
                    o.encode_state.lemma_phases_exclusive();
                }
                let closing_now = o.encode_state.send_closing();
                if o.ping_outstanding {
                    o.decode_state.set_err(WsConnectionError::Timeout);
                    self.state = ConnState::Open(o);
                } else if closing_now {
                    // A Close outranks the keep-alive Ping: a closing
                    // connection pings no more.
                    self.state = ConnState::Open(o);
                } else {
                    let empty: Vec<u8> = Vec::new();
                    let ping = WsControlFrame::new(WsControlFrameKind::Ping, &empty);
                    let ghost pre_tx = self.tx@;
                    let ghost pre_sent = self.sent@;
                    proof {
                        assert(ping.payload.view_bytes() =~= Seq::<u8>::empty());
                        assert(Some((WsControlFrameKind::Ping, ping.payload.view_bytes()))
                            == Some((WsControlFrameKind::Ping, Seq::<u8>::empty())));
                    }
                    o.encode_state.queue_control(ping);
                    let _ = o.encode_state.poll(&mut self.tx, self.config.mask);
                    proof {
                        lemma_history_sync(
                            self.tx_taken@,
                            pre_tx,
                            self.tx@,
                            pre_sent,
                            o.encode_state.emitted(),
                        );
                    }
                    self.sent = Ghost(o.encode_state.emitted());
                    o.ping_outstanding = true;
                    self.state = ConnState::Open(o);
                }
            },
            other => {
                self.state = other;
            },
        }
    }
    /// Claim the writer slot for a message of `kind`.  A slot is granted
    /// only when no message is in progress; granting it starts the message,
    /// so at most one writer is ever attached.
    pub fn next_writer(&mut self, kind: WsMessageKind) -> (r: NextWriter)
        requires
            old(self).wf(),
        ensures
            final(self).wf(),
            final(self).is_open() == old(self).is_open(),
            final(self).is_closed_ok() == old(self).is_closed_ok(),
            final(self).is_closed_err() == old(self).is_closed_err(),
            final(self).reader_attached() == old(self).reader_attached(),
            final(self).input_buffered() == old(self).input_buffered(),
            match r {
                NextWriter::Ready => !old(self).writer_attached() && final(self).writer_attached()
                    && final(self).is_open() && final(self).message_written()
                    == Seq::<u8>::empty() && final(self).writer_kind() == kind.frame_kind_spec(),
                NextWriter::Closed => !final(self).writer_attached() && (!final(self).is_open()
                    || final(self).send_closed()),
                NextWriter::Pending => old(self).writer_attached() || final(self).flush_pending(),
            },
    {
        let mut st = ConnState::ClosedErrConsumed;
        core::mem::swap(&mut st, &mut self.state);
        match st {
            ConnState::Open(mut o) => {
                let ghost pre_tx = self.tx@;
                let ghost pre_sent = self.sent@;
                let ghost pre_enc = o.encode_state;
                let er = o.encode_state.poll(&mut self.tx, self.config.mask);
                proof {
                    pre_enc.lemma_phases_exclusive();
                    o.encode_state.lemma_phases_exclusive();
                    lemma_history_sync(
                        self.tx_taken@,
                        pre_tx,
                        self.tx@,
                        pre_sent,
                        o.encode_state.emitted(),
                    );
                }
                self.sent = Ghost(o.encode_state.emitted());
                match er {
                    EncodeReady::FlushedMessages => {
                        o.encode_state.start_message(kind);
                        self.state = ConnState::Open(o);
                        NextWriter::Ready
                    },
                    EncodeReady::Error | EncodeReady::Done => {
                        self.state = ConnState::Open(o);
                        NextWriter::Closed
                    },
                    _ => {
                        self.state = ConnState::Open(o);
                        NextWriter::Pending
                    },
                }
            },
            other => {
                self.state = other;
                NextWriter::Closed
            },
        }
    }

    /// Write message bytes; the writer slot must have been granted.
    /// Accepts at least one byte or reports why it cannot.
    pub fn write(&mut self, buf: &Vec<u8>) -> (r: WriteStep)
        requires
            old(self).wf(),
            buf@.len() > 0,
        ensures
            final(self).wf(),
            final(self).is_open() == old(self).is_open(),
            final(self).is_closed_ok() == old(self).is_closed_ok(),
            final(self).is_closed_err() == old(self).is_closed_err(),
            final(self).reader_attached() == old(self).reader_attached(),
            final(self).input_buffered() == old(self).input_buffered(),
            match r {
                WriteStep::Accepted(n) => 1 <= n <= buf@.len() && final(self).is_open() && final(self).writer_attached()
                    && final(self).message_written() == old(self).message_written()
                        + buf@.subrange(0, n as int),
                WriteStep::Pending => final(self).flush_pending(),
                WriteStep::Failed => !final(self).is_open() || !old(self).writer_attached()
                    || final(self).send_closed(),
            },
    {
        let mut st = ConnState::ClosedErrConsumed;
        core::mem::swap(&mut st, &mut self.state);
        match st {
            ConnState::Open(mut o) => {
                let blen = buf.len();
                let mut total: usize = 0;
                loop
                    invariant
                        blen == buf@.len(),
                        total < blen,
                        self.rx.wf(),
                        o.decode_state.wf(),
                        self.eaten@ == o.decode_state.stream_consumed(),
                        o.encode_state.wf(),
                        o.encode_state.role() == self.config.mask,
                        o.encode_state.is_sending() || o.encode_state.is_done(),
                        o.encode_state.emitted() == self.sent@,
                        frames_wf(self.sent@),
                        self.tx_taken@ + self.tx@ == frames_wire(self.sent@),
                        match o.received_close {
                            Some(p) => p.wf(),
                            None => true,
                        },
                        !o.decode_state.is_done(),
                        o.reader_is_attached ==> o.decode_state.in_message()
                            || o.decode_state.is_failed(),
                        old(self).is_open(),
                        total > 0 ==> o.encode_state.message_in_progress(),
                        !old(self).writer_attached() ==> !o.encode_state.message_in_progress(),
                        old(self).writer_attached() ==> o.encode_state.message_in_progress()
                            || o.encode_state.is_done(),
                        o.reader_is_attached == old(self).reader_attached(),
                        self.rx == old(self).rx,
                        buf@.len() > 0,
                        o.encode_state.message_written() == old(self).message_written()
                            + buf@.subrange(0, total as int),
                    decreases buf@.len() - total, (if o.encode_state.staged_frame_open() {
                        1int
                    } else {
                        0int
                    }),
                {
                    let ghost pre_tx = self.tx@;
                    let ghost pre_sent = self.sent@;
                    let ghost pre_enc = o.encode_state;
                    let er = o.encode_state.poll(&mut self.tx, self.config.mask);
                    proof {
                        pre_enc.lemma_phases_exclusive();
                        o.encode_state.lemma_phases_exclusive();
                        lemma_history_sync(
                            self.tx_taken@,
                            pre_tx,
                            self.tx@,
                            pre_sent,
                            o.encode_state.emitted(),
                        );
                    }
                    self.sent = Ghost(o.encode_state.emitted());
                    match er {
                        EncodeReady::Buffering | EncodeReady::FlushedFrames => {
                            let n = o.encode_state.append_data(buf, total, self.config.mask);
                            total = total + n;
                            if total == buf.len() {
                                self.state = ConnState::Open(o);
                                return WriteStep::Accepted(total);
                            }
                        },
                        EncodeReady::Flushing => {
                            self.state = ConnState::Open(o);
                            if total > 0 {
                                return WriteStep::Accepted(total);
                            }
                            return WriteStep::Pending;
                        },
                        EncodeReady::FlushedMessages => {
                            // No message is open: the writer slot was never
                            // granted or was already closed.
                            self.state = ConnState::Open(o);
                            return WriteStep::Failed;
                        },
                        EncodeReady::Error | EncodeReady::Done => {
                            self.state = ConnState::Open(o);
                            return WriteStep::Failed;
                        },
                    }
                }
            },
            other => {
                self.state = other;
                WriteStep::Failed
            },
        }
    }

    /// Force the staged bytes out without ending the message.
    pub fn flush(&mut self) -> (r: FlushStep)
        requires
            old(self).wf(),
        ensures
            final(self).wf(),
            final(self).is_open() == old(self).is_open(),
            final(self).is_closed_ok() == old(self).is_closed_ok(),
            final(self).is_closed_err() == old(self).is_closed_err(),
            final(self).reader_attached() == old(self).reader_attached(),
            final(self).input_buffered() == old(self).input_buffered(),
            match r {
                FlushStep::Flushed => final(self).is_open() && final(self).flush_done(),
                FlushStep::Pending => final(self).flush_pending(),
                FlushStep::Failed => !final(self).is_open() || final(self).send_closed(),
            },
    {
        let mut st = ConnState::ClosedErrConsumed;
        core::mem::swap(&mut st, &mut self.state);
        match st {
            ConnState::Open(mut o) => {
                let ghost pre_tx = self.tx@;
                let ghost pre_sent = self.sent@;
                let ghost pre_enc = o.encode_state;
                let er = o.encode_state.poll(&mut self.tx, self.config.mask);
                proof {
                    pre_enc.lemma_phases_exclusive();
                    o.encode_state.lemma_phases_exclusive();
                    lemma_history_sync(
                        self.tx_taken@,
                        pre_tx,
                        self.tx@,
                        pre_sent,
                        o.encode_state.emitted(),
                    );
                }
                self.sent = Ghost(o.encode_state.emitted());
                match er {
                    EncodeReady::FlushedFrames | EncodeReady::FlushedMessages => {
                        self.state = ConnState::Open(o);
                        FlushStep::Flushed
                    },
                    EncodeReady::Flushing => {
                        self.state = ConnState::Open(o);
                        FlushStep::Pending
                    },
                    EncodeReady::Error | EncodeReady::Done => {
                        self.state = ConnState::Open(o);
                        FlushStep::Failed
                    },
                    EncodeReady::Buffering => {
                        o.encode_state.start_flushing();
                        let ghost pre_tx2 = self.tx@;
                        let ghost pre_sent2 = self.sent@;
                        let ghost pre_enc2 = o.encode_state;
                        let er2 = o.encode_state.poll(&mut self.tx, self.config.mask);
                        proof {
                            pre_enc2.lemma_phases_exclusive();
                            o.encode_state.lemma_phases_exclusive();
                            lemma_history_sync(
                                self.tx_taken@,
                                pre_tx2,
                                self.tx@,
                                pre_sent2,
                                o.encode_state.emitted(),
                            );
                        }
                        self.sent = Ghost(o.encode_state.emitted());
                        self.state = ConnState::Open(o);
                        match er2 {
                            EncodeReady::FlushedFrames | EncodeReady::FlushedMessages => {
                                FlushStep::Flushed
                            },
                            EncodeReady::Flushing => FlushStep::Pending,
                            EncodeReady::Error | EncodeReady::Done => FlushStep::Failed,
                            EncodeReady::Buffering => {
                                proof {
                                    assert(false);
                                }
                                FlushStep::Pending
                            },
                        }
                    },
                }
            },
            other => {
                self.state = other;
                FlushStep::Failed
            },
        }
    }

    /// Finish the outgoing message with fin=1 and flush it; the writer slot
    /// is free once this reports `Flushed`.
    pub fn close_writer(&mut self) -> (r: FlushStep)
        requires
            old(self).wf(),
        ensures
            final(self).wf(),
            final(self).is_open() == old(self).is_open(),
            final(self).is_closed_ok() == old(self).is_closed_ok(),
            final(self).is_closed_err() == old(self).is_closed_err(),
            final(self).reader_attached() == old(self).reader_attached(),
            final(self).input_buffered() == old(self).input_buffered(),
            final(self).is_open() ==> final(self).message_written() == old(self).message_written(),
            match r {
                FlushStep::Flushed => final(self).is_open() && !final(self).writer_attached()
                    && final(self).flush_done() && final(self).message_flushed() && (final(self).message_finished()
                    || final(self).message_written() == Seq::<u8>::empty()) && (old(self).writer_attached()
                    ==> final(self).message_finished()),
                FlushStep::Pending => final(self).flush_pending(),
                FlushStep::Failed => !final(self).is_open() || final(self).send_closed(),
            },
    {
        let mut st = ConnState::ClosedErrConsumed;
        core::mem::swap(&mut st, &mut self.state);
        match st {
            ConnState::Open(mut o) => {
                let ghost pre_tx = self.tx@;
                let ghost pre_sent = self.sent@;
                let ghost pre_enc = o.encode_state;
                let er = o.encode_state.poll(&mut self.tx, self.config.mask);
                proof {
                    pre_enc.lemma_phases_exclusive();
                    o.encode_state.lemma_phases_exclusive();
                    lemma_history_sync(
                        self.tx_taken@,
                        pre_tx,
                        self.tx@,
                        pre_sent,
                        o.encode_state.emitted(),
                    );
                }
                self.sent = Ghost(o.encode_state.emitted());
                match er {
                    EncodeReady::FlushedMessages => {
                        self.state = ConnState::Open(o);
                        FlushStep::Flushed
                    },
                    EncodeReady::Flushing => {
                        self.state = ConnState::Open(o);
                        FlushStep::Pending
                    },
                    EncodeReady::Error | EncodeReady::Done => {
                        self.state = ConnState::Open(o);
                        FlushStep::Failed
                    },
                    EncodeReady::Buffering | EncodeReady::FlushedFrames => {
                        o.encode_state.end_message(self.config.mask);
                        let ghost pre_tx2 = self.tx@;
                        let ghost pre_sent2 = self.sent@;
                        let ghost pre_enc2 = o.encode_state;
                        let er2 = o.encode_state.poll(&mut self.tx, self.config.mask);
                        proof {
                            pre_enc2.lemma_phases_exclusive();
                            o.encode_state.lemma_phases_exclusive();
                            lemma_history_sync(
                                self.tx_taken@,
                                pre_tx2,
                                self.tx@,
                                pre_sent2,
                                o.encode_state.emitted(),
                            );
                        }
                        self.sent = Ghost(o.encode_state.emitted());
                        self.state = ConnState::Open(o);
                        match er2 {
                            EncodeReady::FlushedMessages => FlushStep::Flushed,
                            EncodeReady::Flushing => FlushStep::Pending,
                            EncodeReady::Error | EncodeReady::Done => FlushStep::Failed,
                            EncodeReady::Buffering | EncodeReady::FlushedFrames => {
                                proof {
                                    assert(false);
                                }
                                FlushStep::Pending
                            },
                        }
                    },
                }
            },
            other => {
                self.state = other;
                FlushStep::Failed
            },
        }
    }

    /// A writer handle went away: finish its message so the frame stream
    /// stays legal; the bytes go out on later polls.
    pub fn detach_writer(&mut self)
        requires
            old(self).wf(),
        ensures
            final(self).wf(),
            !final(self).writer_attached(),
            final(self).is_open() == old(self).is_open(),
            final(self).is_closed_ok() == old(self).is_closed_ok(),
            final(self).is_closed_err() == old(self).is_closed_err(),
            final(self).reader_attached() == old(self).reader_attached(),
            final(self).input_buffered() == old(self).input_buffered(),
            final(self).pending_error() == old(self).pending_error(),
            old(self).frames_sent().len() <= final(self).frames_sent().len(),
            final(self).frames_sent().subrange(0, old(self).frames_sent().len() as int) == old(self).frames_sent(),
            old(self).is_open() && old(self).writer_attached() && !final(self).send_closed()
                ==> final(self).message_staged_fin() || final(self).message_finished(),
    {
        let mut st = ConnState::ClosedErrConsumed;
        core::mem::swap(&mut st, &mut self.state);
        match st {
            ConnState::Open(mut o) => {
                let ghost pre_tx = self.tx@;
                let ghost pre_sent = self.sent@;
                let ghost pre_enc = o.encode_state;
                let _ = o.encode_state.poll(&mut self.tx, self.config.mask);
                proof {
                    pre_enc.lemma_phases_exclusive();
                    o.encode_state.lemma_phases_exclusive();
                    lemma_history_sync(
                        self.tx_taken@,
                        pre_tx,
                        self.tx@,
                        pre_sent,
                        o.encode_state.emitted(),
                    );
                }
                self.sent = Ghost(o.encode_state.emitted());
                o.encode_state.end_message(self.config.mask);
                self.state = ConnState::Open(o);
            },
            other => {
                self.state = other;
            },
        }
    }

    /// Poll for the next incoming message.  Control frames met on the way
    /// are answered (Ping begets Pong, Close is echoed and ends the
    /// connection); a latched error is surfaced here exactly once.  A
    /// message is only handed out while no reader is attached, and taking
    /// it attaches the reader: at most one reader is ever attached.
    pub fn next_reader(&mut self) -> (r: NextReader)
        requires
            old(self).wf(),
        ensures
            final(self).wf(),
            final(self).input_is_closed() == old(self).input_is_closed(),
            final(self).ping_outstanding_spec() ==> old(self).ping_outstanding_spec(),
            old(self).input_consumed() + old(self).input_buffered() == final(self).input_consumed()
                + final(self).input_buffered(),
            old(self).input_consumed().len() <= final(self).input_consumed().len(),
            final(self).input_consumed().subrange(0, old(self).input_consumed().len() as int)
                == old(self).input_consumed(),
            old(self).is_closed_err() ==> r == NextReader::Failed(old(self).pending_error()->0),
            old(self).is_closed_ok() || old(self).is_err_consumed() ==> r is Closed,
            match r {
                NextReader::Message(k) => !old(self).reader_attached() && final(self).reader_attached() && final(self).is_open() && final(self).message_kind() == k
                    && final(self).message_delivered() == Seq::<u8>::empty()
                    && !final(self).ping_outstanding_spec(),
                NextReader::Failed(e) => final(self).is_err_consumed() && (old(self).is_open()
                    ==> old(self).pending_error() == Some(e) || match e {
                    WsConnectionError::Timeout => false,
                    WsConnectionError::Io => final(self).input_buffered().len() == 0 && final(self).input_is_closed(),
                    WsConnectionError::FrameDecodeError(fe) => (fe is Io ==> final(self).input_buffered().len() == 0
                        && final(self).input_is_closed()) && (!(fe is Io) ==> final(self).input_buffered().len() < old(self).input_buffered().len()),
                    WsConnectionError::UnexpectedFrameKind(_) => final(self).input_buffered().len() < old(self).input_buffered().len(),
                    WsConnectionError::InvalidUtf8 | WsConnectionError::IncompleteUtf8 => old(self).message_kind() is Text,
                }) && (error_close_code(e) is Some
                    && !old(self).close_queued() && !old(self).close_received() && old(self).is_open()
                    ==> exists|i: int|
                        old(self).frames_sent().len() <= i <= final(self).frames_sent().len()
                            && #[trigger] has_control(final(self).frames_sent().skip(i))
                            && delta_controls_ok(
                            Some((WsControlFrameKind::Close, error_close_body(e))),
                            final(self).frames_sent().skip(i),
                        )),
                NextReader::Closed => (final(self).is_closed_ok() || final(self).is_err_consumed())
                    && (old(self).is_open() ==> final(self).is_closed_ok() && has_close(
                    final(self).frames_sent(),
                )),
                NextReader::Pending => (old(self).reader_attached() ==> final(self).message_delivered()
                    == old(self).message_delivered() && final(self).message_kind() == old(self).message_kind())
                    && final(self).is_open() && final(self).pending_error() is None
                    && (final(self).reader_attached() || final(self).close_received() || (final(self).input_buffered().len() == 0 && !final(self).input_is_closed())),
            },
    {
        let mut st = ConnState::ClosedErrConsumed;
        core::mem::swap(&mut st, &mut self.state);
        match st {
            ConnState::Open(mut o) => {
                loop
                    invariant
                        self.rx.wf(),
                        o.decode_state.wf(),
                        o.encode_state.wf(),
                        o.encode_state.role() == self.config.mask,
                        o.encode_state.is_sending() || o.encode_state.is_done(),
                        o.encode_state.emitted() == self.sent@,
                        frames_wf(self.sent@),
                        self.tx_taken@ + self.tx@ == frames_wire(self.sent@),
                        match o.received_close {
                            Some(p) => p.wf(),
                            None => true,
                        },
                        old(self).is_open(),
                        self.eaten@ == o.decode_state.stream_consumed(),
                        old(self).input_consumed() + old(self).input_buffered() == self.eaten@
                            + self.rx.remaining(),
                        old(self).input_consumed().len() <= self.eaten@.len(),
                        self.eaten@.subrange(0, old(self).input_consumed().len() as int)
                            == old(self).input_consumed(),
                        !o.decode_state.is_done(),
                        o.reader_is_attached ==> o.decode_state.in_message()
                            || o.decode_state.is_failed(),
                        o.reader_is_attached == old(self).reader_attached(),
                        o.reader_is_attached ==> o.decode_state.delivered() == old(self).message_delivered()
                            && o.decode_state.message_kind() == old(self).message_kind(),
                        o.ping_outstanding ==> old(self).ping_outstanding_spec(),
                        self.rx.is_closed() == old(self).rx.is_closed(),
                        old(self).frames_sent().len() <= self.sent@.len(),
                        self.rx.remaining().len() <= old(self).rx.remaining().len(),
                        o.decode_state.message_kind() == old(self).message_kind(),
                        o.decode_state.is_failed() ==> old(self).pending_error()
                            == o.decode_state.error_of() || (match o.decode_state.error_of()->0 {
                            WsConnectionError::Timeout => false,
                            WsConnectionError::Io => self.rx.remaining().len() == 0
                                && self.rx.is_closed(),
                            WsConnectionError::FrameDecodeError(fe) => (fe is Io
                                ==> self.rx.remaining().len() == 0 && self.rx.is_closed()) && (!(fe
                                is Io) ==> self.rx.remaining().len() < old(self).rx.remaining().len()),
                            WsConnectionError::UnexpectedFrameKind(_) => self.rx.remaining().len()
                                < old(self).rx.remaining().len(),
                            WsConnectionError::InvalidUtf8 | WsConnectionError::IncompleteUtf8 => old(self).message_kind() is Text,
                        }),
                        !old(self).close_queued() && !old(self).close_received()
                            && o.received_close is None ==> o.encode_state.is_sending()
                            && !o.encode_state.queued_close() && !o.encode_state.closing(),
                        o.decode_state.is_failed() ==> o.received_close is None || old(self).close_received(),
                    decreases self.rx.remaining().len(), decode_rank(o.decode_state),
                {
                    proof {
                        o.decode_state.lemma_phases();
                    }
                    match o.decode_state.take_err() {
                        Some(e) => {
                            Self::queue_error_close(&mut o, e);
                            let ghost pre_tx0 = self.tx@;
                            let ghost pre_sent0 = self.sent@;
                            let _ = o.encode_state.poll(&mut self.tx, self.config.mask);
                            proof {
                                lemma_history_sync(
                                    self.tx_taken@,
                                    pre_tx0,
                                    self.tx@,
                                    pre_sent0,
                                    o.encode_state.emitted(),
                                );
                            }
                            self.sent = Ghost(o.encode_state.emitted());
                            self.state = ConnState::ClosedErrConsumed;
                            proof {
                                if error_close_code(e) is Some && !old(self).close_queued()
                                    && !old(self).close_received() {
                                    let wit = pre_sent0.len() as int;
                                    assert(has_control(self.frames_sent().skip(wit)));
                                    assert(delta_controls_ok(
                                        Some((WsControlFrameKind::Close, error_close_body(e))),
                                        self.frames_sent().skip(wit),
                                    ));
                                    assert(old(self).frames_sent().len() <= wit <= self.frames_sent().len());
                                }
                            }
                            return NextReader::Failed(e);
                        },
                        None => {},
                    }
                    proof {
                        o.decode_state.lemma_phases();
                    }
                    let ghost pre_tx = self.tx@;
                    let ghost pre_sent = self.sent@;
                    let ghost pre_enc = o.encode_state;
                    let er = o.encode_state.poll(&mut self.tx, self.config.mask);
                    proof {
                        pre_enc.lemma_phases_exclusive();
                        o.encode_state.lemma_phases_exclusive();
                    }
                    proof {
                        lemma_history_sync(
                            self.tx_taken@,
                            pre_tx,
                            self.tx@,
                            pre_sent,
                            o.encode_state.emitted(),
                        );
                    }
                    self.sent = Ghost(o.encode_state.emitted());
                    if matches!(er, EncodeReady::Done) {
                        let payload = match o.received_close {
                            Some(p) => p,
                            None => {
                                let empty: Vec<u8> = Vec::new();
                                WsControlFramePayload::new(&empty)
                            },
                        };
                        self.state = ConnState::ClosedOk(payload);
                        return NextReader::Closed;
                    }
                    if matches!(er, EncodeReady::Error) {
                        proof {
                            assert(false);
                        }
                        self.state = ConnState::ClosedErrConsumed;
                        return NextReader::Failed(WsConnectionError::Io);
                    }
                    if o.received_close.is_some() {
                        // The peer has closed: no further reads, only the
                        // close echo still drains.
                        self.state = ConnState::Open(o);
                        return NextReader::Pending;
                    }
                    let ghost pre_decode = o.decode_state;
                    let dr = o.decode_state.poll(&mut self.rx);
                    self.eaten = Ghost(o.decode_state.stream_consumed());
                    proof {
                        pre_decode.lemma_phases();
                        o.decode_state.lemma_phases();
                    }
                    match dr {
                        DecodeReady::MessageStart => {
                            if o.reader_is_attached {
                                proof {
                                    assert(false);
                                }
                                self.state = ConnState::Open(o);
                                return NextReader::Pending;
                            }
                            match o.decode_state.take_message_start() {
                                Some(kind) => {
                                    proof {
                                        o.decode_state.lemma_phases();
                                    }
                                    o.reader_is_attached = true;
                                    o.ping_outstanding = false;
                                    self.state = ConnState::Open(o);
                                    return NextReader::Message(kind);
                                },
                                None => {
                                    proof {
                                        assert(false);
                                    }
                                },
                            }
                        },
                        DecodeReady::Control(_) => {
                            o.ping_outstanding = false;
                            match o.decode_state.take_control() {
                                Some(frame) => {
                                    proof {
                                        o.decode_state.lemma_phases();
                                    }
                                    Self::handle_control_frame(&mut o, frame);
                                },
                                None => {
                                    proof {
                                        assert(false);
                                    }
                                },
                            }
                        },
                        DecodeReady::MessageData => {
                            if o.reader_is_attached {
                                self.state = ConnState::Open(o);
                                return NextReader::Pending;
                            }
                            // No reader: drain and discard to keep framing
                            // aligned.
                            let dp = o.decode_state.poll_read(&mut self.rx, 1300);
                            self.eaten = Ghost(o.decode_state.stream_consumed());
                            proof {
                                o.decode_state.lemma_phases();
                            }
                            match dp {
                                DataPoll::Data(_) => {
                                    o.ping_outstanding = false;
                                },
                                DataPoll::Pending => {
                                    self.state = ConnState::Open(o);
                                    return NextReader::Pending;
                                },
                            }
                        },
                        DecodeReady::MessageEnd => {
                            if o.reader_is_attached {
                                self.state = ConnState::Open(o);
                                return NextReader::Pending;
                            }
                            let _ = o.decode_state.take_message_end();
                            o.ping_outstanding = false;
                            proof {
                                o.decode_state.lemma_phases();
                            }
                        },
                        DecodeReady::Error => {
                            let e = match o.decode_state.take_err() {
                                Some(e) => e,
                                None => {
                                    proof {
                                        assert(false);
                                    }
                                    WsConnectionError::Io
                                },
                            };
                            Self::queue_error_close(&mut o, e);
                            let ghost pre_tx2 = self.tx@;
                            let ghost pre_sent2 = self.sent@;
                            let _ = o.encode_state.poll(&mut self.tx, self.config.mask);
                            proof {
                                lemma_history_sync(
                                    self.tx_taken@,
                                    pre_tx2,
                                    self.tx@,
                                    pre_sent2,
                                    o.encode_state.emitted(),
                                );
                            }
                            self.sent = Ghost(o.encode_state.emitted());
                            self.state = ConnState::ClosedErrConsumed;
                            proof {
                                if error_close_code(e) is Some && !old(self).close_queued()
                                    && !old(self).close_received() {
                                    let wit = pre_sent2.len() as int;
                                    assert(has_control(self.frames_sent().skip(wit)));
                                    assert(delta_controls_ok(
                                        Some((WsControlFrameKind::Close, error_close_body(e))),
                                        self.frames_sent().skip(wit),
                                    ));
                                    assert(old(self).frames_sent().len() <= wit <= self.frames_sent().len());
                                }
                            }
                            return NextReader::Failed(e);
                        },
                        DecodeReady::Done => {
                            proof {
                                assert(false);
                            }
                            let empty: Vec<u8> = Vec::new();
                            self.state = ConnState::ClosedOk(WsControlFramePayload::new(&empty));
                            return NextReader::Closed;
                        },
                        DecodeReady::Pending => {
                            self.state = ConnState::Open(o);
                            return NextReader::Pending;
                        },
                    }
                }
            },
            ConnState::ClosedOk(p) => {
                self.state = ConnState::ClosedOk(p);
                NextReader::Closed
            },
            ConnState::ClosedErr(e) => {
                self.state = ConnState::ClosedErrConsumed;
                NextReader::Failed(e)
            },
            ConnState::ClosedErrConsumed => {
                self.state = ConnState::ClosedErrConsumed;
                NextReader::Closed
            },
        }
    }

    /// Answer a control frame: echo Ping as Pong, drop Pong, echo Close and
    /// record the peer as closed.
    fn handle_control_frame(o: &mut OpenState, frame: WsControlFrame)
        requires
            old(o).decode_state.wf(),
            old(o).encode_state.wf(),
            frame.wf(),
            match old(o).received_close {
                Some(p) => p.wf(),
                None => true,
            },
        ensures
            final(o).decode_state == old(o).decode_state,
            final(o).encode_state.wf(),
            final(o).encode_state.emitted() == old(o).encode_state.emitted(),
            final(o).encode_state.is_sending() == old(o).encode_state.is_sending(),
            final(o).encode_state.is_done() == old(o).encode_state.is_done(),
            final(o).encode_state.staged_frame_open() == old(o).encode_state.staged_frame_open(),
            final(o).encode_state.role() == old(o).encode_state.role(),
            final(o).reader_is_attached == old(o).reader_is_attached,
            final(o).ping_outstanding == old(o).ping_outstanding,
            match final(o).received_close {
                Some(p) => p.wf(),
                None => true,
            },
            frame.kind is Close ==> final(o).received_close is Some,
            !(frame.kind is Close) ==> final(o).received_close == old(o).received_close,
            frame.kind is Pong ==> final(o).encode_state == old(o).encode_state,
            frame.kind is Ping && old(o).encode_state.is_sending()
                && !old(o).encode_state.queued_close() ==> final(o).encode_state.queued_model()
                == Some((WsControlFrameKind::Pong, frame.payload.view_bytes())),
            frame.kind is Close && old(o).encode_state.is_sending()
                && !old(o).encode_state.queued_close() ==> final(o).encode_state.queued_model()
                == Some((WsControlFrameKind::Close, frame.payload.view_bytes())),
            old(o).encode_state.is_sending() && !old(o).encode_state.queued_close()
                && !old(o).encode_state.closing() && !(frame.kind is Close) ==> final(o).encode_state.is_sending() && !final(o).encode_state.queued_close() && !final(o).encode_state.closing(),
    {
        match frame.kind() {
            WsControlFrameKind::Ping => {
                let pong = WsControlFrame { kind: WsControlFrameKind::Pong, payload: frame.payload.duplicate() };
                o.encode_state.queue_control(pong);
            },
            WsControlFrameKind::Pong => {},
            WsControlFrameKind::Close => {
                let echo = WsControlFrame { kind: WsControlFrameKind::Close, payload: frame.payload.duplicate() };
                o.received_close = Some(frame.payload);
                o.encode_state.queue_control(echo);
            },
        }
    }

    /// Queue the protocol-error Close the spec asks for, when the error
    /// kind calls for one and the send side is still open.
    fn queue_error_close(o: &mut OpenState, e: WsConnectionError)
        requires
            old(o).encode_state.wf(),
        ensures
            final(o).decode_state == old(o).decode_state,
            final(o).encode_state.wf(),
            final(o).encode_state.emitted() == old(o).encode_state.emitted(),
            final(o).encode_state.is_sending() == old(o).encode_state.is_sending(),
            final(o).encode_state.is_done() == old(o).encode_state.is_done(),
            final(o).encode_state.role() == old(o).encode_state.role(),
            final(o).reader_is_attached == old(o).reader_is_attached,
            final(o).ping_outstanding == old(o).ping_outstanding,
            final(o).received_close == old(o).received_close,
            old(o).encode_state.is_sending() && !old(o).encode_state.queued_close()
                && error_close_code(e) is Some ==> final(o).encode_state.queued_model() == Some(
                (WsControlFrameKind::Close, error_close_body(e)),
            ) && final(o).encode_state.a_control_is_queued(),
            error_close_code(e) is None ==> final(o).encode_state == old(o).encode_state,
    {
        let code: u16 = match e {
            WsConnectionError::InvalidUtf8 | WsConnectionError::IncompleteUtf8 => 1007,
            WsConnectionError::FrameDecodeError(_) | WsConnectionError::UnexpectedFrameKind(_) => 1002,
            _ => {
                return ;
            },
        };
        let empty: Vec<u8> = Vec::new();
        let payload = WsControlFramePayload::for_close(code, &empty);
        let close = WsControlFrame { kind: WsControlFrameKind::Close, payload };
        o.encode_state.queue_control(close);
    }

    /// Read up to `max` bytes of the attached reader's message.  Bytes come
    /// out exactly as delivered by the peer, in order; `End` marks the
    /// message boundary, whereupon the whole message was the concatenation
    /// of its fragments' payloads, and a text message was valid UTF-8.
    pub fn read(&mut self, max: usize) -> (r: ReadStep)
        requires
            old(self).wf(),
            max > 0,
        ensures
            final(self).wf(),
            match r {
                ReadStep::Data(v) => {
                    &&& v@.len() > 0
                    &&& final(self).is_open()
                    &&& final(self).reader_attached() == old(self).reader_attached()
                    &&& final(self).message_delivered() == old(self).message_delivered() + v@
                    &&& final(self).message_kind() == old(self).message_kind()
                    &&& !final(self).ping_outstanding_spec()
                },
                ReadStep::End => {
                    &&& final(self).is_open()
                    &&& !final(self).reader_attached()
                    &&& final(self).message_delivered() == old(self).message_delivered()
                    &&& (old(self).message_kind() is Text ==> crate::utf8::is_utf8(
                        old(self).message_delivered(),
                    ))
                    &&& !final(self).ping_outstanding_spec()
                },
                ReadStep::Pending => final(self).is_open() && final(self).reader_attached()
                    && final(self).input_buffered().len() == 0 && !final(self).input_is_closed(),
                ReadStep::Failed => !old(self).reader_attached() || !old(self).is_open()
                    || (final(self).is_open() && final(self).close_received()) || (final(self).is_closed_err()
                    && (old(self).pending_error() == Some(final(self).pending_error()->0) || match final(self).pending_error()->0 {
                    WsConnectionError::Timeout => false,
                    WsConnectionError::Io => final(self).input_buffered().len() == 0 && final(self).input_is_closed(),
                    WsConnectionError::FrameDecodeError(fe) => (fe is Io ==> final(self).input_buffered().len() == 0
                        && final(self).input_is_closed()) && (!(fe is Io) ==> final(self).input_buffered().len() < old(self).input_buffered().len()),
                    WsConnectionError::UnexpectedFrameKind(_) => final(self).input_buffered().len() < old(self).input_buffered().len(),
                    WsConnectionError::InvalidUtf8 | WsConnectionError::IncompleteUtf8 => old(self).message_kind() is Text,
                })),
            },
            final(self).is_closed_ok() == old(self).is_closed_ok(),
            old(self).is_open() ==> final(self).is_open() || final(self).is_closed_err(),
            final(self).ping_outstanding_spec() ==> old(self).ping_outstanding_spec(),
            old(self).input_consumed() + old(self).input_buffered() == final(self).input_consumed()
                + final(self).input_buffered(),
            old(self).input_consumed().len() <= final(self).input_consumed().len(),
            final(self).input_consumed().subrange(0, old(self).input_consumed().len() as int)
                == old(self).input_consumed(),
            r is Failed && final(self).is_closed_err() && error_close_code(
                final(self).pending_error()->0,
            ) is Some && !old(self).close_queued() && !old(self).close_received() && old(self).is_open()
                ==> exists|i: int|
                old(self).frames_sent().len() <= i <= final(self).frames_sent().len()
                    && #[trigger] has_control(final(self).frames_sent().skip(i))
                    && delta_controls_ok(
                    Some((WsControlFrameKind::Close, error_close_body(final(self).pending_error()->0))),
                    final(self).frames_sent().skip(i),
                ),
    {
        let mut st = ConnState::ClosedErrConsumed;
        core::mem::swap(&mut st, &mut self.state);
        match st {
            ConnState::Open(mut o) => {
                if !o.reader_is_attached {
                    self.state = ConnState::Open(o);
                    return ReadStep::Failed;
                }
                loop
                    invariant
                        self.rx.wf(),
                        o.decode_state.wf(),
                        o.encode_state.wf(),
                        o.encode_state.role() == self.config.mask,
                        o.encode_state.is_sending() || o.encode_state.is_done(),
                        o.encode_state.emitted() == self.sent@,
                        frames_wf(self.sent@),
                        self.tx_taken@ + self.tx@ == frames_wire(self.sent@),
                        match o.received_close {
                            Some(p) => p.wf(),
                            None => true,
                        },
                        max > 0,
                        old(self).is_open(),
                        self.eaten@ == o.decode_state.stream_consumed(),
                        old(self).input_consumed() + old(self).input_buffered() == self.eaten@
                            + self.rx.remaining(),
                        old(self).input_consumed().len() <= self.eaten@.len(),
                        self.eaten@.subrange(0, old(self).input_consumed().len() as int)
                            == old(self).input_consumed(),
                        o.reader_is_attached,
                        old(self).reader_attached(),
                        o.ping_outstanding ==> old(self).ping_outstanding_spec(),
                        self.rx.remaining().len() <= old(self).rx.remaining().len(),
                        old(self).frames_sent().len() <= self.sent@.len(),
                        !old(self).close_queued() && !old(self).close_received()
                            && o.received_close is None ==> o.encode_state.is_sending()
                            && !o.encode_state.queued_close() && !o.encode_state.closing(),
                        o.decode_state.is_failed() ==> old(self).pending_error()
                            == o.decode_state.error_of() || (match o.decode_state.error_of()->0 {
                            WsConnectionError::Timeout => false,
                            WsConnectionError::Io => self.rx.remaining().len() == 0
                                && self.rx.is_closed(),
                            WsConnectionError::FrameDecodeError(fe) => (fe is Io
                                ==> self.rx.remaining().len() == 0 && self.rx.is_closed()) && (!(fe
                                is Io) ==> self.rx.remaining().len() < old(self).rx.remaining().len()),
                            WsConnectionError::UnexpectedFrameKind(_) => self.rx.remaining().len()
                                < old(self).rx.remaining().len(),
                            WsConnectionError::InvalidUtf8 | WsConnectionError::IncompleteUtf8 => old(self).message_kind() is Text,
                        }),

                        !o.decode_state.is_done(),
                        o.decode_state.in_message() || o.decode_state.is_failed(),
                        o.decode_state.is_failed() || o.decode_state.delivered() == old(self).message_delivered(),
                        o.decode_state.message_kind() == old(self).message_kind(),
                    decreases self.rx.remaining().len(), decode_rank(o.decode_state),
                {
                    let ghost pre_tx = self.tx@;
                    let ghost pre_sent = self.sent@;
                    let _ = o.encode_state.poll(&mut self.tx, self.config.mask);
                    proof {
                        lemma_history_sync(
                            self.tx_taken@,
                            pre_tx,
                            self.tx@,
                            pre_sent,
                            o.encode_state.emitted(),
                        );
                    }
                    self.sent = Ghost(o.encode_state.emitted());
                    if o.received_close.is_some() {
                        // The peer has closed: the message cannot complete.
                        self.state = ConnState::Open(o);
                        return ReadStep::Failed;
                    }
                    let ghost pre_decode = o.decode_state;
                    let dr = o.decode_state.poll(&mut self.rx);
                    self.eaten = Ghost(o.decode_state.stream_consumed());
                    proof {
                        pre_decode.lemma_phases();
                        o.decode_state.lemma_phases();
                    }
                    match dr {
                        DecodeReady::MessageData => {
                            let dp = o.decode_state.poll_read(&mut self.rx, max);
                            self.eaten = Ghost(o.decode_state.stream_consumed());
                            proof {
                                o.decode_state.lemma_phases();
                            }
                            match dp {
                                DataPoll::Data(v) => {
                                    if v.len() > 0 {
                                        o.ping_outstanding = false;
                                        self.state = ConnState::Open(o);
                                        return ReadStep::Data(v);
                                    }
                                },
                                DataPoll::Pending => {
                                    self.state = ConnState::Open(o);
                                    return ReadStep::Pending;
                                },
                            }
                        },
                        DecodeReady::MessageEnd => {
                            let _ = o.decode_state.take_message_end();
                            proof {
                                o.decode_state.lemma_phases();
                            }
                            o.reader_is_attached = false;
                            o.ping_outstanding = false;
                            self.state = ConnState::Open(o);
                            return ReadStep::End;
                        },
                        DecodeReady::Control(_) => {
                            o.ping_outstanding = false;
                            match o.decode_state.take_control() {
                                Some(frame) => {
                                    proof {
                                        o.decode_state.lemma_phases();
                                    }
                                    Self::handle_control_frame(&mut o, frame);
                                },
                                None => {
                                    proof {
                                        assert(false);
                                    }
                                },
                            }
                        },
                        DecodeReady::Error => {
                            let e = match o.decode_state.take_err() {
                                Some(e) => e,
                                None => {
                                    proof {
                                        assert(false);
                                    }
                                    WsConnectionError::Io
                                },
                            };
                            Self::queue_error_close(&mut o, e);
                            let ghost pre_tx2 = self.tx@;
                            let ghost pre_sent2 = self.sent@;
                            let _ = o.encode_state.poll(&mut self.tx, self.config.mask);
                            proof {
                                lemma_history_sync(
                                    self.tx_taken@,
                                    pre_tx2,
                                    self.tx@,
                                    pre_sent2,
                                    o.encode_state.emitted(),
                                );
                            }
                            self.sent = Ghost(o.encode_state.emitted());
                            self.state = ConnState::ClosedErr(e);
                            proof {
                                if error_close_code(e) is Some && !old(self).close_queued()
                                    && !old(self).close_received() {
                                    let wit = pre_sent2.len() as int;
                                    assert(has_control(self.frames_sent().skip(wit)));
                                    assert(delta_controls_ok(
                                        Some((WsControlFrameKind::Close, error_close_body(e))),
                                        self.frames_sent().skip(wit),
                                    ));
                                    assert(old(self).frames_sent().len() <= wit <= self.frames_sent().len());
                                }
                            }
                            return ReadStep::Failed;
                        },
                        DecodeReady::Done => {
                            proof {
                                assert(false);
                            }
                            self.state = ConnState::Open(o);
                            return ReadStep::Failed;
                        },
                        DecodeReady::Pending => {
                            self.state = ConnState::Open(o);
                            return ReadStep::Pending;
                        },
                        DecodeReady::MessageStart => {
                            proof {
                                assert(false);
                            }
                            self.state = ConnState::Open(o);
                            return ReadStep::Failed;
                        },
                    }
                }
            },
            other => {
                self.state = other;
                ReadStep::Failed
            },
        }
    }

    /// A reader handle went away; the engine drains what is left of the
    /// message on later polls.
    pub fn detach_reader(&mut self)
        requires
            old(self).wf(),
        ensures
            final(self).wf(),
            !final(self).reader_attached(),
            final(self).is_open() == old(self).is_open(),
            final(self).is_closed_ok() == old(self).is_closed_ok(),
            final(self).is_closed_err() == old(self).is_closed_err(),
            final(self).writer_attached() == old(self).writer_attached(),
            final(self).frames_sent() == old(self).frames_sent(),
            final(self).output_history() == old(self).output_history(),
            final(self).output_pending() == old(self).output_pending(),
            final(self).input_buffered() == old(self).input_buffered(),
            final(self).pending_error() == old(self).pending_error(),
    {
        let mut st = ConnState::ClosedErrConsumed;
        core::mem::swap(&mut st, &mut self.state);
        match st {
            ConnState::Open(mut o) => {
                o.reader_is_attached = false;
                self.state = ConnState::Open(o);
            },
            other => {
                self.state = other;
            },
        }
    }
}

/// Flattening after appending one more sequence appends its elements.
pub proof fn lemma_flatten_push(fs: Seq<Seq<u8>>, x: Seq<u8>)
    ensures
        fs.push(x).flatten() == fs.flatten() + x,
    decreases fs.len(),
{
    if fs.len() == 0 {
        assert(fs.push(x).drop_first() =~= Seq::<Seq<u8>>::empty());
        assert(fs.push(x).flatten() =~= x + Seq::<Seq<u8>>::empty().flatten());
        assert(fs.flatten() + x =~= x);
        assert(fs.push(x).flatten() =~= fs.flatten() + x);
    } else {
        assert(fs.push(x).drop_first() =~= fs.drop_first().push(x));
        assert(fs.push(x)[0] == fs[0]);
        lemma_flatten_push(fs.drop_first(), x);
        assert(fs.push(x).flatten() =~= fs.flatten() + x);
    }
}

} // verus!
