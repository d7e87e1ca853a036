use crate::connection::WsConnectionError;
use crate::frame::WsControlFramePayload;
use vstd::prelude::*;

verus! {

/// The close handshake's progress as one algebra: whether a local Close is
/// queued or sent, and whether the peer's Close has been received.
///
/// The connection engine tracks the same progress through its
/// `received_close` record together with the encoder's queued-Close and
/// closing phases, because the Close frame itself must travel through the
/// encoder's single control slot; this type states the handshake's state
/// table on its own, with each transition proved and tested in one place.
#[derive(Debug)]
pub enum CloseState {
    /// Neither side has closed.
    Open,
    /// A local Close waits to be sent.
    Queued(WsControlFramePayload),
    /// The local Close has been sent.
    Sent(WsControlFramePayload),
    /// The peer's Close arrived; the local Close still waits to be sent.
    ReceivedQueued(WsControlFramePayload),
    /// Both Close frames have been observed.
    ReceivedSent(WsControlFramePayload),
}

impl CloseState {
    pub open spec fn is_open(self) -> bool {
        self is Open
    }

    pub open spec fn payload_bytes(self) -> Seq<u8> {
        match self {
            CloseState::Open => Seq::empty(),
            CloseState::Queued(p) => p.view_bytes(),
            CloseState::Sent(p) => p.view_bytes(),
            CloseState::ReceivedQueued(p) => p.view_bytes(),
            CloseState::ReceivedSent(p) => p.view_bytes(),
        }
    }

    pub open spec fn wf(self) -> bool {
        match self {
            CloseState::Open => true,
            CloseState::Queued(p) => p.wf(),
            CloseState::Sent(p) => p.wf(),
            CloseState::ReceivedQueued(p) => p.wf(),
            CloseState::ReceivedSent(p) => p.wf(),
        }
    }

    /// A Close may still be sent: none has gone out yet.
    pub open spec fn open_for_sending_spec(self) -> bool {
        self is Open || self is ReceivedQueued || self is Queued
    }

    /// Frames may still be received: the peer has not closed.
    pub open spec fn open_for_receiving_spec(self) -> bool {
        self is Open || self is Queued || self is Sent
    }

    /// The peer's Close arrived with this body; an echo becomes queued if
    /// nothing was queued or sent yet.
    pub fn receive(&mut self, payload: WsControlFramePayload)
        requires
            old(self).wf(),
            payload.wf(),
            old(self).open_for_receiving_spec(),
        ensures
            final(self).wf(),
            !final(self).open_for_receiving_spec(),
            match *old(self) {
                CloseState::Open => (*final(self)) is ReceivedQueued && final(self).payload_bytes()
                    == payload.view_bytes(),
                CloseState::Queued(_) => (*final(self)) is ReceivedQueued && final(self).payload_bytes() == old(self).payload_bytes(),
                CloseState::Sent(_) => (*final(self)) is ReceivedSent && final(self).payload_bytes()
                    == old(self).payload_bytes(),
                _ => false,
            },
    {
        let mut st = CloseState::Open;
        core::mem::swap(&mut st, self);
        match st {
            CloseState::Open => {
                *self = CloseState::ReceivedQueued(payload);
            },
            CloseState::Queued(p) => {
                *self = CloseState::ReceivedQueued(p);
            },
            CloseState::Sent(p) => {
                *self = CloseState::ReceivedSent(p);
            },
            other => {
                *self = other;
                proof {
                    assert(false);
                }
            },
        }
    }

    /// Queue a local Close; only one may ever be queued.
    pub fn queue(&mut self, payload: WsControlFramePayload)
        requires
            old(self).wf(),
            payload.wf(),
            (*old(self)) is Open,
        ensures
            final(self).wf(),
            (*final(self)) is Queued,
            final(self).payload_bytes() == payload.view_bytes(),
    {
        *self = CloseState::Queued(payload);
    }

    /// Whether a local Close waits to be sent.
    pub fn queued(&self) -> (r: bool)
        ensures
            r == (self is Queued || self is ReceivedQueued),
    {
        matches!(self, CloseState::Queued(_) | CloseState::ReceivedQueued(_))
    }

    /// Move a queued Close to sent and hand its body out for transmission.
    pub fn unqueue(&mut self) -> (r: Option<WsControlFramePayload>)
        requires
            old(self).wf(),
        ensures
            final(self).wf(),
            final(self).payload_bytes() == old(self).payload_bytes(),
            match *old(self) {
                CloseState::Queued(_) => r is Some && r->0.view_bytes() == old(self).payload_bytes() && (*final(self)) is Sent,
                CloseState::ReceivedQueued(_) => r is Some && r->0.view_bytes() == old(self).payload_bytes() && (*final(self)) is ReceivedSent,
                _ => r is None && *final(self) == *old(self),
            },
    {
        let mut st = CloseState::Open;
        core::mem::swap(&mut st, self);
        match st {
            CloseState::Queued(p) => {
                let out = p.duplicate();
                *self = CloseState::Sent(p);
                Some(out)
            },
            CloseState::ReceivedQueued(p) => {
                let out = p.duplicate();
                *self = CloseState::ReceivedSent(p);
                Some(out)
            },
            other => {
                *self = other;
                None
            },
        }
    }

    /// A receive-side error closed the connection: record the peer as done
    /// and queue `payload` (a protocol-error Close) if nothing was queued or
    /// sent yet.
    pub fn receive_err(&mut self, payload: WsControlFramePayload)
        requires
            old(self).wf(),
            payload.wf(),
        ensures
            final(self).wf(),
            !final(self).open_for_receiving_spec(),
            match *old(self) {
                CloseState::Open => (*final(self)) is ReceivedQueued && final(self).payload_bytes()
                    == payload.view_bytes(),
                CloseState::Queued(_) => (*final(self)) is ReceivedQueued && final(self).payload_bytes() == old(self).payload_bytes(),
                CloseState::Sent(_) => (*final(self)) is ReceivedSent && final(self).payload_bytes()
                    == old(self).payload_bytes(),
                _ => *final(self) == *old(self),
            },
    {
        let mut st = CloseState::Open;
        core::mem::swap(&mut st, self);
        match st {
            CloseState::Open => {
                *self = CloseState::ReceivedQueued(payload);
            },
            CloseState::Queued(p) => {
                *self = CloseState::ReceivedQueued(p);
            },
            CloseState::Sent(p) => {
                *self = CloseState::ReceivedSent(p);
            },
            other => {
                *self = other;
            },
        }
    }

    /// A write error closed the connection for good: nothing further can be
    /// sent or received.
    pub fn write_err(&mut self, payload: WsControlFramePayload) -> (r: WsConnectionError)
        requires
            old(self).wf(),
            payload.wf(),
        ensures
            final(self).wf(),
            r == WsConnectionError::Io,
            (*final(self)) is ReceivedSent,
            !final(self).open_for_sending_spec(),
            !final(self).open_for_receiving_spec(),
            match *old(self) {
                CloseState::Open => final(self).payload_bytes() == payload.view_bytes(),
                _ => final(self).payload_bytes() == old(self).payload_bytes(),
            },
    {
        let mut st = CloseState::Open;
        core::mem::swap(&mut st, self);
        match st {
            CloseState::Open => {
                *self = CloseState::ReceivedSent(payload);
            },
            CloseState::Queued(p) => {
                *self = CloseState::ReceivedSent(p);
            },
            CloseState::Sent(p) => {
                *self = CloseState::ReceivedSent(p);
            },
            CloseState::ReceivedQueued(p) => {
                *self = CloseState::ReceivedSent(p);
            },
            CloseState::ReceivedSent(p) => {
                *self = CloseState::ReceivedSent(p);
            },
        }
        WsConnectionError::Io
    }

    /// A Close may still be sent.
    pub fn open_for_sending(&self) -> (r: bool)
        ensures
            r == self.open_for_sending_spec(),
    {
        matches!(
            self,
            CloseState::Open | CloseState::ReceivedQueued(_) | CloseState::Queued(_),
        )
    }

    /// Frames may still be received.
    pub fn open_for_receiving(&self) -> (r: bool)
        ensures
            r == self.open_for_receiving_spec(),
    {
        matches!(self, CloseState::Open | CloseState::Queued(_) | CloseState::Sent(_))
    }
}

} // verus!
