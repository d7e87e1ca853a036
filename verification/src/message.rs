use crate::frame::WsDataFrameKind;
use vstd::prelude::*;

verus! {

/// The two logical message kinds of the protocol.
#[derive(Clone, Copy, Debug, PartialEq, Eq, Structural)]
pub enum WsMessageKind {
    Binary,
    Text,
}

impl WsMessageKind {
    /// The data-frame kind that starts a message of this kind.
    pub fn frame_kind(&self) -> (k: WsDataFrameKind)
        ensures
            k == self.frame_kind_spec(),
    {
        match self {
            WsMessageKind::Binary => WsDataFrameKind::Binary,
            WsMessageKind::Text => WsDataFrameKind::Text,
        }
    }

    pub open spec fn frame_kind_spec(self) -> WsDataFrameKind {
        match self {
            WsMessageKind::Binary => WsDataFrameKind::Binary,
            WsMessageKind::Text => WsDataFrameKind::Text,
        }
    }
}

} // verus!
