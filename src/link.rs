//! The state machine that each connected peer goes through.
//!
//! A link starts `Connecting`, waits for the peer's `SyncStep1` once it is
//! attached to a session, is `Synced` after the session has answered with
//! `SyncStep2`, and ends `Closed`. A frame that arrives out of turn closes the
//! link; nothing ever leaves `Closed`.
use crate::frame::FrameKind;
use vstd::prelude::*;

verus! {

/// Where a peer link stands in the handshake.
#[derive(Clone, Copy, Debug, PartialEq, Eq, Structural)]
pub enum LinkState {
    Connecting,
    AwaitingSyncStep1,
    Synced,
    Closed,
}

/// What the session does with a frame that a link received.
#[derive(Clone, Copy, Debug, PartialEq, Eq, Structural)]
pub enum LinkAction {
    /// Answer with the update that brings the peer up to date.
    SendSyncStep2,
    /// Merge the payload into the document and pass it on to the other peers.
    ApplyUpdate,
    /// Record the peer's presence and pass it on to the other peers.
    ShareAwareness,
    /// The frame breaks the protocol: close the link.
    Reject,
    /// The link is already closed: drop the frame.
    Ignore,
}

/// The next state and the action for a frame of kind `k` received in state `s`.
pub open spec fn link_step(s: LinkState, k: FrameKind) -> (LinkState, LinkAction) {
    match s {
        LinkState::Closed => (LinkState::Closed, LinkAction::Ignore),
        LinkState::Connecting => (LinkState::Closed, LinkAction::Reject),
        LinkState::AwaitingSyncStep1 => match k {
            FrameKind::SyncStep1 => (LinkState::Synced, LinkAction::SendSyncStep2),
            FrameKind::Awareness => (LinkState::AwaitingSyncStep1, LinkAction::ShareAwareness),
            _ => (LinkState::Closed, LinkAction::Reject),
        },
        LinkState::Synced => match k {
            FrameKind::SyncStep1 => (LinkState::Synced, LinkAction::SendSyncStep2),
            FrameKind::Awareness => (LinkState::Synced, LinkAction::ShareAwareness),
            _ => (LinkState::Synced, LinkAction::ApplyUpdate),
        },
    }
}

/// Steps the link on a received frame of kind `kind`.
pub fn on_frame(state: LinkState, kind: FrameKind) -> (r: (LinkState, LinkAction))
    ensures
        r == link_step(state, kind),
        r.1 == LinkAction::Reject <==> r.0 == LinkState::Closed && state != LinkState::Closed,
        state == LinkState::AwaitingSyncStep1 && kind != FrameKind::SyncStep1 && kind
            != FrameKind::Awareness ==> r.0 == LinkState::Closed,
{
    match state {
        LinkState::Closed => (LinkState::Closed, LinkAction::Ignore),
        LinkState::Connecting => (LinkState::Closed, LinkAction::Reject),
        LinkState::AwaitingSyncStep1 => match kind {
            FrameKind::SyncStep1 => (LinkState::Synced, LinkAction::SendSyncStep2),
            FrameKind::Awareness => (LinkState::AwaitingSyncStep1, LinkAction::ShareAwareness),
            _ => (LinkState::Closed, LinkAction::Reject),
        },
        LinkState::Synced => match kind {
            FrameKind::SyncStep1 => (LinkState::Synced, LinkAction::SendSyncStep2),
            FrameKind::Awareness => (LinkState::Synced, LinkAction::ShareAwareness),
            _ => (LinkState::Synced, LinkAction::ApplyUpdate),
        },
    }
}

/// The state of a link once the transport has been attached to a session.
pub fn on_attach(state: LinkState) -> (r: LinkState)
    ensures
        state == LinkState::Connecting ==> r == LinkState::AwaitingSyncStep1,
        state != LinkState::Connecting ==> r == state,
{
    match state {
        LinkState::Connecting => LinkState::AwaitingSyncStep1,
        _ => state,
    }
}

} // verus!
