//! The sender-side session as a state machine: metadata ingest and
//! registration are separate steps; from registration on, every decision the
//! session takes is the pure transition below, and the surrounding task only
//! performs the returned actions (socket writes, queue sends, registry
//! calls) in order.

use vstd::prelude::*;

verus! {

/// Seconds between keepalive pings while the session idles in
/// `Registered` or `AwaitingReconnect`; the embedding timer ticks at this
/// cadence and each tick is a `PingTick` event.
pub const PING_INTERVAL_SECS: u64 = 15;

/// Seconds a dropped recipient has to reconnect. The window is absolute
/// from entering `AwaitingReconnect`: the embedding sets one deadline when
/// it performs `PutReconnecting` and never resets it; its expiry is the
/// `ReconnectTimeout` event.
pub const RECONNECT_WINDOW_SECS: u64 = 30;

/// Where the sender session stands after registration.
#[derive(Clone, Copy, PartialEq, Eq, Structural, Debug)]
pub enum SenderPhase {
    /// `ready` was sent; waiting for a recipient to attach.
    Registered,
    /// A recipient is attached; binary frames are being relayed.
    Relaying,
    /// The recipient dropped; waiting for a reconnect within the window.
    AwaitingReconnect,
    /// Terminal: the session is over and owns no registry entry.
    Ended,
}

/// One thing the sender session observes.
#[derive(PartialEq, Eq, Debug)]
pub enum SenderEvent {
    /// A binary frame arrived on the sender socket.
    Binary(Vec<u8>),
    /// A text frame arrived whose `type` is `done`.
    DoneFrame,
    /// Any other inbound frame (keepalive pong, stray text).
    OtherFrame,
    /// The sender socket closed or failed fatally.
    Closed,
    /// The rendezvous completed: a recipient attached at this offset.
    Link { resume_offset: u64 },
    /// The rendezvous producer was dropped without delivering a link.
    LinkDropped,
    /// The recipient-side cancel signal fired.
    Cancel,
    /// A send into the data queue failed: the consumer is gone.
    QueueSendFailed,
    /// The keepalive timer ticked.
    PingTick,
    /// The reconnect window expired.
    ReconnectTimeout,
}

/// One thing the sender session does in reaction.
#[derive(PartialEq, Eq, Debug)]
pub enum SenderAction {
    /// Write the `start` message on the sender socket.
    SendStart,
    /// Write the `paused` message.
    SendPaused,
    /// Write the `resume` message with this offset.
    SendResume(u64),
    /// Write the `cancelled` message.
    SendCancelled,
    /// Write a protocol-level ping.
    SendPing,
    /// Put the entry back as `Reconnecting`, with a fresh rendezvous.
    PutReconnecting,
    /// Put the entry back as `Active`.
    PutActive,
    /// Remove the entry from the registry.
    RemoveEntry,
    /// Send these payload bytes into the data queue.
    QueueData(Vec<u8>),
    /// Send `Finished` into the data queue.
    QueueFinished,
    /// Send `Error("Sender disconnected")` into the data queue.
    QueueSenderGone,
}

/// The whole state machine of the sender session, as one transition
/// function: next phase and the actions taken, in order.
pub open spec fn sender_transition(phase: SenderPhase, ev: SenderEvent) -> (
    SenderPhase,
    Seq<SenderAction>,
) {
    match phase {
        SenderPhase::Registered => match ev {
            SenderEvent::Link { .. } => (
                SenderPhase::Relaying,
                seq![SenderAction::SendStart],
            ),
            SenderEvent::LinkDropped => (SenderPhase::Ended, seq![SenderAction::RemoveEntry]),
            SenderEvent::Closed => (SenderPhase::Ended, seq![SenderAction::RemoveEntry]),
            SenderEvent::PingTick => (SenderPhase::Registered, seq![SenderAction::SendPing]),
            _ => (SenderPhase::Registered, Seq::empty()),
        },
        SenderPhase::Relaying => match ev {
            SenderEvent::Binary(b) => (SenderPhase::Relaying, seq![SenderAction::QueueData(b)]),
            SenderEvent::DoneFrame => (
                SenderPhase::Ended,
                seq![SenderAction::QueueFinished, SenderAction::RemoveEntry],
            ),
            SenderEvent::Closed => (
                SenderPhase::Ended,
                seq![SenderAction::QueueSenderGone, SenderAction::RemoveEntry],
            ),
            SenderEvent::Cancel => (
                SenderPhase::AwaitingReconnect,
                seq![SenderAction::PutReconnecting, SenderAction::SendPaused],
            ),
            SenderEvent::QueueSendFailed => (
                SenderPhase::AwaitingReconnect,
                seq![SenderAction::PutReconnecting, SenderAction::SendPaused],
            ),
            _ => (SenderPhase::Relaying, Seq::empty()),
        },
        SenderPhase::AwaitingReconnect => match ev {
            SenderEvent::Link { resume_offset } => (
                SenderPhase::Relaying,
                seq![SenderAction::SendResume(resume_offset), SenderAction::PutActive],
            ),
            SenderEvent::LinkDropped => (
                SenderPhase::Ended,
                seq![SenderAction::SendCancelled, SenderAction::RemoveEntry],
            ),
            SenderEvent::ReconnectTimeout => (
                SenderPhase::Ended,
                seq![SenderAction::RemoveEntry, SenderAction::SendCancelled],
            ),
            SenderEvent::Closed => (SenderPhase::Ended, seq![SenderAction::RemoveEntry]),
            SenderEvent::PingTick => (
                SenderPhase::AwaitingReconnect,
                seq![SenderAction::SendPing],
            ),
            _ => (SenderPhase::AwaitingReconnect, Seq::empty()),
        },
        SenderPhase::Ended => (SenderPhase::Ended, Seq::empty()),
    }
}

/// Executable form of `sender_transition`.
pub fn sender_step(phase: SenderPhase, ev: SenderEvent) -> (r: (SenderPhase, Vec<SenderAction>))
    ensures
        r.0 == sender_transition(phase, ev).0,
        r.1@ == sender_transition(phase, ev).1,
{
    let r: (SenderPhase, Vec<SenderAction>) = match phase {
        SenderPhase::Registered => match ev {
            SenderEvent::Link { .. } => (SenderPhase::Relaying, vec![SenderAction::SendStart]),
            SenderEvent::LinkDropped => (SenderPhase::Ended, vec![SenderAction::RemoveEntry]),
            SenderEvent::Closed => (SenderPhase::Ended, vec![SenderAction::RemoveEntry]),
            SenderEvent::PingTick => (SenderPhase::Registered, vec![SenderAction::SendPing]),
            _ => (SenderPhase::Registered, Vec::new()),
        },
        SenderPhase::Relaying => match ev {
            SenderEvent::Binary(b) => (SenderPhase::Relaying, vec![SenderAction::QueueData(b)]),
            SenderEvent::DoneFrame => (
                SenderPhase::Ended,
                vec![SenderAction::QueueFinished, SenderAction::RemoveEntry],
            ),
            SenderEvent::Closed => (
                SenderPhase::Ended,
                vec![SenderAction::QueueSenderGone, SenderAction::RemoveEntry],
            ),
            SenderEvent::Cancel => (
                SenderPhase::AwaitingReconnect,
                vec![SenderAction::PutReconnecting, SenderAction::SendPaused],
            ),
            SenderEvent::QueueSendFailed => (
                SenderPhase::AwaitingReconnect,
                vec![SenderAction::PutReconnecting, SenderAction::SendPaused],
            ),
            _ => (SenderPhase::Relaying, Vec::new()),
        },
        SenderPhase::AwaitingReconnect => match ev {
            SenderEvent::Link { resume_offset } => (
                SenderPhase::Relaying,
                vec![SenderAction::SendResume(resume_offset), SenderAction::PutActive],
            ),
            SenderEvent::LinkDropped => (
                SenderPhase::Ended,
                vec![SenderAction::SendCancelled, SenderAction::RemoveEntry],
            ),
            SenderEvent::ReconnectTimeout => (
                SenderPhase::Ended,
                vec![SenderAction::RemoveEntry, SenderAction::SendCancelled],
            ),
            SenderEvent::Closed => (SenderPhase::Ended, vec![SenderAction::RemoveEntry]),
            SenderEvent::PingTick => (
                SenderPhase::AwaitingReconnect,
                vec![SenderAction::SendPing],
            ),
            _ => (SenderPhase::AwaitingReconnect, Vec::new()),
        },
        SenderPhase::Ended => (SenderPhase::Ended, Vec::new()),
    };
    proof {
        assert(r.1@ =~= sender_transition(phase, ev).1);
    }
    r
}

} // verus!
