//! The recipient-side session: the atomic claim of a pending transfer, and
//! the pump that drains the data queue onto the recipient socket. As on the
//! sender side, all decisions are pure functions; the surrounding task only
//! performs the returned actions in order.

use vstd::prelude::*;
use crate::messages::{metadata_msg, metadata_text_of, not_found_msg};
use crate::meta::FileMetadata;
use crate::registry::{TransferEntry, TransferRegistry};
use crate::relay::RelayMessage;

verus! {

/// Whether a claim on `id` would succeed against registry contents `m`.
pub open spec fn claimable<L>(m: Map<Seq<char>, TransferEntry<L>>, id: Seq<char>) -> bool {
    m.contains_key(id) && m[id].is_claimable()
}

/// The claim: atomically removes the entry for `id` and hands its metadata
/// and rendezvous link to the caller, exactly when the entry was in a
/// claimable state. Whatever was found, `id` is no longer present
/// afterwards; a non-claimable entry is dropped, never handed out.
pub fn claim<L>(reg: &mut TransferRegistry<L>, id: &String) -> (r: Option<(FileMetadata, L)>)
    requires
        old(reg).wf(),
    ensures
        final(reg).wf(),
        final(reg)@ == old(reg)@.remove(id@),
        match r {
            Some(p) => claimable(old(reg)@, id@) && p.0 == old(reg)@[id@].spec_metadata() && p.1
                == old(reg)@[id@].spec_link(),
            None => !claimable(old(reg)@, id@),
        },
{
    let taken = reg.take(id);
    proof {
        if taken is None {
            assert(old(reg)@ =~= old(reg)@.remove(id@));
        }
    }
    match taken {
        Some(TransferEntry::WaitingForRecipient { metadata, link }) => Some((metadata, link)),
        Some(TransferEntry::Reconnecting { metadata, link }) => Some((metadata, link)),
        _ => None,
    }
}

/// What a recipient's connection attempt comes to.
pub enum AttachOutcome<L> {
    /// The claim succeeded: write `metadata_text` on the recipient socket,
    /// then publish the fresh queue through `link` and pump.
    Attached { metadata_text: String, metadata: FileMetadata, link: L },
    /// No claimable entry: write `error_text` and close.
    Refused { error_text: String },
}

/// The claim step of the recipient session, with the first frame to write
/// in either outcome: the `metadata` message on success, the
/// not-found/already-claimed `error` otherwise.
pub fn recipient_attach<L>(reg: &mut TransferRegistry<L>, id: &String) -> (r: AttachOutcome<L>)
    requires
        old(reg).wf(),
    ensures
        final(reg).wf(),
        final(reg)@ == old(reg)@.remove(id@),
        r is Attached <==> claimable(old(reg)@, id@),
        r is Attached ==> r->Attached_metadata == old(reg)@[id@].spec_metadata()
            && r->Attached_link == old(reg)@[id@].spec_link() && r->Attached_metadata_text@
            == metadata_text_of(old(reg)@[id@].spec_metadata()),
        r is Refused ==> r->Refused_error_text@
            == "{\"type\":\"error\",\"error\":\"Transfer not found or already claimed\"}"@,
{
    match claim(reg, id) {
        Some((metadata, link)) => {
            let metadata_text = metadata_msg(&metadata);
            AttachOutcome::Attached { metadata_text, metadata, link }
        },
        None => AttachOutcome::Refused { error_text: not_found_msg() },
    }
}

/// One thing the recipient's pump observes.
#[derive(PartialEq, Eq, Debug)]
pub enum RecvEvent {
    /// A message came out of the data queue.
    Queue(RelayMessage),
    /// The data queue closed: the producer (the sender session) is gone.
    QueueClosed,
    /// The recipient socket closed or failed fatally on read.
    SocketClosed,
    /// A binary write on the recipient socket failed.
    WriteFailed,
}

/// One thing the recipient's pump does in reaction.
#[derive(PartialEq, Eq, Debug)]
pub enum RecvAction {
    /// Write the `metadata` message (only ever the session's first write,
    /// before the pump starts).
    WriteMetadata(FileMetadata),
    /// Write these payload bytes as one binary frame.
    WriteBinary(Vec<u8>),
    /// Write the `done` message.
    WriteDone,
    /// Write an `error` message with this detail.
    WriteError(String),
    /// Write the "Sender disconnected" `error` message.
    WriteSenderGone,
    /// Fire the cancel signal towards the sender session.
    SignalCancel,
}

/// The recipient pump's transition: whether the session terminates, and the
/// actions taken. Only a data payload keeps the pump running.
pub open spec fn recv_transition(ev: RecvEvent) -> (bool, Seq<RecvAction>) {
    match ev {
        RecvEvent::Queue(RelayMessage::Data(b)) => (false, seq![RecvAction::WriteBinary(b)]),
        RecvEvent::Queue(RelayMessage::Finished) => (true, seq![RecvAction::WriteDone]),
        RecvEvent::Queue(RelayMessage::Error(e)) => (true, seq![RecvAction::WriteError(e)]),
        RecvEvent::QueueClosed => (true, seq![RecvAction::WriteSenderGone]),
        RecvEvent::SocketClosed => (true, seq![RecvAction::SignalCancel]),
        RecvEvent::WriteFailed => (true, seq![RecvAction::SignalCancel]),
    }
}

/// Executable form of `recv_transition`. The first component says whether
/// the session is over.
pub fn recv_step(ev: RecvEvent) -> (r: (bool, Vec<RecvAction>))
    ensures
        r.0 == recv_transition(ev).0,
        r.1@ == recv_transition(ev).1,
{
    let r: (bool, Vec<RecvAction>) = match ev {
        RecvEvent::Queue(RelayMessage::Data(b)) => (false, vec![RecvAction::WriteBinary(b)]),
        RecvEvent::Queue(RelayMessage::Finished) => (true, vec![RecvAction::WriteDone]),
        RecvEvent::Queue(RelayMessage::Error(e)) => (true, vec![RecvAction::WriteError(e)]),
        RecvEvent::QueueClosed => (true, vec![RecvAction::WriteSenderGone]),
        RecvEvent::SocketClosed => (true, vec![RecvAction::SignalCancel]),
        RecvEvent::WriteFailed => (true, vec![RecvAction::SignalCancel]),
    };
    proof {
        assert(r.1@ =~= recv_transition(ev).1);
    }
    r
}

/// Law: after a successful claim on `id`, every further claim on `id` is
/// refused — both right after the claim (the entry is gone) and after the
/// winner marks the transfer `Active`. Concurrent claims serialize through
/// the registry's atomic take, so of N racing claims exactly the first can
/// find a claimable entry.
pub proof fn lemma_second_claim_refused<L>(m: Map<Seq<char>, TransferEntry<L>>, id: Seq<char>)
    ensures
        !claimable(m.remove(id), id),
        !claimable(m.remove(id).insert(id, TransferEntry::<L>::Active), id),
{
}

/// Law: a `put` of a `Reconnecting` entry between two claims makes the
/// second claim succeed as well — the first claims `WaitingForRecipient`,
/// the second claims `Reconnecting`.
pub proof fn lemma_reconnect_claimable_again<L>(
    m: Map<Seq<char>, TransferEntry<L>>,
    id: Seq<char>,
    metadata: FileMetadata,
    link: L,
)
    ensures
        claimable(m.remove(id).insert(id, TransferEntry::Reconnecting { metadata, link }), id),
{
}

} // verus!
