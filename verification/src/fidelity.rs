//! Session-trace laws: what running the sender and recipient machines over
//! whole event sequences guarantees — payload fidelity, registry
//! cleanliness at session end, and metadata precedence.

use vstd::prelude::*;
use crate::meta::FileMetadata;
use crate::recipient::{recv_transition, RecvAction, RecvEvent};
use crate::relay::RelayMessage;
use crate::sender::{sender_transition, SenderAction, SenderEvent, SenderPhase};

verus! {

/// Folding the sender machine over a sequence of events: the final phase
/// and all actions taken, in order.
pub open spec fn sender_run(phase: SenderPhase, evs: Seq<SenderEvent>) -> (
    SenderPhase,
    Seq<SenderAction>,
)
    decreases evs.len(),
{
    if evs.len() == 0 {
        (phase, Seq::empty())
    } else {
        let step = sender_transition(phase, evs[0]);
        let rest = sender_run(step.0, evs.skip(1));
        (rest.0, step.1 + rest.1)
    }
}

/// The payloads a sequence of sender actions sends into the data queue.
pub open spec fn queued_payloads(acts: Seq<SenderAction>) -> Seq<Vec<u8>>
    decreases acts.len(),
{
    if acts.len() == 0 {
        Seq::empty()
    } else {
        (match acts[0] {
            SenderAction::QueueData(b) => seq![b],
            _ => Seq::empty(),
        }) + queued_payloads(acts.skip(1))
    }
}

/// The payloads of the binary frames in a sequence of sender events.
pub open spec fn binary_payloads(evs: Seq<SenderEvent>) -> Seq<Vec<u8>>
    decreases evs.len(),
{
    if evs.len() == 0 {
        Seq::empty()
    } else {
        (match evs[0] {
            SenderEvent::Binary(b) => seq![b],
            _ => Seq::empty(),
        }) + binary_payloads(evs.skip(1))
    }
}

proof fn lemma_queued_payloads_append(a: Seq<SenderAction>, b: Seq<SenderAction>)
    ensures
        queued_payloads(a + b) == queued_payloads(a) + queued_payloads(b),
    decreases a.len(),
{
    if a.len() == 0 {
        assert(a + b =~= b);
        assert(queued_payloads(a) + queued_payloads(b) =~= queued_payloads(b));
    } else {
        assert((a + b).skip(1) =~= a.skip(1) + b);
        assert((a + b)[0] == a[0]);
        lemma_queued_payloads_append(a.skip(1), b);
        assert((match a[0] {
            SenderAction::QueueData(bb) => seq![bb],
            _ => Seq::empty(),
        }) + (queued_payloads(a.skip(1)) + queued_payloads(b)) =~= queued_payloads(a)
            + queued_payloads(b));
    }
}

proof fn lemma_queued_payloads_single(a: SenderAction)
    ensures
        queued_payloads(seq![a]) == (match a {
            SenderAction::QueueData(b) => seq![b],
            _ => Seq::<Vec<u8>>::empty(),
        }),
{
    let s = seq![a];
    assert(s.len() == 1);
    assert(s[0] == a);
    assert(s.skip(1) =~= Seq::<SenderAction>::empty());
    assert(queued_payloads(s.skip(1)) == Seq::<Vec<u8>>::empty());
    assert(queued_payloads(s) == (match s[0] {
        SenderAction::QueueData(b) => seq![b],
        _ => Seq::empty(),
    }) + queued_payloads(s.skip(1)));
    match a {
        SenderAction::QueueData(b) => {
            assert(queued_payloads(s) =~= seq![b]);
        },
        _ => {
            assert(queued_payloads(s) =~= Seq::<Vec<u8>>::empty());
        },
    }
}

/// The payloads one step from `Relaying` sends into the queue: the frame's
/// bytes for a binary frame, nothing for anything else.
proof fn lemma_sender_step_payloads(ev: SenderEvent)
    ensures
        queued_payloads(sender_transition(SenderPhase::Relaying, ev).1) == (match ev {
            SenderEvent::Binary(b) => seq![b],
            _ => Seq::<Vec<u8>>::empty(),
        }),
{
    let acts = sender_transition(SenderPhase::Relaying, ev).1;
    match ev {
        SenderEvent::Binary(b) => {
            lemma_queued_payloads_single(SenderAction::QueueData(b));
        },
        _ => {
            if acts.len() == 0 {
            } else if acts.len() == 1 {
                lemma_queued_payloads_single(acts[0]);
                assert(acts =~= seq![acts[0]]);
            } else {
                assert(acts.len() == 2);
                assert(acts =~= seq![acts[0]] + seq![acts[1]]);
                lemma_queued_payloads_append(seq![acts[0]], seq![acts[1]]);
                lemma_queued_payloads_single(acts[0]);
                lemma_queued_payloads_single(acts[1]);
                assert(queued_payloads(acts) =~= Seq::<Vec<u8>>::empty());
            }
        },
    }
}

/// Law (payload fidelity, sender side): as long as the session stays in
/// `Relaying`, the payloads it sends into the data queue are exactly the
/// payloads of the binary frames it received, in order, with no duplication
/// or gap — whatever other events are interleaved, and whichever event ends
/// the segment.
pub proof fn lemma_relay_segment_fidelity(evs: Seq<SenderEvent>)
    requires
        forall|i: int|
            0 < i < evs.len() ==> (#[trigger] sender_run(
                SenderPhase::Relaying,
                evs.take(i),
            )).0 is Relaying,
    ensures
        queued_payloads(sender_run(SenderPhase::Relaying, evs).1) == binary_payloads(evs),
    decreases evs.len(),
{
    if evs.len() == 0 {
    } else {
        let step = sender_transition(SenderPhase::Relaying, evs[0]);
        let rest = sender_run(step.0, evs.skip(1));
        lemma_queued_payloads_append(step.1, rest.1);
        lemma_sender_step_payloads(evs[0]);
        if evs.len() == 1 {
            assert(evs.skip(1) =~= Seq::<SenderEvent>::empty());
            assert(rest.1 == Seq::<SenderAction>::empty());
            assert(queued_payloads(rest.1) == Seq::<Vec<u8>>::empty());
            assert(binary_payloads(evs.skip(1)) == Seq::<Vec<u8>>::empty());
            assert(queued_payloads(step.1 + rest.1) =~= binary_payloads(evs));
        } else {
            assert(evs.take(1).len() == 1);
            assert(evs.take(1)[0] == evs[0]);
            assert(evs.take(1).skip(1) =~= Seq::<SenderEvent>::empty());
            assert(sender_run(step.0, evs.take(1).skip(1)).0 == step.0);
            assert(sender_run(SenderPhase::Relaying, evs.take(1)).0 == step.0);
            assert(step.0 is Relaying);
            assert(step.0 == SenderPhase::Relaying);
            assert forall|i: int|
                0 < i < evs.skip(1).len() implies (#[trigger] sender_run(
                SenderPhase::Relaying,
                evs.skip(1).take(i),
            )).0 is Relaying by {
                assert(evs.take(i + 1).skip(1) =~= evs.skip(1).take(i));
                assert(evs.take(i + 1)[0] == evs[0]);
                assert(sender_run(SenderPhase::Relaying, evs.take(i + 1)).0 == sender_run(
                    SenderPhase::Relaying,
                    evs.skip(1).take(i),
                ).0);
            }
            lemma_relay_segment_fidelity(evs.skip(1));
            assert(queued_payloads(step.1) + binary_payloads(evs.skip(1)) =~= binary_payloads(
                evs,
            ));
        }
    }
}

/// Folding the recipient pump over a sequence of events; the fold stops at
/// the first terminating event.
pub open spec fn recv_run(evs: Seq<RecvEvent>) -> Seq<RecvAction>
    decreases evs.len(),
{
    if evs.len() == 0 {
        Seq::empty()
    } else {
        let step = recv_transition(evs[0]);
        if step.0 {
            step.1
        } else {
            step.1 + recv_run(evs.skip(1))
        }
    }
}

/// The payloads a sequence of recipient actions writes as binary frames.
pub open spec fn written_payloads(acts: Seq<RecvAction>) -> Seq<Vec<u8>>
    decreases acts.len(),
{
    if acts.len() == 0 {
        Seq::empty()
    } else {
        (match acts[0] {
            RecvAction::WriteBinary(b) => seq![b],
            _ => Seq::empty(),
        }) + written_payloads(acts.skip(1))
    }
}

/// The data payloads at the head of the recipient's event sequence, up to
/// the first event that is not a data payload.
pub open spec fn delivered_prefix(evs: Seq<RecvEvent>) -> Seq<Vec<u8>>
    decreases evs.len(),
{
    if evs.len() == 0 {
        Seq::empty()
    } else {
        match evs[0] {
            RecvEvent::Queue(RelayMessage::Data(b)) => seq![b] + delivered_prefix(evs.skip(1)),
            _ => Seq::empty(),
        }
    }
}

proof fn lemma_written_payloads_append(a: Seq<RecvAction>, b: Seq<RecvAction>)
    ensures
        written_payloads(a + b) == written_payloads(a) + written_payloads(b),
    decreases a.len(),
{
    if a.len() == 0 {
        assert(a + b =~= b);
        assert(written_payloads(a) + written_payloads(b) =~= written_payloads(b));
    } else {
        assert((a + b).skip(1) =~= a.skip(1) + b);
        assert((a + b)[0] == a[0]);
        lemma_written_payloads_append(a.skip(1), b);
        assert((match a[0] {
            RecvAction::WriteBinary(bb) => seq![bb],
            _ => Seq::empty(),
        }) + (written_payloads(a.skip(1)) + written_payloads(b)) =~= written_payloads(a)
            + written_payloads(b));
    }
}

proof fn lemma_written_payloads_single(a: RecvAction)
    ensures
        written_payloads(seq![a]) == (match a {
            RecvAction::WriteBinary(b) => seq![b],
            _ => Seq::<Vec<u8>>::empty(),
        }),
{
    let s = seq![a];
    assert(s.len() == 1);
    assert(s[0] == a);
    assert(s.skip(1) =~= Seq::<RecvAction>::empty());
    assert(written_payloads(s.skip(1)) == Seq::<Vec<u8>>::empty());
    assert(written_payloads(s) == (match s[0] {
        RecvAction::WriteBinary(b) => seq![b],
        _ => Seq::empty(),
    }) + written_payloads(s.skip(1)));
    match a {
        RecvAction::WriteBinary(b) => {
            assert(written_payloads(s) =~= seq![b]);
        },
        _ => {
            assert(written_payloads(s) =~= Seq::<Vec<u8>>::empty());
        },
    }
}

/// Law (payload fidelity, recipient side): the pump writes exactly the data
/// payloads the queue delivered to it, in order, however the session ends.
pub proof fn lemma_recipient_writes_in_order(evs: Seq<RecvEvent>)
    ensures
        written_payloads(recv_run(evs)) == delivered_prefix(evs),
    decreases evs.len(),
{
    if evs.len() == 0 {
    } else {
        let step = recv_transition(evs[0]);
        assert(step.1.len() == 1);
        assert(step.1 =~= seq![step.1[0]]);
        lemma_written_payloads_single(step.1[0]);
        if step.0 {
            assert(written_payloads(recv_run(evs)) =~= delivered_prefix(evs));
        } else {
            lemma_written_payloads_append(step.1, recv_run(evs.skip(1)));
            lemma_recipient_writes_in_order(evs.skip(1));
            assert(written_payloads(recv_run(evs)) =~= delivered_prefix(evs));
        }
    }
}

/// Law (payload fidelity, end to end): if the queue delivers to the
/// recipient exactly what the sender session enqueued — which the bounded
/// FIFO queue with its single producer and single consumer guarantees —
/// then the bytes written to the recipient are exactly the bytes the sender
/// sent from the resume offset onward, in order.
pub proof fn lemma_payload_fidelity(sender_evs: Seq<SenderEvent>, recv_evs: Seq<RecvEvent>)
    requires
        forall|i: int|
            0 < i < sender_evs.len() ==> (#[trigger] sender_run(
                SenderPhase::Relaying,
                sender_evs.take(i),
            )).0 is Relaying,
        delivered_prefix(recv_evs) == queued_payloads(
            sender_run(SenderPhase::Relaying, sender_evs).1,
        ),
    ensures
        written_payloads(recv_run(recv_evs)) == binary_payloads(sender_evs),
{
    lemma_relay_segment_fidelity(sender_evs);
    lemma_recipient_writes_in_order(recv_evs);
}

/// Whether this transfer's id is still present in the registry after one
/// sender action, given whether it was present before.
pub open spec fn id_present_after(present: bool, a: SenderAction) -> bool {
    match a {
        SenderAction::PutReconnecting => true,
        SenderAction::PutActive => true,
        SenderAction::RemoveEntry => false,
        _ => present,
    }
}

/// The same, folded over a sequence of actions.
pub open spec fn id_present_after_all(present: bool, acts: Seq<SenderAction>) -> bool
    decreases acts.len(),
{
    if acts.len() == 0 {
        present
    } else {
        id_present_after_all(id_present_after(present, acts[0]), acts.skip(1))
    }
}

proof fn lemma_id_present_append(present: bool, a: Seq<SenderAction>, b: Seq<SenderAction>)
    ensures
        id_present_after_all(present, a + b) == id_present_after_all(
            id_present_after_all(present, a),
            b,
        ),
    decreases a.len(),
{
    if a.len() == 0 {
        assert(a + b =~= b);
    } else {
        assert((a + b).skip(1) =~= a.skip(1) + b);
        assert((a + b)[0] == a[0]);
        lemma_id_present_append(id_present_after(present, a[0]), a.skip(1), b);
    }
}

proof fn lemma_id_present_single(p: bool, a: SenderAction)
    ensures
        id_present_after_all(p, seq![a]) == id_present_after(p, a),
{
    let s = seq![a];
    assert(s.len() == 1);
    assert(s[0] == a);
    assert(s.skip(1) =~= Seq::<SenderAction>::empty());
    assert(id_present_after_all(id_present_after(p, a), s.skip(1)) == id_present_after(p, a));
    assert(id_present_after_all(p, s) == id_present_after(p, a));
}

/// Every transition into the terminal phase leaves the registry without
/// this transfer's entry: the removal is part of the same step.
proof fn lemma_step_to_ended_removes(phase: SenderPhase, ev: SenderEvent, present: bool)
    requires
        !(phase is Ended),
        sender_transition(phase, ev).0 is Ended,
    ensures
        !id_present_after_all(present, sender_transition(phase, ev).1),
{
    let acts = sender_transition(phase, ev).1;
    assert(1 <= acts.len() <= 2);
    if acts.len() == 1 {
        assert(acts =~= seq![acts[0]]);
        lemma_id_present_single(present, acts[0]);
        assert(acts[0] == SenderAction::RemoveEntry);
    } else {
        assert(acts =~= seq![acts[0]] + seq![acts[1]]);
        lemma_id_present_append(present, seq![acts[0]], seq![acts[1]]);
        lemma_id_present_single(present, acts[0]);
        lemma_id_present_single(id_present_after(present, acts[0]), acts[1]);
        assert(acts[0] == SenderAction::RemoveEntry || acts[1] == SenderAction::RemoveEntry);
        assert(!(acts[0] is PutReconnecting) && !(acts[0] is PutActive));
        assert(!(acts[1] is PutReconnecting) && !(acts[1] is PutActive));
    }
}

/// Law (registry cleanliness): when the sender session reaches its terminal
/// phase, its registry entry is gone — whatever the events were, and
/// whether the entry was present at the start of the run or not. Together
/// with the claim's remove-on-take and the cleaner's sweep, no entry
/// outlives its sockets.
pub proof fn lemma_session_end_cleans_registry(
    phase: SenderPhase,
    evs: Seq<SenderEvent>,
    present: bool,
)
    requires
        phase is Ended ==> !present,
        sender_run(phase, evs).0 is Ended,
    ensures
        !id_present_after_all(present, sender_run(phase, evs).1),
    decreases evs.len(),
{
    if evs.len() == 0 {
    } else {
        let step = sender_transition(phase, evs[0]);
        lemma_id_present_append(present, step.1, sender_run(step.0, evs.skip(1)).1);
        if !(phase is Ended) && step.0 is Ended {
            lemma_step_to_ended_removes(phase, evs[0], present);
        }
        lemma_session_end_cleans_registry(
            step.0,
            evs.skip(1),
            id_present_after_all(present, step.1),
        );
    }
}

/// The full trace of writes of a recipient session whose claim succeeded:
/// the metadata announcement, then whatever the pump does.
pub open spec fn recipient_session_trace(m: FileMetadata, evs: Seq<RecvEvent>) -> Seq<
    RecvAction,
> {
    seq![RecvAction::WriteMetadata(m)] + recv_run(evs)
}

/// Law (metadata precedence): on a recipient session, the `metadata` text
/// frame is the very first write, and every binary frame comes after it —
/// the pump itself never writes metadata.
pub proof fn lemma_metadata_precedes_binary(m: FileMetadata, evs: Seq<RecvEvent>)
    ensures
        recipient_session_trace(m, evs)[0] == RecvAction::WriteMetadata(m),
        forall|i: int|
            0 <= i < recipient_session_trace(m, evs).len() && recipient_session_trace(
                m,
                evs,
            )[i] is WriteBinary ==> i >= 1,
{
}

} // verus!
