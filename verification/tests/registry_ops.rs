use filet::idgen::{new_transfer_id, register_transfer};
use filet::meta::FileMetadata;
use filet::recipient::{claim, recipient_attach, AttachOutcome};
use filet::registry::{TransferEntry, TransferInfo, TransferRegistry};
use filet::sender::{sender_step, SenderAction, SenderEvent, SenderPhase};

fn meta(filename: &str, size: u64, mime: &str) -> FileMetadata {
    FileMetadata {
        filename: filename.to_string(),
        size,
        mime_type: mime.to_string(),
    }
}

fn waiting(link: u32) -> TransferEntry<u32> {
    TransferEntry::WaitingForRecipient {
        metadata: meta("a.bin", 5, "application/octet-stream"),
        link,
    }
}

#[test]
fn take_on_missing_id_is_noop() {
    let mut reg: TransferRegistry<u32> = TransferRegistry::new();
    assert!(reg.take(&"nope".to_string()).is_none());
    assert!(!reg.contains(&"nope".to_string()));
}

#[test]
fn insert_unique_rejects_collision() {
    let mut reg: TransferRegistry<u32> = TransferRegistry::new();
    assert!(reg.insert_unique("id1".to_string(), waiting(7)).is_ok());
    match reg.insert_unique("id1".to_string(), waiting(8)) {
        Err((id, _entry)) => assert_eq!(id.as_str(), "id1"),
        Ok(_) => panic!("second insert under the same id must fail"),
    }
    assert!(reg.contains(&"id1".to_string()));
}

#[test]
fn take_returns_what_put_stored() {
    let mut reg: TransferRegistry<u32> = TransferRegistry::new();
    reg.put("id1".to_string(), waiting(7));
    match reg.take(&"id1".to_string()) {
        Some(TransferEntry::WaitingForRecipient { metadata, link }) => {
            assert_eq!(metadata, meta("a.bin", 5, "application/octet-stream"));
            assert_eq!(link, 7);
        }
        other => panic!("unexpected entry {:?}", other.is_some()),
    }
    assert!(!reg.contains(&"id1".to_string()));
}

#[test]
fn double_claim_one_winner() {
    let mut reg: TransferRegistry<u32> = TransferRegistry::new();
    reg.put("race".to_string(), waiting(1));

    match recipient_attach(&mut reg, &"race".to_string()) {
        AttachOutcome::Attached { metadata_text, metadata, link } => {
            assert_eq!(
                metadata_text.as_str(),
                "{\"type\":\"metadata\",\"filename\":\"a.bin\",\"size\":5,\"mime_type\":\"application/octet-stream\"}"
            );
            assert_eq!(metadata, meta("a.bin", 5, "application/octet-stream"));
            assert_eq!(link, 1);
        }
        AttachOutcome::Refused { .. } => panic!("first claim must succeed"),
    }

    // The loser of the race gets the exact not-found/already-claimed error.
    match recipient_attach(&mut reg, &"race".to_string()) {
        AttachOutcome::Refused { error_text } => assert_eq!(
            error_text.as_str(),
            "{\"type\":\"error\",\"error\":\"Transfer not found or already claimed\"}"
        ),
        AttachOutcome::Attached { .. } => panic!("second claim must fail"),
    }
}

#[test]
fn claim_after_active_mark_still_fails() {
    let mut reg: TransferRegistry<u32> = TransferRegistry::new();
    reg.put("id1".to_string(), waiting(1));
    assert!(claim(&mut reg, &"id1".to_string()).is_some());
    reg.put("id1".to_string(), TransferEntry::Active);
    assert!(claim(&mut reg, &"id1".to_string()).is_none());
}

#[test]
fn sequential_claims_with_reconnecting_put() {
    let mut reg: TransferRegistry<u32> = TransferRegistry::new();
    reg.put("id1".to_string(), waiting(1));

    let first = claim(&mut reg, &"id1".to_string());
    assert!(first.is_some());

    reg.put(
        "id1".to_string(),
        TransferEntry::Reconnecting {
            metadata: meta("a.bin", 5, "application/octet-stream"),
            link: 2,
        },
    );

    match claim(&mut reg, &"id1".to_string()) {
        Some((metadata, link)) => {
            assert_eq!(metadata, meta("a.bin", 5, "application/octet-stream"));
            assert_eq!(link, 2);
        }
        None => panic!("claim after put(Reconnecting) must succeed"),
    }
}

#[test]
fn info_reports_states() {
    let mut reg: TransferRegistry<u32> = TransferRegistry::new();
    assert_eq!(reg.info(&"id1".to_string()), TransferInfo::NotFound);
    reg.put("id1".to_string(), waiting(1));
    assert_eq!(
        reg.info(&"id1".to_string()),
        TransferInfo::Available(meta("a.bin", 5, "application/octet-stream"))
    );
    reg.put("id1".to_string(), TransferEntry::Active);
    assert_eq!(reg.info(&"id1".to_string()), TransferInfo::Gone);
}

#[test]
fn sweep_removes_only_done() {
    let mut reg: TransferRegistry<u32> = TransferRegistry::new();
    reg.put("keep1".to_string(), waiting(1));
    reg.put("gone1".to_string(), TransferEntry::Done);
    reg.put("keep2".to_string(), TransferEntry::Active);
    reg.put("gone2".to_string(), TransferEntry::Done);
    reg.sweep_done();
    assert!(reg.contains(&"keep1".to_string()));
    assert!(reg.contains(&"keep2".to_string()));
    assert!(!reg.contains(&"gone1".to_string()));
    assert!(!reg.contains(&"gone2".to_string()));
}

#[test]
fn remove_clears_entry() {
    let mut reg: TransferRegistry<u32> = TransferRegistry::new();
    reg.put("id1".to_string(), TransferEntry::Active);
    reg.remove(&"id1".to_string());
    assert!(!reg.contains(&"id1".to_string()));
    // Removing again is a no-op.
    reg.remove(&"id1".to_string());
    assert!(!reg.contains(&"id1".to_string()));
}

#[test]
fn transfer_id_shape() {
    let id = new_transfer_id();
    assert_eq!(id.chars().count(), 12);
    assert!(id
        .chars()
        .all(|c| c.is_ascii_alphanumeric() || c == '_' || c == '-'));
    let other = new_transfer_id();
    assert_ne!(id, other);
}

/// Applies a sender action's registry effect, the way the session's task
/// does, with `fresh` as the next rendezvous handle.
fn apply_registry_action(
    reg: &mut TransferRegistry<u32>,
    id: &String,
    action: &SenderAction,
    fresh: u32,
) {
    match action {
        SenderAction::PutReconnecting => reg.put(
            id.clone(),
            TransferEntry::Reconnecting {
                metadata: meta("a.bin", 5, "application/octet-stream"),
                link: fresh,
            },
        ),
        SenderAction::PutActive => reg.put(id.clone(), TransferEntry::Active),
        SenderAction::RemoveEntry => reg.remove(id),
        _ => {}
    }
}

#[test]
fn sender_close_while_waiting_leaves_no_entry() {
    // A sender registers, stays idle through keepalives, and closes before
    // any recipient arrives: afterwards the registry has no entry.
    let mut reg: TransferRegistry<u32> = TransferRegistry::new();
    let id = register_transfer(&mut reg, meta("a.bin", 5, "application/octet-stream"), 1)
        .expect("registration must succeed");
    assert!(reg.contains(&id));

    let mut phase = SenderPhase::Registered;
    for ev in [
        SenderEvent::PingTick,
        SenderEvent::OtherFrame,
        SenderEvent::PingTick,
        SenderEvent::Closed,
    ] {
        let (next, actions) = sender_step(phase, ev);
        for a in &actions {
            apply_registry_action(&mut reg, &id, a, 0);
        }
        phase = next;
    }
    assert_eq!(phase, SenderPhase::Ended);
    assert!(!reg.contains(&id));
}

#[test]
fn reconnect_session_leaves_no_entry() {
    // Full lifecycle with one reconnect: register, claim, relay, recipient
    // drop, second claim of the Reconnecting entry, resume, done. At the
    // end the registry is clean.
    let mut reg: TransferRegistry<u32> = TransferRegistry::new();
    let id = register_transfer(&mut reg, meta("a.bin", 5, "application/octet-stream"), 1)
        .expect("registration must succeed");

    // First recipient claims and marks the transfer active.
    assert!(claim(&mut reg, &id).is_some());
    reg.put(id.clone(), TransferEntry::Active);

    let mut phase = SenderPhase::Relaying;

    // The recipient drops: the sender pauses and stores a fresh rendezvous.
    let (next, actions) = sender_step(phase, SenderEvent::Cancel);
    phase = next;
    for a in &actions {
        apply_registry_action(&mut reg, &id, a, 2);
    }
    assert_eq!(phase, SenderPhase::AwaitingReconnect);

    // A second recipient claims the Reconnecting entry within the window.
    match claim(&mut reg, &id) {
        Some((_, link)) => assert_eq!(link, 2),
        None => panic!("the reconnect claim must succeed"),
    }
    reg.put(id.clone(), TransferEntry::Active);

    let (next, actions) = sender_step(phase, SenderEvent::Link { resume_offset: 1000000 });
    phase = next;
    assert!(actions.contains(&SenderAction::SendResume(1000000)));
    for a in &actions {
        apply_registry_action(&mut reg, &id, a, 0);
    }
    assert_eq!(phase, SenderPhase::Relaying);

    // The tail is relayed and the sender finishes.
    let (next, actions) = sender_step(phase, SenderEvent::DoneFrame);
    phase = next;
    for a in &actions {
        apply_registry_action(&mut reg, &id, a, 0);
    }
    assert_eq!(phase, SenderPhase::Ended);
    assert!(!reg.contains(&id));
}

#[test]
fn timeout_session_leaves_no_entry() {
    // The recipient drops and nobody reconnects: the window expires, the
    // sender is told `cancelled`, and the registry is clean.
    let mut reg: TransferRegistry<u32> = TransferRegistry::new();
    let id = register_transfer(&mut reg, meta("a.bin", 5, "application/octet-stream"), 1)
        .expect("registration must succeed");
    assert!(claim(&mut reg, &id).is_some());
    reg.put(id.clone(), TransferEntry::Active);

    let (phase, actions) = sender_step(SenderPhase::Relaying, SenderEvent::Cancel);
    let mut reg_actions = actions;
    let (phase, actions) = sender_step(phase, SenderEvent::ReconnectTimeout);
    reg_actions.extend(actions);
    for a in &reg_actions {
        apply_registry_action(&mut reg, &id, a, 3);
    }
    assert_eq!(phase, SenderPhase::Ended);
    assert!(reg_actions.contains(&SenderAction::SendCancelled));
    assert!(!reg.contains(&id));
}

#[test]
fn register_succeeds_when_no_key_can_collide() {
    // Collisions take an existing id-length key; with only shorter keys
    // present the first draw must register.
    let mut reg: TransferRegistry<u32> = TransferRegistry::new();
    reg.put("short".to_string(), TransferEntry::Active);
    let id = register_transfer(&mut reg, meta("c.bin", 1, "text/plain"), 9u32)
        .expect("no existing key can collide with a fresh id");
    assert!(reg.contains(&id));
    assert!(reg.contains(&"short".to_string()));
}

#[test]
fn register_inserts_waiting_entry() {
    let mut reg: TransferRegistry<u32> = TransferRegistry::new();
    let id = register_transfer(&mut reg, meta("b.bin", 3, "text/plain"), 42u32)
        .expect("registration must find a fresh id");
    assert_eq!(id.chars().count(), 12);
    match claim(&mut reg, &id) {
        Some((metadata, link)) => {
            assert_eq!(metadata, meta("b.bin", 3, "text/plain"));
            assert_eq!(link, 42);
        }
        None => panic!("registered entry must be claimable"),
    }
    assert!(!reg.contains(&id));
}
