use filet::handshake::{handle_first_text, is_done_text, HandshakeOutcome};
use filet::messages::{
    cancelled_msg, done_msg, error_msg, info_msg, invalid_metadata_msg, metadata_msg,
    not_found_msg, paused_msg, ready_msg, resume_msg, sender_gone_msg, start_msg,
};
use filet::meta::FileMetadata;
use filet::recipient::{recv_step, RecvAction, RecvEvent};
use filet::relay::RelayMessage;
use filet::sender::{sender_step, SenderAction, SenderEvent, SenderPhase};

fn meta(filename: &str, size: u64, mime: &str) -> FileMetadata {
    FileMetadata {
        filename: filename.to_string(),
        size,
        mime_type: mime.to_string(),
    }
}

#[test]
fn ready_msg_text() {
    assert_eq!(
        ready_msg("abc123XYZ_-0").as_str(),
        "{\"type\":\"ready\",\"id\":\"abc123XYZ_-0\"}"
    );
}

#[test]
fn fixed_msg_texts() {
    assert_eq!(start_msg().as_str(), "{\"type\":\"start\"}");
    assert_eq!(paused_msg().as_str(), "{\"type\":\"paused\"}");
    assert_eq!(done_msg().as_str(), "{\"type\":\"done\"}");
    assert_eq!(
        cancelled_msg().as_str(),
        "{\"type\":\"cancelled\",\"error\":\"Recipient disconnected\"}"
    );
    assert_eq!(
        not_found_msg().as_str(),
        "{\"type\":\"error\",\"error\":\"Transfer not found or already claimed\"}"
    );
    assert_eq!(
        sender_gone_msg().as_str(),
        "{\"type\":\"error\",\"error\":\"Sender disconnected\"}"
    );
}

#[test]
fn resume_msg_text() {
    assert_eq!(
        resume_msg(1000000).as_str(),
        "{\"type\":\"resume\",\"offset\":1000000}"
    );
    assert_eq!(resume_msg(0).as_str(), "{\"type\":\"resume\",\"offset\":0}");
}

#[test]
fn error_msg_escapes_quotes_and_backslashes() {
    assert_eq!(
        error_msg("a\"b\\c").as_str(),
        "{\"type\":\"error\",\"error\":\"a\\\"b\\\\c\"}"
    );
}

#[test]
fn error_msg_escapes_control_chars() {
    assert_eq!(
        error_msg("x\u{1}y\nz").as_str(),
        "{\"type\":\"error\",\"error\":\"x\\u0001y\\u000az\"}"
    );
}

#[test]
fn invalid_metadata_msg_text() {
    assert_eq!(
        invalid_metadata_msg("oops").as_str(),
        "{\"type\":\"error\",\"error\":\"Invalid metadata: oops\"}"
    );
}

#[test]
fn metadata_msg_text() {
    let m = meta("a.bin", 5, "application/octet-stream");
    assert_eq!(
        metadata_msg(&m).as_str(),
        "{\"type\":\"metadata\",\"filename\":\"a.bin\",\"size\":5,\"mime_type\":\"application/octet-stream\"}"
    );
}

#[test]
fn info_msg_text() {
    let m = meta("a.bin", 5, "text/plain");
    assert_eq!(
        info_msg(&m).as_str(),
        "{\"filename\":\"a.bin\",\"size\":5,\"mime_type\":\"text/plain\"}"
    );
}

#[test]
fn handshake_accepts_send_frame() {
    let r = handle_first_text("{\"type\":\"send\",\"filename\":\"a.bin\",\"size\":5}");
    assert_eq!(
        r,
        HandshakeOutcome::Accepted(meta("a.bin", 5, "application/octet-stream"))
    );
}

#[test]
fn handshake_keeps_declared_mime() {
    let r = handle_first_text(
        "{\"type\":\"send\",\"filename\":\"a.txt\",\"size\":9,\"mime_type\":\"text/plain\"}",
    );
    assert_eq!(r, HandshakeOutcome::Accepted(meta("a.txt", 9, "text/plain")));
}

#[test]
fn handshake_defaults_empty_mime() {
    let r = handle_first_text(
        "{\"type\":\"send\",\"filename\":\"a.txt\",\"size\":9,\"mime_type\":\"\"}",
    );
    assert_eq!(
        r,
        HandshakeOutcome::Accepted(meta("a.txt", 9, "application/octet-stream"))
    );
}

#[test]
fn handshake_rejects_bad_json() {
    match handle_first_text("{nope") {
        HandshakeOutcome::Rejected(t) => {
            assert!(t.starts_with("{\"type\":\"error\",\"error\":\"Invalid metadata: "));
            assert!(t.ends_with("\"}"));
        }
        other => panic!("expected rejection, got {:?}", other),
    }
}

#[test]
fn handshake_rejects_missing_field() {
    match handle_first_text("{\"type\":\"send\",\"size\":5}") {
        HandshakeOutcome::Rejected(t) => assert!(t.contains("filename")),
        other => panic!("expected rejection, got {:?}", other),
    }
}

#[test]
fn done_frame_detection() {
    assert!(is_done_text("{\"type\":\"done\"}"));
    assert!(is_done_text("{\"type\":\"done\",\"extra\":1}"));
    assert!(!is_done_text("{\"type\":\"data\"}"));
    assert!(!is_done_text("{}"));
    assert!(!is_done_text("not json"));
}

#[test]
fn sender_happy_path() {
    let (p, a) = sender_step(SenderPhase::Registered, SenderEvent::Link { resume_offset: 0 });
    assert_eq!(p, SenderPhase::Relaying);
    assert_eq!(a, vec![SenderAction::SendStart]);

    let (p, a) = sender_step(p, SenderEvent::Binary(vec![1, 2, 3, 4, 5]));
    assert_eq!(p, SenderPhase::Relaying);
    assert_eq!(a, vec![SenderAction::QueueData(vec![1, 2, 3, 4, 5])]);

    let (p, a) = sender_step(p, SenderEvent::DoneFrame);
    assert_eq!(p, SenderPhase::Ended);
    assert_eq!(a, vec![SenderAction::QueueFinished, SenderAction::RemoveEntry]);
}

#[test]
fn sender_zero_size_transfer() {
    // A `done` frame right after the recipient attaches: the transfer
    // completes with no binary frame relayed.
    let (p, a) = sender_step(SenderPhase::Registered, SenderEvent::Link { resume_offset: 0 });
    assert_eq!(p, SenderPhase::Relaying);
    assert_eq!(a, vec![SenderAction::SendStart]);
    let (p, a) = sender_step(p, SenderEvent::DoneFrame);
    assert_eq!(p, SenderPhase::Ended);
    assert_eq!(a, vec![SenderAction::QueueFinished, SenderAction::RemoveEntry]);
}

#[test]
fn sender_ignores_binary_before_start() {
    let (p, a) = sender_step(SenderPhase::Registered, SenderEvent::Binary(vec![1, 2, 3]));
    assert_eq!(p, SenderPhase::Registered);
    assert!(a.is_empty());
}

#[test]
fn sender_pings_while_waiting() {
    let (p, a) = sender_step(SenderPhase::Registered, SenderEvent::PingTick);
    assert_eq!(p, SenderPhase::Registered);
    assert_eq!(a, vec![SenderAction::SendPing]);
    let (p, a) = sender_step(SenderPhase::AwaitingReconnect, SenderEvent::PingTick);
    assert_eq!(p, SenderPhase::AwaitingReconnect);
    assert_eq!(a, vec![SenderAction::SendPing]);
}

#[test]
fn sender_reconnect_within_window() {
    let (p, a) = sender_step(SenderPhase::Relaying, SenderEvent::Cancel);
    assert_eq!(p, SenderPhase::AwaitingReconnect);
    assert_eq!(a, vec![SenderAction::PutReconnecting, SenderAction::SendPaused]);

    let (p, a) = sender_step(p, SenderEvent::Link { resume_offset: 1000000 });
    assert_eq!(p, SenderPhase::Relaying);
    assert_eq!(
        a,
        vec![SenderAction::SendResume(1000000), SenderAction::PutActive]
    );
}

#[test]
fn sender_reconnect_timeout() {
    let (p, a) = sender_step(SenderPhase::AwaitingReconnect, SenderEvent::ReconnectTimeout);
    assert_eq!(p, SenderPhase::Ended);
    assert_eq!(a, vec![SenderAction::RemoveEntry, SenderAction::SendCancelled]);
}

#[test]
fn sender_disconnect_during_relay() {
    let (p, a) = sender_step(SenderPhase::Relaying, SenderEvent::Closed);
    assert_eq!(p, SenderPhase::Ended);
    assert_eq!(a, vec![SenderAction::QueueSenderGone, SenderAction::RemoveEntry]);
}

#[test]
fn sender_disconnect_while_waiting_removes_entry() {
    let (p, a) = sender_step(SenderPhase::Registered, SenderEvent::Closed);
    assert_eq!(p, SenderPhase::Ended);
    assert_eq!(a, vec![SenderAction::RemoveEntry]);
    let (p, a) = sender_step(SenderPhase::AwaitingReconnect, SenderEvent::Closed);
    assert_eq!(p, SenderPhase::Ended);
    assert_eq!(a, vec![SenderAction::RemoveEntry]);
}

#[test]
fn recv_pump_steps() {
    let (done, a) = recv_step(RecvEvent::Queue(RelayMessage::Data(vec![9, 8])));
    assert!(!done);
    assert_eq!(a, vec![RecvAction::WriteBinary(vec![9, 8])]);

    let (done, a) = recv_step(RecvEvent::Queue(RelayMessage::Finished));
    assert!(done);
    assert_eq!(a, vec![RecvAction::WriteDone]);

    let (done, a) = recv_step(RecvEvent::Queue(RelayMessage::Error("boom".to_string())));
    assert!(done);
    assert_eq!(a, vec![RecvAction::WriteError("boom".to_string())]);

    let (done, a) = recv_step(RecvEvent::QueueClosed);
    assert!(done);
    assert_eq!(a, vec![RecvAction::WriteSenderGone]);

    let (done, a) = recv_step(RecvEvent::SocketClosed);
    assert!(done);
    assert_eq!(a, vec![RecvAction::SignalCancel]);

    let (done, a) = recv_step(RecvEvent::WriteFailed);
    assert!(done);
    assert_eq!(a, vec![RecvAction::SignalCancel]);
}

#[test]
fn relay_pipe_preserves_payloads() {
    // Sender side: drive the machine over a relay segment and collect what
    // it enqueues.
    let frames: Vec<Vec<u8>> = vec![vec![1, 2], vec![], vec![3, 4, 5]];
    let mut phase = SenderPhase::Relaying;
    let mut queue: Vec<RelayMessage> = Vec::new();
    let mut events: Vec<SenderEvent> = Vec::new();
    for f in &frames {
        events.push(SenderEvent::Binary(f.clone()));
        events.push(SenderEvent::OtherFrame);
    }
    events.push(SenderEvent::DoneFrame);
    for ev in events {
        let (p, actions) = sender_step(phase, ev);
        phase = p;
        for act in actions {
            match act {
                SenderAction::QueueData(b) => queue.push(RelayMessage::Data(b)),
                SenderAction::QueueFinished => queue.push(RelayMessage::Finished),
                SenderAction::QueueSenderGone => {
                    queue.push(RelayMessage::Error("Sender disconnected".to_string()))
                }
                _ => {}
            }
        }
    }
    assert_eq!(phase, SenderPhase::Ended);

    // Recipient side: drain the queue in FIFO order and collect the writes.
    let mut written: Vec<Vec<u8>> = Vec::new();
    let mut got_done = false;
    for msg in queue {
        let (done, actions) = recv_step(RecvEvent::Queue(msg));
        for act in actions {
            match act {
                RecvAction::WriteBinary(b) => written.push(b),
                RecvAction::WriteDone => got_done = true,
                other => panic!("unexpected action {:?}", other),
            }
        }
        if done {
            break;
        }
    }
    assert!(got_done);
    assert_eq!(written, frames);
}
