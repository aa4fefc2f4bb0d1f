use herdr::idset::IdSet;
use herdr::server::federation_accept::{
    check_channel_cap, enqueue_outbound, federation_capabilities, frame_body_len,
    accept_pending_federation_connections, handle_clipboard_stage_request, handshake_reply,
    mount_step, next_tick,
    open_terminal, opening_handshake, output_pump_turn, poll_agent_statuses, poll_events,
    reader_step, reject_pending_federation_connections, snapshot_response, split_pane_response, staged_response, staging_step,
    teardown_plan, Capability, ClipboardStageFailure, ClipboardStageRequest,
    ClipboardStageResponse, Egress, EventChannelMessage, FederationMessage, Handshake,
    HandshakeResponse, Inbound, MountAction, MountEvent, MountState, ReaderAction, Reply,
    SeenStatuses, SplitPaneRequest, SplitPaneResponse, StagingChannel, StagingStep, TeardownStep,
    TerminalChannelMessage, EGRESS_QUEUE_CAP, MAX_CONCURRENT_STAGES, MOUNT_GENERATION,
};
use herdr::server::client_accept::{AcceptOutcome, AcceptStep};
use herdr::server::federation_actor::{AgentStatus, FederationCommand, SplitDirection};
use herdr::server::federation_fault::{FirstCauseCell, TunnelExit};
use herdr::server::federation_lease::Admission;

use base64::Engine;

type Message = FederationMessage<u32, u32>;

const PNG_BYTES: &[u8] = b"\x89PNG\r\n\x1a\nfake";

fn png_payload() -> String {
    base64::engine::general_purpose::STANDARD.encode(PNG_BYTES)
}

fn gap() -> Message {
    FederationMessage::Event(EventChannelMessage::Gap { from: 1, to: 3 })
}

fn stage_request(request_id: u64, payload_base64: &str) -> ClipboardStageRequest {
    ClipboardStageRequest {
        request_id,
        payload_base64: payload_base64.to_string(),
        original_filename: "image.png".to_string(),
    }
}

fn agreed(with_staging: bool) -> Vec<Capability> {
    let mut caps = vec![Capability::AgentStatus];
    if with_staging {
        caps.push(Capability::FileStaging);
    }
    caps
}

fn stage_failure(message: Option<Message>) -> (u64, ClipboardStageFailure) {
    match message {
        Some(FederationMessage::ClipboardStageResponse(ClipboardStageResponse::Failed {
            request_id,
            failure,
        })) => (request_id, failure),
        other => panic!("expected a refusal, got {other:?}"),
    }
}

#[test]
fn handshake_accepts_a_compatible_peer_and_replies_with_an_accept() {
    let hello: Message = FederationMessage::Handshake(Handshake {
        federation_protocol_version: 1,
        capabilities: vec![],
        server_instance_id: "peer".to_string(),
    });
    let peer = opening_handshake(Some(hello)).expect("the link opened with a handshake");
    assert_eq!(peer.server_instance_id, "peer");
    let response: Message = handshake_reply(Ok(vec![]));
    assert!(matches!(
        response,
        FederationMessage::HandshakeResponse(HandshakeResponse::Accept { .. })
    ));
}

#[test]
fn handshake_rejects_a_protocol_version_mismatch() {
    let response: Message = handshake_reply(Err("protocol version 2 is not spoken".to_string()));
    assert!(matches!(
        response,
        FederationMessage::HandshakeResponse(HandshakeResponse::Reject { .. })
    ));
}

#[test]
fn a_link_that_does_not_open_with_a_handshake_is_dropped() {
    assert!(opening_handshake(Some(gap())).is_none(), "a non-handshake opener is dropped");
    assert!(opening_handshake::<u32, u32>(None).is_none());
}

#[test]
fn drive_mount_acquires_the_lease_and_streams_a_snapshot_through_the_actor() {
    let (state, action) =
        mount_step::<u32>(MountState::Acquiring, MountEvent::Admitted(Admission::Accepted));
    assert!(matches!(action, MountAction::Mount));
    let (state, action) = mount_step(state, MountEvent::Mounted(Some((5u32, 42))));
    assert!(matches!(action, MountAction::WriteSnapshot { snapshot: 5, cursor: 42 }));
    let (state, action) = mount_step::<u32>(state, MountEvent::SnapshotWritten);
    assert!(matches!(action, MountAction::Run));
    let (state, action) = mount_step::<u32>(state, MountEvent::Ended);
    assert!(matches!(action, MountAction::ReleaseAndClose));
    assert_eq!(state, MountState::Closed);
}

#[test]
fn a_refused_connection_releases_nothing() {
    for refusal in [Admission::Busy, Admission::StaleEpoch, Admission::Closed] {
        let (state, action) =
            mount_step::<u32>(MountState::Acquiring, MountEvent::Admitted(refusal));
        assert!(matches!(action, MountAction::Close));
        assert_eq!(state, MountState::Closed);
    }
    let (_, action) = mount_step::<u32>(MountState::Reserved, MountEvent::Mounted(None));
    assert!(matches!(action, MountAction::ReleaseAndClose));
}

#[test]
fn command_loop_routes_controller_input_and_resize_to_the_actor() {
    let mut cause = FirstCauseCell::new();
    let input: Message = FederationMessage::Terminal(TerminalChannelMessage::Input {
        terminal_id: "t1".to_string(),
        mount_generation: 1,
        bytes: b"hi".to_vec(),
    });
    match reader_step(Inbound::Frame(input), 0, 1, &mut cause) {
        ReaderAction::Forward(FederationCommand::SendInput {
            epoch,
            connid,
            terminal_id,
            bytes,
        }) => {
            assert_eq!((epoch, connid), (0, 1));
            assert_eq!(terminal_id, "t1");
            assert_eq!(bytes, b"hi".to_vec());
        }
        other => panic!("expected input to be forwarded, got {other:?}"),
    }
    let resize: Message = FederationMessage::Terminal(TerminalChannelMessage::Resize {
        terminal_id: "t1".to_string(),
        mount_generation: 1,
        cols: 80,
        rows: 24,
    });
    match reader_step(Inbound::Frame(resize), 0, 1, &mut cause) {
        ReaderAction::Forward(FederationCommand::Resize { cols, rows, .. }) => {
            assert_eq!((cols, rows), (80, 24));
        }
        other => panic!("expected the resize to be forwarded, got {other:?}"),
    }
}

#[test]
fn the_end_of_the_stream_is_a_clean_stop() {
    let mut cause = FirstCauseCell::new();
    let ended = reader_step::<u32, u32>(Inbound::End, 0, 1, &mut cause);
    assert!(matches!(ended, ReaderAction::Stop { failed: false }));
    assert_eq!(cause.get(), Some(TunnelExit::PeerClosed));

    let mut cause = FirstCauseCell::new();
    let broken = reader_step::<u32, u32>(Inbound::Broken, 0, 1, &mut cause);
    assert!(matches!(broken, ReaderAction::Stop { failed: true }));
}

#[test]
fn reader_loop_routes_a_split_pane_request_and_replies_created() {
    let mut cause = FirstCauseCell::new();
    let frame: Message = FederationMessage::SplitPaneRequest(SplitPaneRequest {
        request_id: 7,
        target_pane_id: "p1".to_string(),
        direction: SplitDirection::Right,
        ratio_bits: None,
        focus: false,
    });
    match reader_step(Inbound::Frame(frame), 0, 1, &mut cause) {
        ReaderAction::Split {
            request_id,
            command: FederationCommand::SplitPane { target_pane_id, .. },
        } => {
            assert_eq!(request_id, 7);
            assert_eq!(target_pane_id, "p1");
        }
        other => panic!("expected the split to be routed, got {other:?}"),
    }
    let reply = Reply::Answered(Ok(("p1-split".to_string(), "p1-split-term".to_string())));
    match split_pane_response(7, reply) {
        SplitPaneResponse::Created { request_id, new_pane_id, new_terminal_id } => {
            assert_eq!(request_id, 7);
            assert_eq!(new_pane_id, "p1-split");
            assert_eq!(new_terminal_id, "p1-split-term");
        }
        other => panic!("expected SplitPaneResponse::Created, got {other:?}"),
    }
    for lost in [Reply::LoopGone, Reply::Dropped] {
        assert!(matches!(
            split_pane_response(7, lost),
            SplitPaneResponse::Failed { request_id: 7, .. }
        ));
    }
}

#[test]
fn reader_loop_routes_a_snapshot_request_and_replies_with_a_snapshot() {
    let mut cause = FirstCauseCell::new();
    let frame: Message = FederationMessage::SnapshotRequest;
    let action = reader_step(Inbound::Frame(frame), 0, 1, &mut cause);
    assert!(matches!(action, ReaderAction::Snapshot));
    let response = snapshot_response(&"test-inst".to_string(), Reply::Answered((5u32, 42)), 0);
    assert_eq!(response.server_instance_id, "test-inst");
    assert_eq!(response.cursor, 42);
    assert_eq!(response.snapshot, 5);
    let lost = snapshot_response(&"test-inst".to_string(), Reply::LoopGone, 9u32);
    assert_eq!((lost.snapshot, lost.cursor), (9, 0));
}

#[test]
fn writer_loop_drains_the_queue_and_stops_when_senders_drop() {
    let mut egress: Egress<u32, u32> = Egress::new(EGRESS_QUEUE_CAP);
    enqueue_outbound(&mut egress, FederationMessage::SnapshotRequest);
    enqueue_outbound(&mut egress, gap());
    assert!(matches!(egress.next_outbound(), Some(FederationMessage::SnapshotRequest)));
    assert!(matches!(
        egress.next_outbound(),
        Some(FederationMessage::Event(EventChannelMessage::Gap { from: 1, to: 3 }))
    ));
    assert!(egress.next_outbound().is_none());
    assert!(!egress.first_cause.is_set(), "clean teardown sets no first cause");
}

#[test]
fn a_failed_writer_ends_the_connection() {
    let mut egress: Egress<u32, u32> = Egress::new(4);
    egress.writer_failed();
    assert_eq!(egress.first_cause.get(), Some(TunnelExit::WriterFailed));
    assert!(egress.shutdown);
    assert!(!enqueue_outbound(&mut egress, gap()));
}

#[test]
fn open_terminal_emits_the_scrollback_replay_frame() {
    let mut egress: Egress<u32, u32> = Egress::new(EGRESS_QUEUE_CAP);
    let mut pumps = IdSet::new();
    let repaint = open_terminal(
        &mut egress,
        &mut pumps,
        "t1".to_string(),
        true,
        b"scrollback".to_vec(),
        1,
        1,
    );
    match egress.next_outbound() {
        Some(FederationMessage::Terminal(TerminalChannelMessage::Open {
            terminal_id,
            mount_generation,
            replay,
        })) => {
            assert_eq!(terminal_id, "t1");
            assert_eq!(mount_generation, MOUNT_GENERATION);
            assert_eq!(replay, b"scrollback".to_vec());
        }
        other => panic!("expected Open with replay, got {other:?}"),
    }
    assert!(pumps.contains("t1"), "a pump is registered for t1");
    assert!(matches!(
        repaint,
        Some(FederationCommand::NudgeRedraw { epoch: 1, connid: 1, terminal_id })
            if terminal_id == "t1"
    ));
    // A second open of the same terminal changes nothing.
    let again =
        open_terminal(&mut egress, &mut pumps, "t1".to_string(), true, b"x".to_vec(), 1, 1);
    assert!(again.is_none());
    assert!(egress.next_outbound().is_none());
    assert_eq!(pumps.len(), 1);
}

#[test]
fn output_is_pumped_until_the_pump_is_stopped() {
    let mut egress: Egress<u32, u32> = Egress::new(4);
    assert!(output_pump_turn(&mut egress, false, &"t1".to_string(), b"out".to_vec()));
    assert!(!output_pump_turn(&mut egress, true, &"t1".to_string(), b"late".to_vec()));
    assert!(matches!(
        egress.next_outbound(),
        Some(FederationMessage::Terminal(TerminalChannelMessage::Output { bytes, .. }))
            if bytes == b"out".to_vec()
    ));
    assert!(egress.next_outbound().is_none());
}

#[test]
fn enqueue_outbound_fails_fast_on_a_full_queue() {
    let mut egress: Egress<u32, u32> = Egress::new(1);
    assert!(enqueue_outbound(&mut egress, gap()), "the first frame fits the one slot");
    assert!(
        !enqueue_outbound(&mut egress, gap()),
        "the second frame overflows and fails fast"
    );
    assert_eq!(egress.first_cause.get(), Some(TunnelExit::EgressOverflow));
    assert!(egress.shutdown, "teardown is signalled");
}

#[test]
fn reader_loop_hands_a_clipboard_stage_request_to_the_staging_worker_without_blocking() {
    let mut cause = FirstCauseCell::new();
    let frame: Message =
        FederationMessage::ClipboardStageRequest(stage_request(1, &png_payload()));
    let request = match reader_step(Inbound::Frame(frame), 0, 1, &mut cause) {
        ReaderAction::Stage(request) => request,
        other => panic!("expected the request to be handed on, got {other:?}"),
    };
    let mut egress: Egress<u32, u32> = Egress::new(EGRESS_QUEUE_CAP);
    let mut staging = StagingChannel::for_agreed(&agreed(true));
    handle_clipboard_stage_request(&mut egress, &mut staging, request);
    let input: Message = FederationMessage::Terminal(TerminalChannelMessage::Input {
        terminal_id: "t1".to_string(),
        mount_generation: MOUNT_GENERATION,
        bytes: b"x".to_vec(),
    });
    assert!(matches!(
        reader_step(Inbound::Frame(input), 0, 1, &mut cause),
        ReaderAction::Forward(FederationCommand::SendInput { terminal_id, .. })
            if terminal_id == "t1"
    ));
    let job = staging.unwrap().next_job().expect("the stage request is still queued");
    assert_eq!(job.request_id, 1);
    assert!(
        egress.next_outbound().is_none(),
        "an admitted request must not answer before it is staged"
    );
}

#[test]
fn a_host_without_the_agreed_file_staging_capability_never_emits_a_stage_frame() {
    let mut egress: Egress<u32, u32> = Egress::new(EGRESS_QUEUE_CAP);
    let mut staging = StagingChannel::for_agreed(&agreed(false));
    assert!(staging.is_none());
    handle_clipboard_stage_request(&mut egress, &mut staging, stage_request(1, &png_payload()));
    assert!(staging.is_none(), "an ungated request reached the staging operation");
    assert!(egress.next_outbound().is_none());

    // The same exchange on a link that agreed the capability is taken on.
    let mut staging = StagingChannel::for_agreed(&agreed(true));
    handle_clipboard_stage_request(&mut egress, &mut staging, stage_request(1, &png_payload()));
    let job = staging.unwrap().next_job().expect("a negotiated link stages the same request");
    let answer = staged_response(job.request_id, Err(ClipboardStageFailure::WriteFailed));
    assert!(
        matches!(answer, ClipboardStageResponse::Failed { request_id: 1, .. }),
        "a negotiated link must answer the same request"
    );
}

#[test]
fn a_third_concurrent_stage_request_on_one_connection_is_refused_as_busy() {
    let mut egress: Egress<u32, u32> = Egress::new(EGRESS_QUEUE_CAP);
    let mut staging = StagingChannel::for_agreed(&agreed(true));
    handle_clipboard_stage_request(&mut egress, &mut staging, stage_request(1, &png_payload()));
    handle_clipboard_stage_request(&mut egress, &mut staging, stage_request(2, &png_payload()));
    // The first reaches the worker; the second is admitted and waits behind it.
    let first = staging.as_mut().unwrap().next_job().expect("the first request is staged");
    assert_eq!(first.original_filename, "image.png");

    handle_clipboard_stage_request(&mut egress, &mut staging, stage_request(3, &png_payload()));
    let (request_id, failure) = stage_failure(egress.next_outbound());
    assert_eq!(request_id, 3, "the third request is the refused one");
    assert_eq!(
        failure,
        ClipboardStageFailure::Busy,
        "backpressure must not be reported as a disk failure"
    );

    // Once both admitted requests are through, a fourth is admitted again.
    staging.as_mut().unwrap().finish();
    let second = staging.as_mut().unwrap().next_job().expect("the second request is staged");
    assert_eq!(second.original_filename, "image.png");
    staging.as_mut().unwrap().finish();
    handle_clipboard_stage_request(&mut egress, &mut staging, stage_request(4, &png_payload()));
    let fourth = staging.as_mut().unwrap().next_job().expect("a fourth request is admitted");
    assert_eq!(fourth.original_filename, "image.png");
    assert!(egress.next_outbound().is_none());
}

#[test]
fn a_request_refused_by_a_full_staging_queue_still_returns_its_permit() {
    let mut egress: Egress<u32, u32> = Egress::new(EGRESS_QUEUE_CAP);
    // The worker is gone: every hand-off fails.
    let mut dead = Some(StagingChannel { jobs: vec![], live: 0, worker_gone: true });
    handle_clipboard_stage_request(&mut egress, &mut dead, stage_request(1, &png_payload()));
    let (request_id, failure) = stage_failure(egress.next_outbound());
    assert_eq!(request_id, 1);
    assert_eq!(failure, ClipboardStageFailure::Busy);
    let live = dead.unwrap().live;
    assert_eq!(live, 0, "the failed hand-off leaked its admission permit");

    // The same counter, now with a live worker, still admits its full cap.
    let mut alive = Some(StagingChannel { jobs: vec![], live, worker_gone: false });
    for request_id in 2..=3 {
        handle_clipboard_stage_request(
            &mut egress,
            &mut alive,
            stage_request(request_id, &png_payload()),
        );
    }
    assert!(
        egress.next_outbound().is_none(),
        "both further requests must be admitted, not refused"
    );
    let mut alive = alive.unwrap();
    assert_eq!(alive.next_job().map(|job| job.request_id), Some(2));
    assert_eq!(alive.next_job().map(|job| job.request_id), Some(3));
    assert_eq!(alive.live, MAX_CONCURRENT_STAGES);
}

#[test]
fn a_malformed_base64_payload_is_reported_as_invalid_payload_without_touching_the_filesystem() {
    match staging_step(false, stage_request(1, "!!!! not base64 !!!!")) {
        StagingStep::Answer(ClipboardStageResponse::Failed { request_id, failure }) => {
            assert_eq!(request_id, 1);
            assert_eq!(failure, ClipboardStageFailure::InvalidPayload);
        }
        other => panic!("expected InvalidPayload, got {other:?}"),
    }
    // A decodable payload on the same connection does reach the disk, decoded.
    match staging_step(false, stage_request(2, &png_payload())) {
        StagingStep::Write { request_id, original_filename, bytes } => {
            assert_eq!(request_id, 2);
            assert_eq!(original_filename, "image.png");
            assert_eq!(bytes, PNG_BYTES.to_vec());
        }
        other => panic!("a decodable payload must reach the staging operation: {other:?}"),
    }
    assert!(matches!(staging_step(true, stage_request(3, &png_payload())), StagingStep::Skip));
}

#[test]
fn a_stage_response_that_cannot_be_queued_tears_the_link_down_instead_of_vanishing() {
    for prefill in [EGRESS_QUEUE_CAP, 0] {
        let mut egress: Egress<u32, u32> = Egress::new(EGRESS_QUEUE_CAP);
        for _ in 0..prefill {
            enqueue_outbound(&mut egress, gap());
        }
        let response = staged_response(7, Ok(Some("/tmp/staged/image.png".to_string())));
        enqueue_outbound(&mut egress, FederationMessage::ClipboardStageResponse(response));
        for _ in 0..prefill {
            egress.next_outbound();
        }
        let frame = egress.next_outbound();
        if prefill == EGRESS_QUEUE_CAP {
            assert!(frame.is_none(), "a full egress queue cannot have accepted the response");
            assert_eq!(
                egress.first_cause.get(),
                Some(TunnelExit::EgressOverflow),
                "a dropped stage response must be recorded as an egress overflow"
            );
            assert!(egress.shutdown, "an unqueueable response must signal teardown");
        } else {
            assert!(
                matches!(
                    frame,
                    Some(FederationMessage::ClipboardStageResponse(
                        ClipboardStageResponse::Staged { request_id: 7, .. }
                    ))
                ),
                "a queue with room must deliver the staged response, got {frame:?}"
            );
            assert_eq!(
                egress.first_cause.get(),
                None,
                "a delivered response records no fault"
            );
            assert!(!egress.shutdown, "a delivered response must not signal teardown");
        }
    }
}

#[test]
fn a_frame_names_its_length_in_its_last_four_bytes() {
    let header = [9, 9, 9, 9, 2, 1, 0, 0];
    assert_eq!(frame_body_len(&header, 258), Ok(258));
    assert_eq!(
        frame_body_len(&header, 257),
        Err("federation frame size 258 exceeds the largest channel cap 257".to_string())
    );
    assert_eq!(check_channel_cap(10, 10), Ok(()));
    assert_eq!(
        check_channel_cap(11, 10),
        Err("federation frame size 11 exceeds its channel's cap 10".to_string())
    );
}

#[test]
fn events_are_sent_after_a_notice_of_what_was_missed() {
    let mut egress: Egress<u32, u32> = Egress::new(8);
    let mut cursor: u64 = 4;
    assert!(poll_events(&mut egress, &mut cursor, Some(vec![(7, 70), (8, 80)])));
    assert_eq!(cursor, 8);
    assert!(matches!(
        egress.next_outbound(),
        Some(FederationMessage::Event(EventChannelMessage::Gap { from: 4, to: 6 }))
    ));
    assert!(matches!(
        egress.next_outbound(),
        Some(FederationMessage::Event(EventChannelMessage::Frame { source_seq: 7, kind: 70 }))
    ));
    assert!(matches!(
        egress.next_outbound(),
        Some(FederationMessage::Event(EventChannelMessage::Frame { source_seq: 8, kind: 80 }))
    ));
    // The next event in order needs no notice.
    assert!(poll_events(&mut egress, &mut cursor, Some(vec![(9, 90)])));
    assert!(matches!(
        egress.next_outbound(),
        Some(FederationMessage::Event(EventChannelMessage::Frame { source_seq: 9, kind: 90 }))
    ));
    assert!(!poll_events(&mut egress, &mut cursor, None));
    assert_eq!(cursor, 9);
}

#[test]
fn only_changed_agent_statuses_are_sent() {
    let mut egress: Egress<u32, u32> = Egress::new(8);
    let mut seen = SeenStatuses::new();
    let working = || vec![("t1".to_string(), AgentStatus::Working, Some("pi".to_string()))];
    assert!(poll_agent_statuses(&mut egress, &mut seen, Some(working())));
    assert!(matches!(egress.next_outbound(), Some(FederationMessage::AgentStatus(_))));
    assert!(poll_agent_statuses(&mut egress, &mut seen, Some(working())));
    assert!(egress.next_outbound().is_none());
    let done = vec![("t1".to_string(), AgentStatus::Done, Some("pi".to_string()))];
    assert!(poll_agent_statuses(&mut egress, &mut seen, Some(done)));
    match egress.next_outbound() {
        Some(FederationMessage::AgentStatus(message)) => {
            assert_eq!(message.terminal_id, "t1");
            assert_eq!(message.status, AgentStatus::Done);
        }
        other => panic!("expected a status, got {other:?}"),
    }
}

#[test]
fn agents_are_polled_every_fourth_tick() {
    let mut tick: u32 = 0;
    let due: Vec<bool> = (0..8).map(|_| next_tick(&mut tick)).collect();
    assert_eq!(due, vec![false, false, false, true, false, false, false, true]);
    let mut last = u32::MAX;
    assert!(next_tick(&mut last));
    assert_eq!(last, 0);
}

#[test]
fn connections_are_numbered_in_order() {
    let mut next: u64 = 5;
    let prepared = AcceptOutcome::Accepted { prepared: true };
    let broken = AcceptOutcome::Accepted { prepared: false };
    let mut accept = |outcome| accept_pending_federation_connections(&mut next, outcome);
    assert_eq!(accept(prepared), AcceptStep::Serve { id: 5 });
    assert_eq!(accept(broken), AcceptStep::Skip);
    assert_eq!(accept(prepared), AcceptStep::Serve { id: 7 });
    assert_eq!(accept(AcceptOutcome::WouldBlock), AcceptStep::Stop);
    assert_eq!(accept(AcceptOutcome::Failed), AcceptStep::Stop);
    assert_eq!(next, 8);
    assert!(reject_pending_federation_connections(prepared));
    assert!(!reject_pending_federation_connections(AcceptOutcome::WouldBlock));
}

#[test]
fn teardown_reports_a_fault_but_no_clean_end() {
    let mut pumps = IdSet::new();
    pumps.insert("t1".to_string());
    let plan = teardown_plan(pumps, true, Some(TunnelExit::Lagged));
    assert_eq!(plan.len(), 7);
    assert!(matches!(plan[0], TeardownStep::SignalShutdown));
    assert!(matches!(&plan[1], TeardownStep::StopPump(id) if id == "t1"));
    assert!(matches!(plan[2], TeardownStep::JoinTicker));
    assert!(matches!(plan[3], TeardownStep::RevokeStaging));
    assert!(matches!(plan[4], TeardownStep::SendFault(TunnelExit::Lagged)));
    assert!(matches!(plan[5], TeardownStep::CloseQueue));
    assert!(matches!(plan[6], TeardownStep::JoinWriter));

    let clean = teardown_plan(IdSet::new(), false, Some(TunnelExit::PeerClosed));
    assert_eq!(clean.len(), 4);
}

#[test]
fn the_host_offers_what_it_can_serve() {
    let offered = federation_capabilities();
    assert!(offered.contains(&Capability::ScrollbackReplay));
    assert!(offered.contains(&Capability::AgentStatus));
    assert!(offered.contains(&Capability::FileStaging));
}
