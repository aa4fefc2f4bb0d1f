use herdr::idset::IdSet;
use herdr::server::federation_actor::{
    agent_statuses, claim_terminal_size, close_pane_outcome, create_tab_outcome,
    create_tab_reply, create_workspace_outcome, create_workspace_reply, dispatch, event_kinds,
    scrollback_replay, session_snapshot, split_outcome, sync_terminal_size_ownership, AgentEntry,
    AgentStatus, ApiMethod, EventEnvelope, FederationAction, FederationCommand, HostFacts,
    PublishedWorkspace, RightClickPolicy, SplitDirection, SuccessResult, NOT_THE_CONTROLLER,
    TAB_CREATE_UNEXPECTED, WORKSPACE_CREATE_REDIRECTED, WORKSPACE_CREATE_UNEXPECTED,
};
use herdr::server::federation_lease::{AcceptEpoch, Admission, ConnId, FederationLease};

/// What a host that runs nothing says of any target.
fn empty_host() -> HostFacts {
    HostFacts {
        terminal_ids: vec![],
        resolved_terminal: None,
        target_is_live: false,
        workspaces: vec![],
    }
}

/// What a host that runs `terminals` says when the first of them is named.
fn host_with_terminals(terminals: &[&str]) -> HostFacts {
    HostFacts {
        terminal_ids: terminals.iter().map(|id| id.to_string()).collect(),
        resolved_terminal: Some(terminals[0].to_string()),
        target_is_live: true,
        workspaces: vec![],
    }
}

fn host_with_workspaces(workspaces: &[(&str, bool)]) -> HostFacts {
    HostFacts {
        workspaces: workspaces
            .iter()
            .map(|(id, mirrored)| PublishedWorkspace { id: id.to_string(), mirrored: *mirrored })
            .collect(),
        ..empty_host()
    }
}

/// Drives a connection through admission and mount. The lease is left mounted.
fn acquire_and_mount(
    claims: &mut IdSet,
    lease: &mut FederationLease,
    connid: ConnId,
) -> AcceptEpoch {
    let epoch = lease.current_epoch();
    let host = empty_host();
    let admitted =
        dispatch(claims, lease, &host, FederationCommand::AcquireController { epoch, connid });
    assert!(matches!(admitted, FederationAction::ReplyAdmission(Admission::Accepted)));
    let mounted = dispatch(claims, lease, &host, FederationCommand::Mount { epoch, connid });
    assert!(
        matches!(mounted, FederationAction::ReplyMounted(_)),
        "the holder mounts and receives a snapshot"
    );
    epoch
}

fn refusal_of(action: FederationAction) -> String {
    match action {
        FederationAction::ReplyRefused(reason) => reason,
        other => panic!("expected a refusal, got {other:?}"),
    }
}

#[test]
fn mount_after_acquire_returns_a_snapshot_and_the_live_cursor() {
    let mut claims = IdSet::new();
    let mut lease = FederationLease::new();
    acquire_and_mount(&mut claims, &mut lease, 1);
    assert!(lease.is_mounted_controller(0, 1));
}

#[test]
fn acquire_is_busy_for_a_second_connection() {
    let mut claims = IdSet::new();
    let mut lease = FederationLease::new();
    let epoch = lease.current_epoch();
    let first = dispatch(
        &mut claims,
        &mut lease,
        &empty_host(),
        FederationCommand::AcquireController { epoch, connid: 1 },
    );
    assert!(matches!(first, FederationAction::ReplyAdmission(Admission::Accepted)));
    let second = dispatch(
        &mut claims,
        &mut lease,
        &empty_host(),
        FederationCommand::AcquireController { epoch, connid: 2 },
    );
    assert!(matches!(second, FederationAction::ReplyAdmission(Admission::Busy)));
}

#[test]
fn a_stale_mount_replies_none_without_mounting() {
    let mut claims = IdSet::new();
    let mut lease = FederationLease::new();
    let epoch = lease.current_epoch();
    let admitted = dispatch(
        &mut claims,
        &mut lease,
        &empty_host(),
        FederationCommand::AcquireController { epoch, connid: 1 },
    );
    assert!(matches!(admitted, FederationAction::ReplyAdmission(Admission::Accepted)));
    // A handoff revocation supersedes connection 1's epoch before it mounts.
    lease.begin_revocation();
    lease.reopen_admission();
    let mounted = dispatch(
        &mut claims,
        &mut lease,
        &empty_host(),
        FederationCommand::Mount { epoch, connid: 1 },
    );
    assert!(matches!(mounted, FederationAction::ReplyNotMounted), "stale mount is inert");
    assert!(!lease.is_mounted_controller(epoch, 1));
}

#[test]
fn input_and_resize_are_dropped_unless_the_caller_is_the_mounted_controller() {
    let mut claims = IdSet::new();
    let mut lease = FederationLease::new();
    let epoch = acquire_and_mount(&mut claims, &mut lease, 1);
    // The mounted controller is authorised; there is no such terminal to reach.
    let input = dispatch(
        &mut claims,
        &mut lease,
        &empty_host(),
        FederationCommand::SendInput {
            epoch,
            connid: 1,
            terminal_id: "no-such-terminal".to_string(),
            bytes: b"hi".to_vec(),
        },
    );
    assert!(matches!(input, FederationAction::Done));
    // A non-controller connection's forwards are dropped, live target or not.
    let resize = dispatch(
        &mut claims,
        &mut lease,
        &host_with_terminals(&["no-such-terminal"]),
        FederationCommand::Resize {
            epoch,
            connid: 999,
            terminal_id: "no-such-terminal".to_string(),
            cols: 80,
            rows: 24,
        },
    );
    assert!(matches!(resize, FederationAction::Done));
    let nudge = dispatch(
        &mut claims,
        &mut lease,
        &host_with_terminals(&["no-such-terminal"]),
        FederationCommand::NudgeRedraw {
            epoch,
            connid: 999,
            terminal_id: "no-such-terminal".to_string(),
        },
    );
    assert!(matches!(nudge, FederationAction::Done));
    assert!(claims.is_empty());
}

#[test]
fn the_controllers_input_reaches_a_live_terminal() {
    let mut claims = IdSet::new();
    let mut lease = FederationLease::new();
    let epoch = acquire_and_mount(&mut claims, &mut lease, 1);
    let input = dispatch(
        &mut claims,
        &mut lease,
        &host_with_terminals(&["t1"]),
        FederationCommand::SendInput {
            epoch,
            connid: 1,
            terminal_id: "t1".to_string(),
            bytes: b"hi".to_vec(),
        },
    );
    match input {
        FederationAction::SendInput { terminal_id, bytes } => {
            assert_eq!(terminal_id, "t1");
            assert_eq!(bytes, b"hi".to_vec());
        }
        other => panic!("expected the input to be forwarded, got {other:?}"),
    }
}

#[test]
fn a_mounted_controller_owns_terminal_sizes_until_it_releases() {
    let mut claims = IdSet::new();
    let mut lease = FederationLease::new();
    let host = host_with_terminals(&["t1"]);
    assert!(claims.is_empty(), "no mount, no lock");

    let epoch = acquire_and_mount(&mut claims, &mut lease, 1);
    claim_terminal_size(&mut claims, &host);
    assert_eq!(claims.len(), 1, "driving a terminal takes ownership of its size");

    dispatch(&mut claims, &mut lease, &host, FederationCommand::Release { epoch, connid: 1 });
    assert!(claims.is_empty(), "releasing hands size ownership back to the host");
}

#[test]
fn revoking_a_mounted_lease_hands_terminal_sizes_back() {
    let mut claims = IdSet::new();
    let mut lease = FederationLease::new();
    acquire_and_mount(&mut claims, &mut lease, 1);
    claim_terminal_size(&mut claims, &host_with_terminals(&["t1"]));
    assert!(!claims.is_empty());

    lease.begin_revocation();
    sync_terminal_size_ownership(&mut claims, &lease);
    assert!(claims.is_empty(), "a revoked mount owns nothing");
}

#[test]
fn a_federated_resize_claims_the_terminal_and_a_close_releases_it() {
    let mut claims = IdSet::new();
    let mut lease = FederationLease::new();
    let host = host_with_terminals(&["t1"]);
    let epoch = acquire_and_mount(&mut claims, &mut lease, 1);

    let resized = dispatch(
        &mut claims,
        &mut lease,
        &host,
        FederationCommand::Resize {
            epoch,
            connid: 1,
            terminal_id: "t1".to_string(),
            cols: 100,
            rows: 30,
        },
    );
    assert!(matches!(
        resized,
        FederationAction::Resize { rows: 30, cols: 100, cell_width_px: 0, cell_height_px: 0, .. }
    ));
    assert!(claims.contains("t1"), "a federated resize claims the terminal's size");

    dispatch(
        &mut claims,
        &mut lease,
        &host,
        FederationCommand::ReleaseTerminalSize {
            epoch,
            connid: 1,
            terminal_id: "t1".to_string(),
        },
    );
    assert!(claims.is_empty(), "closing the mirror hands the size back to the host");
}

#[test]
fn a_mount_owns_only_the_terminals_it_drives() {
    let mut claims = IdSet::new();
    let mut lease = FederationLease::new();
    acquire_and_mount(&mut claims, &mut lease, 1);

    claim_terminal_size(&mut claims, &host_with_terminals(&["t1", "t2"]));

    assert!(claims.contains("t1"), "the driven terminal is owned by the mount");
    assert!(!claims.contains("t2"), "a terminal the mount never opened stays host owned");
}

#[test]
fn release_frees_the_lease_for_the_next_connection() {
    let mut claims = IdSet::new();
    let mut lease = FederationLease::new();
    let epoch = acquire_and_mount(&mut claims, &mut lease, 1);
    dispatch(
        &mut claims,
        &mut lease,
        &empty_host(),
        FederationCommand::Release { epoch, connid: 1 },
    );
    // The slot is free again; a fresh connection can acquire.
    let next = dispatch(
        &mut claims,
        &mut lease,
        &empty_host(),
        FederationCommand::AcquireController { epoch, connid: 2 },
    );
    assert!(matches!(next, FederationAction::ReplyAdmission(Admission::Accepted)));
}

#[test]
fn a_subscription_is_answered_for_the_named_terminal() {
    let mut claims = IdSet::new();
    let mut lease = FederationLease::new();
    let action = dispatch(
        &mut claims,
        &mut lease,
        &empty_host(),
        FederationCommand::SubscribeOutput("no-such-terminal".to_string()),
    );
    assert!(matches!(action, FederationAction::ReplySubscription(id) if id == "no-such-terminal"));
}

#[test]
fn events_after_on_a_fresh_app_is_empty() {
    let mut claims = IdSet::new();
    let mut lease = FederationLease::new();
    let action =
        dispatch(&mut claims, &mut lease, &empty_host(), FederationCommand::EventsAfter(0));
    assert!(matches!(action, FederationAction::ReplyEventsAfter(0)));
    assert!(event_kinds::<u8>(vec![]).is_empty());
}

#[test]
fn snapshot_produces_a_fresh_snapshot_and_cursor_without_touching_the_lease() {
    let mut claims = IdSet::new();
    let mut lease = FederationLease::new();
    let action = dispatch(&mut claims, &mut lease, &empty_host(), FederationCommand::Snapshot);
    match action {
        FederationAction::ReplySnapshot(request) => {
            assert!(matches!(request.method, ApiMethod::SessionSnapshot));
        }
        other => panic!("expected a snapshot request, got {other:?}"),
    }
    assert!(
        !lease.is_mounted_controller(0, 1),
        "Snapshot must never acquire or mount the single-controller lease"
    );
    assert_eq!(session_snapshot(Some(SuccessResult::SessionSnapshot { snapshot: 7 }), 0), 7);
    assert_eq!(session_snapshot(Some(SuccessResult::Other), 0), 0);
    assert_eq!(session_snapshot(None, 0), 0);
}

#[test]
fn split_pane_against_an_unknown_target_pane_replies_with_a_reason() {
    let mut claims = IdSet::new();
    let mut lease = FederationLease::new();
    let action = dispatch(
        &mut claims,
        &mut lease,
        &empty_host(),
        FederationCommand::SplitPane {
            target_pane_id: "no-such-pane".to_string(),
            direction: SplitDirection::Right,
            ratio_bits: None,
            focus: false,
        },
    );
    match action {
        FederationAction::ReplySplit(request) => assert!(matches!(
            request.method,
            ApiMethod::PaneSplit {
                target_pane_id: Some(target),
                focus: false,
                right_click: RightClickPolicy::Default,
                ..
            } if target == "no-such-pane"
        )),
        other => panic!("expected a split request, got {other:?}"),
    }
    let answer = r#"{"id":"federation-split-pane","error":{"code":"pane_not_found","message":"pane no-such-pane not found"}}"#;
    let outcome = split_outcome::<u8>(None, answer);
    assert!(outcome.is_err(), "an unknown target pane must fail, not misfile");
    assert_eq!(outcome, Err("pane no-such-pane not found".to_string()));
}

#[test]
fn split_outcomes_carry_the_new_ids() {
    let success = SuccessResult::<u8>::PaneInfo {
        pane_id: "p2".to_string(),
        terminal_id: "t2".to_string(),
    };
    assert_eq!(
        split_outcome(Some(success), "{}"),
        Ok(("p2".to_string(), "t2".to_string()))
    );
    assert!(split_outcome::<u8>(Some(SuccessResult::Other), "{}").is_err());
    assert!(split_outcome::<u8>(None, "not json").is_err());
}

#[test]
fn close_pane_against_an_unknown_target_pane_replies_with_a_reason() {
    let mut claims = IdSet::new();
    let mut lease = FederationLease::new();
    let action = dispatch(
        &mut claims,
        &mut lease,
        &empty_host(),
        FederationCommand::ClosePane { target_pane_id: "no-such-pane".to_string() },
    );
    match action {
        FederationAction::ReplyClosedPane(request) => assert!(matches!(
            request.method,
            ApiMethod::PaneClose { pane_id } if pane_id == "no-such-pane"
        )),
        other => panic!("expected a close request, got {other:?}"),
    }
    let answer = r#"{"error":{"code":"pane_not_found","message":"pane no-such-pane not found"}}"#;
    let outcome = close_pane_outcome::<u8>(None, answer);
    assert!(outcome.is_err(), "an unknown target pane must fail, not misfile");
    assert_eq!(close_pane_outcome::<u8>(Some(SuccessResult::Other), "{}"), Ok(()));
}

#[test]
fn close_workspace_and_tab_remote_are_refused_for_a_non_controller_connid() {
    let mut claims = IdSet::new();
    let mut lease = FederationLease::new();
    let host = host_with_workspaces(&[("only", false)]);
    let epoch = acquire_and_mount(&mut claims, &mut lease, 1);

    let workspace = dispatch(
        &mut claims,
        &mut lease,
        &host,
        FederationCommand::CloseWorkspaceRemote {
            epoch,
            connid: 999,
            target_workspace_id: "only".to_string(),
        },
    );
    assert_eq!(
        refusal_of(workspace),
        NOT_THE_CONTROLLER,
        "a non-controller connid must be refused, not serviced"
    );
    let tab = dispatch(
        &mut claims,
        &mut lease,
        &host,
        FederationCommand::CloseTabRemote {
            epoch,
            connid: 999,
            target_tab_id: "only:1".to_string(),
        },
    );
    assert_eq!(
        refusal_of(tab),
        NOT_THE_CONTROLLER,
        "a non-controller connid must be refused, not serviced"
    );
}

#[test]
fn create_workspace_is_refused_for_a_non_controller_connid() {
    let mut claims = IdSet::new();
    let mut lease = FederationLease::new();
    let epoch = acquire_and_mount(&mut claims, &mut lease, 1);
    let action = dispatch(
        &mut claims,
        &mut lease,
        &host_with_workspaces(&[("only", false)]),
        FederationCommand::CreateWorkspace {
            epoch,
            connid: 999,
            label: Some("from-an-impostor".to_string()),
        },
    );
    assert_eq!(
        refusal_of(action),
        NOT_THE_CONTROLLER,
        "a non-controller connid must be refused, not serviced"
    );
}

#[test]
fn a_remote_workspace_is_created_without_taking_the_focus() {
    let mut claims = IdSet::new();
    let mut lease = FederationLease::new();
    let epoch = acquire_and_mount(&mut claims, &mut lease, 1);
    let action = dispatch(
        &mut claims,
        &mut lease,
        &empty_host(),
        FederationCommand::CreateWorkspace {
            epoch,
            connid: 1,
            label: Some("from-remote".to_string()),
        },
    );
    match action {
        FederationAction::ReplyCreatedWorkspace(request) => assert!(matches!(
            request.method,
            ApiMethod::WorkspaceCreate { focus: false, label: Some(label), .. }
                if label == "from-remote"
        )),
        other => panic!("expected a create request, got {other:?}"),
    }
}

#[test]
fn a_peers_tab_create_is_refused_when_it_is_not_the_mounted_controller() {
    let mut claims = IdSet::new();
    let mut lease = FederationLease::new();
    let epoch = acquire_and_mount(&mut claims, &mut lease, 1);
    let action = dispatch(
        &mut claims,
        &mut lease,
        &host_with_workspaces(&[("only", false)]),
        FederationCommand::CreateTab {
            epoch,
            connid: 999,
            target_workspace_id: "only".to_string(),
            label: Some("from-an-impostor".to_string()),
        },
    );
    assert_eq!(
        refusal_of(action),
        "not the mounted controller",
        "a non-controller connid must be refused, not serviced"
    );
}

#[test]
fn a_peers_tab_is_created_in_the_named_workspace() {
    let mut claims = IdSet::new();
    let mut lease = FederationLease::new();
    let epoch = acquire_and_mount(&mut claims, &mut lease, 1);
    let action = dispatch(
        &mut claims,
        &mut lease,
        &host_with_workspaces(&[("first", false), ("second", false)]),
        FederationCommand::CreateTab {
            epoch,
            connid: 1,
            target_workspace_id: "second".to_string(),
            label: Some("from-remote".to_string()),
        },
    );
    match action {
        FederationAction::ReplyCreatedTab(request) => assert!(matches!(
            request.method,
            ApiMethod::TabCreate {
                workspace_id: Some(workspace),
                focus: false,
                label: Some(label),
                ..
            } if workspace == "second" && label == "from-remote"
        )),
        other => panic!("expected a create request, got {other:?}"),
    }
}

#[test]
fn a_peers_tab_create_for_an_unknown_workspace_is_refused() {
    let mut claims = IdSet::new();
    let mut lease = FederationLease::new();
    let epoch = acquire_and_mount(&mut claims, &mut lease, 1);
    let action = dispatch(
        &mut claims,
        &mut lease,
        &host_with_workspaces(&[("only", false)]),
        FederationCommand::CreateTab {
            epoch,
            connid: 1,
            target_workspace_id: "no-such-workspace".to_string(),
            label: None,
        },
    );
    let reason = refusal_of(action);
    assert!(
        reason.starts_with("workspace_not_found"),
        "the peer must get this host's machine-readable code: {reason}"
    );
}

#[test]
fn a_peers_tab_create_redirected_onto_a_third_host_is_refused() {
    let mut claims = IdSet::new();
    let mut lease = FederationLease::new();
    let epoch = acquire_and_mount(&mut claims, &mut lease, 1);
    let action = dispatch(
        &mut claims,
        &mut lease,
        &host_with_workspaces(&[("r:alice@10.0.0.1#s1:w1", true)]),
        FederationCommand::CreateTab {
            epoch,
            connid: 1,
            target_workspace_id: "r:alice@10.0.0.1#s1:w1".to_string(),
            label: None,
        },
    );
    let reason = refusal_of(action);
    assert!(
        reason.starts_with("tab_create_redirected"),
        "a redirect must be reported under its own code: {reason}"
    );
}

#[test]
fn a_peers_tab_create_by_positional_shorthand_is_refused() {
    let mut claims = IdSet::new();
    let mut lease = FederationLease::new();
    let epoch = acquire_and_mount(&mut claims, &mut lease, 1);
    let action = dispatch(
        &mut claims,
        &mut lease,
        &host_with_workspaces(&[("r:alice@10.0.0.1#s1:w1", true)]),
        FederationCommand::CreateTab {
            epoch,
            connid: 1,
            target_workspace_id: "1".to_string(),
            label: None,
        },
    );
    let reason = refusal_of(action);
    assert!(
        reason.starts_with("workspace_not_found"),
        "a wire id must resolve exactly or not at all: {reason}"
    );
}

#[test]
fn create_outcomes_name_what_the_host_answered() {
    let ids = SuccessResult::<u8>::WorkspaceCreated {
        workspace_id: "w".to_string(),
        tab_id: "t".to_string(),
        pane_id: "p".to_string(),
        terminal_id: "x".to_string(),
    };
    let created = ("w".to_string(), "t".to_string(), "p".to_string(), "x".to_string());
    assert_eq!(create_workspace_outcome(Some(ids), "{}"), Ok(created.clone()));
    assert_eq!(
        create_workspace_reply::<u8>(
            Some(SuccessResult::WorkspaceCreateRequested { origin: "far".to_string() }),
            None
        ),
        Err(WORKSPACE_CREATE_REDIRECTED.to_string())
    );
    assert_eq!(
        create_workspace_reply::<u8>(Some(SuccessResult::Other), None),
        Err(WORKSPACE_CREATE_UNEXPECTED.to_string())
    );
    // The code is read out of the answer, and stands before a fixed sentence.
    assert_eq!(
        create_workspace_outcome::<u8>(None, r#"{"error":{"code":"quota_reached"}}"#),
        Err("quota_reached: workspace could not be created on the remote host".to_string())
    );
    assert_eq!(
        create_workspace_outcome::<u8>(None, "not json"),
        Err("workspace_create_failed: workspace could not be created on the remote host"
            .to_string())
    );

    let ids = SuccessResult::<u8>::TabCreated {
        workspace_id: "w".to_string(),
        tab_id: "t".to_string(),
        pane_id: "p".to_string(),
        terminal_id: "x".to_string(),
    };
    assert_eq!(create_tab_outcome(Some(ids), "{}"), Ok(created));
    assert!(create_tab_outcome::<u8>(None, "{}").is_err());
    assert_eq!(
        create_tab_reply::<u8>(Some(SuccessResult::Other), None),
        Err(TAB_CREATE_UNEXPECTED.to_string())
    );
}

#[test]
fn agent_statuses_are_read_off_the_list() {
    let success = SuccessResult::<u8>::AgentList {
        agents: vec![AgentEntry {
            terminal_id: "t1".to_string(),
            agent_status: AgentStatus::Blocked,
            agent: Some("pi".to_string()),
        }],
    };
    assert_eq!(
        agent_statuses(Some(success)),
        vec![("t1".to_string(), AgentStatus::Blocked, Some("pi".to_string()))]
    );
    assert!(agent_statuses::<u8>(None).is_empty());
}

#[test]
fn event_kinds_drop_the_payload_and_keep_the_order() {
    let events = vec![(3, EventEnvelope { event: 'a' }), (4, EventEnvelope { event: 'b' })];
    assert_eq!(event_kinds(events), vec![(3, 'a'), (4, 'b')]);
}

#[test]
fn scrollback_of_an_unknown_terminal_is_empty() {
    assert!(scrollback_replay(None).is_empty());
    assert!(scrollback_replay(Some(None)).is_empty());
    assert_eq!(scrollback_replay(Some(Some("old".to_string()))), b"old".to_vec());
}

#[test]
fn commands_are_described_without_their_payload() {
    let input = FederationCommand::SendInput {
        epoch: 0,
        connid: 1,
        terminal_id: "t1".to_string(),
        bytes: b"secret".to_vec(),
    };
    assert_eq!(input.describe(), "SendInput(t1, 6 bytes)");
    let resize = FederationCommand::Resize {
        epoch: 0,
        connid: 1,
        terminal_id: "t1".to_string(),
        cols: 80,
        rows: 24,
    };
    assert_eq!(resize.describe(), "Resize(t1, 80x24)");
    assert_eq!(FederationCommand::EventsAfter(12).describe(), "EventsAfter(12)");
    let mount = FederationCommand::Mount { epoch: 3, connid: 9 };
    assert_eq!(mount.describe(), "Mount(e3, c9)");
    let create = FederationCommand::CreateWorkspace {
        epoch: 0,
        connid: 1,
        label: Some("a\"b".to_string()),
    };
    assert_eq!(create.describe(), r#"CreateWorkspace(Some("a\"b"))"#);
    let unnamed = FederationCommand::CreateWorkspace { epoch: 0, connid: 1, label: None };
    assert_eq!(unnamed.describe(), "CreateWorkspace(None)");
}
