use herdr::detect::AgentState;
use herdr::server::client_accept::{accept_pending_client_connections, AcceptOutcome, AcceptStep};
use herdr::server::event_loop::{
    handle_scheduled_tasks_headless, loop_phase, next_deadline, render_wanted, Deadlines,
    DeferredAction, DeferredRequests, LoopAction, LoopEvent, LoopFacts, LoopPhase, LoopState,
    ScheduledTask, Work, CLIENT_ACCEPT_POLL_INTERVAL_MS,
};
use herdr::server::frame_cursor::{frame_cursor, CursorState, PaneCursor, RenderedCursor};
use herdr::server::handshake::{
    answer_hello, client_read_step, ClientMessage, ClientRead, HandshakeOutcome,
    HANDSHAKE_TIMEOUT_SECS, MAX_INPUT_PAYLOAD,
};
use herdr::server::headless::{
    changes_across_request, clamp_terminal_size, ClientConnection, ClientWriter,
    DefaultColorKind, Delivery, DeliveryReport, EventOutcome, FrameData, HeadlessServer, LocatedPane, PaneStates,
    RawInputEvent, RequestChange, RgbColor, ServerEvent, ServerMessage, SessionEvent,
    StateChangeFacts, TerminalTheme, ToastFacts, MIN_CLIENT_COLS, MIN_CLIENT_ROWS,
};
use herdr::server::notifications::{
    toast_message_from_state_change, toast_notify_kind, NotifyKind, PaneMention, ToastDelivery,
    ToastKind, ToastNotification,
};
use herdr::server::sockets::{
    client_socket_path, client_socket_path_from_overrides, derive_client_socket_from_api_socket,
    socket_busy_message,
};
use herdr::session::SessionContext;
use herdr::sound::Sound;
use herdr::geometry::Rect;
use herdr::ui::notices::render_toast_notification;
use herdr::ui::panes::PaneInfo;
use herdr::ui::plan::{Color, Palette};

fn context(socket_override: Option<&str>) -> SessionContext {
    SessionContext {
        config_dir: "/home/user/.config/herdr".to_string(),
        explicit: false,
        env_session: None,
        socket_override: socket_override.map(str::to_string),
    }
}

fn client(client_id: u64, size: (u16, u16), last_activity: u64) -> ClientConnection {
    ClientConnection {
        client_id,
        terminal_size: size,
        host_terminal_theme: TerminalTheme::default(),
        outer_terminal_focus: None,
        last_activity,
        last_frame: None,
        writer: None,
    }
}

fn connected(client_id: u64, size: (u16, u16), last_activity: u64) -> ClientConnection {
    ClientConnection { writer: Some(ClientWriter::new()), ..client(client_id, size, last_activity) }
}

fn color(r: u8, g: u8, b: u8) -> RgbColor {
    RgbColor { r, g, b }
}

fn messages(server: &HeadlessServer, at: usize) -> &Vec<ServerMessage> {
    &server.clients[at].writer.as_ref().expect("the client has a writer").queue
}

/// Handles input that the session's own routing leaves unchanged.
fn input(server: &mut HeadlessServer, client_id: u64, event: RawInputEvent) -> bool {
    let data: Vec<u8> = vec![];
    match server.handle_server_event(ServerEvent::ClientInput { client_id, data }, &vec![event]) {
        EventOutcome::RouteInput { client_id, changed, .. } => {
            server.finish_client_input(client_id, changed, false).render
        }
        other => panic!("expected the input to be routed, got {other:?}"),
    }
}

fn frame(width: u16, height: u16, fill: u8) -> FrameData {
    FrameData { width, height, content: vec![fill; 4] }
}

fn palette() -> Palette {
    Palette {
        accent: Color::Blue,
        panel_bg: Color::Black,
        surface0: Color::Indexed(1),
        surface1: Color::Indexed(2),
        surface_dim: Color::Indexed(3),
        overlay0: Color::Indexed(4),
        overlay1: Color::Indexed(5),
        text: Color::White,
        subtext0: Color::Gray,
        mauve: Color::Magenta,
        green: Color::Green,
        yellow: Color::Yellow,
        red: Color::Red,
        blue: Color::LightBlue,
        teal: Color::Cyan,
    }
}

#[test]
fn clamp_terminal_size_zero_zero() {
    assert_eq!(clamp_terminal_size(0, 0), (MIN_CLIENT_COLS, MIN_CLIENT_ROWS));
}

#[test]
fn clamp_terminal_size_one_one() {
    assert_eq!(clamp_terminal_size(1, 1), (1, 1));
}

#[test]
fn clamp_terminal_size_preserves_narrow_client_size() {
    assert_eq!(clamp_terminal_size(40, 12), (40, 12));
}

#[test]
fn clamp_terminal_size_valid() {
    assert_eq!(clamp_terminal_size(120, 40), (120, 40));
}

#[test]
fn clamp_terminal_size_exact_minimum() {
    assert_eq!(
        clamp_terminal_size(MIN_CLIENT_COLS, MIN_CLIENT_ROWS),
        (MIN_CLIENT_COLS, MIN_CLIENT_ROWS)
    );
}

#[test]
fn client_socket_path_derived_from_api_socket_override() {
    let path = client_socket_path_from_overrides(&context(Some("/tmp/test-herdr.sock")), None);
    assert_eq!(path, "/tmp/test-herdr-client.sock");
}

#[test]
fn client_socket_path_api_override_takes_precedence_over_legacy_client_override() {
    let path = client_socket_path_from_overrides(
        &context(Some("/tmp/test-herdr.sock")),
        Some("/tmp/legacy-client.sock"),
    );
    assert_eq!(path, "/tmp/test-herdr-client.sock");
}

#[test]
fn client_socket_path_respects_legacy_client_override_without_api_override() {
    let path =
        client_socket_path_from_overrides(&context(None), Some("/tmp/test-herdr-client.sock"));
    assert_eq!(path, "/tmp/test-herdr-client.sock");
}

#[test]
fn client_socket_path_defaults_to_config_dir() {
    let path = client_socket_path_from_overrides(&context(None), None);
    assert_eq!(path, "/home/user/.config/herdr/herdr-client.sock");
}

#[test]
fn an_explicit_session_ignores_both_socket_overrides() {
    let chosen = SessionContext {
        explicit: true,
        env_session: Some("work".to_string()),
        ..context(Some("/tmp/test-herdr.sock"))
    };
    assert_eq!(
        client_socket_path(&chosen, Some("/tmp/legacy-client.sock")),
        "/home/user/.config/herdr/sessions/work/herdr-client.sock"
    );
}

#[test]
fn derive_client_socket_from_api_socket_without_sock_extension() {
    let derived = derive_client_socket_from_api_socket("/tmp/custom-api");
    assert_eq!(derived, "/tmp/custom-api-client.sock");
}

#[test]
fn a_bare_api_socket_keeps_its_client_socket_beside_it() {
    assert_eq!(derive_client_socket_from_api_socket("custom.sock"), "custom-client.sock");
}

#[test]
fn a_busy_socket_is_named() {
    let message = socket_busy_message("/tmp/live.sock");
    assert!(message.contains("/tmp/live.sock"));
}

#[test]
fn virtual_render_without_frame_cursor_keeps_cursor_hidden() {
    let mut rendered = RenderedCursor::new();
    assert_eq!(frame_cursor(true, &vec![], &vec![], rendered.rendered_cursor()), None);
    rendered.set_cursor_position(3, 4);
    assert_eq!(
        frame_cursor(true, &vec![], &vec![], rendered.rendered_cursor()),
        Some(CursorState { x: 3, y: 4, visible: true })
    );
    rendered.hide_cursor();
    assert_eq!(rendered.rendered_cursor(), None);
}

fn pane_info(id: u64, inner_rect: Rect) -> PaneInfo {
    PaneInfo {
        id,
        rect: inner_rect,
        inner_rect,
        scrollbar_rect: None,
        is_focused: true,
    }
}

#[test]
fn virtual_render_preserves_explicit_frame_cursor_position() {
    let infos = vec![pane_info(1, Rect::new(30, 2, 20, 5))];
    let cursors = vec![PaneCursor {
        pane_id: 1,
        cursor: Some(CursorState { x: 30 + 4, y: 2, visible: true }),
    }];
    assert_eq!(
        frame_cursor(true, &infos, &cursors, None),
        Some(CursorState { x: 30 + 4, y: 2, visible: true })
    );
}

#[test]
fn virtual_render_preserves_hidden_focused_pane_cursor_position() {
    let infos = vec![pane_info(1, Rect::new(30, 2, 20, 5))];
    let cursors = vec![PaneCursor {
        pane_id: 1,
        cursor: Some(CursorState { x: 30 + 4, y: 2, visible: false }),
    }];
    assert_eq!(
        frame_cursor(true, &infos, &cursors, None),
        Some(CursorState { x: 30 + 4, y: 2, visible: false })
    );
}

#[test]
fn latest_active_client_drives_shared_size_theme_and_fallback() {
    let mut server = HeadlessServer::new();
    let first_theme = TerminalTheme {
        foreground: Some(color(0xaa, 0xbb, 0xcc)),
        background: Some(color(0x11, 0x22, 0x33)),
    };
    let second_theme = TerminalTheme {
        foreground: Some(color(0x10, 0x20, 0x30)),
        background: Some(color(0xdd, 0xee, 0xff)),
    };
    server.clients.push(ClientConnection {
        host_terminal_theme: first_theme,
        ..client(1, (160, 45), 1)
    });
    server.clients.push(ClientConnection {
        host_terminal_theme: second_theme,
        ..client(2, (80, 24), 2)
    });

    assert!(server.promote_client_to_foreground(1));
    assert_eq!(server.foreground_client_id, Some(1));
    assert_eq!(server.effective_size, (160, 45));
    assert_eq!(server.host_terminal_theme, first_theme);

    assert!(server.promote_client_to_foreground(2));
    assert_eq!(server.foreground_client_id, Some(2));
    assert_eq!(server.effective_size, (80, 24));
    assert_eq!(server.host_terminal_theme, second_theme);

    assert!(server.remove_client(2));
    assert_eq!(server.foreground_client_id, Some(1));
    assert_eq!(server.effective_size, (160, 45));
    assert_eq!(server.host_terminal_theme, first_theme);
}

#[test]
fn focus_lost_updates_client_without_promoting_foreground() {
    let mut server = HeadlessServer::new();
    server.clients.push(client(1, (120, 40), 1));
    server.clients.push(ClientConnection {
        outer_terminal_focus: Some(true),
        ..client(2, (80, 24), 2)
    });
    server.foreground_client_id = Some(2);
    server.sync_foreground_client_state();

    let changed = input(&mut server, 1, RawInputEvent::OuterFocusLost);

    assert!(!changed);
    assert_eq!(server.foreground_client_id, Some(2));
    assert_eq!(server.clients[0].outer_terminal_focus, Some(false));
    assert_eq!(server.outer_terminal_focus, Some(true));
}

#[test]
fn focus_gained_promotes_client_to_foreground() {
    let mut server = HeadlessServer::new();
    server.clients.push(client(1, (120, 40), 1));
    server.clients.push(ClientConnection {
        outer_terminal_focus: Some(true),
        ..client(2, (80, 24), 2)
    });
    server.foreground_client_id = Some(2);
    server.sync_foreground_client_state();

    let changed = input(&mut server, 1, RawInputEvent::OuterFocusGained);

    assert!(changed);
    assert_eq!(server.foreground_client_id, Some(1));
    assert_eq!(server.clients[0].outer_terminal_focus, Some(true));
    assert_eq!(server.outer_terminal_focus, Some(true));
}

#[test]
fn foreground_client_focus_event_updates_app_focus_state() {
    let mut server = HeadlessServer::new();
    server.clients.push(ClientConnection {
        outer_terminal_focus: Some(true),
        ..client(1, (120, 40), 1)
    });
    server.foreground_client_id = Some(1);
    server.sync_foreground_client_state();

    let changed = input(&mut server, 1, RawInputEvent::OuterFocusLost);

    assert!(!changed);
    assert_eq!(server.clients[0].outer_terminal_focus, Some(false));
    assert_eq!(server.outer_terminal_focus, Some(false));
}

#[test]
fn a_client_that_detaches_is_told_and_gets_nothing_more() {
    let mut server = HeadlessServer::new();
    server.clients.push(connected(1, (80, 24), 1));
    let finished = server.finish_client_input(1, true, true);
    assert!(!finished.render);
    let way = finished.last_way.expect("the client had a way");
    assert!(matches!(
        &way.queue[0],
        ServerMessage::ServerShutdown { reason: Some(reason) } if reason == "detached"
    ));
    assert!(server.clients[0].writer.is_none());
    let targets = server.render_targets();
    assert!(targets.is_empty());
    assert_eq!(server.unattended_render(&targets, false), Some((server.effective_size, true)));
    assert_eq!(server.unattended_render(&targets, true), Some((server.effective_size, false)));
}

#[test]
fn a_reported_color_becomes_the_foreground_clients_theme() {
    let mut server = HeadlessServer::new();
    server.clients.push(client(1, (120, 40), 1));
    server.foreground_client_id = Some(1);
    server.sync_foreground_client_state();
    let reported = RawInputEvent::HostDefaultColor {
        kind: DefaultColorKind::Background,
        color: color(1, 2, 3),
    };
    assert!(input(&mut server, 1, reported));
    assert_eq!(server.host_terminal_theme.background, Some(color(1, 2, 3)));
    assert_eq!(server.host_terminal_theme.foreground, None);
}

#[test]
fn render_and_stream_uses_each_client_terminal_size() {
    let mut server = HeadlessServer::new();
    server.clients.push(connected(1, (120, 40), 1));
    server.clients.push(connected(2, (80, 24), 2));
    server.foreground_client_id = Some(1);
    server.sync_foreground_client_state();
    server.resize_shared_runtime_to_effective_size();

    let screens = server
        .render_targets()
        .iter()
        .map(|target| (target.client_id, frame(target.size.0, target.size.1, 7)))
        .collect();
    server.stream_screens(screens);

    let size_of = |at: usize| match &messages(&server, at)[0] {
        ServerMessage::Frame(frame) => (frame.width, frame.height),
        other => panic!("expected frame, got {other:?}"),
    };
    assert_eq!(size_of(0), (120, 40));
    assert_eq!(size_of(1), (80, 24));
}

#[test]
fn render_and_stream_skips_identical_frame_sends() {
    let mut server = HeadlessServer::new();
    server.clients.push(connected(1, (80, 24), 1));
    server.foreground_client_id = Some(1);
    server.sync_foreground_client_state();
    server.resize_shared_runtime_to_effective_size();

    server.stream_screens(vec![(1, frame(80, 24, 7))]);
    assert_eq!(messages(&server, 0).len(), 1, "expected first frame to be sent");
    server.stream_screens(vec![(1, frame(80, 24, 7))]);
    assert_eq!(messages(&server, 0).len(), 1, "identical frame should not be sent twice");
    server.stream_screens(vec![(1, frame(80, 24, 8))]);
    assert_eq!(messages(&server, 0).len(), 2);
}

#[test]
fn client_sound_reload_request_refreshes_attached_clients() {
    let mut server = HeadlessServer::new();
    server.clients.push(connected(1, (80, 24), 1));
    let mut requested = true;

    server.drain_client_sound_config_reload_request(&mut requested);

    match &messages(&server, 0)[0] {
        ServerMessage::ReloadSoundConfig => {}
        other => panic!("expected ReloadSoundConfig, got {other:?}"),
    }
    assert!(!requested);
}

#[test]
fn clipboard_write_targets_foreground_client_only() {
    let mut server = HeadlessServer::new();
    server.clients.push(connected(1, (120, 40), 1));
    server.clients.push(connected(2, (80, 24), 2));
    server.foreground_client_id = Some(2);
    server.sync_foreground_client_state();

    let changed = server.handle_internal_event_with_forwarding(SessionEvent::ClipboardWrite {
        content: b"test".to_vec(),
    });

    assert!(!changed);
    match &messages(&server, 1)[0] {
        ServerMessage::Clipboard { data } => assert_eq!(data, "dGVzdA=="),
        other => panic!("expected clipboard message, got {other:?}"),
    }
    assert!(
        messages(&server, 0).is_empty(),
        "background client should not receive clipboard writes"
    );
}

#[test]
fn client_local_notifications_target_foreground_client_only() {
    let mut server = HeadlessServer::new();
    server.clients.push(connected(1, (120, 40), 1));
    server.clients.push(connected(2, (80, 24), 2));
    server.foreground_client_id = Some(2);
    server.sync_foreground_client_state();

    assert!(server.send_to_foreground_client(ServerMessage::Notify {
        kind: NotifyKind::Toast,
        message: "pi finished: workspace 1".to_string(),
    }));

    match &messages(&server, 1)[0] {
        ServerMessage::Notify { kind, message } => {
            assert_eq!(*kind, NotifyKind::Toast);
            assert_eq!(message, "pi finished: workspace 1");
        }
        other => panic!("expected toast notify, got {other:?}"),
    }
    assert!(
        messages(&server, 0).is_empty(),
        "background client should not receive client-local notifications"
    );
}

#[test]
fn herdr_toast_delivery_keeps_toast_in_frame_without_client_notify() {
    let mut server = HeadlessServer::new();
    server.clients.push(connected(1, (80, 24), 1));
    server.foreground_client_id = Some(1);
    let toast = ToastNotification {
        kind: ToastKind::UpdateInstalled,
        title: "v9.9.9 available".to_string(),
        context: "detach, then run `herdr update`".to_string(),
    };
    let in_frame = render_toast_notification(Rect::new(0, 0, 80, 24), &toast, false, &palette());
    let facts = ToastFacts { delivery: ToastDelivery::Herdr, before: None, after: Some(toast) };
    let toast_is_set = facts.after.is_some();
    let changed = server.handle_internal_event_with_forwarding(SessionEvent::UpdateReady {
        version: "9.9.9".to_string(),
        toast: facts,
    });

    assert!(changed);
    assert!(toast_is_set);
    assert!(format!("{in_frame:?}").contains("v9.9.9 available"));
    assert!(
        messages(&server, 0).is_empty(),
        "herdr delivery should render in-frame instead of forwarding a terminal notification"
    );
}

#[test]
fn terminal_toast_delivery_tells_the_foreground_client_of_an_update() {
    let mut server = HeadlessServer::new();
    server.clients.push(connected(1, (80, 24), 1));
    server.foreground_client_id = Some(1);
    server.handle_internal_event_with_forwarding(SessionEvent::UpdateReady {
        version: "9.9.9".to_string(),
        toast: ToastFacts { delivery: ToastDelivery::Terminal, before: None, after: None },
    });
    match &messages(&server, 0)[0] {
        ServerMessage::Notify { message, .. } => {
            assert_eq!(message, "v9.9.9 available: detach, then run `herdr update`");
        }
        other => panic!("expected toast notify, got {other:?}"),
    }
}

#[test]
fn a_finished_agent_sounds_and_toasts_at_the_foreground_client() {
    let mut server = HeadlessServer::new();
    server.clients.push(connected(1, (80, 24), 1));
    server.foreground_client_id = Some(1);
    server.handle_internal_event_with_forwarding(SessionEvent::StateChanged(StateChangeFacts {
        pane_id: 4,
        sound_allowed: true,
        sound: Some(Sound::Done),
        toast_kind: Some(ToastKind::Finished),
        toast: ToastFacts { delivery: ToastDelivery::Terminal, before: None, after: None },
        mentions: vec![PaneMention {
            pane_id: 4,
            agent_label: Some("pi".to_string()),
            context: "workspace 1".to_string(),
        }],
    }));
    let kinds: Vec<NotifyKind> = messages(&server, 0)
        .iter()
        .map(|message| match message {
            ServerMessage::Notify { kind, .. } => *kind,
            other => panic!("expected a notification, got {other:?}"),
        })
        .collect();
    assert_eq!(kinds, vec![NotifyKind::Sound, NotifyKind::Toast]);
}

#[test]
fn handshake_timeout_is_within_five_second_deadline() {
    assert!(
        HANDSHAKE_TIMEOUT_SECS < 5,
        "the connection must close within the 5-second deadline"
    );
}

#[test]
fn a_first_message_other_than_hello_is_rejected() {
    let welcomed = answer_hello(ClientMessage::Hello { version: 1, cols: 0, rows: 50 }, None);
    assert!(matches!(welcomed, HandshakeOutcome::Welcome { .. }));
    let incompatible = answer_hello(
        ClientMessage::Hello { version: 9, cols: 80, rows: 24 },
        Some("too new".to_string()),
    );
    assert!(matches!(incompatible, HandshakeOutcome::Reject { error } if error == "too new"));
    assert!(matches!(
        answer_hello(ClientMessage::Detach, None),
        HandshakeOutcome::Reject { .. }
    ));
}

#[test]
fn client_messages_become_server_events() {
    let read = ClientRead::Message(ClientMessage::Resize { cols: 100, rows: 30 });
    let step = client_read_step(7, read);
    assert!(step.reading);
    assert!(matches!(
        step.event,
        Some(ServerEvent::ClientResize { client_id: 7, cols: 100, rows: 30 })
    ));
    let ended = client_read_step(7, ClientRead::Ended);
    assert!(!ended.reading);
    assert!(matches!(ended.event, Some(ServerEvent::ClientDisconnected { client_id: 7 })));
    let detached = client_read_step(7, ClientRead::Message(ClientMessage::Detach));
    assert!(detached.reading);
    assert!(matches!(detached.event, Some(ServerEvent::ClientDetach { client_id: 7 })));
    let oversized = ClientMessage::Input { data: vec![0; MAX_INPUT_PAYLOAD + 1] };
    assert!(matches!(
        client_read_step(7, ClientRead::Message(oversized)).event,
        Some(ServerEvent::ClientDisconnected { client_id: 7 })
    ));
    let largest = ClientMessage::Input { data: vec![0; MAX_INPUT_PAYLOAD] };
    assert!(matches!(
        client_read_step(7, ClientRead::Message(largest)).event,
        Some(ServerEvent::ClientInput { client_id: 7, .. })
    ));
}

#[test]
fn accepted_clients_are_numbered_in_order() {
    let mut next: u64 = 1;
    let accept = |next: &mut u64, prepared: bool| {
        accept_pending_client_connections(next, AcceptOutcome::Accepted { prepared })
    };
    assert!(matches!(accept(&mut next, true), AcceptStep::Serve { id: 1 }));
    assert!(matches!(accept(&mut next, true), AcceptStep::Serve { id: 2 }));
    assert!(matches!(
        accept_pending_client_connections(&mut next, AcceptOutcome::WouldBlock),
        AcceptStep::Stop
    ));
}

#[test]
fn toasts_name_the_agent_and_its_place() {
    let mentions = vec![PaneMention {
        pane_id: 4,
        agent_label: Some("pi".to_string()),
        context: "workspace 1".to_string(),
    }];
    assert_eq!(
        toast_message_from_state_change(&mentions, 4, Some(ToastKind::Finished)),
        Some("pi finished: workspace 1".to_string())
    );
    assert_eq!(toast_message_from_state_change(&mentions, 5, Some(ToastKind::Finished)), None);
    assert_eq!(toast_message_from_state_change(&mentions, 4, None), None);
    assert_eq!(toast_notify_kind(ToastDelivery::Herdr), None);
    assert_eq!(toast_notify_kind(ToastDelivery::System), Some(NotifyKind::SystemToast));
}

#[test]
fn a_server_that_shuts_down_refuses_requests_and_tells_its_clients() {
    let mut server = HeadlessServer::new();
    server.clients.push(connected(1, (80, 24), 1));
    assert!(server.refuse_request("req-1".to_string()).is_none());
    server.initiate_shutdown();
    let refusal = server.refuse_request("req-2".to_string()).expect("the request is refused");
    assert_eq!(refusal.id, "req-2");
    assert_eq!(refusal.code, "server_unavailable");
    assert_eq!(refusal.message, "server is shutting down");
    assert!(!refusal.render);
    server.complete_shutdown();
    assert!(matches!(
        messages(&server, 0).last(),
        Some(ServerMessage::ServerShutdown { .. })
    ));
}

#[test]
fn a_request_announces_each_changed_agent() {
    let mut server = HeadlessServer::new();
    server.clients.push(connected(1, (80, 24), 1));
    server.foreground_client_id = Some(1);
    let toast = ToastFacts { delivery: ToastDelivery::Off, before: None, after: None };
    let changes = vec![RequestChange {
        toast_kind: Some(ToastKind::Finished),
        agent_label: Some("pi".to_string()),
        context: "workspace 1".to_string(),
        sound_allowed: true,
        sound: Some(Sound::Done),
    }];
    server.announce_request(&toast, &changes);
    assert_eq!(messages(&server, 0).len(), 1);
    assert!(matches!(
        messages(&server, 0)[0],
        ServerMessage::Notify { kind: NotifyKind::Sound, .. }
    ));
}

#[test]
fn only_panes_whose_state_changed_are_reported() {
    let pane = |pane_id: u64, state: AgentState| LocatedPane {
        ws_idx: 0,
        states: PaneStates { pane_id, state, hook_state: None },
    };
    let before = vec![pane(1, AgentState::Working), pane(2, AgentState::Idle)];
    let after = vec![pane(1, AgentState::Idle), pane(2, AgentState::Idle)];
    let changes = changes_across_request(&before, &after);
    assert_eq!(changes.len(), 1);
    assert_eq!(changes[0].pane_id, 1);
    assert_eq!(changes[0].from, AgentState::Working);
    assert_eq!(changes[0].to, AgentState::Idle);
}

#[test]
fn shutdown_outranks_every_other_phase() {
    assert_eq!(loop_phase(true, true, true), LoopPhase::CompleteShutdown);
    assert_eq!(loop_phase(false, true, false), LoopPhase::InitiateShutdown);
    assert_eq!(loop_phase(false, false, true), LoopPhase::InitiateShutdown);
    assert_eq!(loop_phase(false, false, false), LoopPhase::Work);
}

fn idle_loop() -> LoopFacts {
    LoopFacts {
        shutting_down: false,
        session_quits: false,
        signalled: false,
        dirty: false,
        outcome: LoopEvent::Timer,
        can_render_now: true,
    }
}

#[test]
fn a_turn_works_in_order_and_then_renders() {
    let mut turns = LoopState::new();
    let order = [
        Work::InternalEvents,
        Work::ApiRequests,
        Work::SyncSession,
        Work::AcceptClients,
        Work::ServerEvents,
        Work::ScheduledTasks,
        Work::DeferredRequests,
        Work::ClientSounds,
        Work::AnimationTimer,
    ];
    for work in order {
        assert_eq!(turns.step(&idle_loop()), LoopAction::Work(work));
    }
    assert_eq!(turns.step(&idle_loop()), LoopAction::RenderAndStream);
    for work in order {
        assert_eq!(turns.step(&idle_loop()), LoopAction::Work(work));
    }
    assert_eq!(turns.step(&idle_loop()), LoopAction::Wait);
    let woken = LoopFacts { outcome: LoopEvent::Handled { render: true }, ..idle_loop() };
    assert_eq!(turns.step(&woken), LoopAction::Work(Work::InternalEvents));
    assert!(turns.needs_render);
}

#[test]
fn a_render_waits_until_it_may_happen() {
    let mut turns =
        LoopState { last: LoopAction::Work(Work::AnimationTimer), needs_render: true };
    let too_soon = LoopFacts { can_render_now: false, ..idle_loop() };
    assert_eq!(turns.step(&too_soon), LoopAction::Wait);
    assert!(turns.needs_render);
    let dirty = LoopFacts { dirty: true, ..idle_loop() };
    let mut quiet = LoopState { last: LoopAction::Wait, needs_render: false };
    assert_eq!(quiet.step(&dirty), LoopAction::Work(Work::InternalEvents));
    assert!(quiet.needs_render);
}

#[test]
fn a_shutdown_is_finished_and_the_loop_is_left() {
    let mut turns = LoopState { last: LoopAction::Wait, needs_render: false };
    let signalled = LoopFacts { signalled: true, ..idle_loop() };
    assert_eq!(turns.step(&signalled), LoopAction::InitiateShutdown);
    let shutting_down = LoopFacts { shutting_down: true, ..signalled };
    assert_eq!(turns.step(&shutting_down), LoopAction::CompleteShutdown);
    assert_eq!(turns.step(&shutting_down), LoopAction::Leave);
    assert_eq!(turns.step(&shutting_down), LoopAction::Leave);
}

#[test]
fn deferred_requests_are_taken_once() {
    let mut requests = DeferredRequests {
        complete_onboarding: true,
        new_workspace: false,
        new_tab: true,
        reload_config: true,
    };
    let onboarding = requests.take_after(None);
    assert_eq!(onboarding, Some(DeferredAction::OpenSettingsFromOnboarding));
    // What a request leaves for a later place is taken in the same turn, what it
    // leaves for an earlier one in the next.
    requests.new_workspace = true;
    requests.complete_onboarding = true;
    let workspace = requests.take_after(onboarding);
    assert_eq!(workspace, Some(DeferredAction::CreateWorkspace));
    let tab = requests.take_after(workspace);
    assert_eq!(tab, Some(DeferredAction::CreateTab));
    let config = requests.take_after(tab);
    assert_eq!(config, Some(DeferredAction::ReloadConfig));
    assert_eq!(requests.take_after(config), None);
    assert_eq!(requests.take_after(None), Some(DeferredAction::OpenSettingsFromOnboarding));
    assert_eq!(requests.take_after(None), None);
}

#[test]
fn the_loop_wakes_at_the_earlier_deadline() {
    let poll = CLIENT_ACCEPT_POLL_INTERVAL_MS;
    assert_eq!(next_deadline(None, 1000), 1000 + poll);
    assert_eq!(next_deadline(Some(1100), 1000), 1100);
    assert_eq!(next_deadline(Some(9000), 1000), 1000 + poll);
    assert!(render_wanted(false, LoopEvent::Handled { render: true }));
    assert!(render_wanted(true, LoopEvent::Timer));
    assert!(!render_wanted(false, LoopEvent::RenderRequested { dirty: false }));
}

#[test]
fn due_tasks_run_and_their_deadlines_are_cleared() {
    let mut deadlines = Deadlines {
        config_diagnostic: Some(5),
        toast: Some(50),
        animation: Some(10),
        git_refresh: None,
        auto_update: None,
        session_save: Some(10),
    };
    let mut spinner: u32 = 0;
    let work = handle_scheduled_tasks_headless(&mut deadlines, &mut spinner, 10, 8, 100);
    assert!(work.changed);
    assert!(work.tasks.contains(&ScheduledTask::ClearConfigDiagnostic));
    assert!(work.tasks.contains(&ScheduledTask::AdvanceAnimation));
    assert!(work.tasks.contains(&ScheduledTask::SaveSession));
    assert!(!work.tasks.contains(&ScheduledTask::ClearToast));
    assert_eq!(spinner, 8);
    assert_eq!(deadlines.config_diagnostic, None);
    assert_eq!(deadlines.toast, Some(50));
}

#[test]
fn clients_that_cannot_be_written_to_are_dropped() {
    let report = |client_id: u64, screen: bool, delivery: Delivery| DeliveryReport {
        client_id,
        screen,
        delivery,
    };
    let mut server = HeadlessServer::new();
    for id in 1..=4u64 {
        server.clients.push(connected(id, (80, 24), id));
    }
    server.foreground_client_id = Some(3);
    server.settle_deliveries(&vec![
        report(1, true, Delivery::Taken),
        report(2, false, Delivery::Unframed),
        report(3, true, Delivery::Unframed),
        report(4, false, Delivery::Closed),
    ]);
    let left: Vec<u64> = server.clients.iter().map(|client| client.client_id).collect();
    assert_eq!(left, vec![1, 2]);
    assert_eq!(server.foreground_client_id, Some(2));
}
