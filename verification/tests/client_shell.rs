use herdr::geometry::{Direction, Rect};
use herdr::server::client_shell::{
    content_revision, pixel_size, render_pane_surface, render_popup_surface,
    resize_popup_runtime, snapshot, sort_tokens, split_hit_rect, tab_bar_segments, ActiveTab,
    ClientShellLocation, ClientShellSnapshot, HostCellSize, IntegrationStatusKind, NameSource,
    PopupSource, ReleaseNotes, RemoteMountAttempt, RemoteMountOutcome, RuntimeFacts, Session,
    SessionAgent, SessionPane, SessionTab, SessionWorkspace, SplitBorder, SurfaceScene,
    SurfaceSource, TabBarStatusSegment, TabFacts, Token,
};

type Status = u8;

fn session() -> Session<Status, ()> {
    Session {
        focused_workspace_id: None,
        focused_tab_id: None,
        focused_pane_id: None,
        workspaces: vec![],
        tabs: vec![],
        tab_zooms: vec![],
        panes: vec![],
        agents: vec![],
        tab_facts: vec![],
        agent_view_override: None,
        agent_panes: vec![],
        tab_bar_right: vec![],
        tab_bar_right_separator: String::new(),
        product_announcement: None,
        update_available: None,
        update_install_command: String::new(),
        server_keybindings_toml: None,
        latest_release_notes_available: false,
        latest_release_notes: None,
        integrations: vec![],
        worktree_directory: String::new(),
        auto_resize_splits: false,
        commands: (),
        remote_mount_attempts: vec![],
        recent_remote_mount_targets: vec![],
    }
}

fn workspace(id: &str, label: &str, name_source: NameSource) -> SessionWorkspace<Status> {
    SessionWorkspace {
        workspace_id: id.to_string(),
        active_tab_id: format!("{id}:1"),
        number: 1,
        label: label.to_string(),
        name_source,
        tokens: vec![],
        worktree: None,
        agent_status: 0,
        federation_origin: None,
        branch: None,
        git_ahead_behind: None,
        new_workspace_cwds: vec![],
        new_workspace_cwd: "/home".to_string(),
    }
}

fn tab(workspace_id: &str, number: usize, label: &str, name_source: NameSource) -> SessionTab<Status> {
    SessionTab {
        tab_id: format!("{workspace_id}:{number}"),
        workspace_id: workspace_id.to_string(),
        number,
        label: label.to_string(),
        name_source,
        agent_status: 0,
    }
}

fn facts(tab_id: &str, workspace_index: usize, tab_index: usize, focused: Option<&str>) -> TabFacts {
    TabFacts {
        tab_id: tab_id.to_string(),
        workspace_index,
        tab_index,
        focused_pane_id: focused.map(str::to_string),
        zoomed: false,
    }
}

fn show(session: Session<Status, ()>) -> ClientShellSnapshot<Status, ()> {
    snapshot(session, "boot".to_string(), 1, None, None)
}

#[test]
fn snapshot_projects_cached_release_and_update_facts() {
    let shown = snapshot(
        Session {
            update_available: Some("0.8.3".into()),
            update_install_command: "herdr update".into(),
            latest_release_notes_available: true,
            latest_release_notes: Some(ReleaseNotes {
                version: "0.8.3".into(),
                body: "### Changed\n- Client shell".into(),
                preview: true,
            }),
            ..session()
        },
        "boot".to_string(),
        7,
        None,
        None,
    );

    assert_eq!(shown.boot_id, "boot");
    assert_eq!(shown.revision, 7);
    assert_eq!(shown.update_available.as_deref(), Some("0.8.3"));
    assert_eq!(shown.update_install_command, "herdr update");
    assert!(shown.latest_release_notes_available);
    assert!(!shown.integration_updates_available);
    assert_eq!(
        shown
            .release_notes
            .as_ref()
            .map(|notes| (notes.version.as_str(), notes.body.as_str(), notes.preview)),
        Some(("0.8.3", "### Changed\n- Client shell", true))
    );
}

#[test]
fn snapshot_carries_remote_mount_attempts_and_recent_targets() {
    let attempt = |target: &str, outcome: RemoteMountOutcome| RemoteMountAttempt {
        target: target.to_string(),
        outcome,
    };
    let shown = show(Session {
        remote_mount_attempts: vec![
            attempt("host-a", RemoteMountOutcome::Dialling),
            attempt("host-b", RemoteMountOutcome::Mounted { workspace_id: Some("w2".into()) }),
            attempt("host-c", RemoteMountOutcome::Failed { reason: "connection refused".into() }),
        ],
        recent_remote_mount_targets: vec!["host-b".into(), "host-a".into()],
        ..session()
    });

    let attempts: Vec<_> = shown
        .remote_mount_attempts
        .iter()
        .map(|attempt| {
            (
                attempt.target.as_str(),
                attempt.mounted,
                attempt.mounted_workspace_id.as_deref(),
                attempt.error.as_deref(),
            )
        })
        .collect();
    assert_eq!(
        attempts,
        vec![
            ("host-a", false, None, None),
            ("host-b", true, Some("w2"), None),
            ("host-c", false, None, Some("connection refused")),
        ]
    );
    assert_eq!(
        shown.recent_remote_mount_targets,
        vec!["host-b".to_string(), "host-a".to_string()]
    );
}

#[test]
fn char_client_shell_tabs_pair_with_their_own_workspace_tab() {
    let shown = show(Session {
        workspaces: vec![
            workspace("ws1", "ws1", NameSource::Override),
            workspace("ws2", "ws2", NameSource::Override),
        ],
        tabs: vec![
            tab("ws1", 1, "1", NameSource::Derived),
            tab("ws1", 2, "renamed-tab", NameSource::Override),
            tab("ws2", 1, "1", NameSource::Derived),
            tab("ws2", 2, "2", NameSource::Derived),
        ],
        tab_zooms: vec![false, true, false, false],
        ..session()
    });

    assert_eq!(shown.tabs.len(), 4);
    let expected = [
        ("ws1", "1", NameSource::Derived, false),
        ("ws1", "renamed-tab", NameSource::Override, true),
        ("ws2", "1", NameSource::Derived, false),
        ("ws2", "2", NameSource::Derived, false),
    ];
    for (client_tab, (ws_id, label, name_source, zoomed)) in shown.tabs.iter().zip(expected) {
        assert_eq!(client_tab.workspace_id, ws_id);
        assert_eq!(client_tab.label, label);
        assert_eq!(client_tab.name_source, name_source);
        assert_eq!(client_tab.zoomed, zoomed);
    }
    assert_ne!(shown.tabs[0].name_source, NameSource::Override);
    assert_eq!(shown.tabs[1].name_source, NameSource::Override);
    assert_eq!(shown.tabs[1].label, "renamed-tab");
    assert_ne!(shown.tabs[2].name_source, NameSource::Override);
    assert_ne!(shown.tabs[3].name_source, NameSource::Override);
}

#[test]
fn name_source_distinguishes_override_from_every_other_rung() {
    let shown = show(Session {
        workspaces: vec![
            workspace("w1", "named-ws", NameSource::Override),
            workspace("w2", "ignored", NameSource::Derived),
        ],
        tabs: vec![
            tab("w1", 1, "1", NameSource::Derived),
            tab("w2", 1, "1", NameSource::Derived),
            tab("w2", 2, "named-tab", NameSource::Override),
            tab("w2", 3, "3", NameSource::Derived),
        ],
        tab_zooms: vec![false; 4],
        ..session()
    });

    assert_eq!(shown.workspaces[0].name_source, NameSource::Override, "named workspace");
    assert_ne!(shown.workspaces[1].name_source, NameSource::Override, "auto workspace");
    let auto_tabs = &shown.tabs[1..4];
    assert_ne!(auto_tabs[0].name_source, NameSource::Override, "root tab is auto-named");
    assert_eq!(auto_tabs[1].name_source, NameSource::Override, "explicitly named tab");
    assert_ne!(auto_tabs[2].name_source, NameSource::Override, "trailing auto tab");
}

#[test]
fn mounted_scopes_report_mirrored_not_override() {
    let id = "r:alice@10.0.0.1#s1:w1";
    let shown = show(Session {
        workspaces: vec![workspace(id, "remote workspace", NameSource::Mirrored)],
        tabs: vec![tab(id, 1, "remote tab", NameSource::Mirrored)],
        tab_zooms: vec![false],
        ..session()
    });
    assert_eq!(shown.workspaces[0].name_source, NameSource::Mirrored);
    assert_eq!(shown.tabs[0].name_source, NameSource::Mirrored);
}

#[test]
fn mounted_scopes_still_report_the_override_flag() {
    let id = "r:alice@10.0.0.1#s1:w1";
    let shown = show(Session {
        workspaces: vec![workspace(id, "remote workspace", NameSource::Mirrored)],
        tabs: vec![tab(id, 1, "remote tab", NameSource::Mirrored)],
        tab_zooms: vec![false],
        ..session()
    });
    assert!(
        shown.workspaces[0].custom_label,
        "a mounted workspace carries a name somebody set, on the remote"
    );
    assert!(
        shown.tabs[0].custom_label,
        "a mounted tab carries a name somebody set, on the remote"
    );
}

#[test]
fn derived_scopes_do_not_report_the_override_flag() {
    let shown = show(Session {
        workspaces: vec![workspace("w1", "ignored", NameSource::Derived)],
        tabs: vec![tab("w1", 1, "1", NameSource::Derived)],
        tab_zooms: vec![false],
        ..session()
    });
    assert!(!shown.workspaces[0].custom_label);
    assert!(!shown.tabs[0].custom_label);
}

#[test]
fn a_location_moves_the_focus_of_its_client_alone() {
    let shown = snapshot(
        Session {
            focused_workspace_id: Some("w1".into()),
            focused_tab_id: Some("w1:1".into()),
            workspaces: vec![
                workspace("w1", "one", NameSource::Derived),
                workspace("w2", "two", NameSource::Derived),
            ],
            tabs: vec![
                tab("w1", 1, "1", NameSource::Derived),
                tab("w2", 1, "1", NameSource::Derived),
                tab("w2", 2, "2", NameSource::Derived),
            ],
            tab_zooms: vec![false; 3],
            tab_facts: vec![
                facts("w1:1", 0, 0, Some("p1")),
                facts("w2:1", 1, 0, Some("p2")),
                facts("w2:2", 1, 1, Some("p3")),
            ],
            panes: vec![pane("p1", "w1:1"), pane("p3", "w2:2")],
            agents: vec![agent("p1", "w1:1"), agent("p3", "w2:2")],
            ..session()
        },
        "boot".to_string(),
        1,
        Some("bad key".to_string()),
        Some(ClientShellLocation {
            focused_workspace_id: Some("w2".into()),
            focused_tab_id: Some("w2:2".into()),
            active_tab_ids: vec![ActiveTab { workspace_id: "w2".into(), tab_id: "w2:2".into() }],
        }),
    );
    assert_eq!(shown.config_diagnostic.as_deref(), Some("bad key"));
    assert_eq!(shown.focused_workspace_id.as_deref(), Some("w2"));
    assert_eq!(shown.focused_tab_id.as_deref(), Some("w2:2"));
    assert_eq!(shown.focused_pane_id.as_deref(), Some("p3"));
    assert!(shown.workspaces[1].focused && !shown.workspaces[0].focused);
    assert_eq!(shown.workspaces[1].active_tab_id, "w2:2");
    assert!(shown.tabs[2].focused && !shown.tabs[0].focused);
    assert!(shown.panes[1].focused && !shown.panes[0].focused);
    assert!(shown.agents[1].focused && !shown.agents[0].focused);
}

fn pane(pane_id: &str, tab_id: &str) -> SessionPane {
    SessionPane {
        pane_id: pane_id.to_string(),
        workspace_id: "w".to_string(),
        tab_id: tab_id.to_string(),
        label: None,
        name_source: NameSource::Derived,
        cwd: None,
        foreground_cwd: None,
        right_click_passthrough: false,
    }
}

fn agent(pane_id: &str, tab_id: &str) -> SessionAgent<Status> {
    SessionAgent {
        pane_id: pane_id.to_string(),
        workspace_id: "w".to_string(),
        tab_id: tab_id.to_string(),
        name: None,
        label: None,
        name_source: NameSource::Derived,
        display_agent: None,
        agent: None,
        title: None,
        terminal_title: None,
        terminal_title_stripped: None,
        agent_status: 0,
        state_change_seq: 0,
        state_labels: vec![],
        tokens: vec![],
    }
}

fn runtime(content_before: Option<u64>, content_after: u64) -> RuntimeFacts {
    RuntimeFacts {
        content_before,
        content_after,
        scroll: None,
        mouse_reporting: true,
        sgr_pixel_mouse: false,
        alternate_screen_active: false,
    }
}

fn popup(label: Option<&str>) -> Option<PopupSource> {
    Some(PopupSource {
        terminal_id: "t1".to_string(),
        label: label.map(str::to_string),
        width: None,
        height: None,
        inner: Some(Rect::new(10, 5, 60, 14)),
        runtime: Some(runtime(Some(4), 4)),
        resize_locked: false,
    })
}

#[test]
fn char_popup_pane_title_is_manual_label_only() {
    let cell = HostCellSize { width_px: 0, height_px: 0 };
    let surface = render_popup_surface(popup(Some("popup title")), cell)
        .expect("popup surface must render with a registered runtime and popup state");
    assert_eq!(surface.title, "popup title");
    let surface = render_popup_surface(popup(None), cell).unwrap();
    assert_eq!(
        surface.title, "popup",
        "no manual_label falls back to the literal \"popup\", never a tab label"
    );
    assert!(render_popup_surface(None, cell).is_none());
}

#[test]
fn a_popup_is_resized_to_its_content() {
    let cell = HostCellSize { width_px: 8, height_px: 16 };
    let resize = resize_popup_runtime(&popup(None), cell).expect("the popup is resized");
    assert_eq!((resize.rows, resize.cols), (14, 60));
    let locked = popup(None).map(|source| PopupSource { resize_locked: true, ..source });
    assert!(resize_popup_runtime(&locked, cell).is_none());
    assert_eq!(pixel_size(Rect::new(0, 0, 60, 14), cell), (480, 224));
}

#[test]
fn snapshot_badges_only_outdated_integrations() {
    let with = |kind: IntegrationStatusKind| show(Session { integrations: vec![kind], ..session() });
    assert!(!with(IntegrationStatusKind::NotInstalled).integration_updates_available);
    assert!(with(IntegrationStatusKind::Outdated).integration_updates_available);
}

#[test]
fn split_hits_follow_released_border_and_gap_geometry() {
    let horizontal = SplitBorder {
        pos: 20,
        direction: Direction::Horizontal,
        area: Rect::new(2, 3, 40, 12),
        path: vec![false],
    };
    let none: Vec<Rect> = vec![];
    assert_eq!(
        split_hit_rect(&horizontal, true, false, &none),
        Some(Rect::new(20, 3, 1, 12))
    );
    assert_eq!(
        split_hit_rect(&horizontal, true, true, &none),
        Some(Rect::new(19, 3, 2, 12))
    );
    assert_eq!(
        split_hit_rect(&horizontal, false, true, &none),
        Some(Rect::new(19, 3, 1, 12))
    );
    assert_eq!(split_hit_rect(&horizontal, false, false, &none), None);

    let vertical = SplitBorder {
        pos: 9,
        direction: Direction::Vertical,
        area: Rect::new(2, 3, 40, 12),
        path: vec![true],
    };
    assert_eq!(split_hit_rect(&vertical, true, true, &none), Some(Rect::new(2, 8, 40, 2)));

    let edge = SplitBorder {
        pos: 0,
        direction: Direction::Horizontal,
        area: Rect::new(0, 0, 1, 4),
        path: vec![],
    };
    assert_eq!(split_hit_rect(&edge, true, true, &none), Some(Rect::new(0, 0, 1, 4)));
    assert_eq!(split_hit_rect(&edge, false, true, &none), None);
    assert_eq!(
        split_hit_rect(&horizontal, false, true, &vec![Rect::new(19, 3, 1, 12)]),
        None
    );
}

#[test]
fn tokens_are_sorted_by_key() {
    let token = |key: &str| Token { key: key.to_string(), value: format!("{key}!") };
    let sorted = sort_tokens(vec![token("b"), token("a"), token("c")]);
    let keys: Vec<_> = sorted.iter().map(|token| token.key.as_str()).collect();
    assert_eq!(keys, vec!["a", "b", "c"]);
    assert_eq!(sorted[0].value, "a!");
}

#[test]
fn the_zoom_segment_shows_only_in_a_zoomed_tab() {
    let segments =
        || vec![TabBarStatusSegment::Zoom, TabBarStatusSegment::Text(Some("12:00".to_string()))];
    let zoomed = tab_bar_segments(segments(), true);
    assert_eq!(zoomed.len(), 2);
    assert!(zoomed[0].accent);
    let plain = tab_bar_segments(segments(), false);
    assert_eq!(plain.len(), 1);
    assert_eq!(plain[0].text, "12:00");
    assert!(!plain[0].accent);
}

#[test]
fn a_revision_is_odd_while_the_content_changes() {
    let stable = content_revision(Some(4), 4);
    let torn = content_revision(Some(4), 5);
    assert_eq!(stable % 2, 0);
    assert_eq!(torn % 2, 1);
}

#[test]
fn a_surface_shows_the_panes_that_have_an_id() {
    let source = |pane_id: Option<&str>, x: u16| SurfaceSource {
        pane_id: pane_id.map(str::to_string),
        rect: Rect::new(x, 0, 20, 10),
        inner_rect: Rect::new(x, 0, 20, 10),
        scrollbar_rect: None,
        focused: x == 0,
        runtime: Some(runtime(Some(2), 2)),
    };
    let surface = render_pane_surface(SurfaceScene {
        panes: vec![source(Some("p1"), 0), source(None, 20)],
        has_target: true,
        splits: vec![SplitBorder {
            pos: 20,
            direction: Direction::Horizontal,
            area: Rect::new(0, 0, 40, 10),
            path: vec![],
        }],
        pane_borders: true,
        pane_gaps: false,
        popup: None,
        show_popup: true,
        cell: HostCellSize { width_px: 8, height_px: 16 },
    });
    assert_eq!(surface.panes.len(), 1);
    assert_eq!(surface.panes[0].pane_id, "p1");
    assert_eq!((surface.panes[0].pixel_width, surface.panes[0].pixel_height), (160, 160));
    assert_eq!(surface.splits.len(), 1);
    assert_eq!(surface.splits[0].hit_rect, Rect::new(20, 0, 1, 10));
    assert!(surface.popup.is_none());
}
