use herdr::detect::AgentState;
use herdr::workspace::{
    generate_workspace_id, is_in_active_tab, last_name_of, DirectoryFacts, Pane, PaneState, Tab,
    TabFocus, Workspace,
};

fn pane(id: u64, cwd: &str) -> Pane<&'static str> {
    Pane {
        id,
        state: PaneState { seen: false, state: AgentState::Unknown },
        cwd: Some(cwd.to_string()),
        runtime: Some("shell"),
    }
}

fn workspace() -> Workspace<&'static str> {
    Workspace::new("w1".to_string(), "/start".to_string(), pane(1, "/start"))
}

fn add_tab(ws: &mut Workspace<&'static str>, name: Option<&str>, id: u64) -> usize {
    let idx = ws.create_tab(Ok(pane(id, "/start"))).expect("the tab is created");
    ws.tabs[idx].custom_name = name.map(str::to_string);
    idx
}

fn focus(root_pane: u64, focused: u64) -> TabFocus {
    TabFocus { root_pane, focused, zoomed: false }
}

#[test]
fn workspace_identity_follows_first_tab_root_pane_cwd() {
    let mut ws = workspace();
    ws.custom_name = None;
    ws.tabs[0].panes[0].cwd = Some("/tmp/pion".to_string());

    assert_eq!(ws.display_name(&vec![]), "pion");
    assert_eq!(ws.resolved_identity_cwd(), Some("/tmp/pion".to_string()));
}

#[test]
fn a_custom_name_and_a_repository_label_outrank_the_directory() {
    let mut ws = workspace();
    let facts = vec![DirectoryFacts {
        path: "/start".to_string(),
        label: Some("repo".to_string()),
        branch: Some("main".to_string()),
        ahead_behind: Some((2, 1)),
    }];
    assert_eq!(ws.display_name(&facts), "repo");
    assert_eq!(ws.branch(&facts), Some("main".to_string()));
    ws.refresh_git_ahead_behind(&facts);
    assert_eq!(ws.git_ahead_behind(), Some((2, 1)));
    ws.set_custom_name("mine".to_string());
    assert_eq!(ws.display_name(&facts), "mine");
    assert_eq!(ws.branch(&vec![]), None);
}

#[test]
fn moving_tab_keeps_active_identity_and_renumbers_auto_tabs() {
    let mut ws = workspace();
    let moved_root = ws.tabs[0].root_pane;
    add_tab(&mut ws, Some("foo"), 2);
    let final_auto_idx = add_tab(&mut ws, None, 3);
    let active_root = ws.tabs[final_auto_idx].root_pane;
    ws.switch_tab(final_auto_idx);

    let end = ws.tabs.len();
    assert!(ws.move_tab(0, end));

    let labels: Vec<_> = ws.tabs.iter().map(Tab::display_name).collect();
    assert_eq!(labels, vec!["foo", "2", "3"]);
    assert_eq!(ws.tabs[0].custom_name.as_deref(), Some("foo"));
    assert!(ws.tabs[1].custom_name.is_none());
    assert!(ws.tabs[2].custom_name.is_none());
    assert_eq!(ws.tabs[2].root_pane, moved_root);
    assert_eq!(ws.tabs[ws.active_tab].root_pane, active_root);
}

#[test]
fn a_tab_moved_onto_itself_stays() {
    let mut ws = workspace();
    add_tab(&mut ws, None, 2);
    assert!(!ws.move_tab(0, 0));
    assert!(!ws.move_tab(0, 1));
    assert!(!ws.move_tab(5, 0));
    assert!(!ws.move_tab(0, 3));
}

#[test]
fn switching_to_a_tab_marks_its_panes_seen() {
    let mut ws = workspace();
    add_tab(&mut ws, None, 2);
    ws.switch_tab(9);
    assert_eq!(ws.active_tab_index(), 0);
    ws.switch_tab(1);
    assert_eq!(ws.active_tab_index(), 1);
    assert!(ws.pane_state(2).unwrap().seen);
    assert!(!ws.pane_state(1).unwrap().seen);
    assert_eq!(ws.active_tab_display_name(), Some("2".to_string()));
}

#[test]
fn closing_a_pane_moves_the_higher_numbers_down() {
    let mut ws = workspace();
    ws.split_focused(Ok((pane(2, "/a"), focus(1, 2)))).expect("split");
    ws.split_focused(Ok((pane(3, "/b"), focus(1, 3)))).expect("split");
    assert_eq!(ws.public_pane_number(1), Some(1));
    assert_eq!(ws.public_pane_number(3), Some(3));
    let closed = ws.close_pane(2, focus(1, 3));
    assert!(!closed.close_workspace);
    assert_eq!(closed.runtime, Some("shell"));
    assert_eq!(ws.public_pane_number(1), Some(1));
    assert_eq!(ws.public_pane_number(2), None);
    assert_eq!(ws.public_pane_number(3), Some(2));
    ws.split_focused(Ok((pane(4, "/c"), focus(1, 4)))).expect("split");
    assert_eq!(ws.public_pane_number(4), Some(3));
    assert_eq!(ws.split_focused(Err("no room".to_string())), Err("no room".to_string()));
}

#[test]
fn the_last_pane_closes_the_workspace() {
    let mut ws = workspace();
    assert!(ws.remove_pane(1, focus(1, 1)));
    assert!(!ws.remove_pane(9, focus(1, 1)));
    assert!(ws.close_focused(focus(1, 1)).close_workspace);
    add_tab(&mut ws, None, 2);
    assert_eq!(ws.find_tab_index_for_pane(2), Some(1));
    assert!(!ws.remove_pane(1, focus(1, 1)));
    assert_eq!(ws.tabs.len(), 1);
    assert_eq!(ws.tabs[0].number, 1);
    assert_eq!(ws.focused_pane_id(), Some(2));
}

#[test]
fn the_only_tab_is_not_closed() {
    let mut ws = workspace();
    assert!(!ws.close_active_tab());
    add_tab(&mut ws, None, 2);
    ws.switch_tab(1);
    assert!(ws.close_tab(1));
    assert_eq!(ws.active_tab_index(), 0);
    assert_eq!(ws.public_pane_number(2), None);
}

#[test]
fn identifiers_are_written_in_hexadecimal() {
    assert_eq!(generate_workspace_id(255, 16), "wff10");
    assert_eq!(generate_workspace_id(0, 1), "w01");
}

#[test]
fn a_directory_is_named_by_its_last_part() {
    assert_eq!(last_name_of("/tmp/pion"), "pion");
}

#[test]
fn only_panes_of_the_active_tab_are_shown() {
    let mut ws = workspace();
    add_tab(&mut ws, None, 2);
    ws.switch_tab(0);
    let workspaces = vec![ws];
    assert!(is_in_active_tab(&workspaces, Some(0), 1));
    assert!(!is_in_active_tab(&workspaces, Some(0), 2));
    assert!(!is_in_active_tab(&workspaces, Some(1), 1));
    assert!(!is_in_active_tab(&workspaces, None, 1));
}
