use herdr::geometry::Rect;
use herdr::ui::keybind_help::{keybind_help_groups, HelpGroup, Keybinds};
use herdr::ui::panes::{
    compute_pane_infos, pane_scrollbar_rect, Gutter, LivePane, PaneInfo, PaneScene,
};
use herdr::ui::scrollbar::{
    desired_top_from_drag_row, desired_top_from_row, release_notes_scrollbar_rect,
    scrollbar_offset_from_drag_row, scrollbar_offset_from_row, scrollbar_thumb,
    scrollbar_thumb_grab_offset, scrolled_quotient, should_show_scrollbar, text_area_beside,
    thumb_len, thumb_len_quotient, thumb_top_quotient, Quotient, ScrollMetrics, ScrollbarThumb,
};

fn rounded(quotient: Option<Quotient>) -> usize {
    match quotient {
        Some(quotient) => (quotient.numerator as f32 / quotient.denominator as f32).round() as usize,
        None => 0,
    }
}

fn thumb_of(metrics: ScrollMetrics, track: Rect) -> Option<ScrollbarThumb> {
    let len = rounded(thumb_len_quotient(metrics, track));
    let top = rounded(thumb_top_quotient(metrics, track, thumb_len(track, len)));
    scrollbar_thumb(metrics, track, len, top)
}

fn offset_from_row(metrics: ScrollMetrics, track: Rect, row: u16) -> usize {
    let thumb = thumb_of(metrics, track);
    let top = match thumb {
        Some(thumb) => desired_top_from_row(track, thumb, row),
        None => 0,
    };
    let scrolled = rounded(scrolled_quotient(metrics, track, thumb, top));
    scrollbar_offset_from_row(metrics, track, thumb, scrolled)
}

fn offset_from_drag_row(metrics: ScrollMetrics, track: Rect, row: u16, grab: u16) -> usize {
    let thumb = thumb_of(metrics, track);
    let top = desired_top_from_drag_row(track, row, grab);
    let scrolled = rounded(scrolled_quotient(metrics, track, thumb, top));
    scrollbar_offset_from_drag_row(metrics, track, thumb, scrolled)
}

fn metrics(offset_from_bottom: usize, max_offset_from_bottom: usize) -> ScrollMetrics {
    ScrollMetrics { offset_from_bottom, max_offset_from_bottom, viewport_rows: 5 }
}

#[test]
fn pane_scrollbar_rect_uses_rightmost_inner_column() {
    let info = PaneInfo {
        id: 1,
        rect: Rect::new(0, 0, 12, 8),
        inner_rect: Rect::new(1, 1, 9, 6),
        scrollbar_rect: Some(Rect::new(10, 1, 1, 6)),
        is_focused: true,
    };
    assert_eq!(pane_scrollbar_rect(&info), Some(Rect::new(10, 1, 1, 6)));
}

#[test]
fn scrollbar_stays_hidden_without_scrollback() {
    assert!(!should_show_scrollbar(metrics(0, 0)));
}

#[test]
fn scrollbar_shows_with_scrollback() {
    assert!(should_show_scrollbar(metrics(0, 20)));
}

#[test]
fn scrollbar_thumb_reaches_bottom_when_scrolled_to_bottom() {
    let track = Rect::new(9, 4, 1, 5);
    let thumb = thumb_of(metrics(0, 20), track).expect("thumb");
    assert_eq!(thumb.top + thumb.len, track.y + track.height);
}

#[test]
fn scrollbar_thumb_reaches_top_when_scrolled_to_top() {
    let track = Rect::new(9, 4, 1, 5);
    let thumb = thumb_of(metrics(20, 20), track).expect("thumb");
    assert_eq!(thumb.top, track.y);
    assert!(thumb_of(metrics(0, 0), track).is_none());
}

#[test]
fn scrollbar_offset_mapping_hits_top_middle_and_bottom() {
    let track = Rect::new(9, 4, 1, 5);
    assert_eq!(offset_from_row(metrics(0, 20), track, 4), 20);
    assert_eq!(offset_from_row(metrics(0, 20), track, 6), 10);
    assert_eq!(offset_from_row(metrics(0, 20), track, 8), 0);
}

#[test]
fn dragging_from_current_thumb_row_preserves_offset() {
    let metrics = metrics(7, 20);
    let track = Rect::new(9, 4, 1, 8);
    let thumb = thumb_of(metrics, track);
    let shown = thumb.expect("thumb");
    let row = shown.top + shown.len / 2;
    let grab = scrollbar_thumb_grab_offset(thumb, row).expect("grab");
    assert_eq!(offset_from_drag_row(metrics, track, row, grab), 7);
    assert_eq!(scrollbar_thumb_grab_offset(thumb, track.y + track.height), None);
}

#[test]
fn a_scrolled_text_gives_a_column_to_its_scrollbar() {
    let body = Rect::new(2, 3, 20, 6);
    let track = release_notes_scrollbar_rect(body, metrics(0, 20));
    assert_eq!(track, Some(Rect::new(21, 3, 1, 6)));
    assert!(text_area_beside(body, track).width < body.width);
    assert_eq!(release_notes_scrollbar_rect(body, metrics(0, 0)), None);
    assert_eq!(text_area_beside(body, None), body);
}

#[test]
fn a_pane_with_scrollback_keeps_a_gutter() {
    let tile = Rect::new(0, 0, 20, 10);
    let scene = |gutter: Gutter, max: usize| PaneScene {
        zoomed: true,
        focused: 1,
        tiles: vec![PaneInfo {
            id: 1,
            rect: tile,
            inner_rect: tile,
            scrollbar_rect: None,
            is_focused: true,
        }],
        live: vec![LivePane { id: 1, metrics: Some(metrics(0, max)), thumb: None }],
        gutter,
        resize: true,
    };
    let (infos, resizes) = compute_pane_infos(Some(&scene(Gutter::Reserved, 20)), tile);
    assert_eq!(infos.len(), 1);
    assert_eq!(resizes.len(), 1);
    assert_eq!((resizes[0].rows, resizes[0].cols), (infos[0].inner_rect.height, infos[0].inner_rect.width));
    assert!(compute_pane_infos(None, tile).0.is_empty());
}

fn keybinds() -> Keybinds {
    let set = |label: &str| label.to_string();
    Keybinds {
        prefix_label: set("ctrl+b"),
        new_workspace_label: set("n"),
        rename_workspace_label: set("r"),
        close_workspace_label: set("x"),
        previous_workspace_label: None,
        next_workspace_label: None,
        new_tab_label: set("c"),
        rename_tab_label: None,
        previous_tab_label: None,
        next_tab_label: None,
        close_tab_label: None,
        split_vertical_label: set("v"),
        split_horizontal_label: set("-"),
        close_pane_label: set("q"),
        fullscreen_label: set("f"),
        resize_mode_label: set("z"),
        toggle_sidebar_label: set("b"),
        focus_pane_left_label: None,
        focus_pane_down_label: None,
        focus_pane_up_label: None,
        focus_pane_right_label: None,
    }
}

fn lists(group: &HelpGroup, key: &str, label: &str) -> bool {
    group.entries.iter().any(|entry| entry.key == key && entry.label == label)
}

#[test]
fn keybind_help_shows_unset_for_optional_actions() {
    let groups = keybind_help_groups(&keybinds());
    let workspace_tab = groups
        .iter()
        .find(|group| group.name == "workspaces / tabs")
        .expect("workspace tab group");
    let panes = groups.iter().find(|group| group.name == "panes").expect("panes group");

    assert!(lists(workspace_tab, "unset", "previous workspace"));
    assert!(lists(workspace_tab, "unset", "next workspace"));
    assert!(lists(workspace_tab, "unset", "rename tab"));
    assert!(lists(workspace_tab, "unset", "previous tab"));
    assert!(lists(workspace_tab, "unset", "next tab"));
    assert!(lists(workspace_tab, "unset", "close tab"));
    assert!(lists(panes, "unset", "focus pane left"));
    assert!(lists(panes, "unset", "focus pane down"));
    assert!(lists(panes, "unset", "focus pane up"));
    assert!(lists(panes, "unset", "focus pane right"));
}

#[test]
fn keybind_help_shows_the_key_of_a_bound_action() {
    let bound = Keybinds { next_tab_label: Some("tab".to_string()), ..keybinds() };
    let groups = keybind_help_groups(&bound);
    assert!(groups.iter().any(|group| lists(group, "tab", "next tab")));
}
