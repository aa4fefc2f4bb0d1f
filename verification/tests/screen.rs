use herdr::detect::AgentState;
use herdr::geometry::Rect;
use herdr::ui::dialogs::{
    build_hints, confirm_close_button_rects, confirm_close_popup_rect, rename_button_rects,
    render_confirm_close_overlay, render_context_menu, render_rename_overlay, ClosingWorkspace,
    RenameTarget,
};
use herdr::server::notifications::{ToastKind, ToastNotification};
use herdr::ui::notices::{render_config_diagnostic, render_toast_notification};
use herdr::ui::onboarding::{onboarding_welcome_continue_rect, render_onboarding_overlay};
use herdr::ui::panes::{Gutter, PaneInfo, PaneScene};
use herdr::ui::plan::{bold, dim_color, ink, paragraph, plain, Color, Line, Op, Palette, Plan};
use herdr::ui::release_notes::{
    open_plain_release_notes, open_release_notes, plain_release_notes_lines,
    release_notes_inline_spans, release_notes_lines, render_plain_release_notes_overlay,
    render_release_notes_overlay, ReleaseNotesState,
};
use herdr::ui::settings::{
    render_settings_overlay, render_settings_theme, render_settings_toggle, same_theme_name,
    settings_button_rects, settings_layout, Settings, SettingsSection, SettingsTab,
};
use herdr::ui::sidebar::{
    compute_sidebar_width, compute_workspace_card_areas, spinner_frame, state_label,
    workspace_drop_indicator_row, workspace_list_scroll_metrics, workspace_row_height,
    SidebarWorkspace, COLLAPSED_WIDTH, MAX_SIDEBAR_WIDTH, MIN_SIDEBAR_WIDTH,
};
use herdr::ui::tabs::{compute_new_tab_hit_area, compute_tab_hit_areas, MIN_TAB_WIDTH};
use herdr::ui::view::{
    compute_view, compute_view_with_panes, layer_area, render, render_steps, Layer, Mode, Screen,
};
use herdr::ui::widgets::{
    action_button_text, action_button_width, centered_button_row, centered_popup_rect,
    modal_stack_areas,
};

fn palette() -> Palette {
    Palette {
        accent: Color::Blue,
        panel_bg: Color::Black,
        surface0: Color::Indexed(1),
        surface1: Color::Indexed(2),
        surface_dim: Color::Indexed(3),
        overlay0: Color::Indexed(4),
        overlay1: Color::Indexed(5),
        text: Color::White,
        subtext0: Color::Gray,
        mauve: Color::Magenta,
        green: Color::Green,
        yellow: Color::Yellow,
        red: Color::Red,
        blue: Color::LightBlue,
        teal: Color::Cyan,
    }
}

fn names(names: &[&str]) -> Vec<String> {
    names.iter().map(|name| name.to_string()).collect()
}

fn words(line: &Line) -> String {
    line.spans.iter().map(|span| span.text.as_str()).collect()
}

/// Every text that a plan writes, one row after another.
fn written(plan: &Plan) -> String {
    let mut text = String::new();
    for op in &plan.ops {
        if let Op::Text { lines, .. } = op {
            for line in lines {
                text.push_str(&words(line));
                text.push('\n');
            }
        }
    }
    text
}

fn workspace(name: &str, branch: Option<&str>) -> SidebarWorkspace {
    SidebarWorkspace {
        name: name.to_string(),
        branch: branch.map(str::to_string),
        ahead_behind: None,
        state: AgentState::Idle,
        seen: true,
        agents: vec![],
    }
}

#[test]
fn a_popup_stands_in_the_middle_of_its_area() {
    let popup = centered_popup_rect(Rect::new(0, 0, 100, 40), 60, 10);
    assert_eq!(popup, Some(Rect::new(20, 15, 60, 10)));
    assert_eq!(centered_popup_rect(Rect::new(0, 0, 0, 0), 60, 10), None);
}

#[test]
fn a_dialog_with_room_is_stacked_exactly() {
    let stack = modal_stack_areas(Rect::new(10, 5, 50, 20), 3, 1, 1, 1);
    assert_eq!(stack.header, Rect::new(10, 5, 50, 3));
    assert_eq!(stack.content.y, 9);
    assert!(stack.footer.is_some());
    assert_eq!(stack.actions, Some(Rect::new(10, 24, 50, 1)));
}

#[test]
fn buttons_show_their_key_before_their_label() {
    let with_key = action_button_text(Some("enter"), "save");
    assert!(with_key.contains("enter") && with_key.contains("save"));
    assert!(with_key.find("enter") < with_key.find("save"));
    assert_eq!(action_button_width(Some("enter"), "save") as usize, with_key.chars().count());
    assert!(!action_button_text(None, "save").contains("enter"));
}

#[test]
fn a_row_of_buttons_is_centered_and_apart() {
    let rects = centered_button_row(Rect::new(0, 0, 40, 10), &vec![8, 10], 2, 4);
    assert_eq!(rects, vec![Rect::new(10, 4, 8, 1), Rect::new(20, 4, 10, 1)]);
}

#[test]
fn tabs_stand_side_by_side_with_a_button_behind_them() {
    let area = Rect::new(0, 0, 40, 1);
    let rects = compute_tab_hit_areas(&names(&["a", "longer name"]), area);
    assert_eq!(rects.len(), 2);
    assert_eq!(rects[0], Rect::new(0, 0, MIN_TAB_WIDTH, 1));
    assert!(rects[0].x + rects[0].width <= rects[1].x);
    let button = compute_new_tab_hit_area(&rects, area);
    assert!(button.x >= rects[1].x + rects[1].width);
    assert_eq!(compute_new_tab_hit_area(&vec![], Rect::new(0, 0, 0, 0)), Rect::nowhere());
}

#[test]
fn workspace_cards_follow_each_other() {
    let workspaces = vec![workspace("one", None), workspace("two", Some("main"))];
    let area = Rect::new(0, 0, 24, 40);
    let cards = compute_workspace_card_areas(&workspaces, 0, area);
    assert_eq!(cards.len(), 2);
    assert_eq!(cards[0].ws_idx, 0);
    assert_eq!(cards[0].rect.height, workspace_row_height(&workspaces[0]));
    assert_eq!(cards[1].rect.height, workspace_row_height(&workspaces[1]));
    assert!(cards[0].rect.y + cards[0].rect.height <= cards[1].rect.y);
    assert!(workspace_row_height(&workspaces[1]) > workspace_row_height(&workspaces[0]));
    assert!(workspace_drop_indicator_row(&cards, area, 0).is_some());
    let metrics = workspace_list_scroll_metrics(&workspaces, 0, area);
    assert_eq!(metrics.max_offset_from_bottom, 0);
}

#[test]
fn the_sidebar_is_as_wide_as_its_names_within_bounds() {
    assert_eq!(compute_sidebar_width(&vec![], 26), 26);
    assert_eq!(compute_sidebar_width(&vec![workspace("x", None)], 26), MIN_SIDEBAR_WIDTH);
    let long = "n".repeat(200);
    assert_eq!(compute_sidebar_width(&vec![workspace(&long, None)], 26), MAX_SIDEBAR_WIDTH);
}

#[test]
fn agent_states_have_words_and_a_spinner() {
    assert_eq!(state_label(AgentState::Blocked, true), "blocked");
    assert_eq!(state_label(AgentState::Working, true), "working");
    assert_eq!(state_label(AgentState::Idle, false), "done");
    assert_eq!(state_label(AgentState::Idle, true), "idle");
    assert_eq!(spinner_frame(0), spinner_frame(7));
    assert_ne!(spinner_frame(0), spinner_frame(8));
    assert_eq!(spinner_frame(0), spinner_frame(80));
}

#[test]
fn the_terminal_fills_what_the_sidebar_and_the_tabs_leave() {
    let screen = Screen {
        sidebar_collapsed: true,
        sidebar_width_auto: false,
        sidebar_width: 26,
        workspaces: vec![],
        workspace_scroll: 0,
        tab_names: Some(names(&["1"])),
    };
    let view = compute_view(&screen, Rect::new(0, 0, 100, 40));
    assert_eq!(view.sidebar_rect, Rect::new(0, 0, COLLAPSED_WIDTH, 40));
    assert_eq!(view.tab_bar_rect, Rect::new(COLLAPSED_WIDTH, 0, 100 - COLLAPSED_WIDTH, 1));
    assert_eq!(view.terminal_area, Rect::new(COLLAPSED_WIDTH, 1, 100 - COLLAPSED_WIDTH, 39));
    assert_eq!(view.tab_hit_areas.len(), 1);
}

#[test]
fn a_narrow_screen_leaves_a_column_to_the_terminal() {
    for (collapsed, wide) in [(true, COLLAPSED_WIDTH), (false, 26)] {
        let screen = Screen {
            sidebar_collapsed: collapsed,
            sidebar_width_auto: false,
            sidebar_width: 26,
            workspaces: vec![],
            workspace_scroll: 0,
            tab_names: Some(names(&["1"])),
        };
        for columns in 0..=40u16 {
            let view = compute_view(&screen, Rect::new(2, 0, columns, 10));
            let sidebar = wide.min(columns.saturating_sub(1));
            assert_eq!(view.sidebar_rect, Rect::new(2, 0, sidebar, 10));
            assert_eq!(view.terminal_area, Rect::new(2 + sidebar, 1, columns - sidebar, 9));
        }
        for rows in 0..=3u16 {
            let view = compute_view(&screen, Rect::new(0, 4, 80, rows));
            let bar = if rows > 1 { 1 } else { 0 };
            assert_eq!(view.tab_bar_rect.height, bar);
            assert_eq!(view.terminal_area.y, 4 + bar);
            assert_eq!(view.terminal_area.height, rows - bar);
        }
    }
}

fn one_tab() -> Screen {
    Screen {
        sidebar_collapsed: true,
        sidebar_width_auto: false,
        sidebar_width: 26,
        workspaces: vec![],
        workspace_scroll: 0,
        tab_names: Some(names(&["1"])),
    }
}

#[test]
fn panes_stand_in_the_terminal_area() {
    let area = Rect::new(0, 0, 100, 40);
    let tile = PaneInfo {
        id: 7,
        rect: Rect::new(4, 1, 96, 39),
        inner_rect: Rect::nowhere(),
        scrollbar_rect: None,
        is_focused: true,
    };
    let scene = PaneScene {
        zoomed: false,
        focused: 7,
        tiles: vec![tile],
        live: vec![],
        gutter: Gutter::Reserved,
        resize: true,
    };
    let paned = compute_view_with_panes(&one_tab(), area, Some(&scene));
    assert_eq!(paned.pane_infos.len(), 1);
    assert_eq!(paned.pane_infos[0].inner_rect, paned.view.terminal_area);
    assert!(paned.resizes.is_empty());
    assert!(compute_view_with_panes(&one_tab(), area, None).pane_infos.is_empty());
}

#[test]
fn layers_have_their_areas() {
    let frame = Rect::new(0, 0, 100, 40);
    let view = compute_view(&one_tab(), frame);
    let terminal = Some(view.terminal_area);
    for layer in [
        Layer::Panes,
        Layer::Navigate,
        Layer::Resize,
        Layer::ConfirmClose,
        Layer::ConfigDiagnostic,
        Layer::Toast,
    ] {
        assert_eq!(layer_area(layer, &view, frame), terminal);
    }
    for layer in [
        Layer::Onboarding,
        Layer::ReleaseNotes,
        Layer::Settings,
        Layer::Rename,
        Layer::KeybindHelp,
    ] {
        assert_eq!(layer_area(layer, &view, frame), Some(frame));
    }
    assert_eq!(layer_area(Layer::Sidebar, &view, frame), Some(view.sidebar_rect));
    assert_eq!(layer_area(Layer::TabBar, &view, frame), Some(view.tab_bar_rect));
    assert_eq!(layer_area(Layer::ContextMenu, &view, frame), None);

    let steps = render_steps(true, Mode::Terminal, true, true, &view, frame);
    let toast = steps.last().unwrap();
    assert_eq!(toast.layer, Layer::Toast);
    assert!(toast.beside_warning);
    assert_eq!(steps.iter().filter(|step| step.beside_warning).count(), 1);
    let calm = render_steps(true, Mode::Terminal, false, true, &view, frame);
    assert!(!calm.last().unwrap().beside_warning);
}

#[test]
fn texts_are_drawn_line_by_line() {
    let shown = |text: &str| paragraph(text).iter().map(words).collect::<Vec<String>>();
    assert_eq!(shown("one"), vec!["one"]);
    assert_eq!(shown("one\ntwo\r\nthree\n"), vec!["one", "two", "three"]);
    assert_eq!(shown(""), vec![""]);
    assert_eq!(shown("a\n\nb"), vec!["a", "", "b"]);
}

#[test]
fn notices_are_drawn_over_every_dialog() {
    let order = render(false, Mode::Settings, true, true);
    assert_eq!(order[0], Layer::Sidebar);
    assert!(order.contains(&Layer::Settings));
    let settings = order.iter().position(|layer| *layer == Layer::Settings).unwrap();
    let warning = order.iter().position(|layer| *layer == Layer::ConfigDiagnostic).unwrap();
    let toast = order.iter().position(|layer| *layer == Layer::Toast).unwrap();
    assert!(settings < warning && settings < toast);
    assert!(render(true, Mode::Terminal, false, false).contains(&Layer::CollapsedSidebar));
}

#[test]
fn colors_are_darkened() {
    assert_eq!(dim_color(Color::Rgb(90, 60, 31)), Color::Rgb(30, 20, 10));
    assert_eq!(dim_color(Color::White), Color::DarkGray);
    assert_eq!(dim_color(Color::LightCyan), Color::Rgb(30, 80, 80));
}

#[test]
fn code_spans_are_set_apart_from_their_text() {
    let marked = release_notes_inline_spans("use `herdr update` now", plain(), bold(plain()));
    let spans: Vec<_> =
        marked.line.spans.iter().map(|span| (span.text.as_str(), span.style.bold)).collect();
    assert_eq!(spans, vec![("use ", false), ("herdr update", true), (" now", false)]);
    assert_eq!(marked.width, "use herdr update now".len());
}

#[test]
fn release_notes_show_headings_and_bullets() {
    let body = "### Changed\n- Client shell\n\nplain words  ";
    let notes = release_notes_lines(body, &palette());
    let text: Vec<String> = notes.iter().map(|note| words(&note.line)).collect();
    assert_eq!(text, vec![" CHANGED", " • Client shell", "", " plain words"]);
    assert!(!plain_release_notes_lines(body, &palette()).is_empty());
    let fenced = release_notes_lines("```\nlet x;  \n```", &palette());
    assert_eq!(fenced.len(), 1);
    assert_eq!(words(&fenced[0].line), "▏ let x;");
    assert_eq!(fenced[0].width, 8);
}

#[test]
fn release_notes_are_opened_in_a_dialog() {
    let notes = ReleaseNotesState {
        version: "9.9.9".to_string(),
        body: "- Client shell".to_string(),
        preview: false,
        scroll: 0,
        max_scroll: 0,
    };
    let p = palette();
    let (_, layout) = open_release_notes(&notes, Rect::new(0, 0, 100, 40), &p);
    let layout = layout.expect("the dialog fits");
    let drawn = render_release_notes_overlay(&notes, &layout, None, &p, p.panel_bg);
    let text = written(&drawn);
    assert!(text.contains("9.9.9"));
    assert!(text.contains("Client shell"));
    let (_, nowhere) = open_release_notes(&notes, Rect::new(0, 0, 0, 0), &p);
    assert!(nowhere.is_none());

    let (_, plain) = open_plain_release_notes(Rect::new(0, 0, 100, 40), &p);
    let plain = plain.expect("the dialog fits");
    assert_eq!(plain.stack[0], Rect::new(13, 11, 74, 2));
    let drawn = render_plain_release_notes_overlay(&notes, &plain, None, &p);
    assert!(written(&drawn).contains("what's new in this release"));
    let (_, low) = open_plain_release_notes(Rect::new(0, 0, 100, 11), &p);
    assert!(low.is_none());
}

#[test]
fn theme_names_are_compared_without_case_and_spacing() {
    assert!(same_theme_name("tokyo night", "tokyo-night"));
    assert!(same_theme_name("tokyo_night", "tokyo night"));
    assert!(!same_theme_name("tokyo-night", "tokyo-day"));

    let settings = Settings {
        tabs: vec![],
        section: SettingsSection::Theme,
        selected: 0,
        theme_names: names(&["tokyo-night", "tokyo-day"]),
        theme_name: "Tokyo Night".to_string(),
        sound_enabled: false,
        toasts_enabled: false,
    };
    let mut drawn = Plan::new();
    render_settings_theme(&mut drawn, &settings, Rect::new(0, 0, 40, 10), &palette());
    let items = drawn
        .ops
        .iter()
        .find_map(|op| match op {
            Op::List { items, .. } => Some(items),
            _ => None,
        })
        .expect("the themes are listed");
    assert_ne!(words(&items[0]).replace("tokyo-night", ""), words(&items[1]).replace("tokyo-day", ""));
}

#[test]
fn settings_show_their_section() {
    let settings = Settings {
        tabs: vec![SettingsTab { section: SettingsSection::Sound, label: "sound".to_string() }],
        section: SettingsSection::Sound,
        selected: 0,
        theme_names: names(&["one"]),
        theme_name: "one".to_string(),
        sound_enabled: true,
        toasts_enabled: false,
    };
    let p = palette();
    let drawn = render_settings_overlay(&settings, Rect::new(0, 0, 100, 40), &p);
    assert!(!written(&drawn).is_empty());
    let (apply, close) = settings_button_rects(Rect::new(20, 10, 60, 20));
    assert!(apply.x + apply.width <= close.x);
}

#[test]
fn a_switch_keeps_its_settings_on_few_rows() {
    let p = palette();
    for (rows, told, gap) in [(0u16, 0u16, 0u16), (1, 0, 0), (2, 0, 0), (3, 1, 0), (4, 1, 1), (9, 1, 1)] {
        for y in [0u16, 5] {
            let area = Rect::new(1, y, 30, rows);
            let drawn = render_settings_toggle("sound", "play", true, 0, area, &p);
            match &drawn.ops[0] {
                Op::Text { rect, .. } => assert_eq!(*rect, Rect::new(1, y, 30, told)),
                other => panic!("expected the description, got {other:?}"),
            }
            match &drawn.ops[1] {
                Op::List { rect, .. } => {
                    assert_eq!(*rect, Rect::new(1, y + told + gap, 30, rows - told - gap));
                }
                other => panic!("expected the settings, got {other:?}"),
            }
        }
    }
    let layout = settings_layout(Rect::new(0, 2, 50, 7));
    assert_eq!(layout.stack[2], Rect::new(0, 6, 50, 0));
    assert_eq!(layout.footer[1], Rect::new(0, 8, 50, 1));
}

#[test]
fn a_dialog_names_what_it_is_about() {
    let p = palette();
    let area = Rect::new(0, 0, 100, 40);
    let renaming = render_rename_overlay(RenameTarget::Tab, "build", area, &p);
    assert!(written(&renaming).contains("build"));
    let closing = ClosingWorkspace { name: "pion".to_string(), pane_count: 3 };
    let confirm = render_confirm_close_overlay(Some(&closing), area, &p);
    let text = written(&confirm);
    assert!(text.contains("pion") && text.contains('3'));
    let popup = confirm_close_popup_rect(area).expect("the dialog fits");
    let (yes, no) = confirm_close_button_rects(popup.inner());
    assert!(yes.x + yes.width <= no.x);
    let (save, clear, cancel) = rename_button_rects(popup.inner());
    assert!(save.x + save.width <= clear.x && clear.x + clear.width <= cancel.x);
}

#[test]
fn a_menu_lists_its_items() {
    let p = palette();
    let items = names(&["rename", "close"]);
    let drawn = render_context_menu(&items, 1, Some(Rect::new(5, 5, 20, 4)), &p);
    assert!(!drawn.ops.is_empty());
    let nothing = render_context_menu(&items, 1, None, &p);
    assert!(nothing.ops.is_empty());
}

#[test]
fn notices_show_their_words() {
    let p = palette();
    let area = Rect::new(0, 0, 100, 40);
    let toast = ToastNotification {
        kind: ToastKind::Finished,
        title: "pi finished".to_string(),
        context: "workspace 1".to_string(),
    };
    let text = written(&render_toast_notification(area, &toast, false, &p));
    assert!(text.contains("pi finished") && text.contains("workspace 1"));
    let warning = render_config_diagnostic(area, "bad key", &p);
    assert!(written(&warning).contains("bad key"));
    let on_yellow = warning.ops.iter().any(|op| match op {
        Op::Text { lines, .. } => {
            lines[0].spans[0].style.fg == Some(p.panel_bg)
                && lines[0].spans[0].style.bg == Some(p.yellow)
        }
        _ => false,
    });
    assert!(on_yellow);
}

#[test]
fn onboarding_has_two_steps() {
    let p = palette();
    let area = Rect::new(0, 0, 100, 40);
    let welcome = written(&render_onboarding_overlay(0, 0, area, &p, p.panel_bg));
    let notifications = written(&render_onboarding_overlay(1, 0, area, &p, p.panel_bg));
    assert!(!welcome.is_empty());
    assert_ne!(welcome, notifications);
    assert!(onboarding_welcome_continue_rect(area).width > 0);
}

#[test]
fn hints_pair_keys_with_labels() {
    let line = build_hints(&names(&["n", "x"]), &names(&["new", "close"]), ink(Color::Red), plain());
    let text = words(&line);
    assert!(text.find('n') < text.find("new"));
    assert!(text.contains("close"));
}
