use herdr::geometry::Rect;
use herdr::ui::remote_mount::{
    remote_mount_button_rects, remote_mount_inner_rect, remote_mount_popup_height,
    remote_mount_recent_at, remote_mount_rows, remote_mount_visible_recents_rows,
    render_remote_mount_overlay, RemoteMount,
};
use herdr::ui::plan::{Color, Op, Palette};

fn palette() -> Palette {
    Palette {
        accent: Color::Blue,
        panel_bg: Color::Black,
        surface0: Color::Indexed(1),
        surface1: Color::Indexed(2),
        surface_dim: Color::Indexed(3),
        overlay0: Color::Indexed(4),
        overlay1: Color::Indexed(5),
        text: Color::White,
        subtext0: Color::Gray,
        mauve: Color::Magenta,
        green: Color::Green,
        yellow: Color::Yellow,
        red: Color::Red,
        blue: Color::LightBlue,
        teal: Color::Cyan,
    }
}

#[test]
fn remote_mount_button_rects_are_disjoint_and_within_inner() {
    let inner = remote_mount_inner_rect(Rect::new(0, 0, 100, 40), 0).unwrap();
    let (mount, cancel) = remote_mount_button_rects(inner);

    let within = |rect: Rect| {
        rect.x >= inner.x
            && rect.y >= inner.y
            && rect.x + rect.width <= inner.x + inner.width
            && rect.y + rect.height <= inner.y + inner.height
    };
    assert!(within(mount), "mount rect {mount:?} outside inner {inner:?}");
    assert!(within(cancel), "cancel rect {cancel:?} outside inner {inner:?}");

    let disjoint = mount.x + mount.width <= cancel.x || cancel.x + cancel.width <= mount.x;
    assert!(disjoint, "mount {mount:?} and cancel {cancel:?} overlap");
}

#[test]
fn remote_mount_inner_rect_is_none_for_a_tiny_screen() {
    assert!(remote_mount_inner_rect(Rect::new(0, 0, 3, 3), 0).is_none());
}

#[test]
fn remote_mount_popup_grows_only_when_recents_are_present() {
    let no_recents = remote_mount_inner_rect(Rect::new(0, 0, 100, 40), 0).unwrap();
    let with_recents = remote_mount_inner_rect(Rect::new(0, 0, 100, 40), 3).unwrap();
    assert!(with_recents.height > no_recents.height);
    // More than five stored recents must not keep growing the popup further.
    let with_many_recents = remote_mount_inner_rect(Rect::new(0, 0, 100, 40), 9).unwrap();
    assert_eq!(with_recents.height + 2, with_many_recents.height);
    assert_eq!(remote_mount_popup_height(0), 11);
    assert_eq!(remote_mount_popup_height(3), 15);
    assert_eq!(remote_mount_popup_height(9), 17);
}

#[test]
fn remote_mount_recent_at_finds_rows_and_skips_the_heading() {
    let inner = remote_mount_inner_rect(Rect::new(0, 0, 100, 40), 2).unwrap();
    let list_rect = remote_mount_rows(inner, 2)[4];

    assert_eq!(
        remote_mount_recent_at(inner, 2, list_rect.x, list_rect.y),
        None,
        "heading row is not selectable"
    );
    assert_eq!(remote_mount_recent_at(inner, 2, list_rect.x, list_rect.y + 1), Some(0));
    assert_eq!(remote_mount_recent_at(inner, 2, list_rect.x, list_rect.y + 2), Some(1));
    assert_eq!(
        remote_mount_recent_at(inner, 2, list_rect.x, list_rect.y + 3),
        None,
        "third row is out of range for only 2 recents"
    );
}

#[test]
fn recents_never_overlap_the_buttons_at_a_clamped_popup_height() {
    for screen_rows in [12u16, 13, 14, 16, 40] {
        let recents_count = 5;
        let inner = remote_mount_inner_rect(Rect::new(0, 0, 100, screen_rows), recents_count)
            .unwrap_or_else(|| panic!("popup must fit at {screen_rows} rows"));
        let list_rect = remote_mount_rows(inner, recents_count)[4];
        let visible = remote_mount_visible_recents_rows(list_rect, recents_count);

        if visible > 0 {
            assert!(
                list_rect.y + (visible as u16) < list_rect.y + list_rect.height,
                "{screen_rows} rows: {visible} recents + heading overflow {list_rect:?}"
            );
        }

        let (mount, cancel) = remote_mount_button_rects(inner);
        for (name, button) in [("mount", mount), ("cancel", cancel)] {
            assert_eq!(
                remote_mount_recent_at(inner, recents_count, button.x, button.y),
                None,
                "{screen_rows} rows: the {name} button row must not hit-test as a recent"
            );
        }

        if visible > 0 {
            assert_eq!(
                remote_mount_recent_at(
                    inner,
                    recents_count,
                    list_rect.x,
                    list_rect.y + visible as u16
                ),
                Some(visible - 1),
                "{screen_rows} rows: last visible recents row must stay clickable"
            );
        }
    }
}

#[test]
fn remote_mount_recent_at_is_none_with_no_recents() {
    let inner = remote_mount_inner_rect(Rect::new(0, 0, 100, 40), 0).unwrap();
    assert_eq!(remote_mount_recent_at(inner, 0, inner.x, inner.y), None);
}

#[test]
fn a_low_dialog_cuts_its_recents_only() {
    for recents_count in 0..=6usize {
        for height in 8..=20u16 {
            let inner = Rect::new(3, 5, 40, height);
            let heights: Vec<u16> =
                remote_mount_rows(inner, recents_count).iter().map(|row| row.height).collect();
            let asked = if recents_count > 0 { 1 + recents_count.min(5) as u16 } else { 0 };
            let list = asked.min(height - 6);
            assert_eq!(heights, vec![1, 1, 1, 1, list, 2, height - 6 - list]);
        }
    }
}

#[test]
fn an_error_of_several_lines_is_drawn_on_several_lines() {
    let mount = RemoteMount {
        input: "a\nb".to_string(),
        recent_targets: vec![],
        highlighted: None,
        error: Some("first\r\n\nthird".to_string()),
        submitting: true,
    };
    let p = palette();
    let plan = render_remote_mount_overlay(Some(&mount), Rect::new(0, 0, 100, 40), &p, p.panel_bg);
    let texts: Vec<Vec<String>> = plan
        .ops
        .iter()
        .filter_map(|op| match op {
            Op::Text { lines, .. } => Some(lines),
            _ => None,
        })
        .map(|lines| {
            lines
                .iter()
                .map(|line| line.spans.iter().map(|span| span.text.as_str()).collect())
                .collect()
        })
        .collect();
    assert!(texts.contains(&vec![" first".to_string(), String::new(), "third".to_string()]));
    assert!(texts.contains(&vec![" a".to_string(), "b█".to_string()]));
}
