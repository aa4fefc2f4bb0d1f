//! Overlays and small dialogs: modes, renaming, closing and menus.

use vstd::prelude::*;

use crate::geometry;
use crate::geometry::Rect;
use crate::text;
use crate::ui::keybind_help::Keybinds;
use crate::ui::onboarding;
use crate::ui::plan;
use crate::ui::plan::{
    bold, ink, ink_on, paper, plain, Align, Line, Op, OpView, Palette, Plan, SpanView, Style,
};
use crate::ui::release_notes;
use crate::ui::widgets;

verus! {

/// The last row of an area.
pub open spec fn last_row(area: Rect) -> Rect {
    geometry::rect(
        area.x as int,
        area.y + geometry::less(area.height as int, 1),
        area.width as int,
        1,
    )
}

/// Drawing a line over the last row of an area.
pub open spec fn bottom_line(area: Rect, line: Seq<SpanView>, p: Palette) -> Seq<OpView> {
    plan::idle().push(OpView::Clear(last_row(area))).push(
        OpView::Restyle { rect: last_row(area), style: paper(p.panel_bg) },
    ).push(plan::line_at(last_row(area), line))
}

fn draw_bottom_line(area: Rect, line: Line, p: &Palette) -> (drawn: Plan)
    requires
        area.wf(),
    ensures
        drawn@ == bottom_line(area, line@, *p),
{
    let row = Rect::new(area.x, area.y + area.height.saturating_sub(1), area.width, 1);
    let mut drawn = Plan::new();
    drawn.push(Op::Clear(row));
    drawn.push(Op::Restyle { rect: row, style: paper(p.panel_bg) });
    drawn.line(row, line);
    drawn
}

/// A key and what it does, in a line of hints.
pub open spec fn hint(
    line: Seq<SpanView>,
    key: Seq<char>,
    label: Seq<char>,
    p: Palette,
) -> Seq<SpanView> {
    line.push(plan::span(key, bold(ink(p.accent)))).push(plan::span(label, ink(p.overlay0)))
}

fn with_hint(line: Line, key: &str, label: &str, p: &Palette) -> (longer: Line)
    ensures
        longer@ == hint(line@, key@, label@, *p),
{
    line.with(key, bold(ink(p.accent))).with(label, ink(p.overlay0))
}

/// The hints of navigate mode.
pub open spec fn navigate_line(kb: Keybinds, p: Palette) -> Seq<SpanView> {
    let mode = plan::blank().push(
        plan::span(" NAVIGATE "@, bold(ink_on(p.panel_bg, p.accent))),
    ).push(plan::span(" "@, plain()));
    let moves = hint(
        hint(hint(mode, "esc"@, " back  "@, p), "↑↓"@, " ws  "@, p),
        "⇥"@,
        " pane  "@,
        p,
    );
    let splits = hint(
        hint(
            hint(moves, kb.new_tab_label@, " new tab  "@, p),
            kb.split_vertical_label@,
            " split│  "@,
            p,
        ),
        kb.split_horizontal_label@,
        " split─  "@,
        p,
    );
    let panes = hint(
        hint(
            hint(splits, kb.close_pane_label@, " close  "@, p),
            kb.fullscreen_label@,
            " full  "@,
            p,
        ),
        kb.resize_mode_label@,
        " resize  "@,
        p,
    );
    hint(hint(panes, "?"@, " keybinds  "@, p), "s"@, " settings"@, p)
}

/// The end of a row, where a note on an update stands.
pub open spec fn row_end(row: Rect) -> Rect {
    let width = geometry::least(13, row.width as int);
    geometry::rect(row.x + row.width - width, row.y as int, width, row.height as int)
}

/// Drawing the overlay of navigate mode.
pub open spec fn navigate_plan(
    kb: Keybinds,
    update_available: bool,
    area: Rect,
    p: Palette,
) -> Seq<OpView> {
    let hints = bottom_line(area, navigate_line(kb, p), p);
    if update_available {
        hints.push(OpView::Clear(row_end(last_row(area)))).push(
            OpView::Text {
                rect: row_end(last_row(area)),
                lines: seq![
                    plan::blank().push(plan::span(" update ready"@, bold(ink(p.accent)))),
                ],
                style: plain(),
                align: Align::Right,
                wrap: false,
                scroll: 0,
            },
        )
    } else {
        hints
    }
}

/// Draw the overlay of navigate mode.
pub fn render_navigate_overlay(
    kb: &Keybinds,
    update_available: bool,
    area: Rect,
    p: &Palette,
) -> (drawn: Plan)
    requires
        area.wf(),
    ensures
        drawn@ == navigate_plan(*kb, update_available, area, *p),
{
    let mut line = Line::of(" NAVIGATE ", bold(ink_on(p.panel_bg, p.accent))).with(" ", plain());
    line = with_hint(line, "esc", " back  ", p);
    line = with_hint(line, "↑↓", " ws  ", p);
    line = with_hint(line, "⇥", " pane  ", p);
    line = with_hint(line, kb.new_tab_label.as_str(), " new tab  ", p);
    line = with_hint(line, kb.split_vertical_label.as_str(), " split│  ", p);
    line = with_hint(line, kb.split_horizontal_label.as_str(), " split─  ", p);
    line = with_hint(line, kb.close_pane_label.as_str(), " close  ", p);
    line = with_hint(line, kb.fullscreen_label.as_str(), " full  ", p);
    line = with_hint(line, kb.resize_mode_label.as_str(), " resize  ", p);
    line = with_hint(line, "?", " keybinds  ", p);
    line = with_hint(line, "s", " settings", p);
    let mut drawn = draw_bottom_line(area, line, p);
    if update_available {
        let row = Rect::new(area.x, area.y + area.height.saturating_sub(1), area.width, 1);
        let width: u16 = geometry::smaller(13, row.width);
        let end = Rect::new(row.x + (row.width - width), row.y, width, row.height);
        drawn.push(Op::Clear(end));
        drawn.push(
            Op::Text {
                rect: end,
                lines: plan::single(Line::of(" update ready", bold(ink(p.accent)))),
                style: plain(),
                align: Align::Right,
                wrap: false,
                scroll: 0,
            },
        );
    }
    drawn
}

/// The hints of resize mode.
pub open spec fn resize_line(p: Palette) -> Seq<SpanView> {
    let mode = plan::blank().push(
        plan::span(" RESIZE "@, bold(ink_on(p.panel_bg, p.mauve))),
    ).push(plan::span("  "@, plain()));
    hint(
        hint(hint(mode, "h/l"@, " width  "@, p), "j/k"@, " height  "@, p),
        "esc"@,
        " done"@,
        p,
    )
}

/// Draw the overlay of resize mode.
pub fn render_resize_overlay(area: Rect, p: &Palette) -> (drawn: Plan)
    requires
        area.wf(),
    ensures
        drawn@ == bottom_line(area, resize_line(*p), *p),
{
    let mut line = Line::of(" RESIZE ", bold(ink_on(p.panel_bg, p.mauve))).with("  ", plain());
    line = with_hint(line, "h/l", " width  ", p);
    line = with_hint(line, "j/k", " height  ", p);
    line = with_hint(line, "esc", " done", p);
    draw_bottom_line(area, line, p)
}

/// What is renamed.
#[derive(Debug, Clone, Copy, PartialEq, Eq, Structural)]
pub enum RenameTarget {
    Workspace,
    Tab,
    /// A tab that is about to be created.
    NewTab,
}

/// The title of the dialog that renames.
pub open spec fn rename_title(target: RenameTarget) -> Seq<char> {
    match target {
        RenameTarget::Workspace => "rename workspace"@,
        RenameTarget::Tab => "rename tab"@,
        RenameTarget::NewTab => "new tab"@,
    }
}

/// The widths of the buttons of the dialog that renames.
pub open spec fn rename_widths() -> Seq<u16> {
    seq![
        widgets::button_width(Some("↵"@), "save"@),
        widgets::button_width(Some("^c"@), "clear"@),
        widgets::button_width(Some("esc"@), "cancel"@),
    ]
}

/// The buttons of the dialog that renames.
pub fn rename_button_rects(inner: Rect) -> (rects: (Rect, Rect, Rect))
    requires
        inner.wf(),
    ensures
        ({
            let row = widgets::button_row(inner, rename_widths(), 2, 3);
            rects == (row[0], row[1], row[2])
        }),
{
    let mut widths: Vec<u16> = Vec::new();
    widths.push(widgets::action_button_width(Some("↵"), "save"));
    widths.push(widgets::action_button_width(Some("^c"), "clear"));
    widths.push(widgets::action_button_width(Some("esc"), "cancel"));
    proof {
        assert(widths@ =~= rename_widths());
        reveal_strlit(" ");
        reveal_strlit("↵");
        reveal_strlit("save");
        reveal_strlit("^c");
        reveal_strlit("clear");
        reveal_strlit("esc");
        reveal_strlit("cancel");
        reveal_with_fuel(widgets::sum, 4);
        assert(widths@.drop_last().drop_last().drop_last().len() == 0);
        assert(widgets::sum(widths@) == widths@[0] + widths@[1] + widths@[2]);
    }
    let rects = widgets::centered_button_row(inner, &widths, 2, 3);
    (rects[0], rects[1], rects[2])
}

/// Drawing the dialog that renames.
pub open spec fn rename_plan(
    target: RenameTarget,
    input: Seq<char>,
    inner: Rect,
    rows: Seq<Rect>,
    p: Palette,
) -> Seq<OpView> {
    let field = geometry::rect(rows[2].x as int, rows[2].y as int, rows[2].width as int, 1);
    let buttons = widgets::button_row(inner, rename_widths(), 2, 3);
    plan::idle().push(widgets::header_at(rows[0], rename_title(target), p)).push(
        OpView::Clear(field),
    ).push(plan::text_at(field, " "@ + input + "█"@, ink_on(p.text, p.surface0))).push(
        widgets::button_at(buttons[0], Some("↵"@), "save"@, widgets::primary(p.panel_bg, p)),
    ).push(
        widgets::button_at(buttons[1], Some("^c"@), "clear"@, widgets::secondary(p)),
    ).push(widgets::button_at(buttons[2], Some("esc"@), "cancel"@, widgets::secondary(p)))
}

/// Draw the dialog that renames, in its rows.
pub fn draw_rename(
    target: RenameTarget,
    input: &str,
    inner: Rect,
    rows: &Vec<Rect>,
    p: &Palette,
) -> (drawn: Plan)
    requires
        inner.wf(),
        rows@.len() == 5,
    ensures
        drawn@ == rename_plan(target, input@, inner, rows@, *p),
{
    let title = match target {
        RenameTarget::Workspace => "rename workspace",
        RenameTarget::Tab => "rename tab",
        RenameTarget::NewTab => "new tab",
    };
    let mut drawn = Plan::new();
    widgets::render_modal_header(&mut drawn, rows[0], title, p);
    let field = Rect::new(rows[2].x, rows[2].y, rows[2].width, 1);
    drawn.push(Op::Clear(field));
    let mut shown = " ".to_owned();
    shown.append(input);
    shown.append("█");
    drawn.text(field, shown.as_str(), ink_on(p.text, p.surface0));
    let (save, clear, cancel) = rename_button_rects(inner);
    widgets::render_action_button(
        &mut drawn,
        save,
        Some("↵"),
        "save",
        widgets::primary(p.panel_bg, *p),
    );
    widgets::render_action_button(
        &mut drawn,
        clear,
        Some("^c"),
        "clear",
        widgets::secondary(*p),
    );
    widgets::render_action_button(
        &mut drawn,
        cancel,
        Some("esc"),
        "cancel",
        widgets::secondary(*p),
    );
    drawn
}

/// Draw the dialog that renames, where it has room.
pub fn render_rename_overlay(
    target: RenameTarget,
    input: &str,
    area: Rect,
    p: &Palette,
) -> (drawn: Plan)
    requires
        area.wf(),
    ensures
        ({
            let inner = widgets::modal_inner(area, 56, 7);
            let shell = release_notes::opened_plan(area, 56, 7, *p);
            if onboarding::tall(inner, 4) {
                exists|rows: Seq<Rect>| #[trigger]
                    widgets::rows_of(inner->0, onboarding::option_extents(), rows) && drawn@
                        == shell + rename_plan(target, input@, inner->0, rows, *p)
            } else {
                drawn@ == shell
            }
        }),
{
    let mut drawn = Plan::new();
    widgets::dim_background(&mut drawn, area);
    match widgets::render_modal_shell(&mut drawn, area, 56, 7, p) {
        Some(inner) => {
            if inner.height < 4 {
                return drawn;
            }
            let rows = widgets::divide_rows(inner, &onboarding::four_rows_and_rest());
            drawn.append(draw_rename(target, input, inner, &rows, p));
            drawn
        },
        None => drawn,
    }
}

/// The dialog that asks before a workspace is closed.
pub fn confirm_close_popup_rect(area: Rect) -> (popup: Option<Rect>)
    requires
        area.wf(),
    ensures
        popup == widgets::popup_rect(area, 44, 5),
        popup matches Some(popup) ==> popup.wf() && popup.within(area),
{
    widgets::centered_popup_rect(area, 44, 5)
}

/// The widths of the buttons of the dialog that asks.
pub open spec fn confirm_widths() -> Seq<u16> {
    widgets::two_widths("↵"@, "confirm"@, "esc"@, "cancel"@)
}

/// The buttons of the dialog that asks.
pub fn confirm_close_button_rects(inner: Rect) -> (rects: (Rect, Rect))
    requires
        inner.wf(),
    ensures
        ({
            let row = widgets::button_row(inner, confirm_widths(), 2, 2);
            rects == (row[0], row[1])
        }),
{
    proof {
        reveal_strlit(" ");
        reveal_strlit("↵");
        reveal_strlit("confirm");
        reveal_strlit("esc");
        reveal_strlit("cancel");
        reveal_with_fuel(widgets::sum, 3);
        let widths = confirm_widths();
        assert(widths.drop_last().drop_last().len() == 0);
        assert(widgets::sum(widths) == widths[0] + widths[1]);
    }
    widgets::two_button_rects(inner, ("↵", "confirm"), ("esc", "cancel"), 2)
}

/// How many panes a workspace has, in words.
pub open spec fn pane_text(count: nat) -> Seq<char> {
    if count == 1 {
        "1 pane"@
    } else {
        text::decimal(count) + " panes"@
    }
}

/// The workspace that is about to be closed.
#[derive(Debug)]
pub struct ClosingWorkspace {
    pub name: String,
    pub pane_count: usize,
}

/// The name of the workspace that is about to be closed.
pub open spec fn closing_name(closing: Option<&ClosingWorkspace>) -> Seq<char> {
    match closing {
        Some(closing) => closing.name@,
        None => "?"@,
    }
}

/// The panes of the workspace that is about to be closed.
pub open spec fn closing_panes(closing: Option<&ClosingWorkspace>) -> nat {
    match closing {
        Some(closing) => closing.pane_count as nat,
        None => 0,
    }
}

/// Drawing the dialog that asks.
pub open spec fn confirm_plan(
    closing: Option<&ClosingWorkspace>,
    inner: Rect,
    rows: Seq<Rect>,
    p: Palette,
) -> Seq<OpView> {
    let buttons = widgets::button_row(inner, confirm_widths(), 2, 2);
    plan::idle().push(
        plan::line_at(
            rows[0],
            plan::blank().push(plan::span(" Close workspace?"@, bold(ink(p.red)))),
        ),
    ).push(
        plan::line_at(
            rows[1],
            plan::blank().push(
                plan::span(" "@ + closing_name(closing), bold(ink(p.text))),
            ).push(plan::span(" — "@ + pane_text(closing_panes(closing)), ink(p.overlay0))),
        ),
    ).push(
        widgets::button_at(
            buttons[0],
            Some("↵"@),
            "confirm"@,
            bold(ink_on(p.panel_bg, p.red)),
        ),
    ).push(widgets::button_at(buttons[1], Some("esc"@), "cancel"@, widgets::secondary(p)))
}

/// Draw the dialog that asks, in its rows.
pub fn draw_confirm_close(
    closing: Option<&ClosingWorkspace>,
    inner: Rect,
    rows: &Vec<Rect>,
    p: &Palette,
) -> (drawn: Plan)
    requires
        inner.wf(),
        rows@.len() == 3,
    ensures
        drawn@ == confirm_plan(closing, inner, rows@, *p),
{
    let mut name = " ".to_owned();
    let count: usize = match closing {
        Some(closing) => {
            name.append(closing.name.as_str());
            closing.pane_count
        },
        None => {
            name.append("?");
            0
        },
    };
    let mut panes = " — ".to_owned();
    if count == 1 {
        panes.append("1 pane");
    } else {
        let mut words = text::wide_decimal_text(count as u128);
        words.append(" panes");
        panes.append(words.as_str());
    }
    let mut drawn = Plan::new();
    drawn.line(rows[0], Line::of(" Close workspace?", bold(ink(p.red))));
    drawn.line(
        rows[1],
        Line::of(name.as_str(), bold(ink(p.text))).with(panes.as_str(), ink(p.overlay0)),
    );
    let (confirm, cancel) = confirm_close_button_rects(inner);
    widgets::render_action_button(
        &mut drawn,
        confirm,
        Some("↵"),
        "confirm",
        bold(ink_on(p.panel_bg, p.red)),
    );
    widgets::render_action_button(
        &mut drawn,
        cancel,
        Some("esc"),
        "cancel",
        widgets::secondary(*p),
    );
    drawn
}

/// Draw the dialog that asks before a workspace is closed, where it has room.
pub fn render_confirm_close_overlay(
    closing: Option<&ClosingWorkspace>,
    area: Rect,
    p: &Palette,
) -> (drawn: Plan)
    requires
        area.wf(),
    ensures
        ({
            let dimmed = plan::idle().push(OpView::Dim(area));
            match widgets::popup_rect(area, 44, 5) {
                None => drawn@ == dimmed,
                Some(popup) => {
                    let inner = popup.framed();
                    let shell = dimmed + widgets::panel_plan(popup, p.red, p.panel_bg);
                    if inner.height >= 3 {
                        exists|rows: Seq<Rect>| #[trigger]
                            widgets::rows_of(inner, release_notes::single_rows(3), rows) && drawn@
                                == shell + confirm_plan(closing, inner, rows, *p)
                    } else {
                        drawn@ == shell
                    }
                },
            }
        }),
{
    let mut drawn = Plan::new();
    widgets::dim_background(&mut drawn, area);
    let popup = match confirm_close_popup_rect(area) {
        Some(popup) => popup,
        None => {
            return drawn;
        },
    };
    match widgets::render_panel_shell(&mut drawn, popup, p.red, p.panel_bg) {
        Some(inner) => {
            if inner.height < 3 {
                return drawn;
            }
            let rows = release_notes::divide_single_rows(inner, 3);
            drawn.append(draw_confirm_close(closing, inner, &rows, p));
            drawn
        },
        None => drawn,
    }
}

/// Drawing the first items of the menu.
pub open spec fn menu_items_plan(
    items: Seq<String>,
    highlighted: int,
    inner: Rect,
    n: int,
    p: Palette,
) -> Seq<OpView>
    decreases n,
{
    if n <= 0 {
        plan::idle()
    } else {
        let i = n - 1;
        menu_items_plan(items, highlighted, inner, i, p).push(
            plan::text_at(
                geometry::rect(inner.x as int, inner.y + i, inner.width as int, 1),
                " "@ + items[i]@ + " "@,
                if i == highlighted {
                    widgets::primary(p.panel_bg, p)
                } else {
                    ink(p.text)
                },
            ),
        )
    }
}

/// Draw the menu: a panel with its items, as far as they fit.
pub fn render_global_launcher_menu(
    items: &Vec<String>,
    highlighted: usize,
    rect: Rect,
    p: &Palette,
) -> (drawn: Plan)
    requires
        rect.wf(),
    ensures
        drawn@ == match widgets::panel_inner(rect) {
            Some(inner) => widgets::panel_plan(rect, p.accent, p.panel_bg) + menu_items_plan(
                items@,
                highlighted as int,
                inner,
                geometry::least(items@.len() as int, inner.height as int),
                *p,
            ),
            None => plan::idle(),
        },
{
    let mut drawn = Plan::new();
    let inner = match widgets::render_panel_shell(&mut drawn, rect, p.accent, p.panel_bg) {
        Some(inner) => inner,
        None => {
            return drawn;
        },
    };
    let ghost shell = widgets::panel_plan(rect, p.accent, p.panel_bg);
    assert(drawn@ =~= shell);
    let mut i: u16 = 0;
    assert(shell + menu_items_plan(items@, highlighted as int, inner, 0, *p) =~= shell);
    while i < inner.height && (i as usize) < items.len()
        invariant
            inner.wf(),
            i <= inner.height,
            i <= items@.len(),
            drawn@ == shell + menu_items_plan(
                items@,
                highlighted as int,
                inner,
                i as int,
                *p,
            ),
        decreases inner.height - i,
    {
        let style = if i as usize == highlighted {
            widgets::primary(p.panel_bg, *p)
        } else {
            ink(p.text)
        };
        let mut item = " ".to_owned();
        item.append(items[i as usize].as_str());
        item.append(" ");
        drawn.text(
            Rect::new(inner.x, inner.y + i, inner.width, 1),
            item.as_str(),
            style,
        );
        i = i + 1;
        assert(drawn@ =~= shell + menu_items_plan(
            items@,
            highlighted as int,
            inner,
            i as int,
            *p,
        ));
    }
    drawn
}

/// Plain lines.
pub open spec fn plain_lines(items: Seq<String>) -> Seq<Seq<SpanView>> {
    items.map_values(|item: String| plan::blank().push(plan::span(item@, plain())))
}

fn lines_of_items(items: &Vec<String>) -> (lines: Vec<Line>)
    ensures
        plan::lines_view(lines@) == plain_lines(items@),
{
    let mut lines: Vec<Line> = Vec::new();
    let mut i: usize = 0;
    assert(plan::lines_view(lines@) =~= plain_lines(items@).take(0));
    while i < items.len()
        invariant
            i <= items@.len(),
            plan::lines_view(lines@) == plain_lines(items@).take(i as int),
        decreases items@.len() - i,
    {
        let ghost before = plan::lines_view(lines@);
        let line = Line::of(items[i].as_str(), plain());
        lines.push(line);
        assert(plan::lines_view(lines@) =~= before.push(line@));
        i = i + 1;
        assert(plan::lines_view(lines@) =~= plain_lines(items@).take(i as int));
    }
    assert(plan::lines_view(lines@) =~= plain_lines(items@));
    lines
}

/// Draw a context menu: a panel with a list.
pub fn render_context_menu(
    items: &Vec<String>,
    highlighted: usize,
    menu_rect: Option<Rect>,
    p: &Palette,
) -> (drawn: Plan)
    ensures
        drawn@ == match menu_rect {
            Some(rect) => match widgets::panel_inner(rect) {
                Some(inner) => widgets::panel_plan(rect, p.accent, p.panel_bg).push(
                    OpView::List {
                        rect: inner,
                        items: plain_lines(items@),
                        selected: highlighted,
                        style: ink(p.text),
                        highlight: widgets::primary(p.panel_bg, *p),
                        symbol: " "@,
                    },
                ),
                None => plan::idle(),
            },
            None => plan::idle(),
        },
{
    let mut drawn = Plan::new();
    let rect = match menu_rect {
        Some(rect) => rect,
        None => {
            return drawn;
        },
    };
    match widgets::render_panel_shell(&mut drawn, rect, p.accent, p.panel_bg) {
        Some(inner) => {
            assert(drawn@ =~= widgets::panel_plan(rect, p.accent, p.panel_bg));
            drawn.push(
                Op::List {
                    rect: inner,
                    items: lines_of_items(items),
                    selected: highlighted,
                    style: ink(p.text),
                    highlight: widgets::primary(p.panel_bg, *p),
                    symbol: " ".to_owned(),
                },
            );
            drawn
        },
        None => drawn,
    }
}

/// A line of keys and what they do.
pub open spec fn hints_line(
    keys: Seq<String>,
    labels: Seq<String>,
    n: int,
    key_style: Style,
    dim_style: Style,
) -> Seq<SpanView>
    decreases n,
{
    if n <= 0 {
        plan::blank().push(plan::span(" "@, plain()))
    } else {
        let before = hints_line(keys, labels, n - 1, key_style, dim_style);
        let spaced = if n > 1 {
            before.push(plan::span("  "@, dim_style))
        } else {
            before
        };
        spaced.push(plan::span(keys[n - 1]@, key_style)).push(
            plan::span(" "@ + labels[n - 1]@, dim_style),
        )
    }
}

/// Write a line of keys and what they do.
pub fn build_hints(
    keys: &Vec<String>,
    labels: &Vec<String>,
    key_style: Style,
    dim_style: Style,
) -> (line: Line)
    requires
        keys@.len() == labels@.len(),
    ensures
        line@ == hints_line(keys@, labels@, keys@.len() as int, key_style, dim_style),
{
    let mut line = Line::of(" ", plain());
    let mut i: usize = 0;
    while i < keys.len()
        invariant
            keys@.len() == labels@.len(),
            i <= keys@.len(),
            line@ == hints_line(keys@, labels@, i as int, key_style, dim_style),
        decreases keys@.len() - i,
    {
        if i > 0 {
            line = line.with("  ", dim_style);
        }
        let mut label = " ".to_owned();
        label.append(labels[i].as_str());
        line = line.with(keys[i].as_str(), key_style).with(label.as_str(), dim_style);
        i = i + 1;
    }
    line
}

/// The dialog that renames says what is renamed, shows what was typed so far with
/// the cursor behind it, and offers to save, to clear and to cancel, in this
/// order.
pub proof fn law_renaming_shows_what_was_typed(
    target: RenameTarget,
    input: Seq<char>,
    inner: Rect,
    rows: Seq<Rect>,
    p: Palette,
)
    ensures
        ({
            let ops = rename_plan(target, input, inner, rows, p);
            let buttons = widgets::button_row(inner, rename_widths(), 2, 3);
            &&& ops.len() == 6
            &&& target is Workspace ==> ops[0] == widgets::header_at(rows[0], "rename workspace"@, p)
            &&& target is Tab ==> ops[0] == widgets::header_at(rows[0], "rename tab"@, p)
            &&& target is NewTab ==> ops[0] == widgets::header_at(rows[0], "new tab"@, p)
            &&& ops[1] is Clear && ops[2] is Text && ops[2]->Text_rect == ops[1]->Clear_0
            &&& ops[2]->Text_rect.x == rows[2].x && ops[2]->Text_rect.y == rows[2].y
            &&& ops[2]->Text_lines == plan::paragraph_lines(" "@ + input + "█"@)
            &&& ops[3] is Text && ops[3]->Text_rect == buttons[0] && ops[3]->Text_lines
                == plan::paragraph_lines(widgets::button_text(Some("↵"@), "save"@))
            &&& ops[4] is Text && ops[4]->Text_rect == buttons[1] && ops[4]->Text_lines
                == plan::paragraph_lines(widgets::button_text(Some("^c"@), "clear"@))
            &&& ops[5] is Text && ops[5]->Text_rect == buttons[2] && ops[5]->Text_lines
                == plan::paragraph_lines(widgets::button_text(Some("esc"@), "cancel"@))
        }),
{
}

/// The dialog that asks before closing names the workspace and counts its panes,
/// and offers to confirm and to cancel.
pub proof fn law_closing_names_what_is_lost(
    closing: ClosingWorkspace,
    inner: Rect,
    rows: Seq<Rect>,
    p: Palette,
)
    ensures
        ({
            let ops = confirm_plan(Some(&closing), inner, rows, p);
            let buttons = widgets::button_row(inner, confirm_widths(), 2, 2);
            &&& ops.len() == 4
            &&& ops[0] is Text && ops[0]->Text_rect == rows[0] && ops[0]->Text_lines[0][0].text
                == " Close workspace?"@
            &&& ops[1] is Text && ops[1]->Text_rect == rows[1] && ops[1]->Text_lines.len() == 1
            &&& ops[1]->Text_lines[0].len() == 2
            &&& ops[1]->Text_lines[0][0].text == " "@ + closing.name@
            &&& closing.pane_count == 1 ==> ops[1]->Text_lines[0][1].text == " — "@ + "1 pane"@
            &&& closing.pane_count != 1 ==> ops[1]->Text_lines[0][1].text == " — "@ + (
            text::decimal(closing.pane_count as nat) + " panes"@)
            &&& ops[2] is Text && ops[2]->Text_rect == buttons[0] && ops[2]->Text_lines
                == plan::paragraph_lines(widgets::button_text(Some("↵"@), "confirm"@))
            &&& ops[3] is Text && ops[3]->Text_rect == buttons[1] && ops[3]->Text_lines
                == plan::paragraph_lines(widgets::button_text(Some("esc"@), "cancel"@))
        }),
{
}

/// Each item of the menu stands on its own row, in order, and only the chosen one
/// stands out.
pub proof fn law_menu_items_stand_in_order(
    items: Seq<String>,
    highlighted: int,
    inner: Rect,
    n: int,
    i: int,
    p: Palette,
)
    requires
        0 <= i < n <= items.len(),
        inner.wf(),
        n <= inner.height,
    ensures
        ({
            let op = menu_items_plan(items, highlighted, inner, n, p)[i];
            &&& menu_items_plan(items, highlighted, inner, n, p).len() == n
            &&& op is Text
            &&& op->Text_rect == (Rect {
                x: inner.x,
                y: (inner.y + i) as u16,
                width: inner.width,
                height: 1,
            })
            &&& op->Text_lines == plan::paragraph_lines(" "@ + items[i]@ + " "@)
            &&& i == highlighted ==> op->Text_style.bold && op->Text_style.bg == Some(p.accent)
            &&& i != highlighted ==> !op->Text_style.bold && op->Text_style.bg is None
                && op->Text_style.fg == Some(p.text)
        }),
    decreases n,
{
    if n > 1 {
        if i < n - 1 {
            law_menu_items_stand_in_order(items, highlighted, inner, n - 1, i, p);
        } else {
            law_menu_items_stand_in_order(items, highlighted, inner, n - 1, 0, p);
        }
    } else {
        assert(menu_items_plan(items, highlighted, inner, 0, p).len() == 0);
    }
}

/// Navigate mode names, in this order, the keys that go back, move, open a tab,
/// split, close, fill the screen, resize, and show the key bindings and the
/// settings.
pub proof fn law_navigation_names_its_keys(kb: Keybinds, p: Palette)
    ensures
        ({
            let line = navigate_line(kb, p);
            &&& line.len() == 24
            &&& line[0].text == " NAVIGATE "@
            &&& line[2].text == "esc"@ && line[3].text == " back  "@
            &&& line[4].text == "↑↓"@ && line[5].text == " ws  "@
            &&& line[6].text == "⇥"@ && line[7].text == " pane  "@
            &&& line[8].text == kb.new_tab_label@ && line[9].text == " new tab  "@
            &&& line[10].text == kb.split_vertical_label@ && line[11].text == " split│  "@
            &&& line[12].text == kb.split_horizontal_label@ && line[13].text == " split─  "@
            &&& line[14].text == kb.close_pane_label@ && line[15].text == " close  "@
            &&& line[16].text == kb.fullscreen_label@ && line[17].text == " full  "@
            &&& line[18].text == kb.resize_mode_label@ && line[19].text == " resize  "@
            &&& line[20].text == "?"@ && line[21].text == " keybinds  "@
            &&& line[22].text == "s"@ && line[23].text == " settings"@
        }),
{
}

/// Hints stand on the last row of the area; an update is told at its right end,
/// and only where there is one.
pub proof fn law_hints_stand_on_the_last_row(
    kb: Keybinds,
    update_available: bool,
    area: Rect,
    p: Palette,
)
    requires
        area.wf(),
        area.height > 0,
        area.width >= 13,
    ensures
        ({
            let ops = navigate_plan(kb, update_available, area, p);
            let row = last_row(area);
            &&& row.x == area.x && row.width == area.width
            &&& row.y + 1 == area.y + area.height && row.height == 1
            &&& ops[0] == OpView::Clear(row)
            &&& ops[2] is Text && ops[2]->Text_rect == row && ops[2]->Text_lines == seq![
                navigate_line(kb, p),
            ]
            &&& !update_available ==> ops.len() == 3
            &&& update_available ==> ops.len() == 5 && ops[4] is Text && ops[4]->Text_rect.x
                + ops[4]->Text_rect.width == area.x + area.width && ops[4]->Text_rect.width == 13
                && ops[4]->Text_lines[0][0].text == " update ready"@
        }),
{
}

/// Resize mode names the keys for width and height, and the one that ends it.
pub proof fn law_resizing_names_its_keys(p: Palette)
    ensures
        ({
            let line = resize_line(p);
            &&& line.len() == 8
            &&& line[0].text == " RESIZE "@
            &&& line[2].text == "h/l"@ && line[3].text == " width  "@
            &&& line[4].text == "j/k"@ && line[5].text == " height  "@
            &&& line[6].text == "esc"@ && line[7].text == " done"@
        }),
{
}

/// A line of hints names each key and what it does, in order.
pub proof fn law_hint_lines_name_each_key(
    keys: Seq<String>,
    labels: Seq<String>,
    n: int,
    key_style: Style,
    dim_style: Style,
)
    requires
        0 <= n < keys.len(),
        keys.len() == labels.len(),
    ensures
        ({
            let before = hints_line(keys, labels, n, key_style, dim_style);
            let after = hints_line(keys, labels, n + 1, key_style, dim_style);
            let key = after[after.len() - 2];
            let label = after.last();
            &&& before.is_prefix_of(after)
            &&& n == 0 ==> after.len() == before.len() + 2
            &&& n > 0 ==> after.len() == before.len() + 3
            &&& key.text == keys[n]@ && key.style == key_style
            &&& label.text == " "@ + labels[n]@ && label.style == dim_style
            &&& hints_line(keys, labels, 0, key_style, dim_style).len() == 1
        }),
{
    let before = hints_line(keys, labels, n, key_style, dim_style);
    let after = hints_line(keys, labels, n + 1, key_style, dim_style);
    assert(before =~= after.subrange(0, before.len() as int));
}

/// The items of a context menu read as they are, in order.
pub proof fn law_plain_items_read_as_they_are(items: Seq<String>, i: int)
    requires
        0 <= i < items.len(),
    ensures
        plain_lines(items).len() == items.len(),
        plain_lines(items)[i].len() == 1,
        plain_lines(items)[i][0].text == items[i]@,
{
}

/// The hints of a mode stand in the last row of the area, over its whole width and
/// on their own background.
pub proof fn law_hints_stand_in_the_last_row(area: Rect, line: Seq<SpanView>, p: Palette)
    requires
        area.wf(),
        area.height > 0,
    ensures
        ({
            let ops = bottom_line(area, line, p);
            let row = ops[0]->Clear_0;
            &&& ops.len() == 3
            &&& ops[0] is Clear && ops[1] is Restyle && ops[2] is Text
            &&& row.x == area.x && row.width == area.width
            &&& row.y == area.y + area.height - 1 && row.height == 1
            &&& ops[1]->Restyle_rect == row && ops[1]->Restyle_style.bg == Some(p.panel_bg)
            &&& ops[2]->Text_rect == row && ops[2]->Text_lines.len() == 1
            &&& ops[2]->Text_lines[0] == line
        }),
{
}

} // verus!
