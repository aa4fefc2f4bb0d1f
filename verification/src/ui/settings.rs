//! The settings dialog.

use vstd::prelude::*;

use crate::geometry;
use crate::geometry::{Direction, Extent, Rect};
use crate::lines;
use crate::text;
use crate::ui::plan;
use crate::ui::plan::{bold, ink, ink_on, plain, Line, Op, OpView, Palette, Plan, SpanView};
use crate::ui::release_notes;
use crate::ui::widgets;

verus! {

/// The sections of the settings.
#[derive(Debug, Clone, Copy, PartialEq, Eq, Structural)]
pub enum SettingsSection {
    Theme,
    Sound,
    Toast,
}

/// A section and its title.
#[derive(Debug)]
pub struct SettingsTab {
    pub section: SettingsSection,
    pub label: String,
}

/// What the settings dialog shows.
#[derive(Debug)]
pub struct Settings {
    pub tabs: Vec<SettingsTab>,
    pub section: SettingsSection,
    pub selected: usize,
    pub theme_names: Vec<String>,
    pub theme_name: String,
    pub sound_enabled: bool,
    pub toasts_enabled: bool,
}

/// The widths of the buttons.
pub open spec fn settings_widths() -> Seq<u16> {
    widgets::two_widths("↵"@, "apply"@, "esc"@, "close"@)
}

/// The buttons in the last row of the dialog.
pub fn settings_button_rects(inner: Rect) -> (rects: (Rect, Rect))
    requires
        inner.wf(),
    ensures
        rects == (settings_buttons(inner)[0], settings_buttons(inner)[1]),
{
    proof {
        reveal_strlit(" ");
        reveal_strlit("↵");
        reveal_strlit("apply");
        reveal_strlit("esc");
        reveal_strlit("close");
        reveal_with_fuel(widgets::sum, 3);
        let widths = settings_widths();
        assert(widths.drop_last().drop_last().len() == 0);
        assert(widgets::sum(widths) == widths[0] + widths[1]);
    }
    widgets::two_button_rects(
        inner,
        ("↵", "apply"),
        ("esc", "close"),
        inner.height.saturating_sub(1),
    )
}

/// The buttons in the last row of the dialog.
pub open spec fn settings_buttons(inner: Rect) -> Seq<Rect> {
    widgets::button_row(inner, settings_widths(), 2, geometry::less(inner.height as int, 1))
}

/// The mark of what is chosen.
pub open spec fn mark(chosen: bool) -> Seq<char> {
    if chosen {
        " ✓"@
    } else {
        ""@
    }
}

/// An item of a list, marked where it is chosen.
pub open spec fn item_line(label: Seq<char>, chosen: bool, p: Palette) -> Seq<SpanView> {
    plan::blank().push(plan::span(label, ink(p.subtext0))).push(
        plan::span(mark(chosen), ink(p.green)),
    )
}

fn item(label: &str, chosen: bool, p: &Palette) -> (line: Line)
    ensures
        line@ == item_line(label@, chosen, *p),
{
    let mark = if chosen {
        " ✓"
    } else {
        ""
    };
    Line::of(label, ink(p.subtext0)).with(mark, ink(p.green))
}

/// Whether two names are of the same theme: letter case does not count, nor do
/// spaces, underscores and hyphens differ.
pub open spec fn same_theme(left: Seq<char>, right: Seq<char>) -> bool {
    lines::hyphenated(lines::lowercased(left)) == lines::hyphenated(lines::lowercased(right))
}

/// Whether two names, in small letters, are of the same theme.
pub fn same_theme_name(left: &str, right: &str) -> (same: bool)
    ensures
        same == (lines::hyphenated(left@) == lines::hyphenated(right@)),
{
    lines::same_hyphenated(left, right)
}

/// The items of the list of themes.
pub open spec fn theme_items(names: Seq<String>, current: Seq<char>, p: Palette) -> Seq<
    Seq<SpanView>,
> {
    names.map_values(|name: String| item_line(name@, same_theme(name@, current), p))
}

/// Drawing the list of themes.
pub open spec fn theme_plan(s: Settings, area: Rect, p: Palette) -> OpView {
    OpView::List {
        rect: area,
        items: theme_items(s.theme_names@, s.theme_name@, p),
        selected: s.selected,
        style: ink(p.subtext0),
        highlight: bold(ink_on(p.text, p.surface0)),
        symbol: " ▸ "@,
    }
}

/// Draw the list of themes; the current one is marked.
pub fn render_settings_theme(drawn: &mut Plan, s: &Settings, area: Rect, p: &Palette)
    ensures
        final(drawn)@ == old(drawn)@.push(theme_plan(*s, area, *p)),
{
    let current = s.theme_name.as_str().to_lowercase();
    let mut items: Vec<Line> = Vec::new();
    let mut i: usize = 0;
    let ghost all = theme_items(s.theme_names@, s.theme_name@, *p);
    assert(plan::lines_view(items@) =~= all.take(0));
    while i < s.theme_names.len()
        invariant
            current@ == lines::lowercased(s.theme_name@),
            all == theme_items(s.theme_names@, s.theme_name@, *p),
            i <= s.theme_names@.len(),
            plan::lines_view(items@) == all.take(i as int),
        decreases s.theme_names@.len() - i,
    {
        let ghost before = plan::lines_view(items@);
        let name = s.theme_names[i].as_str();
        let chosen = same_theme_name(name.to_lowercase().as_str(), current.as_str());
        let line = item(name, chosen, p);
        items.push(line);
        assert(plan::lines_view(items@) =~= before.push(line@));
        i = i + 1;
        assert(plan::lines_view(items@) =~= all.take(i as int));
    }
    assert(plan::lines_view(items@) =~= all);
    drawn.push(
        Op::List {
            rect: area,
            items,
            selected: s.selected,
            style: ink(p.subtext0),
            highlight: bold(ink_on(p.text, p.surface0)),
            symbol: " ▸ ".to_owned(),
        },
    );
}

/// What the rows of a switch ask for.
pub open spec fn toggle_extents() -> Seq<Extent> {
    seq![Extent::Length(1), Extent::Length(1), Extent::Min(2)]
}

/// A description that is cut off where there is too little room.
pub open spec fn description_text(description: Seq<char>, width: u16) -> Seq<char> {
    let room = geometry::less(width as int, 2);
    if text::byte_len(description) > room {
        " "@ + text::byte_prefix(description, geometry::less(room, 2)) + "…"@
    } else {
        " "@ + description
    }
}

/// Whether a description is not cut off within a character.
pub open spec fn describable(description: Seq<char>, width: u16) -> bool {
    let room = geometry::less(width as int, 2);
    text::byte_len(description) > room ==> text::byte_len(
        text::byte_prefix(description, geometry::less(room, 2)),
    ) == geometry::less(room, 2)
}

/// Drawing a switch: what it is for, and the choice of on and off.
pub open spec fn toggle_plan(
    title: Seq<char>,
    description: Seq<char>,
    enabled: bool,
    selected: usize,
    rows: Seq<Rect>,
    p: Palette,
) -> Seq<OpView> {
    plan::idle().push(
        plan::line_at(
            rows[0],
            plan::blank().push(
                plan::span(description_text(description, rows[0].width), ink(p.overlay1)),
            ),
        ),
    ).push(
        OpView::List {
            rect: rows[2],
            items: seq![
                item_line(title + ": "@ + "on"@, enabled, p),
                item_line(title + ": "@ + "off"@, !enabled, p),
            ],
            selected: if selected < 1 {
                selected
            } else {
                1
            },
            style: plain(),
            highlight: bold(ink_on(p.text, p.surface0)),
            symbol: " ▸ "@,
        },
    )
}

/// Draw a switch in its rows.
pub fn draw_settings_toggle(
    title: &str,
    description: &str,
    enabled: bool,
    selected: usize,
    rows: &Vec<Rect>,
    p: &Palette,
) -> (drawn: Plan)
    requires
        rows@.len() == 3,
        describable(description@, rows@[0].width),
    ensures
        drawn@ == toggle_plan(title@, description@, enabled, selected, rows@, *p),
{
    let mut drawn = Plan::new();
    let room: u16 = rows[0].width.saturating_sub(2);
    let mut shown = " ".to_owned();
    if text::bytes_in(description) > room as u128 {
        let cut = text::first_bytes(description, room.saturating_sub(2) as u128);
        shown.append(cut.as_str());
        shown.append("…");
    } else {
        shown.append(description);
    }
    drawn.line(rows[0], Line::of(shown.as_str(), ink(p.overlay1)));
    let mut on = title.to_owned();
    on.append(": ");
    on.append("on");
    let mut off = title.to_owned();
    off.append(": ");
    off.append("off");
    let mut items: Vec<Line> = Vec::new();
    items.push(item(on.as_str(), enabled, p));
    items.push(item(off.as_str(), !enabled, p));
    assert(plan::lines_view(items@) =~= seq![
        item_line(title@ + ": "@ + "on"@, enabled, *p),
        item_line(title@ + ": "@ + "off"@, !enabled, *p),
    ]);
    drawn.push(
        Op::List {
            rect: rows[2],
            items,
            selected: if selected < 1 {
                selected
            } else {
                1
            },
            style: plain(),
            highlight: bold(ink_on(p.text, p.surface0)),
            symbol: " ▸ ".to_owned(),
        },
    );
    drawn
}

/// Draw a switch.
pub fn render_settings_toggle(
    title: &str,
    description: &str,
    enabled: bool,
    selected: usize,
    area: Rect,
    p: &Palette,
) -> (drawn: Plan)
    requires
        area.wf(),
        describable(description@, area.width),
    ensures
        drawn@ == toggle_plan(
            title@,
            description@,
            enabled,
            selected,
            toggle_parts(area),
            *p,
        ),
{
    let rows = toggle_rows(area);
    draw_settings_toggle(title, description, enabled, selected, &rows, p)
}

/// The rows of a switch: the description, a gap and the two settings, which come
/// first where there are too few rows.
pub open spec fn toggle_parts(area: Rect) -> Seq<Rect> {
    let told: int = if area.height >= 3 {
        1
    } else {
        0
    };
    let gap: int = if area.height >= 4 {
        1
    } else {
        0
    };
    seq![
        Rect { height: told as u16, ..area },
        Rect { y: (area.y + told) as u16, height: gap as u16, ..area },
        Rect {
            y: (area.y + told + gap) as u16,
            height: (area.height - told - gap) as u16,
            ..area
        },
    ]
}

/// On three rows the description and the gap share one row evenly.
proof fn lemma_three_rows()
    ensures
        geometry::most_even(toggle_extents(), 3, 2, seq![1, 1, 4]),
{
    let extents = toggle_extents();
    let sizes: Seq<int> = seq![1, 1, 4];
    lemma_three(sizes);
    assert(extents[2] == Extent::Min(2));
    assert(geometry::shareable(extents, 3, 2, sizes));
    assert forall|finer: int, others: Seq<int>|
        finer > 0 && #[trigger] geometry::shareable(extents, 3, finer, others) && !(forall|i: int|
            0 <= i < sizes.len() ==> others[i] * 2 == sizes[i] * finer) implies geometry::unevenness(
        others,
    ) * 2 > geometry::unevenness(sizes) * finer by {
        lemma_three(others);
        assert(0 <= others[0] <= finer && 0 <= others[1] <= finer);
        assert(others[2] == geometry::least(2, 3) * finer);
        if others[0] == others[1] {
            assert forall|i: int| 0 <= i < sizes.len() implies others[i] * 2 == sizes[i]
                * finer by {}
        }
    }
}

proof fn lemma_three(sizes: Seq<int>)
    requires
        sizes.len() == 3,
    ensures
        geometry::summed(sizes) == sizes[0] + sizes[1] + sizes[2],
        geometry::unevenness(sizes) == (if sizes[1] < sizes[0] {
            sizes[0] - sizes[1]
        } else {
            sizes[1] - sizes[0]
        }) + (if sizes[2] < sizes[1] {
            sizes[1] - sizes[2]
        } else {
            sizes[2] - sizes[1]
        }),
{
    let s2 = sizes.drop_last();
    let s1 = s2.drop_last();
    assert(s1.drop_last().len() == 0);
    reveal_with_fuel(geometry::summed, 4);
    reveal_with_fuel(geometry::unevenness, 3);
}

fn toggle_rows(area: Rect) -> (rows: Vec<Rect>)
    requires
        area.wf(),
    ensures
        rows@ == toggle_parts(area),
{
    let mut extents: Vec<Extent> = Vec::new();
    extents.push(Extent::Length(1));
    extents.push(Extent::Length(1));
    extents.push(Extent::Min(2));
    let rows = widgets::divide_rows(area, &extents);
    proof {
        let asked = toggle_extents();
        let size = area.height as int;
        let down = Direction::Vertical;
        assert(extents@ =~= asked);
        let e2 = asked.drop_last();
        let e1 = e2.drop_last();
        assert(e1.drop_last().len() == 0);
        reveal_with_fuel(geometry::total, 4);
        reveal_with_fuel(geometry::start, 4);
        assert(geometry::total(asked) == 4);
        if size >= 4 {
            assert(geometry::fits(asked, size));
            assert(rows@[0].y == area.y + geometry::start(asked, size, 0));
            assert(rows@[1].y == area.y + geometry::start(asked, size, 1));
            assert(rows@[2].y == area.y + geometry::start(asked, size, 2));
        } else {
            assert(geometry::crowded(asked, size));
            assert(geometry::shared(area, down, asked, rows@));
            assert(rows@[1].begin(down) == rows@[0].begin(down) + rows@[0].span(down));
            assert(rows@[2].begin(down) == rows@[1].begin(down) + rows@[1].span(down));
            if size == 3 {
                lemma_three_rows();
                let sizes: Seq<int> = seq![1, 1, 4];
                assert(sizes.take(1).drop_last().len() == 0);
                reveal_with_fuel(geometry::summed, 2);
                assert(geometry::summed(sizes.take(1)) == 1);
                assert(rows@[1].begin(down) == area.begin(down) + geometry::nearest(1, 2));
            }
        }
        assert(rows@ =~= toggle_parts(area));
    }
    rows
}

/// The rows of the dialog.
#[derive(Debug)]
pub struct SettingsLayout {
    /// The parts of the dialog and their gaps.
    pub stack: Vec<Rect>,
    /// The title, the tabs and a line.
    pub header: Vec<Rect>,
    /// The rows of a switch.
    pub toggle: Vec<Rect>,
    /// The rows of the footer.
    pub footer: Vec<Rect>,
}

/// Whether the inside of the dialog may be divided so.
pub open spec fn settings_rows(inner: Rect, layout: SettingsLayout) -> bool {
    &&& widgets::stacked(inner, 3, 2, 0, 1, layout.stack@)
    &&& widgets::rows_of(layout.stack@[0], release_notes::single_rows(3), layout.header@)
    &&& layout.toggle@ == toggle_parts(layout.stack@[2])
    &&& widgets::rows_of(layout.stack@[4], release_notes::single_rows(2), layout.footer@)
}

/// Whether the rows of the dialog can be drawn in.
pub open spec fn settings_usable(inner: Rect, layout: SettingsLayout) -> bool {
    &&& layout.stack@.len() == 5
    &&& layout.header@.len() == 3
    &&& layout.toggle@.len() == 3
    &&& layout.footer@.len() == 2
    &&& inner.wf()
}

/// Divide the inside of the dialog.
pub fn settings_layout(inner: Rect) -> (layout: SettingsLayout)
    requires
        inner.wf(),
    ensures
        settings_rows(inner, layout),
        settings_usable(inner, layout),
{
    let stack = widgets::modal_stack_rows(inner, 3, 2, 0, 1);
    let header = release_notes::divide_single_rows(stack[0], 3);
    let toggle = toggle_rows(stack[2]);
    let footer = release_notes::divide_single_rows(stack[4], 2);
    SettingsLayout { stack, header, toggle, footer }
}

/// A dialog of seven rows or more has its title, tabs and line on top, a row each, a
/// footer of two rows at the bottom, and the section between them, a row away from
/// either.
pub proof fn law_settings_are_laid_out_exactly(inner: Rect, layout: SettingsLayout)
    requires
        inner.wf(),
        inner.height >= 7,
        settings_rows(inner, layout),
    ensures
        layout.header@ == seq![
            Rect { height: 1, ..inner },
            Rect { y: (inner.y + 1) as u16, height: 1, ..inner },
            Rect { y: (inner.y + 2) as u16, height: 1, ..inner },
        ],
        layout.stack@[2] == (Rect {
            y: (inner.y + 4) as u16,
            height: (inner.height - 7) as u16,
            ..inner
        }),
        layout.footer@ == seq![
            Rect { y: (inner.y + inner.height - 2) as u16, height: 1, ..inner },
            Rect { y: (inner.y + inner.height - 1) as u16, height: 1, ..inner },
        ],
{
    let extents = widgets::stack_extents(3, 2, 0, 1);
    let size = inner.height as int;
    let e4 = extents.drop_last();
    let e3 = e4.drop_last();
    let e2 = e3.drop_last();
    let e1 = e2.drop_last();
    assert(e1.drop_last().len() == 0);
    reveal_with_fuel(geometry::total, 7);
    reveal_with_fuel(geometry::start, 6);
    assert(geometry::total(extents) == 7);
    assert(geometry::fits(extents, size));
    assert(layout.stack@[0].y == inner.y + geometry::start(extents, size, 0));
    assert(layout.stack@[2].y == inner.y + geometry::start(extents, size, 2));
    assert(layout.stack@[4].y == inner.y + geometry::start(extents, size, 4));
    let three = release_notes::single_rows(3);
    assert(three.drop_last().drop_last().drop_last().len() == 0);
    assert(geometry::total(three) == 3);
    assert(geometry::fits(three, 3));
    assert(layout.header@[0].y == inner.y + geometry::start(three, 3, 0));
    assert(layout.header@[1].y == inner.y + geometry::start(three, 3, 1));
    assert(layout.header@[2].y == inner.y + geometry::start(three, 3, 2));
    let two = release_notes::single_rows(2);
    assert(two.drop_last().drop_last().len() == 0);
    assert(geometry::total(two) == 2);
    assert(geometry::fits(two, 2));
    assert(layout.footer@[0].y == layout.stack@[4].y + geometry::start(two, 2, 0));
    assert(layout.footer@[1].y == layout.stack@[4].y + geometry::start(two, 2, 1));
}

/// The place of a section among the tabs; the first where it is not there.
pub open spec fn section_place(tabs: Seq<SettingsTab>, section: SettingsSection) -> int
    decreases tabs.len(),
{
    if tabs.len() == 0 {
        0
    } else if exists|i: int| 0 <= i < tabs.len() && tabs[i].section == section {
        if tabs[0].section == section {
            0
        } else {
            1 + section_place(tabs.drop_first(), section)
        }
    } else {
        0
    }
}

fn find_section(tabs: &Vec<SettingsTab>, section: SettingsSection) -> (place: usize)
    ensures
        place == section_place(tabs@, section),
{
    let mut i: usize = 0;
    assert(tabs@.skip(0) =~= tabs@);
    while i < tabs.len()
        invariant
            i <= tabs@.len(),
            forall|k: int| 0 <= k < i ==> tabs@[k].section != section,
            (exists|k: int| 0 <= k < tabs@.len() && tabs@[k].section == section) ==> section_place(
                tabs@,
                section,
            ) == i + section_place(tabs@.skip(i as int), section),
        decreases tabs@.len() - i,
    {
        let ghost rest = tabs@.skip(i as int);
        assert(rest[0] == tabs@[i as int]);
        assert(rest.drop_first() =~= tabs@.skip(i + 1));
        if tabs[i].section == section {
            return i;
        }
        proof {
            if exists|k: int| 0 <= k < tabs@.len() && tabs@[k].section == section {
                let k = choose|k: int| 0 <= k < tabs@.len() && tabs@[k].section == section;
                assert(rest[k - i].section == section);
            }
        }
        i = i + 1;
    }
    0
}

/// The titles of the tabs.
pub open spec fn tab_titles(tabs: Seq<SettingsTab>) -> Seq<Seq<SpanView>> {
    tabs.map_values(|tab: SettingsTab| plan::blank().push(plan::span(tab.label@, plain())))
}

fn titles(tabs: &Vec<SettingsTab>) -> (lines: Vec<Line>)
    ensures
        plan::lines_view(lines@) == tab_titles(tabs@),
{
    let mut lines: Vec<Line> = Vec::new();
    let mut i: usize = 0;
    assert(plan::lines_view(lines@) =~= tab_titles(tabs@).take(0));
    while i < tabs.len()
        invariant
            i <= tabs@.len(),
            plan::lines_view(lines@) == tab_titles(tabs@).take(i as int),
        decreases tabs@.len() - i,
    {
        let ghost before = plan::lines_view(lines@);
        let line = Line::of(tabs[i].label.as_str(), plain());
        lines.push(line);
        assert(plan::lines_view(lines@) =~= before.push(line@));
        i = i + 1;
        assert(plan::lines_view(lines@) =~= tab_titles(tabs@).take(i as int));
    }
    assert(plan::lines_view(lines@) =~= tab_titles(tabs@));
    lines
}

/// Drawing the section that is shown.
pub open spec fn section_plan(s: Settings, layout: SettingsLayout, p: Palette) -> Seq<OpView> {
    match s.section {
        SettingsSection::Theme => plan::idle().push(theme_plan(s, layout.stack@[2], p)),
        SettingsSection::Sound => toggle_plan(
            "sound alerts"@,
            "play sounds when agents change state in background"@,
            s.sound_enabled,
            s.selected,
            layout.toggle@,
            p,
        ),
        SettingsSection::Toast => toggle_plan(
            "visual toasts"@,
            "show top-right notifications for background events"@,
            s.toasts_enabled,
            s.selected,
            layout.toggle@,
            p,
        ),
    }
}

/// The hints below the settings.
pub open spec fn settings_hints(p: Palette) -> Seq<SpanView> {
    plan::blank().push(plan::span(" ↑↓"@, ink(p.overlay0))).push(
        plan::span(" select  "@, ink(p.overlay1)),
    ).push(plan::span("tab"@, ink(p.overlay0))).push(plan::span(" section"@, ink(p.overlay1)))
}

/// Drawing the settings in the rows of their dialog.
pub open spec fn settings_plan(
    s: Settings,
    inner: Rect,
    layout: SettingsLayout,
    p: Palette,
) -> Seq<OpView> {
    (plan::idle().push(
        plan::line_at(
            layout.header@[0],
            plan::blank().push(plan::span(" settings"@, bold(ink(p.text)))),
        ),
    ).push(
        OpView::Tabs {
            rect: layout.header@[1],
            titles: tab_titles(s.tabs@),
            selected: section_place(s.tabs@, s.section) as usize,
            style: ink(p.overlay1),
            highlight: widgets::primary(p.panel_bg, p),
        },
    ).push(
        plan::line_at(
            layout.header@[2],
            plan::blank().push(
                plan::span(text::repeated("─"@, inner.width as nat), ink(p.surface0)),
            ),
        ),
    ) + section_plan(s, layout, p)).push(
        widgets::button_at(
            settings_buttons(inner)[0],
            Some("↵"@),
            "apply"@,
            widgets::primary(p.panel_bg, p),
        ),
    ).push(
        widgets::button_at(
            settings_buttons(inner)[1],
            Some("esc"@),
            "close"@,
            widgets::secondary(p),
        ),
    ).push(plan::line_at(layout.footer@[0], settings_hints(p)))
}

proof fn lemma_short_prefix(s: Seq<char>, n: int)
    requires
        n >= 0,
        forall|i: int| 0 <= i < s.len() ==> (#[trigger] s[i] as int) < 0x80,
    ensures
        text::byte_len(s) == s.len(),
        n <= s.len() ==> text::byte_len(text::byte_prefix(s, n)) == n,
    decreases s.len(),
{
    if s.len() > 0 {
        assert forall|i: int| 0 <= i < s.drop_last().len() implies (#[trigger] s.drop_last()[i]
            as int) < 0x80 by {
            assert(s.drop_last()[i] == s[i]);
        }
        assert((s[s.len() - 1] as int) < 0x80);
        lemma_short_prefix(s.drop_last(), n);
    }
}

proof fn lemma_descriptions(width: u16)
    ensures
        describable("play sounds when agents change state in background"@, width),
        describable("show top-right notifications for background events"@, width),
{
    reveal_strlit("play sounds when agents change state in background");
    reveal_strlit("show top-right notifications for background events");
    let room = geometry::less(width as int, 2);
    lemma_short_prefix(
        "play sounds when agents change state in background"@,
        geometry::less(room, 2),
    );
    lemma_short_prefix(
        "show top-right notifications for background events"@,
        geometry::less(room, 2),
    );
}

/// Draw the settings in the rows of their dialog.
pub fn draw_settings(
    s: &Settings,
    inner: Rect,
    layout: &SettingsLayout,
    p: &Palette,
) -> (drawn: Plan)
    requires
        settings_usable(inner, *layout),
    ensures
        drawn@ == settings_plan(*s, inner, *layout, *p),
{
    let mut drawn = Plan::new();
    drawn.line(layout.header[0], Line::of(" settings", bold(ink(p.text))));
    drawn.push(
        Op::Tabs {
            rect: layout.header[1],
            titles: titles(&s.tabs),
            selected: find_section(&s.tabs, s.section),
            style: ink(p.overlay1),
            highlight: widgets::primary(p.panel_bg, *p),
        },
    );
    let line = text::repeat("─", inner.width);
    drawn.line(layout.header[2], Line::of(line.as_str(), ink(p.surface0)));
    proof {
        lemma_descriptions(layout.toggle@[0].width);
    }
    let ghost headed = drawn@;
    match s.section {
        SettingsSection::Theme => {
            render_settings_theme(&mut drawn, s, layout.stack[2], p);
            assert(drawn@ =~= headed + section_plan(*s, *layout, *p));
        },
        SettingsSection::Sound => {
            drawn.append(
                draw_settings_toggle(
                    "sound alerts",
                    "play sounds when agents change state in background",
                    s.sound_enabled,
                    s.selected,
                    &layout.toggle,
                    p,
                ),
            );
        },
        SettingsSection::Toast => {
            drawn.append(
                draw_settings_toggle(
                    "visual toasts",
                    "show top-right notifications for background events",
                    s.toasts_enabled,
                    s.selected,
                    &layout.toggle,
                    p,
                ),
            );
        },
    }
    let (apply, close) = settings_button_rects(inner);
    widgets::render_action_button(
        &mut drawn,
        apply,
        Some("↵"),
        "apply",
        widgets::primary(p.panel_bg, *p),
    );
    widgets::render_action_button(
        &mut drawn,
        close,
        Some("esc"),
        "close",
        widgets::secondary(*p),
    );
    drawn.line(
        layout.footer[0],
        Line::of(" ↑↓", ink(p.overlay0)).with(" select  ", ink(p.overlay1)).with(
            "tab",
            ink(p.overlay0),
        ).with(" section", ink(p.overlay1)),
    );
    drawn
}

/// Draw the settings in a dialog, where there is room for one.
pub fn render_settings_overlay(s: &Settings, area: Rect, p: &Palette) -> (drawn:
    Plan)
    requires
        area.wf(),
    ensures
        match widgets::popup_rect(area, 56, 20) {
            None => drawn@ == plan::idle(),
            Some(popup) => {
                let inner = popup.framed();
                let shell = plan::idle().push(OpView::Dim(area)) + widgets::panel_plan(
                    popup,
                    p.accent,
                    p.panel_bg,
                );
                if inner.height >= 4 && inner.width >= 10 {
                    exists|layout: SettingsLayout| #[trigger]
                        settings_rows(inner, layout) && drawn@ == shell + settings_plan(
                            *s,
                            inner,
                            layout,
                            *p,
                        )
                } else {
                    drawn@ == shell
                }
            },
        },
{
    let mut drawn = Plan::new();
    let popup = match widgets::centered_popup_rect(area, 56, 20) {
        Some(popup) => popup,
        None => {
            return drawn;
        },
    };
    widgets::dim_background(&mut drawn, area);
    match widgets::render_panel_shell(&mut drawn, popup, p.accent, p.panel_bg) {
        Some(inner) => {
            if inner.height < 4 || inner.width < 10 {
                return drawn;
            }
            let layout = settings_layout(inner);
            drawn.append(draw_settings(s, inner, &layout, p));
            drawn
        },
        None => drawn,
    }
}

/// The list of themes names them all in order, and marks the one whose name is the
/// current one's; a name of another length in small letters is never marked.
pub proof fn law_the_current_theme_is_marked(s: Settings, area: Rect, p: Palette)
    ensures
        ({
            let op = theme_plan(s, area, p);
            &&& op is List
            &&& op->List_rect == area
            &&& op->List_selected == s.selected
            &&& op->List_items.len() == s.theme_names@.len()
            &&& forall|i: int|
                0 <= i < s.theme_names@.len() ==> {
                    let item = #[trigger] op->List_items[i];
                    &&& item.len() == 2
                    &&& item[0].text == s.theme_names@[i]@
                    &&& s.theme_names@[i]@ == s.theme_name@ ==> item[1].text == " ✓"@
                    &&& lines::lowercased(s.theme_names@[i]@).len() != lines::lowercased(
                        s.theme_name@,
                    ).len() ==> item[1].text == ""@
                    &&& item[1].style.fg == Some(p.green)
                }
        }),
{
    let op = theme_plan(s, area, p);
    assert forall|i: int| 0 <= i < s.theme_names@.len() implies {
        let item = #[trigger] op->List_items[i];
        &&& item.len() == 2
        &&& item[0].text == s.theme_names@[i]@
        &&& s.theme_names@[i]@ == s.theme_name@ ==> item[1].text == " ✓"@
        &&& lines::lowercased(s.theme_names@[i]@).len() != lines::lowercased(s.theme_name@).len()
            ==> item[1].text == ""@
        &&& item[1].style.fg == Some(p.green)
    } by {
        let name = s.theme_names@[i]@;
        assert(lines::hyphenated(lines::lowercased(name)).len() == lines::lowercased(name).len());
        assert(lines::hyphenated(lines::lowercased(s.theme_name@)).len() == lines::lowercased(
            s.theme_name@,
        ).len());
    }
}

/// A switch tells what it is for in its first row, offers on before off in its
/// last, marks what holds, and chooses off from the second place on.
pub proof fn law_a_switch_marks_its_state(
    title: Seq<char>,
    description: Seq<char>,
    enabled: bool,
    selected: usize,
    rows: Seq<Rect>,
    p: Palette,
)
    ensures
        ({
            let ops = toggle_plan(title, description, enabled, selected, rows, p);
            let items = ops[1]->List_items;
            &&& ops.len() == 2
            &&& ops[0] is Text && ops[0]->Text_rect == rows[0]
            &&& ops[0]->Text_lines.len() == 1 && ops[0]->Text_lines[0].len() == 1
            &&& text::byte_len(description) + 2 <= rows[0].width
                ==> ops[0]->Text_lines[0][0].text == " "@ + description
            &&& text::byte_len(description) + 2 > rows[0].width && rows[0].width >= 4
                ==> ops[0]->Text_lines[0][0].text == " "@ + text::byte_prefix(
                description,
                rows[0].width - 4,
            ) + "…"@
            &&& ops[1] is List && ops[1]->List_rect == rows[2]
            &&& ops[1]->List_selected == if selected == 0 { 0usize } else { 1usize }
            &&& items.len() == 2
            &&& items[0][0].text == title + ": "@ + "on"@
            &&& items[1][0].text == title + ": "@ + "off"@
            &&& enabled ==> items[0][1].text == " ✓"@ && items[1][1].text == ""@
            &&& !enabled ==> items[0][1].text == ""@ && items[1][1].text == " ✓"@
        }),
{
    if text::byte_len(description) + 2 <= rows[0].width {
        assert(text::byte_len(description) >= 0);
    }
}

/// Each section shows its own setting: the themes as a list, and the sounds and
/// the toasts as switches that stand where these are.
pub proof fn law_each_section_shows_its_own(s: Settings, layout: SettingsLayout, p: Palette)
    ensures
        ({
            let ops = section_plan(s, layout, p);
            let items = ops[1]->List_items;
            &&& s.section is Theme ==> {
                &&& ops.len() == 1
                &&& ops[0] is List
                &&& ops[0]->List_rect == layout.stack@[2]
                &&& ops[0]->List_items.len() == s.theme_names@.len()
            }
            &&& s.section is Sound ==> {
                &&& ops.len() == 2 && ops[1] is List && ops[1]->List_rect == layout.toggle@[2]
                &&& items[0][0].text == "sound alerts"@ + ": "@ + "on"@
                &&& (items[0][1].text == " ✓"@ <==> s.sound_enabled)
            }
            &&& s.section is Toast ==> {
                &&& ops.len() == 2 && ops[1] is List && ops[1]->List_rect == layout.toggle@[2]
                &&& items[0][0].text == "visual toasts"@ + ": "@ + "on"@
                &&& (items[0][1].text == " ✓"@ <==> s.toasts_enabled)
            }
        }),
{
    reveal_strlit(" ✓");
    reveal_strlit("");
    assert(" ✓"@.len() == 2);
    assert(""@.len() == 0);
}

/// The chosen tab is the first one of the section that is shown.
pub proof fn law_the_chosen_tab_is_of_the_section(tabs: Seq<SettingsTab>, section: SettingsSection)
    ensures
        ({
            let place = section_place(tabs, section);
            &&& (exists|i: int| 0 <= i < tabs.len() && tabs[i].section == section) ==> {
                &&& 0 <= place < tabs.len()
                &&& tabs[place].section == section
                &&& forall|i: int| 0 <= i < place ==> (#[trigger] tabs[i]).section != section
            }
            &&& (forall|i: int| 0 <= i < tabs.len() ==> (#[trigger] tabs[i]).section != section)
                ==> place == 0
        }),
    decreases tabs.len(),
{
    if tabs.len() > 0 && tabs[0].section != section && exists|i: int|
        0 <= i < tabs.len() && tabs[i].section == section {
        let rest = tabs.drop_first();
        let k = choose|i: int| 0 <= i < tabs.len() && tabs[i].section == section;
        assert(rest[k - 1].section == section);
        law_the_chosen_tab_is_of_the_section(rest, section);
        let place = section_place(tabs, section);
        assert forall|i: int| 0 <= i < place implies (#[trigger] tabs[i]).section != section by {
            if i > 0 {
                assert(rest[i - 1] == tabs[i]);
            }
        }
        assert(rest[place - 1] == tabs[place]);
    }
}

/// The dialog shows, in this order, its title, the tabs under their labels, a line
/// of its whole width, the section, the buttons to apply and to close, and the
/// hints.
pub proof fn law_settings_are_drawn_in_order(
    s: Settings,
    inner: Rect,
    layout: SettingsLayout,
    p: Palette,
)
    ensures
        ({
            let ops = settings_plan(s, inner, layout, p);
            let shown = section_plan(s, layout, p);
            let n = shown.len() as int;
            &&& ops.len() == n + 6
            &&& ops[0] is Text && ops[0]->Text_rect == layout.header@[0]
            &&& ops[0]->Text_lines[0][0].text == " settings"@
            &&& ops[1] is Tabs && ops[1]->Tabs_rect == layout.header@[1]
            &&& ops[1]->Tabs_titles.len() == s.tabs@.len()
            &&& forall|i: int|
                0 <= i < s.tabs@.len() ==> (#[trigger] ops[1]->Tabs_titles[i]).len() == 1
                    && ops[1]->Tabs_titles[i][0].text == s.tabs@[i].label@
            &&& ops[1]->Tabs_selected == section_place(s.tabs@, s.section) as usize
            &&& ops[2] is Text && ops[2]->Text_rect == layout.header@[2]
            &&& ops[2]->Text_lines[0][0].text == text::repeated("─"@, inner.width as nat)
            &&& forall|i: int| 0 <= i < n ==> #[trigger] ops[3 + i] == shown[i]
            &&& ops[n + 3] is Text && ops[n + 3]->Text_rect == settings_buttons(inner)[0]
            &&& ops[n + 3]->Text_lines == plan::paragraph_lines(
                widgets::button_text(Some("↵"@), "apply"@),
            )
            &&& ops[n + 4] is Text && ops[n + 4]->Text_rect == settings_buttons(inner)[1]
            &&& ops[n + 4]->Text_lines == plan::paragraph_lines(
                widgets::button_text(Some("esc"@), "close"@),
            )
            &&& ops[n + 5] is Text && ops[n + 5]->Text_rect == layout.footer@[0]
            &&& ops[n + 5]->Text_lines[0].len() == 4
            &&& ops[n + 5]->Text_lines[0][0].text == " ↑↓"@
            &&& ops[n + 5]->Text_lines[0][1].text == " select  "@
            &&& ops[n + 5]->Text_lines[0][2].text == "tab"@
            &&& ops[n + 5]->Text_lines[0][3].text == " section"@
        }),
{
}

} // verus!
