//! The list of key bindings, and the dialog that shows it.

use vstd::prelude::*;

use crate::geometry;
use crate::geometry::Rect;
use crate::text;
use crate::ui::plan;
use crate::ui::plan::{bold, ink, Line, OpView, Palette, Plan, SpanView};
use crate::ui::release_notes;
use crate::ui::release_notes::{NoteLine, NoteLineView, NotesLayout};
use crate::ui::scrollbar::ScrollbarThumb;
use crate::ui::widgets;

verus! {

/// The labels of the configured keys; some actions may have none.
#[derive(Debug)]
pub struct Keybinds {
    pub prefix_label: String,
    pub new_workspace_label: String,
    pub rename_workspace_label: String,
    pub close_workspace_label: String,
    pub previous_workspace_label: Option<String>,
    pub next_workspace_label: Option<String>,
    pub new_tab_label: String,
    pub rename_tab_label: Option<String>,
    pub previous_tab_label: Option<String>,
    pub next_tab_label: Option<String>,
    pub close_tab_label: Option<String>,
    pub split_vertical_label: String,
    pub split_horizontal_label: String,
    pub close_pane_label: String,
    pub fullscreen_label: String,
    pub resize_mode_label: String,
    pub toggle_sidebar_label: String,
    pub focus_pane_left_label: Option<String>,
    pub focus_pane_down_label: Option<String>,
    pub focus_pane_up_label: Option<String>,
    pub focus_pane_right_label: Option<String>,
}

/// A key and what it does.
#[derive(Debug)]
pub struct HelpEntry {
    pub key: String,
    pub label: String,
}

/// A key and what it does, for contracts.
pub struct HelpEntryView {
    pub key: Seq<char>,
    pub label: Seq<char>,
}

/// Keys that belong together.
#[derive(Debug)]
pub struct HelpGroup {
    pub name: String,
    pub entries: Vec<HelpEntry>,
}

/// Keys that belong together, for contracts.
pub struct HelpGroupView {
    pub name: Seq<char>,
    pub entries: Seq<HelpEntryView>,
}

/// A key and what it does.
pub open spec fn help(key: Seq<char>, label: Seq<char>) -> HelpEntryView {
    HelpEntryView { key, label }
}

impl HelpEntry {
    pub open spec fn view(&self) -> HelpEntryView {
        HelpEntryView { key: self.key@, label: self.label@ }
    }
}

/// A group without keys.
pub open spec fn named(name: Seq<char>) -> HelpGroupView {
    HelpGroupView { name, entries: Seq::empty() }
}

impl HelpGroupView {
    /// The group with another key.
    pub open spec fn and(self, key: Seq<char>, label: Seq<char>) -> HelpGroupView {
        HelpGroupView { entries: self.entries.push(help(key, label)), ..self }
    }
}

impl HelpGroup {
    pub open spec fn view(&self) -> HelpGroupView {
        HelpGroupView {
            name: self.name@,
            entries: self.entries@.map_values(|entry: HelpEntry| entry@),
        }
    }

    fn new(name: &str) -> (group: HelpGroup)
        ensures
            group@ == named(name@),
    {
        let group = HelpGroup { name: name.to_owned(), entries: Vec::new() };
        assert(group@.entries =~= Seq::<HelpEntryView>::empty());
        group
    }

    fn with(self, key: &str, label: &str) -> (group: HelpGroup)
        ensures
            group@ == self@.and(key@, label@),
    {
        let ghost before = self@;
        let name = self.name;
        let mut entries = self.entries;
        entries.push(HelpEntry { key: key.to_owned(), label: label.to_owned() });
        let group = HelpGroup { name, entries };
        assert(group@.entries =~= before.entries.push(help(key@, label@)));
        group
    }
}

/// The label of an action that may have no key.
pub open spec fn optional_label(label: Option<String>) -> Seq<char> {
    match label {
        Some(label) => label@,
        None => "unset"@,
    }
}

/// The label of an action that may have no key.
pub fn optional_keybind_label(label: &Option<String>) -> (shown: String)
    ensures
        shown@ == optional_label(*label),
{
    match label {
        Some(label) => label.clone(),
        None => "unset".to_owned(),
    }
}

/// The group of keys that work everywhere.
pub open spec fn global_group(kb: Keybinds) -> HelpGroupView {
    named("global"@).and(kb.prefix_label@, "navigate mode"@).and("prefix + ?"@, "keybinds"@)
}

/// The group of keys that move around.
pub open spec fn navigation_group() -> HelpGroupView {
    named("navigation"@).and("esc"@, "back"@).and("↑ / ↓"@, "workspace list"@).and(
        "h j k l / arrows"@,
        "move focus"@,
    ).and("tab / shift+tab"@, "cycle pane"@).and("enter"@, "open workspace"@).and(
        "s"@,
        "settings"@,
    ).and("q"@, "quit"@)
}

/// The group of keys for workspaces and tabs.
pub open spec fn workspace_group(kb: Keybinds) -> HelpGroupView {
    named("workspaces / tabs"@).and(kb.new_workspace_label@, "new workspace"@).and(
        kb.rename_workspace_label@,
        "rename workspace"@,
    ).and(kb.close_workspace_label@, "close workspace"@).and(
        optional_label(kb.previous_workspace_label),
        "previous workspace"@,
    ).and(optional_label(kb.next_workspace_label), "next workspace"@).and(
        kb.new_tab_label@,
        "new tab"@,
    ).and(optional_label(kb.rename_tab_label), "rename tab"@).and(
        optional_label(kb.previous_tab_label),
        "previous tab"@,
    ).and(optional_label(kb.next_tab_label), "next tab"@).and(
        optional_label(kb.close_tab_label),
        "close tab"@,
    )
}

/// The group of keys for panes.
pub open spec fn pane_group(kb: Keybinds) -> HelpGroupView {
    named("panes"@).and(kb.split_vertical_label@, "split vertical"@).and(
        kb.split_horizontal_label@,
        "split horizontal"@,
    ).and(kb.close_pane_label@, "close pane"@).and(kb.fullscreen_label@, "fullscreen"@).and(
        kb.resize_mode_label@,
        "resize mode"@,
    ).and(kb.toggle_sidebar_label@, "toggle sidebar"@).and(
        optional_label(kb.focus_pane_left_label),
        "focus pane left"@,
    ).and(optional_label(kb.focus_pane_down_label), "focus pane down"@).and(
        optional_label(kb.focus_pane_up_label),
        "focus pane up"@,
    ).and(optional_label(kb.focus_pane_right_label), "focus pane right"@)
}

/// All groups of keys, in the order in which they are shown.
pub open spec fn groups_of(kb: Keybinds) -> Seq<HelpGroupView> {
    seq![global_group(kb), navigation_group(), workspace_group(kb), pane_group(kb)]
}

/// Groups of keys, for contracts.
pub open spec fn groups_view(groups: Seq<HelpGroup>) -> Seq<HelpGroupView> {
    groups.map_values(|group: HelpGroup| group@)
}

fn navigation_help() -> (group: HelpGroup)
    ensures
        group@ == navigation_group(),
{
    HelpGroup::new("navigation").with("esc", "back").with("↑ / ↓", "workspace list").with(
        "h j k l / arrows",
        "move focus",
    ).with("tab / shift+tab", "cycle pane").with("enter", "open workspace").with(
        "s",
        "settings",
    ).with("q", "quit")
}

fn workspace_help(kb: &Keybinds) -> (group: HelpGroup)
    ensures
        group@ == workspace_group(*kb),
{
    HelpGroup::new("workspaces / tabs").with(
        kb.new_workspace_label.as_str(),
        "new workspace",
    ).with(kb.rename_workspace_label.as_str(), "rename workspace").with(
        kb.close_workspace_label.as_str(),
        "close workspace",
    ).with(
        optional_keybind_label(&kb.previous_workspace_label).as_str(),
        "previous workspace",
    ).with(
        optional_keybind_label(&kb.next_workspace_label).as_str(),
        "next workspace",
    ).with(kb.new_tab_label.as_str(), "new tab").with(
        optional_keybind_label(&kb.rename_tab_label).as_str(),
        "rename tab",
    ).with(
        optional_keybind_label(&kb.previous_tab_label).as_str(),
        "previous tab",
    ).with(optional_keybind_label(&kb.next_tab_label).as_str(), "next tab").with(
        optional_keybind_label(&kb.close_tab_label).as_str(),
        "close tab",
    )
}

fn pane_help(kb: &Keybinds) -> (group: HelpGroup)
    ensures
        group@ == pane_group(*kb),
{
    HelpGroup::new("panes").with(kb.split_vertical_label.as_str(), "split vertical").with(
        kb.split_horizontal_label.as_str(),
        "split horizontal",
    ).with(kb.close_pane_label.as_str(), "close pane").with(
        kb.fullscreen_label.as_str(),
        "fullscreen",
    ).with(kb.resize_mode_label.as_str(), "resize mode").with(
        kb.toggle_sidebar_label.as_str(),
        "toggle sidebar",
    ).with(
        optional_keybind_label(&kb.focus_pane_left_label).as_str(),
        "focus pane left",
    ).with(
        optional_keybind_label(&kb.focus_pane_down_label).as_str(),
        "focus pane down",
    ).with(optional_keybind_label(&kb.focus_pane_up_label).as_str(), "focus pane up").with(
        optional_keybind_label(&kb.focus_pane_right_label).as_str(),
        "focus pane right",
    )
}

/// All groups of keys.
pub fn keybind_help_groups(kb: &Keybinds) -> (groups: Vec<HelpGroup>)
    ensures
        groups_view(groups@) == groups_of(*kb),
{
    let mut groups: Vec<HelpGroup> = Vec::new();
    groups.push(
        HelpGroup::new("global").with(kb.prefix_label.as_str(), "navigate mode").with(
            "prefix + ?",
            "keybinds",
        ),
    );
    groups.push(navigation_help());
    groups.push(workspace_help(kb));
    groups.push(pane_help(kb));
    assert(groups_view(groups@) =~= groups_of(*kb));
    groups
}

/// The characters of the longest key of some entries.
pub open spec fn longest_key(entries: Seq<HelpEntryView>) -> nat
    decreases entries.len(),
{
    if entries.len() == 0 {
        0
    } else {
        geometry::most(longest_key(entries.drop_last()), entries.last().key.len())
    }
}

/// The characters of the longest key of all groups.
pub open spec fn key_width(groups: Seq<HelpGroupView>) -> nat
    decreases groups.len(),
{
    if groups.len() == 0 {
        0
    } else {
        geometry::most(key_width(groups.drop_last()), longest_key(groups.last().entries))
    }
}

/// The line of a key: the key padded to a width, and what it does.
pub open spec fn entry_line(entry: HelpEntryView, width: nat, p: Palette) -> NoteLineView {
    let padded = " "@ + text::padded(entry.key, width) + " "@;
    NoteLineView {
        width: release_notes::counted(padded.len() + entry.label.len()),
        spans: plan::blank().push(plan::span(padded, bold(ink(p.mauve)))).push(
            plan::span(entry.label, ink(p.text)),
        ),
    }
}

/// The lines of keys.
pub open spec fn entry_lines(entries: Seq<HelpEntryView>, width: nat, p: Palette) -> Seq<
    NoteLineView,
> {
    entries.map_values(|entry: HelpEntryView| entry_line(entry, width, p))
}

/// The lines of a group: its name, its keys and an empty line.
pub open spec fn group_lines(group: HelpGroupView, width: nat, p: Palette) -> Seq<NoteLineView> {
    (seq![
        NoteLineView {
            width: release_notes::counted(text::byte_len(group.name) + 1),
            spans: plan::blank().push(plan::span(" "@ + group.name, bold(ink(p.accent)))),
        },
    ] + entry_lines(group.entries, width, p)).push(release_notes::empty_note())
}

/// The lines of the first groups.
pub open spec fn help_lines(groups: Seq<HelpGroupView>, n: int, width: nat, p: Palette) -> Seq<
    NoteLineView,
>
    decreases n,
{
    if n <= 0 {
        Seq::empty()
    } else {
        help_lines(groups, n - 1, width, p) + group_lines(groups[n - 1], width, p)
    }
}

fn widest_key(groups: &Vec<HelpGroup>) -> (width: usize)
    ensures
        width == key_width(groups_view(groups@)),
{
    let ghost all = groups_view(groups@);
    let mut width: usize = 0;
    let mut g: usize = 0;
    while g < groups.len()
        invariant
            all == groups_view(groups@),
            g <= groups@.len(),
            width == key_width(all.take(g as int)),
        decreases groups@.len() - g,
    {
        assert(all.take(g + 1).drop_last() =~= all.take(g as int));
        let entries = &groups[g].entries;
        let ghost keys = all[g as int].entries;
        let mut longest: usize = 0;
        let mut i: usize = 0;
        while i < entries.len()
            invariant
                keys == entries@.map_values(|entry: HelpEntry| entry@),
                i <= entries@.len(),
                longest == longest_key(keys.take(i as int)),
            decreases entries@.len() - i,
        {
            assert(keys.take(i + 1).drop_last() =~= keys.take(i as int));
            let count: usize = entries[i].key.as_str().unicode_len();
            if longest < count {
                longest = count;
            }
            i = i + 1;
        }
        assert(keys.take(i as int) =~= keys);
        if width < longest {
            width = longest;
        }
        g = g + 1;
    }
    assert(all.take(g as int) =~= all);
    width
}

fn push_note(notes: &mut Vec<NoteLine>, note: NoteLine)
    ensures
        release_notes::notes_view(final(notes)@) == release_notes::notes_view(old(notes)@).push(
            note@,
        ),
{
    let ghost before = release_notes::notes_view(notes@);
    let ghost last = note@;
    notes.push(note);
    assert(release_notes::notes_view(notes@) =~= before.push(last));
}

fn counted_bytes(name: &str) -> (width: usize)
    ensures
        width == release_notes::counted(text::byte_len(name@) + 1),
{
    proof {
        text::lemma_byte_len_is_bounded(name@);
    }
    let _count: usize = name.unicode_len();
    let bytes: u128 = text::bytes_in(name) + 1;
    if bytes <= usize::MAX as u128 {
        bytes as usize
    } else {
        usize::MAX
    }
}

/// The lines of the list of key bindings, with their widths.
pub fn keybind_help_lines(kb: &Keybinds, p: &Palette) -> (notes: Vec<NoteLine>)
    ensures
        release_notes::notes_view(notes@) == help_lines(
            groups_of(*kb),
            4,
            key_width(groups_of(*kb)),
            *p,
        ),
{
    let groups = keybind_help_groups(kb);
    let width: usize = widest_key(&groups);
    let ghost all = groups_of(*kb);
    let mut notes: Vec<NoteLine> = Vec::new();
    let mut g: usize = 0;
    assert(release_notes::notes_view(notes@) =~= Seq::<NoteLineView>::empty());
    while g < groups.len()
        invariant
            all == groups_view(groups@),
            g <= groups@.len(),
            release_notes::notes_view(notes@) == help_lines(all, g as int, width as nat, *p),
        decreases groups@.len() - g,
    {
        let group = &groups[g];
        let ghost start = release_notes::notes_view(notes@);
        let ghost lines = entry_lines(all[g as int].entries, width as nat, *p);
        let mut heading = " ".to_owned();
        heading.append(group.name.as_str());
        push_note(
            &mut notes,
            NoteLine {
                width: counted_bytes(group.name.as_str()),
                line: Line::of(heading.as_str(), bold(ink(p.accent))),
            },
        );
        let ghost headed = release_notes::notes_view(notes@);
        let mut i: usize = 0;
        assert(headed + lines.take(0) =~= headed);
        while i < group.entries.len()
            invariant
                all[g as int] == group@,
                lines == entry_lines(all[g as int].entries, width as nat, *p),
                i <= group.entries@.len(),
                release_notes::notes_view(notes@) == headed + lines.take(i as int),
            decreases group.entries@.len() - i,
        {
            let entry = &group.entries[i];
            let mut key = " ".to_owned();
            key.append(text::pad(entry.key.as_str(), width).as_str());
            key.append(" ");
            let shown: usize = key.as_str().unicode_len();
            let count: usize = entry.label.as_str().unicode_len();
            push_note(
                &mut notes,
                NoteLine {
                    width: shown.saturating_add(count),
                    line: Line::of(key.as_str(), bold(ink(p.mauve))).with(
                        entry.label.as_str(),
                        ink(p.text),
                    ),
                },
            );
            assert(group@.entries[i as int] == entry@);
            assert(release_notes::notes_view(notes@) =~= headed + lines.take(i + 1));
            i = i + 1;
        }
        push_note(&mut notes, NoteLine { width: 0, line: Line::new() });
        assert(lines.take(i as int) =~= lines);
        assert(release_notes::notes_view(notes@) =~= start + group_lines(
            all[g as int],
            width as nat,
            *p,
        ));
        g = g + 1;
    }
    notes
}

/// The hints below the list.
pub open spec fn help_footer(p: Palette) -> Seq<SpanView> {
    plan::blank().push(plan::span(" scroll "@, ink(p.overlay0))).push(
        plan::span("wheel ↑↓"@, ink(p.text)),
    ).push(plan::span("  ·  "@, ink(p.overlay0))).push(
        plan::span("jump"@, ink(p.overlay0)),
    ).push(plan::span(" pgup / pgdn "@, ink(p.text))).push(
        plan::span("  ·  "@, ink(p.overlay0)),
    ).push(plan::span("close"@, ink(p.overlay0))).push(
        plan::span(" q / esc / enter "@, ink(p.text)),
    )
}

/// Drawing the list of key bindings in its dialog.
pub open spec fn keybind_help_plan(
    kb: Keybinds,
    scroll: u16,
    max_scroll: u16,
    layout: NotesLayout,
    thumb: Option<ScrollbarThumb>,
    p: Palette,
) -> Seq<OpView> {
    let body = layout.stack@[2];
    (plan::idle().push(widgets::header_at(layout.header@[0], "keybinds"@, p)).push(
        widgets::button_at(
            widgets::close_button(layout.header@[0]),
            Some("esc"@),
            "close"@,
            widgets::primary(p.panel_bg, p),
        ),
    ).push(
        plan::text_at(
            layout.header@[1],
            " available commands and configured shortcuts"@,
            ink(p.overlay1),
        ),
    ) + release_notes::scrolling_plan(
        body,
        release_notes::notes_metrics(scroll, max_scroll, body),
        release_notes::spans_of(help_lines(groups_of(kb), 4, key_width(groups_of(kb)), p)),
        scroll,
        thumb,
        p,
    )).push(plan::line_at(layout.stack@[4], help_footer(p)))
}

/// Open the dialog of the list of key bindings.
pub fn open_keybind_help(area: Rect, p: &Palette) -> (opened: (Plan, Option<NotesLayout>))
    requires
        area.wf(),
    ensures
        ({
            let inner = widgets::modal_inner(area, 76, 22);
            &&& opened.0@ == release_notes::opened_plan(area, 76, 22, *p)
            &&& opened.1 is Some <==> release_notes::roomy(inner, 6)
            &&& opened.1 matches Some(layout) ==> release_notes::laid_out(inner->0, false, layout)
                && release_notes::usable(layout)
        }),
{
    release_notes::open_scrolling_dialog(area, 76, 22, 6, false, p)
}

/// Draw the list of key bindings in its dialog. `thumb` is the thumb of its
/// scrollbar.
pub fn render_keybind_help_overlay(
    kb: &Keybinds,
    scroll: u16,
    max_scroll: u16,
    layout: &NotesLayout,
    thumb: Option<ScrollbarThumb>,
    p: &Palette,
) -> (drawn: Plan)
    requires
        release_notes::usable(*layout),
    ensures
        drawn@ == keybind_help_plan(*kb, scroll, max_scroll, *layout, thumb, *p),
{
    let mut drawn = Plan::new();
    widgets::render_modal_header(&mut drawn, layout.header[0], "keybinds", p);
    widgets::render_action_button(
        &mut drawn,
        widgets::release_notes_close_button_rect(layout.header[0]),
        Some("esc"),
        "close",
        widgets::primary(p.panel_bg, *p),
    );
    drawn.text(
        layout.header[1],
        " available commands and configured shortcuts",
        ink(p.overlay1),
    );
    let body = layout.stack[2];
    let metrics = release_notes::scroll_metrics_of(scroll, max_scroll, body);
    let lines = release_notes::note_lines(keybind_help_lines(kb, p));
    drawn.append(
        release_notes::render_scrolling_text(body, metrics, lines, scroll, thumb, p),
    );
    drawn.line(
        layout.stack[4],
        Line::of(" scroll ", ink(p.overlay0)).with("wheel ↑↓", ink(p.text)).with(
            "  ·  ",
            ink(p.overlay0),
        ).with("jump", ink(p.overlay0)).with(" pgup / pgdn ", ink(p.text)).with(
            "  ·  ",
            ink(p.overlay0),
        ).with("close", ink(p.overlay0)).with(" q / esc / enter ", ink(p.text)),
    );
    drawn
}

/// Every action of a workspace or a tab is listed with its own key; an action
/// without one reads as unset.
pub proof fn law_workspace_keys_are_listed(kb: Keybinds)
    ensures
        ({
            let entries = workspace_group(kb).entries;
            &&& workspace_group(kb).name == "workspaces / tabs"@
            &&& entries.len() == 10
            &&& entries[0].key == kb.new_workspace_label@ && entries[0].label == "new workspace"@
            &&& entries[1].key == kb.rename_workspace_label@ && entries[1].label
                == "rename workspace"@
            &&& entries[2].key == kb.close_workspace_label@ && entries[2].label
                == "close workspace"@
            &&& entries[3].key == optional_label(kb.previous_workspace_label) && entries[3].label
                == "previous workspace"@
            &&& entries[4].key == optional_label(kb.next_workspace_label) && entries[4].label
                == "next workspace"@
            &&& entries[5].key == kb.new_tab_label@ && entries[5].label == "new tab"@
            &&& entries[6].key == optional_label(kb.rename_tab_label) && entries[6].label
                == "rename tab"@
            &&& entries[7].key == optional_label(kb.previous_tab_label) && entries[7].label
                == "previous tab"@
            &&& entries[8].key == optional_label(kb.next_tab_label) && entries[8].label
                == "next tab"@
            &&& entries[9].key == optional_label(kb.close_tab_label) && entries[9].label
                == "close tab"@
        }),
{
}

/// Every action of a pane is listed with its own key.
pub proof fn law_pane_keys_are_listed(kb: Keybinds)
    ensures
        ({
            let entries = pane_group(kb).entries;
            &&& pane_group(kb).name == "panes"@
            &&& entries.len() == 10
            &&& entries[0].key == kb.split_vertical_label@ && entries[0].label
                == "split vertical"@
            &&& entries[1].key == kb.split_horizontal_label@ && entries[1].label
                == "split horizontal"@
            &&& entries[2].key == kb.close_pane_label@ && entries[2].label == "close pane"@
            &&& entries[3].key == kb.fullscreen_label@ && entries[3].label == "fullscreen"@
            &&& entries[4].key == kb.resize_mode_label@ && entries[4].label == "resize mode"@
            &&& entries[5].key == kb.toggle_sidebar_label@ && entries[5].label
                == "toggle sidebar"@
            &&& entries[6].key == optional_label(kb.focus_pane_left_label) && entries[6].label
                == "focus pane left"@
            &&& entries[7].key == optional_label(kb.focus_pane_down_label) && entries[7].label
                == "focus pane down"@
            &&& entries[8].key == optional_label(kb.focus_pane_up_label) && entries[8].label
                == "focus pane up"@
            &&& entries[9].key == optional_label(kb.focus_pane_right_label) && entries[9].label
                == "focus pane right"@
        }),
{
}

/// The keys that work everywhere and those that move around come first.
pub proof fn law_global_keys_come_first(kb: Keybinds, label: String)
    ensures
        ({
            let groups = groups_of(kb);
            &&& groups.len() == 4
            &&& groups[0].name == "global"@ && groups[0].entries.len() == 2
            &&& groups[0].entries[0].key == kb.prefix_label@ && groups[0].entries[0].label
                == "navigate mode"@
            &&& groups[0].entries[1].key == "prefix + ?"@ && groups[0].entries[1].label
                == "keybinds"@
            &&& groups[1].name == "navigation"@ && groups[1].entries.len() == 7
            &&& groups[1].entries[0].key == "esc"@ && groups[1].entries[0].label == "back"@
            &&& groups[1].entries[4].key == "enter"@ && groups[1].entries[4].label
                == "open workspace"@
            &&& groups[1].entries[6].key == "q"@ && groups[1].entries[6].label == "quit"@
            &&& groups[2] == workspace_group(kb) && groups[3] == pane_group(kb)
            &&& optional_label(Some(label)) == label@
            &&& optional_label(None) == "unset"@
        }),
{
}

/// The column of keys is as wide as the longest of them: none is longer, and one
/// is as long.
pub proof fn law_the_longest_key_sets_the_width(groups: Seq<HelpGroupView>, g: int, i: int)
    requires
        0 <= g < groups.len(),
        0 <= i < groups[g].entries.len(),
    ensures
        groups[g].entries[i].key.len() <= key_width(groups),
    decreases groups.len(),
{
    if g == groups.len() - 1 {
        lemma_longest_key(groups[g].entries, i);
    } else {
        assert(groups.drop_last()[g] == groups[g]);
        law_the_longest_key_sets_the_width(groups.drop_last(), g, i);
    }
}

proof fn lemma_longest_key(entries: Seq<HelpEntryView>, i: int)
    requires
        0 <= i < entries.len(),
    ensures
        entries[i].key.len() <= longest_key(entries),
    decreases entries.len(),
{
    if i < entries.len() - 1 {
        assert(entries.drop_last()[i] == entries[i]);
        lemma_longest_key(entries.drop_last(), i);
    }
}

/// Some key is as long as the column is wide.
pub proof fn law_some_key_is_the_longest(groups: Seq<HelpGroupView>) -> (place: (int, int))
    requires
        key_width(groups) > 0,
    ensures
        0 <= place.0 < groups.len(),
        0 <= place.1 < groups[place.0].entries.len(),
        groups[place.0].entries[place.1].key.len() == key_width(groups),
    decreases groups.len(),
{
    let last = groups.len() - 1;
    if longest_key(groups.last().entries) >= key_width(groups.drop_last()) {
        (last, lemma_some_key(groups[last].entries))
    } else {
        let place = law_some_key_is_the_longest(groups.drop_last());
        assert(groups.drop_last()[place.0] == groups[place.0]);
        place
    }
}

proof fn lemma_some_key(entries: Seq<HelpEntryView>) -> (i: int)
    requires
        longest_key(entries) > 0,
    ensures
        0 <= i < entries.len(),
        entries[i].key.len() == longest_key(entries),
    decreases entries.len(),
{
    if entries.last().key.len() >= longest_key(entries.drop_last()) {
        entries.len() - 1
    } else {
        let i = lemma_some_key(entries.drop_last());
        assert(entries.drop_last()[i] == entries[i]);
        i
    }
}

/// A group is shown as its name, then its keys in order, each with what it does,
/// then an empty line; the groups follow one another.
pub proof fn law_groups_are_shown_in_order(
    groups: Seq<HelpGroupView>,
    n: int,
    width: nat,
    p: Palette,
    i: int,
)
    requires
        0 <= n < groups.len(),
        0 <= i < groups[n].entries.len(),
    ensures
        ({
            let before = help_lines(groups, n, width, p);
            let after = help_lines(groups, n + 1, width, p);
            let start = before.len() as int;
            let count = groups[n].entries.len() as int;
            &&& before.is_prefix_of(after)
            &&& after.len() == start + count + 2
            &&& after[start].spans.len() == 1 && after[start].spans[0].text == " "@
                + groups[n].name
            &&& after[start + 1 + i].spans.len() == 2
            &&& after[start + 1 + i].spans[0].text == " "@ + text::padded(
                groups[n].entries[i].key,
                width,
            ) + " "@
            &&& after[start + 1 + i].spans[1].text == groups[n].entries[i].label
            &&& after.last().spans.len() == 0
            &&& help_lines(groups, 0, width, p).len() == 0
        }),
{
    let before = help_lines(groups, n, width, p);
    let after = help_lines(groups, n + 1, width, p);
    assert(before =~= after.subrange(0, before.len() as int));
}

/// The list of keys has its title, the button to close it, what it is about, the
/// keys as far as they are scrolled, and the hints last.
pub proof fn law_the_key_list_is_drawn_in_order(
    kb: Keybinds,
    scroll: u16,
    max_scroll: u16,
    layout: NotesLayout,
    thumb: Option<ScrollbarThumb>,
    p: Palette,
)
    ensures
        ({
            let ops = keybind_help_plan(kb, scroll, max_scroll, layout, thumb, p);
            let listed = help_lines(groups_of(kb), 4, key_width(groups_of(kb)), p);
            &&& ops.len() >= 5
            &&& ops[0] == widgets::header_at(layout.header@[0], "keybinds"@, p)
            &&& ops[1] is Text && ops[1]->Text_lines == plan::paragraph_lines(
                widgets::button_text(Some("esc"@), "close"@),
            )
            &&& ops[2] is Text && ops[2]->Text_rect == layout.header@[1]
            &&& ops[2]->Text_lines == plan::paragraph_lines(
                " available commands and configured shortcuts"@,
            )
            &&& ops[3] is Text && ops[3]->Text_scroll == scroll && ops[3]->Text_wrap
            &&& ops[3]->Text_rect.y == layout.stack@[2].y
            &&& ops[3]->Text_lines.len() == listed.len()
            &&& forall|i: int|
                0 <= i < listed.len() ==> #[trigger] ops[3]->Text_lines[i] == listed[i].spans
            &&& ops.last() is Text && ops.last()->Text_rect == layout.stack@[4]
        }),
{
    let body = release_notes::scrolling_plan(
        layout.stack@[2],
        release_notes::notes_metrics(scroll, max_scroll, layout.stack@[2]),
        release_notes::spans_of(help_lines(groups_of(kb), 4, key_width(groups_of(kb)), p)),
        scroll,
        thumb,
        p,
    );
    let ops = keybind_help_plan(kb, scroll, max_scroll, layout, thumb, p);
    assert(body.len() >= 1);
    assert(ops[3] == body[0]);
}

/// The heading of a group is counted by its bytes and the space before it, and the
/// empty line behind a group as nothing.
pub proof fn law_headings_are_counted(group: HelpGroupView, width: nat, p: Palette)
    requires
        text::byte_len(group.name) < 0xffff,
    ensures
        ({
            let shown = group_lines(group, width, p);
            &&& shown.len() == group.entries.len() + 2
            &&& shown[0].width == text::byte_len(group.name) + 1
            &&& shown[0].spans[0].style.bold && shown[0].spans[0].style.fg == Some(p.accent)
            &&& shown.last().width == 0
        }),
{
}

} // verus!
