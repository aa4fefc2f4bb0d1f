//! The sidebar: the list of workspaces and the agents of one of them.

use vstd::prelude::*;

use crate::detect::AgentState;
use crate::geometry;
use crate::geometry::Rect;
use crate::text;
use crate::ui::plan;
use crate::ui::plan::{
    bold, dim, ink, ink_on, paper, plain, Align, Color, Line, Op, OpView, Palette, Plan, SpanView,
    Style,
};
use crate::ui::scrollbar;
use crate::ui::scrollbar::{ScrollMetrics, ScrollbarThumb};

verus! {

/// The width of the collapsed sidebar.
pub const COLLAPSED_WIDTH: u16 = 4;

pub const MIN_SIDEBAR_WIDTH: u16 = 18;

pub const MAX_SIDEBAR_WIDTH: u16 = 36;

/// The rows above the workspaces in their section.
pub const WORKSPACE_SECTION_HEADER_ROWS: u16 = 2;

/// An agent in a pane, as the sidebar shows it.
#[derive(Debug)]
pub struct AgentDetail {
    pub label: String,
    pub state: AgentState,
    pub seen: bool,
}

/// A workspace, as the sidebar shows it.
#[derive(Debug)]
pub struct SidebarWorkspace {
    pub name: String,
    pub branch: Option<String>,
    /// Commits ahead of and behind the upstream.
    pub ahead_behind: Option<(usize, usize)>,
    /// The state that stands for all its panes.
    pub state: AgentState,
    pub seen: bool,
    pub agents: Vec<AgentDetail>,
}

/// Where a workspace stands in the list.
#[derive(Debug, Clone, Copy, PartialEq, Eq, Structural)]
pub struct WorkspaceCardArea {
    pub ws_idx: usize,
    pub rect: Rect,
}

/// A workspace that is dragged to another place.
#[derive(Debug, Clone, Copy, PartialEq, Eq, Structural)]
pub struct WorkspaceReorder {
    pub source_ws_idx: usize,
    pub insert_idx: Option<usize>,
}

/// What the sidebar shows.
#[derive(Debug)]
pub struct Sidebar {
    pub workspaces: Vec<SidebarWorkspace>,
    pub active: Option<usize>,
    pub selected: usize,
    pub navigating: bool,
    pub workspace_scroll: usize,
    pub cards: Vec<WorkspaceCardArea>,
    pub reorder: Option<WorkspaceReorder>,
    pub spinner_tick: u32,
    pub update_available: bool,
    pub new_button: Rect,
    pub menu_button: Rect,
    pub palette: Palette,
}

/// The frames of the spinner, which moves on every eighth tick.
pub open spec fn spinner_at(tick: u32) -> Seq<char> {
    let frame = (tick as int / 8) % 10;
    if frame == 0 {
        "⠋"@
    } else if frame == 1 {
        "⠙"@
    } else if frame == 2 {
        "⠹"@
    } else if frame == 3 {
        "⠸"@
    } else if frame == 4 {
        "⠼"@
    } else if frame == 5 {
        "⠴"@
    } else if frame == 6 {
        "⠦"@
    } else if frame == 7 {
        "⠧"@
    } else if frame == 8 {
        "⠇"@
    } else {
        "⠏"@
    }
}

/// The frame of the spinner at a tick.
pub fn spinner_frame(tick: u32) -> (frame: &'static str)
    ensures
        frame@ == spinner_at(tick),
{
    let frame: u32 = (tick / 8) % 10;
    if frame == 0 {
        "⠋"
    } else if frame == 1 {
        "⠙"
    } else if frame == 2 {
        "⠹"
    } else if frame == 3 {
        "⠸"
    } else if frame == 4 {
        "⠼"
    } else if frame == 5 {
        "⠴"
    } else if frame == 6 {
        "⠦"
    } else if frame == 7 {
        "⠧"
    } else if frame == 8 {
        "⠇"
    } else {
        "⠏"
    }
}

/// The colour of a state.
pub open spec fn state_color(state: AgentState, seen: bool, p: Palette) -> Color {
    match state {
        AgentState::Blocked => p.red,
        AgentState::Working => p.yellow,
        AgentState::Idle => if seen {
            p.green
        } else {
            p.teal
        },
        AgentState::Unknown => p.overlay0,
    }
}

/// The colour of a state.
pub fn state_label_color(state: AgentState, seen: bool, p: &Palette) -> (color: Color)
    ensures
        color == state_color(state, seen, *p),
{
    match state {
        AgentState::Blocked => p.red,
        AgentState::Working => p.yellow,
        AgentState::Idle => {
            if seen {
                p.green
            } else {
                p.teal
            }
        },
        AgentState::Unknown => p.overlay0,
    }
}

/// The dot of a workspace: filled where something needs attention.
pub open spec fn dot_of(state: AgentState, seen: bool) -> Seq<char> {
    match state {
        AgentState::Blocked => "●"@,
        AgentState::Working => "●"@,
        AgentState::Idle => if seen {
            "○"@
        } else {
            "●"@
        },
        AgentState::Unknown => "·"@,
    }
}

/// The dot of a workspace and how it is drawn.
pub fn state_dot(state: AgentState, seen: bool, p: &Palette) -> (dot: (&'static str, Style))
    ensures
        dot.0@ == dot_of(state, seen),
        dot.1 == ink(state_color(state, seen, *p)),
{
    let icon = match state {
        AgentState::Blocked | AgentState::Working => "●",
        AgentState::Idle => {
            if seen {
                "○"
            } else {
                "●"
            }
        },
        AgentState::Unknown => "·",
    };
    (icon, ink(state_label_color(state, seen, p)))
}

/// The icon of an agent.
pub open spec fn icon_of(state: AgentState, seen: bool, tick: u32) -> Seq<char> {
    match state {
        AgentState::Blocked => "◉"@,
        AgentState::Working => spinner_at(tick),
        AgentState::Idle => if seen {
            "✓"@
        } else {
            "●"@
        },
        AgentState::Unknown => "○"@,
    }
}

/// The icon of an agent and how it is drawn.
pub fn agent_icon(state: AgentState, seen: bool, tick: u32, p: &Palette) -> (icon: (
    &'static str,
    Style,
))
    ensures
        icon.0@ == icon_of(state, seen, tick),
        icon.1 == ink(state_color(state, seen, *p)),
{
    let icon = match state {
        AgentState::Blocked => "◉",
        AgentState::Working => spinner_frame(tick),
        AgentState::Idle => {
            if seen {
                "✓"
            } else {
                "●"
            }
        },
        AgentState::Unknown => "○",
    };
    (icon, ink(state_label_color(state, seen, p)))
}

/// What the state of an agent is called.
pub open spec fn label_of(state: AgentState, seen: bool) -> Seq<char> {
    match state {
        AgentState::Blocked => "blocked"@,
        AgentState::Working => "working"@,
        AgentState::Idle => if seen {
            "idle"@
        } else {
            "done"@
        },
        AgentState::Unknown => "idle"@,
    }
}

/// What the state of an agent is called.
pub fn state_label(state: AgentState, seen: bool) -> (label: &'static str)
    ensures
        label@ == label_of(state, seen),
{
    match state {
        AgentState::Blocked => "blocked",
        AgentState::Working => "working",
        AgentState::Idle => {
            if seen {
                "idle"
            } else {
                "done"
            }
        },
        AgentState::Unknown => "idle",
    }
}

/// The rows of a workspace in the list: one, and one for its branch.
pub open spec fn row_height(ws: SidebarWorkspace) -> int {
    if ws.branch is Some {
        2
    } else {
        1
    }
}

/// The rows of a workspace in the list.
pub fn workspace_row_height(ws: &SidebarWorkspace) -> (rows: u16)
    ensures
        rows == row_height(*ws),
{
    if ws.branch.is_some() {
        2
    } else {
        1
    }
}

/// The upper half of the sidebar, beside its border.
pub open spec fn list_rect(area: Rect) -> Rect {
    if area.width <= 1 || area.height == 0 {
        geometry::nowhere()
    } else {
        Rect { width: (area.width - 1) as u16, height: ((area.height + 1) / 2) as u16, ..area }
    }
}

/// The section of the workspaces: the upper half of the sidebar.
pub fn workspace_list_rect(area: Rect) -> (list: Rect)
    requires
        area.wf(),
    ensures
        list == list_rect(area),
        list.wf(),
{
    if area.width <= 1 || area.height == 0 {
        return Rect::nowhere();
    }
    let half: u16 = area.height / 2 + area.height % 2;
    Rect::new(area.x, area.y, area.width - 1, half)
}

/// The rows of a section between its header and its footer.
pub open spec fn body_rect(area: Rect, has_scrollbar: bool) -> Rect {
    if area.width == 0 || area.height <= 2 {
        geometry::nowhere()
    } else {
        Rect {
            x: area.x,
            y: (area.y + 2) as u16,
            width: if has_scrollbar {
                (area.width - 1) as u16
            } else {
                area.width
            },
            height: (area.height - 3) as u16,
        }
    }
}

/// The rows of a section between its header and its footer.
pub fn workspace_list_body_rect(area: Rect, has_scrollbar: bool) -> (body: Rect)
    requires
        area.wf(),
    ensures
        body == body_rect(area, has_scrollbar),
        body.wf(),
        body.height <= 65532,
        body.height > 0 ==> body.within(area) && body.y + body.height < area.y + area.height,
{
    if area.width == 0 || area.height <= WORKSPACE_SECTION_HEADER_ROWS {
        return Rect::nowhere();
    }
    let body_y: u16 = area.y + WORKSPACE_SECTION_HEADER_ROWS;
    let footer_y: u16 = area.y + (area.height - 1);
    let width: u16 = if has_scrollbar {
        area.width - 1
    } else {
        area.width
    };
    Rect::new(area.x, body_y, width, footer_y - body_y)
}

/// How many workspaces, each with a row below it, fit into so many rows.
pub open spec fn fitting(workspaces: Seq<SidebarWorkspace>, rows: int) -> nat
    decreases workspaces.len(),
{
    if workspaces.len() == 0 || row_height(workspaces[0]) + 1 > rows {
        0
    } else {
        1 + fitting(workspaces.drop_first(), rows - row_height(workspaces[0]) - 1)
    }
}

/// The workspaces from a place on.
pub open spec fn from_place(workspaces: Seq<SidebarWorkspace>, scroll: int) -> Seq<
    SidebarWorkspace,
> {
    if scroll <= workspaces.len() {
        workspaces.skip(scroll)
    } else {
        Seq::empty()
    }
}

/// How many workspaces the list shows.
pub open spec fn visible_count(workspaces: Seq<SidebarWorkspace>, area: Rect, scroll: int) -> nat {
    let body = body_rect(area, false);
    if body.width == 0 || body.height == 0 {
        0
    } else {
        fitting(from_place(workspaces, scroll), body.height as int)
    }
}

proof fn lemma_fitting(workspaces: Seq<SidebarWorkspace>, rows: int)
    ensures
        fitting(workspaces, rows) <= workspaces.len(),
    decreases workspaces.len(),
{
    if workspaces.len() > 0 {
        lemma_fitting(workspaces.drop_first(), rows - row_height(workspaces[0]) - 1);
    }
}

/// How many workspaces the list shows.
pub fn workspace_list_visible_count(
    workspaces: &Vec<SidebarWorkspace>,
    area: Rect,
    scroll: usize,
) -> (count: usize)
    requires
        area.wf(),
    ensures
        count == visible_count(workspaces@, area, scroll as int),
        count <= workspaces@.len(),
{
    let body = workspace_list_body_rect(area, false);
    if body.width == 0 || body.height == 0 || scroll >= workspaces.len() {
        return 0;
    }
    let mut used: u16 = 0;
    let mut visible: usize = 0;
    let ghost all = workspaces@.skip(scroll as int);
    assert(all.skip(0) =~= all);
    while scroll + visible < workspaces.len()
        invariant
            all == workspaces@.skip(scroll as int),
            scroll + visible <= workspaces.len(),
            used <= body.height,
            body.height <= 65532,
            visible_count(workspaces@, area, scroll as int) == visible + fitting(
                all.skip(visible as int),
                body.height - used,
            ),
        decreases workspaces@.len() - scroll - visible,
    {
        assert(all.skip(visible as int)[0] == workspaces@[scroll + visible]);
        assert(all.skip(visible as int).drop_first() =~= all.skip(visible + 1));
        let needed: u16 = workspace_row_height(&workspaces[scroll + visible]) + 1;
        if used + needed > body.height {
            return visible;
        }
        used = used + needed;
        visible = visible + 1;
    }
    visible
}

/// How far the list is scrolled.
pub open spec fn list_metrics(
    workspaces: Seq<SidebarWorkspace>,
    scroll: int,
    area: Rect,
) -> ScrollMetrics {
    let viewport = visible_count(workspaces, area, scroll) as int;
    ScrollMetrics {
        offset_from_bottom: geometry::less(
            geometry::less(workspaces.len() as int, scroll),
            viewport,
        ) as usize,
        max_offset_from_bottom: geometry::less(workspaces.len() as int, viewport) as usize,
        viewport_rows: viewport as usize,
    }
}

/// How far the list of workspaces is scrolled.
pub fn workspace_list_scroll_metrics(
    workspaces: &Vec<SidebarWorkspace>,
    workspace_scroll: usize,
    area: Rect,
) -> (metrics: ScrollMetrics)
    requires
        area.wf(),
    ensures
        metrics == list_metrics(workspaces@, workspace_scroll as int, area),
        metrics.max_offset_from_bottom + metrics.viewport_rows == workspaces@.len(),
{
    let viewport_rows: usize = workspace_list_visible_count(workspaces, area, workspace_scroll);
    let total: usize = workspaces.len();
    ScrollMetrics {
        offset_from_bottom: total.saturating_sub(workspace_scroll).saturating_sub(viewport_rows),
        max_offset_from_bottom: total.saturating_sub(viewport_rows),
        viewport_rows,
    }
}

/// The scrollbar of the list: the last column of its section.
pub open spec fn list_track(
    workspaces: Seq<SidebarWorkspace>,
    scroll: int,
    area: Rect,
) -> Option<Rect> {
    let body = body_rect(area, true);
    if scrollbar::scrolls(list_metrics(workspaces, scroll, area)) && body.width > 0 && body.height
        > 0 {
        Some(
            Rect {
                x: (area.x + area.width - 1) as u16,
                y: body.y,
                width: 1,
                height: body.height,
            },
        )
    } else {
        None
    }
}

/// The scrollbar of the list of workspaces.
pub fn workspace_list_scrollbar_rect(
    workspaces: &Vec<SidebarWorkspace>,
    workspace_scroll: usize,
    area: Rect,
) -> (track: Option<Rect>)
    requires
        area.wf(),
    ensures
        track == list_track(workspaces@, workspace_scroll as int, area),
        track matches Some(track) ==> track.wf() && track.within(area),
{
    let metrics = workspace_list_scroll_metrics(workspaces, workspace_scroll, area);
    let body = workspace_list_body_rect(area, true);
    if scrollbar::should_show_scrollbar(metrics) && body.width > 0 && body.height > 0 {
        Some(Rect::new(area.x + (area.width - 1), body.y, 1, body.height))
    } else {
        None
    }
}

/// The cards of workspaces in the rows of a body, from a row on, one row apart.
pub open spec fn cards_from(
    workspaces: Seq<SidebarWorkspace>,
    first: int,
    body: Rect,
    row: int,
) -> Seq<WorkspaceCardArea>
    decreases workspaces.len(),
{
    if workspaces.len() == 0 || row + row_height(workspaces[0]) + 1 > body.y + body.height {
        Seq::empty()
    } else {
        seq![
            WorkspaceCardArea {
                ws_idx: first as usize,
                rect: Rect {
                    x: body.x,
                    y: row as u16,
                    width: body.width,
                    height: row_height(workspaces[0]) as u16,
                },
            },
        ] + cards_from(
            workspaces.drop_first(),
            first + 1,
            body,
            row + row_height(workspaces[0]) + 1,
        )
    }
}

/// The cards of the workspaces that the sidebar shows.
pub open spec fn card_areas(
    workspaces: Seq<SidebarWorkspace>,
    scroll: int,
    area: Rect,
) -> Seq<WorkspaceCardArea> {
    let list = list_rect(area);
    let body = body_rect(
        list,
        scrollbar::scrolls(list_metrics(workspaces, scroll, list)),
    );
    if body.width == 0 || body.height == 0 {
        Seq::empty()
    } else {
        cards_from(from_place(workspaces, scroll), scroll, body, body.y as int)
    }
}

/// The cards of the workspaces that the sidebar shows.
pub fn compute_workspace_card_areas(
    workspaces: &Vec<SidebarWorkspace>,
    workspace_scroll: usize,
    area: Rect,
) -> (cards: Vec<WorkspaceCardArea>)
    requires
        area.wf(),
    ensures
        cards@ == card_areas(workspaces@, workspace_scroll as int, area),
{
    let mut cards: Vec<WorkspaceCardArea> = Vec::new();
    let list = workspace_list_rect(area);
    let metrics = workspace_list_scroll_metrics(workspaces, workspace_scroll, list);
    let body = workspace_list_body_rect(list, scrollbar::should_show_scrollbar(metrics));
    if body.width == 0 || body.height == 0 || workspace_scroll >= workspaces.len() {
        assert(cards@ =~= card_areas(workspaces@, workspace_scroll as int, area));
        return cards;
    }
    let mut row: u16 = body.y;
    let bottom: u16 = body.y + body.height;
    let mut i: usize = workspace_scroll;
    let ghost all = card_areas(workspaces@, workspace_scroll as int, area);
    while i < workspaces.len()
        invariant
            workspace_scroll <= i <= workspaces@.len(),
            all == card_areas(workspaces@, workspace_scroll as int, area),
            body.wf(),
            body.height <= 65532,
            body.y + body.height < 65535,
            bottom == body.y + body.height,
            body.y <= row <= bottom,
            all == cards@ + cards_from(workspaces@.skip(i as int), i as int, body, row as int),
        decreases workspaces@.len() - i,
    {
        let height: u16 = workspace_row_height(&workspaces[i]);
        assert(workspaces@.skip(i as int)[0] == workspaces@[i as int]);
        assert(workspaces@.skip(i as int).drop_first() =~= workspaces@.skip(i + 1));
        if row as u32 + height as u32 + 1 > bottom as u32 {
            assert(all =~= cards@);
            return cards;
        }
        let ghost before = cards@;
        cards.push(
            WorkspaceCardArea { ws_idx: i, rect: Rect::new(body.x, row, body.width, height) },
        );
        assert(all =~= cards@ + cards_from(
            workspaces@.skip(i + 1),
            i + 1,
            body,
            row + height + 1,
        ));
        row = row + height + 1;
        i = i + 1;
    }
    assert(all =~= cards@);
    cards
}

/// The cards of the sidebar are as many as its scrollbar counts. They follow one
/// another from the scrolled place on, stand between the header and the footer
/// of the list, and do not overlap. A sidebar of two columns that scrolls has no
/// room for cards.
pub proof fn law_cards_are_the_counted_rows(
    workspaces: Seq<SidebarWorkspace>,
    scroll: nat,
    area: Rect,
)
    requires
        area.wf(),
        scroll <= workspaces.len() <= usize::MAX,
        area.width == 2 ==> {
            let metrics = list_metrics(workspaces, scroll as int, list_rect(area));
            metrics.max_offset_from_bottom == 0 || metrics.viewport_rows == 0
        },
    ensures
        ({
            let list = list_rect(area);
            let cards = card_areas(workspaces, scroll as int, area);
            &&& cards.len() == list_metrics(workspaces, scroll as int, list).viewport_rows
            &&& forall|i: int|
                0 <= i < cards.len() ==> {
                    &&& (#[trigger] cards[i]).ws_idx == scroll + i
                    &&& cards[i].rect.within(body_rect(list, false))
                }
            &&& forall|i: int, j: int|
                0 <= i < j < cards.len() ==> (#[trigger] cards[i]).rect.y + cards[i].rect.height
                    < (#[trigger] cards[j]).rect.y
        }),
{
    let list = list_rect(area);
    let body = body_rect(
        list,
        scrollbar::scrolls(list_metrics(workspaces, scroll as int, list)),
    );
    lemma_fitting(workspaces.skip(scroll as int), body_rect(list, false).height as int);
    if body.width > 0 && body.height > 0 {
        lemma_cards(workspaces.skip(scroll as int), scroll as int, body, body.y as int);
    }
}

proof fn lemma_cards(workspaces: Seq<SidebarWorkspace>, first: int, body: Rect, row: int)
    requires
        body.wf(),
        body.y <= row,
        0 <= first,
        first + workspaces.len() <= usize::MAX,
    ensures
        ({
            let cards = cards_from(workspaces, first, body, row);
            &&& cards.len() == fitting(workspaces, body.y + body.height - row)
            &&& forall|i: int|
                0 <= i < cards.len() ==> {
                    &&& (#[trigger] cards[i]).ws_idx == first + i
                    &&& cards[i].rect.x == body.x
                    &&& cards[i].rect.width == body.width
                    &&& row <= cards[i].rect.y
                    &&& cards[i].rect.y + cards[i].rect.height < body.y + body.height
                }
            &&& forall|i: int, j: int|
                0 <= i < j < cards.len() ==> (#[trigger] cards[i]).rect.y + cards[i].rect.height
                    < (#[trigger] cards[j]).rect.y
        }),
    decreases workspaces.len(),
{
    if workspaces.len() > 0 && row + row_height(workspaces[0]) + 1 <= body.y + body.height {
        let next = row + row_height(workspaces[0]) + 1;
        lemma_cards(workspaces.drop_first(), first + 1, body, next);
        let rest = cards_from(workspaces.drop_first(), first + 1, body, next);
        let cards = cards_from(workspaces, first, body, row);
        assert forall|i: int| 0 < i < cards.len() implies #[trigger] cards[i] == rest[i - 1] by {}
        assert(cards.len() == rest.len() + 1);
    }
}

/// A row above a list's footer.
pub open spec fn above(row: int, list_bottom: int) -> Option<u16> {
    if 0 <= row < list_bottom {
        Some(row as u16)
    } else {
        None
    }
}

/// The first card of a workspace.
pub open spec fn card_of(cards: Seq<WorkspaceCardArea>, ws_idx: int) -> Option<WorkspaceCardArea>
    decreases cards.len(),
{
    if cards.len() == 0 {
        None
    } else if cards[0].ws_idx == ws_idx {
        Some(cards[0])
    } else {
        card_of(cards.drop_first(), ws_idx)
    }
}

/// The row that marks where a dragged workspace would go: above the card of the
/// workspace it would stand before, or below the last one.
pub open spec fn drop_row(cards: Seq<WorkspaceCardArea>, area: Rect, insert_idx: int) -> Option<
    u16,
> {
    let list_bottom = area.y + area.height - 1;
    if area.height == 0 || cards.len() == 0 {
        None
    } else {
        match card_of(cards, insert_idx) {
            Some(card) => above(card.rect.y - 1, list_bottom),
            None => if insert_idx == cards.last().ws_idx + 1 {
                above(cards.last().rect.y + cards.last().rect.height, list_bottom)
            } else {
                None
            },
        }
    }
}

/// The row that marks where a dragged workspace would go.
pub fn workspace_drop_indicator_row(
    cards: &Vec<WorkspaceCardArea>,
    area: Rect,
    insert_idx: usize,
) -> (row: Option<u16>)
    requires
        area.wf(),
    ensures
        row == drop_row(cards@, area, insert_idx as int),
{
    if area.height == 0 || cards.len() == 0 {
        return None;
    }
    let list_bottom: u16 = area.y + (area.height - 1);
    let mut i: usize = 0;
    assert(cards@.skip(0) =~= cards@);
    while i < cards.len()
        invariant
            i <= cards@.len(),
            list_bottom == area.y + area.height - 1,
            area.height > 0,
            card_of(cards@, insert_idx as int) == card_of(
                cards@.skip(i as int),
                insert_idx as int,
            ),
        decreases cards@.len() - i,
    {
        assert(cards@.skip(i as int)[0] == cards@[i as int]);
        assert(cards@.skip(i as int).drop_first() =~= cards@.skip(i + 1));
        if cards[i].ws_idx == insert_idx {
            let y: u16 = cards[i].rect.y;
            if y > 0 && y - 1 < list_bottom {
                return Some(y - 1);
            }
            return None;
        }
        i = i + 1;
    }
    let last = &cards[cards.len() - 1];
    if insert_idx > 0 && last.ws_idx == insert_idx - 1 {
        let y: u16 = last.rect.y.saturating_add(last.rect.height);
        if y < list_bottom {
            return Some(y);
        }
    }
    None
}

/// The rows of a rectangle that are above a row.
pub open spec fn clipped(rect: Rect, bottom: int) -> Rect {
    Rect {
        height: geometry::least(rect.height as int, geometry::less(bottom, rect.y as int)) as u16,
        ..rect
    }
}

fn clip(rect: Rect, bottom: u16) -> (above: Rect)
    ensures
        above == clipped(rect, bottom as int),
{
    Rect {
        x: rect.x,
        y: rect.y,
        width: rect.width,
        height: geometry::smaller(rect.height, bottom.saturating_sub(rect.y)),
    }
}

/// Commits ahead of and behind the upstream, as the branch line shows them.
pub open spec fn upstream_spans(ahead_behind: Option<(usize, usize)>, p: Palette) -> Seq<SpanView> {
    match ahead_behind {
        Some((ahead, behind)) => {
            let up = plan::span("↑"@ + text::decimal(ahead as nat), ink(p.green));
            let down = plan::span("↓"@ + text::decimal(behind as nat), ink(p.red));
            let gap = plan::span(" "@, plain());
            if ahead > 0 && behind > 0 {
                plan::blank().push(gap).push(up).push(gap).push(down)
            } else if ahead > 0 {
                plan::blank().push(gap).push(up)
            } else if behind > 0 {
                plan::blank().push(gap).push(down)
            } else {
                plan::blank()
            }
        },
        None => plan::blank(),
    }
}

/// The bytes that the commit counts take in the branch line.
pub open spec fn upstream_bytes(ahead_behind: Option<(usize, usize)>) -> nat {
    match ahead_behind {
        Some((ahead, behind)) => {
            (if ahead > 0 {
                text::byte_len("↑"@ + text::decimal(ahead as nat)) + 1
            } else {
                0
            }) + (if behind > 0 {
                text::byte_len("↓"@ + text::decimal(behind as nat)) + 1
            } else {
                0
            })
        },
        None => 0,
    }
}

/// The bytes that the branch line has for the name of the branch.
pub open spec fn branch_room(ws: SidebarWorkspace, width: u16) -> int {
    geometry::less(width as int, (5 + upstream_bytes(ws.ahead_behind)) as int)
}

/// A name of a branch that is cut off where there is too little room.
pub open spec fn branch_text(branch: Seq<char>, room: int) -> Seq<char> {
    if text::byte_len(branch) > room {
        text::byte_prefix(branch, geometry::less(room, 1)) + "…"@
    } else {
        branch
    }
}

/// Whether a name of a branch is not cut off within a character.
pub open spec fn cuts_cleanly(branch: Seq<char>, room: int) -> bool {
    text::byte_len(branch) > room ==> text::byte_len(
        text::byte_prefix(branch, geometry::less(room, 1)),
    ) == geometry::less(room, 1)
}

fn upstream_line(ahead_behind: Option<(usize, usize)>, p: &Palette) -> (line: Line)
    ensures
        line@ == upstream_spans(ahead_behind, *p),
{
    let mut line = Line::new();
    if let Some((ahead, behind)) = ahead_behind {
        if ahead > 0 {
            let mut label = "↑".to_owned();
            label.append(text::wide_decimal_text(ahead as u128).as_str());
            line = line.with(" ", plain()).with(label.as_str(), ink(p.green));
        }
        if behind > 0 {
            let mut label = "↓".to_owned();
            label.append(text::wide_decimal_text(behind as u128).as_str());
            line = line.with(" ", plain()).with(label.as_str(), ink(p.red));
        }
    }
    line
}

fn reserved_bytes(ahead_behind: Option<(usize, usize)>) -> (bytes: u128)
    ensures
        bytes == upstream_bytes(ahead_behind),
        bytes < 1000,
{
    let mut bytes: u128 = 0;
    if let Some((ahead, behind)) = ahead_behind {
        if ahead > 0 {
            proof {
                reveal_strlit("↑");
            }
            bytes = bytes + labelled_bytes("↑", ahead) + 1;
        }
        if behind > 0 {
            proof {
                reveal_strlit("↓");
            }
            bytes = bytes + labelled_bytes("↓", behind) + 1;
        }
    }
    bytes
}

fn labelled_bytes(arrow: &str, count: usize) -> (bytes: u128)
    requires
        arrow@.len() == 1,
    ensures
        bytes == text::byte_len(arrow@ + text::decimal(count as nat)),
        bytes < 400,
{
    let mut label = arrow.to_owned();
    label.append(text::wide_decimal_text(count as u128).as_str());
    proof {
        text::lemma_decimal_is_short(count as nat);
        text::lemma_byte_len_is_bounded(label@);
    }
    text::bytes_in(label.as_str())
}

/// The styles of a card: of its name and of its number.
pub open spec fn highlighted(selected: bool, active: bool, dragged: bool) -> bool {
    selected || active || dragged
}

/// Drawing the card of a workspace.
pub open spec fn card_plan(
    ws: SidebarWorkspace,
    card: WorkspaceCardArea,
    selected: bool,
    active: bool,
    dragged: bool,
    list_bottom: int,
    p: Palette,
) -> Seq<OpView> {
    let rect = card.rect;
    let background = if highlighted(selected, active, dragged) {
        plan::idle().push(
            OpView::Restyle {
                rect: clipped(rect, list_bottom),
                style: paper(
                    if selected {
                        p.surface0
                    } else if dragged {
                        p.surface1
                    } else {
                        p.surface_dim
                    },
                ),
            },
        )
    } else {
        plan::idle()
    };
    let marked = if active {
        background.push(
            OpView::Fill {
                rect: clipped(Rect { width: 1, ..rect }, list_bottom),
                symbol: "▌"@,
                style: ink(p.accent),
            },
        )
    } else {
        background
    };
    let name_style = if highlighted(selected, active, dragged) {
        bold(ink(p.text))
    } else {
        ink(p.subtext0)
    };
    let num_style = if selected || active {
        ink(p.overlay1)
    } else {
        ink(p.overlay0)
    };
    let named = marked.push(
        plan::line_at(
            geometry::rect(rect.x as int, rect.y as int, rect.width as int, 1),
            plan::blank().push(plan::span(" "@, plain())).push(
                plan::span(text::decimal((card.ws_idx + 1) as nat) + " "@, num_style),
            ).push(plan::span(ws.name@, name_style)).push(plan::span(" "@, plain())).push(
                plan::span(dot_of(ws.state, ws.seen), ink(state_color(ws.state, ws.seen, p))),
            ),
        ),
    );
    match ws.branch {
        Some(branch) if shows_branch(rect, list_bottom) => named.push(
            plan::line_at(
                geometry::rect(rect.x as int, rect.y + 1, rect.width as int, 1),
                plan::blank().push(plan::span("   "@, plain())).push(
                    plan::span(
                        branch_text(branch@, branch_room(ws, rect.width)),
                        ink(
                            if selected || active {
                                p.mauve
                            } else {
                                p.overlay0
                            },
                        ),
                    ),
                ) + upstream_spans(ws.ahead_behind, p),
            ),
        ),
        _ => named,
    }
}

/// Draw the card of a workspace.
fn render_card(
    ws: &SidebarWorkspace,
    card: WorkspaceCardArea,
    selected: bool,
    active: bool,
    dragged: bool,
    list_bottom: u16,
    p: &Palette,
) -> (drawn: Plan)
    requires
        card.rect.wf(),
        card.ws_idx < usize::MAX,
        ws.branch matches Some(branch) ==> shows_branch(card.rect, list_bottom as int)
            ==> cuts_cleanly(branch@, branch_room(*ws, card.rect.width)),
    ensures
        drawn@ == card_plan(*ws, card, selected, active, dragged, list_bottom as int, *p),
{
    let rect = card.rect;
    let mut drawn = Plan::new();
    if selected || active || dragged {
        let bg = if selected {
            p.surface0
        } else if dragged {
            p.surface1
        } else {
            p.surface_dim
        };
        drawn.push(Op::Restyle { rect: clip(rect, list_bottom), style: paper(bg) });
    }
    if active {
        let column = Rect { x: rect.x, y: rect.y, width: 1, height: rect.height };
        drawn.fill(clip(column, list_bottom), "▌", ink(p.accent));
    }
    let name_style = if selected || active || dragged {
        bold(ink(p.text))
    } else {
        ink(p.subtext0)
    };
    let num_style = if selected || active {
        ink(p.overlay1)
    } else {
        ink(p.overlay0)
    };
    let mut number = text::wide_decimal_text(card.ws_idx as u128 + 1);
    number.append(" ");
    let (icon, icon_style) = state_dot(ws.state, ws.seen, p);
    drawn.line(
        Rect::new(rect.x, rect.y, rect.width, 1),
        Line::of(" ", plain()).with(number.as_str(), num_style).with(
            ws.name.as_str(),
            name_style,
        ).with(" ", plain()).with(icon, icon_style),
    );
    if rect.height > 1 && rect.y + 1 < list_bottom {
        if let Some(branch) = &ws.branch {
            let room: u128 = (rect.width as u128).saturating_sub(
                5 + reserved_bytes(ws.ahead_behind),
            );
            let shown = if text::bytes_in(branch.as_str()) > room {
                let mut cut = text::first_bytes(branch.as_str(), room.saturating_sub(1));
                cut.append("…");
                cut
            } else {
                branch.clone()
            };
            let color = if selected || active {
                p.mauve
            } else {
                p.overlay0
            };
            let line = Line::of("   ", plain()).with(shown.as_str(), ink(color));
            drawn.line(
                Rect::new(rect.x, rect.y + 1, rect.width, 1),
                line.then_line(upstream_line(ws.ahead_behind, p)),
            );
        }
    }
    drawn
}

/// Drawing the cards of the list.
pub open spec fn cards_plan(s: Sidebar, n: int, list_bottom: int) -> Seq<OpView>
    decreases n,
{
    if n <= 0 {
        plan::idle()
    } else {
        let card = s.cards@[n - 1];
        let i = card.ws_idx as int;
        cards_plan(s, n - 1, list_bottom) + card_plan(
            s.workspaces@[i],
            card,
            i == s.selected && s.navigating,
            s.active == Some(card.ws_idx),
            (s.reorder matches Some(reorder) && reorder.source_ws_idx == i),
            list_bottom,
            s.palette,
        )
    }
}

/// The row that marks where the dragged workspace would go.
pub open spec fn insertion_row(s: Sidebar, area: Rect) -> Option<u16> {
    match s.reorder {
        Some(reorder) => match reorder.insert_idx {
            Some(insert_idx) => drop_row(s.cards@, area, insert_idx as int),
            None => None,
        },
        None => None,
    }
}

/// Drawing the section of the workspaces: a header, the cards, the mark of a
/// drag, the scrollbar and two buttons.
pub open spec fn workspace_list_plan(
    s: Sidebar,
    area: Rect,
    thumb: Option<ScrollbarThumb>,
) -> Seq<OpView> {
    let p = s.palette;
    let list_bottom = area.y + geometry::less(area.height as int, 1);
    let track = list_track(s.workspaces@, s.workspace_scroll as int, area);
    let header = if area.height > 0 {
        plan::idle().push(
            plan::line_at(
                geometry::rect(area.x as int, area.y as int, area.width as int, 1),
                plan::blank().push(plan::span(" spaces"@, bold(ink(p.overlay0)))),
            ),
        )
    } else {
        plan::idle()
    };
    let cards = header + cards_plan(s, s.cards@.len() as int, list_bottom);
    let marked = match insertion_row(s, area) {
        Some(y) if y < list_bottom => cards.push(
            OpView::Fill {
                rect: Rect {
                    x: area.x,
                    y,
                    width: (match track {
                        Some(track) => track.x - area.x,
                        None => area.width as int,
                    }) as u16,
                    height: 1,
                },
                symbol: "─"@,
                style: ink(p.accent),
            },
        ),
        _ => cards,
    };
    let scrolled = match track {
        Some(track) => marked + scrollbar::scrollbar_plan(
            list_metrics(s.workspaces@, s.workspace_scroll as int, area),
            track,
            thumb,
            p.surface_dim,
            p.overlay0,
            "▕"@,
        ),
        None => marked,
    };
    if list_bottom > area.y {
        scrolled.push(
            plan::line_at(
                s.new_button,
                plan::blank().push(plan::span("new"@, ink(p.overlay0))),
            ),
        ).push(
            OpView::Text {
                rect: s.menu_button,
                lines: seq![menu_line(s.update_available, p)],
                style: plain(),
                align: Align::Right,
                wrap: false,
                scroll: 0,
            },
        )
    } else {
        scrolled
    }
}

/// The menu button, with a dot where an update waits.
pub open spec fn menu_line(update_available: bool, p: Palette) -> Seq<SpanView> {
    let line = plan::blank().push(plan::span("menu"@, ink(p.overlay0)));
    if update_available {
        line.push(plan::span(" ●"@, bold(ink(p.accent))))
    } else {
        line
    }
}

/// Whether the branch of a workspace is shown on its card.
pub open spec fn shows_branch(rect: Rect, list_bottom: int) -> bool {
    rect.height > 1 && rect.y + 1 < list_bottom
}

/// The cards of the sidebar can be drawn in an area: each is the card of a
/// workspace, and no branch that is shown is cut off within a character.
pub open spec fn drawable(s: Sidebar, area: Rect) -> bool {
    let list_bottom = area.y + geometry::less(area.height as int, 1);
    forall|c: int|
        0 <= c < s.cards@.len() ==> {
            &&& (#[trigger] s.cards@[c]).rect.wf()
            &&& s.cards@[c].ws_idx < s.workspaces@.len()
            &&& (s.workspaces@[s.cards@[c].ws_idx as int].branch matches Some(branch)
                ==> shows_branch(s.cards@[c].rect, list_bottom) ==> cuts_cleanly(
                branch@,
                branch_room(s.workspaces@[s.cards@[c].ws_idx as int], s.cards@[c].rect.width),
            ))
        }
}

fn cuts_branch_cleanly(ws: &SidebarWorkspace, width: u16) -> (clean: bool)
    ensures
        clean == (ws.branch matches Some(branch) ==> cuts_cleanly(branch@, branch_room(*ws, width))),
{
    let branch = match &ws.branch {
        Some(branch) => branch,
        None => {
            return true;
        },
    };
    let room: u128 = (width as u128).saturating_sub(5 + reserved_bytes(ws.ahead_behind));
    if text::bytes_in(branch.as_str()) > room {
        let kept: u128 = room.saturating_sub(1);
        let cut = text::first_bytes(branch.as_str(), kept);
        text::bytes_in(cut.as_str()) == kept
    } else {
        true
    }
}

/// Whether the cards of the sidebar can be drawn in an area.
pub fn is_drawable(s: &Sidebar, area: Rect) -> (can: bool)
    requires
        area.wf(),
    ensures
        can == drawable(*s, area),
{
    let list_bottom: u16 = area.y + area.height.saturating_sub(1);
    let mut c: usize = 0;
    while c < s.cards.len()
        invariant
            c <= s.cards@.len(),
            area.wf(),
            list_bottom == area.y + geometry::less(area.height as int, 1),
            forall|k: int|
                0 <= k < c ==> {
                    &&& (#[trigger] s.cards@[k]).rect.wf()
                    &&& s.cards@[k].ws_idx < s.workspaces@.len()
                    &&& (s.workspaces@[s.cards@[k].ws_idx as int].branch matches Some(branch)
                        ==> shows_branch(s.cards@[k].rect, list_bottom as int) ==> cuts_cleanly(
                        branch@,
                        branch_room(
                            s.workspaces@[s.cards@[k].ws_idx as int],
                            s.cards@[k].rect.width,
                        ),
                    ))
                },
        decreases s.cards@.len() - c,
    {
        let card = s.cards[c];
        let rect = card.rect;
        let within = rect.width <= u16::MAX - rect.x && rect.height <= u16::MAX - rect.y;
        if !within || card.ws_idx >= s.workspaces.len() {
            assert(!(s.cards@[c as int].rect.wf() && s.cards@[c as int].ws_idx
                < s.workspaces@.len()));
            return false;
        }
        let shown = rect.height > 1 && rect.y + 1 < list_bottom;
        if shown && !cuts_branch_cleanly(&s.workspaces[card.ws_idx], rect.width) {
            assert(s.cards@[c as int] == card);
            return false;
        }
        c = c + 1;
    }
    true
}

/// Draw the section of the workspaces. `thumb` is the thumb of its scrollbar.
pub fn render_workspace_list(s: &Sidebar, area: Rect, thumb: Option<ScrollbarThumb>) -> (drawn:
    Plan)
    requires
        area.wf(),
        drawable(*s, area),
    ensures
        drawn@ == workspace_list_plan(*s, area, thumb),
{
    let p = &s.palette;
    let row: Option<u16> = match s.reorder {
        Some(reorder) => match reorder.insert_idx {
            Some(insert_idx) => workspace_drop_indicator_row(&s.cards, area, insert_idx),
            None => None,
        },
        None => None,
    };
    let list_bottom: u16 = area.y + area.height.saturating_sub(1);
    let mut drawn = Plan::new();
    if area.height > 0 {
        drawn.line(
            Rect::new(area.x, area.y, area.width, 1),
            Line::of(" spaces", bold(ink(p.overlay0))),
        );
    }
    let metrics = workspace_list_scroll_metrics(&s.workspaces, s.workspace_scroll, area);
    let track = workspace_list_scrollbar_rect(&s.workspaces, s.workspace_scroll, area);
    let ghost header = drawn@;
    let mut c: usize = 0;
    assert(header + cards_plan(*s, 0, list_bottom as int) =~= header);
    while c < s.cards.len()
        invariant
            drawable(*s, area),
            list_bottom == area.y + geometry::less(area.height as int, 1),
            *p == s.palette,
            c <= s.cards@.len(),
            drawn@ == header + cards_plan(*s, c as int, list_bottom as int),
        decreases s.cards@.len() - c,
    {
        let card = s.cards[c];
        let i: usize = card.ws_idx;
        let dragged = match s.reorder {
            Some(reorder) => reorder.source_ws_idx == i,
            None => false,
        };
        let active = match s.active {
            Some(active) => active == i,
            None => false,
        };
        let selected = i == s.selected && s.navigating;
        assert(s.workspaces.len() == s.workspaces@.len());
        drawn.append(
            render_card(&s.workspaces[i], card, selected, active, dragged, list_bottom, p),
        );
        assert(drawn@ =~= header + cards_plan(*s, c + 1, list_bottom as int));
        c = c + 1;
    }
    if let Some(y) = row {
        if y < list_bottom {
            let right: u16 = match track {
                Some(track) => track.x,
                None => area.x + area.width,
            };
            drawn.fill(
                Rect { x: area.x, y, width: right - area.x, height: 1 },
                "─",
                ink(p.accent),
            );
        }
    }
    if let Some(track) = track {
        drawn.append(
            scrollbar::render_scrollbar(
                metrics,
                track,
                thumb,
                p.surface_dim,
                p.overlay0,
                "▕",
            ),
        );
    }
    if list_bottom > area.y {
        drawn.line(s.new_button, Line::of("new", ink(p.overlay0)));
        let mut menu = Line::of("menu", ink(p.overlay0));
        if s.update_available {
            menu = menu.with(" ●", bold(ink(p.accent)));
        }
        drawn.push(
            Op::Text {
                rect: s.menu_button,
                lines: plan::single(menu),
                style: plain(),
                align: Align::Right,
                wrap: false,
                scroll: 0,
            },
        );
    }
    drawn
}

/// Drawing agents from a row on: two rows each, and a row between.
pub open spec fn agents_plan(
    agents: Seq<AgentDetail>,
    area: Rect,
    row: int,
    tick: u32,
    p: Palette,
) -> Seq<OpView>
    decreases agents.len(),
{
    let bottom = area.y + area.height;
    if agents.len() == 0 || row + 1 >= bottom {
        plan::idle()
    } else {
        let agent = agents[0];
        plan::idle().push(
            plan::line_at(
                geometry::rect(area.x as int, row, area.width as int, 1),
                plan::blank().push(plan::span(" "@, plain())).push(
                    plan::span(
                        icon_of(agent.state, agent.seen, tick),
                        ink(state_color(agent.state, agent.seen, p)),
                    ),
                ).push(plan::span(" "@, plain())).push(
                    plan::span(agent.label@, bold(ink(p.subtext0))),
                ),
            ),
        ).push(
            plan::line_at(
                geometry::rect(area.x as int, row + 1, area.width as int, 1),
                plan::blank().push(plan::span("   "@, plain())).push(
                    plan::span(
                        label_of(agent.state, agent.seen),
                        dim(ink(state_color(agent.state, agent.seen, p))),
                    ),
                ),
            ),
        ) + agents_plan(
            agents.drop_first(),
            area,
            if row + 2 < bottom {
                row + 3
            } else {
                row + 2
            },
            tick,
            p,
        )
    }
}

/// Drawing the section of the agents: a line, a header, and the agents as far as
/// they fit. Too small an area shows nothing.
pub open spec fn agent_detail_plan(
    agents: Seq<AgentDetail>,
    area: Rect,
    tick: u32,
    p: Palette,
) -> Seq<OpView> {
    if area.height < 3 {
        plan::idle()
    } else {
        plan::idle().push(
            plan::line_at(
                geometry::rect(area.x as int, area.y as int, area.width as int, 1),
                plan::blank().push(
                    plan::span(text::repeated("─"@, area.width as nat), ink(p.surface_dim)),
                ),
            ),
        ).push(
            plan::line_at(
                geometry::rect(area.x as int, area.y + 1, area.width as int, 1),
                plan::blank().push(plan::span(" agents"@, bold(ink(p.overlay0)))),
            ),
        ) + agents_plan(agents, area, area.y + 3, tick, p)
    }
}

/// Draw the section of the agents.
pub fn render_agent_detail(agents: &Vec<AgentDetail>, area: Rect, tick: u32, p: &Palette) -> (drawn:
    Plan)
    requires
        area.wf(),
    ensures
        drawn@ == agent_detail_plan(agents@, area, tick, *p),
{
    let mut drawn = Plan::new();
    if area.height < 3 {
        return drawn;
    }
    let line = text::repeat("─", area.width);
    drawn.line(
        Rect::new(area.x, area.y, area.width, 1),
        Line::of(line.as_str(), ink(p.surface_dim)),
    );
    drawn.line(
        Rect::new(area.x, area.y + 1, area.width, 1),
        Line::of(" agents", bold(ink(p.overlay0))),
    );
    let bottom: u32 = area.y as u32 + area.height as u32;
    let mut row: u32 = area.y as u32 + 3;
    let mut i: usize = 0;
    let ghost all = agent_detail_plan(agents@, area, tick, *p);
    assert(agents@.skip(0) =~= agents@);
    while i < agents.len()
        invariant
            area.wf(),
            bottom == area.y + area.height,
            row <= bottom + 1,
            i <= agents@.len(),
            all == drawn@ + agents_plan(agents@.skip(i as int), area, row as int, tick, *p),
        ensures
            drawn@ == all,
        decreases agents@.len() - i,
    {
        assert(agents@.skip(i as int)[0] == agents@[i as int]);
        assert(agents@.skip(i as int).drop_first() =~= agents@.skip(i + 1));
        if row + 1 >= bottom {
            assert(drawn@ =~= all);
            break;
        }
        let agent = &agents[i];
        let (icon, icon_style) = agent_icon(agent.state, agent.seen, tick, p);
        let color = state_label_color(agent.state, agent.seen, p);
        drawn.line(
            Rect::new(area.x, row as u16, area.width, 1),
            Line::of(" ", plain()).with(icon, icon_style).with(" ", plain()).with(
                agent.label.as_str(),
                bold(ink(p.subtext0)),
            ),
        );
        drawn.line(
            Rect::new(area.x, (row + 1) as u16, area.width, 1),
            Line::of("   ", plain()).with(
                state_label(agent.state, agent.seen),
                dim(ink(color)),
            ),
        );
        row = if row + 2 < bottom {
            row + 3
        } else {
            row + 2
        };
        i = i + 1;
        assert(all =~= drawn@ + agents_plan(
            agents@.skip(i as int),
            area,
            row as int,
            tick,
            *p,
        ));
        assert(agents@.skip(i as int).len() == 0 ==> drawn@ =~= all);
    }
    drawn
}

/// Drawing the button that opens the collapsed sidebar.
pub open spec fn toggle_plan(area: Rect, update_available: bool, p: Palette) -> Seq<OpView> {
    if area.width <= 1 || area.height == 0 {
        plan::idle()
    } else {
        plan::idle().push(
            plan::line_at(
                geometry::rect(
                    area.x + (area.width - 1) / 2,
                    area.y + area.height - 1,
                    1,
                    1,
                ),
                plan::blank().push(
                    plan::span(
                        "»"@,
                        if update_available {
                            bold(ink(p.accent))
                        } else {
                            ink(p.overlay0)
                        },
                    ),
                ),
            ),
        )
    }
}

/// Draw the button that opens the collapsed sidebar. The open sidebar has none.
pub fn render_sidebar_toggle(
    area: Rect,
    update_available: bool,
    collapsed: bool,
    p: &Palette,
) -> (drawn: Plan)
    requires
        area.wf(),
    ensures
        drawn@ == if collapsed {
            toggle_plan(area, update_available, *p)
        } else {
            plan::idle()
        },
{
    let mut drawn = Plan::new();
    if !collapsed || area.width <= 1 || area.height == 0 {
        return drawn;
    }
    let style = if update_available {
        bold(ink(p.accent))
    } else {
        ink(p.overlay0)
    };
    let x: u16 = area.x + (area.width - 1) / 2;
    let y: u16 = area.y + (area.height - 1);
    drawn.line(Rect::new(x, y, 1, 1), Line::of("»", style));
    drawn
}

/// Drawing the border of the sidebar.
pub open spec fn border_plan(area: Rect, navigating: bool, p: Palette) -> OpView {
    OpView::Fill {
        rect: Rect {
            x: (area.x + geometry::less(area.width as int, 1)) as u16,
            width: 1,
            ..area
        },
        symbol: "│"@,
        style: ink(
            if navigating {
                p.accent
            } else {
                p.surface_dim
            },
        ),
    }
}

fn render_border(drawn: &mut Plan, area: Rect, navigating: bool, p: &Palette)
    requires
        area.wf(),
    ensures
        final(drawn)@ == old(drawn)@.push(border_plan(area, navigating, *p)),
{
    let color = if navigating {
        p.accent
    } else {
        p.surface_dim
    };
    let x: u16 = area.x + area.width.saturating_sub(1);
    drawn.fill(Rect { x, y: area.y, width: 1, height: area.height }, "│", ink(color));
}

/// Drawing the first rows of the collapsed sidebar.
pub open spec fn collapsed_rows(s: Sidebar, area: Rect, n: int) -> Seq<OpView>
    decreases n,
{
    if n <= 0 {
        plan::idle()
    } else {
        let i = n - 1;
        let p = s.palette;
        let ws = s.workspaces@[i];
        let selected = i == s.selected && s.navigating;
        let width = geometry::less(area.width as int, 1);
        let before = if selected {
            collapsed_rows(s, area, i).push(
                OpView::Restyle {
                    rect: Rect {
                        x: area.x,
                        y: (area.y + i) as u16,
                        width: width as u16,
                        height: 1,
                    },
                    style: paper(p.surface0),
                },
            )
        } else {
            collapsed_rows(s, area, i)
        };
        before.push(
            plan::line_at(
                geometry::rect(area.x as int, area.y + i, width, 1),
                plan::blank().push(
                    plan::span(
                        text::decimal(n as nat),
                        if selected {
                            ink_on(p.overlay1, p.surface0)
                        } else {
                            ink(p.overlay0)
                        },
                    ),
                ).push(
                    plan::span(
                        " "@,
                        if selected {
                            paper(p.surface0)
                        } else {
                            plain()
                        },
                    ),
                ).push(
                    plan::span(dot_of(ws.state, ws.seen), ink(state_color(ws.state, ws.seen, p))),
                ),
            ),
        )
    }
}

/// Drawing the collapsed sidebar: a row for each workspace, as far as they fit
/// above the button.
pub open spec fn collapsed_plan(s: Sidebar, area: Rect) -> Seq<OpView> {
    plan::idle().push(border_plan(area, s.navigating, s.palette)) + collapsed_rows(
        s,
        area,
        geometry::least(s.workspaces@.len() as int, geometry::less(area.height as int, 1)),
    ) + toggle_plan(area, s.update_available, s.palette)
}

/// Draw the collapsed sidebar.
pub fn render_sidebar_collapsed(s: &Sidebar, area: Rect) -> (drawn: Plan)
    requires
        area.wf(),
    ensures
        drawn@ == collapsed_plan(*s, area),
{
    let p = &s.palette;
    let mut drawn = Plan::new();
    render_border(&mut drawn, area, s.navigating, p);
    let ghost border = drawn@;
    let width: u16 = area.width.saturating_sub(1);
    let rows: u16 = area.height.saturating_sub(1);
    let mut i: u16 = 0;
    assert(border + collapsed_rows(*s, area, 0) =~= border);
    while i < rows && (i as usize) < s.workspaces.len()
        invariant
            area.wf(),
            *p == s.palette,
            width == geometry::less(area.width as int, 1),
            rows == geometry::less(area.height as int, 1),
            i <= rows,
            i <= s.workspaces@.len(),
            drawn@ == border + collapsed_rows(*s, area, i as int),
        decreases rows - i,
    {
        let ws = &s.workspaces[i as usize];
        let y: u16 = area.y + i;
        let selected = i as usize == s.selected && s.navigating;
        let (icon, icon_style) = state_dot(ws.state, ws.seen, p);
        let row_style = if selected {
            paper(p.surface0)
        } else {
            plain()
        };
        let num_style = if selected {
            ink_on(p.overlay1, p.surface0)
        } else {
            ink(p.overlay0)
        };
        if selected {
            drawn.push(
                Op::Restyle { rect: Rect { x: area.x, y, width, height: 1 }, style: row_style },
            );
        }
        let number = text::decimal_text(i as u64 + 1);
        drawn.line(
            Rect::new(area.x, y, width, 1),
            Line::of(number.as_str(), num_style).with(" ", row_style).with(icon, icon_style),
        );
        assert(drawn@ =~= border + collapsed_rows(*s, area, i + 1));
        i = i + 1;
    }
    drawn.append(render_sidebar_toggle(area, s.update_available, true, p));
    drawn
}

/// The upper section of the open sidebar.
pub open spec fn upper_section(area: Rect) -> Rect {
    Rect {
        width: geometry::less(area.width as int, 1) as u16,
        height: ((area.height + 1) / 2) as u16,
        ..area
    }
}

/// The lower section of the open sidebar.
pub open spec fn lower_section(area: Rect) -> Rect {
    Rect {
        x: area.x,
        y: (area.y + (area.height + 1) / 2) as u16,
        width: geometry::less(area.width as int, 1) as u16,
        height: (area.height / 2) as u16,
    }
}

/// The workspace whose agents the sidebar shows.
pub open spec fn detailed(s: Sidebar) -> Option<usize> {
    let idx = if s.navigating {
        Some(s.selected)
    } else {
        s.active
    };
    match idx {
        Some(i) if i < s.workspaces@.len() => Some(i),
        _ => None,
    }
}

/// Drawing the open sidebar: the workspaces above, and below the agents of one of
/// them.
pub open spec fn sidebar_plan(s: Sidebar, area: Rect, thumb: Option<ScrollbarThumb>) -> Seq<OpView> {
    let list = plan::idle().push(border_plan(area, s.navigating, s.palette))
        + workspace_list_plan(s, upper_section(area), thumb);
    match detailed(s) {
        Some(i) => list + agent_detail_plan(
            s.workspaces@[i as int].agents@,
            lower_section(area),
            s.spinner_tick,
            s.palette,
        ),
        None => list,
    }
}

/// Draw the open sidebar. `thumb` is the thumb of the list's scrollbar.
pub fn render_sidebar(s: &Sidebar, area: Rect, thumb: Option<ScrollbarThumb>) -> (drawn: Plan)
    requires
        area.wf(),
        drawable(*s, upper_section(area)),
    ensures
        drawn@ == sidebar_plan(*s, area, thumb),
{
    let mut drawn = Plan::new();
    render_border(&mut drawn, area, s.navigating, &s.palette);
    let width: u16 = area.width.saturating_sub(1);
    let upper: u16 = area.height / 2 + area.height % 2;
    let list_area = Rect::new(area.x, area.y, width, upper);
    let detail_area = Rect::new(area.x, area.y + upper, width, area.height - upper);
    drawn.append(render_workspace_list(s, list_area, thumb));
    let idx: Option<usize> = if s.navigating {
        Some(s.selected)
    } else {
        s.active
    };
    if let Some(i) = idx {
        if i < s.workspaces.len() {
            drawn.append(
                render_agent_detail(
                    &s.workspaces[i].agents,
                    detail_area,
                    s.spinner_tick,
                    &s.palette,
                ),
            );
        }
    }
    drawn
}

/// A width that the sidebar may have.
pub open spec fn bounded_width(width: int) -> u16 {
    if width < MIN_SIDEBAR_WIDTH {
        MIN_SIDEBAR_WIDTH
    } else if width > MAX_SIDEBAR_WIDTH {
        MAX_SIDEBAR_WIDTH
    } else {
        width as u16
    }
}

/// A width that the sidebar may have.
pub fn bounded_sidebar_width(width: u16) -> (bounded: u16)
    ensures
        bounded == bounded_width(width as int),
{
    if width < MIN_SIDEBAR_WIDTH {
        MIN_SIDEBAR_WIDTH
    } else if width > MAX_SIDEBAR_WIDTH {
        MAX_SIDEBAR_WIDTH
    } else {
        width
    }
}

/// The bytes of a workspace's longest line.
pub open spec fn workspace_line(ws: SidebarWorkspace, number: nat) -> nat {
    geometry::most(
        3 + text::decimal(number).len() + text::byte_len(ws.name@) + 3,
        match ws.branch {
            Some(branch) => 3 + text::byte_len(branch@),
            None => 0,
        },
    )
}

/// The bytes of an agent's longest line.
pub open spec fn agent_line(agent: AgentDetail) -> nat {
    geometry::most(
        3 + text::byte_len(agent.label@),
        2 + text::byte_len(label_of(agent.state, agent.seen)),
    )
}

/// The bytes of the longest line of some agents.
pub open spec fn agent_lines(agents: Seq<AgentDetail>) -> nat
    decreases agents.len(),
{
    if agents.len() == 0 {
        0
    } else {
        geometry::most(agent_lines(agents.drop_last()), agent_line(agents.last()))
    }
}

/// The bytes of the longest line of some workspaces and their agents.
pub open spec fn longest_line(workspaces: Seq<SidebarWorkspace>) -> nat
    decreases workspaces.len(),
{
    if workspaces.len() == 0 {
        0
    } else {
        geometry::most(
            longest_line(workspaces.drop_last()),
            geometry::most(
                workspace_line(workspaces.last(), workspaces.len()),
                agent_lines(workspaces.last().agents@),
            ),
        )
    }
}

fn larger(a: u128, b: u128) -> (c: u128)
    ensures
        c == geometry::most(a as nat, b as nat),
{
    if a < b {
        b
    } else {
        a
    }
}

fn short_bytes(text: &str) -> (bytes: u128)
    ensures
        bytes == text::byte_len(text@),
        bytes <= 4 * usize::MAX,
{
    proof {
        text::lemma_byte_len_is_bounded(text@);
    }
    let _count: usize = text.unicode_len();
    text::bytes_in(text)
}

fn longest_agent_line(agents: &Vec<AgentDetail>) -> (bytes: u128)
    ensures
        bytes == agent_lines(agents@),
{
    let mut bytes: u128 = 0;
    let mut i: usize = 0;
    while i < agents.len()
        invariant
            i <= agents@.len(),
            bytes == agent_lines(agents@.take(i as int)),
        decreases agents@.len() - i,
    {
        assert(agents@.take(i + 1).drop_last() =~= agents@.take(i as int));
        let agent = &agents[i];
        let line: u128 = larger(
            3 + short_bytes(agent.label.as_str()),
            2 + short_bytes(state_label(agent.state, agent.seen)),
        );
        bytes = larger(bytes, line);
        i = i + 1;
    }
    assert(agents@.take(i as int) =~= agents@);
    bytes
}

/// The width of a sidebar that follows what it shows: its longest line and two
/// cells, within bounds. An empty sidebar keeps its width.
pub fn compute_sidebar_width(workspaces: &Vec<SidebarWorkspace>, sidebar_width: u16) -> (width: u16)
    requires
        (longest_line(workspaces@) as u16) + 2 <= u16::MAX,
    ensures
        width == if workspaces@.len() == 0 {
            bounded_width(sidebar_width as int)
        } else {
            bounded_width((longest_line(workspaces@) as u16) + 2)
        },
{
    if workspaces.len() == 0 {
        return bounded_sidebar_width(sidebar_width);
    }
    let mut bytes: u128 = 0;
    let mut i: usize = 0;
    while i < workspaces.len()
        invariant
            i <= workspaces@.len(),
            bytes == longest_line(workspaces@.take(i as int)),
        decreases workspaces@.len() - i,
    {
        assert(workspaces@.take(i + 1).drop_last() =~= workspaces@.take(i as int));
        let ws = &workspaces[i];
        let number = text::wide_decimal_text(i as u128 + 1);
        let digits: usize = number.as_str().unicode_len();
        let branch_line: u128 = match &ws.branch {
            Some(branch) => 3 + short_bytes(branch.as_str()),
            None => 0,
        };
        let line: u128 = larger(
            3 + digits as u128 + short_bytes(ws.name.as_str()) + 3,
            branch_line,
        );
        bytes = larger(bytes, larger(line, longest_agent_line(&ws.agents)));
        i = i + 1;
    }
    assert(workspaces@.take(i as int) =~= workspaces@);
    #[verifier::truncate]
    let width: u16 = bytes as u16;
    bounded_sidebar_width(width + 2)
}

/// The sidebar is never narrower or wider than its bounds.
pub proof fn law_sidebar_width_is_bounded(width: int)
    ensures
        MIN_SIDEBAR_WIDTH <= bounded_width(width) <= MAX_SIDEBAR_WIDTH,
        MIN_SIDEBAR_WIDTH <= width <= MAX_SIDEBAR_WIDTH ==> bounded_width(width) == width,
{
}

/// A blocked agent is shown in red and a working one in yellow; one that is done
/// stands out until it was looked at.
pub proof fn law_states_have_their_signs(state: AgentState, seen: bool, tick: u32, p: Palette)
    ensures
        state is Blocked ==> {
            &&& state_color(state, seen, p) == p.red
            &&& dot_of(state, seen) == "●"@
            &&& icon_of(state, seen, tick) == "◉"@
            &&& label_of(state, seen) == "blocked"@
        },
        state is Working ==> {
            &&& state_color(state, seen, p) == p.yellow
            &&& dot_of(state, seen) == "●"@
            &&& icon_of(state, seen, tick) == spinner_at(tick)
            &&& label_of(state, seen) == "working"@
        },
        state is Idle && seen ==> {
            &&& state_color(state, seen, p) == p.green
            &&& dot_of(state, seen) == "○"@
            &&& icon_of(state, seen, tick) == "✓"@
            &&& label_of(state, seen) == "idle"@
        },
        state is Idle && !seen ==> {
            &&& state_color(state, seen, p) == p.teal
            &&& dot_of(state, seen) == "●"@
            &&& icon_of(state, seen, tick) == "●"@
            &&& label_of(state, seen) == "done"@
        },
        state is Unknown ==> {
            &&& state_color(state, seen, p) == p.overlay0
            &&& dot_of(state, seen) == "·"@
            &&& icon_of(state, seen, tick) == "○"@
            &&& label_of(state, seen) == "idle"@
        },
{
}

/// The spinner keeps a frame for eight ticks and comes round after ten frames, in
/// this order.
pub proof fn law_the_spinner_turns(turn: nat, frame: nat, within: nat)
    requires
        frame < 10,
        within < 8,
        80 * turn + 8 * frame + within <= u32::MAX,
    ensures
        spinner_at((80 * turn + 8 * frame + within) as u32) == seq![
            "⠋"@,
            "⠙"@,
            "⠹"@,
            "⠸"@,
            "⠼"@,
            "⠴"@,
            "⠦"@,
            "⠧"@,
            "⠇"@,
            "⠏"@,
        ][frame as int],
{
    let tick = 80 * turn + 8 * frame + within;
    assert(tick as int / 8 == 10 * turn + frame);
    assert((10 * turn + frame) as int % 10 == frame);
}

/// The workspaces have the upper half of the sidebar and the agents the lower one,
/// beside the line at its right edge. The rows of the list are those below its two
/// rows of heading and above its last row.
pub proof fn law_the_sidebar_is_halved(area: Rect, has_scrollbar: bool)
    requires
        area.wf(),
    ensures
        ({
            let upper = upper_section(area);
            let lower = lower_section(area);
            &&& upper.x == area.x && upper.y == area.y && lower.x == area.x
            &&& area.width > 0 ==> upper.width == area.width - 1 && lower.width == area.width - 1
            &&& lower.y == upper.y + upper.height
            &&& upper.height + lower.height == area.height
            &&& lower.height <= upper.height <= lower.height + 1
            &&& area.width > 1 && area.height > 0 ==> list_rect(area) == upper
            &&& area.width <= 1 || area.height == 0 ==> list_rect(area).width == 0
                && list_rect(area).height == 0
        }),
        ({
            let body = body_rect(area, has_scrollbar);
            &&& area.width > 0 && area.height > 2 ==> {
                &&& body.x == area.x
                &&& body.y == area.y + 2
                &&& body.y + body.height == area.y + area.height - 1
                &&& has_scrollbar ==> body.width == area.width - 1
                &&& !has_scrollbar ==> body.width == area.width
            }
            &&& area.width == 0 || area.height <= 2 ==> body.width == 0 && body.height == 0
        }),
{
}

/// The rows that workspaces take: a row of names, one for a branch, and a gap.
pub open spec fn rows_taken(workspaces: Seq<SidebarWorkspace>) -> nat
    decreases workspaces.len(),
{
    if workspaces.len() == 0 {
        0
    } else {
        rows_taken(workspaces.drop_first()) + (if workspaces[0].branch is Some {
            3nat
        } else {
            2nat
        })
    }
}

/// As many workspaces are shown as there is room for: those fit, and one more
/// would not.
pub proof fn law_as_many_workspaces_fit_as_can(workspaces: Seq<SidebarWorkspace>, rows: nat)
    ensures
        ({
            let n = fitting(workspaces, rows as int) as int;
            &&& n <= workspaces.len()
            &&& rows_taken(workspaces.take(n)) <= rows
            &&& n < workspaces.len() ==> rows_taken(workspaces.take(n + 1)) > rows
        }),
    decreases workspaces.len(),
{
    let n = fitting(workspaces, rows as int) as int;
    if n > 0 {
        let rest = workspaces.drop_first();
        let left = rows - row_height(workspaces[0]) - 1;
        law_as_many_workspaces_fit_as_can(rest, left as nat);
        assert(workspaces.take(n).drop_first() =~= rest.take(n - 1));
        assert(workspaces.take(n)[0] == workspaces[0]);
        if n < workspaces.len() {
            assert(workspaces.take(n + 1).drop_first() =~= rest.take(n));
            assert(workspaces.take(n + 1)[0] == workspaces[0]);
        }
    } else if workspaces.len() > 0 {
        assert(workspaces.take(1)[0] == workspaces[0]);
        assert(workspaces.take(0).len() == 0);
    }
}

/// The scrollbar of the list counts the workspaces above, shown and below: they
/// are all of them.
pub proof fn law_the_list_counts_all_workspaces(
    workspaces: Seq<SidebarWorkspace>,
    scroll: nat,
    area: Rect,
)
    requires
        area.wf(),
        scroll <= workspaces.len() <= usize::MAX,
    ensures
        ({
            let metrics = list_metrics(workspaces, scroll as int, area);
            &&& metrics.offset_from_bottom + metrics.viewport_rows + scroll == workspaces.len()
            &&& metrics.max_offset_from_bottom + metrics.viewport_rows == workspaces.len()
            &&& area.width == 0 || area.height <= 3 ==> metrics.viewport_rows == 0
            &&& area.width > 0 && area.height > 3 ==> {
                let shown = workspaces.skip(scroll as int);
                let n = metrics.viewport_rows as int;
                &&& n <= shown.len()
                &&& rows_taken(shown.take(n)) <= area.height - 3
                &&& n < shown.len() ==> rows_taken(shown.take(n + 1)) > area.height - 3
            }
        }),
{
    let body = body_rect(area, false);
    lemma_fitting(workspaces.skip(scroll as int), body.height as int);
    law_as_many_workspaces_fit_as_can(workspaces.skip(scroll as int), body.height as nat);
}

/// A list that is cut has its scrollbar in its last column, beside its rows.
pub proof fn law_a_cut_list_has_a_scrollbar(
    workspaces: Seq<SidebarWorkspace>,
    scroll: nat,
    area: Rect,
)
    requires
        area.wf(),
        scroll <= workspaces.len() <= usize::MAX,
        area.width > 1,
        area.height > 3,
    ensures
        ({
            let metrics = list_metrics(workspaces, scroll as int, area);
            let track = list_track(workspaces, scroll as int, area);
            &&& metrics.max_offset_from_bottom > 0 && metrics.viewport_rows > 0 ==> track == Some(
                Rect {
                    x: (area.x + area.width - 1) as u16,
                    y: (area.y + 2) as u16,
                    width: 1,
                    height: (area.height - 3) as u16,
                },
            )
            &&& metrics.max_offset_from_bottom == 0 ==> track is None
        }),
{
}

proof fn lemma_card_steps(workspaces: Seq<SidebarWorkspace>, first: int, body: Rect, row: int)
    requires
        body.wf(),
        body.y <= row,
        0 <= first,
        first + workspaces.len() <= usize::MAX,
    ensures
        ({
            let cards = cards_from(workspaces, first, body, row);
            &&& cards.len() <= workspaces.len()
            &&& cards.len() > 0 ==> cards[0].rect.y == row
            &&& forall|i: int|
                0 <= i < cards.len() ==> {
                    &&& (#[trigger] cards[i]).ws_idx == first + i
                    &&& cards[i].rect.x == body.x && cards[i].rect.width == body.width
                    &&& cards[i].rect.height == if workspaces[i].branch is Some { 2u16 } else { 1u16 }
                }
            &&& forall|i: int, j: int|
                0 <= i < cards.len() && j == i + 1 && j < cards.len() ==> (
                #[trigger] cards[j]).rect.y == (#[trigger] cards[i]).rect.y + cards[i].rect.height
                    + 1
        }),
    decreases workspaces.len(),
{
    let cards = cards_from(workspaces, first, body, row);
    if cards.len() > 0 {
        let rest = workspaces.drop_first();
        let below = row + row_height(workspaces[0]) + 1;
        let others = cards_from(rest, first + 1, body, below);
        lemma_card_steps(rest, first + 1, body, below);
        assert forall|i: int| 0 <= i < cards.len() implies {
            &&& (#[trigger] cards[i]).ws_idx == first + i
            &&& cards[i].rect.x == body.x && cards[i].rect.width == body.width
            &&& cards[i].rect.height == if workspaces[i].branch is Some { 2u16 } else { 1u16 }
        } by {
            if i > 0 {
                assert(cards[i] == others[i - 1]);
                assert(rest[i - 1] == workspaces[i]);
            }
        }
        assert forall|i: int, j: int|
            0 <= i < cards.len() && j == i + 1 && j < cards.len() implies (
        #[trigger] cards[j]).rect.y == (#[trigger] cards[i]).rect.y + cards[i].rect.height + 1 by {
            assert(cards[j] == others[j - 1]);
            if i > 0 {
                assert(cards[i] == others[i - 1]);
            }
        }
    }
}

/// The first card stands right below the heading of the list and each further one
/// a row below the one before, for the workspaces from the scrolled place on; a
/// workspace with a branch has two rows and another one.
pub proof fn law_cards_follow_from_the_scrolled_place(
    workspaces: Seq<SidebarWorkspace>,
    scroll: nat,
    area: Rect,
)
    requires
        area.wf(),
        scroll <= workspaces.len() <= usize::MAX,
    ensures
        ({
            let cards = card_areas(workspaces, scroll as int, area);
            &&& scroll + cards.len() <= workspaces.len()
            &&& cards.len() > 0 ==> cards[0].rect.y == area.y + 2
            &&& forall|i: int|
                0 <= i < cards.len() ==> {
                    &&& (#[trigger] cards[i]).ws_idx == scroll + i
                    &&& cards[i].rect.x == area.x
                    &&& area.width - 2 <= cards[i].rect.width <= area.width - 1
                    &&& cards[i].rect.height == if workspaces[scroll + i].branch is Some {
                        2u16
                    } else {
                        1u16
                    }
                }
            &&& forall|i: int, j: int|
                0 <= i < cards.len() && j == i + 1 && j < cards.len() ==> (
                #[trigger] cards[j]).rect.y == (#[trigger] cards[i]).rect.y + cards[i].rect.height
                    + 1
        }),
{
    let list = list_rect(area);
    let body = body_rect(
        list,
        scrollbar::scrolls(list_metrics(workspaces, scroll as int, list)),
    );
    if body.width > 0 && body.height > 0 {
        lemma_card_steps(workspaces.skip(scroll as int), scroll as int, body, body.y as int);
    }
}

proof fn lemma_card_of(cards: Seq<WorkspaceCardArea>, ws_idx: int, at: int)
    requires
        0 <= at < cards.len(),
        cards[at].ws_idx == ws_idx,
        forall|i: int| 0 <= i < at ==> (#[trigger] cards[i]).ws_idx != ws_idx,
    ensures
        card_of(cards, ws_idx) == Some(cards[at]),
    decreases at,
{
    if at > 0 {
        assert(cards[0].ws_idx != ws_idx);
        assert forall|i: int| 0 <= i < at - 1 implies (
        #[trigger] cards.drop_first()[i]).ws_idx != ws_idx by {
            assert(cards.drop_first()[i] == cards[i + 1]);
        }
        lemma_card_of(cards.drop_first(), ws_idx, at - 1);
    }
}

proof fn lemma_no_card_of(cards: Seq<WorkspaceCardArea>, ws_idx: int)
    requires
        forall|i: int| 0 <= i < cards.len() ==> (#[trigger] cards[i]).ws_idx != ws_idx,
    ensures
        card_of(cards, ws_idx) is None,
    decreases cards.len(),
{
    if cards.len() > 0 {
        assert(cards[0].ws_idx != ws_idx);
        assert forall|i: int| 0 <= i < cards.drop_first().len() implies (
        #[trigger] cards.drop_first()[i]).ws_idx != ws_idx by {
            assert(cards.drop_first()[i] == cards[i + 1]);
        }
        lemma_no_card_of(cards.drop_first(), ws_idx);
    }
}

/// A dragged workspace is marked in the gap above the card that it would stand
/// before, below the last card where it would come last, and nowhere else.
pub proof fn law_the_drop_mark_stands_in_the_gap(
    cards: Seq<WorkspaceCardArea>,
    area: Rect,
    at: int,
    insert_idx: int,
)
    requires
        area.wf(),
        area.height > 0,
        0 <= at < cards.len(),
        forall|i: int| 0 <= i < cards.len() ==> (#[trigger] cards[i]).rect.wf(),
        forall|i: int| 0 <= i < cards.len() ==> (#[trigger] cards[i]).ws_idx == cards[0].ws_idx + i,
    ensures
        0 < cards[at].rect.y < area.y + area.height ==> drop_row(
            cards,
            area,
            cards[at].ws_idx as int,
        ) == Some((cards[at].rect.y - 1) as u16),
        cards.last().rect.y + cards.last().rect.height < area.y + area.height - 1 ==> drop_row(
            cards,
            area,
            cards.last().ws_idx + 1,
        ) == Some((cards.last().rect.y + cards.last().rect.height) as u16),
        insert_idx < cards[0].ws_idx || insert_idx > cards.last().ws_idx + 1 ==> drop_row(
            cards,
            area,
            insert_idx,
        ) is None,
{
    lemma_card_of(cards, cards[at].ws_idx as int, at);
    lemma_no_card_of(cards, cards.last().ws_idx + 1);
    if insert_idx < cards[0].ws_idx || insert_idx > cards.last().ws_idx + 1 {
        lemma_no_card_of(cards, insert_idx);
    }
}

/// Commits ahead are counted behind an arrow up, in green, and commits behind
/// after one down, in red; where there are none, nothing is shown.
pub proof fn law_the_upstream_is_counted(ahead: usize, behind: usize, p: Palette)
    ensures
        upstream_spans(None, p).len() == 0,
        ({
            let spans = upstream_spans(Some((ahead, behind)), p);
            &&& ahead == 0 && behind == 0 ==> spans.len() == 0
            &&& ahead > 0 ==> {
                &&& spans[0].text == " "@
                &&& spans[1].text == "↑"@ + text::decimal(ahead as nat)
                &&& spans[1].style.fg == Some(p.green)
            }
            &&& ahead > 0 && behind == 0 ==> spans.len() == 2
            &&& behind > 0 ==> {
                &&& spans.len() == if ahead > 0 { 4int } else { 2int }
                &&& spans[spans.len() - 2].text == " "@
                &&& spans.last().text == "↓"@ + text::decimal(behind as nat)
                &&& spans.last().style.fg == Some(p.red)
            }
        }),
{
}

/// A branch is shown whole where its bytes fit beside the five cells around it and
/// the counts of its upstream; otherwise as many bytes of it as leave room for the
/// dots that say so.
pub proof fn law_long_branches_are_cut(ws: SidebarWorkspace, width: u16, branch: Seq<char>)
    ensures
        ({
            let room = branch_room(ws, width);
            &&& ws.ahead_behind is None && width >= 5 ==> room == width - 5
            &&& ws.ahead_behind == Some((0usize, 0usize)) && width >= 5 ==> room == width - 5
            &&& room >= 0
            &&& text::byte_len(branch) <= room ==> branch_text(branch, room) == branch
            &&& text::byte_len(branch) > room > 0 ==> branch_text(branch, room) == text::byte_prefix(
                branch,
                room - 1,
            ) + "…"@
        }),
{
}

/// A card shows the number of its workspace, its name and its state in the first
/// row, and its branch with the counts of its upstream in the second. It stands out
/// where it is selected, active or dragged, and only the active one has a bar.
pub proof fn law_a_card_tells_its_workspace(
    ws: SidebarWorkspace,
    card: WorkspaceCardArea,
    selected: bool,
    active: bool,
    dragged: bool,
    list_bottom: int,
    p: Palette,
)
    requires
        card.rect.wf(),
        card.rect.height > 0,
    ensures
        ({
            let ops = card_plan(ws, card, selected, active, dragged, list_bottom, p);
            let lit = selected || active || dragged;
            let bar = if lit { 1int } else { 0int };
            let name = if active { 2int } else { bar };
            let second = ws.branch is Some && card.rect.height > 1 && card.rect.y + 1 < list_bottom;
            &&& ops.len() == if second { name + 2 } else { name + 1 }
            &&& lit ==> {
                &&& ops[0] is Restyle
                &&& ops[0]->Restyle_rect.x == card.rect.x && ops[0]->Restyle_rect.y == card.rect.y
                &&& ops[0]->Restyle_rect.width == card.rect.width
                &&& card.rect.y + card.rect.height <= list_bottom ==> ops[0]->Restyle_rect.height
                    == card.rect.height
                &&& selected ==> ops[0]->Restyle_style.bg == Some(p.surface0)
                &&& !selected && dragged ==> ops[0]->Restyle_style.bg == Some(p.surface1)
                &&& !selected && !dragged ==> ops[0]->Restyle_style.bg == Some(p.surface_dim)
            }
            &&& active ==> {
                &&& ops[1] is Fill && ops[1]->Fill_symbol == "▌"@
                &&& ops[1]->Fill_rect.x == card.rect.x && ops[1]->Fill_rect.width == 1
                &&& ops[1]->Fill_style.fg == Some(p.accent)
            }
            &&& ops[name] is Text
            &&& ops[name]->Text_rect == (Rect { height: 1, ..card.rect })
            &&& ops[name]->Text_lines.len() == 1
            &&& ops[name]->Text_lines[0].len() == 5
            &&& ops[name]->Text_lines[0][1].text == text::decimal((card.ws_idx + 1) as nat) + " "@
            &&& ops[name]->Text_lines[0][2].text == ws.name@
            &&& ops[name]->Text_lines[0][2].style.bold == lit
            &&& ops[name]->Text_lines[0][4].text == dot_of(ws.state, ws.seen)
            &&& ops[name]->Text_lines[0][4].style.fg == Some(state_color(ws.state, ws.seen, p))
            &&& second ==> {
                let line = ops[name + 1]->Text_lines[0];
                &&& ops[name + 1] is Text && ops[name + 1]->Text_rect.y == card.rect.y + 1
                &&& line[0].text == "   "@
                &&& line[1].text == branch_text(ws.branch->0@, branch_room(ws, card.rect.width))
                &&& selected || active ==> line[1].style.fg == Some(p.mauve)
                &&& line.skip(2) == upstream_spans(ws.ahead_behind, p)
            }
        }),
{
    let ops = card_plan(ws, card, selected, active, dragged, list_bottom, p);
    let lit = selected || active || dragged;
    let name = if active {
        2int
    } else if lit {
        1int
    } else {
        0int
    };
    if ws.branch is Some && card.rect.height > 1 && card.rect.y + 1 < list_bottom {
        let line = ops[name + 1]->Text_lines[0];
        assert(line.skip(2) =~= upstream_spans(ws.ahead_behind, p));
    }
}

/// Whether steps of drawing hold others in a row, from a place on.
pub open spec fn holds_at(all: Seq<OpView>, some: Seq<OpView>, k: int) -> bool {
    0 <= k && k + some.len() <= all.len() && all.subrange(k, k + some.len() as int) == some
}

/// Every card is drawn, for the workspace that it is of: as selected only while
/// navigating, as active where its workspace is, and as dragged where it is
/// dragged.
pub proof fn law_every_card_is_drawn(s: Sidebar, n: int, list_bottom: int, one: Seq<OpView>, c: int)
    requires
        0 <= c < n <= s.cards@.len(),
        one == card_plan(
            s.workspaces@[s.cards@[c].ws_idx as int],
            s.cards@[c],
            s.navigating && s.selected == s.cards@[c].ws_idx,
            s.active == Some(s.cards@[c].ws_idx),
            s.reorder is Some && s.reorder->0.source_ws_idx == s.cards@[c].ws_idx,
            list_bottom,
            s.palette,
        ),
    ensures
        exists|k: int| holds_at(cards_plan(s, n, list_bottom), one, k),
    decreases n,
{
    let all = cards_plan(s, n, list_bottom);
    let before = cards_plan(s, n - 1, list_bottom);
    if c == n - 1 {
        let k = before.len() as int;
        assert(all.subrange(k, k + one.len() as int) =~= one);
        assert(holds_at(all, one, k));
    } else {
        law_every_card_is_drawn(s, n - 1, list_bottom, one, c);
        let k = choose|k: int| holds_at(before, one, k);
        assert(all.subrange(k, k + one.len() as int) =~= before.subrange(k, k + one.len() as int));
        assert(holds_at(all, one, k));
    }
}

/// The section of the workspaces begins with its heading and the cards in their
/// order, and ends with the buttons for a new workspace and the menu, which has a
/// dot where an update waits. A drag is marked by a line in its row.
pub proof fn law_the_list_is_drawn_in_order(s: Sidebar, area: Rect, thumb: Option<ScrollbarThumb>)
    requires
        area.height > 1,
        area.wf(),
    ensures
        ({
            let ops = workspace_list_plan(s, area, thumb);
            let bottom = area.y + area.height - 1;
            let cards = cards_plan(s, s.cards@.len() as int, bottom);
            let n = ops.len() as int;
            let row = insertion_row(s, area);
            &&& n >= cards.len() + 3
            &&& ops[0] is Text && ops[0]->Text_rect == (Rect { height: 1, ..area })
            &&& ops[0]->Text_lines[0][0].text == " spaces"@
            &&& ops.subrange(1, 1 + cards.len() as int) == cards
            &&& row is Some && row->0 < bottom ==> {
                let mark = ops[1 + cards.len() as int];
                &&& mark is Fill && mark->Fill_symbol == "─"@
                &&& mark->Fill_rect.x == area.x && mark->Fill_rect.y == row->0
                &&& mark->Fill_rect.height == 1
                &&& mark->Fill_style.fg == Some(s.palette.accent)
                &&& list_track(s.workspaces@, s.workspace_scroll as int, area) is None
                    ==> mark->Fill_rect.width == area.width && n == cards.len() + 4
            }
            &&& row is None && list_track(s.workspaces@, s.workspace_scroll as int, area) is None
                ==> n == cards.len() + 3
            &&& ops[n - 2] is Text && ops[n - 2]->Text_rect == s.new_button
            &&& ops[n - 2]->Text_lines[0][0].text == "new"@
            &&& ops[n - 1] is Text && ops[n - 1]->Text_rect == s.menu_button
            &&& ops[n - 1]->Text_align is Right
            &&& ops[n - 1]->Text_lines[0][0].text == "menu"@
            &&& ops[n - 1]->Text_lines[0].len() == if s.update_available { 2int } else { 1int }
            &&& s.update_available ==> ops[n - 1]->Text_lines[0][1].text == " ●"@
        }),
{
    let ops = workspace_list_plan(s, area, thumb);
    let bottom = area.y + area.height - 1;
    let cards = cards_plan(s, s.cards@.len() as int, bottom);
    assert(ops.subrange(1, 1 + cards.len() as int) =~= cards);
}

/// A drag is marked where its workspace would be inserted; without a drag, or with
/// no place to drop, nothing is marked.
pub proof fn law_only_a_drag_is_marked(s: Sidebar, area: Rect)
    ensures
        s.reorder is None ==> insertion_row(s, area) is None,
        s.reorder is Some && s.reorder->0.insert_idx is None ==> insertion_row(s, area) is None,
        s.reorder is Some && s.reorder->0.insert_idx is Some ==> insertion_row(s, area) == drop_row(
            s.cards@,
            area,
            s.reorder->0.insert_idx->0 as int,
        ),
{
}

/// Each agent has two rows and a gap, from the given row on: its icon and label,
/// and below them what its state is called. Those that do not fit are left out.
pub proof fn law_agents_follow_one_another(
    agents: Seq<AgentDetail>,
    area: Rect,
    row: int,
    tick: u32,
    p: Palette,
)
    requires
        area.wf(),
        0 <= row,
    ensures
        ({
            let ops = agents_plan(agents, area, row, tick, p);
            &&& ops.len() <= 2 * agents.len()
            &&& row + 1 >= area.y + area.height ==> ops.len() == 0
            &&& forall|i: int|
                0 <= i < agents.len() && row + 3 * i + 1 < area.y + area.height ==> {
                    let agent = #[trigger] agents[i];
                    let color = Some(state_color(agent.state, agent.seen, p));
                    &&& 2 * i + 1 < ops.len()
                    &&& ops[2 * i] is Text && ops[2 * i]->Text_rect.y == row + 3 * i
                    &&& ops[2 * i]->Text_rect.x == area.x
                    &&& ops[2 * i]->Text_lines[0].len() == 4
                    &&& ops[2 * i]->Text_lines[0][1].text == icon_of(agent.state, agent.seen, tick)
                    &&& ops[2 * i]->Text_lines[0][1].style.fg == color
                    &&& ops[2 * i]->Text_lines[0][3].text == agent.label@
                    &&& ops[2 * i + 1] is Text && ops[2 * i + 1]->Text_rect.y == row + 3 * i + 1
                    &&& ops[2 * i + 1]->Text_lines[0].len() == 2
                    &&& ops[2 * i + 1]->Text_lines[0][1].text == label_of(agent.state, agent.seen)
                    &&& ops[2 * i + 1]->Text_lines[0][1].style.fg == color
                }
        }),
    decreases agents.len(),
{
    let bottom = area.y + area.height;
    let ops = agents_plan(agents, area, row, tick, p);
    if agents.len() > 0 && row + 1 < bottom {
        let rest = agents.drop_first();
        let next = if row + 2 < bottom {
            row + 3
        } else {
            row + 2
        };
        let others = agents_plan(rest, area, next, tick, p);
        law_agents_follow_one_another(rest, area, next, tick, p);
        assert forall|i: int|
            0 <= i < agents.len() && row + 3 * i + 1 < area.y + area.height implies {
            let agent = #[trigger] agents[i];
            let color = Some(state_color(agent.state, agent.seen, p));
            &&& 2 * i + 1 < ops.len()
            &&& ops[2 * i] is Text && ops[2 * i]->Text_rect.y == row + 3 * i
            &&& ops[2 * i]->Text_rect.x == area.x
            &&& ops[2 * i]->Text_lines[0].len() == 4
            &&& ops[2 * i]->Text_lines[0][1].text == icon_of(agent.state, agent.seen, tick)
            &&& ops[2 * i]->Text_lines[0][1].style.fg == color
            &&& ops[2 * i]->Text_lines[0][3].text == agent.label@
            &&& ops[2 * i + 1] is Text && ops[2 * i + 1]->Text_rect.y == row + 3 * i + 1
            &&& ops[2 * i + 1]->Text_lines[0].len() == 2
            &&& ops[2 * i + 1]->Text_lines[0][1].text == label_of(agent.state, agent.seen)
            &&& ops[2 * i + 1]->Text_lines[0][1].style.fg == color
        } by {
            if i > 0 {
                assert(rest[i - 1] == agents[i]);
                assert(ops[2 * i] == others[2 * (i - 1)]);
                assert(ops[2 * i + 1] == others[2 * (i - 1) + 1]);
            }
        }
    }
}

/// The section of the agents has a line and a heading, and the agents from its
/// fourth row on; with fewer than three rows it shows nothing.
pub proof fn law_agents_have_a_heading(
    agents: Seq<AgentDetail>,
    area: Rect,
    tick: u32,
    p: Palette,
)
    requires
        area.wf(),
    ensures
        ({
            let ops = agent_detail_plan(agents, area, tick, p);
            &&& area.height < 3 ==> ops.len() == 0
            &&& area.height >= 3 ==> {
                &&& ops.len() >= 2
                &&& ops[0] is Text && ops[0]->Text_rect.y == area.y
                &&& ops[0]->Text_lines[0][0].text == text::repeated("─"@, area.width as nat)
                &&& ops[1] is Text && ops[1]->Text_rect.y == area.y + 1
                &&& ops[1]->Text_lines[0][0].text == " agents"@
                &&& ops.skip(2) == agents_plan(agents, area, area.y + 3, tick, p)
            }
        }),
{
    let ops = agent_detail_plan(agents, area, tick, p);
    if area.height >= 3 {
        assert(ops.skip(2) =~= agents_plan(agents, area, area.y + 3, tick, p));
    }
}

/// The collapsed sidebar has a row for each workspace, with its number and its
/// state, in order; only while navigating the selected one stands out.
pub proof fn law_collapsed_rows_follow_one_another(s: Sidebar, area: Rect, n: int)
    requires
        area.wf(),
        0 <= n <= s.workspaces@.len(),
        n <= area.height,
    ensures
        ({
            let ops = collapsed_rows(s, area, n);
            let at = |i: int| if s.navigating && s.selected <= i { i + 1 } else { i };
            &&& ops.len() == if s.navigating && s.selected < n { n + 1 } else { n }
            &&& s.navigating && s.selected < n ==> {
                let mark = ops[s.selected as int];
                &&& mark is Restyle && mark->Restyle_rect.y == area.y + s.selected
                &&& mark->Restyle_rect.x == area.x && mark->Restyle_rect.height == 1
                &&& mark->Restyle_style.bg == Some(s.palette.surface0)
            }
            &&& forall|i: int|
                0 <= i < n ==> {
                    let ws = #[trigger] s.workspaces@[i];
                    let op = ops[at(i)];
                    &&& op is Text && op->Text_rect.x == area.x && op->Text_rect.y == area.y + i
                    &&& op->Text_lines[0].len() == 3
                    &&& op->Text_lines[0][0].text == text::decimal((i + 1) as nat)
                    &&& op->Text_lines[0][2].text == dot_of(ws.state, ws.seen)
                    &&& op->Text_lines[0][2].style.fg == Some(
                        state_color(ws.state, ws.seen, s.palette),
                    )
                }
        }),
    decreases n,
{
    if n > 0 {
        law_collapsed_rows_follow_one_another(s, area, n - 1);
    }
}

/// The collapsed sidebar draws the line at its edge, as many workspaces as stand
/// above its last row, and there the button that opens it, which stands out where
/// an update waits.
pub proof fn law_the_collapsed_sidebar_is_drawn_in_order(s: Sidebar, area: Rect)
    requires
        area.wf(),
        area.width > 1,
        area.height > 0,
    ensures
        ({
            let ops = collapsed_plan(s, area);
            let count = if s.workspaces@.len() < area.height - 1 {
                s.workspaces@.len() as int
            } else {
                area.height - 1
            };
            let rows = collapsed_rows(s, area, count);
            &&& ops.len() == rows.len() + 2
            &&& ops[0] is Fill && ops[0]->Fill_symbol == "│"@
            &&& ops[0]->Fill_rect.x == area.x + area.width - 1 && ops[0]->Fill_rect.width == 1
            &&& ops[0]->Fill_rect.y == area.y && ops[0]->Fill_rect.height == area.height
            &&& s.navigating ==> ops[0]->Fill_style.fg == Some(s.palette.accent)
            &&& !s.navigating ==> ops[0]->Fill_style.fg == Some(s.palette.surface_dim)
            &&& ops.subrange(1, 1 + rows.len() as int) == rows
            &&& ops.last() is Text && ops.last()->Text_rect.y == area.y + area.height - 1
            &&& ops.last()->Text_rect.x == area.x + (area.width - 1) / 2
            &&& ops.last()->Text_lines[0][0].text == "»"@
            &&& ops.last()->Text_lines[0][0].style.bold == s.update_available
        }),
{
    let ops = collapsed_plan(s, area);
    let count = geometry::least(s.workspaces@.len() as int, geometry::less(area.height as int, 1));
    let rows = collapsed_rows(s, area, count);
    assert(ops.subrange(1, 1 + rows.len() as int) =~= rows);
}

/// The open sidebar shows the workspaces above, and below the agents of the one
/// that is selected while navigating, and of the active one otherwise.
pub proof fn law_the_sidebar_shows_one_workspaces_agents(
    s: Sidebar,
    area: Rect,
    thumb: Option<ScrollbarThumb>,
)
    ensures
        ({
            let ops = sidebar_plan(s, area, thumb);
            let list = workspace_list_plan(s, upper_section(area), thumb);
            let n = list.len() as int;
            let at = if s.navigating { Some(s.selected) } else { s.active };
            &&& ops.len() >= n + 1
            &&& ops[0] == border_plan(area, s.navigating, s.palette)
            &&& ops.subrange(1, 1 + n) == list
            &&& at is None ==> ops.len() == n + 1
            &&& at is Some && at->0 >= s.workspaces@.len() ==> ops.len() == n + 1
            &&& at is Some && at->0 < s.workspaces@.len() ==> ops.skip(1 + n) == agent_detail_plan(
                s.workspaces@[at->0 as int].agents@,
                lower_section(area),
                s.spinner_tick,
                s.palette,
            )
        }),
{
    let ops = sidebar_plan(s, area, thumb);
    let list = workspace_list_plan(s, upper_section(area), thumb);
    let n = list.len() as int;
    assert(ops.subrange(1, 1 + n) =~= list);
    let at = if s.navigating {
        Some(s.selected)
    } else {
        s.active
    };
    if at is Some && at->0 < s.workspaces@.len() {
        assert(ops.skip(1 + n) =~= agent_detail_plan(
            s.workspaces@[at->0 as int].agents@,
            lower_section(area),
            s.spinner_tick,
            s.palette,
        ));
    }
}

proof fn lemma_agent_lines(agents: Seq<AgentDetail>, i: int)
    requires
        0 <= i < agents.len(),
    ensures
        agent_lines(agents) >= 3 + text::byte_len(agents[i].label@),
        agent_lines(agents) >= 2 + text::byte_len(label_of(agents[i].state, agents[i].seen)),
    decreases agents.len(),
{
    if i < agents.len() - 1 {
        lemma_agent_lines(agents.drop_last(), i);
        assert(agents.drop_last()[i] == agents[i]);
    }
}

/// The sidebar has room for each name with its number, each branch and each agent
/// that it shows.
pub proof fn law_every_line_has_room(workspaces: Seq<SidebarWorkspace>, i: int)
    requires
        0 <= i < workspaces.len(),
    ensures
        ({
            let ws = workspaces[i];
            let widest = longest_line(workspaces);
            &&& widest >= 6 + text::decimal((i + 1) as nat).len() + text::byte_len(ws.name@)
            &&& ws.branch is Some ==> widest >= 3 + text::byte_len(ws.branch->0@)
            &&& forall|k: int|
                0 <= k < ws.agents@.len() ==> widest >= 3 + text::byte_len(
                    (#[trigger] ws.agents@[k]).label@,
                ) && widest >= 2 + text::byte_len(
                    label_of(ws.agents@[k].state, ws.agents@[k].seen),
                )
        }),
    decreases workspaces.len(),
{
    if i < workspaces.len() - 1 {
        law_every_line_has_room(workspaces.drop_last(), i);
        assert(workspaces.drop_last()[i] == workspaces[i]);
    } else {
        let ws = workspaces[i];
        assert forall|k: int| 0 <= k < ws.agents@.len() implies longest_line(workspaces) >= 3
            + text::byte_len((#[trigger] ws.agents@[k]).label@) && longest_line(workspaces) >= 2
            + text::byte_len(label_of(ws.agents@[k].state, ws.agents@[k].seen)) by {
            lemma_agent_lines(ws.agents@, k);
        }
    }
}

proof fn lemma_agent_lines_reach(agents: Seq<AgentDetail>, most: nat)
    requires
        forall|i: int|
            0 <= i < agents.len() ==> 3 + text::byte_len((#[trigger] agents[i]).label@) <= most && 2
                + text::byte_len(label_of(agents[i].state, agents[i].seen)) <= most,
    ensures
        agent_lines(agents) <= most,
    decreases agents.len(),
{
    if agents.len() > 0 {
        assert(agents.last() == agents[agents.len() - 1]);
        assert forall|i: int| 0 <= i < agents.drop_last().len() implies 3 + text::byte_len(
            (#[trigger] agents.drop_last()[i]).label@,
        ) <= most && 2 + text::byte_len(
            label_of(agents.drop_last()[i].state, agents.drop_last()[i].seen),
        ) <= most by {
            assert(agents.drop_last()[i] == agents[i]);
        }
        lemma_agent_lines_reach(agents.drop_last(), most);
    }
}

/// The sidebar is no wider than its longest line asks for.
pub proof fn law_no_line_asks_for_more(workspaces: Seq<SidebarWorkspace>, most: nat)
    requires
        forall|i: int|
            0 <= i < workspaces.len() ==> {
                let ws = #[trigger] workspaces[i];
                &&& 6 + text::decimal((i + 1) as nat).len() + text::byte_len(ws.name@) <= most
                &&& ws.branch is Some ==> 3 + text::byte_len(ws.branch->0@) <= most
                &&& forall|k: int|
                    0 <= k < ws.agents@.len() ==> 3 + text::byte_len(
                        (#[trigger] ws.agents@[k]).label@,
                    ) <= most && 2 + text::byte_len(
                        label_of(ws.agents@[k].state, ws.agents@[k].seen),
                    ) <= most
            },
    ensures
        longest_line(workspaces) <= most,
    decreases workspaces.len(),
{
    if workspaces.len() > 0 {
        let last = workspaces[workspaces.len() - 1];
        lemma_agent_lines_reach(last.agents@, most);
        let rest = workspaces.drop_last();
        assert forall|i: int| 0 <= i < rest.len() implies {
            let ws = #[trigger] rest[i];
            &&& 6 + text::decimal((i + 1) as nat).len() + text::byte_len(ws.name@) <= most
            &&& ws.branch is Some ==> 3 + text::byte_len(ws.branch->0@) <= most
            &&& forall|k: int|
                0 <= k < ws.agents@.len() ==> 3 + text::byte_len(
                    (#[trigger] ws.agents@[k]).label@,
                ) <= most && 2 + text::byte_len(label_of(ws.agents@[k].state, ws.agents@[k].seen))
                    <= most
        } by {
            assert(rest[i] == workspaces[i]);
        }
        law_no_line_asks_for_more(rest, most);
    }
}

/// The sidebar is two cells wider than its longest line, from eighteen cells to
/// thirty-six; an empty one keeps the width it had, within these bounds.
pub proof fn law_the_sidebar_follows_its_longest_line(
    workspaces: Vec<SidebarWorkspace>,
    sidebar_width: u16,
    width: u16,
)
    requires
        call_ensures(compute_sidebar_width, (&workspaces, sidebar_width), width),
        longest_line(workspaces@) < u16::MAX - 2,
    ensures
        18 <= width <= 36,
        workspaces@.len() == 0 && 18 <= sidebar_width <= 36 ==> width == sidebar_width,
        workspaces@.len() == 0 && sidebar_width > 36 ==> width == 36,
        workspaces@.len() > 0 && 16 <= longest_line(workspaces@) <= 34 ==> width == longest_line(
            workspaces@,
        ) + 2,
        workspaces@.len() > 0 && longest_line(workspaces@) > 34 ==> width == 36,
{
}

} // verus!
