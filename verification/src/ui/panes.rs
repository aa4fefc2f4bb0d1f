//! The panes of the active tab.

use vstd::prelude::*;

use crate::geometry;
use crate::geometry::Rect;
use crate::ui::plan;
use crate::ui::plan::{
    bold, ink, ink_on, plain, Align, Color, Line, Op, OpView, Palette, Plan, SpanView,
};
use crate::ui::scrollbar;
use crate::ui::scrollbar::{ScrollMetrics, ScrollbarThumb};

verus! {

/// Where a pane stands.
#[derive(Debug, Clone, Copy, PartialEq, Eq, Structural)]
pub struct PaneInfo {
    pub id: u64,
    pub rect: Rect,
    /// Where its terminal stands.
    pub inner_rect: Rect,
    pub scrollbar_rect: Option<Rect>,
    pub is_focused: bool,
}

/// The column of the scrollbar of a pane.
pub fn pane_scrollbar_rect(info: &PaneInfo) -> (track: Option<Rect>)
    ensures
        track == info.scrollbar_rect,
{
    info.scrollbar_rect
}

/// What is known of a pane with a running program.
#[derive(Debug, Clone, Copy, PartialEq, Eq, Structural)]
pub struct LivePane {
    pub id: u64,
    pub metrics: Option<ScrollMetrics>,
    /// The thumb of its scrollbar.
    pub thumb: Option<ScrollbarThumb>,
}

/// The first pane with a running program of an id.
pub open spec fn live_pane(live: Seq<LivePane>, id: u64) -> Option<LivePane>
    decreases live.len(),
{
    if live.len() == 0 {
        None
    } else if live[0].id == id {
        Some(live[0])
    } else {
        live_pane(live.drop_first(), id)
    }
}

fn find_live(live: &Vec<LivePane>, id: u64) -> (found: Option<LivePane>)
    ensures
        found == live_pane(live@, id),
{
    let mut i: usize = 0;
    assert(live@.skip(0) =~= live@);
    while i < live.len()
        invariant
            i <= live@.len(),
            live_pane(live@, id) == live_pane(live@.skip(i as int), id),
        decreases live@.len() - i,
    {
        assert(live@.skip(i as int)[0] == live@[i as int]);
        assert(live@.skip(i as int).drop_first() =~= live@.skip(i + 1));
        if live[i].id == id {
            return Some(live[i]);
        }
        i = i + 1;
    }
    None
}

/// Where the scrollbar of a pane goes.
#[derive(Debug, Clone, Copy, PartialEq, Eq, Structural)]
pub enum Gutter {
    /// Into a column that the terminal gives up.
    Reserved,
    /// Over the last column of the terminal.
    Overlaid,
}

/// The active tab, as its panes are laid out.
#[derive(Debug)]
pub struct PaneScene {
    pub zoomed: bool,
    pub focused: u64,
    /// The panes in the tiling of the terminal area.
    pub tiles: Vec<PaneInfo>,
    pub live: Vec<LivePane>,
    pub gutter: Gutter,
    /// Whether programs are told their new sizes.
    pub resize: bool,
}

/// A program that is told its size.
#[derive(Debug, Clone, Copy, PartialEq, Eq, Structural)]
pub struct PaneResize {
    pub id: u64,
    pub rows: u16,
    pub cols: u16,
}

/// Whether a pane has a scrollbar.
pub open spec fn has_scrollbar(live: Option<LivePane>, outer: Rect, gutter: Gutter) -> bool {
    match live {
        Some(live) => match live.metrics {
            Some(metrics) => scrollbar::scrolls(metrics) && outer.width > match gutter {
                Gutter::Reserved => 1int,
                Gutter::Overlaid => 0int,
            },
            None => false,
        },
        None => false,
    }
}

/// Where the terminal of a pane and its scrollbar stand in a rectangle.
pub open spec fn placed(
    info: PaneInfo,
    outer: Rect,
    live: Option<LivePane>,
    gutter: Gutter,
) -> PaneInfo {
    if has_scrollbar(live, outer, gutter) {
        PaneInfo {
            inner_rect: match gutter {
                Gutter::Reserved => Rect { width: (outer.width - 1) as u16, ..outer },
                Gutter::Overlaid => outer,
            },
            scrollbar_rect: Some(scrollbar::last_column(outer)),
            ..info
        }
    } else {
        PaneInfo { inner_rect: outer, scrollbar_rect: None, ..info }
    }
}

fn place(info: PaneInfo, outer: Rect, live: Option<LivePane>, gutter: Gutter) -> (out: PaneInfo)
    requires
        outer.wf(),
    ensures
        out == placed(info, outer, live, gutter),
        out.inner_rect.wf(),
        out.inner_rect.within(outer),
{
    let mut inner = outer;
    let mut track: Option<Rect> = None;
    if let Some(live) = live {
        if let Some(metrics) = live.metrics {
            let least: u16 = match gutter {
                Gutter::Reserved => 1,
                Gutter::Overlaid => 0,
            };
            if scrollbar::should_show_scrollbar(metrics) && outer.width > least {
                track = Some(Rect::new(outer.x + (outer.width - 1), outer.y, 1, outer.height));
                match gutter {
                    Gutter::Reserved => {
                        inner.width = outer.width - 1;
                    },
                    Gutter::Overlaid => {},
                }
            }
        }
    }
    PaneInfo {
        id: info.id,
        rect: info.rect,
        inner_rect: inner,
        scrollbar_rect: track,
        is_focused: info.is_focused,
    }
}

/// The rectangle of a tile without its frame, which only several panes have.
pub open spec fn tile_inner(tiles: Seq<PaneInfo>, i: int, area: Rect) -> Rect {
    if tiles.len() > 1 {
        tiles[i].rect.framed()
    } else {
        area
    }
}

/// Where the panes stand.
pub open spec fn pane_infos(scene: PaneScene, area: Rect) -> Seq<PaneInfo> {
    if scene.zoomed {
        seq![
            placed(
                PaneInfo {
                    id: scene.focused,
                    rect: area,
                    inner_rect: area,
                    scrollbar_rect: None,
                    is_focused: true,
                },
                area,
                live_pane(scene.live@, scene.focused),
                scene.gutter,
            ),
        ]
    } else {
        Seq::new(
            scene.tiles@.len(),
            |i: int|
                placed(
                    scene.tiles@[i],
                    tile_inner(scene.tiles@, i, area),
                    live_pane(scene.live@, scene.tiles@[i].id),
                    scene.gutter,
                ),
        )
    }
}

/// The programs that are told their sizes, of the first panes.
pub open spec fn pane_resizes(scene: PaneScene, infos: Seq<PaneInfo>, n: int) -> Seq<PaneResize>
    decreases n,
{
    if n <= 0 || !scene.resize {
        Seq::empty()
    } else if live_pane(scene.live@, infos[n - 1].id) is Some {
        pane_resizes(scene, infos, n - 1).push(
            PaneResize {
                id: infos[n - 1].id,
                rows: infos[n - 1].inner_rect.height,
                cols: infos[n - 1].inner_rect.width,
            },
        )
    } else {
        pane_resizes(scene, infos, n - 1)
    }
}

/// Find where the panes of the active tab stand, and which programs are told
/// their sizes. A zoomed pane takes the whole area; a single one has no frame.
/// Without a workspace there are none.
pub fn compute_pane_infos(scene: Option<&PaneScene>, area: Rect) -> (laid_out: (
    Vec<PaneInfo>,
    Vec<PaneResize>,
))
    requires
        area.wf(),
        scene matches Some(scene) ==> forall|i: int|
            0 <= i < scene.tiles@.len() ==> (#[trigger] scene.tiles@[i]).rect.wf(),
    ensures
        match scene {
            Some(scene) => {
                &&& laid_out.0@ == pane_infos(*scene, area)
                &&& laid_out.1@ == pane_resizes(
                    *scene,
                    laid_out.0@,
                    laid_out.0@.len() as int,
                )
            },
            None => laid_out.0@.len() == 0 && laid_out.1@.len() == 0,
        },
{
    let mut infos: Vec<PaneInfo> = Vec::new();
    let mut resizes: Vec<PaneResize> = Vec::new();
    let scene = match scene {
        Some(scene) => scene,
        None => {
            return (infos, resizes);
        },
    };
    if scene.zoomed {
        let live = find_live(&scene.live, scene.focused);
        let info = place(
            PaneInfo {
                id: scene.focused,
                rect: area,
                inner_rect: area,
                scrollbar_rect: None,
                is_focused: true,
            },
            area,
            live,
            scene.gutter,
        );
        infos.push(info);
        if scene.resize && live.is_some() {
            resizes.push(
                PaneResize {
                    id: info.id,
                    rows: info.inner_rect.height,
                    cols: info.inner_rect.width,
                },
            );
        }
        proof {
            reveal_with_fuel(pane_resizes, 2);
            assert(infos@ =~= pane_infos(*scene, area));
            assert(resizes@ =~= pane_resizes(*scene, infos@, 1));
        }
        return (infos, resizes);
    }
    let multi = scene.tiles.len() > 1;
    let mut i: usize = 0;
    let ghost all = pane_infos(*scene, area);
    while i < scene.tiles.len()
        invariant
            area.wf(),
            !scene.zoomed,
            multi == (scene.tiles@.len() > 1),
            forall|k: int| 0 <= k < scene.tiles@.len() ==> (#[trigger] scene.tiles@[k]).rect.wf(),
            i <= scene.tiles@.len(),
            all == pane_infos(*scene, area),
            infos@ == all.take(i as int),
            resizes@ == pane_resizes(*scene, all, i as int),
        decreases scene.tiles@.len() - i,
    {
        let tile = scene.tiles[i];
        let outer = if multi {
            tile.rect.inner()
        } else {
            area
        };
        let live = find_live(&scene.live, tile.id);
        let info = place(tile, outer, live, scene.gutter);
        assert(info == all[i as int]);
        infos.push(info);
        if scene.resize && live.is_some() {
            resizes.push(
                PaneResize {
                    id: info.id,
                    rows: info.inner_rect.height,
                    cols: info.inner_rect.width,
                },
            );
        }
        i = i + 1;
        assert(infos@ =~= all.take(i as int));
    }
    assert(infos@ =~= all);
    (infos, resizes)
}

/// What is drawn of the panes.
#[derive(Debug)]
pub struct PaneView {
    pub infos: Vec<PaneInfo>,
    pub live: Vec<LivePane>,
    /// Whether the tab has several panes.
    pub multi_pane: bool,
    /// Whether keys go to the terminal.
    pub terminal_active: bool,
    /// The pane with a visible selection.
    pub selection: Option<u64>,
    pub palette: Palette,
    /// The colour of text on strong colours.
    pub contrast: Color,
}

/// Drawing the scrollbar of a pane.
pub open spec fn pane_scrollbar_plan(info: PaneInfo, live: LivePane, p: Palette) -> Seq<OpView> {
    match (live.metrics, info.scrollbar_rect) {
        (Some(metrics), Some(track)) => if info.is_focused {
            scrollbar::scrollbar_plan(metrics, track, live.thumb, p.overlay0, p.overlay1, "▐"@)
        } else {
            scrollbar::scrollbar_plan(metrics, track, live.thumb, p.surface_dim, p.overlay0, "▕"@)
        },
        _ => plan::idle(),
    }
}

/// Draw the scrollbar of a pane.
pub fn render_pane_scrollbar(info: &PaneInfo, live: &LivePane, p: &Palette) -> (drawn: Plan)
    ensures
        drawn@ == pane_scrollbar_plan(*info, *live, *p),
{
    if let Some(metrics) = live.metrics {
        if let Some(track) = pane_scrollbar_rect(info) {
            return if info.is_focused {
                scrollbar::render_scrollbar(
                    metrics,
                    track,
                    live.thumb,
                    p.overlay0,
                    p.overlay1,
                    "▐",
                )
            } else {
                scrollbar::render_scrollbar(
                    metrics,
                    track,
                    live.thumb,
                    p.surface_dim,
                    p.overlay0,
                    "▕",
                )
            };
        }
    }
    Plan::new()
}

/// Drawing a pane: its frame among others, its terminal, its scrollbar, darker
/// while another is focused and keys do not go to the terminal, and its
/// selection.
pub open spec fn pane_plan(view: PaneView, info: PaneInfo, live: LivePane) -> Seq<OpView> {
    let p = view.palette;
    let framed = if view.multi_pane {
        plan::idle().push(
            OpView::Frame {
                rect: info.rect,
                ink: if info.is_focused {
                    p.accent
                } else {
                    p.overlay0
                },
                thick: info.is_focused && view.terminal_active,
                paper: None,
            },
        )
    } else {
        plan::idle()
    };
    let filled = framed.push(
        OpView::Terminal {
            pane_id: info.id,
            rect: info.inner_rect,
            cursor: info.is_focused && view.terminal_active,
        },
    ) + pane_scrollbar_plan(info, live, p);
    let darkened = if !info.is_focused && view.multi_pane && !view.terminal_active {
        filled.push(OpView::Darken(info.inner_rect))
    } else {
        filled
    };
    if view.selection == Some(info.id) {
        darkened.push(
            OpView::Highlight {
                pane_id: info.id,
                rect: info.inner_rect,
                style: ink_on(view.contrast, p.blue),
            },
        )
    } else {
        darkened
    }
}

/// Drawing the first panes; those without a running program show nothing.
pub open spec fn panes_plan(view: PaneView, n: int) -> Seq<OpView>
    decreases n,
{
    if n <= 0 {
        plan::idle()
    } else {
        match live_pane(view.live@, view.infos@[n - 1].id) {
            Some(live) => panes_plan(view, n - 1) + pane_plan(view, view.infos@[n - 1], live),
            None => panes_plan(view, n - 1),
        }
    }
}

fn render_pane(view: &PaneView, info: &PaneInfo, live: &LivePane) -> (drawn: Plan)
    ensures
        drawn@ == pane_plan(*view, *info, *live),
{
    let p = &view.palette;
    let mut drawn = Plan::new();
    let entered = info.is_focused && view.terminal_active;
    if view.multi_pane {
        let color = if info.is_focused {
            p.accent
        } else {
            p.overlay0
        };
        drawn.push(Op::Frame { rect: info.rect, ink: color, thick: entered, paper: None });
    }
    drawn.push(Op::Terminal { pane_id: info.id, rect: info.inner_rect, cursor: entered });
    drawn.append(render_pane_scrollbar(info, live, p));
    if !info.is_focused && view.multi_pane && !view.terminal_active {
        drawn.push(Op::Darken(info.inner_rect));
    }
    render_selection_highlight(&mut drawn, view, info);
    drawn
}

fn render_selection_highlight(drawn: &mut Plan, view: &PaneView, info: &PaneInfo)
    ensures
        final(drawn)@ == if view.selection == Some(info.id) {
            old(drawn)@.push(
                OpView::Highlight {
                    pane_id: info.id,
                    rect: info.inner_rect,
                    style: ink_on(view.contrast, view.palette.blue),
                },
            )
        } else {
            old(drawn)@
        },
{
    if let Some(pane_id) = view.selection {
        if pane_id == info.id {
            drawn.push(
                Op::Highlight {
                    pane_id,
                    rect: info.inner_rect,
                    style: ink_on(view.contrast, view.palette.blue),
                },
            );
        }
    }
}

/// Draw the panes. Without a workspace, draw how to open one.
pub fn render_panes(
    view: Option<&PaneView>,
    new_workspace_label: &str,
    area: Rect,
    p: &Palette,
) -> (drawn: Plan)
    ensures
        drawn@ == match view {
            Some(view) => panes_plan(*view, view.infos@.len() as int),
            None => empty_plan(new_workspace_label@, area, *p),
        },
{
    let view = match view {
        Some(view) => view,
        None => {
            return render_empty(new_workspace_label, area, p);
        },
    };
    let mut drawn = Plan::new();
    let mut i: usize = 0;
    while i < view.infos.len()
        invariant
            i <= view.infos@.len(),
            drawn@ == panes_plan(*view, i as int),
        decreases view.infos@.len() - i,
    {
        let info = view.infos[i];
        if let Some(live) = find_live(&view.live, info.id) {
            drawn.append(render_pane(view, &info, &live));
        }
        i = i + 1;
    }
    drawn
}

/// The text of an empty session.
pub open spec fn empty_lines(new_workspace_label: Seq<char>, p: Palette) -> Seq<Seq<SpanView>> {
    seq![
        plan::blank(),
        plan::blank(),
        plan::blank().push(plan::span("  No workspaces yet"@, ink(p.overlay0))),
        plan::blank(),
        plan::blank().push(
            plan::span("  A workspace is one project context."@, ink(p.overlay1)),
        ),
        plan::blank().push(
            plan::span(
                "  Its root pane (top-left) sets the default repo or folder name."@,
                ink(p.overlay1),
            ),
        ),
        plan::blank(),
        plan::blank().push(plan::span("  Press "@, ink(p.overlay0))).push(
            plan::span(new_workspace_label, bold(ink(p.accent))),
        ).push(plan::span(" to create one"@, ink(p.overlay0))),
    ]
}

/// Drawing an empty session.
pub open spec fn empty_plan(new_workspace_label: Seq<char>, area: Rect, p: Palette) -> Seq<OpView> {
    plan::idle().push(
        OpView::Frame { rect: area, ink: p.surface_dim, thick: false, paper: None },
    ).push(
        OpView::Text {
            rect: area.framed(),
            lines: empty_lines(new_workspace_label, p),
            style: plain(),
            align: Align::Left,
            wrap: false,
            scroll: 0,
        },
    )
}

/// Draw an empty session: how to open a workspace.
pub fn render_empty(new_workspace_label: &str, area: Rect, p: &Palette) -> (drawn: Plan)
    ensures
        drawn@ == empty_plan(new_workspace_label@, area, *p),
{
    let mut drawn = Plan::new();
    drawn.push(Op::Frame { rect: area, ink: p.surface_dim, thick: false, paper: None });
    let mut lines: Vec<Line> = Vec::new();
    lines.push(Line::new());
    lines.push(Line::new());
    lines.push(Line::of("  No workspaces yet", ink(p.overlay0)));
    lines.push(Line::new());
    lines.push(Line::of("  A workspace is one project context.", ink(p.overlay1)));
    lines.push(
        Line::of(
            "  Its root pane (top-left) sets the default repo or folder name.",
            ink(p.overlay1),
        ),
    );
    lines.push(Line::new());
    lines.push(
        Line::of("  Press ", ink(p.overlay0)).with(
            new_workspace_label,
            bold(ink(p.accent)),
        ).with(" to create one", ink(p.overlay0)),
    );
    assert(plan::lines_view(lines@) =~= empty_lines(new_workspace_label@, *p));
    drawn.push(
        Op::Text {
            rect: area.inner(),
            lines,
            style: plain(),
            align: Align::Left,
            wrap: false,
            scroll: 0,
        },
    );
    drawn
}

/// Of several records of a pane the first counts.
pub proof fn law_the_first_live_record_counts(live: Seq<LivePane>, id: u64, at: int)
    requires
        0 <= at < live.len(),
        live[at].id == id,
        forall|j: int| 0 <= j < at ==> (#[trigger] live[j]).id != id,
    ensures
        live_pane(live, id) == Some(live[at]),
    decreases live.len(),
{
    if at > 0 {
        assert(live[0].id != id);
        let rest = live.drop_first();
        assert forall|j: int| 0 <= j < at - 1 implies (#[trigger] rest[j]).id != id by {
            assert(rest[j] == live[j + 1]);
        }
        law_the_first_live_record_counts(rest, id, at - 1);
    }
}

/// Every tile is a pane, in its place and with its focus. Several panes have
/// frames around their terminals; a single one has none. A terminal that scrolls
/// gives its last column to the scrollbar, or is drawn under it.
pub proof fn law_panes_stand_in_their_tiles(scene: PaneScene, area: Rect, i: int)
    requires
        !scene.zoomed,
        0 <= i < scene.tiles@.len(),
    ensures
        ({
            let infos = pane_infos(scene, area);
            let info = infos[i];
            let tile = scene.tiles@[i];
            let outer = if scene.tiles@.len() > 1 {
                tile.rect.framed()
            } else {
                area
            };
            let live = live_pane(scene.live@, tile.id);
            let scrolls = live is Some && live->0.metrics is Some
                && live->0.metrics->0.max_offset_from_bottom > 0;
            &&& infos.len() == scene.tiles@.len()
            &&& info.id == tile.id && info.rect == tile.rect && info.is_focused == tile.is_focused
            &&& info.inner_rect.x == outer.x && info.inner_rect.y == outer.y
            &&& info.inner_rect.height == outer.height
            &&& !scrolls ==> info.inner_rect == outer && info.scrollbar_rect is None
            &&& scrolls && outer.width > 1 && scene.gutter is Reserved ==> info.inner_rect.width
                == outer.width - 1 && info.scrollbar_rect is Some
            &&& scrolls && outer.width > 0 && scene.gutter is Overlaid ==> info.inner_rect == outer
                && info.scrollbar_rect is Some
            &&& outer.wf() && info.scrollbar_rect is Some ==> {
                let track = info.scrollbar_rect->0;
                &&& track.x + 1 == outer.x + outer.width && track.width == 1
                &&& track.y == outer.y && track.height == outer.height
            }
        }),
{
}

/// A zoomed tab shows its focused pane alone, over the whole area.
pub proof fn law_a_zoomed_pane_is_alone(scene: PaneScene, area: Rect)
    requires
        scene.zoomed,
    ensures
        pane_infos(scene, area).len() == 1,
        pane_infos(scene, area)[0].id == scene.focused,
        pane_infos(scene, area)[0].rect == area,
        pane_infos(scene, area)[0].is_focused,
{
}

/// While programs are told their sizes, each pane with a running program is told
/// the size of its terminal, in order; otherwise none is.
pub proof fn law_programs_are_told_their_sizes(scene: PaneScene, infos: Seq<PaneInfo>, n: int)
    requires
        0 <= n < infos.len(),
    ensures
        ({
            let before = pane_resizes(scene, infos, n);
            let after = pane_resizes(scene, infos, n + 1);
            let runs = live_pane(scene.live@, infos[n].id) is Some;
            &&& scene.resize && runs ==> after.len() == before.len() + 1 && after.drop_last()
                == before && after.last().id == infos[n].id && after.last().rows
                == infos[n].inner_rect.height && after.last().cols == infos[n].inner_rect.width
            &&& scene.resize && !runs ==> after == before
            &&& !scene.resize ==> after.len() == 0
            &&& pane_resizes(scene, infos, 0).len() == 0
        }),
{
}

/// A pane is drawn as its frame, among others, then its terminal in its own
/// rectangle; the cursor shows only in the focused pane while keys go to it. The
/// frame of the focused pane stands out. A pane out of focus is darkened while
/// keys do not go to the terminal, and a selection is drawn over it last.
pub proof fn law_a_pane_is_drawn_with_its_frame(view: PaneView, info: PaneInfo, live: LivePane)
    ensures
        ({
            let ops = pane_plan(view, info, live);
            let framed = if view.multi_pane {
                1int
            } else {
                0int
            };
            let entered = info.is_focused && view.terminal_active;
            let dark = !info.is_focused && view.multi_pane && !view.terminal_active;
            let selected = view.selection == Some(info.id);
            &&& view.multi_pane ==> ops[0] is Frame && ops[0]->Frame_rect == info.rect
                && ops[0]->Frame_thick == entered && ops[0]->Frame_ink == if info.is_focused {
                view.palette.accent
            } else {
                view.palette.overlay0
            }
            &&& ops.len() > framed
            &&& ops[framed] == (OpView::Terminal {
                pane_id: info.id,
                rect: info.inner_rect,
                cursor: entered,
            })
            &&& selected ==> ops.last() is Highlight && ops.last()->Highlight_pane_id == info.id
                && ops.last()->Highlight_rect == info.inner_rect
            &&& dark && !selected ==> ops.last() == OpView::Darken(info.inner_rect)
            &&& dark && selected ==> ops[ops.len() - 2] == OpView::Darken(info.inner_rect)
            &&& live.metrics is None || info.scrollbar_rect is None ==> ops.len() == framed + 1 + (
            if dark {
                1int
            } else {
                0int
            }) + (if selected {
                1int
            } else {
                0int
            })
        }),
{
}

/// The panes are drawn one after the other; one without a running program shows
/// nothing.
pub proof fn law_panes_are_drawn_in_turn(view: PaneView, n: int)
    requires
        0 <= n < view.infos@.len(),
    ensures
        ({
            let live = live_pane(view.live@, view.infos@[n].id);
            &&& live is Some ==> panes_plan(view, n + 1) == panes_plan(view, n) + pane_plan(
                view,
                view.infos@[n],
                live->0,
            )
            &&& live is None ==> panes_plan(view, n + 1) == panes_plan(view, n)
            &&& panes_plan(view, 0).len() == 0
        }),
{
}

/// The scrollbar of a pane is drawn where it has one, brighter while the pane is
/// focused.
pub proof fn law_focused_scrollbars_are_brighter(
    info: PaneInfo,
    live: LivePane,
    p: Palette,
    metrics: ScrollMetrics,
    track: Rect,
    thumb: ScrollbarThumb,
)
    requires
        live.metrics == Some(metrics),
        live.thumb == Some(thumb),
        info.scrollbar_rect == Some(track),
        metrics.max_offset_from_bottom > 0,
    ensures
        ({
            let ops = pane_scrollbar_plan(info, live, p);
            &&& ops.len() == 2 && ops[0] is Fill && ops[1] is Fill
            &&& ops[0]->Fill_rect.x == track.x && ops[1]->Fill_rect.x == track.x
            &&& ops[1]->Fill_rect.y == thumb.top && ops[1]->Fill_rect.height == thumb.len
            &&& info.is_focused ==> ops[0]->Fill_style.fg == Some(p.overlay0)
                && ops[1]->Fill_style.fg == Some(p.overlay1)
            &&& !info.is_focused ==> ops[0]->Fill_style.fg == Some(p.surface_dim)
                && ops[1]->Fill_style.fg == Some(p.overlay0)
        }),
{
}

/// An empty session says which key opens a workspace.
pub proof fn law_an_empty_session_names_the_key(
    new_workspace_label: Seq<char>,
    area: Rect,
    p: Palette,
)
    ensures
        ({
            let ops = empty_plan(new_workspace_label, area, p);
            let said = ops[1]->Text_lines;
            &&& ops.len() == 2 && ops[0] is Frame && ops[1] is Text
            &&& ops[0]->Frame_rect == area && ops[1]->Text_rect == area.framed()
            &&& said.len() == 8
            &&& said[2].len() == 1 && said[2][0].text == "  No workspaces yet"@
            &&& said[7].len() == 3 && said[7][0].text == "  Press "@
            &&& said[7][1].text == new_workspace_label && said[7][1].style.bold
            &&& said[7][2].text == " to create one"@
        }),
{
}

} // verus!
