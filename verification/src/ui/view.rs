//! Where the parts of the screen stand, and in which order they are drawn.

use vstd::prelude::*;

use crate::geometry;
use crate::geometry::{Direction, Extent, Rect};
use crate::ui::panes;
use crate::ui::panes::{PaneInfo, PaneResize, PaneScene};
use crate::ui::sidebar;
use crate::ui::sidebar::{SidebarWorkspace, WorkspaceCardArea};
use crate::ui::tabs;

verus! {

/// What the layout of the screen depends on.
#[derive(Debug)]
pub struct Screen {
    pub sidebar_collapsed: bool,
    /// Whether the sidebar is as wide as what it shows.
    pub sidebar_width_auto: bool,
    pub sidebar_width: u16,
    pub workspaces: Vec<SidebarWorkspace>,
    pub workspace_scroll: usize,
    /// The tabs of the active workspace.
    pub tab_names: Option<Vec<String>>,
}

/// Where the parts of the screen stand.
#[derive(Debug)]
pub struct ViewState {
    pub sidebar_rect: Rect,
    /// How far the list of workspaces is scrolled, at most to the last one.
    pub workspace_scroll: usize,
    pub workspace_card_areas: Vec<WorkspaceCardArea>,
    pub tab_bar_rect: Rect,
    pub tab_hit_areas: Vec<Rect>,
    pub new_tab_hit_area: Rect,
    pub terminal_area: Rect,
}

/// The width of the sidebar.
pub open spec fn sidebar_columns(screen: Screen) -> u16 {
    if screen.sidebar_collapsed {
        sidebar::COLLAPSED_WIDTH
    } else if screen.sidebar_width_auto && screen.workspaces@.len() > 0 {
        sidebar::bounded_width((sidebar::longest_line(screen.workspaces@) as u16) + 2)
    } else {
        sidebar::bounded_width(screen.sidebar_width as int)
    }
}

/// The columns of the sidebar on a screen: its width, but a column is left beside
/// it.
pub open spec fn sidebar_share(screen: Screen, area: Rect) -> int {
    geometry::least(sidebar_columns(screen) as int, geometry::less(area.width as int, 1))
}

/// The columns of the screen: the sidebar, and what is left beside it.
pub open spec fn columns_of(screen: Screen, area: Rect) -> Seq<Rect> {
    let share = sidebar_share(screen, area);
    seq![
        Rect { width: share as u16, ..area },
        Rect { x: (area.x + share) as u16, width: (area.width - share) as u16, ..area },
    ]
}

/// The rows beside the sidebar: the tab bar, and what is left below it.
pub open spec fn main_rows(main: Rect) -> Seq<Rect> {
    seq![
        Rect { height: 1, ..main },
        Rect { y: (main.y + 1) as u16, height: (main.height - 1) as u16, ..main },
    ]
}

/// Whether there is a tab bar.
pub open spec fn has_tab_bar(screen: Screen, main: Rect) -> bool {
    screen.tab_names is Some && main.height > 1
}

/// The place from which the list of workspaces is shown.
pub open spec fn list_scroll(screen: Screen) -> int {
    geometry::least(
        screen.workspace_scroll as int,
        geometry::less(screen.workspaces@.len() as int, 1),
    )
}

/// Whether the parts of the screen stand where these columns and rows put them.
pub open spec fn stands(
    screen: Screen,
    columns: Seq<Rect>,
    rows: Seq<Rect>,
    view: ViewState,
) -> bool {
    &&& view.sidebar_rect == columns[0]
    &&& view.tab_bar_rect == if has_tab_bar(screen, columns[1]) {
        rows[0]
    } else {
        geometry::nowhere()
    }
    &&& view.terminal_area == if has_tab_bar(screen, columns[1]) {
        rows[1]
    } else {
        columns[1]
    }
    &&& view.workspace_scroll == list_scroll(screen)
    &&& view.workspace_card_areas@ == if screen.sidebar_collapsed {
        Seq::empty()
    } else {
        sidebar::card_areas(screen.workspaces@, list_scroll(screen), columns[0])
    }
    &&& view.tab_hit_areas@ == match screen.tab_names {
        Some(names) => tabs::tab_areas(names@, view.tab_bar_rect),
        None => Seq::empty(),
    }
    &&& view.new_tab_hit_area == tabs::new_tab_area(view.tab_hit_areas@, view.tab_bar_rect)
}

/// Place the parts of the screen in its columns and rows.
pub fn view_from_parts(screen: &Screen, columns: &Vec<Rect>, rows: &Vec<Rect>) -> (view: ViewState)
    requires
        columns@.len() == 2,
        columns@[0].wf(),
        has_tab_bar(*screen, columns@[1]) ==> rows@.len() == 2 && rows@[0].wf(),
    ensures
        stands(*screen, columns@, rows@, view),
{
    let sidebar_rect = columns[0];
    let main = columns[1];
    let (tab_bar_rect, terminal_area) = if screen.tab_names.is_some() && main.height > 1 {
        (rows[0], rows[1])
    } else {
        (Rect::nowhere(), main)
    };
    let last: usize = screen.workspaces.len().saturating_sub(1);
    let scroll: usize = if screen.workspace_scroll < last {
        screen.workspace_scroll
    } else {
        last
    };
    let cards: Vec<WorkspaceCardArea> = if screen.sidebar_collapsed {
        Vec::new()
    } else {
        sidebar::compute_workspace_card_areas(&screen.workspaces, scroll, sidebar_rect)
    };
    let hit_areas: Vec<Rect> = match &screen.tab_names {
        Some(names) => tabs::compute_tab_hit_areas(names, tab_bar_rect),
        None => Vec::new(),
    };
    proof {
        if screen.tab_names is Some {
            tabs::lemma_tabs(screen.tab_names->0@, tab_bar_rect, tab_bar_rect.x as int);
        }
    }
    let new_tab = tabs::compute_new_tab_hit_area(&hit_areas, tab_bar_rect);
    ViewState {
        sidebar_rect,
        workspace_scroll: scroll,
        workspace_card_areas: cards,
        tab_bar_rect,
        tab_hit_areas: hit_areas,
        new_tab_hit_area: new_tab,
        terminal_area,
    }
}

/// The width of the sidebar.
pub fn sidebar_width(screen: &Screen) -> (width: u16)
    requires
        screen.sidebar_width_auto && !screen.sidebar_collapsed ==> (sidebar::longest_line(
            screen.workspaces@,
        ) as u16) + 2 <= u16::MAX,
    ensures
        width == sidebar_columns(*screen),
{
    if screen.sidebar_collapsed {
        sidebar::COLLAPSED_WIDTH
    } else if screen.sidebar_width_auto {
        sidebar::compute_sidebar_width(&screen.workspaces, screen.sidebar_width)
    } else {
        sidebar::bounded_sidebar_width(screen.sidebar_width)
    }
}

/// Divide an area into a part of a length and one with what is left, at least one
/// cell, which comes before the length.
fn divide_in_two(area: Rect, direction: Direction, length: u16) -> (parts: Vec<Rect>)
    requires
        area.wf(),
    ensures
        parts@.len() == 2,
        ({
            let first = geometry::least(
                length as int,
                geometry::less(area.span(direction), 1),
            );
            match direction {
                Direction::Horizontal => {
                    &&& parts@[0] == (Rect { width: first as u16, ..area })
                    &&& parts@[1] == (Rect {
                        x: (area.x + first) as u16,
                        width: (area.width - first) as u16,
                        ..area
                    })
                },
                Direction::Vertical => {
                    &&& parts@[0] == (Rect { height: first as u16, ..area })
                    &&& parts@[1] == (Rect {
                        y: (area.y + first) as u16,
                        height: (area.height - first) as u16,
                        ..area
                    })
                },
            }
        }),
{
    let mut extents: Vec<Extent> = Vec::new();
    extents.push(Extent::Length(length));
    extents.push(Extent::Min(1));
    let parts = geometry::split(area, direction, &extents);
    proof {
        let asked = seq![Extent::Length(length), Extent::Min(1)];
        let size = area.span(direction);
        assert(extents@ =~= asked);
        reveal_with_fuel(geometry::total, 3);
        reveal_with_fuel(geometry::start, 3);
        assert(asked.drop_last().drop_last().len() == 0);
        assert(geometry::total(asked) == length + 1);
        assert(asked[0] is Length && asked[1] is Min);
        if length + 1 <= size {
            assert(geometry::fits(asked, size));
            assert(geometry::start(asked, size, 0) == 0);
            assert(geometry::start(asked, size, 1) == length);
        } else {
            assert(geometry::crowded(asked, size));
            assert(geometry::shared(area, direction, asked, parts@));
        }
        assert(parts@[0].within(area));
        assert(parts@[1].within(area));
    }
    parts
}

/// Place the parts of the screen: the sidebar at the left, and beside it the tab
/// bar, where a workspace is active, above the terminal.
pub fn compute_view(screen: &Screen, area: Rect) -> (view: ViewState)
    requires
        area.wf(),
        screen.sidebar_width_auto && !screen.sidebar_collapsed ==> (sidebar::longest_line(
            screen.workspaces@,
        ) as u16) + 2 <= u16::MAX,
    ensures
        stands(
            *screen,
            columns_of(*screen, area),
            main_rows(columns_of(*screen, area)[1]),
            view,
        ),
{
    let columns = divide_in_two(area, Direction::Horizontal, sidebar_width(screen));
    assert(columns@ =~= columns_of(*screen, area));
    let main = columns[1];
    let rows: Vec<Rect> = if screen.tab_names.is_some() && main.height > 1 {
        let rows = divide_in_two(main, Direction::Vertical, 1);
        assert(rows@ =~= main_rows(main));
        rows
    } else {
        Vec::new()
    };
    view_from_parts(screen, &columns, &rows)
}

/// The screen with the panes of the active tab.
#[derive(Debug)]
pub struct PanedView {
    pub view: ViewState,
    pub pane_infos: Vec<PaneInfo>,
    /// The programs that are told their sizes.
    pub resizes: Vec<PaneResize>,
}

/// Place the parts of the screen, and the panes in its terminal area. The tiles of
/// `scene` are those of that area; without a workspace there is no scene.
pub fn compute_view_with_panes(screen: &Screen, area: Rect, scene: Option<&PaneScene>) -> (paned:
    PanedView)
    requires
        area.wf(),
        screen.sidebar_width_auto && !screen.sidebar_collapsed ==> (sidebar::longest_line(
            screen.workspaces@,
        ) as u16) + 2 <= u16::MAX,
        scene matches Some(scene) ==> forall|i: int|
            0 <= i < scene.tiles@.len() ==> (#[trigger] scene.tiles@[i]).rect.wf(),
    ensures
        stands(
            *screen,
            columns_of(*screen, area),
            main_rows(columns_of(*screen, area)[1]),
            paned.view,
        ),
        match scene {
            Some(scene) => {
                &&& paned.pane_infos@ == panes::pane_infos(*scene, paned.view.terminal_area)
                &&& paned.resizes@ == panes::pane_resizes(
                    *scene,
                    paned.pane_infos@,
                    paned.pane_infos@.len() as int,
                )
            },
            None => paned.pane_infos@.len() == 0 && paned.resizes@.len() == 0,
        },
{
    let view = compute_view(screen, area);
    let (pane_infos, resizes) = panes::compute_pane_infos(scene, view.terminal_area);
    PanedView { view, pane_infos, resizes }
}

/// A zoomed pane, and a pane that is alone, has the whole terminal area of the
/// screen, less a column for its scrollbar where that has one of its own.
pub proof fn law_a_lone_pane_fills_the_terminal(scene: PaneScene, view: ViewState)
    requires
        scene.zoomed || scene.tiles@.len() == 1,
    ensures
        ({
            let infos = panes::pane_infos(scene, view.terminal_area);
            let inner = infos[0].inner_rect;
            &&& infos.len() == 1
            &&& inner.x == view.terminal_area.x
            &&& inner.y == view.terminal_area.y
            &&& inner.height == view.terminal_area.height
            &&& inner.width == view.terminal_area.width || inner.width + 1
                == view.terminal_area.width && scene.gutter == panes::Gutter::Reserved
                && infos[0].scrollbar_rect is Some
        }),
{
}

/// On every screen the sidebar begins at the left and has its width or, where the
/// screen is narrower, all but one column, and the terminal has everything beside
/// it and below the tab bar. Only a workspace on a screen of two rows has a tab
/// bar.
pub proof fn law_terminal_fills_the_rest(screen: Screen, area: Rect, view: ViewState)
    requires
        area.wf(),
        stands(
            screen,
            columns_of(screen, area),
            main_rows(columns_of(screen, area)[1]),
            view,
        ),
    ensures
        view.sidebar_rect.x == area.x,
        view.sidebar_rect.height == area.height,
        view.sidebar_rect.width == if area.width > sidebar_columns(screen) {
            sidebar_columns(screen) as int
        } else {
            geometry::less(area.width as int, 1)
        },
        view.terminal_area.x == area.x + view.sidebar_rect.width,
        view.terminal_area.width == area.width - view.sidebar_rect.width,
        area.width > 0 ==> view.terminal_area.width > 0,
        view.terminal_area.y + view.terminal_area.height == area.y + area.height,
        if screen.tab_names is Some && area.height > 1 {
            &&& view.tab_bar_rect == (Rect { y: area.y, height: 1, ..view.terminal_area })
            &&& view.terminal_area.y == area.y + 1
        } else {
            &&& view.tab_bar_rect == geometry::nowhere()
            &&& view.terminal_area.y == area.y
        },
{
}

/// The modes of the interface.
#[derive(Debug, Clone, Copy, PartialEq, Eq, Structural)]
pub enum Mode {
    Terminal,
    Onboarding,
    ReleaseNotes,
    Navigate,
    Resize,
    ConfirmClose,
    ContextMenu,
    Settings,
    RenameWorkspace,
    RenameTab,
    GlobalMenu,
    KeybindHelp,
}

/// A part of the screen that is drawn.
#[derive(Debug, Clone, Copy, PartialEq, Eq, Structural)]
pub enum Layer {
    CollapsedSidebar,
    Sidebar,
    TabBar,
    Panes,
    Onboarding,
    ReleaseNotes,
    Navigate,
    Resize,
    ConfirmClose,
    ContextMenu,
    Settings,
    Rename,
    GlobalMenu,
    KeybindHelp,
    ConfigDiagnostic,
    Toast,
}

/// What a mode draws over the panes.
pub open spec fn overlay_of(mode: Mode) -> Option<Layer> {
    match mode {
        Mode::Terminal => None,
        Mode::Onboarding => Some(Layer::Onboarding),
        Mode::ReleaseNotes => Some(Layer::ReleaseNotes),
        Mode::Navigate => Some(Layer::Navigate),
        Mode::Resize => Some(Layer::Resize),
        Mode::ConfirmClose => Some(Layer::ConfirmClose),
        Mode::ContextMenu => Some(Layer::ContextMenu),
        Mode::Settings => Some(Layer::Settings),
        Mode::RenameWorkspace => Some(Layer::Rename),
        Mode::RenameTab => Some(Layer::Rename),
        Mode::GlobalMenu => Some(Layer::GlobalMenu),
        Mode::KeybindHelp => Some(Layer::KeybindHelp),
    }
}

/// The layers of the screen, the lowest first: the sidebar, the tabs and the
/// panes, then what the mode draws, and the notices on top.
pub open spec fn layers(collapsed: bool, mode: Mode, warning: bool, toast: bool) -> Seq<Layer> {
    let base = seq![
        if collapsed {
            Layer::CollapsedSidebar
        } else {
            Layer::Sidebar
        },
        Layer::TabBar,
        Layer::Panes,
    ];
    let covered = match overlay_of(mode) {
        Some(layer) => base.push(layer),
        None => base,
    };
    let warned = if warning {
        covered.push(Layer::ConfigDiagnostic)
    } else {
        covered
    };
    if toast {
        warned.push(Layer::Toast)
    } else {
        warned
    }
}

/// The layers of the screen, the lowest first.
pub fn render(collapsed: bool, mode: Mode, warning: bool, toast: bool) -> (order: Vec<Layer>)
    ensures
        order@ == layers(collapsed, mode, warning, toast),
{
    let mut order: Vec<Layer> = Vec::new();
    order.push(
        if collapsed {
            Layer::CollapsedSidebar
        } else {
            Layer::Sidebar
        },
    );
    order.push(Layer::TabBar);
    order.push(Layer::Panes);
    assert(order@ =~= seq![
        if collapsed {
            Layer::CollapsedSidebar
        } else {
            Layer::Sidebar
        },
        Layer::TabBar,
        Layer::Panes,
    ]);
    match mode {
        Mode::Terminal => {},
        Mode::Onboarding => order.push(Layer::Onboarding),
        Mode::ReleaseNotes => order.push(Layer::ReleaseNotes),
        Mode::Navigate => order.push(Layer::Navigate),
        Mode::Resize => order.push(Layer::Resize),
        Mode::ConfirmClose => order.push(Layer::ConfirmClose),
        Mode::ContextMenu => order.push(Layer::ContextMenu),
        Mode::Settings => order.push(Layer::Settings),
        Mode::RenameWorkspace | Mode::RenameTab => order.push(Layer::Rename),
        Mode::GlobalMenu => order.push(Layer::GlobalMenu),
        Mode::KeybindHelp => order.push(Layer::KeybindHelp),
    }
    if warning {
        order.push(Layer::ConfigDiagnostic);
    }
    if toast {
        order.push(Layer::Toast);
    }
    order
}

/// The area that a layer is drawn in: the sidebar and the tabs have their own, the
/// panes and what belongs to them the terminal area, and the other dialogs the
/// whole screen. A menu stands where it was opened and is given no area.
pub open spec fn area_of(layer: Layer, view: ViewState, frame: Rect) -> Option<Rect> {
    match layer {
        Layer::CollapsedSidebar | Layer::Sidebar => Some(view.sidebar_rect),
        Layer::TabBar => Some(view.tab_bar_rect),
        Layer::Panes
        | Layer::Navigate
        | Layer::Resize
        | Layer::ConfirmClose
        | Layer::ConfigDiagnostic
        | Layer::Toast => Some(view.terminal_area),
        Layer::Onboarding
        | Layer::ReleaseNotes
        | Layer::Settings
        | Layer::Rename
        | Layer::KeybindHelp => Some(frame),
        Layer::ContextMenu | Layer::GlobalMenu => None,
    }
}

/// The area that a layer is drawn in.
pub fn layer_area(layer: Layer, view: &ViewState, frame: Rect) -> (area: Option<Rect>)
    ensures
        area == area_of(layer, *view, frame),
{
    match layer {
        Layer::CollapsedSidebar | Layer::Sidebar => Some(view.sidebar_rect),
        Layer::TabBar => Some(view.tab_bar_rect),
        Layer::Panes
        | Layer::Navigate
        | Layer::Resize
        | Layer::ConfirmClose
        | Layer::ConfigDiagnostic
        | Layer::Toast => Some(view.terminal_area),
        Layer::Onboarding
        | Layer::ReleaseNotes
        | Layer::Settings
        | Layer::Rename
        | Layer::KeybindHelp => Some(frame),
        Layer::ContextMenu | Layer::GlobalMenu => None,
    }
}

/// A layer with its area.
#[derive(Debug, Clone, Copy, PartialEq, Eq, Structural)]
pub struct LayerStep {
    pub layer: Layer,
    pub area: Option<Rect>,
    /// Whether it makes room for a configuration warning.
    pub beside_warning: bool,
}

/// A layer with its area. A toast makes room for a warning that is shown.
pub open spec fn step_of(layer: Layer, view: ViewState, frame: Rect, warning: bool) -> LayerStep {
    LayerStep {
        layer,
        area: area_of(layer, view, frame),
        beside_warning: warning && layer == Layer::Toast,
    }
}

/// The layers of the screen with their areas, the lowest first.
pub fn render_steps(
    collapsed: bool,
    mode: Mode,
    warning: bool,
    toast: bool,
    view: &ViewState,
    frame: Rect,
) -> (steps: Vec<LayerStep>)
    ensures
        steps@ == layers(collapsed, mode, warning, toast).map_values(
            |layer: Layer| step_of(layer, *view, frame, warning),
        ),
{
    let order = render(collapsed, mode, warning, toast);
    let ghost all = order@.map_values(|layer: Layer| step_of(layer, *view, frame, warning));
    let mut steps: Vec<LayerStep> = Vec::new();
    let mut i: usize = 0;
    while i < order.len()
        invariant
            i <= order@.len(),
            all == order@.map_values(|layer: Layer| step_of(layer, *view, frame, warning)),
            steps@ == all.take(i as int),
        decreases order@.len() - i,
    {
        let layer = order[i];
        steps.push(
            LayerStep {
                layer,
                area: layer_area(layer, view, frame),
                beside_warning: warning && layer == Layer::Toast,
            },
        );
        i = i + 1;
        assert(steps@ =~= all.take(i as int));
    }
    assert(steps@ =~= all);
    steps
}

/// What a mode draws is drawn over the panes, and notices over everything, the
/// toast last; the sidebar, the tabs and the panes are always drawn, in this
/// order.
pub proof fn law_layers_stand_in_order(collapsed: bool, mode: Mode, warning: bool, toast: bool)
    ensures
        ({
            let order = layers(collapsed, mode, warning, toast);
            let covers = if mode is Terminal {
                0int
            } else {
                1int
            };
            let warns = if warning {
                1int
            } else {
                0int
            };
            let toasts = if toast {
                1int
            } else {
                0int
            };
            &&& order.len() == 3 + covers + warns + toasts
            &&& collapsed ==> order[0] == Layer::CollapsedSidebar
            &&& !collapsed ==> order[0] == Layer::Sidebar
            &&& order[1] == Layer::TabBar && order[2] == Layer::Panes
            &&& mode is Onboarding ==> order[3] == Layer::Onboarding
            &&& mode is ReleaseNotes ==> order[3] == Layer::ReleaseNotes
            &&& mode is Navigate ==> order[3] == Layer::Navigate
            &&& mode is Resize ==> order[3] == Layer::Resize
            &&& mode is ConfirmClose ==> order[3] == Layer::ConfirmClose
            &&& mode is ContextMenu ==> order[3] == Layer::ContextMenu
            &&& mode is Settings ==> order[3] == Layer::Settings
            &&& mode is RenameWorkspace || mode is RenameTab ==> order[3] == Layer::Rename
            &&& mode is GlobalMenu ==> order[3] == Layer::GlobalMenu
            &&& mode is KeybindHelp ==> order[3] == Layer::KeybindHelp
            &&& warning ==> order[3 + covers] == Layer::ConfigDiagnostic
            &&& toast ==> order.last() == Layer::Toast
        }),
{
}

/// The sidebar and the tabs are drawn in their own areas; the panes, what belongs
/// to them and the notices in the terminal's; every other dialog on the whole
/// screen. Only a toast makes room for a warning.
pub proof fn law_layers_have_their_areas(
    layer: Layer,
    view: ViewState,
    frame: Rect,
    warning: bool,
)
    ensures
        ({
            let step = step_of(layer, view, frame, warning);
            &&& step.layer == layer
            &&& layer is CollapsedSidebar || layer is Sidebar ==> step.area == Some(
                view.sidebar_rect,
            )
            &&& layer is TabBar ==> step.area == Some(view.tab_bar_rect)
            &&& layer is Panes || layer is Navigate || layer is Resize || layer is ConfirmClose
                || layer is ConfigDiagnostic || layer is Toast ==> step.area == Some(
                view.terminal_area,
            )
            &&& layer is Onboarding || layer is ReleaseNotes || layer is Settings || layer is Rename
                || layer is KeybindHelp ==> step.area == Some(frame)
            &&& layer is ContextMenu || layer is GlobalMenu ==> step.area is None
            &&& step.beside_warning <==> warning && layer is Toast
        }),
{
}

/// The sidebar is as wide as was asked for, or as what it shows where it is to
/// be, within its bounds; collapsed it has four columns. The list of workspaces
/// is scrolled as asked, at most to its last one.
pub proof fn law_the_sidebar_has_its_width(screen: Screen)
    ensures
        screen.sidebar_collapsed ==> sidebar_columns(screen) == 4,
        !screen.sidebar_collapsed && !screen.sidebar_width_auto ==> (18 <= screen.sidebar_width
            <= 36 ==> sidebar_columns(screen) == screen.sidebar_width),
        !screen.sidebar_collapsed ==> 18 <= sidebar_columns(screen) <= 36,
        screen.workspaces@.len() > screen.workspace_scroll ==> list_scroll(screen)
            == screen.workspace_scroll,
        0 < screen.workspaces@.len() <= screen.workspace_scroll ==> list_scroll(screen)
            == screen.workspaces@.len() - 1,
{
}

} // verus!
